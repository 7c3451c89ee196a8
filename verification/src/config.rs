//! The settings that have a value before the user has chosen one.

use vstd::prelude::*;

verus! {

/// The two colours in which the notes of one track are drawn.
#[derive(Debug, Clone, Copy)]
pub struct ColorSchema {
    pub base: (u8, u8, u8),
    pub dark: (u8, u8, u8),
}

impl Default for ColorSchema {
    fn default() -> (schema: Self)
        ensures
            schema == (ColorSchema { base: (0, 0, 0), dark: (0, 0, 0) }),
    {
        ColorSchema { base: (0, 0, 0), dark: (0, 0, 0) }
    }
}

/// The colours of the first two tracks: blue, then purple.
pub open spec fn default_colors() -> Seq<ColorSchema> {
    seq![
        ColorSchema { base: (93, 188, 255), dark: (48, 124, 255) },
        ColorSchema { base: (210, 89, 222), dark: (125, 69, 134) },
    ]
}

/// Whether the player waits for the user: it does not, unless asked to.
pub fn default_play_along() -> (on: bool)
    ensures
        !on,
{
    false
}

/// The colours of the tracks.
pub fn default_color_schema() -> (colors: Vec<ColorSchema>)
    ensures
        colors@ == default_colors(),
{
    let mut colors: Vec<ColorSchema> = Vec::new();
    colors.push(ColorSchema { base: (93, 188, 255), dark: (48, 124, 255) });
    colors.push(ColorSchema { base: (210, 89, 222), dark: (125, 69, 134) });
    proof {
        assert(colors@ =~= default_colors());
    }
    colors
}

/// The output that plays: the synthesizer that is built in.
pub fn default_output() -> (output: Option<String>)
    ensures
        output matches Some(name) && name@ == "Buildin Synth"@,
{
    Some("Buildin Synth".to_owned())
}

/// The setting that stands for an output named `name`: none for the output
/// that plays nothing (`dummy`), the name for any other.
pub fn output_setting(dummy: bool, name: String) -> (setting: Option<String>)
    ensures
        setting == if dummy { None } else { Some(name) },
{
    if dummy {
        None
    } else {
        Some(name)
    }
}

} // verus!
