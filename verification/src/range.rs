//! The keyboard: which keys exist, and which of them are black.

use vstd::prelude::*;

verus! {

/// Whether the key with this number is a black key: its place within the
/// octave is one of C#, D#, F#, G#, A#.
pub open spec fn is_black_key(id: int) -> bool {
    let k = id % 12;
    k == 1 || k == 3 || k == 6 || k == 8 || k == 10
}

/// The number of one key, as MIDI counts them.
#[derive(Debug, PartialEq, Eq, Clone, Copy, Structural)]
pub struct KeyId(pub u8);

impl KeyId {
    /// Whether the key is black.
    pub fn is_black(&self) -> (black: bool)
        ensures
            black == is_black_key(self.0 as int),
    {
        let key: u8 = self.0 % 12;
        key == 1 || key == 3 || key == 6 || key == 8 || key == 10
    }
}

/// One end of an interval of key numbers.
#[derive(Debug, PartialEq, Eq, Clone, Copy, Structural)]
pub enum KeyBound {
    Included(usize),
    Excluded(usize),
    Unbounded,
}

/// The number of key numbers there are: a key number is a byte, so the keys
/// run from 0 to 255, and a keyboard can end no higher than just past 255.
pub const KEY_COUNT: u16 = 256;

/// A number of the interval, or `KEY_COUNT` if it lies beyond every key.
pub open spec fn within_keys(n: int) -> int {
    if n > KEY_COUNT {
        KEY_COUNT as int
    } else {
        n
    }
}

/// The first key number of an interval that starts at `bound`: the lowest
/// key, 0, where the interval has no lower end. A start beyond the top key
/// leaves no key.
pub open spec fn first_key(bound: KeyBound) -> int {
    match bound {
        KeyBound::Included(id) => within_keys(id as int),
        KeyBound::Excluded(id) => within_keys(id as int + 1),
        KeyBound::Unbounded => 0,
    }
}

/// The key number just past an interval that ends at `bound`: just past the
/// top key, 255, where the interval has no upper end or ends beyond it.
pub open spec fn end_key(bound: KeyBound) -> int {
    match bound {
        KeyBound::Included(id) => within_keys(id as int + 1),
        KeyBound::Excluded(id) => within_keys(id as int),
        KeyBound::Unbounded => KEY_COUNT as int,
    }
}

/// The keys `start`, `start + 1`, .. up to but excluding `end`, in ascending
/// order; none if `end <= start`.
pub open spec fn keys_between(start: int, end: int) -> Seq<KeyId> {
    Seq::new(
        if start <= end { (end - start) as nat } else { 0 },
        |i: int| KeyId((start + i) as u8),
    )
}

/// The white keys of `keys`, in the order in which they stand there.
pub open spec fn white_of(keys: Seq<KeyId>) -> Seq<KeyId> {
    keys.filter(|k: KeyId| !is_black_key(k.0 as int))
}

/// The black keys of `keys`, in the order in which they stand there.
pub open spec fn black_of(keys: Seq<KeyId>) -> Seq<KeyId> {
    keys.filter(|k: KeyId| is_black_key(k.0 as int))
}

/// The number of black keys among the key numbers below `n`: five in each
/// whole octave, and those of the octave begun.
pub open spec fn blacks_below(n: int) -> int {
    let r = n % 12;
    5 * (n / 12) + if r <= 1 {
        0int
    } else if r <= 3 {
        1int
    } else if r <= 6 {
        2int
    } else if r <= 8 {
        3int
    } else if r <= 10 {
        4int
    } else {
        5int
    }
}

/// A contiguous span of keys, with its white and its black keys listed apart.
#[derive(Debug)]
pub struct KeyboardRange {
    start: u16,
    end: u16,
    keys: Vec<KeyId>,
    white_keys: Vec<KeyId>,
    black_keys: Vec<KeyId>,
}

impl KeyboardRange {
    /// The first key number of the span.
    pub closed spec fn start(&self) -> int {
        self.start as int
    }

    /// The key number just past the span.
    pub closed spec fn end(&self) -> int {
        self.end as int
    }

    /// All keys of the span, ascending.
    pub closed spec fn keys(&self) -> Seq<KeyId> {
        self.keys@
    }

    /// The white keys of the span, ascending.
    pub closed spec fn white_keys(&self) -> Seq<KeyId> {
        self.white_keys@
    }

    /// The black keys of the span, ascending.
    pub closed spec fn black_keys(&self) -> Seq<KeyId> {
        self.black_keys@
    }

    /// What holds of every keyboard range: the three lists are the keys of
    /// the span and its two colours.
    #[verifier::type_invariant]
    pub closed spec fn wf(&self) -> bool {
        &&& self.start <= KEY_COUNT
        &&& self.end <= KEY_COUNT
        &&& self.keys@ == keys_between(self.start as int, self.end as int)
        &&& self.white_keys@ == white_of(self.keys@)
        &&& self.black_keys@ == black_of(self.keys@)
    }

    /// The keys from `start` to `end`. An interval without a lower end
    /// starts at key 0, one without an upper end runs to the top key, 255. An
    /// empty or reversed interval gives a range without keys.
    pub fn new(start: KeyBound, end: KeyBound) -> (range: Self)
        ensures
            range.wf(),
            range.start() == first_key(start),
            range.end() == end_key(end),
            0 <= range.start() <= KEY_COUNT,
            0 <= range.end() <= KEY_COUNT,
            range.keys() == keys_between(first_key(start), end_key(end)),
            range.white_keys() == white_of(range.keys()),
            range.black_keys() == black_of(range.keys()),
            range.keys().len() == range.white_keys().len() + range.black_keys().len(),
    {
        let first: u16 = match start {
            KeyBound::Included(id) => if id >= 256 {
                KEY_COUNT
            } else {
                id as u16
            },
            KeyBound::Excluded(id) => if id >= 255 {
                KEY_COUNT
            } else {
                (id + 1) as u16
            },
            KeyBound::Unbounded => 0,
        };
        let last: u16 = match end {
            KeyBound::Included(id) => if id >= 255 {
                KEY_COUNT
            } else {
                (id + 1) as u16
            },
            KeyBound::Excluded(id) => if id >= 256 {
                KEY_COUNT
            } else {
                id as u16
            },
            KeyBound::Unbounded => KEY_COUNT,
        };

        let mut keys: Vec<KeyId> = Vec::new();
        let mut white_keys: Vec<KeyId> = Vec::new();
        let mut black_keys: Vec<KeyId> = Vec::new();

        proof {
            KeyboardRange::lemma_colours_of_no_keys();
        }
        let mut id: u16 = first;
        while id < last
            invariant
                last <= KEY_COUNT,
                first <= id <= last || (last < first && id == first),
                keys@ == keys_between(first as int, id as int),
                white_keys@ == white_of(keys@),
                black_keys@ == black_of(keys@),
            decreases last - id,
        {
            let key = KeyId(id as u8);
            proof {
                let white = |k: KeyId| !is_black_key(k.0 as int);
                let black = |k: KeyId| is_black_key(k.0 as int);
                keys@.lemma_filter_push(key, white);
                keys@.lemma_filter_push(key, black);
                assert(keys@.push(key) =~= keys_between(first as int, id as int + 1));
            }
            keys.push(key);
            if key.is_black() {
                black_keys.push(key);
            } else {
                white_keys.push(key);
            }
            id = id + 1;
        }
        proof {
            assert(keys@ =~= keys_between(first as int, last as int));
            lemma_colours_part_keys(keys@);
        }

        KeyboardRange { start: first, end: last, keys, white_keys, black_keys }
    }

    /// The 88 keys of a piano, from A0 (21) to C8 (108): 52 white and 36
    /// black.
    pub fn standard_88_keys() -> (range: Self)
        ensures
            range.wf(),
            range.start() == 21,
            range.end() == 109,
            range.keys() == keys_between(21, 109),
            range.white_keys() == white_of(range.keys()),
            range.black_keys() == black_of(range.keys()),
            range.keys().len() == 88,
            range.white_keys().len() == 52,
            range.black_keys().len() == 36,
    {
        proof {
            lemma_colour_counts(21, 109);
        }
        KeyboardRange::new(KeyBound::Included(21), KeyBound::Included(108))
    }

    /// Whether `item` is a key of the range.
    pub fn contains(&self, item: u8) -> (found: bool)
        ensures
            found == (self.start() <= item < self.end()),
            found == self.keys().contains(KeyId(item)),
    {
        proof {
            use_type_invariant(self);
            let keys = keys_between(self.start as int, self.end as int);
            if self.start <= item && item < self.end {
                assert(keys[item - self.start] == KeyId(item));
            }
        }
        let key: u16 = item as u16;
        self.start <= key && key < self.end
    }

    /// The number of keys in the range.
    pub fn count(&self) -> (n: usize)
        ensures
            n == self.keys().len(),
            n == if self.start() <= self.end() { self.end() - self.start() } else { 0 },
            n == self.white_keys().len() + self.black_keys().len(),
    {
        proof {
            use_type_invariant(self);
            lemma_colours_part_keys(self.keys@);
        }
        self.keys.len()
    }

    /// The number of white keys in the range.
    pub fn white_count(&self) -> (n: usize)
        ensures
            n == self.white_keys().len(),
            n == white_of(self.keys()).len(),
            n == self.keys().len() - self.black_keys().len(),
    {
        proof {
            use_type_invariant(self);
            lemma_colours_part_keys(self.keys@);
        }
        self.white_keys.len()
    }

    /// The number of black keys in the range.
    pub fn black_count(&self) -> (n: usize)
        ensures
            n == self.black_keys().len(),
            n == black_of(self.keys()).len(),
            n == if self.start() <= self.end() {
                blacks_below(self.end()) - blacks_below(self.start())
            } else {
                0
            },
    {
        proof {
            use_type_invariant(self);
            if self.start <= self.end {
                lemma_colour_counts(self.start as int, self.end as int);
            } else {
                KeyboardRange::lemma_colours_of_no_keys();
                assert(self.keys@ =~= Seq::<KeyId>::empty());
            }
        }
        self.black_keys.len()
    }

    /// All keys of the range, ascending.
    pub fn iter(&self) -> (keys: &[KeyId])
        ensures
            keys@ == self.keys(),
            keys@ == keys_between(self.start(), self.end()),
    {
        proof {
            use_type_invariant(self);
        }
        self.keys.as_slice()
    }

    /// The white keys of the range, ascending.
    pub fn white_iter(&self) -> (keys: &[KeyId])
        ensures
            keys@ == self.white_keys(),
            keys@ == white_of(self.keys()),
    {
        proof {
            use_type_invariant(self);
        }
        self.white_keys.as_slice()
    }

    /// The black keys of the range, ascending.
    pub fn black_iter(&self) -> (keys: &[KeyId])
        ensures
            keys@ == self.black_keys(),
            keys@ == black_of(self.keys()),
    {
        proof {
            use_type_invariant(self);
        }
        self.black_keys.as_slice()
    }

    proof fn lemma_colours_of_no_keys()
        ensures
            white_of(Seq::<KeyId>::empty()) == Seq::<KeyId>::empty(),
            black_of(Seq::<KeyId>::empty()) == Seq::<KeyId>::empty(),
    {
        reveal(Seq::filter);
    }
}

impl Clone for KeyboardRange {
    fn clone(&self) -> (range: Self)
        ensures
            range.wf(),
            range.start() == self.start(),
            range.end() == self.end(),
            range.keys() == self.keys(),
            range.white_keys() == self.white_keys(),
            range.black_keys() == self.black_keys(),
    {
        proof {
            use_type_invariant(self);
        }
        let keys = self.keys.clone();
        let white_keys = self.white_keys.clone();
        let black_keys = self.black_keys.clone();
        proof {
            assert(keys@ =~= self.keys@);
            assert(white_keys@ =~= self.white_keys@);
            assert(black_keys@ =~= self.black_keys@);
        }
        KeyboardRange { start: self.start, end: self.end, keys, white_keys, black_keys }
    }
}

impl Default for KeyboardRange {
    fn default() -> (range: Self)
        ensures
            range.wf(),
            range.keys() == keys_between(21, 109),
            range.white_keys() == white_of(range.keys()),
            range.black_keys() == black_of(range.keys()),
            range.keys().len() == 88,
            range.white_keys().len() == 52,
            range.black_keys().len() == 36,
    {
        KeyboardRange::standard_88_keys()
    }
}

/// Every key of a sequence is among its white keys or among its black keys,
/// never among both, and the two colours together are as many as the keys.
pub proof fn lemma_colours_part_keys(keys: Seq<KeyId>)
    ensures
        white_of(keys).len() + black_of(keys).len() == keys.len(),
        forall|k: KeyId| #[trigger]
            keys.contains(k) ==> (white_of(keys).contains(k) <==> !black_of(keys).contains(k)),
        forall|k: KeyId| #[trigger]
            white_of(keys).contains(k) ==> keys.contains(k) && !is_black_key(k.0 as int),
        forall|k: KeyId| #[trigger]
            black_of(keys).contains(k) ==> keys.contains(k) && is_black_key(k.0 as int),
    decreases keys.len(),
{
    let white = |k: KeyId| !is_black_key(k.0 as int);
    let black = |k: KeyId| is_black_key(k.0 as int);
    if keys.len() == 0 {
        reveal(Seq::filter);
    } else {
        let front = keys.drop_last();
        let last = keys.last();
        lemma_colours_part_keys(front);
        assert(keys =~= front.push(last));
        front.lemma_filter_push(last, white);
        front.lemma_filter_push(last, black);
        assert forall|k: KeyId| #[trigger] white_of(keys).contains(k) implies keys.contains(k)
            && !is_black_key(k.0 as int) by {
            keys.lemma_filter_contains_rev(white, k);
        }
        assert forall|k: KeyId| #[trigger] black_of(keys).contains(k) implies keys.contains(k)
            && is_black_key(k.0 as int) by {
            keys.lemma_filter_contains_rev(black, k);
        }
        assert forall|k: KeyId| #[trigger] keys.contains(k) implies (white_of(keys).contains(k)
            <==> !black_of(keys).contains(k)) by {
            let i = choose|i: int| 0 <= i < keys.len() && keys[i] == k;
            if is_black_key(k.0 as int) {
                keys.lemma_filter_contains(black, i);
            } else {
                keys.lemma_filter_contains(white, i);
            }
        }
    }
}

/// A keyboard range counts as many keys as white and black keys together,
/// and each of its keys has one colour.
pub proof fn lemma_counts_add_up(range: KeyboardRange)
    requires
        range.wf(),
    ensures
        range.keys().len() == range.white_keys().len() + range.black_keys().len(),
        forall|k: KeyId| #[trigger]
            range.keys().contains(k) ==> (range.white_keys().contains(k)
                <==> !range.black_keys().contains(k)),
{
    lemma_colours_part_keys(range.keys());
}

/// How many keys of each colour lie in a span of key numbers.
pub proof fn lemma_colour_counts(start: int, end: int)
    requires
        0 <= start <= end <= 256,
    ensures
        keys_between(start, end).len() == end - start,
        black_of(keys_between(start, end)).len() == blacks_below(end) - blacks_below(start),
        white_of(keys_between(start, end)).len() == (end - start) - (blacks_below(end)
            - blacks_below(start)),
    decreases end - start,
{
    let white = |k: KeyId| !is_black_key(k.0 as int);
    let black = |k: KeyId| is_black_key(k.0 as int);
    if start == end {
        assert(keys_between(start, end) =~= Seq::<KeyId>::empty());
        reveal(Seq::filter);
    } else {
        lemma_colour_counts(start, end - 1);
        let front = keys_between(start, end - 1);
        let last = KeyId((end - 1) as u8);
        assert(keys_between(start, end) =~= front.push(last));
        front.lemma_filter_push(last, white);
        front.lemma_filter_push(last, black);
    }
}

/// An interval that starts at a key and has no upper end holds that key and
/// every key above it, up to the top key.
pub proof fn lemma_open_interval_reaches_top(start: usize)
    requires
        start < KEY_COUNT,
    ensures
        ({
            let keys = keys_between(
                first_key(KeyBound::Included(start)),
                end_key(KeyBound::Unbounded),
            );
            &&& keys.len() == KEY_COUNT - start
            &&& forall|id: u8| start <= id ==> #[trigger] keys.contains(KeyId(id))
            &&& forall|id: u8| id < start ==> !#[trigger] keys.contains(KeyId(id))
        }),
{
    let keys = keys_between(start as int, KEY_COUNT as int);
    assert forall|id: u8| start <= id implies #[trigger] keys.contains(KeyId(id)) by {
        assert(keys[id - start] == KeyId(id));
    }
}

} // verus!
