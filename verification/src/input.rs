//! The sixteen-key keypad.
use vstd::prelude::*;

verus! {

/// Number of keys of the keypad.
pub const KEY_COUNT: usize = 16;

/// The keypad: one flag per key, set while the key is pressed.
pub struct Input {
    keys: Vec<bool>,
}

impl View for Input {
    type V = Seq<bool>;

    closed spec fn view(&self) -> Seq<bool> {
        self.keys@
    }
}

/// Some key is pressed.
pub open spec fn some_pressed(keys: Seq<bool>) -> bool {
    exists|i: int| 0 <= i < keys.len() && #[trigger] keys[i]
}

/// The lowest pressed key at or after `from`, or 0 where none is.
pub open spec fn first_pressed_from(keys: Seq<bool>, from: int) -> int
    decreases keys.len() - from,
{
    if from < 0 || from >= keys.len() {
        0
    } else if keys[from] {
        from
    } else {
        first_pressed_from(keys, from + 1)
    }
}

/// The lowest pressed key, or 0 where none is.
pub open spec fn first_pressed(keys: Seq<bool>) -> int {
    first_pressed_from(keys, 0)
}

/// Where a key at or after `from` is pressed, `first_pressed_from` is the lowest
/// such key; where none is, it is 0.
pub proof fn lemma_first_pressed_from(keys: Seq<bool>, from: int)
    requires
        0 <= from,
    ensures
        0 <= first_pressed_from(keys, from) < keys.len() || first_pressed_from(keys, from) == 0,
        (exists|i: int| from <= i < keys.len() && #[trigger] keys[i]) ==> {
            &&& from <= first_pressed_from(keys, from) < keys.len()
            &&& keys[first_pressed_from(keys, from)]
            &&& forall|j: int| from <= j < first_pressed_from(keys, from) ==> !#[trigger] keys[j]
        },
        !(exists|i: int| from <= i < keys.len() && #[trigger] keys[i]) ==> first_pressed_from(
            keys,
            from,
        ) == 0,
    decreases keys.len() - from,
{
    if from < keys.len() {
        lemma_first_pressed_from(keys, from + 1);
        if !keys[from] {
            if exists|i: int| from <= i < keys.len() && #[trigger] keys[i] {
                let i = choose|i: int| from <= i < keys.len() && #[trigger] keys[i];
                assert(from + 1 <= i);
            }
        }
    }
}

impl Input {
    /// The keypad has exactly `KEY_COUNT` keys.
    pub open spec fn wf(&self) -> bool {
        self@.len() == KEY_COUNT
    }

    /// A keypad with no key pressed.
    pub fn new() -> (r: Input)
        ensures
            r.wf(),
            forall|i: int| 0 <= i < KEY_COUNT ==> !#[trigger] r@[i],
    {
        let mut keys: Vec<bool> = Vec::new();
        let mut i: usize = 0;
        while i < KEY_COUNT
            invariant
                i <= KEY_COUNT,
                keys@.len() == i,
                forall|j: int| 0 <= j < i ==> !#[trigger] keys@[j],
            decreases KEY_COUNT - i,
        {
            keys.push(false);
            i = i + 1;
        }
        Input { keys }
    }

    /// Marks key `i` as pressed.
    pub fn set(&mut self, i: usize)
        requires
            old(self).wf(),
            i < KEY_COUNT,
        ensures
            final(self).wf(),
            final(self)@ == old(self)@.update(i as int, true),
    {
        self.keys.set(i, true);
    }

    /// Whether key `i` is pressed.
    pub fn is_set(&self, i: usize) -> (r: bool)
        requires
            self.wf(),
            i < KEY_COUNT,
        ensures
            r == self@[i as int],
    {
        self.keys[i]
    }

    /// Whether any key is pressed.
    pub fn any_pressed(&self) -> (r: bool)
        requires
            self.wf(),
        ensures
            r == some_pressed(self@),
    {
        let mut i: usize = 0;
        while i < self.keys.len()
            invariant
                self.wf(),
                i <= KEY_COUNT,
                forall|j: int| 0 <= j < i ==> !#[trigger] self@[j],
            decreases KEY_COUNT - i,
        {
            if self.keys[i] == true {
                return true;
            }
            i = i + 1;
        }
        false
    }

    /// The lowest key that is pressed, or 0 where none is.
    pub fn get_key_pressed(&self) -> (r: u8)
        requires
            self.wf(),
        ensures
            r == first_pressed(self@),
            some_pressed(self@) ==> self@[r as int] && forall|j: int|
                0 <= j < r ==> !#[trigger] self@[j],
            !some_pressed(self@) ==> r == 0,
    {
        proof {
            lemma_first_pressed_from(self@, 0);
        }
        let mut i: usize = 0;
        while i < self.keys.len()
            invariant
                self.wf(),
                i <= KEY_COUNT,
                forall|j: int| 0 <= j < i ==> !#[trigger] self@[j],
                first_pressed_from(self@, 0) == first_pressed_from(self@, i as int),
            decreases KEY_COUNT - i,
        {
            if self.keys[i] != false {
                return i as u8;
            }
            i = i + 1;
        }
        0
    }
}

} // verus!
