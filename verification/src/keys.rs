use vstd::prelude::*;

verus! {

/// A point-in-time picture of the sixteen virtual keys, `0x0` to `0xF`.
#[derive(Clone, Copy, Debug)]
pub struct Keys {
    pub down: [bool; 16],
}

impl View for Keys {
    type V = Seq<bool>;

    open spec fn view(&self) -> Seq<bool> {
        self.down@
    }
}

/// Whether the virtual key `key` is held in the picture `keys`. Codes above
/// `0xF` name no key and are never held.
pub open spec fn key_down(keys: Seq<bool>, key: int) -> bool {
    0 <= key < 16 && key < keys.len() && keys[key]
}

/// The lowest key code held in `keys` at or above `from`, if any.
pub open spec fn lowest_down(keys: Seq<bool>, from: int) -> Option<u8>
    decreases 16 - from,
{
    if from < 0 || from >= 16 {
        None
    } else if key_down(keys, from) {
        Some(from as u8)
    } else {
        lowest_down(keys, from + 1)
    }
}

impl Keys {
    /// The picture in which no key is held.
    pub fn none() -> (keys: Keys)
        ensures
            keys@.len() == 16,
            forall|k: int| !key_down(keys@, k),
    {
        Keys { down: [false; 16] }
    }

    /// Marks `key` as held. Codes above `0xF` name no key and change nothing.
    pub fn press(&mut self, key: u8)
        ensures
            key < 16 ==> final(self)@ == old(self)@.update(key as int, true),
            key >= 16 ==> final(self)@ == old(self)@,
    {
        if key < 16 {
            self.down[key as usize] = true;
        }
    }

    /// Whether `key` is held.
    pub fn is_pressed(&self, key: u8) -> (held: bool)
        ensures
            held == key_down(self@, key as int),
    {
        key < 16 && self.down[key as usize]
    }

    /// The lowest key code that is held, if any key is.
    pub fn first_pressed(&self) -> (found: Option<u8>)
        ensures
            found == lowest_down(self@, 0),
    {
        let mut k: u8 = 0;
        while k < 16
            invariant
                k <= 16,
                lowest_down(self@, 0) == lowest_down(self@, k as int),
            decreases 16 - k,
        {
            if self.down[k as usize] {
                return Some(k);
            }
            k += 1;
        }
        None
    }
}

/// What the search for the lowest held key finds: a held key with none held
/// below it, or nothing when no key is held.
pub proof fn lemma_lowest_down(keys: Seq<bool>, from: int)
    requires
        0 <= from <= 16,
    ensures
        match lowest_down(keys, from) {
            Some(key) => from <= key < 16 && key_down(keys, key as int) && forall|k: int|
                from <= k < key ==> !key_down(keys, k),
            None => forall|k: int| from <= k < 16 ==> !key_down(keys, k),
        },
    decreases 16 - from,
{
    if from < 16 && !key_down(keys, from) {
        lemma_lowest_down(keys, from + 1);
    }
}

} // verus!
