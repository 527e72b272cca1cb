use std::collections::HashSet;
use vstd::prelude::*;

verus! {

broadcast use vstd::std_specs::hash::group_hash_axioms;

/// Which of a fixed list of keys are held down, now and at the update
/// before, so that the moment a key goes down can be told from its being
/// held. A key is known by its code.
pub struct PlayerInput {
    checked_keys: Vec<u32>,
    keystates: HashSet<u32>,
    previous_keystates: HashSet<u32>,
}

/// The keys among `keys` that are held down, where `pressed[i]` tells whether
/// `keys[i]` is.
pub open spec fn pressed_keys(keys: Seq<u32>, pressed: Seq<bool>) -> Set<u32> {
    Set::new(
        |key: u32| exists|i: int| 0 <= i < keys.len() && i < pressed.len() && keys[i] == key && pressed[i],
    )
}

impl PlayerInput {
    /// The keys that are watched.
    pub closed spec fn checked(&self) -> Seq<u32> {
        self.checked_keys@
    }

    /// The watched keys that were held down at the last update.
    pub closed spec fn held(&self) -> Set<u32> {
        self.keystates@
    }

    /// The watched keys that were held down at the update before the last.
    pub closed spec fn held_before(&self) -> Set<u32> {
        self.previous_keystates@
    }

    /// Watches `keys`; none of them counts as held down yet.
    pub fn new(keys: Vec<u32>) -> (input: PlayerInput)
        ensures
            input.checked() == keys@,
            input.held() == Set::<u32>::empty(),
            input.held_before() == Set::<u32>::empty(),
    {
        PlayerInput {
            checked_keys: keys,
            keystates: HashSet::new(),
            previous_keystates: HashSet::new(),
        }
    }

    /// The codes of the keys that are watched, in the order in which
    /// `update` takes their readings.
    pub fn checked_keys(&self) -> (keys: &Vec<u32>)
        ensures
            keys@ == self.checked(),
    {
        &self.checked_keys
    }

    /// Takes a new reading of the keyboard: `pressed[i]` tells whether the
    /// `i`-th watched key is held down. The last reading becomes the one before.
    pub fn update(&mut self, pressed: &Vec<bool>)
        requires
            pressed@.len() == old(self).checked().len(),
        ensures
            final(self).checked() == old(self).checked(),
            final(self).held_before() == old(self).held(),
            final(self).held() == pressed_keys(old(self).checked(), pressed@),
    {
        let mut keystates = self.generate_hashset_from_input(pressed);
        core::mem::swap(&mut self.keystates, &mut keystates);
        self.previous_keystates = keystates;
    }

    fn generate_hashset_from_input(&self, pressed: &Vec<bool>) -> (set: HashSet<u32>)
        requires
            pressed@.len() == self.checked().len(),
        ensures
            set@ == pressed_keys(self.checked(), pressed@),
    {
        let mut set: HashSet<u32> = HashSet::new();
        for i in 0..self.checked_keys.len()
            invariant
                pressed@.len() == self.checked_keys@.len(),
                set@ == pressed_keys(self.checked_keys@.take(i as int), pressed@),
        {
            let ghost before = set@;
            if pressed[i] {
                set.insert(self.checked_keys[i]);
            }
            proof {
                let keys = self.checked_keys@;
                assert forall|key: u32|
                    set@.contains(key) == pressed_keys(keys.take(i + 1), pressed@).contains(
                        key,
                    ) by {
                    if before.contains(key) {
                        let j = choose|j: int|
                            0 <= j < i && keys.take(i as int)[j] == key && pressed@[j];
                        assert(keys.take(i + 1)[j] == key);
                    }
                    if pressed_keys(keys.take(i + 1), pressed@).contains(key) {
                        let j = choose|j: int|
                            0 <= j <= i && keys.take(i + 1)[j] == key && pressed@[j];
                        if j < i {
                            assert(keys.take(i as int)[j] == key);
                        }
                    }
                    if pressed@[i as int] {
                        assert(keys.take(i + 1)[i as int] == keys[i as int]);
                    }
                }
            }
        }
        proof {
            assert(self.checked_keys@.take(self.checked_keys@.len() as int) =~= self.checked_keys@);
        }
        set
    }

    /// Whether `key` went down between the last two updates: it is held
    /// down now and was not at the update before.
    pub fn just_pressed(&self, key: u32) -> (pressed: bool)
        ensures
            pressed == (!self.held_before().contains(key) && self.held().contains(key)),
    {
        !self.previous_keystates.contains(&key) && self.keystates.contains(&key)
    }
}

} // verus!
