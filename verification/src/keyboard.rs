//! Per-frame keyboard state.
//!
//! Keys are identified by plain key codes; the windowing layer translates
//! its own key type into codes before handing them in.

use vstd::prelude::*;

verus! {

/// Identifies a key on the keyboard.
pub type KeyCode = u32;

/// The state of one key within the current frame.
#[derive(Debug, Clone, Copy, PartialEq, Eq, Structural)]
pub enum KeyState {
    /// The key is up, e.g. not pressed.
    Up,
    /// The key was pressed this frame.
    Pressed,
    /// The key was released this frame.
    Released,
    /// The key is being held down: pressed in a previous frame and not
    /// released since.
    Held,
}

impl KeyState {
    /// The state a key moves to when a frame ends: a fresh press becomes
    /// held, a fresh release becomes up, everything else stays.
    pub open spec fn spec_step(self) -> KeyState {
        match self {
            KeyState::Pressed => KeyState::Held,
            KeyState::Released => KeyState::Up,
            s => s,
        }
    }
}

/// The keyboard: the last known state of every key that was ever touched.
pub struct Keyboard {
    states: Vec<(KeyCode, KeyState)>,
}

/// The key-state map described by a sequence of pairs; later pairs win,
/// though a well-formed keyboard never repeats a key.
pub closed spec fn map_of_pairs(s: Seq<(KeyCode, KeyState)>) -> Map<KeyCode, KeyState>
    decreases s.len(),
{
    if s.len() == 0 {
        Map::empty()
    } else {
        map_of_pairs(s.drop_last()).insert(s.last().0, s.last().1)
    }
}

/// No two pairs carry the same key.
pub closed spec fn keys_distinct(s: Seq<(KeyCode, KeyState)>) -> bool {
    forall|i: int, j: int| 0 <= i < j < s.len() ==> s[i].0 != s[j].0
}

proof fn lemma_pairs_contains(s: Seq<(KeyCode, KeyState)>, key: KeyCode)
    ensures
        map_of_pairs(s).contains_key(key) <==> exists|i: int| 0 <= i < s.len() && s[i].0 == key,
    decreases s.len(),
{
    if s.len() > 0 {
        lemma_pairs_contains(s.drop_last(), key);
        if s.last().0 != key {
            if map_of_pairs(s).contains_key(key) {
                let i = choose|i: int| 0 <= i < s.drop_last().len() && s.drop_last()[i].0 == key;
                assert(s[i].0 == key);
            }
            if exists|i: int| 0 <= i < s.len() && s[i].0 == key {
                let i = choose|i: int| 0 <= i < s.len() && s[i].0 == key;
                assert(s.drop_last()[i].0 == key);
            }
        }
    }
}

proof fn lemma_pairs_index(s: Seq<(KeyCode, KeyState)>, i: int)
    requires
        keys_distinct(s),
        0 <= i < s.len(),
    ensures
        map_of_pairs(s).contains_key(s[i].0),
        map_of_pairs(s)[s[i].0] == s[i].1,
    decreases s.len(),
{
    if i < s.len() - 1 {
        assert(s.drop_last()[i] == s[i]);
        lemma_pairs_index(s.drop_last(), i);
        assert(s[i].0 != s.last().0);
    }
}

proof fn lemma_pairs_update(s: Seq<(KeyCode, KeyState)>, i: int, pair: (KeyCode, KeyState))
    requires
        keys_distinct(s),
        0 <= i < s.len(),
        pair.0 == s[i].0,
    ensures
        map_of_pairs(s.update(i, pair)) =~= map_of_pairs(s).insert(pair.0, pair.1),
    decreases s.len(),
{
    let s2 = s.update(i, pair);
    if i == s.len() - 1 {
        assert(s2.drop_last() =~= s.drop_last());
        assert(s2.last() == pair);
    } else {
        assert(s2.drop_last() =~= s.drop_last().update(i, pair));
        assert(s2.last() == s.last());
        lemma_pairs_update(s.drop_last(), i, pair);
        assert(s.drop_last()[i] == s[i]);
        assert(s.last().0 != pair.0);
    }
}

proof fn lemma_pairs_pointwise_step(s: Seq<(KeyCode, KeyState)>, s2: Seq<(KeyCode, KeyState)>)
    requires
        s2.len() == s.len(),
        forall|j: int| 0 <= j < s.len() ==> s2[j].0 == s[j].0 && s2[j].1 == s[j].1.spec_step(),
    ensures
        map_of_pairs(s2).dom() =~= map_of_pairs(s).dom(),
        forall|k: KeyCode| #[trigger] map_of_pairs(s).contains_key(k) ==> map_of_pairs(s2)[k]
            == map_of_pairs(s)[k].spec_step(),
    decreases s.len(),
{
    if s.len() > 0 {
        assert(forall|j: int|
            0 <= j < s.drop_last().len() ==> s2.drop_last()[j].0 == s.drop_last()[j].0
                && s2.drop_last()[j].1 == s.drop_last()[j].1.spec_step());
        lemma_pairs_pointwise_step(s.drop_last(), s2.drop_last());
        assert(s2.last().0 == s.last().0);
    }
}

impl View for Keyboard {
    type V = Map<KeyCode, KeyState>;

    closed spec fn view(&self) -> Map<KeyCode, KeyState> {
        map_of_pairs(self.states@)
    }
}

impl Keyboard {
    /// Internal well-formedness: every key appears at most once.
    pub closed spec fn wf(&self) -> bool {
        keys_distinct(self.states@)
    }

    /// Creates a keyboard with no key ever touched.
    pub fn new() -> (kb: Self)
        ensures
            kb.wf(),
            kb@ =~= Map::<KeyCode, KeyState>::empty(),
    {
        Keyboard { states: Vec::new() }
    }

    /// Index of the pair holding `key`, if any.
    fn find(&self, key: KeyCode) -> (r: Option<usize>)
        requires
            self.wf(),
        ensures
            match r {
                Some(i) => {
                    &&& i < self.states@.len()
                    &&& self.states@[i as int].0 == key
                    &&& self@.contains_key(key)
                    &&& self@[key] == self.states@[i as int].1
                },
                None => !self@.contains_key(key),
            },
    {
        let n = self.states.len();
        let mut i: usize = 0;
        while i < n
            invariant
                self.wf(),
                n == self.states@.len(),
                i <= n,
                forall|j: int| 0 <= j < i ==> self.states@[j].0 != key,
            decreases n - i,
        {
            if self.states[i].0 == key {
                proof {
                    lemma_pairs_index(self.states@, i as int);
                }
                return Some(i);
            }
            i += 1;
        }
        proof {
            lemma_pairs_contains(self.states@, key);
        }
        None
    }

    /// Records `state` as the current state of `key`.
    pub fn set_key_state(&mut self, key: KeyCode, state: KeyState)
        requires
            old(self).wf(),
        ensures
            final(self).wf(),
            final(self)@ =~= old(self)@.insert(key, state),
    {
        match self.find(key) {
            Some(i) => {
                self.states[i] = (key, state);
                proof {
                    lemma_pairs_update(old(self).states@, i as int, (key, state));
                }
            },
            None => {
                proof {
                    lemma_pairs_contains(self.states@, key);
                }
                self.states.push((key, state));
                proof {
                    assert(self.states@.drop_last() =~= old(self).states@);
                }
            },
        }
    }

    /// The last recorded state of `key`, or `None` if it was never
    /// touched.
    pub fn get_key_state(&self, key: KeyCode) -> (r: Option<KeyState>)
        requires
            self.wf(),
        ensures
            match r {
                Some(s) => self@.contains_key(key) && self@[key] == s,
                None => !self@.contains_key(key),
            },
    {
        match self.find(key) {
            Some(i) => Some(self.states[i].1),
            None => None,
        }
    }

    /// Returns true if the key was pressed this frame.
    pub fn is_key_pressed(&self, key: KeyCode) -> (r: bool)
        requires
            self.wf(),
        ensures
            r == (self@.contains_key(key) && self@[key] == KeyState::Pressed),
    {
        matches!(self.get_key_state(key), Some(KeyState::Pressed))
    }

    /// Returns true if the key is currently being held down.
    pub fn is_key_held(&self, key: KeyCode) -> (r: bool)
        requires
            self.wf(),
        ensures
            r == (self@.contains_key(key) && self@[key] == KeyState::Held),
    {
        matches!(self.get_key_state(key), Some(KeyState::Held))
    }

    /// Records `key` as freshly pressed.
    pub fn press_key(&mut self, key: KeyCode)
        requires
            old(self).wf(),
        ensures
            final(self).wf(),
            final(self)@ =~= old(self)@.insert(key, KeyState::Pressed),
    {
        self.set_key_state(key, KeyState::Pressed);
    }

    /// Records `key` as freshly released.
    pub fn release_key(&mut self, key: KeyCode)
        requires
            old(self).wf(),
        ensures
            final(self).wf(),
            final(self)@ =~= old(self)@.insert(key, KeyState::Released),
    {
        self.set_key_state(key, KeyState::Released);
    }

    /// Ends the frame: every freshly pressed key becomes held and every
    /// freshly released key becomes up.
    pub fn update_keys(&mut self)
        requires
            old(self).wf(),
        ensures
            final(self).wf(),
            final(self)@.dom() =~= old(self)@.dom(),
            forall|k: KeyCode| #[trigger] old(self)@.contains_key(k) ==> final(self)@[k] == old(
                self,
            )@[k].spec_step(),
    {
        let n = self.states.len();
        let mut i: usize = 0;
        while i < n
            invariant
                n == self.states@.len(),
                self.states@.len() == old(self).states@.len(),
                i <= n,
                forall|j: int|
                    0 <= j < i ==> self.states@[j].0 == old(self).states@[j].0
                        && self.states@[j].1 == old(self).states@[j].1.spec_step(),
                forall|j: int| i <= j < n ==> self.states@[j] == old(self).states@[j],
            decreases n - i,
        {
            let (key, state) = self.states[i];
            let next = match state {
                KeyState::Pressed => KeyState::Held,
                KeyState::Released => KeyState::Up,
                s => s,
            };
            self.states[i] = (key, next);
            i += 1;
        }
        proof {
            lemma_pairs_pointwise_step(old(self).states@, self.states@);
            assert(keys_distinct(self.states@));
        }
    }
}

} // verus!
