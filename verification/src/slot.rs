//! A place for a path that is set once and then kept, as a `OnceLock` keeps
//! its first value.
use vstd::prelude::*;

verus! {

/// A path that, once set, stays as it was first set.
pub struct PathSlot {
    value: Option<String>,
}

impl View for PathSlot {
    type V = Option<Seq<char>>;

    closed spec fn view(&self) -> Option<Seq<char>> {
        self.value.deep_view()
    }
}

/// The content of a slot after setting it to `path`: the first value stays.
pub open spec fn slot_after_set(before: Option<Seq<char>>, path: Seq<char>) -> Option<Seq<char>> {
    match before {
        Some(p) => Some(p),
        None => Some(path),
    }
}

impl PathSlot {
    /// An empty slot.
    pub fn new() -> (res: PathSlot)
        ensures
            res@ is None,
    {
        PathSlot { value: None }
    }

    /// The path held, if any.
    pub fn get(&self) -> (res: Option<String>)
        ensures
            res.deep_view() == self@,
    {
        match &self.value {
            Some(p) => Some(p.clone()),
            None => None,
        }
    }

    /// Sets the path unless one is already set.
    pub fn set(&mut self, path: String)
        ensures
            final(self)@ == slot_after_set(old(self)@, path@),
    {
        if self.value.is_none() {
            self.value = Some(path);
        }
    }
}

/// Setting a slot a second time changes nothing: the first path stays.
pub proof fn lemma_first_set_wins(before: Option<Seq<char>>, first: Seq<char>, second: Seq<char>)
    ensures
        slot_after_set(slot_after_set(before, first), second) == slot_after_set(before, first),
        before is None ==> slot_after_set(before, first) == Some(first),
{
}

} // verus!
