//! The per-name instance lock: at most one active session for each name.
use vstd::prelude::*;

verus! {

/// The name of the marker file that holds the lock for `name`.
pub open spec fn marker_text(name: Seq<char>) -> Seq<char> {
    name + seq!['.', 'l', 'c', 'k']
}

/// The file name of the lock marker for `name`: the name with `.lck` added.
pub fn marker_file_name(name: &str) -> (r: String)
    ensures
        r@ == marker_text(name@),
{
    let r = String::from_str(name).concat(".lck");
    proof {
        reveal_strlit(".lck");
    }
    assert(r@ =~= marker_text(name@));
    r
}

/// The set of held names after asking for `name`, and whether it was granted.
pub open spec fn acquire_result(held: Set<Seq<char>>, name: Seq<char>) -> (Set<Seq<char>>, bool) {
    if held.contains(name) {
        (held, false)
    } else {
        (held.insert(name), true)
    }
}

/// The lock for a name is held by another session.
#[derive(Debug, PartialEq, Eq, Structural, Clone, Copy)]
pub enum AcquireError {
    AlreadyRunning,
}

/// Proof that the lock for `name` was granted; handed back on release.
pub struct LockHandle {
    name: String,
}

impl LockHandle {
    pub closed spec fn held_name(&self) -> Seq<char> {
        self.name@
    }

    /// The name whose lock this is.
    pub fn name(&self) -> (r: &str)
        ensures
            r@ == self.held_name(),
    {
        self.name.as_str()
    }
}

/// The names whose locks are held, as exclusive markers.
pub struct LockSet {
    held: Vec<String>,
}

impl LockSet {
    /// The names currently locked.
    pub closed spec fn names(&self) -> Set<Seq<char>> {
        Set::new(|n: Seq<char>| exists|i: int| 0 <= i < self.held.len() && #[trigger] self.held[i]@ == n)
    }

    /// A set with no lock held.
    pub fn new() -> (r: LockSet)
        ensures
            r.names() == Set::<Seq<char>>::empty(),
    {
        let r = LockSet { held: Vec::new() };
        assert(r.names() =~= Set::<Seq<char>>::empty());
        r
    }

    /// Whether the lock for `name` is held.
    pub fn is_held(&self, name: &str) -> (r: bool)
        ensures
            r == self.names().contains(name@),
    {
        let wanted = String::from_str(name);
        let mut i: usize = 0;
        while i < self.held.len()
            invariant
                i <= self.held.len(),
                wanted@ == name@,
                forall|j: int| 0 <= j < i ==> self.held[j]@ != name@,
            decreases self.held.len() - i,
        {
            if self.held[i] == wanted {
                assert(self.held[i as int]@ == name@);
                return true;
            }
            i = i + 1;
        }
        false
    }

    /// Takes the lock for `name`, failing with `AlreadyRunning` where it is
    /// held; the set is then unchanged.
    pub fn acquire(&mut self, name: &str) -> (r: Result<LockHandle, AcquireError>)
        ensures
            (final(self).names(), r is Ok) == acquire_result(old(self).names(), name@),
            r is Err ==> r == Err::<LockHandle, AcquireError>(AcquireError::AlreadyRunning),
            r matches Ok(h) ==> h.held_name() == name@,
    {
        if self.is_held(name) {
            return Err(AcquireError::AlreadyRunning);
        }
        let ghost before = self.names();
        self.held.push(String::from_str(name));
        assert(self.held[self.held.len() - 1]@ == name@);
        assert(self.names() =~= before.insert(name@)) by {
            assert forall|n: Seq<char>| self.names().contains(n) implies before.insert(n).contains(n) by {}
            assert forall|n: Seq<char>| #[trigger] before.insert(name@).contains(n) implies self.names().contains(n) by {
                if n != name@ {
                    let i = choose|i: int| 0 <= i < old(self).held.len() && old(self).held[i]@ == n;
                    assert(self.held[i]@ == n);
                }
            }
        }
        Ok(LockHandle { name: String::from_str(name) })
    }

    /// Gives the lock back: its name is no longer held.
    pub fn release(&mut self, handle: LockHandle)
        ensures
            final(self).names() == old(self).names().remove(handle.held_name()),
    {
        let mut kept: Vec<String> = Vec::new();
        let mut i: usize = 0;
        while i < self.held.len()
            invariant
                i <= self.held.len(),
                forall|j: int| 0 <= j < kept.len() ==> #[trigger] kept[j]@ != handle.name@,
                forall|j: int|
                    #![trigger kept[j]]
                    0 <= j < kept.len() ==> exists|k: int|
                        #![trigger self.held[k]]
                        0 <= k < i && self.held[k]@ == kept[j]@,
                forall|k: int|
                    #![trigger self.held[k]]
                    0 <= k < i && self.held[k]@ != handle.name@ ==> exists|j: int|
                        #![trigger kept[j]]
                        0 <= j < kept.len() && kept[j]@ == self.held[k]@,
            decreases self.held.len() - i,
        {
            let ghost old_kept = kept@;
            if self.held[i] != handle.name {
                let copy = self.held[i].clone();
                kept.push(copy);
                assert(kept[kept.len() - 1]@ == self.held[i as int]@);
            }
            assert forall|k: int|
                #![trigger self.held[k]]
                0 <= k < i + 1 && self.held[k]@ != handle.name@ implies exists|j: int|
                    #![trigger kept[j]]
                    0 <= j < kept.len() && kept[j]@ == self.held[k]@ by {
                if k < i {
                    let j = choose|j: int|
                        #![trigger old_kept[j]]
                        0 <= j < old_kept.len() && old_kept[j]@ == self.held[k]@;
                    assert(kept[j] == old_kept[j]);
                } else {
                    assert(kept[kept.len() - 1]@ == self.held[k]@);
                }
            }
            assert forall|j: int|
                #![trigger kept[j]]
                0 <= j < kept.len() implies exists|k: int|
                    #![trigger self.held[k]]
                    0 <= k < i + 1 && self.held[k]@ == kept[j]@ by {
                if j < old_kept.len() {
                    assert(kept[j] == old_kept[j]);
                    let k = choose|k: int|
                        #![trigger self.held[k]]
                        0 <= k < i && self.held[k]@ == old_kept[j]@;
                    assert(self.held[k]@ == kept[j]@);
                } else {
                    assert(self.held[i as int]@ == kept[j]@);
                }
            }
            i = i + 1;
        }
        let ghost before = self.names();
        self.held = kept;
        assert(self.names() =~= before.remove(handle.name@));
    }
}

/// The lock is exclusive per name: once `name` is granted, asking for it
/// again is refused until it is released, while a different free name is
/// still granted.
pub proof fn lemma_lock_exclusive(held: Set<Seq<char>>, name: Seq<char>, other: Seq<char>)
    requires
        !held.contains(name),
        !held.contains(other),
        name != other,
    ensures
        acquire_result(held, name).1,
        !acquire_result(acquire_result(held, name).0, name).1,
        acquire_result(acquire_result(held, name).0, other).1,
        acquire_result(acquire_result(held, name).0.remove(name), name).1,
{
    assert(acquire_result(held, name).0.remove(name) =~= held);
}

} // verus!
