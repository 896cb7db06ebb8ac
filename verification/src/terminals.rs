//! The terminals that a project has open.

use vstd::prelude::*;

verus! {

/// The open terminals of a project, by their ids.
#[derive(Debug, PartialEq, Eq)]
pub struct Terminals {
    pub local_handles: Vec<u64>,
}

/// `handles` without the first occurrence of `id`.
pub open spec fn released(handles: Seq<u64>, id: u64) -> Seq<u64> {
    if handles.contains(id) {
        handles.remove(handles.index_of_first(id)->0)
    } else {
        handles
    }
}

impl Terminals {
    /// No terminals.
    pub fn new() -> (r: Terminals)
        ensures
            r.local_handles@ == Seq::<u64>::empty(),
    {
        Terminals { local_handles: Vec::new() }
    }

    /// Adds a terminal that was opened.
    pub fn register(&mut self, id: u64)
        ensures
            final(self).local_handles@ == old(self).local_handles@.push(id),
    {
        self.local_handles.push(id);
    }

    /// Adds a terminal that was built, which comes with its id, and hands it
    /// on. Where building it failed, the terminals stay as they are and the
    /// error is the result.
    pub fn register_built<T, E>(&mut self, built: Result<(u64, T), E>) -> (r: Result<T, E>)
        ensures
            r == match built {
                Ok((_, terminal)) => Ok(terminal),
                Err(error) => Err(error),
            },
            final(self).local_handles@ == match built {
                Ok((id, _)) => old(self).local_handles@.push(id),
                Err(_) => old(self).local_handles@,
            },
    {
        match built {
            Ok((id, terminal)) => {
                self.register(id);
                Ok(terminal)
            },
            Err(error) => Err(error),
        }
    }

    /// Drops a terminal that was released. Returns whether it was there, in
    /// which case observers have to be told.
    pub fn release(&mut self, id: u64) -> (r: bool)
        ensures
            r == old(self).local_handles@.contains(id),
            final(self).local_handles@ == released(old(self).local_handles@, id),
            !r ==> final(self).local_handles@ == old(self).local_handles@,
            r ==> final(self).local_handles.len() == old(self).local_handles.len() - 1,
    {
        let mut index: usize = 0;
        while index < self.local_handles.len()
            invariant
                index <= self.local_handles.len(),
                self.local_handles@ == old(self).local_handles@,
                forall|j: int| 0 <= j < index ==> self.local_handles@[j] != id,
            decreases self.local_handles.len() - index,
        {
            if self.local_handles[index] == id {
                proof {
                    let handles = self.local_handles@;
                    assert(handles.contains(id));
                    handles.index_of_first_ensures(id);
                    assert(handles.index_of_first(id) == Some(index as int));
                }
                let _ = self.local_handles.remove(index);
                return true;
            }
            index = index + 1;
        }
        false
    }
}

impl Default for Terminals {
    fn default() -> (r: Terminals)
        ensures
            r.local_handles@ == Seq::<u64>::empty(),
    {
        Terminals::new()
    }
}

/// Opening a terminal and releasing it leaves the terminals as they were.
pub proof fn release_undoes_register(handles: Seq<u64>, id: u64)
    requires
        !handles.contains(id),
    ensures
        released(handles.push(id), id) == handles,
{
    let after = handles.push(id);
    assert(after[handles.len() as int] == id);
    assert(after.contains(id));
    after.index_of_first_ensures(id);
    let i = after.index_of_first(id)->0;
    assert(i == handles.len()) by {
        if i < handles.len() {
            assert(handles[i] == id);
        }
    }
    assert(after.remove(i) =~= handles);
}

/// Releasing one terminal leaves the others in place and in order, and is no
/// more than one handle.
pub proof fn release_keeps_other_terminals(handles: Seq<u64>, id: u64)
    ensures
        released(handles, id).filter(|h: u64| h != id) == handles.filter(|h: u64| h != id),
        released(handles, id).len() + 1 >= handles.len(),
{
    if handles.contains(id) {
        handles.index_of_first_ensures(id);
        let i = handles.index_of_first(id)->0;
        let others = |h: u64| h != id;
        let head = handles.take(i);
        let tail = handles.skip(i + 1);
        let one = seq![id];
        assert(handles =~= head + (one + tail));
        assert(handles.remove(i) =~= head + tail);
        Seq::filter_distributes_over_add(head, one + tail, others);
        Seq::filter_distributes_over_add(one, tail, others);
        Seq::filter_distributes_over_add(head, tail, others);
        reveal_with_fuel(Seq::filter, 2);
        assert(one.filter(others) =~= Seq::empty());
        assert(one.filter(others) + tail.filter(others) =~= tail.filter(others));
    }
}

/// Releasing a terminal takes out its first handle and nothing else; one that
/// is not there changes nothing.
pub proof fn release_takes_out_first_handle(handles: Seq<u64>, id: u64, i: int)
    ensures
        0 <= i < handles.len() && handles[i] == id && (forall|j: int|
            0 <= j < i ==> #[trigger] handles[j] != id) ==> released(handles, id) == handles.take(i)
            + handles.skip(i + 1),
        !handles.contains(id) ==> released(handles, id) == handles,
{
    if 0 <= i < handles.len() && handles[i] == id && (forall|j: int|
        0 <= j < i ==> #[trigger] handles[j] != id) {
        handles.index_of_first_ensures(id);
        assert(handles.index_of_first(id) == Some(i));
        assert(handles.remove(i) =~= handles.take(i) + handles.skip(i + 1));
    }
}

} // verus!
