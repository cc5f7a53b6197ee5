//! What to undo when an operation fails half way.

use vstd::prelude::*;
use vstd::string::*;

verus! {

/// Things to undo, in the order in which they were done.
#[derive(Debug)]
pub struct Rollback<A> {
    actions: Vec<(String, A)>,
    committed: bool,
}

impl<A> Rollback<A> {
    /// The labels and the actions, in the order in which they came.
    pub closed spec fn pending(self) -> Seq<(Seq<char>, A)> {
        if self.committed {
            seq![]
        } else {
            self.actions@.map_values(|e: (String, A)| (e.0@, e.1))
        }
    }

    /// Whether the operation has succeeded.
    pub closed spec fn is_committed(self) -> bool {
        self.committed
    }

    /// Nothing to undo.
    pub fn new() -> (r: Rollback<A>)
        ensures
            r.pending() == Seq::<(Seq<char>, A)>::empty(),
            !r.is_committed(),
    {
        let r = Rollback { actions: Vec::new(), committed: false };
        assert(r.pending() =~= Seq::<(Seq<char>, A)>::empty());
        r
    }

    /// One thing more to undo.
    pub fn push(&mut self, label: &str, action: A)
        requires
            !old(self).is_committed(),
        ensures
            final(self).pending() == old(self).pending().push((label@, action)),
            !final(self).is_committed(),
    {
        let ghost before = self.actions@;
        self.actions.push((label.to_owned(), action));
        assert(self.pending() =~= before.map_values(|e: (String, A)| (e.0@, e.1)).push(
            (label@, action),
        ));
    }

    /// The operation has succeeded: nothing is to be undone.
    pub fn commit(&mut self)
        ensures
            final(self).pending() == Seq::<(Seq<char>, A)>::empty(),
            final(self).is_committed(),
    {
        self.committed = true;
    }

    /// What the user is told before anything is undone; `None` when there is
    /// nothing to undo.
    pub fn announcement(&self) -> (r: Option<String>)
        ensures
            r is Some <==> self.pending().len() > 0,
            r matches Some(t) ==> t@ == "Operation failed, rolling back..."@,
    {
        if self.committed || self.actions.len() == 0 {
            None
        } else {
            Some("Operation failed, rolling back...".to_owned())
        }
    }

    /// What is to be undone, the last thing first.
    pub fn unwind(self) -> (r: Vec<(String, A)>)
        ensures
            r@.map_values(|e: (String, A)| (e.0@, e.1)) == self.pending().reverse(),
    {
        let mut r: Vec<(String, A)> = Vec::new();
        if self.committed {
            assert(r@.map_values(|e: (String, A)| (e.0@, e.1)) =~= self.pending().reverse());
            return r;
        }
        let mut rest = self.actions;
        let ghost all = rest@;
        while rest.len() > 0
            invariant
                rest@ == all.take(rest@.len() as int),
                rest@.len() <= all.len(),
                r@ == all.skip(rest@.len() as int).reverse(),
            decreases rest.len(),
        {
            let ghost n = rest@.len() as int;
            match rest.pop() {
                Some(e) => {
                    r.push(e);
                    assert(rest@ =~= all.take(n - 1));
                    assert(r@ =~= all.skip(n - 1).reverse());
                },
                None => {},
            }
        }
        assert(all.skip(0) =~= all);
        assert(r@.map_values(|e: (String, A)| (e.0@, e.1)) =~= self.pending().reverse());
        r
    }
}

/// What the user is told about one thing that is undone.
pub fn cleanup_message(label: &str) -> (r: String)
    ensures
        r@ == "  Cleaning up "@ + label@ + "..."@,
{
    "  Cleaning up ".to_owned().concat(label).concat("...")
}

} // verus!
