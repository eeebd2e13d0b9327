//! A manifest transaction together with the work that has to wait for
//! its commit.
//!
//! Some of what a transaction brings about cannot be undone: the bytes of
//! a value that the transaction deleted are given back to the file
//! system. Such work is put off. It is handed out only once the commit
//! has ended and the manifest no longer refers to those bytes, and it is
//! dropped if the transaction fails.

use vstd::prelude::*;
use crate::error::Error;
use crate::value::{Value, ValueView};

verus! {

/// The rows of `values`, as contracts speak of them.
pub open spec fn rows_of(values: Seq<Value>) -> Seq<ValueView> {
    values.map_values(|value: Value| value@)
}

/// A transaction on the manifest that is under way, with the rows that it
/// has deleted so far. Their bytes are reclaimed after the commit.
#[derive(Debug)]
pub struct OwnedTx {
    deleted_values: Vec<Value>,
}

impl OwnedTx {
    /// The rows that the transaction has deleted, in the order in which
    /// it deleted them.
    pub closed spec fn deferred(self) -> Seq<ValueView> {
        rows_of(self.deleted_values@)
    }

    /// A transaction that has just begun.
    pub fn new() -> (tx: OwnedTx)
        ensures
            tx.deferred() == Seq::<ValueView>::empty(),
    {
        let tx = OwnedTx { deleted_values: Vec::new() };
        assert(tx.deferred() =~= Seq::<ValueView>::empty());
        tx
    }

    /// Takes note of what the manifest answered when the transaction
    /// deleted the row of a key: the row that was there, if there was
    /// one. Its bytes are to be reclaimed once the commit has ended.
    pub fn delete_key(&mut self, deleted: Option<Value>)
        ensures
            final(self).deferred() == match deleted {
                Some(value) => old(self).deferred().push(value@),
                None => old(self).deferred(),
            },
    {
        match deleted {
            Some(value) => {
                let ghost before = self.deleted_values@;
                self.deleted_values.push(value);
                assert(rows_of(self.deleted_values@) =~= rows_of(before).push(value@));
            },
            None => {},
        }
    }

    /// Ends the transaction with the outcome of the manifest's commit.
    /// After a commit that succeeded, the work that was put off is
    /// handed over, in its order, together with `reward`. After one that
    /// failed, the work is dropped and the failure is passed on: nothing
    /// is reclaimed on behalf of a transaction that did not commit.
    pub fn commit<T>(self, committed: Result<(), Error>, reward: T) -> (work: Result<
        PostCommitWork<T>,
        Error,
    >)
        ensures
            committed is Ok ==> work is Ok && work->Ok_0.remaining() == self.deferred()
                && work->Ok_0.spec_reward() == reward,
            committed matches Err(error) ==> work is Err && work->Err_0 == error,
    {
        match committed {
            Ok(_) => {
                let work = PostCommitWork { deleted_values: self.deleted_values, next: 0, reward };
                assert(work.remaining() =~= self.deferred());
                Ok(work)
            },
            Err(error) => Err(error),
        }
    }
}

/// The work that a committed transaction has left to do, and the value
/// that the one who committed gets once it is done.
#[derive(Debug)]
pub struct PostCommitWork<T> {
    deleted_values: Vec<Value>,
    next: usize,
    reward: T,
}

impl<T> PostCommitWork<T> {
    #[verifier::type_invariant]
    spec fn well_formed(self) -> bool {
        self.next <= self.deleted_values@.len()
    }

    /// The deleted rows whose bytes are still to be reclaimed, in order.
    pub closed spec fn remaining(self) -> Seq<ValueView> {
        rows_of(self.deleted_values@).skip(self.next as int)
    }

    /// The value that completing the work yields.
    pub closed spec fn spec_reward(self) -> T {
        self.reward
    }

    /// Hands out the next deleted row whose bytes are to be reclaimed.
    pub fn next_work(&mut self) -> (value: Option<Value>)
        ensures
            final(self).spec_reward() == old(self).spec_reward(),
            old(self).remaining().len() == 0 ==> {
                &&& value is None
                &&& final(self).remaining() == old(self).remaining()
            },
            old(self).remaining().len() > 0 ==> {
                &&& value is Some
                &&& value->0@ == old(self).remaining().first()
                &&& final(self).remaining() == old(self).remaining().drop_first()
            },
    {
        proof {
            use_type_invariant(&*self);
        }
        if self.next < self.deleted_values.len() {
            let value = self.deleted_values[self.next].clone();
            let ghost before = self.remaining();
            self.next = self.next + 1;
            assert(self.remaining() =~= before.drop_first());
            Some(value)
        } else {
            None
        }
    }

    /// Ends the work. `worked` is the failure that stopped it, if one
    /// did. Yields the reward if all of the work was handed out and none
    /// of it failed, and passes the failure on otherwise;
    /// [`Error::UnexpectedEvent`] if work was left undone without a failure.
    pub fn complete(self, worked: Result<(), Error>) -> (reward: Result<T, Error>)
        ensures
            worked matches Err(error) ==> reward is Err && reward->Err_0 == error,
            worked is Ok && self.remaining().len() == 0 ==> reward is Ok && reward->Ok_0
                == self.spec_reward(),
            worked is Ok && self.remaining().len() > 0 ==> reward is Err && reward->Err_0
                == Error::UnexpectedEvent,
    {
        proof {
            use_type_invariant(&self);
        }
        match worked {
            Err(error) => Err(error),
            Ok(_) => if self.next == self.deleted_values.len() {
                Ok(self.reward)
            } else {
                Err(Error::UnexpectedEvent)
            },
        }
    }
}

} // verus!
