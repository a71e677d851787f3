//! Bulk creation: the items of a batch are inserted one by one, each on its
//! own. The batch is not atomic: when an insert fails, the batch stops with
//! that failure, and the items inserted before it stay in the store. An empty
//! batch succeeds without asking the store for anything.

use vstd::prelude::*;
use vstd::string::StringExecFns;
use crate::errors::RepositoryError;

verus! {

/// The next move of a bulk creation.
#[derive(Debug, PartialEq, Eq)]
pub enum BulkStep<T> {
    /// Insert the item at this position of the batch and hand back the reply.
    Insert(usize),
    /// The batch is over: the created records in the order of the batch, or
    /// the failure that stopped it.
    Finish(Result<Vec<T>, RepositoryError>),
}

/// The mathematical value of a [`BulkStep`].
pub enum BulkStepView<T> {
    Insert(usize),
    Created(Seq<T>),
    Failed(RepositoryError),
}

impl<T> View for BulkStep<T> {
    type V = BulkStepView<T>;

    open spec fn view(&self) -> BulkStepView<T> {
        match *self {
            BulkStep::Insert(index) => BulkStepView::Insert(index),
            BulkStep::Finish(Ok(created)) => BulkStepView::Created(created@),
            BulkStep::Finish(Err(error)) => BulkStepView::Failed(error),
        }
    }
}

/// A bulk creation under way.
#[derive(Debug, PartialEq, Eq)]
pub enum BulkInsert<T> {
    /// The insert of the item at position `created.len()` was issued; the
    /// batch has `total` items.
    Inserting { total: usize, created: Vec<T> },
    /// Nothing is left to do.
    Finished,
}

/// The mathematical value of a [`BulkInsert`].
pub enum BulkInsertView<T> {
    Inserting { total: usize, created: Seq<T> },
    Finished,
}

impl<T> View for BulkInsert<T> {
    type V = BulkInsertView<T>;

    open spec fn view(&self) -> BulkInsertView<T> {
        match *self {
            BulkInsert::Inserting { total, created } => BulkInsertView::Inserting {
                total,
                created: created@,
            },
            BulkInsert::Finished => BulkInsertView::Finished,
        }
    }
}

/// What is reported when a reply arrives after the batch has finished.
pub open spec fn batch_finished() -> Seq<char> {
    "Batch already finished"@
}

impl<T> BulkInsertView<T> {
    /// The state and the move once `created` holds the records of the items
    /// inserted so far: the next insert, or the end of the batch.
    pub open spec fn proceed(total: usize, created: Seq<T>) -> (BulkInsertView<T>, BulkStepView<T>) {
        if created.len() < total {
            (
                BulkInsertView::Inserting { total, created },
                BulkStepView::Insert(created.len() as usize),
            )
        } else {
            (BulkInsertView::Finished, BulkStepView::Created(created))
        }
    }

    /// Whether `next` and `step` follow from this state and the reply to the
    /// last insert.
    pub open spec fn advances(
        self,
        reply: Result<T, String>,
        next: BulkInsertView<T>,
        step: BulkStepView<T>,
    ) -> bool {
        match self {
            BulkInsertView::Inserting { total, created } => match reply {
                Ok(record) => (next, step) == Self::proceed(total, created.push(record)),
                Err(cause) => {
                    &&& next == BulkInsertView::<T>::Finished
                    &&& step == BulkStepView::<T>::Failed(RepositoryError::StoreFailure(cause))
                },
            },
            BulkInsertView::Finished => {
                &&& next == BulkInsertView::<T>::Finished
                &&& step matches BulkStepView::Failed(RepositoryError::StoreFailure(text))
                &&& text@ == batch_finished()
            },
        }
    }

    /// The number of inserts that the batch still needs.
    pub open spec fn remaining(self) -> nat {
        match self {
            BulkInsertView::Inserting { total, created } => if created.len() < total {
                (total - created.len()) as nat
            } else {
                1
            },
            BulkInsertView::Finished => 0,
        }
    }
}

/// Every reply brings an unfinished batch closer to its end, and a batch is
/// finished exactly when it hands out its result.
pub proof fn lemma_batch_progresses<T>(
    state: BulkInsertView<T>,
    reply: Result<T, String>,
    next: BulkInsertView<T>,
    step: BulkStepView<T>,
)
    requires
        state.advances(reply, next, step),
    ensures
        !(state is Finished) ==> next.remaining() < state.remaining(),
        next is Finished <==> !(step is Insert),
{
}

impl<T> BulkInsert<T> {
    fn proceed(total: usize, created: Vec<T>) -> (next: (BulkInsert<T>, BulkStep<T>))
        ensures
            (next.0@, next.1@) == BulkInsertView::proceed(total, created@),
    {
        if created.len() < total {
            let index = created.len();
            (BulkInsert::Inserting { total, created }, BulkStep::Insert(index))
        } else {
            (BulkInsert::Finished, BulkStep::Finish(Ok(created)))
        }
    }

    /// Begins a batch of `total` items: the insert of the first item, or, for
    /// an empty batch, the empty result at once.
    pub fn begin(total: usize) -> (begun: (BulkInsert<T>, BulkStep<T>))
        ensures
            (begun.0@, begun.1@) == BulkInsertView::<T>::proceed(total, Seq::empty()),
    {
        Self::proceed(total, Vec::new())
    }

    /// Takes the reply to the last insert and says what comes next.
    pub fn advance(self, reply: Result<T, String>) -> (next: (BulkInsert<T>, BulkStep<T>))
        ensures
            self@.advances(reply, next.0@, next.1@),
    {
        match self {
            BulkInsert::Inserting { total, created } => match reply {
                Ok(record) => {
                    let mut created = created;
                    created.push(record);
                    Self::proceed(total, created)
                },
                Err(cause) => (
                    BulkInsert::Finished,
                    BulkStep::Finish(Err(RepositoryError::StoreFailure(cause))),
                ),
            },
            BulkInsert::Finished => (
                BulkInsert::Finished,
                BulkStep::Finish(
                    Err(
                        RepositoryError::StoreFailure(
                            String::from_str("Batch already finished"),
                        ),
                    ),
                ),
            ),
        }
    }
}

} // verus!
