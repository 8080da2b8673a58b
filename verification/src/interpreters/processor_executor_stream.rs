//! The stream of the blocks that an executor is pulled for.

use crate::error::ErrorCode;
use vstd::prelude::*;

verus! {

/// A stream over an executor that is pulled for its blocks.
pub struct ProcessorExecutorStream<E> {
    executor: E,
}

impl<E> ProcessorExecutorStream<E> {
    /// The executor of the stream.
    pub closed spec fn inner(self) -> E {
        self.executor
    }

    /// The stream over `executor`, which has been started.
    pub fn create(executor: E) -> (r: Result<Self, ErrorCode>)
        ensures
            r is Ok,
            r->Ok_0.inner() == executor,
    {
        Ok(ProcessorExecutorStream { executor })
    }

    /// The executor, to pull it.
    pub fn executor(&mut self) -> (e: &mut E)
        ensures
            *e == old(self).inner(),
            final(self).inner() == *final(e),
    {
        &mut self.executor
    }

    /// The next item of the stream, from what pulling the executor gave: an
    /// error is an item of the stream, a block is an item, and no block is
    /// the end of the stream.
    pub fn next_item<T>(pulled: Result<Option<T>, ErrorCode>) -> (item: Option<Result<T, ErrorCode>>)
        ensures
            item == match pulled {
                Err(cause) => Some(Err::<T, ErrorCode>(cause)),
                Ok(Some(data)) => Some(Ok::<T, ErrorCode>(data)),
                Ok(None) => None,
            },
    {
        match pulled {
            Err(cause) => Some(Err(cause)),
            Ok(Some(data)) => Some(Ok(data)),
            Ok(None) => None,
        }
    }
}

} // verus!
