//! What a model is asked next, and what it replies.

use vstd::prelude::*;

use crate::db::{Call, Exchange, Replay, Reply};

verus! {

impl Replay {
    /// Whether the next call in the log is `call`, with the reply `reply`, and the log is read on
    /// from `next`.
    pub open spec fn told(self, call: Call, reply: Reply, next: Replay) -> bool {
        &&& 0 <= self.at < self.log.len()
        &&& self.log[self.at] == Exchange::aside(call, reply)
        &&& next == (Replay { at: self.at + 1, ..self })
    }

    /// The same for a call that hands the cache on, as it is here and as it is in `next`.
    pub open spec fn told_with_cache(self, call: Call, reply: Reply, next: Replay) -> bool {
        &&& 0 <= self.at < self.log.len()
        &&& self.log[self.at] == Exchange::with_cache(call, reply, self.cache, next.cache)
        &&& next == (Replay { at: self.at + 1, cache: next.cache, ..self })
    }
}

} // verus!
