//! A generator: an allocation core whose timestamps are read from the clock.
use vstd::prelude::*;
use crate::epoch::{ClockOrigin, clamp_u64};
use crate::error::GenerationError;
use crate::layout::Layout;
use crate::snowgen::{Snowgen, SnowgenView};

verus! {

/// An identifier generator, made by `SnowflakeBuilder::build`. Drawing an identifier
/// takes `&mut self`; callers on several threads share one generator behind a lock,
/// so that each draw reads and updates the allocation state as one step.
pub struct Snowflake {
    origin: ClockOrigin,
    core: Snowgen,
}

impl View for Snowflake {
    type V = SnowgenView;

    closed spec fn view(&self) -> SnowgenView {
        self.core@
    }
}

impl Snowflake {
    #[verifier::type_invariant]
    spec fn inv(self) -> bool {
        self.origin.wf() && self.core.wf()
    }

    pub closed spec fn origin(&self) -> ClockOrigin {
        self.origin
    }

    pub open spec fn wf(&self) -> bool {
        self.origin().wf() && self@.wf()
    }

    pub(crate) fn from_parts(origin: ClockOrigin, core: Snowgen) -> (r: Snowflake)
        ensures
            r.wf(),
            r.origin() == origin,
            r@ == core@,
    {
        proof {
            use_type_invariant(&origin);
            use_type_invariant(&core);
        }
        Snowflake { origin, core }
    }

    pub fn layout(&self) -> (r: Layout)
        ensures
            r@ == self@.layout,
            self.wf(),
    {
        proof {
            use_type_invariant(self);
        }
        self.core.layout()
    }

    /// Whole milliseconds since the epoch, now; 0 while the clock has not reached it.
    pub fn current_timestamp(&self) -> (r: u64)
        ensures
            exists|e: int| 0 <= e <= u64::MAX && r == #[trigger] clamp_u64(self.origin().offset_ms() + e),
    {
        proof {
            use_type_invariant(self);
        }
        let r = self.origin.now_millis();
        assert(self.origin() == self.origin);
        r
    }

    /// Reads the clock and takes the next identifier for that reading, as
    /// `Snowgen::next_id_at` does: `Err(ClockRegression)` where the clock reads an
    /// earlier millisecond than the last one issued, `Ok(None)` where the millisecond's
    /// sequence numbers are spent (wait for the clock to advance and ask again), else
    /// the identifier. Identifiers stay unique and increasing only while the
    /// timestamp fits in the bits above the node, machine and sequence fields.
    pub fn try_next_id(&mut self) -> (r: Result<Option<u64>, GenerationError>)
        ensures
            old(self).wf(),
            final(self).wf(),
            final(self).origin() == old(self).origin(),
            exists|t: u64|
                {
                    &&& #[trigger] old(self)@.next(t) == final(self)@
                    &&& r == old(self)@.outcome(t)
                    &&& exists|e: int|
                        0 <= e <= u64::MAX && t == #[trigger] clamp_u64(old(self).origin().offset_ms() + e)
                },
            r matches Ok(Some(id)) ==> final(self)@.ids() == old(self)@.ids().push(id),
    {
        proof {
            use_type_invariant(&*self);
        }
        let t = self.origin.now_millis();
        let r = self.core.next_id_at(t);
        assert(old(self)@.next(t) == self@);
        assert(old(self).origin() == old(self).origin);
        r
    }
}

} // verus!
