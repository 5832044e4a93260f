use vstd::prelude::*;
use crate::body_ext::BodyExt;
use crate::error::BodyError;
use crate::frame::{Frame, FrameView};

verus! {

/// A payload that is read one frame per call, with nothing buffered.
pub struct FrameIter<BodyType: BodyExt> {
    pub body: BodyType,
}

impl<BodyType: BodyExt> FrameIter<BodyType> {
    /// The frames still to come.
    pub open spec fn frames(&self) -> Seq<FrameView> {
        self.body.frames()
    }

    /// Wraps `body`.
    pub fn new(body: BodyType) -> (iter: FrameIter<BodyType>)
        ensures
            iter.body == body,
    {
        FrameIter { body }
    }

    /// The next frame, the failure of the payload, or `None` at its end:
    /// what one poll of the payload gives, as it is.
    pub fn next_frame(&mut self) -> (r: Option<Result<Frame, BodyError>>)
        ensures
            old(self).body.polls(&final(self).body, r),
            final(self).body.infallible() == old(self).body.infallible(),
            old(self).body.infallible() ==> !(r matches Some(Err(_))),
            match r {
                Some(Ok(frame)) => old(self).frames().len() > 0 && frame@ == old(self).frames()[0]
                    && final(self).frames() == old(self).frames().drop_first(),
                None => old(self).frames().len() == 0 && final(self).frames().len() == 0,
                Some(Err(_)) => final(self).frames().len() <= old(self).frames().len(),
            },
    {
        self.body.poll_frame()
    }
}

} // verus!
