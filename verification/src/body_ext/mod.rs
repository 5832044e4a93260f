use vstd::prelude::*;
use crate::error::BodyError;
use crate::frame::{Frame, FrameView};
use crate::body_ext::collect::Collect;
use crate::body_ext::frame_iter::FrameIter;

pub mod collect;
pub mod frame_iter;

verus! {

/// A payload that is pulled frame by frame.
///
/// `frames` is the payload's own account of what it has yet to hand out.
/// `poll_frame` may fail at any point; when it hands out a frame or ends, it
/// does so as `frames` says.
pub trait BodyExt {
    /// The frames still to come, in the order in which they will come. A
    /// payload that does not say what it has to come has some sequence to
    /// come of which nothing is known.
    open spec fn frames(&self) -> Seq<FrameView> {
        arbitrary::<spec_fn(&Self) -> Seq<FrameView>>()(self)
    }

    /// Whether no read of this payload can fail. A payload that does not say
    /// so may fail.
    open spec fn infallible(&self) -> bool {
        false
    }

    /// Whether `r` is a result that `poll_frame` may give in this state,
    /// leaving the payload as `after`. A payload that gives no account may
    /// give any.
    open spec fn polls(&self, after: &Self, r: Option<Result<Frame, BodyError>>) -> bool {
        true
    }

    /// The next frame, or `None` at the end of the payload.
    fn poll_frame(&mut self) -> (r: Option<Result<Frame, BodyError>>)
        ensures
            old(self).polls(final(self), r),
            final(self).infallible() == old(self).infallible(),
            old(self).infallible() ==> !(r matches Some(Err(_))),
            match r {
                Some(Ok(frame)) => old(self).frames().len() > 0 && frame@ == old(self).frames()[0]
                    && final(self).frames() == old(self).frames().drop_first(),
                None => old(self).frames().len() == 0 && final(self).frames().len() == 0,
                Some(Err(_)) => final(self).frames().len() <= old(self).frames().len(),
            },
    ;
}

/// One step of collecting: what becomes of `collected` and whether the
/// collecting stops, for what one poll gave as `polled`. A frame is taken in
/// and the collecting goes on; the end stops it with success; a failure
/// stops it with that failure, and what was collected stays.
pub fn collect_step(collected: &mut Collect, polled: Option<Result<Frame, BodyError>>) -> (stop:
    Option<Result<(), BodyError>>)
    ensures
        match polled {
            Some(Ok(frame)) => stop is None && final(collected)@ == old(collected)@.push(frame@),
            None => stop == Some(Ok::<(), BodyError>(())) && final(collected)@ == old(collected)@,
            Some(Err(e)) => stop == Some(Err::<(), BodyError>(e)) && final(collected)@ == old(
                collected,
            )@,
        },
{
    match polled {
        Some(Ok(frame)) => {
            collected.push(frame);
            None
        },
        None => Some(Ok(())),
        Some(Err(e)) => Some(Err(e)),
    }
}

/// Drains `body` and returns its frames in the order of arrival.
///
/// Stops at the first failure and returns it; the frames that came before it
/// are dropped.
pub fn collect<BodyType: BodyExt>(body: BodyType) -> (r: Result<Collect, BodyError>)
    ensures
        body.infallible() ==> r is Ok,
        r matches Ok(collected) ==> collected@ == body.frames(),
        r matches Err(e) ==> exists|before: BodyType, after: BodyType| #[trigger]
            before.polls(&after, Some(Err::<Frame, BodyError>(e))),
{
    let mut source = body;
    let mut collected = Collect::new();
    loop
        invariant
            collected@ + source.frames() == body.frames(),
            source.infallible() == body.infallible(),
        decreases source.frames().len(),
    {
        let ghost before = source.frames();
        let ghost taken = collected@;
        let ghost polled_from = source;
        let polled = source.poll_frame();
        proof {
            assert(polled_from.polls(&source, polled));
            if polled is Some && polled->Some_0 is Ok {
                let frame = polled->Some_0->Ok_0;
                assert(taken.push(frame@) + source.frames() =~= taken + before);
            }
            if polled is None {
                assert(taken + before =~= taken);
            }
        }
        match collect_step(&mut collected, polled) {
            None => {},
            Some(Ok(())) => {
                return Ok(collected.take());
            },
            Some(Err(e)) => {
                return Err(e);
            },
        }
    }
}

/// Hands `body` over to be read one frame at a time.
pub fn frame_iter<BodyType: BodyExt>(body: BodyType) -> (iter: FrameIter<BodyType>)
    ensures
        iter.body == body,
{
    FrameIter::new(body)
}

} // verus!
