use vstd::prelude::*;
use crate::headers::{lemma_values_of_concat, values_of, HeaderMap};

verus! {

/// One unit of payload transfer: a chunk of data, or the trailers that close
/// the payload.
#[derive(Debug)]
pub enum Frame {
    Data(Vec<u8>),
    Trailers(HeaderMap),
}

/// What a frame holds, as plain sequences.
pub enum FrameView {
    Data(Seq<u8>),
    Trailers(Seq<(Seq<u8>, Seq<u8>)>),
}

impl View for Frame {
    type V = FrameView;

    open spec fn view(&self) -> FrameView {
        match *self {
            Frame::Data(d) => FrameView::Data(d@),
            Frame::Trailers(t) => FrameView::Trailers(t@),
        }
    }
}

impl Frame {
    /// A frame of data.
    pub fn data(buf: Vec<u8>) -> (frame: Frame)
        ensures
            frame@ == FrameView::Data(buf@),
    {
        Frame::Data(buf)
    }

    /// A frame of trailers.
    pub fn trailers(map: HeaderMap) -> (frame: Frame)
        ensures
            frame@ == FrameView::Trailers(map@),
    {
        Frame::Trailers(map)
    }

    /// Whether this is a frame of data.
    pub fn is_data(&self) -> (b: bool)
        ensures
            b == (self@ is Data),
    {
        match self {
            Frame::Data(_) => true,
            Frame::Trailers(_) => false,
        }
    }

    /// Whether this is a frame of trailers.
    pub fn is_trailers(&self) -> (b: bool)
        ensures
            b == (self@ is Trailers),
    {
        match self {
            Frame::Data(_) => false,
            Frame::Trailers(_) => true,
        }
    }

    /// The data of a data frame; a frame of trailers is handed back as it is.
    pub fn into_data(self) -> (r: Result<Vec<u8>, Frame>)
        ensures
            match r {
                Ok(d) => self@ == FrameView::Data(d@),
                Err(f) => self@ is Trailers && f == self,
            },
    {
        match self {
            Frame::Data(d) => Ok(d),
            Frame::Trailers(t) => Err(Frame::Trailers(t)),
        }
    }

    /// The trailers of a trailer frame; a frame of data is handed back as it is.
    pub fn into_trailers(self) -> (r: Result<HeaderMap, Frame>)
        ensures
            match r {
                Ok(t) => self@ == FrameView::Trailers(t@),
                Err(f) => self@ is Data && f == self,
            },
    {
        match self {
            Frame::Trailers(t) => Ok(t),
            Frame::Data(d) => Err(Frame::Data(d)),
        }
    }
}

/// The data of the data frames among `frames`, joined in their order.
pub open spec fn data_of(frames: Seq<FrameView>) -> Seq<u8>
    decreases frames.len(),
{
    if frames.len() == 0 {
        Seq::empty()
    } else {
        match frames.last() {
            FrameView::Data(d) => data_of(frames.drop_last()) + d,
            FrameView::Trailers(_) => data_of(frames.drop_last()),
        }
    }
}

/// The entries of the trailer frames among `frames`, joined in their order:
/// a later value of a name stands behind an earlier one and replaces none.
pub open spec fn trailers_of(frames: Seq<FrameView>) -> Seq<(Seq<u8>, Seq<u8>)>
    decreases frames.len(),
{
    if frames.len() == 0 {
        Seq::empty()
    } else {
        match frames.last() {
            FrameView::Data(_) => trailers_of(frames.drop_last()),
            FrameView::Trailers(t) => trailers_of(frames.drop_last()) + t,
        }
    }
}

/// Whether a data frame is among `frames`.
pub open spec fn has_data(frames: Seq<FrameView>) -> bool {
    exists|i: int| 0 <= i < frames.len() && #[trigger] frames[i] is Data
}

/// Whether a trailer frame is among `frames`.
pub open spec fn has_trailers(frames: Seq<FrameView>) -> bool {
    exists|i: int| 0 <= i < frames.len() && #[trigger] frames[i] is Trailers
}

/// Two trailer frames are merged by adding: under every name, the values of
/// the first frame are kept and those of the second stand behind them.
pub proof fn lemma_trailers_merge(
    first: Seq<(Seq<u8>, Seq<u8>)>,
    second: Seq<(Seq<u8>, Seq<u8>)>,
    name: Seq<u8>,
)
    ensures
        trailers_of(seq![FrameView::Trailers(first), FrameView::Trailers(second)]) == first
            + second,
        values_of(
            trailers_of(seq![FrameView::Trailers(first), FrameView::Trailers(second)]),
            name,
        ) == values_of(first, name) + values_of(second, name),
{
    let both = seq![FrameView::Trailers(first), FrameView::Trailers(second)];
    let one = seq![FrameView::Trailers(first)];
    assert(both.drop_last() =~= one);
    assert(one.drop_last() =~= Seq::<FrameView>::empty());
    assert(trailers_of(one.drop_last()) =~= Seq::<(Seq<u8>, Seq<u8>)>::empty());
    assert(trailers_of(one) =~= first);
    assert(trailers_of(both) =~= first + second);
    lemma_values_of_concat(first, second, name);
}

} // verus!
