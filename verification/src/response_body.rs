use vstd::prelude::*;
use vstd::string::StringSliceAdditionalSpecFns;
use vstd::utf8::encode_utf8;
use vstd::string::StrSliceExecFns;
use crate::body_ext::BodyExt;
use crate::error::BodyError;
use crate::frame::{data_of, has_trailers, Frame, FrameView};

verus! {

/// A lazy producer of items, pulled one at a time until it ends or fails.
///
/// `pending` is the producer's own account of what it has yet to yield,
/// `infallible` its account of whether it can fail, and `yields` its account
/// of what `next` may return. When `next` yields or ends, it does so as
/// `pending` says.
pub trait AsyncStream<ItemType>: Send {
    /// The items still to come, in the order in which they will be yielded.
    /// A producer that does not say what it has pending has some sequence
    /// pending of which nothing is known.
    open spec fn pending(&self) -> Seq<ItemType> {
        arbitrary::<spec_fn(&Self) -> Seq<ItemType>>()(self)
    }

    /// Whether `next` never fails. A producer that does not say so may fail.
    open spec fn infallible(&self) -> bool {
        false
    }

    /// Whether `r` is a result that `next` may return in this state. A
    /// producer that gives no account may return any.
    open spec fn yields(&self, r: Result<Option<ItemType>, BodyError>) -> bool {
        true
    }

    fn next(&mut self) -> (r: Result<Option<ItemType>, BodyError>)
        ensures
            old(self).yields(r),
            final(self).infallible() == old(self).infallible(),
            old(self).infallible() ==> r is Ok,
            match r {
                Ok(Some(item)) => old(self).pending().len() > 0 && item == old(self).pending()[0]
                    && final(self).pending() == old(self).pending().drop_first(),
                Ok(None) => old(self).pending().len() == 0 && final(self).pending().len() == 0,
                Err(_) => final(self).pending().len() <= old(self).pending().len(),
            },
    ;
}

/// A producer that has ended: it yields nothing and never fails. It is the
/// producer of payloads that have none.
pub struct Ended;

impl AsyncStream<Vec<u8>> for Ended {
    open spec fn pending(&self) -> Seq<Vec<u8>> {
        Seq::empty()
    }

    open spec fn infallible(&self) -> bool {
        true
    }

    open spec fn yields(&self, r: Result<Option<Vec<u8>>, BodyError>) -> bool {
        r == Ok::<Option<Vec<u8>>, BodyError>(None)
    }

    fn next(&mut self) -> (r: Result<Option<Vec<u8>>, BodyError>) {
        Ok(None)
    }
}

/// A producer behind a pointer is a producer: it yields, fails and accounts
/// for itself as the producer behind the pointer does. This is the producer
/// type of payloads that read from producers of several types.
impl<'a> AsyncStream<Vec<u8>> for Box<dyn AsyncStream<Vec<u8>> + 'a> {
    open spec fn pending(&self) -> Seq<Vec<u8>> {
        (**self).pending()
    }

    open spec fn infallible(&self) -> bool {
        (**self).infallible()
    }

    open spec fn yields(&self, r: Result<Option<Vec<u8>>, BodyError>) -> bool {
        (**self).yields(r)
    }

    fn next(&mut self) -> (r: Result<Option<Vec<u8>>, BodyError>) {
        (**self).next()
    }
}

/// A payload: nothing, one fixed piece of text or bytes that is handed out on
/// the first read, or an open-ended producer of byte chunks, of type `S`.
pub enum ResponseBody<S = Ended> {
    Empty,
    Str(Option<&'static str>),
    String(Option<String>),
    Bytes(Option<Vec<u8>>),
    AsyncBytesStream(S),
}

/// The bytes of each of `chunks`.
pub open spec fn chunk_views(chunks: Seq<Vec<u8>>) -> Seq<Seq<u8>> {
    chunks.map_values(|c: Vec<u8>| c@)
}

/// The concatenation of a sequence of chunks, first chunk first.
pub open spec fn concat_chunks(chunks: Seq<Seq<u8>>) -> Seq<u8>
    decreases chunks.len(),
{
    if chunks.len() == 0 {
        Seq::empty()
    } else {
        chunks[0] + concat_chunks(chunks.drop_first())
    }
}

/// What a payload says of its length before it is read: at least `lower`
/// bytes, and at most `upper` where that is known.
#[derive(Debug, Clone, Copy, PartialEq, Eq, Structural)]
pub struct SizeHint {
    pub lower: u64,
    pub upper: Option<u64>,
}

impl SizeHint {
    /// The hint of a payload of exactly `size` bytes.
    pub fn with_exact(size: u64) -> (hint: SizeHint)
        ensures
            hint == (SizeHint { lower: size, upper: Some(size) }),
    {
        SizeHint { lower: size, upper: Some(size) }
    }

    /// The hint of a payload of unknown length.
    pub fn unknown() -> (hint: SizeHint)
        ensures
            hint == (SizeHint { lower: 0, upper: None }),
    {
        SizeHint { lower: 0, upper: None }
    }
}

impl<S: AsyncStream<Vec<u8>>> ResponseBody<S> {
    /// Whether this is one of the variants whose payload is known up front.
    pub open spec fn is_fixed(&self) -> bool {
        !(self is AsyncBytesStream)
    }

    /// The bytes that are left to read, as one sequence.
    pub open spec fn payload(&self) -> Seq<u8> {
        concat_chunks(self.chunks())
    }

    /// The chunks that reads of this payload have yet to hand out.
    pub open spec fn chunks(&self) -> Seq<Seq<u8>> {
        match *self {
            ResponseBody::Empty => Seq::empty(),
            ResponseBody::Str(Some(s)) => seq![encode_utf8(s@)],
            ResponseBody::String(Some(s)) => seq![encode_utf8(s@)],
            ResponseBody::Bytes(Some(b)) => seq![b@],
            ResponseBody::AsyncBytesStream(p) => chunk_views(p.pending()),
            _ => Seq::empty(),
        }
    }

    /// Whether no read of this payload can fail: it is fixed, or its producer
    /// says that it never fails.
    pub open spec fn never_fails(&self) -> bool {
        match *self {
            ResponseBody::AsyncBytesStream(p) => p.infallible(),
            _ => true,
        }
    }

    /// A fixed payload once it was read: the same variant, holding nothing.
    pub open spec fn drained(&self) -> ResponseBody<S> {
        match *self {
            ResponseBody::Str(_) => ResponseBody::Str(None),
            ResponseBody::String(_) => ResponseBody::String(None),
            ResponseBody::Bytes(_) => ResponseBody::Bytes(None),
            other => other,
        }
    }

    /// Whether `r` is a result that one read of this payload may give, as
    /// far as the payload's producer decides it: a producer's read gives
    /// what the producer returns.
    pub open spec fn reads(&self, r: Result<Option<Vec<u8>>, BodyError>) -> bool {
        match *self {
            ResponseBody::AsyncBytesStream(p) => p.yields(r),
            _ => r is Ok,
        }
    }

    /// Hands out the next chunk, or `None` once nothing is left.
    ///
    /// A fixed payload comes out whole on the first read and is gone after it.
    /// Only a producer can fail.
    pub fn read_next_chunk(&mut self) -> (r: Result<Option<Vec<u8>>, BodyError>)
        ensures
            old(self).reads(r),
            old(self).never_fails() ==> r is Ok,
            final(self).never_fails() == old(self).never_fails(),
            final(self).is_fixed() == old(self).is_fixed(),
            old(self).is_fixed() ==> *final(self) == old(self).drained(),
            match r {
                Ok(Some(chunk)) => old(self).chunks().len() > 0 && chunk@ == old(self).chunks()[0]
                    && final(self).chunks() == old(self).chunks().drop_first(),
                Ok(None) => old(self).chunks().len() == 0 && final(self).chunks().len() == 0,
                Err(_) => final(self).chunks().len() <= old(self).chunks().len(),
            },
    {
        match self {
            ResponseBody::Empty => Ok(None),
            ResponseBody::Str(data) => {
                match data.take() {
                    Some(text) => {
                        let chunk = text.as_bytes_vec();
                        assert(seq![chunk@].drop_first() =~= Seq::<Seq<u8>>::empty());
                        Ok(Some(chunk))
                    },
                    None => Ok(None),
                }
            },
            ResponseBody::String(data) => {
                match data.take() {
                    Some(text) => {
                        let chunk = text.as_str().as_bytes_vec();
                        assert(seq![chunk@].drop_first() =~= Seq::<Seq<u8>>::empty());
                        Ok(Some(chunk))
                    },
                    None => Ok(None),
                }
            },
            ResponseBody::Bytes(data) => {
                match data.take() {
                    Some(chunk) => {
                        assert(seq![chunk@].drop_first() =~= Seq::<Seq<u8>>::empty());
                        Ok(Some(chunk))
                    },
                    None => Ok(None),
                }
            },
            ResponseBody::AsyncBytesStream(data) => {
                let ghost before = data.pending();
                let r = data.next();
                proof {
                    if r is Ok && r->Ok_0 is Some {
                        assert(chunk_views(data.pending()) =~= chunk_views(before).drop_first());
                    }
                }
                r
            },
        }
    }

    /// Reads to the end and returns everything read as one buffer.
    ///
    /// Stops at the first failure of the producer and returns it; what was read
    /// before it is dropped.
    pub fn read_all(&mut self) -> (r: Result<Vec<u8>, BodyError>)
        ensures
            read_all_spec(*old(self), *final(self), r),
    {
        let mut ret: Vec<u8> = Vec::new();
        loop
            invariant
                self.is_fixed() == old(self).is_fixed(),
                self.never_fails() == old(self).never_fails(),
                self.is_fixed() ==> self.drained() == old(self).drained(),
                self.chunks().len() <= old(self).chunks().len(),
                ret@ + concat_chunks(self.chunks()) == concat_chunks(old(self).chunks()),
            decreases self.chunks().len(),
        {
            let ghost before = self.chunks();
            let ghost read = ret@;
            let ghost read_from = *self;
            let polled = self.read_next_chunk();
            proof {
                assert(read_from.reads(polled));
                if polled is Ok && polled->Ok_0 is Some {
                    let chunk = polled->Ok_0->Some_0;
                    assert(read + chunk@ + concat_chunks(self.chunks()) =~= read
                        + concat_chunks(before));
                }
                if polled is Ok && polled->Ok_0 is None {
                    assert(read + concat_chunks(before) =~= read);
                }
            }
            match read_step(&mut ret, polled) {
                None => {},
                Some(Ok(())) => {
                    return Ok(ret);
                },
                Some(Err(e)) => {
                    return Err(e);
                },
            }
        }
    }

    /// The payload's length as far as it is known without reading: exact for
    /// an unread fixed payload, unknown for a producer and for a payload that
    /// was read already.
    pub fn size_hint(&self) -> (hint: SizeHint)
        ensures
            hint == match *self {
                ResponseBody::Empty => SizeHint { lower: 0, upper: Some(0) },
                ResponseBody::Str(Some(s)) => SizeHint {
                    lower: encode_utf8(s@).len() as usize as u64,
                    upper: Some(encode_utf8(s@).len() as usize as u64),
                },
                ResponseBody::String(Some(s)) => SizeHint {
                    lower: encode_utf8(s@).len() as usize as u64,
                    upper: Some(encode_utf8(s@).len() as usize as u64),
                },
                ResponseBody::Bytes(Some(b)) => SizeHint {
                    lower: b@.len() as u64,
                    upper: Some(b@.len() as u64),
                },
                _ => SizeHint { lower: 0, upper: None },
            },
    {
        match self {
            ResponseBody::Empty => SizeHint::with_exact(0),
            ResponseBody::Str(Some(data)) => SizeHint::with_exact(data.len() as u64),
            ResponseBody::String(Some(data)) => SizeHint::with_exact(data.as_str().len() as u64),
            ResponseBody::Bytes(Some(data)) => SizeHint::with_exact(data.len() as u64),
            _ => SizeHint::unknown(),
        }
    }

    /// Whether it is known without reading that no chunk is left.
    pub fn is_end_stream(&self) -> (end: bool)
        ensures
            end == (self.is_fixed() && self.chunks().len() == 0),
    {
        match self {
            ResponseBody::Empty => true,
            ResponseBody::Str(data) => data.is_none(),
            ResponseBody::String(data) => data.is_none(),
            ResponseBody::Bytes(data) => data.is_none(),
            ResponseBody::AsyncBytesStream(_) => false,
        }
    }
}

/// One step of reading to the end: what becomes of `buffer` and whether
/// the reading stops, for what one read gave as `polled`. A chunk is added
/// at the end of the buffer and the reading goes on; the end stops it with
/// success; a failure stops it with that failure, and the buffer stays.
pub fn read_step(buffer: &mut Vec<u8>, polled: Result<Option<Vec<u8>>, BodyError>) -> (stop: Option<
    Result<(), BodyError>,
>)
    ensures
        match polled {
            Ok(Some(chunk)) => stop is None && final(buffer)@ == old(buffer)@ + chunk@,
            Ok(None) => stop == Some(Ok::<(), BodyError>(())) && final(buffer)@ == old(buffer)@,
            Err(e) => stop == Some(Err::<(), BodyError>(e)) && final(buffer)@ == old(buffer)@,
        },
{
    match polled {
        Ok(Some(mut chunk)) => {
            buffer.append(&mut chunk);
            None
        },
        Ok(None) => Some(Ok(())),
        Err(e) => Some(Err(e)),
    }
}

/// What one read of a payload gave, as a frame: a chunk is a frame of data,
/// the end is the end, a failure is that failure.
pub open spec fn frame_of(polled: Result<Option<Vec<u8>>, BodyError>) -> Option<
    Result<Frame, BodyError>,
> {
    match polled {
        Ok(Some(chunk)) => Some(Ok(Frame::Data(chunk))),
        Ok(None) => None,
        Err(e) => Some(Err(e)),
    }
}

/// What one read of a payload gave, wrapped as a frame.
pub fn frame_of_chunk(polled: Result<Option<Vec<u8>>, BodyError>) -> (r: Option<
    Result<Frame, BodyError>,
>)
    ensures
        r == frame_of(polled),
        match polled {
            Ok(Some(chunk)) => r matches Some(Ok(frame)) && frame@ == FrameView::Data(chunk@),
            Ok(None) => r is None,
            Err(e) => r == Some(Err::<Frame, BodyError>(e)),
        },
{
    match polled {
        Ok(Some(chunk)) => Some(Ok(Frame::Data(chunk))),
        Ok(None) => None,
        Err(e) => Some(Err(e)),
    }
}

/// What one call of `read_all` does: `before` and `after` are the payload
/// before and after the call, `r` is what the call returned.
pub open spec fn read_all_spec<S: AsyncStream<Vec<u8>>>(
    before: ResponseBody<S>,
    after: ResponseBody<S>,
    r: Result<Vec<u8>, BodyError>,
) -> bool {
    &&& before.never_fails() ==> r is Ok
    &&& after.never_fails() == before.never_fails()
    &&& after.is_fixed() == before.is_fixed()
    &&& before.is_fixed() ==> after == before.drained()
    &&& r matches Ok(bytes) ==> bytes@ == concat_chunks(before.chunks()) && after.chunks().len()
        == 0
    &&& r is Err ==> after.chunks().len() <= before.chunks().len()
    &&& r matches Err(e) ==> exists|failing: ResponseBody<S>| #[trigger]
        failing.reads(Err::<Option<Vec<u8>>, BodyError>(e))
}

/// A fixed payload is read whole by the first `read_all`, and a second
/// `read_all` of the same payload returns nothing: reading to the end can be
/// repeated.
pub proof fn lemma_read_all_twice<S: AsyncStream<Vec<u8>>>(
    start: ResponseBody<S>,
    between: ResponseBody<S>,
    end: ResponseBody<S>,
    first: Result<Vec<u8>, BodyError>,
    second: Result<Vec<u8>, BodyError>,
)
    requires
        start.is_fixed(),
        read_all_spec(start, between, first),
        read_all_spec(between, end, second),
    ensures
        first matches Ok(bytes) && bytes@ == start.payload(),
        second matches Ok(bytes) && bytes@ == Seq::<u8>::empty(),
{
}

/// The frames of data that stand for `chunks`, one frame for each chunk.
pub open spec fn data_frames(chunks: Seq<Seq<u8>>) -> Seq<FrameView> {
    chunks.map_values(|c: Seq<u8>| FrameView::Data(c))
}

/// What is aggregated from the frames of a sequence of chunks is the chunks
/// joined in their order, whatever their lengths; and there are no trailers.
pub proof fn lemma_data_frames_join(chunks: Seq<Seq<u8>>)
    ensures
        data_of(data_frames(chunks)) == concat_chunks(chunks),
        !has_trailers(data_frames(chunks)),
    decreases chunks.len(),
{
    let frames = data_frames(chunks);
    if chunks.len() > 0 {
        lemma_data_frames_join(chunks.drop_last());
        assert(frames.drop_last() =~= data_frames(chunks.drop_last()));
        lemma_concat_push(chunks.drop_last(), chunks.last());
        assert(chunks.drop_last().push(chunks.last()) =~= chunks);
    }
}

/// What is aggregated from the frames of a payload is the payload: the
/// chunks that its producer yields, joined in the order in which they come.
pub proof fn lemma_aggregate_of_body<S: AsyncStream<Vec<u8>>>(body: ResponseBody<S>)
    ensures
        data_of(body.frames()) == body.payload(),
        !has_trailers(body.frames()),
{
    lemma_data_frames_join(body.chunks());
}

/// Joining chunks with one more chunk behind them adds that chunk's bytes at
/// the end.
pub proof fn lemma_concat_push(chunks: Seq<Seq<u8>>, chunk: Seq<u8>)
    ensures
        concat_chunks(chunks.push(chunk)) == concat_chunks(chunks) + chunk,
    decreases chunks.len(),
{
    if chunks.len() == 0 {
        assert(chunks.push(chunk).drop_first() =~= chunks);
        assert(concat_chunks(chunks) =~= Seq::<u8>::empty());
        assert(chunks.push(chunk)[0] == chunk);
        assert(concat_chunks(chunks.push(chunk)) =~= chunk + concat_chunks(chunks));
        assert(concat_chunks(chunks) + chunk =~= chunk);
    } else {
        lemma_concat_push(chunks.drop_first(), chunk);
        assert(chunks.push(chunk).drop_first() =~= chunks.drop_first().push(chunk));
        assert(chunks[0] + (concat_chunks(chunks.drop_first()) + chunk) =~= (chunks[0]
            + concat_chunks(chunks.drop_first())) + chunk);
    }
}

impl<S: AsyncStream<Vec<u8>>> BodyExt for ResponseBody<S> {
    open spec fn frames(&self) -> Seq<FrameView> {
        data_frames(self.chunks())
    }

    open spec fn infallible(&self) -> bool {
        self.never_fails()
    }

    /// A poll gives what one read gives, wrapped as a frame, and a fixed
    /// payload is drained by it.
    open spec fn polls(&self, after: &Self, r: Option<Result<Frame, BodyError>>) -> bool {
        &&& exists|polled: Result<Option<Vec<u8>>, BodyError>| #[trigger]
            self.reads(polled) && r == frame_of(polled)
        &&& self.is_fixed() ==> *after == self.drained()
    }

    fn poll_frame(&mut self) -> (r: Option<Result<Frame, BodyError>>) {
        let ghost before = self.chunks();
        let polled = self.read_next_chunk();
        proof {
            if polled is Ok && polled->Ok_0 is Some {
                assert(data_frames(self.chunks()) =~= data_frames(before).drop_first());
            }
            assert(old(self).reads(polled));
        }
        frame_of_chunk(polled)
    }
}

impl<S> Default for ResponseBody<S> {
    fn default() -> (body: ResponseBody<S>)
        ensures
            body is Empty,
    {
        ResponseBody::Empty
    }
}

impl<S> From<&'static str> for ResponseBody<S> {
    fn from(value: &'static str) -> (body: ResponseBody<S>) {
        ResponseBody::Str(Some(value))
    }
}

impl<S> vstd::std_specs::convert::FromSpecImpl<&'static str> for ResponseBody<S> {
    open spec fn obeys_from_spec() -> bool {
        true
    }

    open spec fn from_spec(value: &'static str) -> ResponseBody<S> {
        ResponseBody::Str(Some(value))
    }
}

impl<S> From<String> for ResponseBody<S> {
    fn from(value: String) -> (body: ResponseBody<S>) {
        ResponseBody::String(Some(value))
    }
}

impl<S> vstd::std_specs::convert::FromSpecImpl<String> for ResponseBody<S> {
    open spec fn obeys_from_spec() -> bool {
        true
    }

    open spec fn from_spec(value: String) -> ResponseBody<S> {
        ResponseBody::String(Some(value))
    }
}

impl<S> From<Vec<u8>> for ResponseBody<S> {
    fn from(value: Vec<u8>) -> (body: ResponseBody<S>) {
        ResponseBody::Bytes(Some(value))
    }
}

impl<S> vstd::std_specs::convert::FromSpecImpl<Vec<u8>> for ResponseBody<S> {
    open spec fn obeys_from_spec() -> bool {
        true
    }

    open spec fn from_spec(value: Vec<u8>) -> ResponseBody<S> {
        ResponseBody::Bytes(Some(value))
    }
}

impl<S: AsyncStream<Vec<u8>>> ResponseBody<S> {
    /// The payload that reads from `stream`: nothing is read yet, and every
    /// read of the payload is a read of `stream`.
    pub fn from_stream(stream: S) -> (body: ResponseBody<S>)
        ensures
            body == ResponseBody::AsyncBytesStream(stream),
            body.chunks() == chunk_views(stream.pending()),
            body.never_fails() == stream.infallible(),
            forall|r: Result<Option<Vec<u8>>, BodyError>|
                #[trigger] body.reads(r) == stream.yields(r),
    {
        ResponseBody::AsyncBytesStream(stream)
    }
}

} // verus!
