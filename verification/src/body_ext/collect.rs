use vstd::prelude::*;
use crate::frame::{data_of, has_data, has_trailers, trailers_of, Frame, FrameView};
use crate::headers::HeaderMap;

verus! {

/// The frames that were received from a payload, in the order of arrival.
#[derive(Debug)]
pub struct Collect {
    pub received_frames: Vec<Frame>,
}

impl View for Collect {
    type V = Seq<FrameView>;

    open spec fn view(&self) -> Seq<FrameView> {
        self.received_frames@.map_values(|f: Frame| f@)
    }
}

impl Collect {
    /// A collector that has received nothing yet.
    pub fn new() -> (c: Collect)
        ensures
            c@ == Seq::<FrameView>::empty(),
    {
        let c = Collect { received_frames: Vec::new() };
        assert(c@ =~= Seq::<FrameView>::empty());
        c
    }

    /// Takes in the frame that arrived next.
    pub fn push(&mut self, frame: Frame)
        ensures
            final(self)@ == old(self)@.push(frame@),
    {
        self.received_frames.push(frame);
        assert(self@ =~= old(self)@.push(frame@));
    }

    /// Moves the received frames out and leaves this collector empty.
    pub fn take(&mut self) -> (taken: Collect)
        ensures
            taken@ == old(self)@,
            final(self)@ == Seq::<FrameView>::empty(),
    {
        let mut frames: Vec<Frame> = Vec::new();
        frames.append(&mut self.received_frames);
        let taken = Collect { received_frames: frames };
        assert(taken@ =~= old(self)@);
        assert(self@ =~= Seq::<FrameView>::empty());
        taken
    }

    /// Joins what was received: the data of all data frames as one buffer,
    /// absent where no data frame came, and the entries of all trailer
    /// frames as one map, absent where no trailer frame came.
    pub fn aggregate(self) -> (r: (Option<Vec<u8>>, Option<HeaderMap>))
        ensures
            r.0 is Some <==> has_data(self@),
            r.0 matches Some(data) ==> data@ == data_of(self@),
            r.1 is Some <==> has_trailers(self@),
            r.1 matches Some(trailers) ==> trailers@ == trailers_of(self@),
    {
        let mut aggregated_data: Option<Vec<u8>> = None;
        let mut aggregated_trailers: Option<HeaderMap> = None;
        let ghost all = self@;
        let n = self.received_frames.len();
        let mut done: usize = 0;
        while done < n
            invariant
                all == self@,
                n == all.len(),
                done <= n,
                aggregated_data is Some <==> has_data(all.take(done as int)),
                aggregated_data matches Some(data) ==> data@ == data_of(all.take(done as int)),
                aggregated_trailers is Some <==> has_trailers(all.take(done as int)),
                aggregated_trailers matches Some(trailers) ==> trailers@ == trailers_of(
                    all.take(done as int),
                ),
            decreases n - done,
        {
            let frame = &self.received_frames[done];
            proof {
                let prev = all.take(done as int);
                let next = all.take(done + 1);
                assert(frame@ == all[done as int]);
                assert(next.drop_last() =~= prev);
                assert(next.last() == all[done as int]);
                lemma_absent(prev);
                if has_data(prev) {
                    let w = choose|i: int| 0 <= i < prev.len() && #[trigger] prev[i] is Data;
                    assert(next[w] is Data);
                }
                if has_trailers(prev) {
                    let w = choose|i: int| 0 <= i < prev.len() && #[trigger] prev[i] is Trailers;
                    assert(next[w] is Trailers);
                }
                if has_data(next) && !(all[done as int] is Data) {
                    let w = choose|i: int| 0 <= i < next.len() && #[trigger] next[i] is Data;
                    assert(prev[w] is Data);
                }
                if has_trailers(next) && !(all[done as int] is Trailers) {
                    let w = choose|i: int| 0 <= i < next.len() && #[trigger] next[i] is Trailers;
                    assert(prev[w] is Trailers);
                }
                if all[done as int] is Data {
                    assert(next[done as int] is Data);
                } else {
                    assert(next[done as int] is Trailers);
                }
            }
            match frame {
                Frame::Data(data) => {
                    let mut buffer = match aggregated_data {
                        Some(buffer) => buffer,
                        None => Vec::new(),
                    };
                    buffer.extend_from_slice(data.as_slice());
                    aggregated_data = Some(buffer);
                },
                Frame::Trailers(trailers) => {
                    let mut map = match aggregated_trailers {
                        Some(map) => map,
                        None => HeaderMap::new(),
                    };
                    map.extend(trailers);
                    aggregated_trailers = Some(map);
                },
            }
            done += 1;
        }
        assert(all.take(done as int) =~= all);
        (aggregated_data, aggregated_trailers)
    }
}

/// Without a data frame there is no data, and without a trailer frame no
/// trailer entry.
pub proof fn lemma_absent(frames: Seq<FrameView>)
    ensures
        !has_data(frames) ==> data_of(frames) == Seq::<u8>::empty(),
        !has_trailers(frames) ==> trailers_of(frames) == Seq::<(Seq<u8>, Seq<u8>)>::empty(),
    decreases frames.len(),
{
    if frames.len() > 0 {
        let rest = frames.drop_last();
        lemma_absent(rest);
        if has_data(rest) {
            let w = choose|i: int| 0 <= i < rest.len() && #[trigger] rest[i] is Data;
            assert(frames[w] is Data);
        }
        if has_trailers(rest) {
            let w = choose|i: int| 0 <= i < rest.len() && #[trigger] rest[i] is Trailers;
            assert(frames[w] is Trailers);
        }
        assert(frames[frames.len() - 1] == frames.last());
    }
}

} // verus!
