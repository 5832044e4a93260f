use hyper_accelerator::body_ext::collect::Collect;
use hyper_accelerator::body_ext::frame_iter::FrameIter;
use hyper_accelerator::body_ext::{collect, collect_step, frame_iter, BodyExt};
use hyper_accelerator::body_utils::{create_static_str_body, create_stream_body};
use hyper_accelerator::error::BodyError;
use hyper_accelerator::frame::Frame;
use hyper_accelerator::headers::{HeaderMap, HeaderValue};
use hyper_accelerator::response_body::{AsyncStream, Ended, ResponseBody};

struct Chunks(Vec<Vec<u8>>);

impl AsyncStream<Vec<u8>> for Chunks {
    fn next(&mut self) -> Result<Option<Vec<u8>>, BodyError> {
        if self.0.is_empty() {
            Ok(None)
        } else {
            Ok(Some(self.0.remove(0)))
        }
    }
}

struct Frames(Vec<Result<Frame, BodyError>>);

impl BodyExt for Frames {
    fn poll_frame(&mut self) -> Option<Result<Frame, BodyError>> {
        if self.0.is_empty() {
            None
        } else {
            Some(self.0.remove(0))
        }
    }
}

fn trailers(pairs: &[(&str, &str)]) -> HeaderMap {
    let mut map = HeaderMap::new();
    for (n, v) in pairs {
        map.append(n, HeaderValue::from_str(v).unwrap()).unwrap();
    }
    map
}

fn values(map: &HeaderMap, name: &str) -> Vec<Vec<u8>> {
    (0..map.len())
        .filter(|i| map.entry(*i).name().as_slice() == name.as_bytes())
        .map(|i| map.entry(i).value().as_bytes().clone())
        .collect()
}

#[test]
fn collected_stream_is_the_chunks_joined() {
    let body = create_stream_body(Chunks(vec![b"ab".to_vec(), vec![], b"cde".to_vec(), b"f".to_vec()]));
    let (data, trailers) = collect(body).unwrap().aggregate();
    assert_eq!(data, Some(b"abcdef".to_vec()));
    assert!(trailers.is_none());
}

#[test]
fn collected_stream_of_empty_chunks_is_present_and_empty() {
    let body = create_stream_body(Chunks(vec![vec![], vec![]]));
    let (data, _) = collect(body).unwrap().aggregate();
    assert_eq!(data, Some(Vec::new()));
}

#[test]
fn nothing_collected_gives_no_data_and_no_trailers() {
    let (data, trailers) = collect(ResponseBody::<Ended>::Empty).unwrap().aggregate();
    assert!(data.is_none());
    assert!(trailers.is_none());
    let (data, trailers) = Collect::new().aggregate();
    assert!(data.is_none());
    assert!(trailers.is_none());
    let (data, _) = collect(create_stream_body(Chunks(vec![]))).unwrap().aggregate();
    assert!(data.is_none());
}

#[test]
fn fixed_payload_is_collected_as_one_frame() {
    let collected = collect(create_static_str_body::<Ended>("hello")).unwrap();
    assert_eq!(collected.received_frames.len(), 1);
    let (data, _) = collected.aggregate();
    assert_eq!(data, Some(b"hello".to_vec()));
}

#[test]
fn trailer_frames_are_merged_by_adding() {
    let body = Frames(vec![
        Ok(Frame::data(b"x".to_vec())),
        Ok(Frame::trailers(trailers(&[("a", "1")]))),
        Ok(Frame::trailers(trailers(&[("a", "2")]))),
    ]);
    let (data, merged) = collect(body).unwrap().aggregate();
    assert_eq!(data, Some(b"x".to_vec()));
    let merged = merged.unwrap();
    assert_eq!(values(&merged, "a"), vec![b"1".to_vec(), b"2".to_vec()]);
    assert_eq!(merged.len(), 2);
}

#[test]
fn trailers_without_data_leave_data_absent() {
    let body = Frames(vec![Ok(Frame::trailers(trailers(&[("a", "1"), ("b", "2")])))]);
    let (data, merged) = collect(body).unwrap().aggregate();
    assert!(data.is_none());
    assert_eq!(merged.unwrap().len(), 2);
}

#[test]
fn collecting_stops_at_the_first_failure() {
    let body = Frames(vec![
        Ok(Frame::data(b"x".to_vec())),
        Err(BodyError::Io("reset".to_string())),
        Ok(Frame::data(b"y".to_vec())),
    ]);
    match collect(body) {
        Err(e) => assert_eq!(e, BodyError::Io("reset".to_string())),
        Ok(_) => panic!("a failure was expected"),
    }
}

#[test]
fn take_moves_the_frames_out() {
    let mut c = Collect::new();
    c.push(Frame::data(b"a".to_vec()));
    c.push(Frame::data(b"b".to_vec()));
    let taken = c.take();
    assert_eq!(c.received_frames.len(), 0);
    assert_eq!(taken.received_frames.len(), 2);
    assert_eq!(taken.aggregate().0, Some(b"ab".to_vec()));
}

#[test]
fn frames_come_one_at_a_time() {
    let mut iter: FrameIter<Frames> = frame_iter(Frames(vec![
        Ok(Frame::data(b"a".to_vec())),
        Ok(Frame::trailers(trailers(&[("t", "1")]))),
        Err(BodyError::Other("late".to_string())),
    ]));
    let first = iter.next_frame().unwrap().unwrap();
    assert!(first.is_data());
    assert!(!first.is_trailers());
    assert_eq!(first.into_data().ok(), Some(b"a".to_vec()));
    let second = iter.next_frame().unwrap().unwrap();
    assert!(second.is_trailers());
    let second = match second.into_data() {
        Ok(_) => panic!("trailers were expected"),
        Err(frame) => frame,
    };
    assert_eq!(second.into_trailers().ok().unwrap().len(), 1);
    assert!(matches!(iter.next_frame(), Some(Err(BodyError::Other(_)))));
    assert!(iter.next_frame().is_none());
    let mut iter = FrameIter::new(create_static_str_body::<Ended>("z"));
    assert!(matches!(iter.next_frame(), Some(Ok(Frame::Data(_)))));
    assert!(iter.next_frame().is_none());
    assert!(matches!(Frame::data(vec![1]).into_trailers(), Err(Frame::Data(_))));
}

#[test]
fn collect_step_takes_a_frame_and_goes_on() {
    let mut collected = Collect::new();
    assert_eq!(collect_step(&mut collected, Some(Ok(Frame::data(b"a".to_vec())))), None);
    assert_eq!(collect_step(&mut collected, Some(Ok(Frame::data(b"b".to_vec())))), None);
    assert_eq!(collected.received_frames.len(), 2);
    assert_eq!(collect_step(&mut collected, None), Some(Ok(())));
    assert_eq!(
        collect_step(&mut collected, Some(Err(BodyError::Io("reset".to_string())))),
        Some(Err(BodyError::Io("reset".to_string())))
    );
    assert_eq!(collected.received_frames.len(), 2);
    assert_eq!(collected.aggregate().0, Some(b"ab".to_vec()));
}

#[test]
fn stream_is_collected_chunk_for_chunk() {
    let body = ResponseBody::from_stream(Chunks(vec![b"ab".to_vec(), vec![], b"c".to_vec()]));
    let collected = collect(body).unwrap();
    assert_eq!(collected.received_frames.len(), 3);
    assert_eq!(collected.aggregate().0, Some(b"abc".to_vec()));
    let mut body = ResponseBody::from_stream(Chunks(vec![b"x".to_vec()]));
    assert!(matches!(body.poll_frame(), Some(Ok(Frame::Data(_)))));
    assert!(body.poll_frame().is_none());
}

struct FailingOnce(bool);

impl AsyncStream<Vec<u8>> for FailingOnce {
    fn next(&mut self) -> Result<Option<Vec<u8>>, BodyError> {
        if self.0 {
            Ok(None)
        } else {
            self.0 = true;
            Err(BodyError::Other("once".to_string()))
        }
    }
}

#[test]
fn stream_hands_on_the_failure_of_the_producer() {
    let mut iter = frame_iter(ResponseBody::from_stream(FailingOnce(false)));
    match iter.next_frame() {
        Some(Err(e)) => assert_eq!(e, BodyError::Other("once".to_string())),
        _ => panic!("the failure was expected"),
    }
    assert!(iter.next_frame().is_none());
    match collect(create_stream_body(FailingOnce(false))) {
        Err(e) => assert_eq!(e, BodyError::Other("once".to_string())),
        Ok(_) => panic!("the failure was expected"),
    }
}

#[test]
fn frame_iterator_reads_the_payload_it_was_given() {
    let iter = frame_iter(create_stream_body(Chunks(vec![b"k".to_vec()])));
    let mut body = iter.body;
    assert_eq!(body.read_all().unwrap(), b"k".to_vec());
    let iter: FrameIter<ResponseBody> = FrameIter::new(ResponseBody::from("p"));
    assert!(matches!(iter.body, ResponseBody::Str(Some("p"))));
}
