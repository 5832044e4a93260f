use hyper_accelerator::body::Body;
use hyper_accelerator::filestream::{chunk_of_read, BUF_SIZE};
use hyper_accelerator::response_body::{frame_of_chunk, read_step};
use hyper_accelerator::body_ext::BodyExt;
use hyper_accelerator::body_utils::{
    create_bytes_body, create_json_body, create_static_str_body, create_stream_body,
    create_string_body, SerializeToJsonBodyError,
};
use hyper_accelerator::error::BodyError;
use hyper_accelerator::frame::Frame;
use hyper_accelerator::response_body::{AsyncStream, Ended, ResponseBody, SizeHint};

struct Chunks {
    chunks: Vec<Vec<u8>>,
    fail_after: Option<usize>,
    served: usize,
}

impl Chunks {
    fn new(chunks: &[&[u8]]) -> Chunks {
        Chunks { chunks: chunks.iter().rev().map(|c| c.to_vec()).collect(), fail_after: None, served: 0 }
    }

    fn failing_after(chunks: &[&[u8]], n: usize) -> Chunks {
        let mut c = Chunks::new(chunks);
        c.fail_after = Some(n);
        c
    }
}

impl AsyncStream<Vec<u8>> for Chunks {
    fn next(&mut self) -> Result<Option<Vec<u8>>, BodyError> {
        if self.fail_after == Some(self.served) {
            return Err(BodyError::Io("connection reset".to_string()));
        }
        self.served += 1;
        Ok(self.chunks.pop())
    }
}

#[test]
fn read_all_returns_payload_then_nothing() {
    let mut body: ResponseBody = create_static_str_body("hello");
    assert_eq!(body.read_all().unwrap(), b"hello".to_vec());
    assert_eq!(body.read_all().unwrap(), Vec::<u8>::new());

    let mut body: ResponseBody = create_string_body(String::from("héllo"));
    assert_eq!(body.read_all().unwrap(), "héllo".as_bytes().to_vec());
    assert_eq!(body.read_all().unwrap(), Vec::<u8>::new());

    let mut body: ResponseBody = create_bytes_body(&[0, 255, 7]);
    assert_eq!(body.read_all().unwrap(), vec![0, 255, 7]);
    assert_eq!(body.read_all().unwrap(), Vec::<u8>::new());
}

#[test]
fn read_all_of_empty_body_is_empty_every_time() {
    let mut body: ResponseBody = ResponseBody::Empty;
    assert_eq!(body.read_all().unwrap(), Vec::<u8>::new());
    assert_eq!(body.read_all().unwrap(), Vec::<u8>::new());
    let mut body: Body = Body::default();
    assert!(matches!(body, ResponseBody::Empty));
    assert_eq!(body.read_next_chunk().unwrap(), None);
}

#[test]
fn read_next_chunk_hands_out_the_payload_once() {
    let mut body: ResponseBody = ResponseBody::from("abc");
    assert_eq!(body.read_next_chunk().unwrap(), Some(b"abc".to_vec()));
    assert_eq!(body.read_next_chunk().unwrap(), None);
    assert_eq!(body.read_next_chunk().unwrap(), None);
    let mut body: ResponseBody = ResponseBody::from(vec![1u8, 2]);
    assert_eq!(body.read_next_chunk().unwrap(), Some(vec![1, 2]));
    assert_eq!(body.read_next_chunk().unwrap(), None);
    let mut body: ResponseBody = ResponseBody::from(String::from("xy"));
    assert_eq!(body.read_next_chunk().unwrap(), Some(b"xy".to_vec()));
    assert_eq!(body.read_next_chunk().unwrap(), None);
}

#[test]
fn stream_is_read_chunk_by_chunk_in_order() {
    let mut body = create_stream_body(Chunks::new(&[b"ab", b"", b"cde"]));
    assert_eq!(body.read_next_chunk().unwrap(), Some(b"ab".to_vec()));
    assert_eq!(body.read_next_chunk().unwrap(), Some(Vec::new()));
    assert_eq!(body.read_next_chunk().unwrap(), Some(b"cde".to_vec()));
    assert_eq!(body.read_next_chunk().unwrap(), None);
}

#[test]
fn read_all_joins_the_chunks_of_a_stream() {
    let mut body = create_stream_body(Chunks::new(&[b"ab", b"", b"cde", b"f"]));
    assert_eq!(body.read_all().unwrap(), b"abcdef".to_vec());
    assert_eq!(body.read_all().unwrap(), Vec::<u8>::new());
}

#[test]
fn read_all_stops_at_the_first_failure() {
    let mut body = ResponseBody::from_stream(Chunks::failing_after(&[b"ab", b"cd"], 1));
    assert_eq!(body.read_all(), Err(BodyError::Io("connection reset".to_string())));
    assert_eq!(BodyError::Io("connection reset".to_string()).message(), "connection reset");
    assert_eq!(BodyError::Other("gone".to_string()).message(), "gone");
}

#[test]
fn size_hint_of_fixed_payloads() {
    assert_eq!(ResponseBody::<Ended>::Empty.size_hint(), SizeHint { lower: 0, upper: Some(0) });
    assert_eq!(SizeHint::with_exact(9), SizeHint { lower: 9, upper: Some(9) });
    assert_eq!(SizeHint::unknown(), SizeHint { lower: 0, upper: None });
    let body: ResponseBody = create_bytes_body(&[1, 2, 3]);
    assert_eq!(body.size_hint(), SizeHint { lower: 3, upper: Some(3) });
    let body: ResponseBody = create_static_str_body("héllo");
    assert_eq!(body.size_hint(), SizeHint { lower: 6, upper: Some(6) });
    let mut text: ResponseBody = create_string_body("abcd");
    assert_eq!(text.size_hint(), SizeHint { lower: 4, upper: Some(4) });
    text.read_all().unwrap();
    assert_eq!(text.size_hint(), SizeHint { lower: 0, upper: None });
}

#[test]
fn size_hint_of_a_stream_is_unknown() {
    let body = create_stream_body(Chunks::new(&[b"ab"]));
    assert_eq!(body.size_hint(), SizeHint { lower: 0, upper: None });
    assert!(!body.is_end_stream());
}

#[test]
fn is_end_stream_tells_read_payloads() {
    assert!(ResponseBody::<Ended>::Empty.is_end_stream());
    let mut body: ResponseBody = create_static_str_body("x");
    assert!(!body.is_end_stream());
    body.read_next_chunk().unwrap();
    assert!(body.is_end_stream());
    let mut body: ResponseBody = create_bytes_body(b"x");
    assert!(!body.is_end_stream());
    body.read_all().unwrap();
    assert!(body.is_end_stream());
}

#[test]
fn poll_frame_gives_data_frames_then_the_end() {
    let mut body: ResponseBody = create_static_str_body("abc");
    match body.poll_frame() {
        Some(Ok(Frame::Data(d))) => assert_eq!(d, b"abc".to_vec()),
        _ => panic!("a data frame was expected"),
    }
    assert!(body.poll_frame().is_none());
    let mut empty: ResponseBody = ResponseBody::Empty;
    assert!(empty.poll_frame().is_none());
    let mut failing = create_stream_body(Chunks::failing_after(&[b"ab"], 0));
    assert!(matches!(failing.poll_frame(), Some(Err(BodyError::Io(_)))));
}

#[test]
fn json_body_holds_the_serialized_text() {
    let body: Result<ResponseBody, _> = create_json_body(serde_json::to_string(&vec![1, 2]));
    match body {
        Ok(mut b) => assert_eq!(b.read_all().unwrap(), b"[1,2]".to_vec()),
        Err(_) => panic!("a body was expected"),
    }
    let refused: Result<String, serde_json::Error> =
        serde_json::from_str::<String>("not json").map(|_| String::new());
    assert!(matches!(create_json_body::<Ended>(refused), Err(SerializeToJsonBodyError::SerdeJson(_))));
}

#[test]
fn read_payload_keeps_its_variant() {
    let mut body: ResponseBody = ResponseBody::from("ab");
    assert_eq!(body.read_next_chunk().unwrap(), Some(vec![0x61u8, 0x62]));
    assert!(matches!(body, ResponseBody::Str(None)));
    let mut body: ResponseBody = ResponseBody::from(String::from("ab"));
    body.read_all().unwrap();
    assert!(matches!(body, ResponseBody::String(None)));
    let mut body: ResponseBody = ResponseBody::from(vec![1u8]);
    body.read_all().unwrap();
    body.read_all().unwrap();
    assert!(matches!(body, ResponseBody::Bytes(None)));
    let mut body: ResponseBody = ResponseBody::Empty;
    body.read_all().unwrap();
    assert!(matches!(body, ResponseBody::Empty));
}

#[test]
fn read_step_adds_a_chunk_and_goes_on() {
    let mut buffer = b"ab".to_vec();
    assert_eq!(read_step(&mut buffer, Ok(Some(b"cd".to_vec()))), None);
    assert_eq!(buffer, b"abcd".to_vec());
    assert_eq!(read_step(&mut buffer, Ok(Some(Vec::new()))), None);
    assert_eq!(buffer, b"abcd".to_vec());
}

#[test]
fn read_step_stops_at_the_end_and_at_a_failure() {
    let mut buffer = b"ab".to_vec();
    assert_eq!(read_step(&mut buffer, Ok(None)), Some(Ok(())));
    assert_eq!(buffer, b"ab".to_vec());
    let failure = BodyError::Io("reset".to_string());
    assert_eq!(
        read_step(&mut buffer, Err(failure.clone())),
        Some(Err(failure))
    );
    assert_eq!(buffer, b"ab".to_vec());
}

#[test]
fn frame_of_chunk_wraps_what_was_read() {
    match frame_of_chunk(Ok(Some(b"ab".to_vec()))) {
        Some(Ok(Frame::Data(d))) => assert_eq!(d, b"ab".to_vec()),
        _ => panic!("a data frame was expected"),
    }
    assert!(frame_of_chunk(Ok(None)).is_none());
    match frame_of_chunk(Err(BodyError::Other("gone".to_string()))) {
        Some(Err(e)) => assert_eq!(e, BodyError::Other("gone".to_string())),
        _ => panic!("the failure was expected"),
    }
}

#[test]
fn read_all_hands_on_the_first_failure_of_the_producer() {
    let mut body = create_stream_body(Chunks::failing_after(&[b"ab", b"cd", b"ef"], 2));
    assert_eq!(body.read_all(), Err(BodyError::Io("connection reset".to_string())));
    assert!(matches!(body, ResponseBody::AsyncBytesStream(_)));
}

#[test]
fn file_reads_are_cut_to_what_was_read() {
    assert_eq!(BUF_SIZE, 8192);
    assert_eq!(chunk_of_read(vec![1, 2, 3, 0, 0], 3), Some(vec![1, 2, 3]));
    assert_eq!(chunk_of_read(vec![1, 2, 3], 3), Some(vec![1, 2, 3]));
    assert_eq!(chunk_of_read(vec![1, 2, 3], 0), None);
    assert_eq!(chunk_of_read(Vec::new(), 0), None);
    assert_eq!(chunk_of_read(vec![1, 2], 5), Some(vec![1, 2]));
}

struct Twice(u8);

impl AsyncStream<Vec<u8>> for Twice {
    fn next(&mut self) -> Result<Option<Vec<u8>>, BodyError> {
        if self.0 < 2 {
            self.0 += 1;
            Ok(Some(vec![b'a' + self.0]))
        } else {
            Ok(None)
        }
    }
}

#[test]
fn payloads_read_from_producers_of_several_types_behind_pointers() {
    let mut bodies: Vec<ResponseBody<Box<dyn AsyncStream<Vec<u8>>>>> = vec![
        create_stream_body(Box::new(Chunks::new(&[b"x", b"y"])) as Box<dyn AsyncStream<Vec<u8>>>),
        ResponseBody::from_stream(Box::new(Twice(0)) as Box<dyn AsyncStream<Vec<u8>>>),
        create_static_str_body("fixed"),
        ResponseBody::from_stream(Box::new(Ended) as Box<dyn AsyncStream<Vec<u8>>>),
    ];
    let read: Vec<Vec<u8>> = bodies.iter_mut().map(|b| b.read_all().unwrap()).collect();
    assert_eq!(read, vec![b"xy".to_vec(), b"bc".to_vec(), b"fixed".to_vec(), Vec::new()]);
}

#[test]
fn ended_producer_yields_nothing() {
    let mut ended = Ended;
    assert_eq!(ended.next(), Ok(None));
    assert_eq!(ended.next(), Ok(None));
    let mut body = create_stream_body(Ended);
    assert_eq!(body.read_next_chunk(), Ok(None));
    assert!(!body.is_end_stream());
}
