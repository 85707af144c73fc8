use chunked_upload::chunk::ChunkSource;
use chunked_upload::error::UploadError;
use chunked_upload::line::UploadLine;
use chunked_upload::model::{Action, Event};
use chunked_upload::negotiate::{negotiate, part_size_of, reply_of, Placement, Reply, SESSION_EXPIRED};
use chunked_upload::retry::RetryPolicy;
use chunked_upload::transmit::Transmitter;

#[test]
fn an_expired_session_requests_no_chunks() {
    let source = ChunkSource::new(25, 10).unwrap();
    let result = negotiate(UploadLine::Bda2, &source, Reply::AuthExpired);
    assert_eq!(result.err(), Some(UploadError::AuthExpired));
    assert_eq!(source.position(), 0);
    assert_eq!(source.remaining(), 3);
}

#[test]
fn a_refusal_is_reported_as_such() {
    let source = ChunkSource::new(25, 10).unwrap();
    let result = negotiate(UploadLine::Kodo, &source, Reply::Rejected);
    assert_eq!(result.err(), Some(UploadError::EndpointRejected));
    assert_eq!(source.position(), 0);
}

#[test]
fn the_requested_chunk_size_stands_where_none_is_dictated() {
    let source = ChunkSource::new(25, 10).unwrap();
    let reply = Reply::Accepted { upload_id: String::from("u-1"), part_size: None };
    let handle = negotiate(UploadLine::Cos, &source, reply).unwrap();
    assert_eq!(handle.line(), UploadLine::Cos);
    assert_eq!(handle.upload_id(), "u-1");
    assert_eq!(handle.part_size(), 10);
    assert_eq!(handle.part_count(), 3);
    assert_eq!(handle.source().chunk_count(), 3);
}

#[test]
fn a_dictated_part_size_replaces_the_requested_one() {
    let mut source = ChunkSource::new(25, 10).unwrap();
    source.next_chunk();
    let reply = Reply::Accepted { upload_id: String::from("abc"), part_size: Some(4) };
    let handle = negotiate(UploadLine::Ws, &source, reply).unwrap();
    assert_eq!(handle.part_size(), 4);
    assert_eq!(handle.part_count(), 7);
    let parts = handle.source();
    assert_eq!(parts.total_size(), 25);
    assert_eq!(parts.chunk_size(), 4);
    assert_eq!(parts.position(), 0);
    assert_eq!(source.chunk_size(), 10);
    assert_eq!(source.position(), 1);
}

#[test]
fn a_dictated_part_size_of_zero_is_a_refusal() {
    let source = ChunkSource::new(25, 10).unwrap();
    let reply = Reply::Accepted { upload_id: String::from("abc"), part_size: Some(0) };
    assert_eq!(negotiate(UploadLine::Qn, &source, reply).err(), Some(UploadError::EndpointRejected));
}

#[test]
fn the_transmitter_sends_the_parts_that_were_agreed_on() {
    let source = ChunkSource::new(25, 10).unwrap();
    let reply = Reply::Accepted { upload_id: String::from("abc"), part_size: Some(20) };
    let handle = negotiate(UploadLine::Bldsa, &source, reply).unwrap();
    let mut t = Transmitter::new(&handle.source(), 3, RetryPolicy::standard());
    let lengths: Vec<u32> = t
        .step(Event::Begin)
        .iter()
        .filter_map(|a| match a {
            Action::Send { chunk, .. } => Some(chunk.length),
            _ => None,
        })
        .collect();
    assert_eq!(lengths, vec![20, 5]);
}

fn placement(code: Option<i64>, chunk_size: Option<u64>) -> Placement {
    Placement {
        code,
        auth: Some(String::from("token")),
        endpoint: Some(String::from("//host")),
        upos_uri: Some(String::from("upos://bucket/name.mp4")),
        chunk_size,
    }
}

#[test]
fn the_code_of_an_expired_session_is_told_apart() {
    assert_eq!(SESSION_EXPIRED, -101);
    let answer = placement(Some(-101), Some(4096));
    assert_eq!(part_size_of(&answer), Err(UploadError::AuthExpired));
    assert!(matches!(reply_of(&answer, Some(String::from("id"))), Reply::AuthExpired));
    assert!(matches!(reply_of(&answer, None), Reply::AuthExpired));
    let bare = Placement { code: Some(-101), auth: None, endpoint: None, upos_uri: None, chunk_size: None };
    assert!(matches!(reply_of(&bare, None), Reply::AuthExpired));
}

#[test]
fn an_answer_that_lacks_a_field_is_a_refusal() {
    for missing in 0..3u8 {
        let mut answer = placement(Some(0), Some(4096));
        match missing {
            0 => answer.auth = None,
            1 => answer.endpoint = None,
            _ => answer.upos_uri = None,
        }
        assert_eq!(part_size_of(&answer), Err(UploadError::EndpointRejected));
        assert!(matches!(reply_of(&answer, Some(String::from("id"))), Reply::Rejected));
    }
}

#[test]
fn a_part_size_that_does_not_fit_is_a_refusal() {
    let answer = placement(None, Some(4_294_967_296));
    assert_eq!(part_size_of(&answer), Err(UploadError::EndpointRejected));
    assert!(matches!(reply_of(&answer, Some(String::from("id"))), Reply::Rejected));
    assert_eq!(part_size_of(&placement(None, Some(4_294_967_295))), Ok(Some(u32::MAX)));
}

#[test]
fn a_granted_place_needs_an_opened_upload() {
    let answer = placement(Some(0), Some(4096));
    assert_eq!(part_size_of(&answer), Ok(Some(4096)));
    assert!(matches!(reply_of(&answer, None), Reply::Rejected));
    match reply_of(&answer, Some(String::from("id-7"))) {
        Reply::Accepted { upload_id, part_size } => {
            assert_eq!(upload_id, "id-7");
            assert_eq!(part_size, Some(4096));
        }
        other => panic!("unexpected reply {:?}", other),
    }
    match reply_of(&placement(None, None), Some(String::from("x"))) {
        Reply::Accepted { part_size, .. } => assert_eq!(part_size, None),
        other => panic!("unexpected reply {:?}", other),
    }
}

#[test]
fn an_expired_session_ends_before_any_chunk_is_taken() {
    let source = ChunkSource::new(25, 10).unwrap();
    let reply = reply_of(&placement(Some(SESSION_EXPIRED), Some(10)), None);
    assert_eq!(negotiate(UploadLine::Qn, &source, reply).err(), Some(UploadError::AuthExpired));
    assert_eq!(source.position(), 0);
}
