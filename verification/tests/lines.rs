use chunked_upload::error::UploadError;
use chunked_upload::line::{fastest_line, line_choice, LineChoice, ProbeReport, UploadLine};

fn all_lines() -> Vec<UploadLine> {
    vec![
        UploadLine::Kodo,
        UploadLine::Bda2,
        UploadLine::Ws,
        UploadLine::Qn,
        UploadLine::Qnhk,
        UploadLine::Bldsa,
        UploadLine::Cos,
        UploadLine::CosInternal,
    ]
}

#[test]
fn every_line_is_found_by_its_name() {
    let names: Vec<&str> = all_lines().iter().map(|l| l.name()).collect();
    assert_eq!(names, vec!["kodo", "bda2", "ws", "qn", "qnhk", "bldsa", "cos", "cos-internal"]);
    for line in all_lines() {
        assert_eq!(UploadLine::from_name(line.name()), Ok(line));
        assert_eq!(line_choice(Some(line.name())), Ok(LineChoice::Fixed(line)));
    }
}

#[test]
fn an_unknown_name_is_rejected() {
    for name in ["", "KODO", "kodo ", "cos_internal", "qnh", "probe", "bda"] {
        assert_eq!(UploadLine::from_name(name), Err(UploadError::UnknownLine));
        assert_eq!(line_choice(Some(name)), Err(UploadError::UnknownLine));
    }
}

#[test]
fn without_a_configured_line_the_endpoints_are_probed() {
    assert_eq!(line_choice(None), Ok(LineChoice::Probe));
}

#[test]
fn the_fastest_answer_wins() {
    let reports = vec![
        ProbeReport { line: UploadLine::Bda2, latency_ms: Some(120) },
        ProbeReport { line: UploadLine::Ws, latency_ms: None },
        ProbeReport { line: UploadLine::Qn, latency_ms: Some(35) },
        ProbeReport { line: UploadLine::Kodo, latency_ms: Some(36) },
    ];
    assert_eq!(fastest_line(&reports), Ok(UploadLine::Qn));
}

#[test]
fn the_earlier_of_two_equally_fast_answers_wins() {
    let reports = vec![
        ProbeReport { line: UploadLine::Cos, latency_ms: Some(50) },
        ProbeReport { line: UploadLine::Ws, latency_ms: Some(20) },
        ProbeReport { line: UploadLine::Qn, latency_ms: Some(20) },
    ];
    assert_eq!(fastest_line(&reports), Ok(UploadLine::Ws));
}

#[test]
fn an_answer_of_zero_milliseconds_counts() {
    let reports = vec![
        ProbeReport { line: UploadLine::Cos, latency_ms: None },
        ProbeReport { line: UploadLine::Qnhk, latency_ms: Some(0) },
        ProbeReport { line: UploadLine::Bldsa, latency_ms: Some(0) },
    ];
    assert_eq!(fastest_line(&reports), Ok(UploadLine::Qnhk));
    let slow = vec![ProbeReport { line: UploadLine::Kodo, latency_ms: Some(u128::MAX) }];
    assert_eq!(fastest_line(&slow), Ok(UploadLine::Kodo));
}

#[test]
fn no_answer_means_no_endpoint() {
    let silent = vec![
        ProbeReport { line: UploadLine::Bda2, latency_ms: None },
        ProbeReport { line: UploadLine::Ws, latency_ms: None },
    ];
    assert_eq!(fastest_line(&silent), Err(UploadError::NoEndpointAvailable));
    assert_eq!(fastest_line(&Vec::new()), Err(UploadError::NoEndpointAvailable));
}
