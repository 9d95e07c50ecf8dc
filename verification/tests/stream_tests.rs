use ad4m_executor::ai_service::{AIService, EngineBuild};
use ad4m_executor::error::AIServiceError;

#[test]
fn transcription_stream_accepts_chunks_and_emits_segments() {
    let mut service = AIService::new();
    let stream_id = service
        .open_transcription_stream("any-model".to_string(), EngineBuild::Success)
        .expect("the stream to open");
    assert_eq!(stream_id.chars().count(), 36);
    // four seconds of audio in hundred-millisecond chunks
    for _ in 0..40 {
        service.feed_transcription_stream(&stream_id).expect("feeding to work");
    }
    service.transcription_segment(&stream_id, "hello world".to_string());
    assert!(service.transcripts.iter().any(|t| {
        t.stream_id == stream_id && t.text == "hello world"
    }));
    service.close_transcription_stream(&stream_id).expect("closing to work");
    assert_eq!(
        service.feed_transcription_stream(&stream_id).unwrap_err(),
        AIServiceError::StreamNotFound,
    );
}

#[test]
fn closing_twice_reports_stream_not_found() {
    let mut service = AIService::new();
    let stream_id = service
        .open_transcription_stream("any-model".to_string(), EngineBuild::Success)
        .expect("the stream to open");
    service.close_transcription_stream(&stream_id).expect("the first close to work");
    assert_eq!(
        service.close_transcription_stream(&stream_id).unwrap_err(),
        AIServiceError::StreamNotFound,
    );
}

#[test]
fn two_streams_get_distinct_ids() {
    let mut service = AIService::new();
    let a = service
        .open_transcription_stream("m".to_string(), EngineBuild::Success)
        .unwrap();
    let b = service
        .open_transcription_stream("m".to_string(), EngineBuild::Success)
        .unwrap();
    assert_ne!(a, b);
}

#[test]
fn failed_transcriber_build_registers_nothing() {
    let mut service = AIService::new();
    let r = service.open_transcription_stream(
        "any-model".to_string(),
        EngineBuild::Failure { message: "weights missing".to_string() },
    );
    match r.unwrap_err() {
        AIServiceError::BuildFailed { message } => assert_eq!(message, "weights missing"),
        _ => panic!("expected the build failure"),
    }
    assert_eq!(service.transcription_streams.len(), 0);
}

#[test]
fn dead_transcriber_turns_feed_and_close_into_errors() {
    let mut service = AIService::new();
    let stream_id = service
        .open_transcription_stream("any-model".to_string(), EngineBuild::Success)
        .expect("the stream to open");
    service.fail_transcription_worker(&stream_id);
    assert_eq!(
        service.feed_transcription_stream(&stream_id).unwrap_err(),
        AIServiceError::StreamClosed,
    );
    match service.close_transcription_stream(&stream_id).unwrap_err() {
        AIServiceError::SessionCrashed { message } => {
            assert_eq!(
                message,
                format!("Failed to close stream {}: Whisper thread may have crashed", stream_id)
            );
        },
        _ => panic!("expected the crash report"),
    }
}
