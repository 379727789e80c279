use layerpen::captions::{
    accelerator_valid, check_caption_start, is_current, job_failure, known_model_event, model_config,
    model_engine, model_terminal, read_bounded_line, runtime_missing_text, status_end, CaptionConfig,
    JobStart, StatusEnd, Workers, MAX_MODEL_EVENT,
};
use std::sync::Arc;

fn config(provider: Option<&str>, model: Option<&str>, accelerator: Option<&str>, resolved: Option<&str>) -> CaptionConfig {
    CaptionConfig {
        provider: provider.map(String::from),
        model: model.map(String::from),
        accelerator: accelerator.map(String::from),
        resolved_accelerator: resolved.map(String::from),
    }
}

/// Reads one line as `take(MAX_MODEL_EVENT + 1)` and `read_line` see it.
fn next_read(input: &mut &[u8]) -> Vec<u8> {
    let limit = (MAX_MODEL_EVENT + 1).min(input.len());
    let end = input[..limit].iter().position(|b| *b == b'\n').map_or(limit, |i| i + 1);
    let (line, rest) = input.split_at(end);
    *input = rest;
    line.to_vec()
}

fn parse_model_event(line: &str) -> Option<serde_json::Value> {
    let event: serde_json::Value = serde_json::from_str(line).ok()?;
    if known_model_event(event["type"].as_str()) {
        Some(event)
    } else {
        None
    }
}

#[test]
fn model_requests_exclude_credentials_and_untrusted_runtime_paths() {
    // The caption settings also carried an API key, a source, a device, a
    // runtime folder and an engine; none of them has a place in the request.
    let request = model_config(&config(Some("whisper"), Some("base"), Some("auto"), Some("cuda"))).unwrap();
    assert_eq!(
        (request.provider.as_str(), request.model.as_str(), request.accelerator.as_str(), request.resolved_accelerator.as_deref()),
        ("whisper", "base", "auto", Some("cuda"))
    );
    assert_eq!(model_engine(&request), "faster-whisper");
}

#[test]
fn model_validation_preserves_local_folders_but_rejects_invalid_ids() {
    let local = model_config(&config(Some("whisper"), Some("C:\\Models\\Local Whisper"), Some("cpu"), None)).unwrap();
    assert_eq!(local.model, "C:\\Models\\Local Whisper");
    let long = "x".repeat(1025);
    for invalid in [
        config(Some("openai"), None, None, None),
        config(Some("whisper"), Some("base\nsecret"), None, None),
        config(Some("whisper"), Some(long.as_str()), None, None),
        config(Some("whisper"), None, Some("openvino:NPU; command"), None),
        config(Some("whisper"), None, Some("auto"), Some("auto")),
    ] {
        assert!(model_config(&invalid).is_err());
    }
    assert_eq!(model_config(&config(Some("qwen"), None, None, None)).unwrap().model, "Qwen/Qwen3-ASR-0.6B");
}

#[test]
fn runtime_engine_tracks_effective_acceleration() {
    for (provider, requested, resolved, expected) in [
        ("whisper", "auto", "openvino:GPU.0", "openvino"),
        ("whisper", "openvino:NPU", "cpu", "openvino"),
        ("whisper", "auto", "cuda", "faster-whisper"),
        ("whisper", "cpu", "cuda", "faster-whisper"),
        ("qwen", "cpu", "cpu", "qwen"),
    ] {
        let request = model_config(&config(Some(provider), None, Some(requested), Some(resolved))).unwrap();
        assert_eq!(model_engine(&request), expected);
        if requested != "auto" {
            assert!(request.resolved_accelerator.is_none());
        }
    }
}

#[test]
fn progress_stream_is_bounded_and_requires_known_event_types() {
    let mut input: &[u8] = b"{\"type\":\"model_progress\"}\n{\"type\":\"runtime_ready\"}\n";
    let progress = parse_model_event(&read_bounded_line(&next_read(&mut input)).unwrap().unwrap()).unwrap();
    assert!(!model_terminal(progress["type"].as_str()));
    let ready = parse_model_event(&read_bounded_line(&next_read(&mut input)).unwrap().unwrap()).unwrap();
    assert!(model_terminal(ready["type"].as_str()));
    assert!(read_bounded_line(&next_read(&mut input)).unwrap().is_none());
    let excessive = vec![b'x'; MAX_MODEL_EVENT + 1];
    let mut long: &[u8] = &excessive;
    assert!(read_bounded_line(&next_read(&mut long)).is_err());
    assert!(parse_model_event("{\"type\":\"caption\",\"text\":\"unexpected\"}").is_none());
    assert!(parse_model_event("not-json").is_none());
}

#[test]
fn stale_completion_cannot_match_a_replacement() {
    let old = Arc::new(());
    let replacement = Arc::new(());
    assert!(is_current(&Some(old.clone()), &old));
    assert!(!is_current(&Some(replacement), &old));
    assert!(!is_current(&None, &old));
}

#[test]
fn bounded_lines_reject_invalid_text_and_keep_the_newline() {
    assert_eq!(read_bounded_line(b"ok\n"), Ok(Some("ok\n".to_string())));
    assert!(read_bounded_line(&[0xff, b'\n']).is_err());
    let exact = vec![b'x'; MAX_MODEL_EVENT];
    assert_eq!(read_bounded_line(&exact).unwrap().unwrap().len(), MAX_MODEL_EVENT);
    assert_eq!(read_bounded_line(&vec![b'x'; MAX_MODEL_EVENT + 1]), Err("Model event exceeded its limit".to_string()));
}

#[test]
fn accelerators_follow_the_helper_grammar() {
    for ok in ["auto", "cpu", "cuda", "openvino:CPU", "openvino:GPU.0", "openvino:NPU.123"] {
        assert!(accelerator_valid(ok), "{ok}");
    }
    for bad in ["", "gpu", "openvino:", "openvino:TPU", "openvino:GPU.", "openvino:GPU.1234", "openvino:GPU.x", "openvino:GPU.1.2", "OPENVINO:CPU"] {
        assert!(!accelerator_valid(bad), "{bad}");
    }
}

#[test]
fn model_request_errors_name_their_cause() {
    assert_eq!(model_config(&config(None, None, None, None)).err().unwrap(), "Choose a local speech recognition provider.");
    assert_eq!(
        model_config(&config(Some("gemini"), None, None, None)).err().unwrap(),
        "Model downloads are available for local providers only."
    );
    assert_eq!(
        model_config(&config(Some("whisper"), Some("a\u{7f}"), None, None)).err().unwrap(),
        "The model name or folder is invalid."
    );
    assert_eq!(
        model_config(&config(Some("whisper"), None, Some("tpu"), None)).err().unwrap(),
        "Choose an available speech recognition accelerator."
    );
    assert_eq!(
        model_config(&config(Some("whisper"), None, None, Some("bogus"))).err().unwrap(),
        "The resolved speech recognition accelerator is invalid."
    );
    let padded = model_config(&config(Some("whisper"), Some("  small \t"), None, None)).unwrap();
    assert_eq!(padded.model, "small");
    assert_eq!(padded.accelerator, "auto");
    // 512 two-byte characters are 1,024 bytes, the largest name accepted.
    assert!(model_config(&config(Some("whisper"), Some("é".repeat(512).as_str()), None, None)).is_ok());
    assert!(model_config(&config(Some("whisper"), Some("é".repeat(513).as_str()), None, None)).is_err());
}

#[test]
fn live_captions_check_provider_and_source() {
    assert_eq!(check_caption_start(None, Some("system")), Err("Choose an STT provider.".to_string()));
    assert_eq!(check_caption_start(Some("siri"), Some("system")), Err("Unsupported provider".to_string()));
    assert_eq!(check_caption_start(Some("openai"), None), Err("Choose an audio source".to_string()));
    assert_eq!(check_caption_start(Some("elevenlabs"), Some("microphone")), Ok(()));
}

#[test]
fn helper_jobs_do_not_overlap() {
    let mut w = Workers::new();
    assert_eq!(w.check_model_job(false, true), Ok(JobStart::Run));
    assert_eq!(w.check_model_job(true, true), Ok(JobStart::Overridden));
    w.model_running = true;
    assert_eq!(w.check_model_job(false, false), Err("A model download or runtime setup is already running.".to_string()));
    assert_eq!(
        w.check_captions(),
        Err("Wait for model preparation to finish or cancel it before starting live captions.".to_string())
    );
    w.captions_running = true;
    assert_eq!(w.check_model_job(false, false), Err("Stop live captions before preparing a local model.".to_string()));
    w.shutting_down = true;
    assert_eq!(w.check_captions(), Err("Pointory is shutting down.".to_string()));
}

#[test]
fn status_checks_end_as_the_helper_answered() {
    assert_eq!(status_end(false, true, Some("model_status")), StatusEnd::Timeout);
    assert_eq!(status_end(true, true, Some("model_status")), StatusEnd::Reply);
    assert_eq!(status_end(true, false, Some("model_error")), StatusEnd::Reply);
    assert_eq!(status_end(true, false, Some("model_status")), StatusEnd::RuntimeMissing);
    assert_eq!(status_end(true, true, None), StatusEnd::RuntimeMissing);
    assert_eq!(job_failure(false).1, runtime_missing_text());
    assert_eq!(job_failure(true).0, "worker_protocol");
}
