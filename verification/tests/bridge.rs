use sidecar_bridge::doc::{doc_get, str_eq, Doc};
use sidecar_bridge::parse::parse_json;
use sidecar_bridge::router::{
    analyze_file_payload, analyze_file_result, analyze_text_payload, analyze_text_result,
    decode_analyze_text, decode_supported_extensions, extensions_payload, preset_to_doc,
    router_error_message, supported_extensions_result, Preset, RouterError,
};
use sidecar_bridge::sidecar::{
    classify_output, sidecar_error_message, BridgeAction, BridgeCall, BridgeEvent, BridgePhase,
    SidecarError,
};
use sidecar_bridge::wire::doc_to_json;

fn sample_preset() -> Preset {
    Preset {
        preset_id: String::from("standard"),
        name: String::from("Standard"),
        layer: 2,
        minimum_confidence: 80,
        uncertainty_policy: String::from("redact"),
        pseudonym_style: String::from("initials"),
        language_mode: String::from("auto"),
        language: None,
        entities_enabled: vec![
            (String::from("PERSON"), true),
            (String::from("EMAIL"), false),
        ],
    }
}

#[test]
fn renders_scalars_canonically() {
    assert_eq!(doc_to_json(&Doc::Null), "null");
    assert_eq!(doc_to_json(&Doc::Bool(true)), "true");
    assert_eq!(doc_to_json(&Doc::Bool(false)), "false");
    assert_eq!(doc_to_json(&Doc::Int(0)), "0");
    assert_eq!(doc_to_json(&Doc::Int(-42)), "-42");
    assert_eq!(doc_to_json(&Doc::Int(907060504030201)), "907060504030201");
    assert_eq!(doc_to_json(&Doc::Text(String::from("hi"))), "\"hi\"");
}

#[test]
fn renders_escapes() {
    let d = Doc::Text(String::from("a\"b\\c\nd\te"));
    assert_eq!(doc_to_json(&d), "\"a\\\"b\\\\c\\nd\\te\"");
}

#[test]
fn renders_nested_structures() {
    let d = Doc::Object(vec![
        (String::from("xs"), Doc::List(vec![Doc::Int(1), Doc::Int(2)])),
        (String::from("ok"), Doc::Bool(true)),
    ]);
    assert_eq!(doc_to_json(&d), "{\"xs\":[1,2],\"ok\":true}");
}

#[test]
fn parses_scalars() {
    assert_eq!(parse_json("null"), Some(Doc::Null));
    assert_eq!(parse_json("true"), Some(Doc::Bool(true)));
    assert_eq!(parse_json("false"), Some(Doc::Bool(false)));
    assert_eq!(parse_json("42"), Some(Doc::Int(42)));
    assert_eq!(parse_json("-7"), Some(Doc::Int(-7)));
    assert_eq!(parse_json("\"ok\""), Some(Doc::Text(String::from("ok"))));
}

#[test]
fn parses_with_whitespace() {
    let d = parse_json(" {\"a\": [1, 2],\n \"b\": \"x\"} ").expect("well-formed");
    assert_eq!(
        d,
        Doc::Object(vec![
            (String::from("a"), Doc::List(vec![Doc::Int(1), Doc::Int(2)])),
            (String::from("b"), Doc::Text(String::from("x"))),
        ])
    );
}

#[test]
fn parses_escapes() {
    assert_eq!(
        parse_json("\"a\\\"b\\\\c\\nd\\te\\u{}\""),
        None,
        "unknown escapes are rejected"
    );
    assert_eq!(
        parse_json("\"a\\\"b\\\\c\\nd\\te\""),
        Some(Doc::Text(String::from("a\"b\\c\nd\te")))
    );
    assert_eq!(parse_json("\"\\/\""), Some(Doc::Text(String::from("/"))));
}

#[test]
fn parses_digit_runs_up_to_eighteen() {
    assert_eq!(
        parse_json("999999999999999999"),
        Some(Doc::Int(999_999_999_999_999_999))
    );
    assert_eq!(parse_json("1000000000000000000"), None);
    assert_eq!(parse_json("-999999999999999999"), Some(Doc::Int(-999_999_999_999_999_999)));
    // The largest machine integers render, but have no wire form to read back.
    assert_eq!(parse_json(&doc_to_json(&Doc::Int(i64::MAX))), None);
}

#[test]
fn rejects_malformed_texts() {
    assert_eq!(parse_json(""), None);
    assert_eq!(parse_json("{"), None);
    assert_eq!(parse_json("[1,]"), None);
    assert_eq!(parse_json("{\"a\":1,}"), None);
    assert_eq!(parse_json("\"unterminated"), None);
    assert_eq!(parse_json("nul"), None);
    assert_eq!(parse_json("1 2"), None, "trailing content is rejected");
    assert_eq!(parse_json("1.5"), None, "fractions are not wire values");
}

#[test]
fn round_trips_documents() {
    let d = Doc::Object(vec![
        (String::from("n"), Doc::Int(-12)),
        (
            String::from("xs"),
            Doc::List(vec![Doc::Null, Doc::Bool(false), Doc::Text(String::from("s\n"))]),
        ),
        (String::from("o"), Doc::Object(vec![])),
    ]);
    assert_eq!(parse_json(&doc_to_json(&d)), Some(d));
}

#[test]
fn looks_fields_up_in_order() {
    let d = parse_json("{\"a\":1,\"a\":2,\"b\":3}").expect("well-formed");
    assert_eq!(doc_get(&d, "a"), Some(&Doc::Int(1)), "the first field wins");
    assert_eq!(doc_get(&d, "b"), Some(&Doc::Int(3)));
    assert_eq!(doc_get(&d, "c"), None);
    assert_eq!(doc_get(&Doc::Int(1), "a"), None);
    assert!(str_eq("abc", "abc"));
    assert!(!str_eq("abc", "abd"));
    assert!(!str_eq("abc", "ab"));
}

#[test]
fn preset_round_trips_through_a_worker_echo() {
    // A stub worker echoes the preset back inside its response envelope;
    // the structure that comes back is the one that was sent.
    let preset = sample_preset();
    let sent = preset_to_doc(&preset);
    let reply = format!("{{\"preset\": {}}}", doc_to_json(&sent));
    let envelope = classify_output(true, reply, String::new()).expect("clean echo");
    assert_eq!(doc_get(&envelope, "preset"), Some(&sent));
}

#[test]
fn preset_payload_has_the_wire_shape() {
    let preset = sample_preset();
    assert_eq!(
        doc_to_json(&preset_to_doc(&preset)),
        "{\"preset_id\":\"standard\",\"name\":\"Standard\",\"layer\":2,\
         \"minimum_confidence\":80,\"uncertainty_policy\":\"redact\",\
         \"pseudonym_style\":\"initials\",\"language_mode\":\"auto\",\
         \"language\":null,\"entities_enabled\":{\"PERSON\":true,\"EMAIL\":false}}"
    );
}

#[test]
fn analyze_text_payload_has_the_wire_shape() {
    let preset = sample_preset();
    let with_model = analyze_text_payload(
        String::from("call me"),
        &preset,
        Some(String::from("/models/x")),
    );
    let rendered = doc_to_json(&with_model);
    assert!(rendered.starts_with("{\"text\":\"call me\",\"preset\":{"));
    assert!(rendered.ends_with(",\"model_path\":\"/models/x\"}"));
    let without_model = analyze_text_payload(String::from("call me"), &preset, None);
    assert!(!doc_to_json(&without_model).contains("model_path"));
}

#[test]
fn analyze_file_payload_has_the_wire_shape() {
    let preset = sample_preset();
    let payload = analyze_file_payload(String::from("/in/a.txt"), &preset);
    assert!(doc_to_json(&payload).starts_with("{\"input_path\":\"/in/a.txt\",\"preset\":{"));
    assert_eq!(doc_to_json(&extensions_payload()), "{}");
}

#[test]
fn extensions_come_back_in_order() {
    let out = String::from("{\"extensions\": [\"txt\",\"pdf\",\"docx\"]}");
    let outcome = classify_output(true, out, String::new());
    let res = supported_extensions_result(outcome).expect("three extensions");
    assert_eq!(
        res.extensions,
        vec![String::from("txt"), String::from("pdf"), String::from("docx")]
    );
}

#[test]
fn an_error_field_fails_the_call_despite_exit_zero() {
    let out = String::from("{\"error\": \"model not found\"}");
    let outcome = classify_output(true, out, String::new());
    match outcome {
        Err(SidecarError::WorkerReportedFailure(m)) => {
            assert!(m.contains("model not found"));
        }
        other => panic!("expected a worker failure, got {:?}", other),
    }
}

#[test]
fn a_non_string_error_field_is_carried_as_wire_text() {
    let out = String::from("{\"error\": {\"code\": 3}}");
    let outcome = classify_output(true, out, String::new());
    match outcome {
        Err(SidecarError::WorkerReportedFailure(m)) => {
            assert_eq!(m, "{\"code\":3}");
        }
        other => panic!("expected a worker failure, got {:?}", other),
    }
}

#[test]
fn a_non_zero_exit_fails_the_call_whatever_stdout_holds() {
    let out = String::from("{\"extensions\": [\"txt\"]}");
    let outcome = classify_output(false, out, String::from("traceback: boom"));
    assert_eq!(
        outcome,
        Err(SidecarError::WorkerReportedFailure(String::from("traceback: boom")))
    );
}

#[test]
fn malformed_output_carries_the_raw_bytes() {
    let out = String::from("I am not a document");
    let outcome = classify_output(true, out, String::new());
    match outcome {
        Err(SidecarError::InvalidOutput { message, raw }) => {
            assert!(!message.is_empty());
            assert_eq!(raw, "I am not a document");
        }
        other => panic!("expected invalid output, got {:?}", other),
    }
}

#[test]
fn a_clean_reply_is_the_envelope() {
    let out = String::from("{\"run_id\": \"r1\", \"findings_count\": 2}");
    let envelope = classify_output(true, out, String::new()).expect("clean reply");
    assert_eq!(doc_get(&envelope, "run_id"), Some(&Doc::Text(String::from("r1"))));
}

#[test]
fn decodes_a_full_text_analysis_reply() {
    let out = String::from(
        "{\"run_id\": \"r7\", \"run_folder\": \"/runs/r7\", \"redacted_text\": \"x\",\
         \"summary\": {\"PERSON\": 2, \"EMAIL\": 0}, \"findings_count\": 2,\
         \"language\": \"en\"}",
    );
    let outcome = classify_output(true, out, String::new());
    let res = analyze_text_result(outcome).expect("fully populated");
    assert_eq!(res.run_id, "r7");
    assert_eq!(res.run_folder, "/runs/r7");
    assert_eq!(res.redacted_text, "x");
    assert_eq!(
        res.summary,
        vec![(String::from("PERSON"), 2), (String::from("EMAIL"), 0)]
    );
    assert_eq!(res.findings_count, 2);
    assert_eq!(res.language, "en");
}

#[test]
fn a_missing_field_is_a_decoding_failure_not_a_partial_result() {
    let out = String::from(
        "{\"run_id\": \"r7\", \"run_folder\": \"/runs/r7\", \"redacted_text\": \"x\",\
         \"summary\": {}, \"findings_count\": 2}",
    );
    let envelope = classify_output(true, out, String::new()).expect("clean reply");
    match decode_analyze_text(&envelope) {
        Err(RouterError::DecodingFailure(raw)) => {
            assert!(raw.contains("\"run_id\":\"r7\""));
        }
        other => panic!("expected a decoding failure, got {:?}", other),
    }
}

#[test]
fn a_mistyped_count_is_a_decoding_failure() {
    let out = String::from(
        "{\"run_id\": \"r\", \"run_folder\": \"f\", \"output_path\": \"o\",\
         \"summary\": {\"PERSON\": \"two\"}, \"findings_count\": 1}",
    );
    let outcome = classify_output(true, out, String::new());
    match analyze_file_result(outcome) {
        Err(RouterError::DecodingFailure(_)) => {}
        other => panic!("expected a decoding failure, got {:?}", other),
    }
}

#[test]
fn a_mistyped_extension_list_is_a_decoding_failure() {
    let out = String::from("{\"extensions\": [\"txt\", 3]}");
    let envelope = classify_output(true, out, String::new()).expect("clean reply");
    match decode_supported_extensions(&envelope) {
        Err(RouterError::DecodingFailure(_)) => {}
        other => panic!("expected a decoding failure, got {:?}", other),
    }
}

#[test]
fn a_bridge_failure_passes_through_the_router() {
    let outcome = Err(SidecarError::StartFailed(String::from("no worker")));
    match analyze_text_result(outcome) {
        Err(RouterError::BridgeFailure(SidecarError::StartFailed(m))) => {
            assert_eq!(m, "no worker");
        }
        other => panic!("expected a bridge failure, got {:?}", other),
    }
}

#[test]
fn a_launch_failure_ends_the_call_before_anything_is_sent() {
    let call = BridgeCall::new(String::from("analyze_text"), &extensions_payload());
    assert_eq!(call.phase, BridgePhase::Launching);
    assert_eq!(call.next_action(), BridgeAction::Launch);
    let (call, outcome) = call.step(BridgeEvent::LaunchFailed(String::from(
        "no such file or directory",
    )));
    assert_eq!(call.phase, BridgePhase::Done);
    assert_eq!(call.next_action(), BridgeAction::Stop);
    assert_eq!(
        outcome,
        Some(Err(SidecarError::StartFailed(String::from(
            "no such file or directory"
        ))))
    );
}

#[test]
fn a_send_failure_ends_the_call_as_start_failed() {
    let call = BridgeCall::new(String::from("analyze_text"), &extensions_payload());
    let (call, outcome) = call.step(BridgeEvent::Launched);
    assert_eq!(outcome, None);
    assert_eq!(call.next_action(), BridgeAction::Send);
    let (call, outcome) = call.step(BridgeEvent::SendFailed(String::from("broken pipe")));
    assert_eq!(call.phase, BridgePhase::Done);
    assert_eq!(
        outcome,
        Some(Err(SidecarError::StartFailed(String::from("broken pipe"))))
    );
}

#[test]
fn a_whole_call_walks_launch_send_await() {
    let preset = sample_preset();
    let payload = analyze_text_payload(String::from("hello"), &preset, None);
    let call = BridgeCall::new(String::from("analyze_text"), &payload);
    assert_eq!(call.command, "analyze_text");
    assert!(call.request.starts_with("{\"text\":\"hello\""));
    let (call, none1) = call.step(BridgeEvent::Launched);
    assert_eq!(none1, None);
    let (call, none2) = call.step(BridgeEvent::Sent);
    assert_eq!(none2, None);
    assert_eq!(call.next_action(), BridgeAction::Await);
    let (call, outcome) = call.step(BridgeEvent::Exited {
        exit_ok: true,
        stdout: String::from("{\"ok\": true}"),
        stderr: String::new(),
    });
    assert_eq!(call.phase, BridgePhase::Done);
    let envelope = outcome.expect("the call is over").expect("a clean reply");
    assert_eq!(doc_get(&envelope, "ok"), Some(&Doc::Bool(true)));
}

#[test]
fn an_event_out_of_phase_changes_nothing() {
    let call = BridgeCall::new(String::from("analyze_text"), &extensions_payload());
    let (call, outcome) = call.step(BridgeEvent::Sent);
    assert_eq!(call.phase, BridgePhase::Launching);
    assert_eq!(outcome, None);
}

#[test]
fn errors_are_recovered_into_single_messages() {
    assert_eq!(
        sidecar_error_message(&SidecarError::StartFailed(String::from("enoent"))),
        "failed to start worker: enoent"
    );
    assert_eq!(
        sidecar_error_message(&SidecarError::WorkerReportedFailure(String::from("bad model"))),
        "worker reported failure: bad model"
    );
    assert_eq!(
        sidecar_error_message(&SidecarError::InvalidOutput {
            message: String::from("not a well-formed document"),
            raw: String::from("oops"),
        }),
        "invalid worker output: not a well-formed document. output: oops"
    );
    assert_eq!(
        router_error_message(&RouterError::DecodingFailure(String::from("{}"))),
        "failed to decode response. payload: {}"
    );
    assert_eq!(
        router_error_message(&RouterError::BridgeFailure(SidecarError::StartFailed(
            String::from("enoent")
        ))),
        "failed to start worker: enoent"
    );
}
