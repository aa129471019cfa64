use llm_toy::answer::clean_answer;
use llm_toy::backend::{backend_kind, AmdXdnaBackend, BackendKind, PlaceholderNpuBackend};
use llm_toy::input_ids::{parse_decimal_i64, parse_input_ids, InputIdsError};
use llm_toy::memory::{apply_memory, clamp_text, memory_fits, MemoryEntry, MemoryState};
use llm_toy::sources::{
    filename_from_segment, model_filename_from_url, model_source, model_url_variable, tokenizer_source,
    ModelSource, SourceError, TokenizerSource,
};

fn chars(s: &str) -> Vec<char> {
    s.chars().collect()
}

#[test]
fn input_ids_are_parsed() {
    assert_eq!(parse_input_ids(None).unwrap(), None);
    assert_eq!(parse_input_ids(Some("   ".to_string())).unwrap(), None);
    assert_eq!(parse_input_ids(Some("50, 10,50 ,61".to_string())).unwrap(), Some(vec![50, 10, 50, 61]));
    assert_eq!(parse_input_ids(Some(",1,,-2,".to_string())).unwrap(), Some(vec![1, -2]));
    assert_eq!(parse_input_ids(Some(" +7 ".to_string())).unwrap(), Some(vec![7]));
    assert_eq!(parse_input_ids(Some(",".to_string())).unwrap(), Some(vec![]));
    match parse_input_ids(Some("1, x2 ,3".to_string())) {
        Err(InputIdsError::InvalidTokenId(t)) => assert_eq!(t, "x2"),
        other => panic!("unexpected {:?}", other),
    }
}

#[test]
fn decimal_parse_matches_std() {
    for s in ["0", "-0", "+15", "9223372036854775807", "-9223372036854775808", "9223372036854775808",
        "-9223372036854775809", "", "-", "+", "1 2", "12a", "007", "99999999999999999999999"] {
        assert_eq!(parse_decimal_i64(&chars(s)), s.parse::<i64>().ok(), "input {:?}", s);
    }
}

#[test]
fn answer_is_cleaned() {
    assert_eq!(clean_answer("Hi", "  Hi there  "), "there");
    assert_eq!(clean_answer("Q", "User:\nQ\n\nAssistant: A1\nAssistant:  Final"), "Final");
    assert_eq!(clean_answer("2+2=", "2+2= 4"), "4");
    assert_eq!(clean_answer("x", "nothing to strip"), "nothing to strip");
    assert_eq!(clean_answer("", "  a  "), "a");
}

#[test]
fn memory_is_prepended() {
    let empty = MemoryState::default();
    assert_eq!(apply_memory("hi", &empty), "### Current\nUser:\nhi\n\nAssistant:");
    let m = MemoryState {
        last_prompt: Some("p2".to_string()),
        last_response: Some("r2\r\nmore".to_string()),
        conversation_history: vec![MemoryEntry { prompt: "p1".to_string(), response: "r1\n".to_string() }],
    };
    assert!(memory_fits(&m));
    assert_eq!(
        apply_memory("now", &m),
        "### Previous\nUser:\np1\n\nAssistant:\nr1\n\nUser:\np2\n\nAssistant:\nr2\nmore\n\n### Current\nUser:\nnow\n\nAssistant:"
    );
}

#[test]
fn memory_keeps_last_three_exchanges() {
    let entries: Vec<MemoryEntry> = (1..=5)
        .map(|i| MemoryEntry { prompt: format!("q{}", i), response: format!("a{}", i) })
        .collect();
    let m = MemoryState { last_prompt: None, last_response: None, conversation_history: entries };
    let out = apply_memory("x", &m);
    assert!(!out.contains("q2"));
    assert!(out.starts_with("### Previous\nUser:\nq3\n\nAssistant:\na3\n\n"));
}

#[test]
fn long_texts_are_clamped() {
    let many: String = (0..25).map(|i| format!("l{}\n", i)).collect();
    let lines: String = clamp_text(&many).into_iter().collect();
    assert_eq!(lines.lines().count(), 21);
    assert!(lines.ends_with("l19\n[...]"));
    let long = "a".repeat(2500);
    let cut: String = clamp_text(&long).into_iter().collect();
    assert_eq!(cut, format!("{}\n[...]", "a".repeat(2000)));
    let wide = format!("a{}", "é".repeat(1500));
    let m = MemoryState { last_prompt: Some(wide), last_response: None, conversation_history: vec![] };
    assert!(!memory_fits(&m));
}

#[test]
fn download_file_names() {
    assert_eq!(model_filename_from_url("https://example.com/models/tiny.onnx"), "tiny.onnx");
    assert_eq!(model_filename_from_url("https://example.com/models/"), "model.onnx");
    assert_eq!(model_filename_from_url("not a url"), "model.onnx");
    assert_eq!(filename_from_segment(Some("x.json".to_string())), "x.json");
    assert_eq!(filename_from_segment(Some(String::new())), "model.onnx");
    assert_eq!(filename_from_segment(None), "model.onnx");
}

#[test]
fn model_and_tokenizer_sources() {
    assert_eq!(model_source(true, None, None, "cpu"), Ok(ModelSource::Given));
    assert_eq!(model_source(false, Some("u".into()), Some("e".into()), "cpu"), Ok(ModelSource::Download("u".into())));
    assert_eq!(model_source(false, None, Some("e".into()), "ryzen-ai"), Ok(ModelSource::Download("e".into())));
    assert_eq!(model_source(false, None, None, "cpu"), Err(SourceError::ModelRequired));
    assert_eq!(model_source(false, None, None, "placeholder"), Ok(ModelSource::DefaultModel));
    assert_eq!(model_url_variable("cpu"), Some("CPU_MODEL_URL"));
    assert_eq!(model_url_variable("amd-xdna"), None);
    assert_eq!(tokenizer_source(true, None, None, "cpu", true), Ok(TokenizerSource::Given));
    assert_eq!(tokenizer_source(false, None, Some("e".into()), "cpu", true), Ok(TokenizerSource::Download("e".into())));
    assert_eq!(tokenizer_source(false, None, Some("e".into()), "ryzen-ai", true), Err(SourceError::TokenizerRequired));
    assert_eq!(tokenizer_source(false, None, None, "cpu", false), Ok(TokenizerSource::NotNeeded));
}

#[test]
fn backends_by_name() {
    assert_eq!(backend_kind("cpu"), BackendKind::Cpu);
    assert_eq!(backend_kind("ryzen-ai"), BackendKind::RyzenAi);
    assert_eq!(backend_kind("amd-xdna"), BackendKind::AmdXdna);
    assert_eq!(backend_kind("other"), BackendKind::Placeholder);
    let p = PlaceholderNpuBackend::new("npu0".to_string());
    assert_eq!(p.name(), "npu0");
    assert!(p.is_available());
    assert_eq!(p.run("hello").text, "[placeholder:npu0] hello");
    let a = AmdXdnaBackend::new();
    assert_eq!(a.name(), "amd-xdna");
    assert_eq!(a.run("hi").text, "[amd-xdna:placeholder] hi");
}
