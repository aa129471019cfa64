use llm_toy::decode::{initial_ids, render, DecodeLoop, Rendered, StopReason};
use llm_toy::error::GenerationError;
use llm_toy::sampler::{pick_candidate, rank_candidates, score_row};

fn order_key(x: f32) -> i32 {
    let b = x.to_bits() as i32;
    b ^ ((((b >> 31) as u32) >> 1) as i32)
}

/// A stand-in engine: the same scores every step, with index 99 the highest.
fn fixed_scores(seq_len: usize) -> (Vec<usize>, Vec<f32>) {
    let vocab = 128;
    let mut data = Vec::with_capacity(seq_len * vocab);
    for _ in 0..seq_len {
        for v in 0..vocab {
            data.push(if v == 99 { 5.0 } else { (v % 7) as f32 * 0.1 });
        }
    }
    (vec![1, seq_len, vocab], data)
}

fn step(tokens: &Vec<i64>) -> i64 {
    let (dims, data) = fixed_scores(tokens.len());
    let (start, len) = score_row(&dims, data.len()).unwrap();
    let keys: Vec<i32> = data[start..start + len].iter().map(|s| order_key(*s)).collect();
    let ranked = rank_candidates(&keys, Some(1));
    pick_candidate(&ranked, &vec![true]).unwrap() as i64
}

#[test]
fn zero_budget_runs_no_step() {
    let dl = DecodeLoop::new(vec![5, 6], 0, Some(6));
    assert!(!dl.needs_step());
    assert_eq!(dl.stop_reason(), Some(StopReason::BudgetExhausted));
    let result = dl.into_result();
    assert_eq!(result.tokens, vec![5, 6]);
    match render(None, &result.tokens, "2+2=", false).unwrap() {
        Rendered::Text(t) => assert_eq!(t, "2+2="),
        Rendered::Diagnostic => panic!("expected text"),
    }
}

#[test]
fn stop_token_first_ends_after_one_step() {
    let mut dl = DecodeLoop::new(vec![50, 10], 8, Some(99));
    let mut steps = 0;
    while dl.needs_step() {
        let t = step(dl.tokens());
        dl.accept(t);
        steps += 1;
    }
    assert_eq!(steps, 1);
    assert_eq!(dl.generated(), 1);
    assert_eq!(dl.stop_reason(), Some(StopReason::StopToken));
    assert_eq!(dl.into_result().tokens, vec![50, 10, 99]);
}

#[test]
fn budget_ends_the_loop() {
    let mut dl = DecodeLoop::new(vec![1], 2, Some(7));
    dl.accept(3);
    assert!(dl.needs_step());
    dl.accept(4);
    assert!(!dl.needs_step());
    let r = dl.into_result();
    assert_eq!(r.reason, StopReason::BudgetExhausted);
    assert_eq!(r.tokens, vec![1, 3, 4]);
}

#[test]
fn end_to_end_fixed_engine() {
    let ids = initial_ids(Some(vec![50, 10, 50, 61]), None, "2+2=").unwrap();
    let mut dl = DecodeLoop::new(ids, 3, None);
    let mut steps = 0;
    while dl.needs_step() {
        let t = step(dl.tokens());
        dl.accept(t);
        steps += 1;
    }
    assert_eq!(steps, 3);
    let result = dl.into_result();
    assert_eq!(result.tokens, vec![50, 10, 50, 61, 99, 99, 99]);
    assert_eq!(result.reason, StopReason::BudgetExhausted);
    let text: String = result
        .tokens
        .iter()
        .map(|t| match *t {
            99 => "!".to_string(),
            50 => "2".to_string(),
            10 => "+".to_string(),
            61 => "=".to_string(),
            _ => "?".to_string(),
        })
        .collect();
    assert!(text.ends_with("!!!"));
    assert_eq!(text, "2+2=!!!");
}

#[test]
fn ids_without_codec_are_missing() {
    assert!(matches!(initial_ids(None, None, "hello"), Err(GenerationError::MissingCapability)));
    assert_eq!(initial_ids(Some(vec![]), None, "hello").unwrap(), Vec::<i64>::new());
}

#[test]
fn no_codec_after_steps_asks_for_diagnostic() {
    assert!(matches!(render(None, &vec![1, 2], "p", true), Ok(Rendered::Diagnostic)));
}
