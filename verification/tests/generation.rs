use pocket_llama::error::PocketError;
use pocket_llama::generation::{
    eos_markers, select_eos_token, Generation, FALLBACK_EOS_TOKEN, MAX_NEW_TOKENS,
};

#[test]
fn end_of_sequence_token_is_the_first_known_marker() {
    assert_eq!(eos_markers(), vec!["</s>", "<|endoftext|>", "<|im_end|>", "<|end|>"]);
    assert_eq!(select_eos_token(&vec![None, Some(7), Some(9), None]), 7);
    assert_eq!(select_eos_token(&vec![Some(3), Some(7), None, None]), 3);
    assert_eq!(select_eos_token(&vec![None, None, None, None]), FALLBACK_EOS_TOKEN);
    assert_eq!(select_eos_token(&vec![None, None, None, Some(0)]), 0);
}

#[test]
fn empty_prompt_is_refused() {
    match Generation::start(vec![], 2) {
        Err(PocketError::EngineError(m)) => assert_eq!(m, "Input prompt generated zero tokens"),
        _ => panic!("an empty prompt must be refused"),
    }
}

#[test]
fn prompt_first_then_one_token_at_a_time() {
    let mut g = Generation::start(vec![10, 11, 12], 2).ok().unwrap();
    assert_eq!(g.next_input(), Some(vec![10, 11, 12]));
    assert_eq!(g.pos, 0);
    assert_eq!(g.on_sampled(40), Some(40));
    assert_eq!(g.pos, 3);
    assert_eq!(g.next_input(), Some(vec![40]));
    assert_eq!(g.on_sampled(41), Some(41));
    assert_eq!(g.pos, 4);
    assert_eq!(g.next_input(), Some(vec![41]));
    assert_eq!(g.on_sampled(2), None);
    assert_eq!(g.pos, 5);
    assert_eq!(g.next_input(), None);
    assert_eq!(g.tokens, vec![10, 11, 12, 40, 41]);
}

#[test]
fn generation_stops_after_the_token_budget() {
    let mut g = Generation::start(vec![1], 2).ok().unwrap();
    let mut streamed = 0;
    while let Some(_) = g.next_input() {
        if g.on_sampled(5).is_some() {
            streamed += 1;
        }
    }
    assert_eq!(streamed, MAX_NEW_TOKENS);
    assert_eq!(g.tokens.len(), 1 + MAX_NEW_TOKENS);
    assert_eq!(g.pos, MAX_NEW_TOKENS);
}

#[test]
fn generation_stops_when_nobody_listens() {
    let mut g = Generation::start(vec![1, 2, 3], 0).ok().unwrap();
    assert_eq!(g.on_sampled(9), Some(9));
    g.on_delivery_failed();
    assert!(g.finished);
    assert_eq!(g.prompt_len, 3);
    assert_eq!(g.eos, 0);
    assert_eq!(g.next_input(), None);
    assert_eq!(g.tokens, vec![1, 2, 3, 9]);
}
