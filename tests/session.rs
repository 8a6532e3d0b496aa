use textgen::conversation::{Conversation, Role};
use textgen::session::{DecodeSession, GenerationError};

/// Drives a session with a scripted sampler, as the caller's decode loop does.
fn run(prompt: Vec<u32>, sample_len: usize, eos: u32, script: &[u32]) -> (Vec<(Vec<u32>, usize)>, DecodeSession) {
    let mut s = DecodeSession::start(prompt, sample_len, eos).unwrap();
    let mut inputs = Vec::new();
    let mut k = 0;
    while !s.is_done() {
        let input = s.next_input();
        inputs.push((input.tokens.clone(), input.position));
        let t = script[k % script.len()];
        k += 1;
        s.accept(t);
        s.push_fragment(&format!("<{}>", t));
    }
    (inputs, s)
}

#[test]
fn empty_prompt_is_refused() {
    assert_eq!(DecodeSession::start(vec![], 10, 2).err(), Some(GenerationError::EmptyPrompt));
}

#[test]
fn stops_at_cap_without_eos() {
    let (inputs, s) = run(vec![5, 6, 7], 4, 0, &[9]);
    assert_eq!(s.steps(), 4);
    assert_eq!(inputs.len(), 4);
    assert_eq!(s.tokens(), &vec![5, 6, 7, 9, 9, 9, 9]);
}

#[test]
fn stops_early_on_eos() {
    let (inputs, s) = run(vec![5, 6], 100, 2, &[8, 9, 2, 7]);
    assert_eq!(s.steps(), 3);
    assert_eq!(inputs.len(), 3);
    assert_eq!(s.answer(), "<8><9><2>");
}

#[test]
fn zero_cap_samples_nothing() {
    let s = DecodeSession::start(vec![1], 0, 2).unwrap();
    assert!(s.is_done());
}

#[test]
fn inputs_are_whole_prompt_then_last_token() {
    let (inputs, _) = run(vec![5, 6, 7], 3, 0, &[10, 11, 12]);
    assert_eq!(inputs[0], (vec![5, 6, 7], 0));
    assert_eq!(inputs[1], (vec![10], 3));
    assert_eq!(inputs[2], (vec![11], 4));
}

#[test]
fn penalty_window_covers_answer_only() {
    let mut s = DecodeSession::start(vec![1, 2, 3], 10, 0).unwrap();
    assert_eq!(s.penalty_window(64), None);
    s.accept(4);
    s.accept(5);
    s.accept(6);
    assert_eq!(s.penalty_window(64), Some(vec![4, 5, 6]));
    assert_eq!(s.penalty_window(2), Some(vec![5, 6]));
    assert_eq!(s.penalty_window(0), Some(vec![]));
    assert_eq!(s.answer_start(), 3);
}

#[test]
fn same_prompt_same_tokens_same_decisions() {
    let a = run(vec![3, 1, 4], 6, 9, &[2, 7, 1, 8]);
    let b = run(vec![3, 1, 4], 6, 9, &[2, 7, 1, 8]);
    assert_eq!(a.0, b.0);
    assert_eq!(a.1.tokens(), b.1.tokens());
    assert_eq!(a.1.answer(), b.1.answer());
}

#[test]
fn exchange_appends_user_then_assistant() {
    let mut c = Conversation::new();
    c.push(Role::User, "earlier");
    c.push(Role::Assistant, "reply");
    let (_, s) = run(vec![1, 2], 5, 7, &[3, 7]);
    assert_eq!(c.len(), 2);
    let answer = c.commit_exchange("hello", s);
    assert_eq!(answer, "<3><7>");
    assert_eq!(c.len(), 4);
    assert_eq!(c.turn(2).role, Role::User);
    assert_eq!(c.turn(2).content, "hello");
    assert_eq!(c.turn(3).role, Role::Assistant);
    assert_eq!(c.turn(3).content, "<3><7>");
    assert_eq!(c.turn(0).content, "earlier");
}
