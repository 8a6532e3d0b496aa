//! One turn's decode loop as a state machine: what to feed the model at each step,
//! which tokens the repetition penalty looks at, and when the loop stops.
//!
//! The caller runs the model and the sampler; the session decides.

use vstd::prelude::*;
use vstd::string::*;

verus! {

/// Why a turn cannot start.
#[derive(Debug, Clone, Copy, PartialEq, Eq, Structural)]
pub enum GenerationError {
    /// The rendered prompt tokenized to nothing.
    EmptyPrompt,
}

/// What a session holds, as mathematical values.
pub struct SessionView {
    /// The context: prompt tokens, then the tokens sampled so far.
    pub tokens: Seq<u32>,
    /// Where the answer begins in `tokens`.
    pub answer_start: nat,
    /// How many tokens were sampled.
    pub steps: nat,
    /// The most tokens a turn may sample.
    pub sample_len: nat,
    /// The end-of-sequence token id.
    pub eos: u32,
    /// The text fragments emitted so far, in order.
    pub fragments: Seq<Seq<char>>,
    /// The answer text accumulated so far.
    pub answer: Seq<char>,
}

impl SessionView {
    /// The tokens sampled so far.
    pub open spec fn sampled(self) -> Seq<u32> {
        self.tokens.subrange(self.answer_start as int, self.tokens.len() as int)
    }

    /// The loop has stopped: at the cap, or on sampling the end-of-sequence id.
    pub open spec fn done(self) -> bool {
        self.steps == self.sample_len || (self.steps > 0 && self.tokens.last() == self.eos)
    }

    /// The invariant of a running or finished session.
    pub open spec fn wf(self) -> bool {
        &&& self.answer_start > 0
        &&& self.tokens.len() == self.answer_start + self.steps
        &&& self.steps <= self.sample_len
        &&& forall|k: int| 0 <= k < self.steps as int - 1 ==> self.sampled()[k] != self.eos
        &&& self.answer == self.fragments.flatten()
    }

    /// The tokens fed to the model at the next step, and their position: the whole
    /// context at position 0 first, then only the last sampled token, at the position
    /// that follows the one fed before.
    pub open spec fn next_input(self) -> (Seq<u32>, nat) {
        if self.steps == 0 {
            (self.tokens, 0)
        } else {
            (seq![self.tokens.last()], (self.answer_start + self.steps - 1) as nat)
        }
    }

    /// The trailing window of at most `n` sampled tokens that the repetition penalty
    /// looks at; none at the first step.
    pub open spec fn penalty_window(self, n: nat) -> Option<Seq<u32>> {
        if self.steps == 0 {
            None
        } else if self.steps <= n {
            Some(self.sampled())
        } else {
            Some(self.sampled().subrange(self.steps - n, self.steps as int))
        }
    }

    /// The session after sampling `t`.
    pub open spec fn after_sample(self, t: u32) -> SessionView {
        SessionView { tokens: self.tokens.push(t), steps: self.steps + 1, ..self }
    }

    /// The session after emitting the fragment `f`.
    pub open spec fn after_fragment(self, f: Seq<char>) -> SessionView {
        SessionView { fragments: self.fragments.push(f), answer: self.answer + f, ..self }
    }
}

/// A fresh session for a prompt.
pub open spec fn started(prompt: Seq<u32>, sample_len: nat, eos: u32) -> SessionView {
    SessionView {
        tokens: prompt,
        answer_start: prompt.len(),
        steps: 0,
        sample_len,
        eos,
        fragments: Seq::empty(),
        answer: Seq::empty(),
    }
}

/// The session after sampling each of `ts` in turn.
pub open spec fn replay(v: SessionView, ts: Seq<u32>) -> SessionView
    decreases ts.len(),
{
    if ts.len() == 0 {
        v
    } else {
        replay(v, ts.drop_last()).after_sample(ts.last())
    }
}

/// What to feed the model at one step.
#[derive(Debug, Clone)]
pub struct StepInput {
    pub tokens: Vec<u32>,
    pub position: usize,
}

/// The state of one turn's decode loop.
pub struct DecodeSession {
    tokens: Vec<u32>,
    answer_start: usize,
    steps: usize,
    sample_len: usize,
    eos: u32,
    answer: String,
    fragments: Ghost<Seq<Seq<char>>>,
}

impl View for DecodeSession {
    type V = SessionView;

    closed spec fn view(&self) -> SessionView {
        SessionView {
            tokens: self.tokens@,
            answer_start: self.answer_start as nat,
            steps: self.steps as nat,
            sample_len: self.sample_len as nat,
            eos: self.eos,
            fragments: self.fragments@,
            answer: self.answer@,
        }
    }
}

impl DecodeSession {
    /// Starts a turn on the rendered prompt's tokens; an empty prompt is refused
    /// before the model is ever called.
    pub fn start(prompt_tokens: Vec<u32>, sample_len: usize, eos: u32) -> (r: Result<
        DecodeSession,
        GenerationError,
    >)
        ensures
            prompt_tokens@.len() == 0 ==> r matches Err(GenerationError::EmptyPrompt),
            prompt_tokens@.len() > 0 ==> (r matches Ok(s) && s@ == started(
                prompt_tokens@,
                sample_len as nat,
                eos,
            ) && s@.wf()),
    {
        if prompt_tokens.len() == 0 {
            return Err(GenerationError::EmptyPrompt);
        }
        let answer_start = prompt_tokens.len();
        let s = DecodeSession {
            tokens: prompt_tokens,
            answer_start,
            steps: 0,
            sample_len,
            eos,
            answer: String::new(),
            fragments: Ghost(Seq::empty()),
        };
        proof {
            Seq::<Seq<char>>::empty().lemma_flatten_one_element();
            assert(Seq::<Seq<char>>::empty().flatten() =~= Seq::<char>::empty());
        }
        assert(s@ == started(s.tokens@, sample_len as nat, eos));
        Ok(s)
    }

    /// Whether the loop has stopped.
    pub fn is_done(&self) -> (r: bool)
        requires
            self@.wf(),
        ensures
            r == self@.done(),
    {
        self.steps == self.sample_len || (self.steps > 0 && self.tokens[self.tokens.len() - 1]
            == self.eos)
    }

    /// What to feed the model at the next step.
    pub fn next_input(&self) -> (r: StepInput)
        requires
            self@.wf(),
        ensures
            (r.tokens@, r.position as nat) == self@.next_input(),
    {
        if self.steps == 0 {
            let mut tokens: Vec<u32> = Vec::new();
            let mut i: usize = 0;
            while i < self.tokens.len()
                invariant
                    i <= self.tokens@.len(),
                    tokens@ == self.tokens@.subrange(0, i as int),
                decreases self.tokens@.len() - i,
            {
                tokens.push(self.tokens[i]);
                i = i + 1;
                assert(tokens@ =~= self.tokens@.subrange(0, i as int));
            }
            assert(tokens@ =~= self.tokens@);
            StepInput { tokens, position: 0 }
        } else {
            let last = self.tokens[self.tokens.len() - 1];
            let tokens = vec![last];
            assert(tokens@ =~= seq![self@.tokens.last()]);
            StepInput { tokens, position: self.answer_start + self.steps - 1 }
        }
    }

    /// The sampled tokens that the repetition penalty looks at, at most
    /// `repeat_last_n` of them and never a prompt token; `None` at the first step.
    pub fn penalty_window(&self, repeat_last_n: usize) -> (r: Option<Vec<u32>>)
        requires
            self@.wf(),
        ensures
            match r {
                Some(w) => self@.penalty_window(repeat_last_n as nat) == Some(w@),
                None => self@.penalty_window(repeat_last_n as nat).is_none(),
            },
    {
        if self.steps == 0 {
            return None;
        }
        let n = self.tokens.len();
        let from = if self.steps <= repeat_last_n {
            self.answer_start
        } else {
            n - repeat_last_n
        };
        let mut w: Vec<u32> = Vec::new();
        let mut i: usize = from;
        while i < n
            invariant
                n == self.tokens@.len(),
                self.answer_start <= from <= i <= n,
                w@ == self.tokens@.subrange(from as int, i as int),
            decreases n - i,
        {
            w.push(self.tokens[i]);
            i = i + 1;
            assert(w@ =~= self.tokens@.subrange(from as int, i as int));
        }
        proof {
            let v = self@;
            if self.steps <= repeat_last_n {
                assert(w@ =~= v.sampled());
            } else {
                assert(w@ =~= v.sampled().subrange(v.steps - repeat_last_n, v.steps as int));
            }
        }
        Some(w)
    }

    /// Records the token sampled at this step.
    pub fn accept(&mut self, token: u32)
        requires
            old(self)@.wf(),
            !old(self)@.done(),
        ensures
            final(self)@ == old(self)@.after_sample(token),
            final(self)@.wf(),
    {
        self.tokens.push(token);
        self.steps = self.steps + 1;
        proof {
            let v0 = old(self)@;
            let v = self@;
            assert forall|k: int| 0 <= k < v.steps as int - 1 implies v.sampled()[k] != v.eos by {
                assert(v.sampled()[k] == v0.tokens[v0.answer_start + k]);
                if k < v0.steps as int - 1 {
                    assert(v0.sampled()[k] == v0.tokens[v0.answer_start + k]);
                } else {
                    assert(v0.tokens[v0.answer_start + k] == v0.tokens.last());
                }
            }
        }
    }

    /// Records a decoded text fragment emitted to the caller.
    pub fn push_fragment(&mut self, fragment: &str)
        requires
            old(self)@.wf(),
        ensures
            final(self)@ == old(self)@.after_fragment(fragment@),
            final(self)@.wf(),
    {
        self.answer.append(fragment);
        let ghost f = self.fragments@;
        self.fragments = Ghost(f.push(fragment@));
        proof {
            f.lemma_flatten_push(fragment@);
            assert(self@.answer == old(self)@.answer + fragment@);
            assert(self@.fragments == old(self)@.fragments.push(fragment@));
            assert(self@.sampled() == old(self)@.sampled());
        }
    }

    /// The context tokens: the prompt, then what was sampled.
    pub fn tokens(&self) -> (r: &Vec<u32>)
        ensures
            r@ == self@.tokens,
    {
        &self.tokens
    }

    /// Where the answer begins in the context.
    pub fn answer_start(&self) -> (r: usize)
        ensures
            r == self@.answer_start,
    {
        self.answer_start
    }

    /// How many tokens were sampled.
    pub fn steps(&self) -> (r: usize)
        ensures
            r == self@.steps,
    {
        self.steps
    }

    /// The answer text accumulated so far.
    pub fn answer(&self) -> (r: &String)
        ensures
            r@ == self@.answer,
    {
        &self.answer
    }

    /// Ends the session, handing back the answer text.
    pub fn into_answer(self) -> (r: String)
        ensures
            r@ == self@.answer,
    {
        self.answer
    }
}

/// Termination: a session never samples past its cap, never samples on after an
/// end-of-sequence id, and when it stops before the cap it is because the last
/// token sampled is the end-of-sequence id.
pub proof fn lemma_termination(v: SessionView)
    requires
        v.wf(),
    ensures
        v.steps <= v.sample_len,
        forall|k: int| 0 <= k < v.steps as int - 1 ==> v.sampled()[k] != v.eos,
        v.done() && v.steps < v.sample_len ==> v.sampled().last() == v.eos,
        v.steps > 0 && v.sampled().last() == v.eos ==> v.done(),
        !v.done() ==> v.steps < v.sample_len,
{
    if v.steps > 0 {
        assert(v.sampled().last() == v.tokens.last());
    }
}

/// Determinism of the decisions: sessions started on the same prompt with the same
/// settings, fed the same sampled tokens, hold the same context and feed the model
/// the same inputs with the same penalty window.
pub proof fn lemma_replay_deterministic(prompt: Seq<u32>, sample_len: nat, eos: u32, ts: Seq<u32>, n: nat)
    ensures
        replay(started(prompt, sample_len, eos), ts).tokens == prompt + ts,
        replay(started(prompt, sample_len, eos), ts).steps == ts.len(),
        replay(started(prompt, sample_len, eos), ts).next_input() == (if ts.len() == 0 {
            (prompt, 0nat)
        } else {
            (seq![ts.last()], (prompt.len() + ts.len() - 1) as nat)
        }),
        ts.len() > 0 ==> replay(started(prompt, sample_len, eos), ts).penalty_window(n) == Some(
            if ts.len() <= n {
                ts
            } else {
                ts.subrange(ts.len() - n, ts.len() as int)
            },
        ),
    decreases ts.len(),
{
    let v = replay(started(prompt, sample_len, eos), ts);
    if ts.len() > 0 {
        lemma_replay_deterministic(prompt, sample_len, eos, ts.drop_last(), n);
        assert(prompt + ts.drop_last() + seq![ts.last()] =~= prompt + ts);
        assert(v.tokens =~= prompt + ts);
        assert(v.sampled() =~= ts);
        assert(v.tokens.last() == ts.last());
    } else {
        assert(prompt + ts =~= prompt);
    }
}

} // verus!
