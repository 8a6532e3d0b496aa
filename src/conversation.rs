//! The conversation history that prompts are rendered from. An exchange enters it
//! whole, and only once its decode loop has finished.

use vstd::prelude::*;
use vstd::string::*;

use crate::session::DecodeSession;

verus! {

/// Who wrote a turn.
#[derive(Debug, Clone, Copy, PartialEq, Eq, Structural)]
pub enum Role {
    User,
    Assistant,
}

/// One message of the history.
#[derive(Debug)]
pub struct Turn {
    pub role: Role,
    pub content: String,
}

/// An ordered history of turns; turns are only ever appended.
#[derive(Debug)]
pub struct Conversation {
    turns: Vec<Turn>,
}

impl View for Conversation {
    type V = Seq<(Role, Seq<char>)>;

    closed spec fn view(&self) -> Seq<(Role, Seq<char>)> {
        Seq::new(self.turns@.len(), |i: int| (self.turns@[i].role, self.turns@[i].content@))
    }
}

impl Conversation {
    /// An empty history.
    pub fn new() -> (r: Conversation)
        ensures
            r@ == Seq::<(Role, Seq<char>)>::empty(),
    {
        let r = Conversation { turns: Vec::new() };
        assert(r@ =~= Seq::<(Role, Seq<char>)>::empty());
        r
    }

    /// The number of turns.
    pub fn len(&self) -> (r: usize)
        ensures
            r == self@.len(),
    {
        self.turns.len()
    }

    /// Turn `i`.
    pub fn turn(&self, i: usize) -> (r: &Turn)
        requires
            i < self@.len(),
        ensures
            (r.role, r.content@) == self@[i as int],
    {
        &self.turns[i]
    }

    /// Appends a turn.
    pub fn push(&mut self, role: Role, content: &str)
        ensures
            final(self)@ == old(self)@.push((role, content@)),
    {
        self.turns.push(Turn { role, content: content.to_owned() });
        assert(self@ =~= old(self)@.push((role, content@)));
    }

    /// Records a finished exchange: the user's prompt, then the answer, the fragments
    /// emitted in order, as the assistant's turn; hands the answer back. Until this
    /// is called nothing of the exchange is in the history, so a turn whose decode
    /// loop failed or was abandoned leaves it as it was.
    pub fn commit_exchange(&mut self, prompt: &str, session: DecodeSession) -> (r: String)
        requires
            session@.wf(),
            session@.done(),
        ensures
            final(self)@ == old(self)@ + seq![
                (Role::User, prompt@),
                (Role::Assistant, session@.fragments.flatten()),
            ],
            final(self)@.len() == old(self)@.len() + 2,
            r@ == session@.answer,
            r@ == session@.fragments.flatten(),
    {
        let answer = session.into_answer();
        self.push(Role::User, prompt);
        self.push(Role::Assistant, answer.as_str());
        assert(self@ =~= old(self)@ + seq![
            (Role::User, prompt@),
            (Role::Assistant, answer@),
        ]);
        answer
    }
}

} // verus!
