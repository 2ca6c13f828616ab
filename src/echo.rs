use vstd::prelude::*;

use crate::step::LoopStep;

verus! {

/// What the line-reversing service answers to one line of input.
pub enum Reply {
    /// The line was not text: answer nothing and keep serving.
    Silent,
    /// The line was the stop word: say so and stop serving.
    Stop,
    /// Any other text: send it back reversed and keep serving.
    Echo(Vec<char>),
}

/// The word that stops the service.
pub open spec fn stop_word() -> Seq<char> {
    seq!['S', 'T', 'O', 'P']
}

/// `s` read from its last character to its first.
pub open spec fn reversed(s: Seq<char>) -> Seq<char> {
    Seq::new(s.len(), |i: int| s[s.len() - 1 - i])
}

/// Whether the service keeps serving after answering with `r`.
pub open spec fn reply_step(r: Reply) -> LoopStep {
    match r {
        Reply::Stop => LoopStep::Break,
        _ => LoopStep::Next,
    }
}

/// The answer to one line, given as its characters, or `None` when the line
/// was not valid text.
pub fn respond(line: Option<Vec<char>>) -> (r: Reply)
    ensures
        line is None ==> r is Silent,
        line is Some ==> (line->0@ == stop_word() <==> r is Stop),
        line is Some && line->0@ != stop_word() ==> (r is Echo && r->Echo_0@ == reversed(line->0@)),
{
    match line {
        None => Reply::Silent,
        Some(s) => {
            if s.len() == 4 && s[0] == 'S' && s[1] == 'T' && s[2] == 'O' && s[3] == 'P' {
                assert(s@ =~= stop_word());
                Reply::Stop
            } else {
                assert(s@ != stop_word()) by {
                    if s@ == stop_word() {
                        assert(s@[0] == 'S' && s@[1] == 'T' && s@[2] == 'O' && s@[3] == 'P');
                    }
                }
                let mut v: Vec<char> = Vec::new();
                let mut i: usize = s.len();
                while i > 0
                    invariant
                        i <= s.len(),
                        v@.len() == s.len() - i,
                        forall|k: int| 0 <= k < v@.len() ==> v@[k] == s@[s.len() - 1 - k],
                    decreases i,
                {
                    i = i - 1;
                    v.push(s[i]);
                }
                assert(v@ =~= reversed(s@));
                Reply::Echo(v)
            }
        },
    }
}

impl Reply {
    /// Whether the service keeps serving after this answer.
    pub fn loop_step(&self) -> (r: LoopStep)
        ensures
            r == reply_step(*self),
    {
        match self {
            Reply::Stop => LoopStep::Break,
            _ => LoopStep::Next,
        }
    }
}

} // verus!
