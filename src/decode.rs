//! The decode loop, as a state machine the caller drives.
//!
//! A request starts by obtaining its token ids, supplied or encoded from the prompt. Then,
//! while `needs_step` holds, the caller binds the inputs, runs the execution engine,
//! samples a token and hands it to `accept`. The loop ends when the budget of new tokens is
//! used up, or right after the configured stop token is appended. Any failure on the way
//! ends the request and discards what was generated.

use vstd::prelude::*;
use crate::codec::{decode_tokens, encode_prompt};
use crate::error::GenerationError;

verus! {

/// Why the loop ended.
#[derive(Clone, Copy, Debug, PartialEq, Eq, Structural)]
pub enum StopReason {
    BudgetExhausted,
    StopToken,
}

/// The model of a decode loop.
pub ghost struct DecodeState {
    pub tokens: Seq<i64>,
    pub budget: nat,
    pub stop_token: Option<i64>,
    pub generated: nat,
    pub stopped: Option<StopReason>,
}

/// The state before any step: with a zero budget the loop is already over.
pub open spec fn start_state(tokens: Seq<i64>, budget: nat, stop_token: Option<i64>) -> DecodeState {
    DecodeState {
        tokens,
        budget,
        stop_token,
        generated: 0,
        stopped: if budget == 0 { Some(StopReason::BudgetExhausted) } else { None },
    }
}

/// The state after `token` was sampled and appended.
pub open spec fn after_token(s: DecodeState, token: i64) -> DecodeState {
    DecodeState {
        tokens: s.tokens.push(token),
        generated: s.generated + 1,
        stopped: if s.stop_token == Some(token) {
            Some(StopReason::StopToken)
        } else if s.generated + 1 >= s.budget {
            Some(StopReason::BudgetExhausted)
        } else {
            None
        },
        ..s
    }
}

/// A running loop has budget left; no loop exceeds its budget.
pub open spec fn well_formed(s: DecodeState) -> bool {
    &&& s.generated <= s.budget
    &&& s.stopped is None ==> s.generated < s.budget
}

pub struct DecodeLoop {
    tokens: Vec<i64>,
    budget: usize,
    stop_token: Option<i64>,
    generated: usize,
    stopped: Option<StopReason>,
}

impl View for DecodeLoop {
    type V = DecodeState;

    closed spec fn view(&self) -> DecodeState {
        DecodeState {
            tokens: self.tokens@,
            budget: self.budget as nat,
            stop_token: self.stop_token,
            generated: self.generated as nat,
            stopped: self.stopped,
        }
    }
}

/// The final token sequence and why the loop ended.
pub struct GenerationResult {
    pub tokens: Vec<i64>,
    pub reason: StopReason,
}

impl DecodeLoop {
    /// Starts a loop over `tokens` that may append up to `max_new_tokens` tokens.
    pub fn new(tokens: Vec<i64>, max_new_tokens: usize, stop_token: Option<i64>) -> (r: DecodeLoop)
        ensures
            r@ == start_state(tokens@, max_new_tokens as nat, stop_token),
            well_formed(r@),
    {
        let stopped = if max_new_tokens == 0 { Some(StopReason::BudgetExhausted) } else { None };
        DecodeLoop { tokens, budget: max_new_tokens, stop_token, generated: 0, stopped }
    }

    /// Whether another execution step is due.
    pub fn needs_step(&self) -> (r: bool)
        ensures
            r == (self@.stopped is None),
    {
        self.stopped.is_none()
    }

    /// The token sequence so far.
    pub fn tokens(&self) -> (r: &Vec<i64>)
        ensures
            r@ == self@.tokens,
    {
        &self.tokens
    }

    /// How many tokens were appended so far.
    pub fn generated(&self) -> (r: usize)
        ensures
            r == self@.generated,
    {
        self.generated
    }

    /// Why the loop ended, once it has.
    pub fn stop_reason(&self) -> (r: Option<StopReason>)
        ensures
            r == self@.stopped,
    {
        self.stopped
    }

    /// Appends the sampled token and decides whether the loop goes on: it ends right after
    /// the stop token (which stays in the sequence) or when the budget is used up.
    pub fn accept(&mut self, token: i64)
        requires
            old(self)@.stopped is None,
            well_formed(old(self)@),
        ensures
            final(self)@ == after_token(old(self)@, token),
            well_formed(final(self)@),
    {
        self.tokens.push(token);
        self.generated = self.generated + 1;
        let hit_stop = match self.stop_token {
            Some(s) => s == token,
            None => false,
        };
        if hit_stop {
            self.stopped = Some(StopReason::StopToken);
        } else if self.generated >= self.budget {
            self.stopped = Some(StopReason::BudgetExhausted);
        }
    }

    /// The accumulated sequence and why the loop ended.
    pub fn into_result(self) -> (r: GenerationResult)
        requires
            self@.stopped is Some,
        ensures
            r.tokens@ == self@.tokens,
            Some(r.reason) == self@.stopped,
    {
        let reason = match self.stopped {
            Some(reason) => reason,
            None => StopReason::BudgetExhausted,
        };
        GenerationResult { tokens: self.tokens, reason }
    }
}

/// The ids a request starts from: the supplied ones, or the prompt encoded by the codec.
/// Without either there is no way to obtain them.
pub fn initial_ids(
    supplied: Option<Vec<i64>>,
    codec: Option<&tokenizers::Tokenizer>,
    prompt: &str,
) -> (r: Result<Vec<i64>, GenerationError>)
    ensures
        supplied matches Some(ids) ==> (r matches Ok(v) && v@ == ids@),
        supplied is None && codec is None ==> (r matches Err(e) && e is MissingCapability),
        supplied is None && codec is Some ==> (r matches Err(e) ==> e is CodecFailure),
{
    match supplied {
        Some(ids) => Ok(ids),
        None => match codec {
            Some(tok) => encode_prompt(tok, prompt),
            None => Err(GenerationError::MissingCapability),
        },
    }
}

/// What a finished request returns.
pub enum Rendered {
    /// The generated (or, with a zero budget, the initial) text.
    Text(String),
    /// No codec can render ids: the caller reports the last step's output instead.
    Diagnostic,
}

/// Renders the final sequence: decoded by the codec when there is one; without a codec,
/// the prompt verbatim when no step ran, else a diagnostic of the last step.
pub fn render(
    codec: Option<&tokenizers::Tokenizer>,
    tokens: &Vec<i64>,
    prompt: &str,
    stepped: bool,
) -> (r: Result<Rendered, GenerationError>)
    ensures
        codec is None && !stepped ==> (r matches Ok(Rendered::Text(t)) && t@ == prompt@),
        codec is None && stepped ==> r matches Ok(Rendered::Diagnostic),
        codec is Some ==> match r {
            Ok(Rendered::Text(_)) => true,
            Err(e) => e is CodecFailure,
            _ => false,
        },
{
    match codec {
        Some(tok) => match decode_tokens(tok, tokens) {
            Ok(text) => Ok(Rendered::Text(text)),
            Err(e) => Err(e),
        },
        None => if stepped {
            Ok(Rendered::Diagnostic)
        } else {
            Ok(Rendered::Text(prompt.to_owned()))
        },
    }
}

/// With a zero budget no execution step ever runs and the sequence stays as supplied.
pub proof fn lemma_zero_budget_never_steps(tokens: Seq<i64>, stop_token: Option<i64>)
    ensures
        start_state(tokens, 0, stop_token).stopped == Some(StopReason::BudgetExhausted),
        start_state(tokens, 0, stop_token).tokens == tokens,
        start_state(tokens, 0, stop_token).generated == 0,
{
}

/// When the first sampled token is the stop token, the loop ends after that one step
/// with exactly that token appended.
pub proof fn lemma_stop_on_first_token(tokens: Seq<i64>, budget: nat, stop: i64)
    requires
        budget >= 1,
    ensures
        start_state(tokens, budget, Some(stop)).stopped is None,
        after_token(start_state(tokens, budget, Some(stop)), stop).stopped == Some(StopReason::StopToken),
        after_token(start_state(tokens, budget, Some(stop)), stop).tokens == tokens.push(stop),
        after_token(start_state(tokens, budget, Some(stop)), stop).generated == 1,
{
}

/// The loop never appends more tokens than its budget, and stops once it has.
pub proof fn lemma_budget_respected(s: DecodeState, token: i64)
    requires
        well_formed(s),
        s.stopped is None,
    ensures
        well_formed(after_token(s, token)),
        after_token(s, token).generated <= s.budget,
        after_token(s, token).generated == s.budget ==> after_token(s, token).stopped is Some,
{
}

} // verus!
