use vstd::prelude::*;

verus! {

/// A fatal failure of one prompt run.
///
/// Validation failures are not errors: they are reported in place and the
/// interactive loop continues.  Cancellation is not an error either; it is a
/// distinct non-answer outcome.  What is left is fatal for the run: the input
/// stream ended, or the prompt was configured in a way that can never produce
/// an answer.
#[derive(Clone, Copy, PartialEq, Eq, Structural, Debug)]
pub enum PromptError {
    /// The input reader was exhausted before the prompt terminated.
    EndOfInput,
    /// The prompt configuration can never yield an answer
    /// (an empty option list, a zero page size, or min above max).
    InvalidConfiguration,
}

} // verus!
