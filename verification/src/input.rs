//! Checks on the sizes a user enters before any numbers are read.
use vstd::prelude::*;

verus! {

/// The largest matrix dimension, or sample size, the linear-system and
/// statistics programs accept.
pub const MAX_DIMENSION: usize = 100;

/// The largest number of points the approximation and interpolation
/// programs accept.
pub const MAX_POINTS: usize = 12;

/// Why a size that was entered is refused.
#[derive(Clone, Copy, Debug, PartialEq, Eq, Structural)]
pub enum InputError {
    /// The announced count is zero or above the program's limit.
    CountOutOfRange,
    /// A line holds more values than the announced count.
    TooManyValues,
}

/// A count is accepted when it lies in `1..=limit`.
pub open spec fn count_accepted(n: int, limit: int) -> bool {
    1 <= n <= limit
}

/// Checks an announced count (a dimension or a number of points) against
/// the program's limit.
pub fn check_count(n: usize, limit: usize) -> (r: Result<(), InputError>)
    ensures
        r == (if count_accepted(n as int, limit as int) {
            Ok::<(), InputError>(())
        } else {
            Err(InputError::CountOutOfRange)
        }),
{
    if n < 1 || n > limit {
        Err(InputError::CountOutOfRange)
    } else {
        Ok(())
    }
}

/// A line of `len` values is accepted when it holds at most `n` values.
pub open spec fn values_accepted(len: int, n: int) -> bool {
    len <= n
}

/// Checks that a line of `len` values does not exceed the announced count
/// `n`. A shorter line is accepted.
pub fn check_values(len: usize, n: usize) -> (r: Result<(), InputError>)
    ensures
        r == (if values_accepted(len as int, n as int) {
            Ok::<(), InputError>(())
        } else {
            Err(InputError::TooManyValues)
        }),
{
    if len > n {
        Err(InputError::TooManyValues)
    } else {
        Ok(())
    }
}

/// Where the numbers are read from.
#[derive(Clone, Copy, Debug, PartialEq, Eq, Structural)]
pub enum InputMode {
    /// Typed in, with prompts.
    Console,
    /// Read from a file whose path is typed in.
    File,
}

/// The mode named by the (trimmed) answer to the mode question:
/// exactly "console" or "file"; any other answer is not recognised.
pub open spec fn spec_input_mode(answer: Seq<char>) -> Option<InputMode> {
    if answer == "console"@ {
        Some(InputMode::Console)
    } else if answer == "file"@ {
        Some(InputMode::File)
    } else {
        None
    }
}

/// The mode named by the (trimmed) answer to the mode question.
pub fn input_mode(answer: &str) -> (mode: Option<InputMode>)
    ensures
        mode == spec_input_mode(answer@),
{
    let given = answer.to_owned();
    let console = "console".to_owned();
    let file = "file".to_owned();
    if given == console {
        Some(InputMode::Console)
    } else if given == file {
        Some(InputMode::File)
    } else {
        None
    }
}

/// Which counts are accepted: with a limit of at least 1, the count 1 and
/// the limit itself are accepted, and 0 and the limit plus one are
/// refused; accepting a count accepts every smaller positive count, and
/// refusing a positive count refuses every larger one; raising the limit
/// refuses no count that was accepted.
pub proof fn lemma_accepted_counts_are_one_to_limit(n: int, m: int, limit: int)
    ensures
        limit >= 1 ==> count_accepted(1, limit) && count_accepted(limit, limit),
        !count_accepted(0, limit),
        !count_accepted(limit + 1, limit),
        count_accepted(n, limit) && 1 <= m <= n ==> count_accepted(m, limit),
        !count_accepted(n, limit) && 1 <= n <= m ==> !count_accepted(m, limit),
        count_accepted(n, limit) && limit <= m ==> count_accepted(n, m),
{
}

/// Which lines are accepted: a line of exactly the announced count, and
/// an empty line, are accepted, one more value is refused; dropping values
/// from an accepted line keeps it accepted, adding values to a refused line
/// keeps it refused.
pub proof fn lemma_accepted_lines_hold_at_most_the_count(len: int, other: int, n: int)
    ensures
        n >= 0 ==> values_accepted(n, n) && values_accepted(0, n),
        !values_accepted(n + 1, n),
        values_accepted(len, n) && other <= len ==> values_accepted(other, n),
        !values_accepted(len, n) && len <= other ==> !values_accepted(other, n),
{
}

/// The two answers name two different modes, and every answer that names a
/// mode is one of the two.
pub proof fn lemma_mode_answers(answer: Seq<char>)
    ensures
        spec_input_mode("console"@) == Some(InputMode::Console),
        spec_input_mode("file"@) == Some(InputMode::File),
        spec_input_mode(answer) is Some ==> answer == "console"@ || answer == "file"@,
{
    reveal_strlit("console");
    reveal_strlit("file");
    assert("console"@.len() != "file"@.len());
}

} // verus!
