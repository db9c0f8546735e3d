//! Which of the standard streams is the controlling terminal.
use vstd::prelude::*;

verus! {

pub const STDIN_FILENO: i32 = 0;
pub const STDOUT_FILENO: i32 = 1;
pub const STDERR_FILENO: i32 = 2;

/// The first of stdin, stdout and stderr that is a terminal, given which of
/// them are; none when no stream is.
pub fn select_term_fd(stdin_is_tty: bool, stdout_is_tty: bool, stderr_is_tty: bool) -> (r: Option<i32>)
    ensures
        stdin_is_tty ==> r == Some(STDIN_FILENO),
        !stdin_is_tty && stdout_is_tty ==> r == Some(STDOUT_FILENO),
        !stdin_is_tty && !stdout_is_tty && stderr_is_tty ==> r == Some(STDERR_FILENO),
        !stdin_is_tty && !stdout_is_tty && !stderr_is_tty ==> r.is_none(),
{
    if stdin_is_tty {
        Some(STDIN_FILENO)
    } else if stdout_is_tty {
        Some(STDOUT_FILENO)
    } else if stderr_is_tty {
        Some(STDERR_FILENO)
    } else {
        None
    }
}

} // verus!
