use vstd::prelude::*;
use vstd::string::StringExecFns;

verus! {

/// How a task of the host ended: it returned, with or without an error,
/// or it could not be joined. An error is carried as its message.
pub enum TaskEnd {
    Returned,
    Failed(String),
    JoinFailed(String),
}

/// A line for the log, and whether it reports an error.
#[derive(Debug)]
pub struct LogLine {
    pub is_error: bool,
    pub message: String,
}

/// The line that reports an error of `origin`.
fn error_format(origin: &str) -> (line: LogLine)
    ensures
        line.is_error,
        line.message@ == origin@ + " returned with app_error"@,
{
    let mut message = String::from_str(origin);
    message.append(" returned with app_error");
    LogLine { is_error: true, message }
}

/// The line to log when the task `origin` has ended.
pub fn select_return(origin: &str, ret: &TaskEnd) -> (line: LogLine)
    ensures
        line.is_error == !(ret is Returned),
        line.message@ == origin@ + if ret is Returned {
            " successfully returned"@
        } else {
            " returned with app_error"@
        },
{
    match ret {
        TaskEnd::Returned => {
            let mut message = String::from_str(origin);
            message.append(" successfully returned");
            LogLine { is_error: false, message }
        },
        TaskEnd::Failed(_) => error_format(origin),
        TaskEnd::JoinFailed(_) => error_format(origin),
    }
}

} // verus!
