//! What the simulator learns back from running an outside command.
use vstd::prelude::*;

verus! {

/// The outcome of running a command: either it could not be run at all,
/// with the error's text, or it ran to its end.
pub enum CommandOutcome {
    /// The command could not be started or waited for.
    Failed(String),
    /// The command ran; `status` is the text of its exit status.
    Exited { success: bool, status: String, stdout: String },
}

/// The text of a command's outcome that the specifications speak of.
pub enum OutcomeView {
    Failed(Seq<char>),
    Exited { success: bool, status: Seq<char>, stdout: Seq<char> },
}

impl View for CommandOutcome {
    type V = OutcomeView;

    open spec fn view(&self) -> OutcomeView {
        match self {
            CommandOutcome::Failed(e) => OutcomeView::Failed(e@),
            CommandOutcome::Exited { success, status, stdout } => OutcomeView::Exited {
                success: *success,
                status: status@,
                stdout: stdout@,
            },
        }
    }
}

/// `"Failed to execute command: "` followed by the error's text.
pub open spec fn execute_error_text(e: Seq<char>) -> Seq<char> {
    "Failed to execute command: "@ + e
}

/// The message of a command that could not be executed.
pub fn execute_error(e: &str) -> (r: String)
    ensures
        r@ == execute_error_text(e@),
{
    let mut r = String::from_str("Failed to execute command: ");
    r.append(e);
    r
}

/// The concatenation of `a` and `b` as a new string.
pub fn concat2(a: &str, b: &str) -> (r: String)
    ensures
        r@ == a@ + b@,
{
    let mut r = String::from_str(a);
    r.append(b);
    r
}

/// The concatenation of `a`, `b` and `c` as a new string.
pub fn concat3(a: &str, b: &str, c: &str) -> (r: String)
    ensures
        r@ == a@ + b@ + c@,
{
    let mut r = String::from_str(a);
    r.append(b);
    r.append(c);
    r
}

/// The concatenation of `a`, `b`, `c` and `d` as a new string.
pub fn concat4(a: &str, b: &str, c: &str, d: &str) -> (r: String)
    ensures
        r@ == a@ + b@ + c@ + d@,
{
    let mut r = String::from_str(a);
    r.append(b);
    r.append(c);
    r.append(d);
    r
}

} // verus!

verus! {

/// `Ok` when the command ran, whatever its status; the execution error otherwise.
pub fn require_ran(outcome: &CommandOutcome) -> (r: Result<(), String>)
    ensures
        outcome@ matches OutcomeView::Failed(e) ==> r matches Err(m) && m@ == execute_error_text(e),
        outcome@ is Exited ==> r is Ok,
{
    match outcome {
        CommandOutcome::Failed(e) => Err(execute_error(e.as_str())),
        CommandOutcome::Exited { .. } => Ok(()),
    }
}

/// `"Failed to write to "`, the path, `": "` and the error's text.
pub open spec fn write_error_text(path: Seq<char>, e: Seq<char>) -> Seq<char> {
    "Failed to write to "@ + path + ": "@ + e
}

/// What writing a request to a sysfs file gives.
pub fn write_result(path: &str, written: Result<(), String>) -> (r: Result<(), String>)
    ensures
        written is Ok ==> r is Ok,
        written matches Err(e) ==> r matches Err(m) && m@ == write_error_text(path@, e@),
{
    match written {
        Ok(()) => Ok(()),
        Err(e) => Err(concat4("Failed to write to ", path, ": ", e.as_str())),
    }
}

/// Shares `a`: the new handle points to the same value.
#[verifier::external_body]
pub(crate) fn share<T>(a: &std::sync::Arc<T>) -> (r: std::sync::Arc<T>)
    ensures
        r == *a,
{
    std::sync::Arc::clone(a)
}

} // verus!
