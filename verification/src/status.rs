//! The status reporter: the short texts that tell how a test run goes, and
//! the code by which the run ends.
//!
//! Nothing here sends anything. Each function gives the exact text of one
//! report, for the caller to put on the status channel at once.

use vstd::prelude::*;
use vstd::string::StringExecFns;

verus! {

/// The I/O port of the control register that ends the run.
pub const EXIT_PORT: u16 = 0xf4;

/// How a run ends.
#[derive(Debug, Clone, Copy, PartialEq, Eq, Structural)]
pub enum QemuExitCode {
    Success,
    Failed,
}

impl QemuExitCode {
    /// The number written to the control register.
    pub open spec fn spec_value(self) -> u32 {
        match self {
            QemuExitCode::Success => 0x10,
            QemuExitCode::Failed => 0x11,
        }
    }

    /// The number written to the control register.
    #[verifier::when_used_as_spec(spec_value)]
    pub fn value(self) -> (value: u32)
        ensures
            value == self.spec_value(),
    {
        match self {
            QemuExitCode::Success => 0x10,
            QemuExitCode::Failed => 0x11,
        }
    }
}

/// The code that ends a run: one for success, one for failure.
pub open spec fn spec_terminate(success: bool) -> QemuExitCode {
    if success {
        QemuExitCode::Success
    } else {
        QemuExitCode::Failed
    }
}

/// The code that ends a run: one for success, one for failure.
#[verifier::when_used_as_spec(spec_terminate)]
pub fn terminate(success: bool) -> (code: QemuExitCode)
    ensures
        code == spec_terminate(success),
{
    if success {
        QemuExitCode::Success
    } else {
        QemuExitCode::Failed
    }
}

/// The character of a decimal digit.
pub open spec fn digit_char(d: nat) -> char {
    "0123456789"@[d as int]
}

/// `n` in decimal, without leading zeros.
pub open spec fn decimal_text(n: nat) -> Seq<char>
    decreases n,
{
    if n < 10 {
        seq![digit_char(n)]
    } else {
        decimal_text(n / 10).push(digit_char(n % 10))
    }
}

/// The text of one decimal digit.
fn digit(d: usize) -> (text: &'static str)
    requires
        d < 10,
    ensures
        text@ == seq![digit_char(d as nat)],
{
    proof {
        reveal_strlit("0123456789");
        reveal_strlit("0");
        reveal_strlit("1");
        reveal_strlit("2");
        reveal_strlit("3");
        reveal_strlit("4");
        reveal_strlit("5");
        reveal_strlit("6");
        reveal_strlit("7");
        reveal_strlit("8");
        reveal_strlit("9");
    }
    let text = match d {
        0 => "0",
        1 => "1",
        2 => "2",
        3 => "3",
        4 => "4",
        5 => "5",
        6 => "6",
        7 => "7",
        8 => "8",
        _ => "9",
    };
    assert(text@ =~= seq![digit_char(d as nat)]);
    text
}

/// `n` in decimal, without leading zeros.
pub fn decimal(n: usize) -> (text: String)
    ensures
        text@ == decimal_text(n as nat),
    decreases n,
{
    if n < 10 {
        String::from_str(digit(n))
    } else {
        let mut text = decimal(n / 10);
        text.append(digit(n % 10));
        text
    }
}

/// The line that opens a run of `count` units.
pub open spec fn run_start_text(count: nat) -> Seq<char> {
    "Running "@ + decimal_text(count) + " tests\n"@
}

/// The name of a unit and the mark that it is running, with no line end.
pub open spec fn unit_start_text(name: Seq<char>) -> Seq<char> {
    name + "...\t"@
}

/// The mark that the unit returned, and the end of its line.
pub open spec fn unit_ok_text() -> Seq<char> {
    "[ok]\n"@
}

/// The mark that the unit failed, on the unit's line, and then the detail
/// of the failure; each is followed by an empty line.
pub open spec fn unit_failed_text(detail: Seq<char>) -> Seq<char> {
    "[failed]\n\n"@ + "Error: "@ + detail + "\n\n"@
}

/// Reports how many units the run holds.
pub fn report_run_start(count: usize) -> (text: String)
    ensures
        text@ == run_start_text(count as nat),
{
    let mut text = String::from_str("Running ");
    let digits = decimal(count);
    text.append(digits.as_str());
    text.append(" tests\n");
    text
}

/// Reports that the unit called `name` starts.
pub fn report_unit_start(name: &str) -> (text: String)
    ensures
        text@ == unit_start_text(name@),
{
    let mut text = String::from_str(name);
    text.append("...\t");
    text
}

/// Reports that the unit that was started has returned.
pub fn report_unit_ok() -> (text: String)
    ensures
        text@ == unit_ok_text(),
{
    String::from_str("[ok]\n")
}

/// Reports that the unit that was started has failed, and why.
pub fn report_unit_failed(detail: &str) -> (text: String)
    ensures
        text@ == unit_failed_text(detail@),
{
    let mut text = String::from_str("[failed]\n\n");
    text.append("Error: ");
    text.append(detail);
    text.append("\n\n");
    text
}

} // verus!
