//! Request and response shapes for the remote code-execution service, and
//! the pure preparation of submitted code.

use vstd::prelude::*;

use crate::strutil::contains_str;
use crate::strutil::contains_sub;

verus! {

use vstd::string::StrSliceExecFns;
use vstd::string::StringExecFns;

/// One code-execution request body.
#[derive(Debug, PartialEq, Eq)]
pub struct PlaygroundBody {
    pub channel: String,
    pub mode: String,
    pub edition: String,
    pub crate_type: String,
    pub tests: bool,
    pub code: String,
    pub backtrace: bool,
}

/// One code-execution response: the captured output streams.
#[derive(Debug, PartialEq, Eq)]
pub struct PlaygroundResponse {
    pub stdout: String,
    pub stderr: String,
}

impl PlaygroundResponse {
    /// The combined output, diagnostics first.
    pub fn output(self) -> (r: String)
        ensures
            r@ == self.stderr@ + self.stdout@,
    {
        let mut out = self.stderr;
        out.append(self.stdout.as_str());
        out
    }
}

impl PlaygroundBody {
    /// The request submitting code for an ordinary debug run, with the
    /// expression already wrapped for printing.
    pub fn run_request(code: String) -> (r: PlaygroundBody)
        ensures
            r.channel@ == "nightly"@,
            r.mode@ == "debug"@,
            r.edition@ == "2021"@,
            r.crate_type@ == "bin"@,
            !r.tests,
            r.code@ == wrap_in_println_spec(code@),
            !r.backtrace,
    {
        PlaygroundBody {
            channel: String::from_str("nightly"),
            mode: String::from_str("debug"),
            edition: String::from_str("2021"),
            crate_type: String::from_str("bin"),
            tests: false,
            code: wrap_in_println(code),
            backtrace: false,
        }
    }

    /// The request submitting an assembled benchmark for a release run.
    pub fn bench_request(code: String) -> (r: PlaygroundBody)
        ensures
            r.channel@ == "nightly"@,
            r.mode@ == "release"@,
            r.edition@ == "2021"@,
            r.crate_type@ == "bin"@,
            !r.tests,
            r.code@ == code@,
            !r.backtrace,
    {
        PlaygroundBody {
            channel: String::from_str("nightly"),
            mode: String::from_str("release"),
            edition: String::from_str("2021"),
            crate_type: String::from_str("bin"),
            tests: false,
            code,
            backtrace: false,
        }
    }
}

/// What wrapping leaves of submitted code: code that already declares a
/// `main` function passes through; an expression is wrapped in a `main`
/// that debug-prints it.
pub open spec fn wrap_in_println_spec(s: Seq<char>) -> Seq<char> {
    if contains_sub(s, "fn main"@) {
        s
    } else {
        "\nfn main() {\n    println!(\"{:?}\", {\n        "@ + s + "\n    });\n}\n    "@
    }
}

/// Wraps an expression in a `main` function with a debug print, unless the
/// code already declares `main` itself.
pub fn wrap_in_println(input: String) -> (r: String)
    ensures
        r@ == wrap_in_println_spec(input@),
{
    if contains_str(input.as_str(), "fn main") {
        input
    } else {
        let mut out = String::from_str("\nfn main() {\n    println!(\"{:?}\", {\n        ");
        out.append(input.as_str());
        out.append("\n    });\n}\n    ");
        proof {
            assert(out@ =~= wrap_in_println_spec(input@));
        }
        out
    }
}

/// The marker the first benchmark body replaces in the template.
pub open spec fn bench_marker_one() -> Seq<char> {
    "/*{{TEST1}}*/"@
}

/// The marker the second benchmark body replaces in the template.
pub open spec fn bench_marker_two() -> Seq<char> {
    "/*{{TEST2}}*/"@
}

/// Assembles a benchmark source: the two test bodies substituted for the
/// template's two markers.
pub fn fill_benchmark_template(template: &str, test1: &str, test2: &str) -> (r: String)
    ensures
        r@ == crate::strutil::replace_spec(
            crate::strutil::replace_spec(template@, bench_marker_one(), test1@),
            bench_marker_two(),
            test2@,
        ),
{
    let first = crate::strutil::replace_str(template, "/*{{TEST1}}*/", test1);
    crate::strutil::replace_str(first.as_str(), "/*{{TEST2}}*/", test2)
}

} // verus!
