//! Response handling for the remote assembly-compilation service: line
//! diffing of two outputs, and the pure post-processing of a raw response.

use vstd::prelude::*;

use crate::strutil::first_match_from;
use crate::strutil::has_prefix;
use crate::strutil::starts_with;
use crate::strutil::trim_end;
use crate::strutil::trim_end_spec;
use crate::util::ansi_stripped;
use crate::util::strip_ansi;

verus! {

use vstd::std_specs::vec::vec_index;
use vstd::string::StrSliceExecFns;
use vstd::string::StringExecFns;

/// One assembly block of a compilation response.
#[derive(Debug, PartialEq, Eq)]
pub struct GodboltAsmBlock {
    pub text: String,
}

/// A compilation response: the assembly text.
#[derive(Debug, PartialEq, Eq)]
pub struct GodboltResponse(pub String);

/// A diffed line: 0 for a line only in the left input, 1 for a line in
/// both, 2 for a line only in the right input.
pub type DiffLine = (u8, String);

/// The shadows of a diffed line list.
pub open spec fn diff_views(v: Seq<DiffLine>) -> Seq<(u8, Seq<char>)> {
    v.map_values(|d: DiffLine| (d.0, d.1@))
}

/// The line diff of two texts, tagged 0 (left only), 1 (both, carrying the
/// left line), 2 (right only): the result depends on the two texts alone.
pub uninterp spec fn line_diff_of(left: Seq<char>, right: Seq<char>) -> Seq<(u8, Seq<char>)>;

/// Relies on `diff::lines`: a deterministic line-based diff of the two
/// texts, yielding each line as kept from the left input, shared, or kept
/// from the right input.
#[verifier::external_body]
fn diff_lines(left: &str, right: &str) -> (r: Vec<DiffLine>)
    ensures
        diff_views(r@) == line_diff_of(left@, right@),
{
    diff::lines(left, right)
        .into_iter()
        .map(
            |d| match d {
                diff::Result::Left(l) => (0, l.to_string()),
                diff::Result::Both(l, _) => (1, l.to_string()),
                diff::Result::Right(r2) => (2, r2.to_string()),
            },
        )
        .collect()
}

/// One rendered diff line: its marker, the text, a newline. Unknown tags
/// contribute nothing.
pub open spec fn render_diff_line(t: u8, s: Seq<char>) -> Seq<char> {
    if t == 0 {
        "- "@ + s + "\n"@
    } else if t == 1 {
        "  "@ + s + "\n"@
    } else if t == 2 {
        "+ "@ + s + "\n"@
    } else {
        Seq::empty()
    }
}

/// The rendered diff of `lines[i..]`.
pub open spec fn render_diff_from(lines: Seq<(u8, Seq<char>)>, i: int) -> Seq<char>
    decreases lines.len() - i,
{
    if 0 <= i < lines.len() {
        render_diff_line(lines[i].0, lines[i].1) + render_diff_from(lines, i + 1)
    } else {
        Seq::empty()
    }
}

/// Renders diffed lines with `-`/` `/`+` markers.
pub fn render_diff(lines: &Vec<DiffLine>) -> (r: String)
    ensures
        r@ == render_diff_from(diff_views(lines@), 0),
{
    let mut out = String::new();
    let n = lines.len();
    let mut j: usize = 0;
    while j < n
        invariant
            j <= n,
            n == lines@.len(),
            out@ + render_diff_from(diff_views(lines@), j as int) == render_diff_from(
                diff_views(lines@),
                0,
            ),
        decreases n - j,
    {
        let d = vec_index(lines, j);
        if d.0 == 0 {
            out.append("- ");
            out.append(d.1.as_str());
            out.append("\n");
        } else if d.0 == 1 {
            out.append("  ");
            out.append(d.1.as_str());
            out.append("\n");
        } else if d.0 == 2 {
            out.append("+ ");
            out.append(d.1.as_str());
            out.append("\n");
        }
        proof {
            assert(diff_views(lines@)[j as int] == (d.0, d.1@));
            assert(out@ + render_diff_from(diff_views(lines@), j + 1) =~= render_diff_from(
                diff_views(lines@),
                0,
            ));
        }
        j += 1;
    }
    out
}

impl GodboltResponse {
    /// The line diff between this response and another, both trimmed of
    /// trailing whitespace, rendered with `-`/` `/`+` markers.
    pub fn diff(self, other: Self) -> (r: String)
        ensures
            r@ == render_diff_from(
                line_diff_of(trim_end_spec(self.0@), trim_end_spec(other.0@)),
                0,
            ),
    {
        let a = trim_end(self.0.as_str());
        let b = trim_end(other.0.as_str());
        let lines = diff_lines(a.as_str(), b.as_str());
        render_diff(&lines)
    }
}

/// Extracts the assembly from a raw compilation response: escapes are
/// stripped; the response must open with the compilation heading, whose
/// line is dropped. `None` on any other shape.
pub fn parse_godbolt_output(input: &str) -> (r: Option<GodboltResponse>)
    ensures
        r matches Some(g) ==> {
            let s = ansi_stripped(input@);
            &&& has_prefix(s, "# Compilation"@)
            &&& first_match_from(s, seq!['\n'], 0) matches Some(p) && g.0@ == s.subrange(
                p + 1,
                s.len() as int,
            )
        },
        r is None <==> !has_prefix(ansi_stripped(input@), "# Compilation"@) || first_match_from(
            ansi_stripped(input@),
            seq!['\n'],
            0,
        ) is None,
{
    let s = strip_ansi(input);
    if !starts_with(s.as_str(), "# Compilation") {
        return None;
    }
    let sv = crate::strutil::str_chars(s.as_str());
    let nl = crate::strutil::str_chars("\n");
    proof {
        reveal_strlit("\n");
        assert(nl@ =~= seq!['\n']);
    }
    let n = s.as_str().unicode_len();
    match crate::strutil::find_from(&sv, &nl, 0) {
        Some(p) => {
            proof {
                crate::strutil::lemma_first_match_from(s@, seq!['\n'], 0);
            }
            Some(GodboltResponse(s.as_str().substring_char(p + 1, n).to_owned()))
        },
        None => None,
    }
}

/// The Rust compilation target.
#[derive(Debug, PartialEq, Eq)]
pub struct Rust;

impl Rust {
    /// The compilation endpoint for Rust sources.
    pub fn url() -> (r: &'static str)
        ensures
            r@ == "https://godbolt.org/api/compiler/nightly/compile"@,
    {
        "https://godbolt.org/api/compiler/nightly/compile"
    }

    /// The compiler arguments used when the caller passes none.
    pub fn default_flags() -> (r: &'static str)
        ensures
            r@ == "-Copt-level=3 -Clto=on -Ctarget-feature=+sse3,+avx -Ctarget-cpu=native"@,
    {
        "-Copt-level=3 -Clto=on -Ctarget-feature=+sse3,+avx -Ctarget-cpu=native"
    }
}

/// The C compilation target.
#[derive(Debug, PartialEq, Eq)]
pub struct C;

impl C {
    /// The compilation endpoint for C sources.
    pub fn url() -> (r: &'static str)
        ensures
            r@ == "https://godbolt.org/api/compiler/cclang1600/compile"@,
    {
        "https://godbolt.org/api/compiler/cclang1600/compile"
    }

    /// The compiler arguments used when the caller passes none.
    pub fn default_flags() -> (r: &'static str)
        ensures
            r@ == "-O3 -march=native"@,
    {
        "-O3 -march=native"
    }
}

} // verus!
