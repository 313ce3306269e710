//! Output-formatting helpers for compiler and runtime output: message
//! shrinking, code blocks, ANSI stripping, and compiler-header stripping.

use vstd::prelude::*;

use crate::strutil::first_match_from;
use crate::strutil::has_prefix;
use crate::strutil::starts_with;
use crate::strutil::trim_start;
use crate::strutil::trim_start_spec;

verus! {

use vstd::string::StrSliceExecFns;
use vstd::string::StringExecFns;

/// The most characters a reply message may carry.
pub const MAX_MESSAGE_CHARS: usize = 1980;

/// `s` cut to the fixed maximum message length.
pub open spec fn shrink_spec(s: Seq<char>) -> Seq<char> {
    if s.len() <= 1980 {
        s
    } else {
        s.subrange(0, 1980)
    }
}

/// Cuts the input to the fixed maximum message length. The cut counts
/// characters, never splitting one mid-way, so any admitted input shrinks
/// cleanly.
pub fn shrink_to_fit(input: &str) -> (r: String)
    ensures
        r@ == shrink_spec(input@),
{
    let n = input.unicode_len();
    if n <= MAX_MESSAGE_CHARS {
        input.to_owned()
    } else {
        input.substring_char(0, MAX_MESSAGE_CHARS).to_owned()
    }
}

/// The shrunken input, wrapped in a Rust code block.
pub open spec fn codeblock_spec(s: Seq<char>) -> Seq<char> {
    "```rs\n"@ + shrink_spec(s) + "\n```"@
}

/// Wraps the input in a Rust code block.
pub fn codeblock(input: &str) -> (r: String)
    ensures
        r@ == codeblock_spec(input@),
{
    let mut out = String::from_str("```rs\n");
    let body = shrink_to_fit(input);
    out.append(body.as_str());
    out.append("\n```");
    proof {
        assert(out@ =~= codeblock_spec(input@));
    }
    out
}

/// The shrunken input, wrapped in a code block tagged with a language.
pub open spec fn codeblock_with_lang_spec(lang: Seq<char>, s: Seq<char>) -> Seq<char> {
    "```"@ + lang + "\n"@ + shrink_spec(s) + "\n```"@
}

/// Wraps the input in a code block tagged with the given language.
pub fn codeblock_with_lang(lang: &str, input: &str) -> (r: String)
    ensures
        r@ == codeblock_with_lang_spec(lang@, input@),
{
    let mut out = String::from_str("```");
    out.append(lang);
    out.append("\n");
    let body = shrink_to_fit(input);
    out.append(body.as_str());
    out.append("\n```");
    proof {
        assert(out@ =~= codeblock_with_lang_spec(lang@, input@));
    }
    out
}

/// A character the body of an ANSI color escape may hold: a decimal digit
/// or a semicolon.
pub open spec fn is_sgr_body_char(c: char) -> bool {
    ||| c == '0'
    ||| c == '1'
    ||| c == '2'
    ||| c == '3'
    ||| c == '4'
    ||| c == '5'
    ||| c == '6'
    ||| c == '7'
    ||| c == '8'
    ||| c == '9'
    ||| c == ';'
}

/// The first position at or after `i` holding something other than an
/// escape-body character, or the length when none does.
pub open spec fn sgr_body_end(s: Seq<char>, i: int) -> int
    decreases s.len() - i,
{
    if i < 0 {
        i
    } else if i >= s.len() {
        s.len() as int
    } else if is_sgr_body_char(s[i]) {
        sgr_body_end(s, i + 1)
    } else {
        i
    }
}

/// The length of the ANSI color escape starting at `i`, when one does: an
/// escape character, `[`, a run of digits and semicolons, then `m`.
pub open spec fn ansi_run_len(s: Seq<char>, i: int) -> Option<int> {
    if 0 <= i && i + 2 <= s.len() && s[i] == '\u{1b}' && s[i + 1] == '[' {
        let j = sgr_body_end(s, i + 2);
        if j < s.len() && s[j] == 'm' {
            Some(j + 1 - i)
        } else {
            None
        }
    } else {
        None
    }
}

/// `s` with every leftmost-first, non-overlapping ANSI color escape
/// removed, the rest of the input unchanged.
pub open spec fn ansi_stripped(s: Seq<char>) -> Seq<char>
    decreases s.len(),
{
    if s.len() == 0 {
        Seq::empty()
    } else {
        let run = ansi_run_len(s, 0);
        if run is Some && 3 <= run->0 <= s.len() {
            ansi_stripped(s.subrange(run->0, s.len() as int))
        } else {
            seq![s[0]] + ansi_stripped(s.drop_first())
        }
    }
}

/// Relies on `regex::Regex::replace_all` with the fixed pattern
/// `\x1b\[[0-9;]*m`: every leftmost-first, non-overlapping match of the
/// pattern is removed and the rest of the input kept (the pattern is
/// valid, so compiling it cannot fail). A match is exactly an escape
/// character, `[`, a run of digits and semicolons, then `m`; the run's
/// characters cannot close the escape themselves, so the greedy run never
/// backtracks and `ansi_stripped` names the result precisely.
#[verifier::external_body]
pub fn strip_ansi(input: &str) -> (r: String)
    ensures
        r@ == ansi_stripped(input@),
{
    regex::Regex::new("\\x1b\\[[0-9;]*m").unwrap().replace_all(input, "").into_owned()
}

/// `s` with every consecutive leading occurrence of `p` removed.
pub open spec fn strip_prefix_rep(s: Seq<char>, p: Seq<char>) -> Seq<char>
    decreases s.len(),
{
    if p.len() > 0 && has_prefix(s, p) {
        strip_prefix_rep(s.subrange(p.len() as int, s.len() as int), p)
    } else {
        s
    }
}

/// The position of the second newline of `s`, when there are two.
pub open spec fn second_newline(s: Seq<char>) -> Option<int> {
    match first_match_from(s, seq!['\n'], 0) {
        None => None,
        Some(p1) => first_match_from(s, seq!['\n'], p1 + 1),
    }
}

/// What `strip_header_stderr` leaves: the fixed compiler heading and
/// leading whitespace are removed; when the remainder reports a finished
/// build, everything before its second newline goes too (or everything, if
/// no second newline exists). Errors and warnings pass through whole.
pub open spec fn strip_header_spec(s: Seq<char>) -> Seq<char> {
    let heading = "   Compiling playground v0.0.1 (/playground)"@;
    let t1 = strip_prefix_rep(s, heading);
    let t2 = trim_start_spec(t1);
    if has_prefix(t2, "Finished"@) {
        match second_newline(t2) {
            Some(p) => t2.subrange(p, t2.len() as int),
            None => Seq::empty(),
        }
    } else {
        t2
    }
}

/// Strips every leading repetition of the playground compiler heading
/// from captured output, and for a finished build also the two status
/// lines that follow it.
pub fn strip_header_stderr(input: &str) -> (r: String)
    ensures
        r@ == strip_header_spec(input@),
{
    let heading = "   Compiling playground v0.0.1 (/playground)";
    let hl = heading.unicode_len();
    let mut t1: String = input.to_owned();
    loop
        invariant
            hl == heading@.len(),
            strip_prefix_rep(t1@, heading@) == strip_prefix_rep(input@, heading@),
        ensures
            hl == heading@.len(),
            strip_prefix_rep(t1@, heading@) == strip_prefix_rep(input@, heading@),
            !(hl > 0 && has_prefix(t1@, heading@)),
        decreases t1@.len(),
    {
        if hl == 0 {
            break ;
        }
        if !starts_with(t1.as_str(), heading) {
            break ;
        }
        t1 = t1.as_str().substring_char(hl, t1.as_str().unicode_len()).to_owned();
    }
    proof {
        assert(t1@ == strip_prefix_rep(input@, heading@));
    }
    let t2 = trim_start(t1.as_str());
    if starts_with(t2.as_str(), "Finished") {
        let sv = crate::strutil::str_chars(t2.as_str());
        let nl = crate::strutil::str_chars("\n");
        proof {
            reveal_strlit("\n");
            assert(nl@ =~= seq!['\n']);
        }
        let m = t2.as_str().unicode_len();
        match crate::strutil::find_from(&sv, &nl, 0) {
            Some(p1) => {
                proof {
                    crate::strutil::lemma_first_match_from(t2@, seq!['\n'], 0);
                }
                match crate::strutil::find_from(&sv, &nl, p1 + 1) {
                    Some(p2) => {
                        proof {
                            crate::strutil::lemma_first_match_from(t2@, seq!['\n'], p1 + 1);
                        }
                        t2.as_str().substring_char(p2, m).to_owned()
                    },
                    None => String::new(),
                }
            },
            None => String::new(),
        }
    } else {
        t2
    }
}

/// A chat argument that is either a fenced code block or the raw rest of
/// the message; the popping itself belongs to the chat front end.
#[derive(Debug, PartialEq, Eq)]
pub struct CodeBlockOrRest {
    pub code: String,
    pub language: Option<String>,
}

/// The filesystem path of the worker binary, by build profile.
pub fn get_worker_path(debug: bool) -> (r: &'static str)
    ensures
        debug ==> r@ == "./target/debug/worker"@,
        !debug ==> r@ == "./target/release/worker"@,
{
    if debug {
        "./target/debug/worker"
    } else {
        "./target/release/worker"
    }
}

} // verus!
