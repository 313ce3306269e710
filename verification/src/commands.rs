//! Decision logic of the runtime-evaluation command: parses its option
//! flags and builds the message handed to the worker pool.

use vstd::prelude::*;

use crate::shared::HostMessage;
use crate::shared::Opt;

verus! {

use vstd::string::StrSliceExecFns;
use vstd::string::StringExecFns;

/// Whether the worker evaluates the code or dumps its intermediate
/// representation.
#[derive(Debug, Clone, Copy, PartialEq, Eq, Structural)]
pub enum Mode {
    Ir,
    Eval,
}

/// An error of the command layer.
#[derive(Debug, PartialEq, Eq)]
pub enum CommandError {
    /// A dash-prefixed token that names no known flag.
    UnknownFlag { flag: String },
    /// A code-block language tag that names no compilation target.
    UnknownLanguage { language: String },
}

/// A compilation target the assembly command can dispatch to.
#[derive(Debug, Clone, Copy, PartialEq, Eq, Structural)]
pub enum TargetLang {
    Rust,
    C,
}

/// The target a code block's language tag selects: Rust for `rs`, `rust`
/// or an untagged block, C for `c`, nothing else.
pub open spec fn compile_target_spec(language: Option<Seq<char>>) -> Option<TargetLang> {
    match language {
        None => Some(TargetLang::Rust),
        Some(l) => if l == "rs"@ || l == "rust"@ {
            Some(TargetLang::Rust)
        } else if l == "c"@ {
            Some(TargetLang::C)
        } else {
            None
        },
    }
}

/// Dispatches a code block's language tag to a compilation target.
pub fn compile_target(language: Option<&str>) -> (r: Result<TargetLang, CommandError>)
    ensures
        r matches Ok(t) ==> compile_target_spec(
            match language {
                Some(l) => Some(l@),
                None => None,
            },
        ) == Some(t),
        r is Err <==> compile_target_spec(
            match language {
                Some(l) => Some(l@),
                None => None,
            },
        ) is None,
{
    match language {
        None => Ok(TargetLang::Rust),
        Some(l) => {
            if crate::fuzzy::str_eq(l, "rs") || crate::fuzzy::str_eq(l, "rust") {
                Ok(TargetLang::Rust)
            } else if crate::fuzzy::str_eq(l, "c") {
                Ok(TargetLang::C)
            } else {
                Err(CommandError::UnknownLanguage { language: l.to_owned() })
            }
        },
    }
}

/// ASCII whitespace, as flag lists are split on it.
pub open spec fn is_ascii_ws(c: char) -> bool {
    c == ' ' || c == '\t' || c == '\n' || c == '\r' || c == '\u{c}'
}

/// The first position at or after `i` holding ASCII whitespace, or the
/// length when none does.
pub open spec fn first_ws(s: Seq<char>, i: int) -> int
    decreases s.len() - i,
{
    if i < 0 {
        i
    } else if i >= s.len() {
        s.len() as int
    } else if is_ascii_ws(s[i]) {
        i
    } else {
        first_ws(s, i + 1)
    }
}

pub proof fn lemma_first_ws(s: Seq<char>, i: int)
    requires
        0 <= i <= s.len(),
    ensures
        i <= first_ws(s, i) <= s.len(),
        first_ws(s, i) < s.len() ==> is_ascii_ws(s[first_ws(s, i)]),
        forall|j: int| i <= j < first_ws(s, i) ==> !is_ascii_ws(s[j]),
    decreases s.len() - i,
{
    if i < s.len() && !is_ascii_ws(s[i]) {
        lemma_first_ws(s, i + 1);
    }
}

/// The option state after folding the whitespace-separated flags of `s`
/// over the starting state, left to right: `-O0`, `-O1` and `-O2` select
/// the optimization level, `-ir` selects the dump mode, any other
/// dash-prefixed token is an error, and tokens without a dash are ignored.
pub open spec fn js_flags_spec(s: Seq<char>, opt: Opt, mode: Mode) -> Option<(Opt, Mode)>
    decreases s.len(),
{
    if s.len() == 0 {
        Some((opt, mode))
    } else if is_ascii_ws(s[0]) {
        js_flags_spec(s.drop_first(), opt, mode)
    } else {
        let k0 = first_ws(s, 0);
        let k = if 1 <= k0 <= s.len() {
            k0
        } else {
            s.len() as int
        };
        let token = s.subrange(0, k);
        let rest = s.subrange(k, s.len() as int);
        if token[0] == '-' {
            let f = token.subrange(1, k);
            if f == "O0"@ {
                js_flags_spec(rest, Opt::Off, mode)
            } else if f == "O1"@ {
                js_flags_spec(rest, Opt::Basic, mode)
            } else if f == "O2"@ {
                js_flags_spec(rest, Opt::Aggressive, mode)
            } else if f == "ir"@ {
                js_flags_spec(rest, opt, Mode::Ir)
            } else {
                None
            }
        } else {
            js_flags_spec(rest, opt, mode)
        }
    }
}

/// Folds the whitespace-separated flags over the given state.
fn js_flags_from(flags: &str, opt: Opt, mode: Mode) -> (r: Result<(Opt, Mode), CommandError>)
    ensures
        r matches Ok(om) ==> js_flags_spec(flags@, opt, mode) == Some(om),
        r is Err <==> js_flags_spec(flags@, opt, mode) is None,
    decreases flags@.len(),
{
    let n = flags.unicode_len();
    if n == 0 {
        return Ok((opt, mode));
    }
    let c0 = flags.get_char(0);
    if c0 == ' ' || c0 == '\t' || c0 == '\n' || c0 == '\r' || c0 == '\u{c}' {
        let rest = flags.substring_char(1, n);
        proof {
            assert(rest@ =~= flags@.drop_first());
        }
        return js_flags_from(rest, opt, mode);
    }
    let mut k: usize = 0;
    loop
        invariant
            k <= n,
            n == flags@.len(),
            forall|j: int| 0 <= j < k ==> !is_ascii_ws(flags@[j]),
        ensures
            k <= n,
            n == flags@.len(),
            forall|j: int| 0 <= j < k ==> !is_ascii_ws(flags@[j]),
            k < n ==> is_ascii_ws(flags@[k as int]),
        decreases n - k,
    {
        if k >= n {
            break ;
        }
        let c = flags.get_char(k);
        if c == ' ' || c == '\t' || c == '\n' || c == '\r' || c == '\u{c}' {
            break ;
        }
        k += 1;
    }
    proof {
        lemma_first_ws(flags@, 0);
        if (k as int) < first_ws(flags@, 0) {
            assert(is_ascii_ws(flags@[k as int]));
        }
        if first_ws(flags@, 0) < k {
            assert(!is_ascii_ws(flags@[first_ws(flags@, 0)]));
        }
        assert(k == first_ws(flags@, 0));
    }
    let token = flags.substring_char(0, k);
    let rest = flags.substring_char(k, n);
    if token.get_char(0) == '-' {
        let f = token.substring_char(1, k);
        proof {
            assert(f@ =~= flags@.subrange(0, k as int).subrange(1, k as int));
        }
        if crate::fuzzy::str_eq(f, "O0") {
            js_flags_from(rest, Opt::Off, mode)
        } else if crate::fuzzy::str_eq(f, "O1") {
            js_flags_from(rest, Opt::Basic, mode)
        } else if crate::fuzzy::str_eq(f, "O2") {
            js_flags_from(rest, Opt::Aggressive, mode)
        } else if crate::fuzzy::str_eq(f, "ir") {
            js_flags_from(rest, opt, Mode::Ir)
        } else {
            Err(CommandError::UnknownFlag { flag: f.to_owned() })
        }
    } else {
        js_flags_from(rest, opt, mode)
    }
}

/// Builds the worker request for the given code and flag list: the parsed
/// mode picks evaluation or an intermediate-representation dump, carrying
/// the parsed optimization level; an unknown flag is rejected. Defaults:
/// basic optimization, evaluation.
pub fn js_request(code: String, flags: &str) -> (r: Result<HostMessage, CommandError>)
    ensures
        r matches Ok(m) ==> (match js_flags_spec(flags@, Opt::Basic, Mode::Eval) {
            Some((o, md)) => match (m, md) {
                (HostMessage::DumpIr(c, o2), Mode::Ir) => c@ == code@ && o2 == o,
                (HostMessage::Eval(c, o2), Mode::Eval) => c@ == code@ && o2 == o,
                _ => false,
            },
            None => false,
        }),
        r is Err <==> js_flags_spec(flags@, Opt::Basic, Mode::Eval) is None,
{
    let (opt, mode) = match js_flags_from(flags, Opt::Basic, Mode::Eval) {
        Ok(om) => om,
        Err(e) => {
            return Err(e);
        },
    };
    match mode {
        Mode::Ir => Ok(HostMessage::DumpIr(code, opt)),
        Mode::Eval => Ok(HostMessage::Eval(code, opt)),
    }
}

} // verus!
