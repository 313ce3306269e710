//! Verified helpers over strings viewed as character sequences: substring
//! search, splitting and joining on the `::` qualifier separator, trimming,
//! and decimal formatting.

use vstd::prelude::*;

verus! {

/// The qualifier separator between path segments.
pub open spec fn sep() -> Seq<char> {
    seq![':', ':']
}

/// `pat` occurs in `s` starting at position `i`.
pub open spec fn is_match_at(s: Seq<char>, pat: Seq<char>, i: int) -> bool {
    &&& 0 <= i
    &&& i + pat.len() <= s.len()
    &&& forall|j: int| 0 <= j < pat.len() ==> s[i + j] == pat[j]
}

/// `pat` occurs somewhere in `s`.
pub open spec fn contains_sub(s: Seq<char>, pat: Seq<char>) -> bool {
    exists|i: int| is_match_at(s, pat, i)
}

/// The leftmost occurrence of `pat` in `s` at or after `from`.
pub open spec fn first_match_from(s: Seq<char>, pat: Seq<char>, from: int) -> Option<int>
    decreases s.len() - from,
{
    if from < 0 || from + pat.len() > s.len() {
        None
    } else if is_match_at(s, pat, from) {
        Some(from)
    } else {
        first_match_from(s, pat, from + 1)
    }
}

/// The rightmost occurrence of `pat` in `s` at or before `from`.
pub open spec fn last_match_before(s: Seq<char>, pat: Seq<char>, from: int) -> Option<int>
    decreases from + 1,
{
    if from < 0 {
        None
    } else if is_match_at(s, pat, from) {
        Some(from)
    } else {
        last_match_before(s, pat, from - 1)
    }
}

pub proof fn lemma_first_match_from(s: Seq<char>, pat: Seq<char>, from: int)
    requires
        0 <= from,
    ensures
        first_match_from(s, pat, from) matches Some(k) ==> {
            &&& from <= k
            &&& is_match_at(s, pat, k)
            &&& forall|j: int| from <= j < k ==> !is_match_at(s, pat, j)
        },
        first_match_from(s, pat, from) is None ==> forall|j: int|
            from <= j ==> !is_match_at(s, pat, j),
    decreases s.len() - from,
{
    if from + pat.len() > s.len() {
        assert forall|j: int| from <= j implies !is_match_at(s, pat, j) by {}
    } else if is_match_at(s, pat, from) {
    } else {
        lemma_first_match_from(s, pat, from + 1);
    }
}

pub proof fn lemma_last_match_before(s: Seq<char>, pat: Seq<char>, from: int)
    ensures
        last_match_before(s, pat, from) matches Some(k) ==> {
            &&& k <= from
            &&& is_match_at(s, pat, k)
            &&& forall|j: int| k < j <= from ==> !is_match_at(s, pat, j)
        },
        last_match_before(s, pat, from) is None ==> forall|j: int|
            j <= from ==> !is_match_at(s, pat, j),
    decreases from + 1,
{
    if from < 0 {
    } else if is_match_at(s, pat, from) {
    } else {
        lemma_last_match_before(s, pat, from - 1);
    }
}

/// Copies the characters of `s` into a vector.
pub fn str_chars(s: &str) -> (r: Vec<char>)
    ensures
        r@ == s@,
{
    let n = s.unicode_len();
    let mut r: Vec<char> = Vec::new();
    let mut i: usize = 0;
    while i < n
        invariant
            i <= n,
            n == s@.len(),
            r@ == s@.subrange(0, i as int),
        decreases n - i,
    {
        r.push(s.get_char(i));
        proof {
            assert(r@ =~= s@.subrange(0, i + 1));
        }
        i += 1;
    }
    proof {
        assert(s@.subrange(0, n as int) =~= s@);
    }
    r
}

/// `pat` occurs in `s` at position `i` (executable form over char vectors).
fn match_at(s: &Vec<char>, pat: &Vec<char>, i: usize) -> (r: bool)
    requires
        i + pat@.len() <= s@.len(),
    ensures
        r <==> is_match_at(s@, pat@, i as int),
{
    let n = s.len();
    let m = pat.len();
    let mut j: usize = 0;
    while j < m
        invariant
            j <= m,
            n == s@.len(),
            m == pat@.len(),
            i + m <= n,
            forall|k: int| 0 <= k < j ==> s@[i + k] == pat@[k],
        decreases m - j,
    {
        if s[i + j] != pat[j] {
            return false;
        }
        j += 1;
    }
    true
}

/// Finds the leftmost occurrence of `pat` in `s` at or after `from`.
pub fn find_from(s: &Vec<char>, pat: &Vec<char>, from: usize) -> (r: Option<usize>)
    ensures
        match r {
            Some(k) => first_match_from(s@, pat@, from as int) == Some(k as int),
            None => first_match_from(s@, pat@, from as int) is None,
        },
{
    let n = s.len();
    let m = pat.len();
    if m > n || from > n - m {
        proof {
            lemma_first_match_from(s@, pat@, from as int);
            assert(forall|j: int| from <= j ==> !is_match_at(s@, pat@, j));
            assert(first_match_from(s@, pat@, from as int) matches Some(k) ==> false);
        }
        return None;
    }
    let mut i: usize = from;
    while i <= n - m
        invariant
            from <= i,
            m <= n,
            from <= n - m,
            n == s@.len(),
            m == pat@.len(),
            forall|j: int| from <= j < i ==> !is_match_at(s@, pat@, j),
        decreases n + 1 - i,
    {
        if match_at(s, pat, i) {
            proof {
                lemma_first_match_from(s@, pat@, from as int);
            }
            return Some(i);
        }
        i += 1;
    }
    proof {
        lemma_first_match_from(s@, pat@, from as int);
        assert(forall|j: int| from <= j ==> !is_match_at(s@, pat@, j));
    }
    None
}

/// Finds the rightmost occurrence of `pat` in `s`.
pub fn find_last(s: &Vec<char>, pat: &Vec<char>) -> (r: Option<usize>)
    ensures
        match r {
            Some(k) => last_match_before(s@, pat@, s@.len() - pat@.len()) == Some(k as int),
            None => last_match_before(s@, pat@, s@.len() - pat@.len()) is None,
        },
{
    let n = s.len();
    let m = pat.len();
    if m > n {
        proof {
            lemma_last_match_before(s@, pat@, s@.len() - pat@.len());
        }
        return None;
    }
    let mut i: usize = n - m;
    loop
        invariant
            m <= n,
            i <= n - m,
            n == s@.len(),
            m == pat@.len(),
            forall|j: int| i < j <= n - m ==> !is_match_at(s@, pat@, j),
        decreases i + 1,
    {
        if match_at(s, pat, i) {
            proof {
                lemma_last_match_before(s@, pat@, s@.len() - pat@.len());
            }
            return Some(i);
        }
        if i == 0 {
            proof {
                lemma_last_match_before(s@, pat@, s@.len() - pat@.len());
                assert(forall|j: int| j <= s@.len() - pat@.len() ==> !is_match_at(s@, pat@, j));
            }
            return None;
        }
        i -= 1;
    }
}

/// `s` contains `pat` as a contiguous substring.
pub fn contains_str(s: &str, pat: &str) -> (r: bool)
    ensures
        r <==> contains_sub(s@, pat@),
{
    let sv = str_chars(s);
    let pv = str_chars(pat);
    let found = find_from(&sv, &pv, 0);
    proof {
        lemma_first_match_from(s@, pat@, 0);
        if first_match_from(s@, pat@, 0) is None {
            assert(forall|i: int| is_match_at(s@, pat@, i) ==> 0 <= i);
        }
    }
    found.is_some()
}

/// `s` starts with `pat`.
pub open spec fn has_prefix(s: Seq<char>, pat: Seq<char>) -> bool {
    is_match_at(s, pat, 0)
}

/// Tests whether `s` starts with `pat`.
pub fn starts_with(s: &str, pat: &str) -> (r: bool)
    ensures
        r <==> has_prefix(s@, pat@),
{
    let sv = str_chars(s);
    let pv = str_chars(pat);
    if pat.unicode_len() > s.unicode_len() {
        return false;
    }
    match_at(&sv, &pv, 0)
}

/// The pieces of `s` between leftmost-first occurrences of `::`; a string
/// without the separator splits into the single piece `s`.
pub open spec fn split_sep(s: Seq<char>) -> Seq<Seq<char>>
    decreases s.len(),
{
    let m = first_match_from(s, sep(), 0);
    if m is Some && 0 <= m->0 && m->0 + 2 <= s.len() {
        seq![s.subrange(0, m->0)] + split_sep(s.subrange(m->0 + 2, s.len() as int))
    } else {
        seq![s]
    }
}

pub proof fn lemma_split_sep_len(s: Seq<char>)
    ensures
        split_sep(s).len() >= 1,
    decreases s.len(),
{
    let m = first_match_from(s, sep(), 0);
    if m is Some && 0 <= m->0 && m->0 + 2 <= s.len() {
        lemma_split_sep_len(s.subrange(m->0 + 2, s.len() as int));
    }
}

/// Splits `s` on the `::` separator.
pub fn split_qualifier(s: &str) -> (r: Vec<String>)
    ensures
        r@.map_values(|x: String| x@) == split_sep(s@),
        r@.len() >= 1,
    decreases s@.len(),
{
    let sv = str_chars(s);
    let pv = str_chars("::");
    proof {
        reveal_strlit("::");
        assert(pv@ =~= sep());
    }
    let n = s.unicode_len();
    match find_from(&sv, &pv, 0) {
        None => {
            let mut r: Vec<String> = Vec::new();
            r.push(s.to_owned());
            proof {
                assert(r@.map_values(|x: String| x@) =~= split_sep(s@));
            }
            r
        },
        Some(i) => {
            proof {
                lemma_first_match_from(s@, sep(), 0);
            }
            let head = s.substring_char(0, i).to_owned();
            let tail = s.substring_char(i + 2, n);
            let mut rest = split_qualifier(tail);
            rest.insert(0, head);
            proof {
                assert(rest@.map_values(|x: String| x@) =~= split_sep(s@));
            }
            rest
        },
    }
}

/// The piece of `s` after its rightmost `::`; the whole of `s` when the
/// separator does not occur.
pub open spec fn last_segment(s: Seq<char>) -> Seq<char> {
    match last_match_before(s, sep(), s.len() - 2) {
        None => s,
        Some(i) => s.subrange(i + 2, s.len() as int),
    }
}

/// Extracts the last `::`-separated segment of `s`.
pub fn last_segment_of(s: &str) -> (r: String)
    ensures
        r@ == last_segment(s@),
{
    let sv = str_chars(s);
    let pv = str_chars("::");
    proof {
        reveal_strlit("::");
        assert(pv@ =~= sep());
    }
    let n = s.unicode_len();
    match find_last(&sv, &pv) {
        None => s.to_owned(),
        Some(i) => {
            proof {
                lemma_last_match_before(s@, sep(), s@.len() - 2);
            }
            s.substring_char(i + 2, n).to_owned()
        },
    }
}

/// The qualified path formed from the traversal stack and a final segment:
/// the non-empty stack segments and the final one, joined by `::`.
pub open spec fn path_of(stack: Seq<Seq<char>>, last: Seq<char>) -> Seq<char>
    decreases stack.len(),
{
    if stack.len() == 0 {
        last
    } else if stack[0].len() == 0 {
        path_of(stack.drop_first(), last)
    } else {
        stack[0] + sep() + path_of(stack.drop_first(), last)
    }
}

/// The first `n` characters of `s` (all of them when `s` is shorter).
pub fn take_chars(s: &str, n: usize) -> (r: String)
    ensures
        r@ == s@.subrange(0, if n <= s@.len() { n as int } else { s@.len() as int }),
{
    let len = s.unicode_len();
    let upto = if n <= len { n } else { len };
    s.substring_char(0, upto).to_owned()
}

/// Whitespace for the purposes of output trimming.
pub open spec fn is_space(c: char) -> bool {
    c == ' ' || c == '\n' || c == '\t' || c == '\r'
}

/// `s` without its leading whitespace.
pub open spec fn trim_start_spec(s: Seq<char>) -> Seq<char>
    decreases s.len(),
{
    if s.len() > 0 && is_space(s[0]) {
        trim_start_spec(s.drop_first())
    } else {
        s
    }
}

proof fn lemma_trim_start_at(s: Seq<char>, k: int)
    requires
        0 <= k <= s.len(),
        forall|j: int| 0 <= j < k ==> is_space(s[j]),
        k < s.len() ==> !is_space(s[k]),
    ensures
        trim_start_spec(s) == s.subrange(k, s.len() as int),
    decreases s.len(),
{
    if k == 0 {
        if s.len() > 0 && is_space(s[0]) {
            assert(false);
        }
        assert(s.subrange(0, s.len() as int) =~= s);
    } else {
        let t = s.drop_first();
        lemma_trim_start_at(t, k - 1);
        assert(t.subrange(k - 1, t.len() as int) =~= s.subrange(k, s.len() as int));
    }
}

/// Removes leading whitespace.
pub fn trim_start(s: &str) -> (r: String)
    ensures
        r@ == trim_start_spec(s@),
{
    let n = s.unicode_len();
    let mut k: usize = 0;
    loop
        invariant
            k <= n,
            n == s@.len(),
            forall|j: int| 0 <= j < k ==> is_space(s@[j]),
        ensures
            k <= n,
            n == s@.len(),
            forall|j: int| 0 <= j < k ==> is_space(s@[j]),
            k < n ==> !is_space(s@[k as int]),
        decreases n - k,
    {
        if k >= n {
            break;
        }
        let c = s.get_char(k);
        if !(c == ' ' || c == '\n' || c == '\t' || c == '\r') {
            break;
        }
        k += 1;
    }
    proof {
        lemma_trim_start_at(s@, k as int);
    }
    s.substring_char(k, n).to_owned()
}

/// `s` without its trailing whitespace.
pub open spec fn trim_end_spec(s: Seq<char>) -> Seq<char>
    decreases s.len(),
{
    if s.len() > 0 && is_space(s[s.len() - 1]) {
        trim_end_spec(s.drop_last())
    } else {
        s
    }
}

proof fn lemma_trim_end_at(s: Seq<char>, k: int)
    requires
        0 <= k <= s.len(),
        forall|j: int| k <= j < s.len() ==> is_space(s[j]),
        k > 0 ==> !is_space(s[k - 1]),
    ensures
        trim_end_spec(s) == s.subrange(0, k),
    decreases s.len(),
{
    if k == s.len() {
        if s.len() > 0 && is_space(s[s.len() - 1]) {
            assert(false);
        }
        assert(s.subrange(0, s.len() as int) =~= s);
    } else {
        let t = s.drop_last();
        lemma_trim_end_at(t, k);
        assert(t.subrange(0, k) =~= s.subrange(0, k));
    }
}

/// Removes trailing whitespace.
pub fn trim_end(s: &str) -> (r: String)
    ensures
        r@ == trim_end_spec(s@),
{
    let n = s.unicode_len();
    let mut k: usize = n;
    loop
        invariant
            k <= n,
            n == s@.len(),
            forall|j: int| k <= j < n ==> is_space(s@[j]),
        ensures
            k <= n,
            n == s@.len(),
            forall|j: int| k <= j < n ==> is_space(s@[j]),
            k > 0 ==> !is_space(s@[k - 1]),
        decreases k,
    {
        if k == 0 {
            break;
        }
        let c = s.get_char(k - 1);
        if !(c == ' ' || c == '\n' || c == '\t' || c == '\r') {
            break;
        }
        k -= 1;
    }
    proof {
        lemma_trim_end_at(s@, k as int);
    }
    s.substring_char(0, k).to_owned()
}

/// `s` with every occurrence of `pat` replaced by `rep`: occurrences are
/// found leftmost-first and never overlap, and replaced text is not
/// rescanned. An empty pattern replaces nothing.
pub open spec fn replace_spec(s: Seq<char>, pat: Seq<char>, rep: Seq<char>) -> Seq<char>
    decreases s.len(),
{
    if pat.len() == 0 {
        s
    } else {
        let m = first_match_from(s, pat, 0);
        if m is Some && 0 <= m->0 && m->0 + pat.len() <= s.len() {
            s.subrange(0, m->0) + rep + replace_spec(
                s.subrange(m->0 + pat.len(), s.len() as int),
                pat,
                rep,
            )
        } else {
            s
        }
    }
}

/// Replaces every occurrence of `pat` in `s` by `rep`.
pub fn replace_str(s: &str, pat: &str, rep: &str) -> (r: String)
    ensures
        r@ == replace_spec(s@, pat@, rep@),
    decreases s@.len(),
{
    let n = s.unicode_len();
    let m = pat.unicode_len();
    if m == 0 {
        return s.to_owned();
    }
    let sv = str_chars(s);
    let pv = str_chars(pat);
    match find_from(&sv, &pv, 0) {
        None => s.to_owned(),
        Some(i) => {
            proof {
                lemma_first_match_from(s@, pat@, 0);
            }
            let mut out = s.substring_char(0, i).to_owned();
            out.append(rep);
            let rest = replace_str(s.substring_char(i + m, n), pat, rep);
            out.append(rest.as_str());
            proof {
                assert(out@ =~= replace_spec(s@, pat@, rep@));
            }
            out
        },
    }
}

/// The decimal digit character for `n`.
pub open spec fn dec_digit(n: int) -> char {
    if n == 0 { '0' }
    else if n == 1 { '1' }
    else if n == 2 { '2' }
    else if n == 3 { '3' }
    else if n == 4 { '4' }
    else if n == 5 { '5' }
    else if n == 6 { '6' }
    else if n == 7 { '7' }
    else if n == 8 { '8' }
    else { '9' }
}

/// The decimal rendering of a non-negative number.
pub open spec fn dec_spec(n: int) -> Seq<char>
    decreases n,
{
    if n < 10 {
        seq![dec_digit(n)]
    } else {
        dec_spec(n / 10).push(dec_digit(n % 10))
    }
}

fn digit_str(d: u64) -> (r: &'static str)
    requires
        d < 10,
    ensures
        r@ == seq![dec_digit(d as int)],
{
    proof {
        reveal_strlit("0");
        reveal_strlit("1");
        reveal_strlit("2");
        reveal_strlit("3");
        reveal_strlit("4");
        reveal_strlit("5");
        reveal_strlit("6");
        reveal_strlit("7");
        reveal_strlit("8");
        reveal_strlit("9");
    }
    let r = if d == 0 { "0" }
    else if d == 1 { "1" }
    else if d == 2 { "2" }
    else if d == 3 { "3" }
    else if d == 4 { "4" }
    else if d == 5 { "5" }
    else if d == 6 { "6" }
    else if d == 7 { "7" }
    else if d == 8 { "8" }
    else { "9" };
    proof {
        assert(r@ =~= seq![dec_digit(d as int)]);
    }
    r
}

/// Renders `n` in decimal.
pub fn u64_to_string(n: u64) -> (r: String)
    ensures
        r@ == dec_spec(n as int),
    decreases n,
{
    if n < 10 {
        digit_str(n).to_owned()
    } else {
        let mut s = u64_to_string(n / 10);
        s.append(digit_str(n % 10));
        proof {
            assert(s@ =~= dec_spec(n as int));
        }
        s
    }
}

} // verus!
