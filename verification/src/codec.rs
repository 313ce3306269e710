//! The persisted index form: a length-prefixed binary encoding of the two
//! parallel sequences (paths, rendered texts), and its exact inverse.
//!
//! The layout is: the path count as 8 little-endian bytes; for each path its
//! UTF-8 byte length as 8 little-endian bytes followed by its UTF-8 bytes;
//! then the same for the texts. Decoding accepts exactly the encodings and
//! consumes all input; everything else is a `MalformedIndex` error.

use vstd::prelude::*;

use crate::error::DocError;
use crate::render::views_of_strs;

verus! {

use vstd::arithmetic::div_mod::lemma_fundamental_div_mod;
use vstd::string::StrSliceExecFns;
use vstd::utf8::decode_utf8;
use vstd::utf8::encode_utf8;
use vstd::utf8::encode_utf8_decode_utf8;
use vstd::utf8::encode_utf8_valid_utf8;
use vstd::utf8::valid_utf8;

/// 256 raised to `k`: the number of values `k` bytes can hold.
pub open spec fn pow256(k: nat) -> int
    decreases k,
{
    if k == 0 {
        1
    } else {
        256 * pow256((k - 1) as nat)
    }
}

proof fn lemma_pow256_pos(k: nat)
    ensures
        pow256(k) >= 1,
    decreases k,
{
    if k > 0 {
        lemma_pow256_pos((k - 1) as nat);
    }
}

proof fn lemma_pow256_mono(k1: nat, k2: nat)
    requires
        k1 <= k2,
    ensures
        pow256(k1) <= pow256(k2),
    decreases k2,
{
    if k1 < k2 {
        lemma_pow256_mono(k1, (k2 - 1) as nat);
        lemma_pow256_pos((k2 - 1) as nat);
    }
}

/// The number of distinct values of an 8-byte word.
pub proof fn lemma_pow256_8()
    ensures
        pow256(8) == 0x1_0000_0000_0000_0000,
{
    assert(pow256(0) == 1);
    assert(pow256(1) == 256);
    assert(pow256(2) == 0x1_0000);
    assert(pow256(3) == 0x100_0000);
    assert(pow256(4) == 0x1_0000_0000);
    assert(pow256(5) == 0x100_0000_0000);
    assert(pow256(6) == 0x1_0000_0000_0000);
    assert(pow256(7) == 0x100_0000_0000_0000);
}

/// The `k` little-endian bytes of `n`.
pub open spec fn le_bytes(n: int, k: nat) -> Seq<u8>
    decreases k,
{
    if k == 0 {
        Seq::empty()
    } else {
        seq![(n % 256) as u8] + le_bytes(n / 256, (k - 1) as nat)
    }
}

/// The number read from little-endian bytes.
pub open spec fn recompose(bytes: Seq<u8>) -> int
    decreases bytes.len(),
{
    if bytes.len() == 0 {
        0
    } else {
        bytes[0] + 256 * recompose(bytes.drop_first())
    }
}

proof fn lemma_le_bytes_len(n: int, k: nat)
    ensures
        le_bytes(n, k).len() == k,
    decreases k,
{
    if k > 0 {
        lemma_le_bytes_len(n / 256, (k - 1) as nat);
    }
}

proof fn lemma_recompose_le_bytes(n: int, k: nat)
    requires
        0 <= n < pow256(k),
    ensures
        recompose(le_bytes(n, k)) == n,
    decreases k,
{
    if k > 0 {
        let rest = le_bytes(n / 256, (k - 1) as nat);
        assert(le_bytes(n, k).drop_first() =~= rest);
        let p = pow256((k - 1) as nat);
        lemma_pow256_pos((k - 1) as nat);
        lemma_fundamental_div_mod(n, 256);
        assert(n / 256 >= p ==> 256 * (n / 256) >= 256 * p) by (nonlinear_arith);
        assert(n / 256 < p);
        lemma_recompose_le_bytes(n / 256, (k - 1) as nat);
    }
}

proof fn lemma_recompose_bound(bytes: Seq<u8>)
    ensures
        0 <= recompose(bytes) < pow256(bytes.len() as nat),
    decreases bytes.len(),
{
    if bytes.len() == 0 {
    } else {
        let rest = bytes.drop_first();
        lemma_recompose_bound(rest);
        let p = pow256(rest.len() as nat);
        assert(recompose(rest) <= p - 1 ==> 256 * recompose(rest) <= 256 * (p - 1))
            by (nonlinear_arith);
    }
}

/// Appends the 8 little-endian bytes of `x`.
fn write_u64(out: &mut Vec<u8>, x: u64)
    ensures
        final(out)@ == old(out)@ + le_bytes(x as int, 8),
{
    let mut v: u64 = x;
    let mut i: usize = 0;
    while i < 8
        invariant
            i <= 8,
            out@.len() == old(out)@.len() + i,
            le_bytes(x as int, 8) == out@.subrange(old(out)@.len() as int, out@.len() as int)
                + le_bytes(v as int, (8 - i) as nat),
            out@.subrange(0, old(out)@.len() as int) == old(out)@,
        decreases 8 - i,
    {
        out.push((v % 256) as u8);
        v = v / 256;
        proof {
            assert(out@.subrange(0, old(out)@.len() as int) =~= old(out)@);
            assert(le_bytes(x as int, 8) =~= out@.subrange(
                old(out)@.len() as int,
                out@.len() as int,
            ) + le_bytes(v as int, (8 - (i + 1)) as nat));
        }
        i += 1;
    }
    proof {
        assert(final(out)@ =~= old(out)@ + le_bytes(x as int, 8));
    }
}

/// Reads the 8 little-endian bytes at `pos` as a number.
fn read_u64_le(bytes: &Vec<u8>, pos: usize) -> (r: u64)
    requires
        pos + 8 <= bytes@.len(),
    ensures
        r as int == recompose(bytes@.subrange(pos as int, pos as int + 8)),
{
    let n = bytes.len();
    let mut acc: u64 = 0;
    let mut k: usize = 8;
    while k > 0
        invariant
            k <= 8,
            n == bytes@.len(),
            pos + 8 <= n,
            acc as int == recompose(bytes@.subrange(pos + k, pos as int + 8)),
            acc < pow256((8 - k) as nat),
        decreases k,
    {
        proof {
            lemma_pow256_mono((8 - k) as nat, 7);
            lemma_pow256_8();
            assert(acc <= pow256(7) - 1 ==> 256 * (acc as int) <= 256 * (pow256(7) - 1))
                by (nonlinear_arith);
        }
        k -= 1;
        let b = bytes[pos + k];
        acc = acc * 256 + (b as u64);
        proof {
            let s = bytes@.subrange(pos + k, pos as int + 8);
            assert(s.drop_first() =~= bytes@.subrange(pos + k + 1, pos as int + 8));
            assert(s[0] == bytes@[pos + k]);
            let p = pow256((7 - k) as nat);
            lemma_recompose_bound(bytes@.subrange(pos + k + 1, pos as int + 8));
            assert(recompose(s.drop_first()) <= p - 1 ==> 256 * recompose(s.drop_first()) <= 256
                * (p - 1)) by (nonlinear_arith);
        }
    }
    proof {
        assert(bytes@.subrange(pos as int, pos as int + 8) == bytes@.subrange(
            pos + 0,
            pos as int + 8,
        ));
    }
    acc
}

/// The concatenated frames (length prefix, then UTF-8 bytes) of `ss[i..]`.
pub open spec fn frames(ss: Seq<Seq<char>>, i: int) -> Seq<u8>
    decreases ss.len() - i,
{
    if 0 <= i < ss.len() {
        le_bytes(encode_utf8(ss[i]).len() as int, 8) + encode_utf8(ss[i]) + frames(ss, i + 1)
    } else {
        Seq::empty()
    }
}

/// The serialized form of the two parallel sequences.
pub open spec fn serialize_spec(ps: Seq<Seq<char>>, ts: Seq<Seq<char>>) -> Seq<u8> {
    le_bytes(ps.len() as int, 8) + frames(ps, 0) + le_bytes(ts.len() as int, 8) + frames(ts, 0)
}

/// Parses `count` frames starting at `pos`; `Some` holds the decoded
/// strings and the position after the last frame.
pub open spec fn parse_strings(bytes: Seq<u8>, pos: int, count: nat) -> Option<
    (Seq<Seq<char>>, int),
>
    decreases count,
{
    if count == 0 {
        Some((Seq::empty(), pos))
    } else if pos < 0 || pos + 8 > bytes.len() {
        None
    } else {
        let len = recompose(bytes.subrange(pos, pos + 8));
        if pos + 8 + len > bytes.len() {
            None
        } else {
            let chunk = bytes.subrange(pos + 8, pos + 8 + len);
            if !valid_utf8(chunk) {
                None
            } else {
                match parse_strings(bytes, pos + 8 + len, (count - 1) as nat) {
                    None => None,
                    Some((rest, end)) => Some((seq![decode_utf8(chunk)] + rest, end)),
                }
            }
        }
    }
}

/// The parsed form of serialized bytes: `Some` exactly on complete, valid
/// encodings.
pub open spec fn deserialize_spec(bytes: Seq<u8>) -> Option<(Seq<Seq<char>>, Seq<Seq<char>>)> {
    if bytes.len() < 8 {
        None
    } else {
        let np = recompose(bytes.subrange(0, 8));
        match parse_strings(bytes, 8, np as nat) {
            None => None,
            Some((ps, pos1)) => if pos1 + 8 > bytes.len() {
                None
            } else {
                let nt = recompose(bytes.subrange(pos1, pos1 + 8));
                match parse_strings(bytes, pos1 + 8, nt as nat) {
                    None => None,
                    Some((ts, pos2)) => if pos2 == bytes.len() {
                        Some((ps, ts))
                    } else {
                        None
                    },
                }
            },
        }
    }
}

/// Relies on `String::from_utf8`: `Some` exactly on valid UTF-8, returning
/// the string whose UTF-8 encoding is the input bytes.
#[verifier::external_body]
fn string_from_utf8(bytes: Vec<u8>) -> (r: Option<String>)
    ensures
        r is Some <==> valid_utf8(bytes@),
        r matches Some(s) ==> encode_utf8(s@) == bytes@,
{
    String::from_utf8(bytes).ok()
}

/// Serializes the parallel (paths, texts) sequences.
pub fn serialize(paths: &Vec<String>, texts: &Vec<String>) -> (r: Vec<u8>)
    ensures
        r@ == serialize_spec(views_of_strs(paths@), views_of_strs(texts@)),
{
    let mut out: Vec<u8> = Vec::new();
    write_u64(&mut out, paths.len() as u64);
    write_string_list(&mut out, paths);
    write_u64(&mut out, texts.len() as u64);
    write_string_list(&mut out, texts);
    proof {
        assert(out@ =~= serialize_spec(views_of_strs(paths@), views_of_strs(texts@)));
    }
    out
}

/// Appends one frame per string: its UTF-8 byte length, then its bytes.
fn write_string_list(out: &mut Vec<u8>, ss: &Vec<String>)
    ensures
        final(out)@ == old(out)@ + frames(views_of_strs(ss@), 0),
{
    let n = ss.len();
    let mut j: usize = 0;
    while j < n
        invariant
            j <= n,
            n == ss@.len(),
            out@ + frames(views_of_strs(ss@), j as int) == old(out)@ + frames(
                views_of_strs(ss@),
                0,
            ),
        decreases n - j,
    {
        let s = vstd::std_specs::vec::vec_index(ss, j);
        let mut bytes = s.as_str().as_bytes_vec();
        proof {
            assert(views_of_strs(ss@)[j as int] == ss@[j as int]@);
        }
        write_u64(out, bytes.len() as u64);
        out.append(&mut bytes);
        proof {
            assert(out@ + frames(views_of_strs(ss@), j + 1) =~= old(out)@ + frames(
                views_of_strs(ss@),
                0,
            ));
        }
        j += 1;
    }
}

/// Copies `len` bytes starting at `start`.
fn read_chunk(bytes: &Vec<u8>, start: usize, len: usize) -> (r: Vec<u8>)
    requires
        start + len <= bytes@.len(),
    ensures
        r@ == bytes@.subrange(start as int, start as int + len as int),
{
    let n = bytes.len();
    let mut r: Vec<u8> = Vec::new();
    let mut k: usize = 0;
    while k < len
        invariant
            k <= len,
            n == bytes@.len(),
            start + len <= n,
            r@ == bytes@.subrange(start as int, start as int + k as int),
        decreases len - k,
    {
        r.push(bytes[start + k]);
        proof {
            assert(r@ =~= bytes@.subrange(start as int, start as int + (k + 1)));
        }
        k += 1;
    }
    r
}

/// Parses `count` frames starting at `start`.
fn parse_string_list(bytes: &Vec<u8>, start: usize, count: u64) -> (r: Result<
    (Vec<String>, usize),
    DocError,
>)
    requires
        start <= bytes@.len(),
    ensures
        r matches Ok((v, end)) ==> parse_strings(bytes@, start as int, count as nat) == Some(
            (views_of_strs(v@), end as int),
        ) && end <= bytes@.len(),
        r is Err <==> parse_strings(bytes@, start as int, count as nat) is None,
{
    let mut acc: Vec<String> = Vec::new();
    let mut pos: usize = start;
    let mut i: u64 = 0;
    while i < count
        invariant
            i <= count,
            pos <= bytes@.len(),
            match parse_strings(bytes@, pos as int, (count - i) as nat) {
                None => parse_strings(bytes@, start as int, count as nat) is None,
                Some((rest, end)) => parse_strings(bytes@, start as int, count as nat) == Some(
                    (views_of_strs(acc@) + rest, end),
                ),
            },
        decreases count - i,
    {
        if bytes.len() - pos < 8 {
            return Err(DocError::MalformedIndex);
        }
        let len0 = read_u64_le(bytes, pos);
        proof {
            lemma_recompose_bound(bytes@.subrange(pos as int, pos as int + 8));
        }
        if len0 > (bytes.len() - pos - 8) as u64 {
            return Err(DocError::MalformedIndex);
        }
        let len0u = len0 as usize;
        let chunk = read_chunk(bytes, pos + 8, len0u);
        let ghost chunk_view = chunk@;
        match string_from_utf8(chunk) {
            Some(s) => {
                proof {
                    encode_utf8_decode_utf8(s@);
                    assert(decode_utf8(chunk_view) == s@);
                    assert(views_of_strs(acc@.push(s)) =~= views_of_strs(acc@) + seq![s@]);
                }
                acc.push(s);
                pos = pos + 8 + len0u;
                proof {
                    match parse_strings(bytes@, pos as int, (count - (i + 1)) as nat) {
                        None => {},
                        Some((rest, end)) => {
                            assert((views_of_strs(acc@.drop_last()) + seq![s@]) + rest
                                =~= views_of_strs(acc@.drop_last()) + (seq![s@] + rest));
                            assert(views_of_strs(acc@) =~= views_of_strs(acc@.drop_last()) + seq![
                                s@,
                            ]);
                        },
                    }
                }
            },
            None => {
                return Err(DocError::MalformedIndex);
            },
        }
        i += 1;
    }
    proof {
        assert(views_of_strs(acc@) + Seq::<Seq<char>>::empty() =~= views_of_strs(acc@));
    }
    Ok((acc, pos))
}

/// Deserializes persisted index bytes back into the parallel (paths, texts)
/// sequences; `MalformedIndex` exactly when the bytes are not a complete,
/// valid encoding.
pub fn deserialize(bytes: &Vec<u8>) -> (r: Result<(Vec<String>, Vec<String>), DocError>)
    ensures
        r matches Ok(pt) ==> deserialize_spec(bytes@) == Some(
            (views_of_strs(pt.0@), views_of_strs(pt.1@)),
        ),
        r is Err <==> deserialize_spec(bytes@) is None,
{
    if bytes.len() < 8 {
        return Err(DocError::MalformedIndex);
    }
    let np = read_u64_le(bytes, 0);
    proof {
        lemma_recompose_bound(bytes@.subrange(0, 8));
    }
    let (ps, pos1) = match parse_string_list(bytes, 8, np) {
        Ok(t) => t,
        Err(e) => {
            return Err(e);
        },
    };
    if bytes.len() - pos1 < 8 {
        return Err(DocError::MalformedIndex);
    }
    let nt = read_u64_le(bytes, pos1);
    proof {
        lemma_recompose_bound(bytes@.subrange(pos1 as int, pos1 as int + 8));
    }
    let (ts, pos2) = match parse_string_list(bytes, pos1 + 8, nt) {
        Ok(t) => t,
        Err(e) => {
            return Err(e);
        },
    };
    if pos2 != bytes.len() {
        return Err(DocError::MalformedIndex);
    }
    Ok((ps, ts))
}

proof fn lemma_parse_frames(bytes: Seq<u8>, pos: int, ss: Seq<Seq<char>>, i: int)
    requires
        0 <= i <= ss.len(),
        0 <= pos,
        pos + frames(ss, i).len() <= bytes.len(),
        bytes.subrange(pos, pos + frames(ss, i).len()) == frames(ss, i),
        forall|j: int| i <= j < ss.len() ==> encode_utf8(#[trigger] ss[j]).len() < pow256(8),
    ensures
        parse_strings(bytes, pos, (ss.len() - i) as nat) == Some(
            (ss.subrange(i, ss.len() as int), pos + frames(ss, i).len()),
        ),
    decreases ss.len() - i,
{
    if i == ss.len() {
        assert(ss.subrange(i, ss.len() as int) =~= Seq::<Seq<char>>::empty());
    } else {
        let enc = encode_utf8(ss[i]);
        let len = enc.len() as int;
        lemma_le_bytes_len(len, 8);
        let fr = frames(ss, i);
        let frest = frames(ss, i + 1);
        assert(fr == le_bytes(len, 8) + enc + frest);
        assert forall|q: int| 0 <= q < 8 implies bytes.subrange(pos, pos + 8)[q] == le_bytes(
            len,
            8,
        )[q] by {
            assert(bytes.subrange(pos, pos + fr.len() as int)[q] == fr[q]);
        }
        assert(bytes.subrange(pos, pos + 8) =~= le_bytes(len, 8));
        lemma_recompose_le_bytes(len, 8);
        assert(recompose(bytes.subrange(pos, pos + 8)) == len);
        assert forall|q: int| 0 <= q < len implies bytes.subrange(pos + 8, pos + 8 + len)[q]
            == enc[q] by {
            assert(bytes.subrange(pos, pos + fr.len() as int)[8 + q] == fr[8 + q]);
        }
        assert(bytes.subrange(pos + 8, pos + 8 + len) =~= enc);
        encode_utf8_valid_utf8(ss[i]);
        encode_utf8_decode_utf8(ss[i]);
        assert forall|q: int| 0 <= q < frest.len() implies bytes.subrange(
            pos + 8 + len,
            pos + 8 + len + frest.len() as int,
        )[q] == frest[q] by {
            assert(bytes.subrange(pos, pos + fr.len() as int)[8 + len + q] == fr[8 + len + q]);
        }
        assert(bytes.subrange(pos + 8 + len, pos + 8 + len + frest.len() as int) =~= frest);
        lemma_parse_frames(bytes, pos + 8 + len, ss, i + 1);
        assert(seq![ss[i]] + ss.subrange(i + 1, ss.len() as int) =~= ss.subrange(
            i,
            ss.len() as int,
        ));
    }
}

/// Round-trip: deserializing the serialization of any parallel sequence
/// pair yields the pair back exactly. The length bounds are the machine
/// limits of the 8-byte prefixes.
pub proof fn lemma_codec_round_trip(ps: Seq<Seq<char>>, ts: Seq<Seq<char>>)
    requires
        ps.len() < 0x1_0000_0000_0000_0000,
        ts.len() < 0x1_0000_0000_0000_0000,
        forall|i: int| 0 <= i < ps.len() ==> encode_utf8(#[trigger] ps[i]).len()
            < 0x1_0000_0000_0000_0000,
        forall|i: int| 0 <= i < ts.len() ==> encode_utf8(#[trigger] ts[i]).len()
            < 0x1_0000_0000_0000_0000,
    ensures
        deserialize_spec(serialize_spec(ps, ts)) == Some((ps, ts)),
{
    lemma_pow256_8();
    let bytes = serialize_spec(ps, ts);
    let a = le_bytes(ps.len() as int, 8);
    let b = frames(ps, 0);
    let c = le_bytes(ts.len() as int, 8);
    let d = frames(ts, 0);
    lemma_le_bytes_len(ps.len() as int, 8);
    lemma_le_bytes_len(ts.len() as int, 8);
    assert(bytes.len() == 8 + b.len() + 8 + d.len());
    assert(bytes.subrange(0, 8) =~= a);
    lemma_recompose_le_bytes(ps.len() as int, 8);
    assert(bytes.subrange(8, 8 + b.len() as int) =~= b);
    lemma_parse_frames(bytes, 8, ps, 0);
    assert(ps.subrange(0, ps.len() as int) =~= ps);
    let pos1: int = 8 + b.len() as int;
    assert(bytes.subrange(pos1, pos1 + 8) =~= c);
    lemma_recompose_le_bytes(ts.len() as int, 8);
    assert(bytes.subrange(pos1 + 8, pos1 + 8 + d.len() as int) =~= d);
    lemma_parse_frames(bytes, pos1 + 8, ts, 0);
    assert(ts.subrange(0, ts.len() as int) =~= ts);
}

} // verus!
