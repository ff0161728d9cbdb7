//! Byte-level text matching and literal replacement.
//!
//! Asset files are treated as byte strings.  A patch names a literal
//! snippet to find and its replacement; applying it replaces every
//! occurrence of the snippet, scanning left to right without overlap,
//! exactly as the textual replace of the standard library does.

use vstd::prelude::*;

verus! {

/// The pattern `pat` occurs in `s` starting at position `i`.
pub open spec fn matches_at(s: Seq<u8>, pat: Seq<u8>, i: int) -> bool {
    0 <= i && i + pat.len() <= s.len() && s.subrange(i, i + pat.len() as int) == pat
}

/// The pattern `pat` occurs somewhere in `s`.
pub open spec fn has_match(s: Seq<u8>, pat: Seq<u8>) -> bool {
    exists|i: int| matches_at(s, pat, i)
}

/// The result of replacing every occurrence of `pat` in `s` by `rep`,
/// scanning left to right without overlap.  An empty pattern replaces
/// nothing.
pub open spec fn replace_all(s: Seq<u8>, pat: Seq<u8>, rep: Seq<u8>) -> Seq<u8>
    decreases s.len(),
{
    if pat.len() == 0 || s.len() < pat.len() {
        s
    } else if s.subrange(0, pat.len() as int) == pat {
        rep + replace_all(s.skip(pat.len() as int), pat, rep)
    } else {
        seq![s[0]] + replace_all(s.skip(1), pat, rep)
    }
}

/// Append every byte of `src` to `out`.
pub fn append_bytes(out: &mut Vec<u8>, src: &Vec<u8>)
    ensures
        final(out)@ == old(out)@ + src@,
{
    let mut j: usize = 0;
    while j < src.len()
        invariant
            j <= src@.len(),
            out@ == old(out)@ + src@.take(j as int),
        decreases src@.len() - j,
    {
        out.push(src[j]);
        proof {
            assert(old(out)@ + src@.take(j + 1 as int) =~= (old(out)@ + src@.take(j as int)).push(
                src@[j as int],
            ));
        }
        j += 1;
    }
    proof {
        assert(src@.take(src@.len() as int) =~= src@);
    }
}

/// An owned copy of the bytes of `src`.
pub fn copy_bytes(src: &Vec<u8>) -> (out: Vec<u8>)
    ensures
        out@ == src@,
{
    let mut out: Vec<u8> = Vec::new();
    append_bytes(&mut out, src);
    proof {
        assert(Seq::<u8>::empty() + src@ =~= src@);
    }
    out
}

/// Whether two byte strings hold the same bytes.
pub fn bytes_eq(a: &Vec<u8>, b: &Vec<u8>) -> (r: bool)
    ensures
        r == (a@ == b@),
{
    if a.len() != b.len() {
        return false;
    }
    let mut j: usize = 0;
    while j < a.len()
        invariant
            a@.len() == b@.len(),
            j <= a@.len(),
            forall|k: int| 0 <= k < j ==> a@[k] == b@[k],
        decreases a@.len() - j,
    {
        if a[j] != b[j] {
            return false;
        }
        j += 1;
    }
    proof {
        assert(a@ =~= b@);
    }
    true
}

/// Replaces every occurrence of `pat` in `s` by `rep`, scanning left to
/// right without overlap.
pub fn replace_all_bytes(s: &Vec<u8>, pat: &Vec<u8>, rep: &Vec<u8>) -> (out: Vec<u8>)
    ensures
        out@ == replace_all(s@, pat@, rep@),
{
    if pat.len() == 0 {
        return copy_bytes(s);
    }
    let n = s.len();
    let mut out: Vec<u8> = Vec::new();
    let mut i: usize = 0;
    proof {
        assert(s@.skip(0) =~= s@);
        assert(Seq::<u8>::empty() + replace_all(s@, pat@, rep@) =~= replace_all(s@, pat@, rep@));
    }
    while i < n
        invariant
            n == s@.len(),
            pat@.len() >= 1,
            i <= n,
            replace_all(s@, pat@, rep@) == out@ + replace_all(s@.skip(i as int), pat@, rep@),
        decreases n - i,
    {
        let ghost pre = out@;
        let ghost tail = s@.skip(i as int);
        if pat.len() <= n - i && pat_at(s, pat, i) {
            append_bytes(&mut out, rep);
            proof {
                assert(tail.subrange(0, pat@.len() as int) =~= s@.subrange(
                    i as int,
                    i + pat@.len(),
                ));
                assert(tail.skip(pat@.len() as int) =~= s@.skip(i + pat@.len()));
                assert(replace_all(tail, pat@, rep@) == rep@ + replace_all(
                    s@.skip(i + pat@.len()),
                    pat@,
                    rep@,
                ));
                assert(pre + (rep@ + replace_all(s@.skip(i + pat@.len()), pat@, rep@)) =~= (pre
                    + rep@) + replace_all(s@.skip(i + pat@.len()), pat@, rep@));
            }
            i += pat.len();
        } else {
            out.push(s[i]);
            proof {
                assert(tail.skip(1) =~= s@.skip(i + 1));
                assert(tail[0] == s@[i as int]);
                if tail.len() < pat@.len() {
                    assert(tail =~= seq![s@[i as int]] + tail.skip(1));
                    assert(replace_all(tail, pat@, rep@) == tail);
                    assert(replace_all(tail.skip(1), pat@, rep@) == tail.skip(1));
                } else {
                    assert(tail.subrange(0, pat@.len() as int) =~= s@.subrange(
                        i as int,
                        i + pat@.len(),
                    ));
                    assert(tail.subrange(0, pat@.len() as int) != pat@);
                }
                assert(replace_all(tail, pat@, rep@) == seq![s@[i as int]] + replace_all(
                    s@.skip(i + 1),
                    pat@,
                    rep@,
                ));
                assert(pre.push(s@[i as int]) =~= pre + seq![s@[i as int]]);
                assert(pre + (seq![s@[i as int]] + replace_all(s@.skip(i + 1), pat@, rep@)) =~= (pre
                    + seq![s@[i as int]]) + replace_all(s@.skip(i + 1), pat@, rep@));
            }
            i += 1;
        }
    }
    proof {
        assert(s@.skip(n as int) =~= Seq::<u8>::empty());
        assert(out@ + Seq::<u8>::empty() =~= out@);
    }
    out
}

/// Whether the pattern `pat` occurs in `s` starting at position `i`.
fn pat_at(s: &Vec<u8>, pat: &Vec<u8>, i: usize) -> (r: bool)
    requires
        i + pat@.len() <= s@.len(),
    ensures
        r == matches_at(s@, pat@, i as int),
{
    let n = s.len();
    let mut j: usize = 0;
    while j < pat.len()
        invariant
            n == s@.len(),
            i + pat@.len() <= s@.len(),
            j <= pat@.len(),
            forall|k: int| 0 <= k < j ==> s@[i + k] == pat@[k],
        decreases pat@.len() - j,
    {
        if s[i + j] != pat[j] {
            proof {
                assert(s@.subrange(i as int, i + pat@.len() as int) != pat@) by {
                    assert(s@.subrange(i as int, i + pat@.len() as int)[j as int] == s@[i + j]);
                }
            }
            return false;
        }
        j += 1;
    }
    proof {
        assert(s@.subrange(i as int, i + pat@.len() as int) =~= pat@);
    }
    true
}

/// Whether the pattern `pat` occurs anywhere in `s`.
pub fn contains_pattern(s: &Vec<u8>, pat: &Vec<u8>) -> (r: bool)
    ensures
        r == has_match(s@, pat@),
{
    if pat.len() == 0 {
        proof {
            assert(s@.subrange(0, 0) =~= pat@);
            assert(matches_at(s@, pat@, 0));
        }
        return true;
    }
    if s.len() < pat.len() {
        proof {
            assert(forall|i: int| !matches_at(s@, pat@, i));
        }
        return false;
    }
    let end = s.len() - pat.len();
    let mut i: usize = 0;
    while i <= end
        invariant
            pat@.len() >= 1,
            pat@.len() <= s@.len(),
            s@.len() <= usize::MAX,
            end == s@.len() - pat@.len(),
            i <= end + 1,
            forall|k: int| 0 <= k < i ==> !matches_at(s@, pat@, k),
        decreases end + 1 - i,
    {
        if pat_at(s, pat, i) {
            return true;
        }
        i += 1;
    }
    proof {
        assert(forall|k: int| k > end ==> !matches_at(s@, pat@, k));
    }
    false
}

/// A byte Rust's textual trim would drop at either end.
pub open spec fn is_ascii_whitespace(b: u8) -> bool {
    b == 0x20 || b == 0x09 || b == 0x0a || b == 0x0b || b == 0x0c || b == 0x0d
}

/// The text without its leading whitespace.
pub open spec fn trim_front(s: Seq<u8>) -> Seq<u8>
    decreases s.len(),
{
    if s.len() > 0 && is_ascii_whitespace(s.first()) {
        trim_front(s.drop_first())
    } else {
        s
    }
}

/// The text without its trailing whitespace.
pub open spec fn trim_back(s: Seq<u8>) -> Seq<u8>
    decreases s.len(),
{
    if s.len() > 0 && is_ascii_whitespace(s.last()) {
        trim_back(s.drop_last())
    } else {
        s
    }
}

/// The text without leading and trailing whitespace.
pub open spec fn trimmed(s: Seq<u8>) -> Seq<u8> {
    trim_back(trim_front(s))
}

/// Whether the byte at position `i` is whitespace.
fn ws_at(s: &Vec<u8>, i: usize) -> (r: bool)
    requires
        i < s@.len(),
    ensures
        r == is_ascii_whitespace(s@[i as int]),
{
    let b = s[i];
    b == 0x20 || b == 0x09 || b == 0x0a || b == 0x0b || b == 0x0c || b == 0x0d
}

/// Drops leading and trailing whitespace.
pub fn trim_bytes(s: &Vec<u8>) -> (out: Vec<u8>)
    ensures
        out@ == trimmed(s@),
{
    let n = s.len();
    let mut i: usize = 0;
    proof {
        assert(s@.skip(0) =~= s@);
    }
    while i < n && ws_at(s, i)
        invariant
            n == s@.len(),
            i <= n,
            trim_front(s@) == trim_front(s@.skip(i as int)),
        decreases n - i,
    {
        proof {
            assert(s@.skip(i as int).first() == s@[i as int]);
            assert(s@.skip(i as int).drop_first() =~= s@.skip(i + 1 as int));
        }
        i += 1;
    }
    let ghost t = s@.skip(i as int);
    proof {
        assert(trim_front(s@) == t);
    }
    let mut j: usize = n - i;
    proof {
        assert(t.take(j as int) =~= t);
    }
    while j > 0 && ws_at(s, i + j - 1)
        invariant
            n == s@.len(),
            i <= n,
            j <= n - i,
            t == s@.skip(i as int),
            trim_back(t) == trim_back(t.take(j as int)),
        decreases j,
    {
        proof {
            assert(t.take(j as int).last() == s@[i + j - 1]);
            assert(t.take(j as int).drop_last() =~= t.take(j - 1 as int));
        }
        j -= 1;
    }
    proof {
        assert(trim_back(t.take(j as int)) == t.take(j as int));
        assert(t.take(j as int) =~= s@.subrange(i as int, i + j as int));
    }
    let mut out: Vec<u8> = Vec::new();
    let mut k: usize = 0;
    while k < j
        invariant
            n == s@.len(),
            i + j <= n,
            k <= j,
            out@ == s@.subrange(i as int, i + k as int),
        decreases j - k,
    {
        out.push(s[i + k]);
        proof {
            assert(s@.subrange(i as int, i + (k + 1) as int) =~= s@.subrange(
                i as int,
                i + k as int,
            ).push(s@[i + k]));
        }
        k += 1;
    }
    out
}

/// The decimal digits of a non-negative number.
pub open spec fn dec_digits(n: int) -> Seq<u8>
    decreases n,
{
    if n < 10 {
        seq![(0x30 + if n >= 0 { n } else { 0 }) as u8]
    } else {
        dec_digits(n / 10) + seq![(0x30 + n % 10) as u8]
    }
}

/// A number written in decimal, with a leading minus when negative.
pub open spec fn dec_rep(n: int) -> Seq<u8> {
    if n < 0 {
        seq![0x2du8] + dec_digits(-n)
    } else {
        dec_digits(n)
    }
}

/// Appends the decimal digits of `m` to `out`.
fn push_digits(out: &mut Vec<u8>, m: u32)
    ensures
        final(out)@ == old(out)@ + dec_digits(m as int),
    decreases m,
{
    if m < 10 {
        out.push(0x30 + (m as u8));
        proof {
            assert(old(out)@ + dec_digits(m as int) =~= old(out)@.push((0x30 + m) as u8));
        }
    } else {
        push_digits(out, m / 10);
        out.push(0x30 + ((m % 10) as u8));
        proof {
            assert(old(out)@ + (dec_digits(m as int / 10) + seq![(0x30 + m as int % 10) as u8])
                =~= (old(out)@ + dec_digits(m as int / 10)).push((0x30 + m as int % 10) as u8));
        }
    }
}

/// A number written in decimal as bytes, exactly as the standard
/// formatter writes it.
pub fn dec_bytes(n: i32) -> (out: Vec<u8>)
    ensures
        out@ == dec_rep(n as int),
{
    let mut out: Vec<u8> = Vec::new();
    if n < 0 {
        out.push(0x2d);
        let mag: u32 = (-(n as i64)) as u32;
        proof {
            assert(mag == -(n as int));
            assert(out@ =~= seq![0x2du8]);
        }
        push_digits(&mut out, mag);
        proof {
            assert(seq![0x2du8] + dec_digits(mag as int) =~= dec_rep(n as int));
        }
    } else {
        push_digits(&mut out, n as u32);
        proof {
            assert(Seq::<u8>::empty() + dec_digits(n as int) =~= dec_rep(n as int));
        }
    }
    out
}

/// An occurrence in the tail `s.skip(k)` is an occurrence in `s`, shifted.
proof fn lemma_matches_at_skip(s: Seq<u8>, pat: Seq<u8>, k: int, j: int)
    requires
        0 <= k <= s.len(),
        0 <= j,
    ensures
        matches_at(s.skip(k), pat, j) <==> matches_at(s, pat, j + k),
{
    if matches_at(s.skip(k), pat, j) {
        assert(s.subrange(j + k, j + k + pat.len()) =~= s.skip(k).subrange(j, j + pat.len()));
    }
    if matches_at(s, pat, j + k) {
        assert(s.skip(k).subrange(j, j + pat.len()) =~= s.subrange(j + k, j + k + pat.len()));
    }
}

/// A text without any occurrence of the pattern is left unchanged.
pub proof fn lemma_no_match_identity(s: Seq<u8>, pat: Seq<u8>, rep: Seq<u8>)
    requires
        pat.len() > 0,
        !has_match(s, pat),
    ensures
        replace_all(s, pat, rep) == s,
    decreases s.len(),
{
    if s.len() >= pat.len() {
        assert(s.subrange(0, pat.len() as int) != pat) by {
            if s.subrange(0, pat.len() as int) == pat {
                assert(matches_at(s, pat, 0));
            }
        }
        assert(!has_match(s.skip(1), pat)) by {
            if has_match(s.skip(1), pat) {
                let j = choose|j: int| matches_at(s.skip(1), pat, j);
                lemma_matches_at_skip(s, pat, 1, j);
            }
        }
        lemma_no_match_identity(s.skip(1), pat, rep);
        assert(seq![s[0]] + s.skip(1) =~= s);
    }
}

/// When the pattern occurs exactly once, replacing splices the
/// replacement into that one spot.
pub proof fn lemma_replace_single(s: Seq<u8>, pat: Seq<u8>, rep: Seq<u8>, i: int)
    requires
        pat.len() > 0,
        matches_at(s, pat, i),
        forall|j: int| matches_at(s, pat, j) ==> j == i,
    ensures
        replace_all(s, pat, rep) == s.take(i) + rep + s.skip(i + pat.len()),
    decreases s.len(),
{
    if i == 0 {
        assert(s.subrange(0, pat.len() as int) == pat);
        assert(!has_match(s.skip(pat.len() as int), pat)) by {
            if has_match(s.skip(pat.len() as int), pat) {
                let j = choose|j: int| matches_at(s.skip(pat.len() as int), pat, j);
                lemma_matches_at_skip(s, pat, pat.len() as int, j);
            }
        }
        lemma_no_match_identity(s.skip(pat.len() as int), pat, rep);
        assert(s.take(0) + rep + s.skip(pat.len() as int) =~= rep + s.skip(pat.len() as int));
    } else {
        assert(s.subrange(0, pat.len() as int) != pat) by {
            if s.subrange(0, pat.len() as int) == pat {
                assert(matches_at(s, pat, 0));
            }
        }
        lemma_matches_at_skip(s, pat, 1, i - 1);
        assert forall|j: int| matches_at(s.skip(1), pat, j) implies j == i - 1 by {
            lemma_matches_at_skip(s, pat, 1, j);
        }
        lemma_replace_single(s.skip(1), pat, rep, i - 1);
        assert(s.skip(1).take(i - 1) =~= s.subrange(1, i));
        assert(s.skip(1).skip(i - 1 + pat.len()) =~= s.skip(i + pat.len()));
        assert(seq![s[0]] + (s.subrange(1, i) + rep + s.skip(i + pat.len())) =~= s.take(i) + rep
            + s.skip(i + pat.len()));
    }
}

/// Applying a patch and then reverting it restores the original text,
/// provided the snippet to find occurs exactly once and the replacement
/// text occurs in the patched result only where it was spliced in.
pub proof fn lemma_apply_then_revert(s: Seq<u8>, pat: Seq<u8>, rep: Seq<u8>, i: int)
    requires
        pat.len() > 0,
        rep.len() > 0,
        matches_at(s, pat, i),
        forall|j: int| matches_at(s, pat, j) ==> j == i,
        forall|j: int|
            #[trigger] matches_at(s.take(i) + rep + s.skip(i + pat.len()), rep, j) ==> j == i,
    ensures
        replace_all(replace_all(s, pat, rep), rep, pat) == s,
{
    lemma_replace_single(s, pat, rep, i);
    let t = s.take(i) + rep + s.skip(i + pat.len());
    assert(matches_at(t, rep, i)) by {
        assert(t.subrange(i, i + rep.len()) =~= rep);
    }
    lemma_replace_single(t, rep, pat, i);
    assert(t.take(i) =~= s.take(i));
    assert(t.skip(i + rep.len()) =~= s.skip(i + pat.len()));
    assert(s.take(i) + pat + s.skip(i + pat.len()) =~= s);
}

} // verus!
