//! Byte-level scanning for the example-line grammar: splitting a line into
//! `|`-delimited sections, splitting a section into whitespace-separated
//! tokens, locating the `name:value` separator inside a token, and deciding
//! whether a token is a floating-point literal.
//!
//! Everything here is defined twice: once as a spec function over `Seq<u8>`,
//! which the parser's contracts are phrased in, and once as executable code
//! proved equal to it.

use vstd::prelude::*;

verus! {

/// ASCII space.
pub const BYTE_SPACE: u8 = 32;

/// ASCII horizontal tab.
pub const BYTE_TAB: u8 = 9;

/// ASCII carriage return.
pub const BYTE_CR: u8 = 13;

/// ASCII line feed.
pub const BYTE_LF: u8 = 10;

/// ASCII `|`, the namespace-section delimiter.
pub const BYTE_BAR: u8 = 124;

/// ASCII `:`, the separator inside a `name:value` token.
pub const BYTE_COLON: u8 = 58;

/// ASCII `'`, the optional tag prefix.
pub const BYTE_QUOTE: u8 = 39;

/// ASCII `.`.
pub const BYTE_DOT: u8 = 46;

/// ASCII `+`.
pub const BYTE_PLUS: u8 = 43;

/// ASCII `-`.
pub const BYTE_MINUS: u8 = 45;

/// ASCII `0`.
pub const BYTE_ZERO: u8 = 48;

/// ASCII `9`.
pub const BYTE_NINE: u8 = 57;

/// ASCII `1`.
pub const BYTE_ONE: u8 = 49;

/// ASCII `A`.
pub const BYTE_UPPER_A: u8 = 65;

/// ASCII `Z`.
pub const BYTE_UPPER_Z: u8 = 90;

/// ASCII `E`.
pub const BYTE_UPPER_E: u8 = 69;

/// ASCII `e`.
pub const BYTE_LOWER_E: u8 = 101;

/// ASCII `i`.
pub const BYTE_LOWER_I: u8 = 105;

/// ASCII `n`.
pub const BYTE_LOWER_N: u8 = 110;

/// ASCII `f`.
pub const BYTE_LOWER_F: u8 = 102;

/// ASCII `a`.
pub const BYTE_LOWER_A: u8 = 97;

/// ASCII `t`.
pub const BYTE_LOWER_T: u8 = 116;

/// ASCII `y`.
pub const BYTE_LOWER_Y: u8 = 121;

/// The bytes the grammar treats as whitespace.
pub open spec fn is_ws(b: u8) -> bool {
    b == BYTE_SPACE || b == BYTE_TAB || b == BYTE_CR || b == BYTE_LF
}

/// Executable test for [`is_ws`].
pub fn is_ws_byte(b: u8) -> (r: bool)
    ensures
        r == is_ws(b),
{
    b == BYTE_SPACE || b == BYTE_TAB || b == BYTE_CR || b == BYTE_LF
}

/// The views of a vector of byte vectors, as a sequence of byte sequences.
pub open spec fn view_vecs(r: Seq<Vec<u8>>) -> Seq<Seq<u8>> {
    r.map_values(|v: Vec<u8>| v@)
}

/// The `|`-delimited sections of `s`, in order. Empty sections are kept, so
/// the result always holds one more section than `s` holds `|` bytes; the
/// first section is the label/tag section even when it is empty.
pub open spec fn split_bar(s: Seq<u8>) -> Seq<Seq<u8>>
    decreases s.len(),
{
    if s.len() == 0 {
        seq![Seq::<u8>::empty()]
    } else {
        let pre = split_bar(s.drop_last());
        if s.last() == BYTE_BAR {
            pre.push(Seq::<u8>::empty())
        } else {
            pre.update(pre.len() - 1, pre.last().push(s.last()))
        }
    }
}

pub proof fn lemma_split_bar_nonempty(s: Seq<u8>)
    ensures
        split_bar(s).len() >= 1,
    decreases s.len(),
{
    if s.len() > 0 {
        lemma_split_bar_nonempty(s.drop_last());
    }
}

/// A line without `|` is one single section: itself.
pub proof fn lemma_split_bar_no_bar(s: Seq<u8>)
    requires
        forall|i: int| 0 <= i < s.len() ==> s[i] != BYTE_BAR,
    ensures
        split_bar(s) == seq![s],
    decreases s.len(),
{
    if s.len() == 0 {
        assert(split_bar(s) =~~= seq![s]);
    } else {
        lemma_split_bar_no_bar(s.drop_last());
        assert(s.drop_last().push(s.last()) =~= s);
        assert(split_bar(s) =~~= seq![s]);
    }
}

/// Splits a line into its `|`-delimited sections.
pub fn split_on_bar(line: &[u8]) -> (r: Vec<Vec<u8>>)
    ensures
        view_vecs(r@) == split_bar(line@),
{
    let n = line.len();
    let mut out: Vec<Vec<u8>> = Vec::new();
    let mut cur: Vec<u8> = Vec::new();
    assert(line@.take(0) =~= Seq::<u8>::empty());
    assert(view_vecs(out@).push(cur@) =~~= split_bar(line@.take(0)));
    for i in 0..n
        invariant
            n == line@.len(),
            view_vecs(out@).push(cur@) == split_bar(line@.take(i as int)),
    {
        let ghost prefix = line@.take(i as int);
        let b = line[i];
        proof {
            assert(line@.take(i + 1).drop_last() =~= prefix);
            assert(line@.take(i + 1).last() == line@[i as int]);
        }
        if b == BYTE_BAR {
            let finished = cur;
            cur = Vec::new();
            out.push(finished);
            proof {
                assert(view_vecs(out@).push(cur@) =~~= split_bar(line@.take(i + 1)));
            }
        } else {
            cur.push(b);
            proof {
                assert(view_vecs(out@).push(cur@) =~~= split_bar(line@.take(i + 1)));
            }
        }
    }
    out.push(cur);
    proof {
        assert(line@.take(n as int) =~= line@);
        assert(view_vecs(out@) =~~= split_bar(line@));
    }
    out
}

/// The whitespace-separated tokens of `s`, in order: the maximal runs of
/// non-whitespace bytes. Leading, trailing and repeated whitespace all
/// disappear, so two sections with the same token list split identically.
pub open spec fn split_ws(s: Seq<u8>) -> Seq<Seq<u8>>
    decreases s.len(),
{
    if s.len() == 0 {
        Seq::<Seq<u8>>::empty()
    } else {
        let pre = split_ws(s.drop_last());
        let c = s.last();
        if is_ws(c) {
            pre
        } else if s.len() >= 2 && !is_ws(s[s.len() - 2]) {
            pre.update(pre.len() - 1, pre.last().push(c))
        } else {
            pre.push(seq![c])
        }
    }
}

/// A section that starts with a non-whitespace byte has a first token.
pub proof fn lemma_split_ws_first(s: Seq<u8>)
    requires
        s.len() > 0,
        !is_ws(s[0]),
    ensures
        split_ws(s).len() > 0,
    decreases s.len(),
{
    if s.len() > 1 {
        lemma_split_ws_first(s.drop_last());
    }
}

/// Splits a section into its whitespace-separated tokens.
pub fn split_on_ws(sec: &[u8]) -> (r: Vec<Vec<u8>>)
    ensures
        view_vecs(r@) == split_ws(sec@),
{
    let n = sec.len();
    let mut out: Vec<Vec<u8>> = Vec::new();
    let mut cur: Vec<u8> = Vec::new();
    assert(sec@.take(0) =~= Seq::<u8>::empty());
    for i in 0..n
        invariant
            n == sec@.len(),
            cur@.len() > 0 <==> i > 0 && !is_ws(sec@[i - 1]),
            cur@.len() > 0 ==> view_vecs(out@).push(cur@) == split_ws(sec@.take(i as int)),
            cur@.len() == 0 ==> view_vecs(out@) == split_ws(sec@.take(i as int)),
    {
        let ghost prefix = sec@.take(i as int);
        let b = sec[i];
        proof {
            assert(sec@.take(i + 1).drop_last() =~= prefix);
            assert(sec@.take(i + 1).last() == sec@[i as int]);
        }
        if is_ws_byte(b) {
            if cur.len() > 0 {
                let finished = cur;
                cur = Vec::new();
                out.push(finished);
                proof {
                    assert(view_vecs(out@) =~~= split_ws(sec@.take(i + 1)));
                }
            }
        } else {
            cur.push(b);
            proof {
                assert(view_vecs(out@).push(cur@) =~~= split_ws(sec@.take(i + 1)));
            }
        }
    }
    proof {
        assert(sec@.take(n as int) =~= sec@);
    }
    if cur.len() > 0 {
        out.push(cur);
    }
    proof {
        assert(view_vecs(out@) =~~= split_ws(sec@));
    }
    out
}

/// The position of the first `:` in `t`, or `-1` when `t` has none.
pub open spec fn first_colon(t: Seq<u8>) -> int
    decreases t.len(),
{
    if t.len() == 0 {
        -1
    } else if t[0] == BYTE_COLON {
        0
    } else {
        let r = first_colon(t.drop_first());
        if r < 0 {
            -1
        } else {
            r + 1
        }
    }
}

pub proof fn lemma_first_colon_none(t: Seq<u8>)
    requires
        forall|k: int| 0 <= k < t.len() ==> t[k] != BYTE_COLON,
    ensures
        first_colon(t) == -1,
    decreases t.len(),
{
    if t.len() > 0 {
        lemma_first_colon_none(t.drop_first());
    }
}

pub proof fn lemma_first_colon_at(t: Seq<u8>, j: int)
    requires
        0 <= j < t.len(),
        t[j] == BYTE_COLON,
        forall|k: int| 0 <= k < j ==> t[k] != BYTE_COLON,
    ensures
        first_colon(t) == j,
    decreases j,
{
    if j > 0 {
        lemma_first_colon_at(t.drop_first(), j - 1);
    }
}

/// Finds the first `:` in a token, if any.
pub fn find_colon(t: &[u8]) -> (r: Option<usize>)
    ensures
        match r {
            Some(j) => j == first_colon(t@) && j < t@.len(),
            None => first_colon(t@) == -1,
        },
{
    let n = t.len();
    for j in 0..n
        invariant
            n == t@.len(),
            forall|k: int| 0 <= k < j ==> t@[k] != BYTE_COLON,
    {
        if t[j] == BYTE_COLON {
            proof {
                lemma_first_colon_at(t@, j as int);
            }
            return Some(j);
        }
    }
    proof {
        lemma_first_colon_none(t@);
    }
    None
}

/// A decimal digit.
pub open spec fn is_digit(b: u8) -> bool {
    BYTE_ZERO <= b <= BYTE_NINE
}

/// A sign byte.
pub open spec fn is_sign(b: u8) -> bool {
    b == BYTE_PLUS || b == BYTE_MINUS
}

/// The end of the digit run that starts at `i`: the first position at or
/// after `i` that is past the end of `s` or holds a non-digit.
pub open spec fn digits_end(s: Seq<u8>, i: int) -> int
    decreases s.len() - i,
{
    if i < s.len() && is_digit(s[i]) {
        digits_end(s, i + 1)
    } else {
        i
    }
}

/// Scans the digit run that starts at `i`.
pub fn scan_digits(s: &[u8], i: usize) -> (j: usize)
    requires
        i <= s@.len(),
    ensures
        j == digits_end(s@, i as int),
        i <= j <= s@.len(),
{
    let n = s.len();
    let mut j = i;
    while j < n && s[j] >= BYTE_ZERO && s[j] <= BYTE_NINE
        invariant
            n == s@.len(),
            i <= j <= n,
            digits_end(s@, i as int) == digits_end(s@, j as int),
        decreases n - j,
    {
        j = j + 1;
    }
    j
}

/// The byte `b` with an upper-case ASCII letter folded to lower case.
pub open spec fn ascii_lower(b: u8) -> u8 {
    if BYTE_UPPER_A <= b <= BYTE_UPPER_Z {
        (b + 32) as u8
    } else {
        b
    }
}

/// `s` spells `t` up to ASCII case, where `t` is given in lower case.
pub open spec fn eq_ignore_case(s: Seq<u8>, t: Seq<u8>) -> bool {
    s.len() == t.len() && forall|i: int| 0 <= i < s.len() ==> ascii_lower(s[i]) == t[i]
}

/// The non-numeric floating-point spellings: `inf`, `infinity` and `nan`,
/// in any mix of case.
pub open spec fn is_special_float(s: Seq<u8>) -> bool {
    ||| eq_ignore_case(s, seq![BYTE_LOWER_I, BYTE_LOWER_N, BYTE_LOWER_F])
    ||| eq_ignore_case(s, seq![BYTE_LOWER_I, BYTE_LOWER_N, BYTE_LOWER_F, BYTE_LOWER_I, BYTE_LOWER_N, BYTE_LOWER_I, BYTE_LOWER_T, BYTE_LOWER_Y])
    ||| eq_ignore_case(s, seq![BYTE_LOWER_N, BYTE_LOWER_A, BYTE_LOWER_N])
}

/// An exponent part filling `s` from `i` to the end: `e` or `E`, an optional
/// sign, and at least one digit.
pub open spec fn is_exponent(s: Seq<u8>, i: int) -> bool {
    &&& 0 <= i < s.len()
    &&& (s[i] == BYTE_LOWER_E || s[i] == BYTE_UPPER_E)
    &&& {
        let j = if i + 1 < s.len() && is_sign(s[i + 1]) {
            i + 2
        } else {
            i + 1
        };
        let d = digits_end(s, j);
        d > j && d == s.len()
    }
}

/// A numeric mantissa with an optional fraction and an optional exponent,
/// filling all of `s`: `Count '.'? Count?` or `'.' Count`, then `Exp?`.
pub open spec fn is_mantissa(s: Seq<u8>) -> bool {
    let d1 = digits_end(s, 0);
    if d1 > 0 {
        let d2 = if d1 < s.len() && s[d1] == BYTE_DOT {
            digits_end(s, d1 + 1)
        } else {
            d1
        };
        d2 == s.len() || is_exponent(s, d2)
    } else if s.len() > 0 && s[0] == BYTE_DOT {
        let d2 = digits_end(s, 1);
        d2 > 1 && (d2 == s.len() || is_exponent(s, d2))
    } else {
        false
    }
}

/// Whether `s` is a well-formed floating-point literal: an optional sign,
/// then `inf`, `infinity`, `nan` (case-insensitive) or a numeric mantissa.
/// This is the grammar that decides which label and value tokens the parser
/// accepts, and which bare tokens count as anonymous features.
pub open spec fn is_float_literal(s: Seq<u8>) -> bool {
    let body = if s.len() > 0 && is_sign(s[0]) {
        s.drop_first()
    } else {
        s
    };
    is_special_float(body) || is_mantissa(body)
}

/// Executable test for [`ascii_lower`].
fn ascii_lower_byte(b: u8) -> (r: u8)
    ensures
        r == ascii_lower(b),
{
    if b >= BYTE_UPPER_A && b <= BYTE_UPPER_Z {
        b + 32
    } else {
        b
    }
}

/// Executable test for [`is_special_float`].
fn is_special_float_bytes(body: &[u8]) -> (r: bool)
    ensures
        r == is_special_float(body@),
{
    if body.len() == 3 {
        let a = ascii_lower_byte(body[0]);
        let b = ascii_lower_byte(body[1]);
        let c = ascii_lower_byte(body[2]);
        let inf = a == BYTE_LOWER_I && b == BYTE_LOWER_N && c == BYTE_LOWER_F;
        let nan = a == BYTE_LOWER_N && b == BYTE_LOWER_A && c == BYTE_LOWER_N;
        inf || nan
    } else if body.len() == 8 {
        let mut ok = true;
        let word: [u8; 8] = [BYTE_LOWER_I, BYTE_LOWER_N, BYTE_LOWER_F, BYTE_LOWER_I, BYTE_LOWER_N, BYTE_LOWER_I, BYTE_LOWER_T, BYTE_LOWER_Y];
        for i in 0..8usize
            invariant
                body@.len() == 8,
                word@ =~= seq![BYTE_LOWER_I, BYTE_LOWER_N, BYTE_LOWER_F, BYTE_LOWER_I, BYTE_LOWER_N, BYTE_LOWER_I, BYTE_LOWER_T, BYTE_LOWER_Y],
                ok <==> forall|k: int| 0 <= k < i ==> ascii_lower(body@[k]) == word@[k],
        {
            let l = ascii_lower_byte(body[i]);
            if l != word[i] {
                ok = false;
            }
        }
        ok
    } else {
        false
    }
}

/// Executable test for [`is_exponent`].
fn is_exponent_bytes(s: &[u8], i: usize) -> (r: bool)
    requires
        i <= s@.len(),
    ensures
        r == is_exponent(s@, i as int),
{
    if i < s.len() && (s[i] == BYTE_LOWER_E || s[i] == BYTE_UPPER_E) {
        let j = if i + 1 < s.len() && (s[i + 1] == BYTE_PLUS || s[i + 1] == BYTE_MINUS) {
            i + 2
        } else {
            i + 1
        };
        let d = scan_digits(s, j);
        d > j && d == s.len()
    } else {
        false
    }
}

/// Executable test for [`is_float_literal`].
pub fn is_float_literal_bytes(t: &[u8]) -> (r: bool)
    ensures
        r == is_float_literal(t@),
{
    let start: usize = if t.len() > 0 && (t[0] == BYTE_PLUS || t[0] == BYTE_MINUS) {
        1
    } else {
        0
    };
    let body = vstd::slice::slice_subrange(t, start, t.len());
    proof {
        if start == 1 {
            assert(body@ =~= t@.drop_first());
        } else {
            assert(body@ =~= t@);
        }
    }
    if is_special_float_bytes(body) {
        return true;
    }
    let d1 = scan_digits(body, 0);
    if d1 > 0 {
        let d2 = if d1 < body.len() && body[d1] == BYTE_DOT {
            scan_digits(body, d1 + 1)
        } else {
            d1
        };
        d2 == body.len() || is_exponent_bytes(body, d2)
    } else if body.len() > 0 && body[0] == BYTE_DOT {
        let d2 = scan_digits(body, 1);
        d2 > 1 && (d2 == body.len() || is_exponent_bytes(body, d2))
    } else {
        false
    }
}

/// `t` with one leading quote byte removed, if it has one; the rule that
/// turns a raw tag token into the tag.
pub open spec fn strip_quote(t: Seq<u8>) -> Seq<u8> {
    if t.len() > 0 && t[0] == BYTE_QUOTE {
        t.drop_first()
    } else {
        t
    }
}

/// Removes one leading quote byte, if present.
pub fn strip_quote_bytes(t: &Vec<u8>) -> (r: Vec<u8>)
    ensures
        r@ == strip_quote(t@),
{
    if t.len() > 0 && t[0] == BYTE_QUOTE {
        let r = vstd::slice::slice_to_vec(vstd::slice::slice_subrange(t.as_slice(), 1, t.len()));
        proof {
            assert(r@ =~= t@.drop_first());
        }
        r
    } else {
        let r = vstd::slice::slice_to_vec(t.as_slice());
        r
    }
}

} // verus!
