//! Character-level text helpers shared by the parsers and formatters:
//! Unicode whitespace, trimming, string equality and decimal rendering.

use vstd::prelude::*;
use vstd::std_specs::iter::IteratorSpec;
use vstd::string::StrSliceExecFns;

verus! {

/// Unicode `White_Space` property, as `char::is_whitespace` defines it.
pub open spec fn is_ws(c: char) -> bool {
    ||| ('\u{9}' <= c && c <= '\u{d}')
    ||| c == ' '
    ||| c == '\u{85}'
    ||| c == '\u{a0}'
    ||| c == '\u{1680}'
    ||| ('\u{2000}' <= c && c <= '\u{200a}')
    ||| c == '\u{2028}'
    ||| c == '\u{2029}'
    ||| c == '\u{202f}'
    ||| c == '\u{205f}'
    ||| c == '\u{3000}'
}

/// `s` without its leading whitespace.
pub open spec fn trim_start(s: Seq<char>) -> Seq<char>
    decreases s.len(),
{
    if s.len() > 0 && is_ws(s[0]) {
        trim_start(s.drop_first())
    } else {
        s
    }
}

/// `s` without its trailing whitespace.
pub open spec fn trim_end(s: Seq<char>) -> Seq<char>
    decreases s.len(),
{
    if s.len() > 0 && is_ws(s.last()) {
        trim_end(s.drop_last())
    } else {
        s
    }
}

/// `s` without leading and trailing whitespace (what `str::trim` returns).
pub open spec fn trim(s: Seq<char>) -> Seq<char> {
    trim_end(trim_start(s))
}

/// Whether `c` is Unicode whitespace.
pub fn is_whitespace(c: char) -> (r: bool)
    ensures
        r == is_ws(c),
{
    ('\u{9}' <= c && c <= '\u{d}') || c == ' ' || c == '\u{85}' || c == '\u{a0}' || c
        == '\u{1680}' || ('\u{2000}' <= c && c <= '\u{200a}') || c == '\u{2028}' || c
        == '\u{2029}' || c == '\u{202f}' || c == '\u{205f}' || c == '\u{3000}'
}

proof fn lemma_trim_start_step(s: Seq<char>, i: int)
    requires
        0 <= i < s.len(),
        is_ws(s[i]),
    ensures
        trim_start(s.subrange(i, s.len() as int)) == trim_start(s.subrange(i + 1, s.len() as int)),
{
    assert(s.subrange(i, s.len() as int).drop_first() =~= s.subrange(i + 1, s.len() as int));
}

proof fn lemma_trim_end_step(s: Seq<char>, j: int)
    requires
        0 < j <= s.len(),
        is_ws(s[j - 1]),
    ensures
        trim_end(s.subrange(0, j)) == trim_end(s.subrange(0, j - 1)),
{
    assert(s.subrange(0, j).drop_last() =~= s.subrange(0, j - 1));
}

/// `s` with leading and trailing Unicode whitespace removed.
pub fn trim_str(s: &str) -> (r: &str)
    ensures
        r@ == trim(s@),
{
    let n = s.unicode_len();
    let mut i: usize = 0;
    assert(s@.subrange(0, n as int) =~= s@);
    while i < n && is_whitespace(s.get_char(i))
        invariant
            n == s@.len(),
            i <= n,
            trim_start(s@) == trim_start(s@.subrange(i as int, n as int)),
        decreases n - i,
    {
        proof {
            lemma_trim_start_step(s@, i as int);
        }
        i = i + 1;
    }
    let ghost t = s@.subrange(i as int, n as int);
    assert(trim_start(t) == t) by {
        if t.len() > 0 {
            assert(t[0] == s@[i as int]);
        }
    }
    let mut j: usize = n;
    assert(t.subrange(0, j - i) =~= t);
    while j > i && is_whitespace(s.get_char(j - 1))
        invariant
            n == s@.len(),
            i <= j <= n,
            t == s@.subrange(i as int, n as int),
            trim_end(t) == trim_end(t.subrange(0, j - i)),
        decreases j,
    {
        proof {
            assert(t[j - i - 1] == s@[j - 1]);
            lemma_trim_end_step(t, (j - i) as int);
        }
        j = j - 1;
    }
    let ghost u = t.subrange(0, j - i);
    assert(trim_end(u) == u) by {
        if u.len() > 0 {
            assert(u.last() == s@[j - 1]);
        }
    }
    let r = s.substring_char(i, j);
    assert(r@ =~= u);
    r
}

/// Whether the two strings hold the same characters, compared one by one.
pub(crate) fn str_eq(a: &str, b: &str) -> (r: bool)
    ensures
        r == (a@ == b@),
{
    let mut ia = a.chars();
    let mut ib = b.chars();
    let ghost mut k: int = 0;
    loop
        invariant
            0 <= k <= a@.len(),
            k <= b@.len(),
            ia.remaining() == a@.skip(k),
            ib.remaining() == b@.skip(k),
            a@.take(k) == b@.take(k),
            ia.obeys_prophetic_iter_laws(),
            ib.obeys_prophetic_iter_laws(),
        decreases a@.len() - k,
    {
        let x = ia.next();
        let y = ib.next();
        match (x, y) {
            (Some(cx), Some(cy)) => {
                proof {
                    assert(a@.skip(k)[0] == cx);
                    assert(b@.skip(k)[0] == cy);
                    assert(a@[k] == cx && b@[k] == cy);
                }
                if cx != cy {
                    return false;
                }
                proof {
                    assert(a@.take(k + 1) =~= a@.take(k).push(cx));
                    assert(b@.take(k + 1) =~= b@.take(k).push(cy));
                    assert(a@.skip(k + 1) =~= a@.skip(k).drop_first());
                    assert(b@.skip(k + 1) =~= b@.skip(k).drop_first());
                    k = k + 1;
                }
            },
            (None, None) => {
                proof {
                    assert(a@.take(k) =~= a@);
                    assert(b@.take(k) =~= b@);
                }
                return true;
            },
            (Some(cx), None) => {
                proof {
                    assert(a@.skip(k)[0] == cx);
                }
                return false;
            },
            (None, Some(cy)) => {
                proof {
                    assert(b@.skip(k)[0] == cy);
                }
                return false;
            },
        }
    }
}

/// Appends one character (std's `String::push`).
#[verifier::external_body]
pub(crate) fn push_char(s: &mut String, c: char)
    ensures
        final(s)@ == old(s)@.push(c),
{
    s.push(c)
}

/// The ASCII digit for `d`.
pub open spec fn digit_char(d: nat) -> char {
    if d == 0 { '0' }
    else if d == 1 { '1' }
    else if d == 2 { '2' }
    else if d == 3 { '3' }
    else if d == 4 { '4' }
    else if d == 5 { '5' }
    else if d == 6 { '6' }
    else if d == 7 { '7' }
    else if d == 8 { '8' }
    else { '9' }
}

/// Decimal rendering of `n`, without sign or leading zeros.
pub open spec fn dec(n: nat) -> Seq<char>
    decreases n,
{
    if n < 10 {
        seq![digit_char(n)]
    } else {
        dec(n / 10).push(digit_char(n % 10))
    }
}

/// Decimal rendering of a signed integer, as `{}` formats it.
pub open spec fn dec_int(n: int) -> Seq<char> {
    if n < 0 { seq!['-'] + dec((-n) as nat) } else { dec(n as nat) }
}

/// Decimal rendering of `n`, padded on the left with zeros to two digits.
pub open spec fn dec2(n: nat) -> Seq<char> {
    if n < 10 { seq!['0'] + dec(n) } else { dec(n) }
}

fn digit(d: u64) -> (c: char)
    requires
        d < 10,
    ensures
        c == digit_char(d as nat),
{
    if d == 0 { '0' }
    else if d == 1 { '1' }
    else if d == 2 { '2' }
    else if d == 3 { '3' }
    else if d == 4 { '4' }
    else if d == 5 { '5' }
    else if d == 6 { '6' }
    else if d == 7 { '7' }
    else if d == 8 { '8' }
    else { '9' }
}

/// Appends the decimal rendering of `n` to `out`.
pub fn push_decimal(out: &mut String, n: u64)
    ensures
        final(out)@ == old(out)@ + dec(n as nat),
    decreases n,
{
    if n >= 10 {
        push_decimal(out, n / 10);
    }
    push_char(out, digit(n % 10));
    assert(out@ =~= old(out)@ + dec(n as nat));
}

/// Appends the decimal rendering of the signed `n` to `out`.
pub fn push_decimal_i64(out: &mut String, n: i64)
    ensures
        final(out)@ == old(out)@ + dec_int(n as int),
{
    if n < 0 {
        push_char(out, '-');
        let m: u64 = if n == i64::MIN {
            9223372036854775808u64
        } else {
            (-n) as u64
        };
        push_decimal(out, m);
        assert(out@ =~= old(out)@ + dec_int(n as int));
    } else {
        push_decimal(out, n as u64);
    }
}

/// Appends `n` rendered with at least two digits.
pub fn push_decimal2(out: &mut String, n: u64)
    ensures
        final(out)@ == old(out)@ + dec2(n as nat),
{
    if n < 10 {
        push_char(out, '0');
    }
    push_decimal(out, n);
    assert(out@ =~= old(out)@ + dec2(n as nat));
}

}

verus! {

/// The characters of `s`, in order.
pub fn str_to_chars(s: &str) -> (r: Vec<char>)
    ensures
        r@ == s@,
{
    let mut out: Vec<char> = Vec::new();
    let mut it = s.chars();
    loop
        invariant
            it.remaining() == s@.skip(out@.len() as int),
            out@ == s@.take(out@.len() as int),
            out@.len() <= s@.len(),
            it.obeys_prophetic_iter_laws(),
        decreases s@.len() - out@.len(),
    {
        match it.next() {
            Some(c) => {
                proof {
                    assert(s@.skip(out@.len() as int)[0] == c);
                    assert(s@.take(out@.len() as int + 1) =~= s@.take(out@.len() as int).push(c));
                    assert(s@.skip(out@.len() as int + 1) =~= s@.skip(out@.len() as int).drop_first());
                }
                out.push(c);
            },
            None => {
                proof {
                    assert(s@.take(out@.len() as int) =~= s@);
                }
                return out;
            },
        }
    }
}

/// The string holding exactly `chars[a..b]`.
pub fn string_from_range(chars: &Vec<char>, a: usize, b: usize) -> (r: String)
    requires
        a <= b <= chars@.len(),
    ensures
        r@ == chars@.subrange(a as int, b as int),
{
    let mut out = String::new();
    let mut i = a;
    while i < b
        invariant
            a <= i <= b <= chars@.len(),
            out@ == chars@.subrange(a as int, i as int),
        decreases b - i,
    {
        push_char(&mut out, chars[i]);
        assert(out@ =~= chars@.subrange(a as int, i + 1));
        i = i + 1;
    }
    out
}

} // verus!

verus! {

proof fn lemma_trim_start_sub(s: Seq<char>, a: int, i: int, b: int)
    requires
        0 <= a <= i < b <= s.len(),
        is_ws(s[i]),
    ensures
        trim_start(s.subrange(i, b)) == trim_start(s.subrange(i + 1, b)),
{
    assert(s.subrange(i, b).drop_first() =~= s.subrange(i + 1, b));
}

proof fn lemma_trim_end_sub(s: Seq<char>, a: int, j: int)
    requires
        0 <= a < j <= s.len(),
        is_ws(s[j - 1]),
    ensures
        trim_end(s.subrange(a, j)) == trim_end(s.subrange(a, j - 1)),
{
    assert(s.subrange(a, j).drop_last() =~= s.subrange(a, j - 1));
}

/// Bounds of the trimmed part of `chars[a..b]`.
pub fn trim_range(chars: &Vec<char>, a: usize, b: usize) -> (r: (usize, usize))
    requires
        a <= b <= chars@.len(),
    ensures
        a <= r.0 <= r.1 <= b,
        chars@.subrange(r.0 as int, r.1 as int) == trim(chars@.subrange(a as int, b as int)),
{
    let mut i = a;
    while i < b && is_whitespace(chars[i])
        invariant
            a <= i <= b <= chars@.len(),
            trim_start(chars@.subrange(a as int, b as int)) == trim_start(
                chars@.subrange(i as int, b as int),
            ),
        decreases b - i,
    {
        proof {
            lemma_trim_start_sub(chars@, a as int, i as int, b as int);
        }
        i = i + 1;
    }
    let ghost t = chars@.subrange(i as int, b as int);
    assert(trim_start(t) == t) by {
        if t.len() > 0 {
            assert(t[0] == chars@[i as int]);
        }
    }
    let mut j = b;
    while j > i && is_whitespace(chars[j - 1])
        invariant
            a <= i <= j <= b <= chars@.len(),
            t == chars@.subrange(i as int, b as int),
            trim_end(t) == trim_end(chars@.subrange(i as int, j as int)),
        decreases j,
    {
        proof {
            lemma_trim_end_sub(chars@, i as int, j as int);
        }
        j = j - 1;
    }
    let ghost u = chars@.subrange(i as int, j as int);
    assert(trim_end(u) == u) by {
        if u.len() > 0 {
            assert(u.last() == chars@[j - 1]);
        }
    }
    (i, j)
}

/// A text trims to nothing exactly when all its characters are whitespace.
pub proof fn lemma_trim_empty_iff_all_ws(s: Seq<char>)
    ensures
        (trim(s).len() == 0) == (forall|i: int| 0 <= i < s.len() ==> is_ws(#[trigger] s[i])),
    decreases s.len(),
{
    if s.len() > 0 {
        lemma_trim_empty_iff_all_ws(s.drop_first());
        if is_ws(s[0]) {
            assert(trim(s) == trim(s.drop_first()));
            if forall|i: int| 0 <= i < s.drop_first().len() ==> is_ws(#[trigger] s.drop_first()[i]) {
                assert forall|i: int| 0 <= i < s.len() implies is_ws(#[trigger] s[i]) by {
                    if i > 0 {
                        assert(s[i] == s.drop_first()[i - 1]);
                    }
                }
            } else {
                let i = choose|i: int|
                    0 <= i < s.drop_first().len() && !is_ws(#[trigger] s.drop_first()[i]);
                assert(s[i + 1] == s.drop_first()[i]);
            }
        } else {
            assert(trim_start(s) == s);
            lemma_trim_end_keeps_head(s);
        }
    }
}

/// Trimming the end of a text whose first character is not whitespace
/// leaves it non-empty.
proof fn lemma_trim_end_keeps_head(s: Seq<char>)
    requires
        s.len() > 0,
        !is_ws(s[0]),
    ensures
        trim_end(s).len() > 0,
    decreases s.len(),
{
    if is_ws(s.last()) {
        assert(s.len() > 1);
        assert(s.drop_last()[0] == s[0]);
        lemma_trim_end_keeps_head(s.drop_last());
    }
}

} // verus!
