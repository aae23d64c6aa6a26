//! Splitting text into lines and whitespace-separated words, and reading
//! unsigned decimal numbers.
use vstd::prelude::*;

use crate::decimal::{decimal, digit_char};

verus! {

/// Unicode white space, as `char::is_whitespace` counts it.
pub open spec fn is_ws(c: char) -> bool {
    ||| c == ' ' || c == '\t' || c == '\n' || c == '\u{0B}' || c == '\u{0C}' || c == '\r'
    ||| c == '\u{85}' || c == '\u{A0}' || c == '\u{1680}'
    ||| ('\u{2000}' <= c && c <= '\u{200A}')
    ||| c == '\u{2028}' || c == '\u{2029}' || c == '\u{202F}' || c == '\u{205F}' || c == '\u{3000}'
}

fn is_whitespace(c: char) -> (r: bool)
    ensures
        r == is_ws(c),
{
    c == ' ' || c == '\t' || c == '\n' || c == '\u{0B}' || c == '\u{0C}' || c == '\r' || c == '\u{85}'
        || c == '\u{A0}' || c == '\u{1680}' || ('\u{2000}' <= c && c <= '\u{200A}') || c == '\u{2028}'
        || c == '\u{2029}' || c == '\u{202F}' || c == '\u{205F}' || c == '\u{3000}'
}

/// The pieces of `s` between newline characters: one more than there are
/// newlines (so a text ending in a newline ends with an empty piece).
pub open spec fn segments(s: Seq<char>) -> Seq<Seq<char>>
    decreases s.len(),
{
    if s.len() == 0 {
        seq![Seq::empty()]
    } else {
        let p = segments(s.drop_last());
        if s.last() == '\n' {
            p.push(Seq::empty())
        } else {
            p.update(p.len() - 1, p.last().push(s.last()))
        }
    }
}

/// The maximal runs of non-white-space characters of `s`, in order.
pub open spec fn words(s: Seq<char>) -> Seq<Seq<char>>
    decreases s.len(),
{
    if s.len() == 0 {
        Seq::empty()
    } else {
        let p = words(s.drop_last());
        if is_ws(s.last()) {
            p
        } else if s.len() >= 2 && !is_ws(s[s.len() - 2]) {
            p.update(p.len() - 1, p.last().push(s.last()))
        } else {
            p.push(seq![s.last()])
        }
    }
}

/// The value of a digit character.
pub open spec fn digit_value(c: char) -> nat {
    ((c as u32) - ('0' as u32)) as nat
}

/// Whether `c` is an ASCII digit.
pub open spec fn is_digit(c: char) -> bool {
    '0' <= c && c <= '9'
}

/// The number the digits of `d` stand for.
pub open spec fn digits_value(d: Seq<char>) -> nat
    decreases d.len(),
{
    if d.len() == 0 {
        0
    } else {
        digits_value(d.drop_last()) * 10 + digit_value(d.last())
    }
}

/// `w` without a leading `+`.
pub open spec fn unsigned_digits(w: Seq<char>) -> Seq<char> {
    if w.len() > 0 && w[0] == '+' {
        w.drop_first()
    } else {
        w
    }
}

/// What `str::parse::<u64>` gives: an optional `+` then one or more ASCII digits
/// whose value fits in 64 bits; anything else is refused.
pub open spec fn parse_u64(w: Seq<char>) -> Option<u64> {
    let d = unsigned_digits(w);
    if d.len() == 0 || exists|i: int| 0 <= i < d.len() && !is_digit(#[trigger] d[i]) {
        None
    } else if digits_value(d) > u64::MAX {
        None
    } else {
        Some(digits_value(d) as u64)
    }
}

/// The characters of `s`.
pub fn chars_of(s: &str) -> (v: Vec<char>)
    ensures
        v@ == s@,
{
    let n = s.unicode_len();
    let mut v: Vec<char> = Vec::new();
    let mut i: usize = 0;
    while i < n
        invariant
            n == s@.len(),
            i <= n,
            v@ == s@.take(i as int),
        decreases n - i,
    {
        v.push(s.get_char(i));
        i = i + 1;
        assert(v@ =~= s@.take(i as int));
    }
    assert(s@.take(n as int) =~= s@);
    v
}

proof fn lemma_segments_nonempty(s: Seq<char>)
    ensures
        segments(s).len() >= 1,
    decreases s.len(),
{
    if s.len() > 0 {
        lemma_segments_nonempty(s.drop_last());
    }
}

/// The pieces of `s` between newline characters (see [`segments`]).
pub fn split_lines(s: &str) -> (lines: Vec<String>)
    ensures
        lines@.map_values(|l: String| l@) == segments(s@),
        lines@.len() >= 1,
{
    proof {
        lemma_segments_nonempty(s@);
    }
    let v = chars_of(s);
    let n = v.len();
    let mut lines: Vec<String> = Vec::new();
    let mut start: usize = 0;
    let mut i: usize = 0;
    assert(s@.take(0) =~= Seq::<char>::empty());
    assert(lines@.map_values(|l: String| l@).push(s@.subrange(0, 0)) =~= seq![Seq::<char>::empty()]);
    while i < n
        invariant
            n == s@.len(),
            v@ == s@,
            start <= i <= n,
            lines@.map_values(|l: String| l@).push(s@.subrange(start as int, i as int)) == segments(s@.take(i as int)),
        decreases n - i,
    {
        let ghost before = lines@.map_values(|l: String| l@);
        let ghost p = segments(s@.take(i as int));
        assert(p == before.push(s@.subrange(start as int, i as int)));
        assert(s@.take(i + 1).drop_last() =~= s@.take(i as int));
        assert(s@.take(i + 1).last() == v@[i as int]);
        if v[i] == '\n' {
            let ghost old_start = start;
            let piece = String::from_str(s.substring_char(start, i));
            lines.push(piece);
            assert(lines@.map_values(|l: String| l@) =~= before.push(s@.subrange(old_start as int, i as int)));
            start = i + 1;
            i = i + 1;
            assert(segments(s@.take(i as int)) == p.push(Seq::<char>::empty()));
            assert(s@.subrange(start as int, i as int) =~= Seq::<char>::empty());
            assert(lines@.map_values(|l: String| l@).push(s@.subrange(start as int, i as int)) =~= segments(s@.take(i as int)));
        } else {
            assert(s@.subrange(start as int, i + 1) =~= s@.subrange(start as int, i as int).push(v@[i as int]));
            i = i + 1;
            assert(segments(s@.take(i as int)) == p.update(p.len() - 1, p.last().push(v@[i - 1])));
            assert(lines@.map_values(|l: String| l@).push(s@.subrange(start as int, i as int)) =~= segments(s@.take(i as int)));
        }
    }
    let last = String::from_str(s.substring_char(start, n));
    lines.push(last);
    assert(s@.take(n as int) =~= s@);
    assert(lines@.map_values(|l: String| l@) =~= segments(s@));
    lines
}

/// The whitespace-separated words of `s` (see [`words`]).
pub fn split_words(s: &str) -> (ws: Vec<String>)
    ensures
        ws@.map_values(|l: String| l@) == words(s@),
{
    let v = chars_of(s);
    let n = v.len();
    let mut ws: Vec<String> = Vec::new();
    let mut in_word = false;
    let mut start: usize = 0;
    let mut i: usize = 0;
    assert(s@.take(0) =~= Seq::<char>::empty());
    while i < n
        invariant
            n == s@.len(),
            v@ == s@,
            start <= i <= n,
            in_word <==> (i > 0 && !is_ws(s@[i - 1])),
            in_word ==> start < i,
            in_word ==> ws@.map_values(|l: String| l@).push(s@.subrange(start as int, i as int)) == words(s@.take(i as int)),
            !in_word ==> ws@.map_values(|l: String| l@) == words(s@.take(i as int)),
        decreases n - i,
    {
        let ghost before = ws@.map_values(|l: String| l@);
        let ghost p = words(s@.take(i as int));
        assert(s@.take(i + 1).drop_last() =~= s@.take(i as int));
        assert(s@.take(i + 1).last() == v@[i as int]);
        let c = v[i];
        if is_whitespace(c) {
            if in_word {
                let piece = String::from_str(s.substring_char(start, i));
                ws.push(piece);
                assert(ws@.map_values(|l: String| l@) =~= before.push(s@.subrange(start as int, i as int)));
                in_word = false;
            }
            i = i + 1;
            assert(words(s@.take(i as int)) == p);
        } else {
            if in_word {
                assert(s@.subrange(start as int, i + 1) =~= s@.subrange(start as int, i as int).push(c));
                i = i + 1;
                assert(s@.take(i as int)[i - 2] == s@[i - 2]);
                assert(words(s@.take(i as int)) == p.update(p.len() - 1, p.last().push(c)));
                assert(ws@.map_values(|l: String| l@).push(s@.subrange(start as int, i as int)) =~= words(s@.take(i as int)));
            } else {
                start = i;
                in_word = true;
                i = i + 1;
                assert(i >= 2 ==> s@.take(i as int)[i - 2] == s@[i - 2]);
                assert(words(s@.take(i as int)) == p.push(seq![c]));
                assert(s@.subrange(start as int, i as int) =~= seq![c]);
                assert(ws@.map_values(|l: String| l@).push(s@.subrange(start as int, i as int)) =~= words(s@.take(i as int)));
            }
        }
    }
    assert(s@.take(n as int) =~= s@);
    if in_word {
        let ghost before = ws@.map_values(|l: String| l@);
        let piece = String::from_str(s.substring_char(start, n));
        ws.push(piece);
        assert(ws@.map_values(|l: String| l@) =~= before.push(s@.subrange(start as int, n as int)));
    }
    ws
}

proof fn lemma_digits_monotone(d: Seq<char>, m: int)
    requires
        0 <= m <= d.len(),
    ensures
        digits_value(d) >= digits_value(d.take(m)),
    decreases d.len(),
{
    if m < d.len() {
        assert(d.drop_last().take(m) =~= d.take(m));
        lemma_digits_monotone(d.drop_last(), m);
    } else {
        assert(d.take(m) =~= d);
    }
}

/// Reads an unsigned decimal number as `str::parse::<u64>` does (see [`parse_u64`]).
pub fn parse_u64_text(w: &str) -> (r: Option<u64>)
    ensures
        r == parse_u64(w@),
{
    let v = chars_of(w);
    let n = v.len();
    let k: usize = if n > 0 && v[0] == '+' {
        1
    } else {
        0
    };
    let ghost d = unsigned_digits(w@);
    assert(d =~= w@.subrange(k as int, n as int));
    if k == n {
        return None;
    }
    let mut acc: u64 = 0;
    let mut j: usize = k;
    assert(d.take(0) =~= Seq::<char>::empty());
    while j < n
        invariant
            n == w@.len(),
            v@ == w@,
            k <= j <= n,
            d == w@.subrange(k as int, n as int),
            d == unsigned_digits(w@),
            acc == digits_value(d.take(j - k)),
            forall|q: int| 0 <= q < j - k ==> is_digit(#[trigger] d[q]),
        decreases n - j,
    {
        let c = v[j];
        assert(d[j - k] == c);
        if !('0' <= c && c <= '9') {
            assert(!is_digit(d[j - k]));
            assert(parse_u64(w@) is None);
            return None;
        }
        let dv = (c as u32 - '0' as u32) as u64;
        assert(d.take(j - k + 1).drop_last() =~= d.take(j - k));
        assert(digits_value(d.take(j - k + 1)) == acc * 10 + dv);
        if acc > (u64::MAX - dv) / 10 {
            proof {
                if forall|q: int| 0 <= q < d.len() ==> is_digit(#[trigger] d[q]) {
                    lemma_digits_monotone(d, j - k + 1);
                    assert(acc * 10 + dv > u64::MAX) by (nonlinear_arith)
                        requires
                            acc > (u64::MAX - dv) / 10,
                            dv <= 9,
                    ;
                }
            }
            assert(parse_u64(w@) is None);
            return None;
        }
        assert(acc * 10 + dv <= u64::MAX) by (nonlinear_arith)
            requires
                acc <= (u64::MAX - dv) / 10,
                dv <= 9,
        ;
        acc = acc * 10 + dv;
        j = j + 1;
    }
    assert(d.take(n - k) =~= d);
    Some(acc)
}

proof fn lemma_digit_char(d: nat)
    requires
        d < 10,
    ensures
        is_digit(digit_char(d)),
        digit_value(digit_char(d)) == d,
{
}

proof fn lemma_decimal_digits(n: nat)
    ensures
        decimal(n).len() >= 1,
        forall|i: int| 0 <= i < decimal(n).len() ==> is_digit(#[trigger] decimal(n)[i]),
        digits_value(decimal(n)) == n,
        decimal(n)[0] != '+',
    decreases n,
{
    lemma_digit_char(n % 10);
    if n < 10 {
        assert(n % 10 == n);
        assert(decimal(n).drop_last() =~= Seq::<char>::empty());
        assert(digits_value(Seq::<char>::empty()) == 0);
        assert(digits_value(decimal(n)) == digits_value(decimal(n).drop_last()) * 10 + digit_value(decimal(n).last()));
    }
    if n >= 10 {
        lemma_decimal_digits(n / 10);
        let p = decimal(n / 10);
        assert(n == (n / 10) * 10 + n % 10);
        assert(decimal(n) == p + seq![digit_char(n % 10)]);
        assert(decimal(n).drop_last() =~= p);
        assert(decimal(n).last() == digit_char(n % 10));
        assert(digits_value(decimal(n)) == digits_value(p) * 10 + digit_value(digit_char(n % 10)));
        assert forall|i: int| 0 <= i < decimal(n).len() implies is_digit(#[trigger] decimal(n)[i]) by {
            if i < p.len() {
                assert(decimal(n)[i] == p[i]);
            }
        }
    }
}

/// Reading back the decimal text of a number gives the number.
pub proof fn lemma_parse_decimal(n: u64)
    ensures
        parse_u64(decimal(n as nat)) == Some(n),
{
    lemma_decimal_digits(n as nat);
    assert(unsigned_digits(decimal(n as nat)) == decimal(n as nat));
}

} // verus!
