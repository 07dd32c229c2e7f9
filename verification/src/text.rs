//! Text utilities proved against sequence-level specifications: trimming
//! whitespace, parsing an unsigned number, character-wise string equality,
//! and rendering a number in decimal.

use vstd::prelude::*;
use vstd::string::StrSliceExecFns;
use vstd::string::StringExecFns;

verus! {

/// The characters with the Unicode `White_Space` property, which is what
/// `str::trim` removes at either end.
pub open spec fn is_space_char(c: char) -> bool {
    ||| c == ' '
    ||| c == '\t'
    ||| c == '\n'
    ||| c == '\u{b}'
    ||| c == '\u{c}'
    ||| c == '\r'
    ||| c == '\u{85}'
    ||| c == '\u{a0}'
    ||| c == '\u{1680}'
    ||| (0x2000 <= c as u32 && c as u32 <= 0x200a)
    ||| c == '\u{2028}'
    ||| c == '\u{2029}'
    ||| c == '\u{202f}'
    ||| c == '\u{205f}'
    ||| c == '\u{3000}'
}

pub open spec fn is_digit_char(c: char) -> bool {
    '0' as u32 <= c as u32 && c as u32 <= '9' as u32
}

pub open spec fn digit_val(c: char) -> int {
    c as u32 - '0' as u32
}

pub open spec fn all_digits(s: Seq<char>) -> bool {
    forall|i: int| 0 <= i < s.len() ==> is_digit_char(#[trigger] s[i])
}

/// The number denoted by a sequence of decimal digits, most significant first.
pub open spec fn digits_val(s: Seq<char>) -> int
    decreases s.len(),
{
    if s.len() == 0 {
        0
    } else {
        digits_val(s.drop_last()) * 10 + digit_val(s.last())
    }
}

pub open spec fn trim_start_spec(s: Seq<char>) -> Seq<char>
    decreases s.len(),
{
    if s.len() > 0 && is_space_char(s[0]) {
        trim_start_spec(s.drop_first())
    } else {
        s
    }
}

pub open spec fn trim_end_spec(s: Seq<char>) -> Seq<char>
    decreases s.len(),
{
    if s.len() > 0 && is_space_char(s.last()) {
        trim_end_spec(s.drop_last())
    } else {
        s
    }
}

/// What `str::trim` leaves: the input without its whitespace ends.
pub open spec fn trim_spec(s: Seq<char>) -> Seq<char> {
    trim_end_spec(trim_start_spec(s))
}

/// What `str::parse::<u32>` accepts: an optional leading `'+'`, then one or
/// more decimal digits whose value fits in `u32`.
pub open spec fn parse_u32_spec(s: Seq<char>) -> Option<u32> {
    let t = if s.len() > 0 && s[0] == '+' {
        s.drop_first()
    } else {
        s
    };
    if t.len() > 0 && all_digits(t) && digits_val(t) <= u32::MAX {
        Some(digits_val(t) as u32)
    } else {
        None
    }
}

/// Parsing after trimming, the combination the guessing game applies to a
/// raw input line.
pub open spec fn parse_trimmed_u32_spec(s: Seq<char>) -> Option<u32> {
    parse_u32_spec(trim_spec(s))
}

proof fn lemma_trim_start_shape(s: Seq<char>, i: int)
    requires
        0 <= i <= s.len(),
        forall|k: int| 0 <= k < i ==> is_space_char(#[trigger] s[k]),
        i == s.len() || !is_space_char(s[i]),
    ensures
        trim_start_spec(s) == s.subrange(i, s.len() as int),
    decreases s.len(),
{
    if i == 0 {
        assert(trim_start_spec(s) == s);
        assert(s.subrange(0, s.len() as int) =~= s);
    } else {
        assert(is_space_char(s[0]));
        let d = s.drop_first();
        assert(forall|k: int| 0 <= k < i - 1 ==> is_space_char(#[trigger] d[k]));
        assert(i - 1 == d.len() || !is_space_char(d[i - 1]));
        lemma_trim_start_shape(d, i - 1);
        assert(d.subrange(i - 1, d.len() as int) =~= s.subrange(i, s.len() as int));
    }
}

proof fn lemma_trim_end_shape(s: Seq<char>, j: int)
    requires
        0 <= j <= s.len(),
        forall|k: int| j <= k < s.len() ==> is_space_char(#[trigger] s[k]),
        j == 0 || !is_space_char(s[j - 1]),
    ensures
        trim_end_spec(s) == s.subrange(0, j),
    decreases s.len(),
{
    if j == s.len() {
        if s.len() == 0 {
            assert(s.subrange(0, 0) =~= s);
        } else {
            assert(!is_space_char(s.last()));
            assert(s.subrange(0, s.len() as int) =~= s);
        }
    } else {
        assert(is_space_char(s.last()));
        let d = s.drop_last();
        assert(forall|k: int| j <= k < d.len() ==> is_space_char(#[trigger] d[k]));
        lemma_trim_end_shape(d, j);
        assert(d.subrange(0, j) =~= s.subrange(0, j));
    }
}

proof fn lemma_digits_val_push(s: Seq<char>, c: char)
    ensures
        digits_val(s.push(c)) == digits_val(s) * 10 + digit_val(c),
{
    assert(s.push(c).drop_last() =~= s);
    assert(s.push(c).last() == c);
}

proof fn lemma_digits_val_nonneg(s: Seq<char>)
    requires
        all_digits(s),
    ensures
        digits_val(s) >= 0,
    decreases s.len(),
{
    if s.len() > 0 {
        let d = s.drop_last();
        assert(forall|i: int| 0 <= i < d.len() ==> is_digit_char(#[trigger] d[i]));
        lemma_digits_val_nonneg(d);
        assert(is_digit_char(s.last()));
    }
}

pub fn is_space(c: char) -> (b: bool)
    ensures
        b == is_space_char(c),
{
    let u = c as u32;
    c == ' ' || c == '\t' || c == '\n' || c == '\u{b}' || c == '\u{c}' || c == '\r'
        || c == '\u{85}' || c == '\u{a0}' || c == '\u{1680}' || (0x2000 <= u && u <= 0x200a)
        || c == '\u{2028}' || c == '\u{2029}' || c == '\u{202f}' || c == '\u{205f}'
        || c == '\u{3000}'
}

pub fn is_digit(c: char) -> (b: bool)
    ensures
        b == is_digit_char(c),
{
    let u = c as u32;
    48 <= u && u <= 57
}

/// Trims the input and parses it as a `u32`, exactly as
/// `s.trim().parse::<u32>().ok()` would.
pub fn parse_trimmed_u32(s: &str) -> (r: Option<u32>)
    ensures
        r == parse_trimmed_u32_spec(s@),
{
    let n = s.unicode_len();
    let mut lo: usize = 0;
    while lo < n && is_space(s.get_char(lo))
        invariant
            0 <= lo <= n,
            n == s@.len(),
            forall|k: int| 0 <= k < lo ==> is_space_char(#[trigger] s@[k]),
        decreases n - lo,
    {
        lo += 1;
    }
    let mut hi: usize = n;
    while hi > lo && is_space(s.get_char(hi - 1))
        invariant
            lo <= hi <= n,
            n == s@.len(),
            forall|k: int| 0 <= k < lo ==> is_space_char(#[trigger] s@[k]),
            lo == n || !is_space_char(s@[lo as int]),
            forall|k: int| hi <= k < n ==> is_space_char(#[trigger] s@[k]),
        decreases hi,
    {
        hi -= 1;
    }
    let ghost t = s@.subrange(lo as int, hi as int);
    proof {
        lemma_trim_start_shape(s@, lo as int);
        let u = s@.subrange(lo as int, s@.len() as int);
        lemma_trim_end_shape(u, hi - lo);
        assert(u.subrange(0, hi - lo) =~= t);
        assert(trim_spec(s@) == t);
    }
    if hi == lo {
        return None;
    }
    let start: usize = if s.get_char(lo) == '+' {
        lo + 1
    } else {
        lo
    };
    let ghost d = s@.subrange(start as int, hi as int);
    proof {
        if t[0] == '+' {
            assert(t.drop_first() =~= d);
        } else {
            assert(t =~= d);
        }
    }
    if start == hi {
        // the input was a bare sign
        return None;
    }
    let mut v: u64 = 0;
    let mut over: bool = false;
    let mut j: usize = start;
    while j < hi
        invariant
            start <= j <= hi <= n,
            n == s@.len(),
            start < hi,
            t == trim_spec(s@),
            t == s@.subrange(lo as int, hi as int),
            lo <= start,
            d == (if t[0] == '+' {
                t.drop_first()
            } else {
                t
            }),
            d == s@.subrange(start as int, hi as int),
            forall|k: int| 0 <= k < j - start ==> is_digit_char(#[trigger] d[k]),
            !over ==> v == digits_val(d.subrange(0, j - start)) && v <= u32::MAX,
            over ==> digits_val(d.subrange(0, j - start)) > u32::MAX,
        decreases hi - j,
    {
        let c = s.get_char(j);
        assert(c == d[j - start]);
        if !is_digit(c) {
            proof {
                assert(!all_digits(d));
            }
            return None;
        }
        let dv: u64 = (c as u32 - 48) as u64;
        let ghost prev = d.subrange(0, j - start);
        proof {
            assert(d.subrange(0, j + 1 - start) =~= prev.push(d[j - start]));
            lemma_digits_val_push(prev, d[j - start]);
        }
        if !over {
            v = v * 10 + dv;
            if v > u32::MAX as u64 {
                over = true;
            }
        } else {
            proof {
                assert(digits_val(prev) * 10 + digit_val(d[j - start]) > u32::MAX) by (nonlinear_arith)
                    requires
                        digits_val(prev) > u32::MAX,
                        digit_val(d[j - start]) >= 0,
                ;
            }
        }
        j += 1;
    }
    proof {
        assert(d.subrange(0, hi - start) =~= d);
    }
    if over {
        None
    } else {
        proof {
            lemma_digits_val_nonneg(d);
        }
        Some(v as u32)
    }
}

/// Character-wise equality of two string slices.
pub fn str_eq(a: &str, b: &str) -> (r: bool)
    ensures
        r == (a@ == b@),
{
    let an = a.unicode_len();
    let bn = b.unicode_len();
    if an != bn {
        proof {
            assert(a@.len() != b@.len());
        }
        return false;
    }
    let mut i: usize = 0;
    while i < an
        invariant
            0 <= i <= an,
            an == a@.len(),
            an == b@.len(),
            forall|k: int| 0 <= k < i ==> a@[k] == b@[k],
        decreases an - i,
    {
        if a.get_char(i) != b.get_char(i) {
            proof {
                assert(a@[i as int] != b@[i as int]);
            }
            return false;
        }
        i += 1;
    }
    proof {
        assert(a@ =~= b@);
    }
    true
}

pub open spec fn char_of_digit(d: int) -> char {
    if d == 0 {
        '0'
    } else if d == 1 {
        '1'
    } else if d == 2 {
        '2'
    } else if d == 3 {
        '3'
    } else if d == 4 {
        '4'
    } else if d == 5 {
        '5'
    } else if d == 6 {
        '6'
    } else if d == 7 {
        '7'
    } else if d == 8 {
        '8'
    } else {
        '9'
    }
}

/// The decimal rendering of a nonnegative number, without leading zeros
/// (except for the number zero itself).
pub open spec fn dec_str(n: int) -> Seq<char>
    decreases n,
{
    if n < 10 {
        seq![char_of_digit(n)]
    } else {
        dec_str(n / 10).push(char_of_digit(n % 10))
    }
}

fn digit_str(d: u32) -> (s: &'static str)
    requires
        d < 10,
    ensures
        s@ == seq![char_of_digit(d as int)],
{
    proof {
        reveal_strlit("0");
        reveal_strlit("1");
        reveal_strlit("2");
        reveal_strlit("3");
        reveal_strlit("4");
        reveal_strlit("5");
        reveal_strlit("6");
        reveal_strlit("7");
        reveal_strlit("8");
        reveal_strlit("9");
    }
    let s = match d {
        0 => "0",
        1 => "1",
        2 => "2",
        3 => "3",
        4 => "4",
        5 => "5",
        6 => "6",
        7 => "7",
        8 => "8",
        _ => "9",
    };
    proof {
        assert(s@ =~= seq![char_of_digit(d as int)]);
    }
    s
}

/// The characters of a digit list held least significant first, read back
/// most significant first.
pub open spec fn rev_chars(r: Seq<u32>) -> Seq<char> {
    Seq::new(r.len(), |i: int| char_of_digit(r[r.len() - 1 - i] as int))
}

/// Renders a number in decimal, as `format!("{}", n)` would.
pub fn u32_to_string(n: u32) -> (s: String)
    ensures
        s@ == dec_str(n as int),
{
    let mut rev: Vec<u32> = Vec::new();
    let mut m = n;
    while m >= 10
        invariant
            dec_str(n as int) == dec_str(m as int) + rev_chars(rev@),
            forall|k: int| 0 <= k < rev@.len() ==> #[trigger] rev@[k] < 10,
        decreases m,
    {
        let dg = m % 10;
        let next = m / 10;
        rev.push(dg);
        proof {
            assert(dec_str(m as int) == dec_str(next as int).push(char_of_digit(dg as int)));
            assert(rev_chars(rev@) =~= seq![char_of_digit(dg as int)] + rev_chars(
                rev@.drop_last(),
            ));
            assert(dec_str(next as int).push(char_of_digit(dg as int)) =~= dec_str(next as int)
                + seq![char_of_digit(dg as int)]);
            assert(dec_str(next as int) + seq![char_of_digit(dg as int)] + rev_chars(
                rev@.drop_last(),
            ) =~= dec_str(next as int) + (seq![char_of_digit(dg as int)] + rev_chars(
                rev@.drop_last(),
            )));
        }
        m = next;
    }
    rev.push(m);
    proof {
        assert(dec_str(m as int) == seq![char_of_digit(m as int)]);
        assert(rev_chars(rev@) =~= seq![char_of_digit(m as int)] + rev_chars(rev@.drop_last()));
        assert(dec_str(m as int) + rev_chars(rev@.drop_last()) =~= rev_chars(rev@));
        assert(dec_str(n as int) == rev_chars(rev@));
    }
    let mut s = String::new();
    let ghost out = rev_chars(rev@);
    let len = rev.len();
    let mut i = len;
    while i > 0
        invariant
            i <= len,
            len == rev@.len(),
            out == rev_chars(rev@),
            forall|k: int| 0 <= k < rev@.len() ==> #[trigger] rev@[k] < 10,
            s@ == out.subrange(0, len - i),
        decreases i,
    {
        i -= 1;
        let ghost pos = len - 1 - i;
        proof {
            assert(out[pos] == char_of_digit(rev@[i as int] as int));
            assert(out.subrange(0, pos + 1) =~= out.subrange(0, pos) + seq![out[pos]]);
        }
        s.append(digit_str(rev[i]));
    }
    proof {
        assert(out.subrange(0, len as int) =~= out);
    }
    s
}

/// A decimal rendering is nonempty, consists of digits alone, and denotes
/// the number it was made from.
pub proof fn lemma_dec_str_digits(n: int)
    requires
        n >= 0,
    ensures
        dec_str(n).len() > 0,
        all_digits(dec_str(n)),
        digits_val(dec_str(n)) == n,
    decreases n,
{
    if n < 10 {
        assert(is_digit_char(char_of_digit(n)));
        let s = seq![char_of_digit(n)];
        assert(s.drop_last() =~= Seq::<char>::empty());
        assert(digits_val(s) == digits_val(s.drop_last()) * 10 + digit_val(s.last()));
        assert(digits_val(s.drop_last()) == 0);
    } else {
        let q = n / 10;
        let r = n % 10;
        vstd::arithmetic::div_mod::lemma_fundamental_div_mod(n, 10);
        lemma_dec_str_digits(q);
        assert(is_digit_char(char_of_digit(r)));
        lemma_digits_val_push(dec_str(q), char_of_digit(r));
        assert(forall|i: int|
            0 <= i < dec_str(n).len() ==> is_digit_char(#[trigger] dec_str(n)[i]));
    }
}

/// Rendering a number and parsing the rendering round-trips exactly.
pub proof fn lemma_parse_of_dec_str(n: u32)
    ensures
        parse_trimmed_u32_spec(dec_str(n as int)) == Some(n),
{
    let s = dec_str(n as int);
    lemma_dec_str_digits(n as int);
    assert(!is_space_char(s[0]));
    assert(!is_space_char(s.last()));
    assert(trim_start_spec(s) == s);
    assert(trim_end_spec(s) == s);
    assert(s[0] != '+');
}

/// The decimal rendering of a signed number: a minus sign and the
/// magnitude.
pub open spec fn dec_str_i32(n: int) -> Seq<char> {
    if n < 0 {
        seq!['-'] + dec_str(-n)
    } else {
        dec_str(n)
    }
}

/// Renders a signed number in decimal, as `format!("{}", n)` would.
pub fn i32_to_string(n: i32) -> (s: String)
    ensures
        s@ == dec_str_i32(n as int),
{
    if n >= 0 {
        u32_to_string(n as u32)
    } else {
        let mag: u32 = (-(n as i64)) as u32;
        let mut s = String::from_str("-");
        proof {
            reveal_strlit("-");
        }
        s.append(u32_to_string(mag).as_str());
        proof {
            assert(s@ =~= dec_str_i32(n as int));
        }
        s
    }
}

} // verus!
