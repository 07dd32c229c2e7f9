//! Small free-standing routines from the demo collection: checked division,
//! parity, the largest element of a slice, and two string-borrowing helpers.

use vstd::prelude::*;
use vstd::string::StrSliceExecFns;

verus! {

pub open spec fn abs_int(a: int) -> int {
    if a < 0 {
        -a
    } else {
        a
    }
}

/// Division rounding toward zero, which is what `/` does on machine
/// integers.
pub open spec fn trunc_div(a: int, b: int) -> int {
    if (a < 0) == (b < 0) {
        abs_int(a) / abs_int(b)
    } else {
        -(abs_int(a) / abs_int(b))
    }
}

/// Divides, reporting a zero divisor as an error. The one quotient that
/// does not fit (`i32::MIN / -1`) is excluded.
pub fn divide(a: i32, b: i32) -> (r: Result<i32, &'static str>)
    requires
        !(a == i32::MIN && b == -1),
    ensures
        b == 0 ==> (r matches Err(m) && m@ == "Cannot divide by zero"@),
        b != 0 ==> (r matches Ok(q) && q == trunc_div(a as int, b as int)),
{
    if b == 0 {
        Err("Cannot divide by zero")
    } else {
        let ua: u32 = if a >= 0 {
            a as u32
        } else {
            (-(a as i64)) as u32
        };
        let ub: u32 = if b >= 0 {
            b as u32
        } else {
            (-(b as i64)) as u32
        };
        let q: u32 = ua / ub;
        proof {
            assert(q <= ua) by (nonlinear_arith)
                requires
                    ub >= 1,
                    q == ua as int / ub as int,
            ;
            if !((a < 0) == (b < 0)) {
            } else if a == i32::MIN {
                assert(ub >= 2);
                assert(q * ub <= ua < (q + 1) * ub) by (nonlinear_arith)
                    requires
                        ub >= 1,
                        q == ua as int / ub as int,
                ;
                assert(q <= i32::MAX) by (nonlinear_arith)
                    requires
                        ub >= 2,
                        q * ub <= ua,
                        ua == 0x8000_0000u32,
                ;
            }
        }
        if (a < 0) != (b < 0) {
            Ok((-(q as i64)) as i32)
        } else {
            Ok(q as i32)
        }
    }
}

/// Classifies a number's parity; the answer is always determined.
pub fn is_even(num: i32) -> (r: Option<bool>)
    ensures
        r matches Some(b) && b == (num % 2 == 0),
{
    if num % 2 == 0 {
        Some(true)
    } else if num % 2 == 1 || num % 2 == -1 {
        Some(false)
    } else {
        None
    }
}

/// The largest element of a non-empty slice.
pub fn largest(items: &[i32]) -> (r: i32)
    requires
        items@.len() > 0,
    ensures
        exists|i: int| 0 <= i < items@.len() && items@[i] == r,
        forall|i: int| 0 <= i < items@.len() ==> items@[i] <= r,
{
    let mut max = items[0];
    let mut i: usize = 1;
    while i < items.len()
        invariant
            1 <= i <= items@.len(),
            exists|k: int| 0 <= k < i && items@[k] == max,
            forall|k: int| 0 <= k < i ==> items@[k] <= max,
        decreases items@.len() - i,
    {
        if items[i] > max {
            max = items[i];
        }
        i += 1;
    }
    max
}

/// Of two string slices, the longer one; ties go to the second.
pub fn longest<'a>(x: &'a str, y: &'a str) -> (r: &'a str)
    ensures
        r@ == (if x@.len() > y@.len() {
            x@
        } else {
            y@
        }),
{
    if x.unicode_len() > y.unicode_len() {
        x
    } else {
        y
    }
}

/// The position of the first `'.'`, or `-1` when there is none.
pub open spec fn first_period_idx(s: Seq<char>) -> int
    decreases s.len(),
{
    if s.len() == 0 {
        -1
    } else if s[0] == '.' {
        0
    } else {
        let r = first_period_idx(s.drop_first());
        if r == -1 {
            -1
        } else {
            r + 1
        }
    }
}

/// What `get_first_sentence` owes: everything through the first period,
/// or the whole text when it has none.
pub open spec fn first_sentence_spec(s: Seq<char>) -> Seq<char> {
    if first_period_idx(s) == -1 {
        s
    } else {
        s.subrange(0, first_period_idx(s) + 1)
    }
}

proof fn lemma_first_period_found(s: Seq<char>, i: int)
    requires
        0 <= i < s.len(),
        s[i] == '.',
        forall|k: int| 0 <= k < i ==> s[k] != '.',
    ensures
        first_period_idx(s) == i,
    decreases s.len(),
{
    if i > 0 {
        let d = s.drop_first();
        assert(forall|k: int| 0 <= k < i - 1 ==> d[k] != '.');
        lemma_first_period_found(d, i - 1);
    }
}

proof fn lemma_no_period(s: Seq<char>)
    requires
        forall|k: int| 0 <= k < s.len() ==> s[k] != '.',
    ensures
        first_period_idx(s) == -1,
    decreases s.len(),
{
    if s.len() > 0 {
        let d = s.drop_first();
        assert(forall|k: int| 0 <= k < d.len() ==> d[k] != '.');
        lemma_no_period(d);
    }
}

/// The first sentence of a text: everything through the first period.
pub fn get_first_sentence(text: &str) -> (r: &str)
    ensures
        r@ == first_sentence_spec(text@),
{
    let n = text.unicode_len();
    let mut i: usize = 0;
    while i < n
        invariant
            0 <= i <= n,
            n == text@.len(),
            forall|k: int| 0 <= k < i ==> text@[k] != '.',
        decreases n - i,
    {
        if text.get_char(i) == '.' {
            proof {
                lemma_first_period_found(text@, i as int);
            }
            return text.substring_char(0, i + 1);
        }
        i += 1;
    }
    proof {
        lemma_no_period(text@);
    }
    text
}

/// An excerpt borrowing part of a longer text.
pub struct ImportantExcerpt<'a> {
    pub part: &'a str,
}

impl<'a> ImportantExcerpt<'a> {
    pub fn level(&self) -> (r: i32)
        ensures
            r == 3,
    {
        3
    }
}

} // verus!
