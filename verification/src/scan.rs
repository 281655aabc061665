//! Scanning arithmetic: run lengths of character classes, decimal values
//! of digit strings, and counting characters in scanned text, with the
//! executable routines the lexer builds on.

use vstd::prelude::*;
use vstd::string::StrSliceExecFns;
use crate::chars::{digit_val, is_digit_char, is_newline_char, is_numeric_char, is_skip_char};
use crate::chars::is_digit;

verus! {

/// Length of the run of numeric-literal characters (digits and dots)
/// starting at index `j` of `s`.
pub open spec fn num_run_len(s: Seq<char>, j: int) -> nat
    decreases s.len() - j,
{
    if j < 0 || j >= s.len() || !is_numeric_char(s[j]) {
        0
    } else {
        (1 + num_run_len(s, j + 1)) as nat
    }
}

/// Length of the run of identifier characters (anything but whitespace
/// and newlines) starting at index `j` of `s`.
pub open spec fn ident_run_len(s: Seq<char>, j: int) -> nat
    decreases s.len() - j,
{
    if j < 0 || j >= s.len() || is_skip_char(s[j]) {
        0
    } else {
        (1 + ident_run_len(s, j + 1)) as nat
    }
}

/// Length of the run of comment characters (anything but a newline)
/// starting at index `j` of `s`.
pub open spec fn comment_run_len(s: Seq<char>, j: int) -> nat
    decreases s.len() - j,
{
    if j < 0 || j >= s.len() || is_newline_char(s[j]) {
        0
    } else {
        (1 + comment_run_len(s, j + 1)) as nat
    }
}

/// A numeric run stays inside `s`, consists of numeric characters, and is
/// maximal: the character after it (if any) is not numeric.
pub proof fn lemma_num_run(s: Seq<char>, j: int)
    requires
        0 <= j <= s.len(),
    ensures
        j + num_run_len(s, j) <= s.len(),
        forall|k: int| j <= k < j + num_run_len(s, j) ==> is_numeric_char(s[k]),
        j + num_run_len(s, j) == s.len() || !is_numeric_char(s[j + num_run_len(s, j)]),
    decreases s.len() - j,
{
    if j < s.len() && is_numeric_char(s[j]) {
        lemma_num_run(s, j + 1);
    }
}

/// An identifier run stays inside `s`, consists of non-skip characters,
/// and is maximal.
pub proof fn lemma_ident_run(s: Seq<char>, j: int)
    requires
        0 <= j <= s.len(),
    ensures
        j + ident_run_len(s, j) <= s.len(),
        forall|k: int| j <= k < j + ident_run_len(s, j) ==> !is_skip_char(s[k]),
        j + ident_run_len(s, j) == s.len() || is_skip_char(s[j + ident_run_len(s, j)]),
    decreases s.len() - j,
{
    if j < s.len() && !is_skip_char(s[j]) {
        lemma_ident_run(s, j + 1);
    }
}

/// A comment run stays inside `s` and ends at the end of input or at a
/// newline.
pub proof fn lemma_comment_run(s: Seq<char>, j: int)
    requires
        0 <= j <= s.len(),
    ensures
        j + comment_run_len(s, j) <= s.len(),
        j + comment_run_len(s, j) == s.len() || is_newline_char(
            s[j + comment_run_len(s, j)],
        ),
    decreases s.len() - j,
{
    if j < s.len() && !is_newline_char(s[j]) {
        lemma_comment_run(s, j + 1);
    }
}

/// The value of `t` read as a decimal numeral, most significant digit
/// first.
pub open spec fn dec_val(t: Seq<char>) -> int
    decreases t.len(),
{
    if t.len() == 0 {
        0
    } else {
        dec_val(t.drop_last()) * 10 + digit_val(t.last())
    }
}

/// Every character of `t` is an ASCII decimal digit.
pub open spec fn all_digits(t: Seq<char>) -> bool {
    forall|i: int| 0 <= i < t.len() ==> is_digit_char(t[i])
}

/// How many times `c` occurs in `t`.
pub open spec fn count_char(t: Seq<char>, c: char) -> nat
    decreases t.len(),
{
    if t.len() == 0 {
        0
    } else {
        (count_char(t.drop_last(), c) + if t.last() == c {
            1int
        } else {
            0int
        }) as nat
    }
}

/// `t` contains the character `c` somewhere.
pub open spec fn has_char(t: Seq<char>, c: char) -> bool {
    exists|i: int| 0 <= i < t.len() && t[i] == c
}

/// `t` contains an ASCII decimal digit somewhere.
pub open spec fn has_digit(t: Seq<char>) -> bool {
    exists|i: int| 0 <= i < t.len() && is_digit_char(t[i])
}

/// Among strings of digits and dots, exactly those with a single dot and
/// at least one digit are well-formed float literals (the shape
/// `f64::from_str` accepts for such strings).
pub open spec fn float_text_ok(t: Seq<char>) -> bool {
    count_char(t, '.') == 1 && has_digit(t)
}

/// Reading one more digit multiplies the value by ten and adds the digit.
pub proof fn lemma_dec_val_step(t: Seq<char>, i: int)
    requires
        0 <= i < t.len(),
    ensures
        dec_val(t.subrange(0, i + 1)) == dec_val(t.subrange(0, i)) * 10 + digit_val(t[i]),
{
    assert(t.subrange(0, i + 1).drop_last() =~= t.subrange(0, i));
    assert(t.subrange(0, i + 1).last() == t[i]);
}

/// The decimal value of a digit string is non-negative.
pub proof fn lemma_dec_val_nonneg(t: Seq<char>)
    requires
        all_digits(t),
    ensures
        dec_val(t) >= 0,
    decreases t.len(),
{
    if t.len() > 0 {
        assert(all_digits(t.drop_last())) by {
            assert(forall|i: int|
                0 <= i < t.len() - 1 ==> t.drop_last()[i] == t[i]);
        }
        lemma_dec_val_nonneg(t.drop_last());
    }
}

/// A prefix of a digit string never has a larger decimal value than the
/// whole string.
pub proof fn lemma_dec_val_prefix(t: Seq<char>, i: int)
    requires
        all_digits(t),
        0 <= i <= t.len(),
    ensures
        dec_val(t.subrange(0, i)) <= dec_val(t),
    decreases t.len(),
{
    if i == t.len() {
        assert(t.subrange(0, i) =~= t);
    } else {
        let d = t.drop_last();
        assert(all_digits(d)) by {
            assert(forall|k: int| 0 <= k < d.len() ==> d[k] == t[k]);
        }
        assert(t.subrange(0, i) =~= d.subrange(0, i));
        lemma_dec_val_prefix(d, i);
        lemma_dec_val_nonneg(d);
    }
}

/// Counting one more character adds one exactly when it is the sought one.
pub proof fn lemma_count_char_step(t: Seq<char>, c: char, i: int)
    requires
        0 <= i < t.len(),
    ensures
        count_char(t.subrange(0, i + 1), c) == count_char(t.subrange(0, i), c) + if t[i] == c {
            1int
        } else {
            0int
        },
{
    assert(t.subrange(0, i + 1).drop_last() =~= t.subrange(0, i));
    assert(t.subrange(0, i + 1).last() == t[i]);
}

/// Counts how many times `c` occurs in `t`.
pub fn count_matching(t: &str, c: char) -> (n: usize)
    ensures
        n == count_char(t@, c),
{
    let len = t.unicode_len();
    let mut n: usize = 0;
    let mut i: usize = 0;
    while i < len
        invariant
            len == t@.len(),
            0 <= i <= len,
            n <= i,
            n == count_char(t@.subrange(0, i as int), c),
        decreases len - i,
    {
        let ch = t.get_char(i);
        proof {
            lemma_count_char_step(t@, c, i as int);
        }
        if ch == c {
            n = n + 1;
        }
        i = i + 1;
    }
    proof {
        assert(t@.subrange(0, len as int) =~= t@);
    }
    n
}

/// True when `t` contains `c`.
pub fn contains_char(t: &str, c: char) -> (b: bool)
    ensures
        b == has_char(t@, c),
{
    let len = t.unicode_len();
    let mut i: usize = 0;
    while i < len
        invariant
            len == t@.len(),
            0 <= i <= len,
            forall|k: int| 0 <= k < i ==> t@[k] != c,
        decreases len - i,
    {
        if t.get_char(i) == c {
            return true;
        }
        i = i + 1;
    }
    false
}

/// True when `t` contains an ASCII decimal digit.
pub fn contains_digit(t: &str) -> (b: bool)
    ensures
        b == has_digit(t@),
{
    let len = t.unicode_len();
    let mut i: usize = 0;
    while i < len
        invariant
            len == t@.len(),
            0 <= i <= len,
            forall|k: int| 0 <= k < i ==> !is_digit_char(t@[k]),
        decreases len - i,
    {
        if is_digit(t.get_char(i)) {
            return true;
        }
        i = i + 1;
    }
    false
}

/// Checks the float-literal shape: exactly one dot and at least one digit.
pub fn float_shape_ok(t: &str) -> (b: bool)
    ensures
        b == float_text_ok(t@),
{
    let dots = count_matching(t, '.');
    dots == 1 && contains_digit(t)
}

/// Parses an all-digit string as a decimal `i64`.  Returns `None` exactly
/// when the value does not fit.
pub fn parse_digits(t: &str) -> (r: Option<i64>)
    requires
        all_digits(t@),
    ensures
        match r {
            Some(v) => v == dec_val(t@) && dec_val(t@) <= i64::MAX,
            None => dec_val(t@) > i64::MAX,
        },
{
    let len = t.unicode_len();
    let mut acc: u64 = 0;
    let mut i: usize = 0;
    while i < len
        invariant
            all_digits(t@),
            len == t@.len(),
            0 <= i <= len,
            acc as int == dec_val(t@.subrange(0, i as int)),
            acc <= i64::MAX as u64,
        decreases len - i,
    {
        let c = t.get_char(i);
        assert(is_digit_char(c));
        let d: u64 = (c as u32 - 0x30) as u64;
        proof {
            lemma_dec_val_step(t@, i as int);
        }
        let stepped = match acc.checked_mul(10) {
            Some(m) => m.checked_add(d),
            None => None,
        };
        match stepped {
            Some(v) => {
                if v <= i64::MAX as u64 {
                    acc = v;
                } else {
                    proof {
                        lemma_dec_val_prefix(t@, i as int + 1);
                    }
                    return None;
                }
            },
            None => {
                proof {
                    lemma_dec_val_prefix(t@, i as int + 1);
                }
                return None;
            },
        }
        i = i + 1;
    }
    proof {
        assert(t@.subrange(0, len as int) =~= t@);
    }
    Some(acc as i64)
}

} // verus!
