//! Interpreting what a user typed at a prompt.

use crate::gpg::GpgKey;
use crate::models::Account;
use crate::text::{chars_of, eq_ignore_ascii_case, eq_ignore_case, trim, trim_chars};
use vstd::prelude::*;
use vstd::string::*;

verus! {

/// The answer to a yes/no question is yes: it is `y` in either case.
pub fn confirm(answer: &str) -> (r: bool)
    ensures
        r == eq_ignore_case(answer@, "y"@),
{
    eq_ignore_ascii_case(answer, "y")
}

/// A decimal digit.
pub open spec fn is_digit(c: char) -> bool {
    '0' <= c && c <= '9'
}

/// The value of a string of decimal digits.
pub open spec fn digits_value(s: Seq<char>) -> nat
    decreases s.len(),
{
    if s.len() == 0 {
        0
    } else {
        digits_value(s.drop_last()) * 10 + ((s.last() as u32) - ('0' as u32)) as nat
    }
}

/// The text without one leading `+`.
pub open spec fn sign_stripped(s: Seq<char>) -> Seq<char> {
    if s.len() > 0 && s[0] == '+' {
        s.drop_first()
    } else {
        s
    }
}

/// Every character is a decimal digit.
pub open spec fn all_digits(d: Seq<char>) -> bool {
    forall|i: int| 0 <= i < d.len() ==> is_digit(#[trigger] d[i])
}

/// The digits of a `usize` literal: an optional `+` then at least one decimal digit.
pub open spec fn usize_digits(s: Seq<char>) -> Option<Seq<char>> {
    let d = sign_stripped(s);
    if d.len() > 0 && all_digits(d) {
        Some(d)
    } else {
        None
    }
}

/// `str::parse::<usize>`: the value of the literal, if it is one and fits in `usize`.
pub open spec fn parse_usize(s: Seq<char>) -> Option<nat> {
    match usize_digits(s) {
        Some(d) => if digits_value(d) <= usize::MAX {
            Some(digits_value(d))
        } else {
            None
        },
        None => None,
    }
}

proof fn lemma_digits_value_mono(s: Seq<char>, k: int)
    requires
        0 <= k <= s.len(),
        all_digits(s),
    ensures
        digits_value(s.subrange(0, k)) <= digits_value(s),
    decreases s.len() - k,
{
    if k < s.len() {
        let t = s.subrange(0, k + 1);
        assert(t.drop_last() =~= s.subrange(0, k));
        lemma_digits_value_mono(s, k + 1);
    } else {
        assert(s.subrange(0, k) =~= s);
    }
}

/// Parses a `usize` literal as `str::parse` does.
pub fn parse_usize_chars(s: &[char]) -> (r: Option<usize>)
    ensures
        match r {
            Some(v) => parse_usize(s@) == Some(v as nat),
            None => parse_usize(s@) is None,
        },
{
    let start: usize = if s.len() > 0 && s[0] == '+' {
        1
    } else {
        0
    };
    let ghost d = sign_stripped(s@);
    assert(d =~= s@.subrange(start as int, s@.len() as int));
    if start >= s.len() {
        return None;
    }
    let mut value: usize = 0;
    let mut i: usize = start;
    while i < s.len()
        invariant
            start <= i <= s@.len(),
            start < s@.len(),
            d == s@.subrange(start as int, s@.len() as int),
            d == sign_stripped(s@),
            forall|j: int| 0 <= j < i - start ==> is_digit(#[trigger] d[j]),
            value as nat == digits_value(d.subrange(0, i - start)),
        decreases s@.len() - i,
    {
        let c = s[i];
        if !('0' <= c && c <= '9') {
            assert(!is_digit(d[i - start]));
            return None;
        }
        let digit = ((c as u32) - ('0' as u32)) as usize;
        assert(d.subrange(0, i - start + 1).drop_last() =~= d.subrange(0, i - start));
        let next = match value.checked_mul(10) {
            Some(m) => m.checked_add(digit),
            None => None,
        };
        match next {
            Some(v) => {
                value = v;
            },
            None => {
                proof {
                    assert(digits_value(d.subrange(0, i - start + 1)) > usize::MAX);
                    if all_digits(d) {
                        lemma_digits_value_mono(d, i - start + 1);
                    }
                }
                return None;
            },
        }
        i = i + 1;
    }
    assert(d.subrange(0, d.len() as int) =~= d);
    Some(value)
}


/// The list index that a typed choice selects: the 1-based number typed, when it is
/// between 1 and `count`.
pub open spec fn spec_select_index(count: nat, input: Seq<char>) -> Option<nat> {
    match parse_usize(trim(input)) {
        Some(n) => if n == 0 || n > count {
            None
        } else {
            Some((n - 1) as nat)
        },
        None => None,
    }
}

/// Interprets a typed choice from a numbered list of `count` items.
pub fn select_index(count: usize, input: &str) -> (r: Option<usize>)
    ensures
        match r {
            Some(i) => spec_select_index(count as nat, input@) == Some(i as nat),
            None => spec_select_index(count as nat, input@) is None,
        },
{
    let t = trim_chars(&chars_of(input));
    let choice: usize = match parse_usize_chars(&t) {
        Some(n) => n,
        None => 0,
    };
    if choice == 0 || choice > count {
        None
    } else {
        Some(choice - 1)
    }
}

/// Interprets a typed choice from the numbered list of accounts.
pub fn select_account(accounts: &[Account], input: &str) -> (r: Option<usize>)
    ensures
        match r {
            Some(i) => spec_select_index(accounts@.len(), input@) == Some(i as nat),
            None => spec_select_index(accounts@.len(), input@) is None,
        },
{
    select_index(accounts.len(), input)
}

/// Interprets a typed choice from the numbered list of backup files.
pub fn select_file(files: &[String], input: &str) -> (r: Option<usize>)
    ensures
        match r {
            Some(i) => spec_select_index(files@.len(), input@) == Some(i as nat),
            None => spec_select_index(files@.len(), input@) is None,
        },
{
    select_index(files.len(), input)
}

/// Interprets a typed choice from the numbered list of GPG keys.
pub fn select_gpg_key(keys: &[GpgKey], input: &str) -> (r: Option<usize>)
    ensures
        match r {
            Some(i) => spec_select_index(keys@.len(), input@) == Some(i as nat),
            None => spec_select_index(keys@.len(), input@) is None,
        },
{
    select_index(keys.len(), input)
}

} // verus!
