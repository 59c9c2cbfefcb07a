//! The command-line grammar: a pair of values written with a separator
//! between them (`1000x750`, `-1.20,0.35`), and unsigned decimal numbers.
use vstd::prelude::*;
use vstd::string::StrSliceExecFns;

verus! {

pub open spec fn is_digit(c: char) -> bool {
    '0' <= c && c <= '9'
}

/// Value of a run of decimal digits, most significant first.
pub open spec fn digits_value(digits: Seq<char>) -> nat
    decreases digits.len(),
{
    if digits.len() == 0 {
        0
    } else {
        digits_value(digits.drop_last()) * 10 + (digits.last() as int - '0' as int) as nat
    }
}

/// The digits of a number written with an optional leading `+`.
pub open spec fn digits_of(s: Seq<char>) -> Seq<char> {
    if s.len() > 0 && s[0] == '+' {
        s.drop_first()
    } else {
        s
    }
}

/// An optional `+` followed by at least one decimal digit, and nothing else.
pub open spec fn is_decimal(s: Seq<char>) -> bool {
    &&& digits_of(s).len() > 0
    &&& forall|i: int| 0 <= i < digits_of(s).len() ==> is_digit(#[trigger] digits_of(s)[i])
}

/// The `usize` that `s` writes, if it writes one that fits.
pub open spec fn decimal(s: Seq<char>) -> Option<usize> {
    if is_decimal(s) && digits_value(digits_of(s)) <= usize::MAX {
        Some(digits_value(digits_of(s)) as usize)
    } else {
        None
    }
}

/// Position of the first `c` in `s`, where `s` contains one.
pub open spec fn first_index(s: Seq<char>, c: char) -> int {
    choose|k: int| 0 <= k < s.len() && s[k] == c && !s.take(k).contains(c)
}

/// What comes before the first separator.
pub open spec fn before_first(s: Seq<char>, separator: char) -> Seq<char> {
    s.take(first_index(s, separator))
}

/// What comes after the first separator.
pub open spec fn after_first(s: Seq<char>, separator: char) -> Seq<char> {
    s.skip(first_index(s, separator) + 1)
}

/// Two numbers written on either side of the first separator of `s`.
pub open spec fn decimal_pair(s: Seq<char>, separator: char) -> Option<(usize, usize)> {
    if !s.contains(separator) {
        None
    } else {
        match (decimal(before_first(s, separator)), decimal(after_first(s, separator))) {
            (Some(l), Some(r)) => Some((l, r)),
            _ => None,
        }
    }
}

/// Reads an unsigned decimal number: an optional `+` and one or more ASCII
/// digits, whose value fits in a `usize`.
pub fn parse_decimal(s: &str) -> (r: Option<usize>)
    ensures
        r == decimal(s@),
{
    let n = s.unicode_len();
    let start: usize = if n > 0 && s.get_char(0) == '+' {
        1
    } else {
        0
    };
    let ghost digits = digits_of(s@);
    assert(digits =~= s@.subrange(start as int, n as int));
    if start == n {
        return None;
    }
    let mut value: usize = 0;
    let mut fits = true;
    let mut i = start;
    while i < n
        invariant
            start <= i <= n,
            n == s@.len(),
            digits == digits_of(s@),
            digits =~= s@.subrange(start as int, n as int),
            forall|j: int| start <= j < i ==> is_digit(#[trigger] s@[j]),
            fits ==> value == digits_value(s@.subrange(start as int, i as int)),
            !fits ==> digits_value(s@.subrange(start as int, i as int)) > usize::MAX,
        decreases n - i,
    {
        let c = s.get_char(i);
        if !('0' <= c && c <= '9') {
            assert(!is_digit(digits[i - start]));
            return None;
        }
        let d = (c as u32 - '0' as u32) as usize;
        let ghost prefix = s@.subrange(start as int, i + 1);
        assert(prefix.drop_last() =~= s@.subrange(start as int, i as int));
        if fits {
            match value.checked_mul(10) {
                Some(tens) => match tens.checked_add(d) {
                    Some(next) => {
                        value = next;
                    },
                    None => {
                        fits = false;
                    },
                },
                None => {
                    fits = false;
                },
            }
        }
        i = i + 1;
    }
    assert(s@.subrange(start as int, n as int) =~= digits);
    if fits {
        Some(value)
    } else {
        None
    }
}

/// Splits `s` at the first occurrence of `separator` into what comes before
/// it and what comes after it.
pub fn split_pair<'a>(s: &'a str, separator: char) -> (r: Option<(&'a str, &'a str)>)
    ensures
        r is None <==> !s@.contains(separator),
        r matches Some((left, right)) ==> {
            &&& left@ == before_first(s@, separator)
            &&& right@ == after_first(s@, separator)
            &&& s@ == left@ + seq![separator] + right@
            &&& !left@.contains(separator)
        },
{
    let n = s.unicode_len();
    let mut k: usize = 0;
    while k < n
        invariant
            k <= n,
            n == s@.len(),
            !s@.take(k as int).contains(separator),
        decreases n - k,
    {
        if s.get_char(k) == separator {
            let left = s.substring_char(0, k);
            let right = s.substring_char(k + 1, n);
            proof {
                let f = first_index(s@, separator);
                assert(s@[k as int] == separator);
                assert(s@.contains(separator));
                assert(0 <= f < s@.len() && s@[f] == separator && !s@.take(f).contains(separator));
                if f < k {
                    assert(s@.take(k as int)[f] == separator);
                } else if f > k {
                    assert(s@.take(f)[k as int] == separator);
                }
                assert(left@ =~= s@.take(k as int));
                assert(right@ =~= s@.skip(k + 1));
                assert(s@ =~= left@ + seq![separator] + right@);
            }
            return Some((left, right));
        }
        assert(s@.take(k + 1) =~= s@.take(k as int).push(s@[k as int]));
        k = k + 1;
    }
    assert(s@.take(n as int) =~= s@);
    None
}

/// Reads two unsigned decimal numbers written on either side of the first
/// `separator` in `s`, such as the `1000x750` of an image size.
pub fn parse_pair(s: &str, separator: char) -> (r: Option<(usize, usize)>)
    ensures
        r == decimal_pair(s@, separator),
{
    match split_pair(s, separator) {
        None => None,
        Some((left, right)) => match (parse_decimal(left), parse_decimal(right)) {
            (Some(l), Some(r)) => Some((l, r)),
            _ => None,
        },
    }
}

} // verus!
