use vstd::prelude::*;

verus! {

/// Whether a character is one of the ten decimal digits.
pub open spec fn is_digit(c: char) -> bool {
    48 <= c as u32 <= 57
}

/// Whether every character of a text is a decimal digit.
pub open spec fn all_digits(s: Seq<char>) -> bool {
    forall|i: int| 0 <= i < s.len() ==> is_digit(#[trigger] s[i])
}

/// The number that a text of decimal digits writes.
pub open spec fn digits_value(s: Seq<char>) -> nat
    decreases s.len(),
{
    if s.len() == 0 {
        0
    } else {
        (digits_value(s.drop_last()) * 10 + (s.last() as u32 - 48)) as nat
    }
}

/// The digits of a text that may start with a plus sign.
pub open spec fn unsigned_body(s: Seq<char>) -> Seq<char> {
    if s.len() > 0 && s[0] == '+' {
        s.subrange(1, s.len() as int)
    } else {
        s
    }
}

/// The number that a text writes, as the machine's unsigned integers are
/// written: decimal digits, at least one, with or without a plus sign before
/// them, and no larger than the largest such integer.
pub open spec fn parsed_number(s: Seq<char>) -> Option<usize> {
    let body = unsigned_body(s);
    if body.len() > 0 && all_digits(body) && digits_value(body) <= usize::MAX {
        Some(digits_value(body) as usize)
    } else {
        None
    }
}

/// A text of digits writes no smaller a number than any text it starts with.
proof fn lemma_digits_value_grows(s: Seq<char>, n: int)
    requires
        all_digits(s),
        0 <= n <= s.len(),
    ensures
        digits_value(s.subrange(0, n)) <= digits_value(s),
    decreases s.len() - n,
{
    if n == s.len() {
        assert(s.subrange(0, n) =~= s);
    } else {
        lemma_digits_value_grows(s, n + 1);
        let longer = s.subrange(0, n + 1);
        assert(longer.drop_last() =~= s.subrange(0, n));
        assert(is_digit(s[n]));
        assert(longer.last() == s[n]);
    }
}

/// Reads a number from a text.
pub fn parse_number(s: &Vec<char>) -> (r: Option<usize>)
    ensures
        r == parsed_number(s@),
{
    let start: usize = if s.len() > 0 && s[0] == '+' {
        1
    } else {
        0
    };
    let ghost body = unsigned_body(s@);
    assert(body =~= s@.subrange(start as int, s@.len() as int));
    if start == s.len() {
        return None;
    }
    let mut value: usize = 0;
    let mut i: usize = start;
    while i < s.len()
        invariant
            start <= i <= s.len(),
            body == unsigned_body(s@),
            body == s@.subrange(start as int, s@.len() as int),
            all_digits(body.subrange(0, i - start)),
            value == digits_value(body.subrange(0, i - start)),
        decreases s.len() - i,
    {
        let c: char = s[i];
        let code: u32 = c as u32;
        let ghost seen = body.subrange(0, i - start);
        let ghost next = body.subrange(0, i - start + 1);
        proof {
            assert(next.drop_last() =~= seen);
            assert(next.last() == c);
            assert(body[i - start] == c);
        }
        if code < 48 || code > 57 {
            assert(!is_digit(body[i - start]));
            return None;
        }
        assert(is_digit(c));
        let digit: usize = (code - 48) as usize;
        let grown: Option<usize> = match value.checked_mul(10) {
            Some(tens) => tens.checked_add(digit),
            None => None,
        };
        match grown {
            Some(v) => {
                assert(all_digits(next)) by {
                    assert forall|j: int| 0 <= j < next.len() implies is_digit(
                        #[trigger] next[j],
                    ) by {
                        if j < seen.len() {
                            assert(seen[j] == next[j]);
                        }
                    }
                }
                value = v;
            },
            None => {
                proof {
                    assert(digits_value(next) > usize::MAX);
                    if all_digits(body) {
                        lemma_digits_value_grows(body, i - start + 1);
                    }
                }
                return None;
            },
        }
        i = i + 1;
    }
    assert(body.subrange(0, i - start) =~= body);
    Some(value)
}

} // verus!
