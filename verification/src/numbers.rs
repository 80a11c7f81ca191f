use vstd::prelude::*;
use vstd::string::StrSliceExecFns;

verus! {

pub const I64_MAX_MAGNITUDE: u64 = 9223372036854775807;

pub const I64_MIN_MAGNITUDE: u64 = 9223372036854775808;

/// An ASCII decimal digit.
pub open spec fn is_digit(c: char) -> bool {
    48 <= c as u32 <= 57
}

/// The numeric value of one decimal digit.
pub open spec fn digit_val(c: char) -> int {
    c as u32 - 48
}

pub open spec fn all_digits(s: Seq<char>) -> bool {
    forall|i: int| 0 <= i < s.len() ==> is_digit(#[trigger] s[i])
}

/// The value of a digit string, read most significant digit first.
pub open spec fn digits_val(s: Seq<char>) -> int
    decreases s.len(),
{
    if s.len() == 0 {
        0
    } else {
        digits_val(s.drop_last()) * 10 + digit_val(s.last())
    }
}

/// What `str::parse::<i64>` accepts: an optional sign followed by one or
/// more decimal digits, with the value in the range of `i64`.
pub open spec fn spec_parse_i64(s: Seq<char>) -> Option<int> {
    let has_sign = s.len() > 0 && (s[0] == '+' || s[0] == '-');
    let neg = s.len() > 0 && s[0] == '-';
    let ds = if has_sign {
        s.drop_first()
    } else {
        s
    };
    if ds.len() > 0 && all_digits(ds) {
        let v = if neg {
            -digits_val(ds)
        } else {
            digits_val(ds)
        };
        if -(I64_MIN_MAGNITUDE as int) <= v <= I64_MAX_MAGNITUDE as int {
            Some(v)
        } else {
            None
        }
    } else {
        None
    }
}

proof fn lemma_digits_val_nonneg(s: Seq<char>)
    requires
        all_digits(s),
    ensures
        digits_val(s) >= 0,
    decreases s.len(),
{
    if s.len() > 0 {
        assert(all_digits(s.drop_last()));
        lemma_digits_val_nonneg(s.drop_last());
    }
}

/// Parses a decimal integer exactly as `str::parse::<i64>` does.
pub fn parse_i64(s: &str) -> (r: Option<i64>)
    ensures
        match r {
            Some(v) => spec_parse_i64(s@) == Some(v as int),
            None => spec_parse_i64(s@) is None,
        },
{
    let len = s.unicode_len();
    if len == 0 {
        return None;
    }
    let first = s.get_char(0);
    let neg = first == '-';
    let has_sign = first == '-' || first == '+';
    let start: usize = if has_sign {
        1
    } else {
        0
    };
    let ghost ds = if has_sign {
        s@.drop_first()
    } else {
        s@
    };
    proof {
        assert(ds =~= s@.subrange(start as int, len as int));
    }
    if start == len {
        return None;
    }
    let limit: u64 = if neg {
        I64_MIN_MAGNITUDE
    } else {
        I64_MAX_MAGNITUDE
    };
    let mut acc: u64 = 0;
    let mut over = false;
    let mut i: usize = start;
    while i < len
        invariant
            start <= i <= len,
            len == s@.len(),
            start == 1 <==> has_sign,
            start <= 1,
            start < len,
            has_sign == (s@.len() > 0 && (s@[0] == '+' || s@[0] == '-')),
            neg == (s@.len() > 0 && s@[0] == '-'),
            ds == s@.subrange(start as int, len as int),
            limit == if neg {
                I64_MIN_MAGNITUDE
            } else {
                I64_MAX_MAGNITUDE
            },
            forall|j: int| start <= j < i ==> is_digit(#[trigger] s@[j]),
            !over ==> acc <= limit && acc as int == digits_val(
                s@.subrange(start as int, i as int),
            ),
            over ==> digits_val(s@.subrange(start as int, i as int)) > limit,
        decreases len - i,
    {
        let c = s.get_char(i);
        let cu = c as u32;
        if cu < 48 || cu > 57 {
            proof {
                assert(!is_digit(ds[i - start]));
            }
            return None;
        }
        let d: u64 = (cu - 48) as u64;
        proof {
            assert(s@.subrange(start as int, i as int + 1).drop_last() =~= s@.subrange(
                start as int,
                i as int,
            ));
            assert(s@.subrange(start as int, i as int + 1).last() == s@[i as int]);
        }
        if over {
        } else {
            let stepped = match acc.checked_mul(10) {
                Some(t) => t.checked_add(d),
                None => None,
            };
            match stepped {
                Some(v) => {
                    if v <= limit {
                        acc = v;
                    } else {
                        over = true;
                    }
                },
                None => {
                    over = true;
                },
            }
        }
        i += 1;
    }
    proof {
        assert(s@.subrange(start as int, len as int) =~= ds);
        assert(all_digits(ds));
    }
    if over {
        return None;
    }
    if neg {
        if acc == I64_MIN_MAGNITUDE {
            Some(i64::MIN)
        } else {
            Some(-(acc as i64))
        }
    } else {
        Some(acc as i64)
    }
}

/// The decimal digits of a nonnegative integer, most significant first.
pub open spec fn dec_digits(n: int) -> Seq<char>
    recommends
        n >= 0,
    decreases n,
{
    if n < 10 {
        seq![digit_char(n)]
    } else {
        dec_digits(n / 10).push(digit_char(n % 10))
    }
}

/// The decimal rendering of an integer, with a leading minus sign when
/// negative.
pub open spec fn int_str(n: int) -> Seq<char> {
    if n < 0 {
        seq!['-'] + dec_digits(-n)
    } else {
        dec_digits(n)
    }
}

pub open spec fn digit_char(d: int) -> char {
    if d == 0 {
        '0'
    } else if d == 1 {
        '1'
    } else if d == 2 {
        '2'
    } else if d == 3 {
        '3'
    } else if d == 4 {
        '4'
    } else if d == 5 {
        '5'
    } else if d == 6 {
        '6'
    } else if d == 7 {
        '7'
    } else if d == 8 {
        '8'
    } else {
        '9'
    }
}

fn digit_to_char(d: u64) -> (c: char)
    requires
        d < 10,
    ensures
        c == digit_char(d as int),
{
    match d {
        0 => '0',
        1 => '1',
        2 => '2',
        3 => '3',
        4 => '4',
        5 => '5',
        6 => '6',
        7 => '7',
        8 => '8',
        _ => '9',
    }
}

fn push_u64_digits(m: u64, out: &mut String)
    ensures
        final(out)@ == old(out)@ + dec_digits(m as int),
    decreases m,
{
    if m < 10 {
        out.push(digit_to_char(m));
        proof {
            assert(old(out)@.push(digit_char(m as int)) =~= old(out)@ + seq![
                digit_char(m as int),
            ]);
        }
    } else {
        proof {
            assert(m / 10 < m && m / 10 >= 1) by (nonlinear_arith)
                requires
                    m >= 10,
            ;
        }
        push_u64_digits(m / 10, out);
        out.push(digit_to_char(m % 10));
        proof {
            assert((old(out)@ + dec_digits(m as int / 10)).push(digit_char((m % 10) as int)) =~= old(
                out,
            )@ + dec_digits(m as int / 10).push(digit_char(m as int % 10)));
        }
    }
}

/// Renders an `i64` in decimal, as `ToString` would.
pub fn i64_to_string(n: i64) -> (s: String)
    ensures
        s@ == int_str(n as int),
{
    let mut out = String::new();
    if n < 0 {
        out.push('-');
        let m: u64 = if n == i64::MIN {
            I64_MIN_MAGNITUDE
        } else {
            (-n) as u64
        };
        push_u64_digits(m, &mut out);
        proof {
            assert(out@ =~= seq!['-'] + dec_digits(-(n as int)));
        }
    } else {
        push_u64_digits(n as u64, &mut out);
        proof {
            assert(out@ =~= dec_digits(n as int));
        }
    }
    out
}

} // verus!
