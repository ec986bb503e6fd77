use vstd::prelude::*;

verus! {

/// The digit character of a value below ten.
pub open spec fn digit_char(d: nat) -> char
    recommends
        d < 10,
{
    if d == 0 {
        '0'
    } else if d == 1 {
        '1'
    } else if d == 2 {
        '2'
    } else if d == 3 {
        '3'
    } else if d == 4 {
        '4'
    } else if d == 5 {
        '5'
    } else if d == 6 {
        '6'
    } else if d == 7 {
        '7'
    } else if d == 8 {
        '8'
    } else {
        '9'
    }
}

/// The decimal numeral of `n`, most significant digit first, without
/// leading zeros.
pub open spec fn dec_seq(n: nat) -> Seq<char>
    decreases n,
{
    if n < 10 {
        seq![digit_char(n)]
    } else {
        dec_seq(n / 10).push(digit_char(n % 10))
    }
}

/// The decimal rendering of a signed value.
pub open spec fn int_dec_seq(n: int) -> Seq<char> {
    if n < 0 {
        seq!['-'] + dec_seq((-n) as nat)
    } else {
        dec_seq(n as nat)
    }
}

fn digit(d: u32) -> (c: char)
    requires
        d < 10,
    ensures
        c == digit_char(d as nat),
{
    if d == 0 {
        '0'
    } else if d == 1 {
        '1'
    } else if d == 2 {
        '2'
    } else if d == 3 {
        '3'
    } else if d == 4 {
        '4'
    } else if d == 5 {
        '5'
    } else if d == 6 {
        '6'
    } else if d == 7 {
        '7'
    } else if d == 8 {
        '8'
    } else {
        '9'
    }
}

/// Appends the decimal numeral of `n`.
pub fn push_u32_dec(out: &mut Vec<char>, n: u32)
    ensures
        final(out)@ == old(out)@ + dec_seq(n as nat),
    decreases n,
{
    if n < 10 {
        out.push(digit(n));
        proof {
            assert(out@ =~= old(out)@ + dec_seq(n as nat));
        }
    } else {
        push_u32_dec(out, n / 10);
        out.push(digit(n % 10));
        proof {
            assert(out@ =~= old(out)@ + dec_seq(n as nat));
        }
    }
}

/// Appends the decimal rendering of `n`, with a leading minus sign when
/// `n` is negative.
pub fn push_i32_dec(out: &mut Vec<char>, n: i32)
    ensures
        final(out)@ == old(out)@ + int_dec_seq(n as int),
{
    if n < 0 {
        out.push('-');
        let wide: i64 = n as i64;
        let mag: u32 = (-wide) as u32;
        push_u32_dec(out, mag);
        proof {
            assert(out@ =~= old(out)@ + int_dec_seq(n as int));
        }
    } else {
        push_u32_dec(out, n as u32);
    }
}

/// True when `c` is a decimal digit.
pub open spec fn is_digit(c: char) -> bool {
    48 <= c as int && c as int <= 57
}

/// The value of a digit character.
pub open spec fn char_digit(c: char) -> nat
    recommends
        is_digit(c),
{
    (c as int - 48) as nat
}

/// True when every character of `s` is a decimal digit.
pub open spec fn all_digits(s: Seq<char>) -> bool {
    forall|i: int| 0 <= i < s.len() ==> is_digit(#[trigger] s[i])
}

/// The numeric value of a digit string, most significant digit first.
pub open spec fn dec_value(s: Seq<char>) -> nat
    decreases s.len(),
{
    if s.len() == 0 {
        0
    } else {
        dec_value(s.drop_last()) * 10 + char_digit(s.last())
    }
}

/// What an identifier segment parses to: decimal digits with an optional
/// leading minus sign, within the range of `i32`; anything else is
/// rejected.
pub open spec fn spec_parse_id(s: Seq<char>) -> Option<int> {
    if s.len() > 0 && s[0] == '-' {
        let d = s.drop_first();
        if d.len() > 0 && all_digits(d) && dec_value(d) <= 0x8000_0000 {
            Some(-(dec_value(d) as int))
        } else {
            None
        }
    } else {
        if s.len() > 0 && all_digits(s) && dec_value(s) < 0x8000_0000 {
            Some(dec_value(s) as int)
        } else {
            None
        }
    }
}

/// Parses the digits of `s` from `from` to the end; `Some(v)` means the
/// whole tail is digits, with `v` its value clamped just above the largest
/// magnitude an identifier can have.
#[verifier::loop_isolation(false)]
fn parse_digits(s: &[char], from: usize) -> (r: Option<u64>)
    requires
        from <= s@.len(),
    ensures
        match r {
            Some(v) => {
                let d = s@.subrange(from as int, s@.len() as int);
                &&& d.len() > 0
                &&& all_digits(d)
                &&& (dec_value(d) <= 0x8000_0000 ==> v == dec_value(d))
                &&& (dec_value(d) > 0x8000_0000 ==> v == 0x8000_0001)
            },
            None => {
                let d = s@.subrange(from as int, s@.len() as int);
                !(d.len() > 0 && all_digits(d))
            },
        },
{
    let ghost d = s@.subrange(from as int, s@.len() as int);
    let n = s.len();
    if from >= n {
        return None;
    }
    let mut acc: u64 = 0;
    let mut i: usize = from;
    while i < n
        invariant
            from <= i <= n,
            all_digits(s@.subrange(from as int, i as int)),
            dec_value(s@.subrange(from as int, i as int)) <= 0x8000_0000 ==> acc == dec_value(
                s@.subrange(from as int, i as int),
            ),
            dec_value(s@.subrange(from as int, i as int)) > 0x8000_0000 ==> acc == 0x8000_0001,
            acc <= 0x8000_0001,
        decreases n - i,
    {
        let c = s[i];
        if !('0' <= c && c <= '9') {
            proof {
                assert(d[i as int - from as int] == c);
                assert(!all_digits(d));
            }
            return None;
        }
        let cu = c as u32;
        let dv: u64 = (cu - 48) as u64;
        proof {
            assert(is_digit(c));
            let p = s@.subrange(from as int, i as int);
            let p2 = s@.subrange(from as int, i as int + 1);
            assert(p2.drop_last() =~= p);
            assert(p2.last() == s@[i as int]);
            assert(dec_value(p2) == dec_value(p) * 10 + char_digit(s@[i as int]));
            assert forall|k: int| 0 <= k < p2.len() implies is_digit(#[trigger] p2[k]) by {
                if k < p.len() {
                    assert(p2[k] == p[k]);
                    assert(is_digit(p[k]));
                } else {
                    assert(p2[k] == c);
                }
            }
            assert(all_digits(p2));
        }
        if acc > 0x8000_0000 {
            acc = 0x8000_0001;
        } else {
            acc = acc * 10 + dv;
            if acc > 0x8000_0000 {
                acc = 0x8000_0001;
            }
        }
        i = i + 1;
    }
    proof {
        assert(s@.subrange(from as int, n as int) =~= d);
    }
    Some(acc)
}

/// Parses an identifier segment as the route table does: an optional
/// leading minus sign, then decimal digits, within the range of `i32`.
pub fn parse_id(s: &[char]) -> (r: Option<i32>)
    ensures
        match r {
            Some(v) => spec_parse_id(s@) == Some(v as int),
            None => spec_parse_id(s@) is None,
        },
{
    if s.len() == 0 {
        return None;
    }
    let neg = s[0] == '-';
    let start: usize = if neg {
        1
    } else {
        0
    };
    proof {
        if neg {
            assert(s@.subrange(1, s@.len() as int) =~= s@.drop_first());
        } else {
            assert(s@.subrange(0, s@.len() as int) =~= s@);
        }
    }
    match parse_digits(s, start) {
        None => None,
        Some(v) => {
            if neg {
                if v <= 0x8000_0000 {
                    Some((-(v as i64)) as i32)
                } else {
                    None
                }
            } else {
                if v < 0x8000_0000 {
                    Some(v as i32)
                } else {
                    None
                }
            }
        },
    }
}

} // verus!


