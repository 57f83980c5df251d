//! JSON building blocks for the wire form of a completion request:
//! string escaping and decimal rendering, each specified character by
//! character.

use vstd::prelude::*;
use vstd::string::*;

verus! {

/// The hexadecimal digit of a value below 16.
pub open spec fn hex_digit(d: int) -> char {
    if d == 0 {
        '0'
    } else if d == 1 {
        '1'
    } else if d == 2 {
        '2'
    } else if d == 3 {
        '3'
    } else if d == 4 {
        '4'
    } else if d == 5 {
        '5'
    } else if d == 6 {
        '6'
    } else if d == 7 {
        '7'
    } else if d == 8 {
        '8'
    } else if d == 9 {
        '9'
    } else if d == 10 {
        'a'
    } else if d == 11 {
        'b'
    } else if d == 12 {
        'c'
    } else if d == 13 {
        'd'
    } else if d == 14 {
        'e'
    } else {
        'f'
    }
}

/// Executable form of [`hex_digit`].
pub fn hex_digit_exec(d: u32) -> (r: char)
    requires
        d < 16,
    ensures
        r == hex_digit(d as int),
{
    if d == 0 {
        '0'
    } else if d == 1 {
        '1'
    } else if d == 2 {
        '2'
    } else if d == 3 {
        '3'
    } else if d == 4 {
        '4'
    } else if d == 5 {
        '5'
    } else if d == 6 {
        '6'
    } else if d == 7 {
        '7'
    } else if d == 8 {
        '8'
    } else if d == 9 {
        '9'
    } else if d == 10 {
        'a'
    } else if d == 11 {
        'b'
    } else if d == 12 {
        'c'
    } else if d == 13 {
        'd'
    } else if d == 14 {
        'e'
    } else {
        'f'
    }
}

/// The decimal digit of a value below 10.
pub open spec fn dec_digit(d: int) -> char {
    hex_digit(d)
}

/// What one character contributes to a JSON string body: itself, or a
/// two-character escape, or a `\u00..` escape for the remaining control
/// characters.
pub open spec fn escape_char(c: char) -> Seq<char> {
    if c == '"' {
        seq!['\\', '"']
    } else if c == '\\' {
        seq!['\\', '\\']
    } else if c == '\n' {
        seq!['\\', 'n']
    } else if c == '\r' {
        seq!['\\', 'r']
    } else if c == '\t' {
        seq!['\\', 't']
    } else if (c as u32) < 32 {
        seq!['\\', 'u', '0', '0', hex_digit(c as u32 as int / 16), hex_digit(c as u32 as int % 16)]
    } else {
        seq![c]
    }
}

/// The body of a JSON string: every character escaped as needed.
pub open spec fn escape_string(s: Seq<char>) -> Seq<char>
    decreases s.len(),
{
    if s.len() == 0 {
        Seq::<char>::empty()
    } else {
        escape_string(s.drop_last()) + escape_char(s.last())
    }
}

/// A JSON string: the escaped body between double quotes.
pub open spec fn json_string(s: Seq<char>) -> Seq<char> {
    seq!['"'] + escape_string(s) + seq!['"']
}

/// Appends the escaped body of `s` to `out`.
pub fn escape_into(out: &mut String, s: &str)
    ensures
        final(out)@ == old(out)@ + escape_string(s@),
{
    let n = s.unicode_len();
    let mut i: usize = 0;
    while i < n
        invariant
            i <= n,
            n == s@.len(),
            out@ == old(out)@ + escape_string(s@.take(i as int)),
        decreases n - i,
    {
        let ghost prev = out@;
        let c = s.get_char(i);
        if c == '"' {
            out.push('\\');
            out.push('"');
            proof {
                assert(prev.push('\\').push('"') =~= prev + escape_char(c));
            }
        } else if c == '\\' {
            out.push('\\');
            out.push('\\');
            proof {
                assert(prev.push('\\').push('\\') =~= prev + escape_char(c));
            }
        } else if c == '\n' {
            out.push('\\');
            out.push('n');
            proof {
                assert(prev.push('\\').push('n') =~= prev + escape_char(c));
            }
        } else if c == '\r' {
            out.push('\\');
            out.push('r');
            proof {
                assert(prev.push('\\').push('r') =~= prev + escape_char(c));
            }
        } else if c == '\t' {
            out.push('\\');
            out.push('t');
            proof {
                assert(prev.push('\\').push('t') =~= prev + escape_char(c));
            }
        } else {
            let u = c as u32;
            if u < 32 {
                out.push('\\');
                out.push('u');
                out.push('0');
                out.push('0');
                let h = hex_digit_exec(u / 16);
                let l = hex_digit_exec(u % 16);
                out.push(h);
                out.push(l);
                proof {
                    assert(prev.push('\\').push('u').push('0').push('0').push(h).push(l) =~= prev
                        + escape_char(c));
                }
            } else {
                out.push(c);
                proof {
                    assert(prev.push(c) =~= prev + escape_char(c));
                }
            }
        }
        i += 1;
        proof {
            assert(s@.take(i as int).drop_last() =~= s@.take(i - 1));
            assert(s@.take(i as int).last() == c);
        }
    }
    proof {
        assert(s@.take(n as int) =~= s@);
    }
}

/// Appends `s` as a complete JSON string to `out`.
pub fn json_string_into(out: &mut String, s: &str)
    ensures
        final(out)@ == old(out)@ + json_string(s@),
{
    let ghost start = out@;
    out.push('"');
    proof {
        assert(out@ =~= start + seq!['"']);
    }
    escape_into(out, s);
    let ghost mid = out@;
    out.push('"');
    proof {
        assert(out@ =~= mid + seq!['"']);
        assert(out@ =~= start + json_string(s@));
    }
}

/// The decimal rendering of a non-negative value, most significant digit
/// first, no sign and no leading zero.
pub open spec fn dec_str(n: int) -> Seq<char>
    decreases n,
{
    if n < 10 {
        seq![dec_digit(n)]
    } else {
        dec_str(n / 10) + seq![dec_digit(n % 10)]
    }
}

/// Appends the decimal rendering of `n` to `out`.
pub fn dec_u32_into(out: &mut String, n: u32)
    ensures
        final(out)@ == old(out)@ + dec_str(n as int),
    decreases n,
{
    if n < 10 {
        let ghost start = out@;
        out.push(hex_digit_exec(n));
        proof {
            assert(out@ =~= start + seq![dec_digit(n as int)]);
        }
    } else {
        proof {
            assert(n as int / 10 < n as int) by (nonlinear_arith)
                requires
                    n >= 10,
            ;
        }
        dec_u32_into(out, n / 10);
        let ghost mid = out@;
        out.push(hex_digit_exec(n % 10));
        proof {
            assert(out@ =~= mid + seq![dec_digit(n as int % 10)]);
            assert(out@ =~= old(out)@ + dec_str(n as int));
        }
    }
}

} // verus!
