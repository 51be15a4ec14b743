//! Scalability-mode strings (`L<s>T<t>` or `S<s>T<t>`, with an optional
//! suffix): reading the temporal-layer count out of one, and writing the
//! `S<n>T<t>` form used when simulcast is collapsed to a single encoding.

use vstd::prelude::*;

verus! {

/// A one- or two-digit number read at position `i`: its value and the
/// position just past it. The first digit must be non-zero.
pub open spec fn spec_two_digit_num(s: Seq<char>, i: int) -> Option<(u32, int)> {
    if 0 <= i < s.len() && '1' <= s[i] && s[i] <= '9' {
        if i + 1 < s.len() && '0' <= s[i + 1] && s[i + 1] <= '9' {
            Some((((s[i] as u32 - 48) * 10 + (s[i + 1] as u32 - 48)) as u32, i + 2))
        } else {
            Some(((s[i] as u32 - 48) as u32, i + 1))
        }
    } else {
        None
    }
}

/// Temporal-layer count of a scalability-mode string: the number after
/// `T` in a `[LS]<n>T<t>` prefix, or 0 when the prefix does not parse.
pub open spec fn spec_temporal_layers(s: Seq<char>) -> u32 {
    if s.len() > 0 && (s[0] == 'L' || s[0] == 'S') {
        match spec_two_digit_num(s, 1) {
            Some((_spatial, i)) => {
                if i < s.len() && s[i] == 'T' {
                    match spec_two_digit_num(s, i + 1) {
                        Some((t, _)) => t,
                        None => 0,
                    }
                } else {
                    0
                }
            },
            None => 0,
        }
    } else {
        0
    }
}

/// Reads the one- or two-digit number at position `i`.
fn two_digit_num(s: &str, i: usize, len: usize) -> (r: Option<(u32, usize)>)
    requires
        len == s@.len(),
    ensures
        match r {
            Some(p) => spec_two_digit_num(s@, i as int) == Some((p.0, p.1 as int)),
            None => spec_two_digit_num(s@, i as int) is None,
        },
{
    if i < len {
        let c = s.get_char(i);
        if '1' <= c && c <= '9' {
            let d0 = c as u32 - 48;
            if i + 1 < len {
                let c1 = s.get_char(i + 1);
                if '0' <= c1 && c1 <= '9' {
                    return Some((d0 * 10 + (c1 as u32 - 48), i + 2));
                }
            }
            return Some((d0, i + 1));
        }
    }
    None
}

/// Temporal-layer count of a scalability-mode string; 0 when the string
/// does not start with a well-formed `[LS]<n>T<t>` prefix.
pub fn temporal_layers_of(s: &str) -> (r: u32)
    ensures
        r == spec_temporal_layers(s@),
{
    let len = s.unicode_len();
    if len == 0 {
        return 0;
    }
    let c0 = s.get_char(0);
    if !(c0 == 'L' || c0 == 'S') {
        return 0;
    }
    match two_digit_num(s, 1, len) {
        Some((_spatial, i)) => {
            if i < len {
                let ct = s.get_char(i);
                if ct == 'T' {
                    match two_digit_num(s, i + 1, len) {
                        Some((t, _next)) => t,
                        None => 0,
                    }
                } else {
                    0
                }
            } else {
                0
            }
        },
        None => 0,
    }
}

/// One decimal digit as a character.
pub open spec fn spec_digit_char(d: nat) -> char {
    if d == 0 {
        '0'
    } else if d == 1 {
        '1'
    } else if d == 2 {
        '2'
    } else if d == 3 {
        '3'
    } else if d == 4 {
        '4'
    } else if d == 5 {
        '5'
    } else if d == 6 {
        '6'
    } else if d == 7 {
        '7'
    } else if d == 8 {
        '8'
    } else {
        '9'
    }
}

/// Decimal representation of a number, most significant digit first.
pub open spec fn spec_dec_digits(n: nat) -> Seq<char>
    decreases n,
{
    if n < 10 {
        seq![spec_digit_char(n)]
    } else {
        spec_dec_digits(n / 10).push(spec_digit_char(n % 10))
    }
}

/// One decimal digit as a string slice.
fn digit_str(d: usize) -> (r: &'static str)
    requires
        d < 10,
    ensures
        r@ =~= seq![spec_digit_char(d as nat)],
{
    proof {
        reveal_strlit("0");
        reveal_strlit("1");
        reveal_strlit("2");
        reveal_strlit("3");
        reveal_strlit("4");
        reveal_strlit("5");
        reveal_strlit("6");
        reveal_strlit("7");
        reveal_strlit("8");
        reveal_strlit("9");
    }
    match d {
        0 => "0",
        1 => "1",
        2 => "2",
        3 => "3",
        4 => "4",
        5 => "5",
        6 => "6",
        7 => "7",
        8 => "8",
        _ => "9",
    }
}

/// Appends the decimal representation of `n`.
fn push_decimal(out: &mut String, n: usize)
    ensures
        final(out)@ == old(out)@ + spec_dec_digits(n as nat),
    decreases n,
{
    if n >= 10 {
        push_decimal(out, n / 10);
    }
    let ds = digit_str(n % 10);
    out.append(ds);
    proof {
        if n >= 10 {
            assert(final(out)@ =~= old(out)@ + spec_dec_digits(n as nat));
        } else {
            assert(final(out)@ =~= old(out)@ + spec_dec_digits(n as nat));
        }
    }
}

/// The scalability mode written for a collapsed simulcast encoding:
/// `S<n>T<t>` for `n` spatial (simulcast) layers and `t` temporal layers.
pub open spec fn spec_simulcast_scalability_mode(n: nat, t: nat) -> Seq<char> {
    seq!['S'] + spec_dec_digits(n) + seq!['T'] + spec_dec_digits(t)
}

/// Writes the `S<n>T<t>` scalability mode.
pub fn simulcast_scalability_mode(n: usize, t: u32) -> (r: String)
    ensures
        r@ == spec_simulcast_scalability_mode(n as nat, t as nat),
{
    let mut out = String::new();
    proof {
        reveal_strlit("S");
        reveal_strlit("T");
    }
    out.append("S");
    push_decimal(&mut out, n);
    out.append("T");
    let t_us: usize = t as usize;
    push_decimal(&mut out, t_us);
    proof {
        assert(out@ =~= spec_simulcast_scalability_mode(n as nat, t as nat));
    }
    out
}

} // verus!
