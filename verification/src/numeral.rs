//! Reading unsigned numbers out of command arguments.
//!
//! A number is an optional `+` followed by one or more digits of its radix;
//! an address is such a number in radix 16, optionally after `0x` or `0X`.

use vstd::prelude::*;

verus! {

/// The value of `c` as a digit, for radix 10 or 16.
pub open spec fn digit_value(c: char, radix: nat) -> Option<nat> {
    if '0' <= c <= '9' {
        Some((c as nat - '0' as nat) as nat)
    } else if radix == 16 && 'a' <= c <= 'f' {
        Some((c as nat - 'a' as nat + 10) as nat)
    } else if radix == 16 && 'A' <= c <= 'F' {
        Some((c as nat - 'A' as nat + 10) as nat)
    } else {
        None
    }
}

/// Every character of `digits` is a digit of `radix`.
pub open spec fn all_digits(digits: Seq<char>, radix: nat) -> bool {
    forall|i: int| 0 <= i < digits.len() ==> (#[trigger] digit_value(digits[i], radix)).is_some()
}

/// The number that `digits` spell in `radix`, most significant digit first.
pub open spec fn digits_value(digits: Seq<char>, radix: nat) -> nat
    decreases digits.len(),
{
    if digits.len() == 0 {
        0
    } else {
        digits_value(digits.drop_last(), radix) * radix + match digit_value(digits.last(), radix) {
            Some(d) => d,
            None => 0,
        }
    }
}

/// `s` without one leading `+`.
pub open spec fn without_sign(s: Seq<char>) -> Seq<char> {
    if s.len() > 0 && s[0] == '+' {
        s.subrange(1, s.len() as int)
    } else {
        s
    }
}

/// `s` without a leading `0x` or `0X`.
pub open spec fn without_hex_prefix(s: Seq<char>) -> Seq<char> {
    if s.len() >= 2 && s[0] == '0' && (s[1] == 'x' || s[1] == 'X') {
        s.subrange(2, s.len() as int)
    } else {
        s
    }
}

/// The number written in `s`, if `s` is a well-formed number that fits a `usize`.
pub open spec fn number_of(s: Seq<char>, radix: nat) -> Option<usize> {
    let digits = without_sign(s);
    if digits.len() > 0 && all_digits(digits, radix) && digits_value(digits, radix) <= usize::MAX {
        Some(digits_value(digits, radix) as usize)
    } else {
        None
    }
}

/// The address written in `s`: a hexadecimal number, with or without `0x`.
pub open spec fn address_of(s: Seq<char>) -> Option<usize> {
    number_of(without_hex_prefix(s), 16)
}

/// What the argument of a break command asks for.
#[derive(Clone, Debug, PartialEq, Eq)]
pub enum BreakpointSpec {
    /// A breakpoint at this address.
    ByAddress(usize),
    /// A breakpoint at this source line.
    ByLine(usize),
    /// A breakpoint at this function.
    ByFunction(String),
}

/// What `arg` asks for: an address if it starts with `*`, and then there is
/// nothing where no address follows; else a line if it is a decimal number;
/// else the function of that name.
pub open spec fn breakpoint_spec_of(arg: String) -> Option<BreakpointSpec> {
    if arg@.len() > 0 && arg@[0] == '*' {
        match address_of(arg@.subrange(1, arg@.len() as int)) {
            Some(addr) => Some(BreakpointSpec::ByAddress(addr)),
            None => None,
        }
    } else {
        match number_of(arg@, 10) {
            Some(line) => Some(BreakpointSpec::ByLine(line)),
            None => Some(BreakpointSpec::ByFunction(arg)),
        }
    }
}

/// A longer numeral is worth at least as much as any of its prefixes.
proof fn lemma_prefix_value_bounded(digits: Seq<char>, k: int, radix: nat)
    requires
        0 <= k <= digits.len(),
        radix >= 1,
    ensures
        digits_value(digits.subrange(0, k), radix) <= digits_value(digits, radix),
    decreases digits.len(),
{
    if k == digits.len() {
        assert(digits.subrange(0, k) =~= digits);
    } else {
        let shorter = digits.drop_last();
        assert(shorter.subrange(0, k) =~= digits.subrange(0, k));
        lemma_prefix_value_bounded(shorter, k, radix);
        assert(digits_value(shorter, radix) * radix >= digits_value(shorter, radix))
            by (nonlinear_arith)
            requires
                radix >= 1,
        ;
    }
}

/// Reads one digit of radix 10 or 16.
fn read_digit(c: char, radix: usize) -> (d: Option<usize>)
    requires
        radix == 10 || radix == 16,
    ensures
        match d {
            Some(v) => digit_value(c, radix as nat) == Some(v as nat) && v < radix,
            None => digit_value(c, radix as nat).is_none(),
        },
{
    if '0' <= c && c <= '9' {
        Some((c as u32 - '0' as u32) as usize)
    } else if radix == 16 && 'a' <= c && c <= 'f' {
        Some((c as u32 - 'a' as u32 + 10) as usize)
    } else if radix == 16 && 'A' <= c && c <= 'F' {
        Some((c as u32 - 'A' as u32 + 10) as usize)
    } else {
        None
    }
}

/// Reads the number that the characters of `s` from position `from` on spell.
fn read_number(s: &str, from: usize, radix: usize) -> (n: Option<usize>)
    requires
        radix == 10 || radix == 16,
        from <= s@.len(),
    ensures
        n == number_of(s@.subrange(from as int, s@.len() as int), radix as nat),
{
    let len: usize = s.unicode_len();
    let ghost body = s@.subrange(from as int, len as int);
    let mut i: usize = from;
    if i < len && s.get_char(i) == '+' {
        i = i + 1;
    }
    let start: usize = i;
    let ghost digits = s@.subrange(start as int, len as int);
    assert(digits =~= without_sign(body));
    if start == len {
        return None;
    }
    let mut acc: usize = 0;
    while i < len
        invariant
            radix == 10 || radix == 16,
            start <= i <= len,
            len == s@.len(),
            from <= len,
            digits == s@.subrange(start as int, len as int),
            digits == without_sign(s@.subrange(from as int, len as int)),
            digits.len() > 0,
            all_digits(digits.subrange(0, i - start), radix as nat),
            acc == digits_value(digits.subrange(0, i - start), radix as nat),
        decreases len - i,
    {
        let c: char = s.get_char(i);
        let ghost seen = digits.subrange(0, i - start + 1);
        assert(seen.drop_last() =~= digits.subrange(0, i - start));
        assert(seen.last() == c);
        assert(digits_value(seen, radix as nat) == digits_value(seen.drop_last(), radix as nat)
            * radix + match digit_value(c, radix as nat) {
            Some(d) => d,
            None => 0,
        });
        match read_digit(c, radix) {
            None => {
                assert(digit_value(digits[i - start], radix as nat).is_none());
                return None;
            },
            Some(d) => {
                if acc > (usize::MAX - d) / radix {
                    proof {
                        assert(acc * radix + d > usize::MAX) by (nonlinear_arith)
                            requires
                                acc > (usize::MAX - d) / (radix as int),
                                radix > 0,
                                d <= usize::MAX,
                        ;
                        lemma_prefix_value_bounded(digits, i - start + 1, radix as nat);
                    }
                    return None;
                }
                assert(acc * radix + d <= usize::MAX) by (nonlinear_arith)
                    requires
                        acc <= (usize::MAX - d) / (radix as int),
                        radix > 0,
                        d <= usize::MAX,
                ;
                acc = acc * radix + d;
                assert forall|j: int| 0 <= j < seen.len() implies (#[trigger] digit_value(
                    seen[j],
                    radix as nat,
                )).is_some() by {
                    if j < seen.len() - 1 {
                        assert(seen[j] == digits.subrange(0, i - start)[j]);
                    }
                }
            },
        }
        i = i + 1;
    }
    assert(digits.subrange(0, i - start) =~= digits);
    Some(acc)
}

/// Reads a decimal number, such as a source line.
pub fn parse_decimal(s: &str) -> (n: Option<usize>)
    ensures
        n == number_of(s@, 10),
{
    assert(s@.subrange(0, s@.len() as int) =~= s@);
    read_number(s, 0, 10)
}

/// Reads an address: hexadecimal digits, optionally after `0x` or `0X`.
pub fn parse_address(addr: &str) -> (parsed: Option<usize>)
    ensures
        parsed == address_of(addr@),
{
    let len: usize = addr.unicode_len();
    let mut from: usize = 0;
    if len >= 2 && addr.get_char(0) == '0' {
        let x: char = addr.get_char(1);
        if x == 'x' || x == 'X' {
            from = 2;
        }
    }
    assert(addr@.subrange(0, addr@.len() as int) =~= addr@);
    read_number(addr, from, 16)
}

impl BreakpointSpec {
    /// Reads the argument of a break command.
    pub fn parse(arg: String) -> (parsed: Option<BreakpointSpec>)
        ensures
            parsed == breakpoint_spec_of(arg),
    {
        let len: usize = arg.as_str().unicode_len();
        if len > 0 && arg.as_str().get_char(0) == '*' {
            match parse_address(arg.as_str().substring_char(1, len)) {
                Some(addr) => Some(BreakpointSpec::ByAddress(addr)),
                None => None,
            }
        } else {
            match parse_decimal(arg.as_str()) {
                Some(line) => Some(BreakpointSpec::ByLine(line)),
                None => Some(BreakpointSpec::ByFunction(arg)),
            }
        }
    }
}

} // verus!
