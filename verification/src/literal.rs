//! Numeric literals: byte values of an alphabet, buffer sizes and moments.
//!
//! A literal is written in decimal (`65`) or in hexadecimal after `0x`
//! (`0x41`). The text of an accepted literal is carried into the emitted code
//! as it was written; its value is kept beside it so that two spellings of
//! one number can be told to be equal.

use crate::error::{ErrorKind, Fault, FaultView};
use crate::text::chars_of;
use vstd::prelude::*;
use vstd::string::*;

verus! {

pub open spec fn is_dec_digit(c: char) -> bool {
    '0' <= c <= '9'
}

pub open spec fn is_hex_digit(c: char) -> bool {
    ||| '0' <= c <= '9'
    ||| 'a' <= c <= 'f'
    ||| 'A' <= c <= 'F'
}

/// The number that a hexadecimal digit stands for.
pub open spec fn digit_value(c: char) -> nat {
    if '0' <= c <= '9' {
        (c as nat - '0' as nat) as nat
    } else if 'a' <= c <= 'f' {
        (c as nat - 'a' as nat + 10) as nat
    } else {
        (c as nat - 'A' as nat + 10) as nat
    }
}

/// The number that a run of digits stands for in the given base.
pub open spec fn digits_value(s: Seq<char>, base: nat) -> nat
    decreases s.len(),
{
    if s.len() == 0 {
        0
    } else {
        digits_value(s.drop_last(), base) * base + digit_value(s.last())
    }
}

/// One or more decimal digits.
pub open spec fn is_decimal(s: Seq<char>) -> bool {
    &&& s.len() > 0
    &&& forall|i: int| 0 <= i < s.len() ==> is_dec_digit(#[trigger] s[i])
}

/// `0x` and then one or more hexadecimal digits.
pub open spec fn is_hexadecimal(s: Seq<char>) -> bool {
    &&& s.len() > 2
    &&& s[0] == '0'
    &&& s[1] == 'x'
    &&& forall|i: int| 2 <= i < s.len() ==> is_hex_digit(#[trigger] s[i])
}

/// The grammar of a literal.
pub open spec fn is_literal(s: Seq<char>) -> bool {
    is_decimal(s) || is_hexadecimal(s)
}

/// The number that a literal stands for.
pub open spec fn literal_value(s: Seq<char>) -> nat {
    if is_hexadecimal(s) {
        digits_value(s.subrange(2, s.len() as int), 16)
    } else {
        digits_value(s, 10)
    }
}

/// A literal that the compiler accepts: it follows the grammar and its value
/// fits the widest integer type of the emitted code.
pub open spec fn is_accepted(s: Seq<char>) -> bool {
    is_literal(s) && literal_value(s) <= u128::MAX
}

/// What is reported for a text that is no accepted literal.
pub open spec fn malformed(s: Seq<char>) -> FaultView {
    FaultView { kind: ErrorKind::MalformedLiteral, message: "malformed literal: "@ + s }
}

/// What `parse_literal` returns for a text.
pub open spec fn parsed(s: Seq<char>) -> Result<LiteralView, FaultView> {
    if is_accepted(s) {
        Ok(LiteralView { text: s, value: literal_value(s) })
    } else {
        Err(malformed(s))
    }
}

/// The fault of a text that is no accepted literal, if it is none.
pub open spec fn literal_fault(s: Seq<char>) -> Option<FaultView> {
    if is_accepted(s) {
        None
    } else {
        Some(malformed(s))
    }
}

/// An accepted literal.
#[derive(Debug)]
pub struct Literal {
    text: String,
    value: u128,
}

pub struct LiteralView {
    pub text: Seq<char>,
    pub value: nat,
}

impl View for Literal {
    type V = LiteralView;

    closed spec fn view(&self) -> LiteralView {
        LiteralView { text: self.text@, value: self.value as nat }
    }
}

impl Literal {
    /// The literal as it was written.
    pub fn text(&self) -> (t: &str)
        ensures
            t@ == self@.text,
    {
        self.text.as_str()
    }

    /// The number that the literal stands for.
    pub fn value(&self) -> (v: u128)
        ensures
            v == self@.value,
    {
        self.value
    }
}

/// The value of a digit, where it is one in the given base.
fn digit(c: char, hex: bool) -> (d: Option<u128>)
    ensures
        d is Some <==> (if hex {
            is_hex_digit(c)
        } else {
            is_dec_digit(c)
        }),
        d matches Some(v) ==> v == digit_value(c) && v < 16,
{
    if '0' <= c && c <= '9' {
        Some((c as u32 - '0' as u32) as u128)
    } else if hex && 'a' <= c && c <= 'f' {
        Some((c as u32 - 'a' as u32 + 10) as u128)
    } else if hex && 'A' <= c && c <= 'F' {
        Some((c as u32 - 'A' as u32 + 10) as u128)
    } else {
        None
    }
}

/// Reads a literal. It is accepted where it is decimal or hexadecimal and
/// its value fits in 128 bits, and refused as malformed otherwise.
pub fn parse_literal(s: &str) -> (r: Result<Literal, Fault>)
    ensures
        match r {
            Ok(l) => parsed(s@) == Ok::<LiteralView, FaultView>(l@),
            Err(f) => parsed(s@) == Err::<LiteralView, FaultView>(f@),
        },
{
    let chars = chars_of(s);
    let n = chars.len();
    let hex = n >= 2 && chars[0] == '0' && chars[1] == 'x';
    let first: usize = if hex {
        2
    } else {
        0
    };
    let base: u128 = if hex {
        16
    } else {
        10
    };
    let ghost digits = s@.subrange(first as int, n as int);
    let mut value: u128 = 0;
    let mut fits = true;
    let mut i: usize = first;
    if n == first {
        proof {
            if hex {
                assert(!is_dec_digit(s@[1]));
            }
        }
        return Err(refuse(s));
    }
    while i < n
        invariant
            first <= i <= n,
            n == s@.len(),
            chars@ == s@,
            hex == (n >= 2 && s@[0] == '0' && s@[1] == 'x'),
            first == (if hex {
                2usize
            } else {
                0usize
            }),
            digits == s@.subrange(first as int, n as int),
            base == (if hex {
                16u128
            } else {
                10u128
            }),
            forall|j: int|
                first <= j < i ==> (if hex {
                    is_hex_digit(#[trigger] s@[j])
                } else {
                    is_dec_digit(#[trigger] s@[j])
                }),
            fits ==> value == digits_value(digits.take(i - first), base as nat),
            !fits ==> digits_value(digits.take(i - first), base as nat) > u128::MAX,
        decreases n - i,
    {
        let d = match digit(chars[i], hex) {
            Some(d) => d,
            None => {
                proof {
                    if hex {
                        assert(!is_hex_digit(s@[i as int]));
                        assert(!is_dec_digit(s@[1]));
                    } else {
                        assert(!is_dec_digit(s@[i as int]));
                    }
                }
                return Err(refuse(s));
            },
        };
        proof {
            assert(digits.take(i + 1 - first).drop_last() =~= digits.take(i - first));
            assert(digits.take(i + 1 - first).last() == s@[i as int]);
        }
        if fits {
            let next = match value.checked_mul(base) {
                Some(v) => v.checked_add(d),
                None => None,
            };
            match next {
                Some(v) => {
                    value = v;
                },
                None => {
                    fits = false;
                },
            }
        } else {
            proof {
                let v = digits_value(digits.take(i - first), base as nat);
                assert(v * base >= v) by (nonlinear_arith)
                    requires
                        base >= 1,
                        v >= 0,
                ;
            }
        }
        i += 1;
    }
    proof {
        assert(digits.take(n - first) =~= digits);
        if hex {
            assert(is_hexadecimal(s@));
        } else {
            assert(is_decimal(s@));
            assert(digits =~= s@);
        }
    }
    if fits {
        Ok(Literal { text: s.to_owned(), value })
    } else {
        Err(refuse(s))
    }
}

/// Tests a literal.
pub fn check_literal(s: &str) -> (r: Result<(), Fault>)
    ensures
        match r {
            Ok(_) => literal_fault(s@) is None,
            Err(f) => literal_fault(s@) == Some(f@),
        },
{
    match parse_literal(s) {
        Ok(_) => Ok(()),
        Err(f) => Err(f),
    }
}

/// The fault for a text that is no accepted literal.
fn refuse(s: &str) -> (f: Fault)
    ensures
        f@ == malformed(s@),
{
    let mut message = String::from_str("malformed literal: ");
    message.append(s);
    Fault::new(ErrorKind::MalformedLiteral, message)
}

} // verus!
