//! Decimal text for feed values: formatting a `u128` and parsing it
//! back, at the byte level for the wire and at the character level for
//! display.
//!
//! Parsing follows the usual integer grammar: an optional leading `+`,
//! then one or more digits, rejected when the value exceeds the 128-bit
//! range.  Formatting always emits the canonical form — no sign, no
//! leading zeros — and round-trips through parsing.

use vstd::prelude::*;

verus! {

/// The ASCII digit for `d`.
pub open spec fn digit_byte(d: int) -> u8
    recommends
        0 <= d <= 9,
{
    (48 + d) as u8
}

/// The decimal digits of `v`, most significant first.
pub open spec fn spec_u128_decimal_bytes(v: u128) -> Seq<u8>
    decreases v,
{
    if v < 10 {
        seq![digit_byte(v as int)]
    } else {
        spec_u128_decimal_bytes((v / 10) as u128).push(digit_byte((v % 10) as int))
    }
}

/// Every byte is an ASCII digit.
pub open spec fn all_decimal_digits(s: Seq<u8>) -> bool {
    forall|i: int| 0 <= i < s.len() ==> 48 <= #[trigger] s[i] <= 57
}

/// The integer a digit string denotes.
pub open spec fn spec_decimal_value(s: Seq<u8>) -> int
    decreases s.len(),
{
    if s.len() == 0 {
        0
    } else {
        spec_decimal_value(s.drop_last()) * 10 + (s.last() - 48)
    }
}

/// The string with an optional leading `+` removed.
pub open spec fn strip_plus(s: Seq<u8>) -> Seq<u8> {
    if s.len() > 0 && s[0] == 43 {
        s.drop_first()
    } else {
        s
    }
}

/// The byte strings that parse as a `u128`: after the optional sign, one
/// or more digits denoting a value within the 128-bit range.
pub open spec fn valid_u128_decimal(s: Seq<u8>) -> bool {
    let t = strip_plus(s);
    &&& t.len() > 0
    &&& all_decimal_digits(t)
    &&& spec_decimal_value(t) <= u128::MAX
}

/// A digit string denotes a non-negative integer.
proof fn lemma_decimal_value_nonneg(s: Seq<u8>)
    requires
        all_decimal_digits(s),
    ensures
        spec_decimal_value(s) >= 0,
    decreases s.len(),
{
    if s.len() > 0 {
        assert(all_decimal_digits(s.drop_last())) by {
            assert(forall|i: int|
                0 <= i < s.len() - 1 ==> #[trigger] s.drop_last()[i] == s[i]);
        }
        lemma_decimal_value_nonneg(s.drop_last());
    }
}

/// Extending a digit string never shrinks its value, so once a prefix
/// exceeds the range the whole string does.
proof fn lemma_decimal_value_prefix(s: Seq<u8>, i: int)
    requires
        all_decimal_digits(s),
        0 <= i <= s.len(),
    ensures
        spec_decimal_value(s) >= spec_decimal_value(s.take(i)),
    decreases s.len() - i,
{
    if i < s.len() {
        lemma_decimal_value_prefix(s, i + 1);
        let p = s.take(i + 1);
        assert(all_decimal_digits(p)) by {
            assert(forall|j: int| 0 <= j < p.len() ==> #[trigger] p[j] == s[j]);
        }
        assert(p.drop_last() =~= s.take(i));
        lemma_decimal_value_nonneg(p.drop_last());
        assert(spec_decimal_value(p) >= spec_decimal_value(s.take(i)));
    } else {
        assert(s.take(i) =~= s);
    }
}

/// Formats `v` as its canonical decimal digits.
pub fn u128_decimal_bytes(v: u128) -> (out: Vec<u8>)
    ensures
        out@ == spec_u128_decimal_bytes(v),
    decreases v,
{
    proof {
        if v >= 10 {
            assert(v / 10 < v) by (nonlinear_arith)
                requires
                    v >= 10,
            ;
        }
        assert(v % 10 < 10) by (nonlinear_arith);
    }
    if v < 10 {
        let mut out: Vec<u8> = Vec::new();
        out.push(48 + (v as u8));
        proof {
            assert(out@ =~= spec_u128_decimal_bytes(v));
        }
        out
    } else {
        let mut out = u128_decimal_bytes(v / 10);
        out.push(48 + ((v % 10) as u8));
        proof {
            assert(out@ =~= spec_u128_decimal_bytes(v));
        }
        out
    }
}

/// Parses a decimal string into a `u128`, accepting exactly the strings
/// of the integer grammar whose value fits.
pub fn parse_u128_decimal(s: &[u8]) -> (r: Option<u128>)
    ensures
        r is Some <==> valid_u128_decimal(s@),
        r matches Some(v) ==> v == spec_decimal_value(strip_plus(s@)),
{
    let digits: &[u8] = if s.len() > 0 && s[0] == 43 {
        vstd::slice::slice_subrange(s, 1, s.len())
    } else {
        s
    };
    proof {
        assert(digits@ =~= strip_plus(s@));
    }
    if digits.len() == 0 {
        return None;
    }
    let ghost t = digits@;
    let mut acc: u128 = 0;
    let mut i: usize = 0;
    while i < digits.len()
        invariant
            0 <= i <= t.len(),
            t == digits@,
            t == strip_plus(s@),
            t.len() > 0,
            all_decimal_digits(t.take(i as int)),
            acc == spec_decimal_value(t.take(i as int)),
        decreases t.len() - i,
    {
        let b = digits[i];
        if b < 48 || b > 57 {
            assert(!all_decimal_digits(t));
            return None;
        }
        let d = (b - 48) as u128;
        proof {
            assert(t.take(i as int + 1).drop_last() =~= t.take(i as int));
            assert(t.take(i as int + 1).last() == t[i as int]);
        }
        if acc > u128::MAX / 10 || (acc == u128::MAX / 10 && d > u128::MAX % 10) {
            proof {
                assert(spec_decimal_value(t.take(i as int + 1)) == acc * 10 + d);
                assert(acc * 10 + d > u128::MAX) by (nonlinear_arith)
                    requires
                        acc > u128::MAX / 10 || (acc == u128::MAX / 10 && d > u128::MAX % 10),
                        d < 10,
                ;
                if all_decimal_digits(t) {
                    lemma_decimal_value_prefix(t, i as int + 1);
                }
            }
            return None;
        }
        proof {
            assert(acc * 10 + d <= u128::MAX) by (nonlinear_arith)
                requires
                    acc <= u128::MAX / 10,
                    !(acc == u128::MAX / 10 && d > u128::MAX % 10),
                    d < 10,
            ;
        }
        acc = acc * 10 + d;
        i = i + 1;
    }
    proof {
        assert(t.take(i as int) =~= t);
    }
    Some(acc)
}

/// Formatting round-trips: the canonical digits of `v` parse back to
/// `v`, so a value survives the trip onto the wire and back.
pub proof fn lemma_decimal_round_trip(v: u128)
    ensures
        spec_u128_decimal_bytes(v).len() >= 1,
        all_decimal_digits(spec_u128_decimal_bytes(v)),
        valid_u128_decimal(spec_u128_decimal_bytes(v)),
        spec_decimal_value(spec_u128_decimal_bytes(v)) == v,
    decreases v,
{
    if v < 10 {
        let w = spec_u128_decimal_bytes(v);
        assert(w =~= seq![digit_byte(v as int)]);
        assert(w.drop_last() =~= Seq::<u8>::empty());
        assert(spec_decimal_value(w.drop_last()) == 0);
        assert(spec_decimal_value(w) == v);
        assert(strip_plus(w) == w);
    } else {
        assert(v / 10 < v) by (nonlinear_arith)
            requires
                v >= 10,
        ;
        assert(v % 10 < 10) by (nonlinear_arith);
        lemma_decimal_round_trip(v / 10);
        let p = spec_u128_decimal_bytes((v / 10) as u128);
        let w = spec_u128_decimal_bytes(v);
        assert(w.drop_last() =~= p);
        assert(w.last() == digit_byte((v % 10) as int));
        assert(all_decimal_digits(w)) by {
            assert(forall|i: int| 0 <= i < w.len() - 1 ==> #[trigger] w[i] == p[i]);
        }
        assert(spec_decimal_value(w) == spec_decimal_value(p) * 10 + (v % 10));
        assert((v / 10) * 10 + (v % 10) == v) by (nonlinear_arith);
        assert(strip_plus(w) == w);
    }
}

/// The character for digit `d`.
pub open spec fn digit_char(d: int) -> char {
    if d == 0 {
        '0'
    } else if d == 1 {
        '1'
    } else if d == 2 {
        '2'
    } else if d == 3 {
        '3'
    } else if d == 4 {
        '4'
    } else if d == 5 {
        '5'
    } else if d == 6 {
        '6'
    } else if d == 7 {
        '7'
    } else if d == 8 {
        '8'
    } else {
        '9'
    }
}

/// The decimal digits of `v` as characters, most significant first.
pub open spec fn spec_u128_to_decimal(v: u128) -> Seq<char>
    decreases v,
{
    if v < 10 {
        seq![digit_char(v as int)]
    } else {
        spec_u128_to_decimal((v / 10) as u128).push(digit_char((v % 10) as int))
    }
}

/// The one-character string for digit `d`.
fn digit_str(d: u8) -> (s: &'static str)
    requires
        d < 10,
    ensures
        s@ == seq![digit_char(d as int)],
{
    let s = if d == 0 {
        "0"
    } else if d == 1 {
        "1"
    } else if d == 2 {
        "2"
    } else if d == 3 {
        "3"
    } else if d == 4 {
        "4"
    } else if d == 5 {
        "5"
    } else if d == 6 {
        "6"
    } else if d == 7 {
        "7"
    } else if d == 8 {
        "8"
    } else {
        "9"
    };
    proof {
        reveal_strlit("0");
        reveal_strlit("1");
        reveal_strlit("2");
        reveal_strlit("3");
        reveal_strlit("4");
        reveal_strlit("5");
        reveal_strlit("6");
        reveal_strlit("7");
        reveal_strlit("8");
        reveal_strlit("9");
        assert(s@ =~= seq![digit_char(d as int)]);
    }
    s
}

/// Formats `v` as a decimal string for display.
pub fn u128_to_decimal(v: u128) -> (s: String)
    ensures
        s@ == spec_u128_to_decimal(v),
    decreases v,
{
    proof {
        if v >= 10 {
            assert(v / 10 < v) by (nonlinear_arith)
                requires
                    v >= 10,
            ;
        }
        assert(v % 10 < 10) by (nonlinear_arith);
    }
    if v < 10 {
        let s = String::from_str(digit_str(v as u8));
        proof {
            assert(s@ =~= spec_u128_to_decimal(v));
        }
        s
    } else {
        let mut s = u128_to_decimal(v / 10);
        s.append(digit_str((v % 10) as u8));
        proof {
            assert(s@ =~= spec_u128_to_decimal(v));
        }
        s
    }
}

} // verus!
