//! Feed-name validation, fixed-width padding, and read-back stripping.
//!
//! A feed name is 1 to 32 bytes of lowercase ASCII letters, digits, `.`,
//! `-` and `_`.  Before address derivation and storage the name is
//! zero-padded on the right to exactly 32 bytes; on read-back the padding
//! is stripped again.  Because a valid name never contains a zero byte,
//! padding is injective on valid names and stripping recovers the name.

use vstd::prelude::*;

verus! {

/// Longest allowed feed name, in bytes; also the fixed encoding width.
pub const FEED_NAME_MAX_LEN: usize = 32;

/// True of the bytes a feed name may contain:
/// lowercase ASCII letters, digits, `.`, `-` and `_`.
pub open spec fn valid_name_byte(b: u8) -> bool {
    ||| b == 95  // '_'
    ||| b == 46  // '.'
    ||| b == 45  // '-'
    ||| 48 <= b <= 57  // '0' ..= '9'
    ||| 97 <= b <= 122  // 'a' ..= 'z'
}

/// A well-formed feed name: 1 to 32 bytes, all from the allowed charset.
pub open spec fn valid_name(s: Seq<u8>) -> bool {
    &&& 1 <= s.len() <= 32
    &&& forall|i: int| 0 <= i < s.len() ==> valid_name_byte(#[trigger] s[i])
}

/// Checks a candidate feed name against the length and charset rules.
pub fn is_valid_name(bytes: &[u8]) -> (ok: bool)
    ensures
        ok == valid_name(bytes@),
{
    if bytes.len() < 1 || bytes.len() > FEED_NAME_MAX_LEN {
        return false;
    }
    let mut i: usize = 0;
    while i < bytes.len()
        invariant
            0 <= i <= bytes@.len(),
            forall|j: int| 0 <= j < i ==> valid_name_byte(#[trigger] bytes@[j]),
        decreases bytes@.len() - i,
    {
        let b = bytes[i];
        if !(b == 95 || b == 46 || b == 45 || (48 <= b && b <= 57) || (97 <= b && b <= 122)) {
            return false;
        }
        i = i + 1;
    }
    true
}

/// The name zero-padded on the right to the fixed 32-byte width.
pub open spec fn pad_name(s: Seq<u8>) -> Seq<u8>
    recommends
        s.len() <= 32,
{
    s + Seq::new((32 - s.len()) as nat, |i: int| 0u8)
}

/// Zero-pads a name to exactly 32 bytes.
pub fn name_bytes(name: &[u8]) -> (padded: Vec<u8>)
    requires
        name@.len() <= 32,
    ensures
        padded@ == pad_name(name@),
        padded@.len() == 32,
{
    let mut padded: Vec<u8> = Vec::new();
    let mut i: usize = 0;
    while i < name.len()
        invariant
            0 <= i <= name@.len() <= 32,
            padded@ == name@.take(i as int),
        decreases name@.len() - i,
    {
        padded.push(name[i]);
        i = i + 1;
    }
    assert(padded@ == name@);
    while padded.len() < 32
        invariant
            name@.len() <= padded@.len() <= 32,
            padded@.take(name@.len() as int) == name@,
            forall|j: int| name@.len() <= j < padded@.len() ==> padded@[j] == 0u8,
        decreases 32 - padded@.len(),
    {
        padded.push(0u8);
    }
    assert(padded@ =~= pad_name(name@));
    padded
}

/// Index of the first zero byte at or after `i`, or the length if none.
pub open spec fn first_zero_from(s: Seq<u8>, i: int) -> int
    decreases s.len() - i when 0 <= i <= s.len()
{
    if i < 0 || i >= s.len() {
        s.len() as int
    } else if s[i] == 0 {
        i
    } else {
        first_zero_from(s, i + 1)
    }
}

/// Index of the first zero byte, or the length if there is none.
pub open spec fn first_zero(s: Seq<u8>) -> int {
    first_zero_from(s, 0)
}

/// The stored 32-byte field with its right zero-padding stripped:
/// everything before the first zero byte.
pub open spec fn strip_padding(s: Seq<u8>) -> Seq<u8> {
    s.take(first_zero(s))
}

/// Basic bounds of `first_zero_from`.
proof fn lemma_first_zero_from_bounds(s: Seq<u8>, i: int)
    requires
        0 <= i <= s.len(),
    ensures
        i <= first_zero_from(s, i) <= s.len(),
        first_zero_from(s, i) < s.len() ==> s[first_zero_from(s, i)] == 0,
        forall|j: int| i <= j < first_zero_from(s, i) ==> s[j] != 0,
    decreases s.len() - i,
{
    if i < s.len() && s[i] != 0 {
        lemma_first_zero_from_bounds(s, i + 1);
    }
}

/// Recovers the display name from a stored zero-padded field.
pub fn unpad_name(bytes: &[u8]) -> (name: Vec<u8>)
    ensures
        name@ == strip_padding(bytes@),
{
    let mut name: Vec<u8> = Vec::new();
    let mut i: usize = 0;
    while i < bytes.len()
        invariant
            0 <= i <= bytes@.len(),
            name@ == bytes@.take(i as int),
            first_zero(bytes@) == first_zero_from(bytes@, i as int),
        decreases bytes@.len() - i,
    {
        if bytes[i] == 0 {
            proof {
                lemma_first_zero_from_bounds(bytes@, i as int);
            }
            assert(first_zero(bytes@) == i as int);
            return name;
        }
        name.push(bytes[i]);
        i = i + 1;
    }
    proof {
        lemma_first_zero_from_bounds(bytes@, i as int);
    }
    name
}

/// A stored 32-byte name field is canonical when it is exactly its
/// stripped name zero-padded back to full width: nothing but zeros may
/// follow the first zero byte.  Only canonical fields keep name and
/// storage address in one-to-one correspondence.
pub open spec fn canonical_name_field(s: Seq<u8>) -> bool {
    s == pad_name(strip_padding(s))
}

/// Checks that a 32-byte name field is canonically padded.
pub fn is_canonical_name_field(field: &[u8]) -> (r: bool)
    requires
        field@.len() == 32,
    ensures
        r == canonical_name_field(field@),
{
    let name = unpad_name(field);
    proof {
        lemma_first_zero_from_bounds(field@, 0);
    }
    let mut j: usize = name.len();
    while j < field.len()
        invariant
            field@.len() == 32,
            first_zero(field@) <= j <= 32,
            first_zero(field@) == strip_padding(field@).len(),
            forall|k: int| first_zero(field@) <= k < j ==> field@[k] == 0,
        decreases field@.len() - j,
    {
        if field[j] != 0 {
            proof {
                assert(pad_name(strip_padding(field@))[j as int] == 0);
            }
            return false;
        }
        j = j + 1;
    }
    proof {
        assert(field@ =~= pad_name(strip_padding(field@)));
    }
    true
}

/// A padded valid name starts with the name itself, and its first zero
/// byte sits exactly where the padding starts.
proof fn lemma_first_zero_of_padded(s: Seq<u8>)
    requires
        valid_name(s),
    ensures
        first_zero(pad_name(s)) == s.len(),
{
    let p = pad_name(s);
    assert forall|j: int| 0 <= j < s.len() implies p[j] != 0 by {
        assert(valid_name_byte(s[j]));
    }
    lemma_first_zero_from_prefix(p, 0, s.len() as int);
}

/// If every byte before `k` is nonzero and `k` is the length or a zero
/// byte, then `k` is the first zero from `i`.
proof fn lemma_first_zero_from_prefix(s: Seq<u8>, i: int, k: int)
    requires
        0 <= i <= k <= s.len(),
        forall|j: int| i <= j < k ==> s[j] != 0,
        k == s.len() || s[k] == 0,
    ensures
        first_zero_from(s, i) == k,
    decreases k - i,
{
    if i < k {
        lemma_first_zero_from_prefix(s, i + 1, k);
    }
}

/// Stripping undoes padding: a valid name round-trips through the fixed
/// 32-byte encoding unchanged.
pub proof fn lemma_strip_padding_of_pad_name(s: Seq<u8>)
    requires
        valid_name(s),
    ensures
        strip_padding(pad_name(s)) == s,
{
    lemma_first_zero_of_padded(s);
    assert(pad_name(s).take(s.len() as int) =~= s);
}

/// Padding is injective on valid names: distinct names keep distinct
/// 32-byte encodings, so they can never share a derivation seed.
pub proof fn lemma_pad_name_injective(a: Seq<u8>, b: Seq<u8>)
    requires
        valid_name(a),
        valid_name(b),
        a != b,
    ensures
        pad_name(a) != pad_name(b),
{
    if pad_name(a) == pad_name(b) {
        lemma_strip_padding_of_pad_name(a);
        lemma_strip_padding_of_pad_name(b);
    }
}

} // verus!
