use std::str::FromStr;
use vstd::prelude::*;

verus! {

/// A 20-byte account address.
pub type Address = [u8; 20];

pub open spec fn is_hex_char(c: char) -> bool {
    ('0' <= c && c <= '9') || ('a' <= c && c <= 'f') || ('A' <= c && c <= 'F')
}

/// Value of a hex digit of either case.
pub open spec fn hex_value(c: char) -> int {
    if '0' <= c && c <= '9' {
        c as int - '0' as int
    } else if 'a' <= c && c <= 'f' {
        c as int - 'a' as int + 10
    } else {
        c as int - 'A' as int + 10
    }
}

/// The text without a leading `0x` or `0X`.
pub open spec fn strip_hex_prefix(s: Seq<char>) -> Seq<char> {
    if s.len() >= 2 && s[0] == '0' && (s[1] == 'x' || s[1] == 'X') {
        s.skip(2)
    } else {
        s
    }
}

/// The address that a text spells: an optional `0x` prefix, then exactly
/// forty hex digits of either case, two for each byte.
pub open spec fn address_of_text(s: Seq<char>) -> Option<Seq<u8>> {
    let d = strip_hex_prefix(s);
    if d.len() == 40 && forall|i: int| 0 <= i < 40 ==> is_hex_char(#[trigger] d[i]) {
        Some(Seq::new(20, |i: int| (hex_value(d[2 * i]) * 16 + hex_value(d[2 * i + 1])) as u8))
    } else {
        None
    }
}

/// Relies on alloy's `Address::from_str`, which decodes hex into a fixed
/// 20-byte array: an optional `0x`/`0X` prefix, then exactly forty hex digits.
#[verifier::external_body]
pub(crate) fn parse_address(s: &str) -> (r: Option<Address>)
    ensures
        match r {
            Some(a) => address_of_text(s@) == Some(a@),
            None => address_of_text(s@).is_none(),
        },
{
    alloy::primitives::Address::from_str(s).ok().map(|a| a.0.0)
}

/// The EIP-55 mixed-case text of an address.
pub uninterp spec fn checksum_text(a: Seq<u8>) -> Seq<char>;

/// Relies on alloy's `Display` for `Address`, which writes the EIP-55
/// checksummed text; it depends on the bytes alone.
#[verifier::external_body]
pub(crate) fn address_text(a: &Address) -> (r: String)
    ensures
        r@ == checksum_text(a@),
{
    alloy::primitives::Address::from(*a).to_string()
}

/// Whether two addresses hold the same bytes.
pub fn same_address(a: &Address, b: &Address) -> (r: bool)
    ensures
        r == (a@ == b@),
{
    let mut i: usize = 0;
    while i < 20
        invariant
            i <= 20,
            forall|j: int| 0 <= j < i ==> a@[j] == b@[j],
        decreases 20 - i,
    {
        if a[i] != b[i] {
            return false;
        }
        i = i + 1;
    }
    assert(a@ =~= b@);
    true
}

} // verus!
