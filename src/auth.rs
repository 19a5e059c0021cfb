use crate::address::{address_of_text, hex_value, is_hex_char, parse_address, strip_hex_prefix, Address};
use std::str::FromStr;
use vstd::prelude::*;

verus! {

/// The recovery byte `v` in its `27`/`28` form: `0`/`1` are raw parity,
/// `27`/`28` are kept, and from `35` on (EIP-155) an odd value is `27`;
/// any other value is no valid parity.
pub open spec fn normalized_v(v: u8) -> Option<u8> {
    if v == 0 {
        Some(27u8)
    } else if v == 1 {
        Some(28u8)
    } else if v == 27 || v == 28 || v >= 35 {
        Some(if v % 2 == 1 { 27u8 } else { 28u8 })
    } else {
        None
    }
}

/// The 65 signature bytes (r, s, v) that a hex text spells: an optional
/// `0x` prefix, then exactly 130 hex digits, with `v` normalized; `None`
/// where the text is not a signature.
pub open spec fn signature_of_text(text: Seq<char>) -> Option<Seq<u8>> {
    let d = strip_hex_prefix(text);
    if d.len() == 130 && forall|i: int| 0 <= i < 130 ==> is_hex_char(#[trigger] d[i]) {
        let b = Seq::new(65, |i: int| (hex_value(d[2 * i]) * 16 + hex_value(d[2 * i + 1])) as u8);
        match normalized_v(b[64]) {
            Some(v) => Some(b.take(64).push(v)),
            None => None,
        }
    } else {
        None
    }
}

/// The address whose key made the personal-message signature `sig` over
/// `msg`; `None` where no address can be recovered.
pub uninterp spec fn message_signer(sig: Seq<u8>, msg: Seq<char>) -> Option<Seq<u8>>;

/// Relies on alloy's `Signature::from_str` (hex of 65 bytes, then
/// `normalize_v` on the last) and `Signature::as_bytes`, which writes r and
/// s back unchanged and `v` as `27 + parity`.
#[verifier::external_body]
fn parse_signature(text: &str) -> (r: Option<[u8; 65]>)
    ensures
        match r {
            Some(b) => signature_of_text(text@) == Some(b@),
            None => signature_of_text(text@).is_none(),
        },
{
    alloy::primitives::Signature::from_str(text).ok().map(|s| s.as_bytes())
}

/// Relies on alloy's `Signature::recover_address_from_msg`, which hashes
/// the message with the EIP-191 prefix and recovers the signing address;
/// the outcome depends on the signature bytes and the message alone.
#[verifier::external_body]
fn recover_signer(sig: &[u8; 65], msg: &str) -> (r: Option<Address>)
    ensures
        match r {
            Some(a) => message_signer(sig@, msg@) == Some(a@),
            None => message_signer(sig@, msg@).is_none(),
        },
{
    let s = alloy::primitives::Signature::from_raw_array(sig).ok()?;
    s.recover_address_from_msg(msg).ok().map(|a| a.0.0)
}

/// A request that claims to come from `user`, with its signature text.
pub struct UserTx {
    pub user: Address,
    pub Signature: String,
}

impl UserTx {
    /// A request from the address that `user` spells, or `None` where it
    /// spells none.
    pub fn new(user: String, signature: String) -> (r: Option<Self>)
        ensures
            match r {
                Some(t) => address_of_text(user@) == Some(t.user@) && t.Signature == signature,
                None => address_of_text(user@).is_none(),
            },
    {
        match parse_address(user.as_str()) {
            Some(a) => Some(UserTx { user: a, Signature: signature }),
            None => None,
        }
    }

    /// Whether the signature, applied to `nonce` as a personal message,
    /// recovers exactly the claimed address.
    pub fn VerifyUser(&self, nonce: String) -> (r: bool)
        ensures
            r == (signature_of_text(self.Signature@) matches Some(sig) && message_signer(sig, nonce@)
                == Some(self.user@)),
    {
        let sig = match parse_signature(self.Signature.as_str()) {
            Some(s) => s,
            None => return false,
        };
        match recover_signer(&sig, nonce.as_str()) {
            Some(a) => crate::address::same_address(&a, &self.user),
            None => false,
        }
    }
}

} // verus!
