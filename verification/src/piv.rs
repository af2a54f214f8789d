//! The smart-card vocabulary: card identifiers, slots and key algorithms.
use crate::crypto::{hex_bytes, hex_decode, hex_encode_upper, hex_error_text, hex_text, is_hex};
use crate::text::{cat2, dec, dec_usize};
use vstd::prelude::*;

verus! {

/// The sixteen bytes that identify a card.
#[derive(Clone, Copy, Debug)]
pub struct Guid {
    pub bytes: [u8; 16],
}

impl View for Guid {
    type V = Seq<u8>;

    open spec fn view(&self) -> Seq<u8> {
        self.bytes@
    }
}

/// Whether a text is an identifier in hexadecimal.
pub open spec fn is_guid(s: Seq<char>) -> bool {
    is_hex(s) && s.len() == 32
}

/// What is wrong with an identifier of `n` bytes.
pub open spec fn guid_length_flaw(n: nat) -> Seq<char> {
    "expected 16 bytes, got "@ + dec(n)
}

/// What is wrong with a text that is no identifier.
pub open spec fn guid_flaw(s: Seq<char>) -> Seq<char> {
    if is_hex(s) {
        guid_length_flaw(hex_bytes(s).len())
    } else {
        hex_error_text(s)
    }
}

/// Copies sixteen bytes.
pub fn sixteen(bytes: &[u8]) -> (r: [u8; 16])
    requires
        bytes@.len() == 16,
    ensures
        r@ == bytes@,
{
    let mut b: [u8; 16] = [0;16];
    for i in 0..16
        invariant
            bytes@.len() == 16,
            forall|j: int| 0 <= j < i ==> b@[j] == bytes@[j],
    {
        b[i] = bytes[i];
    }
    assert(b@ =~= bytes@);
    b
}

impl Guid {
    /// The card with these bytes, of which there must be sixteen.
    pub fn from_bytes(bytes: &[u8]) -> (r: Result<Guid, String>)
        ensures
            match r {
                Ok(g) => bytes@.len() == 16 && g@ == bytes@,
                Err(e) => bytes@.len() != 16 && e@ == guid_length_flaw(bytes@.len()),
            },
    {
        if bytes.len() != 16 {
            return Err(cat2("expected 16 bytes, got ", dec_usize(bytes.len()).as_str()));
        }
        Ok(Guid { bytes: sixteen(bytes) })
    }

    /// Reads an identifier of thirty-two hexadecimal digits.
    pub fn from_hex(s: &str) -> (r: Result<Guid, String>)
        ensures
            match r {
                Ok(g) => is_guid(s@) && g@ == hex_bytes(s@),
                Err(e) => !is_guid(s@) && e@ == guid_flaw(s@),
            },
    {
        match hex_decode(s) {
            Ok(b) => Guid::from_bytes(b.as_slice()),
            Err(e) => Err(e),
        }
    }

    /// The identifier in thirty-two upper-case hexadecimal digits.
    pub fn to_hex(&self) -> (r: String)
        ensures
            r@ == hex_text(self@, true),
            r@.len() == 32,
    {
        hex_encode_upper(self.bytes.as_slice())
    }

    /// Whether two cards are the same.
    pub fn same(&self, other: &Guid) -> (r: bool)
        ensures
            r == (self@ == other@),
    {
        for i in 0..16
            invariant
                forall|j: int| 0 <= j < i ==> self@[j] == other@[j],
        {
            if self.bytes[i] != other.bytes[i] {
                assert(self@[i as int] != other@[i as int]);
                return false;
            }
        }
        assert(self@ =~= other@);
        true
    }
}

/// The key algorithms that a slot can hold.
#[derive(Clone, Copy, Debug, PartialEq, Eq, Structural)]
pub enum PivAlgorithm {
    EcP256,
    EcP384,
    Rsa1024,
    Rsa2048,
    Ed25519,
}

/// The slots that can hold a certificate: the four primary ones, the
/// retired key-management slots and the attestation slot.
pub open spec fn valid_slot(slot: u8) -> bool {
    slot == 0x9a || slot == 0x9c || slot == 0x9d || slot == 0x9e || 0x82 <= slot <= 0x95 || slot
        == 0xf9
}

/// Whether a slot can hold a certificate.
pub fn is_valid_piv_slot(slot: u8) -> (r: bool)
    ensures
        r == valid_slot(slot),
{
    slot == 0x9a || slot == 0x9c || slot == 0x9d || slot == 0x9e || (0x82 <= slot && slot <= 0x95)
        || slot == 0xf9
}

/// The slot whose key works without a PIN.
pub const CARD_AUTH_SLOT: u8 = 0x9e;

/// The slot of the key that encrypted entries are bound to.
pub const KEY_MANAGEMENT_SLOT: u8 = 0x9d;

} // verus!
