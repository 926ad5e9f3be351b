//! Block approvals and the signatures over them.

use crate::encoding::CanonicalBytes;
use crate::{BlockHeight, PublicKey};
use ed25519_dalek::Verifier;
use vstd::bytes::spec_u64_to_le_bytes;
use vstd::prelude::*;

verus! {

/// Why bytes were refused before any semantic check ran.
#[derive(Debug, Clone, Copy, PartialEq, Eq, Structural)]
pub enum MalformedInput {
    /// The input does not have the length that the layout fixes.
    WrongLength,
    /// One of the three highest bits of a signature's last byte is set.
    SignatureOutOfRange,
}

/// The 64 bytes of an Ed25519 signature.
#[derive(Debug, Clone, PartialEq, Eq)]
pub struct Signature(pub [u8; 64]);

/// The part of a block approval that differs between endorsements and skips.
#[derive(Debug, Clone, PartialEq, Eq)]
pub enum ApprovalInner {
    /// Approval of the block with this hash.
    Endorsement(crate::Hash),
    /// Approval to skip to this height.
    Skip(BlockHeight),
}

/// Whether Ed25519 verification accepts `signature` as a signature of
/// `message` under `public_key`.
pub uninterp spec fn ed25519_accepts(
    public_key: Seq<u8>,
    message: Seq<u8>,
    signature: Seq<u8>,
) -> bool;

/// Parses the key with `ed25519_dalek::VerifyingKey::from_bytes` and the
/// signature with `ed25519_dalek::Signature::from_bytes`, then asks
/// `Verifier::verify`. The answer is `true` exactly when the key parses and
/// the verification returns `Ok`; it depends on the three byte strings alone.
#[verifier::external_body]
fn ed25519_verify(public_key: &PublicKey, message: &[u8], signature: &[u8; 64]) -> (accepted: bool)
    ensures
        accepted == ed25519_accepts(public_key@, message@, signature@),
{
    match ed25519_dalek::VerifyingKey::from_bytes(public_key) {
        Ok(key) => key.verify(message, &ed25519_dalek::Signature::from_bytes(signature)).is_ok(),
        Err(_) => false,
    }
}

impl CanonicalBytes for ApprovalInner {
    open spec fn encodable(&self) -> bool {
        true
    }

    open spec fn canonical(&self) -> Seq<u8> {
        match *self {
            ApprovalInner::Endorsement(block_hash) => seq![0u8] + block_hash@,
            ApprovalInner::Skip(height) => seq![1u8] + spec_u64_to_le_bytes(height),
        }
    }

    fn is_encodable(&self) -> (ok: bool) {
        true
    }

    fn write_canonical(&self, out: &mut Vec<u8>) {
        match self {
            ApprovalInner::Endorsement(block_hash) => {
                out.push(0u8);
                block_hash.write_canonical(out);
                assert(out@ =~= old(out)@ + (seq![0u8] + block_hash@));
            },
            ApprovalInner::Skip(height) => {
                out.push(1u8);
                height.write_canonical(out);
                assert(out@ =~= old(out)@ + (seq![1u8] + spec_u64_to_le_bytes(*height)));
            },
        }
    }
}

impl CanonicalBytes for Signature {
    open spec fn encodable(&self) -> bool {
        true
    }

    /// The tag of the signature scheme, then the 64 bytes.
    open spec fn canonical(&self) -> Seq<u8> {
        seq![0u8] + self.0@
    }

    fn is_encodable(&self) -> (ok: bool) {
        true
    }

    fn write_canonical(&self, out: &mut Vec<u8>) {
        out.push(0u8);
        crate::encoding::write_bytes(self.0.as_slice(), out);
        assert(out@ =~= old(out)@ + (seq![0u8] + self.0@));
    }
}

impl Signature {
    /// Whether the bytes are in the range that a signature may take: the
    /// three highest bits of the last byte are clear.
    pub open spec fn in_range(bytes: Seq<u8>) -> bool
        recommends
            bytes.len() == 64,
    {
        bytes[63] & 0b1110_0000 == 0
    }

    /// Reads a signature from exactly 64 bytes in range.
    pub fn try_from_slice(bytes: &[u8]) -> (parsed: Result<Signature, MalformedInput>)
        ensures
            match parsed {
                Ok(signature) => bytes@.len() == 64 && Self::in_range(bytes@) && signature.0@
                    == bytes@,
                Err(MalformedInput::WrongLength) => bytes@.len() != 64,
                Err(MalformedInput::SignatureOutOfRange) => bytes@.len() == 64 && !Self::in_range(
                    bytes@,
                ),
            },
    {
        if bytes.len() != 64 {
            return Err(MalformedInput::WrongLength);
        }
        let mut array = [0u8; 64];
        let mut i: usize = 0;
        while i < 64
            invariant
                i <= 64,
                bytes@.len() == 64,
                forall|j: int| 0 <= j < i ==> array@[j] == bytes@[j],
            decreases 64 - i,
        {
            array[i] = bytes[i];
            i += 1;
        }
        assert(array@ =~= bytes@);
        if array[63] & 0b1110_0000 != 0 {
            return Err(MalformedInput::SignatureOutOfRange);
        }
        Ok(Signature(array))
    }

    /// Whether this is a signature of `message` under `public_key`. Bytes
    /// that are no key or no signature are not accepted.
    pub fn verify(&self, message: &[u8], public_key: &PublicKey) -> (accepted: bool)
        ensures
            accepted == ed25519_accepts(public_key@, message@, self.0@),
    {
        ed25519_verify(public_key, message, &self.0)
    }
}

} // verus!
