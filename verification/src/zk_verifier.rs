//! Proof verifier component: stores a verification key once at construction
//! and checks submitted proof material against it.
//!
//! The cryptographic backend is the `MockVerifier` policy: a proof is
//! accepted exactly when it contains at least one nonzero byte. The length
//! gate in front of it is exact: material whose byte length differs from
//! `PROOF_BYTES` is rejected before the backend ever sees it.

use vstd::prelude::*;

verus! {

/// Fixed byte length of acceptable proof material, a protocol constant.
pub const PROOF_BYTES: usize = 4942;

/// Errors of the proof verifier component.
#[derive(Copy, Clone, Debug, Eq, PartialEq)]
pub enum Error {
    /// The stored verification key bytes could not be deserialized.
    /// The built-in backend deserializes any key bytes, so no operation
    /// of this crate produces this value.
    VkParseError,
    /// The submitted proof bytes do not have the expected fixed length.
    ProofParseError,
    /// The cryptographic check rejected the proof.
    VerificationFailed,
    /// No verification key is stored. Defensive: construction always
    /// stores a key, so no operation of this crate produces this value.
    VkNotSet,
}

/// The backend acceptance policy: proof material is accepted exactly when
/// some byte of it is nonzero.
pub open spec fn spec_proof_accepted(proof: Seq<u8>) -> bool {
    exists|i: int| 0 <= i < proof.len() && proof[i] != 0
}

/// Stand-in cryptographic backend: accepts any proof that is not all zeros.
pub struct MockVerifier;

impl MockVerifier {
    /// Decides acceptance of `proof`; `inputs` does not influence the result.
    pub fn verify(&self, proof: &[u8], inputs: &[u8]) -> (r: bool)
        ensures
            r == spec_proof_accepted(proof@),
    {
        let n = proof.len();
        let mut i: usize = 0;
        while i < n
            invariant
                n == proof@.len(),
                i <= n,
                forall|j: int| 0 <= j < i ==> proof@[j] == 0,
            decreases n - i,
        {
            if proof[i] != 0 {
                assert(proof@[i as int] != 0);
                return true;
            }
            i = i + 1;
        }
        false
    }
}

/// Holds the verification key, set exactly once at construction.
pub struct ZkVerifierContract {
    /// The stored verification key bytes, if any.
    pub vk: Option<Vec<u8>>,
}

/// The stored key as a mathematical value.
pub open spec fn spec_vk_view(vk: Option<Vec<u8>>) -> Option<Seq<u8>> {
    match vk {
        Option::Some(v) => Option::Some(v@),
        Option::None => Option::None,
    }
}

/// What `verify_proof` returns, as a function of the stored key and the
/// submitted proof bytes.
pub open spec fn spec_verify_proof(vk: Option<Seq<u8>>, proof: Seq<u8>) -> Result<(), Error> {
    if proof.len() != PROOF_BYTES as int {
        Result::Err(Error::ProofParseError)
    } else if vk is None {
        Result::Err(Error::VkNotSet)
    } else if !spec_proof_accepted(proof) {
        Result::Err(Error::VerificationFailed)
    } else {
        Result::Ok(())
    }
}

impl ZkVerifierContract {
    /// Stores the verification key once, at construction.
    pub fn __constructor(vk_bytes: Vec<u8>) -> (r: ZkVerifierContract)
        ensures
            r.vk == Option::Some(vk_bytes),
    {
        ZkVerifierContract { vk: Option::Some(vk_bytes) }
    }

    /// Checks submitted proof material: rejects material of the wrong
    /// length, then asks the backend to decide acceptance against the
    /// stored key.
    pub fn verify_proof(&self, public_inputs: &[u8], proof_bytes: &[u8]) -> (r: Result<(), Error>)
        ensures
            r == spec_verify_proof(spec_vk_view(self.vk), proof_bytes@),
    {
        if proof_bytes.len() != PROOF_BYTES {
            return Result::Err(Error::ProofParseError);
        }
        match &self.vk {
            Option::None => Result::Err(Error::VkNotSet),
            Option::Some(_vk_bytes) => {
                let backend = MockVerifier;
                if backend.verify(proof_bytes, public_inputs) {
                    Result::Ok(())
                } else {
                    Result::Err(Error::VerificationFailed)
                }
            },
        }
    }

    /// Boolean convenience form of `verify_proof` for location proofs.
    pub fn verify_location_proof(&self, proof_bytes: &[u8], public_inputs: &[u8]) -> (r: bool)
        ensures
            r == (spec_verify_proof(spec_vk_view(self.vk), proof_bytes@) is Ok),
    {
        match self.verify_proof(public_inputs, proof_bytes) {
            Result::Ok(_) => true,
            Result::Err(_) => false,
        }
    }

    /// Boolean convenience form of `verify_proof` for challenge proofs;
    /// identical in semantics to `verify_location_proof`.
    pub fn verify_challenge_proof(&self, proof_bytes: &[u8], public_inputs: &[u8]) -> (r: bool)
        ensures
            r == (spec_verify_proof(spec_vk_view(self.vk), proof_bytes@) is Ok),
    {
        match self.verify_proof(public_inputs, proof_bytes) {
            Result::Ok(_) => true,
            Result::Err(_) => false,
        }
    }
}

} // verus!
