//! The signed summary that accompanies every uploaded contribution
//! file: the hash of the challenge the contributor worked from, the
//! hash of the uploaded response file, and a signature over a
//! canonical encoding of both.

use vstd::prelude::*;

use crate::errors::CoordinatorError;

verus! {

/// The hashes every contribution file signature commits to. Each hash
/// is the 64-byte digest of one artifact.
pub const HASH_LENGTH: usize = 64;

/// The mathematical value of a [`ContributionState`].
pub struct ContributionStateV {
    pub challenge_hash: Seq<u8>,
    pub response_hash: Seq<u8>,
    pub new_challenge_hash: Option<Seq<u8>>,
}

impl ContributionStateV {
    /// Every hash carried by the state is a full digest.
    pub open spec fn wf(self) -> bool {
        &&& self.challenge_hash.len() == HASH_LENGTH
        &&& self.response_hash.len() == HASH_LENGTH
        &&& (self.new_challenge_hash matches Some(h) ==> h.len() == HASH_LENGTH)
    }
}

/// What a contribution file signature is computed over: the digest of
/// the downloaded challenge and the digest of the uploaded response.
#[derive(Debug)]
pub struct ContributionState {
    pub challenge_hash: Vec<u8>,
    pub response_hash: Vec<u8>,
    pub new_challenge_hash: Option<Vec<u8>>,
}

impl View for ContributionState {
    type V = ContributionStateV;

    open spec fn view(&self) -> ContributionStateV {
        ContributionStateV {
            challenge_hash: self.challenge_hash@,
            response_hash: self.response_hash@,
            new_challenge_hash: match self.new_challenge_hash {
                Some(ref h) => Some(h@),
                None => None,
            },
        }
    }
}

impl DeepView for ContributionState {
    type V = ContributionStateV;

    open spec fn deep_view(&self) -> ContributionStateV {
        self.view()
    }
}

impl Clone for ContributionState {
    fn clone(&self) -> (res: Self)
        ensures
            res@ == self@,
    {
        ContributionState {
            challenge_hash: self.challenge_hash.clone(),
            response_hash: self.response_hash.clone(),
            new_challenge_hash: match &self.new_challenge_hash {
                Some(h) => Some(h.clone()),
                None => None,
            },
        }
    }
}

impl ContributionState {
    /// Builds the state from its hashes, refusing any that is not a
    /// full 64-byte digest.
    pub fn new(
        challenge_hash: Vec<u8>,
        response_hash: Vec<u8>,
        new_challenge_hash: Option<Vec<u8>>,
    ) -> (r: Result<ContributionState, CoordinatorError>)
        ensures
            match r {
                Ok(state) => {
                    &&& state@ == (ContributionStateV {
                        challenge_hash: challenge_hash@,
                        response_hash: response_hash@,
                        new_challenge_hash: match new_challenge_hash {
                            Some(ref h) => Some(h@),
                            None => None,
                        },
                    })
                    &&& state@.wf()
                },
                Err(e) => {
                    &&& e == CoordinatorError::ContributionHashSizeInvalid
                    &&& !(ContributionStateV {
                        challenge_hash: challenge_hash@,
                        response_hash: response_hash@,
                        new_challenge_hash: match new_challenge_hash {
                            Some(ref h) => Some(h@),
                            None => None,
                        },
                    }).wf()
                },
            },
    {
        if challenge_hash.len() != HASH_LENGTH {
            return Err(CoordinatorError::ContributionHashSizeInvalid);
        }
        if response_hash.len() != HASH_LENGTH {
            return Err(CoordinatorError::ContributionHashSizeInvalid);
        }
        match &new_challenge_hash {
            Some(h) => {
                if h.len() != HASH_LENGTH {
                    return Err(CoordinatorError::ContributionHashSizeInvalid);
                }
            },
            None => {},
        }
        Ok(ContributionState { challenge_hash, response_hash, new_challenge_hash })
    }
}

/// The mathematical value of a [`ContributionFileSignature`].
pub struct ContributionFileSignatureV {
    pub signature: Seq<char>,
    pub state: ContributionStateV,
}

/// The signature uploaded beside a contribution file: a hex-encoded
/// signature over the canonical message of the contribution state.
#[derive(Debug)]
pub struct ContributionFileSignature {
    pub signature: String,
    pub state: ContributionState,
}

impl View for ContributionFileSignature {
    type V = ContributionFileSignatureV;

    open spec fn view(&self) -> ContributionFileSignatureV {
        ContributionFileSignatureV { signature: self.signature@, state: self.state@ }
    }
}

impl DeepView for ContributionFileSignature {
    type V = ContributionFileSignatureV;

    open spec fn deep_view(&self) -> ContributionFileSignatureV {
        self.view()
    }
}

impl Clone for ContributionFileSignature {
    fn clone(&self) -> (res: Self)
        ensures
            res@ == self@,
    {
        ContributionFileSignature { signature: self.signature.clone(), state: self.state.clone() }
    }
}

impl ContributionFileSignature {
    /// Pairs a signature with the state it signs.
    pub fn new(signature: String, state: ContributionState) -> (r: ContributionFileSignature)
        ensures
            r@ == (ContributionFileSignatureV { signature: signature@, state: state@ }),
    {
        ContributionFileSignature { signature, state }
    }

    /// The state this signature covers.
    pub fn get_state(&self) -> (r: &ContributionState)
        ensures
            r@ == self@.state,
    {
        &self.state
    }
}

} // verus!
