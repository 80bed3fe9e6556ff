//! A single contribution to a chunk: who contributed it, where its
//! artifact lives, who verified it and where the verified copy lives.

use vstd::prelude::*;

use crate::locator::ContributionLocator;

verus! {

/// The mathematical value of a [`Contribution`].
pub struct ContributionV {
    pub contributor_id: Option<Seq<char>>,
    pub contributed_location: Option<ContributionLocator>,
    pub verifier_id: Option<Seq<char>>,
    pub verified_location: Option<ContributionLocator>,
    pub verified: bool,
}

impl ContributionV {
    /// Well-formedness of a single contribution record.
    ///
    /// A record without a contributor is the initialization output of
    /// the coordinator and is always verified. An unverified record is
    /// an uploaded contribution awaiting its verifier. A verified
    /// record names its verifier and the verified copy of its artifact.
    pub open spec fn wf(self) -> bool {
        &&& (self.verified ==> self.verifier_id is Some && self.verified_location is Some)
        &&& (!self.verified ==> self.verifier_id is None && self.verified_location is None)
        &&& (self.contributor_id is Some <==> self.contributed_location is Some)
        &&& (self.contributor_id is None ==> self.verified)
    }

    /// True for the initialization record produced by the coordinator.
    pub open spec fn is_initial(self) -> bool {
        self.contributor_id is None
    }
}

/// One contribution of one chunk, indexed inside the chunk by its
/// contribution id.
#[derive(Debug)]
pub struct Contribution {
    pub contributor_id: Option<String>,
    pub contributed_location: Option<ContributionLocator>,
    pub verifier_id: Option<String>,
    pub verified_location: Option<ContributionLocator>,
    pub verified: bool,
}

impl View for Contribution {
    type V = ContributionV;

    open spec fn view(&self) -> ContributionV {
        ContributionV {
            contributor_id: self.contributor_id.deep_view(),
            contributed_location: self.contributed_location,
            verifier_id: self.verifier_id.deep_view(),
            verified_location: self.verified_location,
            verified: self.verified,
        }
    }
}

impl DeepView for Contribution {
    type V = ContributionV;

    open spec fn deep_view(&self) -> ContributionV {
        self.view()
    }
}

impl Clone for Contribution {
    fn clone(&self) -> (res: Self)
        ensures
            res@ == self@,
    {
        Contribution {
            contributor_id: self.contributor_id.clone(),
            contributed_location: self.contributed_location,
            verifier_id: self.verifier_id.clone(),
            verified_location: self.verified_location,
            verified: self.verified,
        }
    }
}

impl Contribution {
    /// The initialization output of the coordinator for one chunk:
    /// verified from the start, with no contributor.
    pub fn new_initial(verifier_id: String, verified_location: ContributionLocator) -> (r:
        Contribution)
        ensures
            r@ == (ContributionV {
                contributor_id: None,
                contributed_location: None,
                verifier_id: Some(verifier_id@),
                verified_location: Some(verified_location),
                verified: true,
            }),
            r@.wf(),
            r@.is_initial(),
    {
        Contribution {
            contributor_id: None,
            contributed_location: None,
            verifier_id: Some(verifier_id),
            verified_location: Some(verified_location),
            verified: true,
        }
    }

    /// A freshly uploaded contribution, not yet verified.
    pub fn new_uploaded(contributor_id: String, contributed_location: ContributionLocator) -> (r:
        Contribution)
        ensures
            r@ == (ContributionV {
                contributor_id: Some(contributor_id@),
                contributed_location: Some(contributed_location),
                verifier_id: None,
                verified_location: None,
                verified: false,
            }),
            r@.wf(),
            !r@.is_initial(),
    {
        Contribution {
            contributor_id: Some(contributor_id),
            contributed_location: Some(contributed_location),
            verifier_id: None,
            verified_location: None,
            verified: false,
        }
    }

    /// Marks the contribution as verified, recording the verifier and
    /// the locator of the verified copy.
    pub fn set_verified(&mut self, verifier_id: String, verified_location: ContributionLocator)
        requires
            !old(self)@.verified,
        ensures
            final(self)@ == (ContributionV {
                verifier_id: Some(verifier_id@),
                verified_location: Some(verified_location),
                verified: true,
                ..old(self)@
            }),
    {
        self.verifier_id = Some(verifier_id);
        self.verified_location = Some(verified_location);
        self.verified = true;
    }

    /// Returns a reference to the contributor ID, if it exists.
    /// Otherwise returns `None`.
    pub fn get_contributor_id(&self) -> (r: &Option<String>)
        ensures
            r.deep_view() == self@.contributor_id,
    {
        &self.contributor_id
    }

    /// Returns a reference to the contributor location, if it exists.
    /// Otherwise returns `None`.
    pub fn get_contributed_location(&self) -> (r: &Option<ContributionLocator>)
        ensures
            *r == self@.contributed_location,
    {
        &self.contributed_location
    }

    /// Returns a reference to the verifier ID, if it exists.
    /// Otherwise returns `None`.
    pub fn get_verifier_id(&self) -> (r: &Option<String>)
        ensures
            r.deep_view() == self@.verifier_id,
    {
        &self.verifier_id
    }

    /// Returns a reference to the verifier location, if it exists.
    /// Otherwise returns `None`.
    pub fn get_verified_location(&self) -> (r: &Option<ContributionLocator>)
        ensures
            *r == self@.verified_location,
    {
        &self.verified_location
    }

    /// Returns `true` if the contribution has been verified.
    /// Otherwise returns `false`.
    pub fn is_verified(&self) -> (r: bool)
        ensures
            r == self@.verified,
    {
        self.verified
    }
}

} // verus!
