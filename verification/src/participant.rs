//! Participants of the ceremony: contributors, who add randomness to a
//! chunk, and verifiers, who check contributions. A participant is
//! identified by its public key string; equality is structural.

use vstd::prelude::*;

verus! {

/// The mathematical value of a [`Participant`]: the same tag over the
/// character sequence of the public key.
pub enum ParticipantV {
    Contributor(Seq<char>),
    Verifier(Seq<char>),
}

impl ParticipantV {
    /// The public key characters, whatever the role.
    pub open spec fn id(self) -> Seq<char> {
        match self {
            ParticipantV::Contributor(id) => id,
            ParticipantV::Verifier(id) => id,
        }
    }

    /// True when the participant is tagged as a contributor.
    pub open spec fn is_contributor(self) -> bool {
        self matches ParticipantV::Contributor(_)
    }

    /// True when the participant is tagged as a verifier.
    pub open spec fn is_verifier(self) -> bool {
        self matches ParticipantV::Verifier(_)
    }
}

/// A ceremony participant: a contributor or a verifier, carrying its
/// public key.
#[derive(Debug)]
pub enum Participant {
    Contributor(String),
    Verifier(String),
}

impl View for Participant {
    type V = ParticipantV;

    open spec fn view(&self) -> ParticipantV {
        match self {
            Participant::Contributor(id) => ParticipantV::Contributor(id@),
            Participant::Verifier(id) => ParticipantV::Verifier(id@),
        }
    }
}

impl DeepView for Participant {
    type V = ParticipantV;

    open spec fn deep_view(&self) -> ParticipantV {
        self.view()
    }
}

impl Clone for Participant {
    fn clone(&self) -> (res: Self)
        ensures
            res@ == self@,
    {
        match self {
            Participant::Contributor(id) => Participant::Contributor(id.clone()),
            Participant::Verifier(id) => Participant::Verifier(id.clone()),
        }
    }
}

impl Participant {
    /// Wraps a public key as a contributor.
    pub fn new_contributor(id: &str) -> (r: Participant)
        ensures
            r@ == ParticipantV::Contributor(id@),
    {
        Participant::Contributor(id.to_owned())
    }

    /// Wraps a public key as a verifier.
    pub fn new_verifier(id: &str) -> (r: Participant)
        ensures
            r@ == ParticipantV::Verifier(id@),
    {
        Participant::Verifier(id.to_owned())
    }

    /// Returns `true` if this participant is a contributor.
    pub fn is_contributor(&self) -> (r: bool)
        ensures
            r == self@.is_contributor(),
    {
        match self {
            Participant::Contributor(_) => true,
            Participant::Verifier(_) => false,
        }
    }

    /// Returns `true` if this participant is a verifier.
    pub fn is_verifier(&self) -> (r: bool)
        ensures
            r == self@.is_verifier(),
    {
        match self {
            Participant::Contributor(_) => false,
            Participant::Verifier(_) => true,
        }
    }

    /// The public key of this participant.
    pub fn id(&self) -> (r: &String)
        ensures
            r@ == self@.id(),
    {
        match self {
            Participant::Contributor(id) => id,
            Participant::Verifier(id) => id,
        }
    }

    /// Structural equality: same role and same public key.
    pub fn matches(&self, other: &Participant) -> (r: bool)
        ensures
            r == (self@ == other@),
    {
        match (self, other) {
            (Participant::Contributor(a), Participant::Contributor(b)) => *a == *b,
            (Participant::Verifier(a), Participant::Verifier(b)) => *a == *b,
            _ => false,
        }
    }
}

} // verus!
