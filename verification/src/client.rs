//! The contributor client workflow: the state machine a contributor
//! steps through from joining the queue to its finished (or banned)
//! contribution, the preparation of its response file and hashes, the
//! canonical message its file signature is computed over, and the
//! validation of its prompt inputs.

use vstd::prelude::*;

use crate::adapters::{
    content_hash_of, compute_hash, email_shaped, hex_decode, hex_encode, is_yes_no_answer,
    matches_email, matches_yes_no, push_str, spec_hex_decode, spec_hex_encode, valid_hex_string,
};
use crate::errors::CoordinatorError;
use crate::locator::LockedLocators;
use crate::signature::{ContributionState, ContributionStateV};

verus! {

/// The length in bytes of a user-supplied seed of randomness.
pub const SEED_LENGTH: usize = 32;

/// Where a contribution's randomness comes from: a user-supplied
/// entropy string, or an exact 32-byte seed.
#[derive(Debug)]
pub enum RandomSource {
    Entropy(String),
    Seed(Vec<u8>),
}

/// Parses a hex-encoded 32-byte seed of randomness: exactly 64 hex
/// digits. Anything else is refused with `InvalidSeed`.
pub fn parse_seed(input: &str) -> (r: Result<Vec<u8>, CoordinatorError>)
    ensures
        match r {
            Ok(seed) => {
                &&& valid_hex_string(input@)
                &&& spec_hex_decode(input@).len() == SEED_LENGTH
                &&& seed@ == spec_hex_decode(input@)
            },
            Err(e) => {
                &&& e == CoordinatorError::InvalidSeed
                &&& !(valid_hex_string(input@) && spec_hex_decode(input@).len() == SEED_LENGTH)
            },
        },
{
    match hex_decode(input) {
        Some(bytes) => {
            if bytes.len() == SEED_LENGTH {
                Ok(bytes)
            } else {
                Err(CoordinatorError::InvalidSeed)
            }
        },
        None => Err(CoordinatorError::InvalidSeed),
    }
}

/// Chooses the randomness source of a contribution: the parsed seed
/// when the contributor supplied its own, the raw input as entropy
/// otherwise.
pub fn choose_random_source(custom_seed: bool, input: &str) -> (r: Result<
    RandomSource,
    CoordinatorError,
>)
    ensures
        match r {
            Ok(source) => {
                if custom_seed {
                    source matches RandomSource::Seed(s) && s@ == spec_hex_decode(input@)
                        && valid_hex_string(input@) && spec_hex_decode(input@).len() == SEED_LENGTH
                } else {
                    source matches RandomSource::Entropy(e) && e@ == input@
                }
            },
            Err(e) => custom_seed && e == CoordinatorError::InvalidSeed && !(valid_hex_string(
                input@,
            ) && spec_hex_decode(input@).len() == SEED_LENGTH),
        },
{
    if custom_seed {
        match parse_seed(input) {
            Ok(seed) => Ok(RandomSource::Seed(seed)),
            Err(e) => Err(e),
        }
    } else {
        Ok(RandomSource::Entropy(input.to_owned()))
    }
}

/// Interprets a one-character yes/no answer, case-insensitively.
/// `None` when the input is not one of the four accepted answers.
pub fn validate_yes_no(input: &str) -> (r: Option<bool>)
    ensures
        match r {
            Some(yes) => is_yes_no_answer(input@) && yes == (input@ == seq!['y'] || input@
                == seq!['Y']),
            None => !is_yes_no_answer(input@),
        },
{
    if !matches_yes_no(input) {
        return None;
    }
    proof {
        assert(input@.len() == 1);
    }
    let c = input.get_char(0);
    Some(c == 'y' || c == 'Y')
}

/// True when the input has the shape the email prompt accepts.
pub fn validate_email(input: &str) -> (r: bool)
    ensures
        r == email_shaped(input@),
{
    matches_email(input)
}

/// The estimated waiting time in minutes a queued contributor is
/// shown: five minutes per position ahead, saturating.
pub fn wait_estimate_minutes(position: u64) -> (r: u64)
    ensures
        r == if position * 5 > u64::MAX {
            u64::MAX as int
        } else {
            position * 5
        },
{
    if position > u64::MAX / 5 {
        u64::MAX
    } else {
        position * 5
    }
}

/// A prepared response: the file to upload — the 64-byte hash of the
/// downloaded challenge followed by the contribution payload — and
/// every hash the contribution metadata commits to, with their hex
/// encodings.
#[derive(Debug)]
pub struct ContributionArtifact {
    pub file: Vec<u8>,
    pub challenge_hash: Vec<u8>,
    pub contribution_file_hash: Vec<u8>,
    pub contribution_hash: Vec<u8>,
    pub contribution_file_hash_hex: String,
    pub contribution_hash_hex: String,
}

/// Builds the response file and its hashes from the downloaded
/// challenge and the computed contribution payload.
pub fn prepare_response(challenge: &Vec<u8>, payload: &Vec<u8>) -> (r: ContributionArtifact)
    ensures
        r.challenge_hash@ == content_hash_of(challenge@),
        r.challenge_hash@.len() == 64,
        r.file@ == content_hash_of(challenge@) + payload@,
        r.contribution_file_hash@ == content_hash_of(r.file@),
        r.contribution_file_hash@.len() == 64,
        r.contribution_hash@ == content_hash_of(payload@),
        r.contribution_hash@.len() == 64,
        r.contribution_file_hash_hex@ == spec_hex_encode(content_hash_of(r.file@)),
        r.contribution_hash_hex@ == spec_hex_encode(content_hash_of(payload@)),
{
    let challenge_hash = compute_hash(challenge.as_slice());
    let mut file = challenge_hash.clone();
    proof {
        assert(file@ =~= challenge_hash@);
    }
    file.extend_from_slice(payload.as_slice());
    proof {
        assert(file@ =~= content_hash_of(challenge@) + payload@);
    }
    let contribution_file_hash = compute_hash(file.as_slice());
    let contribution_hash = compute_hash(payload.as_slice());
    let contribution_file_hash_hex = hex_encode(contribution_file_hash.as_slice());
    let contribution_hash_hex = hex_encode(contribution_hash.as_slice());
    ContributionArtifact {
        file,
        challenge_hash,
        contribution_file_hash,
        contribution_hash,
        contribution_file_hash_hex,
        contribution_hash_hex,
    }
}

/// The canonical message a contribution file signature is computed
/// over: a domain-separated JSON encoding of the contribution state,
/// with each hash in lower-case hex.
pub open spec fn spec_signature_message(s: ContributionStateV) -> Seq<char> {
    "{\"challengeHash\":\""@ + spec_hex_encode(s.challenge_hash) + "\",\"responseHash\":\""@
        + spec_hex_encode(s.response_hash) + (match s.new_challenge_hash {
        Some(h) => "\",\"newChallengeHash\":\""@ + spec_hex_encode(h) + "\"}"@,
        None => "\"}"@,
    })
}

/// Builds the canonical signature message of a contribution state.
pub fn signature_message(state: &ContributionState) -> (r: String)
    ensures
        r@ == spec_signature_message(state@),
{
    let mut message = String::new();
    push_str(&mut message, "{\"challengeHash\":\"");
    let challenge_hex = hex_encode(state.challenge_hash.as_slice());
    push_str(&mut message, challenge_hex.as_str());
    push_str(&mut message, "\",\"responseHash\":\"");
    let response_hex = hex_encode(state.response_hash.as_slice());
    push_str(&mut message, response_hex.as_str());
    match &state.new_challenge_hash {
        Some(h) => {
            push_str(&mut message, "\",\"newChallengeHash\":\"");
            let new_hex = hex_encode(h.as_slice());
            push_str(&mut message, new_hex.as_str());
            push_str(&mut message, "\"}");
        },
        None => {
            push_str(&mut message, "\"}");
        },
    }
    proof {
        assert(message@ =~= spec_signature_message(state@));
    }
    message
}

/// The timestamps a contributor records along its workflow, as
/// seconds of wall-clock time.
#[derive(Clone, Copy, Debug, PartialEq, Eq, Structural)]
pub struct ContributionTimeStamps {
    pub start_contribution: u64,
    pub joined_queue: u64,
    pub challenge_locked: u64,
    pub challenge_downloaded: u64,
    pub start_computation: u64,
    pub end_computation: u64,
    pub end_contribution: u64,
}

/// The metadata a contributor uploads beside its artifact: who it is,
/// when each step happened, and the hashes and signatures of its
/// contribution.
#[derive(Debug)]
pub struct ContributionInfo {
    pub full_name: Option<String>,
    pub email: Option<String>,
    pub public_key: String,
    pub is_incentivized: bool,
    pub is_own_seed_of_randomness: bool,
    pub is_another_machine: bool,
    pub ceremony_round: u64,
    pub contribution_file_hash: String,
    pub contribution_file_signature: String,
    pub contribution_hash: String,
    pub contribution_hash_signature: String,
    pub timestamps: ContributionTimeStamps,
}

impl ContributionInfo {
    /// Fresh metadata with nothing recorded yet.
    pub fn new() -> (r: ContributionInfo)
        ensures
            r.full_name is None,
            r.email is None,
            r.public_key@.len() == 0,
            !r.is_incentivized,
            !r.is_own_seed_of_randomness,
            !r.is_another_machine,
            r.ceremony_round == 0,
            r.timestamps == (ContributionTimeStamps {
                start_contribution: 0,
                joined_queue: 0,
                challenge_locked: 0,
                challenge_downloaded: 0,
                start_computation: 0,
                end_computation: 0,
                end_contribution: 0,
            }),
    {
        ContributionInfo {
            full_name: None,
            email: None,
            public_key: String::new(),
            is_incentivized: false,
            is_own_seed_of_randomness: false,
            is_another_machine: false,
            ceremony_round: 0,
            contribution_file_hash: String::new(),
            contribution_file_signature: String::new(),
            contribution_hash: String::new(),
            contribution_hash_signature: String::new(),
            timestamps: ContributionTimeStamps {
                start_contribution: 0,
                joined_queue: 0,
                challenge_locked: 0,
                challenge_downloaded: 0,
                start_computation: 0,
                end_computation: 0,
                end_contribution: 0,
            },
        }
    }
}

/// Where a contributor client stands in its workflow.
#[derive(Clone, Copy, Debug, PartialEq, Eq, Structural)]
pub enum ClientState {
    Start,
    JoinedQueue,
    Queued(u64, u64),
    Promoted,
    Locked(LockedLocators),
    Downloaded(LockedLocators),
    Computed(LockedLocators),
    Uploaded(LockedLocators),
    Notified,
    Finished,
    Banned,
    Failed,
}

/// What the client just observed: the answer of its last request, or
/// the completion of a local step.
#[derive(Clone, Copy, Debug, PartialEq, Eq, Structural)]
pub enum ClientEvent {
    JoinAccepted,
    StatusQueue(u64, u64),
    StatusRound,
    StatusFinished,
    StatusBanned,
    StatusOther,
    LockGranted(LockedLocators),
    ChallengeDownloaded,
    ContributionComputed,
    UploadAccepted,
    ContributeAccepted,
    RequestFailed,
}

/// What the client must do next.
#[derive(Clone, Copy, Debug, PartialEq, Eq, Structural)]
pub enum ClientAction {
    PollStatus,
    LockChunk,
    DownloadChallenge(LockedLocators),
    Compute(LockedLocators),
    UploadChunk(LockedLocators),
    NotifyContribution(u64),
    Stop,
}

/// The transition table of the contributor client: from joining the
/// queue through polling, locking, downloading, computing, uploading
/// and notifying, to its terminal finished or banned state. A failed
/// request, an unknown status, or an event that does not belong to
/// the current state stops the client.
pub open spec fn spec_client_step(state: ClientState, event: ClientEvent) -> (
    ClientState,
    ClientAction,
) {
    match event {
        ClientEvent::StatusFinished => (ClientState::Finished, ClientAction::Stop),
        ClientEvent::StatusBanned => (ClientState::Banned, ClientAction::Stop),
        ClientEvent::StatusOther => (ClientState::Failed, ClientAction::Stop),
        ClientEvent::RequestFailed => (ClientState::Failed, ClientAction::Stop),
        ClientEvent::JoinAccepted => match state {
            ClientState::Start => (ClientState::JoinedQueue, ClientAction::PollStatus),
            _ => (ClientState::Failed, ClientAction::Stop),
        },
        ClientEvent::StatusQueue(position, size) => match state {
            ClientState::JoinedQueue | ClientState::Queued(_, _) => (
                ClientState::Queued(position, size),
                ClientAction::PollStatus,
            ),
            ClientState::Notified => (ClientState::Notified, ClientAction::PollStatus),
            _ => (ClientState::Failed, ClientAction::Stop),
        },
        ClientEvent::StatusRound => match state {
            ClientState::JoinedQueue | ClientState::Queued(_, _) => (
                ClientState::Promoted,
                ClientAction::LockChunk,
            ),
            ClientState::Notified => (ClientState::Notified, ClientAction::PollStatus),
            _ => (ClientState::Failed, ClientAction::Stop),
        },
        ClientEvent::LockGranted(locators) => match state {
            ClientState::Promoted => (
                ClientState::Locked(locators),
                ClientAction::DownloadChallenge(locators),
            ),
            _ => (ClientState::Failed, ClientAction::Stop),
        },
        ClientEvent::ChallengeDownloaded => match state {
            ClientState::Locked(locators) => (
                ClientState::Downloaded(locators),
                ClientAction::Compute(locators),
            ),
            _ => (ClientState::Failed, ClientAction::Stop),
        },
        ClientEvent::ContributionComputed => match state {
            ClientState::Downloaded(locators) => (
                ClientState::Computed(locators),
                ClientAction::UploadChunk(locators),
            ),
            _ => (ClientState::Failed, ClientAction::Stop),
        },
        ClientEvent::UploadAccepted => match state {
            ClientState::Computed(locators) => (
                ClientState::Uploaded(locators),
                ClientAction::NotifyContribution(locators.next_contribution.chunk_id),
            ),
            _ => (ClientState::Failed, ClientAction::Stop),
        },
        ClientEvent::ContributeAccepted => match state {
            ClientState::Uploaded(_) => (ClientState::Notified, ClientAction::PollStatus),
            _ => (ClientState::Failed, ClientAction::Stop),
        },
    }
}

/// Advances the contributor client by one observed event, exactly as
/// [`spec_client_step`] decides.
pub fn client_step(state: ClientState, event: ClientEvent) -> (r: (ClientState, ClientAction))
    ensures
        r == spec_client_step(state, event),
{
    match event {
        ClientEvent::StatusFinished => (ClientState::Finished, ClientAction::Stop),
        ClientEvent::StatusBanned => (ClientState::Banned, ClientAction::Stop),
        ClientEvent::StatusOther => (ClientState::Failed, ClientAction::Stop),
        ClientEvent::RequestFailed => (ClientState::Failed, ClientAction::Stop),
        ClientEvent::JoinAccepted => match state {
            ClientState::Start => (ClientState::JoinedQueue, ClientAction::PollStatus),
            _ => (ClientState::Failed, ClientAction::Stop),
        },
        ClientEvent::StatusQueue(position, size) => match state {
            ClientState::JoinedQueue | ClientState::Queued(_, _) => (
                ClientState::Queued(position, size),
                ClientAction::PollStatus,
            ),
            ClientState::Notified => (ClientState::Notified, ClientAction::PollStatus),
            _ => (ClientState::Failed, ClientAction::Stop),
        },
        ClientEvent::StatusRound => match state {
            ClientState::JoinedQueue | ClientState::Queued(_, _) => (
                ClientState::Promoted,
                ClientAction::LockChunk,
            ),
            ClientState::Notified => (ClientState::Notified, ClientAction::PollStatus),
            _ => (ClientState::Failed, ClientAction::Stop),
        },
        ClientEvent::LockGranted(locators) => match state {
            ClientState::Promoted => (
                ClientState::Locked(locators),
                ClientAction::DownloadChallenge(locators),
            ),
            _ => (ClientState::Failed, ClientAction::Stop),
        },
        ClientEvent::ChallengeDownloaded => match state {
            ClientState::Locked(locators) => (
                ClientState::Downloaded(locators),
                ClientAction::Compute(locators),
            ),
            _ => (ClientState::Failed, ClientAction::Stop),
        },
        ClientEvent::ContributionComputed => match state {
            ClientState::Downloaded(locators) => (
                ClientState::Computed(locators),
                ClientAction::UploadChunk(locators),
            ),
            _ => (ClientState::Failed, ClientAction::Stop),
        },
        ClientEvent::UploadAccepted => match state {
            ClientState::Computed(locators) => (
                ClientState::Uploaded(locators),
                ClientAction::NotifyContribution(locators.next_contribution.chunk_id),
            ),
            _ => (ClientState::Failed, ClientAction::Stop),
        },
        ClientEvent::ContributeAccepted => match state {
            ClientState::Uploaded(_) => (ClientState::Notified, ClientAction::PollStatus),
            _ => (ClientState::Failed, ClientAction::Stop),
        },
    }
}

} // verus!
