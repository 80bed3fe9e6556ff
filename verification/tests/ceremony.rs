use phase1_coordinator::client::{
    choose_random_source, parse_seed, prepare_response, validate_email, validate_yes_no,
    wait_estimate_minutes, ClientAction, ClientEvent, ClientState, RandomSource,
};
use phase1_coordinator::client::client_step;
use phase1_coordinator::coordinator::{Coordinator, Environment};
use phase1_coordinator::errors::CoordinatorError;
use phase1_coordinator::locator::ContributionLocator;
use phase1_coordinator::participant::Participant;
use phase1_coordinator::queue::ContributorStatus;
use phase1_coordinator::rest::{
    contribute_chunk, get_challenge, join_queue, lock_chunk, post_contribution_chunk,
    ContributeChunkRequest, GetChunkRequest, PostChunkRequest, ResponseError,
};
use phase1_coordinator::signature::{ContributionFileSignature, ContributionState};

fn new_coordinator(chunks: usize, capacity: u64) -> Coordinator {
    let environment =
        Environment::new(chunks, "coordinator-contributor", "coordinator-verifier", 120, capacity)
            .unwrap();
    Coordinator::new(environment).unwrap()
}

fn initialized_coordinator(chunks: usize, capacity: u64) -> Coordinator {
    let mut coordinator = new_coordinator(chunks, capacity);
    let mut artifacts: Vec<(Vec<u8>, Vec<u8>)> = Vec::new();
    for c in 0..chunks {
        artifacts.push((vec![1, 2, 3, c as u8], vec![9, 9, c as u8]));
    }
    coordinator.initialize_ceremony(0, &artifacts).unwrap();
    coordinator
}

fn open_first_round(coordinator: &mut Coordinator, contributor_keys: &[&str]) {
    let contributors: Vec<Participant> =
        contributor_keys.iter().map(|k| Participant::new_contributor(k)).collect();
    let verifiers = vec![Participant::new_verifier("coordinator-verifier")];
    let chunk_verifiers: Vec<Participant> = (0..coordinator.environment.number_of_chunks)
        .map(|_| Participant::new_verifier("coordinator-verifier"))
        .collect();
    let height = coordinator
        .next_round(10, contributors, verifiers, chunk_verifiers, None)
        .unwrap();
    assert_eq!(height, 1);
}

fn upload_valid_contribution(
    coordinator: &mut Coordinator,
    pubkey: &str,
    payload: Vec<u8>,
) -> ContributionLocator {
    let locators = lock_chunk(coordinator, pubkey.to_string()).unwrap();
    let challenge = get_challenge(coordinator, locators).unwrap();
    let artifact = prepare_response(&challenge, &payload);
    let state = ContributionState::new(
        artifact.challenge_hash.clone(),
        artifact.contribution_file_hash.clone(),
        None,
    )
    .unwrap();
    let signature = ContributionFileSignature::new("aa".to_string(), state);
    let request = PostChunkRequest::new(
        locators.next_contribution(),
        artifact.file.clone(),
        locators.next_contribution_file_signature(),
        signature,
    );
    post_contribution_chunk(coordinator, request).unwrap();
    contribute_chunk(
        coordinator,
        ContributeChunkRequest::new(pubkey.to_string(), locators.next_contribution().chunk_id()),
    )
    .unwrap()
}

#[test]
fn initialization_records_height_zero_and_locators() {
    let coordinator = initialized_coordinator(2, 1);
    assert_eq!(coordinator.current_round_height().unwrap(), 0);
    for c in 0..2 {
        assert!(coordinator.contribution_locator_exists(0, c, 0, false));
        assert!(coordinator.contribution_locator_exists(0, c, 0, true));
        assert!(coordinator.contribution_locator_exists(1, c, 0, false));
        assert!(coordinator.contribution_locator_exists(1, c, 0, true));
    }
    let round = coordinator.get_round(0).unwrap();
    assert_eq!(round.get_height(), 0);
    assert_eq!(round.chunks.len(), 2);
}

#[test]
fn initialization_twice_is_refused() {
    let mut coordinator = initialized_coordinator(1, 1);
    let artifacts = vec![(vec![1], vec![2])];
    let err = coordinator.initialize_ceremony(0, &artifacts).unwrap_err();
    assert_eq!(err, CoordinatorError::RoundAlreadyInitialized);
}

#[test]
fn single_contributor_single_chunk_full_ceremony() {
    let mut coordinator = initialized_coordinator(1, 1);
    open_first_round(&mut coordinator, &["c1"]);
    assert_eq!(coordinator.current_round_height().unwrap(), 1);

    join_queue(&mut coordinator, "c1".to_string(), "10.0.0.1".to_string(), 100).unwrap();
    coordinator.update(100).unwrap();
    let c1 = Participant::new_contributor("c1");
    assert_eq!(coordinator.contributor_queue_status(&c1), ContributorStatus::Round);

    let locator = upload_valid_contribution(&mut coordinator, "c1", vec![5, 6, 7]);
    assert_eq!(locator, ContributionLocator::new(1, 0, 1, false));
    assert_eq!(coordinator.contributor_queue_status(&c1), ContributorStatus::Finished);

    coordinator.try_lock_verify(0, 1).unwrap();
    coordinator.verify_contribution(0, 1, Some(vec![42, 43])).unwrap();

    let round = coordinator.get_round(1).unwrap();
    let chunk = round.get_chunk(0).unwrap();
    let contribution = chunk.get_contribution(1).unwrap();
    assert!(contribution.is_verified());
    assert!(coordinator.contribution_locator_exists(1, 0, 1, true));
    assert!(coordinator.contribution_locator_exists(2, 0, 0, false));

    let verifiers = vec![Participant::new_verifier("coordinator-verifier")];
    let next = coordinator
        .next_round(
            20,
            vec![Participant::new_contributor("c2")],
            verifiers.clone(),
            verifiers,
            Some(vec![77]),
        )
        .unwrap();
    assert_eq!(next, 2);
    assert!(coordinator.round_locator_exists(1));
    assert_eq!(coordinator.current_round_height().unwrap(), 2);
}

#[test]
fn race_on_lock_one_winner() {
    let mut coordinator = initialized_coordinator(1, 2);
    open_first_round(&mut coordinator, &["c1", "c2"]);
    join_queue(&mut coordinator, "c1".to_string(), "10.0.0.1".to_string(), 100).unwrap();
    join_queue(&mut coordinator, "c2".to_string(), "10.0.0.2".to_string(), 101).unwrap();
    coordinator.update(102).unwrap();
    coordinator.update(103).unwrap();
    let c1 = Participant::new_contributor("c1");
    let c2 = Participant::new_contributor("c2");
    assert_eq!(coordinator.contributor_queue_status(&c1), ContributorStatus::Round);
    assert_eq!(coordinator.contributor_queue_status(&c2), ContributorStatus::Round);

    lock_chunk(&mut coordinator, "c1".to_string()).unwrap();
    let err = lock_chunk(&mut coordinator, "c2".to_string()).unwrap_err();
    assert!(matches!(
        err,
        ResponseError::CoordinatorError(CoordinatorError::ChunkLockAlreadyAcquired)
    ));
}

#[test]
fn heartbeat_timeout_releases_lock() {
    let mut coordinator = initialized_coordinator(1, 2);
    open_first_round(&mut coordinator, &["c1", "c2"]);
    join_queue(&mut coordinator, "c1".to_string(), "10.0.0.1".to_string(), 100).unwrap();
    join_queue(&mut coordinator, "c2".to_string(), "10.0.0.2".to_string(), 101).unwrap();
    coordinator.update(102).unwrap();
    coordinator.update(103).unwrap();
    lock_chunk(&mut coordinator, "c1".to_string()).unwrap();
    let c1 = Participant::new_contributor("c1");
    let c2 = Participant::new_contributor("c2");
    let round = coordinator.current_round().unwrap();
    assert!(round.is_chunk_locked_by(0, &c1));

    // c2 keeps heartbeating; c1 goes silent past the 120 s timeout.
    coordinator.heartbeat(&c2, 250).unwrap();
    coordinator.update(300).unwrap();
    let round = coordinator.current_round().unwrap();
    assert!(!round.is_chunk_locked_by(0, &c1));

    // c2, still active, can now lock the same chunk.
    assert_eq!(coordinator.contributor_queue_status(&c2), ContributorStatus::Round);
    lock_chunk(&mut coordinator, "c2".to_string()).unwrap();
    let round = coordinator.current_round().unwrap();
    assert!(round.is_chunk_locked_by(0, &c2));
}

#[test]
fn invalid_contribution_bans_contributor() {
    let mut coordinator = initialized_coordinator(1, 1);
    open_first_round(&mut coordinator, &["c1", "c2"]);
    join_queue(&mut coordinator, "c1".to_string(), "10.0.0.1".to_string(), 100).unwrap();
    join_queue(&mut coordinator, "c2".to_string(), "10.0.0.2".to_string(), 101).unwrap();
    coordinator.update(102).unwrap();
    upload_valid_contribution(&mut coordinator, "c1", vec![13, 13]);

    // The black-box verification rejects the contribution.
    coordinator.try_lock_verify(0, 1).unwrap();
    let err = coordinator.verify_contribution(0, 1, None).unwrap_err();
    assert_eq!(err, CoordinatorError::VerificationFailed);

    let c1 = Participant::new_contributor("c1");
    assert_eq!(coordinator.contributor_queue_status(&c1), ContributorStatus::Banned);
    assert!(!coordinator.contribution_locator_exists(1, 0, 1, false));

    // The discarded slot is free again for the next contributor.
    coordinator.update(103).unwrap();
    let c2 = Participant::new_contributor("c2");
    assert_eq!(coordinator.contributor_queue_status(&c2), ContributorStatus::Round);
    lock_chunk(&mut coordinator, "c2".to_string()).unwrap();
}

#[test]
fn upload_with_wrong_response_hash_is_refused() {
    let mut coordinator = initialized_coordinator(1, 1);
    open_first_round(&mut coordinator, &["c1"]);
    join_queue(&mut coordinator, "c1".to_string(), "10.0.0.1".to_string(), 100).unwrap();
    coordinator.update(101).unwrap();
    let locators = lock_chunk(&mut coordinator, "c1".to_string()).unwrap();
    let challenge = get_challenge(&coordinator, locators).unwrap();
    let artifact = prepare_response(&challenge, &vec![1, 2, 3]);
    // The signature commits to a response hash of different bytes.
    let state = ContributionState::new(
        artifact.challenge_hash.clone(),
        artifact.contribution_hash.clone(),
        None,
    )
    .unwrap();
    let signature = ContributionFileSignature::new("aa".to_string(), state);
    let request = PostChunkRequest::new(
        locators.next_contribution(),
        artifact.file.clone(),
        locators.next_contribution_file_signature(),
        signature,
    );
    let err = post_contribution_chunk(&mut coordinator, request).unwrap_err();
    assert!(matches!(
        err,
        ResponseError::CoordinatorError(CoordinatorError::ContributionHashMismatch)
    ));
}

#[test]
fn crash_recovery_restores_saved_round() {
    let mut coordinator = initialized_coordinator(1, 1);
    open_first_round(&mut coordinator, &["c1"]);
    // next_round covered its changes with a save; later mutations are
    // not saved and must vanish on recovery.
    join_queue(&mut coordinator, "c1".to_string(), "10.0.0.1".to_string(), 100).unwrap();
    coordinator.update(101).unwrap();
    let locators = lock_chunk(&mut coordinator, "c1".to_string()).unwrap();
    let challenge = get_challenge(&coordinator, locators).unwrap();
    let artifact = prepare_response(&challenge, &vec![4, 4]);
    coordinator
        .write_contribution(locators.next_contribution(), artifact.file.clone())
        .unwrap();
    assert!(coordinator.contribution_locator_exists(1, 0, 1, false));

    assert!(coordinator.recover());
    assert_eq!(coordinator.current_round_height().unwrap(), 1);
    assert!(!coordinator.contribution_locator_exists(1, 0, 1, false));
    let round = coordinator.current_round().unwrap();
    let c1 = Participant::new_contributor("c1");
    assert!(!round.is_chunk_locked_by(0, &c1));
}

#[test]
fn join_queue_is_idempotent_for_position() {
    let mut coordinator = initialized_coordinator(1, 0);
    open_first_round(&mut coordinator, &["c1"]);
    join_queue(&mut coordinator, "c1".to_string(), "10.0.0.1".to_string(), 100).unwrap();
    join_queue(&mut coordinator, "c2".to_string(), "10.0.0.2".to_string(), 101).unwrap();
    let c1 = Participant::new_contributor("c1");
    let before = coordinator.contributor_queue_status(&c1);
    assert_eq!(before, ContributorStatus::Queue(0, 2));

    let err = join_queue(&mut coordinator, "c1".to_string(), "10.0.0.9".to_string(), 200)
        .unwrap_err();
    assert!(matches!(
        err,
        ResponseError::CoordinatorError(CoordinatorError::ParticipantAlreadyAdded)
    ));
    assert_eq!(coordinator.contributor_queue_status(&c1), ContributorStatus::Queue(0, 2));
}

#[test]
fn repeated_heartbeat_is_a_no_op() {
    let mut coordinator = initialized_coordinator(1, 1);
    join_queue(&mut coordinator, "c1".to_string(), "10.0.0.1".to_string(), 100).unwrap();
    let c1 = Participant::new_contributor("c1");
    coordinator.heartbeat(&c1, 150).unwrap();
    let status = coordinator.contributor_queue_status(&c1);
    coordinator.heartbeat(&c1, 150).unwrap();
    assert_eq!(coordinator.contributor_queue_status(&c1), status);
    let err = coordinator.heartbeat(&Participant::new_contributor("ghost"), 150).unwrap_err();
    assert_eq!(err, CoordinatorError::ParticipantMissing);
}

#[test]
fn ip_capacity_is_enforced() {
    let mut coordinator = initialized_coordinator(1, 1);
    let mut queued: u32 = 0;
    for k in 0..12u32 {
        let key = format!("contributor-{}", k);
        match join_queue(&mut coordinator, key, "10.0.0.1".to_string(), 100) {
            Ok(()) => queued += 1,
            Err(e) => {
                assert!(matches!(
                    e,
                    ResponseError::CoordinatorError(
                        CoordinatorError::ParticipantIpCapacityReached
                    )
                ));
            }
        }
    }
    assert_eq!(queued, 10);
}

#[test]
fn next_round_requires_completion() {
    let mut coordinator = initialized_coordinator(1, 1);
    open_first_round(&mut coordinator, &["c1"]);
    let verifiers = vec![Participant::new_verifier("v")];
    let err = coordinator
        .next_round(
            30,
            vec![Participant::new_contributor("c2")],
            verifiers.clone(),
            verifiers,
            Some(vec![1]),
        )
        .unwrap_err();
    assert_eq!(err, CoordinatorError::RoundNotComplete);
}

#[test]
fn lock_requires_an_active_participant() {
    let mut coordinator = initialized_coordinator(1, 1);
    open_first_round(&mut coordinator, &["c1"]);
    let err = lock_chunk(&mut coordinator, "c1".to_string()).unwrap_err();
    assert!(matches!(
        err,
        ResponseError::CoordinatorError(CoordinatorError::ParticipantMissing)
    ));
    join_queue(&mut coordinator, "c1".to_string(), "10.0.0.1".to_string(), 100).unwrap();
    let err = lock_chunk(&mut coordinator, "c1".to_string()).unwrap_err();
    assert!(matches!(
        err,
        ResponseError::CoordinatorError(CoordinatorError::ParticipantNotActive)
    ));
}

#[test]
fn get_chunk_checks_the_pending_task() {
    let mut coordinator = initialized_coordinator(1, 1);
    open_first_round(&mut coordinator, &["c1"]);
    join_queue(&mut coordinator, "c1".to_string(), "10.0.0.1".to_string(), 100).unwrap();
    coordinator.update(101).unwrap();
    let locators = lock_chunk(&mut coordinator, "c1".to_string()).unwrap();
    let request = GetChunkRequest::new("c1".to_string(), locators);
    let task = phase1_coordinator::rest::get_chunk(
        &coordinator,
        request.pubkey.clone(),
        request.locked_locators,
    )
    .unwrap();
    assert_eq!(task.chunk_id, 0);
    assert_eq!(task.contribution_id, 1);
    let err = phase1_coordinator::rest::get_chunk(
        &coordinator,
        "stranger".to_string(),
        request.locked_locators,
    )
    .unwrap_err();
    assert!(matches!(err, ResponseError::UnknownContributor(_)));
}

#[test]
fn empty_upload_is_refused() {
    let mut coordinator = initialized_coordinator(1, 1);
    let err = coordinator
        .write_contribution(ContributionLocator::new(1, 0, 1, false), Vec::new())
        .unwrap_err();
    assert_eq!(err, CoordinatorError::ContributionFileSizeMismatch);
}

#[test]
fn contribution_state_requires_full_digests() {
    let err = ContributionState::new(vec![1, 2, 3], vec![0; 64], None).unwrap_err();
    assert_eq!(err, CoordinatorError::ContributionHashSizeInvalid);
    let state = ContributionState::new(vec![0; 64], vec![1; 64], Some(vec![2; 64])).unwrap();
    assert_eq!(state.challenge_hash.len(), 64);
}

#[test]
fn seed_parsing_accepts_exactly_64_hex_digits() {
    let seed_hex = "000102030405060708090a0b0c0d0e0f101112131415161718191a1b1c1d1e1f";
    let seed = parse_seed(seed_hex).unwrap();
    assert_eq!(seed.len(), 32);
    assert_eq!(seed[0], 0x00);
    assert_eq!(seed[1], 0x01);
    assert_eq!(seed[31], 0x1f);
    assert_eq!(parse_seed("zz").unwrap_err(), CoordinatorError::InvalidSeed);
    assert_eq!(parse_seed("abc").unwrap_err(), CoordinatorError::InvalidSeed);
    assert_eq!(parse_seed("ab").unwrap_err(), CoordinatorError::InvalidSeed);
    match choose_random_source(true, seed_hex).unwrap() {
        RandomSource::Seed(s) => assert_eq!(s.len(), 32),
        RandomSource::Entropy(_) => panic!("expected a seed"),
    }
    match choose_random_source(false, "some entropy").unwrap() {
        RandomSource::Entropy(e) => assert_eq!(e, "some entropy"),
        RandomSource::Seed(_) => panic!("expected entropy"),
    }
}

#[test]
fn response_file_starts_with_the_challenge_hash() {
    let challenge = vec![8, 8, 8];
    let payload = vec![1, 2, 3, 4];
    let artifact = prepare_response(&challenge, &payload);
    assert_eq!(artifact.challenge_hash.len(), 64);
    assert_eq!(artifact.file.len(), 64 + payload.len());
    assert_eq!(&artifact.file[..64], &artifact.challenge_hash[..]);
    assert_eq!(&artifact.file[64..], &payload[..]);
}

#[test]
fn hashes_match_known_blake2b_vector() {
    let artifact = prepare_response(&Vec::new(), &Vec::new());
    // Blake2b-512 of the empty input.
    assert_eq!(
        artifact.contribution_hash_hex,
        "786a02f742015903c6c6fd852552d272912f4740e15847618a86e217f71f5419\
         d25e1031afee585313896444934eb04b903a685b1448b755d56f701afe9be2ce"
    );
}

#[test]
fn prompt_validation() {
    assert_eq!(validate_yes_no("y"), Some(true));
    assert_eq!(validate_yes_no("Y"), Some(true));
    assert_eq!(validate_yes_no("n"), Some(false));
    assert_eq!(validate_yes_no("N"), Some(false));
    assert_eq!(validate_yes_no("yes"), None);
    assert_eq!(validate_yes_no(""), None);
    assert!(validate_email("someone@example.com"));
    assert!(!validate_email("nobody"));
    assert!(!validate_email("a@b"));
    assert_eq!(wait_estimate_minutes(3), 15);
}

#[test]
fn client_state_machine_happy_path() {
    let (s, a) = client_step(ClientState::Start, ClientEvent::JoinAccepted);
    assert_eq!(s, ClientState::JoinedQueue);
    assert_eq!(a, ClientAction::PollStatus);
    let (s, a) = client_step(s, ClientEvent::StatusQueue(2, 5));
    assert_eq!(s, ClientState::Queued(2, 5));
    assert_eq!(a, ClientAction::PollStatus);
    let (s, a) = client_step(s, ClientEvent::StatusRound);
    assert_eq!(s, ClientState::Promoted);
    assert_eq!(a, ClientAction::LockChunk);
    let locators = phase1_coordinator::locator::LockedLocators {
        current_contribution: ContributionLocator::new(1, 0, 0, true),
        next_contribution: ContributionLocator::new(1, 0, 1, false),
        next_contribution_signature:
            phase1_coordinator::locator::ContributionSignatureLocator::new(1, 0, 1, false),
    };
    let (s, a) = client_step(s, ClientEvent::LockGranted(locators));
    assert_eq!(s, ClientState::Locked(locators));
    assert_eq!(a, ClientAction::DownloadChallenge(locators));
    let (s, _) = client_step(s, ClientEvent::ChallengeDownloaded);
    let (s, _) = client_step(s, ClientEvent::ContributionComputed);
    let (s, a) = client_step(s, ClientEvent::UploadAccepted);
    assert_eq!(s, ClientState::Uploaded(locators));
    assert_eq!(a, ClientAction::NotifyContribution(0));
    let (s, _) = client_step(s, ClientEvent::ContributeAccepted);
    assert_eq!(s, ClientState::Notified);
    let (s, a) = client_step(s, ClientEvent::StatusFinished);
    assert_eq!(s, ClientState::Finished);
    assert_eq!(a, ClientAction::Stop);
}

#[test]
fn client_state_machine_ban_and_mismatch() {
    let (s, a) = client_step(ClientState::Notified, ClientEvent::StatusBanned);
    assert_eq!(s, ClientState::Banned);
    assert_eq!(a, ClientAction::Stop);
    let (s, a) = client_step(ClientState::Start, ClientEvent::UploadAccepted);
    assert_eq!(s, ClientState::Failed);
    assert_eq!(a, ClientAction::Stop);
}

// A plain little-endian reader used to check the canonical round
// serialization from the outside.
struct Reader<'a> {
    bytes: &'a [u8],
    pos: usize,
}

impl<'a> Reader<'a> {
    fn u64(&mut self) -> u64 {
        let mut value: u64 = 0;
        for i in 0..8 {
            value |= (self.bytes[self.pos + i] as u64) << (8 * i);
        }
        self.pos += 8;
        value
    }

    fn byte(&mut self) -> u8 {
        let b = self.bytes[self.pos];
        self.pos += 1;
        b
    }

    fn string(&mut self) -> String {
        let n = self.u64() as usize;
        let mut out = String::new();
        for _ in 0..n {
            let v = self.u64() as u32;
            out.push(char::from_u32(v).unwrap());
        }
        out
    }

    fn participant(&mut self) -> (u8, String) {
        let tag = self.byte();
        (tag, self.string())
    }
}

#[test]
fn round_serialization_round_trips() {
    let mut coordinator = initialized_coordinator(2, 1);
    open_first_round(&mut coordinator, &["c1", "cé2"]);
    let round = coordinator.get_round(1).unwrap();
    let bytes = phase1_coordinator::codec::encode_round(&round);

    let mut r = Reader { bytes: &bytes, pos: 0 };
    assert_eq!(r.u64(), 1); // height
    assert_eq!(r.u64(), 10); // started_at
    assert_eq!(r.u64(), 2); // contributors
    assert_eq!(r.participant(), (1, "c1".to_string()));
    assert_eq!(r.participant(), (1, "cé2".to_string()));
    assert_eq!(r.u64(), 1); // verifiers
    assert_eq!(r.participant(), (2, "coordinator-verifier".to_string()));
    assert_eq!(r.u64(), 2); // chunk verifiers
    assert_eq!(r.participant(), (2, "coordinator-verifier".to_string()));
    assert_eq!(r.participant(), (2, "coordinator-verifier".to_string()));
    assert_eq!(r.u64(), 2); // chunks
    for chunk_id in 0..2u64 {
        assert_eq!(r.u64(), chunk_id);
        assert_eq!(r.byte(), 0); // no lock holder
        assert_eq!(r.u64(), 1); // one contribution
        assert_eq!(r.byte(), 0); // contributor id: none
        assert_eq!(r.byte(), 0); // contributed location: none
        assert_eq!(r.byte(), 1); // verifier id present
        assert_eq!(r.string(), "coordinator-verifier");
        assert_eq!(r.byte(), 1); // verified location present
        assert_eq!(r.u64(), 1); // round height
        assert_eq!(r.u64(), chunk_id);
        assert_eq!(r.u64(), 0); // contribution id
        assert_eq!(r.byte(), 1); // verified copy
        assert_eq!(r.byte(), 1); // verified flag
    }
    assert_eq!(r.pos, bytes.len());
}
