use grainlify::address::Address;
use grainlify::migration::GrainlifyCore;
use grainlify::multisig::{
    init_with_governance, Governance, GovernanceError, DEFAULT_TIMELOCK_DELAY, MAX_TIMELOCK_DELAY,
};

fn addr(key: &str) -> Address {
    Address::new(key.to_string())
}

fn three_signers() -> Vec<Address> {
    vec![addr("GS1"), addr("GS2"), addr("GS3")]
}

#[test]
fn governance_config_validated() {
    assert!(matches!(Governance::new(three_signers(), 0), Err(GovernanceError::InvalidThreshold)));
    assert!(matches!(Governance::new(three_signers(), 4), Err(GovernanceError::InvalidThreshold)));
    assert!(matches!(Governance::new(vec![], 1), Err(GovernanceError::InvalidThreshold)));
    assert!(matches!(
        Governance::new(vec![addr("GS1"), addr("GS2"), addr("GS1")], 2),
        Err(GovernanceError::DuplicateSigner)
    ));
    assert!(Governance::new(three_signers(), 3).is_ok());
}

#[test]
fn init_with_governance_refused_twice_and_on_bad_config() {
    let mut core = GrainlifyCore::new();
    assert!(matches!(init_with_governance(&mut core, three_signers(), 5), Err(GovernanceError::InvalidThreshold)));
    assert!(matches!(
        init_with_governance(&mut core, vec![addr("GS1"), addr("GS1")], 1),
        Err(GovernanceError::DuplicateSigner)
    ));
    assert!(core.get_admin().is_none());
    init_with_governance(&mut core, three_signers(), 2).unwrap();
    assert_eq!(core.get_admin().unwrap().key, "GS1");
    assert_eq!(core.get_version(), 2);
    assert!(matches!(
        init_with_governance(&mut core, three_signers(), 2),
        Err(GovernanceError::AlreadyInitialized)
    ));
}

#[test]
fn approval_threshold_starts_timelock_then_execution() {
    let mut gov = Governance::new(three_signers(), 2).unwrap();
    let hash = [9u8; 32];
    assert!(matches!(gov.propose_upgrade(&addr("GX"), hash, 100), Err(GovernanceError::NotSigner)));
    let id = gov.propose_upgrade(&addr("GS1"), hash, 100).unwrap();
    assert_eq!(id, 1);
    let p = gov.get_upgrade_proposal(id).unwrap();
    assert_eq!((p.proposer.key.as_str(), p.wasm_hash, p.created_at, p.approvals.len()), ("GS1", hash, 100, 0));
    assert_eq!(gov.approve_upgrade(id, &addr("GS1"), 200), Ok(false));
    assert_eq!(gov.approve_upgrade(id, &addr("GS1"), 210), Err(GovernanceError::AlreadyApproved));
    assert_eq!(gov.approve_upgrade(id, &addr("GX"), 210), Err(GovernanceError::NotSigner));
    assert_eq!(gov.approve_upgrade(7, &addr("GS2"), 210), Err(GovernanceError::ProposalNotFound));
    assert!(gov.get_timelock_status(id).is_none());
    assert_eq!(gov.execute_upgrade(id, 10_000_000), Err(GovernanceError::ThresholdNotMet));
    assert_eq!(gov.approve_upgrade(id, &addr("GS2"), 300), Ok(true));
    let t = gov.get_timelock_status(id).unwrap();
    assert_eq!((t.started_at, t.executable_at), (300, 300 + DEFAULT_TIMELOCK_DELAY));
    // A further approval keeps the running timelock.
    assert_eq!(gov.approve_upgrade(id, &addr("GS3"), 400), Ok(false));
    assert_eq!(gov.get_timelock_status(id).unwrap().started_at, 300);
    assert_eq!(gov.get_upgrade_proposal(id).unwrap().approvals.len(), 3);
    assert_eq!(gov.execute_upgrade(id, 300 + DEFAULT_TIMELOCK_DELAY - 1), Err(GovernanceError::TimelockNotElapsed));
    assert_eq!(gov.execute_upgrade(id, 300 + DEFAULT_TIMELOCK_DELAY), Ok(hash));
    assert!(gov.get_upgrade_proposal(id).is_none());
}

#[test]
fn cancel_by_proposer_or_admin_only() {
    let mut gov = Governance::new(three_signers(), 2).unwrap();
    let admin = addr("GADMIN");
    let a = gov.propose_upgrade(&addr("GS2"), [1u8; 32], 0).unwrap();
    let b = gov.propose_upgrade(&addr("GS3"), [2u8; 32], 0).unwrap();
    assert_eq!(b, 2);
    assert_eq!(gov.cancel_upgrade(a, &addr("GS1"), &admin), Err(GovernanceError::Unauthorized));
    gov.cancel_upgrade(a, &addr("GS2"), &admin).unwrap();
    assert!(gov.get_upgrade_proposal(a).is_none());
    assert!(gov.get_upgrade_proposal(b).is_some());
    gov.cancel_upgrade(b, &admin, &admin).unwrap();
    assert_eq!(gov.cancel_upgrade(b, &admin, &admin), Err(GovernanceError::ProposalNotFound));
}

#[test]
fn timelock_end_saturates() {
    let mut gov = Governance::new(vec![addr("GS1")], 1).unwrap();
    let id = gov.propose_upgrade(&addr("GS1"), [3u8; 32], 0).unwrap();
    assert_eq!(gov.approve_upgrade(id, &addr("GS1"), u64::MAX - 5), Ok(true));
    assert_eq!(gov.get_timelock_status(id).unwrap().executable_at, u64::MAX);
}

#[test]
fn timelock_delay_configurable_up_to_thirty_days() {
    let mut gov = Governance::new(vec![addr("GS1")], 1).unwrap();
    assert_eq!(gov.get_timelock_delay(), DEFAULT_TIMELOCK_DELAY);
    assert_eq!(gov.set_timelock_delay(MAX_TIMELOCK_DELAY + 1), Err(GovernanceError::TimelockDelayTooHigh));
    assert_eq!(gov.get_timelock_delay(), DEFAULT_TIMELOCK_DELAY);
    gov.set_timelock_delay(60).unwrap();
    let id = gov.propose_upgrade(&addr("GS1"), [4u8; 32], 0).unwrap();
    assert_eq!(gov.approve_upgrade(id, &addr("GS1"), 1_000), Ok(true));
    assert_eq!(gov.get_timelock_status(id).unwrap().executable_at, 1_060);
    assert_eq!(gov.execute_upgrade(id, 1_060), Ok([4u8; 32]));
    assert_eq!(MAX_TIMELOCK_DELAY, 30 * 24 * 60 * 60);
}

#[test]
fn stored_parts_round_trip_and_are_checked() {
    let mut gov = Governance::new(three_signers(), 2).unwrap();
    let id = gov.propose_upgrade(&addr("GS1"), [5u8; 32], 0).unwrap();
    gov.approve_upgrade(id, &addr("GS3"), 1).unwrap();
    let (signers, threshold, proposals, next_id, delay) = gov.into_parts();
    let again = Governance::from_parts(signers, threshold, proposals, next_id, delay).unwrap();
    assert_eq!(again.get_upgrade_proposal(id).unwrap().approvals[0].key, "GS3");
    assert!(Governance::from_parts(three_signers(), 2, vec![], 1, MAX_TIMELOCK_DELAY + 1).is_none());
    assert!(Governance::from_parts(three_signers(), 0, vec![], 1, 0).is_none());
}
