use grainlify::address::Address;
use grainlify::program_escrow::{is_valid_program_id, EscrowError, ProgramEscrow, MAX_BATCH_SIZE};

fn addr(key: &str) -> Address {
    Address::new(key.to_string())
}

fn setup_contract() -> (ProgramEscrow, Address, Address) {
    let admin = addr("GADMIN");
    let token = addr("CTOKEN");
    let escrow = ProgramEscrow::initialize_contract(admin.clone());
    (escrow, admin, token)
}

fn init_funded_program(escrow: &mut ProgramEscrow, token: &Address, admin: &Address, amount: i128) {
    escrow
        .init_program("PROG".to_string(), admin.clone(), token.clone(), Some(amount))
        .unwrap();
    escrow.publish_program(&"PROG".to_string(), admin).unwrap();
}

fn recipients(n: u32) -> Vec<Address> {
    (0..n).map(|i| addr(&format!("GRECIPIENT{}", i))).collect()
}

#[test]
fn test_max_batch_size_constant_is_100() {
    assert_eq!(MAX_BATCH_SIZE, 100);
}

#[test]
fn test_max_batch_size_within_soroban_budget() {
    assert!(MAX_BATCH_SIZE > 0);
    assert!(MAX_BATCH_SIZE <= 1_400);
}

#[test]
fn test_batch_payout_at_max_size_succeeds() {
    let (mut escrow, admin, token) = setup_contract();
    let per_recipient: i128 = 10;
    let total = per_recipient * MAX_BATCH_SIZE as i128;
    init_funded_program(&mut escrow, &token, &admin, total);
    let rs = recipients(MAX_BATCH_SIZE);
    let amounts: Vec<i128> = (0..MAX_BATCH_SIZE).map(|_| per_recipient).collect();
    let result = escrow.batch_payout(&"PROG".to_string(), &admin, &rs, &amounts);
    assert!(result.is_ok(), "batch at MAX_BATCH_SIZE should succeed");
    let payouts = result.unwrap();
    assert_eq!(payouts.len(), MAX_BATCH_SIZE as usize);
    assert_eq!(escrow.get_program_info(&"PROG".to_string()).unwrap().remaining_balance, 0);
}

#[test]
fn test_batch_payout_exceeds_max_returns_batch_too_large() {
    let (mut escrow, admin, token) = setup_contract();
    let oversized = MAX_BATCH_SIZE + 1;
    init_funded_program(&mut escrow, &token, &admin, oversized as i128 * 10);
    let rs = recipients(oversized);
    let amounts: Vec<i128> = (0..oversized).map(|_| 10_i128).collect();
    let result = escrow.batch_payout(&"PROG".to_string(), &admin, &rs, &amounts);
    assert!(
        matches!(result, Err(EscrowError::BatchTooLarge)),
        "expected BatchError::BatchTooLarge (410), got: {:?}",
        result
    );
}

#[test]
fn test_batch_payout_double_max_returns_batch_too_large() {
    let (mut escrow, admin, token) = setup_contract();
    let oversized = MAX_BATCH_SIZE * 2;
    init_funded_program(&mut escrow, &token, &admin, oversized as i128 * 10);
    let rs = recipients(oversized);
    let amounts: Vec<i128> = (0..oversized).map(|_| 10_i128).collect();
    let result = escrow.batch_payout(&"PROG".to_string(), &admin, &rs, &amounts);
    assert!(matches!(result, Err(EscrowError::BatchTooLarge)));
}

#[test]
fn test_batch_too_large_fires_before_any_transfer() {
    let (mut escrow, admin, token) = setup_contract();
    let oversized = MAX_BATCH_SIZE + 1;
    let initial_balance: i128 = oversized as i128 * 10;
    init_funded_program(&mut escrow, &token, &admin, initial_balance);
    let rs = recipients(oversized);
    let amounts: Vec<i128> = (0..oversized).map(|_| 10_i128).collect();
    let _ = escrow.batch_payout(&"PROG".to_string(), &admin, &rs, &amounts);
    let prog = escrow.get_program_info(&"PROG".to_string()).unwrap();
    assert_eq!(
        prog.remaining_balance, initial_balance,
        "no funds should be transferred when batch is too large"
    );
}

// Further cases of batch payouts.

#[test]
fn batch_too_large_checked_before_program_lookup() {
    let (mut escrow, admin, _) = setup_contract();
    let rs = recipients(MAX_BATCH_SIZE + 1);
    let amounts: Vec<i128> = vec![1; MAX_BATCH_SIZE as usize + 1];
    let result = escrow.batch_payout(&"MISSING".to_string(), &admin, &rs, &amounts);
    assert!(matches!(result, Err(EscrowError::BatchTooLarge)));
}

#[test]
fn batch_errors_in_order() {
    let (mut escrow, admin, token) = setup_contract();
    let id = "PROG".to_string();
    let empty: Vec<Address> = Vec::new();
    assert!(matches!(escrow.batch_payout(&id, &admin, &empty, &vec![]), Err(EscrowError::EmptyBatch)));
    let rs = recipients(2);
    assert!(matches!(escrow.batch_payout(&id, &admin, &rs, &vec![1]), Err(EscrowError::LengthMismatch)));
    assert!(matches!(escrow.batch_payout(&id, &admin, &rs, &vec![1, 1]), Err(EscrowError::ProgramNotFound)));
    escrow.init_program(id.clone(), admin.clone(), token.clone(), Some(100)).unwrap();
    assert!(matches!(
        escrow.batch_payout(&id, &addr("GSTRANGER"), &rs, &vec![1, 1]),
        Err(EscrowError::Unauthorized)
    ));
    assert!(matches!(escrow.batch_payout(&id, &admin, &rs, &vec![1, 1]), Err(EscrowError::ProgramNotPublished)));
    escrow.publish_program(&id, &admin).unwrap();
    assert!(matches!(escrow.batch_payout(&id, &admin, &rs, &vec![1, 0]), Err(EscrowError::InvalidAmount)));
    assert!(matches!(escrow.batch_payout(&id, &admin, &rs, &vec![-5, 10]), Err(EscrowError::InvalidAmount)));
    assert!(matches!(
        escrow.batch_payout(&id, &admin, &rs, &vec![60, 41]),
        Err(EscrowError::InsufficientBalance)
    ));
    assert!(matches!(
        escrow.batch_payout(&id, &admin, &rs, &vec![i128::MAX, i128::MAX]),
        Err(EscrowError::InsufficientBalance)
    ));
    assert_eq!(escrow.get_program_info(&id).unwrap().remaining_balance, 100);
    let payouts = escrow.batch_payout(&id, &admin, &rs, &vec![60, 40]).unwrap();
    assert_eq!(payouts[0].net, 60);
    assert_eq!(payouts[1].recipient.key, "GRECIPIENT1");
    assert_eq!(escrow.get_program_info(&id).unwrap().remaining_balance, 0);
    assert_eq!(escrow.get_program_info(&id).unwrap().total_funds, 100);
}

#[test]
fn payouts_deduct_fees_and_conserve_funds() {
    let (mut escrow, admin, token) = setup_contract();
    let id = "PROG".to_string();
    escrow.init_program(id.clone(), admin.clone(), token, Some(1_000_000)).unwrap();
    escrow.publish_program(&id, &admin).unwrap();
    escrow
        .update_fee_config(&admin, None, Some(250), None, Some(3), Some(addr("GFEES")), Some(true))
        .unwrap();
    let rs = recipients(3);
    let payouts = escrow.batch_payout(&id, &admin, &rs, &vec![10_000, 1, 12_345]).unwrap();
    // 2.5% of 10_000 is 250, plus 3.
    assert_eq!((payouts[0].fee, payouts[0].net), (253, 9_747));
    // The fee is capped at the amount.
    assert_eq!((payouts[1].fee, payouts[1].net), (1, 0));
    // 2.5% of 12_345 is 308.625, rounded down, plus 3.
    assert_eq!((payouts[2].fee, payouts[2].net), (311, 12_034));
    let paid: i128 = payouts.iter().map(|p| p.fee + p.net).sum();
    assert_eq!(paid, 22_346);
    assert_eq!(escrow.get_program_info(&id).unwrap().remaining_balance, 1_000_000 - 22_346);
}

#[test]
fn lock_funds_credits_net_of_fee() {
    let (mut escrow, admin, token) = setup_contract();
    let id = "PROG".to_string();
    escrow.init_program(id.clone(), admin.clone(), token, None).unwrap();
    assert_eq!(escrow.lock_program_funds(&id, 0), Err(EscrowError::InvalidAmount));
    assert_eq!(escrow.lock_program_funds(&"OTHER".to_string(), 5), Err(EscrowError::ProgramNotFound));
    let receipt = escrow.lock_program_funds(&id, 500).unwrap();
    assert_eq!((receipt.gross, receipt.fee, receipt.net), (500, 0, 500));
    escrow.init_program("FULL".to_string(), admin.clone(), addr("CTOKEN"), Some(i128::MAX)).unwrap();
    assert_eq!(escrow.lock_program_funds(&"FULL".to_string(), 1), Err(EscrowError::Overflow));
    escrow.update_fee_config(&admin, Some(1000), None, Some(7), None, None, Some(true)).unwrap();
    let receipt = escrow.lock_program_funds(&id, 1_000).unwrap();
    assert_eq!((receipt.gross, receipt.fee, receipt.net), (1_000, 107, 893));
    let p = escrow.get_program_info(&id).unwrap();
    assert_eq!((p.total_funds, p.remaining_balance), (1_393, 1_393));
}

#[test]
fn duplicate_or_empty_program_refused() {
    let (mut escrow, admin, token) = setup_contract();
    escrow.init_program("A".to_string(), admin.clone(), token.clone(), None).unwrap();
    assert_eq!(
        escrow.init_program("A".to_string(), admin.clone(), token.clone(), None),
        Err(EscrowError::ProgramAlreadyExists)
    );
    assert_eq!(
        escrow.init_program("B".to_string(), admin.clone(), token.clone(), Some(0)),
        Err(EscrowError::InvalidAmount)
    );
    assert_eq!(escrow.program_count(), 1);
    assert_eq!(
        escrow.publish_program(&"A".to_string(), &addr("GOTHER")),
        Err(EscrowError::Unauthorized)
    );
}

#[test]
fn paused_operations_refused() {
    let (mut escrow, admin, token) = setup_contract();
    let id = "PROG".to_string();
    init_funded_program(&mut escrow, &token, &admin, 100);
    assert_eq!(escrow.set_paused(&addr("GX"), Some(true), None, None), Err(EscrowError::Unauthorized));
    escrow.set_paused(&admin, Some(true), Some(true), None).unwrap();
    let flags = escrow.get_pause_flags();
    assert!(flags.lock_paused && flags.release_paused && !flags.refund_paused);
    assert_eq!(escrow.lock_program_funds(&id, 5), Err(EscrowError::Paused));
    assert!(matches!(escrow.batch_payout(&id, &admin, &recipients(1), &vec![5]), Err(EscrowError::Paused)));
    assert!(matches!(escrow.single_payout(&id, &admin, addr("GR"), 5), Err(EscrowError::Paused)));
    // The size check still comes first.
    let rs = recipients(MAX_BATCH_SIZE + 1);
    let amounts: Vec<i128> = vec![1; MAX_BATCH_SIZE as usize + 1];
    assert!(matches!(escrow.batch_payout(&id, &admin, &rs, &amounts), Err(EscrowError::BatchTooLarge)));
    escrow.set_paused(&admin, None, Some(false), None).unwrap();
    assert!(escrow.get_pause_flags().lock_paused);
    assert!(escrow.single_payout(&id, &admin, addr("GR"), 5).is_ok());
}

#[test]
fn single_payout_rules() {
    let (mut escrow, admin, token) = setup_contract();
    let id = "PROG".to_string();
    init_funded_program(&mut escrow, &token, &admin, 100);
    escrow.update_fee_config(&admin, None, Some(1000), None, None, None, Some(true)).unwrap();
    assert!(matches!(escrow.single_payout(&id, &addr("GX"), addr("GR"), 5), Err(EscrowError::Unauthorized)));
    assert!(matches!(escrow.single_payout(&id, &admin, addr("GR"), 0), Err(EscrowError::InvalidAmount)));
    assert!(matches!(escrow.single_payout(&id, &admin, addr("GR"), 101), Err(EscrowError::InsufficientBalance)));
    let p = escrow.single_payout(&id, &admin, addr("GR"), 40).unwrap();
    assert_eq!((p.recipient.key.as_str(), p.gross, p.fee, p.net), ("GR", 40, 4, 36));
    assert_eq!(escrow.get_program_info(&id).unwrap().remaining_balance, 60);
}

#[test]
fn program_ids_validated() {
    let (mut escrow, admin, token) = setup_contract();
    for bad in ["", "has space", "tab\t", "é", "x/y"] {
        assert!(!is_valid_program_id(&bad.to_string()));
        assert_eq!(
            escrow.init_program(bad.to_string(), admin.clone(), token.clone(), None),
            Err(EscrowError::InvalidProgramId)
        );
    }
    let longest = "a".repeat(64);
    assert!(is_valid_program_id(&longest));
    assert!(!is_valid_program_id(&"a".repeat(65)));
    assert_eq!(
        escrow.init_program("a".repeat(65), admin.clone(), token.clone(), None),
        Err(EscrowError::InvalidProgramId)
    );
    escrow.init_program(longest, admin.clone(), token.clone(), None).unwrap();
    escrow.init_program("Prog_9-x".to_string(), admin.clone(), token.clone(), None).unwrap();
    assert_eq!(escrow.program_count(), 2);
}
