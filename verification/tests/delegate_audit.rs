use grainlify::address::Address;
use grainlify::program_escrow::{
    delegates_or_empty, EscrowError, ProgramDelegateInfo, ProgramEscrow, ProgramEscrowContract,
    DELEGATE_PERMISSION_REFUND, DELEGATE_PERMISSION_RELEASE,
};

fn addr(key: &str) -> Address {
    Address::new(key.to_string())
}

#[test]
fn test_query_program_delegates_returns_expected() {
    let admin = addr("GADMIN");
    let mut escrow = ProgramEscrow::initialize_contract(admin.clone());
    let payout_key = addr("GPAYOUT");
    let token = addr("CTOKEN");
    let prog1 = "prog-1".to_string();
    let prog2 = "prog-2".to_string();
    escrow.init_program(prog1.clone(), payout_key.clone(), token.clone(), None).unwrap();
    escrow.init_program(prog2.clone(), payout_key.clone(), token.clone(), None).unwrap();
    let delegate1 = addr("GDELEGATE1");
    let delegate2 = addr("GDELEGATE2");
    escrow.set_program_delegate(&prog1, &payout_key, delegate1.clone(), DELEGATE_PERMISSION_RELEASE).unwrap();
    escrow.set_program_delegate(&prog2, &payout_key, delegate2.clone(), DELEGATE_PERMISSION_REFUND).unwrap();

    let delegates = escrow.query_program_delegates(Some(0), Some(10));
    assert_eq!(delegates.len(), 2);
    let mut found1 = false;
    let mut found2 = false;
    for d in delegates.iter() {
        if d.program_id == prog1 {
            assert_eq!(d.delegate.as_ref().unwrap().key, delegate1.key);
            assert_eq!(d.permissions, DELEGATE_PERMISSION_RELEASE);
            found1 = true;
        } else if d.program_id == prog2 {
            assert_eq!(d.delegate.as_ref().unwrap().key, delegate2.key);
            assert_eq!(d.permissions, DELEGATE_PERMISSION_REFUND);
            found2 = true;
        }
    }
    assert!(found1 && found2);
}

// Further cases of the delegate rules and audit queries.

fn escrow_with_programs(n: usize) -> (ProgramEscrow, Address) {
    let payout_key = addr("GPAYOUT");
    let mut escrow = ProgramEscrow::initialize_contract(addr("GADMIN"));
    for i in 0..n {
        escrow.init_program(format!("p{}", i), payout_key.clone(), addr("CTOKEN"), Some(100)).unwrap();
    }
    (escrow, payout_key)
}

#[test]
fn query_all_delegates_holds_at_most_the_one_delegate() {
    let (mut escrow, key) = escrow_with_programs(2);
    let p0 = "p0".to_string();
    assert!(escrow.query_all_delegates(&p0).is_empty());
    assert!(escrow.query_all_delegates(&"nope".to_string()).is_empty());
    escrow.set_program_delegate(&p0, &key, addr("GD"), DELEGATE_PERMISSION_RELEASE | DELEGATE_PERMISSION_REFUND).unwrap();
    let records = escrow.query_all_delegates(&p0);
    assert_eq!(records.len(), 1);
    assert_eq!(records[0].program_id, "p0");
    assert_eq!(records[0].permissions, 3);
    escrow.set_program_delegate(&p0, &key, addr("GE"), DELEGATE_PERMISSION_REFUND).unwrap();
    let records = escrow.query_all_delegates(&p0);
    assert_eq!(records.len(), 1);
    assert_eq!(records[0].delegate.as_ref().unwrap().key, "GE");
    escrow.revoke_program_delegate(&p0, &key).unwrap();
    assert!(escrow.query_all_delegates(&p0).is_empty());
    assert_eq!(escrow.get_program_info(&p0).unwrap().delegate_permissions, 0);
}

#[test]
fn delegate_changes_need_payout_key_and_valid_bits() {
    let (mut escrow, key) = escrow_with_programs(1);
    let p0 = "p0".to_string();
    assert_eq!(escrow.set_program_delegate(&p0, &addr("GX"), addr("GD"), 1), Err(EscrowError::Unauthorized));
    assert_eq!(escrow.set_program_delegate(&p0, &key, addr("GD"), 0), Err(EscrowError::InvalidPermissions));
    assert_eq!(escrow.set_program_delegate(&p0, &key, addr("GD"), 4), Err(EscrowError::InvalidPermissions));
    assert_eq!(escrow.set_program_delegate(&"q".to_string(), &key, addr("GD"), 1), Err(EscrowError::ProgramNotFound));
    assert_eq!(escrow.revoke_program_delegate(&p0, &addr("GX")), Err(EscrowError::Unauthorized));
    assert!(escrow.query_all_delegates(&p0).is_empty());
}

#[test]
fn admin_manages_delegates_who_cannot_pay_out() {
    let (mut escrow, key) = escrow_with_programs(1);
    let p0 = "p0".to_string();
    escrow.publish_program(&p0, &key).unwrap();
    let rs = vec![addr("GR")];
    escrow.set_program_delegate(&p0, &addr("GADMIN"), addr("GD"), DELEGATE_PERMISSION_RELEASE).unwrap();
    assert_eq!(escrow.query_all_delegates(&p0).len(), 1);
    assert!(matches!(escrow.batch_payout(&p0, &addr("GD"), &rs, &vec![10]), Err(EscrowError::Unauthorized)));
    assert!(escrow.batch_payout(&p0, &key, &rs, &vec![10]).is_ok());
    assert_eq!(escrow.get_program_info(&p0).unwrap().remaining_balance, 90);
    escrow.revoke_program_delegate(&p0, &addr("GADMIN")).unwrap();
    assert!(escrow.query_all_delegates(&p0).is_empty());
}

#[test]
fn delegate_pages_follow_program_order() {
    let (mut escrow, key) = escrow_with_programs(5);
    for i in [0usize, 2, 3, 4] {
        escrow.set_program_delegate(&format!("p{}", i), &key, addr(&format!("GD{}", i)), 1).unwrap();
    }
    let ids = |v: Vec<ProgramDelegateInfo>| v.into_iter().map(|d| d.program_id).collect::<Vec<_>>();
    assert_eq!(ids(escrow.query_program_delegates(None, None)), vec!["p0", "p2", "p3", "p4"]);
    assert_eq!(ids(escrow.query_program_delegates(Some(1), Some(2))), vec!["p2", "p3"]);
    assert_eq!(ids(escrow.query_program_delegates(Some(3), Some(10))), vec!["p4"]);
    assert!(escrow.query_program_delegates(Some(9), None).is_empty());
    assert!(escrow.query_program_delegates(None, Some(0)).is_empty());
    assert_eq!(ids(escrow.query_program_delegates(Some(2), Some(u32::MAX))), vec!["p3", "p4"]);
}

#[test]
fn failed_audit_call_yields_no_records() {
    let (mut escrow, key) = escrow_with_programs(1);
    escrow.set_program_delegate(&"p0".to_string(), &key, addr("GD"), 1).unwrap();
    let ok: Result<Vec<ProgramDelegateInfo>, u32> = Ok(escrow.query_all_delegates(&"p0".to_string()));
    assert_eq!(delegates_or_empty(ok).len(), 1);
    let failed: Result<Vec<ProgramDelegateInfo>, u32> = Err(5);
    assert!(delegates_or_empty(failed).is_empty());
}
