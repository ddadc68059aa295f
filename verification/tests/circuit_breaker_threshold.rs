use grainlify::address::Address;
use grainlify::circuit_breaker::{threshold_of, CircuitBreaker, CircuitState, DEFAULT_FAILURE_THRESHOLD};
use grainlify::program_escrow::{EscrowError, ProgramData, ProgramEscrow};

struct Setup {
    escrow: ProgramEscrow,
    admin: Address,
    program_id: String,
}

fn addr(key: &str) -> Address {
    Address::new(key.to_string())
}

fn setup() -> Setup {
    let admin = addr("GADMIN");
    let token = addr("CTOKEN");
    let mut escrow = ProgramEscrow::initialize_contract(admin.clone());
    let program_id = "prog-cb-threshold".to_string();
    escrow.init_program(program_id.clone(), admin.clone(), token, None).unwrap();
    escrow.publish_program(&program_id, &admin).unwrap();
    let initial_balance: i128 = 10_000_0000000;
    escrow.lock_program_funds(&program_id, initial_balance).unwrap();
    Setup { escrow, admin, program_id }
}

fn get_program_data(s: &Setup) -> ProgramData {
    s.escrow.get_program_info(&s.program_id).unwrap()
}

#[test]
fn test_default_threshold_is_none() {
    let s = setup();
    assert_eq!(get_program_data(&s).circuit_breaker_threshold, None);
}

#[test]
fn test_set_custom_threshold() {
    let mut s = setup();
    s.escrow.set_program_circuit_breaker_threshold(&s.program_id, &s.admin, Some(10)).unwrap();
    assert_eq!(get_program_data(&s).circuit_breaker_threshold, Some(10));
}

#[test]
fn test_reset_threshold_to_none() {
    let mut s = setup();
    s.escrow.set_program_circuit_breaker_threshold(&s.program_id, &s.admin, Some(10)).unwrap();
    s.escrow.set_program_circuit_breaker_threshold(&s.program_id, &s.admin, None).unwrap();
    assert_eq!(get_program_data(&s).circuit_breaker_threshold, None);
}

#[test]
fn test_threshold_too_low() {
    let mut s = setup();
    let r = s.escrow.set_program_circuit_breaker_threshold(&s.program_id, &s.admin, Some(0));
    assert!(matches!(r, Err(EscrowError::InvalidCircuitBreakerThreshold)));
    assert_eq!(get_program_data(&s).circuit_breaker_threshold, None);
}

#[test]
fn test_threshold_too_high() {
    let mut s = setup();
    let r = s.escrow.set_program_circuit_breaker_threshold(&s.program_id, &s.admin, Some(101));
    assert!(matches!(r, Err(EscrowError::InvalidCircuitBreakerThreshold)));
}

#[test]
fn test_threshold_minimum_valid() {
    let mut s = setup();
    s.escrow.set_program_circuit_breaker_threshold(&s.program_id, &s.admin, Some(1)).unwrap();
    assert_eq!(get_program_data(&s).circuit_breaker_threshold, Some(1));
}

#[test]
fn test_threshold_maximum_valid() {
    let mut s = setup();
    s.escrow.set_program_circuit_breaker_threshold(&s.program_id, &s.admin, Some(100)).unwrap();
    assert_eq!(get_program_data(&s).circuit_breaker_threshold, Some(100));
}

#[test]
fn test_set_threshold_emits_event() {
    let mut s = setup();
    let ev = s.escrow.set_program_circuit_breaker_threshold(&s.program_id, &s.admin, Some(10)).unwrap();
    assert_eq!(ev.program_id, s.program_id);
    assert_eq!(ev.threshold, Some(10));
}

#[test]
fn test_event_contains_threshold_values() {
    let mut s = setup();
    let first = s.escrow.set_program_circuit_breaker_threshold(&s.program_id, &s.admin, Some(10)).unwrap();
    let second = s.escrow.set_program_circuit_breaker_threshold(&s.program_id, &s.admin, Some(20)).unwrap();
    assert_eq!((first.previous, first.threshold), (None, Some(10)));
    assert_eq!((second.previous, second.threshold), (Some(10), Some(20)));
}

#[test]
fn test_unauthorized_cannot_set_threshold() {
    let mut s = setup();
    let unauthorized = addr("GUNAUTHORIZED");
    let r = s.escrow.set_program_circuit_breaker_threshold(&s.program_id, &unauthorized, Some(10));
    assert!(matches!(r, Err(EscrowError::Unauthorized)));
    assert_eq!(get_program_data(&s).circuit_breaker_threshold, None);
}

#[test]
fn test_circuit_breaker_uses_custom_threshold() {
    let mut s = setup();
    s.escrow.set_program_circuit_breaker_threshold(&s.program_id, &s.admin, Some(5)).unwrap();
    let program_data = get_program_data(&s);
    let threshold = program_data.circuit_breaker_threshold.map(|t| t as u32).unwrap_or(3);
    assert_eq!(threshold, 5);
    for i in 0..threshold {
        assert_eq!(s.escrow.get_circuit_state(), CircuitState::Closed);
        let opened = s.escrow.record_failure(&s.program_id, "test_op".to_string(), 42).unwrap();
        assert_eq!(opened, i + 1 == threshold);
    }
    assert_eq!(s.escrow.get_circuit_state(), CircuitState::Open);
}

#[test]
fn test_circuit_breaker_uses_default_threshold() {
    let mut s = setup();
    let program_data = get_program_data(&s);
    let threshold = program_data.circuit_breaker_threshold.map(|t| t as u32).unwrap_or(3);
    assert_eq!(threshold, 3);
    for _ in 0..threshold {
        s.escrow.record_failure(&s.program_id, "test_op".to_string(), 42).unwrap();
    }
    assert_eq!(s.escrow.get_circuit_state(), CircuitState::Open);
}

// Further cases of the circuit breaker.

#[test]
fn open_circuit_blocks_payouts_until_reset() {
    let mut s = setup();
    for _ in 0..DEFAULT_FAILURE_THRESHOLD {
        s.escrow.record_failure(&s.program_id, "payout".to_string(), 7).unwrap();
    }
    let rs = vec![addr("GR1")];
    let r = s.escrow.batch_payout(&s.program_id, &s.admin, &rs, &vec![5]);
    assert!(matches!(r, Err(EscrowError::CircuitOpen)));
    assert_eq!(s.escrow.reset_circuit_breaker(&addr("GSOMEONE")), Err(EscrowError::Unauthorized));
    s.escrow.reset_circuit_breaker(&s.admin).unwrap();
    assert_eq!(s.escrow.get_circuit_state(), CircuitState::Closed);
    assert_eq!(s.escrow.get_failure_count(), 0);
    assert!(s.escrow.batch_payout(&s.program_id, &s.admin, &rs, &vec![5]).is_ok());
}

#[test]
fn success_clears_failure_count() {
    let mut s = setup();
    s.escrow.record_failure(&s.program_id, "op".to_string(), 1).unwrap();
    s.escrow.record_failure(&s.program_id, "op".to_string(), 1).unwrap();
    assert_eq!(s.escrow.get_failure_count(), 2);
    s.escrow.record_success();
    assert_eq!(s.escrow.get_failure_count(), 0);
    s.escrow.record_failure(&s.program_id, "op".to_string(), 1).unwrap();
    assert_eq!(s.escrow.get_circuit_state(), CircuitState::Closed);
    assert_eq!(
        s.escrow.record_failure(&"missing".to_string(), "op".to_string(), 1),
        Err(EscrowError::ProgramNotFound)
    );
}

#[test]
fn half_open_circuit_closes_on_success_and_reopens_on_failure() {
    let mut b = CircuitBreaker::new();
    assert!(b.record_failure("p".to_string(), "op".to_string(), 9, Some(1)));
    assert_eq!(b.get_state(), CircuitState::Open);
    assert!(!b.allows_operations());
    b.record_success();
    assert_eq!(b.get_state(), CircuitState::Open);
    b.half_open();
    assert_eq!(b.get_state(), CircuitState::HalfOpen);
    assert!(b.allows_operations());
    assert!(b.record_failure("p".to_string(), "op".to_string(), 9, Some(50)));
    assert_eq!(b.get_state(), CircuitState::Open);
    b.half_open();
    b.record_success();
    assert_eq!(b.get_state(), CircuitState::Closed);
    assert_eq!(b.failure_count, 0);
    let last = b.last_failure.as_ref().unwrap();
    assert_eq!((last.program_id.as_str(), last.operation.as_str(), last.error_code), ("p", "op", 9));
}

#[test]
fn configured_threshold_in_force() {
    assert_eq!(threshold_of(None), 3);
    assert_eq!(threshold_of(Some(42)), 42);
    assert!(grainlify::circuit_breaker::is_valid_threshold(Some(1)));
    assert!(!grainlify::circuit_breaker::is_valid_threshold(Some(0)));
    assert!(grainlify::circuit_breaker::is_valid_threshold(None));
}

#[test]
fn open_circuit_stays_open_under_failures() {
    let mut b = CircuitBreaker::new();
    for _ in 0..3 {
        b.record_failure("p".to_string(), "op".to_string(), 1, None);
    }
    assert_eq!(b.get_state(), CircuitState::Open);
    for _ in 0..10 {
        assert!(!b.record_failure("p".to_string(), "op".to_string(), 1, Some(100)));
    }
    assert_eq!(b.get_state(), CircuitState::Open);
    assert_eq!(b.failure_count, 13);
}
