use vstd::prelude::*;

verus! {

/// Failures that open the circuit when a program sets no threshold of its own.
pub const DEFAULT_FAILURE_THRESHOLD: u32 = 3;

/// The smallest per-program threshold that can be configured.
pub const MIN_CIRCUIT_BREAKER_THRESHOLD: u8 = 1;

/// The largest per-program threshold that can be configured.
pub const MAX_CIRCUIT_BREAKER_THRESHOLD: u8 = 100;

/// Whether guarded operations may run.
#[derive(Debug, Clone, Copy, PartialEq, Eq, Structural)]
pub enum CircuitState {
    /// Operations run; failures are being counted.
    Closed,
    /// Operations are refused.
    Open,
    /// A trial period after an open circuit: one success closes it again,
    /// one failure opens it again.
    HalfOpen,
}

/// The last failure that was recorded.
#[derive(Debug)]
pub struct FailureRecord {
    pub program_id: String,
    pub operation: String,
    pub error_code: u32,
}

/// Counts consecutive failures and opens once they reach a threshold.
pub struct CircuitBreaker {
    pub state: CircuitState,
    pub failure_count: u32,
    pub last_failure: Option<FailureRecord>,
}

/// The threshold in force: the program's own, or the default.
pub open spec fn effective_threshold(threshold: Option<u32>) -> u32 {
    match threshold {
        Some(t) => t,
        None => DEFAULT_FAILURE_THRESHOLD,
    }
}

/// A per-program threshold that may be configured: none, or `1..=100`.
pub open spec fn valid_threshold(threshold: Option<u8>) -> bool {
    match threshold {
        Some(t) => MIN_CIRCUIT_BREAKER_THRESHOLD <= t <= MAX_CIRCUIT_BREAKER_THRESHOLD,
        None => true,
    }
}

/// `count` increased by one, stopping at the largest `u32`.
pub open spec fn bumped(count: u32) -> u32 {
    if count == u32::MAX {
        count
    } else {
        (count + 1) as u32
    }
}

/// The state and count after one failure under `threshold`.
pub open spec fn after_failure(state: CircuitState, count: u32, threshold: Option<u32>) -> (
    CircuitState,
    u32,
) {
    let n = bumped(count);
    match state {
        CircuitState::Open => (CircuitState::Open, n),
        CircuitState::HalfOpen => (CircuitState::Open, n),
        CircuitState::Closed => if n >= effective_threshold(threshold) {
            (CircuitState::Open, n)
        } else {
            (CircuitState::Closed, n)
        },
    }
}

/// The state and count after one success.
pub open spec fn after_success(state: CircuitState, count: u32) -> (CircuitState, u32) {
    match state {
        CircuitState::Open => (CircuitState::Open, count),
        _ => (CircuitState::Closed, 0),
    }
}

/// The state and count after `k` failures in a row under `threshold`.
pub open spec fn after_failures(state: CircuitState, count: u32, threshold: Option<u32>, k: nat) -> (
    CircuitState,
    u32,
)
    decreases k,
{
    if k == 0 {
        (state, count)
    } else {
        let (s, c) = after_failures(state, count, threshold, (k - 1) as nat);
        after_failure(s, c, threshold)
    }
}

/// Whether a per-program threshold may be configured.
pub fn is_valid_threshold(threshold: Option<u8>) -> (r: bool)
    ensures
        r == valid_threshold(threshold),
{
    match threshold {
        Some(t) => MIN_CIRCUIT_BREAKER_THRESHOLD <= t && t <= MAX_CIRCUIT_BREAKER_THRESHOLD,
        None => true,
    }
}

/// The threshold in force for a program's configured threshold.
pub fn threshold_of(configured: Option<u8>) -> (r: u32)
    ensures
        r == effective_threshold(
            match configured {
                Some(t) => Some(t as u32),
                None => None,
            },
        ),
{
    match configured {
        Some(t) => t as u32,
        None => DEFAULT_FAILURE_THRESHOLD,
    }
}

impl CircuitBreaker {
    /// A closed circuit with no failures.
    pub fn new() -> (r: CircuitBreaker)
        ensures
            r.state == CircuitState::Closed,
            r.failure_count == 0,
            r.last_failure is None,
    {
        CircuitBreaker { state: CircuitState::Closed, failure_count: 0, last_failure: None }
    }

    pub fn get_state(&self) -> (r: CircuitState)
        ensures
            r == self.state,
    {
        self.state
    }

    /// Whether guarded operations may run now.
    pub fn allows_operations(&self) -> (r: bool)
        ensures
            r == (self.state != CircuitState::Open),
    {
        match self.state {
            CircuitState::Open => false,
            _ => true,
        }
    }

    /// Records a failed operation; `threshold` is the program's own
    /// threshold, if it set one. Returns whether this failure opened the
    /// circuit.
    pub fn record_failure(
        &mut self,
        program_id: String,
        operation: String,
        error_code: u32,
        threshold: Option<u32>,
    ) -> (opened: bool)
        ensures
            (final(self).state, final(self).failure_count) == after_failure(
                old(self).state,
                old(self).failure_count,
                threshold,
            ),
            opened == (old(self).state != CircuitState::Open && final(self).state
                == CircuitState::Open),
            final(self).last_failure matches Some(f) && f.program_id == program_id && f.operation
                == operation && f.error_code == error_code,
    {
        let count = if self.failure_count == u32::MAX {
            self.failure_count
        } else {
            self.failure_count + 1
        };
        self.failure_count = count;
        self.last_failure = Some(FailureRecord { program_id, operation, error_code });
        let limit = match threshold {
            Some(t) => t,
            None => DEFAULT_FAILURE_THRESHOLD,
        };
        match self.state {
            CircuitState::Open => false,
            CircuitState::HalfOpen => {
                self.state = CircuitState::Open;
                true
            },
            CircuitState::Closed => {
                if count >= limit {
                    self.state = CircuitState::Open;
                    true
                } else {
                    false
                }
            },
        }
    }

    /// Records a successful operation: a closed or half-open circuit is
    /// closed with its failure count cleared; an open one is unchanged.
    pub fn record_success(&mut self)
        ensures
            (final(self).state, final(self).failure_count) == after_success(
                old(self).state,
                old(self).failure_count,
            ),
            final(self).last_failure == old(self).last_failure,
    {
        match self.state {
            CircuitState::Open => {},
            _ => {
                self.state = CircuitState::Closed;
                self.failure_count = 0;
            },
        }
    }

    /// Lets an open circuit into its trial period; other states are kept.
    pub fn half_open(&mut self)
        ensures
            final(self).state == (if old(self).state == CircuitState::Open {
                CircuitState::HalfOpen
            } else {
                old(self).state
            }),
            final(self).failure_count == old(self).failure_count,
            final(self).last_failure == old(self).last_failure,
    {
        if let CircuitState::Open = self.state {
            self.state = CircuitState::HalfOpen;
        }
    }

    /// Closes the circuit and clears the failure count (an admin action).
    pub fn reset(&mut self)
        ensures
            final(self).state == CircuitState::Closed,
            final(self).failure_count == 0,
            final(self).last_failure == old(self).last_failure,
    {
        self.state = CircuitState::Closed;
        self.failure_count = 0;
    }
}

/// From a closed circuit without failures, `k` failures in a row under a
/// threshold of at least one leave exactly `k` failures counted, and the
/// circuit is open exactly when `k` has reached the threshold.
pub proof fn lemma_opens_at_threshold(threshold: Option<u32>, k: nat)
    requires
        effective_threshold(threshold) >= 1,
        k <= u32::MAX,
    ensures
        after_failures(CircuitState::Closed, 0, threshold, k).1 == k,
        (after_failures(CircuitState::Closed, 0, threshold, k).0 == CircuitState::Open) <==> k
            >= effective_threshold(threshold),
        after_failures(CircuitState::Closed, 0, threshold, k).0 != CircuitState::HalfOpen,
    decreases k,
{
    if k > 0 {
        lemma_opens_at_threshold(threshold, (k - 1) as nat);
    }
}

/// Further failures never close an open circuit.
pub proof fn lemma_open_stays_open(count: u32, threshold: Option<u32>, k: nat)
    ensures
        after_failures(CircuitState::Open, count, threshold, k).0 == CircuitState::Open,
    decreases k,
{
    if k > 0 {
        lemma_open_stays_open(count, threshold, (k - 1) as nat);
    }
}

/// A success on a circuit that is not open clears the count, so the next
/// failures are counted from zero again.
pub proof fn lemma_success_restarts_count(state: CircuitState, count: u32)
    requires
        state != CircuitState::Open,
    ensures
        after_success(state, count) == (CircuitState::Closed, 0u32),
{
}

} // verus!
