use vstd::prelude::*;

use crate::address::Address;
use crate::circuit_breaker::{
    after_failure, is_valid_threshold, valid_threshold, CircuitBreaker, CircuitState,
};
use crate::fees::{update_outcome, FeeConfig, FeeError};

verus! {

/// The largest number of recipients one batch payout may hold.
pub const MAX_BATCH_SIZE: u32 = 100;

/// A delegate holding this bit may release payouts.
pub const DELEGATE_PERMISSION_RELEASE: u32 = 1;

/// A delegate holding this bit may refund.
pub const DELEGATE_PERMISSION_REFUND: u32 = 2;

/// Every permission bit a delegate can hold.
pub const DELEGATE_PERMISSION_ALL: u32 = 3;

/// The longest program id, in characters.
pub const MAX_PROGRAM_ID_LENGTH: usize = 64;

/// Why an escrow operation was refused.
#[derive(Debug, Clone, Copy, PartialEq, Eq, Structural)]
pub enum EscrowError {
    /// A batch holds more than `MAX_BATCH_SIZE` recipients.
    BatchTooLarge,
    /// A batch holds no recipient.
    EmptyBatch,
    /// Recipients and amounts differ in number.
    LengthMismatch,
    /// No program has the given id.
    ProgramNotFound,
    /// A program with the given id exists already.
    ProgramAlreadyExists,
    /// A program id that is empty, too long or holds a character other than
    /// an ASCII letter, digit, `-` or `_`.
    InvalidProgramId,
    /// The program has not been published.
    ProgramNotPublished,
    /// The caller may not perform the operation.
    Unauthorized,
    /// An amount is not positive.
    InvalidAmount,
    /// The program holds less than the payouts need.
    InsufficientBalance,
    /// A permission set is empty or holds unknown bits.
    InvalidPermissions,
    /// A circuit breaker threshold outside `1..=100`.
    InvalidCircuitBreakerThreshold,
    /// The circuit breaker is open.
    CircuitOpen,
    /// A balance would leave the range of `i128`.
    Overflow,
    /// A fee rate outside `0..=MAX_FEE_RATE`.
    InvalidFeeRate,
    /// A negative fixed fee.
    InvalidFixedFee,
    /// The operation is paused.
    Paused,
}

/// Which kinds of operation the admin has paused.
#[derive(Debug, Clone, Copy, PartialEq, Eq, Structural)]
pub struct PauseFlags {
    /// Locking funds into programs.
    pub lock_paused: bool,
    /// Paying out of programs.
    pub release_paused: bool,
    /// Refunds.
    pub refund_paused: bool,
}

/// One escrowed program.
#[derive(Debug)]
pub struct ProgramData {
    pub program_id: String,
    /// Everything ever locked into the program, after lock fees.
    pub total_funds: i128,
    /// What is still available for payouts.
    pub remaining_balance: i128,
    /// The key that releases payouts and manages the program.
    pub authorized_payout_key: Address,
    /// The token the program pays in.
    pub token_address: Address,
    pub published: bool,
    /// The program's own failure threshold; `None` uses the default.
    pub circuit_breaker_threshold: Option<u8>,
    /// The program's delegate, if any.
    pub delegate: Option<Address>,
    /// The delegate's permission bits; zero without a delegate.
    pub delegate_permissions: u32,
}

/// An audit record of a program's delegate.
#[derive(Debug)]
pub struct ProgramDelegateInfo {
    pub program_id: String,
    pub delegate: Option<Address>,
    pub permissions: u32,
}

/// One transfer that a batch payout asks for.
#[derive(Debug)]
pub struct Payout {
    pub recipient: Address,
    /// The amount taken from the program.
    pub gross: i128,
    /// The part of it that goes to the fee recipient.
    pub fee: i128,
    /// The part of it that goes to the recipient.
    pub net: i128,
}

/// The split of a lock into fee and credited amount.
#[derive(Debug, Clone, Copy, PartialEq, Eq, Structural)]
pub struct LockReceipt {
    pub gross: i128,
    pub fee: i128,
    pub net: i128,
}

/// Emitted when a program's circuit breaker threshold changes.
#[derive(Debug)]
pub struct ThresholdSetEvent {
    pub program_id: String,
    pub previous: Option<u8>,
    pub threshold: Option<u8>,
}

impl Clone for ProgramData {
    fn clone(&self) -> (r: Self)
        ensures
            r == *self,
    {
        ProgramData {
            program_id: self.program_id.clone(),
            total_funds: self.total_funds,
            remaining_balance: self.remaining_balance,
            authorized_payout_key: self.authorized_payout_key.clone(),
            token_address: self.token_address.clone(),
            published: self.published,
            circuit_breaker_threshold: self.circuit_breaker_threshold,
            delegate: clone_opt_address(&self.delegate),
            delegate_permissions: self.delegate_permissions,
        }
    }
}

impl Clone for ProgramDelegateInfo {
    fn clone(&self) -> (r: Self)
        ensures
            r == *self,
    {
        ProgramDelegateInfo {
            program_id: self.program_id.clone(),
            delegate: clone_opt_address(&self.delegate),
            permissions: self.permissions,
        }
    }
}

fn clone_opt_address(a: &Option<Address>) -> (r: Option<Address>)
    ensures
        r == *a,
{
    match a {
        Some(x) => Some(x.clone()),
        None => None,
    }
}

/// A character a program id may hold: an ASCII letter or digit, `-` or `_`.
pub open spec fn program_id_char(c: char) -> bool {
    ||| 'a' <= c <= 'z'
    ||| 'A' <= c <= 'Z'
    ||| '0' <= c <= '9'
    ||| c == '-'
    ||| c == '_'
}

/// A program id that can be registered: one to `MAX_PROGRAM_ID_LENGTH`
/// characters, each a letter, digit, `-` or `_`.
pub open spec fn valid_program_id(id: Seq<char>) -> bool {
    &&& 1 <= id.len() <= MAX_PROGRAM_ID_LENGTH
    &&& forall|i: int| 0 <= i < id.len() ==> program_id_char(#[trigger] id[i])
}

/// Whether `id` can be registered as a program id.
pub fn is_valid_program_id(id: &String) -> (r: bool)
    ensures
        r == valid_program_id(id@),
{
    let s = id.as_str();
    if !s.is_ascii() {
        proof {
            let k = choose|k: int| 0 <= k < s@.len() && !('\0' <= #[trigger] s@[k] <= '\u{7f}');
            assert(!program_id_char(s@[k]));
        }
        return false;
    }
    let bytes = s.as_bytes();
    proof {
        vstd::string::is_ascii_spec_bytes(s);
    }
    let n = bytes.len();
    if n == 0 || n > MAX_PROGRAM_ID_LENGTH {
        return false;
    }
    let mut i: usize = 0;
    while i < n
        invariant
            n == bytes@.len(),
            n == s@.len(),
            s@ == id@,
            i <= n,
            bytes@ =~= Seq::new(s@.len(), |k| s@.index(k) as u8),
            forall|k: int| 0 <= k < s@.len() ==> '\0' <= #[trigger] s@[k] <= '\u{7f}',
            forall|k: int| 0 <= k < i ==> program_id_char(#[trigger] s@[k]),
        decreases n - i,
    {
        let b = bytes[i];
        let ok = (97 <= b && b <= 122) || (65 <= b && b <= 90) || (48 <= b && b <= 57) || b == 45
            || b == 95;
        proof {
            let c = s@[i as int];
            assert('\0' <= c <= '\u{7f}');
            assert(b == c as u8);
            assert(b as int == c as int);
        }
        if !ok {
            return false;
        }
        i = i + 1;
    }
    true
}

/// A permission set that can be granted: non-empty, known bits only.
pub open spec fn valid_permissions(permissions: u32) -> bool {
    permissions != 0 && permissions & !DELEGATE_PERMISSION_ALL == 0
}

impl ProgramData {
    /// Balances within range, threshold and delegate settings valid.
    pub open spec fn wf(&self) -> bool {
        &&& 0 <= self.remaining_balance <= self.total_funds
        &&& valid_threshold(self.circuit_breaker_threshold)
        &&& self.delegate is None ==> self.delegate_permissions == 0
        &&& self.delegate is Some ==> valid_permissions(self.delegate_permissions)
    }
}

/// Whether some program has the id `id`.
pub open spec fn has_program(ps: Seq<ProgramData>, id: Seq<char>) -> bool {
    exists|i: int| 0 <= i < ps.len() && #[trigger] ps[i].program_id@ == id
}

/// The position of the program with id `id` (meaningful when it exists).
pub open spec fn program_index(ps: Seq<ProgramData>, id: Seq<char>) -> int {
    choose|i: int| 0 <= i < ps.len() && #[trigger] ps[i].program_id@ == id
}

/// The program with id `id` (meaningful when it exists).
pub open spec fn program_of(ps: Seq<ProgramData>, id: Seq<char>) -> ProgramData {
    ps[program_index(ps, id)]
}

/// No two programs share an id.
pub open spec fn unique_ids(ps: Seq<ProgramData>) -> bool {
    forall|i: int, j: int|
        0 <= i < ps.len() && 0 <= j < ps.len() && i != j ==> #[trigger] ps[i].program_id@
            != #[trigger] ps[j].program_id@
}

/// The sum of the amounts.
pub open spec fn amounts_total(amounts: Seq<i128>) -> int
    decreases amounts.len(),
{
    if amounts.len() == 0 {
        0
    } else {
        amounts_total(amounts.drop_last()) + amounts.last()
    }
}

/// Every amount is positive.
pub open spec fn all_positive(amounts: Seq<i128>) -> bool {
    forall|i: int| 0 <= i < amounts.len() ==> #[trigger] amounts[i] > 0
}

/// The delegate audit record of a program.
pub open spec fn delegate_info(p: ProgramData) -> ProgramDelegateInfo {
    ProgramDelegateInfo {
        program_id: p.program_id,
        delegate: p.delegate,
        permissions: p.delegate_permissions,
    }
}

/// The audit records of the programs that have a delegate, in program order.
pub open spec fn delegated(ps: Seq<ProgramData>) -> Seq<ProgramDelegateInfo>
    decreases ps.len(),
{
    if ps.len() == 0 {
        Seq::empty()
    } else if ps.last().delegate is Some {
        delegated(ps.drop_last()).push(delegate_info(ps.last()))
    } else {
        delegated(ps.drop_last())
    }
}

/// The page of `all` that starts at `offset` and holds at most `limit` items.
pub open spec fn page<T>(all: Seq<T>, offset: Option<u32>, limit: Option<u32>) -> Seq<T> {
    let start: int = match offset {
        Some(o) => if o < all.len() {
            o as int
        } else {
            all.len() as int
        },
        None => 0,
    };
    let end: int = match limit {
        Some(l) => if start + l < all.len() {
            start + l
        } else {
            all.len() as int
        },
        None => all.len() as int,
    };
    all.subrange(start, end)
}

/// The abstract state of a program escrow contract.
pub struct EscrowModel {
    pub admin: Address,
    pub programs: Seq<ProgramData>,
    pub fees: FeeConfig,
    pub breaker: CircuitBreaker,
    pub pause: PauseFlags,
}

/// Which error, if any, a batch payout from program `id` by `caller` of
/// `recipients` amounts `amounts` meets, tested in this order.
pub open spec fn batch_payout_outcome(
    m: EscrowModel,
    id: Seq<char>,
    caller: Seq<char>,
    recipients: nat,
    amounts: Seq<i128>,
) -> Result<(), EscrowError> {
    if recipients > MAX_BATCH_SIZE {
        Err(EscrowError::BatchTooLarge)
    } else if recipients == 0 {
        Err(EscrowError::EmptyBatch)
    } else if recipients != amounts.len() {
        Err(EscrowError::LengthMismatch)
    } else if m.pause.release_paused {
        Err(EscrowError::Paused)
    } else if !has_program(m.programs, id) {
        Err(EscrowError::ProgramNotFound)
    } else if program_of(m.programs, id).authorized_payout_key@ != caller {
        Err(EscrowError::Unauthorized)
    } else if !program_of(m.programs, id).published {
        Err(EscrowError::ProgramNotPublished)
    } else if m.breaker.state == CircuitState::Open {
        Err(EscrowError::CircuitOpen)
    } else if !all_positive(amounts) {
        Err(EscrowError::InvalidAmount)
    } else if amounts_total(amounts) > program_of(m.programs, id).remaining_balance {
        Err(EscrowError::InsufficientBalance)
    } else {
        Ok(())
    }
}

/// The fee on a payout of `amount` under `fees`.
pub open spec fn payout_fee_of(fees: FeeConfig, amount: int) -> int {
    if fees.fee_enabled {
        crate::fees::fee_for(amount, fees.payout_fee_rate as int, fees.payout_fixed_fee as int)
    } else {
        0
    }
}

/// The fee on a lock of `amount` under `fees`.
pub open spec fn lock_fee_of(fees: FeeConfig, amount: int) -> int {
    if fees.fee_enabled {
        crate::fees::fee_for(amount, fees.lock_fee_rate as int, fees.lock_fixed_fee as int)
    } else {
        0
    }
}

/// The programs with the one at `i` replaced by `p`.
pub open spec fn with_program(m: EscrowModel, i: int, p: ProgramData) -> EscrowModel {
    EscrowModel { programs: m.programs.update(i, p), ..m }
}

/// Partial sums of positive amounts stay between zero and the total.
proof fn lemma_prefix_total_bounded(amounts: Seq<i128>, j: int)
    requires
        all_positive(amounts),
        0 <= j <= amounts.len(),
    ensures
        amounts_total(amounts.take(j)) <= amounts_total(amounts),
        amounts_total(amounts.take(j)) >= 0,
    decreases amounts.len(),
{
    if amounts.len() > 0 {
        let rest = amounts.drop_last();
        assert(all_positive(rest));
        if j == amounts.len() {
            assert(amounts.take(j) =~= amounts);
            lemma_prefix_total_bounded(rest, rest.len() as int);
            assert(rest.take(rest.len() as int) =~= rest);
        } else {
            lemma_prefix_total_bounded(rest, j);
            assert(rest.take(j) =~= amounts.take(j));
            lemma_prefix_total_bounded(rest, rest.len() as int);
            assert(rest.take(rest.len() as int) =~= rest);
        }
    } else {
        assert(amounts.take(j) =~= amounts);
    }
}

proof fn lemma_take_next(amounts: Seq<i128>, i: int)
    requires
        0 <= i < amounts.len(),
    ensures
        amounts_total(amounts.take(i + 1)) == amounts_total(amounts.take(i)) + amounts[i],
{
    assert(amounts.take(i + 1).drop_last() =~= amounts.take(i));
}

proof fn lemma_delegated_next(ps: Seq<ProgramData>, i: int)
    requires
        0 <= i < ps.len(),
    ensures
        delegated(ps.take(i + 1)) == (if ps[i].delegate is Some {
            delegated(ps.take(i)).push(delegate_info(ps[i]))
        } else {
            delegated(ps.take(i))
        }),
{
    assert(ps.take(i + 1).drop_last() =~= ps.take(i));
}

/// A program escrow contract: its admin, programs, fee settings and
/// circuit breaker.
pub struct ProgramEscrow {
    admin: Address,
    programs: Vec<ProgramData>,
    fees: FeeConfig,
    breaker: CircuitBreaker,
    pause: PauseFlags,
}

impl View for ProgramEscrow {
    type V = EscrowModel;

    closed spec fn view(&self) -> EscrowModel {
        EscrowModel {
            admin: self.admin,
            programs: self.programs@,
            fees: self.fees,
            breaker: self.breaker,
            pause: self.pause,
        }
    }
}

impl EscrowModel {
    /// Program ids unique, every program well formed, fee settings valid.
    pub open spec fn wf(&self) -> bool {
        &&& unique_ids(self.programs)
        &&& forall|i: int| 0 <= i < self.programs.len() ==> (#[trigger] self.programs[i]).wf()
        &&& self.fees.valid()
    }
}

impl ProgramEscrow {
    /// A new escrow administered by `admin`, with no program, fees disabled
    /// and payable to the admin, and a closed circuit.
    pub fn initialize_contract(admin: Address) -> (r: ProgramEscrow)
        ensures
            r@.wf(),
            r@.admin == admin,
            r@.programs == Seq::<ProgramData>::empty(),
            r@.fees.fee_recipient == admin,
            !r@.fees.fee_enabled,
            r@.fees.lock_fee_rate == 0 && r@.fees.payout_fee_rate == 0,
            r@.fees.lock_fixed_fee == 0 && r@.fees.payout_fixed_fee == 0,
            r@.breaker.state == CircuitState::Closed,
            r@.breaker.failure_count == 0,
            r@.pause == (PauseFlags { lock_paused: false, release_paused: false, refund_paused: false }),
    {
        let fees = FeeConfig::new(admin.clone());
        ProgramEscrow {
            admin,
            programs: Vec::new(),
            fees,
            breaker: CircuitBreaker::new(),
            pause: PauseFlags { lock_paused: false, release_paused: false, refund_paused: false },
        }
    }

    pub fn get_admin(&self) -> (r: Address)
        ensures
            r == self@.admin,
    {
        self.admin.clone()
    }

    pub fn get_fee_config(&self) -> (r: &FeeConfig)
        ensures
            *r == self@.fees,
    {
        &self.fees
    }

    pub fn get_circuit_state(&self) -> (r: CircuitState)
        ensures
            r == self@.breaker.state,
    {
        self.breaker.state
    }

    pub fn get_failure_count(&self) -> (r: u32)
        ensures
            r == self@.breaker.failure_count,
    {
        self.breaker.failure_count
    }

    /// The number of programs.
    pub fn program_count(&self) -> (r: usize)
        ensures
            r == self@.programs.len(),
    {
        self.programs.len()
    }

    /// The position of the program with id `program_id`, if there is one.
    pub fn find_program(&self, program_id: &String) -> (r: Option<usize>)
        requires
            self@.wf(),
        ensures
            r is None <==> !has_program(self@.programs, program_id@),
            r matches Some(i) ==> i < self@.programs.len() && i == program_index(
                self@.programs,
                program_id@,
            ),
    {
        let mut i: usize = 0;
        while i < self.programs.len()
            invariant
                self@.wf(),
                i <= self.programs.len(),
                forall|j: int| 0 <= j < i ==> #[trigger] self.programs@[j].program_id@ != program_id@,
            decreases self.programs.len() - i,
        {
            if self.programs[i].program_id == *program_id {
                proof {
                    let ps = self@.programs;
                    assert(ps[i as int].program_id@ == program_id@);
                    assert(has_program(ps, program_id@));
                    let k = program_index(ps, program_id@);
                    assert(ps[k].program_id@ == program_id@);
                    if k != i as int {
                        assert(ps[k].program_id@ != ps[i as int].program_id@);
                    }
                }
                return Some(i);
            }
            i = i + 1;
        }
        None
    }

    /// A copy of the program with id `program_id`, if there is one.
    pub fn get_program_info(&self, program_id: &String) -> (r: Option<ProgramData>)
        requires
            self@.wf(),
        ensures
            r is None <==> !has_program(self@.programs, program_id@),
            r matches Some(p) ==> p == program_of(self@.programs, program_id@),
    {
        match self.find_program(program_id) {
            Some(i) => Some(self.programs[i].clone()),
            None => None,
        }
    }

    /// Registers a new, unpublished program without delegate; its id must be
    /// valid and new, and its initial liquidity, when given, must be positive
    /// and is credited without fee.
    pub fn init_program(
        &mut self,
        program_id: String,
        authorized_payout_key: Address,
        token_address: Address,
        initial_liquidity: Option<i128>,
    ) -> (r: Result<(), EscrowError>)
        requires
            old(self)@.wf(),
        ensures
            final(self)@.wf(),
            r == (if !valid_program_id(program_id@) {
                Err(EscrowError::InvalidProgramId)
            } else if has_program(old(self)@.programs, program_id@) {
                Err(EscrowError::ProgramAlreadyExists)
            } else if initial_liquidity matches Some(a) && a <= 0 {
                Err(EscrowError::InvalidAmount)
            } else {
                Ok(())
            }),
            r is Err ==> final(self)@ == old(self)@,
            r is Ok ==> final(self)@ == (EscrowModel {
                programs: old(self)@.programs.push(
                    ProgramData {
                        program_id,
                        total_funds: match initial_liquidity {
                            Some(a) => a,
                            None => 0,
                        },
                        remaining_balance: match initial_liquidity {
                            Some(a) => a,
                            None => 0,
                        },
                        authorized_payout_key,
                        token_address,
                        published: false,
                        circuit_breaker_threshold: None,
                        delegate: None,
                        delegate_permissions: 0,
                    },
                ),
                ..old(self)@
            }),
    {
        if !is_valid_program_id(&program_id) {
            return Err(EscrowError::InvalidProgramId);
        }
        if self.find_program(&program_id).is_some() {
            return Err(EscrowError::ProgramAlreadyExists);
        }
        let funds: i128 = match initial_liquidity {
            Some(a) => {
                if a <= 0 {
                    return Err(EscrowError::InvalidAmount);
                }
                a
            },
            None => 0,
        };
        let p = ProgramData {
            program_id,
            total_funds: funds,
            remaining_balance: funds,
            authorized_payout_key,
            token_address,
            published: false,
            circuit_breaker_threshold: None,
            delegate: None,
            delegate_permissions: 0,
        };
        let ghost old_ps = self@.programs;
        self.programs.push(p);
        proof {
            let ps = self@.programs;
            assert forall|i: int, j: int|
                0 <= i < ps.len() && 0 <= j < ps.len() && i != j implies #[trigger] ps[i].program_id@
                != #[trigger] ps[j].program_id@ by {
                if i < old_ps.len() && j < old_ps.len() {
                    assert(ps[i] == old_ps[i]);
                    assert(ps[j] == old_ps[j]);
                } else if i < old_ps.len() {
                    assert(ps[i] == old_ps[i]);
                } else {
                    assert(ps[j] == old_ps[j]);
                }
            }
        }
        Ok(())
    }

    /// Publishes the program; only its payout key may do so.
    pub fn publish_program(&mut self, program_id: &String, caller: &Address) -> (r: Result<
        (),
        EscrowError,
    >)
        requires
            old(self)@.wf(),
        ensures
            final(self)@.wf(),
            r == (if !has_program(old(self)@.programs, program_id@) {
                Err(EscrowError::ProgramNotFound)
            } else if program_of(old(self)@.programs, program_id@).authorized_payout_key@
                != caller@ {
                Err(EscrowError::Unauthorized)
            } else {
                Ok(())
            }),
            r is Err ==> final(self)@ == old(self)@,
            r is Ok ==> final(self)@ == with_program(
                old(self)@,
                program_index(old(self)@.programs, program_id@),
                ProgramData { published: true, ..program_of(old(self)@.programs, program_id@) },
            ),
    {
        let i = match self.find_program(program_id) {
            Some(i) => i,
            None => {
                return Err(EscrowError::ProgramNotFound);
            },
        };
        if !self.programs[i].authorized_payout_key.same_as(caller) {
            return Err(EscrowError::Unauthorized);
        }
        let mut p = self.programs[i].clone();
        p.published = true;
        self.set_program(i, p);
        Ok(())
    }

    /// Replaces the program at `i` by one with the same id.
    fn set_program(&mut self, i: usize, p: ProgramData)
        requires
            old(self)@.wf(),
            i < old(self)@.programs.len(),
            p.program_id@ == old(self)@.programs[i as int].program_id@,
            p.wf(),
        ensures
            final(self)@ == with_program(old(self)@, i as int, p),
            final(self)@.wf(),
    {
        let ghost old_ps = self@.programs;
        self.programs.set(i, p);
        proof {
            let ps = self@.programs;
            assert(ps =~= old_ps.update(i as int, p));
            assert forall|a: int, b: int|
                0 <= a < ps.len() && 0 <= b < ps.len() && a != b implies #[trigger] ps[a].program_id@
                != #[trigger] ps[b].program_id@ by {
                assert(ps[a].program_id@ == old_ps[a].program_id@);
                assert(ps[b].program_id@ == old_ps[b].program_id@);
            }
            assert forall|a: int| 0 <= a < ps.len() implies (#[trigger] ps[a]).wf() by {
                if a != i {
                    assert(ps[a] == old_ps[a]);
                }
            }
        }
    }

    /// Locks `amount` more into the program unless locking is paused: the
    /// lock fee goes to the fee recipient and the rest is credited to the
    /// program.
    pub fn lock_program_funds(&mut self, program_id: &String, amount: i128) -> (r: Result<
        LockReceipt,
        EscrowError,
    >)
        requires
            old(self)@.wf(),
        ensures
            final(self)@.wf(),
            ({
                let m = old(self)@;
                let p = program_of(m.programs, program_id@);
                let fee = lock_fee_of(m.fees, amount as int);
                let net = amount - fee;
                &&& r is Err <==> (m.pause.lock_paused || amount <= 0 || !has_program(
                    m.programs,
                    program_id@,
                ) || p.total_funds + net > i128::MAX)
                &&& r matches Err(e) ==> e == (if m.pause.lock_paused {
                    EscrowError::Paused
                } else if amount <= 0 {
                    EscrowError::InvalidAmount
                } else if !has_program(m.programs, program_id@) {
                    EscrowError::ProgramNotFound
                } else {
                    EscrowError::Overflow
                })
                &&& r is Err ==> final(self)@ == m
                &&& r matches Ok(receipt) ==> {
                    &&& receipt == LockReceipt { gross: amount, fee: fee as i128, net: net as i128 }
                    &&& 0 <= receipt.fee <= amount
                    &&& !m.fees.fee_enabled ==> receipt.fee == 0 && receipt.net == amount
                    &&& final(self)@ == with_program(
                        m,
                        program_index(m.programs, program_id@),
                        ProgramData {
                            total_funds: (p.total_funds + net) as i128,
                            remaining_balance: (p.remaining_balance + net) as i128,
                            ..p
                        },
                    )
                }
            }),
    {
        if self.pause.lock_paused {
            return Err(EscrowError::Paused);
        }
        if amount <= 0 {
            return Err(EscrowError::InvalidAmount);
        }
        let i = match self.find_program(program_id) {
            Some(i) => i,
            None => {
                return Err(EscrowError::ProgramNotFound);
            },
        };
        let fee = self.fees.lock_fee(amount);
        let net = amount - fee;
        let mut p = self.programs[i].clone();
        if p.total_funds > i128::MAX - net {
            return Err(EscrowError::Overflow);
        }
        p.total_funds = p.total_funds + net;
        p.remaining_balance = p.remaining_balance + net;
        self.set_program(i, p);
        Ok(LockReceipt { gross: amount, fee, net })
    }
}

impl ProgramEscrow {
    /// Pays `amounts[k]` to `recipients[k]` out of the program, each payout
    /// less its fee; only the program's payout key may do so. Nothing changes unless every check passes; an oversized
    /// batch is refused before anything else is looked at. The returned
    /// transfers are for the caller to carry out.
    #[verifier::loop_isolation(false)]
    pub fn batch_payout(
        &mut self,
        program_id: &String,
        caller: &Address,
        recipients: &Vec<Address>,
        amounts: &Vec<i128>,
    ) -> (r: Result<Vec<Payout>, EscrowError>)
        requires
            old(self)@.wf(),
        ensures
            final(self)@.wf(),
            ({
                let m = old(self)@;
                let outcome = batch_payout_outcome(
                    m,
                    program_id@,
                    caller@,
                    recipients@.len(),
                    amounts@,
                );
                let p = program_of(m.programs, program_id@);
                &&& r is Err <==> outcome is Err
                &&& r matches Err(e) ==> outcome == Err::<(), EscrowError>(e)
                &&& r is Err ==> final(self)@ == m
                &&& r matches Ok(payouts) ==> {
                    &&& payouts.len() == recipients.len()
                    &&& forall|k: int|
                        0 <= k < payouts.len() ==> {
                            &&& (#[trigger] payouts[k]).recipient == recipients[k]
                            &&& payouts[k].gross == amounts[k]
                            &&& payouts[k].fee == payout_fee_of(m.fees, amounts[k] as int)
                            &&& payouts[k].net == payouts[k].gross - payouts[k].fee
                            &&& 0 <= payouts[k].fee <= payouts[k].gross
                            &&& !m.fees.fee_enabled ==> payouts[k].fee == 0 && payouts[k].net
                                == payouts[k].gross
                        }
                    &&& net_total(payouts@) + fee_total(payouts@) == amounts_total(amounts@)
                    &&& final(self)@ == with_program(
                        m,
                        program_index(m.programs, program_id@),
                        ProgramData {
                            remaining_balance: (p.remaining_balance - amounts_total(
                                amounts@,
                            )) as i128,
                            ..p
                        },
                    )
                }
            }),
    {
        let n = recipients.len();
        if n > MAX_BATCH_SIZE as usize {
            return Err(EscrowError::BatchTooLarge);
        }
        if n == 0 {
            return Err(EscrowError::EmptyBatch);
        }
        if n != amounts.len() {
            return Err(EscrowError::LengthMismatch);
        }
        if self.pause.release_paused {
            return Err(EscrowError::Paused);
        }
        let i = match self.find_program(program_id) {
            Some(i) => i,
            None => {
                return Err(EscrowError::ProgramNotFound);
            },
        };
        if !self.programs[i].authorized_payout_key.same_as(caller) {
            return Err(EscrowError::Unauthorized);
        }
        if !self.programs[i].published {
            return Err(EscrowError::ProgramNotPublished);
        }
        if !self.breaker.allows_operations() {
            return Err(EscrowError::CircuitOpen);
        }
        let mut k: usize = 0;
        while k < n
            invariant
                n == amounts.len(),
                k <= n,
                forall|j: int| 0 <= j < k ==> #[trigger] amounts[j] > 0,
            decreases n - k,
        {
            if amounts[k] <= 0 {
                return Err(EscrowError::InvalidAmount);
            }
            k = k + 1;
        }
        assert(all_positive(amounts@));
        let remaining = self.programs[i].remaining_balance;
        let mut total: i128 = 0;
        let mut k: usize = 0;
        while k < n
            invariant
                n == amounts.len(),
                k <= n,
                all_positive(amounts@),
                total == amounts_total(amounts@.take(k as int)),
                0 <= total <= remaining,
            decreases n - k,
        {
            proof {
                lemma_take_next(amounts@, k as int);
            }
            if amounts[k] > remaining - total {
                proof {
                    lemma_prefix_total_bounded(amounts@, k + 1);
                }
                return Err(EscrowError::InsufficientBalance);
            }
            total = total + amounts[k];
            k = k + 1;
        }
        assert(amounts@.take(n as int) =~= amounts@);
        let mut payouts: Vec<Payout> = Vec::new();
        let mut k: usize = 0;
        while k < n
            invariant
                n == amounts.len(),
                n == recipients.len(),
                k <= n,
                all_positive(amounts@),
                self.fees.valid(),
                payouts.len() == k,
                forall|j: int|
                    0 <= j < k ==> {
                        &&& (#[trigger] payouts[j]).recipient == recipients[j]
                        &&& payouts[j].gross == amounts[j]
                        &&& payouts[j].fee == payout_fee_of(self.fees, amounts[j] as int)
                        &&& payouts[j].net == payouts[j].gross - payouts[j].fee
                    },
            decreases n - k,
        {
            let gross = amounts[k];
            let fee = self.fees.payout_fee(gross);
            payouts.push(Payout { recipient: recipients[k].clone(), gross, fee, net: gross - fee });
            k = k + 1;
        }
        proof {
            lemma_payouts_conserve(payouts@, amounts@);
        }
        let mut p = self.programs[i].clone();
        p.remaining_balance = remaining - total;
        self.set_program(i, p);
        Ok(payouts)
    }

    /// Sets (or, with `None`, clears) the program's own failure threshold;
    /// only its payout key may do so, and a threshold must lie in `1..=100`.
    pub fn set_program_circuit_breaker_threshold(
        &mut self,
        program_id: &String,
        caller: &Address,
        threshold: Option<u8>,
    ) -> (r: Result<ThresholdSetEvent, EscrowError>)
        requires
            old(self)@.wf(),
        ensures
            final(self)@.wf(),
            ({
                let m = old(self)@;
                let p = program_of(m.programs, program_id@);
                let expected = if !has_program(m.programs, program_id@) {
                    Err(EscrowError::ProgramNotFound)
                } else if p.authorized_payout_key@ != caller@ {
                    Err(EscrowError::Unauthorized)
                } else if !valid_threshold(threshold) {
                    Err(EscrowError::InvalidCircuitBreakerThreshold)
                } else {
                    Ok(())
                };
                &&& r is Err <==> expected is Err
                &&& r matches Err(e) ==> expected == Err::<(), EscrowError>(e)
                &&& r is Err ==> final(self)@ == m
                &&& r matches Ok(ev) ==> {
                    &&& ev.program_id == p.program_id
                    &&& ev.previous == p.circuit_breaker_threshold
                    &&& ev.threshold == threshold
                    &&& final(self)@ == with_program(
                        m,
                        program_index(m.programs, program_id@),
                        ProgramData { circuit_breaker_threshold: threshold, ..p },
                    )
                }
            }),
    {
        let i = match self.find_program(program_id) {
            Some(i) => i,
            None => {
                return Err(EscrowError::ProgramNotFound);
            },
        };
        if !self.programs[i].authorized_payout_key.same_as(caller) {
            return Err(EscrowError::Unauthorized);
        }
        if !is_valid_threshold(threshold) {
            return Err(EscrowError::InvalidCircuitBreakerThreshold);
        }
        let mut p = self.programs[i].clone();
        let previous = p.circuit_breaker_threshold;
        p.circuit_breaker_threshold = threshold;
        let event = ThresholdSetEvent { program_id: p.program_id.clone(), previous, threshold };
        self.set_program(i, p);
        Ok(event)
    }

    /// Records a failed operation of the program, counted against the
    /// program's own threshold or the default. Returns whether the circuit
    /// opened with it.
    pub fn record_failure(
        &mut self,
        program_id: &String,
        operation: String,
        error_code: u32,
    ) -> (r: Result<bool, EscrowError>)
        requires
            old(self)@.wf(),
        ensures
            final(self)@.wf(),
            final(self)@.programs == old(self)@.programs,
            final(self)@.admin == old(self)@.admin,
            final(self)@.fees == old(self)@.fees,
            final(self)@.pause == old(self)@.pause,
            r is Err <==> !has_program(old(self)@.programs, program_id@),
            r is Err ==> r == Err::<bool, EscrowError>(EscrowError::ProgramNotFound),
            r is Err ==> final(self)@ == old(self)@,
            r matches Ok(opened) ==> {
                let t = match program_of(old(self)@.programs, program_id@).circuit_breaker_threshold {
                    Some(t) => Some(t as u32),
                    None => None,
                };
                &&& (final(self)@.breaker.state, final(self)@.breaker.failure_count)
                    == after_failure(
                    old(self)@.breaker.state,
                    old(self)@.breaker.failure_count,
                    t,
                )
                &&& opened == (old(self)@.breaker.state != CircuitState::Open
                    && final(self)@.breaker.state == CircuitState::Open)
                &&& final(self)@.breaker.last_failure matches Some(f) && f.program_id
                    == program_of(old(self)@.programs, program_id@).program_id && f.operation
                    == operation && f.error_code == error_code
            },
    {
        let i = match self.find_program(program_id) {
            Some(i) => i,
            None => {
                return Err(EscrowError::ProgramNotFound);
            },
        };
        let t: Option<u32> = match self.programs[i].circuit_breaker_threshold {
            Some(t) => Some(t as u32),
            None => None,
        };
        let id = self.programs[i].program_id.clone();
        Ok(self.breaker.record_failure(id, operation, error_code, t))
    }

    /// Records a successful guarded operation.
    pub fn record_success(&mut self)
        requires
            old(self)@.wf(),
        ensures
            final(self)@.wf(),
            final(self)@.programs == old(self)@.programs,
            final(self)@.admin == old(self)@.admin,
            final(self)@.fees == old(self)@.fees,
            final(self)@.pause == old(self)@.pause,
            final(self)@.breaker.last_failure == old(self)@.breaker.last_failure,
            (final(self)@.breaker.state, final(self)@.breaker.failure_count)
                == crate::circuit_breaker::after_success(
                old(self)@.breaker.state,
                old(self)@.breaker.failure_count,
            ),
    {
        self.breaker.record_success();
    }

    /// Closes the circuit and clears its count; only the admin may do so.
    pub fn reset_circuit_breaker(&mut self, caller: &Address) -> (r: Result<(), EscrowError>)
        requires
            old(self)@.wf(),
        ensures
            final(self)@.wf(),
            r is Err <==> old(self)@.admin@ != caller@,
            r is Err ==> r == Err::<(), EscrowError>(EscrowError::Unauthorized),
            r is Err ==> final(self)@ == old(self)@,
            r is Ok ==> {
                &&& final(self)@.programs == old(self)@.programs
                &&& final(self)@.admin == old(self)@.admin
                &&& final(self)@.fees == old(self)@.fees
                &&& final(self)@.pause == old(self)@.pause
                &&& final(self)@.breaker.last_failure == old(self)@.breaker.last_failure
                &&& final(self)@.breaker.state == CircuitState::Closed
                &&& final(self)@.breaker.failure_count == 0
            },
    {
        if !self.admin.same_as(caller) {
            return Err(EscrowError::Unauthorized);
        }
        self.breaker.reset();
        Ok(())
    }

    /// Changes the fee settings given as `Some`; only the admin may do so,
    /// and a refused change leaves every setting as it was.
    pub fn update_fee_config(
        &mut self,
        caller: &Address,
        lock_fee_rate: Option<i128>,
        payout_fee_rate: Option<i128>,
        lock_fixed_fee: Option<i128>,
        payout_fixed_fee: Option<i128>,
        fee_recipient: Option<Address>,
        fee_enabled: Option<bool>,
    ) -> (r: Result<(), EscrowError>)
        requires
            old(self)@.wf(),
        ensures
            final(self)@.wf(),
            ({
                let expected = if old(self)@.admin@ != caller@ {
                    Err(EscrowError::Unauthorized)
                } else {
                    match update_outcome(
                        lock_fee_rate,
                        payout_fee_rate,
                        lock_fixed_fee,
                        payout_fixed_fee,
                    ) {
                        Err(FeeError::InvalidFeeRate) => Err(EscrowError::InvalidFeeRate),
                        Err(FeeError::InvalidFixedFee) => Err(EscrowError::InvalidFixedFee),
                        Ok(()) => Ok(()),
                    }
                };
                &&& r == expected
                &&& r is Err ==> final(self)@ == old(self)@
                &&& r is Ok ==> {
                    &&& final(self)@.programs == old(self)@.programs
                    &&& final(self)@.admin == old(self)@.admin
                    &&& final(self)@.breaker == old(self)@.breaker
                    &&& final(self)@.pause == old(self)@.pause
                    &&& final(self)@.fees.lock_fee_rate == crate::fees::opt_or(
                        lock_fee_rate,
                        old(self)@.fees.lock_fee_rate,
                    )
                    &&& final(self)@.fees.payout_fee_rate == crate::fees::opt_or(
                        payout_fee_rate,
                        old(self)@.fees.payout_fee_rate,
                    )
                    &&& final(self)@.fees.lock_fixed_fee == crate::fees::opt_or(
                        lock_fixed_fee,
                        old(self)@.fees.lock_fixed_fee,
                    )
                    &&& final(self)@.fees.payout_fixed_fee == crate::fees::opt_or(
                        payout_fixed_fee,
                        old(self)@.fees.payout_fixed_fee,
                    )
                    &&& final(self)@.fees.fee_recipient == crate::fees::opt_or(
                        fee_recipient,
                        old(self)@.fees.fee_recipient,
                    )
                    &&& final(self)@.fees.fee_enabled == crate::fees::opt_or(
                        fee_enabled,
                        old(self)@.fees.fee_enabled,
                    )
                }
            }),
    {
        if !self.admin.same_as(caller) {
            return Err(EscrowError::Unauthorized);
        }
        match self.fees.update_fee_config(
            lock_fee_rate,
            payout_fee_rate,
            lock_fixed_fee,
            payout_fixed_fee,
            fee_recipient,
            fee_enabled,
        ) {
            Ok(()) => Ok(()),
            Err(FeeError::InvalidFeeRate) => Err(EscrowError::InvalidFeeRate),
            Err(FeeError::InvalidFixedFee) => Err(EscrowError::InvalidFixedFee),
        }
    }
}

impl ProgramEscrow {
    /// Grants `delegate` the permission bits `permissions` on the program,
    /// replacing any earlier delegate; only the admin or the program's
    /// payout key may do so.
    pub fn set_program_delegate(
        &mut self,
        program_id: &String,
        caller: &Address,
        delegate: Address,
        permissions: u32,
    ) -> (r: Result<(), EscrowError>)
        requires
            old(self)@.wf(),
        ensures
            final(self)@.wf(),
            ({
                let m = old(self)@;
                let p = program_of(m.programs, program_id@);
                &&& r == (if !has_program(m.programs, program_id@) {
                    Err(EscrowError::ProgramNotFound)
                } else if p.authorized_payout_key@ != caller@ && m.admin@ != caller@ {
                    Err(EscrowError::Unauthorized)
                } else if !valid_permissions(permissions) {
                    Err(EscrowError::InvalidPermissions)
                } else {
                    Ok(())
                })
                &&& r is Err ==> final(self)@ == m
                &&& r is Ok ==> final(self)@ == with_program(
                    m,
                    program_index(m.programs, program_id@),
                    ProgramData {
                        delegate: Some(delegate),
                        delegate_permissions: permissions,
                        ..p
                    },
                )
            }),
    {
        let i = match self.find_program(program_id) {
            Some(i) => i,
            None => {
                return Err(EscrowError::ProgramNotFound);
            },
        };
        if !self.programs[i].authorized_payout_key.same_as(caller) && !self.admin.same_as(caller) {
            return Err(EscrowError::Unauthorized);
        }
        if !(permissions != 0 && permissions & !DELEGATE_PERMISSION_ALL == 0) {
            return Err(EscrowError::InvalidPermissions);
        }
        let mut p = self.programs[i].clone();
        p.delegate = Some(delegate);
        p.delegate_permissions = permissions;
        self.set_program(i, p);
        Ok(())
    }

    /// Removes the program's delegate and its permissions; only the admin
    /// or the program's payout key may do so.
    pub fn revoke_program_delegate(&mut self, program_id: &String, caller: &Address) -> (r: Result<
        (),
        EscrowError,
    >)
        requires
            old(self)@.wf(),
        ensures
            final(self)@.wf(),
            ({
                let m = old(self)@;
                let p = program_of(m.programs, program_id@);
                &&& r == (if !has_program(m.programs, program_id@) {
                    Err(EscrowError::ProgramNotFound)
                } else if p.authorized_payout_key@ != caller@ && m.admin@ != caller@ {
                    Err(EscrowError::Unauthorized)
                } else {
                    Ok(())
                })
                &&& r is Err ==> final(self)@ == m
                &&& r is Ok ==> final(self)@ == with_program(
                    m,
                    program_index(m.programs, program_id@),
                    ProgramData { delegate: None, delegate_permissions: 0, ..p },
                )
            }),
    {
        let i = match self.find_program(program_id) {
            Some(i) => i,
            None => {
                return Err(EscrowError::ProgramNotFound);
            },
        };
        if !self.programs[i].authorized_payout_key.same_as(caller) && !self.admin.same_as(caller) {
            return Err(EscrowError::Unauthorized);
        }
        let mut p = self.programs[i].clone();
        p.delegate = None;
        p.delegate_permissions = 0;
        self.set_program(i, p);
        Ok(())
    }

    /// The delegate audit records of all programs that have a delegate, in
    /// program order, from position `offset` (default 0) and at most `limit`
    /// of them (default: all).
    pub fn query_program_delegates(&self, offset: Option<u32>, limit: Option<u32>) -> (r: Vec<
        ProgramDelegateInfo,
    >)
        ensures
            r@ == page(delegated(self@.programs), offset, limit),
    {
        let n = self.programs.len();
        let mut all: Vec<ProgramDelegateInfo> = Vec::new();
        let mut i: usize = 0;
        while i < n
            invariant
                n == self@.programs.len(),
                i <= n,
                all@ == delegated(self@.programs.take(i as int)),
            decreases n - i,
        {
            proof {
                lemma_delegated_next(self@.programs, i as int);
            }
            let p = &self.programs[i];
            if p.delegate.is_some() {
                all.push(
                    ProgramDelegateInfo {
                        program_id: p.program_id.clone(),
                        delegate: clone_opt_address(&p.delegate),
                        permissions: p.delegate_permissions,
                    },
                );
            }
            i = i + 1;
        }
        assert(self@.programs.take(n as int) =~= self@.programs);
        let len = all.len();
        let start: usize = match offset {
            Some(o) => if (o as usize) < len {
                o as usize
            } else {
                len
            },
            None => 0,
        };
        let end: usize = match limit {
            Some(l) => if (l as usize) < len - start {
                start + l as usize
            } else {
                len
            },
            None => len,
        };
        let mut out: Vec<ProgramDelegateInfo> = Vec::new();
        let mut j: usize = start;
        while j < end
            invariant
                start <= j <= end <= len,
                len == all.len(),
                out@ == all@.subrange(start as int, j as int),
            decreases end - j,
        {
            out.push(all[j].clone());
            assert(out@ =~= all@.subrange(start as int, j + 1));
            j = j + 1;
        }
        out
    }
}

/// The delegate audit query of a program escrow contract.
pub trait ProgramEscrowContract {
    /// The contract's state is well formed.
    spec fn well_formed(&self) -> bool;

    /// The delegate audit records of the program `program_id`: at most one,
    /// since a program has at most one delegate.
    fn query_all_delegates(&self, program_id: &String) -> Vec<ProgramDelegateInfo>
        requires
            self.well_formed(),
    ;
}

impl ProgramEscrowContract for ProgramEscrow {
    open spec fn well_formed(&self) -> bool {
        self@.wf()
    }

    /// Empty when no program has the id or the program has no delegate;
    /// otherwise the one record of its delegate.
    fn query_all_delegates(&self, program_id: &String) -> (r: Vec<ProgramDelegateInfo>)
        ensures
            r@ == program_delegates(self@.programs, program_id@),
    {
        let mut out: Vec<ProgramDelegateInfo> = Vec::new();
        if let Some(i) = self.find_program(program_id) {
            let p = &self.programs[i];
            if p.delegate.is_some() {
                out.push(
                    ProgramDelegateInfo {
                        program_id: p.program_id.clone(),
                        delegate: clone_opt_address(&p.delegate),
                        permissions: p.delegate_permissions,
                    },
                );
            }
        }
        assert(out@ =~= (if has_program(self@.programs, program_id@) && program_of(
            self@.programs,
            program_id@,
        ).delegate is Some {
            seq![delegate_info(program_of(self@.programs, program_id@))]
        } else {
            Seq::<ProgramDelegateInfo>::empty()
        }));
        out
    }
}

/// The answer of an audit view that asks another contract for its delegate
/// records: the records it returned, or none when the call failed.
pub fn delegates_or_empty<E>(result: Result<Vec<ProgramDelegateInfo>, E>) -> (r: Vec<
    ProgramDelegateInfo,
>)
    ensures
        r@ == (match result {
            Ok(v) => v@,
            Err(_) => Seq::<ProgramDelegateInfo>::empty(),
        }),
{
    match result {
        Ok(v) => v,
        Err(_) => Vec::new(),
    }
}

/// What the payouts hand to their recipients, in total.
pub open spec fn net_total(ps: Seq<Payout>) -> int
    decreases ps.len(),
{
    if ps.len() == 0 {
        0
    } else {
        net_total(ps.drop_last()) + ps.last().net
    }
}

/// What the payouts hand to the fee recipient, in total.
pub open spec fn fee_total(ps: Seq<Payout>) -> int
    decreases ps.len(),
{
    if ps.len() == 0 {
        0
    } else {
        fee_total(ps.drop_last()) + ps.last().fee
    }
}

/// The delegate audit records of the program `id`: its one delegate, or none.
pub open spec fn program_delegates(ps: Seq<ProgramData>, id: Seq<char>) -> Seq<
    ProgramDelegateInfo,
> {
    if has_program(ps, id) && program_of(ps, id).delegate is Some {
        seq![delegate_info(program_of(ps, id))]
    } else {
        Seq::<ProgramDelegateInfo>::empty()
    }
}

/// Conservation of funds in a batch: when every payout splits its gross
/// amount into net and fee, the nets and fees together make up exactly the
/// amounts that were paid out.
pub proof fn lemma_payouts_conserve(ps: Seq<Payout>, amounts: Seq<i128>)
    requires
        ps.len() == amounts.len(),
        forall|k: int|
            0 <= k < ps.len() ==> (#[trigger] ps[k]).gross == amounts[k] && ps[k].net
                == ps[k].gross - ps[k].fee,
    ensures
        net_total(ps) + fee_total(ps) == amounts_total(amounts),
    decreases ps.len(),
{
    if ps.len() > 0 {
        let a = ps.drop_last();
        let b = amounts.drop_last();
        assert forall|k: int| 0 <= k < a.len() implies (#[trigger] a[k]).gross == b[k] && a[k].net
            == a[k].gross - a[k].fee by {
            assert(a[k] == ps[k]);
        }
        lemma_payouts_conserve(a, b);
        assert(ps[ps.len() - 1] == ps.last());
    }
}

/// Replacing a program by one with the same id keeps it findable at the
/// same position.
proof fn lemma_index_after_update(m: EscrowModel, id: Seq<char>, p: ProgramData)
    requires
        m.wf(),
        has_program(m.programs, id),
        p.program_id@ == id,
    ensures
        has_program(m.programs.update(program_index(m.programs, id), p), id),
        program_index(m.programs.update(program_index(m.programs, id), p), id) == program_index(
            m.programs,
            id,
        ),
        program_of(m.programs.update(program_index(m.programs, id), p), id) == p,
{
    let i = program_index(m.programs, id);
    let ps = m.programs.update(i, p);
    assert(ps[i].program_id@ == id);
    let k = program_index(ps, id);
    assert(ps[k].program_id@ == id);
    if k != i {
        assert(ps[k] == m.programs[k]);
        assert(m.programs[k].program_id@ != m.programs[i].program_id@);
    }
}

/// The audit query of a program answers with the delegate that was last
/// granted on it, and with nothing after the delegate was revoked.
pub proof fn lemma_delegate_audit(
    m: EscrowModel,
    id: Seq<char>,
    delegate: Address,
    permissions: u32,
)
    requires
        m.wf(),
        has_program(m.programs, id),
    ensures
        ({
            let p = program_of(m.programs, id);
            let granted = ProgramData {
                delegate: Some(delegate),
                delegate_permissions: permissions,
                ..p
            };
            program_delegates(with_program(m, program_index(m.programs, id), granted).programs, id)
                == seq![
                ProgramDelegateInfo {
                    program_id: p.program_id,
                    delegate: Some(delegate),
                    permissions,
                },
            ]
        }),
        ({
            let p = program_of(m.programs, id);
            let cleared = ProgramData { delegate: None, delegate_permissions: 0, ..p };
            program_delegates(with_program(m, program_index(m.programs, id), cleared).programs, id)
                == Seq::<ProgramDelegateInfo>::empty()
        }),
{
    let p = program_of(m.programs, id);
    assert(m.programs[program_index(m.programs, id)].program_id@ == id);
    lemma_index_after_update(
        m,
        id,
        ProgramData { delegate: Some(delegate), delegate_permissions: permissions, ..p },
    );
    lemma_index_after_update(m, id, ProgramData { delegate: None, delegate_permissions: 0, ..p });
}

/// Pages hold at most `limit` records, and without offset or limit the
/// query answers with every delegated program.
pub proof fn lemma_page_bounds<T>(all: Seq<T>, offset: Option<u32>, limit: Option<u32>)
    ensures
        page(all, offset, limit).len() <= all.len(),
        limit matches Some(l) ==> page(all, offset, limit).len() <= l,
        page(all, None, None) == all,
{
    assert(all.subrange(0, all.len() as int) =~= all);
}

/// Whether a program's balances and settings are consistent.
pub fn program_is_consistent(p: &ProgramData) -> (r: bool)
    ensures
        r == p.wf(),
{
    let perms_ok = match &p.delegate {
        None => p.delegate_permissions == 0,
        Some(_) => p.delegate_permissions != 0 && p.delegate_permissions & !DELEGATE_PERMISSION_ALL
            == 0,
    };
    0 <= p.remaining_balance && p.remaining_balance <= p.total_funds && is_valid_threshold(
        p.circuit_breaker_threshold,
    ) && perms_ok
}

impl ProgramEscrow {
    /// Rebuilds an escrow from its stored parts; `None` when they are not
    /// consistent (a repeated program id, a program with inconsistent
    /// balances or settings, or invalid fee settings).
    pub fn from_parts(
        admin: Address,
        programs: Vec<ProgramData>,
        fees: FeeConfig,
        breaker: CircuitBreaker,
        pause: PauseFlags,
    ) -> (r: Option<ProgramEscrow>)
        ensures
            ({
                let m = EscrowModel { admin, programs: programs@, fees, breaker, pause };
                &&& r is Some <==> m.wf()
                &&& r matches Some(e) ==> e@ == m
            }),
    {
        let ghost m = EscrowModel { admin, programs: programs@, fees, breaker, pause };
        let valid_rates = 0 <= fees.lock_fee_rate && fees.lock_fee_rate
            <= crate::fees::MAX_FEE_RATE && 0 <= fees.payout_fee_rate && fees.payout_fee_rate
            <= crate::fees::MAX_FEE_RATE;
        if !(valid_rates && fees.lock_fixed_fee >= 0 && fees.payout_fixed_fee >= 0) {
            return None;
        }
        let n = programs.len();
        let mut i: usize = 0;
        while i < n
            invariant
                n == programs.len(),
                i <= n,
                forall|a: int| 0 <= a < i ==> (#[trigger] programs@[a]).wf(),
                forall|a: int, b: int|
                    0 <= a < i && 0 <= b < i && a != b ==> #[trigger] programs@[a].program_id@
                        != #[trigger] programs@[b].program_id@,
            decreases n - i,
        {
            if !program_is_consistent(&programs[i]) {
                return None;
            }
            let mut j: usize = 0;
            while j < i
                invariant
                    n == programs.len(),
                    j <= i < n,
                    forall|b: int|
                        0 <= b < j ==> #[trigger] programs@[b].program_id@
                            != programs@[i as int].program_id@,
                decreases i - j,
            {
                if programs[j].program_id == programs[i].program_id {
                    proof {
                        assert(programs@[j as int].program_id@ == programs@[i as int].program_id@);
                        assert(!unique_ids(programs@));
                    }
                    return None;
                }
                j = j + 1;
            }
            i = i + 1;
        }
        Some(ProgramEscrow { admin, programs, fees, breaker, pause })
    }

    /// The stored parts of the escrow: admin, programs, fee settings,
    /// circuit breaker and pause flags.
    pub fn into_parts(self) -> (r: (Address, Vec<ProgramData>, FeeConfig, CircuitBreaker, PauseFlags))
        ensures
            r.0 == self@.admin,
            r.1@ == self@.programs,
            r.2 == self@.fees,
            r.3 == self@.breaker,
            r.4 == self@.pause,
    {
        (self.admin, self.programs, self.fees, self.breaker, self.pause)
    }

    pub fn get_pause_flags(&self) -> (r: PauseFlags)
        ensures
            r == self@.pause,
    {
        self.pause
    }

    /// Pauses or resumes the kinds of operation given as `Some`; only the
    /// admin may do so.
    pub fn set_paused(
        &mut self,
        caller: &Address,
        lock: Option<bool>,
        release: Option<bool>,
        refund: Option<bool>,
    ) -> (r: Result<(), EscrowError>)
        requires
            old(self)@.wf(),
        ensures
            final(self)@.wf(),
            r is Err <==> old(self)@.admin@ != caller@,
            r is Err ==> r == Err::<(), EscrowError>(EscrowError::Unauthorized),
            r is Err ==> final(self)@ == old(self)@,
            r is Ok ==> final(self)@ == (EscrowModel {
                pause: PauseFlags {
                    lock_paused: crate::fees::opt_or(lock, old(self)@.pause.lock_paused),
                    release_paused: crate::fees::opt_or(release, old(self)@.pause.release_paused),
                    refund_paused: crate::fees::opt_or(refund, old(self)@.pause.refund_paused),
                },
                ..old(self)@
            }),
    {
        if !self.admin.same_as(caller) {
            return Err(EscrowError::Unauthorized);
        }
        if let Some(b) = lock {
            self.pause.lock_paused = b;
        }
        if let Some(b) = release {
            self.pause.release_paused = b;
        }
        if let Some(b) = refund {
            self.pause.refund_paused = b;
        }
        Ok(())
    }

    /// Pays `amount` to `recipient` out of the program, less the payout fee;
    /// the same rules as a batch of one apply.
    pub fn single_payout(
        &mut self,
        program_id: &String,
        caller: &Address,
        recipient: Address,
        amount: i128,
    ) -> (r: Result<Payout, EscrowError>)
        requires
            old(self)@.wf(),
        ensures
            final(self)@.wf(),
            ({
                let m = old(self)@;
                let outcome = batch_payout_outcome(m, program_id@, caller@, 1, seq![amount]);
                let p = program_of(m.programs, program_id@);
                &&& r is Err <==> outcome is Err
                &&& r matches Err(e) ==> outcome == Err::<(), EscrowError>(e)
                &&& r is Err ==> final(self)@ == m
                &&& r matches Ok(payout) ==> {
                    &&& payout.recipient == recipient
                    &&& payout.gross == amount
                    &&& payout.fee == payout_fee_of(m.fees, amount as int)
                    &&& payout.net == amount - payout.fee
                    &&& 0 <= payout.fee <= amount
                    &&& !m.fees.fee_enabled ==> payout.fee == 0 && payout.net == amount
                    &&& final(self)@ == with_program(
                        m,
                        program_index(m.programs, program_id@),
                        ProgramData { remaining_balance: (p.remaining_balance - amount) as i128, ..p },
                    )
                }
            }),
    {
        let ghost amounts = seq![amount];
        proof {
            assert(amounts.drop_last() =~= Seq::<i128>::empty());
            assert(amounts_total(Seq::<i128>::empty()) == 0);
            assert(amounts.last() == amount);
            assert(amounts_total(amounts) == amount);
        }
        if self.pause.release_paused {
            return Err(EscrowError::Paused);
        }
        let i = match self.find_program(program_id) {
            Some(i) => i,
            None => {
                return Err(EscrowError::ProgramNotFound);
            },
        };
        if !self.programs[i].authorized_payout_key.same_as(caller) {
            return Err(EscrowError::Unauthorized);
        }
        if !self.programs[i].published {
            return Err(EscrowError::ProgramNotPublished);
        }
        if !self.breaker.allows_operations() {
            return Err(EscrowError::CircuitOpen);
        }
        if amount <= 0 {
            assert(!all_positive(amounts)) by {
                assert(amounts[0] == amount);
            }
            return Err(EscrowError::InvalidAmount);
        }
        let remaining = self.programs[i].remaining_balance;
        if amount > remaining {
            return Err(EscrowError::InsufficientBalance);
        }
        let fee = self.fees.payout_fee(amount);
        let mut p = self.programs[i].clone();
        p.remaining_balance = remaining - amount;
        self.set_program(i, p);
        Ok(Payout { recipient, gross: amount, fee, net: amount - fee })
    }
}

/// The size check comes first: a batch of more than `MAX_BATCH_SIZE`
/// recipients is refused as too large whatever else holds, and a batch
/// within the limit is never refused for its size.
pub proof fn lemma_batch_size_checked_first(
    m: EscrowModel,
    id: Seq<char>,
    caller: Seq<char>,
    recipients: nat,
    amounts: Seq<i128>,
)
    ensures
        recipients > MAX_BATCH_SIZE ==> batch_payout_outcome(m, id, caller, recipients, amounts)
            == Err::<(), EscrowError>(EscrowError::BatchTooLarge),
        recipients <= MAX_BATCH_SIZE ==> batch_payout_outcome(m, id, caller, recipients, amounts)
            != Err::<(), EscrowError>(EscrowError::BatchTooLarge),
{
}

/// Fees are deducted only while they are switched on: with fees disabled
/// neither a lock nor a payout of any amount loses anything, and with fees
/// enabled under valid settings the fee on a non-negative amount lies
/// between nothing and the whole amount.
pub proof fn lemma_fees_only_when_enabled(fees: FeeConfig, amount: int)
    ensures
        !fees.fee_enabled ==> payout_fee_of(fees, amount) == 0 && lock_fee_of(fees, amount) == 0,
        fees.valid() && amount >= 0 ==> 0 <= payout_fee_of(fees, amount) <= amount && 0
            <= lock_fee_of(fees, amount) <= amount,
{
    if fees.valid() && amount >= 0 && fees.fee_enabled {
        crate::fees::lemma_fee_within_amount(
            amount,
            fees.payout_fee_rate as int,
            fees.payout_fixed_fee as int,
        );
        crate::fees::lemma_fee_within_amount(
            amount,
            fees.lock_fee_rate as int,
            fees.lock_fixed_fee as int,
        );
    }
}

/// Every ASCII letter, digit, `-` and `_` may appear in a program id: any
/// id of 1 to 64 such characters is valid, and an id holding any other
/// character, or of another length, is not.
pub proof fn lemma_program_id_charset(id: Seq<char>)
    ensures
        (1 <= id.len() <= 64 && forall|i: int|
            0 <= i < id.len() ==> ascii_id_code(#[trigger] id[i] as int)) <==> valid_program_id(
            id,
        ),
{
    assert forall|i: int| 0 <= i < id.len() implies ascii_id_code(#[trigger] id[i] as int)
        == program_id_char(id[i]) by {
    }
}

/// The code points of ASCII letters, digits, `-` (0x2d) and `_` (0x5f).
pub open spec fn ascii_id_code(c: int) -> bool {
    ||| 0x61 <= c <= 0x7a
    ||| 0x41 <= c <= 0x5a
    ||| 0x30 <= c <= 0x39
    ||| c == 0x2d
    ||| c == 0x5f
}

} // verus!
