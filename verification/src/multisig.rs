use vstd::prelude::*;

use crate::address::Address;
use crate::migration::{CoreModel, GrainlifyCore, VERSION};

verus! {

/// Seconds between an upgrade reaching its approval threshold and the
/// earliest moment it may be executed, until the admin sets another delay.
pub const DEFAULT_TIMELOCK_DELAY: u64 = 86_400;

/// The longest timelock delay that can be set: 30 days.
pub const MAX_TIMELOCK_DELAY: u64 = 2_592_000;

/// Why a governance operation was refused.
#[derive(Debug, Clone, Copy, PartialEq, Eq, Structural)]
pub enum GovernanceError {
    /// The contract already has an admin.
    AlreadyInitialized,
    /// The threshold is zero or exceeds the number of signers.
    InvalidThreshold,
    /// A signer is listed twice.
    DuplicateSigner,
    /// The caller is not one of the signers.
    NotSigner,
    /// No proposal has the given id.
    ProposalNotFound,
    /// The signer has approved the proposal already.
    AlreadyApproved,
    /// The caller may not perform the operation.
    Unauthorized,
    /// The proposal has not reached its approval threshold.
    ThresholdNotMet,
    /// The proposal's timelock has not elapsed yet.
    TimelockNotElapsed,
    /// Proposal ids are exhausted.
    TooManyProposals,
    /// A timelock delay above `MAX_TIMELOCK_DELAY`.
    TimelockDelayTooHigh,
}

/// The delay an approved proposal waits before it may be executed.
#[derive(Debug, Clone, Copy, PartialEq, Eq, Structural)]
pub struct TimelockStatus {
    pub started_at: u64,
    pub executable_at: u64,
}

/// A proposed contract upgrade and the signers who approved it.
#[derive(Debug)]
pub struct UpgradeProposal {
    pub id: u64,
    pub proposer: Address,
    pub wasm_hash: [u8; 32],
    pub created_at: u64,
    pub approvals: Vec<Address>,
    /// Started when the approvals reach the threshold.
    pub timelock: Option<TimelockStatus>,
}

/// The multisig configuration and the open upgrade proposals.
pub struct Governance {
    signers: Vec<Address>,
    threshold: u32,
    proposals: Vec<UpgradeProposal>,
    next_id: u64,
    timelock_delay: u64,
}

/// The abstract state of the upgrade governance.
pub struct GovernanceModel {
    pub signers: Seq<Address>,
    pub threshold: u32,
    pub proposals: Seq<UpgradeProposal>,
    pub next_id: u64,
    pub timelock_delay: u64,
}

impl View for Governance {
    type V = GovernanceModel;

    closed spec fn view(&self) -> GovernanceModel {
        GovernanceModel {
            signers: self.signers@,
            threshold: self.threshold,
            proposals: self.proposals@,
            next_id: self.next_id,
            timelock_delay: self.timelock_delay,
        }
    }
}

/// No identity occurs twice.
pub open spec fn distinct(s: Seq<Address>) -> bool {
    forall|i: int, j: int| 0 <= i < j < s.len() ==> #[trigger] s[i]@ != #[trigger] s[j]@
}

/// Whether the identity `a` occurs in `s`.
pub open spec fn contains_identity(s: Seq<Address>, a: Seq<char>) -> bool {
    exists|k: int| 0 <= k < s.len() && #[trigger] s[k]@ == a
}

/// The identities of the addresses.
pub open spec fn identities(s: Seq<Address>) -> Seq<Seq<char>> {
    s.map_values(|a: Address| a@)
}

/// The timelock of `delay` seconds that starts at `now`, ending at the
/// latest representable instant when the delay would pass it.
pub open spec fn timelock_from(now: u64, delay: u64) -> TimelockStatus {
    TimelockStatus {
        started_at: now,
        executable_at: if now <= u64::MAX - delay {
            (now + delay) as u64
        } else {
            u64::MAX
        },
    }
}

/// Whether some proposal has the id `id`.
pub open spec fn has_proposal(ps: Seq<UpgradeProposal>, id: u64) -> bool {
    exists|i: int| 0 <= i < ps.len() && #[trigger] ps[i].id == id
}

/// The position of the proposal `id` (meaningful when it exists).
pub open spec fn proposal_index(ps: Seq<UpgradeProposal>, id: u64) -> int {
    choose|i: int| 0 <= i < ps.len() && #[trigger] ps[i].id == id
}

/// The proposal `id` (meaningful when it exists).
pub open spec fn proposal_of(ps: Seq<UpgradeProposal>, id: u64) -> UpgradeProposal {
    ps[proposal_index(ps, id)]
}

impl UpgradeProposal {
    /// Approvals by distinct signers, an id already handed out, and a
    /// timelock exactly when the approvals reached the threshold.
    pub open spec fn wf(&self, signers: Seq<Address>, threshold: u32, next_id: u64) -> bool {
        &&& self.id < next_id
        &&& distinct(self.approvals@)
        &&& forall|k: int|
            0 <= k < self.approvals@.len() ==> contains_identity(
                signers,
                (#[trigger] self.approvals@[k])@,
            )
        &&& (self.timelock is Some <==> self.approvals@.len() >= threshold)
    }
}

impl GovernanceModel {
    /// Distinct signers, a threshold they can reach, proposals with unique
    /// ids that are each well formed.
    pub open spec fn wf(&self) -> bool {
        &&& distinct(self.signers)
        &&& 1 <= self.threshold <= self.signers.len()
        &&& self.timelock_delay <= MAX_TIMELOCK_DELAY
        &&& forall|i: int, j: int|
            0 <= i < j < self.proposals.len() ==> #[trigger] self.proposals[i].id
                != #[trigger] self.proposals[j].id
        &&& forall|i: int|
            0 <= i < self.proposals.len() ==> (#[trigger] self.proposals[i]).wf(
                self.signers,
                self.threshold,
                self.next_id,
            )
    }
}

/// Whether `a` is in `v`, by identity.
pub fn contains_address(v: &Vec<Address>, a: &Address) -> (r: bool)
    ensures
        r == contains_identity(v@, a@),
{
    let mut i: usize = 0;
    while i < v.len()
        invariant
            i <= v.len(),
            forall|k: int| 0 <= k < i ==> #[trigger] v@[k]@ != a@,
        decreases v.len() - i,
    {
        if v[i].same_as(a) {
            return true;
        }
        i = i + 1;
    }
    false
}

/// Whether no identity occurs twice in `v`.
pub fn is_distinct(v: &Vec<Address>) -> (r: bool)
    ensures
        r == distinct(v@),
{
    let mut i: usize = 0;
    while i < v.len()
        invariant
            i <= v.len(),
            distinct(v@.take(i as int)),
        decreases v.len() - i,
    {
        let mut j: usize = 0;
        while j < i
            invariant
                j <= i < v.len(),
                forall|k: int| 0 <= k < j ==> #[trigger] v@[k]@ != v@[i as int]@,
            decreases i - j,
        {
            if v[j].same_as(&v[i]) {
                assert(!distinct(v@));
                return false;
            }
            j = j + 1;
        }
        assert(distinct(v@.take(i + 1))) by {
            let t = v@.take(i + 1);
            assert forall|a: int, b: int| 0 <= a < b < t.len() implies #[trigger] t[a]@
                != #[trigger] t[b]@ by {
                if b < i {
                    assert(v@.take(i as int)[a] == t[a]);
                    assert(v@.take(i as int)[b] == t[b]);
                }
            }
        }
        i = i + 1;
    }
    assert(v@.take(v.len() as int) =~= v@);
    true
}

fn copy_addresses(v: &Vec<Address>) -> (r: Vec<Address>)
    ensures
        r@ == v@,
{
    let mut out: Vec<Address> = Vec::new();
    let mut i: usize = 0;
    while i < v.len()
        invariant
            i <= v.len(),
            out@ == v@.take(i as int),
        decreases v.len() - i,
    {
        out.push(v[i].clone());
        assert(out@ =~= v@.take(i + 1));
        i = i + 1;
    }
    assert(v@.take(v.len() as int) =~= v@);
    out
}

/// Distinct addresses that all belong to `signers` are no more numerous
/// than the signers.
pub proof fn lemma_approvals_bounded(approvals: Seq<Address>, signers: Seq<Address>)
    requires
        distinct(approvals),
        forall|k: int|
            0 <= k < approvals.len() ==> contains_identity(signers, (#[trigger] approvals[k])@),
    ensures
        approvals.len() <= signers.len(),
{
    let a = identities(approvals);
    let s = identities(signers);
    assert(a.no_duplicates()) by {
        assert forall|i: int, j: int| 0 <= i < a.len() && 0 <= j < a.len() && i != j implies a[i]
            != a[j] by {
            if i < j {
                assert(approvals[i]@ != approvals[j]@);
            } else {
                assert(approvals[j]@ != approvals[i]@);
            }
        }
    }
    a.unique_seq_to_set();
    assert(a.to_set().subset_of(s.to_set())) by {
        assert forall|x: Seq<char>| a.to_set().contains(x) implies s.to_set().contains(x) by {
            let i = choose|i: int| 0 <= i < a.len() && a[i] == x;
            assert(contains_identity(signers, approvals[i]@));
            let k = choose|k: int| 0 <= k < signers.len() && #[trigger] signers[k]@ == approvals[i]@;
            assert(s[k] == x);
        }
    }
    vstd::seq_lib::seq_to_set_is_finite(s);
    vstd::set_lib::lemma_len_subset(a.to_set(), s.to_set());
    s.lemma_cardinality_of_set();
}

impl Governance {
    /// A multisig of `signers` that needs `threshold` approvals, without
    /// proposals.
    pub fn new(signers: Vec<Address>, threshold: u32) -> (r: Result<Governance, GovernanceError>)
        ensures
            r is Err <==> (threshold == 0 || threshold > signers.len() || !distinct(signers@)),
            r matches Err(e) ==> e == (if threshold == 0 || threshold > signers.len() {
                GovernanceError::InvalidThreshold
            } else {
                GovernanceError::DuplicateSigner
            }),
            r matches Ok(g) ==> g@.wf() && g@ == (GovernanceModel {
                signers: signers@,
                threshold,
                proposals: Seq::empty(),
                next_id: 1,
                timelock_delay: DEFAULT_TIMELOCK_DELAY,
            }),
    {
        if threshold == 0 || threshold as usize > signers.len() {
            return Err(GovernanceError::InvalidThreshold);
        }
        if !is_distinct(&signers) {
            return Err(GovernanceError::DuplicateSigner);
        }
        Ok(
            Governance {
                signers,
                threshold,
                proposals: Vec::new(),
                next_id: 1,
                timelock_delay: DEFAULT_TIMELOCK_DELAY,
            },
        )
    }

    /// Rebuilds a governance from its stored parts; `None` when they are
    /// not consistent.
    #[verifier::loop_isolation(false)]
    pub fn from_parts(
        signers: Vec<Address>,
        threshold: u32,
        proposals: Vec<UpgradeProposal>,
        next_id: u64,
        timelock_delay: u64,
    ) -> (r: Option<Governance>)
        ensures
            ({
                let m = GovernanceModel {
                    signers: signers@,
                    threshold,
                    proposals: proposals@,
                    next_id,
                    timelock_delay,
                };
                &&& r is Some <==> m.wf()
                &&& r matches Some(g) ==> g@ == m
            }),
    {
        if threshold == 0 || threshold as usize > signers.len() || !is_distinct(&signers)
            || timelock_delay > MAX_TIMELOCK_DELAY {
            return None;
        }
        let n = proposals.len();
        let mut i: usize = 0;
        while i < n
            invariant
                n == proposals.len(),
                i <= n,
                forall|a: int|
                    0 <= a < i ==> (#[trigger] proposals@[a]).wf(signers@, threshold, next_id),
                forall|a: int, b: int|
                    0 <= a < b < i ==> #[trigger] proposals@[a].id != #[trigger] proposals@[b].id,
            decreases n - i,
        {
            let p = &proposals[i];
            if p.id >= next_id || !is_distinct(&p.approvals) {
                return None;
            }
            if p.timelock.is_some() != (p.approvals.len() >= threshold as usize) {
                return None;
            }
            let mut k: usize = 0;
            while k < p.approvals.len()
                invariant
                    k <= p.approvals.len(),
                    forall|c: int|
                        0 <= c < k ==> contains_identity(signers@, (#[trigger] p.approvals@[c])@),
                decreases p.approvals.len() - k,
            {
                if !contains_address(&signers, &p.approvals[k]) {
                    return None;
                }
                k = k + 1;
            }
            let mut j: usize = 0;
            while j < i
                invariant
                    n == proposals.len(),
                    j <= i < n,
                    forall|b: int| 0 <= b < j ==> #[trigger] proposals@[b].id != proposals@[i as int].id,
                decreases i - j,
            {
                if proposals[j].id == proposals[i].id {
                    return None;
                }
                j = j + 1;
            }
            i = i + 1;
        }
        Some(Governance { signers, threshold, proposals, next_id, timelock_delay })
    }

    /// The stored parts: signers, threshold, open proposals, next id and
    /// timelock delay.
    pub fn into_parts(self) -> (r: (Vec<Address>, u32, Vec<UpgradeProposal>, u64, u64))
        ensures
            r.0@ == self@.signers,
            r.1 == self@.threshold,
            r.2@ == self@.proposals,
            r.3 == self@.next_id,
            r.4 == self@.timelock_delay,
    {
        (self.signers, self.threshold, self.proposals, self.next_id, self.timelock_delay)
    }

    pub fn get_timelock_delay(&self) -> (r: u64)
        ensures
            r == self@.timelock_delay,
    {
        self.timelock_delay
    }

    /// Sets the delay for timelocks started from now on (an admin action);
    /// refused above `MAX_TIMELOCK_DELAY`.
    pub fn set_timelock_delay(&mut self, delay: u64) -> (r: Result<(), GovernanceError>)
        requires
            old(self)@.wf(),
        ensures
            final(self)@.wf(),
            r is Err <==> delay > MAX_TIMELOCK_DELAY,
            r is Err ==> r == Err::<(), GovernanceError>(GovernanceError::TimelockDelayTooHigh),
            r is Err ==> final(self)@ == old(self)@,
            r is Ok ==> final(self)@ == (GovernanceModel { timelock_delay: delay, ..old(self)@ }),
    {
        if delay > MAX_TIMELOCK_DELAY {
            return Err(GovernanceError::TimelockDelayTooHigh);
        }
        let ghost old_m = self@;
        self.timelock_delay = delay;
        proof {
            assert forall|a: int| 0 <= a < self@.proposals.len() implies (#[trigger] self@.proposals[a]).wf(
                self@.signers,
                self@.threshold,
                self@.next_id,
            ) by {
                assert(old_m.proposals[a].wf(old_m.signers, old_m.threshold, old_m.next_id));
            }
        }
        Ok(())
    }

    pub fn get_threshold(&self) -> (r: u32)
        ensures
            r == self@.threshold,
    {
        self.threshold
    }

    pub fn get_signers(&self) -> (r: Vec<Address>)
        ensures
            r@ == self@.signers,
    {
        copy_addresses(&self.signers)
    }

    /// The position of the proposal `id`, if it exists.
    fn find_proposal(&self, id: u64) -> (r: Option<usize>)
        requires
            self@.wf(),
        ensures
            r is None <==> !has_proposal(self@.proposals, id),
            r matches Some(i) ==> i < self@.proposals.len() && i == proposal_index(
                self@.proposals,
                id,
            ),
    {
        let mut i: usize = 0;
        while i < self.proposals.len()
            invariant
                self@.wf(),
                i <= self.proposals.len(),
                forall|j: int| 0 <= j < i ==> #[trigger] self.proposals@[j].id != id,
            decreases self.proposals.len() - i,
        {
            if self.proposals[i].id == id {
                proof {
                    let ps = self@.proposals;
                    assert(has_proposal(ps, id));
                    let k = proposal_index(ps, id);
                    if k < i as int {
                        assert(ps[k].id != ps[i as int].id);
                    } else if k > i as int {
                        assert(ps[i as int].id != ps[k].id);
                    }
                }
                return Some(i);
            }
            i = i + 1;
        }
        None
    }

    /// A copy of the proposal `id`, if it exists.
    pub fn get_upgrade_proposal(&self, id: u64) -> (r: Option<UpgradeProposal>)
        requires
            self@.wf(),
        ensures
            r is None <==> !has_proposal(self@.proposals, id),
            r matches Some(p) ==> {
                let q = proposal_of(self@.proposals, id);
                &&& p.id == q.id
                &&& p.proposer == q.proposer
                &&& p.wasm_hash == q.wasm_hash
                &&& p.created_at == q.created_at
                &&& p.approvals@ == q.approvals@
                &&& p.timelock == q.timelock
            },
    {
        match self.find_proposal(id) {
            Some(i) => {
                let q = &self.proposals[i];
                Some(
                    UpgradeProposal {
                        id: q.id,
                        proposer: q.proposer.clone(),
                        wasm_hash: q.wasm_hash,
                        created_at: q.created_at,
                        approvals: copy_addresses(&q.approvals),
                        timelock: q.timelock,
                    },
                )
            },
            None => None,
        }
    }

    /// The timelock of the proposal `id`: none when it does not exist or
    /// has not reached its threshold.
    pub fn get_timelock_status(&self, id: u64) -> (r: Option<TimelockStatus>)
        requires
            self@.wf(),
        ensures
            r == (if has_proposal(self@.proposals, id) {
                proposal_of(self@.proposals, id).timelock
            } else {
                None
            }),
    {
        match self.find_proposal(id) {
            Some(i) => self.proposals[i].timelock,
            None => None,
        }
    }

    /// Opens a proposal to upgrade to `wasm_hash`; only a signer may
    /// propose. Returns the new proposal's id.
    pub fn propose_upgrade(&mut self, proposer: &Address, wasm_hash: [u8; 32], now: u64) -> (r:
        Result<u64, GovernanceError>)
        requires
            old(self)@.wf(),
        ensures
            final(self)@.wf(),
            ({
                let m = old(self)@;
                &&& r is Err <==> (!contains_identity(m.signers, proposer@) || m.next_id
                    == u64::MAX)
                &&& r matches Err(e) ==> e == (if !contains_identity(m.signers, proposer@) {
                    GovernanceError::NotSigner
                } else {
                    GovernanceError::TooManyProposals
                })
                &&& r is Err ==> final(self)@ == m
                &&& r matches Ok(id) ==> {
                    &&& id == m.next_id
                    &&& final(self)@.signers == m.signers
                    &&& final(self)@.threshold == m.threshold
                    &&& final(self)@.next_id == m.next_id + 1
                    &&& final(self)@.timelock_delay == m.timelock_delay
                    &&& final(self)@.proposals.len() == m.proposals.len() + 1
                    &&& final(self)@.proposals.drop_last() == m.proposals
                    &&& final(self)@.proposals.last().id == id
                    &&& final(self)@.proposals.last().proposer == *proposer
                    &&& final(self)@.proposals.last().wasm_hash == wasm_hash
                    &&& final(self)@.proposals.last().created_at == now
                    &&& final(self)@.proposals.last().approvals@ == Seq::<Address>::empty()
                    &&& final(self)@.proposals.last().timelock is None
                }
            }),
    {
        if !contains_address(&self.signers, proposer) {
            return Err(GovernanceError::NotSigner);
        }
        if self.next_id == u64::MAX {
            return Err(GovernanceError::TooManyProposals);
        }
        let id = self.next_id;
        let ghost old_m = self@;
        self.next_id = id + 1;
        self.proposals.push(
            UpgradeProposal {
                id,
                proposer: proposer.clone(),
                wasm_hash,
                created_at: now,
                approvals: Vec::new(),
                timelock: None,
            },
        );
        proof {
            let ps = self@.proposals;
            assert(ps.drop_last() =~= old_m.proposals);
            assert forall|i: int, j: int| 0 <= i < j < ps.len() implies #[trigger] ps[i].id
                != #[trigger] ps[j].id by {
                assert(ps[i] == old_m.proposals[i]);
                if j < ps.len() - 1 {
                    assert(ps[j] == old_m.proposals[j]);
                } else {
                    assert(old_m.proposals[i].wf(old_m.signers, old_m.threshold, old_m.next_id));
                }
            }
            assert forall|i: int| 0 <= i < ps.len() implies (#[trigger] ps[i]).wf(
                self@.signers,
                self@.threshold,
                self@.next_id,
            ) by {
                if i < ps.len() - 1 {
                    assert(ps[i] == old_m.proposals[i]);
                    assert(old_m.proposals[i].wf(old_m.signers, old_m.threshold, old_m.next_id));
                }
            }
        }
        Ok(id)
    }

    /// Records `signer`'s approval of proposal `id`. When the approvals reach
    /// the threshold the timelock starts at `now`; returns whether it did.
    pub fn approve_upgrade(&mut self, id: u64, signer: &Address, now: u64) -> (r: Result<
        bool,
        GovernanceError,
    >)
        requires
            old(self)@.wf(),
        ensures
            final(self)@.wf(),
            ({
                let m = old(self)@;
                let q = proposal_of(m.proposals, id);
                let expected = if !has_proposal(m.proposals, id) {
                    Err(GovernanceError::ProposalNotFound)
                } else if !contains_identity(m.signers, signer@) {
                    Err(GovernanceError::NotSigner)
                } else if contains_identity(q.approvals@, signer@) {
                    Err(GovernanceError::AlreadyApproved)
                } else {
                    Ok(())
                };
                &&& r is Err <==> expected is Err
                &&& r matches Err(e) ==> expected == Err::<(), GovernanceError>(e)
                &&& r is Err ==> final(self)@ == m
                &&& r matches Ok(started) ==> {
                    let i = proposal_index(m.proposals, id);
                    let p = final(self)@.proposals[i];
                    &&& started == (q.approvals@.len() + 1 == m.threshold)
                    &&& final(self)@.signers == m.signers
                    &&& final(self)@.threshold == m.threshold
                    &&& final(self)@.next_id == m.next_id
                    &&& final(self)@.proposals.len() == m.proposals.len()
                    &&& forall|j: int|
                        0 <= j < m.proposals.len() && j != i ==> final(self)@.proposals[j]
                            == m.proposals[j]
                    &&& p.id == q.id && p.proposer == q.proposer && p.wasm_hash == q.wasm_hash
                        && p.created_at == q.created_at
                    &&& p.approvals@ == q.approvals@.push(*signer)
                    &&& final(self)@.timelock_delay == m.timelock_delay
                    &&& p.timelock == (if started {
                        Some(timelock_from(now, m.timelock_delay))
                    } else {
                        q.timelock
                    })
                }
            }),
    {
        let i = match self.find_proposal(id) {
            Some(i) => i,
            None => {
                return Err(GovernanceError::ProposalNotFound);
            },
        };
        if !contains_address(&self.signers, signer) {
            return Err(GovernanceError::NotSigner);
        }
        if contains_address(&self.proposals[i].approvals, signer) {
            return Err(GovernanceError::AlreadyApproved);
        }
        let ghost old_m = self@;
        let mut p = self.proposals.remove(i);
        let ghost q = p;
        p.approvals.push(signer.clone());
        let started = p.approvals.len() as u64 == self.threshold as u64;
        if started {
            let executable_at = if now <= u64::MAX - self.timelock_delay {
                now + self.timelock_delay
            } else {
                u64::MAX
            };
            p.timelock = Some(TimelockStatus { started_at: now, executable_at });
        }
        self.proposals.insert(i, p);
        proof {
            let ps = self@.proposals;
            assert(ps =~= old_m.proposals.update(i as int, p));
            assert(q == old_m.proposals[i as int]);
            assert(q.wf(old_m.signers, old_m.threshold, old_m.next_id));
            assert(distinct(p.approvals@)) by {
                assert forall|a: int, b: int| 0 <= a < b < p.approvals@.len() implies #[trigger] p.approvals@[a]@
                    != #[trigger] p.approvals@[b]@ by {
                    if b < q.approvals@.len() {
                        assert(p.approvals@[a] == q.approvals@[a]);
                        assert(p.approvals@[b] == q.approvals@[b]);
                    } else {
                        assert(p.approvals@[a] == q.approvals@[a]);
                    }
                }
            }
            assert forall|k: int| 0 <= k < p.approvals@.len() implies contains_identity(
                old_m.signers,
                (#[trigger] p.approvals@[k])@,
            ) by {
                if k < q.approvals@.len() {
                    assert(p.approvals@[k] == q.approvals@[k]);
                }
            }
            lemma_approvals_bounded(p.approvals@, old_m.signers);
            assert(p.wf(old_m.signers, old_m.threshold, old_m.next_id));
            assert forall|a: int, b: int| 0 <= a < b < ps.len() implies #[trigger] ps[a].id
                != #[trigger] ps[b].id by {
                assert(old_m.proposals[a].id != old_m.proposals[b].id);
            }
            assert forall|a: int| 0 <= a < ps.len() implies (#[trigger] ps[a]).wf(
                self@.signers,
                self@.threshold,
                self@.next_id,
            ) by {
                if a != i as int {
                    assert(ps[a] == old_m.proposals[a]);
                    assert(old_m.proposals[a].wf(old_m.signers, old_m.threshold, old_m.next_id));
                }
            }
        }
        Ok(started)
    }

    /// Withdraws proposal `id`; only its proposer or the admin may do so.
    pub fn cancel_upgrade(&mut self, id: u64, caller: &Address, admin: &Address) -> (r: Result<
        (),
        GovernanceError,
    >)
        requires
            old(self)@.wf(),
        ensures
            final(self)@.wf(),
            ({
                let m = old(self)@;
                let expected = if !has_proposal(m.proposals, id) {
                    Err(GovernanceError::ProposalNotFound)
                } else if caller@ != admin@ && caller@ != proposal_of(m.proposals, id).proposer@ {
                    Err(GovernanceError::Unauthorized)
                } else {
                    Ok(())
                };
                &&& r == expected
                &&& r is Err ==> final(self)@ == m
                &&& r is Ok ==> final(self)@ == (GovernanceModel {
                    proposals: m.proposals.remove(proposal_index(m.proposals, id)),
                    ..m
                })
            }),
    {
        let i = match self.find_proposal(id) {
            Some(i) => i,
            None => {
                return Err(GovernanceError::ProposalNotFound);
            },
        };
        if !caller.same_as(admin) && !caller.same_as(&self.proposals[i].proposer) {
            return Err(GovernanceError::Unauthorized);
        }
        self.remove_proposal(i);
        Ok(())
    }

    fn remove_proposal(&mut self, i: usize)
        requires
            old(self)@.wf(),
            i < old(self)@.proposals.len(),
        ensures
            final(self)@.wf(),
            final(self)@ == (GovernanceModel {
                proposals: old(self)@.proposals.remove(i as int),
                ..old(self)@
            }),
    {
        let ghost old_m = self@;
        self.proposals.remove(i);
        proof {
            let ps = self@.proposals;
            assert forall|a: int, b: int| 0 <= a < b < ps.len() implies #[trigger] ps[a].id
                != #[trigger] ps[b].id by {
                let a0 = if a < i { a } else { a + 1 };
                let b0 = if b < i { b } else { b + 1 };
                assert(ps[a] == old_m.proposals[a0]);
                assert(ps[b] == old_m.proposals[b0]);
                assert(old_m.proposals[a0].id != old_m.proposals[b0].id);
            }
            assert forall|a: int| 0 <= a < ps.len() implies (#[trigger] ps[a]).wf(
                self@.signers,
                self@.threshold,
                self@.next_id,
            ) by {
                let a0 = if a < i { a } else { a + 1 };
                assert(ps[a] == old_m.proposals[a0]);
                assert(old_m.proposals[a0].wf(old_m.signers, old_m.threshold, old_m.next_id));
            }
        }
    }

    /// Executes proposal `id` once its timelock has elapsed at `now`,
    /// closing it; returns the hash to upgrade to.
    pub fn execute_upgrade(&mut self, id: u64, now: u64) -> (r: Result<[u8; 32], GovernanceError>)
        requires
            old(self)@.wf(),
        ensures
            final(self)@.wf(),
            ({
                let m = old(self)@;
                let q = proposal_of(m.proposals, id);
                let expected = if !has_proposal(m.proposals, id) {
                    Err(GovernanceError::ProposalNotFound)
                } else if q.timelock is None {
                    Err(GovernanceError::ThresholdNotMet)
                } else if now < q.timelock->0.executable_at {
                    Err(GovernanceError::TimelockNotElapsed)
                } else {
                    Ok(())
                };
                &&& r is Err <==> expected is Err
                &&& r matches Err(e) ==> expected == Err::<(), GovernanceError>(e)
                &&& r is Err ==> final(self)@ == m
                &&& r matches Ok(h) ==> {
                    &&& h == q.wasm_hash
                    &&& q.approvals@.len() >= m.threshold
                    &&& final(self)@ == (GovernanceModel {
                        proposals: m.proposals.remove(proposal_index(m.proposals, id)),
                        ..m
                    })
                }
            }),
    {
        let i = match self.find_proposal(id) {
            Some(i) => i,
            None => {
                return Err(GovernanceError::ProposalNotFound);
            },
        };
        let hash = self.proposals[i].wasm_hash;
        match self.proposals[i].timelock {
            None => {
                return Err(GovernanceError::ThresholdNotMet);
            },
            Some(t) => {
                if now < t.executable_at {
                    return Err(GovernanceError::TimelockNotElapsed);
                }
            },
        }
        proof {
            assert(self@.proposals[i as int].wf(self@.signers, self@.threshold, self@.next_id));
        }
        self.remove_proposal(i);
        Ok(hash)
    }
}

/// A multisig-governed contract: the first signer becomes the admin, the
/// version is set as by `init_admin`, and the governance is returned.
/// Refused on an initialised contract or an invalid configuration.
pub fn init_with_governance(core: &mut GrainlifyCore, signers: Vec<Address>, threshold: u32) -> (r:
    Result<Governance, GovernanceError>)
    ensures
        r is Err ==> final(core)@ == old(core)@,
        old(core)@.admin is Some ==> r == Err::<Governance, GovernanceError>(
            GovernanceError::AlreadyInitialized,
        ),
        old(core)@.admin is None ==> (r is Err <==> (threshold == 0 || threshold > signers.len()
            || !distinct(signers@))),
        old(core)@.admin is None && r is Err ==> r == Err::<Governance, GovernanceError>(
            if threshold == 0 || threshold > signers.len() {
                GovernanceError::InvalidThreshold
            } else {
                GovernanceError::DuplicateSigner
            },
        ),
        r matches Ok(g) ==> {
            &&& g@.wf()
            &&& g@ == (GovernanceModel {
                signers: signers@,
                threshold,
                proposals: Seq::empty(),
                next_id: 1,
                timelock_delay: DEFAULT_TIMELOCK_DELAY,
            })
            &&& final(core)@ == (CoreModel {
                admin: Some(signers@[0]),
                version: VERSION,
                ..old(core)@
            })
        },
{
    if core.get_admin().is_some() {
        return Err(GovernanceError::AlreadyInitialized);
    }
    let first = if signers.len() > 0 {
        signers[0].clone()
    } else {
        return Err(GovernanceError::InvalidThreshold);
    };
    let g = Governance::new(signers, threshold)?;
    match core.init_admin(first) {
        Ok(()) => Ok(g),
        Err(_) => Err(GovernanceError::AlreadyInitialized),
    }
}

/// Every proposal holds at most as many approvals as there are signers.
pub proof fn lemma_approvals_at_most_signers(m: GovernanceModel, i: int)
    requires
        m.wf(),
        0 <= i < m.proposals.len(),
    ensures
        m.proposals[i].approvals@.len() <= m.signers.len(),
{
    assert(m.proposals[i].wf(m.signers, m.threshold, m.next_id));
    lemma_approvals_bounded(m.proposals[i].approvals@, m.signers);
}

} // verus!
