use vstd::prelude::*;

use crate::address::Address;

verus! {

/// The version a freshly initialised contract reports.
pub const VERSION: u32 = 2;

/// A migration step from `from` to `from + 1` exists for these versions.
pub open spec fn step_supported(from: u32) -> bool {
    from == 1 || from == 2
}

/// Every single-version step between `from` and `to` has a migration.
pub open spec fn path_available(from: u32, to: u32) -> bool {
    forall|v: u32| from <= v < to ==> #[trigger] step_supported(v)
}

/// Why a versioning operation was refused.
#[derive(Debug, Clone, Copy, PartialEq, Eq, Structural)]
pub enum MigrationError {
    /// The contract already has an admin.
    AlreadyInitialized,
    /// The contract has no admin yet.
    NotInitialized,
    /// The target version is not above the current version.
    TargetVersionNotGreater,
    /// No migration is registered for one of the steps to the target.
    NoMigrationPath,
    /// No commitment was made for the target version.
    CommitmentNotFound,
    /// The commitment for the target version has expired.
    CommitmentExpired,
    /// The presented hash differs from the committed one.
    HashMismatch,
}

/// An admin's advance commitment to the hash of a migration.
#[derive(Debug, Clone, Copy, PartialEq, Eq)]
pub struct MigrationCommitment {
    pub target_version: u32,
    pub hash: [u8; 32],
    pub committed_at: u64,
    /// The last instant at which the commitment may be used; `0` means never expires.
    pub expires_at: u64,
}

/// The record of the last completed migration.
#[derive(Debug, Clone, Copy, PartialEq, Eq)]
pub struct MigrationState {
    pub from_version: u32,
    pub to_version: u32,
    pub migrated_at: u64,
    pub migration_hash: [u8; 32],
}

/// Emitted when a migration completes.
#[derive(Debug, Clone, Copy, PartialEq, Eq)]
pub struct MigrationEvent {
    pub from_version: u32,
    pub to_version: u32,
    pub timestamp: u64,
    pub migration_hash: [u8; 32],
    pub success: bool,
}

/// Emitted when a migration commitment is stored.
#[derive(Debug)]
pub struct MigrationCommittedEvent {
    pub admin: Address,
    pub target_version: u32,
    pub hash: [u8; 32],
    pub committed_at: u64,
    pub expires_at: u64,
}

/// Emitted when a migration commitment is withdrawn.
#[derive(Debug)]
pub struct MigrationRevokedEvent {
    pub admin: Address,
    pub target_version: u32,
    /// Whether a commitment for the target version existed.
    pub existed: bool,
}

/// The abstract state of the versioning part of the core contract.
#[verifier::ext_equal]
pub struct CoreModel {
    pub admin: Option<Address>,
    pub version: u32,
    pub commitments: Map<u32, MigrationCommitment>,
    pub migration_state: Option<MigrationState>,
}

/// The expiry instant of a commitment made at `now` for `expiry_seconds`.
pub open spec fn expiry_of(now: u64, expiry_seconds: u64) -> u64 {
    if expiry_seconds == 0 {
        0
    } else {
        (now + expiry_seconds) as u64
    }
}

/// Whether a commitment can no longer be used at instant `now`.
pub open spec fn is_expired(c: MigrationCommitment, now: u64) -> bool {
    c.expires_at != 0 && now > c.expires_at
}

/// What `init_admin` answers: refused once an admin exists.
pub open spec fn init_admin_outcome(m: CoreModel) -> Result<(), MigrationError> {
    if m.admin is Some {
        Err(MigrationError::AlreadyInitialized)
    } else {
        Ok(())
    }
}

/// The state after initialisation with `admin`.
pub open spec fn with_admin(m: CoreModel, admin: Address) -> CoreModel {
    CoreModel { admin: Some(admin), version: VERSION, ..m }
}

/// The commitment stored for `target` at `now`.
pub open spec fn commitment_made(
    target: u32,
    hash: [u8; 32],
    expiry_seconds: u64,
    now: u64,
) -> MigrationCommitment {
    MigrationCommitment {
        target_version: target,
        hash,
        committed_at: now,
        expires_at: expiry_of(now, expiry_seconds),
    }
}

/// The state after storing a commitment for `target`, replacing any
/// earlier one for it.
pub open spec fn committed(
    m: CoreModel,
    target: u32,
    hash: [u8; 32],
    expiry_seconds: u64,
    now: u64,
) -> CoreModel {
    CoreModel {
        commitments: m.commitments.insert(
            target,
            commitment_made(target, hash, expiry_seconds, now),
        ),
        ..m
    }
}

/// The state after withdrawing the commitment for `target`.
pub open spec fn revoked(m: CoreModel, target: u32) -> CoreModel {
    CoreModel { commitments: m.commitments.remove(target), ..m }
}

/// Whether a migration to `target` has already been completed last, making
/// a repeated request a no-op.
pub open spec fn already_migrated(m: CoreModel, target: u32) -> bool {
    match m.migration_state {
        Some(s) => s.to_version == target,
        None => false,
    }
}

/// What `migrate` answers: `Ok(None)` for a repeated request, the event of
/// the completed migration, or the first reason for refusal.
pub open spec fn migrate_outcome(m: CoreModel, target: u32, hash: [u8; 32], now: u64) -> Result<
    Option<MigrationEvent>,
    MigrationError,
> {
    if m.admin is None {
        Err(MigrationError::NotInitialized)
    } else if already_migrated(m, target) {
        Ok(None)
    } else if target <= m.version {
        Err(MigrationError::TargetVersionNotGreater)
    } else if !m.commitments.contains_key(target) {
        Err(MigrationError::CommitmentNotFound)
    } else if is_expired(m.commitments[target], now) {
        Err(MigrationError::CommitmentExpired)
    } else if m.commitments[target].hash != hash {
        Err(MigrationError::HashMismatch)
    } else if !path_available(m.version, target) {
        Err(MigrationError::NoMigrationPath)
    } else {
        Ok(
            Some(
                MigrationEvent {
                    from_version: m.version,
                    to_version: target,
                    timestamp: now,
                    migration_hash: hash,
                    success: true,
                },
            ),
        )
    }
}

/// The state after a completed migration to `target`: the version moves,
/// the commitment is consumed and the migration is recorded.
pub open spec fn migrated(m: CoreModel, target: u32, hash: [u8; 32], now: u64) -> CoreModel {
    CoreModel {
        admin: m.admin,
        version: target,
        commitments: m.commitments.remove(target),
        migration_state: Some(
            MigrationState {
                from_version: m.version,
                to_version: target,
                migrated_at: now,
                migration_hash: hash,
            },
        ),
    }
}

/// The commitments held by a list, by target version; a later entry for a
/// target replaces an earlier one.
pub open spec fn commitment_map(s: Seq<MigrationCommitment>) -> Map<u32, MigrationCommitment>
    decreases s.len(),
{
    if s.len() == 0 {
        Map::empty()
    } else {
        commitment_map(s.drop_last()).insert(s.last().target_version, s.last())
    }
}

/// The list without its entries for `target`.
pub open spec fn without_target(s: Seq<MigrationCommitment>, target: u32) -> Seq<
    MigrationCommitment,
>
    decreases s.len(),
{
    if s.len() == 0 {
        s
    } else if s.last().target_version == target {
        without_target(s.drop_last(), target)
    } else {
        without_target(s.drop_last(), target).push(s.last())
    }
}

proof fn lemma_without_target(s: Seq<MigrationCommitment>, target: u32)
    ensures
        commitment_map(without_target(s, target)) =~= commitment_map(s).remove(target),
    decreases s.len(),
{
    if s.len() > 0 {
        lemma_without_target(s.drop_last(), target);
        let r = without_target(s.drop_last(), target);
        if s.last().target_version != target {
            assert(r.push(s.last()).drop_last() =~= r);
        }
    }
}

proof fn lemma_map_take_next(s: Seq<MigrationCommitment>, i: int)
    requires
        0 <= i < s.len(),
    ensures
        commitment_map(s.take(i + 1)) == commitment_map(s.take(i)).insert(
            s[i].target_version,
            s[i],
        ),
        without_target(s.take(i + 1), s[i].target_version) == without_target(
            s.take(i),
            s[i].target_version,
        ),
        forall|t: u32|
            t != s[i].target_version ==> #[trigger] without_target(s.take(i + 1), t)
                == without_target(s.take(i), t).push(s[i]),
{
    assert(s.take(i + 1).drop_last() =~= s.take(i));
}

/// The list of commitments held, without the one for `target`.
fn remove_target(v: &Vec<MigrationCommitment>, target: u32) -> (r: Vec<MigrationCommitment>)
    ensures
        commitment_map(r@) == commitment_map(v@).remove(target),
{
    let mut out: Vec<MigrationCommitment> = Vec::new();
    let mut i: usize = 0;
    while i < v.len()
        invariant
            i <= v.len(),
            out@ == without_target(v@.take(i as int), target),
        decreases v.len() - i,
    {
        proof {
            lemma_map_take_next(v@, i as int);
        }
        if v[i].target_version != target {
            out.push(v[i]);
        }
        i = i + 1;
    }
    proof {
        assert(v@.take(v.len() as int) =~= v@);
        lemma_without_target(v@, target);
    }
    out
}

/// The commitment held for `target`, if any.
fn lookup_target(v: &Vec<MigrationCommitment>, target: u32) -> (r: Option<MigrationCommitment>)
    ensures
        r == (if commitment_map(v@).contains_key(target) {
            Some(commitment_map(v@)[target])
        } else {
            None
        }),
{
    let mut found: Option<MigrationCommitment> = None;
    let mut i: usize = 0;
    while i < v.len()
        invariant
            i <= v.len(),
            found == (if commitment_map(v@.take(i as int)).contains_key(target) {
                Some(commitment_map(v@.take(i as int))[target])
            } else {
                None
            }),
        decreases v.len() - i,
    {
        proof {
            lemma_map_take_next(v@, i as int);
        }
        if v[i].target_version == target {
            found = Some(v[i]);
        }
        i = i + 1;
    }
    assert(v@.take(v.len() as int) =~= v@);
    found
}

/// The versioning state of the core contract.
pub struct GrainlifyCore {
    admin: Option<Address>,
    version: u32,
    commitments: Vec<MigrationCommitment>,
    migration_state: Option<MigrationState>,
}

impl View for GrainlifyCore {
    type V = CoreModel;

    closed spec fn view(&self) -> CoreModel {
        CoreModel {
            admin: self.admin,
            version: self.version,
            commitments: commitment_map(self.commitments@),
            migration_state: self.migration_state,
        }
    }
}

/// Whether two hashes hold the same bytes.
pub fn hashes_equal(a: &[u8; 32], b: &[u8; 32]) -> (r: bool)
    ensures
        r == (*a == *b),
{
    let mut i: usize = 0;
    while i < 32
        invariant
            i <= 32,
            forall|j: int| 0 <= j < i ==> a[j] == b[j],
        decreases 32 - i,
    {
        if a[i] != b[i] {
            assert(!(*a =~= *b));
            return false;
        }
        i = i + 1;
    }
    assert(*a =~= *b);
    true
}

/// Whether a migration exists for every step from `from` up to `to`.
pub fn has_migration_path(from: u32, to: u32) -> (r: bool)
    ensures
        r == path_available(from, to),
{
    let mut v: u32 = from;
    while v < to
        invariant
            from <= v,
            v <= to || from >= to,
            forall|w: u32| from <= w < v ==> #[trigger] step_supported(w),
        decreases to - v,
    {
        if !(v == 1 || v == 2) {
            assert(!step_supported(v));
            return false;
        }
        v = v + 1;
    }
    true
}

impl GrainlifyCore {
    /// A contract that has not been initialised.
    pub fn new() -> (r: GrainlifyCore)
        ensures
            r@ == (CoreModel {
                admin: None,
                version: 0,
                commitments: Map::empty(),
                migration_state: None,
            }),
    {
        GrainlifyCore {
            admin: None,
            version: 0,
            commitments: Vec::new(),
            migration_state: None,
        }
    }

    /// Sets the admin and the initial version; refused once an admin exists.
    pub fn init_admin(&mut self, admin: Address) -> (r: Result<(), MigrationError>)
        ensures
            r == init_admin_outcome(old(self)@),
            r is Ok ==> final(self)@ == with_admin(old(self)@, admin),
            r is Err ==> final(self)@ == old(self)@,
    {
        if self.admin.is_some() {
            return Err(MigrationError::AlreadyInitialized);
        }
        self.admin = Some(admin);
        self.version = VERSION;
        Ok(())
    }

    /// Rebuilds a state from its stored parts; of several commitments for
    /// one target the last one counts.
    pub fn from_parts(
        admin: Option<Address>,
        version: u32,
        commitments: Vec<MigrationCommitment>,
        migration_state: Option<MigrationState>,
    ) -> (r: GrainlifyCore)
        ensures
            r@ == (CoreModel {
                admin,
                version,
                commitments: commitment_map(commitments@),
                migration_state,
            }),
    {
        GrainlifyCore { admin, version, commitments, migration_state }
    }

    /// The stored parts of the state: admin, version, the commitments as a
    /// list, and the last migration.
    pub fn into_parts(self) -> (r: (
        Option<Address>,
        u32,
        Vec<MigrationCommitment>,
        Option<MigrationState>,
    ))
        ensures
            r.0 == self@.admin,
            r.1 == self@.version,
            commitment_map(r.2@) == self@.commitments,
            r.3 == self@.migration_state,
    {
        (self.admin, self.version, self.commitments, self.migration_state)
    }

    pub fn get_admin(&self) -> (r: Option<Address>)
        ensures
            r == self@.admin,
    {
        match &self.admin {
            Some(a) => Some(a.clone()),
            None => None,
        }
    }

    pub fn get_version(&self) -> (r: u32)
        ensures
            r == self@.version,
    {
        self.version
    }

    /// Overwrites the version (an admin action); refused before initialisation.
    pub fn set_version(&mut self, version: u32) -> (r: Result<(), MigrationError>)
        ensures
            r is Err <==> old(self)@.admin is None,
            r is Err ==> r == Err::<(), MigrationError>(MigrationError::NotInitialized),
            r is Ok ==> final(self)@ == (CoreModel { version, ..old(self)@ }),
            r is Err ==> final(self)@ == old(self)@,
    {
        if self.admin.is_none() {
            return Err(MigrationError::NotInitialized);
        }
        self.version = version;
        Ok(())
    }

    pub fn get_migration_state(&self) -> (r: Option<MigrationState>)
        ensures
            r == self@.migration_state,
    {
        self.migration_state
    }

    pub fn get_migration_commitment(&self, target: u32) -> (r: Option<MigrationCommitment>)
        ensures
            r == (if self@.commitments.contains_key(target) {
                Some(self@.commitments[target])
            } else {
                None
            }),
    {
        lookup_target(&self.commitments, target)
    }

    /// Stores (or replaces) the admin's commitment to the hash of the
    /// migration to `target`, valid for `expiry_seconds` from `now`
    /// (`0`: without expiry).
    pub fn commit_migration(
        &mut self,
        target: u32,
        hash: [u8; 32],
        expiry_seconds: u64,
        now: u64,
    ) -> (r: Result<MigrationCommittedEvent, MigrationError>)
        requires
            now + expiry_seconds <= u64::MAX,
        ensures
            r is Err <==> old(self)@.admin is None,
            r is Err ==> r == Err::<MigrationCommittedEvent, MigrationError>(
                MigrationError::NotInitialized,
            ),
            r is Err ==> final(self)@ == old(self)@,
            r matches Ok(e) ==> {
                &&& final(self)@ == committed(old(self)@, target, hash, expiry_seconds, now)
                &&& Some(e.admin) == old(self)@.admin
                &&& e.target_version == target
                &&& e.hash == hash
                &&& e.committed_at == now
                &&& e.expires_at == expiry_of(now, expiry_seconds)
            },
    {
        let admin = match &self.admin {
            Some(a) => a.clone(),
            None => {
                return Err(MigrationError::NotInitialized);
            },
        };
        let expires_at: u64 = if expiry_seconds == 0 {
            0
        } else {
            now + expiry_seconds
        };
        let c = MigrationCommitment { target_version: target, hash, committed_at: now, expires_at };
        let mut rest = remove_target(&self.commitments, target);
        let ghost before = rest@;
        rest.push(c);
        proof {
            assert(rest@.drop_last() =~= before);
            assert(commitment_map(rest@) =~= commitment_map(self.commitments@).insert(target, c));
        }
        self.commitments = rest;
        Ok(MigrationCommittedEvent { admin, target_version: target, hash, committed_at: now, expires_at })
    }

    /// Withdraws the commitment for `target`, if there is one.
    pub fn revoke_migration_commitment(&mut self, target: u32) -> (r: Result<
        MigrationRevokedEvent,
        MigrationError,
    >)
        ensures
            r is Err <==> old(self)@.admin is None,
            r is Err ==> r == Err::<MigrationRevokedEvent, MigrationError>(
                MigrationError::NotInitialized,
            ),
            r is Err ==> final(self)@ == old(self)@,
            r matches Ok(e) ==> {
                &&& final(self)@ == revoked(old(self)@, target)
                &&& Some(e.admin) == old(self)@.admin
                &&& e.target_version == target
                &&& e.existed == old(self)@.commitments.contains_key(target)
            },
    {
        let admin = match &self.admin {
            Some(a) => a.clone(),
            None => {
                return Err(MigrationError::NotInitialized);
            },
        };
        let existed = lookup_target(&self.commitments, target).is_some();
        self.commitments = remove_target(&self.commitments, target);
        Ok(MigrationRevokedEvent { admin, target_version: target, existed })
    }

    /// Moves the contract to `target`, consuming the commitment to `hash`.
    /// A request for the version that the last migration reached is
    /// answered `Ok(None)` and changes nothing.
    pub fn migrate(&mut self, target: u32, hash: [u8; 32], now: u64) -> (r: Result<
        Option<MigrationEvent>,
        MigrationError,
    >)
        ensures
            r == migrate_outcome(old(self)@, target, hash, now),
            r matches Ok(Some(_)) ==> final(self)@ == migrated(old(self)@, target, hash, now),
            !(r matches Ok(Some(_))) ==> final(self)@ == old(self)@,
    {
        if self.admin.is_none() {
            return Err(MigrationError::NotInitialized);
        }
        if let Some(s) = &self.migration_state {
            if s.to_version == target {
                return Ok(None);
            }
        }
        if target <= self.version {
            return Err(MigrationError::TargetVersionNotGreater);
        }
        let c = match lookup_target(&self.commitments, target) {
            Some(c) => c,
            None => {
                return Err(MigrationError::CommitmentNotFound);
            },
        };
        if c.expires_at != 0 && now > c.expires_at {
            return Err(MigrationError::CommitmentExpired);
        }
        if !hashes_equal(&c.hash, &hash) {
            return Err(MigrationError::HashMismatch);
        }
        if !has_migration_path(self.version, target) {
            return Err(MigrationError::NoMigrationPath);
        }
        let from = self.version;
        self.commitments = remove_target(&self.commitments, target);
        self.version = target;
        self.migration_state = Some(
            MigrationState { from_version: from, to_version: target, migrated_at: now, migration_hash: hash },
        );
        Ok(
            Some(
                MigrationEvent {
                    from_version: from,
                    to_version: target,
                    timestamp: now,
                    migration_hash: hash,
                    success: true,
                },
            ),
        )
    }
}

/// Migration paths: going up from `from` is possible exactly when `from`
/// is at least 1 and the target is at most 3 (steps 1→2 and 2→3 exist).
pub proof fn lemma_path_available_iff(from: u32, to: u32)
    requires
        from < to,
    ensures
        path_available(from, to) <==> (1 <= from && to <= 3),
{
    if !(1 <= from && to <= 3) {
        if from < 1 {
            assert(!step_supported(from));
        } else {
            assert(!step_supported((to - 1) as u32));
        }
    }
}

/// A second initialisation is always refused.
pub proof fn lemma_init_admin_once(m: CoreModel, admin: Address)
    ensures
        init_admin_outcome(with_admin(m, admin)) == Err::<(), MigrationError>(
            MigrationError::AlreadyInitialized,
        ),
{
}

/// Committing to a hash and presenting the same hash before the commitment
/// expires completes the migration: the version becomes the target, the
/// migration is recorded from the previous version, the commitment is
/// consumed and the admin is kept.
pub proof fn lemma_commit_then_migrate(
    m: CoreModel,
    target: u32,
    hash: [u8; 32],
    expiry_seconds: u64,
    committed_at: u64,
    now: u64,
)
    requires
        m.admin is Some,
        !already_migrated(m, target),
        m.version < target,
        path_available(m.version, target),
        committed_at + expiry_seconds <= u64::MAX,
        expiry_seconds == 0 || now <= committed_at + expiry_seconds,
    ensures
        ({
            let c = committed(m, target, hash, expiry_seconds, committed_at);
            let after = migrated(c, target, hash, now);
            &&& migrate_outcome(c, target, hash, now) == Ok::<
                Option<MigrationEvent>,
                MigrationError,
            >(
                Some(
                    MigrationEvent {
                        from_version: m.version,
                        to_version: target,
                        timestamp: now,
                        migration_hash: hash,
                        success: true,
                    },
                ),
            )
            &&& after.version == target
            &&& after.admin == m.admin
            &&& !after.commitments.contains_key(target)
            &&& after.migration_state == Some(
                MigrationState {
                    from_version: m.version,
                    to_version: target,
                    migrated_at: now,
                    migration_hash: hash,
                },
            )
        }),
{
    let c = committed(m, target, hash, expiry_seconds, committed_at);
    assert(c.commitments.contains_key(target));
    assert(c.commitments[target] == commitment_made(target, hash, expiry_seconds, committed_at));
}

/// Every completed migration was authorised by a live commitment to the
/// very hash that was presented, and it strictly raises the version.
pub proof fn lemma_migration_needs_commitment(
    m: CoreModel,
    target: u32,
    hash: [u8; 32],
    now: u64,
)
    requires
        migrate_outcome(m, target, hash, now) is Ok,
        !already_migrated(m, target),
    ensures
        m.commitments.contains_key(target),
        m.commitments[target].hash == hash,
        !is_expired(m.commitments[target], now),
        m.version < target,
        migrated(m, target, hash, now).version > m.version,
{
}

/// A completed migration cannot be replayed: its commitment is gone and a
/// repeated request for the same target, with any hash, changes nothing.
pub proof fn lemma_migration_not_replayable(
    m: CoreModel,
    target: u32,
    hash: [u8; 32],
    now: u64,
    other_hash: [u8; 32],
    later: u64,
)
    requires
        migrate_outcome(m, target, hash, now) matches Ok(Some(_)),
    ensures
        !migrated(m, target, hash, now).commitments.contains_key(target),
        migrate_outcome(migrated(m, target, hash, now), target, other_hash, later) == Ok::<
            Option<MigrationEvent>,
            MigrationError,
        >(None),
{
}

/// Without a live commitment a pending migration is refused; in particular
/// after a revocation.
pub proof fn lemma_revoke_then_migrate_refused(
    m: CoreModel,
    target: u32,
    hash: [u8; 32],
    now: u64,
)
    requires
        m.admin is Some,
        !already_migrated(m, target),
        m.version < target,
    ensures
        migrate_outcome(revoked(m, target), target, hash, now) == Err::<
            Option<MigrationEvent>,
            MigrationError,
        >(MigrationError::CommitmentNotFound),
{
}

/// Presenting a hash other than the committed one is refused.
pub proof fn lemma_wrong_hash_refused(
    m: CoreModel,
    target: u32,
    committed_hash: [u8; 32],
    expiry_seconds: u64,
    committed_at: u64,
    hash: [u8; 32],
    now: u64,
)
    requires
        m.admin is Some,
        !already_migrated(m, target),
        m.version < target,
        committed_at + expiry_seconds <= u64::MAX,
        expiry_seconds == 0 || now <= committed_at + expiry_seconds,
        hash != committed_hash,
    ensures
        migrate_outcome(
            committed(m, target, committed_hash, expiry_seconds, committed_at),
            target,
            hash,
            now,
        ) == Err::<Option<MigrationEvent>, MigrationError>(MigrationError::HashMismatch),
{
    let c = committed(m, target, committed_hash, expiry_seconds, committed_at);
    assert(c.commitments[target] == commitment_made(
        target,
        committed_hash,
        expiry_seconds,
        committed_at,
    ));
}

/// A commitment made without expiry never expires; one made with an expiry
/// is usable up to and including `committed_at + expiry_seconds` and
/// expired afterwards.
pub proof fn lemma_commitment_expiry(
    target: u32,
    hash: [u8; 32],
    expiry_seconds: u64,
    committed_at: u64,
    now: u64,
)
    requires
        committed_at + expiry_seconds <= u64::MAX,
    ensures
        expiry_seconds == 0 ==> !is_expired(
            commitment_made(target, hash, expiry_seconds, committed_at),
            now,
        ),
        expiry_seconds > 0 ==> (is_expired(
            commitment_made(target, hash, expiry_seconds, committed_at),
            now,
        ) <==> now > committed_at + expiry_seconds),
{
}

/// Commitments for different target versions are independent: storing or
/// withdrawing one leaves the others, the version, the admin and the
/// migration record as they were.
pub proof fn lemma_commitments_independent(
    m: CoreModel,
    target: u32,
    other: u32,
    hash: [u8; 32],
    expiry_seconds: u64,
    now: u64,
)
    requires
        target != other,
    ensures
        committed(m, target, hash, expiry_seconds, now).commitments.contains_key(other)
            == m.commitments.contains_key(other),
        committed(m, target, hash, expiry_seconds, now).commitments[other]
            == m.commitments[other],
        revoked(m, target).commitments.contains_key(other) == m.commitments.contains_key(other),
        revoked(m, target).commitments[other] == m.commitments[other],
        committed(m, target, hash, expiry_seconds, now).version == m.version,
        committed(m, target, hash, expiry_seconds, now).admin == m.admin,
        committed(m, target, hash, expiry_seconds, now).migration_state == m.migration_state,
        revoked(m, target).version == m.version,
        revoked(m, target).admin == m.admin,
        revoked(m, target).migration_state == m.migration_state,
{
}

/// Versions never go down or stay put through `migrate`: a target not
/// above the current version is refused, unless it repeats the last
/// migration, which changes nothing.
pub proof fn lemma_no_downgrade(m: CoreModel, target: u32, hash: [u8; 32], now: u64)
    requires
        m.admin is Some,
        target <= m.version,
    ensures
        already_migrated(m, target) ==> migrate_outcome(m, target, hash, now) == Ok::<
            Option<MigrationEvent>,
            MigrationError,
        >(None),
        !already_migrated(m, target) ==> migrate_outcome(m, target, hash, now) == Err::<
            Option<MigrationEvent>,
            MigrationError,
        >(MigrationError::TargetVersionNotGreater),
{
}

/// A migration completes only along existing single-version steps, which
/// are 1→2 and 2→3: it starts at version 1 or higher and ends above its
/// start at version 3 at the latest.
pub proof fn lemma_migration_uses_existing_steps(
    m: CoreModel,
    target: u32,
    hash: [u8; 32],
    now: u64,
)
    requires
        migrate_outcome(m, target, hash, now) matches Ok(Some(_)),
    ensures
        1 <= m.version < target <= 3,
{
    lemma_path_available_iff(m.version, target);
}

} // verus!
