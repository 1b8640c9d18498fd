use vstd::prelude::*;
use crate::bytes::{bytes_eq, clone_bytes, clone_opt_bytes};
use crate::email::{canonical_email, canonical_email_spec, email_hash_spec, hash_email, trim_str, trimmed_of};
use crate::errors::GuardianError;
use crate::lookup::{find_key, has_key, index_of_key, keyed_matches, lemma_first_match_exists, lemma_keyed_match_is_index};
use vstd::string::StrSliceExecFns;

verus! {

/// The smallest recovery quorum that may be registered.
pub const MIN_GUARDIANS: usize = 3;

/// The largest recovery quorum that may be registered.
pub const MAX_GUARDIANS: usize = 5;

/// The largest share payload accepted for encryption.
pub const MAX_SHARE_BYTES: usize = 4096;

/// Lifecycle of one guardian; `ShareSubmitted` is terminal.
#[derive(Debug, Clone, Copy, PartialEq, Eq, Structural)]
pub enum GuardianStatus {
    Invited,
    Accepted,
    ShareSubmitted,
}

/// One guardian of a vault's recovery quorum.
pub struct GuardianEntry {
    pub email_hash: Vec<u8>,
    pub alias: String,
    pub status: GuardianStatus,
    pub principal_id: Option<Vec<u8>>,
    pub encrypted_share: Option<Vec<u8>>,
    pub submitted_at: Option<u64>,
    pub updated_at: u64,
}

/// The externally visible projection of a guardian entry.
pub struct GuardianRecord {
    pub email_hash: Vec<u8>,
    pub alias: String,
    pub status: GuardianStatus,
    pub principal_id: Option<Vec<u8>>,
}

/// One invitation: a guardian's email and display alias.
pub struct GuardianRegistration {
    pub email: String,
    pub alias: String,
}

/// A request to create a vault's guardian set.
pub struct RegisterGuardiansArgs {
    pub vault_id: u64,
    pub owner: Vec<u8>,
    pub threshold: u64,
    pub key_id: String,
    pub invites: Vec<GuardianRegistration>,
}

/// A request addressing one guardian of one vault by email hash.
pub struct AcceptGuardianArgs {
    pub vault_id: u64,
    pub email_hash: Vec<u8>,
}

/// A request to record a guardian's encrypted share.
pub struct SubmitShareArgs {
    pub vault_id: u64,
    pub email_hash: Vec<u8>,
    pub share_payload: Vec<u8>,
}

/// How many shares a vault has collected, and whether they meet the
/// threshold.
pub struct GuardianSubmissionResult {
    pub submitted: u64,
    pub threshold_met: bool,
}

/// The receipt returned after a share is committed.
pub struct ShareSubmissionReceipt {
    pub vault_id: u64,
    pub submitted_at: u64,
    pub remaining_required: i64,
}

/// The guardian quorum of one vault.
pub struct VaultGuardianSet {
    pub owner: Vec<u8>,
    pub threshold: u64,
    pub key_id: String,
    pub guardians: Vec<GuardianEntry>,
    pub created_at: u64,
    pub updated_at: u64,
}

/// A consistent read of one guardian, taken before the encryption protocol
/// runs.
pub struct GuardianSnapshot {
    pub vault_id: u64,
    pub guardian_index: usize,
    pub guardian: GuardianEntry,
}

/// The whole registry: one guardian set per vault, and an optional delegate
/// that alone may register new vaults.
pub struct GuardianManagerState {
    pub vaults: Vec<(u64, VaultGuardianSet)>,
    pub vault_manager: Option<Vec<u8>>,
}

/// The byte view of an optional byte vector.
pub open spec fn opt_bytes(o: Option<Vec<u8>>) -> Option<Seq<u8>> {
    match o {
        Some(v) => Some(v@),
        None => None,
    }
}

/// Guardian `i` is the first entry carrying `hash`.
pub open spec fn guardian_matches(gs: Seq<GuardianEntry>, hash: Seq<u8>, i: int) -> bool {
    &&& 0 <= i < gs.len()
    &&& gs[i].email_hash@ == hash
    &&& forall|j: int| 0 <= j < i ==> (#[trigger] gs[j].email_hash@) != hash
}

/// Some guardian carries `hash`.
pub open spec fn has_guardian(gs: Seq<GuardianEntry>, hash: Seq<u8>) -> bool {
    exists|i: int| #[trigger] guardian_matches(gs, hash, i)
}

/// The index of the first guardian carrying `hash`; meaningful only when
/// `has_guardian` holds.
pub open spec fn guardian_index_of(gs: Seq<GuardianEntry>, hash: Seq<u8>) -> int {
    choose|i: int| guardian_matches(gs, hash, i)
}

proof fn lemma_guardian_match_is_index(gs: Seq<GuardianEntry>, hash: Seq<u8>, i: int)
    requires
        guardian_matches(gs, hash, i),
    ensures
        has_guardian(gs, hash),
        guardian_index_of(gs, hash) == i,
{
    assert(has_guardian(gs, hash));
    let j = guardian_index_of(gs, hash);
    if i < j {
        assert(gs[i].email_hash@ != hash);
    } else if j < i {
        assert(gs[j].email_hash@ != hash);
    }
}

/// Finds the first guardian carrying `hash`.
fn find_guardian(guardians: &Vec<GuardianEntry>, hash: &Vec<u8>) -> (r: Option<usize>)
    ensures
        match r {
            Some(i) => guardian_matches(guardians@, hash@, i as int) && guardian_index_of(
                guardians@,
                hash@,
            ) == i as int && has_guardian(guardians@, hash@),
            None => !has_guardian(guardians@, hash@),
        },
{
    let mut i: usize = 0;
    while i < guardians.len()
        invariant
            i <= guardians@.len(),
            forall|j: int| 0 <= j < i ==> (#[trigger] guardians@[j].email_hash@) != hash@,
        decreases guardians@.len() - i,
    {
        if bytes_eq(&guardians[i].email_hash, hash) {
            proof {
                lemma_guardian_match_is_index(guardians@, hash@, i as int);
            }
            return Some(i);
        }
        i = i + 1;
    }
    proof {
        if has_guardian(guardians@, hash@) {
            let w = choose|k: int| guardian_matches(guardians@, hash@, k);
            assert(guardians@[w].email_hash@ == hash@);
        }
    }
    None
}

/// Two guardian entries agree on every field, compared by value.
pub open spec fn entry_like(a: GuardianEntry, b: GuardianEntry) -> bool {
    &&& a.email_hash@ == b.email_hash@
    &&& a.alias@ == b.alias@
    &&& a.status == b.status
    &&& opt_bytes(a.principal_id) == opt_bytes(b.principal_id)
    &&& opt_bytes(a.encrypted_share) == opt_bytes(b.encrypted_share)
    &&& a.submitted_at == b.submitted_at
    &&& a.updated_at == b.updated_at
}

/// The record mirrors the entry's public fields.
pub open spec fn is_record_of(g: GuardianEntry, r: GuardianRecord) -> bool {
    &&& r.email_hash@ == g.email_hash@
    &&& r.alias@ == g.alias@
    &&& r.status == g.status
    &&& opt_bytes(r.principal_id) == opt_bytes(g.principal_id)
}

/// Projects a guardian entry to its externally visible record.
pub fn guardian_record(entry: &GuardianEntry) -> (r: GuardianRecord)
    ensures
        is_record_of(*entry, r),
{
    GuardianRecord {
        email_hash: clone_bytes(&entry.email_hash),
        alias: entry.alias.clone(),
        status: entry.status,
        principal_id: clone_opt_bytes(&entry.principal_id),
    }
}

/// A fresh guardian entry created from an invitation at `now`.
pub open spec fn invited_entry_of(g: GuardianEntry, invite: GuardianRegistration, now: u64) -> bool {
    &&& g.email_hash@ == email_hash_spec(invite.email@)
    &&& g.alias@ == trimmed_of(invite.alias@)
    &&& g.status == GuardianStatus::Invited
    &&& g.principal_id is None
    &&& g.encrypted_share is None
    &&& g.submitted_at is None
    &&& g.updated_at == now
}

/// An invitation list is valid: three to five guardians, a threshold between
/// two and the guardian count, no empty canonical email or alias, and no two
/// invitations whose emails collide after case and whitespace normalization.
pub open spec fn invites_valid(invites: Seq<GuardianRegistration>, threshold: u64) -> bool {
    &&& MIN_GUARDIANS <= invites.len() <= MAX_GUARDIANS
    &&& 2 <= threshold
    &&& threshold as int <= invites.len() as int
    &&& forall|i: int|
        0 <= i < invites.len() ==> canonical_email_spec(
            (#[trigger] invites[i]).email@,
        ).len() > 0
    &&& forall|i: int|
        0 <= i < invites.len() ==> trimmed_of((#[trigger] invites[i]).alias@).len() > 0
    &&& forall|i: int, j: int|
        0 <= i < j < invites.len() ==> canonical_email_spec(invites[i].email@)
            != canonical_email_spec(invites[j].email@)
}

/// Checks an invitation list's shape: guardian count, threshold range,
/// non-empty canonical emails and aliases, and email uniqueness after
/// normalization.
pub fn validate_invites(invites: &Vec<GuardianRegistration>, threshold: u64) -> (r: Result<
    (),
    GuardianError,
>)
    ensures
        r is Ok <==> invites_valid(invites@, threshold),
        r is Err ==> r == Err::<(), GuardianError>(GuardianError::Validation),
{
    if invites.len() < MIN_GUARDIANS || invites.len() > MAX_GUARDIANS {
        return Err(GuardianError::Validation);
    }
    if threshold < 2 || threshold > invites.len() as u64 {
        return Err(GuardianError::Validation);
    }
    let mut seen: Vec<String> = Vec::new();
    let mut i: usize = 0;
    while i < invites.len()
        invariant
            i <= invites@.len(),
            seen@.len() == i,
            forall|k: int|
                0 <= k < i ==> (#[trigger] seen@[k])@ == canonical_email_spec(
                    invites@[k].email@,
                ),
            forall|k: int|
                0 <= k < i ==> canonical_email_spec((#[trigger] invites@[k]).email@).len() > 0,
            forall|k: int|
                0 <= k < i ==> trimmed_of((#[trigger] invites@[k]).alias@).len() > 0,
            forall|a: int, b: int|
                0 <= a < b < i ==> canonical_email_spec(invites@[a].email@)
                    != canonical_email_spec(invites@[b].email@),
        decreases invites@.len() - i,
    {
        let canonical = canonical_email(invites[i].email.as_str());
        if canonical.as_str().unicode_len() == 0 {
            return Err(GuardianError::Validation);
        }
        let mut j: usize = 0;
        while j < i
            invariant
                j <= i,
                i < invites@.len(),
                seen@.len() == i,
                canonical@ == canonical_email_spec(invites@[i as int].email@),
                forall|k: int|
                    0 <= k < i ==> (#[trigger] seen@[k])@ == canonical_email_spec(
                        invites@[k].email@,
                    ),
                forall|k: int|
                    0 <= k < j ==> canonical_email_spec((#[trigger] invites@[k]).email@)
                        != canonical_email_spec(invites@[i as int].email@),
            decreases i - j,
        {
            if seen[j] == canonical {
                return Err(GuardianError::Validation);
            }
            j = j + 1;
        }
        if trim_str(invites[i].alias.as_str()).unicode_len() == 0 {
            return Err(GuardianError::Validation);
        }
        seen.push(canonical);
        i = i + 1;
    }
    Ok(())
}

/// A guardian entry is consistent with the lifecycle: an invited guardian is
/// unbound and holds no ciphertext, and a stored share and the terminal
/// state come only together.
pub open spec fn wf_guardian_entry(g: GuardianEntry) -> bool {
    &&& g.status == GuardianStatus::Invited ==> g.principal_id is None && g.encrypted_share
        is None
    &&& g.encrypted_share is Some <==> g.status == GuardianStatus::ShareSubmitted
}

/// A registered guardian set respects the structural invariants: three to
/// five guardians, a threshold between two and the guardian count, and
/// lifecycle-consistent entries.
pub open spec fn wf_vault_set(s: VaultGuardianSet) -> bool {
    &&& MIN_GUARDIANS <= s.guardians@.len() <= MAX_GUARDIANS
    &&& 2 <= s.threshold
    &&& s.threshold as int <= s.guardians@.len() as int
    &&& forall|i: int|
        0 <= i < s.guardians@.len() ==> wf_guardian_entry(#[trigger] s.guardians@[i])
}

impl GuardianManagerState {
    /// Every registered guardian set respects the structural invariants, and
    /// the registry lists vaults in strictly ascending identifier order.
    pub open spec fn wf(self) -> bool {
        &&& forall|i: int|
            0 <= i < self.vaults@.len() ==> wf_vault_set((#[trigger] self.vaults@[i]).1)
        &&& forall|i: int, j: int|
            0 <= i < j < self.vaults@.len() ==> (#[trigger] self.vaults@[i].0)
                < (#[trigger] self.vaults@[j].0)
    }

    /// An empty registry.
    pub fn new() -> (s: Self)
        ensures
            s.vaults@.len() == 0,
            s.vault_manager is None,
            s.wf(),
    {
        GuardianManagerState { vaults: Vec::new(), vault_manager: None }
    }
}

/// Records the delegate that alone may register new vaults. The host is
/// responsible for restricting who may call this.
pub fn set_vault_manager(state: &mut GuardianManagerState, manager: Vec<u8>)
    ensures
        final(state).vault_manager == Some(manager),
        final(state).vaults == old(state).vaults,
        old(state).wf() ==> final(state).wf(),
{
    state.vault_manager = Some(manager);
}

/// The caller may register guardians: it must equal the configured delegate
/// when one is set, and must always equal the claimed owner.
pub open spec fn register_authorized(state: GuardianManagerState, caller: Seq<u8>, owner: Seq<u8>) -> bool {
    &&& match state.vault_manager {
        Some(m) => m@ == caller,
        None => true,
    }
    &&& caller == owner
}

/// Creates a vault's guardian set: authorization, shape validation, then a
/// check-and-set insert that refuses a vault that is already registered.
/// Every guardian starts in `Invited` state with both timestamps at `now`.
pub fn register_guardians(
    state: &mut GuardianManagerState,
    caller: &Vec<u8>,
    now: u64,
    args: RegisterGuardiansArgs,
) -> (r: Result<Vec<GuardianRecord>, GuardianError>)
    requires
        old(state).wf(),
    ensures
        final(state).wf(),
        final(state).vault_manager == old(state).vault_manager,
        r is Ok <==> register_authorized(*old(state), caller@, args.owner@) && invites_valid(
            args.invites@,
            args.threshold,
        ) && !has_key(old(state).vaults@, args.vault_id),
        r is Err ==> *final(state) == *old(state),
        r == Err::<Vec<GuardianRecord>, GuardianError>(GuardianError::Unauthorized) <==>
            !register_authorized(*old(state), caller@, args.owner@),
        r == Err::<Vec<GuardianRecord>, GuardianError>(GuardianError::Validation) <==> (
        register_authorized(*old(state), caller@, args.owner@) && !invites_valid(
            args.invites@,
            args.threshold,
        )),
        r == Err::<Vec<GuardianRecord>, GuardianError>(GuardianError::VaultAlreadyRegistered(
            args.vault_id,
        )) <==> (register_authorized(*old(state), caller@, args.owner@) && invites_valid(
            args.invites@,
            args.threshold,
        ) && has_key(old(state).vaults@, args.vault_id)),
        r is Ok ==> {
            let vs1 = final(state).vaults@;
            let p = index_of_key(vs1, args.vault_id);
            let set = vs1[p].1;
            &&& has_key(vs1, args.vault_id)
            &&& vs1.len() == old(state).vaults@.len() + 1
            &&& vs1 == old(state).vaults@.insert(p, vs1[p])
            &&& vs1[p].0 == args.vault_id
            &&& set.owner@ == args.owner@
            &&& set.threshold == args.threshold
            &&& set.key_id@ == args.key_id@
            &&& set.created_at == now
            &&& set.updated_at == now
            &&& set.guardians@.len() == args.invites@.len()
            &&& forall|i: int|
                0 <= i < args.invites@.len() ==> invited_entry_of(
                    #[trigger] set.guardians@[i],
                    args.invites@[i],
                    now,
                )
            &&& {
                let records = r.unwrap()@;
                &&& records.len() == set.guardians@.len()
                &&& forall|i: int|
                    0 <= i < records.len() ==> is_record_of(
                        set.guardians@[i],
                        #[trigger] records[i],
                    )
            }
        },
{
    match &state.vault_manager {
        Some(manager) => {
            if !bytes_eq(manager, caller) {
                return Err(GuardianError::Unauthorized);
            }
        },
        None => {},
    }
    if !bytes_eq(caller, &args.owner) {
        return Err(GuardianError::Unauthorized);
    }
    if let Err(e) = validate_invites(&args.invites, args.threshold) {
        return Err(e);
    }
    let mut guardians: Vec<GuardianEntry> = Vec::new();
    let mut records: Vec<GuardianRecord> = Vec::new();
    let mut i: usize = 0;
    while i < args.invites.len()
        invariant
            i <= args.invites@.len(),
            guardians@.len() == i,
            records@.len() == i,
            forall|k: int|
                0 <= k < i ==> invited_entry_of(
                    #[trigger] guardians@[k],
                    args.invites@[k],
                    now,
                ),
            forall|k: int|
                0 <= k < i ==> is_record_of(guardians@[k], #[trigger] records@[k]),
        decreases args.invites@.len() - i,
    {
        let invite = &args.invites[i];
        let entry = GuardianEntry {
            email_hash: hash_email(invite.email.as_str()),
            alias: trim_str(invite.alias.as_str()).to_owned(),
            status: GuardianStatus::Invited,
            principal_id: None,
            encrypted_share: None,
            submitted_at: None,
            updated_at: now,
        };
        records.push(guardian_record(&entry));
        guardians.push(entry);
        i = i + 1;
    }
    if find_key(&state.vaults, args.vault_id).is_some() {
        return Err(GuardianError::VaultAlreadyRegistered(args.vault_id));
    }
    let ghost vs0 = state.vaults@;
    let set = VaultGuardianSet {
        owner: args.owner,
        threshold: args.threshold,
        key_id: args.key_id,
        guardians,
        created_at: now,
        updated_at: now,
    };
    // keep the registry in ascending identifier order
    let mut pos: usize = 0;
    while pos < state.vaults.len() && state.vaults[pos].0 < args.vault_id
        invariant
            pos <= vs0.len(),
            state.vaults@ == vs0,
            forall|k: int| 0 <= k < pos ==> (#[trigger] vs0[k].0) < args.vault_id,
        decreases vs0.len() - pos,
    {
        pos = pos + 1;
    }
    proof {
        if pos < vs0.len() && vs0[pos as int].0 == args.vault_id {
            lemma_first_match_exists(vs0, args.vault_id, pos as int);
        }
        assert(wf_vault_set(set));
        lemma_sorted_insert_fresh_key(*old(state), vs0, args.vault_id, set, pos as int);
    }
    state.vaults.insert(pos, (args.vault_id, set));
    proof {
        lemma_keyed_match_is_index(state.vaults@, args.vault_id, pos as int);
    }
    Ok(records)
}

/// Inserting a fresh key at its sorted position keeps the registry sorted
/// and well-formed, and makes the new entry the one a lookup finds.
proof fn lemma_sorted_insert_fresh_key(
    s0: GuardianManagerState,
    vs0: Seq<(u64, VaultGuardianSet)>,
    id: u64,
    set: VaultGuardianSet,
    pos: int,
)
    requires
        s0.wf(),
        s0.vaults@ == vs0,
        !has_key(vs0, id),
        0 <= pos <= vs0.len(),
        forall|k: int| 0 <= k < pos ==> (#[trigger] vs0[k].0) < id,
        pos < vs0.len() ==> vs0[pos].0 > id,
        wf_vault_set(set),
    ensures
        keyed_matches(vs0.insert(pos, (id, set)), id, pos),
        forall|i: int, j: int|
            0 <= i < j < vs0.insert(pos, (id, set)).len() ==> (#[trigger] vs0.insert(
                pos,
                (id, set),
            )[i].0) < (#[trigger] vs0.insert(pos, (id, set))[j].0),
        forall|k: int|
            0 <= k < vs0.insert(pos, (id, set)).len() ==> wf_vault_set(
                (#[trigger] vs0.insert(pos, (id, set))[k]).1,
            ),
{
    let vs1 = vs0.insert(pos, (id, set));
    assert forall|k: int| 0 <= k < vs1.len() implies (k < pos ==> vs1[k] == vs0[k]) && (k == pos
        ==> vs1[k] == (id, set)) && (k > pos ==> vs1[k] == vs0[k - 1]) by {}
    // every key right of the insertion point exceeds the new key
    assert forall|k: int| pos < k < vs1.len() implies vs1[k].0 > id by {
        if pos < vs0.len() && k - 1 > pos {
            assert(vs0[pos].0 < vs0[k - 1].0);
        }
    }
    assert(keyed_matches(vs1, id, pos));
    assert forall|i: int, j: int| 0 <= i < j < vs1.len() implies (#[trigger] vs1[i].0)
        < (#[trigger] vs1[j].0) by {
        if i < pos && j < pos {
            assert(vs0[i].0 < vs0[j].0);
        } else if i < pos && j > pos {
            assert(vs0[i].0 < id);
        } else if i > pos && j > pos {
            assert(vs0[i - 1].0 < vs0[j - 1].0);
        }
    }
    assert forall|k: int| 0 <= k < vs1.len() implies wf_vault_set((#[trigger] vs1[k]).1) by {
        if k < pos {
            assert(wf_vault_set(vs0[k].1));
        } else if k > pos {
            assert(wf_vault_set(vs0[k - 1].1));
        }
    }
}

/// An exact copy of a guardian entry.
fn clone_entry(g: &GuardianEntry) -> (r: GuardianEntry)
    ensures
        entry_like(*g, r),
{
    GuardianEntry {
        email_hash: clone_bytes(&g.email_hash),
        alias: g.alias.clone(),
        status: g.status,
        principal_id: clone_opt_bytes(&g.principal_id),
        encrypted_share: clone_opt_bytes(&g.encrypted_share),
        submitted_at: g.submitted_at,
        updated_at: g.updated_at,
    }
}

/// The guardian entry after a successful acceptance by `caller` at `now`.
pub open spec fn accepted_from(g0: GuardianEntry, g1: GuardianEntry, caller: Seq<u8>, now: u64) -> bool {
    &&& g1.email_hash@ == g0.email_hash@
    &&& g1.alias@ == g0.alias@
    &&& g1.status == GuardianStatus::Accepted
    &&& opt_bytes(g1.principal_id) == Some(caller)
    &&& opt_bytes(g1.encrypted_share) == opt_bytes(g0.encrypted_share)
    &&& g1.submitted_at == g0.submitted_at
    &&& g1.updated_at == now
}

/// The guardian entry after its share is committed at `now`.
pub open spec fn submitted_from(g0: GuardianEntry, g1: GuardianEntry, ciphertext: Seq<u8>, now: u64) -> bool {
    &&& g1.email_hash@ == g0.email_hash@
    &&& g1.alias@ == g0.alias@
    &&& g1.status == GuardianStatus::ShareSubmitted
    &&& opt_bytes(g1.principal_id) == opt_bytes(g0.principal_id)
    &&& opt_bytes(g1.encrypted_share) == Some(ciphertext)
    &&& g1.submitted_at == Some(now)
    &&& g1.updated_at == now
}

/// The registry after replacing vault `vi`'s set: every other vault
/// untouched, the set's metadata kept, its update stamp moved to `now`, and
/// its guardian list changed only at `gi`.
pub open spec fn vault_guardian_updated(
    vs0: Seq<(u64, VaultGuardianSet)>,
    vs1: Seq<(u64, VaultGuardianSet)>,
    vi: int,
    gi: int,
    now: u64,
) -> bool {
    &&& 0 <= vi < vs0.len()
    &&& vs1.len() == vs0.len()
    &&& forall|k: int| 0 <= k < vs0.len() && k != vi ==> vs1[k] == vs0[k]
    &&& vs1[vi].0 == vs0[vi].0
    &&& vs1[vi].1.owner == vs0[vi].1.owner
    &&& vs1[vi].1.threshold == vs0[vi].1.threshold
    &&& vs1[vi].1.key_id == vs0[vi].1.key_id
    &&& vs1[vi].1.created_at == vs0[vi].1.created_at
    &&& vs1[vi].1.updated_at == now
    &&& vs1[vi].1.guardians@.len() == vs0[vi].1.guardians@.len()
    &&& forall|k: int|
        0 <= k < vs0[vi].1.guardians@.len() && k != gi ==> vs1[vi].1.guardians@[k]
            == vs0[vi].1.guardians@[k]
}

/// Binds the caller's identity to a guardian and moves it to `Accepted`.
/// Re-acceptance by the same identity succeeds idempotently; a different
/// identity is refused; a failed call leaves the registry untouched.
pub fn accept_invitation(
    state: &mut GuardianManagerState,
    caller: Vec<u8>,
    now: u64,
    args: &AcceptGuardianArgs,
) -> (r: Result<GuardianRecord, GuardianError>)
    requires
        old(state).wf(),
    ensures
        final(state).wf(),
        final(state).vault_manager == old(state).vault_manager,
        ({
            let vs0 = old(state).vaults@;
            let hash = args.email_hash@;
            &&& (r is Ok <==> has_key(vs0, args.vault_id) && {
                let gs0 = vs0[index_of_key(vs0, args.vault_id)].1.guardians@;
                has_guardian(gs0, hash) && {
                    let g0 = gs0[guardian_index_of(gs0, hash)];
                    &&& (g0.principal_id is None || opt_bytes(g0.principal_id) == Some(caller@))
                    &&& g0.status != GuardianStatus::ShareSubmitted
                }
            })
            &&& (match r {
                Ok(rec) => {
                    let vi = index_of_key(vs0, args.vault_id);
                    let gs0 = vs0[vi].1.guardians@;
                    let gi = guardian_index_of(gs0, hash);
                    let g1 = final(state).vaults@[vi].1.guardians@[gi];
                    &&& vault_guardian_updated(vs0, final(state).vaults@, vi, gi, now)
                    &&& accepted_from(gs0[gi], g1, caller@, now)
                    &&& is_record_of(g1, rec)
                },
                Err(e) => {
                    &&& *final(state) == *old(state)
                    &&& (e == GuardianError::VaultNotFound(args.vault_id) <==> !has_key(
                        vs0,
                        args.vault_id,
                    ))
                    &&& (has_key(vs0, args.vault_id) ==> {
                        let gs0 = vs0[index_of_key(vs0, args.vault_id)].1.guardians@;
                        let g0 = gs0[guardian_index_of(gs0, hash)];
                        &&& (e == GuardianError::GuardianNotFound <==> !has_guardian(gs0, hash))
                        &&& (e == GuardianError::PrincipalMismatch <==> has_guardian(gs0, hash)
                            && g0.principal_id is Some && opt_bytes(g0.principal_id) != Some(
                            caller@,
                        ))
                        &&& (e == GuardianError::ShareAlreadySubmitted <==> has_guardian(gs0, hash)
                            && (g0.principal_id is None || opt_bytes(g0.principal_id) == Some(
                            caller@,
                        )) && g0.status == GuardianStatus::ShareSubmitted)
                    })
                },
            })
        }),
{
    let ghost vs0 = state.vaults@;
    let vi = match find_key(&state.vaults, args.vault_id) {
        Some(i) => i,
        None => {
            return Err(GuardianError::VaultNotFound(args.vault_id));
        },
    };
    proof {
        lemma_keyed_match_is_index(vs0, args.vault_id, vi as int);
    }
    let gi = match find_guardian(&state.vaults[vi].1.guardians, &args.email_hash) {
        Some(i) => i,
        None => {
            return Err(GuardianError::GuardianNotFound);
        },
    };
    let ghost gs0 = vs0[vi as int].1.guardians@;
    match &state.vaults[vi].1.guardians[gi].principal_id {
        Some(existing) => {
            if !bytes_eq(existing, &caller) {
                return Err(GuardianError::PrincipalMismatch);
            }
        },
        None => {},
    }
    // the terminal state is immutable: no transition out of ShareSubmitted
    match &state.vaults[vi].1.guardians[gi].status {
        GuardianStatus::ShareSubmitted => {
            return Err(GuardianError::ShareAlreadySubmitted);
        },
        _ => {},
    }
    let mut pair = state.vaults.remove(vi);
    let mut entry = pair.1.guardians.remove(gi);
    entry.principal_id = Some(caller);
    entry.status = GuardianStatus::Accepted;
    entry.updated_at = now;
    let record = guardian_record(&entry);
    pair.1.guardians.insert(gi, entry);
    pair.1.updated_at = now;
    state.vaults.insert(vi, pair);
    proof {
        assert forall|k: int| 0 <= k < vs0.len() && k != vi as int implies state.vaults@[k] == vs0[k]
        by {}
        assert forall|k: int|
            0 <= k < gs0.len() && k != gi as int implies state.vaults@[vi as int].1.guardians@[k]
            == gs0[k] by {}
        assert(wf_vault_set(vs0[vi as int].1));
        assert(wf_guardian_entry(gs0[gi as int]));
        assert(vault_guardian_updated(vs0, state.vaults@, vi as int, gi as int, now));
        lemma_registry_update_keeps_wf(*old(state), *state, vs0, vi as int, gi as int);
    }
    Ok(record)
}

/// Replacing one guardian entry with a lifecycle-consistent one, while
/// keeping every key, count and threshold, preserves the registry
/// invariants.
proof fn lemma_registry_update_keeps_wf(
    s0: GuardianManagerState,
    s1: GuardianManagerState,
    vs0: Seq<(u64, VaultGuardianSet)>,
    vi: int,
    gi: int,
)
    requires
        s0.wf(),
        s0.vaults@ == vs0,
        s1.vaults@.len() == vs0.len(),
        0 <= vi < vs0.len(),
        forall|k: int| 0 <= k < vs0.len() && k != vi ==> s1.vaults@[k] == vs0[k],
        s1.vaults@[vi].0 == vs0[vi].0,
        s1.vaults@[vi].1.threshold == vs0[vi].1.threshold,
        s1.vaults@[vi].1.guardians@.len() == vs0[vi].1.guardians@.len(),
        0 <= gi < vs0[vi].1.guardians@.len(),
        forall|k: int|
            0 <= k < vs0[vi].1.guardians@.len() && k != gi ==> s1.vaults@[vi].1.guardians@[k]
                == vs0[vi].1.guardians@[k],
        wf_guardian_entry(s1.vaults@[vi].1.guardians@[gi]),
    ensures
        s1.wf(),
{
    assert forall|k: int| 0 <= k < s1.vaults@.len() implies wf_vault_set(
        (#[trigger] s1.vaults@[k]).1,
    ) by {
        assert(wf_vault_set(vs0[k].1));
        if k == vi {
            assert forall|m: int|
                0 <= m < s1.vaults@[k].1.guardians@.len() implies wf_guardian_entry(
                #[trigger] s1.vaults@[k].1.guardians@[m],
            ) by {
                if m != gi {
                    assert(s1.vaults@[k].1.guardians@[m] == vs0[vi].1.guardians@[m]);
                }
            }
        }
    }
    assert forall|i: int, j: int| 0 <= i < j < s1.vaults@.len() implies (
    #[trigger] s1.vaults@[i].0) < (#[trigger] s1.vaults@[j].0) by {
        assert(s1.vaults@[i].0 == vs0[i].0);
        assert(s1.vaults@[j].0 == vs0[j].0);
    }
}

/// The number of guardians holding an encrypted share.
pub open spec fn submitted_count(gs: Seq<GuardianEntry>) -> int
    decreases gs.len(),
{
    if gs.len() == 0 {
        0
    } else {
        submitted_count(gs.drop_last()) + if gs.last().encrypted_share is Some {
            1int
        } else {
            0int
        }
    }
}

proof fn lemma_submitted_count_take_succ(gs: Seq<GuardianEntry>, i: int)
    requires
        0 <= i < gs.len(),
    ensures
        submitted_count(gs.take(i + 1)) == submitted_count(gs.take(i)) + if gs[i].encrypted_share
            is Some {
            1int
        } else {
            0int
        },
{
    assert(gs.take(i + 1).drop_last() =~= gs.take(i));
    assert(gs.take(i + 1).last() == gs[i]);
}

proof fn lemma_submitted_count_bound(gs: Seq<GuardianEntry>)
    ensures
        0 <= submitted_count(gs) <= gs.len(),
    decreases gs.len(),
{
    if gs.len() > 0 {
        lemma_submitted_count_bound(gs.drop_last());
    }
}

/// Counts the guardians holding an encrypted share.
fn count_submitted(gs: &Vec<GuardianEntry>) -> (c: u64)
    ensures
        c as int == submitted_count(gs@),
{
    let mut c: u64 = 0;
    let mut i: usize = 0;
    while i < gs.len()
        invariant
            i <= gs@.len(),
            c as int == submitted_count(gs@.take(i as int)),
            c <= i,
        decreases gs@.len() - i,
    {
        proof {
            lemma_submitted_count_take_succ(gs@, i as int);
        }
        if gs[i].encrypted_share.is_some() {
            c = c + 1;
        }
        i = i + 1;
    }
    proof {
        assert(gs@.take(gs@.len() as int) =~= gs@);
    }
    c
}

/// The first error a share commit for `(vault_id, hash)` by `caller` would
/// hit against `state`: a missing vault or guardian; a caller other than the
/// identity the guardian is bound to; a share already in place; a guardian
/// that never accepted. The identity check comes before the stored-share
/// check, so a stranger is always answered `Unauthorized` and never learns
/// whether a share exists; a guardian still unbound is rejected for its
/// lifecycle state.
pub open spec fn share_commit_error(
    state: GuardianManagerState,
    caller: Seq<u8>,
    vault_id: u64,
    hash: Seq<u8>,
) -> Option<GuardianError> {
    let vs = state.vaults@;
    if !has_key(vs, vault_id) {
        Some(GuardianError::VaultNotFound(vault_id))
    } else {
        let gs = vs[index_of_key(vs, vault_id)].1.guardians@;
        if !has_guardian(gs, hash) {
            Some(GuardianError::GuardianNotFound)
        } else {
            let g = gs[guardian_index_of(gs, hash)];
            if g.principal_id is Some && opt_bytes(g.principal_id) != Some(caller) {
                Some(GuardianError::Unauthorized)
            } else if g.encrypted_share is Some {
                Some(GuardianError::ShareAlreadySubmitted)
            } else if g.status != GuardianStatus::Accepted {
                Some(GuardianError::GuardianNotAccepted)
            } else if opt_bytes(g.principal_id) != Some(caller) {
                Some(GuardianError::Unauthorized)
            } else {
                None
            }
        }
    }
}

/// The first error a share submission would hit: payload checks first, then
/// the commit preconditions.
pub open spec fn submit_share_error(
    state: GuardianManagerState,
    caller: Seq<u8>,
    args: SubmitShareArgs,
) -> Option<GuardianError> {
    if args.share_payload@.len() == 0 {
        Some(GuardianError::Validation)
    } else if args.share_payload@.len() > MAX_SHARE_BYTES {
        Some(GuardianError::ShareTooLarge)
    } else {
        share_commit_error(state, caller, args.vault_id, args.email_hash@)
    }
}

/// The lifecycle decides a submission's refusal on a well-formed registry: a
/// guardian still in `Invited` state is refused as not accepted, whatever
/// the caller (an invited guardian is unbound and holds no ciphertext); and
/// once its share is submitted, the bound guardian repeating the submission
/// is refused because the share is already in place.
pub proof fn lemma_submission_lifecycle_errors(
    state: GuardianManagerState,
    caller: Seq<u8>,
    vault_id: u64,
    hash: Seq<u8>,
)
    requires
        state.wf(),
        has_key(state.vaults@, vault_id),
        has_guardian(state.vaults@[index_of_key(state.vaults@, vault_id)].1.guardians@, hash),
    ensures
        ({
            let gs = state.vaults@[index_of_key(state.vaults@, vault_id)].1.guardians@;
            let g = gs[guardian_index_of(gs, hash)];
            &&& (g.status == GuardianStatus::Invited ==> share_commit_error(
                state,
                caller,
                vault_id,
                hash,
            ) == Some(GuardianError::GuardianNotAccepted))
            &&& (g.status == GuardianStatus::ShareSubmitted && opt_bytes(g.principal_id) == Some(
                caller,
            ) ==> share_commit_error(state, caller, vault_id, hash) == Some(
                GuardianError::ShareAlreadySubmitted,
            ))
        }),
{
    let vs = state.vaults@;
    let vi = index_of_key(vs, vault_id);
    let gs = vs[vi].1.guardians@;
    let gi = guardian_index_of(gs, hash);
    let w = choose|i: int| keyed_matches(vs, vault_id, i);
    crate::lookup::lemma_keyed_match_is_index(vs, vault_id, w);
    assert(0 <= vi < vs.len());
    assert(wf_vault_set(vs[vi].1));
    let m = choose|i: int| guardian_matches(gs, hash, i);
    lemma_guardian_match_is_index(gs, hash, m);
    assert(0 <= gi < gs.len());
    assert(wf_guardian_entry(gs[gi]));
}

/// Reads one guardian consistently, for use across the asynchronous
/// encryption protocol.
pub fn snapshot_guardian(
    state: &GuardianManagerState,
    vault_id: u64,
    email_hash: &Vec<u8>,
) -> (r: Result<GuardianSnapshot, GuardianError>)
    ensures
        ({
            let vs = state.vaults@;
            &&& (r is Ok <==> has_key(vs, vault_id) && has_guardian(
                vs[index_of_key(vs, vault_id)].1.guardians@,
                email_hash@,
            ))
            &&& (match r {
                Ok(snap) => {
                    let gs = vs[index_of_key(vs, vault_id)].1.guardians@;
                    &&& snap.vault_id == vault_id
                    &&& snap.guardian_index as int == guardian_index_of(gs, email_hash@)
                    &&& entry_like(gs[guardian_index_of(gs, email_hash@)], snap.guardian)
                },
                Err(e) => {
                    &&& (e == GuardianError::VaultNotFound(vault_id) <==> !has_key(vs, vault_id))
                    &&& (has_key(vs, vault_id) ==> (e == GuardianError::GuardianNotFound <==>
                        !has_guardian(vs[index_of_key(vs, vault_id)].1.guardians@, email_hash@)))
                },
            })
        }),
{
    let vi = match find_key(&state.vaults, vault_id) {
        Some(i) => i,
        None => {
            return Err(GuardianError::VaultNotFound(vault_id));
        },
    };
    proof {
        lemma_keyed_match_is_index(state.vaults@, vault_id, vi as int);
    }
    let gi = match find_guardian(&state.vaults[vi].1.guardians, email_hash) {
        Some(i) => i,
        None => {
            return Err(GuardianError::GuardianNotFound);
        },
    };
    Ok(GuardianSnapshot {
        vault_id,
        guardian_index: gi,
        guardian: clone_entry(&state.vaults[vi].1.guardians[gi]),
    })
}

/// Validates a share submission before any cryptographic work: payload
/// shape, then the guardian's state; returns the snapshot the encryption
/// protocol runs against. Leaves the registry untouched.
pub fn submit_share_precheck(
    state: &GuardianManagerState,
    caller: &Vec<u8>,
    args: &SubmitShareArgs,
) -> (r: Result<GuardianSnapshot, GuardianError>)
    ensures
        (r is Err <==> submit_share_error(*state, caller@, *args) is Some),
        r is Err ==> r == Err::<GuardianSnapshot, GuardianError>(
            submit_share_error(*state, caller@, *args).unwrap(),
        ),
        (match r {
            Ok(snap) => {
                let vs = state.vaults@;
                let gs = vs[index_of_key(vs, args.vault_id)].1.guardians@;
                let gi = guardian_index_of(gs, args.email_hash@);
                &&& has_key(vs, args.vault_id)
                &&& has_guardian(gs, args.email_hash@)
                &&& snap.vault_id == args.vault_id
                &&& snap.guardian_index as int == gi
                &&& entry_like(gs[gi], snap.guardian)
                &&& gs[gi].encrypted_share is None
                &&& gs[gi].status == GuardianStatus::Accepted
                &&& opt_bytes(gs[gi].principal_id) == Some(caller@)
                &&& 0 < args.share_payload@.len() <= MAX_SHARE_BYTES
            },
            Err(_) => true,
        }),
{
    if args.share_payload.len() == 0 {
        return Err(GuardianError::Validation);
    }
    if args.share_payload.len() > MAX_SHARE_BYTES {
        return Err(GuardianError::ShareTooLarge);
    }
    let snapshot = match snapshot_guardian(state, args.vault_id, &args.email_hash) {
        Ok(s) => s,
        Err(e) => {
            return Err(e);
        },
    };
    match &snapshot.guardian.principal_id {
        Some(bound) => {
            if !bytes_eq(bound, caller) {
                return Err(GuardianError::Unauthorized);
            }
        },
        None => {},
    }
    if snapshot.guardian.encrypted_share.is_some() {
        return Err(GuardianError::ShareAlreadySubmitted);
    }
    match &snapshot.guardian.status {
        GuardianStatus::Accepted => {},
        _ => {
            return Err(GuardianError::GuardianNotAccepted);
        },
    }
    match &snapshot.guardian.principal_id {
        Some(_) => {},
        None => {
            return Err(GuardianError::Unauthorized);
        },
    }
    Ok(snapshot)
}

/// Commits an encrypted share: re-validates every precondition against the
/// current registry (the snapshot may be stale after the asynchronous
/// protocol), then records the ciphertext, advances the guardian to
/// `ShareSubmitted`, and stamps both timestamps. A failed call leaves the
/// registry untouched.
pub fn commit_guardian_share(
    state: &mut GuardianManagerState,
    caller: &Vec<u8>,
    vault_id: u64,
    email_hash: &Vec<u8>,
    ciphertext: Vec<u8>,
    now: u64,
) -> (r: Result<ShareSubmissionReceipt, GuardianError>)
    requires
        old(state).wf(),
    ensures
        final(state).wf(),
        final(state).vault_manager == old(state).vault_manager,
        (r is Err <==> share_commit_error(*old(state), caller@, vault_id, email_hash@) is Some),
        r is Err ==> r == Err::<ShareSubmissionReceipt, GuardianError>(
            share_commit_error(*old(state), caller@, vault_id, email_hash@).unwrap(),
        ) && *final(state) == *old(state),
        (match r {
            Ok(receipt) => {
                let vs0 = old(state).vaults@;
                let vi = index_of_key(vs0, vault_id);
                let gs0 = vs0[vi].1.guardians@;
                let gi = guardian_index_of(gs0, email_hash@);
                let gs1 = final(state).vaults@[vi].1.guardians@;
                &&& vault_guardian_updated(vs0, final(state).vaults@, vi, gi, now)
                &&& submitted_from(gs0[gi], gs1[gi], ciphertext@, now)
                &&& receipt.vault_id == vault_id
                &&& receipt.submitted_at == now
                &&& receipt.remaining_required as int == if vs0[vi].1.threshold as int
                    - submitted_count(gs1) > 0 {
                    vs0[vi].1.threshold as int - submitted_count(gs1)
                } else {
                    0int
                }
            },
            Err(_) => true,
        }),
{
    let ghost vs0 = state.vaults@;
    let vi = match find_key(&state.vaults, vault_id) {
        Some(i) => i,
        None => {
            return Err(GuardianError::VaultNotFound(vault_id));
        },
    };
    proof {
        lemma_keyed_match_is_index(vs0, vault_id, vi as int);
    }
    let gi = match find_guardian(&state.vaults[vi].1.guardians, email_hash) {
        Some(i) => i,
        None => {
            return Err(GuardianError::GuardianNotFound);
        },
    };
    let ghost gs0 = vs0[vi as int].1.guardians@;
    match &state.vaults[vi].1.guardians[gi].principal_id {
        Some(bound) => {
            if !bytes_eq(bound, caller) {
                return Err(GuardianError::Unauthorized);
            }
        },
        None => {},
    }
    if state.vaults[vi].1.guardians[gi].encrypted_share.is_some() {
        return Err(GuardianError::ShareAlreadySubmitted);
    }
    match &state.vaults[vi].1.guardians[gi].status {
        GuardianStatus::Accepted => {},
        _ => {
            return Err(GuardianError::GuardianNotAccepted);
        },
    }
    match &state.vaults[vi].1.guardians[gi].principal_id {
        Some(_) => {},
        None => {
            return Err(GuardianError::Unauthorized);
        },
    }
    let mut pair = state.vaults.remove(vi);
    let mut entry = pair.1.guardians.remove(gi);
    entry.encrypted_share = Some(ciphertext);
    entry.status = GuardianStatus::ShareSubmitted;
    entry.submitted_at = Some(now);
    entry.updated_at = now;
    pair.1.guardians.insert(gi, entry);
    pair.1.updated_at = now;
    let submitted = count_submitted(&pair.1.guardians);
    let threshold = pair.1.threshold;
    state.vaults.insert(vi, pair);
    proof {
        assert forall|k: int| 0 <= k < vs0.len() && k != vi as int implies state.vaults@[k] == vs0[k]
        by {}
        assert forall|k: int|
            0 <= k < gs0.len() && k != gi as int implies state.vaults@[vi as int].1.guardians@[k]
            == gs0[k] by {}
        assert(vault_guardian_updated(vs0, state.vaults@, vi as int, gi as int, now));
        lemma_registry_update_keeps_wf(*old(state), *state, vs0, vi as int, gi as int);
        lemma_submitted_count_bound(state.vaults@[vi as int].1.guardians@);
    }
    let remaining: u64 = if threshold > submitted {
        threshold - submitted
    } else {
        0
    };
    Ok(ShareSubmissionReceipt {
        vault_id,
        submitted_at: now,
        remaining_required: remaining as i64,
    })
}

/// How many shares vault `vault_id` has collected, and whether the quorum
/// threshold is met.
pub fn threshold_summary(state: &GuardianManagerState, vault_id: u64) -> (r: Result<
    GuardianSubmissionResult,
    GuardianError,
>)
    ensures
        (r is Ok <==> has_key(state.vaults@, vault_id)),
        r is Err ==> r == Err::<GuardianSubmissionResult, GuardianError>(
            GuardianError::VaultNotFound(vault_id),
        ),
        (match r {
            Ok(summary) => {
                let set = state.vaults@[index_of_key(state.vaults@, vault_id)].1;
                &&& summary.submitted as int == submitted_count(set.guardians@)
                &&& (summary.threshold_met <==> submitted_count(set.guardians@)
                    >= set.threshold as int)
            },
            Err(_) => true,
        }),
{
    let vi = match find_key(&state.vaults, vault_id) {
        Some(i) => i,
        None => {
            return Err(GuardianError::VaultNotFound(vault_id));
        },
    };
    proof {
        lemma_keyed_match_is_index(state.vaults@, vault_id, vi as int);
    }
    let submitted = count_submitted(&state.vaults[vi].1.guardians);
    let threshold_met = submitted >= state.vaults[vi].1.threshold;
    Ok(GuardianSubmissionResult { submitted, threshold_met })
}

/// Every guardian record of vault `vault_id`, in registration order.
pub fn list_guardians(state: &GuardianManagerState, vault_id: u64) -> (r: Result<
    Vec<GuardianRecord>,
    GuardianError,
>)
    ensures
        (r is Ok <==> has_key(state.vaults@, vault_id)),
        r is Err ==> r == Err::<Vec<GuardianRecord>, GuardianError>(GuardianError::VaultNotFound(
            vault_id,
        )),
        (match r {
            Ok(records) => {
                let gs = state.vaults@[index_of_key(state.vaults@, vault_id)].1.guardians@;
                &&& records@.len() == gs.len()
                &&& forall|i: int|
                    0 <= i < gs.len() ==> is_record_of(gs[i], #[trigger] records@[i])
            },
            Err(_) => true,
        }),
{
    let vi = match find_key(&state.vaults, vault_id) {
        Some(i) => i,
        None => {
            return Err(GuardianError::VaultNotFound(vault_id));
        },
    };
    proof {
        lemma_keyed_match_is_index(state.vaults@, vault_id, vi as int);
    }
    let guardians = &state.vaults[vi].1.guardians;
    let mut records: Vec<GuardianRecord> = Vec::new();
    let mut i: usize = 0;
    while i < guardians.len()
        invariant
            i <= guardians@.len(),
            records@.len() == i,
            forall|k: int|
                0 <= k < i ==> is_record_of(guardians@[k], #[trigger] records@[k]),
        decreases guardians@.len() - i,
    {
        records.push(guardian_record(&guardians[i]));
        i = i + 1;
    }
    Ok(records)
}

/// Looks one guardian up by email hash; `None` when the vault or the
/// guardian is absent.
pub fn guardian_by_hash(state: &GuardianManagerState, args: &AcceptGuardianArgs) -> (r: Option<
    GuardianRecord,
>)
    ensures
        (r is Some <==> has_key(state.vaults@, args.vault_id) && has_guardian(
            state.vaults@[index_of_key(state.vaults@, args.vault_id)].1.guardians@,
            args.email_hash@,
        )),
        (match r {
            Some(rec) => {
                let gs = state.vaults@[index_of_key(state.vaults@, args.vault_id)].1.guardians@;
                is_record_of(gs[guardian_index_of(gs, args.email_hash@)], rec)
            },
            None => true,
        }),
{
    let vi = match find_key(&state.vaults, args.vault_id) {
        Some(i) => i,
        None => {
            return None;
        },
    };
    proof {
        lemma_keyed_match_is_index(state.vaults@, args.vault_id, vi as int);
    }
    let gi = match find_guardian(&state.vaults[vi].1.guardians, &args.email_hash) {
        Some(i) => i,
        None => {
            return None;
        },
    };
    Some(guardian_record(&state.vaults[vi].1.guardians[gi]))
}

/// Some guardian of the set is bound to `caller`.
pub open spec fn bound_in_vault(s: VaultGuardianSet, caller: Seq<u8>) -> bool {
    exists|i: int|
        0 <= i < s.guardians@.len() && opt_bytes(
            (#[trigger] s.guardians@[i]).principal_id,
        ) == Some(caller)
}

/// Whether any guardian of the set is bound to `caller`.
fn vault_has_bound(set: &VaultGuardianSet, caller: &Vec<u8>) -> (r: bool)
    ensures
        r == bound_in_vault(*set, caller@),
{
    let mut i: usize = 0;
    while i < set.guardians.len()
        invariant
            i <= set.guardians@.len(),
            forall|k: int|
                0 <= k < i ==> opt_bytes((#[trigger] set.guardians@[k]).principal_id) != Some(
                    caller@,
                ),
        decreases set.guardians@.len() - i,
    {
        match &set.guardians[i].principal_id {
            Some(p) => {
                if bytes_eq(p, caller) {
                    assert(bound_in_vault(*set, caller@));
                    return true;
                }
            },
            None => {},
        }
        i = i + 1;
    }
    false
}

/// The identifiers of every vault in which `caller` is a bound guardian; on
/// a well-formed registry they come in strictly ascending order.
pub fn list_guardian_vaults(state: &GuardianManagerState, caller: &Vec<u8>) -> (r: Vec<u64>)
    ensures
        r@ == state.vaults@.filter(
            |p: (u64, VaultGuardianSet)| bound_in_vault(p.1, caller@),
        ).map_values(|p: (u64, VaultGuardianSet)| p.0),
        state.wf() ==> forall|a: int, b: int| 0 <= a < b < r@.len() ==> r@[a] < r@[b],
{
    let ghost pred = |p: (u64, VaultGuardianSet)| bound_in_vault(p.1, caller@);
    let ghost f = |p: (u64, VaultGuardianSet)| p.0;
    let mut out: Vec<u64> = Vec::new();
    let mut i: usize = 0;
    while i < state.vaults.len()
        invariant
            i <= state.vaults@.len(),
            pred == (|p: (u64, VaultGuardianSet)| bound_in_vault(p.1, caller@)),
            f == (|p: (u64, VaultGuardianSet)| p.0),
            out@ == state.vaults@.take(i as int).filter(pred).map_values(f),
            state.wf() ==> forall|a: int, j: int|
                0 <= a < out@.len() && i <= j < state.vaults@.len() ==> (#[trigger] out@[a]) < (
                #[trigger] state.vaults@[j].0),
            state.wf() ==> forall|a: int, b: int| 0 <= a < b < out@.len() ==> out@[a] < out@[b],
        decreases state.vaults@.len() - i,
    {
        let ghost prefix = state.vaults@.take(i as int);
        proof {
            reveal(Seq::filter);
            assert(state.vaults@.take(i + 1 as int).drop_last() =~= prefix);
            assert(state.vaults@.take(i + 1 as int).last() == state.vaults@[i as int]);
        }
        if vault_has_bound(&state.vaults[i].1, caller) {
            out.push(state.vaults[i].0);
            proof {
                assert(state.vaults@.take(i + 1 as int).filter(pred) =~= prefix.filter(pred).push(
                    state.vaults@[i as int],
                ));
                assert(out@ =~= state.vaults@.take(i + 1 as int).filter(pred).map_values(f));
            }
        } else {
            proof {
                assert(state.vaults@.take(i + 1 as int).filter(pred) =~= prefix.filter(pred));
            }
        }
        i = i + 1;
    }
    proof {
        assert(state.vaults@.take(state.vaults@.len() as int) =~= state.vaults@);
    }
    out
}

} // verus!
