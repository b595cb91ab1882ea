//! Commit-and-claim settlement: cycle roots, proven claims into a point
//! ledger, conversion of points into token mints, and paid membership.

use vstd::prelude::*;
use crate::bitmap::{is_claimed, set_claimed, slot_marked, mark_slot};
use crate::bytes::{Pubkey, Digest, is_unset, keys_eq, key_is_unset};
use crate::error::ErrorCode;
use crate::merkle::{compute_merkle_root, leaf_hash, root_from, leaf_digest};

verus! {

/// Program-wide settings, changed only by the governor.
#[derive(Clone, Copy, Debug)]
pub struct GlobalConfig {
    pub governor: Pubkey,
    pub treasury: Pubkey,
    pub mint: Pubkey,
    pub mint_authority: Pubkey,
    pub cycle_secs: u64,
    pub max_points_per_cycle: u32,
    pub per_peer_cycle_cap: i32,
    /// Points per whole token.
    pub conversion_ratio: u32,
    /// Join fee, in base units.
    pub join_cost_tokens: u64,
    pub start_ts: i64,
    pub airdrop_done: bool,
    pub decimals: u8,
}

/// The commitment of one cycle and its replay guard.
#[derive(Clone, Debug)]
pub struct CycleState {
    pub cycle_index: u64,
    pub merkle_root: Digest,
    pub total_points_declared: u32,
    /// One bit per claim slot, set once the slot is settled.
    pub claims_bitmap: Vec<u8>,
}

/// A participant's running point balance. An all-zero owner marks a ledger
/// that was never written.
#[derive(Clone, Copy, Debug)]
pub struct PeerLedger {
    pub owner: Pubkey,
    pub points: i64,
    pub last_cycle_claimed: u64,
}

/// A paid membership, kept after deactivation.
#[derive(Clone, Copy, Debug)]
pub struct Membership {
    pub owner: Pubkey,
    pub joined_at: i64,
    pub active: bool,
}

/// Optional new values for the configuration.
#[derive(Clone, Copy, Debug)]
pub struct UpdateParams {
    pub cycle_secs: Option<u64>,
    pub max_points_per_cycle: Option<u32>,
    pub per_peer_cycle_cap: Option<i32>,
    pub conversion_ratio: Option<u32>,
    pub join_cost_tokens: Option<u64>,
    pub treasury_owner: Option<Pubkey>,
}

/// Reported when the configuration is set up.
#[derive(Clone, Copy, Debug)]
pub struct Initialized {
    pub governor: Pubkey,
    pub mint: Pubkey,
    pub treasury: Pubkey,
}

/// Reported with the settings in force after an update.
#[derive(Clone, Copy, Debug)]
pub struct ConfigUpdated {
    pub cycle_secs: u64,
    pub max_points_per_cycle: u32,
    pub per_peer_cycle_cap: i32,
    pub conversion_ratio: u32,
    pub join_cost_tokens: u64,
}

/// Reported when a cycle is opened.
#[derive(Clone, Copy, Debug)]
pub struct CycleRootSet {
    pub cycle_index: u64,
    pub merkle_root: Digest,
    pub total_points_declared: u32,
}

/// Reported when a claim is settled, with the resulting balance.
#[derive(Clone, Copy, Debug)]
pub struct KarmaClaimed {
    pub owner: Pubkey,
    pub cycle_index: u64,
    pub delta_points: i32,
    pub new_points: i64,
}

/// Reported when points are converted into tokens.
#[derive(Clone, Copy, Debug)]
pub struct PointsConverted {
    pub owner: Pubkey,
    pub tokens_minted: u64,
    pub points_spent: u64,
}

/// Reported when a membership is activated.
#[derive(Clone, Copy, Debug)]
pub struct Joined {
    pub member: Pubkey,
}

pub open spec fn abs_i32(d: i32) -> int {
    if d < 0 {
        -(d as int)
    } else {
        d as int
    }
}

/// The balance a claim starts from: zero on a ledger never written.
pub open spec fn base_points(ledger: PeerLedger) -> i64 {
    if is_unset(ledger.owner@) {
        0
    } else {
        ledger.points
    }
}

pub open spec fn base_last_cycle(ledger: PeerLedger) -> u64 {
    if is_unset(ledger.owner@) {
        0
    } else {
        ledger.last_cycle_claimed
    }
}

/// A balance moved by a delta: a rise is exact (its overflow is an error),
/// a fall saturates at the lowest `i64` and is not floored at zero.
pub open spec fn moved_points(points: i64, delta: i32) -> int {
    if points + delta < i64::MIN {
        i64::MIN as int
    } else {
        points + delta
    }
}

/// The cycle record's fields that a claim never changes are unchanged.
pub open spec fn same_header(a: CycleState, b: CycleState) -> bool {
    a.cycle_index == b.cycle_index && a.merkle_root == b.merkle_root
        && a.total_points_declared == b.total_points_declared
}

/// The first check that a claim fails, given the root recomputed from its
/// leaf and inclusion path, or `None` when it is accepted.
pub open spec fn claim_error(
    cfg: GlobalConfig,
    state: CycleState,
    ledger: PeerLedger,
    owner: Pubkey,
    cycle_index: u64,
    delta_points: i32,
    leaf_index: u32,
    root: Seq<u8>,
) -> Option<ErrorCode> {
    if state.cycle_index != cycle_index {
        Some(ErrorCode::InvalidCycle)
    } else if abs_i32(delta_points) > cfg.per_peer_cycle_cap {
        Some(ErrorCode::DeltaExceedsPerPeerCap)
    } else if root != state.merkle_root@ {
        Some(ErrorCode::InvalidMerkleProof)
    } else if slot_marked(state.claims_bitmap@, leaf_index as nat) {
        Some(ErrorCode::ClaimAlreadyProcessed)
    } else if leaf_index / 8 >= state.claims_bitmap@.len() {
        Some(ErrorCode::InvalidMerkleProof)
    } else if !is_unset(ledger.owner@) && ledger.owner@ != owner@ {
        Some(ErrorCode::WrongLedgerOwner)
    } else if moved_points(base_points(ledger), delta_points) > i64::MAX {
        Some(ErrorCode::MathOverflow)
    } else {
        None
    }
}

/// The ledger after an accepted claim.
pub open spec fn claimed_ledger(ledger: PeerLedger, owner: Pubkey, cycle_index: u64, delta_points: i32) -> PeerLedger {
    PeerLedger {
        owner,
        points: moved_points(base_points(ledger), delta_points) as i64,
        last_cycle_claimed: if cycle_index > base_last_cycle(ledger) {
            cycle_index
        } else {
            base_last_cycle(ledger)
        },
    }
}

/// The outcome of a claim, given the recomputed root.
pub open spec fn claim_result(
    cfg: GlobalConfig,
    state: CycleState,
    ledger: PeerLedger,
    owner: Pubkey,
    cycle_index: u64,
    delta_points: i32,
    leaf_index: u32,
    root: Seq<u8>,
) -> Result<KarmaClaimed, ErrorCode> {
    match claim_error(cfg, state, ledger, owner, cycle_index, delta_points, leaf_index, root) {
        Some(e) => Err(e),
        None => Ok(
            KarmaClaimed {
                owner,
                cycle_index,
                delta_points,
                new_points: claimed_ledger(ledger, owner, cycle_index, delta_points).points,
            },
        ),
    }
}

/// Settles a claim whose leaf and inclusion path led to `computed_root`:
/// checks the cycle, the per-peer cap, the root and the replay guard, then
/// marks the slot and applies the delta to the ledger, creating it if it was
/// never written. On failure nothing changes.
pub fn settle_claim(
    cfg: &GlobalConfig,
    state: &mut CycleState,
    ledger: &mut PeerLedger,
    owner: &Pubkey,
    cycle_index: u64,
    delta_points: i32,
    leaf_index: u32,
    computed_root: &Digest,
) -> (r: Result<KarmaClaimed, ErrorCode>)
    ensures
        r == claim_result(*cfg, *old(state), *old(ledger), *owner, cycle_index, delta_points, leaf_index, computed_root@),
        same_header(*final(state), *old(state)),
        r is Ok ==> final(state).claims_bitmap@ == mark_slot(old(state).claims_bitmap@, leaf_index as nat)
            && *final(ledger) == claimed_ledger(*old(ledger), *owner, cycle_index, delta_points),
        r is Err ==> final(state).claims_bitmap@ == old(state).claims_bitmap@ && *final(ledger) == *old(ledger),
{
    if state.cycle_index != cycle_index {
        return Err(ErrorCode::InvalidCycle);
    }
    let magnitude: i64 = if delta_points < 0 {
        -(delta_points as i64)
    } else {
        delta_points as i64
    };
    if magnitude > cfg.per_peer_cycle_cap as i64 {
        return Err(ErrorCode::DeltaExceedsPerPeerCap);
    }
    if !keys_eq(computed_root, &state.merkle_root) {
        return Err(ErrorCode::InvalidMerkleProof);
    }
    if is_claimed(&state.claims_bitmap, leaf_index) {
        return Err(ErrorCode::ClaimAlreadyProcessed);
    }
    if (leaf_index / 8) as usize >= state.claims_bitmap.len() {
        return Err(ErrorCode::InvalidMerkleProof);
    }
    let fresh = key_is_unset(&ledger.owner);
    if !fresh && !keys_eq(&ledger.owner, owner) {
        return Err(ErrorCode::WrongLedgerOwner);
    }
    let start_points: i64 = if fresh {
        0
    } else {
        ledger.points
    };
    let start_last: u64 = if fresh {
        0
    } else {
        ledger.last_cycle_claimed
    };
    let sum: i128 = start_points as i128 + delta_points as i128;
    if sum > i64::MAX as i128 {
        return Err(ErrorCode::MathOverflow);
    }
    let new_points: i64 = if sum < i64::MIN as i128 {
        i64::MIN
    } else {
        sum as i64
    };
    let marked = set_claimed(&mut state.claims_bitmap, leaf_index);
    assert(marked is Ok);
    ledger.owner = *owner;
    ledger.points = new_points;
    ledger.last_cycle_claimed = if cycle_index > start_last {
        cycle_index
    } else {
        start_last
    };
    Ok(KarmaClaimed { owner: *owner, cycle_index, delta_points, new_points })
}

/// The root that a claim's leaf and inclusion path lead to.
pub open spec fn claim_root(owner: Pubkey, cycle_index: u64, delta_points: i32, leaf_index: u32, proof: Seq<Digest>) -> Seq<u8> {
    root_from(leaf_digest(owner@, cycle_index, delta_points, leaf_index), proof, leaf_index as nat)
}

/// Claims `delta_points` for `owner` in a cycle: recomputes the leaf
/// `owner || cycle_index || delta_points || leaf_index`, walks `proof` to a
/// root, and settles the claim against the cycle's committed root.
pub fn claim_karma(
    cfg: &GlobalConfig,
    state: &mut CycleState,
    ledger: &mut PeerLedger,
    owner: &Pubkey,
    cycle_index: u64,
    delta_points: i32,
    leaf_index: u32,
    proof: &Vec<Digest>,
) -> (r: Result<KarmaClaimed, ErrorCode>)
    ensures
        r == claim_result(
            *cfg,
            *old(state),
            *old(ledger),
            *owner,
            cycle_index,
            delta_points,
            leaf_index,
            claim_root(*owner, cycle_index, delta_points, leaf_index, proof@),
        ),
        same_header(*final(state), *old(state)),
        r is Ok ==> final(state).claims_bitmap@ == mark_slot(old(state).claims_bitmap@, leaf_index as nat)
            && *final(ledger) == claimed_ledger(*old(ledger), *owner, cycle_index, delta_points),
        r is Err ==> final(state).claims_bitmap@ == old(state).claims_bitmap@ && *final(ledger) == *old(ledger),
{
    let leaf = leaf_hash(owner, cycle_index, delta_points, leaf_index);
    let root = compute_merkle_root(leaf, proof, leaf_index);
    settle_claim(cfg, state, ledger, owner, cycle_index, delta_points, leaf_index, &root)
}

/// `10^p`: the base units in one whole token of `p` decimals.
pub open spec fn pow10_spec(p: nat) -> nat
    decreases p,
{
    if p == 0 {
        1
    } else {
        10 * pow10_spec((p - 1) as nat)
    }
}

proof fn lemma_pow10_monotonic(i: nat, j: nat)
    requires
        i <= j,
    ensures
        pow10_spec(i) <= pow10_spec(j),
    decreases j,
{
    if i < j {
        lemma_pow10_monotonic(i, (j - 1) as nat);
    }
}

proof fn lemma_pow10_bound(p: nat)
    requires
        p <= 19,
    ensures
        pow10_spec(p) <= 10_000_000_000_000_000_000,
{
    reveal_with_fuel(pow10_spec, 20);
    assert(pow10_spec(19) == 10_000_000_000_000_000_000);
    lemma_pow10_monotonic(p, 19);
}

/// `10^p`; powers beyond the 19th do not fit a `u64`.
pub fn pow10(p: u32) -> (r: u64)
    requires
        p <= 19,
    ensures
        r == pow10_spec(p as nat),
{
    let mut r: u64 = 1;
    let mut i: u32 = 0;
    while i < p
        invariant
            i <= p,
            p <= 19,
            r == pow10_spec(i as nat),
        decreases p - i,
    {
        proof {
            lemma_pow10_bound((i + 1) as nat);
        }
        r = r * 10;
        i = i + 1;
    }
    r
}

/// The configuration written at initialization.
pub open spec fn initial_config(
    governor: Pubkey,
    treasury: Pubkey,
    mint: Pubkey,
    mint_authority: Pubkey,
    start_ts: i64,
    decimals: u8,
) -> GlobalConfig {
    GlobalConfig {
        governor,
        treasury,
        mint,
        mint_authority,
        cycle_secs: DEFAULT_CYCLE_SECS,
        max_points_per_cycle: DEFAULT_MAX_POINTS_PER_CYCLE,
        per_peer_cycle_cap: DEFAULT_PER_PEER_CYCLE_CAP,
        conversion_ratio: DEFAULT_CONVERSION_RATIO,
        join_cost_tokens: (10 * pow10_spec(decimals as nat)) as u64,
        start_ts,
        airdrop_done: true,
        decimals,
    }
}

/// Settings that a fresh configuration starts from.
pub const DEFAULT_DECIMALS: u8 = 6;
pub const DEFAULT_CYCLE_SECS: u64 = 259_200;
pub const DEFAULT_MAX_POINTS_PER_CYCLE: u32 = 10_000;
pub const DEFAULT_PER_PEER_CYCLE_CAP: i32 = 100;
pub const DEFAULT_CONVERSION_RATIO: u32 = 100;

/// Sets up the configuration and sizes the initial airdrop. Returns the
/// configuration, its event, and the airdrop in base units, which the caller
/// mints to the recipient in the same transaction. Fails with `MathOverflow`
/// when the airdrop in base units does not fit a `u64`.
pub fn initialize(
    governor: Pubkey,
    treasury: Pubkey,
    treasury_account: Pubkey,
    mint: Pubkey,
    mint_authority: Pubkey,
    start_ts: i64,
    decimals: u8,
    airdrop_whole_tokens: u64,
) -> (r: Result<(GlobalConfig, Initialized, u64), ErrorCode>)
    requires
        decimals <= 18,
    ensures
        airdrop_whole_tokens * pow10_spec(decimals as nat) > u64::MAX ==> r == Err::<
            (GlobalConfig, Initialized, u64),
            ErrorCode,
        >(ErrorCode::MathOverflow),
        airdrop_whole_tokens * pow10_spec(decimals as nat) <= u64::MAX ==> r == Ok::<
            (GlobalConfig, Initialized, u64),
            ErrorCode,
        >(
            (
                initial_config(governor, treasury, mint, mint_authority, start_ts, decimals),
                Initialized { governor, mint, treasury: treasury_account },
                (airdrop_whole_tokens * pow10_spec(decimals as nat)) as u64,
            ),
        ),
{
    let unit = pow10(decimals as u32);
    proof {
        lemma_pow10_bound(decimals as nat + 1);
    }
    let join_cost_tokens = 10u64 * unit;
    let base_units = match airdrop_whole_tokens.checked_mul(unit) {
        Some(v) => v,
        None => {
            return Err(ErrorCode::MathOverflow);
        },
    };
    let cfg = GlobalConfig {
        governor,
        treasury,
        mint,
        mint_authority,
        cycle_secs: DEFAULT_CYCLE_SECS,
        max_points_per_cycle: DEFAULT_MAX_POINTS_PER_CYCLE,
        per_peer_cycle_cap: DEFAULT_PER_PEER_CYCLE_CAP,
        conversion_ratio: DEFAULT_CONVERSION_RATIO,
        join_cost_tokens,
        start_ts,
        airdrop_done: true,
        decimals,
    };
    Ok((cfg, Initialized { governor, mint, treasury: treasury_account }, base_units))
}

/// The configuration with each given value applied.
pub open spec fn updated_config(cfg: GlobalConfig, params: UpdateParams) -> GlobalConfig {
    GlobalConfig {
        cycle_secs: match params.cycle_secs {
            Some(v) => v,
            None => cfg.cycle_secs,
        },
        max_points_per_cycle: match params.max_points_per_cycle {
            Some(v) => v,
            None => cfg.max_points_per_cycle,
        },
        per_peer_cycle_cap: match params.per_peer_cycle_cap {
            Some(v) => v,
            None => cfg.per_peer_cycle_cap,
        },
        conversion_ratio: match params.conversion_ratio {
            Some(v) => v,
            None => cfg.conversion_ratio,
        },
        join_cost_tokens: match params.join_cost_tokens {
            Some(v) => v,
            None => cfg.join_cost_tokens,
        },
        treasury: match params.treasury_owner {
            Some(v) => v,
            None => cfg.treasury,
        },
        ..cfg
    }
}

/// Applies the given settings; only the governor may. Fails with
/// `Unauthorized`, leaving the configuration as it was, for anyone else.
pub fn update_config(cfg: &mut GlobalConfig, signer: &Pubkey, params: &UpdateParams) -> (r: Result<ConfigUpdated, ErrorCode>)
    ensures
        signer@ != old(cfg).governor@ ==> r == Err::<ConfigUpdated, ErrorCode>(ErrorCode::Unauthorized)
            && *final(cfg) == *old(cfg),
        signer@ == old(cfg).governor@ ==> *final(cfg) == updated_config(*old(cfg), *params) && r == Ok::<
            ConfigUpdated,
            ErrorCode,
        >(
            ConfigUpdated {
                cycle_secs: final(cfg).cycle_secs,
                max_points_per_cycle: final(cfg).max_points_per_cycle,
                per_peer_cycle_cap: final(cfg).per_peer_cycle_cap,
                conversion_ratio: final(cfg).conversion_ratio,
                join_cost_tokens: final(cfg).join_cost_tokens,
            },
        ),
{
    if !keys_eq(signer, &cfg.governor) {
        return Err(ErrorCode::Unauthorized);
    }
    if let Some(v) = params.cycle_secs {
        cfg.cycle_secs = v;
    }
    if let Some(v) = params.max_points_per_cycle {
        cfg.max_points_per_cycle = v;
    }
    if let Some(v) = params.per_peer_cycle_cap {
        cfg.per_peer_cycle_cap = v;
    }
    if let Some(v) = params.conversion_ratio {
        cfg.conversion_ratio = v;
    }
    if let Some(v) = params.join_cost_tokens {
        cfg.join_cost_tokens = v;
    }
    if let Some(v) = params.treasury_owner {
        cfg.treasury = v;
    }
    Ok(
        ConfigUpdated {
            cycle_secs: cfg.cycle_secs,
            max_points_per_cycle: cfg.max_points_per_cycle,
            per_peer_cycle_cap: cfg.per_peer_cycle_cap,
            conversion_ratio: cfg.conversion_ratio,
            join_cost_tokens: cfg.join_cost_tokens,
        },
    )
}

/// Bytes of a bitmap with one bit for each of `slots` claim slots.
pub open spec fn bitmap_bytes(slots: nat) -> nat {
    (slots + 7) / 8
}

/// The first check that opening a cycle fails, or `None`.
pub open spec fn open_cycle_error(cfg: GlobalConfig, signer: Pubkey, already_open: bool, total_points_declared: u32) -> Option<ErrorCode> {
    if signer@ != cfg.governor@ {
        Some(ErrorCode::Unauthorized)
    } else if already_open {
        Some(ErrorCode::CycleAlreadyInitialized)
    } else if total_points_declared > cfg.max_points_per_cycle {
        Some(ErrorCode::TotalPointsExceedsCycleCap)
    } else {
        None
    }
}

/// Opens a cycle: records its root and declared total, with a zeroed replay
/// bitmap of one bit per claim slot. `already_open` says whether a record for
/// `cycle_index` exists; an open cycle is never overwritten. The declared
/// total is not checked against the committed deltas: the committer is
/// trusted for it.
pub fn set_cycle_root(
    cfg: &GlobalConfig,
    signer: &Pubkey,
    already_open: bool,
    cycle_index: u64,
    merkle_root: Digest,
    total_points_declared: u32,
    claim_slot_count: u32,
) -> (r: Result<(CycleState, CycleRootSet), ErrorCode>)
    ensures
        open_cycle_error(*cfg, *signer, already_open, total_points_declared) is Some ==> r is Err && r->Err_0
            == open_cycle_error(*cfg, *signer, already_open, total_points_declared)->Some_0,
        open_cycle_error(*cfg, *signer, already_open, total_points_declared) is None ==> r is Ok && ({
            let (state, event) = r->Ok_0;
            &&& state.cycle_index == cycle_index
            &&& state.merkle_root == merkle_root
            &&& state.total_points_declared == total_points_declared
            &&& state.claims_bitmap@ == Seq::new(bitmap_bytes(claim_slot_count as nat), |i: int| 0u8)
            &&& event == CycleRootSet { cycle_index, merkle_root, total_points_declared }
        }),
{
    if !keys_eq(signer, &cfg.governor) {
        return Err(ErrorCode::Unauthorized);
    }
    if already_open {
        return Err(ErrorCode::CycleAlreadyInitialized);
    }
    if total_points_declared > cfg.max_points_per_cycle {
        return Err(ErrorCode::TotalPointsExceedsCycleCap);
    }
    let len: usize = (claim_slot_count / 8) as usize + if claim_slot_count % 8 != 0 {
        1usize
    } else {
        0usize
    };
    let mut bitmap: Vec<u8> = Vec::with_capacity(len);
    let mut i: usize = 0;
    while i < len
        invariant
            i <= len,
            bitmap@ == Seq::new(i as nat, |j: int| 0u8),
        decreases len - i,
    {
        bitmap.push(0u8);
        i = i + 1;
        assert(bitmap@ =~= Seq::new(i as nat, |j: int| 0u8));
    }
    assert(bitmap@ =~= Seq::new(bitmap_bytes(claim_slot_count as nat), |j: int| 0u8));
    let state = CycleState { cycle_index, merkle_root, total_points_declared, claims_bitmap: bitmap };
    Ok((state, CycleRootSet { cycle_index, merkle_root, total_points_declared }))
}

/// Account space of a cycle record whose bitmap holds `bitmap_len` bytes.
pub fn space_for(bitmap_len: u32) -> (r: usize)
    requires
        73 + bitmap_len <= usize::MAX,
    ensures
        r == 73 + bitmap_len,
{
    73 + bitmap_len as usize
}

/// The outcome of converting `tokens` whole tokens for `owner`: the event,
/// and the base units to mint.
pub open spec fn convert_result(cfg: GlobalConfig, ledger: PeerLedger, owner: Pubkey, tokens: u64) -> Result<(PointsConverted, u64), ErrorCode> {
    if ledger.owner@ != owner@ {
        Err(ErrorCode::WrongLedgerOwner)
    } else if tokens as int > (ledger.points as int) / (cfg.conversion_ratio as int) {
        Err(ErrorCode::InsufficientPointsToConvert)
    } else if tokens * pow10_spec(cfg.decimals as nat) > u64::MAX {
        Err(ErrorCode::MathOverflow)
    } else {
        Ok(
            (
                PointsConverted { owner, tokens_minted: tokens, points_spent: (tokens * cfg.conversion_ratio) as u64 },
                (tokens * pow10_spec(cfg.decimals as nat)) as u64,
            ),
        )
    }
}

proof fn lemma_scaled_bound(amount: nat, i: nat, d: nat)
    requires
        i <= d,
    ensures
        pow10_spec(i + 1) == 10 * pow10_spec(i),
        amount * pow10_spec(i + 1) == (amount * pow10_spec(i)) * 10,
        i < d ==> amount * pow10_spec(i + 1) <= amount * pow10_spec(d),
{
    let p = pow10_spec(i);
    assert(pow10_spec(i + 1) == 10 * p);
    assert(amount * (10 * p) == (amount * p) * 10) by (nonlinear_arith);
    if i < d {
        lemma_pow10_monotonic(i + 1, d);
        let q = pow10_spec(d);
        assert(amount * pow10_spec(i + 1) <= amount * q) by (nonlinear_arith)
            requires
                pow10_spec(i + 1) <= q,
        ;
    }
}

/// `amount` whole tokens in base units of `decimals` decimals, or `None`
/// when that does not fit a `u64`.
pub fn to_base_units(amount: u64, decimals: u8) -> (r: Option<u64>)
    ensures
        amount * pow10_spec(decimals as nat) <= u64::MAX ==> r == Some((amount * pow10_spec(decimals as nat)) as u64),
        amount * pow10_spec(decimals as nat) > u64::MAX ==> r is None,
{
    let mut v: u64 = amount;
    let mut i: u8 = 0;
    assert(pow10_spec(0) == 1);
    while i < decimals
        invariant
            i <= decimals,
            v == amount * pow10_spec(i as nat),
        decreases decimals - i,
    {
        proof {
            lemma_scaled_bound(amount as nat, i as nat, decimals as nat);
        }
        match v.checked_mul(10) {
            Some(w) => {
                v = w;
            },
            None => {
                return None;
            },
        }
        i = i + 1;
    }
    Some(v)
}

/// Converts points into whole tokens at the configured ratio: the ledger must
/// hold at least `tokens` whole tokens' worth, `floor(points / ratio)`, and
/// is debited exactly `tokens * ratio` points. Returns the base units that
/// the caller mints to the owner's account in the same transaction. On
/// failure nothing changes.
pub fn convert_points_to_tokens(
    cfg: &GlobalConfig,
    ledger: &mut PeerLedger,
    owner: &Pubkey,
    tokens_to_mint_whole: u64,
) -> (r: Result<(PointsConverted, u64), ErrorCode>)
    requires
        cfg.conversion_ratio > 0,
    ensures
        r == convert_result(*cfg, *old(ledger), *owner, tokens_to_mint_whole),
        r is Ok ==> *final(ledger) == (PeerLedger {
            points: (old(ledger).points - tokens_to_mint_whole * cfg.conversion_ratio) as i64,
            ..*old(ledger)
        }),
        r is Err ==> *final(ledger) == *old(ledger),
{
    if !keys_eq(&ledger.owner, owner) {
        return Err(ErrorCode::WrongLedgerOwner);
    }
    assert(tokens_to_mint_whole * cfg.conversion_ratio <= u64::MAX * u32::MAX) by (nonlinear_arith)
        requires
            tokens_to_mint_whole <= u64::MAX,
            cfg.conversion_ratio <= u32::MAX,
    ;
    let needed: u128 = tokens_to_mint_whole as u128 * cfg.conversion_ratio as u128;
    proof {
        lemma_floor_div_bound(tokens_to_mint_whole as int, ledger.points as int, cfg.conversion_ratio as int);
    }
    if ledger.points < 0 || needed > ledger.points as u128 {
        return Err(ErrorCode::InsufficientPointsToConvert);
    }
    let needed_points: i64 = needed as i64;
    let base_units = match to_base_units(tokens_to_mint_whole, cfg.decimals) {
        Some(v) => v,
        None => {
            return Err(ErrorCode::MathOverflow);
        },
    };
    ledger.points = ledger.points - needed_points;
    Ok(
        (
            PointsConverted { owner: *owner, tokens_minted: tokens_to_mint_whole, points_spent: needed as u64 },
            base_units,
        ),
    )
}

/// For a positive ratio, `n <= floor(p / ratio)` exactly when `n * ratio <= p`.
proof fn lemma_floor_div_bound(n: int, p: int, ratio: int)
    requires
        ratio > 0,
        n >= 0,
    ensures
        (n <= p / ratio) == (n * ratio <= p),
{
    assert((n <= p / ratio) == (n * ratio <= p)) by (nonlinear_arith)
        requires
            ratio > 0,
            n >= 0,
    ;
}

/// The outcome of joining: the event and the fee to transfer to the treasury.
pub open spec fn join_result(cfg: GlobalConfig, membership: Membership, member: Pubkey) -> Result<(Joined, u64), ErrorCode> {
    if !is_unset(membership.owner@) && membership.owner@ != member@ {
        Err(ErrorCode::WrongMembershipOwner)
    } else {
        Ok((Joined { member }, cfg.join_cost_tokens))
    }
}

/// Activates `member`'s membership, creating the record if it was never
/// written and reactivating it otherwise. Returns the join fee that the
/// caller transfers to the treasury in the same transaction. On failure
/// nothing changes.
pub fn join_network(cfg: &GlobalConfig, membership: &mut Membership, member: &Pubkey, now: i64) -> (r: Result<(Joined, u64), ErrorCode>)
    ensures
        r == join_result(*cfg, *old(membership), *member),
        r is Ok ==> *final(membership) == (Membership { owner: *member, joined_at: now, active: true }),
        r is Err ==> *final(membership) == *old(membership),
{
    if !key_is_unset(&membership.owner) && !keys_eq(&membership.owner, member) {
        return Err(ErrorCode::WrongMembershipOwner);
    }
    membership.owner = *member;
    membership.active = true;
    membership.joined_at = now;
    Ok((Joined { member: *member }, cfg.join_cost_tokens))
}

/// Deactivates `member`'s membership, keeping its record; only the governor
/// may. On failure nothing changes.
pub fn deactivate_membership(cfg: &GlobalConfig, signer: &Pubkey, membership: &mut Membership, member: &Pubkey) -> (r: Result<(), ErrorCode>)
    ensures
        signer@ != cfg.governor@ ==> r == Err::<(), ErrorCode>(ErrorCode::Unauthorized),
        signer@ == cfg.governor@ && old(membership).owner@ != member@ ==> r == Err::<(), ErrorCode>(
            ErrorCode::WrongMembershipOwner,
        ),
        signer@ == cfg.governor@ && old(membership).owner@ == member@ ==> r is Ok,
        r is Ok ==> *final(membership) == (Membership { active: false, ..*old(membership) }),
        r is Err ==> *final(membership) == *old(membership),
{
    if !keys_eq(signer, &cfg.governor) {
        return Err(ErrorCode::Unauthorized);
    }
    if !keys_eq(&membership.owner, member) {
        return Err(ErrorCode::WrongMembershipOwner);
    }
    membership.active = false;
    Ok(())
}

/// Replay safety: once a claim on a slot has been accepted, every later
/// claim on the same cycle and slot whose proof leads to the committed root
/// and whose delta is within the cap is refused as already processed,
/// whatever its owner, its delta and the ledger it targets.
pub proof fn lemma_claim_replay_rejected(
    cfg: GlobalConfig,
    state: CycleState,
    ledger: PeerLedger,
    owner: Pubkey,
    cycle_index: u64,
    delta_points: i32,
    leaf_index: u32,
    root: Seq<u8>,
    after: CycleState,
    cfg2: GlobalConfig,
    ledger2: PeerLedger,
    owner2: Pubkey,
    delta2: i32,
    root2: Seq<u8>,
)
    requires
        claim_error(cfg, state, ledger, owner, cycle_index, delta_points, leaf_index, root) is None,
        same_header(after, state),
        after.claims_bitmap@ == mark_slot(state.claims_bitmap@, leaf_index as nat),
        abs_i32(delta2) <= cfg2.per_peer_cycle_cap,
        root2 == after.merkle_root@,
    ensures
        claim_error(cfg2, after, ledger2, owner2, cycle_index, delta2, leaf_index, root2) == Some(
            ErrorCode::ClaimAlreadyProcessed,
        ),
{
    crate::bitmap::lemma_mark_slot(state.claims_bitmap@, leaf_index as nat, leaf_index as nat);
}

/// Proof soundness: a claim is accepted only when the root recomputed from
/// its owner, cycle, delta, slot and inclusion path equals the cycle's
/// committed root; and when every other check passes, a matching root is
/// enough.
pub proof fn lemma_claim_accepted_iff_root_matches(
    cfg: GlobalConfig,
    state: CycleState,
    ledger: PeerLedger,
    owner: Pubkey,
    cycle_index: u64,
    delta_points: i32,
    leaf_index: u32,
    proof: Seq<Digest>,
)
    ensures
        claim_error(cfg, state, ledger, owner, cycle_index, delta_points, leaf_index, claim_root(owner, cycle_index, delta_points, leaf_index, proof)) is None
            ==> claim_root(owner, cycle_index, delta_points, leaf_index, proof) == state.merkle_root@,
        ({
            &&& state.cycle_index == cycle_index
            &&& abs_i32(delta_points) <= cfg.per_peer_cycle_cap
            &&& !slot_marked(state.claims_bitmap@, leaf_index as nat)
            &&& leaf_index / 8 < state.claims_bitmap@.len()
            &&& (is_unset(ledger.owner@) || ledger.owner@ == owner@)
            &&& moved_points(base_points(ledger), delta_points) <= i64::MAX
        }) ==> (claim_error(cfg, state, ledger, owner, cycle_index, delta_points, leaf_index, claim_root(owner, cycle_index, delta_points, leaf_index, proof)) is None
            <==> claim_root(owner, cycle_index, delta_points, leaf_index, proof) == state.merkle_root@),
{
}

/// Cap enforcement: on the cycle it names, a claim whose delta exceeds the
/// per-peer cap in absolute value is refused for that reason, whatever its
/// proof.
pub proof fn lemma_claim_cap_enforced(
    cfg: GlobalConfig,
    state: CycleState,
    ledger: PeerLedger,
    owner: Pubkey,
    delta_points: i32,
    leaf_index: u32,
    root: Seq<u8>,
)
    requires
        abs_i32(delta_points) > cfg.per_peer_cycle_cap,
    ensures
        claim_error(cfg, state, ledger, owner, state.cycle_index, delta_points, leaf_index, root) == Some(
            ErrorCode::DeltaExceedsPerPeerCap,
        ),
{
}

/// A conversion of more whole tokens than an `i64` balance can ever cover
/// is refused for want of points.
pub proof fn lemma_oversized_conversion_refused(cfg: GlobalConfig, ledger: PeerLedger, owner: Pubkey, tokens: u64)
    requires
        cfg.conversion_ratio > 0,
        ledger.owner@ == owner@,
        tokens > i64::MAX,
    ensures
        convert_result(cfg, ledger, owner, tokens) is Err,
        convert_result(cfg, ledger, owner, tokens)->Err_0 == ErrorCode::InsufficientPointsToConvert,
{
    let p = ledger.points as int;
    let q = cfg.conversion_ratio as int;
    assert(p / q <= i64::MAX) by (nonlinear_arith)
        requires
            p <= i64::MAX,
            q > 0,
    ;
}

} // verus!
