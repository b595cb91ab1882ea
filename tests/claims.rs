use anchor_lang::solana_program::keccak::hashv;
use seka::bitmap::{is_claimed, set_claimed};
use seka::bytes::{cycle_index_le, keys_eq, Pubkey};
use seka::error::ErrorCode;
use seka::merkle::{compute_merkle_root, leaf_hash, serialize_leaf};
use seka::claims::{
    claim_karma, convert_points_to_tokens, deactivate_membership, initialize, join_network, pow10,
    set_cycle_root, settle_claim, space_for, to_base_units, update_config, CycleState, GlobalConfig, Membership,
    PeerLedger, UpdateParams,
};

const GOVERNOR: Pubkey = [1u8; 32];
const OWNER_A: Pubkey = [0xAAu8; 32];
const OWNER_B: Pubkey = [0xBBu8; 32];
const UNSET: Pubkey = [0u8; 32];

fn config() -> GlobalConfig {
    let (cfg, _, _) = initialize(GOVERNOR, [2u8; 32], [3u8; 32], [4u8; 32], [5u8; 32], 1_000, 6, 0).unwrap();
    cfg
}

fn empty_ledger() -> PeerLedger {
    PeerLedger { owner: UNSET, points: 0, last_cycle_claimed: 0 }
}

fn open(cfg: &GlobalConfig, cycle: u64, root: [u8; 32], slots: u32) -> CycleState {
    set_cycle_root(cfg, &GOVERNOR, false, cycle, root, 50, slots).unwrap().0
}

fn keccak_pair(a: &[u8; 32], b: &[u8; 32]) -> [u8; 32] {
    hashv(&[&a[..], &b[..]]).0
}

#[test]
fn single_leaf_claim_then_replay() {
    let cfg = config();
    let leaf = leaf_hash(&OWNER_A, 0, 10, 0);
    let mut state = open(&cfg, 0, leaf, 1);
    let mut ledger = empty_ledger();
    let ev = claim_karma(&cfg, &mut state, &mut ledger, &OWNER_A, 0, 10, 0, &vec![]).unwrap();
    assert_eq!(ev.new_points, 10);
    assert_eq!(ledger.points, 10);
    assert_eq!(ledger.owner, OWNER_A);
    let again = claim_karma(&cfg, &mut state, &mut ledger, &OWNER_A, 0, 10, 0, &vec![]);
    assert_eq!(again.unwrap_err(), ErrorCode::ClaimAlreadyProcessed);
    assert_eq!(ledger.points, 10);
}

#[test]
fn leaf_hash_is_keccak_of_encoding() {
    let bytes = serialize_leaf(&OWNER_A, 0x0102030405060708, -2, 0x0A0B0C0D);
    let mut expected = OWNER_A.to_vec();
    expected.extend_from_slice(&[8, 7, 6, 5, 4, 3, 2, 1]);
    expected.extend_from_slice(&[0xFE, 0xFF, 0xFF, 0xFF]);
    expected.extend_from_slice(&[0x0D, 0x0C, 0x0B, 0x0A]);
    assert_eq!(bytes, expected);
    let digest = leaf_hash(&OWNER_A, 0x0102030405060708, -2, 0x0A0B0C0D);
    assert_eq!(digest, hashv(&[&expected[..]]).0);
    assert_ne!(&digest[..], &expected[..32]);
}

#[test]
fn two_leaf_tree_claims_both_slots() {
    let cfg = config();
    let l0 = leaf_hash(&OWNER_A, 3, 5, 0);
    let l1 = leaf_hash(&OWNER_B, 3, -4, 1);
    let root = keccak_pair(&l0, &l1);
    assert_eq!(compute_merkle_root(l0, &vec![l1], 0), root);
    assert_eq!(compute_merkle_root(l1, &vec![l0], 1), root);
    let mut state = open(&cfg, 3, root, 2);
    let mut ledger_a = empty_ledger();
    let mut ledger_b = empty_ledger();
    claim_karma(&cfg, &mut state, &mut ledger_a, &OWNER_A, 3, 5, 0, &vec![l1]).unwrap();
    claim_karma(&cfg, &mut state, &mut ledger_b, &OWNER_B, 3, -4, 1, &vec![l0]).unwrap();
    assert_eq!(ledger_a.points, 5);
    assert_eq!(ledger_a.last_cycle_claimed, 3);
    // A penalty may take a balance below zero.
    assert_eq!(ledger_b.points, -4);
    assert!(is_claimed(&state.claims_bitmap, 0));
    assert!(is_claimed(&state.claims_bitmap, 1));
    assert!(!is_claimed(&state.claims_bitmap, 2));
}

#[test]
fn flipped_byte_is_invalid_proof() {
    let cfg = config();
    let l0 = leaf_hash(&OWNER_A, 1, 5, 0);
    let l1 = leaf_hash(&OWNER_B, 1, 6, 1);
    let root = keccak_pair(&l0, &l1);
    let mut state = open(&cfg, 1, root, 2);
    let mut ledger = empty_ledger();
    let mut bad = l1;
    bad[7] ^= 1;
    let r = claim_karma(&cfg, &mut state, &mut ledger, &OWNER_A, 1, 5, 0, &vec![bad]);
    assert_eq!(r.unwrap_err(), ErrorCode::InvalidMerkleProof);
    let r = claim_karma(&cfg, &mut state, &mut ledger, &OWNER_A, 1, 6, 0, &vec![l1]);
    assert_eq!(r.unwrap_err(), ErrorCode::InvalidMerkleProof);
    let r = claim_karma(&cfg, &mut state, &mut ledger, &OWNER_A, 1, 5, 1, &vec![l1]);
    assert_eq!(r.unwrap_err(), ErrorCode::InvalidMerkleProof);
    assert_eq!(state.claims_bitmap, vec![0u8]);
    assert_eq!(ledger.owner, UNSET);
}

#[test]
fn cap_and_cycle_checks() {
    let cfg = config();
    let leaf = leaf_hash(&OWNER_A, 0, 101, 0);
    let mut state = open(&cfg, 0, leaf, 8);
    let mut ledger = empty_ledger();
    let r = claim_karma(&cfg, &mut state, &mut ledger, &OWNER_A, 0, 101, 0, &vec![]);
    assert_eq!(r.unwrap_err(), ErrorCode::DeltaExceedsPerPeerCap);
    let r = claim_karma(&cfg, &mut state, &mut ledger, &OWNER_A, 0, -101, 0, &vec![]);
    assert_eq!(r.unwrap_err(), ErrorCode::DeltaExceedsPerPeerCap);
    let r = claim_karma(&cfg, &mut state, &mut ledger, &OWNER_A, 0, i32::MIN, 0, &vec![]);
    assert_eq!(r.unwrap_err(), ErrorCode::DeltaExceedsPerPeerCap);
    let r = claim_karma(&cfg, &mut state, &mut ledger, &OWNER_A, 1, 101, 0, &vec![]);
    assert_eq!(r.unwrap_err(), ErrorCode::InvalidCycle);
}

#[test]
fn slot_outside_bitmap_is_invalid_proof() {
    let cfg = config();
    let leaf = leaf_hash(&OWNER_A, 0, 1, 8);
    let mut state = open(&cfg, 0, leaf, 8);
    assert_eq!(state.claims_bitmap.len(), 1);
    let mut ledger = empty_ledger();
    let r = claim_karma(&cfg, &mut state, &mut ledger, &OWNER_A, 0, 1, 8, &vec![]);
    assert_eq!(r.unwrap_err(), ErrorCode::InvalidMerkleProof);
}

#[test]
fn ledger_of_another_owner_is_refused() {
    let cfg = config();
    let leaf = leaf_hash(&OWNER_A, 0, 1, 0);
    let mut state = open(&cfg, 0, leaf, 1);
    let mut ledger = PeerLedger { owner: OWNER_B, points: 7, last_cycle_claimed: 0 };
    let r = claim_karma(&cfg, &mut state, &mut ledger, &OWNER_A, 0, 1, 0, &vec![]);
    assert_eq!(r.unwrap_err(), ErrorCode::WrongLedgerOwner);
    assert!(!is_claimed(&state.claims_bitmap, 0));
}

#[test]
fn settle_claim_overflow_and_saturation() {
    let cfg = config();
    let root = [9u8; 32];
    let mut state = CycleState { cycle_index: 4, merkle_root: root, total_points_declared: 0, claims_bitmap: vec![0u8] };
    let mut ledger = PeerLedger { owner: OWNER_A, points: i64::MAX, last_cycle_claimed: 9 };
    let r = settle_claim(&cfg, &mut state, &mut ledger, &OWNER_A, 4, 1, 0, &root);
    assert_eq!(r.unwrap_err(), ErrorCode::MathOverflow);
    assert_eq!(state.claims_bitmap, vec![0u8]);
    let mut low = PeerLedger { owner: OWNER_A, points: i64::MIN + 3, last_cycle_claimed: 9 };
    let ev = settle_claim(&cfg, &mut state, &mut low, &OWNER_A, 4, -50, 0, &root).unwrap();
    assert_eq!(ev.new_points, i64::MIN);
    assert_eq!(low.last_cycle_claimed, 9);
    assert_eq!(state.claims_bitmap, vec![1u8]);
}

#[test]
fn conversion_debits_exactly() {
    let cfg = config();
    let mut ledger = PeerLedger { owner: OWNER_A, points: 350, last_cycle_claimed: 0 };
    let (ev, base) = convert_points_to_tokens(&cfg, &mut ledger, &OWNER_A, 3).unwrap();
    assert_eq!(ledger.points, 50);
    assert_eq!(ev.points_spent, 300);
    assert_eq!(ev.tokens_minted, 3);
    assert_eq!(base, 3_000_000);
    let r = convert_points_to_tokens(&cfg, &mut ledger, &OWNER_A, 1);
    assert_eq!(r.unwrap_err(), ErrorCode::InsufficientPointsToConvert);
    let r = convert_points_to_tokens(&cfg, &mut ledger, &OWNER_B, 0);
    assert_eq!(r.unwrap_err(), ErrorCode::WrongLedgerOwner);
    let r = convert_points_to_tokens(&cfg, &mut ledger, &OWNER_A, u64::MAX);
    assert_eq!(r.unwrap_err(), ErrorCode::InsufficientPointsToConvert);
    assert_eq!(ledger.points, 50);
}

#[test]
fn oversized_conversion_of_empty_ledger() {
    let mut cfg = config();
    cfg.decimals = 0;
    let mut ledger = PeerLedger { owner: OWNER_A, points: 0, last_cycle_claimed: 0 };
    let r = convert_points_to_tokens(&cfg, &mut ledger, &OWNER_A, u64::MAX);
    assert_eq!(r.unwrap_err(), ErrorCode::InsufficientPointsToConvert);
    let r = convert_points_to_tokens(&cfg, &mut ledger, &OWNER_A, (i64::MAX as u64) + 1);
    assert_eq!(r.unwrap_err(), ErrorCode::InsufficientPointsToConvert);
}

#[test]
fn base_units_beyond_u64() {
    assert_eq!(to_base_units(3, 6), Some(3_000_000));
    assert_eq!(to_base_units(0, 40), Some(0));
    assert_eq!(to_base_units(1, 19), Some(10_000_000_000_000_000_000));
    assert_eq!(to_base_units(2, 19), None);
    assert_eq!(to_base_units(1, 20), None);
    let mut cfg = config();
    cfg.decimals = 30;
    let mut ledger = PeerLedger { owner: OWNER_A, points: 500, last_cycle_claimed: 0 };
    let (ev, base) = convert_points_to_tokens(&cfg, &mut ledger, &OWNER_A, 0).unwrap();
    assert_eq!(base, 0);
    assert_eq!(ev.points_spent, 0);
    let r = convert_points_to_tokens(&cfg, &mut ledger, &OWNER_A, 1);
    assert_eq!(r.unwrap_err(), ErrorCode::MathOverflow);
    assert_eq!(ledger.points, 500);
}

#[test]
fn conversion_of_negative_balance_fails() {
    let cfg = config();
    let mut ledger = PeerLedger { owner: OWNER_A, points: -50, last_cycle_claimed: 0 };
    let r = convert_points_to_tokens(&cfg, &mut ledger, &OWNER_A, 0);
    assert_eq!(r.unwrap_err(), ErrorCode::InsufficientPointsToConvert);
    assert_eq!(ledger.points, -50);
}

#[test]
fn conversion_base_units_overflow() {
    let mut cfg = config();
    cfg.decimals = 19;
    cfg.conversion_ratio = 1;
    let mut ledger = PeerLedger { owner: OWNER_A, points: 10, last_cycle_claimed: 0 };
    let r = convert_points_to_tokens(&cfg, &mut ledger, &OWNER_A, 2);
    assert_eq!(r.unwrap_err(), ErrorCode::MathOverflow);
    assert_eq!(ledger.points, 10);
}

#[test]
fn initialize_sets_defaults() {
    let (cfg, ev, base) = initialize(GOVERNOR, [2u8; 32], [3u8; 32], [4u8; 32], [5u8; 32], 77, 6, 10_000).unwrap();
    assert_eq!(base, 10_000_000_000);
    assert_eq!(cfg.join_cost_tokens, 10_000_000);
    assert_eq!(cfg.cycle_secs, 259_200);
    assert_eq!(cfg.max_points_per_cycle, 10_000);
    assert_eq!(cfg.per_peer_cycle_cap, 100);
    assert_eq!(cfg.conversion_ratio, 100);
    assert!(cfg.airdrop_done);
    assert_eq!(ev.treasury, [3u8; 32]);
    assert_eq!(cfg.treasury, [2u8; 32]);
    let r = initialize(GOVERNOR, [2u8; 32], [3u8; 32], [4u8; 32], [5u8; 32], 77, 18, 100);
    assert_eq!(r.unwrap_err(), ErrorCode::MathOverflow);
}

#[test]
fn pow10_values() {
    assert_eq!(pow10(0), 1);
    assert_eq!(pow10(6), 1_000_000);
    assert_eq!(pow10(19), 10_000_000_000_000_000_000);
}

#[test]
fn update_config_by_governor_only() {
    let mut cfg = config();
    let params = UpdateParams {
        cycle_secs: Some(60),
        max_points_per_cycle: None,
        per_peer_cycle_cap: Some(5),
        conversion_ratio: None,
        join_cost_tokens: Some(1),
        treasury_owner: Some([8u8; 32]),
    };
    let r = update_config(&mut cfg, &OWNER_A, &params);
    assert_eq!(r.unwrap_err(), ErrorCode::Unauthorized);
    assert_eq!(cfg.cycle_secs, 259_200);
    let ev = update_config(&mut cfg, &GOVERNOR, &params).unwrap();
    assert_eq!(ev.cycle_secs, 60);
    assert_eq!(ev.per_peer_cycle_cap, 5);
    assert_eq!(ev.max_points_per_cycle, 10_000);
    assert_eq!(cfg.join_cost_tokens, 1);
    assert_eq!(cfg.treasury, [8u8; 32]);
    assert_eq!(cfg.conversion_ratio, 100);
}

#[test]
fn open_cycle_checks() {
    let cfg = config();
    let r = set_cycle_root(&cfg, &OWNER_A, false, 0, [0u8; 32], 1, 1);
    assert_eq!(r.unwrap_err(), ErrorCode::Unauthorized);
    let r = set_cycle_root(&cfg, &GOVERNOR, true, 0, [0u8; 32], 1, 1);
    assert_eq!(r.unwrap_err(), ErrorCode::CycleAlreadyInitialized);
    let r = set_cycle_root(&cfg, &GOVERNOR, false, 0, [0u8; 32], 10_001, 1);
    assert_eq!(r.unwrap_err(), ErrorCode::TotalPointsExceedsCycleCap);
    let (state, ev) = set_cycle_root(&cfg, &GOVERNOR, false, 5, [6u8; 32], 10_000, 17).unwrap();
    assert_eq!(state.claims_bitmap, vec![0u8, 0, 0]);
    assert_eq!(ev.cycle_index, 5);
    assert_eq!(ev.total_points_declared, 10_000);
    let (empty, _) = set_cycle_root(&cfg, &GOVERNOR, false, 6, [6u8; 32], 0, 0).unwrap();
    assert!(empty.claims_bitmap.is_empty());
}

#[test]
fn bitmap_set_and_read() {
    let mut bm = vec![0u8, 0u8];
    assert_eq!(set_claimed(&mut bm, 9), Ok(()));
    assert_eq!(bm, vec![0u8, 2u8]);
    assert!(is_claimed(&bm, 9));
    assert!(!is_claimed(&bm, 8));
    assert!(!is_claimed(&bm, 100));
    assert_eq!(set_claimed(&mut bm, 16), Err(ErrorCode::InvalidMerkleProof));
    assert_eq!(bm, vec![0u8, 2u8]);
}

#[test]
fn membership_join_and_deactivate() {
    let cfg = config();
    let mut m = Membership { owner: UNSET, joined_at: 0, active: false };
    let (ev, fee) = join_network(&cfg, &mut m, &OWNER_A, 42).unwrap();
    assert_eq!(ev.member, OWNER_A);
    assert_eq!(fee, 10_000_000);
    assert!(m.active);
    assert_eq!(m.joined_at, 42);
    let r = deactivate_membership(&cfg, &OWNER_A, &mut m, &OWNER_A);
    assert_eq!(r, Err(ErrorCode::Unauthorized));
    let r = deactivate_membership(&cfg, &GOVERNOR, &mut m, &OWNER_B);
    assert_eq!(r, Err(ErrorCode::WrongMembershipOwner));
    assert_eq!(deactivate_membership(&cfg, &GOVERNOR, &mut m, &OWNER_A), Ok(()));
    assert!(!m.active);
    assert_eq!(m.owner, OWNER_A);
    join_network(&cfg, &mut m, &OWNER_A, 50).unwrap();
    assert!(m.active);
    assert_eq!(m.joined_at, 50);
    let r = join_network(&cfg, &mut m, &OWNER_B, 51);
    assert_eq!(r.unwrap_err(), ErrorCode::WrongMembershipOwner);
    assert_eq!(m.joined_at, 50);
}

#[test]
fn small_helpers() {
    assert_eq!(space_for(3), 76);
    assert_eq!(cycle_index_le(&0x0102u64), [2, 1, 0, 0, 0, 0, 0, 0]);
    assert!(keys_eq(&OWNER_A, &OWNER_A));
    assert!(!keys_eq(&OWNER_A, &OWNER_B));
}
