//! Proportional settlement: live karma counters fed by engagement, turned
//! into capped pro-rata reward mints at the end of each cycle.

use vstd::prelude::*;
use crate::bytes::{Pubkey, Digest, keys_eq};
use crate::error::SentinelError;

verus! {

pub const SENTINEL_DECIMALS: u8 = 9;
/// Join fee, in base units.
pub const JOIN_COST: u64 = 1_000_000_000_000;
/// Reward pool of one cycle, in base units.
pub const CYCLE_REWARD_TOTAL: u64 = 1_000_000_000_000;
/// Largest share of the pool one peer may receive, in percent.
pub const MAX_PEER_REWARD_PCT: u64 = 10;
pub const CYCLE_SECONDS: i64 = 7_200;
/// Supply minted to the authority at initialization, in base units.
pub const INITIAL_MINT_SUPPLY: u64 = 100_000_000_000_000;

/// The network's singleton state.
#[derive(Clone, Copy, Debug)]
pub struct State {
    pub authority: Pubkey,
    pub sentinel_mint: Pubkey,
    pub treasury_vault: Pubkey,
    pub cycle_start_ts: i64,
    pub cycle_index: u64,
}

/// The record that owns the treasury's token account.
#[derive(Clone, Copy, Debug)]
pub struct TreasuryVault {}

/// A peer's membership and karma counter.
#[derive(Clone, Copy, Debug)]
pub struct PeerState {
    pub user: Pubkey,
    pub active: bool,
    pub karma: u64,
}

/// A piece of content and its engagement count.
#[derive(Clone, Copy, Debug)]
pub struct Post {
    pub owner: Pubkey,
    pub nft_mint: Pubkey,
    pub hash: Digest,
    pub db_addr: Pubkey,
    pub likes: u64,
    pub cycle_index: u64,
}

/// One engagement of `liker` with the content at `post`.
#[derive(Clone, Copy, Debug)]
pub struct Like {
    pub liker: Pubkey,
    pub post: Pubkey,
}

/// The owner and mint of a token account.
#[derive(Clone, Copy, Debug)]
pub struct TokenAccountRef {
    pub mint: Pubkey,
    pub owner: Pubkey,
}

/// A reward to mint: `amount` base units to `destination`, the reward
/// account of `peer`.
#[derive(Clone, Copy, Debug)]
pub struct RewardMint {
    pub peer: Pubkey,
    pub destination: Pubkey,
    pub amount: u64,
}

/// The associated token account of a wallet for a mint, or `None` when no
/// bump seed gives a valid address for it.
pub uninterp spec fn associated_address_of(wallet: Seq<u8>, mint: Seq<u8>) -> Option<Seq<u8>>;

/// Relies on `Pubkey::try_find_program_address` with the seeds
/// `[wallet, token program, mint]` under the associated-token program, the
/// derivation of an associated token account. Whether it finds an address,
/// and which, depends on the wallet and the mint alone (the program ids are
/// fixed); it returns `None`, and does not panic, when no bump seed gives an
/// address off the curve.
#[verifier::external_body]
fn associated_token_address(wallet: &Pubkey, mint: &Pubkey) -> (r: Option<Pubkey>)
    ensures
        r is Some <==> associated_address_of(wallet@, mint@) is Some,
        r is Some ==> r->Some_0@ == associated_address_of(wallet@, mint@)->Some_0,
{
    anchor_lang::prelude::Pubkey::try_find_program_address(
        &[&wallet[..], &anchor_spl::token::ID.to_bytes(), &mint[..]],
        &anchor_spl::associated_token::ID,
    ).map(|(address, _bump)| address.to_bytes())
}

/// Sets up the network state, with the first cycle starting `now`. Returns
/// the state and the supply that the caller mints to the authority.
pub fn initialize(authority: Pubkey, sentinel_mint: Pubkey, treasury_vault: Pubkey, now: i64) -> (r: (State, u64))
    ensures
        r.0 == (State { authority, sentinel_mint, treasury_vault, cycle_start_ts: now, cycle_index: 0 }),
        r.1 == INITIAL_MINT_SUPPLY,
{
    (State { authority, sentinel_mint, treasury_vault, cycle_start_ts: now, cycle_index: 0 }, INITIAL_MINT_SUPPLY)
}

/// Whether a token account holds the network's token and belongs to `owner`.
pub open spec fn account_fits(account: TokenAccountRef, mint: Pubkey, owner: Pubkey) -> bool {
    account.mint@ == mint@ && account.owner@ == owner@
}

/// Admits `user` as an active peer with no karma. Both token accounts must
/// hold the network's token, the user's belonging to the user and the
/// treasury's to the vault. Returns the peer record and the fee that the
/// caller transfers from the user to the treasury.
pub fn join_network(state: &State, user: &Pubkey, user_account: &TokenAccountRef, treasury_account: &TokenAccountRef) -> (r: Result<(PeerState, u64), SentinelError>)
    ensures
        account_fits(*user_account, state.sentinel_mint, *user) && account_fits(
            *treasury_account,
            state.sentinel_mint,
            state.treasury_vault,
        ) ==> r == Ok::<(PeerState, u64), SentinelError>(
            (PeerState { user: *user, active: true, karma: 0 }, JOIN_COST),
        ),
        !(account_fits(*user_account, state.sentinel_mint, *user) && account_fits(
            *treasury_account,
            state.sentinel_mint,
            state.treasury_vault,
        )) ==> r == Err::<(PeerState, u64), SentinelError>(SentinelError::InvalidAccount),
{
    if !keys_eq(&user_account.mint, &state.sentinel_mint) || !keys_eq(&user_account.owner, user) {
        return Err(SentinelError::InvalidAccount);
    }
    if !keys_eq(&treasury_account.mint, &state.sentinel_mint) || !keys_eq(
        &treasury_account.owner,
        &state.treasury_vault,
    ) {
        return Err(SentinelError::InvalidAccount);
    }
    Ok((PeerState { user: *user, active: true, karma: 0 }, JOIN_COST))
}

/// The first check that publishing content fails, or `None`.
pub open spec fn mint_nft_error(peer: PeerState, user: Pubkey, nft_decimals: u8, nft_mint_authority: Option<Pubkey>) -> Option<SentinelError> {
    if peer.user@ != user@ {
        Some(SentinelError::InvalidAccount)
    } else if nft_decimals != 0 || !(nft_mint_authority is Some && nft_mint_authority->Some_0@ == user@) {
        Some(SentinelError::InvalidNftMint)
    } else if !peer.active {
        Some(SentinelError::NotPeer)
    } else {
        None
    }
}

/// Publishes content as a one-token mint: `peer` must be `user`'s record
/// and active, and the mint must have no decimals and `user` as its mint
/// authority. Returns the content record, created in the current cycle with
/// no engagement; the caller mints the single token to the user.
pub fn mint_nft(
    state: &State,
    peer: &PeerState,
    user: &Pubkey,
    nft_mint: &Pubkey,
    nft_decimals: u8,
    nft_mint_authority: &Option<Pubkey>,
    hash: Digest,
    db_addr: Pubkey,
) -> (r: Result<Post, SentinelError>)
    ensures
        mint_nft_error(*peer, *user, nft_decimals, *nft_mint_authority) is Some ==> r is Err && r->Err_0
            == mint_nft_error(*peer, *user, nft_decimals, *nft_mint_authority)->Some_0,
        mint_nft_error(*peer, *user, nft_decimals, *nft_mint_authority) is None ==> r == Ok::<Post, SentinelError>(
            Post { owner: *user, nft_mint: *nft_mint, hash, db_addr, likes: 0, cycle_index: state.cycle_index },
        ),
{
    if !keys_eq(&peer.user, user) {
        return Err(SentinelError::InvalidAccount);
    }
    let authority_fits = match nft_mint_authority {
        Some(a) => keys_eq(a, user),
        None => false,
    };
    if nft_decimals != 0 || !authority_fits {
        return Err(SentinelError::InvalidNftMint);
    }
    if !peer.active {
        return Err(SentinelError::NotPeer);
    }
    Ok(Post { owner: *user, nft_mint: *nft_mint, hash, db_addr, likes: 0, cycle_index: state.cycle_index })
}

/// Whether `likes` records an engagement of `liker` with `post_key`.
pub open spec fn has_like(likes: Seq<Like>, liker: Pubkey, post_key: Pubkey) -> bool {
    exists|i: int| 0 <= i < likes.len() && likes[i].liker@ == liker@ && likes[i].post@ == post_key@
}

/// The first check that an engagement fails, or `None`.
pub open spec fn like_error(
    likes: Seq<Like>,
    post: Post,
    post_key: Pubkey,
    liked_peer: PeerState,
    liker_peer: PeerState,
    liker: Pubkey,
) -> Option<SentinelError> {
    if liked_peer.user@ != post.owner@ || liker_peer.user@ != liker@ {
        Some(SentinelError::InvalidAccount)
    } else if !liked_peer.active || !liker_peer.active {
        Some(SentinelError::NotPeer)
    } else if liker@ == post.owner@ {
        Some(SentinelError::CannotLikeSelf)
    } else if has_like(likes, liker, post_key) {
        Some(SentinelError::AlreadyLiked)
    } else if post.likes == u64::MAX || liked_peer.karma == u64::MAX {
        Some(SentinelError::Overflow)
    } else {
        None
    }
}

/// Finds whether `likes` records an engagement of `liker` with `post_key`.
fn find_like(likes: &Vec<Like>, liker: &Pubkey, post_key: &Pubkey) -> (r: bool)
    ensures
        r == has_like(likes@, *liker, *post_key),
{
    let mut i: usize = 0;
    while i < likes.len()
        invariant
            i <= likes@.len(),
            forall|j: int| 0 <= j < i ==> !(likes@[j].liker@ == liker@ && likes@[j].post@ == post_key@),
        decreases likes@.len() - i,
    {
        if keys_eq(&likes[i].liker, liker) && keys_eq(&likes[i].post, post_key) {
            return true;
        }
        i = i + 1;
    }
    false
}

/// Records an engagement of `liker` with the content at `post_key`, owned by
/// `liked_peer`: both peers must be active, the liker must not own the
/// content, and each liker may engage with a piece of content once. On
/// success the content's engagement count and its owner's karma each rise
/// by one and the engagement is recorded; on failure nothing changes.
pub fn like_nft(
    likes: &mut Vec<Like>,
    post: &mut Post,
    post_key: &Pubkey,
    liked_peer: &mut PeerState,
    liker_peer: &PeerState,
    liker: &Pubkey,
) -> (r: Result<Like, SentinelError>)
    ensures
        like_error(old(likes)@, *old(post), *post_key, *old(liked_peer), *liker_peer, *liker) is Some ==> r is Err
            && r->Err_0 == like_error(old(likes)@, *old(post), *post_key, *old(liked_peer), *liker_peer, *liker)->Some_0,
        like_error(old(likes)@, *old(post), *post_key, *old(liked_peer), *liker_peer, *liker) is None ==> r is Ok,
        r is Ok ==> r->Ok_0 == (Like { liker: *liker, post: *post_key }) && final(likes)@ == old(likes)@.push(r->Ok_0)
            && *final(post) == (Post { likes: (old(post).likes + 1) as u64, ..*old(post) })
            && *final(liked_peer) == (PeerState { karma: (old(liked_peer).karma + 1) as u64, ..*old(liked_peer) }),
        r is Err ==> final(likes)@ == old(likes)@ && *final(post) == *old(post) && *final(liked_peer) == *old(liked_peer),
{
    if !keys_eq(&liked_peer.user, &post.owner) || !keys_eq(&liker_peer.user, liker) {
        return Err(SentinelError::InvalidAccount);
    }
    if !liked_peer.active || !liker_peer.active {
        return Err(SentinelError::NotPeer);
    }
    if keys_eq(liker, &post.owner) {
        return Err(SentinelError::CannotLikeSelf);
    }
    if find_like(likes, liker, post_key) {
        return Err(SentinelError::AlreadyLiked);
    }
    let new_likes = match post.likes.checked_add(1) {
        Some(v) => v,
        None => {
            return Err(SentinelError::Overflow);
        },
    };
    let new_karma = match liked_peer.karma.checked_add(1) {
        Some(v) => v,
        None => {
            return Err(SentinelError::Overflow);
        },
    };
    post.likes = new_likes;
    liked_peer.karma = new_karma;
    let like = Like { liker: *liker, post: *post_key };
    likes.push(like);
    Ok(like)
}

/// Clears a peer's karma between cycles; only the authority may. On failure
/// nothing changes.
pub fn reset_karma(state: &State, signer: &Pubkey, peer: &mut PeerState) -> (r: Result<(), SentinelError>)
    ensures
        signer@ != state.authority@ ==> r == Err::<(), SentinelError>(SentinelError::Unauthorized)
            && *final(peer) == *old(peer),
        signer@ == state.authority@ ==> r is Ok && *final(peer) == (PeerState { karma: 0, ..*old(peer) }),
{
    if !keys_eq(signer, &state.authority) {
        return Err(SentinelError::Unauthorized);
    }
    peer.karma = 0;
    Ok(())
}

/// The sum of a karma list.
pub open spec fn karma_total(karmas: Seq<u64>) -> int
    decreases karmas.len(),
{
    if karmas.len() == 0 {
        0
    } else {
        karma_total(karmas.drop_last()) + karmas.last()
    }
}

/// The most one peer may receive in a cycle.
pub open spec fn reward_cap() -> int {
    CYCLE_REWARD_TOTAL * MAX_PEER_REWARD_PCT / 100
}

/// A peer's reward: its pro-rata share of the pool, rounded down, and no
/// more than the cap.
pub open spec fn reward_for(karma: int, total: int) -> int {
    let share = karma * CYCLE_REWARD_TOTAL / total;
    if share > reward_cap() {
        reward_cap()
    } else {
        share
    }
}

/// The mints for the first `n` peers: one for each peer with karma, in order.
pub open spec fn planned_mints(peers: Seq<Pubkey>, karmas: Seq<u64>, accounts: Seq<Pubkey>, total: int, n: nat) -> Seq<RewardMint>
    decreases n,
{
    if n == 0 {
        Seq::empty()
    } else {
        let i = n - 1;
        let before = planned_mints(peers, karmas, accounts, total, i as nat);
        if karmas[i] == 0 {
            before
        } else {
            before.push(RewardMint { peer: peers[i], destination: accounts[i], amount: reward_for(karmas[i] as int, total) as u64 })
        }
    }
}

/// The mints of a cycle's settlement.
pub open spec fn cycle_mints(peers: Seq<Pubkey>, karmas: Seq<u64>, accounts: Seq<Pubkey>) -> Seq<RewardMint> {
    planned_mints(peers, karmas, accounts, karma_total(karmas), karmas.len())
}

/// Whether some peer with karma has no expected reward account, or was
/// given an account other than it.
pub open spec fn misdirected(karmas: Seq<u64>, accounts: Seq<Pubkey>, expected: Seq<Option<Seq<u8>>>) -> bool {
    exists|i: int| 0 <= i < karmas.len() && karmas[i] != 0 && !(expected[i] is Some && accounts[i]@ == expected[i]->Some_0)
}

/// The associated token account for `mint` of each peer with karma; none
/// is derived for a peer without.
pub open spec fn associated_accounts(peers: Seq<Pubkey>, karmas: Seq<u64>, mint: Pubkey) -> Seq<Option<Seq<u8>>> {
    Seq::new(peers.len(), |i: int| if karmas[i] == 0 { None } else { associated_address_of(peers[i]@, mint@) })
}

/// The view of an optional identity.
pub open spec fn key_view(key: Option<Pubkey>) -> Option<Seq<u8>> {
    match key {
        Some(k) => Some(k@),
        None => None,
    }
}

/// The views of a list of optional identities.
pub open spec fn key_views(keys: Seq<Option<Pubkey>>) -> Seq<Option<Seq<u8>>> {
    Seq::new(keys.len(), |i: int| key_view(keys[i]))
}

/// The first check that settling a cycle fails, or `None`. `expected`
/// holds the reward account that each peer must be paid into.
pub open spec fn finalize_error(
    state: State,
    signer: Pubkey,
    now: i64,
    peers: Seq<Pubkey>,
    karmas: Seq<u64>,
    accounts: Seq<Pubkey>,
    expected: Seq<Option<Seq<u8>>>,
) -> Option<SentinelError> {
    if signer@ != state.authority@ {
        Some(SentinelError::Unauthorized)
    } else if now - state.cycle_start_ts < CYCLE_SECONDS {
        Some(SentinelError::CycleNotEnded)
    } else if peers.len() != karmas.len() || peers.len() != accounts.len() || peers.len() != expected.len() {
        Some(SentinelError::InvalidInput)
    } else if misdirected(karmas, accounts, expected) {
        Some(SentinelError::InvalidAccount)
    } else if state.cycle_index == u64::MAX {
        Some(SentinelError::Overflow)
    } else {
        None
    }
}

/// The outcome of settling a cycle against the expected reward accounts:
/// the first failing check with the state unchanged, or the cycle's mints
/// with the cycle restarted at `now` and its index one higher.
pub open spec fn finalize_outcome(
    before: State,
    after: State,
    signer: Pubkey,
    now: i64,
    peers: Seq<Pubkey>,
    karmas: Seq<u64>,
    accounts: Seq<Pubkey>,
    expected: Seq<Option<Seq<u8>>>,
    r: Result<Vec<RewardMint>, SentinelError>,
) -> bool {
    match finalize_error(before, signer, now, peers, karmas, accounts, expected) {
        Some(e) => r == Err::<Vec<RewardMint>, SentinelError>(e) && after == before,
        None => r is Ok && r->Ok_0@ == cycle_mints(peers, karmas, accounts) && after == (State {
            cycle_start_ts: now,
            cycle_index: (before.cycle_index + 1) as u64,
            ..before
        }),
    }
}

/// A karma list's sum is at least each of its entries.
proof fn lemma_total_covers(karmas: Seq<u64>, i: int)
    requires
        0 <= i < karmas.len(),
    ensures
        karma_total(karmas) >= karmas[i],
    decreases karmas.len(),
{
    if i < karmas.len() - 1 {
        lemma_total_covers(karmas.drop_last(), i);
    }
    lemma_total_nonneg(karmas.drop_last());
}

proof fn lemma_total_nonneg(karmas: Seq<u64>)
    ensures
        karma_total(karmas) >= 0,
    decreases karmas.len(),
{
    if karmas.len() > 0 {
        lemma_total_nonneg(karmas.drop_last());
    }
}

/// Settles a cycle given the reward account that each peer must be paid
/// into: the authority only, once the cycle duration has elapsed since it
/// started. Each peer with karma receives `min(floor(karma * pool / total),
/// cap)`, into its own reward account; what rounding and the cap hold back
/// is not handed to anyone else. With no karma at all nothing is minted.
/// The cycle then restarts at `now` with its index one higher. Returns the
/// mints that the caller performs in the same transaction; on failure the
/// state does not change.
pub fn distribute_rewards(
    state: &mut State,
    signer: &Pubkey,
    now: i64,
    peers: &Vec<Pubkey>,
    karmas: &Vec<u64>,
    accounts: &Vec<Pubkey>,
    expected: &Vec<Option<Pubkey>>,
) -> (r: Result<Vec<RewardMint>, SentinelError>)
    ensures
        finalize_outcome(*old(state), *final(state), *signer, now, peers@, karmas@, accounts@, key_views(expected@), r),
{
    if !keys_eq(signer, &state.authority) {
        return Err(SentinelError::Unauthorized);
    }
    if (now as i128) - (state.cycle_start_ts as i128) < CYCLE_SECONDS as i128 {
        return Err(SentinelError::CycleNotEnded);
    }
    if peers.len() != karmas.len() || peers.len() != accounts.len() || peers.len() != expected.len() {
        return Err(SentinelError::InvalidInput);
    }
    let n = karmas.len();
    let mut total: u128 = 0;
    let mut i: usize = 0;
    while i < n
        invariant
            n == karmas@.len(),
            n == peers@.len(),
            n == accounts@.len(),
            n == expected@.len(),
            *state == *old(state),
            signer@ == state.authority@,
            now - state.cycle_start_ts >= CYCLE_SECONDS,
            i <= n,
            total == karma_total(karmas@.subrange(0, i as int)),
            total <= i * 0xFFFF_FFFF_FFFF_FFFFu128,
        decreases n - i,
    {
        assert(karmas@.subrange(0, i + 1).drop_last() =~= karmas@.subrange(0, i as int));
        assert(total + karmas@[i as int] <= (i + 1) * 0xFFFF_FFFF_FFFF_FFFFu128) by (nonlinear_arith)
            requires
                total <= i * 0xFFFF_FFFF_FFFF_FFFFu128,
                karmas@[i as int] <= 0xFFFF_FFFF_FFFF_FFFFu128,
        ;
        assert((i + 1) * 0xFFFF_FFFF_FFFF_FFFFu128 <= 0xFFFF_FFFF_FFFF_FFFFu128 * 0xFFFF_FFFF_FFFF_FFFFu128) by (nonlinear_arith)
            requires
                i + 1 <= 0xFFFF_FFFF_FFFF_FFFFu128,
        ;
        total = total + karmas[i] as u128;
        i = i + 1;
    }
    assert(karmas@.subrange(0, n as int) =~= karmas@);
    let mut mints: Vec<RewardMint> = Vec::new();
    let mut j: usize = 0;
    while j < n
        invariant
            n == karmas@.len(),
            n == peers@.len(),
            n == accounts@.len(),
            n == expected@.len(),
            j <= n,
            total == karma_total(karmas@),
            *state == *old(state),
            signer@ == state.authority@,
            now - state.cycle_start_ts >= CYCLE_SECONDS,
            mints@ == planned_mints(peers@, karmas@, accounts@, total as int, j as nat),
            forall|k: int| 0 <= k < j && karmas@[k] != 0 ==> key_views(expected@)[k] is Some && accounts@[k]@ == key_views(expected@)[k]->Some_0,
        decreases n - j,
    {
        let karma = karmas[j];
        if karma != 0 {
            let fits = match &expected[j] {
                Some(address) => keys_eq(&accounts[j], address),
                None => false,
            };
            if !fits {
                assert(karmas@[j as int] != 0 && !(key_views(expected@)[j as int] is Some && accounts@[j as int]@
                    == key_views(expected@)[j as int]->Some_0));
                assert(misdirected(karmas@, accounts@, key_views(expected@)));
                return Err(SentinelError::InvalidAccount);
            }
            proof {
                lemma_total_covers(karmas@, j as int);
            }
            assert(karma * CYCLE_REWARD_TOTAL <= 0xFFFF_FFFF_FFFF_FFFFu128 * CYCLE_REWARD_TOTAL) by (nonlinear_arith)
                requires
                    karma <= 0xFFFF_FFFF_FFFF_FFFFu128,
            ;
            let share: u128 = (karma as u128 * CYCLE_REWARD_TOTAL as u128) / total;
            let cap: u128 = (CYCLE_REWARD_TOTAL as u128 * MAX_PEER_REWARD_PCT as u128) / 100u128;
            let reward: u128 = if share > cap {
                cap
            } else {
                share
            };
            mints.push(RewardMint { peer: peers[j], destination: accounts[j], amount: reward as u64 });
        }
        j = j + 1;
    }
    assert(!misdirected(karmas@, accounts@, key_views(expected@)));
    if state.cycle_index == u64::MAX {
        return Err(SentinelError::Overflow);
    }
    state.cycle_start_ts = now;
    state.cycle_index = state.cycle_index + 1;
    Ok(mints)
}

/// Settles a cycle (see `distribute_rewards`), where each peer with karma
/// must be paid into its associated token account for the network's mint.
/// The accounts are derived once the authority, the elapsed time and the
/// list lengths have been checked, and only for peers with karma; a peer
/// whose account cannot be derived makes the settlement fail with
/// `InvalidAccount`.
pub fn finalize_cycle(
    state: &mut State,
    signer: &Pubkey,
    now: i64,
    peers: &Vec<Pubkey>,
    karmas: &Vec<u64>,
    accounts: &Vec<Pubkey>,
) -> (r: Result<Vec<RewardMint>, SentinelError>)
    ensures
        finalize_outcome(
            *old(state),
            *final(state),
            *signer,
            now,
            peers@,
            karmas@,
            accounts@,
            associated_accounts(peers@, karmas@, old(state).sentinel_mint),
            r,
        ),
{
    if !keys_eq(signer, &state.authority) {
        return Err(SentinelError::Unauthorized);
    }
    if (now as i128) - (state.cycle_start_ts as i128) < CYCLE_SECONDS as i128 {
        return Err(SentinelError::CycleNotEnded);
    }
    if peers.len() != karmas.len() || peers.len() != accounts.len() {
        return Err(SentinelError::InvalidInput);
    }
    let mut expected: Vec<Option<Pubkey>> = Vec::with_capacity(peers.len());
    let mut i: usize = 0;
    while i < peers.len()
        invariant
            i <= peers@.len(),
            peers@.len() == karmas@.len(),
            expected@.len() == i,
            forall|k: int| 0 <= k < i ==> #[trigger] key_view(expected@[k]) == associated_accounts(peers@, karmas@, state.sentinel_mint)[k],
        decreases peers@.len() - i,
    {
        let derived = if karmas[i] == 0 {
            None
        } else {
            associated_token_address(&peers[i], &state.sentinel_mint)
        };
        expected.push(derived);
        i = i + 1;
    }
    assert(key_views(expected@) =~= associated_accounts(peers@, karmas@, state.sentinel_mint));
    distribute_rewards(state, signer, now, peers, karmas, accounts, &expected)
}

/// The sum of the amounts of a list of mints.
pub open spec fn mint_total(mints: Seq<RewardMint>) -> int
    decreases mints.len(),
{
    if mints.len() == 0 {
        0
    } else {
        mint_total(mints.drop_last()) + mints.last().amount
    }
}

proof fn lemma_reward_range(karma: int, total: int)
    requires
        0 <= karma,
        0 < total,
    ensures
        0 <= reward_for(karma, total) <= reward_cap(),
        reward_for(karma, total) * total <= karma * CYCLE_REWARD_TOTAL,
{
    let a = karma * CYCLE_REWARD_TOTAL;
    assert(a >= 0) by (nonlinear_arith)
        requires
            karma >= 0,
            a == karma * CYCLE_REWARD_TOTAL,
            CYCLE_REWARD_TOTAL > 0,
    ;
    assert((a / total) * total <= a && a / total >= 0) by (nonlinear_arith)
        requires
            a >= 0,
            total > 0,
    ;
    let r = reward_for(karma, total);
    assert(r <= a / total);
    assert(r * total <= (a / total) * total) by (nonlinear_arith)
        requires
            r <= a / total,
            total > 0,
    ;
}

proof fn lemma_planned_within(peers: Seq<Pubkey>, karmas: Seq<u64>, accounts: Seq<Pubkey>, total: int, n: nat)
    requires
        0 < total,
        n <= karmas.len(),
    ensures
        mint_total(planned_mints(peers, karmas, accounts, total, n)) * total <= CYCLE_REWARD_TOTAL * karma_total(
            karmas.subrange(0, n as int),
        ),
        forall|k: int|
            0 <= k < planned_mints(peers, karmas, accounts, total, n).len() ==> #[trigger] planned_mints(
                peers,
                karmas,
                accounts,
                total,
                n,
            )[k].amount <= reward_cap(),
    decreases n,
{
    if n == 0 {
        assert(karmas.subrange(0, 0) =~= Seq::<u64>::empty());
    } else {
        let i = n - 1;
        lemma_planned_within(peers, karmas, accounts, total, i as nat);
        let before = planned_mints(peers, karmas, accounts, total, i as nat);
        assert(karmas.subrange(0, n as int).drop_last() =~= karmas.subrange(0, i as int));
        let kp = karma_total(karmas.subrange(0, i as int));
        let mp = mint_total(before);
        if karmas[i] != 0 {
            let m = RewardMint { peer: peers[i], destination: accounts[i], amount: reward_for(karmas[i] as int, total) as u64 };
            assert(before.push(m).drop_last() =~= before);
            lemma_reward_range(karmas[i] as int, total);
            let amt = reward_for(karmas[i] as int, total);
            let k = karmas[i] as int;
            assert((mp + amt) * total <= CYCLE_REWARD_TOTAL * (kp + k)) by (nonlinear_arith)
                requires
                    mp * total <= CYCLE_REWARD_TOTAL * kp,
                    amt * total <= k * CYCLE_REWARD_TOTAL,
            ;
        }
    }
}

/// Proportional conservation: when some peer has karma, every mint of a
/// cycle's settlement is at most the cap, and together they are at most the
/// reward pool.
pub proof fn lemma_rewards_within_pool(peers: Seq<Pubkey>, karmas: Seq<u64>, accounts: Seq<Pubkey>)
    requires
        karma_total(karmas) > 0,
    ensures
        mint_total(cycle_mints(peers, karmas, accounts)) <= CYCLE_REWARD_TOTAL,
        forall|k: int|
            0 <= k < cycle_mints(peers, karmas, accounts).len() ==> #[trigger] cycle_mints(peers, karmas, accounts)[k].amount
                <= reward_cap(),
{
    let total = karma_total(karmas);
    lemma_planned_within(peers, karmas, accounts, total, karmas.len());
    assert(karmas.subrange(0, karmas.len() as int) =~= karmas);
    let m = mint_total(cycle_mints(peers, karmas, accounts));
    assert(m <= CYCLE_REWARD_TOTAL) by (nonlinear_arith)
        requires
            m * total <= CYCLE_REWARD_TOTAL * total,
            total > 0,
    ;
}

proof fn lemma_planned_empty(peers: Seq<Pubkey>, karmas: Seq<u64>, accounts: Seq<Pubkey>, total: int, n: nat)
    requires
        n <= karmas.len(),
        forall|i: int| 0 <= i < karmas.len() ==> karmas[i] == 0,
    ensures
        planned_mints(peers, karmas, accounts, total, n) == Seq::<RewardMint>::empty(),
        karma_total(karmas.subrange(0, n as int)) == 0,
    decreases n,
{
    if n > 0 {
        lemma_planned_empty(peers, karmas, accounts, total, (n - 1) as nat);
        assert(karmas.subrange(0, n as int).drop_last() =~= karmas.subrange(0, n - 1));
    } else {
        assert(karmas.subrange(0, 0) =~= Seq::<u64>::empty());
    }
}

/// Zero-karma cycle: when no peer has karma, the total is zero, the
/// settlement mints nothing, and no reward account can make it fail.
pub proof fn lemma_zero_karma_mints_nothing(
    peers: Seq<Pubkey>,
    karmas: Seq<u64>,
    accounts: Seq<Pubkey>,
    expected: Seq<Option<Seq<u8>>>,
)
    requires
        forall|i: int| 0 <= i < karmas.len() ==> karmas[i] == 0,
    ensures
        karma_total(karmas) == 0,
        cycle_mints(peers, karmas, accounts) == Seq::<RewardMint>::empty(),
        !misdirected(karmas, accounts, expected),
{
    lemma_planned_empty(peers, karmas, accounts, karma_total(karmas), karmas.len());
    assert(karmas.subrange(0, karmas.len() as int) =~= karmas);
}

/// Self engagement: an active peer engaging with their own content is
/// refused as such.
pub proof fn lemma_self_like_rejected(likes: Seq<Like>, post: Post, post_key: Pubkey, peer: PeerState)
    requires
        peer.user@ == post.owner@,
        peer.active,
    ensures
        like_error(likes, post, post_key, peer, peer, post.owner) == Some(SentinelError::CannotLikeSelf),
{
}

/// Duplicate engagement: once an engagement has been recorded, the same
/// engagement again is refused as already recorded.
pub proof fn lemma_repeat_like_rejected(
    likes: Seq<Like>,
    post: Post,
    post_key: Pubkey,
    liked_peer: PeerState,
    liker_peer: PeerState,
    liker: Pubkey,
)
    requires
        like_error(likes, post, post_key, liked_peer, liker_peer, liker) is None,
    ensures
        like_error(
            likes.push(Like { liker, post: post_key }),
            Post { likes: (post.likes + 1) as u64, ..post },
            post_key,
            PeerState { karma: (liked_peer.karma + 1) as u64, ..liked_peer },
            liker_peer,
            liker,
        ) == Some(SentinelError::AlreadyLiked),
{
    let after = likes.push(Like { liker, post: post_key });
    assert(after[likes.len() as int].liker@ == liker@ && after[likes.len() as int].post@ == post_key@);
}

} // verus!
