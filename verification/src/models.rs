use vstd::prelude::*;
use crate::text::copy_texts;

verus! {

/// Price information of a token.
#[derive(Debug)]
pub struct TokenInfo {
    pub decimal: u8,
    pub price: String,
    pub symbol: String,
}

/// The contents of a [`TokenInfo`].
pub struct TokenInfoView {
    pub decimal: u8,
    pub price: Seq<char>,
    pub symbol: Seq<char>,
}

impl View for TokenInfo {
    type V = TokenInfoView;

    open spec fn view(&self) -> TokenInfoView {
        TokenInfoView { decimal: self.decimal, price: self.price@, symbol: self.symbol@ }
    }
}

impl DeepView for TokenInfo {
    type V = TokenInfoView;

    open spec fn deep_view(&self) -> TokenInfoView {
        self@
    }
}

impl Clone for TokenInfo {
    fn clone(&self) -> (copy: Self)
        ensures
            copy@ == self@,
    {
        TokenInfo {
            decimal: self.decimal,
            price: self.price.clone(),
            symbol: self.symbol.clone(),
        }
    }
}

/// A reward schedule attached to a seed, as the farming contract reports it.
///
/// The reward amounts are decimal numerals of unsigned 128-bit numbers.
#[derive(Debug)]
pub struct FarmInfo {
    pub farm_id: String,
    pub farm_kind: String,
    pub farm_status: String,
    pub seed_id: String,
    pub reward_token: String,
    pub start_at: u64,
    pub reward_per_session: String,
    pub session_interval: u64,
    pub total_reward: String,
    pub cur_round: u64,
    pub last_round: u64,
    pub claimed_reward: String,
    pub unclaimed_reward: String,
    pub beneficiary_reward: String,
}

/// The contents of a [`FarmInfo`].
pub struct FarmView {
    pub farm_id: Seq<char>,
    pub farm_kind: Seq<char>,
    pub farm_status: Seq<char>,
    pub seed_id: Seq<char>,
    pub reward_token: Seq<char>,
    pub start_at: u64,
    pub reward_per_session: Seq<char>,
    pub session_interval: u64,
    pub total_reward: Seq<char>,
    pub cur_round: u64,
    pub last_round: u64,
    pub claimed_reward: Seq<char>,
    pub unclaimed_reward: Seq<char>,
    pub beneficiary_reward: Seq<char>,
}

impl View for FarmInfo {
    type V = FarmView;

    open spec fn view(&self) -> FarmView {
        FarmView {
            farm_id: self.farm_id@,
            farm_kind: self.farm_kind@,
            farm_status: self.farm_status@,
            seed_id: self.seed_id@,
            reward_token: self.reward_token@,
            start_at: self.start_at,
            reward_per_session: self.reward_per_session@,
            session_interval: self.session_interval,
            total_reward: self.total_reward@,
            cur_round: self.cur_round,
            last_round: self.last_round,
            claimed_reward: self.claimed_reward@,
            unclaimed_reward: self.unclaimed_reward@,
            beneficiary_reward: self.beneficiary_reward@,
        }
    }
}

impl DeepView for FarmInfo {
    type V = FarmView;

    open spec fn deep_view(&self) -> FarmView {
        self@
    }
}

impl Clone for FarmInfo {
    fn clone(&self) -> (copy: Self)
        ensures
            copy@ == self@,
    {
        FarmInfo {
            farm_id: self.farm_id.clone(),
            farm_kind: self.farm_kind.clone(),
            farm_status: self.farm_status.clone(),
            seed_id: self.seed_id.clone(),
            reward_token: self.reward_token.clone(),
            start_at: self.start_at,
            reward_per_session: self.reward_per_session.clone(),
            session_interval: self.session_interval,
            total_reward: self.total_reward.clone(),
            cur_round: self.cur_round,
            last_round: self.last_round,
            claimed_reward: self.claimed_reward.clone(),
            unclaimed_reward: self.unclaimed_reward.clone(),
            beneficiary_reward: self.beneficiary_reward.clone(),
        }
    }
}

/// A liquidity pool.
///
/// The first six fields are what the exchange contract reports. The last
/// three are derived while the pools are aggregated and are `None` before:
/// the pool's rank in the listing, whether a running farm rewards its shares,
/// and the symbols of its tokens.
#[derive(Debug)]
pub struct PoolInfo {
    pub pool_kind: String,
    pub token_account_ids: Vec<String>,
    pub amounts: Vec<String>,
    pub total_fee: u32,
    pub shares_total_supply: String,
    pub amp: u64,
    pub id: Option<u64>,
    pub farming: Option<bool>,
    pub token_symbols: Option<Vec<String>>,
}

/// The contents of a [`PoolInfo`].
pub struct PoolView {
    pub pool_kind: Seq<char>,
    pub token_account_ids: Seq<Seq<char>>,
    pub amounts: Seq<Seq<char>>,
    pub total_fee: u32,
    pub shares_total_supply: Seq<char>,
    pub amp: u64,
    pub id: Option<u64>,
    pub farming: Option<bool>,
    pub token_symbols: Option<Seq<Seq<char>>>,
}

impl View for PoolInfo {
    type V = PoolView;

    open spec fn view(&self) -> PoolView {
        PoolView {
            pool_kind: self.pool_kind@,
            token_account_ids: self.token_account_ids.deep_view(),
            amounts: self.amounts.deep_view(),
            total_fee: self.total_fee,
            shares_total_supply: self.shares_total_supply@,
            amp: self.amp,
            id: self.id,
            farming: self.farming,
            token_symbols: self.token_symbols.deep_view(),
        }
    }
}

impl DeepView for PoolInfo {
    type V = PoolView;

    open spec fn deep_view(&self) -> PoolView {
        self@
    }
}

impl Clone for PoolInfo {
    fn clone(&self) -> (copy: Self)
        ensures
            copy@ == self@,
    {
        let token_symbols = match &self.token_symbols {
            Some(symbols) => Some(copy_texts(symbols)),
            None => None,
        };
        PoolInfo {
            pool_kind: self.pool_kind.clone(),
            token_account_ids: copy_texts(&self.token_account_ids),
            amounts: copy_texts(&self.amounts),
            total_fee: self.total_fee,
            shares_total_supply: self.shares_total_supply.clone(),
            amp: self.amp,
            id: self.id,
            farming: self.farming,
            token_symbols,
        }
    }
}

/// What a fungible token's contract says of the token.
#[derive(Debug)]
pub struct FungibleTokenMetadata {
    pub spec: String,
    pub name: String,
    pub symbol: String,
    pub icon: Option<String>,
    pub reference: Option<String>,
    pub reference_hash: Option<String>,
    pub decimals: u8,
}

/// The contents of a [`FungibleTokenMetadata`].
pub struct TokenMetadataView {
    pub spec: Seq<char>,
    pub name: Seq<char>,
    pub symbol: Seq<char>,
    pub icon: Option<Seq<char>>,
    pub reference: Option<Seq<char>>,
    pub reference_hash: Option<Seq<char>>,
    pub decimals: u8,
}

impl View for FungibleTokenMetadata {
    type V = TokenMetadataView;

    open spec fn view(&self) -> TokenMetadataView {
        TokenMetadataView {
            spec: self.spec@,
            name: self.name@,
            symbol: self.symbol@,
            icon: self.icon.deep_view(),
            reference: self.reference.deep_view(),
            reference_hash: self.reference_hash.deep_view(),
            decimals: self.decimals,
        }
    }
}

impl DeepView for FungibleTokenMetadata {
    type V = TokenMetadataView;

    open spec fn deep_view(&self) -> TokenMetadataView {
        self@
    }
}

fn copy_optional_text(text: &Option<String>) -> (copy: Option<String>)
    ensures
        copy.deep_view() == text.deep_view(),
{
    match text {
        Some(t) => Some(t.clone()),
        None => None,
    }
}

impl Clone for FungibleTokenMetadata {
    fn clone(&self) -> (copy: Self)
        ensures
            copy@ == self@,
    {
        FungibleTokenMetadata {
            spec: self.spec.clone(),
            name: self.name.clone(),
            symbol: self.symbol.clone(),
            icon: copy_optional_text(&self.icon),
            reference: copy_optional_text(&self.reference),
            reference_hash: copy_optional_text(&self.reference_hash),
            decimals: self.decimals,
        }
    }
}

} // verus!
