use vstd::prelude::*;

verus! {

/// The contracts whose state is aggregated.
#[derive(Clone, Copy, Debug, PartialEq, Eq, Structural)]
pub enum Contracts {
    RefExchange,
    RefFarm,
}

impl Contracts {
    /// The account under which the contract is deployed.
    pub open spec fn account_id(self) -> Seq<char> {
        match self {
            Contracts::RefExchange => "ref-finance-101.testnet"@,
            Contracts::RefFarm => "v2.ref-farming.testnet"@,
        }
    }

    pub fn value(&self) -> (id: &'static str)
        ensures
            id@ == self.account_id(),
    {
        match *self {
            Contracts::RefExchange => "ref-finance-101.testnet",
            Contracts::RefFarm => "v2.ref-farming.testnet",
        }
    }
}

/// The view methods that the aggregation calls.
#[derive(Clone, Copy, Debug, PartialEq, Eq, Structural)]
pub enum Methods {
    NumPools,
    GetPools,
    ListSeeds,
    ListFarmsBySeeds,
    WhitelistedTokens,
    FtMetadata,
}

impl Methods {
    /// The method's name on its contract.
    pub open spec fn method_name(self) -> Seq<char> {
        match self {
            Methods::NumPools => "get_number_of_pools"@,
            Methods::GetPools => "get_pools"@,
            Methods::WhitelistedTokens => "get_whitelisted_tokens"@,
            Methods::ListSeeds => "list_seeds"@,
            Methods::ListFarmsBySeeds => "list_farms_by_seed"@,
            Methods::FtMetadata => "ft_metadata"@,
        }
    }

    /// The contract that answers the method, where it is one of the two fixed
    /// contracts; the metadata method is answered by each token's own contract.
    pub open spec fn home(self) -> Option<Contracts> {
        match self {
            Methods::NumPools => Some(Contracts::RefExchange),
            Methods::GetPools => Some(Contracts::RefExchange),
            Methods::WhitelistedTokens => Some(Contracts::RefExchange),
            Methods::ListSeeds => Some(Contracts::RefFarm),
            Methods::ListFarmsBySeeds => Some(Contracts::RefFarm),
            Methods::FtMetadata => None,
        }
    }

    pub fn value(&self) -> (name: String)
        ensures
            name@ == self.method_name(),
    {
        match *self {
            Methods::NumPools => "get_number_of_pools".to_owned(),
            Methods::GetPools => "get_pools".to_owned(),
            Methods::WhitelistedTokens => "get_whitelisted_tokens".to_owned(),
            Methods::ListSeeds => "list_seeds".to_owned(),
            Methods::ListFarmsBySeeds => "list_farms_by_seed".to_owned(),
            Methods::FtMetadata => "ft_metadata".to_owned(),
        }
    }

    pub fn contract(&self) -> (c: Option<Contracts>)
        ensures
            c == self.home(),
    {
        match *self {
            Methods::NumPools => Some(Contracts::RefExchange),
            Methods::GetPools => Some(Contracts::RefExchange),
            Methods::WhitelistedTokens => Some(Contracts::RefExchange),
            Methods::ListSeeds => Some(Contracts::RefFarm),
            Methods::ListFarmsBySeeds => Some(Contracts::RefFarm),
            Methods::FtMetadata => None,
        }
    }
}

} // verus!
