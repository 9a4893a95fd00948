use vstd::prelude::*;
use crate::addr::Addr;

verus! {

/// The initialization request: who the one authorized score-setter is.
#[derive(Clone, Debug)]
pub struct InstantiateMsg {
    pub owner: Addr,
}

/// The execute requests: only setting a score.
#[derive(Clone, Debug)]
pub enum ExecuteMsg {
    SetScore { address: Addr, new_score: i32 },
}

/// The read-only requests.
#[derive(Clone, Debug)]
pub enum QueryMsg {
    GetOwner {},
    GetScore { address: Addr },
}

/// Answer to a `GetOwner` query.
#[derive(Clone, Debug)]
pub struct OwnerResponse {
    pub owner: Addr,
}

/// Answer to a `GetScore` query.
#[derive(Clone, Copy, Debug, PartialEq, Eq, Structural)]
pub struct ScoreResponse {
    pub score: i32,
}

/// A query's structured answer; the host encodes it for the wire.
#[derive(Clone, Debug)]
pub enum QueryResponse {
    Owner(OwnerResponse),
    Score(ScoreResponse),
}

/// The acknowledgment a successful mutation returns: no payload beyond
/// success itself.
#[derive(Clone, Copy, Debug, PartialEq, Eq, Structural)]
pub struct Response {}

} // verus!
