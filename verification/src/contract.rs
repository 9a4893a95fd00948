use vstd::prelude::*;
use crate::addr::Addr;
use crate::error::ContractError;
use crate::msg::{
    ExecuteMsg, InstantiateMsg, OwnerResponse, QueryMsg, QueryResponse, Response, ScoreResponse,
};
use crate::state::{State, Store, StoreView};

verus! {

/// The store after `Initialize(owner)`: the owner slot holds `owner`,
/// every score entry stays as it was. A second initialization simply
/// overwrites the owner; the contract places no guard against it.
pub open spec fn instantiate_next(v: StoreView, owner: Seq<char>) -> StoreView {
    StoreView { owner: Some(owner), scores: v.scores }
}

/// Whether `sender` may set scores: only the stored owner may.
pub open spec fn set_score_allowed(v: StoreView, sender: Seq<char>) -> bool {
    v.owner == Some(sender)
}

/// The store after a successful `SetScore(address, new_score)`: that one
/// entry replaced, everything else as it was.
pub open spec fn set_score_next(v: StoreView, address: Seq<char>, new_score: int) -> StoreView {
    StoreView { owner: v.owner, scores: v.scores.insert(address, new_score) }
}

/// What `GetScore(address)` reads: the stored score, or zero when none
/// was ever stored. Readers cannot tell the two apart.
pub open spec fn score_of(v: StoreView, address: Seq<char>) -> int {
    if v.scores.contains_key(address) {
        v.scores[address]
    } else {
        0
    }
}

/// Records the owner named in the message. Runs unconditionally: whoever
/// invokes it, and however often, the named owner is stored.
pub fn instantiate(store: &mut Store, msg: InstantiateMsg) -> (res: Result<Response, ContractError>)
    requires
        old(store).wf(),
    ensures
        final(store).wf(),
        res is Ok,
        final(store)@ == instantiate_next(old(store)@, msg.owner@),
{
    let state = State { owner: msg.owner };
    store.save_state(state);
    proof {
        assert(store@ =~= instantiate_next(old(store)@, state.owner@));
    }
    Ok(Response {  })
}

/// Dispatches one execute request from `sender`.
pub fn execute(store: &mut Store, sender: Addr, msg: ExecuteMsg) -> (res: Result<
    Response,
    ContractError,
>)
    requires
        old(store).wf(),
    ensures
        final(store).wf(),
        match msg {
            ExecuteMsg::SetScore { address, new_score } => {
                &&& old(store)@.owner is None ==> res == Err::<Response, ContractError>(
                    ContractError::Uninitialized,
                ) && final(store)@ == old(store)@
                &&& old(store)@.owner is Some && !set_score_allowed(old(store)@, sender@) ==> res
                    == Err::<Response, ContractError>(ContractError::Unauthorized)
                    && final(store)@ == old(store)@
                &&& set_score_allowed(old(store)@, sender@) ==> res is Ok && final(store)@
                    == set_score_next(old(store)@, address@, new_score as int)
            },
        },
{
    match msg {
        ExecuteMsg::SetScore { address, new_score } => try_set_score(
            store,
            sender,
            address,
            new_score,
        ),
    }
}

/// Stores `new_score` for `address`, if `sender` is the owner; otherwise
/// refuses and changes nothing. Before any initialization it refuses too,
/// as reading the absent contract state.
pub fn try_set_score(store: &mut Store, sender: Addr, address: Addr, new_score: i32) -> (res:
    Result<Response, ContractError>)
    requires
        old(store).wf(),
    ensures
        final(store).wf(),
        old(store)@.owner is None ==> res == Err::<Response, ContractError>(
            ContractError::Uninitialized,
        ) && final(store)@ == old(store)@,
        old(store)@.owner is Some && !set_score_allowed(old(store)@, sender@) ==> res == Err::<
            Response,
            ContractError,
        >(ContractError::Unauthorized) && final(store)@ == old(store)@,
        set_score_allowed(old(store)@, sender@) ==> res is Ok && final(store)@ == set_score_next(
            old(store)@,
            address@,
            new_score as int,
        ),
{
    let state = match store.load_state() {
        Some(s) => s,
        None => {
            return Err(ContractError::Uninitialized);
        },
    };
    if sender != state.owner {
        return Err(ContractError::Unauthorized);
    }
    store.set_score(&address, new_score);
    proof {
        assert(store@ =~= set_score_next(old(store)@, address@, new_score as int));
    }
    Ok(Response {  })
}

/// Answers one read-only request; neither needs authorization, and
/// neither changes anything.
pub fn query(store: &Store, msg: QueryMsg) -> (res: Result<QueryResponse, ContractError>)
    requires
        store.wf(),
    ensures
        match msg {
            QueryMsg::GetOwner {  } => match store@.owner {
                Some(o) => res matches Ok(QueryResponse::Owner(r)) && r.owner@ == o,
                None => res == Err::<QueryResponse, ContractError>(ContractError::Uninitialized),
            },
            QueryMsg::GetScore { address } => res matches Ok(QueryResponse::Score(r)) && r.score
                as int == score_of(store@, address@),
        },
{
    match msg {
        QueryMsg::GetOwner {  } => match query_owner(store) {
            Ok(r) => Ok(QueryResponse::Owner(r)),
            Err(e) => Err(e),
        },
        QueryMsg::GetScore { address } => match query_score(store, address) {
            Ok(r) => Ok(QueryResponse::Score(r)),
            Err(e) => Err(e),
        },
    }
}

/// Reads the score stored for `address`, zero when none was ever stored.
/// Never fails.
pub fn query_score(store: &Store, address: Addr) -> (res: Result<ScoreResponse, ContractError>)
    requires
        store.wf(),
    ensures
        res matches Ok(r) && r.score as int == score_of(store@, address@),
{
    // Zero is the answer for an address that was never written.
    match store.get_score(&address) {
        Some(number) => Ok(ScoreResponse { score: number }),
        None => Ok(ScoreResponse { score: 0 }),
    }
}

/// Reads the stored owner; fails if the contract was never initialized.
pub fn query_owner(store: &Store) -> (res: Result<OwnerResponse, ContractError>)
    ensures
        match store@.owner {
            Some(o) => res matches Ok(r) && r.owner@ == o,
            None => res == Err::<OwnerResponse, ContractError>(ContractError::Uninitialized),
        },
{
    match store.load_state() {
        Some(state) => Ok(OwnerResponse { owner: state.owner }),
        None => Err(ContractError::Uninitialized),
    }
}

/// Initialization establishes the owner: after `Initialize(o)` the owner
/// slot that `GetOwner` reads holds exactly `o`, whatever stood there
/// before, and no score entry moves.
pub proof fn lemma_initialize_establishes_owner(v: StoreView, o: Seq<char>)
    ensures
        instantiate_next(v, o).owner == Some(o),
        instantiate_next(v, o).scores == v.scores,
{
}

/// An address never written reads as zero.
pub proof fn lemma_default_score_zero(v: StoreView, a: Seq<char>)
    requires
        !v.scores.contains_key(a),
    ensures
        score_of(v, a) == 0,
{
}

/// Neither initialization nor a write to some other address makes an
/// unwritten address written: its score keeps reading zero.
pub proof fn lemma_unwritten_stays_zero(
    v: StoreView,
    a: Seq<char>,
    o: Seq<char>,
    b: Seq<char>,
    s: int,
)
    requires
        !v.scores.contains_key(a),
        b != a,
    ensures
        !instantiate_next(v, o).scores.contains_key(a),
        !set_score_next(v, b, s).scores.contains_key(a),
        score_of(set_score_next(v, b, s), a) == 0,
{
}

/// Last write wins: writing `s1` and then `s2` to the same address leaves
/// the address reading exactly `s2`, with no merging of the two.
pub proof fn lemma_last_write_wins(v: StoreView, a: Seq<char>, s1: int, s2: int)
    ensures
        score_of(set_score_next(set_score_next(v, a, s1), a, s2), a) == s2,
{
}

/// Non-interference: a write to one address changes neither any other
/// address's score nor the stored owner.
pub proof fn lemma_set_score_noninterference(v: StoreView, a: Seq<char>, b: Seq<char>, s: int)
    requires
        b != a,
    ensures
        score_of(set_score_next(v, a, s), b) == score_of(v, b),
        set_score_next(v, a, s).owner == v.owner,
{
}

} // verus!
