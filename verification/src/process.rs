//! What holds of the calls of one process, which share a token cache in front of a chain.
use vstd::prelude::*;
use crate::cache::{looks_up, AccessToken, CachedCredential, FetchRequest, Lookup, Tokens};
use crate::chain::{
    complete_request, law_selected_credential_is_asked_alone, law_success_is_the_last_answer,
    ChainState, RequestState,
};
use crate::entry::answers;
use crate::error::TokenError;
use crate::scope::{canonical, law_canonical_ignores_order_and_repetition, same_scopes, texts};

verus! {

/// What the calls of a process share.
#[verifier::ext_equal]
pub struct ProcessState {
    pub tokens: Tokens,
    pub chain: ChainState,
}

/// One call: when and for which scopes it was made, what the cache had to say, which credentials
/// of the chain were asked and what they answered, how the chain changed meanwhile, and the result.
pub struct Call {
    pub scopes: Seq<Seq<char>>,
    pub now: int,
    pub lookup: Lookup,
    pub chains: Seq<ChainState>,
    pub requests: Seq<RequestState<Seq<Seq<char>>>>,
    pub replies: Seq<Result<AccessToken, TokenError>>,
    pub result: Result<AccessToken, TokenError>,
}

impl ProcessState {
    /// The state in which a process begins: no token is cached and no credential selected.
    pub open spec fn initial(self) -> bool {
        self.tokens == Tokens::empty() && self.chain.selected is None
    }

    /// Whether `call` takes the process to `after`: on a hit nothing is asked and nothing changes;
    /// otherwise the chain serves a request for the scopes to fetch, and a token that it gets is
    /// kept.
    pub open spec fn serves(self, call: Call, after: ProcessState) -> bool {
        &&& looks_up(self.tokens, call.scopes, call.now, call.lookup)
        &&& match call.lookup {
            Lookup::Hit(token) => {
                &&& call.requests.len() == 0
                &&& call.replies.len() == 0
                &&& call.result == Ok::<AccessToken, TokenError>(token)
                &&& after == self
            },
            Lookup::Fetch(request) => {
                &&& complete_request(
                    request@,
                    call.chains,
                    call.requests,
                    call.replies,
                    call.result,
                )
                &&& call.chains[0] == self.chain
                &&& call.chains.last() == after.chain
                &&& after.tokens == match call.result {
                    Ok(token) => self.tokens.insert(request@, token),
                    Err(_) => self.tokens,
                }
            },
        }
    }
}

/// A history of calls, one after another: `calls[i]` took the process from `states[i]` to
/// `states[i + 1]`.
pub open spec fn is_history(states: Seq<ProcessState>, calls: Seq<Call>) -> bool {
    &&& states.len() == calls.len() + 1
    &&& forall|i: int|
        0 <= i < calls.len() ==> states[i].serves(#[trigger] calls[i], states[i + 1])
}

proof fn lemma_selection_survives_call(before: ProcessState, call: Call, after: ProcessState)
    requires
        before.serves(call, after),
    ensures
        before.chain.selected is Some ==> after.chain == before.chain,
        call.lookup is Fetch && call.result is Ok ==> after.chain.selected is Some,
{
    match call.lookup {
        Lookup::Hit(_) => {},
        Lookup::Fetch(request) => {
            if before.chain.selected is Some {
                law_selected_credential_is_asked_alone(
                    request@,
                    call.chains,
                    call.requests,
                    call.replies,
                    call.result,
                );
            } else if call.result is Ok {
                law_success_is_the_last_answer(
                    request@,
                    call.chains,
                    call.requests,
                    call.replies,
                    call.result,
                );
            }
        },
    }
}

proof fn lemma_selection_survives(states: Seq<ProcessState>, calls: Seq<Call>, i: int, j: int)
    requires
        is_history(states, calls),
        0 <= i <= j < states.len(),
        states[i].chain.selected is Some,
    ensures
        states[j].chain == states[i].chain,
    decreases j - i,
{
    if i < j {
        lemma_selection_survives(states, calls, i, j - 1);
        assert(states[j - 1].serves(calls[j - 1], states[j - 1 + 1]));
        lemma_selection_survives_call(states[j - 1], calls[j - 1], states[j]);
    }
}

proof fn lemma_cached_token_was_issued(states: Seq<ProcessState>, calls: Seq<Call>, i: int)
    requires
        is_history(states, calls),
        states[0].initial(),
        0 <= i < states.len(),
    ensures
        states[i].chain.selected is None ==> states[i].tokens == Tokens::empty(),
    decreases i,
{
    if i > 0 {
        lemma_cached_token_was_issued(states, calls, i - 1);
        assert(states[i - 1].serves(calls[i - 1], states[i - 1 + 1]));
        lemma_selection_survives_call(states[i - 1], calls[i - 1], states[i]);
    }
}

/// Where the call `calls[i]` returned `token`, and the token is fresh at every later call up to
/// `j`, the cache still holds it at `j`.
proof fn lemma_token_stays_cached(
    states: Seq<ProcessState>,
    calls: Seq<Call>,
    i: int,
    j: int,
    token: AccessToken,
)
    requires
        is_history(states, calls),
        0 <= i < j < states.len(),
        calls[i].result == Ok::<AccessToken, TokenError>(token),
        forall|k: int| i < k < j ==> token.fresh((#[trigger] calls[k]).now),
    ensures
        states[j].tokens.contains_key(canonical(calls[i].scopes)),
        states[j].tokens[canonical(calls[i].scopes)] == token,
    decreases j,
{
    if j == i + 1 {
        assert(states[i].serves(calls[i], states[i + 1]));
    } else {
        lemma_token_stays_cached(states, calls, i, j - 1, token);
        let call = calls[j - 1];
        assert(states[j - 1].serves(call, states[j - 1 + 1]));
        assert(token.fresh(call.now));
        if canonical(call.scopes) == canonical(calls[i].scopes) {
            assert(call.lookup is Hit);
        }
    }
}

/// In a process that began with nothing cached and nothing selected, a call that returned a token
/// leaves a credential selected, and it stays selected.
pub proof fn law_success_leaves_a_credential_selected(
    states: Seq<ProcessState>,
    calls: Seq<Call>,
    i: int,
    j: int,
)
    requires
        is_history(states, calls),
        states[0].initial(),
        0 <= i < j < states.len(),
        calls[i].result is Ok,
    ensures
        states[i + 1].chain.selected is Some,
        states[j].chain == states[i + 1].chain,
{
    assert(states[i].serves(calls[i], states[i + 1]));
    lemma_selection_survives_call(states[i], calls[i], states[i + 1]);
    lemma_cached_token_was_issued(states, calls, i);
    lemma_selection_survives(states, calls, i + 1, j);
}

/// After a call returned a token, a later call for the same scopes, in any order and with any
/// repetitions, returns that token, asks no credential and changes nothing, as long as it
/// expires more than five minutes after each call since. What does so at a time did so at every
/// earlier time, so that this is the case where it does so at the later call and the clock was not
/// set back.
pub proof fn law_fresh_token_is_returned_again(
    states: Seq<ProcessState>,
    calls: Seq<Call>,
    i: int,
    j: int,
    token: AccessToken,
    answer: Result<String, String>,
)
    requires
        is_history(states, calls),
        0 <= i < j < calls.len(),
        calls[i].result == Ok::<AccessToken, TokenError>(token),
        same_scopes(calls[i].scopes, calls[j].scopes),
        forall|k: int|
            i < k <= j ==> token.expires_on > (#[trigger] calls[k]).now + 300 * 1_000_000_000,
        answers(calls[j].result, answer),
    ensures
        calls[j].requests.len() == 0,
        calls[j].result == Ok::<AccessToken, TokenError>(token),
        answer matches Ok(secret) && secret@ == token.token@,
        states[j + 1] == states[j],
{
    assert forall|k: int| i < k < j implies token.fresh((#[trigger] calls[k]).now) by {
        assert(token.expires_on > calls[k].now + 300 * 1_000_000_000);
    }
    lemma_token_stays_cached(states, calls, i, j, token);
    law_canonical_ignores_order_and_repetition(calls[i].scopes, calls[j].scopes);
    assert(states[j].serves(calls[j], states[j + 1]));
    assert(token.fresh(calls[j].now));
}

/// Once a credential is selected, a call that needs a new token asks that credential alone, for the
/// call's scopes, and its answer is the result, with no fallback to another. A call that needs none
/// asks nothing.
pub proof fn law_new_token_comes_from_the_selected_credential(
    states: Seq<ProcessState>,
    calls: Seq<Call>,
    i: int,
    j: int,
    selected: int,
)
    requires
        is_history(states, calls),
        0 <= i <= j < calls.len(),
        states[i].chain.selected == Some(selected),
    ensures
        calls[j].lookup is Hit ==> calls[j].requests.len() == 0,
        calls[j].lookup is Fetch ==> {
            &&& calls[j].requests.len() == 1
            &&& calls[j].requests[0].index == selected
            &&& calls[j].requests[0].query == canonical(calls[j].scopes)
            &&& calls[j].result == calls[j].replies[0]
        },
        states[j + 1].chain == states[i].chain,
{
    lemma_selection_survives(states, calls, i, j);
    assert(states[j].serves(calls[j], states[j + 1]));
    lemma_selection_survives_call(states[j], calls[j], states[j + 1]);
    match calls[j].lookup {
        Lookup::Hit(_) => {},
        Lookup::Fetch(request) => {
            law_selected_credential_is_asked_alone(
                request@,
                calls[j].chains,
                calls[j].requests,
                calls[j].replies,
                calls[j].result,
            );
        },
    }
}

/// A call that looks up its scopes and finds a token is served by it: nothing is asked and nothing
/// changes.
pub proof fn law_found_token_serves_the_call<C>(
    cache: CachedCredential<C>,
    scopes: Vec<String>,
    now: i128,
    token: AccessToken,
    state: ProcessState,
    call: Call,
)
    requires
        call_ensures(
            CachedCredential::<C>::get_token_at,
            (&cache, scopes, now),
            Lookup::Hit(token),
        ),
        state.tokens == cache@,
        call.scopes == texts(scopes@),
        call.now == now,
        call.lookup == Lookup::Hit(token),
        call.requests.len() == 0,
        call.replies.len() == 0,
        call.result == Ok::<AccessToken, TokenError>(token),
    ensures
        state.serves(call, state),
{
}

/// A call that looks up its scopes and finds none, has the chain serve a request for the scopes to
/// fetch, and goes on with its result, is served: it gets that result, and a token is kept under
/// the scopes that were fetched.
pub proof fn law_fetched_result_serves_the_call<C>(
    earlier: CachedCredential<C>,
    scopes: Vec<String>,
    now: i128,
    request: FetchRequest,
    cache: &mut CachedCredential<C>,
    result: Result<AccessToken, TokenError>,
    before: ProcessState,
    call: Call,
    after: ProcessState,
)
    requires
        call_ensures(
            CachedCredential::<C>::get_token_at,
            (&earlier, scopes, now),
            Lookup::Fetch(request),
        ),
        complete_request(request@, call.chains, call.requests, call.replies, call.result),
        earlier == *old(cache),
        call_ensures(
            CachedCredential::<C>::resume::<TokenError>,
            (cache, request, call.result),
            result,
        ),
        call.scopes == texts(scopes@),
        call.now == now,
        call.lookup == Lookup::Fetch(request),
        before.tokens == old(cache)@,
        before.chain == call.chains[0],
        after.tokens == final(cache)@,
        after.chain == call.chains.last(),
    ensures
        before.serves(call, after),
        result == call.result,
{
}

} // verus!
