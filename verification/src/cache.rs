//! The token cache: a token is kept under the scopes that it was issued for until shortly before
//! it expires.
use vstd::prelude::*;
use crate::scope::{
    ascending, canonical, canonical_scopes, law_canonical_holds_each_scope_once_in_order,
    law_canonical_ignores_order_and_repetition, law_canonical_is_sorted_and_complete,
    law_canonical_separates, law_scope_order_is_total, same_scopes, scope_before, texts,
};

verus! {

/// A token is not used any more when this much time or less is left before it expires.
pub const REFRESH_OFFSET_SECONDS: i64 = 300;

const REFRESH_OFFSET_NANOSECONDS: i128 = 300_000_000_000;

/// An access token, and the time at which it expires, in nanoseconds since the Unix epoch.
pub struct AccessToken {
    pub token: String,
    pub expires_on: i128,
}

impl Clone for AccessToken {
    fn clone(&self) -> (copy: Self)
        ensures
            copy == *self,
    {
        AccessToken { token: self.token.clone(), expires_on: self.expires_on }
    }
}

impl AccessToken {
    /// Whether more than the refresh offset is left at the time `now`.
    pub open spec fn fresh(self, now: int) -> bool {
        self.expires_on > now + REFRESH_OFFSET_SECONDS * 1_000_000_000
    }

    /// Whether more than the refresh offset is left at the time `now`.
    pub fn is_fresh(&self, now: i128) -> (fresh: bool)
        ensures
            fresh == self.fresh(now as int),
    {
        now <= i128::MAX - REFRESH_OFFSET_NANOSECONDS && self.expires_on > now
            + REFRESH_OFFSET_NANOSECONDS
    }
}

struct CacheEntry {
    scopes: Vec<String>,
    token: AccessToken,
}

/// A credential, and the tokens that it issued.
pub struct CachedCredential<C> {
    credential: C,
    tokens: Vec<CacheEntry>,
}

/// A request for a token that waits for the answer of the credential.
pub struct FetchRequest {
    scopes: Vec<String>,
}

/// What the cache has to say to a request.
pub enum Lookup {
    /// The token of the cache is the result.
    Hit(AccessToken),
    /// Put the request's scopes to the credential, then go on with its answer.
    Fetch(FetchRequest),
}

/// The cached tokens, by the scopes that they were issued for.
pub type Tokens = Map<Seq<Seq<char>>, AccessToken>;

/// Whether `lookup` answers a request for `scopes` at the time `now`: the token that is kept under
/// these scopes, as long as it is fresh; otherwise a fetch, with the scopes sorted and without
/// repetitions.
pub open spec fn looks_up(
    tokens: Tokens,
    scopes: Seq<Seq<char>>,
    now: int,
    lookup: Lookup,
) -> bool {
    let key = canonical(scopes);
    match lookup {
        Lookup::Hit(token) => tokens.contains_key(key) && tokens[key] == token && token.fresh(now),
        Lookup::Fetch(request) => request@ == key && !(tokens.contains_key(key)
            && tokens[key].fresh(now)),
    }
}

impl View for FetchRequest {
    type V = Seq<Seq<char>>;

    closed spec fn view(&self) -> Seq<Seq<char>> {
        texts(self.scopes@)
    }
}

impl FetchRequest {
    /// The scopes to ask for.
    pub fn scopes(&self) -> (scopes: &Vec<String>)
        ensures
            texts(scopes@) == self@,
    {
        &self.scopes
    }
}

/// The current time, in nanoseconds since the Unix epoch.
///
/// Calls `OffsetDateTime::now_utc` and `OffsetDateTime::unix_timestamp_nanos` of the `time` crate,
/// as `azure_core` exports it. Nothing is claimed of the result, which is the reading of the
/// system's clock.
#[verifier::external_body]
fn now_utc() -> i128 {
    azure_core::time::OffsetDateTime::now_utc().unix_timestamp_nanos()
}

/// Whether the system's clock may read `now`.
pub closed spec fn clock_reads(now: i128) -> bool {
    call_ensures(now_utc, (), now)
}

/// Whether two lists of strings are the same.
fn same_texts(a: &Vec<String>, b: &Vec<String>) -> (same: bool)
    ensures
        same == (texts(a@) == texts(b@)),
{
    let ghost x = texts(a@);
    let ghost y = texts(b@);
    if a.len() != b.len() {
        assert(x.len() != y.len());
        return false;
    }
    let mut i: usize = 0;
    while i < a.len()
        invariant
            x == texts(a@),
            y == texts(b@),
            a@.len() == b@.len(),
            i <= a@.len(),
            forall|j: int| 0 <= j < i ==> x[j] == y[j],
        decreases a@.len() - i,
    {
        if a[i] != b[i] {
            assert(x[i as int] != y[i as int]);
            return false;
        }
        i = i + 1;
    }
    assert(x =~= y);
    true
}

impl CacheEntry {
    spec fn key(self) -> Seq<Seq<char>> {
        texts(self.scopes@)
    }
}

spec fn holds_key(entries: Seq<CacheEntry>, key: Seq<Seq<char>>) -> bool {
    exists|i: int| 0 <= i < entries.len() && (#[trigger] entries[i]).key() == key
}

spec fn position_of(entries: Seq<CacheEntry>, key: Seq<Seq<char>>) -> int {
    choose|i: int| 0 <= i < entries.len() && (#[trigger] entries[i]).key() == key
}

spec fn distinct_keys(entries: Seq<CacheEntry>) -> bool {
    forall|i: int, j: int|
        0 <= i < j < entries.len() ==> (#[trigger] entries[i]).key() != (
        #[trigger] entries[j]).key()
}

spec fn tokens_of(entries: Seq<CacheEntry>) -> Tokens {
    Map::new(
        |key: Seq<Seq<char>>| holds_key(entries, key),
        |key: Seq<Seq<char>>| entries[position_of(entries, key)].token,
    )
}

proof fn lemma_entry_is_found(entries: Seq<CacheEntry>, i: int)
    requires
        distinct_keys(entries),
        0 <= i < entries.len(),
    ensures
        tokens_of(entries).contains_key(entries[i].key()),
        tokens_of(entries)[entries[i].key()] == entries[i].token,
{
    let key = entries[i].key();
    assert(holds_key(entries, key));
    let k = position_of(entries, key);
    assert(0 <= k < entries.len() && entries[k].key() == key);
    assert(k == i);
}

/// An entry put in place of the one with the same key, or at the end where there is none.
proof fn lemma_entry_is_stored(before: Seq<CacheEntry>, i: int, entry: CacheEntry)
    requires
        distinct_keys(before),
        0 <= i <= before.len(),
        i < before.len() ==> before[i].key() == entry.key(),
        i == before.len() ==> !holds_key(before, entry.key()),
    ensures
        ({
            let after = if i < before.len() { before.update(i, entry) } else { before.push(entry) };
            &&& distinct_keys(after)
            &&& tokens_of(after) == tokens_of(before).insert(entry.key(), entry.token)
        }),
{
    let after = if i < before.len() { before.update(i, entry) } else { before.push(entry) };
    assert(forall|j: int|
        0 <= j < before.len() ==> (#[trigger] after[j]).key() == before[j].key());
    assert(after[i] == entry);
    assert forall|j: int| 0 <= j < before.len() && j != i implies (#[trigger] before[j]).key()
        != entry.key() by {
        if i < before.len() {
            assert(before[i].key() == entry.key());
        } else {
            assert(!holds_key(before, entry.key()));
        }
    }
    assert(distinct_keys(after));
    lemma_entry_is_found(after, i);
    let expected = tokens_of(before).insert(entry.key(), entry.token);
    assert forall|key: Seq<Seq<char>>|
        tokens_of(after).contains_key(key) == #[trigger] expected.contains_key(key) && (
        expected.contains_key(key) ==> tokens_of(after)[key] == expected[key]) by {
        if key != entry.key() {
            if holds_key(before, key) {
                let j = position_of(before, key);
                assert(before[j].key() == key);
                assert(after[j] == before[j]);
                lemma_entry_is_found(before, j);
                lemma_entry_is_found(after, j);
            } else if holds_key(after, key) {
                let j = position_of(after, key);
                assert(after[j].key() == key);
                assert(j != i);
                assert(before[j].key() == key);
            }
        }
    }
    assert(tokens_of(after) =~= expected);
}

impl<C> View for CachedCredential<C> {
    type V = Tokens;

    closed spec fn view(&self) -> Tokens {
        tokens_of(self.tokens@)
    }
}

impl<C> CachedCredential<C> {
    /// No two tokens are kept under the same scopes.
    pub closed spec fn valid(&self) -> bool {
        distinct_keys(self.tokens@)
    }

    /// The credential that issues the tokens.
    pub closed spec fn spec_credential(&self) -> C {
        self.credential
    }

    /// An empty cache in front of `credential`.
    pub fn new(credential: C) -> (cache: Self)
        ensures
            cache.valid(),
            cache.spec_credential() == credential,
            cache@ == Tokens::empty(),
    {
        let cache = CachedCredential { credential, tokens: Vec::new() };
        assert(cache@ =~= Tokens::empty());
        cache
    }

    /// The credential that issues the tokens.
    pub fn credential(&self) -> (credential: &C)
        ensures
            *credential == self.spec_credential(),
    {
        &self.credential
    }

    /// Where the token of these scopes stands.
    fn find(&self, scopes: &Vec<String>) -> (position: Option<usize>)
        requires
            self.valid(),
        ensures
            match position {
                Some(i) => {
                    &&& i < self.tokens@.len()
                    &&& self.tokens@[i as int].key() == texts(scopes@)
                    &&& self@.contains_key(texts(scopes@))
                    &&& self@[texts(scopes@)] == self.tokens@[i as int].token
                },
                None => !holds_key(self.tokens@, texts(scopes@)),
            },
    {
        let ghost key = texts(scopes@);
        let mut i: usize = 0;
        while i < self.tokens.len()
            invariant
                self.valid(),
                key == texts(scopes@),
                i <= self.tokens@.len(),
                forall|j: int| 0 <= j < i ==> (#[trigger] self.tokens@[j]).key() != key,
            decreases self.tokens@.len() - i,
        {
            if same_texts(&self.tokens[i].scopes, scopes) {
                assert(self.tokens@[i as int].key() == key);
                proof {
                    lemma_entry_is_found(self.tokens@, i as int);
                }
                return Some(i);
            }
            i = i + 1;
        }
        None
    }

    /// Begins a request for a token at the time `now`, in nanoseconds since the Unix epoch.
    pub fn get_token_at(&self, scopes: Vec<String>, now: i128) -> (lookup: Lookup)
        requires
            self.valid(),
        ensures
            looks_up(self@, texts(scopes@), now as int, lookup),
    {
        let key = canonical_scopes(scopes);
        match self.find(&key) {
            Some(i) => {
                if self.tokens[i].token.is_fresh(now) {
                    Lookup::Hit(self.tokens[i].token.clone())
                } else {
                    Lookup::Fetch(FetchRequest { scopes: key })
                }
            },
            None => Lookup::Fetch(FetchRequest { scopes: key }),
        }
    }

    /// Begins a request for a token now.
    pub fn get_token(&self, scopes: Vec<String>) -> (lookup: Lookup)
        requires
            self.valid(),
        ensures
            exists|now: i128| #[trigger]
                clock_reads(now) && looks_up(self@, texts(scopes@), now as int, lookup),
    {
        let now = now_utc();
        assert(clock_reads(now));
        self.get_token_at(scopes, now)
    }

    /// Goes on with a request, given the answer of the credential: a token is kept under the
    /// request's scopes, in place of an earlier one, and handed on; an error is handed on.
    pub fn resume<E>(&mut self, request: FetchRequest, reply: Result<AccessToken, E>) -> (result:
        Result<AccessToken, E>)
        requires
            old(self).valid(),
        ensures
            final(self).valid(),
            final(self).spec_credential() == old(self).spec_credential(),
            result == reply,
            final(self)@ == match reply {
                Ok(token) => old(self)@.insert(request@, token),
                Err(_) => old(self)@,
            },
    {
        match reply {
            Ok(token) => {
                self.store(request.scopes, token.clone());
                Ok(token)
            },
            Err(error) => Err(error),
        }
    }

    fn store(&mut self, scopes: Vec<String>, token: AccessToken)
        requires
            old(self).valid(),
        ensures
            final(self).valid(),
            final(self).credential == old(self).credential,
            final(self)@ == old(self)@.insert(texts(scopes@), token),
    {
        let entry = CacheEntry { scopes, token };
        match self.find(&entry.scopes) {
            Some(i) => {
                proof {
                    lemma_entry_is_stored(self.tokens@, i as int, entry);
                }
                self.tokens[i] = entry;
            },
            None => {
                proof {
                    lemma_entry_is_stored(self.tokens@, self.tokens@.len() as int, entry);
                }
                self.tokens.push(entry);
            },
        }
    }
}

/// The answer to a request is determined by the cached tokens, the scopes and the time: a hit on
/// one token, or a fetch of one list of scopes.
pub proof fn law_lookup_is_determined(
    tokens: Tokens,
    scopes: Seq<Seq<char>>,
    now: int,
    lookup: Lookup,
    other: Lookup,
)
    requires
        looks_up(tokens, scopes, now, lookup),
        looks_up(tokens, scopes, now, other),
    ensures
        match (lookup, other) {
            (Lookup::Hit(token), Lookup::Hit(other)) => token == other,
            (Lookup::Fetch(request), Lookup::Fetch(other)) => request@ == other@,
            _ => false,
        },
{
}

/// A token that was fetched for some scopes is the answer to a request for the same scopes, in any
/// order and with any repetitions, as long as it is fresh.
pub proof fn law_fetched_token_is_reused(
    tokens: Tokens,
    scopes: Seq<Seq<char>>,
    then: int,
    request: FetchRequest,
    token: AccessToken,
    again: Seq<Seq<char>>,
    now: int,
    lookup: Lookup,
)
    requires
        looks_up(tokens, scopes, then, Lookup::Fetch(request)),
        same_scopes(scopes, again),
        token.expires_on > now + 300 * 1_000_000_000,
        looks_up(tokens.insert(request@, token), again, now, lookup),
    ensures
        lookup == Lookup::Hit(token),
{
    law_canonical_ignores_order_and_repetition(scopes, again);
}

/// A token of which no more than the refresh offset is left is fetched anew.
pub proof fn law_expiring_token_is_fetched_anew(
    tokens: Tokens,
    scopes: Seq<Seq<char>>,
    now: int,
    lookup: Lookup,
)
    requires
        looks_up(tokens, scopes, now, lookup),
        tokens.contains_key(canonical(scopes)),
        tokens[canonical(scopes)].expires_on <= now + 300 * 1_000_000_000,
    ensures
        lookup is Fetch,
{
}

/// A token that is not fresh at some time is not fresh at any later time.
pub proof fn law_stale_token_stays_stale(token: AccessToken, now: int, later: int)
    requires
        !token.fresh(now),
        now <= later,
    ensures
        !token.fresh(later),
{
}

/// A fetch for some scopes changes nothing for requests for others.
pub proof fn law_other_scopes_are_unaffected(
    tokens: Tokens,
    scopes: Seq<Seq<char>>,
    then: int,
    request: FetchRequest,
    token: AccessToken,
    others: Seq<Seq<char>>,
    now: int,
    lookup: Lookup,
)
    requires
        looks_up(tokens, scopes, then, Lookup::Fetch(request)),
        !same_scopes(scopes, others),
    ensures
        looks_up(tokens.insert(request@, token), others, now, lookup) == looks_up(
            tokens,
            others,
            now,
            lookup,
        ),
{
    if canonical(scopes) == canonical(others) {
        law_canonical_separates(scopes, others);
    }
}

/// The credential is asked for exactly the scopes of the request, each once and in ascending order.
pub proof fn law_fetch_asks_for_every_scope_once(
    tokens: Tokens,
    scopes: Seq<Seq<char>>,
    now: int,
    request: FetchRequest,
)
    requires
        looks_up(tokens, scopes, now, Lookup::Fetch(request)),
    ensures
        ascending(request@),
        same_scopes(request@, scopes),
        request@.no_duplicates(),
        scopes.len() > 0 ==> request@.len() > 0,
{
    law_canonical_is_sorted_and_complete(scopes);
    assert forall|i: int, j: int|
        0 <= i < request@.len() && 0 <= j < request@.len() && i != j implies request@[i]
        != request@[j] by {
        law_scope_order_is_total(request@[i], request@[j], request@[i]);
    }
    if scopes.len() > 0 {
        assert(scopes.contains(scopes[0]));
        assert(request@.contains(scopes[0]));
    }
}

/// The refresh offset is five minutes.
pub proof fn law_refresh_offset_is_five_minutes()
    ensures
        REFRESH_OFFSET_SECONDS == 5 * 60,
{
}

/// A token is fresh exactly as long as it expires more than five minutes later, whenever that is.
pub proof fn law_token_is_fresh_until_five_minutes_before_it_expires(
    token: AccessToken,
    now: i128,
    fresh: bool,
    time: int,
)
    requires
        call_ensures(AccessToken::is_fresh, (&token, now), fresh),
    ensures
        fresh <==> token.expires_on > now + 300 * 1_000_000_000,
        token.fresh(time) <==> token.expires_on > time + 300 * 1_000_000_000,
        call_requires(AccessToken::is_fresh, (&token, now)),
{
}

/// A copy of a token is that token.
pub proof fn law_copy_is_the_token(token: AccessToken, copy: AccessToken)
    requires
        call_ensures(AccessToken::clone, (&token,), copy),
    ensures
        copy.token@ == token.token@,
        copy.expires_on == token.expires_on,
        copy == token,
{
}

/// The answer to a request is a hit on the token that is kept under the request's scopes exactly
/// where that token expires more than five minutes later; otherwise the scopes are fetched.
pub proof fn law_lookup_hits_exactly_a_token_with_time_left(
    tokens: Tokens,
    scopes: Seq<Seq<char>>,
    now: int,
    lookup: Lookup,
)
    requires
        looks_up(tokens, scopes, now, lookup),
    ensures
        (tokens.contains_key(canonical(scopes)) && tokens[canonical(scopes)].expires_on > now + 300
            * 1_000_000_000) <==> lookup is Hit,
        lookup matches Lookup::Hit(token) ==> token == tokens[canonical(scopes)],
        lookup matches Lookup::Fetch(request) ==> request@ == canonical(scopes),
{
}

/// Whatever a cache holds, it answers a request at some time with the token under the sorted scopes
/// exactly where that token expires more than five minutes later, and otherwise with a fetch of the
/// sorted scopes.
pub proof fn law_request_is_answered_from_the_sorted_scopes<C>(
    cache: CachedCredential<C>,
    scopes: Vec<String>,
    key: Vec<String>,
    now: i128,
    lookup: Lookup,
)
    requires
        call_ensures(canonical_scopes, (scopes,), key),
        call_ensures(CachedCredential::<C>::get_token_at, (&cache, scopes, now), lookup),
    ensures
        cache@.contains_key(texts(key@)) && cache@[texts(key@)].expires_on > now + 300
            * 1_000_000_000 ==> lookup == Lookup::Hit(cache@[texts(key@)]),
        !(cache@.contains_key(texts(key@)) && cache@[texts(key@)].expires_on > now + 300
            * 1_000_000_000) ==> (lookup matches Lookup::Fetch(request) && request@ == texts(
            key@,
        )),
{
}

/// A request without a time is answered as one at some time that the clock may read.
pub proof fn law_request_is_answered_at_the_time_of_the_clock<C>(
    cache: CachedCredential<C>,
    scopes: Vec<String>,
    lookup: Lookup,
) -> (now: i128)
    requires
        call_ensures(CachedCredential::<C>::get_token, (&cache, scopes), lookup),
    ensures
        clock_reads(now),
        cache@.contains_key(canonical(texts(scopes@))) && cache@[canonical(
            texts(scopes@),
        )].expires_on > now + 300 * 1_000_000_000 ==> lookup == Lookup::Hit(
            cache@[canonical(texts(scopes@))],
        ),
        !(cache@.contains_key(canonical(texts(scopes@))) && cache@[canonical(
            texts(scopes@),
        )].expires_on > now + 300 * 1_000_000_000) ==> (lookup matches Lookup::Fetch(request)
            && request@ == canonical(texts(scopes@))),
{
    choose|now: i128| #[trigger]
        clock_reads(now) && looks_up(cache@, texts(scopes@), now as int, lookup)
}

/// What the clock may read is what the system's clock reads.
proof fn law_clock_is_that_of_the_system(now: i128)
    ensures
        clock_reads(now) <==> call_ensures(now_utc, (), now),
{
}

/// A fetch asks the credential for exactly the scopes of the request, each once and in ascending
/// order.
pub proof fn law_credential_is_asked_for_the_given_scopes<C>(
    cache: CachedCredential<C>,
    scopes: Vec<String>,
    now: i128,
    request: FetchRequest,
    asked: &Vec<String>,
)
    requires
        call_ensures(
            CachedCredential::<C>::get_token_at,
            (&cache, scopes, now),
            Lookup::Fetch(request),
        ),
        call_ensures(FetchRequest::scopes, (&request,), asked),
    ensures
        forall|scope: Seq<char>| #[trigger]
            texts(asked@).contains(scope) <==> texts(scopes@).contains(scope),
        forall|i: int, j: int|
            0 <= i < j < asked@.len() ==> scope_before(
                (#[trigger] asked@[i])@,
                (#[trigger] asked@[j])@,
            ) && asked@[i]@ != asked@[j]@,
        texts(asked@) == request@,
{
    law_canonical_holds_each_scope_once_in_order(texts(scopes@));
    assert forall|i: int, j: int| 0 <= i < j < asked@.len() implies scope_before(
        (#[trigger] asked@[i])@,
        (#[trigger] asked@[j])@,
    ) && asked@[i]@ != asked@[j]@ by {
        assert(texts(asked@)[i] == asked@[i]@ && texts(asked@)[j] == asked@[j]@);
    }
}

/// The answer of the credential is handed on as it came. A token is kept under the scopes of the
/// request and nothing else changes; on an error nothing changes at all.
pub proof fn law_answer_is_handed_on_and_a_token_kept<C, E>(
    cache: &mut CachedCredential<C>,
    request: FetchRequest,
    reply: Result<AccessToken, E>,
    result: Result<AccessToken, E>,
    other: Seq<Seq<char>>,
)
    requires
        call_ensures(CachedCredential::<C>::resume::<E>, (cache, request, reply), result),
    ensures
        result == reply,
        final(cache).spec_credential() == old(cache).spec_credential(),
        reply is Err ==> final(cache)@ == old(cache)@,
        reply matches Ok(token) ==> final(cache)@.contains_key(request@)
            && final(cache)@[request@] == token,
        other != request@ ==> {
            &&& final(cache)@.contains_key(other) <==> old(cache)@.contains_key(other)
            &&& old(cache)@.contains_key(other) ==> final(cache)@[other] == old(cache)@[other]
        },
{
}

/// A new cache holds no token and the credential that it was given, so that every request is
/// fetched.
pub proof fn law_new_cache_holds_no_token<C>(
    credential: C,
    cache: CachedCredential<C>,
    held: &C,
    scopes: Vec<String>,
    now: i128,
    lookup: Lookup,
)
    requires
        call_ensures(CachedCredential::<C>::new, (credential,), cache),
        call_ensures(CachedCredential::<C>::credential, (&cache,), held),
        call_ensures(CachedCredential::<C>::get_token_at, (&cache, scopes, now), lookup),
    ensures
        forall|key: Seq<Seq<char>>| !#[trigger] cache@.contains_key(key),
        cache.spec_credential() == credential,
        *held == credential,
        lookup is Fetch,
{
}

/// The credential that a cache hands out is the one that it was made with, whatever was answered
/// since.
pub proof fn law_credential_stays<C, E>(
    cache: &mut CachedCredential<C>,
    before: &C,
    request: FetchRequest,
    reply: Result<AccessToken, E>,
    result: Result<AccessToken, E>,
    later: CachedCredential<C>,
    after: &C,
)
    requires
        call_ensures(CachedCredential::<C>::credential, (&*old(cache),), before),
        call_ensures(CachedCredential::<C>::resume::<E>, (cache, request, reply), result),
        later == *final(cache),
        call_ensures(CachedCredential::<C>::credential, (&later,), after),
    ensures
        *after == *before,
{
}

/// After the token for a fetch was obtained, a request for the same scopes, in any order and with
/// any repetitions, is answered with that token as long as it expires more than five minutes later,
/// and then fetches the same scopes again.
pub proof fn law_obtained_token_answers_the_same_scopes<C, E>(
    first: CachedCredential<C>,
    scopes: Vec<String>,
    then: i128,
    request: FetchRequest,
    cache: &mut CachedCredential<C>,
    token: AccessToken,
    result: Result<AccessToken, E>,
    later: CachedCredential<C>,
    again: Vec<String>,
    now: i128,
    lookup: Lookup,
)
    requires
        call_ensures(
            CachedCredential::<C>::get_token_at,
            (&first, scopes, then),
            Lookup::Fetch(request),
        ),
        call_ensures(CachedCredential::<C>::resume::<E>, (cache, request, Ok(token)), result),
        later == *final(cache),
        call_ensures(CachedCredential::<C>::get_token_at, (&later, again, now), lookup),
        forall|scope: Seq<char>| #[trigger]
            texts(scopes@).contains(scope) <==> texts(again@).contains(scope),
    ensures
        token.expires_on > now + 300 * 1_000_000_000 ==> lookup == Lookup::Hit(token),
        token.expires_on <= now + 300 * 1_000_000_000 ==> (lookup matches Lookup::Fetch(next)
            && next@ == request@),
{
    assert(same_scopes(texts(scopes@), texts(again@)));
    law_canonical_ignores_order_and_repetition(texts(scopes@), texts(again@));
}

/// After the token for a fetch was obtained, a request for scopes that are not the same is answered
/// as before.
pub proof fn law_obtained_token_answers_no_other_scopes<C, E>(
    first: CachedCredential<C>,
    scopes: Vec<String>,
    then: i128,
    request: FetchRequest,
    cache: &mut CachedCredential<C>,
    token: AccessToken,
    result: Result<AccessToken, E>,
    earlier: CachedCredential<C>,
    later: CachedCredential<C>,
    others: Vec<String>,
    scope: Seq<char>,
    now: i128,
    lookup: Lookup,
    before: Lookup,
)
    requires
        call_ensures(
            CachedCredential::<C>::get_token_at,
            (&first, scopes, then),
            Lookup::Fetch(request),
        ),
        earlier == *old(cache),
        call_ensures(CachedCredential::<C>::resume::<E>, (cache, request, Ok(token)), result),
        later == *final(cache),
        texts(scopes@).contains(scope) != texts(others@).contains(scope),
        call_ensures(CachedCredential::<C>::get_token_at, (&earlier, others, now), before),
        call_ensures(CachedCredential::<C>::get_token_at, (&later, others, now), lookup),
    ensures
        lookup is Hit <==> before is Hit,
        lookup matches Lookup::Hit(hit) ==> before == Lookup::Hit(hit),
        lookup matches Lookup::Fetch(fetch) ==> before->Fetch_0@ == fetch@,
{
    if canonical(texts(scopes@)) == canonical(texts(others@)) {
        law_canonical_separates(texts(scopes@), texts(others@));
        assert(same_scopes(texts(scopes@), texts(others@)));
    }
}

/// A cache can be asked for any scopes at any time, and goes on with any answer: a new one, and
/// one that went on with an answer.
pub proof fn law_cache_can_always_be_asked<C, E>(
    credential: C,
    new: CachedCredential<C>,
    cache: &mut CachedCredential<C>,
    request: FetchRequest,
    reply: Result<AccessToken, E>,
    result: Result<AccessToken, E>,
    later: CachedCredential<C>,
    again: &mut CachedCredential<C>,
    scopes: Vec<String>,
    now: i128,
)
    requires
        call_ensures(CachedCredential::<C>::new, (credential,), new),
        call_ensures(CachedCredential::<C>::resume::<E>, (cache, request, reply), result),
        later == *final(cache),
        *old(again) == new || *old(again) == later,
    ensures
        call_requires(CachedCredential::<C>::get_token_at, (&new, scopes, now)),
        call_requires(CachedCredential::<C>::get_token, (&new, scopes)),
        call_requires(CachedCredential::<C>::get_token_at, (&later, scopes, now)),
        call_requires(CachedCredential::<C>::get_token, (&later, scopes)),
        call_requires(CachedCredential::<C>::resume::<E>, (again, request, reply)),
        call_requires(CachedCredential::<C>::credential, (&later,)),
        call_requires(CachedCredential::<C>::new, (credential,)),
        call_requires(FetchRequest::scopes, (&request,)),
{
}

} // verus!
