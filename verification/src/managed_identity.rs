//! Managed identity: whether its endpoint has to be looked for, and how that is done.
use vstd::prelude::*;
use crate::chain::{ActionState, ChainState, RequestState};
use crate::error::TokenError;

verus! {

/// The token endpoint of the instance metadata service (IMDS).
pub const IMDS_ENDPOINT: &'static str = "http://169.254.169.254/metadata/identity/oauth2/token";

/// How long the probe waits for a response.
pub const PROBE_TIMEOUT_SECONDS: u64 = 1;

/// Whether the SDK takes tokens from IMDS in an environment in which exactly the variables in
/// `variables` are set: an identity endpoint counts only together with a header or an IMDS
/// endpoint, and an MSI endpoint only without an identity endpoint.
pub open spec fn selects_imds(variables: Set<Seq<char>>) -> bool {
    if variables.contains("IDENTITY_ENDPOINT"@) {
        !variables.contains("IDENTITY_HEADER"@) && !variables.contains("IMDS_ENDPOINT"@)
    } else {
        !variables.contains("MSI_ENDPOINT"@)
    }
}

/// Whether `has_env` tells exactly of the names in `variables` that they are set.
pub open spec fn tells_of<F: Fn(&str) -> bool>(has_env: F, variables: Set<Seq<char>>) -> bool {
    forall|name: &str, answer: bool| #[trigger]
        has_env.ensures((name,), answer) ==> answer == variables.contains(name@)
}

/// Whether `has_env` may give the answers that lead to `imds`.
pub open spec fn answers_lead_to<F: Fn(&str) -> bool>(has_env: F, imds: bool) -> bool {
    ||| {
        &&& has_env.ensures(("IDENTITY_ENDPOINT",), true)
        &&& has_env.ensures(("IDENTITY_HEADER",), true)
        &&& !imds
    }
    ||| {
        &&& has_env.ensures(("IDENTITY_ENDPOINT",), true)
        &&& has_env.ensures(("IDENTITY_HEADER",), false)
        &&& has_env.ensures(("IMDS_ENDPOINT",), !imds)
    }
    ||| {
        &&& has_env.ensures(("IDENTITY_ENDPOINT",), false)
        &&& has_env.ensures(("MSI_ENDPOINT",), !imds)
    }
}

/// Whether `has_env` can be asked about the four variables that decide, each where those before it
/// leave the decision open. It need not be able to answer for any other name.
pub open spec fn can_be_asked<F: Fn(&str) -> bool>(has_env: F) -> bool {
    &&& has_env.requires(("IDENTITY_ENDPOINT",))
    &&& has_env.ensures(("IDENTITY_ENDPOINT",), true) ==> {
        &&& has_env.requires(("IDENTITY_HEADER",))
        &&& has_env.ensures(("IDENTITY_HEADER",), false) ==> has_env.requires(("IMDS_ENDPOINT",))
    }
    &&& has_env.ensures(("IDENTITY_ENDPOINT",), false) ==> has_env.requires(("MSI_ENDPOINT",))
}

/// Whether the managed identity credential takes its tokens from IMDS, given whether each
/// environment variable is set. A virtual machine needs no variable at all.
pub fn uses_imds(has_env: impl Fn(&str) -> bool) -> (imds: bool)
    requires
        can_be_asked(has_env),
    ensures
        answers_lead_to(has_env, imds),
        forall|variables: Set<Seq<char>>| #[trigger]
            tells_of(has_env, variables) ==> imds == selects_imds(variables),
{
    if has_env("IDENTITY_ENDPOINT") {
        !has_env("IDENTITY_HEADER") && !has_env("IMDS_ENDPOINT")
    } else {
        !has_env("MSI_ENDPOINT")
    }
}

/// Whether `f` and `g` give the same answer for `name`.
pub open spec fn agree_on<F: Fn(&str) -> bool, G: Fn(&str) -> bool>(
    f: F,
    g: G,
    name: &str,
) -> bool {
    forall|x: bool, y: bool| #[trigger]
        f.ensures((name,), x) && #[trigger] g.ensures((name,), y) ==> x == y
}

/// Only four variables matter: two environments that agree on whether an identity endpoint is set,
/// and on the header and the IMDS endpoint where it is, or on the MSI endpoint where it is not,
/// have the same source, whatever other variables are set.
pub proof fn law_no_other_variable_matters<F: Fn(&str) -> bool, G: Fn(&str) -> bool>(
    f: F,
    g: G,
    imds: bool,
    other: bool,
)
    requires
        answers_lead_to(f, imds),
        answers_lead_to(g, other),
        agree_on(f, g, "IDENTITY_ENDPOINT"),
        f.ensures(("IDENTITY_ENDPOINT",), true) ==> agree_on(f, g, "IDENTITY_HEADER") && agree_on(
            f,
            g,
            "IMDS_ENDPOINT",
        ),
        f.ensures(("IDENTITY_ENDPOINT",), false) ==> agree_on(f, g, "MSI_ENDPOINT"),
    ensures
        imds == other,
{
}

/// Answers that are true of the environment lead to the source that the SDK selects there.
pub proof fn law_true_answers_lead_to_the_selected_source<F: Fn(&str) -> bool>(
    has_env: F,
    variables: Set<Seq<char>>,
    imds: bool,
)
    requires
        tells_of(has_env, variables),
        answers_lead_to(has_env, imds),
    ensures
        imds == selects_imds(variables),
{
}

/// A request that shows whether the endpoint can be reached.
pub struct ProbeRequest {
    pub url: &'static str,
    pub method: &'static str,
    pub headers: Vec<(String, String)>,
    pub timeout_seconds: u64,
}

/// What came of a probe.
pub enum ProbeOutcome {
    /// The endpoint responded with this HTTP status.
    Response(u16),
    /// The request could not be sent or the response not be received.
    TransportError,
    /// There was no response in time.
    TimedOut,
}

/// A managed identity credential whose endpoint is probed before it is first used, where there is
/// a client to probe with.
pub struct ManagedIdentityDiscovery<C, P> {
    credential: C,
    probe_client: Option<P>,
    endpoint_available: bool,
}

/// What to do next for a request.
pub enum DiscoveryAction<Q, T> {
    /// Send the probe once, then go on with the query and what came of it.
    Probe(Q, ProbeRequest),
    /// Put the query to the credential, then go on with its answer.
    Authenticate(Q),
    /// The request is over with this result.
    Done(Result<T, TokenError>),
}

/// What an action led to.
pub enum DiscoveryEvent<Q, T> {
    /// The probe for this query had this outcome.
    Probed(Q, ProbeOutcome),
    /// The credential gave this answer.
    Authenticated(Result<T, TokenError>),
}

/// What a discovery is, apart from the credential and the client themselves: whether there is a
/// client to probe with, and whether the endpoint has responded.
pub struct DiscoveryState {
    pub probes: bool,
    pub available: bool,
}

impl ProbeRequest {
    /// A plain request of the token endpoint. IMDS answers one without a `Metadata` header with
    /// an error, so that no token is issued.
    pub open spec fn is_imds_probe(self) -> bool {
        &&& self.url@ == "http://169.254.169.254/metadata/identity/oauth2/token"@
        &&& self.method@ == "GET"@
        &&& self.headers@.len() == 0
        &&& self.timeout_seconds == 1
    }
}

/// The message when the probe shows no endpoint.
pub open spec fn unavailable_message() -> Seq<char> {
    "ManagedIdentityCredential is unavailable: IMDS discovery received no response within one second or encountered a transport error"@
}

impl DiscoveryState {
    /// Whether `action` begins a request for `query`: the endpoint is probed where there is a
    /// client to do so and it has not responded before; otherwise the credential is asked.
    pub open spec fn starts<Q, T>(self, query: Q, action: DiscoveryAction<Q, T>) -> bool {
        if self.probes && !self.available {
            action matches DiscoveryAction::Probe(asked, probe) && asked == query
                && probe.is_imds_probe()
        } else {
            action == DiscoveryAction::<Q, T>::Authenticate(query)
        }
    }

    /// Whether, on `event`, the discovery becomes `after` and `action` follows: any response
    /// makes the endpoint available for good and the credential is asked; without one the request
    /// fails; and the credential's answer is the result.
    pub open spec fn resumes<Q, T>(
        self,
        event: DiscoveryEvent<Q, T>,
        after: DiscoveryState,
        action: DiscoveryAction<Q, T>,
    ) -> bool {
        match event {
            DiscoveryEvent::Probed(query, ProbeOutcome::Response(_)) => {
                &&& after == DiscoveryState { available: true, ..self }
                &&& action == DiscoveryAction::<Q, T>::Authenticate(query)
            },
            DiscoveryEvent::Probed(_, _) => {
                &&& after == self
                &&& action matches DiscoveryAction::Done(Err(TokenError::Credential(message)))
                &&& message@ == unavailable_message()
            },
            DiscoveryEvent::Authenticated(reply) => {
                &&& after == self
                &&& action == DiscoveryAction::<Q, T>::Done(reply)
            },
        }
    }
}

impl<C, P> View for ManagedIdentityDiscovery<C, P> {
    type V = DiscoveryState;

    closed spec fn view(&self) -> DiscoveryState {
        DiscoveryState { probes: self.probe_client is Some, available: self.endpoint_available }
    }
}

impl<C, P> ManagedIdentityDiscovery<C, P> {
    /// The credential.
    pub closed spec fn spec_credential(&self) -> C {
        self.credential
    }

    /// The client to probe with.
    pub closed spec fn spec_probe_client(&self) -> Option<P> {
        self.probe_client
    }

    /// A discovery whose endpoint has not responded yet. Without a client the endpoint is not
    /// probed.
    pub fn new(credential: C, probe_client: Option<P>) -> (discovery: Self)
        ensures
            discovery@ == (DiscoveryState { probes: probe_client is Some, available: false }),
            discovery.spec_credential() == credential,
            discovery.spec_probe_client() == probe_client,
    {
        ManagedIdentityDiscovery { credential, probe_client, endpoint_available: false }
    }

    /// The credential.
    pub fn credential(&self) -> (credential: &C)
        ensures
            *credential == self.spec_credential(),
    {
        &self.credential
    }

    /// The client to probe with, where there is one.
    pub fn probe_client(&self) -> (client: Option<&P>)
        ensures
            match client {
                Some(client) => self.spec_probe_client() == Some(*client),
                None => self.spec_probe_client() is None,
            },
            client is Some == self@.probes,
    {
        match &self.probe_client {
            Some(client) => Some(client),
            None => None,
        }
    }

    /// Begins a request for a token.
    pub fn get_token<Q, T>(&self, query: Q) -> (action: DiscoveryAction<Q, T>)
        ensures
            self@.starts(query, action),
    {
        if self.probe_client.is_some() && !self.endpoint_available {
            let probe = ProbeRequest {
                url: IMDS_ENDPOINT,
                method: "GET",
                headers: Vec::new(),
                timeout_seconds: PROBE_TIMEOUT_SECONDS,
            };
            DiscoveryAction::Probe(query, probe)
        } else {
            DiscoveryAction::Authenticate(query)
        }
    }

    /// Goes on with a request, given what the last action led to.
    pub fn resume<Q, T>(&mut self, event: DiscoveryEvent<Q, T>) -> (action: DiscoveryAction<Q, T>)
        ensures
            old(self)@.resumes(event, final(self)@, action),
            final(self).spec_credential() == old(self).spec_credential(),
            final(self).spec_probe_client() == old(self).spec_probe_client(),
    {
        match event {
            DiscoveryEvent::Probed(query, outcome) => match outcome {
                ProbeOutcome::Response(_) => {
                    self.endpoint_available = true;
                    DiscoveryAction::Authenticate(query)
                },
                _ => DiscoveryAction::Done(
                    Err(
                        TokenError::Credential(
                            "ManagedIdentityCredential is unavailable: IMDS discovery received no response within one second or encountered a transport error".to_owned(),
                        ),
                    ),
                ),
            },
            DiscoveryEvent::Authenticated(reply) => DiscoveryAction::Done(reply),
        }
    }
}

/// Whether `event` is what `action` can lead to.
pub open spec fn follows<Q, T>(action: DiscoveryAction<Q, T>, event: DiscoveryEvent<Q, T>) -> bool {
    match action {
        DiscoveryAction::Probe(query, _) => {
            event matches DiscoveryEvent::Probed(probed, _) && probed == query
        },
        DiscoveryAction::Authenticate(_) => event is Authenticated,
        DiscoveryAction::Done(_) => false,
    }
}

/// One request from its beginning to its end: each action but the last led to the event of the
/// same position, and the last is the result. The discovery stood at `states[i]` before event `i`.
pub open spec fn complete_discovery<Q, T>(
    query: Q,
    states: Seq<DiscoveryState>,
    actions: Seq<DiscoveryAction<Q, T>>,
    events: Seq<DiscoveryEvent<Q, T>>,
) -> bool {
    &&& states.len() == events.len() + 1
    &&& actions.len() == events.len() + 1
    &&& states[0].starts(query, actions[0])
    &&& forall|i: int|
        0 <= i < events.len() ==> follows(actions[i], #[trigger] events[i]) && states[i].resumes(
            events[i],
            states[i + 1],
            actions[i + 1],
        )
    &&& actions.last() is Done
}

/// Every request goes one of three ways. Where the endpoint is known, or is not to be looked for,
/// the credential alone is asked and its answer is the result. Otherwise the endpoint is probed
/// once: after any response the credential is asked, its answer is the result and the endpoint is
/// known; without one the request fails, the credential is not asked and nothing changes.
pub proof fn law_discovery_probes_at_most_once<Q, T>(
    query: Q,
    states: Seq<DiscoveryState>,
    actions: Seq<DiscoveryAction<Q, T>>,
    events: Seq<DiscoveryEvent<Q, T>>,
)
    requires
        complete_discovery(query, states, actions, events),
    ensures
        !(states[0].probes && !states[0].available) ==> {
            &&& events.len() == 1
            &&& events[0] matches DiscoveryEvent::Authenticated(reply)
            &&& actions[0] == DiscoveryAction::<Q, T>::Authenticate(query)
            &&& actions.last() == DiscoveryAction::<Q, T>::Done(reply)
            &&& states.last() == states[0]
        },
        states[0].probes && !states[0].available ==> {
            &&& actions[0] matches DiscoveryAction::Probe(_, probe)
            &&& probe.is_imds_probe()
            &&& events[0] matches DiscoveryEvent::Probed(_, outcome)
            &&& if outcome is Response {
                &&& events.len() == 2
                &&& actions[1] == DiscoveryAction::<Q, T>::Authenticate(query)
                &&& events[1] matches DiscoveryEvent::Authenticated(reply)
                &&& actions.last() == DiscoveryAction::<Q, T>::Done(reply)
                &&& states.last() == DiscoveryState { available: true, ..states[0] }
            } else {
                &&& events.len() == 1
                &&& actions.last() matches DiscoveryAction::Done(
                    Err(TokenError::Credential(message)),
                )
                &&& message@ == unavailable_message()
                &&& states.last() == states[0]
            }
        },
{
    assert(events.len() > 0);
    assert(follows(actions[0], events[0]));
    if events.len() > 1 {
        assert(follows(actions[1], events[1]));
    }
    if events.len() > 2 {
        assert(follows(actions[2], events[2]));
    }
}

/// Whether some request takes the discovery from `before` to `after`.
pub open spec fn discovers<Q, T>(before: DiscoveryState, after: DiscoveryState) -> bool {
    exists|
        query: Q,
        states: Seq<DiscoveryState>,
        actions: Seq<DiscoveryAction<Q, T>>,
        events: Seq<DiscoveryEvent<Q, T>>,
    | #[trigger] complete_discovery(query, states, actions, events) && states[0] == before
        && states.last() == after
}

/// Over any number of requests, one after another, an endpoint that has responded is not probed
/// again, and none is ever probed without a client to do so.
pub proof fn law_known_endpoint_is_not_probed_again<Q, T>(
    history: Seq<DiscoveryState>,
    i: int,
    j: int,
    query: Q,
    action: DiscoveryAction<Q, T>,
)
    requires
        forall|k: int|
            0 <= k < history.len() - 1 ==> discovers::<Q, T>(#[trigger] history[k], history[k + 1]),
        0 <= i <= j < history.len(),
        history[i].available || !history[i].probes,
        history[j].starts(query, action),
    ensures
        history[j] == history[i],
        action == DiscoveryAction::<Q, T>::Authenticate(query),
{
    lemma_known_endpoint_stays_known::<Q, T>(history, i, j);
}

proof fn lemma_known_endpoint_stays_known<Q, T>(history: Seq<DiscoveryState>, i: int, j: int)
    requires
        forall|k: int|
            0 <= k < history.len() - 1 ==> discovers::<Q, T>(#[trigger] history[k], history[k + 1]),
        0 <= i <= j < history.len(),
        history[i].available || !history[i].probes,
    ensures
        history[j] == history[i],
    decreases j - i,
{
    if i < j {
        lemma_known_endpoint_stays_known::<Q, T>(history, i, j - 1);
        let before = history[j - 1];
        let after = history[j - 1 + 1];
        assert(discovers::<Q, T>(before, after));
        let (query, states, actions, events) = choose|
            query: Q,
            states: Seq<DiscoveryState>,
            actions: Seq<DiscoveryAction<Q, T>>,
            events: Seq<DiscoveryEvent<Q, T>>,
        | #[trigger] complete_discovery(query, states, actions, events) && states[0] == before
            && states.last() == after;
        law_discovery_probes_at_most_once(query, states, actions, events);
    }
}

/// Where a chain asks a managed identity whose endpoint does not respond, that costs one probe, the
/// managed identity is not asked for a token, the failure is noted, and the next credential of the
/// chain has its turn.
pub proof fn law_unreachable_endpoint_falls_through<Q, T>(
    chain: ChainState,
    request: RequestState<Q>,
    states: Seq<DiscoveryState>,
    actions: Seq<DiscoveryAction<Q, T>>,
    events: Seq<DiscoveryEvent<Q, T>>,
    reply: Result<T, TokenError>,
    after: ChainState,
    action: ActionState<Q, T>,
)
    requires
        chain.awaits(request),
        !request.pinned,
        complete_discovery(request.query, states, actions, events),
        events[0] matches DiscoveryEvent::Probed(_, outcome) && !(outcome is Response),
        actions.last() == DiscoveryAction::<Q, T>::Done(reply),
        chain.resumes(request, reply, after, action),
    ensures
        events.len() == 1,
        states.last() == states[0],
        after == chain,
        request.index + 1 < chain.names.len() ==> action == ActionState::<Q, T>::Ask(
            RequestState {
                index: request.index + 1,
                errors: request.errors.push(
                    chain.names[request.index] + ": "@
                        + "ManagedIdentityCredential is unavailable: IMDS discovery received no response within one second or encountered a transport error"@,
                ),
                ..request
            },
        ),
{
    assert(follows(actions[0], events[0]));
    law_discovery_probes_at_most_once(request.query, states, actions, events);
}

/// In an environment in which exactly the variables in `variables` are set, the managed identity
/// credential takes its tokens from IMDS exactly where an identity endpoint is set without a header
/// and without an IMDS endpoint, or where neither an identity endpoint nor an MSI endpoint is set.
pub proof fn law_four_variables_decide_on_imds<F: Fn(&str) -> bool>(
    has_env: F,
    variables: Set<Seq<char>>,
    imds: bool,
)
    requires
        call_ensures(uses_imds, (has_env,), imds),
        forall|name: &str, answer: bool| #[trigger]
            has_env.ensures((name,), answer) ==> (answer <==> variables.contains(name@)),
    ensures
        variables.contains("IDENTITY_ENDPOINT"@) && variables.contains("IDENTITY_HEADER"@)
            ==> !imds,
        variables.contains("IDENTITY_ENDPOINT"@) && variables.contains("IMDS_ENDPOINT"@) ==> !imds,
        variables.contains("IDENTITY_ENDPOINT"@) && !variables.contains("IDENTITY_HEADER"@)
            && !variables.contains("IMDS_ENDPOINT"@) ==> imds,
        !variables.contains("IDENTITY_ENDPOINT"@) && variables.contains("MSI_ENDPOINT"@) ==> !imds,
        !variables.contains("IDENTITY_ENDPOINT"@) && !variables.contains("MSI_ENDPOINT"@) ==> imds,
        selects_imds(variables) <==> imds,
{
    assert(tells_of(has_env, variables));
}

/// Whatever is told of the environment, the decision rests on what may be answered for the four
/// variables: an identity endpoint with a header, or with an IMDS endpoint, leads away from IMDS,
/// and one with neither leads to it; without an identity endpoint the MSI endpoint decides.
pub proof fn law_answers_decide_on_imds<F: Fn(&str) -> bool>(has_env: F, imds: bool)
    requires
        call_ensures(uses_imds, (has_env,), imds),
    ensures
        imds ==> {
            ||| {
                &&& has_env.ensures(("IDENTITY_ENDPOINT",), true)
                &&& has_env.ensures(("IDENTITY_HEADER",), false)
                &&& has_env.ensures(("IMDS_ENDPOINT",), false)
            }
            ||| {
                &&& has_env.ensures(("IDENTITY_ENDPOINT",), false)
                &&& has_env.ensures(("MSI_ENDPOINT",), false)
            }
        },
        !imds ==> {
            ||| {
                &&& has_env.ensures(("IDENTITY_ENDPOINT",), true)
                &&& has_env.ensures(("IDENTITY_HEADER",), true)
            }
            ||| {
                &&& has_env.ensures(("IDENTITY_ENDPOINT",), true)
                &&& has_env.ensures(("IDENTITY_HEADER",), false)
                &&& has_env.ensures(("IMDS_ENDPOINT",), true)
            }
            ||| {
                &&& has_env.ensures(("IDENTITY_ENDPOINT",), false)
                &&& has_env.ensures(("MSI_ENDPOINT",), true)
            }
        },
{
}

/// The decision can be taken wherever the identity endpoint can be asked for and, as the answers
/// leave it open, the header, the IMDS endpoint and the MSI endpoint.
pub proof fn law_decision_asks_only_what_is_open<F: Fn(&str) -> bool>(has_env: F)
    requires
        has_env.requires(("IDENTITY_ENDPOINT",)),
        has_env.ensures(("IDENTITY_ENDPOINT",), true) ==> has_env.requires(("IDENTITY_HEADER",)),
        has_env.ensures(("IDENTITY_ENDPOINT",), true) && has_env.ensures(
            ("IDENTITY_HEADER",),
            false,
        ) ==> has_env.requires(("IMDS_ENDPOINT",)),
        has_env.ensures(("IDENTITY_ENDPOINT",), false) ==> has_env.requires(("MSI_ENDPOINT",)),
    ensures
        call_requires(uses_imds, (has_env,)),
        can_be_asked(has_env),
{
}

/// The endpoint that is probed is the token endpoint of IMDS, and the probe waits one second.
pub proof fn law_probe_is_of_the_token_endpoint()
    ensures
        IMDS_ENDPOINT@ == "http://169.254.169.254/metadata/identity/oauth2/token"@,
        PROBE_TIMEOUT_SECONDS == 1,
{
}

/// A request for a token begins with a probe exactly where there is a client to probe with and the
/// endpoint has not responded yet. The probe is a `GET` of the token endpoint without any header,
/// waits one second, and comes with the query. Otherwise the credential is asked at once.
pub proof fn law_request_begins_with_a_probe_where_needed<C, P, Q, T>(
    discovery: ManagedIdentityDiscovery<C, P>,
    query: Q,
    action: DiscoveryAction<Q, T>,
    client: Option<&P>,
)
    requires
        call_ensures(
            ManagedIdentityDiscovery::<C, P>::get_token::<Q, T>,
            (&discovery, query),
            action,
        ),
        call_ensures(ManagedIdentityDiscovery::<C, P>::probe_client, (&discovery,), client),
    ensures
        client is Some && !discovery@.available ==> {
            &&& action matches DiscoveryAction::Probe(asked, probe)
            &&& asked == query
            &&& probe.url@ == "http://169.254.169.254/metadata/identity/oauth2/token"@
            &&& probe.method@ == "GET"@
            &&& probe.headers@.len() == 0
            &&& probe.timeout_seconds == 1
        },
        client is None || discovery@.available ==> action == DiscoveryAction::<Q, T>::Authenticate(
            query,
        ),
        client matches Some(client) ==> discovery.spec_probe_client() == Some(*client),
        client is None ==> discovery.spec_probe_client() is None,
        client is Some <==> discovery@.probes,
{
}

/// Any response to the probe makes the endpoint known and has the credential asked for the query.
/// Without a response the request fails and nothing changes. The credential's answer is the result
/// and changes nothing. The credential and the client stay in any case.
pub proof fn law_response_leads_to_the_credential<C, P, Q, T>(
    discovery: &mut ManagedIdentityDiscovery<C, P>,
    event: DiscoveryEvent<Q, T>,
    action: DiscoveryAction<Q, T>,
)
    requires
        call_ensures(
            ManagedIdentityDiscovery::<C, P>::resume::<Q, T>,
            (discovery, event),
            action,
        ),
    ensures
        event matches DiscoveryEvent::Probed(query, ProbeOutcome::Response(status)) ==> {
            &&& action == DiscoveryAction::<Q, T>::Authenticate(query)
            &&& final(discovery)@.available
        },
        event matches DiscoveryEvent::Probed(query, ProbeOutcome::TransportError) ==> {
            &&& action matches DiscoveryAction::Done(Err(TokenError::Credential(message)))
            &&& message@ == "ManagedIdentityCredential is unavailable: IMDS discovery received no response within one second or encountered a transport error"@
            &&& final(discovery)@.available == old(discovery)@.available
        },
        event matches DiscoveryEvent::Probed(query, ProbeOutcome::TimedOut) ==> {
            &&& action matches DiscoveryAction::Done(Err(TokenError::Credential(message)))
            &&& message@ == "ManagedIdentityCredential is unavailable: IMDS discovery received no response within one second or encountered a transport error"@
            &&& final(discovery)@.available == old(discovery)@.available
        },
        event matches DiscoveryEvent::Authenticated(reply) ==> {
            &&& action == DiscoveryAction::<Q, T>::Done(reply)
            &&& final(discovery)@.available == old(discovery)@.available
        },
        final(discovery)@.probes == old(discovery)@.probes,
        final(discovery).spec_credential() == old(discovery).spec_credential(),
        final(discovery).spec_probe_client() == old(discovery).spec_probe_client(),
{
}

/// After the endpoint responded, whatever the status, later requests ask the credential at once, as
/// they do where there is no client to probe with.
pub proof fn law_endpoint_that_responded_is_not_probed<C, P, Q, T>(
    discovery: &mut ManagedIdentityDiscovery<C, P>,
    query: Q,
    status: u16,
    action: DiscoveryAction<Q, T>,
    later: ManagedIdentityDiscovery<C, P>,
    next_query: Q,
    next: DiscoveryAction<Q, T>,
)
    requires
        call_ensures(
            ManagedIdentityDiscovery::<C, P>::resume::<Q, T>,
            (discovery, DiscoveryEvent::Probed(query, ProbeOutcome::Response(status))),
            action,
        ),
        later == *final(discovery),
        call_ensures(
            ManagedIdentityDiscovery::<C, P>::get_token::<Q, T>,
            (&later, next_query),
            next,
        ),
    ensures
        action == DiscoveryAction::<Q, T>::Authenticate(query),
        next == DiscoveryAction::<Q, T>::Authenticate(next_query),
{
}

/// After a probe without a response, or an answer of the credential, the next request begins as it
/// would have before.
pub proof fn law_other_events_change_no_request<C, P, Q, T>(
    earlier: ManagedIdentityDiscovery<C, P>,
    discovery: &mut ManagedIdentityDiscovery<C, P>,
    event: DiscoveryEvent<Q, T>,
    action: DiscoveryAction<Q, T>,
    later: ManagedIdentityDiscovery<C, P>,
    query: Q,
    before: DiscoveryAction<Q, T>,
    after: DiscoveryAction<Q, T>,
)
    requires
        !(event matches DiscoveryEvent::Probed(_, ProbeOutcome::Response(_))),
        earlier == *old(discovery),
        call_ensures(
            ManagedIdentityDiscovery::<C, P>::get_token::<Q, T>,
            (&earlier, query),
            before,
        ),
        call_ensures(
            ManagedIdentityDiscovery::<C, P>::resume::<Q, T>,
            (discovery, event),
            action,
        ),
        later == *final(discovery),
        call_ensures(
            ManagedIdentityDiscovery::<C, P>::get_token::<Q, T>,
            (&later, query),
            after,
        ),
    ensures
        action is Done,
        before is Probe <==> after is Probe,
        before is Authenticate <==> after is Authenticate,
{
}

/// A new discovery holds the credential and the client that it was given. Its first request begins
/// with a probe where there is a client, and with the credential where there is none.
pub proof fn law_new_discovery_probes_with_its_client<C, P, Q, T>(
    credential: C,
    probe_client: Option<P>,
    discovery: ManagedIdentityDiscovery<C, P>,
    held: &C,
    client: Option<&P>,
    query: Q,
    action: DiscoveryAction<Q, T>,
)
    requires
        call_ensures(
            ManagedIdentityDiscovery::<C, P>::new,
            (credential, probe_client),
            discovery,
        ),
        call_ensures(ManagedIdentityDiscovery::<C, P>::credential, (&discovery,), held),
        call_ensures(ManagedIdentityDiscovery::<C, P>::probe_client, (&discovery,), client),
        call_ensures(
            ManagedIdentityDiscovery::<C, P>::get_token::<Q, T>,
            (&discovery, query),
            action,
        ),
    ensures
        *held == credential,
        discovery.spec_credential() == credential,
        discovery.spec_probe_client() == probe_client,
        probe_client matches Some(given) ==> (client matches Some(client) && *client == given),
        probe_client is None ==> client is None,
        probe_client is Some ==> (action matches DiscoveryAction::Probe(asked, _) && asked
            == query),
        probe_client is None ==> action == DiscoveryAction::<Q, T>::Authenticate(query),
{
}

/// The credential that a discovery hands out stays the same, whatever happens.
pub proof fn law_discovered_credential_stays<C, P, Q, T>(
    discovery: &mut ManagedIdentityDiscovery<C, P>,
    before: &C,
    event: DiscoveryEvent<Q, T>,
    action: DiscoveryAction<Q, T>,
    later: ManagedIdentityDiscovery<C, P>,
    after: &C,
)
    requires
        call_ensures(
            ManagedIdentityDiscovery::<C, P>::credential,
            (&*old(discovery),),
            before,
        ),
        call_ensures(
            ManagedIdentityDiscovery::<C, P>::resume::<Q, T>,
            (discovery, event),
            action,
        ),
        later == *final(discovery),
        call_ensures(ManagedIdentityDiscovery::<C, P>::credential, (&later,), after),
    ensures
        *after == *before,
{
}

/// A discovery can always be asked, and goes on with anything that happens.
pub proof fn law_discovery_can_always_be_asked<C, P, Q, T>(
    credential: C,
    probe_client: Option<P>,
    discovery: &mut ManagedIdentityDiscovery<C, P>,
    query: Q,
    event: DiscoveryEvent<Q, T>,
)
    ensures
        call_requires(ManagedIdentityDiscovery::<C, P>::new, (credential, probe_client)),
        call_requires(
            ManagedIdentityDiscovery::<C, P>::get_token::<Q, T>,
            (&*old(discovery), query),
        ),
        call_requires(
            ManagedIdentityDiscovery::<C, P>::resume::<Q, T>,
            (discovery, event),
        ),
        call_requires(ManagedIdentityDiscovery::<C, P>::credential, (&*old(discovery),)),
        call_requires(ManagedIdentityDiscovery::<C, P>::probe_client, (&*old(discovery),)),
{
}

/// What is said of a probe and of its failure: the probe is a `GET` of the token endpoint without
/// any header that waits one second, and the message tells that nothing came of it.
pub proof fn law_probe_is_a_plain_request(probe: ProbeRequest)
    ensures
        probe.is_imds_probe() <==> {
            &&& probe.url@ == "http://169.254.169.254/metadata/identity/oauth2/token"@
            &&& probe.method@ == "GET"@
            &&& probe.headers@.len() == 0
            &&& probe.timeout_seconds == 1
        },
        unavailable_message() == "ManagedIdentityCredential is unavailable: IMDS discovery received no response within one second or encountered a transport error"@,
{
}

} // verus!
