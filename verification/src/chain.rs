//! The chain of credentials: they are asked in order until one succeeds, and that one is asked
//! alone from then on.
use vstd::prelude::*;
use crate::error::TokenError;
use crate::scope::texts;

verus! {

/// A credential and the name by which error messages call it.
pub struct NamedCredential<C> {
    pub name: &'static str,
    pub credential: C,
}

/// A chain of credentials, and which of them has been selected.
pub struct DefaultAzureCredential<C> {
    credentials: Vec<NamedCredential<C>>,
    successful_index: Option<usize>,
}

/// A request for a token that waits for the answer of one credential.
pub struct TokenRequest<Q> {
    query: Q,
    index: usize,
    pinned: bool,
    errors: Vec<String>,
}

/// What to do next for a request.
pub enum ChainAction<Q, T> {
    /// Put the request's query to the credential at the request's index, then resume the request
    /// with the answer.
    Ask(TokenRequest<Q>),
    /// The request is over with this result.
    Done(Result<T, TokenError>),
}

/// What a chain is, apart from the credentials themselves: their names, in order, and the
/// position of the selected one.
#[verifier::ext_equal]
pub struct ChainState {
    pub names: Seq<Seq<char>>,
    pub selected: Option<int>,
}

/// What a waiting request is: its query, the position of the credential that it waits for,
/// whether that credential had been selected when the request began, and one line for each
/// credential that failed so far.
#[verifier::ext_equal]
pub struct RequestState<Q> {
    pub query: Q,
    pub index: int,
    pub pinned: bool,
    pub errors: Seq<Seq<char>>,
}

/// What an action is.
#[verifier::ext_equal]
pub enum ActionState<Q, T> {
    Ask(RequestState<Q>),
    Done(Result<T, TokenError>),
}

/// The names of a list of credentials.
pub open spec fn names_of<C>(credentials: Seq<NamedCredential<C>>) -> Seq<Seq<char>> {
    credentials.map_values(|named: NamedCredential<C>| named.name@)
}

/// The line of an error message that reports one failed credential.
pub open spec fn error_line(name: Seq<char>, text: Seq<char>) -> Seq<char> {
    name + ": "@ + text
}

/// Lines, with a line break between each two.
pub open spec fn join_lines(lines: Seq<Seq<char>>) -> Seq<char>
    decreases lines.len(),
{
    if lines.len() == 0 {
        Seq::empty()
    } else if lines.len() == 1 {
        lines[0]
    } else {
        join_lines(lines.drop_last()) + "\n"@ + lines.last()
    }
}

/// The message when every credential failed.
pub open spec fn aggregate_message(lines: Seq<Seq<char>>) -> Seq<char> {
    "Multiple errors were encountered while attempting to authenticate:\n"@ + join_lines(lines)
}

impl ChainState {
    /// A selected credential is one of the chain.
    pub open spec fn valid(self) -> bool {
        self.selected matches Some(index) ==> 0 <= index < self.names.len()
    }

    /// Whether `request` waits for a credential of this chain.
    pub open spec fn awaits<Q>(self, request: RequestState<Q>) -> bool {
        &&& 0 <= request.index < self.names.len()
        &&& !request.pinned ==> request.errors.len() == request.index
    }

    /// Whether `action` goes on with `request`: the credential at its index is asked, or, where
    /// none is left, the request fails with all the failures so far.
    pub open spec fn goes_on<Q, T>(
        self,
        request: RequestState<Q>,
        action: ActionState<Q, T>,
    ) -> bool {
        if request.index < self.names.len() {
            action == ActionState::<Q, T>::Ask(request)
        } else {
            &&& action matches ActionState::Done(Err(TokenError::Credential(message)))
            &&& message@ == aggregate_message(request.errors)
        }
    }

    /// Whether `action` begins a request for `query`: a selected credential is asked alone,
    /// otherwise the first one is asked.
    pub open spec fn starts<Q, T>(self, query: Q, action: ActionState<Q, T>) -> bool {
        match self.selected {
            Some(index) => action == ActionState::<Q, T>::Ask(
                RequestState { query, index, pinned: true, errors: Seq::empty() },
            ),
            None => self.goes_on(
                RequestState { query, index: 0, pinned: false, errors: Seq::empty() },
                action,
            ),
        }
    }

    /// Whether, on the answer `reply` to `request`, the chain becomes `after` and `action`
    /// follows: the answer of a selected credential is the result; otherwise the first success
    /// is the result and selects its credential, and a failure is noted and the next credential
    /// has its turn.
    pub open spec fn resumes<Q, T>(
        self,
        request: RequestState<Q>,
        reply: Result<T, TokenError>,
        after: ChainState,
        action: ActionState<Q, T>,
    ) -> bool {
        if request.pinned {
            &&& after == self
            &&& action == ActionState::<Q, T>::Done(reply)
        } else {
            match reply {
                Ok(token) => {
                    &&& after == ChainState { selected: Some(request.index), ..self }
                    &&& action == ActionState::<Q, T>::Done(Ok(token))
                },
                Err(error) => {
                    &&& after == self
                    &&& exists|text: Seq<char>| #[trigger]
                        error.displays_as(text) && self.goes_on(
                            request.failed(self.names[request.index], text),
                            action,
                        )
                },
            }
        }
    }
}

impl<Q> RequestState<Q> {
    /// The request after the credential that it waited for, called `name`, failed with `text`.
    pub open spec fn failed(self, name: Seq<char>, text: Seq<char>) -> RequestState<Q> {
        RequestState {
            index: self.index + 1,
            errors: self.errors.push(error_line(name, text)),
            ..self
        }
    }
}

impl<Q> View for TokenRequest<Q> {
    type V = RequestState<Q>;

    closed spec fn view(&self) -> RequestState<Q> {
        RequestState {
            query: self.query,
            index: self.index as int,
            pinned: self.pinned,
            errors: texts(self.errors@),
        }
    }
}

impl<Q> TokenRequest<Q> {
    /// What is asked for.
    pub fn query(&self) -> (query: &Q)
        ensures
            *query == self@.query,
    {
        &self.query
    }

    /// The position of the credential to ask.
    pub fn index(&self) -> (index: usize)
        ensures
            index == self@.index,
    {
        self.index
    }
}

impl<Q, T> View for ChainAction<Q, T> {
    type V = ActionState<Q, T>;

    open spec fn view(&self) -> ActionState<Q, T> {
        match *self {
            ChainAction::Ask(request) => ActionState::Ask(request@),
            ChainAction::Done(result) => ActionState::Done(result),
        }
    }
}

impl<C> View for DefaultAzureCredential<C> {
    type V = ChainState;

    closed spec fn view(&self) -> ChainState {
        ChainState {
            names: names_of(self.credentials@),
            selected: match self.successful_index {
                Some(index) => Some(index as int),
                None => None,
            },
        }
    }
}

/// Writes the line that reports one failed credential.
fn format_error_line(name: &str, text: &str) -> (line: String)
    ensures
        line@ == error_line(name@, text@),
{
    let mut line = name.to_owned();
    line.append(": ");
    line.append(text);
    line
}

/// Writes the message for the case that every credential failed.
pub fn format_aggregate_message(lines: &Vec<String>) -> (message: String)
    ensures
        message@ == aggregate_message(texts(lines@)),
{
    let ghost all = texts(lines@);
    let ghost header = "Multiple errors were encountered while attempting to authenticate:\n"@;
    let mut message =
        "Multiple errors were encountered while attempting to authenticate:\n".to_owned();
    let mut i: usize = 0;
    assert(header + join_lines(all.take(0)) =~= header);
    while i < lines.len()
        invariant
            i <= lines@.len(),
            all == texts(lines@),
            message@ == header + join_lines(all.take(i as int)),
        decreases lines@.len() - i,
    {
        if i > 0 {
            message.append("\n");
        }
        message.append(lines[i].as_str());
        proof {
            let longer = all.take(i + 1);
            assert(longer.drop_last() =~= all.take(i as int));
            assert(longer.last() == lines@[i as int]@);
            if i > 0 {
                assert(message@ =~= header + (join_lines(all.take(i as int)) + "\n"@
                    + longer.last()));
            } else {
                assert(message@ =~= header + longer.last());
            }
        }
        i = i + 1;
    }
    assert(all.take(lines@.len() as int) =~= all);
    message
}

impl<C> DefaultAzureCredential<C> {
    /// The credentials, in the order in which they are asked.
    pub closed spec fn credentials(&self) -> Seq<NamedCredential<C>> {
        self.credentials@
    }

    /// A chain of the given credentials, none of them selected.
    pub fn with_credentials(credentials: Vec<NamedCredential<C>>) -> (chain: Self)
        ensures
            chain.credentials() == credentials@,
            chain@ == (ChainState { names: names_of(credentials@), selected: None }),
            chain@.valid(),
    {
        DefaultAzureCredential { credentials, successful_index: None }
    }

    /// The names of the credentials, in order.
    pub fn names(&self) -> (names: Vec<&'static str>)
        ensures
            names@.map_values(|name: &'static str| name@) == self@.names,
    {
        let mut names: Vec<&'static str> = Vec::new();
        let mut i: usize = 0;
        while i < self.credentials.len()
            invariant
                i <= self.credentials@.len(),
                names@.len() == i,
                forall|j: int| 0 <= j < i ==> (#[trigger] names@[j])@ == self@.names[j],
                self@.names.len() == self.credentials@.len(),
            decreases self.credentials@.len() - i,
        {
            names.push(self.credentials[i].name);
            i = i + 1;
        }
        assert(names@.map_values(|name: &'static str| name@) =~= self@.names);
        names
    }

    /// The credential at a position.
    pub fn credential(&self, index: usize) -> (credential: &C)
        requires
            index < self@.names.len(),
        ensures
            *credential == self.credentials()[index as int].credential,
    {
        &self.credentials[index].credential
    }

    /// The credential at a position, to be changed in place. Neither the names nor the selection
    /// change with it.
    pub fn credential_mut(&mut self, index: usize) -> (credential: &mut C)
        requires
            index < old(self)@.names.len(),
        ensures
            *credential == old(self).credentials()[index as int].credential,
            final(self)@ == old(self)@,
            final(self).credentials() == old(self).credentials().update(
                index as int,
                NamedCredential {
                    credential: *final(credential),
                    ..old(self).credentials()[index as int]
                },
            ),
    {
        let ghost before = self.credentials@;
        let credential = &mut self.credentials[index].credential;
        assert(names_of(
            before.update(
                index as int,
                NamedCredential { credential: *final(credential), ..before[index as int] },
            ),
        ) =~= names_of(before));
        credential
    }

    /// Begins a request for a token.
    pub fn get_token<Q, T>(&self, query: Q) -> (action: ChainAction<Q, T>)
        requires
            self@.valid(),
        ensures
            self@.starts(query, action@),
            action matches ChainAction::Ask(request) ==> self@.awaits(request@),
    {
        let request = match self.successful_index {
            Some(index) => TokenRequest { query, index, pinned: true, errors: Vec::new() },
            None => TokenRequest { query, index: 0, pinned: false, errors: Vec::new() },
        };
        assert(request@.errors =~= Seq::empty());
        self.ask_or_fail(request)
    }

    /// Asks the credential at the request's index, or fails where there is none.
    fn ask_or_fail<Q, T>(&self, request: TokenRequest<Q>) -> (action: ChainAction<Q, T>)
        ensures
            self@.goes_on(request@, action@),
    {
        if request.index < self.credentials.len() {
            ChainAction::Ask(request)
        } else {
            ChainAction::Done(
                Err(TokenError::Credential(format_aggregate_message(&request.errors))),
            )
        }
    }

    /// Goes on with a request, given the answer of the credential that it waited for.
    pub fn resume<Q, T>(
        &mut self,
        request: TokenRequest<Q>,
        reply: Result<T, TokenError>,
    ) -> (action: ChainAction<Q, T>)
        requires
            old(self)@.valid(),
            old(self)@.awaits(request@),
        ensures
            final(self).credentials() == old(self).credentials(),
            final(self)@.valid(),
            old(self)@.resumes(request@, reply, final(self)@, action@),
            action matches ChainAction::Ask(request) ==> final(self)@.awaits(request@),
    {
        if request.pinned {
            return ChainAction::Done(reply);
        }
        match reply {
            Ok(token) => {
                self.successful_index = Some(request.index);
                ChainAction::Done(Ok(token))
            },
            Err(error) => {
                let text = error.message();
                let mut request = request;
                let ghost before = request@;
                assert(request.index < self.credentials.len());
                let line = format_error_line(self.credentials[request.index].name, text.as_str());
                request.errors.push(line);
                request.index = request.index + 1;
                assert(request@ =~= before.failed(self@.names[before.index], text@));
                self.ask_or_fail(request)
            },
        }
    }
}

/// Whether the answer to `requests[i]` takes the chain to its next state and asks for the next
/// answer.
pub open spec fn asks_next<Q, T>(
    states: Seq<ChainState>,
    requests: Seq<RequestState<Q>>,
    replies: Seq<Result<T, TokenError>>,
    i: int,
) -> bool {
    states[i].resumes(requests[i], replies[i], states[i + 1], ActionState::Ask(requests[i + 1]))
}

/// One request from its beginning to its end: `requests[i]` was answered by `replies[i]`, which took
/// the chain from `states[i]` to `states[i + 1]`, no other credential was asked, and the request
/// ended with `result`.
pub open spec fn complete_request<Q, T>(
    query: Q,
    states: Seq<ChainState>,
    requests: Seq<RequestState<Q>>,
    replies: Seq<Result<T, TokenError>>,
    result: Result<T, TokenError>,
) -> bool {
    let n = requests.len() as int;
    &&& replies.len() == n
    &&& states.len() == n + 1
    &&& n == 0 ==> states[0].starts(query, ActionState::Done(result))
    &&& n > 0 ==> {
        &&& states[0].starts(query, ActionState::<Q, T>::Ask(requests[0]))
        &&& forall|i: int| 0 <= i < n - 1 ==> #[trigger] asks_next(states, requests, replies, i)
        &&& states[n - 1].resumes(
            requests[n - 1],
            replies[n - 1],
            states[n],
            ActionState::Done(result),
        )
    }
}

proof fn lemma_unselected_request<Q, T>(
    query: Q,
    states: Seq<ChainState>,
    requests: Seq<RequestState<Q>>,
    replies: Seq<Result<T, TokenError>>,
    result: Result<T, TokenError>,
    k: int,
)
    requires
        complete_request(query, states, requests, replies, result),
        states[0].selected is None,
        0 <= k < requests.len(),
    ensures
        states[k] == states[0],
        requests[k].query == query,
        requests[k].index == k,
        !requests[k].pinned,
        requests[k].errors.len() == k,
        k < states[0].names.len(),
        forall|i: int|
            0 <= i < k ==> (#[trigger] replies[i]) is Err && exists|text: Seq<char>| #[trigger]
                replies[i]->Err_0.displays_as(text) && requests[k].errors[i] == states[0].names[i]
                    + ": "@ + text,
    decreases k,
{
    if k > 0 {
        lemma_unselected_request(query, states, requests, replies, result, k - 1);
        let before = states[k - 1];
        let previous = requests[k - 1];
        assert(asks_next(states, requests, replies, k - 1));
        let text = choose|text: Seq<char>| #[trigger]
            replies[k - 1]->Err_0.displays_as(text) && before.goes_on(
                previous.failed(before.names[previous.index], text),
                ActionState::<Q, T>::Ask(requests[k]),
            );
        assert(requests[k] == previous.failed(before.names[k - 1], text));
        assert forall|i: int| 0 <= i < k implies (#[trigger] replies[i]) is Err && exists|
            text: Seq<char>,
        | #[trigger]
            replies[i]->Err_0.displays_as(text) && requests[k].errors[i] == states[0].names[i]
                + ": "@ + text by {
            if i < k - 1 {
                assert(requests[k].errors[i] == previous.errors[i]);
            }
        }
    }
}

/// While none is selected, the credentials are asked one after another from the first on, each at
/// most once and each with the request's query, and the next one only after the one before failed.
/// Until the last answer the chain stays as it was.
pub proof fn law_credentials_are_asked_in_order<Q, T>(
    query: Q,
    states: Seq<ChainState>,
    requests: Seq<RequestState<Q>>,
    replies: Seq<Result<T, TokenError>>,
    result: Result<T, TokenError>,
)
    requires
        complete_request(query, states, requests, replies, result),
        states[0].selected is None,
    ensures
        requests.len() <= states[0].names.len(),
        forall|k: int|
            0 <= k < requests.len() ==> (#[trigger] requests[k]).index == k && requests[k].query
                == query,
        forall|k: int| 0 <= k < requests.len() ==> #[trigger] states[k] == states[0],
        forall|k: int| 0 <= k < requests.len() - 1 ==> (#[trigger] replies[k]) is Err,
{
    assert forall|k: int| 0 <= k < requests.len() implies (#[trigger] requests[k]).index == k
        && requests[k].query == query by {
        lemma_unselected_request(query, states, requests, replies, result, k);
    }
    assert forall|k: int| 0 <= k < requests.len() implies #[trigger] states[k] == states[0] by {
        lemma_unselected_request(query, states, requests, replies, result, k);
    }
    if requests.len() > 0 {
        let last = requests.len() - 1;
        lemma_unselected_request(query, states, requests, replies, result, last);
    }
}

/// While none is selected, the first success is the result, and selects its credential.
pub proof fn law_first_success_is_selected<Q, T>(
    query: Q,
    states: Seq<ChainState>,
    requests: Seq<RequestState<Q>>,
    replies: Seq<Result<T, TokenError>>,
    result: Result<T, TokenError>,
    k: int,
)
    requires
        complete_request(query, states, requests, replies, result),
        states[0].selected is None,
        0 <= k < replies.len(),
        replies[k] is Ok,
    ensures
        k == replies.len() - 1,
        result == replies[k],
        states.last().names == states[0].names,
        states.last().selected == Some(k),
{
    let last = requests.len() - 1;
    lemma_unselected_request(query, states, requests, replies, result, last);
}

/// While none is selected, a request in which nothing succeeds asks every credential, fails with
/// the line of each, and leaves the chain as it was.
pub proof fn law_every_failure_is_reported<Q, T>(
    query: Q,
    states: Seq<ChainState>,
    requests: Seq<RequestState<Q>>,
    replies: Seq<Result<T, TokenError>>,
    result: Result<T, TokenError>,
) -> (lines: Seq<Seq<char>>)
    requires
        complete_request(query, states, requests, replies, result),
        states[0].selected is None,
        forall|k: int| 0 <= k < replies.len() ==> (#[trigger] replies[k]) is Err,
    ensures
        states.last() == states[0],
        replies.len() == states[0].names.len(),
        lines.len() == states[0].names.len(),
        forall|k: int|
            0 <= k < lines.len() ==> (#[trigger] replies[k]) is Err && exists|
                text: Seq<char>,
            | #[trigger]
                replies[k]->Err_0.displays_as(text) && lines[k] == states[0].names[k] + ": "@
                    + text,
        result matches Err(TokenError::Credential(message)) && message@
            == "Multiple errors were encountered while attempting to authenticate:\n"@
            + join_lines(lines),
{
    if requests.len() == 0 {
        Seq::empty()
    } else {
        let last = requests.len() - 1;
        lemma_unselected_request(query, states, requests, replies, result, last);
        let before = states[last];
        let request = requests[last];
        let text = choose|text: Seq<char>| #[trigger]
            replies[last]->Err_0.displays_as(text) && before.goes_on(
                request.failed(before.names[request.index], text),
                ActionState::<Q, T>::Done(result),
            );
        let lines = request.failed(before.names[last], text).errors;
        assert forall|k: int| 0 <= k < lines.len() implies (#[trigger] replies[k]) is Err && exists|
            text: Seq<char>,
        | #[trigger]
            replies[k]->Err_0.displays_as(text) && lines[k] == states[0].names[k] + ": "@
                + text by {
            if k < last {
                assert(lines[k] == request.errors[k]);
            }
        }
        lines
    }
}

/// While none is selected, a request succeeds only with the answer of the last credential asked,
/// which it selects.
pub proof fn law_success_is_the_last_answer<Q, T>(
    query: Q,
    states: Seq<ChainState>,
    requests: Seq<RequestState<Q>>,
    replies: Seq<Result<T, TokenError>>,
    result: Result<T, TokenError>,
)
    requires
        complete_request(query, states, requests, replies, result),
        states[0].selected is None,
        result is Ok,
    ensures
        replies.len() > 0,
        result == replies.last(),
        states.last().names == states[0].names,
        states.last().selected == Some(replies.len() - 1),
{
    let last = replies.len() - 1;
    law_credentials_are_asked_in_order(query, states, requests, replies, result);
    if replies.len() == 0 || replies[last] is Err {
        law_every_failure_is_reported(query, states, requests, replies, result);
    } else {
        law_first_success_is_selected(query, states, requests, replies, result, last);
    }
}

/// Joined lines begin with the first, and each further line follows a line break.
pub proof fn law_lines_are_joined_by_line_breaks(lines: Seq<Seq<char>>, line: Seq<char>)
    ensures
        join_lines(Seq::empty()) == Seq::<char>::empty(),
        join_lines(seq![line]) == line,
        lines.len() > 0 ==> join_lines(lines.push(line)) == join_lines(lines) + "\n"@ + line,
{
    assert(lines.push(line).drop_last() =~= lines);
}

/// Every line stands in the joined text, between line breaks.
proof fn lemma_join_holds_line(lines: Seq<Seq<char>>, k: int) -> (parts: (Seq<char>, Seq<char>))
    requires
        0 <= k < lines.len(),
    ensures
        join_lines(lines) == parts.0 + lines[k] + parts.1,
    decreases lines.len(),
{
    if lines.len() == 1 {
        assert(join_lines(lines) =~= Seq::<char>::empty() + lines[k] + Seq::<char>::empty());
        (Seq::empty(), Seq::empty())
    } else if k == lines.len() - 1 {
        let before = join_lines(lines.drop_last()) + "\n"@;
        assert(join_lines(lines) =~= before + lines[k] + Seq::<char>::empty());
        (before, Seq::empty())
    } else {
        let parts = lemma_join_holds_line(lines.drop_last(), k);
        let rest = parts.1 + "\n"@ + lines.last();
        assert(join_lines(lines) =~= parts.0 + lines[k] + rest);
        (parts.0, rest)
    }
}

/// The message for the case that every credential failed holds the line of each of them.
pub proof fn law_aggregate_holds_every_line(lines: Seq<Seq<char>>, k: int) -> (parts: (
    Seq<char>,
    Seq<char>,
))
    requires
        0 <= k < lines.len(),
    ensures
        aggregate_message(lines) == parts.0 + lines[k] + parts.1,
{
    let header = "Multiple errors were encountered while attempting to authenticate:\n"@;
    let parts = lemma_join_holds_line(lines, k);
    assert(aggregate_message(lines) =~= (header + parts.0) + lines[k] + parts.1);
    (header + parts.0, parts.1)
}

/// A selected credential is asked alone, its answer is the result, be it a success or a failure,
/// and it stays selected.
pub proof fn law_selected_credential_is_asked_alone<Q, T>(
    query: Q,
    states: Seq<ChainState>,
    requests: Seq<RequestState<Q>>,
    replies: Seq<Result<T, TokenError>>,
    result: Result<T, TokenError>,
)
    requires
        complete_request(query, states, requests, replies, result),
        states[0].selected is Some,
    ensures
        requests.len() == 1,
        Some(requests[0].index) == states[0].selected,
        requests[0].query == query,
        result == replies[0],
        states.last() == states[0],
{
    if requests.len() > 1 {
        assert(asks_next(states, requests, replies, 0));
    }
}

/// Whether some request takes the chain from `before` to `after`.
pub open spec fn serves<Q, T>(before: ChainState, after: ChainState) -> bool {
    exists|
        query: Q,
        states: Seq<ChainState>,
        requests: Seq<RequestState<Q>>,
        replies: Seq<Result<T, TokenError>>,
        result: Result<T, TokenError>,
    | #[trigger] complete_request(query, states, requests, replies, result) && states[0] == before
        && states.last() == after
}

/// Over any number of requests, each begun after the one before ended, a credential that has been
/// selected stays selected, and the chain keeps its credentials.
pub proof fn law_selection_is_kept<Q, T>(history: Seq<ChainState>, i: int, j: int)
    requires
        forall|k: int|
            0 <= k < history.len() - 1 ==> serves::<Q, T>(#[trigger] history[k], history[k + 1]),
        0 <= i <= j < history.len(),
    ensures
        history[j].names == history[i].names,
        history[i].selected is Some ==> history[j].selected == history[i].selected,
    decreases j - i,
{
    if i < j {
        law_selection_is_kept::<Q, T>(history, i, j - 1);
        let before = history[j - 1];
        let after = history[j - 1 + 1];
        assert(serves::<Q, T>(before, after));
        let (query, states, requests, replies, result) = choose|
            query: Q,
            states: Seq<ChainState>,
            requests: Seq<RequestState<Q>>,
            replies: Seq<Result<T, TokenError>>,
            result: Result<T, TokenError>,
        | #[trigger] complete_request(query, states, requests, replies, result) && states[0]
            == before && states.last() == after;
        if before.selected is Some {
            law_selected_credential_is_asked_alone(query, states, requests, replies, result);
        } else {
            law_credentials_are_asked_in_order(query, states, requests, replies, result);
        }
    }
}

/// Of a chain made of some credentials: it holds exactly these, in this order and under their
/// names, none is selected, and a token can be requested of it.
pub proof fn law_chain_holds_its_credentials<C, Q, T>(
    credentials: Vec<NamedCredential<C>>,
    chain: DefaultAzureCredential<C>,
    names: Vec<&'static str>,
    query: Q,
)
    requires
        call_ensures(DefaultAzureCredential::<C>::with_credentials, (credentials,), chain),
        call_ensures(DefaultAzureCredential::<C>::names, (&chain,), names),
    ensures
        chain@.selected is None,
        chain@.names.len() == credentials@.len(),
        chain.credentials().len() == credentials@.len(),
        names@.len() == credentials@.len(),
        forall|i: int|
            0 <= i < credentials@.len() ==> (#[trigger] credentials@[i]).name@ == chain@.names[i]
                && credentials@[i].name@ == names@[i]@ && chain.credentials()[i] == credentials@[i],
        call_requires(DefaultAzureCredential::<C>::with_credentials, (credentials,)),
        call_requires(DefaultAzureCredential::<C>::get_token::<Q, T>, (&chain, query)),
{
    let texts = names@.map_values(|name: &'static str| name@);
    assert(texts == chain@.names);
    assert forall|i: int| 0 <= i < credentials@.len() implies (#[trigger] credentials@[i]).name@
        == chain@.names[i] && credentials@[i].name@ == names@[i]@ && chain.credentials()[i]
        == credentials@[i] by {
        assert(texts[i] == names@[i]@);
    }
}

/// A request begins with the selected credential where there is one, otherwise with the first one,
/// and where there is none it is over with the heading of the message alone.
pub proof fn law_request_begins_with_the_selected_or_first_credential<C, Q, T>(
    chain: DefaultAzureCredential<C>,
    query: Q,
    action: ChainAction<Q, T>,
)
    requires
        call_ensures(DefaultAzureCredential::<C>::get_token::<Q, T>, (&chain, query), action),
    ensures
        chain@.selected matches Some(selected) ==> {
            &&& action matches ChainAction::Ask(request)
            &&& request@.query == query
            &&& request@.index == selected
            &&& request@.pinned
            &&& request@.errors.len() == 0
        },
        chain@.selected is None && chain@.names.len() > 0 ==> {
            &&& action matches ChainAction::Ask(request)
            &&& request@.query == query
            &&& request@.index == 0
            &&& !request@.pinned
            &&& request@.errors.len() == 0
        },
        chain@.selected is None && chain@.names.len() == 0 ==> {
            &&& action matches ChainAction::Done(Err(TokenError::Credential(message)))
            &&& message@ == "Multiple errors were encountered while attempting to authenticate:\n"@
        },
{
    let header = "Multiple errors were encountered while attempting to authenticate:\n"@;
    assert(header + Seq::<char>::empty() =~= header);
}

/// What a request says is the query that it began with, and the credential to ask is the one that
/// stands in the chain at the position that it says.
pub proof fn law_request_says_whom_to_ask<C, Q>(
    chain: DefaultAzureCredential<C>,
    request: TokenRequest<Q>,
    query: &Q,
    index: usize,
    credential: &C,
)
    requires
        call_ensures(TokenRequest::<Q>::query, (&request,), query),
        call_ensures(TokenRequest::<Q>::index, (&request,), index),
        call_ensures(DefaultAzureCredential::<C>::credential, (&chain, index), credential),
    ensures
        *query == request@.query,
        index == request@.index,
        *credential == chain.credentials()[request@.index].credential,
{
}

/// A credential that is changed in place is the one at the position asked for. No other changes,
/// nor does a name or the selection.
pub proof fn law_one_credential_changes_in_place<C>(
    chain: &mut DefaultAzureCredential<C>,
    index: usize,
    credential: &mut C,
    i: int,
)
    requires
        call_ensures(DefaultAzureCredential::<C>::credential_mut, (chain, index), credential),
        index < old(chain).credentials().len(),
        0 <= i < old(chain).credentials().len(),
    ensures
        *old(credential) == old(chain).credentials()[index as int].credential,
        final(chain)@ == old(chain)@,
        final(chain).credentials().len() == old(chain).credentials().len(),
        final(chain).credentials()[i].name == old(chain).credentials()[i].name,
        i == index ==> final(chain).credentials()[i].credential == *final(credential),
        i != index ==> final(chain).credentials()[i] == old(chain).credentials()[i],
{
}

/// A request that began while a credential was selected ends with the first answer, be it a success
/// or a failure, whatever has become of the chain since, and leaves the chain as it is.
pub proof fn law_selected_answer_ends_the_request<C, Q, T>(
    begun: DefaultAzureCredential<C>,
    query: Q,
    request: TokenRequest<Q>,
    chain: &mut DefaultAzureCredential<C>,
    reply: Result<T, TokenError>,
    action: ChainAction<Q, T>,
)
    requires
        begun@.selected is Some,
        call_ensures(
            DefaultAzureCredential::<C>::get_token::<Q, T>,
            (&begun, query),
            ChainAction::Ask(request),
        ),
        call_ensures(
            DefaultAzureCredential::<C>::resume::<Q, T>,
            (chain, request, reply),
            action,
        ),
    ensures
        Some(request@.index) == begun@.selected,
        action == ChainAction::<Q, T>::Done(reply),
        final(chain)@ == old(chain)@,
        final(chain).credentials() == old(chain).credentials(),
{
}

/// In a request that began with none selected, a success ends the request and selects the
/// credential that gave it; no name changes.
pub proof fn law_success_ends_the_request<C, Q, T>(
    chain: &mut DefaultAzureCredential<C>,
    request: TokenRequest<Q>,
    token: T,
    action: ChainAction<Q, T>,
)
    requires
        !request@.pinned,
        call_ensures(
            DefaultAzureCredential::<C>::resume::<Q, T>,
            (chain, request, Ok(token)),
            action,
        ),
    ensures
        action == ChainAction::<Q, T>::Done(Ok(token)),
        final(chain)@.selected == Some(request@.index),
        final(chain)@.names == old(chain)@.names,
        final(chain).credentials() == old(chain).credentials(),
{
}

/// In a request that began with none selected, a failure is noted in a line with the name of the
/// credential and the text of the error, and the next credential is asked the same; after the last
/// one the request fails with the lines of all. The chain stays as it is.
pub proof fn law_failure_passes_to_the_next_credential<C, Q, T>(
    chain: &mut DefaultAzureCredential<C>,
    request: TokenRequest<Q>,
    error: TokenError,
    action: ChainAction<Q, T>,
) -> (text: Seq<char>)
    requires
        !request@.pinned,
        call_ensures(
            DefaultAzureCredential::<C>::resume::<Q, T>,
            (chain, request, Err(error)),
            action,
        ),
    ensures
        error matches TokenError::Credential(message) ==> text == message@,
        error matches TokenError::Sdk(error) ==> exists|shown: String|
            shown@ == text && #[trigger] vstd::string::to_string_from_display_ensures(
                &error,
                shown,
            ),
        final(chain)@ == old(chain)@,
        final(chain).credentials() == old(chain).credentials(),
        request@.index + 1 < old(chain)@.names.len() ==> {
            &&& action matches ChainAction::Ask(next)
            &&& next@.query == request@.query
            &&& next@.index == request@.index + 1
            &&& !next@.pinned
            &&& next@.errors == request@.errors.push(
                old(chain)@.names[request@.index] + ": "@ + text,
            )
        },
        request@.index + 1 >= old(chain)@.names.len() ==> {
            &&& action matches ChainAction::Done(Err(TokenError::Credential(message)))
            &&& message@ == "Multiple errors were encountered while attempting to authenticate:\n"@
                + join_lines(
                request@.errors.push(old(chain)@.names[request@.index] + ": "@ + text),
            )
        },
{
    choose|text: Seq<char>| #[trigger]
        error.displays_as(text) && old(chain)@.goes_on(
            request@.failed(old(chain)@.names[request@.index], text),
            action@,
        )
}

/// A request that waits can be resumed with any answer: none that `get_token` or `resume` hands out
/// gets stuck.
pub proof fn law_waiting_request_can_be_resumed<C, Q, T>(
    begun: DefaultAzureCredential<C>,
    query: Q,
    request: TokenRequest<Q>,
    chain: &mut DefaultAzureCredential<C>,
    reply: Result<T, TokenError>,
    next: TokenRequest<Q>,
    again: &mut DefaultAzureCredential<C>,
    next_reply: Result<T, TokenError>,
)
    requires
        begun@.selected matches Some(selected) ==> 0 <= selected < begun@.names.len(),
        call_ensures(
            DefaultAzureCredential::<C>::get_token::<Q, T>,
            (&begun, query),
            ChainAction::Ask(request),
        ),
        *old(chain) == begun,
        call_ensures(
            DefaultAzureCredential::<C>::resume::<Q, T>,
            (chain, request, reply),
            ChainAction::Ask(next),
        ),
        *old(again) == *final(chain),
    ensures
        call_requires(
            DefaultAzureCredential::<C>::resume::<Q, T>,
            (chain, request, reply),
        ),
        call_requires(
            DefaultAzureCredential::<C>::resume::<Q, T>,
            (again, next, next_reply),
        ),
{
}

/// The message for the case that every credential failed is the heading and the joined lines.
pub proof fn law_aggregate_is_heading_and_lines(lines: Vec<String>, message: String)
    requires
        call_ensures(format_aggregate_message, (&lines,), message),
    ensures
        message@ == "Multiple errors were encountered while attempting to authenticate:\n"@
            + join_lines(Seq::new(lines@.len(), |i: int| lines@[i]@)),
        call_requires(format_aggregate_message, (&lines,)),
{
    assert(texts(lines@) =~= Seq::new(lines@.len(), |i: int| lines@[i]@));
}

/// The names of a chain are those of its credentials, position by position, and every position can
/// be reached.
pub proof fn law_every_credential_can_be_reached<C>(
    chain: &mut DefaultAzureCredential<C>,
    index: usize,
)
    ensures
        old(chain)@.names.len() == old(chain).credentials().len(),
        index < old(chain).credentials().len() ==> {
            &&& old(chain)@.names[index as int] == old(chain).credentials()[index as int].name@
            &&& call_requires(DefaultAzureCredential::<C>::credential, (&*old(chain), index))
            &&& call_requires(DefaultAzureCredential::<C>::credential_mut, (chain, index))
        },
        call_requires(DefaultAzureCredential::<C>::names, (&*old(chain),)),
{
}

/// A chain whose selected credential, if there is one, is one of its own can be asked for a token,
/// and goes on with any answer to a request that waits for one of its credentials and noted a
/// failure of each before, or waits for the one that was selected.
pub proof fn law_chain_can_be_asked<C, Q, T>(
    chain: &mut DefaultAzureCredential<C>,
    query: Q,
    request: TokenRequest<Q>,
    reply: Result<T, TokenError>,
)
    requires
        old(chain)@.selected matches Some(selected) ==> 0 <= selected < old(chain)@.names.len(),
        0 <= request@.index < old(chain)@.names.len(),
        request@.pinned || request@.errors.len() == request@.index,
    ensures
        call_requires(
            DefaultAzureCredential::<C>::get_token::<Q, T>,
            (&*old(chain), query),
        ),
        call_requires(
            DefaultAzureCredential::<C>::resume::<Q, T>,
            (chain, request, reply),
        ),
        call_requires(TokenRequest::<Q>::query, (&request,)),
        call_requires(TokenRequest::<Q>::index, (&request,)),
{
}

/// After a credential gave a token to a request that began with none selected, the next request
/// asks that credential, and ends with its answer, be it a success or a failure.
pub proof fn law_next_request_asks_the_one_that_succeeded<C, Q, T>(
    chain: &mut DefaultAzureCredential<C>,
    request: TokenRequest<Q>,
    token: T,
    action: ChainAction<Q, T>,
    later: DefaultAzureCredential<C>,
    query: Q,
    next: TokenRequest<Q>,
    again: &mut DefaultAzureCredential<C>,
    reply: Result<T, TokenError>,
    end: ChainAction<Q, T>,
)
    requires
        !request@.pinned,
        call_ensures(
            DefaultAzureCredential::<C>::resume::<Q, T>,
            (chain, request, Ok(token)),
            action,
        ),
        later == *final(chain),
        call_ensures(
            DefaultAzureCredential::<C>::get_token::<Q, T>,
            (&later, query),
            ChainAction::Ask(next),
        ),
        *old(again) == later,
        call_ensures(
            DefaultAzureCredential::<C>::resume::<Q, T>,
            (again, next, reply),
            end,
        ),
    ensures
        action == ChainAction::<Q, T>::Done(Ok(token)),
        next@.index == request@.index,
        next@.query == query,
        end == ChainAction::<Q, T>::Done(reply),
        final(again)@ == old(again)@,
        final(again)@.selected == Some(request@.index),
{
}

/// In every state that a chain can be in, a step of a request that had a credential selected when
/// it began ends it with the answer and leaves the chain as it is. A step of any other request ends
/// it with a token and selects the credential that gave it, or leaves the chain as it is and goes
/// on to the next credential, or, after the last one, ends it with a failure.
pub proof fn law_steps_of_a_request<Q, T>(
    before: ChainState,
    request: RequestState<Q>,
    reply: Result<T, TokenError>,
    after: ChainState,
    action: ActionState<Q, T>,
)
    requires
        before.resumes(request, reply, after, action),
    ensures
        request.pinned ==> action == ActionState::<Q, T>::Done(reply) && after == before,
        !request.pinned && reply is Ok ==> {
            &&& action == ActionState::<Q, T>::Done(reply)
            &&& after.names == before.names
            &&& after.selected == Some(request.index)
        },
        !request.pinned && reply is Err ==> after == before,
        !request.pinned && reply is Err && request.index + 1 < before.names.len() ==> {
            &&& action matches ActionState::Ask(next)
            &&& next.index == request.index + 1
            &&& next.query == request.query
            &&& !next.pinned
            &&& next.errors.len() == request.errors.len() + 1
            &&& next.errors.drop_last() == request.errors
        },
        !request.pinned && reply is Err && request.index + 1 >= before.names.len() ==> (
        action matches ActionState::Done(Err(TokenError::Credential(_)))),
{
    if !request.pinned && reply is Err && request.index + 1 < before.names.len() {
        assert(action->Ask_0.errors.drop_last() =~= request.errors);
    }
}

} // verus!
