//! What a caller from outside gets: the access token itself, or the text of an error.
use vstd::prelude::*;
use crate::cache::AccessToken;
use crate::error::TokenError;

verus! {

/// Passes on the scopes of a call, of which there must be at least one.
pub fn check_scopes(scopes: Vec<String>) -> (checked: Result<Vec<String>, String>)
    ensures
        match checked {
            Ok(checked) => checked == scopes && scopes@.len() > 0,
            Err(message) => scopes@.len() == 0 && message@ == "at least one scope is required"@,
        },
{
    if scopes.is_empty() {
        Err("at least one scope is required".to_owned())
    } else {
        Ok(scopes)
    }
}

/// The error of a call where the runtime that makes the requests cannot be started.
pub fn runtime_error(error: &str) -> (message: String)
    ensures
        message@ == "failed to start Tokio runtime: "@ + error@,
{
    let mut message = "failed to start Tokio runtime: ".to_owned();
    message.append(error);
    message
}

/// Whether `answer` is what a call gets for `result`: the access token itself, or the text of the
/// error.
pub open spec fn answers(
    result: Result<AccessToken, TokenError>,
    answer: Result<String, String>,
) -> bool {
    match result {
        Ok(token) => answer matches Ok(secret) && secret@ == token.token@,
        Err(error) => answer matches Err(message) && error.displays_as(message@),
    }
}

/// The answer to a call: the access token, or the text of the error.
pub fn answer(result: Result<AccessToken, TokenError>) -> (answer: Result<String, String>)
    ensures
        answers(result, answer),
{
    match result {
        Ok(token) => Ok(token.token),
        Err(error) => Err(error.message()),
    }
}

/// A call with at least one scope goes on with exactly the scopes that it was given, and one
/// without any is refused.
pub proof fn law_a_scope_is_required(scopes: Vec<String>, checked: Result<Vec<String>, String>)
    requires
        call_ensures(check_scopes, (scopes,), checked),
    ensures
        scopes@.len() > 0 ==> checked == Ok::<Vec<String>, String>(scopes),
        scopes@.len() == 0 ==> (checked matches Err(message) && message@
            == "at least one scope is required"@),
{
}

/// Where the runtime cannot be started, the message says so and ends with the reason.
pub proof fn law_runtime_error_tells_the_reason(error: &str, message: String)
    requires
        call_ensures(runtime_error, (error,), message),
    ensures
        message@ == "failed to start Tokio runtime: "@ + error@,
{
}

/// A call succeeds exactly where a token was obtained, whatever the texts are: it then gets the
/// access token itself, and otherwise the text of the error.
pub proof fn law_call_succeeds_exactly_with_a_token(
    result: Result<AccessToken, TokenError>,
    answer: Result<String, String>,
)
    requires
        call_ensures(self::answer, (result,), answer),
    ensures
        answer is Ok <==> result is Ok,
        answer is Err <==> result is Err,
        result matches Ok(token) ==> answer->Ok_0@ == token.token@,
        result matches Err(TokenError::Credential(message)) ==> answer->Err_0@ == message@,
        result matches Err(TokenError::Sdk(error)) ==> exists|shown: String|
            shown@ == answer->Err_0@ && #[trigger] vstd::string::to_string_from_display_ensures(
                &error,
                shown,
            ),
{
}

/// An answer that a call can get for a result is a success exactly where the result is one, and
/// holds the access token itself or a text that the error is displayed as. For one result every
/// success is the same, and so is the text of an error found here.
pub proof fn law_answers_tell_the_result(
    result: Result<AccessToken, TokenError>,
    answer: Result<String, String>,
    other: Result<String, String>,
)
    requires
        answers(result, answer),
        answers(result, other),
    ensures
        answer is Ok <==> result is Ok,
        result matches Ok(token) ==> answer->Ok_0@ == token.token@,
        result matches Err(TokenError::Credential(message)) ==> answer->Err_0@ == message@,
        result matches Err(TokenError::Sdk(error)) ==> exists|shown: String|
            shown@ == answer->Err_0@ && #[trigger] vstd::string::to_string_from_display_ensures(
                &error,
                shown,
            ),
        answer is Ok <==> other is Ok,
        answer is Ok ==> answer->Ok_0@ == other->Ok_0@,
        result matches Err(TokenError::Credential(_)) ==> answer->Err_0@ == other->Err_0@,
{
}

/// Every call can be checked and every result answered.
pub proof fn law_every_call_is_answered(
    scopes: Vec<String>,
    error: &str,
    result: Result<AccessToken, TokenError>,
)
    ensures
        call_requires(check_scopes, (scopes,)),
        call_requires(runtime_error, (error,)),
        call_requires(self::answer, (result,)),
{
}

} // verus!
