use azidentity::cache::AccessToken;
use azidentity::entry::{answer, check_scopes, runtime_error};
use azidentity::error::TokenError;

#[test]
fn at_least_one_scope_is_required() {
    assert_eq!(check_scopes(vec![]), Err("at least one scope is required".to_string()));
    assert_eq!(check_scopes(vec!["scope".to_string()]), Ok(vec!["scope".to_string()]));
}

#[test]
fn the_answer_is_the_token_itself_or_the_text_of_the_error() {
    let token = AccessToken { token: "secret".to_string(), expires_on: 0 };
    assert_eq!(answer(Ok(token)), Ok("secret".to_string()));

    let own = TokenError::Credential("own message".to_string());
    assert_eq!(answer(Err(own)), Err("own message".to_string()));

    let sdk = azure_core::Error::with_message(azure_core::error::ErrorKind::Io, "sdk message");
    assert_eq!(answer(Err(TokenError::Sdk(sdk))), Err("sdk message".to_string()));
}

#[test]
fn a_runtime_that_does_not_start_is_reported() {
    assert_eq!(runtime_error("no threads"), "failed to start Tokio runtime: no threads");
}
