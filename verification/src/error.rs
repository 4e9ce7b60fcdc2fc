//! The error of a failed token request.
use vstd::prelude::*;

verus! {

/// `azure_core::Error`, the error of every call into the Azure SDK. It is carried through as it
/// came; all that is asked of it is the text that it is displayed as.
#[verifier::external_type_specification]
#[verifier::external_body]
pub struct ExAzureError(azure_core::Error);

/// Why no token was obtained.
pub enum TokenError {
    /// A failure found here, to be reported as an error of the kind "credential" with this
    /// message.
    Credential(String),
    /// A failure of the Azure SDK, to be reported as it is.
    Sdk(azure_core::Error),
}

impl TokenError {
    /// Whether the error is displayed as `text`.
    pub open spec fn displays_as(self, text: Seq<char>) -> bool {
        match self {
            TokenError::Credential(message) => text == message@,
            TokenError::Sdk(error) => sdk_error_displays_as(error, text),
        }
    }

    /// The text that the error is displayed as.
    pub fn message(&self) -> (text: String)
        ensures
            self.displays_as(text@),
    {
        match self {
            TokenError::Credential(message) => message.clone(),
            TokenError::Sdk(error) => error.to_string(),
        }
    }
}

/// Whether the SDK displays `error` as `text`.
pub open spec fn sdk_error_displays_as(error: azure_core::Error, text: Seq<char>) -> bool {
    exists|shown: String|
        shown@ == text && #[trigger] vstd::string::to_string_from_display_ensures(&error, shown)
}

/// The text of an error found here is its message, and that of an error of the SDK is what the SDK
/// displays it as.
pub proof fn law_error_text_is_what_is_displayed(error: TokenError, text: String)
    requires
        call_ensures(TokenError::message, (&error,), text),
    ensures
        error matches TokenError::Credential(message) ==> text@ == message@,
        error matches TokenError::Sdk(error) ==> exists|shown: String|
            shown@ == text@ && #[trigger] vstd::string::to_string_from_display_ensures(
                &error,
                shown,
            ),
{
}

/// An error found here is displayed as its message and as nothing else, and an error of the SDK as
/// what the SDK may display it as and as nothing else.
pub proof fn law_errors_display_nothing_else(
    message: String,
    error: azure_core::Error,
    text: Seq<char>,
)
    ensures
        TokenError::Credential(message).displays_as(text) <==> text == message@,
        TokenError::Sdk(error).displays_as(text) <==> exists|shown: String|
            shown@ == text && #[trigger] vstd::string::to_string_from_display_ensures(
                &error,
                shown,
            ),
        sdk_error_displays_as(error, text) <==> exists|shown: String|
            shown@ == text && #[trigger] vstd::string::to_string_from_display_ensures(
                &error,
                shown,
            ),
{
}

/// The text of any error can be had.
pub proof fn law_every_error_has_a_text(error: TokenError)
    ensures
        call_requires(TokenError::message, (&error,)),
{
}

} // verus!
