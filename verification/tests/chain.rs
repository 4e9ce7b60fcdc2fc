use azidentity::chain::{
    format_aggregate_message, ChainAction, DefaultAzureCredential, NamedCredential,
};
use azidentity::error::TokenError;
use std::cell::Cell;

struct MockCredential {
    name: &'static str,
    calls: Cell<usize>,
    succeeds: Cell<bool>,
}

impl MockCredential {
    fn new(name: &'static str, succeeds: bool) -> MockCredential {
        MockCredential { name, calls: Cell::new(0), succeeds: Cell::new(succeeds) }
    }

    fn get_token(&self, query: &Vec<String>) -> Result<String, TokenError> {
        assert_eq!(query, &vec!["scope".to_string()]);
        self.calls.set(self.calls.get() + 1);
        if self.succeeds.get() {
            Ok(self.name.to_string())
        } else {
            Err(TokenError::Sdk(azure_core::Error::with_message(
                azure_core::error::ErrorKind::Credential,
                format!("{} failed", self.name),
            )))
        }
    }
}

fn candidate<'a>(
    name: &'static str,
    credential: &'a MockCredential,
) -> NamedCredential<&'a MockCredential> {
    NamedCredential { name, credential }
}

fn get_token(
    chain: &mut DefaultAzureCredential<&MockCredential>,
    scopes: &[&str],
) -> Result<String, TokenError> {
    let query: Vec<String> = scopes.iter().map(|scope| scope.to_string()).collect();
    let mut action: ChainAction<Vec<String>, String> = chain.get_token(query);
    loop {
        match action {
            ChainAction::Ask(request) => {
                let reply = chain.credential(request.index()).get_token(request.query());
                action = chain.resume(request, reply);
            }
            ChainAction::Done(result) => return result,
        }
    }
}

#[test]
fn caches_the_first_successful_credential() {
    let first = MockCredential::new("first", false);
    let second = MockCredential::new("second", true);
    let third = MockCredential::new("third", true);
    let mut chain = DefaultAzureCredential::with_credentials(vec![
        candidate("first", &first),
        candidate("second", &second),
        candidate("third", &third),
    ]);

    for _ in 0..3 {
        let token = get_token(&mut chain, &["scope"]).ok().unwrap();
        assert_eq!(token, "second");
    }

    assert_eq!(first.calls.get(), 1);
    assert_eq!(second.calls.get(), 3);
    assert_eq!(third.calls.get(), 0);
}

#[test]
fn does_not_fall_back_after_selecting_a_credential() {
    let first = MockCredential::new("first", true);
    let second = MockCredential::new("second", true);
    let mut chain = DefaultAzureCredential::with_credentials(vec![
        candidate("first", &first),
        candidate("second", &second),
    ]);

    get_token(&mut chain, &["scope"]).ok().unwrap();
    first.succeeds.set(false);
    let error = get_token(&mut chain, &["scope"]).err().unwrap();

    assert_eq!(error.message(), "first failed");
    assert!(matches!(error, TokenError::Sdk(_)));
    assert_eq!(first.calls.get(), 2);
    assert_eq!(second.calls.get(), 0);
}

#[test]
fn aggregates_errors_when_every_credential_fails() {
    let first = MockCredential::new("first", false);
    let second = MockCredential::new("second", false);
    let mut chain = DefaultAzureCredential::with_credentials(vec![
        candidate("first", &first),
        candidate("second", &second),
    ]);

    let error = get_token(&mut chain, &["scope"]).err().unwrap();
    let message = error.message();
    assert!(message.contains("first: first failed"));
    assert!(message.contains("second: second failed"));
    assert_eq!(
        message,
        "Multiple errors were encountered while attempting to authenticate:\nfirst: first failed\nsecond: second failed"
    );
    assert!(matches!(error, TokenError::Credential(_)));
}

#[test]
fn every_credential_has_its_turn_again_after_all_failed() {
    let first = MockCredential::new("first", false);
    let second = MockCredential::new("second", false);
    let mut chain = DefaultAzureCredential::with_credentials(vec![
        candidate("first", &first),
        candidate("second", &second),
    ]);

    assert!(get_token(&mut chain, &["scope"]).is_err());
    first.succeeds.set(true);
    assert_eq!(get_token(&mut chain, &["scope"]).ok().unwrap(), "first");
    assert_eq!(first.calls.get(), 2);
    assert_eq!(second.calls.get(), 1);
}

#[test]
fn an_empty_chain_fails_without_lines() {
    let mut chain: DefaultAzureCredential<&MockCredential> =
        DefaultAzureCredential::with_credentials(vec![]);
    let error = get_token(&mut chain, &["scope"]).err().unwrap();
    assert_eq!(
        error.message(),
        "Multiple errors were encountered while attempting to authenticate:\n"
    );
}

#[test]
fn names_are_listed_in_order() {
    let first = MockCredential::new("first", false);
    let chain = DefaultAzureCredential::with_credentials(vec![
        candidate("b", &first),
        candidate("a", &first),
    ]);
    assert_eq!(chain.names(), vec!["b", "a"]);
}

#[test]
fn a_credential_is_changed_in_place() {
    let mut chain = DefaultAzureCredential::with_credentials(vec![
        NamedCredential { name: "one", credential: 1u8 },
        NamedCredential { name: "two", credential: 2u8 },
    ]);
    *chain.credential_mut(1) = 3;
    assert_eq!(*chain.credential(0), 1);
    assert_eq!(*chain.credential(1), 3);
    assert_eq!(chain.names(), vec!["one", "two"]);
}

#[test]
fn aggregate_lines_are_separated_by_line_breaks() {
    let header = "Multiple errors were encountered while attempting to authenticate:\n";
    let lines: Vec<String> = vec!["a: x".to_string(), "b: y".to_string(), "c: z".to_string()];
    assert_eq!(format_aggregate_message(&lines), format!("{header}a: x\nb: y\nc: z"));
    assert_eq!(format_aggregate_message(&vec!["a: x".to_string()]), format!("{header}a: x"));
}
