use azidentity::cache::{AccessToken, CachedCredential, Lookup};
use azidentity::chain::{ChainAction, DefaultAzureCredential, NamedCredential};
use azidentity::entry::answer;
use azidentity::error::TokenError;
use std::cell::Cell;

const SECOND: i128 = 1_000_000_000;

struct Issuer {
    name: &'static str,
    calls: Cell<usize>,
    succeeds: Cell<bool>,
}

impl Issuer {
    fn new(name: &'static str, succeeds: bool) -> Issuer {
        Issuer { name, calls: Cell::new(0), succeeds: Cell::new(succeeds) }
    }

    fn get_token(&self, scopes: &Vec<String>, now: i128) -> Result<AccessToken, TokenError> {
        self.calls.set(self.calls.get() + 1);
        if self.succeeds.get() {
            Ok(AccessToken {
                token: format!("{} {} {}", self.name, scopes.join("+"), self.calls.get()),
                expires_on: now + 3600 * SECOND,
            })
        } else {
            Err(TokenError::Credential(format!("{} failed", self.name)))
        }
    }
}

fn call(
    cache: &mut CachedCredential<()>,
    chain: &mut DefaultAzureCredential<&Issuer>,
    scopes: &[&str],
    now: i128,
) -> Result<String, String> {
    let scopes: Vec<String> = scopes.iter().map(|scope| scope.to_string()).collect();
    match cache.get_token_at(scopes, now) {
        Lookup::Hit(token) => answer(Ok(token)),
        Lookup::Fetch(request) => {
            let mut action: ChainAction<Vec<String>, AccessToken> =
                chain.get_token(request.scopes().clone());
            loop {
                match action {
                    ChainAction::Ask(asked) => {
                        let issuer = chain.credential(asked.index());
                        let reply = issuer.get_token(asked.query(), now);
                        action = chain.resume(asked, reply);
                    }
                    ChainAction::Done(result) => return answer(cache.resume(request, result)),
                }
            }
        }
    }
}

#[test]
fn calls_share_fresh_tokens_and_the_selected_credential() {
    let first = Issuer::new("first", false);
    let second = Issuer::new("second", true);
    let third = Issuer::new("third", true);
    let mut chain = DefaultAzureCredential::with_credentials(vec![
        NamedCredential { name: "First", credential: &first },
        NamedCredential { name: "Second", credential: &second },
        NamedCredential { name: "Third", credential: &third },
    ]);
    let mut cache = CachedCredential::new(());

    let token = Ok("second a+b 1".to_string());
    assert_eq!(call(&mut cache, &mut chain, &["b", "a"], 0), token);
    first.succeeds.set(true);

    // While more than five minutes are left, the same token, whatever else is asked for.
    assert_eq!(call(&mut cache, &mut chain, &["c"], SECOND), Ok("second c 2".to_string()));
    assert_eq!(call(&mut cache, &mut chain, &["a", "b", "a"], 3300 * SECOND - 1), token);
    assert_eq!(second.calls.get(), 2);

    // Then a new one from the selected credential alone, which is also where a failure comes from.
    second.succeeds.set(false);
    assert_eq!(
        call(&mut cache, &mut chain, &["a", "b"], 3300 * SECOND),
        Err("second failed".to_string())
    );
    second.succeeds.set(true);
    assert_eq!(
        call(&mut cache, &mut chain, &["a", "b"], 3300 * SECOND),
        Ok("second a+b 4".to_string())
    );
    assert_eq!(first.calls.get(), 1);
    assert_eq!(second.calls.get(), 4);
    assert_eq!(third.calls.get(), 0);
}
