use azidentity::chain::{ChainAction, DefaultAzureCredential, NamedCredential};
use azidentity::error::TokenError;
use azidentity::managed_identity::{
    uses_imds, DiscoveryAction, DiscoveryEvent, ManagedIdentityDiscovery, ProbeOutcome,
    ProbeRequest, IMDS_ENDPOINT, PROBE_TIMEOUT_SECONDS,
};
use std::cell::{Cell, RefCell};
use std::time::Duration;

#[derive(Debug, Clone, Copy)]
enum ProbeResult {
    Response(u16),
    ConnectionError,
    Stall,
}

/// A clock that moves only when something waits.
struct Clock {
    elapsed: Cell<Duration>,
}

impl Clock {
    fn new() -> Clock {
        Clock { elapsed: Cell::new(Duration::ZERO) }
    }

    fn sleep(&self, delay: Duration) {
        self.elapsed.set(self.elapsed.get() + delay);
    }
}

struct ProbeClient {
    result: ProbeResult,
    calls: Cell<usize>,
}

impl ProbeClient {
    fn send(&self, clock: &Clock, probe: &ProbeRequest) -> ProbeOutcome {
        self.calls.set(self.calls.get() + 1);
        assert_eq!(probe.url, IMDS_ENDPOINT);
        assert_eq!(probe.method, "GET");
        assert!(probe.headers.is_empty());
        match self.result {
            ProbeResult::Response(status) => ProbeOutcome::Response(status),
            ProbeResult::ConnectionError => ProbeOutcome::TransportError,
            ProbeResult::Stall => {
                clock.sleep(Duration::from_secs(probe.timeout_seconds));
                ProbeOutcome::TimedOut
            }
        }
    }
}

struct SlowCredential {
    calls: Cell<usize>,
    fails: bool,
    delay: Duration,
}

impl SlowCredential {
    fn new(fails: bool, delay: Duration) -> SlowCredential {
        SlowCredential { calls: Cell::new(0), fails, delay }
    }

    fn get_token(&self, clock: &Clock, scopes: &Vec<&'static str>) -> Result<String, TokenError> {
        assert_eq!(scopes, &vec!["scope"]);
        self.calls.set(self.calls.get() + 1);
        clock.sleep(self.delay);
        if self.fails {
            Err(TokenError::Sdk(azure_core::Error::with_message(
                azure_core::error::ErrorKind::Credential,
                "authentication failed",
            )))
        } else {
            Ok("test-token".to_string())
        }
    }
}

type Discovery<'a> = ManagedIdentityDiscovery<&'a SlowCredential, &'a ProbeClient>;

fn discover(
    discovery: &mut Discovery,
    clock: &Clock,
    scopes: Vec<&'static str>,
) -> Result<String, TokenError> {
    let mut action: DiscoveryAction<Vec<&'static str>, String> = discovery.get_token(scopes);
    loop {
        match action {
            DiscoveryAction::Probe(query, probe) => {
                let outcome = discovery.probe_client().unwrap().send(clock, &probe);
                action = discovery.resume(DiscoveryEvent::Probed(query, outcome));
            }
            DiscoveryAction::Authenticate(query) => {
                let reply = discovery.credential().get_token(clock, &query);
                action = discovery.resume(DiscoveryEvent::Authenticated(reply));
            }
            DiscoveryAction::Done(result) => return result,
        }
    }
}

enum Candidate<'a> {
    ManagedIdentity(Discovery<'a>),
    AzureCli(&'a SlowCredential),
}

fn get_token(
    chain: &mut DefaultAzureCredential<Candidate>,
    clock: &Clock,
    scopes: Vec<&'static str>,
) -> Result<String, TokenError> {
    let mut action: ChainAction<Vec<&'static str>, String> = chain.get_token(scopes);
    loop {
        match action {
            ChainAction::Ask(request) => {
                let scopes = request.query().clone();
                let reply = match chain.credential_mut(request.index()) {
                    Candidate::ManagedIdentity(discovery) => discover(discovery, clock, scopes),
                    Candidate::AzureCli(credential) => credential.get_token(clock, &scopes),
                };
                action = chain.resume(request, reply);
            }
            ChainAction::Done(result) => return result,
        }
    }
}

#[test]
fn unavailable_imds_falls_through_without_retries() {
    for result in [ProbeResult::ConnectionError, ProbeResult::Stall] {
        let client = ProbeClient { result, calls: Cell::new(0) };
        let mi = SlowCredential::new(false, Duration::from_secs(3));
        let cli = SlowCredential::new(false, Duration::ZERO);
        let mut chain = DefaultAzureCredential::with_credentials(vec![
            NamedCredential {
                name: "ManagedIdentityCredential",
                credential: Candidate::ManagedIdentity(ManagedIdentityDiscovery::new(
                    &mi,
                    Some(&client),
                )),
            },
            NamedCredential { name: "AzureCliCredential", credential: Candidate::AzureCli(&cli) },
        ]);
        let clock = Clock::new();
        let token = get_token(&mut chain, &clock, vec!["scope"]).ok().unwrap();
        assert_eq!(token, "test-token");
        assert_eq!(cli.calls.get(), 1);
        let expected = if matches!(result, ProbeResult::Stall) {
            Duration::from_secs(PROBE_TIMEOUT_SECONDS)
        } else {
            Duration::ZERO
        };
        assert_eq!(clock.elapsed.get(), expected);
        assert_eq!(mi.calls.get(), 0);
        assert_eq!(client.calls.get(), 1);
        // Selecting CLI prevents another probe on subsequent requests.
        get_token(&mut chain, &clock, vec!["scope"]).ok().unwrap();
        assert_eq!(client.calls.get(), 1);
    }
}

#[test]
fn http_responses_enable_normal_authentication_and_skip_later_probes() {
    for status in [400, 429, 503] {
        let client = ProbeClient { result: ProbeResult::Response(status), calls: Cell::new(0) };
        let mi = SlowCredential::new(false, Duration::from_secs(3));
        let mut discovery = ManagedIdentityDiscovery::new(&mi, Some(&client));
        let clock = Clock::new();
        for _ in 0..2 {
            discover(&mut discovery, &clock, vec!["scope"]).ok().unwrap();
        }
        assert_eq!(clock.elapsed.get(), Duration::from_secs(6));
        assert_eq!(client.calls.get(), 1);
        assert_eq!(mi.calls.get(), 2);
    }
}

#[test]
fn authentication_errors_are_preserved_after_discovery() {
    let client = ProbeClient { result: ProbeResult::Response(400), calls: Cell::new(0) };
    let mi = SlowCredential::new(true, Duration::from_secs(3));
    let mut discovery = ManagedIdentityDiscovery::new(&mi, Some(&client));
    let clock = Clock::new();
    for _ in 0..2 {
        let error = discover(&mut discovery, &clock, vec!["scope"]).err().unwrap();
        assert_eq!(error.message(), "authentication failed");
        assert!(matches!(error, TokenError::Sdk(_)));
    }
    assert_eq!(client.calls.get(), 1);
}

#[test]
fn configured_sources_bypass_discovery() {
    let credential = SlowCredential::new(false, Duration::from_secs(3));
    let mut discovery: Discovery = ManagedIdentityDiscovery::new(&credential, None);
    let clock = Clock::new();
    discover(&mut discovery, &clock, vec!["scope"]).ok().unwrap();
    assert_eq!(credential.calls.get(), 1);
}

#[test]
fn an_unreachable_endpoint_is_probed_again_by_the_next_request() {
    let client = ProbeClient { result: ProbeResult::Stall, calls: Cell::new(0) };
    let mi = SlowCredential::new(false, Duration::from_secs(3));
    let mut discovery = ManagedIdentityDiscovery::new(&mi, Some(&client));
    let clock = Clock::new();
    for calls in 1..3 {
        let error = discover(&mut discovery, &clock, vec!["scope"]).err().unwrap();
        assert_eq!(
            error.message(),
            "ManagedIdentityCredential is unavailable: IMDS discovery received no response within one second or encountered a transport error"
        );
        assert!(matches!(error, TokenError::Credential(_)));
        assert_eq!(client.calls.get(), calls);
    }
    assert_eq!(clock.elapsed.get(), Duration::from_secs(2));
    assert_eq!(mi.calls.get(), 0);
}

#[test]
fn the_endpoint_is_that_of_the_metadata_service() {
    assert_eq!(IMDS_ENDPOINT, "http://169.254.169.254/metadata/identity/oauth2/token");
    assert_eq!(PROBE_TIMEOUT_SECONDS, 1);
}

#[test]
fn source_selection_matches_pinned_sdk() {
    let cases: &[(&[&str], bool)] = &[
        (&[], true),                                        // VM or local machine
        (&["AZURE_CLIENT_ID"], true),                       // user-assigned VM identity
        (&["IDENTITY_ENDPOINT", "IDENTITY_HEADER"], false), // App Service
        (
            &[
                "IDENTITY_ENDPOINT",
                "IDENTITY_HEADER",
                "IDENTITY_SERVER_THUMBPRINT",
            ],
            false,
        ),
        (&["IDENTITY_ENDPOINT", "IMDS_ENDPOINT"], false), // Arc
        (&["MSI_ENDPOINT", "MSI_SECRET"], false),         // Azure ML
        (&["MSI_ENDPOINT"], false),                       // Cloud Shell
        (&["IDENTITY_ENDPOINT"], true), // incomplete configuration falls back to IMDS
        (&["IDENTITY_HEADER"], true),
        (&["IMDS_ENDPOINT"], true),
        (&["IDENTITY_ENDPOINT", "MSI_ENDPOINT"], true), // IDENTITY_ENDPOINT takes precedence
    ];
    for (names, expected) in cases {
        assert_eq!(
            uses_imds(|name| names.contains(&name)),
            *expected,
            "{names:?}"
        );
    }
}

#[test]
fn only_the_variables_that_decide_are_asked_about() {
    let cases: &[(&[&str], &[&str])] = &[
        (&[], &["IDENTITY_ENDPOINT", "MSI_ENDPOINT"]),
        (&["AZURE_CLIENT_ID", "MSI_SECRET"], &["IDENTITY_ENDPOINT", "MSI_ENDPOINT"]),
        (&["IDENTITY_HEADER", "IMDS_ENDPOINT"], &["IDENTITY_ENDPOINT", "MSI_ENDPOINT"]),
        (&["IDENTITY_ENDPOINT", "IDENTITY_HEADER"], &["IDENTITY_ENDPOINT", "IDENTITY_HEADER"]),
        (
            &["IDENTITY_ENDPOINT", "MSI_ENDPOINT"],
            &["IDENTITY_ENDPOINT", "IDENTITY_HEADER", "IMDS_ENDPOINT"],
        ),
    ];
    for (names, expected) in cases {
        let asked: RefCell<Vec<String>> = RefCell::new(vec![]);
        uses_imds(|name| {
            asked.borrow_mut().push(name.to_string());
            names.contains(&name)
        });
        assert_eq!(asked.into_inner(), *expected);
    }
}
