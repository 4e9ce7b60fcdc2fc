use azidentity::chain::{DefaultAzureCredential, NamedCredential};
use azidentity::credentials::{
    client_secret_parameters, environment_credential, managed_identity_credential,
    managed_identity_options, named_credential, with_discovery, Availability, SdkCredential,
    UnavailableCredential, UserAssignedId,
};
use azidentity::error::TokenError;

const NOT_CONFIGURED: &str = "EnvironmentCredential is unavailable because AZURE_TENANT_ID, AZURE_CLIENT_ID, and AZURE_CLIENT_SECRET are not fully configured";

fn set(text: &str) -> Option<String> {
    Some(text.to_string())
}

fn sdk_error(message: &'static str) -> azure_core::Error {
    azure_core::Error::with_message(azure_core::error::ErrorKind::Credential, message)
}

fn unavailable_message<C>(named: &NamedCredential<Availability<C>>) -> Option<String> {
    match &named.credential {
        Availability::Available(_) => None,
        Availability::Unavailable(unavailable) => Some(unavailable.message.clone()),
    }
}

#[test]
fn configures_user_assigned_managed_identity_from_client_id() {
    assert!(managed_identity_options(None).is_none());
    assert!(managed_identity_options(Some(String::new())).is_none());

    let options = managed_identity_options(Some("client-id".to_string())).unwrap();
    match options.user_assigned_id {
        Some(UserAssignedId::ClientId(client_id)) => assert_eq!(client_id, "client-id"),
        _ => panic!("expected a user-assigned managed identity client ID"),
    }
}

#[test]
fn an_unavailable_credential_fails_with_its_message() {
    let unavailable = UnavailableCredential { message: "not here".to_string() };
    for _ in 0..2 {
        let result: Result<u8, TokenError> = unavailable.get_token();
        assert!(matches!(result, Err(TokenError::Credential(message)) if message == "not here"));
    }
}

#[test]
fn a_credential_that_cannot_be_set_up_is_replaced() {
    let there = named_credential("There", Ok(7));
    assert_eq!(there.name, "There");
    assert!(matches!(there.credential, Availability::Available(7)));

    let missing: NamedCredential<Availability<u8>> =
        named_credential("Missing", Err(sdk_error("cannot set up")));
    assert_eq!(missing.name, "Missing");
    assert_eq!(unavailable_message(&missing), set("cannot set up"));
}

#[test]
fn the_environment_credential_needs_all_three_variables() {
    for missing in 0..3 {
        let value = |position: i32| if position == missing { None } else { set("value") };
        assert!(client_secret_parameters(value(0), value(1), value(2)).is_none());
        let named: NamedCredential<Availability<SdkCredential<()>>> =
            environment_credential(value(0), value(1), value(2));
        assert_eq!(named.name, "EnvironmentCredential");
        assert_eq!(unavailable_message(&named), set(NOT_CONFIGURED));
    }
    let parameters = client_secret_parameters(set("t"), set("c"), set("s")).unwrap();
    assert_eq!(parameters.tenant_id, "t");
    assert_eq!(parameters.client_id, "c");
    assert_eq!(parameters.client_secret, "s");
}

#[test]
fn the_environment_credential_is_a_client_secret_credential() {
    let named: NamedCredential<Availability<SdkCredential<()>>> =
        environment_credential(set("tenant-1.example"), set("client"), set("secret"));
    match named.credential {
        Availability::Available(SdkCredential::ClientSecret(configured)) => {
            let shown = format!("{:?}", configured.credential);
            assert!(shown.contains("client_id: \"client\""));
            assert!(shown.contains("tenant-1.example"));
        }
        _ => panic!("expected a client secret credential"),
    }
}

#[test]
fn the_sdk_refuses_what_the_environment_credential_cannot_use() {
    let cases: &[(&str, &str, &str, &str)] = &[
        ("", "client", "secret", "invalid tenant ID"),
        ("tenant id", "client", "secret", "invalid tenant ID tenant id"),
        ("tenant", "", "secret", "no client ID specified"),
        ("tenant", "client", "", "no secret specified"),
    ];
    for (tenant_id, client_id, client_secret, expected) in cases {
        let named: NamedCredential<Availability<SdkCredential<()>>> =
            environment_credential(set(tenant_id), set(client_id), set(client_secret));
        assert!(unavailable_message(&named).unwrap().contains(expected));
    }
}

#[test]
fn discovery_probes_only_where_the_credential_uses_imds() {
    let probing = with_discovery(Ok('c'), true, 'p').unwrap();
    assert_eq!(probing.credential(), &'c');
    assert_eq!(probing.probe_client(), Some(&'p'));

    let configured = with_discovery(Ok('c'), false, 'p').unwrap();
    assert_eq!(configured.credential(), &'c');
    assert_eq!(configured.probe_client(), None);

    let failed = with_discovery::<char, char>(Err(sdk_error("no identity")), true, 'p');
    assert_eq!(failed.err().unwrap().to_string(), "no identity");
}

#[test]
fn the_managed_identity_credential_follows_the_environment() {
    for imds in [true, false] {
        let named = managed_identity_credential(
            set("client-id"),
            |name| !imds && name == "MSI_ENDPOINT",
            'p',
        );
        assert_eq!(named.name, "ManagedIdentityCredential");
        match named.credential {
            Availability::Available(SdkCredential::ManagedIdentity(discovery)) => {
                assert_eq!(discovery.probe_client().is_some(), imds)
            }
            _ => panic!("expected a managed identity credential"),
        }
    }
}

#[test]
fn the_default_chain_has_its_credentials_in_order() {
    let chain = DefaultAzureCredential::new(None, None, None, |_| false, ());
    assert_eq!(
        chain.names(),
        vec![
            "EnvironmentCredential",
            "WorkloadIdentityCredential",
            "ManagedIdentityCredential",
            "AzureCliCredential",
            "AzureDeveloperCliCredential",
        ]
    );
    assert!(matches!(
        chain.credential(0),
        Availability::Unavailable(unavailable) if unavailable.message == NOT_CONFIGURED
    ));
    assert!(matches!(
        chain.credential(1),
        Availability::Unavailable(unavailable)
            if unavailable.message.contains("no tenant ID specified")
    ));
    assert!(matches!(
        chain.credential(2),
        Availability::Available(SdkCredential::ManagedIdentity(_))
    ));
    assert!(matches!(chain.credential(3), Availability::Available(SdkCredential::AzureCli(_))));
    assert!(matches!(
        chain.credential(4),
        Availability::Available(SdkCredential::AzureDeveloperCli(_))
    ));
}
