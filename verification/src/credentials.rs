//! The credentials of the chain, and how each is set up from the environment.
use std::sync::Arc;
use vstd::prelude::*;
use crate::chain::{ChainAction, DefaultAzureCredential, NamedCredential};
use crate::error::{sdk_error_displays_as, TokenError};
use crate::managed_identity::{
    answers_lead_to, can_be_asked, law_true_answers_lead_to_the_selected_source, uses_imds,
    DiscoveryAction, ManagedIdentityDiscovery,
};

verus! {

/// `azure_identity::ClientSecretCredential`, held and handed on.
#[verifier::external_type_specification]
#[verifier::external_body]
pub struct ExClientSecretCredential(azure_identity::ClientSecretCredential);

/// `azure_identity::WorkloadIdentityCredential`, held and handed on.
#[verifier::external_type_specification]
#[verifier::external_body]
pub struct ExWorkloadIdentityCredential(azure_identity::WorkloadIdentityCredential);

/// `azure_identity::ManagedIdentityCredential`, held and handed on.
#[verifier::external_type_specification]
#[verifier::external_body]
pub struct ExManagedIdentityCredential(azure_identity::ManagedIdentityCredential);

/// `azure_identity::AzureCliCredential`, held and handed on.
#[verifier::external_type_specification]
#[verifier::external_body]
pub struct ExAzureCliCredential(azure_identity::AzureCliCredential);

/// `azure_identity::AzureDeveloperCliCredential`, held and handed on.
#[verifier::external_type_specification]
#[verifier::external_body]
pub struct ExAzureDeveloperCliCredential(azure_identity::AzureDeveloperCliCredential);

/// A credential, and a note of what it was made of.
pub struct Configured<C, O> {
    pub credential: C,
    pub configuration: Ghost<O>,
}

/// A managed identity credential, and the options that it was made with.
pub type ManagedIdentity = Configured<
    Arc<azure_identity::ManagedIdentityCredential>,
    Option<ManagedIdentityCredentialOptions>,
>;

/// A credential of the SDK. `P` is the type of the client that managed identity probes with.
pub enum SdkCredential<P> {
    ClientSecret(Configured<Arc<azure_identity::ClientSecretCredential>, ClientSecretParameters>),
    WorkloadIdentity(Arc<azure_identity::WorkloadIdentityCredential>),
    ManagedIdentity(ManagedIdentityDiscovery<ManagedIdentity, P>),
    AzureCli(Arc<azure_identity::AzureCliCredential>),
    AzureDeveloperCli(Arc<azure_identity::AzureDeveloperCliCredential>),
}

/// A credential that could not be set up. It stands in the chain in place of the one that could
/// not, and fails whenever it is asked.
pub struct UnavailableCredential {
    pub message: String,
}

/// A credential, or what stands in its place.
pub enum Availability<C> {
    Available(C),
    Unavailable(UnavailableCredential),
}

/// What a client secret credential is made of.
pub struct ClientSecretParameters {
    pub tenant_id: String,
    pub client_id: String,
    pub client_secret: String,
}

/// Which of the identities assigned to a machine to use.
pub enum UserAssignedId {
    ClientId(String),
}

/// What a managed identity credential is asked to do other than by default. Without a
/// user-assigned identity it uses the system-assigned one.
pub struct ManagedIdentityCredentialOptions {
    pub user_assigned_id: Option<UserAssignedId>,
}

/// Calls `ClientSecretCredential::new` with the given parameters and default options, and notes
/// with the credential what it was made of. The SDK refuses an empty tenant ID, client ID or
/// secret. Nothing more is claimed: whether it accepts others depends on which characters the
/// tenant ID holds and on the environment, from which it takes the authority host. The SDK panics
/// where the machine does not let it build an HTTP client, which no argument decides.
#[verifier::external_body]
fn new_client_secret_credential(parameters: ClientSecretParameters) -> (created: azure_core::Result<
    Configured<Arc<azure_identity::ClientSecretCredential>, ClientSecretParameters>,
>)
    ensures
        created matches Ok(configured) ==> {
            &&& configured.configuration@ == parameters
            &&& parameters.tenant_id@.len() > 0
            &&& parameters.client_id@.len() > 0
            &&& parameters.client_secret@.len() > 0
        },
{
    let configuration = Ghost(parameters);
    let secret = azure_core::credentials::Secret::new(parameters.client_secret);
    let tenant_id = parameters.tenant_id.as_str();
    azure_identity::ClientSecretCredential::new(tenant_id, parameters.client_id, secret, None).map(
        |credential| Configured { credential, configuration },
    )
}

/// Calls `WorkloadIdentityCredential::new` with default options. Nothing is claimed of the result,
/// which depends on the environment and on the token file that it names. The SDK panics where the
/// machine does not let it build an HTTP client.
#[verifier::external_body]
fn new_workload_identity_credential() -> azure_core::Result<
    Arc<azure_identity::WorkloadIdentityCredential>,
> {
    azure_identity::WorkloadIdentityCredential::new(None)
}

/// Calls `ManagedIdentityCredential::new` with the given options, and the SDK's default for what
/// they do not say, and notes with the credential what it was made of. Nothing is claimed of when
/// the call succeeds, which depends on the environment. The SDK panics where the machine does not
/// let it build an HTTP client, which no argument decides.
#[verifier::external_body]
fn new_managed_identity_credential(options: Option<ManagedIdentityCredentialOptions>) -> (created:
    azure_core::Result<ManagedIdentity>)
    ensures
        created matches Ok(configured) ==> configured.configuration@ == options,
{
    let configuration = Ghost(options);
    let options = options.map(
        |options| azure_identity::ManagedIdentityCredentialOptions {
            user_assigned_id: options.user_assigned_id.map(
                |id| match id {
                    UserAssignedId::ClientId(id) => azure_identity::UserAssignedId::ClientId(id),
                },
            ),
            ..Default::default()
        },
    );
    azure_identity::ManagedIdentityCredential::new(options).map(
        |credential| Configured { credential, configuration },
    )
}

/// Calls `AzureCliCredential::new` with default options. The SDK checks only what options say, so
/// that without any the call succeeds.
#[verifier::external_body]
fn new_azure_cli_credential() -> (created: azure_core::Result<
    Arc<azure_identity::AzureCliCredential>,
>)
    ensures
        created is Ok,
{
    azure_identity::AzureCliCredential::new(None)
}

/// Calls `AzureDeveloperCliCredential::new` with default options. The SDK checks only what options
/// say, so that without any the call succeeds.
#[verifier::external_body]
fn new_azure_developer_cli_credential() -> (created: azure_core::Result<
    Arc<azure_identity::AzureDeveloperCliCredential>,
>)
    ensures
        created is Ok,
{
    azure_identity::AzureDeveloperCliCredential::new(None)
}

impl UnavailableCredential {
    /// Fails with the credential's message, whatever is asked for.
    pub fn get_token<T>(&self) -> (result: Result<T, TokenError>)
        ensures
            result matches Err(TokenError::Credential(message)) && message@ == self.message@,
    {
        Err(TokenError::Credential(self.message.clone()))
    }
}

/// Names a credential. Where it could not be set up, one that fails with the text of the error
/// takes its place.
pub fn named_credential<C>(name: &'static str, credential: azure_core::Result<C>) -> (named:
    NamedCredential<Availability<C>>)
    ensures
        named.name@ == name@,
        match credential {
            Ok(credential) => named.credential == Availability::Available(credential),
            Err(error) => {
                &&& named.credential matches Availability::Unavailable(unavailable)
                &&& sdk_error_displays_as(error, unavailable.message@)
            },
        },
{
    let credential = match credential {
        Ok(credential) => Availability::Available(credential),
        Err(error) => Availability::Unavailable(
            UnavailableCredential { message: error.to_string() },
        ),
    };
    NamedCredential { name, credential }
}

/// Whether `created` is what the SDK may make of a client secret credential with these parameters.
pub closed spec fn sdk_makes_client_secret(
    parameters: ClientSecretParameters,
    created: azure_core::Result<
        Configured<Arc<azure_identity::ClientSecretCredential>, ClientSecretParameters>,
    >,
) -> bool {
    call_ensures(new_client_secret_credential, (parameters,), created)
}

/// Whether `created` is what the SDK may make of a workload identity credential.
pub closed spec fn sdk_makes_workload_identity(
    created: azure_core::Result<Arc<azure_identity::WorkloadIdentityCredential>>,
) -> bool {
    call_ensures(new_workload_identity_credential, (), created)
}

/// Whether `created` is what the SDK may make of a managed identity credential with these options.
pub closed spec fn sdk_makes_managed_identity(
    options: Option<ManagedIdentityCredentialOptions>,
    created: azure_core::Result<ManagedIdentity>,
) -> bool {
    call_ensures(new_managed_identity_credential, (options,), created)
}

/// Whether `created` is what the SDK may make of an Azure CLI credential.
pub closed spec fn sdk_makes_azure_cli(
    created: azure_core::Result<Arc<azure_identity::AzureCliCredential>>,
) -> bool {
    call_ensures(new_azure_cli_credential, (), created)
}

/// Whether `created` is what the SDK may make of an Azure Developer CLI credential.
pub closed spec fn sdk_makes_azure_developer_cli(
    created: azure_core::Result<Arc<azure_identity::AzureDeveloperCliCredential>>,
) -> bool {
    call_ensures(new_azure_developer_cli_credential, (), created)
}

/// The message of the environment credential where a variable is missing.
pub open spec fn environment_unavailable_message() -> Seq<char> {
    "EnvironmentCredential is unavailable because AZURE_TENANT_ID, AZURE_CLIENT_ID, and AZURE_CLIENT_SECRET are not fully configured"@
}

/// The parameters of a client secret credential, where all three variables are set.
pub fn client_secret_parameters(
    tenant_id: Option<String>,
    client_id: Option<String>,
    client_secret: Option<String>,
) -> (parameters: Option<ClientSecretParameters>)
    ensures
        parameters == match (tenant_id, client_id, client_secret) {
            (Some(tenant_id), Some(client_id), Some(client_secret)) => Some(
                ClientSecretParameters { tenant_id, client_id, client_secret },
            ),
            _ => None,
        },
{
    match (tenant_id, client_id, client_secret) {
        (Some(tenant_id), Some(client_id), Some(client_secret)) => Some(
            ClientSecretParameters { tenant_id, client_id, client_secret },
        ),
        _ => None,
    }
}

/// What holds of the environment credential: where one of the three variables is missing, it is
/// unavailable and says so; otherwise it is the client secret credential that the SDK makes of the
/// three, or unavailable with the error with which the SDK refuses them. It refuses an empty value.
pub open spec fn is_environment_credential<P>(
    named: NamedCredential<Availability<SdkCredential<P>>>,
    tenant_id: Option<String>,
    client_id: Option<String>,
    client_secret: Option<String>,
) -> bool {
    &&& named.name@ == "EnvironmentCredential"@
    &&& match (tenant_id, client_id, client_secret) {
        (Some(tenant_id), Some(client_id), Some(client_secret)) => {
            let parameters = ClientSecretParameters { tenant_id, client_id, client_secret };
            match named.credential {
                Availability::Available(SdkCredential::ClientSecret(configured)) => {
                    &&& sdk_makes_client_secret(parameters, Ok(configured))
                    &&& configured.configuration@ == parameters
                    &&& tenant_id@.len() > 0
                    &&& client_id@.len() > 0
                    &&& client_secret@.len() > 0
                },
                Availability::Available(_) => false,
                Availability::Unavailable(unavailable) => exists|error: azure_core::Error|
                    #[trigger] sdk_makes_client_secret(parameters, Err(error))
                        && sdk_error_displays_as(error, unavailable.message@),
            }
        },
        _ => {
            &&& named.credential matches Availability::Unavailable(unavailable)
            &&& unavailable.message@ == environment_unavailable_message()
        },
    }
}

/// The credential that the variables `AZURE_TENANT_ID`, `AZURE_CLIENT_ID` and
/// `AZURE_CLIENT_SECRET` describe.
pub fn environment_credential<P>(
    tenant_id: Option<String>,
    client_id: Option<String>,
    client_secret: Option<String>,
) -> (named: NamedCredential<Availability<SdkCredential<P>>>)
    ensures
        is_environment_credential(named, tenant_id, client_id, client_secret),
{
    match client_secret_parameters(tenant_id, client_id, client_secret) {
        Some(parameters) => {
            let created = new_client_secret_credential(parameters);
            assert(sdk_makes_client_secret(parameters, created));
            let created = match created {
                Ok(credential) => Ok(SdkCredential::ClientSecret(credential)),
                Err(error) => Err(error),
            };
            named_credential("EnvironmentCredential", created)
        },
        None => NamedCredential {
            name: "EnvironmentCredential",
            credential: Availability::Unavailable(
                UnavailableCredential {
                    message: "EnvironmentCredential is unavailable because AZURE_TENANT_ID, AZURE_CLIENT_ID, and AZURE_CLIENT_SECRET are not fully configured".to_owned(),
                },
            ),
        },
    }
}

/// Whether `options` are those for the client ID: one that is not empty selects the user-assigned
/// identity with that ID, otherwise the system-assigned identity is used.
pub open spec fn selects_identity(
    client_id: Option<String>,
    options: Option<ManagedIdentityCredentialOptions>,
) -> bool {
    match client_id {
        Some(client_id) if client_id@.len() > 0 => options == Some(
            ManagedIdentityCredentialOptions {
                user_assigned_id: Some(UserAssignedId::ClientId(client_id)),
            },
        ),
        _ => options is None,
    }
}

/// The options of the managed identity credential for a client ID.
pub fn managed_identity_options(client_id: Option<String>) -> (options: Option<
    ManagedIdentityCredentialOptions,
>)
    ensures
        selects_identity(client_id, options),
{
    match client_id {
        Some(client_id) => {
            if client_id.as_str().is_empty() {
                None
            } else {
                Some(
                    ManagedIdentityCredentialOptions {
                        user_assigned_id: Some(UserAssignedId::ClientId(client_id)),
                    },
                )
            }
        },
        None => None,
    }
}

/// Puts a managed identity credential behind the discovery of its endpoint, which is probed where
/// the credential uses IMDS.
pub fn with_discovery<C, P>(credential: azure_core::Result<C>, imds: bool, probe_client: P) -> (
    discovery: azure_core::Result<ManagedIdentityDiscovery<C, P>>)
    ensures
        match credential {
            Ok(credential) => {
                &&& discovery matches Ok(discovery)
                &&& discovery.spec_credential() == credential
                &&& discovery.spec_probe_client() == if imds {
                    Some(probe_client)
                } else {
                    None
                }
                &&& discovery@.probes == imds
                &&& !discovery@.available
            },
            Err(error) => discovery == Err::<ManagedIdentityDiscovery<C, P>, _>(error),
        },
{
    match credential {
        Ok(credential) => {
            let client = if imds {
                Some(probe_client)
            } else {
                None
            };
            Ok(ManagedIdentityDiscovery::new(credential, client))
        },
        Err(error) => Err(error),
    }
}

/// What holds of the managed identity credential: it is what the SDK makes for the identity that
/// the client ID selects, and its endpoint is probed first where the environment makes it use IMDS,
/// and only there; or it is unavailable with the error with which the SDK refuses to make it.
pub open spec fn is_managed_identity_credential<P, F: Fn(&str) -> bool>(
    named: NamedCredential<Availability<SdkCredential<P>>>,
    client_id: Option<String>,
    has_env: F,
    probe_client: P,
) -> bool {
    &&& named.name@ == "ManagedIdentityCredential"@
    &&& match named.credential {
        Availability::Available(SdkCredential::ManagedIdentity(discovery)) => {
            &&& sdk_makes_managed_identity(
                discovery.spec_credential().configuration@,
                Ok(discovery.spec_credential()),
            )
            &&& selects_identity(client_id, discovery.spec_credential().configuration@)
            &&& !discovery@.available
            &&& answers_lead_to(has_env, discovery@.probes)
            &&& discovery.spec_probe_client() == if discovery@.probes {
                Some(probe_client)
            } else {
                None
            }
        },
        Availability::Available(_) => false,
        Availability::Unavailable(unavailable) => exists|
            options: Option<ManagedIdentityCredentialOptions>,
            error: azure_core::Error,
        |
            #[trigger] sdk_makes_managed_identity(options, Err(error)) && selects_identity(
                client_id,
                options,
            ) && sdk_error_displays_as(error, unavailable.message@),
    }
}

/// What holds of the workload identity credential: it is what the SDK makes, or unavailable with
/// the error with which the SDK refuses to.
pub open spec fn is_workload_identity_credential<P>(
    named: NamedCredential<Availability<SdkCredential<P>>>,
) -> bool {
    &&& named.name@ == "WorkloadIdentityCredential"@
    &&& match named.credential {
        Availability::Available(SdkCredential::WorkloadIdentity(credential)) =>
            sdk_makes_workload_identity(Ok(credential)),
        Availability::Available(_) => false,
        Availability::Unavailable(unavailable) => exists|error: azure_core::Error|
            #[trigger] sdk_makes_workload_identity(Err(error)) && sdk_error_displays_as(
                error,
                unavailable.message@,
            ),
    }
}

/// The managed identity credential for the value of the variable `AZURE_CLIENT_ID`, given whether
/// each environment variable is set and a client to probe with.
pub fn managed_identity_credential<P>(
    client_id: Option<String>,
    has_env: impl Fn(&str) -> bool,
    probe_client: P,
) -> (named: NamedCredential<Availability<SdkCredential<P>>>)
    requires
        can_be_asked(has_env),
    ensures
        is_managed_identity_credential(named, client_id, has_env, probe_client),
{
    let imds = uses_imds(has_env);
    let options = managed_identity_options(client_id);
    let created = new_managed_identity_credential(options);
    assert(sdk_makes_managed_identity(options, created));
    let discovery = match with_discovery(created, imds, probe_client) {
        Ok(discovery) => Ok(SdkCredential::ManagedIdentity(discovery)),
        Err(error) => Err(error),
    };
    named_credential("ManagedIdentityCredential", discovery)
}

impl<P> DefaultAzureCredential<Availability<SdkCredential<P>>> {
    /// The default chain: environment, workload identity, managed identity, Azure CLI and Azure
    /// Developer CLI, in this order. It is given the values of the variables `AZURE_TENANT_ID`,
    /// `AZURE_CLIENT_ID` and `AZURE_CLIENT_SECRET`, whether each environment variable is set, and
    /// a client to probe with.
    pub fn new(
        tenant_id: Option<String>,
        client_id: Option<String>,
        client_secret: Option<String>,
        has_env: impl Fn(&str) -> bool,
        probe_client: P,
    ) -> (chain: Self)
        requires
            can_be_asked(has_env),
        ensures
            chain@.valid(),
            chain@.selected is None,
            chain@.names == seq![
                "EnvironmentCredential"@,
                "WorkloadIdentityCredential"@,
                "ManagedIdentityCredential"@,
                "AzureCliCredential"@,
                "AzureDeveloperCliCredential"@,
            ],
            chain.credentials().len() == 5,
            is_environment_credential(chain.credentials()[0], tenant_id, client_id, client_secret),
            is_workload_identity_credential(chain.credentials()[1]),
            is_managed_identity_credential(
                chain.credentials()[2],
                client_id,
                has_env,
                probe_client,
            ),
            chain.credentials()[3].credential matches Availability::Available(
                SdkCredential::AzureCli(credential),
            ) && sdk_makes_azure_cli(Ok(credential)),
            chain.credentials()[4].credential matches Availability::Available(
                SdkCredential::AzureDeveloperCli(credential),
            ) && sdk_makes_azure_developer_cli(Ok(credential)),
    {
        let workload_identity = new_workload_identity_credential();
        assert(sdk_makes_workload_identity(workload_identity));
        let workload_identity = match workload_identity {
            Ok(credential) => Ok(SdkCredential::WorkloadIdentity(credential)),
            Err(error) => Err(error),
        };
        let azure_cli = match new_azure_cli_credential() {
            Ok(credential) => Ok(SdkCredential::AzureCli(credential)),
            Err(error) => Err(error),
        };
        let azure_developer_cli = match new_azure_developer_cli_credential() {
            Ok(credential) => Ok(SdkCredential::AzureDeveloperCli(credential)),
            Err(error) => Err(error),
        };
        let mut credentials: Vec<NamedCredential<Availability<SdkCredential<P>>>> = Vec::new();
        credentials.push(environment_credential(tenant_id, client_id.clone(), client_secret));
        credentials.push(named_credential("WorkloadIdentityCredential", workload_identity));
        credentials.push(managed_identity_credential(client_id, has_env, probe_client));
        credentials.push(named_credential("AzureCliCredential", azure_cli));
        credentials.push(named_credential("AzureDeveloperCliCredential", azure_developer_cli));
        let chain = Self::with_credentials(credentials);
        assert(chain@.names =~= seq![
            "EnvironmentCredential"@,
            "WorkloadIdentityCredential"@,
            "ManagedIdentityCredential"@,
            "AzureCliCredential"@,
            "AzureDeveloperCliCredential"@,
        ]);
        chain
    }
}

/// What the SDK may make is what a call into it may return: nothing that was changed afterwards.
proof fn law_sdk_makes_what_its_calls_return(
    parameters: ClientSecretParameters,
    client_secret: azure_core::Result<
        Configured<Arc<azure_identity::ClientSecretCredential>, ClientSecretParameters>,
    >,
    workload_identity: azure_core::Result<Arc<azure_identity::WorkloadIdentityCredential>>,
    options: Option<ManagedIdentityCredentialOptions>,
    managed_identity: azure_core::Result<ManagedIdentity>,
    azure_cli: azure_core::Result<Arc<azure_identity::AzureCliCredential>>,
    azure_developer_cli: azure_core::Result<Arc<azure_identity::AzureDeveloperCliCredential>>,
)
    ensures
        sdk_makes_client_secret(parameters, client_secret) <==> call_ensures(
            new_client_secret_credential,
            (parameters,),
            client_secret,
        ),
        sdk_makes_workload_identity(workload_identity) <==> call_ensures(
            new_workload_identity_credential,
            (),
            workload_identity,
        ),
        sdk_makes_managed_identity(options, managed_identity) <==> call_ensures(
            new_managed_identity_credential,
            (options,),
            managed_identity,
        ),
        sdk_makes_azure_cli(azure_cli) <==> call_ensures(new_azure_cli_credential, (), azure_cli),
        sdk_makes_azure_developer_cli(azure_developer_cli) <==> call_ensures(
            new_azure_developer_cli_credential,
            (),
            azure_developer_cli,
        ),
{
}

/// A credential that could not be set up fails with its message, whatever is asked for.
pub proof fn law_unavailable_credential_fails_with_its_message<T>(
    credential: UnavailableCredential,
    result: Result<T, TokenError>,
)
    requires
        call_ensures(UnavailableCredential::get_token::<T>, (&credential,), result),
    ensures
        result matches Err(TokenError::Credential(message)) && message@ == credential.message@,
        call_requires(UnavailableCredential::get_token::<T>, (&credential,)),
{
}

/// A credential keeps the name that it is given. One that was set up is available as it is; where
/// that failed, one that fails with the text of that error takes its place.
pub proof fn law_failed_setup_is_told_when_asked<C, T>(
    name: &'static str,
    credential: azure_core::Result<C>,
    named: NamedCredential<Availability<C>>,
    unavailable: UnavailableCredential,
    result: Result<T, TokenError>,
)
    requires
        call_ensures(named_credential::<C>, (name, credential), named),
        call_ensures(UnavailableCredential::get_token::<T>, (&unavailable,), result),
    ensures
        named.name@ == name@,
        credential matches Ok(credential) ==> named.credential == Availability::Available(
            credential,
        ),
        credential is Err ==> named.credential is Unavailable,
        credential is Err && named.credential == Availability::<C>::Unavailable(unavailable) ==> {
            &&& result matches Err(TokenError::Credential(message))
            &&& exists|shown: String|
                shown@ == message@ && #[trigger] vstd::string::to_string_from_display_ensures(
                    &credential->Err_0,
                    shown,
                )
        },
{
}

/// The parameters are there exactly where all three values are, and each is the value given.
pub proof fn law_parameters_are_the_values_given(
    tenant_id: Option<String>,
    client_id: Option<String>,
    client_secret: Option<String>,
    parameters: Option<ClientSecretParameters>,
)
    requires
        call_ensures(client_secret_parameters, (tenant_id, client_id, client_secret), parameters),
    ensures
        parameters is Some <==> tenant_id is Some && client_id is Some && client_secret is Some,
        parameters matches Some(parameters) ==> {
            &&& Some(parameters.tenant_id) == tenant_id
            &&& Some(parameters.client_id) == client_id
            &&& Some(parameters.client_secret) == client_secret
        },
{
}

/// The environment credential goes by its name. Where a value is missing, it is unavailable and
/// says so. Where all three are given and it is available, it is a client secret credential that
/// the SDK made of exactly these three, each in its place and none empty. Where all three are given
/// and it is unavailable, it tells the error with which the SDK refused exactly these three.
pub proof fn law_environment_credential_is_made_of_the_values_given<P>(
    tenant_id: Option<String>,
    client_id: Option<String>,
    client_secret: Option<String>,
    named: NamedCredential<Availability<SdkCredential<P>>>,
)
    requires
        call_ensures(
            environment_credential::<P>,
            (tenant_id, client_id, client_secret),
            named,
        ),
    ensures
        named.name@ == "EnvironmentCredential"@,
        tenant_id is None || client_id is None || client_secret is None ==> {
            &&& named.credential matches Availability::Unavailable(unavailable)
            &&& unavailable.message@ == "EnvironmentCredential is unavailable because AZURE_TENANT_ID, AZURE_CLIENT_ID, and AZURE_CLIENT_SECRET are not fully configured"@
        },
        named.credential is Available ==> {
            &&& named.credential matches Availability::Available(
                SdkCredential::ClientSecret(configured),
            )
            &&& Some(configured.configuration@.tenant_id) == tenant_id
            &&& Some(configured.configuration@.client_id) == client_id
            &&& Some(configured.configuration@.client_secret) == client_secret
            &&& tenant_id->0@.len() > 0
            &&& client_id->0@.len() > 0
            &&& client_secret->0@.len() > 0
            &&& sdk_makes_client_secret(configured.configuration@, Ok(configured))
        },
        tenant_id is Some && client_id is Some && client_secret is Some && named.credential
            is Unavailable ==> exists|
            parameters: ClientSecretParameters,
            error: azure_core::Error,
            shown: String,
        |
            {
                &&& #[trigger] sdk_makes_client_secret(parameters, Err(error))
                &&& Some(parameters.tenant_id) == tenant_id
                &&& Some(parameters.client_id) == client_id
                &&& Some(parameters.client_secret) == client_secret
                &&& #[trigger] vstd::string::to_string_from_display_ensures(&error, shown)
                &&& shown@ == named.credential->Unavailable_0.message@
            },
{
    lemma_environment_refusal_is_told(named, tenant_id, client_id, client_secret);
}

proof fn lemma_environment_refusal_is_told<P>(
    named: NamedCredential<Availability<SdkCredential<P>>>,
    tenant_id: Option<String>,
    client_id: Option<String>,
    client_secret: Option<String>,
)
    requires
        is_environment_credential(named, tenant_id, client_id, client_secret),
    ensures
        tenant_id is Some && client_id is Some && client_secret is Some && named.credential
            is Unavailable ==> exists|
            parameters: ClientSecretParameters,
            error: azure_core::Error,
            shown: String,
        |
            {
                &&& #[trigger] sdk_makes_client_secret(parameters, Err(error))
                &&& Some(parameters.tenant_id) == tenant_id
                &&& Some(parameters.client_id) == client_id
                &&& Some(parameters.client_secret) == client_secret
                &&& #[trigger] vstd::string::to_string_from_display_ensures(&error, shown)
                &&& shown@ == named.credential->Unavailable_0.message@
            },
{
    if tenant_id is Some && client_id is Some && client_secret is Some && named.credential
        is Unavailable {
        let parameters = ClientSecretParameters {
            tenant_id: tenant_id->0,
            client_id: client_id->0,
            client_secret: client_secret->0,
        };
        let message = named.credential->Unavailable_0.message@;
        let error = choose|error: azure_core::Error| #[trigger]
            sdk_makes_client_secret(parameters, Err(error)) && sdk_error_displays_as(
                error,
                message,
            );
        let shown = choose|shown: String|
            shown@ == message && #[trigger] vstd::string::to_string_from_display_ensures(
                &error,
                shown,
            );
        assert(sdk_makes_client_secret(parameters, Err(error)));
        assert(vstd::string::to_string_from_display_ensures(&error, shown));
    }
}

/// A client ID that is not empty selects the user-assigned identity with exactly that ID, and
/// without one the system-assigned identity is left in place.
pub proof fn law_client_id_selects_its_identity(
    client_id: Option<String>,
    options: Option<ManagedIdentityCredentialOptions>,
)
    requires
        call_ensures(managed_identity_options, (client_id,), options),
    ensures
        client_id is Some && client_id->0@.len() > 0 ==> {
            &&& options matches Some(options)
            &&& options.user_assigned_id == Some(UserAssignedId::ClientId(client_id->0))
        },
        client_id is None || client_id->0@.len() == 0 ==> options is None,
{
}

/// A managed identity credential behind the discovery is the one given, and its first request
/// begins with a probe, with the client given, exactly where it uses IMDS. A failure to set it up
/// stays that failure.
pub proof fn law_discovery_probes_exactly_for_imds<C, P, Q, T>(
    credential: azure_core::Result<C>,
    imds: bool,
    probe_client: P,
    discovery: azure_core::Result<ManagedIdentityDiscovery<C, P>>,
    query: Q,
    action: DiscoveryAction<Q, T>,
    client: Option<&P>,
    held: &C,
)
    requires
        call_ensures(with_discovery::<C, P>, (credential, imds, probe_client), discovery),
        discovery is Ok ==> {
            &&& call_ensures(
                ManagedIdentityDiscovery::<C, P>::get_token::<Q, T>,
                (&discovery->Ok_0, query),
                action,
            )
            &&& call_ensures(
                ManagedIdentityDiscovery::<C, P>::probe_client,
                (&discovery->Ok_0,),
                client,
            )
            &&& call_ensures(
                ManagedIdentityDiscovery::<C, P>::credential,
                (&discovery->Ok_0,),
                held,
            )
        },
    ensures
        discovery is Ok <==> credential is Ok,
        credential is Err ==> discovery->Err_0 == credential->Err_0,
        credential is Ok ==> *held == credential->Ok_0,
        credential is Ok && imds ==> {
            &&& client matches Some(client)
            &&& *client == probe_client
            &&& action is Probe
        },
        credential is Ok && !imds ==> {
            &&& client is None
            &&& action == DiscoveryAction::<Q, T>::Authenticate(query)
        },
{
}

proof fn lemma_managed_identity_is_the_selected_one<P, F: Fn(&str) -> bool>(
    named: NamedCredential<Availability<SdkCredential<P>>>,
    client_id: Option<String>,
    has_env: F,
    probe_client: P,
)
    requires
        is_managed_identity_credential(named, client_id, has_env, probe_client),
    ensures
        named.name@ == "ManagedIdentityCredential"@,
        named.credential is Available ==> {
            &&& named.credential matches Availability::Available(
                SdkCredential::ManagedIdentity(discovery),
            )
            &&& sdk_makes_managed_identity(
                discovery.spec_credential().configuration@,
                Ok(discovery.spec_credential()),
            )
            &&& client_id is Some && client_id->0@.len() > 0 ==> {
                &&& discovery.spec_credential().configuration@ matches Some(options)
                &&& options.user_assigned_id == Some(UserAssignedId::ClientId(client_id->0))
            }
            &&& client_id is None || client_id->0@.len() == 0
                ==> discovery.spec_credential().configuration@ is None
        },
        named.credential is Unavailable ==> exists|
            options: Option<ManagedIdentityCredentialOptions>,
            error: azure_core::Error,
            shown: String,
        |
            {
                &&& #[trigger] sdk_makes_managed_identity(options, Err(error))
                &&& client_id is Some && client_id->0@.len() > 0 ==> {
                    &&& options matches Some(options)
                    &&& options.user_assigned_id == Some(UserAssignedId::ClientId(client_id->0))
                }
                &&& client_id is None || client_id->0@.len() == 0 ==> options is None
                &&& #[trigger] vstd::string::to_string_from_display_ensures(&error, shown)
                &&& shown@ == named.credential->Unavailable_0.message@
            },
{
    if named.credential is Unavailable {
        let message = named.credential->Unavailable_0.message@;
        let (options, error) = choose|
            options: Option<ManagedIdentityCredentialOptions>,
            error: azure_core::Error,
        |
            #[trigger] sdk_makes_managed_identity(options, Err(error)) && selects_identity(
                client_id,
                options,
            ) && sdk_error_displays_as(error, message);
        let shown = choose|shown: String|
            shown@ == message && #[trigger] vstd::string::to_string_from_display_ensures(
                &error,
                shown,
            );
        assert(sdk_makes_managed_identity(options, Err(error)));
        assert(vstd::string::to_string_from_display_ensures(&error, shown));
    }
}

/// The managed identity credential goes by its name. Where it is available, it is one that the SDK
/// made for the user-assigned identity with exactly the client ID given, or, where that is missing
/// or empty, for the system-assigned one. Where it is unavailable, it tells the error with which
/// the SDK refused exactly that identity.
pub proof fn law_managed_identity_is_that_of_the_client_id<P, F: Fn(&str) -> bool>(
    client_id: Option<String>,
    has_env: F,
    probe_client: P,
    named: NamedCredential<Availability<SdkCredential<P>>>,
)
    requires
        call_ensures(managed_identity_credential, (client_id, has_env, probe_client), named),
    ensures
        named.name@ == "ManagedIdentityCredential"@,
        named.credential is Available ==> {
            &&& named.credential matches Availability::Available(
                SdkCredential::ManagedIdentity(discovery),
            )
            &&& sdk_makes_managed_identity(
                discovery.spec_credential().configuration@,
                Ok(discovery.spec_credential()),
            )
            &&& client_id is Some && client_id->0@.len() > 0 ==> {
                &&& discovery.spec_credential().configuration@ matches Some(options)
                &&& options.user_assigned_id == Some(UserAssignedId::ClientId(client_id->0))
            }
            &&& client_id is None || client_id->0@.len() == 0
                ==> discovery.spec_credential().configuration@ is None
        },
        named.credential is Unavailable ==> exists|
            options: Option<ManagedIdentityCredentialOptions>,
            error: azure_core::Error,
            shown: String,
        |
            {
                &&& #[trigger] sdk_makes_managed_identity(options, Err(error))
                &&& client_id is Some && client_id->0@.len() > 0 ==> {
                    &&& options matches Some(options)
                    &&& options.user_assigned_id == Some(UserAssignedId::ClientId(client_id->0))
                }
                &&& client_id is None || client_id->0@.len() == 0 ==> options is None
                &&& #[trigger] vstd::string::to_string_from_display_ensures(&error, shown)
                &&& shown@ == named.credential->Unavailable_0.message@
            },
{
    lemma_managed_identity_is_the_selected_one(named, client_id, has_env, probe_client);
}

proof fn lemma_managed_identity_probes_for_imds<P, F: Fn(&str) -> bool, Q, T>(
    named: NamedCredential<Availability<SdkCredential<P>>>,
    client_id: Option<String>,
    has_env: F,
    probe_client: P,
    variables: Set<Seq<char>>,
    discovery: ManagedIdentityDiscovery<ManagedIdentity, P>,
    query: Q,
    action: DiscoveryAction<Q, T>,
)
    requires
        is_managed_identity_credential(named, client_id, has_env, probe_client),
        forall|name: &str, answer: bool| #[trigger]
            has_env.ensures((name,), answer) ==> (answer <==> variables.contains(name@)),
        named.credential == Availability::Available(SdkCredential::ManagedIdentity(discovery)),
        call_ensures(
            ManagedIdentityDiscovery::<ManagedIdentity, P>::get_token::<Q, T>,
            (&discovery, query),
            action,
        ),
    ensures
        ({
            let imds = {
                ||| variables.contains("IDENTITY_ENDPOINT"@) && !variables.contains(
                    "IDENTITY_HEADER"@,
                ) && !variables.contains("IMDS_ENDPOINT"@)
                ||| !variables.contains("IDENTITY_ENDPOINT"@) && !variables.contains(
                    "MSI_ENDPOINT"@,
                )
            };
            &&& imds ==> discovery.spec_probe_client() == Some(probe_client) && (
            action matches DiscoveryAction::Probe(asked, _) && asked == query)
            &&& !imds ==> discovery.spec_probe_client() is None && action == DiscoveryAction::<
                Q,
                T,
            >::Authenticate(query)
        }),
{
    law_true_answers_lead_to_the_selected_source(has_env, variables, discovery@.probes);
}

/// In an environment in which exactly the variables in `variables` are set, the first request to
/// the managed identity credential begins with a probe, with the client given, exactly where an
/// identity endpoint is set without a header and without an IMDS endpoint, or where neither an
/// identity endpoint nor an MSI endpoint is set. Otherwise the credential is asked at once.
pub proof fn law_managed_identity_is_probed_exactly_for_imds<P, F: Fn(&str) -> bool, Q, T>(
    client_id: Option<String>,
    has_env: F,
    probe_client: P,
    named: NamedCredential<Availability<SdkCredential<P>>>,
    variables: Set<Seq<char>>,
    discovery: ManagedIdentityDiscovery<ManagedIdentity, P>,
    query: Q,
    action: DiscoveryAction<Q, T>,
)
    requires
        call_ensures(managed_identity_credential, (client_id, has_env, probe_client), named),
        forall|name: &str, answer: bool| #[trigger]
            has_env.ensures((name,), answer) ==> (answer <==> variables.contains(name@)),
        named.credential == Availability::Available(SdkCredential::ManagedIdentity(discovery)),
        call_ensures(
            ManagedIdentityDiscovery::<ManagedIdentity, P>::get_token::<Q, T>,
            (&discovery, query),
            action,
        ),
    ensures
        ({
            let imds = {
                ||| variables.contains("IDENTITY_ENDPOINT"@) && !variables.contains(
                    "IDENTITY_HEADER"@,
                ) && !variables.contains("IMDS_ENDPOINT"@)
                ||| !variables.contains("IDENTITY_ENDPOINT"@) && !variables.contains(
                    "MSI_ENDPOINT"@,
                )
            };
            &&& imds ==> discovery.spec_probe_client() == Some(probe_client) && (
            action matches DiscoveryAction::Probe(asked, _) && asked == query)
            &&& !imds ==> discovery.spec_probe_client() is None && action == DiscoveryAction::<
                Q,
                T,
            >::Authenticate(query)
        }),
{
    lemma_managed_identity_probes_for_imds(
        named,
        client_id,
        has_env,
        probe_client,
        variables,
        discovery,
        query,
        action,
    );
}

/// The default chain asks five credentials: environment, workload identity, managed identity, Azure
/// CLI and Azure Developer CLI, in this order. None is selected, so that the first is asked first.
pub proof fn law_default_chain_asks_in_order<P, F: Fn(&str) -> bool, Q, T>(
    tenant_id: Option<String>,
    client_id: Option<String>,
    client_secret: Option<String>,
    has_env: F,
    probe_client: P,
    chain: DefaultAzureCredential<Availability<SdkCredential<P>>>,
    names: Vec<&'static str>,
    query: Q,
    action: ChainAction<Q, T>,
)
    requires
        call_ensures(
            DefaultAzureCredential::<Availability<SdkCredential<P>>>::new,
            (tenant_id, client_id, client_secret, has_env, probe_client),
            chain,
        ),
        call_ensures(
            DefaultAzureCredential::<Availability<SdkCredential<P>>>::names,
            (&chain,),
            names,
        ),
        call_ensures(
            DefaultAzureCredential::<Availability<SdkCredential<P>>>::get_token::<Q, T>,
            (&chain, query),
            action,
        ),
    ensures
        names@.len() == 5,
        names@[0]@ == "EnvironmentCredential"@,
        names@[1]@ == "WorkloadIdentityCredential"@,
        names@[2]@ == "ManagedIdentityCredential"@,
        names@[3]@ == "AzureCliCredential"@,
        names@[4]@ == "AzureDeveloperCliCredential"@,
        chain.credentials().len() == 5,
        chain@.names.len() == 5,
        chain@.selected is None,
        action matches ChainAction::Ask(request) && request@.index == 0 && request@.query == query,
        call_requires(
            DefaultAzureCredential::<Availability<SdkCredential<P>>>::get_token::<Q, T>,
            (&chain, query),
        ),
        call_requires(
            DefaultAzureCredential::<Availability<SdkCredential<P>>>::credential,
            (&chain, 4),
        ),
{
    let texts = names@.map_values(|name: &'static str| name@);
    assert(texts == chain@.names);
    assert(texts.len() == names@.len());
    assert(texts[0] == names@[0]@);
    assert(texts[1] == names@[1]@);
    assert(texts[2] == names@[2]@);
    assert(texts[3] == names@[3]@);
    assert(texts[4] == names@[4]@);
}

/// The first credential of the default chain is unavailable and says so where one of the three
/// values is missing. Where it is available, it is a client secret credential that the SDK made of
/// the tenant ID, the client ID and the client secret given, each in its place; where it is not,
/// it tells the error with which the SDK refused these three.
pub proof fn law_default_chain_begins_with_the_values_given<P, F: Fn(&str) -> bool>(
    tenant_id: Option<String>,
    client_id: Option<String>,
    client_secret: Option<String>,
    has_env: F,
    probe_client: P,
    chain: DefaultAzureCredential<Availability<SdkCredential<P>>>,
    credential: &Availability<SdkCredential<P>>,
)
    requires
        call_ensures(
            DefaultAzureCredential::<Availability<SdkCredential<P>>>::new,
            (tenant_id, client_id, client_secret, has_env, probe_client),
            chain,
        ),
        call_ensures(
            DefaultAzureCredential::<Availability<SdkCredential<P>>>::credential,
            (&chain, 0),
            credential,
        ),
    ensures
        tenant_id is None || client_id is None || client_secret is None ==> {
            &&& *credential matches Availability::Unavailable(unavailable)
            &&& unavailable.message@ == "EnvironmentCredential is unavailable because AZURE_TENANT_ID, AZURE_CLIENT_ID, and AZURE_CLIENT_SECRET are not fully configured"@
        },
        *credential is Available ==> {
            &&& *credential matches Availability::Available(SdkCredential::ClientSecret(configured))
            &&& Some(configured.configuration@.tenant_id) == tenant_id
            &&& Some(configured.configuration@.client_id) == client_id
            &&& Some(configured.configuration@.client_secret) == client_secret
            &&& tenant_id->0@.len() > 0
            &&& client_id->0@.len() > 0
            &&& client_secret->0@.len() > 0
            &&& sdk_makes_client_secret(configured.configuration@, Ok(configured))
        },
        tenant_id is Some && client_id is Some && client_secret is Some && *credential
            is Unavailable ==> exists|
            parameters: ClientSecretParameters,
            error: azure_core::Error,
            shown: String,
        |
            {
                &&& #[trigger] sdk_makes_client_secret(parameters, Err(error))
                &&& Some(parameters.tenant_id) == tenant_id
                &&& Some(parameters.client_id) == client_id
                &&& Some(parameters.client_secret) == client_secret
                &&& #[trigger] vstd::string::to_string_from_display_ensures(&error, shown)
                &&& shown@ == credential->Unavailable_0.message@
            },
{
    lemma_environment_refusal_is_told(chain.credentials()[0], tenant_id, client_id, client_secret);
}

/// The third credential of the default chain, where it is available, is one that the SDK made for
/// the user-assigned identity with exactly the client ID given, or, where that is missing or empty,
/// for the system-assigned one. Where it is unavailable, it tells the error with which the SDK
/// refused exactly that identity.
pub proof fn law_default_chain_uses_the_identity_of_the_client_id<P, F: Fn(&str) -> bool>(
    tenant_id: Option<String>,
    client_id: Option<String>,
    client_secret: Option<String>,
    has_env: F,
    probe_client: P,
    chain: DefaultAzureCredential<Availability<SdkCredential<P>>>,
    credential: &Availability<SdkCredential<P>>,
)
    requires
        call_ensures(
            DefaultAzureCredential::<Availability<SdkCredential<P>>>::new,
            (tenant_id, client_id, client_secret, has_env, probe_client),
            chain,
        ),
        call_ensures(
            DefaultAzureCredential::<Availability<SdkCredential<P>>>::credential,
            (&chain, 2),
            credential,
        ),
    ensures
        *credential is Available ==> {
            &&& *credential matches Availability::Available(
                SdkCredential::ManagedIdentity(discovery),
            )
            &&& sdk_makes_managed_identity(
                discovery.spec_credential().configuration@,
                Ok(discovery.spec_credential()),
            )
            &&& client_id is Some && client_id->0@.len() > 0 ==> {
                &&& discovery.spec_credential().configuration@ matches Some(options)
                &&& options.user_assigned_id == Some(UserAssignedId::ClientId(client_id->0))
            }
            &&& client_id is None || client_id->0@.len() == 0
                ==> discovery.spec_credential().configuration@ is None
        },
        *credential is Unavailable ==> exists|
            options: Option<ManagedIdentityCredentialOptions>,
            error: azure_core::Error,
            shown: String,
        |
            {
                &&& #[trigger] sdk_makes_managed_identity(options, Err(error))
                &&& client_id is Some && client_id->0@.len() > 0 ==> {
                    &&& options matches Some(options)
                    &&& options.user_assigned_id == Some(UserAssignedId::ClientId(client_id->0))
                }
                &&& client_id is None || client_id->0@.len() == 0 ==> options is None
                &&& #[trigger] vstd::string::to_string_from_display_ensures(&error, shown)
                &&& shown@ == credential->Unavailable_0.message@
            },
{
    lemma_managed_identity_is_the_selected_one(
        chain.credentials()[2],
        client_id,
        has_env,
        probe_client,
    );
}

/// In an environment in which exactly the variables in `variables` are set, the first request to
/// the third credential of the default chain begins with a probe, with the client given, exactly
/// where an identity endpoint is set without a header and without an IMDS endpoint, or where
/// neither an identity endpoint nor an MSI endpoint is set.
pub proof fn law_default_chain_probes_exactly_for_imds<P, F: Fn(&str) -> bool, Q, T>(
    tenant_id: Option<String>,
    client_id: Option<String>,
    client_secret: Option<String>,
    has_env: F,
    probe_client: P,
    chain: DefaultAzureCredential<Availability<SdkCredential<P>>>,
    variables: Set<Seq<char>>,
    discovery: ManagedIdentityDiscovery<ManagedIdentity, P>,
    query: Q,
    action: DiscoveryAction<Q, T>,
)
    requires
        call_ensures(
            DefaultAzureCredential::<Availability<SdkCredential<P>>>::new,
            (tenant_id, client_id, client_secret, has_env, probe_client),
            chain,
        ),
        forall|name: &str, answer: bool| #[trigger]
            has_env.ensures((name,), answer) ==> (answer <==> variables.contains(name@)),
        call_ensures(
            DefaultAzureCredential::<Availability<SdkCredential<P>>>::credential,
            (&chain, 2),
            &Availability::Available(SdkCredential::ManagedIdentity(discovery)),
        ),
        call_ensures(
            ManagedIdentityDiscovery::<ManagedIdentity, P>::get_token::<Q, T>,
            (&discovery, query),
            action,
        ),
    ensures
        ({
            let imds = {
                ||| variables.contains("IDENTITY_ENDPOINT"@) && !variables.contains(
                    "IDENTITY_HEADER"@,
                ) && !variables.contains("IMDS_ENDPOINT"@)
                ||| !variables.contains("IDENTITY_ENDPOINT"@) && !variables.contains(
                    "MSI_ENDPOINT"@,
                )
            };
            &&& imds ==> discovery.spec_probe_client() == Some(probe_client) && (
            action matches DiscoveryAction::Probe(asked, _) && asked == query)
            &&& !imds ==> discovery.spec_probe_client() is None && action == DiscoveryAction::<
                Q,
                T,
            >::Authenticate(query)
        }),
{
    lemma_managed_identity_probes_for_imds(
        chain.credentials()[2],
        client_id,
        has_env,
        probe_client,
        variables,
        discovery,
        query,
        action,
    );
}

/// The second credential of the default chain is the workload identity that the SDK makes, or tells
/// the error with which the SDK refused to. The last two are always there, as the SDK makes them:
/// the Azure CLI, then the Azure Developer CLI.
pub proof fn law_default_chain_holds_what_the_sdk_makes<P, F: Fn(&str) -> bool>(
    tenant_id: Option<String>,
    client_id: Option<String>,
    client_secret: Option<String>,
    has_env: F,
    probe_client: P,
    chain: DefaultAzureCredential<Availability<SdkCredential<P>>>,
    workload_identity: &Availability<SdkCredential<P>>,
    azure_cli: &Availability<SdkCredential<P>>,
    azure_developer_cli: &Availability<SdkCredential<P>>,
)
    requires
        call_ensures(
            DefaultAzureCredential::<Availability<SdkCredential<P>>>::new,
            (tenant_id, client_id, client_secret, has_env, probe_client),
            chain,
        ),
        call_ensures(
            DefaultAzureCredential::<Availability<SdkCredential<P>>>::credential,
            (&chain, 1),
            workload_identity,
        ),
        call_ensures(
            DefaultAzureCredential::<Availability<SdkCredential<P>>>::credential,
            (&chain, 3),
            azure_cli,
        ),
        call_ensures(
            DefaultAzureCredential::<Availability<SdkCredential<P>>>::credential,
            (&chain, 4),
            azure_developer_cli,
        ),
    ensures
        *workload_identity is Available ==> {
            &&& *workload_identity matches Availability::Available(
                SdkCredential::WorkloadIdentity(credential),
            )
            &&& sdk_makes_workload_identity(Ok(credential))
        },
        *workload_identity is Unavailable ==> exists|error: azure_core::Error, shown: String|
            {
                &&& #[trigger] sdk_makes_workload_identity(Err(error))
                &&& #[trigger] vstd::string::to_string_from_display_ensures(&error, shown)
                &&& shown@ == workload_identity->Unavailable_0.message@
            },
        *azure_cli matches Availability::Available(SdkCredential::AzureCli(credential))
            && sdk_makes_azure_cli(Ok(credential)),
        *azure_developer_cli matches Availability::Available(
            SdkCredential::AzureDeveloperCli(credential),
        ) && sdk_makes_azure_developer_cli(Ok(credential)),
{
    if *workload_identity is Unavailable {
        let message = workload_identity->Unavailable_0.message@;
        let error = choose|error: azure_core::Error| #[trigger]
            sdk_makes_workload_identity(Err(error)) && sdk_error_displays_as(error, message);
        let shown = choose|shown: String|
            shown@ == message && #[trigger] vstd::string::to_string_from_display_ensures(
                &error,
                shown,
            );
        assert(sdk_makes_workload_identity(Err(error)));
        assert(vstd::string::to_string_from_display_ensures(&error, shown));
    }
}

/// Every credential can be set up, whatever the values are, wherever the identity endpoint can be
/// asked for and, as the answers leave it open, the header, the IMDS endpoint and the MSI endpoint.
pub proof fn law_chain_can_be_set_up<P, F: Fn(&str) -> bool, C>(
    tenant_id: Option<String>,
    client_id: Option<String>,
    client_secret: Option<String>,
    has_env: F,
    probe_client: P,
    name: &'static str,
    credential: azure_core::Result<C>,
    imds: bool,
)
    requires
        has_env.requires(("IDENTITY_ENDPOINT",)),
        has_env.ensures(("IDENTITY_ENDPOINT",), true) ==> has_env.requires(("IDENTITY_HEADER",)),
        has_env.ensures(("IDENTITY_ENDPOINT",), true) && has_env.ensures(
            ("IDENTITY_HEADER",),
            false,
        ) ==> has_env.requires(("IMDS_ENDPOINT",)),
        has_env.ensures(("IDENTITY_ENDPOINT",), false) ==> has_env.requires(("MSI_ENDPOINT",)),
    ensures
        call_requires(
            DefaultAzureCredential::<Availability<SdkCredential<P>>>::new,
            (tenant_id, client_id, client_secret, has_env, probe_client),
        ),
        call_requires(managed_identity_credential, (client_id, has_env, probe_client)),
        call_requires(environment_credential::<P>, (tenant_id, client_id, client_secret)),
        call_requires(client_secret_parameters, (tenant_id, client_id, client_secret)),
        call_requires(managed_identity_options, (client_id,)),
        call_requires(named_credential::<C>, (name, credential)),
        call_requires(with_discovery::<C, P>, (credential, imds, probe_client)),
{
}

} // verus!
