//! Managed secrets: the kinds of secret values and their constructors,
//! and GCP workload identity federation results. There is no secrets
//! backend: federation always fails to prepare, and token issuance is
//! answered with an error value.
use std::time::Duration;
use vstd::prelude::*;

verus! {

/// `std::io::Error`, declared so that `GcpCredentials::cleanup` can
/// return it; the library only carries it, opaque.
#[verifier::external_type_specification]
#[verifier::external_body]
pub struct ExIoError(std::io::Error);

/// Sets up envelope encryption; there is nothing to set up.
pub fn init_envelope() {
}

/// The key that secret values would be encrypted to before upload.
pub struct UploadKey;

/// The kind of a managed secret, as the server records it.
#[derive(Clone, Copy, Debug, PartialEq, Eq, Structural)]
pub enum ManagedSecretType {
    RawValue,
    AnthropicApiKey,
    AnthropicBedrockAccessKey,
    AnthropicBedrockApiKey,
}

/// A secret value. It has no `Debug`: secret material is never printed.
pub enum ManagedSecretValue {
    RawValue { value: String },
    AnthropicApiKey { api_key: String },
    AnthropicBedrockAccessKey {
        aws_access_key_id: String,
        aws_secret_access_key: String,
        aws_session_token: Option<String>,
        aws_region: String,
    },
    AnthropicBedrockApiKey { aws_bearer_token_bedrock: String, aws_region: String },
}

impl ManagedSecretValue {
    pub fn raw_value(s: String) -> (r: Self)
        ensures
            r == (ManagedSecretValue::RawValue { value: s }),
    {
        ManagedSecretValue::RawValue { value: s }
    }

    pub fn anthropic_api_key(s: String) -> (r: Self)
        ensures
            r == (ManagedSecretValue::AnthropicApiKey { api_key: s }),
    {
        ManagedSecretValue::AnthropicApiKey { api_key: s }
    }

    pub fn anthropic_bedrock_access_key(
        access_key_id: String,
        secret_access_key: String,
        session_token: Option<String>,
        region: String,
    ) -> (r: Self)
        ensures
            r == (ManagedSecretValue::AnthropicBedrockAccessKey {
                aws_access_key_id: access_key_id,
                aws_secret_access_key: secret_access_key,
                aws_session_token: session_token,
                aws_region: region,
            }),
    {
        ManagedSecretValue::AnthropicBedrockAccessKey {
            aws_access_key_id: access_key_id,
            aws_secret_access_key: secret_access_key,
            aws_session_token: session_token,
            aws_region: region,
        }
    }

    pub fn anthropic_bedrock_api_key(token: String, region: String) -> (r: Self)
        ensures
            r == (ManagedSecretValue::AnthropicBedrockApiKey {
                aws_bearer_token_bedrock: token,
                aws_region: region,
            }),
    {
        ManagedSecretValue::AnthropicBedrockApiKey { aws_bearer_token_bedrock: token, aws_region: region }
    }

    /// The value as it is printed for debugging: the type's name only,
    /// never the secret material.
    pub fn debug_text(&self) -> (r: String)
        ensures
            r@ == "ManagedSecretValue { .. }"@,
    {
        "ManagedSecretValue { .. }".to_owned()
    }

    /// The kind of the value: one kind per variant, of the same name.
    pub fn secret_type(&self) -> (r: ManagedSecretType)
        ensures
            (self is RawValue) == (r == ManagedSecretType::RawValue),
            (self is AnthropicApiKey) == (r == ManagedSecretType::AnthropicApiKey),
            (self is AnthropicBedrockAccessKey) == (r == ManagedSecretType::AnthropicBedrockAccessKey),
            (self is AnthropicBedrockApiKey) == (r == ManagedSecretType::AnthropicBedrockApiKey),
    {
        match self {
            ManagedSecretValue::RawValue { .. } => ManagedSecretType::RawValue,
            ManagedSecretValue::AnthropicApiKey { .. } => ManagedSecretType::AnthropicApiKey,
            ManagedSecretValue::AnthropicBedrockAccessKey { .. } => {
                ManagedSecretType::AnthropicBedrockAccessKey
            },
            ManagedSecretValue::AnthropicBedrockApiKey { .. } => {
                ManagedSecretType::AnthropicBedrockApiKey
            },
        }
    }
}

/// Tells the secret manager who is acting; implemented by the app's auth
/// state.
pub trait ActorProvider {
    fn actor_uid(&self) -> Option<String>;
}

/// Whose secret it is.
#[derive(Clone, Debug)]
pub enum SecretOwner {
    CurrentUser,
    Team { team_uid: String },
}

/// An identity token issued for a task; `expires_at` is in seconds since
/// the Unix epoch.
#[derive(Clone, Debug)]
pub struct TaskIdentityToken {
    pub token: String,
    pub expires_at: i64,
    pub issuer: String,
}

/// The version of the federation result format.
pub const VERSION: u8 = 1;

pub const TOKEN_TYPE_ID_TOKEN: &'static str = "urn:ietf:params:oauth:token-type:id_token";

pub const TOKEN_TYPE_JWT: &'static str = "urn:ietf:params:oauth:token-type:jwt";

#[derive(Debug, Clone)]
pub struct GcpFederationConfig {
    pub project_number: String,
    pub pool_id: String,
    pub provider_id: String,
    pub service_account_email: Option<String>,
    pub token_lifetime: Option<Duration>,
}

/// Credentials prepared for GCP federation; none can be prepared.
pub struct GcpCredentials;

impl GcpCredentials {
    /// Preparing federated credentials always fails with `NoBinaryPath`.
    pub fn federated(_task_id: &str, _config: &GcpFederationConfig) -> (r: Result<
        Self,
        PrepareGcpCredentialsError,
    >)
        ensures
            r == Err::<Self, PrepareGcpCredentialsError>(PrepareGcpCredentialsError::NoBinaryPath),
    {
        Err(PrepareGcpCredentialsError::NoBinaryPath)
    }

    /// Removes what the credentials wrote; there is nothing to remove.
    pub fn cleanup(self) -> (r: Result<(), std::io::Error>)
        ensures
            r is Ok,
    {
        Ok(())
    }
}

#[derive(Debug, Clone, Copy, PartialEq, Eq, Structural)]
pub enum PrepareGcpCredentialsError {
    NoBinaryPath,
}

impl PrepareGcpCredentialsError {
    /// The error's message.
    pub fn to_string(&self) -> (r: String)
        ensures
            r@ == "warp-lite: GCP federation is disabled"@,
    {
        "warp-lite: GCP federation is disabled".to_owned()
    }
}

/// A successful federation result, in the executable-sourced credential
/// format.
#[derive(Debug, Clone, PartialEq, Eq)]
pub struct GcpWorkloadIdentityFederationToken {
    pub version: u8,
    pub success: bool,
    pub token_type: String,
    pub id_token: String,
    pub expiration_time: i64,
}

impl GcpWorkloadIdentityFederationToken {
    pub fn new(token: TaskIdentityToken, token_type: String) -> (r: Self)
        ensures
            r.version == VERSION,
            r.success,
            r.token_type == token_type,
            r.id_token == token.token,
            r.expiration_time == token.expires_at,
    {
        GcpWorkloadIdentityFederationToken {
            version: VERSION,
            success: true,
            token_type,
            id_token: token.token,
            expiration_time: token.expires_at,
        }
    }
}

/// A failed federation result.
#[derive(Debug, Clone, PartialEq, Eq)]
pub struct GcpWorkloadIdentityFederationError {
    pub version: u8,
    pub success: bool,
    pub code: String,
    pub message: String,
}

impl GcpWorkloadIdentityFederationError {
    pub fn new(message: String) -> (r: Self)
        ensures
            r.version == VERSION,
            !r.success,
            r.code@ == "TOKEN_ISSUANCE_FAILED"@,
            r.message == message,
    {
        GcpWorkloadIdentityFederationError {
            version: VERSION,
            success: false,
            code: "TOKEN_ISSUANCE_FAILED".to_owned(),
            message,
        }
    }
}

/// The answer to a request for a workload identity federation token:
/// federation is disabled.
pub fn issue_gcp_workload_identity_federation_token(
    _audience: String,
    _token_type: String,
    _requested_duration: Duration,
) -> (r: Result<GcpWorkloadIdentityFederationToken, GcpWorkloadIdentityFederationError>)
    ensures
        r is Err,
        r->Err_0.version == VERSION,
        !r->Err_0.success,
        r->Err_0.code@ == "TOKEN_ISSUANCE_FAILED"@,
        r->Err_0.message@ == "warp-lite: identity federation is disabled"@,
{
    Err(GcpWorkloadIdentityFederationError::new("warp-lite: identity federation is disabled".to_owned()))
}

} // verus!
