//! Run configuration: the redaction level, the push method, the
//! destination-forge credentials, and the declared source services.
//! Loading the configuration file is I/O and lives outside the library;
//! the validation rules — which level codes exist, which is unimplemented,
//! which services have an adapter — are here.

use vstd::prelude::*;

verus! {

/// How the local working copy reaches the destination forge.
#[derive(Clone, Copy, Debug, PartialEq, Eq, Structural)]
pub enum PushMethod {
    Http,
    Ssh,
}

impl Default for PushMethod {
    fn default() -> (r: Self)
        ensures
            r == PushMethod::Ssh,
    {
        PushMethod::Ssh
    }
}

/// The privacy policy applied to every piece of text before it is
/// published on the mirror. Exactly one level is active per run.
/// `Encrypted` is reserved and must fail fast wherever it is selected.
#[derive(Clone, Copy, Debug, PartialEq, Eq, Structural)]
pub enum RedactLevel {
    Off,
    PrivateRepos,
    PrivateReposNoCrossLinking,
    Encrypted,
    Hashed,
}

impl Default for RedactLevel {
    fn default() -> (r: Self)
        ensures
            r == RedactLevel::PrivateRepos,
    {
        RedactLevel::PrivateRepos
    }
}

/// A configuration the run must reject before any network activity.
#[derive(Clone, Copy, Debug, PartialEq, Eq, Structural)]
pub enum ConfigError {
    /// The reserved `Encrypted` level was selected.
    EncryptedNotImplemented,
    /// A level code outside the known range was given.
    InvalidRedactLevel,
}

/// The numeric code a configuration file uses for each level.
pub open spec fn code_of_level(level: RedactLevel) -> u8 {
    match level {
        RedactLevel::Off => 0,
        RedactLevel::PrivateRepos => 1,
        RedactLevel::PrivateReposNoCrossLinking => 2,
        RedactLevel::Encrypted => 3,
        RedactLevel::Hashed => 4,
    }
}

/// The level a configuration file's numeric code selects; the code of the
/// reserved `Encrypted` level and codes out of range are rejected.
pub open spec fn level_from_code(code: u8) -> Result<RedactLevel, ConfigError> {
    if code == 0 {
        Ok(RedactLevel::Off)
    } else if code == 1 {
        Ok(RedactLevel::PrivateRepos)
    } else if code == 2 {
        Ok(RedactLevel::PrivateReposNoCrossLinking)
    } else if code == 3 {
        Err(ConfigError::EncryptedNotImplemented)
    } else if code == 4 {
        Ok(RedactLevel::Hashed)
    } else {
        Err(ConfigError::InvalidRedactLevel)
    }
}

impl RedactLevel {
    pub fn as_code(&self) -> (r: u8)
        ensures
            r == code_of_level(*self),
    {
        match self {
            RedactLevel::Off => 0,
            RedactLevel::PrivateRepos => 1,
            RedactLevel::PrivateReposNoCrossLinking => 2,
            RedactLevel::Encrypted => 3,
            RedactLevel::Hashed => 4,
        }
    }

    pub fn from_code(code: u8) -> (r: Result<RedactLevel, ConfigError>)
        ensures
            r == level_from_code(code),
    {
        if code == 0 {
            Ok(RedactLevel::Off)
        } else if code == 1 {
            Ok(RedactLevel::PrivateRepos)
        } else if code == 2 {
            Ok(RedactLevel::PrivateReposNoCrossLinking)
        } else if code == 3 {
            Err(ConfigError::EncryptedNotImplemented)
        } else if code == 4 {
            Ok(RedactLevel::Hashed)
        } else {
            Err(ConfigError::InvalidRedactLevel)
        }
    }
}

/// Every level other than the rejected `Encrypted` survives a round trip
/// through its configuration-file code.
pub proof fn lemma_level_code_round_trip(level: RedactLevel)
    ensures
        level != RedactLevel::Encrypted ==> level_from_code(code_of_level(level)) == Ok::<
            RedactLevel,
            ConfigError,
        >(level),
        level == RedactLevel::Encrypted ==> level_from_code(code_of_level(level)) == Err::<
            RedactLevel,
            ConfigError,
        >(ConfigError::EncryptedNotImplemented),
{
}

/// Credentials and policy for the destination forge.
#[derive(Debug)]
pub struct GitConfig {
    pub username: String,
    pub token: String,
    pub email: Option<String>,
    pub redact_level: RedactLevel,
    pub push_method: PushMethod,
}

impl Clone for GitConfig {
    fn clone(&self) -> (res: Self)
        ensures
            res == *self,
    {
        GitConfig {
            username: self.username.clone(),
            token: self.token.clone(),
            email: match &self.email {
                Some(e) => Some(e.clone()),
                None => None,
            },
            redact_level: self.redact_level,
            push_method: self.push_method,
        }
    }
}

/// The source forges a configuration may declare.
#[derive(Clone, Copy, Debug, PartialEq, Eq, Structural)]
pub enum ServiceType {
    Bitbucket,
    CGit,
    Codebase,
    Codeberg,
    Forgejo,
    Fossil,
    Gerrit,
    Gitblit,
    Gitbucket,
    Gitea,
    Gitlab,
    Gitolite,
    Gogs,
    Huly,
    Kallithea,
    Klaus,
    Launchpad,
    Leantime,
    Mindwendel,
    MinimalGitServer,
    Octobox,
    OneDev,
    OpenProject,
    Pagure,
    Phorge,
    Plane,
    ProjeQtOr,
    RGit,
    Redmine,
    ReviewBoard,
    RhodeCode,
    Rukovoditel,
    SCMManager,
    Smederee,
    Sourcehut,
    Taiga,
    Titra,
    Trac,
    Traq,
    Tuleap,
    UVDesk,
    ZenTao,
}

/// The adapter families the engine can drive today.
#[derive(Clone, Copy, Debug, PartialEq, Eq, Structural)]
pub enum AdapterKind {
    /// Gitea's activity-feed API, which Codeberg shares.
    GiteaCompatible,
}

/// Which adapter serves a declared service, if any does.
pub open spec fn adapter_of(service: ServiceType) -> Option<AdapterKind> {
    match service {
        ServiceType::Gitea => Some(AdapterKind::GiteaCompatible),
        ServiceType::Codeberg => Some(AdapterKind::GiteaCompatible),
        _ => None,
    }
}

impl ServiceType {
    /// The adapter family that serves this service; `None` marks a service
    /// declared in the configuration but not implemented yet, which the
    /// run rejects at startup.
    pub fn adapter_kind(&self) -> (r: Option<AdapterKind>)
        ensures
            r == adapter_of(*self),
    {
        match self {
            ServiceType::Gitea => Some(AdapterKind::GiteaCompatible),
            ServiceType::Codeberg => Some(AdapterKind::GiteaCompatible),
            _ => None,
        }
    }
}

/// One declared source service.
#[derive(Debug)]
pub struct ServiceConfig {
    pub service_type: ServiceType,
    pub username: String,
    pub url: String,
    pub token: String,
}

impl Clone for ServiceConfig {
    fn clone(&self) -> (res: Self)
        ensures
            res == *self,
    {
        ServiceConfig {
            service_type: self.service_type,
            username: self.username.clone(),
            url: self.url.clone(),
            token: self.token.clone(),
        }
    }
}

/// The whole run configuration.
#[derive(Debug)]
pub struct Config {
    pub services: Vec<ServiceConfig>,
    pub github: GitConfig,
}

} // verus!
