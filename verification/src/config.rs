//! What the pipeline is configured with, and the rules a configuration
//! must meet.

use vstd::prelude::*;
use crate::text::{all_whitespace, chars_of, is_blank, starts_with};

verus! {

/// Everything the pipeline needs to start: the completion service's key
/// and the datastore's connection values.
#[derive(Debug)]
pub struct Config {
    pub xai_api_key: String,
    pub surreal_config: SurrealConfig,
}

/// Connection values of the datastore as configured.
#[derive(Debug)]
pub struct SurrealConfig {
    pub host: String,
    pub username: String,
    pub password: String,
    pub namespace: String,
    pub database: String,
}

impl Clone for SurrealConfig {
    fn clone(&self) -> (copy: Self)
        ensures
            copy == *self,
    {
        Self {
            host: self.host.clone(),
            username: self.username.clone(),
            password: self.password.clone(),
            namespace: self.namespace.clone(),
            database: self.database.clone(),
        }
    }
}

impl Clone for Config {
    fn clone(&self) -> (copy: Self)
        ensures
            copy == *self,
    {
        Self { xai_api_key: self.xai_api_key.clone(), surreal_config: self.surreal_config.clone() }
    }
}

/// The variables that a configuration is read from, each as found in
/// the environment or absent.
#[derive(Debug)]
pub struct Environment {
    pub xai_api_key: Option<String>,
    pub surreal_host: Option<String>,
    pub surreal_username: Option<String>,
    pub surreal_password: Option<String>,
    pub surreal_namespace: Option<String>,
    pub surreal_database: Option<String>,
}

/// Why a configuration was refused.
#[derive(Debug)]
pub enum ConfigError {
    /// The variable of this name is not set.
    MissingEnvVar(&'static str),
    /// A variable is set to a value that cannot be used; the text says
    /// which and why.
    InvalidValue(&'static str),
}

/// The mathematical value of a [`ConfigError`].
pub enum ConfigFault {
    MissingEnvVar(Seq<char>),
    InvalidValue(Seq<char>),
}

impl View for ConfigError {
    type V = ConfigFault;

    open spec fn view(&self) -> ConfigFault {
        match self {
            ConfigError::MissingEnvVar(name) => ConfigFault::MissingEnvVar(name@),
            ConfigError::InvalidValue(reason) => ConfigFault::InvalidValue(reason@),
        }
    }
}

/// The message of a configuration fault.
pub open spec fn fault_message(fault: ConfigFault) -> Seq<char> {
    match fault {
        ConfigFault::MissingEnvVar(name) => "Missing environment variable: "@ + name,
        ConfigFault::InvalidValue(reason) => "Invalid configuration value: "@ + reason,
    }
}

/// The first fault of an environment, if it has one. The variables are
/// looked at in this order: the key must be set and begin with `xai-`;
/// host, user name, password, namespace and database must be set; host,
/// user name, password and database must hold more than white space.
pub open spec fn environment_fault(env: Environment) -> Option<ConfigFault> {
    if env.xai_api_key is None {
        Some(ConfigFault::MissingEnvVar("XAI_API_KEY"@))
    } else if !"xai-"@.is_prefix_of(env.xai_api_key->0@) {
        Some(ConfigFault::InvalidValue("XAI_API_KEY must start with 'xai-'"@))
    } else if env.surreal_host is None {
        Some(ConfigFault::MissingEnvVar("SURREAL_HOST"@))
    } else if env.surreal_username is None {
        Some(ConfigFault::MissingEnvVar("SURREAL_USERNAME"@))
    } else if env.surreal_password is None {
        Some(ConfigFault::MissingEnvVar("SURREAL_PASSWORD"@))
    } else if env.surreal_namespace is None {
        Some(ConfigFault::MissingEnvVar("SURREAL_NAMESPACE"@))
    } else if env.surreal_database is None {
        Some(ConfigFault::MissingEnvVar("SURREAL_DATABASE"@))
    } else if all_whitespace(env.surreal_host->0@) {
        Some(ConfigFault::InvalidValue("SURREAL_HOST cannot be empty"@))
    } else if all_whitespace(env.surreal_username->0@) {
        Some(ConfigFault::InvalidValue("SURREAL_USERNAME cannot be empty"@))
    } else if all_whitespace(env.surreal_password->0@) {
        Some(ConfigFault::InvalidValue("SURREAL_PASSWORD cannot be empty"@))
    } else if all_whitespace(env.surreal_database->0@) {
        Some(ConfigFault::InvalidValue("SURREAL_DATABASE cannot be empty"@))
    } else {
        None
    }
}

impl ConfigError {
    /// The message of this error.
    pub fn message(&self) -> (text: String)
        ensures
            text@ == fault_message(self@),
    {
        match self {
            ConfigError::MissingEnvVar(name) => {
                let mut text = "Missing environment variable: ".to_owned();
                text.append(name);
                text
            },
            ConfigError::InvalidValue(reason) => {
                let mut text = "Invalid configuration value: ".to_owned();
                text.append(reason);
                text
            },
        }
    }
}

impl Config {
    /// The configuration that an environment states, each value kept as
    /// found, or the first fault of the environment.
    pub fn from_env(env: Environment) -> (loaded: Result<Config, ConfigError>)
        ensures
            match loaded {
                Ok(config) => {
                    &&& environment_fault(env) is None
                    &&& config.xai_api_key@ == env.xai_api_key->0@
                    &&& config.surreal_config.host@ == env.surreal_host->0@
                    &&& config.surreal_config.username@ == env.surreal_username->0@
                    &&& config.surreal_config.password@ == env.surreal_password->0@
                    &&& config.surreal_config.namespace@ == env.surreal_namespace->0@
                    &&& config.surreal_config.database@ == env.surreal_database->0@
                },
                Err(error) => environment_fault(env) == Some(error@),
            },
    {
        let xai_api_key = match env.xai_api_key {
            Some(value) => value,
            None => {
                return Err(ConfigError::MissingEnvVar("XAI_API_KEY"));
            },
        };
        let key = chars_of(xai_api_key.as_str());
        let prefix = chars_of("xai-");
        if !starts_with(&key, &prefix) {
            return Err(ConfigError::InvalidValue("XAI_API_KEY must start with 'xai-'"));
        }
        let host = match env.surreal_host {
            Some(value) => value,
            None => {
                return Err(ConfigError::MissingEnvVar("SURREAL_HOST"));
            },
        };
        let username = match env.surreal_username {
            Some(value) => value,
            None => {
                return Err(ConfigError::MissingEnvVar("SURREAL_USERNAME"));
            },
        };
        let password = match env.surreal_password {
            Some(value) => value,
            None => {
                return Err(ConfigError::MissingEnvVar("SURREAL_PASSWORD"));
            },
        };
        let namespace = match env.surreal_namespace {
            Some(value) => value,
            None => {
                return Err(ConfigError::MissingEnvVar("SURREAL_NAMESPACE"));
            },
        };
        let database = match env.surreal_database {
            Some(value) => value,
            None => {
                return Err(ConfigError::MissingEnvVar("SURREAL_DATABASE"));
            },
        };
        if is_blank(host.as_str()) {
            return Err(ConfigError::InvalidValue("SURREAL_HOST cannot be empty"));
        }
        if is_blank(username.as_str()) {
            return Err(ConfigError::InvalidValue("SURREAL_USERNAME cannot be empty"));
        }
        if is_blank(password.as_str()) {
            return Err(ConfigError::InvalidValue("SURREAL_PASSWORD cannot be empty"));
        }
        if is_blank(database.as_str()) {
            return Err(ConfigError::InvalidValue("SURREAL_DATABASE cannot be empty"));
        }
        Ok(Config { xai_api_key, surreal_config: SurrealConfig { host, username, password, namespace, database } })
    }
}

} // verus!
