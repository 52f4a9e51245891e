//! Process configuration validation.
//!
//! Three options are recognized: the ledger network address, the on-ledger
//! identity contract identifier, and the key-vault passphrase.  Any missing
//! one is a configuration failure at first use; the contract identifier must
//! additionally be non-empty (its full format is checked by the ledger
//! client).

use vstd::prelude::*;

use crate::errors::ErrorSpec;
use crate::errors::IdentityError;
use crate::errors::res_view;

verus! {

/// Mathematical abstraction of a validated [`Config`].
pub ghost struct ConfigSpec {
    pub api_endpoint: Seq<char>,
    pub package_id: Seq<char>,
    pub vault_password: Seq<char>,
}

/// Validated process configuration.
pub struct Config {
    pub api_endpoint: String,
    pub package_id: String,
    pub vault_password: String,
}

impl View for Config {
    type V = ConfigSpec;

    open spec fn view(&self) -> ConfigSpec {
        ConfigSpec {
            api_endpoint: self.api_endpoint@,
            package_id: self.package_id@,
            vault_password: self.vault_password@,
        }
    }
}

/// A configuration validates exactly when every option is present and the
/// contract identifier is non-empty.
pub open spec fn config_spec(
    api_endpoint: Option<Seq<char>>,
    package_id: Option<Seq<char>>,
    vault_password: Option<Seq<char>>,
) -> Result<ConfigSpec, ErrorSpec> {
    match (api_endpoint, package_id, vault_password) {
        (Some(a), Some(p), Some(w)) => if p.len() == 0 {
            Err(ErrorSpec::Config)
        } else {
            Ok(ConfigSpec { api_endpoint: a, package_id: p, vault_password: w })
        },
        _ => Err(ErrorSpec::Config),
    }
}

/// Validates the recognized options as read from the environment.
pub fn load_config(
    api_endpoint: Option<String>,
    package_id: Option<String>,
    vault_password: Option<String>,
) -> (r: Result<Config, IdentityError>)
    ensures
        res_view(r) == config_spec(
            api_endpoint.deep_view(),
            package_id.deep_view(),
            vault_password.deep_view(),
        ),
{
    match (api_endpoint, package_id, vault_password) {
        (Some(a), Some(p), Some(w)) => {
            if p.as_str().unicode_len() == 0 {
                Err(IdentityError::Config)
            } else {
                Ok(Config { api_endpoint: a, package_id: p, vault_password: w })
            }
        },
        _ => Err(IdentityError::Config),
    }
}

} // verus!
