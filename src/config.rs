use vstd::prelude::*;

verus! {

/// Name of the project manifest file.
pub const MANIFEST_FILE_NAME: &'static str = "Nargo.toml";

/// Organisation identifiers used to locate the per-user cache directory.
pub const COMPANY_NAME: &'static str = "walnut";

pub const COMPANY_TLD: &'static str = "dev";

/// Base URL of the registry API.
pub const REGISTRY_URL: &'static str = "https://api.noir-libs.org/api/v1";

/// Base URL of the registry's web front end.
pub const REGISTRY_HOME_URL: &'static str = "https://noir-libs.org";

/// Folder, relative to the project, where packaged archives are produced.
pub const PACKAGING_OUTPUT_FOLDER_PATH: &'static str = "target/package";

/// Environment variable that holds the registry API key.
pub const API_KEY_ENV_VAR_NAME: &'static str = "API_KEY";

/// Configuration threaded through the components.
pub struct Settings {
    pub company_name: String,
    pub company_tld: String,
    pub repository_url: String,
}

/// The built-in configuration.
pub fn load_settings() -> (r: Settings)
    ensures
        r.company_name@ == COMPANY_NAME@,
        r.company_tld@ == COMPANY_TLD@,
        r.repository_url@ == REGISTRY_URL@,
{
    Settings {
        company_name: String::from_str(COMPANY_NAME),
        company_tld: String::from_str(COMPANY_TLD),
        repository_url: String::from_str(REGISTRY_URL),
    }
}

} // verus!
