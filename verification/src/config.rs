use vstd::prelude::*;
use crate::error::Error;

verus! {

/// Process configuration, loaded once at start. The embedding process reads
/// the environment and hands the raw values to [`config`]; the `WEB_FOLDER`
/// is fixed to the bundled static-asset directory.
#[allow(non_snake_case)]
#[derive(Debug)]
pub struct Config {
    pub HELIUS_API_KEY: String,
    pub WEB_FOLDER: String,
    pub WEBHOOK_ID: Option<String>,
    pub DB_URL: String,
}

/// Builds the configuration from the raw environment values, reporting the
/// first missing required variable by name.
pub fn init_config(
    helius_api_key: Option<String>,
    webhook_id: Option<String>,
    db_url: Option<String>,
) -> (r: Result<Config, Error>)
    ensures
        helius_api_key is None ==> (r matches Err(Error::ConfigEnvMissing(n))
            && n@ == "SERVICE_HELIUS_API_KEY"@),
        helius_api_key is Some && db_url is None ==> (r matches Err(Error::ConfigEnvMissing(n))
            && n@ == "SERVICE_DB_URL"@),
        helius_api_key is Some && db_url is Some ==> (r matches Ok(c) && {
            &&& c.HELIUS_API_KEY == helius_api_key.unwrap()
            &&& c.WEB_FOLDER@ == "public"@
            &&& c.WEBHOOK_ID == webhook_id
            &&& c.DB_URL == db_url.unwrap()
        }),
{
    let api_key = match helius_api_key {
        Some(v) => v,
        None => {
            return Err(Error::ConfigEnvMissing("SERVICE_HELIUS_API_KEY"));
        },
    };
    let db = match db_url {
        Some(v) => v,
        None => {
            return Err(Error::ConfigEnvMissing("SERVICE_DB_URL"));
        },
    };
    Ok(Config {
        HELIUS_API_KEY: api_key,
        WEB_FOLDER: "public".to_owned(),
        WEBHOOK_ID: webhook_id,
        DB_URL: db,
    })
}

/// Entry point used by the process bootstrap: same contract as
/// [`init_config`]. Caching the built value for the process lifetime is the
/// embedding process's concern.
pub fn config(
    helius_api_key: Option<String>,
    webhook_id: Option<String>,
    db_url: Option<String>,
) -> (r: Result<Config, Error>)
    ensures
        helius_api_key is None ==> (r matches Err(Error::ConfigEnvMissing(n))
            && n@ == "SERVICE_HELIUS_API_KEY"@),
        helius_api_key is Some && db_url is None ==> (r matches Err(Error::ConfigEnvMissing(n))
            && n@ == "SERVICE_DB_URL"@),
        helius_api_key is Some && db_url is Some ==> (r matches Ok(c) && {
            &&& c.HELIUS_API_KEY == helius_api_key.unwrap()
            &&& c.WEB_FOLDER@ == "public"@
            &&& c.WEBHOOK_ID == webhook_id
            &&& c.DB_URL == db_url.unwrap()
        }),
{
    init_config(helius_api_key, webhook_id, db_url)
}

} // verus!
