//! Shared pieces of the command-line tools.
use vstd::prelude::*;
use crate::auth::AuthError;
use crate::db::DbError;

verus! {

/// Environment variable holding the database path.
pub const ENV_L0_PATH: &'static str = "AZ_L0_PATH";

/// Database path when none is configured.
pub const DEFAULT_L0_PATH: &'static str = "./data/l0.sqlite";

/// Errors of opening the stores from the command line.
#[derive(Debug)]
pub enum CliError {
    Auth(AuthError),
    Db(DbError),
}

/// The database path: the environment value when set, the default otherwise.
pub fn l0_path_or_default(env_value: Option<String>) -> (r: String)
    ensures
        match env_value {
            Some(v) => r == v,
            None => r@ == DEFAULT_L0_PATH@,
        },
{
    match env_value {
        Some(v) => v,
        None => String::from_str(DEFAULT_L0_PATH),
    }
}

} // verus!
