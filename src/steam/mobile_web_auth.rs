use vstd::prelude::*;

use crate::steam::steam_api::Session;
use crate::steam::token::TwoFactorSecret;

verus! {

/// A Steam Guard account as enrolled with Steam.
#[derive(Debug, Clone)]
pub struct SteamGuardAccount {
    pub account_name: String,
    pub serial_number: String,
    pub revocation_code: String,
    pub shared_secret: TwoFactorSecret,
    pub token_gid: String,
    pub identity_secret: String,
    pub server_time: u64,
    pub uri: String,
    pub fully_enrolled: bool,
    pub device_id: String,
    pub secret_1: String,
    pub session: Option<Session>,
}

} // verus!
