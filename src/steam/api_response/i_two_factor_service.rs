use vstd::prelude::*;
use vstd::utf8::encode_utf8;

use crate::codec::base64_decoding;
use crate::error::Error;
use crate::steam::mobile_web_auth::SteamGuardAccount;
use crate::steam::token::TwoFactorSecret;

verus! {

/// The answer of `/ITwoFactorService/QueryTime/v0001`.
#[derive(Debug, Clone)]
pub struct QueryTimeResponse {
    /// The time that the server will use to check a two factor code.
    pub server_time: u64,
    pub skew_tolerance_seconds: u64,
    pub large_time_jink: u64,
    pub probe_frequency_seconds: u64,
    pub adjusted_time_probe_frequency_seconds: u64,
    pub hint_probe_frequency_seconds: u64,
    pub sync_timeout: u64,
    pub try_again_seconds: u64,
    pub max_attempts: u64,
}

/// The answer to adding an authenticator to an account.
#[derive(Debug, Clone)]
pub struct AddAuthenticatorResponse {
    /// shared secret between server and authenticator, in base64
    pub shared_secret: String,
    /// authenticator serial number
    pub serial_number: String,
    /// code used to revoke the authenticator
    pub revocation_code: String,
    /// URI for QR code generation
    pub uri: String,
    /// current server time
    pub server_time: u64,
    /// account name to display on the token client
    pub account_name: String,
    /// token GID assigned by the server
    pub token_gid: String,
    /// secret used for identity attestation
    pub identity_secret: String,
    /// spare shared secret
    pub secret_1: String,
    /// result code
    pub status: i32,
    pub phone_number_hint: Option<String>,
}

impl AddAuthenticatorResponse {
    /// The account that the response describes: not yet fully enrolled, with
    /// no device and no session.  A shared secret that is not base64 of
    /// exactly 20 bytes gives `InvalidKey`.
    pub fn to_steam_guard_account(&self) -> (r: Result<SteamGuardAccount, Error>)
        ensures
            match base64_decoding(encode_utf8(self.shared_secret@)) {
                Some(b) => if self.shared_secret@.len() > 0 && b.len() == 20 {
                    r matches Ok(a) && a.shared_secret.0@ == b && a.serial_number
                        == self.serial_number && a.revocation_code == self.revocation_code && a.uri
                        == self.uri && a.server_time == self.server_time && a.account_name
                        == self.account_name && a.token_gid == self.token_gid && a.identity_secret
                        == self.identity_secret && a.secret_1 == self.secret_1 && !a.fully_enrolled
                        && a.device_id@.len() == 0 && a.session is None
                } else {
                    r == Err::<SteamGuardAccount, Error>(Error::InvalidKey)
                },
                None => r == Err::<SteamGuardAccount, Error>(Error::InvalidKey),
            },
    {
        let shared_secret = match TwoFactorSecret::parse_shared_secret(self.shared_secret.clone()) {
            Ok(t) => t,
            Err(e) => return Err(e),
        };
        Ok(
            SteamGuardAccount {
                shared_secret,
                serial_number: self.serial_number.clone(),
                revocation_code: self.revocation_code.clone(),
                uri: self.uri.clone(),
                server_time: self.server_time,
                account_name: self.account_name.clone(),
                token_gid: self.token_gid.clone(),
                identity_secret: self.identity_secret.clone(),
                secret_1: self.secret_1.clone(),
                fully_enrolled: false,
                device_id: String::new(),
                session: None,
            },
        )
    }
}

/// The answer to finalizing the addition of an authenticator.
#[derive(Debug, Clone)]
pub struct FinalizeAddAuthenticatorResponse {
    pub status: i32,
    pub server_time: u64,
    pub want_more: bool,
    pub success: bool,
}

/// The answer to removing an authenticator.
#[derive(Debug, Clone)]
pub struct RemoveAuthenticatorResponse {
    pub success: bool,
}

} // verus!
