use vstd::prelude::*;

verus! {

/// The parameters of a login transfer.
#[derive(Debug, Clone)]
pub struct LoginTransferParameters {
    pub steamid: String,
    pub token_secure: String,
    pub auth: String,
    pub remember_login: bool,
    pub webcookie: String,
}

/// The OAuth data of a completed login.
#[derive(Debug, Clone)]
pub struct OAuthData {
    pub oauth_token: String,
    pub steamid: String,
    pub wgtoken: String,
    pub wgtoken_secure: String,
    pub webcookie: String,
}

/// The RSA key with which a login password is encrypted.
#[derive(Debug, Clone)]
pub struct RsaResponse {
    pub success: bool,
    pub public_key_exp: String,
    pub public_key_mod: String,
    pub timestamp: String,
    pub token_gid: String,
}

/// The answer to a login attempt.
#[derive(Debug, Clone)]
pub struct LoginResponse {
    pub success: bool,
    pub login_complete: bool,
    pub captcha_needed: bool,
    pub captcha_gid: String,
    pub email_steam_id: u64,
    pub email_auth_needed: bool,
    pub requires_two_factor: bool,
    pub message: String,
    pub oauth: Option<OAuthData>,
    pub transfer_urls: Option<Vec<String>>,
    pub transfer_parameters: Option<LoginTransferParameters>,
}

impl LoginResponse {
    /// Whether the login must be transferred: transfer URLs or transfer
    /// parameters are present.
    pub fn needs_transfer_login(&self) -> (r: bool)
        ensures
            r == (self.transfer_urls is Some || self.transfer_parameters is Some),
    {
        self.transfer_urls.is_some() || self.transfer_parameters.is_some()
    }
}

} // verus!
