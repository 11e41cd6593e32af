use vstd::prelude::*;

verus! {

/// A logged in session with Steam.
#[derive(Debug, Clone)]
pub struct Session {
    pub session_id: String,
    pub steam_login: String,
    pub steam_login_secure: String,
    pub web_cookie: Option<String>,
    pub token: String,
    pub steam_id: u64,
}

/// The parameters of a login request.
#[derive(Debug, Clone)]
pub struct LoginParams {
    /// the account name
    pub username: String,
    /// the password, encrypted with the RSA key that Steam handed out
    pub encrypted_password: String,
    /// a two factor code, where Steam Guard is enabled
    pub two_factor_code: String,
    /// a code sent by email, where Steam asks for one
    pub email_code: String,
    /// the captcha id, where Steam asks for a captcha
    pub captcha_gid: String,
    /// the captcha text, where Steam asks for a captcha
    pub captcha_text: String,
    /// the timestamp of the RSA key used for the password
    pub rsa_timestamp: String,
}

} // verus!
