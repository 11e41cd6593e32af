use vstd::prelude::*;

verus! {

/// The fields of a Steam Guard authenticator file (a `.maFile`).
#[derive(Debug, Clone)]
pub struct MaFile {
    pub account_name: String,
    pub device_id: String,
    pub identity_secret: String,
    pub revocation_code: String,
    pub secret_1: String,
    pub serial_number: u64,
    pub server_time: u64,
    /// the base64 shared secret
    pub shared_secret: String,
    pub status: u64,
    pub token_gid: String,
    pub uri: String,
}

} // verus!
