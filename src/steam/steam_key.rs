use vstd::prelude::*;
use vstd::utf8::encode_utf8;

use crate::codec::{base32_decoding, base32_encoding, base64_decoding, base64_encoding};
use crate::hmac_type::HMACType;
use crate::uri::{uri_text, UriFields, URI};
use crate::OptAuthKey;
use crate::error::Error;
use crate::otp::unix_time_now;
use crate::steam::mafile::MaFile;
use crate::steam::token::{steam_code, TwoFactorSecret};
use crate::{code_view, Key, KeyType};

verus! {

/// A Steam Guard key: the decoded shared secret beside the authenticator
/// file it came from.
pub struct SteamKey {
    pub token: TwoFactorSecret,
    pub mafile: MaFile,
}

impl SteamKey {
    /// The outcome of a code request at Unix time `now`: a clock before the
    /// epoch gives `ClockBeforeEpoch`.
    pub open spec fn code_at(self, now: i64) -> Result<Seq<char>, Error> {
        if now < 0 {
            Err(Error::ClockBeforeEpoch)
        } else {
            Ok(steam_code(self.token.0@, now as u64))
        }
    }

    /// A key from an authenticator file; a shared secret that is not base64
    /// of exactly 20 bytes gives `InvalidKey`.
    pub fn from_mafile(mafile: MaFile) -> (r: Result<Self, Error>)
        ensures
            match base64_decoding(encode_utf8(mafile.shared_secret@)) {
                Some(b) => if mafile.shared_secret@.len() > 0 && b.len() == 20 {
                    r matches Ok(k) && k.token.0@ == b && k.mafile == mafile
                } else {
                    r == Err::<Self, Error>(Error::InvalidKey)
                },
                None => r == Err::<Self, Error>(Error::InvalidKey),
            },
    {
        let token = match TwoFactorSecret::parse_shared_secret(mafile.shared_secret.clone()) {
            Ok(t) => t,
            Err(e) => return Err(e),
        };
        Ok(SteamKey { token, mafile })
    }

    /// The outcome of a code request at Unix time `now`, in seconds: a time
    /// before the epoch gives `ClockBeforeEpoch`, any other time its code.
    pub fn get_code_at_time(&self, now: i64) -> (r: Result<String, Error>)
        ensures
            code_view(r) == self.code_at(now),
    {
        if now < 0 {
            Err(Error::ClockBeforeEpoch)
        } else {
            Ok(self.token.generate_code(now as u64))
        }
    }

    /// The code at Unix time `time`, in seconds.
    pub fn get_code_at(&self, time: u64) -> (r: String)
        ensures
            r@ == steam_code(self.token.0@, time),
    {
        self.token.generate_code(time)
    }
}

/// The error, if any, of building a Steam key from URI fields: the secret
/// must be base32 text of exactly 20 bytes.
pub open spec fn steam_fields_error(u: UriFields) -> Option<Error> {
    match base32_decoding(encode_utf8(u.secret)) {
        Some(b) => if u.secret.len() > 0 && b.len() == 20 {
            None
        } else {
            Some(Error::InvalidKey)
        },
        None => Some(Error::InvalidKey),
    }
}

impl SteamKey {
    /// The fields of the provisioning URI of the key: the secret in base32,
    /// the issuer `Steam`, five symbols every 30 seconds.
    pub open spec fn uri_fields(self) -> UriFields {
        UriFields {
            name: self.mafile.account_name@,
            key_type: KeyType::Steam,
            secret: base32_encoding(self.token.0@),
            algorithm: HMACType::SHA1,
            digits: 5,
            counter: None,
            period: Some(30),
            issuer: Some("Steam"@),
        }
    }

    /// Whether the key is the one built from URI fields `u`: the secret is
    /// the base32 decoding of the URI's, the file holds the account name, the
    /// secret in base64 and the URI text, and is otherwise empty.
    pub open spec fn made_from(self, u: UriFields) -> bool {
        &&& base32_decoding(encode_utf8(u.secret)) == Some(self.token.0@)
        &&& self.mafile.account_name@ == u.name
        &&& self.mafile.shared_secret@ == base64_encoding(self.token.0@)
        &&& self.mafile.uri@ == uri_text(u)
        &&& self.mafile.device_id@.len() == 0
        &&& self.mafile.identity_secret@.len() == 0
        &&& self.mafile.revocation_code@.len() == 0
        &&& self.mafile.secret_1@.len() == 0
        &&& self.mafile.serial_number == 0
        &&& self.mafile.server_time == 0
        &&& self.mafile.status == 0
        &&& self.mafile.token_gid@.len() == 0
    }
}

impl OptAuthKey for SteamKey {
    fn to_uri_struct(&self) -> (r: URI)
        ensures
            r@ == self.uri_fields(),
    {
        URI {
            name: self.mafile.account_name.clone(),
            key_type: KeyType::Steam,
            secret: self.token.to_base32(),
            algorithm: HMACType::SHA1,
            digits: 5,
            counter: None,
            period: Some(30),
            issuer: Some(String::from_str("Steam")),
        }
    }

    fn get_uri(&self) -> (r: String)
        ensures
            r@ == uri_text(self.uri_fields()),
    {
        self.to_uri_struct().to_uri_string()
    }

    fn get_issuer(&self) -> (r: Option<&str>)
        ensures
            r matches Some(s) && s@ == "Steam"@,
    {
        Some("Steam")
    }

    fn from_uri_struct(uri: &URI) -> (r: Result<Self, Error>)
        ensures
            match steam_fields_error(uri@) {
                Some(e) => r == Err::<Self, Error>(e),
                None => r matches Ok(k) && k.made_from(uri@),
            },
    {
        let token = match TwoFactorSecret::from_base32(uri.secret.clone()) {
            Ok(t) => t,
            Err(e) => return Err(e),
        };
        let mafile = MaFile {
            account_name: uri.name.clone(),
            device_id: String::new(),
            identity_secret: String::new(),
            revocation_code: String::new(),
            secret_1: String::new(),
            serial_number: 0,
            server_time: 0,
            shared_secret: token.to_shared_secret(),
            status: 0,
            token_gid: String::new(),
            uri: uri.to_uri_string(),
        };
        Ok(SteamKey { token, mafile })
    }
}

impl Key for SteamKey {
    fn get_code(&mut self) -> (r: Result<String, Error>)
        ensures
            *final(self) == *old(self),
            exists|now: i64| code_view(r) == #[trigger] old(self).code_at(now),
    {
        let now = unix_time_now();
        let r = self.get_code_at_time(now);
        assert(code_view(r) == self.code_at(now));
        r
    }

    fn get_name(&self) -> (r: &str)
        ensures
            r@ == self.mafile.account_name@,
    {
        self.mafile.account_name.as_str()
    }

    fn get_recovery_codes(&self) -> (r: Vec<String>)
        ensures
            r@ == seq![self.mafile.revocation_code],
    {
        let code = self.mafile.revocation_code.clone();
        let r = vec![code];
        assert(r@ =~= seq![self.mafile.revocation_code]);
        r
    }

    fn get_type(&self) -> (r: KeyType)
        ensures
            r == KeyType::Steam,
    {
        KeyType::Steam
    }

    fn set_name(&mut self, name: &str)
        ensures
            final(self).token == old(self).token,
            final(self).mafile == (MaFile { account_name: final(self).mafile.account_name, ..old(self).mafile }),
            final(self).mafile.account_name@ == name@,
    {
        self.mafile.account_name = String::from_str(name);
    }

    /// Only one recovery code is kept: the first one given; an empty list
    /// changes nothing.
    fn set_recovery_codes(&mut self, recovery_codes: Vec<String>)
        ensures
            recovery_codes@.len() == 0 ==> *final(self) == *old(self),
            recovery_codes@.len() > 0 ==> final(self).token == old(self).token
                && final(self).mafile == (MaFile {
                revocation_code: recovery_codes@[0],
                ..old(self).mafile
            }),
    {
        if recovery_codes.len() == 0 {
            return;
        }
        self.mafile.revocation_code = recovery_codes[0].clone();
    }
}

} // verus!
