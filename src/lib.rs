//! One-time password keys: counter based (HOTP, RFC 4226), time based (TOTP,
//! RFC 6238) and Steam Guard, with the `otpauth://` provisioning URI codec.
use vstd::prelude::*;

pub mod codec;
pub mod decimal;
pub mod error;
pub mod hmac_type;
pub mod hotp;
pub mod otp;
pub mod round_trip;
pub mod steam;
pub mod text;
pub mod totp;
pub mod uri;

pub use error::Error;
pub use hmac_type::HMACType;
pub use hotp::HOTPKey;
pub use totp::TOTPKey;
pub use steam::SteamKey;
pub use uri::URI;

verus! {

/// The variant of a key: HOTP is counter based, TOTP is time based, Steam is
/// the Steam Guard variant of TOTP.
#[derive(Debug, Clone, Copy, PartialEq, Eq, Hash, Structural)]
pub enum KeyType {
    HOTP,
    TOTP,
    Steam,
}

impl Default for KeyType {
    fn default() -> (r: KeyType)
        ensures
            r == KeyType::TOTP,
    {
        KeyType::TOTP
    }
}

impl KeyType {
    /// The lower case name of the variant, as written in a provisioning URI.
    pub open spec fn name(self) -> Seq<char> {
        match self {
            KeyType::HOTP => "hotp"@,
            KeyType::TOTP => "totp"@,
            KeyType::Steam => "steam"@,
        }
    }

    /// The variant named by `s` without regard to ASCII case; any other text
    /// names the default, TOTP.
    pub open spec fn named(s: Seq<char>) -> KeyType {
        if text::lower(s) == "hotp"@ {
            KeyType::HOTP
        } else if text::lower(s) == "steam"@ {
            KeyType::Steam
        } else {
            KeyType::TOTP
        }
    }

    /// The lower case name of the variant.
    pub fn to_str(&self) -> (r: &'static str)
        ensures
            r@ == self.name(),
    {
        match self {
            KeyType::HOTP => "hotp",
            KeyType::TOTP => "totp",
            KeyType::Steam => "steam",
        }
    }

    /// Reads a variant name without regard to ASCII case; unknown names give
    /// the default, TOTP.
    pub fn from_name(s: &str) -> (r: KeyType)
        ensures
            r == KeyType::named(s@),
    {
        if text::lower_equals(s, "hotp") {
            KeyType::HOTP
        } else if text::lower_equals(s, "steam") {
            KeyType::Steam
        } else {
            KeyType::TOTP
        }
    }
}

/// What a code request returns, with the code as its characters.
pub open spec fn code_view(r: Result<String, Error>) -> Result<Seq<char>, Error> {
    match r {
        Ok(s) => Ok(s@),
        Err(e) => Err(e),
    }
}

/// The capabilities shared by every key variant.
pub trait Key {
    /// Produces the current code.  A counter based key advances its counter.
    fn get_code(&mut self) -> Result<String, Error>;

    /// The display name of the key.
    fn get_name(&self) -> &str;

    /// The recovery codes of the key.
    fn get_recovery_codes(&self) -> Vec<String>;

    /// The variant of the key.
    fn get_type(&self) -> KeyType;

    /// Replaces the display name.
    fn set_name(&mut self, name: &str);

    /// Replaces the recovery codes.
    fn set_recovery_codes(&mut self, recovery_codes: Vec<String>);
}

/// Conversion between a key and the fields of its provisioning URI.
pub trait OptAuthKey: Sized {
    /// The fields of the provisioning URI of the key.
    fn to_uri_struct(&self) -> URI;

    /// The provisioning URI text of the key.
    fn get_uri(&self) -> String;

    /// The issuer, if any.
    fn get_issuer(&self) -> Option<&str>;

    /// A key from the fields of a provisioning URI, missing values taking
    /// their defaults.
    fn from_uri_struct(uri: &URI) -> Result<Self, Error>;
}

/// A key of any variant.
pub enum AuthKey {
    HOTP(HOTPKey),
    TOTP(TOTPKey),
    Steam(SteamKey),
}

impl Key for AuthKey {
    fn get_code(&mut self) -> (r: Result<String, Error>)
        ensures
            match *old(self) {
                AuthKey::HOTP(k) => *final(self) == AuthKey::HOTP(k.code_step().0) && code_view(r)
                    == k.code_step().1,
                AuthKey::TOTP(k) => *final(self) == *old(self) && exists|now: i64|
                    code_view(r) == #[trigger] k.code_at(now),
                AuthKey::Steam(k) => *final(self) == *old(self) && exists|now: i64|
                    code_view(r) == #[trigger] k.code_at(now),
            },
    {
        match self {
            AuthKey::HOTP(k) => k.get_code(),
            AuthKey::TOTP(k) => k.get_code(),
            AuthKey::Steam(k) => k.get_code(),
        }
    }

    fn get_name(&self) -> (r: &str)
        ensures
            r@ == match self {
                AuthKey::HOTP(k) => k.name@,
                AuthKey::TOTP(k) => k.name@,
                AuthKey::Steam(k) => k.mafile.account_name@,
            },
    {
        match self {
            AuthKey::HOTP(k) => k.get_name(),
            AuthKey::TOTP(k) => k.get_name(),
            AuthKey::Steam(k) => k.get_name(),
        }
    }

    fn get_recovery_codes(&self) -> (r: Vec<String>)
        ensures
            r@ == match self {
                AuthKey::HOTP(k) => k.recovery_codes@,
                AuthKey::TOTP(k) => k.recovery_codes@,
                AuthKey::Steam(k) => seq![k.mafile.revocation_code],
            },
    {
        match self {
            AuthKey::HOTP(k) => k.get_recovery_codes(),
            AuthKey::TOTP(k) => k.get_recovery_codes(),
            AuthKey::Steam(k) => k.get_recovery_codes(),
        }
    }

    fn get_type(&self) -> (r: KeyType)
        ensures
            r == match self {
                AuthKey::HOTP(_) => KeyType::HOTP,
                AuthKey::TOTP(_) => KeyType::TOTP,
                AuthKey::Steam(_) => KeyType::Steam,
            },
    {
        match self {
            AuthKey::HOTP(k) => k.get_type(),
            AuthKey::TOTP(k) => k.get_type(),
            AuthKey::Steam(k) => k.get_type(),
        }
    }

    fn set_name(&mut self, name: &str)
        ensures
            match (*old(self), *final(self)) {
                (AuthKey::HOTP(a), AuthKey::HOTP(b)) => b == (HOTPKey { name: b.name, ..a })
                    && b.name@ == name@,
                (AuthKey::TOTP(a), AuthKey::TOTP(b)) => b == (TOTPKey { name: b.name, ..a })
                    && b.name@ == name@,
                (AuthKey::Steam(a), AuthKey::Steam(b)) => b.token == a.token && b.mafile == (
                steam::MaFile { account_name: b.mafile.account_name, ..a.mafile })
                    && b.mafile.account_name@ == name@,
                _ => false,
            },
    {
        match self {
            AuthKey::HOTP(k) => k.set_name(name),
            AuthKey::TOTP(k) => k.set_name(name),
            AuthKey::Steam(k) => k.set_name(name),
        }
    }

    fn set_recovery_codes(&mut self, recovery_codes: Vec<String>)
        ensures
            match (*old(self), *final(self)) {
                (AuthKey::HOTP(a), AuthKey::HOTP(b)) => b == (HOTPKey { recovery_codes, ..a }),
                (AuthKey::TOTP(a), AuthKey::TOTP(b)) => b == (TOTPKey { recovery_codes, ..a }),
                (AuthKey::Steam(a), AuthKey::Steam(b)) => if recovery_codes@.len() == 0 {
                    b == a
                } else {
                    b.token == a.token && b.mafile == (steam::MaFile {
                        revocation_code: recovery_codes@[0],
                        ..a.mafile
                    })
                },
                _ => false,
            },
    {
        match self {
            AuthKey::HOTP(k) => k.set_recovery_codes(recovery_codes),
            AuthKey::TOTP(k) => k.set_recovery_codes(recovery_codes),
            AuthKey::Steam(k) => k.set_recovery_codes(recovery_codes),
        }
    }
}

/// What a key built from the fields of a provisioning URI is: the key of the
/// variant that the fields name, built by that variant's `from_uri_struct`.
pub open spec fn key_from_fields(k: AuthKey, u: uri::UriFields) -> bool {
    match k {
        AuthKey::HOTP(h) => u.key_type == KeyType::HOTP && h.made_from(u),
        AuthKey::TOTP(t) => u.key_type == KeyType::TOTP && t.made_from(u),
        AuthKey::Steam(s) => u.key_type == KeyType::Steam && s.made_from(u),
    }
}

/// The error, if any, of building a key from the fields of a provisioning URI.
pub open spec fn fields_error(u: uri::UriFields) -> Option<Error> {
    match u.key_type {
        KeyType::HOTP => hotp::hotp_fields_error(u),
        KeyType::TOTP => totp::totp_fields_error(u),
        KeyType::Steam => steam::steam_key::steam_fields_error(u),
    }
}

/// A key from a provisioning URI text: the text is read as `URI::from_text`
/// reads it, and the key of the variant it names is built from the fields.
pub fn otpauth_from_uri(uri: &str) -> (r: Result<AuthKey, Error>)
    ensures
        match fields_error(uri::parse_uri(uri@)) {
            Some(e) => r == Err::<AuthKey, Error>(e),
            None => r matches Ok(k) && key_from_fields(k, uri::parse_uri(uri@)),
        },
{
    let uri_struct = URI::from_text(uri);
    match uri_struct.key_type {
        KeyType::HOTP => match HOTPKey::from_uri_struct(&uri_struct) {
            Ok(k) => Ok(AuthKey::HOTP(k)),
            Err(e) => Err(e),
        },
        KeyType::TOTP => match TOTPKey::from_uri_struct(&uri_struct) {
            Ok(k) => Ok(AuthKey::TOTP(k)),
            Err(e) => Err(e),
        },
        KeyType::Steam => match SteamKey::from_uri_struct(&uri_struct) {
            Ok(k) => Ok(AuthKey::Steam(k)),
            Err(e) => Err(e),
        },
    }
}

} // verus!
