use vstd::prelude::*;

use hmac::{Hmac, Mac};

use crate::error::Error;
use crate::text::lower;
use crate::text::lower_equals;

verus! {

/// The keyed hash of an HMAC-SHA1 computation over a key and a message.
pub uninterp spec fn hmac_sha1_of(key: Seq<u8>, message: Seq<u8>) -> Seq<u8>;

/// The keyed hash of an HMAC-SHA256 computation over a key and a message.
pub uninterp spec fn hmac_sha256_of(key: Seq<u8>, message: Seq<u8>) -> Seq<u8>;

/// The keyed hash of an HMAC-SHA512 computation over a key and a message.
pub uninterp spec fn hmac_sha512_of(key: Seq<u8>, message: Seq<u8>) -> Seq<u8>;

/// Relies on `hmac::Hmac::<sha1::Sha1>`: `new_from_slice` accepts a key of any
/// length (the key is hashed or padded to one block), and the finalized tag
/// has the 20 bytes of a SHA-1 output.
#[verifier::external_body]
fn mac_sha1(key: &[u8], message: &[u8]) -> (r: Option<Vec<u8>>)
    ensures
        r is Some,
        r matches Some(d) ==> d@ == hmac_sha1_of(key@, message@) && d@.len() == 20,
{
    match Hmac::<sha1::Sha1>::new_from_slice(key) {
        Ok(mut mac) => {
            mac.update(message);
            Some(mac.finalize().into_bytes().to_vec())
        },
        Err(_) => None,
    }
}

/// Relies on `hmac::Hmac::<sha2::Sha256>`: `new_from_slice` accepts a key of
/// any length, and the finalized tag has the 32 bytes of a SHA-256 output.
#[verifier::external_body]
fn mac_sha256(key: &[u8], message: &[u8]) -> (r: Option<Vec<u8>>)
    ensures
        r is Some,
        r matches Some(d) ==> d@ == hmac_sha256_of(key@, message@) && d@.len() == 32,
{
    match Hmac::<sha2::Sha256>::new_from_slice(key) {
        Ok(mut mac) => {
            mac.update(message);
            Some(mac.finalize().into_bytes().to_vec())
        },
        Err(_) => None,
    }
}

/// Relies on `hmac::Hmac::<sha2::Sha512>`: `new_from_slice` accepts a key of
/// any length, and the finalized tag has the 64 bytes of a SHA-512 output.
#[verifier::external_body]
fn mac_sha512(key: &[u8], message: &[u8]) -> (r: Option<Vec<u8>>)
    ensures
        r is Some,
        r matches Some(d) ==> d@ == hmac_sha512_of(key@, message@) && d@.len() == 64,
{
    match Hmac::<sha2::Sha512>::new_from_slice(key) {
        Ok(mut mac) => {
            mac.update(message);
            Some(mac.finalize().into_bytes().to_vec())
        },
        Err(_) => None,
    }
}

/// The hash function underneath the HMAC construction.
/// SHA1 is the default, SHA256 the recommended and SHA512 the strongest.
#[derive(Debug, Clone, Copy, PartialEq, Eq, Hash, Structural)]
pub enum HMACType {
    SHA1,
    SHA256,
    SHA512,
}

impl Default for HMACType {
    fn default() -> (r: HMACType)
        ensures
            r == HMACType::SHA1,
    {
        HMACType::SHA1
    }
}

impl HMACType {
    /// The lower case name of the hash function.
    pub open spec fn digest_name(self) -> Seq<char> {
        match self {
            HMACType::SHA1 => "sha1"@,
            HMACType::SHA256 => "sha256"@,
            HMACType::SHA512 => "sha512"@,
        }
    }

    /// The upper case name of the hash function, as written in a provisioning URI.
    pub open spec fn uri_name(self) -> Seq<char> {
        match self {
            HMACType::SHA1 => "SHA1"@,
            HMACType::SHA256 => "SHA256"@,
            HMACType::SHA512 => "SHA512"@,
        }
    }

    /// The hash function named by `s`, compared without regard to ASCII case;
    /// any other text names the default, SHA1.
    pub open spec fn named(s: Seq<char>) -> HMACType {
        if lower(s) == "sha256"@ {
            HMACType::SHA256
        } else if lower(s) == "sha512"@ {
            HMACType::SHA512
        } else {
            HMACType::SHA1
        }
    }

    /// The length in bytes of the digest.
    pub open spec fn digest_len(self) -> nat {
        match self {
            HMACType::SHA1 => 20,
            HMACType::SHA256 => 32,
            HMACType::SHA512 => 64,
        }
    }

    /// The HMAC of `message` under `key` with this hash function.
    pub open spec fn hmac(self, key: Seq<u8>, message: Seq<u8>) -> Seq<u8> {
        match self {
            HMACType::SHA1 => hmac_sha1_of(key, message),
            HMACType::SHA256 => hmac_sha256_of(key, message),
            HMACType::SHA512 => hmac_sha512_of(key, message),
        }
    }

    /// The lower case name of the hash function.
    pub fn get_digest_name(&self) -> (r: &'static str)
        ensures
            r@ == self.digest_name(),
    {
        match self {
            HMACType::SHA1 => "sha1",
            HMACType::SHA256 => "sha256",
            HMACType::SHA512 => "sha512",
        }
    }

    /// The upper case name of the hash function, as written in a provisioning URI.
    pub fn get_uri_name(&self) -> (r: &'static str)
        ensures
            r@ == self.uri_name(),
    {
        match self {
            HMACType::SHA1 => "SHA1",
            HMACType::SHA256 => "SHA256",
            HMACType::SHA512 => "SHA512",
        }
    }

    /// Reads a hash function name without regard to ASCII case; unknown names
    /// give the default, SHA1.
    pub fn from_name(s: &str) -> (r: HMACType)
        ensures
            r == HMACType::named(s@),
    {
        if lower_equals(s, "sha256") {
            HMACType::SHA256
        } else if lower_equals(s, "sha512") {
            HMACType::SHA512
        } else {
            HMACType::SHA1
        }
    }

    /// The HMAC of `s` under `key` with this hash function.  HMAC takes keys
    /// of any length, so the result is always `Ok`; `InvalidKey` would report
    /// a key that the construction refused.
    pub fn get_hash(&self, key: &[u8], s: &[u8]) -> (r: Result<Vec<u8>, Error>)
        ensures
            r matches Ok(d) && d@ == self.hmac(key@, s@) && d@.len() == self.digest_len(),
    {
        let res = match self {
            HMACType::SHA1 => mac_sha1(key, s),
            HMACType::SHA256 => mac_sha256(key, s),
            HMACType::SHA512 => mac_sha512(key, s),
        };
        match res {
            Some(d) => Ok(d),
            None => Err(Error::InvalidKey),
        }
    }
}

} // verus!
