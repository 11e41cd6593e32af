use vstd::prelude::*;
use vstd::utf8::encode_utf8;

use crate::codec::{base32_decoding, base32_symbol, decode_base32};
use crate::error::Error;
use crate::hmac_type::HMACType;
use crate::otp::{build_counter_bytes, code_from_digest, counter_bytes, otp_code};
use crate::uri::{UriFields, URI};
use crate::{code_view, Key, KeyType, OptAuthKey};

verus! {

/// Whether a digit count is supported: 6, 7 or 8.
pub open spec fn valid_digits(d: u8) -> bool {
    6 <= d && d <= 8
}

/// What a base32 secret text decodes to, read as its UTF-8 bytes.
pub open spec fn secret_bytes(key: Seq<char>) -> Option<Seq<u8>> {
    base32_decoding(encode_utf8(key))
}

/// Whether the UTF-8 bytes of a text hold a byte outside the base32
/// alphabet and its padding.
pub open spec fn has_non_base32_byte(key: Seq<char>) -> bool {
    exists|i: int|
        0 <= i < encode_utf8(key).len() && !base32_symbol(#[trigger] encode_utf8(key)[i])
}

/// Decodes a base32 secret text.
pub(crate) fn decode_secret(key: &String) -> (r: Result<Vec<u8>, Error>)
    ensures
        match secret_bytes(key@) {
            Some(k) => r matches Ok(v) && v@ == k,
            None => r == Err::<Vec<u8>, Error>(Error::InvalidKey),
        },
        has_non_base32_byte(key@) ==> r == Err::<Vec<u8>, Error>(Error::InvalidKey),
{
    match decode_base32(key.as_str().as_bytes()) {
        Some(v) => Ok(v),
        None => Err(Error::InvalidKey),
    }
}

/// A counter based key.  Each code request advances the counter by one and
/// then authenticates the new counter value.
#[derive(Debug, Clone, PartialEq)]
pub struct HOTPKey {
    /// display name
    pub name: String,
    /// the base32 secret text
    pub key: String,
    /// digit count: 6, 7 or 8
    pub digits: u8,
    /// the counter of the last code produced
    pub counter: u64,
    /// recovery codes
    pub recovery_codes: Vec<String>,
    /// hash function
    pub hmac_type: HMACType,
    /// issuer
    pub issuer: Option<String>,
}

impl Default for HOTPKey {
    fn default() -> (r: HOTPKey)
        ensures
            r.name@ == Seq::<char>::empty(),
            r.key@ == Seq::<char>::empty(),
            r.digits == 6,
            r.counter == 0,
            r.recovery_codes@ == Seq::<String>::empty(),
            r.hmac_type == HMACType::SHA1,
            r.issuer is None,
    {
        HOTPKey {
            name: String::new(),
            key: String::new(),
            digits: 6,
            counter: 0,
            recovery_codes: Vec::new(),
            hmac_type: HMACType::SHA1,
            issuer: None,
        }
    }
}

/// The HOTP code of a decoded secret at a counter value.
pub open spec fn hotp_code(alg: HMACType, secret: Seq<u8>, counter: u64, digits: u8) -> Seq<char> {
    otp_code(alg.hmac(secret, counter_bytes(counter)), digits as nat)
}

impl HOTPKey {
    /// One code request: the key afterwards and the outcome.  An undecodable
    /// secret gives `InvalidKey`, an unsupported digit count `InvalidDigits`
    /// and a counter at its largest value `CounterExhausted`, all leaving the
    /// key unchanged; otherwise the counter advances by one and the code of
    /// the new counter is returned.
    pub open spec fn code_step(self) -> (HOTPKey, Result<Seq<char>, Error>) {
        match secret_bytes(self.key@) {
            None => (self, Err(Error::InvalidKey)),
            Some(k) => if !valid_digits(self.digits) {
                (self, Err(Error::InvalidDigits))
            } else if self.counter == u64::MAX {
                (self, Err(Error::CounterExhausted))
            } else {
                let c = (self.counter + 1) as u64;
                (
                    HOTPKey { counter: c, ..self },
                    Ok(hotp_code(self.hmac_type, k, c, self.digits)),
                )
            },
        }
    }

    /// The base32 secret text.
    pub fn get_key(&self) -> (r: &str)
        ensures
            r@ == self.key@,
    {
        self.key.as_str()
    }

    /// The fields of the provisioning URI of the key.
    pub open spec fn uri_fields(self) -> UriFields {
        UriFields {
            name: self.name@,
            key_type: KeyType::HOTP,
            secret: self.key@,
            algorithm: self.hmac_type,
            digits: self.digits,
            counter: Some(self.counter),
            period: None,
            issuer: match self.issuer {
                Some(i) => Some(i@),
                None => None,
            },
        }
    }

    /// Whether the key is the one built from URI fields `u`: a missing digit
    /// count (zero) becomes 6 and a missing counter 0; there are no recovery
    /// codes.
    pub open spec fn made_from(self, u: UriFields) -> bool {
        &&& self.name@ == u.name
        &&& self.key@ == u.secret
        &&& self.digits == fields_digits(u)
        &&& self.counter == match u.counter {
            Some(c) => c,
            None => 0,
        }
        &&& self.recovery_codes@.len() == 0
        &&& self.hmac_type == u.algorithm
        &&& match (self.issuer, u.issuer) {
            (Some(a), Some(b)) => a@ == b,
            (None, None) => true,
            _ => false,
        }
    }
}

/// The digit count of URI fields, zero standing for the default, 6.
pub open spec fn fields_digits(u: UriFields) -> u8 {
    if u.digits == 0 {
        6
    } else {
        u.digits
    }
}

/// The error, if any, of building an HOTP key from URI fields.
pub open spec fn hotp_fields_error(u: UriFields) -> Option<Error> {
    if valid_digits(fields_digits(u)) {
        None
    } else {
        Some(Error::InvalidDigits)
    }
}

pub(crate) fn clone_issuer(i: &Option<String>) -> (r: Option<String>)
    ensures
        match (r, *i) {
            (Some(a), Some(b)) => a@ == b@,
            (None, None) => true,
            _ => false,
        },
{
    match i {
        Some(s) => Some(s.clone()),
        None => None,
    }
}

/// The key after `n` code requests.
pub open spec fn hotp_after(k: HOTPKey, n: nat) -> HOTPKey
    decreases n,
{
    if n == 0 {
        k
    } else {
        hotp_after(k, (n - 1) as nat).code_step().0
    }
}

/// Every code that an HOTP key produces has exactly its digit count of
/// decimal digits.
pub proof fn lemma_hotp_code_shape(k: HOTPKey)
    ensures
        k.code_step().1 matches Ok(c) ==> c.len() == k.digits && forall|i: int|
            0 <= i < c.len() ==> crate::otp::is_digit(#[trigger] c[i]),
{
    if let Some(s) = secret_bytes(k.key@) {
        if valid_digits(k.digits) && k.counter < u64::MAX {
            let c = (k.counter + 1) as u64;
            let d = k.hmac_type.hmac(s, counter_bytes(c));
            crate::otp::lemma_padded_decimal_shape(
                crate::otp::truncated_value(d) % crate::otp::pow10(k.digits as nat),
                k.digits as nat,
            );
        }
    }
}

/// Starting from counter 0, with a decodable secret and a supported digit
/// count, each of `n` successive code requests succeeds and together they
/// leave the counter at `n`; the `i`-th request returns what a fresh key
/// whose counter is preset to `i - 1` returns on its first request, after
/// which that key's counter is `i`.  (`get_code` performs exactly
/// `code_step`, so `hotp_after(k, n)` is the key after `n` calls.)
pub proof fn lemma_hotp_sequence(k: HOTPKey, n: nat, i: nat)
    requires
        k.counter == 0,
        secret_bytes(k.key@) is Some,
        valid_digits(k.digits),
        n <= u64::MAX,
        1 <= i <= n,
    ensures
        hotp_after(k, n).counter == n,
        hotp_after(k, (i - 1) as nat).code_step().1 is Ok,
        hotp_after(k, (i - 1) as nat).code_step().1 == (HOTPKey { counter: (i - 1) as u64, ..k }).code_step().1,
        (HOTPKey { counter: (i - 1) as u64, ..k }).code_step().0.counter == i,
    decreases n,
{
    lemma_hotp_after_counter(k, n);
    lemma_hotp_after_counter(k, (i - 1) as nat);
}

proof fn lemma_hotp_after_counter(k: HOTPKey, n: nat)
    requires
        k.counter == 0,
        secret_bytes(k.key@) is Some,
        valid_digits(k.digits),
        n <= u64::MAX,
    ensures
        hotp_after(k, n) == (HOTPKey { counter: n as u64, ..k }),
    decreases n,
{
    if n > 0 {
        lemma_hotp_after_counter(k, (n - 1) as nat);
    }
}

/// Building a key from the URI fields of a key gives that key back, when
/// its digit count is supported and it has no recovery codes (the fields
/// carry none).
pub proof fn lemma_hotp_uri_fields_inverse(k: HOTPKey)
    requires
        valid_digits(k.digits),
        k.recovery_codes@.len() == 0,
    ensures
        hotp_fields_error(k.uri_fields()) is None,
        k.made_from(k.uri_fields()),
{
}

impl OptAuthKey for HOTPKey {
    fn to_uri_struct(&self) -> (r: URI)
        ensures
            r@ == self.uri_fields(),
    {
        URI {
            name: self.name.clone(),
            key_type: KeyType::HOTP,
            secret: self.key.clone(),
            algorithm: self.hmac_type,
            digits: self.digits,
            counter: Some(self.counter),
            period: None,
            issuer: clone_issuer(&self.issuer),
        }
    }

    fn get_uri(&self) -> (r: String)
        ensures
            r@ == crate::uri::uri_text(self.uri_fields()),
    {
        self.to_uri_struct().to_uri_string()
    }

    fn get_issuer(&self) -> (r: Option<&str>)
        ensures
            r matches Some(s) ==> self.issuer matches Some(i) && s@ == i@,
            r is None <==> self.issuer is None,
    {
        match &self.issuer {
            Some(i) => Some(i.as_str()),
            None => None,
        }
    }

    fn from_uri_struct(uri: &URI) -> (r: Result<Self, Error>)
        ensures
            match hotp_fields_error(uri@) {
                Some(e) => r == Err::<Self, Error>(e),
                None => r matches Ok(k) && k.made_from(uri@),
            },
    {
        let digits = if uri.digits == 0 {
            6
        } else {
            uri.digits
        };
        if digits < 6 || digits > 8 {
            return Err(Error::InvalidDigits);
        }
        let counter = match uri.counter {
            Some(c) => c,
            None => 0,
        };
        Ok(
            HOTPKey {
                name: uri.name.clone(),
                key: uri.secret.clone(),
                digits,
                counter,
                recovery_codes: Vec::new(),
                hmac_type: uri.algorithm,
                issuer: clone_issuer(&uri.issuer),
            },
        )
    }
}

impl Key for HOTPKey {
    /// A secret whose text holds a byte outside the base32 alphabet fails
    /// with `InvalidKey` and leaves the key unchanged.
    fn get_code(&mut self) -> (r: Result<String, Error>)
        ensures
            (*final(self), code_view(r)) == old(self).code_step(),
            has_non_base32_byte(old(self).key@) ==> r == Err::<String, Error>(Error::InvalidKey)
                && *final(self) == *old(self),
    {
        let raw = match decode_secret(&self.key) {
            Ok(v) => v,
            Err(e) => return Err(e),
        };
        if self.digits < 6 || self.digits > 8 {
            return Err(Error::InvalidDigits);
        }
        if self.counter == u64::MAX {
            return Err(Error::CounterExhausted);
        }
        self.counter = self.counter + 1;
        let message = build_counter_bytes(self.counter);
        let digest = match self.hmac_type.get_hash(raw.as_slice(), message.as_slice()) {
            Ok(d) => d,
            Err(e) => return Err(e),
        };
        Ok(code_from_digest(&digest, self.digits))
    }

    fn get_name(&self) -> (r: &str)
        ensures
            r@ == self.name@,
    {
        self.name.as_str()
    }

    fn get_recovery_codes(&self) -> (r: Vec<String>)
        ensures
            r@ == self.recovery_codes@,
    {
        self.recovery_codes.clone()
    }

    fn get_type(&self) -> (r: KeyType)
        ensures
            r == KeyType::HOTP,
    {
        KeyType::HOTP
    }

    fn set_name(&mut self, name: &str)
        ensures
            *final(self) == (HOTPKey { name: final(self).name, ..*old(self) }),
            final(self).name@ == name@,
    {
        self.name = String::from_str(name);
    }

    fn set_recovery_codes(&mut self, recovery_codes: Vec<String>)
        ensures
            *final(self) == (HOTPKey { recovery_codes, ..*old(self) }),
    {
        self.recovery_codes = recovery_codes;
    }
}

} // verus!
