use vstd::prelude::*;

use crate::error::Error;
use crate::hmac_type::HMACType;
use crate::hotp::{decode_secret, has_non_base32_byte, secret_bytes, valid_digits};
use crate::otp::{build_counter_bytes, code_from_digest, counter_bytes, otp_code, unix_time_now};
use crate::hotp::{clone_issuer, fields_digits};
use crate::uri::{UriFields, URI};
use crate::{code_view, Key, KeyType, OptAuthKey};

verus! {

/// Integer division truncating toward zero, for a positive divisor.
pub open spec fn trunc_div(a: int, b: int) -> int {
    if a >= 0 {
        a / b
    } else {
        -((-a) / b)
    }
}

/// The TOTP counter at Unix time `now`: the elapsed time since `t0` divided
/// by the time step, truncated toward zero, as an unsigned 64-bit value.
pub open spec fn totp_counter(now: i64, t0: i64, step: u64) -> u64 {
    trunc_div(now - t0, step as int) as u64
}

/// A time based key: the counter is derived from the wall-clock time.
#[derive(Debug, Clone, PartialEq)]
pub struct TOTPKey {
    /// display name
    pub name: String,
    /// the base32 secret text
    pub key: String,
    /// digit count: 6, 7 or 8
    pub digits: u8,
    /// time step in seconds, positive
    pub time_step: u64,
    /// start time t0, in seconds since the Unix epoch
    pub t0: i64,
    /// recovery codes
    pub recovery_codes: Vec<String>,
    /// hash function
    pub hmac_type: HMACType,
    /// issuer
    pub issuer: Option<String>,
}

impl Default for TOTPKey {
    fn default() -> (r: TOTPKey)
        ensures
            r.name@ == Seq::<char>::empty(),
            r.key@ == Seq::<char>::empty(),
            r.digits == 6,
            r.time_step == 30,
            r.t0 == 0,
            r.recovery_codes@ == Seq::<String>::empty(),
            r.hmac_type == HMACType::SHA1,
            r.issuer is None,
    {
        TOTPKey {
            name: String::new(),
            key: String::new(),
            digits: 6,
            time_step: 30,
            t0: 0,
            recovery_codes: Vec::new(),
            hmac_type: HMACType::SHA1,
            issuer: None,
        }
    }
}

impl TOTPKey {
    /// The outcome of a code request at Unix time `now`.  An undecodable
    /// secret gives `InvalidKey`, an unsupported digit count `InvalidDigits`
    /// and a zero time step `InvalidTimeStep`.
    pub open spec fn code_at(self, now: i64) -> Result<Seq<char>, Error> {
        match secret_bytes(self.key@) {
            None => Err(Error::InvalidKey),
            Some(k) => if !valid_digits(self.digits) {
                Err(Error::InvalidDigits)
            } else if self.time_step == 0 {
                Err(Error::InvalidTimeStep)
            } else {
                Ok(
                    otp_code(
                        self.hmac_type.hmac(k, counter_bytes(totp_counter(now, self.t0, self.time_step))),
                        self.digits as nat,
                    ),
                )
            },
        }
    }

    /// The base32 secret text.
    pub fn get_key(&self) -> (r: &str)
        ensures
            r@ == self.key@,
    {
        self.key.as_str()
    }

    /// The fields of the provisioning URI of the key.
    pub open spec fn uri_fields(self) -> UriFields {
        UriFields {
            name: self.name@,
            key_type: KeyType::TOTP,
            secret: self.key@,
            algorithm: self.hmac_type,
            digits: self.digits,
            counter: None,
            period: Some(self.time_step),
            issuer: match self.issuer {
                Some(i) => Some(i@),
                None => None,
            },
        }
    }

    /// Whether the key is the one built from URI fields `u`: a missing digit
    /// count (zero) becomes 6 and a missing period 30; `t0` is 0 and there
    /// are no recovery codes.
    pub open spec fn made_from(self, u: UriFields) -> bool {
        &&& self.name@ == u.name
        &&& self.key@ == u.secret
        &&& self.digits == fields_digits(u)
        &&& self.time_step == fields_period(u)
        &&& self.t0 == 0
        &&& self.recovery_codes@.len() == 0
        &&& self.hmac_type == u.algorithm
        &&& match (self.issuer, u.issuer) {
            (Some(a), Some(b)) => a@ == b,
            (None, None) => true,
            _ => false,
        }
    }

    /// The counter at Unix time `now`.
    pub fn counter_at(&self, now: i64) -> (r: u64)
        requires
            self.time_step > 0,
        ensures
            r == totp_counter(now, self.t0, self.time_step),
    {
        let d: i128 = now as i128 - self.t0 as i128;
        let s: i128 = self.time_step as i128;
        let q: i128 = if d >= 0 {
            d / s
        } else {
            -((-d) / s)
        };
        q as u64
    }

    /// The code at Unix time `now`.
    /// A secret whose text holds a byte outside the base32 alphabet fails
    /// with `InvalidKey`.
    pub fn get_code_at(&self, now: i64) -> (r: Result<String, Error>)
        ensures
            code_view(r) == self.code_at(now),
            has_non_base32_byte(self.key@) ==> r == Err::<String, Error>(Error::InvalidKey),
    {
        let raw = match decode_secret(&self.key) {
            Ok(v) => v,
            Err(e) => return Err(e),
        };
        if self.digits < 6 || self.digits > 8 {
            return Err(Error::InvalidDigits);
        }
        if self.time_step == 0 {
            return Err(Error::InvalidTimeStep);
        }
        let message = build_counter_bytes(self.counter_at(now));
        let digest = match self.hmac_type.get_hash(raw.as_slice(), message.as_slice()) {
            Ok(d) => d,
            Err(e) => return Err(e),
        };
        Ok(code_from_digest(&digest, self.digits))
    }
}

/// The time step of URI fields: the period, or 30 where none is given.
pub open spec fn fields_period(u: UriFields) -> u64 {
    match u.period {
        Some(p) => p,
        None => 30,
    }
}

/// The error, if any, of building a TOTP key from URI fields.
pub open spec fn totp_fields_error(u: UriFields) -> Option<Error> {
    if !valid_digits(fields_digits(u)) {
        Some(Error::InvalidDigits)
    } else if fields_period(u) == 0 {
        Some(Error::InvalidTimeStep)
    } else {
        None
    }
}

/// Building a key from the URI fields of a key gives that key back, when
/// its digit count is supported, its time step positive, its `t0` zero and
/// it has no recovery codes (the fields carry neither).
pub proof fn lemma_totp_uri_fields_inverse(k: TOTPKey)
    requires
        valid_digits(k.digits),
        k.time_step > 0,
        k.t0 == 0,
        k.recovery_codes@.len() == 0,
    ensures
        totp_fields_error(k.uri_fields()) is None,
        k.made_from(k.uri_fields()),
{
}

impl OptAuthKey for TOTPKey {
    fn to_uri_struct(&self) -> (r: URI)
        ensures
            r@ == self.uri_fields(),
    {
        URI {
            name: self.name.clone(),
            key_type: KeyType::TOTP,
            secret: self.key.clone(),
            algorithm: self.hmac_type,
            digits: self.digits,
            counter: None,
            period: Some(self.time_step),
            issuer: clone_issuer(&self.issuer),
        }
    }

    fn get_uri(&self) -> (r: String)
        ensures
            r@ == crate::uri::uri_text(self.uri_fields()),
    {
        self.to_uri_struct().to_uri_string()
    }

    fn get_issuer(&self) -> (r: Option<&str>)
        ensures
            r matches Some(s) ==> self.issuer matches Some(i) && s@ == i@,
            r is None <==> self.issuer is None,
    {
        match &self.issuer {
            Some(i) => Some(i.as_str()),
            None => None,
        }
    }

    fn from_uri_struct(uri: &URI) -> (r: Result<Self, Error>)
        ensures
            match totp_fields_error(uri@) {
                Some(e) => r == Err::<Self, Error>(e),
                None => r matches Ok(k) && k.made_from(uri@),
            },
    {
        let digits = if uri.digits == 0 {
            6
        } else {
            uri.digits
        };
        if digits < 6 || digits > 8 {
            return Err(Error::InvalidDigits);
        }
        let time_step = match uri.period {
            Some(p) => p,
            None => 30,
        };
        if time_step == 0 {
            return Err(Error::InvalidTimeStep);
        }
        Ok(
            TOTPKey {
                name: uri.name.clone(),
                key: uri.secret.clone(),
                digits,
                time_step,
                t0: 0,
                recovery_codes: Vec::new(),
                hmac_type: uri.algorithm,
                issuer: clone_issuer(&uri.issuer),
            },
        )
    }
}

/// Every code that a TOTP key produces has exactly its digit count of
/// decimal digits.
pub proof fn lemma_totp_code_shape(k: TOTPKey, now: i64)
    ensures
        k.code_at(now) matches Ok(c) ==> c.len() == k.digits && forall|i: int|
            0 <= i < c.len() ==> crate::otp::is_digit(#[trigger] c[i]),
{
    if let Some(s) = secret_bytes(k.key@) {
        if valid_digits(k.digits) && k.time_step != 0 {
            let d = k.hmac_type.hmac(s, counter_bytes(totp_counter(now, k.t0, k.time_step)));
            crate::otp::lemma_padded_decimal_shape(
                crate::otp::truncated_value(d) % crate::otp::pow10(k.digits as nat),
                k.digits as nat,
            );
        }
    }
}

/// Two requests within the same time step window (the `n`-th window after
/// `t0`) give the same outcome.
pub proof fn lemma_totp_same_window(k: TOTPKey, t1: i64, t2: i64, n: nat)
    requires
        k.time_step > 0,
        k.t0 + n * k.time_step <= t1 < k.t0 + (n + 1) * k.time_step,
        k.t0 + n * k.time_step <= t2 < k.t0 + (n + 1) * k.time_step,
    ensures
        k.code_at(t1) == k.code_at(t2),
{
    let s = k.time_step as int;
    assert((n + 1) * s == n * s + s) by (nonlinear_arith);
    assert(n * k.time_step == (n as int) * s);
    vstd::arithmetic::div_mod::lemma_fundamental_div_mod_converse(t1 - k.t0, s, n as int, t1 - k.t0 - n * s);
    vstd::arithmetic::div_mod::lemma_fundamental_div_mod_converse(t2 - k.t0, s, n as int, t2 - k.t0 - n * s);
    assert(totp_counter(t1, k.t0, k.time_step) == totp_counter(t2, k.t0, k.time_step));
}

impl Key for TOTPKey {
    fn get_code(&mut self) -> (r: Result<String, Error>)
        ensures
            *final(self) == *old(self),
            exists|now: i64| code_view(r) == #[trigger] old(self).code_at(now),
            has_non_base32_byte(old(self).key@) ==> r == Err::<String, Error>(Error::InvalidKey),
    {
        let now = unix_time_now();
        let r = self.get_code_at(now);
        assert(code_view(r) == self.code_at(now));
        r
    }

    fn get_name(&self) -> (r: &str)
        ensures
            r@ == self.name@,
    {
        self.name.as_str()
    }

    fn get_recovery_codes(&self) -> (r: Vec<String>)
        ensures
            r@ == self.recovery_codes@,
    {
        self.recovery_codes.clone()
    }

    fn get_type(&self) -> (r: KeyType)
        ensures
            r == KeyType::TOTP,
    {
        KeyType::TOTP
    }

    fn set_name(&mut self, name: &str)
        ensures
            *final(self) == (TOTPKey { name: final(self).name, ..*old(self) }),
            final(self).name@ == name@,
    {
        self.name = String::from_str(name);
    }

    fn set_recovery_codes(&mut self, recovery_codes: Vec<String>)
        ensures
            *final(self) == (TOTPKey { recovery_codes, ..*old(self) }),
    {
        self.recovery_codes = recovery_codes;
    }
}

} // verus!
