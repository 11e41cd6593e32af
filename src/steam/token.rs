use vstd::prelude::*;
use vstd::utf8::encode_utf8;

use crate::codec::{
    base32_decoding, base32_encoding, base64_decoding, base64_encoding, decode_base32,
    decode_base64, encode_base32, encode_base64,
};
use crate::error::Error;
use crate::otp::{build_counter_bytes, counter_bytes, truncate_digest, truncated_value};

verus! {

/// The HMAC-SHA1 tag that `ring` computes for a key and a message.
pub uninterp spec fn legacy_hmac_sha1_of(key: Seq<u8>, message: Seq<u8>) -> Seq<u8>;

/// Relies on `ring::hmac::sign` with `HMAC_SHA1_FOR_LEGACY_USE_ONLY`: the tag
/// has the 20 bytes of a SHA-1 output; `sign` only fails on inputs far longer
/// than the ones admitted here.
#[verifier::external_body]
fn sign_sha1(key: &[u8], message: &[u8]) -> (r: Vec<u8>)
    requires
        message@.len() <= 64,
    ensures
        r@ == legacy_hmac_sha1_of(key@, message@),
        r@.len() == 20,
{
    let k = ring::hmac::Key::new(ring::hmac::HMAC_SHA1_FOR_LEGACY_USE_ONLY, key);
    ring::hmac::sign(&k, message).as_ref().to_vec()
}

/// The 26 symbols of a Steam Guard code, in order.
pub open spec fn steam_alphabet() -> Seq<char> {
    seq![
        '2', '3', '4', '5', '6', '7', '8', '9', 'B', 'C', 'D', 'F', 'G', 'H', 'J', 'K', 'M', 'N',
        'P', 'Q', 'R', 'T', 'V', 'W', 'X', 'Y',
    ]
}

/// `n` symbols of a value in base 26, least significant first.
pub open spec fn steam_symbols(v: nat, n: nat) -> Seq<char>
    decreases n,
{
    if n == 0 {
        Seq::empty()
    } else {
        seq![steam_alphabet()[(v % 26) as int]] + steam_symbols(v / 26, (n - 1) as nat)
    }
}

/// The Steam Guard code at Unix time `time` for a 20-byte secret.
pub open spec fn steam_code(secret: Seq<u8>, time: u64) -> Seq<char> {
    steam_symbols(truncated_value(legacy_hmac_sha1_of(secret, counter_bytes(time / 30))), 5)
}

/// Every symbol of a Steam Guard code is one of the alphabet's.
pub proof fn lemma_steam_symbols_in_alphabet(v: nat, n: nat)
    ensures
        steam_symbols(v, n).len() == n,
        forall|i: int|
            0 <= i < n ==> steam_alphabet().contains(#[trigger] steam_symbols(v, n)[i]),
    decreases n,
{
    if n > 0 {
        lemma_steam_symbols_in_alphabet(v / 26, (n - 1) as nat);
        let s = steam_symbols(v, n);
        let rest = steam_symbols(v / 26, (n - 1) as nat);
        assert forall|i: int| 0 <= i < n implies steam_alphabet().contains(#[trigger] s[i]) by {
            if i == 0 {
                assert(s[0] == steam_alphabet()[(v % 26) as int]);
            } else {
                assert(s[i] == rest[i - 1]);
            }
        }
    }
}

/// The 20-byte shared secret of a Steam Guard authenticator.
#[derive(Debug, Clone)]
pub struct TwoFactorSecret(pub [u8; 20]);

impl TwoFactorSecret {
    /// A secret of twenty zero bytes.
    pub fn new() -> (r: Self)
        ensures
            r.0@ == Seq::new(20, |i: int| 0u8),
    {
        let r = TwoFactorSecret([0u8; 20]);
        assert(r.0@ =~= Seq::new(20, |i: int| 0u8));
        r
    }

    /// The secret as padded base32 text.
    pub fn to_base32(&self) -> (r: String)
        ensures
            r@ == base32_encoding(self.0@),
    {
        encode_base32(self.0.as_slice())
    }

    /// The secret as padded base64 text, the form Steam calls the shared secret.
    pub fn to_shared_secret(&self) -> (r: String)
        ensures
            r@ == base64_encoding(self.0@),
    {
        encode_base64(self.0.as_slice())
    }

    fn from_bytes(v: &Vec<u8>) -> (r: Self)
        requires
            v@.len() == 20,
        ensures
            r.0@ == v@,
    {
        let r = TwoFactorSecret(
            [
                v[0], v[1], v[2], v[3], v[4], v[5], v[6], v[7], v[8], v[9], v[10], v[11], v[12],
                v[13], v[14], v[15], v[16], v[17], v[18], v[19],
            ],
        );
        assert(r.0@ =~= v@);
        r
    }

    /// Reads a secret from base32 text.  Empty text, text that is not base32
    /// and text that does not decode to exactly 20 bytes give `InvalidKey`.
    pub fn from_base32(secret: String) -> (r: Result<Self, Error>)
        ensures
            match base32_decoding(encode_utf8(secret@)) {
                Some(b) => if secret@.len() > 0 && b.len() == 20 {
                    r matches Ok(t) && t.0@ == b
                } else {
                    r == Err::<Self, Error>(Error::InvalidKey)
                },
                None => r == Err::<Self, Error>(Error::InvalidKey),
            },
    {
        let res = decode_base32(secret.as_str().as_bytes());
        if secret.as_str().is_empty() {
            return Err(Error::InvalidKey);
        }
        match res {
            Some(v) => if v.len() == 20 {
                Ok(Self::from_bytes(&v))
            } else {
                Err(Error::InvalidKey)
            },
            None => Err(Error::InvalidKey),
        }
    }

    /// Reads a secret from base64 text.  Empty text, text that is not base64
    /// and text that does not decode to exactly 20 bytes give `InvalidKey`.
    pub fn parse_shared_secret(secret: String) -> (r: Result<Self, Error>)
        ensures
            match base64_decoding(encode_utf8(secret@)) {
                Some(b) => if secret@.len() > 0 && b.len() == 20 {
                    r matches Ok(t) && t.0@ == b
                } else {
                    r == Err::<Self, Error>(Error::InvalidKey)
                },
                None => r == Err::<Self, Error>(Error::InvalidKey),
            },
    {
        let res = decode_base64(secret.as_str().as_bytes());
        if secret.as_str().is_empty() {
            return Err(Error::InvalidKey);
        }
        match res {
            Some(v) => if v.len() == 20 {
                Ok(Self::from_bytes(&v))
            } else {
                Err(Error::InvalidKey)
            },
            None => Err(Error::InvalidKey),
        }
    }

    /// The five-symbol Steam Guard code at Unix time `time` (seconds): the
    /// counter is `time / 30`, and the truncated HMAC-SHA1 value is written
    /// in base 26 over the Steam alphabet, least significant symbol first.
    pub fn generate_code(&self, time: u64) -> (r: String)
        ensures
            r@ == steam_code(self.0@, time),
            r@.len() == 5,
            forall|i: int| 0 <= i < 5 ==> steam_alphabet().contains(#[trigger] r@[i]),
    {
        let message = build_counter_bytes(time_counter(time));
        let digest = sign_sha1(self.0.as_slice(), message.as_slice());
        steam_code_from_digest(&digest)
    }
}

/// The Steam Guard code of a digest of at least 20 bytes: its truncated value
/// written with five symbols of the Steam alphabet, least significant first.
pub fn steam_code_from_digest(digest: &Vec<u8>) -> (r: String)
    requires
        digest@.len() >= 20,
    ensures
        r@ == steam_symbols(truncated_value(digest@), 5),
        r@.len() == 5,
        forall|i: int| 0 <= i < 5 ==> steam_alphabet().contains(#[trigger] r@[i]),
{
    let alphabet: [char; 26] = [
        '2', '3', '4', '5', '6', '7', '8', '9', 'B', 'C', 'D', 'F', 'G', 'H', 'J', 'K', 'M', 'N',
        'P', 'Q', 'R', 'T', 'V', 'W', 'X', 'Y',
    ];
    assert(alphabet@ =~= steam_alphabet());
    let v0 = truncate_digest(digest);
    let mut v: u32 = v0;
    let mut out: Vec<char> = Vec::new();
    let mut i: usize = 0;
    while i < 5
        invariant
            i <= 5,
            alphabet@ == steam_alphabet(),
            steam_symbols(v0 as nat, 5) == out@ + steam_symbols(v as nat, (5 - i) as nat),
        decreases 5 - i,
    {
        let c = alphabet[(v % 26) as usize];
        proof {
            let n = (5 - i) as nat;
            assert(steam_symbols(v as nat, n) == seq![c] + steam_symbols((v / 26) as nat, (n - 1) as nat));
            assert(out@ + steam_symbols(v as nat, n) =~= out@.push(c) + steam_symbols(
                (v / 26) as nat,
                (n - 1) as nat,
            ));
        }
        out.push(c);
        v = v / 26;
        i = i + 1;
    }
    assert(out@ =~= steam_symbols(v0 as nat, 5));
    proof {
        lemma_steam_symbols_in_alphabet(v0 as nat, 5);
    }
    crate::text::string_of(&out)
}

/// The Steam Guard counter of a Unix time: one step every 30 seconds.
fn time_counter(time: u64) -> (r: u64)
    ensures
        r == time / 30,
{
    time / 30
}

/// The 8-byte big-endian encoding of a time counter.
pub fn build_time_bytes(time: u64) -> (r: Vec<u8>)
    ensures
        r@ == counter_bytes(time),
{
    build_counter_bytes(time)
}

impl Default for TwoFactorSecret {
    fn default() -> (r: Self)
        ensures
            r.0@ == Seq::new(20, |i: int| 0u8),
    {
        Self::new()
    }
}

} // verus!
