use libr2fa::otp::seconds_of_reading;
use libr2fa::otpauth_from_uri;
use libr2fa::steam::api_response::{AddAuthenticatorResponse, LoginResponse};
use libr2fa::steam::token::TwoFactorSecret;
use libr2fa::steam::MaFile;
use libr2fa::AuthKey;
use libr2fa::Error;
use libr2fa::HMACType;
use libr2fa::HOTPKey;
use libr2fa::Key;
use libr2fa::KeyType;
use libr2fa::OptAuthKey;
use libr2fa::SteamKey;
use libr2fa::TOTPKey;
use libr2fa::URI;

const RFC_SECRET: &str = "GEZDGNBVGY3TQOJQGEZDGNBVGY3TQOJQ";

fn rfc_totp(secret: &str, alg: HMACType) -> TOTPKey {
    TOTPKey {
        key: secret.to_string(),
        digits: 8,
        hmac_type: alg,
        ..Default::default()
    }
}

#[test]
fn hotp_matches_rfc4226_vectors() {
    let expected = [
        "755224", "287082", "359152", "969429", "338314", "254676", "287922", "162583", "399871",
        "520489",
    ];
    // counter 0 is never produced by a request (the first request uses 1)
    let secret = b"12345678901234567890";
    let digest = HMACType::SHA1.get_hash(secret, &0u64.to_be_bytes()).unwrap();
    assert_eq!(libr2fa::otp::code_from_digest(&digest, 6), expected[0]);
    let mut key = HOTPKey {
        key: RFC_SECRET.to_string(),
        ..Default::default()
    };
    for (i, code) in expected.iter().enumerate().skip(1) {
        assert_eq!(key.get_code().unwrap(), *code);
        assert_eq!(key.counter, i as u64);
    }
}

#[test]
fn hotp_counter_exhausted_at_the_largest_value() {
    let mut key = HOTPKey {
        key: RFC_SECRET.to_string(),
        counter: u64::MAX,
        ..Default::default()
    };
    assert_eq!(key.get_code(), Err(Error::CounterExhausted));
    assert_eq!(key.counter, u64::MAX);
    let mut below = HOTPKey {
        counter: u64::MAX - 1,
        ..key.clone()
    };
    assert!(below.get_code().is_ok());
    assert_eq!(below.counter, u64::MAX);
}

#[test]
fn hotp_first_request_uses_counter_one() {
    let mut key = HOTPKey {
        key: RFC_SECRET.to_string(),
        ..Default::default()
    };
    assert_eq!(key.get_code().unwrap(), "287082");
    assert_eq!(key.counter, 1);
}

#[test]
fn hotp_counter_advances_and_matches_fresh_keys() {
    let mut key = HOTPKey {
        key: RFC_SECRET.to_string(),
        hmac_type: HMACType::SHA256,
        digits: 8,
        ..Default::default()
    };
    for i in 1..=20u64 {
        let code = key.get_code().unwrap();
        let mut fresh = HOTPKey {
            counter: i - 1,
            ..key.clone()
        };
        assert_eq!(fresh.get_code().unwrap(), code);
    }
    assert_eq!(key.counter, 20);
}

#[test]
fn totp_matches_rfc6238_vectors() {
    let k1 = rfc_totp(RFC_SECRET, HMACType::SHA1);
    assert_eq!(k1.get_code_at(59).unwrap(), "94287082");
    assert_eq!(k1.get_code_at(1111111109).unwrap(), "07081804");
    let k256 = rfc_totp(
        "GEZDGNBVGY3TQOJQGEZDGNBVGY3TQOJQGEZDGNBVGY3TQOJQGEZA====",
        HMACType::SHA256,
    );
    assert_eq!(k256.get_code_at(59).unwrap(), "46119246");
    let k512 = rfc_totp(
        "GEZDGNBVGY3TQOJQGEZDGNBVGY3TQOJQGEZDGNBVGY3TQOJQGEZDGNBVGY3TQOJQGEZDGNBVGY3TQOJQGEZDGNBVGY3TQOJQGEZDGNA=",
        HMACType::SHA512,
    );
    assert_eq!(k512.get_code_at(59).unwrap(), "90693936");
}

#[test]
fn codes_have_exactly_the_digit_count() {
    for digits in 6..=8u8 {
        for alg in [HMACType::SHA1, HMACType::SHA256, HMACType::SHA512] {
            let k = TOTPKey {
                key: RFC_SECRET.to_string(),
                digits,
                hmac_type: alg,
                ..Default::default()
            };
            for t in [0i64, 59, 1111111109, 1234567890, 2000000000] {
                let code = k.get_code_at(t).unwrap();
                assert_eq!(code.len(), digits as usize);
                assert!(code.chars().all(|c| c.is_ascii_digit()));
            }
        }
    }
}

#[test]
fn totp_same_window_same_code() {
    let k = TOTPKey {
        key: RFC_SECRET.to_string(),
        ..Default::default()
    };
    assert_eq!(k.get_code_at(60).unwrap(), k.get_code_at(89).unwrap());
    assert_ne!(k.get_code_at(89).unwrap(), k.get_code_at(90).unwrap());
    assert_eq!(k.counter_at(89), 2);
    assert_eq!(k.counter_at(90), 3);
}

#[test]
fn totp_counter_truncates_toward_zero() {
    let k = TOTPKey {
        key: RFC_SECRET.to_string(),
        t0: 100,
        ..Default::default()
    };
    assert_eq!(k.counter_at(100), 0);
    assert_eq!(k.counter_at(129), 0);
    assert_eq!(k.counter_at(130), 1);
    // 29 seconds before t0 truncates to zero, 30 seconds before to -1
    assert_eq!(k.counter_at(71), 0);
    assert_eq!(k.counter_at(70), u64::MAX);
}

#[test]
fn invalid_secret_is_invalid_key() {
    let mut h = HOTPKey {
        key: "not base32!".to_string(),
        counter: 3,
        ..Default::default()
    };
    assert_eq!(h.get_code(), Err(Error::InvalidKey));
    assert_eq!(h.counter, 3);
    let mut t = TOTPKey {
        key: "1234".to_string(),
        ..Default::default()
    };
    assert_eq!(t.get_code(), Err(Error::InvalidKey));
    assert_eq!(t.get_code_at(59), Err(Error::InvalidKey));
}

#[test]
fn unsupported_digits_are_rejected() {
    let mut h = HOTPKey {
        key: RFC_SECRET.to_string(),
        digits: 9,
        ..Default::default()
    };
    assert_eq!(h.get_code(), Err(Error::InvalidDigits));
    assert_eq!(h.counter, 0);
    let t = TOTPKey {
        key: RFC_SECRET.to_string(),
        digits: 5,
        ..Default::default()
    };
    assert_eq!(t.get_code_at(59), Err(Error::InvalidDigits));
}

#[test]
fn zero_time_step_is_rejected() {
    let t = TOTPKey {
        key: RFC_SECRET.to_string(),
        time_step: 0,
        ..Default::default()
    };
    assert_eq!(t.get_code_at(59), Err(Error::InvalidTimeStep));
}

#[test]
fn steam_code_is_stable_and_uses_the_alphabet() {
    let secret = TwoFactorSecret::parse_shared_secret("1Yl+tt/6w2dZEG51M8P6oc2x/cY=".to_string())
        .unwrap();
    assert_eq!(secret.generate_code(1700000000), "W5V7J");
    assert_eq!(secret.generate_code(1700000029), "N65QD");
    assert_eq!(secret.generate_code(0), "GCJXH");
    for t in [1u64, 30, 12345678, 1700000000] {
        let code = secret.generate_code(t);
        assert_eq!(code.len(), 5);
        assert!(code.chars().all(|c| "23456789BCDFGHJKMNPQRTVWXY".contains(c)));
    }
}

#[test]
fn steam_secret_encodings() {
    let secret = TwoFactorSecret::parse_shared_secret("1Yl+tt/6w2dZEG51M8P6oc2x/cY=".to_string())
        .unwrap();
    assert_eq!(secret.to_base32(), "2WEX5NW77LBWOWIQNZ2THQ72UHG3D7OG");
    assert_eq!(secret.to_shared_secret(), "1Yl+tt/6w2dZEG51M8P6oc2x/cY=");
    let again = TwoFactorSecret::from_base32(secret.to_base32()).unwrap();
    assert_eq!(again.0, secret.0);
    assert!(TwoFactorSecret::from_base32(String::new()).is_err());
    assert_eq!(
        TwoFactorSecret::from_base32(RFC_SECRET.to_string()).err(),
        None
    );
    assert_eq!(
        TwoFactorSecret::from_base32("GEZDGNBV".to_string()).err(),
        Some(Error::InvalidKey)
    );
    assert_eq!(
        TwoFactorSecret::parse_shared_secret("%%%".to_string()).err(),
        Some(Error::InvalidKey)
    );
    assert_eq!(TwoFactorSecret::new().0, [0u8; 20]);
}

fn mafile(shared_secret: &str) -> MaFile {
    MaFile {
        account_name: "test".to_string(),
        device_id: "dev".to_string(),
        identity_secret: "id".to_string(),
        revocation_code: "R12345".to_string(),
        secret_1: "s1".to_string(),
        serial_number: 1,
        server_time: 2,
        shared_secret: shared_secret.to_string(),
        status: 0,
        token_gid: "gid".to_string(),
        uri: "uri".to_string(),
    }
}

#[test]
fn steam_key_from_mafile() {
    let mut key = SteamKey::from_mafile(mafile("1Yl+tt/6w2dZEG51M8P6oc2x/cY=")).unwrap();
    assert_eq!(key.get_name(), "test");
    assert_eq!(key.get_type(), KeyType::Steam);
    assert_eq!(key.get_recovery_codes(), vec!["R12345".to_string()]);
    assert_eq!(key.get_code_at(1700000000), "W5V7J");
    assert_eq!(key.get_code_at_time(1700000000), Ok("W5V7J".to_string()));
    assert_eq!(key.get_code_at_time(-1), Err(Error::ClockBeforeEpoch));
    assert_eq!(key.get_code().unwrap().len(), 5);
    key.set_recovery_codes(vec![]);
    assert_eq!(key.get_recovery_codes(), vec!["R12345".to_string()]);
    key.set_recovery_codes(vec!["A".to_string(), "B".to_string()]);
    assert_eq!(key.get_recovery_codes(), vec!["A".to_string()]);
    key.set_name("other");
    assert_eq!(key.get_name(), "other");
    assert!(SteamKey::from_mafile(mafile("AAAA")).is_err());
}

#[test]
fn steam_key_uri_round_trip() {
    let key = SteamKey::from_mafile(mafile("1Yl+tt/6w2dZEG51M8P6oc2x/cY=")).unwrap();
    let uri = key.to_uri_struct();
    assert_eq!(uri.key_type, KeyType::Steam);
    assert_eq!(uri.secret, "2WEX5NW77LBWOWIQNZ2THQ72UHG3D7OG");
    assert_eq!(key.get_issuer(), Some("Steam"));
    let mut back = otpauth_from_uri(&key.get_uri()).unwrap();
    assert_eq!(back.get_type(), KeyType::Steam);
    assert_eq!(back.get_name(), "test");
    match &back {
        AuthKey::Steam(s) => {
            assert_eq!(s.token.0, key.token.0);
            assert_eq!(s.mafile.shared_secret, "1Yl+tt/6w2dZEG51M8P6oc2x/cY=");
        }
        _ => panic!("expected a Steam key"),
    }
    assert_eq!(back.get_code().unwrap().len(), 5);
}

#[test]
fn uri_text_is_canonical() {
    let uri = URI::new_from_uri(
        "otpauth://hotp/ACME%20Co:john.doe@email.com?secret=HXDMVJECJJWSRB3HWIZR4IFUGFTMXBOZ&issuer=ACME%20Co&algorithm=SHA256&digits=7&counter=7".to_string(),
    );
    assert_eq!(uri.key_type, KeyType::HOTP);
    assert_eq!(uri.issuer, Some("ACME Co".to_string()));
    assert_eq!(uri.digits, 7);
    assert_eq!(uri.counter, Some(7));
    assert_eq!(uri.period, None);
    assert_eq!(uri.algorithm, HMACType::SHA256);
    assert_eq!(uri.secret, "HXDMVJECJJWSRB3HWIZR4IFUGFTMXBOZ".to_string());
    assert_eq!(uri.to_uri_string(), "otpauth://hotp/ACME+Co%3Ajohn.doe%40email.com?secret=HXDMVJECJJWSRB3HWIZR4IFUGFTMXBOZ&algorithm=SHA256&digits=7&counter=7&issuer=ACME+Co");
}

#[test]
fn uri_parse_of_totp_example() {
    let uri = URI::from_text("otpauth://totp/ACME%20Co:john.doe@email.com?secret=HXDMVJECJJWSRB3HWIZR4IFUGFTMXBOZ&issuer=ACME%20Co&algorithm=SHA256&digits=7&period=60");
    assert_eq!(uri.name, "ACME Co:john.doe@email.com");
    assert_eq!(uri.issuer, Some("ACME Co".to_string()));
    assert_eq!(uri.digits, 7);
    assert_eq!(uri.period, Some(60));
    assert_eq!(uri.algorithm, HMACType::SHA256);
    assert_eq!(uri.key_type, KeyType::TOTP);
    let key = TOTPKey::from_uri_struct(&uri).unwrap();
    assert_eq!(key.get_code_at(1700000000).unwrap(), "0021978");
    let mut any = otpauth_from_uri("otpauth://totp/ACME%20Co:john.doe@email.com?secret=HXDMVJECJJWSRB3HWIZR4IFUGFTMXBOZ&issuer=ACME%20Co&algorithm=SHA256&digits=7&period=60").unwrap();
    assert_eq!(any.get_code().unwrap().len(), 7);
}

#[test]
fn uri_round_trip_with_all_fields() {
    let bag = URI {
        name: "Big Corp/Sub: él & co".to_string(),
        key_type: KeyType::HOTP,
        secret: "HXDMVJECJJWSRB3HWIZR4IFUGFTMXBOZ".to_string(),
        algorithm: HMACType::SHA512,
        digits: 8,
        counter: Some(18446744073709551615),
        period: Some(45),
        issuer: Some("Issuer+Name?".to_string()),
    };
    let back = URI::from_text(&bag.to_uri_string());
    assert_eq!(back.name, bag.name);
    assert_eq!(back.key_type, bag.key_type);
    assert_eq!(back.secret, bag.secret);
    assert_eq!(back.algorithm, bag.algorithm);
    assert_eq!(back.digits, bag.digits);
    assert_eq!(back.counter, bag.counter);
    assert_eq!(back.period, bag.period);
    assert_eq!(back.issuer, bag.issuer);
}

#[test]
fn uri_parse_is_lenient() {
    let uri = URI::from_text("not a uri");
    assert_eq!(uri.name, "");
    assert_eq!(uri.secret, "");
    assert_eq!(uri.digits, 0);
    assert_eq!(uri.key_type, KeyType::TOTP);
    let uri = URI::from_text("otpauth://HOTP/?digits=abc&period=+60&counter=99999999999999999999&algorithm=sha256&secret=A=B&unknown=1");
    assert_eq!(uri.key_type, KeyType::HOTP);
    assert_eq!(uri.name, "");
    assert_eq!(uri.digits, 0);
    assert_eq!(uri.period, Some(60));
    assert_eq!(uri.counter, None);
    assert_eq!(uri.algorithm, HMACType::SHA256);
    assert_eq!(uri.secret, "A=B");
}

#[test]
fn uri_round_trip_keeps_padded_secret() {
    let bag = URI {
        name: "pad".to_string(),
        key_type: KeyType::TOTP,
        secret: "MZZHI6LHOVUGU===".to_string(),
        algorithm: HMACType::SHA1,
        digits: 6,
        counter: Some(1),
        period: Some(30),
        issuer: Some("I".to_string()),
    };
    let text = bag.to_uri_string();
    assert_eq!(text, "otpauth://totp/pad?secret=MZZHI6LHOVUGU===&algorithm=SHA1&digits=6&counter=1&period=30&issuer=I");
    let back = URI::from_text(&text);
    assert_eq!(back.secret, bag.secret);
    assert_eq!(back.counter, bag.counter);
    assert_eq!(back.period, bag.period);
    assert_eq!(back.issuer, bag.issuer);
    let t = TOTPKey {
        key: "MFSWS5LGNBUXKZLBO5TGQ33JO5SWC2DGNF2WCZLIMZUXKZLXMFUGM2LVNFQWK53IMZUXK2A=".to_string(),
        ..Default::default()
    };
    match otpauth_from_uri(&t.get_uri()).unwrap() {
        AuthKey::TOTP(k) => assert_eq!(k.key, t.key),
        _ => panic!("expected a TOTP key"),
    }
}

#[test]
fn clock_readings_in_seconds() {
    assert_eq!(seconds_of_reading(Ok((1700000000, 5))), 1700000000);
    assert_eq!(seconds_of_reading(Ok((u64::MAX, 0))), i64::MAX);
    assert_eq!(seconds_of_reading(Err((0, 1))), -1);
    assert_eq!(seconds_of_reading(Err((2, 0))), -2);
    assert_eq!(seconds_of_reading(Err((2, 500))), -3);
    assert_eq!(seconds_of_reading(Err((u64::MAX, 0))), i64::MIN);
}

#[test]
fn keys_from_uri_take_defaults() {
    let mut h = otpauth_from_uri("otpauth://hotp/name?secret=GEZDGNBVGY3TQOJQGEZDGNBVGY3TQOJQ").unwrap();
    match &h {
        AuthKey::HOTP(k) => {
            assert_eq!(k.digits, 6);
            assert_eq!(k.counter, 0);
            assert_eq!(k.hmac_type, HMACType::SHA1);
        }
        _ => panic!("expected an HOTP key"),
    }
    assert_eq!(h.get_code().unwrap(), "287082");
    let t = otpauth_from_uri("otpauth://totp/name?secret=GEZDGNBVGY3TQOJQGEZDGNBVGY3TQOJQ").unwrap();
    match &t {
        AuthKey::TOTP(k) => {
            assert_eq!(k.time_step, 30);
            assert_eq!(k.digits, 6);
        }
        _ => panic!("expected a TOTP key"),
    }
    assert_eq!(
        otpauth_from_uri("otpauth://totp/name?secret=GEZDGNBV&digits=9").err(),
        Some(Error::InvalidDigits)
    );
    assert_eq!(
        otpauth_from_uri("otpauth://totp/name?secret=GEZDGNBV&period=0").err(),
        Some(Error::InvalidTimeStep)
    );
}

#[test]
fn key_uri_round_trip() {
    let k = HOTPKey {
        name: "a b".to_string(),
        key: RFC_SECRET.to_string(),
        digits: 7,
        counter: 12,
        recovery_codes: vec![],
        hmac_type: HMACType::SHA256,
        issuer: Some("I".to_string()),
    };
    assert_eq!(k.get_uri(), "otpauth://hotp/a+b?secret=GEZDGNBVGY3TQOJQGEZDGNBVGY3TQOJQ&algorithm=SHA256&digits=7&counter=12&issuer=I");
    let back = HOTPKey::from_uri_struct(&k.to_uri_struct()).unwrap();
    assert_eq!(back, k);
    assert_eq!(back.get_issuer(), Some("I"));
    let t = TOTPKey {
        name: "x".to_string(),
        key: RFC_SECRET.to_string(),
        time_step: 60,
        ..Default::default()
    };
    assert_eq!(t.get_uri(), "otpauth://totp/x?secret=GEZDGNBVGY3TQOJQGEZDGNBVGY3TQOJQ&algorithm=SHA1&digits=6&period=60");
    assert_eq!(TOTPKey::from_uri_struct(&t.to_uri_struct()).unwrap(), t);
    assert_eq!(t.get_issuer(), None);
}

#[test]
fn setters_and_getters() {
    let mut k = HOTPKey::default();
    k.set_name("test");
    assert_eq!(k.get_name(), "test");
    k.set_recovery_codes(vec!["test".to_string()]);
    assert_eq!(k.get_recovery_codes(), vec!["test".to_string()]);
    assert_eq!(k.get_type(), KeyType::HOTP);
    assert_eq!(k.get_key(), "");
    let mut t = TOTPKey::default();
    t.set_name("n");
    t.set_recovery_codes(vec!["a".to_string(), "b".to_string()]);
    assert_eq!(t.get_name(), "n");
    assert_eq!(t.get_recovery_codes().len(), 2);
    assert_eq!(t.get_type(), KeyType::TOTP);
    let mut any = AuthKey::TOTP(t);
    any.set_name("m");
    assert_eq!(any.get_name(), "m");
}

#[test]
fn names_of_types() {
    assert_eq!(HMACType::from_name("SHA256"), HMACType::SHA256);
    assert_eq!(HMACType::from_name("sha512"), HMACType::SHA512);
    assert_eq!(HMACType::from_name("md5"), HMACType::SHA1);
    assert_eq!(HMACType::SHA256.get_digest_name(), "sha256");
    assert_eq!(HMACType::SHA512.get_uri_name(), "SHA512");
    assert_eq!(HMACType::default(), HMACType::SHA1);
    assert_eq!(KeyType::from_name("HoTp"), KeyType::HOTP);
    assert_eq!(KeyType::from_name("other"), KeyType::TOTP);
    assert_eq!(KeyType::Steam.to_str(), "steam");
    assert_eq!(KeyType::default(), KeyType::TOTP);
}

#[test]
fn hmac_digests() {
    let d = HMACType::SHA1.get_hash(b"12345678901234567890", &[0, 0, 0, 0, 0, 0, 0, 0]).unwrap();
    assert_eq!(d.len(), 20);
    assert_eq!(d[..4], [0xcc, 0x93, 0xcf, 0x18]);
    assert_eq!(HMACType::SHA256.get_hash(b"k", b"m").unwrap().len(), 32);
    assert_eq!(HMACType::SHA512.get_hash(b"", b"").unwrap().len(), 64);
}

#[test]
fn error_messages() {
    assert_eq!(Error::InvalidKey.message(), "Invalid key");
    assert_eq!(Error::InvalidURI("x".to_string()).message(), "Invalid URI: x");
}

#[test]
fn steam_responses() {
    let mut r = LoginResponse {
        success: true,
        login_complete: false,
        captcha_needed: false,
        captcha_gid: String::new(),
        email_steam_id: 0,
        email_auth_needed: false,
        requires_two_factor: false,
        message: String::new(),
        oauth: None,
        transfer_urls: None,
        transfer_parameters: None,
    };
    assert!(!r.needs_transfer_login());
    r.transfer_urls = Some(vec!["u".to_string()]);
    assert!(r.needs_transfer_login());
    let a = AddAuthenticatorResponse {
        shared_secret: "1Yl+tt/6w2dZEG51M8P6oc2x/cY=".to_string(),
        serial_number: "1".to_string(),
        revocation_code: "R1".to_string(),
        uri: "u".to_string(),
        server_time: 5,
        account_name: "acc".to_string(),
        token_gid: "g".to_string(),
        identity_secret: "i".to_string(),
        secret_1: "s".to_string(),
        status: 1,
        phone_number_hint: None,
    };
    let acc = a.to_steam_guard_account().unwrap();
    assert_eq!(acc.account_name, "acc");
    assert!(!acc.fully_enrolled);
    assert_eq!(acc.device_id, "");
    let bad = AddAuthenticatorResponse {
        shared_secret: "wGwZx=sX5MmTxi6QgA3Gi".to_string(),
        ..a
    };
    assert_eq!(bad.to_steam_guard_account().err(), Some(Error::InvalidKey));
}

#[test]
fn steam_code_from_plain_hmac_digest() {
    let secret = TwoFactorSecret::parse_shared_secret("1Yl+tt/6w2dZEG51M8P6oc2x/cY=".to_string())
        .unwrap();
    let t: u64 = 1700000000;
    let message = libr2fa::steam::token::build_time_bytes(t / 30);
    assert_eq!(message, (t / 30).to_be_bytes().to_vec());
    let digest = HMACType::SHA1.get_hash(&secret.0, &message).unwrap();
    assert_eq!(
        libr2fa::steam::token::steam_code_from_digest(&digest),
        secret.generate_code(t)
    );
    assert_eq!(libr2fa::steam::token::steam_code_from_digest(&digest), "W5V7J");
}

#[test]
fn digest_truncation_and_rendering() {
    // RFC 4226 section 5.4 example digest
    let digest: Vec<u8> = vec![
        0x1f, 0x86, 0x98, 0x69, 0x0e, 0x02, 0xca, 0x16, 0x61, 0x85, 0x50, 0xef, 0x7f, 0x19, 0xda,
        0x8e, 0x94, 0x5b, 0x55, 0x5a,
    ];
    assert_eq!(libr2fa::otp::truncate_digest(&digest), 0x50ef7f19);
    assert_eq!(libr2fa::otp::code_from_digest(&digest, 6), "872921");
    assert_eq!(libr2fa::otp::render_padded(42, 6), "000042");
    assert_eq!(libr2fa::otp::power_of_ten(8), 100_000_000);
    assert_eq!(libr2fa::decimal::decimal_text(0), "0");
    assert_eq!(libr2fa::decimal::decimal_text(18446744073709551615), "18446744073709551615");
}

#[test]
fn empty_secret_still_decodes() {
    let mut h = HOTPKey::default();
    let code = h.get_code().unwrap();
    assert_eq!(code.len(), 6);
    assert_eq!(h.counter, 1);
}
