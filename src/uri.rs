use vstd::prelude::*;
use vstd::utf8::encode_utf8;

use crate::decimal::{decimal, decimal_text, parse_number, parse_unsigned};
use crate::hmac_type::HMACType;
use crate::text::{
    chars_of, find_char, find_char_in, has_at, is_space, is_space_char,
    matches_at, string_of, sub_chars,
};
use crate::KeyType;

verus! {

/// The `application/x-www-form-urlencoded` name/value pairs of a text.
pub uninterp spec fn form_decoded_pairs(input: Seq<u8>) -> Seq<(Seq<char>, Seq<char>)>;

/// Whether form encoding keeps a byte as it is.
pub open spec fn form_unchanged(b: u8) -> bool {
    b == 42 || b == 45 || b == 46 || (48 <= b && b <= 57) || (65 <= b && b <= 90) || b == 95 || (97
        <= b && b <= 122)
}

/// An upper case hexadecimal digit.
pub open spec fn hex_upper(n: nat) -> char {
    if n < 10 {
        ((48 + n) as u8) as char
    } else {
        ((55 + n) as u8) as char
    }
}

/// The form encoding of one byte: kept, `+` for a space, or `%XX`.
pub open spec fn form_byte(b: u8) -> Seq<char> {
    if form_unchanged(b) {
        seq![b as char]
    } else if b == 32 {
        seq!['+']
    } else {
        seq!['%', hex_upper((b / 16) as nat), hex_upper((b % 16) as nat)]
    }
}

/// The `application/x-www-form-urlencoded` byte serialization.
pub open spec fn form_serialized(b: Seq<u8>) -> Seq<char>
    decreases b.len(),
{
    if b.len() == 0 {
        Seq::empty()
    } else {
        form_byte(b[0]) + form_serialized(b.drop_first())
    }
}

/// Relies on `url::form_urlencoded::byte_serialize`: bytes in `*-._`, digits
/// and ASCII letters are kept, a space becomes `+`, and every other byte
/// becomes `%` and two upper case hexadecimal digits.
#[verifier::external_body]
fn form_encode(t: &str) -> (r: String)
    ensures
        r@ == form_serialized(encode_utf8(t@)),
{
    url::form_urlencoded::byte_serialize(t.as_bytes()).collect()
}

/// Relies on `url::form_urlencoded::parse`: the decoded name/value pairs, in
/// order; an empty input has none.
#[verifier::external_body]
fn form_parse(t: &str) -> (r: Vec<(String, String)>)
    ensures
        r@.len() == form_decoded_pairs(encode_utf8(t@)).len(),
        forall|i: int|
            0 <= i < r@.len() ==> (#[trigger] r@[i]).0@ == form_decoded_pairs(encode_utf8(t@))[i].0
                && r@[i].1@ == form_decoded_pairs(encode_utf8(t@))[i].1,
        t@.len() == 0 ==> r@.len() == 0,
{
    url::form_urlencoded::parse(t.as_bytes()).into_owned().collect()
}

/// Each name followed by its value, all pairs joined.
pub open spec fn joined_pairs(p: Seq<(Seq<char>, Seq<char>)>) -> Seq<char>
    decreases p.len(),
{
    if p.len() == 0 {
        Seq::empty()
    } else {
        joined_pairs(p.drop_last()) + p.last().0 + p.last().1
    }
}

/// The form decoding of a text: its pairs, each name followed by its value.
pub open spec fn form_text(t: Seq<char>) -> Seq<char> {
    joined_pairs(form_decoded_pairs(encode_utf8(t)))
}

/// The form decoding of a text.
fn form_decode(t: &str) -> (r: String)
    ensures
        r@ == form_text(t@),
{
    let pairs = form_parse(t);
    let ghost spec_pairs = form_decoded_pairs(encode_utf8(t@));
    let mut out = String::new();
    let mut i: usize = 0;
    while i < pairs.len()
        invariant
            i <= pairs@.len(),
            pairs@.len() == spec_pairs.len(),
            forall|j: int|
                0 <= j < pairs@.len() ==> (#[trigger] pairs@[j]).0@ == spec_pairs[j].0 && pairs@[j].1@
                    == spec_pairs[j].1,
            out@ == joined_pairs(spec_pairs.take(i as int)),
        decreases pairs@.len() - i,
    {
        out.append(pairs[i].0.as_str());
        out.append(pairs[i].1.as_str());
        proof {
            let t1 = spec_pairs.take(i + 1);
            assert(t1.drop_last() =~= spec_pairs.take(i as int));
            assert(t1.last() == spec_pairs[i as int]);
        }
        i = i + 1;
    }
    assert(spec_pairs.take(i as int) =~= spec_pairs);
    out
}

/// The fields of a provisioning URI.
pub struct UriFields {
    pub name: Seq<char>,
    pub key_type: KeyType,
    pub secret: Seq<char>,
    pub algorithm: HMACType,
    pub digits: u8,
    pub counter: Option<u64>,
    pub period: Option<u64>,
    pub issuer: Option<Seq<char>>,
}

/// The fields of a URI before anything is read into them.
pub open spec fn default_fields() -> UriFields {
    UriFields {
        name: Seq::empty(),
        key_type: KeyType::TOTP,
        secret: Seq::empty(),
        algorithm: HMACType::SHA1,
        digits: 0,
        counter: None,
        period: None,
        issuer: None,
    }
}

/// The parameters of a key as carried by an `otpauth://` provisioning URI.
/// `counter` is meaningful for HOTP keys and `period` for TOTP keys; a
/// `digits` of zero means that none was given.
#[derive(Debug, Clone)]
pub struct URI {
    pub name: String,
    pub key_type: KeyType,
    pub secret: String,
    pub algorithm: HMACType,
    pub digits: u8,
    pub counter: Option<u64>,
    pub period: Option<u64>,
    pub issuer: Option<String>,
}

impl View for URI {
    type V = UriFields;

    open spec fn view(&self) -> UriFields {
        UriFields {
            name: self.name@,
            key_type: self.key_type,
            secret: self.secret@,
            algorithm: self.algorithm,
            digits: self.digits,
            counter: self.counter,
            period: self.period,
            issuer: match self.issuer {
                Some(s) => Some(s@),
                None => None,
            },
        }
    }
}

impl Default for URI {
    fn default() -> (r: URI)
        ensures
            r@ == default_fields(),
    {
        URI {
            name: String::new(),
            key_type: KeyType::TOTP,
            secret: String::new(),
            algorithm: HMACType::SHA1,
            digits: 0,
            counter: None,
            period: None,
            issuer: None,
        }
    }
}

/// The canonical text of a provisioning URI: the label and the issuer are
/// form encoded; the fields come in the order secret, algorithm, digits,
/// counter, period, issuer, each optional one only when present.
pub open spec fn uri_text(u: UriFields) -> Seq<char> {
    "otpauth://"@ + u.key_type.name() + "/"@ + form_serialized(encode_utf8(u.name)) + "?secret="@
        + u.secret + "&algorithm="@ + u.algorithm.uri_name() + "&digits="@ + decimal(
        u.digits as nat,
    ) + match u.counter {
        Some(c) => "&counter="@ + decimal(c as nat),
        None => Seq::empty(),
    } + match u.period {
        Some(p) => "&period="@ + decimal(p as nat),
        None => Seq::empty(),
    } + match u.issuer {
        Some(i) => "&issuer="@ + form_serialized(encode_utf8(i)),
        None => Seq::empty(),
    }
}

/// The fields read from the query of a provisioning URI.
#[derive(Debug, Clone, Copy, PartialEq, Eq, Structural)]
pub enum UriField {
    Secret,
    Algorithm,
    Digits,
    Period,
    Counter,
    Issuer,
}

impl UriField {
    /// The key of the field followed by `=`.
    pub open spec fn key(self) -> Seq<char> {
        match self {
            UriField::Secret => seq!['s', 'e', 'c', 'r', 'e', 't', '='],
            UriField::Algorithm => seq!['a', 'l', 'g', 'o', 'r', 'i', 't', 'h', 'm', '='],
            UriField::Digits => seq!['d', 'i', 'g', 'i', 't', 's', '='],
            UriField::Period => seq!['p', 'e', 'r', 'i', 'o', 'd', '='],
            UriField::Counter => seq!['c', 'o', 'u', 'n', 't', 'e', 'r', '='],
            UriField::Issuer => seq!['i', 's', 's', 'u', 'e', 'r', '='],
        }
    }
}

impl UriField {
    /// The length of the key of the field with its `=`.
    pub open spec fn key_length(self) -> nat {
        match self {
            UriField::Secret => 7,
            UriField::Algorithm => 10,
            UriField::Digits => 7,
            UriField::Period => 7,
            UriField::Counter => 8,
            UriField::Issuer => 7,
        }
    }
}

/// The field whose key (with its `=`) occurs in `s` at position `i`, if any.
pub open spec fn field_at(s: Seq<char>, i: int) -> Option<UriField> {
    if has_at(s, i, UriField::Secret.key()) {
        Some(UriField::Secret)
    } else if has_at(s, i, UriField::Algorithm.key()) {
        Some(UriField::Algorithm)
    } else if has_at(s, i, UriField::Digits.key()) {
        Some(UriField::Digits)
    } else if has_at(s, i, UriField::Period.key()) {
        Some(UriField::Period)
    } else if has_at(s, i, UriField::Counter.key()) {
        Some(UriField::Counter)
    } else if has_at(s, i, UriField::Issuer.key()) {
        Some(UriField::Issuer)
    } else {
        None
    }
}

/// The number of characters of a field value from position `j`: up to white
/// space, an `&` or the end.
pub open spec fn value_len(s: Seq<char>, j: int) -> nat
    decreases s.len() - j,
{
    if j < 0 || j >= s.len() || is_space(s[j]) || s[j] == '&' {
        0
    } else {
        1 + value_len(s, j + 1)
    }
}

/// A value ends within the text.
pub proof fn lemma_value_len_bound(s: Seq<char>, j: int)
    requires
        0 <= j <= s.len(),
    ensures
        j + value_len(s, j) <= s.len(),
    decreases s.len() - j,
{
    if j < s.len() && !is_space(s[j]) && s[j] != '&' {
        lemma_value_len_bound(s, j + 1);
    }
}

/// A key found in a text lies within it.
pub proof fn lemma_field_at_fits(s: Seq<char>, i: int)
    ensures
        field_at(s, i) matches Some(f) ==> f.key().len() == f.key_length() && 0 <= i && i
            + f.key_length() <= s.len(),
{
    assert(UriField::Secret.key().len() == 7);
    assert(UriField::Algorithm.key().len() == 10);
    assert(UriField::Digits.key().len() == 7);
    assert(UriField::Period.key().len() == 7);
    assert(UriField::Counter.key().len() == 8);
    assert(UriField::Issuer.key().len() == 7);
}

/// The fields of a text from position `i` on, found left to right without
/// overlap: a key of a field and `=`, then the value up to white space, `&`
/// or the end.
pub open spec fn scan_fields(s: Seq<char>, i: int) -> Seq<(UriField, Seq<char>)>
    decreases s.len() - i,
{
    if i < 0 || i >= s.len() {
        Seq::empty()
    } else {
        match field_at(s, i) {
            Some(f) => {
                let j = i + f.key_length();
                let e = j + value_len(s, j);
                proof {
                    lemma_field_at_fits(s, i);
                    lemma_value_len_bound(s, j);
                }
                seq![(f, s.subrange(j, e))] + scan_fields(s, e)
            },
            None => scan_fields(s, i + 1),
        }
    }
}

/// One field read into the URI fields: the value is everything after the
/// key's `=` (padding `=` included).  A digit count, counter or period that
/// does not read as a number is ignored.
pub open spec fn apply_field(u: UriFields, f: (UriField, Seq<char>)) -> UriFields {
    let v = f.1;
    match f.0 {
        UriField::Secret => UriFields { secret: v, ..u },
        UriField::Algorithm => UriFields { algorithm: HMACType::named(v), ..u },
        UriField::Digits => match parse_number(v, 255) {
            Some(d) => UriFields { digits: d as u8, ..u },
            None => u,
        },
        UriField::Period => match parse_number(v, u64::MAX as nat) {
            Some(p) => UriFields { period: Some(p as u64), ..u },
            None => u,
        },
        UriField::Counter => match parse_number(v, u64::MAX as nat) {
            Some(c) => UriFields { counter: Some(c as u64), ..u },
            None => u,
        },
        UriField::Issuer => UriFields { issuer: Some(form_text(v)), ..u },
    }
}

/// The fields read in order, later ones overriding earlier ones.
pub open spec fn apply_fields(u: UriFields, fs: Seq<(UriField, Seq<char>)>) -> UriFields
    decreases fs.len(),
{
    if fs.len() == 0 {
        u
    } else {
        apply_fields(apply_field(u, fs[0]), fs.drop_first())
    }
}

/// The scheme prefix of a provisioning URI.
pub open spec fn scheme() -> Seq<char> {
    seq!['o', 't', 'p', 'a', 'u', 't', 'h', ':', '/', '/']
}

/// The text with every occurrence of the scheme removed, left to right.
pub open spec fn strip_scheme(s: Seq<char>) -> Seq<char>
    decreases s.len(),
{
    if s.len() == 0 {
        s
    } else if has_at(s, 0, scheme()) {
        strip_scheme(s.subrange(10, s.len() as int))
    } else {
        seq![s[0]] + strip_scheme(s.drop_first())
    }
}

/// The label of the path segment after the type: empty where the segment
/// starts with `?`, else the form decoding of what precedes its first `?`.
pub open spec fn label_of(seg: Seq<char>) -> Seq<char> {
    if seg.len() > 0 && seg[0] == '?' {
        Seq::empty()
    } else {
        form_text(seg.take(find_char(seg, '?') as int))
    }
}

/// The fields of a provisioning URI text.  With every `otpauth://` removed,
/// the text before the first `/` names the type and the segment after it
/// holds the label; without a `/` nothing is read.  The query fields are then
/// scanned in the whole text.
pub open spec fn parse_uri(s: Seq<char>) -> UriFields {
    let p = strip_scheme(s);
    let k = find_char(p, '/') as int;
    if k >= p.len() {
        default_fields()
    } else {
        let rest = p.subrange(k + 1, p.len() as int);
        let seg = rest.take(find_char(rest, '/') as int);
        apply_fields(
            UriFields { name: label_of(seg), key_type: KeyType::named(p.take(k)), ..default_fields() },
            scan_fields(s, 0),
        )
    }
}

fn strip_scheme_chars(v: &Vec<char>) -> (r: Vec<char>)
    ensures
        r@ == strip_scheme(v@),
{
    let scheme_chars: [char; 10] = ['o', 't', 'p', 'a', 'u', 't', 'h', ':', '/', '/'];
    assert(scheme_chars@ =~= scheme());
    let mut out: Vec<char> = Vec::new();
    let mut i: usize = 0;
    assert(v@.subrange(0, v@.len() as int) =~= v@);
    assert(out@ + v@ =~= v@);
    while i < v.len()
        invariant
            i <= v@.len(),
            scheme_chars@ == scheme(),
            strip_scheme(v@) == out@ + strip_scheme(v@.subrange(i as int, v@.len() as int)),
        decreases v@.len() - i,
    {
        let ghost t = v@.subrange(i as int, v@.len() as int);
        if matches_at(v, i, scheme_chars.as_slice()) {
            assert(t.subrange(0, 10) =~= v@.subrange(i as int, i + 10));
            assert(t.subrange(10, t.len() as int) =~= v@.subrange(i + 10, v@.len() as int));
            i = i + 10;
        } else {
            proof {
                if t.len() >= 10 {
                    assert(t.subrange(0, 10) =~= v@.subrange(i as int, i + 10));
                }
            }
            assert(t.drop_first() =~= v@.subrange(i + 1, v@.len() as int));
            assert(out@ + strip_scheme(t) =~= out@.push(v@[i as int]) + strip_scheme(t.drop_first()));
            out.push(v[i]);
            i = i + 1;
        }
    }
    assert(v@.subrange(i as int, v@.len() as int) =~= Seq::<char>::empty());
    assert(out@ + Seq::<char>::empty() =~= out@);
    out
}

fn field_at_chars(v: &Vec<char>, i: usize) -> (r: Option<UriField>)
    ensures
        r == field_at(v@, i as int),
{
    let secret: [char; 7] = ['s', 'e', 'c', 'r', 'e', 't', '='];
    let algorithm: [char; 10] = ['a', 'l', 'g', 'o', 'r', 'i', 't', 'h', 'm', '='];
    let digits: [char; 7] = ['d', 'i', 'g', 'i', 't', 's', '='];
    let period: [char; 7] = ['p', 'e', 'r', 'i', 'o', 'd', '='];
    let counter: [char; 8] = ['c', 'o', 'u', 'n', 't', 'e', 'r', '='];
    let issuer: [char; 7] = ['i', 's', 's', 'u', 'e', 'r', '='];
    assert(secret@ =~= UriField::Secret.key());
    assert(algorithm@ =~= UriField::Algorithm.key());
    assert(digits@ =~= UriField::Digits.key());
    assert(period@ =~= UriField::Period.key());
    assert(counter@ =~= UriField::Counter.key());
    assert(issuer@ =~= UriField::Issuer.key());
    if matches_at(v, i, secret.as_slice()) {
        Some(UriField::Secret)
    } else if matches_at(v, i, algorithm.as_slice()) {
        Some(UriField::Algorithm)
    } else if matches_at(v, i, digits.as_slice()) {
        Some(UriField::Digits)
    } else if matches_at(v, i, period.as_slice()) {
        Some(UriField::Period)
    } else if matches_at(v, i, counter.as_slice()) {
        Some(UriField::Counter)
    } else if matches_at(v, i, issuer.as_slice()) {
        Some(UriField::Issuer)
    } else {
        None
    }
}

fn key_len(f: UriField) -> (r: usize)
    ensures
        r == f.key_length(),
        r == f.key().len(),
{
    match f {
        UriField::Secret => 7,
        UriField::Algorithm => 10,
        UriField::Digits => 7,
        UriField::Period => 7,
        UriField::Counter => 8,
        UriField::Issuer => 7,
    }
}

fn value_end(v: &Vec<char>, j: usize) -> (r: usize)
    requires
        j <= v@.len(),
    ensures
        r == j + value_len(v@, j as int),
        r <= v@.len(),
{
    let mut e: usize = j;
    while e < v.len() && !is_space_char(v[e]) && v[e] != '&'
        invariant
            j <= e <= v@.len(),
            value_len(v@, j as int) == (e - j) + value_len(v@, e as int),
        decreases v@.len() - e,
    {
        e = e + 1;
    }
    e
}

fn apply_field_to(u: &mut URI, f: UriField, v: &Vec<char>)
    ensures
        final(u)@ == apply_field(old(u)@, (f, v@)),
{
    match f {
        UriField::Secret => {
            u.secret = string_of(v);
        },
        UriField::Algorithm => {
            let s = string_of(v);
            u.algorithm = HMACType::from_name(s.as_str());
        },
        UriField::Digits => {
            match parse_unsigned(v, 255) {
                Some(d) => {
                    u.digits = d as u8;
                },
                None => {},
            }
        },
        UriField::Period => {
            match parse_unsigned(v, u64::MAX) {
                Some(p) => {
                    u.period = Some(p);
                },
                None => {},
            }
        },
        UriField::Counter => {
            match parse_unsigned(v, u64::MAX) {
                Some(c) => {
                    u.counter = Some(c);
                },
                None => {},
            }
        },
        UriField::Issuer => {
            let s = string_of(v);
            u.issuer = Some(form_decode(s.as_str()));
        },
    }
}

impl URI {
    /// Reads a provisioning URI.  Reading never fails: what cannot be read
    /// keeps its default (see `parse_uri`).
    pub fn new_from_uri(value: String) -> (r: URI)
        ensures
            r@ == parse_uri(value@),
    {
        URI::from_text(value.as_str())
    }

    /// Reads a provisioning URI.  Reading never fails: what cannot be read
    /// keeps its default (see `parse_uri`).
    pub fn from_text(value: &str) -> (r: URI)
        ensures
            r@ == parse_uri(value@),
    {
        let v = chars_of(value);
        let p = strip_scheme_chars(&v);
        let k = find_char_in(&p, '/');
        if k >= p.len() {
            return URI::default();
        }
        let kind = string_of(&sub_chars(&p, 0, k));
        let rest = sub_chars(&p, k + 1, p.len());
        let k2 = find_char_in(&rest, '/');
        let seg = sub_chars(&rest, 0, k2);
        let name = if seg.len() > 0 && seg[0] == '?' {
            String::new()
        } else {
            let q = find_char_in(&seg, '?');
            let label = string_of(&sub_chars(&seg, 0, q));
            form_decode(label.as_str())
        };
        let mut u = URI::default();
        u.name = name;
        u.key_type = KeyType::from_name(kind.as_str());
        let ghost start = u@;
        let mut i: usize = 0;
        while i < v.len()
            invariant
                i <= v@.len(),
                apply_fields(start, scan_fields(v@, 0)) == apply_fields(u@, scan_fields(v@, i as int)),
            decreases v@.len() - i,
        {
            match field_at_chars(&v, i) {
                Some(f) => {
                    let j = i + key_len(f);
                    let e = value_end(&v, j);
                    let val = sub_chars(&v, j, e);
                    apply_field_to(&mut u, f, &val);
                    proof {
                        let fs = scan_fields(v@, i as int);
                        assert(fs == seq![(f, val@)] + scan_fields(v@, e as int));
                        assert(fs[0] == (f, val@));
                        assert(fs.drop_first() =~= scan_fields(v@, e as int));
                    }
                    i = e;
                },
                None => {
                    i = i + 1;
                },
            }
        }
        assert(scan_fields(v@, i as int) == Seq::<(UriField, Seq<char>)>::empty());
        u
    }

    /// The canonical provisioning URI text (see `uri_text`).
    pub fn to_uri_string(&self) -> (r: String)
        ensures
            r@ == uri_text(self@),
    {
        let mut s = String::from_str("otpauth://");
        s.append(self.key_type.to_str());
        s.append("/");
        let label = form_encode(self.name.as_str());
        s.append(label.as_str());
        s.append("?secret=");
        s.append(self.secret.as_str());
        s.append("&algorithm=");
        s.append(self.algorithm.get_uri_name());
        s.append("&digits=");
        let d = decimal_text(self.digits as u64);
        s.append(d.as_str());
        match self.counter {
            Some(c) => {
                s.append("&counter=");
                let t = decimal_text(c);
                s.append(t.as_str());
            },
            None => {},
        }
        match self.period {
            Some(p) => {
                s.append("&period=");
                let t = decimal_text(p);
                s.append(t.as_str());
            },
            None => {},
        }
        match &self.issuer {
            Some(i) => {
                s.append("&issuer=");
                let t = form_encode(i.as_str());
                s.append(t.as_str());
            },
            None => {},
        }
        assert(s@ =~= uri_text(self@));
        s
    }
}

} // verus!
