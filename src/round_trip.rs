//! Reading back the canonical text of a provisioning URI.
use vstd::prelude::*;
use vstd::utf8::encode_utf8;

use crate::decimal::{decimal, lemma_decimal_reads_back};
use crate::hmac_type::HMACType;
use crate::otp::is_digit;
use crate::text::{find_char, has_at, is_space, lemma_find_char, lemma_find_char_at, lower};
use crate::uri::{
    apply_field, apply_fields, default_fields, field_at, form_byte, form_serialized, form_text,
    hex_upper, label_of, lemma_field_at_fits, lemma_value_len_bound, parse_uri, scan_fields,
    scheme, strip_scheme, uri_text, value_len, UriField, UriFields,
};
use crate::KeyType;

verus! {

/// A character that form encoding can produce.
pub open spec fn form_char(c: char) -> bool {
    ('0' <= c && c <= '9') || ('A' <= c && c <= 'Z') || ('a' <= c && c <= 'z') || c == '*' || c
        == '-' || c == '.' || c == '_' || c == '+' || c == '%'
}

/// A character that can stand in a field value read back unchanged.
pub open spec fn value_char(c: char) -> bool {
    !is_space(c) && c != '&'
}

/// Whether every character of a text can stand in a field value.
pub open spec fn plain_value(v: Seq<char>) -> bool {
    forall|i: int| 0 <= i < v.len() ==> value_char(#[trigger] v[i])
}

/// The label read back from the canonical text: the form decoding of its
/// form encoding, and empty where that encoding is empty.
pub open spec fn label_round(t: Seq<char>) -> Seq<char> {
    let e = form_serialized(encode_utf8(t));
    if e.len() == 0 {
        Seq::empty()
    } else {
        form_text(e)
    }
}

/// The issuer read back from the canonical text: the form decoding of its
/// form encoding.
pub open spec fn issuer_round(i: Option<Seq<char>>) -> Option<Seq<char>> {
    match i {
        Some(t) => Some(form_text(form_serialized(encode_utf8(t)))),
        None => None,
    }
}

proof fn lemma_form_byte_chars(b: u8)
    ensures
        forall|i: int| 0 <= i < form_byte(b).len() ==> form_char(#[trigger] form_byte(b)[i]),
{
    let hi = (b / 16) as nat;
    let lo = (b % 16) as nat;
    assert(form_char(hex_upper(hi))) by {
        if hi < 10 {
            assert(((48 + hi) as u8) as char == hex_upper(hi));
        } else {
            assert(((55 + hi) as u8) as char == hex_upper(hi));
        }
    }
    assert(form_char(hex_upper(lo))) by {
        if lo < 10 {
            assert(((48 + lo) as u8) as char == hex_upper(lo));
        } else {
            assert(((55 + lo) as u8) as char == hex_upper(lo));
        }
    }
}

/// Form encoding produces only letters, digits, `*-._`, `+` and `%`.
pub proof fn lemma_form_serialized_chars(b: Seq<u8>)
    ensures
        forall|i: int|
            0 <= i < form_serialized(b).len() ==> form_char(#[trigger] form_serialized(b)[i]),
    decreases b.len(),
{
    if b.len() > 0 {
        lemma_form_byte_chars(b[0]);
        lemma_form_serialized_chars(b.drop_first());
        let f = form_byte(b[0]);
        let r = form_serialized(b.drop_first());
        assert forall|i: int| 0 <= i < form_serialized(b).len() implies form_char(
            #[trigger] form_serialized(b)[i],
        ) by {
            if i < f.len() {
                assert(form_serialized(b)[i] == f[i]);
            } else {
                assert(form_serialized(b)[i] == r[i - f.len()]);
            }
        }
    }
}

/// No occurrence of `w` starts inside `p` when the `m`-th character of `w`
/// never appears in `p` and the last character of `p` is none of the
/// characters of `w` before it.
proof fn lemma_no_occurrence(p: Seq<char>, q: Seq<char>, w: Seq<char>, m: int, k: int)
    requires
        0 <= k < p.len(),
        0 <= m < w.len(),
        !p.contains(w[m]),
        forall|i: int| 0 <= i < m ==> w[i] != p.last(),
    ensures
        !has_at(p + q, k, w),
{
    let s = p + q;
    if has_at(s, k, w) {
        assert(s.subrange(k, k + w.len())[m] == w[m]);
        if k + m < p.len() {
            assert(p[k + m] == w[m]);
        } else {
            let i = p.len() - 1 - k;
            assert(s.subrange(k, k + w.len())[i] == w[i]);
            assert(s[k + i] == p.last());
        }
    }
}

proof fn lemma_has_at_shift(x: Seq<char>, y: Seq<char>, i: int, w: Seq<char>)
    requires
        0 <= i,
    ensures
        has_at(x + y, x.len() + i, w) == has_at(y, i, w),
{
    if i + w.len() <= y.len() {
        assert((x + y).subrange(x.len() + i, x.len() + i + w.len()) =~= y.subrange(i, i + w.len()));
    }
}

proof fn lemma_field_at_shift(x: Seq<char>, y: Seq<char>, i: int)
    requires
        0 <= i,
    ensures
        field_at(x + y, x.len() + i) == field_at(y, i),
{
    lemma_has_at_shift(x, y, i, UriField::Secret.key());
    lemma_has_at_shift(x, y, i, UriField::Algorithm.key());
    lemma_has_at_shift(x, y, i, UriField::Digits.key());
    lemma_has_at_shift(x, y, i, UriField::Period.key());
    lemma_has_at_shift(x, y, i, UriField::Counter.key());
    lemma_has_at_shift(x, y, i, UriField::Issuer.key());
}

proof fn lemma_value_len_shift(x: Seq<char>, y: Seq<char>, j: int)
    requires
        0 <= j,
    ensures
        value_len(x + y, x.len() + j) == value_len(y, j),
    decreases y.len() - j,
{
    if j < y.len() {
        assert((x + y)[x.len() + j] == y[j]);
        lemma_value_len_shift(x, y, j + 1);
    }
}

/// Scanning from inside the second part of a text is scanning that part.
proof fn lemma_scan_shift(x: Seq<char>, y: Seq<char>, i: int)
    requires
        0 <= i,
    ensures
        scan_fields(x + y, x.len() + i) == scan_fields(y, i),
    decreases y.len() - i,
{
    if i < y.len() {
        lemma_field_at_shift(x, y, i);
        lemma_field_at_fits(y, i);
        if let Some(f) = field_at(y, i) {
            let j = i + f.key_length();
            lemma_value_len_shift(x, y, j);
            lemma_value_len_bound(y, j);
            let e = j + value_len(y, j);
            assert((x + y).subrange(x.len() + j, x.len() + e) =~= y.subrange(j, e));
            lemma_scan_shift(x, y, e);
        } else {
            lemma_scan_shift(x, y, i + 1);
        }
    }
}

/// Positions where no field starts are passed over.
proof fn lemma_scan_skip(s: Seq<char>, i: int, j: int)
    requires
        0 <= i <= j <= s.len(),
        forall|k: int| i <= k < j ==> field_at(s, k) is None,
    ensures
        scan_fields(s, i) == scan_fields(s, j),
    decreases j - i,
{
    if i < j {
        lemma_scan_skip(s, i + 1, j);
    }
}

proof fn lemma_key_shape(f: UriField)
    ensures
        f.key().len() == f.key_length(),
        f.key()[f.key_length() - 1] == '=',
        forall|i: int| 0 <= i < f.key_length() - 1 ==> 'a' <= #[trigger] f.key()[i] <= 'z',
{
    lemma_field_at_fits(f.key(), 0);
    match f {
        UriField::Secret => assert(f.key() =~= seq!['s', 'e', 'c', 'r', 'e', 't', '=']),
        UriField::Algorithm => assert(f.key() =~= seq!['a', 'l', 'g', 'o', 'r', 'i', 't', 'h', 'm', '=']),
        UriField::Digits => assert(f.key() =~= seq!['d', 'i', 'g', 'i', 't', 's', '=']),
        UriField::Period => assert(f.key() =~= seq!['p', 'e', 'r', 'i', 'o', 'd', '=']),
        UriField::Counter => assert(f.key() =~= seq!['c', 'o', 'u', 'n', 't', 'e', 'r', '=']),
        UriField::Issuer => assert(f.key() =~= seq!['i', 's', 's', 'u', 'e', 'r', '=']),
    }
}

/// No field starts inside a prefix without `=` that ends in a character
/// other than a lower case letter.
proof fn lemma_no_field_in_prefix(p: Seq<char>, q: Seq<char>, k: int)
    requires
        0 <= k < p.len(),
        !p.contains('='),
        !('a' <= p.last() <= 'z'),
    ensures
        field_at(p + q, k) is None,
{
    let fs = seq![
        UriField::Secret,
        UriField::Algorithm,
        UriField::Digits,
        UriField::Period,
        UriField::Counter,
        UriField::Issuer,
    ];
    assert forall|n: int| 0 <= n < 6 implies !has_at(p + q, k, (#[trigger] fs[n]).key()) by {
        let f = fs[n];
        lemma_key_shape(f);
        lemma_no_occurrence(p, q, f.key(), f.key_length() - 1, k);
    }
    assert(fs[0] == UriField::Secret);
    assert(fs[1] == UriField::Algorithm);
    assert(fs[2] == UriField::Digits);
    assert(fs[3] == UriField::Period);
    assert(fs[4] == UriField::Counter);
    assert(fs[5] == UriField::Issuer);
}

proof fn lemma_field_at_first_char(s: Seq<char>, f: UriField)
    requires
        s.len() > 0,
        s[0] == f.key()[0] || !(s[0] == 's' || s[0] == 'a' || s[0] == 'd' || s[0] == 'p' || s[0]
            == 'c' || s[0] == 'i'),
        has_at(s, 0, f.key()) || !(s[0] == 's' || s[0] == 'a' || s[0] == 'd' || s[0] == 'p' || s[0]
            == 'c' || s[0] == 'i'),
    ensures
        (s[0] == 's' || s[0] == 'a' || s[0] == 'd' || s[0] == 'p' || s[0] == 'c' || s[0] == 'i')
            ==> field_at(s, 0) == Some(f),
        !(s[0] == 's' || s[0] == 'a' || s[0] == 'd' || s[0] == 'p' || s[0] == 'c' || s[0] == 'i')
            ==> field_at(s, 0) is None,
{
    let fs = seq![
        UriField::Secret,
        UriField::Algorithm,
        UriField::Digits,
        UriField::Period,
        UriField::Counter,
        UriField::Issuer,
    ];
    assert forall|n: int| 0 <= n < 6 && has_at(s, 0, (#[trigger] fs[n]).key()) implies s[0]
        == fs[n].key()[0] by {
        lemma_key_shape(fs[n]);
        assert(s.subrange(0, fs[n].key().len() as int)[0] == s[0]);
    }
    lemma_key_shape(f);
    assert(fs[0] == UriField::Secret);
    assert(fs[1] == UriField::Algorithm);
    assert(fs[2] == UriField::Digits);
    assert(fs[3] == UriField::Period);
    assert(fs[4] == UriField::Counter);
    assert(fs[5] == UriField::Issuer);
}

proof fn lemma_value_len_exact(s: Seq<char>, j: int, m: int)
    requires
        0 <= j <= m <= s.len(),
        forall|x: int| j <= x < m ==> !is_space(#[trigger] s[x]) && s[x] != '&',
        m == s.len() || s[m] == '&',
    ensures
        value_len(s, j) == m - j,
    decreases m - j,
{
    if j < m {
        lemma_value_len_exact(s, j + 1, m);
    }
}

/// A key, a value without white space or `&`, and then either nothing or an
/// `&`: the scan finds that one field and goes on after the value.
proof fn lemma_scan_field(f: UriField, v: Seq<char>, rest: Seq<char>)
    requires
        forall|x: int| 0 <= x < v.len() ==> !is_space(#[trigger] v[x]) && v[x] != '&',
        rest.len() == 0 || rest[0] == '&',
    ensures
        scan_fields(f.key() + v + rest, 0) == seq![(f, v)] + scan_fields(rest, 0),
{
    let s = f.key() + v + rest;
    lemma_key_shape(f);
    let l = f.key_length() as int;
    assert(s.subrange(0, l) =~= f.key());
    assert(s[0] == f.key()[0]);
    lemma_field_at_first_char(s, f);
    assert(f.key()[0] == 's' || f.key()[0] == 'a' || f.key()[0] == 'd' || f.key()[0] == 'p'
        || f.key()[0] == 'c' || f.key()[0] == 'i') by {
        match f {
            UriField::Secret => assert(f.key()[0] == 's'),
            UriField::Algorithm => assert(f.key()[0] == 'a'),
            UriField::Digits => assert(f.key()[0] == 'd'),
            UriField::Period => assert(f.key()[0] == 'p'),
            UriField::Counter => assert(f.key()[0] == 'c'),
            UriField::Issuer => assert(f.key()[0] == 'i'),
        }
    }
    assert forall|x: int| l <= x < l + v.len() implies !is_space(#[trigger] s[x]) && s[x] != '&' by {
        assert(s[x] == v[x - l]);
    }
    if rest.len() > 0 {
        assert(s[l + v.len()] == rest[0]);
    }
    lemma_value_len_exact(s, l, l + v.len());
    assert(s.subrange(l, l + v.len()) =~= v);
    lemma_scan_shift(f.key() + v, rest, 0);
}

/// An `&` where no field starts is passed over.
proof fn lemma_scan_amp(rest: Seq<char>)
    ensures
        scan_fields(seq!['&'] + rest, 0) == scan_fields(rest, 0),
{
    let s = seq!['&'] + rest;
    assert(s[0] == '&');
    lemma_field_at_first_char(s, UriField::Secret);
    lemma_scan_shift(seq!['&'], rest, 0);
}

/// The optional part of the canonical text for a numeric field.
pub open spec fn number_part(f: UriField, n: Option<u64>) -> Seq<char> {
    match n {
        Some(c) => seq!['&'] + f.key() + decimal(c as nat),
        None => Seq::empty(),
    }
}

/// The optional part of the canonical text for the issuer.
pub open spec fn issuer_part(i: Option<Seq<char>>) -> Seq<char> {
    match i {
        Some(t) => seq!['&'] + UriField::Issuer.key() + form_serialized(encode_utf8(t)),
        None => Seq::empty(),
    }
}

/// The fields that the optional parts contribute.
pub open spec fn optional_fields(u: UriFields) -> Seq<(UriField, Seq<char>)> {
    (match u.counter {
        Some(c) => seq![(UriField::Counter, decimal(c as nat))],
        None => Seq::empty(),
    }) + (match u.period {
        Some(p) => seq![(UriField::Period, decimal(p as nat))],
        None => Seq::empty(),
    }) + (match u.issuer {
        Some(t) => seq![(UriField::Issuer, form_serialized(encode_utf8(t)))],
        None => Seq::empty(),
    })
}

proof fn lemma_digits_plain(n: nat)
    ensures
        forall|x: int| 0 <= x < decimal(n).len() ==> value_char(#[trigger] decimal(n)[x]) && 'a'
            <= decimal(n)[x] ==> false,
        forall|x: int| 0 <= x < decimal(n).len() ==> value_char(#[trigger] decimal(n)[x]),
{
    lemma_decimal_reads_back(n);
    assert forall|x: int| 0 <= x < decimal(n).len() implies value_char(#[trigger] decimal(n)[x])
        && !('a' <= decimal(n)[x]) by {
        assert(is_digit(decimal(n)[x]));
    }
}

proof fn lemma_form_plain(t: Seq<char>)
    ensures
        forall|x: int|
            0 <= x < form_serialized(encode_utf8(t)).len() ==> value_char(
                #[trigger] form_serialized(encode_utf8(t))[x],
            ),
{
    lemma_form_serialized_chars(encode_utf8(t));
}

proof fn lemma_scan_optional(u: UriFields)
    ensures
        scan_fields(number_part(UriField::Counter, u.counter) + number_part(UriField::Period, u.period)
            + issuer_part(u.issuer), 0) == optional_fields(u),
{
    let c = number_part(UriField::Counter, u.counter);
    let p = number_part(UriField::Period, u.period);
    let i = issuer_part(u.issuer);
    let ci = match u.counter {
        Some(x) => seq![(UriField::Counter, decimal(x as nat))],
        None => Seq::<(UriField, Seq<char>)>::empty(),
    };
    let pi = match u.period {
        Some(x) => seq![(UriField::Period, decimal(x as nat))],
        None => Seq::<(UriField, Seq<char>)>::empty(),
    };
    let ii = match u.issuer {
        Some(t) => seq![(UriField::Issuer, form_serialized(encode_utf8(t)))],
        None => Seq::<(UriField, Seq<char>)>::empty(),
    };
    // the issuer part
    match u.issuer {
        Some(t) => {
            let e = form_serialized(encode_utf8(t));
            lemma_form_plain(t);
            lemma_scan_field(UriField::Issuer, e, Seq::empty());
            assert(UriField::Issuer.key() + e + Seq::<char>::empty() =~= UriField::Issuer.key() + e);
            assert(scan_fields(Seq::<char>::empty(), 0) =~= Seq::<(UriField, Seq<char>)>::empty());
            lemma_scan_amp(UriField::Issuer.key() + e);
            assert(i =~= seq!['&'] + (UriField::Issuer.key() + e));
            assert(scan_fields(i, 0) =~= ii);
        },
        None => {
            assert(scan_fields(i, 0) =~= ii);
        },
    }
    // the period part
    match u.period {
        Some(x) => {
            let d = decimal(x as nat);
            lemma_digits_plain(x as nat);
            assert(i.len() == 0 || i[0] == '&');
            lemma_scan_field(UriField::Period, d, i);
            lemma_scan_amp(UriField::Period.key() + d + i);
            assert(p + i =~= seq!['&'] + (UriField::Period.key() + d + i));
            assert(scan_fields(p + i, 0) =~= pi + ii);
        },
        None => {
            assert(p + i =~= i);
            assert(scan_fields(p + i, 0) =~= pi + ii);
        },
    }
    // the counter part
    match u.counter {
        Some(x) => {
            let d = decimal(x as nat);
            lemma_digits_plain(x as nat);
            assert((p + i).len() == 0 || (p + i)[0] == '&');
            lemma_scan_field(UriField::Counter, d, p + i);
            lemma_scan_amp(UriField::Counter.key() + d + (p + i));
            assert(c + p + i =~= seq!['&'] + (UriField::Counter.key() + d + (p + i)));
            assert(scan_fields(c + p + i, 0) =~= ci + (pi + ii));
        },
        None => {
            assert(c + p + i =~= p + i);
            assert(scan_fields(c + p + i, 0) =~= ci + (pi + ii));
        },
    }
    assert(ci + (pi + ii) =~= optional_fields(u));
}

proof fn lemma_apply_append(
    u: UriFields,
    x: Seq<(UriField, Seq<char>)>,
    y: Seq<(UriField, Seq<char>)>,
)
    ensures
        apply_fields(u, x + y) == apply_fields(apply_fields(u, x), y),
    decreases x.len(),
{
    if x.len() > 0 {
        assert((x + y)[0] == x[0]);
        assert((x + y).drop_first() =~= x.drop_first() + y);
        lemma_apply_append(apply_field(u, x[0]), x.drop_first(), y);
    } else {
        assert(x + y =~= y);
    }
}

proof fn lemma_apply_one(u: UriFields, x: (UriField, Seq<char>))
    ensures
        apply_fields(u, seq![x]) == apply_field(u, x),
{
    assert(seq![x][0] == x);
    assert(seq![x].drop_first() =~= Seq::<(UriField, Seq<char>)>::empty());
    assert(apply_fields(apply_field(u, x), Seq::<(UriField, Seq<char>)>::empty()) == apply_field(
        u,
        x,
    ));
}

proof fn lemma_apply_optional(v: UriFields, u: UriFields)
    requires
        v.counter is None,
        v.period is None,
        v.issuer is None,
    ensures
        apply_fields(v, optional_fields(u)) == (UriFields {
            counter: u.counter,
            period: u.period,
            issuer: issuer_round(u.issuer),
            ..v
        }),
{
    let ci = match u.counter {
        Some(x) => seq![(UriField::Counter, decimal(x as nat))],
        None => Seq::<(UriField, Seq<char>)>::empty(),
    };
    let pi = match u.period {
        Some(x) => seq![(UriField::Period, decimal(x as nat))],
        None => Seq::<(UriField, Seq<char>)>::empty(),
    };
    let ii = match u.issuer {
        Some(t) => seq![(UriField::Issuer, form_serialized(encode_utf8(t)))],
        None => Seq::<(UriField, Seq<char>)>::empty(),
    };
    lemma_apply_append(v, ci + pi, ii);
    lemma_apply_append(v, ci, pi);
    let v1 = UriFields { counter: u.counter, ..v };
    match u.counter {
        Some(x) => {
            lemma_apply_one(v, (UriField::Counter, decimal(x as nat)));
            lemma_digits_plain(x as nat);
            lemma_decimal_reads_back(x as nat);
        },
        None => {},
    }
    assert(apply_fields(v, ci) == v1);
    let v2 = UriFields { period: u.period, ..v1 };
    match u.period {
        Some(x) => {
            lemma_apply_one(v1, (UriField::Period, decimal(x as nat)));
            lemma_digits_plain(x as nat);
            lemma_decimal_reads_back(x as nat);
        },
        None => {},
    }
    assert(apply_fields(v1, pi) == v2);
    match u.issuer {
        Some(t) => {
            lemma_apply_one(v2, (UriField::Issuer, form_serialized(encode_utf8(t))));
            lemma_form_plain(t);
        },
        None => {},
    }
}

proof fn lemma_strip_prefix(p: Seq<char>, q: Seq<char>)
    requires
        forall|k: int| 0 <= k < p.len() ==> !has_at(p + q, k, scheme()),
    ensures
        strip_scheme(p + q) == p + strip_scheme(q),
    decreases p.len(),
{
    let s = p + q;
    if p.len() > 0 {
        assert(!has_at(s, 0, scheme()));
        assert(s.drop_first() =~= p.drop_first() + q);
        assert(s =~= seq![s[0]] + s.drop_first());
        assert forall|k: int| 0 <= k < p.drop_first().len() implies !has_at(
            p.drop_first() + q,
            k,
            scheme(),
        ) by {
            lemma_has_at_shift(seq![s[0]], s.drop_first(), k, scheme());
            assert(!has_at(s, k + 1, scheme()));
        }
        lemma_strip_prefix(p.drop_first(), q);
        assert(seq![s[0]] + (p.drop_first() + strip_scheme(q)) =~= p + strip_scheme(q));
    } else {
        assert(s =~= q);
        assert(p + strip_scheme(q) =~= strip_scheme(q));
    }
}

proof fn lemma_lacks_concat(a: Seq<char>, b: Seq<char>, c: char)
    requires
        !a.contains(c),
        !b.contains(c),
    ensures
        !(a + b).contains(c),
{
    if (a + b).contains(c) {
        let x = choose|x: int| 0 <= x < (a + b).len() && (a + b)[x] == c;
        if x < a.len() {
            assert(a[x] == c);
        } else {
            assert(b[x - a.len()] == c);
        }
    }
}

proof fn lemma_form_lacks(t: Seq<char>, c: char)
    requires
        !form_char(c),
    ensures
        !form_serialized(encode_utf8(t)).contains(c),
{
    lemma_form_serialized_chars(encode_utf8(t));
    let n = form_serialized(encode_utf8(t));
    if n.contains(c) {
        let x = choose|x: int| 0 <= x < n.len() && n[x] == c;
        assert(form_char(n[x]));
    }
}

proof fn lemma_lower_letters(s: Seq<char>)
    requires
        forall|i: int| 0 <= i < s.len() ==> 'a' <= #[trigger] s[i] <= 'z',
    ensures
        lower(s) == s,
{
    assert(lower(s) =~= s);
}

proof fn lemma_type_name(k: KeyType)
    ensures
        KeyType::named(k.name()) == k,
        forall|i: int| 0 <= i < k.name().len() ==> 'a' <= #[trigger] k.name()[i] <= 'z',
        k.name().len() > 0,
{
    reveal_strlit("hotp");
    reveal_strlit("totp");
    reveal_strlit("steam");
    assert("hotp"@ =~= seq!['h', 'o', 't', 'p']);
    assert("totp"@ =~= seq!['t', 'o', 't', 'p']);
    assert("steam"@ =~= seq!['s', 't', 'e', 'a', 'm']);
    lemma_lower_letters(k.name());
    assert("totp"@[0] != "hotp"@[0]);
}

proof fn lemma_algorithm_name(a: HMACType)
    ensures
        HMACType::named(a.uri_name()) == a,
        forall|i: int| 0 <= i < a.uri_name().len() ==> value_char(#[trigger] a.uri_name()[i]),
{
    reveal_strlit("SHA1");
    reveal_strlit("SHA256");
    reveal_strlit("SHA512");
    reveal_strlit("sha256");
    reveal_strlit("sha512");
    assert(lower("SHA1"@) =~= seq!['s', 'h', 'a', '1']);
    assert(lower("SHA256"@) =~= "sha256"@);
    assert(lower("SHA512"@) =~= "sha512"@);
    assert("sha256"@[4] != "sha512"@[4]);
}

/// The path of the canonical text after the scheme: type, `/`, encoded
/// label, `?`.
pub open spec fn text_prefix(u: UriFields) -> Seq<char> {
    u.key_type.name() + seq!['/'] + form_serialized(encode_utf8(u.name)) + seq!['?']
}

/// The query of the canonical text.
pub open spec fn text_body(u: UriFields) -> Seq<char> {
    UriField::Secret.key() + u.secret + (seq!['&'] + UriField::Algorithm.key()
        + u.algorithm.uri_name() + (seq!['&'] + UriField::Digits.key() + decimal(u.digits as nat)
        + (number_part(UriField::Counter, u.counter) + number_part(UriField::Period, u.period)
        + issuer_part(u.issuer))))
}

proof fn lemma_concat_regroup(
    l1: Seq<char>,
    tn: Seq<char>,
    l2: Seq<char>,
    n: Seq<char>,
    q: Seq<char>,
    sk: Seq<char>,
    sec: Seq<char>,
    amp: Seq<char>,
    ak: Seq<char>,
    a: Seq<char>,
    dk: Seq<char>,
    d: Seq<char>,
    c: Seq<char>,
    p: Seq<char>,
    i: Seq<char>,
)
    ensures
        l1 + tn + l2 + n + (q + sk) + sec + (amp + ak) + a + (amp + dk) + d + c + p + i == l1 + (tn
            + l2 + n + q) + (sk + sec + (amp + ak + a + (amp + dk + d + (c + p + i)))),
{
    assert(l1 + tn + l2 + n + (q + sk) + sec + (amp + ak) + a + (amp + dk) + d + c + p + i =~= l1
        + (tn + l2 + n + q) + (sk + sec + (amp + ak + a + (amp + dk + d + (c + p + i)))));
}

proof fn lemma_text_shape(u: UriFields)
    ensures
        uri_text(u) == scheme() + text_prefix(u) + text_body(u),
{
    reveal_strlit("otpauth://");
    reveal_strlit("/");
    reveal_strlit("?secret=");
    reveal_strlit("&algorithm=");
    reveal_strlit("&digits=");
    reveal_strlit("&counter=");
    reveal_strlit("&period=");
    reveal_strlit("&issuer=");
    assert("otpauth://"@ =~= scheme());
    assert("/"@ =~= seq!['/']);
    assert("?secret="@ =~= seq!['?'] + UriField::Secret.key());
    assert("&algorithm="@ =~= seq!['&'] + UriField::Algorithm.key());
    assert("&digits="@ =~= seq!['&'] + UriField::Digits.key());
    assert("&counter="@ =~= seq!['&'] + UriField::Counter.key());
    assert("&period="@ =~= seq!['&'] + UriField::Period.key());
    assert("&issuer="@ =~= seq!['&'] + UriField::Issuer.key());
    let c = number_part(UriField::Counter, u.counter);
    let p = number_part(UriField::Period, u.period);
    let i = issuer_part(u.issuer);
    assert(c == match u.counter {
        Some(x) => "&counter="@ + decimal(x as nat),
        None => Seq::empty(),
    });
    assert(p == match u.period {
        Some(x) => "&period="@ + decimal(x as nat),
        None => Seq::empty(),
    });
    assert(i == match u.issuer {
        Some(x) => "&issuer="@ + form_serialized(encode_utf8(x)),
        None => Seq::empty(),
    });
    lemma_concat_regroup(
        scheme(),
        u.key_type.name(),
        seq!['/'],
        form_serialized(encode_utf8(u.name)),
        seq!['?'],
        UriField::Secret.key(),
        u.secret,
        seq!['&'],
        UriField::Algorithm.key(),
        u.algorithm.uri_name(),
        UriField::Digits.key(),
        decimal(u.digits as nat),
        c,
        p,
        i,
    );
}

proof fn lemma_prefix_chars(u: UriFields)
    ensures
        !text_prefix(u).contains(':'),
        !text_prefix(u).contains('='),
        !(scheme() + text_prefix(u)).contains('='),
        text_prefix(u).last() == '?',
        (scheme() + text_prefix(u)).last() == '?',
{
    let tn = u.key_type.name();
    let n = form_serialized(encode_utf8(u.name));
    lemma_type_name(u.key_type);
    assert(!tn.contains(':') && !tn.contains('=')) by {
        assert forall|i: int| 0 <= i < tn.len() implies tn[i] != ':' && tn[i] != '=' by {
            assert('a' <= tn[i] <= 'z');
        }
    }
    lemma_form_lacks(u.name, ':');
    lemma_form_lacks(u.name, '=');
    assert(!seq!['/'].contains(':') && !seq!['/'].contains('=') && !seq!['?'].contains(':')
        && !seq!['?'].contains('=')) by {
        assert(seq!['/'][0] == '/');
        assert(seq!['?'][0] == '?');
    }
    lemma_lacks_concat(tn, seq!['/'], ':');
    lemma_lacks_concat(tn + seq!['/'], n, ':');
    lemma_lacks_concat(tn + seq!['/'] + n, seq!['?'], ':');
    lemma_lacks_concat(tn, seq!['/'], '=');
    lemma_lacks_concat(tn + seq!['/'], n, '=');
    lemma_lacks_concat(tn + seq!['/'] + n, seq!['?'], '=');
    assert(!scheme().contains('=')) by {
        assert forall|i: int| 0 <= i < scheme().len() implies scheme()[i] != '=' by {}
    }
    lemma_lacks_concat(scheme(), text_prefix(u), '=');
}

/// The type and the label are read back from the path of the canonical text.
proof fn lemma_path_round_trip(u: UriFields)
    ensures
        ({
            let p = strip_scheme(uri_text(u));
            let k = find_char(p, '/') as int;
            let rest = p.subrange(k + 1, p.len() as int);
            &&& k < p.len()
            &&& p.take(k) == u.key_type.name()
            &&& label_of(rest.take(find_char(rest, '/') as int)) == label_round(u.name)
        }),
{
    let tn = u.key_type.name();
    let n = form_serialized(encode_utf8(u.name));
    let pre2 = text_prefix(u);
    let body = text_body(u);
    let t = uri_text(u);
    lemma_text_shape(u);
    lemma_prefix_chars(u);
    lemma_type_name(u.key_type);
    lemma_form_lacks(u.name, '/');
    lemma_form_lacks(u.name, '?');
    assert(has_at(t, 0, scheme())) by {
        assert(t.subrange(0, 10) =~= scheme());
    }
    assert(t.subrange(10, t.len() as int) =~= pre2 + body);
    assert forall|k: int| 0 <= k < pre2.len() implies !has_at(pre2 + body, k, scheme()) by {
        lemma_no_occurrence(pre2, body, scheme(), 7, k);
    }
    lemma_strip_prefix(pre2, body);
    let p = strip_scheme(t);
    assert(p == pre2 + strip_scheme(body));
    assert forall|j: int| 0 <= j < tn.len() implies p[j] != '/' by {
        assert(p[j] == tn[j]);
        assert('a' <= tn[j] <= 'z');
    }
    assert(p[tn.len() as int] == '/');
    lemma_find_char_at(p, '/', tn.len() as int);
    assert(p.take(tn.len() as int) =~= tn);
    let rest = p.subrange(tn.len() as int + 1, p.len() as int);
    assert(rest =~= n + seq!['?'] + strip_scheme(body));
    lemma_find_char(rest, '/');
    let f = find_char(rest, '/') as int;
    assert(rest[n.len() as int] == '?');
    assert forall|j: int| 0 <= j < n.len() implies rest[j] != '/' && rest[j] != '?' by {
        assert(rest[j] == n[j]);
    }
    assert(f > n.len());
    let seg = rest.take(f);
    if n.len() == 0 {
        assert(seg[0] == '?');
    } else {
        assert(seg[0] == n[0]);
        lemma_find_char_at(seg, '?', n.len() as int);
        assert(seg.take(n.len() as int) =~= n);
    }
}

/// The fields found in the query of the canonical text.
proof fn lemma_scan_body(u: UriFields)
    requires
        plain_value(u.secret),
    ensures
        scan_fields(text_body(u), 0) == seq![
            (UriField::Secret, u.secret),
            (UriField::Algorithm, u.algorithm.uri_name()),
            (UriField::Digits, decimal(u.digits as nat)),
        ] + optional_fields(u),
{
    let a = u.algorithm.uri_name();
    let d = decimal(u.digits as nat);
    let opt = number_part(UriField::Counter, u.counter) + number_part(UriField::Period, u.period)
        + issuer_part(u.issuer);
    let tail2 = seq!['&'] + UriField::Digits.key() + d + opt;
    let tail1 = seq!['&'] + UriField::Algorithm.key() + a + tail2;
    lemma_algorithm_name(u.algorithm);
    lemma_digits_plain(u.digits as nat);
    assert forall|x: int| 0 <= x < u.secret.len() implies !is_space(#[trigger] u.secret[x])
        && u.secret[x] != '&' by {
        assert(value_char(u.secret[x]));
    }
    lemma_scan_field(UriField::Secret, u.secret, tail1);
    assert(tail1 =~= seq!['&'] + (UriField::Algorithm.key() + a + tail2));
    lemma_scan_amp(UriField::Algorithm.key() + a + tail2);
    assert forall|x: int| 0 <= x < a.len() implies !is_space(#[trigger] a[x]) && a[x] != '&' by {
        assert(value_char(a[x]));
    }
    lemma_scan_field(UriField::Algorithm, a, tail2);
    assert(tail2 =~= seq!['&'] + (UriField::Digits.key() + d + opt));
    lemma_scan_amp(UriField::Digits.key() + d + opt);
    assert forall|x: int| 0 <= x < d.len() implies !is_space(#[trigger] d[x]) && d[x] != '&' by {
        assert(value_char(d[x]));
    }
    assert(opt.len() == 0 || opt[0] == '&');
    lemma_scan_field(UriField::Digits, d, opt);
    lemma_scan_optional(u);
    assert(scan_fields(text_body(u), 0) =~= seq![
        (UriField::Secret, u.secret),
        (UriField::Algorithm, a),
        (UriField::Digits, d),
    ] + optional_fields(u));
}

/// The fields found in the canonical text: secret, algorithm and digits,
/// then the optional ones.
proof fn lemma_scan_round_trip(u: UriFields)
    requires
        plain_value(u.secret),
    ensures
        scan_fields(uri_text(u), 0) == seq![
            (UriField::Secret, u.secret),
            (UriField::Algorithm, u.algorithm.uri_name()),
            (UriField::Digits, decimal(u.digits as nat)),
        ] + optional_fields(u),
{
    let body = text_body(u);
    let pre = scheme() + text_prefix(u);
    lemma_text_shape(u);
    lemma_prefix_chars(u);
    assert forall|k: int| 0 <= k < pre.len() implies field_at(pre + body, k) is None by {
        lemma_no_field_in_prefix(pre, body, k);
    }
    lemma_scan_skip(pre + body, 0, pre.len() as int);
    lemma_scan_shift(pre, body, 0);
    lemma_scan_body(u);
}

/// Reading the canonical text of URI fields gives the fields back.  Each
/// field is kept, the label and the issuer as the form decoding of their
/// form encoding, provided the secret holds no white space and no `&`
/// (base32 text, padding included, qualifies).
pub proof fn lemma_uri_round_trip(u: UriFields)
    requires
        plain_value(u.secret),
    ensures
        parse_uri(uri_text(u)) == (UriFields {
            name: label_round(u.name),
            issuer: issuer_round(u.issuer),
            ..u
        }),
{
    let a = u.algorithm.uri_name();
    let d = decimal(u.digits as nat);
    lemma_path_round_trip(u);
    lemma_scan_round_trip(u);
    lemma_type_name(u.key_type);
    lemma_algorithm_name(u.algorithm);
    lemma_digits_plain(u.digits as nat);
    let fs3 = seq![(UriField::Secret, u.secret), (UriField::Algorithm, a), (UriField::Digits, d)];
    let start = UriFields { name: label_round(u.name), key_type: u.key_type, ..default_fields() };
    lemma_apply_append(start, fs3, optional_fields(u));
    lemma_decimal_reads_back(u.digits as nat);
    let v1 = apply_field(start, (UriField::Secret, u.secret));
    let v2 = apply_field(v1, (UriField::Algorithm, a));
    let v3 = apply_field(v2, (UriField::Digits, d));
    assert(fs3 =~= seq![(UriField::Secret, u.secret)] + seq![(UriField::Algorithm, a)] + seq![
        (UriField::Digits, d),
    ]);
    lemma_apply_append(
        start,
        seq![(UriField::Secret, u.secret)] + seq![(UriField::Algorithm, a)],
        seq![(UriField::Digits, d)],
    );
    lemma_apply_append(start, seq![(UriField::Secret, u.secret)], seq![(UriField::Algorithm, a)]);
    lemma_apply_one(start, (UriField::Secret, u.secret));
    lemma_apply_one(v1, (UriField::Algorithm, a));
    lemma_apply_one(v2, (UriField::Digits, d));
    lemma_apply_optional(v3, u);
}

} // verus!
