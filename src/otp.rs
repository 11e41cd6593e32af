use vstd::prelude::*;

verus! {

/// Relies on `std::time::SystemTime::now().duration_since(UNIX_EPOCH)`: the
/// time since the Unix epoch as whole seconds and nanoseconds, `Ok` for a
/// reading at or after the epoch and `Err` (the time before it) otherwise.
/// Nothing is assumed about the values.
#[verifier::external_body]
fn system_clock() -> (r: Result<(u64, u32), (u64, u32)>) {
    match std::time::SystemTime::now().duration_since(std::time::UNIX_EPOCH) {
        Ok(d) => Ok((d.as_secs(), d.subsec_nanos())),
        Err(e) => Err((e.duration().as_secs(), e.duration().subsec_nanos())),
    }
}

/// Whole seconds since the Unix epoch, rounded down, of a clock reading: `Ok`
/// holds the time after the epoch and `Err` the time before it, each as
/// seconds and nanoseconds.  Values beyond the 64-bit signed range saturate.
pub open spec fn clock_seconds(reading: Result<(u64, u32), (u64, u32)>) -> i64 {
    match reading {
        Ok((s, _)) => if s > i64::MAX {
            i64::MAX
        } else {
            s as i64
        },
        Err((s, n)) => {
            let down = if n == 0 {
                -(s as int)
            } else {
                -(s as int) - 1
            };
            if down < i64::MIN {
                i64::MIN
            } else {
                down as i64
            }
        },
    }
}

/// Whole seconds since the Unix epoch, rounded down, of a clock reading.
pub fn seconds_of_reading(reading: Result<(u64, u32), (u64, u32)>) -> (r: i64)
    ensures
        r == clock_seconds(reading),
{
    match reading {
        Ok((s, _)) => if s > i64::MAX as u64 {
            i64::MAX
        } else {
            s as i64
        },
        Err((s, n)) => if s > i64::MAX as u64 {
            i64::MIN
        } else if n == 0 {
            -(s as i64)
        } else {
            -(s as i64) - 1
        },
    }
}

/// The current wall-clock time in whole seconds since the Unix epoch,
/// negative before it.
pub(crate) fn unix_time_now() -> (r: i64) {
    seconds_of_reading(system_clock())
}

/// The 8-byte big-endian encoding of a counter.
pub open spec fn counter_bytes(c: u64) -> Seq<u8> {
    seq![
        (c >> 56u64) as u8,
        (c >> 48u64) as u8,
        (c >> 40u64) as u8,
        (c >> 32u64) as u8,
        (c >> 24u64) as u8,
        (c >> 16u64) as u8,
        (c >> 8u64) as u8,
        c as u8,
    ]
}

/// The 8-byte big-endian encoding of a counter.
pub fn build_counter_bytes(c: u64) -> (r: Vec<u8>)
    ensures
        r@ == counter_bytes(c),
{
    let r = vec![
        (c >> 56u64) as u8,
        (c >> 48u64) as u8,
        (c >> 40u64) as u8,
        (c >> 32u64) as u8,
        (c >> 24u64) as u8,
        (c >> 16u64) as u8,
        (c >> 8u64) as u8,
        c as u8,
    ];
    assert(r@ =~= counter_bytes(c));
    r
}

/// Dynamic truncation: the low four bits of the last byte select an offset,
/// and the four bytes from there are read big-endian with the top bit cleared.
pub open spec fn truncated_value(d: Seq<u8>) -> nat
    recommends
        d.len() >= 20,
{
    let o = (d[d.len() - 1] % 16) as int;
    ((d[o] % 128) as nat) * 16777216 + (d[o + 1] as nat) * 65536 + (d[o + 2] as nat) * 256 + (
    d[o + 3] as nat)
}

/// Ten to the power `n`.
pub open spec fn pow10(n: nat) -> nat
    decreases n,
{
    if n == 0 {
        1
    } else {
        10 * pow10((n - 1) as nat)
    }
}

/// The decimal digit character for a value below ten.
pub open spec fn digit_char(d: nat) -> char {
    ((48 + d) as u8) as char
}

/// Whether a character is an ASCII decimal digit.
pub open spec fn is_digit(c: char) -> bool {
    '0' <= c && c <= '9'
}

/// The last `width` decimal digits of `v`, most significant first, padded
/// with leading zeros.
pub open spec fn padded_decimal(v: nat, width: nat) -> Seq<char>
    decreases width,
{
    if width == 0 {
        Seq::empty()
    } else {
        padded_decimal(v / 10, (width - 1) as nat).push(digit_char(v % 10))
    }
}

/// The one-time code of a digest: its truncated value modulo `10^digits`,
/// written with exactly `digits` decimal digits.
pub open spec fn otp_code(d: Seq<u8>, digits: nat) -> Seq<char> {
    padded_decimal(truncated_value(d) % pow10(digits), digits)
}

/// A padded decimal has exactly `width` characters, all decimal digits.
pub proof fn lemma_padded_decimal_shape(v: nat, width: nat)
    ensures
        padded_decimal(v, width).len() == width,
        forall|i: int| 0 <= i < width ==> is_digit(#[trigger] padded_decimal(v, width)[i]),
    decreases width,
{
    if width > 0 {
        lemma_padded_decimal_shape(v / 10, (width - 1) as nat);
        let d = v % 10;
        assert(48 <= 48 + d <= 57);
        assert(is_digit(digit_char(d))) by {
            assert(((48 + d) as u8) as char == digit_char(d));
        }
    }
}

/// Dynamic truncation of a digest of at least 20 bytes.
pub fn truncate_digest(d: &Vec<u8>) -> (r: u32)
    requires
        d@.len() >= 20,
    ensures
        r == truncated_value(d@),
        r < 0x8000_0000,
{
    let o = (d[d.len() - 1] % 16) as usize;
    let b0 = (d[o] % 128) as u32;
    let b1 = d[o + 1] as u32;
    let b2 = d[o + 2] as u32;
    let b3 = d[o + 3] as u32;
    b0 * 16777216 + b1 * 65536 + b2 * 256 + b3
}

/// Ten to the power `n`, for `n` up to nine.
pub fn power_of_ten(n: u8) -> (r: u32)
    requires
        n <= 9,
    ensures
        r == pow10(n as nat),
{
    let mut r: u32 = 1;
    let mut i: u8 = 0;
    while i < n
        invariant
            i <= n <= 9,
            r == pow10(i as nat),
        decreases n - i,
    {
        proof {
            lemma_pow10_small(i as nat);
            lemma_pow10_small((i + 1) as nat);
        }
        r = r * 10;
        i = i + 1;
    }
    r
}

/// The powers of ten up to the ninth are positive and fit in 32 bits.
pub proof fn lemma_pow10_small(n: nat)
    requires
        n <= 9,
    ensures
        1 <= pow10(n) <= 1_000_000_000,
        pow10(n + 1) == 10 * pow10(n),
{
    assert(pow10(0) == 1);
    assert(pow10(1) == 10);
    assert(pow10(2) == 100);
    assert(pow10(3) == 1000);
    assert(pow10(4) == 10000);
    assert(pow10(5) == 100000);
    assert(pow10(6) == 1000000);
    assert(pow10(7) == 10000000);
    assert(pow10(8) == 100000000);
    assert(pow10(9) == 1000000000);
}

/// The last `width` decimal digits of `v`, padded with leading zeros.
pub fn render_padded(v: u32, width: u8) -> (r: String)
    ensures
        r@ == padded_decimal(v as nat, width as nat),
        r@.len() == width,
        forall|i: int| 0 <= i < width ==> is_digit(#[trigger] r@[i]),
{
    let mut out: Vec<char> = Vec::new();
    let mut n: u32 = v;
    let mut i: u8 = 0;
    while i < width
        invariant
            i <= width,
            padded_decimal(v as nat, width as nat) == padded_decimal(n as nat, (width - i) as nat)
                + out@,
        decreases width - i,
    {
        let c = ((48 + n % 10) as u8) as char;
        proof {
            let w = (width - i) as nat;
            assert(padded_decimal(n as nat, w) == padded_decimal((n / 10) as nat, (w - 1) as nat).push(
                digit_char((n % 10) as nat),
            ));
            assert(padded_decimal(n as nat, w) + out@ =~= padded_decimal(
                (n / 10) as nat,
                (w - 1) as nat,
            ) + seq![c].add(out@));
        }
        out.insert(0, c);
        n = n / 10;
        i = i + 1;
    }
    assert(padded_decimal(v as nat, width as nat) =~= out@);
    proof {
        lemma_padded_decimal_shape(v as nat, width as nat);
    }
    crate::text::string_of(&out)
}

/// The one-time code of a digest of at least 20 bytes, with `digits` digits.
pub fn code_from_digest(d: &Vec<u8>, digits: u8) -> (r: String)
    requires
        d@.len() >= 20,
        digits <= 9,
    ensures
        r@ == otp_code(d@, digits as nat),
        r@.len() == digits,
        forall|i: int| 0 <= i < digits ==> is_digit(#[trigger] r@[i]),
{
    let v = truncate_digest(d);
    let p = power_of_ten(digits);
    proof {
        lemma_pow10_small(digits as nat);
    }
    render_padded(v % p, digits)
}

} // verus!
