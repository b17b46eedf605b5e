//! Data sizes written as a number and a unit, such as `19kB`.

use vstd::prelude::*;
use vstd::string::StringSliceAdditionalSpecFns;

verus! {

/// A size in bytes.
#[derive(Clone, Copy)]
pub struct DataSize(pub u64);

/// The number base announced by a two-character prefix.
#[derive(PartialEq, Eq, Structural, Clone, Copy)]
pub enum NumberFormat {
    Decimal,
    Hexadecimal,
    Octal,
    Binary,
}

/// Why a data size could not be parsed.
#[derive(PartialEq, Eq, Structural, Clone, Copy)]
pub enum DataSizeError {
    WrongNumberFormat,
    NoUnit,
    WrongUnit,
}

/// The message that `DataSize::parse` returns for `e`.
pub open spec fn data_size_error_text(e: DataSizeError) -> Seq<char> {
    match e {
        DataSizeError::WrongNumberFormat => "wrong number format"@,
        DataSizeError::NoUnit => "no unit"@,
        DataSizeError::WrongUnit => "wrong unit"@,
    }
}

/// The number format and the index where the number starts: `0x` and `0h`
/// announce hexadecimal, `0b` binary, `0o` octal, `0d` decimal; without a
/// prefix (or with fewer than two bytes) the number is decimal from index 0.
pub open spec fn number_prefix(b: Seq<u8>) -> (NumberFormat, int) {
    if b.len() < 2 {
        (NumberFormat::Decimal, 0)
    } else if b[0] == 0x30 && (b[1] == 0x78 || b[1] == 0x68) {
        (NumberFormat::Hexadecimal, 2)
    } else if b[0] == 0x30 && b[1] == 0x62 {
        (NumberFormat::Binary, 2)
    } else if b[0] == 0x30 && b[1] == 0x6f {
        (NumberFormat::Octal, 2)
    } else if b[0] == 0x30 && b[1] == 0x64 {
        (NumberFormat::Decimal, 2)
    } else {
        (NumberFormat::Decimal, 0)
    }
}

/// The bytes that the scan over the number steps across: `'0'` up to `'8'`
/// (the range `b'0'..b'9'` excludes `'9'`).
pub open spec fn is_scanned_digit(c: u8) -> bool {
    0x30 <= c < 0x39
}

/// End of the number: one past the first byte from `i` on that the scan
/// does not step across, or the end of the input.
pub open spec fn scan_end(b: Seq<u8>, i: int) -> int
    decreases b.len() - i,
{
    if i >= b.len() {
        b.len() as int
    } else if !is_scanned_digit(b[i]) {
        i + 1
    } else {
        scan_end(b, i + 1)
    }
}

/// An ASCII decimal digit.
pub open spec fn is_decimal_digit(c: u8) -> bool {
    0x30 <= c <= 0x39
}

/// The value of a string of decimal digits.
pub open spec fn decimal_value(s: Seq<u8>) -> nat
    decreases s.len(),
{
    if s.len() == 0 {
        0
    } else {
        decimal_value(s.drop_last()) * 10 + (s.last() - 0x30) as nat
    }
}

/// The value of the number bytes as an unsigned 64-bit decimal: present when
/// they are one or more decimal digits whose value fits in 64 bits.
pub open spec fn decimal_number(s: Seq<u8>) -> Option<nat> {
    if s.len() > 0 && (forall|i: int| 0 <= i < s.len() ==> is_decimal_digit(#[trigger] s[i]))
        && decimal_value(s) <= u64::MAX {
        Some(decimal_value(s))
    } else {
        None
    }
}

/// Bytes per decimal-prefixed unit: k, M, G, T in either case.
pub open spec fn decimal_scale(c: u8) -> Option<nat> {
    if c == 0x6b || c == 0x4b {
        Some(1000)
    } else if c == 0x6d || c == 0x4d {
        Some(1000_000)
    } else if c == 0x67 || c == 0x47 {
        Some(1000_000_000)
    } else if c == 0x74 || c == 0x54 {
        Some(1000_000_000_000)
    } else {
        None
    }
}

/// Bytes per binary-prefixed unit: Ki, Mi, Gi, Ti in either case.
pub open spec fn binary_scale(c: u8) -> Option<nat> {
    if c == 0x6b || c == 0x4b {
        Some(1024)
    } else if c == 0x6d || c == 0x4d {
        Some(1024 * 1024)
    } else if c == 0x67 || c == 0x47 {
        Some(1024 * 1024 * 1024)
    } else if c == 0x74 || c == 0x54 {
        Some(1024 * 1024 * 1024 * 1024)
    } else {
        None
    }
}

/// A scale in bytes or, with a lowercase `b` for bits, an eighth of it.
pub open spec fn with_bit_or_byte(scale: Option<nat>, last: u8) -> Option<nat> {
    match scale {
        Some(n) => if last == 0x42 {
            Some(n)
        } else if last == 0x62 {
            Some(n / 8)
        } else {
            None
        },
        None => None,
    }
}

/// How many bytes one of `unit` stands for: `b`/`B` is one byte; a prefix
/// (k, M, G, T in either case) followed by `B` is a power of 1000 bytes and
/// by `b` an eighth of that; with `i`/`I` between them, powers of 1024.
pub open spec fn unit_multiplier(u: Seq<u8>) -> Option<nat> {
    if u.len() == 1 {
        if u[0] == 0x62 || u[0] == 0x42 {
            Some(1)
        } else {
            None
        }
    } else if u.len() == 2 {
        with_bit_or_byte(decimal_scale(u[0]), u[1])
    } else if u.len() == 3 && (u[1] == 0x69 || u[1] == 0x49) {
        with_bit_or_byte(binary_scale(u[0]), u[2])
    } else {
        None
    }
}

/// What `DataSize::parse` gives for the bytes `b`: the number times the
/// unit, or the first error found. Numbers in a prefixed non-decimal format
/// count as zero.
pub open spec fn data_size_of(b: Seq<u8>) -> Result<nat, DataSizeError> {
    let (format, start) = number_prefix(b);
    let end = scan_end(b, start);
    let number = if format == NumberFormat::Decimal {
        decimal_number(b.subrange(start, end))
    } else {
        Some(0nat)
    };
    let unit = b.subrange(end, b.len() as int);
    match number {
        None => Err(DataSizeError::WrongNumberFormat),
        Some(n) => if unit.len() == 0 {
            Err(DataSizeError::NoUnit)
        } else {
            match unit_multiplier(unit) {
                Some(m) => Ok(n * m),
                None => Err(DataSizeError::WrongUnit),
            }
        },
    }
}

proof fn lemma_decimal_value_grows(s: Seq<u8>, j: int)
    requires
        0 <= j <= s.len(),
        forall|i: int| 0 <= i < s.len() ==> is_decimal_digit(#[trigger] s[i]),
    ensures
        decimal_value(s.subrange(0, j)) <= decimal_value(s),
    decreases s.len(),
{
    if j < s.len() {
        assert(s.drop_last().subrange(0, j) =~= s.subrange(0, j));
        lemma_decimal_value_grows(s.drop_last(), j);
    } else {
        assert(s.subrange(0, j) =~= s);
    }
}

proof fn lemma_scan_end_bounds(b: Seq<u8>, i: int)
    requires
        0 <= i <= b.len(),
    ensures
        i <= scan_end(b, i) <= b.len(),
        forall|k: int| i <= k < scan_end(b, i) - 1 ==> is_scanned_digit(#[trigger] b[k]),
    decreases b.len() - i,
{
    if i < b.len() && is_scanned_digit(b[i]) {
        lemma_scan_end_bounds(b, i + 1);
    }
}

/// Parses the decimal number in `bytes[start..end]`.
fn parse_decimal(bytes: &[u8], start: usize, end: usize) -> (r: Option<u64>)
    requires
        start <= end <= bytes@.len(),
    ensures
        r == (match decimal_number(bytes@.subrange(start as int, end as int)) {
            Some(n) => Some(n as u64),
            None => None,
        }),
{
    let ghost s = bytes@.subrange(start as int, end as int);
    if start == end {
        return None;
    }
    let mut value: u64 = 0;
    let mut i: usize = start;
    while i < end
        invariant
            start <= i <= end <= bytes@.len(),
            s == bytes@.subrange(start as int, end as int),
            forall|k: int| start <= k < i ==> is_decimal_digit(#[trigger] bytes@[k]),
            value == decimal_value(bytes@.subrange(start as int, i as int)),
        decreases end - i,
    {
        let c: u8 = bytes[i];
        if c < 0x30 || c > 0x39 {
            assert(!is_decimal_digit(s[i - start]));
            return None;
        }
        let ghost prefix = bytes@.subrange(start as int, i + 1);
        assert(prefix.drop_last() =~= bytes@.subrange(start as int, i as int));
        let next = match value.checked_mul(10) {
            Some(v) => v.checked_add((c - 0x30) as u64),
            None => None,
        };
        match next {
            Some(v) => {
                value = v;
                i = i + 1;
            },
            None => {
                proof {
                    assert(decimal_value(prefix) > u64::MAX);
                    if forall|k: int| 0 <= k < s.len() ==> is_decimal_digit(#[trigger] s[k]) {
                        assert(s.subrange(0, i + 1 - start) =~= prefix);
                        lemma_decimal_value_grows(s, i + 1 - start);
                    }
                }
                return None;
            },
        }
    }
    assert(bytes@.subrange(start as int, i as int) =~= s);
    Some(value)
}

/// The multiplier of `bytes[end..]`, as `unit_multiplier` states it.
fn unit_bytes(bytes: &[u8], end: usize) -> (r: Option<u64>)
    requires
        end <= bytes@.len(),
    ensures
        r == (match unit_multiplier(bytes@.subrange(end as int, bytes@.len() as int)) {
            Some(m) => Some(m as u64),
            None => None,
        }),
{
    let ghost u = bytes@.subrange(end as int, bytes@.len() as int);
    let len = bytes.len() - end;
    if len == 1 {
        let c = bytes[end];
        assert(u[0] == c);
        if c == 0x62 || c == 0x42 {
            Some(1)
        } else {
            None
        }
    } else if len == 2 {
        assert(u[0] == bytes@[end as int] && u[1] == bytes@[end + 1]);
        bit_or_byte(decimal_scale_of(bytes[end]), bytes[end + 1])
    } else if len == 3 && (bytes[end + 1] == 0x69 || bytes[end + 1] == 0x49) {
        assert(u[0] == bytes@[end as int] && u[1] == bytes@[end + 1] && u[2] == bytes@[end + 2]);
        bit_or_byte(binary_scale_of(bytes[end]), bytes[end + 2])
    } else {
        assert(len == 3 ==> u[1] == bytes@[end + 1]);
        None
    }
}

fn decimal_scale_of(c: u8) -> (r: Option<u64>)
    ensures
        r == (match decimal_scale(c) {
            Some(n) => Some(n as u64),
            None => None,
        }),
{
    if c == 0x6b || c == 0x4b {
        Some(1000)
    } else if c == 0x6d || c == 0x4d {
        Some(1000_000)
    } else if c == 0x67 || c == 0x47 {
        Some(1000_000_000)
    } else if c == 0x74 || c == 0x54 {
        Some(1000_000_000_000)
    } else {
        None
    }
}

fn binary_scale_of(c: u8) -> (r: Option<u64>)
    ensures
        r == (match binary_scale(c) {
            Some(n) => Some(n as u64),
            None => None,
        }),
{
    if c == 0x6b || c == 0x4b {
        Some(1024)
    } else if c == 0x6d || c == 0x4d {
        Some(1024 * 1024)
    } else if c == 0x67 || c == 0x47 {
        Some(1024 * 1024 * 1024)
    } else if c == 0x74 || c == 0x54 {
        Some(1024 * 1024 * 1024 * 1024)
    } else {
        None
    }
}

fn bit_or_byte(scale: Option<u64>, last: u8) -> (r: Option<u64>)
    ensures
        r == (match with_bit_or_byte(
            match scale {
                Some(n) => Some(n as nat),
                None => None,
            },
            last,
        ) {
            Some(m) => Some(m as u64),
            None => None,
        }),
{
    match scale {
        Some(n) => if last == 0x42 {
            Some(n)
        } else if last == 0x62 {
            Some(n / 8)
        } else {
            None
        },
        None => None,
    }
}

impl DataSize {
    /// Whether the size is a whole number of 512-byte sectors.
    pub fn full_512_sectors(self) -> (r: bool)
        ensures
            r == (self.0 % 512 == 0),
    {
        self.0 % 512 == 0
    }

    /// Parses a number followed by a unit, as `data_size_of` states it on the
    /// UTF-8 bytes of `str`.
    pub fn parse(str: &str) -> (r: Result<Self, &'static str>)
        requires
            data_size_of(str.spec_bytes()) matches Ok(n) ==> n <= u64::MAX,
        ensures
            match data_size_of(str.spec_bytes()) {
                Ok(n) => r matches Ok(d) && d.0 == n,
                Err(e) => r matches Err(m) && m@ == data_size_error_text(e),
            },
    {
        let bytes: &[u8] = str.as_bytes();
        let ghost b = bytes@;
        let mut number_format = NumberFormat::Decimal;
        let number_start: usize = if bytes.len() < 2 {
            0
        } else if bytes[0] == 0x30 && (bytes[1] == 0x78 || bytes[1] == 0x68) {
            number_format = NumberFormat::Hexadecimal;
            2
        } else if bytes[0] == 0x30 && bytes[1] == 0x62 {
            number_format = NumberFormat::Binary;
            2
        } else if bytes[0] == 0x30 && bytes[1] == 0x6f {
            number_format = NumberFormat::Octal;
            2
        } else if bytes[0] == 0x30 && bytes[1] == 0x64 {
            2
        } else {
            0
        };
        assert(number_prefix(b) == (number_format, number_start as int));
        let mut index_counter: usize = number_start;
        while index_counter < bytes.len()
            invariant_except_break
                number_start <= index_counter <= bytes@.len(),
                scan_end(b, number_start as int) == scan_end(b, index_counter as int),
                b == bytes@,
            ensures
                index_counter == scan_end(b, number_start as int),
            decreases bytes@.len() - index_counter,
        {
            let c = bytes[index_counter];
            if !(0x30 <= c && c < 0x39) {
                index_counter = index_counter + 1;
                break;
            }
            index_counter = index_counter + 1;
        }
        proof {
            lemma_scan_end_bounds(b, number_start as int);
        }
        let number: u64 = match number_format {
            NumberFormat::Decimal => match parse_decimal(bytes, number_start, index_counter) {
                Some(num) => num,
                None => return Err("wrong number format"),
            },
            _ => 0,
        };
        if index_counter == bytes.len() {
            return Err("no unit");
        }
        match unit_bytes(bytes, index_counter) {
            Some(m) => {
                assert(b.subrange(index_counter as int, b.len() as int).len() > 0);
                Ok(DataSize(number * m))
            },
            None => Err("wrong unit"),
        }
    }
}

/// A number written with a hexadecimal, octal or binary prefix is not
/// read: such a size, when it parses, is zero.
pub proof fn lemma_prefixed_sizes_are_zero(b: Seq<u8>)
    ensures
        number_prefix(b).0 != NumberFormat::Decimal ==> (data_size_of(b) matches Ok(n) ==> n == 0),
{
}

/// With the unit `b` or `B` (one byte), a decimal size is the number
/// itself.
pub proof fn lemma_byte_unit_is_identity(b: Seq<u8>)
    ensures
        ({
            let end = scan_end(b, number_prefix(b).1);
            let unit = b.subrange(end, b.len() as int);
            (unit == seq![0x42u8] || unit == seq![0x62u8]) ==> (data_size_of(b) matches Ok(n) ==> (
            number_prefix(b).0 == NumberFormat::Decimal ==> Some(n) == decimal_number(
                b.subrange(number_prefix(b).1, end),
            )))
        }),
{
    let end = scan_end(b, number_prefix(b).1);
    let unit = b.subrange(end, b.len() as int);
    if unit == seq![0x42u8] || unit == seq![0x62u8] {
        assert(unit.len() == 1 && (unit[0] == 0x42 || unit[0] == 0x62));
        assert(unit_multiplier(unit) == Some(1nat));
    }
}


/// The multiplier of a unit, zero where the unit is not one.
pub open spec fn multiplier(u: Seq<u8>) -> nat {
    match unit_multiplier(u) {
        Some(m) => m,
        None => 0,
    }
}

/// A two-byte unit: a prefix letter and `b` or `B`.
pub open spec fn prefixed_unit(p: u8, last: u8) -> Seq<u8> {
    seq![p, last]
}

/// A three-byte unit: a prefix letter, `i` or `I`, and `b` or `B`.
pub open spec fn binary_unit(p: u8, i: u8, last: u8) -> Seq<u8> {
    seq![p, i, last]
}

/// The unit scales: `B` is one byte; each decimal prefix k, M, G, T is 1000
/// times the one before it and each binary prefix Ki, Mi, Gi, Ti 1024
/// times; a lowercase `b` (bits) is an eighth of the `B` unit; prefix
/// letters and the `i` may be written in either case.
pub proof fn lemma_unit_scales()
    ensures
        unit_multiplier(seq![0x42u8]) == Some(1nat),
        unit_multiplier(seq![0x62u8]) == Some(1nat),
        multiplier(prefixed_unit(0x6b, 0x42)) == 1000 * multiplier(seq![0x42u8]),
        multiplier(prefixed_unit(0x4d, 0x42)) == 1000 * multiplier(prefixed_unit(0x6b, 0x42)),
        multiplier(prefixed_unit(0x47, 0x42)) == 1000 * multiplier(prefixed_unit(0x4d, 0x42)),
        multiplier(prefixed_unit(0x54, 0x42)) == 1000 * multiplier(prefixed_unit(0x47, 0x42)),
        multiplier(binary_unit(0x4b, 0x69, 0x42)) == 1024 * multiplier(seq![0x42u8]),
        multiplier(binary_unit(0x4d, 0x69, 0x42)) == 1024 * multiplier(binary_unit(0x4b, 0x69, 0x42)),
        multiplier(binary_unit(0x47, 0x69, 0x42)) == 1024 * multiplier(binary_unit(0x4d, 0x69, 0x42)),
        multiplier(binary_unit(0x54, 0x69, 0x42)) == 1024 * multiplier(binary_unit(0x47, 0x69, 0x42)),
        forall|p: u8, q: u8, x: u8|
            #![trigger unit_multiplier(prefixed_unit(p, x)), unit_multiplier(prefixed_unit(q, x))]
            (p == q || p == q + 0x20 || q == p + 0x20) && 0x41 <= p <= 0x7a && 0x41 <= q <= 0x7a
                ==> unit_multiplier(prefixed_unit(p, x)) == unit_multiplier(prefixed_unit(q, x)),
        forall|p: u8, q: u8, x: u8|
            #![trigger unit_multiplier(binary_unit(p, 0x69, x)), unit_multiplier(binary_unit(q, 0x49, x))]
            (p == q || p == q + 0x20 || q == p + 0x20) && 0x41 <= p <= 0x7a && 0x41 <= q <= 0x7a
                ==> unit_multiplier(binary_unit(p, 0x69, x)) == unit_multiplier(
                binary_unit(q, 0x49, x),
            ),
        forall|p: u8|
            #![trigger unit_multiplier(prefixed_unit(p, 0x42))]
            unit_multiplier(prefixed_unit(p, 0x42)) is Some ==> multiplier(prefixed_unit(p, 0x42))
                % 8 == 0 && 8 * multiplier(prefixed_unit(p, 0x62)) == multiplier(
                prefixed_unit(p, 0x42),
            ),
        forall|p: u8|
            #![trigger unit_multiplier(binary_unit(p, 0x69, 0x42))]
            unit_multiplier(binary_unit(p, 0x69, 0x42)) is Some ==> multiplier(
                binary_unit(p, 0x69, 0x42),
            ) % 8 == 0 && 8 * multiplier(binary_unit(p, 0x69, 0x62)) == multiplier(
                binary_unit(p, 0x69, 0x42),
            ),
{
}

} // verus!
