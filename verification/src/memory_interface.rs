//! The typed memory codec: from the name of a C scalar type and text to the
//! bytes that go to the target, and from the bytes that come back to text.
//!
//! The codec holds no state and touches no probe. It says what to read or
//! write and where; the caller performs the transfer.

use vstd::prelude::*;
use crate::number::{decimal_text, decimal_value_within, format_decimal, parse_decimal};
use crate::text::{
    chars_of, is_literal, string_of, strip_prefix, strip_suffix, without_prefix, without_suffix,
};
use crate::variable::VariableInfo;

verus! {

/// How the bytes of a scalar are to be understood.
#[derive(Clone, Copy, Debug, PartialEq, Eq, Structural)]
pub enum Encoding {
    /// A two's complement integer.
    Signed,
    /// A non-negative integer.
    Unsigned,
    /// An IEEE 754 number, carried here by its bit pattern.
    Float,
}

/// A C scalar type as the codec sees it: its size in bytes and its encoding.
#[derive(Clone, Copy, Debug, PartialEq, Eq, Structural)]
pub struct ScalarType {
    pub width: usize,
    pub encoding: Encoding,
}

/// Why a value could not be written or read.
#[derive(Clone, Copy, Debug, PartialEq, Eq, Structural)]
pub enum MemoryError {
    /// The type's name is not one that the codec knows.
    UnsupportedType,
    /// The text does not denote a value of the type.
    ParseError,
    /// Fewer bytes were handed in than the type occupies.
    IgnoredOutput,
}

/// A transfer from the target: `count` words of `unit` bytes each, starting
/// at `address`.
#[derive(Clone, Copy, Debug, PartialEq, Eq, Structural)]
pub struct MemoryAccess {
    pub address: u64,
    pub unit: usize,
    pub count: usize,
}

/// A transfer to the target: the bytes of `data`, lowest address first, to be
/// written from `address` on in words of `unit` bytes.
#[derive(Debug, PartialEq, Eq)]
pub struct MemoryWrite {
    pub address: u64,
    pub unit: usize,
    pub data: Vec<u8>,
}

/// What was read from the target.
#[derive(Debug, PartialEq, Eq)]
pub enum ReadValue {
    /// An integer, in canonical decimal notation.
    Text(String),
    /// The bit pattern of a single precision number.
    Single(u32),
    /// The bit pattern of a double precision number.
    Double(u64),
}

/// The name of a type without a leading `volatile ` and without a trailing
/// array-open marker.
pub open spec fn normalized(c_type: Seq<char>) -> Seq<char> {
    without_suffix(without_prefix(c_type, "volatile "@), " ["@)
}

/// The dispatch table of the codec.
pub open spec fn scalar_type_of(c_type: Seq<char>) -> Option<ScalarType> {
    let n = normalized(c_type);
    if n == "signed char"@ || n == "char"@ {
        Some(ScalarType { width: 1, encoding: Encoding::Signed })
    } else if n == "unsigned char"@ || n == "bool"@ || n == "_Bool"@ {
        Some(ScalarType { width: 1, encoding: Encoding::Unsigned })
    } else if n == "short int"@ {
        Some(ScalarType { width: 2, encoding: Encoding::Signed })
    } else if n == "short unsigned int"@ {
        Some(ScalarType { width: 2, encoding: Encoding::Unsigned })
    } else if n == "int"@ || n == "long int"@ {
        Some(ScalarType { width: 4, encoding: Encoding::Signed })
    } else if n == "unsigned int"@ || n == "long unsigned int"@ {
        Some(ScalarType { width: 4, encoding: Encoding::Unsigned })
    } else if n == "long long int"@ {
        Some(ScalarType { width: 8, encoding: Encoding::Signed })
    } else if n == "long long unsigned int"@ {
        Some(ScalarType { width: 8, encoding: Encoding::Unsigned })
    } else if n == "float"@ {
        Some(ScalarType { width: 4, encoding: Encoding::Float })
    } else if n == "double"@ || n == "long double"@ {
        Some(ScalarType { width: 8, encoding: Encoding::Float })
    } else {
        None
    }
}

/// 256 to the power `width`: the number of values that `width` bytes hold.
pub open spec fn span(width: nat) -> nat
    decreases width,
{
    if width == 0 {
        1
    } else {
        256 * span((width - 1) as nat)
    }
}

/// The type is one that the dispatch table yields.
pub open spec fn well_formed(t: ScalarType) -> bool {
    &&& t.width == 1 || t.width == 2 || t.width == 4 || t.width == 8
    &&& t.encoding == Encoding::Float ==> t.width == 4 || t.width == 8
}

/// The least value of the type. Bit patterns count as non-negative integers.
pub open spec fn least(t: ScalarType) -> int {
    if t.encoding == Encoding::Signed {
        -(span(t.width as nat) / 2)
    } else {
        0
    }
}

/// The greatest value of the type.
pub open spec fn greatest(t: ScalarType) -> int {
    if t.encoding == Encoding::Signed {
        span(t.width as nat) / 2 - 1
    } else {
        span(t.width as nat) - 1
    }
}

/// `v` is a value of the type.
pub open spec fn representable(v: int, t: ScalarType) -> bool {
    least(t) <= v <= greatest(t)
}

/// The `width` low-order bytes of `n`, least significant first.
pub open spec fn le_bytes(n: nat, width: nat) -> Seq<u8>
    decreases width,
{
    if width == 0 {
        Seq::empty()
    } else {
        seq![(n % 256) as u8] + le_bytes(n / 256, (width - 1) as nat)
    }
}

/// The number whose bytes, least significant first, are `bytes`.
pub open spec fn le_value(bytes: Seq<u8>) -> nat
    decreases bytes.len(),
{
    if bytes.len() == 0 {
        0
    } else {
        bytes[0] as nat + 256 * le_value(bytes.drop_first())
    }
}

/// The bytes that hold `v` in the target's memory, lowest address first:
/// little-endian, negative numbers in two's complement.
pub open spec fn encode(v: int, t: ScalarType) -> Seq<u8> {
    if v < 0 {
        le_bytes((v + span(t.width as nat)) as nat, t.width as nat)
    } else {
        le_bytes(v as nat, t.width as nat)
    }
}

/// The value that `bytes` hold for the type.
pub open spec fn decode(bytes: Seq<u8>, t: ScalarType) -> int {
    let raw = le_value(bytes);
    if t.encoding == Encoding::Signed && raw >= span(t.width as nat) / 2 {
        raw - span(t.width as nat)
    } else {
        raw as int
    }
}

/// The widest word in which a value of the type is fetched: the whole value
/// for four and eight bytes, single bytes below that.
pub open spec fn read_word(t: ScalarType) -> usize {
    if t.width <= 2 {
        1
    } else {
        t.width
    }
}

/// The widest word in which a value of the type is written: as for
/// fetching, but that an eight byte integer goes in two words of four.
pub open spec fn write_word(t: ScalarType) -> usize {
    if t.width == 8 && t.encoding != Encoding::Float {
        4
    } else {
        read_word(t)
    }
}

/// The size of the words of a transfer at `address` that would like words
/// of `widest` bytes: the widest of eight, four and one bytes that is no
/// wider than that and that the address is a multiple of.
pub open spec fn aligned_unit(address: u64, widest: usize) -> usize {
    if widest == 8 && address % 8 == 0 {
        8
    } else if widest >= 4 && address % 4 == 0 {
        4
    } else {
        1
    }
}

/// The size of the words in which a value of the type is written to
/// `address`.
pub open spec fn write_unit(address: u64, t: ScalarType) -> usize {
    aligned_unit(address, write_word(t))
}

/// The transfer that fetches a value of the type from `address`.
pub open spec fn access_of(address: u64, t: ScalarType) -> MemoryAccess {
    let unit = aligned_unit(address, read_word(t));
    MemoryAccess { address, unit, count: t.width / unit }
}

/// Every transfer is made of whole words at an address that is a multiple
/// of their size, and covers the value exactly.
pub proof fn lemma_transfers_aligned(address: u64, t: ScalarType)
    requires
        well_formed(t),
    ensures
        address % (access_of(address, t).unit as u64) == 0,
        access_of(address, t).unit * access_of(address, t).count == t.width,
        address % (write_unit(address, t) as u64) == 0,
        t.width % write_unit(address, t) == 0,
{
    let access = access_of(address, t);
    if access.unit == 1 {
        assert(access.count == t.width);
    } else if access.unit == 4 {
        assert(access.count == if t.width == 4 { 1usize } else { 2usize });
    } else {
        assert(access.unit == 8 && access.count == 1);
    }
    let write = write_unit(address, t);
    assert(write == 1 || (write == 4 && (t.width == 4 || t.width == 8)) || (write == 8 && t.width
        == 8));
    assert(access.unit * access.count == t.width) by (nonlinear_arith)
        requires
            (access.unit == 1 && access.count == t.width) || (access.unit == 4 && access.count == 1
                && t.width == 4) || (access.unit == 4 && access.count == 2 && t.width == 8) || (
            access.unit == 8 && access.count == 1 && t.width == 8),
    ;
}

/// The value that a write request denotes. Integers are read from the text;
/// for the two floating point types the caller hands in the bit pattern that
/// its own reading of the text gave, or `None` where the text was refused.
pub open spec fn requested_value(t: ScalarType, text: Seq<char>, float_bits: Option<u64>) -> Option<
    int,
> {
    match t.encoding {
        Encoding::Float => match float_bits {
            Some(bits) if bits <= greatest(t) => Some(bits as int),
            _ => None,
        },
        Encoding::Signed => decimal_value_within(text, true, least(t), greatest(t)),
        Encoding::Unsigned => decimal_value_within(text, false, least(t), greatest(t)),
    }
}

/// What `MCUMemory::write` returns.
pub open spec fn write_result(
    symbol: crate::variable::VariableSpec,
    text: Seq<char>,
    float_bits: Option<u64>,
    r: Result<MemoryWrite, MemoryError>,
) -> bool {
    match scalar_type_of(symbol.types) {
        None => r == Err::<MemoryWrite, MemoryError>(MemoryError::UnsupportedType),
        Some(t) => match requested_value(t, text, float_bits) {
            None => r == Err::<MemoryWrite, MemoryError>(MemoryError::ParseError),
            Some(v) => {
                &&& r is Ok
                &&& r->Ok_0.address == symbol.address
                &&& r->Ok_0.unit == write_unit(symbol.address, t)
                &&& r->Ok_0.data@ == encode(v, t)
            },
        },
    }
}

/// What `MCUMemory::read` returns.
pub open spec fn read_result(
    symbol: crate::variable::VariableSpec,
    memory: Seq<u8>,
    r: Result<ReadValue, MemoryError>,
) -> bool {
    match scalar_type_of(symbol.types) {
        None => r == Err::<ReadValue, MemoryError>(MemoryError::UnsupportedType),
        Some(t) => if memory.len() < t.width {
            r == Err::<ReadValue, MemoryError>(MemoryError::IgnoredOutput)
        } else {
            let v = decode(memory.take(t.width as int), t);
            match r {
                Ok(ReadValue::Text(s)) => t.encoding != Encoding::Float && s@ == decimal_text(v),
                Ok(ReadValue::Single(bits)) => t.encoding == Encoding::Float && t.width == 4
                    && bits == v,
                Ok(ReadValue::Double(bits)) => t.encoding == Encoding::Float && t.width == 8
                    && bits == v,
                Err(_) => false,
            }
        },
    }
}

/// The number of values that one, two, four and eight bytes hold.
pub proof fn lemma_span_values()
    ensures
        span(0) == 1,
        span(1) == 0x100,
        span(2) == 0x1_0000,
        span(3) == 0x100_0000,
        span(4) == 0x1_0000_0000,
        span(5) == 0x100_0000_0000,
        span(6) == 0x1_0000_0000_0000,
        span(7) == 0x100_0000_0000_0000,
        span(8) == 0x1_0000_0000_0000_0000,
{
    reveal_with_fuel(span, 10);
}

/// `width` bytes hold every number below `span(width)` and give it back.
pub proof fn lemma_le_round_trip(n: nat, width: nat)
    requires
        n < span(width),
    ensures
        le_bytes(n, width).len() == width,
        le_value(le_bytes(n, width)) == n,
    decreases width,
{
    if width > 0 {
        lemma_le_round_trip(n / 256, (width - 1) as nat);
        let bytes = le_bytes(n, width);
        assert(bytes.drop_first() == le_bytes(n / 256, (width - 1) as nat));
    }
}

/// The number that `bytes` hold is below `span` of their count, and its
/// bytes are `bytes` again.
pub proof fn lemma_le_value_bound(bytes: Seq<u8>)
    ensures
        le_value(bytes) < span(bytes.len()),
        le_bytes(le_value(bytes), bytes.len()) == bytes,
    decreases bytes.len(),
{
    if bytes.len() > 0 {
        lemma_le_value_bound(bytes.drop_first());
    }
}

/// Encoding a value of a type and decoding the bytes gives the value back.
pub proof fn lemma_decode_encode(v: int, t: ScalarType)
    requires
        well_formed(t),
        representable(v, t),
    ensures
        encode(v, t).len() == t.width,
        decode(encode(v, t), t) == v,
{
    let w = t.width as nat;
    if v < 0 {
        lemma_le_round_trip((v + span(w)) as nat, w);
    } else {
        lemma_le_round_trip(v as nat, w);
    }
}

/// Decoding as many bytes as a type occupies gives a value of the type, and
/// encoding that value gives the bytes back.
pub proof fn lemma_encode_decode(bytes: Seq<u8>, t: ScalarType)
    requires
        well_formed(t),
        bytes.len() == t.width,
    ensures
        representable(decode(bytes, t), t),
        encode(decode(bytes, t), t) == bytes,
{
    lemma_le_value_bound(bytes);
}

/// Writing the canonical text of a value of an integer type, and reading
/// back the bytes written, gives that text again.
pub proof fn lemma_write_then_read(
    symbol: crate::variable::VariableSpec,
    v: int,
    written: Result<MemoryWrite, MemoryError>,
    read: Result<ReadValue, MemoryError>,
)
    requires
        scalar_type_of(symbol.types) matches Some(t) && t.encoding != Encoding::Float
            && representable(v, t),
        write_result(symbol, decimal_text(v), None, written),
        written matches Ok(command) ==> read_result(symbol, command.data@, read),
    ensures
        written matches Ok(command) && command.data@ == encode(
            v,
            scalar_type_of(symbol.types)->Some_0,
        ),
        read matches Ok(ReadValue::Text(text)) && text@ == decimal_text(v),
{
    let t = scalar_type_of(symbol.types)->Some_0;
    crate::number::lemma_decimal_round_trip(v, t.encoding == Encoding::Signed);
    lemma_decode_encode(v, t);
    let data = written->Ok_0.data@;
    assert(data.take(t.width as int) == data);
}

/// Writing a floating point number by its bit pattern, and reading back the
/// bytes written, gives that bit pattern again.
pub proof fn lemma_write_then_read_bits(
    symbol: crate::variable::VariableSpec,
    text: Seq<char>,
    bits: u64,
    written: Result<MemoryWrite, MemoryError>,
    read: Result<ReadValue, MemoryError>,
)
    requires
        scalar_type_of(symbol.types) matches Some(t) && t.encoding == Encoding::Float && bits
            <= greatest(t),
        write_result(symbol, text, Some(bits), written),
        written matches Ok(command) ==> read_result(symbol, command.data@, read),
    ensures
        written is Ok,
        match read {
            Ok(ReadValue::Single(back)) => back == bits,
            Ok(ReadValue::Double(back)) => back == bits,
            _ => false,
        },
{
    let t = scalar_type_of(symbol.types)->Some_0;
    lemma_span_values();
    lemma_decode_encode(bits as int, t);
    let data = written->Ok_0.data@;
    assert(data.take(t.width as int) == data);
}

/// The dispatch table yields well-formed types only.
pub proof fn lemma_table_well_formed(c_type: Seq<char>)
    ensures
        scalar_type_of(c_type) matches Some(t) ==> well_formed(t),
{
}

/// The `width` low-order bytes of `n`, least significant first.
pub fn to_le_bytes(n: u64, width: usize) -> (r: Vec<u8>)
    ensures
        r@ == le_bytes(n as nat, width as nat),
{
    let mut r: Vec<u8> = Vec::new();
    let mut rest: u64 = n;
    let mut i: usize = 0;
    while i < width
        invariant
            i <= width,
            le_bytes(n as nat, width as nat) == r@ + le_bytes(rest as nat, (width - i) as nat),
        decreases width - i,
    {
        let low: u8 = (rest % 256) as u8;
        r.push(low);
        rest = rest / 256;
        i = i + 1;
    }
    r
}

/// The number that the first `width` bytes of `bytes` hold, least
/// significant first.
pub fn from_le_bytes(bytes: &Vec<u8>, width: usize) -> (r: u64)
    requires
        width <= 8,
        width <= bytes.len(),
    ensures
        r == le_value(bytes@.take(width as int)),
{
    let ghost all = bytes@.take(width as int);
    let mut acc: u64 = 0;
    let mut i: usize = width;
    while i > 0
        invariant
            i <= width <= 8,
            width <= bytes.len(),
            all == bytes@.take(width as int),
            acc == le_value(all.subrange(i as int, width as int)),
            acc < span((width - i) as nat),
        decreases i,
    {
        proof {
            lemma_span_values();
            let longer = all.subrange(i - 1, width as int);
            assert(longer.drop_first() == all.subrange(i as int, width as int));
        }
        i = i - 1;
        acc = acc * 256 + bytes[i] as u64;
    }
    assert(all.subrange(0, width as int) == all);
    acc
}

/// The size of the words of a transfer at `address` that would like words
/// of `widest` bytes.
pub fn aligned(address: u64, widest: usize) -> (r: usize)
    ensures
        r == aligned_unit(address, widest),
{
    if widest == 8 && address % 8 == 0 {
        8
    } else if widest >= 4 && address % 4 == 0 {
        4
    } else {
        1
    }
}

/// The least and the greatest value of a type.
pub fn limits(t: ScalarType) -> (r: (i128, i128))
    requires
        well_formed(t),
    ensures
        r.0 == least(t),
        r.1 == greatest(t),
        r.0 <= 0 <= r.1,
{
    proof {
        lemma_span_values();
    }
    let values: i128 = if t.width == 1 {
        0x100
    } else if t.width == 2 {
        0x1_0000
    } else if t.width == 4 {
        0x1_0000_0000
    } else {
        0x1_0000_0000_0000_0000
    };
    match t.encoding {
        Encoding::Signed => (-(values / 2), values / 2 - 1),
        _ => (0, values - 1),
    }
}

/// The memory of a microcontroller, seen through the types of its variables.
pub struct MCUMemory {}

impl MCUMemory {
    /// Looks the name of a C type up in the dispatch table.
    pub fn scalar_type(c_type: &str) -> (r: Option<ScalarType>)
        ensures
            r == scalar_type_of(c_type@),
    {
        let volatile = chars_of("volatile ");
        let array_open = chars_of(" [");
        let n = strip_suffix(strip_prefix(chars_of(c_type), &volatile), &array_open);
        if is_literal(&n, "signed char") || is_literal(&n, "char") {
            Some(ScalarType { width: 1, encoding: Encoding::Signed })
        } else if is_literal(&n, "unsigned char") || is_literal(&n, "bool") || is_literal(
            &n,
            "_Bool",
        ) {
            Some(ScalarType { width: 1, encoding: Encoding::Unsigned })
        } else if is_literal(&n, "short int") {
            Some(ScalarType { width: 2, encoding: Encoding::Signed })
        } else if is_literal(&n, "short unsigned int") {
            Some(ScalarType { width: 2, encoding: Encoding::Unsigned })
        } else if is_literal(&n, "int") || is_literal(&n, "long int") {
            Some(ScalarType { width: 4, encoding: Encoding::Signed })
        } else if is_literal(&n, "unsigned int") || is_literal(&n, "long unsigned int") {
            Some(ScalarType { width: 4, encoding: Encoding::Unsigned })
        } else if is_literal(&n, "long long int") {
            Some(ScalarType { width: 8, encoding: Encoding::Signed })
        } else if is_literal(&n, "long long unsigned int") {
            Some(ScalarType { width: 8, encoding: Encoding::Unsigned })
        } else if is_literal(&n, "float") {
            Some(ScalarType { width: 4, encoding: Encoding::Float })
        } else if is_literal(&n, "double") || is_literal(&n, "long double") {
            Some(ScalarType { width: 8, encoding: Encoding::Float })
        } else {
            None
        }
    }

    /// The transfer that fetches the variable's bytes, or `None` where its
    /// type is not one that the codec knows.
    pub fn access(symbol: &VariableInfo) -> (r: Option<MemoryAccess>)
        ensures
            r == match scalar_type_of(symbol@.types) {
                Some(t) => Some(access_of(symbol.address, t)),
                None => None,
            },
    {
        match Self::scalar_type(symbol.types.as_str()) {
            Some(t) => {
                let widest: usize = if t.width <= 2 {
                    1
                } else {
                    t.width
                };
                let unit = aligned(symbol.address, widest);
                Some(MemoryAccess { address: symbol.address, unit, count: t.width / unit })
            },
            None => None,
        }
    }

    /// Turns a request to set the variable to the value written in
    /// `value_str` into the bytes to transfer.
    ///
    /// For `float`, `double` and `long double` the caller reads the text as
    /// a number of that precision (`long double` as `double`) and passes the
    /// bit pattern in `float_bits`, or `None` where the text is no number. For
    /// all other types `float_bits` is not looked at.
    pub fn write(symbol: &VariableInfo, value_str: &str, float_bits: Option<u64>) -> (r: Result<
        MemoryWrite,
        MemoryError,
    >)
        ensures
            write_result(symbol@, value_str@, float_bits, r),
    {
        let t = match Self::scalar_type(symbol.types.as_str()) {
            Some(t) => t,
            None => {
                return Err(MemoryError::UnsupportedType);
            },
        };
        proof {
            lemma_span_values();
        }
        let (min, max) = limits(t);
        let value: Option<i128> = match t.encoding {
            Encoding::Float => match float_bits {
                Some(bits) => if bits as i128 <= max {
                    Some(bits as i128)
                } else {
                    None
                },
                None => None,
            },
            Encoding::Signed => parse_decimal(&chars_of(value_str), true, min, max),
            Encoding::Unsigned => parse_decimal(&chars_of(value_str), false, min, max),
        };
        match value {
            None => Err(MemoryError::ParseError),
            Some(v) => {
                let raw: u64 = if v < 0 {
                    (v + max + max + 2) as u64
                } else {
                    v as u64
                };
                let widest: usize = if t.width <= 2 {
                    1
                } else if t.width == 8 && t.encoding != Encoding::Float {
                    4
                } else {
                    t.width
                };
                let unit = aligned(symbol.address, widest);
                Ok(MemoryWrite { address: symbol.address, unit, data: to_le_bytes(raw, t.width) })
            },
        }
    }

    /// Turns the bytes found at the variable's address, lowest address
    /// first, into its value. Integers come back as decimal text; floating
    /// point numbers as their bit pattern, for the caller to print.
    pub fn read(symbol: &VariableInfo, memory: &Vec<u8>) -> (r: Result<ReadValue, MemoryError>)
        ensures
            read_result(symbol@, memory@, r),
    {
        let t = match Self::scalar_type(symbol.types.as_str()) {
            Some(t) => t,
            None => {
                return Err(MemoryError::UnsupportedType);
            },
        };
        if memory.len() < t.width {
            return Err(MemoryError::IgnoredOutput);
        }
        proof {
            lemma_span_values();
            lemma_le_value_bound(memory@.take(t.width as int));
        }
        let raw: u64 = from_le_bytes(memory, t.width);
        let (min, max) = limits(t);
        match t.encoding {
            Encoding::Float => {
                if t.width == 4 {
                    Ok(ReadValue::Single(raw as u32))
                } else {
                    Ok(ReadValue::Double(raw))
                }
            },
            Encoding::Unsigned => Ok(ReadValue::Text(string_of(&format_decimal(raw as i128)))),
            Encoding::Signed => {
                let v: i128 = if raw as i128 > max {
                    raw as i128 - max - max - 2
                } else {
                    raw as i128
                };
                Ok(ReadValue::Text(string_of(&format_decimal(v))))
            },
        }
    }
}

} // verus!
