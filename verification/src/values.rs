//! Typed parameter values and their byte encoding.
//!
//! Floating-point values are carried as their IEEE 754 bit patterns: the library moves,
//! compares and orders them, and leaves arithmetic to its callers.

use vstd::prelude::*;
use vstd::string::*;

use crate::error;
use crate::error::MotorError;
use crate::text;
use crate::text::{push_dec, push_dec_int, same_text};

verus! {

/// Value width and interpretation of a data endpoint, as declared by the device.
#[derive(Debug, Clone, Copy, PartialEq, Eq, Structural)]
pub enum ValueType {
    F32,
    F64,
    U8,
    U16,
    U32,
    U64,
    I8,
    I16,
    I32,
    I64,
    Bool,
}

/// The value type that a descriptor `type` text names.
pub open spec fn value_type_of(raw: Seq<char>) -> Option<ValueType> {
    if raw == "float"@ || raw == "float32"@ {
        Some(ValueType::F32)
    } else if raw == "float64"@ || raw == "double"@ {
        Some(ValueType::F64)
    } else if raw == "uint8"@ {
        Some(ValueType::U8)
    } else if raw == "uint16"@ {
        Some(ValueType::U16)
    } else if raw == "uint32"@ {
        Some(ValueType::U32)
    } else if raw == "uint64"@ {
        Some(ValueType::U64)
    } else if raw == "int8"@ {
        Some(ValueType::I8)
    } else if raw == "int16"@ {
        Some(ValueType::I16)
    } else if raw == "int32"@ {
        Some(ValueType::I32)
    } else if raw == "int64"@ {
        Some(ValueType::I64)
    } else if raw == "bool"@ {
        Some(ValueType::Bool)
    } else {
        None
    }
}

impl ValueType {
    /// The canonical name of a type.
    pub open spec fn name(self) -> Seq<char> {
        match self {
            ValueType::F32 => "float"@,
            ValueType::F64 => "float64"@,
            ValueType::U8 => "uint8"@,
            ValueType::U16 => "uint16"@,
            ValueType::U32 => "uint32"@,
            ValueType::U64 => "uint64"@,
            ValueType::I8 => "int8"@,
            ValueType::I16 => "int16"@,
            ValueType::I32 => "int32"@,
            ValueType::I64 => "int64"@,
            ValueType::Bool => "bool"@,
        }
    }

    /// The number of bytes of a type.
    pub open spec fn width(self) -> nat {
        match self {
            ValueType::U8 | ValueType::I8 | ValueType::Bool => 1,
            ValueType::U16 | ValueType::I16 => 2,
            ValueType::F32 | ValueType::U32 | ValueType::I32 => 4,
            ValueType::F64 | ValueType::U64 | ValueType::I64 => 8,
        }
    }

    /// Map a descriptor `type` string; `None` for the non-value kinds.
    pub fn from_raw(raw: &str) -> (res: Option<Self>)
        ensures
            res == value_type_of(raw@),
    {
        if same_text(raw, "float") || same_text(raw, "float32") {
            Some(ValueType::F32)
        } else if same_text(raw, "float64") || same_text(raw, "double") {
            Some(ValueType::F64)
        } else if same_text(raw, "uint8") {
            Some(ValueType::U8)
        } else if same_text(raw, "uint16") {
            Some(ValueType::U16)
        } else if same_text(raw, "uint32") {
            Some(ValueType::U32)
        } else if same_text(raw, "uint64") {
            Some(ValueType::U64)
        } else if same_text(raw, "int8") {
            Some(ValueType::I8)
        } else if same_text(raw, "int16") {
            Some(ValueType::I16)
        } else if same_text(raw, "int32") {
            Some(ValueType::I32)
        } else if same_text(raw, "int64") {
            Some(ValueType::I64)
        } else if same_text(raw, "bool") {
            Some(ValueType::Bool)
        } else {
            None
        }
    }

    /// Canonical name, used in error messages.
    pub fn label(self) -> (res: &'static str)
        ensures
            res@ == self.name(),
    {
        match self {
            ValueType::F32 => "float",
            ValueType::F64 => "float64",
            ValueType::U8 => "uint8",
            ValueType::U16 => "uint16",
            ValueType::U32 => "uint32",
            ValueType::U64 => "uint64",
            ValueType::I8 => "int8",
            ValueType::I16 => "int16",
            ValueType::I32 => "int32",
            ValueType::I64 => "int64",
            ValueType::Bool => "bool",
        }
    }

    /// Bytes this type occupies in a `PARAM_READ` response.
    ///
    /// `Bool` is declared as 1 byte; [`decode_value`] also accepts a 4-byte encoding,
    /// because firmware variants differ here.
    pub fn byte_width(self) -> (res: usize)
        ensures
            res == self.width(),
    {
        match self {
            ValueType::U8 | ValueType::I8 | ValueType::Bool => 1,
            ValueType::U16 | ValueType::I16 => 2,
            ValueType::F32 | ValueType::U32 | ValueType::I32 => 4,
            ValueType::F64 | ValueType::U64 | ValueType::I64 => 8,
        }
    }
}

/// The canonical name of every type names that type again.
pub proof fn law_type_names_are_canonical(value_type: ValueType)
    ensures
        value_type_of(value_type.name()) == Some(value_type),
{
    reveal_strlit("float");
    reveal_strlit("float32");
    reveal_strlit("float64");
    reveal_strlit("double");
    reveal_strlit("uint8");
    reveal_strlit("uint16");
    reveal_strlit("uint32");
    reveal_strlit("uint64");
    reveal_strlit("int8");
    reveal_strlit("int16");
    reveal_strlit("int32");
    reveal_strlit("int64");
    reveal_strlit("bool");
    let name = value_type.name();
    assert(4 <= name.len() <= 7);
    match value_type {
        ValueType::U16 | ValueType::U32 | ValueType::U64 => {
            assert(name[0] != "double"@[0]);
            assert("uint16"@[4] != "uint32"@[4] && "uint16"@[4] != "uint64"@[4]);
            assert("uint32"@[4] != "uint64"@[4]);
        },
        ValueType::I16 | ValueType::I32 | ValueType::I64 => {
            assert(name[0] != "float"@[0] && name[0] != "uint8"@[0]);
            assert("int16"@[3] != "int32"@[3] && "int16"@[3] != "int64"@[3]);
            assert("int32"@[3] != "int64"@[3]);
        },
        ValueType::F64 => {
            assert(name[5] != "float32"@[5]);
        },
        ValueType::U8 => {
            assert(name[0] != "float"@[0]);
        },
        ValueType::Bool => {
            assert(name[0] != "int8"@[0]);
        },
        _ => {},
    }
}

/// The number that little-endian bytes spell.
pub open spec fn le(bytes: Seq<u8>) -> nat
    decreases bytes.len(),
{
    if bytes.len() == 0 {
        0
    } else {
        bytes[0] as nat + 256 * le(bytes.drop_first())
    }
}

/// The `width` little-endian bytes of `n`.
pub open spec fn le_bytes(n: nat, width: nat) -> Seq<u8>
    decreases width,
{
    if width == 0 {
        Seq::empty()
    } else {
        seq![(n % 256) as u8] + le_bytes(n / 256, (width - 1) as nat)
    }
}

/// 256 to the power of `width`.
pub open spec fn span(width: nat) -> nat
    decreases width,
{
    if width == 0 {
        1
    } else {
        256 * span((width - 1) as nat)
    }
}

/// The signed number whose two's complement in `width` bytes is `n`.
pub open spec fn signed(n: nat, width: nat) -> int {
    if 2 * n < span(width) {
        n as int
    } else {
        n - span(width)
    }
}

/// The two's complement of `v` in `width` bytes.
pub open spec fn unsigned(v: int, width: nat) -> nat {
    if v < 0 {
        (v + span(width)) as nat
    } else {
        v as nat
    }
}

proof fn lemma_spans()
    ensures
        span(1) == 0x100,
        span(2) == 0x1_0000,
        span(4) == 0x1_0000_0000,
        span(8) == 0x1_0000_0000_0000_0000,
{
    reveal_with_fuel(span, 9);
}

/// Writing a number as bytes and reading the bytes gives the number back.
pub proof fn law_le_bytes_round_trip(n: nat, width: nat)
    requires
        n < span(width),
    ensures
        le_bytes(n, width).len() == width,
        le(le_bytes(n, width)) == n,
    decreases width,
{
    if width > 0 {
        let rest = (width - 1) as nat;
        assert(n / 256 < span(rest));
        law_le_bytes_round_trip(n / 256, rest);
        assert(le_bytes(n, width).drop_first() =~= le_bytes(n / 256, rest));
    }
}

proof fn lemma_le_bound(bytes: Seq<u8>)
    ensures
        le(bytes) < span(bytes.len()),
    decreases bytes.len(),
{
    if bytes.len() > 0 {
        lemma_le_bound(bytes.drop_first());
    }
}

/// Read little-endian bytes.
fn read_le(bytes: &[u8]) -> (res: u64)
    requires
        bytes@.len() <= 8,
    ensures
        res == le(bytes@),
        res < span(bytes@.len()),
{
    let mut value: u64 = 0;
    let mut i: usize = bytes.len();
    proof {
        lemma_spans();
        assert(bytes@.skip(i as int) =~= Seq::<u8>::empty());
    }
    while i > 0
        invariant
            i <= bytes@.len(),
            bytes@.len() <= 8,
            value == le(bytes@.skip(i as int)),
            span(8) == 0x1_0000_0000_0000_0000,
        decreases i,
    {
        proof {
            let tail = bytes@.skip(i - 1);
            assert(tail.drop_first() =~= bytes@.skip(i as int));
            lemma_le_bound(tail);
            lemma_span_grows(tail.len(), 8);
        }
        i = i - 1;
        value = bytes[i] as u64 + 256 * value;
    }
    proof {
        assert(bytes@.skip(0) =~= bytes@);
        lemma_le_bound(bytes@);
    }
    value
}

proof fn lemma_span_grows(small: nat, large: nat)
    requires
        small <= large,
    ensures
        0 < span(small) <= span(large),
    decreases large,
{
    if small < large {
        lemma_span_grows(small, (large - 1) as nat);
    } else if small > 0 {
        lemma_span_grows((small - 1) as nat, (large - 1) as nat);
    }
}

/// Append the `width` little-endian bytes of `n`.
fn push_le(out: &mut Vec<u8>, n: u64, width: usize)
    ensures
        final(out)@ == old(out)@ + le_bytes(n as nat, width as nat),
{
    let mut rest: u64 = n;
    let mut left: usize = width;
    assert(out@ + le_bytes(n as nat, width as nat) =~= old(out)@ + le_bytes(
        n as nat,
        width as nat,
    ));
    while left > 0
        invariant
            out@ + le_bytes(rest as nat, left as nat) == old(out)@ + le_bytes(
                n as nat,
                width as nat,
            ),
        decreases left,
    {
        let ghost before = out@;
        out.push((rest % 256) as u8);
        assert(out@ + le_bytes(rest as nat / 256, (left - 1) as nat) =~= before + le_bytes(
            rest as nat,
            left as nat,
        ));
        rest = rest / 256;
        left = left - 1;
    }
    assert(out@ =~= out@ + le_bytes(rest as nat, 0));
}

/// A decoded `PARAM_READ` value; floats are IEEE 754 bit patterns.
#[derive(Debug, Clone, Copy, PartialEq, Eq, Structural)]
pub enum ParamValue {
    F32(u32),
    F64(u64),
    U8(u8),
    U16(u16),
    U32(u32),
    U64(u64),
    I8(i8),
    I16(i16),
    I32(i32),
    I64(i64),
    Bool(bool),
}

/// The sign-free part of a single-precision bit pattern.
pub open spec fn f32_magnitude(bits: u32) -> int {
    bits as int % 0x8000_0000
}

/// The sign-free part of a double-precision bit pattern.
pub open spec fn f64_magnitude(bits: u64) -> int {
    bits as int % 0x8000_0000_0000_0000
}

/// Equality of single-precision numbers: no pattern equals a NaN, and both zeros are equal.
pub open spec fn f32_equal(a: u32, b: u32) -> bool {
    &&& f32_magnitude(a) <= 0x7F80_0000
    &&& f32_magnitude(b) <= 0x7F80_0000
    &&& a == b || (f32_magnitude(a) == 0 && f32_magnitude(b) == 0)
}

/// Equality of double-precision numbers: no pattern equals a NaN, and both zeros are equal.
pub open spec fn f64_equal(a: u64, b: u64) -> bool {
    &&& f64_magnitude(a) <= 0x7FF0_0000_0000_0000
    &&& f64_magnitude(b) <= 0x7FF0_0000_0000_0000
    &&& a == b || (f64_magnitude(a) == 0 && f64_magnitude(b) == 0)
}

/// Whether a single-precision bit pattern is a number greater than zero (infinity is one).
pub open spec fn f32_positive(bits: u32) -> bool {
    0 < bits <= 0x7F80_0000
}

/// Whether a single-precision bit pattern is a finite number greater than zero.
pub open spec fn f32_positive_finite(bits: u32) -> bool {
    0 < bits < 0x7F80_0000
}

impl ParamValue {
    /// The declared type that fits this value.
    pub open spec fn type_of(self) -> ValueType {
        match self {
            ParamValue::F32(_) => ValueType::F32,
            ParamValue::F64(_) => ValueType::F64,
            ParamValue::U8(_) => ValueType::U8,
            ParamValue::U16(_) => ValueType::U16,
            ParamValue::U32(_) => ValueType::U32,
            ParamValue::U64(_) => ValueType::U64,
            ParamValue::I8(_) => ValueType::I8,
            ParamValue::I16(_) => ValueType::I16,
            ParamValue::I32(_) => ValueType::I32,
            ParamValue::I64(_) => ValueType::I64,
            ParamValue::Bool(_) => ValueType::Bool,
        }
    }

    /// The unsigned number that the bytes of this value spell.
    pub open spec fn code(self) -> nat {
        match self {
            ParamValue::F32(v) => v as nat,
            ParamValue::F64(v) => v as nat,
            ParamValue::U8(v) => v as nat,
            ParamValue::U16(v) => v as nat,
            ParamValue::U32(v) => v as nat,
            ParamValue::U64(v) => v as nat,
            ParamValue::I8(v) => unsigned(v as int, 1),
            ParamValue::I16(v) => unsigned(v as int, 2),
            ParamValue::I32(v) => unsigned(v as int, 4),
            ParamValue::I64(v) => unsigned(v as int, 8),
            ParamValue::Bool(v) => if v {
                1
            } else {
                0
            },
        }
    }

    /// The value as text, where `float_text` stands for a float.
    pub open spec fn shown(self, float_text: Seq<char>) -> Seq<char> {
        match self {
            ParamValue::F32(_) => float_text,
            ParamValue::F64(_) => float_text,
            ParamValue::U8(v) => text::dec(v as nat),
            ParamValue::U16(v) => text::dec(v as nat),
            ParamValue::U32(v) => text::dec(v as nat),
            ParamValue::U64(v) => text::dec(v as nat),
            ParamValue::I8(v) => text::dec_int(v as int),
            ParamValue::I16(v) => text::dec_int(v as int),
            ParamValue::I32(v) => text::dec_int(v as int),
            ParamValue::I64(v) => text::dec_int(v as int),
            ParamValue::Bool(v) => if v {
                "true"@
            } else {
                "false"@
            },
        }
    }

    /// The name of the variant.
    pub open spec fn variant(self) -> Seq<char> {
        match self {
            ParamValue::F32(_) => "F32"@,
            ParamValue::F64(_) => "F64"@,
            ParamValue::U8(_) => "U8"@,
            ParamValue::U16(_) => "U16"@,
            ParamValue::U32(_) => "U32"@,
            ParamValue::U64(_) => "U64"@,
            ParamValue::I8(_) => "I8"@,
            ParamValue::I16(_) => "I16"@,
            ParamValue::I32(_) => "I32"@,
            ParamValue::I64(_) => "I64"@,
            ParamValue::Bool(_) => "Bool"@,
        }
    }

    /// Equality of values: floats compare as numbers, everything else by type and value.
    pub open spec fn equals(self, other: ParamValue) -> bool {
        match (self, other) {
            (ParamValue::F32(a), ParamValue::F32(b)) => f32_equal(a, b),
            (ParamValue::F64(a), ParamValue::F64(b)) => f64_equal(a, b),
            _ => self == other,
        }
    }

    /// The bit pattern when the device declared a single-precision float.
    pub fn as_f32(self) -> (res: Option<u32>)
        ensures
            res == (match self {
                ParamValue::F32(v) => Some(v),
                _ => None,
            }),
    {
        match self {
            ParamValue::F32(v) => Some(v),
            _ => None,
        }
    }

    /// Whether this value can be written to an endpoint of the declared type.
    pub fn matches_type(self, declared: ValueType) -> (res: bool)
        ensures
            res == (self.type_of() == declared),
    {
        let own: ValueType = match self {
            ParamValue::F32(_) => ValueType::F32,
            ParamValue::F64(_) => ValueType::F64,
            ParamValue::U8(_) => ValueType::U8,
            ParamValue::U16(_) => ValueType::U16,
            ParamValue::U32(_) => ValueType::U32,
            ParamValue::U64(_) => ValueType::U64,
            ParamValue::I8(_) => ValueType::I8,
            ParamValue::I16(_) => ValueType::I16,
            ParamValue::I32(_) => ValueType::I32,
            ParamValue::I64(_) => ValueType::I64,
            ParamValue::Bool(_) => ValueType::Bool,
        };
        own == declared
    }

    /// Whether two values are equal, as a comparison of the typed values decides it.
    pub fn same_value(self, other: ParamValue) -> (res: bool)
        ensures
            res == self.equals(other),
    {
        match (self, other) {
            (ParamValue::F32(a), ParamValue::F32(b)) => {
                let (x, y): (u32, u32) = (a % 0x8000_0000, b % 0x8000_0000);
                x <= 0x7F80_0000 && y <= 0x7F80_0000 && (a == b || (x == 0 && y == 0))
            },
            (ParamValue::F64(a), ParamValue::F64(b)) => {
                let (x, y): (u64, u64) = (a % 0x8000_0000_0000_0000, b % 0x8000_0000_0000_0000);
                x <= 0x7FF0_0000_0000_0000 && y <= 0x7FF0_0000_0000_0000 && (a == b || (x == 0 && y
                    == 0))
            },
            _ => self == other,
        }
    }

    /// The little-endian bytes that a `PARAM_WRITE` carries for this value.
    pub fn to_write_bytes(self) -> (res: Vec<u8>)
        ensures
            res@ == le_bytes(self.code(), self.type_of().width()),
            res@.len() == self.type_of().width(),
    {
        let mut out: Vec<u8> = Vec::new();
        proof {
            lemma_spans();
            lemma_le_bytes_len(self.code(), self.type_of().width());
        }
        match self {
            ParamValue::F32(v) => push_le(&mut out, v as u64, 4),
            ParamValue::F64(v) => push_le(&mut out, v, 8),
            ParamValue::U8(v) => push_le(&mut out, v as u64, 1),
            ParamValue::U16(v) => push_le(&mut out, v as u64, 2),
            ParamValue::U32(v) => push_le(&mut out, v as u64, 4),
            ParamValue::U64(v) => push_le(&mut out, v, 8),
            ParamValue::I8(v) => {
                let n: i64 = if v < 0 { v as i64 + 0x100 } else { v as i64 };
                push_le(&mut out, n as u64, 1)
            },
            ParamValue::I16(v) => {
                let n: i64 = if v < 0 { v as i64 + 0x1_0000 } else { v as i64 };
                push_le(&mut out, n as u64, 2)
            },
            ParamValue::I32(v) => {
                let n: i64 = if v < 0 { v as i64 + 0x1_0000_0000 } else { v as i64 };
                push_le(&mut out, n as u64, 4)
            },
            ParamValue::I64(v) => {
                let n: i128 = if v < 0 { v as i128 + 0x1_0000_0000_0000_0000 } else { v as i128 };
                push_le(&mut out, n as u64, 8)
            },
            ParamValue::Bool(v) => push_le(&mut out, if v { 1 } else { 0 }, 1),
        }
        assert(out@ =~= le_bytes(self.code(), self.type_of().width()));
        out
    }

    /// The value as text. `float_text` is the text of the number when this value is a float.
    pub fn to_text(self, float_text: &str) -> (res: String)
        ensures
            res@ == self.shown(float_text@),
    {
        let mut out = String::new();
        match self {
            ParamValue::F32(_) => out.append(float_text),
            ParamValue::F64(_) => out.append(float_text),
            ParamValue::U8(v) => push_dec(&mut out, v as u64),
            ParamValue::U16(v) => push_dec(&mut out, v as u64),
            ParamValue::U32(v) => push_dec(&mut out, v as u64),
            ParamValue::U64(v) => push_dec(&mut out, v),
            ParamValue::I8(v) => push_dec_int(&mut out, v as i64),
            ParamValue::I16(v) => push_dec_int(&mut out, v as i64),
            ParamValue::I32(v) => push_dec_int(&mut out, v as i64),
            ParamValue::I64(v) => push_dec_int(&mut out, v),
            ParamValue::Bool(v) => out.append(if v { "true" } else { "false" }),
        }
        assert(out@ =~= self.shown(float_text@));
        out
    }

    /// The value with its type, as shown when a value does not fit an endpoint.
    pub fn to_debug_text(self, float_text: &str) -> (res: String)
        ensures
            res@ == self.variant() + "("@ + self.shown(float_text@) + ")"@,
    {
        let name: &str = match self {
            ParamValue::F32(_) => "F32",
            ParamValue::F64(_) => "F64",
            ParamValue::U8(_) => "U8",
            ParamValue::U16(_) => "U16",
            ParamValue::U32(_) => "U32",
            ParamValue::U64(_) => "U64",
            ParamValue::I8(_) => "I8",
            ParamValue::I16(_) => "I16",
            ParamValue::I32(_) => "I32",
            ParamValue::I64(_) => "I64",
            ParamValue::Bool(_) => "Bool",
        };
        let shown: String = self.to_text(float_text);
        let mut out: String = name.to_owned();
        out.append("(");
        out.append(shown.as_str());
        out.append(")");
        out
    }
}

proof fn lemma_le_bytes_len(n: nat, width: nat)
    ensures
        le_bytes(n, width).len() == width,
    decreases width,
{
    if width > 0 {
        lemma_le_bytes_len(n / 256, (width - 1) as nat);
    }
}

/// The message for a value whose byte count does not fit its declared type.
pub open spec fn width_text(value_type: ValueType, len: nat) -> Seq<char> {
    if value_type == ValueType::Bool {
        "endpoint is declared bool (1 byte) but the device returned "@ + text::dec(len)
            + " byte(s)"@
    } else {
        "endpoint is declared "@ + value_type.name() + " ("@ + text::dec(value_type.width())
            + " byte(s)) but the device returned "@ + text::dec(len) + " byte(s)"@
    }
}

/// What little-endian bytes mean for a declared type.
pub open spec fn decoded(bytes: Seq<u8>, value_type: ValueType) -> Result<
    ParamValue,
    error::Fault,
> {
    let n = le(bytes);
    if bytes.len() != value_type.width() && !(value_type == ValueType::Bool && bytes.len() == 4) {
        Err(error::broken(width_text(value_type, bytes.len())))
    } else {
        Ok(
            match value_type {
                ValueType::F32 => ParamValue::F32(n as u32),
                ValueType::F64 => ParamValue::F64(n as u64),
                ValueType::U8 => ParamValue::U8(n as u8),
                ValueType::U16 => ParamValue::U16(n as u16),
                ValueType::U32 => ParamValue::U32(n as u32),
                ValueType::U64 => ParamValue::U64(n as u64),
                ValueType::I8 => ParamValue::I8(signed(n, 1) as i8),
                ValueType::I16 => ParamValue::I16(signed(n, 2) as i16),
                ValueType::I32 => ParamValue::I32(signed(n, 4) as i32),
                ValueType::I64 => ParamValue::I64(signed(n, 8) as i64),
                ValueType::Bool => ParamValue::Bool(n != 0),
            },
        )
    }
}

/// Decode little-endian `PARAM_READ` bytes using the device's declared type.
pub fn decode_value(bytes: &[u8], value_type: ValueType) -> (res: Result<ParamValue, MotorError>)
    ensures
        match res {
            Ok(value) => decoded(bytes@, value_type) == Ok::<ParamValue, error::Fault>(value),
            Err(err) => decoded(bytes@, value_type) == Err::<ParamValue, error::Fault>(err@),
        },
{
    let len: usize = bytes.len();
    if len != value_type.byte_width() && !(value_type == ValueType::Bool && len == 4) {
        let mut message: String;
        if value_type == ValueType::Bool {
            message = "endpoint is declared bool (1 byte) but the device returned ".to_owned();
        } else {
            message = "endpoint is declared ".to_owned();
            message.append(value_type.label());
            message.append(" (");
            push_dec(&mut message, value_type.byte_width() as u64);
            message.append(" byte(s)) but the device returned ");
        }
        push_dec(&mut message, len as u64);
        message.append(" byte(s)");
        return Err(MotorError::Protocol(message));
    }
    let n: u64 = read_le(bytes);
    proof {
        lemma_spans();
    }
    Ok(
        match value_type {
            ValueType::F32 => ParamValue::F32(n as u32),
            ValueType::F64 => ParamValue::F64(n),
            ValueType::U8 => ParamValue::U8(n as u8),
            ValueType::U16 => ParamValue::U16(n as u16),
            ValueType::U32 => ParamValue::U32(n as u32),
            ValueType::U64 => ParamValue::U64(n),
            ValueType::I8 => ParamValue::I8(if n < 0x80 { n as i8 } else { (n as i64 - 0x100) as i8 }),
            ValueType::I16 => ParamValue::I16(
                if n < 0x8000 { n as i16 } else { (n as i64 - 0x1_0000) as i16 },
            ),
            ValueType::I32 => ParamValue::I32(
                if n < 0x8000_0000 { n as i32 } else { (n as i64 - 0x1_0000_0000) as i32 },
            ),
            ValueType::I64 => ParamValue::I64(
                if n < 0x8000_0000_0000_0000 { n as i64 } else {
                    (n as i128 - 0x1_0000_0000_0000_0000) as i64
                },
            ),
            ValueType::Bool => ParamValue::Bool(n != 0),
        },
    )
}

/// What a read of an endpoint gives back of a write: the bytes of a value, decoded with
/// the type of that value, are the value.
pub proof fn law_decode_undoes_write(value: ParamValue)
    ensures
        decoded(le_bytes(value.code(), value.type_of().width()), value.type_of()) == Ok::<
            ParamValue,
            error::Fault,
        >(value),
{
    lemma_spans();
    law_le_bytes_round_trip(value.code(), value.type_of().width());
}

/// A value is decoded exactly when the device returned as many bytes as it declared, or
/// four bytes for a `bool`.
pub proof fn law_decode_succeeds_on_the_declared_width(bytes: Seq<u8>, value_type: ValueType)
    ensures
        decoded(bytes, value_type) is Ok <==> (bytes.len() == value_type.width() || (value_type
            == ValueType::Bool && bytes.len() == 4)),
        decoded(bytes, value_type) matches Ok(value) ==> value.type_of() == value_type,
        decoded(bytes, value_type) matches Err(fault) ==> fault.kind
            == error::ErrorKind::Protocol,
{
}

/// The current limit that a command carries when the caller does not specify one, in
/// amperes: the bit pattern of 200.0.
pub const DEFAULT_CMD_CURRENT_LIMIT: u32 = 0x4348_0000;

/// Replace an unspecified current limit by [`DEFAULT_CMD_CURRENT_LIMIT`].
///
/// A limit that is not greater than zero, a NaN included, counts as unspecified: the
/// firmware turns the value of this field into the torque limit of every control mode, so
/// a zero would disable the axis until it is power-cycled.
pub fn resolve_cur_limit(cur_limit_a: u32) -> (res: u32)
    ensures
        res == (if f32_positive(cur_limit_a) {
            cur_limit_a
        } else {
            DEFAULT_CMD_CURRENT_LIMIT
        }),
        f32_positive(res),
        res == cur_limit_a || res == 0x4348_0000,
        f32_positive(cur_limit_a) ==> res == cur_limit_a,
{
    if 0 < cur_limit_a && cur_limit_a <= 0x7F80_0000 {
        cur_limit_a
    } else {
        DEFAULT_CMD_CURRENT_LIMIT
    }
}

/// Each value type has its own words, and no other text names it.
pub proof fn law_type_words_are_the_only_ones(raw: Seq<char>)
    ensures
        value_type_of(raw) == Some(ValueType::F32) <==> raw == "float"@ || raw == "float32"@,
        value_type_of(raw) == Some(ValueType::F64) <==> raw == "float64"@ || raw == "double"@,
        value_type_of(raw) == Some(ValueType::U8) <==> raw == "uint8"@,
        value_type_of(raw) == Some(ValueType::U16) <==> raw == "uint16"@,
        value_type_of(raw) == Some(ValueType::U32) <==> raw == "uint32"@,
        value_type_of(raw) == Some(ValueType::U64) <==> raw == "uint64"@,
        value_type_of(raw) == Some(ValueType::I8) <==> raw == "int8"@,
        value_type_of(raw) == Some(ValueType::I16) <==> raw == "int16"@,
        value_type_of(raw) == Some(ValueType::I32) <==> raw == "int32"@,
        value_type_of(raw) == Some(ValueType::I64) <==> raw == "int64"@,
        value_type_of(raw) == Some(ValueType::Bool) <==> raw == "bool"@,
{
    law_type_names_are_canonical(ValueType::F32);
    law_type_names_are_canonical(ValueType::F64);
    law_type_names_are_canonical(ValueType::U8);
    law_type_names_are_canonical(ValueType::U16);
    law_type_names_are_canonical(ValueType::U32);
    law_type_names_are_canonical(ValueType::U64);
    law_type_names_are_canonical(ValueType::I8);
    law_type_names_are_canonical(ValueType::I16);
    law_type_names_are_canonical(ValueType::I32);
    law_type_names_are_canonical(ValueType::I64);
    law_type_names_are_canonical(ValueType::Bool);
    reveal_strlit("float32");
    reveal_strlit("float");
    reveal_strlit("double");
    assert("float32"@.len() == 7 && "float"@.len() == 5 && "double"@.len() == 6);
    assert("double"@[0] != "float"@[0]);
}

/// Bytes count by their position, the first one least: bytes behind others count 256 times as
/// much for each byte before them, and a single byte counts as itself.
pub proof fn law_bytes_count_by_position(low: Seq<u8>, high: Seq<u8>, byte: u8)
    ensures
        le(low + high) == le(low) + le(high) * vstd::arithmetic::power::pow(256, low.len()),
        le(seq![byte]) == byte,
    decreases low.len(),
{
    reveal_with_fuel(le, 2);
    assert(seq![byte].drop_first() =~= Seq::<u8>::empty());
    let h = le(high) as int;
    if low.len() == 0 {
        assert(low + high =~= high);
        vstd::arithmetic::power::lemma_pow0(256);
        assert(h * 1 == h);
    } else {
        let rest = low.drop_first();
        law_bytes_count_by_position(rest, high, byte);
        assert((low + high).drop_first() =~= rest + high);
        let p = vstd::arithmetic::power::pow(256, rest.len());
        vstd::arithmetic::power::lemma_pow_adds(256, rest.len(), 1);
        vstd::arithmetic::power::lemma_pow1(256);
        assert(256 * (h * p) == h * (p * 256)) by (nonlinear_arith);
    }
}

/// The bytes of a number are its lowest eight bits first, then the next eight, and so on.
pub proof fn law_numbers_are_cut_into_bytes(n: u64, width: nat, k: int)
    requires
        0 <= k < width,
        k < 8,
    ensures
        le_bytes(n as nat, width).len() == width,
        le_bytes(n as nat, width)[k] == ((n >> ((8 * k) as u64)) & 0xFF) as u8,
    decreases k,
{
    lemma_le_bytes_len(n as nat, width);
    if k == 0 {
        assert((n >> 0u64) & 0xFF == n % 256) by (bit_vector);
    } else {
        let rest = (n / 256) as u64;
        let before = (8 * (k - 1)) as u64;
        let shift = (8 * k) as u64;
        law_numbers_are_cut_into_bytes(rest, (width - 1) as nat, k - 1);
        assert((n / 256) >> before == n >> shift) by (bit_vector)
            requires
                shift == before + 8,
                before < 56,
        ;
        assert(le_bytes(n as nat, width)[k] == le_bytes(rest as nat, (width - 1) as nat)[k - 1]);
    }
}

/// A value is written as its own bits: integers and floats as they stand in memory, `true` as
/// one and `false` as zero.
pub proof fn law_values_are_written_as_their_bits(value: ParamValue)
    ensures
        match value {
            ParamValue::F32(v) => value.code() == v,
            ParamValue::F64(v) => value.code() == v,
            ParamValue::U8(v) => value.code() == v,
            ParamValue::U16(v) => value.code() == v,
            ParamValue::U32(v) => value.code() == v,
            ParamValue::U64(v) => value.code() == v,
            ParamValue::I8(v) => value.code() == v as u8,
            ParamValue::I16(v) => value.code() == v as u16,
            ParamValue::I32(v) => value.code() == v as u32,
            ParamValue::I64(v) => value.code() == v as u64,
            ParamValue::Bool(v) => value.code() == if v {
                1nat
            } else {
                0
            },
        },
{
    lemma_spans();
    match value {
        ParamValue::I8(v) => {
            assert(v as u8 == if v < 0 { v + 0x100 } else { v as int }) by (bit_vector);
        },
        ParamValue::I16(v) => {
            assert(v as u16 == if v < 0 { v + 0x1_0000 } else { v as int }) by (bit_vector);
        },
        ParamValue::I32(v) => {
            assert(v as u32 == if v < 0 { v + 0x1_0000_0000 } else { v as int }) by (bit_vector);
        },
        ParamValue::I64(v) => {
            assert(v as u64 == if v < 0 { v + 0x1_0000_0000_0000_0000 } else { v as int })
                by (bit_vector);
        },
        _ => {},
    }
}

/// A type is as wide as its values need: the largest value of an unsigned type fills its bytes,
/// a signed type and a float are as wide as the unsigned type of the same bits, and a `bool`
/// has one byte.
pub proof fn law_types_are_as_wide_as_their_values(value_type: ValueType)
    ensures
        8 * value_type.width() == (match value_type {
            ValueType::U8 | ValueType::I8 | ValueType::Bool => u8::BITS,
            ValueType::U16 | ValueType::I16 => u16::BITS,
            ValueType::U32 | ValueType::I32 | ValueType::F32 => u32::BITS,
            ValueType::U64 | ValueType::I64 | ValueType::F64 => u64::BITS,
        }),
        span(ValueType::U8.width()) == u8::MAX + 1,
        span(ValueType::U16.width()) == u16::MAX + 1,
        span(ValueType::U32.width()) == u32::MAX + 1,
        span(ValueType::U64.width()) == u64::MAX + 1,
{
    lemma_spans();
}

/// Bytes are read as a value of the declared type and of nothing else: each type gives values of
/// its own kind, whose bits the bytes spell, and a `bool` is true when any byte is not zero.
pub proof fn law_bytes_are_read_as_the_declared_type(bytes: Seq<u8>, value_type: ValueType)
    requires
        decoded(bytes, value_type) is Ok,
    ensures
        match (value_type, decoded(bytes, value_type)->Ok_0) {
            (ValueType::F32, ParamValue::F32(v)) => v == le(bytes),
            (ValueType::F64, ParamValue::F64(v)) => v == le(bytes),
            (ValueType::U8, ParamValue::U8(v)) => v == le(bytes),
            (ValueType::U16, ParamValue::U16(v)) => v == le(bytes),
            (ValueType::U32, ParamValue::U32(v)) => v == le(bytes),
            (ValueType::U64, ParamValue::U64(v)) => v == le(bytes),
            (ValueType::I8, ParamValue::I8(v)) => v as u8 == le(bytes),
            (ValueType::I16, ParamValue::I16(v)) => v as u16 == le(bytes),
            (ValueType::I32, ParamValue::I32(v)) => v as u32 == le(bytes),
            (ValueType::I64, ParamValue::I64(v)) => v as u64 == le(bytes),
            (ValueType::Bool, ParamValue::Bool(v)) => v <==> exists|i: int|
                0 <= i < bytes.len() && #[trigger] bytes[i] != 0,
            _ => false,
        },
{
    lemma_spans();
    lemma_le_bound(bytes);
    lemma_le_zero(bytes);
    law_values_are_written_as_their_bits(decoded(bytes, value_type)->Ok_0);
}

proof fn lemma_le_zero(bytes: Seq<u8>)
    ensures
        le(bytes) != 0 <==> exists|i: int| 0 <= i < bytes.len() && #[trigger] bytes[i] != 0,
    decreases bytes.len(),
{
    if bytes.len() > 0 {
        let rest = bytes.drop_first();
        lemma_le_zero(rest);
        if le(rest) != 0 {
            let i = choose|i: int| 0 <= i < rest.len() && #[trigger] rest[i] != 0;
            assert(bytes[i + 1] == rest[i]);
        }
        if exists|i: int| 0 <= i < bytes.len() && #[trigger] bytes[i] != 0 {
            let i = choose|i: int| 0 <= i < bytes.len() && #[trigger] bytes[i] != 0;
            if i > 0 {
                assert(rest[i - 1] == bytes[i]);
            }
        }
    }
}

/// Two's complement is what turns a signed number into an unsigned one of the same width, and
/// back.
pub proof fn law_two_s_complement_keeps_the_bits(n: u64, v: i64)
    ensures
        signed(n as nat, 8) == n as i64,
        unsigned(v as int, 8) == v as u64,
        -0x8000 <= v < 0x8000 ==> unsigned(v as int, 2) == (v as i16) as u16,
        n < 0x1_0000 ==> signed(n as nat, 2) == (n as u16) as i16,
        n < 0x100 ==> signed(n as nat, 1) == (n as u8) as i8,
{
    lemma_spans();
    assert(n as i64 == if n < 0x8000_0000_0000_0000 { n as int } else {
        n - 0x1_0000_0000_0000_0000
    }) by (bit_vector);
    assert(v as u64 == if v < 0 { v + 0x1_0000_0000_0000_0000 } else { v as int }) by (bit_vector);
    if -0x8000 <= v < 0x8000 {
        let w = v as i16;
        assert(w as u16 == if w < 0 { w + 0x1_0000 } else { w as int }) by (bit_vector);
    }
    if n < 0x1_0000 {
        let w = n as u16;
        assert(w as i16 == if w < 0x8000 { w as int } else { w - 0x1_0000 }) by (bit_vector);
    }
    if n < 0x100 {
        let w = n as u8;
        assert(w as i8 == if w < 0x80 { w as int } else { w - 0x100 }) by (bit_vector);
    }
}

/// Values of different types are never equal; a value equals itself unless it is a float that
/// is not a number, and such a float equals nothing; beside that only the two zeros are equal.
pub proof fn law_floats_compare_as_numbers(a: u32, b: u32, x: u64, y: u64)
    ensures
        ParamValue::F32(a).equals(ParamValue::F32(b)) <==> (a == b || (a | b) << 1 == 0) && !((a
            & 0x7F80_0000) == 0x7F80_0000 && (a & 0x007F_FFFF) != 0) && !((b & 0x7F80_0000)
            == 0x7F80_0000 && (b & 0x007F_FFFF) != 0),
        ParamValue::F64(x).equals(ParamValue::F64(y)) <==> (x == y || (x | y) << 1 == 0) && !((x
            & 0x7FF0_0000_0000_0000) == 0x7FF0_0000_0000_0000 && (x & 0x000F_FFFF_FFFF_FFFF) != 0)
            && !((y & 0x7FF0_0000_0000_0000) == 0x7FF0_0000_0000_0000 && (y & 0x000F_FFFF_FFFF_FFFF)
            != 0),
{
    assert(a % 0x8000_0000 <= 0x7F80_0000 <==> !((a & 0x7F80_0000) == 0x7F80_0000 && (a
        & 0x007F_FFFF) != 0)) by (bit_vector);
    assert(b % 0x8000_0000 <= 0x7F80_0000 <==> !((b & 0x7F80_0000) == 0x7F80_0000 && (b
        & 0x007F_FFFF) != 0)) by (bit_vector);
    assert((a | b) << 1 == 0u32 <==> a % 0x8000_0000 == 0 && b % 0x8000_0000 == 0) by (bit_vector);
    assert(x % 0x8000_0000_0000_0000 <= 0x7FF0_0000_0000_0000 <==> !((x & 0x7FF0_0000_0000_0000)
        == 0x7FF0_0000_0000_0000 && (x & 0x000F_FFFF_FFFF_FFFF) != 0)) by (bit_vector);
    assert(y % 0x8000_0000_0000_0000 <= 0x7FF0_0000_0000_0000 <==> !((y & 0x7FF0_0000_0000_0000)
        == 0x7FF0_0000_0000_0000 && (y & 0x000F_FFFF_FFFF_FFFF) != 0)) by (bit_vector);
    assert((x | y) << 1 == 0u64 <==> x % 0x8000_0000_0000_0000 == 0 && y % 0x8000_0000_0000_0000
        == 0) by (bit_vector);
}

/// Values that are no floats are equal exactly when they have one type and one number, so the
/// bytes that are written for them are the same.
pub proof fn law_equal_values_are_written_alike(a: ParamValue, b: ParamValue)
    requires
        !(a is F32) && !(a is F64),
    ensures
        a.equals(b) <==> a.type_of() == b.type_of() && a.code() == b.code(),
{
    lemma_spans();
}

/// A value has the type whose bytes it is read from, so it may be written where it was read.
pub proof fn law_values_have_the_type_they_are_read_with(value: ParamValue)
    ensures
        match (value, value.type_of()) {
            (ParamValue::F32(_), ValueType::F32) => true,
            (ParamValue::F64(_), ValueType::F64) => true,
            (ParamValue::U8(_), ValueType::U8) => true,
            (ParamValue::U16(_), ValueType::U16) => true,
            (ParamValue::U32(_), ValueType::U32) => true,
            (ParamValue::U64(_), ValueType::U64) => true,
            (ParamValue::I8(_), ValueType::I8) => true,
            (ParamValue::I16(_), ValueType::I16) => true,
            (ParamValue::I32(_), ValueType::I32) => true,
            (ParamValue::I64(_), ValueType::I64) => true,
            (ParamValue::Bool(_), ValueType::Bool) => true,
            _ => false,
        },
{
}

/// A float is positive when its sign bit is clear and it is neither zero nor not a number; it is
/// finite as well when not all bits of its exponent are set.
pub proof fn law_positive_floats_go_by_their_bits(bits: u32)
    ensures
        f32_positive(bits) <==> bits & 0x8000_0000 == 0 && bits != 0 && !((bits & 0x7F80_0000)
            == 0x7F80_0000 && (bits & 0x007F_FFFF) != 0),
        f32_positive_finite(bits) <==> bits & 0x8000_0000 == 0 && bits != 0 && (bits & 0x7F80_0000)
            != 0x7F80_0000,
{
    assert(0 < bits && bits <= 0x7F80_0000 <==> bits & 0x8000_0000 == 0 && bits != 0 && !((bits
        & 0x7F80_0000) == 0x7F80_0000 && (bits & 0x007F_FFFF) != 0)) by (bit_vector);
    assert(0 < bits && bits < 0x7F80_0000 <==> bits & 0x8000_0000 == 0 && bits != 0 && (bits
        & 0x7F80_0000) != 0x7F80_0000) by (bit_vector);
}

/// Integers are shown in decimal notation, truth values as `true` and `false`, and a float as
/// the text of its number.
pub proof fn law_values_are_shown_as_numbers(value: ParamValue, number: Seq<char>)
    ensures
        match value {
            ParamValue::F32(_) | ParamValue::F64(_) => value.shown(number) == number,
            ParamValue::U8(v) => value.shown(number) == text::dec_int(v as int),
            ParamValue::U16(v) => value.shown(number) == text::dec_int(v as int),
            ParamValue::U32(v) => value.shown(number) == text::dec_int(v as int),
            ParamValue::U64(v) => value.shown(number) == text::dec_int(v as int),
            ParamValue::I8(v) => value.shown(number) == text::dec_int(v as int),
            ParamValue::I16(v) => value.shown(number) == text::dec_int(v as int),
            ParamValue::I32(v) => value.shown(number) == text::dec_int(v as int),
            ParamValue::I64(v) => value.shown(number) == text::dec_int(v as int),
            ParamValue::Bool(v) => (value.shown(number) == "true"@ <==> v) && (value.shown(number)
                == "false"@ <==> !v),
        },
{
    reveal_strlit("true");
    reveal_strlit("false");
    assert("true"@.len() == 4 && "false"@.len() == 5);
}

/// A type is named by a word that the device itself uses for it, a float by the shortest one.
pub proof fn law_types_are_named_as_the_device_does(value: ParamValue)
    ensures
        match value {
            ParamValue::F32(_) => value.type_of().name() == "float"@ && value.variant() == "F32"@,
            ParamValue::F64(_) => value.type_of().name() == "float64"@ && value.variant() == "F64"@,
            ParamValue::U8(_) => value.type_of().name() == "uint8"@ && value.variant() == "U8"@,
            ParamValue::U16(_) => value.type_of().name() == "uint16"@ && value.variant() == "U16"@,
            ParamValue::U32(_) => value.type_of().name() == "uint32"@ && value.variant() == "U32"@,
            ParamValue::U64(_) => value.type_of().name() == "uint64"@ && value.variant() == "U64"@,
            ParamValue::I8(_) => value.type_of().name() == "int8"@ && value.variant() == "I8"@,
            ParamValue::I16(_) => value.type_of().name() == "int16"@ && value.variant() == "I16"@,
            ParamValue::I32(_) => value.type_of().name() == "int32"@ && value.variant() == "I32"@,
            ParamValue::I64(_) => value.type_of().name() == "int64"@ && value.variant() == "I64"@,
            ParamValue::Bool(_) => value.type_of().name() == "bool"@ && value.variant() == "Bool"@,
        },
{
}

} // verus!
