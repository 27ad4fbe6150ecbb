//! The GGUF header and key/value metadata block, read from the start of a file.
//!
//! The scan stops after the metadata block: tensor descriptors and tensor payloads are never
//! looked at. It works on a prefix of the file and the file's length; when the prefix is too
//! short to decide, it says how many bytes it needs, so a caller can read more and scan again.
use vstd::prelude::*;
use vstd::bytes::{
    spec_u16_from_le_bytes, spec_u32_from_le_bytes, spec_u64_from_le_bytes, u16_from_le_bytes,
    u32_from_le_bytes, u64_from_le_bytes,
};
use vstd::utf8::{decode_utf8, valid_utf8};

use crate::error::opt_text;
use crate::text::{chars_of, concat_text, decimal_text, ends_with, ends_with_exec, push_decimal, string_of};
use crate::text_map::{entry_value, lemma_entry_value, text_lt, TextMap};

verus! {

pub const MIN_SUPPORTED_VERSION: u32 = 2;

pub const MAX_SUPPORTED_VERSION: u32 = 3;

pub const MAX_METADATA_ENTRIES: u64 = 1000000;

pub const MAX_KEY_BYTES: u64 = 65536;

pub const MAX_CAPTURED_STRING_BYTES: u64 = 4194304;

pub const MAX_ARRAY_ENTRIES: u64 = 100000000;

#[verifier::external_type_specification]
#[verifier::external_body]
pub struct ExIoError(std::io::Error);

/// Why GGUF metadata could not be read.
#[derive(Debug)]
pub enum GgufError {
    Io(std::io::Error),
    Invalid(String),
}

/// The metadata the catalog uses, read from a GGUF file's header.
#[derive(Debug, Clone, PartialEq, Eq, Default)]
pub struct GgufMetadata {
    pub version: u32,
    pub tensor_count: u64,
    pub metadata_count: u64,
    /// Byte offset immediately after the metadata block. Tensor descriptors start here.
    pub metadata_bytes: u64,
    pub general_type: Option<String>,
    pub architecture: Option<String>,
    pub name: Option<String>,
    pub basename: Option<String>,
    pub size_label: Option<String>,
    pub file_type: Option<u32>,
    pub quantization_version: Option<u32>,
    pub context_length: Option<u64>,
    pub embedding_length: Option<u64>,
    pub block_count: Option<u64>,
    pub tokenizer_model: Option<String>,
    pub split_index: Option<u32>,
    pub split_count: Option<u32>,
    pub split_tensor_count: Option<u64>,
    pub projector_type: Option<String>,
    pub has_vision_encoder: Option<bool>,
    pub has_audio_encoder: Option<bool>,
}

/// The metadata as plain values.
pub struct MetadataModel {
    pub version: u32,
    pub tensor_count: u64,
    pub metadata_count: u64,
    pub metadata_bytes: u64,
    pub general_type: Option<Seq<char>>,
    pub architecture: Option<Seq<char>>,
    pub name: Option<Seq<char>>,
    pub basename: Option<Seq<char>>,
    pub size_label: Option<Seq<char>>,
    pub file_type: Option<u32>,
    pub quantization_version: Option<u32>,
    pub context_length: Option<u64>,
    pub embedding_length: Option<u64>,
    pub block_count: Option<u64>,
    pub tokenizer_model: Option<Seq<char>>,
    pub split_index: Option<u32>,
    pub split_count: Option<u32>,
    pub split_tensor_count: Option<u64>,
    pub projector_type: Option<Seq<char>>,
    pub has_vision_encoder: Option<bool>,
    pub has_audio_encoder: Option<bool>,
}

impl View for GgufMetadata {
    type V = MetadataModel;

    open spec fn view(&self) -> MetadataModel {
        MetadataModel {
            version: self.version,
            tensor_count: self.tensor_count,
            metadata_count: self.metadata_count,
            metadata_bytes: self.metadata_bytes,
            general_type: opt_text(self.general_type),
            architecture: opt_text(self.architecture),
            name: opt_text(self.name),
            basename: opt_text(self.basename),
            size_label: opt_text(self.size_label),
            file_type: self.file_type,
            quantization_version: self.quantization_version,
            context_length: self.context_length,
            embedding_length: self.embedding_length,
            block_count: self.block_count,
            tokenizer_model: opt_text(self.tokenizer_model),
            split_index: self.split_index,
            split_count: self.split_count,
            split_tensor_count: self.split_tensor_count,
            projector_type: opt_text(self.projector_type),
            has_vision_encoder: self.has_vision_encoder,
            has_audio_encoder: self.has_audio_encoder,
        }
    }
}

// ---------------------------------------------------------------------------------------------
// Reading primitives
// ---------------------------------------------------------------------------------------------

/// Why a scan stopped before the end of the metadata: it needs a longer prefix, or the file is
/// not valid GGUF metadata.
pub enum Halt {
    NeedBytes(int),
    Invalid(Seq<char>),
}

/// The exec form of [`Halt`].
#[derive(Debug, Clone)]
pub enum Stop {
    NeedBytes(u64),
    Invalid(String),
}

impl View for Stop {
    type V = Halt;

    open spec fn view(&self) -> Halt {
        match self {
            Stop::NeedBytes(n) => Halt::NeedBytes(*n as int),
            Stop::Invalid(m) => Halt::Invalid(m@),
        }
    }
}

/// An exec result agrees with a spec result holding the same value.
pub open spec fn agrees<T>(r: Result<(T, u64), Stop>, s: Result<(T, int), Halt>) -> bool {
    match (r, s) {
        (Ok((v, p)), Ok((w, q))) => v == w && p == q,
        (Err(e), Err(h)) => e@ == h,
        _ => false,
    }
}

pub open spec fn ends_unexpectedly() -> Halt {
    Halt::Invalid("GGUF metadata ends unexpectedly."@)
}

/// The `n` bytes at `pos`, in a file of `len` bytes of which `b` is a prefix.
pub open spec fn take_spec(b: Seq<u8>, len: int, pos: int, n: int) -> Result<(Seq<u8>, int), Halt> {
    if pos + n > len {
        Err(ends_unexpectedly())
    } else if pos + n > b.len() {
        Err(Halt::NeedBytes(pos + n))
    } else {
        Ok((b.subrange(pos, pos + n), pos + n))
    }
}

/// Moving past `n` bytes at `pos` without reading them.
pub open spec fn skip_spec(len: int, pos: int, n: int) -> Result<((), int), Halt> {
    if pos + n > len {
        Err(ends_unexpectedly())
    } else if n > i64::MAX {
        Err(Halt::Invalid("GGUF value is too large to skip."@))
    } else {
        Ok(((), pos + n))
    }
}

pub open spec fn u8_spec(b: Seq<u8>, len: int, pos: int) -> Result<(u8, int), Halt> {
    match take_spec(b, len, pos, 1) {
        Ok((s, p)) => Ok((s[0], p)),
        Err(h) => Err(h),
    }
}

pub open spec fn u16_spec(b: Seq<u8>, len: int, pos: int) -> Result<(u16, int), Halt> {
    match take_spec(b, len, pos, 2) {
        Ok((s, p)) => Ok((spec_u16_from_le_bytes(s), p)),
        Err(h) => Err(h),
    }
}

pub open spec fn u32_spec(b: Seq<u8>, len: int, pos: int) -> Result<(u32, int), Halt> {
    match take_spec(b, len, pos, 4) {
        Ok((s, p)) => Ok((spec_u32_from_le_bytes(s), p)),
        Err(h) => Err(h),
    }
}

pub open spec fn u64_spec(b: Seq<u8>, len: int, pos: int) -> Result<(u64, int), Halt> {
    match take_spec(b, len, pos, 8) {
        Ok((s, p)) => Ok((spec_u64_from_le_bytes(s), p)),
        Err(h) => Err(h),
    }
}

/// The scanner's position within the prefix `bytes` of a file of `file_len` bytes.
pub struct Cursor<'a> {
    pub bytes: &'a [u8],
    pub file_len: u64,
    pub pos: u64,
}

impl<'a> Cursor<'a> {
    pub open spec fn wf(&self) -> bool {
        self.pos <= self.file_len
    }

    fn take(&mut self, n: u64) -> (r: Result<Vec<u8>, Stop>)
        requires
            old(self).wf(),
        ensures
            final(self).wf(),
            final(self).bytes == old(self).bytes,
            final(self).file_len == old(self).file_len,
            match (r, take_spec(
                old(self).bytes@,
                old(self).file_len as int,
                old(self).pos as int,
                n as int,
            )) {
                (Ok(v), Ok((s, p))) => v@ == s && final(self).pos == p,
                (Err(e), Err(h)) => e@ == h,
                _ => false,
            },
            r matches Err(Stop::NeedBytes(n)) ==> old(self).bytes@.len() < n <= old(self).file_len,
    {
        if n > self.file_len - self.pos {
            return Err(Stop::Invalid("GGUF metadata ends unexpectedly.".to_string()));
        }
        let end: u64 = self.pos + n;
        if end > self.bytes.len() as u64 {
            return Err(Stop::NeedBytes(end));
        }
        let mut out: Vec<u8> = Vec::new();
        let start: usize = self.pos as usize;
        let stop: usize = end as usize;
        let mut i: usize = start;
        while i < stop
            invariant
                start <= i <= stop,
                stop <= self.bytes@.len(),
                out@ == self.bytes@.subrange(start as int, i as int),
            decreases stop - i,
        {
            out.push(self.bytes[i]);
            i += 1;
            assert(out@ =~= self.bytes@.subrange(start as int, i as int));
        }
        self.pos = end;
        Ok(out)
    }

    fn skip(&mut self, n: u64) -> (r: Result<(), Stop>)
        requires
            old(self).wf(),
        ensures
            final(self).wf(),
            final(self).bytes == old(self).bytes,
            final(self).file_len == old(self).file_len,
            match (r, skip_spec(old(self).file_len as int, old(self).pos as int, n as int)) {
                (Ok(()), Ok((_, p))) => final(self).pos == p,
                (Err(e), Err(h)) => e@ == h,
                _ => false,
            },
            r matches Err(e) ==> e is Invalid,
    {
        if n > self.file_len - self.pos {
            return Err(Stop::Invalid("GGUF metadata ends unexpectedly.".to_string()));
        }
        if n > 9223372036854775807u64 {
            return Err(Stop::Invalid("GGUF value is too large to skip.".to_string()));
        }
        self.pos = self.pos + n;
        Ok(())
    }

    fn read_u8(&mut self) -> (r: Result<u8, Stop>)
        requires
            old(self).wf(),
        ensures
            final(self).wf(),
            final(self).bytes == old(self).bytes,
            final(self).file_len == old(self).file_len,
            agrees(
                match r {
                    Ok(v) => Ok((v, final(self).pos)),
                    Err(e) => Err(e),
                },
                u8_spec(old(self).bytes@, old(self).file_len as int, old(self).pos as int),
            ),
            r matches Err(Stop::NeedBytes(n)) ==> old(self).bytes@.len() < n <= old(self).file_len,
    {
        let s = self.take(1)?;
        Ok(s[0])
    }

    fn read_u16(&mut self) -> (r: Result<u16, Stop>)
        requires
            old(self).wf(),
        ensures
            final(self).wf(),
            final(self).bytes == old(self).bytes,
            final(self).file_len == old(self).file_len,
            agrees(
                match r {
                    Ok(v) => Ok((v, final(self).pos)),
                    Err(e) => Err(e),
                },
                u16_spec(old(self).bytes@, old(self).file_len as int, old(self).pos as int),
            ),
            r matches Err(Stop::NeedBytes(n)) ==> old(self).bytes@.len() < n <= old(self).file_len,
    {
        let s = self.take(2)?;
        Ok(u16_from_le_bytes(s.as_slice()))
    }

    fn read_u32(&mut self) -> (r: Result<u32, Stop>)
        requires
            old(self).wf(),
        ensures
            final(self).wf(),
            final(self).bytes == old(self).bytes,
            final(self).file_len == old(self).file_len,
            agrees(
                match r {
                    Ok(v) => Ok((v, final(self).pos)),
                    Err(e) => Err(e),
                },
                u32_spec(old(self).bytes@, old(self).file_len as int, old(self).pos as int),
            ),
            r matches Err(Stop::NeedBytes(n)) ==> old(self).bytes@.len() < n <= old(self).file_len,
    {
        let s = self.take(4)?;
        Ok(u32_from_le_bytes(s.as_slice()))
    }

    fn read_u64(&mut self) -> (r: Result<u64, Stop>)
        requires
            old(self).wf(),
        ensures
            final(self).wf(),
            final(self).bytes == old(self).bytes,
            final(self).file_len == old(self).file_len,
            agrees(
                match r {
                    Ok(v) => Ok((v, final(self).pos)),
                    Err(e) => Err(e),
                },
                u64_spec(old(self).bytes@, old(self).file_len as int, old(self).pos as int),
            ),
            r matches Err(Stop::NeedBytes(n)) ==> old(self).bytes@.len() < n <= old(self).file_len,
    {
        let s = self.take(8)?;
        Ok(u64_from_le_bytes(s.as_slice()))
    }
}

// ---------------------------------------------------------------------------------------------
// Values
// ---------------------------------------------------------------------------------------------

/// The type tag of a metadata value.
#[derive(Debug, Clone, Copy, PartialEq, Eq, Structural)]
pub enum ValueType {
    Uint8,
    Int8,
    Uint16,
    Int16,
    Uint32,
    Int32,
    Float32,
    Bool,
    String,
    Array,
    Uint64,
    Int64,
    Float64,
}

pub open spec fn value_type_spec(code: u32) -> Option<ValueType> {
    if code == 0 {
        Some(ValueType::Uint8)
    } else if code == 1 {
        Some(ValueType::Int8)
    } else if code == 2 {
        Some(ValueType::Uint16)
    } else if code == 3 {
        Some(ValueType::Int16)
    } else if code == 4 {
        Some(ValueType::Uint32)
    } else if code == 5 {
        Some(ValueType::Int32)
    } else if code == 6 {
        Some(ValueType::Float32)
    } else if code == 7 {
        Some(ValueType::Bool)
    } else if code == 8 {
        Some(ValueType::String)
    } else if code == 9 {
        Some(ValueType::Array)
    } else if code == 10 {
        Some(ValueType::Uint64)
    } else if code == 11 {
        Some(ValueType::Int64)
    } else if code == 12 {
        Some(ValueType::Float64)
    } else {
        None
    }
}

fn value_type_of(code: u32) -> (r: Option<ValueType>)
    ensures
        r == value_type_spec(code),
{
    if code == 0 {
        Some(ValueType::Uint8)
    } else if code == 1 {
        Some(ValueType::Int8)
    } else if code == 2 {
        Some(ValueType::Uint16)
    } else if code == 3 {
        Some(ValueType::Int16)
    } else if code == 4 {
        Some(ValueType::Uint32)
    } else if code == 5 {
        Some(ValueType::Int32)
    } else if code == 6 {
        Some(ValueType::Float32)
    } else if code == 7 {
        Some(ValueType::Bool)
    } else if code == 8 {
        Some(ValueType::String)
    } else if code == 9 {
        Some(ValueType::Array)
    } else if code == 10 {
        Some(ValueType::Uint64)
    } else if code == 11 {
        Some(ValueType::Int64)
    } else if code == 12 {
        Some(ValueType::Float64)
    } else {
        None
    }
}

/// `before`, the decimal digits of `n`, then `after`.
pub fn text_with_number(before: &str, n: u64, after: &str) -> (r: String)
    ensures
        r@ == before@ + decimal_text(n as nat) + after@,
{
    let mut v = chars_of(before);
    push_decimal(&mut v, n);
    let tail = chars_of(after);
    crate::text::append_chars(&mut v, tail.as_slice());
    string_of(v.as_slice())
}

pub open spec fn unknown_type_message(code: u32) -> Seq<char> {
    "Unknown GGUF metadata value type "@ + decimal_text(code as nat) + "."@
}

/// A scalar value: only integers and booleans are kept; floats are read past.
#[derive(Debug, Clone, Copy, PartialEq, Eq, Structural)]
pub enum Scalar {
    Unsigned(u64),
    Signed(i64),
    Float,
    Boolean(bool),
}

pub open spec fn scalar_u64(s: Scalar) -> Option<u64> {
    match s {
        Scalar::Unsigned(v) => Some(v),
        Scalar::Signed(v) => if v >= 0 {
            Some(v as u64)
        } else {
            None
        },
        _ => None,
    }
}

pub open spec fn scalar_bool(s: Scalar) -> Option<bool> {
    match s {
        Scalar::Boolean(v) => Some(v),
        _ => None,
    }
}

fn as_u64(s: Scalar) -> (r: Option<u64>)
    ensures
        r == scalar_u64(s),
{
    match s {
        Scalar::Unsigned(v) => Some(v),
        Scalar::Signed(v) => if v >= 0 {
            Some(v as u64)
        } else {
            None
        },
        _ => None,
    }
}

pub open spec fn scalar_spec(b: Seq<u8>, len: int, pos: int, t: ValueType) -> Result<
    (Scalar, int),
    Halt,
> {
    match t {
        ValueType::Uint8 => match u8_spec(b, len, pos) {
            Ok((v, p)) => Ok((Scalar::Unsigned(v as u64), p)),
            Err(h) => Err(h),
        },
        ValueType::Int8 => match u8_spec(b, len, pos) {
            Ok((v, p)) => Ok((Scalar::Signed((v as i8) as i64), p)),
            Err(h) => Err(h),
        },
        ValueType::Uint16 => match u16_spec(b, len, pos) {
            Ok((v, p)) => Ok((Scalar::Unsigned(v as u64), p)),
            Err(h) => Err(h),
        },
        ValueType::Int16 => match u16_spec(b, len, pos) {
            Ok((v, p)) => Ok((Scalar::Signed((v as i16) as i64), p)),
            Err(h) => Err(h),
        },
        ValueType::Uint32 => match u32_spec(b, len, pos) {
            Ok((v, p)) => Ok((Scalar::Unsigned(v as u64), p)),
            Err(h) => Err(h),
        },
        ValueType::Int32 => match u32_spec(b, len, pos) {
            Ok((v, p)) => Ok((Scalar::Signed((v as i32) as i64), p)),
            Err(h) => Err(h),
        },
        ValueType::Float32 => match take_spec(b, len, pos, 4) {
            Ok((_, p)) => Ok((Scalar::Float, p)),
            Err(h) => Err(h),
        },
        ValueType::Bool => match u8_spec(b, len, pos) {
            Ok((v, p)) => Ok((Scalar::Boolean(v != 0), p)),
            Err(h) => Err(h),
        },
        ValueType::Uint64 => match u64_spec(b, len, pos) {
            Ok((v, p)) => Ok((Scalar::Unsigned(v), p)),
            Err(h) => Err(h),
        },
        ValueType::Int64 => match u64_spec(b, len, pos) {
            Ok((v, p)) => Ok((Scalar::Signed(v as i64), p)),
            Err(h) => Err(h),
        },
        ValueType::Float64 => match take_spec(b, len, pos, 8) {
            Ok((_, p)) => Ok((Scalar::Float, p)),
            Err(h) => Err(h),
        },
        _ => Err(Halt::Invalid("Internal GGUF scalar parser mismatch."@)),
    }
}

/// Bytes taken by one value of a fixed-width type.
pub open spec fn scalar_width(t: ValueType) -> int {
    match t {
        ValueType::Uint8 | ValueType::Int8 | ValueType::Bool => 1,
        ValueType::Uint16 | ValueType::Int16 => 2,
        ValueType::Uint32 | ValueType::Int32 | ValueType::Float32 => 4,
        _ => 8,
    }
}

/// Moving past `count` length-prefixed strings.
pub open spec fn skip_strings_spec(b: Seq<u8>, len: int, pos: int, count: int) -> Result<
    ((), int),
    Halt,
>
    decreases count,
{
    if count <= 0 {
        Ok(((), pos))
    } else {
        match u64_spec(b, len, pos) {
            Ok((l, p)) => match skip_spec(len, p, l as int) {
                Ok((_, q)) => skip_strings_spec(b, len, q, count - 1),
                Err(h) => Err(h),
            },
            Err(h) => Err(h),
        }
    }
}

/// Moving past an array value: its element type, its count, then the elements, which are never
/// collected.
pub open spec fn skip_array_spec(b: Seq<u8>, len: int, pos: int) -> Result<((), int), Halt> {
    match u32_spec(b, len, pos) {
        Ok((code, p1)) => match value_type_spec(code) {
            None => Err(Halt::Invalid(unknown_type_message(code))),
            Some(t) => if t == ValueType::Array {
                Err(Halt::Invalid("Nested GGUF metadata arrays are not supported by the format."@))
            } else {
                match u64_spec(b, len, p1) {
                    Ok((count, p2)) => if count > MAX_ARRAY_ENTRIES {
                        Err(
                            Halt::Invalid(
                                "GGUF metadata array contains an unreasonable number of values ("@
                                    + decimal_text(count as nat) + ")."@,
                            ),
                        )
                    } else if t == ValueType::String {
                        skip_strings_spec(b, len, p2, count as int)
                    } else {
                        skip_spec(len, p2, count * scalar_width(t))
                    },
                    Err(h) => Err(h),
                }
            },
        },
        Err(h) => Err(h),
    }
}

/// Skipping an array of fixed-width elements moves past its 4-byte element type, its 8-byte count
/// and exactly count × the element's GGUF width: 1 byte for `uint8`, `int8` and `bool` (types 0, 1
/// and 7), 2 for `uint16` and `int16` (2, 3), 4 for `uint32`, `int32` and `float32` (4, 5, 6), and
/// 8 for `uint64`, `int64` and `float64` (10, 11, 12), when the file holds them all.
pub proof fn array_skip_moves_by_element_width(b: Seq<u8>, len: int, pos: int)
    requires
        0 <= pos,
        pos + 12 <= b.len(),
        b.len() <= len,
    ensures
        ({
            let code = spec_u32_from_le_bytes(b.subrange(pos, pos + 4));
            let count = spec_u64_from_le_bytes(b.subrange(pos + 4, pos + 12));
            let width: int = if code == 0 || code == 1 || code == 7 {
                1
            } else if code == 2 || code == 3 {
                2
            } else if code == 4 || code == 5 || code == 6 {
                4
            } else {
                8
            };
            (code <= 7 || code == 10 || code == 11 || code == 12) && count <= 100000000 && pos + 12
                + count * width <= len ==> skip_array_spec(b, len, pos) == Ok::<((), int), Halt>(
                ((), pos + 12 + count * width),
            )
        }),
{
    let code = spec_u32_from_le_bytes(b.subrange(pos, pos + 4));
    let count = spec_u64_from_le_bytes(b.subrange(pos + 4, pos + 12));
    assert(u32_spec(b, len, pos) == Ok::<(u32, int), Halt>((code, pos + 4)));
    assert(u64_spec(b, len, pos + 4) == Ok::<(u64, int), Halt>((count, pos + 12)));
    assert(count * 8 <= 800000000 || count > 100000000) by (nonlinear_arith);
}

/// A length-prefixed UTF-8 string of at most `max` bytes.
pub open spec fn string_spec(b: Seq<u8>, len: int, pos: int, max: int) -> Result<
    (Seq<char>, int),
    Halt,
> {
    match u64_spec(b, len, pos) {
        Ok((l, p)) => if l > max {
            Err(
                Halt::Invalid(
                    "GGUF string length "@ + decimal_text(l as nat)
                        + " exceeds the safe inspection limit."@,
                ),
            )
        } else {
            match take_spec(b, len, p, l as int) {
                Ok((s, q)) => if valid_utf8(s) {
                    Ok((decode_utf8(s), q))
                } else {
                    Err(Halt::Invalid("GGUF metadata contains invalid UTF-8."@))
                },
                Err(h) => Err(h),
            }
        },
        Err(h) => Err(h),
    }
}

/// A string value, decoded when it is captured and small enough, else moved past.
pub open spec fn optional_string_spec(b: Seq<u8>, len: int, pos: int, capture: bool) -> Result<
    (Option<Seq<char>>, int),
    Halt,
> {
    match u64_spec(b, len, pos) {
        Ok((l, p)) => if capture && l <= MAX_CAPTURED_STRING_BYTES {
            match take_spec(b, len, p, l as int) {
                Ok((s, q)) => if valid_utf8(s) {
                    Ok((Some(decode_utf8(s)), q))
                } else {
                    Err(Halt::Invalid("GGUF metadata contains invalid UTF-8."@))
                },
                Err(h) => Err(h),
            }
        } else {
            match skip_spec(len, p, l as int) {
                Ok((_, q)) => Ok((None, q)),
                Err(h) => Err(h),
            }
        },
        Err(h) => Err(h),
    }
}

/// `String::from_utf8`: the text the bytes encode, when they are valid UTF-8.
#[verifier::external_body]
fn text_from_utf8(bytes: Vec<u8>) -> (r: Option<String>)
    ensures
        match r {
            Some(s) => valid_utf8(bytes@) && s@ == decode_utf8(bytes@),
            None => !valid_utf8(bytes@),
        },
{
    String::from_utf8(bytes).ok()
}

impl<'a> Cursor<'a> {
    fn read_scalar(&mut self, t: ValueType) -> (r: Result<Scalar, Stop>)
        requires
            old(self).wf(),
        ensures
            final(self).wf(),
            final(self).bytes == old(self).bytes,
            final(self).file_len == old(self).file_len,
            agrees(
                match r {
                    Ok(v) => Ok((v, final(self).pos)),
                    Err(e) => Err(e),
                },
                scalar_spec(old(self).bytes@, old(self).file_len as int, old(self).pos as int, t),
            ),
            r matches Err(Stop::NeedBytes(n)) ==> old(self).bytes@.len() < n <= old(self).file_len,
    {
        match t {
            ValueType::Uint8 => Ok(Scalar::Unsigned(self.read_u8()? as u64)),
            ValueType::Int8 => Ok(Scalar::Signed((self.read_u8()? as i8) as i64)),
            ValueType::Uint16 => Ok(Scalar::Unsigned(self.read_u16()? as u64)),
            ValueType::Int16 => Ok(Scalar::Signed((self.read_u16()? as i16) as i64)),
            ValueType::Uint32 => Ok(Scalar::Unsigned(self.read_u32()? as u64)),
            ValueType::Int32 => Ok(Scalar::Signed((self.read_u32()? as i32) as i64)),
            ValueType::Float32 => {
                self.take(4)?;
                Ok(Scalar::Float)
            },
            ValueType::Bool => Ok(Scalar::Boolean(self.read_u8()? != 0)),
            ValueType::Uint64 => Ok(Scalar::Unsigned(self.read_u64()?)),
            ValueType::Int64 => Ok(Scalar::Signed(self.read_u64()? as i64)),
            ValueType::Float64 => {
                self.take(8)?;
                Ok(Scalar::Float)
            },
            _ => Err(Stop::Invalid("Internal GGUF scalar parser mismatch.".to_string())),
        }
    }

    fn skip_strings(&mut self, count: u64) -> (r: Result<(), Stop>)
        requires
            old(self).wf(),
        ensures
            final(self).wf(),
            final(self).bytes == old(self).bytes,
            final(self).file_len == old(self).file_len,
            agrees(
                match r {
                    Ok(v) => Ok((v, final(self).pos)),
                    Err(e) => Err(e),
                },
                skip_strings_spec(
                    old(self).bytes@,
                    old(self).file_len as int,
                    old(self).pos as int,
                    count as int,
                ),
            ),
            r matches Err(Stop::NeedBytes(n)) ==> old(self).bytes@.len() < n <= old(self).file_len,
    {
        let mut c = Cursor { bytes: self.bytes, file_len: self.file_len, pos: self.pos };
        let ghost total = skip_strings_spec(c.bytes@, c.file_len as int, c.pos as int, count as int);
        let mut done: u64 = 0;
        while done < count
            invariant
                c.wf(),
                self.wf(),
                total == skip_strings_spec(
                    self.bytes@,
                    self.file_len as int,
                    self.pos as int,
                    count as int,
                ),
                c.bytes == self.bytes,
                c.file_len == self.file_len,
                done <= count,
                total == skip_strings_spec(c.bytes@, c.file_len as int, c.pos as int, count - done),
            decreases count - done,
        {
            let length = match c.read_u64() {
                Ok(l) => l,
                Err(e) => {
                    return Err(e);
                },
            };
            match c.skip(length) {
                Ok(()) => {},
                Err(e) => {
                    return Err(e);
                },
            }
            done += 1;
        }
        self.pos = c.pos;
        Ok(())
    }

    fn skip_array(&mut self) -> (r: Result<(), Stop>)
        requires
            old(self).wf(),
        ensures
            final(self).wf(),
            final(self).bytes == old(self).bytes,
            final(self).file_len == old(self).file_len,
            agrees(
                match r {
                    Ok(v) => Ok((v, final(self).pos)),
                    Err(e) => Err(e),
                },
                skip_array_spec(old(self).bytes@, old(self).file_len as int, old(self).pos as int),
            ),
            r matches Err(Stop::NeedBytes(n)) ==> old(self).bytes@.len() < n <= old(self).file_len,
    {
        let code = self.read_u32()?;
        let t = match value_type_of(code) {
            Some(t) => t,
            None => {
                return Err(
                    Stop::Invalid(text_with_number("Unknown GGUF metadata value type ", code as u64, ".")),
                );
            },
        };
        if t == ValueType::Array {
            return Err(
                Stop::Invalid(
                    "Nested GGUF metadata arrays are not supported by the format.".to_string(),
                ),
            );
        }
        let count = self.read_u64()?;
        if count > MAX_ARRAY_ENTRIES {
            return Err(
                Stop::Invalid(
                    text_with_number(
                        "GGUF metadata array contains an unreasonable number of values (",
                        count,
                        ").",
                    ),
                ),
            );
        }
        if t == ValueType::String {
            return self.skip_strings(count);
        }
        let width: u64 = match t {
            ValueType::Uint8 | ValueType::Int8 | ValueType::Bool => 1,
            ValueType::Uint16 | ValueType::Int16 => 2,
            ValueType::Uint32 | ValueType::Int32 | ValueType::Float32 => 4,
            _ => 8,
        };
        assert(count * width <= 800000000) by (nonlinear_arith)
            requires
                count <= 100000000,
                width <= 8,
        ;
        self.skip(count * width)
    }

    fn read_string(&mut self, max: u64) -> (r: Result<String, Stop>)
        requires
            old(self).wf(),
        ensures
            final(self).wf(),
            final(self).bytes == old(self).bytes,
            final(self).file_len == old(self).file_len,
            match (r, string_spec(
                old(self).bytes@,
                old(self).file_len as int,
                old(self).pos as int,
                max as int,
            )) {
                (Ok(v), Ok((s, p))) => v@ == s && final(self).pos == p,
                (Err(e), Err(h)) => e@ == h,
                _ => false,
            },
            r matches Err(Stop::NeedBytes(n)) ==> old(self).bytes@.len() < n <= old(self).file_len,
    {
        let length = self.read_u64()?;
        if length > max {
            return Err(
                Stop::Invalid(
                    text_with_number(
                        "GGUF string length ",
                        length,
                        " exceeds the safe inspection limit.",
                    ),
                ),
            );
        }
        let bytes = self.take(length)?;
        match text_from_utf8(bytes) {
            Some(s) => Ok(s),
            None => Err(Stop::Invalid("GGUF metadata contains invalid UTF-8.".to_string())),
        }
    }

    fn read_optional_string(&mut self, capture: bool) -> (r: Result<Option<String>, Stop>)
        requires
            old(self).wf(),
        ensures
            final(self).wf(),
            final(self).bytes == old(self).bytes,
            final(self).file_len == old(self).file_len,
            match (r, optional_string_spec(
                old(self).bytes@,
                old(self).file_len as int,
                old(self).pos as int,
                capture,
            )) {
                (Ok(v), Ok((s, p))) => opt_text(v) == s && final(self).pos == p,
                (Err(e), Err(h)) => e@ == h,
                _ => false,
            },
            r matches Err(Stop::NeedBytes(n)) ==> old(self).bytes@.len() < n <= old(self).file_len,
    {
        let length = self.read_u64()?;
        if capture && length <= MAX_CAPTURED_STRING_BYTES {
            let bytes = self.take(length)?;
            match text_from_utf8(bytes) {
                Some(s) => Ok(Some(s)),
                None => Err(Stop::Invalid("GGUF metadata contains invalid UTF-8.".to_string())),
            }
        } else {
            self.skip(length)?;
            Ok(None)
        }
    }
}

// ---------------------------------------------------------------------------------------------
// Metadata entries
// ---------------------------------------------------------------------------------------------

/// The string keys whose values are kept.
pub open spec fn interesting_key(key: Seq<char>) -> bool {
    key == "general.type"@ || key == "general.architecture"@ || key == "general.name"@ || key
        == "general.basename"@ || key == "general.size_label"@ || key == "tokenizer.ggml.model"@
        || key == "clip.projector_type"@
}

pub open spec fn assign_string_spec(m: MetadataModel, key: Seq<char>, v: Seq<char>) -> MetadataModel {
    if key == "general.type"@ {
        MetadataModel { general_type: Some(v), ..m }
    } else if key == "general.architecture"@ {
        MetadataModel { architecture: Some(v), ..m }
    } else if key == "general.name"@ {
        MetadataModel { name: Some(v), ..m }
    } else if key == "general.basename"@ {
        MetadataModel { basename: Some(v), ..m }
    } else if key == "general.size_label"@ {
        MetadataModel { size_label: Some(v), ..m }
    } else if key == "tokenizer.ggml.model"@ {
        MetadataModel { tokenizer_model: Some(v), ..m }
    } else if key == "clip.projector_type"@ {
        MetadataModel { projector_type: Some(v), ..m }
    } else {
        m
    }
}

/// A number that fits in `u32`.
pub open spec fn narrow(v: Option<u64>) -> Option<u32> {
    match v {
        Some(x) => if x <= u32::MAX {
            Some(x as u32)
        } else {
            None
        },
        None => None,
    }
}

pub open spec fn assign_scalar_spec(m: MetadataModel, key: Seq<char>, s: Scalar) -> MetadataModel {
    if key == "general.file_type"@ {
        MetadataModel { file_type: narrow(scalar_u64(s)), ..m }
    } else if key == "general.quantization_version"@ {
        MetadataModel { quantization_version: narrow(scalar_u64(s)), ..m }
    } else if key == "split.no"@ {
        MetadataModel { split_index: narrow(scalar_u64(s)), ..m }
    } else if key == "split.count"@ {
        MetadataModel { split_count: narrow(scalar_u64(s)), ..m }
    } else if key == "split.tensors.count"@ {
        MetadataModel { split_tensor_count: scalar_u64(s), ..m }
    } else if key == "clip.has_vision_encoder"@ {
        MetadataModel { has_vision_encoder: scalar_bool(s), ..m }
    } else if key == "clip.has_audio_encoder"@ {
        MetadataModel { has_audio_encoder: scalar_bool(s), ..m }
    } else {
        m
    }
}

/// What the scan carries from entry to entry: the metadata so far, and every integer value by
/// key.
pub type ScanState = (MetadataModel, Map<Seq<char>, u64>);

/// One key/value entry.
pub open spec fn entry_spec(b: Seq<u8>, len: int, pos: int, st: ScanState) -> Result<
    (ScanState, int),
    Halt,
> {
    match string_spec(b, len, pos, MAX_KEY_BYTES as int) {
        Ok((key, p1)) => match u32_spec(b, len, p1) {
            Ok((code, p2)) => match value_type_spec(code) {
                None => Err(Halt::Invalid(unknown_type_message(code))),
                Some(ValueType::String) => match optional_string_spec(
                    b,
                    len,
                    p2,
                    interesting_key(key),
                ) {
                    Ok((o, p3)) => Ok(
                        (
                            (
                                match o {
                                    Some(v) => assign_string_spec(st.0, key, v),
                                    None => st.0,
                                },
                                st.1,
                            ),
                            p3,
                        ),
                    ),
                    Err(h) => Err(h),
                },
                Some(ValueType::Array) => match skip_array_spec(b, len, p2) {
                    Ok((_, p3)) => Ok((st, p3)),
                    Err(h) => Err(h),
                },
                Some(t) => match scalar_spec(b, len, p2, t) {
                    Ok((sc, p3)) => Ok(
                        (
                            (
                                assign_scalar_spec(st.0, key, sc),
                                match scalar_u64(sc) {
                                    Some(v) => st.1.insert(key, v),
                                    None => st.1,
                                },
                            ),
                            p3,
                        ),
                    ),
                    Err(h) => Err(h),
                },
            },
            Err(h) => Err(h),
        },
        Err(h) => Err(h),
    }
}

/// `count` entries in a row.
pub open spec fn entries_spec(b: Seq<u8>, len: int, pos: int, count: int, st: ScanState) -> Result<
    (ScanState, int),
    Halt,
>
    decreases count,
{
    if count <= 0 {
        Ok((st, pos))
    } else {
        match entry_spec(b, len, pos, st) {
            Ok((next, p)) => entries_spec(b, len, p, count - 1, next),
            Err(h) => Err(h),
        }
    }
}

/// The integer fields the exec map holds agree with `f`.
pub open spec fn fields_agree(entries: Seq<(String, u64)>, f: Map<Seq<char>, u64>) -> bool {
    forall|q: Seq<char>|
        #[trigger] entry_value(entries, q) == if f.contains_key(q) {
            Some(f[q])
        } else {
            None
        }
}

fn same_text(a: &str, lit_text: &str) -> (r: bool)
    ensures
        r == (a@ == lit_text@),
{
    crate::text::chars_equal(chars_of(a).as_slice(), chars_of(lit_text).as_slice())
}

fn assign_string(m: &mut GgufMetadata, key: &str, value: String)
    ensures
        final(m)@ == assign_string_spec(old(m)@, key@, value@),
{
    if same_text(key, "general.type") {
        m.general_type = Some(value);
    } else if same_text(key, "general.architecture") {
        m.architecture = Some(value);
    } else if same_text(key, "general.name") {
        m.name = Some(value);
    } else if same_text(key, "general.basename") {
        m.basename = Some(value);
    } else if same_text(key, "general.size_label") {
        m.size_label = Some(value);
    } else if same_text(key, "tokenizer.ggml.model") {
        m.tokenizer_model = Some(value);
    } else if same_text(key, "clip.projector_type") {
        m.projector_type = Some(value);
    }
}

fn narrow_exec(v: Option<u64>) -> (r: Option<u32>)
    ensures
        r == narrow(v),
{
    match v {
        Some(x) => if x <= u32::MAX as u64 {
            Some(x as u32)
        } else {
            None
        },
        None => None,
    }
}

fn assign_scalar(m: &mut GgufMetadata, key: &str, s: Scalar)
    ensures
        final(m)@ == assign_scalar_spec(old(m)@, key@, s),
{
    let value = as_u64(s);
    let flag = match s {
        Scalar::Boolean(b) => Some(b),
        _ => None,
    };
    if same_text(key, "general.file_type") {
        m.file_type = narrow_exec(value);
    } else if same_text(key, "general.quantization_version") {
        m.quantization_version = narrow_exec(value);
    } else if same_text(key, "split.no") {
        m.split_index = narrow_exec(value);
    } else if same_text(key, "split.count") {
        m.split_count = narrow_exec(value);
    } else if same_text(key, "split.tensors.count") {
        m.split_tensor_count = value;
    } else if same_text(key, "clip.has_vision_encoder") {
        m.has_vision_encoder = flag;
    } else if same_text(key, "clip.has_audio_encoder") {
        m.has_audio_encoder = flag;
    }
}

fn is_interesting(key: &str) -> (r: bool)
    ensures
        r == interesting_key(key@),
{
    same_text(key, "general.type") || same_text(key, "general.architecture") || same_text(
        key,
        "general.name",
    ) || same_text(key, "general.basename") || same_text(key, "general.size_label")
        || same_text(key, "tokenizer.ggml.model") || same_text(key, "clip.projector_type")
}

impl<'a> Cursor<'a> {
    fn read_entry(&mut self, m: &mut GgufMetadata, fields: &mut TextMap<u64>, f: Ghost<
        Map<Seq<char>, u64>,
    >) -> (r: Result<Ghost<Map<Seq<char>, u64>>, Stop>)
        requires
            old(self).wf(),
            old(fields).wf(),
            fields_agree(old(fields).entries@, f@),
        ensures
            final(self).wf(),
            final(self).bytes == old(self).bytes,
            final(self).file_len == old(self).file_len,
            final(fields).wf(),
            match (r, entry_spec(
                old(self).bytes@,
                old(self).file_len as int,
                old(self).pos as int,
                (old(m)@, f@),
            )) {
                (Ok(g), Ok((st, p))) => final(m)@ == st.0 && g@ == st.1 && fields_agree(
                    final(fields).entries@,
                    g@,
                ) && final(self).pos == p,
                (Err(e), Err(h)) => e@ == h,
                _ => false,
            },
            r matches Err(Stop::NeedBytes(n)) ==> old(self).bytes@.len() < n <= old(self).file_len,
    {
        let key = self.read_string(MAX_KEY_BYTES)?;
        let code = self.read_u32()?;
        let t = match value_type_of(code) {
            Some(t) => t,
            None => {
                return Err(
                    Stop::Invalid(text_with_number("Unknown GGUF metadata value type ", code as u64, ".")),
                );
            },
        };
        match t {
            ValueType::String => {
                let capture = is_interesting(key.as_str());
                match self.read_optional_string(capture)? {
                    Some(value) => assign_string(m, key.as_str(), value),
                    None => {},
                }
                Ok(f)
            },
            ValueType::Array => {
                self.skip_array()?;
                Ok(f)
            },
            _ => {
                let scalar = self.read_scalar(t)?;
                let ghost g = f@;
                match as_u64(scalar) {
                    Some(v) => {
                        let ghost kv = key@;
                        fields.insert(key.clone(), v);
                        proof {
                            g = f@.insert(kv, v);
                            assert forall|q: Seq<char>|
                                #[trigger] entry_value(fields.entries@, q) == if g.contains_key(
                                    q,
                                ) {
                                    Some(g[q])
                                } else {
                                    None
                                } by {
                                assert(fields.value_of(q) == entry_value(fields.entries@, q));
                            }
                        }
                    },
                    None => {},
                }
                assign_scalar(m, key.as_str(), scalar);
                Ok(Ghost(g))
            },
        }
    }
}

// ---------------------------------------------------------------------------------------------
// The whole header
// ---------------------------------------------------------------------------------------------

/// `k` is the first key, in key order, that ends with `tail`.
pub open spec fn least_with_suffix(f: Map<Seq<char>, u64>, tail: Seq<char>, k: Seq<char>) -> bool {
    &&& f.contains_key(k)
    &&& ends_with(k, tail)
    &&& forall|k2: Seq<char>|
        f.contains_key(k2) && ends_with(k2, tail) ==> !text_lt(k2, k)
}

/// An architecture-specific number such as `llama.context_length`: the key for the declared
/// architecture, else the first key in key order that ends in `.<suffix>`.
pub open spec fn architecture_field_spec(
    f: Map<Seq<char>, u64>,
    architecture: Option<Seq<char>>,
    suffix: Seq<char>,
) -> Option<u64> {
    let tail = "."@ + suffix;
    if architecture is Some && f.contains_key(architecture.unwrap() + tail) {
        Some(f[architecture.unwrap() + tail])
    } else if exists|k: Seq<char>| least_with_suffix(f, tail, k) {
        Some(f[choose|k: Seq<char>| least_with_suffix(f, tail, k)])
    } else {
        None
    }
}

/// The fields that come from the integer values once every entry is read, and where the
/// metadata block ends.
pub open spec fn finish_spec(m: MetadataModel, f: Map<Seq<char>, u64>, end: int) -> MetadataModel {
    MetadataModel {
        context_length: architecture_field_spec(f, m.architecture, "context_length"@),
        embedding_length: architecture_field_spec(f, m.architecture, "embedding_length"@),
        block_count: architecture_field_spec(f, m.architecture, "block_count"@),
        metadata_bytes: end as u64,
        ..m
    }
}

pub open spec fn initial_metadata(version: u32, tensor_count: u64, metadata_count: u64) -> MetadataModel {
    MetadataModel {
        version,
        tensor_count,
        metadata_count,
        metadata_bytes: 0,
        general_type: None,
        architecture: None,
        name: None,
        basename: None,
        size_label: None,
        file_type: None,
        quantization_version: None,
        context_length: None,
        embedding_length: None,
        block_count: None,
        tokenizer_model: None,
        split_index: None,
        split_count: None,
        split_tensor_count: None,
        projector_type: None,
        has_vision_encoder: None,
        has_audio_encoder: None,
    }
}

/// The bytes of `GGUF`.
pub open spec fn gguf_magic() -> Seq<u8> {
    seq![71u8, 71u8, 85u8, 70u8]
}

/// The header and metadata block of a file of `len` bytes whose first bytes are `b`: the magic
/// value, a supported version, non-negative tensor and metadata counts with a bounded number of
/// entries, then the entries themselves.
pub open spec fn scan_spec(b: Seq<u8>, len: int) -> Result<MetadataModel, Halt> {
    match take_spec(b, len, 0, 4) {
        Err(h) => Err(h),
        Ok((magic, p0)) => if magic != gguf_magic() {
            Err(Halt::Invalid("The file does not start with the GGUF magic value."@))
        } else {
            match u32_spec(b, len, p0) {
                Err(h) => Err(h),
                Ok((version, p1)) => if version < MIN_SUPPORTED_VERSION || version
                    > MAX_SUPPORTED_VERSION {
                    Err(
                        Halt::Invalid(
                            "GGUF version "@ + decimal_text(version as nat)
                                + " is not supported (expected version 2 or 3)."@,
                        ),
                    )
                } else {
                    match u64_spec(b, len, p1) {
                        Err(h) => Err(h),
                        Ok((tensors, p2)) => if tensors > i64::MAX {
                            Err(Halt::Invalid("GGUF declares a negative tensor count."@))
                        } else {
                            match u64_spec(b, len, p2) {
                                Err(h) => Err(h),
                                Ok((entries, p3)) => if entries > i64::MAX {
                                    Err(Halt::Invalid("GGUF declares a negative metadata count."@))
                                } else if entries > MAX_METADATA_ENTRIES {
                                    Err(
                                        Halt::Invalid(
                                            "GGUF contains an unreasonable number of metadata entries ("@
                                                + decimal_text(entries as nat) + ")."@,
                                        ),
                                    )
                                } else {
                                    match entries_spec(
                                        b,
                                        len,
                                        p3,
                                        entries as int,
                                        (initial_metadata(version, tensors, entries), Map::empty()),
                                    ) {
                                        Ok((st, end)) => Ok(finish_spec(st.0, st.1, end)),
                                        Err(h) => Err(h),
                                    }
                                }
                            }
                        }
                    }
                },
            }
        },
    }
}

/// The outcome of scanning a prefix of a GGUF file.
#[derive(Debug, Clone)]
pub enum MetadataScan {
    /// The metadata block was read to its end.
    Complete(GgufMetadata),
    /// The prefix ends before the scan can decide; it needs at least this many bytes.
    NeedBytes(u64),
    /// The file is not GGUF metadata this reader accepts.
    Invalid(String),
}

fn architecture_field(fields: &TextMap<u64>, f: Ghost<Map<Seq<char>, u64>>, architecture: &Option<String>, suffix: &str) -> (r: Option<u64>)
    requires
        fields.wf(),
        fields_agree(fields.entries@, f@),
    ensures
        r == architecture_field_spec(f@, opt_text(*architecture), suffix@),
{
    proof {
        reveal_strlit(".");
    }
    let tail = concat_text(".", suffix);
    assert(tail@ == "."@ + suffix@);
    if let Some(a) = architecture {
        let key = concat_text(a.as_str(), tail.as_str());
        proof {
            lemma_entry_value(fields.entries@, key@);
        }
        match fields.get(key.as_str()) {
            Some(v) => {
                assert(fields.value_of(key@) == entry_value(fields.entries@, key@));
                return Some(*v);
            },
            None => {
                assert(fields.value_of(key@) == entry_value(fields.entries@, key@));
            },
        }
    }
    let t = chars_of(tail.as_str());
    let mut i: usize = 0;
    while i < fields.entries.len()
        invariant
            i <= fields.entries@.len(),
            fields.wf(),
            fields_agree(fields.entries@, f@),
            opt_text(*architecture) is Some ==> !f@.contains_key(
                opt_text(*architecture).unwrap() + tail@,
            ),
            t@ == tail@,
            tail@ == "."@ + suffix@,
            forall|j: int| 0 <= j < i ==> !ends_with(#[trigger] fields.entries@[j].0@, tail@),
        decreases fields.entries.len() - i,
    {
        let key = chars_of(fields.entries[i].0.as_str());
        if ends_with_exec(key.as_slice(), t.as_slice()) {
            let ghost k = fields.entries@[i as int].0@;
            proof {
                lemma_entry_value(fields.entries@, k);
                assert(entry_value(fields.entries@, k) == Some(fields.entries@[i as int].1));
                assert(f@.contains_key(k) && f@[k] == fields.entries@[i as int].1);
                assert forall|k2: Seq<char>|
                    f@.contains_key(k2) && ends_with(k2, tail@) implies !text_lt(k2, k) by {
                    assert(entry_value(fields.entries@, k2) == Some(f@[k2]));
                    crate::text_map::lemma_entry_value_held(fields.entries@, k2);
                    let j = choose|j: int|
                        0 <= j < fields.entries@.len() && #[trigger] fields.entries@[j].0@ == k2
                            && fields.entries@[j].1 == f@[k2];
                    if j > i {
                        crate::text_map::lemma_text_lt_asymmetric(k, k2);
                    } else if j == i {
                        crate::text_map::lemma_text_lt_irreflexive(k);
                    }
                }
                assert(least_with_suffix(f@, tail@, k));
                let c = choose|c: Seq<char>| least_with_suffix(f@, tail@, c);
                if c != k {
                    crate::text_map::lemma_text_lt_total(c, k);
                }
                assert(c == k);
            }
            return Some(fields.entries[i].1);
        }
        i += 1;
    }
    proof {
        assert forall|k: Seq<char>| !least_with_suffix(f@, tail@, k) by {
            if least_with_suffix(f@, tail@, k) {
                assert(entry_value(fields.entries@, k) == Some(f@[k]));
                crate::text_map::lemma_entry_value_held(fields.entries@, k);
                let j = choose|j: int|
                    0 <= j < fields.entries@.len() && #[trigger] fields.entries@[j].0@ == k
                        && fields.entries@[j].1 == f@[k];
                assert(!ends_with(fields.entries@[j].0@, tail@));
            }
        }
    }
    None
}

/// An exec scan outcome agrees with the spec's.
pub open spec fn scan_agrees(r: MetadataScan, s: Result<MetadataModel, Halt>) -> bool {
    match (r, s) {
        (MetadataScan::Complete(m), Ok(model)) => m@ == model,
        (MetadataScan::NeedBytes(n), Err(Halt::NeedBytes(k))) => n == k,
        (MetadataScan::Invalid(message), Err(Halt::Invalid(text))) => message@ == text,
        _ => false,
    }
}

fn stopped(e: Stop) -> (r: MetadataScan)
    ensures
        match (e, r) {
            (Stop::NeedBytes(n), MetadataScan::NeedBytes(k)) => n == k,
            (Stop::Invalid(a), MetadataScan::Invalid(b)) => a == b,
            _ => false,
        },
{
    match e {
        Stop::NeedBytes(n) => MetadataScan::NeedBytes(n),
        Stop::Invalid(message) => MetadataScan::Invalid(message),
    }
}

/// Scans the header and metadata block of a GGUF file of `file_length` bytes, given a prefix
/// of it. Tensor descriptors and data are never looked at. When the prefix ends too early it
/// asks for a longer one; the whole file never needs more.
pub fn scan_metadata(prefix: &[u8], file_length: u64) -> (r: MetadataScan)
    ensures
        scan_agrees(r, scan_spec(prefix@, file_length as int)),
        r matches MetadataScan::NeedBytes(n) ==> prefix@.len() < n <= file_length,
{
    let mut c = Cursor { bytes: prefix, file_len: file_length, pos: 0 };
    let magic = match c.take(4) {
        Ok(v) => v,
        Err(e) => {
            return stopped(e);
        },
    };
    if !(magic[0] == 71u8 && magic[1] == 71u8 && magic[2] == 85u8 && magic[3] == 70u8) {
        assert(magic@ != gguf_magic()) by {
            if magic@ == gguf_magic() {
                assert(magic@[0] == 71u8 && magic@[1] == 71u8 && magic@[2] == 85u8 && magic@[3]
                    == 70u8);
            }
        }
        return MetadataScan::Invalid(
            "The file does not start with the GGUF magic value.".to_string(),
        );
    }
    assert(magic@ =~= gguf_magic());
    let version = match c.read_u32() {
        Ok(v) => v,
        Err(e) => {
            return stopped(e);
        },
    };
    if version < MIN_SUPPORTED_VERSION || version > MAX_SUPPORTED_VERSION {
        return MetadataScan::Invalid(
            text_with_number(
                "GGUF version ",
                version as u64,
                " is not supported (expected version 2 or 3).",
            ),
        );
    }
    let tensors = match c.read_u64() {
        Ok(v) => v,
        Err(e) => {
            return stopped(e);
        },
    };
    if tensors > 9223372036854775807u64 {
        return MetadataScan::Invalid("GGUF declares a negative tensor count.".to_string());
    }
    let entries = match c.read_u64() {
        Ok(v) => v,
        Err(e) => {
            return stopped(e);
        },
    };
    if entries > 9223372036854775807u64 {
        return MetadataScan::Invalid("GGUF declares a negative metadata count.".to_string());
    }
    if entries > MAX_METADATA_ENTRIES {
        return MetadataScan::Invalid(
            text_with_number(
                "GGUF contains an unreasonable number of metadata entries (",
                entries,
                ").",
            ),
        );
    }
    let mut m = GgufMetadata {
        version,
        tensor_count: tensors,
        metadata_count: entries,
        metadata_bytes: 0,
        general_type: None,
        architecture: None,
        name: None,
        basename: None,
        size_label: None,
        file_type: None,
        quantization_version: None,
        context_length: None,
        embedding_length: None,
        block_count: None,
        tokenizer_model: None,
        split_index: None,
        split_count: None,
        split_tensor_count: None,
        projector_type: None,
        has_vision_encoder: None,
        has_audio_encoder: None,
    };
    let mut fields: TextMap<u64> = TextMap::new();
    let mut g: Ghost<Map<Seq<char>, u64>> = Ghost(Map::empty());
    let ghost total = entries_spec(
        prefix@,
        file_length as int,
        c.pos as int,
        entries as int,
        (m@, g@),
    );
    assert(fields_agree(fields.entries@, g@)) by {
        assert forall|q: Seq<char>|
            #[trigger] entry_value(fields.entries@, q) == if g@.contains_key(q) {
                Some(g@[q])
            } else {
                None
            } by {
            crate::text_map::lemma_entry_value(fields.entries@, q);
        }
    }
    assert(scan_spec(prefix@, file_length as int) == match total {
        Ok((st, end)) => Ok(finish_spec(st.0, st.1, end)),
        Err(h) => Err(h),
    });
    let mut done: u64 = 0;
    while done < entries
        invariant
            scan_spec(prefix@, file_length as int) == match total {
                Ok((st, end)) => Ok(finish_spec(st.0, st.1, end)),
                Err(h) => Err(h),
            },
            c.wf(),
            c.bytes == prefix,
            c.file_len == file_length,
            fields.wf(),
            fields_agree(fields.entries@, g@),
            done <= entries,
            total == entries_spec(
                prefix@,
                file_length as int,
                c.pos as int,
                entries - done,
                (m@, g@),
            ),
        decreases entries - done,
    {
        match c.read_entry(&mut m, &mut fields, g) {
            Ok(next) => {
                g = next;
            },
            Err(e) => {
                return stopped(e);
            },
        }
        done += 1;
    }
    let context_length = architecture_field(&fields, g, &m.architecture, "context_length");
    let embedding_length = architecture_field(&fields, g, &m.architecture, "embedding_length");
    let block_count = architecture_field(&fields, g, &m.architecture, "block_count");
    m.context_length = context_length;
    m.embedding_length = embedding_length;
    m.block_count = block_count;
    m.metadata_bytes = c.pos;
    MetadataScan::Complete(m)
}

// ---------------------------------------------------------------------------------------------
// Reading more never changes a decided scan
// ---------------------------------------------------------------------------------------------

/// The spec result asks for more bytes.
pub open spec fn wants_more<T>(r: Result<T, Halt>) -> bool {
    r matches Err(Halt::NeedBytes(_))
}

/// `b2` extends `b`, and both are prefixes of a file of `len` bytes.
pub open spec fn extends(b: Seq<u8>, b2: Seq<u8>, len: int) -> bool {
    b.len() <= b2.len() <= len && b2.subrange(0, b.len() as int) == b
}

proof fn lemma_take_extends(b: Seq<u8>, b2: Seq<u8>, len: int, pos: int, n: int)
    requires
        extends(b, b2, len),
        0 <= pos,
        0 <= n,
        !wants_more(take_spec(b, len, pos, n)),
    ensures
        take_spec(b2, len, pos, n) == take_spec(b, len, pos, n),
{
    if pos + n <= len && pos + n <= b.len() {
        assert(b2.subrange(pos, pos + n) =~= b.subrange(pos, pos + n)) by {
            assert forall|i: int| 0 <= i < n implies #[trigger] b2.subrange(pos, pos + n)[i] == b.subrange(
                pos,
                pos + n,
            )[i] by {
                assert(b2.subrange(0, b.len() as int)[pos + i] == b2[pos + i]);
            }
        }
    }
}

proof fn lemma_numbers_extend(b: Seq<u8>, b2: Seq<u8>, len: int, pos: int)
    requires
        extends(b, b2, len),
        0 <= pos,
    ensures
        !wants_more(u8_spec(b, len, pos)) ==> u8_spec(b2, len, pos) == u8_spec(b, len, pos),
        !wants_more(u16_spec(b, len, pos)) ==> u16_spec(b2, len, pos) == u16_spec(b, len, pos),
        !wants_more(u32_spec(b, len, pos)) ==> u32_spec(b2, len, pos) == u32_spec(b, len, pos),
        !wants_more(u64_spec(b, len, pos)) ==> u64_spec(b2, len, pos) == u64_spec(b, len, pos),
        !wants_more(take_spec(b, len, pos, 4)) ==> take_spec(b2, len, pos, 4) == take_spec(
            b,
            len,
            pos,
            4,
        ),
        !wants_more(take_spec(b, len, pos, 8)) ==> take_spec(b2, len, pos, 8) == take_spec(
            b,
            len,
            pos,
            8,
        ),
{
    if !wants_more(take_spec(b, len, pos, 1)) {
        lemma_take_extends(b, b2, len, pos, 1);
    }
    if !wants_more(take_spec(b, len, pos, 2)) {
        lemma_take_extends(b, b2, len, pos, 2);
    }
    if !wants_more(take_spec(b, len, pos, 4)) {
        lemma_take_extends(b, b2, len, pos, 4);
    }
    if !wants_more(take_spec(b, len, pos, 8)) {
        lemma_take_extends(b, b2, len, pos, 8);
    }
}

proof fn lemma_scalar_extends(b: Seq<u8>, b2: Seq<u8>, len: int, pos: int, t: ValueType)
    requires
        extends(b, b2, len),
        0 <= pos,
        !wants_more(scalar_spec(b, len, pos, t)),
    ensures
        scalar_spec(b2, len, pos, t) == scalar_spec(b, len, pos, t),
        scalar_spec(b, len, pos, t) matches Ok((_, p)) ==> p >= pos,
{
    lemma_numbers_extend(b, b2, len, pos);
}

proof fn lemma_skip_strings_extends(b: Seq<u8>, b2: Seq<u8>, len: int, pos: int, count: int)
    requires
        extends(b, b2, len),
        0 <= pos,
        !wants_more(skip_strings_spec(b, len, pos, count)),
    ensures
        skip_strings_spec(b2, len, pos, count) == skip_strings_spec(b, len, pos, count),
        skip_strings_spec(b, len, pos, count) matches Ok((_, p)) ==> p >= pos,
    decreases count,
{
    if count > 0 {
        lemma_numbers_extend(b, b2, len, pos);
        match u64_spec(b, len, pos) {
            Ok((l, p)) => match skip_spec(len, p, l as int) {
                Ok((_, q)) => lemma_skip_strings_extends(b, b2, len, q, count - 1),
                Err(_) => {},
            },
            Err(_) => {},
        }
    }
}

proof fn lemma_skip_array_extends(b: Seq<u8>, b2: Seq<u8>, len: int, pos: int)
    requires
        extends(b, b2, len),
        0 <= pos,
        !wants_more(skip_array_spec(b, len, pos)),
    ensures
        skip_array_spec(b2, len, pos) == skip_array_spec(b, len, pos),
        skip_array_spec(b, len, pos) matches Ok((_, p)) ==> p >= pos,
{
    lemma_numbers_extend(b, b2, len, pos);
    if let Ok((code, p1)) = u32_spec(b, len, pos) {
        lemma_numbers_extend(b, b2, len, p1);
        if let Ok((count, p2)) = u64_spec(b, len, p1) {
            if count <= MAX_ARRAY_ENTRIES && value_type_spec(code) == Some(ValueType::String) {
                lemma_skip_strings_extends(b, b2, len, p2, count as int);
            }
        }
    }
}

proof fn lemma_strings_extend(b: Seq<u8>, b2: Seq<u8>, len: int, pos: int, max: int, capture: bool)
    requires
        extends(b, b2, len),
        0 <= pos,
    ensures
        !wants_more(string_spec(b, len, pos, max)) ==> string_spec(b2, len, pos, max)
            == string_spec(b, len, pos, max),
        !wants_more(optional_string_spec(b, len, pos, capture)) ==> optional_string_spec(
            b2,
            len,
            pos,
            capture,
        ) == optional_string_spec(b, len, pos, capture),
        string_spec(b, len, pos, max) matches Ok((_, p)) ==> p >= pos,
        optional_string_spec(b, len, pos, capture) matches Ok((_, p)) ==> p >= pos,
{
    lemma_numbers_extend(b, b2, len, pos);
    if let Ok((l, p)) = u64_spec(b, len, pos) {
        if !wants_more(take_spec(b, len, p, l as int)) {
            lemma_take_extends(b, b2, len, p, l as int);
        }
    }
}

proof fn lemma_entry_extends(b: Seq<u8>, b2: Seq<u8>, len: int, pos: int, st: ScanState)
    requires
        extends(b, b2, len),
        0 <= pos,
        !wants_more(entry_spec(b, len, pos, st)),
    ensures
        entry_spec(b2, len, pos, st) == entry_spec(b, len, pos, st),
        entry_spec(b, len, pos, st) matches Ok((_, p)) ==> p >= pos,
{
    lemma_strings_extend(b, b2, len, pos, MAX_KEY_BYTES as int, false);
    if let Ok((key, p1)) = string_spec(b, len, pos, MAX_KEY_BYTES as int) {
        lemma_numbers_extend(b, b2, len, p1);
        if let Ok((code, p2)) = u32_spec(b, len, p1) {
            match value_type_spec(code) {
                Some(ValueType::String) => {
                    lemma_strings_extend(b, b2, len, p2, 0, interesting_key(key));
                },
                Some(ValueType::Array) => {
                    lemma_skip_array_extends(b, b2, len, p2);
                },
                Some(t) => {
                    lemma_scalar_extends(b, b2, len, p2, t);
                },
                None => {},
            }
        }
    }
}

proof fn lemma_entries_extend(b: Seq<u8>, b2: Seq<u8>, len: int, pos: int, count: int, st: ScanState)
    requires
        extends(b, b2, len),
        0 <= pos,
        !wants_more(entries_spec(b, len, pos, count, st)),
    ensures
        entries_spec(b2, len, pos, count, st) == entries_spec(b, len, pos, count, st),
    decreases count,
{
    if count > 0 {
        if !wants_more(entry_spec(b, len, pos, st)) {
            lemma_entry_extends(b, b2, len, pos, st);
            if let Ok((next, p)) = entry_spec(b, len, pos, st) {
                lemma_entries_extend(b, b2, len, p, count - 1, next);
            }
        }
    }
}

/// Reading more of the file never changes a decided scan: once a prefix gives the metadata or
/// a rejection, every longer prefix of the same file gives the same.
pub proof fn scan_is_stable_under_longer_prefixes(b: Seq<u8>, b2: Seq<u8>, len: int)
    requires
        extends(b, b2, len),
        !wants_more(scan_spec(b, len)),
    ensures
        scan_spec(b2, len) == scan_spec(b, len),
{
    lemma_numbers_extend(b, b2, len, 0);
    if let Ok((magic, p0)) = take_spec(b, len, 0, 4) {
        lemma_numbers_extend(b, b2, len, p0);
        if let Ok((version, p1)) = u32_spec(b, len, p0) {
            lemma_numbers_extend(b, b2, len, p1);
            if let Ok((tensors, p2)) = u64_spec(b, len, p1) {
                lemma_numbers_extend(b, b2, len, p2);
                if let Ok((entries, p3)) = u64_spec(b, len, p2) {
                    let st = (initial_metadata(version, tensors, entries), Map::empty());
                    if !wants_more(entries_spec(b, len, p3, entries as int, st)) {
                        lemma_entries_extend(b, b2, len, p3, entries as int, st);
                    }
                }
            }
        }
    }
}

} // verus!
