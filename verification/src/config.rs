//! The property codec: typed configuration values, the length-prefixed
//! TLV chunk grammar, and the incremental decoder that reassembles a chunk
//! from CAN-sized byte windows.
//!
//! Wire grammar of one chunk:
//! ```text
//! chunk  := num_fields:u8  field*num_fields
//! field  := prop_id:u8  length:u8  bytes<length>
//! ```
//! Frame boundaries are transparent: a field may start in one frame and
//! end in another.

use vstd::prelude::*;

use vstd::string::StringSliceAdditionalSpecFns;

use crate::schema::ValueType;
use crate::text::render_text;

verus! {

// Errors ///////////////////////////////////////////////////////////////

/// A value was read under the wrong type.
#[derive(Debug, Clone, Copy, PartialEq, Eq, Structural)]
pub struct TypeError {}

/// The byte stream did not follow the chunk grammar, or a builder was
/// driven past its end.
#[derive(Debug)]
pub struct DataParsingError {
    /// What went wrong, for the operator.
    pub message: String,
}

/// Wraps a diagnostic into the `Err` case of a parse result.
fn error<T>(message: &str) -> (r: Result<T, DataParsingError>)
    ensures
        r is Err,
{
    Err(DataParsingError { message: message.to_owned() })
}

// Configuration data ///////////////////////////////////////////////////

/// A decoded property value.
#[derive(Debug)]
pub enum Value {
    /// One byte.
    U8(u8),
    /// Two bytes, big-endian.
    U16(u16),
    /// Four bytes, big-endian.
    U32(u32),
    /// Raw bytes rendered as text.
    Text(String),
    /// One byte, zero meaning false.
    Boolean(bool),
    /// A contiguous array of bytes.
    VectorU8(Vec<u8>),
    /// A contiguous array of 16-bit values.
    VectorU16(Vec<u16>),
}

impl Value {
    /// The byte inside, or a type error.
    pub fn as_u8(&self) -> (r: Result<u8, TypeError>)
        ensures
            r is Ok <==> self is U8,
            self is U8 ==> r == Ok::<u8, TypeError>(self->U8_0),
    {
        match self {
            Value::U8(value) => Ok(*value),
            _ => Err(TypeError {}),
        }
    }

    /// The 16-bit value inside, or a type error.
    pub fn as_u16(&self) -> (r: Result<u16, TypeError>)
        ensures
            r is Ok <==> self is U16,
            self is U16 ==> r == Ok::<u16, TypeError>(self->U16_0),
    {
        match self {
            Value::U16(value) => Ok(*value),
            _ => Err(TypeError {}),
        }
    }

    /// The 32-bit value inside, or a type error.
    pub fn as_u32(&self) -> (r: Result<u32, TypeError>)
        ensures
            r is Ok <==> self is U32,
            self is U32 ==> r == Ok::<u32, TypeError>(self->U32_0),
    {
        match self {
            Value::U32(value) => Ok(*value),
            _ => Err(TypeError {}),
        }
    }

    /// The truth value inside, or a type error.
    pub fn as_bool(&self) -> (r: Result<bool, TypeError>)
        ensures
            r is Ok <==> self is Boolean,
            self is Boolean ==> r == Ok::<bool, TypeError>(self->Boolean_0),
    {
        match self {
            Value::Boolean(value) => Ok(*value),
            _ => Err(TypeError {}),
        }
    }

    /// The text inside, or a type error.
    pub fn as_text(&self) -> (r: Result<String, TypeError>)
        ensures
            r is Ok <==> self is Text,
            self is Text ==> r is Ok && r->Ok_0@ == self->Text_0@,
    {
        match self {
            Value::Text(value) => Ok(value.clone()),
            _ => Err(TypeError {}),
        }
    }

    /// The byte vector inside, or a type error.
    pub fn as_vec_u8(&self) -> (r: Result<Vec<u8>, TypeError>)
        ensures
            r is Ok <==> self is VectorU8,
            self is VectorU8 ==> r is Ok && r->Ok_0@ == self->VectorU8_0@,
    {
        match self {
            Value::VectorU8(value) => {
                let mut out: Vec<u8> = Vec::new();
                let mut i: usize = 0;
                while i < value.len()
                    invariant
                        i <= value@.len(),
                        out@ == value@.take(i as int),
                    decreases value@.len() - i,
                {
                    out.push(value[i]);
                    i = i + 1;
                    proof {
                        assert(out@ =~= value@.take(i as int));
                    }
                }
                proof {
                    assert(out@ =~= value@);
                }
                Ok(out)
            },
            _ => Err(TypeError {}),
        }
    }

    /// The 16-bit vector inside, or a type error.
    pub fn as_vec_u16(&self) -> (r: Result<Vec<u16>, TypeError>)
        ensures
            r is Ok <==> self is VectorU16,
            self is VectorU16 ==> r is Ok && r->Ok_0@ == self->VectorU16_0@,
    {
        match self {
            Value::VectorU16(value) => {
                let mut out: Vec<u16> = Vec::new();
                let mut i: usize = 0;
                while i < value.len()
                    invariant
                        i <= value@.len(),
                        out@ == value@.take(i as int),
                    decreases value@.len() - i,
                {
                    out.push(value[i]);
                    i = i + 1;
                    proof {
                        assert(out@ =~= value@.take(i as int));
                    }
                }
                proof {
                    assert(out@ =~= value@);
                }
                Ok(out)
            },
            _ => Err(TypeError {}),
        }
    }
}

/// The 16-bit value that two big-endian bytes denote.
pub open spec fn u16_be(b0: u8, b1: u8) -> u16 {
    (b0 as nat * 0x100 + b1 as nat) as u16
}

/// The 32-bit value that four big-endian bytes denote.
pub open spec fn u32_be(b0: u8, b1: u8, b2: u8, b3: u8) -> u32 {
    (b0 as nat * 0x1000000 + b1 as nat * 0x10000 + b2 as nat * 0x100 + b3 as nat) as u32
}

/// The 16-bit values that a byte sequence of even length denotes,
/// big-endian pair by pair.
pub open spec fn vec_u16_be(data: Seq<u8>) -> Seq<u16> {
    Seq::new(data.len() / 2, |i: int| u16_be(data[2 * i], data[2 * i + 1]))
}

// Properties and their canonical bytes /////////////////////////////////

/// One TLV within a chunk.  Invariant: `data` holds exactly `length`
/// bytes.
#[derive(Debug)]
pub struct Property {
    /// The property selector from the schema.
    pub id: u8,
    /// The number of value bytes.
    pub length: u8,
    /// The value bytes.
    pub data: Vec<u8>,
}

/// The mathematical value of one property.
pub struct PropertyView {
    /// The property selector.
    pub id: u8,
    /// The declared value length.
    pub length: u8,
    /// The value bytes.
    pub data: Seq<u8>,
}

impl View for Property {
    type V = PropertyView;

    open spec fn view(&self) -> PropertyView {
        PropertyView { id: self.id, length: self.length, data: self.data@ }
    }
}

impl Property {
    /// The definition of this property in the set every module shares,
    /// if its id belongs to one of the three common properties.
    pub fn get_attribute(&self) -> (r: Option<crate::schema::PropertyDef>)
        ensures
            match r {
                Some(d) => self.id <= 2 && d@ == crate::schema::common_property_def_view(
                    self.id,
                ),
                None => self.id > 2,
            },
    {
        crate::schema::common_property_def(self.id)
    }

    /// Reads the value under the common definition of this property's
    /// id: `None` when the id has no common definition or the data is
    /// too short for its type.
    pub fn get_value(&self) -> (r: Option<Value>)
        ensures
            match r {
                Some(v) => self.id <= 2 && value_of(
                    crate::schema::common_property_def_view(self.id).value_type,
                    self.data@,
                ) == Some(v@),
                None => self.id > 2 || value_of(
                    crate::schema::common_property_def_view(self.id).value_type,
                    self.data@,
                ) is None,
            },
    {
        let attr = match self.get_attribute() {
            Some(a) => a,
            None => {
                return None;
            },
        };
        match self.get_value_with_type(&attr.value_type) {
            Ok(v) => Some(v),
            Err(_) => None,
        }
    }

    /// Reads the value bytes under the given type.  Fails exactly when
    /// the data is too short for a fixed-width type, or has odd length
    /// for a 16-bit vector.
    pub fn get_value_with_type(&self, value_type: &ValueType) -> (r: Result<Value, TypeError>)
        ensures
            match r {
                Ok(v) => value_of(*value_type, self.data@) == Some(v@),
                Err(_) => value_of(*value_type, self.data@) is None,
            },
    {
        match value_type {
            ValueType::U8 => {
                if self.data.len() >= 1 {
                    Ok(Value::U8(self.data[0]))
                } else {
                    Err(TypeError {})
                }
            },
            ValueType::U16 => {
                if self.data.len() >= 2 {
                    let b0 = self.data[0];
                    let b1 = self.data[1];
                    let v = (b0 as u16) * 0x100 + (b1 as u16);
                    Ok(Value::U16(v))
                } else {
                    Err(TypeError {})
                }
            },
            ValueType::U32 => {
                if self.data.len() >= 4 {
                    let b0 = self.data[0];
                    let b1 = self.data[1];
                    let b2 = self.data[2];
                    let b3 = self.data[3];
                    let v = (b0 as u32) * 0x1000000 + (b1 as u32) * 0x10000 + (b2 as u32) * 0x100
                        + (b3 as u32);
                    Ok(Value::U32(v))
                } else {
                    Err(TypeError {})
                }
            },
            ValueType::Text => Ok(Value::Text(crate::text::render_text_string(
                self.data.as_slice(),
            ))),
            ValueType::Boolean => {
                if self.data.len() >= 1 {
                    Ok(Value::Boolean(self.data[0] != 0))
                } else {
                    Err(TypeError {})
                }
            },
            ValueType::VectorU8 => {
                let mut out: Vec<u8> = Vec::new();
                let mut i: usize = 0;
                while i < self.data.len()
                    invariant
                        i <= self.data@.len(),
                        out@ == self.data@.take(i as int),
                    decreases self.data@.len() - i,
                {
                    out.push(self.data[i]);
                    i = i + 1;
                    proof {
                        assert(out@ =~= self.data@.take(i as int));
                    }
                }
                proof {
                    assert(out@ =~= self.data@);
                }
                Ok(Value::VectorU8(out))
            },
            ValueType::VectorU16 => {
                if self.data.len() % 2 != 0 {
                    return Err(TypeError {});
                }
                let len = self.data.len();
                let pairs = len / 2;
                let mut out: Vec<u16> = Vec::new();
                let mut i: usize = 0;
                while i < pairs
                    invariant
                        i <= pairs,
                        len == self.data@.len(),
                        pairs == self.data@.len() / 2,
                        self.data@.len() % 2 == 0,
                        out@ == vec_u16_be(self.data@).take(i as int),
                    decreases pairs - i,
                {
                    proof {
                        assert(2 * (i as int) + 1 < len);
                    }
                    let b0 = self.data[2 * i];
                    let b1 = self.data[2 * i + 1];
                    let v = (b0 as u16) * 0x100 + (b1 as u16);
                    out.push(v);
                    i = i + 1;
                    proof {
                        assert(out@ =~= vec_u16_be(self.data@).take(i as int));
                    }
                }
                proof {
                    assert(out@ =~= vec_u16_be(self.data@));
                }
                Ok(Value::VectorU16(out))
            },
        }
    }

    /// Reads the value bytes as text; the lossy rendering never fails.
    pub fn get_value_as_string(&self) -> (r: Result<String, DataParsingError>)
        ensures
            r is Ok,
            r->Ok_0@ == render_text(self.data@),
    {
        Ok(crate::text::render_text_string(self.data.as_slice()))
    }
}

/// The mathematical value of a `Value`.
pub enum ValueView {
    /// One byte.
    U8(u8),
    /// Two bytes, big-endian.
    U16(u16),
    /// Four bytes, big-endian.
    U32(u32),
    /// Raw bytes rendered as text.
    Text(Seq<char>),
    /// One byte, zero meaning false.
    Boolean(bool),
    /// A contiguous array of bytes.
    VectorU8(Seq<u8>),
    /// A contiguous array of 16-bit values.
    VectorU16(Seq<u16>),
}

impl View for Value {
    type V = ValueView;

    open spec fn view(&self) -> ValueView {
        match self {
            Value::U8(v) => ValueView::U8(*v),
            Value::U16(v) => ValueView::U16(*v),
            Value::U32(v) => ValueView::U32(*v),
            Value::Text(s) => ValueView::Text(s@),
            Value::Boolean(b) => ValueView::Boolean(*b),
            Value::VectorU8(v) => ValueView::VectorU8(v@),
            Value::VectorU16(v) => ValueView::VectorU16(v@),
        }
    }
}

/// What value a byte sequence denotes under each type: `None` when the
/// data is too short for a fixed-width type or has odd length for a
/// 16-bit vector.
pub open spec fn value_of(value_type: ValueType, data: Seq<u8>) -> Option<ValueView> {
    match value_type {
        ValueType::U8 => if data.len() >= 1 {
            Some(ValueView::U8(data[0]))
        } else {
            None
        },
        ValueType::U16 => if data.len() >= 2 {
            Some(ValueView::U16(u16_be(data[0], data[1])))
        } else {
            None
        },
        ValueType::U32 => if data.len() >= 4 {
            Some(ValueView::U32(u32_be(data[0], data[1], data[2], data[3])))
        } else {
            None
        },
        ValueType::Text => Some(ValueView::Text(render_text(data))),
        ValueType::Boolean => if data.len() >= 1 {
            Some(ValueView::Boolean(data[0] != 0))
        } else {
            None
        },
        ValueType::VectorU8 => Some(ValueView::VectorU8(data)),
        ValueType::VectorU16 => if data.len() % 2 == 0 {
            Some(ValueView::VectorU16(vec_u16_be(data)))
        } else {
            None
        },
    }
}

/// A property is well-formed when its data holds exactly `length` bytes.
pub open spec fn prop_wf(p: PropertyView) -> bool {
    p.data.len() == p.length
}

/// The canonical bytes of one field: id, length, value bytes.
pub open spec fn field_bytes(p: PropertyView) -> Seq<u8> {
    seq![p.id, p.length] + p.data
}

/// The canonical bytes of a run of fields, back to back.
pub open spec fn fields_bytes(ps: Seq<PropertyView>) -> Seq<u8>
    decreases ps.len(),
{
    if ps.len() == 0 {
        Seq::empty()
    } else {
        field_bytes(ps[0]) + fields_bytes(ps.drop_first())
    }
}

/// The canonical serialization of a whole chunk: the field count, then
/// the fields.
pub open spec fn chunk_bytes(ps: Seq<PropertyView>) -> Seq<u8> {
    seq![ps.len() as u8] + fields_bytes(ps)
}

/// A chunk is well-typed when its field count fits the count byte and
/// every property is well-formed.
pub open spec fn chunk_wf(ps: Seq<PropertyView>) -> bool {
    ps.len() <= 255 && forall|i: int| 0 <= i < ps.len() ==> prop_wf(#[trigger] ps[i])
}

// The wire grammar, read directly off the bytes ///////////////////////

/// Whether `bytes` are exactly one complete field: an id byte, a length
/// byte, and as many value bytes as the length byte declares.
pub open spec fn complete_field(bytes: Seq<u8>) -> bool {
    bytes.len() >= 2 && bytes.len() == 2 + bytes[1]
}

/// A strict prefix of one field's bytes: nothing, the id alone, or the
/// id, the length, and fewer value bytes than declared.
pub open spec fn field_prefix(bytes: Seq<u8>) -> bool {
    ||| bytes.len() == 0
    ||| bytes.len() == 1
    ||| (bytes.len() >= 2 && bytes.len() < 2 + bytes[1])
}

/// Whether `bytes` are exactly `n` complete fields, back to back.
pub open spec fn complete_fields(bytes: Seq<u8>, n: nat) -> bool
    decreases n,
{
    if n == 0 {
        bytes.len() == 0
    } else if bytes.len() < 2 {
        false
    } else if bytes.len() < 2 + bytes[1] {
        false
    } else {
        complete_fields(bytes.skip(2 + bytes[1] as int), (n - 1) as nat)
    }
}

/// Whether `bytes` are exactly one complete chunk: a field-count byte
/// followed by that many complete fields.
pub open spec fn complete_chunk(bytes: Seq<u8>) -> bool {
    bytes.len() >= 1 && complete_fields(bytes.skip(1), bytes[0] as nat)
}

/// A run of well-formed fields followed by a strict field prefix reads
/// as `n` complete fields exactly when the run has `n` fields and the
/// prefix is empty.
proof fn lemma_complete_fields_concat(ps: Seq<PropertyView>, extra: Seq<u8>, n: nat)
    requires
        forall|i: int| 0 <= i < ps.len() ==> prop_wf(#[trigger] ps[i]),
        ps.len() <= n,
        field_prefix(extra),
    ensures
        complete_fields(fields_bytes(ps) + extra, n) <==> (ps.len() == n && extra.len() == 0),
    decreases ps.len(),
{
    let bytes = fields_bytes(ps) + extra;
    if ps.len() == 0 {
        assert(fields_bytes(ps) =~= Seq::<u8>::empty());
        assert(bytes =~= extra);
    } else {
        let p0 = ps[0];
        assert(prop_wf(p0));
        assert(fields_bytes(ps) == field_bytes(p0) + fields_bytes(ps.drop_first()));
        assert(bytes[1] == p0.length);
        assert(bytes.len() >= 2 + p0.length);
        assert(bytes.skip(2 + p0.length as int) =~= fields_bytes(ps.drop_first()) + extra);
        assert forall|i: int| 0 <= i < ps.drop_first().len() implies prop_wf(
            #[trigger] ps.drop_first()[i],
        ) by {
            assert(ps.drop_first()[i] == ps[i + 1]);
        }
        lemma_complete_fields_concat(ps.drop_first(), extra, (n - 1) as nat);
    }
}

/// Appending a field extends the run's bytes by that field's bytes.
pub proof fn lemma_fields_bytes_push(ps: Seq<PropertyView>, p: PropertyView)
    ensures
        fields_bytes(ps.push(p)) == fields_bytes(ps) + field_bytes(p),
    decreases ps.len(),
{
    if ps.len() == 0 {
        assert(ps.push(p)[0] == p);
        assert(ps.push(p).drop_first() =~= Seq::<PropertyView>::empty());
        assert(fields_bytes(ps.push(p).drop_first()) =~= Seq::<u8>::empty());
        assert(fields_bytes(ps.push(p)) == field_bytes(p) + fields_bytes(ps.push(p).drop_first()));
        assert(fields_bytes(ps) =~= Seq::<u8>::empty());
        assert(fields_bytes(ps.push(p)) =~= fields_bytes(ps) + field_bytes(p));
    } else {
        assert(ps.push(p).drop_first() =~= ps.drop_first().push(p));
        lemma_fields_bytes_push(ps.drop_first(), p);
        assert(ps.push(p)[0] == ps[0]);
        assert(fields_bytes(ps.push(p)) =~= fields_bytes(ps) + field_bytes(p));
    }
}

/// Whether every comma piece of a vector value is a number within
/// `bound`.
pub open spec fn vector_pieces_ok(pieces: Seq<Seq<char>>, bound: nat) -> bool {
    forall|i: int|
        0 <= i < pieces.len() ==> match crate::user_session::number_token_spec(
            #[trigger] pieces[i],
        ) {
            Some(v) => v <= bound,
            None => false,
        }
}

/// The numbers the comma pieces of a vector value denote.
pub open spec fn vector_piece_values(pieces: Seq<Seq<char>>) -> Seq<nat> {
    Seq::new(
        pieces.len(),
        |i: int|
            match crate::user_session::number_token_spec(pieces[i]) {
                Some(v) => v,
                None => 0,
            },
    )
}

/// The big-endian byte pairs of a run of 16-bit values.
pub open spec fn be16_flatten(vals: Seq<nat>) -> Seq<u8>
    decreases vals.len(),
{
    if vals.len() == 0 {
        Seq::empty()
    } else {
        be16_flatten(vals.drop_last()) + seq![
            (vals.last() / 256) as u8,
            (vals.last() % 256) as u8,
        ]
    }
}

/// The property a typed operator value denotes, if the value fits its
/// type: fixed-width numbers big-endian, text as UTF-8 bytes, vectors
/// comma-separated.
pub open spec fn property_from_string_spec(id: u8, s: Seq<char>, t: ValueType) -> Option<
    PropertyView,
> {
    match t {
        ValueType::U8 => match crate::user_session::number_token_spec(s) {
            Some(v) => if v <= 255 {
                Some(PropertyView { id, length: 1, data: seq![v as u8] })
            } else {
                None
            },
            None => None,
        },
        ValueType::U16 => match crate::user_session::number_token_spec(s) {
            Some(v) => if v <= 65535 {
                Some(
                    PropertyView {
                        id,
                        length: 2,
                        data: seq![(v / 0x100) as u8, (v % 0x100) as u8],
                    },
                )
            } else {
                None
            },
            None => None,
        },
        ValueType::U32 => match crate::user_session::number_token_spec(s) {
            Some(v) => Some(
                PropertyView {
                    id,
                    length: 4,
                    data: seq![
                        (v / 0x1000000) as u8,
                        ((v / 0x10000) % 0x100) as u8,
                        ((v / 0x100) % 0x100) as u8,
                        (v % 0x100) as u8,
                    ],
                },
            ),
            None => None,
        },
        ValueType::Boolean => if crate::text::trim_spec(s) == "true"@ {
            Some(PropertyView { id, length: 1, data: seq![1u8] })
        } else if crate::text::trim_spec(s) == "false"@ {
            Some(PropertyView { id, length: 1, data: seq![0u8] })
        } else {
            None
        },
        ValueType::Text => {
            let bytes = vstd::utf8::encode_utf8(s);
            if bytes.len() <= 255 {
                Some(PropertyView { id, length: bytes.len() as u8, data: bytes })
            } else {
                None
            }
        },
        ValueType::VectorU8 => {
            let pieces = crate::text::split_commas_spec(s);
            if vector_pieces_ok(pieces, 255) && pieces.len() <= 255 {
                Some(
                    PropertyView {
                        id,
                        length: pieces.len() as u8,
                        data: vector_piece_values(pieces).map_values(|v: nat| v as u8),
                    },
                )
            } else {
                None
            }
        },
        ValueType::VectorU16 => {
            let pieces = crate::text::split_commas_spec(s);
            if vector_pieces_ok(pieces, 65535) && pieces.len() <= 127 {
                Some(
                    PropertyView {
                        id,
                        length: (2 * pieces.len()) as u8,
                        data: be16_flatten(vector_piece_values(pieces)),
                    },
                )
            } else {
                None
            }
        },
    }
}

impl Property {
    /// A text property carrying the UTF-8 bytes of `value`; `None` when
    /// they do not fit the one-byte length.
    pub fn text(id: u8, value: &str) -> (r: Option<Property>)
        ensures
            match r {
                Some(p) => value.spec_bytes().len() <= 255 && p@ == (PropertyView {
                    id,
                    length: value.spec_bytes().len() as u8,
                    data: value.spec_bytes(),
                }),
                None => value.spec_bytes().len() > 255,
            },
    {
        let bytes = value.as_bytes_vec();
        if bytes.len() > 255 {
            None
        } else {
            let length = bytes.len() as u8;
            Some(Property { id, length, data: bytes })
        }
    }

    /// Builds a property from an operator-typed value under the given
    /// type; values that do not fit are refused as invalid.
    pub fn from_string(id: u8, value: &str, value_type: &ValueType) -> (r: Result<
        Property,
        crate::error::AppError,
    >)
        ensures
            match property_from_string_spec(id, value@, *value_type) {
                Some(pv) => r is Ok && r->Ok_0@ == pv,
                None => r is Err && r->Err_0.error_type == crate::error::ErrorType::A3InvalidValue,
            },
    {
        match value_type {
            ValueType::U8 => {
                match crate::text::parse_number_token(value) {
                    Some(v) => {
                        if v <= 255 {
                            let mut data: Vec<u8> = Vec::new();
                            data.push(v as u8);
                            proof {
                                assert(data@ =~= seq![(v as u8)]);
                            }
                            Ok(Property { id, length: 1, data })
                        } else {
                            Err(crate::error::AppError::new(
                                crate::error::ErrorType::A3InvalidValue,
                                String::from_str("invalid value"),
                            ))
                        }
                    },
                    None => Err(crate::error::AppError::new(
                        crate::error::ErrorType::A3InvalidValue,
                        String::from_str("invalid value"),
                    )),
                }
            },
            ValueType::U16 => {
                match crate::text::parse_number_token(value) {
                    Some(v) => {
                        if v <= 65535 {
                            let mut data: Vec<u8> = Vec::new();
                            data.push((v / 0x100) as u8);
                            data.push((v % 0x100) as u8);
                            proof {
                                assert(data@ =~= seq![
                                    ((v as nat) / 0x100) as u8,
                                    ((v as nat) % 0x100) as u8,
                                ]);
                            }
                            Ok(Property { id, length: 2, data })
                        } else {
                            Err(crate::error::AppError::new(
                                crate::error::ErrorType::A3InvalidValue,
                                String::from_str("invalid value"),
                            ))
                        }
                    },
                    None => Err(crate::error::AppError::new(
                        crate::error::ErrorType::A3InvalidValue,
                        String::from_str("invalid value"),
                    )),
                }
            },
            ValueType::U32 => {
                match crate::text::parse_number_token(value) {
                    Some(v) => {
                        let mut data: Vec<u8> = Vec::new();
                        data.push((v / 0x1000000) as u8);
                        data.push(((v / 0x10000) % 0x100) as u8);
                        data.push(((v / 0x100) % 0x100) as u8);
                        data.push((v % 0x100) as u8);
                        proof {
                            assert(data@ =~= seq![
                                ((v as nat) / 0x1000000) as u8,
                                (((v as nat) / 0x10000) % 0x100) as u8,
                                (((v as nat) / 0x100) % 0x100) as u8,
                                ((v as nat) % 0x100) as u8,
                            ]);
                        }
                        Ok(Property { id, length: 4, data })
                    },
                    None => Err(crate::error::AppError::new(
                        crate::error::ErrorType::A3InvalidValue,
                        String::from_str("invalid value"),
                    )),
                }
            },
            ValueType::Boolean => {
                let t = crate::text::trim(value);
                if t.eq(&String::from_str("true")) {
                    let mut data: Vec<u8> = Vec::new();
                    data.push(1u8);
                    proof {
                        assert(data@ =~= seq![1u8]);
                    }
                    Ok(Property { id, length: 1, data })
                } else if t.eq(&String::from_str("false")) {
                    let mut data: Vec<u8> = Vec::new();
                    data.push(0u8);
                    proof {
                        assert(data@ =~= seq![0u8]);
                    }
                    Ok(Property { id, length: 1, data })
                } else {
                    Err(crate::error::AppError::new(
                        crate::error::ErrorType::A3InvalidValue,
                        String::from_str("invalid value"),
                    ))
                }
            },
            ValueType::Text => {
                match Self::text(id, value) {
                    Some(p) => Ok(p),
                    None => Err(crate::error::AppError::new(
                        crate::error::ErrorType::A3InvalidValue,
                        String::from_str("invalid value"),
                    )),
                }
            },
            ValueType::VectorU8 => vector_u8_property(id, value),
            ValueType::VectorU16 => vector_u16_property(id, value),
        }
    }
}


/// Builds a byte-vector property from a comma-separated value.
fn vector_u8_property(id: u8, value: &str) -> (r: Result<Property, crate::error::AppError>)
    ensures
        match property_from_string_spec(id, value@, ValueType::VectorU8) {
            Some(pv) => r is Ok && r->Ok_0@ == pv,
            None => r is Err && r->Err_0.error_type == crate::error::ErrorType::A3InvalidValue,
        },
{
    let pieces = crate::text::split_commas(value);
    let ghost piece_views = pieces.deep_view();
    if pieces.len() > 255 {
        proof {
            assert(piece_views == crate::text::split_commas_spec(value@));
            assert(piece_views.len() == pieces@.len());
            assert(property_from_string_spec(id, value@, ValueType::VectorU8) is None);
        }
        return Err(crate::error::AppError::new(
            crate::error::ErrorType::A3InvalidValue,
            String::from_str("invalid value"),
        ));
    }
    let mut data: Vec<u8> = Vec::new();
    let mut i: usize = 0;
    while i < pieces.len()
        invariant
            i <= pieces@.len(),
            piece_views == pieces.deep_view(),
            piece_views == crate::text::split_commas_spec(value@),
            piece_views.len() == pieces@.len(),
            piece_views.len() <= 255,
            vector_pieces_ok(piece_views.take(i as int), 255),
            data@ == vector_piece_values(piece_views.take(i as int)).map_values(|v: nat| v as u8),
        decreases pieces@.len() - i,
    {
        proof {
            assert(piece_views[i as int] == pieces@[i as int]@);
        }
        let parsed = crate::text::parse_number_token(pieces[i].as_str());
        let ok = match parsed {
            Some(v) => v <= 255,
            None => false,
        };
        if !ok {
            proof {
                assert(match crate::user_session::number_token_spec(piece_views[i as int]) {
                    Some(v) => v > 255,
                    None => true,
                });
                assert(!vector_pieces_ok(piece_views, 255));
            }
            return Err(crate::error::AppError::new(
                crate::error::ErrorType::A3InvalidValue,
                String::from_str("invalid value"),
            ));
        }
        let v = match parsed {
            Some(v) => v,
            None => 0,
        };
        data.push(v as u8);
        proof {
            assert(piece_views.take(i as int + 1).drop_last() =~= piece_views.take(i as int));
            assert(data@ =~= vector_piece_values(piece_views.take(i as int + 1)).map_values(
                |v: nat| v as u8,
            ));
        }
        i = i + 1;
    }
    proof {
        assert(piece_views.take(piece_views.len() as int) =~= piece_views);
    }
    let length = data.len() as u8;
    Ok(Property { id, length, data })
}

/// Builds a 16-bit-vector property from a comma-separated value.
fn vector_u16_property(id: u8, value: &str) -> (r: Result<Property, crate::error::AppError>)
    ensures
        match property_from_string_spec(id, value@, ValueType::VectorU16) {
            Some(pv) => r is Ok && r->Ok_0@ == pv,
            None => r is Err && r->Err_0.error_type == crate::error::ErrorType::A3InvalidValue,
        },
{
    let pieces = crate::text::split_commas(value);
    let ghost piece_views = pieces.deep_view();
    if pieces.len() > 127 {
        proof {
            assert(piece_views == crate::text::split_commas_spec(value@));
            assert(piece_views.len() == pieces@.len());
            assert(property_from_string_spec(id, value@, ValueType::VectorU16) is None);
        }
        return Err(crate::error::AppError::new(
            crate::error::ErrorType::A3InvalidValue,
            String::from_str("invalid value"),
        ));
    }
    let mut data: Vec<u8> = Vec::new();
    let mut i: usize = 0;
    while i < pieces.len()
        invariant
            i <= pieces@.len(),
            pieces@.len() <= 127,
            piece_views == pieces.deep_view(),
            piece_views == crate::text::split_commas_spec(value@),
            piece_views.len() == pieces@.len(),
            vector_pieces_ok(piece_views.take(i as int), 65535),
            data@ == be16_flatten(vector_piece_values(piece_views.take(i as int))),
            data@.len() == 2 * i,
        decreases pieces@.len() - i,
    {
        proof {
            assert(piece_views[i as int] == pieces@[i as int]@);
        }
        let parsed = crate::text::parse_number_token(pieces[i].as_str());
        let ok = match parsed {
            Some(v) => v <= 65535,
            None => false,
        };
        if !ok {
            proof {
                assert(match crate::user_session::number_token_spec(piece_views[i as int]) {
                    Some(v) => v > 65535,
                    None => true,
                });
                assert(!vector_pieces_ok(piece_views, 65535));
            }
            return Err(crate::error::AppError::new(
                crate::error::ErrorType::A3InvalidValue,
                String::from_str("invalid value"),
            ));
        }
        let v = match parsed {
            Some(v) => v,
            None => 0,
        };
        data.push((v / 0x100) as u8);
        data.push((v % 0x100) as u8);
        proof {
            assert(piece_views.take(i as int + 1).drop_last() =~= piece_views.take(i as int));
            assert(vector_piece_values(piece_views.take(i as int + 1)).drop_last()
                =~= vector_piece_values(piece_views.take(i as int)));
            assert(data@ =~= be16_flatten(vector_piece_values(piece_views.take(i as int + 1))));
        }
        i = i + 1;
    }
    proof {
        assert(piece_views.take(piece_views.len() as int) =~= piece_views);
    }
    let length = data.len() as u8;
    Ok(Property { id, length, data })
}

// Configuration: properties read under a schema ///////////////////////

/// The module type that the property list itself declares: the first
/// property with the module-type id decides, and a missing or short one
/// leaves the type unknown.
pub open spec fn module_type_of(ps: Seq<PropertyView>) -> u16
    decreases ps.len(),
{
    if ps.len() == 0 {
        crate::schema::UNKNOWN_MODULE_TYPE
    } else if ps[0].id == crate::analog3::A3_PROP_MODULE_TYPE {
        if ps[0].data.len() >= 2 {
            u16_be(ps[0].data[0], ps[0].data[1])
        } else {
            crate::schema::UNKNOWN_MODULE_TYPE
        }
    } else {
        module_type_of(ps.drop_first())
    }
}

/// How one property renders in a configuration listing: its definition's
/// enum label when it has one, its type-width hexadecimal otherwise,
/// and fixed fallbacks for unknown ids and malformed values.
pub open spec fn prop_rendering(defs: Map<u8, crate::schema::PropertyDefView>, p: PropertyView)
    -> Seq<char> {
    if !defs.contains_key(p.id) {
        "unknown property"@
    } else {
        let d = defs[p.id];
        match value_of(d.value_type, p.data) {
            None => "invalid value"@,
            Some(v) => match d.enum_names {
                Some(names) => match v {
                    ValueView::U8(x) => if x < names.len() {
                        names[x as int]
                    } else {
                        "VALUE_OUT_OF_ENUM_RANGE"@
                    },
                    _ => "invalid value"@,
                },
                None => crate::schema::hex_rendering(v),
            },
        }
    }
}

/// A property list read under the schema row that the list itself
/// selects through its module-type property.
pub struct Configuration {
    /// The schema row the properties are read under.
    pub module_def: crate::schema::ModuleDef,
    /// The held properties.
    pub properties: Vec<Property>,
    /// The module type id the properties declare.
    pub module_type: u16,
    /// The display name of that module type.
    pub module_type_name: String,
}

impl Configuration {
    /// The held properties, by mathematical value.
    pub open spec fn props(&self) -> Seq<PropertyView> {
        self.properties@.map_values(|p: Property| p@)
    }

    /// The property definitions the configuration is read under.
    pub open spec fn defs(&self) -> Map<u8, crate::schema::PropertyDefView> {
        self.module_def.props_map()
    }

    /// The configuration's internal consistency.
    pub open spec fn wf(&self) -> bool {
        forall|k: u8| #[trigger] self.defs().contains_key(k) ==> self.defs()[k].id == k
    }

    /// Reads `properties` under `schema`: the first module-type property
    /// selects the row, and unknown types fall back to the common
    /// definition.
    pub fn with_schema(
        properties: Vec<Property>,
        schema: &std::collections::BTreeMap<u16, crate::schema::ModuleDef>,
    ) -> (r: Self)
        requires
            forall|t: u16| #[trigger] schema@.contains_key(t) ==> schema@[t].wf(),
        ensures
            r.wf(),
            r.props() == properties@.map_values(|p: Property| p@),
            r.module_type == module_type_of(properties@.map_values(|p: Property| p@)),
            schema@.contains_key(r.module_type) ==> {
                &&& r.module_type_name@ == schema@[r.module_type].module_type_name@
                &&& r.defs() == schema@[r.module_type].props_map()
            },
            !schema@.contains_key(r.module_type) ==> {
                &&& r.module_type_name@ == "unknown"@
                &&& r.defs() == crate::schema::with_common_props(
                    Map::<u8, crate::schema::PropertyDefView>::empty(),
                )
            },
    {
        let ghost views = properties@.map_values(|p: Property| p@);
        let mut module_type: u16 = crate::schema::UNKNOWN_MODULE_TYPE;
        let mut i: usize = 0;
        let mut found = false;
        proof {
            assert(views.skip(0) =~= views);
        }
        while i < properties.len() && !found
            invariant
                i <= properties@.len(),
                views == properties@.map_values(|p: Property| p@),
                !found ==> module_type_of(views.skip(i as int)) == module_type_of(views),
                !found ==> module_type == crate::schema::UNKNOWN_MODULE_TYPE,
                found ==> module_type == module_type_of(views),
            decreases properties@.len() - i, (if found { 0int } else { 1int }),
        {
            let p = &properties[i];
            if p.id == crate::analog3::A3_PROP_MODULE_TYPE {
                if p.data.len() >= 2 {
                    module_type = (p.data[0] as u16) * 0x100 + (p.data[1] as u16);
                }
                found = true;
                proof {
                    assert(views.skip(i as int)[0] == views[i as int]);
                }
            } else {
                proof {
                    assert(views.skip(i as int)[0] == views[i as int]);
                    assert(views.skip(i as int).drop_first() =~= views.skip(i as int + 1));
                }
                i = i + 1;
            }
        }
        proof {
            if !found {
                assert(views.skip(i as int) =~= Seq::<PropertyView>::empty());
            }
        }
        let module_def = match schema.get(&module_type) {
            Some(def) => def.duplicate(),
            None => crate::schema::ModuleDef::common(),
        };
        let module_type_name = module_def.module_type_name.clone();
        Configuration { module_def, properties, module_type, module_type_name }
    }

    /// Reads `properties` with no loaded schema: every module type falls
    /// back to the common definition.
    pub fn new(properties: Vec<Property>) -> (r: Self)
        ensures
            r.wf(),
            r.props() == properties@.map_values(|p: Property| p@),
            r.module_type == module_type_of(properties@.map_values(|p: Property| p@)),
            r.module_type_name@ == "unknown"@,
            r.defs() == crate::schema::with_common_props(
                Map::<u8, crate::schema::PropertyDefView>::empty(),
            ),
    {
        let empty: std::collections::BTreeMap<u16, crate::schema::ModuleDef> =
            std::collections::BTreeMap::new();
        Self::with_schema(properties, &empty)
    }

    /// How many properties the configuration holds.
    pub fn len(&self) -> (r: usize)
        ensures
            r == self.props().len(),
    {
        self.properties.len()
    }

    /// The display name of the property at `index`, or a fixed fallback
    /// when the schema does not know its id.
    pub fn prop_name(&self, index: usize) -> (r: String)
        requires
            index < self.props().len(),
        ensures
            self.defs().contains_key(self.props()[index as int].id) ==> r@ == self.defs()[
                self.props()[index as int].id
            ].name,
            !self.defs().contains_key(self.props()[index as int].id) ==> r@
                == "unknown property"@,
    {
        let property = &self.properties[index];
        match self.module_def.get_property_by_id(property.id) {
            Some(prop_def) => prop_def.name.clone(),
            None => String::from_str("unknown property"),
        }
    }

    /// The rendered value of the property at `index`: the enum label for
    /// labelled properties, type-width hexadecimal otherwise.
    pub fn prop_value_as_string(&self, index: usize) -> (r: String)
        requires
            self.wf(),
            index < self.props().len(),
        ensures
            r@ == prop_rendering(self.defs(), self.props()[index as int]),
    {
        let property = &self.properties[index];
        let prop_def = match self.module_def.get_property_by_id(property.id) {
            Some(d) => d,
            None => {
                return String::from_str("unknown property");
            },
        };
        let value = match property.get_value_with_type(&prop_def.value_type) {
            Ok(v) => v,
            Err(_) => {
                return String::from_str("invalid value");
            },
        };
        match &prop_def.enum_names {
            Some(enum_names) => {
                match value.as_u8() {
                    Ok(enum_index) => {
                        if (enum_index as usize) < enum_names.len() {
                            enum_names[enum_index as usize].clone()
                        } else {
                            String::from_str("VALUE_OUT_OF_ENUM_RANGE")
                        }
                    },
                    Err(_) => String::from_str("invalid value"),
                }
            },
            None => prop_def.value_type.to_hex(&value),
        }
    }
}

// Incremental field decoder ////////////////////////////////////////////

/// Reassembles one field from byte windows: first the id byte, then the
/// length byte, then exactly `length` value bytes.
#[derive(Debug)]
pub struct DataFieldBuilder {
    id: u8,
    length: u8,
    data: Option<Vec<u8>>,
    id_read: bool,
    length_read: bool,
    data_pos: usize,
}

impl DataFieldBuilder {
    /// Whether `build` already consumed this builder.
    pub closed spec fn built(&self) -> bool {
        self.data is None
    }

    /// Whether the field has all its bytes.
    pub closed spec fn complete(&self) -> bool {
        self.length_read && self.data_pos == self.length
    }

    /// Exactly the bytes this builder has accepted so far.
    pub closed spec fn consumed(&self) -> Seq<u8> {
        if !self.id_read {
            Seq::empty()
        } else if !self.length_read {
            seq![self.id]
        } else {
            seq![self.id, self.length] + (match self.data {
                Some(d) => d@,
                None => Seq::empty(),
            })
        }
    }

    /// The builder's internal consistency.
    pub closed spec fn wf(&self) -> bool {
        &&& match self.data {
            Some(d) => d@.len() == self.data_pos,
            None => true,
        }
        &&& (self.length_read ==> self.id_read)
        &&& (self.length_read ==> self.data_pos <= self.length)
        &&& (!self.length_read ==> self.data_pos == 0)
    }

    /// A fresh builder that has seen nothing.
    pub fn new() -> (r: Self)
        ensures
            r.wf(),
            !r.built(),
            !r.complete(),
            r.consumed() == Seq::<u8>::empty(),
    {
        Self {
            id: 0,
            length: 0,
            data: Some(Vec::new()),
            id_read: false,
            length_read: false,
            data_pos: 0,
        }
    }

    /// Feeds the window `data[offset..length]` into the builder.  The
    /// builder consumes bytes until the field is complete or the window
    /// ends, and reports `(complete, next_offset)`.  Feeding a consumed
    /// or complete builder is refused.
    pub fn data(&mut self, data: &[u8], length: usize, offset: usize) -> (r: Result<
        (bool, usize),
        DataParsingError,
    >)
        requires
            old(self).wf(),
            offset < length <= data@.len(),
        ensures
            final(self).wf(),
            (r is Err) <==> (old(self).built() || old(self).complete()),
            r is Err ==> *final(self) == *old(self),
            match r {
                Ok((ready, next)) => {
                    &&& offset < next <= length
                    &&& !final(self).built()
                    &&& final(self).consumed() == old(self).consumed() + data@.subrange(
                        offset as int,
                        next as int,
                    )
                    &&& ready == final(self).complete()
                    &&& ready == complete_field(final(self).consumed())
                    &&& (!final(self).complete() ==> next == length)
                },
                Err(_) => true,
            },
    {
        if self.length_read && self.data_pos == self.length as usize {
            return error("DataFieldBuilder: Data overflow");
        }
        if self.data.is_none() {
            return error("DataFieldBuilder: Built already. The builder cannot be used twice.");
        }
        let mut index = offset;
        if !self.id_read {
            self.id = data[index];
            index = index + 1;
            self.id_read = true;
        }
        if index >= length {
            proof {
                assert(self.consumed() =~= old(self).consumed() + data@.subrange(
                    offset as int,
                    index as int,
                ));
            }
            proof {
                lemma_field_completion(*self);
            }
            return Ok((false, index));
        }
        if !self.length_read {
            self.length = data[index];
            index = index + 1;
            self.length_read = true;
        }
        let want = self.length as usize - self.data_pos;
        let avail = length - index;
        let to_read = if want < avail {
            want
        } else {
            avail
        };
        let mut acc = match self.data.take() {
            Some(d) => d,
            None => {
                proof {
                    assert(false);
                }
                Vec::new()
            },
        };
        let ghost acc0 = acc@;
        proof {
            assert(acc@ =~= acc0 + data@.subrange(index as int, index as int));
        }
        let mut k: usize = 0;
        while k < to_read
            invariant
                k <= to_read,
                index + to_read <= length,
                length <= data@.len(),
                acc@ == acc0 + data@.subrange(index as int, (index as int) + (k as int)),
            decreases to_read - k,
        {
            acc.push(data[index + k]);
            k = k + 1;
            proof {
                assert(acc@ =~= acc0 + data@.subrange(index as int, (index as int) + (k as int)));
            }
        }
        self.data_pos = self.data_pos + to_read;
        self.data = Some(acc);
        let ready = self.data_pos == self.length as usize;
        proof {
            assert(self.consumed() =~= old(self).consumed() + data@.subrange(
                offset as int,
                (index + to_read) as int,
            ));
            lemma_field_completion(*self);
        }
        Ok((ready, index + to_read))
    }

    /// Takes the finished field out as a `Property`.  Refused when the
    /// field is incomplete or was already taken.
    pub fn build(&mut self) -> (r: Result<Property, DataParsingError>)
        requires
            old(self).wf(),
        ensures
            final(self).wf(),
            (r is Err) <==> (old(self).built() || !old(self).complete()),
            r is Err ==> *final(self) == *old(self),
            match r {
                Ok(p) => {
                    &&& prop_wf(p@)
                    &&& field_bytes(p@) == old(self).consumed()
                    &&& final(self).built()
                },
                Err(_) => true,
            },
    {
        if !(self.length_read && self.data_pos == self.length as usize) {
            return error("DataFieldBuilder: The builder is not ready to build yet");
        }
        match self.data.take() {
            Some(data) => {
                let p = Property { id: self.id, length: self.length, data };
                proof {
                    assert(field_bytes(p@) =~= old(self).consumed());
                }
                Ok(p)
            },
            None => error("Data field is not set"),
        }
    }
}

/// A live field builder is complete exactly when its consumed bytes
/// read as one whole field of the wire grammar.
pub proof fn lemma_field_completion(b: DataFieldBuilder)
    requires
        b.wf(),
        !b.built(),
    ensures
        b.complete() == complete_field(b.consumed()),
{
}

// Incremental chunk decoder ////////////////////////////////////////////

/// Reassembles a whole chunk from byte windows: the field-count byte,
/// then that many fields, fed one CAN payload at a time.
#[derive(Debug)]
pub struct ChunkBuilder {
    chunk: Option<Vec<Property>>,
    target_num_fields: usize,
    num_fields_read: bool,
    field_builder: DataFieldBuilder,
}

impl ChunkBuilder {
    /// Whether `build` already consumed this builder.
    pub closed spec fn built(&self) -> bool {
        self.chunk is None
    }

    /// How many fields the chunk header announced.
    pub closed spec fn target(&self) -> nat {
        self.target_num_fields as nat
    }

    /// Whether the field-count byte has been read.
    pub closed spec fn header_read(&self) -> bool {
        self.num_fields_read
    }

    /// The fields decoded so far.
    pub closed spec fn props(&self) -> Seq<PropertyView> {
        match self.chunk {
            Some(c) => c@.map_values(|p: Property| p@),
            None => Seq::empty(),
        }
    }

    /// Whether the chunk has all its announced fields.
    pub closed spec fn complete(&self) -> bool {
        self.num_fields_read && self.props().len() == self.target()
    }

    /// Exactly the bytes this builder has accepted so far.
    pub closed spec fn consumed(&self) -> Seq<u8> {
        if !self.num_fields_read {
            Seq::empty()
        } else {
            seq![self.target_num_fields as u8] + fields_bytes(self.props())
                + self.field_builder.consumed()
        }
    }

    /// The builder's internal consistency.
    pub closed spec fn wf(&self) -> bool {
        &&& self.target_num_fields <= 255
        &&& self.field_builder.wf()
        &&& !self.field_builder.built()
        &&& !self.field_builder.complete()
        &&& (!self.num_fields_read ==> self.target_num_fields == 0
            && self.field_builder.consumed() == Seq::<u8>::empty())
        &&& match self.chunk {
            Some(c) => {
                &&& (!self.num_fields_read ==> c@.len() == 0)
                &&& (self.num_fields_read ==> c@.len() <= self.target_num_fields)
                &&& (forall|i: int| 0 <= i < c@.len() ==> prop_wf(#[trigger] c@[i]@))
                &&& (self.num_fields_read && c@.len() == self.target_num_fields
                    ==> self.field_builder.consumed() == Seq::<u8>::empty())
            },
            None => true,
        }
    }

    /// A fresh builder that has seen nothing.
    pub fn new() -> (r: Self)
        ensures
            r.wf(),
            !r.built(),
            !r.header_read(),
            !r.complete(),
            r.consumed() == Seq::<u8>::empty(),
            r.props() == Seq::<PropertyView>::empty(),
    {
        let r = ChunkBuilder {
            chunk: Some(Vec::new()),
            target_num_fields: 0,
            num_fields_read: false,
            field_builder: DataFieldBuilder::new(),
        };
        proof {
            assert(r.props() =~= Seq::<PropertyView>::empty());
        }
        r
    }

    /// A builder seeded with an implicit field count of one, as the
    /// get-name exchange uses it.
    pub fn for_single_field() -> (r: Self)
        ensures
            r.wf(),
            !r.built(),
            r.header_read(),
            !r.complete(),
            r.target() == 1,
            r.consumed() == seq![1u8],
            r.props() == Seq::<PropertyView>::empty(),
    {
        let r = ChunkBuilder {
            chunk: Some(Vec::new()),
            target_num_fields: 1,
            num_fields_read: true,
            field_builder: DataFieldBuilder::new(),
        };
        proof {
            assert(r.props() =~= Seq::<PropertyView>::empty());
            assert(fields_bytes(r.props()) =~= Seq::<u8>::empty());
            assert(r.consumed() =~= seq![1u8]);
        }
        r
    }

    /// Feeds the window `data[0..data_length]` into the builder.  Bytes
    /// are consumed until the chunk is complete or the window ends;
    /// `Ok(true)` reports completion.  Feeding a consumed or complete
    /// builder is refused.
    pub fn data(&mut self, data: &[u8], data_length: usize) -> (r: Result<
        bool,
        DataParsingError,
    >)
        requires
            old(self).wf(),
            1 <= data_length <= data@.len(),
        ensures
            final(self).wf(),
            (r is Err) <==> (old(self).built() || old(self).complete()),
            r is Err ==> *final(self) == *old(self),
            match r {
                Ok(done) => {
                    &&& !final(self).built()
                    &&& done == final(self).complete()
                    &&& done == complete_chunk(final(self).consumed())
                    &&& final(self).header_read()
                    &&& (old(self).header_read() ==> final(self).target() == old(self).target())
                    &&& final(self).consumed().len() >= old(self).consumed().len()
                    &&& final(self).consumed().len() - old(self).consumed().len() <= data_length
                    &&& final(self).consumed() == old(self).consumed() + data@.subrange(
                        0,
                        final(self).consumed().len() - old(self).consumed().len(),
                    )
                    &&& (!done ==> final(self).consumed().len() - old(self).consumed().len()
                        == data_length)
                },
                Err(_) => true,
            },
    {
        let mut chunk = match self.chunk.take() {
            Some(c) => c,
            None => {
                return error("ChunkBuilder: Built already. The builder cannot be used twice.");
            },
        };
        if self.num_fields_read && chunk.len() == self.target_num_fields {
            self.chunk = Some(chunk);
            proof {
                assert(*self =~= *old(self));
            }
            return error("ChunkBuilder: Data overflow.");
        }
        let mut index: usize = 0;
        if !self.num_fields_read {
            self.target_num_fields = data[0] as usize;
            self.num_fields_read = true;
            index = 1;
        }
        proof {
            assert(fields_bytes(chunk@.map_values(|p: Property| p@)) + self
                .field_builder
                .consumed() + Seq::<u8>::empty() =~= fields_bytes(
                chunk@.map_values(|p: Property| p@),
            ) + self.field_builder.consumed());
        }
        while index < data_length && chunk.len() < self.target_num_fields
            invariant
                self.num_fields_read,
                self.target_num_fields <= 255,
                old(self).header_read() ==> self.target_num_fields as nat == old(self).target(),
                index <= data_length,
                data_length <= data@.len(),
                self.field_builder.wf(),
                !self.field_builder.built(),
                !self.field_builder.complete(),
                chunk@.len() <= self.target_num_fields,
                forall|i: int| 0 <= i < chunk@.len() ==> prop_wf(#[trigger] chunk@[i]@),
                chunk@.len() == self.target_num_fields ==> self.field_builder.consumed()
                    == Seq::<u8>::empty(),
                seq![self.target_num_fields as u8] + fields_bytes(
                    chunk@.map_values(|p: Property| p@),
                ) + self.field_builder.consumed() == old(self).consumed() + data@.subrange(
                    0,
                    index as int,
                ),
            decreases data_length - index,
        {
            let r = self.field_builder.data(data, data_length, index);
            let (field_done, next_index) = match r {
                Ok(pair) => pair,
                Err(e) => {
                    proof {
                        assert(false);
                    }
                    self.chunk = Some(chunk);
                    return Err(e);
                },
            };
            proof {
                assert(old(self).consumed() + data@.subrange(0, next_index as int) =~= (old(
                    self,
                ).consumed() + data@.subrange(0, index as int)) + data@.subrange(
                    index as int,
                    next_index as int,
                ));
            }
            index = next_index;
            if field_done {
                let built = self.field_builder.build();
                match built {
                    Ok(prop) => {
                        let ghost before = chunk@.map_values(|p: Property| p@);
                        let ghost fb_bytes = field_bytes(prop@);
                        chunk.push(prop);
                        self.field_builder = DataFieldBuilder::new();
                        proof {
                            assert(chunk@.map_values(|p: Property| p@) =~= before.push(prop@));
                            lemma_fields_bytes_push(before, prop@);
                        }
                    },
                    Err(e) => {
                        proof {
                            assert(false);
                        }
                        self.chunk = Some(chunk);
                        return Err(e);
                    },
                }
            }
        }
        let done = chunk.len() == self.target_num_fields;
        self.chunk = Some(chunk);
        proof {
            lemma_chunk_completion(*self);
        }
        Ok(done)
    }

    /// Takes the finished chunk out.  Refused when fields are missing or
    /// the chunk was already taken.  The returned properties serialize to
    /// exactly the bytes the builder consumed.
    pub fn build(&mut self) -> (r: Result<Vec<Property>, DataParsingError>)
        requires
            old(self).wf(),
        ensures
            final(self).wf(),
            final(self).header_read() == old(self).header_read(),
            final(self).target() == old(self).target(),
            (r is Err) <==> (old(self).built() || !old(self).complete()),
            r is Err ==> *final(self) == *old(self),
            match r {
                Ok(ps) => {
                    &&& ps@.map_values(|p: Property| p@) == old(self).props()
                    &&& ps@.len() == old(self).target()
                    &&& chunk_wf(old(self).props())
                    &&& chunk_bytes(old(self).props()) == old(self).consumed()
                    &&& final(self).built()
                },
                Err(_) => true,
            },
    {
        let is_ready = match &self.chunk {
            Some(c) => self.num_fields_read && c.len() == self.target_num_fields,
            None => false,
        };
        if !is_ready {
            match &self.chunk {
                Some(_) => {
                    return error("ChunkBuilder: The builder is not ready for generating the chunk.");
                },
                None => {
                    return error("ChunkBuilder: build() method cannot be called twice.");
                },
            }
        }
        match self.chunk.take() {
            Some(c) => {
                proof {
                    assert(chunk_bytes(old(self).props()) =~= old(self).consumed());
                }
                Ok(c)
            },
            None => {
                proof {
                    assert(false);
                }
                error("ChunkBuilder: build() method cannot be called twice.")
            },
        }
    }
}

/// A live chunk builder is complete exactly when its consumed bytes
/// read as one whole chunk of the wire grammar.
pub proof fn lemma_chunk_completion(b: ChunkBuilder)
    requires
        b.wf(),
        !b.built(),
    ensures
        b.complete() == complete_chunk(b.consumed()),
{
    if !b.header_read() {
        assert(b.consumed().len() == 0);
    } else {
        let props = b.props();
        let fbc = b.field_builder.consumed();
        assert(field_prefix(fbc));
        assert(b.consumed()[0] == b.target_num_fields as u8);
        assert(b.consumed()[0] as nat == b.target());
        assert(b.consumed().skip(1) =~= fields_bytes(props) + fbc);
        match b.chunk {
            Some(c) => {
                assert forall|i: int| 0 <= i < props.len() implies prop_wf(
                    #[trigger] props[i],
                ) by {
                    assert(props[i] == c@[i]@);
                }
            },
            None => {},
        }
        lemma_complete_fields_concat(props, fbc, b.target());
    }
}

// Property encoder /////////////////////////////////////////////////////

/// Streams the canonical serialization of a property list into
/// caller-sized byte windows, one CAN payload at a time.  Every window is
/// filled as far as bytes remain, so concatenating all flushed windows
/// yields exactly `chunk_bytes` of the list, whatever the window sizes.
#[derive(Debug)]
pub struct PropertyEncoder {
    encoded: Vec<u8>,
    pos: usize,
}

impl PropertyEncoder {
    /// The whole byte stream this encoder emits.
    pub closed spec fn stream(&self) -> Seq<u8> {
        self.encoded@
    }

    /// The bytes flushed so far.
    pub closed spec fn emitted(&self) -> Seq<u8> {
        self.encoded@.take(self.pos as int)
    }

    /// The bytes still to flush.
    pub closed spec fn remaining(&self) -> Seq<u8> {
        self.encoded@.skip(self.pos as int)
    }

    /// The encoder's internal consistency.
    pub closed spec fn wf(&self) -> bool {
        self.pos <= self.encoded@.len()
    }

    /// An encoder for the given properties; nothing is flushed yet.
    pub fn new(props: &Vec<Property>) -> (r: Self)
        requires
            chunk_wf(props@.map_values(|p: Property| p@)),
        ensures
            r.wf(),
            r.stream() == chunk_bytes(props@.map_values(|p: Property| p@)),
            r.emitted() == Seq::<u8>::empty(),
            r.remaining() == r.stream(),
    {
        let ghost views = props@.map_values(|p: Property| p@);
        let mut encoded: Vec<u8> = Vec::new();
        encoded.push(props.len() as u8);
        proof {
            assert(views.take(0) =~= Seq::<PropertyView>::empty());
            assert(fields_bytes(views.take(0)) =~= Seq::<u8>::empty());
            assert(encoded@ =~= seq![views.len() as u8] + fields_bytes(views.take(0)));
        }
        let mut i: usize = 0;
        while i < props.len()
            invariant
                i <= props@.len(),
                views == props@.map_values(|p: Property| p@),
                chunk_wf(views),
                encoded@ == seq![views.len() as u8] + fields_bytes(views.take(i as int)),
            decreases props@.len() - i,
        {
            let p = &props[i];
            proof {
                assert(prop_wf(views[i as int]));
            }
            encoded.push(p.id);
            encoded.push(p.length);
            let ghost before = encoded@;
            let mut j: usize = 0;
            while j < p.data.len()
                invariant
                    j <= p.data@.len(),
                    encoded@ == before + p.data@.take(j as int),
                decreases p.data@.len() - j,
            {
                encoded.push(p.data[j]);
                j = j + 1;
                proof {
                    assert(encoded@ =~= before + p.data@.take(j as int));
                }
            }
            proof {
                assert(p.data@.take(p.data@.len() as int) =~= p.data@);
                lemma_fields_bytes_push(views.take(i as int), views[i as int]);
                assert(views.take(i as int + 1) =~= views.take(i as int).push(views[i as int]));
                assert(encoded@ =~= seq![views.len() as u8] + fields_bytes(
                    views.take(i as int + 1),
                ));
            }
            i = i + 1;
        }
        proof {
            assert(views.take(views.len() as int) =~= views);
        }
        let r = PropertyEncoder { encoded, pos: 0 };
        proof {
            assert(r.emitted() =~= Seq::<u8>::empty());
            assert(r.remaining() =~= r.stream());
        }
        r
    }

    /// Writes the next window of the stream into the front of `buf`:
    /// as many bytes as `buf` holds or as remain, whichever is smaller.
    /// Returns how many bytes were written; the rest of `buf` is
    /// untouched.
    pub fn flush(&mut self, buf: &mut Vec<u8>) -> (w: usize)
        requires
            old(self).wf(),
        ensures
            final(self).wf(),
            final(self).stream() == old(self).stream(),
            w <= old(buf)@.len(),
            w <= old(self).remaining().len(),
            w == old(buf)@.len() || w == old(self).remaining().len(),
            final(self).emitted() == old(self).emitted() + old(self).remaining().take(w as int),
            final(self).remaining() == old(self).remaining().skip(w as int),
            final(buf)@.len() == old(buf)@.len(),
            forall|k: int| 0 <= k < w ==> final(buf)@[k] == old(self).remaining()[k],
            forall|k: int| w <= k < old(buf)@.len() ==> final(buf)@[k] == old(buf)@[k],
    {
        let mut j: usize = 0;
        while j < buf.len() && self.pos < self.encoded.len()
            invariant
                j <= buf@.len(),
                buf@.len() == old(buf)@.len(),
                self.encoded == old(self).encoded,
                self.pos == old(self).pos + j,
                self.pos <= self.encoded@.len(),
                forall|k: int| 0 <= k < j ==> buf@[k] == old(self).remaining()[k],
                forall|k: int| j <= k < buf@.len() ==> buf@[k] == old(buf)@[k],
            decreases buf@.len() - j,
        {
            let b = self.encoded[self.pos];
            buf.set(j, b);
            self.pos = self.pos + 1;
            j = j + 1;
        }
        proof {
            assert(final(self).emitted() =~= old(self).emitted() + old(self).remaining().take(
                j as int,
            ));
            assert(final(self).remaining() =~= old(self).remaining().skip(j as int));
        }
        j
    }

    /// Whether the whole stream has been flushed.
    pub fn is_done(&self) -> (r: bool)
        requires
            self.wf(),
        ensures
            r == (self.remaining().len() == 0),
    {
        self.pos == self.encoded.len()
    }
}

// The codec's laws /////////////////////////////////////////////////////

/// Round trip of the codec: the canonical serialization pins the
/// property list down.  Whenever the bytes of one well-typed list open
/// the bytes of another — in particular whenever they are equal — the
/// lists are the same.  Together with the builders' contracts, which tie
/// every decoded chunk to the bytes consumed, and the encoder's, which
/// tie every flushed window to `chunk_bytes`, this says that decoding an
/// encoded list under any frame partition gives the list back.
pub proof fn lemma_chunk_round_trip(p1: Seq<PropertyView>, p2: Seq<PropertyView>)
    requires
        chunk_wf(p1),
        chunk_wf(p2),
        chunk_bytes(p1).is_prefix_of(chunk_bytes(p2)),
    ensures
        p1 == p2,
{
    assert(chunk_bytes(p1)[0] == p1.len() as u8);
    assert(chunk_bytes(p2)[0] == p2.len() as u8);
    assert(chunk_bytes(p1)[0] == chunk_bytes(p2)[0]);
    assert(p1.len() == p2.len());
    assert(fields_bytes(p1) =~= chunk_bytes(p1).skip(1));
    assert(fields_bytes(p2) =~= chunk_bytes(p2).skip(1));
    assert(fields_bytes(p1).is_prefix_of(fields_bytes(p2)));
    lemma_fields_bytes_prefix(p1, p2);
}

/// How many bytes a run of flush buffers offers in total.
pub open spec fn sum_sizes(sizes: Seq<nat>) -> nat
    decreases sizes.len(),
{
    if sizes.len() == 0 {
        0
    } else {
        sizes[0] + sum_sizes(sizes.drop_first())
    }
}

/// The windows a flush history with the given buffer sizes hands out of
/// a stream: each window takes its buffer's worth or whatever remains,
/// exactly as `PropertyEncoder::flush` does.
pub open spec fn flush_windows(stream: Seq<u8>, sizes: Seq<nat>) -> Seq<Seq<u8>>
    decreases sizes.len(),
{
    if sizes.len() == 0 {
        Seq::empty()
    } else {
        let w = if sizes[0] <= stream.len() {
            sizes[0] as int
        } else {
            stream.len() as int
        };
        seq![stream.take(w)] + flush_windows(stream.skip(w), sizes.drop_first())
    }
}

/// A flush history's windows flatten to the stream's first bytes: as
/// many as the buffers offered, or all of them.
proof fn lemma_flush_windows_flatten(stream: Seq<u8>, sizes: Seq<nat>)
    ensures
        flush_windows(stream, sizes).flatten() == stream.take(
            if sum_sizes(sizes) <= stream.len() {
                sum_sizes(sizes) as int
            } else {
                stream.len() as int
            },
        ),
    decreases sizes.len(),
{
    if sizes.len() == 0 {
        assert(flush_windows(stream, sizes).flatten() =~= stream.take(0));
    } else {
        let w = if sizes[0] <= stream.len() {
            sizes[0] as int
        } else {
            stream.len() as int
        };
        let ws = seq![stream.take(w)] + flush_windows(stream.skip(w), sizes.drop_first());
        assert(ws.first() == stream.take(w));
        assert(ws.drop_first() =~= flush_windows(stream.skip(w), sizes.drop_first()));
        lemma_flush_windows_flatten(stream.skip(w), sizes.drop_first());
        assert(ws.flatten() == ws.first() + ws.drop_first().flatten());
        assert(flush_windows(stream, sizes).flatten() =~= stream.take(
            if sum_sizes(sizes) <= stream.len() {
                sum_sizes(sizes) as int
            } else {
                stream.len() as int
            },
        ));
    }
}

/// Chunking-independence of the encoder: whatever the buffer sizes, a
/// flush history that offers room for the whole chunk hands out
/// windows that flatten back to exactly the canonical serialization —
/// so any two such histories carry the same bytes, differing only in
/// where they are cut.
pub proof fn lemma_chunking_independence(ps: Seq<PropertyView>, sizes: Seq<nat>)
    requires
        sum_sizes(sizes) >= chunk_bytes(ps).len(),
    ensures
        flush_windows(chunk_bytes(ps), sizes).flatten() == chunk_bytes(ps),
{
    lemma_flush_windows_flatten(chunk_bytes(ps), sizes);
    assert(chunk_bytes(ps).take(chunk_bytes(ps).len() as int) =~= chunk_bytes(ps));
}

/// Two equally long runs of well-formed fields with one's bytes opening
/// the other's are the same run.
proof fn lemma_fields_bytes_prefix(s1: Seq<PropertyView>, s2: Seq<PropertyView>)
    requires
        s1.len() == s2.len(),
        forall|i: int| 0 <= i < s1.len() ==> prop_wf(#[trigger] s1[i]),
        forall|i: int| 0 <= i < s2.len() ==> prop_wf(#[trigger] s2[i]),
        fields_bytes(s1).is_prefix_of(fields_bytes(s2)),
    ensures
        s1 == s2,
    decreases s1.len(),
{
    if s1.len() == 0 {
        assert(s1 =~= s2);
    } else {
        let a = s1[0];
        let b = s2[0];
        let fa = field_bytes(a);
        let fb = field_bytes(b);
        let ra = fields_bytes(s1.drop_first());
        let rb = fields_bytes(s2.drop_first());
        assert(fields_bytes(s1) == fa + ra);
        assert(fields_bytes(s2) == fb + rb);
        assert(prop_wf(a) && prop_wf(b));
        assert(fa.len() == 2 + a.data.len());
        assert(fb.len() == 2 + b.data.len());
        assert((fa + ra).len() <= (fb + rb).len());
        assert forall|k: int| 0 <= k < (fa + ra).len() implies (fa + ra)[k] == (fb + rb)[k] by {
            assert((fa + ra)[k] == fields_bytes(s1)[k]);
            assert(fields_bytes(s1)[k] == fields_bytes(s2).subrange(
                0,
                fields_bytes(s1).len() as int,
            )[k]);
        }
        assert((fa + ra)[0] == a.id && (fb + rb)[0] == b.id);
        assert((fa + ra)[1] == a.length && (fb + rb)[1] == b.length);
        assert(a.id == b.id && a.length == b.length);
        assert(a.data.len() == b.data.len());
        assert forall|k: int| 0 <= k < a.data.len() implies a.data[k] == b.data[k] by {
            assert((fa + ra)[2 + k] == a.data[k]);
            assert((fb + rb)[2 + k] == b.data[k]);
        }
        assert(a.data =~= b.data);
        assert(a == b);
        assert(ra.len() <= rb.len());
        assert forall|k: int| 0 <= k < ra.len() implies ra[k] == rb[k] by {
            assert((fa + ra)[fa.len() + k] == ra[k]);
            assert((fb + rb)[fb.len() + k] == rb[k]);
        }
        assert(ra =~= rb.subrange(0, ra.len() as int));
        assert(ra.is_prefix_of(rb));
        lemma_fields_bytes_prefix(s1.drop_first(), s2.drop_first());
        assert forall|k: int| 0 <= k < s1.len() implies s1[k] == s2[k] by {
            if k > 0 {
                assert(s1.drop_first()[k - 1] == s2.drop_first()[k - 1]);
            }
        }
        assert(s1 =~= s2);
    }
}

} // verus!
