use crate::error::DecodeError;
use crate::utilities::{ByteShifter, Cursor, Step};
use vstd::prelude::*;

verus! {

pub type Utf8Address = u16;

pub type ClassAddress = u16;

pub type NameAndTypeAddress = u16;

/// A reference to a member of a class: the class, and the member's name and
/// type.
#[derive(Clone, Copy, Debug, PartialEq, Eq)]
pub struct ClassReference {
    pub class_index: ClassAddress,
    pub name_and_type_index: NameAndTypeAddress,
}

/// One entry of the constant pool.
#[derive(Debug, PartialEq, Eq)]
pub enum Constant {
    FieldReference(ClassReference),
    MethodReference(ClassReference),
    InterfaceMethodReference(ClassReference),
    Integer(i32),
    /// The bit pattern of an IEEE-754 single.
    Float(u32),
    Long(i64),
    /// The bit pattern of an IEEE-754 double.
    Double(u64),
    Class { name_index: Utf8Address },
    String { string_index: Utf8Address },
    /// Text, one character for each encoded byte.
    Utf8(String),
    NameAndType { name_index: Utf8Address, descriptor_index: Utf8Address },
}

/// The mathematical value of a [`Constant`]: the same entry, with text as a
/// sequence of characters.
pub enum ConstantView {
    FieldReference(ClassReference),
    MethodReference(ClassReference),
    InterfaceMethodReference(ClassReference),
    Integer(i32),
    Float(u32),
    Long(i64),
    Double(u64),
    Class { name_index: Utf8Address },
    String { string_index: Utf8Address },
    Utf8(Seq<char>),
    NameAndType { name_index: Utf8Address, descriptor_index: Utf8Address },
}

impl View for Constant {
    type V = ConstantView;

    open spec fn view(&self) -> ConstantView {
        match *self {
            Constant::FieldReference(reference) => ConstantView::FieldReference(reference),
            Constant::MethodReference(reference) => ConstantView::MethodReference(reference),
            Constant::InterfaceMethodReference(reference) => ConstantView::InterfaceMethodReference(
                reference,
            ),
            Constant::Integer(value) => ConstantView::Integer(value),
            Constant::Float(bits) => ConstantView::Float(bits),
            Constant::Long(value) => ConstantView::Long(value),
            Constant::Double(bits) => ConstantView::Double(bits),
            Constant::Class { name_index } => ConstantView::Class { name_index },
            Constant::String { string_index } => ConstantView::String { string_index },
            Constant::Utf8(text) => ConstantView::Utf8(text@),
            Constant::NameAndType { name_index, descriptor_index } => ConstantView::NameAndType {
                name_index,
                descriptor_index,
            },
        }
    }
}

/// The tags that name an entry kind.
pub open spec fn supported_tag(tag: u8) -> bool {
    tag == 1 || 3 <= tag <= 12
}

/// The two's-complement reading of 32 bits.
pub open spec fn signed_32(bits: u32) -> i32 {
    if bits < 0x8000_0000 {
        bits as i32
    } else {
        (bits - 0x1_0000_0000) as i32
    }
}

/// The two's-complement reading of 64 bits.
pub open spec fn signed_64(bits: u64) -> i64 {
    if bits < 0x8000_0000_0000_0000 {
        bits as i64
    } else {
        (bits - 0x1_0000_0000_0000_0000) as i64
    }
}

/// Text with one character for each byte: the character whose code point is
/// the byte's value.
pub open spec fn byte_chars(bytes: Seq<u8>) -> Seq<char> {
    bytes.map_values(|byte: u8| byte as char)
}

/// The number of bytes that the payload of an entry with this tag takes up,
/// for a cursor that stands just past the tag. Text is two bytes of length and
/// then as many bytes as that length says. A tag that names no entry kind has
/// no payload.
pub open spec fn payload_width(cursor: Cursor, tag: u8) -> int {
    if tag == 1 {
        if cursor.fits(2) {
            2 + cursor.u16_here()
        } else {
            2
        }
    } else if tag == 3 || tag == 4 {
        4
    } else if tag == 5 || tag == 6 {
        8
    } else if tag == 7 || tag == 8 {
        2
    } else if 9 <= tag <= 12 {
        4
    } else {
        0
    }
}

/// The two indices of a member reference that starts at the cursor.
pub open spec fn reference_here(cursor: Cursor) -> ClassReference {
    ClassReference {
        class_index: cursor.u16_here(),
        name_and_type_index: cursor.skip(2).u16_here(),
    }
}

/// The text of a text entry whose length field starts at the cursor.
pub open spec fn text_here(cursor: Cursor) -> Seq<char> {
    byte_chars(
        cursor.bytes.subrange(cursor.position + 2, cursor.position + 2 + cursor.u16_here()),
    )
}

/// The entry that the payload at the cursor encodes, for a supported tag whose
/// payload lies inside the buffer. Of other tags nothing is said.
pub open spec fn payload(cursor: Cursor, tag: u8) -> ConstantView {
    if tag == 1 {
        ConstantView::Utf8(text_here(cursor))
    } else if tag == 3 {
        ConstantView::Integer(signed_32(cursor.u32_here()))
    } else if tag == 4 {
        ConstantView::Float(cursor.u32_here())
    } else if tag == 5 {
        ConstantView::Long(signed_64(cursor.u64_here()))
    } else if tag == 6 {
        ConstantView::Double(cursor.u64_here())
    } else if tag == 7 {
        ConstantView::Class { name_index: cursor.u16_here() }
    } else if tag == 8 {
        ConstantView::String { string_index: cursor.u16_here() }
    } else if tag == 9 {
        ConstantView::FieldReference(reference_here(cursor))
    } else if tag == 10 {
        ConstantView::MethodReference(reference_here(cursor))
    } else if tag == 11 {
        ConstantView::InterfaceMethodReference(reference_here(cursor))
    } else if tag == 12 {
        ConstantView::NameAndType {
            name_index: cursor.u16_here(),
            descriptor_index: cursor.skip(2).u16_here(),
        }
    } else {
        arbitrary()
    }
}

/// Decoding the payload of one entry, for a cursor that stands just past the
/// tag byte. An unsupported tag is refused without moving the cursor. A
/// payload that does not fit consumes what is left of the buffer and fails.
pub open spec fn decode_constant(cursor: Cursor, tag: u8) -> Step<ConstantView> {
    if !supported_tag(tag) {
        Step {
            value: Err(DecodeError::UnsupportedTag { tag, position: cursor.position as usize }),
            rest: cursor,
        }
    } else if cursor.fits(payload_width(cursor, tag)) {
        Step { value: Ok(payload(cursor, tag)), rest: cursor.skip(payload_width(cursor, tag)) }
    } else {
        cursor.starved()
    }
}

/// `decoded` and the cursor state `rest` are the outcome `step`, with the
/// decoded entry taken by its view.
pub open spec fn is_outcome(
    step: Step<ConstantView>,
    decoded: Result<Constant, DecodeError>,
    rest: Cursor,
) -> bool {
    &&& step.rest == rest
    &&& match decoded {
        Ok(constant) => step.value == Ok::<ConstantView, DecodeError>(constant@),
        Err(error) => step.value == Err::<ConstantView, DecodeError>(error),
    }
}

/// `String::push` appends the character to the end of the string.
pub assume_specification[ std::string::String::push ](text: &mut std::string::String, ch: char)
    ensures
        final(text)@ == old(text)@.push(ch),
;

/// Reinterpreting 32 bits as a signed value gives their two's-complement
/// reading.
pub proof fn lemma_signed_32(bits: u32)
    ensures
        bits as i32 == signed_32(bits),
{
    assert(bits as i32 == signed_32(bits)) by (bit_vector);
}

/// Reinterpreting 64 bits as a signed value gives their two's-complement
/// reading.
pub proof fn lemma_signed_64(bits: u64)
    ensures
        bits as i64 == signed_64(bits),
{
    assert(bits as i64 == signed_64(bits)) by (bit_vector);
}

/// Decoding an entry with a supported tag succeeds exactly when its payload
/// lies inside the buffer, and then moves the cursor on by the width of that
/// payload and no further: two bytes and the declared length for text, four
/// bytes for the 32-bit numbers, eight for the 64-bit numbers, two for a class
/// or a string, four for the three kinds of member reference and for a name
/// and type.
pub proof fn lemma_decode_advances_by_width(cursor: Cursor, tag: u8)
    requires
        supported_tag(tag),
    ensures
        decode_constant(cursor, tag).value is Ok <==> cursor.fits(payload_width(cursor, tag)),
        decode_constant(cursor, tag).value is Ok ==> decode_constant(cursor, tag).rest.bytes
            == cursor.bytes && decode_constant(cursor, tag).rest.position - cursor.position == (
        if tag == 1 {
            2 + cursor.u16_here()
        } else if tag == 3 || tag == 4 {
            4
        } else if tag == 5 || tag == 6 {
            8
        } else if tag == 7 || tag == 8 {
            2int
        } else {
            4
        }),
{
}

/// A tag outside the supported set is refused with the tag and the place, and
/// the cursor stays where it was.
pub proof fn lemma_unsupported_tag_refused(cursor: Cursor, tag: u8)
    requires
        !supported_tag(tag),
    ensures
        decode_constant(cursor, tag) == (Step::<ConstantView> {
            value: Err(DecodeError::UnsupportedTag { tag, position: cursor.position as usize }),
            rest: cursor,
        }),
{
}

/// However the decoding of an entry ends, the buffer is the same and the
/// cursor has not moved back, nor past the end of the buffer unless it stood
/// there before. A failure for want of bytes names the first byte that was
/// missing and leaves the cursor there. A refusal names the tag, which is not
/// a supported one, and the place where the cursor stood and still stands.
pub proof fn lemma_decode_moves_forward(cursor: Cursor, tag: u8)
    requires
        cursor.wf(),
    ensures
        decode_constant(cursor, tag).rest.bytes == cursor.bytes,
        cursor.position <= decode_constant(cursor, tag).rest.position <= cursor.halt(),
        decode_constant(cursor, tag).value matches Err(
            DecodeError::OutOfBounds { position, length },
        ) ==> position == cursor.halt() && length == cursor.bytes.len() && decode_constant(
            cursor,
            tag,
        ).rest.position == cursor.halt(),
        decode_constant(cursor, tag).value matches Err(
            DecodeError::UnsupportedTag { tag: refused, position },
        ) ==> refused == tag && !supported_tag(tag) && position == cursor.position
            && decode_constant(cursor, tag).rest == cursor,
{
}

impl Constant {
    /// Parse a constant given the constant tag and binary data.
    pub fn from_tag(tag: u8, byte_shifter: &mut ByteShifter) -> (constant: Result<
        Constant,
        DecodeError,
    >)
        ensures
            is_outcome(decode_constant(old(byte_shifter)@, tag), constant, final(byte_shifter)@),
            !supported_tag(tag) ==> final(byte_shifter)@ == old(byte_shifter)@ && constant == Err::<
                Constant,
                DecodeError,
            >(
                DecodeError::UnsupportedTag {
                    tag,
                    position: old(byte_shifter)@.position as usize,
                },
            ),
            supported_tag(tag) ==> (constant is Ok <==> old(byte_shifter)@.fits(
                payload_width(old(byte_shifter)@, tag),
            )),
            constant is Ok ==> final(byte_shifter)@ == old(byte_shifter)@.skip(
                payload_width(old(byte_shifter)@, tag),
            ),
    {
        let ghost start = byte_shifter@;
        proof {
            byte_shifter.lemma_view_wf();
        }
        match tag {
            1 => {
                let length = match byte_shifter.read_2_bytes() {
                    Ok(length) => length,
                    Err(e) => { return Err(e); },
                };
                let mut contents = String::new();
                let mut taken: u16 = 0;
                while taken < length
                    invariant
                        tag == 1,
                        start == old(byte_shifter)@,
                        start.wf(),
                        start.fits(2 + taken),
                        length == start.u16_here(),
                        taken <= length,
                        byte_shifter@ == start.skip(2 + taken),
                        contents@ == byte_chars(
                            start.bytes.subrange(start.position + 2, start.position + 2 + taken),
                        ),
                    decreases length - taken,
                {
                    let byte = match byte_shifter.read_byte() {
                        Ok(byte) => byte,
                        Err(e) => { return Err(e); },
                    };
                    contents.push(byte as char);
                    taken += 1;
                }
                Ok(Constant::Utf8(contents))
            },
            3 => {
                let bits = match byte_shifter.read_4_bytes() {
                    Ok(bits) => bits,
                    Err(e) => { return Err(e); },
                };
                proof {
                    lemma_signed_32(bits);
                }
                Ok(Constant::Integer(#[verifier::truncate] (bits as i32)))
            },
            4 => {
                match byte_shifter.read_4_bytes() {
                    Ok(bits) => Ok(Constant::Float(bits)),
                    Err(e) => Err(e),
                }
            },
            5 => {
                let bits = match byte_shifter.read_8_bytes() {
                    Ok(bits) => bits,
                    Err(e) => { return Err(e); },
                };
                proof {
                    lemma_signed_64(bits);
                }
                Ok(Constant::Long(#[verifier::truncate] (bits as i64)))
            },
            6 => {
                match byte_shifter.read_8_bytes() {
                    Ok(bits) => Ok(Constant::Double(bits)),
                    Err(e) => Err(e),
                }
            },
            7 => {
                match byte_shifter.read_2_bytes() {
                    Ok(name_index) => Ok(Constant::Class { name_index }),
                    Err(e) => Err(e),
                }
            },
            8 => {
                match byte_shifter.read_2_bytes() {
                    Ok(string_index) => Ok(Constant::String { string_index }),
                    Err(e) => Err(e),
                }
            },
            9 => {
                match read_reference(byte_shifter) {
                    Ok(reference) => Ok(Constant::FieldReference(reference)),
                    Err(e) => Err(e),
                }
            },
            10 => {
                match read_reference(byte_shifter) {
                    Ok(reference) => Ok(Constant::MethodReference(reference)),
                    Err(e) => Err(e),
                }
            },
            11 => {
                match read_reference(byte_shifter) {
                    Ok(reference) => Ok(Constant::InterfaceMethodReference(reference)),
                    Err(e) => Err(e),
                }
            },
            12 => {
                let name_index = match byte_shifter.read_2_bytes() {
                    Ok(index) => index,
                    Err(e) => { return Err(e); },
                };
                let descriptor_index = match byte_shifter.read_2_bytes() {
                    Ok(index) => index,
                    Err(e) => { return Err(e); },
                };
                Ok(Constant::NameAndType { name_index, descriptor_index })
            },
            _ => Err(DecodeError::UnsupportedTag { tag, position: byte_shifter.position() }),
        }
    }
}

/// Reads the class index and the name-and-type index of a member reference.
fn read_reference(byte_shifter: &mut ByteShifter) -> (reference: Result<
    ClassReference,
    DecodeError,
>)
    ensures
        old(byte_shifter)@.fits(4) ==> reference == Ok::<ClassReference, DecodeError>(
            reference_here(old(byte_shifter)@),
        ) && final(byte_shifter)@ == old(byte_shifter)@.skip(4),
        !old(byte_shifter)@.fits(4) ==> (Step { value: reference, rest: final(byte_shifter)@ })
            == old(byte_shifter)@.starved::<ClassReference>(),
{
    let class_index = match byte_shifter.read_2_bytes() {
        Ok(index) => index,
        Err(e) => { return Err(e); },
    };
    let name_and_type_index = match byte_shifter.read_2_bytes() {
        Ok(index) => index,
        Err(e) => { return Err(e); },
    };
    Ok(ClassReference { class_index, name_and_type_index })
}

} // verus!
