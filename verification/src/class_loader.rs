use crate::access_flags::AccessFlags;
use crate::constants::{
    decode_constant, lemma_decode_moves_forward, supported_tag, ClassAddress, Constant,
    ConstantView,
};
use crate::error::DecodeError;
use crate::utilities::{ByteShifter, Cursor, Step};
use vstd::prelude::*;

verus! {

/// The decoded header of a class file.
///
/// The constant pool holds one element for each encoded entry, in file order:
/// the entry that the format addresses by index `k` (counting from 1) is
/// `constant_pool[k - 1]`. An eight-byte entry takes one slot like any other.
#[derive(Debug, PartialEq, Eq)]
pub struct ClassFile {
    minor_version: u16,
    major_version: u16,
    constant_pool: Vec<Constant>,
    access_flags: AccessFlags,
    /// An address that points to a `Class` constant that defines this specific
    /// class.
    this_class_address: ClassAddress,
    /// An address that points to a `Class` that defines the superclass of this
    /// specific class; `None` means that this class is the root of the
    /// hierarchy.
    super_class_address: Option<ClassAddress>,
    /// The interfaces that this specific class implements, in declaration
    /// order.
    interfaces: Vec<ClassAddress>,
}

/// The mathematical value of a [`ClassFile`].
pub struct ClassFileView {
    pub minor_version: u16,
    pub major_version: u16,
    pub constant_pool: Seq<ConstantView>,
    pub access_flags: u16,
    pub this_class_address: ClassAddress,
    pub super_class_address: Option<ClassAddress>,
    pub interfaces: Seq<ClassAddress>,
}

/// The views of a run of constants.
pub open spec fn pool_view(constants: Seq<Constant>) -> Seq<ConstantView> {
    constants.map_values(|constant: Constant| constant@)
}

impl View for ClassFile {
    type V = ClassFileView;

    closed spec fn view(&self) -> ClassFileView {
        ClassFileView {
            minor_version: self.minor_version,
            major_version: self.major_version,
            constant_pool: pool_view(self.constant_pool@),
            access_flags: self.access_flags@,
            this_class_address: self.this_class_address,
            super_class_address: self.super_class_address,
            interfaces: self.interfaces@,
        }
    }
}

/// The number of entries that a pool with the declared count holds. The count
/// is one more than the number of entries, since index 0 is reserved; a count
/// of 0 declares no entries either.
pub open spec fn pool_entries(declared: u16) -> nat {
    if declared == 0 {
        0
    } else {
        (declared - 1) as nat
    }
}

/// Decoding `count` entries one after another, each a tag byte and then the
/// payload that the tag calls for. The first failure ends the run.
pub open spec fn decode_entries(cursor: Cursor, count: nat) -> Step<Seq<ConstantView>>
    decreases count,
{
    if count == 0 {
        Step { value: Ok(Seq::empty()), rest: cursor }
    } else {
        let tag = cursor.read_u8();
        match tag.value {
            Err(error) => Step { value: Err(error), rest: tag.rest },
            Ok(tag_byte) => {
                let entry = decode_constant(tag.rest, tag_byte);
                match entry.value {
                    Err(error) => Step { value: Err(error), rest: entry.rest },
                    Ok(constant) => following(
                        seq![constant],
                        decode_entries(entry.rest, (count - 1) as nat),
                    ),
                }
            },
        }
    }
}

/// The outcome `step` of decoding further entries, seen from before the
/// entries `done` were decoded.
pub open spec fn following(done: Seq<ConstantView>, step: Step<Seq<ConstantView>>) -> Step<
    Seq<ConstantView>,
> {
    Step {
        value: match step.value {
            Ok(more) => Ok(done + more),
            Err(error) => Err(error),
        },
        rest: step.rest,
    }
}

/// Decoding the constant pool: the declared count, then the entries.
pub open spec fn decode_pool(cursor: Cursor) -> Step<Seq<ConstantView>> {
    let declared = cursor.read_u16();
    match declared.value {
        Err(error) => Step { value: Err(error), rest: declared.rest },
        Ok(count) => decode_entries(declared.rest, pool_entries(count)),
    }
}

/// The superclass that an encoded index stands for: 0 encodes that there is
/// none.
pub open spec fn super_class_of(index: ClassAddress) -> Option<ClassAddress> {
    if index == 0 {
        None
    } else {
        Some(index)
    }
}

/// Decoding the superclass reference.
pub open spec fn decode_super_class(cursor: Cursor) -> Step<Option<ClassAddress>> {
    let index = cursor.read_u16();
    Step {
        value: match index.value {
            Ok(index) => Ok(super_class_of(index)),
            Err(error) => Err(error),
        },
        rest: index.rest,
    }
}

/// Decoding `count` 16-bit indices that lie one after another.
pub open spec fn decode_indices(cursor: Cursor, count: int) -> Step<Seq<ClassAddress>> {
    if cursor.fits(2 * count) {
        Step {
            value: Ok(Seq::new(count as nat, |i: int| cursor.skip(2 * i).u16_here())),
            rest: cursor.skip(2 * count),
        }
    } else {
        cursor.starved()
    }
}

/// Decoding the interface list: the count, then that many indices.
pub open spec fn decode_interfaces(cursor: Cursor) -> Step<Seq<ClassAddress>> {
    let declared = cursor.read_u16();
    match declared.value {
        Err(error) => Step { value: Err(error), rest: declared.rest },
        Ok(count) => decode_indices(declared.rest, count as int),
    }
}

/// Decoding a whole buffer: four bytes of signature, which are passed over
/// unread, then the two version numbers, the constant pool, the access flags,
/// this class, the superclass and the interfaces. The steps run in this order,
/// each where the one before it stopped, and the first that fails decides the
/// result.
pub open spec fn decode_class_file(bytes: Seq<u8>) -> Result<ClassFileView, DecodeError> {
    let minor = Cursor::start(bytes).skip(4).read_u16();
    let major = minor.rest.read_u16();
    let pool = decode_pool(major.rest);
    let flags = pool.rest.read_u16();
    let this_class = flags.rest.read_u16();
    let super_class = decode_super_class(this_class.rest);
    let interfaces = decode_interfaces(super_class.rest);
    if minor.value is Err {
        Err(minor.value->Err_0)
    } else if major.value is Err {
        Err(major.value->Err_0)
    } else if pool.value is Err {
        Err(pool.value->Err_0)
    } else if flags.value is Err {
        Err(flags.value->Err_0)
    } else if this_class.value is Err {
        Err(this_class.value->Err_0)
    } else if super_class.value is Err {
        Err(super_class.value->Err_0)
    } else if interfaces.value is Err {
        Err(interfaces.value->Err_0)
    } else {
        Ok(
            ClassFileView {
                minor_version: minor.value->Ok_0,
                major_version: major.value->Ok_0,
                constant_pool: pool.value->Ok_0,
                access_flags: flags.value->Ok_0,
                this_class_address: this_class.value->Ok_0,
                super_class_address: super_class.value->Ok_0,
                interfaces: interfaces.value->Ok_0,
            },
        )
    }
}

impl ClassFile {
    /// Decodes the header of a class file from its bytes.
    pub fn from_bytes(bytes: &[u8]) -> (class_file: Result<ClassFile, DecodeError>)
        ensures
            match class_file {
                Ok(decoded) => decode_class_file(bytes@) == Ok::<ClassFileView, DecodeError>(
                    decoded@,
                ),
                Err(error) => decode_class_file(bytes@) == Err::<ClassFileView, DecodeError>(error),
            },
            class_file matches Ok(decoded) ==> decoded@.constant_pool.len() == pool_entries(
                declared_pool_count(bytes@),
            ),
    {
        let mut byte_shifter = ByteShifter::new(bytes);

        // The first 4 bytes are the signature of the format.
        byte_shifter.skip_bytes(4);

        let minor_version = match byte_shifter.read_2_bytes() {
            Ok(version) => version,
            Err(e) => { return Err(e); },
        };
        let major_version = match byte_shifter.read_2_bytes() {
            Ok(version) => version,
            Err(e) => { return Err(e); },
        };
        let constant_pool = match read_constant_pool(&mut byte_shifter) {
            Ok(pool) => pool,
            Err(e) => { return Err(e); },
        };
        let access_flags = match byte_shifter.read_2_bytes() {
            Ok(flags) => AccessFlags::new(flags),
            Err(e) => { return Err(e); },
        };
        let this_class_address = match byte_shifter.read_2_bytes() {
            Ok(address) => address,
            Err(e) => { return Err(e); },
        };
        let super_class_address = match read_super_class_address(&mut byte_shifter) {
            Ok(address) => address,
            Err(e) => { return Err(e); },
        };
        let interfaces = match read_interfaces(&mut byte_shifter) {
            Ok(interfaces) => interfaces,
            Err(e) => { return Err(e); },
        };

        Ok(
            ClassFile {
                minor_version,
                major_version,
                constant_pool,
                access_flags,
                this_class_address,
                super_class_address,
                interfaces,
            },
        )
    }

    pub fn minor_version(&self) -> (version: u16)
        ensures
            version == self@.minor_version,
    {
        self.minor_version
    }

    pub fn major_version(&self) -> (version: u16)
        ensures
            version == self@.major_version,
    {
        self.major_version
    }

    /// The constants in file order: the one that the format addresses by
    /// index `k` is at `k - 1`.
    pub fn constant_pool(&self) -> (constants: &[Constant])
        ensures
            pool_view(constants@) == self@.constant_pool,
    {
        self.constant_pool.as_slice()
    }

    pub fn access_flags(&self) -> (flags: AccessFlags)
        ensures
            flags@ == self@.access_flags,
    {
        self.access_flags
    }

    pub fn this_class_address(&self) -> (address: ClassAddress)
        ensures
            address == self@.this_class_address,
    {
        self.this_class_address
    }

    /// The superclass, or `None` for the root of the hierarchy.
    pub fn super_class_address(&self) -> (address: Option<ClassAddress>)
        ensures
            address == self@.super_class_address,
    {
        self.super_class_address
    }

    /// The implemented interfaces in declaration order.
    pub fn interfaces(&self) -> (interfaces: &[ClassAddress])
        ensures
            interfaces@ == self@.interfaces,
    {
        self.interfaces.as_slice()
    }
}

/// The count that the buffer declares for its constant pool: the 16-bit value
/// that follows the signature and the two version numbers.
pub open spec fn declared_pool_count(bytes: Seq<u8>) -> u16 {
    Cursor::start(bytes).skip(8).u16_here()
}

/// A run of entries that decodes holds as many entries as were asked for.
pub proof fn lemma_entries_count(cursor: Cursor, count: nat)
    ensures
        decode_entries(cursor, count).value matches Ok(constants) ==> constants.len() == count,
    decreases count,
{
    if count > 0 {
        let tag = cursor.read_u8();
        if let Ok(tag_byte) = tag.value {
            let entry = decode_constant(tag.rest, tag_byte);
            if entry.value is Ok {
                lemma_entries_count(entry.rest, (count - 1) as nat);
            }
        }
    }
}

/// A class file that decodes, and declares a pool count of at least 1, has
/// one constant less than the count it declares.
pub proof fn lemma_pool_holds_count_less_one(bytes: Seq<u8>)
    requires
        decode_class_file(bytes) is Ok,
        declared_pool_count(bytes) >= 1,
    ensures
        decode_class_file(bytes)->Ok_0.constant_pool.len() == declared_pool_count(bytes) - 1,
{
    let major = Cursor::start(bytes).skip(4).read_u16().rest.read_u16();
    lemma_entries_count(major.rest.read_u16().rest, pool_entries(declared_pool_count(bytes)));
}

/// However a run of entries ends, the buffer is the same and the cursor has
/// not moved back, nor past the end of the buffer unless it stood there
/// before. A failure for want of bytes names the first byte that was missing.
/// A refused tag is named together with the place just past it, so that the
/// byte before that place is the tag.
pub proof fn lemma_entries_move_forward(cursor: Cursor, count: nat)
    requires
        cursor.wf(),
    ensures
        decode_entries(cursor, count).rest.bytes == cursor.bytes,
        cursor.position <= decode_entries(cursor, count).rest.position <= cursor.halt(),
        decode_entries(cursor, count).value matches Err(
            DecodeError::OutOfBounds { position, length },
        ) ==> position == cursor.halt() && length == cursor.bytes.len(),
        decode_entries(cursor, count).value matches Err(
            DecodeError::UnsupportedTag { tag, position },
        ) ==> !supported_tag(tag) && cursor.position < position <= cursor.bytes.len()
            && cursor.bytes[position - 1] == tag,
    decreases count,
{
    if count > 0 {
        let tag = cursor.read_u8();
        if let Ok(tag_byte) = tag.value {
            lemma_decode_moves_forward(tag.rest, tag_byte);
            let entry = decode_constant(tag.rest, tag_byte);
            if entry.value is Ok {
                lemma_entries_move_forward(entry.rest, (count - 1) as nat);
            }
        }
    }
}

/// What a failed decode of a class file reports. A buffer that ends too early
/// is reported with its length and with the place of the first missing byte:
/// the end of the buffer, or the place just past the signature where the
/// buffer does not even hold that. A refused tag is reported with the place
/// just past the tag byte, which lies behind the signature, the two version
/// numbers and the pool count.
pub proof fn lemma_failure_names_its_place(bytes: Seq<u8>)
    requires
        bytes.len() <= usize::MAX,
        decode_class_file(bytes) is Err,
    ensures
        decode_class_file(bytes) matches Err(DecodeError::OutOfBounds { position, length })
            ==> length == bytes.len() && position == (if bytes.len() < 4 {
            4
        } else {
            bytes.len() as int
        }),
        decode_class_file(bytes) matches Err(DecodeError::UnsupportedTag { tag, position })
            ==> !supported_tag(tag) && 10 < position <= bytes.len() && bytes[position - 1] == tag,
{
    let minor = Cursor::start(bytes).skip(4).read_u16();
    let major = minor.rest.read_u16();
    if minor.value is Ok && major.value is Ok {
        let declared = major.rest.read_u16();
        if let Ok(count) = declared.value {
            lemma_entries_move_forward(declared.rest, pool_entries(count));
        }
    }
}

/// Appending to what was decoded before is the same as decoding one entry
/// more and then the rest.
proof fn lemma_following_push(
    done: Seq<ConstantView>,
    constant: ConstantView,
    step: Step<Seq<ConstantView>>,
)
    ensures
        following(done, following(seq![constant], step)) == following(done.push(constant), step),
{
    if let Ok(more) = step.value {
        assert(done + (seq![constant] + more) =~= done.push(constant) + more);
    }
}

/// Reads the constant pool: the declared count, then one entry less than the
/// count says, since the pool's indices start at 1.
pub fn read_constant_pool(byte_shifter: &mut ByteShifter) -> (pool: Result<
    Vec<Constant>,
    DecodeError,
>)
    ensures
        final(byte_shifter)@ == decode_pool(old(byte_shifter)@).rest,
        match pool {
            Ok(constants) => decode_pool(old(byte_shifter)@).value == Ok::<
                Seq<ConstantView>,
                DecodeError,
            >(pool_view(constants@)),
            Err(error) => decode_pool(old(byte_shifter)@).value == Err::<
                Seq<ConstantView>,
                DecodeError,
            >(error),
        },
        pool matches Ok(constants) ==> constants@.len() == pool_entries(
            old(byte_shifter)@.u16_here(),
        ),
{
    let constant_pool_size = match byte_shifter.read_2_bytes() {
        Ok(size) => size,
        Err(e) => { return Err(e); },
    };
    let mut constant_pool: Vec<Constant> = Vec::new();
    let ghost first = byte_shifter@;
    let ghost total = pool_entries(constant_pool_size);

    // The pool's indices start at 1.
    let mut index: u16 = 1;
    while index < constant_pool_size
        invariant
            decode_pool(old(byte_shifter)@) == decode_entries(first, total),
            total == pool_entries(constant_pool_size),
            1 <= index,
            index <= constant_pool_size || constant_pool_size == 0,
            constant_pool@.len() == index - 1,
            decode_entries(first, total) == following(
                pool_view(constant_pool@),
                decode_entries(byte_shifter@, (total - constant_pool@.len()) as nat),
            ),
        decreases constant_pool_size - index,
    {
        let ghost done = pool_view(constant_pool@);
        let ghost left = (total - constant_pool@.len()) as nat;
        let tag = match byte_shifter.read_byte() {
            Ok(tag) => tag,
            Err(e) => { return Err(e); },
        };
        let constant = match Constant::from_tag(tag, byte_shifter) {
            Ok(constant) => constant,
            Err(e) => { return Err(e); },
        };
        proof {
            lemma_following_push(
                done,
                constant@,
                decode_entries(byte_shifter@, (left - 1) as nat),
            );
            assert(pool_view(constant_pool@.push(constant)) =~= done.push(constant@));
        }
        constant_pool.push(constant);
        index += 1;
    }

    Ok(constant_pool)
}

/// Reads the interface list: the count, then that many class indices.
pub fn read_interfaces(byte_shifter: &mut ByteShifter) -> (interfaces: Result<
    Vec<ClassAddress>,
    DecodeError,
>)
    ensures
        final(byte_shifter)@ == decode_interfaces(old(byte_shifter)@).rest,
        match interfaces {
            Ok(indices) => decode_interfaces(old(byte_shifter)@).value == Ok::<
                Seq<ClassAddress>,
                DecodeError,
            >(indices@),
            Err(error) => decode_interfaces(old(byte_shifter)@).value == Err::<
                Seq<ClassAddress>,
                DecodeError,
            >(error),
        },
        interfaces matches Ok(indices) ==> indices@.len() == old(byte_shifter)@.u16_here(),
{
    proof {
        byte_shifter.lemma_view_wf();
    }
    let interfaces_size = match byte_shifter.read_2_bytes() {
        Ok(size) => size,
        Err(e) => { return Err(e); },
    };
    let mut interfaces: Vec<ClassAddress> = Vec::new();
    let ghost first = byte_shifter@;

    let mut taken: u16 = 0;
    while taken < interfaces_size
        invariant
            decode_interfaces(old(byte_shifter)@) == decode_indices(first, interfaces_size as int),
            first.wf(),
            first.position <= first.bytes.len(),
            taken <= interfaces_size,
            byte_shifter@ == first.skip(2 * taken),
            first.fits(2 * taken),
            interfaces@ == Seq::new(taken as nat, |i: int| first.skip(2 * i).u16_here()),
        decreases interfaces_size - taken,
    {
        let interface = match byte_shifter.read_2_bytes() {
            Ok(interface) => interface,
            Err(e) => { return Err(e); },
        };
        interfaces.push(interface);
        taken += 1;
    }

    Ok(interfaces)
}

/// Reads the superclass reference. An index of 0 says that the class has no
/// superclass; any other index is the superclass.
pub fn read_super_class_address(byte_shifter: &mut ByteShifter) -> (address: Result<
    Option<ClassAddress>,
    DecodeError,
>)
    ensures
        decode_super_class(old(byte_shifter)@) == (Step {
            value: address,
            rest: final(byte_shifter)@,
        }),
{
    match byte_shifter.read_2_bytes() {
        Ok(address) => if address == 0 {
            Ok(None)
        } else {
            Ok(Some(address))
        },
        Err(e) => Err(e),
    }
}

} // verus!
