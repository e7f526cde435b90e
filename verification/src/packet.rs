//! The packet codec: the frame layout and its two directions.
//!
//! A frame is three little-endian 32-bit integers (size, id, type), the body
//! and two NUL bytes. The size counts everything after the size field, so a
//! frame with a body of `n` bytes declares `n + 10` and is `n + 14` bytes
//! long.
//!
//! Policies of this codec:
//! - A body handed to [`Packet::new`] goes on the wire byte for byte. It must
//!   be ASCII. Its length is bounded by the machine alone: the size must fit
//!   the size field, and the frame must fit into memory. Keeping a body
//!   within one frame of the protocol is left to the caller.
//! - [`Packet::deserialize`] rejects a buffer that is too short to hold the
//!   three integers, and a frame that declares a size below
//!   `PACKET_SIZE_MIN`. It trusts a declared size up to `PACKET_SIZE_MAX`,
//!   takes `PACKET_BODY_MAX_LEN` body bytes where the size is beyond that,
//!   and never takes more than the buffer holds.

use vstd::prelude::*;
use vstd::utf8::{
    encode_utf8, encode_utf8_decode_utf8, encode_utf8_valid_utf8, is_ascii_chars,
    is_ascii_chars_encode_utf8, valid_utf8,
};
use bytes::{Bytes, BytesMut};
use crate::buffer::{
    bytes_as_slice, bytes_clone, bytes_from_string, bytes_len, bytes_mut_seq,
    bytes_mut_with_capacity, bytes_seq, copy_to_bytes, get_i32_le, i32_from_le, i32_to_le,
    lemma_i32_le_round_trip, put_all, put_i32_le, put_u8,
};
use crate::config::{
    PACKET_BODY_LIMIT, PACKET_SIZE_FIELD_LEN, PACKET_BODY_MAX_LEN, PACKET_HEADER_LEN,
    PACKET_SIZE_MAX, PACKET_SIZE_MIN, TYPE_COMMAND, TYPE_LOGIN, TYPE_RESPONSE,
};
use crate::text::{
    decimal, display_text, i32_to_text, lemma_strip_plain_text, str_from_utf8, text_for_display,
};

verus! {

/// Kind of a packet, as told by the type field of its frame.
#[derive(Clone, Copy, Debug, PartialEq, Eq, Structural)]
pub enum PacketType {
    /// `SERVERDATA_AUTH`
    Login,
    /// `SERVERDATA_EXECCOMMAND` or `SERVERDATA_AUTH_RESPONSE`
    Command,
    /// `SERVERDATA_RESPONSE_VALUE`
    Response,
    /// A type code outside the protocol, kept as it was received.
    Unknown(i32),
}

impl PacketType {
    /// The kind that a type code stands for.
    pub open spec fn of_code(code: int) -> PacketType {
        if code == TYPE_LOGIN {
            PacketType::Login
        } else if code == TYPE_COMMAND {
            PacketType::Command
        } else if code == TYPE_RESPONSE {
            PacketType::Response
        } else {
            PacketType::Unknown(code as i32)
        }
    }

    /// The type code that this kind is written as.
    pub open spec fn spec_code(self) -> int {
        match self {
            PacketType::Login => TYPE_LOGIN as int,
            PacketType::Command => TYPE_COMMAND as int,
            PacketType::Response => TYPE_RESPONSE as int,
            PacketType::Unknown(raw) => raw as int,
        }
    }

    /// True unless this is `Unknown` with a code that the protocol knows.
    pub open spec fn is_canonical(self) -> bool {
        PacketType::of_code(self.spec_code()) == self
    }

    /// The name of this kind.
    pub open spec fn spec_text(self) -> Seq<char> {
        match self {
            PacketType::Login => "Login"@,
            PacketType::Command => "Command/Auth Response"@,
            PacketType::Response => "Response Data"@,
            PacketType::Unknown(_) => "UNKNOWN"@,
        }
    }

    /// The type code that this kind is written as.
    pub fn code(&self) -> (code: i32)
        ensures
            code == self.spec_code(),
    {
        match self {
            PacketType::Login => TYPE_LOGIN,
            PacketType::Command => TYPE_COMMAND,
            PacketType::Response => TYPE_RESPONSE,
            PacketType::Unknown(raw) => *raw,
        }
    }

    /// The name of this kind, for display.
    pub fn to_text(&self) -> (text: String)
        ensures
            text@ == self.spec_text(),
    {
        match self {
            PacketType::Login => "Login".to_owned(),
            PacketType::Command => "Command/Auth Response".to_owned(),
            PacketType::Response => "Response Data".to_owned(),
            PacketType::Unknown(_) => "UNKNOWN".to_owned(),
        }
    }
}

impl From<i32> for PacketType {
    /// The kind that a type code stands for. No code is refused.
    fn from(num: i32) -> (typ: PacketType) {
        if num == TYPE_LOGIN {
            PacketType::Login
        } else if num == TYPE_COMMAND {
            PacketType::Command
        } else if num == TYPE_RESPONSE {
            PacketType::Response
        } else {
            PacketType::Unknown(num)
        }
    }
}

impl vstd::std_specs::convert::FromSpecImpl<i32> for PacketType {
    open spec fn obeys_from_spec() -> bool {
        true
    }

    open spec fn from_spec(num: i32) -> PacketType {
        PacketType::of_code(num as int)
    }
}

/// A kind made from a code is canonical and is written as that code.
pub proof fn lemma_type_of_code(code: int)
    requires
        i32::MIN <= code <= i32::MAX,
    ensures
        PacketType::of_code(code).is_canonical(),
        PacketType::of_code(code).spec_code() == code,
{
}

/// Why a packet could not be built or read.
#[derive(Clone, Copy, Debug, PartialEq, Eq, Structural)]
pub enum PacketError {
    /// The buffer is too short for a frame, or the frame declares a size
    /// below `PACKET_SIZE_MIN`.
    SmallPacket,
    /// The body holds a byte outside ASCII.
    NonAscii,
    /// The body is so long that its size does not fit the size field, or its
    /// frame does not fit into memory.
    LargePacket,
}

/// A single protocol message.
#[derive(Debug)]
pub struct Packet {
    /// Length of the remainder of the frame, as declared in it.
    size: i32,
    /// Identifier chosen by the client and echoed by the server.
    id: i32,
    /// Kind of the packet.
    typ: PacketType,
    /// The body as text.
    body_text: String,
    /// The body as it stands in the frame.
    body_bytes: Bytes,
}

/// What a packet holds, as mathematical values.
pub struct PacketView {
    /// Length of the remainder of the frame, as declared in it.
    pub size: int,
    /// Identifier chosen by the client and echoed by the server.
    pub id: int,
    /// Kind of the packet.
    pub typ: PacketType,
    /// The body as text.
    pub body_text: Seq<char>,
    /// The body as it stands in the frame.
    pub body_bytes: Seq<u8>,
}

impl View for Packet {
    type V = PacketView;

    closed spec fn view(&self) -> PacketView {
        PacketView {
            size: self.size as int,
            id: self.id as int,
            typ: self.typ,
            body_text: self.body_text@,
            body_bytes: bytes_seq(self.body_bytes),
        }
    }
}

impl PacketView {
    /// True when the integers fit their fields, the declared size is at
    /// least `PACKET_SIZE_MIN` and the body can be framed. This holds of
    /// every `Packet`.
    pub open spec fn wf(self) -> bool {
        &&& PACKET_SIZE_MIN <= self.size <= i32::MAX
        &&& i32::MIN <= self.id <= i32::MAX
        &&& can_be_framed(self.body_bytes.len() as int)
    }

    /// True when the declared size is the one that the body calls for.
    pub open spec fn is_sized_by_body(self) -> bool {
        self.size == self.body_bytes.len() + PACKET_SIZE_MIN
    }
}

/// True when a body of `len` bytes can be framed on this machine: the size
/// that it calls for fits the size field, and the frame, which is longer
/// than the size by the size field, fits into memory. On a machine with
/// 64-bit addresses the first of the two says it all.
pub open spec fn can_be_framed(len: int) -> bool {
    &&& len + PACKET_SIZE_MIN <= i32::MAX
    &&& len + PACKET_SIZE_MIN + PACKET_SIZE_FIELD_LEN <= isize::MAX
}

/// What `Packet::new` makes of its arguments.
pub open spec fn built(id: int, typ: PacketType, body: Seq<char>) -> Result<
    PacketView,
    PacketError,
> {
    if !is_ascii_chars(body) {
        Err(PacketError::NonAscii)
    } else if !can_be_framed(body.len() as int) {
        Err(PacketError::LargePacket)
    } else {
        Ok(
            PacketView {
                size: body.len() + PACKET_SIZE_MIN,
                id,
                typ,
                body_text: body,
                body_bytes: encode_utf8(body),
            },
        )
    }
}

/// The frame of a packet.
pub open spec fn frame(p: PacketView) -> Seq<u8> {
    i32_to_le(p.size) + i32_to_le(p.id) + i32_to_le(p.typ.spec_code()) + p.body_bytes
        + seq![0u8, 0u8]
}

/// The size that a buffer of at least `PACKET_HEADER_LEN` bytes declares.
pub open spec fn declared_size(input: Seq<u8>) -> int {
    i32_from_le(input.subrange(0, 4))
}

/// The number of body bytes taken from a frame that declares `size`, out
/// of a buffer that holds `available` bytes after the three integers.
pub open spec fn body_len(size: int, available: int) -> int {
    let wanted: int = if size <= PACKET_SIZE_MAX {
        size - PACKET_SIZE_MIN
    } else {
        PACKET_BODY_MAX_LEN as int
    };
    if wanted <= available {
        wanted
    } else {
        available
    }
}

/// What `Packet::deserialize` makes of the bytes in a buffer.
pub open spec fn parsed(input: Seq<u8>) -> Result<PacketView, PacketError> {
    if input.len() < PACKET_HEADER_LEN || declared_size(input) < PACKET_SIZE_MIN {
        Err(PacketError::SmallPacket)
    } else {
        let raw = input.subrange(
            PACKET_HEADER_LEN as int,
            PACKET_HEADER_LEN + body_len(declared_size(input), input.len() - PACKET_HEADER_LEN),
        );
        Ok(
            PacketView {
                size: declared_size(input),
                id: i32_from_le(input.subrange(4, 8)),
                typ: PacketType::of_code(i32_from_le(input.subrange(8, 12))),
                body_text: display_text(raw),
                body_bytes: raw,
            },
        )
    }
}

/// The number of bytes that `Packet::deserialize` takes off a buffer:
/// nothing where the buffer is too short for the three integers, the three
/// integers alone where the declared size is refused, else those and the
/// body.
pub open spec fn consumed(input: Seq<u8>) -> int {
    if input.len() < PACKET_HEADER_LEN {
        0
    } else if declared_size(input) < PACKET_SIZE_MIN {
        PACKET_HEADER_LEN as int
    } else {
        PACKET_HEADER_LEN + body_len(declared_size(input), input.len() - PACKET_HEADER_LEN)
    }
}

impl Packet {
    #[verifier::type_invariant]
    spec fn inv(self) -> bool {
        self@.wf()
    }

    /// Builds a packet for sending. The body must be ASCII, else the result
    /// is `NonAscii`. Every ASCII body gives a packet, which declares the
    /// size that its body calls for, but one that the machine cannot frame
    /// (see `can_be_framed`), which gives `LargePacket`.
    pub fn new(id: i32, typ: PacketType, body_text: String) -> (r: Result<Packet, PacketError>)
        ensures
            match r {
                Ok(p) => built(id as int, typ, body_text@) == Ok::<PacketView, PacketError>(p@),
                Err(e) => built(id as int, typ, body_text@) == Err::<PacketView, PacketError>(e),
            },
    {
        if !body_text.as_str().is_ascii() {
            return Err(PacketError::NonAscii);
        }
        let len: usize = body_text.as_str().as_bytes().len();
        proof {
            is_ascii_chars_encode_utf8(body_text@);
        }
        if len > i32::MAX as usize - PACKET_SIZE_MIN as usize || len > isize::MAX as usize
            - PACKET_SIZE_MIN as usize - PACKET_SIZE_FIELD_LEN {
            return Err(PacketError::LargePacket);
        }
        let body_bytes = bytes_from_string(body_text.clone());
        Ok(Packet { size: len as i32 + PACKET_SIZE_MIN, id, typ, body_text, body_bytes })
    }

    /// Reads one packet off the front of a buffer.
    ///
    /// The result is `SmallPacket` where the buffer holds fewer than
    /// `PACKET_HEADER_LEN` bytes, and then nothing is taken off it, or where
    /// the declared size is below `PACKET_SIZE_MIN`, and then the three
    /// integers are taken off it and no body byte. Every other buffer gives
    /// a packet. Its body is as long as the declared size says, or
    /// `PACKET_BODY_MAX_LEN` bytes where that size is beyond
    /// `PACKET_SIZE_MAX`, or what the buffer holds where that is less. A body
    /// that is not valid UTF-8 gives an empty text; the bytes are kept.
    pub fn deserialize(bytes: &mut Bytes) -> (r: Result<Packet, PacketError>)
        ensures
            match r {
                Ok(p) => parsed(bytes_seq(*old(bytes))) == Ok::<PacketView, PacketError>(p@),
                Err(e) => parsed(bytes_seq(*old(bytes))) == Err::<PacketView, PacketError>(e),
            },
            bytes_seq(*final(bytes)) == bytes_seq(*old(bytes)).skip(
                consumed(bytes_seq(*old(bytes))),
            ),
    {
        let ghost input = bytes_seq(*bytes);
        if bytes_len(bytes) < PACKET_HEADER_LEN {
            return Err(PacketError::SmallPacket);
        }
        let size: i32 = get_i32_le(bytes);
        let id: i32 = get_i32_le(bytes);
        let typ = PacketType::from(get_i32_le(bytes));
        proof {
            assert(input.skip(4).skip(4).skip(4) == input.skip(12));
        }
        if size < PACKET_SIZE_MIN {
            return Err(PacketError::SmallPacket);
        }
        let wanted: usize = if size <= PACKET_SIZE_MAX {
            (size - PACKET_SIZE_MIN) as usize
        } else {
            PACKET_BODY_MAX_LEN
        };
        let available: usize = bytes_len(bytes);
        let body_size: usize = if wanted <= available {
            wanted
        } else {
            available
        };
        let body_bytes = copy_to_bytes(bytes, body_size);
        proof {
            assert(input.skip(12).take(body_size as int) == input.subrange(12, 12 + body_size));
        }
        let body_text = text_for_display(bytes_as_slice(&body_bytes));
        Ok(Packet { size, id, typ, body_text, body_bytes })
    }

    /// Writes the packet as a frame.
    pub fn serialize(&self) -> (p: BytesMut)
        ensures
            bytes_mut_seq(p) == frame(self@),
    {
        proof {
            use_type_invariant(self);
        }
        let mut p = bytes_mut_with_capacity(PACKET_SIZE_MAX as usize);
        put_i32_le(&mut p, self.size);
        put_i32_le(&mut p, self.id);
        put_i32_le(&mut p, self.typ.code());
        put_all(&mut p, bytes_clone(&self.body_bytes));
        put_u8(&mut p, 0);
        put_u8(&mut p, 0);
        p
    }
}

impl PacketView {
    /// The packet as a text for display: a line with the size, the
    /// identifier and the kind, and the body text after it.
    pub open spec fn spec_text(self) -> Seq<char> {
        "Size: "@ + decimal(self.size) + " bytes, ID: "@ + decimal(self.id) + ", Type: "@
            + self.typ.spec_text() + seq!['\n'] + self.body_text
    }
}

impl Packet {
    /// The packet as a text for display.
    pub fn to_text(&self) -> (text: String)
        ensures
            text@ == self@.spec_text(),
    {
        let mut text = "Size: ".to_owned();
        text.append(i32_to_text(self.size).as_str());
        text.append(" bytes, ID: ");
        text.append(i32_to_text(self.id).as_str());
        text.append(", Type: ");
        text.append(self.typ.to_text().as_str());
        proof {
            reveal_strlit("\n");
        }
        text.append("\n");
        text.append(self.body_text.as_str());
        text
    }

    /// The size that the frame declares.
    pub fn size(&self) -> (size: i32)
        ensures
            size == self@.size,
            self@.wf(),
    {
        proof {
            use_type_invariant(self);
        }
        self.size
    }

    /// The identifier.
    pub fn id(&self) -> (id: i32)
        ensures
            id == self@.id,
    {
        self.id
    }

    /// The kind.
    pub fn typ(&self) -> (typ: PacketType)
        ensures
            typ == self@.typ,
    {
        self.typ
    }

    /// The body as text.
    pub fn body_text(&self) -> (text: &str)
        ensures
            text@ == self@.body_text,
    {
        self.body_text.as_str()
    }

    /// The body as it stands in the frame.
    pub fn body_bytes(&self) -> (raw: &Bytes)
        ensures
            bytes_seq(*raw) == self@.body_bytes,
    {
        &self.body_bytes
    }

    /// True when the body is valid UTF-8, so that the text is what the body
    /// reads as. Where it is not, the text is empty and only the bytes tell
    /// what the server sent.
    pub fn has_valid_text(&self) -> (valid: bool)
        ensures
            valid == valid_utf8(self@.body_bytes),
    {
        str_from_utf8(bytes_as_slice(&self.body_bytes)).is_some()
    }

    /// The number of bytes in the body.
    pub fn body_len(&self) -> (len: usize)
        ensures
            len == self@.body_bytes.len(),
            self@.wf(),
    {
        proof {
            use_type_invariant(self);
        }
        bytes_len(&self.body_bytes)
    }
}

/// An ASCII text holds no colour code marker.
pub proof fn lemma_ascii_has_no_marker(body: Seq<char>)
    requires
        is_ascii_chars(body),
    ensures
        crate::text::has_no_marker(body),
{
}

/// A body with a byte of `0x80` or more is refused as `NonAscii`, whatever
/// its length.
pub proof fn lemma_non_ascii_body_is_refused(id: int, typ: PacketType, body: Seq<char>)
    requires
        exists|i: int| 0 <= i < encode_utf8(body).len() && encode_utf8(body)[i] >= 0x80,
    ensures
        built(id, typ, body) == Err::<PacketView, PacketError>(PacketError::NonAscii),
{
    crate::text::lemma_ascii_text_has_ascii_bytes(body);
}

/// On a machine whose addresses are wider than 32 bits, a body can be
/// framed exactly when the size that it calls for fits the size field.
pub proof fn lemma_framing_on_wide_machines(len: int)
    requires
        isize::MAX >= i32::MAX + PACKET_SIZE_FIELD_LEN,
    ensures
        can_be_framed(len) <==> len + PACKET_SIZE_MIN <= i32::MAX,
{
}

/// A body that fits one frame of the protocol can be framed on every
/// machine.
pub proof fn lemma_framing_of_short_bodies(len: int)
    requires
        len <= PACKET_BODY_LIMIT,
    ensures
        can_be_framed(len),
{
}

/// What is built is well formed, sized by its body, and holds the text as
/// it was given.
pub proof fn lemma_built_packet(id: int, typ: PacketType, body: Seq<char>)
    requires
        i32::MIN <= id <= i32::MAX,
    ensures
        built(id, typ, body) is Ok <==> is_ascii_chars(body) && can_be_framed(body.len() as int),
        built(id, typ, body) matches Ok(p) ==> p.wf() && p.is_sized_by_body() && p.body_bytes.len()
            == body.len() && p.body_text == body && p.id == id && p.typ == typ,
{
    if is_ascii_chars(body) {
        is_ascii_chars_encode_utf8(body);
    }
}

/// Reading never takes more bytes than the buffer holds, and a refused
/// frame costs the three integers at most.
pub proof fn lemma_consumed_is_bounded(input: Seq<u8>)
    ensures
        0 <= consumed(input) <= input.len(),
        parsed(input) is Err ==> consumed(input) <= PACKET_HEADER_LEN,
        parsed(input) matches Ok(p) ==> consumed(input) == PACKET_HEADER_LEN + p.body_bytes.len()
            && p.body_bytes.len() <= PACKET_BODY_LIMIT && p.wf(),
{
    if input.len() >= PACKET_HEADER_LEN {
        lemma_i32_from_le_bounds(input.subrange(0, 4));
        lemma_i32_from_le_bounds(input.subrange(4, 8));
    }
}

/// Four bytes always spell a value of a signed 32-bit integer.
pub proof fn lemma_i32_from_le_bounds(b: Seq<u8>)
    ensures
        i32::MIN <= i32_from_le(b) <= i32::MAX,
{
}

/// A frame that declares a size beyond `PACKET_SIZE_MAX` is read with a body
/// of `PACKET_BODY_MAX_LEN` bytes, or of what the buffer holds where that is
/// less.
pub proof fn lemma_oversized_frame(input: Seq<u8>)
    requires
        input.len() >= PACKET_HEADER_LEN,
        declared_size(input) > PACKET_SIZE_MAX,
    ensures
        parsed(input) is Ok,
        parsed(input)->Ok_0.size == declared_size(input),
        parsed(input)->Ok_0.body_bytes.len() == if input.len() - PACKET_HEADER_LEN
            >= PACKET_BODY_MAX_LEN {
            PACKET_BODY_MAX_LEN as int
        } else {
            input.len() - PACKET_HEADER_LEN
        },
{
}

/// A frame that declares a size below `PACKET_SIZE_MIN` is refused, and
/// none of the bytes after the three integers is taken.
pub proof fn lemma_undersized_frame(input: Seq<u8>)
    requires
        input.len() >= PACKET_HEADER_LEN,
        declared_size(input) < PACKET_SIZE_MIN,
    ensures
        parsed(input) == Err::<PacketView, PacketError>(PacketError::SmallPacket),
        consumed(input) == PACKET_HEADER_LEN,
{
}

/// The frame of a packet that is sized by its body, with a size of at most
/// `PACKET_SIZE_MAX`, is as long as the size and the size field together. It
/// reads back as that packet, whatever follows the frame in the buffer: the
/// size, the identifier and the body bytes are the same, the kind is the one
/// that the type code stands for, and the text is what the body bytes are
/// shown as. The two closing NUL bytes are left in the buffer.
pub proof fn lemma_frame_reads_back(p: PacketView, tail: Seq<u8>)
    requires
        p.wf(),
        p.is_sized_by_body(),
        p.size <= PACKET_SIZE_MAX,
    ensures
        parsed(frame(p) + tail) == Ok::<PacketView, PacketError>(
            PacketView {
                size: p.size,
                id: p.id,
                typ: PacketType::of_code(p.typ.spec_code()),
                body_text: display_text(p.body_bytes),
                body_bytes: p.body_bytes,
            },
        ),
        frame(p).len() == p.size + PACKET_SIZE_FIELD_LEN,
        consumed(frame(p) + tail) == PACKET_HEADER_LEN + p.body_bytes.len(),
        (frame(p) + tail).skip(consumed(frame(p) + tail)) == seq![0u8, 0u8] + tail,
{
    lemma_i32_le_round_trip(p.size);
    lemma_i32_le_round_trip(p.id);
    lemma_i32_le_round_trip(p.typ.spec_code());
    let end: int = 12 + p.body_bytes.len() as int;
    assert((frame(p) + tail).subrange(12, end) == p.body_bytes);
}

/// Round trip: an ASCII body of at most `PACKET_BODY_MAX_LEN` bytes, with
/// any identifier and kind, is built into a packet whose frame reads back
/// with the same identifier, the same size, the same body bytes and the body
/// as its text. The kind reads back as the one that its type code stands
/// for, which is the same kind unless it was `Unknown` with a code that the
/// protocol knows.
pub proof fn lemma_round_trip(id: int, typ: PacketType, body: Seq<char>)
    requires
        i32::MIN <= id <= i32::MAX,
        is_ascii_chars(body),
        body.len() <= PACKET_BODY_MAX_LEN,
    ensures
        built(id, typ, body) is Ok,
        parsed(frame(built(id, typ, body)->Ok_0)) == Ok::<PacketView, PacketError>(
            PacketView {
                size: body.len() + PACKET_SIZE_MIN,
                id,
                typ: PacketType::of_code(typ.spec_code()),
                body_text: body,
                body_bytes: encode_utf8(body),
            },
        ),
        typ.is_canonical() ==> parsed(frame(built(id, typ, body)->Ok_0)) == built(id, typ, body),
{
    let p = built(id, typ, body)->Ok_0;
    lemma_built_packet(id, typ, body);
    lemma_frame_reads_back(p, Seq::empty());
    encode_utf8_valid_utf8(body);
    encode_utf8_decode_utf8(body);
    lemma_ascii_has_no_marker(body);
    lemma_strip_plain_text(body);
}

} // verus!
