//! The packet codec: requests are encoded to bytes, incoming datagrams are
//! decoded into header, type and body.
use vstd::prelude::*;
use vstd::slice::slice_to_vec;
use vstd::std_specs::convert::TryFromSpecImpl;
use vstd::utf8::encode_utf8;
use crate::error::SourceQueryError;
use crate::parse::{i32_le_at, read_i32_le};
pub use crate::parse::{get_string, get_u16, get_u64, get_u8};

verus! {

/// A receive buffer of the size that the protocol allows one datagram.
pub type RawPacket = [u8; 1400];

/// Whether a response fits one datagram or is split over several.
#[derive(Debug, PartialEq, Eq, Structural, Clone, Copy)]
pub enum PacketHeader {
    Single,
    Split,
}

impl PacketHeader {
    /// The 32-bit tag that stands for this header on the wire.
    pub open spec fn tag(self) -> int {
        match self {
            PacketHeader::Single => -1,
            PacketHeader::Split => -2,
        }
    }

    /// The header that a tag stands for, if any.
    pub open spec fn of_tag(tag: int) -> Option<PacketHeader> {
        if tag == -1 {
            Some(PacketHeader::Single)
        } else if tag == -2 {
            Some(PacketHeader::Split)
        } else {
            None
        }
    }

    /// The tag as four little-endian bytes, in two's complement.
    pub open spec fn wire(self) -> Seq<u8> {
        match self {
            PacketHeader::Single => seq![0xFFu8, 0xFFu8, 0xFFu8, 0xFFu8],
            PacketHeader::Split => seq![0xFEu8, 0xFFu8, 0xFFu8, 0xFFu8],
        }
    }

    /// The four bytes that open a datagram with this header.
    pub fn to_le_bytes(&self) -> (r: [u8; 4])
        ensures
            r@ == self.wire(),
            i32_le_at(r@, 0) == self.tag(),
    {
        let r: [u8; 4] = match self {
            PacketHeader::Single => [0xFF, 0xFF, 0xFF, 0xFF],
            PacketHeader::Split => [0xFE, 0xFF, 0xFF, 0xFF],
        };
        assert(r@ =~= self.wire());
        r
    }
}

impl TryFrom<i32> for PacketHeader {
    type Error = SourceQueryError;

    /// `-1` is a single packet, `-2` a split one; every other tag is refused
    /// and handed back in the error.
    fn try_from(raw: i32) -> (r: Result<PacketHeader, SourceQueryError>) {
        if raw == -1 {
            Ok(PacketHeader::Single)
        } else if raw == -2 {
            Ok(PacketHeader::Split)
        } else {
            Err(SourceQueryError::UnknownPacketHeader(raw))
        }
    }
}

impl TryFromSpecImpl<i32> for PacketHeader {
    open spec fn obeys_try_from_spec() -> bool {
        true
    }

    open spec fn try_from_spec(raw: i32) -> Result<PacketHeader, SourceQueryError> {
        match PacketHeader::of_tag(raw as int) {
            Some(header) => Ok(header),
            None => Err(SourceQueryError::UnknownPacketHeader(raw)),
        }
    }
}

/// The role of a datagram in the exchange.
#[derive(Debug, PartialEq, Eq, Structural, Clone, Copy)]
pub enum PacketType {
    /// The client asks for the server information.
    Request,
    /// The server demands that the request be repeated with the token it
    /// sends along.
    Challenge,
    /// The server information.
    Response,
}

impl PacketType {
    /// The byte that stands for this type on the wire: `'T'`, `'A'` or `'I'`.
    pub open spec fn byte(self) -> u8 {
        match self {
            PacketType::Request => 0x54,
            PacketType::Challenge => 0x41,
            PacketType::Response => 0x49,
        }
    }

    /// The type that a byte stands for, if any.
    pub open spec fn of_byte(byte: u8) -> Option<PacketType> {
        if byte == 0x54 {
            Some(PacketType::Request)
        } else if byte == 0x41 {
            Some(PacketType::Challenge)
        } else if byte == 0x49 {
            Some(PacketType::Response)
        } else {
            None
        }
    }

    /// The byte that follows the header in a datagram of this type.
    pub fn to_byte(&self) -> (r: u8)
        ensures
            r == self.byte(),
            PacketType::of_byte(r) == Some(*self),
    {
        match self {
            PacketType::Request => 84,
            PacketType::Challenge => 65,
            PacketType::Response => 73,
        }
    }
}

impl TryFrom<u8> for PacketType {
    type Error = SourceQueryError;

    /// `'T'`, `'A'` and `'I'` are the three types; every other byte is
    /// refused and handed back in the error.
    fn try_from(raw: u8) -> (r: Result<PacketType, SourceQueryError>) {
        if raw == 84 {
            Ok(PacketType::Request)
        } else if raw == 65 {
            Ok(PacketType::Challenge)
        } else if raw == 73 {
            Ok(PacketType::Response)
        } else {
            Err(SourceQueryError::UnknownPacketType(raw))
        }
    }
}

impl TryFromSpecImpl<u8> for PacketType {
    open spec fn obeys_try_from_spec() -> bool {
        true
    }

    open spec fn try_from_spec(raw: u8) -> Result<PacketType, SourceQueryError> {
        match PacketType::of_byte(raw) {
            Some(packet_type) => Ok(packet_type),
            None => Err(SourceQueryError::UnknownPacketType(raw)),
        }
    }
}

/// The views of an optional byte string.
pub open spec fn bytes_of(token: Option<Vec<u8>>) -> Option<Seq<u8>> {
    match token {
        Some(bytes) => Some(bytes@),
        None => None,
    }
}

/// What a request says: the mathematical content of a [`RequestPacket`].
pub struct RequestPacketView {
    pub header: PacketHeader,
    pub packet_type: PacketType,
    pub body: Seq<char>,
    pub challenge: Option<Seq<u8>>,
}

impl RequestPacketView {
    /// The request as it travels: header, type byte, payload text, a zero
    /// terminator and, on the second leg of the handshake, the token.
    pub open spec fn wire(self) -> Seq<u8> {
        self.header.wire() + seq![self.packet_type.byte()] + encode_utf8(self.body) + seq![0u8]
            + match self.challenge {
            Some(token) => token,
            None => Seq::<u8>::empty(),
        }
    }
}

/// The request that asks a server for its information, with the token of a
/// challenge where the server has issued one.
#[derive(Debug, PartialEq, Eq)]
pub struct RequestPacket {
    packet_header: PacketHeader,
    packet_type: PacketType,
    body: String,
    challenge: Option<Vec<u8>>,
}

impl View for RequestPacket {
    type V = RequestPacketView;

    closed spec fn view(&self) -> RequestPacketView {
        RequestPacketView {
            header: self.packet_header,
            packet_type: self.packet_type,
            body: self.body@,
            challenge: bytes_of(self.challenge),
        }
    }
}

impl RequestPacket {
    /// Every request is a single packet of type request with the fixed
    /// payload text; only the token differs.
    #[verifier::type_invariant]
    spec fn well_formed(self) -> bool {
        &&& self.packet_header == PacketHeader::Single
        &&& self.packet_type == PacketType::Request
        &&& self.body@ == "Source Engine Query"@
    }

    /// The view of the request that carries `challenge`.
    pub open spec fn spec_new(challenge: Option<Seq<u8>>) -> RequestPacketView {
        RequestPacketView {
            header: PacketHeader::Single,
            packet_type: PacketType::Request,
            body: "Source Engine Query"@,
            challenge,
        }
    }

    /// A single-packet request with the fixed payload text and the given
    /// token.
    pub fn new(challenge: Option<Vec<u8>>) -> (r: Self)
        ensures
            r@ == Self::spec_new(bytes_of(challenge)),
    {
        RequestPacket {
            packet_header: PacketHeader::Single,
            packet_type: PacketType::Request,
            body: "Source Engine Query".to_owned(),
            challenge,
        }
    }

    /// Serialises the request. Nothing frames the bytes: the datagram's end
    /// is the request's end.
    pub fn pack(&self) -> (payload: Vec<u8>)
        ensures
            self@ == Self::spec_new(self@.challenge),
            payload@ == self@.wire(),
    {
        proof {
            use_type_invariant(self);
        }
        let mut payload: Vec<u8> = Vec::new();
        let header: [u8; 4] = self.packet_header.to_le_bytes();
        payload.extend_from_slice(header.as_slice());
        payload.push(self.packet_type.to_byte());
        payload.extend_from_slice(self.body.as_str().as_bytes());
        payload.push(0);
        if let Some(token) = &self.challenge {
            payload.extend_from_slice(token.as_slice());
        }
        assert(payload@ =~= self@.wire());
        payload
    }

    /// The header of a request: always that of a single packet.
    pub fn packet_header(&self) -> (r: &PacketHeader)
        ensures
            *r == self@.header,
            *r == PacketHeader::Single,
    {
        proof {
            use_type_invariant(self);
        }
        &self.packet_header
    }

    /// The type of a request: always `Request`.
    pub fn packet_type(&self) -> (r: &PacketType)
        ensures
            *r == self@.packet_type,
            *r == PacketType::Request,
    {
        proof {
            use_type_invariant(self);
        }
        &self.packet_type
    }

    /// A copy of the payload text, which is the same in every request.
    pub fn body(&self) -> (r: String)
        ensures
            r@ == self@.body,
            r@ == "Source Engine Query"@,
    {
        proof {
            use_type_invariant(self);
        }
        self.body.clone()
    }
}

/// What a decoded datagram says: the mathematical content of a
/// [`ResponsePacket`].
pub struct ResponsePacketView {
    pub header: PacketHeader,
    pub packet_type: PacketType,
    pub body: Seq<u8>,
}

/// What a datagram decodes to.
///
/// The first four bytes are the header tag and the fifth the type. The body
/// of a challenge is the four bytes of its token; any other body is all that
/// follows the type byte, untrimmed. A datagram that ends before its type
/// byte has a malformed header, a challenge that ends before its token a
/// malformed body.
pub open spec fn decoded(datagram: Seq<u8>) -> Result<ResponsePacketView, SourceQueryError> {
    if datagram.len() < 4 {
        Err(SourceQueryError::MalformedPacketHeader)
    } else {
        match PacketHeader::of_tag(i32_le_at(datagram, 0)) {
            None => Err(SourceQueryError::UnknownPacketHeader(i32_le_at(datagram, 0) as i32)),
            Some(PacketHeader::Split) => Err(SourceQueryError::UnsupportedSplitPacket),
            Some(PacketHeader::Single) => if datagram.len() < 5 {
                Err(SourceQueryError::MalformedPacketHeader)
            } else {
                match PacketType::of_byte(datagram[4]) {
                    None => Err(SourceQueryError::UnknownPacketType(datagram[4])),
                    Some(PacketType::Challenge) => if datagram.len() < 9 {
                        Err(SourceQueryError::MalformedPacketBody)
                    } else {
                        Ok(
                            ResponsePacketView {
                                header: PacketHeader::Single,
                                packet_type: PacketType::Challenge,
                                body: datagram.subrange(5, 9),
                            },
                        )
                    },
                    Some(packet_type) => Ok(
                        ResponsePacketView {
                            header: PacketHeader::Single,
                            packet_type,
                            body: datagram.subrange(5, datagram.len() as int),
                        },
                    ),
                }
            },
        }
    }
}

/// A datagram taken apart into header, type and body.
#[derive(Debug, PartialEq, Eq)]
pub struct ResponsePacket {
    packet_header: PacketHeader,
    packet_type: PacketType,
    body: Vec<u8>,
}

impl View for ResponsePacket {
    type V = ResponsePacketView;

    closed spec fn view(&self) -> ResponsePacketView {
        ResponsePacketView {
            header: self.packet_header,
            packet_type: self.packet_type,
            body: self.body@,
        }
    }
}

impl ResponsePacket {
    /// Only single packets are decoded, and of a challenge only its token is
    /// kept.
    #[verifier::type_invariant]
    spec fn well_formed(self) -> bool {
        &&& self.packet_header == PacketHeader::Single
        &&& self.packet_type == PacketType::Challenge ==> self.body@.len() == 4
    }

    /// Decodes a full receive buffer. The buffer is taken whole: bytes that
    /// the sender never wrote count as part of the body.
    pub fn unpack(incoming: RawPacket) -> (r: Result<Self, SourceQueryError>)
        ensures
            match r {
                Ok(packet) => decoded(incoming@) == Ok::<_, SourceQueryError>(packet@),
                Err(e) => decoded(incoming@) == Err::<ResponsePacketView, _>(e),
            },
    {
        Self::decode(incoming.as_slice())
    }

    /// Decodes a datagram of any length.
    pub fn decode(datagram: &[u8]) -> (r: Result<Self, SourceQueryError>)
        ensures
            match r {
                Ok(packet) => decoded(datagram@) == Ok::<_, SourceQueryError>(packet@),
                Err(e) => decoded(datagram@) == Err::<ResponsePacketView, _>(e),
            },
    {
        if datagram.len() < 4 {
            return Err(SourceQueryError::MalformedPacketHeader);
        }
        let raw_header: i32 = read_i32_le(datagram, 0);
        let packet_header: PacketHeader = PacketHeader::try_from(raw_header)?;
        match packet_header {
            PacketHeader::Split => Err(SourceQueryError::UnsupportedSplitPacket),
            PacketHeader::Single => {
                if datagram.len() < 5 {
                    return Err(SourceQueryError::MalformedPacketHeader);
                }
                let packet_type: PacketType = PacketType::try_from(datagram[4])?;
                let raw_body: &[u8] = if packet_type == PacketType::Challenge {
                    if datagram.len() < 9 {
                        return Err(SourceQueryError::MalformedPacketBody);
                    }
                    &datagram[5..9]
                } else {
                    &datagram[5..datagram.len()]
                };
                Ok(ResponsePacket { packet_header, packet_type, body: slice_to_vec(raw_body) })
            },
        }
    }

    /// The header of a decoded packet: always that of a single packet.
    pub fn packet_header(&self) -> (r: &PacketHeader)
        ensures
            *r == self@.header,
            *r == PacketHeader::Single,
    {
        proof {
            use_type_invariant(self);
        }
        &self.packet_header
    }

    /// The type that the packet's type byte stands for.
    pub fn packet_type(&self) -> (r: &PacketType)
        ensures
            *r == self@.packet_type,
    {
        &self.packet_type
    }

    /// A copy of the body: of a challenge, the four bytes of its token.
    pub fn body(&self) -> (r: Vec<u8>)
        ensures
            r@ == self@.body,
            self@.packet_type == PacketType::Challenge ==> r@.len() == 4,
    {
        proof {
            use_type_invariant(self);
        }
        slice_to_vec(self.body.as_slice())
    }
}

/// Every packet that comes out of the decoder is a single packet, and the
/// body of a challenge is exactly the four bytes of its token.
pub proof fn lemma_decoded_packets(datagram: Seq<u8>)
    ensures
        decoded(datagram) matches Ok(packet) ==> {
            &&& packet.header == PacketHeader::Single
            &&& datagram.len() >= 5
            &&& packet.packet_type.byte() == datagram[4]
            &&& packet.packet_type == PacketType::Challenge ==> packet.body.len() == 4
            &&& packet.packet_type != PacketType::Challenge ==> packet.body.len() == datagram.len()
                - 5
        },
{
}

/// Framing and decoding are inverse to each other: a single-packet header,
/// a type byte and a body decode to that type and that body, for each of the
/// three types. Of a challenge only the four bytes of the token are kept, and
/// one with fewer is malformed.
pub proof fn lemma_decode_inverts_framing(packet_type: PacketType, body: Seq<u8>)
    ensures
        decoded(PacketHeader::Single.wire() + seq![packet_type.byte()] + body) == if packet_type
            == PacketType::Challenge && body.len() < 4 {
            Err::<ResponsePacketView, _>(SourceQueryError::MalformedPacketBody)
        } else {
            Ok(
                ResponsePacketView {
                    header: PacketHeader::Single,
                    packet_type,
                    body: if packet_type == PacketType::Challenge {
                        body.subrange(0, 4)
                    } else {
                        body
                    },
                },
            )
        },
{
    let datagram = PacketHeader::Single.wire() + seq![packet_type.byte()] + body;
    assert(i32_le_at(datagram, 0) == -1);
    assert(datagram[4] == packet_type.byte());
    if packet_type == PacketType::Challenge {
        if body.len() >= 4 {
            assert(datagram.subrange(5, 9) =~= body.subrange(0, 4));
        }
    } else {
        assert(datagram.subrange(5, datagram.len() as int) =~= body);
    }
}

/// Every encoded request decodes: to a single packet of type request whose
/// body is the payload text, its terminator and the token, if there is one.
pub proof fn lemma_request_decodes(challenge: Option<Seq<u8>>)
    ensures
        decoded(RequestPacket::spec_new(challenge).wire()) == Ok::<_, SourceQueryError>(
            ResponsePacketView {
                header: PacketHeader::Single,
                packet_type: PacketType::Request,
                body: encode_utf8("Source Engine Query"@) + seq![0u8] + match challenge {
                    Some(token) => token,
                    None => Seq::<u8>::empty(),
                },
            },
        ),
{
    let body = encode_utf8("Source Engine Query"@) + seq![0u8] + match challenge {
        Some(token) => token,
        None => Seq::<u8>::empty(),
    };
    lemma_decode_inverts_framing(PacketType::Request, body);
    assert(RequestPacket::spec_new(challenge).wire() =~= PacketHeader::Single.wire()
        + seq![PacketType::Request.byte()] + body);
}

/// The request without a token is the same twenty-five bytes every time:
/// four of `0xFF`, the letter `T`, the payload text in ASCII and a zero.
pub proof fn lemma_plain_request_bytes()
    ensures
        RequestPacket::spec_new(None).wire() == seq![
            0xFFu8, 0xFF, 0xFF, 0xFF, 0x54,
            0x53, 0x6F, 0x75, 0x72, 0x63, 0x65, 0x20,
            0x45, 0x6E, 0x67, 0x69, 0x6E, 0x65, 0x20,
            0x51, 0x75, 0x65, 0x72, 0x79, 0x00,
        ],
{
    reveal_strlit("Source Engine Query");
    let text = "Source Engine Query"@;
    assert(vstd::utf8::is_ascii_chars(text));
    vstd::utf8::is_ascii_chars_encode_utf8(text);
    assert(RequestPacket::spec_new(None).wire() =~= seq![
        0xFFu8, 0xFF, 0xFF, 0xFF, 0x54,
        0x53, 0x6F, 0x75, 0x72, 0x63, 0x65, 0x20,
        0x45, 0x6E, 0x67, 0x69, 0x6E, 0x65, 0x20,
        0x51, 0x75, 0x65, 0x72, 0x79, 0x00,
    ]);
}

/// A datagram whose tag is neither `-1` nor `-2` is refused, whatever
/// follows the tag, and the error carries the tag.
pub proof fn lemma_unknown_header_refused(datagram: Seq<u8>)
    requires
        datagram.len() >= 4,
        i32_le_at(datagram, 0) != -1,
        i32_le_at(datagram, 0) != -2,
    ensures
        i32::MIN <= i32_le_at(datagram, 0) <= i32::MAX,
        decoded(datagram) == Err::<ResponsePacketView, _>(
            SourceQueryError::UnknownPacketHeader(i32_le_at(datagram, 0) as i32),
        ),
{
}

/// A single packet whose type byte is none of `0x54`, `0x41`, `0x49` is
/// refused, whatever follows the byte, and the error carries the byte.
pub proof fn lemma_unknown_type_refused(datagram: Seq<u8>)
    requires
        datagram.len() >= 5,
        i32_le_at(datagram, 0) == -1,
        datagram[4] != 0x54 && datagram[4] != 0x41 && datagram[4] != 0x49,
    ensures
        decoded(datagram) == Err::<ResponsePacketView, _>(
            SourceQueryError::UnknownPacketType(datagram[4]),
        ),
{
}

/// The tag is minus one exactly when all four bytes of the header are
/// `0xFF`, and minus two exactly when the first is `0xFE` and the others
/// are `0xFF`.
pub proof fn lemma_header_tags(datagram: Seq<u8>)
    requires
        datagram.len() >= 4,
    ensures
        i32_le_at(datagram, 0) == -1 <==> datagram.subrange(0, 4)
            == PacketHeader::Single.wire(),
        i32_le_at(datagram, 0) == -2 <==> datagram.subrange(0, 4) == PacketHeader::Split.wire(),
{
    let head = datagram.subrange(0, 4);
    assert(head[0] == datagram[0] && head[1] == datagram[1] && head[2] == datagram[2] && head[3]
        == datagram[3]);
    if i32_le_at(datagram, 0) == -1 {
        assert(head =~= PacketHeader::Single.wire());
    }
    if i32_le_at(datagram, 0) == -2 {
        assert(head =~= PacketHeader::Split.wire());
    }
}

} // verus!
