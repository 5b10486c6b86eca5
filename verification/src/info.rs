//! The server-info record and its decoder.
use vstd::prelude::*;
use bitvec::order::Msb0;
use bitvec::view::BitView;
use crate::error::SourceQueryError;
use crate::packet::{PacketType, ResponsePacket, ResponsePacketView};
use crate::parse::{
    after_string, get_string, get_u16, get_u64, get_u8, in_bounds, lemma_string_survives_appending,
    lemma_terminator_is_first_zero, string_at, string_ok, u16_le_at, u64_le_at,
};

verus! {

/// What a server says of itself in answer to an information request.
#[derive(Debug, PartialEq, Eq)]
pub struct ServerInfo {
    /// Protocol version
    pub protocol: u8,
    /// Server hostname
    pub hostname: String,
    /// Current map
    pub map: String,
    /// Location of the server files
    pub folder: String,
    /// Name of the game
    pub game: String,
    /// Steam application id of the game
    pub game_id: u16,
    /// Current players
    pub players: u8,
    /// Max players
    pub maxplayers: u8,
    /// Current bots
    pub bots: u8,
    /// Server type:
    /// - `d`: Dedicated
    /// - `l`: Listen (non-dedicated)
    /// - `p`: SourceTV relay (proxy)
    pub server_type: char,
    /// Server environment:
    /// - `l`: Linux
    /// - `w`: Windows
    /// - `o`: Mac
    pub server_env: char,
    /// Is the server password protected?
    pub password_protected: bool,
    /// Is the server VAC enabled?
    pub vac_enabled: bool,
    /// Version of the game installed on the server
    pub version: String,
    /// The extra data flags: which of the fields below the server sent
    pub edf: u8,
    /// Server port (flag `0x80`)
    pub port: Option<u16>,
    /// Steam id of the server (flag `0x40`)
    pub server_steam_id: Option<u64>,
    /// Port of the spectator relay (flag `0x20`)
    pub stv_port: Option<u16>,
    /// Name of the spectator relay (flag `0x20`)
    pub stv_name: Option<String>,
    /// Keywords that describe the server (flag `0x10`)
    pub keywords: Option<Vec<String>>,
    /// Full 64-bit id of the game (flag `0x01`)
    pub server_game_id: Option<u64>,
}

/// The mathematical content of a [`ServerInfo`].
pub struct ServerInfoView {
    pub protocol: u8,
    pub hostname: Seq<char>,
    pub map: Seq<char>,
    pub folder: Seq<char>,
    pub game: Seq<char>,
    pub game_id: u16,
    pub players: u8,
    pub maxplayers: u8,
    pub bots: u8,
    pub server_type: char,
    pub server_env: char,
    pub password_protected: bool,
    pub vac_enabled: bool,
    pub version: Seq<char>,
    pub edf: u8,
    pub port: Option<u16>,
    pub server_steam_id: Option<u64>,
    pub stv_port: Option<u16>,
    pub stv_name: Option<Seq<char>>,
    pub keywords: Option<Seq<Seq<char>>>,
    pub server_game_id: Option<u64>,
}

/// The texts that a list of strings holds, in order.
pub open spec fn texts(strings: Seq<String>) -> Seq<Seq<char>> {
    Seq::new(strings.len(), |i: int| strings[i]@)
}

impl View for ServerInfo {
    type V = ServerInfoView;

    open spec fn view(&self) -> ServerInfoView {
        ServerInfoView {
            protocol: self.protocol,
            hostname: self.hostname@,
            map: self.map@,
            folder: self.folder@,
            game: self.game@,
            game_id: self.game_id,
            players: self.players,
            maxplayers: self.maxplayers,
            bots: self.bots,
            server_type: self.server_type,
            server_env: self.server_env,
            password_protected: self.password_protected,
            vac_enabled: self.vac_enabled,
            version: self.version@,
            edf: self.edf,
            port: self.port,
            server_steam_id: self.server_steam_id,
            stv_port: self.stv_port,
            stv_name: match self.stv_name {
                Some(name) => Some(name@),
                None => None,
            },
            keywords: match self.keywords {
                Some(words) => Some(texts(words@)),
                None => None,
            },
            server_game_id: self.server_game_id,
        }
    }
}

/// The position of the first comma at or after `start`, or the length of
/// `text` if none follows.
pub open spec fn next_comma(text: Seq<char>, start: int) -> int
    decreases text.len() - start,
{
    if start < 0 || start >= text.len() || text[start] == ',' {
        start
    } else {
        next_comma(text, start + 1)
    }
}

/// The comma-separated fields of `text` from `start` on. The text after the
/// last comma is a field too, empty or not.
pub open spec fn fields_from(text: Seq<char>, start: int) -> Seq<Seq<char>>
    decreases text.len() - start,
{
    let end = next_comma(text, start);
    if 0 <= start <= end < text.len() {
        seq![text.subrange(start, end)] + fields_from(text, end + 1)
    } else {
        seq![text.subrange(start, text.len() as int)]
    }
}

/// The comma-separated fields of `text`: one more than it has commas.
pub open spec fn comma_fields(text: Seq<char>) -> Seq<Seq<char>> {
    fields_from(text, 0)
}

/// The text that fields make when commas are put between them.
pub open spec fn joined(fields: Seq<Seq<char>>) -> Seq<char>
    decreases fields.len(),
{
    if fields.len() == 0 {
        Seq::<char>::empty()
    } else if fields.len() == 1 {
        fields[0]
    } else {
        fields[0] + seq![','] + joined(fields.drop_first())
    }
}

/// `next_comma` finds the first comma: it never moves backwards, skips only
/// other characters, and stops on a comma unless the text ends first.
pub proof fn lemma_next_comma_is_first(text: Seq<char>, start: int)
    requires
        0 <= start <= text.len(),
    ensures
        start <= next_comma(text, start) <= text.len(),
        forall|i: int| start <= i < next_comma(text, start) ==> text[i] != ',',
        next_comma(text, start) < text.len() ==> text[next_comma(text, start)] == ',',
    decreases text.len() - start,
{
    if start < text.len() && text[start] != ',' {
        lemma_next_comma_is_first(text, start + 1);
    }
}

/// Splitting loses nothing and invents nothing: there is at least one field,
/// no field holds a comma, and the fields joined by commas are the text
/// again.
pub proof fn lemma_fields_rejoin(text: Seq<char>, start: int)
    requires
        0 <= start <= text.len(),
    ensures
        fields_from(text, start).len() >= 1,
        forall|k: int, i: int|
            0 <= k < fields_from(text, start).len() && 0 <= i < fields_from(text, start)[k].len()
                ==> fields_from(text, start)[k][i] != ',',
        joined(fields_from(text, start)) == text.subrange(start, text.len() as int),
    decreases text.len() - start,
{
    lemma_next_comma_is_first(text, start);
    let end = next_comma(text, start);
    let fields = fields_from(text, start);
    if end < text.len() {
        lemma_fields_rejoin(text, end + 1);
        let rest = fields_from(text, end + 1);
        assert(fields.drop_first() =~= rest);
        assert(joined(fields) =~= text.subrange(start, text.len() as int));
        assert forall|k: int, i: int| 0 <= k < fields.len() && 0 <= i < fields[k].len() implies
            fields[k][i] != ',' by {
            if k > 0 {
                assert(fields[k] == rest[k - 1]);
            }
        }
    }
}

/// A text without a comma is one field, the empty text too.
pub proof fn lemma_no_comma_one_field(text: Seq<char>)
    requires
        forall|i: int| 0 <= i < text.len() ==> text[i] != ',',
    ensures
        comma_fields(text) == seq![text],
{
    lemma_next_comma_is_first(text, 0);
    assert(text.subrange(0, text.len() as int) =~= text);
}

/// A comma at the end of the text is followed by one last, empty field.
pub proof fn lemma_trailing_comma(text: Seq<char>, start: int)
    requires
        0 <= start <= text.len(),
        text.len() > 0,
        text.last() == ',',
    ensures
        fields_from(text, start).last() == Seq::<char>::empty(),
    decreases text.len() - start,
{
    lemma_next_comma_is_first(text, start);
    let end = next_comma(text, start);
    if start < text.len() {
        lemma_trailing_comma(text, end + 1);
    } else {
        assert(text.subrange(start, text.len() as int) =~= Seq::<char>::empty());
    }
}

/// Splits `text` at its commas.
pub fn split_commas(text: &str) -> (fields: Vec<String>)
    ensures
        texts(fields@) == comma_fields(text@),
{
    let len: usize = text.unicode_len();
    let mut fields: Vec<String> = Vec::new();
    let mut start: usize = 0;
    let mut at: usize = 0;
    assert(texts(fields@) + fields_from(text@, 0) =~= comma_fields(text@));
    while at < len
        invariant
            start <= at <= len,
            len == text@.len(),
            next_comma(text@, start as int) == next_comma(text@, at as int),
            texts(fields@) + fields_from(text@, start as int) == comma_fields(text@),
        decreases len - at,
    {
        if text.get_char(at) == ',' {
            let field: String = text.substring_char(start, at).to_owned();
            let ghost before = fields@;
            fields.push(field);
            assert(texts(fields@) =~= texts(before) + seq![field@]);
            start = at + 1;
        }
        at += 1;
    }
    let field: String = text.substring_char(start, len).to_owned();
    let ghost before = fields@;
    fields.push(field);
    assert(texts(fields@) =~= texts(before) + seq![field@]);
    fields
}

/// `BitView::view_bits` in most-significant-bit-first order, then the
/// indexing of the bit slice: bit `index` of a byte is the one that the mask
/// `0x80 >> index` selects. The slice has eight bits, and indexing beyond
/// them would panic.
#[verifier::external_body]
fn msb0_bit(byte: u8, index: usize) -> (bit: bool)
    requires
        index < 8,
    ensures
        bit == (byte & (0x80u8 >> (index as u8)) != 0),
{
    byte.view_bits::<Msb0>()[index]
}

/// Whether the flag byte `edf` has any bit of `mask` set.
pub open spec fn flag_set(edf: u8, mask: u8) -> bool {
    edf & mask != 0
}

/// Whether bit `index` of `edf` is set, counting from the most significant.
fn flag(edf: u8, index: usize) -> (set: bool)
    requires
        index < 8,
    ensures
        index == 0 ==> set == flag_set(edf, 0x80),
        index == 1 ==> set == flag_set(edf, 0x40),
        index == 2 ==> set == flag_set(edf, 0x20),
        index == 3 ==> set == flag_set(edf, 0x10),
        index == 4 ==> set == flag_set(edf, 0x08),
        index == 5 ==> set == flag_set(edf, 0x04),
        index == 6 ==> set == flag_set(edf, 0x02),
        index == 7 ==> set == flag_set(edf, 0x01),
{
    assert(0x80u8 >> 0u8 == 0x80u8 && 0x80u8 >> 1u8 == 0x40u8 && 0x80u8 >> 2u8 == 0x20u8 && 0x80u8
        >> 3u8 == 0x10u8 && 0x80u8 >> 4u8 == 0x08u8 && 0x80u8 >> 5u8 == 0x04u8 && 0x80u8 >> 6u8
        == 0x02u8 && 0x80u8 >> 7u8 == 0x01u8) by (bit_vector);
    msb0_bit(edf, index)
}

/// Where the map name begins: after the protocol byte and the host name.
pub open spec fn map_at(body: Seq<u8>) -> int {
    after_string(body, 1)
}

/// Where the folder name begins.
pub open spec fn folder_at(body: Seq<u8>) -> int {
    after_string(body, map_at(body))
}

/// Where the game name begins.
pub open spec fn game_at(body: Seq<u8>) -> int {
    after_string(body, folder_at(body))
}

/// Where the nine bytes of fixed-width fields begin: the 16-bit game id,
/// then players, player limit, bots, server type, environment, password
/// flag and VAC flag, a byte each.
pub open spec fn counts_at(body: Seq<u8>) -> int {
    after_string(body, game_at(body))
}

/// Where the version string begins.
pub open spec fn version_at(body: Seq<u8>) -> int {
    counts_at(body) + 9
}

/// Where the byte of extra data flags lies.
pub open spec fn edf_at(body: Seq<u8>) -> int {
    after_string(body, version_at(body))
}

/// Whether the flag byte of `body` has any bit of `mask` set.
pub open spec fn announces(body: Seq<u8>, mask: u8) -> bool {
    flag_set(body[edf_at(body)], mask)
}

/// Where the port lies, if flag `0x80` announces one: right after the flags.
pub open spec fn port_at(body: Seq<u8>) -> int {
    edf_at(body) + 1
}

/// Where the server's Steam id lies, if flag `0x40` announces one.
pub open spec fn steam_id_at(body: Seq<u8>) -> int {
    port_at(body) + if announces(body, 0x80) {
        2int
    } else {
        0
    }
}

/// Where the spectator relay's port lies, if flag `0x20` announces the
/// relay; its name follows the two bytes of the port.
pub open spec fn stv_at(body: Seq<u8>) -> int {
    steam_id_at(body) + if announces(body, 0x40) {
        8int
    } else {
        0
    }
}

/// Where the keyword string begins, if flag `0x10` announces one.
pub open spec fn keywords_at(body: Seq<u8>) -> int {
    if announces(body, 0x20) {
        after_string(body, stv_at(body) + 2)
    } else {
        stv_at(body)
    }
}

/// Where the 64-bit game id lies, if flag `0x01` announces one.
pub open spec fn game_id_at(body: Seq<u8>) -> int {
    if announces(body, 0x10) {
        after_string(body, keywords_at(body))
    } else {
        keywords_at(body)
    }
}

/// Where the server information ends. What a body holds beyond this is
/// ignored.
pub open spec fn info_end(body: Seq<u8>) -> int {
    game_id_at(body) + if announces(body, 0x01) {
        8int
    } else {
        0
    }
}

/// Whether every field up to and including the flag byte is complete, each
/// string terminated and valid UTF-8.
pub open spec fn fixed_part_ok(body: Seq<u8>) -> bool {
    &&& in_bounds(body, 0, 1)
    &&& string_ok(body, 1)
    &&& string_ok(body, map_at(body))
    &&& string_ok(body, folder_at(body))
    &&& string_ok(body, game_at(body))
    &&& in_bounds(body, counts_at(body), 9)
    &&& string_ok(body, version_at(body))
    &&& in_bounds(body, edf_at(body), 1)
}

/// Whether every field that the flag byte announces is complete, each string
/// terminated and valid UTF-8.
pub open spec fn optional_part_ok(body: Seq<u8>) -> bool {
    &&& announces(body, 0x80) ==> in_bounds(body, port_at(body), 2)
    &&& announces(body, 0x40) ==> in_bounds(body, steam_id_at(body), 8)
    &&& announces(body, 0x20) ==> in_bounds(body, stv_at(body), 2) && string_ok(body, stv_at(body) + 2)
    &&& announces(body, 0x10) ==> string_ok(body, keywords_at(body))
    &&& announces(body, 0x01) ==> in_bounds(body, game_id_at(body), 8)
}

/// Whether `body` holds a complete server information.
pub open spec fn well_formed(body: Seq<u8>) -> bool {
    fixed_part_ok(body) && optional_part_ok(body)
}

/// The server information that a well-formed `body` holds.
///
/// The fields lie one after another with nothing between them; a field that
/// the flag byte does not announce takes no room.
pub open spec fn info_of(body: Seq<u8>) -> ServerInfoView {
    let counts = counts_at(body);
    ServerInfoView {
        protocol: body[0],
        hostname: string_at(body, 1),
        map: string_at(body, map_at(body)),
        folder: string_at(body, folder_at(body)),
        game: string_at(body, game_at(body)),
        game_id: u16_le_at(body, counts) as u16,
        players: body[counts + 2],
        maxplayers: body[counts + 3],
        bots: body[counts + 4],
        server_type: body[counts + 5] as char,
        server_env: body[counts + 6] as char,
        password_protected: body[counts + 7] == 1,
        vac_enabled: body[counts + 8] == 1,
        version: string_at(body, version_at(body)),
        edf: body[edf_at(body)],
        port: if announces(body, 0x80) {
            Some(u16_le_at(body, port_at(body)) as u16)
        } else {
            None
        },
        server_steam_id: if announces(body, 0x40) {
            Some(u64_le_at(body, steam_id_at(body)) as u64)
        } else {
            None
        },
        stv_port: if announces(body, 0x20) {
            Some(u16_le_at(body, stv_at(body)) as u16)
        } else {
            None
        },
        stv_name: if announces(body, 0x20) {
            Some(string_at(body, stv_at(body) + 2))
        } else {
            None
        },
        keywords: if announces(body, 0x10) {
            Some(comma_fields(string_at(body, keywords_at(body))))
        } else {
            None
        },
        server_game_id: if announces(body, 0x01) {
            Some(u64_le_at(body, game_id_at(body)) as u64)
        } else {
            None
        },
    }
}

/// Whether `result` is what decoding `packet` gives: the information in the
/// body of a well-formed response, and an error for anything else.
pub open spec fn parses_to(
    packet: ResponsePacketView,
    result: Result<ServerInfo, SourceQueryError>,
) -> bool {
    match result {
        Ok(info) => {
            &&& packet.packet_type == PacketType::Response
            &&& well_formed(packet.body)
            &&& info@ == info_of(packet.body)
        },
        Err(e) => if packet.packet_type != PacketType::Response {
            e == SourceQueryError::AttemptParseEmptyPacket
        } else {
            !well_formed(packet.body) && e == SourceQueryError::MalformedPacketBody
        },
    }
}

/// The flag byte decides which optional fields there are: each is present
/// if and only if its bit is set, the spectator relay's port and name
/// together.
pub proof fn lemma_flags_decide_presence(body: Seq<u8>)
    ensures
        info_of(body).port is Some <==> announces(body, 0x80),
        info_of(body).server_steam_id is Some <==> announces(body, 0x40),
        info_of(body).stv_port is Some <==> announces(body, 0x20),
        info_of(body).stv_name is Some <==> announces(body, 0x20),
        info_of(body).keywords is Some <==> announces(body, 0x10),
        info_of(body).server_game_id is Some <==> announces(body, 0x01),
{
}

/// With no flag set the information ends with the flag byte: no optional
/// field is present, and nothing is asked of what follows the byte.
pub proof fn lemma_no_flags(body: Seq<u8>)
    requires
        body[edf_at(body)] == 0,
    ensures
        info_of(body).port is None,
        info_of(body).server_steam_id is None,
        info_of(body).stv_port is None,
        info_of(body).stv_name is None,
        info_of(body).keywords is None,
        info_of(body).server_game_id is None,
        info_end(body) == edf_at(body) + 1,
        well_formed(body) <==> fixed_part_ok(body),
{
    assert(0u8 & 0x80 == 0 && 0u8 & 0x40 == 0 && 0u8 & 0x20 == 0 && 0u8 & 0x10 == 0 && 0u8 & 0x01
        == 0) by (bit_vector);
}

/// With the flag `0x80` alone the port is the one optional field: the two
/// bytes after the flag byte, low byte first. The information ends with
/// them, so the body may end there.
pub proof fn lemma_port_flag_alone(body: Seq<u8>)
    requires
        body[edf_at(body)] == 0x80,
    ensures
        info_of(body).port == Some(u16_le_at(body, edf_at(body) + 1) as u16),
        info_of(body).server_steam_id is None,
        info_of(body).stv_port is None,
        info_of(body).stv_name is None,
        info_of(body).keywords is None,
        info_of(body).server_game_id is None,
        info_end(body) == edf_at(body) + 3,
        well_formed(body) <==> fixed_part_ok(body) && in_bounds(body, edf_at(body) + 1, 2),
{
    assert(0x80u8 & 0x80 != 0 && 0x80u8 & 0x40 == 0 && 0x80u8 & 0x20 == 0 && 0x80u8 & 0x10 == 0
        && 0x80u8 & 0x01 == 0) by (bit_vector);
}

/// With the flags `0x80` and `0x10` and no other, the port is the two bytes
/// after the flag byte, and the keyword string begins right after the port.
/// The keywords are its comma-separated fields in order, the empty ones too.
pub proof fn lemma_port_and_keywords(body: Seq<u8>)
    requires
        body[edf_at(body)] == 0x90,
    ensures
        info_of(body).port == Some(u16_le_at(body, edf_at(body) + 1) as u16),
        info_of(body).keywords == Some(comma_fields(string_at(body, edf_at(body) + 3))),
        info_of(body).server_steam_id is None,
        info_of(body).stv_port is None,
        info_of(body).stv_name is None,
        info_of(body).server_game_id is None,
        info_end(body) == after_string(body, edf_at(body) + 3),
        well_formed(body) <==> fixed_part_ok(body) && in_bounds(body, edf_at(body) + 1, 2)
            && string_ok(body, edf_at(body) + 3),
{
    assert(0x90u8 & 0x80 != 0 && 0x90u8 & 0x40 == 0 && 0x90u8 & 0x20 == 0 && 0x90u8 & 0x10 != 0
        && 0x90u8 & 0x01 == 0) by (bit_vector);
}

/// The fields of a well-formed body lie one after another inside it: each
/// begins where the one before it ends, and the last ends within the body.
pub proof fn lemma_fields_in_order(body: Seq<u8>)
    requires
        well_formed(body),
    ensures
        1 < map_at(body) < folder_at(body) < game_at(body) < counts_at(body) < version_at(body)
            < edf_at(body) < port_at(body),
        port_at(body) <= steam_id_at(body) <= stv_at(body) <= keywords_at(body) <= game_id_at(
            body,
        ) <= info_end(body) <= body.len(),
{
    lemma_terminator_is_first_zero(body, 1);
    lemma_terminator_is_first_zero(body, map_at(body));
    lemma_terminator_is_first_zero(body, folder_at(body));
    lemma_terminator_is_first_zero(body, game_at(body));
    lemma_terminator_is_first_zero(body, version_at(body));
    if announces(body, 0x20) {
        lemma_terminator_is_first_zero(body, stv_at(body) + 2);
    }
    if announces(body, 0x10) {
        lemma_terminator_is_first_zero(body, keywords_at(body));
    }
}

/// What follows the last field is ignored: bytes appended to a well-formed
/// body change neither that it is well-formed nor what it says.
pub proof fn lemma_excess_bytes_ignored(body: Seq<u8>, excess: Seq<u8>)
    requires
        well_formed(body),
    ensures
        well_formed(body + excess),
        info_of(body + excess) == info_of(body),
        info_end(body + excess) == info_end(body),
{
    let longer = body + excess;
    assert forall|i: int| 0 <= i < body.len() implies longer[i] == body[i] by {}
    lemma_string_survives_appending(body, excess, 1);
    lemma_string_survives_appending(body, excess, map_at(body));
    lemma_string_survives_appending(body, excess, folder_at(body));
    lemma_string_survives_appending(body, excess, game_at(body));
    lemma_string_survives_appending(body, excess, version_at(body));
    assert(edf_at(longer) == edf_at(body));
    if announces(body, 0x20) {
        lemma_string_survives_appending(body, excess, stv_at(body) + 2);
    }
    if announces(body, 0x10) {
        lemma_string_survives_appending(body, excess, keywords_at(body));
    }
}

/// `info` with every optional field taken away.
pub open spec fn without_optional(info: ServerInfoView) -> ServerInfoView {
    ServerInfoView {
        port: None,
        server_steam_id: None,
        stv_port: None,
        stv_name: None,
        keywords: None,
        server_game_id: None,
        ..info
    }
}

/// Reads the fields that every response has, from the protocol byte to the
/// flag byte, and leaves the cursor behind the flag byte.
fn read_fixed_part(data: &[u8], offset: &mut usize) -> (r: Result<ServerInfo, SourceQueryError>)
    requires
        *old(offset) == 0,
    ensures
        match r {
            Ok(info) => {
                &&& fixed_part_ok(data@)
                &&& info@ == without_optional(info_of(data@))
                &&& *final(offset) == port_at(data@)
            },
            Err(e) => !fixed_part_ok(data@) && e == SourceQueryError::MalformedPacketBody,
        },
{
    let protocol: u8 = get_u8(data, offset)?;
    let hostname: String = get_string(data, offset)?;
    let map: String = get_string(data, offset)?;
    let folder: String = get_string(data, offset)?;
    let game: String = get_string(data, offset)?;
    let game_id: u16 = get_u16(data, offset)?;
    let players: u8 = get_u8(data, offset)?;
    let maxplayers: u8 = get_u8(data, offset)?;
    let bots: u8 = get_u8(data, offset)?;
    let server_type: char = get_u8(data, offset)? as char;
    let server_env: char = get_u8(data, offset)? as char;
    let password_protected: bool = get_u8(data, offset)? == 1;
    let vac_enabled: bool = get_u8(data, offset)? == 1;
    let version: String = get_string(data, offset)?;
    let edf: u8 = get_u8(data, offset)?;
    Ok(
        ServerInfo {
            protocol,
            hostname,
            map,
            folder,
            game,
            game_id,
            players,
            maxplayers,
            bots,
            server_type,
            server_env,
            password_protected,
            vac_enabled,
            version,
            edf,
            port: None,
            server_steam_id: None,
            stv_port: None,
            stv_name: None,
            keywords: None,
            server_game_id: None,
        },
    )
}

/// Reads the fields that the flag byte announces, in the order of its bits
/// from the most significant down, and adds them to `info`.
fn read_optional_part(data: &[u8], offset: &mut usize, info: ServerInfo) -> (r: Result<
    ServerInfo,
    SourceQueryError,
>)
    requires
        fixed_part_ok(data@),
        info@ == without_optional(info_of(data@)),
        *old(offset) == port_at(data@),
    ensures
        match r {
            Ok(full) => optional_part_ok(data@) && full@ == info_of(data@),
            Err(e) => !optional_part_ok(data@) && e == SourceQueryError::MalformedPacketBody,
        },
{
    let mut info = info;
    let edf: u8 = info.edf;
    // 0x80: the server's port
    if flag(edf, 0) {
        info.port = Some(get_u16(data, offset)?);
    }
    // 0x40: the server's Steam id
    if flag(edf, 1) {
        info.server_steam_id = Some(get_u64(data, offset)?);
    }
    // 0x20: the spectator relay's port and name
    if flag(edf, 2) {
        info.stv_port = Some(get_u16(data, offset)?);
        info.stv_name = Some(get_string(data, offset)?);
    }
    // 0x10: the keywords
    if flag(edf, 3) {
        let list: String = get_string(data, offset)?;
        info.keywords = Some(split_commas(list.as_str()));
    }
    // 0x01: the 64-bit game id
    if flag(edf, 7) {
        info.server_game_id = Some(get_u64(data, offset)?);
    }
    Ok(info)
}

impl ServerInfo {
    /// Decodes the body of a response into the server information.
    ///
    /// A packet of another type is refused before its body is looked at. A
    /// body in which a field is cut short, unterminated or not valid UTF-8
    /// is malformed; bytes after the last field are ignored.
    pub fn parse(packet: ResponsePacket) -> (r: Result<ServerInfo, SourceQueryError>)
        ensures
            parses_to(packet@, r),
    {
        if *packet.packet_type() != PacketType::Response {
            return Err(SourceQueryError::AttemptParseEmptyPacket);
        }
        let body: Vec<u8> = packet.body();
        let data: &[u8] = body.as_slice();
        let mut offset: usize = 0;
        let info: ServerInfo = read_fixed_part(data, &mut offset)?;
        read_optional_part(data, &mut offset, info)
    }
}

} // verus!
