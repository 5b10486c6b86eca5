use source_query::error::SourceQueryError;
use source_query::info::{split_commas, ServerInfo};
use source_query::packet::ResponsePacket;

/// The fields that every response has, up to and including the flag byte.
fn fixed_part(edf: u8) -> Vec<u8> {
    let mut body: Vec<u8> = vec![17];
    body.extend_from_slice(b"Uncle's Server\0");
    body.extend_from_slice(b"pl_upward\0");
    body.extend_from_slice(b"tf\0");
    body.extend_from_slice(b"Team Fortress\0");
    body.extend_from_slice(&440u16.to_le_bytes());
    body.extend_from_slice(&[12, 24, 3, b'd', b'l', 0, 1]);
    body.extend_from_slice(b"8622567\0");
    body.push(edf);
    body
}

fn response(body: &[u8]) -> ResponsePacket {
    let mut datagram: Vec<u8> = vec![0xFF, 0xFF, 0xFF, 0xFF, 0x49];
    datagram.extend_from_slice(body);
    ResponsePacket::decode(&datagram).unwrap()
}

fn parse_body(body: &[u8]) -> Result<ServerInfo, SourceQueryError> {
    ServerInfo::parse(response(body))
}

fn owned(words: &[&str]) -> Vec<String> {
    words.iter().map(|w| w.to_string()).collect()
}

#[test]
fn fixed_fields_are_read_in_order() {
    let info = parse_body(&fixed_part(0)).unwrap();
    assert_eq!(info.protocol, 17);
    assert_eq!(info.hostname, "Uncle's Server");
    assert_eq!(info.map, "pl_upward");
    assert_eq!(info.folder, "tf");
    assert_eq!(info.game, "Team Fortress");
    assert_eq!(info.game_id, 440);
    assert_eq!(info.players, 12);
    assert_eq!(info.maxplayers, 24);
    assert_eq!(info.bots, 3);
    assert_eq!(info.server_type, 'd');
    assert_eq!(info.server_env, 'l');
    assert!(!info.password_protected);
    assert!(info.vac_enabled);
    assert_eq!(info.version, "8622567");
    assert_eq!(info.edf, 0);
}

#[test]
fn no_flags_no_optional_fields() {
    let info = parse_body(&fixed_part(0x00)).unwrap();
    assert_eq!(info.port, None);
    assert_eq!(info.server_steam_id, None);
    assert_eq!(info.stv_port, None);
    assert_eq!(info.stv_name, None);
    assert_eq!(info.keywords, None);
    assert_eq!(info.server_game_id, None);
}

#[test]
fn port_flag_alone_reads_the_port_at_the_end() {
    let mut body = fixed_part(0x80);
    body.extend_from_slice(&[0x87, 0x69]);
    let info = parse_body(&body).unwrap();
    assert_eq!(info.edf, 0x80);
    assert_eq!(info.port, Some(27015));
    assert_eq!(info.server_steam_id, None);
    assert_eq!(info.stv_port, None);
    assert_eq!(info.stv_name, None);
    assert_eq!(info.keywords, None);
    assert_eq!(info.server_game_id, None);
}

#[test]
fn port_and_keywords() {
    let mut body = fixed_part(0x90);
    body.extend_from_slice(&[0x39, 0x30]);
    body.extend_from_slice(b"alltalk,payload,\0");
    let info = parse_body(&body).unwrap();
    assert_eq!(info.port, Some(0x3039));
    assert_eq!(info.port, Some(12345));
    assert_eq!(info.keywords, Some(owned(&["alltalk", "payload", ""])));
    assert_eq!(info.server_steam_id, None);
    assert_eq!(info.stv_port, None);
    assert_eq!(info.stv_name, None);
    assert_eq!(info.server_game_id, None);
}

#[test]
fn every_optional_field() {
    let mut body = fixed_part(0xF1);
    body.extend_from_slice(&27015u16.to_le_bytes());
    body.extend_from_slice(&90_071_996_842_377_216u64.to_le_bytes());
    body.extend_from_slice(&27020u16.to_le_bytes());
    body.extend_from_slice(b"SourceTV\0");
    body.extend_from_slice(b"nocrits,nodmgspread\0");
    body.extend_from_slice(&440u64.to_le_bytes());
    let info = parse_body(&body).unwrap();
    assert_eq!(info.edf, 0xF1);
    assert_eq!(info.port, Some(27015));
    assert_eq!(info.server_steam_id, Some(90_071_996_842_377_216));
    assert_eq!(info.stv_port, Some(27020));
    assert_eq!(info.stv_name, Some("SourceTV".to_string()));
    assert_eq!(info.keywords, Some(owned(&["nocrits", "nodmgspread"])));
    assert_eq!(info.server_game_id, Some(440));
}

#[test]
fn each_flag_gates_its_own_field() {
    let mut steam = fixed_part(0x40);
    steam.extend_from_slice(&0x0102_0304_0506_0708u64.to_le_bytes());
    let info = parse_body(&steam).unwrap();
    assert_eq!(info.server_steam_id, Some(0x0102_0304_0506_0708));
    assert_eq!((info.port, info.stv_port, info.server_game_id), (None, None, None));
    assert_eq!((info.stv_name, info.keywords), (None, None));

    let mut relay = fixed_part(0x20);
    relay.extend_from_slice(&[0x8C, 0x69]);
    relay.extend_from_slice(b"relay\0");
    let info = parse_body(&relay).unwrap();
    assert_eq!(info.stv_port, Some(27020));
    assert_eq!(info.stv_name, Some("relay".to_string()));
    assert_eq!((info.port, info.server_steam_id, info.server_game_id), (None, None, None));
    assert_eq!(info.keywords, None);

    let mut words = fixed_part(0x10);
    words.extend_from_slice(b"a,b\0");
    let info = parse_body(&words).unwrap();
    assert_eq!(info.keywords, Some(owned(&["a", "b"])));
    assert_eq!((info.port, info.stv_port, info.stv_name), (None, None, None));

    let mut game = fixed_part(0x01);
    game.extend_from_slice(&730u64.to_le_bytes());
    let info = parse_body(&game).unwrap();
    assert_eq!(info.server_game_id, Some(730));
    assert_eq!((info.port, info.server_steam_id, info.stv_port), (None, None, None));
    assert_eq!((info.stv_name, info.keywords), (None, None));
}

#[test]
fn flags_without_a_field_are_kept_and_skipped() {
    let info = parse_body(&fixed_part(0x0E)).unwrap();
    assert_eq!(info.edf, 0x0E);
    assert_eq!((info.port, info.server_steam_id, info.stv_port), (None, None, None));
    assert_eq!((info.stv_name, info.keywords, info.server_game_id), (None, None, None));
}

#[test]
fn bytes_after_the_last_field_are_ignored() {
    let mut body = fixed_part(0x80);
    body.extend_from_slice(&[0x87, 0x69]);
    let exact = parse_body(&body).unwrap();
    body.extend_from_slice(&[0xFF, 0x00, 0xC0, 0x2C, 0x00]);
    let padded = parse_body(&body).unwrap();
    assert_eq!(exact, padded);
}

#[test]
fn full_buffer_with_zero_padding() {
    let mut buffer = [0u8; 1400];
    let mut body = fixed_part(0xB1);
    body.extend_from_slice(&27015u16.to_le_bytes());
    body.extend_from_slice(&27020u16.to_le_bytes());
    body.extend_from_slice(b"tv\0");
    body.extend_from_slice(b"one,,three\0");
    body.extend_from_slice(&u64::MAX.to_le_bytes());
    buffer[..5].copy_from_slice(&[0xFF, 0xFF, 0xFF, 0xFF, 0x49]);
    buffer[5..5 + body.len()].copy_from_slice(&body);
    let info = ServerInfo::parse(ResponsePacket::unpack(buffer).unwrap()).unwrap();
    assert_eq!(info.hostname, "Uncle's Server");
    assert_eq!(info.port, Some(27015));
    assert_eq!(info.server_steam_id, None);
    assert_eq!(info.stv_port, Some(27020));
    assert_eq!(info.stv_name, Some("tv".to_string()));
    assert_eq!(info.keywords, Some(owned(&["one", "", "three"])));
    assert_eq!(info.server_game_id, Some(u64::MAX));
}

#[test]
fn booleans_are_true_only_for_one() {
    let mut body = fixed_part(0);
    let flags_at = body.len() - 1 - b"8622567\0".len() - 2;
    body[flags_at] = 1;
    body[flags_at + 1] = 2;
    let info = parse_body(&body).unwrap();
    assert!(info.password_protected);
    assert!(!info.vac_enabled);
    body[flags_at] = 0xFF;
    body[flags_at + 1] = 0;
    let info = parse_body(&body).unwrap();
    assert!(!info.password_protected);
    assert!(!info.vac_enabled);
}

#[test]
fn type_and_environment_are_characters_of_their_bytes() {
    let mut body = fixed_part(0);
    let type_at = body.len() - 1 - b"8622567\0".len() - 4;
    body[type_at] = b'p';
    body[type_at + 1] = 0xE9;
    let info = parse_body(&body).unwrap();
    assert_eq!(info.server_type, 'p');
    assert_eq!(info.server_env, '\u{e9}');
}

#[test]
fn non_ascii_names_survive() {
    let mut body: Vec<u8> = vec![17];
    body.extend_from_slice("\u{421}\u{435}\u{440}\u{432}\u{435}\u{440} \u{2116}1\0".as_bytes());
    body.extend_from_slice("de_d\u{fc}st\0".as_bytes());
    body.extend_from_slice(b"csgo\0");
    body.extend_from_slice("\u{30b2}\u{30fc}\u{30e0}\0".as_bytes());
    body.extend_from_slice(&730u16.to_le_bytes());
    body.extend_from_slice(&[0, 10, 0, b'd', b'w', 1, 1]);
    body.extend_from_slice(b"1.38\0");
    body.push(0x10);
    body.extend_from_slice("empty,\u{e9}t\u{e9},secure\0".as_bytes());
    let info = parse_body(&body).unwrap();
    assert_eq!(info.hostname, "\u{421}\u{435}\u{440}\u{432}\u{435}\u{440} \u{2116}1");
    assert_eq!(info.map, "de_d\u{fc}st");
    assert_eq!(info.game, "\u{30b2}\u{30fc}\u{30e0}");
    assert_eq!(info.keywords, Some(owned(&["empty", "\u{e9}t\u{e9}", "secure"])));
}

#[test]
fn every_truncation_is_malformed() {
    let mut body = fixed_part(0xF1);
    body.extend_from_slice(&27015u16.to_le_bytes());
    body.extend_from_slice(&1u64.to_le_bytes());
    body.extend_from_slice(&27020u16.to_le_bytes());
    body.extend_from_slice(b"SourceTV\0");
    body.extend_from_slice(b"a,b\0");
    body.extend_from_slice(&2u64.to_le_bytes());
    assert!(parse_body(&body).is_ok());
    for len in 0..body.len() {
        assert_eq!(
            parse_body(&body[..len]),
            Err(SourceQueryError::MalformedPacketBody),
            "a body cut to {} bytes",
            len
        );
    }
}

#[test]
fn truncated_optional_fields_are_malformed() {
    let fixed = fixed_part(0x80);
    assert_eq!(parse_body(&fixed), Err(SourceQueryError::MalformedPacketBody));
    let mut one = fixed.clone();
    one.push(0x87);
    assert_eq!(parse_body(&one), Err(SourceQueryError::MalformedPacketBody));
    let mut open_keywords = fixed_part(0x10);
    open_keywords.extend_from_slice(b"a,b");
    assert_eq!(parse_body(&open_keywords), Err(SourceQueryError::MalformedPacketBody));
}

#[test]
fn invalid_utf8_is_malformed() {
    let mut body: Vec<u8> = vec![17];
    body.extend_from_slice(&[b'b', 0xFF, b'd', 0]);
    body.extend_from_slice(&fixed_part(0)[16..]);
    assert_eq!(parse_body(&body), Err(SourceQueryError::MalformedPacketBody));
    let mut words = fixed_part(0x10);
    words.extend_from_slice(&[b'a', b',', 0xC3, 0]);
    assert_eq!(parse_body(&words), Err(SourceQueryError::MalformedPacketBody));
}

#[test]
fn only_a_response_is_parsed() {
    let mut challenge: Vec<u8> = vec![0xFF, 0xFF, 0xFF, 0xFF, 0x41];
    challenge.extend_from_slice(&[1, 2, 3, 4]);
    assert_eq!(
        ServerInfo::parse(ResponsePacket::decode(&challenge).unwrap()),
        Err(SourceQueryError::AttemptParseEmptyPacket)
    );
    let mut request: Vec<u8> = vec![0xFF, 0xFF, 0xFF, 0xFF, 0x54];
    request.extend_from_slice(&fixed_part(0));
    assert_eq!(
        ServerInfo::parse(ResponsePacket::decode(&request).unwrap()),
        Err(SourceQueryError::AttemptParseEmptyPacket)
    );
}

#[test]
fn commas_split_into_one_more_field_than_commas() {
    assert_eq!(split_commas(""), owned(&[""]));
    assert_eq!(split_commas("alone"), owned(&["alone"]));
    assert_eq!(split_commas("a,b"), owned(&["a", "b"]));
    assert_eq!(split_commas("a,b,"), owned(&["a", "b", ""]));
    assert_eq!(split_commas(","), owned(&["", ""]));
    assert_eq!(split_commas(",a"), owned(&["", "a"]));
    assert_eq!(split_commas("a,,b"), owned(&["a", "", "b"]));
    assert_eq!(split_commas(",,,"), owned(&["", "", "", ""]));
    assert_eq!(split_commas("\u{e9},\u{2603}\u{2603},\u{1F600}"), owned(&["\u{e9}", "\u{2603}\u{2603}", "\u{1F600}"]));
}

#[test]
fn split_fields_rejoin_to_the_text() {
    for text in ["", ",", "a,b,", "one,two,three", ",,x,,", "no commas here", "\u{fc},\u{fc}"] {
        let fields = split_commas(text);
        assert_eq!(fields.join(","), text);
        assert!(fields.iter().all(|f| !f.contains(',')));
        assert_eq!(fields.len(), text.matches(',').count() + 1);
        let by_std: Vec<String> = text.split(',').map(|f| f.to_string()).collect();
        assert_eq!(fields, by_std);
    }
}
