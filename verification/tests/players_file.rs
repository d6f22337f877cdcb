use fofdata::players::{Players9Data, Player9Data, AltPlayers9Header, AltPlayer9Id,
    PlayerPosition9, PlayerPositionGroup9, decode_alt_players};
use fofdata::error::Fof9Error;

fn put_u32(out: &mut Vec<u8>, v: u32) {
    out.extend_from_slice(&v.to_le_bytes());
}

fn put_words(out: &mut Vec<u8>, count: usize, fill: u32) {
    let mut i = 0;
    while i < count {
        put_u32(out, fill);
        i += 1;
    }
}

fn put_str(out: &mut Vec<u8>, s: &str) {
    put_u32(out, s.len() as u32);
    out.extend_from_slice(s.as_bytes());
}

fn put_player(out: &mut Vec<u8>, player_id: u32, first: &str, last: &str, position: u32) {
    put_u32(out, player_id);
    put_str(out, first);
    put_str(out, "");
    put_str(out, last);
    put_u32(out, position); // position tag
    put_u32(out, 1); // position group tag
    put_u32(out, 0); // leading extra word
    put_u32(out, 3); // years of experience
    put_words(out, 150, 0);
    put_u32(out, 2020); // year_1
    put_u32(out, 2024); // year_2
    put_words(out, 7, 0); // the seven stat-list counts, all empty
    put_words(out, 3, 0); // trailing words
    put_words(out, 3 * 64, 0); // three ratings blocks
    put_words(out, 48, 0); // trailing block
    put_u32(out, 0); // final counted list, empty
}

fn put_alt_player(out: &mut Vec<u8>, first: &str, last: &str, position: u32) {
    put_str(out, first);
    put_str(out, "");
    put_str(out, last);
    put_u32(out, position);
    put_u32(out, 1);
    put_u32(out, 0);
    put_u32(out, 3);
    put_words(out, 152, 0);
    put_words(out, 7, 0);
    put_words(out, 3, 0);
    put_words(out, 3 * 64, 0);
    put_words(out, 48, 0);
    put_u32(out, 0);
}

fn build_players_file() -> Vec<u8> {
    let mut out: Vec<u8> = Vec::new();
    put_u32(&mut out, 12);
    out.extend_from_slice(b"STRUCTPLAYER");
    put_u32(&mut out, 1); // version
    put_u32(&mut out, 2); // player count
    put_player(&mut out, 1000, "Sam", "Stone", 1);
    put_player(&mut out, 1001, "Lee", "Field", 2);
    put_words(&mut out, 4, 0); // four empty counted groups
    put_u32(&mut out, 0); // empty counted group
    put_u32(&mut out, 0); // empty staff group
    out
}

#[test]
fn players_two_minimal_records() {
    let bytes = build_players_file();
    let players = Players9Data::decode(&bytes).expect("players file should decode");
    assert_eq!(players.players().len(), 2);
    assert_eq!(players.staff().len(), 0);
    assert_eq!(players.max_player_id(), 2);
    let p0: &Player9Data = &players.players()[0];
    assert_eq!(p0.player_id(), 1000);
    assert_eq!(p0.name(), "Sam Stone");
    assert!(matches!(p0.position(), PlayerPosition9::QB));
    assert!(matches!(p0.position_group(), PlayerPositionGroup9::QB));
    assert_eq!(p0.position().label(), "QB");
    let p1: &Player9Data = &players.players()[1];
    assert_eq!(p1.player_id(), 1001);
    assert!(matches!(p1.position(), PlayerPosition9::RB));
}

#[test]
fn players_trailing_bytes_fail() {
    let mut bytes = build_players_file();
    bytes.push(0);
    let err = Players9Data::decode(&bytes).expect_err("trailing bytes must fail");
    assert!(matches!(err, Fof9Error::StructuralInvariantViolation { .. }));
}

#[test]
fn players_unknown_position_tag_fails() {
    let mut out: Vec<u8> = Vec::new();
    put_u32(&mut out, 12);
    out.extend_from_slice(b"STRUCTPLAYER");
    put_u32(&mut out, 1);
    put_u32(&mut out, 1);
    put_player(&mut out, 1000, "Sam", "Stone", 99);
    put_words(&mut out, 6, 0);
    let err = Players9Data::decode(&out).expect_err("unknown tag must fail");
    assert!(matches!(err, Fof9Error::UnknownVariantTag { tag: 99, .. }));
}

#[test]
fn players_bad_magic_fails() {
    let mut bytes = build_players_file();
    bytes[6] = b'X';
    let err = Players9Data::decode(&bytes).expect_err("bad magic must fail");
    assert_eq!(err, Fof9Error::MagicMismatch { pos: 0 });
}

#[test]
fn alt_players_sentinel_list() {
    let mut out: Vec<u8> = Vec::new();
    put_u32(&mut out, 12);
    out.extend_from_slice(b"STRUCTPLAYER");
    put_u32(&mut out, 1); // version
    put_u32(&mut out, 2); // highest player id
    put_u32(&mut out, 1000);
    put_alt_player(&mut out, "Sam", "Stone", 1);
    put_u32(&mut out, 1001);
    put_alt_player(&mut out, "Lee", "Field", 2);
    put_u32(&mut out, 0); // the terminal tag
    let (header, list) = decode_alt_players(&out).expect("legacy shape should decode");
    assert_eq!(header.max_player_id(), 2);
    assert_eq!(list.len(), 2);
    assert_eq!(list[0].0.player_id(), 1000);
    assert_eq!(list[0].1.name(), "Sam Stone");
    assert_eq!(list[1].0.player_id(), 1001);
    assert_eq!(list[1].1.position().label(), "RB");
}

#[test]
fn alt_players_missing_terminal_fails() {
    let mut out: Vec<u8> = Vec::new();
    put_u32(&mut out, 12);
    out.extend_from_slice(b"STRUCTPLAYER");
    put_u32(&mut out, 1);
    put_u32(&mut out, 1);
    put_u32(&mut out, 1000);
    put_alt_player(&mut out, "Sam", "Stone", 1);
    // the stream ends without the zero tag
    let err = decode_alt_players(&out).expect_err("missing terminal must fail");
    assert!(matches!(err, Fof9Error::UnexpectedEndOfSequence { .. }));
}

#[test]
fn alt_header_fields() {
    let mut out: Vec<u8> = Vec::new();
    put_u32(&mut out, 12);
    out.extend_from_slice(b"STRUCTPLAYER");
    put_u32(&mut out, 7);
    put_u32(&mut out, 42);
    let (h, end) = AltPlayers9Header::decode(&out, 0).expect("header should decode");
    assert_eq!(end, 24);
    assert_eq!(h.data_version, 7);
    assert_eq!(h.max_player_id(), 42);
    let (id, _) = AltPlayer9Id::decode(&vec![5, 0, 0, 0], 0).expect("id should decode");
    assert_eq!(id.player_id(), 5);
}
