use fofdata::league::{League9Data, TeamInfo, CalendarItem, ItemB, LEAGUE_PAD2_WORDS,
    LEAGUE_PAD3_WORDS, TEAM_PAD1_WORDS, TEAM_PAD2_WORDS, TEAM_PLAYBOOK_PLAYS};
use fofdata::error::Fof9Error;

fn put_u32(out: &mut Vec<u8>, v: u32) {
    out.extend_from_slice(&v.to_le_bytes());
}

fn put_words(out: &mut Vec<u8>, count: usize, fill: u32) {
    let mut i = 0;
    while i < count {
        put_u32(out, fill);
        i += 1;
    }
}

fn put_str(out: &mut Vec<u8>, s: &str) {
    put_u32(out, s.len() as u32);
    out.extend_from_slice(s.as_bytes());
}

fn put_team(out: &mut Vec<u8>, stored_number: u32, city: &str, name: &str, short: &str) {
    put_u32(out, stored_number);
    put_str(out, city);
    put_str(out, name);
    put_str(out, short);
    put_words(out, 29, 1);
    let mut i = 0;
    while i < TEAM_PLAYBOOK_PLAYS {
        put_words(out, 18, 2);
        put_str(out, "Dive");
        i += 1;
    }
    put_words(out, TEAM_PAD1_WORDS, 0);
    put_words(out, 6, 3);
    put_str(out, city);
    put_str(out, name);
    put_str(out, short);
    put_words(out, 56, 4);
    put_words(out, TEAM_PAD2_WORDS, 0);
    put_words(out, 5, 5);
}

fn build_league(number_teams: u32, teams_len: u32) -> Vec<u8> {
    let mut out: Vec<u8> = Vec::new();
    put_u32(&mut out, 12);
    out.extend_from_slice(b"STRUCTLEAGUE");
    put_words(&mut out, 5, 7); // leading header words
    put_u32(&mut out, 1); // calendar count
    put_words(&mut out, 10, 9); // one calendar item
    put_u32(&mut out, 2024); // pre_1
    put_u32(&mut out, 0); // unknown1
    put_u32(&mut out, number_teams);
    put_words(&mut out, 3, 0); // unknown3..unknown5
    put_u32(&mut out, 8); // number_divisions
    put_words(&mut out, 6, 0); // unknown7..unknown12
    put_str(&mut out, "Championship");
    put_str(&mut out, "Test League");
    put_u32(&mut out, 0); // unknown15
    put_str(&mut out, "American");
    put_str(&mut out, "AC");
    put_str(&mut out, "National");
    put_str(&mut out, "NC");
    for d in 0..8 {
        put_str(&mut out, "Division");
        put_u32(&mut out, d);
    }
    put_str(&mut out, "Structure");
    put_words(&mut out, 3, 0); // unknown20..unknown22
    put_str(&mut out, "calendar.dat");
    put_words(&mut out, 10, 0); // ignored block
    put_words(&mut out, LEAGUE_PAD2_WORDS, 0);
    put_words(&mut out, LEAGUE_PAD3_WORDS, 0);
    put_u32(&mut out, teams_len);
    let mut t = 0;
    while t < teams_len {
        put_team(&mut out, t + 1, "Springfield", "Atoms", "SPR");
        t += 1;
    }
    put_words(&mut out, 3, 6); // trailing region to end of stream
    out
}

#[test]
fn league_round_trip() {
    let bytes = build_league(2, 2);
    let league = League9Data::decode(&bytes).expect("league should decode");
    assert_eq!(league.number_teams, 2);
    assert_eq!(league.teams_len, 2);
    assert_eq!(league.teams.len(), 2);
    assert_eq!(league.number_teams as usize, league.teams.len());
    assert_eq!(league.league_name.string, "Test League");
    assert_eq!(league.divisions.len(), 8);
    assert_eq!(league.calendar.len(), 1);
    // the stored team number is one above the logical one
    assert_eq!(league.teams[0].team_number, 0);
    assert_eq!(league.teams[1].team_number, 1);
    assert_eq!(league.teams[0].team_city.string, "Springfield");
    // re-encoding reproduces the original bytes exactly
    let out = league.encode();
    assert_eq!(out.len(), bytes.len());
    assert!(out == bytes);
}

#[test]
fn league_team_count_mismatch_fails() {
    let bytes = build_league(3, 2);
    let err = League9Data::decode(&bytes).expect_err("count mismatch must fail");
    assert!(matches!(err, Fof9Error::StructuralInvariantViolation { .. }));
}

#[test]
fn league_bad_magic_fails() {
    let mut bytes = build_league(2, 2);
    bytes[4] = b'X';
    let err = League9Data::decode(&bytes).expect_err("bad magic must fail");
    assert_eq!(err, Fof9Error::MagicMismatch { pos: 0 });
}

#[test]
fn league_truncated_fails() {
    let bytes = build_league(2, 2);
    let cut = bytes[..bytes.len() / 2].to_vec();
    let err = League9Data::decode(&cut).expect_err("truncated league must fail");
    assert!(matches!(err, Fof9Error::TruncatedInput { .. }));
}

#[test]
fn team_stored_zero_fails() {
    let mut bytes: Vec<u8> = Vec::new();
    put_team(&mut bytes, 0, "A", "B", "C");
    let err = TeamInfo::decode(&bytes, 0).expect_err("stored zero must fail");
    assert!(matches!(err, Fof9Error::StructuralInvariantViolation { .. }));
}

#[test]
fn team_round_trip() {
    let mut bytes: Vec<u8> = Vec::new();
    put_team(&mut bytes, 31, "Metropolis", "Meteors", "MET");
    let (team, end) = TeamInfo::decode(&bytes, 0).expect("team should decode");
    assert_eq!(end, bytes.len());
    assert_eq!(team.team_number, 30);
    let mut out: Vec<u8> = Vec::new();
    team.encode(&mut out);
    assert!(out == bytes);
}

#[test]
fn calendar_item_fields() {
    let mut bytes: Vec<u8> = Vec::new();
    for w in 0..10 {
        put_u32(&mut bytes, w + 1);
    }
    let (c, end) = CalendarItem::decode(&bytes, 0).expect("calendar item should decode");
    assert_eq!(end, 40);
    assert_eq!(c.number, 1);
    assert_eq!(c.month, 2);
    assert_eq!(c.day, 3);
    assert_eq!(c.year, 4);
    assert_eq!(c.some6, 10);
    let mut out: Vec<u8> = Vec::new();
    c.encode(&mut out);
    assert_eq!(out, bytes);
}

#[test]
fn item_b_round_trip() {
    let mut bytes: Vec<u8> = Vec::new();
    for w in 0..12 {
        put_u32(&mut bytes, 100 - w);
    }
    let (b, end) = ItemB::decode(&bytes, 0).expect("item should decode");
    assert_eq!(end, 48);
    assert_eq!(b.data1, 100);
    assert_eq!(b.data12, 89);
    let mut out: Vec<u8> = Vec::new();
    b.encode(&mut out);
    assert_eq!(out, bytes);
}
