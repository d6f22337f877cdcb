use fofdata::week::{Week9Data, Game9Data, Game9Section, GamePlay9, SpecialCoverage9,
    DefensiveCoverage9, DefensiveFront9, DefensivePersonnel9, FormationData9,
    OffensiveFormation9, OffensivePersonnel9, ExtraPointResult9, SpecialPlay9};
use fofdata::error::Fof9Error;

fn put_u32(out: &mut Vec<u8>, v: u32) {
    out.extend_from_slice(&v.to_le_bytes());
}

fn put_words(out: &mut Vec<u8>, count: usize, fill: u32) {
    let mut i = 0;
    while i < count {
        put_u32(out, fill);
        i += 1;
    }
}

fn put_str(out: &mut Vec<u8>, s: &str) {
    put_u32(out, s.len() as u32);
    out.extend_from_slice(s.as_bytes());
}

fn put_week_team(out: &mut Vec<u8>, number: u32, city: &str, name: &str, short: &str) {
    put_u32(out, number);
    put_str(out, city);
    put_str(out, name);
    put_str(out, short);
    put_words(out, 372, 0);
}

fn put_start_section(out: &mut Vec<u8>) {
    put_u32(out, 10);
    out.extend_from_slice(b"BEGIN_GAME");
    put_words(out, 6, 1); // version, year, weeks
    put_str(out, "Dome");
    put_str(out, "Week 1");
    put_words(out, 2, 0); // attendance totals
    put_words(out, 12, 0); // six attendance pairs
    put_words(out, 6, 0); // weather and capacity words
    put_week_team(out, 1, "Springfield", "Atoms", "SPR");
    put_week_team(out, 2, "Metropolis", "Meteors", "MET");
    put_words(out, 2, 0); // trailing words
}

fn put_run_play_section(out: &mut Vec<u8>, num_blitz: u32, special_coverage: u32, spy_slot: bool) {
    put_u32(out, 9);
    out.extend_from_slice(b"GAME_PLAY");
    put_words(out, 9, 1); // clock and down context
    put_u32(out, 5); // run play tag
    put_u32(out, 0); // offensive formation
    put_u32(out, 5); // offensive personnel
    put_u32(out, 1); // defending team
    put_u32(out, 0); // defensive personnel
    put_u32(out, 5); // defensive coverage
    put_u32(out, 0); // defensive front
    put_u32(out, special_coverage);
    put_u32(out, 0); // not starting a drive
    put_u32(out, num_blitz);
    // ten assignment slots: slot three blitzes, slot seven may spy
    for slot in 0..10 {
        if slot == 3 {
            put_u32(out, 1);
        } else if slot == 7 && spy_slot {
            put_u32(out, 2);
        } else {
            put_u32(out, 0);
        }
    }
    put_words(out, 20, 0); // penalty note, no penalty
    put_words(out, 7, 0); // unidentified words
    put_words(out, 2, 0); // injury note
    put_words(out, 373, 0); // trailing block
}

fn put_end_section(out: &mut Vec<u8>) {
    put_u32(out, 8);
    out.extend_from_slice(b"END_GAME");
    put_u32(out, 77); // player of the game
    put_u32(out, 1); // one home drive
    put_u32(out, 0); // no away drives
    put_words(out, 10, 2); // the home drive
    put_words(out, 15, 0); // home passing bands
    put_words(out, 15, 0); // away passing bands
    put_words(out, 8, 0); // home rushing directions
    put_words(out, 8, 0); // away rushing directions
    put_words(out, 4, 0); // home possession
    put_words(out, 4, 0); // away possession
}

fn build_week() -> Vec<u8> {
    let mut out: Vec<u8> = Vec::new();
    put_start_section(&mut out);
    put_run_play_section(&mut out, 1, 0, false);
    put_end_section(&mut out);
    out
}

#[test]
fn week_one_game_three_sections() {
    let bytes = build_week();
    let week = Week9Data::decode(&bytes).expect("week should decode");
    assert_eq!(week.games.len(), 1);
    let game = &week.games[0];
    assert_eq!(game.sections.len(), 3);
    assert!(matches!(game.sections[0], Game9Section::Start { .. }));
    assert!(matches!(game.sections[1], Game9Section::Play { .. }));
    assert!(matches!(game.sections[2], Game9Section::End { .. }));
    assert_eq!(game.home_team().city(), "Springfield");
    assert_eq!(game.away_team().short(), "MET");
    if let Game9Section::Play { play, .. } = &game.sections[1] {
        if let GamePlay9::Run { num_blitz, defensive_blitzers, defensive_spies, .. } = play {
            assert_eq!(*num_blitz, 1);
            assert_eq!(defensive_blitzers, &vec![3usize]);
            assert_eq!(defensive_spies.len(), 0);
        } else {
            panic!("expected a run play");
        }
    } else {
        panic!("expected a play section");
    }
    if let Game9Section::End { player_of_game, home_drive, away_drive, .. } = &game.sections[2] {
        assert_eq!(*player_of_game, 77);
        assert_eq!(home_drive.len(), 1);
        assert_eq!(away_drive.len(), 0);
    } else {
        panic!("expected an end section");
    }
}

#[test]
fn week_two_games() {
    let mut bytes = build_week();
    let second = build_week();
    bytes.extend_from_slice(&second);
    let week = Week9Data::decode(&bytes).expect("two games should decode");
    assert_eq!(week.games.len(), 2);
}

#[test]
fn week_empty_stream_has_no_games() {
    let bytes: Vec<u8> = Vec::new();
    let week = Week9Data::decode(&bytes).expect("an empty week should decode");
    assert_eq!(week.games.len(), 0);
}

#[test]
fn blitz_count_mismatch_fails() {
    let mut bytes: Vec<u8> = Vec::new();
    put_start_section(&mut bytes);
    put_run_play_section(&mut bytes, 2, 0, false); // one blitzer, count says two
    put_end_section(&mut bytes);
    let err = Week9Data::decode(&bytes).expect_err("blitz count mismatch must fail");
    assert!(matches!(err, Fof9Error::StructuralInvariantViolation { .. }));
}

#[test]
fn spy_prediction_mismatch_fails() {
    let mut bytes: Vec<u8> = Vec::new();
    put_start_section(&mut bytes);
    put_run_play_section(&mut bytes, 1, 1, false); // coverage predicts a spy, none set
    put_end_section(&mut bytes);
    let err = Week9Data::decode(&bytes).expect_err("spy prediction mismatch must fail");
    assert!(matches!(err, Fof9Error::StructuralInvariantViolation { .. }));
}

#[test]
fn spy_prediction_match_decodes() {
    let mut bytes: Vec<u8> = Vec::new();
    put_start_section(&mut bytes);
    put_run_play_section(&mut bytes, 1, 1, true);
    put_end_section(&mut bytes);
    let week = Week9Data::decode(&bytes).expect("predicted spy should decode");
    if let Game9Section::Play { play, .. } = &week.games[0].sections[1] {
        if let GamePlay9::Run { defensive_spies, formation, .. } = play {
            assert_eq!(defensive_spies, &vec![7usize]);
            assert!(formation.defensive_special.has_spy());
        } else {
            panic!("expected a run play");
        }
    } else {
        panic!("expected a play section");
    }
}

#[test]
fn game_starting_with_play_fails() {
    let mut bytes: Vec<u8> = Vec::new();
    put_run_play_section(&mut bytes, 1, 0, false);
    put_end_section(&mut bytes);
    let err = Week9Data::decode(&bytes).expect_err("play-first game must fail");
    assert!(matches!(err, Fof9Error::StructuralInvariantViolation { .. }));
}

#[test]
fn game_without_end_fails() {
    let mut bytes: Vec<u8> = Vec::new();
    put_start_section(&mut bytes);
    put_run_play_section(&mut bytes, 1, 0, false);
    let err = Week9Data::decode(&bytes).expect_err("missing end section must fail");
    assert!(matches!(err, Fof9Error::UnexpectedEndOfSequence { .. }));
}

#[test]
fn field_yardline_names_the_side() {
    let bytes = build_week();
    let week = Week9Data::decode(&bytes).expect("week should decode");
    let game = &week.games[0];
    assert_eq!(game.field_yardline(30), "MET30");
    assert_eq!(game.field_yardline(75), "SPR25");
    assert_eq!(game.field_yardline(5), "MET05");
}

#[test]
fn blitz_position_names_the_defender() {
    let formation = FormationData9 {
        offensive_formation: OffensiveFormation9::Pro,
        offensive_personnel: OffensivePersonnel9::Op113,
        def_team: 1,
        defensive_personnel: DefensivePersonnel9::Man,
        defensive_coverage: DefensiveCoverage9::Five,
        defensive_front: DefensiveFront9::True34,
        defensive_special: SpecialCoverage9::Plain,
    };
    assert_eq!(formation.blitz_position(2), "SLB");
    assert_eq!(formation.blitz_position(9), "FS");
    let prevent = FormationData9 { defensive_personnel: DefensivePersonnel9::Prevent, ..formation };
    assert_eq!(prevent.blitz_position(5), "4");
}

#[test]
fn coverage_labels() {
    assert_eq!(DefensiveCoverage9::Five.label(), "Cover 2 Zone");
    assert_eq!(DefensiveFront9::Under43.label(), "43 Under");
    assert!(SpecialCoverage9::What41.has_spy());
    assert!(!SpecialCoverage9::What40.has_spy());
    assert!(!SpecialCoverage9::Plain.has_spy());
    assert_eq!(SpecialPlay9::TwoMinute.label(), "Two Minute Warning");
}

#[test]
fn extra_point_patterns_decode() {
    let mut bytes: Vec<u8> = Vec::new();
    put_u32(&mut bytes, 1);
    put_u32(&mut bytes, 1);
    put_words(&mut bytes, 5, 0);
    let (v, end) = ExtraPointResult9::decode(&bytes, 0).expect("pattern should decode");
    assert_eq!(end, 28);
    assert!(matches!(v, ExtraPointResult9::Kick));
    assert_eq!(v.label(), "Good");

    let mut two_point: Vec<u8> = Vec::new();
    put_words(&mut two_point, 3, 0);
    put_u32(&mut two_point, 1);
    put_u32(&mut two_point, 1);
    put_words(&mut two_point, 2, 0);
    let (v2, _) = ExtraPointResult9::decode(&two_point, 0).expect("pattern should decode");
    assert!(matches!(v2, ExtraPointResult9::TwoPointRun));

    let mut bad: Vec<u8> = Vec::new();
    put_u32(&mut bad, 9);
    put_words(&mut bad, 6, 0);
    let err = ExtraPointResult9::decode(&bad, 0).expect_err("unknown pattern must fail");
    assert!(matches!(err, Fof9Error::UnknownVariantTag { .. }));
}

#[test]
fn section_bad_magic_fails() {
    let mut bytes: Vec<u8> = Vec::new();
    put_u32(&mut bytes, 11);
    bytes.extend_from_slice(b"NOT_A_MAGIC");
    let err = Game9Section::decode(&bytes, 0).expect_err("unknown magic must fail");
    assert!(matches!(err, Fof9Error::MagicMismatch { .. }));
}

#[test]
fn game_decode_directly() {
    let bytes = build_week();
    let (game, end) = Game9Data::decode(&bytes, 0).expect("game should decode");
    assert_eq!(end, bytes.len());
    assert_eq!(game.sections.len(), 3);
    assert_eq!(game.team(0).name(), "Atoms");
    assert_eq!(game.team(1).name(), "Meteors");
}
