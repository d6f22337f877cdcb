//! The league-info file: a magic-anchored header, a runtime-counted
//! calendar, a fixed block of division records, a counted list of team
//! records, and several opaque fixed-size padding regions whose element
//! counts are discovered constants of the supported on-disk revision.
//!
//! This schema supports a write path: `encode` re-emits exactly the bytes
//! that `decode` consumed.

use vstd::prelude::*;
use crate::bytes::{
    read_u32, read_u32_block, push_u32, push_u32_block, expect_bytes, lemma_split,
    lemma_encode_list_push, encode_list, u32_le_bytes, u32s_bytes, u32_of_prefix, lemma_u32x3,
    lemma_u32x5, lemma_u32x13, lemma_add_assoc,
};
use crate::error::Fof9Error;
use crate::text::{FixedString, fixed_string_bytes, text_parse_end};

verus! {

/// The number of 32-bit words in the league-level opaque padding region.
pub const LEAGUE_PAD2_WORDS: usize = 112474;

/// The number of 32-bit words in the second league-level padding region.
pub const LEAGUE_PAD3_WORDS: usize = 522;

/// The number of division records in a league file.
pub const LEAGUE_DIVISIONS: usize = 8;

/// The number of plays in a team's playbook.
pub const TEAM_PLAYBOOK_PLAYS: usize = 200;

/// The number of 32-bit words in the team-level opaque padding region.
pub const TEAM_PAD1_WORDS: usize = 113462;

/// The number of 32-bit words in the second team-level padding region.
pub const TEAM_PAD2_WORDS: usize = 1047;

/// The fixed signature that anchors a league file.
pub open spec fn league_magic_bytes() -> Seq<u8> {
    seq![12u8, 0u8, 0u8, 0u8, 83u8, 84u8, 82u8, 85u8, 67u8, 84u8, 76u8, 69u8, 65u8, 71u8, 85u8,
        69u8]
}

/// The league-file signature: a length prefix and the ASCII word it counts.
pub fn league_magic() -> (r: Vec<u8>)
    ensures
        r@ =~= league_magic_bytes(),
{
    let r: Vec<u8> = vec![12u8, 0u8, 0u8, 0u8, 83u8, 84u8, 82u8, 85u8, 67u8, 84u8, 76u8, 69u8,
        65u8, 71u8, 85u8, 69u8];
    r
}

/// One calendar entry: ten 32-bit fields.
#[derive(Clone, Copy, Debug, PartialEq, Eq, Structural)]
pub struct CalendarItem {
    pub number: u32,
    pub month: u32,
    pub day: u32,
    pub year: u32,
    pub some1: u32,
    pub some2: u32,
    pub some3: u32,
    pub some4: u32,
    pub some5: u32,
    pub some6: u32,
}

/// The on-disk encoding of one calendar entry.
pub open spec fn calendar_item_bytes(c: CalendarItem) -> Seq<u8> {
    u32s_bytes(
        seq![c.number, c.month, c.day, c.year, c.some1, c.some2, c.some3, c.some4, c.some5,
            c.some6],
    )
}

/// The concatenated encodings of a calendar.
pub open spec fn calendar_list_bytes(s: Seq<CalendarItem>) -> Seq<u8> {
    encode_list(s, |c: CalendarItem| calendar_item_bytes(c))
}

impl CalendarItem {
    /// Decodes one calendar entry.
    pub fn decode(bytes: &Vec<u8>, pos: usize) -> (r: Result<(CalendarItem, usize), Fof9Error>)
        ensures
            r is Ok <==> pos + 40 <= bytes@.len(),
            r matches Ok((v, end)) ==> end == pos + 40 && bytes@.subrange(pos as int, end as int)
                =~= calendar_item_bytes(v),
            r matches Err(e) ==> e is TruncatedInput,
    {
        let (w, end) = match read_u32_block(bytes, pos, 10) {
            Ok(p) => p,
            Err(e) => {
                return Err(e);
            },
        };
        let v = CalendarItem {
            number: w[0],
            month: w[1],
            day: w[2],
            year: w[3],
            some1: w[4],
            some2: w[5],
            some3: w[6],
            some4: w[7],
            some5: w[8],
            some6: w[9],
        };
        proof {
            assert(w@ =~= seq![v.number, v.month, v.day, v.year, v.some1, v.some2, v.some3,
                v.some4, v.some5, v.some6]);
        }
        Ok((v, end))
    }

    /// Re-encodes one calendar entry.
    pub fn encode(&self, out: &mut Vec<u8>)
        ensures
            final(out)@ =~= old(out)@ + calendar_item_bytes(*self),
    {
        let w: Vec<u32> = vec![self.number, self.month, self.day, self.year, self.some1,
            self.some2, self.some3, self.some4, self.some5, self.some6];
        push_u32_block(out, &w);
    }
}

/// An unidentified twelve-word record observed in the file history.
#[derive(Clone, Copy, Debug, PartialEq, Eq, Structural)]
pub struct ItemB {
    pub data1: u32,
    pub data2: u32,
    pub data3: u32,
    pub data4: u32,
    pub data5: u32,
    pub data6: u32,
    pub data7: u32,
    pub data8: u32,
    pub data9: u32,
    pub data10: u32,
    pub data11: u32,
    pub data12: u32,
}

/// The on-disk encoding of one twelve-word record.
pub open spec fn item_b_bytes(b: ItemB) -> Seq<u8> {
    u32s_bytes(
        seq![b.data1, b.data2, b.data3, b.data4, b.data5, b.data6, b.data7, b.data8, b.data9,
            b.data10, b.data11, b.data12],
    )
}

impl ItemB {
    /// Decodes one twelve-word record.
    pub fn decode(bytes: &Vec<u8>, pos: usize) -> (r: Result<(ItemB, usize), Fof9Error>)
        ensures
            r is Ok <==> pos + 48 <= bytes@.len(),
            r matches Ok((v, end)) ==> end == pos + 48 && bytes@.subrange(pos as int, end as int)
                =~= item_b_bytes(v),
            r matches Err(e) ==> e is TruncatedInput,
    {
        let (w, end) = match read_u32_block(bytes, pos, 12) {
            Ok(p) => p,
            Err(e) => {
                return Err(e);
            },
        };
        let v = ItemB {
            data1: w[0],
            data2: w[1],
            data3: w[2],
            data4: w[3],
            data5: w[4],
            data6: w[5],
            data7: w[6],
            data8: w[7],
            data9: w[8],
            data10: w[9],
            data11: w[10],
            data12: w[11],
        };
        proof {
            assert(w@ =~= seq![v.data1, v.data2, v.data3, v.data4, v.data5, v.data6, v.data7,
                v.data8, v.data9, v.data10, v.data11, v.data12]);
        }
        Ok((v, end))
    }

    /// Re-encodes one twelve-word record.
    pub fn encode(&self, out: &mut Vec<u8>)
        ensures
            final(out)@ =~= old(out)@ + item_b_bytes(*self),
    {
        let w: Vec<u32> = vec![self.data1, self.data2, self.data3, self.data4, self.data5,
            self.data6, self.data7, self.data8, self.data9, self.data10, self.data11, self.data12];
        push_u32_block(out, &w);
    }
}

/// One division: its name and its team count.
#[derive(Clone, Debug)]
pub struct DivisionInfo {
    pub division_name: FixedString,
    pub number_teams: u32,
}

/// Where a division record starting at `pos` ends, or nothing where its
/// name or count word does not fit.
#[verifier::opaque]
pub open spec fn division_parse_end(b: Seq<u8>, pos: int) -> Option<int> {
    match text_parse_end(b, pos) {
        None => None,
        Some(t) => if t + 4 <= b.len() {
            Some(t + 4)
        } else {
            None
        },
    }
}

/// The concatenated parse of a fixed count of division records.
#[verifier::opaque]
pub open spec fn division_list_parse_end(b: Seq<u8>, pos: int, count: int) -> Option<int>
    decreases count,
{
    if count <= 0 {
        if 0 <= pos <= b.len() {
            Some(pos)
        } else {
            None
        }
    } else {
        match division_parse_end(b, pos) {
            None => None,
            Some(e) => division_list_parse_end(b, e, count - 1),
        }
    }
}

/// The on-disk encoding of one division record.
pub open spec fn division_info_bytes(d: DivisionInfo) -> Seq<u8> {
    fixed_string_bytes(d.division_name.string@) + u32_le_bytes(d.number_teams)
}

/// The concatenated encodings of the division list.
pub open spec fn division_list_bytes(s: Seq<DivisionInfo>) -> Seq<u8> {
    encode_list(s, |d: DivisionInfo| division_info_bytes(d))
}

impl DivisionInfo {
    /// A division record is storable when its name is.
    pub open spec fn wf(&self) -> bool {
        self.division_name.wf()
    }

    /// Decodes one division record.
    pub fn decode(bytes: &Vec<u8>, pos: usize) -> (r: Result<(DivisionInfo, usize), Fof9Error>)
        ensures
            r is Ok <==> division_parse_end(bytes@, pos as int) is Some,
            r matches Ok((v, end)) ==> v.wf() && pos <= end <= bytes@.len() && bytes@.subrange(
                pos as int,
                end as int,
            ) =~= division_info_bytes(v) && division_parse_end(bytes@, pos as int) == Some(
                end as int,
            ),
            r matches Err(e) ==> e is TruncatedInput,
    {
        proof {
            reveal(division_parse_end);
        }
        let (division_name, p1) = match FixedString::decode(bytes, pos) {
            Ok(p) => p,
            Err(e) => {
                return Err(e);
            },
        };
        let (number_teams, end) = match read_u32(bytes, p1) {
            Ok(p) => p,
            Err(e) => {
                return Err(e);
            },
        };
        let v = DivisionInfo { division_name, number_teams };
        proof {
            lemma_split(bytes@, pos as int, p1 as int, end as int);
        }
        Ok((v, end))
    }

    /// Re-encodes one division record.
    pub fn encode(&self, out: &mut Vec<u8>)
        requires
            self.wf(),
        ensures
            final(out)@ =~= old(out)@ + division_info_bytes(*self),
    {
        self.division_name.encode(out);
        push_u32(out, self.number_teams);
    }
}

/// One playbook entry: eighteen opaque words and the play's name.
#[derive(Clone, Debug)]
pub struct PlaybookPlayInfo {
    pub data: Vec<u32>,
    pub play_name: FixedString,
}

/// Where a playbook entry starting at `pos` ends, or nothing where its
/// block or name does not fit.
#[verifier::opaque]
pub open spec fn playbook_play_parse_end(b: Seq<u8>, pos: int) -> Option<int> {
    if 0 <= pos && pos + 72 <= b.len() {
        text_parse_end(b, pos + 72)
    } else {
        None
    }
}

/// The concatenated parse of a fixed count of playbook entries.
#[verifier::opaque]
pub open spec fn playbook_list_parse_end(b: Seq<u8>, pos: int, count: int) -> Option<int>
    decreases count,
{
    if count <= 0 {
        if 0 <= pos <= b.len() {
            Some(pos)
        } else {
            None
        }
    } else {
        match playbook_play_parse_end(b, pos) {
            None => None,
            Some(e) => playbook_list_parse_end(b, e, count - 1),
        }
    }
}

/// The on-disk encoding of one playbook entry.
pub open spec fn playbook_play_bytes(p: PlaybookPlayInfo) -> Seq<u8> {
    u32s_bytes(p.data@) + fixed_string_bytes(p.play_name.string@)
}

/// The concatenated encodings of a playbook.
pub open spec fn playbook_list_bytes(s: Seq<PlaybookPlayInfo>) -> Seq<u8> {
    encode_list(s, |p: PlaybookPlayInfo| playbook_play_bytes(p))
}

impl PlaybookPlayInfo {
    /// A playbook entry is storable when its opaque block has its fixed
    /// size and its name is storable.
    pub open spec fn wf(&self) -> bool {
        self.data@.len() == 18 && self.play_name.wf()
    }

    /// Decodes one playbook entry.
    pub fn decode(bytes: &Vec<u8>, pos: usize) -> (r: Result<
        (PlaybookPlayInfo, usize),
        Fof9Error,
    >)
        ensures
            r is Ok <==> playbook_play_parse_end(bytes@, pos as int) is Some,
            r matches Ok((v, end)) ==> v.wf() && pos <= end <= bytes@.len() && bytes@.subrange(
                pos as int,
                end as int,
            ) =~= playbook_play_bytes(v) && playbook_play_parse_end(bytes@, pos as int) == Some(
                end as int,
            ),
            r matches Err(e) ==> e is TruncatedInput,
    {
        proof {
            reveal(playbook_play_parse_end);
        }
        let (data, p1) = match read_u32_block(bytes, pos, 18) {
            Ok(p) => p,
            Err(e) => {
                return Err(e);
            },
        };
        let (play_name, end) = match FixedString::decode(bytes, p1) {
            Ok(p) => p,
            Err(e) => {
                return Err(e);
            },
        };
        let v = PlaybookPlayInfo { data, play_name };
        proof {
            lemma_split(bytes@, pos as int, p1 as int, end as int);
        }
        Ok((v, end))
    }

    /// Re-encodes one playbook entry.
    pub fn encode(&self, out: &mut Vec<u8>)
        requires
            self.wf(),
        ensures
            final(out)@ =~= old(out)@ + playbook_play_bytes(*self),
    {
        push_u32_block(out, &self.data);
        self.play_name.encode(out);
    }
}

/// One team record. The team identifier is persisted as the logical value
/// plus one; decode subtracts one and the write path adds it back.
#[derive(Clone, Debug)]
pub struct TeamInfo {
    pub team_number: u32,
    pub team_city: FixedString,
    pub team_name: FixedString,
    pub team_short: FixedString,
    pub data1: Vec<u32>,
    pub playbook: Vec<PlaybookPlayInfo>,
    pub pad1: Vec<u32>,
    pub data2: Vec<u32>,
    pub team_city2: FixedString,
    pub team_name2: FixedString,
    pub team_short2: FixedString,
    pub data3: Vec<u32>,
    pub pad2: Vec<u32>,
    pub data4: Vec<u32>,
}

/// Where a team record starting at `pos` ends, or nothing where the
/// stored team number is zero or a field does not fit the stream.
#[verifier::opaque]
pub open spec fn team_parse_end(b: Seq<u8>, pos: int) -> Option<int> {
    if !(0 <= pos && pos + 4 <= b.len() && u32_of_prefix(b, pos) != 0) {
        None
    } else {
        match text_parse_end(b, pos + 4) {
            None => None,
            Some(t1) => match text_parse_end(b, t1) {
                None => None,
                Some(t2) => match text_parse_end(b, t2) {
                    None => None,
                    Some(t3) => if t3 + 116 <= b.len() {
                        match playbook_list_parse_end(b, t3 + 116, 200) {
                            None => None,
                            Some(pb) => if pb + 453872 <= b.len() {
                                match text_parse_end(b, pb + 453872) {
                                    None => None,
                                    Some(u1) => match text_parse_end(b, u1) {
                                        None => None,
                                        Some(u2) => match text_parse_end(b, u2) {
                                            None => None,
                                            Some(u3) => if u3 + 4432 <= b.len() {
                                                Some(u3 + 4432)
                                            } else {
                                                None
                                            },
                                        },
                                    },
                                }
                            } else {
                                None
                            },
                        }
                    } else {
                        None
                    },
                },
            },
        }
    }
}

/// The concatenated parse of a counted list of team records.
#[verifier::opaque]
pub open spec fn team_list_parse_end(b: Seq<u8>, pos: int, count: int) -> Option<int>
    decreases count,
{
    if count <= 0 {
        if 0 <= pos <= b.len() {
            Some(pos)
        } else {
            None
        }
    } else {
        match team_parse_end(b, pos) {
            None => None,
            Some(e) => team_list_parse_end(b, e, count - 1),
        }
    }
}

/// The on-disk encoding of one team record, the team number stored as its
/// logical value plus one.
pub open spec fn team_info_bytes(t: TeamInfo) -> Seq<u8> {
    u32_le_bytes((t.team_number + 1) as u32) + (fixed_string_bytes(t.team_city.string@) + (
    fixed_string_bytes(t.team_name.string@) + (fixed_string_bytes(t.team_short.string@) + (
    u32s_bytes(t.data1@) + (playbook_list_bytes(t.playbook@) + (u32s_bytes(t.pad1@) + (u32s_bytes(
        t.data2@,
    ) + (fixed_string_bytes(t.team_city2.string@) + (fixed_string_bytes(t.team_name2.string@) + (
    fixed_string_bytes(t.team_short2.string@) + (u32s_bytes(t.data3@) + (u32s_bytes(t.pad2@)
        + u32s_bytes(t.data4@)))))))))))))
}

/// The concatenated encodings of the team list.
pub open spec fn team_list_bytes(s: Seq<TeamInfo>) -> Seq<u8> {
    encode_list(s, |t: TeamInfo| team_info_bytes(t))
}


/// Appending a team's encoding to a prefix equals appending its fields one
/// after another.
proof fn lemma_team_bytes_appended(o: Seq<u8>, t: TeamInfo)
    ensures
        o + team_info_bytes(t) == o + u32_le_bytes((t.team_number + 1) as u32)
            + fixed_string_bytes(t.team_city.string@) + fixed_string_bytes(t.team_name.string@)
            + fixed_string_bytes(t.team_short.string@) + u32s_bytes(t.data1@)
            + playbook_list_bytes(t.playbook@) + u32s_bytes(t.pad1@) + u32s_bytes(t.data2@)
            + fixed_string_bytes(t.team_city2.string@) + fixed_string_bytes(t.team_name2.string@)
            + fixed_string_bytes(t.team_short2.string@) + u32s_bytes(t.data3@) + u32s_bytes(
            t.pad2@,
        ) + u32s_bytes(t.data4@),
{
    let a1 = u32_le_bytes((t.team_number + 1) as u32);
    let a2 = fixed_string_bytes(t.team_city.string@);
    let a3 = fixed_string_bytes(t.team_name.string@);
    let a4 = fixed_string_bytes(t.team_short.string@);
    let a5 = u32s_bytes(t.data1@);
    let a6 = playbook_list_bytes(t.playbook@);
    let a7 = u32s_bytes(t.pad1@);
    let a8 = u32s_bytes(t.data2@);
    let a9 = fixed_string_bytes(t.team_city2.string@);
    let a10 = fixed_string_bytes(t.team_name2.string@);
    let a11 = fixed_string_bytes(t.team_short2.string@);
    let a12 = u32s_bytes(t.data3@);
    let a13 = u32s_bytes(t.pad2@);
    let a14 = u32s_bytes(t.data4@);
    let s13 = a13 + a14;
    let s12 = a12 + s13;
    let s11 = a11 + s12;
    let s10 = a10 + s11;
    let s9 = a9 + s10;
    let s8 = a8 + s9;
    let s7 = a7 + s8;
    let s6 = a6 + s7;
    let s5 = a5 + s6;
    let s4 = a4 + s5;
    let s3 = a3 + s4;
    let s2 = a2 + s3;
    lemma_add_assoc(o, a1, s2);
    lemma_add_assoc(o + a1, a2, s3);
    lemma_add_assoc(o + a1 + a2, a3, s4);
    lemma_add_assoc(o + a1 + a2 + a3, a4, s5);
    lemma_add_assoc(o + a1 + a2 + a3 + a4, a5, s6);
    lemma_add_assoc(o + a1 + a2 + a3 + a4 + a5, a6, s7);
    lemma_add_assoc(o + a1 + a2 + a3 + a4 + a5 + a6, a7, s8);
    lemma_add_assoc(o + a1 + a2 + a3 + a4 + a5 + a6 + a7, a8, s9);
    lemma_add_assoc(o + a1 + a2 + a3 + a4 + a5 + a6 + a7 + a8, a9, s10);
    lemma_add_assoc(o + a1 + a2 + a3 + a4 + a5 + a6 + a7 + a8 + a9, a10, s11);
    lemma_add_assoc(o + a1 + a2 + a3 + a4 + a5 + a6 + a7 + a8 + a9 + a10, a11, s12);
    lemma_add_assoc(o + a1 + a2 + a3 + a4 + a5 + a6 + a7 + a8 + a9 + a10 + a11, a12, s13);
    lemma_add_assoc(o + a1 + a2 + a3 + a4 + a5 + a6 + a7 + a8 + a9 + a10 + a11 + a12, a13, a14);
}

impl TeamInfo {
    /// A team record is storable when the stored team number fits, every
    /// text field is storable, and every fixed block has its fixed size.
    pub open spec fn wf(&self) -> bool {
        &&& self.team_number < u32::MAX
        &&& self.team_city.wf()
        &&& self.team_name.wf()
        &&& self.team_short.wf()
        &&& self.data1@.len() == 29
        &&& self.playbook@.len() == TEAM_PLAYBOOK_PLAYS
        &&& forall|i: int| 0 <= i < self.playbook@.len() ==> self.playbook@[i].wf()
        &&& self.pad1@.len() == TEAM_PAD1_WORDS
        &&& self.data2@.len() == 6
        &&& self.team_city2.wf()
        &&& self.team_name2.wf()
        &&& self.team_short2.wf()
        &&& self.data3@.len() == 56
        &&& self.pad2@.len() == TEAM_PAD2_WORDS
        &&& self.data4@.len() == 5
    }

    /// Decodes one team record, recovering the logical team number from
    /// the stored value.
    pub fn decode(bytes: &Vec<u8>, pos: usize) -> (r: Result<(TeamInfo, usize), Fof9Error>)
        ensures
            r is Ok <==> team_parse_end(bytes@, pos as int) is Some,
            r matches Ok((v, end)) ==> v.wf() && pos < end <= bytes@.len() && bytes@.subrange(
                pos as int,
                end as int,
            ) =~= team_info_bytes(v) && team_parse_end(bytes@, pos as int) == Some(end as int),
            r matches Err(e) ==> e is TruncatedInput || e is StructuralInvariantViolation,
    {
        proof {
            reveal(team_parse_end);
        }
        let (stored, p1) = match read_u32(bytes, pos) {
            Ok(p) => p,
            Err(e) => {
                return Err(e);
            },
        };
        if stored == 0 {
            return Err(Fof9Error::StructuralInvariantViolation { pos });
        }
        let team_number = stored - 1;
        let (team_city, p2) = match FixedString::decode(bytes, p1) {
            Ok(p) => p,
            Err(e) => {
                return Err(e);
            },
        };
        let (team_name, p3) = match FixedString::decode(bytes, p2) {
            Ok(p) => p,
            Err(e) => {
                return Err(e);
            },
        };
        let (team_short, p4) = match FixedString::decode(bytes, p3) {
            Ok(p) => p,
            Err(e) => {
                return Err(e);
            },
        };
        let (data1, p5) = match read_u32_block(bytes, p4, 29) {
            Ok(p) => p,
            Err(e) => {
                return Err(e);
            },
        };
        let (playbook, p6) = match read_playbook(bytes, p5) {
            Ok(p) => p,
            Err(e) => {
                return Err(e);
            },
        };
        let (pad1, p7) = match read_u32_block(bytes, p6, TEAM_PAD1_WORDS) {
            Ok(p) => p,
            Err(e) => {
                return Err(e);
            },
        };
        let (data2, p8) = match read_u32_block(bytes, p7, 6) {
            Ok(p) => p,
            Err(e) => {
                return Err(e);
            },
        };
        let (team_city2, p9) = match FixedString::decode(bytes, p8) {
            Ok(p) => p,
            Err(e) => {
                return Err(e);
            },
        };
        let (team_name2, p10) = match FixedString::decode(bytes, p9) {
            Ok(p) => p,
            Err(e) => {
                return Err(e);
            },
        };
        let (team_short2, p11) = match FixedString::decode(bytes, p10) {
            Ok(p) => p,
            Err(e) => {
                return Err(e);
            },
        };
        let (data3, p12) = match read_u32_block(bytes, p11, 56) {
            Ok(p) => p,
            Err(e) => {
                return Err(e);
            },
        };
        let (pad2, p13) = match read_u32_block(bytes, p12, TEAM_PAD2_WORDS) {
            Ok(p) => p,
            Err(e) => {
                return Err(e);
            },
        };
        let (data4, end) = match read_u32_block(bytes, p13, 5) {
            Ok(p) => p,
            Err(e) => {
                return Err(e);
            },
        };
        let v = TeamInfo {
            team_number,
            team_city,
            team_name,
            team_short,
            data1,
            playbook,
            pad1,
            data2,
            team_city2,
            team_name2,
            team_short2,
            data3,
            pad2,
            data4,
        };
        proof {
            assert((v.team_number + 1) as u32 == stored);
            lemma_split(bytes@, p12 as int, p13 as int, end as int);
            lemma_split(bytes@, p11 as int, p12 as int, end as int);
            lemma_split(bytes@, p10 as int, p11 as int, end as int);
            lemma_split(bytes@, p9 as int, p10 as int, end as int);
            lemma_split(bytes@, p8 as int, p9 as int, end as int);
            lemma_split(bytes@, p7 as int, p8 as int, end as int);
            lemma_split(bytes@, p6 as int, p7 as int, end as int);
            lemma_split(bytes@, p5 as int, p6 as int, end as int);
            lemma_split(bytes@, p4 as int, p5 as int, end as int);
            lemma_split(bytes@, p3 as int, p4 as int, end as int);
            lemma_split(bytes@, p2 as int, p3 as int, end as int);
            lemma_split(bytes@, p1 as int, p2 as int, end as int);
            lemma_split(bytes@, pos as int, p1 as int, end as int);
            assert(bytes@.subrange(pos as int, end as int) =~= team_info_bytes(v));
        }
        Ok((v, end))
    }

    /// Re-encodes one team record, storing the team number plus one.
    #[verifier::rlimit(100)]
    pub fn encode(&self, out: &mut Vec<u8>)
        requires
            self.wf(),
        ensures
            final(out)@ =~= old(out)@ + team_info_bytes(*self),
    {
        push_u32(out, self.team_number + 1);
        self.team_city.encode(out);
        self.team_name.encode(out);
        self.team_short.encode(out);
        push_u32_block(out, &self.data1);
        let mut i: usize = 0;
        let ghost mid = out@;
        while i < self.playbook.len()
            invariant
                i <= self.playbook@.len(),
                forall|j: int| 0 <= j < self.playbook@.len() ==> self.playbook@[j].wf(),
                out@ =~= mid + playbook_list_bytes(self.playbook@.subrange(0, i as int)),
            decreases self.playbook@.len() - i,
        {
            proof {
                lemma_encode_list_push(
                    self.playbook@.subrange(0, i as int),
                    |p: PlaybookPlayInfo| playbook_play_bytes(p),
                    self.playbook@[i as int],
                );
                assert(self.playbook@.subrange(0, i + 1 as int) =~= self.playbook@.subrange(
                    0,
                    i as int,
                ).push(self.playbook@[i as int]));
            }
            let p = &self.playbook[i];
            p.encode(out);
            i = i + 1;
        }
        proof {
            assert(self.playbook@.subrange(0, self.playbook@.len() as int) =~= self.playbook@);
        }
        push_u32_block(out, &self.pad1);
        push_u32_block(out, &self.data2);
        self.team_city2.encode(out);
        self.team_name2.encode(out);
        self.team_short2.encode(out);
        push_u32_block(out, &self.data3);
        push_u32_block(out, &self.pad2);
        push_u32_block(out, &self.data4);
        proof {
            lemma_team_bytes_appended(old(out)@, *self);
        }
    }
}

/// Reads the fixed-count playbook of one team.
#[verifier::rlimit(100)]
fn read_playbook(bytes: &Vec<u8>, pos: usize) -> (r: Result<(Vec<PlaybookPlayInfo>, usize), Fof9Error>)
    ensures
        r is Ok <==> playbook_list_parse_end(bytes@, pos as int, TEAM_PLAYBOOK_PLAYS as int)
            is Some,
        r matches Ok((v, end)) ==> v@.len() == TEAM_PLAYBOOK_PLAYS && pos <= end <= bytes@.len()
            && bytes@.subrange(pos as int, end as int) =~= playbook_list_bytes(v@) && (forall|
            i: int,
        | 0 <= i < v@.len() ==> v@[i].wf()) && playbook_list_parse_end(
            bytes@,
            pos as int,
            TEAM_PLAYBOOK_PLAYS as int,
        ) == Some(end as int),
        r matches Err(e) ==> e is TruncatedInput,
{
    if pos > bytes.len() {
        proof {
            reveal(playbook_list_parse_end);
            reveal(playbook_play_parse_end);
        }
        return Err(Fof9Error::TruncatedInput { pos });
    }
    proof {
        reveal(playbook_list_parse_end);
    }
    let mut items: Vec<PlaybookPlayInfo> = Vec::new();
    let mut cur: usize = pos;
    let mut i: usize = 0;
    proof {
        assert(bytes@.subrange(pos as int, pos as int) =~= Seq::<u8>::empty());
    }
    while i < TEAM_PLAYBOOK_PLAYS
        invariant
            i == items@.len() <= TEAM_PLAYBOOK_PLAYS,
            pos <= cur <= bytes@.len(),
            bytes@.subrange(pos as int, cur as int) =~= playbook_list_bytes(items@),
            forall|j: int| 0 <= j < items@.len() ==> items@[j].wf(),
            playbook_list_parse_end(bytes@, pos as int, TEAM_PLAYBOOK_PLAYS as int)
                == playbook_list_parse_end(bytes@, cur as int, TEAM_PLAYBOOK_PLAYS - i),
        decreases TEAM_PLAYBOOK_PLAYS - i,
    {
        proof {
            reveal(playbook_list_parse_end);
        }
        let (v, next) = match PlaybookPlayInfo::decode(bytes, cur) {
            Ok(p) => p,
            Err(e) => {
                return Err(e);
            },
        };
        proof {
            lemma_encode_list_push(items@, |p: PlaybookPlayInfo| playbook_play_bytes(p), v);
            lemma_split(bytes@, pos as int, cur as int, next as int);
        }
        items.push(v);
        cur = next;
        i = i + 1;
    }
    Ok((items, cur))
}

/// Where the header group of a league file ends: the signature, five
/// leading words, and the runtime-counted calendar.
#[verifier::opaque]
pub open spec fn league_head_parse_end(b: Seq<u8>) -> Option<int> {
    if !(40 <= b.len() && b.subrange(0, 16) == league_magic_bytes()) {
        None
    } else {
        let e = 40 + 40 * u32_of_prefix(b, 36);
        if e <= b.len() {
            Some(e)
        } else {
            None
        }
    }
}

/// Where the middle group starting at `pos` ends: the structural counters
/// and the league-level names.
#[verifier::opaque]
pub open spec fn league_mid_parse_end(b: Seq<u8>, pos: int) -> Option<int> {
    if !(0 <= pos && pos + 52 <= b.len()) {
        None
    } else {
        match text_parse_end(b, pos + 52) {
            None => None,
            Some(t1) => match text_parse_end(b, t1) {
                None => None,
                Some(t2) => if t2 + 4 <= b.len() {
                    match text_parse_end(b, t2 + 4) {
                        None => None,
                        Some(t3) => match text_parse_end(b, t3) {
                            None => None,
                            Some(t4) => match text_parse_end(b, t4) {
                                None => None,
                                Some(t5) => text_parse_end(b, t5),
                            },
                        },
                    }
                } else {
                    None
                },
            },
        }
    }
}

/// Where the division group starting at `pos` ends: the fixed division
/// list, the structure name, and the calendar path.
#[verifier::opaque]
pub open spec fn league_div_parse_end(b: Seq<u8>, pos: int) -> Option<int> {
    match division_list_parse_end(b, pos, 8) {
        None => None,
        Some(d) => match text_parse_end(b, d) {
            None => None,
            Some(t) => if t + 12 <= b.len() {
                match text_parse_end(b, t + 12) {
                    None => None,
                    Some(t2) => if t2 + 40 <= b.len() {
                        Some(t2 + 40)
                    } else {
                        None
                    },
                }
            } else {
                None
            },
        },
    }
}

/// Where the tail group starting at `pos` ends: the padding regions, the
/// counted team list, and the trailing region, which must reach the end of
/// the stream in whole words.
#[verifier::opaque]
pub open spec fn league_tail_parse_end(b: Seq<u8>, pos: int) -> Option<int> {
    if !(0 <= pos && pos + 451988 <= b.len()) {
        None
    } else {
        match team_list_parse_end(b, pos + 451988, u32_of_prefix(b, pos + 451984) as int) {
            None => None,
            Some(p21) => if (b.len() - p21) % 4 == 0 {
                Some(b.len() as int)
            } else {
                None
            },
        }
    }
}

/// Where a whole league file ends, or nothing where a group is invalid or
/// the separately stored team counter disagrees with the team list prefix.
#[verifier::opaque]
pub open spec fn league_parse_end(b: Seq<u8>) -> Option<int> {
    match league_head_parse_end(b) {
        None => None,
        Some(p4) => match league_mid_parse_end(b, p4) {
            None => None,
            Some(p12) => match league_div_parse_end(b, p12) {
                None => None,
                Some(p17) => match league_tail_parse_end(b, p17) {
                    None => None,
                    Some(end) => if u32_of_prefix(b, p4 + 8) == u32_of_prefix(b, p17 + 451984) {
                        Some(end)
                    } else {
                        None
                    },
                },
            },
        },
    }
}

/// The header group of a league file: the signature, five leading words,
/// and the runtime-counted calendar.
pub open spec fn league_head_bytes(l: League9Data) -> Seq<u8> {
    league_magic_bytes() + (u32s_bytes(seq![l.data_version, l.some2, l.some3, l.some4, l.some5]) + (
    u32_le_bytes(l.calendar@.len() as u32) + calendar_list_bytes(l.calendar@)))
}

/// The middle group: structural counters and the league-level names.
pub open spec fn league_mid_bytes(l: League9Data) -> Seq<u8> {
    u32s_bytes(
        seq![l.pre_1, l.unknown1, l.number_teams, l.unknown3, l.unknown4, l.unknown5,
            l.number_divisions, l.unknown7, l.unknown8, l.unknown9, l.unknown10, l.unknown11,
            l.unknown12],
    ) + (fixed_string_bytes(l.championship_name.string@) + (fixed_string_bytes(
        l.league_name.string@,
    ) + (u32_le_bytes(l.unknown15) + (fixed_string_bytes(l.conference1_name.string@) + (
    fixed_string_bytes(l.conference1_short.string@) + (fixed_string_bytes(
        l.conference2_name.string@,
    ) + fixed_string_bytes(l.conference2_short.string@)))))))
}

/// The division group: the fixed division list, the structure name, three
/// trailing words, and the calendar path.
pub open spec fn league_div_bytes(l: League9Data) -> Seq<u8> {
    division_list_bytes(l.divisions@) + (fixed_string_bytes(l.structure_name.string@) + (
    u32s_bytes(seq![l.unknown20, l.unknown21, l.unknown22]) + (fixed_string_bytes(
        l.calendar_path.string@,
    ) + u32s_bytes(l.ignored1@))))
}

/// The tail group: the opaque padding regions, the counted team list, and
/// the trailing region consumed to end-of-stream.
pub open spec fn league_tail_bytes(l: League9Data) -> Seq<u8> {
    u32s_bytes(l.pad2@) + (u32s_bytes(l.pad3@) + (u32_le_bytes(l.teams_len) + (team_list_bytes(
        l.teams@,
    ) + u32s_bytes(l.pad4@))))
}

/// The full on-disk encoding of a league file.
pub open spec fn league_bytes(l: League9Data) -> Seq<u8> {
    league_head_bytes(l) + (league_mid_bytes(l) + (league_div_bytes(l) + league_tail_bytes(l)))
}

/// One league save: the complete in-memory tree decoded from a league file.
#[derive(Clone, Debug)]
pub struct League9Data {
    pub data_version: u32,
    pub some2: u32,
    pub some3: u32,
    pub some4: u32,
    pub some5: u32,
    pub calendar: Vec<CalendarItem>,
    pub pre_1: u32,
    pub unknown1: u32,
    pub number_teams: u32,
    pub unknown3: u32,
    pub unknown4: u32,
    pub unknown5: u32,
    pub number_divisions: u32,
    pub unknown7: u32,
    pub unknown8: u32,
    pub unknown9: u32,
    pub unknown10: u32,
    pub unknown11: u32,
    pub unknown12: u32,
    pub championship_name: FixedString,
    pub league_name: FixedString,
    pub unknown15: u32,
    pub conference1_name: FixedString,
    pub conference1_short: FixedString,
    pub conference2_name: FixedString,
    pub conference2_short: FixedString,
    pub divisions: Vec<DivisionInfo>,
    pub structure_name: FixedString,
    pub unknown20: u32,
    pub unknown21: u32,
    pub unknown22: u32,
    pub calendar_path: FixedString,
    pub ignored1: Vec<u32>,
    pub pad2: Vec<u32>,
    pub pad3: Vec<u32>,
    pub teams_len: u32,
    pub teams: Vec<TeamInfo>,
    pub pad4: Vec<u32>,
}

impl League9Data {
    /// A league is storable when its counted lists fit their prefixes, its
    /// fixed blocks have their discovered sizes, its text fields are
    /// storable, and the separately stored team counters agree with the
    /// team list itself.
    pub open spec fn wf(&self) -> bool {
        &&& self.calendar@.len() <= u32::MAX
        &&& self.championship_name.wf()
        &&& self.league_name.wf()
        &&& self.conference1_name.wf()
        &&& self.conference1_short.wf()
        &&& self.conference2_name.wf()
        &&& self.conference2_short.wf()
        &&& self.divisions@.len() == LEAGUE_DIVISIONS
        &&& forall|i: int| 0 <= i < self.divisions@.len() ==> self.divisions@[i].wf()
        &&& self.structure_name.wf()
        &&& self.calendar_path.wf()
        &&& self.ignored1@.len() == 10
        &&& self.pad2@.len() == LEAGUE_PAD2_WORDS
        &&& self.pad3@.len() == LEAGUE_PAD3_WORDS
        &&& self.teams@.len() == self.teams_len
        &&& self.number_teams == self.teams_len
        &&& forall|i: int| 0 <= i < self.teams@.len() ==> self.teams@[i].wf()
    }

    /// Decodes a whole league file. The stream is consumed exactly to its
    /// end; the separately stored `number_teams` counter must equal the
    /// length prefix of the team list, or the decode fails rather than
    /// silently diverging.
    #[verifier::rlimit(100)]
    pub fn decode(bytes: &Vec<u8>) -> (r: Result<League9Data, Fof9Error>)
        ensures
            r is Ok <==> league_parse_end(bytes@) is Some,
            r matches Ok(v) ==> v.wf() && bytes@ =~= league_bytes(v),
            r matches Err(e) ==> e is TruncatedInput || e is MagicMismatch
                || e is StructuralInvariantViolation,
    {
        proof {
            reveal(league_parse_end);
        }
        let ((head, calendar), p4) = match read_league_head(bytes) {
            Ok(p) => p,
            Err(e) => {
                return Err(e);
            },
        };
        let ((mid, championship_name, league_name, unknown15, conference1_name, conference1_short,
            conference2_name, conference2_short), p12) = match read_league_mid(bytes, p4) {
            Ok(p) => p,
            Err(e) => {
                return Err(e);
            },
        };
        let ((divisions, structure_name, tail3, calendar_path, ignored1), p17) =
            match read_league_div(bytes, p12) {
            Ok(p) => p,
            Err(e) => {
                return Err(e);
            },
        };
        let ((pad2, pad3, teams_len, teams, pad4), end) = match read_league_tail(bytes, p17) {
            Ok(p) => p,
            Err(e) => {
                return Err(e);
            },
        };
        if mid[2] != teams_len {
            // `number_teams` is stored well before the team list; the two
            // counters must agree or the decode must fail.
            return Err(Fof9Error::StructuralInvariantViolation { pos: p17 });
        }
        let v = league_from_parts(
            bytes,
            head,
            calendar,
            mid,
            championship_name,
            league_name,
            unknown15,
            conference1_name,
            conference1_short,
            conference2_name,
            conference2_short,
            divisions,
            structure_name,
            tail3,
            calendar_path,
            ignored1,
            pad2,
            pad3,
            teams_len,
            teams,
            pad4,
            Ghost(p4 as int),
            Ghost(p12 as int),
            Ghost(p17 as int),
        );
        Ok(v)
    }

    /// Re-encodes a whole league file, recomputing the calendar count from
    /// the calendar itself.
    pub fn encode(&self) -> (r: Vec<u8>)
        requires
            self.wf(),
        ensures
            r@ =~= league_bytes(*self),
    {
        let mut out: Vec<u8> = Vec::new();
        self.encode_head(&mut out);
        self.encode_mid(&mut out);
        self.encode_div(&mut out);
        self.encode_tail(&mut out);
        proof {
            assert(out@ =~= league_bytes(*self));
        }
        out
    }

    /// Writes the signature, the five leading words, and the calendar.
    #[verifier::rlimit(100)]
    fn encode_head(&self, out: &mut Vec<u8>)
        requires
            self.wf(),
        ensures
            final(out)@ =~= old(out)@ + league_head_bytes(*self),
    {
        let magic = league_magic();
        let mut mi: usize = 0;
        let ghost g0 = out@;
        while mi < magic.len()
            invariant
                mi <= magic@.len(),
                out@ =~= g0 + magic@.subrange(0, mi as int),
            decreases magic@.len() - mi,
        {
            out.push(magic[mi]);
            proof {
                assert(out@ =~= g0 + magic@.subrange(0, mi + 1 as int));
            }
            mi = mi + 1;
        }
        proof {
            assert(magic@.subrange(0, magic@.len() as int) =~= magic@);
        }
        let headw: Vec<u32> = vec![self.data_version, self.some2, self.some3, self.some4,
            self.some5];
        push_u32_block(out, &headw);
        push_u32(out, self.calendar.len() as u32);
        let ghost g_cal = out@;
        let mut i: usize = 0;
        while i < self.calendar.len()
            invariant
                i <= self.calendar@.len(),
                out@ =~= g_cal + calendar_list_bytes(self.calendar@.subrange(0, i as int)),
            decreases self.calendar@.len() - i,
        {
            proof {
                lemma_encode_list_push(
                    self.calendar@.subrange(0, i as int),
                    |c: CalendarItem| calendar_item_bytes(c),
                    self.calendar@[i as int],
                );
                assert(self.calendar@.subrange(0, i + 1 as int) =~= self.calendar@.subrange(
                    0,
                    i as int,
                ).push(self.calendar@[i as int]));
            }
            let c = self.calendar[i];
            c.encode(out);
            i = i + 1;
        }
        proof {
            assert(self.calendar@.subrange(0, self.calendar@.len() as int) =~= self.calendar@);
        }
    }

    /// Writes the structural counters and the league-level names.
    #[verifier::rlimit(100)]
    fn encode_mid(&self, out: &mut Vec<u8>)
        requires
            self.wf(),
        ensures
            final(out)@ =~= old(out)@ + league_mid_bytes(*self),
    {
        let midw: Vec<u32> = vec![self.pre_1, self.unknown1, self.number_teams, self.unknown3,
            self.unknown4, self.unknown5, self.number_divisions, self.unknown7, self.unknown8,
            self.unknown9, self.unknown10, self.unknown11, self.unknown12];
        push_u32_block(out, &midw);
        self.championship_name.encode(out);
        self.league_name.encode(out);
        push_u32(out, self.unknown15);
        self.conference1_name.encode(out);
        self.conference1_short.encode(out);
        self.conference2_name.encode(out);
        self.conference2_short.encode(out);
    }

    /// Writes the division list, the structure name, and the calendar path.
    #[verifier::rlimit(100)]
    fn encode_div(&self, out: &mut Vec<u8>)
        requires
            self.wf(),
        ensures
            final(out)@ =~= old(out)@ + league_div_bytes(*self),
    {
        let ghost g_mid = out@;
        let mut j: usize = 0;
        while j < self.divisions.len()
            invariant
                j <= self.divisions@.len(),
                forall|k: int| 0 <= k < self.divisions@.len() ==> self.divisions@[k].wf(),
                out@ =~= g_mid + division_list_bytes(self.divisions@.subrange(0, j as int)),
            decreases self.divisions@.len() - j,
        {
            proof {
                lemma_encode_list_push(
                    self.divisions@.subrange(0, j as int),
                    |d: DivisionInfo| division_info_bytes(d),
                    self.divisions@[j as int],
                );
                assert(self.divisions@.subrange(0, j + 1 as int) =~= self.divisions@.subrange(
                    0,
                    j as int,
                ).push(self.divisions@[j as int]));
            }
            let d = &self.divisions[j];
            d.encode(out);
            j = j + 1;
        }
        proof {
            assert(self.divisions@.subrange(0, self.divisions@.len() as int) =~= self.divisions@);
        }
        self.structure_name.encode(out);
        let tail3w: Vec<u32> = vec![self.unknown20, self.unknown21, self.unknown22];
        push_u32_block(out, &tail3w);
        self.calendar_path.encode(out);
        push_u32_block(out, &self.ignored1);
    }

    /// Writes the padding regions, the counted team list, and the trailing
    /// region, recomputing the team count from the team list itself.
    #[verifier::rlimit(100)]
    fn encode_tail(&self, out: &mut Vec<u8>)
        requires
            self.wf(),
        ensures
            final(out)@ =~= old(out)@ + league_tail_bytes(*self),
    {
        push_u32_block(out, &self.pad2);
        push_u32_block(out, &self.pad3);
        push_u32(out, self.teams_len);
        let ghost g_teams = out@;
        let mut k: usize = 0;
        while k < self.teams.len()
            invariant
                k <= self.teams@.len(),
                forall|m: int| 0 <= m < self.teams@.len() ==> self.teams@[m].wf(),
                out@ =~= g_teams + team_list_bytes(self.teams@.subrange(0, k as int)),
            decreases self.teams@.len() - k,
        {
            proof {
                lemma_encode_list_push(
                    self.teams@.subrange(0, k as int),
                    |t: TeamInfo| team_info_bytes(t),
                    self.teams@[k as int],
                );
                assert(self.teams@.subrange(0, k + 1 as int) =~= self.teams@.subrange(
                    0,
                    k as int,
                ).push(self.teams@[k as int]));
            }
            let t = &self.teams[k];
            t.encode(out);
            k = k + 1;
        }
        proof {
            assert(self.teams@.subrange(0, self.teams@.len() as int) =~= self.teams@);
        }
        push_u32_block(out, &self.pad4);
    }
}

/// Assembles a decoded league from its four groups of parts, each already
/// matched to its byte range.
#[verifier::rlimit(100)]
fn league_from_parts(
    bytes: &Vec<u8>,
    head: Vec<u32>,
    calendar: Vec<CalendarItem>,
    mid: Vec<u32>,
    championship_name: FixedString,
    league_name: FixedString,
    unknown15: u32,
    conference1_name: FixedString,
    conference1_short: FixedString,
    conference2_name: FixedString,
    conference2_short: FixedString,
    divisions: Vec<DivisionInfo>,
    structure_name: FixedString,
    tail3: Vec<u32>,
    calendar_path: FixedString,
    ignored1: Vec<u32>,
    pad2: Vec<u32>,
    pad3: Vec<u32>,
    teams_len: u32,
    teams: Vec<TeamInfo>,
    pad4: Vec<u32>,
    Ghost(p4): Ghost<int>,
    Ghost(p12): Ghost<int>,
    Ghost(p17): Ghost<int>,
) -> (v: League9Data)
    requires
        0 <= p4 <= p12 <= p17 <= bytes@.len(),
        head@.len() == 5,
        calendar@.len() <= u32::MAX,
        bytes@.subrange(0, p4) == league_magic_bytes() + (u32s_bytes(head@) + (u32_le_bytes(
            calendar@.len() as u32,
        ) + calendar_list_bytes(calendar@))),
        mid@.len() == 13,
        championship_name.wf(),
        league_name.wf(),
        conference1_name.wf(),
        conference1_short.wf(),
        conference2_name.wf(),
        conference2_short.wf(),
        bytes@.subrange(p4, p12) == u32s_bytes(mid@) + (fixed_string_bytes(
            championship_name.string@,
        ) + (fixed_string_bytes(league_name.string@) + (u32_le_bytes(unknown15) + (
        fixed_string_bytes(conference1_name.string@) + (fixed_string_bytes(
            conference1_short.string@,
        ) + (fixed_string_bytes(conference2_name.string@) + fixed_string_bytes(
            conference2_short.string@,
        ))))))),
        divisions@.len() == LEAGUE_DIVISIONS,
        forall|i: int| 0 <= i < divisions@.len() ==> divisions@[i].wf(),
        structure_name.wf(),
        tail3@.len() == 3,
        calendar_path.wf(),
        ignored1@.len() == 10,
        bytes@.subrange(p12, p17) == division_list_bytes(divisions@) + (fixed_string_bytes(
            structure_name.string@,
        ) + (u32s_bytes(tail3@) + (fixed_string_bytes(calendar_path.string@) + u32s_bytes(
            ignored1@,
        )))),
        pad2@.len() == LEAGUE_PAD2_WORDS,
        pad3@.len() == LEAGUE_PAD3_WORDS,
        teams@.len() == teams_len,
        forall|i: int| 0 <= i < teams@.len() ==> teams@[i].wf(),
        bytes@.subrange(p17, bytes@.len() as int) == u32s_bytes(pad2@) + (u32s_bytes(pad3@) + (
        u32_le_bytes(teams_len) + (team_list_bytes(teams@) + u32s_bytes(pad4@)))),
        mid@[2] == teams_len,
    ensures
        v.wf(),
        bytes@ =~= league_bytes(v),
{
    let v = League9Data {
        data_version: head[0],
        some2: head[1],
        some3: head[2],
        some4: head[3],
        some5: head[4],
        calendar,
        pre_1: mid[0],
        unknown1: mid[1],
        number_teams: mid[2],
        unknown3: mid[3],
        unknown4: mid[4],
        unknown5: mid[5],
        number_divisions: mid[6],
        unknown7: mid[7],
        unknown8: mid[8],
        unknown9: mid[9],
        unknown10: mid[10],
        unknown11: mid[11],
        unknown12: mid[12],
        championship_name,
        league_name,
        unknown15,
        conference1_name,
        conference1_short,
        conference2_name,
        conference2_short,
        divisions,
        structure_name,
        unknown20: tail3[0],
        unknown21: tail3[1],
        unknown22: tail3[2],
        calendar_path,
        ignored1,
        pad2,
        pad3,
        teams_len,
        teams,
        pad4,
    };
    proof {
        lemma_u32x5(head@, v.data_version, v.some2, v.some3, v.some4, v.some5);
        lemma_u32x13(mid@, v.pre_1, v.unknown1, v.number_teams, v.unknown3, v.unknown4, v.unknown5,
            v.number_divisions, v.unknown7, v.unknown8, v.unknown9, v.unknown10, v.unknown11,
            v.unknown12);
        lemma_u32x3(tail3@, v.unknown20, v.unknown21, v.unknown22);
        lemma_league_assemble(bytes@, v, p4, p12, p17, bytes@.len() as int);
        assert(bytes@ =~= bytes@.subrange(0, bytes@.len() as int));
    }
    v
}

/// Reads the signature, the five leading words, and the counted calendar.
fn read_league_head(bytes: &Vec<u8>) -> (r: Result<
    ((Vec<u32>, Vec<CalendarItem>), usize),
    Fof9Error,
>)
    ensures
        r is Ok <==> league_head_parse_end(bytes@) is Some,
        r matches Ok(((head, cal), end)) ==> head@.len() == 5 && cal@.len() <= u32::MAX && end
            <= bytes@.len() && bytes@.subrange(0, end as int) =~= league_magic_bytes() + (
        u32s_bytes(head@) + (u32_le_bytes(cal@.len() as u32) + calendar_list_bytes(cal@)))
            && league_head_parse_end(bytes@) == Some(end as int),
        r matches Err(e) ==> e is TruncatedInput || e is MagicMismatch,
{
    proof {
        reveal(league_head_parse_end);
    }
    let magic = league_magic();
    let p1 = match expect_bytes(bytes, 0, &magic) {
        Ok(p) => p,
        Err(e) => {
            return Err(e);
        },
    };
    let (head, p2) = match read_u32_block(bytes, p1, 5) {
        Ok(p) => p,
        Err(e) => {
            return Err(e);
        },
    };
    let (calendar_length, p3) = match read_u32(bytes, p2) {
        Ok(p) => p,
        Err(e) => {
            return Err(e);
        },
    };
    let (cal, end) = match read_calendar(bytes, p3, calendar_length as usize) {
        Ok(p) => p,
        Err(e) => {
            return Err(e);
        },
    };
    proof {
        assert(cal@.len() as u32 == calendar_length);
        lemma_split(bytes@, p2 as int, p3 as int, end as int);
        lemma_split(bytes@, p1 as int, p2 as int, end as int);
        lemma_split(bytes@, 0, p1 as int, end as int);
    }
    Ok(((head, cal), end))
}

/// Reads the structural counters and the league-level names.
#[verifier::rlimit(30)]
fn read_league_mid(bytes: &Vec<u8>, pos: usize) -> (r: Result<
    ((Vec<u32>, FixedString, FixedString, u32, FixedString, FixedString, FixedString, FixedString),
        usize),
    Fof9Error,
>)
    ensures
        r is Ok <==> league_mid_parse_end(bytes@, pos as int) is Some,
        r matches Ok((parts, end)) ==> league_mid_parse_end(bytes@, pos as int) == Some(
            end as int,
        ),
        r matches Ok(((mid, ch, ln, u15, c1, c1s, c2, c2s), end)) ==> mid@.len() == 13 && mid@[2]
            == u32_of_prefix(bytes@, pos + 8) && ch.wf()
            && ln.wf() && c1.wf() && c1s.wf() && c2.wf() && c2s.wf() && pos <= end <= bytes@.len()
            && bytes@.subrange(pos as int, end as int) =~= u32s_bytes(mid@) + (fixed_string_bytes(
            ch.string@,
        ) + (fixed_string_bytes(ln.string@) + (u32_le_bytes(u15) + (fixed_string_bytes(c1.string@)
            + (fixed_string_bytes(c1s.string@) + (fixed_string_bytes(c2.string@)
            + fixed_string_bytes(c2s.string@))))))),
        r matches Err(e) ==> e is TruncatedInput,
{
    proof {
        reveal(league_mid_parse_end);
    }
    let (mid, p5) = match read_u32_block(bytes, pos, 13) {
        Ok(p) => p,
        Err(e) => {
            return Err(e);
        },
    };
    let (ch, p6) = match FixedString::decode(bytes, p5) {
        Ok(p) => p,
        Err(e) => {
            return Err(e);
        },
    };
    let (ln, p7) = match FixedString::decode(bytes, p6) {
        Ok(p) => p,
        Err(e) => {
            return Err(e);
        },
    };
    let (u15, p8) = match read_u32(bytes, p7) {
        Ok(p) => p,
        Err(e) => {
            return Err(e);
        },
    };
    let (c1, p9) = match FixedString::decode(bytes, p8) {
        Ok(p) => p,
        Err(e) => {
            return Err(e);
        },
    };
    let (c1s, p10) = match FixedString::decode(bytes, p9) {
        Ok(p) => p,
        Err(e) => {
            return Err(e);
        },
    };
    let (c2, p11) = match FixedString::decode(bytes, p10) {
        Ok(p) => p,
        Err(e) => {
            return Err(e);
        },
    };
    let (c2s, end) = match FixedString::decode(bytes, p11) {
        Ok(p) => p,
        Err(e) => {
            return Err(e);
        },
    };
    proof {
        lemma_split(bytes@, p10 as int, p11 as int, end as int);
        lemma_split(bytes@, p9 as int, p10 as int, end as int);
        lemma_split(bytes@, p8 as int, p9 as int, end as int);
        lemma_split(bytes@, p7 as int, p8 as int, end as int);
        lemma_split(bytes@, p6 as int, p7 as int, end as int);
        lemma_split(bytes@, p5 as int, p6 as int, end as int);
        lemma_split(bytes@, pos as int, p5 as int, end as int);
    }
    Ok(((mid, ch, ln, u15, c1, c1s, c2, c2s), end))
}

/// Reads the division list, the structure name, and the calendar path.
#[verifier::rlimit(30)]
fn read_league_div(bytes: &Vec<u8>, pos: usize) -> (r: Result<
    ((Vec<DivisionInfo>, FixedString, Vec<u32>, FixedString, Vec<u32>), usize),
    Fof9Error,
>)
    ensures
        r is Ok <==> league_div_parse_end(bytes@, pos as int) is Some,
        r matches Ok((parts, end)) ==> league_div_parse_end(bytes@, pos as int) == Some(
            end as int,
        ),
        r matches Ok(((divs, sn, t3, cp, ig), end)) ==> divs@.len() == LEAGUE_DIVISIONS && (forall|
            i: int,
        | 0 <= i < divs@.len() ==> divs@[i].wf()) && sn.wf() && t3@.len() == 3 && cp.wf()
            && ig@.len() == 10 && pos <= end <= bytes@.len() && bytes@.subrange(
            pos as int,
            end as int,
        ) =~= division_list_bytes(divs@) + (fixed_string_bytes(sn.string@) + (u32s_bytes(t3@) + (
        fixed_string_bytes(cp.string@) + u32s_bytes(ig@)))),
        r matches Err(e) ==> e is TruncatedInput,
{
    proof {
        reveal(league_div_parse_end);
    }
    let (divs, p13) = match read_divisions(bytes, pos) {
        Ok(p) => p,
        Err(e) => {
            return Err(e);
        },
    };
    let (sn, p14) = match FixedString::decode(bytes, p13) {
        Ok(p) => p,
        Err(e) => {
            return Err(e);
        },
    };
    let (t3, p15) = match read_u32_block(bytes, p14, 3) {
        Ok(p) => p,
        Err(e) => {
            return Err(e);
        },
    };
    let (cp, p16) = match FixedString::decode(bytes, p15) {
        Ok(p) => p,
        Err(e) => {
            return Err(e);
        },
    };
    let (ig, end) = match read_u32_block(bytes, p16, 10) {
        Ok(p) => p,
        Err(e) => {
            return Err(e);
        },
    };
    proof {
        lemma_split(bytes@, p15 as int, p16 as int, end as int);
        lemma_split(bytes@, p14 as int, p15 as int, end as int);
        lemma_split(bytes@, p13 as int, p14 as int, end as int);
        lemma_split(bytes@, pos as int, p13 as int, end as int);
    }
    Ok(((divs, sn, t3, cp, ig), end))
}

/// Reads the padding regions, the counted team list, and the trailing
/// region, which runs to the end of the stream.
#[verifier::rlimit(30)]
fn read_league_tail(bytes: &Vec<u8>, pos: usize) -> (r: Result<
    ((Vec<u32>, Vec<u32>, u32, Vec<TeamInfo>, Vec<u32>), usize),
    Fof9Error,
>)
    ensures
        r is Ok <==> league_tail_parse_end(bytes@, pos as int) is Some,
        r matches Ok(((pad2, pad3, tl, teams, pad4), end)) ==> pad2@.len() == LEAGUE_PAD2_WORDS
            && pad3@.len() == LEAGUE_PAD3_WORDS && teams@.len() == tl && tl == u32_of_prefix(
            bytes@,
            pos + 451984,
        ) && (forall|i: int|
            0 <= i < teams@.len() ==> teams@[i].wf()) && pos <= end == bytes@.len()
            && bytes@.subrange(pos as int, end as int) =~= u32s_bytes(pad2@) + (u32s_bytes(pad3@)
            + (u32_le_bytes(tl) + (team_list_bytes(teams@) + u32s_bytes(pad4@)))),
        r matches Err(e) ==> e is TruncatedInput || e is StructuralInvariantViolation,
{
    proof {
        reveal(league_tail_parse_end);
    }
    let (pad2, p18) = match read_u32_block(bytes, pos, LEAGUE_PAD2_WORDS) {
        Ok(p) => p,
        Err(e) => {
            return Err(e);
        },
    };
    let (pad3, p19) = match read_u32_block(bytes, p18, LEAGUE_PAD3_WORDS) {
        Ok(p) => p,
        Err(e) => {
            return Err(e);
        },
    };
    let (tl, p20) = match read_u32(bytes, p19) {
        Ok(p) => p,
        Err(e) => {
            return Err(e);
        },
    };
    let (teams, p21) = match read_teams(bytes, p20, tl as usize) {
        Ok(p) => p,
        Err(e) => {
            return Err(e);
        },
    };
    let n = bytes.len();
    if (n - p21) % 4 != 0 {
        return Err(Fof9Error::TruncatedInput { pos: p21 });
    }
    let (pad4, end) = match read_u32_block(bytes, p21, (n - p21) / 4) {
        Ok(p) => p,
        Err(e) => {
            return Err(e);
        },
    };
    proof {
        assert(p21 + 4 * ((n - p21) / 4) == n) by (nonlinear_arith)
            requires
                0 <= p21 <= n,
                (n - p21) % 4 == 0,
        ;
        lemma_split(bytes@, p20 as int, p21 as int, end as int);
        lemma_split(bytes@, p19 as int, p20 as int, end as int);
        lemma_split(bytes@, p18 as int, p19 as int, end as int);
        lemma_split(bytes@, pos as int, p18 as int, end as int);
    }
    Ok(((pad2, pad3, tl, teams, pad4), end))
}

/// A league file whose four groups lie back to back is the encoding of the
/// assembled record.
proof fn lemma_league_assemble(b: Seq<u8>, v: League9Data, p4: int, p12: int, p17: int, end: int)
    requires
        0 <= p4 <= p12 <= p17 <= end <= b.len(),
        b.subrange(0, p4) == league_head_bytes(v),
        b.subrange(p4, p12) == league_mid_bytes(v),
        b.subrange(p12, p17) == league_div_bytes(v),
        b.subrange(p17, end) == league_tail_bytes(v),
    ensures
        b.subrange(0, end) == league_bytes(v),
{
    lemma_split(b, p12, p17, end);
    lemma_split(b, p4, p12, end);
    lemma_split(b, 0, p4, end);
}

/// Reads the runtime-counted calendar list.
#[verifier::rlimit(100)]
fn read_calendar(bytes: &Vec<u8>, pos: usize, count: usize) -> (r: Result<
    (Vec<CalendarItem>, usize),
    Fof9Error,
>)
    ensures
        r is Ok <==> pos + 40 * count <= bytes@.len(),
        r matches Ok((v, end)) ==> v@.len() == count && end == pos + 40 * count <= bytes@.len()
            && bytes@.subrange(pos as int, end as int) =~= calendar_list_bytes(v@),
        r matches Err(e) ==> e is TruncatedInput,
{
    if pos > bytes.len() {
        proof {
            assert(pos + 40 * count > bytes@.len()) by (nonlinear_arith)
                requires
                    pos > bytes@.len(),
                    count >= 0,
            ;
        }
        return Err(Fof9Error::TruncatedInput { pos });
    }
    let mut items: Vec<CalendarItem> = Vec::new();
    let mut cur: usize = pos;
    let mut i: usize = 0;
    proof {
        assert(bytes@.subrange(pos as int, pos as int) =~= Seq::<u8>::empty());
    }
    while i < count
        invariant
            i == items@.len() <= count,
            cur == pos + 40 * i,
            cur <= bytes@.len(),
            bytes@.subrange(pos as int, cur as int) =~= calendar_list_bytes(items@),
        decreases count - i,
    {
        let (v, next) = match CalendarItem::decode(bytes, cur) {
            Ok(p) => p,
            Err(e) => {
                return Err(e);
            },
        };
        proof {
            lemma_encode_list_push(items@, |c: CalendarItem| calendar_item_bytes(c), v);
            lemma_split(bytes@, pos as int, cur as int, next as int);
        }
        items.push(v);
        cur = next;
        i = i + 1;
    }
    Ok((items, cur))
}

/// Reads the fixed-count division list.
#[verifier::rlimit(100)]
fn read_divisions(bytes: &Vec<u8>, pos: usize) -> (r: Result<(Vec<DivisionInfo>, usize), Fof9Error>)
    ensures
        r is Ok <==> division_list_parse_end(bytes@, pos as int, LEAGUE_DIVISIONS as int) is Some,
        r matches Ok((v, end)) ==> v@.len() == LEAGUE_DIVISIONS && pos <= end <= bytes@.len()
            && bytes@.subrange(pos as int, end as int) =~= division_list_bytes(v@) && (forall|
            i: int,
        | 0 <= i < v@.len() ==> v@[i].wf()) && division_list_parse_end(
            bytes@,
            pos as int,
            LEAGUE_DIVISIONS as int,
        ) == Some(end as int),
        r matches Err(e) ==> e is TruncatedInput,
{
    if pos > bytes.len() {
        proof {
            reveal(division_list_parse_end);
            reveal(division_parse_end);
        }
        return Err(Fof9Error::TruncatedInput { pos });
    }
    proof {
        reveal(division_list_parse_end);
    }
    let mut items: Vec<DivisionInfo> = Vec::new();
    let mut cur: usize = pos;
    let mut i: usize = 0;
    proof {
        assert(bytes@.subrange(pos as int, pos as int) =~= Seq::<u8>::empty());
    }
    while i < LEAGUE_DIVISIONS
        invariant
            i == items@.len() <= LEAGUE_DIVISIONS,
            pos <= cur <= bytes@.len(),
            bytes@.subrange(pos as int, cur as int) =~= division_list_bytes(items@),
            forall|j: int| 0 <= j < items@.len() ==> items@[j].wf(),
            division_list_parse_end(bytes@, pos as int, LEAGUE_DIVISIONS as int)
                == division_list_parse_end(bytes@, cur as int, LEAGUE_DIVISIONS - i),
        decreases LEAGUE_DIVISIONS - i,
    {
        proof {
            reveal(division_list_parse_end);
        }
        let (v, next) = match DivisionInfo::decode(bytes, cur) {
            Ok(p) => p,
            Err(e) => {
                return Err(e);
            },
        };
        proof {
            lemma_encode_list_push(items@, |d: DivisionInfo| division_info_bytes(d), v);
            lemma_split(bytes@, pos as int, cur as int, next as int);
        }
        items.push(v);
        cur = next;
        i = i + 1;
    }
    Ok((items, cur))
}

/// Reads the counted team list.
#[verifier::rlimit(100)]
fn read_teams(bytes: &Vec<u8>, pos: usize, count: usize) -> (r: Result<
    (Vec<TeamInfo>, usize),
    Fof9Error,
>)
    ensures
        r is Ok <==> team_list_parse_end(bytes@, pos as int, count as int) is Some,
        r matches Ok((v, end)) ==> v@.len() == count && pos <= end <= bytes@.len()
            && bytes@.subrange(pos as int, end as int) =~= team_list_bytes(v@) && (forall|i: int|
            0 <= i < v@.len() ==> v@[i].wf()) && team_list_parse_end(
            bytes@,
            pos as int,
            count as int,
        ) == Some(end as int),
        r matches Err(e) ==> e is TruncatedInput || e is StructuralInvariantViolation,
{
    if pos > bytes.len() {
        proof {
            reveal(team_list_parse_end);
            reveal(team_parse_end);
        }
        return Err(Fof9Error::TruncatedInput { pos });
    }
    proof {
        reveal(team_list_parse_end);
    }
    let mut items: Vec<TeamInfo> = Vec::new();
    let mut cur: usize = pos;
    let mut i: usize = 0;
    proof {
        assert(bytes@.subrange(pos as int, pos as int) =~= Seq::<u8>::empty());
    }
    while i < count
        invariant
            i == items@.len() <= count,
            pos <= cur <= bytes@.len(),
            bytes@.subrange(pos as int, cur as int) =~= team_list_bytes(items@),
            forall|j: int| 0 <= j < items@.len() ==> items@[j].wf(),
            team_list_parse_end(bytes@, pos as int, count as int) == team_list_parse_end(
                bytes@,
                cur as int,
                count - i,
            ),
        decreases count - i,
    {
        proof {
            reveal(team_list_parse_end);
        }
        let (v, next) = match TeamInfo::decode(bytes, cur) {
            Ok(p) => p,
            Err(e) => {
                return Err(e);
            },
        };
        proof {
            lemma_encode_list_push(items@, |t: TeamInfo| team_info_bytes(t), v);
            lemma_split(bytes@, pos as int, cur as int, next as int);
        }
        items.push(v);
        cur = next;
        i = i + 1;
    }
    Ok((items, cur))
}

/// Law: a well-formed league never lets its separately stored team counter
/// diverge from its team list; a decode that cannot establish this fails
/// instead.
pub proof fn lemma_league_team_count(l: League9Data)
    requires
        l.wf(),
    ensures
        l.number_teams == l.teams@.len(),
{
}

/// Law: a team's identifier is persisted as the logical value plus one;
/// the leading word of its encoding carries the stored form, so a decode
/// recovers the stored value minus one and a re-encode adds it back.
pub proof fn lemma_team_number_storage(t: TeamInfo)
    requires
        t.wf(),
    ensures
        team_info_bytes(t).subrange(0, 4) == u32_le_bytes((t.team_number + 1) as u32),
{
    assert(team_info_bytes(t).subrange(0, 4) =~= u32_le_bytes((t.team_number + 1) as u32));
}

} // verus!
