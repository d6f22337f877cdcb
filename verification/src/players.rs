//! The players roster file: a magic-anchored header and a counted list of
//! player records, followed by several independently counted groups, plus a
//! legacy shape in which players are listed one by one until a zero-valued
//! leading tag marks the end.

use vstd::prelude::*;
use vstd::string::StringExecFns;
use crate::bytes::{
    read_u32, read_u32_block, expect_bytes, lemma_split, lemma_encode_list_push, encode_list,
    u32_le_bytes, u32s_bytes, u32_of_prefix,
};
use crate::text::text_parse_end;
use crate::error::Fof9Error;
use crate::text::{FixedString, fixed_string_bytes};

verus! {

/// The fixed signature that anchors a players file.
pub open spec fn player_magic_bytes() -> Seq<u8> {
    seq![12u8, 0u8, 0u8, 0u8, 83u8, 84u8, 82u8, 85u8, 67u8, 84u8, 80u8, 76u8, 65u8, 89u8, 69u8,
        82u8]
}

/// The players-file signature: a length prefix and the ASCII word it counts.
pub fn player_magic() -> (r: Vec<u8>)
    ensures
        r@ =~= player_magic_bytes(),
{
    let r: Vec<u8> = vec![12u8, 0u8, 0u8, 0u8, 83u8, 84u8, 82u8, 85u8, 67u8, 84u8, 80u8, 76u8,
        65u8, 89u8, 69u8, 82u8];
    r
}

/// A player's position on the field, stored as a 32-bit tag.
#[derive(Clone, Copy, Debug, PartialEq, Eq, Structural)]
pub enum PlayerPosition9 {
    QB,
    RB,
    FB,
    TE,
    FL,
    SE,
    LT,
    LG,
    C,
    RG,
    RT,
    P,
    K,
    LDE,
    LDT,
    NT,
    RDT,
    RDE,
    SLB,
    SILB,
    MLB,
    WILB,
    WLB,
    LCB,
    RCB,
    SS,
    FS,
    LS,
}

/// The stored tag of each position.
pub open spec fn position_tag(p: PlayerPosition9) -> u32 {
    match p {
        PlayerPosition9::QB => 1,
        PlayerPosition9::RB => 2,
        PlayerPosition9::FB => 3,
        PlayerPosition9::TE => 4,
        PlayerPosition9::FL => 5,
        PlayerPosition9::SE => 6,
        PlayerPosition9::LT => 7,
        PlayerPosition9::LG => 8,
        PlayerPosition9::C => 9,
        PlayerPosition9::RG => 10,
        PlayerPosition9::RT => 11,
        PlayerPosition9::P => 12,
        PlayerPosition9::K => 13,
        PlayerPosition9::LDE => 14,
        PlayerPosition9::LDT => 15,
        PlayerPosition9::NT => 16,
        PlayerPosition9::RDT => 17,
        PlayerPosition9::RDE => 18,
        PlayerPosition9::SLB => 19,
        PlayerPosition9::SILB => 20,
        PlayerPosition9::MLB => 21,
        PlayerPosition9::WILB => 22,
        PlayerPosition9::WLB => 23,
        PlayerPosition9::LCB => 24,
        PlayerPosition9::RCB => 25,
        PlayerPosition9::SS => 26,
        PlayerPosition9::FS => 27,
        PlayerPosition9::LS => 28,
    }
}

/// The on-disk encoding of a position.
pub open spec fn position_bytes(p: PlayerPosition9) -> Seq<u8> {
    u32_le_bytes(position_tag(p))
}

/// Whether a stored tag falls in the closed set of this enumeration.
pub open spec fn position_tag_valid(t: u32) -> bool {
    1 <= t <= 28
}

impl PlayerPosition9 {
    /// Decodes a position tag; tags outside the closed set fail.
    pub fn decode(bytes: &Vec<u8>, pos: usize) -> (r: Result<(PlayerPosition9, usize), Fof9Error>)
        ensures
            r matches Ok((v, end)) ==> end == pos + 4 <= bytes@.len() && bytes@.subrange(
                pos as int,
                end as int,
            ) =~= position_bytes(v),
            r is Ok <==> pos + 4 <= bytes@.len() && position_tag_valid(
                u32_of_prefix(bytes@, pos as int),
            ),
            r matches Err(e) ==> e is TruncatedInput || e is UnknownVariantTag,
            r matches Err(e) ==> (e is TruncatedInput <==> pos + 4 > bytes@.len()),
    {
        let (tag, end) = match read_u32(bytes, pos) {
            Ok(p) => p,
            Err(e) => {
                return Err(e);
            },
        };
        proof {
            crate::bytes::lemma_u32_le_injective(tag);
            assert(u32_of_prefix(bytes@, pos as int) == tag);
        }
        let v = match tag {
            1u32 => PlayerPosition9::QB,
            2u32 => PlayerPosition9::RB,
            3u32 => PlayerPosition9::FB,
            4u32 => PlayerPosition9::TE,
            5u32 => PlayerPosition9::FL,
            6u32 => PlayerPosition9::SE,
            7u32 => PlayerPosition9::LT,
            8u32 => PlayerPosition9::LG,
            9u32 => PlayerPosition9::C,
            10u32 => PlayerPosition9::RG,
            11u32 => PlayerPosition9::RT,
            12u32 => PlayerPosition9::P,
            13u32 => PlayerPosition9::K,
            14u32 => PlayerPosition9::LDE,
            15u32 => PlayerPosition9::LDT,
            16u32 => PlayerPosition9::NT,
            17u32 => PlayerPosition9::RDT,
            18u32 => PlayerPosition9::RDE,
            19u32 => PlayerPosition9::SLB,
            20u32 => PlayerPosition9::SILB,
            21u32 => PlayerPosition9::MLB,
            22u32 => PlayerPosition9::WILB,
            23u32 => PlayerPosition9::WLB,
            24u32 => PlayerPosition9::LCB,
            25u32 => PlayerPosition9::RCB,
            26u32 => PlayerPosition9::SS,
            27u32 => PlayerPosition9::FS,
            28u32 => PlayerPosition9::LS,
            _ => {
                return Err(Fof9Error::UnknownVariantTag { pos, tag });
            },
        };
        Ok((v, end))
    }

    /// The display label of the position.
    pub fn label(&self) -> (r: String)
        ensures
            r@ == self.spec_label(),
    {
        match self {
            PlayerPosition9::QB => String::from_str("QB"),
            PlayerPosition9::RB => String::from_str("RB"),
            PlayerPosition9::FB => String::from_str("FB"),
            PlayerPosition9::TE => String::from_str("TE"),
            PlayerPosition9::FL => String::from_str("FL"),
            PlayerPosition9::SE => String::from_str("SE"),
            PlayerPosition9::LT => String::from_str("LT"),
            PlayerPosition9::LG => String::from_str("LG"),
            PlayerPosition9::C => String::from_str("C"),
            PlayerPosition9::RG => String::from_str("RG"),
            PlayerPosition9::RT => String::from_str("RT"),
            PlayerPosition9::P => String::from_str("P"),
            PlayerPosition9::K => String::from_str("K"),
            PlayerPosition9::LDE => String::from_str("LDE"),
            PlayerPosition9::LDT => String::from_str("LDT"),
            PlayerPosition9::NT => String::from_str("NT"),
            PlayerPosition9::RDT => String::from_str("RDT"),
            PlayerPosition9::RDE => String::from_str("RDE"),
            PlayerPosition9::SLB => String::from_str("SLB"),
            PlayerPosition9::SILB => String::from_str("SILB"),
            PlayerPosition9::MLB => String::from_str("MLB"),
            PlayerPosition9::WILB => String::from_str("WILB"),
            PlayerPosition9::WLB => String::from_str("WLB"),
            PlayerPosition9::LCB => String::from_str("LCB"),
            PlayerPosition9::RCB => String::from_str("RCB"),
            PlayerPosition9::SS => String::from_str("SS"),
            PlayerPosition9::FS => String::from_str("FS"),
            PlayerPosition9::LS => String::from_str("LS"),
        }
    }

    /// The display label, at the spec level.
    pub open spec fn spec_label(&self) -> Seq<char> {
        match self {
            PlayerPosition9::QB => "QB"@,
            PlayerPosition9::RB => "RB"@,
            PlayerPosition9::FB => "FB"@,
            PlayerPosition9::TE => "TE"@,
            PlayerPosition9::FL => "FL"@,
            PlayerPosition9::SE => "SE"@,
            PlayerPosition9::LT => "LT"@,
            PlayerPosition9::LG => "LG"@,
            PlayerPosition9::C => "C"@,
            PlayerPosition9::RG => "RG"@,
            PlayerPosition9::RT => "RT"@,
            PlayerPosition9::P => "P"@,
            PlayerPosition9::K => "K"@,
            PlayerPosition9::LDE => "LDE"@,
            PlayerPosition9::LDT => "LDT"@,
            PlayerPosition9::NT => "NT"@,
            PlayerPosition9::RDT => "RDT"@,
            PlayerPosition9::RDE => "RDE"@,
            PlayerPosition9::SLB => "SLB"@,
            PlayerPosition9::SILB => "SILB"@,
            PlayerPosition9::MLB => "MLB"@,
            PlayerPosition9::WILB => "WILB"@,
            PlayerPosition9::WLB => "WLB"@,
            PlayerPosition9::LCB => "LCB"@,
            PlayerPosition9::RCB => "RCB"@,
            PlayerPosition9::SS => "SS"@,
            PlayerPosition9::FS => "FS"@,
            PlayerPosition9::LS => "LS"@,
        }
    }
}

/// A player's position group, a coarser classification than the position,
/// stored as its own 32-bit tag.
#[derive(Clone, Copy, Debug, PartialEq, Eq, Structural)]
pub enum PlayerPositionGroup9 {
    QB,
    RB,
    FB,
    TE,
    WR,
    C,
    OG,
    OT,
    P,
    K,
    DE,
    DT,
    ILB,
    OLB,
    CB,
    S,
    LS,
}

/// The stored tag of each position group.
pub open spec fn position_group_tag(p: PlayerPositionGroup9) -> u32 {
    match p {
        PlayerPositionGroup9::QB => 1,
        PlayerPositionGroup9::RB => 2,
        PlayerPositionGroup9::FB => 3,
        PlayerPositionGroup9::TE => 4,
        PlayerPositionGroup9::WR => 5,
        PlayerPositionGroup9::C => 6,
        PlayerPositionGroup9::OG => 7,
        PlayerPositionGroup9::OT => 8,
        PlayerPositionGroup9::P => 9,
        PlayerPositionGroup9::K => 10,
        PlayerPositionGroup9::DE => 11,
        PlayerPositionGroup9::DT => 12,
        PlayerPositionGroup9::ILB => 13,
        PlayerPositionGroup9::OLB => 14,
        PlayerPositionGroup9::CB => 15,
        PlayerPositionGroup9::S => 16,
        PlayerPositionGroup9::LS => 17,
    }
}

/// The on-disk encoding of a position group.
pub open spec fn position_group_bytes(p: PlayerPositionGroup9) -> Seq<u8> {
    u32_le_bytes(position_group_tag(p))
}

/// Whether a stored tag falls in the closed set of this enumeration.
pub open spec fn position_group_tag_valid(t: u32) -> bool {
    1 <= t <= 17
}

impl PlayerPositionGroup9 {
    /// Decodes a position-group tag; tags outside the closed set fail.
    pub fn decode(bytes: &Vec<u8>, pos: usize) -> (r: Result<
        (PlayerPositionGroup9, usize),
        Fof9Error,
    >)
        ensures
            r matches Ok((v, end)) ==> end == pos + 4 <= bytes@.len() && bytes@.subrange(
                pos as int,
                end as int,
            ) =~= position_group_bytes(v),
            r is Ok <==> pos + 4 <= bytes@.len() && position_group_tag_valid(
                u32_of_prefix(bytes@, pos as int),
            ),
            r matches Err(e) ==> e is TruncatedInput || e is UnknownVariantTag,
            r matches Err(e) ==> (e is TruncatedInput <==> pos + 4 > bytes@.len()),
    {
        let (tag, end) = match read_u32(bytes, pos) {
            Ok(p) => p,
            Err(e) => {
                return Err(e);
            },
        };
        proof {
            crate::bytes::lemma_u32_le_injective(tag);
            assert(u32_of_prefix(bytes@, pos as int) == tag);
        }
        let v = match tag {
            1u32 => PlayerPositionGroup9::QB,
            2u32 => PlayerPositionGroup9::RB,
            3u32 => PlayerPositionGroup9::FB,
            4u32 => PlayerPositionGroup9::TE,
            5u32 => PlayerPositionGroup9::WR,
            6u32 => PlayerPositionGroup9::C,
            7u32 => PlayerPositionGroup9::OG,
            8u32 => PlayerPositionGroup9::OT,
            9u32 => PlayerPositionGroup9::P,
            10u32 => PlayerPositionGroup9::K,
            11u32 => PlayerPositionGroup9::DE,
            12u32 => PlayerPositionGroup9::DT,
            13u32 => PlayerPositionGroup9::ILB,
            14u32 => PlayerPositionGroup9::OLB,
            15u32 => PlayerPositionGroup9::CB,
            16u32 => PlayerPositionGroup9::S,
            17u32 => PlayerPositionGroup9::LS,
            _ => {
                return Err(Fof9Error::UnknownVariantTag { pos, tag });
            },
        };
        Ok((v, end))
    }

    /// The display label of the position group.
    pub fn label(&self) -> (r: String)
        ensures
            r@ == self.spec_label(),
    {
        match self {
            PlayerPositionGroup9::QB => String::from_str("QB"),
            PlayerPositionGroup9::RB => String::from_str("RB"),
            PlayerPositionGroup9::FB => String::from_str("FB"),
            PlayerPositionGroup9::TE => String::from_str("TE"),
            PlayerPositionGroup9::WR => String::from_str("WR"),
            PlayerPositionGroup9::C => String::from_str("C"),
            PlayerPositionGroup9::OG => String::from_str("OG"),
            PlayerPositionGroup9::OT => String::from_str("OT"),
            PlayerPositionGroup9::P => String::from_str("P"),
            PlayerPositionGroup9::K => String::from_str("K"),
            PlayerPositionGroup9::DE => String::from_str("DE"),
            PlayerPositionGroup9::DT => String::from_str("DT"),
            PlayerPositionGroup9::ILB => String::from_str("ILB"),
            PlayerPositionGroup9::OLB => String::from_str("OLB"),
            PlayerPositionGroup9::CB => String::from_str("CB"),
            PlayerPositionGroup9::S => String::from_str("S"),
            PlayerPositionGroup9::LS => String::from_str("LS"),
        }
    }

    /// The display label, at the spec level.
    pub open spec fn spec_label(&self) -> Seq<char> {
        match self {
            PlayerPositionGroup9::QB => "QB"@,
            PlayerPositionGroup9::RB => "RB"@,
            PlayerPositionGroup9::FB => "FB"@,
            PlayerPositionGroup9::TE => "TE"@,
            PlayerPositionGroup9::WR => "WR"@,
            PlayerPositionGroup9::C => "C"@,
            PlayerPositionGroup9::OG => "OG"@,
            PlayerPositionGroup9::OT => "OT"@,
            PlayerPositionGroup9::P => "P"@,
            PlayerPositionGroup9::K => "K"@,
            PlayerPositionGroup9::DE => "DE"@,
            PlayerPositionGroup9::DT => "DT"@,
            PlayerPositionGroup9::ILB => "ILB"@,
            PlayerPositionGroup9::OLB => "OLB"@,
            PlayerPositionGroup9::CB => "CB"@,
            PlayerPositionGroup9::S => "S"@,
            PlayerPositionGroup9::LS => "LS"@,
        }
    }
}

/// A two-word historical entry: a year and one value.
#[derive(Clone, Copy, Debug, PartialEq, Eq, Structural)]
pub struct SomeData {
    pub year: u32,
    pub something: u32,
}

/// The on-disk encoding of a two-word entry.
pub open spec fn some_data_bytes(d: SomeData) -> Seq<u8> {
    u32s_bytes(seq![d.year, d.something])
}

impl SomeData {
    /// Decodes one two-word entry.
    pub fn decode(bytes: &Vec<u8>, pos: usize) -> (r: Result<(SomeData, usize), Fof9Error>)
        ensures
            r is Ok <==> pos + 8 <= bytes@.len(),
            r matches Ok((v, end)) ==> end == pos + 8 && bytes@.subrange(pos as int, end as int)
                =~= some_data_bytes(v),
            r matches Err(e) ==> e is TruncatedInput,
    {
        let (w, end) = match read_u32_block(bytes, pos, 2) {
            Ok(p) => p,
            Err(e) => {
                return Err(e);
            },
        };
        let v = SomeData { year: w[0], something: w[1] };
        proof {
            assert(w@ =~= seq![v.year, v.something]);
        }
        Ok((v, end))
    }
}

/// A four-word per-season entry.
#[derive(Clone, Copy, Debug, PartialEq, Eq, Structural)]
pub struct SomeData2 {
    pub year: u32,
    pub some_1: u32,
    pub some_2: u32,
    pub some_3: u32,
}

/// The on-disk encoding of a four-word entry.
pub open spec fn some_data2_bytes(d: SomeData2) -> Seq<u8> {
    u32s_bytes(seq![d.year, d.some_1, d.some_2, d.some_3])
}

impl SomeData2 {
    /// Decodes one four-word entry.
    pub fn decode(bytes: &Vec<u8>, pos: usize) -> (r: Result<(SomeData2, usize), Fof9Error>)
        ensures
            r is Ok <==> pos + 16 <= bytes@.len(),
            r matches Ok((v, end)) ==> end == pos + 16 && bytes@.subrange(pos as int, end as int)
                =~= some_data2_bytes(v),
            r matches Err(e) ==> e is TruncatedInput,
    {
        let (w, end) = match read_u32_block(bytes, pos, 4) {
            Ok(p) => p,
            Err(e) => {
                return Err(e);
            },
        };
        let v = SomeData2 { year: w[0], some_1: w[1], some_2: w[2], some_3: w[3] };
        proof {
            assert(w@ =~= seq![v.year, v.some_1, v.some_2, v.some_3]);
        }
        Ok((v, end))
    }
}

/// A three-word per-season entry.
#[derive(Clone, Copy, Debug, PartialEq, Eq, Structural)]
pub struct SomeData3 {
    pub some_1: u32,
    pub some_2: u32,
    pub some_3: u32,
}

/// The on-disk encoding of a three-word entry.
pub open spec fn some_data3_bytes(d: SomeData3) -> Seq<u8> {
    u32s_bytes(seq![d.some_1, d.some_2, d.some_3])
}

impl SomeData3 {
    /// Decodes one three-word entry.
    pub fn decode(bytes: &Vec<u8>, pos: usize) -> (r: Result<(SomeData3, usize), Fof9Error>)
        ensures
            r is Ok <==> pos + 12 <= bytes@.len(),
            r matches Ok((v, end)) ==> end == pos + 12 && bytes@.subrange(pos as int, end as int)
                =~= some_data3_bytes(v),
            r matches Err(e) ==> e is TruncatedInput,
    {
        let (w, end) = match read_u32_block(bytes, pos, 3) {
            Ok(p) => p,
            Err(e) => {
                return Err(e);
            },
        };
        let v = SomeData3 { some_1: w[0], some_2: w[1], some_3: w[2] };
        proof {
            assert(w@ =~= seq![v.some_1, v.some_2, v.some_3]);
        }
        Ok((v, end))
    }
}

/// A 52-word opaque block entry.
#[derive(Clone, Debug)]
pub struct SomeData4 {
    pub data: Vec<u32>,
}

/// The on-disk encoding of one 52-word block entry.
pub open spec fn some_data4_bytes(d: SomeData4) -> Seq<u8> {
    u32s_bytes(d.data@)
}

impl SomeData4 {
    /// A block entry is storable when it has its fixed size.
    pub open spec fn wf(&self) -> bool {
        self.data@.len() == 52
    }

    /// Decodes one 52-word block entry.
    pub fn decode(bytes: &Vec<u8>, pos: usize) -> (r: Result<(SomeData4, usize), Fof9Error>)
        ensures
            r is Ok <==> pos + 208 <= bytes@.len(),
            r matches Ok((v, end)) ==> v.wf() && end == pos + 208 && bytes@.subrange(
                pos as int,
                end as int,
            ) =~= some_data4_bytes(v),
            r matches Err(e) ==> e is TruncatedInput,
    {
        let (data, end) = match read_u32_block(bytes, pos, 52) {
            Ok(p) => p,
            Err(e) => {
                return Err(e);
            },
        };
        Ok((SomeData4 { data }, end))
    }
}

/// A 64-word block of relative ratings.
#[derive(Clone, Debug)]
pub struct RelativeStats9 {
    pub stats: Vec<u32>,
}

/// The on-disk encoding of one ratings block.
pub open spec fn relative_stats_bytes(d: RelativeStats9) -> Seq<u8> {
    u32s_bytes(d.stats@)
}

impl RelativeStats9 {
    /// A ratings block is storable when it has its fixed size.
    pub open spec fn wf(&self) -> bool {
        self.stats@.len() == 64
    }

    /// Decodes one ratings block.
    pub fn decode(bytes: &Vec<u8>, pos: usize) -> (r: Result<(RelativeStats9, usize), Fof9Error>)
        ensures
            r is Ok <==> pos + 256 <= bytes@.len(),
            r matches Ok((v, end)) ==> v.wf() && end == pos + 256 && bytes@.subrange(
                pos as int,
                end as int,
            ) =~= relative_stats_bytes(v),
            r matches Err(e) ==> e is TruncatedInput,
    {
        let (stats, end) = match read_u32_block(bytes, pos, 64) {
            Ok(p) => p,
            Err(e) => {
                return Err(e);
            },
        };
        Ok((RelativeStats9 { stats }, end))
    }
}

/// A 147-word group entry of the current file revision.
#[derive(Clone, Debug)]
pub struct NextData9 {
    pub stuff: Vec<u32>,
}

/// The on-disk encoding of one 147-word group entry.
pub open spec fn next_data_bytes(d: NextData9) -> Seq<u8> {
    u32s_bytes(d.stuff@)
}

impl NextData9 {
    /// A group entry is storable when it has its fixed size.
    pub open spec fn wf(&self) -> bool {
        self.stuff@.len() == 147
    }

    /// Decodes one 147-word group entry.
    pub fn decode(bytes: &Vec<u8>, pos: usize) -> (r: Result<(NextData9, usize), Fof9Error>)
        ensures
            r is Ok <==> pos + 588 <= bytes@.len(),
            r matches Ok((v, end)) ==> v.wf() && end == pos + 588 && bytes@.subrange(
                pos as int,
                end as int,
            ) =~= next_data_bytes(v),
            r matches Err(e) ==> e is TruncatedInput,
    {
        let (stuff, end) = match read_u32_block(bytes, pos, 147) {
            Ok(p) => p,
            Err(e) => {
                return Err(e);
            },
        };
        Ok((NextData9 { stuff }, end))
    }
}

/// A 53-word group entry of the current file revision.
#[derive(Clone, Debug)]
pub struct MoreData9 {
    pub stuff: Vec<u32>,
}

/// The on-disk encoding of one 53-word group entry.
pub open spec fn more_data_bytes(d: MoreData9) -> Seq<u8> {
    u32s_bytes(d.stuff@)
}

impl MoreData9 {
    /// A group entry is storable when it has its fixed size.
    pub open spec fn wf(&self) -> bool {
        self.stuff@.len() == 53
    }

    /// Decodes one 53-word group entry.
    pub fn decode(bytes: &Vec<u8>, pos: usize) -> (r: Result<(MoreData9, usize), Fof9Error>)
        ensures
            r is Ok <==> pos + 212 <= bytes@.len(),
            r matches Ok((v, end)) ==> v.wf() && end == pos + 212 && bytes@.subrange(
                pos as int,
                end as int,
            ) =~= more_data_bytes(v),
            r matches Err(e) ==> e is TruncatedInput,
    {
        let (stuff, end) = match read_u32_block(bytes, pos, 53) {
            Ok(p) => p,
            Err(e) => {
                return Err(e);
            },
        };
        Ok((MoreData9 { stuff }, end))
    }
}

/// A two-word trailing entry of one staff record.
#[derive(Clone, Debug)]
pub struct StaffSmall1 {
    pub stuff: Vec<u32>,
}

/// The on-disk encoding of one two-word staff entry.
pub open spec fn staff_small_bytes(d: StaffSmall1) -> Seq<u8> {
    u32s_bytes(d.stuff@)
}

impl StaffSmall1 {
    /// A trailing entry is storable when it has its fixed size.
    pub open spec fn wf(&self) -> bool {
        self.stuff@.len() == 2
    }

    /// Decodes one two-word staff entry.
    pub fn decode(bytes: &Vec<u8>, pos: usize) -> (r: Result<(StaffSmall1, usize), Fof9Error>)
        ensures
            r is Ok <==> pos + 8 <= bytes@.len(),
            r matches Ok((v, end)) ==> v.wf() && end == pos + 8 && bytes@.subrange(
                pos as int,
                end as int,
            ) =~= staff_small_bytes(v),
            r matches Err(e) ==> e is TruncatedInput,
    {
        let (stuff, end) = match read_u32_block(bytes, pos, 2) {
            Ok(p) => p,
            Err(e) => {
                return Err(e);
            },
        };
        Ok((StaffSmall1 { stuff }, end))
    }
}

/// A seven-word list entry of one staff record.
#[derive(Clone, Debug)]
pub struct StaffListItem9 {
    pub stuff: Vec<u32>,
}

/// The on-disk encoding of one seven-word staff entry.
pub open spec fn staff_list_item_bytes(d: StaffListItem9) -> Seq<u8> {
    u32s_bytes(d.stuff@)
}

impl StaffListItem9 {
    /// A list entry is storable when it has its fixed size.
    pub open spec fn wf(&self) -> bool {
        self.stuff@.len() == 7
    }

    /// Decodes one seven-word staff entry.
    pub fn decode(bytes: &Vec<u8>, pos: usize) -> (r: Result<(StaffListItem9, usize), Fof9Error>)
        ensures
            r is Ok <==> pos + 28 <= bytes@.len(),
            r matches Ok((v, end)) ==> v.wf() && end == pos + 28 && bytes@.subrange(
                pos as int,
                end as int,
            ) =~= staff_list_item_bytes(v),
            r matches Err(e) ==> e is TruncatedInput,
    {
        let (stuff, end) = match read_u32_block(bytes, pos, 7) {
            Ok(p) => p,
            Err(e) => {
                return Err(e);
            },
        };
        Ok((StaffListItem9 { stuff }, end))
    }
}

/// The header of the legacy players shape: the signature, a version, and
/// the highest player identifier to expect.
#[derive(Clone, Copy, Debug, PartialEq, Eq, Structural)]
pub struct AltPlayers9Header {
    pub data_version: u32,
    pub max_player_id: u32,
}

/// The on-disk encoding of the legacy header.
pub open spec fn alt_header_bytes(h: AltPlayers9Header) -> Seq<u8> {
    player_magic_bytes() + (u32_le_bytes(h.data_version) + u32_le_bytes(h.max_player_id))
}

impl AltPlayers9Header {
    /// The highest player identifier the file claims to hold.
    pub fn max_player_id(&self) -> (r: u32)
        ensures
            r == self.max_player_id,
    {
        self.max_player_id
    }

    /// Decodes the legacy header.
    pub fn decode(bytes: &Vec<u8>, pos: usize) -> (r: Result<
        (AltPlayers9Header, usize),
        Fof9Error,
    >)
        ensures
            r is Ok <==> pos + 24 <= bytes@.len() && bytes@.subrange(pos as int, pos + 16)
                =~= player_magic_bytes(),
            r matches Ok((v, end)) ==> end == pos + 24 <= bytes@.len() && bytes@.subrange(
                pos as int,
                end as int,
            ) =~= alt_header_bytes(v),
            r matches Err(e) ==> e is TruncatedInput || e is MagicMismatch,
    {
        let magic = player_magic();
        let p1 = match expect_bytes(bytes, pos, &magic) {
            Ok(p) => p,
            Err(e) => {
                return Err(e);
            },
        };
        let (data_version, p2) = match read_u32(bytes, p1) {
            Ok(p) => p,
            Err(e) => {
                return Err(e);
            },
        };
        let (max_player_id, end) = match read_u32(bytes, p2) {
            Ok(p) => p,
            Err(e) => {
                return Err(e);
            },
        };
        let v = AltPlayers9Header { data_version, max_player_id };
        proof {
            lemma_split(bytes@, p1 as int, p2 as int, end as int);
            lemma_split(bytes@, pos as int, p1 as int, end as int);
        }
        Ok((v, end))
    }
}

/// The leading tag of one legacy roster entry: a player identifier, where
/// zero marks the end of the list.
#[derive(Clone, Copy, Debug, PartialEq, Eq, Structural)]
pub struct AltPlayer9Id {
    pub player_id: u32,
}

impl AltPlayer9Id {
    /// The stored player identifier.
    pub fn player_id(&self) -> (r: u32)
        ensures
            r == self.player_id,
    {
        self.player_id
    }

    /// Decodes one leading tag.
    pub fn decode(bytes: &Vec<u8>, pos: usize) -> (r: Result<(AltPlayer9Id, usize), Fof9Error>)
        ensures
            r is Ok <==> pos + 4 <= bytes@.len(),
            r matches Ok((v, end)) ==> end == pos + 4 && bytes@.subrange(pos as int, end as int)
                =~= u32_le_bytes(v.player_id),
            r matches Err(e) ==> e is TruncatedInput,
    {
        match read_u32(bytes, pos) {
            Ok((v, end)) => Ok((AltPlayer9Id { player_id: v }, end)),
            Err(e) => Err(e),
        }
    }
}

/// The concatenated encodings of a list of two-word entries.
pub open spec fn some_data_list_bytes(s: Seq<SomeData>) -> Seq<u8> {
    encode_list(s, |d: SomeData| some_data_bytes(d))
}

/// The concatenated encodings of a list of four-word entries.
pub open spec fn some_data2_list_bytes(s: Seq<SomeData2>) -> Seq<u8> {
    encode_list(s, |d: SomeData2| some_data2_bytes(d))
}

/// The concatenated encodings of a list of three-word entries.
pub open spec fn some_data3_list_bytes(s: Seq<SomeData3>) -> Seq<u8> {
    encode_list(s, |d: SomeData3| some_data3_bytes(d))
}

/// The concatenated encodings of a list of 52-word block entries.
pub open spec fn some_data4_list_bytes(s: Seq<SomeData4>) -> Seq<u8> {
    encode_list(s, |d: SomeData4| some_data4_bytes(d))
}

/// The concatenated encodings of a list of ratings blocks.
pub open spec fn relative_stats_list_bytes(s: Seq<RelativeStats9>) -> Seq<u8> {
    encode_list(s, |d: RelativeStats9| relative_stats_bytes(d))
}

/// The concatenated encodings of a list of 147-word group entries.
pub open spec fn next_list_bytes(s: Seq<NextData9>) -> Seq<u8> {
    encode_list(s, |d: NextData9| next_data_bytes(d))
}

/// The concatenated encodings of a list of 53-word group entries.
pub open spec fn more_list_bytes(s: Seq<MoreData9>) -> Seq<u8> {
    encode_list(s, |d: MoreData9| more_data_bytes(d))
}

/// The concatenated encodings of a staff record's seven-word entries.
pub open spec fn staff_item_list_bytes(s: Seq<StaffListItem9>) -> Seq<u8> {
    encode_list(s, |d: StaffListItem9| staff_list_item_bytes(d))
}

/// The concatenated encodings of a staff record's two-word entries.
pub open spec fn staff_small_list_bytes(s: Seq<StaffSmall1>) -> Seq<u8> {
    encode_list(s, |d: StaffSmall1| staff_small_bytes(d))
}

/// Reads a counted list of two-word entries.
fn read_some_data_list(bytes: &Vec<u8>, pos: usize, count: usize) -> (r: Result<
    (Vec<SomeData>, usize),
    Fof9Error,
>)
    ensures
        r is Ok <==> pos + 8 * count <= bytes@.len(),
        r matches Ok((v, end)) ==> v@.len() == count && end == pos + 8 * count
            <= bytes@.len() && bytes@.subrange(pos as int, end as int) =~= some_data_list_bytes(v@),
        r matches Err(e) ==> e is TruncatedInput,
{
    if pos > bytes.len() {
        proof {
            assert(pos + 8 * count > bytes@.len()) by (nonlinear_arith)
                requires
                    pos > bytes@.len(),
                    count >= 0,
            ;
        }
        return Err(Fof9Error::TruncatedInput { pos });
    }
    let mut items: Vec<SomeData> = Vec::new();
    let mut cur: usize = pos;
    let mut i: usize = 0;
    proof {
        assert(bytes@.subrange(pos as int, pos as int) =~= Seq::<u8>::empty());
    }
    while i < count
        invariant
            i == items@.len() <= count,
            cur == pos + 8 * i,
            cur <= bytes@.len(),
            bytes@.subrange(pos as int, cur as int) =~= some_data_list_bytes(items@),
        decreases count - i,
    {
        let (v, next) = match SomeData::decode(bytes, cur) {
            Ok(p) => p,
            Err(e) => {
                return Err(e);
            },
        };
        proof {
            lemma_encode_list_push(items@, |d: SomeData| some_data_bytes(d), v);
            lemma_split(bytes@, pos as int, cur as int, next as int);
        }
        items.push(v);
        cur = next;
        i = i + 1;
    }
    Ok((items, cur))
}

/// Reads a counted list of four-word entries.
fn read_some_data2_list(bytes: &Vec<u8>, pos: usize, count: usize) -> (r: Result<
    (Vec<SomeData2>, usize),
    Fof9Error,
>)
    ensures
        r is Ok <==> pos + 16 * count <= bytes@.len(),
        r matches Ok((v, end)) ==> v@.len() == count && end == pos + 16 * count
            <= bytes@.len() && bytes@.subrange(pos as int, end as int) =~= some_data2_list_bytes(v@),
        r matches Err(e) ==> e is TruncatedInput,
{
    if pos > bytes.len() {
        proof {
            assert(pos + 16 * count > bytes@.len()) by (nonlinear_arith)
                requires
                    pos > bytes@.len(),
                    count >= 0,
            ;
        }
        return Err(Fof9Error::TruncatedInput { pos });
    }
    let mut items: Vec<SomeData2> = Vec::new();
    let mut cur: usize = pos;
    let mut i: usize = 0;
    proof {
        assert(bytes@.subrange(pos as int, pos as int) =~= Seq::<u8>::empty());
    }
    while i < count
        invariant
            i == items@.len() <= count,
            cur == pos + 16 * i,
            cur <= bytes@.len(),
            bytes@.subrange(pos as int, cur as int) =~= some_data2_list_bytes(items@),
        decreases count - i,
    {
        let (v, next) = match SomeData2::decode(bytes, cur) {
            Ok(p) => p,
            Err(e) => {
                return Err(e);
            },
        };
        proof {
            lemma_encode_list_push(items@, |d: SomeData2| some_data2_bytes(d), v);
            lemma_split(bytes@, pos as int, cur as int, next as int);
        }
        items.push(v);
        cur = next;
        i = i + 1;
    }
    Ok((items, cur))
}

/// Reads a counted list of three-word entries.
fn read_some_data3_list(bytes: &Vec<u8>, pos: usize, count: usize) -> (r: Result<
    (Vec<SomeData3>, usize),
    Fof9Error,
>)
    ensures
        r is Ok <==> pos + 12 * count <= bytes@.len(),
        r matches Ok((v, end)) ==> v@.len() == count && end == pos + 12 * count
            <= bytes@.len() && bytes@.subrange(pos as int, end as int) =~= some_data3_list_bytes(v@),
        r matches Err(e) ==> e is TruncatedInput,
{
    if pos > bytes.len() {
        proof {
            assert(pos + 12 * count > bytes@.len()) by (nonlinear_arith)
                requires
                    pos > bytes@.len(),
                    count >= 0,
            ;
        }
        return Err(Fof9Error::TruncatedInput { pos });
    }
    let mut items: Vec<SomeData3> = Vec::new();
    let mut cur: usize = pos;
    let mut i: usize = 0;
    proof {
        assert(bytes@.subrange(pos as int, pos as int) =~= Seq::<u8>::empty());
    }
    while i < count
        invariant
            i == items@.len() <= count,
            cur == pos + 12 * i,
            cur <= bytes@.len(),
            bytes@.subrange(pos as int, cur as int) =~= some_data3_list_bytes(items@),
        decreases count - i,
    {
        let (v, next) = match SomeData3::decode(bytes, cur) {
            Ok(p) => p,
            Err(e) => {
                return Err(e);
            },
        };
        proof {
            lemma_encode_list_push(items@, |d: SomeData3| some_data3_bytes(d), v);
            lemma_split(bytes@, pos as int, cur as int, next as int);
        }
        items.push(v);
        cur = next;
        i = i + 1;
    }
    Ok((items, cur))
}

/// Reads a counted list of 52-word block entries.
fn read_some_data4_list(bytes: &Vec<u8>, pos: usize, count: usize) -> (r: Result<
    (Vec<SomeData4>, usize),
    Fof9Error,
>)
    ensures
        r is Ok <==> pos + 208 * count <= bytes@.len(),
        r matches Ok((v, end)) ==> v@.len() == count && end == pos + 208 * count
            <= bytes@.len() && bytes@.subrange(pos as int, end as int) =~= some_data4_list_bytes(v@) && forall|
            i: int,
        | 0 <= i < v@.len() ==> v@[i].wf(),
        r matches Err(e) ==> e is TruncatedInput,
{
    if pos > bytes.len() {
        proof {
            assert(pos + 208 * count > bytes@.len()) by (nonlinear_arith)
                requires
                    pos > bytes@.len(),
                    count >= 0,
            ;
        }
        return Err(Fof9Error::TruncatedInput { pos });
    }
    let mut items: Vec<SomeData4> = Vec::new();
    let mut cur: usize = pos;
    let mut i: usize = 0;
    proof {
        assert(bytes@.subrange(pos as int, pos as int) =~= Seq::<u8>::empty());
    }
    while i < count
        invariant
            i == items@.len() <= count,
            cur == pos + 208 * i,
            cur <= bytes@.len(),
            bytes@.subrange(pos as int, cur as int) =~= some_data4_list_bytes(items@),
            forall|j: int| 0 <= j < items@.len() ==> items@[j].wf(),
        decreases count - i,
    {
        let (v, next) = match SomeData4::decode(bytes, cur) {
            Ok(p) => p,
            Err(e) => {
                return Err(e);
            },
        };
        proof {
            lemma_encode_list_push(items@, |d: SomeData4| some_data4_bytes(d), v);
            lemma_split(bytes@, pos as int, cur as int, next as int);
        }
        items.push(v);
        cur = next;
        i = i + 1;
    }
    Ok((items, cur))
}

/// Reads a fixed list of three ratings blocks.
fn read_overall(bytes: &Vec<u8>, pos: usize) -> (r: Result<(Vec<RelativeStats9>, usize), Fof9Error>)
    ensures
        r is Ok <==> pos + 768 <= bytes@.len(),
        r matches Ok((v, end)) ==> v@.len() == 3 && end == pos + 768 <= bytes@.len()
            && bytes@.subrange(
            pos as int,
            end as int,
        ) =~= relative_stats_list_bytes(v@) && forall|i: int| 0 <= i < v@.len() ==> v@[i].wf(),
        r matches Err(e) ==> e is TruncatedInput,
{
    if pos > bytes.len() {
        return Err(Fof9Error::TruncatedInput { pos });
    }
    let mut items: Vec<RelativeStats9> = Vec::new();
    let mut cur: usize = pos;
    let mut i: usize = 0;
    proof {
        assert(bytes@.subrange(pos as int, pos as int) =~= Seq::<u8>::empty());
    }
    while i < 3
        invariant
            i == items@.len() <= 3,
            cur == pos + 256 * i,
            cur <= bytes@.len(),
            bytes@.subrange(pos as int, cur as int) =~= relative_stats_list_bytes(items@),
            forall|j: int| 0 <= j < items@.len() ==> items@[j].wf(),
        decreases 3 - i,
    {
        let (v, next) = match RelativeStats9::decode(bytes, cur) {
            Ok(p) => p,
            Err(e) => {
                return Err(e);
            },
        };
        proof {
            lemma_encode_list_push(items@, |d: RelativeStats9| relative_stats_bytes(d), v);
            lemma_split(bytes@, pos as int, cur as int, next as int);
        }
        items.push(v);
        cur = next;
        i = i + 1;
    }
    Ok((items, cur))
}

/// Reads a counted list of 147-word group entries.
fn read_next_list(bytes: &Vec<u8>, pos: usize, count: usize) -> (r: Result<
    (Vec<NextData9>, usize),
    Fof9Error,
>)
    ensures
        r is Ok <==> pos + 588 * count <= bytes@.len(),
        r matches Ok((v, end)) ==> v@.len() == count && end == pos + 588 * count
            <= bytes@.len() && bytes@.subrange(pos as int, end as int) =~= next_list_bytes(v@) && forall|i: int|
            0 <= i < v@.len() ==> v@[i].wf(),
        r matches Err(e) ==> e is TruncatedInput,
{
    if pos > bytes.len() {
        proof {
            assert(pos + 588 * count > bytes@.len()) by (nonlinear_arith)
                requires
                    pos > bytes@.len(),
                    count >= 0,
            ;
        }
        return Err(Fof9Error::TruncatedInput { pos });
    }
    let mut items: Vec<NextData9> = Vec::new();
    let mut cur: usize = pos;
    let mut i: usize = 0;
    proof {
        assert(bytes@.subrange(pos as int, pos as int) =~= Seq::<u8>::empty());
    }
    while i < count
        invariant
            i == items@.len() <= count,
            cur == pos + 588 * i,
            cur <= bytes@.len(),
            bytes@.subrange(pos as int, cur as int) =~= next_list_bytes(items@),
            forall|j: int| 0 <= j < items@.len() ==> items@[j].wf(),
        decreases count - i,
    {
        let (v, next) = match NextData9::decode(bytes, cur) {
            Ok(p) => p,
            Err(e) => {
                return Err(e);
            },
        };
        proof {
            lemma_encode_list_push(items@, |d: NextData9| next_data_bytes(d), v);
            lemma_split(bytes@, pos as int, cur as int, next as int);
        }
        items.push(v);
        cur = next;
        i = i + 1;
    }
    Ok((items, cur))
}

/// Reads a counted list of 53-word group entries.
fn read_more_list(bytes: &Vec<u8>, pos: usize, count: usize) -> (r: Result<
    (Vec<MoreData9>, usize),
    Fof9Error,
>)
    ensures
        r is Ok <==> pos + 212 * count <= bytes@.len(),
        r matches Ok((v, end)) ==> v@.len() == count && end == pos + 212 * count
            <= bytes@.len() && bytes@.subrange(pos as int, end as int) =~= more_list_bytes(v@) && forall|i: int|
            0 <= i < v@.len() ==> v@[i].wf(),
        r matches Err(e) ==> e is TruncatedInput,
{
    if pos > bytes.len() {
        proof {
            assert(pos + 212 * count > bytes@.len()) by (nonlinear_arith)
                requires
                    pos > bytes@.len(),
                    count >= 0,
            ;
        }
        return Err(Fof9Error::TruncatedInput { pos });
    }
    let mut items: Vec<MoreData9> = Vec::new();
    let mut cur: usize = pos;
    let mut i: usize = 0;
    proof {
        assert(bytes@.subrange(pos as int, pos as int) =~= Seq::<u8>::empty());
    }
    while i < count
        invariant
            i == items@.len() <= count,
            cur == pos + 212 * i,
            cur <= bytes@.len(),
            bytes@.subrange(pos as int, cur as int) =~= more_list_bytes(items@),
            forall|j: int| 0 <= j < items@.len() ==> items@[j].wf(),
        decreases count - i,
    {
        let (v, next) = match MoreData9::decode(bytes, cur) {
            Ok(p) => p,
            Err(e) => {
                return Err(e);
            },
        };
        proof {
            lemma_encode_list_push(items@, |d: MoreData9| more_data_bytes(d), v);
            lemma_split(bytes@, pos as int, cur as int, next as int);
        }
        items.push(v);
        cur = next;
        i = i + 1;
    }
    Ok((items, cur))
}

/// Reads a counted list of seven-word staff entries.
fn read_staff_items(bytes: &Vec<u8>, pos: usize, count: usize) -> (r: Result<
    (Vec<StaffListItem9>, usize),
    Fof9Error,
>)
    ensures
        r is Ok <==> pos + 28 * count <= bytes@.len(),
        r matches Ok((v, end)) ==> v@.len() == count && end == pos + 28 * count
            <= bytes@.len() && bytes@.subrange(pos as int, end as int) =~= staff_item_list_bytes(v@) && forall|
            i: int,
        | 0 <= i < v@.len() ==> v@[i].wf(),
        r matches Err(e) ==> e is TruncatedInput,
{
    if pos > bytes.len() {
        proof {
            assert(pos + 28 * count > bytes@.len()) by (nonlinear_arith)
                requires
                    pos > bytes@.len(),
                    count >= 0,
            ;
        }
        return Err(Fof9Error::TruncatedInput { pos });
    }
    let mut items: Vec<StaffListItem9> = Vec::new();
    let mut cur: usize = pos;
    let mut i: usize = 0;
    proof {
        assert(bytes@.subrange(pos as int, pos as int) =~= Seq::<u8>::empty());
    }
    while i < count
        invariant
            i == items@.len() <= count,
            cur == pos + 28 * i,
            cur <= bytes@.len(),
            bytes@.subrange(pos as int, cur as int) =~= staff_item_list_bytes(items@),
            forall|j: int| 0 <= j < items@.len() ==> items@[j].wf(),
        decreases count - i,
    {
        let (v, next) = match StaffListItem9::decode(bytes, cur) {
            Ok(p) => p,
            Err(e) => {
                return Err(e);
            },
        };
        proof {
            lemma_encode_list_push(items@, |d: StaffListItem9| staff_list_item_bytes(d), v);
            lemma_split(bytes@, pos as int, cur as int, next as int);
        }
        items.push(v);
        cur = next;
        i = i + 1;
    }
    Ok((items, cur))
}

/// Reads a counted list of two-word staff entries.
fn read_staff_smalls(bytes: &Vec<u8>, pos: usize, count: usize) -> (r: Result<
    (Vec<StaffSmall1>, usize),
    Fof9Error,
>)
    ensures
        r is Ok <==> pos + 8 * count <= bytes@.len(),
        r matches Ok((v, end)) ==> v@.len() == count && end == pos + 8 * count
            <= bytes@.len() && bytes@.subrange(pos as int, end as int) =~= staff_small_list_bytes(v@) && forall|
            i: int,
        | 0 <= i < v@.len() ==> v@[i].wf(),
        r matches Err(e) ==> e is TruncatedInput,
{
    if pos > bytes.len() {
        proof {
            assert(pos + 8 * count > bytes@.len()) by (nonlinear_arith)
                requires
                    pos > bytes@.len(),
                    count >= 0,
            ;
        }
        return Err(Fof9Error::TruncatedInput { pos });
    }
    let mut items: Vec<StaffSmall1> = Vec::new();
    let mut cur: usize = pos;
    let mut i: usize = 0;
    proof {
        assert(bytes@.subrange(pos as int, pos as int) =~= Seq::<u8>::empty());
    }
    while i < count
        invariant
            i == items@.len() <= count,
            cur == pos + 8 * i,
            cur <= bytes@.len(),
            bytes@.subrange(pos as int, cur as int) =~= staff_small_list_bytes(items@),
            forall|j: int| 0 <= j < items@.len() ==> items@[j].wf(),
        decreases count - i,
    {
        let (v, next) = match StaffSmall1::decode(bytes, cur) {
            Ok(p) => p,
            Err(e) => {
                return Err(e);
            },
        };
        proof {
            lemma_encode_list_push(items@, |d: StaffSmall1| staff_small_bytes(d), v);
            lemma_split(bytes@, pos as int, cur as int, next as int);
        }
        items.push(v);
        cur = next;
        i = i + 1;
    }
    Ok((items, cur))
}

/// The encoding of the seven runtime-counted stat groups shared by both
/// player shapes: each group is its count, then that many entries.
pub open spec fn stat_lists_bytes(
    some1: Seq<SomeData2>,
    some2: Seq<SomeData3>,
    some3: Seq<SomeData3>,
    some4: Seq<SomeData3>,
    some5: Seq<SomeData3>,
    past: Seq<SomeData>,
    current: Seq<SomeData>,
) -> Seq<u8> {
    u32_le_bytes(some1.len() as u32) + (some_data2_list_bytes(some1) + (u32_le_bytes(
        some2.len() as u32,
    ) + (some_data3_list_bytes(some2) + (u32_le_bytes(some3.len() as u32) + (
    some_data3_list_bytes(some3) + (u32_le_bytes(some4.len() as u32) + (some_data3_list_bytes(
        some4,
    ) + (u32_le_bytes(some5.len() as u32) + (some_data3_list_bytes(some5) + (u32_le_bytes(
        past.len() as u32,
    ) + (some_data_list_bytes(past) + (u32_le_bytes(current.len() as u32)
        + some_data_list_bytes(current)))))))))))))
}

/// Where the seven runtime-counted stat groups starting at `pos` end, or
/// nothing where a counted group does not fit the stream.
#[verifier::opaque]
pub open spec fn stat_lists_parse_end(b: Seq<u8>, pos: int) -> Option<int> {
    if !(0 <= pos && pos + 4 <= b.len()) {
        None
    } else {
        let q1 = pos + 4 + 16 * u32_of_prefix(b, pos);
        if !(q1 <= b.len() && q1 + 4 <= b.len()) {
            None
        } else {
            let q2 = q1 + 4 + 12 * u32_of_prefix(b, q1);
            if !(q2 <= b.len() && q2 + 4 <= b.len()) {
                None
            } else {
                let q3 = q2 + 4 + 12 * u32_of_prefix(b, q2);
                if !(q3 <= b.len() && q3 + 4 <= b.len()) {
                    None
                } else {
                    let q4 = q3 + 4 + 12 * u32_of_prefix(b, q3);
                    if !(q4 <= b.len() && q4 + 4 <= b.len()) {
                        None
                    } else {
                        let q5 = q4 + 4 + 12 * u32_of_prefix(b, q4);
                        if !(q5 <= b.len() && q5 + 4 <= b.len()) {
                            None
                        } else {
                            let q6 = q5 + 4 + 8 * u32_of_prefix(b, q5);
                            if !(q6 <= b.len() && q6 + 4 <= b.len()) {
                                None
                            } else {
                                let q7 = q6 + 4 + 8 * u32_of_prefix(b, q6);
                                if q7 <= b.len() {
                                    Some(q7)
                                } else {
                                    None
                                }
                            }
                        }
                    }
                }
            }
        }
    }
}

/// Reads the seven runtime-counted stat groups shared by both player
/// shapes.
#[verifier::rlimit(100)]
fn read_stat_lists(bytes: &Vec<u8>, pos: usize) -> (r: Result<
    ((Vec<SomeData2>, Vec<SomeData3>, Vec<SomeData3>, Vec<SomeData3>, Vec<SomeData3>,
        Vec<SomeData>, Vec<SomeData>), usize),
    Fof9Error,
>)
    ensures
        r is Ok <==> stat_lists_parse_end(bytes@, pos as int) is Some,
        r matches Ok((parts, end)) ==> stat_lists_parse_end(bytes@, pos as int) == Some(
            end as int,
        ),
        r matches Ok(((s1, s2, s3, s4, s5, past, current), end)) ==> s1@.len() <= u32::MAX
            && s2@.len() <= u32::MAX && s3@.len() <= u32::MAX && s4@.len() <= u32::MAX && s5@.len()
            <= u32::MAX && past@.len() <= u32::MAX && current@.len() <= u32::MAX && pos <= end
            <= bytes@.len() && bytes@.subrange(pos as int, end as int) =~= stat_lists_bytes(
            s1@,
            s2@,
            s3@,
            s4@,
            s5@,
            past@,
            current@,
        ),
        r matches Err(e) ==> e is TruncatedInput,
{
        proof {
            reveal(stat_lists_parse_end);
        }
    let (c1, p1) = match read_u32(bytes, pos) {
        Ok(p) => p,
        Err(e) => {
            return Err(e);
        },
    };
    let (s1, p2) = match read_some_data2_list(bytes, p1, c1 as usize) {
        Ok(p) => p,
        Err(e) => {
            return Err(e);
        },
    };
    let (c2, p3) = match read_u32(bytes, p2) {
        Ok(p) => p,
        Err(e) => {
            return Err(e);
        },
    };
    let (s2, p4) = match read_some_data3_list(bytes, p3, c2 as usize) {
        Ok(p) => p,
        Err(e) => {
            return Err(e);
        },
    };
    let (c3, p5) = match read_u32(bytes, p4) {
        Ok(p) => p,
        Err(e) => {
            return Err(e);
        },
    };
    let (s3, p6) = match read_some_data3_list(bytes, p5, c3 as usize) {
        Ok(p) => p,
        Err(e) => {
            return Err(e);
        },
    };
    let (c4, p7) = match read_u32(bytes, p6) {
        Ok(p) => p,
        Err(e) => {
            return Err(e);
        },
    };
    let (s4, p8) = match read_some_data3_list(bytes, p7, c4 as usize) {
        Ok(p) => p,
        Err(e) => {
            return Err(e);
        },
    };
    let (c5, p9) = match read_u32(bytes, p8) {
        Ok(p) => p,
        Err(e) => {
            return Err(e);
        },
    };
    let (s5, p10) = match read_some_data3_list(bytes, p9, c5 as usize) {
        Ok(p) => p,
        Err(e) => {
            return Err(e);
        },
    };
    let (c6, p11) = match read_u32(bytes, p10) {
        Ok(p) => p,
        Err(e) => {
            return Err(e);
        },
    };
    let (past, p12) = match read_some_data_list(bytes, p11, c6 as usize) {
        Ok(p) => p,
        Err(e) => {
            return Err(e);
        },
    };
    let (c7, p13) = match read_u32(bytes, p12) {
        Ok(p) => p,
        Err(e) => {
            return Err(e);
        },
    };
    let (current, end) = match read_some_data_list(bytes, p13, c7 as usize) {
        Ok(p) => p,
        Err(e) => {
            return Err(e);
        },
    };
    proof {
        lemma_split(bytes@, p12 as int, p13 as int, end as int);
        lemma_split(bytes@, p11 as int, p12 as int, end as int);
        lemma_split(bytes@, p10 as int, p11 as int, end as int);
        lemma_split(bytes@, p9 as int, p10 as int, end as int);
        lemma_split(bytes@, p8 as int, p9 as int, end as int);
        lemma_split(bytes@, p7 as int, p8 as int, end as int);
        lemma_split(bytes@, p6 as int, p7 as int, end as int);
        lemma_split(bytes@, p5 as int, p6 as int, end as int);
        lemma_split(bytes@, p4 as int, p5 as int, end as int);
        lemma_split(bytes@, p3 as int, p4 as int, end as int);
        lemma_split(bytes@, p2 as int, p3 as int, end as int);
        lemma_split(bytes@, p1 as int, p2 as int, end as int);
        lemma_split(bytes@, pos as int, p1 as int, end as int);
    }
    Ok(((s1, s2, s3, s4, s5, past, current), end))
}

/// The encoding of the trailing stat section shared by both player shapes:
/// three words, three ratings blocks, a 48-word block, and one counted
/// list of 52-word blocks.
pub open spec fn stat_tail_bytes(
    what: Seq<u32>,
    overall: Seq<RelativeStats9>,
    data_3: Seq<u32>,
    data_4: Seq<SomeData4>,
) -> Seq<u8> {
    u32s_bytes(what) + (relative_stats_list_bytes(overall) + (u32s_bytes(data_3) + (u32_le_bytes(
        data_4.len() as u32,
    ) + some_data4_list_bytes(data_4))))
}

/// Where the trailing stat section starting at `pos` ends, or nothing
/// where its fixed blocks or its counted list do not fit the stream.
#[verifier::opaque]
pub open spec fn stat_tail_parse_end(b: Seq<u8>, pos: int) -> Option<int> {
    if !(0 <= pos && pos + 976 <= b.len()) {
        None
    } else {
        let q = pos + 976 + 208 * u32_of_prefix(b, pos + 972);
        if q <= b.len() {
            Some(q)
        } else {
            None
        }
    }
}

/// Reads the trailing stat section shared by both player shapes.
fn read_stat_tail(bytes: &Vec<u8>, pos: usize) -> (r: Result<
    ((Vec<u32>, Vec<RelativeStats9>, Vec<u32>, Vec<SomeData4>), usize),
    Fof9Error,
>)
    ensures
        r is Ok <==> stat_tail_parse_end(bytes@, pos as int) is Some,
        r matches Ok((parts, end)) ==> stat_tail_parse_end(bytes@, pos as int) == Some(end as int),
        r matches Ok(((what, overall, data_3, data_4), end)) ==> what@.len() == 3 && overall@.len()
            == 3 && (forall|i: int| 0 <= i < overall@.len() ==> overall@[i].wf()) && data_3@.len()
            == 48 && data_4@.len() <= u32::MAX && (forall|i: int|
            0 <= i < data_4@.len() ==> data_4@[i].wf()) && pos <= end <= bytes@.len()
            && bytes@.subrange(pos as int, end as int) =~= stat_tail_bytes(
            what@,
            overall@,
            data_3@,
            data_4@,
        ),
        r matches Err(e) ==> e is TruncatedInput,
{
        proof {
            reveal(stat_tail_parse_end);
        }
    let (what, p1) = match read_u32_block(bytes, pos, 3) {
        Ok(p) => p,
        Err(e) => {
            return Err(e);
        },
    };
    let (overall, p2) = match read_overall(bytes, p1) {
        Ok(p) => p,
        Err(e) => {
            return Err(e);
        },
    };
    let (data_3, p3) = match read_u32_block(bytes, p2, 48) {
        Ok(p) => p,
        Err(e) => {
            return Err(e);
        },
    };
    let (c, p4) = match read_u32(bytes, p3) {
        Ok(p) => p,
        Err(e) => {
            return Err(e);
        },
    };
    let (data_4, end) = match read_some_data4_list(bytes, p4, c as usize) {
        Ok(p) => p,
        Err(e) => {
            return Err(e);
        },
    };
    proof {
        lemma_split(bytes@, p3 as int, p4 as int, end as int);
        lemma_split(bytes@, p2 as int, p3 as int, end as int);
        lemma_split(bytes@, p1 as int, p2 as int, end as int);
        lemma_split(bytes@, pos as int, p1 as int, end as int);
    }
    Ok(((what, overall, data_3, data_4), end))
}

/// One roster entry of the legacy players shape. Every runtime-counted
/// group read from the stream is materialized; each count is decode-time
/// metadata recomputed from its list on demand.
#[derive(Clone, Debug)]
pub struct AltPlayer9Data {
    pub firstname: FixedString,
    pub nickname: FixedString,
    pub lastname: FixedString,
    pub position: PlayerPosition9,
    pub position_group: PlayerPositionGroup9,
    pub some_1: u32,
    pub years_experience: u32,
    pub data_1: Vec<u32>,
    pub some1: Vec<SomeData2>,
    pub some2: Vec<SomeData3>,
    pub some3: Vec<SomeData3>,
    pub some4: Vec<SomeData3>,
    pub some5: Vec<SomeData3>,
    pub past: Vec<SomeData>,
    pub current: Vec<SomeData>,
    pub what: Vec<u32>,
    pub overall: Vec<RelativeStats9>,
    pub data_3: Vec<u32>,
    pub data_4: Vec<SomeData4>,
}

/// Where a legacy roster entry starting at `pos` ends, or nothing where a
/// field does not fit or a position tag is unknown.
#[verifier::opaque]
pub open spec fn alt_player_parse_end(b: Seq<u8>, pos: int) -> Option<int> {
    match text_parse_end(b, pos) {
        None => None,
        Some(t1) => match text_parse_end(b, t1) {
            None => None,
            Some(t2) => match text_parse_end(b, t2) {
                None => None,
                Some(t3) => if t3 + 8 <= b.len() && position_tag_valid(u32_of_prefix(b, t3))
                    && position_group_tag_valid(u32_of_prefix(b, t3 + 4)) && t3 + 624 <= b.len() {
                    match stat_lists_parse_end(b, t3 + 624) {
                        None => None,
                        Some(sl) => stat_tail_parse_end(b, sl),
                    }
                } else {
                    None
                },
            },
        },
    }
}

/// The on-disk encoding of one legacy roster entry.
pub open spec fn alt_player_bytes(p: AltPlayer9Data) -> Seq<u8> {
    fixed_string_bytes(p.firstname.string@) + (fixed_string_bytes(p.nickname.string@) + (
    fixed_string_bytes(p.lastname.string@) + (position_bytes(p.position) + (position_group_bytes(
        p.position_group,
    ) + (u32_le_bytes(p.some_1) + (u32_le_bytes(p.years_experience) + (u32s_bytes(p.data_1@) + (
    stat_lists_bytes(p.some1@, p.some2@, p.some3@, p.some4@, p.some5@, p.past@, p.current@)
        + stat_tail_bytes(p.what@, p.overall@, p.data_3@, p.data_4@)))))))))
}

impl AltPlayer9Data {
    /// A legacy roster entry is storable when its text fields are and its
    /// fixed blocks and counted lists have their proper sizes.
    pub open spec fn wf(&self) -> bool {
        &&& self.firstname.wf()
        &&& self.nickname.wf()
        &&& self.lastname.wf()
        &&& self.data_1@.len() == 152
        &&& self.some1@.len() <= u32::MAX
        &&& self.some2@.len() <= u32::MAX
        &&& self.some3@.len() <= u32::MAX
        &&& self.some4@.len() <= u32::MAX
        &&& self.some5@.len() <= u32::MAX
        &&& self.past@.len() <= u32::MAX
        &&& self.current@.len() <= u32::MAX
        &&& self.what@.len() == 3
        &&& self.overall@.len() == 3
        &&& forall|i: int| 0 <= i < self.overall@.len() ==> self.overall@[i].wf()
        &&& self.data_3@.len() == 48
        &&& self.data_4@.len() <= u32::MAX
        &&& forall|i: int| 0 <= i < self.data_4@.len() ==> self.data_4@[i].wf()
    }

    /// The player's position group.
    pub fn position_group(&self) -> (r: PlayerPositionGroup9)
        ensures
            r == self.position_group,
    {
        self.position_group
    }

    /// The player's position.
    pub fn position(&self) -> (r: PlayerPosition9)
        ensures
            r == self.position,
    {
        self.position
    }

    /// The player's display name: first name, a space, last name.
    pub fn name(&self) -> (r: String)
        ensures
            r@ == self.firstname.string@ + " "@ + self.lastname.string@,
    {
        let mut r = self.firstname.string.clone();
        r.append(" ");
        r.append(self.lastname.string.as_str());
        r
    }

    /// Decodes one legacy roster entry.
    #[verifier::rlimit(100)]
    pub fn decode(bytes: &Vec<u8>, pos: usize) -> (r: Result<(AltPlayer9Data, usize), Fof9Error>)
        ensures
            r is Ok <==> alt_player_parse_end(bytes@, pos as int) is Some,
            r matches Ok((v, end)) ==> v.wf() && pos < end <= bytes@.len() && bytes@.subrange(
                pos as int,
                end as int,
            ) =~= alt_player_bytes(v) && alt_player_parse_end(bytes@, pos as int) == Some(
                end as int,
            ),
            r matches Err(e) ==> e is TruncatedInput || e is UnknownVariantTag,
    {
        proof {
            reveal(alt_player_parse_end);
        }
        let (firstname, p1) = match FixedString::decode(bytes, pos) {
            Ok(p) => p,
            Err(e) => {
                return Err(e);
            },
        };
        let (nickname, p2) = match FixedString::decode(bytes, p1) {
            Ok(p) => p,
            Err(e) => {
                return Err(e);
            },
        };
        let (lastname, p3) = match FixedString::decode(bytes, p2) {
            Ok(p) => p,
            Err(e) => {
                return Err(e);
            },
        };
        let (position, p4) = match PlayerPosition9::decode(bytes, p3) {
            Ok(p) => p,
            Err(e) => {
                return Err(e);
            },
        };
        let (position_group, p5) = match PlayerPositionGroup9::decode(bytes, p4) {
            Ok(p) => p,
            Err(e) => {
                return Err(e);
            },
        };
        let (some_1, p6) = match read_u32(bytes, p5) {
            Ok(p) => p,
            Err(e) => {
                return Err(e);
            },
        };
        let (years_experience, p7) = match read_u32(bytes, p6) {
            Ok(p) => p,
            Err(e) => {
                return Err(e);
            },
        };
        let (data_1, p8) = match read_u32_block(bytes, p7, 152) {
            Ok(p) => p,
            Err(e) => {
                return Err(e);
            },
        };
        let ((some1, some2, some3, some4, some5, past, current), p9) = match read_stat_lists(
            bytes,
            p8,
        ) {
            Ok(p) => p,
            Err(e) => {
                return Err(e);
            },
        };
        let ((what, overall, data_3, data_4), end) = match read_stat_tail(bytes, p9) {
            Ok(p) => p,
            Err(e) => {
                return Err(e);
            },
        };
        let v = AltPlayer9Data {
            firstname,
            nickname,
            lastname,
            position,
            position_group,
            some_1,
            years_experience,
            data_1,
            some1,
            some2,
            some3,
            some4,
            some5,
            past,
            current,
            what,
            overall,
            data_3,
            data_4,
        };
        proof {
            lemma_split(bytes@, p8 as int, p9 as int, end as int);
            lemma_split(bytes@, p7 as int, p8 as int, end as int);
            lemma_split(bytes@, p6 as int, p7 as int, end as int);
            lemma_split(bytes@, p5 as int, p6 as int, end as int);
            lemma_split(bytes@, p4 as int, p5 as int, end as int);
            lemma_split(bytes@, p3 as int, p4 as int, end as int);
            lemma_split(bytes@, p2 as int, p3 as int, end as int);
            lemma_split(bytes@, p1 as int, p2 as int, end as int);
            lemma_split(bytes@, pos as int, p1 as int, end as int);
            assert(bytes@.subrange(pos as int, end as int) == alt_player_bytes(v));
        }
        Ok((v, end))
    }
}

/// One roster entry of the current players shape.
#[derive(Clone, Debug)]
pub struct Player9Data {
    pub player_id: u32,
    pub firstname: FixedString,
    pub middlename: FixedString,
    pub lastname: FixedString,
    pub position: PlayerPosition9,
    pub position_group: PlayerPositionGroup9,
    pub some_1: u32,
    pub years_experience: u32,
    pub data_1: Vec<u32>,
    pub year_1: u32,
    pub year_2: u32,
    pub some1: Vec<SomeData2>,
    pub some2: Vec<SomeData3>,
    pub some3: Vec<SomeData3>,
    pub some4: Vec<SomeData3>,
    pub some5: Vec<SomeData3>,
    pub past: Vec<SomeData>,
    pub current: Vec<SomeData>,
    pub what: Vec<u32>,
    pub overall: Vec<RelativeStats9>,
    pub data_3: Vec<u32>,
    pub data_4: Vec<SomeData4>,
}

/// Where a current-shape roster entry starting at `pos` ends, or nothing
/// where a field does not fit or a position tag is unknown.
#[verifier::opaque]
pub open spec fn player_parse_end(b: Seq<u8>, pos: int) -> Option<int> {
    if !(0 <= pos && pos + 4 <= b.len()) {
        None
    } else {
        match text_parse_end(b, pos + 4) {
            None => None,
            Some(t1) => match text_parse_end(b, t1) {
                None => None,
                Some(t2) => match text_parse_end(b, t2) {
                    None => None,
                    Some(t3) => if t3 + 8 <= b.len() && position_tag_valid(u32_of_prefix(b, t3))
                        && position_group_tag_valid(u32_of_prefix(b, t3 + 4)) && t3 + 624
                        <= b.len() {
                        match stat_lists_parse_end(b, t3 + 624) {
                            None => None,
                            Some(sl) => stat_tail_parse_end(b, sl),
                        }
                    } else {
                        None
                    },
                },
            },
        }
    }
}

/// The on-disk encoding of one current-shape roster entry.
pub open spec fn player_bytes(p: Player9Data) -> Seq<u8> {
    u32_le_bytes(p.player_id) + (fixed_string_bytes(p.firstname.string@) + (fixed_string_bytes(
        p.middlename.string@,
    ) + (fixed_string_bytes(p.lastname.string@) + (position_bytes(p.position) + (
    position_group_bytes(p.position_group) + (u32_le_bytes(p.some_1) + (u32_le_bytes(
        p.years_experience,
    ) + (u32s_bytes(p.data_1@) + (u32_le_bytes(p.year_1) + (u32_le_bytes(p.year_2) + (
    stat_lists_bytes(p.some1@, p.some2@, p.some3@, p.some4@, p.some5@, p.past@, p.current@)
        + stat_tail_bytes(p.what@, p.overall@, p.data_3@, p.data_4@))))))))))))
}

/// The concatenated encodings of the roster list.
pub open spec fn player_list_bytes(s: Seq<Player9Data>) -> Seq<u8> {
    encode_list(s, |p: Player9Data| player_bytes(p))
}

impl Player9Data {
    /// A roster entry is storable when its text fields are and its fixed
    /// blocks and counted lists have their proper sizes.
    pub open spec fn wf(&self) -> bool {
        &&& self.firstname.wf()
        &&& self.middlename.wf()
        &&& self.lastname.wf()
        &&& self.data_1@.len() == 150
        &&& self.some1@.len() <= u32::MAX
        &&& self.some2@.len() <= u32::MAX
        &&& self.some3@.len() <= u32::MAX
        &&& self.some4@.len() <= u32::MAX
        &&& self.some5@.len() <= u32::MAX
        &&& self.past@.len() <= u32::MAX
        &&& self.current@.len() <= u32::MAX
        &&& self.what@.len() == 3
        &&& self.overall@.len() == 3
        &&& forall|i: int| 0 <= i < self.overall@.len() ==> self.overall@[i].wf()
        &&& self.data_3@.len() == 48
        &&& self.data_4@.len() <= u32::MAX
        &&& forall|i: int| 0 <= i < self.data_4@.len() ==> self.data_4@[i].wf()
    }

    /// The stored player identifier.
    pub fn player_id(&self) -> (r: u32)
        ensures
            r == self.player_id,
    {
        self.player_id
    }

    /// The player's position group.
    pub fn position_group(&self) -> (r: PlayerPositionGroup9)
        ensures
            r == self.position_group,
    {
        self.position_group
    }

    /// The player's position.
    pub fn position(&self) -> (r: PlayerPosition9)
        ensures
            r == self.position,
    {
        self.position
    }

    /// The player's display name: first name, a space, last name.
    pub fn name(&self) -> (r: String)
        ensures
            r@ == self.firstname.string@ + " "@ + self.lastname.string@,
    {
        let mut r = self.firstname.string.clone();
        r.append(" ");
        r.append(self.lastname.string.as_str());
        r
    }

    /// Decodes one current-shape roster entry.
    #[verifier::rlimit(100)]
    pub fn decode(bytes: &Vec<u8>, pos: usize) -> (r: Result<(Player9Data, usize), Fof9Error>)
        ensures
            r is Ok <==> player_parse_end(bytes@, pos as int) is Some,
            r matches Ok((v, end)) ==> v.wf() && pos < end <= bytes@.len() && bytes@.subrange(
                pos as int,
                end as int,
            ) =~= player_bytes(v) && player_parse_end(bytes@, pos as int) == Some(end as int),
            r matches Err(e) ==> e is TruncatedInput || e is UnknownVariantTag,
    {
        proof {
            reveal(player_parse_end);
        }
        let (player_id, p0) = match read_u32(bytes, pos) {
            Ok(p) => p,
            Err(e) => {
                return Err(e);
            },
        };
        let (firstname, p1) = match FixedString::decode(bytes, p0) {
            Ok(p) => p,
            Err(e) => {
                return Err(e);
            },
        };
        let (middlename, p2) = match FixedString::decode(bytes, p1) {
            Ok(p) => p,
            Err(e) => {
                return Err(e);
            },
        };
        let (lastname, p3) = match FixedString::decode(bytes, p2) {
            Ok(p) => p,
            Err(e) => {
                return Err(e);
            },
        };
        let (position, p4) = match PlayerPosition9::decode(bytes, p3) {
            Ok(p) => p,
            Err(e) => {
                return Err(e);
            },
        };
        let (position_group, p5) = match PlayerPositionGroup9::decode(bytes, p4) {
            Ok(p) => p,
            Err(e) => {
                return Err(e);
            },
        };
        let (some_1, p6) = match read_u32(bytes, p5) {
            Ok(p) => p,
            Err(e) => {
                return Err(e);
            },
        };
        let (years_experience, p7) = match read_u32(bytes, p6) {
            Ok(p) => p,
            Err(e) => {
                return Err(e);
            },
        };
        let (data_1, p8) = match read_u32_block(bytes, p7, 150) {
            Ok(p) => p,
            Err(e) => {
                return Err(e);
            },
        };
        let (year_1, p9) = match read_u32(bytes, p8) {
            Ok(p) => p,
            Err(e) => {
                return Err(e);
            },
        };
        let (year_2, p10) = match read_u32(bytes, p9) {
            Ok(p) => p,
            Err(e) => {
                return Err(e);
            },
        };
        let ((some1, some2, some3, some4, some5, past, current), p11) = match read_stat_lists(
            bytes,
            p10,
        ) {
            Ok(p) => p,
            Err(e) => {
                return Err(e);
            },
        };
        let ((what, overall, data_3, data_4), end) = match read_stat_tail(bytes, p11) {
            Ok(p) => p,
            Err(e) => {
                return Err(e);
            },
        };
        let v = Player9Data {
            player_id,
            firstname,
            middlename,
            lastname,
            position,
            position_group,
            some_1,
            years_experience,
            data_1,
            year_1,
            year_2,
            some1,
            some2,
            some3,
            some4,
            some5,
            past,
            current,
            what,
            overall,
            data_3,
            data_4,
        };
        proof {
            lemma_split(bytes@, p10 as int, p11 as int, end as int);
            lemma_split(bytes@, p9 as int, p10 as int, end as int);
            lemma_split(bytes@, p8 as int, p9 as int, end as int);
            lemma_split(bytes@, p7 as int, p8 as int, end as int);
            lemma_split(bytes@, p6 as int, p7 as int, end as int);
            lemma_split(bytes@, p5 as int, p6 as int, end as int);
            lemma_split(bytes@, p4 as int, p5 as int, end as int);
            lemma_split(bytes@, p3 as int, p4 as int, end as int);
            lemma_split(bytes@, p2 as int, p3 as int, end as int);
            lemma_split(bytes@, p1 as int, p2 as int, end as int);
            lemma_split(bytes@, p0 as int, p1 as int, end as int);
            lemma_split(bytes@, pos as int, p0 as int, end as int);
            assert(bytes@.subrange(pos as int, end as int) == player_bytes(v));
        }
        Ok((v, end))
    }
}

/// One staff record: an identifier, two name fields, fixed blocks, and two
/// counted lists.
#[derive(Clone, Debug)]
pub struct StaffData9 {
    pub staff_id: u32,
    pub firstname: FixedString,
    pub lastname: FixedString,
    pub stuff_1: Vec<u32>,
    pub list: Vec<StaffListItem9>,
    pub last_thing: Vec<StaffSmall1>,
    pub stuff_2: Vec<u32>,
}

/// Where a staff record starting at `pos` ends, or nothing where a field
/// or counted list does not fit the stream.
#[verifier::opaque]
pub open spec fn staff_parse_end(b: Seq<u8>, pos: int) -> Option<int> {
    if !(0 <= pos && pos + 4 <= b.len()) {
        None
    } else {
        match text_parse_end(b, pos + 4) {
            None => None,
            Some(t1) => match text_parse_end(b, t1) {
                None => None,
                Some(t2) => if t2 + 168 <= b.len() {
                    let q1 = t2 + 168 + 28 * u32_of_prefix(b, t2 + 164);
                    if q1 <= b.len() && q1 + 4 <= b.len() {
                        let q2 = q1 + 4 + 8 * u32_of_prefix(b, q1);
                        if q2 <= b.len() && q2 + 36 <= b.len() {
                            Some(q2 + 36)
                        } else {
                            None
                        }
                    } else {
                        None
                    }
                } else {
                    None
                },
            },
        }
    }
}

/// The on-disk encoding of one staff record.
pub open spec fn staff_bytes(s: StaffData9) -> Seq<u8> {
    u32_le_bytes(s.staff_id) + (fixed_string_bytes(s.firstname.string@) + (fixed_string_bytes(
        s.lastname.string@,
    ) + (u32s_bytes(s.stuff_1@) + (u32_le_bytes(s.list@.len() as u32) + (staff_item_list_bytes(
        s.list@,
    ) + (u32_le_bytes(s.last_thing@.len() as u32) + (staff_small_list_bytes(s.last_thing@)
        + u32s_bytes(s.stuff_2@))))))))
}

/// The concatenated encodings of the staff list.
pub open spec fn staff_list_bytes(s: Seq<StaffData9>) -> Seq<u8> {
    encode_list(s, |d: StaffData9| staff_bytes(d))
}

impl StaffData9 {
    /// A staff record is storable when its text fields are and its blocks
    /// and counted lists have their proper sizes.
    pub open spec fn wf(&self) -> bool {
        &&& self.firstname.wf()
        &&& self.lastname.wf()
        &&& self.stuff_1@.len() == 41
        &&& self.list@.len() <= u32::MAX
        &&& forall|i: int| 0 <= i < self.list@.len() ==> self.list@[i].wf()
        &&& self.last_thing@.len() <= u32::MAX
        &&& forall|i: int| 0 <= i < self.last_thing@.len() ==> self.last_thing@[i].wf()
        &&& self.stuff_2@.len() == 9
    }

    /// The stored staff identifier.
    pub fn staff_id(&self) -> (r: u32)
        ensures
            r == self.staff_id,
    {
        self.staff_id
    }

    /// The role label shared by all staff records.
    pub fn position(&self) -> (r: String)
        ensures
            r@ == "Staff"@,
    {
        String::from_str("Staff")
    }

    /// The staff member's display name: first name, a space, last name.
    pub fn name(&self) -> (r: String)
        ensures
            r@ == self.firstname.string@ + " "@ + self.lastname.string@,
    {
        let mut r = self.firstname.string.clone();
        r.append(" ");
        r.append(self.lastname.string.as_str());
        r
    }

    /// Decodes one staff record.
    #[verifier::rlimit(100)]
    pub fn decode(bytes: &Vec<u8>, pos: usize) -> (r: Result<(StaffData9, usize), Fof9Error>)
        ensures
            r is Ok <==> staff_parse_end(bytes@, pos as int) is Some,
            r matches Ok((v, end)) ==> v.wf() && pos < end <= bytes@.len() && bytes@.subrange(
                pos as int,
                end as int,
            ) =~= staff_bytes(v) && staff_parse_end(bytes@, pos as int) == Some(end as int),
            r matches Err(e) ==> e is TruncatedInput,
    {
        proof {
            reveal(staff_parse_end);
        }
        let (staff_id, p1) = match read_u32(bytes, pos) {
            Ok(p) => p,
            Err(e) => {
                return Err(e);
            },
        };
        let (firstname, p2) = match FixedString::decode(bytes, p1) {
            Ok(p) => p,
            Err(e) => {
                return Err(e);
            },
        };
        let (lastname, p3) = match FixedString::decode(bytes, p2) {
            Ok(p) => p,
            Err(e) => {
                return Err(e);
            },
        };
        let (stuff_1, p4) = match read_u32_block(bytes, p3, 41) {
            Ok(p) => p,
            Err(e) => {
                return Err(e);
            },
        };
        let (c1, p5) = match read_u32(bytes, p4) {
            Ok(p) => p,
            Err(e) => {
                return Err(e);
            },
        };
        let (list, p6) = match read_staff_items(bytes, p5, c1 as usize) {
            Ok(p) => p,
            Err(e) => {
                return Err(e);
            },
        };
        let (c2, p7) = match read_u32(bytes, p6) {
            Ok(p) => p,
            Err(e) => {
                return Err(e);
            },
        };
        let (last_thing, p8) = match read_staff_smalls(bytes, p7, c2 as usize) {
            Ok(p) => p,
            Err(e) => {
                return Err(e);
            },
        };
        let (stuff_2, end) = match read_u32_block(bytes, p8, 9) {
            Ok(p) => p,
            Err(e) => {
                return Err(e);
            },
        };
        let v = StaffData9 { staff_id, firstname, lastname, stuff_1, list, last_thing, stuff_2 };
        proof {
            lemma_split(bytes@, p7 as int, p8 as int, end as int);
            lemma_split(bytes@, p6 as int, p7 as int, end as int);
            lemma_split(bytes@, p5 as int, p6 as int, end as int);
            lemma_split(bytes@, p4 as int, p5 as int, end as int);
            lemma_split(bytes@, p3 as int, p4 as int, end as int);
            lemma_split(bytes@, p2 as int, p3 as int, end as int);
            lemma_split(bytes@, p1 as int, p2 as int, end as int);
            lemma_split(bytes@, pos as int, p1 as int, end as int);
            assert(bytes@.subrange(pos as int, end as int) == staff_bytes(v));
        }
        Ok((v, end))
    }
}

/// Where a counted roster list starting at `pos` ends, or nothing where
/// one of its entries is invalid.
#[verifier::opaque]
pub open spec fn player_list_parse_end(b: Seq<u8>, pos: int, count: int) -> Option<int>
    decreases count,
{
    if count <= 0 {
        if 0 <= pos <= b.len() {
            Some(pos)
        } else {
            None
        }
    } else {
        match player_parse_end(b, pos) {
            None => None,
            Some(e) => player_list_parse_end(b, e, count - 1),
        }
    }
}

/// Reads the counted roster list.
#[verifier::rlimit(100)]
fn read_player_list(bytes: &Vec<u8>, pos: usize, count: usize) -> (r: Result<
    (Vec<Player9Data>, usize),
    Fof9Error,
>)
    ensures
        r is Ok <==> player_list_parse_end(bytes@, pos as int, count as int) is Some,
        r matches Ok((v, end)) ==> v@.len() == count && pos <= end <= bytes@.len()
            && bytes@.subrange(pos as int, end as int) =~= player_list_bytes(v@) && (forall|i: int|
            0 <= i < v@.len() ==> v@[i].wf()) && player_list_parse_end(
            bytes@,
            pos as int,
            count as int,
        ) == Some(end as int),
        r matches Err(e) ==> e is TruncatedInput || e is UnknownVariantTag,
{
    if pos > bytes.len() {
        proof {
            reveal(player_list_parse_end);
            reveal(player_parse_end);
        }
        return Err(Fof9Error::TruncatedInput { pos });
    }
    proof {
        reveal(player_list_parse_end);
    }
    let mut items: Vec<Player9Data> = Vec::new();
    let mut cur: usize = pos;
    let mut i: usize = 0;
    proof {
        assert(bytes@.subrange(pos as int, pos as int) =~= Seq::<u8>::empty());
    }
    while i < count
        invariant
            i == items@.len() <= count,
            pos <= cur <= bytes@.len(),
            bytes@.subrange(pos as int, cur as int) =~= player_list_bytes(items@),
            forall|j: int| 0 <= j < items@.len() ==> items@[j].wf(),
            player_list_parse_end(bytes@, pos as int, count as int) == player_list_parse_end(
                bytes@,
                cur as int,
                count - i,
            ),
        decreases count - i,
    {
        proof {
            reveal(player_list_parse_end);
        }
        let (v, next) = match Player9Data::decode(bytes, cur) {
            Ok(p) => p,
            Err(e) => {
                return Err(e);
            },
        };
        proof {
            lemma_encode_list_push(items@, |p: Player9Data| player_bytes(p), v);
            lemma_split(bytes@, pos as int, cur as int, next as int);
        }
        items.push(v);
        cur = next;
        i = i + 1;
    }
    Ok((items, cur))
}

/// Where a counted staff list starting at `pos` ends, or nothing where
/// one of its entries is invalid.
#[verifier::opaque]
pub open spec fn staff_list_parse_end(b: Seq<u8>, pos: int, count: int) -> Option<int>
    decreases count,
{
    if count <= 0 {
        if 0 <= pos <= b.len() {
            Some(pos)
        } else {
            None
        }
    } else {
        match staff_parse_end(b, pos) {
            None => None,
            Some(e) => staff_list_parse_end(b, e, count - 1),
        }
    }
}

/// Reads the counted staff list.
#[verifier::rlimit(100)]
fn read_staff_list(bytes: &Vec<u8>, pos: usize, count: usize) -> (r: Result<
    (Vec<StaffData9>, usize),
    Fof9Error,
>)
    ensures
        r is Ok <==> staff_list_parse_end(bytes@, pos as int, count as int) is Some,
        r matches Ok((v, end)) ==> v@.len() == count && pos <= end <= bytes@.len()
            && bytes@.subrange(pos as int, end as int) =~= staff_list_bytes(v@) && (forall|i: int|
            0 <= i < v@.len() ==> v@[i].wf()) && staff_list_parse_end(
            bytes@,
            pos as int,
            count as int,
        ) == Some(end as int),
        r matches Err(e) ==> e is TruncatedInput,
{
    if pos > bytes.len() {
        proof {
            reveal(staff_list_parse_end);
            reveal(staff_parse_end);
        }
        return Err(Fof9Error::TruncatedInput { pos });
    }
    proof {
        reveal(staff_list_parse_end);
    }
    let mut items: Vec<StaffData9> = Vec::new();
    let mut cur: usize = pos;
    let mut i: usize = 0;
    proof {
        assert(bytes@.subrange(pos as int, pos as int) =~= Seq::<u8>::empty());
    }
    while i < count
        invariant
            i == items@.len() <= count,
            pos <= cur <= bytes@.len(),
            bytes@.subrange(pos as int, cur as int) =~= staff_list_bytes(items@),
            forall|j: int| 0 <= j < items@.len() ==> items@[j].wf(),
            staff_list_parse_end(bytes@, pos as int, count as int) == staff_list_parse_end(
                bytes@,
                cur as int,
                count - i,
            ),
        decreases count - i,
    {
        proof {
            reveal(staff_list_parse_end);
        }
        let (v, next) = match StaffData9::decode(bytes, cur) {
            Ok(p) => p,
            Err(e) => {
                return Err(e);
            },
        };
        proof {
            lemma_encode_list_push(items@, |d: StaffData9| staff_bytes(d), v);
            lemma_split(bytes@, pos as int, cur as int, next as int);
        }
        items.push(v);
        cur = next;
        i = i + 1;
    }
    Ok((items, cur))
}

/// A whole players file of the current shape: the counted roster, four
/// counted groups, one more counted group, and the counted staff list.
/// Every stored count is recomputed from its list on re-encode.
#[derive(Clone, Debug)]
pub struct Players9Data {
    pub data_version: u32,
    pub players: Vec<Player9Data>,
    pub next_1: Vec<NextData9>,
    pub next_2: Vec<NextData9>,
    pub next_3: Vec<NextData9>,
    pub next_4: Vec<NextData9>,
    pub more_1: Vec<MoreData9>,
    pub staff: Vec<StaffData9>,
}

/// Where the six counted groups that follow the roster end, or nothing
/// where one of them does not fit the stream.
#[verifier::opaque]
pub open spec fn players_groups_parse_end(b: Seq<u8>, p4: int) -> Option<int> {
    if p4 + 4 <= b.len() {
        let q1 = p4 + 4 + 588 * u32_of_prefix(b, p4);
        if q1 <= b.len() && q1 + 4 <= b.len() {
            let q2 = q1 + 4 + 588 * u32_of_prefix(b, q1);
            if q2 <= b.len() && q2 + 4 <= b.len() {
                let q3 = q2 + 4 + 588 * u32_of_prefix(b, q2);
                if q3 <= b.len() && q3 + 4 <= b.len() {
                    let q4 = q3 + 4 + 588 * u32_of_prefix(b, q3);
                    if q4 <= b.len() && q4 + 4 <= b.len() {
                        let q5 = q4 + 4 + 212 * u32_of_prefix(b, q4);
                        if q5 <= b.len() && q5 + 4 <= b.len() {
                            staff_list_parse_end(b, q5 + 4, u32_of_prefix(b, q5) as int)
                        } else {
                            None
                        }
                    } else {
                        None
                    }
                } else {
                    None
                }
            } else {
                None
            }
        } else {
            None
        }
    } else {
        None
    }
}

/// Where a whole players file of the current shape ends, or nothing where
/// its signature, roster, counted groups, or staff list are invalid.
#[verifier::opaque]
pub open spec fn players_parse_end(b: Seq<u8>) -> Option<int> {
    if !(24 <= b.len() && b.subrange(0, 16) == player_magic_bytes()) {
        None
    } else {
        match player_list_parse_end(b, 24, u32_of_prefix(b, 20) as int) {
            None => None,
            Some(p4) => players_groups_parse_end(b, p4),
        }
    }
}

/// The on-disk encoding of the six counted groups that follow the roster.
pub open spec fn players_groups_bytes(
    next_1: Seq<NextData9>,
    next_2: Seq<NextData9>,
    next_3: Seq<NextData9>,
    next_4: Seq<NextData9>,
    more_1: Seq<MoreData9>,
    staff: Seq<StaffData9>,
) -> Seq<u8> {
    u32_le_bytes(next_1.len() as u32) + (next_list_bytes(next_1) + (u32_le_bytes(
        next_2.len() as u32,
    ) + (next_list_bytes(next_2) + (u32_le_bytes(next_3.len() as u32) + (next_list_bytes(next_3)
        + (u32_le_bytes(next_4.len() as u32) + (next_list_bytes(next_4) + (u32_le_bytes(
        more_1.len() as u32,
    ) + (more_list_bytes(more_1) + (u32_le_bytes(staff.len() as u32) + staff_list_bytes(
        staff,
    )))))))))))
}

/// The on-disk encoding of a whole players file of the current shape.
pub open spec fn players_data_bytes(p: Players9Data) -> Seq<u8> {
    player_magic_bytes() + (u32_le_bytes(p.data_version) + (u32_le_bytes(p.players@.len() as u32)
        + (player_list_bytes(p.players@) + players_groups_bytes(
        p.next_1@,
        p.next_2@,
        p.next_3@,
        p.next_4@,
        p.more_1@,
        p.staff@,
    ))))
}

impl Players9Data {
    /// A players file is storable when all its lists fit their counts and
    /// all their entries are storable.
    pub open spec fn wf(&self) -> bool {
        &&& self.players@.len() <= u32::MAX
        &&& forall|i: int| 0 <= i < self.players@.len() ==> self.players@[i].wf()
        &&& self.next_1@.len() <= u32::MAX
        &&& forall|i: int| 0 <= i < self.next_1@.len() ==> self.next_1@[i].wf()
        &&& self.next_2@.len() <= u32::MAX
        &&& forall|i: int| 0 <= i < self.next_2@.len() ==> self.next_2@[i].wf()
        &&& self.next_3@.len() <= u32::MAX
        &&& forall|i: int| 0 <= i < self.next_3@.len() ==> self.next_3@[i].wf()
        &&& self.next_4@.len() <= u32::MAX
        &&& forall|i: int| 0 <= i < self.next_4@.len() ==> self.next_4@[i].wf()
        &&& self.more_1@.len() <= u32::MAX
        &&& forall|i: int| 0 <= i < self.more_1@.len() ==> self.more_1@[i].wf()
        &&& self.staff@.len() <= u32::MAX
        &&& forall|i: int| 0 <= i < self.staff@.len() ==> self.staff@[i].wf()
    }

    /// The decoded roster.
    pub fn players(&self) -> (r: &Vec<Player9Data>)
        ensures
            r@ == self.players@,
    {
        &self.players
    }

    /// The number of roster entries, which the current shape treats as the
    /// highest player identifier.
    pub fn max_player_id(&self) -> (r: u32)
        requires
            self.players@.len() <= u32::MAX,
        ensures
            r == self.players@.len(),
    {
        self.players.len() as u32
    }

    /// The decoded staff list.
    pub fn staff(&self) -> (r: &Vec<StaffData9>)
        ensures
            r@ == self.staff@,
    {
        &self.staff
    }

    /// Decodes a whole players file of the current shape. The stream must
    /// be consumed exactly to its end.
    #[verifier::rlimit(100)]
    pub fn decode(bytes: &Vec<u8>) -> (r: Result<Players9Data, Fof9Error>)
        ensures
            r is Ok <==> players_parse_end(bytes@) == Some(bytes@.len() as int),
            r matches Ok(v) ==> v.wf() && bytes@ =~= players_data_bytes(v),
            r matches Err(e) ==> e is TruncatedInput || e is MagicMismatch
                || e is UnknownVariantTag || e is StructuralInvariantViolation,
    {
        proof {
            reveal(players_parse_end);
        }
        let magic = player_magic();
        let p1 = match expect_bytes(bytes, 0, &magic) {
            Ok(p) => p,
            Err(e) => {
                return Err(e);
            },
        };
        let (data_version, p2) = match read_u32(bytes, p1) {
            Ok(p) => p,
            Err(e) => {
                return Err(e);
            },
        };
        let (pc, p3) = match read_u32(bytes, p2) {
            Ok(p) => p,
            Err(e) => {
                return Err(e);
            },
        };
        let (players, p4) = match read_player_list(bytes, p3, pc as usize) {
            Ok(p) => p,
            Err(e) => {
                return Err(e);
            },
        };
        let ((next_1, next_2, next_3, next_4, more_1, staff), p16) = match read_player_groups(
            bytes,
            p4,
        ) {
            Ok(p) => p,
            Err(e) => {
                return Err(e);
            },
        };
        if p16 != bytes.len() {
            // Trailing bytes mean the configured shape does not match the
            // file revision at hand.
            return Err(Fof9Error::StructuralInvariantViolation { pos: p16 });
        }
        let v = players_from_parts(
            bytes,
            data_version,
            players,
            next_1,
            next_2,
            next_3,
            next_4,
            more_1,
            staff,
            Ghost((p1 as int, p2 as int, p3 as int, p4 as int)),
        );
        Ok(v)
    }
}

/// Reads the six counted groups that follow the roster.
#[verifier::rlimit(100)]
fn read_player_groups(bytes: &Vec<u8>, pos: usize) -> (r: Result<
    ((Vec<NextData9>, Vec<NextData9>, Vec<NextData9>, Vec<NextData9>, Vec<MoreData9>,
        Vec<StaffData9>), usize),
    Fof9Error,
>)
    ensures
        r is Ok <==> players_groups_parse_end(bytes@, pos as int) is Some,
        r matches Ok(((n1, n2, n3, n4, m1, st), end)) ==> n1@.len() <= u32::MAX && n2@.len()
            <= u32::MAX && n3@.len() <= u32::MAX && n4@.len() <= u32::MAX && m1@.len() <= u32::MAX
            && st@.len() <= u32::MAX && (forall|i: int| 0 <= i < n1@.len() ==> n1@[i].wf()) && (
        forall|i: int| 0 <= i < n2@.len() ==> n2@[i].wf()) && (forall|i: int|
            0 <= i < n3@.len() ==> n3@[i].wf()) && (forall|i: int|
            0 <= i < n4@.len() ==> n4@[i].wf()) && (forall|i: int|
            0 <= i < m1@.len() ==> m1@[i].wf()) && (forall|i: int|
            0 <= i < st@.len() ==> st@[i].wf()) && pos <= end <= bytes@.len() && bytes@.subrange(
            pos as int,
            end as int,
        ) =~= players_groups_bytes(n1@, n2@, n3@, n4@, m1@, st@) && players_groups_parse_end(
            bytes@,
            pos as int,
        ) == Some(end as int),
        r matches Err(e) ==> e is TruncatedInput || e is StructuralInvariantViolation,
{
    proof {
        reveal(players_groups_parse_end);
    }
    let (c1, p5) = match read_u32(bytes, pos) {
        Ok(p) => p,
        Err(e) => {
            return Err(e);
        },
    };
    let (next_1, p6) = match read_next_list(bytes, p5, c1 as usize) {
        Ok(p) => p,
        Err(e) => {
            return Err(e);
        },
    };
    let (c2, p7) = match read_u32(bytes, p6) {
        Ok(p) => p,
        Err(e) => {
            return Err(e);
        },
    };
    let (next_2, p8) = match read_next_list(bytes, p7, c2 as usize) {
        Ok(p) => p,
        Err(e) => {
            return Err(e);
        },
    };
    let (c3, p9) = match read_u32(bytes, p8) {
        Ok(p) => p,
        Err(e) => {
            return Err(e);
        },
    };
    let (next_3, p10) = match read_next_list(bytes, p9, c3 as usize) {
        Ok(p) => p,
        Err(e) => {
            return Err(e);
        },
    };
    let (c4, p11) = match read_u32(bytes, p10) {
        Ok(p) => p,
        Err(e) => {
            return Err(e);
        },
    };
    let (next_4, p12) = match read_next_list(bytes, p11, c4 as usize) {
        Ok(p) => p,
        Err(e) => {
            return Err(e);
        },
    };
    let (c5, p13) = match read_u32(bytes, p12) {
        Ok(p) => p,
        Err(e) => {
            return Err(e);
        },
    };
    let (more_1, p14) = match read_more_list(bytes, p13, c5 as usize) {
        Ok(p) => p,
        Err(e) => {
            return Err(e);
        },
    };
    let (c6, p15) = match read_u32(bytes, p14) {
        Ok(p) => p,
        Err(e) => {
            return Err(e);
        },
    };
    let (staff, p16) = match read_staff_list(bytes, p15, c6 as usize) {
        Ok(p) => p,
        Err(e) => {
            return Err(e);
        },
    };
    proof {
        lemma_split(bytes@, p14 as int, p15 as int, p16 as int);
        lemma_split(bytes@, p13 as int, p14 as int, p16 as int);
        lemma_split(bytes@, p12 as int, p13 as int, p16 as int);
        lemma_split(bytes@, p11 as int, p12 as int, p16 as int);
        lemma_split(bytes@, p10 as int, p11 as int, p16 as int);
        lemma_split(bytes@, p9 as int, p10 as int, p16 as int);
        lemma_split(bytes@, p8 as int, p9 as int, p16 as int);
        lemma_split(bytes@, p7 as int, p8 as int, p16 as int);
        lemma_split(bytes@, p6 as int, p7 as int, p16 as int);
        lemma_split(bytes@, p5 as int, p6 as int, p16 as int);
        lemma_split(bytes@, pos as int, p5 as int, p16 as int);
    }
    Ok(((next_1, next_2, next_3, next_4, more_1, staff), p16))
}

/// Assembles a decoded players file from its parts, each already matched
/// to its byte range, the last of which reaches the end of the stream.
#[verifier::rlimit(100)]
fn players_from_parts(
    bytes: &Vec<u8>,
    data_version: u32,
    players: Vec<Player9Data>,
    next_1: Vec<NextData9>,
    next_2: Vec<NextData9>,
    next_3: Vec<NextData9>,
    next_4: Vec<NextData9>,
    more_1: Vec<MoreData9>,
    staff: Vec<StaffData9>,
    Ghost(ps): Ghost<(int, int, int, int)>,
) -> (v: Players9Data)
    requires
        0 <= ps.0 <= ps.1 <= ps.2 <= ps.3 <= bytes@.len(),
        bytes@.subrange(0, ps.0) == player_magic_bytes(),
        bytes@.subrange(ps.0, ps.1) == u32_le_bytes(data_version),
        players@.len() <= u32::MAX,
        bytes@.subrange(ps.1, ps.2) == u32_le_bytes(players@.len() as u32),
        bytes@.subrange(ps.2, ps.3) == player_list_bytes(players@),
        forall|i: int| 0 <= i < players@.len() ==> players@[i].wf(),
        next_1@.len() <= u32::MAX,
        forall|i: int| 0 <= i < next_1@.len() ==> next_1@[i].wf(),
        next_2@.len() <= u32::MAX,
        forall|i: int| 0 <= i < next_2@.len() ==> next_2@[i].wf(),
        next_3@.len() <= u32::MAX,
        forall|i: int| 0 <= i < next_3@.len() ==> next_3@[i].wf(),
        next_4@.len() <= u32::MAX,
        forall|i: int| 0 <= i < next_4@.len() ==> next_4@[i].wf(),
        more_1@.len() <= u32::MAX,
        forall|i: int| 0 <= i < more_1@.len() ==> more_1@[i].wf(),
        staff@.len() <= u32::MAX,
        forall|i: int| 0 <= i < staff@.len() ==> staff@[i].wf(),
        bytes@.subrange(ps.3, bytes@.len() as int) == players_groups_bytes(
            next_1@,
            next_2@,
            next_3@,
            next_4@,
            more_1@,
            staff@,
        ),
    ensures
        v.wf(),
        bytes@ =~= players_data_bytes(v),
{
    let v = Players9Data { data_version, players, next_1, next_2, next_3, next_4, more_1, staff };
    proof {
        let end = bytes@.len() as int;
        lemma_split(bytes@, ps.2, ps.3, end);
        lemma_split(bytes@, ps.1, ps.2, end);
        lemma_split(bytes@, ps.0, ps.1, end);
        lemma_split(bytes@, 0, ps.0, end);
        assert(bytes@.subrange(0, end) == players_data_bytes(v));
        assert(bytes@ =~= bytes@.subrange(0, end));
    }
    v
}

/// The encoding of one legacy roster entry together with its leading
/// identifier tag.
pub open spec fn alt_entry_bytes(entry: (AltPlayer9Id, AltPlayer9Data)) -> Seq<u8> {
    u32_le_bytes(entry.0.player_id) + alt_player_bytes(entry.1)
}

/// The concatenated encodings of the legacy roster entries.
pub open spec fn alt_entry_list_bytes(s: Seq<(AltPlayer9Id, AltPlayer9Data)>) -> Seq<u8> {
    encode_list(s, |e: (AltPlayer9Id, AltPlayer9Data)| alt_entry_bytes(e))
}

/// Where the legacy sentinel-terminated roster list starting at `p` ends:
/// a zero leading tag closes the list and must close the stream; any other
/// tag must be followed by one roster entry.
#[verifier::opaque]
pub open spec fn alt_list_parse_end(b: Seq<u8>, p: int) -> Option<int>
    decreases b.len() - p,
{
    if !(0 <= p && p + 4 <= b.len()) {
        None
    } else if u32_of_prefix(b, p) == 0 {
        if p + 4 == b.len() {
            Some(p + 4)
        } else {
            None
        }
    } else {
        match alt_player_parse_end(b, p + 4) {
            None => None,
            Some(e) => if p + 4 < e <= b.len() {
                alt_list_parse_end(b, e)
            } else {
                None
            },
        }
    }
}

/// Decodes a whole players file of the legacy shape: the header, then one
/// roster entry after another until a zero-valued leading tag, which is
/// consumed but yields no entry. A stream that ends before the zero tag
/// fails, and nothing may follow it.
#[verifier::rlimit(100)]
pub fn decode_alt_players(bytes: &Vec<u8>) -> (r: Result<
    (AltPlayers9Header, Vec<(AltPlayer9Id, AltPlayer9Data)>),
    Fof9Error,
>)
    ensures
        r is Ok <==> 24 <= bytes@.len() && bytes@.subrange(0, 16) =~= player_magic_bytes()
            && alt_list_parse_end(bytes@, 24) is Some,
        r matches Ok((h, list)) ==> (forall|i: int|
            0 <= i < list@.len() ==> (#[trigger] list@[i]).0.player_id != 0 && list@[i].1.wf())
            && bytes@ =~= alt_header_bytes(h) + (alt_entry_list_bytes(list@) + u32_le_bytes(0)),
        r matches Err(e) ==> e is TruncatedInput || e is MagicMismatch || e is UnknownVariantTag
            || e is UnexpectedEndOfSequence || e is StructuralInvariantViolation,
{
    proof {
        reveal(alt_list_parse_end);
    }
    let (header, p1) = match AltPlayers9Header::decode(bytes, 0) {
        Ok(p) => p,
        Err(e) => {
            return Err(e);
        },
    };
    let mut items: Vec<(AltPlayer9Id, AltPlayer9Data)> = Vec::new();
    let mut cur: usize = p1;
    proof {
        assert(bytes@.subrange(p1 as int, p1 as int) =~= Seq::<u8>::empty());
    }
    loop
        invariant
            p1 == 24 <= cur <= bytes@.len(),
            bytes@.subrange(0, p1 as int) == alt_header_bytes(header),
            bytes@.subrange(p1 as int, cur as int) =~= alt_entry_list_bytes(items@),
            forall|i: int|
                0 <= i < items@.len() ==> (#[trigger] items@[i]).0.player_id != 0
                    && items@[i].1.wf(),
            alt_list_parse_end(bytes@, 24) == alt_list_parse_end(bytes@, cur as int),
        decreases bytes@.len() - cur,
    {
        proof {
            reveal(alt_list_parse_end);
        }
        let (id, p_id) = match AltPlayer9Id::decode(bytes, cur) {
            Ok(p) => p,
            Err(_) => {
                // The stream ended without producing the terminal tag.
                return Err(Fof9Error::UnexpectedEndOfSequence { pos: cur });
            },
        };
        if id.player_id == 0 {
            if p_id != bytes.len() {
                // Nothing may follow the terminal tag.
                return Err(Fof9Error::StructuralInvariantViolation { pos: p_id });
            }
            proof {
                lemma_split(bytes@, p1 as int, cur as int, p_id as int);
                lemma_split(bytes@, 0, p1 as int, p_id as int);
                assert(bytes@ =~= bytes@.subrange(0, bytes@.len() as int));
            }
            return Ok((header, items));
        }
        let (data, next) = match AltPlayer9Data::decode(bytes, p_id) {
            Ok(p) => p,
            Err(e) => {
                return Err(e);
            },
        };
        proof {
            lemma_encode_list_push(
                items@,
                |e: (AltPlayer9Id, AltPlayer9Data)| alt_entry_bytes(e),
                (id, data),
            );
            lemma_split(bytes@, cur as int, p_id as int, next as int);
            lemma_split(bytes@, p1 as int, cur as int, next as int);
        }
        items.push((id, data));
        cur = next;
    }
}

} // verus!
