//! The per-week play-by-play file: a sequence of games, each a
//! sentinel-terminated sequence of sections anchored by fixed ASCII magics,
//! with tag-dispatched play variants inside the play sections.

use vstd::prelude::*;
use vstd::string::StringExecFns;
use crate::bytes::{
    read_u32, read_i32, read_u32_block, expect_bytes, lemma_split, lemma_encode_list_push,
    encode_list, u32_le_bytes, u32s_bytes, u32_of_prefix, lemma_prefix_of, lemma_u32x2,
    lemma_u32x6, lemma_u32x9,
};
use crate::error::Fof9Error;
use crate::text::{
    FixedString, fixed_string_bytes, text_parse_end, latin1_chars, dec_bytes, pad2_bytes,
    dec_digits, pad2_digits, digits_to_string,
};
use crate::Position;

verus! {

/// The number of defender-assignment slots in one run or pass play.
pub const NUM_BLITZERS: usize = 10;

/// One 32-bit tag selecting the offensive formation of one play.
#[derive(Clone, Copy, Debug, PartialEq, Eq, Structural)]
pub enum OffensiveFormation9 {
    Pro,
    Weak,
    Strong,
    IForm,
    Empty,
}

/// The stored tag of each variant.
pub open spec fn offensive_formation_tag(v: OffensiveFormation9) -> u32 {
    match v {
        OffensiveFormation9::Pro => 0,
        OffensiveFormation9::Weak => 1,
        OffensiveFormation9::Strong => 2,
        OffensiveFormation9::IForm => 3,
        OffensiveFormation9::Empty => 4,
    }
}

/// The on-disk encoding of the tag.
pub open spec fn offensive_formation_bytes(v: OffensiveFormation9) -> Seq<u8> {
    u32_le_bytes(offensive_formation_tag(v))
}

/// Whether a stored tag falls in the closed set of this enumeration.
pub open spec fn offensive_formation_tag_valid(t: u32) -> bool {
    t <= 4
}

impl OffensiveFormation9 {
    /// Decodes one tag; values outside the closed set fail.
    pub fn decode(bytes: &Vec<u8>, pos: usize) -> (r: Result<(OffensiveFormation9, usize), Fof9Error>)
        ensures
            r matches Ok((v, end)) ==> end == pos + 4 <= bytes@.len() && bytes@.subrange(
                pos as int,
                end as int,
            ) =~= offensive_formation_bytes(v),
            r is Ok <==> pos + 4 <= bytes@.len() && offensive_formation_tag_valid(
                u32_of_prefix(bytes@, pos as int),
            ),
            r matches Err(e) ==> e is TruncatedInput || e is UnknownVariantTag,
            r matches Err(e) ==> (e is TruncatedInput <==> pos + 4 > bytes@.len()),
    {
        let (tag, end) = match read_u32(bytes, pos) {
            Ok(p) => p,
            Err(e) => {
                return Err(e);
            },
        };
        proof {
            crate::bytes::lemma_u32_le_injective(tag);
            assert(u32_of_prefix(bytes@, pos as int) == tag);
        }
        let v = match tag {
            0u32 => OffensiveFormation9::Pro,
            1u32 => OffensiveFormation9::Weak,
            2u32 => OffensiveFormation9::Strong,
            3u32 => OffensiveFormation9::IForm,
            4u32 => OffensiveFormation9::Empty,
            _ => {
                return Err(Fof9Error::UnknownVariantTag { pos, tag });
            },
        };
        Ok((v, end))
    }

    /// The display label of the variant.
    pub fn label(&self) -> (r: String)
        ensures
            r@ == self.spec_label(),
    {
        match self {
            OffensiveFormation9::Pro => String::from_str("Pro"),
            OffensiveFormation9::Weak => String::from_str("Weak"),
            OffensiveFormation9::Strong => String::from_str("Strong"),
            OffensiveFormation9::IForm => String::from_str("I"),
            OffensiveFormation9::Empty => String::from_str("Empty Backfield"),
        }
    }

    /// The display label, at the spec level.
    pub open spec fn spec_label(&self) -> Seq<char> {
        match self {
            OffensiveFormation9::Pro => "Pro"@,
            OffensiveFormation9::Weak => "Weak"@,
            OffensiveFormation9::Strong => "Strong"@,
            OffensiveFormation9::IForm => "I"@,
            OffensiveFormation9::Empty => "Empty Backfield"@,
        }
    }
}

/// One 32-bit tag selecting the offensive personnel package of one play.
#[derive(Clone, Copy, Debug, PartialEq, Eq, Structural)]
pub enum OffensivePersonnel9 {
    Op005,
    Op014,
    Op014t,
    Op023,
    Op104,
    Op113,
    Op113t,
    Op122,
    Op131,
    Op203,
    Op212,
    Op221,
    Op230,
}

/// The stored tag of each variant.
pub open spec fn offensive_personnel_tag(v: OffensivePersonnel9) -> u32 {
    match v {
        OffensivePersonnel9::Op005 => 0,
        OffensivePersonnel9::Op014 => 1,
        OffensivePersonnel9::Op014t => 2,
        OffensivePersonnel9::Op023 => 3,
        OffensivePersonnel9::Op104 => 4,
        OffensivePersonnel9::Op113 => 5,
        OffensivePersonnel9::Op113t => 6,
        OffensivePersonnel9::Op122 => 7,
        OffensivePersonnel9::Op131 => 8,
        OffensivePersonnel9::Op203 => 9,
        OffensivePersonnel9::Op212 => 10,
        OffensivePersonnel9::Op221 => 11,
        OffensivePersonnel9::Op230 => 12,
    }
}

/// The on-disk encoding of the tag.
pub open spec fn offensive_personnel_bytes(v: OffensivePersonnel9) -> Seq<u8> {
    u32_le_bytes(offensive_personnel_tag(v))
}

/// Whether a stored tag falls in the closed set of this enumeration.
pub open spec fn offensive_personnel_tag_valid(t: u32) -> bool {
    t <= 12
}

impl OffensivePersonnel9 {
    /// Decodes one tag; values outside the closed set fail.
    pub fn decode(bytes: &Vec<u8>, pos: usize) -> (r: Result<(OffensivePersonnel9, usize), Fof9Error>)
        ensures
            r matches Ok((v, end)) ==> end == pos + 4 <= bytes@.len() && bytes@.subrange(
                pos as int,
                end as int,
            ) =~= offensive_personnel_bytes(v),
            r is Ok <==> pos + 4 <= bytes@.len() && offensive_personnel_tag_valid(
                u32_of_prefix(bytes@, pos as int),
            ),
            r matches Err(e) ==> e is TruncatedInput || e is UnknownVariantTag,
            r matches Err(e) ==> (e is TruncatedInput <==> pos + 4 > bytes@.len()),
    {
        let (tag, end) = match read_u32(bytes, pos) {
            Ok(p) => p,
            Err(e) => {
                return Err(e);
            },
        };
        proof {
            crate::bytes::lemma_u32_le_injective(tag);
            assert(u32_of_prefix(bytes@, pos as int) == tag);
        }
        let v = match tag {
            0u32 => OffensivePersonnel9::Op005,
            1u32 => OffensivePersonnel9::Op014,
            2u32 => OffensivePersonnel9::Op014t,
            3u32 => OffensivePersonnel9::Op023,
            4u32 => OffensivePersonnel9::Op104,
            5u32 => OffensivePersonnel9::Op113,
            6u32 => OffensivePersonnel9::Op113t,
            7u32 => OffensivePersonnel9::Op122,
            8u32 => OffensivePersonnel9::Op131,
            9u32 => OffensivePersonnel9::Op203,
            10u32 => OffensivePersonnel9::Op212,
            11u32 => OffensivePersonnel9::Op221,
            12u32 => OffensivePersonnel9::Op230,
            _ => {
                return Err(Fof9Error::UnknownVariantTag { pos, tag });
            },
        };
        Ok((v, end))
    }

    /// The display label of the variant.
    pub fn label(&self) -> (r: String)
        ensures
            r@ == self.spec_label(),
    {
        match self {
            OffensivePersonnel9::Op005 => String::from_str("005"),
            OffensivePersonnel9::Op014 => String::from_str("014"),
            OffensivePersonnel9::Op014t => String::from_str("014t"),
            OffensivePersonnel9::Op023 => String::from_str("023"),
            OffensivePersonnel9::Op104 => String::from_str("104"),
            OffensivePersonnel9::Op113 => String::from_str("113"),
            OffensivePersonnel9::Op113t => String::from_str("113t"),
            OffensivePersonnel9::Op122 => String::from_str("122"),
            OffensivePersonnel9::Op131 => String::from_str("131"),
            OffensivePersonnel9::Op203 => String::from_str("203"),
            OffensivePersonnel9::Op212 => String::from_str("212"),
            OffensivePersonnel9::Op221 => String::from_str("221"),
            OffensivePersonnel9::Op230 => String::from_str("230"),
        }
    }

    /// The display label, at the spec level.
    pub open spec fn spec_label(&self) -> Seq<char> {
        match self {
            OffensivePersonnel9::Op005 => "005"@,
            OffensivePersonnel9::Op014 => "014"@,
            OffensivePersonnel9::Op014t => "014t"@,
            OffensivePersonnel9::Op023 => "023"@,
            OffensivePersonnel9::Op104 => "104"@,
            OffensivePersonnel9::Op113 => "113"@,
            OffensivePersonnel9::Op113t => "113t"@,
            OffensivePersonnel9::Op122 => "122"@,
            OffensivePersonnel9::Op131 => "131"@,
            OffensivePersonnel9::Op203 => "203"@,
            OffensivePersonnel9::Op212 => "212"@,
            OffensivePersonnel9::Op221 => "221"@,
            OffensivePersonnel9::Op230 => "230"@,
        }
    }
}

/// One 32-bit tag selecting the defensive personnel package of one play.
#[derive(Clone, Copy, Debug, PartialEq, Eq, Structural)]
pub enum DefensivePersonnel9 {
    Man,
    Nickel,
    Dime,
    Prevent,
    GoalLine,
}

/// The stored tag of each variant.
pub open spec fn defensive_personnel_tag(v: DefensivePersonnel9) -> u32 {
    match v {
        DefensivePersonnel9::Man => 0,
        DefensivePersonnel9::Nickel => 1,
        DefensivePersonnel9::Dime => 2,
        DefensivePersonnel9::Prevent => 3,
        DefensivePersonnel9::GoalLine => 4,
    }
}

/// The on-disk encoding of the tag.
pub open spec fn defensive_personnel_bytes(v: DefensivePersonnel9) -> Seq<u8> {
    u32_le_bytes(defensive_personnel_tag(v))
}

/// Whether a stored tag falls in the closed set of this enumeration.
pub open spec fn defensive_personnel_tag_valid(t: u32) -> bool {
    t <= 4
}

impl DefensivePersonnel9 {
    /// Decodes one tag; values outside the closed set fail.
    pub fn decode(bytes: &Vec<u8>, pos: usize) -> (r: Result<(DefensivePersonnel9, usize), Fof9Error>)
        ensures
            r matches Ok((v, end)) ==> end == pos + 4 <= bytes@.len() && bytes@.subrange(
                pos as int,
                end as int,
            ) =~= defensive_personnel_bytes(v),
            r is Ok <==> pos + 4 <= bytes@.len() && defensive_personnel_tag_valid(
                u32_of_prefix(bytes@, pos as int),
            ),
            r matches Err(e) ==> e is TruncatedInput || e is UnknownVariantTag,
            r matches Err(e) ==> (e is TruncatedInput <==> pos + 4 > bytes@.len()),
    {
        let (tag, end) = match read_u32(bytes, pos) {
            Ok(p) => p,
            Err(e) => {
                return Err(e);
            },
        };
        proof {
            crate::bytes::lemma_u32_le_injective(tag);
            assert(u32_of_prefix(bytes@, pos as int) == tag);
        }
        let v = match tag {
            0u32 => DefensivePersonnel9::Man,
            1u32 => DefensivePersonnel9::Nickel,
            2u32 => DefensivePersonnel9::Dime,
            3u32 => DefensivePersonnel9::Prevent,
            4u32 => DefensivePersonnel9::GoalLine,
            _ => {
                return Err(Fof9Error::UnknownVariantTag { pos, tag });
            },
        };
        Ok((v, end))
    }

    /// The display label of the variant.
    pub fn label(&self) -> (r: String)
        ensures
            r@ == self.spec_label(),
    {
        match self {
            DefensivePersonnel9::Man => String::from_str("Man"),
            DefensivePersonnel9::Nickel => String::from_str("Nickel"),
            DefensivePersonnel9::Dime => String::from_str("Dime"),
            DefensivePersonnel9::Prevent => String::from_str("Prevent"),
            DefensivePersonnel9::GoalLine => String::from_str("GoalLine"),
        }
    }

    /// The display label, at the spec level.
    pub open spec fn spec_label(&self) -> Seq<char> {
        match self {
            DefensivePersonnel9::Man => "Man"@,
            DefensivePersonnel9::Nickel => "Nickel"@,
            DefensivePersonnel9::Dime => "Dime"@,
            DefensivePersonnel9::Prevent => "Prevent"@,
            DefensivePersonnel9::GoalLine => "GoalLine"@,
        }
    }
}

/// One 32-bit tag selecting the defensive coverage scheme of one play.
#[derive(Clone, Copy, Debug, PartialEq, Eq, Structural)]
pub enum DefensiveCoverage9 {
    Zero,
    One,
    Two,
    Three,
    Four,
    Five,
    Six,
    Seven,
    Eight,
    Nine,
    Ten,
    Eleven,
    Twelve,
    Thirteen,
    Fourteen,
    Fifteen,
}

/// The stored tag of each variant.
pub open spec fn defensive_coverage_tag(v: DefensiveCoverage9) -> u32 {
    match v {
        DefensiveCoverage9::Zero => 0,
        DefensiveCoverage9::One => 1,
        DefensiveCoverage9::Two => 2,
        DefensiveCoverage9::Three => 3,
        DefensiveCoverage9::Four => 4,
        DefensiveCoverage9::Five => 5,
        DefensiveCoverage9::Six => 6,
        DefensiveCoverage9::Seven => 7,
        DefensiveCoverage9::Eight => 8,
        DefensiveCoverage9::Nine => 9,
        DefensiveCoverage9::Ten => 10,
        DefensiveCoverage9::Eleven => 11,
        DefensiveCoverage9::Twelve => 12,
        DefensiveCoverage9::Thirteen => 13,
        DefensiveCoverage9::Fourteen => 14,
        DefensiveCoverage9::Fifteen => 15,
    }
}

/// The on-disk encoding of the tag.
pub open spec fn defensive_coverage_bytes(v: DefensiveCoverage9) -> Seq<u8> {
    u32_le_bytes(defensive_coverage_tag(v))
}

/// Whether a stored tag falls in the closed set of this enumeration.
pub open spec fn defensive_coverage_tag_valid(t: u32) -> bool {
    t <= 15
}

impl DefensiveCoverage9 {
    /// Decodes one tag; values outside the closed set fail.
    pub fn decode(bytes: &Vec<u8>, pos: usize) -> (r: Result<(DefensiveCoverage9, usize), Fof9Error>)
        ensures
            r matches Ok((v, end)) ==> end == pos + 4 <= bytes@.len() && bytes@.subrange(
                pos as int,
                end as int,
            ) =~= defensive_coverage_bytes(v),
            r is Ok <==> pos + 4 <= bytes@.len() && defensive_coverage_tag_valid(
                u32_of_prefix(bytes@, pos as int),
            ),
            r matches Err(e) ==> e is TruncatedInput || e is UnknownVariantTag,
            r matches Err(e) ==> (e is TruncatedInput <==> pos + 4 > bytes@.len()),
    {
        let (tag, end) = match read_u32(bytes, pos) {
            Ok(p) => p,
            Err(e) => {
                return Err(e);
            },
        };
        proof {
            crate::bytes::lemma_u32_le_injective(tag);
            assert(u32_of_prefix(bytes@, pos as int) == tag);
        }
        let v = match tag {
            0u32 => DefensiveCoverage9::Zero,
            1u32 => DefensiveCoverage9::One,
            2u32 => DefensiveCoverage9::Two,
            3u32 => DefensiveCoverage9::Three,
            4u32 => DefensiveCoverage9::Four,
            5u32 => DefensiveCoverage9::Five,
            6u32 => DefensiveCoverage9::Six,
            7u32 => DefensiveCoverage9::Seven,
            8u32 => DefensiveCoverage9::Eight,
            9u32 => DefensiveCoverage9::Nine,
            10u32 => DefensiveCoverage9::Ten,
            11u32 => DefensiveCoverage9::Eleven,
            12u32 => DefensiveCoverage9::Twelve,
            13u32 => DefensiveCoverage9::Thirteen,
            14u32 => DefensiveCoverage9::Fourteen,
            15u32 => DefensiveCoverage9::Fifteen,
            _ => {
                return Err(Fof9Error::UnknownVariantTag { pos, tag });
            },
        };
        Ok((v, end))
    }

    /// The display label of the variant.
    pub fn label(&self) -> (r: String)
        ensures
            r@ == self.spec_label(),
    {
        match self {
            DefensiveCoverage9::Zero => String::from_str("Cover 0 Press"),
            DefensiveCoverage9::One => String::from_str("Cover 0"),
            DefensiveCoverage9::Two => String::from_str("Cover 1 Press"),
            DefensiveCoverage9::Three => String::from_str("Cover 1"),
            DefensiveCoverage9::Four => String::from_str("Cover 1 Hole/Press"),
            DefensiveCoverage9::Five => String::from_str("Cover 2 Zone"),
            DefensiveCoverage9::Six => String::from_str("Cover 2 Press"),
            DefensiveCoverage9::Seven => String::from_str("Cover 2"),
            DefensiveCoverage9::Eight => String::from_str("Tampa 2 Zone"),
            DefensiveCoverage9::Nine => String::from_str("Cover 3 Sky Zone"),
            DefensiveCoverage9::Ten => String::from_str("Cover 3 Cloud Zone"),
            DefensiveCoverage9::Eleven => String::from_str("Cover 3 Buzz Zone"),
            DefensiveCoverage9::Twelve => String::from_str("Cover 4 Zone"),
            DefensiveCoverage9::Thirteen => String::from_str("Cover 4 Match Press"),
            DefensiveCoverage9::Fourteen => String::from_str("Cover 4 Match"),
            DefensiveCoverage9::Fifteen => String::from_str("Cover 6 Zone"),
        }
    }

    /// The display label, at the spec level.
    pub open spec fn spec_label(&self) -> Seq<char> {
        match self {
            DefensiveCoverage9::Zero => "Cover 0 Press"@,
            DefensiveCoverage9::One => "Cover 0"@,
            DefensiveCoverage9::Two => "Cover 1 Press"@,
            DefensiveCoverage9::Three => "Cover 1"@,
            DefensiveCoverage9::Four => "Cover 1 Hole/Press"@,
            DefensiveCoverage9::Five => "Cover 2 Zone"@,
            DefensiveCoverage9::Six => "Cover 2 Press"@,
            DefensiveCoverage9::Seven => "Cover 2"@,
            DefensiveCoverage9::Eight => "Tampa 2 Zone"@,
            DefensiveCoverage9::Nine => "Cover 3 Sky Zone"@,
            DefensiveCoverage9::Ten => "Cover 3 Cloud Zone"@,
            DefensiveCoverage9::Eleven => "Cover 3 Buzz Zone"@,
            DefensiveCoverage9::Twelve => "Cover 4 Zone"@,
            DefensiveCoverage9::Thirteen => "Cover 4 Match Press"@,
            DefensiveCoverage9::Fourteen => "Cover 4 Match"@,
            DefensiveCoverage9::Fifteen => "Cover 6 Zone"@,
        }
    }
}

/// One 32-bit tag selecting the defensive front of one play.
#[derive(Clone, Copy, Debug, PartialEq, Eq, Structural)]
pub enum DefensiveFront9 {
    True34,
    Eagle34,
    Under43,
    Over43,
}

/// The stored tag of each variant.
pub open spec fn defensive_front_tag(v: DefensiveFront9) -> u32 {
    match v {
        DefensiveFront9::True34 => 0,
        DefensiveFront9::Eagle34 => 1,
        DefensiveFront9::Under43 => 2,
        DefensiveFront9::Over43 => 3,
    }
}

/// The on-disk encoding of the tag.
pub open spec fn defensive_front_bytes(v: DefensiveFront9) -> Seq<u8> {
    u32_le_bytes(defensive_front_tag(v))
}

/// Whether a stored tag falls in the closed set of this enumeration.
pub open spec fn defensive_front_tag_valid(t: u32) -> bool {
    t <= 3
}

impl DefensiveFront9 {
    /// Decodes one tag; values outside the closed set fail.
    pub fn decode(bytes: &Vec<u8>, pos: usize) -> (r: Result<(DefensiveFront9, usize), Fof9Error>)
        ensures
            r matches Ok((v, end)) ==> end == pos + 4 <= bytes@.len() && bytes@.subrange(
                pos as int,
                end as int,
            ) =~= defensive_front_bytes(v),
            r is Ok <==> pos + 4 <= bytes@.len() && defensive_front_tag_valid(
                u32_of_prefix(bytes@, pos as int),
            ),
            r matches Err(e) ==> e is TruncatedInput || e is UnknownVariantTag,
            r matches Err(e) ==> (e is TruncatedInput <==> pos + 4 > bytes@.len()),
    {
        let (tag, end) = match read_u32(bytes, pos) {
            Ok(p) => p,
            Err(e) => {
                return Err(e);
            },
        };
        proof {
            crate::bytes::lemma_u32_le_injective(tag);
            assert(u32_of_prefix(bytes@, pos as int) == tag);
        }
        let v = match tag {
            0u32 => DefensiveFront9::True34,
            1u32 => DefensiveFront9::Eagle34,
            2u32 => DefensiveFront9::Under43,
            3u32 => DefensiveFront9::Over43,
            _ => {
                return Err(Fof9Error::UnknownVariantTag { pos, tag });
            },
        };
        Ok((v, end))
    }

    /// The display label of the variant.
    pub fn label(&self) -> (r: String)
        ensures
            r@ == self.spec_label(),
    {
        match self {
            DefensiveFront9::True34 => String::from_str("True 34"),
            DefensiveFront9::Eagle34 => String::from_str("Eagle 34"),
            DefensiveFront9::Under43 => String::from_str("43 Under"),
            DefensiveFront9::Over43 => String::from_str("43 Over"),
        }
    }

    /// The display label, at the spec level.
    pub open spec fn spec_label(&self) -> Seq<char> {
        match self {
            DefensiveFront9::True34 => "True 34"@,
            DefensiveFront9::Eagle34 => "Eagle 34"@,
            DefensiveFront9::Under43 => "43 Under"@,
            DefensiveFront9::Over43 => "43 Over"@,
        }
    }
}

/// One 32-bit tag selecting the special coverage scheme of one play; several distinct codes share one display meaning, so the raw code is preserved.
#[derive(Clone, Copy, Debug, PartialEq, Eq, Structural)]
pub enum SpecialCoverage9 {
    Plain,
    Spy,
    What10,
    What11,
    What20,
    What21,
    What30,
    What31,
    What40,
    What41,
    What50,
    What51,
}

/// The stored tag of each variant.
pub open spec fn special_coverage_tag(v: SpecialCoverage9) -> u32 {
    match v {
        SpecialCoverage9::Plain => 0,
        SpecialCoverage9::Spy => 1,
        SpecialCoverage9::What10 => 10,
        SpecialCoverage9::What11 => 11,
        SpecialCoverage9::What20 => 20,
        SpecialCoverage9::What21 => 21,
        SpecialCoverage9::What30 => 30,
        SpecialCoverage9::What31 => 31,
        SpecialCoverage9::What40 => 40,
        SpecialCoverage9::What41 => 41,
        SpecialCoverage9::What50 => 50,
        SpecialCoverage9::What51 => 51,
    }
}

/// The on-disk encoding of the tag.
pub open spec fn special_coverage_bytes(v: SpecialCoverage9) -> Seq<u8> {
    u32_le_bytes(special_coverage_tag(v))
}

/// Whether a stored tag falls in the closed set of this enumeration.
pub open spec fn special_coverage_tag_valid(t: u32) -> bool {
    t == 0 || t == 1 || t == 10 || t == 11 || t == 20 || t == 21 || t == 30 || t == 31 || t == 40
        || t == 41 || t == 50 || t == 51
}

impl SpecialCoverage9 {
    /// Decodes one tag; values outside the closed set fail.
    pub fn decode(bytes: &Vec<u8>, pos: usize) -> (r: Result<(SpecialCoverage9, usize), Fof9Error>)
        ensures
            r matches Ok((v, end)) ==> end == pos + 4 <= bytes@.len() && bytes@.subrange(
                pos as int,
                end as int,
            ) =~= special_coverage_bytes(v),
            r is Ok <==> pos + 4 <= bytes@.len() && special_coverage_tag_valid(
                u32_of_prefix(bytes@, pos as int),
            ),
            r matches Err(e) ==> e is TruncatedInput || e is UnknownVariantTag,
            r matches Err(e) ==> (e is TruncatedInput <==> pos + 4 > bytes@.len()),
    {
        let (tag, end) = match read_u32(bytes, pos) {
            Ok(p) => p,
            Err(e) => {
                return Err(e);
            },
        };
        proof {
            crate::bytes::lemma_u32_le_injective(tag);
            assert(u32_of_prefix(bytes@, pos as int) == tag);
        }
        let v = match tag {
            0u32 => SpecialCoverage9::Plain,
            1u32 => SpecialCoverage9::Spy,
            10u32 => SpecialCoverage9::What10,
            11u32 => SpecialCoverage9::What11,
            20u32 => SpecialCoverage9::What20,
            21u32 => SpecialCoverage9::What21,
            30u32 => SpecialCoverage9::What30,
            31u32 => SpecialCoverage9::What31,
            40u32 => SpecialCoverage9::What40,
            41u32 => SpecialCoverage9::What41,
            50u32 => SpecialCoverage9::What50,
            51u32 => SpecialCoverage9::What51,
            _ => {
                return Err(Fof9Error::UnknownVariantTag { pos, tag });
            },
        };
        Ok((v, end))
    }

    /// The display label of the variant.
    pub fn label(&self) -> (r: String)
        ensures
            r@ == self.spec_label(),
    {
        match self {
            SpecialCoverage9::Plain => String::from_str(""),
            SpecialCoverage9::Spy => String::from_str("Spy"),
            SpecialCoverage9::What10 => String::from_str("DoubleTop"),
            SpecialCoverage9::What11 => String::from_str("DoubleTop Spy/11"),
            SpecialCoverage9::What20 => String::from_str("DoubleTop/20"),
            SpecialCoverage9::What21 => String::from_str("DoubleTop Spy/21"),
            SpecialCoverage9::What30 => String::from_str("DoubleTop/30"),
            SpecialCoverage9::What31 => String::from_str("DoubleTop Spy/31"),
            SpecialCoverage9::What40 => String::from_str("DoubleTop/40"),
            SpecialCoverage9::What41 => String::from_str("DoubleTop Spy/41"),
            SpecialCoverage9::What50 => String::from_str("DoubleTop/50"),
            SpecialCoverage9::What51 => String::from_str("DoubleTop Spy/51"),
        }
    }

    /// The display label, at the spec level.
    pub open spec fn spec_label(&self) -> Seq<char> {
        match self {
            SpecialCoverage9::Plain => ""@,
            SpecialCoverage9::Spy => "Spy"@,
            SpecialCoverage9::What10 => "DoubleTop"@,
            SpecialCoverage9::What11 => "DoubleTop Spy/11"@,
            SpecialCoverage9::What20 => "DoubleTop/20"@,
            SpecialCoverage9::What21 => "DoubleTop Spy/21"@,
            SpecialCoverage9::What30 => "DoubleTop/30"@,
            SpecialCoverage9::What31 => "DoubleTop Spy/31"@,
            SpecialCoverage9::What40 => "DoubleTop/40"@,
            SpecialCoverage9::What41 => "DoubleTop Spy/41"@,
            SpecialCoverage9::What50 => "DoubleTop/50"@,
            SpecialCoverage9::What51 => "DoubleTop Spy/51"@,
        }
    }
}

/// One 32-bit tag selecting the assignment of one defender on one play.
#[derive(Clone, Copy, Debug, PartialEq, Eq, Structural)]
pub enum DefensiveAssignment9 {
    Normal,
    Blitz,
    Spy,
}

/// The stored tag of each variant.
pub open spec fn defensive_assignment_tag(v: DefensiveAssignment9) -> u32 {
    match v {
        DefensiveAssignment9::Normal => 0,
        DefensiveAssignment9::Blitz => 1,
        DefensiveAssignment9::Spy => 2,
    }
}

/// The on-disk encoding of the tag.
pub open spec fn defensive_assignment_bytes(v: DefensiveAssignment9) -> Seq<u8> {
    u32_le_bytes(defensive_assignment_tag(v))
}

/// Whether a stored tag falls in the closed set of this enumeration.
pub open spec fn defensive_assignment_tag_valid(t: u32) -> bool {
    t <= 2
}

impl DefensiveAssignment9 {
    /// Decodes one tag; values outside the closed set fail.
    pub fn decode(bytes: &Vec<u8>, pos: usize) -> (r: Result<(DefensiveAssignment9, usize), Fof9Error>)
        ensures
            r matches Ok((v, end)) ==> end == pos + 4 <= bytes@.len() && bytes@.subrange(
                pos as int,
                end as int,
            ) =~= defensive_assignment_bytes(v),
            r is Ok <==> pos + 4 <= bytes@.len() && defensive_assignment_tag_valid(
                u32_of_prefix(bytes@, pos as int),
            ),
            r matches Err(e) ==> e is TruncatedInput || e is UnknownVariantTag,
            r matches Err(e) ==> (e is TruncatedInput <==> pos + 4 > bytes@.len()),
    {
        let (tag, end) = match read_u32(bytes, pos) {
            Ok(p) => p,
            Err(e) => {
                return Err(e);
            },
        };
        proof {
            crate::bytes::lemma_u32_le_injective(tag);
            assert(u32_of_prefix(bytes@, pos as int) == tag);
        }
        let v = match tag {
            0u32 => DefensiveAssignment9::Normal,
            1u32 => DefensiveAssignment9::Blitz,
            2u32 => DefensiveAssignment9::Spy,
            _ => {
                return Err(Fof9Error::UnknownVariantTag { pos, tag });
            },
        };
        Ok((v, end))
    }

    /// The display label of the variant.
    pub fn label(&self) -> (r: String)
        ensures
            r@ == self.spec_label(),
    {
        match self {
            DefensiveAssignment9::Normal => String::from_str(""),
            DefensiveAssignment9::Blitz => String::from_str("Blitz"),
            DefensiveAssignment9::Spy => String::from_str("Spy"),
        }
    }

    /// The display label, at the spec level.
    pub open spec fn spec_label(&self) -> Seq<char> {
        match self {
            DefensiveAssignment9::Normal => ""@,
            DefensiveAssignment9::Blitz => "Blitz"@,
            DefensiveAssignment9::Spy => "Spy"@,
        }
    }
}

/// One 32-bit tag selecting the kind of one special play.
#[derive(Clone, Copy, Debug, PartialEq, Eq, Structural)]
pub enum SpecialPlay9 {
    ExtraPoint,
    HomeTimeout,
    AwayTimeout,
    TwoMinute,
    HomeCoin,
    AwayCoin,
    UnknownSix,
    UnknownSeven,
    StartQ1,
    StartQ2,
    StartQ3,
    StartQ4,
    StartOT1,
    StartOT2,
    StartOT3,
    StartOT4,
}

/// The stored tag of each variant.
pub open spec fn special_play_tag(v: SpecialPlay9) -> u32 {
    match v {
        SpecialPlay9::ExtraPoint => 0,
        SpecialPlay9::HomeTimeout => 1,
        SpecialPlay9::AwayTimeout => 2,
        SpecialPlay9::TwoMinute => 3,
        SpecialPlay9::HomeCoin => 4,
        SpecialPlay9::AwayCoin => 5,
        SpecialPlay9::UnknownSix => 6,
        SpecialPlay9::UnknownSeven => 7,
        SpecialPlay9::StartQ1 => 8,
        SpecialPlay9::StartQ2 => 9,
        SpecialPlay9::StartQ3 => 10,
        SpecialPlay9::StartQ4 => 11,
        SpecialPlay9::StartOT1 => 12,
        SpecialPlay9::StartOT2 => 13,
        SpecialPlay9::StartOT3 => 14,
        SpecialPlay9::StartOT4 => 15,
    }
}

/// The on-disk encoding of the tag.
pub open spec fn special_play_bytes(v: SpecialPlay9) -> Seq<u8> {
    u32_le_bytes(special_play_tag(v))
}

/// Whether a stored tag falls in the closed set of this enumeration.
pub open spec fn special_play_tag_valid(t: u32) -> bool {
    t <= 15
}

impl SpecialPlay9 {
    /// Decodes one tag; values outside the closed set fail.
    pub fn decode(bytes: &Vec<u8>, pos: usize) -> (r: Result<(SpecialPlay9, usize), Fof9Error>)
        ensures
            r matches Ok((v, end)) ==> end == pos + 4 <= bytes@.len() && bytes@.subrange(
                pos as int,
                end as int,
            ) =~= special_play_bytes(v),
            r is Ok <==> pos + 4 <= bytes@.len() && special_play_tag_valid(
                u32_of_prefix(bytes@, pos as int),
            ),
            r matches Err(e) ==> e is TruncatedInput || e is UnknownVariantTag,
            r matches Err(e) ==> (e is TruncatedInput <==> pos + 4 > bytes@.len()),
    {
        let (tag, end) = match read_u32(bytes, pos) {
            Ok(p) => p,
            Err(e) => {
                return Err(e);
            },
        };
        proof {
            crate::bytes::lemma_u32_le_injective(tag);
            assert(u32_of_prefix(bytes@, pos as int) == tag);
        }
        let v = match tag {
            0u32 => SpecialPlay9::ExtraPoint,
            1u32 => SpecialPlay9::HomeTimeout,
            2u32 => SpecialPlay9::AwayTimeout,
            3u32 => SpecialPlay9::TwoMinute,
            4u32 => SpecialPlay9::HomeCoin,
            5u32 => SpecialPlay9::AwayCoin,
            6u32 => SpecialPlay9::UnknownSix,
            7u32 => SpecialPlay9::UnknownSeven,
            8u32 => SpecialPlay9::StartQ1,
            9u32 => SpecialPlay9::StartQ2,
            10u32 => SpecialPlay9::StartQ3,
            11u32 => SpecialPlay9::StartQ4,
            12u32 => SpecialPlay9::StartOT1,
            13u32 => SpecialPlay9::StartOT2,
            14u32 => SpecialPlay9::StartOT3,
            15u32 => SpecialPlay9::StartOT4,
            _ => {
                return Err(Fof9Error::UnknownVariantTag { pos, tag });
            },
        };
        Ok((v, end))
    }

    /// The display label of the variant.
    pub fn label(&self) -> (r: String)
        ensures
            r@ == self.spec_label(),
    {
        match self {
            SpecialPlay9::ExtraPoint => String::from_str("Extra Point"),
            SpecialPlay9::HomeTimeout => String::from_str("Home Timeout"),
            SpecialPlay9::AwayTimeout => String::from_str("Away Timeout"),
            SpecialPlay9::TwoMinute => String::from_str("Two Minute Warning"),
            SpecialPlay9::HomeCoin => String::from_str("Coin Toss: Home"),
            SpecialPlay9::AwayCoin => String::from_str("Coin Toss: Away"),
            SpecialPlay9::UnknownSix => String::from_str("?Six"),
            SpecialPlay9::UnknownSeven => String::from_str("?Seven"),
            SpecialPlay9::StartQ1 => String::from_str("Start Q1"),
            SpecialPlay9::StartQ2 => String::from_str("Start Q2"),
            SpecialPlay9::StartQ3 => String::from_str("Start Q3"),
            SpecialPlay9::StartQ4 => String::from_str("Start Q4"),
            SpecialPlay9::StartOT1 => String::from_str("Start OT1"),
            SpecialPlay9::StartOT2 => String::from_str("Start OT2"),
            SpecialPlay9::StartOT3 => String::from_str("Start OT3"),
            SpecialPlay9::StartOT4 => String::from_str("Start OT4"),
        }
    }

    /// The display label, at the spec level.
    pub open spec fn spec_label(&self) -> Seq<char> {
        match self {
            SpecialPlay9::ExtraPoint => "Extra Point"@,
            SpecialPlay9::HomeTimeout => "Home Timeout"@,
            SpecialPlay9::AwayTimeout => "Away Timeout"@,
            SpecialPlay9::TwoMinute => "Two Minute Warning"@,
            SpecialPlay9::HomeCoin => "Coin Toss: Home"@,
            SpecialPlay9::AwayCoin => "Coin Toss: Away"@,
            SpecialPlay9::UnknownSix => "?Six"@,
            SpecialPlay9::UnknownSeven => "?Seven"@,
            SpecialPlay9::StartQ1 => "Start Q1"@,
            SpecialPlay9::StartQ2 => "Start Q2"@,
            SpecialPlay9::StartQ3 => "Start Q3"@,
            SpecialPlay9::StartQ4 => "Start Q4"@,
            SpecialPlay9::StartOT1 => "Start OT1"@,
            SpecialPlay9::StartOT2 => "Start OT2"@,
            SpecialPlay9::StartOT3 => "Start OT3"@,
            SpecialPlay9::StartOT4 => "Start OT4"@,
        }
    }
}


impl SpecialCoverage9 {
    /// Whether this coverage code predicts exactly one spying defender.
    pub open spec fn spec_has_spy(&self) -> bool {
        match self {
            SpecialCoverage9::Spy => true,
            SpecialCoverage9::What11 => true,
            SpecialCoverage9::What21 => true,
            SpecialCoverage9::What31 => true,
            SpecialCoverage9::What41 => true,
            SpecialCoverage9::What51 => true,
            _ => false,
        }
    }

    /// Whether this coverage code predicts exactly one spying defender.
    pub fn has_spy(&self) -> (r: bool)
        ensures
            r == self.spec_has_spy(),
    {
        match self {
            SpecialCoverage9::Spy => true,
            SpecialCoverage9::What11 => true,
            SpecialCoverage9::What21 => true,
            SpecialCoverage9::What31 => true,
            SpecialCoverage9::What41 => true,
            SpecialCoverage9::What51 => true,
            _ => false,
        }
    }
}

/// The stored word of one boolean field: one for true, zero for false.
pub open spec fn bool_word(b: bool) -> u32 {
    if b {
        1
    } else {
        0
    }
}

/// Attendance of one seating area: the turnout and the capacity.
#[derive(Clone, Copy, Debug, PartialEq, Eq, Structural)]
pub struct Attendance9 {
    pub attendance: u32,
    pub capacity: u32,
}

/// The on-disk encoding of one attendance pair.
pub open spec fn attendance_bytes(a: Attendance9) -> Seq<u8> {
    u32s_bytes(seq![a.attendance, a.capacity])
}

impl Attendance9 {
    /// Decodes one attendance pair.
    pub fn decode(bytes: &Vec<u8>, pos: usize) -> (r: Result<(Attendance9, usize), Fof9Error>)
        ensures
            r is Ok <==> pos + 8 <= bytes@.len(),
            r matches Ok((v, end)) ==> end == pos + 8 && bytes@.subrange(pos as int, end as int)
                =~= attendance_bytes(v),
            r matches Err(e) ==> e is TruncatedInput,
    {
        let (w, end) = match read_u32_block(bytes, pos, 2) {
            Ok(p) => p,
            Err(e) => {
                return Err(e);
            },
        };
        let v = Attendance9 { attendance: w[0], capacity: w[1] };
        proof {
            assert(w@ =~= seq![v.attendance, v.capacity]);
        }
        Ok((v, end))
    }
}

/// An injury note on one play: the injury code and the player.
#[derive(Clone, Copy, Debug, PartialEq, Eq, Structural)]
pub struct InjuryInfo9 {
    pub injury: u32,
    pub player: u32,
}

/// The on-disk encoding of one injury note.
pub open spec fn injury_bytes(v: InjuryInfo9) -> Seq<u8> {
    u32s_bytes(seq![v.injury, v.player])
}

impl InjuryInfo9 {
    /// Decodes one injury note.
    pub fn decode(bytes: &Vec<u8>, pos: usize) -> (r: Result<(InjuryInfo9, usize), Fof9Error>)
        ensures
            r is Ok <==> pos + 8 <= bytes@.len(),
            r matches Ok((v, end)) ==> end == pos + 8 && bytes@.subrange(pos as int, end as int)
                =~= injury_bytes(v),
            r matches Err(e) ==> e is TruncatedInput,
    {
        let (w, end) = match read_u32_block(bytes, pos, 2) {
            Ok(p) => p,
            Err(e) => {
                return Err(e);
            },
        };
        let v = InjuryInfo9 { injury: w[0], player: w[1] };
        proof {
            assert(w@ =~= seq![v.injury, v.player]);
        }
        Ok((v, end))
    }
}

/// One scoring drive: when it started and ended, where it started, and
/// what it produced.
#[derive(Clone, Copy, Debug, PartialEq, Eq, Structural)]
pub struct DriveInfo9 {
    pub start_quarter: u32,
    pub start_minutes: u32,
    pub start_seconds: u32,
    pub end_quarter: u32,
    pub end_minutes: u32,
    pub end_seconds: u32,
    pub start_yards_from_goal: u32,
    pub num_plays: u32,
    pub yards_gained: i32,
    pub result: u32,
}

/// The on-disk encoding of one drive record.
pub open spec fn drive_bytes(d: DriveInfo9) -> Seq<u8> {
    u32s_bytes(
        seq![d.start_quarter, d.start_minutes, d.start_seconds, d.end_quarter, d.end_minutes,
            d.end_seconds, d.start_yards_from_goal, d.num_plays],
    ) + (u32_le_bytes(d.yards_gained as u32) + u32_le_bytes(d.result))
}

/// The concatenated encodings of a drive list.
pub open spec fn drive_list_bytes(s: Seq<DriveInfo9>) -> Seq<u8> {
    encode_list(s, |d: DriveInfo9| drive_bytes(d))
}

impl DriveInfo9 {
    /// Decodes one drive record.
    pub fn decode(bytes: &Vec<u8>, pos: usize) -> (r: Result<(DriveInfo9, usize), Fof9Error>)
        ensures
            r is Ok <==> pos + 40 <= bytes@.len(),
            r matches Ok((v, end)) ==> end == pos + 40 && bytes@.subrange(pos as int, end as int)
                =~= drive_bytes(v),
            r matches Err(e) ==> e is TruncatedInput,
    {
        let (w, p1) = match read_u32_block(bytes, pos, 8) {
            Ok(p) => p,
            Err(e) => {
                return Err(e);
            },
        };
        let (yards_gained, p2) = match read_i32(bytes, p1) {
            Ok(p) => p,
            Err(e) => {
                return Err(e);
            },
        };
        let (result, end) = match read_u32(bytes, p2) {
            Ok(p) => p,
            Err(e) => {
                return Err(e);
            },
        };
        let v = DriveInfo9 {
            start_quarter: w[0],
            start_minutes: w[1],
            start_seconds: w[2],
            end_quarter: w[3],
            end_minutes: w[4],
            end_seconds: w[5],
            start_yards_from_goal: w[6],
            num_plays: w[7],
            yards_gained,
            result,
        };
        proof {
            assert(w@ =~= seq![v.start_quarter, v.start_minutes, v.start_seconds, v.end_quarter,
                v.end_minutes, v.end_seconds, v.start_yards_from_goal, v.num_plays]);
            lemma_split(bytes@, p1 as int, p2 as int, end as int);
            lemma_split(bytes@, pos as int, p1 as int, end as int);
        }
        Ok((v, end))
    }
}

/// Passing results of one depth band: attempts, completions, and yards.
#[derive(Clone, Copy, Debug, PartialEq, Eq, Structural)]
pub struct PassPlayStats9 {
    pub attempts: u32,
    pub completions: u32,
    pub yards: i32,
}

/// The on-disk encoding of one passing band.
pub open spec fn pass_play_stats_bytes(v: PassPlayStats9) -> Seq<u8> {
    u32s_bytes(seq![v.attempts, v.completions]) + u32_le_bytes(v.yards as u32)
}

impl PassPlayStats9 {
    /// Decodes one passing band.
    pub fn decode(bytes: &Vec<u8>, pos: usize) -> (r: Result<(PassPlayStats9, usize), Fof9Error>)
        ensures
            r is Ok <==> pos + 12 <= bytes@.len(),
            r matches Ok((v, end)) ==> end == pos + 12 && bytes@.subrange(pos as int, end as int)
                =~= pass_play_stats_bytes(v),
            r matches Err(e) ==> e is TruncatedInput,
    {
        let (w, p1) = match read_u32_block(bytes, pos, 2) {
            Ok(p) => p,
            Err(e) => {
                return Err(e);
            },
        };
        let (yards, end) = match read_i32(bytes, p1) {
            Ok(p) => p,
            Err(e) => {
                return Err(e);
            },
        };
        let v = PassPlayStats9 { attempts: w[0], completions: w[1], yards };
        proof {
            assert(w@ =~= seq![v.attempts, v.completions]);
            lemma_split(bytes@, pos as int, p1 as int, end as int);
        }
        Ok((v, end))
    }
}

/// Passing results of one team over the five depth bands.
#[derive(Clone, Copy, Debug, PartialEq, Eq, Structural)]
pub struct PassStats9 {
    pub screen: PassPlayStats9,
    pub short: PassPlayStats9,
    pub medium: PassPlayStats9,
    pub long: PassPlayStats9,
    pub other: PassPlayStats9,
}

/// The on-disk encoding of one team's passing results.
pub open spec fn pass_stats_bytes(v: PassStats9) -> Seq<u8> {
    pass_play_stats_bytes(v.screen) + (pass_play_stats_bytes(v.short) + (pass_play_stats_bytes(
        v.medium,
    ) + (pass_play_stats_bytes(v.long) + pass_play_stats_bytes(v.other))))
}

impl PassStats9 {
    /// Decodes one team's passing results.
    pub fn decode(bytes: &Vec<u8>, pos: usize) -> (r: Result<(PassStats9, usize), Fof9Error>)
        ensures
            r is Ok <==> pos + 60 <= bytes@.len(),
            r matches Ok((v, end)) ==> end == pos + 60 && bytes@.subrange(pos as int, end as int)
                =~= pass_stats_bytes(v),
            r matches Err(e) ==> e is TruncatedInput,
    {
        let (screen, p1) = match PassPlayStats9::decode(bytes, pos) {
            Ok(p) => p,
            Err(e) => {
                return Err(e);
            },
        };
        let (short, p2) = match PassPlayStats9::decode(bytes, p1) {
            Ok(p) => p,
            Err(e) => {
                return Err(e);
            },
        };
        let (medium, p3) = match PassPlayStats9::decode(bytes, p2) {
            Ok(p) => p,
            Err(e) => {
                return Err(e);
            },
        };
        let (long, p4) = match PassPlayStats9::decode(bytes, p3) {
            Ok(p) => p,
            Err(e) => {
                return Err(e);
            },
        };
        let (other, end) = match PassPlayStats9::decode(bytes, p4) {
            Ok(p) => p,
            Err(e) => {
                return Err(e);
            },
        };
        let v = PassStats9 { screen, short, medium, long, other };
        proof {
            lemma_split(bytes@, p3 as int, p4 as int, end as int);
            lemma_split(bytes@, p2 as int, p3 as int, end as int);
            lemma_split(bytes@, p1 as int, p2 as int, end as int);
            lemma_split(bytes@, pos as int, p1 as int, end as int);
        }
        Ok((v, end))
    }
}

/// Rushing results of one direction: attempts and yards.
#[derive(Clone, Copy, Debug, PartialEq, Eq, Structural)]
pub struct RunPlayStats9 {
    pub attempts: u32,
    pub yards: i32,
}

/// The on-disk encoding of one rushing direction.
pub open spec fn run_play_stats_bytes(v: RunPlayStats9) -> Seq<u8> {
    u32_le_bytes(v.attempts) + u32_le_bytes(v.yards as u32)
}

impl RunPlayStats9 {
    /// Decodes one rushing direction.
    pub fn decode(bytes: &Vec<u8>, pos: usize) -> (r: Result<(RunPlayStats9, usize), Fof9Error>)
        ensures
            r is Ok <==> pos + 8 <= bytes@.len(),
            r matches Ok((v, end)) ==> end == pos + 8 && bytes@.subrange(pos as int, end as int)
                =~= run_play_stats_bytes(v),
            r matches Err(e) ==> e is TruncatedInput,
    {
        let (attempts, p1) = match read_u32(bytes, pos) {
            Ok(p) => p,
            Err(e) => {
                return Err(e);
            },
        };
        let (yards, end) = match read_i32(bytes, p1) {
            Ok(p) => p,
            Err(e) => {
                return Err(e);
            },
        };
        let v = RunPlayStats9 { attempts, yards };
        proof {
            lemma_split(bytes@, pos as int, p1 as int, end as int);
        }
        Ok((v, end))
    }
}

/// Rushing results of one team over the four directions.
#[derive(Clone, Copy, Debug, PartialEq, Eq, Structural)]
pub struct RunStats9 {
    pub left: RunPlayStats9,
    pub middle: RunPlayStats9,
    pub right: RunPlayStats9,
    pub no_direction: RunPlayStats9,
}

/// The on-disk encoding of one team's rushing results.
pub open spec fn run_stats_bytes(v: RunStats9) -> Seq<u8> {
    run_play_stats_bytes(v.left) + (run_play_stats_bytes(v.middle) + (run_play_stats_bytes(
        v.right,
    ) + run_play_stats_bytes(v.no_direction)))
}

impl RunStats9 {
    /// Decodes one team's rushing results.
    pub fn decode(bytes: &Vec<u8>, pos: usize) -> (r: Result<(RunStats9, usize), Fof9Error>)
        ensures
            r is Ok <==> pos + 32 <= bytes@.len(),
            r matches Ok((v, end)) ==> end == pos + 32 && bytes@.subrange(pos as int, end as int)
                =~= run_stats_bytes(v),
            r matches Err(e) ==> e is TruncatedInput,
    {
        let (left, p1) = match RunPlayStats9::decode(bytes, pos) {
            Ok(p) => p,
            Err(e) => {
                return Err(e);
            },
        };
        let (middle, p2) = match RunPlayStats9::decode(bytes, p1) {
            Ok(p) => p,
            Err(e) => {
                return Err(e);
            },
        };
        let (right, p3) = match RunPlayStats9::decode(bytes, p2) {
            Ok(p) => p,
            Err(e) => {
                return Err(e);
            },
        };
        let (no_direction, end) = match RunPlayStats9::decode(bytes, p3) {
            Ok(p) => p,
            Err(e) => {
                return Err(e);
            },
        };
        let v = RunStats9 { left, middle, right, no_direction };
        proof {
            lemma_split(bytes@, p2 as int, p3 as int, end as int);
            lemma_split(bytes@, p1 as int, p2 as int, end as int);
            lemma_split(bytes@, pos as int, p1 as int, end as int);
        }
        Ok((v, end))
    }
}

/// Possession results of one team.
#[derive(Clone, Copy, Debug, PartialEq, Eq, Structural)]
pub struct PossessionStats9 {
    pub seconds: u32,
    pub red_zone_attempts: u32,
    pub red_zone_td: u32,
    pub red_zone_fg: u32,
}

/// The on-disk encoding of one team's possession results.
pub open spec fn possession_bytes(v: PossessionStats9) -> Seq<u8> {
    u32s_bytes(seq![v.seconds, v.red_zone_attempts, v.red_zone_td, v.red_zone_fg])
}

impl PossessionStats9 {
    /// Decodes one team's possession results.
    pub fn decode(bytes: &Vec<u8>, pos: usize) -> (r: Result<(PossessionStats9, usize), Fof9Error>)
        ensures
            r is Ok <==> pos + 16 <= bytes@.len(),
            r matches Ok((v, end)) ==> end == pos + 16 && bytes@.subrange(pos as int, end as int)
                =~= possession_bytes(v),
            r matches Err(e) ==> e is TruncatedInput,
    {
        let (w, end) = match read_u32_block(bytes, pos, 4) {
            Ok(p) => p,
            Err(e) => {
                return Err(e);
            },
        };
        let v = PossessionStats9 {
            seconds: w[0],
            red_zone_attempts: w[1],
            red_zone_td: w[2],
            red_zone_fg: w[3],
        };
        proof {
            assert(w@ =~= seq![v.seconds, v.red_zone_attempts, v.red_zone_td, v.red_zone_fg]);
        }
        Ok((v, end))
    }
}

/// A penalty note on one play. Four stored words are booleans that may
/// hold only zero or one; any other value fails the decode.
#[derive(Clone, Debug)]
pub struct PenaltyInfo9 {
    pub defensive_penalty: bool,
    pub offensive_penalty: bool,
    pub penalty_yards: u32,
    pub kicking_play: bool,
    pub loss_of_down: bool,
    pub something: Vec<u32>,
    pub accept_yardline: u32,
    pub accept_down: u32,
    pub accept_yards_to_go: u32,
    pub decline_yardline: u32,
    pub decline_down: u32,
    pub decline_yards_to_go: u32,
    pub something2: Vec<u32>,
    pub penalty_type: u32,
}

/// Where a penalty note starting at `pos` ends, or nothing where the
/// stream is short or one of its four boolean words is neither zero nor
/// one.
pub open spec fn penalty_parse_end(b: Seq<u8>, pos: int) -> Option<int> {
    if 0 <= pos && pos + 80 <= b.len() && u32_of_prefix(b, pos) <= 1 && u32_of_prefix(b, pos + 4)
        <= 1 && u32_of_prefix(b, pos + 12) <= 1 && u32_of_prefix(b, pos + 16) <= 1 {
        Some(pos + 80)
    } else {
        None
    }
}

/// The on-disk encoding of one penalty note: twenty words.
pub open spec fn penalty_bytes(p: PenaltyInfo9) -> Seq<u8> {
    u32s_bytes(
        seq![bool_word(p.defensive_penalty), bool_word(p.offensive_penalty), p.penalty_yards,
            bool_word(p.kicking_play), bool_word(p.loss_of_down), p.something@[0], p.something@[1],
            p.something@[2], p.something@[3], p.accept_yardline, p.accept_down,
            p.accept_yards_to_go, p.decline_yardline, p.decline_down, p.decline_yards_to_go,
            p.something2@[0], p.something2@[1], p.something2@[2], p.something2@[3],
            p.penalty_type],
    )
}

impl PenaltyInfo9 {
    /// A penalty note is storable when its two opaque blocks have their
    /// fixed size.
    pub open spec fn wf(&self) -> bool {
        self.something@.len() == 4 && self.something2@.len() == 4
    }

    /// Whether any penalty occurred on the play.
    pub fn is_penalty(&self) -> (r: bool)
        ensures
            r == (self.defensive_penalty || self.offensive_penalty),
    {
        self.defensive_penalty || self.offensive_penalty
    }

    /// Decodes one penalty note.
    pub fn decode(bytes: &Vec<u8>, pos: usize) -> (r: Result<(PenaltyInfo9, usize), Fof9Error>)
        ensures
            r is Ok <==> penalty_parse_end(bytes@, pos as int) is Some,
            r matches Ok((v, end)) ==> v.wf() && end == pos + 80 <= bytes@.len()
                && bytes@.subrange(pos as int, end as int) =~= penalty_bytes(v),
            r matches Err(e) ==> e is TruncatedInput || e is StructuralInvariantViolation,
            r matches Err(e) ==> (e is TruncatedInput <==> pos + 80 > bytes@.len()),
    {
        let (w, end) = match read_u32_block(bytes, pos, 20) {
            Ok(p) => p,
            Err(e) => {
                return Err(e);
            },
        };
        if w[0] > 1 || w[1] > 1 || w[3] > 1 || w[4] > 1 {
            return Err(Fof9Error::StructuralInvariantViolation { pos });
        }
        let something: Vec<u32> = vec![w[5], w[6], w[7], w[8]];
        let something2: Vec<u32> = vec![w[15], w[16], w[17], w[18]];
        let v = PenaltyInfo9 {
            defensive_penalty: w[0] == 1,
            offensive_penalty: w[1] == 1,
            penalty_yards: w[2],
            kicking_play: w[3] == 1,
            loss_of_down: w[4] == 1,
            something,
            accept_yardline: w[9],
            accept_down: w[10],
            accept_yards_to_go: w[11],
            decline_yardline: w[12],
            decline_down: w[13],
            decline_yards_to_go: w[14],
            something2,
            penalty_type: w[19],
        };
        proof {
            assert(w@ =~= seq![bool_word(v.defensive_penalty), bool_word(v.offensive_penalty),
                v.penalty_yards, bool_word(v.kicking_play), bool_word(v.loss_of_down),
                v.something@[0], v.something@[1], v.something@[2], v.something@[3],
                v.accept_yardline, v.accept_down, v.accept_yards_to_go, v.decline_yardline,
                v.decline_down, v.decline_yards_to_go, v.something2@[0], v.something2@[1],
                v.something2@[2], v.something2@[3], v.penalty_type]);
        }
        Ok((v, end))
    }
}

/// The formation and scheme context of one run or pass play.
#[derive(Clone, Copy, Debug, PartialEq, Eq, Structural)]
pub struct FormationData9 {
    pub offensive_formation: OffensiveFormation9,
    pub offensive_personnel: OffensivePersonnel9,
    pub def_team: u32,
    pub defensive_personnel: DefensivePersonnel9,
    pub defensive_coverage: DefensiveCoverage9,
    pub defensive_front: DefensiveFront9,
    pub defensive_special: SpecialCoverage9,
}

/// Where a formation record starting at `pos` ends, or nothing where the
/// stream is short or a scheme tag falls outside its closed set.
pub open spec fn formation_parse_end(b: Seq<u8>, pos: int) -> Option<int> {
    if 0 <= pos && pos + 28 <= b.len() && offensive_formation_tag_valid(u32_of_prefix(b, pos))
        && offensive_personnel_tag_valid(u32_of_prefix(b, pos + 4))
        && defensive_personnel_tag_valid(u32_of_prefix(b, pos + 12))
        && defensive_coverage_tag_valid(u32_of_prefix(b, pos + 16))
        && defensive_front_tag_valid(u32_of_prefix(b, pos + 20))
        && special_coverage_tag_valid(u32_of_prefix(b, pos + 24)) {
        Some(pos + 28)
    } else {
        None
    }
}

/// The on-disk encoding of one formation record.
pub open spec fn formation_bytes(f: FormationData9) -> Seq<u8> {
    offensive_formation_bytes(f.offensive_formation) + (offensive_personnel_bytes(
        f.offensive_personnel,
    ) + (u32_le_bytes(f.def_team) + (defensive_personnel_bytes(f.defensive_personnel) + (
    defensive_coverage_bytes(f.defensive_coverage) + (defensive_front_bytes(f.defensive_front)
        + special_coverage_bytes(f.defensive_special))))))
}

impl FormationData9 {
    /// Decodes one formation record.
    pub fn decode(bytes: &Vec<u8>, pos: usize) -> (r: Result<(FormationData9, usize), Fof9Error>)
        ensures
            r is Ok <==> formation_parse_end(bytes@, pos as int) is Some,
            r matches Ok((v, end)) ==> end == pos + 28 <= bytes@.len() && bytes@.subrange(
                pos as int,
                end as int,
            ) =~= formation_bytes(v) && u32_of_prefix(bytes@, pos + 24) == special_coverage_tag(
                v.defensive_special,
            ),
            r matches Err(e) ==> e is TruncatedInput || e is UnknownVariantTag,
    {
        let (offensive_formation, p1) = match OffensiveFormation9::decode(bytes, pos) {
            Ok(p) => p,
            Err(e) => {
                return Err(e);
            },
        };
        let (offensive_personnel, p2) = match OffensivePersonnel9::decode(bytes, p1) {
            Ok(p) => p,
            Err(e) => {
                return Err(e);
            },
        };
        let (def_team, p3) = match read_u32(bytes, p2) {
            Ok(p) => p,
            Err(e) => {
                return Err(e);
            },
        };
        let (defensive_personnel, p4) = match DefensivePersonnel9::decode(bytes, p3) {
            Ok(p) => p,
            Err(e) => {
                return Err(e);
            },
        };
        let (defensive_coverage, p5) = match DefensiveCoverage9::decode(bytes, p4) {
            Ok(p) => p,
            Err(e) => {
                return Err(e);
            },
        };
        let (defensive_front, p6) = match DefensiveFront9::decode(bytes, p5) {
            Ok(p) => p,
            Err(e) => {
                return Err(e);
            },
        };
        let (defensive_special, end) = match SpecialCoverage9::decode(bytes, p6) {
            Ok(p) => p,
            Err(e) => {
                return Err(e);
            },
        };
        let v = FormationData9 {
            offensive_formation,
            offensive_personnel,
            def_team,
            defensive_personnel,
            defensive_coverage,
            defensive_front,
            defensive_special,
        };
        proof {
            lemma_split(bytes@, p5 as int, p6 as int, end as int);
            lemma_split(bytes@, p4 as int, p5 as int, end as int);
            lemma_split(bytes@, p3 as int, p4 as int, end as int);
            lemma_split(bytes@, p2 as int, p3 as int, end as int);
            lemma_split(bytes@, p1 as int, p2 as int, end as int);
            lemma_split(bytes@, pos as int, p1 as int, end as int);
            lemma_prefix_of(
                bytes@,
                p6 as int,
                special_coverage_tag(v.defensive_special),
            );
        }
        Ok((v, end))
    }
}

/// One team as it appears at the start of a game: its number, three name
/// fields, and a fixed opaque block.
#[derive(Clone, Debug)]
pub struct WeekTeamInfo9 {
    pub number: u32,
    pub city: FixedString,
    pub name: FixedString,
    pub short: FixedString,
    pub other_data: Vec<u32>,
}

/// Where a game-team record starting at `pos` ends, or nothing where the
/// stream runs out inside one of its fields.
pub open spec fn week_team_parse_end(b: Seq<u8>, pos: int) -> Option<int> {
    if 0 <= pos && pos + 4 <= b.len() {
        match text_parse_end(b, pos + 4) {
            Some(t1) => match text_parse_end(b, t1) {
                Some(t2) => match text_parse_end(b, t2) {
                    Some(t3) => if t3 + 1488 <= b.len() {
                        Some(t3 + 1488)
                    } else {
                        None
                    },
                    None => None,
                },
                None => None,
            },
            None => None,
        }
    } else {
        None
    }
}

/// The on-disk encoding of one game-team record.
pub open spec fn week_team_bytes(t: WeekTeamInfo9) -> Seq<u8> {
    u32_le_bytes(t.number) + (fixed_string_bytes(t.city.string@) + (fixed_string_bytes(
        t.name.string@,
    ) + (fixed_string_bytes(t.short.string@) + u32s_bytes(t.other_data@))))
}

impl WeekTeamInfo9 {
    /// A game-team record is storable when its text fields are and its
    /// opaque block has its fixed size.
    pub open spec fn wf(&self) -> bool {
        self.city.wf() && self.name.wf() && self.short.wf() && self.other_data@.len() == 372
    }

    /// The team's city, as its own string.
    pub fn city(&self) -> (r: String)
        ensures
            r@ == self.city.string@,
    {
        self.city.string.clone()
    }

    /// The team's name, as its own string.
    pub fn name(&self) -> (r: String)
        ensures
            r@ == self.name.string@,
    {
        self.name.string.clone()
    }

    /// The team's short name, as its own string.
    pub fn short(&self) -> (r: String)
        ensures
            r@ == self.short.string@,
    {
        self.short.string.clone()
    }

    /// Decodes one game-team record.
    pub fn decode(bytes: &Vec<u8>, pos: usize) -> (r: Result<(WeekTeamInfo9, usize), Fof9Error>)
        ensures
            r is Ok <==> week_team_parse_end(bytes@, pos as int) is Some,
            r matches Ok((v, end)) ==> v.wf() && pos <= end <= bytes@.len() && bytes@.subrange(
                pos as int,
                end as int,
            ) =~= week_team_bytes(v) && week_team_parse_end(bytes@, pos as int) == Some(end as int),
            r matches Err(e) ==> e is TruncatedInput,
    {
        let (number, p1) = match read_u32(bytes, pos) {
            Ok(p) => p,
            Err(e) => {
                return Err(e);
            },
        };
        let (city, p2) = match FixedString::decode(bytes, p1) {
            Ok(p) => p,
            Err(e) => {
                return Err(e);
            },
        };
        let (name, p3) = match FixedString::decode(bytes, p2) {
            Ok(p) => p,
            Err(e) => {
                return Err(e);
            },
        };
        let (short, p4) = match FixedString::decode(bytes, p3) {
            Ok(p) => p,
            Err(e) => {
                return Err(e);
            },
        };
        let (other_data, end) = match read_u32_block(bytes, p4, 372) {
            Ok(p) => p,
            Err(e) => {
                return Err(e);
            },
        };
        let v = WeekTeamInfo9 { number, city, name, short, other_data };
        proof {
            lemma_split(bytes@, p3 as int, p4 as int, end as int);
            lemma_split(bytes@, p2 as int, p3 as int, end as int);
            lemma_split(bytes@, p1 as int, p2 as int, end as int);
            lemma_split(bytes@, pos as int, p1 as int, end as int);
        }
        Ok((v, end))
    }
}

/// The result of an extra-point attempt, discriminated by a fixed
/// seven-word pattern rather than a single tag.
#[derive(Clone, Copy, Debug, PartialEq, Eq, Structural)]
pub enum ExtraPointResult9 {
    Kick,
    WideLeftKick,
    LeftUprightKick,
    WideRightKick,
    RightUprightKick,
    BlockedKick,
    FailedTwoPointRun,
    TwoPointRun,
    FailedTwoPointPass,
    TwoPointPass,
    Nothing,
}

/// The seven stored words of each extra-point result.
pub open spec fn extra_point_words(v: ExtraPointResult9) -> Seq<u32> {
    match v {
        ExtraPointResult9::Kick => seq![1u32, 1u32, 0u32, 0u32, 0u32, 0u32, 0u32],
        ExtraPointResult9::WideLeftKick => seq![1u32, 0u32, 1u32, 0u32, 0u32, 0u32, 0u32],
        ExtraPointResult9::LeftUprightKick => seq![1u32, 0u32, 2u32, 0u32, 0u32, 0u32, 0u32],
        ExtraPointResult9::WideRightKick => seq![1u32, 0u32, 3u32, 0u32, 0u32, 0u32, 0u32],
        ExtraPointResult9::RightUprightKick => seq![1u32, 0u32, 4u32, 0u32, 0u32, 0u32, 0u32],
        ExtraPointResult9::BlockedKick => seq![1u32, 0u32, 5u32, 0u32, 0u32, 0u32, 0u32],
        ExtraPointResult9::FailedTwoPointRun => seq![0u32, 0u32, 0u32, 1u32, 0u32, 0u32, 0u32],
        ExtraPointResult9::TwoPointRun => seq![0u32, 0u32, 0u32, 1u32, 1u32, 0u32, 0u32],
        ExtraPointResult9::FailedTwoPointPass => seq![0u32, 0u32, 0u32, 0u32, 0u32, 1u32, 0u32],
        ExtraPointResult9::TwoPointPass => seq![0u32, 0u32, 0u32, 0u32, 0u32, 1u32, 1u32],
        ExtraPointResult9::Nothing => seq![0u32, 0u32, 0u32, 0u32, 0u32, 0u32, 0u32],
    }
}

/// The on-disk encoding of one extra-point result.
pub open spec fn extra_point_bytes(v: ExtraPointResult9) -> Seq<u8> {
    u32s_bytes(extra_point_words(v))
}

/// Whether seven stored words form one of the closed set of extra-point
/// patterns.
pub open spec fn extra_point_pattern_valid(
    w0: u32,
    w1: u32,
    w2: u32,
    w3: u32,
    w4: u32,
    w5: u32,
    w6: u32,
) -> bool {
    ||| (w0 == 1 && w1 == 1 && w2 == 0 && w3 == 0 && w4 == 0 && w5 == 0 && w6 == 0)
    ||| (w0 == 1 && w1 == 0 && w2 <= 5 && 1 <= w2 && w3 == 0 && w4 == 0 && w5 == 0 && w6 == 0)
    ||| (w0 == 0 && w1 == 0 && w2 == 0 && w3 == 1 && w4 <= 1 && w5 == 0 && w6 == 0)
    ||| (w0 == 0 && w1 == 0 && w2 == 0 && w3 == 0 && w4 == 0 && w5 == 1 && w6 <= 1)
    ||| (w0 == 0 && w1 == 0 && w2 == 0 && w3 == 0 && w4 == 0 && w5 == 0 && w6 == 0)
}

/// Where an extra-point result starting at `pos` ends, or nothing where
/// the stream is short or the words match no pattern.
pub open spec fn extra_point_parse_end(b: Seq<u8>, pos: int) -> Option<int> {
    if 0 <= pos && pos + 28 <= b.len() && extra_point_pattern_valid(
        u32_of_prefix(b, pos),
        u32_of_prefix(b, pos + 4),
        u32_of_prefix(b, pos + 8),
        u32_of_prefix(b, pos + 12),
        u32_of_prefix(b, pos + 16),
        u32_of_prefix(b, pos + 20),
        u32_of_prefix(b, pos + 24),
    ) {
        Some(pos + 28)
    } else {
        None
    }
}

impl ExtraPointResult9 {
    /// Decodes one extra-point result; word patterns outside the closed
    /// set fail.
    pub fn decode(bytes: &Vec<u8>, pos: usize) -> (r: Result<(ExtraPointResult9, usize), Fof9Error>)
        ensures
            r is Ok <==> extra_point_parse_end(bytes@, pos as int) is Some,
            r matches Ok((v, end)) ==> end == pos + 28 <= bytes@.len() && bytes@.subrange(
                pos as int,
                end as int,
            ) =~= extra_point_bytes(v),
            r matches Err(e) ==> e is TruncatedInput || e is UnknownVariantTag,
            r matches Err(e) ==> (e is TruncatedInput <==> pos + 28 > bytes@.len()),
    {
        let (w, end) = match read_u32_block(bytes, pos, 7) {
            Ok(p) => p,
            Err(e) => {
                return Err(e);
            },
        };
        let v = if w[0] == 1 && w[1] == 1 && w[2] == 0 && w[3] == 0 && w[4] == 0 && w[5] == 0
            && w[6] == 0 {
            ExtraPointResult9::Kick
        } else if w[0] == 1 && w[1] == 0 && w[2] == 1 && w[3] == 0 && w[4] == 0 && w[5] == 0 && w[6]
            == 0 {
            ExtraPointResult9::WideLeftKick
        } else if w[0] == 1 && w[1] == 0 && w[2] == 2 && w[3] == 0 && w[4] == 0 && w[5] == 0 && w[6]
            == 0 {
            ExtraPointResult9::LeftUprightKick
        } else if w[0] == 1 && w[1] == 0 && w[2] == 3 && w[3] == 0 && w[4] == 0 && w[5] == 0 && w[6]
            == 0 {
            ExtraPointResult9::WideRightKick
        } else if w[0] == 1 && w[1] == 0 && w[2] == 4 && w[3] == 0 && w[4] == 0 && w[5] == 0 && w[6]
            == 0 {
            ExtraPointResult9::RightUprightKick
        } else if w[0] == 1 && w[1] == 0 && w[2] == 5 && w[3] == 0 && w[4] == 0 && w[5] == 0 && w[6]
            == 0 {
            ExtraPointResult9::BlockedKick
        } else if w[0] == 0 && w[1] == 0 && w[2] == 0 && w[3] == 1 && w[4] == 0 && w[5] == 0 && w[6]
            == 0 {
            ExtraPointResult9::FailedTwoPointRun
        } else if w[0] == 0 && w[1] == 0 && w[2] == 0 && w[3] == 1 && w[4] == 1 && w[5] == 0 && w[6]
            == 0 {
            ExtraPointResult9::TwoPointRun
        } else if w[0] == 0 && w[1] == 0 && w[2] == 0 && w[3] == 0 && w[4] == 0 && w[5] == 1 && w[6]
            == 0 {
            ExtraPointResult9::FailedTwoPointPass
        } else if w[0] == 0 && w[1] == 0 && w[2] == 0 && w[3] == 0 && w[4] == 0 && w[5] == 1 && w[6]
            == 1 {
            ExtraPointResult9::TwoPointPass
        } else if w[0] == 0 && w[1] == 0 && w[2] == 0 && w[3] == 0 && w[4] == 0 && w[5] == 0 && w[6]
            == 0 {
            ExtraPointResult9::Nothing
        } else {
            return Err(Fof9Error::UnknownVariantTag { pos, tag: w[0] });
        };
        proof {
            assert(w@ =~= extra_point_words(v));
        }
        Ok((v, end))
    }

    /// The display label of the result.
    pub fn label(&self) -> (r: String)
        ensures
            r@ == self.spec_label(),
    {
        match self {
            ExtraPointResult9::Kick => String::from_str("Good"),
            ExtraPointResult9::WideLeftKick => String::from_str("Wide Left"),
            ExtraPointResult9::LeftUprightKick => String::from_str("Hit Left Upright"),
            ExtraPointResult9::WideRightKick => String::from_str("Wide Right"),
            ExtraPointResult9::RightUprightKick => String::from_str("Hit Right Upright"),
            ExtraPointResult9::BlockedKick => String::from_str("Blocked"),
            ExtraPointResult9::FailedTwoPointRun => String::from_str("Failed Two Point Run"),
            ExtraPointResult9::TwoPointRun => String::from_str("Two Point Run"),
            ExtraPointResult9::FailedTwoPointPass => String::from_str("Failed Two Point Pass"),
            ExtraPointResult9::TwoPointPass => String::from_str("Two Point Pass"),
            ExtraPointResult9::Nothing => String::from_str("<Not Extra Point>"),
        }
    }

    /// The display label, at the spec level.
    pub open spec fn spec_label(&self) -> Seq<char> {
        match self {
            ExtraPointResult9::Kick => "Good"@,
            ExtraPointResult9::WideLeftKick => "Wide Left"@,
            ExtraPointResult9::LeftUprightKick => "Hit Left Upright"@,
            ExtraPointResult9::WideRightKick => "Wide Right"@,
            ExtraPointResult9::RightUprightKick => "Hit Right Upright"@,
            ExtraPointResult9::BlockedKick => "Blocked"@,
            ExtraPointResult9::FailedTwoPointRun => "Failed Two Point Run"@,
            ExtraPointResult9::TwoPointRun => "Two Point Run"@,
            ExtraPointResult9::FailedTwoPointPass => "Failed Two Point Pass"@,
            ExtraPointResult9::TwoPointPass => "Two Point Pass"@,
            ExtraPointResult9::Nothing => "<Not Extra Point>"@,
        }
    }
}

/// The slots of the assignment list holding the given assignment, in
/// ascending order.
pub open spec fn assign_indices(s: Seq<DefensiveAssignment9>, k: DefensiveAssignment9) -> Seq<
    usize,
>
    decreases s.len(),
{
    if s.len() == 0 {
        Seq::empty()
    } else if s.last() == k {
        assign_indices(s.drop_last(), k).push((s.len() - 1) as usize)
    } else {
        assign_indices(s.drop_last(), k)
    }
}

/// The concatenated encodings of the defender-assignment slots.
pub open spec fn assign_list_bytes(s: Seq<DefensiveAssignment9>) -> Seq<u8> {
    encode_list(s, |a: DefensiveAssignment9| defensive_assignment_bytes(a))
}

/// Where the fixed block of assignment slots starting at `pos` ends, or
/// nothing where the stream is short or a slot holds an unknown tag.
pub open spec fn assign_parse_end(b: Seq<u8>, pos: int) -> Option<int> {
    if 0 <= pos && pos + 40 <= b.len() && (forall|i: int|
        0 <= i < 10 ==> defensive_assignment_tag_valid(#[trigger] u32_of_prefix(b, pos + 4 * i))) {
        Some(pos + 40)
    } else {
        None
    }
}

/// How many of the first `k` assignment slots at `base` store the tag `t`.
pub open spec fn count_assign_words(b: Seq<u8>, base: int, k: int, t: u32) -> int
    decreases k,
{
    if k <= 0 {
        0
    } else {
        count_assign_words(b, base, k - 1, t) + if u32_of_prefix(b, base + 4 * (k - 1)) == t {
            1int
        } else {
            0int
        }
    }
}

/// Which assignment each stored tag denotes.
proof fn lemma_assign_tag_cases(x: DefensiveAssignment9)
    ensures
        defensive_assignment_tag(x) == 1 <==> x == DefensiveAssignment9::Blitz,
        defensive_assignment_tag(x) == 2 <==> x == DefensiveAssignment9::Spy,
{
}

/// The derived slot list of one assignment counts exactly the stored words
/// holding that assignment's tag.
proof fn lemma_assign_count(
    b: Seq<u8>,
    base: int,
    s: Seq<DefensiveAssignment9>,
    t: u32,
    a: DefensiveAssignment9,
)
    requires
        forall|i: int|
            0 <= i < s.len() ==> defensive_assignment_tag(#[trigger] s[i]) == u32_of_prefix(
                b,
                base + 4 * i,
            ),
        forall|x: DefensiveAssignment9| defensive_assignment_tag(x) == t <==> x == a,
    ensures
        assign_indices(s, a).len() == count_assign_words(b, base, s.len() as int, t),
    decreases s.len(),
{
    if s.len() > 0 {
        let head = s.drop_last();
        assert(forall|i: int|
            0 <= i < head.len() ==> defensive_assignment_tag(#[trigger] head[i]) == u32_of_prefix(
                b,
                base + 4 * i,
            ));
        lemma_assign_count(b, base, head, t, a);
        assert(defensive_assignment_tag(s[s.len() - 1]) == u32_of_prefix(
            b,
            base + 4 * (s.len() - 1),
        ));
    }
}

/// Reads the fixed block of defender-assignment slots.
fn read_assignments(bytes: &Vec<u8>, pos: usize) -> (r: Result<
    (Vec<DefensiveAssignment9>, usize),
    Fof9Error,
>)
    ensures
        r is Ok <==> assign_parse_end(bytes@, pos as int) is Some,
        r matches Ok((v, end)) ==> v@.len() == NUM_BLITZERS && end == pos + 40 <= bytes@.len()
            && bytes@.subrange(pos as int, end as int) =~= assign_list_bytes(v@) && forall|i: int|
            0 <= i < NUM_BLITZERS ==> defensive_assignment_tag(#[trigger] v@[i]) == u32_of_prefix(
            bytes@,
            pos + 4 * i,
        ),
        r matches Err(e) ==> e is TruncatedInput || e is UnknownVariantTag,
{
    if pos > bytes.len() {
        return Err(Fof9Error::TruncatedInput { pos });
    }
    let mut items: Vec<DefensiveAssignment9> = Vec::new();
    let mut cur: usize = pos;
    let mut i: usize = 0;
    proof {
        assert(bytes@.subrange(pos as int, pos as int) =~= Seq::<u8>::empty());
    }
    while i < NUM_BLITZERS
        invariant
            i == items@.len() <= NUM_BLITZERS,
            cur == pos + 4 * i,
            cur <= bytes@.len(),
            bytes@.subrange(pos as int, cur as int) =~= assign_list_bytes(items@),
            forall|j: int|
                0 <= j < i ==> defensive_assignment_tag(#[trigger] items@[j]) == u32_of_prefix(
                    bytes@,
                    pos + 4 * j,
                ),
            forall|j: int|
                0 <= j < i ==> defensive_assignment_tag_valid(
                    #[trigger] u32_of_prefix(bytes@, pos + 4 * j),
                ),
        decreases NUM_BLITZERS - i,
    {
        let (v, next) = match DefensiveAssignment9::decode(bytes, cur) {
            Ok(p) => p,
            Err(e) => {
                return Err(e);
            },
        };
        proof {
            lemma_encode_list_push(items@, |a: DefensiveAssignment9| defensive_assignment_bytes(a), v);
            lemma_split(bytes@, pos as int, cur as int, next as int);
            lemma_prefix_of(bytes@, cur as int, defensive_assignment_tag(v));
        }
        items.push(v);
        cur = next;
        i = i + 1;
    }
    Ok((items, cur))
}

/// Collects the slots holding the given assignment.
fn collect_assign_indices(assign: &Vec<DefensiveAssignment9>, k: DefensiveAssignment9) -> (r: Vec<
    usize,
>)
    ensures
        r@ == assign_indices(assign@, k),
{
    let mut out: Vec<usize> = Vec::new();
    let mut i: usize = 0;
    proof {
        assert(assign@.subrange(0, 0) =~= Seq::<DefensiveAssignment9>::empty());
    }
    while i < assign.len()
        invariant
            i <= assign@.len(),
            out@ == assign_indices(assign@.subrange(0, i as int), k),
        decreases assign@.len() - i,
    {
        proof {
            assert(assign@.subrange(0, i + 1 as int).drop_last() =~= assign@.subrange(0, i as int));
            assert(assign@.subrange(0, i + 1 as int).last() == assign@[i as int]);
        }
        if assign[i] == k {
            out.push(i);
        }
        i = i + 1;
    }
    proof {
        assert(assign@.subrange(0, assign@.len() as int) =~= assign@);
    }
    out
}

/// Whether a stored special-coverage word predicts exactly one spy.
pub open spec fn special_coverage_word_has_spy(t: u32) -> bool {
    t == 1 || t == 11 || t == 21 || t == 31 || t == 41 || t == 51
}

/// The stored word of a coverage scheme predicts a spy exactly when the
/// scheme itself does.
proof fn lemma_special_word(v: SpecialCoverage9)
    ensures
        special_coverage_word_has_spy(special_coverage_tag(v)) == v.spec_has_spy(),
{
}

/// Where the body shared by run and pass plays, starting at `pos`, ends;
/// nothing where the stream runs out, a tag is unknown, a boolean word is
/// out of range, or the stored blitz count and coverage scheme disagree
/// with the assignment slots.
pub open spec fn run_pass_parse_end(b: Seq<u8>, pos: int) -> Option<int> {
    match formation_parse_end(b, pos) {
        None => None,
        Some(p1) => if p1 + 8 <= b.len() && u32_of_prefix(b, p1) <= 1 {
            match assign_parse_end(b, p1 + 8) {
                None => None,
                Some(p4) => if u32_of_prefix(b, p1 + 4) as int == count_assign_words(
                    b,
                    p1 + 8,
                    10,
                    1,
                ) && (special_coverage_word_has_spy(u32_of_prefix(b, pos + 24))
                    <==> count_assign_words(b, p1 + 8, 10, 2) == 1) {
                    match penalty_parse_end(b, p4) {
                        None => None,
                        Some(p5) => if p5 + 1528 <= b.len() {
                            Some(p5 + 1528)
                        } else {
                            None
                        },
                    }
                } else {
                    None
                },
            }
        } else {
            None
        },
    }
}

/// The on-disk encoding of the body shared by run and pass plays.
pub open spec fn run_pass_body_bytes(
    formation: FormationData9,
    start_drive: bool,
    num_blitz: u32,
    def_assign: Seq<DefensiveAssignment9>,
    penalty: PenaltyInfo9,
    unknown: Seq<u32>,
    injury: InjuryInfo9,
    data: Seq<u32>,
) -> Seq<u8> {
    formation_bytes(formation) + (u32_le_bytes(bool_word(start_drive)) + (u32_le_bytes(num_blitz)
        + (assign_list_bytes(def_assign) + (penalty_bytes(penalty) + (u32s_bytes(unknown) + (
    injury_bytes(injury) + u32s_bytes(data)))))))
}

/// Reads the body shared by run and pass plays, deriving the blitzing and
/// spying slots from the assignment list and checking them against the
/// stored blitz count and the coverage scheme.
#[verifier::rlimit(100)]
fn read_run_pass_body(bytes: &Vec<u8>, pos: usize) -> (r: Result<
    ((FormationData9, bool, u32, Vec<DefensiveAssignment9>, Vec<usize>, Vec<usize>, PenaltyInfo9,
        Vec<u32>, InjuryInfo9, Vec<u32>), usize),
    Fof9Error,
>)
    ensures
        r is Ok <==> run_pass_parse_end(bytes@, pos as int) is Some,
        r matches Ok(((formation, start_drive, num_blitz, def_assign, blitzers, spies, penalty,
            unknown, injury, data), end)) ==> {
            &&& run_pass_parse_end(bytes@, pos as int) == Some(end as int)
            &&& pos <= end <= bytes@.len()
            &&& bytes@.subrange(pos as int, end as int) =~= run_pass_body_bytes(
                formation,
                start_drive,
                num_blitz,
                def_assign@,
                penalty,
                unknown@,
                injury,
                data@,
            )
            &&& def_assign@.len() == NUM_BLITZERS
            &&& blitzers@ == assign_indices(def_assign@, DefensiveAssignment9::Blitz)
            &&& spies@ == assign_indices(def_assign@, DefensiveAssignment9::Spy)
            &&& num_blitz == blitzers@.len()
            &&& (formation.defensive_special.spec_has_spy() <==> spies@.len() == 1)
            &&& penalty.wf()
            &&& unknown@.len() == 7
            &&& data@.len() == 373
        },
        r matches Err(e) ==> e is TruncatedInput || e is UnknownVariantTag
            || e is StructuralInvariantViolation,
{
    let (formation, p1) = match FormationData9::decode(bytes, pos) {
        Ok(p) => p,
        Err(e) => {
            return Err(e);
        },
    };
    let (sd, p2) = match read_u32(bytes, p1) {
        Ok(p) => p,
        Err(e) => {
            return Err(e);
        },
    };
    if sd > 1 {
        return Err(Fof9Error::StructuralInvariantViolation { pos: p1 });
    }
    let start_drive = sd == 1;
    let (num_blitz, p3) = match read_u32(bytes, p2) {
        Ok(p) => p,
        Err(e) => {
            return Err(e);
        },
    };
    let (def_assign, p4) = match read_assignments(bytes, p3) {
        Ok(p) => p,
        Err(e) => {
            return Err(e);
        },
    };
    let blitzers = collect_assign_indices(&def_assign, DefensiveAssignment9::Blitz);
    let spies = collect_assign_indices(&def_assign, DefensiveAssignment9::Spy);
    proof {
        assert forall|x: DefensiveAssignment9| defensive_assignment_tag(x) == 1 <==> x
            == DefensiveAssignment9::Blitz by {
            lemma_assign_tag_cases(x);
        }
        assert forall|x: DefensiveAssignment9| defensive_assignment_tag(x) == 2 <==> x
            == DefensiveAssignment9::Spy by {
            lemma_assign_tag_cases(x);
        }
        lemma_assign_count(bytes@, p3 as int, def_assign@, 1, DefensiveAssignment9::Blitz);
        lemma_assign_count(bytes@, p3 as int, def_assign@, 2, DefensiveAssignment9::Spy);
        lemma_special_word(formation.defensive_special);
    }
    if num_blitz as usize != blitzers.len() {
        // The stored blitz count must match the derived blitzer list.
        return Err(Fof9Error::StructuralInvariantViolation { pos: p2 });
    }
    if formation.defensive_special.has_spy() != (spies.len() == 1) {
        // The coverage scheme predicts exactly one spy, or none.
        return Err(Fof9Error::StructuralInvariantViolation { pos: p2 });
    }
    let (penalty, p5) = match PenaltyInfo9::decode(bytes, p4) {
        Ok(p) => p,
        Err(e) => {
            return Err(e);
        },
    };
    let (unknown, p6) = match read_u32_block(bytes, p5, 7) {
        Ok(p) => p,
        Err(e) => {
            return Err(e);
        },
    };
    let (injury, p7) = match InjuryInfo9::decode(bytes, p6) {
        Ok(p) => p,
        Err(e) => {
            return Err(e);
        },
    };
    let (data, end) = match read_u32_block(bytes, p7, 373) {
        Ok(p) => p,
        Err(e) => {
            return Err(e);
        },
    };
    proof {
        lemma_split(bytes@, p6 as int, p7 as int, end as int);
        lemma_split(bytes@, p5 as int, p6 as int, end as int);
        lemma_split(bytes@, p4 as int, p5 as int, end as int);
        lemma_split(bytes@, p3 as int, p4 as int, end as int);
        lemma_split(bytes@, p2 as int, p3 as int, end as int);
        lemma_split(bytes@, p1 as int, p2 as int, end as int);
        lemma_split(bytes@, pos as int, p1 as int, end as int);
    }
    Ok(((formation, start_drive, num_blitz, def_assign, blitzers, spies, penalty, unknown, injury,
        data), end))
}

/// Where a play outcome starting at `pos` ends, or nothing where the
/// stream runs out, the leading tag is unknown, or the payload is invalid.
pub open spec fn game_play_parse_end(b: Seq<u8>, pos: int) -> Option<int> {
    if !(0 <= pos && pos + 4 <= b.len()) {
        None
    } else {
        let tag = u32_of_prefix(b, pos);
        if 1 <= tag <= 4 {
            if pos + 1688 <= b.len() {
                Some(pos + 1688)
            } else {
                None
            }
        } else if tag == 5 || tag == 6 {
            run_pass_parse_end(b, pos + 4)
        } else if tag == 7 {
            match extra_point_parse_end(b, pos + 1180) {
                None => None,
                Some(_pe) => if special_play_tag_valid(u32_of_prefix(b, pos + 1220)) && pos + 1688
                    <= b.len() {
                    Some(pos + 1688)
                } else {
                    None
                },
            }
        } else {
            None
        }
    }
}

/// One play outcome, selected by a leading 32-bit tag. Run and pass plays
/// carry the richest substructure, including the derived lists of blitzing
/// and spying slots.
#[derive(Clone, Debug)]
pub enum GamePlay9 {
    FieldGoal { data: Vec<u32> },
    Kickoff { data: Vec<u32> },
    OnsideKick { data: Vec<u32> },
    Punt { data: Vec<u32> },
    Run {
        formation: FormationData9,
        start_drive: bool,
        num_blitz: u32,
        def_assign: Vec<DefensiveAssignment9>,
        defensive_blitzers: Vec<usize>,
        defensive_spies: Vec<usize>,
        penalty: PenaltyInfo9,
        unknown: Vec<u32>,
        injury: InjuryInfo9,
        data: Vec<u32>,
    },
    Pass {
        formation: FormationData9,
        start_drive: bool,
        num_blitz: u32,
        def_assign: Vec<DefensiveAssignment9>,
        defensive_blitzers: Vec<usize>,
        defensive_spies: Vec<usize>,
        penalty: PenaltyInfo9,
        unknown: Vec<u32>,
        injury: InjuryInfo9,
        data: Vec<u32>,
    },
    Special {
        data1: Vec<u32>,
        extra_point: ExtraPointResult9,
        something8: u32,
        something9: u32,
        something10: u32,
        specialplay: SpecialPlay9,
        data2: Vec<u32>,
    },
}

/// The on-disk encoding of one play outcome: its tag, then its payload.
pub open spec fn game_play_bytes(p: GamePlay9) -> Seq<u8> {
    match p {
        GamePlay9::FieldGoal { data } => u32_le_bytes(1) + u32s_bytes(data@),
        GamePlay9::Kickoff { data } => u32_le_bytes(2) + u32s_bytes(data@),
        GamePlay9::OnsideKick { data } => u32_le_bytes(3) + u32s_bytes(data@),
        GamePlay9::Punt { data } => u32_le_bytes(4) + u32s_bytes(data@),
        GamePlay9::Run {
            formation,
            start_drive,
            num_blitz,
            def_assign,
            penalty,
            unknown,
            injury,
            data,
            ..
        } => u32_le_bytes(5) + run_pass_body_bytes(
            formation,
            start_drive,
            num_blitz,
            def_assign@,
            penalty,
            unknown@,
            injury,
            data@,
        ),
        GamePlay9::Pass {
            formation,
            start_drive,
            num_blitz,
            def_assign,
            penalty,
            unknown,
            injury,
            data,
            ..
        } => u32_le_bytes(6) + run_pass_body_bytes(
            formation,
            start_drive,
            num_blitz,
            def_assign@,
            penalty,
            unknown@,
            injury,
            data@,
        ),
        GamePlay9::Special {
            data1,
            extra_point,
            something8,
            something9,
            something10,
            specialplay,
            data2,
        } => u32_le_bytes(7) + (u32s_bytes(data1@) + (extra_point_bytes(extra_point) + (u32s_bytes(
            seq![something8, something9, something10],
        ) + (special_play_bytes(specialplay) + u32s_bytes(data2@))))),
    }
}

/// Whether a decoded play outcome is well formed: fixed blocks have their
/// sizes, and the derived blitzer and spy lists agree with the assignment
/// list, the stored blitz count, and the coverage scheme.
pub open spec fn game_play_wf(p: GamePlay9) -> bool {
    match p {
        GamePlay9::FieldGoal { data } => data@.len() == 421,
        GamePlay9::Kickoff { data } => data@.len() == 421,
        GamePlay9::OnsideKick { data } => data@.len() == 421,
        GamePlay9::Punt { data } => data@.len() == 421,
        GamePlay9::Run {
            formation,
            start_drive,
            num_blitz,
            def_assign,
            defensive_blitzers,
            defensive_spies,
            penalty,
            unknown,
            injury,
            data,
        } => {
            &&& def_assign@.len() == NUM_BLITZERS
            &&& defensive_blitzers@ == assign_indices(def_assign@, DefensiveAssignment9::Blitz)
            &&& defensive_spies@ == assign_indices(def_assign@, DefensiveAssignment9::Spy)
            &&& num_blitz == defensive_blitzers@.len()
            &&& (formation.defensive_special.spec_has_spy() <==> defensive_spies@.len() == 1)
            &&& penalty.wf()
            &&& unknown@.len() == 7
            &&& data@.len() == 373
        },
        GamePlay9::Pass {
            formation,
            start_drive,
            num_blitz,
            def_assign,
            defensive_blitzers,
            defensive_spies,
            penalty,
            unknown,
            injury,
            data,
        } => {
            &&& def_assign@.len() == NUM_BLITZERS
            &&& defensive_blitzers@ == assign_indices(def_assign@, DefensiveAssignment9::Blitz)
            &&& defensive_spies@ == assign_indices(def_assign@, DefensiveAssignment9::Spy)
            &&& num_blitz == defensive_blitzers@.len()
            &&& (formation.defensive_special.spec_has_spy() <==> defensive_spies@.len() == 1)
            &&& penalty.wf()
            &&& unknown@.len() == 7
            &&& data@.len() == 373
        },
        GamePlay9::Special { data1, data2, .. } => data1@.len() == 294 && data2@.len() == 116,
    }
}

impl GamePlay9 {
    /// Decodes one play outcome.
    #[verifier::rlimit(100)]
    pub fn decode(bytes: &Vec<u8>, pos: usize) -> (r: Result<(GamePlay9, usize), Fof9Error>)
        ensures
            r is Ok <==> game_play_parse_end(bytes@, pos as int) is Some,
            r matches Ok((v, end)) ==> game_play_wf(v) && pos <= end <= bytes@.len()
                && bytes@.subrange(pos as int, end as int) =~= game_play_bytes(v)
                && game_play_parse_end(bytes@, pos as int) == Some(end as int),
            r matches Err(e) ==> e is TruncatedInput || e is UnknownVariantTag
                || e is StructuralInvariantViolation,
    {
        let (tag, p1) = match read_u32(bytes, pos) {
            Ok(p) => p,
            Err(e) => {
                return Err(e);
            },
        };
        if tag == 1 || tag == 2 || tag == 3 || tag == 4 {
            let (data, end) = match read_u32_block(bytes, p1, 421) {
                Ok(p) => p,
                Err(e) => {
                    return Err(e);
                },
            };
            let v = if tag == 1 {
                GamePlay9::FieldGoal { data }
            } else if tag == 2 {
                GamePlay9::Kickoff { data }
            } else if tag == 3 {
                GamePlay9::OnsideKick { data }
            } else {
                GamePlay9::Punt { data }
            };
            proof {
                lemma_split(bytes@, pos as int, p1 as int, end as int);
            }
            Ok((v, end))
        } else if tag == 5 || tag == 6 {
            let ((formation, start_drive, num_blitz, def_assign, defensive_blitzers,
                defensive_spies, penalty, unknown, injury, data), end) = match read_run_pass_body(
                bytes,
                p1,
            ) {
                Ok(p) => p,
                Err(e) => {
                    return Err(e);
                },
            };
            let v = if tag == 5 {
                GamePlay9::Run {
                    formation,
                    start_drive,
                    num_blitz,
                    def_assign,
                    defensive_blitzers,
                    defensive_spies,
                    penalty,
                    unknown,
                    injury,
                    data,
                }
            } else {
                GamePlay9::Pass {
                    formation,
                    start_drive,
                    num_blitz,
                    def_assign,
                    defensive_blitzers,
                    defensive_spies,
                    penalty,
                    unknown,
                    injury,
                    data,
                }
            };
            proof {
                lemma_split(bytes@, pos as int, p1 as int, end as int);
            }
            Ok((v, end))
        } else if tag == 7 {
            let (data1, p2) = match read_u32_block(bytes, p1, 294) {
                Ok(p) => p,
                Err(e) => {
                    return Err(e);
                },
            };
            let (extra_point, p3) = match ExtraPointResult9::decode(bytes, p2) {
                Ok(p) => p,
                Err(e) => {
                    return Err(e);
                },
            };
            let (w3, p4) = match read_u32_block(bytes, p3, 3) {
                Ok(p) => p,
                Err(e) => {
                    return Err(e);
                },
            };
            let (specialplay, p5) = match SpecialPlay9::decode(bytes, p4) {
                Ok(p) => p,
                Err(e) => {
                    return Err(e);
                },
            };
            let (data2, end) = match read_u32_block(bytes, p5, 116) {
                Ok(p) => p,
                Err(e) => {
                    return Err(e);
                },
            };
            let v = GamePlay9::Special {
                data1,
                extra_point,
                something8: w3[0],
                something9: w3[1],
                something10: w3[2],
                specialplay,
                data2,
            };
            proof {
                assert(w3@ =~= seq![w3@[0], w3@[1], w3@[2]]);
                lemma_split(bytes@, p4 as int, p5 as int, end as int);
                lemma_split(bytes@, p3 as int, p4 as int, end as int);
                lemma_split(bytes@, p2 as int, p3 as int, end as int);
                lemma_split(bytes@, p1 as int, p2 as int, end as int);
                lemma_split(bytes@, pos as int, p1 as int, end as int);
            }
            Ok((v, end))
        } else {
            Err(Fof9Error::UnknownVariantTag { pos, tag })
        }
    }
}

/// The fixed signature that anchors the start section of a game.
pub open spec fn begin_game_magic_bytes() -> Seq<u8> {
    seq![10u8, 0u8, 0u8, 0u8, 66u8, 69u8, 71u8, 73u8, 78u8, 95u8, 71u8, 65u8, 77u8, 69u8]
}

/// The start-section signature: a length prefix and the ASCII word it
/// counts.
pub fn begin_game_magic() -> (r: Vec<u8>)
    ensures
        r@ =~= begin_game_magic_bytes(),
{
    let r: Vec<u8> = vec![10u8, 0u8, 0u8, 0u8, 66u8, 69u8, 71u8, 73u8, 78u8, 95u8, 71u8, 65u8,
        77u8, 69u8];
    r
}

/// The fixed signature that anchors a play section.
pub open spec fn game_play_magic_bytes() -> Seq<u8> {
    seq![9u8, 0u8, 0u8, 0u8, 71u8, 65u8, 77u8, 69u8, 95u8, 80u8, 76u8, 65u8, 89u8]
}

/// The play-section signature: a length prefix and the ASCII word it
/// counts.
pub fn game_play_magic() -> (r: Vec<u8>)
    ensures
        r@ =~= game_play_magic_bytes(),
{
    let r: Vec<u8> = vec![9u8, 0u8, 0u8, 0u8, 71u8, 65u8, 77u8, 69u8, 95u8, 80u8, 76u8, 65u8,
        89u8];
    r
}

/// The fixed signature that anchors the end section of a game.
pub open spec fn end_game_magic_bytes() -> Seq<u8> {
    seq![8u8, 0u8, 0u8, 0u8, 69u8, 78u8, 68u8, 95u8, 71u8, 65u8, 77u8, 69u8]
}

/// The end-section signature: a length prefix and the ASCII word it
/// counts.
pub fn end_game_magic() -> (r: Vec<u8>)
    ensures
        r@ =~= end_game_magic_bytes(),
{
    let r: Vec<u8> = vec![8u8, 0u8, 0u8, 0u8, 69u8, 78u8, 68u8, 95u8, 71u8, 65u8, 77u8, 69u8];
    r
}

/// Where a start section starting at `pos` ends, or nothing where its
/// signature, text fields, or team records do not fit.
pub open spec fn start_parse_end(b: Seq<u8>, pos: int) -> Option<int> {
    if !(0 <= pos && pos + 14 <= b.len() && b.subrange(pos, pos + 14)
        == begin_game_magic_bytes()) {
        None
    } else {
        if pos + 38 <= b.len() {
            match text_parse_end(b, pos + 38) {
                None => None,
                Some(t1) => match text_parse_end(b, t1) {
                    None => None,
                    Some(t2) => if t2 + 80 <= b.len() {
                        match week_team_parse_end(b, t2 + 80) {
                            None => None,
                            Some(h) => match week_team_parse_end(b, h) {
                                None => None,
                                Some(a) => if a + 8 <= b.len() {
                                    Some(a + 8)
                                } else {
                                    None
                                },
                            },
                        }
                    } else {
                        None
                    },
                },
            }
        } else {
            None
        }
    }
}

/// Where a play section starting at `pos` ends, or nothing where its
/// signature or payload is invalid.
pub open spec fn play_parse_end(b: Seq<u8>, pos: int) -> Option<int> {
    if !(0 <= pos && pos + 13 <= b.len() && b.subrange(pos, pos + 13)
        == game_play_magic_bytes()) {
        None
    } else {
        if pos + 49 <= b.len() {
            game_play_parse_end(b, pos + 49)
        } else {
            None
        }
    }
}

/// Where an end section starting at `pos` ends, or nothing where its
/// signature or its counted drive lists do not fit.
pub open spec fn end_parse_end(b: Seq<u8>, pos: int) -> Option<int> {
    if !(0 <= pos && pos + 12 <= b.len() && b.subrange(pos, pos + 12) == end_game_magic_bytes()) {
        None
    } else {
        if pos + 24 <= b.len() {
            let h = u32_of_prefix(b, pos + 16) as int;
            let a = u32_of_prefix(b, pos + 20) as int;
            if pos + 24 + 40 * h + 40 * a + 216 <= b.len() {
                Some(pos + 24 + 40 * h + 40 * a + 216)
            } else {
                None
            }
        } else {
            None
        }
    }
}

/// Where a section starting at `pos` ends, dispatched on the length prefix
/// of its signature; nothing where the prefix selects no section kind.
pub open spec fn section_parse_end(b: Seq<u8>, pos: int) -> Option<int> {
    if !(0 <= pos && pos + 4 <= b.len()) {
        None
    } else {
        let w = u32_of_prefix(b, pos);
        if w == 10 {
            start_parse_end(b, pos)
        } else if w == 9 {
            play_parse_end(b, pos)
        } else if w == 8 {
            end_parse_end(b, pos)
        } else {
            None
        }
    }
}

/// One section of a game: the start record, one play, or the end record
/// with its statistics.
#[derive(Clone, Debug)]
pub enum Game9Section {
    Start {
        data_version: u32,
        year: u32,
        current_week: u32,
        exhibition_weeks: u32,
        regular_and_ex_weeks: u32,
        full_season_weeks: u32,
        location: FixedString,
        when: FixedString,
        total_attendance: u32,
        no_shows: u32,
        upperdeck: Attendance9,
        endzone: Attendance9,
        mezzanine: Attendance9,
        sidelines: Attendance9,
        club: Attendance9,
        boxes: Attendance9,
        something1: u32,
        something2: u32,
        starting_temperature: u32,
        starting_weather: u32,
        total_capacity: u32,
        windspeed_mph: u32,
        home_team: WeekTeamInfo9,
        away_team: WeekTeamInfo9,
        end1: u32,
        end2: u32,
    },
    Play {
        quarter: u32,
        minutes_remaining: u32,
        seconds_remaining: u32,
        off_team: u32,
        down: u32,
        yards_to_go: u32,
        yardline: u32,
        home_timeouts: u32,
        away_timeouts: u32,
        play: GamePlay9,
    },
    End {
        player_of_game: u32,
        home_drive: Vec<DriveInfo9>,
        away_drive: Vec<DriveInfo9>,
        home_pass_stats: PassStats9,
        away_pass_stats: PassStats9,
        home_run_stats: RunStats9,
        away_run_stats: RunStats9,
        home_possession: PossessionStats9,
        away_possession: PossessionStats9,
    },
}

/// The on-disk encoding of one section: its signature, then its payload.
pub open spec fn game_section_bytes(s: Game9Section) -> Seq<u8> {
    match s {
        Game9Section::Start {
            data_version,
            year,
            current_week,
            exhibition_weeks,
            regular_and_ex_weeks,
            full_season_weeks,
            location,
            when,
            total_attendance,
            no_shows,
            upperdeck,
            endzone,
            mezzanine,
            sidelines,
            club,
            boxes,
            something1,
            something2,
            starting_temperature,
            starting_weather,
            total_capacity,
            windspeed_mph,
            home_team,
            away_team,
            end1,
            end2,
        } => begin_game_magic_bytes() + (u32s_bytes(
            seq![data_version, year, current_week, exhibition_weeks, regular_and_ex_weeks,
                full_season_weeks],
        ) + (fixed_string_bytes(location.string@) + (fixed_string_bytes(when.string@) + (
        u32s_bytes(seq![total_attendance, no_shows]) + (attendance_bytes(upperdeck) + (
        attendance_bytes(endzone) + (attendance_bytes(mezzanine) + (attendance_bytes(sidelines)
            + (attendance_bytes(club) + (attendance_bytes(boxes) + (u32s_bytes(
            seq![something1, something2, starting_temperature, starting_weather, total_capacity,
                windspeed_mph],
        ) + (week_team_bytes(home_team) + (week_team_bytes(away_team) + u32s_bytes(
            seq![end1, end2],
        )))))))))))))),
        Game9Section::Play {
            quarter,
            minutes_remaining,
            seconds_remaining,
            off_team,
            down,
            yards_to_go,
            yardline,
            home_timeouts,
            away_timeouts,
            play,
        } => game_play_magic_bytes() + (u32s_bytes(
            seq![quarter, minutes_remaining, seconds_remaining, off_team, down, yards_to_go,
                yardline, home_timeouts, away_timeouts],
        ) + game_play_bytes(play)),
        Game9Section::End {
            player_of_game,
            home_drive,
            away_drive,
            home_pass_stats,
            away_pass_stats,
            home_run_stats,
            away_run_stats,
            home_possession,
            away_possession,
        } => end_game_magic_bytes() + (u32_le_bytes(player_of_game) + (u32_le_bytes(
            home_drive@.len() as u32,
        ) + (u32_le_bytes(away_drive@.len() as u32) + (drive_list_bytes(home_drive@) + (
        drive_list_bytes(away_drive@) + (pass_stats_bytes(home_pass_stats) + (pass_stats_bytes(
            away_pass_stats,
        ) + (run_stats_bytes(home_run_stats) + (run_stats_bytes(away_run_stats) + (
        possession_bytes(home_possession) + possession_bytes(away_possession))))))))))),
    }
}

/// Whether a decoded section is well formed.
pub open spec fn game_section_wf(s: Game9Section) -> bool {
    match s {
        Game9Section::Start { location, when, home_team, away_team, .. } => location.wf()
            && when.wf() && home_team.wf() && away_team.wf(),
        Game9Section::Play { play, .. } => game_play_wf(play),
        Game9Section::End { home_drive, away_drive, .. } => home_drive@.len() <= u32::MAX
            && away_drive@.len() <= u32::MAX,
    }
}

/// Reads a counted drive list.
fn read_drives(bytes: &Vec<u8>, pos: usize, count: usize) -> (r: Result<
    (Vec<DriveInfo9>, usize),
    Fof9Error,
>)
    ensures
        r is Ok <==> pos + 40 * count <= bytes@.len(),
        r matches Ok((v, end)) ==> v@.len() == count && end == pos + 40 * count <= bytes@.len()
            && bytes@.subrange(pos as int, end as int) =~= drive_list_bytes(v@),
        r matches Err(e) ==> e is TruncatedInput,
{
    if pos > bytes.len() {
        proof {
            assert(pos + 40 * count > bytes@.len()) by (nonlinear_arith)
                requires
                    pos > bytes@.len(),
                    count >= 0,
            ;
        }
        return Err(Fof9Error::TruncatedInput { pos });
    }
    let mut items: Vec<DriveInfo9> = Vec::new();
    let mut cur: usize = pos;
    let mut i: usize = 0;
    proof {
        assert(bytes@.subrange(pos as int, pos as int) =~= Seq::<u8>::empty());
    }
    while i < count
        invariant
            i == items@.len() <= count,
            cur == pos + 40 * i,
            cur <= bytes@.len(),
            bytes@.subrange(pos as int, cur as int) =~= drive_list_bytes(items@),
        decreases count - i,
    {
        let (v, next) = match DriveInfo9::decode(bytes, cur) {
            Ok(p) => p,
            Err(e) => {
                return Err(e);
            },
        };
        proof {
            lemma_encode_list_push(items@, |d: DriveInfo9| drive_bytes(d), v);
            lemma_split(bytes@, pos as int, cur as int, next as int);
        }
        items.push(v);
        cur = next;
        i = i + 1;
    }
    Ok((items, cur))
}

/// Reads the start section of a game, its signature included.
#[verifier::rlimit(100)]
fn read_start_section(bytes: &Vec<u8>, pos: usize) -> (r: Result<(Game9Section, usize), Fof9Error>)
    ensures
        r is Ok <==> start_parse_end(bytes@, pos as int) is Some,
        r matches Ok((v, end)) ==> v is Start && game_section_wf(v) && pos < end <= bytes@.len()
            && bytes@.subrange(pos as int, end as int) =~= game_section_bytes(v)
            && start_parse_end(bytes@, pos as int) == Some(end as int),
        r matches Err(e) ==> e is TruncatedInput || e is MagicMismatch,
{
    let magic = begin_game_magic();
    let p1 = match expect_bytes(bytes, pos, &magic) {
        Ok(p) => p,
        Err(e) => {
            return Err(e);
        },
    };
    let (w6, p2) = match read_u32_block(bytes, p1, 6) {
        Ok(p) => p,
        Err(e) => {
            return Err(e);
        },
    };
    let (location, p3) = match FixedString::decode(bytes, p2) {
        Ok(p) => p,
        Err(e) => {
            return Err(e);
        },
    };
    let (when, p4) = match FixedString::decode(bytes, p3) {
        Ok(p) => p,
        Err(e) => {
            return Err(e);
        },
    };
    let (w2, p5) = match read_u32_block(bytes, p4, 2) {
        Ok(p) => p,
        Err(e) => {
            return Err(e);
        },
    };
    let (upperdeck, p6) = match Attendance9::decode(bytes, p5) {
        Ok(p) => p,
        Err(e) => {
            return Err(e);
        },
    };
    let (endzone, p7) = match Attendance9::decode(bytes, p6) {
        Ok(p) => p,
        Err(e) => {
            return Err(e);
        },
    };
    let (mezzanine, p8) = match Attendance9::decode(bytes, p7) {
        Ok(p) => p,
        Err(e) => {
            return Err(e);
        },
    };
    let (sidelines, p9) = match Attendance9::decode(bytes, p8) {
        Ok(p) => p,
        Err(e) => {
            return Err(e);
        },
    };
    let (club, p10) = match Attendance9::decode(bytes, p9) {
        Ok(p) => p,
        Err(e) => {
            return Err(e);
        },
    };
    let (boxes, p11) = match Attendance9::decode(bytes, p10) {
        Ok(p) => p,
        Err(e) => {
            return Err(e);
        },
    };
    let (w6b, p12) = match read_u32_block(bytes, p11, 6) {
        Ok(p) => p,
        Err(e) => {
            return Err(e);
        },
    };
    let (home_team, p13) = match WeekTeamInfo9::decode(bytes, p12) {
        Ok(p) => p,
        Err(e) => {
            return Err(e);
        },
    };
    let (away_team, p14) = match WeekTeamInfo9::decode(bytes, p13) {
        Ok(p) => p,
        Err(e) => {
            return Err(e);
        },
    };
    let (w2b, end) = match read_u32_block(bytes, p14, 2) {
        Ok(p) => p,
        Err(e) => {
            return Err(e);
        },
    };
    let v = start_from_parts(
        bytes,
        w6,
        location,
        when,
        w2,
        upperdeck,
        endzone,
        mezzanine,
        sidelines,
        club,
        boxes,
        w6b,
        home_team,
        away_team,
        w2b,
        Ghost(pos as int),
        Ghost(
            (p1 as int, p2 as int, p3 as int, p4 as int, p5 as int, p6 as int, p7 as int,
            p8 as int, p9 as int, p10 as int, p11 as int, p12 as int, p13 as int, p14 as int),
        ),
        Ghost(end as int),
    );
    Ok((v, end))
}

/// Assembles a decoded start section from its parts, each already matched
/// to its byte range.
#[verifier::rlimit(100)]
fn start_from_parts(
    bytes: &Vec<u8>,
    w6: Vec<u32>,
    location: FixedString,
    when_text: FixedString,
    w2: Vec<u32>,
    upperdeck: Attendance9,
    endzone: Attendance9,
    mezzanine: Attendance9,
    sidelines: Attendance9,
    club: Attendance9,
    boxes: Attendance9,
    w6b: Vec<u32>,
    home_team: WeekTeamInfo9,
    away_team: WeekTeamInfo9,
    w2b: Vec<u32>,
    Ghost(pos): Ghost<int>,
    Ghost(ps): Ghost<
        (int, int, int, int, int, int, int, int, int, int, int, int, int, int),
    >,
    Ghost(end): Ghost<int>,
) -> (v: Game9Section)
    requires
        0 <= pos <= ps.0 <= ps.1 <= ps.2 <= ps.3 <= ps.4 <= ps.5 <= ps.6 <= ps.7 <= ps.8 <= ps.9
            <= ps.10 <= ps.11 <= ps.12 <= ps.13 <= end <= bytes@.len(),
        bytes@.subrange(pos, ps.0) == begin_game_magic_bytes(),
        w6@.len() == 6,
        bytes@.subrange(ps.0, ps.1) == u32s_bytes(w6@),
        location.wf(),
        bytes@.subrange(ps.1, ps.2) == fixed_string_bytes(location.string@),
        when_text.wf(),
        bytes@.subrange(ps.2, ps.3) == fixed_string_bytes(when_text.string@),
        w2@.len() == 2,
        bytes@.subrange(ps.3, ps.4) == u32s_bytes(w2@),
        bytes@.subrange(ps.4, ps.5) == attendance_bytes(upperdeck),
        bytes@.subrange(ps.5, ps.6) == attendance_bytes(endzone),
        bytes@.subrange(ps.6, ps.7) == attendance_bytes(mezzanine),
        bytes@.subrange(ps.7, ps.8) == attendance_bytes(sidelines),
        bytes@.subrange(ps.8, ps.9) == attendance_bytes(club),
        bytes@.subrange(ps.9, ps.10) == attendance_bytes(boxes),
        w6b@.len() == 6,
        bytes@.subrange(ps.10, ps.11) == u32s_bytes(w6b@),
        home_team.wf(),
        bytes@.subrange(ps.11, ps.12) == week_team_bytes(home_team),
        away_team.wf(),
        bytes@.subrange(ps.12, ps.13) == week_team_bytes(away_team),
        w2b@.len() == 2,
        bytes@.subrange(ps.13, end) == u32s_bytes(w2b@),
    ensures
        v is Start,
        game_section_wf(v),
        bytes@.subrange(pos, end) =~= game_section_bytes(v),
{
    let v = Game9Section::Start {
        data_version: w6[0],
        year: w6[1],
        current_week: w6[2],
        exhibition_weeks: w6[3],
        regular_and_ex_weeks: w6[4],
        full_season_weeks: w6[5],
        location,
        when: when_text,
        total_attendance: w2[0],
        no_shows: w2[1],
        upperdeck,
        endzone,
        mezzanine,
        sidelines,
        club,
        boxes,
        something1: w6b[0],
        something2: w6b[1],
        starting_temperature: w6b[2],
        starting_weather: w6b[3],
        total_capacity: w6b[4],
        windspeed_mph: w6b[5],
        home_team,
        away_team,
        end1: w2b[0],
        end2: w2b[1],
    };
    proof {
        lemma_u32x6(w6@);
        lemma_u32x2(w2@);
        lemma_u32x6(w6b@);
        lemma_u32x2(w2b@);
        lemma_split(bytes@, ps.12, ps.13, end);
        lemma_split(bytes@, ps.11, ps.12, end);
        lemma_split(bytes@, ps.10, ps.11, end);
        lemma_split(bytes@, ps.9, ps.10, end);
        lemma_split(bytes@, ps.8, ps.9, end);
        lemma_split(bytes@, ps.7, ps.8, end);
        lemma_split(bytes@, ps.6, ps.7, end);
        lemma_split(bytes@, ps.5, ps.6, end);
        lemma_split(bytes@, ps.4, ps.5, end);
        lemma_split(bytes@, ps.3, ps.4, end);
        lemma_split(bytes@, ps.2, ps.3, end);
        lemma_split(bytes@, ps.1, ps.2, end);
        lemma_split(bytes@, ps.0, ps.1, end);
        lemma_split(bytes@, pos, ps.0, end);
        assert(bytes@.subrange(pos, end) == game_section_bytes(v));
    }
    v
}

/// Reads one play section of a game, its signature included.
#[verifier::rlimit(100)]
fn read_play_section(bytes: &Vec<u8>, pos: usize) -> (r: Result<(Game9Section, usize), Fof9Error>)
    ensures
        r is Ok <==> play_parse_end(bytes@, pos as int) is Some,
        r matches Ok((v, end)) ==> v is Play && game_section_wf(v) && pos < end <= bytes@.len()
            && bytes@.subrange(pos as int, end as int) =~= game_section_bytes(v)
            && play_parse_end(bytes@, pos as int) == Some(end as int),
        r matches Err(e) ==> e is TruncatedInput || e is MagicMismatch || e is UnknownVariantTag
            || e is StructuralInvariantViolation,
{
    let magic = game_play_magic();
    let p1 = match expect_bytes(bytes, pos, &magic) {
        Ok(p) => p,
        Err(e) => {
            return Err(e);
        },
    };
    let (w9, p2) = match read_u32_block(bytes, p1, 9) {
        Ok(p) => p,
        Err(e) => {
            return Err(e);
        },
    };
    let (play, end) = match GamePlay9::decode(bytes, p2) {
        Ok(p) => p,
        Err(e) => {
            return Err(e);
        },
    };
    let v = Game9Section::Play {
        quarter: w9[0],
        minutes_remaining: w9[1],
        seconds_remaining: w9[2],
        off_team: w9[3],
        down: w9[4],
        yards_to_go: w9[5],
        yardline: w9[6],
        home_timeouts: w9[7],
        away_timeouts: w9[8],
        play,
    };
    proof {
        lemma_u32x9(w9@);
        lemma_split(bytes@, p1 as int, p2 as int, end as int);
        lemma_split(bytes@, pos as int, p1 as int, end as int);
        assert(bytes@.subrange(pos as int, end as int) == game_section_bytes(v));
    }
    Ok((v, end))
}

/// Reads the end section of a game, its signature included.
#[verifier::rlimit(100)]
fn read_end_section(bytes: &Vec<u8>, pos: usize) -> (r: Result<(Game9Section, usize), Fof9Error>)
    ensures
        r is Ok <==> end_parse_end(bytes@, pos as int) is Some,
        r matches Ok((v, end)) ==> v is End && game_section_wf(v) && pos < end <= bytes@.len()
            && bytes@.subrange(pos as int, end as int) =~= game_section_bytes(v)
            && end_parse_end(bytes@, pos as int) == Some(end as int),
        r matches Err(e) ==> e is TruncatedInput || e is MagicMismatch,
{
    let magic = end_game_magic();
    let p1 = match expect_bytes(bytes, pos, &magic) {
        Ok(p) => p,
        Err(e) => {
            return Err(e);
        },
    };
    let (player_of_game, p2) = match read_u32(bytes, p1) {
        Ok(p) => p,
        Err(e) => {
            return Err(e);
        },
    };
    let (home_len, p3) = match read_u32(bytes, p2) {
        Ok(p) => p,
        Err(e) => {
            return Err(e);
        },
    };
    let (away_len, p4) = match read_u32(bytes, p3) {
        Ok(p) => p,
        Err(e) => {
            return Err(e);
        },
    };
    let (home_drive, p5) = match read_drives(bytes, p4, home_len as usize) {
        Ok(p) => p,
        Err(e) => {
            return Err(e);
        },
    };
    let (away_drive, p6) = match read_drives(bytes, p5, away_len as usize) {
        Ok(p) => p,
        Err(e) => {
            return Err(e);
        },
    };
    let (home_pass_stats, p7) = match PassStats9::decode(bytes, p6) {
        Ok(p) => p,
        Err(e) => {
            return Err(e);
        },
    };
    let (away_pass_stats, p8) = match PassStats9::decode(bytes, p7) {
        Ok(p) => p,
        Err(e) => {
            return Err(e);
        },
    };
    let (home_run_stats, p9) = match RunStats9::decode(bytes, p8) {
        Ok(p) => p,
        Err(e) => {
            return Err(e);
        },
    };
    let (away_run_stats, p10) = match RunStats9::decode(bytes, p9) {
        Ok(p) => p,
        Err(e) => {
            return Err(e);
        },
    };
    let (home_possession, p11) = match PossessionStats9::decode(bytes, p10) {
        Ok(p) => p,
        Err(e) => {
            return Err(e);
        },
    };
    let (away_possession, end) = match PossessionStats9::decode(bytes, p11) {
        Ok(p) => p,
        Err(e) => {
            return Err(e);
        },
    };
    let v = Game9Section::End {
        player_of_game,
        home_drive,
        away_drive,
        home_pass_stats,
        away_pass_stats,
        home_run_stats,
        away_run_stats,
        home_possession,
        away_possession,
    };
    proof {
        lemma_split(bytes@, p10 as int, p11 as int, end as int);
        lemma_split(bytes@, p9 as int, p10 as int, end as int);
        lemma_split(bytes@, p8 as int, p9 as int, end as int);
        lemma_split(bytes@, p7 as int, p8 as int, end as int);
        lemma_split(bytes@, p6 as int, p7 as int, end as int);
        lemma_split(bytes@, p5 as int, p6 as int, end as int);
        lemma_split(bytes@, p4 as int, p5 as int, end as int);
        lemma_split(bytes@, p3 as int, p4 as int, end as int);
        lemma_split(bytes@, p2 as int, p3 as int, end as int);
        lemma_split(bytes@, p1 as int, p2 as int, end as int);
        lemma_split(bytes@, pos as int, p1 as int, end as int);
        assert(bytes@.subrange(pos as int, end as int) == game_section_bytes(v));
    }
    Ok((v, end))
}

impl Game9Section {
    /// Decodes one section, dispatching on the length prefix of its
    /// signature.
    pub fn decode(bytes: &Vec<u8>, pos: usize) -> (r: Result<(Game9Section, usize), Fof9Error>)
        ensures
            r is Ok <==> section_parse_end(bytes@, pos as int) is Some,
            r matches Ok((v, end)) ==> game_section_wf(v) && pos < end <= bytes@.len()
                && bytes@.subrange(pos as int, end as int) =~= game_section_bytes(v)
                && section_parse_end(bytes@, pos as int) == Some(end as int) && (v is Start
                <==> u32_of_prefix(bytes@, pos as int) == 10) && (v is Play <==> u32_of_prefix(
                bytes@,
                pos as int,
            ) == 9) && (v is End <==> u32_of_prefix(bytes@, pos as int) == 8),
            r matches Err(e) ==> e is TruncatedInput || e is MagicMismatch
                || e is UnknownVariantTag || e is StructuralInvariantViolation,
    {
        let (prefix, _p1) = match read_u32(bytes, pos) {
            Ok(p) => p,
            Err(e) => {
                return Err(e);
            },
        };
        if prefix == 10 {
            read_start_section(bytes, pos)
        } else if prefix == 9 {
            read_play_section(bytes, pos)
        } else if prefix == 8 {
            read_end_section(bytes, pos)
        } else {
            Err(Fof9Error::MagicMismatch { pos })
        }
    }
}

/// Where the remaining sections of a game end, reading from `p`: an
/// end-kind section stops the sequence, a play-kind section continues it,
/// and a start-kind section or an unparseable one fails.
pub open spec fn game_tail_parse_end(b: Seq<u8>, p: int) -> Option<int>
    decreases b.len() - p,
{
    if !(0 <= p <= b.len()) {
        None
    } else {
        match section_parse_end(b, p) {
            None => None,
            Some(e) => if u32_of_prefix(b, p) == 8 {
                Some(e)
            } else if u32_of_prefix(b, p) == 9 {
                if p < e <= b.len() {
                    game_tail_parse_end(b, e)
                } else {
                    None
                }
            } else {
                None
            },
        }
    }
}

/// Where a game starting at `pos` ends: a start-kind section, then
/// sections until an end-kind one; nothing where the first section is not
/// start-kind or the sequence never reaches an end-kind section.
pub open spec fn game_parse_end(b: Seq<u8>, pos: int) -> Option<int> {
    match section_parse_end(b, pos) {
        None => None,
        Some(e) => if u32_of_prefix(b, pos) == 10 && pos < e <= b.len() {
            game_tail_parse_end(b, e)
        } else {
            None
        },
    }
}

/// One game: an ordered sequence of sections that must begin with a
/// start-kind section and end with the end-kind section that terminated
/// the sequence, with only play-kind sections between them.
#[derive(Clone, Debug)]
pub struct Game9Data {
    pub sections: Vec<Game9Section>,
}

/// The on-disk encoding of one game: its sections back to back.
pub open spec fn game_bytes(g: Game9Data) -> Seq<u8> {
    encode_list(g.sections@, |s: Game9Section| game_section_bytes(s))
}

/// The concatenated encodings of the sections read so far.
pub open spec fn section_list_bytes(s: Seq<Game9Section>) -> Seq<u8> {
    encode_list(s, |x: Game9Section| game_section_bytes(x))
}

impl Game9Data {
    /// A decoded game is well formed: at least a start and an end section,
    /// the first is start-kind, the last is end-kind, everything between
    /// is play-kind, and every section is itself well formed.
    pub open spec fn wf(&self) -> bool {
        &&& self.sections@.len() >= 2
        &&& self.sections@[0] is Start
        &&& self.sections@[self.sections@.len() - 1] is End
        &&& forall|i: int| 0 < i < self.sections@.len() - 1 ==> self.sections@[i] is Play
        &&& forall|i: int|
            0 <= i < self.sections@.len() ==> game_section_wf(#[trigger] self.sections@[i])
    }

    /// Decodes one game: sections are read until an end-kind section is
    /// produced, which is kept as the last section. A stream that ends
    /// first fails; a game whose first section is not start-kind, or with
    /// a stray start section later, fails.
    pub fn decode(bytes: &Vec<u8>, pos: usize) -> (r: Result<(Game9Data, usize), Fof9Error>)
        ensures
            r is Ok <==> game_parse_end(bytes@, pos as int) is Some,
            r matches Ok((v, end)) ==> v.wf() && pos < end <= bytes@.len() && bytes@.subrange(
                pos as int,
                end as int,
            ) =~= game_bytes(v) && game_parse_end(bytes@, pos as int) == Some(end as int),
            r matches Err(e) ==> e is TruncatedInput || e is MagicMismatch
                || e is UnknownVariantTag || e is StructuralInvariantViolation
                || e is UnexpectedEndOfSequence,
    {
        let (first, p1) = match Game9Section::decode(bytes, pos) {
            Ok(p) => p,
            Err(e) => {
                return Err(e);
            },
        };
        let is_start = matches!(first, Game9Section::Start { .. });
        if !is_start {
            // The state machine expects a start-kind section first.
            return Err(Fof9Error::StructuralInvariantViolation { pos });
        }
        let mut sections: Vec<Game9Section> = Vec::new();
        proof {
            assert(bytes@.subrange(pos as int, pos as int) =~= Seq::<u8>::empty());
            lemma_encode_list_push(
                Seq::<Game9Section>::empty(),
                |x: Game9Section| game_section_bytes(x),
                first,
            );
            assert(Seq::<Game9Section>::empty().push(first) =~= seq![first]);
        }
        sections.push(first);
        let mut cur: usize = p1;
        proof {
            assert(sections@ =~= Seq::<Game9Section>::empty().push(sections@[0]));
        }
        loop
            invariant
                pos < cur <= bytes@.len(),
                sections@.len() >= 1,
                sections@[0] is Start,
                forall|i: int| 0 < i < sections@.len() ==> sections@[i] is Play,
                forall|i: int|
                    0 <= i < sections@.len() ==> game_section_wf(#[trigger] sections@[i]),
                bytes@.subrange(pos as int, cur as int) =~= section_list_bytes(sections@),
                game_parse_end(bytes@, pos as int) == game_tail_parse_end(bytes@, cur as int),
            decreases bytes@.len() - cur,
        {
            let (section, next) = match Game9Section::decode(bytes, cur) {
                Ok(p) => p,
                Err(e) => {
                    if matches!(e, Fof9Error::TruncatedInput { .. }) {
                        // The stream ended without producing an end-kind
                        // section.
                        return Err(Fof9Error::UnexpectedEndOfSequence { pos: cur });
                    }
                    return Err(e);
                },
            };
            let is_end = matches!(section, Game9Section::End { .. });
            let is_play = matches!(section, Game9Section::Play { .. });
            if !is_end && !is_play {
                // A second start-kind section may not appear mid-game.
                return Err(Fof9Error::StructuralInvariantViolation { pos: cur });
            }
            proof {
                lemma_encode_list_push(sections@, |x: Game9Section| game_section_bytes(x), section);
                lemma_split(bytes@, pos as int, cur as int, next as int);
            }
            sections.push(section);
            cur = next;
            if is_end {
                return Ok((Game9Data { sections }, cur));
            }
        }
    }
}

/// Where a week starting at `pos` ends: games back to back, where the end
/// of the stream itself is the valid terminator.
pub open spec fn week_parse_end(b: Seq<u8>, pos: int) -> Option<int>
    decreases b.len() - pos,
{
    if !(0 <= pos <= b.len()) {
        None
    } else if pos == b.len() {
        Some(pos)
    } else {
        match game_parse_end(b, pos) {
            None => None,
            Some(e) => if pos < e <= b.len() {
                week_parse_end(b, e)
            } else {
                None
            },
        }
    }
}

/// One week of play: games back to back until the end of the stream.
#[derive(Clone, Debug)]
pub struct Week9Data {
    pub games: Vec<Game9Data>,
}

/// The on-disk encoding of one week: its games back to back.
pub open spec fn week_bytes(w: Week9Data) -> Seq<u8> {
    encode_list(w.games@, |g: Game9Data| game_bytes(g))
}

impl Week9Data {
    /// A decoded week is well formed when each of its games is.
    pub open spec fn wf(&self) -> bool {
        forall|i: int| 0 <= i < self.games@.len() ==> (#[trigger] self.games@[i]).wf()
    }

    /// Decodes a whole week file: games until the end of the stream, which
    /// is itself the valid terminator here.
    pub fn decode(bytes: &Vec<u8>) -> (r: Result<Week9Data, Fof9Error>)
        ensures
            r is Ok <==> week_parse_end(bytes@, 0) is Some,
            r matches Ok(v) ==> v.wf() && bytes@ =~= week_bytes(v),
            r matches Err(e) ==> e is TruncatedInput || e is MagicMismatch
                || e is UnknownVariantTag || e is StructuralInvariantViolation
                || e is UnexpectedEndOfSequence,
    {
        let mut games: Vec<Game9Data> = Vec::new();
        let mut cur: usize = 0;
        proof {
            assert(bytes@.subrange(0, 0) =~= Seq::<u8>::empty());
        }
        while cur < bytes.len()
            invariant
                cur <= bytes@.len(),
                forall|i: int| 0 <= i < games@.len() ==> (#[trigger] games@[i]).wf(),
                bytes@.subrange(0, cur as int) =~= encode_list(
                    games@,
                    |g: Game9Data| game_bytes(g),
                ),
                week_parse_end(bytes@, 0) == week_parse_end(bytes@, cur as int),
            decreases bytes@.len() - cur,
        {
            let (game, next) = match Game9Data::decode(bytes, cur) {
                Ok(p) => p,
                Err(e) => {
                    return Err(e);
                },
            };
            proof {
                lemma_encode_list_push(games@, |g: Game9Data| game_bytes(g), game);
                lemma_split(bytes@, 0, cur as int, next as int);
            }
            games.push(game);
            cur = next;
        }
        proof {
            assert(bytes@ =~= bytes@.subrange(0, bytes@.len() as int));
        }
        Ok(Week9Data { games })
    }
}

/// The ordered defender labels of one front and personnel pairing, where
/// the pairing has a known arrangement.
pub open spec fn spec_defender_list(
    front: DefensiveFront9,
    personnel: DefensivePersonnel9,
) -> Option<Seq<Position>> {
    match (front, personnel) {
        (DefensiveFront9::True34, DefensivePersonnel9::Man) | (
            DefensiveFront9::Eagle34,
            DefensivePersonnel9::Man,
        ) => Some(
            seq![Position::DRE, Position::SLB, Position::SILB, Position::WILB, Position::WLB,
                Position::LCB, Position::RCB, Position::SS, Position::FS],
        ),
        (DefensiveFront9::True34, DefensivePersonnel9::Nickel) | (
            DefensiveFront9::Eagle34,
            DefensivePersonnel9::Nickel,
        ) => Some(
            seq![Position::DRE, Position::SLB, Position::SILB, Position::WLB, Position::LCB,
                Position::RCB, Position::NB, Position::SS, Position::FS],
        ),
        (DefensiveFront9::True34, DefensivePersonnel9::Dime) | (
            DefensiveFront9::Eagle34,
            DefensivePersonnel9::Dime,
        ) => Some(
            seq![Position::DRE, Position::SLB, Position::WLB, Position::LCB, Position::RCB,
                Position::NB, Position::DB, Position::SS, Position::FS],
        ),
        (DefensiveFront9::Over43, DefensivePersonnel9::Man) | (
            DefensiveFront9::Under43,
            DefensivePersonnel9::Man,
        ) => Some(
            seq![Position::DLE, Position::DRE, Position::SLB, Position::MLB, Position::WLB,
                Position::LCB, Position::RCB, Position::SS, Position::FS],
        ),
        (DefensiveFront9::Over43, DefensivePersonnel9::Nickel) | (
            DefensiveFront9::Under43,
            DefensivePersonnel9::Nickel,
        ) => Some(
            seq![Position::DLE, Position::DRE, Position::MLB, Position::WLB, Position::LCB,
                Position::RCB, Position::NB, Position::SS, Position::FS],
        ),
        (DefensiveFront9::Over43, DefensivePersonnel9::Dime) | (
            DefensiveFront9::Under43,
            DefensivePersonnel9::Dime,
        ) => Some(
            seq![Position::DLE, Position::DRE, Position::MLB, Position::LCB, Position::RCB,
                Position::NB, Position::DB, Position::SS, Position::FS],
        ),
        _ => None,
    }
}

impl FormationData9 {
    /// The display name of one blitzing or spying slot, at the spec level:
    /// the slot number is clamped to the slot count and shifted down one,
    /// then looked up in the defender arrangement of this front and
    /// personnel pairing; a pairing without a known arrangement shows the
    /// shifted number itself.
    pub open spec fn spec_blitz_position(&self, blitzer_number: nat) -> Seq<char> {
        let idx = if blitzer_number < 9 {
            blitzer_number as int - 1
        } else {
            8
        };
        match spec_defender_list(self.defensive_front, self.defensive_personnel) {
            Some(list) => list[idx].spec_label(),
            None => latin1_chars(dec_bytes(idx as nat)),
        }
    }

    /// The display name of one blitzing or spying slot.
    pub fn blitz_position(&self, blitzer_number: usize) -> (r: String)
        requires
            blitzer_number >= 1,
        ensures
            r@ == self.spec_blitz_position(blitzer_number as nat),
    {
        let idx: usize = if blitzer_number < 9 {
            blitzer_number - 1
        } else {
            8
        };
        let listed: Option<Vec<Position>> = match (self.defensive_front, self.defensive_personnel) {
            (DefensiveFront9::True34, DefensivePersonnel9::Man) | (
                DefensiveFront9::Eagle34,
                DefensivePersonnel9::Man,
            ) => Some(
                vec![Position::DRE, Position::SLB, Position::SILB, Position::WILB, Position::WLB,
                    Position::LCB, Position::RCB, Position::SS, Position::FS],
            ),
            (DefensiveFront9::True34, DefensivePersonnel9::Nickel) | (
                DefensiveFront9::Eagle34,
                DefensivePersonnel9::Nickel,
            ) => Some(
                vec![Position::DRE, Position::SLB, Position::SILB, Position::WLB, Position::LCB,
                    Position::RCB, Position::NB, Position::SS, Position::FS],
            ),
            (DefensiveFront9::True34, DefensivePersonnel9::Dime) | (
                DefensiveFront9::Eagle34,
                DefensivePersonnel9::Dime,
            ) => Some(
                vec![Position::DRE, Position::SLB, Position::WLB, Position::LCB, Position::RCB,
                    Position::NB, Position::DB, Position::SS, Position::FS],
            ),
            (DefensiveFront9::Over43, DefensivePersonnel9::Man) | (
                DefensiveFront9::Under43,
                DefensivePersonnel9::Man,
            ) => Some(
                vec![Position::DLE, Position::DRE, Position::SLB, Position::MLB, Position::WLB,
                    Position::LCB, Position::RCB, Position::SS, Position::FS],
            ),
            (DefensiveFront9::Over43, DefensivePersonnel9::Nickel) | (
                DefensiveFront9::Under43,
                DefensivePersonnel9::Nickel,
            ) => Some(
                vec![Position::DLE, Position::DRE, Position::MLB, Position::WLB, Position::LCB,
                    Position::RCB, Position::NB, Position::SS, Position::FS],
            ),
            (DefensiveFront9::Over43, DefensivePersonnel9::Dime) | (
                DefensiveFront9::Under43,
                DefensivePersonnel9::Dime,
            ) => Some(
                vec![Position::DLE, Position::DRE, Position::MLB, Position::LCB, Position::RCB,
                    Position::NB, Position::DB, Position::SS, Position::FS],
            ),
            _ => None,
        };
        match listed {
            Some(list) => {
                proof {
                    assert(list@ =~= spec_defender_list(
                        self.defensive_front,
                        self.defensive_personnel,
                    )->Some_0);
                }
                list[idx].label()
            },
            None => {
                let digits = dec_digits(idx as u32);
                digits_to_string(&digits)
            },
        }
    }
}

impl Game9Data {
    /// The home team, read from the start section.
    pub fn home_team(&self) -> (r: &WeekTeamInfo9)
        requires
            self.wf(),
        ensures
            self.sections@[0] matches Game9Section::Start { home_team, .. } && *r == home_team,
    {
        match &self.sections[0] {
            Game9Section::Start { home_team, .. } => home_team,
            _ => vstd::pervasive::unreached(),
        }
    }

    /// The away team, read from the start section.
    pub fn away_team(&self) -> (r: &WeekTeamInfo9)
        requires
            self.wf(),
        ensures
            self.sections@[0] matches Game9Section::Start { away_team, .. } && *r == away_team,
    {
        match &self.sections[0] {
            Game9Section::Start { away_team, .. } => away_team,
            _ => vstd::pervasive::unreached(),
        }
    }

    /// One of the two teams: zero selects the home team, one the away
    /// team.
    pub fn team(&self, game_team: u32) -> (r: &WeekTeamInfo9)
        requires
            self.wf(),
            game_team < 2,
        ensures
            self.sections@[0] matches Game9Section::Start { home_team, away_team, .. } && *r == (
            if game_team == 0 {
                home_team
            } else {
                away_team
            }),
    {
        match &self.sections[0] {
            Game9Section::Start { home_team, away_team, .. } => {
                if game_team == 0 {
                    home_team
                } else {
                    away_team
                }
            },
            _ => vstd::pervasive::unreached(),
        }
    }

    /// A field position shown as the owning team's short name and the
    /// two-digit yard line: past midfield the yards count down from the
    /// home side.
    pub fn field_yardline(&self, yards: u32) -> (r: String)
        requires
            self.wf(),
            yards <= 100,
        ensures
            self.sections@[0] matches Game9Section::Start { home_team, away_team, .. } && r@ == (
            if yards > 50 {
                home_team.short.string@ + latin1_chars(pad2_bytes((100 - yards) as nat))
            } else {
                away_team.short.string@ + latin1_chars(pad2_bytes(yards as nat))
            }),
    {
        let (show_team, show_yards): (u32, u32) = if yards > 50 {
            (0, 50 - (yards - 50))
        } else {
            (1, yards)
        };
        let t = self.team(show_team);
        let mut r = t.short.string.clone();
        let digits = pad2_digits(show_yards);
        let tail = digits_to_string(&digits);
        r.append(tail.as_str());
        r
    }
}

/// Law: every well-formed game opens with a start-kind section and closes
/// with an end-kind section, with only play-kind sections between them; a
/// decode that cannot establish this fails instead.
pub proof fn lemma_game_section_shape(g: Game9Data)
    requires
        g.wf(),
    ensures
        g.sections@.len() >= 2,
        g.sections@[0] is Start,
        g.sections@[g.sections@.len() - 1] is End,
        forall|i: int| 0 < i < g.sections@.len() - 1 ==> g.sections@[i] is Play,
{
}

/// Law: in every well-formed run or pass play the stored blitz count
/// equals the number of derived blitzing slots, and the coverage scheme
/// predicts a spy exactly when one spying slot was derived; a decode that
/// cannot establish this fails instead.
pub proof fn lemma_play_derived_counts(p: GamePlay9)
    requires
        game_play_wf(p),
        p is Run || p is Pass,
    ensures
        p matches GamePlay9::Run { num_blitz, defensive_blitzers, defensive_spies, formation, .. }
            ==> num_blitz == defensive_blitzers@.len() && (formation.defensive_special.spec_has_spy()
            <==> defensive_spies@.len() == 1),
        p matches GamePlay9::Pass { num_blitz, defensive_blitzers, defensive_spies, formation, .. }
            ==> num_blitz == defensive_blitzers@.len() && (formation.defensive_special.spec_has_spy()
            <==> defensive_spies@.len() == 1),
{
}

} // verus!
