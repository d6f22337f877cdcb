//! Decoder for the persisted save-game files of a sports-simulation game:
//! a league-info file, a per-week play-by-play file, and a players roster
//! file. The byte-level grammar (length-prefixed text, magic signatures,
//! tag-dispatched variants, runtime-counted lists, sentinel-terminated
//! sequences) is implemented here as verified functions over byte vectors.

pub mod error;
pub mod bytes;
pub mod text;
pub mod league;
pub mod players;
pub mod week;

pub use error::Fof9Error;

use vstd::prelude::*;
use vstd::string::StringExecFns;

verus! {

/// Defensive position labels used when naming the defenders of a play.
#[derive(Clone, Copy, Debug, PartialEq, Eq, Structural)]
pub enum Position {
    QB,
    RB,
    FB,
    TE,
    FL,
    SE,
    WR,
    C,
    RG,
    LG,
    RT,
    LT,
    P,
    K,
    DLE,
    DRE,
    DLT,
    DRT,
    DT,
    UT,
    NT,
    SILB,
    WILB,
    MLB,
    SLB,
    WLB,
    RCB,
    LCB,
    NB,
    DB,
    SS,
    FS,
    LS,
    PR,
    KR,
}

impl Position {
    /// The display label of the position.
    pub fn label(&self) -> (r: String)
        ensures
            r@ == self.spec_label(),
    {
        match self {
            Position::QB => String::from_str("QB"),
            Position::RB => String::from_str("RB"),
            Position::FB => String::from_str("FB"),
            Position::TE => String::from_str("TE"),
            Position::FL => String::from_str("FL"),
            Position::SE => String::from_str("SE"),
            Position::WR => String::from_str("WR"),
            Position::C => String::from_str("C"),
            Position::RG => String::from_str("RG"),
            Position::LG => String::from_str("LG"),
            Position::RT => String::from_str("RT"),
            Position::LT => String::from_str("LT"),
            Position::P => String::from_str("P"),
            Position::K => String::from_str("K"),
            Position::DLE => String::from_str("DLE"),
            Position::DRE => String::from_str("DRE"),
            Position::DLT => String::from_str("DLT"),
            Position::DRT => String::from_str("DRT"),
            Position::DT => String::from_str("DT"),
            Position::UT => String::from_str("UT"),
            Position::NT => String::from_str("NT"),
            Position::SILB => String::from_str("SILB"),
            Position::WILB => String::from_str("WILB"),
            Position::MLB => String::from_str("MLB"),
            Position::SLB => String::from_str("SLB"),
            Position::WLB => String::from_str("WLB"),
            Position::RCB => String::from_str("RCB"),
            Position::LCB => String::from_str("LCB"),
            Position::NB => String::from_str("NB"),
            Position::DB => String::from_str("DB"),
            Position::SS => String::from_str("SS"),
            Position::FS => String::from_str("FS"),
            Position::LS => String::from_str("LS"),
            Position::PR => String::from_str("PR"),
            Position::KR => String::from_str("KR"),
        }
    }

    /// The display label, at the spec level.
    pub open spec fn spec_label(&self) -> Seq<char> {
        match self {
            Position::QB => "QB"@,
            Position::RB => "RB"@,
            Position::FB => "FB"@,
            Position::TE => "TE"@,
            Position::FL => "FL"@,
            Position::SE => "SE"@,
            Position::WR => "WR"@,
            Position::C => "C"@,
            Position::RG => "RG"@,
            Position::LG => "LG"@,
            Position::RT => "RT"@,
            Position::LT => "LT"@,
            Position::P => "P"@,
            Position::K => "K"@,
            Position::DLE => "DLE"@,
            Position::DRE => "DRE"@,
            Position::DLT => "DLT"@,
            Position::DRT => "DRT"@,
            Position::DT => "DT"@,
            Position::UT => "UT"@,
            Position::NT => "NT"@,
            Position::SILB => "SILB"@,
            Position::WILB => "WILB"@,
            Position::MLB => "MLB"@,
            Position::SLB => "SLB"@,
            Position::WLB => "WLB"@,
            Position::RCB => "RCB"@,
            Position::LCB => "LCB"@,
            Position::NB => "NB"@,
            Position::DB => "DB"@,
            Position::SS => "SS"@,
            Position::FS => "FS"@,
            Position::LS => "LS"@,
            Position::PR => "PR"@,
            Position::KR => "KR"@,
        }
    }
}

} // verus!
