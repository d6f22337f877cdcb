//! The length-prefixed text field and the small utility records that carry
//! plain measurements.
//!
//! A text field is a 4-byte length prefix followed by that many single-byte
//! characters in a legacy 8-bit Western code page, in which every byte value
//! denotes the character with the same code point.

use vstd::prelude::*;
use vstd::string::{StrSliceExecFns, StringExecFns};
use crate::bytes::{read_u32, push_u32, u32_le_bytes, u32_of_prefix};
use crate::error::Fof9Error;
use encoding::Encoding;

verus! {

/// The characters denoted by a byte sequence under the single-byte Western
/// code page: each byte is the character with the same code point.
pub open spec fn latin1_chars(bs: Seq<u8>) -> Seq<char> {
    Seq::new(bs.len(), |i: int| bs[i] as char)
}

/// The bytes of a character sequence under the same code page; meaningful
/// when every character has a code point below 256.
pub open spec fn latin1_bytes(cs: Seq<char>) -> Seq<u8> {
    Seq::new(cs.len(), |i: int| cs[i] as u8)
}

/// Whether every character of the sequence can be stored as a single byte.
pub open spec fn single_byte_encodable(cs: Seq<char>) -> bool {
    forall|i: int| 0 <= i < cs.len() ==> (cs[i] as u32) < 256
}

/// Characters read from bytes are single-byte encodable and map back to the
/// bytes they came from.
pub proof fn lemma_latin1_roundtrip(bs: Seq<u8>)
    ensures
        single_byte_encodable(latin1_chars(bs)),
        latin1_bytes(latin1_chars(bs)) =~= bs,
{
    assert forall|i: int| 0 <= i < bs.len() implies (latin1_chars(bs)[i] as u32) < 256
        && latin1_chars(bs)[i] as u8 == bs[i] by {
        let b = bs[i];
        assert(b as char as u32 == b as u32);
        assert(b as char as u8 == b);
    }
}

/// Relies on the `encoding` crate's ISO 8859-1 decoder: its byte-to-character
/// table maps every byte value to the character with that code point and has
/// no invalid byte sequence, so a strict decode always succeeds.
#[verifier::external_body]
pub(crate) fn latin1_decode(data: &Vec<u8>) -> (r: Option<String>)
    ensures
        r is Some,
        r matches Some(s) ==> s@ == latin1_chars(data@),
{
    match encoding::all::ISO_8859_1.decode(data.as_slice(), encoding::DecoderTrap::Strict) {
        Ok(s) => Some(s),
        Err(_) => None,
    }
}

/// A length-prefixed text field: a 32-bit character count, then that many
/// single-byte characters.
#[derive(Debug, Clone)]
pub struct FixedString {
    pub string: String,
}

/// The on-disk encoding of a text field: the character count, then one byte
/// per character.
pub open spec fn fixed_string_bytes(cs: Seq<char>) -> Seq<u8> {
    u32_le_bytes(cs.len() as u32) + latin1_bytes(cs)
}

/// Where a text field starting at `pos` ends, or nothing where the stream
/// is too short for its prefix or its content.
pub open spec fn text_parse_end(b: Seq<u8>, pos: int) -> Option<int> {
    if 0 <= pos && pos + 4 <= b.len() && pos + 4 + u32_of_prefix(b, pos) <= b.len() {
        Some(pos + 4 + u32_of_prefix(b, pos))
    } else {
        None
    }
}

impl FixedString {
    /// A text field is storable when its length fits the 32-bit prefix and
    /// every character fits a single byte.
    pub open spec fn wf(&self) -> bool {
        self.string@.len() <= u32::MAX && single_byte_encodable(self.string@)
    }

    /// Decodes a text field. An undecodable character sequence would be
    /// replaced by a visible placeholder rather than failing the read, but
    /// the code page at hand rejects no byte sequence.
    pub fn decode(bytes: &Vec<u8>, pos: usize) -> (r: Result<(FixedString, usize), Fof9Error>)
        ensures
            r matches Ok((fs, end)) ==> fs.wf() && pos + 4 <= end <= bytes@.len()
                && bytes@.subrange(pos as int, end as int) =~= fixed_string_bytes(fs.string@)
                && fs.string@ == latin1_chars(bytes@.subrange(pos + 4, end as int)),
            r is Ok <==> text_parse_end(bytes@, pos as int) is Some,
            r matches Ok((fs, end)) ==> text_parse_end(bytes@, pos as int) == Some(end as int),
            r matches Err(e) ==> e is TruncatedInput,
    {
        let (len, cur) = match read_u32(bytes, pos) {
            Ok(p) => p,
            Err(e) => {
                return Err(e);
            },
        };
        proof {
            crate::bytes::lemma_u32_le_injective(len);
            assert(u32_of_prefix(bytes@, pos as int) == len);
        }
        let n = bytes.len();
        if cur > n || n - cur < len as usize {
            return Err(Fof9Error::TruncatedInput { pos: cur });
        }
        let end = cur + len as usize;
        let mut data: Vec<u8> = Vec::new();
        let mut i: usize = cur;
        while i < end
            invariant
                cur <= i <= end <= bytes@.len(),
                data@ =~= bytes@.subrange(cur as int, i as int),
            decreases end - i,
        {
            data.push(bytes[i]);
            proof {
                assert(data@ =~= bytes@.subrange(cur as int, i + 1 as int));
            }
            i = i + 1;
        }
        let string = match latin1_decode(&data) {
            Some(s) => s,
            None => String::from_str("<bad conversion>"),
        };
        proof {
            lemma_latin1_roundtrip(data@);
            assert(bytes@.subrange(pos as int, end as int) =~= bytes@.subrange(
                pos as int,
                cur as int,
            ) + bytes@.subrange(cur as int, end as int));
            assert(latin1_bytes(string@) =~= bytes@.subrange(cur as int, end as int));
        }
        Ok((FixedString { string }, end))
    }

    /// Re-encodes a text field, recomputing the length prefix from the
    /// current string content.
    pub fn encode(&self, out: &mut Vec<u8>)
        requires
            self.wf(),
        ensures
            final(out)@ =~= old(out)@ + fixed_string_bytes(self.string@),
    {
        let s = self.string.as_str();
        let len = s.unicode_len();
        push_u32(out, len as u32);
        let ghost mid = out@;
        let mut i: usize = 0;
        while i < len
            invariant
                i <= len == self.string@.len() <= u32::MAX,
                s@ == self.string@,
                single_byte_encodable(self.string@),
                out@ =~= mid + latin1_bytes(self.string@.subrange(0, i as int)),
            decreases len - i,
        {
            let c = s.get_char(i);
            let code: u32 = c as u32;
            out.push(code as u8);
            proof {
                assert(out@ =~= mid + latin1_bytes(self.string@.subrange(0, i + 1 as int)));
            }
            i = i + 1;
        }
        proof {
            assert(self.string@.subrange(0, self.string@.len() as int) =~= self.string@);
        }
    }
}

/// A length measured in tenths, where the stored unit is eighths of an inch:
/// the stored value is `eighths + 10 * (inches + 12 * feet)`.
#[derive(Clone, Copy, Debug, PartialEq, Eq, Structural)]
pub struct LengthInches {
    pub inches_eighths: u32,
}

impl LengthInches {
    /// Decodes one stored length value.
    pub fn decode(bytes: &Vec<u8>, pos: usize) -> (r: Result<(LengthInches, usize), Fof9Error>)
        ensures
            r is Ok <==> pos + 4 <= bytes@.len(),
            r matches Ok((v, end)) ==> end == pos + 4 && bytes@.subrange(pos as int, end as int)
                =~= u32_le_bytes(v.inches_eighths),
            r matches Err(e) ==> e == (Fof9Error::TruncatedInput { pos }),
    {
        match read_u32(bytes, pos) {
            Ok((v, end)) => Ok((LengthInches { inches_eighths: v }, end)),
            Err(e) => Err(e),
        }
    }

    /// The eighths-of-an-inch part of the length.
    pub fn eighths(&self) -> (r: u32)
        ensures
            r == self.inches_eighths % 10,
    {
        self.inches_eighths % 10
    }

    /// The whole-inch part of the length, feet excluded.
    pub fn inches(&self) -> (r: u32)
        ensures
            r == (self.inches_eighths / 10) % 12,
    {
        (self.inches_eighths / 10) % 12
    }

    /// The whole-feet part of the length.
    pub fn feet(&self) -> (r: u32)
        ensures
            r == self.inches_eighths / 120,
    {
        proof {
            assert(self.inches_eighths / 10 / 12 == self.inches_eighths / 120) by (nonlinear_arith);
        }
        self.inches_eighths / 10 / 12
    }

    /// The display form of the whole length: feet with a foot mark where
    /// present, then the inches part.
    pub open spec fn spec_display(&self) -> Seq<char> {
        let eighths = (self.inches_eighths % 10) as u32;
        let inches = ((self.inches_eighths / 10) % 12) as u32;
        let feet = (self.inches_eighths / 120) as u32;
        if feet > 0 {
            latin1_chars(dec_bytes(feet as nat)) + "'"@ + spec_fmt_inches(inches, eighths)
        } else {
            spec_fmt_inches(inches, eighths)
        }
    }

    /// Formats the length for display.
    pub fn display_string(&self) -> (r: String)
        ensures
            r@ == self.spec_display(),
    {
        let eighths = self.eighths();
        let inches = self.inches();
        let feet = self.feet();
        if feet > 0 {
            let digits = dec_digits(feet);
            let mut r = digits_to_string(&digits);
            r.append("'");
            let tail = fmt_inches(inches, eighths);
            r.append(tail.as_str());
            proof {
                assert(r@ =~= self.spec_display());
            }
            r
        } else {
            fmt_inches(inches, eighths)
        }
    }
}

/// A calendar date as stored on disk: three 32-bit fields.
#[derive(Clone, Copy, Debug, PartialEq, Eq, Structural)]
pub struct Date {
    pub year: u32,
    pub month: u32,
    pub day: u32,
}

/// The on-disk encoding of a date.
pub open spec fn date_bytes(d: Date) -> Seq<u8> {
    u32_le_bytes(d.year) + u32_le_bytes(d.month) + u32_le_bytes(d.day)
}

impl Date {
    /// Decodes one stored date.
    pub fn decode(bytes: &Vec<u8>, pos: usize) -> (r: Result<(Date, usize), Fof9Error>)
        ensures
            r is Ok <==> pos + 12 <= bytes@.len(),
            r matches Ok((v, end)) ==> end == pos + 12 && bytes@.subrange(pos as int, end as int)
                =~= date_bytes(v),
            r matches Err(e) ==> e is TruncatedInput,
    {
        let (year, p1) = match read_u32(bytes, pos) {
            Ok(p) => p,
            Err(e) => {
                return Err(e);
            },
        };
        let (month, p2) = match read_u32(bytes, p1) {
            Ok(p) => p,
            Err(e) => {
                return Err(e);
            },
        };
        let (day, p3) = match read_u32(bytes, p2) {
            Ok(p) => p,
            Err(e) => {
                return Err(e);
            },
        };
        let d = Date { year, month, day };
        proof {
            assert(bytes@.subrange(pos as int, p3 as int) =~= bytes@.subrange(pos as int, p1 as int)
                + bytes@.subrange(p1 as int, p2 as int) + bytes@.subrange(p2 as int, p3 as int));
        }
        Ok((d, p3))
    }
}

/// The ASCII digits of a number, most significant first.
pub open spec fn dec_bytes(n: nat) -> Seq<u8>
    decreases n,
{
    if n < 10 {
        seq![(48 + n) as u8]
    } else {
        dec_bytes(n / 10).push((48 + n % 10) as u8)
    }
}

/// Computes the ASCII digits of a number, most significant first.
pub fn dec_digits(n: u32) -> (r: Vec<u8>)
    ensures
        r@ =~= dec_bytes(n as nat),
    decreases n,
{
    if n < 10 {
        let r: Vec<u8> = vec![48u8 + n as u8];
        r
    } else {
        let mut r = dec_digits(n / 10);
        r.push(48u8 + (n % 10) as u8);
        r
    }
}

/// The ASCII digits of a number padded to at least two digits.
pub open spec fn pad2_bytes(n: nat) -> Seq<u8> {
    if n < 10 {
        seq![48u8, (48 + n) as u8]
    } else {
        dec_bytes(n)
    }
}

/// Computes the ASCII digits of a number padded to at least two digits.
pub fn pad2_digits(n: u32) -> (r: Vec<u8>)
    ensures
        r@ =~= pad2_bytes(n as nat),
{
    if n < 10 {
        let r: Vec<u8> = vec![48u8, 48u8 + n as u8];
        r
    } else {
        dec_digits(n)
    }
}

/// Turns ASCII digit bytes into their string.
pub fn digits_to_string(digits: &Vec<u8>) -> (r: String)
    ensures
        r@ == latin1_chars(digits@),
{
    match latin1_decode(digits) {
        Some(s) => s,
        None => String::from_str("<bad conversion>"),
    }
}

/// Law: decoding a stored text field and re-encoding it reproduces the
/// original bytes — a length prefix equal to the byte count, then exactly
/// those bytes — for any storable length.
pub proof fn lemma_text_round_trip(data: Seq<u8>)
    requires
        data.len() <= u32::MAX,
    ensures
        fixed_string_bytes(latin1_chars(data)) == u32_le_bytes(data.len() as u32) + data,
{
    lemma_latin1_roundtrip(data);
    assert(fixed_string_bytes(latin1_chars(data)) =~= u32_le_bytes(data.len() as u32) + data);
}

/// The display form of the eighths part: a space, the count, and `/8`, or
/// nothing when the count is zero.
pub open spec fn spec_fmt_eighths(eighths: u32) -> Seq<char> {
    if eighths > 0 {
        " "@ + latin1_chars(dec_bytes(eighths as nat)) + "/8"@
    } else {
        Seq::empty()
    }
}

/// Formats the eighths part of a length.
pub fn fmt_eighths(eighths: u32) -> (r: String)
    ensures
        r@ == spec_fmt_eighths(eighths),
{
    if eighths > 0 {
        let mut r = String::from_str(" ");
        let digits = dec_digits(eighths);
        let ds = digits_to_string(&digits);
        r.append(ds.as_str());
        r.append("/8");
        proof {
            assert(r@ =~= spec_fmt_eighths(eighths));
        }
        r
    } else {
        let r = String::new();
        proof {
            assert(r@ =~= spec_fmt_eighths(eighths));
        }
        r
    }
}

/// The display form of the inches part: a space, the inch count, the
/// eighths part, and an inch mark; without whole inches only the eighths
/// and the mark; nothing when both are zero.
pub open spec fn spec_fmt_inches(inches: u32, eighths: u32) -> Seq<char> {
    if inches > 0 {
        " "@ + latin1_chars(dec_bytes(inches as nat)) + spec_fmt_eighths(eighths) + "\""@
    } else if eighths > 0 {
        spec_fmt_eighths(eighths) + "\""@
    } else {
        Seq::empty()
    }
}

/// Formats the inches part of a length.
pub fn fmt_inches(inches: u32, eighths: u32) -> (r: String)
    ensures
        r@ == spec_fmt_inches(inches, eighths),
{
    if inches > 0 {
        let mut r = String::from_str(" ");
        let digits = dec_digits(inches);
        let ds = digits_to_string(&digits);
        r.append(ds.as_str());
        let e = fmt_eighths(eighths);
        r.append(e.as_str());
        r.append("\"");
        proof {
            assert(r@ =~= spec_fmt_inches(inches, eighths));
        }
        r
    } else if eighths > 0 {
        let mut r = fmt_eighths(eighths);
        r.append("\"");
        proof {
            assert(r@ =~= spec_fmt_inches(inches, eighths));
        }
        r
    } else {
        let r = String::new();
        proof {
            assert(r@ =~= spec_fmt_inches(inches, eighths));
        }
        r
    }
}

} // verus!
