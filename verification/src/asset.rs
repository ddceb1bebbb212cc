//! Raw project assets: their bytes, their kind, and their content digest as
//! the loader states it.

use vstd::prelude::*;
use crate::scalar_value::str_eq;

verus! {

/// What kind of data an asset holds.
#[derive(Debug, Clone, Copy, PartialEq, Eq, Structural)]
pub enum AssetType {
    PNG,
    SVG,
    JPEG,
    WAV,
    MP3,
}

/// One asset: its raw bytes, its kind, and the 16-byte digest its name
/// carries in the archive.
#[derive(Debug)]
pub struct Asset {
    pub data: Vec<u8>,
    pub asset_type: AssetType,
    pub md5_digest: Vec<u8>,
}

/// The value of one hexadecimal digit.
pub open spec fn hex_digit_val(c: char) -> Option<u8> {
    let u = c as u32;
    if 0x30 <= u && u <= 0x39 {
        Some((u - 0x30) as u8)
    } else if 0x61 <= u && u <= 0x66 {
        Some((u - 0x61 + 10) as u8)
    } else if 0x41 <= u && u <= 0x46 {
        Some((u - 0x41 + 10) as u8)
    } else {
        None
    }
}

/// What a hex numeral decodes to: two digits to a byte, upper or lower
/// case; odd length or a stray character decodes to nothing.
pub open spec fn hex_decode_spec(s: Seq<char>) -> Option<Seq<u8>>
    decreases s.len(),
{
    if s.len() % 2 == 1 {
        None
    } else if s.len() == 0 {
        Some(Seq::<u8>::empty())
    } else {
        match (hex_digit_val(s[0]), hex_digit_val(s[1]), hex_decode_spec(s.skip(2))) {
            (Some(h), Some(l), Some(rest)) => Some(seq![(h * 16 + l) as u8] + rest),
            _ => None,
        }
    }
}

/// Relies on `hex::decode`: it turns a hex numeral into its bytes, two
/// digits to a byte, accepting both cases, and errs exactly on an odd
/// length or a character that is no hex digit.
#[verifier::external_body]
pub fn hex_decode(s: &str) -> (r: Option<Vec<u8>>)
    ensures
        match r {
            Some(v) => hex_decode_spec(s@) == Some(v@),
            None => hex_decode_spec(s@) is None,
        },
{
    match hex::decode(s) {
        Ok(v) => Some(v),
        Err(_) => None,
    }
}

/// Why an asset description was rejected.
#[derive(Debug, Clone, Copy, PartialEq, Eq, Structural)]
pub enum AssetError {
    /// The data format is none of png, svg, jpg, mp3, wav.
    UnknownAssetType,
    /// The asset id is not a hex numeral of exactly 16 bytes.
    BadAssetId,
}

/// The asset type a data format name stands for, if any.
pub open spec fn spec_asset_type(s: Seq<char>) -> Option<AssetType> {
    if s == "png"@ {
        Some(AssetType::PNG)
    } else if s == "svg"@ {
        Some(AssetType::SVG)
    } else if s == "jpg"@ {
        Some(AssetType::JPEG)
    } else if s == "mp3"@ {
        Some(AssetType::MP3)
    } else if s == "wav"@ {
        Some(AssetType::WAV)
    } else {
        None
    }
}

/// Build an asset from its bytes, its hex asset id and its data format
/// name. Succeeds exactly when the format is known and the id decodes to
/// 16 bytes.
pub fn make_asset(data: Vec<u8>, asset_id: &str, data_format: &str) -> (r: Result<
    Asset,
    AssetError,
>)
    ensures
        match r {
            Ok(a) => {
                &&& spec_asset_type(data_format@) == Some(a.asset_type)
                &&& hex_decode_spec(asset_id@) == Some(a.md5_digest@)
                &&& a.md5_digest@.len() == 16
                &&& a.data == data
            },
            Err(AssetError::UnknownAssetType) => spec_asset_type(data_format@) is None,
            Err(AssetError::BadAssetId) => {
                &&& spec_asset_type(data_format@) is Some
                &&& match hex_decode_spec(asset_id@) {
                    Some(b) => b.len() != 16,
                    None => true,
                }
            },
        },
{
    let asset_type = if str_eq(data_format, "png") {
        AssetType::PNG
    } else if str_eq(data_format, "svg") {
        AssetType::SVG
    } else if str_eq(data_format, "jpg") {
        AssetType::JPEG
    } else if str_eq(data_format, "mp3") {
        AssetType::MP3
    } else if str_eq(data_format, "wav") {
        AssetType::WAV
    } else {
        return Err(AssetError::UnknownAssetType);
    };
    let md5_digest = match hex_decode(asset_id) {
        Some(b) => b,
        None => {
            return Err(AssetError::BadAssetId);
        },
    };
    if md5_digest.len() != 16 {
        return Err(AssetError::BadAssetId);
    }
    Ok(Asset { data, asset_type, md5_digest })
}

} // verus!
