//! @see https://dev.mysql.com/doc/internals/en/character-set.html#packet-Protocol::CharacterSet
//! Only a few common character sets are known.

use crate::cortices::mysql::error::MySQLParserError;
use crate::cortices::utils::{parse_u8, DeserializationError};
use crate::errors::{ImmuxError, ImmuxResult};
use vstd::prelude::*;

verus! {

pub const LATIN1_SWEDISH_CI: u8 = 8;
pub const UTF8_GENERAL_CI: u8 = 33;
pub const UTF8MB4_GENERAL_CI: u8 = 45;
pub const BINARY: u8 = 63;

#[derive(Debug, Clone, Copy, PartialEq, Eq, Structural)]
pub enum CharacterSet {
    Latin1SwedishCi,
    Utf8GeneralCi,
    Binary,
    Utf8mb4GeneralCi,
}

/// The number that stands for a character set on the wire.
pub open spec fn character_set_value(character_set: CharacterSet) -> u8 {
    match character_set {
        CharacterSet::Latin1SwedishCi => LATIN1_SWEDISH_CI,
        CharacterSet::Utf8GeneralCi => UTF8_GENERAL_CI,
        CharacterSet::Binary => BINARY,
        CharacterSet::Utf8mb4GeneralCi => UTF8MB4_GENERAL_CI,
    }
}

/// The character set a number stands for, if it is one of the known ones.
pub open spec fn character_set_of(value: u8) -> Option<CharacterSet> {
    if value == LATIN1_SWEDISH_CI {
        Some(CharacterSet::Latin1SwedishCi)
    } else if value == UTF8_GENERAL_CI {
        Some(CharacterSet::Utf8GeneralCi)
    } else if value == BINARY {
        Some(CharacterSet::Binary)
    } else if value == UTF8MB4_GENERAL_CI {
        Some(CharacterSet::Utf8mb4GeneralCi)
    } else {
        None
    }
}

pub fn get_character_set_value(character_set: CharacterSet) -> (res: u8)
    ensures
        res == character_set_value(character_set),
{
    match character_set {
        CharacterSet::Latin1SwedishCi => LATIN1_SWEDISH_CI,
        CharacterSet::Utf8GeneralCi => UTF8_GENERAL_CI,
        CharacterSet::Binary => BINARY,
        CharacterSet::Utf8mb4GeneralCi => UTF8MB4_GENERAL_CI,
    }
}

pub fn pick_character_set(character_set_value: u8) -> (res: ImmuxResult<CharacterSet>)
    ensures
        match character_set_of(character_set_value) {
            Some(c) => res == Ok::<CharacterSet, ImmuxError>(c),
            None => res == Err::<CharacterSet, ImmuxError>(
                ImmuxError::MySQLParser(MySQLParserError::UnknownCharacterSetValue(character_set_value)),
            ),
        },
{
    if character_set_value == LATIN1_SWEDISH_CI {
        Ok(CharacterSet::Latin1SwedishCi)
    } else if character_set_value == UTF8_GENERAL_CI {
        Ok(CharacterSet::Utf8GeneralCi)
    } else if character_set_value == BINARY {
        Ok(CharacterSet::Binary)
    } else if character_set_value == UTF8MB4_GENERAL_CI {
        Ok(CharacterSet::Utf8mb4GeneralCi)
    } else {
        Err(ImmuxError::MySQLParser(MySQLParserError::UnknownCharacterSetValue(character_set_value)))
    }
}

/// Reads the one-byte character set at the front of `buffer`.
pub fn parse_character_set(buffer: &[u8]) -> (res: ImmuxResult<(CharacterSet, usize)>)
    ensures
        buffer@.len() < 1 ==> res == Err::<(CharacterSet, usize), ImmuxError>(
            ImmuxError::Deserialization(DeserializationError::InsufficientDataWidthU8),
        ),
        buffer@.len() >= 1 ==> match character_set_of(buffer@[0]) {
            Some(c) => res == Ok::<(CharacterSet, usize), ImmuxError>((c, 1usize)),
            None => res == Err::<(CharacterSet, usize), ImmuxError>(
                ImmuxError::MySQLParser(MySQLParserError::UnknownCharacterSetValue(buffer@[0])),
            ),
        },
{
    let (character_set_value, offset) = parse_u8(
        buffer,
        ImmuxError::Deserialization(DeserializationError::InsufficientDataWidthU8),
    )?;
    let character_set = pick_character_set(character_set_value)?;
    Ok((character_set, offset))
}

/// The number of a character set stands for that character set, and a known
/// number is the number of the character set it stands for.
pub proof fn lemma_character_set_roundtrip(character_set: CharacterSet, value: u8)
    ensures
        character_set_of(character_set_value(character_set)) == Some(character_set),
        character_set_of(value) matches Some(c) ==> character_set_value(c) == value,
{
}

} // verus!
