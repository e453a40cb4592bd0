//! The rename map: the names that the user gave to games, by identifier.
//!
//! The map is kept as a JSON object whose keys are identifiers in decimal and
//! whose values are names. Reading the file is the caller's part; a file that
//! is missing or cannot be read, or that holds something else, stands for no
//! renames at all.

use crate::sync::rename_view;
use std::collections::HashMap;
use vstd::prelude::*;

verus! {

#[verifier::external_type_specification]
#[verifier::external_body]
pub struct ExJsonError(serde_json::Error);

/// Why there is no rename map.
#[derive(Clone, Copy, Debug, PartialEq, Eq)]
pub enum RenameMapError {
    /// The file is missing or could not be read.
    Unreadable,
    /// The file does not hold a JSON object from identifiers to names.
    Malformed,
}

/// Names what `serde_json::from_str` makes of a text when it is asked for a
/// map from `u32` to `String`: the map, or nothing where it reports an error.
pub uninterp spec fn parsed_renames(text: Seq<char>) -> Option<Map<u32, Seq<char>>>;

/// `serde_json::from_str` for a map from `u32` to `String`. The contract gives
/// the outcome its name, [`parsed_renames`], and says no more of it: the map
/// that comes back is the named one, and an error comes back exactly where
/// there is none.
#[verifier::external_body]
fn parse_rename_json(text: &str) -> (parsed: Result<HashMap<u32, String>, serde_json::Error>)
    ensures
        match parsed {
            Ok(map) => parsed_renames(text@) == Some(rename_view(map)),
            Err(_) => parsed_renames(text@) is None,
        },
{
    serde_json::from_str(text)
}

/// What a rename file stands for, given what was read of it.
pub open spec fn renames_of(file_content: Option<Seq<char>>) -> Result<
    Map<u32, Seq<char>>,
    RenameMapError,
> {
    match file_content {
        None => Err(RenameMapError::Unreadable),
        Some(text) => match parsed_renames(text) {
            Some(map) => Ok(map),
            None => Err(RenameMapError::Malformed),
        },
    }
}

/// From the outcome of the parse to the rename map or the reason why there is
/// none.
pub fn rename_map_from_parse<E>(parsed: Result<HashMap<u32, String>, E>) -> (renames: Result<
    HashMap<u32, String>,
    RenameMapError,
>)
    ensures
        match (parsed, renames) {
            (Ok(map), Ok(out)) => out == map,
            (Err(_), Err(error)) => error == RenameMapError::Malformed,
            _ => false,
        },
{
    match parsed {
        Ok(map) => Ok(map),
        Err(_) => Err(RenameMapError::Malformed),
    }
}

/// Reads the rename map out of the content of the rename file; `None` stands
/// for a file that could not be read.
pub fn try_get_rename_map(file_content: Option<&str>) -> (renames: Result<
    HashMap<u32, String>,
    RenameMapError,
>)
    ensures
        match renames {
            Ok(map) => renames_of(
                match file_content {
                    Some(text) => Some(text@),
                    None => None,
                },
            ) == Ok::<Map<u32, Seq<char>>, RenameMapError>(rename_view(map)),
            Err(error) => renames_of(
                match file_content {
                    Some(text) => Some(text@),
                    None => None,
                },
            ) == Err::<Map<u32, Seq<char>>, RenameMapError>(error),
        },
{
    match file_content {
        None => Err(RenameMapError::Unreadable),
        Some(text) => rename_map_from_parse(parse_rename_json(text)),
    }
}

/// The rename map of the rename file, or the empty map where the file could
/// not be read or holds no rename map.
pub fn get_rename_map(file_content: Option<&str>) -> (renames: HashMap<u32, String>)
    ensures
        rename_view(renames) == match renames_of(
            match file_content {
                Some(text) => Some(text@),
                None => None,
            },
        ) {
            Ok(map) => map,
            Err(_) => Map::<u32, Seq<char>>::empty(),
        },
{
    match try_get_rename_map(file_content) {
        Ok(map) => map,
        Err(_) => {
            let empty: HashMap<u32, String> = HashMap::new();
            assert(rename_view(empty) =~= Map::<u32, Seq<char>>::empty());
            empty
        },
    }
}

} // verus!
