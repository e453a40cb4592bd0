//! The identifier generator: a stable numeric identifier for a game, derived
//! from the text of its executable's path and its display name.

use crate::text::{decimal_string, decimal_text, decimal_value, lemma_decimal_roundtrip};
use std::collections::hash_map::DefaultHasher;
use std::hash::Hasher;
use vstd::prelude::*;
use vstd::std_specs::hash::DefaultHasherAdditionalSpecFns;
use vstd::string::StringExecFns;

verus! {

/// The bit that marks an identifier as one of a shortcut that the host library
/// did not create itself: the most significant of its 32 bits.
pub const LEGACY_BIT: u32 = 0x8000_0000;

/// The 64-bit hash of a text: what a `DefaultHasher` fresh from `new()`
/// reports after the text's UTF-8 bytes and then the byte `0xff` were written
/// to it. This is the byte stream that hashing a `str` feeds to a hasher.
pub open spec fn text_hash(text: Seq<char>) -> u64 {
    DefaultHasher::spec_finish(seq![vstd::utf8::encode_utf8(text), seq![0xffu8]])
}

/// The identifier that belongs to a hash: its low 31 bits, with the bit above
/// them set.
pub open spec fn legacy_id_of(hash: u64) -> u32 {
    (0x8000_0000 + hash % 0x8000_0000) as u32
}

/// The numeric identifier of the game called `name` whose executable's path
/// reads `path`.
pub open spec fn identifier_of(path: Seq<char>, name: Seq<char>) -> u32 {
    legacy_id_of(text_hash(path + name))
}

/// The identifier as it is handed out: the decimal numeral of
/// [`identifier_of`].
pub open spec fn identifier_text(path: Seq<char>, name: Seq<char>) -> Seq<char> {
    decimal_text(identifier_of(path, name) as nat)
}

/// Every identifier has its most significant bit set; read back as a number its
/// text is that identifier, so it lies in the upper half of the 32-bit range.
pub proof fn lemma_identifier_high_bit(path: Seq<char>, name: Seq<char>)
    ensures
        identifier_of(path, name) & LEGACY_BIT == LEGACY_BIT,
        identifier_of(path, name) >= 0x8000_0000,
        decimal_value(identifier_text(path, name)) == identifier_of(path, name),
        0x8000_0000 <= decimal_value(identifier_text(path, name)) <= 0xffff_ffff,
{
    let id = identifier_of(path, name);
    assert(id >= 0x8000_0000u32 ==> id & 0x8000_0000u32 == 0x8000_0000u32) by (bit_vector);
    lemma_decimal_roundtrip(id as nat);
}

/// Hashes a text as [`text_hash`] says.
pub fn hash_text(text: &str) -> (hash: u64)
    ensures
        hash == text_hash(text@),
{
    let mut hasher = DefaultHasher::new();
    hasher.write(text.as_bytes());
    let end: [u8; 1] = [0xff];
    hasher.write(end.as_slice());
    proof {
        assert(end@ =~= seq![0xffu8]);
        assert(hasher@ =~= seq![vstd::utf8::encode_utf8(text@), seq![0xffu8]]);
    }
    hasher.finish()
}

/// Truncates a hash to 32 bits and sets the highest of them.
pub fn legacy_id(hash: u64) -> (id: u32)
    ensures
        id == legacy_id_of(hash),
        id >= LEGACY_BIT,
{
    let low: u32 = (hash & 0xffff_ffff) as u32;
    let id: u32 = low | LEGACY_BIT;
    assert(((hash & 0xffff_ffff) as u32) | 0x8000_0000u32 == (0x8000_0000 + hash % 0x8000_0000) as u32
        && (hash & 0xffff_ffff) <= 0xffff_ffff) by (bit_vector);
    id
}

/// The numeric identifier of a game, from its display name and the text of its
/// executable's path. The two are joined, path first, and hashed.
pub fn generate_legacy_id(game_name: &str, exe_path: &str) -> (id: u32)
    ensures
        id == identifier_of(exe_path@, game_name@),
        id >= LEGACY_BIT,
{
    let mut unique_string = String::from_str(exe_path);
    unique_string.append(game_name);
    legacy_id(hash_text(unique_string.as_str()))
}

/// The identifier of a game as a decimal string. It depends on nothing but the
/// two texts, so the same game gets the same identifier on every run, and the
/// number it spells has its most significant bit set.
pub fn generate_app_id(game_name: &str, exe_path: &str) -> (id: String)
    ensures
        id@ == identifier_text(exe_path@, game_name@),
        0x8000_0000 <= decimal_value(id@) <= 0xffff_ffff,
{
    proof {
        lemma_identifier_high_bit(exe_path@, game_name@);
    }
    decimal_string(generate_legacy_id(game_name, exe_path) as u64)
}

} // verus!
