//! Emoji identifiers: shortcodes, glyphs and hexadecimal codepoints.

use vstd::prelude::*;

use crate::error::WebiconError;
use crate::hex::{
    codepoint_of, format_hex, hex_body, hex_of, hex_value, is_canonical_hex, lemma_hex_of_reads_back,
    parse_codepoint,
};
use crate::metadata::{string_result, WebiconFamily};

verus! {

/// Whether Unicode gives `c` the Emoji property.
pub uninterp spec fn is_emoji_char(c: char) -> bool;

/// The glyph of the emoji whose shortcode is `code`, if the emoji table has one.
pub uninterp spec fn shortcode_glyph(code: Seq<char>) -> Option<Seq<char>>;

/// The glyph of the emoji table's entry for the text `s`, if it has one.
pub uninterp spec fn emoji_glyph(s: Seq<char>) -> Option<Seq<char>>;

/// The string content of an optional string.
pub open spec fn string_option(r: Option<String>) -> Option<Seq<char>> {
    match r {
        Some(s) => Some(s@),
        None => None,
    }
}

/// Relies on unic_emoji_char::is_emoji: the Emoji property of a character.
#[verifier::external_body]
fn has_emoji_property(c: char) -> (r: bool)
    ensures
        r == is_emoji_char(c),
{
    unic_emoji_char::is_emoji(c)
}

/// Relies on emojis::get_by_shortcode: the emoji with a GitHub shortcode,
/// given as its glyph.
#[verifier::external_body]
fn glyph_by_shortcode(code: &str) -> (r: Option<String>)
    ensures
        string_option(r) == shortcode_glyph(code@),
{
    emojis::get_by_shortcode(code).map(|e| e.as_str().to_string())
}

/// Relies on emojis::get: the table's emoji for a one-character text, given
/// as its (fully qualified) glyph.
#[verifier::external_body]
fn glyph_by_scalar(c: char) -> (r: Option<String>)
    ensures
        string_option(r) == emoji_glyph(seq![c]),
{
    emojis::get(&String::from(c)).map(|e| e.as_str().to_string())
}

/// Relies on char::from_u32: `None` exactly when `n` is not a Unicode scalar
/// value.
#[verifier::external_body]
fn char_from_u32(n: u32) -> (r: Option<char>)
    ensures
        match r {
            Some(c) => c as u32 == n,
            None => !(n <= 0x10FFFF && !(0xD800 <= n <= 0xDFFF)),
        },
{
    char::from_u32(n)
}

/// The codepoint identifier of a glyph: its first scalar in lowercase hexadecimal.
pub open spec fn glyph_id(g: Seq<char>) -> Result<Seq<char>, WebiconError> {
    if g.len() == 0 {
        Err(WebiconError::InvalidInput)
    } else {
        Ok(hex_of(g[0] as u32 as nat))
    }
}

/// The codepoint identifier of the emoji with shortcode `code`.
pub open spec fn shortcode_id(code: Seq<char>) -> Result<Seq<char>, WebiconError> {
    match shortcode_glyph(code) {
        None => Err(WebiconError::UnknownShortcode),
        Some(g) => glyph_id(g),
    }
}

/// The canonical identifier of `id` in `family`: emoji shortcodes become
/// codepoint identifiers; anything else passes through.
pub open spec fn normalized(id: Seq<char>, family: WebiconFamily) -> Result<Seq<char>, WebiconError> {
    if family != WebiconFamily::Emojis {
        Ok(id)
    } else if id.len() == 0 {
        Err(WebiconError::InvalidInput)
    } else if is_emoji_char(id[0]) {
        Ok(id)
    } else {
        shortcode_id(id)
    }
}

/// The glyph of the emoji whose codepoint identifier is `id`.
pub open spec fn id_glyph(id: Seq<char>) -> Result<Seq<char>, WebiconError> {
    match codepoint_of(id) {
        None => Err(WebiconError::InvalidCodepoint),
        Some(n) => match emoji_glyph(seq![n as u32 as char]) {
            None => Err(WebiconError::UnknownEmoji),
            Some(g) => Ok(g),
        },
    }
}

/// The codepoint identifier of a character reads back as that character:
/// resolving it yields the emoji table's glyph for the character, and
/// formatting the character's scalar gives the identifier again.
pub proof fn lemma_codepoint_round_trip(c: char)
    ensures
        is_canonical_hex(hex_of(c as u32 as nat)),
        codepoint_of(hex_of(c as u32 as nat)) == Some(c as u32 as nat),
        glyph_id(seq![c]) == Ok::<Seq<char>, WebiconError>(hex_of(c as u32 as nat)),
        id_glyph(hex_of(c as u32 as nat)) == match emoji_glyph(seq![c]) {
            None => Err(WebiconError::UnknownEmoji),
            Some(g) => Ok(g),
        },
{
    let n = c as u32;
    let h = hex_of(n as nat);
    vstd::utf8::char_is_scalar(c);
    vstd::utf8::char_u32_cast(c, n);
    lemma_hex_of_reads_back(n as nat);
    assert(h[0] != '+');
    assert(hex_body(h) == h);
    assert(seq![c][0] == c);
}

/// The first character of a non-empty string.
pub fn str_to_char(s: &str) -> (r: char)
    requires
        s@.len() > 0,
    ensures
        r == s@[0],
{
    s.get_char(0)
}

/// The codepoint identifier of a glyph: its first scalar in lowercase hexadecimal.
pub fn glyph_to_id(glyph: &str) -> (r: Result<String, WebiconError>)
    ensures
        string_result(r) == glyph_id(glyph@),
{
    if glyph.unicode_len() == 0 {
        Err(WebiconError::InvalidInput)
    } else {
        Ok(format_hex(str_to_char(glyph) as u32))
    }
}

/// The codepoint identifier of the emoji with shortcode `shortcode`.
pub fn get_id_from_shortcode(shortcode: &str) -> (r: Result<String, WebiconError>)
    ensures
        string_result(r) == shortcode_id(shortcode@),
{
    match glyph_by_shortcode(shortcode) {
        None => Err(WebiconError::UnknownShortcode),
        Some(g) => glyph_to_id(g.as_str()),
    }
}

/// Canonicalizes an identifier of `family`: an emoji shortcode becomes the
/// codepoint identifier of its emoji, while an identifier that starts with an
/// emoji character, and any icon identifier, passes through unchanged.
pub fn normalize_id(id: &str, family: &WebiconFamily) -> (r: Result<String, WebiconError>)
    ensures
        string_result(r) == normalized(id@, *family),
{
    if *family != WebiconFamily::Emojis {
        Ok(id.to_owned())
    } else if id.unicode_len() == 0 {
        Err(WebiconError::InvalidInput)
    } else if has_emoji_property(str_to_char(id)) {
        Ok(id.to_owned())
    } else {
        get_id_from_shortcode(id)
    }
}

/// The glyph of the emoji whose codepoint identifier is `id`.
pub fn get_emoji_from_id(id: &str) -> (r: Result<String, WebiconError>)
    ensures
        string_result(r) == id_glyph(id@),
{
    match parse_codepoint(id) {
        None => Err(WebiconError::InvalidCodepoint),
        Some(n) => match char_from_u32(n) {
            None => Err(WebiconError::InvalidCodepoint),
            Some(c) => {
                proof {
                    vstd::utf8::char_u32_cast(c, n);
                }
                match glyph_by_scalar(c) {
                    None => Err(WebiconError::UnknownEmoji),
                    Some(g) => Ok(g),
                }
            },
        },
    }
}

} // verus!
