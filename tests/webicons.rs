use std::str::FromStr;

use webicons::error::WebiconError;
use webicons::hex::{format_hex, parse_codepoint};
use webicons::html::make_html;
use webicons::metadata::{
    get_default_vendor, get_metadata, MetadataConfig, VendorTable, WebiconFamily,
    WebiconVendorMetadata,
};
use webicons::page::get_webicon;
use webicons::token::{
    get_emoji_from_id, get_id_from_shortcode, glyph_to_id, normalize_id, str_to_char,
};

fn record(name: &str) -> WebiconVendorMetadata {
    WebiconVendorMetadata::new(
        name.to_string(),
        format!("Icons by {}", name),
        "CC BY-SA 4.0".to_string(),
        "https://creativecommons.org/licenses/by-sa/4.0/".to_string(),
        format!("https://{}.example.org", name.to_lowercase()),
    )
}

fn fixture() -> MetadataConfig {
    let mut emojis = VendorTable::new();
    emojis.insert("Twemoji".to_string(), record("Twemoji"));
    emojis.insert("Noto".to_string(), record("Noto"));
    emojis.insert("OpenMoji".to_string(), record("OpenMoji"));
    let mut icons = VendorTable::new();
    icons.insert("FontAwesome".to_string(), record("FontAwesome"));
    let mut config = MetadataConfig::new();
    config.insert("emojis".to_string(), emojis);
    config.insert("icons".to_string(), icons);
    config.insert("symbols".to_string(), VendorTable::new());
    config
}

#[test]
fn test_str_to_char() {
    assert_eq!('a', str_to_char("a"));
    assert_eq!('a', str_to_char("abc"));
    assert_eq!('😀', str_to_char("😀"));
    assert_eq!('\u{1f600}', str_to_char("\u{1f600}"));
}

#[test]
fn test_get_id_from_shortcode() {
    let id = get_id_from_shortcode("grinning").unwrap();
    assert_eq!("1f600", id);
}

#[test]
fn test_webicon_family_traits() {
    assert_eq!("emojis", WebiconFamily::Emojis.to_string());
    assert_eq!(
        WebiconFamily::Emojis,
        WebiconFamily::from_str("emojis").unwrap()
    );
}

#[test]
fn family_names_parse_exactly() {
    assert_eq!("icons", WebiconFamily::Icons.to_string());
    assert_eq!(WebiconFamily::Icons, WebiconFamily::from_str("icons").unwrap());
    assert!(WebiconFamily::from_str("stickers").is_err());
    assert!(WebiconFamily::from_str("Emojis").is_err());
    assert!(WebiconFamily::from_str("").is_err());
}

#[test]
fn unknown_shortcode_is_refused() {
    assert_eq!(
        get_id_from_shortcode("no_such_shortcode"),
        Err(WebiconError::UnknownShortcode)
    );
    assert_eq!(get_id_from_shortcode("rocket"), Ok("1f680".to_string()));
}

#[test]
fn normalize_shortcode_and_icons() {
    assert_eq!(
        normalize_id("grinning", &WebiconFamily::Emojis),
        Ok("1f600".to_string())
    );
    assert_eq!(
        normalize_id("1f600", &WebiconFamily::Icons),
        Ok("1f600".to_string())
    );
    assert_eq!(
        normalize_id("github", &WebiconFamily::Icons),
        Ok("github".to_string())
    );
}

#[test]
fn normalize_passes_emoji_characters_through() {
    assert_eq!(
        normalize_id("1f600", &WebiconFamily::Emojis),
        Ok("1f600".to_string())
    );
    assert_eq!(
        normalize_id("😀", &WebiconFamily::Emojis),
        Ok("😀".to_string())
    );
}

#[test]
fn normalize_errors() {
    assert_eq!(
        normalize_id("", &WebiconFamily::Emojis),
        Err(WebiconError::InvalidInput)
    );
    assert_eq!(normalize_id("", &WebiconFamily::Icons), Ok(String::new()));
    assert_eq!(
        normalize_id("not_a_shortcode", &WebiconFamily::Emojis),
        Err(WebiconError::UnknownShortcode)
    );
}

#[test]
fn glyph_to_id_uses_first_scalar() {
    assert_eq!(glyph_to_id("😀"), Ok("1f600".to_string()));
    assert_eq!(glyph_to_id("\u{2764}\u{fe0f}"), Ok("2764".to_string()));
    assert_eq!(glyph_to_id("A"), Ok("41".to_string()));
    assert_eq!(glyph_to_id(""), Err(WebiconError::InvalidInput));
}

#[test]
fn format_hex_values() {
    assert_eq!(format_hex(0), "0");
    assert_eq!(format_hex(15), "f");
    assert_eq!(format_hex(16), "10");
    assert_eq!(format_hex(0x1f600), "1f600");
    assert_eq!(format_hex(u32::MAX), "ffffffff");
}

#[test]
fn parse_codepoint_values() {
    assert_eq!(parse_codepoint("1f600"), Some(0x1f600));
    assert_eq!(parse_codepoint("1F600"), Some(0x1f600));
    assert_eq!(parse_codepoint("+1f600"), Some(0x1f600));
    assert_eq!(parse_codepoint("0"), Some(0));
    assert_eq!(parse_codepoint("10ffff"), Some(0x10ffff));
    assert_eq!(parse_codepoint("110000"), None);
    assert_eq!(parse_codepoint("ffffffffff"), None);
    assert_eq!(parse_codepoint("d800"), None);
    assert_eq!(parse_codepoint(""), None);
    assert_eq!(parse_codepoint("+"), None);
    assert_eq!(parse_codepoint("1g"), None);
    assert_eq!(parse_codepoint("-1"), None);
}

#[test]
fn emoji_from_id() {
    assert_eq!(get_emoji_from_id("1f600"), Ok("😀".to_string()));
    assert_eq!(get_emoji_from_id("1f680"), Ok("🚀".to_string()));
    assert_eq!(get_emoji_from_id("grinning"), Err(WebiconError::InvalidCodepoint));
    assert_eq!(get_emoji_from_id("d800"), Err(WebiconError::InvalidCodepoint));
    assert_eq!(get_emoji_from_id("110000"), Err(WebiconError::InvalidCodepoint));
    assert_eq!(get_emoji_from_id("41"), Err(WebiconError::UnknownEmoji));
}

#[test]
fn codepoint_round_trip() {
    for glyph in ["😀", "🚀", "😃", "🎉"] {
        let id = glyph_to_id(glyph).unwrap();
        assert_eq!(get_emoji_from_id(&id), Ok(glyph.to_string()));
        let c = str_to_char(glyph);
        assert_eq!(format_hex(c as u32), id);
        assert_eq!(parse_codepoint(&id), Some(c as u32));
    }
}

#[test]
fn default_vendor_is_last_defined() {
    let config = fixture();
    assert_eq!(get_default_vendor(&config, "emojis"), Ok("OpenMoji".to_string()));
    assert_eq!(get_default_vendor(&config, "icons"), Ok("FontAwesome".to_string()));
}

#[test]
fn default_vendor_errors() {
    let config = fixture();
    assert_eq!(
        get_default_vendor(&config, "stickers"),
        Err(WebiconError::UnknownFamily)
    );
    assert_eq!(
        get_default_vendor(&config, "symbols"),
        Err(WebiconError::EmptyVendorTable)
    );
    assert_eq!(
        get_default_vendor(&MetadataConfig::new(), "emojis"),
        Err(WebiconError::UnknownFamily)
    );
}

#[test]
fn reinserted_vendor_keeps_its_place() {
    let mut table = VendorTable::new();
    table.insert("Noto".to_string(), record("Noto"));
    table.insert("OpenMoji".to_string(), record("OpenMoji"));
    table.insert("Noto".to_string(), record("Noto Color"));
    assert_eq!(table.len(), 2);
    assert_eq!(table.last_vendor(), Some("OpenMoji".to_string()));
    let noto = table.get(&"Noto".to_string()).unwrap();
    assert_eq!(noto.name, "Noto Color");
    assert!(table.get(&"Twemoji".to_string()).is_none());
}

#[test]
fn metadata_lookup() {
    let config = fixture();
    let m = get_metadata(&config, &WebiconFamily::Emojis, "OpenMoji").unwrap();
    assert_eq!(m.name, "OpenMoji");
    assert_eq!(m.url, "https://openmoji.example.org");
    assert_eq!(m.attribution, "Icons by OpenMoji");
    let m = get_metadata(&config, &WebiconFamily::Icons, "FontAwesome").unwrap();
    assert_eq!(m.name, "FontAwesome");
}

#[test]
fn metadata_errors() {
    let config = fixture();
    assert_eq!(
        get_metadata(&config, &WebiconFamily::Emojis, "Apple").unwrap_err(),
        WebiconError::UnknownVendor
    );
    assert_eq!(
        get_metadata(&config, &WebiconFamily::Emojis, "openmoji").unwrap_err(),
        WebiconError::UnknownVendor
    );
    assert_eq!(
        get_metadata(&MetadataConfig::new(), &WebiconFamily::Icons, "FontAwesome").unwrap_err(),
        WebiconError::UnknownFamily
    );
}

#[test]
fn render_orders_body() {
    let m = record("OpenMoji");
    let text = make_html(&m, "😀 (1f600)").to_string();
    assert!(text.contains("<title>😀 (1f600)</title>"));
    assert!(text.contains(
        "<link rel=\"icon\" type=\"image/x-icon\" href=\"/favicon.ico\" sizes=\"any\">"
    ));
    let name = text.find("<h1>OpenMoji</h1>").unwrap();
    let url = text
        .find("<p><a href=\"https://openmoji.example.org\">https://openmoji.example.org</a></p>")
        .unwrap();
    let attribution = text.find("<p>Icons by OpenMoji</p>").unwrap();
    let license = text
        .find("<p>License: <a href=\"https://creativecommons.org/licenses/by-sa/4.0/\">CC BY-SA 4.0</a></p>")
        .unwrap();
    assert!(name < url && url < attribution && attribution < license);
}

#[test]
fn render_exact_text() {
    let m = WebiconVendorMetadata::new(
        "V".to_string(),
        "A".to_string(),
        "L".to_string(),
        "LU".to_string(),
        "U".to_string(),
    );
    assert_eq!(
        make_html(&m, "T").to_string(),
        "<!DOCTYPE html><html><head><title>T</title>\
         <link rel=\"icon\" type=\"image/x-icon\" href=\"/favicon.ico\" sizes=\"any\">\
         </head><body><h1>V</h1><p><a href=\"U\">U</a></p><p>A</p>\
         <p>License: <a href=\"LU\">L</a></p></body></html>"
    );
}

#[test]
fn webicon_default_request_round_trip() {
    let config = fixture();
    let by_shortcode = get_webicon(&config, "emojis", "grinning", None).unwrap();
    let by_id = get_webicon(&config, "emojis", "1f600", Some("OpenMoji".to_string())).unwrap();
    assert_eq!(by_shortcode, by_id);
    let expected = make_html(&record("OpenMoji"), "😀 (1f600)").to_string();
    assert_eq!(by_id, expected);
}

#[test]
fn webicon_errors() {
    let config = fixture();
    assert_eq!(
        get_webicon(&config, "stickers", "1f600", None),
        Err(WebiconError::UnknownFamily)
    );
    assert_eq!(
        get_webicon(&config, "emojis", "1f600", Some("Apple".to_string())),
        Err(WebiconError::UnknownVendor)
    );
    assert_eq!(
        get_webicon(&config, "emojis", "no_such_shortcode", None),
        Err(WebiconError::UnknownShortcode)
    );
    assert_eq!(
        get_webicon(&config, "emojis", "", None),
        Err(WebiconError::InvalidInput)
    );
    assert_eq!(
        get_webicon(&config, "icons", "github", None),
        Err(WebiconError::InvalidCodepoint)
    );
    assert_eq!(
        get_webicon(&MetadataConfig::new(), "icons", "1f600", None),
        Err(WebiconError::UnknownFamily)
    );
}
