//! The whole resolution: family, identifier and optional vendor to the text of
//! an attribution page.

use vstd::prelude::*;

use crate::error::WebiconError;
use crate::html::{attribution_texts, body_texts, favicon_html, joined, make_html};
use crate::metadata::{
    default_vendor_of, family_name, lemma_family_names_distinct, get_default_vendor, get_metadata, metadata_of, string_result,
    ConfigView, MetadataConfig, VendorMetadataView, WebiconFamily,
};
use crate::token::{get_emoji_from_id, id_glyph, normalize_id, normalized};

verus! {

/// The family whose wire name is `s`, if any.
pub open spec fn family_of(s: Seq<char>) -> Option<WebiconFamily> {
    if s == family_name(WebiconFamily::Emojis) {
        Some(WebiconFamily::Emojis)
    } else if s == family_name(WebiconFamily::Icons) {
        Some(WebiconFamily::Icons)
    } else {
        None
    }
}

/// The title of the page of an emoji: its glyph, then its identifier in parentheses.
pub open spec fn page_title(glyph: Seq<char>, id: Seq<char>) -> Seq<char> {
    glyph + " ("@ + id + ")"@
}

/// The text of the attribution page of a vendor, under `title`.
pub open spec fn page_html(m: VendorMetadataView, title: Seq<char>) -> Seq<char> {
    "<!DOCTYPE html><html>"@ + "<head><title>"@ + title + "</title>"@ + favicon_html() + "</head>"@
        + "<body>"@ + joined(attribution_texts(m)) + "</body>"@ + "</html>"@
}

/// The vendor a request resolves to: the one asked for, else the family's default.
pub open spec fn requested_vendor(c: ConfigView, family: Seq<char>, vendor: Option<Seq<char>>) -> Result<Seq<char>, WebiconError> {
    match vendor {
        Some(v) => Ok(v),
        None => default_vendor_of(c, family),
    }
}

/// The response to a request for `id` of `family`, from `vendor` or else the
/// family's default vendor.
pub open spec fn webicon_page(c: ConfigView, family: Seq<char>, id: Seq<char>, vendor: Option<Seq<char>>) -> Result<Seq<char>, WebiconError> {
    match family_of(family) {
        None => Err(WebiconError::UnknownFamily),
        Some(f) => match requested_vendor(c, family, vendor) {
            Err(e) => Err(e),
            Ok(v) => match normalized(id, f) {
                Err(e) => Err(e),
                Ok(nid) => match metadata_of(c, family, v) {
                    Err(e) => Err(e),
                    Ok(m) => match id_glyph(nid) {
                        Err(e) => Err(e),
                        Ok(g) => Ok(page_html(m, page_title(g, nid))),
                    },
                },
            },
        },
    }
}

/// Omitting the vendor is the same as naming the family's default vendor,
/// and two identifiers that normalize alike give the same page.
pub proof fn lemma_default_request_same_page(c: ConfigView, family: Seq<char>, id: Seq<char>, other_id: Seq<char>, v: Seq<char>)
    requires
        default_vendor_of(c, family) == Ok::<Seq<char>, WebiconError>(v),
        family_of(family) matches Some(f) && normalized(id, f) == normalized(other_id, f),
    ensures
        webicon_page(c, family, id, None) == webicon_page(c, family, other_id, Some(v)),
{
}

/// A request for a family with no wire name is refused as an unknown family,
/// whatever the identifier and vendor.
pub proof fn lemma_unknown_family_page(c: ConfigView, family: Seq<char>, id: Seq<char>, vendor: Option<Seq<char>>)
    requires
        family != family_name(WebiconFamily::Emojis),
        family != family_name(WebiconFamily::Icons),
    ensures
        webicon_page(c, family, id, vendor) == Err::<Seq<char>, WebiconError>(WebiconError::UnknownFamily),
{
}

/// The string content of an optional string.
pub open spec fn vendor_view(v: Option<String>) -> Option<Seq<char>> {
    match v {
        Some(s) => Some(s@),
        None => None,
    }
}

/// Resolves a request for `id` of `family` into the text of its attribution
/// page. The vendor is `vendor` if given, else the family's default vendor.
pub fn get_webicon(config: &MetadataConfig, family: &str, id: &str, vendor: Option<String>) -> (r: Result<String, WebiconError>)
    requires
        config.wf(),
    ensures
        string_result(r) == webicon_page(config@, family@, id@, vendor_view(vendor)),
{
    let ghost requested = vendor_view(vendor);
    let f = match WebiconFamily::from_name(family) {
        Ok(f) => f,
        Err(_) => return Err(WebiconError::UnknownFamily),
    };
    let vendor = match vendor {
        Some(v) => v,
        None => match get_default_vendor(config, family) {
            Ok(v) => v,
            Err(e) => return Err(e),
        },
    };
    proof {
        lemma_family_names_distinct();
    }
    assert(family_of(family@) == Some(f));
    assert(requested_vendor(config@, family@, requested) == Ok::<Seq<char>, WebiconError>(vendor@));
    let id = match normalize_id(id, &f) {
        Ok(id) => id,
        Err(e) => return Err(e),
    };
    let metadata = match get_metadata(config, &f, vendor.as_str()) {
        Ok(m) => m,
        Err(e) => return Err(e),
    };
    let mut title = match get_emoji_from_id(id.as_str()) {
        Ok(g) => g,
        Err(e) => return Err(e),
    };
    title.append(" (");
    title.append(id.as_str());
    title.append(")");
    let page = make_html(&metadata, title.as_str());
    let r = page.to_string();
    assert(body_texts(page.body) == attribution_texts(metadata@));
    assert(r@ =~= page_html(metadata@, title@));
    Ok(r)
}

} // verus!
