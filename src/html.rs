//! The attribution page: a small HTML document and its text form.

use vstd::prelude::*;

use crate::metadata::{VendorMetadataView, WebiconVendorMetadata};

verus! {

/// A `<link>` element of a document head.
pub struct Link {
    pub rel: String,
    pub type_: String,
    pub href: String,
    pub sizes: String,
}

/// A document head: its title and its icon link.
pub struct Head {
    pub title: String,
    pub link: Link,
}

/// A document body: raw HTML fragments, in order.
pub struct Body {
    pub texts: Vec<String>,
}

/// A whole document.
pub struct Html {
    pub head: Head,
    pub body: Body,
}

/// The fragments of a body.
pub open spec fn body_texts(b: Body) -> Seq<Seq<char>> {
    b.texts@.map_values(|t: String| t@)
}

/// The fragments joined in order.
pub open spec fn joined(s: Seq<Seq<char>>) -> Seq<char>
    decreases s.len(),
{
    if s.len() == 0 {
        Seq::empty()
    } else {
        joined(s.drop_last()) + s.last()
    }
}

/// The heading fragment that names the vendor.
pub open spec fn heading_text(name: Seq<char>) -> Seq<char> {
    "<h1>"@ + name + "</h1>"@
}

/// The fragment that links to the vendor's site, showing its address.
pub open spec fn url_text(url: Seq<char>) -> Seq<char> {
    "<p><a href=\""@ + url + "\">"@ + url + "</a></p>"@
}

/// A paragraph fragment.
pub open spec fn paragraph_text(t: Seq<char>) -> Seq<char> {
    "<p>"@ + t + "</p>"@
}

/// The fragment that links to the license under its name.
pub open spec fn license_text(license_url: Seq<char>, license_name: Seq<char>) -> Seq<char> {
    "<p>License: <a href=\""@ + license_url + "\">"@ + license_name + "</a></p>"@
}

/// The body fragments of an attribution page: name, url, attribution, license.
pub open spec fn attribution_texts(m: VendorMetadataView) -> Seq<Seq<char>> {
    seq![
        heading_text(m.name),
        url_text(m.url),
        paragraph_text(m.attribution),
        license_text(m.license_url, m.license_name),
    ]
}

/// The icon link of every attribution page.
pub open spec fn is_favicon_link(l: Link) -> bool {
    &&& l.rel@ == "icon"@
    &&& l.type_@ == "image/x-icon"@
    &&& l.href@ == "/favicon.ico"@
    &&& l.sizes@ == "any"@
}

/// The text of the icon link of every attribution page.
pub open spec fn favicon_html() -> Seq<char> {
    "<link rel=\""@ + "icon"@ + "\" type=\""@ + "image/x-icon"@ + "\" href=\""@ + "/favicon.ico"@
        + "\" sizes=\""@ + "any"@ + "\">"@
}

/// The text of a link element.
pub open spec fn link_html(l: Link) -> Seq<char> {
    "<link rel=\""@ + l.rel@ + "\" type=\""@ + l.type_@ + "\" href=\""@ + l.href@ + "\" sizes=\""@
        + l.sizes@ + "\">"@
}

/// The text of a head.
pub open spec fn head_html(h: Head) -> Seq<char> {
    "<head><title>"@ + h.title@ + "</title>"@ + link_html(h.link) + "</head>"@
}

/// The text of a body.
pub open spec fn body_html(b: Body) -> Seq<char> {
    "<body>"@ + joined(body_texts(b)) + "</body>"@
}

/// The text of a document.
pub open spec fn document_html(d: Html) -> Seq<char> {
    "<!DOCTYPE html><html>"@ + head_html(d.head) + body_html(d.body) + "</html>"@
}

/// The attribution page of a vendor, under `title`.
pub open spec fn is_attribution_page(d: Html, m: VendorMetadataView, title: Seq<char>) -> bool {
    &&& d.head.title@ == title
    &&& is_favicon_link(d.head.link)
    &&& body_texts(d.body) == attribution_texts(m)
}

/// `a`, then `b`, as a new string.
fn concat(a: &str, b: &str) -> (r: String)
    ensures
        r@ == a@ + b@,
{
    let mut r = String::from_str(a);
    r.append(b);
    r
}

/// The body of an attribution page: name, url, attribution, license, in that order.
fn make_body(metadata: &WebiconVendorMetadata) -> (r: Body)
    ensures
        body_texts(r) == attribution_texts(metadata@),
{
    let mut texts: Vec<String> = Vec::new();

    let h1 = concat(concat("<h1>", metadata.name.as_str()).as_str(), "</h1>");
    let mut url = concat("<p><a href=\"", metadata.url.as_str());
    url.append("\">");
    url.append(metadata.url.as_str());
    url.append("</a></p>");
    let attribution = concat(concat("<p>", metadata.attribution.as_str()).as_str(), "</p>");
    let mut license = concat("<p>License: <a href=\"", metadata.license_url.as_str());
    license.append("\">");
    license.append(metadata.license_name.as_str());
    license.append("</a></p>");

    texts.push(h1);
    texts.push(url);
    texts.push(attribution);
    texts.push(license);

    let r = Body { texts };
    assert(body_texts(r) =~= attribution_texts(metadata@));
    r
}

/// The head of an attribution page: its title and the site's icon.
fn make_head(title: &str) -> (r: Head)
    ensures
        r.title@ == title@,
        is_favicon_link(r.link),
{
    let link = Link {
        rel: String::from_str("icon"),
        type_: String::from_str("image/x-icon"),
        href: String::from_str("/favicon.ico"),
        sizes: String::from_str("any"),
    };
    Head { title: String::from_str(title), link }
}

/// The attribution page of a vendor, under `title`.
pub fn make_html(metadata: &WebiconVendorMetadata, title: &str) -> (r: Html)
    ensures
        is_attribution_page(r, metadata@, title@),
{
    Html { head: make_head(title), body: make_body(metadata) }
}

impl Link {
    /// The text of this element.
    pub fn to_string(&self) -> (r: String)
        ensures
            r@ == link_html(*self),
    {
        let mut r = String::from_str("<link rel=\"");
        r.append(self.rel.as_str());
        r.append("\" type=\"");
        r.append(self.type_.as_str());
        r.append("\" href=\"");
        r.append(self.href.as_str());
        r.append("\" sizes=\"");
        r.append(self.sizes.as_str());
        r.append("\">");
        r
    }
}

impl Head {
    /// The text of this head.
    pub fn to_string(&self) -> (r: String)
        ensures
            r@ == head_html(*self),
    {
        let mut r = String::from_str("<head><title>");
        r.append(self.title.as_str());
        r.append("</title>");
        r.append(self.link.to_string().as_str());
        r.append("</head>");
        r
    }
}

impl Body {
    /// The text of this body.
    pub fn to_string(&self) -> (r: String)
        ensures
            r@ == body_html(*self),
    {
        let mut r = String::from_str("<body>");
        let mut i: usize = 0;
        while i < self.texts.len()
            invariant
                i <= self.texts@.len(),
                r@ == "<body>"@ + joined(body_texts(*self).take(i as int)),
            decreases self.texts@.len() - i,
        {
            r.append(self.texts[i].as_str());
            proof {
                let s = body_texts(*self);
                assert(s.take(i + 1).drop_last() =~= s.take(i as int));
            }
            i = i + 1;
        }
        assert(body_texts(*self).take(i as int) =~= body_texts(*self));
        r.append("</body>");
        r
    }
}

impl Html {
    /// The text of this document.
    pub fn to_string(&self) -> (r: String)
        ensures
            r@ == document_html(*self),
    {
        let mut r = String::from_str("<!DOCTYPE html><html>");
        r.append(self.head.to_string().as_str());
        r.append(self.body.to_string().as_str());
        r.append("</html>");
        r
    }
}

} // verus!
