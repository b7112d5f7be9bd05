//! Runtime custom-font registration.
//!
//! Font bytes are stored with the resource provider under a synthetic
//! `solite-font://` URL, and an `@font-face` rule points at it, so that the
//! document's own stylesheet pipeline fetches the font.
use crate::net::SoliteNetProvider;
use crate::text::{decimal_text, replace_char, same, to_ascii_lowercase_text};
use std::path::Path;
use vstd::prelude::*;
use vstd::string::StringExecFns;

verus! {

#[verifier::external_type_specification]
#[verifier::external_body]
pub struct ExPath(Path);

/// The extension of a path, where it has one that is valid Unicode.
pub uninterp spec fn extension_of(path: &Path) -> Option<Seq<char>>;

/// Calls `Path::extension` and `OsStr::to_str`. The result depends on the
/// path alone and is named `extension_of`.
#[verifier::external_body]
pub(crate) fn path_extension(path: &Path) -> (extension: Option<String>)
    ensures
        match extension {
            Some(extension) => extension_of(path) == Some(extension@),
            None => extension_of(path) is None,
        },
{
    path.extension().and_then(|extension| extension.to_str()).map(|text| text.to_owned())
}

/// Subset of CSS `format()` values.
#[derive(Debug, Clone, Copy, PartialEq, Eq, Structural)]
pub enum FontFormat {
    Truetype,
    Opentype,
    Woff,
    Woff2,
}

/// The font format that a file extension stands for, in any case.
pub open spec fn format_for(extension: Seq<char>) -> Option<FontFormat> {
    let lower = crate::text::ascii_lower_text(extension);
    if lower == "ttf"@ {
        Some(FontFormat::Truetype)
    } else if lower == "otf"@ {
        Some(FontFormat::Opentype)
    } else if lower == "woff"@ {
        Some(FontFormat::Woff)
    } else if lower == "woff2"@ {
        Some(FontFormat::Woff2)
    } else {
        None
    }
}

/// The format that the extension of a path names.
pub open spec fn path_format(path: &Path) -> Option<FontFormat> {
    match extension_of(path) {
        Some(extension) => format_for(extension),
        None => None,
    }
}

impl FontFormat {
    /// The file extension of the format.
    pub open spec fn extension_text(self) -> Seq<char> {
        match self {
            FontFormat::Truetype => "ttf"@,
            FontFormat::Opentype => "otf"@,
            FontFormat::Woff => "woff"@,
            FontFormat::Woff2 => "woff2"@,
        }
    }

    /// The CSS `format()` value of the format.
    pub open spec fn css_text(self) -> Seq<char> {
        match self {
            FontFormat::Truetype => "truetype"@,
            FontFormat::Opentype => "opentype"@,
            FontFormat::Woff => "woff"@,
            FontFormat::Woff2 => "woff2"@,
        }
    }

    /// The file extension of the format.
    pub fn extension(self) -> (extension: &'static str)
        ensures
            extension@ == self.extension_text(),
    {
        match self {
            FontFormat::Truetype => "ttf",
            FontFormat::Opentype => "otf",
            FontFormat::Woff => "woff",
            FontFormat::Woff2 => "woff2",
        }
    }

    /// The CSS `format()` value of the format.
    pub fn css_format(self) -> (format: &'static str)
        ensures
            format@ == self.css_text(),
    {
        match self {
            FontFormat::Truetype => "truetype",
            FontFormat::Opentype => "opentype",
            FontFormat::Woff => "woff",
            FontFormat::Woff2 => "woff2",
        }
    }

    /// The format that a file extension stands for, in any case.
    pub fn from_extension(extension: &str) -> (format: Option<FontFormat>)
        ensures
            format == format_for(extension@),
    {
        let lower = to_ascii_lowercase_text(extension);
        let lower = lower.as_str();
        if same(lower, "ttf") {
            Some(FontFormat::Truetype)
        } else if same(lower, "otf") {
            Some(FontFormat::Opentype)
        } else if same(lower, "woff") {
            Some(FontFormat::Woff)
        } else if same(lower, "woff2") {
            Some(FontFormat::Woff2)
        } else {
            None
        }
    }

    /// The format that the extension of a path stands for.
    pub fn from_path(path: &Path) -> (format: Option<FontFormat>)
        ensures
            format == path_format(path),
    {
        match path_extension(path) {
            Some(extension) => FontFormat::from_extension(extension.as_str()),
            None => None,
        }
    }
}

/// Result of installing a custom font: the `@font-face` rule to hand to the
/// stylesheet pipeline.
#[derive(Debug)]
pub struct RegisteredFont {
    pub css: String,
}

/// The URL under which the bytes of the font `id` are registered.
pub open spec fn font_url(id: nat, format: FontFormat) -> Seq<char> {
    "solite-font://font-"@ + crate::text::decimal(id) + "."@ + format.extension_text()
}

/// The `@font-face` rule of a font. Single quotes in the family name are
/// escaped.
pub open spec fn font_face(family: Seq<char>, url: Seq<char>, format: FontFormat) -> Seq<char> {
    "@font-face { font-family: '"@ + crate::text::replaced_chars(family, '\'', "\\'"@)
        + "'; src: url(\""@ + url + "\") format(\""@ + format.css_text() + "\"); }"@
}

/// Registers `bytes` under the URL of the font `id` and produces a
/// `@font-face` rule that points at it. `family` is the CSS-visible family
/// name.
pub fn register(
    provider: &mut SoliteNetProvider,
    id: usize,
    family: &str,
    bytes: Vec<u8>,
    format: FontFormat,
) -> (font: RegisteredFont)
    ensures
        font.css@ == font_face(family@, font_url(id as nat, format), format),
        final(provider)@ == (crate::net::NetModel {
            registered: old(provider)@.registered.insert(font_url(id as nat, format), bytes),
            ..old(provider)@
        }),
{
    let mut url = "solite-font://font-".to_owned();
    url.append(decimal_text(id).as_str());
    url.append(".");
    url.append(format.extension());
    let escaped = replace_char(family, '\'', "\\'");
    let mut css = "@font-face { font-family: '".to_owned();
    css.append(escaped.as_str());
    css.append("'; src: url(\"");
    css.append(url.as_str());
    css.append("\") format(\"");
    css.append(format.css_format());
    css.append("\"); }");
    provider.register(url, bytes);
    RegisteredFont { css }
}

/// Fonts of different numbers are registered under different URLs.
pub proof fn font_urls_are_distinct(a: nat, b: nat, format: FontFormat)
    requires
        a != b,
    ensures
        font_url(a, format) != font_url(b, format),
{
    let head = "solite-font://font-"@;
    let tail = "."@ + format.extension_text();
    if font_url(a, format) == font_url(b, format) {
        let left = font_url(a, format);
        let right = font_url(b, format);
        assert(left =~= head + crate::text::decimal(a) + tail);
        assert(right =~= head + crate::text::decimal(b) + tail);
        assert(crate::text::decimal(a) =~= left.subrange(
            head.len() as int,
            left.len() - tail.len(),
        ));
        assert(crate::text::decimal(b) =~= right.subrange(
            head.len() as int,
            right.len() - tail.len(),
        ));
        crate::text::decimal_is_unique(a, b);
    }
}

/// The extension of a format stands for that format.
pub proof fn extension_names_format(format: FontFormat)
    ensures
        format_for(format.extension_text()) == Some(format),
{
    reveal_strlit("ttf");
    reveal_strlit("otf");
    reveal_strlit("woff");
    reveal_strlit("woff2");
    let text = format.extension_text();
    assert(crate::text::ascii_lower_text(text) =~= text);
    assert("ttf"@[0] == 't' && "otf"@[0] == 'o' && "woff"@[0] == 'w' && "woff2"@.len() == 5);
}

/// The extensions of fonts are known in any mix of capital and small letters, and no
/// other extension is.
pub proof fn extensions_in_any_case(extension: Seq<char>)
    ensures
        ({
            let lower = crate::text::ascii_lower_text(extension);
            &&& lower == "ttf"@ ==> format_for(extension) == Some(FontFormat::Truetype)
            &&& lower == "otf"@ ==> format_for(extension) == Some(FontFormat::Opentype)
            &&& lower == "woff"@ ==> format_for(extension) == Some(FontFormat::Woff)
            &&& lower == "woff2"@ ==> format_for(extension) == Some(FontFormat::Woff2)
            &&& lower != "ttf"@ && lower != "otf"@ && lower != "woff"@ && lower != "woff2"@
                ==> format_for(extension) is None
        }),
{
    reveal_strlit("ttf");
    reveal_strlit("otf");
    reveal_strlit("woff");
    reveal_strlit("woff2");
    assert("ttf"@[0] == 't' && "otf"@[0] == 'o' && "woff"@[0] == 'w');
    assert("ttf"@.len() == 3 && "woff"@.len() == 4 && "woff2"@.len() == 5);
}

/// Each format has its own extension and its own name in CSS.
pub proof fn formats_have_names(format: FontFormat)
    ensures
        format is Truetype ==> format.extension_text() == "ttf"@ && format.css_text()
            == "truetype"@,
        format is Opentype ==> format.extension_text() == "otf"@ && format.css_text()
            == "opentype"@,
        format is Woff ==> format.extension_text() == "woff"@ && format.css_text() == "woff"@,
        format is Woff2 ==> format.extension_text() == "woff2"@ && format.css_text() == "woff2"@,
{
}

/// The URL of a font starts with the scheme for fonts, then gives its number in decimal
/// digits and ends in a point and the extension of its format.
pub proof fn font_urls_name_number_and_format(id: nat, format: FontFormat)
    ensures
        ({
            let url = font_url(id, format);
            let head = "solite-font://font-"@;
            let digits = crate::text::decimal(id);
            let tail = format.extension_text();
            &&& url.len() == head.len() + digits.len() + 1 + tail.len()
            &&& url.take(head.len() as int) == head
            &&& url.subrange(head.len() as int, (head.len() + digits.len()) as int) == digits
            &&& url[(head.len() + digits.len()) as int] == '.'
            &&& url.skip((head.len() + digits.len() + 1) as int) == tail
        }),
{
    reveal_strlit(".");
    let url = font_url(id, format);
    let head = "solite-font://font-"@;
    let digits = crate::text::decimal(id);
    assert("."@ =~= seq!['.']);
    assert(url.take(head.len() as int) =~= head);
    assert(url.subrange(head.len() as int, (head.len() + digits.len()) as int) =~= digits);
    assert(url.skip((head.len() + digits.len() + 1) as int) =~= format.extension_text());
}

/// The rule of a font has the family name in quotes and points at the URL and the
/// format. A quote in the name gets a backslash before it; everything else of the name
/// stays.
pub proof fn font_rules_name_family_and_source(
    family: Seq<char>,
    more: Seq<char>,
    url: Seq<char>,
    format: FontFormat,
)
    requires
        !family.contains('\''),
        !more.contains('\''),
    ensures
        font_face(family, url, format) == "@font-face { font-family: '"@ + family
            + "'; src: url(\""@ + url + "\") format(\""@ + format.css_text() + "\"); }"@,
        font_face(family + seq!['\''] + more, url, format) == "@font-face { font-family: '"@ + (family
            + seq!['\\', '\''] + more) + "'; src: url(\""@ + url + "\") format(\""@
            + format.css_text() + "\"); }"@,
{
    let quote = seq!['\''];
    let escaped = "\\'"@;
    reveal_strlit("\\'");
    assert(escaped =~= seq!['\\', '\'']);
    crate::text::replacing_keeps_the_rest(family, quote, '\'', escaped);
    crate::text::replacing_keeps_the_rest(family + quote, more, '\'', escaped);
    crate::text::replacing_keeps_the_rest(more, quote, '\'', escaped);
}

} // verus!
