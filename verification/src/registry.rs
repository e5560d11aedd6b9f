//! The registry: the address of a package's registry document, the latest
//! version that the document lists, and the URLs of a version.

use vstd::prelude::*;
use vstd::utf8::encode_utf8;
use vstd::utf8::is_ascii_chars;
use vstd::utf8::is_ascii_chars_encode_utf8;
use crate::error::ExtensionError;
use crate::extension::JsExtension;
use crate::json::JsonTree;
use crate::json::json_as_object;
use crate::json::json_as_str;
use crate::json::json_entries;
use crate::json::json_from_str;
use crate::json::json_index;
use crate::json::json_tree;
use crate::json::parsed_json;

verus! {

#[verifier::external_type_specification]
#[verifier::external_body]
pub struct ExRenderError(handlebars::RenderError);

#[verifier::external_type_specification]
#[verifier::external_body]
pub struct ExParseError(url::ParseError);

/// The text that a template renders to with the given fields, each a name
/// and a value; nothing where it cannot be rendered.
pub uninterp spec fn rendered_template(
    template: Seq<char>,
    fields: Seq<(Seq<char>, Seq<char>)>,
) -> Option<Seq<char>>;

/// The URL that a text reads as, written out in its normal form; nothing
/// where the text is no absolute URL.
pub uninterp spec fn parsed_url(text: Seq<char>) -> Option<Seq<char>>;

/// The byte may stand in the name of a field: an ASCII letter, a digit or
/// an underscore.
pub open spec fn is_name_byte(byte: u8) -> bool {
    (0x30 <= byte <= 0x39) || (0x41 <= byte <= 0x5a) || (0x61 <= byte <= 0x7a) || byte == 0x5f
}

/// Two opening braces stand at position `at`.
pub open spec fn opens_field(bytes: Seq<u8>, at: int) -> bool {
    0 <= at && at + 1 < bytes.len() && bytes[at] == 0x7b && bytes[at + 1] == 0x7b
}

/// The first position from `at` on that holds no name byte.
pub open spec fn name_end(bytes: Seq<u8>, at: int) -> int
    decreases bytes.len() - at,
{
    if 0 <= at < bytes.len() && is_name_byte(bytes[at]) {
        name_end(bytes, at + 1)
    } else {
        at
    }
}

/// A plain field stands at position `at`: two opening braces, a name of at
/// least one byte, and two closing braces.
pub open spec fn is_field(bytes: Seq<u8>, at: int) -> bool {
    let end = name_end(bytes, at + 2);
    &&& opens_field(bytes, at)
    &&& at + 2 < end
    &&& end + 1 < bytes.len()
    &&& bytes[end] == 0x7d
    &&& bytes[end + 1] == 0x7d
}

/// From position `at` on, whatever two opening braces open is a plain
/// field. All other bytes stand for themselves.
pub open spec fn is_plain_from(bytes: Seq<u8>, at: int) -> bool
    decreases bytes.len() - at,
{
    if at < 0 || at >= bytes.len() {
        true
    } else if opens_field(bytes, at) {
        if is_field(bytes, at) {
            is_plain_from(bytes, name_end(bytes, at + 2) + 2)
        } else {
            false
        }
    } else {
        is_plain_from(bytes, at + 1)
    }
}

/// The template is plain: it is made of text and of fields written as two
/// opening braces, a name and two closing braces, and of nothing else that
/// two opening braces could begin (no block, partial, decorator, comment or
/// sub-expression). The text is looked at as UTF-8.
pub open spec fn is_plain_template(template: Seq<char>) -> bool {
    is_plain_from(encode_utf8(template), 0)
}

/// What a template is filled to with the given fields: what it renders to
/// where it is plain, and nothing where it is not.
pub open spec fn filled_template(
    template: Seq<char>,
    fields: Seq<(Seq<char>, Seq<char>)>,
) -> Option<Seq<char>> {
    if is_plain_template(template) {
        rendered_template(template, fields)
    } else {
        None
    }
}

/// The template of the address of a registry document is plain.
pub proof fn lemma_registry_entry_template_is_plain()
    ensures
        is_plain_template(registry_entry_template()),
{
    reveal_strlit("https://registry.npmjs.com/{{package_name}}");
    let template = registry_entry_template();
    assert(is_ascii_chars(template));
    is_ascii_chars_encode_utf8(template);
    let bytes = encode_utf8(template);
    assert(bytes.len() == 43);
    assert(is_plain_from(bytes, 27) == is_plain_from(bytes, 0)) by {
        reveal_with_fuel(is_plain_from, 28);
    }
    assert(name_end(bytes, 29) == 41) by {
        reveal_with_fuel(name_end, 13);
    }
    assert(is_field(bytes, 27));
    assert(is_plain_from(bytes, 43));
}

/// The template of the page of a version of a package is plain.
pub proof fn lemma_registry_human_url_template_is_plain()
    ensures
        is_plain_template(registry_human_url_template()),
{
    reveal_strlit("https://www.npmjs.com/package/{{package_name}}/v/{{package_version}}");
    let template = registry_human_url_template();
    assert(is_ascii_chars(template));
    is_ascii_chars_encode_utf8(template);
    let bytes = encode_utf8(template);
    assert(bytes.len() == 68);
    assert(is_plain_from(bytes, 30) == is_plain_from(bytes, 0)) by {
        reveal_with_fuel(is_plain_from, 31);
    }
    assert(name_end(bytes, 32) == 44) by {
        reveal_with_fuel(name_end, 13);
    }
    assert(is_field(bytes, 30));
    assert(is_plain_from(bytes, 49) == is_plain_from(bytes, 46)) by {
        reveal_with_fuel(is_plain_from, 4);
    }
    assert(name_end(bytes, 51) == 66) by {
        reveal_with_fuel(name_end, 16);
    }
    assert(is_field(bytes, 49));
    assert(is_plain_from(bytes, 68));
}

/// Whether a byte may stand in the name of a field.
fn is_name_character(byte: u8) -> (r: bool)
    ensures
        r == is_name_byte(byte),
{
    (0x30 <= byte && byte <= 0x39) || (0x41 <= byte && byte <= 0x5a) || (0x61 <= byte && byte
        <= 0x7a) || byte == 0x5f
}

/// Tells whether a template is plain.
pub fn is_plain_text(template: &str) -> (r: bool)
    ensures
        r == is_plain_template(template@),
{
    let bytes = template.as_bytes();
    let mut at: usize = 0;
    while at < bytes.len()
        invariant
            at <= bytes.len(),
            bytes@ == encode_utf8(template@),
            is_plain_from(bytes@, 0) == is_plain_from(bytes@, at as int),
        decreases bytes.len() - at,
    {
        if bytes[at] == 0x7b && at + 1 < bytes.len() && bytes[at + 1] == 0x7b {
            let mut end: usize = at + 2;
            while end < bytes.len() && is_name_character(bytes[end])
                invariant
                    at + 2 <= end <= bytes.len(),
                    name_end(bytes@, at + 2) == name_end(bytes@, end as int),
                decreases bytes.len() - end,
            {
                end = end + 1;
            }
            if end == at + 2 || bytes.len() - end < 2 || bytes[end] != 0x7d || bytes[end + 1]
                != 0x7d {
                return false;
            }
            at = end + 2;
        } else {
            at = at + 1;
        }
    }
    true
}

/// The names and values that a list of fields holds.
pub open spec fn field_texts(fields: Seq<(&str, &str)>) -> Seq<(Seq<char>, Seq<char>)> {
    fields.map_values(|field: (&str, &str)| (field.0@, field.1@))
}

/// `handlebars::Handlebars::render_template` on a fresh registry, with the
/// fields as a map from name to value: whether the template renders, and
/// the text it renders to, depend on the template and the fields alone.
/// Only a plain template is handed over: one with blocks, partials or
/// sub-expressions can nest or include itself without end, and the call
/// then does not come back.
#[verifier::external_body]
pub(crate) fn render_template(template: &str, fields: &Vec<(&str, &str)>) -> (r: Result<
    String,
    handlebars::RenderError,
>)
    requires
        is_plain_template(template@),
    ensures
        rendered_template(template@, field_texts(fields@)) == (match r {
            Ok(text) => Some(text@),
            Err(_) => None,
        }),
{
    let data: std::collections::BTreeMap<&str, &str> = fields.iter().cloned().collect();
    handlebars::Handlebars::new().render_template(template, &data)
}

/// `url::Url::parse`, and the URL written out as a string: whether the text
/// is a URL, and how the URL is written, depend on the text alone.
#[verifier::external_body]
pub(crate) fn parse_url(text: &str) -> (r: Result<String, url::ParseError>)
    ensures
        parsed_url(text@) == (match r {
            Ok(url) => Some(url@),
            Err(_) => None,
        }),
{
    match url::Url::parse(text) {
        Ok(url) => Ok(String::from(url)),
        Err(e) => Err(e),
    }
}

/// The template of the address of a package's registry document.
pub open spec fn registry_entry_template() -> Seq<char> {
    "https://registry.npmjs.com/{{package_name}}"@
}

/// The template of the page of a version of a package at npm.
pub open spec fn registry_human_url_template() -> Seq<char> {
    "https://www.npmjs.com/package/{{package_name}}/v/{{package_version}}"@
}

/// The fields that stand for a package.
pub open spec fn package_fields(package_name: Seq<char>) -> Seq<(Seq<char>, Seq<char>)> {
    seq![("package_name"@, package_name)]
}

/// The fields that stand for a version of a package.
pub open spec fn version_fields(package_name: Seq<char>, package_version: Seq<char>) -> Seq<
    (Seq<char>, Seq<char>),
> {
    seq![("package_name"@, package_name), ("package_version"@, package_version)]
}

/// Fills a plain template with the given fields. A template that is not
/// plain is refused, and so is one that does not render.
pub fn fill_template(template: &str, fields: &Vec<(&str, &str)>) -> (r: Result<
    String,
    ExtensionError,
>)
    ensures
        match filled_template(template@, field_texts(fields@)) {
            Some(text) => r matches Ok(rendered) && rendered@ == text,
            None => r matches Err(ExtensionError::Template { .. }),
        },
{
    if !is_plain_text(template) {
        return Err(
            ExtensionError::Template {
                reason: "the template holds more than text and plain fields".to_owned(),
            },
        );
    }
    match render_template(template, fields) {
        Ok(rendered) => Ok(rendered),
        Err(e) => Err(ExtensionError::Template { reason: e.to_string() }),
    }
}

/// Reads a text as a URL and writes the URL out in its normal form. A text
/// that is no URL is refused, and handed back.
pub fn url_from_text(text: &str) -> (r: Result<String, ExtensionError>)
    ensures
        match parsed_url(text@) {
            Some(url) => r matches Ok(written) && written@ == url,
            None => r matches Err(ExtensionError::InvalidUrl { text: refused, .. }) && refused@
                == text@,
        },
{
    match parse_url(text) {
        Ok(url) => Ok(url),
        Err(e) => Err(ExtensionError::InvalidUrl { text: text.to_owned(), reason: e.to_string() }),
    }
}

/// The page of a version of a package, for people to read: the extension's
/// template for it, rendered with the package's name and version, and read
/// as a URL.
pub open spec fn human_url(
    template: Seq<char>,
    package_name: Seq<char>,
    package_version: Seq<char>,
) -> Option<Seq<char>> {
    match filled_template(template, version_fields(package_name, package_version)) {
        Some(text) => parsed_url(text),
        None => None,
    }
}

/// Makes the URL of the page of a version of a package. Fails where the
/// template does not render, and where what it renders to is no URL.
pub fn get_registry_human_url(
    extension: &JsExtension,
    package_name: &str,
    package_version: &str,
) -> (r: Result<String, ExtensionError>)
    ensures
        match filled_template(
            extension.human_url_template(),
            version_fields(package_name@, package_version@),
        ) {
            Some(text) => match parsed_url(text) {
                Some(url) => r matches Ok(written) && written@ == url,
                None => r matches Err(ExtensionError::InvalidUrl { text: refused, .. })
                    && refused@ == text,
            },
            None => r matches Err(ExtensionError::Template { .. }),
        },
{
    let mut fields: Vec<(&str, &str)> = Vec::new();
    fields.push(("package_name", package_name));
    fields.push(("package_version", package_version));
    assert(field_texts(fields@) =~= version_fields(package_name@, package_version@));
    match fill_template(extension.registry_human_url_template_.as_str(), &fields) {
        Ok(text) => url_from_text(text.as_str()),
        Err(e) => Err(e),
    }
}

/// Makes the address from which a package's registry document is fetched.
pub fn get_registry_entry_url(package_name: &str) -> (r: Result<String, ExtensionError>)
    ensures
        match rendered_template(registry_entry_template(), package_fields(package_name@)) {
            Some(text) => r matches Ok(rendered) && rendered@ == text,
            None => r matches Err(ExtensionError::Template { .. }),
        },
{
    proof {
        lemma_registry_entry_template_is_plain();
    }
    let mut fields: Vec<(&str, &str)> = Vec::new();
    fields.push(("package_name", package_name));
    assert(field_texts(fields@) =~= package_fields(package_name@));
    fill_template("https://registry.npmjs.com/{{package_name}}", &fields)
}

/// Reads what the registry answered as a JSON document. An answer that is
/// none is refused, and handed back with what the reader said of it.
pub fn get_registry_entry_json(body: &str) -> (r: Result<serde_json::Value, ExtensionError>)
    ensures
        match parsed_json(body@) {
            Some(document) => r matches Ok(value) && json_tree(value) == document,
            None => r matches Err(ExtensionError::MalformedJson { text, .. }) && text@ == body@,
        },
{
    match json_from_str(body) {
        Ok(value) => Ok(value),
        Err(e) => Err(
            ExtensionError::MalformedJson { text: body.to_owned(), reason: e.to_string() },
        ),
    }
}

/// The versions that a registry document lists: the members of its
/// `versions` object, where it has one.
pub open spec fn listed_versions(document: JsonTree) -> Option<Seq<(Seq<char>, JsonTree)>> {
    match document.member("versions"@) {
        JsonTree::Object(versions) => Some(versions),
        _ => None,
    }
}

/// The latest of the versions listed: the one that stands last.
pub open spec fn latest_of(versions: Seq<(Seq<char>, JsonTree)>) -> Option<Seq<char>> {
    if versions.len() == 0 {
        None
    } else {
        Some(versions.last().0)
    }
}

/// The text that a string stands for, where there is one.
pub open spec fn optional_text(text: Option<String>) -> Option<Seq<char>> {
    match text {
        Some(t) => Some(t@),
        None => None,
    }
}

/// Finds the latest version of a package in its registry document: the
/// last of the versions that the document lists, in the order in which it
/// lists them, and none where it lists no version. A document without a
/// `versions` object is refused.
pub fn get_latest_version(registry_entry_json: &serde_json::Value) -> (r: Result<
    Option<String>,
    ExtensionError,
>)
    ensures
        match listed_versions(json_tree(*registry_entry_json)) {
            Some(versions) => r matches Ok(latest) && optional_text(latest) == latest_of(versions),
            None => r == Err::<Option<String>, ExtensionError>(ExtensionError::MissingVersions),
        },
{
    match json_as_object(json_index(registry_entry_json, "versions")) {
        Some(versions) => {
            let entries = json_entries(versions);
            if entries.len() == 0 {
                Ok(None)
            } else {
                let last: &String = entries[entries.len() - 1].0;
                Ok(Some(last.clone()))
            }
        },
        None => Err(ExtensionError::MissingVersions),
    }
}

/// The text in a registry document that names the archive of a version:
/// `versions`, the version, `dist`, `tarball`.
pub open spec fn archive_text(document: JsonTree, package_version: Seq<char>) -> Option<Seq<char>> {
    document.member("versions"@).member(package_version).member("dist"@).member(
        "tarball"@,
    ).text()
}

/// Finds the URL of the archive of a version of a package in its registry
/// document. Fails where the document names no archive for the version,
/// and where what it names is no URL.
pub fn get_archive_url(registry_entry_json: &serde_json::Value, package_version: &str) -> (r: Result<
    String,
    ExtensionError,
>)
    ensures
        match archive_text(json_tree(*registry_entry_json), package_version@) {
            Some(text) => match parsed_url(text) {
                Some(url) => r matches Ok(written) && written@ == url,
                None => r matches Err(ExtensionError::InvalidUrl { text: refused, .. })
                    && refused@ == text,
            },
            None => r == Err::<String, ExtensionError>(ExtensionError::MissingArchiveUrl),
        },
{
    let versions = json_index(registry_entry_json, "versions");
    let version = json_index(versions, package_version);
    let tarball = json_index(json_index(version, "dist"), "tarball");
    match json_as_str(tarball) {
        Some(text) => url_from_text(text),
        None => Err(ExtensionError::MissingArchiveUrl),
    }
}

} // verus!
