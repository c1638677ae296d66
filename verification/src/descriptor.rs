//! Desktop descriptors as the `ini` crate reads them: a document of named
//! sections, each a list of keys with values.

use ini::{Ini, ParseError, Properties};
use vstd::prelude::*;

verus! {

/// `ini::Ini`, a loaded document, as an opaque value.
#[verifier::external_type_specification]
#[verifier::external_body]
pub struct ExIni(Ini);

/// `ini::Properties`, one section of a document, as an opaque value.
#[verifier::external_type_specification]
#[verifier::external_body]
pub struct ExProperties(Properties);

/// `ini::ParseError`, why a text was rejected, as an opaque value.
#[verifier::external_type_specification]
#[verifier::external_body]
pub struct ExParseError(ParseError);

/// The keys of one section with the value that a lookup by key gives.
pub type Section = Map<Seq<char>, Seq<char>>;

/// The named sections of a document: for each section name, the section that
/// a lookup by name gives.
pub type Sections = Map<Seq<char>, Section>;

/// What `ini::Ini::load_from_str` makes of a text: `None` where it rejects the
/// text, else the named sections of the document it builds.
pub uninterp spec fn ini_parse(text: Seq<char>) -> Option<Sections>;

/// The named sections that a document holds: each name for which
/// `ini::Ini::section` finds a section, with what it finds.
pub uninterp spec fn ini_sections(doc: Ini) -> Sections;

/// The keys that a section holds: each key for which `ini::Properties::get`
/// finds a value, with the value it finds.
pub uninterp spec fn ini_properties(props: Properties) -> Section;

/// Calls `ini::Ini::load_from_str`. Trusted: the call succeeds exactly on the
/// texts that `ini_parse` accepts, and the document then holds the sections
/// that `ini_parse` names.
#[verifier::external_body]
pub(crate) fn load_document(text: &str) -> (r: Result<Ini, ParseError>)
    ensures
        match r {
            Ok(doc) => ini_parse(text@) == Some(ini_sections(doc)),
            Err(_) => ini_parse(text@) is None,
        },
{
    Ini::load_from_str(text)
}

/// Calls `ini::Ini::section` with a section name. Trusted: a section is found
/// exactly for the names in `ini_sections`, and it holds the keys recorded
/// there.
#[verifier::external_body]
pub(crate) fn named_section<'a>(doc: &'a Ini, name: &str) -> (r: Option<&'a Properties>)
    ensures
        match r {
            Some(props) => ini_sections(*doc).dom().contains(name@) && ini_properties(*props)
                == ini_sections(*doc)[name@],
            None => !ini_sections(*doc).dom().contains(name@),
        },
{
    doc.section(Some(name))
}

/// Calls `ini::Properties::get` with a key. Trusted: a value is found exactly
/// for the keys in `ini_properties`, and it is the value recorded there.
#[verifier::external_body]
pub(crate) fn property<'a>(props: &'a Properties, key: &str) -> (r: Option<&'a str>)
    ensures
        match r {
            Some(value) => ini_properties(*props).dom().contains(key@) && value@
                == ini_properties(*props)[key@],
            None => !ini_properties(*props).dom().contains(key@),
        },
{
    props.get(key)
}

} // verus!
