//! Importing OpenAPI 3.x documents: options and the rules that turn
//! operations into nested commands.

pub mod names;
pub mod refs;
pub mod messages;
pub mod responses;
pub mod auth;
pub mod servers;
pub mod params;
pub mod operations;
pub mod nesting;
pub mod tree;
pub mod presets;
pub mod import;
pub mod checks;
pub mod enums;
pub mod laws;

pub use import::{build_openapi_definition, import_openapi, openapi_params_end, openapi_version};

use vstd::prelude::*;
use crate::error::{ErrorModel, YcallrError};
use crate::json::{Json, JsonValue};
use crate::models::command::quoted;
use crate::outside::{json_from_text, json_read, yaml_from_text, yaml_read};
use crate::text::{
    ascii_lower, ascii_lower_str, is_whitespace, lemma_trim_start_skip, starts_with, str_eq,
    to_chars, trim, trim_start, trim_str,
};

verus! {

/// How imported operations are grouped into nested commands.
#[derive(Debug, Clone, Copy, PartialEq, Eq, Structural)]
pub enum OpenApiNestBy {
    /// Nest by static URL path segments (`repos.issues.list`).
    Path,
    /// Nest by the first OpenAPI tag on each operation (`issues.list`).
    Tag,
}

/// Vendor-specific import defaults (headers, auth fallbacks).
#[derive(Debug, Clone, Copy, PartialEq, Eq, Structural)]
pub enum OpenApiPreset {
    /// Detect GitHub/GHES from the document (default).
    Auto,
    /// Force GitHub REST headers and auth scaffold.
    GitHub,
    /// Do not apply vendor presets.
    Off,
}

/// The nest-by mode a setting names (trimmed, in any ASCII case).
pub open spec fn nest_by_named(value: Seq<char>) -> Result<OpenApiNestBy, ErrorModel> {
    let v = ascii_lower(trim(value));
    if v == "path"@ || v == "paths"@ || v == "url"@ {
        Ok(OpenApiNestBy::Path)
    } else if v == "tag"@ || v == "tags"@ {
        Ok(OpenApiNestBy::Tag)
    } else {
        Err(ErrorModel::OpenApiParse("Invalid nest-by value '"@ + v + "' (expected 'path' or 'tag')"@))
    }
}

/// The preset a setting names (trimmed, in any ASCII case).
pub open spec fn preset_named(value: Seq<char>) -> Result<OpenApiPreset, ErrorModel> {
    let v = ascii_lower(trim(value));
    if v == "auto"@ {
        Ok(OpenApiPreset::Auto)
    } else if v == "github"@ || v == "gh"@ || v == "ghes"@ {
        Ok(OpenApiPreset::GitHub)
    } else if v == "none"@ || v == "off"@ {
        Ok(OpenApiPreset::Off)
    } else {
        Err(ErrorModel::OpenApiParse("Invalid preset value '"@ + v + "' (expected 'auto', 'github', or 'none')"@))
    }
}

impl OpenApiNestBy {
    pub fn parse(value: &str) -> (r: Result<Self, YcallrError>)
        ensures
            match r {
                Ok(x) => nest_by_named(value@) == Ok::<OpenApiNestBy, ErrorModel>(x),
                Err(e) => nest_by_named(value@) == Err::<OpenApiNestBy, ErrorModel>(e@),
            },
    {
        let t = trim_str(value);
        let v = ascii_lower_str(t.as_str());
        if str_eq(v.as_str(), "path") || str_eq(v.as_str(), "paths") || str_eq(v.as_str(), "url") {
            Ok(OpenApiNestBy::Path)
        } else if str_eq(v.as_str(), "tag") || str_eq(v.as_str(), "tags") {
            Ok(OpenApiNestBy::Tag)
        } else {
            Err(YcallrError::OpenApiParse(quoted("Invalid nest-by value '", v.as_str(), "' (expected 'path' or 'tag')")))
        }
    }
}

impl Default for OpenApiNestBy {
    fn default() -> (r: Self)
        ensures
            r == OpenApiNestBy::Path,
    {
        OpenApiNestBy::Path
    }
}

impl OpenApiPreset {
    pub fn parse(value: &str) -> (r: Result<Self, YcallrError>)
        ensures
            match r {
                Ok(x) => preset_named(value@) == Ok::<OpenApiPreset, ErrorModel>(x),
                Err(e) => preset_named(value@) == Err::<OpenApiPreset, ErrorModel>(e@),
            },
    {
        let t = trim_str(value);
        let v = ascii_lower_str(t.as_str());
        if str_eq(v.as_str(), "auto") {
            Ok(OpenApiPreset::Auto)
        } else if str_eq(v.as_str(), "github") || str_eq(v.as_str(), "gh") || str_eq(v.as_str(), "ghes") {
            Ok(OpenApiPreset::GitHub)
        } else if str_eq(v.as_str(), "none") || str_eq(v.as_str(), "off") {
            Ok(OpenApiPreset::Off)
        } else {
            Err(
                YcallrError::OpenApiParse(
                    quoted("Invalid preset value '", v.as_str(), "' (expected 'auto', 'github', or 'none')"),
                ),
            )
        }
    }
}

impl Default for OpenApiPreset {
    fn default() -> (r: Self)
        ensures
            r == OpenApiPreset::Auto,
    {
        OpenApiPreset::Auto
    }
}

/// Options when converting OpenAPI to a profile scaffold.
#[derive(Debug, Clone)]
pub struct OpenApiImportOptions {
    /// Profile `name:` override (must be alphanumeric + dash). Defaults from `info.title`.
    pub name: Option<String>,
    /// Import only operations that include this OpenAPI tag.
    pub tag: Option<String>,
    /// Override `base_url:`.
    pub base_url: Option<String>,
    /// Group commands by URL path or OpenAPI tag.
    pub nest_by: OpenApiNestBy,
    /// Shorten leaf names by removing tag/path redundancy (`list-issues` → `list`).
    pub short_names: bool,
    /// Vendor preset for headers/auth (`auto` detects GitHub/GHES).
    pub preset: OpenApiPreset,
}

impl Default for OpenApiImportOptions {
    fn default() -> (r: Self)
        ensures
            r.name is None,
            r.tag is None,
            r.base_url is None,
            r.nest_by == OpenApiNestBy::Path,
            !r.short_names,
            r.preset == OpenApiPreset::Auto,
    {
        OpenApiImportOptions {
            name: None,
            tag: None,
            base_url: None,
            nest_by: OpenApiNestBy::Path,
            short_names: false,
            preset: OpenApiPreset::Auto,
        }
    }
}

/// The document an OpenAPI text holds: JSON when it starts (after white space)
/// with `{` or `[`, YAML otherwise.
pub open spec fn openapi_parse(content: Seq<char>) -> Result<Json, ErrorModel> {
    let t = trim_start(content);
    if starts_with(t, "{"@) || starts_with(t, "["@) {
        match json_read(content) {
            Ok(j) => Ok(j),
            Err(m) => Err(ErrorModel::OpenApiParse("Invalid OpenAPI JSON: "@ + m)),
        }
    } else {
        match yaml_read(content) {
            Ok(j) => Ok(j),
            Err(m) => Err(ErrorModel::OpenApiParse("Invalid OpenAPI YAML: "@ + m)),
        }
    }
}

/// Parses OpenAPI JSON or YAML text into a JSON value tree.
pub fn parse_openapi_content(content: &str) -> (r: Result<JsonValue, YcallrError>)
    ensures
        match r {
            Ok(v) => openapi_parse(content@) == Ok::<Json, ErrorModel>(v@),
            Err(e) => openapi_parse(content@) == Err::<Json, ErrorModel>(e@),
        },
{
    let v = to_chars(content);
    let mut k: usize = 0;
    while k < v.len() && is_whitespace(v[k])
        invariant
            v@ == content@,
            k <= v@.len(),
            forall|j: int| 0 <= j < k ==> crate::text::is_ws(#[trigger] v@[j]),
        decreases v@.len() - k,
    {
        k = k + 1;
    }
    proof {
        lemma_trim_start_skip(content@, k as int);
        reveal_strlit("{");
        reveal_strlit("[");
        reveal_strlit("");
        assert(forall|x: Seq<char>| x + ""@ =~= x);
        let t = content@.skip(k as int);
        assert("{"@ =~= seq!['{']);
        assert("["@ =~= seq!['[']);
        if t.len() > 0 {
            assert(t.take(1) =~= seq![t[0]]);
            if starts_with(t, "{"@) {
                assert(t.take(1)[0] == '{');
            }
            if starts_with(t, "["@) {
                assert(t.take(1)[0] == '[');
            }
        }
    }
    let is_json = k < v.len() && (v[k] == '{' || v[k] == '[');
    if is_json {
        match json_from_text(content) {
            Ok(doc) => Ok(doc),
            Err(m) => Err(YcallrError::OpenApiParse(quoted("Invalid OpenAPI JSON: ", m.as_str(), ""))),
        }
    } else {
        match yaml_from_text(content) {
            Ok(doc) => Ok(doc),
            Err(m) => Err(YcallrError::OpenApiParse(quoted("Invalid OpenAPI YAML: ", m.as_str(), ""))),
        }
    }
}

} // verus!
