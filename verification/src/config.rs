//! Operator configuration: compiled-in defaults, field-by-field
//! merging of a persisted TOML file over them, and serialization of
//! the full merged structure for persisting.

use vstd::prelude::*;
use vstd::string::StringExecFns;
use crate::errors::ChatError;

verus! {

/// The resolved operator configuration. Every field always has a
/// defined value: a load merges the file over the defaults and never
/// leaves a field undefined.
#[derive(Debug, Clone)]
pub struct AppConfig {
    pub model: String,
    pub show_progress: bool,
    pub show_context: bool,
    pub markdown: bool,
}

/// The compiled-in default configuration values.
pub open spec fn is_default_config(c: AppConfig) -> bool {
    &&& c.model@ == "gpt-4"@
    &&& !c.show_progress
    &&& !c.show_context
    &&& !c.markdown
}

impl Default for AppConfig {
    fn default() -> (r: Self)
        ensures
            is_default_config(r),
    {
        AppConfig {
            model: String::from_str("gpt-4"),
            show_progress: false,
            show_context: false,
            markdown: false,
        }
    }
}

/// Whether `toml::Table`'s `FromStr` accepts the text as a TOML
/// document; the outcome depends on the text alone.
pub uninterp spec fn toml_parse_ok(s: Seq<char>) -> bool;

/// What a string-typed key of the parsed TOML document holds: the
/// payload when the text parses and the key holds a string, `None`
/// otherwise; a function of the text and the key alone.
pub uninterp spec fn toml_str_field(s: Seq<char>, key: Seq<char>) -> Option<Seq<char>>;

/// What a boolean-typed key of the parsed TOML document holds, in the
/// same way.
pub uninterp spec fn toml_bool_field(s: Seq<char>, key: Seq<char>) -> Option<bool>;

/// What `toml::to_string` returns for a flat table holding the four
/// configuration fields; the text depends on the field values alone.
pub uninterp spec fn toml_text_of(
    model: Seq<char>,
    show_progress: bool,
    show_context: bool,
    markdown: bool,
) -> Seq<char>;

/// Relies on `toml::Table`'s `FromStr` impl: whether the text parses
/// as a TOML document, a function of the text alone.
#[verifier::external_body]
pub(crate) fn toml_parse_check(s: &str) -> (r: bool)
    ensures
        r == toml_parse_ok(s@),
{
    s.parse::<toml::Table>().is_ok()
}

/// Relies on `toml::Table`'s `FromStr` impl and `toml::Value::as_str`:
/// reads one string-typed key of the document, `None` when the text
/// does not parse, the key is absent, or it holds another value kind.
#[verifier::external_body]
pub(crate) fn toml_read_str_field(s: &str, key: &str) -> (r: Option<String>)
    ensures
        r is Some <==> toml_str_field(s@, key@) is Some,
        r is Some ==> r->0@ == toml_str_field(s@, key@)->0,
{
    let t = s.parse::<toml::Table>().ok()?;
    Some(t.get(key)?.as_str()?.to_owned())
}

/// Relies on `toml::Table`'s `FromStr` impl and
/// `toml::Value::as_bool`: reads one boolean-typed key of the
/// document, in the same way.
#[verifier::external_body]
pub(crate) fn toml_read_bool_field(s: &str, key: &str) -> (r: Option<bool>)
    ensures
        r == toml_bool_field(s@, key@),
{
    let t = s.parse::<toml::Table>().ok()?;
    t.get(key)?.as_bool()
}

/// Relies on `toml::to_string`: serializes the four configuration
/// fields as a flat TOML table, which depends on the field values
/// alone; reading the text back recovers each field, as the crate's
/// serialize/deserialize pair is documented to do.
#[verifier::external_body]
pub(crate) fn toml_encode_config(
    model: &str,
    show_progress: bool,
    show_context: bool,
    markdown: bool,
) -> (r: String)
    ensures
        r@ == toml_text_of(model@, show_progress, show_context, markdown),
        toml_parse_ok(r@),
        toml_str_field(r@, "model"@) == Some(model@),
        toml_bool_field(r@, "show_progress"@) == Some(show_progress),
        toml_bool_field(r@, "show_context"@) == Some(show_context),
        toml_bool_field(r@, "markdown"@) == Some(markdown),
{
    let mut t = toml::Table::new();
    t.insert("model".to_owned(), toml::Value::String(model.to_owned()));
    t.insert("show_progress".to_owned(), toml::Value::Boolean(show_progress));
    t.insert("show_context".to_owned(), toml::Value::Boolean(show_context));
    t.insert("markdown".to_owned(), toml::Value::Boolean(markdown));
    // serializing a flat table of strings and booleans cannot fail, so
    // the empty-text fallback is believed unreachable
    toml::to_string(&t).unwrap_or_default()
}

/// The serialized form of the default configuration.
pub open spec fn default_config_text() -> Seq<char> {
    toml_text_of("gpt-4"@, false, false, false)
}

/// Merges the optionally-present file fields over the defaults, field
/// by field: a field the file supplies with the right type wins, any
/// other falls back to its default.
pub fn merge_config(
    model: Option<String>,
    show_progress: Option<bool>,
    show_context: Option<bool>,
    markdown: Option<bool>,
) -> (r: AppConfig)
    ensures
        r.model@ == (if model is Some { model->0@ } else { "gpt-4"@ }),
        r.show_progress == (if show_progress is Some { show_progress->0 } else { false }),
        r.show_context == (if show_context is Some { show_context->0 } else { false }),
        r.markdown == (if markdown is Some { markdown->0 } else { false }),
{
    let d = AppConfig::default();
    AppConfig {
        model: match model {
            Some(m) => m,
            None => d.model,
        },
        show_progress: match show_progress {
            Some(b) => b,
            None => d.show_progress,
        },
        show_context: match show_context {
            Some(b) => b,
            None => d.show_context,
        },
        markdown: match markdown {
            Some(b) => b,
            None => d.markdown,
        },
    }
}

/// The model the file text resolves to: the file's `model` key when
/// it is present as a string, the default otherwise.
pub open spec fn merged_model(s: Seq<char>) -> Seq<char> {
    match toml_str_field(s, "model"@) {
        Some(m) => m,
        None => "gpt-4"@,
    }
}

/// The boolean a key of the file text resolves to: the file's value
/// when present as a boolean, the default otherwise.
pub open spec fn merged_flag(s: Seq<char>, key: Seq<char>) -> bool {
    match toml_bool_field(s, key) {
        Some(b) => b,
        None => false,
    }
}

/// Loads configuration from the text of the persisted file, `None`
/// standing for a missing file. A missing file yields exactly the
/// defaults; a parseable file is merged over them field by field, a
/// field absent or of the wrong type keeping its default; only text
/// that does not parse as TOML at all is an error.
pub fn load_config_text(text: Option<&str>) -> (r: Result<AppConfig, ChatError>)
    ensures
        text is None ==> r is Ok && is_default_config(r->Ok_0),
        text is Some ==> (r is Ok <==> toml_parse_ok(text->0@)),
        text is Some && r is Ok ==> r->Ok_0.model@ == merged_model(text->0@)
            && r->Ok_0.show_progress == merged_flag(text->0@, "show_progress"@)
            && r->Ok_0.show_context == merged_flag(text->0@, "show_context"@)
            && r->Ok_0.markdown == merged_flag(text->0@, "markdown"@),
        r is Err ==> r->Err_0 is ConfigParseError,
{
    match text {
        None => Ok(AppConfig::default()),
        Some(t) => {
            if !toml_parse_check(t) {
                Err(ChatError::ConfigParseError)
            } else {
                let model = toml_read_str_field(t, "model");
                let show_progress = toml_read_bool_field(t, "show_progress");
                let show_context = toml_read_bool_field(t, "show_context");
                let markdown = toml_read_bool_field(t, "markdown");
                Ok(merge_config(model, show_progress, show_context, markdown))
            }
        },
    }
}

/// What the configuration file holds after an ensure step: an existing
/// file is kept as it is, a missing one comes to hold the serialized
/// defaults.
pub open spec fn apply_ensure(file: Option<Seq<char>>) -> Option<Seq<char>> {
    match file {
        Some(t) => Some(t),
        None => Some(default_config_text()),
    }
}

/// Decides what the ensure step writes, from what the file currently
/// holds: a missing file gets the serialized defaults, an existing
/// file — whatever it holds — is never overwritten.
pub fn ensure_config_file(existing: Option<&String>) -> (r: Option<String>)
    ensures
        existing is Some ==> r is None,
        existing is None ==> r is Some && r->0@ == default_config_text(),
        existing is None ==> toml_parse_ok(r->0@) && toml_str_field(r->0@, "model"@) == Some(
            "gpt-4"@,
        ) && toml_bool_field(r->0@, "show_progress"@) == Some(false) && toml_bool_field(
            r->0@,
            "show_context"@,
        ) == Some(false) && toml_bool_field(r->0@, "markdown"@) == Some(false),
        apply_ensure(match existing {
            Some(t) => Some(t@),
            None => None,
        }) == (match (existing, &r) {
            (Some(t), _) => Some(t@),
            (None, r) => Some(r->0@),
        }),
{
    match existing {
        Some(_) => None,
        None => Some(toml_encode_config("gpt-4", false, false, false)),
    }
}

/// Ensuring the file is idempotent: once a file exists — whatever it
/// holds — a further ensure step leaves its content unchanged.
pub proof fn lemma_ensure_idempotent(file: Option<Seq<char>>)
    ensures
        apply_ensure(apply_ensure(file)) == apply_ensure(file),
{
}

} // verus!
