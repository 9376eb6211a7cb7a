//! The conversation client: an ordered, append-only transcript seeded
//! with a system turn, the resolved configuration, and the operations
//! a caller drives it with.

use vstd::prelude::*;
use vstd::string::StringExecFns;
use crate::config::{
    default_config_text, ensure_config_file, is_default_config, load_config_text, merged_flag,
    merged_model, toml_bool_field, toml_parse_ok, toml_str_field, toml_text_of, AppConfig,
};
use crate::errors::ChatError;
use crate::message::{views_of, Message, MessageV};
use crate::codec::{encode_messages, encode_spec, visible};
use crate::request::{json_of_request, request_body};
use crate::response::{
    classify_response, error_message_of, json_len_at, json_str_at, success_schema_ok,
    ResponseOutcome,
};
use crate::role::Role;
use crate::text::{str_eq, trim_spec, trim_str};

verus! {

broadcast use vstd::string::group_string_axioms;

/// The known configuration keys.
pub open spec fn is_config_key(k: Seq<char>) -> bool {
    k == "model"@ || k == "show_progress"@ || k == "show_context"@ || k == "markdown"@
}

/// The strict boolean tokens a configuration value accepts.
pub open spec fn is_bool_token(v: Seq<char>) -> bool {
    v == "true"@ || v == "false"@
}

/// The boolean a strict token denotes.
pub open spec fn bool_of_token(v: Seq<char>) -> bool {
    v == "true"@
}

/// The canonical string form of a boolean configuration value.
pub open spec fn bool_str(b: bool) -> Seq<char> {
    if b {
        "true"@
    } else {
        "false"@
    }
}

/// Parses a boolean configuration value strictly: exactly `true` and
/// `false` are accepted, case-sensitively.
pub fn parse_bool_token(v: &str) -> (r: Result<bool, ChatError>)
    ensures
        r is Ok <==> is_bool_token(v@),
        r is Ok ==> r->Ok_0 == bool_of_token(v@),
        r is Err ==> r->Err_0 is InvalidConfigValue,
{
    if str_eq(v, "true") {
        Ok(true)
    } else if str_eq(v, "false") {
        Ok(false)
    } else {
        Err(ChatError::InvalidConfigValue)
    }
}

/// The canonical string form of a boolean configuration value.
pub fn bool_to_string(b: bool) -> (r: String)
    ensures
        r@ == bool_str(b),
{
    if b {
        String::from_str("true")
    } else {
        String::from_str("false")
    }
}

/// The four configuration key names are pairwise distinct.
proof fn lemma_config_keys_distinct()
    ensures
        "model"@ != "show_progress"@,
        "model"@ != "show_context"@,
        "model"@ != "markdown"@,
        "show_progress"@ != "show_context"@,
        "show_progress"@ != "markdown"@,
        "show_context"@ != "markdown"@,
{
    reveal_strlit("model");
    reveal_strlit("show_progress");
    reveal_strlit("show_context");
    reveal_strlit("markdown");
    assert("model"@.len() != "show_progress"@.len());
    assert("model"@.len() != "show_context"@.len());
    assert("model"@.len() != "markdown"@.len());
    assert("show_progress"@.len() != "show_context"@.len());
    assert("show_progress"@.len() != "markdown"@.len());
    assert("show_context"@.len() != "markdown"@.len());
}

/// The conversation client: resolved configuration, the directory its
/// file lives in, and the ordered transcript.
pub struct GptClient {
    pub config: AppConfig,
    pub config_directory: String,
    pub messages: Vec<Message>,
}

impl GptClient {
    /// The transcript's standing invariant: it starts with the system
    /// turn placed there at construction, and is never empty.
    pub open spec fn wf(&self) -> bool {
        self.messages@.len() >= 1 && self.messages@[0].role == Role::System
    }

    /// The mathematical value of the transcript, in turn order.
    pub open spec fn transcript(&self) -> Seq<MessageV> {
        views_of(self.messages@)
    }

    /// Builds a client over a resolved configuration and an injected
    /// system prompt; the transcript starts as exactly one system turn
    /// holding the trimmed prompt.
    pub fn new(config: AppConfig, config_directory: String, system_prompt: &str) -> (r: GptClient)
        ensures
            r.wf(),
            r.config == config,
            r.config_directory == config_directory,
            r.transcript() =~= seq![
                MessageV { role: Role::System, content: trim_spec(system_prompt@) },
            ],
    {
        let content = trim_str(system_prompt);
        let messages = vec![Message { role: Role::System, content }];
        let r = GptClient { config, config_directory, messages };
        proof {
            assert(r.transcript() =~= seq![
                MessageV { role: Role::System, content: trim_spec(system_prompt@) },
            ]);
        }
        r
    }

    /// Appends one turn with the given role and the trimmed text. The
    /// transcript grows by exactly this turn and nothing else changes.
    pub fn add_message(&mut self, role: Role, text: String)
        ensures
            final(self).transcript() == old(self).transcript().push(
                MessageV { role, content: trim_spec(text@) },
            ),
            final(self).config == old(self).config,
            final(self).config_directory == old(self).config_directory,
            old(self).wf() ==> final(self).wf(),
    {
        let content = trim_str(text.as_str());
        self.messages.push(Message { role, content });
        proof {
            assert(final(self).transcript() =~= old(self).transcript().push(
                MessageV { role, content: trim_spec(text@) },
            ));
        }
    }

    /// Decides what the configuration ensure step writes, from what
    /// the file currently holds: a missing file gets the serialized
    /// defaults, an existing file is never overwritten.
    pub fn setup_config(existing: Option<&String>) -> (r: Option<String>)
        ensures
            existing is Some ==> r is None,
            existing is None ==> r is Some && r->0@ == default_config_text(),
            existing is None ==> toml_parse_ok(r->0@) && toml_str_field(r->0@, "model"@) == Some(
                "gpt-4"@,
            ) && toml_bool_field(r->0@, "show_progress"@) == Some(false) && toml_bool_field(
                r->0@,
                "show_context"@,
            ) == Some(false) && toml_bool_field(r->0@, "markdown"@) == Some(false),
    {
        ensure_config_file(existing)
    }

    /// Loads configuration from the file text, `None` standing for a
    /// missing file: the defaults, overridden field by field by
    /// whatever well-typed fields the file supplies.
    pub fn load_config(text: Option<&str>) -> (r: Result<AppConfig, ChatError>)
        ensures
            text is None ==> r is Ok && is_default_config(r->Ok_0),
            text is Some ==> (r is Ok <==> toml_parse_ok(text->0@)),
            text is Some && r is Ok ==> r->Ok_0.model@ == merged_model(text->0@)
                && r->Ok_0.show_progress == merged_flag(text->0@, "show_progress"@)
                && r->Ok_0.show_context == merged_flag(text->0@, "show_context"@)
                && r->Ok_0.markdown == merged_flag(text->0@, "markdown"@),
            r is Err ==> r->Err_0 is ConfigParseError,
    {
        load_config_text(text)
    }

    /// Sets one configuration field from its raw string value and
    /// returns the full merged structure serialized for persisting.
    /// Unknown keys and ill-formed boolean values are errors and leave
    /// the configuration unchanged; booleans parse strictly.
    pub fn set_config_value(&mut self, key: &str, value: &str) -> (r: Result<String, ChatError>)
        ensures
            final(self).messages == old(self).messages,
            final(self).config_directory == old(self).config_directory,
            r is Ok ==> r->Ok_0@ == toml_text_of(
                final(self).config.model@,
                final(self).config.show_progress,
                final(self).config.show_context,
                final(self).config.markdown,
            ),
            r is Ok ==> toml_parse_ok(r->Ok_0@) && toml_str_field(r->Ok_0@, "model"@) == Some(
                final(self).config.model@,
            ) && toml_bool_field(r->Ok_0@, "show_progress"@) == Some(
                final(self).config.show_progress,
            ) && toml_bool_field(r->Ok_0@, "show_context"@) == Some(
                final(self).config.show_context,
            ) && toml_bool_field(r->Ok_0@, "markdown"@) == Some(final(self).config.markdown),
            key@ == "model"@ ==> r is Ok && final(self).config.model@ == value@
                && final(self).config.show_progress == old(self).config.show_progress
                && final(self).config.show_context == old(self).config.show_context
                && final(self).config.markdown == old(self).config.markdown,
            key@ == "show_progress"@ ==> (if is_bool_token(value@) {
                r is Ok && final(self).config.show_progress == bool_of_token(value@)
                    && final(self).config.model == old(self).config.model
                    && final(self).config.show_context == old(self).config.show_context
                    && final(self).config.markdown == old(self).config.markdown
            } else {
                r is Err && r->Err_0 is InvalidConfigValue && final(self).config == old(self).config
            }),
            key@ == "show_context"@ ==> (if is_bool_token(value@) {
                r is Ok && final(self).config.show_context == bool_of_token(value@)
                    && final(self).config.model == old(self).config.model
                    && final(self).config.show_progress == old(self).config.show_progress
                    && final(self).config.markdown == old(self).config.markdown
            } else {
                r is Err && r->Err_0 is InvalidConfigValue && final(self).config == old(self).config
            }),
            key@ == "markdown"@ ==> (if is_bool_token(value@) {
                r is Ok && final(self).config.markdown == bool_of_token(value@)
                    && final(self).config.model == old(self).config.model
                    && final(self).config.show_progress == old(self).config.show_progress
                    && final(self).config.show_context == old(self).config.show_context
            } else {
                r is Err && r->Err_0 is InvalidConfigValue && final(self).config == old(self).config
            }),
            !is_config_key(key@) ==> r is Err && r->Err_0 is InvalidConfigKey && final(self).config
                == old(self).config,
    {
        proof {
            lemma_config_keys_distinct();
        }
        if str_eq(key, "model") {
            self.config.model = String::from_str(value);
        } else if str_eq(key, "show_progress") {
            match parse_bool_token(value) {
                Ok(b) => self.config.show_progress = b,
                Err(e) => {
                    return Err(e);
                },
            }
        } else if str_eq(key, "show_context") {
            match parse_bool_token(value) {
                Ok(b) => self.config.show_context = b,
                Err(e) => {
                    return Err(e);
                },
            }
        } else if str_eq(key, "markdown") {
            match parse_bool_token(value) {
                Ok(b) => self.config.markdown = b,
                Err(e) => {
                    return Err(e);
                },
            }
        } else {
            return Err(ChatError::InvalidConfigKey);
        }
        Ok(
            crate::config::toml_encode_config(
                self.config.model.as_str(),
                self.config.show_progress,
                self.config.show_context,
                self.config.markdown,
            ),
        )
    }

    /// Reads one configuration field as its canonical string form; an
    /// unknown key is an error, matching the setter's policy.
    pub fn get_config_value(&self, key: &str) -> (r: Result<String, ChatError>)
        ensures
            key@ == "model"@ ==> r is Ok && r->Ok_0@ == self.config.model@,
            key@ == "show_progress"@ ==> r is Ok && r->Ok_0@ == bool_str(
                self.config.show_progress,
            ),
            key@ == "show_context"@ ==> r is Ok && r->Ok_0@ == bool_str(self.config.show_context),
            key@ == "markdown"@ ==> r is Ok && r->Ok_0@ == bool_str(self.config.markdown),
            !is_config_key(key@) ==> r is Err && r->Err_0 is InvalidConfigKey,
    {
        proof {
            lemma_config_keys_distinct();
        }
        if str_eq(key, "model") {
            Ok(self.config.model.clone())
        } else if str_eq(key, "show_progress") {
            Ok(bool_to_string(self.config.show_progress))
        } else if str_eq(key, "show_context") {
            Ok(bool_to_string(self.config.show_context))
        } else if str_eq(key, "markdown") {
            Ok(bool_to_string(self.config.markdown))
        } else {
            Err(ChatError::InvalidConfigKey)
        }
    }

    /// The structured transcript text of the conversation, in turn
    /// order; when `exclude_system` is set, every system turn is
    /// omitted from the output.
    pub fn to_yaml(&self, exclude_system: bool) -> (r: String)
        ensures
            r@ == encode_spec(visible(self.transcript(), exclude_system)),
    {
        encode_messages(&self.messages, exclude_system)
    }

    /// The JSON request body for one completion call: the configured
    /// model paired with the full ordered transcript, system turn
    /// included.
    pub fn build_request_body(&self) -> (r: String)
        ensures
            r@ == json_of_request(self.config.model@, self.transcript()),
    {
        request_body(self.config.model.as_str(), &self.messages)
    }

    /// Applies one classified reply outcome to the transcript: a
    /// success reply with at least one choice yields the first
    /// choice's content and appends it, trimmed, as an assistant turn;
    /// every other outcome — an endpoint-reported error, a success
    /// reply without choices, or unparseable text — is a
    /// malformed-response error and leaves the transcript untouched.
    pub fn apply_outcome(&mut self, outcome: ResponseOutcome) -> (r: Result<String, ChatError>)
        ensures
            final(self).config == old(self).config,
            final(self).config_directory == old(self).config_directory,
            old(self).wf() ==> final(self).wf(),
            match outcome {
                ResponseOutcome::Success(resp) => if resp.choices@.len() > 0 {
                    r is Ok && r->Ok_0@ == resp.choices@[0].message.content@
                        && final(self).transcript() == old(self).transcript().push(
                        MessageV {
                            role: Role::Assistant,
                            content: trim_spec(resp.choices@[0].message.content@),
                        },
                    )
                } else {
                    r is Err && r->Err_0 is MalformedResponse
                        && final(self).transcript() == old(self).transcript()
                },
                ResponseOutcome::ApiError(m) => r is Err && r->Err_0 is MalformedResponse
                    && r->Err_0->MalformedResponse_0@ == m@
                    && final(self).transcript() == old(self).transcript(),
                ResponseOutcome::Unparseable => r is Err && r->Err_0 is MalformedResponse
                    && final(self).transcript() == old(self).transcript(),
            },
    {
        match outcome {
            ResponseOutcome::Success(resp) => {
                if resp.choices.len() > 0 {
                    let content = resp.choices[0].message.content.clone();
                    let result = content.clone();
                    self.add_message(Role::Assistant, content);
                    Ok(result)
                } else {
                    Err(ChatError::MalformedResponse(String::from_str("reply held no choices")))
                }
            },
            ResponseOutcome::ApiError(m) => Err(ChatError::MalformedResponse(m)),
            ResponseOutcome::Unparseable => Err(
                ChatError::MalformedResponse(String::from_str("reply matched neither schema")),
            ),
        }
    }

    /// One full local step of the exchange: classifies the raw reply
    /// body and applies it to the transcript. Success is owed exactly
    /// when the body matches the success schema with at least one
    /// choice: the first choice's content comes back and one assistant
    /// turn is appended. On every failure the transcript is left
    /// unchanged, and an error-schema body surfaces its own message.
    pub fn complete_with_body(&mut self, body: &str) -> (r: Result<String, ChatError>)
        ensures
            final(self).config == old(self).config,
            final(self).config_directory == old(self).config_directory,
            old(self).wf() ==> final(self).wf(),
            r is Ok <==> success_schema_ok(body@) && json_len_at(body@, "/choices"@)->0 > 0,
            r is Ok ==> r->Ok_0@ == json_str_at(body@, "/choices/0/message/content"@)->0
                && final(self).transcript() == old(self).transcript().push(
                MessageV { role: Role::Assistant, content: trim_spec(r->Ok_0@) },
            ),
            r is Err ==> final(self).transcript() == old(self).transcript()
                && r->Err_0 is MalformedResponse,
            !success_schema_ok(body@) && error_message_of(body@) is Some ==> r is Err
                && r->Err_0->MalformedResponse_0@ == error_message_of(body@)->0,
    {
        let outcome = classify_response(body);
        self.apply_outcome(outcome)
    }
}

} // verus!
