//! The parsers behind the configuration files and `package.json`: JSONC
//! (jsonc-parser) and TOML (toml), their results as the library's values.

use vstd::prelude::*;
use crate::config::{ConfigFormat, LoadConfigError};
use crate::config_value::{config_read, parse_view, read_config_value, ConfigValue};
use crate::json::{Json, JsonObject};

verus! {

#[verifier::external_type_specification]
#[verifier::external_body]
pub struct ExSerdeValue(serde_json::Value);

#[verifier::external_type_specification]
#[verifier::external_body]
pub struct ExTomlValue(toml::Value);

#[verifier::external_type_specification]
#[verifier::external_body]
pub struct ExJsoncAst<'a>(jsonc_parser::ast::Value<'a>);

/// The switches of the JSONC parser, one for one.
#[derive(Debug, Clone, Copy, PartialEq, Eq, Structural)]
pub struct JsoncOptions {
    pub allow_comments: bool,
    pub allow_loose_object_property_names: bool,
    pub allow_trailing_commas: bool,
    pub allow_missing_commas: bool,
    pub allow_single_quoted_strings: bool,
    pub allow_hexadecimal_numbers: bool,
    pub allow_unary_plus_numbers: bool,
    pub allow_bare_decimal_point_numbers: bool,
    pub allow_non_finite_numbers: bool,
    pub allow_extended_string_escapes: bool,
}

/// The JSONC dialect of the configuration files: comments and trailing
/// commas, none of the JSON5 leniencies.
pub open spec fn config_options_spec() -> JsoncOptions {
    JsoncOptions {
        allow_comments: true,
        allow_loose_object_property_names: false,
        allow_trailing_commas: true,
        allow_missing_commas: false,
        allow_single_quoted_strings: false,
        allow_hexadecimal_numbers: false,
        allow_unary_plus_numbers: false,
        allow_bare_decimal_point_numbers: false,
        allow_non_finite_numbers: false,
        allow_extended_string_escapes: false,
    }
}

/// The JSONC options for configuration files.
pub fn config_jsonc_options() -> (r: JsoncOptions)
    ensures
        r == config_options_spec(),
{
    JsoncOptions {
        allow_comments: true,
        allow_loose_object_property_names: false,
        allow_trailing_commas: true,
        allow_missing_commas: false,
        allow_single_quoted_strings: false,
        allow_hexadecimal_numbers: false,
        allow_unary_plus_numbers: false,
        allow_bare_decimal_point_numbers: false,
        allow_non_finite_numbers: false,
        allow_extended_string_escapes: false,
    }
}

/// What `jsonc_parser::parse_to_serde_value` gives for `text` under
/// `options`: the value (numbers as serde_json writes them), or the parser's
/// error text.
pub uninterp spec fn jsonc_config_of(options: JsoncOptions, text: Seq<char>) -> Result<ConfigValue, Seq<char>>;

/// What `toml::from_str` gives for `text` as a `toml::Value`: the value
/// (datetimes as their text, other scalars as serde_json writes them), or the
/// parser's error text.
pub uninterp spec fn toml_config_of(text: Seq<char>) -> Result<ConfigValue, Seq<char>>;

/// What `jsonc_parser::parse_to_ast` gives for `text` under the parser's
/// default (lenient) options: the document's value, every property kept in
/// order and numbers as written; `None` when the text does not parse or
/// holds no value.
pub uninterp spec fn jsonc_lenient_of(text: Seq<char>) -> Option<Json>;

/// A serde value as a parsed configuration value, variant for variant
/// (numbers as serde_json writes them).
#[verifier::external_body]
fn config_from_serde(v: serde_json::Value) -> ConfigValue {
    match v {
        serde_json::Value::Null => ConfigValue::Null,
        serde_json::Value::Bool(b) => ConfigValue::Bool(b),
        serde_json::Value::Number(n) => ConfigValue::Number(n.to_string()),
        serde_json::Value::String(s) => ConfigValue::Str(s),
        serde_json::Value::Array(a) => ConfigValue::Array(a.into_iter().map(config_from_serde).collect()),
        serde_json::Value::Object(m) => ConfigValue::Object(m.into_iter().map(|(k, x)| (k, config_from_serde(x))).collect()),
    }
}

/// A TOML value as a parsed configuration value: a datetime as its text,
/// arrays and tables item for item, other scalars as serde_json converts them.
#[verifier::external_body]
fn config_from_toml(v: toml::Value) -> ConfigValue {
    match v {
        toml::Value::Datetime(d) => ConfigValue::Datetime(d.to_string()),
        toml::Value::Array(a) => ConfigValue::Array(a.into_iter().map(config_from_toml).collect()),
        toml::Value::Table(t) => ConfigValue::Object(t.into_iter().map(|(k, x)| (k, config_from_toml(x))).collect()),
        scalar => config_from_serde(serde_json::to_value(scalar).unwrap_or(serde_json::Value::Null)),
    }
}

/// A JSONC syntax tree as the library's JSON value, node for node: every
/// property kept in order, numbers as written.
#[verifier::external_body]
fn json_from_ast(v: jsonc_parser::ast::Value) -> Json {
    match v {
        jsonc_parser::ast::Value::StringLit(s) => Json::Str(s.value.into_owned()),
        jsonc_parser::ast::Value::NumberLit(n) => Json::Number(n.value.to_string()),
        jsonc_parser::ast::Value::BooleanLit(b) => Json::Bool(b.value),
        jsonc_parser::ast::Value::NullKeyword(_) => Json::Null,
        jsonc_parser::ast::Value::Array(a) => Json::Array(a.elements.into_iter().map(json_from_ast).collect()),
        jsonc_parser::ast::Value::Object(o) => Json::Object(o.properties.into_iter().map(|p| (p.name.into_string(), json_from_ast(p.value))).collect()),
    }
}

/// `jsonc_parser::parse_to_serde_value` into a `serde_json::Value`: the
/// contract names the result (`jsonc_config_of`) over the text and the
/// options; which texts parse is the parser's and is not stated.
#[verifier::external_body]
fn parse_jsonc_config(text: &str, o: &JsoncOptions) -> (r: Result<ConfigValue, String>)
    ensures
        parse_view(r) == jsonc_config_of(*o, text@),
{
    let options = jsonc_parser::ParseOptions {
        allow_comments: o.allow_comments, allow_loose_object_property_names: o.allow_loose_object_property_names,
        allow_trailing_commas: o.allow_trailing_commas, allow_missing_commas: o.allow_missing_commas,
        allow_single_quoted_strings: o.allow_single_quoted_strings, allow_hexadecimal_numbers: o.allow_hexadecimal_numbers,
        allow_unary_plus_numbers: o.allow_unary_plus_numbers, allow_bare_decimal_point_numbers: o.allow_bare_decimal_point_numbers,
        allow_non_finite_numbers: o.allow_non_finite_numbers, allow_extended_string_escapes: o.allow_extended_string_escapes,
    };
    match jsonc_parser::parse_to_serde_value::<serde_json::Value>(text, &options) {
        Ok(v) => Ok(config_from_serde(v)),
        Err(e) => Err(e.to_string()),
    }
}

/// `toml::from_str` into a `toml::Value`: the contract names the result
/// (`toml_config_of`) over the text; which texts parse is the parser's and is
/// not stated.
#[verifier::external_body]
fn parse_toml_config(text: &str) -> (r: Result<ConfigValue, String>)
    ensures
        parse_view(r) == toml_config_of(text@),
{
    match toml::from_str::<toml::Value>(text) {
        Ok(v) => Ok(config_from_toml(v)),
        Err(e) => Err(e.to_string()),
    }
}

/// `jsonc_parser::parse_to_ast` with the default options: the contract names
/// the result (`jsonc_lenient_of`) over the text.
#[verifier::external_body]
fn parse_jsonc_lenient(text: &str) -> (r: Option<Json>)
    ensures
        r == jsonc_lenient_of(text@),
{
    let options = jsonc_parser::ParseOptions::default();
    match jsonc_parser::parse_to_ast(text, &jsonc_parser::CollectOptions::default(), &options) {
        Ok(parsed) => parsed.value.map(json_from_ast),
        Err(_) => None,
    }
}

/// What parsing a configuration file's text gives, by its format.
pub open spec fn config_text_spec(format: ConfigFormat, text: Seq<char>) -> Result<ConfigValue, Seq<char>> {
    match format {
        ConfigFormat::Jsonc => jsonc_config_of(config_options_spec(), text),
        ConfigFormat::Toml => toml_config_of(text),
    }
}

/// Parses a configuration file's text by its format (JSONC with comments and
/// trailing commas only, or TOML).
pub fn parse_config_text(format: ConfigFormat, text: &str) -> (r: Result<ConfigValue, String>)
    ensures
        parse_view(r) == config_text_spec(format, text@),
{
    match format {
        ConfigFormat::Jsonc => {
            let o = config_jsonc_options();
            parse_jsonc_config(text, &o)
        },
        ConfigFormat::Toml => parse_toml_config(text),
    }
}

/// Reads one configuration file from its text: parsed by its format, then
/// checked as `read_config_value` checks a parsed value (see `config_read`).
pub fn read_config_text(shown: &str, format: ConfigFormat, text: &str) -> (r: Result<JsonObject, LoadConfigError>)
    ensures
        config_read(shown@, config_text_spec(format, text@), r),
{
    let parsed = parse_config_text(format, text);
    read_config_value(shown, parsed)
}

/// A `package.json` text as the library's JSON value (lenient JSONC: a file
/// that does not parse counts as no data).
pub fn package_json_of(text: &str) -> (r: Option<Json>)
    ensures
        r == jsonc_lenient_of(text@),
{
    parse_jsonc_lenient(text)
}

} // verus!
