//! File-based configuration: TOML parsing and merging into CLI options.
//!
//! A configuration file holds one top-level TOML table.  Values merge with
//! the command line under a fixed precedence: an option already set on the
//! command line is never overridden, file values come next, and anything
//! still unset falls back to built-in defaults downstream.  Fields with a
//! wrong type are silently ignored; unknown enum names are errors, reported
//! for the first offending field in processing order.
//!
//! The file itself is located and read by the caller, which hands its
//! outcome in as a `ConfigSource`.  What a document holds is modelled by
//! `TomlVal`: the parse result and the accessors are pinned to that shape,
//! so the merging contracts below say exactly which values are adopted.

use vstd::prelude::*;
use vstd::string::*;

use crate::settings::WordTransform;
use crate::settings::lower_char;
use crate::text::chars_vec;

verus! {

/// Why a configuration file did not contribute values.
#[derive(Debug)]
pub enum ConfigParseError {
    /// No configuration file exists; not an error for the caller.
    Ignore,
    /// The file could not be read or is not valid TOML.
    InvalidFile(String),
    /// A field holds an unusable value: the field, and a message.
    InvalidConfig(String, String),
}

/// The outcome of looking for and reading a configuration file, supplied by
/// the caller that owns the file system access.
pub enum ConfigSource {
    /// No file exists at any searched location.
    NotFound,
    /// A file exists but could not be read; the message says why.
    Unreadable(String),
    /// The raw text of the file.
    Found(String),
}

/// Merges a configuration file into the implementing option set.
pub trait ConfigParser {
    /// Folds the file described by `source` into `self`.
    fn parse_config_file(&mut self, source: ConfigSource) -> Result<(), ConfigParseError>;
}

#[verifier::external_type_specification]
#[verifier::external_body]
pub struct ExTomlValue(toml::Value);

/// The shape of a TOML value: strings as their characters, integers as
/// themselves, arrays and tables by their members, and every other type
/// (floats, booleans, datetimes) collapsed to `Other`.
pub enum TomlVal {
    /// A TOML string.
    Str(Seq<char>),
    /// A TOML integer.
    Int(i64),
    /// A TOML array.
    Arr(Seq<TomlVal>),
    /// A TOML table.
    Table(Map<Seq<char>, TomlVal>),
    /// A float, boolean or datetime.
    Other,
}

/// What `toml::from_str` yields for a text: a pure function of the text,
/// `None` when the text is not a valid TOML document.
pub uninterp spec fn toml_doc(text: Seq<char>) -> Option<TomlVal>;

/// What a parsed TOML value holds: the contents the trusted accessors below
/// hand out piece by piece.
pub uninterp spec fn val_view(v: toml::Value) -> TomlVal;

/// The member of a table under `key`; `None` on any other shape or a
/// missing key.
pub open spec fn field_of(t: TomlVal, key: Seq<char>) -> Option<TomlVal> {
    match t {
        TomlVal::Table(m) => if m.contains_key(key) {
            Some(m[key])
        } else {
            None
        },
        _ => None,
    }
}

/// The string payload of a top-level field; `None` when absent or of
/// another type.
pub open spec fn str_field(t: TomlVal, key: Seq<char>) -> Option<Seq<char>> {
    match field_of(t, key) {
        Some(TomlVal::Str(s)) => Some(s),
        _ => None,
    }
}

/// The integer payload of a top-level field; `None` when absent or of
/// another type.
pub open spec fn int_field(t: TomlVal, key: Seq<char>) -> Option<i64> {
    match field_of(t, key) {
        Some(TomlVal::Int(i)) => Some(i),
        _ => None,
    }
}

/// The members of a top-level array field; `None` when absent or of
/// another type.
pub open spec fn arr_field(t: TomlVal, key: Seq<char>) -> Option<Seq<TomlVal>> {
    match field_of(t, key) {
        Some(TomlVal::Arr(items)) => Some(items),
        _ => None,
    }
}

/// The characters of a string member; empty for any other shape.
pub open spec fn str_of(t: TomlVal) -> Seq<char> {
    match t {
        TomlVal::Str(s) => s,
        _ => Seq::empty(),
    }
}

/// The string payloads of the members, in order.
pub open spec fn str_items(items: Seq<TomlVal>) -> Seq<Seq<char>> {
    Seq::new(items.len(), |j: int| str_of(items[j]))
}

/// The absolute value of a TOML integer, which is how numbers are read.
pub open spec fn abs_i64(i: i64) -> int {
    if i >= 0 {
        i as int
    } else {
        -(i as int)
    }
}

/// The first position at or after `j` whose member is not a string, or the
/// member count.
pub open spec fn first_non_str(items: Seq<TomlVal>, j: int) -> int
    decreases items.len() - j,
    when 0 <= j <= items.len()
{
    if j >= items.len() {
        j
    } else if !(items[j] is Str) {
        j
    } else {
        first_non_str(items, j + 1)
    }
}

/// The first position at or after `j` holding an unknown transform name, or
/// the length.
pub open spec fn first_unknown(ss: Seq<Seq<char>>, j: int) -> int
    decreases ss.len() - j,
    when 0 <= j <= ss.len()
{
    if j >= ss.len() {
        j
    } else if spec_parse_transform(ss[j]) is None {
        j
    } else {
        first_unknown(ss, j + 1)
    }
}

/// Relies on `toml::from_str` for `toml::Value`: parses a TOML document,
/// whose success and shape depend on the text alone.
#[verifier::external_body]
fn parse_toml(data: &str) -> (r: Result<toml::Value, String>)
    ensures
        match r {
            Ok(v) => toml_doc(data@) == Some(val_view(v)),
            Err(_) => toml_doc(data@) is None,
        },
{
    match toml::from_str::<toml::Value>(data) {
        Ok(v) => Ok(v),
        Err(e) => Err(e.to_string()),
    }
}

/// Relies on `toml::Value::get` with a string index: looks a key up in a
/// table, `None` on any other shape or a missing key.
#[verifier::external_body]
fn value_get<'a>(v: &'a toml::Value, field: &str) -> (r: Option<&'a toml::Value>)
    ensures
        match r {
            Some(x) => field_of(val_view(*v), field@) == Some(val_view(*x)),
            None => field_of(val_view(*v), field@) is None,
        },
{
    v.get(field)
}

/// Relies on `toml::Value::as_str`: the payload of a TOML string, `None`
/// for every other shape.
#[verifier::external_body]
fn value_as_str(v: &toml::Value) -> (r: Option<String>)
    ensures
        match val_view(*v) {
            TomlVal::Str(s) => (r matches Some(x) && x@ == s),
            _ => r is None,
        },
{
    v.as_str().map(str::to_string)
}

/// Relies on `toml::Value::as_integer`: the payload of a TOML integer,
/// `None` for every other shape.
#[verifier::external_body]
fn value_as_integer(v: &toml::Value) -> (r: Option<i64>)
    ensures
        match val_view(*v) {
            TomlVal::Int(i) => r == Some(i),
            _ => r is None,
        },
{
    v.as_integer()
}

/// Relies on `toml::Value::as_array`: the members of a TOML array, `None`
/// for every other shape.
#[verifier::external_body]
fn value_as_array<'a>(v: &'a toml::Value) -> (r: Option<&'a Vec<toml::Value>>)
    ensures
        match val_view(*v) {
            TomlVal::Arr(items) => (r matches Some(a) && a@.len() == items.len() && (forall|
                j: int,
            |
                0 <= j < items.len() ==> val_view(#[trigger] a@[j]) == items[j])),
            _ => r is None,
        },
{
    v.as_array()
}

/// Relies on the `Display` rendering of `toml::Value`, used in messages
/// about values of a wrong type.  That rendering serializes the value and
/// unwraps the outcome; serialization fails only for Rust shapes a parsed
/// `Value` never contains, so no panic is reachable from values handed out
/// by `parse_toml`.
#[verifier::external_body]
fn value_render(v: &toml::Value) -> (r: String) {
    v.to_string()
}

/// Whether the characters, lowercased per ASCII, spell `name`.
pub open spec fn matches_name(s: Seq<char>, name: Seq<char>) -> bool {
    s.map_values(|c: char| lower_char(c)) == name
}

/// Compares the input against an enum value name, ignoring ASCII case.
fn eq_name(s: &Vec<char>, name: &str) -> (r: bool)
    ensures
        r == matches_name(s@, name@),
{
    let nm = chars_vec(name);
    let n = s.len();
    if n != nm.len() {
        proof {
            assert(s@.map_values(|c: char| lower_char(c)).len() == s@.len());
            assert(!matches_name(s@, name@));
        }
        return false;
    }
    let mut i: usize = 0;
    while i < n
        invariant
            0 <= i <= n,
            n == s@.len(),
            n == nm@.len(),
            nm@ == name@,
            forall|k: int| 0 <= k < i ==> lower_char(s@[k]) == name@[k],
        decreases n - i,
    {
        let c = crate::settings::ascii_lower(s[i]);
        if c != nm[i] {
            proof {
                assert(s@.map_values(|x: char| lower_char(x))[i as int] != name@[i as int]);
            }
            return false;
        }
        i += 1;
    }
    proof {
        assert(s@.map_values(|c: char| lower_char(c)) =~= name@);
    }
    true
}

/// The preset shapes a user can name in a file or on the command line.
#[derive(Clone, Copy, Debug, PartialEq, Eq, Structural)]
pub enum Preset {
    /// The built-in default shape.
    Default,
    /// Apple ID password rules.
    AppleID,
    /// Windows NTLMv1 limits.
    WindowsNtlmV1,
    /// Security question answers.
    SecurityQuestions,
    /// Sixteen-character web accounts.
    Web16,
    /// Thirty-two-character web accounts.
    Web32,
    /// Wi-Fi passphrases.
    Wifi,
    /// The classic four-word form.
    Xkcd,
}

/// The padding strategy names accepted in configuration.
#[derive(Clone, Copy, Debug, PartialEq, Eq, Structural)]
pub enum CliPadding {
    /// Explicit digit and symbol counts only.
    Fixed,
    /// Trim or extend to a target length.
    Adaptive,
}

/// The dictionary languages a user can name.
#[derive(Clone, Copy, Debug, PartialEq, Eq, Structural)]
pub enum Language {
    /// English word list.
    English,
    /// German word list.
    German,
    /// Spanish word list.
    Spanish,
    /// French word list.
    French,
    /// Portuguese word list.
    Portuguese,
}

/// The preset a name denotes, matching ignoring ASCII case.
pub open spec fn spec_parse_preset(s: Seq<char>) -> Option<Preset> {
    if matches_name(s, "default"@) {
        Some(Preset::Default)
    } else if matches_name(s, "apple-id"@) {
        Some(Preset::AppleID)
    } else if matches_name(s, "ntlm"@) {
        Some(Preset::WindowsNtlmV1)
    } else if matches_name(s, "secq"@) {
        Some(Preset::SecurityQuestions)
    } else if matches_name(s, "web16"@) {
        Some(Preset::Web16)
    } else if matches_name(s, "web32"@) {
        Some(Preset::Web32)
    } else if matches_name(s, "wifi"@) {
        Some(Preset::Wifi)
    } else if matches_name(s, "xkcd"@) {
        Some(Preset::Xkcd)
    } else {
        None
    }
}

/// Parses a preset name.
pub fn preset_from_str(s: &str) -> (r: Option<Preset>)
    ensures
        r == spec_parse_preset(s@),
{
    let cs = chars_vec(s);
    if eq_name(&cs, "default") {
        Some(Preset::Default)
    } else if eq_name(&cs, "apple-id") {
        Some(Preset::AppleID)
    } else if eq_name(&cs, "ntlm") {
        Some(Preset::WindowsNtlmV1)
    } else if eq_name(&cs, "secq") {
        Some(Preset::SecurityQuestions)
    } else if eq_name(&cs, "web16") {
        Some(Preset::Web16)
    } else if eq_name(&cs, "web32") {
        Some(Preset::Web32)
    } else if eq_name(&cs, "wifi") {
        Some(Preset::Wifi)
    } else if eq_name(&cs, "xkcd") {
        Some(Preset::Xkcd)
    } else {
        None
    }
}

/// The padding strategy a name denotes, matching ignoring ASCII case.
pub open spec fn spec_parse_padding(s: Seq<char>) -> Option<CliPadding> {
    if matches_name(s, "fixed"@) {
        Some(CliPadding::Fixed)
    } else if matches_name(s, "adaptive"@) {
        Some(CliPadding::Adaptive)
    } else {
        None
    }
}

/// Parses a padding strategy name.
pub fn padding_from_str(s: &str) -> (r: Option<CliPadding>)
    ensures
        r == spec_parse_padding(s@),
{
    let cs = chars_vec(s);
    if eq_name(&cs, "fixed") {
        Some(CliPadding::Fixed)
    } else if eq_name(&cs, "adaptive") {
        Some(CliPadding::Adaptive)
    } else {
        None
    }
}

/// The language a name denotes, matching ignoring ASCII case.
pub open spec fn spec_parse_language(s: Seq<char>) -> Option<Language> {
    if matches_name(s, "en"@) {
        Some(Language::English)
    } else if matches_name(s, "de"@) {
        Some(Language::German)
    } else if matches_name(s, "es"@) {
        Some(Language::Spanish)
    } else if matches_name(s, "fr"@) {
        Some(Language::French)
    } else if matches_name(s, "pt"@) {
        Some(Language::Portuguese)
    } else {
        None
    }
}

/// Parses a language name.
pub fn language_from_str(s: &str) -> (r: Option<Language>)
    ensures
        r == spec_parse_language(s@),
{
    let cs = chars_vec(s);
    if eq_name(&cs, "en") {
        Some(Language::English)
    } else if eq_name(&cs, "de") {
        Some(Language::German)
    } else if eq_name(&cs, "es") {
        Some(Language::Spanish)
    } else if eq_name(&cs, "fr") {
        Some(Language::French)
    } else if eq_name(&cs, "pt") {
        Some(Language::Portuguese)
    } else {
        None
    }
}

/// The casing transform a name denotes, matching ignoring ASCII case.
pub open spec fn spec_parse_transform(s: Seq<char>) -> Option<WordTransform> {
    if matches_name(s, "lowercase"@) {
        Some(WordTransform::Lowercase)
    } else if matches_name(s, "uppercase"@) {
        Some(WordTransform::Uppercase)
    } else if matches_name(s, "titlecase"@) {
        Some(WordTransform::Titlecase)
    } else if matches_name(s, "inverted-titlecase"@) {
        Some(WordTransform::InvertedTitlecase)
    } else {
        None
    }
}

/// Parses a casing transform name.
pub fn transform_from_str(s: &str) -> (r: Option<WordTransform>)
    ensures
        r == spec_parse_transform(s@),
{
    let cs = chars_vec(s);
    if eq_name(&cs, "lowercase") {
        Some(WordTransform::Lowercase)
    } else if eq_name(&cs, "uppercase") {
        Some(WordTransform::Uppercase)
    } else if eq_name(&cs, "titlecase") {
        Some(WordTransform::Titlecase)
    } else if eq_name(&cs, "inverted-titlecase") {
        Some(WordTransform::InvertedTitlecase)
    } else {
        None
    }
}

/// The message reported for an unknown enum name.
pub fn invalid_variant_message(s: &str) -> (r: String)
    ensures
        r@ == "invalid variant: "@ + s@,
{
    let mut m = String::from_str("invalid variant: ");
    m.append(s);
    m
}

/// Looks a string field up; `None` when absent or of another type.
pub fn get_str(config: &toml::Value, field: &str) -> (r: Option<String>)
    ensures
        match str_field(val_view(*config), field@) {
            Some(s) => (r matches Some(x) && x@ == s),
            None => r is None,
        },
{
    match value_get(config, field) {
        None => None,
        Some(v) => value_as_str(v),
    }
}

/// Looks an integer field up as its absolute value; `None` when absent or
/// of another type.
pub fn get_number(config: &toml::Value, field: &str) -> (r: Option<u64>)
    ensures
        match int_field(val_view(*config), field@) {
            Some(i) => (r matches Some(u) && u == abs_i64(i)),
            None => r is None,
        },
{
    let v = match value_get(config, field) {
        None => {
            return None;
        },
        Some(v) => v,
    };
    let i = match value_as_integer(v) {
        None => {
            return None;
        },
        Some(i) => i,
    };
    if i >= 0 {
        Some(i as u64)
    } else {
        Some((-(i as i128)) as u64)
    }
}

/// Looks an array of strings up.  A missing field or one of another type is
/// `Ignore`; a member that is not a string is an `InvalidConfig` naming the
/// field, with the offending member rendered into the message.
pub fn get_str_arr(config: &toml::Value, field: &str) -> (r: Result<Vec<String>, ConfigParseError>)
    ensures
        match arr_field(val_view(*config), field@) {
            None => (r matches Err(e) && e is Ignore),
            Some(items) => if first_non_str(items, 0) >= items.len() {
                (r matches Ok(ws) && ws.deep_view() == str_items(items))
            } else {
                (r matches Err(e) && e matches ConfigParseError::InvalidConfig(f, m) && f@
                    == field@ && (exists|txt: Seq<char>|
                    m@ == "Invalid data type, expect string but got '"@ + txt + "'"@))
            },
        },
{
    let items = match value_get(config, field) {
        None => {
            return Err(ConfigParseError::Ignore);
        },
        Some(v) => match value_as_array(v) {
            None => {
                return Err(ConfigParseError::Ignore);
            },
            Some(items) => items,
        },
    };
    let ghost shape = match arr_field(val_view(*config), field@) {
        Some(items) => items,
        None => Seq::empty(),
    };
    let mut out: Vec<String> = Vec::new();
    proof {
        assert(out.deep_view() =~= str_items(shape).take(0));
    }
    let n = items.len();
    let mut i: usize = 0;
    while i < n
        invariant
            0 <= i <= n,
            n == items@.len(),
            n == shape.len(),
            arr_field(val_view(*config), field@) == Some(shape),
            forall|j: int| 0 <= j < n ==> val_view(#[trigger] items@[j]) == shape[j],
            first_non_str(shape, 0) == first_non_str(shape, i as int),
            out.deep_view() == str_items(shape).take(i as int),
        decreases n - i,
    {
        match value_as_str(&items[i]) {
            Some(s) => {
                let ghost before = out.deep_view();
                out.push(s);
                i += 1;
                proof {
                    assert(out.deep_view() =~= before.push(s@));
                    assert(str_items(shape).take(i as int) =~= str_items(shape).take(
                        i as int - 1,
                    ).push(str_of(shape[i as int - 1])));
                }
            },
            None => {
                let mut m = String::from_str("Invalid data type, expect string but got '");
                let rendered = value_render(&items[i]);
                m.append(rendered.as_str());
                m.append("'");
                proof {
                    let txt = rendered@;
                    assert(m@ == "Invalid data type, expect string but got '"@ + txt + "'"@);
                }
                return Err(ConfigParseError::InvalidConfig(String::from_str(field), m));
            },
        }
    }
    proof {
        assert(str_items(shape).take(n as int) =~= str_items(shape));
    }
    Ok(out)
}

/// A number option: the file value, unless the command line already set the
/// option or the field is absent or of another type.
pub fn parse_number_config(ignore: bool, config: &toml::Value, field: &str) -> (r: Option<u64>)
    ensures
        ignore ==> r is None,
        !ignore ==> match int_field(val_view(*config), field@) {
            Some(i) => (r matches Some(u) && u == abs_i64(i)),
            None => r is None,
        },
{
    if ignore {
        None
    } else {
        get_number(config, field)
    }
}

/// A string option: as `parse_number_config`, for string fields.
pub fn parse_str_config(ignore: bool, config: &toml::Value, field: &str) -> (r: Option<String>)
    ensures
        ignore ==> r is None,
        !ignore ==> match str_field(val_view(*config), field@) {
            Some(s) => (r matches Some(x) && x@ == s),
            None => r is None,
        },
{
    if ignore {
        None
    } else {
        get_str(config, field)
    }
}

/// The transform list of the `transforms` field.  A missing or non-array
/// field contributes nothing; a non-string member or an unknown transform
/// name is an `InvalidConfig` naming the field, reporting the first
/// offender.
pub fn parse_transforms(ignore: bool, config: &toml::Value) -> (r: Result<
    Option<Vec<WordTransform>>,
    ConfigParseError,
>)
    ensures
        ignore ==> (r matches Ok(o) && o is None),
        !ignore ==> match arr_field(val_view(*config), "transforms"@) {
            None => (r matches Ok(o) && o is None),
            Some(items) => if first_non_str(items, 0) < items.len() {
                (r matches Err(e) && e matches ConfigParseError::InvalidConfig(f, m) && f@
                    == "transforms"@ && (exists|txt: Seq<char>|
                    m@ == "Invalid data type, expect string but got '"@ + txt + "'"@))
            } else if first_unknown(str_items(items), 0) < items.len() {
                (r matches Err(e) && e matches ConfigParseError::InvalidConfig(f, m) && f@
                    == "transforms"@ && m@ == "invalid variant: "@ + str_items(items)[first_unknown(
                    str_items(items),
                    0,
                )])
            } else {
                (r matches Ok(o) && o matches Some(v) && v@.len() == items.len() && (forall|k: int|
                    0 <= k < items.len() ==> Some(#[trigger] v@[k]) == spec_parse_transform(
                        str_of(items[k]),
                    )))
            },
        },
{
    if ignore {
        return Ok(None);
    }
    proof {
        reveal_strlit("transforms");
    }
    let raw = match get_str_arr(config, "transforms") {
        Err(e) => {
            return match e {
                ConfigParseError::Ignore => Ok(None),
                ConfigParseError::InvalidFile(m) => Err(
                    ConfigParseError::InvalidConfig(String::from_str("transforms"), m),
                ),
                ConfigParseError::InvalidConfig(f, m) => Err(
                    ConfigParseError::InvalidConfig(f, m),
                ),
            };
        },
        Ok(items) => items,
    };
    let ghost shape = match arr_field(val_view(*config), "transforms"@) {
        Some(items) => items,
        None => Seq::empty(),
    };
    let ghost ss = str_items(shape);
    let mut out: Vec<WordTransform> = Vec::new();
    let n = raw.len();
    let mut i: usize = 0;
    while i < n
        invariant
            !ignore,
            0 <= i <= n,
            n == raw@.len(),
            n == ss.len(),
            raw.deep_view() == ss,
            arr_field(val_view(*config), "transforms"@) == Some(shape),
            first_non_str(shape, 0) >= shape.len(),
            ss == str_items(shape),
            first_unknown(ss, 0) == first_unknown(ss, i as int),
            out@.len() == i,
            forall|k: int| 0 <= k < i ==> Some(#[trigger] out@[k]) == spec_parse_transform(ss[k]),
        decreases n - i,
    {
        proof {
            assert(raw.deep_view()[i as int] == raw@[i as int]@);
            assert(raw@[i as int]@ == ss[i as int]);
        }
        match transform_from_str(raw[i].as_str()) {
            Some(t) => {
                out.push(t);
            },
            None => {
                let m = invalid_variant_message(raw[i].as_str());
                return Err(ConfigParseError::InvalidConfig(String::from_str("transforms"), m));
            },
        }
        i += 1;
    }
    Ok(Some(out))
}

/// A preset option: the parsed file value, an error for an unknown name.
pub fn parse_preset_config(ignore: bool, config: &toml::Value, field: &str) -> (r: Result<
    Option<Preset>,
    ConfigParseError,
>)
    ensures
        ignore ==> (r matches Ok(o) && o is None),
        !ignore ==> match str_field(val_view(*config), field@) {
            None => (r matches Ok(o) && o is None),
            Some(s) => match spec_parse_preset(s) {
                Some(p) => (r matches Ok(o) && o == Some(p)),
                None => (r matches Err(e) && e matches ConfigParseError::InvalidConfig(f, m) && f@
                    == field@ && m@ == "invalid variant: "@ + s),
            },
        },
{
    if ignore {
        return Ok(None);
    }
    match get_str(config, field) {
        None => Ok(None),
        Some(s) => match preset_from_str(s.as_str()) {
            Some(p) => Ok(Some(p)),
            None => Err(
                ConfigParseError::InvalidConfig(
                    String::from_str(field),
                    invalid_variant_message(s.as_str()),
                ),
            ),
        },
    }
}

/// A padding option: as `parse_preset_config`, for the padding names.
pub fn parse_padding_config(ignore: bool, config: &toml::Value, field: &str) -> (r: Result<
    Option<CliPadding>,
    ConfigParseError,
>)
    ensures
        ignore ==> (r matches Ok(o) && o is None),
        !ignore ==> match str_field(val_view(*config), field@) {
            None => (r matches Ok(o) && o is None),
            Some(s) => match spec_parse_padding(s) {
                Some(p) => (r matches Ok(o) && o == Some(p)),
                None => (r matches Err(e) && e matches ConfigParseError::InvalidConfig(f, m) && f@
                    == field@ && m@ == "invalid variant: "@ + s),
            },
        },
{
    if ignore {
        return Ok(None);
    }
    match get_str(config, field) {
        None => Ok(None),
        Some(s) => match padding_from_str(s.as_str()) {
            Some(p) => Ok(Some(p)),
            None => Err(
                ConfigParseError::InvalidConfig(
                    String::from_str(field),
                    invalid_variant_message(s.as_str()),
                ),
            ),
        },
    }
}

/// A language option: as `parse_preset_config`, for the language names.
pub fn parse_language_config(ignore: bool, config: &toml::Value, field: &str) -> (r: Result<
    Option<Language>,
    ConfigParseError,
>)
    ensures
        ignore ==> (r matches Ok(o) && o is None),
        !ignore ==> match str_field(val_view(*config), field@) {
            None => (r matches Ok(o) && o is None),
            Some(s) => match spec_parse_language(s) {
                Some(p) => (r matches Ok(o) && o == Some(p)),
                None => (r matches Err(e) && e matches ConfigParseError::InvalidConfig(f, m) && f@
                    == field@ && m@ == "invalid variant: "@ + s),
            },
        },
{
    if ignore {
        return Ok(None);
    }
    match get_str(config, field) {
        None => Ok(None),
        Some(s) => match language_from_str(s.as_str()) {
            Some(p) => Ok(Some(p)),
            None => Err(
                ConfigParseError::InvalidConfig(
                    String::from_str(field),
                    invalid_variant_message(s.as_str()),
                ),
            ),
        },
    }
}

/// Command-line options before defaults are applied: `None` means the user
/// did not set the option there.
pub struct CliConfig {
    /// How many words.
    pub words_count: Option<u8>,
    /// Smallest eligible word length.
    pub word_length_min: Option<u8>,
    /// Largest eligible word length.
    pub word_length_max: Option<u8>,
    /// Casing transforms.
    pub word_transforms: Option<Vec<WordTransform>>,
    /// Separator alphabet.
    pub separators: Option<String>,
    /// Padding digits before the words.
    pub padding_digits_before: Option<u8>,
    /// Padding digits after the words.
    pub padding_digits_after: Option<u8>,
    /// Symbol alphabet for padding.
    pub padding_symbols: Option<String>,
    /// Padding symbols before everything.
    pub padding_symbols_before: Option<u8>,
    /// Padding symbols after everything.
    pub padding_symbols_after: Option<u8>,
    /// Fixed or adaptive padding.
    pub padding: Option<CliPadding>,
    /// Chosen preset.
    pub preset: Option<Preset>,
    /// Chosen dictionary language.
    pub language: Option<Language>,
}

/// How a number option merges: the command line wins; else the absolute
/// value of the document's integer field, truncated to eight bits; else the
/// option stays unset.
pub open spec fn num_merged(before: Option<u8>, after: Option<u8>, doc: TomlVal, key: Seq<char>) -> bool {
    match before {
        Some(v) => after == Some(v),
        None => match int_field(doc, key) {
            Some(i) => after == Some(((abs_i64(i) as u64) as u8)),
            None => after is None,
        },
    }
}

/// How a string option merges.
pub open spec fn str_merged(
    before: Option<String>,
    after: Option<String>,
    doc: TomlVal,
    key: Seq<char>,
) -> bool {
    match before {
        Some(_) => after == before,
        None => match str_field(doc, key) {
            Some(s) => (after matches Some(x) && x@ == s),
            None => after is None,
        },
    }
}

/// How the transforms option merges when its field is usable.
pub open spec fn transforms_merged(
    before: Option<Vec<WordTransform>>,
    after: Option<Vec<WordTransform>>,
    doc: TomlVal,
) -> bool {
    match before {
        Some(_) => after == before,
        None => match arr_field(doc, "transforms"@) {
            None => after is None,
            Some(items) => (after matches Some(v) && v@.len() == items.len() && (forall|k: int|
                0 <= k < items.len() ==> Some(#[trigger] v@[k]) == spec_parse_transform(
                    str_of(items[k]),
                ))),
        },
    }
}

/// Whether the transforms field is present but unusable: a non-string
/// member or an unknown name.
pub open spec fn transforms_bad(before: Option<Vec<WordTransform>>, doc: TomlVal) -> bool {
    before is None && match arr_field(doc, "transforms"@) {
        None => false,
        Some(items) => first_non_str(items, 0) < items.len() || first_unknown(str_items(items), 0)
            < items.len(),
    }
}

/// How the padding option merges when its field is usable.
pub open spec fn padding_merged(
    before: Option<CliPadding>,
    after: Option<CliPadding>,
    doc: TomlVal,
) -> bool {
    match before {
        Some(_) => after == before,
        None => match str_field(doc, "padding"@) {
            None => after is None,
            Some(s) => after == spec_parse_padding(s),
        },
    }
}

/// Whether the padding field holds an unknown name.
pub open spec fn padding_bad(before: Option<CliPadding>, doc: TomlVal) -> bool {
    before is None && (str_field(doc, "padding"@) matches Some(s) && spec_parse_padding(s)
        is None)
}

/// How the preset option merges when its field is usable.
pub open spec fn preset_merged(before: Option<Preset>, after: Option<Preset>, doc: TomlVal) -> bool {
    match before {
        Some(_) => after == before,
        None => match str_field(doc, "preset"@) {
            None => after is None,
            Some(s) => after == spec_parse_preset(s),
        },
    }
}

/// Whether the preset field holds an unknown name.
pub open spec fn preset_bad(before: Option<Preset>, doc: TomlVal) -> bool {
    before is None && (str_field(doc, "preset"@) matches Some(s) && spec_parse_preset(s) is None)
}

/// How the language option merges when its field is usable.
pub open spec fn language_merged(
    before: Option<Language>,
    after: Option<Language>,
    doc: TomlVal,
) -> bool {
    match before {
        Some(_) => after == before,
        None => match str_field(doc, "lang"@) {
            None => after is None,
            Some(s) => after == spec_parse_language(s),
        },
    }
}

/// Whether the lang field holds an unknown name.
pub open spec fn language_bad(before: Option<Language>, doc: TomlVal) -> bool {
    before is None && (str_field(doc, "lang"@) matches Some(s) && spec_parse_language(s) is None)
}

/// The outcome of merging one parsed document into the options: numbers and
/// strings always merge; the first unusable enum field in processing order
/// (transforms, padding, preset, lang) stops the merge with `InvalidConfig`
/// naming it, leaving the fields after it untouched; with no unusable field
/// everything merges and the result is `Ok`.
pub open spec fn merge_outcome(
    before: CliConfig,
    after: CliConfig,
    doc: TomlVal,
    r: Result<(), ConfigParseError>,
) -> bool {
    &&& num_merged(before.words_count, after.words_count, doc, "words_count"@)
    &&& num_merged(before.word_length_min, after.word_length_min, doc, "word_min"@)
    &&& num_merged(before.word_length_max, after.word_length_max, doc, "word_max"@)
    &&& (transforms_bad(before.word_transforms, doc) ==> (r matches Err(e) && e matches
        ConfigParseError::InvalidConfig(f, m) && f@ == "transforms"@ && after.word_transforms
        == before.word_transforms && after.separators == before.separators
        && after.padding_digits_before == before.padding_digits_before
        && after.padding_digits_after == before.padding_digits_after && after.padding_symbols
        == before.padding_symbols && after.padding_symbols_before == before.padding_symbols_before
        && after.padding_symbols_after == before.padding_symbols_after && after.padding
        == before.padding && after.preset == before.preset && after.language == before.language))
    &&& (!transforms_bad(before.word_transforms, doc) ==> {
        &&& transforms_merged(before.word_transforms, after.word_transforms, doc)
        &&& str_merged(before.separators, after.separators, doc, "separators"@)
        &&& num_merged(before.padding_digits_before, after.padding_digits_before, doc, "digits_before"@)
        &&& num_merged(before.padding_digits_after, after.padding_digits_after, doc, "digits_after"@)
        &&& str_merged(before.padding_symbols, after.padding_symbols, doc, "symbols"@)
        &&& num_merged(before.padding_symbols_before, after.padding_symbols_before, doc, "symbols_before"@)
        &&& num_merged(before.padding_symbols_after, after.padding_symbols_after, doc, "symbols_after"@)
        &&& (padding_bad(before.padding, doc) ==> (r matches Err(e) && e matches
            ConfigParseError::InvalidConfig(f, m) && f@ == "padding"@ && after.padding
            == before.padding && after.preset == before.preset && after.language
            == before.language))
        &&& (!padding_bad(before.padding, doc) ==> {
            &&& padding_merged(before.padding, after.padding, doc)
            &&& (preset_bad(before.preset, doc) ==> (r matches Err(e) && e matches
                ConfigParseError::InvalidConfig(f, m) && f@ == "preset"@ && after.preset
                == before.preset && after.language == before.language))
            &&& (!preset_bad(before.preset, doc) ==> {
                &&& preset_merged(before.preset, after.preset, doc)
                &&& (language_bad(before.language, doc) ==> (r matches Err(e) && e matches
                    ConfigParseError::InvalidConfig(f, m) && f@ == "lang"@ && after.language
                    == before.language))
                &&& (!language_bad(before.language, doc) ==> {
                    &&& language_merged(before.language, after.language, doc)
                    &&& r is Ok
                })
            })
        })
    })
}

impl CliConfig {
    /// Merges the three word-count and word-length fields; everything else
    /// stays untouched.
    fn merge_counts(&mut self, config: &toml::Value)
        ensures
            num_merged(
                old(self).words_count,
                final(self).words_count,
                val_view(*config),
                "words_count"@,
            ),
            num_merged(
                old(self).word_length_min,
                final(self).word_length_min,
                val_view(*config),
                "word_min"@,
            ),
            num_merged(
                old(self).word_length_max,
                final(self).word_length_max,
                val_view(*config),
                "word_max"@,
            ),
            final(self).word_transforms == old(self).word_transforms,
            final(self).separators == old(self).separators,
            final(self).padding_digits_before == old(self).padding_digits_before,
            final(self).padding_digits_after == old(self).padding_digits_after,
            final(self).padding_symbols == old(self).padding_symbols,
            final(self).padding_symbols_before == old(self).padding_symbols_before,
            final(self).padding_symbols_after == old(self).padding_symbols_after,
            final(self).padding == old(self).padding,
            final(self).preset == old(self).preset,
            final(self).language == old(self).language,
    {
        if let Some(v) = parse_number_config(self.words_count.is_some(), config, "words_count") {
            self.words_count = Some(v as u8);
        }
        if let Some(v) = parse_number_config(self.word_length_min.is_some(), config, "word_min") {
            self.word_length_min = Some(v as u8);
        }
        if let Some(v) = parse_number_config(self.word_length_max.is_some(), config, "word_max") {
            self.word_length_max = Some(v as u8);
        }
    }

    /// Merges the separator and padding-material fields; everything else
    /// stays untouched.
    fn merge_shape(&mut self, config: &toml::Value)
        ensures
            str_merged(
                old(self).separators,
                final(self).separators,
                val_view(*config),
                "separators"@,
            ),
            num_merged(
                old(self).padding_digits_before,
                final(self).padding_digits_before,
                val_view(*config),
                "digits_before"@,
            ),
            num_merged(
                old(self).padding_digits_after,
                final(self).padding_digits_after,
                val_view(*config),
                "digits_after"@,
            ),
            str_merged(
                old(self).padding_symbols,
                final(self).padding_symbols,
                val_view(*config),
                "symbols"@,
            ),
            num_merged(
                old(self).padding_symbols_before,
                final(self).padding_symbols_before,
                val_view(*config),
                "symbols_before"@,
            ),
            num_merged(
                old(self).padding_symbols_after,
                final(self).padding_symbols_after,
                val_view(*config),
                "symbols_after"@,
            ),
            final(self).words_count == old(self).words_count,
            final(self).word_length_min == old(self).word_length_min,
            final(self).word_length_max == old(self).word_length_max,
            final(self).word_transforms == old(self).word_transforms,
            final(self).padding == old(self).padding,
            final(self).preset == old(self).preset,
            final(self).language == old(self).language,
    {
        if let Some(v) = parse_str_config(self.separators.is_some(), config, "separators") {
            self.separators = Some(v);
        }
        if let Some(v) = parse_number_config(
            self.padding_digits_before.is_some(),
            config,
            "digits_before",
        ) {
            self.padding_digits_before = Some(v as u8);
        }
        if let Some(v) = parse_number_config(
            self.padding_digits_after.is_some(),
            config,
            "digits_after",
        ) {
            self.padding_digits_after = Some(v as u8);
        }
        if let Some(v) = parse_str_config(self.padding_symbols.is_some(), config, "symbols") {
            self.padding_symbols = Some(v);
        }
        if let Some(v) = parse_number_config(
            self.padding_symbols_before.is_some(),
            config,
            "symbols_before",
        ) {
            self.padding_symbols_before = Some(v as u8);
        }
        if let Some(v) = parse_number_config(
            self.padding_symbols_after.is_some(),
            config,
            "symbols_after",
        ) {
            self.padding_symbols_after = Some(v as u8);
        }
    }

    /// Folds one parsed document into the options, as `merge_outcome` says.
    #[verifier::rlimit(100)]
    fn merge_from_doc(&mut self, config: &toml::Value) -> (r: Result<(), ConfigParseError>)
        ensures
            merge_outcome(*old(self), *final(self), val_view(*config), r),
    {
        self.merge_counts(config);
        match parse_transforms(self.word_transforms.is_some(), config) {
            Err(e) => {
                return Err(e);
            },
            Ok(Some(ts)) => {
                self.word_transforms = Some(ts);
            },
            Ok(None) => {},
        }
        self.merge_shape(config);
        match parse_padding_config(self.padding.is_some(), config, "padding") {
            Err(e) => {
                return Err(e);
            },
            Ok(Some(p)) => {
                self.padding = Some(p);
            },
            Ok(None) => {},
        }
        match parse_preset_config(self.preset.is_some(), config, "preset") {
            Err(e) => {
                return Err(e);
            },
            Ok(Some(p)) => {
                self.preset = Some(p);
            },
            Ok(None) => {},
        }
        match parse_language_config(self.language.is_some(), config, "lang") {
            Err(e) => {
                return Err(e);
            },
            Ok(Some(l)) => {
                self.language = Some(l);
            },
            Ok(None) => {},
        }
        Ok(())
    }
}

impl ConfigParser for CliConfig {
    /// Merges the configuration file into the options.  A field set on the
    /// command line always wins; a missing file is `Ignore`; an unreadable
    /// or unparsable file is `InvalidFile` and changes nothing; a usable
    /// document is adopted field by field, the first unusable field in
    /// processing order stopping the merge, as `merge_outcome` says.
    #[verifier::rlimit(100)]
    fn parse_config_file(&mut self, source: ConfigSource) -> (r: Result<(), ConfigParseError>)
        ensures
            old(self).words_count is Some ==> final(self).words_count == old(self).words_count,
            old(self).word_length_min is Some ==> final(self).word_length_min == old(self).word_length_min,
            old(self).word_length_max is Some ==> final(self).word_length_max == old(self).word_length_max,
            old(self).word_transforms is Some ==> final(self).word_transforms == old(self).word_transforms,
            old(self).separators is Some ==> final(self).separators == old(self).separators,
            old(self).padding_digits_before is Some ==> final(self).padding_digits_before == old(self).padding_digits_before,
            old(self).padding_digits_after is Some ==> final(self).padding_digits_after == old(self).padding_digits_after,
            old(self).padding_symbols is Some ==> final(self).padding_symbols == old(self).padding_symbols,
            old(self).padding_symbols_before is Some ==> final(self).padding_symbols_before == old(self).padding_symbols_before,
            old(self).padding_symbols_after is Some ==> final(self).padding_symbols_after == old(self).padding_symbols_after,
            old(self).padding is Some ==> final(self).padding == old(self).padding,
            old(self).preset is Some ==> final(self).preset == old(self).preset,
            old(self).language is Some ==> final(self).language == old(self).language,
            source is NotFound ==> (r matches Err(e) && e is Ignore && *final(self) == *old(self)),
            source matches ConfigSource::Unreadable(m) ==> (r matches Err(e) && e matches
                ConfigParseError::InvalidFile(m2) && m2@ == m@ && *final(self) == *old(self)),
            source matches ConfigSource::Found(data) ==> match toml_doc(data@) {
                None => (r matches Err(e) && e is InvalidFile && *final(self) == *old(self)),
                Some(doc) => merge_outcome(*old(self), *final(self), doc, r),
            },
    {
        let data = match source {
            ConfigSource::NotFound => {
                return Err(ConfigParseError::Ignore);
            },
            ConfigSource::Unreadable(m) => {
                return Err(ConfigParseError::InvalidFile(m));
            },
            ConfigSource::Found(data) => data,
        };
        let config = match parse_toml(data.as_str()) {
            Err(m) => {
                return Err(ConfigParseError::InvalidFile(m));
            },
            Ok(v) => v,
        };
        self.merge_from_doc(&config)
    }
}

} // verus!
