//! Reading configurations from TOML.

use vstd::prelude::*;

use crate::config::load::{
    assemble, config_problem, config_view, dir_config, first_of, name_ordered, sort_by_name, validate, ConfigError,
    ConfigErrorV, Listener, ListenerFile, ListenerFileV, RouteFile, RouteFileV, SourceFile, SourceFileV,
    Surroundings, SurroundingsV,
};
use crate::config::{
    default_gateway, ChunkMode, Config, ConfigV, Gateway, GatewayV, Hook, OnError, Oversize, Route,
    RouteAdapter, RouteAdapterV, RouteV, ScriptMode, Step, StepType, StepV, Translate, TranslateV, UrlMode,
};
use crate::json::{all_texts, from_value, held_outcome, outcome, seq_view, string_items, texts_in, Json, JsonV};
use crate::shape::{find_word, laid_out, lay_out, pick, word_at, word_in};
use crate::text::{
    ascending, concat3, concat4, in_order, is_one_of, lemma_in_order, lemma_order_exists, opt_view, same,
    strs, texts, views,
};

verus! {

/// How long a step may take, in milliseconds, where nothing is configured.
pub const DEFAULT_TIMEOUT_MS: u64 = 1000;

/// What `toml::from_str` reads from a text: the document, or the text of its error.
pub uninterp spec fn toml_read(text: Seq<char>) -> Result<JsonV, Seq<char>>;

/// Calls `toml::from_str` for a `serde_json::Value`: the result is a function of the
/// text alone, an error given by its text.
#[verifier::external_body]
fn read_toml(text: &str) -> (r: Result<serde_json::Value, String>)
    ensures
        held_outcome(r) == toml_read(text@),
{
    toml::from_str(text).map_err(|e| e.to_string())
}

/// Reads a TOML document.
pub fn parse_toml(text: &str) -> (r: Result<Json, String>)
    ensures
        outcome(r) == toml_read(text@),
{
    match read_toml(text) {
        Ok(v) => Ok(from_value(&v)),
        Err(e) => Err(e),
    }
}

/// The message for a value of the wrong shape. Like the other messages of this
/// module it names the key; where in the text it stands, the value does not say.
pub open spec fn invalid(key: Seq<char>) -> Seq<char> {
    "invalid value for `"@ + key + "`"@
}

/// The message for a value that is not there.
pub open spec fn missing(key: Seq<char>) -> Seq<char> {
    "missing field `"@ + key + "`"@
}

/// The message for a key that has no meaning.
pub open spec fn unknown(key: Seq<char>) -> Seq<char> {
    "unknown field `"@ + key + "`"@
}

fn say_invalid(key: &str) -> (r: String)
    ensures
        r@ == invalid(key@),
{
    concat3("invalid value for `", key, "`")
}

fn say_missing(key: &str) -> (r: String)
    ensures
        r@ == missing(key@),
{
    concat3("missing field `", key, "`")
}

/// The first of some keys that is not among the known ones.
pub open spec fn first_unlisted(keys: Seq<Seq<char>>, known: Seq<Seq<char>>) -> Option<Seq<char>>
    decreases keys.len(),
{
    if keys.len() == 0 {
        None
    } else if !known.contains(keys[0]) {
        Some(keys[0])
    } else {
        first_unlisted(keys.drop_first(), known)
    }
}

/// What is wrong with a value as a table of the known keys.
pub open spec fn table_fault(v: JsonV, known: Seq<Seq<char>>) -> Option<Seq<char>> {
    match v {
        JsonV::Object(m) => match first_unlisted(in_order(m.dom()), known) {
            Some(key) => Some(unknown(key)),
            None => None,
        },
        _ => Some("expected a table"@),
    }
}

fn check_table(v: &Json, known: &[&str]) -> (r: Option<String>)
    ensures
        opt_view(r) == table_fault(v@, strs(known@)),
{
    match v {
        Json::Object(m) => {
            let n = m.len();
            let ghost order = in_order(m@.dom());
            assert(order.skip(0) == order);
            let mut i: usize = 0;
            while i < n
                invariant
                    i <= n,
                    n == order.len(),
                    order == in_order(m@.dom()),
                    v@ == JsonV::Object(m@),
                    first_unlisted(order, strs(known@)) == first_unlisted(
                        order.skip(i as int),
                        strs(known@),
                    ),
                decreases n - i,
            {
                let key = m.key_at(i);
                assert(order.skip(i as int)[0] == key@);
                assert(order.skip(i as int).drop_first() == order.skip(i + 1));
                if !is_one_of(key.as_str(), known) {
                    return Some(concat3("unknown field `", key.as_str(), "`"));
                }
                i += 1;
            }
            None
        },
        _ => Some("expected a table".to_owned()),
    }
}

/// What is wrong with a text that may be left out.
pub open spec fn text_fault(v: JsonV, key: Seq<char>) -> Option<Seq<char>> {
    match v.get(key) {
        None => None,
        Some(JsonV::Str(_)) => None,
        Some(_) => Some(invalid(key)),
    }
}

fn text_at(v: &Json, key: &str) -> (r: Result<Option<String>, String>)
    ensures
        match r {
            Ok(s) => text_fault(v@, key@) is None && opt_view(s) == v@.text_at(key@),
            Err(e) => text_fault(v@, key@) == Some(e@),
        },
{
    match v.get(key) {
        None => Ok(None),
        Some(Json::Str(s)) => Ok(Some(s.clone())),
        Some(_) => Err(say_invalid(key)),
    }
}

/// What is wrong with a text that must be there.
pub open spec fn needed_text_fault(v: JsonV, key: Seq<char>) -> Option<Seq<char>> {
    match v.get(key) {
        None => Some(missing(key)),
        Some(JsonV::Str(_)) => None,
        Some(_) => Some(invalid(key)),
    }
}

/// A text that must be there.
pub open spec fn needed_text(v: JsonV, key: Seq<char>) -> Seq<char> {
    match v.text_at(key) {
        Some(s) => s,
        None => Seq::empty(),
    }
}

fn needed_text_at(v: &Json, key: &str) -> (r: Result<String, String>)
    ensures
        match r {
            Ok(s) => needed_text_fault(v@, key@) is None && s@ == needed_text(v@, key@),
            Err(e) => needed_text_fault(v@, key@) == Some(e@),
        },
{
    match v.get(key) {
        None => Err(say_missing(key)),
        Some(Json::Str(s)) => Ok(s.clone()),
        Some(_) => Err(say_invalid(key)),
    }
}

/// What is wrong with a switch that may be left out.
pub open spec fn switch_fault(v: JsonV, key: Seq<char>) -> Option<Seq<char>> {
    match v.get(key) {
        None => None,
        Some(JsonV::Bool(_)) => None,
        Some(_) => Some(invalid(key)),
    }
}

/// A switch: off where it is left out.
pub open spec fn switch(v: JsonV, key: Seq<char>) -> bool {
    match v.get(key) {
        Some(JsonV::Bool(b)) => b,
        _ => false,
    }
}

fn switch_at(v: &Json, key: &str) -> (r: Result<bool, String>)
    ensures
        match r {
            Ok(b) => switch_fault(v@, key@) is None && b == switch(v@, key@),
            Err(e) => switch_fault(v@, key@) == Some(e@),
        },
{
    match v.get(key) {
        None => Ok(false),
        Some(Json::Bool(b)) => Ok(*b),
        Some(_) => Err(say_invalid(key)),
    }
}

/// What is wrong with a number that may be left out.
pub open spec fn number_fault(v: JsonV, key: Seq<char>, max: nat) -> Option<Seq<char>> {
    match v.get(key) {
        None => None,
        Some(x) => match x.uint() {
            Some(n) => if n <= max {
                None
            } else {
                Some(invalid(key))
            },
            None => Some(invalid(key)),
        },
    }
}

fn number_at(v: &Json, key: &str, max: u64) -> (r: Result<Option<u64>, String>)
    ensures
        match r {
            Ok(n) => number_fault(v@, key@, max as nat) is None && n == v@.uint_at(key@) && (n matches Some(
                k,
            ) ==> k <= max),
            Err(e) => number_fault(v@, key@, max as nat) == Some(e@),
        },
{
    match v.get(key) {
        None => Ok(None),
        Some(x) => match x.as_u64() {
            Some(n) => if n <= max {
                Ok(Some(n))
            } else {
                Err(say_invalid(key))
            },
            None => Err(say_invalid(key)),
        },
    }
}

/// A number, or another where it is left out.
pub open spec fn number_or(v: JsonV, key: Seq<char>, default: u64) -> u64 {
    match v.uint_at(key) {
        Some(n) => n,
        None => default,
    }
}

/// What is wrong with a list of texts that may be left out.
pub open spec fn list_fault(v: JsonV, key: Seq<char>) -> Option<Seq<char>> {
    match v.get(key) {
        None => None,
        Some(JsonV::Array(items)) => if all_texts(items) {
            None
        } else {
            Some(invalid(key))
        },
        Some(_) => Some(invalid(key)),
    }
}

/// A list of texts: empty where it is left out.
pub open spec fn list(v: JsonV, key: Seq<char>) -> Seq<Seq<char>> {
    match v.items_at(key) {
        Some(items) => string_items(items),
        None => Seq::empty(),
    }
}

fn list_at(v: &Json, key: &str) -> (r: Result<Vec<String>, String>)
    ensures
        match r {
            Ok(l) => list_fault(v@, key@) is None && views(l@) == list(v@, key@),
            Err(e) => list_fault(v@, key@) == Some(e@),
        },
{
    match v.get(key) {
        None => {
            let none: Vec<String> = Vec::new();
            assert(views(none@) == Seq::<Seq<char>>::empty());
            Ok(none)
        },
        Some(Json::Array(items)) => match texts_in(items) {
            Some(found) => {
                assert(views(found@) == texts(found@));
                Ok(found)
            },
            None => Err(say_invalid(key)),
        },
        Some(_) => Err(say_invalid(key)),
    }
}

/// The `Hook` that a word names.
pub open spec fn hook_word(word: Seq<char>) -> Option<Hook> {
    if word == "on_request"@ {
        Some(Hook::OnRequest)
    } else if word == "on_response"@ {
        Some(Hook::OnResponse)
    } else if word == "on_stream"@ {
        Some(Hook::OnStream)
    } else {
        None
    }
}

fn hook_named(word: &str) -> (r: Option<Hook>)
    ensures
        r == hook_word(word@),
{
    if same(word, "on_request") {
        Some(Hook::OnRequest)
    } else if same(word, "on_response") {
        Some(Hook::OnResponse)
    } else if same(word, "on_stream") {
        Some(Hook::OnStream)
    } else {
        None
    }
}

/// What is wrong with a `Hook` that may be left out.
pub open spec fn hook_fault(v: JsonV, key: Seq<char>) -> Option<Seq<char>> {
    match v.get(key) {
        None => None,
        Some(x) => match word_in(x) {
            Some(word) => if hook_word(word) is Some {
                None
            } else {
                Some(invalid(key))
            },
            None => Some(invalid(key)),
        },
    }
}

/// A `Hook`, or another where it is left out.
pub open spec fn hook_or(v: JsonV, key: Seq<char>, default: Hook) -> Hook {
    match word_at(v, key) {
        Some(word) => match hook_word(word) {
            Some(x) => x,
            None => default,
        },
        None => default,
    }
}

fn hook_at(v: &Json, key: &str, default: Hook) -> (r: Result<Hook, String>)
    ensures
        match r {
            Ok(x) => hook_fault(v@, key@) is None && x == hook_or(v@, key@, default),
            Err(e) => hook_fault(v@, key@) == Some(e@),
        },
{
    match v.get(key) {
        None => Ok(default),
        Some(x) => match find_word(x) {
            Some(word) => match hook_named(word.as_str()) {
                Some(x) => Ok(x),
                None => Err(say_invalid(key)),
            },
            None => Err(say_invalid(key)),
        },
    }
}

/// The `StepType` that a word names.
pub open spec fn step_type_word(word: Seq<char>) -> Option<StepType> {
    if word == "url"@ {
        Some(StepType::Url)
    } else if word == "script"@ {
        Some(StepType::Script)
    } else if word == "wasm"@ {
        Some(StepType::Wasm)
    } else {
        None
    }
}

fn step_type_named(word: &str) -> (r: Option<StepType>)
    ensures
        r == step_type_word(word@),
{
    if same(word, "url") {
        Some(StepType::Url)
    } else if same(word, "script") {
        Some(StepType::Script)
    } else if same(word, "wasm") {
        Some(StepType::Wasm)
    } else {
        None
    }
}

/// What is wrong with a `StepType` that may be left out.
pub open spec fn step_type_fault(v: JsonV, key: Seq<char>) -> Option<Seq<char>> {
    match v.get(key) {
        None => None,
        Some(x) => match word_in(x) {
            Some(word) => if step_type_word(word) is Some {
                None
            } else {
                Some(invalid(key))
            },
            None => Some(invalid(key)),
        },
    }
}

/// A `StepType`, or another where it is left out.
pub open spec fn step_type_or(v: JsonV, key: Seq<char>, default: StepType) -> StepType {
    match word_at(v, key) {
        Some(word) => match step_type_word(word) {
            Some(x) => x,
            None => default,
        },
        None => default,
    }
}

fn step_type_at(v: &Json, key: &str, default: StepType) -> (r: Result<StepType, String>)
    ensures
        match r {
            Ok(x) => step_type_fault(v@, key@) is None && x == step_type_or(v@, key@, default),
            Err(e) => step_type_fault(v@, key@) == Some(e@),
        },
{
    match v.get(key) {
        None => Ok(default),
        Some(x) => match find_word(x) {
            Some(word) => match step_type_named(word.as_str()) {
                Some(x) => Ok(x),
                None => Err(say_invalid(key)),
            },
            None => Err(say_invalid(key)),
        },
    }
}

/// The `UrlMode` that a word names.
pub open spec fn url_mode_word(word: Seq<char>) -> Option<UrlMode> {
    if word == "transform"@ {
        Some(UrlMode::Transform)
    } else if word == "loopback"@ {
        Some(UrlMode::Loopback)
    } else {
        None
    }
}

fn url_mode_named(word: &str) -> (r: Option<UrlMode>)
    ensures
        r == url_mode_word(word@),
{
    if same(word, "transform") {
        Some(UrlMode::Transform)
    } else if same(word, "loopback") {
        Some(UrlMode::Loopback)
    } else {
        None
    }
}

/// What is wrong with a `UrlMode` that may be left out.
pub open spec fn url_mode_fault(v: JsonV, key: Seq<char>) -> Option<Seq<char>> {
    match v.get(key) {
        None => None,
        Some(x) => match word_in(x) {
            Some(word) => if url_mode_word(word) is Some {
                None
            } else {
                Some(invalid(key))
            },
            None => Some(invalid(key)),
        },
    }
}

/// A `UrlMode`, or another where it is left out.
pub open spec fn url_mode_or(v: JsonV, key: Seq<char>, default: UrlMode) -> UrlMode {
    match word_at(v, key) {
        Some(word) => match url_mode_word(word) {
            Some(x) => x,
            None => default,
        },
        None => default,
    }
}

fn url_mode_at(v: &Json, key: &str, default: UrlMode) -> (r: Result<UrlMode, String>)
    ensures
        match r {
            Ok(x) => url_mode_fault(v@, key@) is None && x == url_mode_or(v@, key@, default),
            Err(e) => url_mode_fault(v@, key@) == Some(e@),
        },
{
    match v.get(key) {
        None => Ok(default),
        Some(x) => match find_word(x) {
            Some(word) => match url_mode_named(word.as_str()) {
                Some(x) => Ok(x),
                None => Err(say_invalid(key)),
            },
            None => Err(say_invalid(key)),
        },
    }
}

/// The `OnError` that a word names.
pub open spec fn on_error_word(word: Seq<char>) -> Option<OnError> {
    if word == "fail_open"@ {
        Some(OnError::FailOpen)
    } else if word == "fail_closed"@ {
        Some(OnError::FailClosed)
    } else {
        None
    }
}

fn on_error_named(word: &str) -> (r: Option<OnError>)
    ensures
        r == on_error_word(word@),
{
    if same(word, "fail_open") {
        Some(OnError::FailOpen)
    } else if same(word, "fail_closed") {
        Some(OnError::FailClosed)
    } else {
        None
    }
}

/// What is wrong with a `OnError` that may be left out.
pub open spec fn on_error_fault(v: JsonV, key: Seq<char>) -> Option<Seq<char>> {
    match v.get(key) {
        None => None,
        Some(x) => match word_in(x) {
            Some(word) => if on_error_word(word) is Some {
                None
            } else {
                Some(invalid(key))
            },
            None => Some(invalid(key)),
        },
    }
}

/// A `OnError`, or another where it is left out.
pub open spec fn on_error_or(v: JsonV, key: Seq<char>, default: OnError) -> OnError {
    match word_at(v, key) {
        Some(word) => match on_error_word(word) {
            Some(x) => x,
            None => default,
        },
        None => default,
    }
}

fn on_error_at(v: &Json, key: &str, default: OnError) -> (r: Result<OnError, String>)
    ensures
        match r {
            Ok(x) => on_error_fault(v@, key@) is None && x == on_error_or(v@, key@, default),
            Err(e) => on_error_fault(v@, key@) == Some(e@),
        },
{
    match v.get(key) {
        None => Ok(default),
        Some(x) => match find_word(x) {
            Some(word) => match on_error_named(word.as_str()) {
                Some(x) => Ok(x),
                None => Err(say_invalid(key)),
            },
            None => Err(say_invalid(key)),
        },
    }
}

/// The `ChunkMode` that a word names.
pub open spec fn chunk_mode_word(word: Seq<char>) -> Option<ChunkMode> {
    if word == "observe"@ {
        Some(ChunkMode::Observe)
    } else if word == "mutate"@ {
        Some(ChunkMode::Mutate)
    } else {
        None
    }
}

fn chunk_mode_named(word: &str) -> (r: Option<ChunkMode>)
    ensures
        r == chunk_mode_word(word@),
{
    if same(word, "observe") {
        Some(ChunkMode::Observe)
    } else if same(word, "mutate") {
        Some(ChunkMode::Mutate)
    } else {
        None
    }
}

/// What is wrong with a `ChunkMode` that may be left out.
pub open spec fn chunk_mode_fault(v: JsonV, key: Seq<char>) -> Option<Seq<char>> {
    match v.get(key) {
        None => None,
        Some(x) => match word_in(x) {
            Some(word) => if chunk_mode_word(word) is Some {
                None
            } else {
                Some(invalid(key))
            },
            None => Some(invalid(key)),
        },
    }
}

/// A `ChunkMode`, or another where it is left out.
pub open spec fn chunk_mode_or(v: JsonV, key: Seq<char>, default: ChunkMode) -> ChunkMode {
    match word_at(v, key) {
        Some(word) => match chunk_mode_word(word) {
            Some(x) => x,
            None => default,
        },
        None => default,
    }
}

fn chunk_mode_at(v: &Json, key: &str, default: ChunkMode) -> (r: Result<ChunkMode, String>)
    ensures
        match r {
            Ok(x) => chunk_mode_fault(v@, key@) is None && x == chunk_mode_or(v@, key@, default),
            Err(e) => chunk_mode_fault(v@, key@) == Some(e@),
        },
{
    match v.get(key) {
        None => Ok(default),
        Some(x) => match find_word(x) {
            Some(word) => match chunk_mode_named(word.as_str()) {
                Some(x) => Ok(x),
                None => Err(say_invalid(key)),
            },
            None => Err(say_invalid(key)),
        },
    }
}

/// The `ScriptMode` that a word names.
pub open spec fn script_mode_word(word: Seq<char>) -> Option<ScriptMode> {
    if word == "oneshot"@ {
        Some(ScriptMode::Oneshot)
    } else if word == "worker"@ {
        Some(ScriptMode::Worker)
    } else {
        None
    }
}

fn script_mode_named(word: &str) -> (r: Option<ScriptMode>)
    ensures
        r == script_mode_word(word@),
{
    if same(word, "oneshot") {
        Some(ScriptMode::Oneshot)
    } else if same(word, "worker") {
        Some(ScriptMode::Worker)
    } else {
        None
    }
}

/// What is wrong with a `ScriptMode` that may be left out.
pub open spec fn script_mode_fault(v: JsonV, key: Seq<char>) -> Option<Seq<char>> {
    match v.get(key) {
        None => None,
        Some(x) => match word_in(x) {
            Some(word) => if script_mode_word(word) is Some {
                None
            } else {
                Some(invalid(key))
            },
            None => Some(invalid(key)),
        },
    }
}

/// A `ScriptMode`, or another where it is left out.
pub open spec fn script_mode_or(v: JsonV, key: Seq<char>, default: ScriptMode) -> ScriptMode {
    match word_at(v, key) {
        Some(word) => match script_mode_word(word) {
            Some(x) => x,
            None => default,
        },
        None => default,
    }
}

fn script_mode_at(v: &Json, key: &str, default: ScriptMode) -> (r: Result<ScriptMode, String>)
    ensures
        match r {
            Ok(x) => script_mode_fault(v@, key@) is None && x == script_mode_or(v@, key@, default),
            Err(e) => script_mode_fault(v@, key@) == Some(e@),
        },
{
    match v.get(key) {
        None => Ok(default),
        Some(x) => match find_word(x) {
            Some(word) => match script_mode_named(word.as_str()) {
                Some(x) => Ok(x),
                None => Err(say_invalid(key)),
            },
            None => Err(say_invalid(key)),
        },
    }
}

/// The `Oversize` that a word names.
pub open spec fn oversize_word(word: Seq<char>) -> Option<Oversize> {
    if word == "reject"@ {
        Some(Oversize::Reject)
    } else if word == "stream_through"@ {
        Some(Oversize::StreamThrough)
    } else {
        None
    }
}

fn oversize_named(word: &str) -> (r: Option<Oversize>)
    ensures
        r == oversize_word(word@),
{
    if same(word, "reject") {
        Some(Oversize::Reject)
    } else if same(word, "stream_through") {
        Some(Oversize::StreamThrough)
    } else {
        None
    }
}

/// What is wrong with a `Oversize` that may be left out.
pub open spec fn oversize_fault(v: JsonV, key: Seq<char>) -> Option<Seq<char>> {
    match v.get(key) {
        None => None,
        Some(x) => match word_in(x) {
            Some(word) => if oversize_word(word) is Some {
                None
            } else {
                Some(invalid(key))
            },
            None => Some(invalid(key)),
        },
    }
}

/// A `Oversize`, or another where it is left out.
pub open spec fn oversize_or(v: JsonV, key: Seq<char>, default: Oversize) -> Oversize {
    match word_at(v, key) {
        Some(word) => match oversize_word(word) {
            Some(x) => x,
            None => default,
        },
        None => default,
    }
}

fn oversize_at(v: &Json, key: &str, default: Oversize) -> (r: Result<Oversize, String>)
    ensures
        match r {
            Ok(x) => oversize_fault(v@, key@) is None && x == oversize_or(v@, key@, default),
            Err(e) => oversize_fault(v@, key@) == Some(e@),
        },
{
    match v.get(key) {
        None => Ok(default),
        Some(x) => match find_word(x) {
            Some(word) => match oversize_named(word.as_str()) {
                Some(x) => Ok(x),
                None => Err(say_invalid(key)),
            },
            None => Err(say_invalid(key)),
        },
    }
}

/// The keys of a step.
pub const STEP_KEYS: [&'static str; 12] = [
    "name",
    "hook",
    "type",
    "url",
    "mode",
    "timeout_ms",
    "on_error",
    "chunk_mode",
    "is_guardrail",
    "script_mode",
    "cmd",
    "wasm",
];

/// What is wrong with a value as a step.
pub open spec fn step_fault(v: JsonV) -> Option<Seq<char>> {
    let v = laid_out(v, strs(STEP_KEYS@));
    first_of(first_of(first_of(first_of(first_of(first_of(first_of(first_of(first_of(first_of(first_of(first_of(table_fault(v, strs(STEP_KEYS@)), text_fault(v, "name"@)), hook_fault(v, "hook"@)), match v.get("type"@) { None => Some(missing("type"@)), Some(_) => step_type_fault(v, "type"@) }), text_fault(v, "url"@)), url_mode_fault(v, "mode"@)), number_fault(v, "timeout_ms"@, u64::MAX as nat)), on_error_fault(v, "on_error"@)), chunk_mode_fault(v, "chunk_mode"@)), switch_fault(v, "is_guardrail"@)), script_mode_fault(v, "script_mode"@)), list_fault(v, "cmd"@)), text_fault(v, "wasm"@))
}

/// A step, as a value without faults spells it out.
pub open spec fn step_in(v: JsonV) -> StepV {
    let v = laid_out(v, strs(STEP_KEYS@));
    StepV {
        name: v.text_at("name"@),
        hook: hook_or(v, "hook"@, Hook::OnRequest),
        type_: step_type_or(v, "type"@, StepType::Url),
        url: v.text_at("url"@),
        mode: url_mode_or(v, "mode"@, UrlMode::Transform),
        timeout_ms: number_or(v, "timeout_ms"@, DEFAULT_TIMEOUT_MS),
        on_error: on_error_or(v, "on_error"@, OnError::FailClosed),
        chunk_mode: chunk_mode_or(v, "chunk_mode"@, ChunkMode::Observe),
        is_guardrail: switch(v, "is_guardrail"@),
        script_mode: script_mode_or(v, "script_mode"@, ScriptMode::Oneshot),
        cmd: list(v, "cmd"@),
        wasm: v.text_at("wasm"@),
    }
}

fn read_step(v: &Json) -> (r: Result<Step, String>)
    ensures
        match r {
            Ok(x) => step_fault(v@) is None && x@ == step_in(v@),
            Err(e) => step_fault(v@) == Some(e@),
        },
{
    let ghost given = v@;
    let row = lay_out(v, &STEP_KEYS);
    let v = pick(&row, v);
    if let Some(e) = check_table(v, &STEP_KEYS) {
        return Err(e);
    }
    let name = match text_at(v, "name") {
        Ok(x) => x,
        Err(e) => {
            return Err(e);
        },
    };
    let hook = match hook_at(v, "hook", Hook::OnRequest) {
        Ok(x) => x,
        Err(e) => {
            return Err(e);
        },
    };
    let type_ = match match v.get("type") { None => Err(say_missing("type")), Some(_) => step_type_at(v, "type", StepType::Url) } {
        Ok(x) => x,
        Err(e) => {
            return Err(e);
        },
    };
    let url = match text_at(v, "url") {
        Ok(x) => x,
        Err(e) => {
            return Err(e);
        },
    };
    let mode = match url_mode_at(v, "mode", UrlMode::Transform) {
        Ok(x) => x,
        Err(e) => {
            return Err(e);
        },
    };
    let timeout_ms = match number_at(v, "timeout_ms", u64::MAX) {
        Ok(x) => x,
        Err(e) => {
            return Err(e);
        },
    };
    let on_error = match on_error_at(v, "on_error", OnError::FailClosed) {
        Ok(x) => x,
        Err(e) => {
            return Err(e);
        },
    };
    let chunk_mode = match chunk_mode_at(v, "chunk_mode", ChunkMode::Observe) {
        Ok(x) => x,
        Err(e) => {
            return Err(e);
        },
    };
    let is_guardrail = match switch_at(v, "is_guardrail") {
        Ok(x) => x,
        Err(e) => {
            return Err(e);
        },
    };
    let script_mode = match script_mode_at(v, "script_mode", ScriptMode::Oneshot) {
        Ok(x) => x,
        Err(e) => {
            return Err(e);
        },
    };
    let cmd = match list_at(v, "cmd") {
        Ok(x) => x,
        Err(e) => {
            return Err(e);
        },
    };
    let wasm = match text_at(v, "wasm") {
        Ok(x) => x,
        Err(e) => {
            return Err(e);
        },
    };
    let x = Step {
        name,
        hook,
        type_,
        url,
        mode,
        timeout_ms: match timeout_ms { Some(n) => n, None => DEFAULT_TIMEOUT_MS },
        on_error,
        chunk_mode,
        is_guardrail,
        script_mode,
        cmd,
        wasm,
    };
    assert(x@ == step_in(given));
    Ok(x)
}

/// What is wrong with the first `k` of some values, each as a step.
pub open spec fn each_step_fault(items: Seq<JsonV>, k: nat) -> Option<Seq<char>>
    decreases k,
{
    if k == 0 {
        None
    } else {
        first_of(each_step_fault(items, (k - 1) as nat), step_fault(items[k - 1]))
    }
}

proof fn lemma_each_step_fault(items: Seq<JsonV>, j: nat, k: nat)
    requires
        j <= k,
        each_step_fault(items, j) is Some,
    ensures
        each_step_fault(items, k) == each_step_fault(items, j),
    decreases k,
{
    if j < k {
        lemma_each_step_fault(items, j, (k - 1) as nat);
    }
}

/// What is wrong with a list of tables that may be left out.
pub open spec fn rows_fault_step(v: JsonV, key: Seq<char>) -> Option<Seq<char>> {
    match v.get(key) {
        None => None,
        Some(JsonV::Array(items)) => each_step_fault(items, items.len()),
        Some(_) => Some(invalid(key)),
    }
}

/// A list of tables, each as a step: empty where it is left out.
pub open spec fn rows_step(v: JsonV, key: Seq<char>) -> Seq<StepV> {
    match v.items_at(key) {
        Some(items) => items.map_values(|x: JsonV| step_in(x)),
        None => Seq::empty(),
    }
}

fn read_rows_step(v: &Json, key: &str) -> (r: Result<Vec<Step>, String>)
    ensures
        match r {
            Ok(l) => rows_fault_step(v@, key@) is None && views(l@) == rows_step(v@, key@),
            Err(e) => rows_fault_step(v@, key@) == Some(e@),
        },
{
    let mut out: Vec<Step> = Vec::new();
    match v.get(key) {
        None => {
            assert(views(out@) == Seq::<StepV>::empty());
            Ok(out)
        },
        Some(Json::Array(items)) => {
            let ghost all = seq_view(items@);
            let mut i: usize = 0;
            while i < items.len()
                invariant
                    i <= items.len(),
                    all == seq_view(items@),
                    v@.get(key@) == Some(JsonV::Array(all)),
                    out@.len() == i,
                    each_step_fault(all, i as nat) is None,
                    forall|k: int| 0 <= k < i ==> (#[trigger] out@[k])@ == step_in(all[k]),
                decreases items.len() - i,
            {
                assert(all[i as int] == items@[i as int]@);
                match read_step(&items[i]) {
                    Ok(x) => {
                        out.push(x);
                    },
                    Err(e) => {
                        proof {
                            lemma_each_step_fault(all, (i + 1) as nat, all.len());
                        }
                        return Err(e);
                    },
                }
                i += 1;
            }
            assert(views(out@) == all.map_values(|x: JsonV| step_in(x)));
            Ok(out)
        },
        Some(_) => Err(say_invalid(key)),
    }
}

/// The keys of a route's dialects.
pub const ADAPTER_KEYS: [&'static str; 2] = [
    "ingress",
    "egress",
];

/// What is wrong with a value as a route's dialects.
pub open spec fn adapter_fault(v: JsonV) -> Option<Seq<char>> {
    let v = laid_out(v, strs(ADAPTER_KEYS@));
    first_of(first_of(table_fault(v, strs(ADAPTER_KEYS@)), text_fault(v, "ingress"@)), text_fault(v, "egress"@))
}

/// A route's dialects, as a value without faults spells it out.
pub open spec fn adapter_in(v: JsonV) -> RouteAdapterV {
    let v = laid_out(v, strs(ADAPTER_KEYS@));
    RouteAdapterV {
        ingress: v.text_at("ingress"@),
        egress: v.text_at("egress"@),
    }
}

fn read_adapter(v: &Json) -> (r: Result<RouteAdapter, String>)
    ensures
        match r {
            Ok(x) => adapter_fault(v@) is None && x@ == adapter_in(v@),
            Err(e) => adapter_fault(v@) == Some(e@),
        },
{
    let ghost given = v@;
    let row = lay_out(v, &ADAPTER_KEYS);
    let v = pick(&row, v);
    if let Some(e) = check_table(v, &ADAPTER_KEYS) {
        return Err(e);
    }
    let ingress = match text_at(v, "ingress") {
        Ok(x) => x,
        Err(e) => {
            return Err(e);
        },
    };
    let egress = match text_at(v, "egress") {
        Ok(x) => x,
        Err(e) => {
            return Err(e);
        },
    };
    let x = RouteAdapter {
        ingress,
        egress,
    };
    assert(x@ == adapter_in(given));
    Ok(x)
}

/// The keys of a route's translation.
pub const TRANSLATE_KEYS: [&'static str; 4] = [
    "from",
    "to",
    "model",
    "report_header",
];

/// What is wrong with a value as a route's translation.
pub open spec fn translate_fault(v: JsonV) -> Option<Seq<char>> {
    let v = laid_out(v, strs(TRANSLATE_KEYS@));
    first_of(first_of(first_of(first_of(table_fault(v, strs(TRANSLATE_KEYS@)), needed_text_fault(v, "from"@)), needed_text_fault(v, "to"@)), text_fault(v, "model"@)), switch_fault(v, "report_header"@))
}

/// A route's translation, as a value without faults spells it out.
pub open spec fn translate_in(v: JsonV) -> TranslateV {
    let v = laid_out(v, strs(TRANSLATE_KEYS@));
    TranslateV {
        from: needed_text(v, "from"@),
        to: needed_text(v, "to"@),
        model: v.text_at("model"@),
        report_header: switch(v, "report_header"@),
    }
}

fn read_translate(v: &Json) -> (r: Result<Translate, String>)
    ensures
        match r {
            Ok(x) => translate_fault(v@) is None && x@ == translate_in(v@),
            Err(e) => translate_fault(v@) == Some(e@),
        },
{
    let ghost given = v@;
    let row = lay_out(v, &TRANSLATE_KEYS);
    let v = pick(&row, v);
    if let Some(e) = check_table(v, &TRANSLATE_KEYS) {
        return Err(e);
    }
    let from = match needed_text_at(v, "from") {
        Ok(x) => x,
        Err(e) => {
            return Err(e);
        },
    };
    let to = match needed_text_at(v, "to") {
        Ok(x) => x,
        Err(e) => {
            return Err(e);
        },
    };
    let model = match text_at(v, "model") {
        Ok(x) => x,
        Err(e) => {
            return Err(e);
        },
    };
    let report_header = match switch_at(v, "report_header") {
        Ok(x) => x,
        Err(e) => {
            return Err(e);
        },
    };
    let x = Translate {
        from,
        to,
        model,
        report_header,
    };
    assert(x@ == translate_in(given));
    Ok(x)
}

/// The keys of a route.
pub const ROUTE_KEYS: [&'static str; 5] = [
    "id",
    "upstream",
    "step",
    "adapter",
    "translate",
];

/// What is wrong with a value as a route.
pub open spec fn route_fault(v: JsonV) -> Option<Seq<char>> {
    let v = laid_out(v, strs(ROUTE_KEYS@));
    first_of(first_of(first_of(first_of(first_of(table_fault(v, strs(ROUTE_KEYS@)), needed_text_fault(v, "id"@)), needed_text_fault(v, "upstream"@)), rows_fault_step(v, "step"@)), match v.get("adapter"@) { None => None, Some(x) => adapter_fault(x) }), match v.get("translate"@) { None => None, Some(x) => translate_fault(x) })
}

/// A route, as a value without faults spells it out.
pub open spec fn route_in(v: JsonV) -> RouteV {
    let v = laid_out(v, strs(ROUTE_KEYS@));
    RouteV {
        id: needed_text(v, "id"@),
        upstream: needed_text(v, "upstream"@),
        steps: rows_step(v, "step"@),
        adapter: match v.get("adapter"@) { None => None, Some(x) => Some(adapter_in(x)) },
        translate: match v.get("translate"@) { None => None, Some(x) => Some(translate_in(x)) },
    }
}

fn read_route(v: &Json) -> (r: Result<Route, String>)
    ensures
        match r {
            Ok(x) => route_fault(v@) is None && x@ == route_in(v@),
            Err(e) => route_fault(v@) == Some(e@),
        },
{
    let ghost given = v@;
    let row = lay_out(v, &ROUTE_KEYS);
    let v = pick(&row, v);
    if let Some(e) = check_table(v, &ROUTE_KEYS) {
        return Err(e);
    }
    let id = match needed_text_at(v, "id") {
        Ok(x) => x,
        Err(e) => {
            return Err(e);
        },
    };
    let upstream = match needed_text_at(v, "upstream") {
        Ok(x) => x,
        Err(e) => {
            return Err(e);
        },
    };
    let steps = match read_rows_step(v, "step") {
        Ok(x) => x,
        Err(e) => {
            return Err(e);
        },
    };
    let adapter = match match v.get("adapter") { None => Ok(None), Some(x) => match read_adapter(x) { Ok(x) => Ok(Some(x)), Err(e) => Err(e) } } {
        Ok(x) => x,
        Err(e) => {
            return Err(e);
        },
    };
    let translate = match match v.get("translate") { None => Ok(None), Some(x) => match read_translate(x) { Ok(x) => Ok(Some(x)), Err(e) => Err(e) } } {
        Ok(x) => x,
        Err(e) => {
            return Err(e);
        },
    };
    let x = Route {
        id,
        upstream,
        steps,
        adapter,
        translate,
    };
    assert(x@ == route_in(given));
    Ok(x)
}

/// What is wrong with the first `k` of some values, each as a route.
pub open spec fn each_route_fault(items: Seq<JsonV>, k: nat) -> Option<Seq<char>>
    decreases k,
{
    if k == 0 {
        None
    } else {
        first_of(each_route_fault(items, (k - 1) as nat), route_fault(items[k - 1]))
    }
}

proof fn lemma_each_route_fault(items: Seq<JsonV>, j: nat, k: nat)
    requires
        j <= k,
        each_route_fault(items, j) is Some,
    ensures
        each_route_fault(items, k) == each_route_fault(items, j),
    decreases k,
{
    if j < k {
        lemma_each_route_fault(items, j, (k - 1) as nat);
    }
}

/// What is wrong with a list of tables that may be left out.
pub open spec fn rows_fault_route(v: JsonV, key: Seq<char>) -> Option<Seq<char>> {
    match v.get(key) {
        None => None,
        Some(JsonV::Array(items)) => each_route_fault(items, items.len()),
        Some(_) => Some(invalid(key)),
    }
}

/// A list of tables, each as a route: empty where it is left out.
pub open spec fn rows_route(v: JsonV, key: Seq<char>) -> Seq<RouteV> {
    match v.items_at(key) {
        Some(items) => items.map_values(|x: JsonV| route_in(x)),
        None => Seq::empty(),
    }
}

fn read_rows_route(v: &Json, key: &str) -> (r: Result<Vec<Route>, String>)
    ensures
        match r {
            Ok(l) => rows_fault_route(v@, key@) is None && views(l@) == rows_route(v@, key@),
            Err(e) => rows_fault_route(v@, key@) == Some(e@),
        },
{
    let mut out: Vec<Route> = Vec::new();
    match v.get(key) {
        None => {
            assert(views(out@) == Seq::<RouteV>::empty());
            Ok(out)
        },
        Some(Json::Array(items)) => {
            let ghost all = seq_view(items@);
            let mut i: usize = 0;
            while i < items.len()
                invariant
                    i <= items.len(),
                    all == seq_view(items@),
                    v@.get(key@) == Some(JsonV::Array(all)),
                    out@.len() == i,
                    each_route_fault(all, i as nat) is None,
                    forall|k: int| 0 <= k < i ==> (#[trigger] out@[k])@ == route_in(all[k]),
                decreases items.len() - i,
            {
                assert(all[i as int] == items@[i as int]@);
                match read_route(&items[i]) {
                    Ok(x) => {
                        out.push(x);
                    },
                    Err(e) => {
                        proof {
                            lemma_each_route_fault(all, (i + 1) as nat, all.len());
                        }
                        return Err(e);
                    },
                }
                i += 1;
            }
            assert(views(out@) == all.map_values(|x: JsonV| route_in(x)));
            Ok(out)
        },
        Some(_) => Err(say_invalid(key)),
    }
}

/// The keys of the gateway's settings.
pub const GATEWAY_KEYS: [&'static str; 17] = [
    "schema_version",
    "allow_scripts",
    "listen",
    "expose_headers",
    "max_context_bytes",
    "max_body_bytes",
    "oversize",
    "max_inflight",
    "upstream_timeout_ms",
    "admin_listen",
    "admin_token",
    "loopback_secret",
    "max_hops",
    "callback_path",
    "max_parked",
    "max_event_bytes",
    "max_response_bytes",
];

/// What is wrong with a table as the gateway's settings.
pub open spec fn gateway_table_fault(v: JsonV) -> Option<Seq<char>> {
    first_of(first_of(first_of(first_of(first_of(first_of(first_of(first_of(first_of(first_of(first_of(first_of(first_of(first_of(first_of(first_of(first_of(table_fault(v, strs(GATEWAY_KEYS@)), number_fault(v, "schema_version"@, u32::MAX as nat)), switch_fault(v, "allow_scripts"@)), text_fault(v, "listen"@)), list_fault(v, "expose_headers"@)), number_fault(v, "max_context_bytes"@, usize::MAX as nat)), number_fault(v, "max_body_bytes"@, usize::MAX as nat)), oversize_fault(v, "oversize"@)), number_fault(v, "max_inflight"@, usize::MAX as nat)), number_fault(v, "upstream_timeout_ms"@, u64::MAX as nat)), text_fault(v, "admin_listen"@)), text_fault(v, "admin_token"@)), text_fault(v, "loopback_secret"@)), number_fault(v, "max_hops"@, u32::MAX as nat)), text_fault(v, "callback_path"@)), number_fault(v, "max_parked"@, usize::MAX as nat)), number_fault(v, "max_event_bytes"@, usize::MAX as nat)), number_fault(v, "max_response_bytes"@, usize::MAX as nat))
}

/// The gateway's settings, as a table without faults spells them out.
pub open spec fn gateway_table_in(v: JsonV) -> GatewayV {
    GatewayV {
        schema_version: number_or(v, "schema_version"@, default_gateway().schema_version as u64) as u32,
        allow_scripts: switch(v, "allow_scripts"@),
        listen: match v.text_at("listen"@) { Some(s) => s, None => default_gateway().listen },
        expose_headers: list(v, "expose_headers"@),
        max_context_bytes: number_or(v, "max_context_bytes"@, default_gateway().max_context_bytes as u64) as usize,
        max_body_bytes: number_or(v, "max_body_bytes"@, default_gateway().max_body_bytes as u64) as usize,
        oversize: oversize_or(v, "oversize"@, Oversize::Reject),
        max_inflight: number_or(v, "max_inflight"@, default_gateway().max_inflight as u64) as usize,
        upstream_timeout_ms: number_or(v, "upstream_timeout_ms"@, default_gateway().upstream_timeout_ms),
        admin_listen: match v.text_at("admin_listen"@) { Some(s) => s, None => default_gateway().admin_listen },
        admin_token: match v.text_at("admin_token"@) { Some(s) => s, None => default_gateway().admin_token },
        loopback_secret: match v.text_at("loopback_secret"@) { Some(s) => s, None => default_gateway().loopback_secret },
        max_hops: number_or(v, "max_hops"@, default_gateway().max_hops as u64) as u32,
        callback_path: match v.text_at("callback_path"@) { Some(s) => s, None => default_gateway().callback_path },
        max_parked: number_or(v, "max_parked"@, default_gateway().max_parked as u64) as usize,
        max_event_bytes: match v.uint_at("max_event_bytes"@) { Some(n) => Some(n as usize), None => None },
        max_response_bytes: match v.uint_at("max_response_bytes"@) { Some(n) => Some(n as usize), None => None },
    }
}

#[verifier::rlimit(60)]
fn read_gateway_table(v: &Json) -> (r: Result<Gateway, String>)
    ensures
        match r {
            Ok(x) => gateway_table_fault(v@) is None && x@ == gateway_table_in(v@),
            Err(e) => gateway_table_fault(v@) == Some(e@),
        },
{
    if let Some(e) = check_table(v, &GATEWAY_KEYS) {
        return Err(e);
    }
    let schema_version = match number_at(v, "schema_version", u32::MAX as u64) {
        Ok(x) => x,
        Err(e) => {
            return Err(e);
        },
    };
    let allow_scripts = match switch_at(v, "allow_scripts") {
        Ok(x) => x,
        Err(e) => {
            return Err(e);
        },
    };
    let listen = match text_at(v, "listen") {
        Ok(x) => x,
        Err(e) => {
            return Err(e);
        },
    };
    let expose_headers = match list_at(v, "expose_headers") {
        Ok(x) => x,
        Err(e) => {
            return Err(e);
        },
    };
    let max_context_bytes = match number_at(v, "max_context_bytes", usize::MAX as u64) {
        Ok(x) => x,
        Err(e) => {
            return Err(e);
        },
    };
    let max_body_bytes = match number_at(v, "max_body_bytes", usize::MAX as u64) {
        Ok(x) => x,
        Err(e) => {
            return Err(e);
        },
    };
    let oversize = match oversize_at(v, "oversize", Oversize::Reject) {
        Ok(x) => x,
        Err(e) => {
            return Err(e);
        },
    };
    let max_inflight = match number_at(v, "max_inflight", usize::MAX as u64) {
        Ok(x) => x,
        Err(e) => {
            return Err(e);
        },
    };
    let upstream_timeout_ms = match number_at(v, "upstream_timeout_ms", u64::MAX) {
        Ok(x) => x,
        Err(e) => {
            return Err(e);
        },
    };
    let admin_listen = match text_at(v, "admin_listen") {
        Ok(x) => x,
        Err(e) => {
            return Err(e);
        },
    };
    let admin_token = match text_at(v, "admin_token") {
        Ok(x) => x,
        Err(e) => {
            return Err(e);
        },
    };
    let loopback_secret = match text_at(v, "loopback_secret") {
        Ok(x) => x,
        Err(e) => {
            return Err(e);
        },
    };
    let max_hops = match number_at(v, "max_hops", u32::MAX as u64) {
        Ok(x) => x,
        Err(e) => {
            return Err(e);
        },
    };
    let callback_path = match text_at(v, "callback_path") {
        Ok(x) => x,
        Err(e) => {
            return Err(e);
        },
    };
    let max_parked = match number_at(v, "max_parked", usize::MAX as u64) {
        Ok(x) => x,
        Err(e) => {
            return Err(e);
        },
    };
    let max_event_bytes = match number_at(v, "max_event_bytes", usize::MAX as u64) {
        Ok(x) => x,
        Err(e) => {
            return Err(e);
        },
    };
    let max_response_bytes = match number_at(v, "max_response_bytes", usize::MAX as u64) {
        Ok(x) => x,
        Err(e) => {
            return Err(e);
        },
    };
    let defaults = Gateway::default();
    let x = Gateway {
        schema_version: match schema_version { Some(n) => n as u32, None => defaults.schema_version },
        allow_scripts,
        listen: match listen { Some(s) => s, None => defaults.listen },
        expose_headers,
        max_context_bytes: match max_context_bytes { Some(n) => n as usize, None => defaults.max_context_bytes },
        max_body_bytes: match max_body_bytes { Some(n) => n as usize, None => defaults.max_body_bytes },
        oversize,
        max_inflight: match max_inflight { Some(n) => n as usize, None => defaults.max_inflight },
        upstream_timeout_ms: match upstream_timeout_ms { Some(n) => n, None => defaults.upstream_timeout_ms },
        admin_listen: match admin_listen { Some(s) => s, None => defaults.admin_listen },
        admin_token: match admin_token { Some(s) => s, None => defaults.admin_token },
        loopback_secret: match loopback_secret { Some(s) => s, None => defaults.loopback_secret },
        max_hops: match max_hops { Some(n) => n as u32, None => defaults.max_hops },
        callback_path: match callback_path { Some(s) => s, None => defaults.callback_path },
        max_parked: match max_parked { Some(n) => n as usize, None => defaults.max_parked },
        max_event_bytes: match max_event_bytes { Some(n) => Some(n as usize), None => None },
        max_response_bytes: match max_response_bytes { Some(n) => Some(n as usize), None => None },
    };
    assert(x@ == gateway_table_in(v@));
    Ok(x)
}

/// What is wrong with a value as the gateway's settings.
pub open spec fn gateway_fault(v: JsonV) -> Option<Seq<char>> {
    gateway_table_fault(laid_out(v, strs(GATEWAY_KEYS@)))
}

/// The gateway's settings, as a value without faults spells them out.
pub open spec fn gateway_in(v: JsonV) -> GatewayV {
    gateway_table_in(laid_out(v, strs(GATEWAY_KEYS@)))
}

fn read_gateway(v: &Json) -> (r: Result<Gateway, String>)
    ensures
        match r {
            Ok(x) => gateway_fault(v@) is None && x@ == gateway_in(v@),
            Err(e) => gateway_fault(v@) == Some(e@),
        },
{
    let row = lay_out(v, &GATEWAY_KEYS);
    read_gateway_table(pick(&row, v))
}

/// The keys of a configuration file.
pub const CONFIG_KEYS: [&'static str; 2] = ["gateway", "route"];

/// What is wrong with a value's settings of the gateway.
pub open spec fn settings_fault(v: JsonV) -> Option<Seq<char>> {
    match v.get("gateway"@) {
        None => None,
        Some(x) => gateway_fault(x),
    }
}

/// The settings of the gateway: the defaults where they are left out.
pub open spec fn settings_in(v: JsonV) -> GatewayV {
    match v.get("gateway"@) {
        None => default_gateway(),
        Some(x) => gateway_in(x),
    }
}

fn read_settings(v: &Json) -> (r: Result<Gateway, String>)
    ensures
        match r {
            Ok(x) => settings_fault(v@) is None && x@ == settings_in(v@),
            Err(e) => settings_fault(v@) == Some(e@),
        },
{
    match v.get("gateway") {
        None => Ok(Gateway::default()),
        Some(x) => read_gateway(x),
    }
}

/// What is wrong with a value as a configuration.
pub open spec fn config_fault(v: JsonV) -> Option<Seq<char>> {
    first_of(
        first_of(table_fault(v, strs(CONFIG_KEYS@)), settings_fault(v)),
        rows_fault_route(v, "route"@),
    )
}

/// The configuration that a value without faults spells out.
pub open spec fn config_in(v: JsonV) -> ConfigV {
    ConfigV { gateway: settings_in(v), routes: rows_route(v, "route"@), gateways: Seq::empty() }
}

/// The configuration in a TOML document.
pub open spec fn config_read(read: Result<JsonV, Seq<char>>) -> Result<ConfigV, ConfigErrorV> {
    match read {
        Err(why) => Err(ConfigErrorV::Parse(why)),
        Ok(v) => match config_fault(v) {
            Some(why) => Err(ConfigErrorV::Parse(why)),
            None => Ok(config_in(v)),
        },
    }
}

/// Reads a configuration from the value of its document. It has still to be checked.
pub fn config_from(v: &Json) -> (r: Result<Config, String>)
    ensures
        match r {
            Ok(x) => config_fault(v@) is None && x@ == config_in(v@),
            Err(e) => config_fault(v@) == Some(e@),
        },
{
    if let Some(e) = check_table(v, &CONFIG_KEYS) {
        return Err(e);
    }
    let gateway = match read_settings(v) {
        Ok(x) => x,
        Err(e) => {
            return Err(e);
        },
    };
    let routes = match read_rows_route(v, "route") {
        Ok(x) => x,
        Err(e) => {
            return Err(e);
        },
    };
    let cfg = Config { gateway, routes, gateways: Vec::new() };
    assert(cfg@ == config_in(v@));
    Ok(cfg)
}

/// Where nothing is configured the defaults hold, and there are no routes.
pub proof fn law_empty_document_means_defaults()
    ensures
        config_read(Ok(JsonV::Object(Map::empty()))) == Ok::<ConfigV, ConfigErrorV>(
            ConfigV { gateway: default_gateway(), routes: Seq::empty(), gateways: Seq::empty() },
        ),
        gateway_fault(JsonV::Object(Map::empty())) is None,
        gateway_in(JsonV::Object(Map::empty())) == default_gateway(),
{
    let none = Map::<Seq<char>, JsonV>::empty();
    lemma_in_order(Seq::<Seq<char>>::empty());
    assert(none.dom() == Seq::<Seq<char>>::empty().to_set());
    assert(gateway_in(JsonV::Object(none)) == default_gateway());
}

/// A key that has no meaning fails the load.
pub proof fn law_unknown_key_is_refused(m: Map<Seq<char>, JsonV>, key: Seq<char>)
    requires
        m.dom().finite(),
        m.dom().contains(key),
        key != "gateway"@,
        key != "route"@,
    ensures
        config_read(Ok(JsonV::Object(m))) is Err,
{
    let known = strs(CONFIG_KEYS@);
    assert(known == seq!["gateway"@, "route"@]);
    assert(!known.contains(key));
    lemma_table_refused(m, known, key);
}

proof fn lemma_table_refused(m: Map<Seq<char>, JsonV>, known: Seq<Seq<char>>, key: Seq<char>)
    requires
        m.dom().finite(),
        m.dom().contains(key),
        !known.contains(key),
    ensures
        table_fault(JsonV::Object(m), known) is Some,
{
    lemma_order_exists(m.dom());
    let order = in_order(m.dom());
    assert(order.to_set().contains(key));
    let i = choose|i: int| 0 <= i < order.len() && order[i] == key;
    lemma_unlisted(order, known, i);
}

/// A key that has no meaning is refused in every table: of the gateway, a route, its
/// dialects, its translation, a step, a listener.
pub proof fn law_unknown_key_of_a_table_is_refused(m: Map<Seq<char>, JsonV>, key: Seq<char>)
    requires
        m.dom().finite(),
        m.dom().contains(key),
    ensures
        !strs(GATEWAY_KEYS@).contains(key) ==> gateway_fault(JsonV::Object(m)) is Some,
        !strs(ROUTE_KEYS@).contains(key) ==> route_fault(JsonV::Object(m)) is Some,
        !strs(ADAPTER_KEYS@).contains(key) ==> adapter_fault(JsonV::Object(m)) is Some,
        !strs(TRANSLATE_KEYS@).contains(key) ==> translate_fault(JsonV::Object(m)) is Some,
        !strs(STEP_KEYS@).contains(key) ==> step_fault(JsonV::Object(m)) is Some,
        !strs(LISTENER_KEYS@).contains(key) ==> listener_fault(JsonV::Object(m)) is Some,
{
    if !strs(GATEWAY_KEYS@).contains(key) {
        lemma_table_refused(m, strs(GATEWAY_KEYS@), key);
    }
    if !strs(ROUTE_KEYS@).contains(key) {
        lemma_table_refused(m, strs(ROUTE_KEYS@), key);
    }
    if !strs(ADAPTER_KEYS@).contains(key) {
        lemma_table_refused(m, strs(ADAPTER_KEYS@), key);
    }
    if !strs(TRANSLATE_KEYS@).contains(key) {
        lemma_table_refused(m, strs(TRANSLATE_KEYS@), key);
    }
    if !strs(STEP_KEYS@).contains(key) {
        lemma_table_refused(m, strs(STEP_KEYS@), key);
    }
    if !strs(LISTENER_KEYS@).contains(key) {
        lemma_table_refused(m, strs(LISTENER_KEYS@), key);
    }
}

proof fn lemma_unlisted(keys: Seq<Seq<char>>, known: Seq<Seq<char>>, i: int)
    requires
        0 <= i < keys.len(),
        !known.contains(keys[i]),
    ensures
        first_unlisted(keys, known) is Some,
    decreases keys.len(),
{
    if known.contains(keys[0]) {
        assert(keys.drop_first()[i - 1] == keys[i]);
        lemma_unlisted(keys.drop_first(), known, i - 1);
    }
}

/// Reads a configuration from its text. It has still to be checked.
pub fn read_config(text: &str) -> (r: Result<Config, ConfigError>)
    ensures
        config_view(r) == config_read(toml_read(text@)),
{
    match parse_toml(text) {
        Err(why) => Err(ConfigError::Parse(why)),
        Ok(v) => match config_from(&v) {
            Ok(cfg) => Ok(cfg),
            Err(why) => Err(ConfigError::Parse(why)),
        },
    }
}

/// The error of a file of a configuration directory that could not be read.
pub open spec fn bad_file(path: Seq<char>, why: Seq<char>) -> ConfigErrorV {
    ConfigErrorV::Invalid("failed to parse "@ + path + ": "@ + why)
}

fn say_bad_file(path: &str, why: &str) -> (r: ConfigError)
    ensures
        r@ == bad_file(path@, why@),
{
    ConfigError::Invalid(concat4("failed to parse ", path, ": ", why))
}

/// The keys of a directory's settings file.
pub const SETTINGS_KEYS: [&'static str; 1] = ["gateway"];

/// The settings in a directory's settings file.
pub open spec fn settings_file(path: Seq<char>, read: Result<JsonV, Seq<char>>) -> Result<
    GatewayV,
    ConfigErrorV,
> {
    match read {
        Err(why) => Err(bad_file(path, why)),
        Ok(v) => match first_of(table_fault(v, strs(SETTINGS_KEYS@)), settings_fault(v)) {
            Some(why) => Err(bad_file(path, why)),
            None => Ok(settings_in(v)),
        },
    }
}

/// Settings that were read, or the error.
pub open spec fn settings_view(r: Result<Gateway, ConfigError>) -> Result<GatewayV, ConfigErrorV> {
    match r {
        Ok(g) => Ok(g@),
        Err(e) => Err(e@),
    }
}

/// Takes the settings out of what reading a directory's settings file as TOML gave.
pub fn settings_from(path: &str, read: Result<Json, String>) -> (r: Result<Gateway, ConfigError>)
    ensures
        settings_view(r) == settings_file(path@, outcome(read)),
{
    let v = match read {
        Ok(v) => v,
        Err(why) => {
            return Err(say_bad_file(path, why.as_str()));
        },
    };
    if let Some(why) = check_table(&v, &SETTINGS_KEYS) {
        return Err(say_bad_file(path, why.as_str()));
    }
    match read_settings(&v) {
        Ok(g) => Ok(g),
        Err(why) => Err(say_bad_file(path, why.as_str())),
    }
}

/// Reads a directory's settings file.
pub fn read_settings_file(path: &str, text: &str) -> (r: Result<Gateway, ConfigError>)
    ensures
        settings_view(r) == settings_file(path@, toml_read(text@)),
{
    settings_from(path, parse_toml(text))
}

/// The keys of a directory's route file.
pub const ROUTES_KEYS: [&'static str; 1] = ["route"];

/// The routes in a directory's route file.
pub open spec fn routes_file(path: Seq<char>, read: Result<JsonV, Seq<char>>) -> Result<
    Seq<RouteV>,
    ConfigErrorV,
> {
    match read {
        Err(why) => Err(bad_file(path, why)),
        Ok(v) => match first_of(table_fault(v, strs(ROUTES_KEYS@)), rows_fault_route(v, "route"@)) {
            Some(why) => Err(bad_file(path, why)),
            None => Ok(rows_route(v, "route"@)),
        },
    }
}

/// Routes that were read, or the error.
pub open spec fn routes_view(r: Result<Vec<Route>, ConfigError>) -> Result<Seq<RouteV>, ConfigErrorV> {
    match r {
        Ok(l) => Ok(views(l@)),
        Err(e) => Err(e@),
    }
}

/// Takes the routes out of what reading a directory's route file as TOML gave.
pub fn routes_from(path: &str, read: Result<Json, String>) -> (r: Result<Vec<Route>, ConfigError>)
    ensures
        routes_view(r) == routes_file(path@, outcome(read)),
{
    let v = match read {
        Ok(v) => v,
        Err(why) => {
            return Err(say_bad_file(path, why.as_str()));
        },
    };
    if let Some(why) = check_table(&v, &ROUTES_KEYS) {
        return Err(say_bad_file(path, why.as_str()));
    }
    match read_rows_route(&v, "route") {
        Ok(l) => Ok(l),
        Err(why) => Err(say_bad_file(path, why.as_str())),
    }
}

/// Reads a directory's route file.
pub fn read_routes_file(path: &str, text: &str) -> (r: Result<Vec<Route>, ConfigError>)
    ensures
        routes_view(r) == routes_file(path@, toml_read(text@)),
{
    routes_from(path, parse_toml(text))
}

/// The routes of a file of the directory.
pub open spec fn route_source(f: SourceFileV) -> RouteFileV {
    RouteFileV {
        file_name: f.file_name,
        path: f.path,
        routes: match f.text {
            Err(why) => Err(ConfigErrorV::Io(why)),
            Ok(text) => routes_file(f.path, toml_read(text)),
        },
    }
}

fn read_route_source(f: SourceFile) -> (r: RouteFile)
    ensures
        r@ == route_source(f@),
{
    let routes = match f.text {
        Err(why) => Err(ConfigError::Io(why)),
        Ok(text) => read_routes_file(f.path.as_str(), text.as_str()),
    };
    RouteFile { file_name: f.file_name, path: f.path, routes }
}

/// The keys of a directory's listener file.
pub const LISTENER_KEYS: [&'static str; 2] = ["listen", "routes"];

/// What is wrong with a value as a listener.
pub open spec fn listener_fault(v: JsonV) -> Option<Seq<char>> {
    first_of(
        first_of(table_fault(v, strs(LISTENER_KEYS@)), needed_text_fault(v, "listen"@)),
        list_fault(v, "routes"@),
    )
}

/// The listener in a directory's listener file: its address and its routes.
pub open spec fn listener_file(path: Seq<char>, read: Result<JsonV, Seq<char>>) -> Result<
    (Seq<char>, Seq<Seq<char>>),
    ConfigErrorV,
> {
    match read {
        Err(why) => Err(bad_file(path, why)),
        Ok(v) => match listener_fault(v) {
            Some(why) => Err(bad_file(path, why)),
            None => Ok((needed_text(v, "listen"@), list(v, "routes"@))),
        },
    }
}

/// A listener that was read, or the error.
pub open spec fn listener_view(r: Result<Listener, ConfigError>) -> Result<
    (Seq<char>, Seq<Seq<char>>),
    ConfigErrorV,
> {
    match r {
        Ok(l) => Ok((l.listen@, texts(l.routes@))),
        Err(e) => Err(e@),
    }
}

/// Takes the listener out of what reading a directory's listener file as TOML gave.
pub fn listener_from(path: &str, read: Result<Json, String>) -> (r: Result<Listener, ConfigError>)
    ensures
        listener_view(r) == listener_file(path@, outcome(read)),
{
    let v = match read {
        Ok(v) => v,
        Err(why) => {
            return Err(say_bad_file(path, why.as_str()));
        },
    };
    if let Some(why) = check_table(&v, &LISTENER_KEYS) {
        return Err(say_bad_file(path, why.as_str()));
    }
    let listen = match needed_text_at(&v, "listen") {
        Ok(x) => x,
        Err(why) => {
            return Err(say_bad_file(path, why.as_str()));
        },
    };
    let routes = match list_at(&v, "routes") {
        Ok(x) => x,
        Err(why) => {
            return Err(say_bad_file(path, why.as_str()));
        },
    };
    assert(views(routes@) == texts(routes@));
    Ok(Listener { listen, routes })
}

/// Reads a directory's listener file.
pub fn read_listener_file(path: &str, text: &str) -> (r: Result<Listener, ConfigError>)
    ensures
        listener_view(r) == listener_file(path@, toml_read(text@)),
{
    listener_from(path, parse_toml(text))
}

/// The listener of a file of the directory.
pub open spec fn listener_source(f: SourceFileV) -> ListenerFileV {
    ListenerFileV {
        file_name: f.file_name,
        listener: match f.text {
            Err(why) => Err(ConfigErrorV::Io(why)),
            Ok(text) => listener_file(f.path, toml_read(text)),
        },
    }
}

fn read_listener_source(f: SourceFile) -> (r: ListenerFile)
    ensures
        r@ == listener_source(f@),
{
    let listener = match f.text {
        Err(why) => Err(ConfigError::Io(why)),
        Ok(text) => read_listener_file(f.path.as_str(), text.as_str()),
    };
    ListenerFile { file_name: f.file_name, listener }
}

/// The settings of the directory: the defaults where it has no settings file.
pub open spec fn settings_source(f: Option<SourceFileV>) -> Result<GatewayV, ConfigErrorV> {
    match f {
        None => Ok(default_gateway()),
        Some(f) => match f.text {
            Err(why) => Err(ConfigErrorV::Io(why)),
            Ok(text) => settings_file(f.path, toml_read(text)),
        },
    }
}

/// The configuration of a directory, from its files in order.
pub open spec fn dir_read(
    gateway: Option<SourceFileV>,
    routes: Seq<SourceFileV>,
    listeners: Seq<SourceFileV>,
) -> Result<ConfigV, ConfigErrorV> {
    match settings_source(gateway) {
        Err(e) => Err(e),
        Ok(g) => dir_config(
            g,
            routes.map_values(|f: SourceFileV| route_source(f)),
            listeners.map_values(|f: SourceFileV| listener_source(f)),
        ),
    }
}

/// Reads the configuration of a directory: its settings file, if it has one, and the
/// files of its routes and listeners, in ascending order of their names. The result
/// has still to be checked.
pub fn read_dir(
    gateway: Option<SourceFile>,
    routes: Vec<SourceFile>,
    listeners: Vec<SourceFile>,
) -> (r: Result<Config, ConfigError>)
    ensures
        exists|rs: Seq<SourceFile>, ls: Seq<SourceFile>|
            #![trigger name_ordered(rs, routes@), name_ordered(ls, listeners@)]
            name_ordered(rs, routes@) && name_ordered(ls, listeners@) && config_view(r) == dir_read(
                opt_view(gateway),
                views(rs),
                views(ls),
            ),
{
    let ghost given_gateway = opt_view(gateway);
    let mut route_files = sort_by_name(routes);
    let mut listener_files = sort_by_name(listeners);
    let ghost rs = route_files@;
    let ghost ls = listener_files@;
    assert(name_ordered(rs, routes@) && name_ordered(ls, listeners@));
    let settings = match gateway {
        None => Ok(Gateway::default()),
        Some(f) => match f.text {
            Err(why) => Err(ConfigError::Io(why)),
            Ok(text) => read_settings_file(f.path.as_str(), text.as_str()),
        },
    };
    let settings = match settings {
        Ok(g) => g,
        Err(e) => {
            assert(Err::<ConfigV, ConfigErrorV>(e@) == dir_read(given_gateway, views(rs), views(ls)));
            return Err(e);
        },
    };
    assert(settings_source(given_gateway) == Ok::<GatewayV, ConfigErrorV>(settings@));
    let mut read_routes: Vec<RouteFile> = Vec::new();
    while route_files.len() > 0
        invariant
            read_routes@.len() + route_files@.len() == rs.len(),
            forall|k: int| 0 <= k < route_files@.len() ==> (#[trigger] route_files@[k]) == rs[read_routes@.len()
                + k],
            forall|k: int| 0 <= k < read_routes@.len() ==> (#[trigger] read_routes@[k])@ == route_source(rs[k]@),
        decreases route_files.len(),
    {
        let ghost left = route_files@;
        let f = route_files.remove(0);
        assert(f == left[0]);
        assert forall|k: int| 0 <= k < route_files@.len() implies (#[trigger] route_files@[k])
            == rs[read_routes@.len() + 1 + k] by {
            assert(route_files@[k] == left[k + 1]);
        }
        read_routes.push(read_route_source(f));
    }
    let mut read_listeners: Vec<ListenerFile> = Vec::new();
    while listener_files.len() > 0
        invariant
            read_listeners@.len() + listener_files@.len() == ls.len(),
            forall|k: int| 0 <= k < listener_files@.len() ==> (#[trigger] listener_files@[k])
                == ls[read_listeners@.len() + k],
            forall|k: int| 0 <= k < read_listeners@.len() ==> (#[trigger] read_listeners@[k])@
                == listener_source(ls[k]@),
        decreases listener_files.len(),
    {
        let ghost left = listener_files@;
        let f = listener_files.remove(0);
        assert(f == left[0]);
        assert forall|k: int| 0 <= k < listener_files@.len() implies (#[trigger] listener_files@[k])
            == ls[read_listeners@.len() + 1 + k] by {
            assert(listener_files@[k] == left[k + 1]);
        }
        read_listeners.push(read_listener_source(f));
    }
    assert(views(read_routes@) == views(rs).map_values(|f: SourceFileV| route_source(f)));
    assert(views(read_listeners@) == views(ls).map_values(|f: SourceFileV| listener_source(f)));
    assemble(settings, read_routes, read_listeners)
}

/// A configuration that was read, if it holds in its surroundings.
pub open spec fn checked(read: Result<ConfigV, ConfigErrorV>, env: SurroundingsV) -> Result<
    ConfigV,
    ConfigErrorV,
> {
    match read {
        Err(e) => Err(e),
        Ok(cfg) => match config_problem(cfg, env) {
            Some(why) => Err(ConfigErrorV::Invalid(why)),
            None => Ok(cfg),
        },
    }
}

fn check_read(read: Result<Config, ConfigError>, env: &Surroundings) -> (r: Result<Config, ConfigError>)
    ensures
        config_view(r) == checked(config_view(read), env@),
{
    match read {
        Err(e) => Err(e),
        Ok(cfg) => match validate(&cfg, env) {
            Ok(_) => Ok(cfg),
            Err(e) => Err(e),
        },
    }
}

/// Reads a configuration from its text and checks it.
pub fn load_str(text: &str, env: &Surroundings) -> (r: Result<Config, ConfigError>)
    ensures
        config_view(r) == checked(config_read(toml_read(text@)), env@),
{
    check_read(read_config(text), env)
}

/// Reads a configuration from what reading its file gave, and checks it.
pub fn load_file(text: Result<String, String>, env: &Surroundings) -> (r: Result<Config, ConfigError>)
    ensures
        match text {
            Ok(text) => config_view(r) == checked(config_read(toml_read(text@)), env@),
            Err(why) => config_view(r) == Err::<ConfigV, ConfigErrorV>(ConfigErrorV::Io(why@)),
        },
{
    match text {
        Ok(text) => load_str(text.as_str(), env),
        Err(why) => Err(ConfigError::Io(why)),
    }
}

/// Whether loading a directory gives that result: its files are taken in ascending
/// order of their names.
pub open spec fn dir_loads(
    gateway: Option<SourceFileV>,
    routes: Seq<SourceFile>,
    listeners: Seq<SourceFile>,
    env: SurroundingsV,
    r: Result<ConfigV, ConfigErrorV>,
) -> bool {
    exists|rs: Seq<SourceFile>, ls: Seq<SourceFile>|
        #![trigger name_ordered(rs, routes), name_ordered(ls, listeners)]
        name_ordered(rs, routes) && name_ordered(ls, listeners) && r == checked(
            dir_read(gateway, views(rs), views(ls)),
            env,
        )
}

/// Reads the configuration of a directory and checks it.
pub fn load_dir(
    gateway: Option<SourceFile>,
    routes: Vec<SourceFile>,
    listeners: Vec<SourceFile>,
    env: &Surroundings,
) -> (r: Result<Config, ConfigError>)
    ensures
        dir_loads(opt_view(gateway), routes@, listeners@, env@, config_view(r)),
{
    check_read(read_dir(gateway, routes, listeners), env)
}

} // verus!
