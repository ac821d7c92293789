//! What a configuration says once it is read: each key its value, each key that is
//! left out its default.

use vstd::prelude::*;

use crate::config::load::{
    config_problem, dir_config, name_ordered, ConfigErrorV, SourceFile, SourceFileV, SurroundingsV,
};
use crate::config::read::{
    adapter_fault, adapter_in, checked, dir_loads, chunk_mode_word, config_fault, config_in, config_read, dir_read,
    each_route_fault, each_step_fault, first_unlisted, gateway_fault, gateway_in, hook_word, listener_file,
    listener_source, on_error_word, oversize_word, route_fault, route_in, route_source, routes_file, script_mode_word,
    settings_file, settings_source, step_fault, step_in, step_type_word, table_fault, toml_read, translate_fault,
    translate_in, url_mode_word, ADAPTER_KEYS, CONFIG_KEYS, GATEWAY_KEYS, ROUTE_KEYS, STEP_KEYS, TRANSLATE_KEYS,
};
use crate::config::{ChunkMode, ConfigV, GatewayV, Hook, OnError, Oversize, RouteV, ScriptMode, StepType, UrlMode};
use crate::json::{all_texts, string_items, JsonV, Num};
use crate::shape::{laid_out, word_in};
use crate::text::{in_order, lemma_order_exists, lemma_precedes_irreflexive, precedes, strs, views};

verus! {

/// The word for a `Hook`.
pub open spec fn hook_text(x: Hook) -> Seq<char> {
    match x {
        Hook::OnRequest => "on_request"@,
        Hook::OnResponse => "on_response"@,
        Hook::OnStream => "on_stream"@,
    }
}

/// The word for a `StepType`.
pub open spec fn step_type_text(x: StepType) -> Seq<char> {
    match x {
        StepType::Url => "url"@,
        StepType::Script => "script"@,
        StepType::Wasm => "wasm"@,
    }
}

/// The word for a `UrlMode`.
pub open spec fn url_mode_text(x: UrlMode) -> Seq<char> {
    match x {
        UrlMode::Transform => "transform"@,
        UrlMode::Loopback => "loopback"@,
    }
}

/// The word for a `OnError`.
pub open spec fn on_error_text(x: OnError) -> Seq<char> {
    match x {
        OnError::FailOpen => "fail_open"@,
        OnError::FailClosed => "fail_closed"@,
    }
}

/// The word for a `ChunkMode`.
pub open spec fn chunk_mode_text(x: ChunkMode) -> Seq<char> {
    match x {
        ChunkMode::Observe => "observe"@,
        ChunkMode::Mutate => "mutate"@,
    }
}

/// The word for a `ScriptMode`.
pub open spec fn script_mode_text(x: ScriptMode) -> Seq<char> {
    match x {
        ScriptMode::Oneshot => "oneshot"@,
        ScriptMode::Worker => "worker"@,
    }
}

/// The word for a `Oversize`.
pub open spec fn oversize_text(x: Oversize) -> Seq<char> {
    match x {
        Oversize::Reject => "reject"@,
        Oversize::StreamThrough => "stream_through"@,
    }
}

/// The words of a configuration differ from each other.
proof fn lemma_config_words()
    ensures
        "url"@.len() == 3,
        "wasm"@.len() == 4,
        "mutate"@.len() == 6 && "mutate"@[0] == 'm',
        "reject"@.len() == 6 && "reject"@[0] == 'r',
        "script"@.len() == 6 && "script"@[0] == 's',
        "worker"@.len() == 6 && "worker"@[0] == 'w',
        "observe"@.len() == 7 && "observe"@[1] == 'b',
        "oneshot"@.len() == 7 && "oneshot"@[1] == 'n',
        "loopback"@.len() == 8,
        "fail_open"@.len() == 9 && "fail_open"@[0] == 'f',
        "on_stream"@.len() == 9 && "on_stream"@[0] == 'o',
        "transform"@.len() == 9 && "transform"@[0] == 't',
        "on_request"@.len() == 10,
        "fail_closed"@.len() == 11 && "fail_closed"@[0] == 'f',
        "on_response"@.len() == 11 && "on_response"@[0] == 'o',
        "stream_through"@.len() == 14,
{
    reveal_strlit("url");
    reveal_strlit("wasm");
    reveal_strlit("mutate");
    reveal_strlit("reject");
    reveal_strlit("script");
    reveal_strlit("worker");
    reveal_strlit("observe");
    reveal_strlit("oneshot");
    reveal_strlit("loopback");
    reveal_strlit("fail_open");
    reveal_strlit("on_stream");
    reveal_strlit("transform");
    reveal_strlit("on_request");
    reveal_strlit("fail_closed");
    reveal_strlit("on_response");
    reveal_strlit("stream_through");
}

/// A word of a configuration stands for the one thing that is spelled so.
pub proof fn law_words_are_told_apart(word: Seq<char>)
    ensures
        word_in(JsonV::Str(word)) == Some(word),
        forall|x: Hook| hook_word(word) == Some(x) <==> word == #[trigger] hook_text(x),
        forall|x: StepType| step_type_word(word) == Some(x) <==> word == #[trigger] step_type_text(x),
        forall|x: UrlMode| url_mode_word(word) == Some(x) <==> word == #[trigger] url_mode_text(x),
        forall|x: OnError| on_error_word(word) == Some(x) <==> word == #[trigger] on_error_text(x),
        forall|x: ChunkMode| chunk_mode_word(word) == Some(x) <==> word == #[trigger] chunk_mode_text(x),
        forall|x: ScriptMode| script_mode_word(word) == Some(x) <==> word == #[trigger] script_mode_text(x),
        forall|x: Oversize| oversize_word(word) == Some(x) <==> word == #[trigger] oversize_text(x),
{
    lemma_config_words();
}

/// Whether a text is what a key gives, absent where the key is.
pub open spec fn gives_text(given: Option<JsonV>, text: Option<Seq<char>>) -> bool {
    match given {
        Some(x) => text matches Some(s) && x == JsonV::Str(s),
        None => text is None,
    }
}

/// Whether a text is what a key gives, the default where the key is absent.
pub open spec fn gives_text_or(given: Option<JsonV>, text: Seq<char>, default: Seq<char>) -> bool {
    match given {
        Some(x) => x == JsonV::Str(text),
        None => text == default,
    }
}

/// Whether a number is what a key gives, the default where the key is absent.
pub open spec fn gives_number(given: Option<JsonV>, n: int, default: int) -> bool {
    match given {
        Some(x) => x matches JsonV::Number(Num::PosInt(u)) && u == n,
        None => n == default,
    }
}

/// Whether a switch is what a key gives, off where the key is absent.
pub open spec fn gives_switch(given: Option<JsonV>, on: bool) -> bool {
    match given {
        Some(x) => x == JsonV::Bool(on),
        None => !on,
    }
}

/// Whether texts are what a key gives, none where the key is absent.
pub open spec fn gives_list(given: Option<JsonV>, list: Seq<Seq<char>>) -> bool {
    match given {
        Some(x) => x matches JsonV::Array(items) && items.len() == list.len() && forall|i: int|
            0 <= i < items.len() ==> #[trigger] items[i] == JsonV::Str(list[i]),
        None => list.len() == 0,
    }
}

/// Whether a word is what a key gives, the default where the key is absent.
pub open spec fn gives_word(given: Option<JsonV>, word: Seq<char>, default: Seq<char>) -> bool {
    match given {
        Some(x) => word_in(x) == Some(word),
        None => word == default,
    }
}

proof fn lemma_list(items: Seq<JsonV>)
    requires
        all_texts(items),
    ensures
        string_items(items).len() == items.len(),
        forall|i: int| 0 <= i < items.len() ==> #[trigger] items[i] == JsonV::Str(string_items(items)[i]),
    decreases items.len(),
{
    if items.len() > 0 {
        let before = items.drop_last();
        assert forall|i: int| 0 <= i < before.len() implies (#[trigger] before[i]) is Str by {
            assert(items[i] is Str);
        }
        lemma_list(before);
        assert(items[items.len() - 1] is Str);
        assert forall|i: int| 0 <= i < items.len() implies #[trigger] items[i] == JsonV::Str(
            string_items(items)[i],
        ) by {
            if i < before.len() {
                assert(before[i] == JsonV::Str(string_items(before)[i]));
            }
        }
    }
}

proof fn lemma_given_list(t: JsonV, key: Seq<char>)
    ensures
        t.get(key) matches Some(JsonV::Array(items)) ==> all_texts(items) ==> gives_list(
            t.get(key),
            string_items(items),
        ),
{
    if let Some(JsonV::Array(items)) = t.get(key) {
        if all_texts(items) {
            lemma_list(items);
        }
    }
}

/// Every key of a step that is accepted has the value that the document gives it, and
/// only a key that is left out has its default; the type is never left out.
pub proof fn law_steps_are_read(v: JsonV)
    requires
        step_fault(v) is None,
    ensures
        ({
            let t = laid_out(v, strs(STEP_KEYS@));
            let x = step_in(v);
            &&& v is Object ==> t == v
            &&& t is Object
            &&& gives_text(t.get("name"@), x.name)
            &&& gives_word(t.get("hook"@), hook_text(x.hook), "on_request"@)
            &&& t.get("type"@) is Some && gives_word(t.get("type"@), step_type_text(x.type_), "url"@)
            &&& gives_text(t.get("url"@), x.url)
            &&& gives_word(t.get("mode"@), url_mode_text(x.mode), "transform"@)
            &&& gives_number(t.get("timeout_ms"@), x.timeout_ms as int, 1000)
            &&& gives_word(t.get("on_error"@), on_error_text(x.on_error), "fail_closed"@)
            &&& gives_word(t.get("chunk_mode"@), chunk_mode_text(x.chunk_mode), "observe"@)
            &&& gives_switch(t.get("is_guardrail"@), x.is_guardrail)
            &&& gives_word(t.get("script_mode"@), script_mode_text(x.script_mode), "oneshot"@)
            &&& gives_list(t.get("cmd"@), x.cmd)
            &&& gives_text(t.get("wasm"@), x.wasm)
        }),
{
    lemma_config_words();
    let t = laid_out(v, strs(STEP_KEYS@));
    lemma_given_list(t, "cmd"@);
}

/// Every key of the gateway's settings that are accepted has the value that the
/// document gives it, and only a key that is left out has its default.
#[verifier::rlimit(60)]
pub proof fn law_settings_are_read(v: JsonV)
    requires
        gateway_fault(v) is None,
    ensures
        ({
            let t = laid_out(v, strs(GATEWAY_KEYS@));
            let x = gateway_in(v);
            &&& v is Object ==> t == v
            &&& t is Object
            &&& gives_number(t.get("schema_version"@), x.schema_version as int, 1)
            &&& gives_switch(t.get("allow_scripts"@), x.allow_scripts)
            &&& gives_text_or(t.get("listen"@), x.listen, "127.0.0.1:8080"@)
            &&& gives_list(t.get("expose_headers"@), x.expose_headers)
            &&& gives_number(t.get("max_context_bytes"@), x.max_context_bytes as int, 65536)
            &&& gives_number(t.get("max_body_bytes"@), x.max_body_bytes as int, 8_388_608)
            &&& gives_word(t.get("oversize"@), oversize_text(x.oversize), "reject"@)
            &&& gives_number(t.get("max_inflight"@), x.max_inflight as int, 1024)
            &&& gives_number(t.get("upstream_timeout_ms"@), x.upstream_timeout_ms as int, 60_000)
            &&& gives_text_or(t.get("admin_listen"@), x.admin_listen, ""@)
            &&& gives_text_or(t.get("admin_token"@), x.admin_token, ""@)
            &&& gives_text_or(t.get("loopback_secret"@), x.loopback_secret, ""@)
            &&& gives_number(t.get("max_hops"@), x.max_hops as int, 8)
            &&& gives_text_or(t.get("callback_path"@), x.callback_path, "/__sluice/loopback"@)
            &&& gives_number(t.get("max_parked"@), x.max_parked as int, 1024)
            &&& match x.max_event_bytes { Some(n) => t.get("max_event_bytes"@) is Some && gives_number(t.get("max_event_bytes"@), n as int, 0), None => t.get("max_event_bytes"@) is None }
            &&& match x.max_response_bytes { Some(n) => t.get("max_response_bytes"@) is Some && gives_number(t.get("max_response_bytes"@), n as int, 0), None => t.get("max_response_bytes"@) is None }
        }),
{
    lemma_config_words();
    let t = laid_out(v, strs(GATEWAY_KEYS@));
    lemma_given_list(t, "expose_headers"@);
}

/// The dialects of a route have the values that the document gives them.
pub proof fn law_dialects_are_read(v: JsonV)
    requires
        adapter_fault(v) is None,
    ensures
        ({
            let t = laid_out(v, strs(ADAPTER_KEYS@));
            let x = adapter_in(v);
            &&& v is Object ==> t == v
            &&& t is Object
            &&& gives_text(t.get("ingress"@), x.ingress)
            &&& gives_text(t.get("egress"@), x.egress)
        }),
{
    lemma_config_words();
    let t = laid_out(v, strs(ADAPTER_KEYS@));
}

/// The translation of a route has the values that the document gives it.
pub proof fn law_translations_are_read(v: JsonV)
    requires
        translate_fault(v) is None,
    ensures
        ({
            let t = laid_out(v, strs(TRANSLATE_KEYS@));
            let x = translate_in(v);
            &&& v is Object ==> t == v
            &&& t is Object
            &&& t.get("from"@) == Some(JsonV::Str(x.from))
            &&& t.get("to"@) == Some(JsonV::Str(x.to))
            &&& gives_text(t.get("model"@), x.model)
            &&& gives_switch(t.get("report_header"@), x.report_header)
        }),
{
    lemma_config_words();
    let t = laid_out(v, strs(TRANSLATE_KEYS@));
}

proof fn lemma_each_step(items: Seq<JsonV>, k: nat)
    requires
        k <= items.len(),
    ensures
        each_step_fault(items, k) is None <==> forall|i: int|
            0 <= i < k ==> step_fault(#[trigger] items[i]) is None,
    decreases k,
{
    if k > 0 {
        lemma_each_step(items, (k - 1) as nat);
    }
}

proof fn lemma_each_route(items: Seq<JsonV>, k: nat)
    requires
        k <= items.len(),
    ensures
        each_route_fault(items, k) is None <==> forall|i: int|
            0 <= i < k ==> route_fault(#[trigger] items[i]) is None,
    decreases k,
{
    if k > 0 {
        lemma_each_route(items, (k - 1) as nat);
    }
}

/// A route that is accepted has the id and the upstream that the document gives it,
/// each of its steps in order, and its dialects and its translation where the
/// document has them.
pub proof fn law_routes_are_read(v: JsonV)
    requires
        route_fault(v) is None,
    ensures
        ({
            let t = laid_out(v, strs(ROUTE_KEYS@));
            let x = route_in(v);
            &&& v is Object ==> t == v
            &&& t.get("id"@) == Some(JsonV::Str(x.id))
            &&& t.get("upstream"@) == Some(JsonV::Str(x.upstream))
            &&& match t.get("step"@) {
                Some(given) => given matches JsonV::Array(items) && items.len() == x.steps.len() && forall|i: int|
                    0 <= i < items.len() ==> step_fault(#[trigger] items[i]) is None && x.steps[i] == step_in(items[i]),
                None => x.steps.len() == 0,
            }
            &&& match t.get("adapter"@) {
                Some(given) => adapter_fault(given) is None && x.adapter == Some(adapter_in(given)),
                None => x.adapter is None,
            }
            &&& match t.get("translate"@) {
                Some(given) => translate_fault(given) is None && x.translate == Some(translate_in(given)),
                None => x.translate is None,
            }
        }),
{
    let t = laid_out(v, strs(ROUTE_KEYS@));
    if let Some(JsonV::Array(items)) = t.get("step"@) {
        lemma_each_step(items, items.len());
    }
}

/// A configuration that is accepted has the settings that its document gives, the
/// defaults where it gives none, and each of its routes in order.
pub proof fn law_configurations_are_read(v: JsonV)
    requires
        config_fault(v) is None,
    ensures
        ({
            let x = config_in(v);
            &&& match v.get("gateway"@) {
                Some(given) => gateway_fault(given) is None && x.gateway == gateway_in(given),
                None => x.gateway == gateway_in(JsonV::Object(Map::empty())),
            }
            &&& match v.get("route"@) {
                Some(given) => given matches JsonV::Array(items) && items.len() == x.routes.len() && forall|i: int|
                    0 <= i < items.len() ==> route_fault(#[trigger] items[i]) is None && x.routes[i] == route_in(
                        items[i],
                    ),
                None => x.routes.len() == 0,
            }
            &&& x.gateways.len() == 0
            &&& config_read(Ok(v)) == Ok::<ConfigV, ConfigErrorV>(x)
        }),
{
    crate::config::read::law_empty_document_means_defaults();
    if let Some(JsonV::Array(items)) = v.get("route"@) {
        lemma_each_route(items, items.len());
    }
}

proof fn lemma_first_unlisted(keys: Seq<Seq<char>>, known: Seq<Seq<char>>)
    ensures
        first_unlisted(keys, known) is None <==> forall|i: int|
            0 <= i < keys.len() ==> known.contains(#[trigger] keys[i]),
    decreases keys.len(),
{
    if keys.len() > 0 {
        let rest = keys.drop_first();
        lemma_first_unlisted(rest, known);
        if forall|i: int| 0 <= i < keys.len() ==> known.contains(#[trigger] keys[i]) {
            assert forall|i: int| 0 <= i < rest.len() implies known.contains(#[trigger] rest[i]) by {
                assert(rest[i] == keys[i + 1]);
            }
            assert(known.contains(keys[0]));
        }
        if first_unlisted(keys, known) is None {
            assert forall|i: int| 0 <= i < keys.len() implies known.contains(#[trigger] keys[i]) by {
                if i > 0 {
                    assert(keys[i] == rest[i - 1]);
                }
            }
        }
    }
}

/// A table is one exactly where all its keys are known.
pub proof fn law_tables_have_known_keys(m: Map<Seq<char>, JsonV>, known: Seq<Seq<char>>)
    requires
        m.dom().finite(),
    ensures
        table_fault(JsonV::Object(m), known) is None <==> forall|k: Seq<char>| #[trigger]
            m.dom().contains(k) ==> known.contains(k),
{
    lemma_order_exists(m.dom());
    let keys = in_order(m.dom());
    lemma_first_unlisted(keys, known);
    if forall|k: Seq<char>| #[trigger] m.dom().contains(k) ==> known.contains(k) {
        assert forall|i: int| 0 <= i < keys.len() implies known.contains(#[trigger] keys[i]) by {
            assert(keys.to_set().contains(keys[i]));
        }
    }
    if first_unlisted(keys, known) is None {
        assert forall|k: Seq<char>| #[trigger] m.dom().contains(k) implies known.contains(k) by {
            assert(keys.to_set().contains(k));
            let i = choose|i: int| 0 <= i < keys.len() && keys[i] == k;
            assert(known.contains(keys[i]));
        }
    }
}

/// Whether what a key gives is a text, or the key is absent.
pub open spec fn text_or_absent(given: Option<JsonV>) -> bool {
    given is None || given->Some_0 is Str
}

/// Whether what a key gives is a switch, or the key is absent.
pub open spec fn switch_or_absent(given: Option<JsonV>) -> bool {
    given is None || given->Some_0 is Bool
}

/// Whether what a key gives is a number of a range, or the key is absent.
pub open spec fn number_or_absent(given: Option<JsonV>, max: int) -> bool {
    given is None || (given matches Some(JsonV::Number(Num::PosInt(n))) && n <= max)
}

/// Whether what a key gives is a list of texts, or the key is absent.
pub open spec fn list_or_absent(given: Option<JsonV>) -> bool {
    given is None || (given matches Some(JsonV::Array(items)) && forall|i: int|
        0 <= i < items.len() ==> (#[trigger] items[i]) is Str)
}

/// Whether what a key gives is one of some words, or the key is absent.
pub open spec fn word_or_absent(given: Option<JsonV>, words: Seq<Seq<char>>) -> bool {
    given is None || (word_in(given->Some_0) matches Some(w) && words.contains(w))
}

/// A step is accepted exactly where its keys are known, its type is there, and each
/// key gives what it is for.
#[verifier::rlimit(60)]
pub proof fn law_steps_are_accepted(v: JsonV)
    ensures
        step_fault(v) is None <==> {
            let t = laid_out(v, strs(STEP_KEYS@));
            &&& table_fault(t, strs(STEP_KEYS@)) is None
            &&& text_or_absent(t.get("name"@))
            &&& word_or_absent(t.get("hook"@), seq!["on_request"@, "on_response"@, "on_stream"@])
            &&& t.get("type"@) is Some && word_or_absent(t.get("type"@), seq!["url"@, "script"@, "wasm"@])
            &&& text_or_absent(t.get("url"@))
            &&& word_or_absent(t.get("mode"@), seq!["transform"@, "loopback"@])
            &&& number_or_absent(t.get("timeout_ms"@), u64::MAX as int)
            &&& word_or_absent(t.get("on_error"@), seq!["fail_open"@, "fail_closed"@])
            &&& word_or_absent(t.get("chunk_mode"@), seq!["observe"@, "mutate"@])
            &&& switch_or_absent(t.get("is_guardrail"@))
            &&& word_or_absent(t.get("script_mode"@), seq!["oneshot"@, "worker"@])
            &&& list_or_absent(t.get("cmd"@))
            &&& text_or_absent(t.get("wasm"@))
        },
{
    lemma_config_words();
    assert(seq!["on_request"@, "on_response"@, "on_stream"@][0] == "on_request"@);
    assert(seq!["on_request"@, "on_response"@, "on_stream"@][1] == "on_response"@);
    assert(seq!["on_request"@, "on_response"@, "on_stream"@][2] == "on_stream"@);
    assert(seq!["url"@, "script"@, "wasm"@][0] == "url"@);
    assert(seq!["url"@, "script"@, "wasm"@][1] == "script"@);
    assert(seq!["url"@, "script"@, "wasm"@][2] == "wasm"@);
    assert(seq!["transform"@, "loopback"@][0] == "transform"@);
    assert(seq!["transform"@, "loopback"@][1] == "loopback"@);
    assert(seq!["fail_open"@, "fail_closed"@][0] == "fail_open"@);
    assert(seq!["fail_open"@, "fail_closed"@][1] == "fail_closed"@);
    assert(seq!["observe"@, "mutate"@][0] == "observe"@);
    assert(seq!["observe"@, "mutate"@][1] == "mutate"@);
    assert(seq!["oneshot"@, "worker"@][0] == "oneshot"@);
    assert(seq!["oneshot"@, "worker"@][1] == "worker"@);
}

/// The gateway's settings are accepted exactly where their keys are known and each key
/// gives what it is for.
#[verifier::rlimit(60)]
pub proof fn law_settings_are_accepted(v: JsonV)
    ensures
        gateway_fault(v) is None <==> {
            let t = laid_out(v, strs(GATEWAY_KEYS@));
            &&& table_fault(t, strs(GATEWAY_KEYS@)) is None
            &&& number_or_absent(t.get("schema_version"@), u32::MAX as int)
            &&& switch_or_absent(t.get("allow_scripts"@))
            &&& text_or_absent(t.get("listen"@))
            &&& list_or_absent(t.get("expose_headers"@))
            &&& number_or_absent(t.get("max_context_bytes"@), usize::MAX as int)
            &&& number_or_absent(t.get("max_body_bytes"@), usize::MAX as int)
            &&& word_or_absent(t.get("oversize"@), seq!["reject"@, "stream_through"@])
            &&& number_or_absent(t.get("max_inflight"@), usize::MAX as int)
            &&& number_or_absent(t.get("upstream_timeout_ms"@), u64::MAX as int)
            &&& text_or_absent(t.get("admin_listen"@))
            &&& text_or_absent(t.get("admin_token"@))
            &&& text_or_absent(t.get("loopback_secret"@))
            &&& number_or_absent(t.get("max_hops"@), u32::MAX as int)
            &&& text_or_absent(t.get("callback_path"@))
            &&& number_or_absent(t.get("max_parked"@), usize::MAX as int)
            &&& number_or_absent(t.get("max_event_bytes"@), usize::MAX as int)
            &&& number_or_absent(t.get("max_response_bytes"@), usize::MAX as int)
        },
{
    lemma_config_words();
    assert(seq!["reject"@, "stream_through"@][0] == "reject"@);
    assert(seq!["reject"@, "stream_through"@][1] == "stream_through"@);
}

/// A route is accepted exactly where its keys are known, it has an id and an upstream,
/// and its steps, its dialects and its translation are accepted.
pub proof fn law_routes_are_accepted(v: JsonV)
    ensures
        route_fault(v) is None <==> {
            let t = laid_out(v, strs(ROUTE_KEYS@));
            &&& table_fault(t, strs(ROUTE_KEYS@)) is None
            &&& t.get("id"@) matches Some(JsonV::Str(_))
            &&& t.get("upstream"@) matches Some(JsonV::Str(_))
            &&& match t.get("step"@) {
                Some(given) => given matches JsonV::Array(items) && forall|i: int|
                    0 <= i < items.len() ==> step_fault(#[trigger] items[i]) is None,
                None => true,
            }
            &&& t.get("adapter"@) matches Some(given) ==> adapter_fault(given) is None
            &&& t.get("translate"@) matches Some(given) ==> translate_fault(given) is None
        },
{
    let t = laid_out(v, strs(ROUTE_KEYS@));
    if let Some(JsonV::Array(items)) = t.get("step"@) {
        lemma_each_step(items, items.len());
    }
}

/// The dialects of a route are accepted exactly where their keys are known and both
/// are texts; a translation where it also says from what to what.
pub proof fn law_dialects_and_translations_are_accepted(v: JsonV)
    ensures
        adapter_fault(v) is None <==> {
            let t = laid_out(v, strs(ADAPTER_KEYS@));
            &&& table_fault(t, strs(ADAPTER_KEYS@)) is None
            &&& text_or_absent(t.get("ingress"@))
            &&& text_or_absent(t.get("egress"@))
        },
        translate_fault(v) is None <==> {
            let t = laid_out(v, strs(TRANSLATE_KEYS@));
            &&& table_fault(t, strs(TRANSLATE_KEYS@)) is None
            &&& t.get("from"@) matches Some(JsonV::Str(_))
            &&& t.get("to"@) matches Some(JsonV::Str(_))
            &&& text_or_absent(t.get("model"@))
            &&& switch_or_absent(t.get("report_header"@))
        },
{
}

/// A configuration is accepted exactly where its keys are known and its settings and
/// all its routes are accepted; a document that cannot be read fails with the reader's
/// words.
pub proof fn law_configurations_are_accepted(v: JsonV, why: Seq<char>)
    ensures
        config_fault(v) is None <==> {
            &&& table_fault(v, strs(CONFIG_KEYS@)) is None
            &&& v.get("gateway"@) matches Some(given) ==> gateway_fault(given) is None
            &&& match v.get("route"@) {
                Some(given) => given matches JsonV::Array(items) && forall|i: int|
                    0 <= i < items.len() ==> route_fault(#[trigger] items[i]) is None,
                None => true,
            }
        },
        config_read(Ok(v)) is Ok <==> config_fault(v) is None,
        config_read(Err(why)) == Err::<ConfigV, ConfigErrorV>(ConfigErrorV::Parse(why)),
        config_read(Ok(v)) is Err ==> config_read(Ok(v))->Err_0 is Parse,
{
    if let Some(JsonV::Array(items)) = v.get("route"@) {
        lemma_each_route(items, items.len());
    }
}

/// The files of a directory are read like a configuration's parts: the settings file
/// gives settings alone, a routes file routes alone, a listener file an address and
/// the routes of a listener. Each is accepted exactly where its part is, and what is
/// wrong in one is told with its path.
pub proof fn law_directory_files_are_read(path: Seq<char>, read: Result<JsonV, Seq<char>>, why: Seq<char>)
    ensures
        settings_file(path, read) is Ok <==> (read matches Ok(v) && table_fault(v, seq!["gateway"@]) is None && (v.get(
            "gateway"@,
        ) matches Some(given) ==> gateway_fault(given) is None)),
        settings_file(path, read) matches Ok(g) ==> (read matches Ok(v) && match v.get("gateway"@) {
            Some(given) => g == gateway_in(given),
            None => g == gateway_in(JsonV::Object(Map::empty())),
        }),
        routes_file(path, read) is Ok <==> (read matches Ok(v) && table_fault(v, seq!["route"@]) is None && match v.get(
            "route"@,
        ) {
            Some(given) => given matches JsonV::Array(items) && forall|i: int|
                0 <= i < items.len() ==> route_fault(#[trigger] items[i]) is None,
            None => true,
        }),
        routes_file(path, read) matches Ok(routes) ==> (read matches Ok(v) && match v.get("route"@) {
            Some(given) => given matches JsonV::Array(items) && items.len() == routes.len() && forall|i: int|
                0 <= i < items.len() ==> routes[i] == route_in(#[trigger] items[i]),
            None => routes.len() == 0,
        }),
        listener_file(path, read) is Ok <==> (read matches Ok(v) && table_fault(v, seq!["listen"@, "routes"@]) is None
            && (v.get("listen"@) matches Some(JsonV::Str(_))) && list_or_absent(v.get("routes"@))),
        listener_file(path, read) matches Ok((listen, routes)) ==> (read matches Ok(v) && v.get("listen"@) == Some(
            JsonV::Str(listen),
        ) && gives_list(v.get("routes"@), routes)),
        read == Err::<JsonV, Seq<char>>(why) ==> {
            let told = ConfigErrorV::Invalid("failed to parse "@ + path + ": "@ + why);
            &&& settings_file(path, read) == Err::<GatewayV, ConfigErrorV>(told)
            &&& routes_file(path, read) == Err::<Seq<RouteV>, ConfigErrorV>(told)
            &&& listener_file(path, read) == Err::<(Seq<char>, Seq<Seq<char>>), ConfigErrorV>(told)
        },
        settings_file(path, read) matches Err(e) ==> (e matches ConfigErrorV::Invalid(text) && exists|
            rest: Seq<char>,
        | text == #[trigger] ("failed to parse "@ + path + ": "@ + rest)),
        routes_file(path, read) matches Err(e) ==> (e matches ConfigErrorV::Invalid(text) && exists|
            rest: Seq<char>,
        | text == #[trigger] ("failed to parse "@ + path + ": "@ + rest)),
        listener_file(path, read) matches Err(e) ==> (e matches ConfigErrorV::Invalid(text) && exists|
            rest: Seq<char>,
        | text == #[trigger] ("failed to parse "@ + path + ": "@ + rest)),
{
    crate::field_names::law_config_read_names();
    crate::config::read::law_empty_document_means_defaults();
    if let Ok(v) = read {
        if let Some(JsonV::Array(items)) = v.get("route"@) {
            lemma_each_route(items, items.len());
        }
        lemma_given_list(v, "routes"@);
    }
}

/// A file that could not be opened is told by the opener's words; a directory without a
/// settings file has the default settings.
pub proof fn law_sources_are_read(f: SourceFileV)
    ensures
        settings_source(None) == Ok::<GatewayV, ConfigErrorV>(gateway_in(JsonV::Object(Map::empty()))),
        route_source(f).file_name == f.file_name && route_source(f).path == f.path,
        listener_source(f).file_name == f.file_name,
        match f.text {
            Err(why) => {
                &&& settings_source(Some(f)) == Err::<GatewayV, ConfigErrorV>(ConfigErrorV::Io(why))
                &&& route_source(f).routes == Err::<Seq<RouteV>, ConfigErrorV>(ConfigErrorV::Io(why))
                &&& listener_source(f).listener == Err::<(Seq<char>, Seq<Seq<char>>), ConfigErrorV>(
                    ConfigErrorV::Io(why),
                )
            },
            Ok(text) => {
                &&& settings_source(Some(f)) == settings_file(f.path, toml_read(text))
                &&& route_source(f).routes == routes_file(f.path, toml_read(text))
                &&& listener_source(f).listener == listener_file(f.path, toml_read(text))
            },
        },
{
    crate::config::read::law_empty_document_means_defaults();
}

/// A directory is read from its settings file and then from its other files; one whose
/// settings fail fails with them.
pub proof fn law_directories_are_read(
    gateway: Option<SourceFileV>,
    routes: Seq<SourceFileV>,
    listeners: Seq<SourceFileV>,
)
    ensures
        match settings_source(gateway) {
            Err(e) => dir_read(gateway, routes, listeners) == Err::<ConfigV, ConfigErrorV>(e),
            Ok(g) => dir_read(gateway, routes, listeners) == dir_config(
                g,
                routes.map_values(|f: SourceFileV| route_source(f)),
                listeners.map_values(|f: SourceFileV| listener_source(f)),
            ),
        },
{
}

/// What was read is checked: the first problem, if there is one, refuses it.
pub proof fn law_what_is_read_is_checked(read: Result<ConfigV, ConfigErrorV>, env: SurroundingsV)
    ensures
        match read {
            Err(e) => checked(read, env) == Err::<ConfigV, ConfigErrorV>(e),
            Ok(cfg) => match config_problem(cfg, env) {
                Some(why) => checked(read, env) == Err::<ConfigV, ConfigErrorV>(ConfigErrorV::Invalid(why)),
                None => checked(read, env) == Ok::<ConfigV, ConfigErrorV>(cfg),
            },
        },
{
}

/// The files of a directory are all taken, once each, none before one whose name comes
/// earlier.
pub proof fn law_files_are_taken_by_name(ordered: Seq<SourceFile>, given: Seq<SourceFile>, i: int, j: int)
    ensures
        name_ordered(ordered, given) ==> ordered.to_multiset() == given.to_multiset() && (0 <= i < j < ordered.len()
            ==> !precedes(ordered[j].file_name@, ordered[i].file_name@)),
{
}

/// A word is a text, or the one key of a table that holds an empty list or table.
pub proof fn law_words_are_read(v: JsonV, word: Seq<char>)
    requires
        v matches JsonV::Object(m) ==> m.dom().finite(),
    ensures
        word_in(v) == Some(word) <==> v == JsonV::Str(word) || (v matches JsonV::Object(m) && m.dom() == set![word] && (
        m[word] == JsonV::Array(Seq::empty()) || m[word] == JsonV::Object(Map::empty()))),
{
    if let JsonV::Object(m) = v {
        lemma_order_exists(m.dom());
        let keys = in_order(m.dom());
        if word_in(v) == Some(word) {
            assert(keys =~= seq![word]);
            assert(keys.to_set() =~= set![word]) by {
                assert(keys.contains(keys[0]));
            }
        }
        if m.dom() == set![word] {
            assert(keys.to_set().contains(word));
            let i = choose|i: int| 0 <= i < keys.len() && keys[i] == word;
            assert forall|k: int| 0 <= k < keys.len() implies keys[k] == word by {
                assert(keys.to_set().contains(keys[k]));
            }
            if keys.len() > 1 {
                assert(precedes(keys[0], keys[1]));
                lemma_precedes_irreflexive(word);
            }
        }
    }
}

/// Whether a text tells of a key that is unknown, missing, or of the wrong shape.
pub open spec fn tells_of(t: JsonV, known: Seq<Seq<char>>, key: Seq<char>, text: Seq<char>) -> bool {
    ||| t.get(key) is Some && !known.contains(key) && text == "unknown field `"@ + key + "`"@
    ||| t.get(key) is None && text == "missing field `"@ + key + "`"@
    ||| t.get(key) is Some && text == "invalid value for `"@ + key + "`"@
}

proof fn lemma_told(t: JsonV, known: Seq<Seq<char>>, key: Seq<char>, text: Seq<char>)
    ensures
        tells_of(t, known, key, text) ==> exists|k: Seq<char>| #[trigger] tells_of(t, known, k, text),
        tells_of(t, known, key, text) == ((t.get(key) is Some && !known.contains(key) && text == "unknown field `"@ + key
            + "`"@) || (t.get(key) is None && text == "missing field `"@ + key + "`"@) || (t.get(key) is Some && text
            == "invalid value for `"@ + key + "`"@)),
{
}

proof fn lemma_unlisted(keys: Seq<Seq<char>>, known: Seq<Seq<char>>)
    ensures
        first_unlisted(keys, known) matches Some(k) ==> keys.contains(k) && !known.contains(k),
    decreases keys.len(),
{
    if keys.len() > 0 {
        let rest = keys.drop_first();
        lemma_unlisted(rest, known);
        if let Some(k) = first_unlisted(keys, known) {
            if known.contains(keys[0]) {
                let i = choose|i: int| 0 <= i < rest.len() && rest[i] == k;
                assert(keys[i + 1] == k);
            } else {
                assert(keys[0] == k);
            }
        }
    }
}

/// What is wrong with a table is told by its key, unless it is no table at all.
pub proof fn law_tables_are_told_by_key(t: JsonV, known: Seq<Seq<char>>)
    requires
        t matches JsonV::Object(m) ==> m.dom().finite(),
    ensures
        !(t is Object) ==> table_fault(t, known) == Some("expected a table"@),
        t is Object ==> (table_fault(t, known) matches Some(text) ==> exists|k: Seq<char>|
            t.get(k) is Some && !known.contains(k) && text == #[trigger] ("unknown field `"@ + k + "`"@)),
{
    if let JsonV::Object(m) = t {
        lemma_order_exists(m.dom());
        let keys = in_order(m.dom());
        lemma_unlisted(keys, known);
        if let Some(k) = first_unlisted(keys, known) {
            assert(keys.to_set().contains(k));
            assert(t.get(k) is Some);
        }
    }
}

/// What is wrong with a step is told by its key.
#[verifier::rlimit(60)]
pub proof fn law_faults_of_a_step_are_told(v: JsonV)
    ensures
        ({
            let t = laid_out(v, strs(STEP_KEYS@));
            let known = strs(STEP_KEYS@);
            step_fault(v) matches Some(text) ==> Some(text) == table_fault(t, known) || exists|k: Seq<char>| #[trigger]
                tells_of(t, known, k, text)
        }),
{
    let t = laid_out(v, strs(STEP_KEYS@));
    let known = strs(STEP_KEYS@);
    if let Some(text) = step_fault(v) {
        if Some(text) != table_fault(t, known) {
            lemma_told(t, known, "name"@, text);
            lemma_told(t, known, "hook"@, text);
            lemma_told(t, known, "type"@, text);
            lemma_told(t, known, "url"@, text);
            lemma_told(t, known, "mode"@, text);
            lemma_told(t, known, "timeout_ms"@, text);
            lemma_told(t, known, "on_error"@, text);
            lemma_told(t, known, "chunk_mode"@, text);
            lemma_told(t, known, "is_guardrail"@, text);
            lemma_told(t, known, "script_mode"@, text);
            lemma_told(t, known, "cmd"@, text);
            lemma_told(t, known, "wasm"@, text);
        }
    }
}

/// What is wrong with the settings is told by its key.
#[verifier::rlimit(60)]
pub proof fn law_faults_of_the_settings_are_told(v: JsonV)
    ensures
        ({
            let t = laid_out(v, strs(GATEWAY_KEYS@));
            let known = strs(GATEWAY_KEYS@);
            gateway_fault(v) matches Some(text) ==> Some(text) == table_fault(t, known) || exists|k: Seq<char>| #[trigger]
                tells_of(t, known, k, text)
        }),
{
    let t = laid_out(v, strs(GATEWAY_KEYS@));
    let known = strs(GATEWAY_KEYS@);
    if let Some(text) = gateway_fault(v) {
        if Some(text) != table_fault(t, known) {
            lemma_told(t, known, "schema_version"@, text);
            lemma_told(t, known, "allow_scripts"@, text);
            lemma_told(t, known, "listen"@, text);
            lemma_told(t, known, "expose_headers"@, text);
            lemma_told(t, known, "max_context_bytes"@, text);
            lemma_told(t, known, "max_body_bytes"@, text);
            lemma_told(t, known, "oversize"@, text);
            lemma_told(t, known, "max_inflight"@, text);
            lemma_told(t, known, "upstream_timeout_ms"@, text);
            lemma_told(t, known, "admin_listen"@, text);
            lemma_told(t, known, "admin_token"@, text);
            lemma_told(t, known, "loopback_secret"@, text);
            lemma_told(t, known, "max_hops"@, text);
            lemma_told(t, known, "callback_path"@, text);
            lemma_told(t, known, "max_parked"@, text);
            lemma_told(t, known, "max_event_bytes"@, text);
            lemma_told(t, known, "max_response_bytes"@, text);
        }
    }
}

/// What is wrong with the dialects of a route is told by its key.
#[verifier::rlimit(60)]
pub proof fn law_faults_of_dialects_are_told(v: JsonV)
    ensures
        ({
            let t = laid_out(v, strs(ADAPTER_KEYS@));
            let known = strs(ADAPTER_KEYS@);
            adapter_fault(v) matches Some(text) ==> Some(text) == table_fault(t, known) || exists|k: Seq<char>| #[trigger]
                tells_of(t, known, k, text)
        }),
{
    let t = laid_out(v, strs(ADAPTER_KEYS@));
    let known = strs(ADAPTER_KEYS@);
    if let Some(text) = adapter_fault(v) {
        if Some(text) != table_fault(t, known) {
            lemma_told(t, known, "ingress"@, text);
            lemma_told(t, known, "egress"@, text);
        }
    }
}

/// What is wrong with a translation is told by its key.
#[verifier::rlimit(60)]
pub proof fn law_faults_of_a_translation_are_told(v: JsonV)
    ensures
        ({
            let t = laid_out(v, strs(TRANSLATE_KEYS@));
            let known = strs(TRANSLATE_KEYS@);
            translate_fault(v) matches Some(text) ==> Some(text) == table_fault(t, known) || exists|k: Seq<char>| #[trigger]
                tells_of(t, known, k, text)
        }),
{
    let t = laid_out(v, strs(TRANSLATE_KEYS@));
    let known = strs(TRANSLATE_KEYS@);
    if let Some(text) = translate_fault(v) {
        if Some(text) != table_fault(t, known) {
            lemma_told(t, known, "from"@, text);
            lemma_told(t, known, "to"@, text);
            lemma_told(t, known, "model"@, text);
            lemma_told(t, known, "report_header"@, text);
        }
    }
}

/// What is wrong with a route is told by its key, or as what is wrong with one of its
/// steps, its dialects or its translation.
pub proof fn law_faults_of_a_route_are_told(v: JsonV)
    ensures
        ({
            let t = laid_out(v, strs(ROUTE_KEYS@));
            let known = strs(ROUTE_KEYS@);
            route_fault(v) matches Some(text) ==> {
                ||| Some(text) == table_fault(t, known)
                ||| exists|k: Seq<char>| #[trigger] tells_of(t, known, k, text)
                ||| t.get("step"@) matches Some(JsonV::Array(items)) && exists|i: int|
                    0 <= i < items.len() && step_fault(#[trigger] items[i]) == Some(text)
                ||| t.get("adapter"@) matches Some(given) && adapter_fault(given) == Some(text)
                ||| t.get("translate"@) matches Some(given) && translate_fault(given) == Some(text)
            }
        }),
{
    let t = laid_out(v, strs(ROUTE_KEYS@));
    let known = strs(ROUTE_KEYS@);
    if let Some(text) = route_fault(v) {
        lemma_told(t, known, "id"@, text);
        lemma_told(t, known, "upstream"@, text);
        lemma_told(t, known, "step"@, text);
        if let Some(JsonV::Array(items)) = t.get("step"@) {
            lemma_some_step(items, items.len());
        }
    }
}

proof fn lemma_some_step(items: Seq<JsonV>, k: nat)
    requires
        k <= items.len(),
    ensures
        each_step_fault(items, k) matches Some(text) ==> exists|i: int|
            0 <= i < items.len() && step_fault(#[trigger] items[i]) == Some(text),
    decreases k,
{
    if k > 0 {
        lemma_some_step(items, (k - 1) as nat);
        if each_step_fault(items, k) is Some && each_step_fault(items, (k - 1) as nat) is None {
            assert(step_fault(items[k - 1]) == each_step_fault(items, k));
        }
    }
}

/// Loading a directory takes its routes files in the order of their names, and its
/// listener files too, then checks what was read.
pub proof fn law_directories_are_loaded_by_name(
    gateway: Option<SourceFileV>,
    routes: Seq<SourceFile>,
    listeners: Seq<SourceFile>,
    env: SurroundingsV,
    r: Result<ConfigV, ConfigErrorV>,
)
    requires
        dir_loads(gateway, routes, listeners, env, r),
    ensures
        exists|rs: Seq<SourceFile>, ls: Seq<SourceFile>|
            #![trigger views(rs), views(ls)]
            rs.to_multiset() == routes.to_multiset() && ls.to_multiset() == listeners.to_multiset() && (forall|i: int, j: int|
                0 <= i < j < rs.len() ==> !precedes((#[trigger] rs[j]).file_name@, (#[trigger] rs[i]).file_name@)) && (
            forall|i: int, j: int|
                0 <= i < j < ls.len() ==> !precedes((#[trigger] ls[j]).file_name@, (#[trigger] ls[i]).file_name@)) && r
                == checked(dir_read(gateway, views(rs), views(ls)), env),
{
    let (rs, ls) = choose|rs: Seq<SourceFile>, ls: Seq<SourceFile>|
        #![trigger name_ordered(rs, routes), name_ordered(ls, listeners)]
        name_ordered(rs, routes) && name_ordered(ls, listeners) && r == checked(
            dir_read(gateway, views(rs), views(ls)),
            env,
        );
    let (vr, vl) = (views(rs), views(ls));
    assert(r == checked(dir_read(gateway, vr, vl), env));
}

} // verus!
