//! What a step is handed: the message with all that is known of it.

use vstd::prelude::*;

use crate::http_msg::{law_msg_survives, msg_in, msg_value, HttpMsg, HttpMsgV};
use crate::json::{opt_str, or_null, string, string_or_null, uint, Json, JsonMap, JsonV, Num};
use crate::llm::form::{opt_text_in, read_opt_text};
use crate::llm::words::lemma_envelope_words;
use crate::llm::{law_llm_survives, llm_can_stand, llm_in, llm_value, Llm, LlmV};
use crate::shape::{pick, seat, seated};
use crate::text::{opt_view, strs};

verus! {

/// The version of the envelope's shape.
pub const ENVELOPE_VERSION: u32 = 1;

/// What a step is handed.
#[derive(Clone, PartialEq, Debug)]
pub struct Envelope {
    pub envelope_version: u32,
    pub hook: String,
    pub route_id: String,
    pub correlation_id: String,
    pub self_: Option<String>,
    pub request: HttpMsg,
    pub response: Option<HttpMsg>,
    pub chunk: Option<Json>,
    pub llm: Option<Llm>,
    pub context: JsonMap,
}

#[verifier::ext_equal]
pub struct EnvelopeV {
    pub envelope_version: u32,
    pub hook: Seq<char>,
    pub route_id: Seq<char>,
    pub correlation_id: Seq<char>,
    pub self_: Option<Seq<char>>,
    pub request: HttpMsgV,
    pub response: Option<HttpMsgV>,
    pub chunk: Option<JsonV>,
    pub llm: Option<LlmV>,
    pub context: Map<Seq<char>, JsonV>,
}

impl View for Envelope {
    type V = EnvelopeV;

    open spec fn view(&self) -> EnvelopeV {
        EnvelopeV {
            envelope_version: self.envelope_version,
            hook: self.hook@,
            route_id: self.route_id@,
            correlation_id: self.correlation_id@,
            self_: opt_view(self.self_),
            request: self.request@,
            response: opt_view(self.response),
            chunk: opt_view(self.chunk),
            llm: opt_view(self.llm),
            context: self.context@,
        }
    }
}

fn copy_llm(llm: Option<&Llm>) -> (r: Option<Llm>)
    ensures
        opt_view(r) == ref_view(llm),
{
    match llm {
        Some(l) => Some(l.dup()),
        None => None,
    }
}

/// The view of a reference that may be absent.
pub open spec fn ref_view(llm: Option<&Llm>) -> Option<LlmV> {
    match llm {
        Some(l) => Some(l@),
        None => None,
    }
}

/// The envelope of a request on its way to the upstream.
pub fn build_request_envelope(
    route_id: &str,
    self_name: &str,
    req: &HttpMsg,
    context: &JsonMap,
    correlation_id: &str,
    llm: Option<&Llm>,
) -> (r: Envelope)
    ensures
        r@ == (EnvelopeV {
            envelope_version: ENVELOPE_VERSION,
            hook: "on_request"@,
            route_id: route_id@,
            correlation_id: correlation_id@,
            self_: Some(self_name@),
            request: req@,
            response: None,
            chunk: None,
            llm: ref_view(llm),
            context: context@,
        }),
{
    Envelope {
        envelope_version: ENVELOPE_VERSION,
        hook: "on_request".to_owned(),
        route_id: route_id.to_owned(),
        correlation_id: correlation_id.to_owned(),
        self_: Some(self_name.to_owned()),
        request: req.dup(),
        response: None,
        chunk: None,
        llm: copy_llm(llm),
        context: context.dup(),
    }
}

/// The envelope of a response on its way to the client, with the request that it
/// answers.
pub fn build_response_envelope(
    route_id: &str,
    self_name: &str,
    req: &HttpMsg,
    resp: &HttpMsg,
    context: &JsonMap,
    correlation_id: &str,
    llm: Option<&Llm>,
) -> (r: Envelope)
    ensures
        r@ == (EnvelopeV {
            envelope_version: ENVELOPE_VERSION,
            hook: "on_response"@,
            route_id: route_id@,
            correlation_id: correlation_id@,
            self_: Some(self_name@),
            request: req@,
            response: Some(resp@),
            chunk: None,
            llm: ref_view(llm),
            context: context@,
        }),
{
    Envelope {
        envelope_version: ENVELOPE_VERSION,
        hook: "on_response".to_owned(),
        route_id: route_id.to_owned(),
        correlation_id: correlation_id.to_owned(),
        self_: Some(self_name.to_owned()),
        request: req.dup(),
        response: Some(resp.dup()),
        chunk: None,
        llm: copy_llm(llm),
        context: context.dup(),
    }
}

/// The envelope of one event of a streamed response.
pub fn build_stream_envelope(
    route_id: &str,
    self_name: &str,
    req: &HttpMsg,
    chunk_json: Json,
    context: &JsonMap,
    correlation_id: &str,
    llm: Option<&Llm>,
) -> (r: Envelope)
    ensures
        r@ == (EnvelopeV {
            envelope_version: ENVELOPE_VERSION,
            hook: "on_stream"@,
            route_id: route_id@,
            correlation_id: correlation_id@,
            self_: Some(self_name@),
            request: req@,
            response: None,
            chunk: Some(chunk_json@),
            llm: ref_view(llm),
            context: context@,
        }),
{
    Envelope {
        envelope_version: ENVELOPE_VERSION,
        hook: "on_stream".to_owned(),
        route_id: route_id.to_owned(),
        correlation_id: correlation_id.to_owned(),
        self_: Some(self_name.to_owned()),
        request: req.dup(),
        response: None,
        chunk: Some(chunk_json),
        llm: copy_llm(llm),
        context: context.dup(),
    }
}

/// The value of an envelope: what is absent is null.
pub open spec fn envelope_value(e: EnvelopeV) -> JsonV {
    JsonV::Object(
        Map::<Seq<char>, JsonV>::empty().insert(
            "envelope_version"@,
            JsonV::Number(Num::PosInt(e.envelope_version as u64)),
        ).insert("hook"@, JsonV::Str(e.hook)).insert("route_id"@, JsonV::Str(e.route_id)).insert(
            "correlation_id"@,
            JsonV::Str(e.correlation_id),
        ).insert("self"@, or_null(opt_str(e.self_))).insert("request"@, msg_value(e.request)).insert(
            "response"@,
            match e.response {
                Some(m) => msg_value(m),
                None => JsonV::Null,
            },
        ).insert("chunk"@, or_null(e.chunk)).insert(
            "llm"@,
            match e.llm {
                Some(l) => llm_value(l),
                None => JsonV::Null,
            },
        ).insert("context"@, JsonV::Object(e.context)),
    )
}

impl Envelope {
    /// The envelope as a JSON value.
    pub fn to_json(&self) -> (r: Json)
        ensures
            r@ == envelope_value(self@),
    {
        let response = match &self.response {
            Some(m) => m.to_json(),
            None => Json::Null,
        };
        let chunk = match &self.chunk {
            Some(c) => c.dup(),
            None => Json::Null,
        };
        let llm = match &self.llm {
            Some(l) => l.to_json(),
            None => Json::Null,
        };
        Json::Object(
            JsonMap::new().set("envelope_version", uint(self.envelope_version as u64)).set(
                "hook",
                string(self.hook.as_str()),
            ).set("route_id", string(self.route_id.as_str())).set(
                "correlation_id",
                string(self.correlation_id.as_str()),
            ).set("self", string_or_null(&self.self_)).set("request", self.request.to_json()).set(
                "response",
                response,
            ).set("chunk", chunk).set("llm", llm).set("context", Json::Object(self.context.dup())),
        )
    }

    /// Reads it from a value.
    pub fn from_json(v: &Json) -> (r: Option<Envelope>)
        ensures
            opt_view(r) == envelope_in(v@),
    {
        let seats = seat(v, &ENVELOPE_FIELDS, 10);
        let v = pick(&seats, v);
        let envelope_version = match v.u64_at("envelope_version") {
            Some(n) => n,
            None => {
                return None;
            },
        };
        if envelope_version > u32::MAX as u64 {
            return None;
        }
        let (hook, route_id, correlation_id) = match (
            v.str_at("hook"),
            v.str_at("route_id"),
            v.str_at("correlation_id"),
        ) {
            (Some(hook), Some(route_id), Some(correlation_id)) => (hook, route_id, correlation_id),
            _ => {
                return None;
            },
        };
        let request = match v.get("request") {
            Some(x) => HttpMsg::from_json(x),
            None => None,
        };
        let context = match v.get("context") {
            Some(Json::Object(m)) => m.dup(),
            _ => {
                return None;
            },
        };
        match (read_opt_text(v, "self"), request, read_opt_msg(v), read_opt_llm(v)) {
            (Some(self_), Some(request), Some(response), Some(llm)) => Some(
                Envelope {
                    envelope_version: envelope_version as u32,
                    hook: hook.clone(),
                    route_id: route_id.clone(),
                    correlation_id: correlation_id.clone(),
                    self_,
                    request,
                    response,
                    chunk: read_chunk(v),
                    llm,
                    context,
                },
            ),
            _ => None,
        }
    }
}

/// The fields of an envelope, in order.
pub const ENVELOPE_FIELDS: [&'static str; 10] = [
    "envelope_version",
    "hook",
    "route_id",
    "correlation_id",
    "self",
    "request",
    "response",
    "chunk",
    "llm",
    "context",
];

/// The response of an envelope, which may be absent or null.
pub open spec fn opt_msg_at(v: JsonV) -> Option<Option<HttpMsgV>> {
    match v.get("response"@) {
        None => Some(None),
        Some(JsonV::Null) => Some(None),
        Some(x) => match msg_in(x) {
            Some(m) => Some(Some(m)),
            None => None,
        },
    }
}

/// The plain view in an envelope, which may be absent or null.
pub open spec fn opt_llm_at(v: JsonV) -> Option<Option<LlmV>> {
    match v.get("llm"@) {
        None => Some(None),
        Some(JsonV::Null) => Some(None),
        Some(x) => match llm_in(x) {
            Some(l) => Some(Some(l)),
            None => None,
        },
    }
}

/// The chunk of an envelope, which may be absent or null.
pub open spec fn chunk_in(v: JsonV) -> Option<JsonV> {
    match v.get("chunk"@) {
        None => None,
        Some(JsonV::Null) => None,
        Some(x) => Some(x),
    }
}

/// The envelope that a value spells out.
pub open spec fn envelope_in(v: JsonV) -> Option<EnvelopeV> {
    let v = seated(v, strs(ENVELOPE_FIELDS@), 10);
    match (
        v.uint_at("envelope_version"@),
        v.text_at("hook"@),
        v.text_at("route_id"@),
        v.text_at("correlation_id"@),
        opt_text_in(v, "self"@),
        match v.get("request"@) {
            Some(x) => msg_in(x),
            None => None,
        },
        opt_msg_at(v),
        opt_llm_at(v),
        v.get("context"@),
    ) {
        (
            Some(envelope_version),
            Some(hook),
            Some(route_id),
            Some(correlation_id),
            Some(self_),
            Some(request),
            Some(response),
            Some(llm),
            Some(JsonV::Object(context)),
        ) => if envelope_version > u32::MAX {
            None
        } else {
            Some(
                EnvelopeV {
                    envelope_version: envelope_version as u32,
                    hook,
                    route_id,
                    correlation_id,
                    self_,
                    request,
                    response,
                    chunk: chunk_in(v),
                    llm,
                    context,
                },
            )
        },
        _ => None,
    }
}

/// The view of a response that was read.
pub open spec fn opt_msg_view(r: Option<Option<HttpMsg>>) -> Option<Option<HttpMsgV>> {
    match r {
        Some(m) => Some(opt_view(m)),
        None => None,
    }
}

fn read_opt_msg(v: &Json) -> (r: Option<Option<HttpMsg>>)
    ensures
        opt_msg_view(r) == opt_msg_at(v@),
{
    match v.get("response") {
        None => Some(None),
        Some(Json::Null) => Some(None),
        Some(x) => match HttpMsg::from_json(x) {
            Some(m) => Some(Some(m)),
            None => None,
        },
    }
}

/// The view of a plain view that was read.
pub open spec fn opt_llm_view(r: Option<Option<Llm>>) -> Option<Option<LlmV>> {
    match r {
        Some(l) => Some(opt_view(l)),
        None => None,
    }
}

fn read_opt_llm(v: &Json) -> (r: Option<Option<Llm>>)
    ensures
        opt_llm_view(r) == opt_llm_at(v@),
{
    match v.get("llm") {
        None => Some(None),
        Some(Json::Null) => Some(None),
        Some(x) => match Llm::from_json(x) {
            Some(l) => Some(Some(l)),
            None => None,
        },
    }
}

fn read_chunk(v: &Json) -> (r: Option<Json>)
    ensures
        opt_view(r) == chunk_in(v@),
{
    match v.get("chunk") {
        None => None,
        Some(Json::Null) => None,
        Some(x) => Some(x.dup()),
    }
}

/// An envelope survives being written and read, unless its chunk is null, which
/// reads as no chunk.
pub proof fn law_envelope_survives(e: EnvelopeV)
    requires
        e.chunk != Some(JsonV::Null),
        e.llm matches Some(l) ==> llm_can_stand(l),
    ensures
        envelope_in(envelope_value(e)) == Some(e),
{
    lemma_envelope_words();
    law_msg_survives(e.request);
    if let Some(m) = e.response {
        law_msg_survives(m);
    }
    if let Some(l) = e.llm {
        law_llm_survives(l);
    }
    assert(envelope_in(envelope_value(e)) =~= Some(e));
}

} // verus!
