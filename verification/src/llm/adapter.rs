//! What the provider dialects share.

use vstd::prelude::*;
use vstd::utf8::encode_utf8;

use crate::json::{json_text, Json, JsonMap, JsonV};
use crate::llm::anthropic;
use crate::llm::canonical::{
    CanonicalRequest, CanonicalResponse, CanonicalStreamEvent, DroppedV, EventV, ParseStateV, RenderStateV, ReportV, RequestCtx,
    RequestV, ResponseV, StreamParseState, StreamRenderState, TranslationReport,
};
use crate::llm::delta::{Delta, DeltaV};
use crate::llm::google;
use crate::llm::openai;
use crate::sse::{chunks_text, SseEvent};
use crate::text::{
    ascending, concat2, concat3, in_order, is_one_of, lemma_order_exists, lemma_precedes_irreflexive,
    lemma_split_first, opt_view, precedes, same, split_first, split_once, strs,
};

verus! {

/// The name that marks a field as one provider's: the provider, a dot, the name.
pub open spec fn tagged(provider: Seq<char>, name: Seq<char>) -> Seq<char> {
    provider + "."@ + name
}

/// The name in a tagged name.
pub open spec fn untagged(provider: Seq<char>, key: Seq<char>) -> Seq<char> {
    key.skip(provider.len() as int + 1)
}

/// The members of an object that are not among `known`, each under its tagged
/// name.
pub open spec fn collected(
    members: Map<Seq<char>, JsonV>,
    known: Seq<Seq<char>>,
    provider: Seq<char>,
) -> Map<Seq<char>, JsonV> {
    Map::new(
        |k: Seq<char>|
            {
                &&& k == tagged(provider, untagged(provider, k))
                &&& members.dom().contains(untagged(provider, k))
                &&& !known.contains(untagged(provider, k))
            },
        |k: Seq<char>| members[untagged(provider, k)],
    )
}

/// The unknown members of a value: none where it is no object.
pub open spec fn collected_extra(
    v: JsonV,
    known: Seq<Seq<char>>,
    provider: Seq<char>,
) -> Map<Seq<char>, JsonV> {
    match v {
        JsonV::Object(m) => collected(m, known, provider),
        _ => Map::empty(),
    }
}

pub proof fn lemma_untagged(provider: Seq<char>, name: Seq<char>)
    ensures
        untagged(provider, tagged(provider, name)) == name,
{
    reveal_strlit(".");
    assert(untagged(provider, tagged(provider, name)) == name);
}

/// Collects the members of an object that are not among `known`, each under its
/// tagged name.
pub fn collect_extra(value: &Json, known: &[&str], provider: &str) -> (r: JsonMap)
    ensures
        r@ == collected_extra(value@, strs(known@), provider@),
        r@.dom().finite(),
{
    let mut out = JsonMap::new();
    if let Json::Object(m) = value {
        let n = m.len();
        let ghost keys = in_order(m@.dom());
        let ghost kn = strs(known@);
        let mut i: usize = 0;
        while i < n
            invariant
                i <= n,
                n == keys.len(),
                keys == in_order(m@.dom()),
                keys.to_set() == m@.dom(),
                kn == strs(known@),
                forall|k: Seq<char>| #[trigger]
                    out@.dom().contains(k) <==> {
                        let name = untagged(provider@, k);
                        &&& k == tagged(provider@, name)
                        &&& !kn.contains(name)
                        &&& exists|j: int| 0 <= j < i && #[trigger] keys[j] == name
                    },
                forall|k: Seq<char>| #[trigger]
                    out@.dom().contains(k) ==> out@[k] == m@[untagged(provider@, k)],
            decreases n - i,
        {
            let name = m.key_at(i);
            let ghost before = out@;
            assert(keys[i as int] == name@);
            if !is_one_of(name.as_str(), known) {
                out.insert(concat3(provider, ".", name.as_str()), m.val_at(i).dup());
            }
            proof {
                lemma_untagged(provider@, name@);
                assert forall|k: Seq<char>| #[trigger] out@.dom().contains(k) <==> {
                    let x = untagged(provider@, k);
                    &&& k == tagged(provider@, x)
                    &&& !kn.contains(x)
                    &&& exists|j: int| 0 <= j < i + 1 && #[trigger] keys[j] == x
                } by {
                    let x = untagged(provider@, k);
                    if out@.dom().contains(k) {
                        if before.dom().contains(k) {
                            let j = choose|j: int| 0 <= j < i && #[trigger] keys[j] == x;
                            assert(keys[j] == x);
                        } else {
                            assert(keys[i as int] == x);
                        }
                    }
                    if k == tagged(provider@, x) && !kn.contains(x) && exists|j: int|
                        0 <= j < i + 1 && #[trigger] keys[j] == x {
                        let j = choose|j: int| 0 <= j < i + 1 && #[trigger] keys[j] == x;
                        if j < i {
                            assert(before.dom().contains(k));
                        }
                    }
                }
            }
            i += 1;
        }
        proof {
            let want = collected(m@, kn, provider@);
            assert forall|k: Seq<char>| out@.dom().contains(k) == want.dom().contains(k) by {
                let x = untagged(provider@, k);
                assert(m@.dom().contains(x) == keys.to_set().contains(x));
            }
            assert(out@ == want);
        }
    } else {
        assert(out@ == collected_extra(value@, strs(known@), provider@));
    }
    let _ = out.len();
    out
}

/// The provider and the name in a tagged name; no provider where there is no dot.
pub open spec fn split_tag(key: Seq<char>) -> (Seq<char>, Seq<char>) {
    match split_first(key, '.') {
        Some(parts) => parts,
        None => (Seq::empty(), key),
    }
}

/// The remark on an extra field that a typed field has the name of.
pub open spec fn collision_note(key: Seq<char>) -> Seq<char> {
    "extra."@ + key
        + ": collides with a field this renderer already set; the renderer's own value was kept, extra value dropped"@
}

/// Writes one extra field: back into the object where it came from the target's
/// own dialect and the name is free, else into the report.
pub open spec fn emit_one(
    target: Seq<char>,
    tagged_key: Seq<char>,
    value: JsonV,
    out: Map<Seq<char>, JsonV>,
    report: ReportV,
) -> (Map<Seq<char>, JsonV>, ReportV) {
    let (src, key) = split_tag(tagged_key);
    if src == target {
        if out.dom().contains(key) {
            (out, report.noting(collision_note(key)))
        } else {
            (out.insert(key, value), report)
        }
    } else {
        (
            out,
            report.dropping(
                "extra."@ + key,
                src + "-specific field not representable in "@ + target,
            ),
        )
    }
}

/// Writes the extra fields of the listed names, in their order.
pub open spec fn emit_keys(
    target: Seq<char>,
    extra: Map<Seq<char>, JsonV>,
    keys: Seq<Seq<char>>,
    out: Map<Seq<char>, JsonV>,
    report: ReportV,
) -> (Map<Seq<char>, JsonV>, ReportV)
    decreases keys.len(),
{
    if keys.len() == 0 {
        (out, report)
    } else {
        let (o, r) = emit_keys(target, extra, keys.drop_last(), out, report);
        emit_one(target, keys.last(), extra[keys.last()], o, r)
    }
}

/// Writes all extra fields, in ascending order of their tagged names.
pub open spec fn emitted(
    target: Seq<char>,
    extra: Map<Seq<char>, JsonV>,
    out: Map<Seq<char>, JsonV>,
    report: ReportV,
) -> (Map<Seq<char>, JsonV>, ReportV) {
    emit_keys(target, extra, in_order(extra.dom()), out, report)
}

/// Writes the extra fields of a request or response into the object being built
/// for `target_provider`; what cannot go there goes into the report.
pub fn emit_or_drop_extra(
    target_provider: &str,
    extra: &JsonMap,
    out: &mut JsonMap,
    report: &mut TranslationReport,
)
    ensures
        (final(out)@, final(report)@) == emitted(
            target_provider@,
            extra@,
            old(out)@,
            old(report)@,
        ),
{
    let n = extra.len();
    let ghost keys = in_order(extra@.dom());
    let mut i: usize = 0;
    while i < n
        invariant
            i <= n,
            n == keys.len(),
            keys == in_order(extra@.dom()),
            (out@, report@) == emit_keys(
                target_provider@,
                extra@,
                keys.take(i as int),
                old(out)@,
                old(report)@,
            ),
        decreases n - i,
    {
        let tagged_key = extra.key_at(i);
        proof {
            assert(keys.take(i + 1).drop_last() == keys.take(i as int));
            assert(keys.take(i + 1).last() == tagged_key@);
        }
        let parts = split_once(tagged_key.as_str(), '.');
        let src: &str = match parts {
            Some((a, _)) => a,
            None => "",
        };
        let key: &str = match parts {
            Some((_, b)) => b,
            None => tagged_key.as_str(),
        };
        proof {
            reveal_strlit("");
            assert(""@ == Seq::<char>::empty());
            assert((src@, key@) == split_tag(tagged_key@));
        }
        if same(src, target_provider) {
            if out.contains_key(key) {
                report.note(
                    concat3(
                        "extra.",
                        key,
                        ": collides with a field this renderer already set; the renderer's own value was kept, extra value dropped",
                    ),
                );
            } else {
                out.insert(key.to_owned(), extra.val_at(i).dup());
            }
        } else {
            report.drop(
                concat2("extra.", key),
                concat3(src, "-specific field not representable in ", target_provider),
            );
        }
        i += 1;
    }
    assert(keys.take(i as int) == keys);
}

/// The names without their tag.
pub open spec fn stripped(provider: Seq<char>, extra: Map<Seq<char>, JsonV>) -> Map<
    Seq<char>,
    JsonV,
> {
    Map::new(
        |name: Seq<char>| extra.dom().contains(tagged(provider, name)),
        |name: Seq<char>| extra[tagged(provider, name)],
    )
}

/// Whether every extra field is the provider's own.
pub open spec fn all_own(provider: Seq<char>, extra: Map<Seq<char>, JsonV>) -> bool {
    forall|k: Seq<char>| #[trigger]
        extra.dom().contains(k) ==> k == tagged(provider, untagged(provider, k))
}

proof fn lemma_emit_keys(
    provider: Seq<char>,
    extra: Map<Seq<char>, JsonV>,
    keys: Seq<Seq<char>>,
    out: Map<Seq<char>, JsonV>,
    report: ReportV,
)
    requires
        !provider.contains('.'),
        all_own(provider, extra),
        ascending(keys),
        forall|i: int| 0 <= i < keys.len() ==> extra.dom().contains(#[trigger] keys[i]),
        forall|k: Seq<char>| #[trigger]
            extra.dom().contains(k) ==> !out.dom().contains(untagged(provider, k)),
    ensures
        emit_keys(provider, extra, keys, out, report).1 == report,
        forall|name: Seq<char>| #[trigger]
            emit_keys(provider, extra, keys, out, report).0.dom().contains(name) <==> (
            out.dom().contains(name) || keys.contains(tagged(provider, name))),
        forall|name: Seq<char>|
            out.dom().contains(name) ==> #[trigger] emit_keys(
                provider,
                extra,
                keys,
                out,
                report,
            ).0[name] == out[name],
        forall|name: Seq<char>|
            keys.contains(tagged(provider, name)) ==> #[trigger] emit_keys(
                provider,
                extra,
                keys,
                out,
                report,
            ).0[name] == extra[tagged(provider, name)],
    decreases keys.len(),
{
    if keys.len() > 0 {
        let k1 = keys.drop_last();
        assert forall|i: int, j: int| 0 <= i < j < k1.len() implies precedes(
            #[trigger] k1[i],
            #[trigger] k1[j],
        ) by {
            assert(k1[i] == keys[i] && k1[j] == keys[j]);
        }
        assert forall|i: int| 0 <= i < k1.len() implies extra.dom().contains(#[trigger] k1[i]) by {
            assert(k1[i] == keys[i]);
        }
        lemma_emit_keys(provider, extra, k1, out, report);
        let (o, r) = emit_keys(provider, extra, k1, out, report);
        let last = keys.last();
        let name = untagged(provider, last);
        assert(extra.dom().contains(keys[keys.len() - 1]));
        assert(last == tagged(provider, name));
        reveal_strlit(".");
        assert("."@ == seq!['.']);
        lemma_split_first(provider, '.', name);
        assert(split_tag(last) == (provider, name));
        assert(!k1.contains(last)) by {
            if k1.contains(last) {
                let j = choose|j: int| 0 <= j < k1.len() && k1[j] == last;
                assert(precedes(keys[j], keys[keys.len() - 1]));
                lemma_precedes_irreflexive(last);
            }
        }
        assert(!o.dom().contains(name));
        assert forall|x: Seq<char>| keys.contains(tagged(provider, x)) <==> (x == name
            || k1.contains(tagged(provider, x))) by {
            lemma_untagged(provider, x);
            if keys.contains(tagged(provider, x)) {
                let j = choose|j: int| 0 <= j < keys.len() && keys[j] == tagged(provider, x);
                if j < k1.len() {
                    assert(k1[j] == tagged(provider, x));
                }
            }
            if k1.contains(tagged(provider, x)) {
                let j = choose|j: int| 0 <= j < k1.len() && k1[j] == tagged(provider, x);
                assert(keys[j] == tagged(provider, x));
            }
            if x == name {
                assert(keys[keys.len() - 1] == tagged(provider, x));
            }
        }
    }
}

/// Fields that came from a dialect go back into it unchanged: where every extra
/// field is the provider's own and no typed field has its name, writing puts
/// each under its own name again and loses nothing.
pub proof fn law_own_extra_survives(
    provider: Seq<char>,
    extra: Map<Seq<char>, JsonV>,
    out: Map<Seq<char>, JsonV>,
    report: ReportV,
)
    requires
        !provider.contains('.'),
        extra.dom().finite(),
        all_own(provider, extra),
        forall|k: Seq<char>| #[trigger]
            extra.dom().contains(k) ==> !out.dom().contains(untagged(provider, k)),
    ensures
        emitted(provider, extra, out, report) == (
            out.union_prefer_right(stripped(provider, extra)),
            report,
        ),
{
    let keys = in_order(extra.dom());
    lemma_order_exists(extra.dom());
    assert forall|i: int| 0 <= i < keys.len() implies extra.dom().contains(#[trigger] keys[i]) by {
        assert(keys.to_set().contains(keys[i]));
    }
    lemma_emit_keys(provider, extra, keys, out, report);
    let got = emitted(provider, extra, out, report).0;
    let want = out.union_prefer_right(stripped(provider, extra));
    assert forall|x: Seq<char>| got.dom().contains(x) == want.dom().contains(x) by {
        assert(keys.contains(tagged(provider, x)) == keys.to_set().contains(tagged(provider, x)));
    }
    assert forall|x: Seq<char>| got.dom().contains(x) implies got[x] == want[x] by {
        assert(keys.contains(tagged(provider, x)) == keys.to_set().contains(tagged(provider, x)));
        lemma_untagged(provider, x);
    }
    assert(got == want);
}

/// Whether the extra fields are all the provider's own and have no typed field's
/// name.
pub open spec fn own_extra(
    provider: Seq<char>,
    extra: Map<Seq<char>, JsonV>,
    known: Seq<Seq<char>>,
) -> bool {
    &&& extra.dom().finite()
    &&& all_own(provider, extra)
    &&& forall|k: Seq<char>| #[trigger]
        extra.dom().contains(k) ==> !known.contains(untagged(provider, k))
}

/// Fields that are all the provider's own come back from the object that they
/// were written into.
pub proof fn lemma_extra_comes_back(
    provider: Seq<char>,
    extra: Map<Seq<char>, JsonV>,
    known: Seq<Seq<char>>,
    typed: Map<Seq<char>, JsonV>,
)
    requires
        !provider.contains('.'),
        own_extra(provider, extra, known),
        forall|k: Seq<char>| #[trigger] typed.dom().contains(k) ==> known.contains(k),
    ensures
        forall|report: ReportV|
            #![trigger emitted(provider, extra, typed, report)]
            emitted(provider, extra, typed, report) == (
                typed.union_prefer_right(stripped(provider, extra)),
                report,
            ),
        collected(typed.union_prefer_right(stripped(provider, extra)), known, provider)
            == extra,
        forall|k: Seq<char>|
            known.contains(k) ==> !(#[trigger] stripped(provider, extra).dom().contains(k)),
        forall|k: Seq<char>|
            known.contains(k) ==> #[trigger] JsonV::Object(
                typed.union_prefer_right(stripped(provider, extra)),
            ).get(k) == JsonV::Object(typed).get(k),
{
    let p = provider;
    assert forall|report: ReportV|
        #![trigger emitted(p, extra, typed, report)]
        emitted(p, extra, typed, report) == (typed.union_prefer_right(stripped(p, extra)), report) by {
        law_own_extra_survives(p, extra, typed, report);
    }
    let body = typed.union_prefer_right(stripped(p, extra));
    let back = collected(body, known, p);
    assert forall|k: Seq<char>|
        known.contains(k) implies !(#[trigger] stripped(p, extra).dom().contains(k)) by {
        lemma_untagged(p, k);
        if extra.dom().contains(tagged(p, k)) {
            assert(!known.contains(untagged(p, tagged(p, k))));
        }
    }
    assert forall|k: Seq<char>| known.contains(k) implies #[trigger] JsonV::Object(body).get(k)
        == JsonV::Object(typed).get(k) by {
        assert(!stripped(p, extra).dom().contains(k));
        assert(body.dom().contains(k) == typed.dom().contains(k));
    }
    assert forall|k: Seq<char>| back.dom().contains(k) == extra.dom().contains(k) by {
        let name = untagged(p, k);
        if extra.dom().contains(k) {
            assert(k == tagged(p, name));
            assert(stripped(p, extra).dom().contains(name));
            assert(body.dom().contains(name));
        }
        if back.dom().contains(k) {
            assert(body.dom().contains(name));
            assert(!typed.dom().contains(name));
        }
    }
    assert forall|k: Seq<char>| back.dom().contains(k) implies back[k] == extra[k] by {
        let name = untagged(p, k);
        assert(stripped(p, extra).dom().contains(name));
    }
    assert(back == extra);
}

/// An object with a member set unless it has one of that name.
pub open spec fn put_missing(
    m: Map<Seq<char>, JsonV>,
    key: Seq<char>,
    val: JsonV,
) -> Map<Seq<char>, JsonV> {
    if m.dom().contains(key) {
        m
    } else {
        m.insert(key, val)
    }
}

/// Writing a default among the extra fields is writing it among the members.
pub proof fn lemma_put_missing(
    provider: Seq<char>,
    typed: Map<Seq<char>, JsonV>,
    extra: Map<Seq<char>, JsonV>,
    name: Seq<char>,
    val: JsonV,
)
    requires
        !typed.dom().contains(name),
    ensures
        put_missing(typed.union_prefer_right(stripped(provider, extra)), name, val)
            == typed.union_prefer_right(
            stripped(provider, put_missing(extra, tagged(provider, name), val)),
        ),
{
    let p = provider;
    let m = typed.union_prefer_right(stripped(p, extra));
    let e2 = put_missing(extra, tagged(p, name), val);
    let want = typed.union_prefer_right(stripped(p, e2));
    let got = put_missing(m, name, val);
    assert forall|k: Seq<char>| got.dom().contains(k) == want.dom().contains(k) by {
        lemma_untagged(p, k);
        lemma_untagged(p, name);
    }
    assert forall|k: Seq<char>| got.dom().contains(k) implies got[k] == want[k] by {
        lemma_untagged(p, k);
        lemma_untagged(p, name);
    }
    assert(got == want);
}

/// A default among the extra fields leaves them all the provider's own.
pub proof fn lemma_own_put_missing(
    provider: Seq<char>,
    extra: Map<Seq<char>, JsonV>,
    known: Seq<Seq<char>>,
    name: Seq<char>,
    val: JsonV,
)
    requires
        own_extra(provider, extra, known),
        !known.contains(name),
    ensures
        own_extra(provider, put_missing(extra, tagged(provider, name), val), known),
{
    lemma_untagged(provider, name);
}

/// Why a body could not be read.
#[derive(Clone, PartialEq, Debug)]
pub enum AdapterError {
    NotImplemented(String),
    Malformed(String),
}

#[verifier::ext_equal]
pub enum AdapterErrorV {
    NotImplemented(Seq<char>),
    Malformed(Seq<char>),
}

impl View for AdapterError {
    type V = AdapterErrorV;

    open spec fn view(&self) -> AdapterErrorV {
        match self {
            AdapterError::NotImplemented(s) => AdapterErrorV::NotImplemented(s@),
            AdapterError::Malformed(s) => AdapterErrorV::Malformed(s@),
        }
    }
}

impl AdapterError {
    /// The error as a message.
    pub fn message(&self) -> (r: String)
        ensures
            r@ == match self@ {
                AdapterErrorV::NotImplemented(name) => "adapter '"@ + name
                    + "' request parsing is not implemented yet"@,
                AdapterErrorV::Malformed(what) => "malformed request body: "@ + what,
            },
    {
        match self {
            AdapterError::NotImplemented(name) => concat3(
                "adapter '",
                name.as_str(),
                "' request parsing is not implemented yet",
            ),
            AdapterError::Malformed(what) => concat2("malformed request body: ", what.as_str()),
        }
    }
}

/// The view of a result.
pub open spec fn result_view<T: View>(r: Result<T, AdapterError>) -> Result<T::V, AdapterErrorV> {
    match r {
        Ok(x) => Ok(x@),
        Err(e) => Err(e@),
    }
}

/// The providers that there are dialects for.
pub const KNOWN_PROVIDERS: [&'static str; 3] = ["anthropic", "openai", "google"];

/// Whether there is a dialect for a provider.
pub open spec fn known_provider(name: Seq<char>) -> bool {
    name == "anthropic"@ || name == "openai"@ || name == "google"@
}

/// What writing a stream event gives: its text, the state after it, the report.
#[verifier::ext_equal]
pub struct StreamOut {
    pub text: Seq<char>,
    pub st: RenderStateV,
    pub report: ReportV,
}

/// One provider's dialect: how its bodies and stream events are read and written.
pub trait Adapter {
    /// The provider's name.
    spec fn name(&self) -> Seq<char>;

    /// The request in a body that came in on a path.
    spec fn request_in(&self, body: Seq<u8>, path: Seq<char>) -> Result<RequestV, AdapterErrorV>;

    /// The response in a body.
    spec fn response_in(&self, body: Seq<u8>) -> Result<ResponseV, AdapterErrorV>;

    /// The fragment in a stream event.
    spec fn delta_in(&self, data: Seq<char>) -> Option<DeltaV>;

    /// The canonical event in a stream event, and the state after it.
    spec fn event_in(&self, data: Seq<char>, st: ParseStateV) -> (Option<EventV>, ParseStateV);

    /// The body of a request, and the report.
    spec fn request_out(&self, req: RequestV, report: ReportV) -> (JsonV, ReportV);

    /// The body of a response, and the report.
    spec fn response_out(&self, resp: ResponseV, report: ReportV) -> (JsonV, ReportV);

    /// The text of a canonical event.
    spec fn event_out(&self, event: EventV, st: RenderStateV, report: ReportV) -> StreamOut;

    /// The provider's name.
    fn provider(&self) -> (r: &str)
        ensures
            r@ == self.name(),
    ;

    /// Reads a request from its body.
    fn parse_request(&self, body: &[u8], ctx: &RequestCtx) -> (r: Result<
        CanonicalRequest,
        AdapterError,
    >)
        ensures
            result_view(r) == self.request_in(body@, ctx.path@),
    ;

    /// Reads a response from its body.
    fn parse_response(&self, body: &[u8]) -> (r: Result<CanonicalResponse, AdapterError>)
        ensures
            result_view(r) == self.response_in(body@),
    ;

    /// Reads the fragment in a stream event.
    fn parse_delta(&self, event: &SseEvent) -> (r: Option<Delta>)
        ensures
            opt_view(r) == self.delta_in(event.data@),
    ;

    /// Writes a request's body.
    fn render_request(&self, req: &CanonicalRequest, report: &mut TranslationReport) -> (r: Result<
        Vec<u8>,
        AdapterError,
    >)
        ensures
            r matches Ok(bytes) && bytes@ == encode_utf8(
                json_text(self.request_out(req@, old(report)@).0),
            ),
            final(report)@ == self.request_out(req@, old(report)@).1,
    ;

    /// Writes a response's body.
    fn render_response(&self, resp: &CanonicalResponse, report: &mut TranslationReport) -> (r: Result<
        Vec<u8>,
        AdapterError,
    >)
        ensures
            r matches Ok(bytes) && bytes@ == encode_utf8(
                json_text(self.response_out(resp@, old(report)@).0),
            ),
            final(report)@ == self.response_out(resp@, old(report)@).1,
    ;

    /// Reads the canonical event from a stream event.
    fn parse_stream_event(&self, event: &SseEvent, st: &mut StreamParseState) -> (r: Result<
        Option<CanonicalStreamEvent>,
        AdapterError,
    >)
        ensures
            r matches Ok(e) && (opt_view(e), final(st)@) == self.event_in(event.data@, old(st)@),
    ;

    /// Writes the text of a canonical event.
    fn render_stream_event(
        &self,
        event: &CanonicalStreamEvent,
        st: &mut StreamRenderState,
        report: &mut TranslationReport,
    ) -> (r: Result<Vec<u8>, AdapterError>)
        ensures
            r matches Ok(bytes) && bytes@ == encode_utf8(
                self.event_out(event@, old(st)@, old(report)@).text,
            ),
            final(st)@ == self.event_out(event@, old(st)@, old(report)@).st,
            final(report)@ == self.event_out(event@, old(st)@, old(report)@).report,
    ;
}

/// The Anthropic Messages dialect.
#[derive(Clone, Copy, PartialEq, Eq, Structural, Debug)]
pub struct AnthropicAdapter;

impl Adapter for AnthropicAdapter {
    open spec fn name(&self) -> Seq<char> {
        "anthropic"@
    }

    open spec fn request_in(&self, body: Seq<u8>, path: Seq<char>) -> Result<
        RequestV,
        AdapterErrorV,
    > {
        anthropic::request_read(body)
    }

    open spec fn response_in(&self, body: Seq<u8>) -> Result<ResponseV, AdapterErrorV> {
        anthropic::response_read(body)
    }

    open spec fn delta_in(&self, data: Seq<char>) -> Option<DeltaV> {
        anthropic::delta_read(data)
    }

    open spec fn event_in(&self, data: Seq<char>, st: ParseStateV) -> (
        Option<EventV>,
        ParseStateV,
    ) {
        (anthropic::event_read(data), st)
    }

    open spec fn request_out(&self, req: RequestV, report: ReportV) -> (JsonV, ReportV) {
        anthropic::request_value(req, report)
    }

    open spec fn response_out(&self, resp: ResponseV, report: ReportV) -> (JsonV, ReportV) {
        anthropic::response_value(resp, report)
    }

    open spec fn event_out(&self, event: EventV, st: RenderStateV, report: ReportV) -> StreamOut {
        let w = anthropic::written(event, st);
        StreamOut { text: anthropic::frames_text(w.frames), st: w.st, report }
    }

    fn provider(&self) -> (r: &str) {
        "anthropic"
    }

    fn parse_request(&self, body: &[u8], ctx: &RequestCtx) -> (r: Result<
        CanonicalRequest,
        AdapterError,
    >) {
        anthropic::parse_body(body)
    }

    fn parse_response(&self, body: &[u8]) -> (r: Result<CanonicalResponse, AdapterError>) {
        anthropic::parse_response_body(body)
    }

    fn parse_delta(&self, event: &SseEvent) -> (r: Option<Delta>) {
        anthropic::parse_delta(event)
    }

    fn render_request(&self, req: &CanonicalRequest, report: &mut TranslationReport) -> (r: Result<
        Vec<u8>,
        AdapterError,
    >) {
        anthropic::render_request_body(req, report)
    }

    fn render_response(&self, resp: &CanonicalResponse, report: &mut TranslationReport) -> (r: Result<
        Vec<u8>,
        AdapterError,
    >) {
        anthropic::render_response_body(resp, report)
    }

    fn parse_stream_event(&self, event: &SseEvent, st: &mut StreamParseState) -> (r: Result<
        Option<CanonicalStreamEvent>,
        AdapterError,
    >) {
        anthropic::parse_stream_event(event)
    }

    fn render_stream_event(
        &self,
        event: &CanonicalStreamEvent,
        st: &mut StreamRenderState,
        report: &mut TranslationReport,
    ) -> (r: Result<Vec<u8>, AdapterError>) {
        anthropic::render_stream_event(event, st)
    }
}

/// The OpenAI Chat Completions dialect.
#[derive(Clone, Copy, PartialEq, Eq, Structural, Debug)]
pub struct OpenAiAdapter;

impl Adapter for OpenAiAdapter {
    open spec fn name(&self) -> Seq<char> {
        "openai"@
    }

    open spec fn request_in(&self, body: Seq<u8>, path: Seq<char>) -> Result<
        RequestV,
        AdapterErrorV,
    > {
        openai::request_read(body)
    }

    open spec fn response_in(&self, body: Seq<u8>) -> Result<ResponseV, AdapterErrorV> {
        openai::response_read(body)
    }

    open spec fn delta_in(&self, data: Seq<char>) -> Option<DeltaV> {
        openai::delta_read(data)
    }

    open spec fn event_in(&self, data: Seq<char>, st: ParseStateV) -> (
        Option<EventV>,
        ParseStateV,
    ) {
        openai::event_read(data, st)
    }

    open spec fn request_out(&self, req: RequestV, report: ReportV) -> (JsonV, ReportV) {
        openai::request_value(req, report)
    }

    open spec fn response_out(&self, resp: ResponseV, report: ReportV) -> (JsonV, ReportV) {
        openai::response_value(resp, report)
    }

    open spec fn event_out(&self, event: EventV, st: RenderStateV, report: ReportV) -> StreamOut {
        let w = openai::streamed(event, st, report);
        StreamOut { text: chunks_text(w.chunks), st: w.st, report: w.report }
    }

    fn provider(&self) -> (r: &str) {
        "openai"
    }

    fn parse_request(&self, body: &[u8], ctx: &RequestCtx) -> (r: Result<
        CanonicalRequest,
        AdapterError,
    >) {
        openai::parse_body(body)
    }

    fn parse_response(&self, body: &[u8]) -> (r: Result<CanonicalResponse, AdapterError>) {
        openai::parse_response_body(body)
    }

    fn parse_delta(&self, event: &SseEvent) -> (r: Option<Delta>) {
        openai::parse_delta(event)
    }

    fn render_request(&self, req: &CanonicalRequest, report: &mut TranslationReport) -> (r: Result<
        Vec<u8>,
        AdapterError,
    >) {
        openai::render_request_body(req, report)
    }

    fn render_response(&self, resp: &CanonicalResponse, report: &mut TranslationReport) -> (r: Result<
        Vec<u8>,
        AdapterError,
    >) {
        openai::render_response_body(resp, report)
    }

    fn parse_stream_event(&self, event: &SseEvent, st: &mut StreamParseState) -> (r: Result<
        Option<CanonicalStreamEvent>,
        AdapterError,
    >) {
        openai::parse_stream_event(event, st)
    }

    fn render_stream_event(
        &self,
        event: &CanonicalStreamEvent,
        st: &mut StreamRenderState,
        report: &mut TranslationReport,
    ) -> (r: Result<Vec<u8>, AdapterError>) {
        openai::render_stream_event(event, st, report)
    }
}

/// The Google `generateContent` dialect.
#[derive(Clone, Copy, PartialEq, Eq, Structural, Debug)]
pub struct GoogleAdapter;

impl Adapter for GoogleAdapter {
    open spec fn name(&self) -> Seq<char> {
        "google"@
    }

    open spec fn request_in(&self, body: Seq<u8>, path: Seq<char>) -> Result<
        RequestV,
        AdapterErrorV,
    > {
        google::request_read(body, path)
    }

    open spec fn response_in(&self, body: Seq<u8>) -> Result<ResponseV, AdapterErrorV> {
        google::response_read(body)
    }

    open spec fn delta_in(&self, data: Seq<char>) -> Option<DeltaV> {
        google::delta_read(data)
    }

    open spec fn event_in(&self, data: Seq<char>, st: ParseStateV) -> (
        Option<EventV>,
        ParseStateV,
    ) {
        google::event_read(data, st)
    }

    open spec fn request_out(&self, req: RequestV, report: ReportV) -> (JsonV, ReportV) {
        google::request_value(req, report)
    }

    open spec fn response_out(&self, resp: ResponseV, report: ReportV) -> (JsonV, ReportV) {
        google::response_value(resp, report)
    }

    open spec fn event_out(&self, event: EventV, st: RenderStateV, report: ReportV) -> StreamOut {
        let w = google::streamed(event, st, report);
        StreamOut { text: chunks_text(w.chunks), st: w.st, report: w.report }
    }

    fn provider(&self) -> (r: &str) {
        "google"
    }

    fn parse_request(&self, body: &[u8], ctx: &RequestCtx) -> (r: Result<
        CanonicalRequest,
        AdapterError,
    >) {
        google::parse_body(body, ctx)
    }

    fn parse_response(&self, body: &[u8]) -> (r: Result<CanonicalResponse, AdapterError>) {
        google::parse_response_body(body)
    }

    fn parse_delta(&self, event: &SseEvent) -> (r: Option<Delta>) {
        google::parse_delta(event)
    }

    fn render_request(&self, req: &CanonicalRequest, report: &mut TranslationReport) -> (r: Result<
        Vec<u8>,
        AdapterError,
    >) {
        google::render_request_body(req, report)
    }

    fn render_response(&self, resp: &CanonicalResponse, report: &mut TranslationReport) -> (r: Result<
        Vec<u8>,
        AdapterError,
    >) {
        google::render_response_body(resp, report)
    }

    fn parse_stream_event(&self, event: &SseEvent, st: &mut StreamParseState) -> (r: Result<
        Option<CanonicalStreamEvent>,
        AdapterError,
    >) {
        google::parse_stream_event(event, st)
    }

    fn render_stream_event(
        &self,
        event: &CanonicalStreamEvent,
        st: &mut StreamRenderState,
        report: &mut TranslationReport,
    ) -> (r: Result<Vec<u8>, AdapterError>) {
        google::render_stream_event(event, st, report)
    }
}

/// The dialect of a known provider.
#[derive(Clone, Copy, PartialEq, Eq, Structural, Debug)]
pub enum ProviderAdapter {
    Anthropic(AnthropicAdapter),
    OpenAi(OpenAiAdapter),
    Google(GoogleAdapter),
}

impl Adapter for ProviderAdapter {
    open spec fn name(&self) -> Seq<char> {
        match self {
            ProviderAdapter::Anthropic(a) => a.name(),
            ProviderAdapter::OpenAi(a) => a.name(),
            ProviderAdapter::Google(a) => a.name(),
        }
    }

    open spec fn request_in(&self, body: Seq<u8>, path: Seq<char>) -> Result<
        RequestV,
        AdapterErrorV,
    > {
        match self {
            ProviderAdapter::Anthropic(a) => a.request_in(body, path),
            ProviderAdapter::OpenAi(a) => a.request_in(body, path),
            ProviderAdapter::Google(a) => a.request_in(body, path),
        }
    }

    open spec fn response_in(&self, body: Seq<u8>) -> Result<ResponseV, AdapterErrorV> {
        match self {
            ProviderAdapter::Anthropic(a) => a.response_in(body),
            ProviderAdapter::OpenAi(a) => a.response_in(body),
            ProviderAdapter::Google(a) => a.response_in(body),
        }
    }

    open spec fn delta_in(&self, data: Seq<char>) -> Option<DeltaV> {
        match self {
            ProviderAdapter::Anthropic(a) => a.delta_in(data),
            ProviderAdapter::OpenAi(a) => a.delta_in(data),
            ProviderAdapter::Google(a) => a.delta_in(data),
        }
    }

    open spec fn event_in(&self, data: Seq<char>, st: ParseStateV) -> (
        Option<EventV>,
        ParseStateV,
    ) {
        match self {
            ProviderAdapter::Anthropic(a) => a.event_in(data, st),
            ProviderAdapter::OpenAi(a) => a.event_in(data, st),
            ProviderAdapter::Google(a) => a.event_in(data, st),
        }
    }

    open spec fn request_out(&self, req: RequestV, report: ReportV) -> (JsonV, ReportV) {
        match self {
            ProviderAdapter::Anthropic(a) => a.request_out(req, report),
            ProviderAdapter::OpenAi(a) => a.request_out(req, report),
            ProviderAdapter::Google(a) => a.request_out(req, report),
        }
    }

    open spec fn response_out(&self, resp: ResponseV, report: ReportV) -> (JsonV, ReportV) {
        match self {
            ProviderAdapter::Anthropic(a) => a.response_out(resp, report),
            ProviderAdapter::OpenAi(a) => a.response_out(resp, report),
            ProviderAdapter::Google(a) => a.response_out(resp, report),
        }
    }

    open spec fn event_out(&self, event: EventV, st: RenderStateV, report: ReportV) -> StreamOut {
        match self {
            ProviderAdapter::Anthropic(a) => a.event_out(event, st, report),
            ProviderAdapter::OpenAi(a) => a.event_out(event, st, report),
            ProviderAdapter::Google(a) => a.event_out(event, st, report),
        }
    }

    fn provider(&self) -> (r: &str) {
        match self {
            ProviderAdapter::Anthropic(a) => a.provider(),
            ProviderAdapter::OpenAi(a) => a.provider(),
            ProviderAdapter::Google(a) => a.provider(),
        }
    }

    fn parse_request(&self, body: &[u8], ctx: &RequestCtx) -> (r: Result<
        CanonicalRequest,
        AdapterError,
    >) {
        match self {
            ProviderAdapter::Anthropic(a) => a.parse_request(body, ctx),
            ProviderAdapter::OpenAi(a) => a.parse_request(body, ctx),
            ProviderAdapter::Google(a) => a.parse_request(body, ctx),
        }
    }

    fn parse_response(&self, body: &[u8]) -> (r: Result<CanonicalResponse, AdapterError>) {
        match self {
            ProviderAdapter::Anthropic(a) => a.parse_response(body),
            ProviderAdapter::OpenAi(a) => a.parse_response(body),
            ProviderAdapter::Google(a) => a.parse_response(body),
        }
    }

    fn parse_delta(&self, event: &SseEvent) -> (r: Option<Delta>) {
        match self {
            ProviderAdapter::Anthropic(a) => a.parse_delta(event),
            ProviderAdapter::OpenAi(a) => a.parse_delta(event),
            ProviderAdapter::Google(a) => a.parse_delta(event),
        }
    }

    fn render_request(&self, req: &CanonicalRequest, report: &mut TranslationReport) -> (r: Result<
        Vec<u8>,
        AdapterError,
    >) {
        match self {
            ProviderAdapter::Anthropic(a) => a.render_request(req, report),
            ProviderAdapter::OpenAi(a) => a.render_request(req, report),
            ProviderAdapter::Google(a) => a.render_request(req, report),
        }
    }

    fn render_response(&self, resp: &CanonicalResponse, report: &mut TranslationReport) -> (r: Result<
        Vec<u8>,
        AdapterError,
    >) {
        match self {
            ProviderAdapter::Anthropic(a) => a.render_response(resp, report),
            ProviderAdapter::OpenAi(a) => a.render_response(resp, report),
            ProviderAdapter::Google(a) => a.render_response(resp, report),
        }
    }

    fn parse_stream_event(&self, event: &SseEvent, st: &mut StreamParseState) -> (r: Result<
        Option<CanonicalStreamEvent>,
        AdapterError,
    >) {
        match self {
            ProviderAdapter::Anthropic(a) => a.parse_stream_event(event, st),
            ProviderAdapter::OpenAi(a) => a.parse_stream_event(event, st),
            ProviderAdapter::Google(a) => a.parse_stream_event(event, st),
        }
    }

    fn render_stream_event(
        &self,
        event: &CanonicalStreamEvent,
        st: &mut StreamRenderState,
        report: &mut TranslationReport,
    ) -> (r: Result<Vec<u8>, AdapterError>) {
        match self {
            ProviderAdapter::Anthropic(a) => a.render_stream_event(event, st, report),
            ProviderAdapter::OpenAi(a) => a.render_stream_event(event, st, report),
            ProviderAdapter::Google(a) => a.render_stream_event(event, st, report),
        }
    }
}

/// The dialect of a provider, if there is one.
pub fn adapter_for(name: &str) -> (r: Option<ProviderAdapter>)
    ensures
        r is Some <==> known_provider(name@),
        r matches Some(a) ==> a.name() == name@,
{
    if same(name, "anthropic") {
        Some(ProviderAdapter::Anthropic(AnthropicAdapter))
    } else if same(name, "openai") {
        Some(ProviderAdapter::OpenAi(OpenAiAdapter))
    } else if same(name, "google") {
        Some(ProviderAdapter::Google(GoogleAdapter))
    } else {
        None
    }
}

/// A field of another dialect is never lost in silence: whatever else is written,
/// the report names it.
pub proof fn law_foreign_extra_is_reported(
    target: Seq<char>,
    extra: Map<Seq<char>, JsonV>,
    out: Map<Seq<char>, JsonV>,
    report: ReportV,
    key: Seq<char>,
)
    requires
        extra.dom().finite(),
        extra.dom().contains(key),
        split_tag(key).0 != target,
    ensures
        emitted(target, extra, out, report).1.dropped.contains(
            DroppedV {
                path: "extra."@ + split_tag(key).1,
                reason: split_tag(key).0 + "-specific field not representable in "@ + target,
            },
        ),
{
    let keys = in_order(extra.dom());
    lemma_order_exists(extra.dom());
    assert(keys.contains(key)) by {
        assert(keys.to_set().contains(key));
    }
    lemma_foreign_reported(target, extra, keys, out, report, key);
}

proof fn lemma_foreign_reported(
    target: Seq<char>,
    extra: Map<Seq<char>, JsonV>,
    keys: Seq<Seq<char>>,
    out: Map<Seq<char>, JsonV>,
    report: ReportV,
    key: Seq<char>,
)
    requires
        keys.contains(key),
        split_tag(key).0 != target,
    ensures
        emit_keys(target, extra, keys, out, report).1.dropped.contains(
            DroppedV {
                path: "extra."@ + split_tag(key).1,
                reason: split_tag(key).0 + "-specific field not representable in "@ + target,
            },
        ),
    decreases keys.len(),
{
    let want = DroppedV {
        path: "extra."@ + split_tag(key).1,
        reason: split_tag(key).0 + "-specific field not representable in "@ + target,
    };
    let rest = keys.drop_last();
    let before = emit_keys(target, extra, rest, out, report).1;
    let after = emit_keys(target, extra, keys, out, report).1;
    if keys.last() == key {
        assert(after.dropped == before.dropped.push(want));
        assert(after.dropped[before.dropped.len() as int] == want);
    } else {
        let i = choose|i: int| 0 <= i < keys.len() && keys[i] == key;
        assert(rest[i] == key);
        lemma_foreign_reported(target, extra, rest, out, report, key);
        let j = choose|j: int| 0 <= j < before.dropped.len() && before.dropped[j] == want;
        assert(after.dropped[j] == want);
    }
}

} // verus!
