//! What a step answers, and how its operations change a message.

use vstd::prelude::*;
use vstd::utf8::encode_utf8;

use crate::http_msg::{headers_from, read_headers, HeaderMap, HttpMsg, HttpMsgV};
use crate::json::{json_read, json_text, parse, seq_view, Json, JsonMap, JsonV};
use crate::members::{
    field_text, find_field, given, items_in, members_in, named_once, names_once, opt_slice, read_items, slice_views,
};
use crate::reconstruct::{hop_by_hop, is_hop_by_hop};
use crate::shape::{find_tag, is_tag, pick, picks, seat, seated, tag_in};
use crate::text::{
    concat3, concat7, decimal, decimal_text, lemma_lowered_twice, lowered, opt_view, strs, views,
};

verus! {

/// A change to the message or to the step's own context.
#[derive(Clone, PartialEq, Debug)]
#[allow(inconsistent_fields)]
pub enum Op {
    SetHeader { name: String, value: String },
    DeleteHeader { name: String },
    SetBody { body_b64: String },
    SetPath { path: String },
    SetContext { value: Json },
}

#[verifier::ext_equal]
#[allow(inconsistent_fields)]
pub enum OpV {
    SetHeader { name: Seq<char>, value: Seq<char> },
    DeleteHeader { name: Seq<char> },
    SetBody { body_b64: Seq<char> },
    SetPath { path: Seq<char> },
    SetContext { value: JsonV },
}

impl View for Op {
    type V = OpV;

    open spec fn view(&self) -> OpV {
        match self {
            Op::SetHeader { name, value } => OpV::SetHeader { name: name@, value: value@ },
            Op::DeleteHeader { name } => OpV::DeleteHeader { name: name@ },
            Op::SetBody { body_b64 } => OpV::SetBody { body_b64: body_b64@ },
            Op::SetPath { path } => OpV::SetPath { path: path@ },
            Op::SetContext { value } => OpV::SetContext { value: value@ },
        }
    }
}

/// A response that a step gives in place of the upstream's.
#[derive(Clone, PartialEq, Debug)]
pub struct RespSpec {
    pub status: u16,
    pub headers: HeaderMap,
    pub body_b64: String,
}

#[verifier::ext_equal]
pub struct RespSpecV {
    pub status: u16,
    pub headers: Map<Seq<char>, Seq<char>>,
    pub body_b64: Seq<char>,
}

impl View for RespSpec {
    type V = RespSpecV;

    open spec fn view(&self) -> RespSpecV {
        RespSpecV { status: self.status, headers: self.headers@, body_b64: self.body_b64@ }
    }
}

/// The bytes that go to the client in place of an event's.
#[derive(Clone, PartialEq, Debug)]
pub struct EmitChunk {
    pub data_b64: String,
}

/// What a step decides.
#[derive(Clone, PartialEq, Debug)]
pub enum Directive {
    /// Go on, with these changes.
    Continue { ops: Vec<Op> },
    /// Answer now, without the upstream.
    ShortCircuit { response: RespSpec },
    /// Give up, with this answer.
    Abort { response: RespSpec },
    /// Send these bytes in place of the event's; for streams only.
    Emit { chunk: EmitChunk, ops: Vec<Op> },
    /// Send nothing for the event; for streams only.
    Drop { ops: Vec<Op> },
}

#[verifier::ext_equal]
pub enum DirectiveV {
    Continue { ops: Seq<OpV> },
    ShortCircuit { response: RespSpecV },
    Abort { response: RespSpecV },
    Emit { data_b64: Seq<char>, ops: Seq<OpV> },
    Drop { ops: Seq<OpV> },
}

impl View for Directive {
    type V = DirectiveV;

    open spec fn view(&self) -> DirectiveV {
        match self {
            Directive::Continue { ops } => DirectiveV::Continue { ops: views(ops@) },
            Directive::ShortCircuit { response } => DirectiveV::ShortCircuit { response: response@ },
            Directive::Abort { response } => DirectiveV::Abort { response: response@ },
            Directive::Emit { chunk, ops } => DirectiveV::Emit {
                data_b64: chunk.data_b64@,
                ops: views(ops@),
            },
            Directive::Drop { ops } => DirectiveV::Drop { ops: views(ops@) },
        }
    }
}

/// Why a step's operations were refused.
#[derive(Clone, PartialEq, Eq, Debug)]
pub enum OpError {
    ProtectedHeader(String),
    ContextTooLarge { namespace: String, size: usize, cap: usize },
}

#[verifier::ext_equal]
pub enum OpErrorV {
    ProtectedHeader(Seq<char>),
    ContextTooLarge { namespace: Seq<char>, size: nat, cap: nat },
}

impl View for OpError {
    type V = OpErrorV;

    open spec fn view(&self) -> OpErrorV {
        match self {
            OpError::ProtectedHeader(name) => OpErrorV::ProtectedHeader(name@),
            OpError::ContextTooLarge { namespace, size, cap } => OpErrorV::ContextTooLarge {
                namespace: namespace@,
                size: *size as nat,
                cap: *cap as nat,
            },
        }
    }
}

impl OpErrorV {
    /// The message of an error.
    pub open spec fn text(self) -> Seq<char> {
        match self {
            OpErrorV::ProtectedHeader(name) => "step attempted to modify protected header '"@ + name
                + "'"@,
            OpErrorV::ContextTooLarge { namespace, size, cap } => "context for namespace '"@ + namespace
                + "' is "@ + decimal(size) + " bytes, exceeding cap of "@ + decimal(cap) + " bytes"@,
        }
    }
}

impl OpError {
    /// The message of the error.
    pub fn message(&self) -> (r: String)
        ensures
            r@ == self@.text(),
    {
        match self {
            OpError::ProtectedHeader(name) => concat3(
                "step attempted to modify protected header '",
                name.as_str(),
                "'",
            ),
            OpError::ContextTooLarge { namespace, size, cap } => concat7(
                "context for namespace '",
                namespace.as_str(),
                "' is ",
                decimal_text(*size as u64).as_str(),
                " bytes, exceeding cap of ",
                decimal_text(*cap as u64).as_str(),
                " bytes",
            ),
        }
    }
}

/// How many bytes a value's compact text has.
pub open spec fn context_size(v: JsonV) -> nat {
    encode_utf8(json_text(v)).len()
}

/// A message with the context that its steps keep.
#[verifier::ext_equal]
pub struct Worked {
    pub req: HttpMsgV,
    pub context: Map<Seq<char>, JsonV>,
}

/// What one operation of the step `name` makes of a message and the context.
pub open spec fn op_applied(w: Worked, name: Seq<char>, op: OpV, cap: nat) -> Result<Worked, OpErrorV> {
    match op {
        OpV::SetHeader { name: header, value } => if hop_by_hop(header) {
            Err(OpErrorV::ProtectedHeader(lowered(header)))
        } else {
            Ok(Worked { req: w.req.with_header(header, value), ..w })
        },
        OpV::DeleteHeader { name: header } => if hop_by_hop(header) {
            Err(OpErrorV::ProtectedHeader(lowered(header)))
        } else {
            Ok(Worked { req: w.req.without_header(header), ..w })
        },
        OpV::SetBody { body_b64 } => Ok(Worked { req: w.req.with_body(body_b64), ..w }),
        OpV::SetPath { path } => Ok(Worked { req: w.req.with_path(path), ..w }),
        OpV::SetContext { value } => if context_size(value) > cap {
            Err(OpErrorV::ContextTooLarge { namespace: name, size: context_size(value), cap })
        } else {
            Ok(Worked { context: w.context.insert(name, value), ..w })
        },
    }
}

/// What the first `n` operations of the step `name` make of a message and the
/// context, in order; the error of the first that is refused.
pub open spec fn ops_applied(
    w: Worked,
    name: Seq<char>,
    ops: Seq<OpV>,
    n: nat,
    cap: nat,
) -> Result<Worked, OpErrorV>
    decreases n,
{
    if n == 0 {
        Ok(w)
    } else {
        match ops_applied(w, name, ops, (n - 1) as nat, cap) {
            Err(e) => Err(e),
            Ok(before) => op_applied(before, name, ops[n - 1], cap),
        }
    }
}

proof fn lemma_refused_stays_refused(
    w: Worked,
    name: Seq<char>,
    ops: Seq<OpV>,
    k: nat,
    n: nat,
    cap: nat,
)
    requires
        k <= n,
        ops_applied(w, name, ops, k, cap) is Err,
    ensures
        ops_applied(w, name, ops, n, cap) == ops_applied(w, name, ops, k, cap),
    decreases n,
{
    if k < n {
        lemma_refused_stays_refused(w, name, ops, k, (n - 1) as nat, cap);
    }
}

fn guard_protected(name: &str) -> (r: Result<(), OpError>)
    ensures
        match r {
            Ok(_) => !hop_by_hop(name@),
            Err(e) => hop_by_hop(name@) && e@ == OpErrorV::ProtectedHeader(lowered(name@)),
        },
{
    if is_hop_by_hop(name) {
        return Err(OpError::ProtectedHeader(name.to_ascii_lowercase()));
    }
    Ok(())
}

/// Applies a step's operations to the message and the context, all or none: where
/// one is refused, both are left as they were.
pub fn apply_ops(
    req: &mut HttpMsg,
    context: &mut JsonMap,
    self_name: &str,
    ops: &[Op],
    max_context_bytes: usize,
) -> (r: Result<(), OpError>)
    ensures
        ({
            let w = Worked { req: old(req)@, context: old(context)@ };
            match ops_applied(w, self_name@, views(ops@), ops@.len(), max_context_bytes as nat) {
                Ok(done) => r is Ok && final(req)@ == done.req && final(context)@ == done.context,
                Err(e) => *final(req) == *old(req) && *final(context) == *old(context) && (r matches Err(
                    given,
                ) && given@ == e),
            }
        }),
{
    let ghost w = Worked { req: req@, context: context@ };
    let ghost name = self_name@;
    let ghost all = views(ops@);
    let ghost cap = max_context_bytes as nat;
    let mut new_req = req.dup();
    let mut new_ctx = context.dup();
    let mut i: usize = 0;
    while i < ops.len()
        invariant
            i <= ops.len(),
            *req == *old(req),
            *context == *old(context),
            w == (Worked { req: old(req)@, context: old(context)@ }),
            name == self_name@,
            all == views(ops@),
            cap == max_context_bytes as nat,
            ops_applied(w, name, all, i as nat, cap) == Ok::<Worked, OpErrorV>(
                Worked { req: new_req@, context: new_ctx@ },
            ),
        decreases ops.len() - i,
    {
        let ghost before = Worked { req: new_req@, context: new_ctx@ };
        let op = &ops[i];
        assert(all[i as int] == op@);
        assert(ops_applied(w, name, all, (i + 1) as nat, cap) == op_applied(before, name, op@, cap));
        match op {
            Op::SetHeader { name: header, value } => {
                if let Err(e) = guard_protected(header.as_str()) {
                    proof {
                        lemma_refused_stays_refused(w, name, all, (i + 1) as nat, all.len(), cap);
                    }
                    return Err(e);
                }
                new_req.set_header(header.as_str(), value.as_str());
            },
            Op::DeleteHeader { name: header } => {
                if let Err(e) = guard_protected(header.as_str()) {
                    proof {
                        lemma_refused_stays_refused(w, name, all, (i + 1) as nat, all.len(), cap);
                    }
                    return Err(e);
                }
                new_req.delete_header(header.as_str());
            },
            Op::SetBody { body_b64 } => {
                new_req.body_b64 = body_b64.clone();
            },
            Op::SetPath { path } => {
                new_req.path = path.clone();
            },
            Op::SetContext { value } => {
                let text = value.to_text();
                let size = text.as_str().as_bytes().len();
                if size > max_context_bytes {
                    proof {
                        lemma_refused_stays_refused(w, name, all, (i + 1) as nat, all.len(), cap);
                    }
                    return Err(
                        OpError::ContextTooLarge {
                            namespace: self_name.to_owned(),
                            size,
                            cap: max_context_bytes,
                        },
                    );
                }
                new_ctx.insert(self_name.to_owned(), value.dup());
            },
        }
        assert(ops_applied(w, name, all, (i + 1) as nat, cap) == Ok::<Worked, OpErrorV>(
            Worked { req: new_req@, context: new_ctx@ },
        ));
        i += 1;
    }
    *req = new_req;
    *context = new_ctx;
    Ok(())
}

/// No operations of a step change a framing header: where they are accepted, each
/// is there, or not there, as before, with the value that it had.
pub proof fn law_framing_headers_are_kept(
    w: Worked,
    name: Seq<char>,
    ops: Seq<OpV>,
    n: nat,
    cap: nat,
    header: Seq<char>,
)
    requires
        hop_by_hop(header),
        lowered(header) == header,
    ensures
        match ops_applied(w, name, ops, n, cap) {
            Ok(done) => {
                &&& done.req.headers.dom().contains(header) == w.req.headers.dom().contains(header)
                &&& w.req.headers.dom().contains(header) ==> done.req.headers[header]
                    == w.req.headers[header]
            },
            Err(_) => true,
        },
    decreases n,
{
    if n > 0 {
        law_framing_headers_are_kept(w, name, ops, (n - 1) as nat, cap, header);
        match ops[n - 1] {
            OpV::SetHeader { name: other, value: _ } => {
                lemma_lowered_twice(other);
            },
            OpV::DeleteHeader { name: other } => {
                lemma_lowered_twice(other);
            },
            _ => {},
        }
    }
}

/// A step writes into the context under its own name only, and the method of the
/// message never changes.
pub proof fn law_context_is_the_steps_own(
    w: Worked,
    name: Seq<char>,
    ops: Seq<OpV>,
    n: nat,
    cap: nat,
    other: Seq<char>,
)
    requires
        other != name,
    ensures
        match ops_applied(w, name, ops, n, cap) {
            Ok(done) => {
                &&& done.context.dom().contains(other) == w.context.dom().contains(other)
                &&& w.context.dom().contains(other) ==> done.context[other] == w.context[other]
                &&& done.req.method == w.req.method
            },
            Err(_) => true,
        },
    decreases n,
{
    if n > 0 {
        law_context_is_the_steps_own(w, name, ops, (n - 1) as nat, cap, other);
    }
}

/// What a step has in the context after its operations is what it had before, or a
/// value whose text keeps to the cap.
pub proof fn law_context_keeps_to_the_cap(
    w: Worked,
    name: Seq<char>,
    ops: Seq<OpV>,
    n: nat,
    cap: nat,
)
    ensures
        match ops_applied(w, name, ops, n, cap) {
            Ok(done) => done.context == w.context || (done.context.dom().contains(name)
                && context_size(done.context[name]) <= cap),
            Err(_) => true,
        },
    decreases n,
{
    if n > 0 {
        law_context_keeps_to_the_cap(w, name, ops, (n - 1) as nat, cap);
    }
}

/// The fields of a `set_header` operation, in order.
pub const SET_HEADER_FIELDS: [&'static str; 3] = ["op", "name", "value"];

/// The fields of a `delete_header` operation, in order.
pub const DELETE_HEADER_FIELDS: [&'static str; 2] = ["op", "name"];

/// The fields of a `set_body` operation, in order.
pub const SET_BODY_FIELDS: [&'static str; 2] = ["op", "body_b64"];

/// The fields of a `set_path` operation, in order.
pub const SET_PATH_FIELDS: [&'static str; 2] = ["op", "path"];

/// The fields of a `set_context` operation, in order.
pub const SET_CONTEXT_FIELDS: [&'static str; 2] = ["op", "value"];

/// The fields of a `continue` directive, in order.
pub const CONTINUE_FIELDS: [&'static str; 2] = ["action", "ops"];

/// The fields of a `short_circuit` directive, in order.
pub const SHORT_CIRCUIT_FIELDS: [&'static str; 2] = ["action", "response"];

/// The fields of a `abort` directive, in order.
pub const ABORT_FIELDS: [&'static str; 2] = ["action", "response"];

/// The fields of a `emit` directive, in order.
pub const EMIT_FIELDS: [&'static str; 3] = ["action", "chunk", "ops"];

/// The fields of a `drop` directive, in order.
pub const DROP_FIELDS: [&'static str; 2] = ["action", "ops"];

/// The fields of a response, in order.
pub const RESPONSE_FIELDS: [&'static str; 3] = ["status", "headers", "body_b64"];

/// The fields of a chunk, in order.
pub const CHUNK_FIELDS: [&'static str; 1] = ["data_b64"];

/// The operation that a JSON value inside a directive spells out.
pub open spec fn read_op(v: JsonV) -> Option<OpV> {
    match tag_in(v, "op"@) {
        None => None,
        Some(tag) => if is_tag(tag, "set_header"@, 0, true) {
            let v = seated(v, strs(SET_HEADER_FIELDS@), 3);
            match (v.text_at("name"@), v.text_at("value"@)) {
                (Some(name), Some(value)) => Some(OpV::SetHeader { name, value }),
                _ => None,
            }
        } else if is_tag(tag, "delete_header"@, 1, true) {
            let v = seated(v, strs(DELETE_HEADER_FIELDS@), 2);
            match v.text_at("name"@) {
                Some(name) => Some(OpV::DeleteHeader { name }),
                None => None,
            }
        } else if is_tag(tag, "set_body"@, 2, true) {
            let v = seated(v, strs(SET_BODY_FIELDS@), 2);
            match v.text_at("body_b64"@) {
                Some(body_b64) => Some(OpV::SetBody { body_b64 }),
                None => None,
            }
        } else if is_tag(tag, "set_path"@, 3, true) {
            let v = seated(v, strs(SET_PATH_FIELDS@), 2);
            match v.text_at("path"@) {
                Some(path) => Some(OpV::SetPath { path }),
                None => None,
            }
        } else if is_tag(tag, "set_context"@, 4, true) {
            let v = seated(v, strs(SET_CONTEXT_FIELDS@), 2);
            match v.get("value"@) {
                Some(value) => Some(OpV::SetContext { value }),
                None => None,
            }
        } else {
            None
        },
    }
}

/// The operations that JSON values spell out, in order; none if one spells out
/// none.
pub open spec fn read_op_list(items: Seq<JsonV>) -> Option<Seq<OpV>>
    decreases items.len(),
{
    if items.len() == 0 {
        Some(Seq::empty())
    } else {
        match (read_op_list(items.drop_last()), read_op(items.last())) {
            (Some(before), Some(op)) => Some(before.push(op)),
            _ => None,
        }
    }
}

/// The operations of a directive: none where they are left out.
pub open spec fn read_ops(v: JsonV) -> Option<Seq<OpV>> {
    match v.get("ops"@) {
        None => if v is Object {
            Some(Seq::empty())
        } else {
            None
        },
        Some(JsonV::Array(items)) => read_op_list(items),
        Some(_) => None,
    }
}

/// The response that a JSON value spells out: a status, and headers and a body that
/// may be left out.
pub open spec fn read_response(v: JsonV) -> Option<RespSpecV> {
    let v = seated(v, strs(RESPONSE_FIELDS@), 1);
    match (v.uint_at("status"@), read_headers(v.get("headers"@)), v.get("body_b64"@)) {
        (Some(status), Some(headers), body) => if status > u16::MAX {
            None
        } else {
            match body {
                None => Some(
                    RespSpecV { status: status as u16, headers, body_b64: Seq::empty() },
                ),
                Some(JsonV::Str(body_b64)) => Some(
                    RespSpecV { status: status as u16, headers, body_b64 },
                ),
                Some(_) => None,
            }
        },
        _ => None,
    }
}

/// The response of a directive.
pub open spec fn response_at(v: JsonV) -> Option<RespSpecV> {
    match v.get("response"@) {
        Some(response) => read_response(response),
        None => None,
    }
}

/// The bytes of a directive's chunk, in base64.
pub open spec fn chunk_at(v: JsonV) -> Option<Seq<char>> {
    match v.get("chunk"@) {
        Some(chunk) => seated(chunk, strs(CHUNK_FIELDS@), 1).text_at("data_b64"@),
        None => None,
    }
}

/// The directive that a JSON value spells out.
pub open spec fn read_directive(v: JsonV) -> Option<DirectiveV> {
    match tag_in(v, "action"@) {
        None => None,
        Some(tag) => if is_tag(tag, "continue"@, 0, false) {
            let v = seated(v, strs(CONTINUE_FIELDS@), 1);
            match read_ops(v) {
                Some(ops) => Some(DirectiveV::Continue { ops }),
                None => None,
            }
        } else if is_tag(tag, "short_circuit"@, 1, false) {
            let v = seated(v, strs(SHORT_CIRCUIT_FIELDS@), 2);
            match response_at(v) {
                Some(response) => Some(DirectiveV::ShortCircuit { response }),
                None => None,
            }
        } else if is_tag(tag, "abort"@, 2, false) {
            let v = seated(v, strs(ABORT_FIELDS@), 2);
            match response_at(v) {
                Some(response) => Some(DirectiveV::Abort { response }),
                None => None,
            }
        } else if is_tag(tag, "emit"@, 3, false) {
            let v = seated(v, strs(EMIT_FIELDS@), 2);
            match (chunk_at(v), read_ops(v)) {
                (Some(data_b64), Some(ops)) => Some(DirectiveV::Emit { data_b64, ops }),
                _ => None,
            }
        } else if is_tag(tag, "drop"@, 4, false) {
            let v = seated(v, strs(DROP_FIELDS@), 1);
            match read_ops(v) {
                Some(ops) => Some(DirectiveV::Drop { ops }),
                None => None,
            }
        } else {
            None
        },
    }
}

fn op_from(v: &Json) -> (r: Option<Op>)
    ensures
        opt_view(r) == read_op(v@),
{
    let tag = match find_tag(v, "op") {
        Some(tag) => tag,
        None => {
            return None;
        },
    };
    if picks(tag, "set_header", 0, true) {
        let seats = seat(v, &SET_HEADER_FIELDS, 3);
        let v = pick(&seats, v);
        match (v.str_at("name"), v.str_at("value")) {
            (Some(name), Some(value)) => Some(
                Op::SetHeader { name: name.clone(), value: value.clone() },
            ),
            _ => None,
        }
    } else if picks(tag, "delete_header", 1, true) {
        let seats = seat(v, &DELETE_HEADER_FIELDS, 2);
        let v = pick(&seats, v);
        match v.str_at("name") {
            Some(name) => Some(Op::DeleteHeader { name: name.clone() }),
            None => None,
        }
    } else if picks(tag, "set_body", 2, true) {
        let seats = seat(v, &SET_BODY_FIELDS, 2);
        let v = pick(&seats, v);
        match v.str_at("body_b64") {
            Some(body) => Some(Op::SetBody { body_b64: body.clone() }),
            None => None,
        }
    } else if picks(tag, "set_path", 3, true) {
        let seats = seat(v, &SET_PATH_FIELDS, 2);
        let v = pick(&seats, v);
        match v.str_at("path") {
            Some(path) => Some(Op::SetPath { path: path.clone() }),
            None => None,
        }
    } else if picks(tag, "set_context", 4, true) {
        let seats = seat(v, &SET_CONTEXT_FIELDS, 2);
        let v = pick(&seats, v);
        match v.get("value") {
            Some(value) => Some(Op::SetContext { value: value.dup() }),
            None => None,
        }
    } else {
        None
    }
}

proof fn lemma_unread_op(items: Seq<JsonV>, i: int)
    requires
        0 <= i < items.len(),
        read_op(items[i]) is None,
    ensures
        read_op_list(items) is None,
    decreases items.len(),
{
    if i < items.len() - 1 {
        assert(items.drop_last()[i] == items[i]);
        lemma_unread_op(items.drop_last(), i);
    }
}

/// The views of a list that may be absent.
pub open spec fn list_view(r: Option<Vec<Op>>) -> Option<Seq<OpV>> {
    match r {
        Some(ops) => Some(views(ops@)),
        None => None,
    }
}

fn ops_from(v: &Json) -> (r: Option<Vec<Op>>)
    ensures
        list_view(r) == read_ops(v@),
{
    let mut out: Vec<Op> = Vec::new();
    assert(views(out@) == Seq::<OpV>::empty());
    match v.get("ops") {
        None => if v.as_object().is_some() {
            Some(out)
        } else {
            None
        },
        Some(Json::Array(items)) => {
            let ghost all = seq_view(items@);
            let mut i: usize = 0;
            while i < items.len()
                invariant
                    i <= items.len(),
                    all == seq_view(items@),
                    v@.get("ops"@) == Some(JsonV::Array(all)),
                    read_op_list(all.take(i as int)) == Some(views(out@)),
                decreases items.len() - i,
            {
                let ghost before = views(out@);
                assert(all.take(i + 1).drop_last() == all.take(i as int));
                assert(all.take(i + 1).last() == items@[i as int]@);
                match op_from(&items[i]) {
                    Some(op) => {
                        let ghost op_v = op@;
                        out.push(op);
                        assert(views(out@) == before.push(op_v));
                    },
                    None => {
                        proof {
                            lemma_unread_op(all, i as int);
                        }
                        return None;
                    },
                }
                i += 1;
            }
            assert(all.take(i as int) == all);
            Some(out)
        },
        Some(_) => None,
    }
}

fn response_from(v: &Json) -> (r: Option<RespSpec>)
    ensures
        opt_view(r) == response_at(v@),
{
    let response = match v.get("response") {
        Some(response) => response,
        None => {
            return None;
        },
    };
    let ghost given = response@;
    let seats = seat(response, &RESPONSE_FIELDS, 1);
    let response = pick(&seats, response);
    let status = match response.u64_at("status") {
        Some(status) => status,
        None => {
            return None;
        },
    };
    let headers = match headers_from(response.get("headers")) {
        Some(headers) => headers,
        None => {
            return None;
        },
    };
    if status > u16::MAX as u64 {
        return None;
    }
    let body_b64 = match response.get("body_b64") {
        None => String::new(),
        Some(Json::Str(body)) => body.clone(),
        Some(_) => {
            return None;
        },
    };
    let spec = RespSpec { status: status as u16, headers, body_b64 };
    assert(read_response(given) == Some(spec@));
    Some(spec)
}

/// Why a step's answer is no directive.
#[derive(Clone, PartialEq, Eq, Debug)]
pub enum DirectiveError {
    /// It is no JSON text; what the reader says of it.
    NotJson(String),
    /// It is JSON, but no directive.
    Malformed,
}

/// A directive that was read, or the error.
pub open spec fn directive_view(r: Result<Directive, DirectiveError>) -> Result<
    DirectiveV,
    Option<Seq<char>>,
> {
    match r {
        Ok(d) => Ok(d@),
        Err(DirectiveError::NotJson(why)) => Err(Some(why@)),
        Err(DirectiveError::Malformed) => Err(None),
    }
}

/// Whether the text of an operation gives none of its fields twice.
pub open spec fn op_once(text: Seq<u8>) -> bool {
    match json_read(text) {
        Err(_) => true,
        Ok(v) => match tag_in(v, "op"@) {
            None => true,
            Some(tag) => if is_tag(tag, "set_header"@, 0, true) {
                named_once(text, strs(SET_HEADER_FIELDS@))
            } else if is_tag(tag, "delete_header"@, 1, true) {
                named_once(text, strs(DELETE_HEADER_FIELDS@))
            } else if is_tag(tag, "set_body"@, 2, true) {
                named_once(text, strs(SET_BODY_FIELDS@))
            } else if is_tag(tag, "set_path"@, 3, true) {
                named_once(text, strs(SET_PATH_FIELDS@))
            } else if is_tag(tag, "set_context"@, 4, true) {
                named_once(text, strs(SET_CONTEXT_FIELDS@))
            } else {
                true
            },
        },
    }
}

/// Whether each text of an operation gives none of its fields twice.
pub open spec fn each_op_once(items: Seq<Seq<u8>>) -> bool {
    forall|i: int| 0 <= i < items.len() ==> op_once(#[trigger] items[i])
}

/// Whether the text of a list of operations gives no field of one of them twice.
pub open spec fn ops_once(text: Option<Seq<u8>>) -> bool {
    match text {
        Some(text) => match items_in(text) {
            Some(items) => each_op_once(items),
            None => true,
        },
        None => true,
    }
}

/// Whether the text of a directive's part gives none of some names twice.
pub open spec fn part_once(text: Option<Seq<u8>>, names: Seq<Seq<char>>) -> bool {
    match text {
        Some(text) => named_once(text, names),
        None => true,
    }
}

/// Whether the text of a directive gives no field of it twice, nor one of its
/// operations, of its response or of its chunk. Members that are no fields may stand
/// there as often as they like.
pub open spec fn fields_once(text: Seq<u8>, v: JsonV) -> bool {
    match tag_in(v, "action"@) {
        None => true,
        Some(tag) => if is_tag(tag, "continue"@, 0, false) {
            &&& named_once(text, strs(CONTINUE_FIELDS@))
            &&& ops_once(field_text(text, "ops"@, 1))
        } else if is_tag(tag, "short_circuit"@, 1, false) {
            &&& named_once(text, strs(SHORT_CIRCUIT_FIELDS@))
            &&& part_once(field_text(text, "response"@, 1), strs(RESPONSE_FIELDS@))
        } else if is_tag(tag, "abort"@, 2, false) {
            &&& named_once(text, strs(ABORT_FIELDS@))
            &&& part_once(field_text(text, "response"@, 1), strs(RESPONSE_FIELDS@))
        } else if is_tag(tag, "emit"@, 3, false) {
            &&& named_once(text, strs(EMIT_FIELDS@))
            &&& part_once(field_text(text, "chunk"@, 1), strs(CHUNK_FIELDS@))
            &&& ops_once(field_text(text, "ops"@, 2))
        } else if is_tag(tag, "drop"@, 4, false) {
            &&& named_once(text, strs(DROP_FIELDS@))
            &&& ops_once(field_text(text, "ops"@, 1))
        } else {
            true
        },
    }
}

fn op_named_once(text: &[u8]) -> (r: bool)
    ensures
        r == op_once(text@),
{
    match parse(text) {
        Err(_) => true,
        Ok(v) => match find_tag(&v, "op") {
            None => true,
            Some(tag) => if picks(tag, "set_header", 0, true) {
                names_once(text, &SET_HEADER_FIELDS)
            } else if picks(tag, "delete_header", 1, true) {
                names_once(text, &DELETE_HEADER_FIELDS)
            } else if picks(tag, "set_body", 2, true) {
                names_once(text, &SET_BODY_FIELDS)
            } else if picks(tag, "set_path", 3, true) {
                names_once(text, &SET_PATH_FIELDS)
            } else if picks(tag, "set_context", 4, true) {
                names_once(text, &SET_CONTEXT_FIELDS)
            } else {
                true
            },
        },
    }
}

fn items_named_once(items: &Vec<&[u8]>) -> (r: bool)
    ensures
        r == each_op_once(slice_views(items@)),
{
    let ghost all = slice_views(items@);
    let mut i: usize = 0;
    while i < items.len()
        invariant
            i <= items.len(),
            all == slice_views(items@),
            forall|j: int| 0 <= j < i ==> op_once(#[trigger] all[j]),
        decreases items.len() - i,
    {
        assert(all[i as int] == items@[i as int]@);
        if !op_named_once(items[i]) {
            return false;
        }
        i += 1;
    }
    true
}

fn ops_named_once(text: Option<&[u8]>) -> (r: bool)
    ensures
        r == ops_once(opt_slice(text)),
{
    match text {
        Some(text) => match read_items(text) {
            Some(items) => items_named_once(&items),
            None => true,
        },
        None => true,
    }
}

fn part_named_once(text: Option<&[u8]>, names: &[&str]) -> (r: bool)
    ensures
        r == part_once(opt_slice(text), strs(names@)),
{
    match text {
        Some(text) => names_once(text, names),
        None => true,
    }
}

fn fields_named_once(text: &[u8], v: &Json) -> (r: bool)
    ensures
        r == fields_once(text@, v@),
{
    match find_tag(v, "action") {
        None => true,
        Some(tag) => if picks(tag, "continue", 0, false) {
            names_once(text, &CONTINUE_FIELDS)
                && ops_named_once(find_field(text, "ops", 1))
        } else if picks(tag, "short_circuit", 1, false) {
            names_once(text, &SHORT_CIRCUIT_FIELDS)
                && part_named_once(find_field(text, "response", 1), &RESPONSE_FIELDS)
        } else if picks(tag, "abort", 2, false) {
            names_once(text, &ABORT_FIELDS)
                && part_named_once(find_field(text, "response", 1), &RESPONSE_FIELDS)
        } else if picks(tag, "emit", 3, false) {
            names_once(text, &EMIT_FIELDS)
                && part_named_once(find_field(text, "chunk", 1), &CHUNK_FIELDS)
                && ops_named_once(find_field(text, "ops", 2))
        } else if picks(tag, "drop", 4, false) {
            names_once(text, &DROP_FIELDS)
                && ops_named_once(find_field(text, "ops", 1))
        } else {
            true
        },
    }
}

/// The directive in what a step answered, given what the reader makes of it and
/// whether it gives no field twice.
pub open spec fn directive_in(read: Result<JsonV, Seq<char>>, once: bool) -> Result<
    DirectiveV,
    Option<Seq<char>>,
> {
    match read {
        Err(why) => Err(Some(why)),
        Ok(v) => match read_directive(v) {
            Some(d) => if once {
                Ok(d)
            } else {
                Err(None)
            },
            None => Err(None),
        },
    }
}

/// Whether what a step answered gives no field twice.
pub open spec fn answered_once(answer: Seq<u8>) -> bool {
    match json_read(answer) {
        Ok(v) => fields_once(answer, v),
        Err(_) => true,
    }
}

impl Directive {
    /// Reads a directive from a JSON value: an object whose `action` names it, or an
    /// array of that name and its fields in order. Members that belong to no
    /// directive are passed over.
    pub fn from_json(v: &Json) -> (r: Option<Directive>)
        ensures
            opt_view(r) == read_directive(v@),
    {
        let tag = match find_tag(v, "action") {
            Some(tag) => tag,
            None => {
                return None;
            },
        };
        if picks(tag, "continue", 0, false) {
            let seats = seat(v, &CONTINUE_FIELDS, 1);
            let v = pick(&seats, v);
            match ops_from(v) {
                Some(ops) => Some(Directive::Continue { ops }),
                None => None,
            }
        } else if picks(tag, "short_circuit", 1, false) {
            let seats = seat(v, &SHORT_CIRCUIT_FIELDS, 2);
            let v = pick(&seats, v);
            match response_from(v) {
                Some(response) => Some(Directive::ShortCircuit { response }),
                None => None,
            }
        } else if picks(tag, "abort", 2, false) {
            let seats = seat(v, &ABORT_FIELDS, 2);
            let v = pick(&seats, v);
            match response_from(v) {
                Some(response) => Some(Directive::Abort { response }),
                None => None,
            }
        } else if picks(tag, "emit", 3, false) {
            let seats = seat(v, &EMIT_FIELDS, 2);
            let v = pick(&seats, v);
            let data_b64 = match v.get("chunk") {
                Some(chunk) => {
                    let seats = seat(chunk, &CHUNK_FIELDS, 1);
                    match pick(&seats, chunk).str_at("data_b64") {
                        Some(data) => data.clone(),
                        None => {
                            return None;
                        },
                    }
                },
                None => {
                    return None;
                },
            };
            match ops_from(v) {
                Some(ops) => Some(Directive::Emit { chunk: EmitChunk { data_b64 }, ops }),
                None => None,
            }
        } else if picks(tag, "drop", 4, false) {
            let seats = seat(v, &DROP_FIELDS, 1);
            let v = pick(&seats, v);
            match ops_from(v) {
                Some(ops) => Some(Directive::Drop { ops }),
                None => None,
            }
        } else {
            None
        }
    }

    /// Reads a directive from what a step answered. One that gives a field twice is
    /// refused.
    pub fn parse(answer: &[u8]) -> (r: Result<Directive, DirectiveError>)
        ensures
            directive_view(r) == directive_in(json_read(answer@), answered_once(answer@)),
    {
        match parse(answer) {
            Err(why) => Err(DirectiveError::NotJson(why)),
            Ok(v) => match Directive::from_json(&v) {
                Some(d) => if fields_named_once(answer, &v) {
                    Ok(d)
                } else {
                    Err(DirectiveError::Malformed)
                },
                None => Err(DirectiveError::Malformed),
            },
        }
    }
}

/// An answer that names its action twice is no directive, whichever it names.
pub proof fn law_action_given_twice_is_refused(answer: Seq<u8>)
    requires
        members_in(answer) is Some,
        given(members_in(answer)->Some_0, "action"@).len() > 1,
    ensures
        directive_in(json_read(answer), answered_once(answer)) is Err,
{
    assert(strs(CONTINUE_FIELDS@)[0] == "action"@);
    assert(strs(SHORT_CIRCUIT_FIELDS@)[0] == "action"@);
    assert(strs(ABORT_FIELDS@)[0] == "action"@);
    assert(strs(EMIT_FIELDS@)[0] == "action"@);
    assert(strs(DROP_FIELDS@)[0] == "action"@);
}

} // verus!
