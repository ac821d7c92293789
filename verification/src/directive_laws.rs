//! What a step's operations come to: which of them decide what is left behind.

use vstd::prelude::*;
use vstd::utf8::encode_utf8;

use crate::directive::{
    answered_once, directive_in, op_applied, op_once, ops_applied, read_directive, read_op, read_op_list,
    read_response, DirectiveV, OpErrorV, OpV, RespSpecV, Worked,
};
use crate::form_laws::{has_tag, holds_headers, lemma_headers};
use crate::json::{json_read, json_text, JsonV, Num};
use crate::members::{field_text, items_in, named_once};
use crate::reconstruct::hop_by_hop;
use crate::shape::seated;
use crate::text::{decimal, lowered};

verus! {

/// Whether an operation is on a header, whatever the case of its name.
pub open spec fn on_header(op: OpV, header: Seq<char>) -> bool {
    match op {
        OpV::SetHeader { name, .. } => lowered(name) == header,
        OpV::DeleteHeader { name } => lowered(name) == header,
        _ => false,
    }
}

/// Whether the operations from `k` on, short of `n`, have none of some sort.
pub open spec fn none_from(ops: Seq<OpV>, k: int, n: int, sort: spec_fn(OpV) -> bool) -> bool {
    forall|j: int| k <= j < n ==> !sort(#[trigger] ops[j])
}

proof fn lemma_before(w: Worked, name: Seq<char>, ops: Seq<OpV>, n: nat, cap: nat)
    requires
        n > 0,
        ops_applied(w, name, ops, n, cap) is Ok,
    ensures
        ops_applied(w, name, ops, (n - 1) as nat, cap) is Ok,
        op_applied(ops_applied(w, name, ops, (n - 1) as nat, cap)->Ok_0, name, ops[n - 1], cap)
            == ops_applied(w, name, ops, n, cap),
{
}

/// Where operations are accepted, the last `set_context` among them decides what the
/// step has in the context: exactly its value, whatever was there before.
pub proof fn law_last_context_counts(
    w: Worked,
    name: Seq<char>,
    ops: Seq<OpV>,
    n: nat,
    cap: nat,
    k: int,
    value: JsonV,
)
    requires
        n <= ops.len(),
        0 <= k < n,
        ops[k] == (OpV::SetContext { value }),
        none_from(ops, k + 1, n as int, |op: OpV| op is SetContext),
        ops_applied(w, name, ops, n, cap) is Ok,
    ensures
        ops_applied(w, name, ops, n, cap)->Ok_0.context == w.context.insert(name, value),
    decreases n,
{
    lemma_before(w, name, ops, n, cap);
    if k < n - 1 {
        law_last_context_counts(w, name, ops, (n - 1) as nat, cap, k, value);
        assert(!(ops[n - 1] is SetContext));
    } else {
        lemma_context_outside(w, name, ops, (n - 1) as nat, cap);
        let before = ops_applied(w, name, ops, (n - 1) as nat, cap)->Ok_0.context;
        assert(before.insert(name, value) == w.context.insert(name, value));
    }
}

proof fn lemma_context_outside(w: Worked, name: Seq<char>, ops: Seq<OpV>, n: nat, cap: nat)
    requires
        ops_applied(w, name, ops, n, cap) is Ok,
    ensures
        ops_applied(w, name, ops, n, cap)->Ok_0.context.remove(name) == w.context.remove(name),
        forall|k: Seq<char>|
            k != name ==> #[trigger] ops_applied(
                w,
                name,
                ops,
                n,
                cap,
            )->Ok_0.context.dom().contains(k) == w.context.dom().contains(k),
        forall|k: Seq<char>|
            k != name && w.context.dom().contains(k) ==> #[trigger] ops_applied(
                w,
                name,
                ops,
                n,
                cap,
            )->Ok_0.context[k] == w.context[k],
    decreases n,
{
    if n > 0 {
        lemma_before(w, name, ops, n, cap);
        lemma_context_outside(w, name, ops, (n - 1) as nat, cap);
    }
    assert(ops_applied(w, name, ops, n, cap)->Ok_0.context.remove(name) =~= w.context.remove(name));
}

/// Operations without a `set_context` leave the context as it was.
pub proof fn law_context_is_left_alone(w: Worked, name: Seq<char>, ops: Seq<OpV>, n: nat, cap: nat)
    requires
        n <= ops.len(),
        none_from(ops, 0, n as int, |op: OpV| op is SetContext),
        ops_applied(w, name, ops, n, cap) is Ok,
    ensures
        ops_applied(w, name, ops, n, cap)->Ok_0.context == w.context,
    decreases n,
{
    if n > 0 {
        lemma_before(w, name, ops, n, cap);
        law_context_is_left_alone(w, name, ops, (n - 1) as nat, cap);
        assert(!(ops[n - 1] is SetContext));
    }
}

/// Where operations are accepted, the last `set_body` among them decides the body;
/// without one the body stays.
pub proof fn law_last_body_counts(w: Worked, name: Seq<char>, ops: Seq<OpV>, n: nat, cap: nat, k: int)
    requires
        n <= ops.len(),
        -1 <= k < n,
        k >= 0 ==> ops[k] is SetBody,
        none_from(ops, k + 1, n as int, |op: OpV| op is SetBody),
        ops_applied(w, name, ops, n, cap) is Ok,
    ensures
        ops_applied(w, name, ops, n, cap)->Ok_0.req.body_b64 == if k >= 0 {
            ops[k]->body_b64
        } else {
            w.req.body_b64
        },
    decreases n,
{
    if n > 0 {
        lemma_before(w, name, ops, n, cap);
        if k < n - 1 {
            law_last_body_counts(w, name, ops, (n - 1) as nat, cap, k);
            assert(!(ops[n - 1] is SetBody));
        }
    }
}

/// Where operations are accepted, the last `set_path` among them decides the path;
/// without one the path stays. The method always stays.
pub proof fn law_last_path_counts(w: Worked, name: Seq<char>, ops: Seq<OpV>, n: nat, cap: nat, k: int)
    requires
        n <= ops.len(),
        -1 <= k < n,
        k >= 0 ==> ops[k] is SetPath,
        none_from(ops, k + 1, n as int, |op: OpV| op is SetPath),
        ops_applied(w, name, ops, n, cap) is Ok,
    ensures
        ops_applied(w, name, ops, n, cap)->Ok_0.req.path == if k >= 0 {
            ops[k]->path
        } else {
            w.req.path
        },
        ops_applied(w, name, ops, n, cap)->Ok_0.req.method == w.req.method,
    decreases n,
{
    if n > 0 {
        lemma_before(w, name, ops, n, cap);
        if k < n - 1 {
            law_last_path_counts(w, name, ops, (n - 1) as nat, cap, k);
            assert(!(ops[n - 1] is SetPath));
        } else {
            lemma_method_stays(w, name, ops, (n - 1) as nat, cap);
        }
    }
}

proof fn lemma_method_stays(w: Worked, name: Seq<char>, ops: Seq<OpV>, n: nat, cap: nat)
    requires
        ops_applied(w, name, ops, n, cap) is Ok,
    ensures
        ops_applied(w, name, ops, n, cap)->Ok_0.req.method == w.req.method,
    decreases n,
{
    if n > 0 {
        lemma_before(w, name, ops, n, cap);
        lemma_method_stays(w, name, ops, (n - 1) as nat, cap);
    }
}

/// Where operations are accepted, the last one on a header decides it, whatever the
/// case of the name: a `set_header` leaves its value there, a `delete_header` leaves
/// none, and without either the header is as it was.
pub proof fn law_last_on_a_header_counts(
    w: Worked,
    name: Seq<char>,
    ops: Seq<OpV>,
    n: nat,
    cap: nat,
    header: Seq<char>,
    k: int,
)
    requires
        n <= ops.len(),
        -1 <= k < n,
        k >= 0 ==> on_header(ops[k], header),
        none_from(ops, k + 1, n as int, |op: OpV| on_header(op, header)),
        ops_applied(w, name, ops, n, cap) is Ok,
    ensures
        ({
            let headers = ops_applied(w, name, ops, n, cap)->Ok_0.req.headers;
            if k < 0 {
                &&& headers.dom().contains(header) == w.req.headers.dom().contains(header)
                &&& headers.dom().contains(header) ==> headers[header] == w.req.headers[header]
            } else {
                match ops[k] {
                    OpV::SetHeader { value, .. } => headers.dom().contains(header) && headers[header] == value,
                    _ => !headers.dom().contains(header),
                }
            }
        }),
    decreases n,
{
    if n > 0 {
        lemma_before(w, name, ops, n, cap);
        if k < n - 1 {
            law_last_on_a_header_counts(w, name, ops, (n - 1) as nat, cap, header, k);
            assert(!on_header(ops[n - 1], header));
        }
    }
}

/// Whether an operation can be accepted: it sets or deletes no framing header, and
/// the text of what it puts into the context keeps to the cap.
pub open spec fn acceptable(op: OpV, cap: nat) -> bool {
    match op {
        OpV::SetHeader { name, .. } => !hop_by_hop(name),
        OpV::DeleteHeader { name } => !hop_by_hop(name),
        OpV::SetContext { value } => encode_utf8(json_text(value)).len() <= cap,
        _ => true,
    }
}

/// Operations are accepted exactly where each of them can be; otherwise the error
/// is that of the first that cannot, and names its header in small letters, or the
/// step, the size and the cap.
pub proof fn law_refused_for_the_first_fault(w: Worked, name: Seq<char>, ops: Seq<OpV>, n: nat, cap: nat)
    requires
        n <= ops.len(),
    ensures
        ops_applied(w, name, ops, n, cap) is Ok <==> forall|j: int|
            0 <= j < n ==> acceptable(#[trigger] ops[j], cap),
        forall|k: int|
            0 <= k < n && !acceptable(#[trigger] ops[k], cap) && (forall|j: int|
                0 <= j < k ==> acceptable(#[trigger] ops[j], cap)) ==> ops_applied(w, name, ops, n, cap)
                == Err::<Worked, OpErrorV>(
                match ops[k] {
                    OpV::SetHeader { name: header, .. } => OpErrorV::ProtectedHeader(lowered(header)),
                    OpV::DeleteHeader { name: header } => OpErrorV::ProtectedHeader(lowered(header)),
                    OpV::SetContext { value } => OpErrorV::ContextTooLarge {
                        namespace: name,
                        size: encode_utf8(json_text(value)).len(),
                        cap,
                    },
                    _ => OpErrorV::ProtectedHeader(Seq::empty()),
                },
            ),
    decreases n,
{
    if n > 0 {
        law_refused_for_the_first_fault(w, name, ops, (n - 1) as nat, cap);
        if ops_applied(w, name, ops, (n - 1) as nat, cap) is Ok {
            assert forall|j: int| 0 <= j < n - 1 implies acceptable(#[trigger] ops[j], cap) by {}
            assert(acceptable(ops[n - 1], cap) <==> ops_applied(w, name, ops, n, cap) is Ok);
        } else {
            let j = choose|j: int| 0 <= j < n - 1 && !acceptable(#[trigger] ops[j], cap);
            assert(!acceptable(ops[j], cap));
        }
    }
}

/// The framing headers are the six that concern one hop only, in any case of their
/// letters, and no others.
pub proof fn law_framing_headers_are_six(name: Seq<char>)
    ensures
        hop_by_hop(name) <==> (lowered(name) == "connection"@ || lowered(name) == "transfer-encoding"@
            || lowered(name) == "content-length"@ || lowered(name) == "keep-alive"@ || lowered(name)
            == "upgrade"@ || lowered(name) == "te"@),
{
    let all = crate::text::strs(crate::reconstruct::FRAMING_HEADERS@);
    assert(all == seq![
        "connection"@,
        "transfer-encoding"@,
        "content-length"@,
        "keep-alive"@,
        "upgrade"@,
        "te"@,
    ]);
    assert(all[0] == "connection"@ && all[1] == "transfer-encoding"@ && all[2] == "content-length"@ && all[3]
        == "keep-alive"@ && all[4] == "upgrade"@ && all[5] == "te"@);
}

/// The words of directives differ from each other.
proof fn lemma_directive_words()
    ensures
        "drop"@.len() == 4 && "drop"@[0] == 'd',
        "emit"@.len() == 4 && "emit"@[0] == 'e',
        "abort"@.len() == 5,
        "continue"@.len() == 8 && "continue"@[4] == 'i',
        "set_body"@.len() == 8 && "set_body"@[4] == 'b',
        "set_path"@.len() == 8 && "set_path"@[4] == 'p',
        "set_header"@.len() == 10,
        "set_context"@.len() == 11,
        "delete_header"@.len() == 13 && "delete_header"@[0] == 'd',
        "short_circuit"@.len() == 13 && "short_circuit"@[0] == 's',
{
    reveal_strlit("drop");
    reveal_strlit("emit");
    reveal_strlit("abort");
    reveal_strlit("continue");
    reveal_strlit("set_body");
    reveal_strlit("set_path");
    reveal_strlit("set_header");
    reveal_strlit("set_context");
    reveal_strlit("delete_header");
    reveal_strlit("short_circuit");
}

/// An operation is read by its `op`, which names it or gives its place, and by its
/// fields, from the members of their names or the items of their places.
pub proof fn law_operations_are_read(v: JsonV, op: OpV)
    ensures
        read_op(v) == Some(op) <==> match op {
            OpV::SetHeader { name, value } => {
                let t = seated(v, seq!["op"@, "name"@, "value"@], 3);
                &&& has_tag(v, "op"@, "set_header"@, 0, true)
                &&& t.get("name"@) == Some(JsonV::Str(name))
                &&& t.get("value"@) == Some(JsonV::Str(value))
            },
            OpV::DeleteHeader { name } => has_tag(v, "op"@, "delete_header"@, 1, true) && seated(
                v,
                seq!["op"@, "name"@],
                2,
            ).get("name"@) == Some(JsonV::Str(name)),
            OpV::SetBody { body_b64 } => has_tag(v, "op"@, "set_body"@, 2, true) && seated(
                v,
                seq!["op"@, "body_b64"@],
                2,
            ).get("body_b64"@) == Some(JsonV::Str(body_b64)),
            OpV::SetPath { path } => has_tag(v, "op"@, "set_path"@, 3, true) && seated(v, seq!["op"@, "path"@], 2).get(
                "path"@,
            ) == Some(JsonV::Str(path)),
            OpV::SetContext { value } => has_tag(v, "op"@, "set_context"@, 4, true) && seated(
                v,
                seq!["op"@, "value"@],
                2,
            ).get("value"@) == Some(value),
        },
{
    lemma_directive_words();
    crate::field_names::law_directive_names();
}

/// A list of operations is read item by item, in order; one item that is no
/// operation makes it none.
pub proof fn law_operation_lists_are_read(items: Seq<JsonV>, ops: Seq<OpV>)
    ensures
        read_op_list(items) == Some(ops) <==> (ops.len() == items.len() && forall|i: int|
            0 <= i < items.len() ==> read_op(#[trigger] items[i]) == Some(ops[i])),
    decreases items.len(),
{
    if items.len() == 0 {
        assert(ops.len() == 0 ==> ops =~= Seq::empty());
    } else {
        let n = items.len() - 1;
        let before = items.drop_last();
        if let Some(got) = read_op_list(items) {
            let head = read_op_list(before)->Some_0;
            law_operation_lists_are_read(before, head);
            assert forall|i: int| 0 <= i < items.len() implies read_op(#[trigger] items[i]) == Some(got[i]) by {
                if i < n {
                    assert(before[i] == items[i]);
                }
            }
        }
        if ops.len() == items.len() && forall|i: int|
            0 <= i < items.len() ==> read_op(#[trigger] items[i]) == Some(ops[i]) {
            assert forall|i: int| 0 <= i < before.len() implies read_op(#[trigger] before[i]) == Some(
                ops.drop_last()[i],
            ) by {
                assert(before[i] == items[i]);
            }
            law_operation_lists_are_read(before, ops.drop_last());
            assert(read_op(items[n]) == Some(ops[n]));
            assert(ops == ops.drop_last().push(ops.last()));
        }
    }
}

/// A response is read by its status, a number of a response, its headers and its body,
/// each of the latter two empty where it is left out.
pub proof fn law_responses_are_read(v: JsonV, r: RespSpecV)
    ensures
        read_response(v) == Some(r) <==> {
            let t = seated(v, seq!["status"@, "headers"@, "body_b64"@], 1);
            &&& t.get("status"@) == Some(JsonV::Number(Num::PosInt(r.status as u64)))
            &&& t.get("headers"@) is None ==> r.headers == Map::<Seq<char>, Seq<char>>::empty()
            &&& t.get("headers"@) is Some ==> holds_headers(t.get("headers"@), r.headers)
            &&& match t.get("body_b64"@) {
                None => r.body_b64 == Seq::<char>::empty(),
                Some(x) => x == JsonV::Str(r.body_b64),
            }
        },
{
    crate::field_names::law_directive_names();
    let t = seated(v, seq!["status"@, "headers"@, "body_b64"@], 1);
    if let Some(JsonV::Object(h)) = t.get("headers"@) {
        lemma_headers(h, r.headers);
    }
}

/// A directive is read by its `action`, which names it; operations may be left out, a
/// response or a chunk may not.
pub proof fn law_directives_are_read(v: JsonV, d: DirectiveV)
    ensures
        read_directive(v) == Some(d) <==> match d {
            DirectiveV::Continue { ops } => has_tag(v, "action"@, "continue"@, 0, false) && gives_ops(
                seated(v, seq!["action"@, "ops"@], 1),
                ops,
            ),
            DirectiveV::ShortCircuit { response } => has_tag(v, "action"@, "short_circuit"@, 1, false) && gives_response(
                seated(v, seq!["action"@, "response"@], 2),
                response,
            ),
            DirectiveV::Abort { response } => has_tag(v, "action"@, "abort"@, 2, false) && gives_response(
                seated(v, seq!["action"@, "response"@], 2),
                response,
            ),
            DirectiveV::Emit { data_b64, ops } => {
                let t = seated(v, seq!["action"@, "chunk"@, "ops"@], 2);
                &&& has_tag(v, "action"@, "emit"@, 3, false)
                &&& gives_ops(t, ops)
                &&& t.get("chunk"@) matches Some(chunk) && seated(chunk, seq!["data_b64"@], 1).get("data_b64"@) == Some(
                    JsonV::Str(data_b64),
                )
            },
            DirectiveV::Drop { ops } => has_tag(v, "action"@, "drop"@, 4, false) && gives_ops(
                seated(v, seq!["action"@, "ops"@], 1),
                ops,
            ),
        },
{
    lemma_directive_words();
    crate::field_names::law_directive_names();
}

/// Whether a record gives some operations, none where it has no list of them.
pub open spec fn gives_ops(t: JsonV, ops: Seq<OpV>) -> bool {
    match t.get("ops"@) {
        None => t is Object && ops == Seq::<OpV>::empty(),
        Some(JsonV::Array(items)) => read_op_list(items) == Some(ops),
        Some(_) => false,
    }
}

/// Whether a record gives a response.
pub open spec fn gives_response(t: JsonV, r: RespSpecV) -> bool {
    t.get("response"@) matches Some(given) && read_response(given) == Some(r)
}

/// A single operation changes one thing of what the steps work on; a framing header and
/// a context above the cap are refused.
pub proof fn law_each_operation_changes_one_thing(w: Worked, step: Seq<char>, op: OpV, cap: nat)
    ensures
        match op {
            OpV::SetHeader { name, value } => {
                &&& hop_by_hop(name) ==> op_applied(w, step, op, cap) == Err::<Worked, OpErrorV>(
                    OpErrorV::ProtectedHeader(lowered(name)),
                )
                &&& !hop_by_hop(name) ==> (op_applied(w, step, op, cap) matches Ok(n) && n.req.headers
                    == w.req.headers.insert(lowered(name), value) && n.req.method == w.req.method && n.req.path
                    == w.req.path && n.req.body_b64 == w.req.body_b64 && n.context == w.context)
            },
            OpV::DeleteHeader { name } => {
                &&& hop_by_hop(name) ==> op_applied(w, step, op, cap) == Err::<Worked, OpErrorV>(
                    OpErrorV::ProtectedHeader(lowered(name)),
                )
                &&& !hop_by_hop(name) ==> (op_applied(w, step, op, cap) matches Ok(n) && n.req.headers
                    == w.req.headers.remove(lowered(name)) && n.req.method == w.req.method && n.req.path == w.req.path
                    && n.req.body_b64 == w.req.body_b64 && n.context == w.context)
            },
            OpV::SetBody { body_b64 } => op_applied(w, step, op, cap) matches Ok(n) && n.req.body_b64 == body_b64
                && n.req.headers == w.req.headers && n.req.method == w.req.method && n.req.path == w.req.path
                && n.context == w.context,
            OpV::SetPath { path } => op_applied(w, step, op, cap) matches Ok(n) && n.req.path == path && n.req.headers
                == w.req.headers && n.req.method == w.req.method && n.req.body_b64 == w.req.body_b64 && n.context
                == w.context,
            OpV::SetContext { value } => {
                let size = encode_utf8(json_text(value)).len();
                &&& size > cap ==> op_applied(w, step, op, cap) == Err::<Worked, OpErrorV>(
                    OpErrorV::ContextTooLarge { namespace: step, size, cap },
                )
                &&& size <= cap ==> (op_applied(w, step, op, cap) matches Ok(n) && n.context == w.context.insert(
                    step,
                    value,
                ) && n.req == w.req)
            },
        },
{
}

/// Operations are applied one after the other; the first that is refused ends it.
pub proof fn law_operations_follow_each_other(w: Worked, step: Seq<char>, ops: Seq<OpV>, n: nat, cap: nat)
    ensures
        ops_applied(w, step, ops, 0, cap) == Ok::<Worked, OpErrorV>(w),
        match ops_applied(w, step, ops, n, cap) {
            Ok(before) => ops_applied(w, step, ops, n + 1, cap) == op_applied(before, step, ops[n as int], cap),
            Err(e) => ops_applied(w, step, ops, n + 1, cap) == Err::<Worked, OpErrorV>(e),
        },
{
}

/// What is told of an operation that is refused.
pub proof fn law_refusals_are_told(name: Seq<char>, size: nat, cap: nat)
    ensures
        OpErrorV::ProtectedHeader(name).text() == "step attempted to modify protected header '"@ + name + "'"@,
        (OpErrorV::ContextTooLarge { namespace: name, size, cap }).text() == "context for namespace '"@ + name + "' is "@
            + decimal(size) + " bytes, exceeding cap of "@ + decimal(cap) + " bytes"@,
{
}

/// The names of the fields of an operation with a tag.
pub open spec fn operation_fields(v: JsonV) -> Option<Seq<Seq<char>>> {
    if has_tag(v, "op"@, "set_header"@, 0, true) {
        Some(seq!["op"@, "name"@, "value"@])
    } else if has_tag(v, "op"@, "delete_header"@, 1, true) {
        Some(seq!["op"@, "name"@])
    } else if has_tag(v, "op"@, "set_body"@, 2, true) {
        Some(seq!["op"@, "body_b64"@])
    } else if has_tag(v, "op"@, "set_path"@, 3, true) {
        Some(seq!["op"@, "path"@])
    } else if has_tag(v, "op"@, "set_context"@, 4, true) {
        Some(seq!["op"@, "value"@])
    } else {
        None
    }
}

/// Whether no operation of a list's text gives a field twice.
pub open spec fn operations_repeat_nothing(text: Option<Seq<u8>>) -> bool {
    text matches Some(list) ==> (items_in(list) matches Some(items) ==> forall|i: int|
        0 <= i < items.len() ==> (json_read(#[trigger] items[i]) matches Ok(v) ==> (operation_fields(v) matches Some(
            names,
        ) ==> named_once(items[i], names))))
}

/// An answer repeats nothing exactly where neither the directive, nor the response or
/// the chunk in it, nor any of its operations gives a field twice.
pub proof fn law_repeated_fields_are_seen(answer: Seq<u8>, v: JsonV)
    requires
        json_read(answer) == Ok::<JsonV, Seq<char>>(v),
    ensures
        has_tag(v, "action"@, "continue"@, 0, false) ==> (answered_once(answer) <==> named_once(
            answer,
            seq!["action"@, "ops"@],
        ) && operations_repeat_nothing(field_text(answer, "ops"@, 1))),
        has_tag(v, "action"@, "drop"@, 4, false) ==> (answered_once(answer) <==> named_once(
            answer,
            seq!["action"@, "ops"@],
        ) && operations_repeat_nothing(field_text(answer, "ops"@, 1))),
        has_tag(v, "action"@, "short_circuit"@, 1, false) || has_tag(v, "action"@, "abort"@, 2, false) ==> (
        answered_once(answer) <==> named_once(answer, seq!["action"@, "response"@]) && (field_text(
            answer,
            "response"@,
            1,
        ) matches Some(part) ==> named_once(part, seq!["status"@, "headers"@, "body_b64"@]))),
        has_tag(v, "action"@, "emit"@, 3, false) ==> (answered_once(answer) <==> named_once(
            answer,
            seq!["action"@, "chunk"@, "ops"@],
        ) && (field_text(answer, "chunk"@, 1) matches Some(part) ==> named_once(part, seq!["data_b64"@]))
            && operations_repeat_nothing(field_text(answer, "ops"@, 2))),
{
    lemma_directive_words();
    crate::field_names::law_directive_names();
    assert forall|text: Seq<u8>| #[trigger] op_once(text) == (json_read(text) matches Ok(v) ==> (operation_fields(
        v,
    ) matches Some(names) ==> named_once(text, names))) by {}
}

/// What a step answered is its directive where the text reads as one that gives no
/// field twice; it is an error, with the reader's words, where it is no JSON.
pub proof fn law_answers_are_read(read: Result<JsonV, Seq<char>>, once: bool)
    ensures
        read matches Err(why) ==> directive_in(read, once) == Err::<DirectiveV, Option<Seq<char>>>(Some(why)),
        read matches Ok(v) ==> (directive_in(read, once) is Ok <==> once && read_directive(v) is Some),
        read matches Ok(v) ==> (read_directive(v) matches Some(d) ==> once ==> directive_in(read, once) == Ok::<
            DirectiveV,
            Option<Seq<char>>,
        >(d)),
        read is Ok && directive_in(read, once) is Err ==> directive_in(read, once)->Err_0 is None,
{
}

} // verus!
