//! What becomes of the fields of a body that have no place in the canonical form.

use vstd::prelude::*;

use crate::json::JsonV;
use crate::llm::adapter::{collected_extra, emit_keys, emit_one, emitted, split_tag, tagged, untagged};
use crate::llm::canonical::{DroppedV, ReportV};
use crate::text::{in_order, lemma_precedes_irreflexive, lemma_order_exists, lemma_split_first};
use crate::text_laws::law_splitting_loses_nothing;

verus! {

/// Every field of a body that its dialect does not model is kept, under its name with
/// the provider's in front; no other field is.
pub proof fn law_unmodelled_fields_are_kept(
    m: Map<Seq<char>, JsonV>,
    known: Seq<Seq<char>>,
    provider: Seq<char>,
    name: Seq<char>,
    key: Seq<char>,
)
    ensures
        ({
            let extra = collected_extra(JsonV::Object(m), known, provider);
            let tag = provider + "."@ + name;
            &&& extra.dom().contains(tag) <==> m.dom().contains(name) && !known.contains(name)
            &&& extra.dom().contains(tag) ==> extra[tag] == m[name]
            &&& extra.dom().contains(key) ==> exists|n: Seq<char>|
                key == #[trigger] tagged(provider, n) && m.dom().contains(n)
        }),
{
    reveal_strlit(".");
    let extra = collected_extra(JsonV::Object(m), known, provider);
    let tag = provider + "."@ + name;
    assert(tag.skip(provider.len() as int + 1) == name);
    assert(untagged(provider, tag) == name);
    if extra.dom().contains(key) {
        assert(key == tagged(provider, untagged(provider, key)));
    }
}

proof fn lemma_tag(target: Seq<char>, name: Seq<char>, key: Seq<char>)
    requires
        !target.contains('.'),
        target.len() > 0,
    ensures
        split_tag(key) == (target, name) <==> key == target + "."@ + name,
{
    reveal_strlit(".");
    assert("."@ == seq!['.']);
    law_splitting_loses_nothing(key, '.');
    lemma_split_first(target, '.', name);
    assert(target + "."@ + name == target + seq!['.'] + name);
    if split_tag(key) == (target, name) {
        assert(target.push('.') + name == target + "."@ + name);
    }
}

/// What the report says of an extra field that another dialect owns.
pub open spec fn foreign_entry(target: Seq<char>, key: Seq<char>) -> Option<DroppedV> {
    let (source, name) = split_tag(key);
    if source == target {
        None
    } else {
        Some(DroppedV { path: "extra."@ + name, reason: source + "-specific field not representable in "@ + target })
    }
}

/// What the report remarks on an extra field of the target's own dialect whose name is
/// already taken.
pub open spec fn collision_remark(
    target: Seq<char>,
    out: Map<Seq<char>, JsonV>,
    key: Seq<char>,
) -> Option<Seq<char>> {
    let (source, name) = split_tag(key);
    if source == target && out.dom().contains(name) {
        Some(
            "extra."@ + name
                + ": collides with a field this renderer already set; the renderer's own value was kept, extra value dropped"@,
        )
    } else {
        None
    }
}

proof fn lemma_keys_written(
    target: Seq<char>,
    extra: Map<Seq<char>, JsonV>,
    keys: Seq<Seq<char>>,
    out: Map<Seq<char>, JsonV>,
    report: ReportV,
    x: Seq<char>,
)
    requires
        !target.contains('.'),
        target.len() > 0,
        keys.no_duplicates(),
    ensures
        ({
            let (o, r) = emit_keys(target, extra, keys, out, report);
            let tag = target + "."@ + x;
            &&& o.dom().contains(x) <==> out.dom().contains(x) || keys.contains(tag)
            &&& out.dom().contains(x) ==> o[x] == out[x]
            &&& !out.dom().contains(x) && keys.contains(tag) ==> o[x] == extra[tag]
            &&& r.dropped == report.dropped + keys.filter_map(|k: Seq<char>| foreign_entry(target, k))
            &&& r.notes == report.notes + keys.filter_map(|k: Seq<char>| collision_remark(target, out, k))
        }),
    decreases keys.len(),
{
    let tag = target + "."@ + x;
    let entry = |k: Seq<char>| foreign_entry(target, k);
    let remark = |k: Seq<char>| collision_remark(target, out, k);
    if keys.len() > 0 {
        let before = keys.drop_last();
        let k = keys.last();
        assert(before.no_duplicates());
        lemma_keys_written(target, extra, before, out, report, x);
        lemma_keys_written(target, extra, before, out, report, split_tag(k).1);
        let (o, r) = emit_keys(target, extra, before, out, report);
        lemma_tag(target, x, k);
        lemma_tag(target, split_tag(k).1, k);
        assert(keys.contains(tag) <==> before.contains(tag) || k == tag) by {
            if keys.contains(tag) {
                let i = choose|i: int| 0 <= i < keys.len() && keys[i] == tag;
                if i < before.len() {
                    assert(before[i] == tag);
                }
            }
            if before.contains(tag) {
                let i = choose|i: int| 0 <= i < before.len() && before[i] == tag;
                assert(keys[i] == tag);
            }
            assert(keys[keys.len() - 1] == k);
        }
        let (o2, r2) = emit_one(target, k, extra[k], o, r);
        assert(r2.dropped =~= report.dropped + keys.filter_map(entry));
        assert(!before.contains(k)) by {
            if before.contains(k) {
                let i = choose|i: int| 0 <= i < before.len() && before[i] == k;
                assert(keys[i] == keys[keys.len() - 1]);
            }
        }
        assert(r2.notes =~= report.notes + keys.filter_map(remark));
    } else {
        assert(report.dropped + Seq::<DroppedV>::empty() == report.dropped);
        assert(report.notes + Seq::<Seq<char>>::empty() == report.notes);
    }
}

/// Writing the extra fields of a request or a response leaves every field that was
/// already written as it is, puts each field of the target's own dialect whose name
/// is free under that name, and writes nothing else. Each field of another dialect is
/// in the report, once, and no other is; a remark names each field of the target's own
/// dialect that found its name taken.
pub proof fn law_extra_fields_are_written(
    target: Seq<char>,
    extra: Map<Seq<char>, JsonV>,
    out: Map<Seq<char>, JsonV>,
    report: ReportV,
    x: Seq<char>,
)
    requires
        !target.contains('.'),
        target.len() > 0,
        extra.dom().finite(),
    ensures
        ({
            let (o, r) = emitted(target, extra, out, report);
            let tag = target + "."@ + x;
            &&& o.dom().contains(x) <==> out.dom().contains(x) || extra.dom().contains(tag)
            &&& out.dom().contains(x) ==> o[x] == out[x]
            &&& !out.dom().contains(x) && extra.dom().contains(tag) ==> o[x] == extra[tag]
            &&& r.dropped == report.dropped + in_order(extra.dom()).filter_map(
                |k: Seq<char>| foreign_entry(target, k),
            )
            &&& r.notes == report.notes + in_order(extra.dom()).filter_map(
                |k: Seq<char>| collision_remark(target, out, k),
            )
        }),
{
    lemma_order_exists(extra.dom());
    let keys = in_order(extra.dom());
    assert(keys.no_duplicates()) by {
        assert forall|i: int, j: int| 0 <= i < keys.len() && 0 <= j < keys.len() && i != j implies keys[i]
            != keys[j] by {
            lemma_precedes_irreflexive(keys[i]);
        }
    }
    lemma_keys_written(target, extra, keys, out, report, x);
    let tag = target + "."@ + x;
    assert(keys.contains(tag) == keys.to_set().contains(tag));
}

/// The names of the providers hold no dot.
pub proof fn lemma_provider_names()
    ensures
        !"anthropic"@.contains('.') && "anthropic"@.len() > 0,
        !"openai"@.contains('.') && "openai"@.len() > 0,
        !"google"@.contains('.') && "google"@.len() > 0,
{
    reveal_strlit("anthropic");
    reveal_strlit("openai");
    reveal_strlit("google");
}

} // verus!
