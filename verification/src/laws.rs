//! What holds of every pass, proved from the definitions.

use crate::clean::{clean_values, cleaned, is_clean, lemma_cleaned_is_clean};
use crate::error::ExtractError;
use crate::extract::{
    found, found_in, is_result, lemma_found_in_push, lemma_found_push, packets_of,
};
use crate::json::{member, parsed};
use crate::passes::Pass;
use crate::probe::{below, layer_of, probe};
use crate::text::texts;
use serde_json::Value;
use vstd::prelude::*;

verus! {

/// Whether a packet has nothing for a pass: it lacks the layer, or the layer
/// lacks every one of the fields.
pub open spec fn lacks(packet: Value, layer: Seq<char>, fields: Seq<Seq<char>>) -> bool {
    match layer_of(packet, layer) {
        None => true,
        Some(layer_value) => forall|j: int|
            0 <= j < fields.len() ==> member(layer_value, #[trigger] fields[j]) is None,
    }
}

/// The values of a result are the clean forms of the texts found, and no
/// others: which values a result holds is settled by the set of texts found.
pub proof fn lemma_result_values(out: Seq<Seq<char>>, s: Set<Seq<char>>)
    requires
        is_result(out, s),
    ensures
        out.to_set() == clean_values(s),
        forall|t: Seq<char>| s.contains(t) ==> out.contains(#[trigger] cleaned(t)),
        forall|i: int| 0 <= i < out.len() ==> clean_values(s).contains(#[trigger] out[i]),
{
    assert forall|t: Seq<char>| s.contains(t) implies out.contains(#[trigger] cleaned(t)) by {
        assert(clean_values(s).contains(cleaned(t)));
        assert(out.to_set().contains(cleaned(t)));
    }
    assert forall|i: int| 0 <= i < out.len() implies clean_values(s).contains(
        #[trigger] out[i],
    ) by {
        assert(out.to_set().contains(out[i]));
    }
}

/// No value occurs twice in a result.
pub proof fn lemma_result_distinct(out: Seq<Seq<char>>, s: Set<Seq<char>>)
    requires
        is_result(out, s),
    ensures
        forall|i: int, j: int| 0 <= i < j < out.len() ==> out[i] != out[j],
{
}

/// Every entry of a result is clean: it holds neither a double quote nor a
/// backslash.
pub proof fn lemma_result_is_clean(out: Seq<Seq<char>>, s: Set<Seq<char>>)
    requires
        is_result(out, s),
    ensures
        forall|i: int| 0 <= i < out.len() ==> is_clean(#[trigger] out[i]),
{
    lemma_result_values(out, s);
    assert forall|i: int| 0 <= i < out.len() implies is_clean(#[trigger] out[i]) by {
        let t = choose|t: Seq<char>| #[trigger] s.contains(t) && out[i] == cleaned(t);
        lemma_cleaned_is_clean(t);
    }
}

/// Two results for one set of texts found hold the same values, and as many.
pub proof fn lemma_results_agree(a: Seq<Seq<char>>, b: Seq<Seq<char>>, s: Set<Seq<char>>)
    requires
        is_result(a, s),
        is_result(b, s),
    ensures
        a.to_set() == b.to_set(),
        a.len() == b.len(),
{
    a.unique_seq_to_set();
    b.unique_seq_to_set();
}

/// The texts found in a capture do not depend on the order of its packets.
pub proof fn lemma_found_ignores_order(
    a: Seq<Value>,
    b: Seq<Value>,
    layer: Seq<char>,
    fields: Seq<Seq<char>>,
)
    requires
        a.to_multiset() == b.to_multiset(),
    ensures
        found(a, layer, fields) == found(b, layer, fields),
{
    assert forall|t: Seq<char>| found(a, layer, fields).contains(t) implies found(
        b,
        layer,
        fields,
    ).contains(t) by {
        lemma_found_carries_over(a, b, layer, fields, t);
    }
    assert forall|t: Seq<char>| found(b, layer, fields).contains(t) implies found(
        a,
        layer,
        fields,
    ).contains(t) by {
        lemma_found_carries_over(b, a, layer, fields, t);
    }
    assert(found(a, layer, fields) =~= found(b, layer, fields));
}

proof fn lemma_found_carries_over(
    a: Seq<Value>,
    b: Seq<Value>,
    layer: Seq<char>,
    fields: Seq<Seq<char>>,
    t: Seq<char>,
)
    requires
        a.to_multiset() == b.to_multiset(),
        found(a, layer, fields).contains(t),
    ensures
        found(b, layer, fields).contains(t),
{
    let i = choose|i: int| 0 <= i < a.len() && found_in(a[i], layer, fields).contains(t);
    assert(a.contains(a[i]));
    vstd::seq_lib::to_multiset_contains(a, a[i]);
    vstd::seq_lib::to_multiset_contains(b, a[i]);
    let k = choose|k: int| 0 <= k < b.len() && b[k] == a[i];
    assert(found_in(b[k], layer, fields).contains(t));
}

/// Membership is determined by the packets alone: two results of one pass,
/// for captures that hold the same packets in any order, hold the same
/// values.
pub proof fn lemma_same_values_in_any_order(
    out_a: Seq<Seq<char>>,
    out_b: Seq<Seq<char>>,
    a: Seq<Value>,
    b: Seq<Value>,
    layer: Seq<char>,
    fields: Seq<Seq<char>>,
)
    requires
        a.to_multiset() == b.to_multiset(),
        is_result(out_a, found(a, layer, fields)),
        is_result(out_b, found(b, layer, fields)),
    ensures
        out_a.to_set() == out_b.to_set(),
        out_a.len() == out_b.len(),
{
    lemma_found_ignores_order(a, b, layer, fields);
    lemma_results_agree(out_a, out_b, found(a, layer, fields));
}

/// A pass is deterministic on a document: whatever it returns for one text,
/// it fails or succeeds alike, and two successes hold the same values.
pub proof fn lemma_pass_deterministic(
    pass: Pass,
    text: Seq<char>,
    first: Result<Vec<String>, ExtractError>,
    second: Result<Vec<String>, ExtractError>,
)
    requires
        pass.outcome(text, first),
        pass.outcome(text, second),
    ensures
        match (first, second) {
            (Ok(out1), Ok(out2)) => texts(out1@).to_set() == texts(out2@).to_set(),
            (Err(e1), Err(e2)) => e1 is ShapeMismatch <==> e2 is ShapeMismatch,
            _ => false,
        },
{
    match (first, second) {
        (Ok(out1), Ok(out2)) => {
            let list = packets_of(parsed(text).unwrap()).unwrap();
            lemma_results_agree(texts(out1@), texts(out2@), found(list, pass.layer(), pass.fields()));
        },
        _ => {},
    }
}

/// One more packet adds its own contribution to what the others yield,
/// wherever in the capture it stands: packets do not affect one another.
pub proof fn lemma_found_insert(
    packets: Seq<Value>,
    at: int,
    packet: Value,
    layer: Seq<char>,
    fields: Seq<Seq<char>>,
)
    requires
        0 <= at <= packets.len(),
    ensures
        found(packets.insert(at, packet), layer, fields) == found(packets, layer, fields).union(
            found_in(packet, layer, fields),
        ),
{
    let more = packets.insert(at, packet);
    assert(more.to_multiset() == packets.push(packet).to_multiset()) by {
        vstd::seq_lib::to_multiset_insert(packets, at, packet);
        vstd::seq_lib::to_multiset_build(packets, packet);
    }
    lemma_found_ignores_order(more, packets.push(packet), layer, fields);
    lemma_found_push(packets, packet, layer, fields);
}

/// A packet that lacks the probed layer, or every probed field in it,
/// contributes nothing: with or without it, and wherever it stands, the pass
/// finds the same texts in the capture.
pub proof fn lemma_absent_contributes_nothing(
    packets: Seq<Value>,
    at: int,
    packet: Value,
    layer: Seq<char>,
    fields: Seq<Seq<char>>,
)
    requires
        0 <= at <= packets.len(),
        lacks(packet, layer, fields),
    ensures
        found_in(packet, layer, fields) == Set::<Seq<char>>::empty(),
        found(packets.insert(at, packet), layer, fields) == found(packets, layer, fields),
{
    assert forall|t: Seq<char>| !found_in(packet, layer, fields).contains(t) by {
        if found_in(packet, layer, fields).contains(t) {
            let j = choose|j: int|
                0 <= j < fields.len() && probe(packet, layer, fields[j]) == Some(t);
            assert(below(layer_of(packet, layer), fields[j]) is Some);
        }
    }
    assert(found_in(packet, layer, fields) =~= Set::<Seq<char>>::empty());
    lemma_found_insert(packets, at, packet, layer, fields);
    assert(found(packets, layer, fields).union(Set::<Seq<char>>::empty()) =~= found(
        packets,
        layer,
        fields,
    ));
}

/// A field that a packet lacks adds nothing to what the packet contributes
/// through the other fields.
pub proof fn lemma_absent_field_adds_nothing(
    packet: Value,
    layer: Seq<char>,
    fields: Seq<Seq<char>>,
    field: Seq<char>,
)
    requires
        probe(packet, layer, field) is None,
    ensures
        found_in(packet, layer, fields.push(field)) == found_in(packet, layer, fields),
{
    lemma_found_in_push(packet, layer, fields, field);
}

} // verus!
