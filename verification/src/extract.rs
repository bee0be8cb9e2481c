//! One extraction pass: probing every packet of a capture for the fields of
//! one layer and gathering the distinct values.

use crate::clean::{clean_all, clean_values};
use crate::error::ExtractError;
use crate::json::{as_array, contents, elements, from_text, is_object, parsed, Contents};
use crate::probe::{find_layer, layer_of, probe, read_field};
use crate::result_set::ResultSet;
use crate::text::texts;
use serde_json::Value;
use vstd::prelude::*;

verus! {

/// The field keys behind a list of string slices, in the list's order.
pub open spec fn names(fields: Seq<&str>) -> Seq<Seq<char>> {
    Seq::new(fields.len(), |j: int| fields[j]@)
}

/// What one packet contributes to a pass: the text of each probed field that
/// the packet has.
pub open spec fn found_in(packet: Value, layer: Seq<char>, fields: Seq<Seq<char>>) -> Set<
    Seq<char>,
> {
    Set::new(
        |t: Seq<char>|
            exists|j: int| 0 <= j < fields.len() && #[trigger] probe(packet, layer, fields[j]) == Some(t),
    )
}

/// What a pass finds in a capture: every text that some packet contributes.
pub open spec fn found(packets: Seq<Value>, layer: Seq<char>, fields: Seq<Seq<char>>) -> Set<
    Seq<char>,
> {
    Set::new(
        |t: Seq<char>|
            exists|i: int|
                0 <= i < packets.len() && #[trigger] found_in(packets[i], layer, fields).contains(t),
    )
}

/// Whether `entries` lists the set `s`: every member once, and nothing else.
pub open spec fn lists(entries: Seq<Seq<char>>, s: Set<Seq<char>>) -> bool {
    entries.no_duplicates() && entries.to_set() == s
}

/// Whether `out` is a result for the found set `s`: the clean forms of the
/// members of `s`, each once, in some order.
pub open spec fn is_result(out: Seq<Seq<char>>, s: Set<Seq<char>>) -> bool {
    lists(out, clean_values(s))
}

/// Whether every one of `items` is an object.
pub open spec fn all_objects(items: Seq<Value>) -> bool {
    forall|i: int| 0 <= i < items.len() ==> contents(#[trigger] items[i]) is Object
}

/// The packets of a document: its elements, where the document is an array
/// and every element of it is an object. `None` for any other document.
pub open spec fn packets_of(document: Value) -> Option<Seq<Value>> {
    match elements(document) {
        Some(items) => if all_objects(items) {
            Some(items)
        } else {
            None
        },
        None => None,
    }
}

/// A packet probed for no field contributes nothing.
pub proof fn lemma_found_in_none(packet: Value, layer: Seq<char>)
    ensures
        found_in(packet, layer, Seq::<Seq<char>>::empty()) == Set::<Seq<char>>::empty(),
{
    assert(found_in(packet, layer, Seq::<Seq<char>>::empty()) =~= Set::<Seq<char>>::empty());
}

/// Probing one more field adds that field's text where the packet has it, and
/// nothing where it has not.
pub proof fn lemma_found_in_push(
    packet: Value,
    layer: Seq<char>,
    fields: Seq<Seq<char>>,
    field: Seq<char>,
)
    ensures
        found_in(packet, layer, fields.push(field)) == match probe(packet, layer, field) {
            Some(t) => found_in(packet, layer, fields).insert(t),
            None => found_in(packet, layer, fields),
        },
{
    let more = fields.push(field);
    let before = found_in(packet, layer, fields);
    let after = found_in(packet, layer, more);
    let expected = match probe(packet, layer, field) {
        Some(t) => before.insert(t),
        None => before,
    };
    assert forall|t: Seq<char>| after.contains(t) implies expected.contains(t) by {
        let j = choose|j: int| 0 <= j < more.len() && probe(packet, layer, more[j]) == Some(t);
        if j < fields.len() {
            assert(more[j] == fields[j]);
            assert(probe(packet, layer, fields[j]) == Some(t));
        }
    }
    assert forall|t: Seq<char>| expected.contains(t) implies after.contains(t) by {
        if before.contains(t) {
            let j = choose|j: int| 0 <= j < fields.len() && probe(packet, layer, fields[j]) == Some(t);
            assert(more[j] == fields[j]);
            assert(probe(packet, layer, more[j]) == Some(t));
        } else {
            assert(more[fields.len() as int] == field);
            assert(probe(packet, layer, more[fields.len() as int]) == Some(t));
        }
    }
    assert(after =~= expected);
}

/// A packet without the layer contributes nothing, whatever the fields.
pub proof fn lemma_found_in_without_layer(packet: Value, layer: Seq<char>, fields: Seq<Seq<char>>)
    requires
        layer_of(packet, layer) is None,
    ensures
        found_in(packet, layer, fields) == Set::<Seq<char>>::empty(),
{
    assert(found_in(packet, layer, fields) =~= Set::<Seq<char>>::empty());
}

/// A capture without packets yields nothing.
pub proof fn lemma_found_empty(layer: Seq<char>, fields: Seq<Seq<char>>)
    ensures
        found(Seq::<Value>::empty(), layer, fields) == Set::<Seq<char>>::empty(),
{
    assert(found(Seq::<Value>::empty(), layer, fields) =~= Set::<Seq<char>>::empty());
}

/// One more packet adds its own contribution to what the others yield.
pub proof fn lemma_found_push(
    packets: Seq<Value>,
    packet: Value,
    layer: Seq<char>,
    fields: Seq<Seq<char>>,
)
    ensures
        found(packets.push(packet), layer, fields) == found(packets, layer, fields).union(
            found_in(packet, layer, fields),
        ),
{
    let more = packets.push(packet);
    let after = found(more, layer, fields);
    let expected = found(packets, layer, fields).union(found_in(packet, layer, fields));
    assert forall|t: Seq<char>| after.contains(t) implies expected.contains(t) by {
        let i = choose|i: int| 0 <= i < more.len() && found_in(more[i], layer, fields).contains(t);
        if i < packets.len() {
            assert(more[i] == packets[i]);
            assert(found_in(packets[i], layer, fields).contains(t));
        }
    }
    assert forall|t: Seq<char>| expected.contains(t) implies after.contains(t) by {
        if found(packets, layer, fields).contains(t) {
            let i = choose|i: int|
                0 <= i < packets.len() && found_in(packets[i], layer, fields).contains(t);
            assert(more[i] == packets[i]);
            assert(found_in(more[i], layer, fields).contains(t));
        } else {
            assert(more[packets.len() as int] == packet);
            assert(found_in(more[packets.len() as int], layer, fields).contains(t));
        }
    }
    assert(after =~= expected);
}

/// Adds to `set` what one packet contributes to a pass.
pub fn collect_packet(set: &mut ResultSet, packet: &Value, layer: &str, fields: &[&str])
    ensures
        final(set).values() == old(set).values().union(found_in(*packet, layer@, names(fields@))),
        final(set)@.no_duplicates(),
{
    let ghost start = set.values();
    let ghost keys = names(fields@);
    let n: usize = fields.len();
    proof {
        use_type_invariant(&*set);
        lemma_found_in_none(*packet, layer@);
        assert(keys.take(0) == Seq::<Seq<char>>::empty());
        assert(start.union(Set::<Seq<char>>::empty()) == start);
    }
    match find_layer(packet, layer) {
        None => {
            proof {
                lemma_found_in_without_layer(*packet, layer@, keys);
            }
        },
        Some(layer_value) => {
            let mut j: usize = 0;
            while j < n
                invariant
                    n == fields.len(),
                    j <= n,
                    keys == names(fields@),
                    layer_of(*packet, layer@) == Some(*layer_value),
                    set.values() == start.union(found_in(*packet, layer@, keys.take(j as int))),
                    set@.no_duplicates(),
                decreases n - j,
            {
                let field: &str = fields[j];
                proof {
                    assert(keys.take(j + 1) == keys.take(j as int).push(field@));
                    lemma_found_in_push(*packet, layer@, keys.take(j as int), field@);
                }
                match read_field(layer_value, field) {
                    Some(text) => {
                        let ghost t = text@;
                        let ghost part = found_in(*packet, layer@, keys.take(j as int));
                        set.insert(text);
                        assert(start.union(part).insert(t) == start.union(part.insert(t)));
                    },
                    None => {},
                }
                j += 1;
            }
            assert(keys.take(n as int) == keys);
        },
    }
}

/// Gathers what a pass finds in a list of packets: each text once.
pub fn collect(packets: &Vec<Value>, layer: &str, fields: &[&str]) -> (set: ResultSet)
    ensures
        lists(set@, found(packets@, layer@, names(fields@))),
{
    let mut set = ResultSet::new();
    let n: usize = packets.len();
    let mut i: usize = 0;
    proof {
        lemma_found_empty(layer@, names(fields@));
        assert(packets@.take(0) == Seq::<Value>::empty());
        assert(set@.to_set() =~= Set::<Seq<char>>::empty());
    }
    while i < n
        invariant
            n == packets.len(),
            i <= n,
            lists(set@, found(packets@.take(i as int), layer@, names(fields@))),
        decreases n - i,
    {
        proof {
            assert(packets@.take(i + 1) == packets@.take(i as int).push(packets[i as int]));
            lemma_found_push(packets@.take(i as int), packets[i as int], layer@, names(fields@));
        }
        collect_packet(&mut set, &packets[i], layer, fields);
        i += 1;
    }
    assert(packets@.take(n as int) == packets@);
    set
}

/// Takes the packets out of a parsed document, which has to be an array of
/// objects.
pub fn packets(document: &Value) -> (r: Result<&Vec<Value>, ExtractError>)
    ensures
        match r {
            Ok(list) => packets_of(*document) == Some(list@),
            Err(e) => e is ShapeMismatch && packets_of(*document) is None,
        },
{
    match as_array(document) {
        None => Err(ExtractError::ShapeMismatch),
        Some(list) => {
            let n: usize = list.len();
            let mut i: usize = 0;
            while i < n
                invariant
                    n == list.len(),
                    i <= n,
                    elements(*document) == Some(list@),
                    all_objects(list@.take(i as int)),
                decreases n - i,
            {
                if !is_object(&list[i]) {
                    assert(!all_objects(list@)) by {
                        assert(!(contents(list@[i as int]) is Object));
                    }
                    return Err(ExtractError::ShapeMismatch);
                }
                assert forall|k: int| 0 <= k < i + 1 implies contents(
                    #[trigger] list@.take(i + 1)[k],
                ) is Object by {
                    if k < i {
                        assert(list@.take(i + 1)[k] == list@.take(i as int)[k]);
                    }
                }
                i += 1;
            }
            assert(list@.take(n as int) == list@);
            Ok(list)
        },
    }
}

/// Runs one pass over a list of packets: probes `fields` in the layer `layer`
/// of every packet, cleans each distinct text found and returns each clean
/// form once.
pub fn gather(packets: &Vec<Value>, layer: &str, fields: &[&str]) -> (out: Vec<String>)
    ensures
        is_result(texts(out@), found(packets@, layer@, names(fields@))),
{
    let raw = collect(packets, layer, fields).into_values();
    clean_all(&raw).into_values()
}

/// Runs one pass over a parsed document.
///
/// The document has to be an array of objects. Its elements are the packets;
/// one that lacks the layer contributes nothing.
pub fn extract(document: &Value, layer: &str, fields: &[&str]) -> (r: Result<
    Vec<String>,
    ExtractError,
>)
    ensures
        match r {
            Ok(out) => packets_of(*document) matches Some(list) && is_result(
                texts(out@),
                found(list, layer@, names(fields@)),
            ),
            Err(e) => e is ShapeMismatch && packets_of(*document) is None,
        },
{
    match packets(document) {
        Err(e) => Err(e),
        Ok(list) => Ok(gather(list, layer, fields)),
    }
}

/// Parses the text of a document.
pub fn parse(text: &str) -> (r: Result<Value, ExtractError>)
    ensures
        match r {
            Ok(document) => parsed(text@) == Some(document),
            Err(e) => e is InvalidJson && parsed(text@) is None,
        },
{
    match from_text(text) {
        Ok(document) => Ok(document),
        Err(e) => Err(ExtractError::InvalidJson(e)),
    }
}

} // verus!
