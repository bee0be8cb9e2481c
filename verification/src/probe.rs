//! Looking one field up in one packet.

use crate::json::{get, member, render, rendered};
use serde_json::Value;
use vstd::prelude::*;

verus! {

/// The member of `v` under `key`, where there is a `v` at all.
pub open spec fn below(v: Option<Value>, key: Seq<char>) -> Option<Value> {
    match v {
        Some(inner) => member(inner, key),
        None => None,
    }
}

/// The layer called `layer` of a packet: what stands under `_source`, then
/// `layers`, then the layer's name. `None` as soon as one of the three is
/// missing.
pub open spec fn layer_of(packet: Value, layer: Seq<char>) -> Option<Value> {
    below(below(member(packet, "_source"@), "layers"@), layer)
}

/// The text of `field` in the layer `layer` of a packet, or `None` where the
/// packet lacks the layer or the layer lacks the field.
pub open spec fn probe(packet: Value, layer: Seq<char>, field: Seq<char>) -> Option<Seq<char>> {
    match below(layer_of(packet, layer), field) {
        Some(v) => Some(rendered(v)),
        None => None,
    }
}

/// Finds the layer called `layer` in a packet.
pub fn find_layer<'a>(packet: &'a Value, layer: &str) -> (r: Option<&'a Value>)
    ensures
        match r {
            Some(found) => layer_of(*packet, layer@) == Some(*found),
            None => layer_of(*packet, layer@) is None,
        },
{
    match get(packet, "_source") {
        None => None,
        Some(source) => match get(source, "layers") {
            None => None,
            Some(layers) => get(layers, layer),
        },
    }
}

/// Reads `field` in a layer that was found: the value's JSON text, or `None`
/// where the layer has no such field.
pub fn read_field(layer_value: &Value, field: &str) -> (r: Option<String>)
    ensures
        match r {
            Some(text) => member(*layer_value, field@) matches Some(v) && text@ == rendered(v),
            None => member(*layer_value, field@) is None,
        },
{
    match get(layer_value, field) {
        Some(v) => Some(render(v)),
        None => None,
    }
}

} // verus!
