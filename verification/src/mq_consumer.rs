//! The invalidation-event path.
//!
//! An external messaging collaborator delivers events whose payload is a
//! JSON document carrying an optional key identity. The listener loop that
//! receives them lives outside the library; what it does with each payload
//! is decided here: extract the key identity, if any, and invalidate that
//! key. Absent and malformed events are dropped, never fatal.

use vstd::prelude::*;

use crate::engine::GlobalCache;

verus! {

/// The listener capability the deployed consumer implements: subscribe to
/// a topic and turn each arriving invalidation event into a cache
/// invalidation.
pub trait MqConsumerFunc {
    fn invalid_by_signal(&self, topic: &str);
}

/// The integer the `id` field of a payload's JSON document holds, when the
/// payload parses, the field is present, and it is an integer that fits in
/// 64 bits. A pure function of the payload bytes: the same payload names
/// the same identity in every process and on every run.
pub uninterp spec fn spec_event_id(payload: Seq<u8>) -> Option<i64>;

/// Relies on `serde_json::from_slice::<serde_json::Value>`, `Value::get`
/// and `Value::as_i64`: parses the payload as one JSON document and reads
/// its `id` field as an integer. Each step answers every malformed shape
/// with `None` rather than failing, so the chain is total; an empty
/// payload is not a JSON document at all.
#[verifier::external_body]
fn event_id(payload: &[u8]) -> (r: Option<i64>)
    ensures
        r == spec_event_id(payload@),
        payload@.len() == 0 ==> r is None,
{
    serde_json::from_slice::<serde_json::Value>(payload).ok().and_then(
        |v| v.get("id").and_then(|f| f.as_i64()),
    )
}

/// Extracts the key identity an invalidation event carries: the `id` field
/// of the payload's JSON document, when the payload parses, the field is
/// present, and it holds an integer in key range. Every absent or
/// malformed shape gives `None`.
pub fn decode_invalidation(payload: &[u8]) -> (r: Option<i32>)
    ensures
        r == match spec_event_id(payload@) {
            Some(id) => if i32::MIN as i64 <= id && id <= i32::MAX as i64 {
                Some(id as i32)
            } else {
                None::<i32>
            },
            None => None::<i32>,
        },
{
    let id = match event_id(payload) {
        Some(i) => i,
        None => {
            return None;
        },
    };
    if i32::MIN as i64 <= id && id <= i32::MAX as i64 {
        Some(id as i32)
    } else {
        None
    }
}

/// Applies one decoded invalidation event to the engine: an event carrying
/// a key invalidates exactly that key; an event carrying none is dropped
/// and the engine is untouched. Returns whether a cell was removed.
pub fn handle_invalidation_event(cache: &mut GlobalCache, event: Option<i32>) -> (r: bool)
    requires
        old(cache).wf(),
    ensures
        final(cache).wf(),
        final(cache).num_shards() == old(cache).num_shards(),
        final(cache).capacity() == old(cache).capacity(),
        match event {
            Some(k) => r == old(cache).contents().contains_key(k) && final(cache).contents()
                == old(cache).contents().remove(k),
            None => r == false && final(cache).contents() == old(cache).contents(),
        },
{
    match event {
        Some(k) => cache.invalid(k),
        None => false,
    }
}

} // verus!
