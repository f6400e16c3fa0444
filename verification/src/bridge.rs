//! The operations of the boundary, on plain values: what each one checks, in
//! which order, what it hands to the tokenization engine and what it makes of
//! the engine's answer.
//!
//! The engine is the caller's, and so is the type `T` of its instances: no
//! function here calls it. For `load` and `encode` the caller asks for the
//! request, makes the engine's call where it can also catch the engine's
//! failures, and comes back with the answer. `tokenizer_load`,
//! `tokenizer_encode` and `tokenizer_destroy` say what each operation
//! returns, for every answer the engine can give.

use crate::handle_table::HandleTable;
use crate::handle_table::NULL_HANDLE;
use crate::serialize::is_id_text_char;
use crate::serialize::joined;
use crate::serialize::serialize_ids;
use crate::text::decode_text;
use crate::text::lemma_empty_is_text;
use vstd::prelude::*;
use vstd::utf8::decode_utf8;
use vstd::utf8::valid_utf8;

verus! {

/// Why an operation of the boundary produced nothing.
#[derive(Debug, Clone, Copy, PartialEq, Eq, Structural)]
pub enum BoundaryError {
    /// The model path was not text, the engine could not load the model, or
    /// the table had no room for another instance.
    ModelLoad,
    /// The input was not valid UTF-8, or the engine rejected it.
    Encode,
    /// The handle names no live instance: it is the sentinel, was never
    /// issued, or has been destroyed.
    ContractViolation,
}

/// Whether the engine is asked to add the model's special tokens. It always is.
pub const ADD_SPECIAL_TOKENS: bool = true;

/// What `encode` hands to the engine.
pub struct EngineCall<'a, T> {
    /// The instance that the handle names.
    pub instance: &'a T,
    /// The caller's text, decoded.
    pub input: &'a str,
    /// Whether the engine is to add the model's special tokens.
    pub add_special_tokens: bool,
}

/// First half of `load`: the model path as text, for the engine to open the
/// model file.
pub fn load_request(path: &[u8]) -> (request: Result<&str, BoundaryError>)
    ensures
        match request {
            Ok(text) => valid_utf8(path@) && text@ == decode_utf8(path@),
            Err(e) => !valid_utf8(path@) && e == BoundaryError::ModelLoad,
        },
{
    match decode_text(path) {
        Some(text) => Ok(text),
        None => Err(BoundaryError::ModelLoad),
    }
}

/// Second half of `load`: takes the instance that the engine built, if it
/// built one, and issues its handle. On failure nothing is kept: the table is
/// as it was.
pub fn load_reply<T>(table: &mut HandleTable<T>, loaded: Option<T>) -> (reply: Result<
    u64,
    BoundaryError,
>)
    ensures
        match reply {
            Ok(handle) => {
                &&& loaded is Some
                &&& old(table).has_room()
                &&& handle != NULL_HANDLE
                &&& !old(table)@.contains_key(handle)
                &&& !old(table).is_spent(handle)
                &&& final(table)@ == old(table)@.insert(handle, loaded->Some_0)
            },
            Err(e) => {
                &&& loaded is None || !old(table).has_room()
                &&& e == BoundaryError::ModelLoad
                &&& *final(table) == *old(table)
            },
        },
        forall|h: u64| final(table).is_spent(h) == old(table).is_spent(h),
        old(table).slot_count() <= final(table).slot_count() <= old(table).slot_count() + 1,
{
    match loaded {
        Some(instance) => match table.insert(instance) {
            Ok(handle) => Ok(handle),
            Err(_) => Err(BoundaryError::ModelLoad),
        },
        None => Err(BoundaryError::ModelLoad),
    }
}

/// First half of `encode`: the call to make to the engine. The handle is
/// checked before the text. Empty text is text: with a live handle it gets
/// its call like any other.
pub fn encode_request<'a, T>(table: &'a HandleTable<T>, handle: u64, text: &'a [u8]) -> (request:
    Result<EngineCall<'a, T>, BoundaryError>)
    ensures
        match request {
            Ok(call) => {
                &&& table@.contains_key(handle)
                &&& *call.instance == table@[handle]
                &&& valid_utf8(text@)
                &&& call.input@ == decode_utf8(text@)
                &&& call.add_special_tokens == ADD_SPECIAL_TOKENS
            },
            Err(e) => {
                if !table@.contains_key(handle) {
                    e == BoundaryError::ContractViolation
                } else {
                    !valid_utf8(text@) && e == BoundaryError::Encode
                }
            },
        },
        handle == NULL_HANDLE || table.is_spent(handle) ==> request is Err,
        table@.contains_key(handle) && text@.len() == 0 ==> request is Ok,
{
    proof {
        lemma_empty_is_text();
        assert(text@.len() == 0 ==> text@ =~= Seq::<u8>::empty());
    }
    match table.get(handle) {
        None => Err(BoundaryError::ContractViolation),
        Some(instance) => match decode_text(text) {
            None => Err(BoundaryError::Encode),
            Some(input) => Ok(EngineCall { instance, input, add_special_tokens: ADD_SPECIAL_TOKENS }),
        },
    }
}

/// Second half of `encode`: the transport text for the identifiers that the
/// engine produced, in a buffer of its own, or the failure where it produced
/// none.
pub fn encode_reply(produced: Option<Vec<u32>>) -> (reply: Result<String, BoundaryError>)
    ensures
        match reply {
            Ok(buffer) => {
                &&& produced is Some
                &&& buffer@ == joined(produced->Some_0@)
                &&& forall|i: int| 0 <= i < buffer@.len() ==> is_id_text_char(#[trigger] buffer@[i])
            },
            Err(e) => produced is None && e == BoundaryError::Encode,
        },
{
    match produced {
        Some(ids) => Ok(serialize_ids(ids.as_slice())),
        None => Err(BoundaryError::Encode),
    }
}

/// Loads a tokenizer: takes the model path and what the engine made of the
/// file at that path, an instance or `None`, and issues a handle for the
/// instance. A handle is issued exactly when the path is text, there is an
/// instance and the table has room, and it names that instance. Otherwise the
/// sentinel is returned and nothing is kept.
pub fn tokenizer_load<T>(table: &mut HandleTable<T>, path: &[u8], loaded: Option<T>) -> (handle: u64)
    ensures
        handle != NULL_HANDLE <==> valid_utf8(path@) && loaded is Some && old(table).has_room(),
        handle != NULL_HANDLE ==> {
            &&& !old(table)@.contains_key(handle)
            &&& !old(table).is_spent(handle)
            &&& final(table)@ == old(table)@.insert(handle, loaded->Some_0)
        },
        handle == NULL_HANDLE ==> *final(table) == *old(table),
        forall|h: u64| final(table).is_spent(h) == old(table).is_spent(h),
        old(table).slot_count() <= final(table).slot_count() <= old(table).slot_count() + 1,
{
    match load_request(path) {
        Err(_) => NULL_HANDLE,
        Ok(_) => match load_reply(table, loaded) {
            Ok(handle) => handle,
            Err(_) => NULL_HANDLE,
        },
    }
}

/// What `encode` returns, as a function of what it is given: the handles
/// that are live, the handle and text of the call, and the engine's answer.
/// There is a result exactly when the handle is live, the text is valid UTF-8
/// and the engine produced identifiers, and then it is their transport text.
pub open spec fn encoded<T>(
    live: Map<u64, T>,
    handle: u64,
    text: Seq<u8>,
    produced: Option<Seq<u32>>,
) -> Option<Seq<char>> {
    if live.contains_key(handle) && valid_utf8(text) && produced is Some {
        Some(joined(produced->Some_0))
    } else {
        None
    }
}

/// The engine's answer as a sequence.
pub open spec fn answer_view(produced: Option<Vec<u32>>) -> Option<Seq<u32>> {
    match produced {
        Some(ids) => Some(ids@),
        None => None,
    }
}

/// The buffer as a sequence of characters.
pub open spec fn buffer_view(buffer: Option<String>) -> Option<Seq<char>> {
    match buffer {
        Some(out) => Some(out@),
        None => None,
    }
}

/// Encodes `text` with the instance under `handle`: takes the engine's answer
/// to the call that `encode_request` gives for this handle and text, the
/// token identifiers or `None`, and returns their transport text in a fresh
/// buffer. A buffer is returned exactly when the handle names an instance,
/// the text is valid UTF-8 and the engine produced identifiers. The table is
/// only read.
pub fn tokenizer_encode<T>(
    table: &HandleTable<T>,
    handle: u64,
    text: &[u8],
    produced: Option<Vec<u32>>,
) -> (buffer: Option<String>)
    ensures
        buffer_view(buffer) == encoded(table@, handle, text@, answer_view(produced)),
        buffer matches Some(out) ==> forall|i: int|
            0 <= i < out@.len() ==> is_id_text_char(#[trigger] out@[i]),
        handle == NULL_HANDLE || table.is_spent(handle) ==> buffer is None,
{
    match encode_request(table, handle, text) {
        Err(_) => None,
        Ok(_) => match encode_reply(produced) {
            Ok(out) => Some(out),
            Err(_) => None,
        },
    }
}

/// Determinism: an encode is a function of the instance's being there, the
/// text and the engine's answer. Whatever else happened to the table between
/// two encodes of one text on one handle that is live both times, equal
/// answers of the engine give equal buffers.
pub proof fn lemma_encode_repeats<T>(
    first: Map<u64, T>,
    second: Map<u64, T>,
    handle: u64,
    text: Seq<u8>,
    produced: Option<Seq<u32>>,
)
    requires
        first.contains_key(handle),
        second.contains_key(handle),
    ensures
        encoded(first, handle, text, produced) == encoded(second, handle, text, produced),
{
}

/// Independence: loading or destroying another handle changes neither the
/// instance that is handed to the engine for `handle` nor the buffer that an
/// answer of the engine gives.
pub proof fn lemma_encode_ignores_other_handles<T>(
    live: Map<u64, T>,
    other: u64,
    instance: T,
    handle: u64,
    text: Seq<u8>,
    produced: Option<Seq<u32>>,
)
    requires
        other != handle,
    ensures
        encoded(live.remove(other), handle, text, produced) == encoded(live, handle, text, produced),
        encoded(live.insert(other, instance), handle, text, produced) == encoded(
            live,
            handle,
            text,
            produced,
        ),
        live.contains_key(handle) ==> live.remove(other)[handle] == live[handle] && live.insert(
            other,
            instance,
        )[handle] == live[handle],
{
}

/// A handle is usable as soon as it is issued, and not after it is
/// destroyed: with the handle just loaded, every valid text and every answer
/// of the engine gives the text of that answer; with the handle destroyed,
/// nothing gives a buffer.
pub proof fn lemma_encode_follows_the_lifecycle<T>(
    live: Map<u64, T>,
    handle: u64,
    instance: T,
    text: Seq<u8>,
    ids: Seq<u32>,
)
    ensures
        valid_utf8(text) ==> encoded(live.insert(handle, instance), handle, text, Some(ids))
            == Some(joined(ids)),
        encoded(live.remove(handle), handle, text, Some(ids)) is None,
{
}

/// Destroys the instance under `handle` and releases what it held. From
/// then on the handle is spent. A handle that names no instance, the
/// sentinel included, changes nothing.
pub fn tokenizer_destroy<T>(table: &mut HandleTable<T>, handle: u64)
    ensures
        final(table)@ == old(table)@.remove(handle),
        handle == NULL_HANDLE || !old(table)@.contains_key(handle) ==> *final(table) == *old(table),
        forall|h: u64|
            final(table).is_spent(h) == (old(table).is_spent(h) || (h == handle && old(
                table,
            )@.contains_key(handle))),
        final(table).slot_count() == old(table).slot_count(),
        old(table).has_room() ==> final(table).has_room(),
{
    let _ = table.remove(handle);
}

} // verus!
