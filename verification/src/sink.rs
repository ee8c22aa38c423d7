//! Sink descriptions, open modes, the transformer that a run applies to the
//! bytes persisted in file sinks, and the byte-level model of what a
//! truncating or appending write leaves in a file.

use crate::escape::{strip_escapes, strip_spec};
use vstd::prelude::*;

verus! {

/// How a file sink is opened: discard any existing content first, or keep
/// it and write at end-of-file.
#[derive(Clone, Copy, Debug, PartialEq, Eq, Structural)]
pub enum OpenMode {
    Truncate,
    Append,
}

/// The open mode derived from the `append` toggle.
pub open spec fn mode_for_append(append: bool) -> OpenMode {
    if append {
        OpenMode::Append
    } else {
        OpenMode::Truncate
    }
}

/// The open mode derived from the `append` toggle.
pub fn open_mode_of(append: bool) -> (m: OpenMode)
    ensures
        m == mode_for_append(append),
{
    if append {
        OpenMode::Append
    } else {
        OpenMode::Truncate
    }
}

/// A place bytes can be written: the process's standard output, or a named
/// file opened for writing in the given mode.
#[derive(Clone, Debug)]
pub enum Sink {
    Stdout,
    File { path: String, mode: OpenMode },
}

/// The transformation applied to the bytes persisted in file sinks;
/// standard output always receives the original bytes, whichever variant a
/// run selects.
#[derive(Clone, Copy, Debug, PartialEq, Eq, Structural)]
pub enum Transformer {
    /// Keep the bytes unchanged.
    Identity,
    /// Remove every removable terminal escape sequence.
    StripEscapes,
}

/// What a transformer maps an input to: the input itself, or the input with
/// every removable escape sequence removed.
pub open spec fn transform_spec(t: Transformer, input: Seq<u8>) -> Seq<u8> {
    match t {
        Transformer::Identity => input,
        Transformer::StripEscapes => strip_spec(input),
    }
}

/// A fresh copy of the input bytes.
pub fn copy_bytes(input: &[u8]) -> (r: Vec<u8>)
    ensures
        r@ == input@,
{
    let mut r: Vec<u8> = Vec::new();
    let mut i: usize = 0;
    while i < input.len()
        invariant
            i <= input@.len(),
            r@ == input@.take(i as int),
        decreases input@.len() - i,
    {
        r.push(input[i]);
        assert(r@ =~= input@.take(i + 1));
        i = i + 1;
    }
    assert(r@ =~= input@);
    r
}

/// Apply the transformer: a pure function of the input bytes alone.
pub fn transform(t: Transformer, input: &[u8]) -> (r: Vec<u8>)
    ensures
        r@ == transform_spec(t, input@),
{
    match t {
        Transformer::Identity => copy_bytes(input),
        Transformer::StripEscapes => strip_escapes(input),
    }
}

/// What a completed write leaves in a file that held `existing` before the
/// open: the payload alone under `Truncate`, the old content followed
/// immediately by the payload under `Append`.
pub open spec fn contents_after_write(existing: Seq<u8>, mode: OpenMode, payload: Seq<u8>) -> Seq<
    u8,
> {
    match mode {
        OpenMode::Truncate => payload,
        OpenMode::Append => existing + payload,
    }
}

/// Compute the file content a completed write leaves behind.
pub fn apply_write(existing: &[u8], mode: OpenMode, payload: &[u8]) -> (r: Vec<u8>)
    ensures
        r@ == contents_after_write(existing@, mode, payload@),
{
    match mode {
        OpenMode::Truncate => copy_bytes(payload),
        OpenMode::Append => {
            let mut r = copy_bytes(existing);
            let mut i: usize = 0;
            while i < payload.len()
                invariant
                    i <= payload@.len(),
                    r@ == existing@ + payload@.take(i as int),
                decreases payload@.len() - i,
            {
                r.push(payload[i]);
                assert(r@ =~= existing@ + payload@.take(i + 1));
                i = i + 1;
            }
            assert(r@ =~= existing@ + payload@);
            r
        },
    }
}

/// A truncating write discards the pre-existing content entirely: whatever
/// the target held before, it holds exactly the payload afterwards.
pub proof fn lemma_truncate_discards_existing(existing: Seq<u8>, payload: Seq<u8>)
    ensures
        contents_after_write(existing, OpenMode::Truncate, payload) == payload,
{
}

/// An appending write keeps every pre-existing byte in place and puts the
/// payload immediately after it: no byte is lost or reordered.
pub proof fn lemma_append_preserves_existing(existing: Seq<u8>, payload: Seq<u8>)
    ensures
        contents_after_write(existing, OpenMode::Append, payload).len() == existing.len()
            + payload.len(),
        forall|i: int| 0 <= i < existing.len() ==> contents_after_write(
            existing,
            OpenMode::Append,
            payload,
        )[i] == existing[i],
        forall|i: int| 0 <= i < payload.len() ==> contents_after_write(
            existing,
            OpenMode::Append,
            payload,
        )[existing.len() + i] == payload[i],
{
}

} // verus!
