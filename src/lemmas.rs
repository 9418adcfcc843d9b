//! Laws of the registry store, stated over the spec functions that the
//! contracts of `submit_memory` and `get_memory_by_index` use.

use vstd::prelude::*;
use vstd::utf8::valid_utf8;

use crate::registry::{
    after_read, after_submissions, after_submit, is_acceptable, read_status, read_succeeds,
    submit_status, ERR_BUFFER_TOO_SMALL, ERR_INVALID_ARGUMENT, ERR_INVALID_ENCODING,
    ERR_NOT_FOUND,
};

verus! {

/// Reading back the index that an accepted submission returned, into a buffer
/// that can hold it, reports the submitted length and writes exactly the
/// submitted bytes.
pub proof fn lemma_submit_then_read(entries: Seq<Seq<u8>>, cid: Seq<u8>, buf: Seq<u8>)
    requires
        entries.len() < i32::MAX,
        cid.len() <= i32::MAX,
        is_acceptable(cid),
        buf.len() >= cid.len(),
    ensures
        ({
            let index = submit_status(entries, cid);
            let stored = after_submit(entries, cid);
            &&& index >= 0
            &&& read_status(stored, index as u32, buf.len() as int) == cid.len()
            &&& after_read(stored, index as u32, buf).subrange(0, cid.len() as int) == cid
        }),
{
    let index = submit_status(entries, cid);
    let stored = after_submit(entries, cid);
    assert(stored[index as u32 as int] == cid);
    let out = after_read(stored, index as u32, buf);
    assert(out.subrange(0, cid.len() as int) =~= cid);
}

/// A run of accepted submissions grows the store by exactly one entry each.
pub proof fn lemma_count_after_submissions(entries: Seq<Seq<u8>>, cids: Seq<Seq<u8>>)
    requires
        forall|i: int| 0 <= i < cids.len() ==> is_acceptable(#[trigger] cids[i]),
    ensures
        after_submissions(entries, cids).len() == entries.len() + cids.len(),
    decreases cids.len(),
{
    if cids.len() > 0 {
        let prefix = cids.drop_last();
        assert forall|i: int| 0 <= i < prefix.len() implies is_acceptable(#[trigger] prefix[i]) by {
            assert(prefix[i] == cids[i]);
        }
        lemma_count_after_submissions(entries, prefix);
        assert(is_acceptable(cids[cids.len() - 1]));
    }
}

/// A submission never moves, changes or drops an entry already stored.
pub proof fn lemma_submit_keeps_entries(entries: Seq<Seq<u8>>, cid: Seq<u8>, i: int)
    requires
        0 <= i < entries.len(),
    ensures
        after_submit(entries, cid)[i] == entries[i],
        after_submit(entries, cid).len() >= entries.len(),
{
}

/// A submission that reports a failure leaves the store unchanged.
pub proof fn lemma_failed_submit_unchanged(entries: Seq<Seq<u8>>, cid: Seq<u8>)
    requires
        entries.len() <= i32::MAX,
        submit_status(entries, cid) < 0,
    ensures
        after_submit(entries, cid) == entries,
{
}

/// Submitting empty input reports an invalid argument and changes nothing.
pub proof fn lemma_empty_submit_rejected(entries: Seq<Seq<u8>>)
    ensures
        submit_status(entries, Seq::empty()) == ERR_INVALID_ARGUMENT,
        after_submit(entries, Seq::empty()) == entries,
{
}

/// Submitting bytes that are not well-formed UTF-8 reports an invalid
/// encoding and changes nothing.
pub proof fn lemma_malformed_submit_rejected(entries: Seq<Seq<u8>>, cid: Seq<u8>)
    requires
        !valid_utf8(cid),
    ensures
        submit_status(entries, cid) == ERR_INVALID_ENCODING,
        after_submit(entries, cid) == entries,
{
    assert(cid.len() != 0) by {
        if cid.len() == 0 {
            assert(valid_utf8(cid));
        }
    }
}

/// Reading at an index past the last entry, into any non-empty buffer,
/// reports that nothing was found and writes nothing.
pub proof fn lemma_read_past_end_not_found(entries: Seq<Seq<u8>>, index: u32, buf: Seq<u8>)
    requires
        index >= entries.len(),
        buf.len() > 0,
    ensures
        read_status(entries, index, buf.len() as int) == ERR_NOT_FOUND,
        after_read(entries, index, buf) == buf,
{
}

/// Reading an entry into a non-empty buffer shorter than it reports that the
/// buffer is too small and writes nothing.
pub proof fn lemma_read_short_buffer(entries: Seq<Seq<u8>>, index: u32, buf: Seq<u8>)
    requires
        index < entries.len(),
        0 < buf.len() < entries[index as int].len(),
    ensures
        read_status(entries, index, buf.len() as int) == ERR_BUFFER_TOO_SMALL,
        after_read(entries, index, buf) == buf,
        !read_succeeds(entries, index, buf.len() as int),
{
}

} // verus!
