//! The registry store: an append-only list of text identifiers.
//!
//! Callers hand identifiers in as raw bytes and read them back into buffers
//! they own. Every operation reports its outcome through an integer status:
//! a non-negative value on success, a distinct negative code for each kind of
//! failure. A failed operation leaves the store as it was.

use vstd::prelude::*;
use vstd::string::StringSliceAdditionalSpecFns;
use vstd::utf8::{encode_utf8, valid_utf8};

verus! {

/// Version of the calling interface, for detecting incompatible revisions.
pub const INTERFACE_VERSION: u32 = 1;

/// Fixed value returned by the liveness probe.
pub const PING_MAGIC: u32 = 0xF00D_BABE;

/// Status of a call whose input or output buffer is empty.
pub const ERR_INVALID_ARGUMENT: i32 = -1;

/// Status of a submission whose bytes are not well-formed UTF-8.
pub const ERR_INVALID_ENCODING: i32 = -2;

/// Status of a read at an index that holds no entry.
pub const ERR_NOT_FOUND: i32 = -2;

/// Status of a read whose buffer is shorter than the entry.
pub const ERR_BUFFER_TOO_SMALL: i32 = -3;

/// Whether `cid` is accepted into the store: non-empty, well-formed UTF-8.
pub open spec fn is_acceptable(cid: Seq<u8>) -> bool {
    cid.len() > 0 && valid_utf8(cid)
}

/// Status returned when `cid` is submitted to a store holding `entries`.
pub open spec fn submit_status(entries: Seq<Seq<u8>>, cid: Seq<u8>) -> i32 {
    if cid.len() == 0 {
        ERR_INVALID_ARGUMENT
    } else if !valid_utf8(cid) {
        ERR_INVALID_ENCODING
    } else {
        entries.len() as i32
    }
}

/// Contents of a store holding `entries` after `cid` is submitted to it.
pub open spec fn after_submit(entries: Seq<Seq<u8>>, cid: Seq<u8>) -> Seq<Seq<u8>> {
    if is_acceptable(cid) {
        entries.push(cid)
    } else {
        entries
    }
}

/// Contents of a store holding `entries` after each of `cids` is submitted, in order.
pub open spec fn after_submissions(entries: Seq<Seq<u8>>, cids: Seq<Seq<u8>>) -> Seq<Seq<u8>>
    decreases cids.len(),
{
    if cids.len() == 0 {
        entries
    } else {
        after_submit(after_submissions(entries, cids.drop_last()), cids.last())
    }
}

/// Whether a read of entry `index` into a buffer of `capacity` bytes succeeds.
pub open spec fn read_succeeds(entries: Seq<Seq<u8>>, index: u32, capacity: int) -> bool {
    capacity > 0 && index < entries.len() && entries[index as int].len() <= capacity
}

/// Status returned by a read of entry `index` into a buffer of `capacity` bytes.
pub open spec fn read_status(entries: Seq<Seq<u8>>, index: u32, capacity: int) -> i32 {
    if capacity <= 0 {
        ERR_INVALID_ARGUMENT
    } else if index >= entries.len() {
        ERR_NOT_FOUND
    } else if entries[index as int].len() > capacity {
        ERR_BUFFER_TOO_SMALL
    } else {
        entries[index as int].len() as i32
    }
}

/// The buffer `buf` after a read of entry `index`: on success the entry's
/// bytes followed by the untouched rest of the buffer, otherwise unchanged.
pub open spec fn after_read(entries: Seq<Seq<u8>>, index: u32, buf: Seq<u8>) -> Seq<u8> {
    if read_succeeds(entries, index, buf.len() as int) {
        let e = entries[index as int];
        e + buf.subrange(e.len() as int, buf.len() as int)
    } else {
        buf
    }
}

/// Relies on `std::str::from_utf8`: it succeeds exactly when the bytes are
/// well-formed UTF-8, and the text it returns is made of those same bytes.
#[verifier::external_body]
fn text_of_bytes(bytes: &[u8]) -> (r: Option<&str>)
    ensures
        r is Some <==> valid_utf8(bytes@),
        r matches Some(s) ==> s.spec_bytes() == bytes@,
{
    match std::str::from_utf8(bytes) {
        Ok(s) => Some(s),
        Err(_) => None,
    }
}

/// The store of submitted identifiers, in order of submission.
pub struct MemoryRegistry {
    entries: Vec<String>,
}

impl View for MemoryRegistry {
    type V = Seq<Seq<u8>>;

    /// The UTF-8 bytes of each stored entry, by index.
    closed spec fn view(&self) -> Seq<Seq<u8>> {
        self.entries@.map_values(|s: String| encode_utf8(s@))
    }
}

impl MemoryRegistry {
    /// Every index and every entry length can be reported as an `i32` status.
    pub open spec fn wf(&self) -> bool {
        &&& self@.len() <= i32::MAX
        &&& forall|i: int| 0 <= i < self@.len() ==> #[trigger] self@[i].len() <= i32::MAX
    }

    /// An empty store.
    pub fn new() -> (r: MemoryRegistry)
        ensures
            r.wf(),
            r@ == Seq::<Seq<u8>>::empty(),
    {
        let r = MemoryRegistry { entries: Vec::new() };
        assert(r@ =~= Seq::<Seq<u8>>::empty());
        r
    }
}

/// Copies entry `index` into the front of `out` and returns its length in
/// bytes. Fails with `ERR_INVALID_ARGUMENT` when `out` is empty, with
/// `ERR_NOT_FOUND` when no entry has that index, and with
/// `ERR_BUFFER_TOO_SMALL` when the entry is longer than `out`; a failed read
/// writes nothing.
pub fn get_memory_by_index(registry: &MemoryRegistry, index: u32, out: &mut [u8]) -> (r: i32)
    requires
        registry.wf(),
    ensures
        r == read_status(registry@, index, old(out)@.len() as int),
        final(out)@ == after_read(registry@, index, old(out)@),
{
    let capacity = out.len();
    if capacity == 0 {
        return ERR_INVALID_ARGUMENT;
    }
    let idx = index as usize;
    if idx >= registry.entries.len() {
        return ERR_NOT_FOUND;
    }
    let bytes = registry.entries[idx].as_str().as_bytes();
    proof {
        assert(bytes@ == registry@[idx as int]);
    }
    let n = bytes.len();
    if n > capacity {
        return ERR_BUFFER_TOO_SMALL;
    }
    let ghost original = out@;
    let mut i: usize = 0;
    while i < n
        invariant
            i <= n,
            n == bytes@.len(),
            n <= capacity,
            out@.len() == capacity,
            original.len() == capacity,
            forall|j: int| 0 <= j < i ==> out@[j] == bytes@[j],
            forall|j: int| i <= j < capacity ==> out@[j] == original[j],
        decreases n - i,
    {
        out[i] = bytes[i];
        i += 1;
    }
    assert(out@ =~= bytes@ + original.subrange(n as int, capacity as int));
    n as i32
}

/// Appends `cid` to the store and returns its index. Fails with
/// `ERR_INVALID_ARGUMENT` when `cid` is empty and with `ERR_INVALID_ENCODING`
/// when it is not well-formed UTF-8; a failed submission changes nothing.
pub fn submit_memory(registry: &mut MemoryRegistry, cid: &[u8]) -> (r: i32)
    requires
        old(registry).wf(),
        old(registry)@.len() < i32::MAX,
        cid@.len() <= i32::MAX,
    ensures
        final(registry).wf(),
        r == submit_status(old(registry)@, cid@),
        final(registry)@ == after_submit(old(registry)@, cid@),
{
    if cid.len() == 0 {
        return ERR_INVALID_ARGUMENT;
    }
    let text = match text_of_bytes(cid) {
        Some(s) => s,
        None => return ERR_INVALID_ENCODING,
    };
    let ghost before = registry@;
    let index = registry.entries.len();
    registry.entries.push(text.to_owned());
    assert(registry@ =~= before.push(cid@));
    index as i32
}

/// Returns the number of stored entries.
pub fn get_memory_count(registry: &MemoryRegistry) -> (r: u32)
    requires
        registry.wf(),
    ensures
        r == registry@.len(),
{
    registry.entries.len() as u32
}

/// Returns the version of the calling interface.
pub fn memory_registry_version() -> (r: u32)
    ensures
        r == INTERFACE_VERSION,
{
    INTERFACE_VERSION
}

/// Returns the fixed liveness value; touches no state.
pub fn wasm_test_ping() -> (r: u32)
    ensures
        r == PING_MAGIC,
{
    PING_MAGIC
}

} // verus!
