//! Random access to a serialized MAST forest without deserializing it, and the reading paths
//! built on the same scan.

use vstd::prelude::*;
use crate::bytes::{DeserializationError, InvalidValue};
use crate::field::Word;
use crate::info::{MastNodeEntry, MastNodeInfo};
use crate::layout::{
    ForestLayout, WireFlags, digest_slot, external_before, layout_valid,
    read_header_and_scan_layout,
    spec_entry_at, spec_root_at, spec_scan_layout,
};
use crate::node::{MastNodeBuilder, MastNodeId};
use crate::resolved::{
    HashlessInputs, ResolvedSerializedForest, spec_builders, spec_node_digest, spec_resolve,
    spec_roots,
};

verus! {

/// A zero-copy view over a serialized MAST forest, with random access to node entries, digests
/// and procedure roots.
pub struct SerializedMastForest<'a> {
    flags: WireFlags,
    forest: ResolvedSerializedForest<'a>,
}

impl<'a> SerializedMastForest<'a> {
    /// The flags byte of the input.
    pub closed spec fn spec_flags(&self) -> u8 {
        self.flags.spec_bits()
    }

    /// The serialized bytes.
    pub closed spec fn spec_bytes(&self) -> Seq<u8> {
        self.forest.spec_bytes()
    }

    /// Where the sections of the bytes lie.
    pub closed spec fn spec_layout(&self) -> ForestLayout {
        self.forest.spec_layout()
    }

    /// The rebuilt digests of a HASHLESS input.
    pub closed spec fn spec_table(&self) -> Option<Seq<Word>> {
        self.forest.spec_table()
    }

    /// The view was built by [`SerializedMastForest::new`].
    pub closed spec fn wf(&self) -> bool {
        self.forest.wf()
    }

    /// Creates a view of serialized bytes in the full, stripped or HASHLESS format.
    ///
    /// Only the header and the sections that random access needs are checked; the advice map
    /// and the debug info are not read. Digests of HASHLESS input are rebuilt here, from
    /// `inputs`; other inputs leave `inputs` unused.
    pub fn new(bytes: &'a [u8], inputs: &HashlessInputs) -> (r: Result<Self, DeserializationError>)
        ensures
            match spec_scan_layout(bytes@, true) {
                Err(e) => r is Err && r->Err_0 == e,
                Ok((flags, layout)) => match spec_resolve(bytes@, layout, *inputs) {
                    Err(e) => r is Err && r->Err_0 == e,
                    Ok(t) => {
                        &&& r is Ok
                        &&& r->Ok_0.wf()
                        &&& r->Ok_0.spec_flags() == flags
                        &&& r->Ok_0.spec_bytes() == bytes@
                        &&& r->Ok_0.spec_layout() == layout
                        &&& r->Ok_0.spec_table() == t
                    },
                },
            },
    {
        let (flags, layout) = read_header_and_scan_layout(bytes, true)?;
        let forest = ResolvedSerializedForest::new(bytes, layout, inputs, Ghost(flags.spec_bits()))?;
        Ok(SerializedMastForest { flags, forest })
    }

    /// Returns the number of nodes in the serialized forest.
    pub fn node_count(&self) -> (r: usize)
        ensures
            r == self.spec_layout().node_count,
    {
        self.forest.node_count()
    }

    /// Returns `true` when the input is HASHLESS and its digests were rebuilt.
    pub fn is_hashless(&self) -> (r: bool)
        ensures
            r == ((self.spec_flags() / 2) % 2 == 1),
    {
        self.flags.is_hashless()
    }

    /// Returns `true` when the input leaves out the debug info.
    pub fn is_stripped(&self) -> (r: bool)
        ensures
            r == (self.spec_flags() % 2 == 1),
    {
        self.flags.is_stripped()
    }

    /// Returns the number of procedure roots.
    pub fn procedure_root_count(&self) -> (r: usize)
        ensures
            r == self.spec_layout().roots_count,
    {
        self.forest.procedure_root_count()
    }

    /// Returns the procedure root at `index`.
    pub fn procedure_root_at(&self, index: usize) -> (r: Result<MastNodeId, DeserializationError>)
        requires
            self.wf(),
        ensures
            r == spec_root_at(self.spec_bytes(), self.spec_layout(), index as int),
    {
        self.forest.procedure_root_at(index)
    }

    /// Returns the entry and digest of node `index`.
    pub fn node_info_at(&self, index: usize) -> (r: Result<MastNodeInfo, DeserializationError>)
        requires
            self.wf(),
        ensures
            match spec_entry_at(self.spec_bytes(), self.spec_layout(), index as int) {
                Err(e) => r is Err && r->Err_0 == e,
                Ok(t) => match spec_node_digest(
                    self.spec_bytes(),
                    self.spec_layout(),
                    self.spec_table(),
                    index as int,
                ) {
                    Err(e) => r is Err && r->Err_0 == e,
                    Ok(d) => r is Ok && r->Ok_0.spec_entry().spec_node_type() == t
                        && r->Ok_0.spec_digest() == d,
                },
            },
    {
        Ok(MastNodeInfo::from_entry(self.node_entry_at(index)?, self.node_digest_at(index)?))
    }

    /// Returns the entry of node `index`.
    pub fn node_entry_at(&self, index: usize) -> (r: Result<MastNodeEntry, DeserializationError>)
        requires
            self.wf(),
        ensures
            match spec_entry_at(self.spec_bytes(), self.spec_layout(), index as int) {
                Ok(t) => r is Ok && r->Ok_0.spec_node_type() == t,
                Err(e) => r == Err::<MastNodeEntry, DeserializationError>(e),
            },
    {
        self.forest.node_entry_at(index)
    }

    /// Returns the digest of node `index`.
    pub fn node_digest_at(&self, index: usize) -> (r: Result<Word, DeserializationError>)
        requires
            self.wf(),
        ensures
            r == spec_node_digest(
                self.spec_bytes(),
                self.spec_layout(),
                self.spec_table(),
                index as int,
            ),
    {
        self.forest.node_digest_at(index)
    }

    /// Offset of the advice map: the end of the digest sections.
    pub fn advice_map_offset(&self) -> (r: usize)
        ensures
            r == self.spec_layout().advice_map_offset,
    {
        self.forest.layout().advice_map_offset
    }

    /// Offset of the node entries.
    pub fn node_entry_offset(&self) -> (r: usize)
        ensures
            r == self.spec_layout().node_entry_offset,
    {
        self.forest.layout().node_entry_offset
    }

    /// Size of a node entry.
    pub fn node_entry_size(&self) -> (r: usize)
        ensures
            r == 8,
    {
        MastNodeEntry::min_serialized_size()
    }

    /// Offset of the node-hash section, absent for HASHLESS input.
    pub fn node_hash_offset(&self) -> (r: Option<usize>)
        ensures
            r == self.spec_layout().node_hash_offset,
    {
        self.forest.layout().node_hash_offset
    }

    /// The slot of node `index` in its digest section.
    pub fn digest_slot_at(&self, index: usize) -> (r: usize)
        requires
            self.wf(),
            index < self.spec_layout().node_count,
        ensures
            r == digest_slot(self.spec_bytes(), self.spec_layout(), index as int),
    {
        self.forest.digest_slot_at(index)
    }
}

// READING PATHS
// ================================================================================================

/// What untrusted reading reports of input that carries more than it needs.
#[derive(Debug, Clone, Copy, PartialEq, Eq, Structural)]
pub enum UntrustedWarning {
    /// The input is not HASHLESS: its wire node hashes are ignored and recomputed.
    NodeHashesIgnored,
    /// The input is not STRIPPED: it carries the debug info and other optional payloads.
    DebugInfoIncluded,
}

/// The warnings to log for untrusted input with these flags, in order.
pub fn log_untrusted_overspecification(flags: &WireFlags) -> (r: Vec<UntrustedWarning>)
    ensures
        r@ == (if flags.spec_is_hashless() {
            Seq::empty()
        } else {
            seq![UntrustedWarning::NodeHashesIgnored]
        }) + (if flags.spec_is_stripped() {
            Seq::empty()
        } else {
            seq![UntrustedWarning::DebugInfoIncluded]
        }),
{
    let mut warnings: Vec<UntrustedWarning> = Vec::new();
    if !flags.is_hashless() {
        warnings.push(UntrustedWarning::NodeHashesIgnored);
    }
    if !flags.is_stripped() {
        warnings.push(UntrustedWarning::DebugInfoIncluded);
    }
    assert(warnings@ =~= (if flags.spec_is_hashless() {
        Seq::empty()
    } else {
        seq![UntrustedWarning::NodeHashesIgnored]
    }) + (if flags.spec_is_stripped() {
        Seq::empty()
    } else {
        seq![UntrustedWarning::DebugInfoIncluded]
    }));
    warnings
}

/// A serialized forest read from untrusted input: its bytes and layout, checked but not yet
/// materialized. The advice map and the debug info stay in the bytes from the advice map offset
/// on.
pub struct UntrustedMastForest {
    bytes: Vec<u8>,
    layout: ForestLayout,
    flags: WireFlags,
}

impl UntrustedMastForest {
    /// The bytes read.
    pub closed spec fn spec_bytes(&self) -> Seq<u8> {
        self.bytes@
    }

    /// Where their sections lie.
    pub closed spec fn spec_layout(&self) -> ForestLayout {
        self.layout
    }

    /// The layout is valid for the bytes.
    pub closed spec fn wf(&self) -> bool {
        layout_valid(self.bytes@, self.flags.spec_bits(), self.layout)
    }

    /// Resolves the digests and turns every node into a node builder, and reads the roots.
    pub fn into_materialized(&self, inputs: &HashlessInputs) -> (r: Result<
        (Vec<MastNodeBuilder>, Vec<MastNodeId>),
        DeserializationError,
    >)
        requires
            self.wf(),
        ensures
            match spec_resolve(self.spec_bytes(), self.spec_layout(), *inputs) {
                Err(e) => r == Err::<(Vec<MastNodeBuilder>, Vec<MastNodeId>), DeserializationError>(
                    e,
                ),
                Ok(t) => match spec_builders(
                    self.spec_bytes(),
                    self.spec_layout(),
                    t,
                    self.spec_layout().node_count as int,
                ) {
                    Err(e) => r == Err::<
                        (Vec<MastNodeBuilder>, Vec<MastNodeId>),
                        DeserializationError,
                    >(e),
                    Ok(bs) => match spec_roots(
                        self.spec_bytes(),
                        self.spec_layout(),
                        self.spec_layout().roots_count as int,
                    ) {
                        Err(e) => r == Err::<
                            (Vec<MastNodeBuilder>, Vec<MastNodeId>),
                            DeserializationError,
                        >(e),
                        Ok(rs) => r is Ok && r->Ok_0.0@ == bs && r->Ok_0.1@ == rs,
                    },
                },
            },
    {
        let forest = ResolvedSerializedForest::new(
            self.bytes.as_slice(),
            self.layout,
            inputs,
            Ghost(self.flags.spec_bits()),
        )?;
        forest.materialize()
    }
}

/// Checks the header and scans the layout of a serialized forest, keeping a copy of the bytes.
pub fn decode_from_reader(bytes: &[u8], allow_hashless: bool) -> (r: Result<
    (WireFlags, UntrustedMastForest),
    DeserializationError,
>)
    ensures
        match spec_scan_layout(bytes@, allow_hashless) {
            Err(e) => r is Err && r->Err_0 == e,
            Ok((flags, layout)) => {
                &&& r is Ok
                &&& r->Ok_0.0.spec_bits() == flags
                &&& r->Ok_0.1.wf()
                &&& r->Ok_0.1.spec_bytes() == bytes@
                &&& r->Ok_0.1.spec_layout() == layout
            },
        },
{
    let (flags, layout) = read_header_and_scan_layout(bytes, allow_hashless)?;
    let recorded = vstd::slice::slice_to_vec(bytes);
    Ok((flags, UntrustedMastForest { bytes: recorded, layout, flags }))
}

/// Reads untrusted input: HASHLESS input is accepted, and the flags byte is returned together
/// with the warnings to log for input that carries more than it needs.
pub fn read_untrusted_with_flags(bytes: &[u8]) -> (r: Result<
    (UntrustedMastForest, u8, Vec<UntrustedWarning>),
    DeserializationError,
>)
    ensures
        match spec_scan_layout(bytes@, true) {
            Err(e) => r is Err && r->Err_0 == e,
            Ok((flags, layout)) => {
                &&& r is Ok
                &&& r->Ok_0.0.wf()
                &&& r->Ok_0.0.spec_bytes() == bytes@
                &&& r->Ok_0.0.spec_layout() == layout
                &&& r->Ok_0.1 == flags
                &&& r->Ok_0.2@ == (if (flags / 2) % 2 == 1 {
                    Seq::empty()
                } else {
                    seq![UntrustedWarning::NodeHashesIgnored]
                }) + (if flags % 2 == 1 {
                    Seq::empty()
                } else {
                    seq![UntrustedWarning::DebugInfoIncluded]
                })
            },
        },
{
    let (flags, forest) = decode_from_reader(bytes, true)?;
    let warnings = log_untrusted_overspecification(&flags);
    Ok((forest, flags.bits(), warnings))
}

/// The bytes of `s` from `off` on: the advice map and the debug info that follow the digest
/// sections.
pub open spec fn trailing_bytes(s: Seq<u8>, off: int) -> Seq<u8> {
    if 0 <= off <= s.len() {
        s.subrange(off, s.len() as int)
    } else {
        Seq::empty()
    }
}

/// Copies the bytes of `bytes` from `off` on.
fn trailing_bytes_of(bytes: &[u8], off: usize) -> (r: Vec<u8>)
    ensures
        r@ == trailing_bytes(bytes@, off as int),
{
    let mut r: Vec<u8> = Vec::new();
    if off <= bytes.len() {
        let mut i: usize = off;
        while i < bytes.len()
            invariant
                off <= i <= bytes@.len(),
                r@ == bytes@.subrange(off as int, i as int),
            decreases bytes@.len() - i,
        {
            assert(bytes@.subrange(off as int, i + 1) =~= bytes@.subrange(off as int, i as int).push(
                bytes@[i as int],
            ));
            r.push(bytes[i]);
            i = i + 1;
        }
    }
    r
}

/// Reads trusted input into node builders and roots, and hands back the bytes that follow the
/// digest sections (the advice map, then the debug info unless the input is stripped): HASHLESS
/// input is rejected, so every digest comes from the wire.
pub fn read_trusted_forest(bytes: &[u8]) -> (r: Result<
    (Vec<MastNodeBuilder>, Vec<MastNodeId>, Vec<u8>),
    DeserializationError,
>)
    ensures
        match spec_scan_layout(bytes@, false) {
            Err(e) => r is Err && r->Err_0 == e,
            Ok((flags, layout)) => {
                let n = layout.node_count as int;
                let ext = external_before(bytes@, layout, n);
                if !(ext <= u32::MAX && n - ext <= u32::MAX) {
                    r is Err && r->Err_0 == DeserializationError::InvalidValue(
                        InvalidValue::SlotOverflow,
                    )
                } else {
                    match spec_builders(bytes@, layout, None, n) {
                        Err(e) => r is Err && r->Err_0 == e,
                        Ok(bs) => match spec_roots(bytes@, layout, layout.roots_count as int) {
                            Err(e) => r is Err && r->Err_0 == e,
                            Ok(rs) => {
                                &&& r is Ok
                                &&& r->Ok_0.0@ == bs
                                &&& r->Ok_0.1@ == rs
                                &&& r->Ok_0.2@ == trailing_bytes(
                                    bytes@,
                                    layout.advice_map_offset as int,
                                )
                            },
                        },
                    }
                }
            },
        },
{
    let (_flags, forest) = decode_from_reader(bytes, false)?;
    let trailing = trailing_bytes_of(bytes, forest.layout.advice_map_offset);
    let inputs = HashlessInputs {
        join_domain: 0,
        split_domain: 0,
        loop_domain: 0,
        call_domain: 0,
        syscall_domain: 0,
        dyn_digest: crate::field::zero_word(),
        dyncall_digest: crate::field::zero_word(),
        block_op_groups: Vec::new(),
    };
    let (builders, roots) = forest.into_materialized(&inputs)?;
    Ok((builders, roots, trailing))
}

} // verus!
