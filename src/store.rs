//! The blob store: each section is a run of zlib chunks that decompress to
//! the data of its components, each found at its offset and size.
use std::io::Read;
use vstd::prelude::*;
use vstd::utf8::{decode_utf8, valid_utf8};

use crate::bytes::push_range;
use crate::error::ConvertError;
use crate::strings::{try_clean_string, until_nul};
use crate::toc::{ComponentHeader, ComponentKind, MemoryEntry, Section};

verus! {

/// What a zlib stream decompresses to, or `None` when it is not a valid one.
pub uninterp spec fn zlib_decoded(chunk: Seq<u8>) -> Option<Seq<u8>>;

/// Relies on flate2's `ZlibDecoder` read to the end: the bytes that the zlib
/// stream `chunk` decompresses to, or none when decoding fails. The outcome
/// depends on the bytes of `chunk` alone.
#[verifier::external_body]
fn inflate(chunk: &[u8]) -> (r: Option<Vec<u8>>)
    ensures
        r is Some <==> zlib_decoded(chunk@) is Some,
        r matches Some(v) ==> zlib_decoded(chunk@) == Some(v@),
{
    let mut out = Vec::new();
    match flate2::read::ZlibDecoder::new(chunk).read_to_end(&mut out) {
        Ok(_) => Some(out),
        Err(_) => None,
    }
}

/// The chunks decompressed and joined in order, or `None` when one of them
/// does not decompress.
pub open spec fn inflated_all(chunks: Seq<Vec<u8>>) -> Option<Seq<u8>>
    decreases chunks.len(),
{
    if chunks.len() == 0 {
        Some(seq![])
    } else {
        match (inflated_all(chunks.drop_last()), zlib_decoded(chunks.last()@)) {
            (Some(a), Some(b)) => Some(a + b),
            _ => None,
        }
    }
}

/// Decompresses the zlib chunks of a section and joins them in order.
pub fn decode_zlib_data(chunks: &Vec<Vec<u8>>) -> (r: Option<Vec<u8>>)
    ensures
        r is Some <==> inflated_all(chunks@) is Some,
        r matches Some(v) ==> inflated_all(chunks@) == Some(v@),
{
    let mut whole: Vec<u8> = Vec::new();
    let mut i: usize = 0;
    while i < chunks.len()
        invariant
            i <= chunks@.len(),
            inflated_all(chunks@.subrange(0, i as int)) == Some(whole@),
        decreases chunks@.len() - i,
    {
        assert(chunks@.subrange(0, i + 1).drop_last() =~= chunks@.subrange(0, i as int));
        match inflate(chunks[i].as_slice()) {
            Some(part) => {
                push_range(&mut whole, part.as_slice(), 0, part.len());
                assert(part@.subrange(0, part@.len() as int) =~= part@);
            },
            None => {
                proof {
                    lemma_inflated_prefix(chunks@, i + 1);
                }
                return None;
            },
        }
        i = i + 1;
    }
    assert(chunks@.subrange(0, chunks@.len() as int) =~= chunks@);
    Some(whole)
}

proof fn lemma_inflated_prefix(chunks: Seq<Vec<u8>>, i: int)
    requires
        0 <= i <= chunks.len(),
        inflated_all(chunks.subrange(0, i)) is None,
    ensures
        inflated_all(chunks) is None,
    decreases chunks.len(),
{
    if i < chunks.len() {
        assert(chunks.drop_last().subrange(0, i) =~= chunks.subrange(0, i));
        lemma_inflated_prefix(chunks.drop_last(), i);
    } else {
        assert(chunks.subrange(0, i) =~= chunks);
    }
}

/// A component's data, cut out of its section's decompressed data.
#[derive(Clone, Debug)]
pub struct ComponentData {
    pub id: u32,
    pub path: String,
    pub instance_id: u32,
    pub kind: ComponentKind,
    pub data: Vec<u8>,
}

/// The components of a section, uncached ones and cached ones.
#[derive(Clone, Debug)]
pub struct SectionData {
    pub uncached: Vec<ComponentData>,
    pub cached: Vec<ComponentData>,
}

/// The entry lies inside data of `len` bytes.
pub open spec fn entry_fits(e: MemoryEntry, len: nat) -> bool {
    0 <= e.offset && 0 <= e.size && e.offset + e.size <= len
}

/// The component data that header `h` describes within `data`.
pub open spec fn component_of(h: ComponentHeader, data: Seq<u8>, c: ComponentData) -> bool {
    &&& c.id == h.component_id as u32
    &&& c.instance_id == h.instance_id as u32
    &&& c.kind == h.kind
    &&& c.path@ == decode_utf8(until_nul(h.path@))
    &&& c.data@ == data.subrange(
        h.memory_entry.offset as int,
        h.memory_entry.offset + h.memory_entry.size,
    )
}

/// Cuts each component out of its section's decompressed data.
///
/// Fails with `BufferExhaustion` when an entry does not lie inside `data`,
/// and else with `Format` when a path is not UTF-8.
pub fn extract_components(headers: &[ComponentHeader], data: &Vec<u8>) -> (r: Result<
    Vec<ComponentData>,
    ConvertError,
>)
    ensures
        r matches Err(ConvertError::BufferExhaustion) <==> exists|k: int|
            0 <= k < headers@.len() && !entry_fits(
                #[trigger] headers@[k].memory_entry,
                data@.len(),
            ),
        r matches Err(ConvertError::Format) <==> (forall|k: int|
            0 <= k < headers@.len() ==> entry_fits(
                #[trigger] headers@[k].memory_entry,
                data@.len(),
            )) && exists|k: int|
            0 <= k < headers@.len() && !valid_utf8(until_nul(#[trigger] headers@[k].path@)),
        r matches Err(e) ==> e != ConvertError::LeafVertexOutOfRange,
        r is Ok <==> extract_succeeds(headers@, data@),
        r matches Ok(cs) ==> cs@.len() == headers@.len() && forall|k: int|
            0 <= k < cs@.len() ==> component_of(headers@[k], data@, #[trigger] cs@[k]),
{
    let len = data.len();
    let mut i: usize = 0;
    while i < headers.len()
        invariant
            i <= headers@.len(),
            len == data@.len(),
            forall|k: int| 0 <= k < i ==> entry_fits(#[trigger] headers@[k].memory_entry, data@.len()),
        decreases headers@.len() - i,
    {
        let e = headers[i].memory_entry;
        if e.offset < 0 || e.size < 0 || e.offset as u64 + e.size as u64 > len as u64 {
            return Err(ConvertError::BufferExhaustion);
        }
        i = i + 1;
    }
    let mut components: Vec<ComponentData> = Vec::new();
    let mut i: usize = 0;
    while i < headers.len()
        invariant
            i <= headers@.len(),
            len == data@.len(),
            forall|k: int| 0 <= k < headers@.len() ==> entry_fits(#[trigger] headers@[k].memory_entry, data@.len()),
            components@.len() == i,
            forall|k: int| 0 <= k < i ==> component_of(headers@[k], data@, #[trigger] components@[k]),
            forall|k: int| 0 <= k < i ==> valid_utf8(until_nul(#[trigger] headers@[k].path@)),
        decreases headers@.len() - i,
    {
        let h = &headers[i];
        let path = match try_clean_string(h.path.as_slice()) {
            Some(p) => p,
            None => {
                return Err(ConvertError::Format);
            },
        };
        let start = h.memory_entry.offset as usize;
        let end = start + h.memory_entry.size as usize;
        let mut bytes: Vec<u8> = Vec::new();
        push_range(&mut bytes, data.as_slice(), start, end);
        components.push(
            ComponentData {
                id: #[verifier::truncate] (h.component_id as u32),
                path,
                instance_id: #[verifier::truncate] (h.instance_id as u32),
                kind: h.kind,
                data: bytes,
            },
        );
        i = i + 1;
    }
    Ok(components)
}

impl SectionData {
    /// The components of `section`, cut out of its two decompressed data blocks.
    pub fn from_section(section: &Section, uncached_data: &Vec<u8>, cached_data: &Vec<u8>) -> (r:
        Result<SectionData, ConvertError>)
        ensures
            r matches Ok(d) ==> d.uncached@.len() == section.uncached_components@.len()
                && d.cached@.len() == section.cached_components@.len() && (forall|k: int|
                0 <= k < d.uncached@.len() ==> component_of(
                    section.uncached_components@[k],
                    uncached_data@,
                    #[trigger] d.uncached@[k],
                )) && (forall|k: int|
                0 <= k < d.cached@.len() ==> component_of(
                    section.cached_components@[k],
                    cached_data@,
                    #[trigger] d.cached@[k],
                )),
            r is Ok <==> extract_succeeds(section.uncached_components@, uncached_data@)
                && extract_succeeds(section.cached_components@, cached_data@),
            r matches Err(e) ==> e != ConvertError::LeafVertexOutOfRange,
    {
        let uncached = match extract_components(section.uncached_components.as_slice(), uncached_data) {
            Ok(cs) => cs,
            Err(e) => {
                return Err(e);
            },
        };
        let cached = match extract_components(section.cached_components.as_slice(), cached_data) {
            Ok(cs) => cs,
            Err(e) => {
                return Err(e);
            },
        };
        Ok(SectionData { uncached, cached })
    }
}

/// Every entry lies inside `data`, and every path is UTF-8.
pub open spec fn extract_succeeds(headers: Seq<ComponentHeader>, data: Seq<u8>) -> bool {
    &&& forall|k: int| 0 <= k < headers.len() ==> entry_fits(#[trigger] headers[k].memory_entry, data.len())
    &&& forall|k: int| 0 <= k < headers.len() ==> valid_utf8(until_nul(#[trigger] headers[k].path@))
}

} // verus!
