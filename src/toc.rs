//! The table of contents: the sections of the blob store and the components
//! each one holds.
use vstd::prelude::*;

use crate::bytes::{be_u32, i32_be, i32s_be, lemma_subrange_split, u32_be};
use crate::reader::{list_encoding, list_end, parse_list, take_bytes, take_i32, take_i32s, take_u32, Encoded};

verus! {

/// Where a block lies: a byte offset and a byte count.
#[derive(Clone, Copy, Debug, PartialEq, Eq, Structural)]
pub struct MemoryEntry {
    pub offset: i32,
    pub size: i32,
}

/// The kind of asset a component holds.
#[derive(Clone, Copy, Debug, PartialEq, Eq, Structural)]
pub enum ComponentKind {
    RenderableModel,
    Texture,
    CollisionModel,
    UserData,
    MotionPack,
    CollisionGrid,
}

/// The kind whose value on disk is `code`, if any.
pub open spec fn component_kind_of(code: i32) -> Option<ComponentKind> {
    if code == 0 {
        Some(ComponentKind::RenderableModel)
    } else if code == 1 {
        Some(ComponentKind::Texture)
    } else if code == 2 {
        Some(ComponentKind::CollisionModel)
    } else if code == 3 {
        Some(ComponentKind::UserData)
    } else if code == 4 {
        Some(ComponentKind::MotionPack)
    } else if code == 5 {
        Some(ComponentKind::CollisionGrid)
    } else {
        None
    }
}

impl ComponentKind {
    /// The kind whose value on disk is `code`, if any.
    pub fn from_code(code: i32) -> (r: Option<ComponentKind>)
        ensures
            r == component_kind_of(code),
    {
        if code == 0 {
            Some(ComponentKind::RenderableModel)
        } else if code == 1 {
            Some(ComponentKind::Texture)
        } else if code == 2 {
            Some(ComponentKind::CollisionModel)
        } else if code == 3 {
            Some(ComponentKind::UserData)
        } else if code == 4 {
            Some(ComponentKind::MotionPack)
        } else if code == 5 {
            Some(ComponentKind::CollisionGrid)
        } else {
            None
        }
    }
}

/// A component of a section: its path, identities, place in the section's
/// decompressed data, and kind.
#[derive(Clone, Debug)]
pub struct ComponentHeader {
    pub path: Vec<u8>,
    pub instance_id: i32,
    pub component_id: i32,
    pub memory_entry: MemoryEntry,
    pub kind: ComponentKind,
}

/// The sizes of the compressed chunks of a section, uncached ones first.
#[derive(Clone, Debug)]
pub struct ZlibHeader {
    pub uncached_total_size: i32,
    pub cached_total_size: i32,
    pub uncached_amount: i32,
    pub cached_amount: i32,
    pub uncached_sizes: Vec<i32>,
    pub cached_sizes: Vec<i32>,
}

/// A bounding box, each bound held as its float bits.
#[derive(Clone, Copy, Debug, PartialEq, Eq, Structural)]
pub struct Bounding {
    pub min_x: u32,
    pub max_x: u32,
    pub min_y: u32,
    pub max_y: u32,
    pub min_z: u32,
    pub max_z: u32,
}

#[derive(Clone, Debug)]
pub struct SectionHeader {
    pub name: Vec<u8>,
    pub total_component_count: i32,
    pub uncached_component_count: i32,
    pub cached_component_count: i32,
    pub shared_section_offset: i32,
    pub uncached_page_offset: i32,
    pub cached_page_offset: i32,
    pub link_table: Vec<i32>,
    pub bounding: Bounding,
    pub memory_entry: MemoryEntry,
    pub uncached_data_size: i32,
    pub cached_data_size: i32,
    pub zlib_header: ZlibHeader,
}

/// A section and its components.
#[derive(Clone, Debug)]
pub struct Section {
    pub header: SectionHeader,
    pub uncached_components: Vec<ComponentHeader>,
    pub cached_components: Vec<ComponentHeader>,
}

/// The table of contents.
#[derive(Clone, Debug)]
pub struct Toc {
    pub sections: Vec<Section>,
}

/// The first component with this instance id in `cs`, if any.
pub open spec fn first_instance(cs: Seq<ComponentHeader>, instance_id: u32) -> Option<ComponentHeader>
    decreases cs.len(),
{
    if cs.len() == 0 {
        None
    } else if cs[0].instance_id == instance_id as i32 {
        Some(cs[0])
    } else {
        first_instance(cs.drop_first(), instance_id)
    }
}

/// The section index and component id of the first component with this
/// instance id: sections in order, and in each its uncached components before
/// its cached ones. Section ids count from `base`.
pub open spec fn ids_of_instance(sections: Seq<Section>, instance_id: u32, base: int) -> Option<
    (int, i32),
>
    decreases sections.len(),
{
    if sections.len() == 0 {
        None
    } else {
        match first_instance(sections[0].uncached_components@, instance_id) {
            Some(c) => Some((base, c.component_id)),
            None => match first_instance(sections[0].cached_components@, instance_id) {
                Some(c) => Some((base, c.component_id)),
                None => ids_of_instance(sections.drop_first(), instance_id, base + 1),
            },
        }
    }
}

/// The first component with this instance id in `cs`, if any.
fn find_instance(cs: &Vec<ComponentHeader>, instance_id: u32) -> (r: Option<i32>)
    ensures
        r matches Some(id) ==> first_instance(cs@, instance_id) matches Some(c) && c.component_id
            == id,
        r is None <==> first_instance(cs@, instance_id) is None,
{
    let mut i: usize = 0;
    assert(cs@.subrange(0, cs@.len() as int) =~= cs@);
    while i < cs.len()
        invariant
            i <= cs@.len(),
            first_instance(cs@, instance_id) == first_instance(
                cs@.subrange(i as int, cs@.len() as int),
                instance_id,
            ),
        decreases cs@.len() - i,
    {
        let ghost rest = cs@.subrange(i as int, cs@.len() as int);
        assert(rest.drop_first() =~= cs@.subrange(i + 1, cs@.len() as int));
        if cs[i].instance_id == #[verifier::truncate] (instance_id as i32) {
            return Some(cs[i].component_id);
        }
        i = i + 1;
    }
    None
}

impl Toc {
    /// The section index and component id of the component with this instance
    /// id (the first one: sections in order, uncached components before
    /// cached ones), if any.
    pub fn find_ids(&self, instance_id: u32) -> (r: Option<(u32, u32)>)
        requires
            self.sections@.len() <= u32::MAX,
        ensures
            r is None <==> ids_of_instance(self.sections@, instance_id, 0) is None,
            r matches Some((s, c)) ==> ids_of_instance(self.sections@, instance_id, 0) == Some(
                (s as int, c as i32),
            ),
    {
        let sections = &self.sections;
        let mut i: usize = 0;
        assert(sections@.subrange(0, sections@.len() as int) =~= sections@);
        while i < sections.len()
            invariant
                sections == &self.sections,
                i <= sections@.len(),
                sections@.len() <= u32::MAX,
                ids_of_instance(sections@, instance_id, 0) == ids_of_instance(
                    sections@.subrange(i as int, sections@.len() as int),
                    instance_id,
                    i as int,
                ),
            decreases sections@.len() - i,
        {
            let ghost rest = sections@.subrange(i as int, sections@.len() as int);
            assert(rest.drop_first() =~= sections@.subrange(i + 1, sections@.len() as int));
            assert(rest[0] == sections@[i as int]);
            let uncached = find_instance(&sections[i].uncached_components, instance_id);
            match uncached {
                Some(id) => {
                    let cid: u32 = #[verifier::truncate] (id as u32);
                    assert(((id as u32) as i32) == id) by (bit_vector);
                    let si: u32 = i as u32;
                    assert(si as int == i);
                    return Some((si, cid));
                },
                None => {},
            }
            match find_instance(&sections[i].cached_components, instance_id) {
                Some(id) => {
                    let cid: u32 = #[verifier::truncate] (id as u32);
                    assert(((id as u32) as i32) == id) by (bit_vector);
                    let si: u32 = i as u32;
                    assert(si as int == i);
                    return Some((si, cid));
                },
                None => {},
            }
            i = i + 1;
        }
        None
    }
}

pub open spec fn component_kind_code(k: ComponentKind) -> i32 {
    match k {
        ComponentKind::RenderableModel => 0,
        ComponentKind::Texture => 1,
        ComponentKind::CollisionModel => 2,
        ComponentKind::UserData => 3,
        ComponentKind::MotionPack => 4,
        ComponentKind::CollisionGrid => 5,
    }
}

impl Encoded for ComponentHeader {
    open spec fn encoding(&self) -> Seq<u8> {
        self.path@ + i32_be(self.instance_id) + i32_be(self.component_id) + i32_be(
            self.memory_entry.offset,
        ) + i32_be(self.memory_entry.size) + i32_be(component_kind_code(self.kind))
    }

    /// 280 bytes, the last four a known kind.
    open spec fn end_at(data: Seq<u8>, pos: int, extra: nat) -> Option<int> {
        if pos + 280 <= data.len() && component_kind_of(be_u32(data, pos + 276) as i32) is Some {
            Some(pos + 280)
        } else {
            None
        }
    }

    fn parse_at(data: &[u8], pos: usize, extra: usize) -> (r: Option<(Self, usize)>) {
        let len = data.len();
        if len - pos < 280 {
            return None;
        }
        let ghost s = pos as int;
        assert(data@.subrange(s, s) =~= Seq::<u8>::empty());
        let path = take_bytes(data, pos, 260, Ghost(s));
        let instance_id = take_i32(data, pos + 260, Ghost(s));
        let component_id = take_i32(data, pos + 264, Ghost(s));
        let offset = take_i32(data, pos + 268, Ghost(s));
        let size = take_i32(data, pos + 272, Ghost(s));
        let code = take_i32(data, pos + 276, Ghost(s));
        let kind = match ComponentKind::from_code(code) {
            Some(k) => k,
            None => {
                return None;
            },
        };
        let c = ComponentHeader {
            path,
            instance_id,
            component_id,
            memory_entry: MemoryEntry { offset, size },
            kind,
        };
        assert(component_kind_code(kind) == code);
        assert(data@.subrange(s, pos + 280) =~= c.encoding());
        Some((c, pos + 280))
    }
}

pub open spec fn bounding_bytes(b: Bounding) -> Seq<u8> {
    u32_be(b.min_x) + u32_be(b.max_x) + u32_be(b.min_y) + u32_be(b.max_y) + u32_be(b.min_z)
        + u32_be(b.max_z)
}

/// A section header as the table of contents holds it.
pub open spec fn section_header_bytes(h: SectionHeader) -> Seq<u8> {
    section_fixed_bytes(h) + zlib_header_bytes(h.zlib_header)
}

pub open spec fn section_fixed_bytes(h: SectionHeader) -> Seq<u8> {
    h.name@ + i32_be(h.total_component_count) + i32_be(h.uncached_component_count) + i32_be(
        h.cached_component_count,
    ) + i32_be(h.shared_section_offset) + i32_be(h.uncached_page_offset) + i32_be(
        h.cached_page_offset,
    ) + i32s_be(h.link_table@) + bounding_bytes(h.bounding) + i32_be(h.memory_entry.offset)
        + i32_be(h.memory_entry.size) + i32_be(h.uncached_data_size) + i32_be(h.cached_data_size)
}

pub open spec fn zlib_header_bytes(z: ZlibHeader) -> Seq<u8> {
    i32_be(z.uncached_total_size) + i32_be(z.cached_total_size) + i32_be(z.uncached_amount)
        + i32_be(z.cached_amount) + i32s_be(z.uncached_sizes@) + i32s_be(z.cached_sizes@)
}

/// Reads the fixed part of a section header at `pos`.
fn parse_section_fixed(data: &[u8], pos: usize) -> (r: Option<(SectionHeader, usize)>)
    requires
        pos <= data@.len(),
    ensures
        r is Some <==> pos + 356 <= data@.len(),
        r matches Some((h, end)) ==> end == pos + 356 && end <= data@.len() && data@.subrange(
            pos as int,
            end as int,
        ) == section_fixed_bytes(h) && h.uncached_component_count == be_u32(data@, pos + 264) as i32
            && h.cached_component_count == be_u32(data@, pos + 268) as i32,
{
    let len = data.len();
    if len - pos < 356 {
        return None;
    }
    let ghost s = pos as int;
    assert(data@.subrange(s, s) =~= Seq::<u8>::empty());
    let name = take_bytes(data, pos, 260, Ghost(s));
    let total_component_count = take_i32(data, pos + 260, Ghost(s));
    let uncached_component_count = take_i32(data, pos + 264, Ghost(s));
    let cached_component_count = take_i32(data, pos + 268, Ghost(s));
    let shared_section_offset = take_i32(data, pos + 272, Ghost(s));
    let uncached_page_offset = take_i32(data, pos + 276, Ghost(s));
    let cached_page_offset = take_i32(data, pos + 280, Ghost(s));
    let link_table = take_i32s(data, pos + 284, 8, Ghost(s));
    let min_x = take_u32(data, pos + 316, Ghost(s));
    let max_x = take_u32(data, pos + 320, Ghost(s));
    let min_y = take_u32(data, pos + 324, Ghost(s));
    let max_y = take_u32(data, pos + 328, Ghost(s));
    let min_z = take_u32(data, pos + 332, Ghost(s));
    let max_z = take_u32(data, pos + 336, Ghost(s));
    let offset = take_i32(data, pos + 340, Ghost(s));
    let size = take_i32(data, pos + 344, Ghost(s));
    let uncached_data_size = take_i32(data, pos + 348, Ghost(s));
    let cached_data_size = take_i32(data, pos + 352, Ghost(s));
    let h = SectionHeader {
        name,
        total_component_count,
        uncached_component_count,
        cached_component_count,
        shared_section_offset,
        uncached_page_offset,
        cached_page_offset,
        link_table,
        bounding: Bounding { min_x, max_x, min_y, max_y, min_z, max_z },
        memory_entry: MemoryEntry { offset, size },
        uncached_data_size,
        cached_data_size,
        zlib_header: ZlibHeader {
            uncached_total_size: 0,
            cached_total_size: 0,
            uncached_amount: 0,
            cached_amount: 0,
            uncached_sizes: Vec::new(),
            cached_sizes: Vec::new(),
        },
    };
    assert(data@.subrange(s, pos + 356) =~= section_fixed_bytes(h));
    Some((h, pos + 356))
}

/// Reads the chunk sizes of a section at `pos`.
fn parse_zlib_header(data: &[u8], pos: usize) -> (r: Option<(ZlibHeader, usize)>)
    requires
        pos <= data@.len(),
    ensures
        r is Some <==> pos + 16 <= data@.len() && {
            let u = be_u32(data@, pos + 8) as i32;
            let c = be_u32(data@, pos + 12) as i32;
            0 <= u && 0 <= c && pos + 16 + 4 * u + 4 * c <= data@.len()
        },
        r matches Some((z, end)) ==> end == pos + 16 + 4 * (be_u32(data@, pos + 8) as i32) + 4 * (
        be_u32(data@, pos + 12) as i32) && end <= data@.len() && data@.subrange(
            pos as int,
            end as int,
        ) == zlib_header_bytes(z),
{
    let len = data.len();
    if len - pos < 16 {
        return None;
    }
    let ghost s = pos as int;
    assert(data@.subrange(s, s) =~= Seq::<u8>::empty());
    let uncached_total_size = take_i32(data, pos, Ghost(s));
    let cached_total_size = take_i32(data, pos + 4, Ghost(s));
    let uncached_amount = take_i32(data, pos + 8, Ghost(s));
    let cached_amount = take_i32(data, pos + 12, Ghost(s));
    if uncached_amount < 0 || cached_amount < 0 {
        return None;
    }
    let nu = uncached_amount as usize;
    let nc = cached_amount as usize;
    if ((len - pos - 16) as u64) < 4 * (nu as u64) + 4 * (nc as u64) {
        return None;
    }
    let uncached_sizes = take_i32s(data, pos + 16, nu, Ghost(s));
    let cached_sizes = take_i32s(data, pos + 16 + 4 * nu, nc, Ghost(s));
    let z = ZlibHeader {
        uncached_total_size,
        cached_total_size,
        uncached_amount,
        cached_amount,
        uncached_sizes,
        cached_sizes,
    };
    let end: usize = pos + 16 + 4 * nu + 4 * nc;
    assert(data@.subrange(s, end as int) =~= zlib_header_bytes(z));
    Some((z, end))
}

impl Encoded for Section {
    open spec fn encoding(&self) -> Seq<u8> {
        section_header_bytes(self.header) + list_encoding(self.uncached_components@)
            + list_encoding(self.cached_components@)
    }

    /// The 356 fixed bytes, the chunk sizes (non-negative counts of them), and
    /// the uncached and cached components (non-negative counts of them).
    open spec fn end_at(data: Seq<u8>, pos: int, extra: nat) -> Option<int> {
        if pos + 356 + 16 > data.len() {
            None
        } else {
            let uncached_chunks = be_u32(data, pos + 364) as i32;
            let cached_chunks = be_u32(data, pos + 368) as i32;
            let uncached = be_u32(data, pos + 264) as i32;
            let cached = be_u32(data, pos + 268) as i32;
            let components_at = pos + 372 + 4 * uncached_chunks + 4 * cached_chunks;
            if uncached_chunks < 0 || cached_chunks < 0 || components_at > data.len() || uncached
                < 0 || cached < 0 {
                None
            } else {
                match list_end::<ComponentHeader>(data, components_at, uncached as nat, 0) {
                    Some(e) => list_end::<ComponentHeader>(data, e, cached as nat, 0),
                    None => None,
                }
            }
        }
    }

    fn parse_at(data: &[u8], pos: usize, extra: usize) -> (r: Option<(Self, usize)>) {
        let (fixed, at_zlib) = match parse_section_fixed(data, pos) {
            Some(found) => found,
            None => {
                return None;
            },
        };
        let (zlib_header, at_uncached) = match parse_zlib_header(data, at_zlib) {
            Some(found) => found,
            None => {
                return None;
            },
        };
        if fixed.uncached_component_count < 0 || fixed.cached_component_count < 0 {
            return None;
        }
        let (uncached_components, at_cached) = match parse_list::<ComponentHeader>(
            data,
            at_uncached,
            fixed.uncached_component_count as usize,
            0,
        ) {
            Some(found) => found,
            None => {
                return None;
            },
        };
        let (cached_components, end) = match parse_list::<ComponentHeader>(
            data,
            at_cached,
            fixed.cached_component_count as usize,
            0,
        ) {
            Some(found) => found,
            None => {
                return None;
            },
        };
        let header = SectionHeader { zlib_header, ..fixed };
        assert(section_fixed_bytes(header) == section_fixed_bytes(fixed));
        let sec = Section { header, uncached_components, cached_components };
        proof {
            lemma_subrange_split(data@, pos as int, at_zlib as int, at_uncached as int);
            lemma_subrange_split(data@, pos as int, at_uncached as int, at_cached as int);
            lemma_subrange_split(data@, pos as int, at_cached as int, end as int);
        }
        Some((sec, end))
    }
}

/// The bytes from `pos` to the end are sections one after the other.
pub open spec fn sections_fill(data: Seq<u8>, pos: int) -> bool
    decreases data.len() - pos,
{
    if pos >= data.len() {
        pos == data.len()
    } else {
        match Section::end_at(data, pos, 0) {
            Some(e) => pos < e <= data.len() && sections_fill(data, e),
            None => false,
        }
    }
}

impl Toc {
    /// Reads sections one after the other to the end of `data`. Gives `None`
    /// when the bytes run out inside a section or a section is malformed.
    pub fn parse(data: &[u8]) -> (r: Option<Toc>)
        ensures
            r is Some <==> sections_fill(data@, 0),
            r matches Some(t) ==> data@ == list_encoding(t.sections@),
    {
        let len = data.len();
        let mut sections: Vec<Section> = Vec::new();
        let mut p: usize = 0;
        assert(data@.subrange(0, 0) =~= Seq::<u8>::empty());
        while p < len
            invariant
                len == data@.len(),
                p <= len,
                sections_fill(data@, 0) == sections_fill(data@, p as int),
                data@.subrange(0, p as int) == list_encoding(sections@),
            decreases len - p,
        {
            let (sec, end) = match Section::parse_at(data, p, 0) {
                Some(found) => found,
                None => {
                    return None;
                },
            };
            if end <= p {
                return None;
            }
            proof {
                lemma_subrange_split(data@, 0, p as int, end as int);
            }
            let ghost before = sections@;
            sections.push(sec);
            assert(sections@.drop_last() =~= before);
            p = end;
        }
        assert(data@.subrange(0, len as int) =~= data@);
        Some(Toc { sections })
    }
}

} // verus!
