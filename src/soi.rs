//! The scene-object index: the headers of every streamed asset, found by the
//! section and component they belong to.
use vstd::prelude::*;

use crate::bytes::{i32_be, i32s_be, lemma_subrange_split, u32_be};
use crate::bytes::be_u32;
use crate::collision::{collision_end, collision_model_bytes, CollisionModel};
use crate::model::{model_end, model_index_bytes, XNGHeader};
use crate::motion::{motion_end, motion_index_bytes, StreamingMotionPackHeader};
use crate::strings::try_clean_string;
use crate::reader::{take_vector4, list_encoding, list_end, parse_list, take_bytes, take_i32, take_i32s, take_u32, Encoded};
use crate::vector::{vector4_bytes, Vector4};

verus! {

/// How the scene streams its sections.
#[derive(Clone, Copy, Debug, PartialEq, Eq, Structural)]
pub enum StreamingMode {
    Unknown,
    OneDimensional,
    TwoDimensional,
    Manual,
}

/// The counts and offsets that open the index.
#[derive(Clone, Debug)]
pub struct Header {
    pub version: i32,
    pub flags: i32,
    pub sections: i32,
    pub collision_models: i32,
    pub renderable_models: i32,
    pub motion_packs: i32,
    pub streaming_textures: i32,
    pub static_textures: i32,
    pub uncached_pages: i32,
    pub cached_pages: i32,
    pub motion_packs_offset: i32,
    pub renderable_models_offset: i32,
    pub collision_models_offset: i32,
    pub textures_offset: i32,
    pub collision_grids_offset: i32,
    pub streaming_mode: StreamingMode,
    pub reserved: Vec<u8>,
}

/// What every asset header starts with: its placement in the world, the
/// section and component it belongs to, its 260-byte name, and how many named
/// parameters follow.
#[derive(Clone, Debug)]
pub struct ModelInfo {
    pub flags: i32,
    pub position: Vector4,
    pub look_vector: Vector4,
    pub up_vector: Vector4,
    pub is_animated: i32,
    pub section_id: i32,
    pub component_id: i32,
    pub name: Vec<u8>,
    pub zone: i32,
    pub parameter_count: i32,
}

/// A named parameter: two 260-byte NUL-padded strings.
#[derive(Clone, Debug)]
pub struct StreamingParameter {
    pub name: Vec<u8>,
    pub value: Vec<u8>,
}

/// A streamed texture; its header is handed over as bytes to whatever decodes
/// the texture format.
#[derive(Clone, Debug)]
pub struct StreamingTexture {
    pub model_info: ModelInfo,
    pub padding: u32,
    pub header: Vec<u8>,
}

/// A texture kept whole in the index.
#[derive(Clone, Debug)]
pub struct StaticTexture {
    pub model_info: ModelInfo,
    pub dds_size: u32,
    pub header_file: Vec<u8>,
}

#[derive(Clone, Debug)]
pub struct StreamingMotionPack {
    pub model_info: ModelInfo,
    pub header: StreamingMotionPackHeader,
}

#[derive(Clone, Debug)]
pub struct StreamingRenderableModel {
    pub model_info: ModelInfo,
    pub parameters: Vec<StreamingParameter>,
    pub streaming_model_header: XNGHeader,
}

#[derive(Clone, Debug)]
pub struct StreamingCollisionModel {
    pub model_info: ModelInfo,
    pub parameters: Vec<StreamingParameter>,
    pub collision_model: CollisionModel,
}

/// An asset header that names the section and component it belongs to.
pub trait Located {
    spec fn location(&self) -> (i32, i32);

    fn ids(&self) -> (r: (i32, i32))
        ensures
            r == self.location(),
    ;
}

impl Located for StreamingTexture {
    open spec fn location(&self) -> (i32, i32) {
        (self.model_info.section_id, self.model_info.component_id)
    }

    fn ids(&self) -> (r: (i32, i32)) {
        (self.model_info.section_id, self.model_info.component_id)
    }
}

impl Located for StaticTexture {
    open spec fn location(&self) -> (i32, i32) {
        (self.model_info.section_id, self.model_info.component_id)
    }

    fn ids(&self) -> (r: (i32, i32)) {
        (self.model_info.section_id, self.model_info.component_id)
    }
}

impl Located for StreamingMotionPack {
    open spec fn location(&self) -> (i32, i32) {
        (self.model_info.section_id, self.model_info.component_id)
    }

    fn ids(&self) -> (r: (i32, i32)) {
        (self.model_info.section_id, self.model_info.component_id)
    }
}

impl Located for StreamingRenderableModel {
    open spec fn location(&self) -> (i32, i32) {
        (self.model_info.section_id, self.model_info.component_id)
    }

    fn ids(&self) -> (r: (i32, i32)) {
        (self.model_info.section_id, self.model_info.component_id)
    }
}

impl Located for StreamingCollisionModel {
    open spec fn location(&self) -> (i32, i32) {
        (self.model_info.section_id, self.model_info.component_id)
    }

    fn ids(&self) -> (r: (i32, i32)) {
        (self.model_info.section_id, self.model_info.component_id)
    }
}

/// The first header of `items` that belongs to this section and component.
pub open spec fn first_located<T: Located>(items: Seq<T>, section_id: i32, component_id: i32) -> Option<
    T,
>
    decreases items.len(),
{
    if items.len() == 0 {
        None
    } else if items[0].location() == (section_id, component_id) {
        Some(items[0])
    } else {
        first_located(items.drop_first(), section_id, component_id)
    }
}

/// The first header of `items` that belongs to this section and component.
pub fn find_located<'a, T: Located>(items: &'a Vec<T>, section_id: i32, component_id: i32) -> (r:
    Option<&'a T>)
    ensures
        r matches Some(x) ==> first_located(items@, section_id, component_id) == Some(*x),
        r is None <==> first_located(items@, section_id, component_id) is None,
{
    let mut i: usize = 0;
    assert(items@.subrange(0, items@.len() as int) =~= items@);
    while i < items.len()
        invariant
            i <= items@.len(),
            first_located(items@, section_id, component_id) == first_located(
                items@.subrange(i as int, items@.len() as int),
                section_id,
                component_id,
            ),
        decreases items@.len() - i,
    {
        let ghost rest = items@.subrange(i as int, items@.len() as int);
        assert(rest.drop_first() =~= items@.subrange(i + 1, items@.len() as int));
        assert(rest[0] == items@[i as int]);
        let (s, c) = items[i].ids();
        if s == section_id && c == component_id {
            return Some(&items[i]);
        }
        i = i + 1;
    }
    None
}

/// The scene-object index.
#[derive(Clone, Debug)]
pub struct Soi {
    pub header: Header,
    pub uncached_page_sizes: Vec<i32>,
    pub cached_page_sizes: Vec<i32>,
    pub streaming_textures: Vec<StreamingTexture>,
    pub static_textures: Vec<StaticTexture>,
    pub motion_packs: Vec<StreamingMotionPack>,
    pub renderable_models: Vec<StreamingRenderableModel>,
    pub collision_models: Vec<StreamingCollisionModel>,
}

impl Soi {
    pub fn get_streaming_textures(&self) -> (r: &[StreamingTexture])
        ensures
            r@ == self.streaming_textures@,
    {
        self.streaming_textures.as_slice()
    }

    pub fn get_static_textures(&self) -> (r: &[StaticTexture])
        ensures
            r@ == self.static_textures@,
    {
        self.static_textures.as_slice()
    }

    pub fn get_motion_packs(&self) -> (r: &[StreamingMotionPack])
        ensures
            r@ == self.motion_packs@,
    {
        self.motion_packs.as_slice()
    }

    pub fn get_renderable_models(&self) -> (r: &[StreamingRenderableModel])
        ensures
            r@ == self.renderable_models@,
    {
        self.renderable_models.as_slice()
    }

    pub fn get_collision_models(&self) -> (r: &[StreamingCollisionModel])
        ensures
            r@ == self.collision_models@,
    {
        self.collision_models.as_slice()
    }

    /// The static texture of this section and component, if any.
    pub fn find_static_texture(&self, section_id: u32, component_id: u32) -> (r: Option<
        &StaticTexture,
    >)
        ensures
            r matches Some(x) ==> first_located(
                self.static_textures@,
                section_id as i32,
                component_id as i32,
            ) == Some(*x),
            r is None <==> first_located(
                self.static_textures@,
                section_id as i32,
                component_id as i32,
            ) is None,
    {
        find_located(
            &self.static_textures,
            #[verifier::truncate] (section_id as i32),
            #[verifier::truncate] (component_id as i32),
        )
    }

    /// The streaming texture of this section and component, if any.
    pub fn find_streaming_texture(&self, section_id: u32, component_id: u32) -> (r: Option<
        &StreamingTexture,
    >)
        ensures
            r matches Some(x) ==> first_located(
                self.streaming_textures@,
                section_id as i32,
                component_id as i32,
            ) == Some(*x),
            r is None <==> first_located(
                self.streaming_textures@,
                section_id as i32,
                component_id as i32,
            ) is None,
    {
        find_located(
            &self.streaming_textures,
            #[verifier::truncate] (section_id as i32),
            #[verifier::truncate] (component_id as i32),
        )
    }

    /// The motion pack of this section and component, if any.
    pub fn find_motion_pack(&self, section_id: u32, component_id: u32) -> (r: Option<
        &StreamingMotionPack,
    >)
        ensures
            r matches Some(x) ==> first_located(
                self.motion_packs@,
                section_id as i32,
                component_id as i32,
            ) == Some(*x),
            r is None <==> first_located(
                self.motion_packs@,
                section_id as i32,
                component_id as i32,
            ) is None,
    {
        find_located(
            &self.motion_packs,
            #[verifier::truncate] (section_id as i32),
            #[verifier::truncate] (component_id as i32),
        )
    }

    /// The collision model of this section and component, if any.
    pub fn find_collision_model(&self, section_id: u32, component_id: u32) -> (r: Option<
        &StreamingCollisionModel,
    >)
        ensures
            r matches Some(x) ==> first_located(
                self.collision_models@,
                section_id as i32,
                component_id as i32,
            ) == Some(*x),
            r is None <==> first_located(
                self.collision_models@,
                section_id as i32,
                component_id as i32,
            ) is None,
    {
        find_located(
            &self.collision_models,
            #[verifier::truncate] (section_id as i32),
            #[verifier::truncate] (component_id as i32),
        )
    }

    /// The renderable model of this section and component, if any.
    pub fn find_model(&self, section_id: u32, component_id: u32) -> (r: Option<
        &StreamingRenderableModel,
    >)
        ensures
            r matches Some(x) ==> first_located(
                self.renderable_models@,
                section_id as i32,
                component_id as i32,
            ) == Some(*x),
            r is None <==> first_located(
                self.renderable_models@,
                section_id as i32,
                component_id as i32,
            ) is None,
    {
        find_located(
            &self.renderable_models,
            #[verifier::truncate] (section_id as i32),
            #[verifier::truncate] (component_id as i32),
        )
    }
}

/// The streaming mode whose value on disk is `code`, if any.
pub open spec fn streaming_mode_of(code: i32) -> Option<StreamingMode> {
    if code == -1 {
        Some(StreamingMode::Unknown)
    } else if code == 0 {
        Some(StreamingMode::OneDimensional)
    } else if code == 1 {
        Some(StreamingMode::TwoDimensional)
    } else if code == 2 {
        Some(StreamingMode::Manual)
    } else {
        None
    }
}

pub open spec fn streaming_mode_code(m: StreamingMode) -> i32 {
    match m {
        StreamingMode::Unknown => -1i32,
        StreamingMode::OneDimensional => 0,
        StreamingMode::TwoDimensional => 1,
        StreamingMode::Manual => 2,
    }
}

/// The index header as the file holds it.
pub open spec fn header_bytes(h: Header) -> Seq<u8> {
    i32_be(h.version) + i32_be(h.flags) + i32_be(h.sections) + i32_be(h.collision_models) + i32_be(
        h.renderable_models,
    ) + i32_be(h.motion_packs) + i32_be(h.streaming_textures) + i32_be(h.static_textures) + i32_be(
        h.uncached_pages,
    ) + i32_be(h.cached_pages) + i32_be(h.motion_packs_offset) + i32_be(h.renderable_models_offset)
        + i32_be(h.collision_models_offset) + i32_be(h.textures_offset) + i32_be(
        h.collision_grids_offset,
    ) + i32_be(streaming_mode_code(h.streaming_mode)) + h.reserved@
}

/// The bytes the index header takes.
pub const HEADER_SIZE: usize = 80;

impl Header {
    /// Reads the index header at `pos`.
    pub fn parse(data: &[u8], pos: usize) -> (r: Option<(Header, usize)>)
        ensures
            r matches Some((h, end)) ==> end == pos + HEADER_SIZE && end <= data@.len()
                && data@.subrange(pos as int, end as int) == header_bytes(h) && h.collision_models
                == be_u32(data@, pos + 12) as i32 && h.renderable_models == be_u32(data@, pos + 16)
                as i32 && h.motion_packs == be_u32(data@, pos + 20) as i32 && h.streaming_textures
                == be_u32(data@, pos + 24) as i32 && h.static_textures == be_u32(data@, pos + 28)
                as i32 && h.uncached_pages == be_u32(data@, pos + 32) as i32 && h.cached_pages
                == be_u32(data@, pos + 36) as i32,
            r is None <==> pos + HEADER_SIZE > data@.len() || (pos + HEADER_SIZE <= data@.len()
                && streaming_mode_of(crate::bytes::be_u32(data@, pos + 60) as i32) is None),
    {
        let len = data.len();
        if pos > len || len - pos < HEADER_SIZE {
            return None;
        }
        let ghost s = pos as int;
        assert(data@.subrange(s, s) =~= Seq::<u8>::empty());
        let version = take_i32(data, pos, Ghost(s));
        let flags = take_i32(data, pos + 4, Ghost(s));
        let sections = take_i32(data, pos + 8, Ghost(s));
        let collision_models = take_i32(data, pos + 12, Ghost(s));
        let renderable_models = take_i32(data, pos + 16, Ghost(s));
        let motion_packs = take_i32(data, pos + 20, Ghost(s));
        let streaming_textures = take_i32(data, pos + 24, Ghost(s));
        let static_textures = take_i32(data, pos + 28, Ghost(s));
        let uncached_pages = take_i32(data, pos + 32, Ghost(s));
        let cached_pages = take_i32(data, pos + 36, Ghost(s));
        let motion_packs_offset = take_i32(data, pos + 40, Ghost(s));
        let renderable_models_offset = take_i32(data, pos + 44, Ghost(s));
        let collision_models_offset = take_i32(data, pos + 48, Ghost(s));
        let textures_offset = take_i32(data, pos + 52, Ghost(s));
        let collision_grids_offset = take_i32(data, pos + 56, Ghost(s));
        let code = take_i32(data, pos + 60, Ghost(s));
        let streaming_mode = if code == -1 {
            StreamingMode::Unknown
        } else if code == 0 {
            StreamingMode::OneDimensional
        } else if code == 1 {
            StreamingMode::TwoDimensional
        } else if code == 2 {
            StreamingMode::Manual
        } else {
            return None;
        };
        let reserved = take_bytes(data, pos + 64, 16, Ghost(s));
        let h = Header {
            version,
            flags,
            sections,
            collision_models,
            renderable_models,
            motion_packs,
            streaming_textures,
            static_textures,
            uncached_pages,
            cached_pages,
            motion_packs_offset,
            renderable_models_offset,
            collision_models_offset,
            textures_offset,
            collision_grids_offset,
            streaming_mode,
            reserved,
        };
        assert(data@.subrange(s, pos + 80) =~= header_bytes(h));
        Some((h, pos + 80))
    }
}

/// The bytes a `ModelInfo` takes.
pub const MODEL_INFO_SIZE: usize = 332;

/// A `ModelInfo` as the index holds it.
pub open spec fn model_info_bytes(m: ModelInfo) -> Seq<u8> {
    i32_be(m.flags) + vector4_bytes(m.position) + vector4_bytes(m.look_vector) + vector4_bytes(
        m.up_vector,
    ) + i32_be(m.is_animated) + i32_be(m.section_id) + i32_be(m.component_id) + m.name@ + i32_be(
        m.zone,
    ) + i32_be(m.parameter_count)
}

impl ModelInfo {
    /// Reads a `ModelInfo` at `pos`.
    pub fn parse(data: &[u8], pos: usize) -> (r: Option<(ModelInfo, usize)>)
        ensures
            r is None <==> pos + MODEL_INFO_SIZE > data@.len(),
            r matches Some((m, end)) ==> end == pos + MODEL_INFO_SIZE && m.name@.len() == 260
                && m.parameter_count == be_u32(data@, pos + 328) as i32 && data@.subrange(
                pos as int,
                end as int,
            ) == model_info_bytes(m),
    {
        let len = data.len();
        if pos > len || len - pos < MODEL_INFO_SIZE {
            return None;
        }
        let ghost s = pos as int;
        assert(data@.subrange(s, s) =~= Seq::<u8>::empty());
        let flags = take_i32(data, pos, Ghost(s));
        let position = take_vector4(data, pos + 4, Ghost(s));
        let look_vector = take_vector4(data, pos + 20, Ghost(s));
        let up_vector = take_vector4(data, pos + 36, Ghost(s));
        let is_animated = take_i32(data, pos + 52, Ghost(s));
        let section_id = take_i32(data, pos + 56, Ghost(s));
        let component_id = take_i32(data, pos + 60, Ghost(s));
        let name = take_bytes(data, pos + 64, 260, Ghost(s));
        let zone = take_i32(data, pos + 324, Ghost(s));
        let parameter_count = take_i32(data, pos + 328, Ghost(s));
        let m = ModelInfo {
            flags,
            position,
            look_vector,
            up_vector,
            is_animated,
            section_id,
            component_id,
            name,
            zone,
            parameter_count,
        };
        assert(data@.subrange(s, pos + 332) =~= model_info_bytes(m));
        Some((m, pos + 332))
    }
}

impl Encoded for StreamingParameter {
    open spec fn encoding(&self) -> Seq<u8> {
        self.name@ + self.value@
    }

    /// Two 260-byte strings.
    open spec fn end_at(data: Seq<u8>, pos: int, extra: nat) -> Option<int> {
        if pos + 520 <= data.len() {
            Some(pos + 520)
        } else {
            None
        }
    }

    fn parse_at(data: &[u8], pos: usize, extra: usize) -> (r: Option<(Self, usize)>) {
        let len = data.len();
        if len - pos < 520 {
            return None;
        }
        let ghost s = pos as int;
        assert(data@.subrange(s, s) =~= Seq::<u8>::empty());
        let name = take_bytes(data, pos, 260, Ghost(s));
        let value = take_bytes(data, pos + 260, 260, Ghost(s));
        let p = StreamingParameter { name, value };
        assert(data@.subrange(s, pos + 520) =~= p.encoding());
        Some((p, pos + 520))
    }
}

impl Encoded for StreamingTexture {
    open spec fn encoding(&self) -> Seq<u8> {
        model_info_bytes(self.model_info) + u32_be(self.padding) + self.header@
    }

    /// The model info, four bytes of padding, and a texture header of `extra` bytes.
    open spec fn end_at(data: Seq<u8>, pos: int, extra: nat) -> Option<int> {
        if pos + MODEL_INFO_SIZE + 4 + extra <= data.len() {
            Some(pos + MODEL_INFO_SIZE + 4 + extra)
        } else {
            None
        }
    }

    /// `extra` is the size of the texture header.
    fn parse_at(data: &[u8], pos: usize, extra: usize) -> (r: Option<(Self, usize)>) {
        let (model_info, p) = match ModelInfo::parse(data, pos) {
            Some(found) => found,
            None => {
                return None;
            },
        };
        let len = data.len();
        if len - p < 4 || len - p - 4 < extra {
            return None;
        }
        let padding = take_u32(data, p, Ghost(p as int));
        let header = take_bytes(data, p + 4, extra, Ghost(p as int));
        let t = StreamingTexture { model_info, padding, header };
        proof {
            assert(data@.subrange(p as int, p as int) =~= Seq::<u8>::empty());
            lemma_subrange_split(data@, pos as int, p as int, p + 4 + extra);
        }
        Some((t, p + 4 + extra))
    }
}

impl Encoded for StaticTexture {
    open spec fn encoding(&self) -> Seq<u8> {
        model_info_bytes(self.model_info) + u32_be(self.dds_size) + self.header_file@
    }

    /// The model info, a size, and that many bytes.
    open spec fn end_at(data: Seq<u8>, pos: int, extra: nat) -> Option<int> {
        if pos + MODEL_INFO_SIZE + 4 > data.len() {
            None
        } else {
            let e = pos + MODEL_INFO_SIZE + 4 + be_u32(data, pos + MODEL_INFO_SIZE);
            if e <= data.len() {
                Some(e)
            } else {
                None
            }
        }
    }

    fn parse_at(data: &[u8], pos: usize, extra: usize) -> (r: Option<(Self, usize)>) {
        let (model_info, p) = match ModelInfo::parse(data, pos) {
            Some(found) => found,
            None => {
                return None;
            },
        };
        let len = data.len();
        if len - p < 4 {
            return None;
        }
        let dds_size = take_u32(data, p, Ghost(p as int));
        if ((len - p - 4) as u64) < dds_size as u64 {
            return None;
        }
        let n = dds_size as usize;
        let header_file = take_bytes(data, p + 4, n, Ghost(p as int));
        let t = StaticTexture { model_info, dds_size, header_file };
        proof {
            assert(data@.subrange(p as int, p as int) =~= Seq::<u8>::empty());
            lemma_subrange_split(data@, pos as int, p as int, p + 4 + n);
        }
        Some((t, p + 4 + n))
    }
}

impl Encoded for StreamingMotionPack {
    open spec fn encoding(&self) -> Seq<u8> {
        model_info_bytes(self.model_info) + motion_index_bytes(self.header)
    }

    open spec fn end_at(data: Seq<u8>, pos: int, extra: nat) -> Option<int> {
        if pos + MODEL_INFO_SIZE > data.len() {
            None
        } else {
            motion_end(data, pos + MODEL_INFO_SIZE)
        }
    }

    fn parse_at(data: &[u8], pos: usize, extra: usize) -> (r: Option<(Self, usize)>) {
        let (model_info, p) = match ModelInfo::parse(data, pos) {
            Some(found) => found,
            None => {
                return None;
            },
        };
        let (header, end) = match StreamingMotionPackHeader::parse(data, p) {
            Some(found) => found,
            None => {
                return None;
            },
        };
        proof {
            lemma_subrange_split(data@, pos as int, p as int, end as int);
        }
        Some((StreamingMotionPack { model_info, header }, end))
    }
}

/// Where the model info and the named parameters that open a model record
/// end: the parameter count is the last field of the model info.
pub open spec fn info_and_parameters_end(data: Seq<u8>, pos: int) -> Option<int> {
    if pos + MODEL_INFO_SIZE > data.len() {
        None
    } else {
        let count = be_u32(data, pos + 328) as i32;
        if count < 0 {
            None
        } else {
            list_end::<StreamingParameter>(data, pos + MODEL_INFO_SIZE, count as nat, 0)
        }
    }
}

/// Reads the model info and the named parameters that open a model record.
fn parse_info_and_parameters(data: &[u8], pos: usize) -> (r: Option<(ModelInfo, Vec<StreamingParameter>, usize)>)
    requires
        pos <= data@.len(),
    ensures
        r is Some <==> info_and_parameters_end(data@, pos as int) is Some,
        r matches Some((m, ps, end)) ==> info_and_parameters_end(data@, pos as int) == Some(
            end as int,
        ) && pos <= end <= data@.len() && ps@.len()
            == m.parameter_count && data@.subrange(pos as int, end as int) == model_info_bytes(m)
            + list_encoding(ps@),
{
    let (model_info, p) = match ModelInfo::parse(data, pos) {
        Some(found) => found,
        None => {
            return None;
        },
    };
    if model_info.parameter_count < 0 {
        return None;
    }
    let (parameters, end) = match parse_list::<StreamingParameter>(
        data,
        p,
        model_info.parameter_count as usize,
        0,
    ) {
        Some(found) => found,
        None => {
            return None;
        },
    };
    proof {
        lemma_subrange_split(data@, pos as int, p as int, end as int);
    }
    Some((model_info, parameters, end))
}

impl Encoded for StreamingRenderableModel {
    open spec fn encoding(&self) -> Seq<u8> {
        model_info_bytes(self.model_info) + list_encoding(self.parameters@) + model_index_bytes(
            self.streaming_model_header,
        )
    }

    open spec fn end_at(data: Seq<u8>, pos: int, extra: nat) -> Option<int> {
        match info_and_parameters_end(data, pos) {
            Some(p) => model_end(data, p),
            None => None,
        }
    }

    fn parse_at(data: &[u8], pos: usize, extra: usize) -> (r: Option<(Self, usize)>) {
        let (model_info, parameters, p) = match parse_info_and_parameters(data, pos) {
            Some(found) => found,
            None => {
                return None;
            },
        };
        let (streaming_model_header, end) = match XNGHeader::parse(data, p) {
            Some(found) => found,
            None => {
                return None;
            },
        };
        proof {
            lemma_subrange_split(data@, pos as int, p as int, end as int);
        }
        Some((StreamingRenderableModel { model_info, parameters, streaming_model_header }, end))
    }
}

impl Encoded for StreamingCollisionModel {
    open spec fn encoding(&self) -> Seq<u8> {
        model_info_bytes(self.model_info) + list_encoding(self.parameters@) + collision_model_bytes(
            self.collision_model,
        )
    }

    open spec fn end_at(data: Seq<u8>, pos: int, extra: nat) -> Option<int> {
        match info_and_parameters_end(data, pos) {
            Some(p) => collision_end(data, p),
            None => None,
        }
    }

    fn parse_at(data: &[u8], pos: usize, extra: usize) -> (r: Option<(Self, usize)>) {
        let (model_info, parameters, p) = match parse_info_and_parameters(data, pos) {
            Some(found) => found,
            None => {
                return None;
            },
        };
        let (collision_model, end) = match CollisionModel::parse(data, p) {
            Some(found) => found,
            None => {
                return None;
            },
        };
        proof {
            lemma_subrange_split(data@, pos as int, p as int, end as int);
        }
        Some((StreamingCollisionModel { model_info, parameters, collision_model }, end))
    }
}

/// The index as the file holds it.
pub open spec fn soi_bytes(s: Soi) -> Seq<u8> {
    header_bytes(s.header) + i32s_be(s.uncached_page_sizes@) + i32s_be(s.cached_page_sizes@)
        + list_encoding(s.streaming_textures@) + list_encoding(s.static_textures@) + list_encoding(
        s.motion_packs@,
    ) + list_encoding(s.renderable_models@) + list_encoding(s.collision_models@)
}

/// Where the lists of an index whose header counts are these end, starting
/// at `pos`, if the bytes hold them.
pub open spec fn soi_lists_end(
    data: Seq<u8>,
    pos: int,
    counts: (i32, i32, i32, i32, i32),
    texture_header_len: nat,
) -> Option<int> {
    let (streaming, statics, motions, models, collisions) = counts;
    match list_end::<StreamingTexture>(data, pos, streaming as nat, texture_header_len) {
        None => None,
        Some(a) => match list_end::<StaticTexture>(data, a, statics as nat, 0) {
            None => None,
            Some(b) => match list_end::<StreamingMotionPack>(data, b, motions as nat, 0) {
                None => None,
                Some(c) => match list_end::<StreamingRenderableModel>(data, c, models as nat, 0) {
                    None => None,
                    Some(d) => list_end::<StreamingCollisionModel>(data, d, collisions as nat, 0),
                },
            },
        },
    }
}

/// Where an index at the start of `data` ends, if the bytes hold one: the
/// header with a known streaming mode and non-negative counts, the page
/// sizes, then each list of records.
pub open spec fn soi_end(data: Seq<u8>, texture_header_len: nat) -> Option<int> {
    if HEADER_SIZE > data.len() || streaming_mode_of(be_u32(data, 60) as i32) is None {
        None
    } else {
        let uncached_pages = be_u32(data, 32) as i32;
        let cached_pages = be_u32(data, 36) as i32;
        let counts = (
            be_u32(data, 24) as i32,
            be_u32(data, 28) as i32,
            be_u32(data, 20) as i32,
            be_u32(data, 16) as i32,
            be_u32(data, 12) as i32,
        );
        let lists_at = HEADER_SIZE + 4 * uncached_pages + 4 * cached_pages;
        if uncached_pages < 0 || cached_pages < 0 || counts.0 < 0 || counts.1 < 0 || counts.2 < 0
            || counts.3 < 0 || counts.4 < 0 || lists_at > data.len() {
            None
        } else {
            soi_lists_end(data, lists_at, counts, texture_header_len)
        }
    }
}

/// The counts of the header give the length of each list.
pub open spec fn soi_wf(s: Soi) -> bool {
    &&& s.uncached_page_sizes@.len() == s.header.uncached_pages
    &&& s.cached_page_sizes@.len() == s.header.cached_pages
    &&& s.streaming_textures@.len() == s.header.streaming_textures
    &&& s.static_textures@.len() == s.header.static_textures
    &&& s.motion_packs@.len() == s.header.motion_packs
    &&& s.renderable_models@.len() == s.header.renderable_models
    &&& s.collision_models@.len() == s.header.collision_models
}

impl Soi {
    /// Reads the whole index from `data`; each streaming texture header takes
    /// `texture_header_len` bytes. Gives the index and the number of bytes it
    /// took, or `None` when the bytes run out, a count is negative, or a
    /// record is malformed.
    #[verifier::rlimit(40)]
    pub fn parse(data: &[u8], texture_header_len: usize) -> (r: Option<(Soi, usize)>)
        ensures
            r is Some <==> soi_end(data@, texture_header_len as nat) is Some,
            r matches Some((s, end)) ==> soi_end(data@, texture_header_len as nat) == Some(
                end as int,
            ) && end <= data@.len() && soi_wf(s) && data@.subrange(0, end as int) == soi_bytes(s),
    {
        let (header, at_pages) = match Header::parse(data, 0) {
            Some(found) => found,
            None => {
                return None;
            },
        };
        let len = data.len();
        if header.uncached_pages < 0 || header.cached_pages < 0 || header.streaming_textures < 0
            || header.static_textures < 0 || header.motion_packs < 0 || header.renderable_models
            < 0 || header.collision_models < 0 {
            return None;
        }
        let nu = header.uncached_pages as usize;
        let nc = header.cached_pages as usize;
        if ((len - at_pages) as u64) < 4 * (nu as u64) + 4 * (nc as u64) {
            return None;
        }
        let uncached_page_sizes = take_i32s(data, at_pages, nu, Ghost(at_pages as int));
        let at_cached_pages: usize = at_pages + 4 * nu;
        let cached_page_sizes = take_i32s(data, at_cached_pages, nc, Ghost(at_cached_pages as int));
        let at_streaming: usize = at_cached_pages + 4 * nc;
        let (streaming_textures, at_static) = match parse_list::<StreamingTexture>(
            data,
            at_streaming,
            header.streaming_textures as usize,
            texture_header_len,
        ) {
            Some(found) => found,
            None => {
                return None;
            },
        };
        let (static_textures, at_motion) = match parse_list::<StaticTexture>(
            data,
            at_static,
            header.static_textures as usize,
            0,
        ) {
            Some(found) => found,
            None => {
                return None;
            },
        };
        let (motion_packs, at_models) = match parse_list::<StreamingMotionPack>(
            data,
            at_motion,
            header.motion_packs as usize,
            0,
        ) {
            Some(found) => found,
            None => {
                return None;
            },
        };
        let (renderable_models, at_collisions) = match parse_list::<StreamingRenderableModel>(
            data,
            at_models,
            header.renderable_models as usize,
            0,
        ) {
            Some(found) => found,
            None => {
                return None;
            },
        };
        let (collision_models, end) = match parse_list::<StreamingCollisionModel>(
            data,
            at_collisions,
            header.collision_models as usize,
            0,
        ) {
            Some(found) => found,
            None => {
                return None;
            },
        };
        let soi = Soi {
            header,
            uncached_page_sizes,
            cached_page_sizes,
            streaming_textures,
            static_textures,
            motion_packs,
            renderable_models,
            collision_models,
        };
        proof {
            assert(data@.subrange(at_pages as int, at_pages as int) =~= Seq::<u8>::empty());
            assert(data@.subrange(at_cached_pages as int, at_cached_pages as int) =~= Seq::<u8>::empty());
            lemma_subrange_split(data@, 0, at_pages as int, at_cached_pages as int);
            lemma_subrange_split(data@, 0, at_cached_pages as int, at_streaming as int);
            lemma_subrange_split(data@, 0, at_streaming as int, at_static as int);
            lemma_subrange_split(data@, 0, at_static as int, at_motion as int);
            lemma_subrange_split(data@, 0, at_motion as int, at_models as int);
            lemma_subrange_split(data@, 0, at_models as int, at_collisions as int);
            lemma_subrange_split(data@, 0, at_collisions as int, end as int);
        }
        Some((soi, end))
    }
}

/// The text of a fixed-width field, as `try_clean_string` reads it.
pub open spec fn field_text(bytes: Seq<u8>) -> Option<Seq<char>> {
    if vstd::utf8::valid_utf8(crate::strings::until_nul(bytes)) {
        Some(vstd::utf8::decode_utf8(crate::strings::until_nul(bytes)))
    } else {
        None
    }
}

impl StreamingParameter {
    /// The parameter's name and value as text, or `None` when either is not UTF-8.
    pub fn text(&self) -> (r: Option<(String, String)>)
        ensures
            r is Some <==> field_text(self.name@) is Some && field_text(self.value@) is Some,
            r matches Some((n, v)) ==> field_text(self.name@) == Some(n@) && field_text(self.value@)
                == Some(v@),
    {
        let name = try_clean_string(self.name.as_slice());
        let value = try_clean_string(self.value.as_slice());
        match (name, value) {
            (Some(n), Some(v)) => Some((n, v)),
            _ => None,
        }
    }
}

} // verus!
