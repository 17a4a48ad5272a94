use soi_tools::error::ConvertError;
use soi_tools::soi::{Header, ModelInfo, Soi, StaticTexture, StreamingMode, StreamingParameter};
use soi_tools::soup::SoiSoup;
use soi_tools::store::{extract_components, SectionData};
use soi_tools::toc::{
    Bounding, ComponentHeader, ComponentKind, MemoryEntry, Section, SectionHeader, Toc, ZlibHeader,
};
use soi_tools::vector::Vector4;

fn v4() -> Vector4 {
    Vector4 { x: 0, y: 0, z: 0, w: 0 }
}

fn info(section_id: i32, component_id: i32, tag: u8) -> ModelInfo {
    ModelInfo {
        flags: 0,
        position: v4(),
        look_vector: v4(),
        up_vector: v4(),
        is_animated: 0,
        section_id,
        component_id,
        name: vec![tag; 260],
        zone: 0,
        parameter_count: 0,
    }
}

fn texture(section_id: i32, component_id: i32, tag: u8) -> StaticTexture {
    StaticTexture { model_info: info(section_id, component_id, tag), dds_size: 1, header_file: vec![tag] }
}

fn soi_header() -> Header {
    Header {
        version: 0x101,
        flags: 0,
        sections: 0,
        collision_models: 0,
        renderable_models: 0,
        motion_packs: 0,
        streaming_textures: 0,
        static_textures: 0,
        uncached_pages: 0,
        cached_pages: 0,
        motion_packs_offset: 0,
        renderable_models_offset: 0,
        collision_models_offset: 0,
        textures_offset: 0,
        collision_grids_offset: 0,
        streaming_mode: StreamingMode::Unknown,
        reserved: vec![0; 16],
    }
}

fn soi(static_textures: Vec<StaticTexture>) -> Soi {
    Soi {
        header: soi_header(),
        uncached_page_sizes: Vec::new(),
        cached_page_sizes: Vec::new(),
        streaming_textures: Vec::new(),
        static_textures,
        motion_packs: Vec::new(),
        renderable_models: Vec::new(),
        collision_models: Vec::new(),
    }
}

fn component(instance_id: i32, component_id: i32, offset: i32, size: i32, path: &[u8]) -> ComponentHeader {
    let mut p = path.to_vec();
    p.resize(260, 0);
    ComponentHeader {
        path: p,
        instance_id,
        component_id,
        memory_entry: MemoryEntry { offset, size },
        kind: ComponentKind::Texture,
    }
}

fn section(total: i32, uncached: Vec<ComponentHeader>, cached: Vec<ComponentHeader>) -> Section {
    Section {
        header: SectionHeader {
            name: vec![0; 260],
            total_component_count: total,
            uncached_component_count: uncached.len() as i32,
            cached_component_count: cached.len() as i32,
            shared_section_offset: 0,
            uncached_page_offset: 0,
            cached_page_offset: 0,
            link_table: vec![0; 8],
            bounding: Bounding { min_x: 0, max_x: 0, min_y: 0, max_y: 0, min_z: 0, max_z: 0 },
            memory_entry: MemoryEntry { offset: 0, size: 0 },
            uncached_data_size: 0,
            cached_data_size: 0,
            zlib_header: ZlibHeader {
                uncached_total_size: 0,
                cached_total_size: 0,
                uncached_amount: 0,
                cached_amount: 0,
                uncached_sizes: Vec::new(),
                cached_sizes: Vec::new(),
            },
        },
        uncached_components: uncached,
        cached_components: cached,
    }
}

fn soup() -> SoiSoup {
    let toc = Toc {
        sections: vec![
            section(2, vec![component(70, 1, 0, 1, b"a")], vec![component(71, 2, 0, 1, b"b")]),
            section(1, Vec::new(), vec![component(77, 5, 0, 1, b"c")]),
        ],
    };
    SoiSoup::new(toc, soi(vec![texture(0, 1, 1), texture(1, 5, 2), texture(1, 5, 3)]))
}

#[test]
fn direct_lookup_takes_first_match() {
    let s = soup();
    assert_eq!(s.find_static_texture(1, 5, 0).unwrap().header_file, vec![2]);
    assert_eq!(s.soi.find_static_texture(0, 1).unwrap().header_file, vec![1]);
}

#[test]
fn instance_fallback_resolves_like_direct_hit() {
    let s = soup();
    let via_instance = s.find_static_texture(9, 9, 77).unwrap();
    let direct = s.find_static_texture(1, 5, 12345).unwrap();
    assert_eq!(via_instance.header_file, direct.header_file);
    assert_eq!(s.toc.find_ids(77), Some((1, 5)));
    assert_eq!(s.toc.find_ids(71), Some((0, 2)));
}

#[test]
fn lookup_miss_is_none() {
    let s = soup();
    assert!(s.find_static_texture(9, 9, 78).is_none());
    assert!(s.find_static_texture(9, 9, 71).is_none());
    assert!(s.find_model(0, 1, 70).is_none());
    assert!(s.find_collision_model(0, 1, 70).is_none());
    assert!(s.find_motion_pack(0, 1, 70).is_none());
    assert!(s.find_streaming_texture(0, 1, 70).is_none());
    assert_eq!(s.toc.find_ids(78), None);
}

#[test]
fn components_listed_by_section() {
    let s = soup();
    let all = s.find_components();
    let ids: Vec<(u32, i32)> = all.iter().map(|(i, c)| (*i, c.instance_id)).collect();
    assert_eq!(ids, vec![(0, 70), (0, 71), (1, 77)]);
    assert_eq!(s.component_count(), 3);
    assert_eq!(s.find_sections().len(), 2);
    assert_eq!(s.static_textures().len(), 3);
}

#[test]
fn components_cut_out_of_section_data() {
    let headers = vec![component(1, 10, 2, 3, b"dir\\x"), component(2, 11, 0, 0, b"y")];
    let data = vec![10, 11, 12, 13, 14, 15];
    let cs = extract_components(&headers, &data).unwrap();
    assert_eq!(cs.len(), 2);
    assert_eq!(cs[0].data, vec![12, 13, 14]);
    assert_eq!(cs[0].id, 10);
    assert_eq!(cs[0].instance_id, 1);
    assert_eq!(cs[0].path, "dir\\x");
    assert_eq!(cs[1].data, Vec::<u8>::new());
    assert_eq!(cs[1].kind, ComponentKind::Texture);
}

#[test]
fn components_outside_data_fail() {
    let data = vec![0u8; 6];
    assert_eq!(
        extract_components(&[component(1, 1, 4, 3, b"x")], &data).map(|c| c.len()),
        Err(ConvertError::BufferExhaustion)
    );
    assert_eq!(
        extract_components(&[component(1, 1, -1, 1, b"x")], &data).map(|c| c.len()),
        Err(ConvertError::BufferExhaustion)
    );
    assert_eq!(
        extract_components(&[component(1, 1, 0, 1, &[0xff])], &data).map(|c| c.len()),
        Err(ConvertError::Format)
    );
    let sec = section(1, vec![component(1, 1, 0, 2, b"u")], vec![component(2, 2, 1, 2, b"c")]);
    let d = SectionData::from_section(&sec, &vec![1, 2], &vec![3, 4, 5]).unwrap();
    assert_eq!(d.uncached[0].data, vec![1, 2]);
    assert_eq!(d.cached[0].data, vec![4, 5]);
}

fn be32(v: u32) -> Vec<u8> {
    v.to_be_bytes().to_vec()
}

#[test]
fn index_file_parses() {
    let mut bytes = Vec::new();
    let counts = [0x101u32, 0, 1, 0, 0, 0, 0, 1, 1, 0, 0, 0, 0, 0, 0, 0xFFFF_FFFF];
    for v in counts {
        bytes.extend(be32(v));
    }
    bytes.extend(vec![0u8; 16]);
    bytes.extend(be32(4096));
    for _ in 0..14 {
        bytes.extend(be32(0));
    }
    bytes.extend(be32(1));
    bytes.extend(be32(5));
    bytes.extend(vec![b'n'; 260]);
    bytes.extend(be32(0));
    bytes.extend(be32(0));
    bytes.extend(be32(2));
    bytes.extend_from_slice(b"DD");
    let (s, end) = Soi::parse(&bytes, 0).unwrap();
    assert_eq!(end, bytes.len());
    assert_eq!(s.header.version, 0x101);
    assert_eq!(s.header.streaming_mode, StreamingMode::Unknown);
    assert_eq!(s.uncached_page_sizes, vec![4096]);
    assert_eq!(s.static_textures.len(), 1);
    assert_eq!(s.static_textures[0].header_file, b"DD".to_vec());
    assert_eq!(s.find_static_texture(1, 5).unwrap().dds_size, 2);
    assert!(Soi::parse(&bytes[..bytes.len() - 1], 0).is_none());
    let mut bad_mode = bytes.clone();
    bad_mode[63] = 7;
    assert!(Soi::parse(&bad_mode, 0).is_none());
    let (mi, n) = ModelInfo::parse(&bytes, 84).unwrap();
    assert_eq!((mi.section_id, mi.component_id, n), (1, 5, 84 + 332));
}

#[test]
fn parameter_text() {
    let mut name = b"Colour".to_vec();
    name.resize(260, 0);
    let mut value = b"red".to_vec();
    value.resize(260, 0);
    let p = StreamingParameter { name, value };
    assert_eq!(p.text(), Some(("Colour".to_string(), "red".to_string())));
}

#[test]
fn table_of_contents_parses() {
    let mut bytes = vec![b's'; 260];
    for v in [1u32, 0, 1, 0, 0, 0] {
        bytes.extend(be32(v));
    }
    for _ in 0..8 {
        bytes.extend(be32(0));
    }
    for _ in 0..6 {
        bytes.extend(be32(0));
    }
    for v in [64u32, 10, 20, 0] {
        bytes.extend(be32(v));
    }
    for v in [10u32, 0, 1, 0, 10] {
        bytes.extend(be32(v));
    }
    let mut path = b"tex\\a".to_vec();
    path.resize(260, 0);
    bytes.extend(path);
    for v in [77u32, 5, 0, 10, 1] {
        bytes.extend(be32(v));
    }
    let toc = Toc::parse(&bytes).unwrap();
    assert_eq!(toc.sections.len(), 1);
    let sec = &toc.sections[0];
    assert_eq!(sec.header.zlib_header.uncached_sizes, vec![10]);
    assert_eq!(sec.cached_components[0].instance_id, 77);
    assert_eq!(sec.cached_components[0].kind, ComponentKind::Texture);
    assert_eq!(toc.find_ids(77), Some((0, 5)));
    assert!(Toc::parse(&bytes[..bytes.len() - 4]).is_none());
    assert_eq!(Toc::parse(&[]).map(|t| t.sections.len()), Some(0));
}
