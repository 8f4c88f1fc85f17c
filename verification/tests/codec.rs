use model_mdx::encoder::error::Error as EncodeError;
use model_mdx::parser::error::MdxParseError;
use model_mdx::parser::primitives::{le_f32, le_i32, le_u16, le_u32, le_u8, parse_all, take, times};
use model_mdx::types::camera::Camera;
use model_mdx::types::chunk::glbs::Glbs;
use model_mdx::types::chunk::mdlx::Mdlx;
use model_mdx::types::chunk::pivt::Pivt;
use model_mdx::types::chunk::utils::{Header, Literal, Tag};
use model_mdx::types::chunk::vers::Vers;
use model_mdx::types::chunk::{encode_chunk, parse_fixed_elements_chunk, Chunk};
use model_mdx::types::collision::CollisionShape;
use model_mdx::types::emitter::quad::{FilterMode as EmitterFilterMode, HeadTail, UnknownHeadTail};
use model_mdx::types::emitter::quad::UnknownFilterMode as EmitterUnknownFilterMode;
use model_mdx::types::geoset::{FaceTypeGroup, Geoset, Skin, UnknownFaceTypeGroup};
use model_mdx::types::layer::{FilterMode, Layer, ShadingFlags, UnknownFilterMode};
use model_mdx::types::light::{LightType, UnknownLightType};
use model_mdx::types::material::Material;
use model_mdx::types::materialize::{
    encode_exclusive_sized, encode_fixed_vec, encode_inclusive_sized, encode_len_vec,
    parse_fixed_vec, parse_inclusive_sized, parse_len_vec, parse_versioned_greater,
    parse_versioned_opt, FloatBits, Materialized,
};
use model_mdx::types::node::{Kgsc, Kgtr, Node, NodeFlags};
use model_mdx::types::texture::TextureAnimation;
use model_mdx::types::tracks::{
    InterpolationType, Track, TrackChunk, UnknownInterpolationType,
};

fn le32(v: u32) -> Vec<u8> {
    v.to_le_bytes().to_vec()
}

fn lit(text: &str, width: usize) -> Vec<u8> {
    let mut bytes = text.as_bytes().to_vec();
    bytes.resize(width, 0);
    bytes
}

fn bits(v: f32) -> FloatBits {
    FloatBits(v.to_bits())
}

fn node_body(blocks: &[u8]) -> Vec<u8> {
    let mut body = lit("Root", 80);
    body.extend(le32(1));
    body.extend(le32(2));
    body.extend(le32(0x108));
    body.extend(blocks);
    body
}

fn sized(body: Vec<u8>) -> Vec<u8> {
    let mut bytes = le32(body.len() as u32 + 4);
    bytes.extend(body);
    bytes
}

fn scalar_track(tag: &[u8; 4], interpolation: u32, values: &[f32]) -> Vec<u8> {
    let mut bytes = tag.to_vec();
    bytes.extend(le32(values.len() as u32));
    bytes.extend(le32(interpolation));
    bytes.extend(le32(0xFFFF_FFFF));
    for (i, v) in values.iter().enumerate() {
        bytes.extend((i as i32 * 10).to_le_bytes());
        bytes.extend(v.to_le_bytes());
    }
    bytes
}

fn vector_track(tag: &[u8; 4], frames: &[(i32, [f32; 3])]) -> Vec<u8> {
    let mut bytes = tag.to_vec();
    bytes.extend(le32(frames.len() as u32));
    bytes.extend(le32(1));
    bytes.extend(le32(0));
    for (frame, value) in frames {
        bytes.extend(frame.to_le_bytes());
        for v in value {
            bytes.extend(v.to_le_bytes());
        }
    }
    bytes
}

#[test]
fn scalars_are_little_endian() {
    let bytes = [0x78, 0x56, 0x34, 0x12, 0xFF];
    assert_eq!(le_u32(&bytes), Ok((&bytes[4..], 0x1234_5678)));
    assert_eq!(le_u16(&bytes), Ok((&bytes[2..], 0x5678)));
    assert_eq!(le_u8(&bytes), Ok((&bytes[1..], 0x78)));
    assert_eq!(le_i32(&[0xFE, 0xFF, 0xFF, 0xFF]), Ok((&[][..], -2)));
    assert_eq!(le_f32(&1.5f32.to_le_bytes()), Ok((&[][..], FloatBits(0x3FC0_0000))));
    let mut out = vec![9];
    0x1234_5678u32.encode(&mut out).unwrap();
    (-2i32).encode(&mut out).unwrap();
    0xABCDu16.encode(&mut out).unwrap();
    7u8.encode(&mut out).unwrap();
    bits(1.5).encode(&mut out).unwrap();
    assert_eq!(
        out,
        vec![9, 0x78, 0x56, 0x34, 0x12, 0xFE, 0xFF, 0xFF, 0xFF, 0xCD, 0xAB, 7, 0, 0, 0xC0, 0x3F]
    );
}

#[test]
fn a_scalar_needs_all_its_bytes() {
    assert_eq!(le_u32(&[1, 2, 3]), Err(MdxParseError::Eof { needed: 4, found: 3 }));
    assert_eq!(le_u16(&[1]), Err(MdxParseError::Eof { needed: 2, found: 1 }));
    assert_eq!(le_u8(&[]), Err(MdxParseError::Eof { needed: 1, found: 0 }));
    assert_eq!(take(3, &[1, 2]), Err(MdxParseError::Eof { needed: 3, found: 2 }));
    assert_eq!(take(2, &[1, 2, 3]), Ok((&[3u8][..], &[1u8, 2][..])));
}

#[test]
fn arrays_are_their_items_in_order() {
    let bytes = [1, 0, 0, 0, 2, 0, 0, 0, 3, 0, 0, 0, 4];
    assert_eq!(times::<3, u32>(&bytes), Ok((&bytes[12..], [1, 2, 3])));
    assert_eq!(<[u32; 2]>::parse(&bytes), Ok((&bytes[8..], [1, 2])));
    assert_eq!(times::<4, u32>(&bytes), Err(MdxParseError::Eof { needed: 4, found: 1 }));
    let mut out = Vec::new();
    [[bits(1.0), bits(2.0)], [bits(3.0), bits(4.0)]].encode(&mut out).unwrap();
    let expected: Vec<u8> = [1.0f32, 2.0, 3.0, 4.0].iter().flat_map(|v| v.to_le_bytes()).collect();
    assert_eq!(out, expected);
}

#[test]
fn tag_parse_expect_and_encode() {
    let kgtr = Tag(*b"KGTR");
    assert_eq!(Tag::parse(b"KGTRxy"), Ok((&b"xy"[..], kgtr)));
    assert_eq!(kgtr.expect(b"KGTRxy"), Ok((&b"xy"[..], kgtr)));
    assert_eq!(
        kgtr.expect(b"KGRTxy"),
        Err(MdxParseError::UnexpectedChunkTag { expected: kgtr, found: Tag(*b"KGRT") })
    );
    assert_eq!(kgtr.expect(b"KGT"), Err(MdxParseError::Eof { needed: 4, found: 3 }));
    assert!(kgtr.same_as(&Kgtr::tag()));
    assert!(!kgtr.same_as(&Kgsc::tag()));
    let mut out = Vec::new();
    kgtr.encode(&mut out).unwrap();
    assert_eq!(out, b"KGTR");
}

#[test]
fn the_text_of_a_tag() {
    assert_eq!(Tag(*b"MDLX").text(), "MDLX");
    assert_eq!(Tag([b'K', b'P', b'2', b'S']).text(), "KP2S");
    assert_eq!(Tag([0, 0, 0, 0]).text(), "\0\0\0\0");
    assert_eq!(Tag([0xFF, 0, 1, 200]).text(), "[255, 0, 1, 200]");
    assert_eq!(Tag([0xC3, 0xA9, b'a', b'b']).text(), "éab");
}

#[test]
fn header_is_tag_and_size() {
    assert_eq!(Header::size(), 8);
    let bytes = [b'V', b'E', b'R', b'S', 4, 1, 0, 0, 0xAA];
    assert_eq!(Header::parse(&bytes), Ok((&bytes[8..], Header { tag: Tag(*b"VERS"), size: 260 })));
    assert_eq!(Vers::expect_header(&bytes), Ok((&bytes[8..], Header { tag: Tag(*b"VERS"), size: 260 })));
    let mut out = Vec::new();
    Header { tag: Tag(*b"VERS"), size: 260 }.encode(&mut out).unwrap();
    assert_eq!(out, &bytes[..8]);
    assert_eq!(Header::parse(&bytes[..7]), Err(MdxParseError::Eof { needed: 4, found: 3 }));
}

#[test]
fn header_expect_mismatch_names_both_tags() {
    let mut bytes = Vec::new();
    Header { tag: Tag(*b"ABCD"), size: 0 }.encode(&mut bytes).unwrap();
    assert_eq!(
        Header::expect(Tag(*b"WXYZ"), &bytes),
        Err(MdxParseError::UnexpectedChunkTag { expected: Tag(*b"WXYZ"), found: Tag(*b"ABCD") })
    );
    assert_eq!(Header::expect(Tag(*b"ABCD"), &bytes), Ok((&[][..], Header { tag: Tag(*b"ABCD"), size: 0 })));
}

#[test]
fn a_size_beyond_u32_is_an_encode_error() {
    let size = u32::MAX as usize + 1;
    let mut out = Vec::new();
    let r = Header { tag: Tag(*b"GEOS"), size }.encode(&mut out);
    assert_eq!(r, Err(EncodeError::SizeUintOverflow(size)));
    let mut out = Vec::new();
    assert_eq!(Vers::encode_header(size, &mut out), Err(EncodeError::SizeUintOverflow(size)));
}

#[test]
fn literal_round_trip() {
    let literal: Literal<10> = Literal { content: "hi".to_string() };
    let mut bytes = Vec::new();
    literal.encode(&mut bytes).unwrap();
    assert_eq!(bytes, vec![b'h', b'i', 0, 0, 0, 0, 0, 0, 0, 0]);
    let (rest, back) = Literal::<10>::parse(&bytes).unwrap();
    assert!(rest.is_empty());
    assert_eq!(back.content, "hi\0\0\0\0\0\0\0\0");
    let mut again = Vec::new();
    back.encode(&mut again).unwrap();
    assert_eq!(again, bytes);
    let (rest, exact) = Literal::<2>::parse(b"hiX").unwrap();
    assert_eq!(rest, b"X");
    assert_eq!(exact.content, "hi");
    let (_, utf8) = Literal::<3>::parse("€".as_bytes()).unwrap();
    assert_eq!(utf8.content, "€");
}

#[test]
fn literal_failures() {
    assert_eq!(
        Literal::<10>::parse(b"short"),
        Err(MdxParseError::TooShortLiteral { expected: 10, found: 5 })
    );
    assert_eq!(Literal::<2>::parse(&[0xC3, 0x28]), Err(MdxParseError::Utf8Conv));
    assert_eq!(Literal::<1>::parse(&[0xFF, b'a']), Err(MdxParseError::Utf8Conv));
    let long: Literal<4> = Literal { content: "hello".to_string() };
    let mut out = Vec::new();
    assert_eq!(long.encode(&mut out), Err(EncodeError::LiteralSizeOverflow { expected: 4, passed: 5 }));
    let wide: Literal<2> = Literal { content: "€".to_string() };
    assert_eq!(wide.encode(&mut out), Err(EncodeError::LiteralSizeOverflow { expected: 2, passed: 3 }));
}

#[test]
fn a_literal_that_does_not_fit_leaves_the_output() {
    let literal: Literal<1> = Literal { content: "\u{e9}".to_string() };
    let mut out = vec![7];
    assert_eq!(
        literal.encode(&mut out),
        Err(EncodeError::LiteralSizeOverflow { expected: 1, passed: 2 })
    );
    assert_eq!(out, vec![7]);
    let fits: Literal<3> = Literal { content: "\u{e9}".to_string() };
    assert_eq!(fits.encode(&mut out), Ok(()));
    assert_eq!(out, vec![7, 0xC3, 0xA9, 0]);
}

#[test]
fn a_record_that_fails_writes_nothing() {
    let node = Node {
        name: Literal { content: "x".repeat(81) },
        object_id: 1,
        parent_id: 2,
        flags: NodeFlags { bits: 0 },
        kgtr: None,
        kgrt: None,
        kgsc: None,
        ordered: None,
    };
    let failure = Err(EncodeError::LiteralSizeOverflow { expected: 80, passed: 81 });
    let mut out = vec![1, 2];
    assert_eq!(node.encode(&mut out), failure);
    assert_eq!(out, vec![1, 2]);
    assert_eq!(encode_inclusive_sized(&mut out, &node), failure);
    assert_eq!(out, vec![1, 2]);
    assert_eq!(encode_exclusive_sized(&mut out, &node), failure);
    assert_eq!(out, vec![1, 2]);
}

#[test]
fn twelve_is_written_lowest_byte_first() {
    let mut out = Vec::new();
    12u32.encode(&mut out).unwrap();
    assert_eq!(out, vec![0x0C, 0, 0, 0]);
    0x0102u16.encode(&mut out).unwrap();
    assert_eq!(out, vec![0x0C, 0, 0, 0, 2, 1]);
    assert_eq!(le_u32(&[0x0C, 0, 0, 0]), Ok((&[][..], 12)));
    assert_eq!(le_u32(&[0, 0, 0, 0x80]), Ok((&[][..], 0x8000_0000)));
    assert_eq!(le_i32(&[0, 0, 0, 0x80]), Ok((&[][..], i32::MIN)));
}

#[test]
fn vectors_with_and_without_count() {
    let bytes = [2, 0, 0, 0, 7, 0, 8, 0, 9];
    assert_eq!(parse_len_vec::<u16>(None, &bytes), Ok((&bytes[8..], vec![7, 8])));
    assert_eq!(parse_fixed_vec::<u16>(2, &bytes[4..]), Ok((&bytes[8..], vec![7, 8])));
    assert_eq!(parse_fixed_vec::<u16>(0, &bytes), Ok((&bytes[..], vec![])));
    assert_eq!(parse_len_vec::<u32>(None, &bytes), Err(MdxParseError::Eof { needed: 4, found: 1 }));
    assert_eq!(parse_all::<u16>(None, &bytes[..8]), Ok((&[][..], vec![2, 0, 7, 8])));
    assert_eq!(parse_all::<u16>(None, &bytes), Err(MdxParseError::Eof { needed: 2, found: 1 }));
    let mut out = Vec::new();
    encode_len_vec(&[7u16, 8], &mut out).unwrap();
    assert_eq!(out, &bytes[..8]);
    let mut out = Vec::new();
    encode_fixed_vec(&[7u16, 8], &mut out).unwrap();
    assert_eq!(out, &bytes[4..8]);
}

#[test]
fn values_that_only_later_versions_have() {
    let bytes = [5, 0, 0, 0, 1];
    assert_eq!(parse_versioned_greater::<u32>(Some(900), 800, &bytes), Ok((&bytes[4..], Some(5))));
    assert_eq!(parse_versioned_greater::<u32>(Some(801), 800, &bytes), Ok((&bytes[4..], Some(5))));
    assert_eq!(parse_versioned_greater::<u32>(Some(800), 800, &bytes), Ok((&bytes[..], None)));
    assert_eq!(parse_versioned_greater::<u32>(Some(700), 800, &bytes), Ok((&bytes[..], None)));
    assert_eq!(parse_versioned_greater::<u32>(None, 800, &bytes), Ok((&bytes[..], None)));
    assert_eq!(
        parse_versioned_greater::<u32>(Some(900), 800, &bytes[..2]),
        Err(MdxParseError::Eof { needed: 4, found: 2 })
    );
    assert_eq!(parse_versioned_opt::<u32>(Some(1), &bytes), Ok((&bytes[4..], Some(5))));
    assert_eq!(parse_versioned_opt::<u32>(None, &bytes), Ok((&bytes[..], None)));
}

#[test]
fn inclusive_size_bounds() {
    // exactly four: an empty record, and what follows is left
    let (rest, empty) = TextureAnimation::parse(&[4, 0, 0, 0, 0xEE]).unwrap();
    assert_eq!(rest, &[0xEE]);
    assert_eq!(empty, TextureAnimation { ktat: None, ktar: None, ktas: None, ordered: Some(vec![]) });
    assert_eq!(
        TextureAnimation::parse(&[3, 0, 0, 0, 0, 0]),
        Err(MdxParseError::InclusiveSizeTooSmall { size: 3 })
    );
    assert_eq!(
        TextureAnimation::parse(&[0, 0, 0, 0]),
        Err(MdxParseError::InclusiveSizeTooSmall { size: 0 })
    );
    assert_eq!(
        TextureAnimation::parse(&[9, 0, 0, 0, 1, 2, 3, 4]),
        Err(MdxParseError::InclusiveSizeNotEhoughInput { size: 9, input: 4 })
    );
    assert_eq!(TextureAnimation::parse(&[4, 0]), Err(MdxParseError::Eof { needed: 4, found: 2 }));
    assert_eq!(
        parse_inclusive_sized::<TextureAnimation>(None, &[4, 0, 0, 0]).map(|(rest, _)| rest.len()),
        Ok(0)
    );
}

#[test]
fn an_inclusive_record_has_to_use_its_span() {
    // a material whose span holds two bytes more than its fields
    let mut body = le32(0);
    body.extend(le32(0));
    body.extend(b"LAYS");
    body.extend(le32(0));
    body.extend([1, 2]);
    assert_eq!(
        Material::parse(&sized(body)),
        Err(MdxParseError::InclusiveLeftover { input: 2 })
    );
}

#[test]
fn inclusive_and_exclusive_sizes_are_written() {
    let animation = TextureAnimation { ktat: None, ktar: None, ktas: None, ordered: None };
    let mut out = vec![0xAA];
    encode_inclusive_sized(&mut out, &animation).unwrap();
    assert_eq!(out, vec![0xAA, 4, 0, 0, 0]);
    let node = Node {
        name: Literal { content: "Root".to_string() },
        object_id: 1,
        parent_id: 2,
        flags: NodeFlags { bits: 0x108 },
        kgtr: None,
        kgrt: None,
        kgsc: None,
        ordered: None,
    };
    let mut out = Vec::new();
    encode_inclusive_sized(&mut out, &node).unwrap();
    assert_eq!(out, sized(node_body(&[])));
    assert_eq!(out.len(), 96);
    let mut out = Vec::new();
    encode_exclusive_sized(&mut out, &node).unwrap();
    let mut expected = le32(92);
    expected.extend(node_body(&[]));
    assert_eq!(out, expected);
}

#[test]
fn node_blocks_keep_their_order() {
    let blocks = [
        vector_track(b"KGSC", &[(0, [1.0, 1.0, 1.0])]),
        vector_track(b"KGTR", &[(0, [0.0, 0.0, 0.0]), (100, [5.0, 0.0, 0.0])]),
    ]
    .concat();
    let bytes = sized(node_body(&blocks));
    let (rest, node) = Node::parse(&bytes).unwrap();
    assert!(rest.is_empty());
    assert_eq!(node.name.content.trim_end_matches('\0'), "Root");
    assert_eq!((node.object_id, node.parent_id, node.flags), (1, 2, NodeFlags { bits: 0x108 }));
    assert_eq!(node.ordered, Some(vec![Tag(*b"KGSC"), Tag(*b"KGTR")]));
    let kgtr = node.kgtr.as_ref().unwrap();
    assert_eq!(kgtr.0.interpolation_type, InterpolationType::Linear);
    assert_eq!(
        kgtr.0.tracks[1],
        Track::Linear { frame: 100, value: [bits(5.0), bits(0.0), bits(0.0)] }
    );
    let mut out = Vec::new();
    node.encode(&mut out).unwrap();
    assert_eq!(out, bytes);

    // without a recorded order the blocks are written in the order of the fields
    let mut by_hand = node.clone();
    by_hand.ordered = None;
    let mut out = Vec::new();
    by_hand.encode(&mut out).unwrap();
    let canonical = [
        vector_track(b"KGTR", &[(0, [0.0, 0.0, 0.0]), (100, [5.0, 0.0, 0.0])]),
        vector_track(b"KGSC", &[(0, [1.0, 1.0, 1.0])]),
    ]
    .concat();
    assert_eq!(out, sized(node_body(&canonical)));

    // a tag of the order whose block is absent, or that is no block, is passed over
    let mut odd = node.clone();
    odd.kgsc = None;
    odd.ordered = Some(vec![Tag(*b"KGSC"), Tag(*b"ABCD"), Tag(*b"KGTR")]);
    let mut out = Vec::new();
    odd.encode(&mut out).unwrap();
    assert_eq!(
        out,
        sized(node_body(&vector_track(b"KGTR", &[(0, [0.0, 0.0, 0.0]), (100, [5.0, 0.0, 0.0])])))
    );
}

#[test]
fn a_block_that_comes_twice_is_kept_once() {
    let blocks = [
        vector_track(b"KGTR", &[(0, [1.0, 1.0, 1.0])]),
        vector_track(b"KGTR", &[(0, [2.0, 2.0, 2.0])]),
    ]
    .concat();
    let (_, node) = Node::parse(&sized(node_body(&blocks))).unwrap();
    assert_eq!(node.ordered, Some(vec![Tag(*b"KGTR"), Tag(*b"KGTR")]));
    assert_eq!(
        node.kgtr.unwrap().0.tracks,
        vec![Track::Linear { frame: 0, value: [bits(2.0), bits(2.0), bits(2.0)] }]
    );
}

#[test]
fn an_unknown_block_is_fatal_where_nothing_can_follow() {
    let bytes = sized(node_body(b"KXYZ\0\0\0\0"));
    assert_eq!(Node::parse(&bytes), Err(MdxParseError::UnknownTag(Tag(*b"KXYZ"))));
    let bytes = sized(node_body(b"KG"));
    assert_eq!(Node::parse(&bytes), Err(MdxParseError::Eof { needed: 4, found: 2 }));
}

#[test]
fn tracks_with_tangents() {
    let mut bytes = b"KMTA".to_vec();
    bytes.extend(le32(1));
    bytes.extend(le32(2));
    bytes.extend(le32(3));
    bytes.extend((-5i32).to_le_bytes());
    for v in [1.0f32, 2.0, 3.0] {
        bytes.extend(v.to_le_bytes());
    }
    let (rest, chunk) = TrackChunk::<FloatBits>::parse(&bytes).unwrap();
    assert!(rest.is_empty());
    assert_eq!(
        chunk,
        TrackChunk {
            tag: Tag(*b"KMTA"),
            interpolation_type: InterpolationType::Hermite,
            global_sequence_id: 3,
            tracks: vec![Track::Complex {
                frame: -5,
                value: bits(1.0),
                in_tan: bits(2.0),
                out_tan: bits(3.0),
            }],
        }
    );
    let mut out = Vec::new();
    chunk.encode(&mut out).unwrap();
    assert_eq!(out, bytes);
    let linear = Track::<u32>::parse_versioned(Some(InterpolationType::Linear), &bytes[16..]).unwrap();
    assert_eq!(linear.1, Track::Linear { frame: -5, value: 1.0f32.to_bits() });
    assert_eq!(linear.0.len(), 8);
    let none = Track::<u32>::parse(&bytes[16..]).unwrap();
    assert_eq!(none.1, Track::Linear { frame: -5, value: 1.0f32.to_bits() });
    let bezier = Track::<u32>::parse_versioned(Some(InterpolationType::Bezier), &bytes[16..]).unwrap();
    assert!(bezier.0.is_empty());
}

#[test]
fn codes_of_the_closed_sets() {
    assert_eq!(InterpolationType::try_from(0), Ok(InterpolationType::NoInterp));
    assert_eq!(InterpolationType::try_from(3), Ok(InterpolationType::Bezier));
    assert_eq!(InterpolationType::try_from(4), Err(UnknownInterpolationType(4)));
    assert_eq!(InterpolationType::Hermite.code(), 2);
    assert_eq!(FilterMode::try_from(6), Ok(FilterMode::Modulate2x));
    assert_eq!(FilterMode::try_from(7), Err(UnknownFilterMode(7)));
    assert_eq!(FilterMode::NoFilter.code(), 0);
    assert_eq!(EmitterFilterMode::try_from(4), Ok(EmitterFilterMode::AlphaKey));
    assert_eq!(EmitterFilterMode::try_from(5), Err(EmitterUnknownFilterMode(5)));
    assert_eq!(HeadTail::try_from(2), Ok(HeadTail::Both));
    assert_eq!(HeadTail::try_from(3), Err(UnknownHeadTail(3)));
    assert_eq!(FaceTypeGroup::try_from(9), Ok(FaceTypeGroup::Polygons));
    assert_eq!(FaceTypeGroup::try_from(10), Err(UnknownFaceTypeGroup(10)));
    assert_eq!(FaceTypeGroup::Triangles.code(), 4);
    assert_eq!(LightType::try_from(1), Ok(LightType::Directional));
    assert_eq!(LightType::try_from(3), Err(UnknownLightType(3)));
    let mut out = Vec::new();
    FaceTypeGroup::Quads.encode(&mut out).unwrap();
    assert_eq!(out, vec![7, 0, 0, 0]);
    assert_eq!(FaceTypeGroup::parse(&out), Ok((&[][..], FaceTypeGroup::Quads)));
}

#[test]
fn unknown_codes_are_reported() {
    assert_eq!(
        InterpolationType::parse(&le32(9)),
        Err(MdxParseError::UnknownInterpolationType(UnknownInterpolationType(9)))
    );
    assert_eq!(
        FilterMode::parse(&le32(7)),
        Err(MdxParseError::UnknownLayerFilterMode(UnknownFilterMode(7)))
    );
    assert_eq!(
        EmitterFilterMode::parse(&le32(5)),
        Err(MdxParseError::UnknownEmitterFilterMode(EmitterUnknownFilterMode(5)))
    );
    assert_eq!(HeadTail::parse(&le32(3)), Err(MdxParseError::UnknownHeadTail(UnknownHeadTail(3))));
    assert_eq!(
        FaceTypeGroup::parse(&le32(10)),
        Err(MdxParseError::UnknownFaceTypeGroup(UnknownFaceTypeGroup(10)))
    );
    assert_eq!(LightType::parse(&le32(3)), Err(MdxParseError::UnknownLightType(UnknownLightType(3))));
    let mut shape = sized(node_body(&[]));
    shape.extend(le32(4));
    assert_eq!(CollisionShape::parse(&shape), Err(MdxParseError::UnknownCollisionShape { tag: 4 }));
    // a layer with an unknown filter mode
    let mut body = le32(8);
    body.extend([0u8; 20]);
    assert_eq!(
        Layer::parse(&sized(body)),
        Err(MdxParseError::UnknownLayerFilterMode(UnknownFilterMode(8)))
    );
}

#[test]
fn header_framing_of_fixed_elements() {
    let glbs = Glbs { global_sequences: vec![10, 20, 30] };
    let mut bytes = Vec::new();
    glbs.encode(&mut bytes).unwrap();
    let (body, header) = Header::parse(&bytes).unwrap();
    assert_eq!(header, Header { tag: Tag(*b"GLBS"), size: 3 * 4 });
    assert_eq!(body.len(), 12);
    assert_eq!(Glbs::parse(&bytes), Ok((&[][..], glbs)));
    let pivt = Pivt { points: vec![[bits(1.0), bits(2.0), bits(3.0)]; 5] };
    let mut bytes = Vec::new();
    pivt.encode(&mut bytes).unwrap();
    assert_eq!(Header::parse(&bytes).unwrap().1.size, 5 * 12);
    assert_eq!(bytes.len(), 8 + 60);
    bytes.push(0xEE);
    let (rest, back) = parse_fixed_elements_chunk::<12, Pivt, [FloatBits; 3]>(&bytes).unwrap();
    assert_eq!(rest, &[0xEE]);
    assert_eq!(back.len(), 5);
    assert_eq!(back, pivt.points);
    // a size that is no multiple of the width is rounded down
    let odd = [b"GLBS".to_vec(), le32(6), vec![1, 0, 0, 0, 9, 9]].concat();
    let (rest, glbs) = Glbs::parse(&odd).unwrap();
    assert_eq!(glbs.global_sequences, vec![1]);
    assert_eq!(rest, &[9, 9]);
    let mut out = Vec::new();
    encode_chunk::<Glbs>(&mut out, vec![1, 2, 3]).unwrap();
    assert_eq!(out, [b"GLBS".to_vec(), le32(3), vec![1, 2, 3]].concat());
}

#[test]
fn the_version_decides_the_layout_of_a_material() {
    let shader: Literal<80> = Literal { content: String::from_utf8(lit("Shader_SD", 80)).unwrap() };
    let with_shader =
        Material { priority_plane: 1, flags: 2, shader: Some(shader), layers: vec![] };
    let mut bytes = Vec::new();
    with_shader.encode(&mut bytes).unwrap();
    assert_eq!(
        bytes,
        sized([le32(1), le32(2), lit("Shader_SD", 80), b"LAYS".to_vec(), le32(0)].concat())
    );
    assert_eq!(Material::parse_versioned(Some(900), &bytes), Ok((&[][..], with_shader)));
    // at a version that has no shader the tag of the layers is expected in its place
    assert_eq!(
        Material::parse_versioned(Some(700), &bytes),
        Err(MdxParseError::UnexpectedChunkTag { expected: Tag(*b"LAYS"), found: Tag(*b"Shad") })
    );
    let without = Material { priority_plane: 1, flags: 2, shader: None, layers: vec![] };
    let mut bytes = Vec::new();
    without.encode(&mut bytes).unwrap();
    assert_eq!(bytes, sized([le32(1), le32(2), b"LAYS".to_vec(), le32(0)].concat()));
    assert_eq!(Material::parse_versioned(Some(700), &bytes), Ok((&[][..], without.clone())));
    assert_eq!(Material::parse(&bytes), Ok((&[][..], without.clone())));
    assert_eq!(Material::parse_versioned(Some(800), &bytes), Ok((&[][..], without)));
    assert!(Material::parse_versioned(Some(900), &bytes).is_err());
}

#[test]
fn the_version_decides_the_layout_of_a_layer() {
    let fields = [le32(1), le32(0x10), le32(3), le32(4), le32(5), 0.5f32.to_le_bytes().to_vec()].concat();
    let extra: Vec<u8> = [1.0f32, 2.0, 3.0, 4.0, 5.0, 6.0].iter().flat_map(|v| v.to_le_bytes()).collect();
    let track = scalar_track(b"KMTE", 0, &[0.5]);
    let old = sized([fields.clone(), track.clone()].concat());
    let new = sized([fields, extra, track].concat());
    let (_, layer) = Layer::parse_versioned(Some(700), &old).unwrap();
    assert!(layer.extra.is_none());
    assert_eq!(layer.filter_mode, FilterMode::Transparent);
    assert_eq!(layer.shading_flags, ShadingFlags { bits: 0x10 });
    assert_eq!(layer.alpha, bits(0.5));
    assert_eq!(layer.ordered, Some(vec![Tag(*b"KMTE")]));
    let (_, none) = Layer::parse(&old).unwrap();
    assert_eq!(none, layer);
    let (_, layer) = Layer::parse_versioned(Some(900), &new).unwrap();
    let ext = layer.extra.as_ref().unwrap();
    assert_eq!(ext.emissive_gain, bits(1.0));
    assert_eq!(ext.fresnel_color, [bits(2.0), bits(3.0), bits(4.0)]);
    assert_eq!((ext.fresnel_opacity, ext.fresnel_team_color), (bits(5.0), bits(6.0)));
    let mut out = Vec::new();
    layer.encode(&mut out).unwrap();
    assert_eq!(out, new);
    // the fresnel team color has a tag of its own
    let kftc = sized([new[4..52].to_vec(), scalar_track(b"KFTC", 0, &[1.0]), scalar_track(b"KFCA", 0, &[2.0])].concat());
    let (_, layer) = Layer::parse_versioned(Some(1000), &kftc).unwrap();
    assert_eq!(layer.kftc.as_ref().unwrap().0.tracks.len(), 1);
    assert_eq!(layer.kfca.as_ref().unwrap().0.tracks[0], Track::Linear { frame: 0, value: bits(2.0) });
    assert_eq!(layer.ordered, Some(vec![Tag(*b"KFTC"), Tag(*b"KFCA")]));
}

#[test]
fn the_blocks_of_a_geoset_end_at_the_next_tag() {
    let mut body = Vec::new();
    for tag in [b"VRTX", b"NRMS", b"PTYP", b"PCNT", b"PVTX", b"GNDX", b"MTGC", b"MATS"] {
        body.extend(*tag);
        body.extend(le32(0));
    }
    body.extend([le32(1), le32(2), le32(3)].concat());
    body.extend([0u8; 28]);
    body.extend(le32(0));
    let head = body.clone();
    body.extend(b"SKIN");
    body.extend(le32(2));
    body.extend([7, 8]);
    body.extend(b"UVAS");
    body.extend(le32(0));
    let bytes = sized(body);
    let (rest, geoset) = Geoset::parse(&bytes).unwrap();
    assert!(rest.is_empty());
    assert_eq!(geoset.skin, Some(Skin { skin: vec![7, 8] }));
    assert!(geoset.tangents.is_none());
    assert_eq!(geoset.ordered, Some(vec![Tag(*b"SKIN")]));
    assert_eq!((geoset.material_id, geoset.selection_group, geoset.selection_flags), (1, 2, 3));
    let mut out = Vec::new();
    geoset.encode(&mut out).unwrap();
    assert_eq!(out, bytes);
    // a tag that is neither a block nor the expected one is left to the enclosing grammar
    let mut broken = head;
    broken.extend(b"ABCD");
    assert_eq!(
        Geoset::parse(&sized(broken)),
        Err(MdxParseError::UnexpectedChunkTag { expected: Tag(*b"UVAS"), found: Tag(*b"ABCD") })
    );
}

#[test]
fn a_camera_written_by_hand() {
    let camera = Camera {
        name: Literal { content: "Cam".to_string() },
        position: [bits(1.0), bits(2.0), bits(3.0)],
        field_of_view: bits(0.5),
        far_clipping_plane: bits(1000.0),
        near_clipping_plane: bits(1.0),
        target_position: [bits(0.0); 3],
        kctr: None,
        kttr: None,
        kcrl: None,
        ordered: None,
    };
    let mut bytes = Vec::new();
    camera.encode(&mut bytes).unwrap();
    assert_eq!(bytes.len(), 4 + 80 + 12 + 12 + 12);
    assert_eq!(&bytes[..8], &[120, 0, 0, 0, b'C', b'a', b'm', 0]);
    let (_, back) = Camera::parse(&bytes).unwrap();
    assert_eq!(back.position, camera.position);
    assert_eq!(back.name.content.len(), 80);
    assert_eq!(back.ordered, Some(vec![]));
}

#[test]
fn a_well_formed_model_written_by_hand_is_parsed_back() {
    let name = |text: &str| Literal { content: String::from_utf8(lit(text, 80)).unwrap() };
    let track = TrackChunk {
        tag: Tag(*b"KGTR"),
        interpolation_type: InterpolationType::Bezier,
        global_sequence_id: 1,
        tracks: vec![Track::Complex {
            frame: 3,
            value: [bits(1.0), bits(2.0), bits(3.0)],
            in_tan: [bits(0.0); 3],
            out_tan: [bits(9.0); 3],
        }],
    };
    let node = Node {
        name: name("Helper"),
        object_id: 5,
        parent_id: 0,
        flags: NodeFlags { bits: 0 },
        kgtr: Some(Kgtr(track)),
        kgrt: None,
        kgsc: None,
        ordered: Some(vec![Tag(*b"KGTR")]),
    };
    let mut bytes = Vec::new();
    node.encode(&mut bytes).unwrap();
    assert_eq!(Node::parse_versioned(Some(800), &bytes), Ok((&[][..], node.clone())));
    let mut root = Mdlx::new();
    root.help = Some(model_mdx::types::chunk::help::Help { helpers: vec![node.clone(), node] });
    root.glbs = Some(Glbs { global_sequences: vec![7] });
    root.vers = Some(Vers { version: 800 });
    root.ordered = Some(vec![Tag(*b"HELP"), Tag(*b"VERS"), Tag(*b"GLBS")]);
    let mut bytes = Vec::new();
    root.encode(&mut bytes).unwrap();
    let (rest, back) = Mdlx::parse(&bytes).unwrap();
    assert!(rest.is_empty());
    assert_eq!(back, root);
}

#[test]
fn a_model_written_by_hand_uses_the_order_of_the_fields() {
    let mut root = Mdlx::new();
    assert_eq!(root.ordered, None);
    root.pivt = Some(Pivt { points: vec![] });
    root.vers = Some(Vers { version: 800 });
    let mut bytes = Vec::new();
    root.encode(&mut bytes).unwrap();
    assert_eq!(
        bytes,
        [b"MDLX".to_vec(), b"VERS".to_vec(), le32(4), le32(800), b"PIVT".to_vec(), le32(0)].concat()
    );
    root.ordered = Some(vec![Tag(*b"PIVT"), Tag(*b"VERS"), Tag(*b"GLBS")]);
    let mut bytes = Vec::new();
    root.encode(&mut bytes).unwrap();
    assert_eq!(
        bytes,
        [b"MDLX".to_vec(), b"PIVT".to_vec(), le32(0), b"VERS".to_vec(), le32(4), le32(800)].concat()
    );
    assert_eq!(Mdlx::parse(&bytes).unwrap().1.ordered, Some(vec![Tag(*b"PIVT"), Tag(*b"VERS")]));
}

#[test]
fn the_version_chunk_reaches_the_chunks_behind_it() {
    let shader = lit("Shader", 80);
    let material = sized([le32(0), le32(0), shader, b"LAYS".to_vec(), le32(0)].concat());
    let mtls = [b"MTLS".to_vec(), le32(material.len() as u32), material].concat();
    let vers = [b"VERS".to_vec(), le32(4), le32(900)].concat();
    let after = [b"MDLX".to_vec(), vers.clone(), mtls.clone()].concat();
    let (_, root) = Mdlx::parse(&after).unwrap();
    assert!(root.mtls.unwrap().materials[0].shader.is_some());
    // before the version chunk no version is known, and no shader is expected
    let before = [b"MDLX".to_vec(), mtls.clone(), vers].concat();
    assert!(Mdlx::parse(&before).is_err());
    // a version that is handed in holds until a version chunk is read
    let bare = [b"MDLX".to_vec(), mtls].concat();
    assert!(Mdlx::parse_versioned(Some(900), &bare).is_ok());
    assert!(Mdlx::parse_versioned(Some(800), &bare).is_err());
}
