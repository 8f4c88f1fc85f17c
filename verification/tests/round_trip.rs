use model_mdx::parser::error::{Error, MdxParseError};
use model_mdx::parser::parse_mdx;
use model_mdx::types::chunk::utils::Tag;
use model_mdx::types::MdxModel;

fn le32(v: u32) -> Vec<u8> {
    v.to_le_bytes().to_vec()
}

fn fl(v: f32) -> Vec<u8> {
    v.to_le_bytes().to_vec()
}

fn fls(vs: &[f32]) -> Vec<u8> {
    vs.iter().flat_map(|v| v.to_le_bytes()).collect()
}

fn lit(text: &str, width: usize) -> Vec<u8> {
    let mut bytes = text.as_bytes().to_vec();
    bytes.resize(width, 0);
    bytes
}

fn cat(parts: &[Vec<u8>]) -> Vec<u8> {
    parts.concat()
}

fn chunk(tag: &[u8; 4], body: Vec<u8>) -> Vec<u8> {
    cat(&[tag.to_vec(), le32(body.len() as u32), body])
}

fn inclusive(body: Vec<u8>) -> Vec<u8> {
    cat(&[le32(body.len() as u32 + 4), body])
}

fn counted(items: &[Vec<u8>]) -> Vec<u8> {
    cat(&[le32(items.len() as u32), items.concat()])
}

/// A track of `width` floats per value; with tangents if the interpolation
/// code is 2 or 3.
fn track(tag: &[u8; 4], interpolation: u32, width: usize, frames: &[i32]) -> Vec<u8> {
    let mut bytes = cat(&[tag.to_vec(), le32(frames.len() as u32), le32(interpolation), le32(7)]);
    for (i, frame) in frames.iter().enumerate() {
        bytes.extend(frame.to_le_bytes());
        let values = if interpolation > 1 { 3 } else { 1 };
        for k in 0..values * width {
            bytes.extend(fl(i as f32 + 0.25 * k as f32));
        }
    }
    bytes
}

fn extent() -> Vec<u8> {
    cat(&[fl(10.5), fls(&[-1.0, -2.0, -3.0]), fls(&[1.0, 2.0, 3.0])])
}

fn node(name: &str, object_id: u32, blocks: Vec<u8>) -> Vec<u8> {
    inclusive(cat(&[lit(name, 80), le32(object_id), le32(0xFFFF_FFFF), le32(0x100), blocks]))
}

fn layer(version: u32, blocks: Vec<u8>) -> Vec<u8> {
    let mut body = cat(&[le32(2), le32(0x11), le32(0), le32(0xFFFF_FFFF), le32(0), fl(0.75)]);
    if version > 800 {
        body.extend(cat(&[fl(1.0), fls(&[0.1, 0.2, 0.3]), fl(0.5), fl(0.0)]));
    }
    body.extend(blocks);
    inclusive(body)
}

fn material(version: u32) -> Vec<u8> {
    let mut body = cat(&[le32(3), le32(1)]);
    if version > 800 {
        body.extend(lit("Shader_HD_DefaultUnit", 80));
    }
    body.extend(b"LAYS");
    body.extend(counted(&[
        layer(version, cat(&[track(b"KMTA", 1, 1, &[0, 10]), track(b"KMTF", 0, 1, &[5])])),
        layer(version, Vec::new()),
    ]));
    inclusive(body)
}

fn geoset(version: u32) -> Vec<u8> {
    let mut body = Vec::new();
    body.extend(b"VRTX");
    body.extend(counted(&[fls(&[0.0, 0.0, 0.0]), fls(&[1.0, 0.0, 0.0]), fls(&[0.0, 1.0, 0.0])]));
    body.extend(b"NRMS");
    body.extend(counted(&[fls(&[0.0, 0.0, 1.0]), fls(&[0.0, 0.0, 1.0]), fls(&[0.0, 0.0, 1.0])]));
    body.extend(b"PTYP");
    body.extend(counted(&[le32(4)]));
    body.extend(b"PCNT");
    body.extend(counted(&[le32(3)]));
    body.extend(b"PVTX");
    body.extend(counted(&[vec![0, 0], vec![1, 0], vec![2, 0]]));
    body.extend(b"GNDX");
    body.extend(counted(&[vec![0], vec![0], vec![0]]));
    body.extend(b"MTGC");
    body.extend(counted(&[le32(1)]));
    body.extend(b"MATS");
    body.extend(counted(&[le32(0)]));
    body.extend(cat(&[le32(0), le32(0), le32(4)]));
    if version > 800 {
        body.extend(cat(&[le32(1), lit("lod1", 80)]));
    }
    body.extend(extent());
    body.extend(counted(&[extent(), extent()]));
    if version > 800 {
        body.extend(b"SKIN");
        body.extend(counted(&[vec![1], vec![2], vec![3], vec![4]]));
        body.extend(b"TANG");
        body.extend(counted(&[fls(&[1.0, 0.0, 0.0, 1.0])]));
    }
    body.extend(b"UVAS");
    body.extend(counted(&[
        cat(&[b"UVBS".to_vec(), counted(&[fls(&[0.0, 0.0]), fls(&[1.0, 0.0]), fls(&[0.0, 1.0])])]),
    ]));
    inclusive(body)
}

fn sequence(name: &str, from: u32, to: u32) -> Vec<u8> {
    cat(&[lit(name, 80), le32(from), le32(to), fl(0.0), le32(1), fl(0.0), le32(0), extent()])
}

fn light() -> Vec<u8> {
    inclusive(cat(&[
        node("Omni01", 4, Vec::new()),
        le32(0),
        fl(80.0),
        fl(200.0),
        fls(&[1.0, 1.0, 1.0]),
        fl(1.0),
        fls(&[0.5, 0.5, 0.5]),
        fl(0.0),
        track(b"KLAV", 0, 1, &[0]),
        track(b"KLAC", 2, 3, &[0, 33]),
    ]))
}

fn camera() -> Vec<u8> {
    inclusive(cat(&[
        lit("Camera01", 80),
        fls(&[100.0, 0.0, 50.0]),
        fl(0.78),
        fl(1000.0),
        fl(8.0),
        fls(&[0.0, 0.0, 40.0]),
        track(b"KCRL", 1, 1, &[0]),
        track(b"KCTR", 1, 3, &[0, 100]),
    ]))
}

fn attachment() -> Vec<u8> {
    inclusive(cat(&[
        node("Origin Ref", 5, Vec::new()),
        lit("", 260),
        le32(0),
        track(b"KATV", 0, 1, &[0, 1]),
    ]))
}

fn particle_emitter() -> Vec<u8> {
    inclusive(cat(&[
        node("Emitter", 6, Vec::new()),
        fls(&[10.0, 0.0, 0.1, 0.2]),
        lit("Spawn.mdl", 260),
        fls(&[2.0, 30.0]),
        track(b"KPEV", 0, 1, &[0]),
        track(b"KPEE", 1, 1, &[0]),
    ]))
}

fn particle_emitter2() -> Vec<u8> {
    inclusive(cat(&[
        node("BlizParticle", 7, Vec::new()),
        fls(&[1.0, 2.0, 3.0, 4.0, 5.0, 6.0, 7.0, 8.0]),
        le32(1),
        le32(4),
        le32(4),
        le32(2),
        fls(&[0.5, 0.25]),
        fls(&[1.0, 0.0, 0.0, 0.0, 1.0, 0.0, 0.0, 0.0, 1.0]),
        vec![255, 128, 0],
        fls(&[1.0, 2.0, 3.0]),
        cat(&[le32(0), le32(1), le32(2)]),
        cat(&[le32(3), le32(4), le32(5)]),
        cat(&[le32(6), le32(7), le32(8)]),
        cat(&[le32(9), le32(10), le32(11)]),
        le32(0),
        le32(0),
        le32(0),
        le32(0),
        track(b"KP2N", 0, 1, &[0]),
        track(b"KP2V", 0, 1, &[0, 5]),
        track(b"KP2S", 3, 1, &[0]),
    ]))
}

fn ribbon_emitter() -> Vec<u8> {
    inclusive(cat(&[
        node("Ribbon", 8, Vec::new()),
        fls(&[10.0, 10.0, 1.0]),
        fls(&[1.0, 1.0, 1.0]),
        fl(1.0),
        cat(&[le32(0), le32(10), le32(1), le32(1), le32(0)]),
        fl(0.0),
        track(b"KRTX", 0, 1, &[0]),
        track(b"KRVS", 0, 1, &[0]),
    ]))
}

fn event_object() -> Vec<u8> {
    cat(&[node("SNDxFOOT", 9, Vec::new()), b"KEVT".to_vec(), le32(2), le32(0xFFFF_FFFF), le32(10), le32(20)])
}

fn collision_shapes() -> Vec<u8> {
    cat(&[
        node("Cube", 10, Vec::new()),
        le32(0),
        fls(&[0.0, 0.0, 0.0, 1.0, 1.0, 1.0]),
        node("Sphere", 11, Vec::new()),
        le32(2),
        fls(&[0.0, 0.0, 0.0]),
        fl(25.0),
        node("Cylinder", 12, Vec::new()),
        le32(3),
        fls(&[0.0, 0.0, 0.0, 0.0, 0.0, 9.0]),
        fl(2.5),
        node("Plane", 13, Vec::new()),
        le32(1),
        fls(&[0.0, 0.0, 0.0, 5.0, 5.0, 0.0]),
    ])
}

fn bone() -> Vec<u8> {
    cat(&[
        node("Bone_Root", 0, cat(&[track(b"KGRT", 2, 4, &[0, 10]), track(b"KGTR", 1, 3, &[0])])),
        le32(0),
        le32(0xFFFF_FFFF),
    ])
}

fn model_chunk() -> Vec<u8> {
    chunk(b"MODL", cat(&[lit("Footman", 80), lit("", 260), extent(), le32(150)]))
}

/// A file at the given version with the chunks in the order of the format.
fn sample_in_order(version: u32) -> Vec<u8> {
    cat(&[
        b"MDLX".to_vec(),
        chunk(b"VERS", le32(version)),
        model_chunk(),
        chunk(b"SEQS", cat(&[sequence("Stand", 0, 1000), sequence("Walk", 1100, 2000)])),
        chunk(b"GLBS", cat(&[le32(100), le32(200)])),
        chunk(b"TEXS", cat(&[le32(0), lit("Textures\\Footman.blp", 260), le32(0)])),
        chunk(b"MTLS", cat(&[material(version), material(version)])),
        chunk(b"TXAN", cat(&[inclusive(track(b"KTAT", 1, 3, &[0, 50])), inclusive(Vec::new())])),
        chunk(b"GEOS", geoset(version)),
        chunk(
            b"GEOA",
            inclusive(cat(&[fl(1.0), le32(0), fls(&[1.0, 1.0, 1.0]), le32(0), track(b"KGAO", 1, 1, &[0, 1])])),
        ),
        chunk(b"BONE", cat(&[bone(), bone()])),
        chunk(b"LITE", light()),
        chunk(b"HELP", node("Helper", 3, track(b"KGSC", 0, 3, &[0]))),
        chunk(b"ATCH", attachment()),
        chunk(b"PIVT", cat(&[fls(&[0.0, 0.0, 0.0]), fls(&[1.0, 2.0, 3.0])])),
        chunk(b"PREM", particle_emitter()),
        chunk(b"PRE2", particle_emitter2()),
        chunk(b"RIBB", ribbon_emitter()),
        chunk(b"EVTS", event_object()),
        chunk(b"CAMS", camera()),
        chunk(b"CLID", collision_shapes()),
    ])
}

/// A small file whose chunks and blocks are not in the order of the format.
fn sample_out_of_order() -> Vec<u8> {
    cat(&[
        b"MDLX".to_vec(),
        chunk(b"VERS", le32(900)),
        chunk(b"PIVT", fls(&[1.0, 2.0, 3.0])),
        chunk(b"GLBS", Vec::new()),
        chunk(b"HELP", node("Helper", 3, cat(&[track(b"KGSC", 0, 3, &[0]), track(b"KGTR", 0, 3, &[0])]))),
        chunk(b"MTLS", material(900)),
        model_chunk(),
        chunk(b"BPOS", Vec::new()),
    ])
}

fn mdx_encode_decode(input: &[u8]) {
    let model = MdxModel::from_slice(input).expect("parsed");
    let encoded = model.to_vec().expect("encoded");
    assert_eq!(input, &encoded[..], "Input is not equal encoded!");
}

#[test]
fn test_encode_decode_ident() {
    for sample in [
        b"MDLX".to_vec(),
        sample_in_order(800),
        sample_in_order(900),
        sample_in_order(1000),
        sample_out_of_order(),
    ] {
        mdx_encode_decode(&sample);
    }
}

#[test]
fn parsing_again_what_was_encoded_gives_the_same_model() {
    for sample in [sample_in_order(800), sample_in_order(1000), sample_out_of_order()] {
        let model = MdxModel::from_slice(&sample).unwrap();
        let again = MdxModel::from_slice(&model.to_vec().unwrap()).unwrap();
        assert_eq!(model, again);
    }
}

#[test]
fn a_block_that_is_repeated_is_reconstructed() {
    let blocks = cat(&[track(b"KGTR", 1, 3, &[0]), track(b"KGTR", 1, 3, &[0, 8])]);
    let input = cat(&[b"MDLX".to_vec(), chunk(b"HELP", node("Helper", 3, blocks))]);
    let model = parse_mdx(&input).unwrap();
    let encoded = model.to_vec().unwrap();
    // the block that was met last is written in both places
    let last_twice = cat(&[track(b"KGTR", 1, 3, &[0, 8]), track(b"KGTR", 1, 3, &[0, 8])]);
    assert_eq!(encoded, cat(&[b"MDLX".to_vec(), chunk(b"HELP", node("Helper", 3, last_twice))]));
    assert_eq!(parse_mdx(&encoded), Ok(model));
}

#[test]
fn a_chunk_that_is_repeated_behind_the_version_chunk_is_reconstructed() {
    let first = chunk(b"GLBS", cat(&[le32(1), le32(2)]));
    let second = chunk(b"GLBS", le32(3));
    let input = cat(&[
        b"MDLX".to_vec(),
        chunk(b"VERS", le32(900)),
        chunk(b"MTLS", material(900)),
        first,
        chunk(b"ZZZZ", vec![9, 9]),
        second.clone(),
        chunk(b"MTLS", cat(&[material(900), material(900)])),
    ]);
    let model = parse_mdx(&input).unwrap();
    assert_eq!(model.root.glbs.as_ref().unwrap().global_sequences, vec![3]);
    assert_eq!(model.root.mtls.as_ref().unwrap().materials.len(), 2);
    let encoded = model.to_vec().unwrap();
    // the chunk that was met last is written in every place of its tag
    assert_eq!(
        encoded,
        cat(&[
            b"MDLX".to_vec(),
            chunk(b"VERS", le32(900)),
            chunk(b"MTLS", cat(&[material(900), material(900)])),
            second.clone(),
            second,
            chunk(b"MTLS", cat(&[material(900), material(900)])),
        ])
    );
    assert_eq!(parse_mdx(&encoded), Ok(model));
}

#[test]
fn a_chunk_that_is_repeated_across_the_version_chunk_is_not_reconstructed() {
    // the first materials are read at no version, the second at version 900
    let input = cat(&[
        b"MDLX".to_vec(),
        chunk(b"MTLS", material(800)),
        chunk(b"VERS", le32(900)),
        chunk(b"MTLS", material(900)),
    ]);
    let model = parse_mdx(&input).unwrap();
    let encoded = model.to_vec().unwrap();
    assert_eq!(
        encoded,
        cat(&[
            b"MDLX".to_vec(),
            chunk(b"MTLS", material(900)),
            chunk(b"VERS", le32(900)),
            chunk(b"MTLS", material(900)),
        ])
    );
    // the materials of version 900 now stand where no version is in effect
    assert_eq!(
        parse_mdx(&encoded),
        Err(Error::Parsing(MdxParseError::UnexpectedChunkTag {
            expected: Tag(*b"LAYS"),
            found: Tag(*b"Shad"),
        }))
    );
}

#[test]
fn the_order_of_the_chunks_is_recorded() {
    let model = parse_mdx(&sample_out_of_order()).unwrap();
    assert_eq!(
        model.root.ordered,
        Some(vec![
            Tag(*b"VERS"),
            Tag(*b"PIVT"),
            Tag(*b"GLBS"),
            Tag(*b"HELP"),
            Tag(*b"MTLS"),
            Tag(*b"MODL"),
            Tag(*b"BPOS"),
        ])
    );
    let helper = &model.root.help.as_ref().unwrap().helpers[0];
    assert_eq!(helper.ordered, Some(vec![Tag(*b"KGSC"), Tag(*b"KGTR")]));
    assert!(helper.kgrt.is_none());
}

#[test]
fn an_unknown_chunk_is_skipped_and_dropped() {
    let known = chunk(b"GLBS", cat(&[le32(1), le32(2)]));
    let unknown = chunk(b"ZZZZ", vec![1, 2, 3, 4, 5]);
    let input = cat(&[b"MDLX".to_vec(), known.clone(), unknown, chunk(b"PIVT", Vec::new())]);
    let model = parse_mdx(&input).unwrap();
    assert_eq!(model.root.glbs.as_ref().unwrap().global_sequences, vec![1, 2]);
    assert_eq!(model.root.ordered, Some(vec![Tag(*b"GLBS"), Tag(*b"PIVT")]));
    let encoded = model.to_vec().unwrap();
    assert_eq!(encoded, cat(&[b"MDLX".to_vec(), known, chunk(b"PIVT", Vec::new())]));
}

#[test]
fn the_root_tag_is_required() {
    let r = parse_mdx(b"MDLYrest");
    assert_eq!(
        r,
        Err(Error::Parsing(MdxParseError::UnexpectedChunkTag {
            expected: Tag(*b"MDLX"),
            found: Tag(*b"MDLY"),
        }))
    );
}

#[test]
fn a_truncated_header_is_an_incomplete_stream() {
    assert_eq!(parse_mdx(b"MD"), Err(Error::Incomplete(2)));
    assert_eq!(parse_mdx(b"MDLXVERS\x04"), Err(Error::Incomplete(3)));
}

#[test]
fn a_chunk_that_reaches_beyond_the_input_is_rejected() {
    let input = cat(&[b"MDLX".to_vec(), b"VERS".to_vec(), le32(4), vec![0x20, 0x03]]);
    assert_eq!(
        parse_mdx(&input),
        Err(Error::Parsing(MdxParseError::ChunkNotEnoughInput { size: 4, input: 10 }))
    );
}

#[test]
fn a_chunk_that_is_not_used_up_is_rejected() {
    let input = cat(&[b"MDLX".to_vec(), chunk(b"VERS", cat(&[le32(800), vec![0, 0]]))]);
    assert_eq!(parse_mdx(&input), Err(Error::Parsing(MdxParseError::ChunkLeftover { input: 2 })));
    let input = cat(&[b"MDLX".to_vec(), chunk(b"GLBS", vec![1, 0, 0, 0, 9, 9])]);
    assert_eq!(parse_mdx(&input), Err(Error::Parsing(MdxParseError::ChunkLeftover { input: 2 })));
}
