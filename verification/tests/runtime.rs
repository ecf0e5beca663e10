use blend::parsers::blend::{Block, RawBlend};
use blend::parsers::primitive::{DoubleBits, FloatBits};
use blend::parsers::{BlendParseError, Endianness, PointerSize};
use blend::runtime::structs::{generate_subsidiary_fields, try_generate_subsidiary_fields};
use blend::runtime::template::{generate_fields, try_generate_fields};
use blend::runtime::{Blend, Instance, InstanceDataFormat, PointerInfo};

// ---------------------------------------------------------------------------
// A small file, built byte by byte: 64 bit pointers, little endian.
// ---------------------------------------------------------------------------

const NAMES: [&str; 30] = [
    "*next",         // 0
    "*prev",         // 1
    "*first",        // 2
    "*last",         // 3
    "name[8]",       // 4
    "id",            // 5
    "lens",          // 6
    "flag",          // 7
    "base",          // 8
    "value",         // 9
    "co[3]",         // 10
    "no[3]",         // 11
    "*mvert",        // 12
    "*mloopuv",      // 13
    "uv[2]",         // 14
    "totvert",       // 15
    "**mat",         // 16
    "*weights",      // 17
    "(*callback)()", // 18
    "*objs[2]",      // 19
    "verts[2]",      // 20
    "*camera",       // 21
    "pad",           // 22
    "big",           // 23
    "small",         // 24
    "letter",        // 25
    "u",             // 26
    "i",             // 27
    "us",            // 28
    "link",          // 29
];

const TYPES: [(&str, u16); 25] = [
    ("char", 1),      // 0
    ("uchar", 1),     // 1
    ("short", 2),     // 2
    ("ushort", 2),    // 3
    ("int", 4),       // 4
    ("long", 4),      // 5
    ("ulong", 4),     // 6
    ("float", 4),     // 7
    ("double", 8),    // 8
    ("int64_t", 8),   // 9
    ("uint64_t", 8),  // 10
    ("void", 0),      // 11
    ("Link", 16),     // 12
    ("ListBase", 16), // 13
    ("ID", 8),        // 14
    ("Camera", 46),   // 15
    ("Scene", 32),    // 16
    ("Base", 20),     // 17
    ("Mesh", 68),     // 18
    ("MVert", 20),    // 19
    ("MLoopUV", 12),  // 20
    ("Material", 12), // 21
    ("Pair", 40),     // 22
    ("Wrap", 24),     // 23
    ("Broken", 5),    // 24
];

const CAMERA: usize = 12;
const SCENE: usize = 13;
const BASE: usize = 14;
const MESH: usize = 15;
const MVERT: usize = 16;
const MLOOPUV: usize = 17;
const MATERIAL: usize = 18;
const PAIR: usize = 19;
const WRAP: usize = 20;
const BROKEN: usize = 21;

fn structs() -> Vec<(u16, Vec<(u16, u16)>)> {
    let link: (u16, Vec<(u16, u16)>) = (12, vec![(12, 0), (12, 1)]);
    let mut all = vec![
        link.clone(),
        (13, vec![(11, 2), (11, 3)]),
        (14, vec![(0, 4)]),
    ];
    while all.len() < 12 {
        all.push(link.clone());
    }
    // 12: Camera
    all.push((
        15,
        vec![
            (14, 5),
            (7, 6),
            (4, 7),
            (8, 23),
            (2, 24),
            (0, 25),
            (0, 22),
            (10, 26),
            (9, 27),
            (3, 28),
        ],
    ));
    // 13: Scene
    all.push((16, vec![(14, 5), (13, 8), (15, 21)]));
    // 14: Base
    all.push((17, vec![(17, 0), (17, 1), (4, 9)]));
    // 15: Mesh
    all.push((
        18,
        vec![(14, 5), (19, 12), (20, 13), (4, 15), (21, 16), (7, 17), (11, 18), (17, 19)],
    ));
    // 16: MVert
    all.push((19, vec![(7, 10), (2, 11), (0, 7), (0, 22)]));
    // 17: MLoopUV
    all.push((20, vec![(7, 14), (4, 7)]));
    // 18: Material
    all.push((21, vec![(14, 5), (7, 6)]));
    // 19: Pair
    all.push((22, vec![(19, 20)]));
    // 20: Wrap
    all.push((23, vec![(17, 29), (4, 9)]));
    // 21: Broken, whose one field does not fill it
    all.push((24, vec![(4, 9)]));
    all
}

fn pad4(out: &mut Vec<u8>, len: usize) {
    let mut n = len;
    while n % 4 != 0 {
        out.push(0);
        n += 1;
    }
}

fn sdna() -> Vec<u8> {
    let mut out = Vec::new();
    out.extend_from_slice(b"SDNA");
    out.extend_from_slice(b"NAME");
    out.extend_from_slice(&(NAMES.len() as u32).to_le_bytes());
    let mut len = 0;
    for name in NAMES.iter() {
        out.extend_from_slice(name.as_bytes());
        out.push(0);
        len += name.len() + 1;
    }
    pad4(&mut out, len);
    out.extend_from_slice(b"TYPE");
    out.extend_from_slice(&(TYPES.len() as u32).to_le_bytes());
    let mut len = 0;
    for (name, _) in TYPES.iter() {
        out.extend_from_slice(name.as_bytes());
        out.push(0);
        len += name.len() + 1;
    }
    pad4(&mut out, len);
    out.extend_from_slice(b"TLEN");
    for (_, size) in TYPES.iter() {
        out.extend_from_slice(&size.to_le_bytes());
    }
    pad4(&mut out, TYPES.len() * 2);
    out.extend_from_slice(b"STRC");
    let all = structs();
    out.extend_from_slice(&(all.len() as u32).to_le_bytes());
    for (ty, fields) in all.iter() {
        out.extend_from_slice(&ty.to_le_bytes());
        out.extend_from_slice(&(fields.len() as u16).to_le_bytes());
        for (field_type, field_name) in fields.iter() {
            out.extend_from_slice(&field_type.to_le_bytes());
            out.extend_from_slice(&field_name.to_le_bytes());
        }
    }
    out
}

fn block(out: &mut Vec<u8>, code: &[u8; 4], address: u64, sdna_index: u32, count: u32, payload: &[u8]) {
    out.extend_from_slice(code);
    out.extend_from_slice(&(payload.len() as u32).to_le_bytes());
    out.extend_from_slice(&address.to_le_bytes());
    out.extend_from_slice(&sdna_index.to_le_bytes());
    out.extend_from_slice(&count.to_le_bytes());
    out.extend_from_slice(payload);
}

fn id(name: &str) -> Vec<u8> {
    let mut out = name.as_bytes().to_vec();
    while out.len() < 8 {
        out.push(0);
    }
    out
}

fn base(next: u64, prev: u64, value: i32) -> Vec<u8> {
    let mut out = Vec::new();
    out.extend_from_slice(&next.to_le_bytes());
    out.extend_from_slice(&prev.to_le_bytes());
    out.extend_from_slice(&value.to_le_bytes());
    out
}

fn mvert(co: [f32; 3], no: [i16; 3], flag: u8) -> Vec<u8> {
    let mut out = Vec::new();
    for c in co.iter() {
        out.extend_from_slice(&c.to_le_bytes());
    }
    for n in no.iter() {
        out.extend_from_slice(&n.to_le_bytes());
    }
    out.push(flag);
    out.push(0);
    out
}

fn camera() -> Vec<u8> {
    let mut out = id("CACam");
    out.extend_from_slice(&50.0f32.to_le_bytes());
    out.extend_from_slice(&(-4i32).to_le_bytes());
    out.extend_from_slice(&2.5f64.to_le_bytes());
    out.extend_from_slice(&(-300i16).to_le_bytes());
    out.push(b'x');
    out.push(0xfe);
    out.extend_from_slice(&0xfedc_ba98_7654_3210u64.to_le_bytes());
    out.extend_from_slice(&(-5i64).to_le_bytes());
    out.extend_from_slice(&40000u16.to_le_bytes());
    out
}

fn file() -> Vec<u8> {
    let mut out = Vec::new();
    out.extend_from_slice(b"BLENDER-v280");

    block(&mut out, b"REND", 0x100, 0, 1, &[1, 2, 3, 4]);
    block(&mut out, b"TEST", 0x200, 0, 1, &[]);
    block(&mut out, b"GLOB", 0x300, CAMERA as u32, 1, &camera());

    // Scene: id, base { first, last }, camera
    let mut scene = id("SCScene");
    scene.extend_from_slice(&0x2000u64.to_le_bytes());
    scene.extend_from_slice(&0x2200u64.to_le_bytes());
    scene.extend_from_slice(&0x3000u64.to_le_bytes());
    block(&mut out, b"SC\0\0", 0x1000, SCENE as u32, 1, &scene);

    block(&mut out, b"DATA", 0x2000, BASE as u32, 1, &base(0x2100, 0, 1));
    block(&mut out, b"DATA", 0x2100, BASE as u32, 1, &base(0x2200, 0x2000, 2));
    block(&mut out, b"DATA", 0x2200, BASE as u32, 1, &base(0, 0x2100, 3));

    block(&mut out, b"CA\0\0", 0x3000, CAMERA as u32, 1, &camera());

    // Mesh: id, mvert, mloopuv, totvert, mat, weights, callback, objs[2]
    let mut mesh = id("MEMesh");
    mesh.extend_from_slice(&0x4100u64.to_le_bytes());
    mesh.extend_from_slice(&0x4200u64.to_le_bytes());
    mesh.extend_from_slice(&3i32.to_le_bytes());
    mesh.extend_from_slice(&0x4300u64.to_le_bytes());
    mesh.extend_from_slice(&0x4400u64.to_le_bytes());
    mesh.extend_from_slice(&0x9999u64.to_le_bytes());
    mesh.extend_from_slice(&0x2100u64.to_le_bytes());
    mesh.extend_from_slice(&0u64.to_le_bytes());
    block(&mut out, b"ME\0\0", 0x4000, MESH as u32, 1, &mesh);

    let mut verts = Vec::new();
    verts.extend_from_slice(&mvert([1.0, 2.0, 3.0], [1, -1, 0], 7));
    verts.extend_from_slice(&mvert([4.0, 5.0, 6.0], [2, -2, 0], 8));
    verts.extend_from_slice(&mvert([7.0, 8.0, 9.5], [3, -3, 0], 9));
    block(&mut out, b"DATA", 0x4100, MVERT as u32, 3, &verts);

    let mut uvs = Vec::new();
    for k in 0..4 {
        uvs.extend_from_slice(&(k as f32).to_le_bytes());
        uvs.extend_from_slice(&(k as f32 + 0.5).to_le_bytes());
        uvs.extend_from_slice(&(k as i32).to_le_bytes());
    }
    block(&mut out, b"DATA", 0x4200, MLOOPUV as u32, 4, &uvs);

    // a list of pointers: a material, null, an address that no block has
    let mut mats = Vec::new();
    mats.extend_from_slice(&0x5000u64.to_le_bytes());
    mats.extend_from_slice(&0u64.to_le_bytes());
    mats.extend_from_slice(&0x7777u64.to_le_bytes());
    block(&mut out, b"DATA", 0x4300, 0, 3, &mats);

    // four floats without a type
    let mut weights = Vec::new();
    for w in [0.25f32, 0.5, 0.75, 1.0].iter() {
        weights.extend_from_slice(&w.to_le_bytes());
    }
    block(&mut out, b"DATA", 0x4400, 0, 4, &weights);

    let mut material = id("MAMat");
    material.extend_from_slice(&0.125f32.to_le_bytes());
    block(&mut out, b"MA\0\0", 0x5000, MATERIAL as u32, 1, &material);

    let mut pair = Vec::new();
    pair.extend_from_slice(&mvert([1.5, 0.0, 0.0], [0, 0, 0], 1));
    pair.extend_from_slice(&mvert([2.5, 0.0, 0.0], [0, 0, 0], 2));
    block(&mut out, b"PA\0\0", 0x6000, PAIR as u32, 1, &pair);

    // a second scene whose list never reaches its last element
    let mut lost = id("SCLost");
    lost.extend_from_slice(&0x8000u64.to_le_bytes());
    lost.extend_from_slice(&0x2200u64.to_le_bytes());
    lost.extend_from_slice(&0u64.to_le_bytes());
    block(&mut out, b"SC\0\0", 0x1100, SCENE as u32, 1, &lost);
    block(&mut out, b"DATA", 0x8000, BASE as u32, 1, &base(0x8100, 0, 10));
    block(&mut out, b"DATA", 0x8100, BASE as u32, 1, &base(0x8000, 0x8000, 11));

    // a third scene whose list is made of wrapped elements
    let mut wrapped = id("SCWrap");
    wrapped.extend_from_slice(&0xa000u64.to_le_bytes());
    wrapped.extend_from_slice(&0xa100u64.to_le_bytes());
    wrapped.extend_from_slice(&0u64.to_le_bytes());
    block(&mut out, b"SC\0\0", 0x1200, SCENE as u32, 1, &wrapped);
    let mut first = base(0xa100, 0, 20);
    first.extend_from_slice(&1i32.to_le_bytes());
    block(&mut out, b"DATA", 0xa000, WRAP as u32, 1, &first);
    let mut second = base(0, 0xa000, 21);
    second.extend_from_slice(&2i32.to_le_bytes());
    block(&mut out, b"DATA", 0xa100, WRAP as u32, 1, &second);

    block(&mut out, b"DNA1", 0xd000, 0, 1, &sdna());
    out.extend_from_slice(b"ENDB");
    out
}

fn floats(bits: &[FloatBits]) -> Vec<f32> {
    bits.iter().map(|b| f32::from_bits(b.0)).collect()
}

fn root<'a>(blend: &'a Blend, code: [u8; 2], index: usize) -> Instance<'a> {
    let mut found = blend.get_by_code(code);
    found.remove(index)
}

// ---------------------------------------------------------------------------
// Roots
// ---------------------------------------------------------------------------

#[test]
fn new_frames_the_file() {
    let blend = Blend::new(&file());
    assert_eq!(blend.blend.header.pointer_size, PointerSize::Bits64);
    assert_eq!(blend.blend.header.endianness, Endianness::Little);
    assert_eq!(blend.blend.header.version, [b'2', b'8', b'0']);
    assert_eq!(blend.blend.blocks.len(), 21);
    assert_eq!(blend.blend.dna.names.len(), NAMES.len());
    assert_eq!(blend.blend.dna.types.len(), TYPES.len());
    assert_eq!(blend.blend.dna.structs.len(), structs().len());
}

#[test]
fn from_data_reports_the_error() {
    assert_eq!(
        Blend::from_data(b"\x1f\x8b not a blend file").err(),
        Some(BlendParseError::CompressedFileNotSupported)
    );
    assert!(Blend::from_data(&file()).is_ok());
}

#[test]
fn root_blocks_are_the_principal_blocks_in_file_order() {
    let blend = Blend::new(&file());
    let roots = blend.get_all_root_blocks();
    let codes: Vec<[u8; 4]> = roots.iter().map(|r| r.code()).collect();
    assert_eq!(
        codes,
        vec![*b"SC\0\0", *b"CA\0\0", *b"ME\0\0", *b"MA\0\0", *b"PA\0\0", *b"SC\0\0", *b"SC\0\0"]
    );
    let names: Vec<&str> = roots.iter().map(|r| r.ty_name.as_str()).collect();
    assert_eq!(names, vec!["Scene", "Camera", "Mesh", "Material", "Pair", "Scene", "Scene"]);
    let addresses: Vec<u64> = roots.iter().map(|r| r.memory_address()).collect();
    assert_eq!(addresses, vec![0x1000, 0x3000, 0x4000, 0x5000, 0x6000, 0x1100, 0x1200]);
}

#[test]
fn get_by_code_filters_by_the_two_letters() {
    let blend = Blend::new(&file());
    assert_eq!(blend.get_by_code(*b"SC").len(), 3);
    assert_eq!(blend.get_by_code(*b"CA").len(), 1);
    assert_eq!(blend.get_by_code(*b"OB").len(), 0);
    assert_eq!(blend.get_by_code(*b"ME")[0].memory_address(), 0x4000);
}

#[test]
fn a_root_without_a_layout_is_reported() {
    let mut bytes = Vec::new();
    bytes.extend_from_slice(b"BLENDER-v280");
    block(&mut bytes, b"BR\0\0", 0x10, BROKEN as u32, 1, &[0, 0, 0, 0, 0]);
    block(&mut bytes, b"XX\0\0", 0x20, 9999, 1, &[]);
    block(&mut bytes, b"CA\0\0", 0x30, CAMERA as u32, 1, &camera());
    block(&mut bytes, b"DNA1", 0x40, 0, 1, &sdna());
    bytes.extend_from_slice(b"ENDB");
    let blend = Blend::new(&bytes);
    assert!(blend.try_get_all_root_blocks().is_none());
    assert!(blend.try_get_by_code(*b"BR").is_none());
    assert!(blend.try_get_by_code(*b"XX").is_none());
    assert_eq!(blend.try_get_by_code(*b"CA").map(|v| v.len()), Some(1));
}

// ---------------------------------------------------------------------------
// Fields and their layout
// ---------------------------------------------------------------------------

#[test]
fn fields_lie_back_to_back_in_the_order_of_the_struct() {
    let blend = Blend::new(&file());
    let cam = root(&blend, *b"CA", 0);
    let names: Vec<&str> = cam.fields.keys().map(|k| k.as_str()).collect();
    assert_eq!(
        names,
        vec!["id", "lens", "flag", "big", "small", "letter", "pad", "u", "i", "us"]
    );
    let mut start = 0;
    for (_, field) in cam.fields.iter() {
        assert_eq!(field.data_start, start);
        start += field.data_len;
    }
    assert_eq!(start, 46);
    let lens = cam.field("lens").unwrap();
    assert_eq!((lens.data_start, lens.data_len), (8, 4));
    assert!(lens.is_primitive);
    assert_eq!(lens.ty_name, "float");
    assert_eq!(lens.type_index, 7);
    assert!(lens.is_single_value() && lens.is_value_or_value_array() && !lens.is_pointer());
    let id = cam.field("id").unwrap();
    assert!(!id.is_primitive);
    assert!(cam.field("nothing").is_none());
}

#[test]
fn pointer_fields_take_the_pointer_size() {
    let blend = Blend::new(&file());
    let mesh = root(&blend, *b"ME", 0);
    let mvert = mesh.field("mvert").unwrap();
    assert_eq!((mvert.data_start, mvert.data_len), (8, 8));
    assert!(mvert.is_pointer() && !mvert.is_single_value());
    let callback = mesh.field("callback").unwrap();
    assert_eq!(callback.data_len, 8);
    assert!(callback.is_pointer());
    let objs = mesh.field("objs").unwrap();
    assert_eq!((objs.data_start, objs.data_len), (52, 16));
    assert!(objs.is_pointer() && !objs.is_value_or_value_array());
}

#[test]
fn generate_fields_lays_out_a_consistent_struct() {
    let blend = Blend::new(&file());
    let raw = &blend.blend;
    let base = &raw.dna.structs[BASE];
    let fields = generate_fields(base, &raw.dna.types[17], &raw.dna, &raw.header);
    let layout: Vec<(&str, usize, usize)> =
        fields.iter().map(|(k, f)| (k.as_str(), f.data_start, f.data_len)).collect();
    assert_eq!(layout, vec![("next", 0, 8), ("prev", 8, 8), ("value", 16, 4)]);
    let again = try_generate_fields(base, &raw.dna.types[17], &raw.dna, &raw.header).unwrap();
    assert_eq!(again, fields);
}

#[test]
fn fields_that_do_not_fill_the_struct_have_no_layout() {
    let blend = Blend::new(&file());
    let raw = &blend.blend;
    let base = &raw.dna.structs[BASE];
    // the same fields do not fill a type of another size
    assert!(try_generate_fields(base, &raw.dna.types[16], &raw.dna, &raw.header).is_none());
    assert!(try_generate_fields(base, &raw.dna.types[11], &raw.dna, &raw.header).is_none());
    let broken = &raw.dna.structs[BROKEN];
    assert!(try_generate_fields(broken, &raw.dna.types[24], &raw.dna, &raw.header).is_none());
    assert!(try_generate_fields(broken, &raw.dna.types[4], &raw.dna, &raw.header).is_some());
}

#[test]
fn the_struct_of_a_data_block_is_chosen_by_block_and_field() {
    let blend = Blend::new(&file());
    let raw = &blend.blend;
    let mesh = root(&blend, *b"ME", 0);
    let typed = mesh.field("mvert").unwrap();
    let untyped = mesh.field("weights").unwrap();
    assert!(typed.type_index >= 12 && untyped.type_index < 12);
    let chosen = |field, dna_index| {
        generate_subsidiary_fields(&raw.dna, &raw.header, field, dna_index)
            .map(|(fields, ty)| (ty.name.clone(), fields.len()))
    };
    // the block carries its type
    assert_eq!(chosen(typed, MLOOPUV), Some(("MLoopUV".to_string(), 2)));
    assert_eq!(chosen(untyped, MLOOPUV), Some(("MLoopUV".to_string(), 2)));
    // the block carries none: the field decides, if it can
    assert_eq!(chosen(typed, 0), Some(("MVert".to_string(), 4)));
    assert_eq!(chosen(typed, 11), Some(("MVert".to_string(), 4)));
    assert_eq!(chosen(untyped, 0), None);
    assert_eq!(chosen(untyped, 11), None);
}

#[test]
fn a_data_block_of_a_struct_without_a_layout_is_reported() {
    let blend = Blend::new(&file());
    let raw = &blend.blend;
    let mesh = root(&blend, *b"ME", 0);
    let typed = mesh.field("mvert").unwrap();
    let untyped = mesh.field("weights").unwrap();
    let chosen = |field, dna_index| {
        try_generate_subsidiary_fields(&raw.dna, &raw.header, field, dna_index)
            .map(|(fields, ty)| (ty.name.clone(), fields.len()))
    };
    assert_eq!(chosen(typed, MLOOPUV), Some(("MLoopUV".to_string(), 2)));
    assert_eq!(chosen(typed, 0), Some(("MVert".to_string(), 4)));
    assert_eq!(chosen(untyped, 0), None);
    // a struct that the file does not have, or one without a layout
    assert_eq!(chosen(typed, 9999), None);
    assert_eq!(chosen(typed, BROKEN), None);
    assert_eq!(chosen(untyped, BROKEN), None);
}

// ---------------------------------------------------------------------------
// Primitive values
// ---------------------------------------------------------------------------

#[test]
fn typed_getters_read_matching_primitives() {
    let blend = Blend::new(&file());
    let cam = root(&blend, *b"CA", 0);
    assert_eq!(f32::from_bits(cam.get_f32_bits("lens")), 50.0);
    assert_eq!(cam.get_i32("flag"), -4);
    assert_eq!(f64::from_bits(cam.get_f64_bits("big")), 2.5);
    assert_eq!(cam.get_i16("small"), -300);
    assert_eq!(cam.get_u8("letter"), b'x');
    assert_eq!(cam.get_char("letter"), 'x');
    assert_eq!(cam.get_i8("pad"), -2);
    assert_eq!(cam.get_u8("pad"), 0xfe);
    assert_eq!(cam.get_char("pad"), '\u{fe}');
    assert_eq!(cam.get_u64("u"), 0xfedc_ba98_7654_3210);
    assert_eq!(cam.get_i64("i"), -5);
    assert_eq!(cam.get_u16("us"), 40000);
    assert_eq!(cam.get_value::<FloatBits>("lens"), FloatBits(50.0f32.to_bits()));
    assert_eq!(cam.get_value::<DoubleBits>("big"), DoubleBits(2.5f64.to_bits()));
}

#[test]
fn typed_getters_refuse_other_types() {
    let blend = Blend::new(&file());
    let cam = root(&blend, *b"CA", 0);
    assert_eq!(cam.try_get_value::<FloatBits>("lens"), Some(FloatBits(50.0f32.to_bits())));
    assert_eq!(cam.try_get_value::<i32>("lens"), None);
    assert_eq!(cam.try_get_value::<u64>("lens"), None);
    assert_eq!(cam.try_get_value::<i32>("flag"), Some(-4));
    assert_eq!(cam.try_get_value::<FloatBits>("flag"), None);
    assert_eq!(cam.try_get_value::<i32>("id"), None);
    assert_eq!(cam.try_get_value::<i32>("nothing"), None);
    assert_eq!(cam.try_get_value::<i16>("us"), None);
    assert_eq!(cam.try_get_value::<u16>("small"), None);
    let mesh = root(&blend, *b"ME", 0);
    assert_eq!(mesh.try_get_value::<u64>("mvert"), None);
}

#[test]
fn a_field_beyond_the_data_is_refused() {
    let mut bytes = Vec::new();
    bytes.extend_from_slice(b"BLENDER-v280");
    block(&mut bytes, b"CA\0\0", 0x30, CAMERA as u32, 1, &camera()[..10]);
    block(&mut bytes, b"DNA1", 0x40, 0, 1, &sdna());
    bytes.extend_from_slice(b"ENDB");
    let blend = Blend::new(&bytes);
    let cam = root(&blend, *b"CA", 0);
    assert_eq!(cam.try_get_value::<FloatBits>("lens"), None);
    assert_eq!(cam.try_get_value::<i32>("flag"), None);
    assert_eq!(cam.get("id").get_string("name"), "CACam");
}

#[test]
fn value_arrays_read_as_lists() {
    let blend = Blend::new(&file());
    let mesh = root(&blend, *b"ME", 0);
    let verts = mesh.get_vec("mvert");
    assert_eq!(floats(&verts[0].get_f32_bits_vec("co")), vec![1.0, 2.0, 3.0]);
    assert_eq!(verts[1].get_i16_vec("no"), vec![2, -2, 0]);
    assert_eq!(verts[2].try_get_value_vec::<i32>("co"), None);
    assert_eq!(verts[2].try_get_value_vec::<FloatBits>("flag"), None);
    assert_eq!(verts[2].try_get_value_vec::<FloatBits>("nothing"), None);
    let id = mesh.get("id");
    assert_eq!(id.get_u8_vec("name"), b"MEMesh\0\0".to_vec());
    assert_eq!(id.get_i8_vec("name")[0], b'M' as i8);
}

#[test]
fn a_pointer_to_packed_values_reads_as_a_list() {
    let blend = Blend::new(&file());
    let mesh = root(&blend, *b"ME", 0);
    assert_eq!(floats(&mesh.get_f32_bits_vec("weights")), vec![0.25, 0.5, 0.75, 1.0]);
    assert_eq!(mesh.get_i32_vec("weights").len(), 4);
    assert_eq!(mesh.get_u64_vec("weights").len(), 2);
    assert_eq!(mesh.get_i64_vec("weights").len(), 2);
    assert_eq!(mesh.get_f64_bits_vec("weights").len(), 2);
    assert_eq!(mesh.get_u8_vec("weights").len(), 16);
    // sixty bytes of vertices are no whole number of eight byte values
    assert!(mesh.try_get_value_vec::<u64>("mvert").is_none());
    assert_eq!(mesh.try_get_value_vec::<i32>("mvert").map(|v| v.len()), Some(15));
    // a pointer to pointers is no list of values
    assert!(mesh.try_get_value_vec::<u64>("mat").is_none());
    // the callback leads to no block
    assert!(mesh.try_get_value_vec::<u8>("callback").is_none());
}

#[test]
fn strings_end_at_the_first_zero() {
    let blend = Blend::new(&file());
    let cam = root(&blend, *b"CA", 0);
    assert_eq!(cam.get("id").get_string("name"), "CACam");
    assert_eq!(cam.get_string("letter"), "x");
    assert_eq!(cam.get_string("pad"), "\u{fe}");
    assert_eq!(cam.try_get_string("lens"), None);
    assert_eq!(cam.try_get_string("id"), None);
    assert_eq!(cam.try_get_string("nothing"), None);
    let scene = root(&blend, *b"SC", 0);
    assert_eq!(scene.get("id").get_string("name"), "SCScene");
}

#[test]
fn a_string_without_a_zero_takes_the_whole_field() {
    let mut bytes = Vec::new();
    bytes.extend_from_slice(b"BLENDER-v280");
    let mut material = b"MAterial".to_vec();
    material.extend_from_slice(&0.0f32.to_le_bytes());
    block(&mut bytes, b"MA\0\0", 0x30, MATERIAL as u32, 1, &material);
    block(&mut bytes, b"DNA1", 0x40, 0, 1, &sdna());
    bytes.extend_from_slice(b"ENDB");
    let blend = Blend::new(&bytes);
    assert_eq!(root(&blend, *b"MA", 0).get("id").get_string("name"), "MAterial");
}

// ---------------------------------------------------------------------------
// Structs
// ---------------------------------------------------------------------------

#[test]
fn get_follows_values_and_single_pointers() {
    let blend = Blend::new(&file());
    let scene = root(&blend, *b"SC", 0);
    let id = scene.get("id");
    assert_eq!(id.ty_name, "ID");
    assert!(matches!(id.data, InstanceDataFormat::Raw(bytes) if bytes == b"SCScene\0"));
    assert!(id.data.memory_address().is_none());
    assert!(id.data.code().is_none());
    let cam = scene.get("camera");
    assert_eq!(cam.ty_name, "Camera");
    assert_eq!(cam.memory_address(), 0x3000);
    assert_eq!(cam.code(), *b"CA\0\0");
    assert_eq!(f32::from_bits(cam.get_f32_bits("lens")), 50.0);
    let list = scene.get("base");
    assert_eq!(list.ty_name, "ListBase");
    let first = list.get("first");
    assert_eq!(first.ty_name, "Base");
    assert_eq!(first.memory_address(), 0x2000);
    assert!(first.data.code().is_none());
    assert_eq!(first.get("next").get_i32("value"), 2);
}

#[test]
fn get_refuses_what_is_no_single_struct() {
    let blend = Blend::new(&file());
    let scene = root(&blend, *b"SC", 1);
    assert!(scene.try_get("camera").is_none());
    assert!(scene.try_get("nothing").is_none());
    let mesh = root(&blend, *b"ME", 0);
    assert!(mesh.try_get("totvert").is_none());
    // a block of three structs
    assert!(mesh.try_get("mvert").is_none());
    // a block without a type, behind a pointer to a primitive
    assert!(mesh.try_get("weights").is_none());
    assert!(mesh.try_get("mat").is_none());
    assert!(mesh.try_get("callback").is_none());
    assert!(mesh.try_get("objs").is_none());
    assert!(mesh.try_get("id").is_some());
}

#[test]
fn get_ptr_tells_block_null_and_invalid_apart() {
    let blend = Blend::new(&file());
    let scene = root(&blend, *b"SC", 0);
    match scene.get_ptr(scene.field("camera").unwrap()) {
        PointerInfo::Block(Block::Principal { memory_address, code, .. }) => {
            assert_eq!(*memory_address, 0x3000);
            assert_eq!(code, b"CA");
        }
        _ => panic!("the camera of the scene is a root block"),
    }
    let lost = root(&blend, *b"SC", 1);
    assert!(matches!(lost.get_ptr(lost.field("camera").unwrap()), PointerInfo::Null));
    let first = scene.get("base").get("first");
    assert!(matches!(first.get_ptr(first.field("prev").unwrap()), PointerInfo::Null));
    assert!(matches!(
        first.get_ptr(first.field("next").unwrap()),
        PointerInfo::Block(Block::Subsidiary { memory_address: 0x2100, .. })
    ));
    let mesh = root(&blend, *b"ME", 0);
    assert!(matches!(mesh.get_ptr(mesh.field("mat").unwrap()), PointerInfo::Block(_)));
}

#[test]
fn a_pointer_may_lead_to_a_glob_block() {
    let mut bytes = Vec::new();
    bytes.extend_from_slice(b"BLENDER-v280");
    let mut scene = id("SCScene");
    scene.extend_from_slice(&[0; 16]);
    scene.extend_from_slice(&0x300u64.to_le_bytes());
    block(&mut bytes, b"GLOB", 0x300, CAMERA as u32, 1, &camera());
    block(&mut bytes, b"SC\0\0", 0x1000, SCENE as u32, 1, &scene);
    // a mesh whose pointers all lead to GLOB blocks
    let mut mesh = id("MEMesh");
    mesh.extend_from_slice(&0x400u64.to_le_bytes());
    mesh.extend_from_slice(&[0; 12]);
    mesh.extend_from_slice(&0x500u64.to_le_bytes());
    mesh.extend_from_slice(&0x600u64.to_le_bytes());
    mesh.extend_from_slice(&[0; 24]);
    block(&mut bytes, b"ME\0\0", 0x4000, MESH as u32, 1, &mesh);
    let mut verts = Vec::new();
    verts.extend_from_slice(&mvert([1.0, 2.0, 3.0], [0, 0, 0], 1));
    verts.extend_from_slice(&mvert([4.0, 5.0, 6.0], [0, 0, 0], 2));
    block(&mut bytes, b"GLOB", 0x400, MVERT as u32, 2, &verts);
    block(&mut bytes, b"GLOB", 0x500, 0, 1, &0x300u64.to_le_bytes());
    block(&mut bytes, b"GLOB", 0x600, 0, 2, &[0, 0, 128, 63, 0, 0, 0, 64]);
    block(&mut bytes, b"DNA1", 0x40, 0, 1, &sdna());
    bytes.extend_from_slice(b"ENDB");
    let blend = Blend::new(&bytes);
    let scene = root(&blend, *b"SC", 0);
    assert!(matches!(
        scene.get_ptr(scene.field("camera").unwrap()),
        PointerInfo::Block(Block::Global { memory_address: 0x300, .. })
    ));
    assert!(scene.is_valid("camera"));
    let cam = scene.get("camera");
    assert_eq!(cam.ty_name, "Camera");
    assert_eq!(cam.code(), *b"GLOB");
    assert_eq!(cam.memory_address(), 0x300);
    assert_eq!(f32::from_bits(cam.get_f32_bits("lens")), 50.0);
    assert_eq!(scene.get_vec("camera").len(), 1);
    let mesh = root(&blend, *b"ME", 0);
    // a block of two structs
    assert!(mesh.is_valid("mvert"));
    let verts = mesh.get_iter("mvert");
    assert_eq!(verts.len(), 2);
    assert_eq!(floats(&verts[1].get_f32_bits_vec("co")), vec![4.0, 5.0, 6.0]);
    // a list of pointers
    assert!(mesh.is_valid("mat"));
    let mats = mesh.get_vec("mat");
    assert_eq!(mats.len(), 1);
    assert_eq!(mats[0].code(), *b"GLOB");
    // packed values
    assert_eq!(floats(&mesh.get_f32_bits_vec("weights")), vec![1.0, 2.0]);
    // the struct of a GLOB block is the one that the block names
    assert_eq!(mats[0].ty_name, "Camera");
}

// ---------------------------------------------------------------------------
// Validity
// ---------------------------------------------------------------------------

#[test]
fn is_valid_by_kind_of_field() {
    let blend = Blend::new(&file());
    let scene = root(&blend, *b"SC", 0);
    assert!(scene.is_valid("id"));
    assert!(scene.is_valid("camera"));
    assert!(scene.is_valid("base"));
    assert!(!scene.is_valid("nothing"));
    let lost = root(&blend, *b"SC", 1);
    assert!(!lost.is_valid("camera"));
    assert!(lost.is_valid("base"));
    let mesh = root(&blend, *b"ME", 0);
    assert!(mesh.is_valid("totvert"));
    assert!(mesh.is_valid("mvert"));
    assert!(mesh.is_valid("weights"));
    // one of the pointers behind `mat` is null
    assert!(!mesh.is_valid("mat"));
    assert!(!mesh.is_valid("callback"));
    assert!(!mesh.is_valid("objs"));
    let id = mesh.get("id");
    assert!(id.is_valid("name"));
    let last = scene.get("base").get("last");
    assert!(!last.is_valid("next"));
    assert!(last.is_valid("prev"));
}

#[test]
fn a_list_with_a_null_end_is_not_valid() {
    let mut bytes = Vec::new();
    bytes.extend_from_slice(b"BLENDER-v280");
    let mut scene = id("SCScene");
    scene.extend_from_slice(&0x2000u64.to_le_bytes());
    scene.extend_from_slice(&0u64.to_le_bytes());
    scene.extend_from_slice(&0u64.to_le_bytes());
    block(&mut bytes, b"SC\0\0", 0x1000, SCENE as u32, 1, &scene);
    block(&mut bytes, b"DATA", 0x2000, BASE as u32, 1, &base(0, 0, 1));
    block(&mut bytes, b"DNA1", 0x40, 0, 1, &sdna());
    bytes.extend_from_slice(b"ENDB");
    let blend = Blend::new(&bytes);
    let scene = root(&blend, *b"SC", 0);
    assert!(!scene.is_valid("base"));
    assert!(scene.try_get_vec("base").is_none());
}

#[test]
fn a_pointer_to_pointers_is_valid_when_all_of_them_resolve() {
    let mut bytes = Vec::new();
    bytes.extend_from_slice(b"BLENDER-v280");
    let mut mesh = id("MEMesh");
    mesh.extend_from_slice(&[0; 20]);
    mesh.extend_from_slice(&0x4300u64.to_le_bytes());
    mesh.extend_from_slice(&[0; 32]);
    block(&mut bytes, b"ME\0\0", 0x4000, MESH as u32, 1, &mesh);
    let mut mats = Vec::new();
    mats.extend_from_slice(&0x5000u64.to_le_bytes());
    mats.extend_from_slice(&0x5100u64.to_le_bytes());
    block(&mut bytes, b"DATA", 0x4300, 0, 2, &mats);
    let mut material = id("MAOne");
    material.extend_from_slice(&1.0f32.to_le_bytes());
    block(&mut bytes, b"MA\0\0", 0x5000, MATERIAL as u32, 1, &material);
    let mut material = id("MATwo");
    material.extend_from_slice(&2.0f32.to_le_bytes());
    block(&mut bytes, b"MA\0\0", 0x5100, MATERIAL as u32, 1, &material);
    block(&mut bytes, b"DNA1", 0x40, 0, 1, &sdna());
    bytes.extend_from_slice(b"ENDB");
    let blend = Blend::new(&bytes);
    let mesh = root(&blend, *b"ME", 0);
    assert!(mesh.is_valid("mat"));
    let mats = mesh.get_vec("mat");
    let names: Vec<String> = mats.iter().map(|m| m.get("id").get_string("name")).collect();
    assert_eq!(names, vec!["MAOne", "MATwo"]);
    assert!(!mesh.is_valid("mvert"));
}

#[test]
fn a_list_whose_ends_are_lists_is_valid_when_their_ends_are() {
    // Ends { void *first; void *last; }, Outer { Ends first; Ends last; },
    // Holder { Outer list; Outer lost; }: all three lists are called
    // ListBase
    let names: [&str; 6] = ["*first", "*last", "first", "last", "list", "lost"];
    let mut types = PRIMITIVES.to_vec();
    types.extend_from_slice(&[("ListBase", 16), ("ListBase", 32), ("Holder", 64)]);
    let structs: Vec<(u16, Vec<(u16, u16)>)> = vec![
        (12, vec![(11, 0), (11, 1)]),
        (13, vec![(12, 2), (12, 3)]),
        (14, vec![(13, 4), (13, 5)]),
    ];
    let mut bytes = Vec::new();
    bytes.extend_from_slice(b"BLENDER-v280");
    let mut holder = Vec::new();
    for address in [0x10u64, 0x10, 0x10, 0x10, 0x10, 0x10, 0x10, 0].iter() {
        holder.extend_from_slice(&address.to_le_bytes());
    }
    block(&mut bytes, b"HO\0\0", 0x10, 2, 1, &holder);
    block(&mut bytes, b"DNA1", 0x40, 0, 1, &dna_bytes(Endianness::Little, &names, &types, &structs));
    bytes.extend_from_slice(b"ENDB");
    let blend = Blend::new(&bytes);
    let holder = root(&blend, *b"HO", 0);
    assert!(holder.is_valid("list"));
    assert!(holder.get("list").is_valid("first"));
    assert!(holder.get("list").get("last").is_valid("last"));
    // the last pointer of all is null
    assert!(!holder.is_valid("lost"));
    assert!(holder.get("lost").is_valid("first"));
    assert!(!holder.get("lost").is_valid("last"));
}

#[test]
fn a_list_that_holds_itself_is_not_valid() {
    // a list of no bytes whose ends are lists of the same kind
    let names: [&str; 3] = ["first", "last", "list"];
    let mut types = PRIMITIVES.to_vec();
    types.extend_from_slice(&[("ListBase", 0), ("Holder", 0)]);
    let structs: Vec<(u16, Vec<(u16, u16)>)> =
        vec![(12, vec![(12, 0), (12, 1)]), (13, vec![(12, 2)])];
    let mut bytes = Vec::new();
    bytes.extend_from_slice(b"BLENDER-v280");
    block(&mut bytes, b"HO\0\0", 0x10, 1, 1, &[]);
    block(&mut bytes, b"DNA1", 0x40, 0, 1, &dna_bytes(Endianness::Little, &names, &types, &structs));
    bytes.extend_from_slice(b"ENDB");
    let blend = Blend::new(&bytes);
    let holder = root(&blend, *b"HO", 0);
    assert!(holder.try_get("list").is_some());
    assert!(!holder.is_valid("list"));
    assert!(holder.try_get_vec("list").is_none());
}

// ---------------------------------------------------------------------------
// Lists
// ---------------------------------------------------------------------------

#[test]
fn a_list_base_yields_its_elements_from_first_to_last() {
    let blend = Blend::new(&file());
    let scene = root(&blend, *b"SC", 0);
    let bases = scene.get_iter("base");
    let addresses: Vec<u64> = bases.iter().map(|b| b.memory_address()).collect();
    assert_eq!(addresses, vec![0x2000, 0x2100, 0x2200]);
    let values: Vec<i32> = bases.iter().map(|b| b.get_i32("value")).collect();
    assert_eq!(values, vec![1, 2, 3]);
    assert!(bases.iter().all(|b| b.ty_name == "Base"));
    let again: Vec<u64> = scene.get_vec("base").iter().map(|b| b.memory_address()).collect();
    assert_eq!(again, addresses);
    let mut sorted = addresses.clone();
    sorted.sort();
    sorted.dedup();
    assert_eq!(sorted.len(), addresses.len());
    assert_eq!(addresses.last(), Some(&scene.get("base").get("last").memory_address()));
}

#[test]
fn a_list_of_one_element() {
    let mut bytes = Vec::new();
    bytes.extend_from_slice(b"BLENDER-v280");
    let mut scene = id("SCScene");
    scene.extend_from_slice(&0x2000u64.to_le_bytes());
    scene.extend_from_slice(&0x2000u64.to_le_bytes());
    scene.extend_from_slice(&0u64.to_le_bytes());
    block(&mut bytes, b"SC\0\0", 0x1000, SCENE as u32, 1, &scene);
    block(&mut bytes, b"DATA", 0x2000, BASE as u32, 1, &base(0, 0, 1));
    block(&mut bytes, b"DNA1", 0x40, 0, 1, &sdna());
    bytes.extend_from_slice(b"ENDB");
    let blend = Blend::new(&bytes);
    let bases = root(&blend, *b"SC", 0).get_vec("base");
    assert_eq!(bases.len(), 1);
    assert_eq!(bases[0].get_i32("value"), 1);
}

#[test]
fn a_list_that_never_reaches_its_last_element_is_refused() {
    let blend = Blend::new(&file());
    let lost = root(&blend, *b"SC", 1);
    assert!(lost.is_valid("base"));
    assert!(lost.try_get_vec("base").is_none());
}

#[test]
fn a_list_of_wrapped_elements_finds_next_in_the_first_field() {
    let blend = Blend::new(&file());
    let wrapped = root(&blend, *b"SC", 2);
    let elements = wrapped.get_vec("base");
    let addresses: Vec<u64> = elements.iter().map(|e| e.memory_address()).collect();
    assert_eq!(addresses, vec![0xa000, 0xa100]);
    assert_eq!(elements[0].ty_name, "Wrap");
    assert_eq!(elements[0].get_i32("value"), 1);
    assert_eq!(elements[0].get("link").get_i32("value"), 20);
    assert_eq!(elements[1].ty_name, "Wrap");
    assert_eq!(elements[1].get_i32("value"), 2);
    assert_eq!(elements[1].get("link").get_i32("value"), 21);
}

#[test]
fn a_pointer_to_a_block_of_structs_yields_one_instance_for_each() {
    let blend = Blend::new(&file());
    let mesh = root(&blend, *b"ME", 0);
    let verts = mesh.get_iter("mvert");
    assert_eq!(verts.len(), 3);
    assert!(verts.iter().all(|v| v.ty_name == "MVert"));
    assert_eq!(floats(&verts[0].get_f32_bits_vec("co")), vec![1.0, 2.0, 3.0]);
    assert_eq!(floats(&verts[1].get_f32_bits_vec("co")), vec![4.0, 5.0, 6.0]);
    assert_eq!(floats(&verts[2].get_f32_bits_vec("co")), vec![7.0, 8.0, 9.5]);
    assert_eq!(verts[2].get_u8("flag"), 9);
    assert!(matches!(verts[1].data, InstanceDataFormat::Raw(bytes) if bytes.len() == 20));
    let uvs = mesh.get_iter("mloopuv");
    assert_eq!(uvs.len(), 4);
    for (k, uv) in uvs.iter().enumerate() {
        assert_eq!(floats(&uv.get_f32_bits_vec("uv")), vec![k as f32, k as f32 + 0.5]);
        assert_eq!(uv.get_i32("flag"), k as i32);
    }
}

#[test]
fn an_array_of_structs_cuts_the_data_of_the_instance() {
    let blend = Blend::new(&file());
    let pair = root(&blend, *b"PA", 0);
    let verts = pair.get_vec("verts");
    assert_eq!(verts.len(), 2);
    assert_eq!(floats(&verts[0].get_f32_bits_vec("co")), vec![1.5, 0.0, 0.0]);
    assert_eq!(floats(&verts[1].get_f32_bits_vec("co")), vec![2.5, 0.0, 0.0]);
    assert_eq!(verts[1].get_u8("flag"), 2);
    assert_eq!(pair.get_iter("verts").len(), 2);
}

#[test]
fn pointers_that_lead_nowhere_are_skipped() {
    let blend = Blend::new(&file());
    let mesh = root(&blend, *b"ME", 0);
    let mats = mesh.get_iter("mat");
    assert_eq!(mats.len(), 1);
    assert_eq!(mats[0].ty_name, "Material");
    assert_eq!(mats[0].memory_address(), 0x5000);
    assert_eq!(f32::from_bits(mats[0].get_f32_bits("lens")), 0.125);
    let objs = mesh.get_vec("objs");
    assert_eq!(objs.len(), 1);
    assert_eq!(objs[0].memory_address(), 0x2100);
    assert_eq!(objs[0].get_i32("value"), 2);
}

#[test]
fn a_pointer_to_a_struct_without_a_layout_breaks_the_list() {
    let mut bytes = Vec::new();
    bytes.extend_from_slice(b"BLENDER-v280");
    let mut mesh = id("MEMesh");
    mesh.extend_from_slice(&[0; 20]);
    mesh.extend_from_slice(&0x4300u64.to_le_bytes());
    mesh.extend_from_slice(&[0; 16]);
    mesh.extend_from_slice(&0x5000u64.to_le_bytes());
    mesh.extend_from_slice(&0x6000u64.to_le_bytes());
    block(&mut bytes, b"ME\0\0", 0x4000, MESH as u32, 1, &mesh);
    let mut mats = Vec::new();
    mats.extend_from_slice(&0x5000u64.to_le_bytes());
    mats.extend_from_slice(&0x6000u64.to_le_bytes());
    block(&mut bytes, b"DATA", 0x4300, 0, 2, &mats);
    let mut material = id("MAOne");
    material.extend_from_slice(&1.0f32.to_le_bytes());
    block(&mut bytes, b"MA\0\0", 0x5000, MATERIAL as u32, 1, &material);
    block(&mut bytes, b"BR\0\0", 0x6000, BROKEN as u32, 1, &[0; 5]);
    block(&mut bytes, b"DNA1", 0x40, 0, 1, &sdna());
    bytes.extend_from_slice(b"ENDB");
    let blend = Blend::new(&bytes);
    let mesh = root(&blend, *b"ME", 0);
    // every pointer leads to a block, but one of the blocks cannot be read
    assert!(mesh.is_valid("mat"));
    assert!(mesh.try_get_vec("mat").is_none());
    assert!(mesh.try_get_vec("objs").is_none());
}

#[test]
fn what_is_no_list_is_refused() {
    let blend = Blend::new(&file());
    let mesh = root(&blend, *b"ME", 0);
    assert!(mesh.try_get_vec("id").is_none());
    assert!(mesh.try_get_vec("totvert").is_none());
    assert!(mesh.try_get_vec("callback").is_none());
    assert!(mesh.try_get_vec("nothing").is_none());
    // the block behind `weights` has no struct
    assert!(mesh.try_get_vec("weights").is_none());
    let id = mesh.get("id");
    assert!(id.try_get_vec("name").is_none());
    let lost = root(&blend, *b"SC", 1);
    assert!(lost.try_get_vec("camera").is_none());
}

#[test]
fn what_is_valid_can_be_followed() {
    let blend = Blend::new(&file());
    for root in blend.get_all_root_blocks() {
        let names: Vec<String> = root.fields.keys().cloned().collect();
        for name in names {
            let field = root.field(&name).unwrap();
            if !root.is_valid(&name) {
                continue;
            }
            if field.is_pointer() {
                assert!(
                    root.try_get(&name).is_some() || root.try_get_vec(&name).is_some()
                        || root.try_get_value_vec::<u8>(&name).is_some(),
                    "{}.{}",
                    root.ty_name,
                    name
                );
                assert!(matches!(root.get_ptr(field), PointerInfo::Block(_)));
            } else if field.ty_name == "ListBase" {
                let list = root.get(&name);
                assert!(matches!(list.get_ptr(list.field("first").unwrap()), PointerInfo::Block(_)));
                assert!(matches!(list.get_ptr(list.field("last").unwrap()), PointerInfo::Block(_)));
            } else if !field.is_primitive && field.is_single_value() {
                assert!(root.try_get(&name).is_some());
            }
        }
    }
}

// ---------------------------------------------------------------------------
// Files with short pointers, and structs with odd fields
// ---------------------------------------------------------------------------

fn dna_bytes(
    order: Endianness,
    names: &[&str],
    types: &[(&str, u16)],
    structs: &[(u16, Vec<(u16, u16)>)],
) -> Vec<u8> {
    let u16_in = |v: u16| match order {
        Endianness::Little => v.to_le_bytes(),
        Endianness::Big => v.to_be_bytes(),
    };
    let u32_in = |v: u32| match order {
        Endianness::Little => v.to_le_bytes(),
        Endianness::Big => v.to_be_bytes(),
    };
    let mut out = Vec::new();
    out.extend_from_slice(b"SDNA");
    out.extend_from_slice(b"NAME");
    out.extend_from_slice(&u32_in(names.len() as u32));
    let mut len = 0;
    for name in names.iter() {
        out.extend_from_slice(name.as_bytes());
        out.push(0);
        len += name.len() + 1;
    }
    pad4(&mut out, len);
    out.extend_from_slice(b"TYPE");
    out.extend_from_slice(&u32_in(types.len() as u32));
    let mut len = 0;
    for (name, _) in types.iter() {
        out.extend_from_slice(name.as_bytes());
        out.push(0);
        len += name.len() + 1;
    }
    pad4(&mut out, len);
    out.extend_from_slice(b"TLEN");
    for (_, size) in types.iter() {
        out.extend_from_slice(&u16_in(*size));
    }
    pad4(&mut out, types.len() * 2);
    out.extend_from_slice(b"STRC");
    out.extend_from_slice(&u32_in(structs.len() as u32));
    for (ty, fields) in structs.iter() {
        out.extend_from_slice(&u16_in(*ty));
        out.extend_from_slice(&u16_in(fields.len() as u16));
        for (field_type, field_name) in fields.iter() {
            out.extend_from_slice(&u16_in(*field_type));
            out.extend_from_slice(&u16_in(*field_name));
        }
    }
    out
}

const PRIMITIVES: [(&str, u16); 12] = [
    ("char", 1),
    ("uchar", 1),
    ("short", 2),
    ("ushort", 2),
    ("int", 4),
    ("long", 4),
    ("ulong", 4),
    ("float", 4),
    ("double", 8),
    ("int64_t", 8),
    ("uint64_t", 8),
    ("void", 0),
];

fn odd_dna(order: Endianness) -> Vec<u8> {
    // names: 0 "*next", 1 "value", 2 "value[2]", 3 "bad[x]", 4 "*other"
    let names: [&str; 5] = ["*next", "value", "value[2]", "bad[x]", "*other"];
    // types: 0..11 primitive, 12 Node (12 bytes), 13 Twice (12), 14 Bad (4)
    let mut types = PRIMITIVES.to_vec();
    types.extend_from_slice(&[("Node", 12), ("Twice", 12), ("Bad", 4)]);
    let structs: Vec<(u16, Vec<(u16, u16)>)> = vec![
        (12, vec![(12, 0), (4, 1), (12, 4)]),
        (13, vec![(4, 1), (2, 2), (7, 1)]),
        (14, vec![(4, 3)]),
        (14, vec![(4, 1), (99, 1)]),
        (14, vec![(4, 99)]),
    ];
    dna_bytes(order, &names, &types, &structs)
}

fn short_block(out: &mut Vec<u8>, code: &[u8; 4], address: u32, sdna_index: u32, payload: &[u8]) {
    out.extend_from_slice(code);
    out.extend_from_slice(&(payload.len() as u32).to_be_bytes());
    out.extend_from_slice(&address.to_be_bytes());
    out.extend_from_slice(&sdna_index.to_be_bytes());
    out.extend_from_slice(&1u32.to_be_bytes());
    out.extend_from_slice(payload);
}

fn short_file() -> Vec<u8> {
    let mut out = b"BLENDER_V249".to_vec();
    let mut node = Vec::new();
    node.extend_from_slice(&0x200u32.to_be_bytes());
    node.extend_from_slice(&7i32.to_be_bytes());
    node.extend_from_slice(&0u32.to_be_bytes());
    short_block(&mut out, b"NO\0\0", 0x100, 0, &node);
    let mut node = Vec::new();
    node.extend_from_slice(&0x999u32.to_be_bytes());
    node.extend_from_slice(&(-8i32).to_be_bytes());
    node.extend_from_slice(&0x100u32.to_be_bytes());
    short_block(&mut out, b"NO\0\0", 0x200, 0, &node);
    let mut twice = Vec::new();
    twice.extend_from_slice(&1i32.to_be_bytes());
    twice.extend_from_slice(&2i16.to_be_bytes());
    twice.extend_from_slice(&3i16.to_be_bytes());
    twice.extend_from_slice(&4.0f32.to_be_bytes());
    short_block(&mut out, b"TW\0\0", 0x300, 1, &twice);
    short_block(&mut out, b"B1\0\0", 0x400, 2, &[0; 4]);
    short_block(&mut out, b"B2\0\0", 0x500, 3, &[0; 4]);
    short_block(&mut out, b"B3\0\0", 0x600, 4, &[0; 4]);
    short_block(&mut out, b"DNA1", 0x700, 0, &odd_dna(Endianness::Big));
    out.extend_from_slice(b"ENDB");
    out
}

#[test]
fn pointers_of_four_bytes_in_big_endian_order() {
    let blend = Blend::new(&short_file());
    assert_eq!(blend.blend.header.pointer_size, PointerSize::Bits32);
    assert_eq!(blend.blend.header.endianness, Endianness::Big);
    let nodes = blend.get_by_code(*b"NO");
    assert_eq!(nodes.len(), 2);
    let first = &nodes[0];
    let next = first.field("next").unwrap();
    assert_eq!((next.data_start, next.data_len), (0, 4));
    assert_eq!(first.field("other").unwrap().data_start, 8);
    assert_eq!(first.get_i32("value"), 7);
    assert!(first.is_valid("next"));
    assert!(!first.is_valid("other"));
    let second = first.get("next");
    assert_eq!(second.memory_address(), 0x200);
    assert_eq!(second.get_i32("value"), -8);
    assert!(!second.is_valid("next"));
    assert!(matches!(second.get_ptr(second.field("next").unwrap()), PointerInfo::Invalid));
    assert_eq!(second.get("other").memory_address(), 0x100);
    assert_eq!(second.get_vec("other").len(), 1);
}

#[test]
fn a_name_that_comes_twice_keeps_its_last_field() {
    let blend = Blend::new(&short_file());
    let twice = root(&blend, *b"TW", 0);
    assert_eq!(twice.fields.len(), 1);
    let value = twice.field("value").unwrap();
    assert_eq!(value.ty_name, "float");
    assert_eq!((value.data_start, value.data_len), (8, 4));
    assert_eq!(f32::from_bits(twice.get_f32_bits("value")), 4.0);
    assert_eq!(twice.try_get_value::<i32>("value"), None);
    assert_eq!(twice.try_get_value_vec::<i16>("value"), None);
}

#[test]
fn a_struct_with_a_field_that_cannot_be_read_has_no_layout() {
    let blend = Blend::new(&short_file());
    // an array size that is no number
    assert!(blend.try_get_by_code(*b"B1").is_none());
    // a type that the file does not have
    assert!(blend.try_get_by_code(*b"B2").is_none());
    // a name that the file does not have
    assert!(blend.try_get_by_code(*b"B3").is_none());
    assert!(blend.try_get_all_root_blocks().is_none());
    assert_eq!(blend.try_get_by_code(*b"NO").map(|v| v.len()), Some(2));
}

// ---------------------------------------------------------------------------
// The data behind an instance
// ---------------------------------------------------------------------------

#[test]
fn instance_data_knows_its_bytes_code_and_address() {
    let raw = RawBlend::from_data(&file()).unwrap();
    let glob = InstanceDataFormat::Block(&raw.blocks[2]);
    assert_eq!(glob.code(), Some(*b"GLOB"));
    assert_eq!(glob.memory_address(), Some(0x300));
    assert_eq!(glob.data(), &camera()[..]);
    assert_eq!(glob.get(8, 4), &50.0f32.to_le_bytes()[..]);
    let scene = InstanceDataFormat::Block(&raw.blocks[3]);
    assert_eq!(scene.code(), Some(*b"SC\0\0"));
    assert_eq!(scene.memory_address(), Some(0x1000));
    let data = InstanceDataFormat::Block(&raw.blocks[4]);
    assert_eq!(data.code(), None);
    assert_eq!(data.memory_address(), Some(0x2000));
    assert_eq!(InstanceDataFormat::Block(&raw.blocks[0]).code(), Some(*b"REND"));
    assert_eq!(InstanceDataFormat::Block(&raw.blocks[1]).code(), Some(*b"TEST"));
    let bytes = [1u8, 2, 3, 4, 5];
    let raw_data = InstanceDataFormat::Raw(&bytes);
    assert_eq!(raw_data.data(), &bytes[..]);
    assert_eq!(raw_data.get(1, 3), &[2, 3, 4][..]);
    assert_eq!(raw_data.get(5, 0), &[][..]);
    assert_eq!(raw_data.code(), None);
    assert_eq!(raw_data.memory_address(), None);
}
