use viletech::level::check::sanity_checks;
use indexmap::IndexSet;
use viletech::level::prep::{lumps_of, prep_level_vanilla, try_prep_level_vanilla, LevelPrep, Lump};
use viletech::vfs::{File, VirtualFs};
use viletech::level::read::{
    doom_flags, hexen_flags, read_linedefs, read_nodes, read_sectors, read_segs, read_sidedefs, read_subsectors,
    read_things_doom, read_things_hexen, read_vertexes,
};
use viletech::level::{
    BspNodeChild, Level, LevelError, LevelFormat, LineDef, SegDirection, SideTexture, THING_AMBUSH, THING_COOP,
    THING_DEATHMATCH, THING_FRIEND, THING_SINGLEPLAY, THING_SKILL_1, THING_SKILL_2, THING_SKILL_3, THING_SKILL_4,
    THING_SKILL_5,
};

fn le16(v: u16) -> [u8; 2] {
    v.to_le_bytes()
}

fn linedef_bytes(vs: u16, ve: u16, flags: u16, special: u16, trigger: u16, right: u16, left: u16) -> Vec<u8> {
    let mut b = Vec::new();
    for v in [vs, ve, flags, special, trigger, right, left] {
        b.extend_from_slice(&le16(v));
    }
    b
}

#[test]
fn linedefs_decode_with_missing_left_side() {
    let mut bytes = linedef_bytes(1, 2, 0x0004, 11, 7, 0, 0xFFFF);
    bytes.extend(linedef_bytes(3, 4, 0, 0, 0, 1, 2));
    bytes.push(0xAA); // an incomplete trailing record is ignored
    let lines = read_linedefs(&bytes);
    assert_eq!(lines.len(), 2);
    assert_eq!(
        lines[0],
        LineDef {
            udmf_id: -1,
            vert_start: 1,
            vert_end: 2,
            flags: 4,
            special: 11,
            trigger: 7,
            args: None,
            side_right: 0,
            side_left: None,
        }
    );
    assert_eq!(lines[1].side_left, Some(2));
}

#[test]
fn nodes_decode_children_by_top_bit() {
    let mut b = Vec::new();
    for v in [10i16, -20, 3, -4] {
        b.extend_from_slice(&v.to_le_bytes());
    }
    b.extend_from_slice(&[0u8; 16]);
    b.extend_from_slice(&le16(0x8005));
    b.extend_from_slice(&le16(7));
    let nodes = read_nodes(&b);
    assert_eq!(nodes.len(), 1);
    assert_eq!((nodes[0].x, nodes[0].y, nodes[0].delta_x, nodes[0].delta_y), (10, -20, 3, -4));
    assert_eq!(nodes[0].child_r, BspNodeChild::SubSector(5));
    assert_eq!(nodes[0].child_l, BspNodeChild::SubNode(7));
}

#[test]
fn sectors_and_sidedefs_read_names() {
    let mut s = Vec::new();
    s.extend_from_slice(&(-8i16).to_le_bytes());
    s.extend_from_slice(&128i16.to_le_bytes());
    s.extend_from_slice(b"FLOOR4_8");
    s.extend_from_slice(b"\0\0\0\0\0\0\0\0");
    s.extend_from_slice(&le16(160));
    s.extend_from_slice(&le16(9));
    s.extend_from_slice(&le16(2));
    let sectors = read_sectors(&s);
    assert_eq!(sectors[0].height_floor, -8);
    assert_eq!(sectors[0].height_ceil, 128);
    assert_eq!(sectors[0].tex_floor.as_deref(), Some("FLOOR4_8"));
    assert_eq!(sectors[0].tex_ceil, None);
    assert_eq!((sectors[0].light_level, sectors[0].special, sectors[0].trigger), (160, 9, 2));

    let mut d = Vec::new();
    d.extend_from_slice(&5i16.to_le_bytes());
    d.extend_from_slice(&(-6i16).to_le_bytes());
    d.extend_from_slice(b"-\0\0\0\0\0\0\0");
    d.extend_from_slice(b"STARTAN3");
    d.extend_from_slice(b"DOOR\0\0\0\0");
    d.extend_from_slice(&le16(1));
    let sides = read_sidedefs(&d);
    assert_eq!((sides[0].offset_x, sides[0].offset_y), (5, -6));
    assert_eq!(sides[0].tex_top, None);
    assert_eq!(sides[0].tex_bottom.as_deref(), Some("STARTAN3"));
    assert_eq!(sides[0].tex_mid.as_deref(), Some("DOOR"));
    assert_eq!(sides[0].sector, 1);
}

#[test]
fn segs_subsectors_vertexes_decode() {
    let mut s = Vec::new();
    for v in [1u16, 2, 0x4000, 3, 1, 0xFFFF] {
        s.extend_from_slice(&le16(v));
    }
    let segs = read_segs(&s);
    assert_eq!(segs[0].angle, 0x4000);
    assert_eq!(segs[0].linedef, 3);
    assert_eq!(segs[0].direction, SegDirection::Back);
    assert_eq!(segs[0].offset, -1);

    let ss = read_subsectors(&[3, 0, 9, 0]);
    assert_eq!((ss[0].seg_count, ss[0].seg), (3, 9));

    let vs = read_vertexes(&[0xFF, 0xFF, 0x10, 0x00]);
    assert_eq!((vs[0].x, vs[0].y), (-1, 16));
}

#[test]
fn doom_thing_flags_follow_the_vanilla_bits() {
    assert_eq!(doom_flags(0), THING_SINGLEPLAY);
    assert_eq!(doom_flags(0x0001), THING_SKILL_1 | THING_SKILL_2 | THING_SINGLEPLAY);
    assert_eq!(doom_flags(0x0004 | 0x0008), THING_SKILL_4 | THING_SKILL_5 | THING_AMBUSH | THING_SINGLEPLAY);
    assert_eq!(doom_flags(0x0010), THING_COOP);
    assert_eq!(doom_flags(0x0010 | 0x0040), 0);
    assert_eq!(doom_flags(0x0002 | 0x0080), THING_SKILL_3 | THING_SINGLEPLAY | THING_FRIEND);
}

#[test]
fn hexen_thing_flags_follow_the_hexen_bits() {
    assert_eq!(hexen_flags(0x0700), THING_SINGLEPLAY | THING_COOP | THING_DEATHMATCH);
    assert_eq!(hexen_flags(0x00E0), 0x0800 | 0x1000 | 0x2000);
    assert_eq!(hexen_flags(0x0010), 0x0400);
}

#[test]
fn things_decode_in_both_formats() {
    let mut d = Vec::new();
    for v in [32i16, -64] {
        d.extend_from_slice(&v.to_le_bytes());
    }
    d.extend_from_slice(&le16(90));
    d.extend_from_slice(&le16(1));
    d.extend_from_slice(&le16(0x0007));
    let t = read_things_doom(&d);
    assert_eq!((t[0].x, t[0].y, t[0].z, t[0].angle, t[0].ed_num), (32, -64, 0, 90, 1));
    assert_eq!(t[0].flags, doom_flags(7));

    let mut h = Vec::new();
    for v in [5i16, 1, 2, 3] {
        h.extend_from_slice(&v.to_le_bytes());
    }
    h.extend_from_slice(&le16(180));
    h.extend_from_slice(&le16(3001));
    h.extend_from_slice(&le16(0x0100));
    h.extend_from_slice(&[80, 1, 2, 3, 4, 0]);
    let t = read_things_hexen(&h);
    assert_eq!((t[0].tid, t[0].x, t[0].y, t[0].z, t[0].angle, t[0].ed_num), (5, 1, 2, 3, 180, 3001));
    assert_eq!(t[0].flags, THING_SINGLEPLAY);
    assert_eq!(t[0].args, [80, 1, 2, 3, 4]);
}

fn lump(name: &str, content: Option<Vec<u8>>) -> Lump {
    Lump { name: name.to_string(), path: format!("/w/MAP01/{name}"), content }
}

fn minimal_lumps(things: Vec<u8>) -> Vec<Lump> {
    vec![
        lump("THINGS", Some(things)),
        lump("LINEDEFS", Some(linedef_bytes(0, 1, 0, 0, 0, 0, 0xFFFF))),
        lump("SIDEDEFS", Some({
            let mut d = vec![0u8; 4];
            d.extend_from_slice(b"-\0\0\0\0\0\0\0");
            d.extend_from_slice(b"-\0\0\0\0\0\0\0");
            d.extend_from_slice(b"WALL\0\0\0\0");
            d.extend_from_slice(&le16(0));
            d
        })),
        lump("VERTEXES", Some(vec![0, 0, 0, 0, 64, 0, 0, 0])),
        lump("SEGS", Some(vec![])),
        lump("SSECTORS", Some(vec![])),
        lump("NODES", Some(vec![])),
        lump("SECTORS", Some({
            let mut s = vec![0u8; 4];
            s.extend_from_slice(b"FLAT\0\0\0\0");
            s.extend_from_slice(b"FLAT\0\0\0\0");
            s.extend_from_slice(&[0u8; 6]);
            s
        })),
    ]
}

fn player1_thing() -> Vec<u8> {
    let mut t = vec![0u8; 6];
    t.extend_from_slice(&le16(1));
    t.extend_from_slice(&le16(7));
    t
}

#[test]
fn a_directory_without_the_level_lumps_is_not_a_level() {
    let lumps = vec![lump("THINGS", Some(vec![])), lump("TEXTMAP", Some(vec![]))];
    assert!(matches!(prep_level_vanilla("MAP01", &lumps, &[]), LevelPrep::NotALevel));
}

#[test]
fn an_unreadable_lump_fails_the_level() {
    let mut lumps = minimal_lumps(player1_thing());
    lumps[3].content = None;
    match prep_level_vanilla("MAP01", &lumps, &[]) {
        LevelPrep::Failed(errs) => assert_eq!(errs, vec![LevelError::UnreadableFile("/w/MAP01/VERTEXES".to_string())]),
        other => panic!("unexpected: {other:?}"),
    }
}

#[test]
fn malformed_lumps_are_all_reported() {
    let mut lumps = minimal_lumps(vec![0u8; 11]);
    lumps[4].content = Some(vec![0u8; 5]);
    match prep_level_vanilla("MAP01", &lumps, &[]) {
        LevelPrep::Failed(errs) => assert_eq!(
            errs,
            vec![
                LevelError::MalformedFile("/w/MAP01/SEGS".to_string()),
                LevelError::MalformedFile("/w/MAP01/THINGS".to_string())
            ]
        ),
        other => panic!("unexpected: {other:?}"),
    }
}

#[test]
fn a_sound_level_prepares_with_its_sanity_findings() {
    let lumps = minimal_lumps(player1_thing());
    let images = vec!["FLAT".to_string(), "WALL".to_string()];
    match prep_level_vanilla("E1M1", &lumps, &images) {
        LevelPrep::Prepared(level, errs) => {
            assert_eq!(level.name, "E1M1");
            assert_eq!(level.format, LevelFormat::Doom);
            assert_eq!(level.linedefs.len(), 1);
            assert_eq!(level.vertices.len(), 2);
            assert_eq!(level.things.len(), 1);
            assert_eq!(level.sidedefs[0].tex_mid.as_deref(), Some("WALL"));
            assert!(errs.is_empty(), "{errs:?}");
        }
        other => panic!("unexpected: {other:?}"),
    }
}

#[test]
fn a_behavior_lump_makes_a_hexen_level() {
    let mut lumps = minimal_lumps(vec![0u8; 20]);
    lumps.push(lump("BEHAVIOR", Some(vec![])));
    match prep_level_vanilla("MAP01", &lumps, &["FLAT".to_string(), "WALL".to_string()]) {
        LevelPrep::Prepared(level, errs) => {
            assert_eq!(level.format, LevelFormat::Hexen);
            assert_eq!(level.things.len(), 1);
            assert_eq!(errs, vec![LevelError::NoPlayer1Start]);
        }
        other => panic!("unexpected: {other:?}"),
    }
}

#[test]
fn a_level_directory_of_the_file_system_prepares() {
    let mut vfs = VirtualFs::default();
    let mut set = IndexSet::new();
    let lumps = minimal_lumps(player1_thing());
    for l in &lumps {
        set.insert(format!("/w/E1M1/{}.lmp", l.name));
    }
    vfs.insert("/w/E1M1".to_string(), File::Directory(set));
    for l in lumps {
        vfs.insert(format!("/w/E1M1/{}.lmp", l.name), File::Binary(l.content.unwrap().into()));
    }
    vfs.insert("/w/E1M1/SEGS.lmp".to_string(), File::Empty);
    let dir = vfs.get("/w/E1M1").unwrap();
    let found = lumps_of(dir);
    assert_eq!(found[0].name, "THINGS");
    assert_eq!(found[0].path, "/w/E1M1/THINGS.lmp");
    assert!(found[4].content.is_none());
    // SEGS is empty, so not readable: the level fails on it.
    match try_prep_level_vanilla(dir, &["FLAT".to_string(), "WALL".to_string()]) {
        LevelPrep::Failed(errs) => assert_eq!(errs, vec![LevelError::UnreadableFile("/w/E1M1/SEGS.lmp".to_string())]),
        other => panic!("unexpected: {other:?}"),
    }
    vfs.insert("/w/E1M1/SEGS.lmp".to_string(), File::Binary(Vec::new().into()));
    match try_prep_level_vanilla(vfs.get("/w/E1M1").unwrap(), &["FLAT".to_string(), "WALL".to_string()]) {
        LevelPrep::Prepared(level, errs) => {
            assert_eq!(level.name, "E1M1");
            assert!(errs.is_empty(), "{errs:?}");
        }
        other => panic!("unexpected: {other:?}"),
    }
}

#[test]
fn sanity_checks_report_in_order() {
    let level = Level {
        name: "MAP01".to_string(),
        format: LevelFormat::Doom,
        vertices: vec![],
        linedefs: vec![LineDef {
            udmf_id: -1,
            vert_start: 0,
            vert_end: 0,
            flags: 0,
            special: 0,
            trigger: 0,
            args: None,
            side_right: 3,
            side_left: Some(4),
        }],
        nodes: vec![],
        sectors: vec![],
        segs: vec![],
        sidedefs: vec![viletech::level::SideDef {
            offset_x: 0,
            offset_y: 0,
            tex_top: Some("NOPE".to_string()),
            tex_bottom: None,
            tex_mid: None,
            sector: 0,
        }],
        subsectors: vec![],
        things: vec![],
    };
    let errs = sanity_checks(&level, &[]);
    assert_eq!(
        errs,
        vec![
            LevelError::InvalidLinedefSide { linedef: 0, left: false, sidedef: 3, sides_len: 1 },
            LevelError::InvalidLinedefSide { linedef: 0, left: true, sidedef: 4, sides_len: 1 },
            LevelError::UnknownSideTex { sidedef: 0, which: SideTexture::Top, name: "NOPE".to_string() },
            LevelError::InvalidSidedefSector { sidedef: 0, sector: 0, sectors_len: 0 },
            LevelError::NoPlayer1Start,
        ]
    );
}
