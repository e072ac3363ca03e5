use omsim::data::{Atom, BondType, ChamberType, Instruction, PartType, Permissions};
use omsim::encode::encode_molecule;
use omsim::hex::{HexIndex, HexRotation};
use omsim::parse::{parse_puzzle, parse_solution, FormatErrorKind};

fn push_u32(out: &mut Vec<u8>, v: u32) {
    out.extend_from_slice(&v.to_le_bytes());
}

fn push_i32(out: &mut Vec<u8>, v: i32) {
    out.extend_from_slice(&v.to_le_bytes());
}

fn push_u64(out: &mut Vec<u8>, v: u64) {
    out.extend_from_slice(&v.to_le_bytes());
}

fn push_str(out: &mut Vec<u8>, s: &str) {
    assert!(s.len() < 128);
    out.push(s.len() as u8);
    out.extend_from_slice(s.as_bytes());
}

/// A puzzle with one single-atom reagent and one single-atom product.
fn simple_puzzle_bytes(atom_id: u8, multiplier: i32) -> Vec<u8> {
    let mut b = Vec::new();
    push_i32(&mut b, 3); // puzzle tag
    push_str(&mut b, "test-puzzle");
    push_u64(&mut b, 77); // creator
    push_u64(&mut b, 0x17C7FF0F); // permissions: everything known enabled
    // reagents: one molecule, one atom at (0,0), no bonds
    push_u32(&mut b, 1);
    push_u32(&mut b, 1);
    b.push(atom_id);
    b.push(0);
    b.push(0);
    push_u32(&mut b, 0);
    // products: same molecule
    push_u32(&mut b, 1);
    push_u32(&mut b, 1);
    b.push(atom_id);
    b.push(0);
    b.push(0);
    push_u32(&mut b, 0);
    push_i32(&mut b, multiplier);
    b
}

fn push_part(
    out: &mut Vec<u8>,
    name: &str,
    pos: (i32, i32),
    arm_length: i32,
    rotation: i32,
    index: i32,
    instructions: &[(i32, u8)],
) {
    push_str(out, name);
    out.push(1); // reserved byte
    push_i32(out, pos.0);
    push_i32(out, pos.1);
    push_i32(out, arm_length);
    push_i32(out, rotation);
    push_i32(out, index);
    push_u32(out, instructions.len() as u32);
    for (cycle, ins) in instructions {
        push_i32(out, *cycle);
        out.push(*ins);
    }
}

fn solution_bytes(parts: &[Vec<u8>], metrics: Option<(i32, i32, i32, i32)>) -> Vec<u8> {
    let mut b = Vec::new();
    push_i32(&mut b, 7); // solution tag
    push_str(&mut b, "test-puzzle");
    push_str(&mut b, "test-solution");
    match metrics {
        None => push_i32(&mut b, 0),
        Some((c, k, a, i)) => {
            push_i32(&mut b, 4);
            push_i32(&mut b, 0);
            push_i32(&mut b, c);
            push_i32(&mut b, 1);
            push_i32(&mut b, k);
            push_i32(&mut b, 2);
            push_i32(&mut b, a);
            push_i32(&mut b, 3);
            push_i32(&mut b, i);
        }
    }
    push_u32(&mut b, parts.len() as u32);
    for p in parts {
        b.extend_from_slice(p);
    }
    b
}

#[test]
fn puzzle_decodes() {
    let bytes = simple_puzzle_bytes(1, 2);
    let p = parse_puzzle(&bytes).expect("puzzle should decode");
    assert_eq!(p.name, b"test-puzzle".to_vec());
    assert_eq!(p.creator_id, 77);
    assert_eq!(p.permissions, 0x17C7FF0F);
    assert_eq!(p.reagents.len(), 1);
    assert_eq!(p.products.len(), 1);
    assert_eq!(p.product_multiplier, 2);
    assert_eq!(p.reagents[0].atoms.len(), 1);
    assert_eq!(p.reagents[0].atoms[0].1, Atom::Salt);
    assert!(p.production_info.is_none());
}

#[test]
fn puzzle_wrong_tag_rejected() {
    let mut bytes = simple_puzzle_bytes(1, 1);
    bytes[0] = 4;
    let e = parse_puzzle(&bytes).unwrap_err();
    assert_eq!(e.offset, 0);
    assert_eq!(e.kind, FormatErrorKind::NotAPuzzle { actual: 4 });
}

#[test]
fn puzzle_truncated_rejected() {
    let bytes = simple_puzzle_bytes(1, 1);
    let cut = &bytes[..bytes.len() - 2];
    let e = parse_puzzle(cut).unwrap_err();
    assert_eq!(e.kind, FormatErrorKind::InsufficientData);
}

#[test]
fn puzzle_bad_atom_rejected() {
    let mut bytes = Vec::new();
    push_i32(&mut bytes, 3);
    push_str(&mut bytes, "p");
    push_u64(&mut bytes, 0);
    push_u64(&mut bytes, 0);
    push_u32(&mut bytes, 1); // one reagent
    push_u32(&mut bytes, 1); // one atom
    bytes.push(17); // invalid atom id
    bytes.push(0);
    bytes.push(0);
    let e = parse_puzzle(&bytes).unwrap_err();
    assert_eq!(e.kind, FormatErrorKind::InvalidAtomId { actual: 17 });
}

#[test]
fn metrics_tag_four_decodes_exactly() {
    let bytes = solution_bytes(&[], Some((120, 80, 9, 14)));
    let s = parse_solution(&bytes).expect("solution should decode");
    let m = s.metrics.expect("metrics should be present");
    assert_eq!(m.cycles, 120);
    assert_eq!(m.cost, 80);
    assert_eq!(m.area, 9);
    assert_eq!(m.instructions, 14);
    assert_eq!(s.name, b"test-solution".to_vec());
    assert_eq!(s.puzzle_name, b"test-puzzle".to_vec());
}

#[test]
fn metrics_tag_zero_is_none() {
    let bytes = solution_bytes(&[], None);
    let s = parse_solution(&bytes).expect("solution should decode");
    assert!(s.metrics.is_none());
}

#[test]
fn metrics_other_tag_rejected() {
    let mut bytes = Vec::new();
    push_i32(&mut bytes, 7);
    push_str(&mut bytes, "p");
    push_str(&mut bytes, "s");
    push_i32(&mut bytes, 2); // invalid metrics tag
    let e = parse_solution(&bytes).unwrap_err();
    assert_eq!(e.kind, FormatErrorKind::InvalidMetricsTag { actual: 2 });
}

#[test]
fn metrics_out_of_order_rejected() {
    let mut bytes = Vec::new();
    push_i32(&mut bytes, 7);
    push_str(&mut bytes, "p");
    push_str(&mut bytes, "s");
    push_i32(&mut bytes, 4);
    push_i32(&mut bytes, 0);
    push_i32(&mut bytes, 100);
    push_i32(&mut bytes, 2); // expected echo index 1
    let e = parse_solution(&bytes).unwrap_err();
    assert_eq!(
        e.kind,
        FormatErrorKind::MetricsIndexMismatch { expected: 1, actual: 2 }
    );
}

#[test]
fn solution_part_decodes() {
    let mut part = Vec::new();
    push_part(&mut part, "arm1", (2, -1), 2, 7, 0, &[(1, b'G'), (2, b'R')]);
    let bytes = solution_bytes(&[part], None);
    let s = parse_solution(&bytes).expect("solution should decode");
    assert_eq!(s.parts.len(), 1);
    let p = &s.parts[0];
    assert_eq!(p.ty, PartType::Arm);
    assert_eq!(p.pos, HexIndex { q: 2, r: -1 });
    assert_eq!(p.arm_length, 2);
    assert_eq!(p.rotation, 7);
    assert_eq!(p.index, 0);
    assert_eq!(
        p.instructions,
        vec![(Instruction::Grab, 1), (Instruction::RotateClockwise, 2)]
    );
}

#[test]
fn solution_unknown_part_rejected() {
    let mut part = Vec::new();
    push_part(&mut part, "no-such-part", (0, 0), 1, 0, 0, &[]);
    let bytes = solution_bytes(&[part], None);
    let e = parse_solution(&bytes).unwrap_err();
    assert_eq!(e.kind, FormatErrorKind::UnknownPartName);
}

#[test]
fn solution_bad_instruction_rejected() {
    let mut part = Vec::new();
    push_part(&mut part, "arm1", (0, 0), 1, 0, 0, &[(1, b'Q')]);
    let bytes = solution_bytes(&[part], None);
    let e = parse_solution(&bytes).unwrap_err();
    assert_eq!(e.kind, FormatErrorKind::InvalidInstruction { actual: b'Q' });
}

#[test]
fn molecule_round_trips() {
    let bytes = simple_puzzle_bytes(5, 1);
    let p = parse_puzzle(&bytes).expect("puzzle should decode");
    let m = &p.reagents[0];
    let enc = encode_molecule(m).expect("molecule should encode");
    // Splice the encoded molecule into a fresh puzzle and decode it back.
    let mut b2 = Vec::new();
    push_i32(&mut b2, 3);
    push_str(&mut b2, "p");
    push_u64(&mut b2, 0);
    push_u64(&mut b2, 0);
    push_u32(&mut b2, 1);
    b2.extend_from_slice(&enc);
    push_u32(&mut b2, 0);
    push_i32(&mut b2, 1);
    let p2 = parse_puzzle(&b2).expect("re-encoded molecule should decode");
    assert_eq!(p2.reagents[0].atoms, m.atoms);
    assert_eq!(p2.reagents[0].bonds, m.bonds);
}

#[test]
fn bond_type_byte_rules() {
    // bond type 1 is normal; flag bits make a triplex; high bits are invalid
    let mut bytes = Vec::new();
    push_i32(&mut bytes, 3);
    push_str(&mut bytes, "p");
    push_u64(&mut bytes, 0);
    push_u64(&mut bytes, 0);
    push_u32(&mut bytes, 1); // one reagent
    push_u32(&mut bytes, 2); // two atoms
    bytes.push(1);
    bytes.push(0);
    bytes.push(0);
    bytes.push(1);
    bytes.push(1);
    bytes.push(0);
    push_u32(&mut bytes, 1); // one bond
    bytes.push(0b0000_1010); // red + yellow... black bit is 4: 2|8 = 10
    bytes.push(0);
    bytes.push(0);
    bytes.push(1);
    bytes.push(0);
    push_u32(&mut bytes, 0); // no products
    push_i32(&mut bytes, 1);
    let p = parse_puzzle(&bytes).expect("triplex bond should decode");
    assert_eq!(
        p.reagents[0].bonds[0].ty,
        BondType::Triplex { red: true, black: false, yellow: true }
    );

    let mut bad = bytes.clone();
    // find the bond type byte and poison a high bit
    let idx = bytes.len() - 4 - 4 - 5; // before end hex, start hex... compute: bond = ty + 2 + 2 bytes, then u32 + i32
    let _ = idx;
    // simpler: rebuild with an invalid byte
    let mut bytes2 = Vec::new();
    push_i32(&mut bytes2, 3);
    push_str(&mut bytes2, "p");
    push_u64(&mut bytes2, 0);
    push_u64(&mut bytes2, 0);
    push_u32(&mut bytes2, 1);
    push_u32(&mut bytes2, 1);
    bytes2.push(1);
    bytes2.push(0);
    bytes2.push(0);
    push_u32(&mut bytes2, 1);
    bytes2.push(0b0001_0000); // high bit set: invalid
    let e = parse_puzzle(&bytes2).unwrap_err();
    assert_eq!(e.kind, FormatErrorKind::InvalidBondType { actual: 0b0001_0000 });
    bad.clear();
}

#[test]
fn atom_ids_round_trip() {
    for id in 1u8..=16 {
        let a = Atom::from_id(id).expect("ids one through sixteen are atoms");
        assert_eq!(a.to_id(), id);
    }
    assert!(Atom::from_id(0).is_none());
    assert!(Atom::from_id(17).is_none());
    assert_eq!(Atom::from_id(7), Some(Atom::Gold));
    assert_eq!(Atom::from_id(12), Some(Atom::Lead));
}

#[test]
fn instruction_ids_round_trip() {
    let all = [
        Instruction::Blank,
        Instruction::Grab,
        Instruction::Drop,
        Instruction::RotateClockwise,
        Instruction::RotateAnticlockwise,
        Instruction::Extend,
        Instruction::Retract,
        Instruction::PivotClockwise,
        Instruction::PivotAnticlockwise,
        Instruction::Advance,
        Instruction::Retreat,
        Instruction::PeriodOverride,
        Instruction::Reset,
        Instruction::Repeat,
    ];
    for ins in all {
        assert_eq!(Instruction::from_id(ins.to_id()), Some(ins));
    }
    assert!(Instruction::from_id(b'Z').is_none());
}

#[test]
fn part_names_round_trip() {
    assert_eq!(PartType::from_name("input"), Some(PartType::Input));
    assert_eq!(PartType::from_name("out-std"), Some(PartType::Output));
    assert_eq!(PartType::from_name("out-rep"), Some(PartType::PolymerOutput));
    assert_eq!(PartType::from_name("arm6"), Some(PartType::HexArm));
    assert_eq!(PartType::from_name("piston"), Some(PartType::PistonArm));
    assert_eq!(PartType::from_name("baron"), Some(PartType::Berlo));
    assert_eq!(PartType::from_name("glyph-life-and-death"), Some(PartType::Animismus));
    assert_eq!(PartType::from_name("bonder-prisma"), Some(PartType::TriplexBonding));
    assert_eq!(PartType::from_name("pipe"), Some(PartType::Conduit));
    assert_eq!(PartType::from_name("nonsense"), None);
}

#[test]
fn chamber_names() {
    assert_eq!(ChamberType::from_name("Small"), Some(ChamberType::Small));
    assert_eq!(ChamberType::from_name("SmallWider"), Some(ChamberType::SmallWider));
    assert_eq!(ChamberType::from_name("Large"), Some(ChamberType::Large));
    assert_eq!(ChamberType::from_name("Huge"), None);
}

#[test]
fn permissions_round_trip() {
    let bits: u64 = 0x17C7FF0F | 0xF000_0000_0000_0000;
    let p = Permissions::from_bits(bits);
    assert!(p.simple_arm && p.berlo && p.pivot_instructions);
    assert_eq!(p.residual, 0xF000_0000_0000_0000);
    assert_eq!(p.to_bits(), bits);
    let q = Permissions::from_bits(0x1);
    assert!(q.simple_arm && !q.multi_arms && !q.track);
    assert_eq!(q.to_bits(), 0x1);
}

#[test]
fn hex_rotation_cycles() {
    // rotating by r six times returns the point; r then (6 - r) % 6 too
    for r in 0u64..6 {
        let rot = HexRotation::from_unsigned(r);
        let h = HexIndex { q: 5, r: -3 };
        let c = HexIndex { q: 1, r: 1 };
        let mut x = h;
        for _ in 0..6 {
            x = x.rotated(c, rot);
        }
        assert_eq!(x, h);
        let back = HexRotation::from_unsigned((6 - r) % 6);
        assert_eq!(h.rotated(c, rot).rotated(c, back), h);
    }
}

#[test]
fn hex_arithmetic() {
    let h = HexIndex { q: 2, r: -5 };
    assert_eq!(h.s(), 3);
    assert_eq!(h.rotated_cw(), HexIndex { q: 5, r: -3 });
    assert_eq!(h.rotated_ccw().rotated_cw(), h);
    assert_eq!(
        h.plus(HexIndex { q: 1, r: 1 }),
        HexIndex { q: 3, r: -4 }
    );
    assert_eq!(
        h.minus(HexIndex { q: 1, r: 1 }),
        HexIndex { q: 1, r: -6 }
    );
    assert_eq!(HexRotation::from_signed(-1).turns(), 5);
    assert_eq!(HexRotation::from_signed(-7).turns(), 5);
    assert_eq!(HexRotation::from_unsigned(9).turns(), 3);
}
