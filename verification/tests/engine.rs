use omsim::collision::{collides, Collider, ColliderType, Movement};
use omsim::data::{Atom, Bond, BondType, Molecule, Part, PartType, Instruction, Puzzle, Solution,
    ValidationError};
use omsim::hex::HexIndex;
use omsim::sim::{RunState, Sim, SimulationError};

fn he(q: i32, r: i32) -> HexIndex {
    HexIndex { q, r }
}

fn single_atom(a: Atom) -> Molecule {
    Molecule { atoms: vec![(he(0, 0), a)], bonds: vec![] }
}

fn puzzle_one(a: Atom, multiplier: i32) -> Puzzle {
    Puzzle {
        name: b"p".to_vec(),
        creator_id: 0,
        reagents: vec![single_atom(a)],
        products: vec![single_atom(a)],
        product_multiplier: multiplier,
        permissions: 0x17C7FF0F,
        production_info: None,
    }
}

fn plain_part(ty: PartType, pos: HexIndex, index: i32) -> Part {
    Part {
        ty,
        pos,
        rotation: 0,
        arm_length: 1,
        index,
        conduit_index: 0,
        track_hexes: vec![],
        conduit_hexes: vec![],
        instructions: vec![],
    }
}

fn arm_part(pos: HexIndex, rotation: i32, instructions: Vec<(Instruction, i32)>) -> Part {
    Part {
        ty: PartType::Arm,
        pos,
        rotation,
        arm_length: 1,
        index: 0,
        conduit_index: 0,
        track_hexes: vec![],
        conduit_hexes: vec![],
        instructions,
    }
}

#[test]
fn stationary_atoms_collide_below_58() {
    // two atoms on the same hex: distance zero, well below 58
    let cs = vec![
        Collider { ty: ColliderType::Atom, movement: Movement::Stay { at: he(0, 0) } },
        Collider { ty: ColliderType::Atom, movement: Movement::Stay { at: he(0, 0) } },
    ];
    assert!(collides(&cs, 16));
}

#[test]
fn stationary_atoms_apart_do_not_collide() {
    // adjacent hexes are 82 Cartesian units apart, beyond 58
    let cs = vec![
        Collider { ty: ColliderType::Atom, movement: Movement::Stay { at: he(0, 0) } },
        Collider { ty: ColliderType::Atom, movement: Movement::Stay { at: he(1, 0) } },
    ];
    assert!(!collides(&cs, 16));
    let cs2 = vec![
        Collider { ty: ColliderType::Atom, movement: Movement::Stay { at: he(0, 0) } },
        Collider { ty: ColliderType::Atom, movement: Movement::Stay { at: he(0, 1) } },
    ];
    assert!(!collides(&cs2, 16));
}

#[test]
fn grippers_ignore_atoms() {
    // a gripper only interacts with chamber walls
    let cs = vec![
        Collider { ty: ColliderType::ArmGripper, movement: Movement::Stay { at: he(0, 0) } },
        Collider { ty: ColliderType::Atom, movement: Movement::Stay { at: he(0, 0) } },
    ];
    assert!(!collides(&cs, 16));
}

#[test]
fn input_index_out_of_bounds_rejected_before_any_cycle() {
    let puzzle = puzzle_one(Atom::Salt, 1);
    let solution = Solution {
        name: b"s".to_vec(),
        puzzle_name: b"p".to_vec(),
        metrics: None,
        parts: vec![plain_part(PartType::Input, he(0, 0), 1)], // only reagent 0 exists
    };
    let err = puzzle.clean_solution(&solution).unwrap_err();
    assert_eq!(err, ValidationError::InputIndexOutOfBounds { part: 0 });
    let err2 = Sim::create(&puzzle, &solution).unwrap_err();
    assert_eq!(err2, ValidationError::InputIndexOutOfBounds { part: 0 });
}

#[test]
fn negative_index_rejected() {
    let puzzle = puzzle_one(Atom::Salt, 1);
    let solution = Solution {
        name: b"s".to_vec(),
        puzzle_name: b"p".to_vec(),
        metrics: None,
        parts: vec![plain_part(PartType::Output, he(0, 0), -1)],
    };
    let err = puzzle.clean_solution(&solution).unwrap_err();
    assert_eq!(err, ValidationError::NegativeIndex { part: 0 });
}

#[test]
fn forbidden_part_rejected() {
    let mut puzzle = puzzle_one(Atom::Salt, 1);
    puzzle.permissions = 0; // nothing allowed
    let solution = Solution {
        name: b"s".to_vec(),
        puzzle_name: b"p".to_vec(),
        metrics: None,
        parts: vec![arm_part(he(0, 0), 0, vec![])],
    };
    let err = puzzle.clean_solution(&solution).unwrap_err();
    assert_eq!(err, ValidationError::ForbiddenPartType { part: 0 });
}

#[test]
fn end_to_end_single_atom_completes() {
    // one single-atom reagent, a matching product with multiplier one, and a
    // solution with just an input and an output on the same hex: the atom
    // appears and is consumed on the first cycle
    let puzzle = puzzle_one(Atom::Gold, 1);
    let solution = Solution {
        name: b"s".to_vec(),
        puzzle_name: b"p".to_vec(),
        metrics: None,
        parts: vec![
            plain_part(PartType::Input, he(0, 0), 0),
            plain_part(PartType::Output, he(0, 0), 0),
        ],
    };
    let mut sim = Sim::create(&puzzle, &solution).expect("solution should validate");
    let result = sim.run(10);
    assert_eq!(result, RunState::Succeeded { cycles: 1 });
}

#[test]
fn end_to_end_multiplier_two_cannot_finish() {
    // the input fires once, so a multiplier of two runs out of cycles
    let puzzle = puzzle_one(Atom::Gold, 2);
    let solution = Solution {
        name: b"s".to_vec(),
        puzzle_name: b"p".to_vec(),
        metrics: None,
        parts: vec![
            plain_part(PartType::Input, he(0, 0), 0),
            plain_part(PartType::Output, he(0, 0), 0),
        ],
    };
    let mut sim = Sim::create(&puzzle, &solution).expect("solution should validate");
    let result = sim.run(5);
    assert_eq!(
        result,
        RunState::Failed { error: SimulationError::CycleLimit { max_cycles: 5 } }
    );
}

#[test]
fn arms_colliding_atoms_fail_with_cycle_number() {
    // two arms grab single atoms and swing them onto the same hex: the
    // atoms come within less than 58 Cartesian units and the run fails with
    // a collision on that cycle
    let puzzle = Puzzle {
        name: b"p".to_vec(),
        creator_id: 0,
        reagents: vec![single_atom(Atom::Salt), single_atom(Atom::Salt)],
        products: vec![single_atom(Atom::Salt)],
        product_multiplier: 1,
        permissions: 0x17C7FF0F,
        production_info: None,
    };
    let mut input_a = plain_part(PartType::Input, he(1, 0), 0);
    input_a.index = 0;
    let mut input_b = plain_part(PartType::Input, he(-1, 2), 1);
    input_b.index = 1;
    let arm_a = arm_part(
        he(0, 0),
        0,
        vec![(Instruction::Grab, 2), (Instruction::RotateClockwise, 3)],
    );
    let arm_b = arm_part(
        he(0, 2),
        3,
        vec![(Instruction::Grab, 2), (Instruction::RotateClockwise, 3)],
    );
    let far_output = plain_part(PartType::Output, he(9, 9), 0);
    let solution = Solution {
        name: b"s".to_vec(),
        puzzle_name: b"p".to_vec(),
        metrics: None,
        parts: vec![input_a, input_b, arm_a, arm_b, far_output],
    };
    let mut sim = Sim::create(&puzzle, &solution).expect("solution should validate");
    let result = sim.run(10);
    assert_eq!(
        result,
        RunState::Failed { error: SimulationError::Collision { cycle: 3 } }
    );
}

#[test]
fn grab_with_nothing_present_fails() {
    let puzzle = puzzle_one(Atom::Salt, 1);
    let arm = arm_part(he(5, 5), 0, vec![(Instruction::Grab, 1)]);
    let solution = Solution {
        name: b"s".to_vec(),
        puzzle_name: b"p".to_vec(),
        metrics: None,
        parts: vec![arm],
    };
    let mut sim = Sim::create(&puzzle, &solution).expect("solution should validate");
    let result = sim.run(10);
    assert_eq!(
        result,
        RunState::Failed {
            error: SimulationError::InstructionPrecondition { cycle: 1, part: 0 },
        }
    );
}

#[test]
fn calcification_turns_elements_to_salt() {
    // a water atom delivered onto the glyph of calcification becomes salt,
    // and the salt output then accepts it
    let puzzle = Puzzle {
        name: b"p".to_vec(),
        creator_id: 0,
        reagents: vec![single_atom(Atom::Water)],
        products: vec![single_atom(Atom::Salt)],
        product_multiplier: 1,
        permissions: 0x17C7FF0F,
        production_info: None,
    };
    let solution = Solution {
        name: b"s".to_vec(),
        puzzle_name: b"p".to_vec(),
        metrics: None,
        parts: vec![
            plain_part(PartType::Input, he(0, 0), 0),
            plain_part(PartType::Calcification, he(0, 0), 0),
            plain_part(PartType::Output, he(0, 0), 0),
        ],
    };
    let mut sim = Sim::create(&puzzle, &solution).expect("solution should validate");
    let result = sim.run(10);
    assert_eq!(result, RunState::Succeeded { cycles: 1 });
}

#[test]
fn unsupported_part_stops_the_run() {
    let puzzle = puzzle_one(Atom::Salt, 1);
    let solution = Solution {
        name: b"s".to_vec(),
        puzzle_name: b"p".to_vec(),
        metrics: None,
        parts: vec![plain_part(PartType::Bonding, he(0, 0), 0)],
    };
    let mut sim = Sim::create(&puzzle, &solution).expect("solution should validate");
    let result = sim.run(3);
    assert_eq!(
        result,
        RunState::Failed { error: SimulationError::UnsupportedPart { cycle: 1, part: 0 } }
    );
}

#[test]
fn sim_molecule_lookup() {
    let puzzle = puzzle_one(Atom::Iron, 1);
    let solution = Solution {
        name: b"s".to_vec(),
        puzzle_name: b"p".to_vec(),
        metrics: None,
        parts: vec![plain_part(PartType::Input, he(3, -2), 0)],
    };
    let mut sim = Sim::create(&puzzle, &solution).expect("solution should validate");
    // run one cycle so the input deposits, then inspect the board
    let _ = sim.step(1).expect("first cycle should not fail");
    assert_eq!(sim.molecules.len(), 1);
    let hit = sim.lookup_atom(he(3, -2)).expect("atom should be on the board");
    assert_eq!(hit.atom_ty, Atom::Iron);
    assert_eq!(hit.molecule, 0);
    assert!(sim.lookup_atom(he(0, 0)).is_none());
    assert!(sim.molecules[0].contains_pos(he(3, -2)));
    assert_eq!(sim.molecules[0].atom_at(he(3, -2)), Some(Atom::Iron));
    assert_eq!(sim.molecules[0].atom_at(he(0, 0)), None);
}

#[test]
fn molecule_equivalence_checks_bonds() {
    // two bonded salts at the output: layout must match bonds and atoms
    let two = Molecule {
        atoms: vec![(he(0, 0), Atom::Salt), (he(1, 0), Atom::Salt)],
        bonds: vec![Bond { start: he(0, 0), end: he(1, 0), ty: BondType::Normal }],
    };
    let puzzle = Puzzle {
        name: b"p".to_vec(),
        creator_id: 0,
        reagents: vec![two.clone()],
        products: vec![two],
        product_multiplier: 1,
        permissions: 0x17C7FF0F,
        production_info: None,
    };
    let solution = Solution {
        name: b"s".to_vec(),
        puzzle_name: b"p".to_vec(),
        metrics: None,
        parts: vec![
            plain_part(PartType::Input, he(0, 0), 0),
            plain_part(PartType::Output, he(0, 0), 0),
        ],
    };
    let mut sim = Sim::create(&puzzle, &solution).expect("solution should validate");
    assert_eq!(sim.run(10), RunState::Succeeded { cycles: 1 });
}

#[test]
fn molecule_transforms() {
    let two = Molecule {
        atoms: vec![(he(0, 0), Atom::Salt), (he(1, 0), Atom::Gold)],
        bonds: vec![Bond { start: he(0, 0), end: he(1, 0), ty: BondType::Normal }],
    };
    let moved = two.translated(he(2, 3));
    assert_eq!(moved.atoms[0].0, he(2, 3));
    assert_eq!(moved.atoms[1].0, he(3, 3));
    assert_eq!(moved.bonds[0].start, he(2, 3));
    assert!(moved.contains_pos(he(3, 3)));
    assert!(!moved.contains_pos(he(1, 0)));
    assert_eq!(moved.atom_at(he(3, 3)), Some(Atom::Gold));
    let rot = two.rotated(he(0, 0), omsim::hex::HexRotation::from_unsigned(1));
    assert_eq!(rot.atoms[1].0, he(0, 1));
}

#[test]
fn disposal_consumes_a_lone_atom() {
    let puzzle = puzzle_one(Atom::Salt, 1);
    let solution = Solution {
        name: b"s".to_vec(),
        puzzle_name: b"p".to_vec(),
        metrics: None,
        parts: vec![
            plain_part(PartType::Input, he(0, 0), 0),
            plain_part(PartType::Disposal, he(0, 0), 0),
        ],
    };
    let mut sim = Sim::create(&puzzle, &solution).expect("solution should validate");
    let _ = sim.step(1).expect("first cycle should not fail");
    assert_eq!(sim.molecules.len(), 0);
}

#[test]
fn equilibrium_does_nothing() {
    let puzzle = puzzle_one(Atom::Gold, 1);
    let solution = Solution {
        name: b"s".to_vec(),
        puzzle_name: b"p".to_vec(),
        metrics: None,
        parts: vec![
            plain_part(PartType::Input, he(0, 0), 0),
            plain_part(PartType::Equilibrium, he(0, 0), 0),
            plain_part(PartType::Output, he(0, 0), 0),
        ],
    };
    let mut sim = Sim::create(&puzzle, &solution).expect("solution should validate");
    assert_eq!(sim.run(10), RunState::Succeeded { cycles: 1 });
}

#[test]
fn duplication_copies_an_element_onto_salt() {
    // fire at the glyph, salt beside it: the salt becomes fire
    let puzzle = Puzzle {
        name: b"p".to_vec(),
        creator_id: 0,
        reagents: vec![single_atom(Atom::Fire), single_atom(Atom::Salt)],
        products: vec![single_atom(Atom::Fire)],
        product_multiplier: 1,
        permissions: 0x17C7FF0F,
        production_info: None,
    };
    let solution = Solution {
        name: b"s".to_vec(),
        puzzle_name: b"p".to_vec(),
        metrics: None,
        parts: vec![
            plain_part(PartType::Input, he(0, 0), 0),
            plain_part(PartType::Input, he(1, 0), 1),
            plain_part(PartType::Duplication, he(0, 0), 0),
        ],
    };
    let mut sim = Sim::create(&puzzle, &solution).expect("solution should validate");
    let _ = sim.step(1).expect("first cycle should not fail");
    let hit = sim.lookup_atom(he(1, 0)).expect("target atom should remain");
    assert_eq!(hit.atom_ty, Atom::Fire);
    let src = sim.lookup_atom(he(0, 0)).expect("source atom should remain");
    assert_eq!(src.atom_ty, Atom::Fire);
    assert_eq!(sim.molecules.len(), 2);
}

#[test]
fn projection_promotes_a_metal_and_consumes_quicksilver() {
    // quicksilver on the glyph, lead beside it: lead becomes tin
    let puzzle = Puzzle {
        name: b"p".to_vec(),
        creator_id: 0,
        reagents: vec![single_atom(Atom::Quicksilver), single_atom(Atom::Lead)],
        products: vec![single_atom(Atom::Tin)],
        product_multiplier: 1,
        permissions: 0x17C7FF0F,
        production_info: None,
    };
    let solution = Solution {
        name: b"s".to_vec(),
        puzzle_name: b"p".to_vec(),
        metrics: None,
        parts: vec![
            plain_part(PartType::Input, he(0, 0), 0),
            plain_part(PartType::Input, he(1, 0), 1),
            plain_part(PartType::Projection, he(0, 0), 0),
        ],
    };
    let mut sim = Sim::create(&puzzle, &solution).expect("solution should validate");
    let _ = sim.step(1).expect("first cycle should not fail");
    assert_eq!(sim.molecules.len(), 1);
    let hit = sim.lookup_atom(he(1, 0)).expect("the metal stays put");
    assert_eq!(hit.atom_ty, Atom::Tin);
    assert!(sim.lookup_atom(he(0, 0)).is_none());
}

#[test]
fn purification_fuses_two_metals_into_the_next() {
    // two lead atoms on the glyph's input cells produce one tin atom on its
    // output cell, one sixty-degree step around from the second input
    let puzzle = Puzzle {
        name: b"p".to_vec(),
        creator_id: 0,
        reagents: vec![single_atom(Atom::Lead), single_atom(Atom::Lead)],
        products: vec![single_atom(Atom::Tin)],
        product_multiplier: 1,
        permissions: 0x17C7FF0F,
        production_info: None,
    };
    let solution = Solution {
        name: b"s".to_vec(),
        puzzle_name: b"p".to_vec(),
        metrics: None,
        parts: vec![
            plain_part(PartType::Input, he(0, 0), 0),
            plain_part(PartType::Input, he(1, 0), 1),
            plain_part(PartType::Purification, he(0, 0), 0),
        ],
    };
    let mut sim = Sim::create(&puzzle, &solution).expect("solution should validate");
    let _ = sim.step(1).expect("first cycle should not fail");
    assert_eq!(sim.molecules.len(), 1);
    let hit = sim.lookup_atom(he(0, 1)).expect("the fused metal appears");
    assert_eq!(hit.atom_ty, Atom::Tin);
    assert!(sim.lookup_atom(he(0, 0)).is_none());
    assert!(sim.lookup_atom(he(1, 0)).is_none());
}

#[test]
fn animismus_turns_two_salts_into_vitae_and_mors() {
    let puzzle = Puzzle {
        name: b"p".to_vec(),
        creator_id: 0,
        reagents: vec![single_atom(Atom::Salt), single_atom(Atom::Salt)],
        products: vec![single_atom(Atom::Vitae)],
        product_multiplier: 1,
        permissions: 0x17C7FF0F,
        production_info: None,
    };
    let solution = Solution {
        name: b"s".to_vec(),
        puzzle_name: b"p".to_vec(),
        metrics: None,
        parts: vec![
            plain_part(PartType::Input, he(0, 0), 0),
            plain_part(PartType::Input, he(1, 0), 1),
            plain_part(PartType::Animismus, he(0, 0), 0),
        ],
    };
    let mut sim = Sim::create(&puzzle, &solution).expect("solution should validate");
    let _ = sim.step(1).expect("first cycle should not fail");
    assert_eq!(sim.molecules.len(), 2);
    let v = sim.lookup_atom(he(-1, 1)).expect("vitae appears two steps around");
    assert_eq!(v.atom_ty, Atom::Vitae);
    let m = sim.lookup_atom(he(0, -1)).expect("mors appears four steps around");
    assert_eq!(m.atom_ty, Atom::Mors);
    assert!(sim.lookup_atom(he(0, 0)).is_none());
    assert!(sim.lookup_atom(he(1, 0)).is_none());
}

#[test]
fn output_consumes_every_equivalent_molecule() {
    // with the required count already met, an output keeps consuming
    // equivalent molecules rather than letting them pile up
    let puzzle = puzzle_one(Atom::Gold, 0);
    let solution = Solution {
        name: b"s".to_vec(),
        puzzle_name: b"p".to_vec(),
        metrics: None,
        parts: vec![
            plain_part(PartType::Input, he(0, 0), 0),
            plain_part(PartType::Output, he(0, 0), 0),
        ],
    };
    let mut sim = Sim::create(&puzzle, &solution).expect("solution should validate");
    let _ = sim.step(1).expect("first cycle should not fail");
    assert_eq!(sim.molecules.len(), 0);
    match &sim.parts[1].ty {
        omsim::sim::SimPartType::Output(out) => {
            assert_eq!(out.completed, 1);
            assert_eq!(out.required, 0);
        }
        other => panic!("expected an output part, got {:?}", other),
    }
}
