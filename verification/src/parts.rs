//! Per-mechanism live state: the kind-specific fields each placed part
//! carries through a run.

use vstd::prelude::*;

use crate::data::Molecule;

verus! {

/// An input site: deposits a copy of its reagent, held here in absolute
/// board coordinates, on its first activation.
#[derive(Debug)]
pub struct Input {
    /// The reagent molecule, already rotated and translated to the board.
    pub m: Molecule,
    /// Whether the input has fired.
    pub fired: bool,
}

/// An output site: consumes molecules structurally equivalent to its target,
/// held here in absolute board coordinates, counting toward the puzzle's
/// required multiplied count.
#[derive(Debug)]
pub struct Output {
    /// The product molecule, already rotated and translated to the board.
    pub m: Molecule,
    /// How many copies have been consumed.
    pub completed: u64,
    /// How many copies the puzzle requires.
    pub required: u64,
}

/// One end of a conduit pair.
#[derive(Debug)]
pub struct Conduit {
    /// Which conduit this is an end of.
    pub conduit_index: i32,
}

/// An arm: length, gripper count, whether it can extend, and its sparse
/// instruction tape as (instruction, cycle) pairs.
#[derive(Debug)]
pub struct SimArm {
    pub length: i32,
    pub grippers: u8,
    pub piston: bool,
    pub instructions: Vec<(crate::data::Instruction, i32)>,
}

/// The glyph of calcification: turns an elemental atom on it to salt.
#[derive(Debug)]
pub struct SimCalcification {}

/// The glyph of bonding: adds a normal bond between its two cells.
#[derive(Debug)]
pub struct SimBonding {}

/// The glyph of unbonding: removes the bond between its two cells.
#[derive(Debug)]
pub struct SimUnbonding {}

/// The glyph of projection: consumes a lone quicksilver atom and promotes
/// the metal beside it.
#[derive(Debug)]
pub struct SimProjection {}

/// The glyph of purification: consumes two copies of a metal and produces
/// one of the next metal.
#[derive(Debug)]
pub struct SimPurification {}

/// Build the live part for one file part, against the puzzle it solves.
/// The indices of io parts must already have been validated. Succeeds
/// exactly when `spec_build_error` allows it.
pub fn from_file_part(
    part: &crate::data::Part,
    puzzle: &crate::data::Puzzle,
    at: usize,
) -> (res: Result<crate::sim::SimPart, crate::data::ValidationError>)
    requires
        part@.ty == crate::data::PartType::Input ==> 0 <= part@.index < puzzle@.reagents.len(),
        (part@.ty == crate::data::PartType::Output || part@.ty
            == crate::data::PartType::PolymerOutput) ==> 0 <= part@.index
            < puzzle@.products.len(),
    ensures
        match crate::sim::spec_build_error(part@, puzzle@, at) {
            Some(e) => res == Err::<crate::sim::SimPart, crate::data::ValidationError>(e),
            None => res matches Ok(sp) && sp.wf() && crate::sim::sim_part_matches(
                sp,
                part@,
                puzzle@,
            ),
        },
{
    crate::sim::SimPart::from_solution_part(part, puzzle, at)
}

} // verus!
