//! The simulation engine: live molecules, live parts, and the cycle loop.

use vstd::prelude::*;

use crate::data::{
    Atom, Bond, Instruction, Molecule, MolView, PartType, PartView, Puzzle, Solution,
    ValidationError,
};
use crate::hex::{coords_ok, hex_add, hex_sub, rot_around, HexIndex, HexRotation};
use crate::parts::{Conduit, Input, Output, SimArm, SimBonding, SimCalcification, SimProjection,
    SimPurification, SimUnbonding};

verus! {

/// Live molecules and parts stay within this coordinate bound; a run that
/// pushes anything past it stops with an error rather than overflowing.
pub const SIM_BOUND: i32 = 0x100000;

/// How many time samples each cycle's movements are tested at.
pub const SAMPLE_STEPS: u32 = 16;

/// An illegal in-run action; terminates the run.
#[derive(Copy, Clone, Debug, PartialEq, Eq, Structural)]
pub enum SimulationError {
    /// Two colliders overlapped during the cycle.
    Collision { cycle: u64 },
    /// An instruction ran outside its preconditions (a grab with nothing
    /// present, an extension past the maximum reach).
    InstructionPrecondition { cycle: u64, part: usize },
    /// An instruction this engine does not simulate.
    UnsupportedInstruction { cycle: u64, part: usize },
    /// A part type this engine does not simulate.
    UnsupportedPart { cycle: u64, part: usize },
    /// A position left the engine's coordinate range.
    OutOfBounds { cycle: u64 },
    /// The run did not complete within the configured cycle limit.
    CycleLimit { max_cycles: u64 },
}

/// The overall state of a run.
#[derive(Copy, Clone, Debug, PartialEq, Eq, Structural)]
pub enum RunState {
    /// Still running.
    Running,
    /// Every output reached its required count, on the given cycle.
    Succeeded { cycles: u64 },
    /// The run stopped on an error.
    Failed { error: SimulationError },
}

/// A live molecule: a template layout plus an absolute board offset and a
/// grabbed flag.
#[derive(Debug)]
pub struct SimMolecule {
    /// The molecule's layout, relative to `pos`.
    pub layout: Molecule,
    /// The board offset added to every layout position.
    pub pos: HexIndex,
    /// Whether an arm currently holds this molecule.
    pub grabbed: bool,
}

/// The first atom of the list whose board position (layout position plus
/// base offset) is `p`.
pub open spec fn spec_sm_lookup(
    atoms: Seq<(HexIndex, Atom)>,
    base: (int, int),
    p: (int, int),
) -> Option<Atom>
    decreases atoms.len(),
{
    if atoms.len() == 0 {
        None
    } else if hex_add(atoms[0].0@, base) == p {
        Some(atoms[0].1)
    } else {
        spec_sm_lookup(atoms.drop_first(), base, p)
    }
}

/// Whether a live molecule has an atom at board position `p`.
pub open spec fn sm_has(sm: SimMolecule, p: (int, int)) -> bool {
    exists|i: int|
        0 <= i < sm.layout@.atoms.len() && hex_add(
            (#[trigger] sm.layout@.atoms[i]).0@,
            sm.pos@,
        ) == p
}

/// The lookup succeeds exactly when the molecule has an atom there.
pub proof fn lemma_sm_lookup_some(atoms: Seq<(HexIndex, Atom)>, base: (int, int), p: (int, int))
    ensures
        spec_sm_lookup(atoms, base, p) is Some <==> exists|i: int|
            0 <= i < atoms.len() && hex_add((#[trigger] atoms[i]).0@, base) == p,
    decreases atoms.len(),
{
    if atoms.len() > 0 {
        lemma_sm_lookup_some(atoms.drop_first(), base, p);
        if hex_add(atoms[0].0@, base) != p {
            if spec_sm_lookup(atoms.drop_first(), base, p) is Some {
                let i = choose|i: int|
                    0 <= i < atoms.drop_first().len() && hex_add(
                        (#[trigger] atoms.drop_first()[i]).0@,
                        base,
                    ) == p;
                assert(hex_add(atoms[i + 1].0@, base) == p);
            }
            if exists|i: int| 0 <= i < atoms.len() && hex_add((#[trigger] atoms[i]).0@, base) == p {
                let i = choose|i: int|
                    0 <= i < atoms.len() && hex_add((#[trigger] atoms[i]).0@, base) == p;
                assert(hex_add(atoms.drop_first()[i - 1].0@, base) == p);
            }
        }
    }
}

/// A bond's endpoints and type, taken to absolute coordinates.
pub open spec fn bond_abs(b: Bond, base: (int, int)) -> ((int, int), (int, int), BondTypeOf) {
    (hex_add(b.start@, base), hex_add(b.end@, base), b.ty)
}

/// Shorthand for the bond type in absolute-bond tuples.
pub type BondTypeOf = crate::data::BondType;

/// Whether the list of bonds, taken to absolute coordinates from `base`,
/// contains the absolute bond `t`.
pub open spec fn bonds_contain(
    bonds: Seq<Bond>,
    base: (int, int),
    t: ((int, int), (int, int), BondTypeOf),
) -> bool {
    exists|j: int| 0 <= j < bonds.len() && bond_abs(#[trigger] bonds[j], base) == t
}

/// Structural equivalence of a live molecule against a target given in
/// absolute board coordinates: equal atom counts, every target atom present
/// with the same type, and the same bond set in the common frame.
pub open spec fn spec_sm_is(sm: SimMolecule, m: MolView) -> bool {
    &&& sm.layout@.atoms.len() == m.atoms.len()
    &&& forall|k: int|
        0 <= k < m.atoms.len() ==> spec_sm_lookup(
            sm.layout@.atoms,
            sm.pos@,
            (#[trigger] m.atoms[k]).0@,
        ) == Some(m.atoms[k].1)
    &&& sm.layout@.bonds.len() == m.bonds.len()
    &&& forall|k: int|
        0 <= k < sm.layout@.bonds.len() ==> bonds_contain(
            m.bonds,
            (0, 0),
            bond_abs(#[trigger] sm.layout@.bonds[k], sm.pos@),
        )
    &&& forall|k: int|
        0 <= k < m.bonds.len() ==> bonds_contain(
            sm.layout@.bonds,
            sm.pos@,
            bond_abs(#[trigger] m.bonds[k], (0, 0)),
        )
}

/// Whether every coordinate of a molecule view is within the bound.
pub open spec fn mol_in_bounds(m: MolView, b: int) -> bool {
    &&& forall|i: int|
        0 <= i < m.atoms.len() ==> -b <= (#[trigger] m.atoms[i]).0@.0 <= b && -b
            <= m.atoms[i].0@.1 <= b
    &&& forall|k: int|
        0 <= k < m.bonds.len() ==> -b <= (#[trigger] m.bonds[k]).start@.0 <= b && -b
            <= m.bonds[k].start@.1 <= b && -b <= m.bonds[k].end@.0 <= b && -b
            <= m.bonds[k].end@.1 <= b
}

/// Check that every coordinate of a molecule is within the bound.
#[verifier::loop_isolation(false)]
pub fn check_mol_bounds(m: &Molecule, b: i32) -> (res: bool)
    requires
        0 < b,
    ensures
        res == mol_in_bounds(m@, b as int),
{
    let mut i: usize = 0;
    while i < m.atoms.len()
        invariant
            i <= m.atoms@.len(),
            forall|k: int|
                0 <= k < i as int ==> -b <= (#[trigger] m.atoms@[k]).0@.0 <= b && -b
                    <= m.atoms@[k].0@.1 <= b,
        decreases m.atoms@.len() - i,
    {
        let p = m.atoms[i].0;
        if p.q < -b || p.q > b || p.r < -b || p.r > b {
            proof {
                assert(!(-b <= (m@.atoms[i as int]).0@.0 <= b && -b <= m@.atoms[i as int].0@.1
                    <= b));
            }
            return false;
        }
        proof {
            assert(-b <= (m.atoms@[i as int]).0@.0 <= b && -b <= m.atoms@[i as int].0@.1 <= b);
        }
        i = i + 1;
    }
    let mut j: usize = 0;
    while j < m.bonds.len()
        invariant
            i as int == m.atoms@.len(),
            forall|k: int|
                0 <= k < i as int ==> -b <= (#[trigger] m.atoms@[k]).0@.0 <= b && -b
                    <= m.atoms@[k].0@.1 <= b,
            j <= m.bonds@.len(),
            forall|k: int|
                0 <= k < j as int ==> -b <= (#[trigger] m.bonds@[k]).start@.0 <= b && -b
                    <= m.bonds@[k].start@.1 <= b && -b <= m.bonds@[k].end@.0 <= b && -b
                    <= m.bonds@[k].end@.1 <= b,
        decreases m.bonds@.len() - j,
    {
        let bd = m.bonds[j];
        if bd.start.q < -b || bd.start.q > b || bd.start.r < -b || bd.start.r > b || bd.end.q < -b
            || bd.end.q > b || bd.end.r < -b || bd.end.r > b {
            proof {
                assert(!(-b <= (m@.bonds[j as int]).start@.0 <= b && -b <= m@.bonds[
                    j as int].start@.1 <= b && -b <= m@.bonds[j as int].end@.0 <= b && -b
                    <= m@.bonds[j as int].end@.1 <= b));
            }
            return false;
        }
        proof {
            assert(-b <= (m.bonds@[j as int]).start@.0 <= b && -b <= m.bonds@[j as int].start@.1
                <= b && -b <= m.bonds@[j as int].end@.0 <= b && -b <= m.bonds@[j as int].end@.1
                <= b);
        }
        j = j + 1;
    }
    true
}

impl SimMolecule {
    /// A well-formed live molecule: well-formed layout, bounded coordinates.
    pub open spec fn wf(self) -> bool {
        &&& self.layout@.wf()
        &&& mol_in_bounds(self.layout@, SIM_BOUND as int)
        &&& -SIM_BOUND <= self.pos@.0 <= SIM_BOUND
        &&& -SIM_BOUND <= self.pos@.1 <= SIM_BOUND
    }

    /// Is there an atom at the given board position?
    pub fn contains_pos(&self, pos: HexIndex) -> (res: bool)
        requires
            self.wf(),
            coords_ok(pos@),
        ensures
            res == sm_has(*self, pos@),
    {
        let mut i: usize = 0;
        while i < self.layout.atoms.len()
            invariant
                self.wf(),
                coords_ok(pos@),
                i <= self.layout.atoms@.len(),
                forall|k: int|
                    0 <= k < i as int ==> hex_add(
                        (#[trigger] self.layout.atoms@[k]).0@,
                        self.pos@,
                    ) != pos@,
            decreases self.layout.atoms@.len() - i,
        {
            let a = self.layout.atoms[i].0;
            let abs = a.plus(self.pos);
            if abs.q == pos.q && abs.r == pos.r {
                proof {
                    assert(hex_add((self.layout.atoms@[i as int]).0@, self.pos@) == pos@);
                }
                return true;
            }
            i = i + 1;
        }
        false
    }

    /// The atom at the given board position, or `None`.
    pub fn atom_at(&self, pos: HexIndex) -> (res: Option<Atom>)
        requires
            self.wf(),
            coords_ok(pos@),
        ensures
            res == spec_sm_lookup(self.layout@.atoms, self.pos@, pos@),
    {
        let mut i: usize = 0;
        proof {
            assert(self.layout.atoms@.skip(0) =~= self.layout.atoms@);
        }
        while i < self.layout.atoms.len()
            invariant
                self.wf(),
                coords_ok(pos@),
                i <= self.layout.atoms@.len(),
                spec_sm_lookup(self.layout@.atoms, self.pos@, pos@) == spec_sm_lookup(
                    self.layout.atoms@.skip(i as int),
                    self.pos@,
                    pos@,
                ),
            decreases self.layout.atoms@.len() - i,
        {
            let (a, atom) = self.layout.atoms[i];
            proof {
                assert(self.layout.atoms@.skip(i as int)[0] == self.layout.atoms@[i as int]);
                assert(self.layout.atoms@.skip(i as int).drop_first() =~= self.layout.atoms@.skip(
                    i as int + 1,
                ));
            }
            let abs = a.plus(self.pos);
            if abs.q == pos.q && abs.r == pos.r {
                return Some(atom);
            }
            i = i + 1;
        }
        None
    }

    /// The bond between the two given board positions, in either
    /// orientation, or `None`.
    pub fn bond_at(&self, pos_a: HexIndex, pos_b: HexIndex) -> (res: Option<Bond>)
        requires
            self.wf(),
            coords_ok(pos_a@),
            coords_ok(pos_b@),
        ensures
            res is Some ==> exists|j: int|
                0 <= j < self.layout@.bonds.len() && #[trigger] self.layout@.bonds[j] == res->0
                    && (bond_abs(res->0, self.pos@) == (pos_a@, pos_b@, res->0.ty) || bond_abs(
                    res->0,
                    self.pos@,
                ) == (pos_b@, pos_a@, res->0.ty)),
            res is None ==> forall|j: int|
                0 <= j < self.layout@.bonds.len() ==> bond_abs(
                    #[trigger] self.layout@.bonds[j],
                    self.pos@,
                ).0 != pos_a@ && bond_abs(self.layout@.bonds[j], self.pos@).0 != pos_b@ || (
                bond_abs(self.layout@.bonds[j], self.pos@).0 == pos_a@ && bond_abs(
                    self.layout@.bonds[j],
                    self.pos@,
                ).1 != pos_b@) || (bond_abs(self.layout@.bonds[j], self.pos@).0 == pos_b@
                && bond_abs(self.layout@.bonds[j], self.pos@).1 != pos_a@),
    {
        let mut j: usize = 0;
        while j < self.layout.bonds.len()
            invariant
                self.wf(),
                coords_ok(pos_a@),
                coords_ok(pos_b@),
                j <= self.layout.bonds@.len(),
                forall|k: int|
                    0 <= k < j as int ==> bond_abs(
                        #[trigger] self.layout@.bonds[k],
                        self.pos@,
                    ).0 != pos_a@ && bond_abs(self.layout@.bonds[k], self.pos@).0 != pos_b@ || (
                    bond_abs(self.layout@.bonds[k], self.pos@).0 == pos_a@ && bond_abs(
                        self.layout@.bonds[k],
                        self.pos@,
                    ).1 != pos_b@) || (bond_abs(self.layout@.bonds[k], self.pos@).0 == pos_b@
                        && bond_abs(self.layout@.bonds[k], self.pos@).1 != pos_a@),
            decreases self.layout.bonds@.len() - j,
        {
            let b = self.layout.bonds[j];
            let s = b.start.plus(self.pos);
            let e = b.end.plus(self.pos);
            if s.q == pos_a.q && s.r == pos_a.r && e.q == pos_b.q && e.r == pos_b.r {
                proof {
                    assert(bond_abs(self.layout@.bonds[j as int], self.pos@) == (
                        pos_a@,
                        pos_b@,
                        b.ty,
                    ));
                }
                return Some(b);
            }
            if s.q == pos_b.q && s.r == pos_b.r && e.q == pos_a.q && e.r == pos_a.r {
                proof {
                    assert(bond_abs(self.layout@.bonds[j as int], self.pos@) == (
                        pos_b@,
                        pos_a@,
                        b.ty,
                    ));
                }
                return Some(b);
            }
            j = j + 1;
        }
        None
    }

    /// Structural equivalence against a target molecule given in absolute
    /// board coordinates: the atom maps must agree and the bond sets must be
    /// equal in the common frame.
    pub fn is(&self, m: &Molecule) -> (res: bool)
        requires
            self.wf(),
            mol_in_bounds(m@, SIM_BOUND as int),
        ensures
            res == spec_sm_is(*self, m@),
    {
        if self.layout.atoms.len() != m.atoms.len() {
            return false;
        }
        if self.layout.bonds.len() != m.bonds.len() {
            return false;
        }
        let mut k: usize = 0;
        while k < m.atoms.len()
            invariant
                self.wf(),
                mol_in_bounds(m@, SIM_BOUND as int),
                k <= m.atoms@.len(),
                forall|k2: int|
                    0 <= k2 < k as int ==> spec_sm_lookup(
                        self.layout@.atoms,
                        self.pos@,
                        (#[trigger] m@.atoms[k2]).0@,
                    ) == Some(m@.atoms[k2].1),
            decreases m.atoms@.len() - k,
        {
            let (p, a) = m.atoms[k];
            let found = self.atom_at(p);
            match found {
                Some(a2) => {
                    if !atom_eq(a2, a) {
                        return false;
                    }
                },
                None => {
                    return false;
                },
            }
            k = k + 1;
        }
        let mut k: usize = 0;
        while k < self.layout.bonds.len()
            invariant
                self.wf(),
                mol_in_bounds(m@, SIM_BOUND as int),
                k <= self.layout.bonds@.len(),
                forall|k2: int|
                    0 <= k2 < k as int ==> bonds_contain(
                        m@.bonds,
                        (0, 0),
                        bond_abs(#[trigger] self.layout@.bonds[k2], self.pos@),
                    ),
            decreases self.layout.bonds@.len() - k,
        {
            let b = self.layout.bonds[k];
            let s = b.start.plus(self.pos);
            let e = b.end.plus(self.pos);
            if !bond_list_has(&m.bonds, s, e, b.ty) {
                return false;
            }
            proof {
                assert(bond_abs(self.layout@.bonds[k as int], self.pos@) == (s@, e@, b.ty));
            }
            k = k + 1;
        }
        let mut k: usize = 0;
        while k < m.bonds.len()
            invariant
                self.wf(),
                mol_in_bounds(m@, SIM_BOUND as int),
                k <= m.bonds@.len(),
                forall|k2: int|
                    0 <= k2 < k as int ==> bonds_contain(
                        self.layout@.bonds,
                        self.pos@,
                        bond_abs(#[trigger] m@.bonds[k2], (0, 0)),
                    ),
            decreases m.bonds@.len() - k,
        {
            let b = m.bonds[k];
            let s = b.start.minus(self.pos);
            let e = b.end.minus(self.pos);
            if !bond_list_has(&self.layout.bonds, s, e, b.ty) {
                return false;
            }
            proof {
                let j = choose|j: int|
                    0 <= j < self.layout@.bonds.len() && (#[trigger] self.layout@.bonds[j]).start
                        == s && self.layout@.bonds[j].end == e && self.layout@.bonds[j].ty == b.ty;
                assert(bond_abs(self.layout@.bonds[j], self.pos@) == bond_abs(b, (0, 0)));
            }
            k = k + 1;
        }
        true
    }
}

/// Compare two atoms.
pub fn atom_eq(a: Atom, b: Atom) -> (res: bool)
    ensures
        res == (a == b),
{
    a == b
}

/// Whether the bond list holds a bond with exactly these endpoints (in this
/// orientation) and type.
fn bond_list_has(bonds: &Vec<Bond>, s: HexIndex, e: HexIndex, ty: crate::data::BondType) -> (res:
    bool)
    ensures
        res == exists|j: int|
            0 <= j < bonds@.len() && (#[trigger] bonds@[j]).start == s && bonds@[j].end == e
                && bonds@[j].ty == ty,
{
    let mut j: usize = 0;
    while j < bonds.len()
        invariant
            j <= bonds@.len(),
            forall|k: int|
                0 <= k < j as int ==> !((#[trigger] bonds@[k]).start == s && bonds@[k].end == e
                    && bonds@[k].ty == ty),
        decreases bonds@.len() - j,
    {
        let b = bonds[j];
        if b.start.q == s.q && b.start.r == s.r && b.end.q == e.q && b.end.r == e.r && bond_ty_eq(
            b.ty,
            ty,
        ) {
            proof {
                assert((bonds@[j as int]).start == s && bonds@[j as int].end == e
                    && bonds@[j as int].ty == ty);
            }
            return true;
        }
        j = j + 1;
    }
    false
}

/// Compare two bond types.
pub fn bond_ty_eq(a: crate::data::BondType, b: crate::data::BondType) -> (res: bool)
    ensures
        res == (a == b),
{
    a == b
}

/// The outcome of looking an atom up on the board: its element and the
/// index of the molecule holding it.
#[derive(Copy, Clone, Debug)]
pub struct AtomLookupResult {
    /// The element found.
    pub atom_ty: Atom,
    /// The index of the molecule holding it, into the engine's molecule
    /// list.
    pub molecule: usize,
}

/// A placed mechanism's live state: its board position, reduced rotation,
/// and kind-specific fields.
#[derive(Debug)]
pub struct SimPart {
    pub pos: HexIndex,
    pub rotation: HexRotation,
    pub ty: SimPartType,
}

/// The kind-specific state of a live part.
#[derive(Debug)]
pub enum SimPartType {
    Input(Input),
    Output(Output),
    Arms(SimArm),
    Track,
    Bonding(SimBonding),
    MultiBonding,
    Unbonding(SimUnbonding),
    Calcification(SimCalcification),
    Animismus,
    Projection(SimProjection),
    Purification(SimPurification),
    Conduit(Conduit),
    Equilibrium,
    Disposal,
    Duplication,
}

impl SimPart {
    /// A well-formed live part: reduced rotation, bounded position, bounded
    /// arm reach, bounded molecule templates.
    pub open spec fn wf(self) -> bool {
        &&& self.rotation.wf()
        &&& -SIM_BOUND <= self.pos@.0 <= SIM_BOUND
        &&& -SIM_BOUND <= self.pos@.1 <= SIM_BOUND
        &&& match self.ty {
            SimPartType::Input(inp) => inp.m@.wf() && mol_in_bounds(inp.m@, SIM_BOUND as int),
            SimPartType::Output(out) => out.m@.wf() && mol_in_bounds(out.m@, SIM_BOUND as int),
            SimPartType::Arms(arm) => 0 <= arm.length <= 3 && (arm.grippers == 1 || arm.grippers
                == 2 || arm.grippers == 3 || arm.grippers == 6),
            _ => true,
        }
    }
}

/// The reduced rotation of a raw file rotation.
pub open spec fn spec_rot_of(raw: i32) -> nat {
    ((raw as int) % 6) as nat
}

/// The board position a template position is taken to: rotated around the
/// origin by the part's reduced rotation, then translated to the part.
pub open spec fn spec_part_abs(p: (int, int), part: PartView) -> (int, int) {
    hex_add(rot_around(p, (0, 0), spec_rot_of(part.rotation)), part.pos@)
}

/// Whether a molecule view is the given template taken to the board frame of
/// the part: same length, every atom and bond mapped positionally, types
/// kept.
pub open spec fn spec_mol_abs_of(m: MolView, tmpl: MolView, part: PartView) -> bool {
    &&& m.atoms.len() == tmpl.atoms.len()
    &&& forall|i: int|
        0 <= i < tmpl.atoms.len() ==> (#[trigger] m.atoms[i]).0@ == spec_part_abs(
            tmpl.atoms[i].0@,
            part,
        ) && m.atoms[i].1 == tmpl.atoms[i].1
    &&& m.bonds.len() == tmpl.bonds.len()
    &&& forall|k: int|
        0 <= k < tmpl.bonds.len() ==> (#[trigger] m.bonds[k]).start@ == spec_part_abs(
            tmpl.bonds[k].start@,
            part,
        ) && m.bonds[k].end@ == spec_part_abs(tmpl.bonds[k].end@, part) && m.bonds[k].ty
            == tmpl.bonds[k].ty
}

/// Whether every position of the template, taken to the part's board frame,
/// stays within the engine's coordinate range.
pub open spec fn spec_abs_mol_bounds(tmpl: MolView, part: PartView) -> bool {
    &&& forall|i: int|
        0 <= i < tmpl.atoms.len() ==> -SIM_BOUND <= spec_part_abs(
            (#[trigger] tmpl.atoms[i]).0@,
            part,
        ).0 <= SIM_BOUND && -SIM_BOUND <= spec_part_abs(tmpl.atoms[i].0@, part).1 <= SIM_BOUND
    &&& forall|k: int|
        0 <= k < tmpl.bonds.len() ==> -SIM_BOUND <= spec_part_abs(
            (#[trigger] tmpl.bonds[k]).start@,
            part,
        ).0 <= SIM_BOUND && -SIM_BOUND <= spec_part_abs(tmpl.bonds[k].start@, part).1 <= SIM_BOUND
            && -SIM_BOUND <= spec_part_abs(tmpl.bonds[k].end@, part).0 <= SIM_BOUND && -SIM_BOUND
            <= spec_part_abs(tmpl.bonds[k].end@, part).1 <= SIM_BOUND
}

/// Whether an io part's molecule template can be instantiated: the template
/// and its board image within range, and the template well-formed.
pub open spec fn spec_io_buildable(tmpl: MolView, part: PartView) -> bool {
    &&& mol_in_bounds(tmpl, SIM_BOUND as int)
    &&& spec_abs_mol_bounds(tmpl, part)
    &&& tmpl.wf()
}

/// The exact error, if any, that instantiating a validated file part gives:
/// a position or size outside the engine's range, or a part kind this
/// engine cannot instantiate. `None` means construction is owed to succeed.
pub open spec fn spec_build_error(part: PartView, pz: crate::data::PuzzleView, at: usize) -> Option<
    ValidationError,
> {
    if !(-SIM_BOUND <= part.pos@.0 <= SIM_BOUND && -SIM_BOUND <= part.pos@.1 <= SIM_BOUND) {
        Some(ValidationError::PositionOutOfRange { part: at })
    } else {
        match part.ty {
            PartType::Input => if spec_io_buildable(pz.reagents[part.index as int], part) {
                None
            } else {
                Some(ValidationError::PositionOutOfRange { part: at })
            },
            PartType::Output => if spec_io_buildable(pz.products[part.index as int], part) {
                None
            } else {
                Some(ValidationError::PositionOutOfRange { part: at })
            },
            PartType::Arm | PartType::BiArm | PartType::TriArm | PartType::HexArm
                | PartType::PistonArm => if 0 <= part.arm_length <= 3 {
                None
            } else {
                Some(ValidationError::PositionOutOfRange { part: at })
            },
            PartType::Track | PartType::Bonding | PartType::MultiBonding | PartType::Unbonding
                | PartType::Calcification | PartType::Animismus | PartType::Projection
                | PartType::Purification | PartType::Conduit | PartType::Equilibrium
                | PartType::Disposal | PartType::Duplication => None,
            _ => Some(ValidationError::UnsupportedPartType { part: at }),
        }
    }
}

/// The first build error among the parts from index `i` on, if any.
pub open spec fn spec_first_build_error(
    pz: crate::data::PuzzleView,
    parts: Seq<PartView>,
    i: int,
) -> Option<ValidationError>
    decreases parts.len() - i,
{
    if i < 0 || i >= parts.len() {
        None
    } else if spec_build_error(parts[i], pz, i as usize) is Some {
        spec_build_error(parts[i], pz, i as usize)
    } else {
        spec_first_build_error(pz, parts, i + 1)
    }
}

/// The exact outcome of building a run from a puzzle and solution: the first
/// validation error, else the first construction error, else success.
pub open spec fn spec_create_error(pz: crate::data::PuzzleView, parts: Seq<PartView>) -> Option<
    ValidationError,
> {
    match crate::data::spec_first_error(pz, parts, 0) {
        Some(e) => Some(e),
        None => spec_first_build_error(pz, parts, 0),
    }
}

/// Whether a live part is the correct instantiation of a file part against
/// the puzzle: position and reduced rotation carried over, and the
/// kind-specific state built from the right puzzle molecule or part fields.
pub open spec fn sim_part_matches(sp: SimPart, part: PartView, pz: crate::data::PuzzleView) -> bool {
    &&& sp.pos == part.pos
    &&& sp.rotation.turns as int == (part.rotation as int) % 6
    &&& match part.ty {
        PartType::Input => sp.ty matches SimPartType::Input(inp) && !inp.fired && spec_mol_abs_of(
            inp.m@,
            pz.reagents[part.index as int],
            part,
        ),
        PartType::Output => sp.ty matches SimPartType::Output(out) && out.completed == 0
            && out.required == (if pz.product_multiplier >= 0 {
            pz.product_multiplier as int
        } else {
            0
        }) && spec_mol_abs_of(out.m@, pz.products[part.index as int], part),
        PartType::Arm | PartType::BiArm | PartType::TriArm | PartType::HexArm
            | PartType::PistonArm => sp.ty matches SimPartType::Arms(arm) && arm.length
            == part.arm_length && arm.instructions@ == part.instructions && arm.piston == (part.ty
            == PartType::PistonArm) && arm.grippers as int == (match part.ty {
            PartType::BiArm => 2int,
            PartType::TriArm => 3int,
            PartType::HexArm => 6int,
            _ => 1int,
        }),
        PartType::Track => sp.ty is Track,
        PartType::Bonding => sp.ty matches SimPartType::Bonding(_),
        PartType::MultiBonding => sp.ty is MultiBonding,
        PartType::Unbonding => sp.ty matches SimPartType::Unbonding(_),
        PartType::Calcification => sp.ty matches SimPartType::Calcification(_),
        PartType::Animismus => sp.ty is Animismus,
        PartType::Projection => sp.ty matches SimPartType::Projection(_),
        PartType::Purification => sp.ty matches SimPartType::Purification(_),
        PartType::Conduit => sp.ty matches SimPartType::Conduit(_),
        PartType::Equilibrium => sp.ty is Equilibrium,
        PartType::Disposal => sp.ty is Disposal,
        PartType::Duplication => sp.ty is Duplication,
        _ => false,
    }
}

/// Take a puzzle molecule to the board frame of a part: rotate by the
/// part's reduced rotation around the origin, then translate to the part's
/// position. Fails exactly when the template or its board image leaves the
/// engine's coordinate range.
fn build_abs_molecule(tmpl: &Molecule, pos: HexIndex, raw_rotation: i32, at: usize, Ghost(part): Ghost<PartView>) -> (res: Result<
    Molecule,
    ValidationError,
>)
    requires
        -SIM_BOUND <= pos@.0 <= SIM_BOUND,
        -SIM_BOUND <= pos@.1 <= SIM_BOUND,
        part.pos == pos,
        part.rotation == raw_rotation,
    ensures
        res is Ok <==> mol_in_bounds(tmpl@, SIM_BOUND as int) && spec_abs_mol_bounds(tmpl@, part),
        match res {
            Ok(m) => m@.wf() == tmpl@.wf() && mol_in_bounds(m@, SIM_BOUND as int) && (forall|
                i: int,
            |
                0 <= i < tmpl@.atoms.len() ==> (#[trigger] m@.atoms[i]).0@ == hex_add(
                    rot_around(tmpl@.atoms[i].0@, (0, 0), spec_rot_of(raw_rotation)),
                    pos@,
                ) && m@.atoms[i].1 == tmpl@.atoms[i].1) && m@.atoms.len() == tmpl@.atoms.len() && (
            forall|k: int|
                0 <= k < tmpl@.bonds.len() ==> (#[trigger] m@.bonds[k]).start@ == hex_add(
                    rot_around(tmpl@.bonds[k].start@, (0, 0), spec_rot_of(raw_rotation)),
                    pos@,
                ) && m@.bonds[k].end@ == hex_add(
                    rot_around(tmpl@.bonds[k].end@, (0, 0), spec_rot_of(raw_rotation)),
                    pos@,
                ) && m@.bonds[k].ty == tmpl@.bonds[k].ty) && m@.bonds.len() == tmpl@.bonds.len(),
            Err(e) => e == ValidationError::PositionOutOfRange { part: at },
        },
{
    if !check_mol_bounds(tmpl, SIM_BOUND) {
        return Err(ValidationError::PositionOutOfRange { part: at });
    }
    let rot = HexRotation::from_signed(raw_rotation as i64);
    let rotated = tmpl.rotated(HexIndex { q: 0, r: 0 }, rot);
    proof {
        let origin = HexIndex { q: 0, r: 0 };
        let n = rot.turns as nat;
        assert forall|i: int| 0 <= i < rotated@.atoms.len() implies coords_ok(
            (#[trigger] rotated@.atoms[i]).0@,
        ) by {
            let p = tmpl@.atoms[i].0@;
            crate::hex::lemma_rot_n_bounded(hex_sub(p, origin@), n, 4 * SIM_BOUND);
            assert(rotated@.atoms[i].0@ == rot_around(p, origin@, n));
        }
        assert forall|k: int| 0 <= k < rotated@.bonds.len() implies coords_ok(
            (#[trigger] rotated@.bonds[k]).start@,
        ) && coords_ok(rotated@.bonds[k].end@) by {
            let ps = tmpl@.bonds[k].start@;
            let pe = tmpl@.bonds[k].end@;
            crate::hex::lemma_rot_n_bounded(hex_sub(ps, origin@), n, 4 * SIM_BOUND);
            crate::hex::lemma_rot_n_bounded(hex_sub(pe, origin@), n, 4 * SIM_BOUND);
        }
    }
    let moved = rotated.translated(pos);
    proof {
        assert(rot.turns as nat == spec_rot_of(raw_rotation));
        assert forall|i: int| 0 <= i < moved@.atoms.len() implies (#[trigger] moved@.atoms[i]).0@
            == spec_part_abs(tmpl@.atoms[i].0@, part) by {
            assert(moved@.atoms[i].0@ == hex_add(rotated@.atoms[i].0@, pos@));
        }
        assert forall|k: int| 0 <= k < moved@.bonds.len() implies (#[trigger] moved@.bonds[k]).start@
            == spec_part_abs(tmpl@.bonds[k].start@, part) && moved@.bonds[k].end@ == spec_part_abs(
            tmpl@.bonds[k].end@,
            part,
        ) by {
            assert(moved@.bonds[k].start@ == hex_add(rotated@.bonds[k].start@, pos@));
            assert(moved@.bonds[k].end@ == hex_add(rotated@.bonds[k].end@, pos@));
        }
        assert(mol_in_bounds(moved@, SIM_BOUND as int) == spec_abs_mol_bounds(tmpl@, part)) by {
            if mol_in_bounds(moved@, SIM_BOUND as int) {
                assert forall|i: int| 0 <= i < tmpl@.atoms.len() implies -SIM_BOUND
                    <= spec_part_abs((#[trigger] tmpl@.atoms[i]).0@, part).0 <= SIM_BOUND
                    && -SIM_BOUND <= spec_part_abs(tmpl@.atoms[i].0@, part).1 <= SIM_BOUND by {
                    assert(-SIM_BOUND <= (moved@.atoms[i]).0@.0 <= SIM_BOUND && -SIM_BOUND
                        <= moved@.atoms[i].0@.1 <= SIM_BOUND);
                }
                assert forall|k: int| 0 <= k < tmpl@.bonds.len() implies -SIM_BOUND
                    <= spec_part_abs((#[trigger] tmpl@.bonds[k]).start@, part).0 <= SIM_BOUND
                    && -SIM_BOUND <= spec_part_abs(tmpl@.bonds[k].start@, part).1 <= SIM_BOUND
                    && -SIM_BOUND <= spec_part_abs(tmpl@.bonds[k].end@, part).0 <= SIM_BOUND
                    && -SIM_BOUND <= spec_part_abs(tmpl@.bonds[k].end@, part).1 <= SIM_BOUND by {
                    assert(-SIM_BOUND <= (moved@.bonds[k]).start@.0 <= SIM_BOUND && -SIM_BOUND
                        <= moved@.bonds[k].start@.1 <= SIM_BOUND && -SIM_BOUND
                        <= moved@.bonds[k].end@.0 <= SIM_BOUND && -SIM_BOUND
                        <= moved@.bonds[k].end@.1 <= SIM_BOUND);
                }
            }
            if spec_abs_mol_bounds(tmpl@, part) {
                assert forall|i: int| 0 <= i < moved@.atoms.len() implies -SIM_BOUND <= (
                #[trigger] moved@.atoms[i]).0@.0 <= SIM_BOUND && -SIM_BOUND <= moved@.atoms[i].0@.1
                    <= SIM_BOUND by {
                    assert(-SIM_BOUND <= spec_part_abs((tmpl@.atoms[i]).0@, part).0 <= SIM_BOUND
                        && -SIM_BOUND <= spec_part_abs(tmpl@.atoms[i].0@, part).1 <= SIM_BOUND);
                }
                assert forall|k: int| 0 <= k < moved@.bonds.len() implies -SIM_BOUND <= (
                #[trigger] moved@.bonds[k]).start@.0 <= SIM_BOUND && -SIM_BOUND
                    <= moved@.bonds[k].start@.1 <= SIM_BOUND && -SIM_BOUND
                    <= moved@.bonds[k].end@.0 <= SIM_BOUND && -SIM_BOUND <= moved@.bonds[k].end@.1
                    <= SIM_BOUND by {
                    assert(-SIM_BOUND <= spec_part_abs((tmpl@.bonds[k]).start@, part).0 <= SIM_BOUND
                        && -SIM_BOUND <= spec_part_abs(tmpl@.bonds[k].start@, part).1 <= SIM_BOUND
                        && -SIM_BOUND <= spec_part_abs(tmpl@.bonds[k].end@, part).0 <= SIM_BOUND
                        && -SIM_BOUND <= spec_part_abs(tmpl@.bonds[k].end@, part).1 <= SIM_BOUND);
                }
            }
        };
    }
    if !check_mol_bounds(&moved, SIM_BOUND) {
        return Err(ValidationError::PositionOutOfRange { part: at });
    }
    proof {
        let ghost tr1 = crate::data::PosTransform::Rotation(HexIndex { q: 0, r: 0 }, rot);
        let ghost tr2 = crate::data::PosTransform::Translate(pos);
        assert(tr1.wf() && (forall|i: int|
            0 <= i < tmpl@.atoms.len() ==> (#[trigger] rotated@.atoms[i]).0@ == tr1.apply(
                tmpl@.atoms[i].0@,
            ) && rotated@.atoms[i].1 == tmpl@.atoms[i].1) && (forall|k: int|
            0 <= k < tmpl@.bonds.len() ==> (#[trigger] rotated@.bonds[k]).start@ == tr1.apply(
                tmpl@.bonds[k].start@,
            ) && rotated@.bonds[k].end@ == tr1.apply(tmpl@.bonds[k].end@) && rotated@.bonds[k].ty
                == tmpl@.bonds[k].ty));
        assert(tr2.wf() && (forall|i: int|
            0 <= i < rotated@.atoms.len() ==> (#[trigger] moved@.atoms[i]).0@ == tr2.apply(
                rotated@.atoms[i].0@,
            ) && moved@.atoms[i].1 == rotated@.atoms[i].1) && (forall|k: int|
            0 <= k < rotated@.bonds.len() ==> (#[trigger] moved@.bonds[k]).start@ == tr2.apply(
                rotated@.bonds[k].start@,
            ) && moved@.bonds[k].end@ == tr2.apply(rotated@.bonds[k].end@) && moved@.bonds[k].ty
                == rotated@.bonds[k].ty));
        assert(moved@.wf() == tmpl@.wf()) by {
            lemma_transformed_wf(tmpl@, rotated@, moved@);
        };
    }
    Ok(moved)
}

/// Rotating and translating a molecule preserves well-formedness in both
/// directions: the transforms are injective position maps that keep atom
/// and bond order.
proof fn lemma_transformed_wf(t: MolView, r: MolView, m: MolView)
    requires
        r.atoms.len() == t.atoms.len(),
        m.atoms.len() == r.atoms.len(),
        m.bonds.len() == r.bonds.len(),
        r.bonds.len() == t.bonds.len(),
        exists|tr1: crate::data::PosTransform|
            (#[trigger] tr1.wf()) && (forall|i: int|
                0 <= i < t.atoms.len() ==> (#[trigger] r.atoms[i]).0@ == tr1.apply(t.atoms[i].0@)
                    && r.atoms[i].1 == t.atoms[i].1) && (forall|k: int|
                0 <= k < t.bonds.len() ==> (#[trigger] r.bonds[k]).start@ == tr1.apply(
                    t.bonds[k].start@,
                ) && r.bonds[k].end@ == tr1.apply(t.bonds[k].end@) && r.bonds[k].ty
                    == t.bonds[k].ty),
        exists|tr2: crate::data::PosTransform|
            (#[trigger] tr2.wf()) && (forall|i: int|
                0 <= i < r.atoms.len() ==> (#[trigger] m.atoms[i]).0@ == tr2.apply(r.atoms[i].0@)
                    && m.atoms[i].1 == r.atoms[i].1) && (forall|k: int|
                0 <= k < r.bonds.len() ==> (#[trigger] m.bonds[k]).start@ == tr2.apply(
                    r.bonds[k].start@,
                ) && m.bonds[k].end@ == tr2.apply(r.bonds[k].end@) && m.bonds[k].ty
                    == r.bonds[k].ty),
    ensures
        m.wf() == t.wf(),
{
    let tr1 = choose|tr1: crate::data::PosTransform|
        (#[trigger] tr1.wf()) && (forall|i: int|
            0 <= i < t.atoms.len() ==> (#[trigger] r.atoms[i]).0@ == tr1.apply(t.atoms[i].0@)
                && r.atoms[i].1 == t.atoms[i].1) && (forall|k: int|
            0 <= k < t.bonds.len() ==> (#[trigger] r.bonds[k]).start@ == tr1.apply(
                t.bonds[k].start@,
            ) && r.bonds[k].end@ == tr1.apply(t.bonds[k].end@) && r.bonds[k].ty == t.bonds[k].ty);
    let tr2 = choose|tr2: crate::data::PosTransform|
        (#[trigger] tr2.wf()) && (forall|i: int|
            0 <= i < r.atoms.len() ==> (#[trigger] m.atoms[i]).0@ == tr2.apply(r.atoms[i].0@)
                && m.atoms[i].1 == r.atoms[i].1) && (forall|k: int|
            0 <= k < r.bonds.len() ==> (#[trigger] m.bonds[k]).start@ == tr2.apply(
                r.bonds[k].start@,
            ) && m.bonds[k].end@ == tr2.apply(r.bonds[k].end@) && m.bonds[k].ty == r.bonds[k].ty);
    lemma_mapped_wf_iff(t, r, tr1);
    lemma_mapped_wf_iff(r, m, tr2);
}

/// An injective elementwise position map preserves uniqueness, bond closure
/// and hence well-formedness, in both directions.
proof fn lemma_mapped_wf_iff(t: MolView, r: MolView, tr: crate::data::PosTransform)
    requires
        tr.wf(),
        r.atoms.len() == t.atoms.len(),
        r.bonds.len() == t.bonds.len(),
        forall|i: int|
            0 <= i < t.atoms.len() ==> (#[trigger] r.atoms[i]).0@ == tr.apply(t.atoms[i].0@)
                && r.atoms[i].1 == t.atoms[i].1,
        forall|k: int|
            0 <= k < t.bonds.len() ==> (#[trigger] r.bonds[k]).start@ == tr.apply(
                t.bonds[k].start@,
            ) && r.bonds[k].end@ == tr.apply(t.bonds[k].end@) && r.bonds[k].ty == t.bonds[k].ty,
    ensures
        r.wf() == t.wf(),
{
    assert(t.unique_positions() == r.unique_positions()) by {
        if t.unique_positions() {
            assert forall|i: int, j: int| 0 <= i < j < r.atoms.len() implies r.atoms[i].0
                != r.atoms[j].0 by {
                if r.atoms[i].0 == r.atoms[j].0 {
                    crate::data::lemma_transform_injective(tr, t.atoms[i].0@, t.atoms[j].0@);
                    assert(t.atoms[i].0@ == t.atoms[j].0@);
                    assert(t.atoms[i].0 == t.atoms[j].0) by {
                        assert(t.atoms[i].0.q as int == t.atoms[j].0.q as int);
                    };
                }
            }
        }
        if r.unique_positions() {
            assert forall|i: int, j: int| 0 <= i < j < t.atoms.len() implies t.atoms[i].0
                != t.atoms[j].0 by {
                if t.atoms[i].0 == t.atoms[j].0 {
                    assert(r.atoms[i].0@ == r.atoms[j].0@);
                    assert(r.atoms[i].0 == r.atoms[j].0) by {
                        assert(r.atoms[i].0.q as int == r.atoms[j].0.q as int);
                    };
                }
            }
        }
    };
    assert(t.bonds_closed() == r.bonds_closed()) by {
        if t.bonds_closed() {
            assert forall|k: int| 0 <= k < r.bonds.len() implies r.has_atom(
                (#[trigger] r.bonds[k]).start,
            ) && r.has_atom(r.bonds[k].end) by {
                let i = choose|i: int| 0 <= i < t.atoms.len() && t.atoms[i].0 == t.bonds[k].start;
                assert(r.atoms[i].0@ == r.bonds[k].start@);
                assert(r.atoms[i].0 == r.bonds[k].start) by {
                    assert(r.atoms[i].0.q as int == r.bonds[k].start.q as int);
                };
                let j = choose|j: int| 0 <= j < t.atoms.len() && t.atoms[j].0 == t.bonds[k].end;
                assert(r.atoms[j].0@ == r.bonds[k].end@);
                assert(r.atoms[j].0 == r.bonds[k].end) by {
                    assert(r.atoms[j].0.q as int == r.bonds[k].end.q as int);
                };
            }
        }
        if r.bonds_closed() {
            assert forall|k: int| 0 <= k < t.bonds.len() implies t.has_atom(
                (#[trigger] t.bonds[k]).start,
            ) && t.has_atom(t.bonds[k].end) by {
                let i = choose|i: int| 0 <= i < r.atoms.len() && r.atoms[i].0 == r.bonds[k].start;
                crate::data::lemma_transform_injective(tr, t.atoms[i].0@, t.bonds[k].start@);
                assert(t.atoms[i].0 == t.bonds[k].start) by {
                    assert(t.atoms[i].0.q as int == t.bonds[k].start.q as int);
                };
                let j = choose|j: int| 0 <= j < r.atoms.len() && r.atoms[j].0 == r.bonds[k].end;
                crate::data::lemma_transform_injective(tr, t.atoms[j].0@, t.bonds[k].end@);
                assert(t.atoms[j].0 == t.bonds[k].end) by {
                    assert(t.atoms[j].0.q as int == t.bonds[k].end.q as int);
                };
            }
        }
    };
}

impl SimPart {
    /// Build a live part from a validated file part and the puzzle. The
    /// caller has already validated indices, so reagent and product indices
    /// are in range. Succeeds exactly when `spec_build_error` allows it:
    /// positions, sizes and board images in range, and the kind one this
    /// engine instantiates.
    pub fn from_solution_part(part: &crate::data::Part, puzzle: &Puzzle, at: usize) -> (res: Result<
        SimPart,
        ValidationError,
    >)
        requires
            part@.ty == PartType::Input ==> 0 <= part@.index < puzzle@.reagents.len(),
            (part@.ty == PartType::Output || part@.ty == PartType::PolymerOutput) ==> 0
                <= part@.index < puzzle@.products.len(),
        ensures
            match spec_build_error(part@, puzzle@, at) {
                Some(e) => res == Err::<SimPart, ValidationError>(e),
                None => res matches Ok(sp) && sp.wf() && sim_part_matches(sp, part@, puzzle@) && (
                part@.ty == PartType::Input ==> puzzle@.reagents[part@.index as int].wf()) && (
                part@.ty == PartType::Output ==> puzzle@.products[part@.index as int].wf()),
            },
    {
        let pos = part.pos;
        if pos.q < -SIM_BOUND || pos.q > SIM_BOUND || pos.r < -SIM_BOUND || pos.r > SIM_BOUND {
            return Err(ValidationError::PositionOutOfRange { part: at });
        }
        let rotation = HexRotation::from_signed(part.rotation as i64);
        let ty: SimPartType = match part.ty {
            PartType::Input => {
                let m = match build_abs_molecule(
                    &puzzle.reagents[part.index as usize],
                    pos,
                    part.rotation,
                    at,
                    Ghost(part@),
                ) {
                    Ok(m) => m,
                    Err(e) => {
                        return Err(e);
                    },
                };
                if !m.check_wf() {
                    return Err(ValidationError::PositionOutOfRange { part: at });
                }
                SimPartType::Input(Input { m, fired: false })
            },
            PartType::Output => {
                let m = match build_abs_molecule(
                    &puzzle.products[part.index as usize],
                    pos,
                    part.rotation,
                    at,
                    Ghost(part@),
                ) {
                    Ok(m) => m,
                    Err(e) => {
                        return Err(e);
                    },
                };
                if !m.check_wf() {
                    return Err(ValidationError::PositionOutOfRange { part: at });
                }
                let required: u64 = if puzzle.product_multiplier >= 0 {
                    puzzle.product_multiplier as u64
                } else {
                    0
                };
                SimPartType::Output(Output { m, completed: 0, required })
            },
            PartType::Arm | PartType::BiArm | PartType::TriArm | PartType::HexArm
                | PartType::PistonArm => {
                if part.arm_length < 0 || part.arm_length > 3 {
                    return Err(ValidationError::PositionOutOfRange { part: at });
                }
                let grippers: u8 = match part.ty {
                    PartType::BiArm => 2,
                    PartType::TriArm => 3,
                    PartType::HexArm => 6,
                    _ => 1,
                };
                let piston = match part.ty {
                    PartType::PistonArm => true,
                    _ => false,
                };
                SimPartType::Arms(
                    SimArm {
                        length: part.arm_length,
                        grippers,
                        piston,
                        instructions: crate::data::copy_vec(&part.instructions),
                    },
                )
            },
            PartType::Track => SimPartType::Track,
            PartType::Bonding => SimPartType::Bonding(SimBonding {}),
            PartType::MultiBonding => SimPartType::MultiBonding,
            PartType::Unbonding => SimPartType::Unbonding(SimUnbonding {}),
            PartType::Calcification => SimPartType::Calcification(SimCalcification {}),
            PartType::Animismus => SimPartType::Animismus,
            PartType::Projection => SimPartType::Projection(SimProjection {}),
            PartType::Purification => SimPartType::Purification(SimPurification {}),
            PartType::Conduit => SimPartType::Conduit(Conduit { conduit_index: part.conduit_index }),
            PartType::Equilibrium => SimPartType::Equilibrium,
            PartType::Disposal => SimPartType::Disposal,
            PartType::Duplication => SimPartType::Duplication,
            _ => {
                return Err(ValidationError::UnsupportedPartType { part: at });
            },
        };
        Ok(SimPart { pos, rotation, ty })
    }
}

impl Molecule {
    /// Check the molecule invariant: unique positions and closed bonds.
    pub fn check_wf(&self) -> (res: bool)
        ensures
            res == self@.wf(),
    {
        let mut i: usize = 0;
        while i < self.atoms.len()
            invariant
                i <= self.atoms@.len(),
                forall|a: int, b: int|
                    0 <= a < b < self.atoms@.len() && b < i as int ==> (
                    #[trigger] self.atoms@[a]).0 != (#[trigger] self.atoms@[b]).0,
            decreases self.atoms@.len() - i,
        {
            let mut j: usize = 0;
            while j < i
                invariant
                    j <= i,
                    i < self.atoms@.len(),
                    forall|a: int|
                        0 <= a < j as int ==> (#[trigger] self.atoms@[a]).0 != self.atoms@[
                            i as int].0,
                decreases i - j,
            {
                if self.atoms[j].0.q == self.atoms[i].0.q && self.atoms[j].0.r
                    == self.atoms[i].0.r {
                    proof {
                        assert(self.atoms@[j as int].0 == self.atoms@[i as int].0);
                        assert(!self@.unique_positions()) by {
                            if self@.unique_positions() {
                                assert(self@.atoms[j as int].0 != self@.atoms[i as int].0);
                            }
                        };
                    }
                    return false;
                }
                proof {
                    assert(self.atoms@[j as int].0.q != self.atoms@[i as int].0.q
                        || self.atoms@[j as int].0.r != self.atoms@[i as int].0.r);
                }
                j = j + 1;
            }
            i = i + 1;
        }
        let mut k: usize = 0;
        while k < self.bonds.len()
            invariant
                forall|a: int, b: int|
                    0 <= a < b < self.atoms@.len() ==> (#[trigger] self.atoms@[a]).0 != (
                    #[trigger] self.atoms@[b]).0,
                k <= self.bonds@.len(),
                forall|c: int|
                    0 <= c < k as int ==> self@.has_atom((#[trigger] self.bonds@[c]).start)
                        && self@.has_atom(self.bonds@[c].end),
            decreases self.bonds@.len() - k,
        {
            let b = self.bonds[k];
            if !self.contains_pos(b.start) || !self.contains_pos(b.end) {
                return false;
            }
            k = k + 1;
        }
        true
    }
}

/// The engine's whole working set: the live parts and molecules of one run.
#[derive(Debug)]
pub struct Sim {
    /// Live parts, in solution order.
    pub parts: Vec<SimPart>,
    /// Live molecules, in creation order.
    pub molecules: Vec<SimMolecule>,
}

/// First molecule index from `i` on with an atom at board position `p`.
pub open spec fn spec_first_mol(mols: Seq<SimMolecule>, p: (int, int), i: int) -> Option<int>
    decreases mols.len() - i,
{
    if i < 0 || i >= mols.len() {
        None
    } else if sm_has(mols[i], p) {
        Some(i)
    } else {
        spec_first_mol(mols, p, i + 1)
    }
}

/// First molecule index from `i` on that is structurally equivalent to the
/// absolute target `m` and not held by an arm.
pub open spec fn spec_first_is(mols: Seq<SimMolecule>, m: MolView, i: int) -> Option<int>
    decreases mols.len() - i,
{
    if i < 0 || i >= mols.len() {
        None
    } else if !mols[i].grabbed && spec_sm_is(mols[i], m) {
        Some(i)
    } else {
        spec_first_is(mols, m, i + 1)
    }
}

/// Every output part has consumed its required count.
pub open spec fn outputs_complete(parts: Seq<SimPart>) -> bool {
    forall|i: int|
        0 <= i < parts.len() ==> match (#[trigger] parts[i]).ty {
            SimPartType::Output(out) => out.completed >= out.required,
            _ => true,
        }
}

impl Sim {
    /// All molecules and parts well-formed.
    pub open spec fn wf(self) -> bool {
        &&& forall|i: int| 0 <= i < self.molecules@.len() ==> (#[trigger] self.molecules@[i]).wf()
        &&& forall|i: int| 0 <= i < self.parts@.len() ==> (#[trigger] self.parts@[i]).wf()
    }

    /// Build the engine state for one run: validate the solution against the
    /// puzzle, then instantiate every part. Fails exactly on the first
    /// validation error, else the first construction error, in part order;
    /// success is owed otherwise, with an empty board and every part
    /// instantiated in order.
    pub fn create(puzzle: &Puzzle, solution: &Solution) -> (res: Result<Sim, ValidationError>)
        ensures
            match spec_create_error(puzzle@, solution@.parts) {
                Some(e) => res == Err::<Sim, ValidationError>(e),
                None => res matches Ok(sim) && sim.wf() && sim.molecules@.len() == 0
                    && sim.parts@.len() == solution@.parts.len() && (forall|i: int|
                    0 <= i < solution@.parts.len() ==> sim_part_matches(
                        #[trigger] sim.parts@[i],
                        solution@.parts[i],
                        puzzle@,
                    )),
            },
    {
        let cleaned = match puzzle.clean_solution(solution) {
            Ok(s) => s,
            Err(e) => {
                return Err(e);
            },
        };
        proof {
            lemma_no_part_errors(puzzle@, solution@.parts, 0);
        }
        let mut parts: Vec<SimPart> = Vec::new();
        let mut i: usize = 0;
        while i < cleaned.parts.len()
            invariant
                cleaned@ == solution@,
                puzzle@ == puzzle@,
                crate::data::spec_first_error(puzzle@, solution@.parts, 0) is None,
                forall|k: int|
                    0 <= k < solution@.parts.len() ==> crate::data::spec_part_error(
                        puzzle@,
                        #[trigger] solution@.parts[k],
                        k as usize,
                    ) is None,
                i <= cleaned.parts@.len(),
                parts@.len() == i as int,
                spec_first_build_error(puzzle@, solution@.parts, 0) == spec_first_build_error(
                    puzzle@,
                    solution@.parts,
                    i as int,
                ),
                forall|k: int|
                    0 <= k < i as int ==> (#[trigger] parts@[k]).wf() && sim_part_matches(
                        parts@[k],
                        solution@.parts[k],
                        puzzle@,
                    ),
            decreases cleaned.parts@.len() - i,
        {
            proof {
                assert(cleaned@.parts[i as int] == solution@.parts[i as int]);
                assert(crate::data::spec_part_error(
                    puzzle@,
                    solution@.parts[i as int],
                    i as usize,
                ) is None);
            }
            let sp = match SimPart::from_solution_part(&cleaned.parts[i], puzzle, i) {
                Ok(sp) => sp,
                Err(e) => {
                    return Err(e);
                },
            };
            parts.push(sp);
            i = i + 1;
        }
        Ok(Sim { parts, molecules: Vec::new() })
    }

    /// Look up the atom at a board position: the first molecule holding one,
    /// with its element.
    pub fn lookup_atom(&self, pos: HexIndex) -> (res: Option<AtomLookupResult>)
        requires
            self.wf(),
            coords_ok(pos@),
        ensures
            match spec_first_mol(self.molecules@, pos@, 0) {
                Some(i) => res is Some && res->0.molecule == i && Some(res->0.atom_ty)
                    == spec_sm_lookup(
                    self.molecules@[i].layout@.atoms,
                    self.molecules@[i].pos@,
                    pos@,
                ),
                None => res is None,
            },
    {
        let mut i: usize = 0;
        while i < self.molecules.len()
            invariant
                self.wf(),
                coords_ok(pos@),
                i <= self.molecules@.len(),
                spec_first_mol(self.molecules@, pos@, 0) == spec_first_mol(
                    self.molecules@,
                    pos@,
                    i as int,
                ),
            decreases self.molecules@.len() - i,
        {
            let sm = &self.molecules[i];
            if sm.contains_pos(pos) {
                let atom = sm.atom_at(pos);
                proof {
                    lemma_sm_lookup_some(sm.layout@.atoms, sm.pos@, pos@);
                }
                match atom {
                    Some(a) => {
                        return Some(AtomLookupResult { atom_ty: a, molecule: i });
                    },
                    None => {
                        proof {
                            assert(false);
                        }
                    },
                }
            }
            i = i + 1;
        }
        None
    }
}

/// When the part list has no validation error from the start, no single part
/// has one.
proof fn lemma_no_part_errors(pz: crate::data::PuzzleView, parts: Seq<PartView>, j: int)
    requires
        0 <= j,
        crate::data::spec_first_error(pz, parts, j) is None,
    ensures
        forall|k: int|
            j <= k < parts.len() && 0 <= k ==> crate::data::spec_part_error(
                pz,
                #[trigger] parts[k],
                k as usize,
            ) is None,
    decreases parts.len() - j,
{
    if 0 <= j < parts.len() {
        assert(crate::data::spec_part_error(pz, parts[j], j as usize) is None);
        lemma_no_part_errors(pz, parts, j + 1);
    }
}

/// The instruction scheduled on a tape for a cycle: the first pair whose
/// cycle index matches, or blank.
pub open spec fn spec_tape(tape: Seq<(Instruction, i32)>, cycle: i32) -> Instruction
    decreases tape.len(),
{
    if tape.len() == 0 {
        Instruction::Blank
    } else if tape[0].1 == cycle {
        tape[0].0
    } else {
        spec_tape(tape.drop_first(), cycle)
    }
}

/// Look up the instruction scheduled for a cycle; cycles beyond the 32-bit
/// range have no tape entries.
#[verifier::loop_isolation(false)]
pub fn tape_lookup(tape: &Vec<(Instruction, i32)>, cycle: u64) -> (res: Instruction)
    ensures
        cycle <= i32::MAX ==> res == spec_tape(tape@, cycle as i32),
        cycle > i32::MAX ==> res == Instruction::Blank,
{
    if cycle > 0x7FFFFFFF {
        return Instruction::Blank;
    }
    let c = cycle as i32;
    let mut i: usize = 0;
    proof {
        assert(tape@.skip(0) =~= tape@);
    }
    while i < tape.len()
        invariant
            i <= tape@.len(),
            spec_tape(tape@, c) == spec_tape(tape@.skip(i as int), c),
        decreases tape@.len() - i,
    {
        let (ins, at) = tape[i];
        proof {
            assert(tape@.skip(i as int)[0] == tape@[i as int]);
            assert(tape@.skip(i as int).drop_first() =~= tape@.skip(i as int + 1));
        }
        if at == c {
            return ins;
        }
        i = i + 1;
    }
    Instruction::Blank
}

/// Replace the first atom at board position `p` by salt if it is one of the
/// four elements, leaving everything else unchanged.
pub open spec fn spec_calcify(atoms: Seq<(HexIndex, Atom)>, base: (int, int), p: (int, int)) -> Seq<
    (HexIndex, Atom),
>
    decreases atoms.len(),
{
    if atoms.len() == 0 {
        atoms
    } else if hex_add(atoms[0].0@, base) == p {
        if atoms[0].1 == Atom::Air || atoms[0].1 == Atom::Earth || atoms[0].1 == Atom::Fire
            || atoms[0].1 == Atom::Water {
            seq![(atoms[0].0, Atom::Salt)] + atoms.drop_first()
        } else {
            atoms
        }
    } else {
        seq![atoms[0]] + spec_calcify(atoms.drop_first(), base, p)
    }
}

/// Whether an atom is one of the four classical elements.
pub open spec fn spec_is_elemental(a: Atom) -> bool {
    a == Atom::Air || a == Atom::Earth || a == Atom::Fire || a == Atom::Water
}

/// The metal one step up the promotion ladder, or `None` at the top.
pub open spec fn spec_next_metal(a: Atom) -> Option<Atom> {
    match a {
        Atom::Lead => Some(Atom::Tin),
        Atom::Tin => Some(Atom::Iron),
        Atom::Iron => Some(Atom::Copper),
        Atom::Copper => Some(Atom::Silver),
        Atom::Silver => Some(Atom::Gold),
        _ => None,
    }
}

/// The metal one step up the promotion ladder, computed.
pub fn next_metal(a: Atom) -> (res: Option<Atom>)
    ensures
        res == spec_next_metal(a),
{
    match a {
        Atom::Lead => Some(Atom::Tin),
        Atom::Tin => Some(Atom::Iron),
        Atom::Iron => Some(Atom::Copper),
        Atom::Copper => Some(Atom::Silver),
        Atom::Silver => Some(Atom::Gold),
        _ => None,
    }
}

/// When some molecule at or after `i` has an atom at `p`, the first-molecule
/// search from `i` finds one.
proof fn lemma_first_mol_some(mols: Seq<SimMolecule>, p: (int, int), i: int, e: int)
    requires
        0 <= i <= e < mols.len(),
        sm_has(mols[e], p),
    ensures
        spec_first_mol(mols, p, i) is Some,
    decreases e - i,
{
    if !sm_has(mols[i], p) {
        lemma_first_mol_some(mols, p, i + 1, e);
    }
}

/// When no molecule from `i` on has an atom at `p`, the first-molecule
/// search from `i` finds nothing.
proof fn lemma_first_mol_none(mols: Seq<SimMolecule>, p: (int, int), i: int)
    requires
        forall|k: int| i <= k < mols.len() ==> !sm_has(#[trigger] mols[k], p),
    ensures
        spec_first_mol(mols, p, i) is None,
    decreases mols.len() - i,
{
    if 0 <= i < mols.len() {
        lemma_first_mol_none(mols, p, i + 1);
    }
}

/// Whether a live molecule is a lone, unheld atom of the given element at
/// the given board position.
pub open spec fn spec_lone_atom(sm: SimMolecule, p: (int, int), a: Atom) -> bool {
    &&& sm.layout@.atoms.len() == 1
    &&& !sm.grabbed
    &&& spec_sm_lookup(sm.layout@.atoms, sm.pos@, p) == Some(a)
}

/// Replace the first atom at board position `p` by `to`, leaving everything
/// else unchanged.
pub open spec fn spec_set_atom(
    atoms: Seq<(HexIndex, Atom)>,
    base: (int, int),
    p: (int, int),
    to: Atom,
) -> Seq<(HexIndex, Atom)>
    decreases atoms.len(),
{
    if atoms.len() == 0 {
        atoms
    } else if hex_add(atoms[0].0@, base) == p {
        seq![(atoms[0].0, to)] + atoms.drop_first()
    } else {
        seq![atoms[0]] + spec_set_atom(atoms.drop_first(), base, p, to)
    }
}

/// When the first atom at `p` sits at index `j`, the replacement updates
/// exactly that index.
proof fn lemma_set_atom_at(
    atoms: Seq<(HexIndex, Atom)>,
    base: (int, int),
    p: (int, int),
    to: Atom,
    j: int,
)
    requires
        0 <= j < atoms.len(),
        forall|k: int| 0 <= k < j ==> hex_add((#[trigger] atoms[k]).0@, base) != p,
        hex_add(atoms[j].0@, base) == p,
    ensures
        spec_set_atom(atoms, base, p, to) =~= atoms.update(j, (atoms[j].0, to)),
    decreases j,
{
    if j == 0 {
        assert(spec_set_atom(atoms, base, p, to) =~= atoms.update(0, (atoms[0].0, to)));
    } else {
        lemma_set_atom_at(atoms.drop_first(), base, p, to, j - 1);
        assert(atoms.drop_first()[j - 1] == atoms[j]);
        assert(spec_set_atom(atoms, base, p, to) == seq![atoms[0]] + spec_set_atom(
            atoms.drop_first(),
            base,
            p,
            to,
        ));
        assert(seq![atoms[0]] + atoms.drop_first().update(j - 1, (atoms[j].0, to)) =~= atoms.update(
            j,
            (atoms[j].0, to),
        ));
    }
}

/// Replace the first atom of molecule `i` at board position `p` by `to`, in
/// place. The caller has found the atom.
#[verifier::loop_isolation(false)]
fn set_atom_molecule(mols: &mut Vec<SimMolecule>, i: usize, p: HexIndex, to: Atom) -> (res: ())
    requires
        i < old(mols)@.len(),
        old(mols)@[i as int].wf(),
        sm_has(old(mols)@[i as int], p@),
        forall|k: int| 0 <= k < old(mols)@.len() ==> (#[trigger] old(mols)@[k]).wf(),
    ensures
        final(mols)@.len() == old(mols)@.len(),
        forall|k: int|
            0 <= k < old(mols)@.len() && k != i as int ==> final(mols)@[k] == old(mols)@[k],
        final(mols)@[i as int].pos == old(mols)@[i as int].pos,
        final(mols)@[i as int].grabbed == old(mols)@[i as int].grabbed,
        final(mols)@[i as int].layout@.bonds == old(mols)@[i as int].layout@.bonds,
        final(mols)@[i as int].layout@.atoms == spec_set_atom(
            old(mols)@[i as int].layout@.atoms,
            old(mols)@[i as int].pos@,
            p@,
            to,
        ),
        forall|k: int| 0 <= k < final(mols)@.len() ==> (#[trigger] final(mols)@[k]).wf(),
    decreases 0int,
{
    let ghost orig = mols@[i as int].layout@.atoms;
    let ghost base = mols@[i as int].pos@;
    let n = mols[i].layout.atoms.len();
    let mut j: usize = 0;
    while j < n
        invariant
            i < mols@.len(),
            mols@.len() == old(mols)@.len(),
            forall|k: int| 0 <= k < mols@.len() && k != i as int ==> mols@[k] == old(mols)@[k],
            mols@[i as int] == old(mols)@[i as int],
            n == orig.len(),
            j <= n,
            forall|k: int| 0 <= k < j as int ==> hex_add((#[trigger] orig[k]).0@, base) != p@,
        decreases n - j,
    {
        let (ap, _atom) = mols[i].layout.atoms[j];
        let abs = ap.plus(mols[i].pos);
        if abs.q == p.q && abs.r == p.r {
            let mut m = mols[i].layout.duplicate();
            m.atoms.set(j, (ap, to));
            let pos = mols[i].pos;
            let grabbed = mols[i].grabbed;
            proof {
                lemma_set_atom_at(orig, base, p@, to, j as int);
                assert(m.atoms@ =~= spec_set_atom(orig, base, p@, to));
                lemma_same_positions_wf(
                    MolView { atoms: m.atoms@, bonds: m.bonds@ },
                    MolView { atoms: orig, bonds: mols@[i as int].layout@.bonds },
                );
            }
            mols.set(i, SimMolecule { layout: m, pos, grabbed });
            return ();
        }
        j = j + 1;
    }
    proof {
        assert(false);
    }
    ()
}

/// One tick of the glyph of animismus at `pos` with reduced rotation
/// `rotation`: two lone salt atoms on the glyph's cells become one vitae and
/// one mors on its output cells.
#[verifier::loop_isolation(false)]
#[verifier::rlimit(100)]
fn animismus_tick(pos: HexIndex, rotation: HexRotation, sim: &mut Sim, cycle: u64) -> (res: Result<
    (),
    SimulationError,
>)
    requires
        old(sim).wf(),
        rotation.wf(),
        -SIM_BOUND <= pos@.0 <= SIM_BOUND,
        -SIM_BOUND <= pos@.1 <= SIM_BOUND,
    ensures
        final(sim).wf(),
        final(sim).parts@ == old(sim).parts@,
        ({
            let src = pos@;
            let src2 = hex_add(pos@, crate::hex::rot_n((1int, 0int), rotation.turns as nat));
            let out1 = hex_add(
                pos@,
                crate::hex::rot_n((1int, 0int), (((rotation.turns + 2) as int) % 6) as nat),
            );
            let out2 = hex_add(
                pos@,
                crate::hex::rot_n((1int, 0int), (((rotation.turns + 4) as int) % 6) as nat),
            );
            match spec_first_mol(old(sim).molecules@, src, 0) {
                Some(i) => if spec_lone_atom(old(sim).molecules@[i], src, Atom::Salt) {
                    match spec_first_mol(old(sim).molecules@, src2, 0) {
                        Some(j) => if spec_lone_atom(old(sim).molecules@[j], src2, Atom::Salt) {
                            if spec_first_mol(old(sim).molecules@, out1, 0) is None
                                && spec_first_mol(old(sim).molecules@, out2, 0) is None {
                                if -SIM_BOUND <= out1.0 <= SIM_BOUND && -SIM_BOUND <= out1.1
                                    <= SIM_BOUND && -SIM_BOUND <= out2.0 <= SIM_BOUND && -SIM_BOUND
                                    <= out2.1 <= SIM_BOUND {
                                    let lo: int = if i < j {
                                        i
                                    } else {
                                        j
                                    };
                                    let hi: int = if i < j {
                                        j
                                    } else {
                                        i
                                    };
                                    res is Ok && i != j && final(sim).molecules@.len() == old(sim).molecules@.len() && final(sim).molecules@ == old(sim).molecules@.remove(hi).remove(lo).push(
                                        final(sim).molecules@[final(sim).molecules@.len() - 2],
                                    ).push(final(sim).molecules@.last()) && ({
                                        let vm = final(sim).molecules@[final(sim).molecules@.len() - 2];
                                        let mm = final(sim).molecules@.last();
                                        &&& !vm.grabbed && !mm.grabbed
                                        &&& vm.layout@.bonds.len() == 0 && mm.layout@.bonds.len()
                                            == 0
                                        &&& vm.layout@.atoms.len() == 1 && mm.layout@.atoms.len()
                                            == 1
                                        &&& vm.layout@.atoms[0].1 == Atom::Vitae
                                        &&& mm.layout@.atoms[0].1 == Atom::Mors
                                        &&& hex_add(vm.layout@.atoms[0].0@, vm.pos@) == out1
                                        &&& hex_add(mm.layout@.atoms[0].0@, mm.pos@) == out2
                                    })
                                } else {
                                    res == Err::<(), SimulationError>(
                                        SimulationError::OutOfBounds { cycle },
                                    ) && final(sim).molecules@ == old(sim).molecules@
                                }
                            } else {
                                res is Ok && final(sim).molecules@ == old(sim).molecules@
                            }
                        } else {
                            res is Ok && final(sim).molecules@ == old(sim).molecules@
                        },
                        None => res is Ok && final(sim).molecules@ == old(sim).molecules@,
                    }
                } else {
                    res is Ok && final(sim).molecules@ == old(sim).molecules@
                },
                None => res is Ok && final(sim).molecules@ == old(sim).molecules@,
            }
        }),
{

                        let src = pos;
        let src2 = pos.plus(hex_dir(rotation.turns()));
        let out1 = pos.plus(hex_dir((rotation.turns() + 2) % 6));
        let out2 = pos.plus(hex_dir((rotation.turns() + 4) % 6));
        proof {
            let n = rotation.turns as nat;
            assert(crate::hex::rot_n((1int, 0int), n) != (0int, 0int)) by {
                reveal_with_fuel(crate::hex::rot_n, 7);
                let t = rotation.turns;
                if t == 0 {
                } else if t == 1 {
                } else if t == 2 {
                } else if t == 3 {
                } else if t == 4 {
                } else {
                    assert(t == 5);
                }
            };
            assert(src2@ != src@);
        }
        let mut i: usize = 0;
        while i < sim.molecules.len()
            invariant
                sim.parts@ == old(sim).parts@,
                sim.molecules@ == old(sim).molecules@,
                forall|k: int|
                    0 <= k < sim.molecules@.len() ==> (#[trigger] sim.molecules@[k]).wf(),
                src == pos,
                -SIM_BOUND <= src@.0 <= SIM_BOUND,
                -SIM_BOUND <= src@.1 <= SIM_BOUND,
                src2@ == hex_add(
                    pos@,
                    crate::hex::rot_n((1int, 0int), rotation.turns as nat),
                ),
                out1@ == hex_add(
                    pos@,
                    crate::hex::rot_n(
                        (1int, 0int),
                        (((rotation.turns + 2) as int) % 6) as nat,
                    ),
                ),
                out2@ == hex_add(
                    pos@,
                    crate::hex::rot_n(
                        (1int, 0int),
                        (((rotation.turns + 4) as int) % 6) as nat,
                    ),
                ),
                src2@ != src@,
                -0x200000 <= src2@.0 <= 0x200000,
                -0x200000 <= src2@.1 <= 0x200000,
                -0x200000 <= out1@.0 <= 0x200000,
                -0x200000 <= out1@.1 <= 0x200000,
                -0x200000 <= out2@.0 <= 0x200000,
                -0x200000 <= out2@.1 <= 0x200000,
                i <= sim.molecules@.len(),
                spec_first_mol(sim.molecules@, src@, 0) == spec_first_mol(
                    sim.molecules@,
                    src@,
                    i as int,
                ),
            decreases sim.molecules@.len() - i,
        {
            if sim.molecules[i].contains_pos(src) {
                let t = sim.molecules[i].atom_at(src);
                proof {
                    lemma_sm_lookup_some(
                        sim.molecules@[i as int].layout@.atoms,
                        sim.molecules@[i as int].pos@,
                        src@,
                    );
                }
                let t = match t {
                    Some(t) => t,
                    None => {
                        proof {
                            assert(false);
                        }
                        return Ok(());
                    },
                };
                let lone = sim.molecules[i].layout.atoms.len() == 1
                    && !sim.molecules[i].grabbed && atom_eq(t, Atom::Salt);
                if !lone {
                    return Ok(());
                }
                let mut j: usize = 0;
                while j < sim.molecules.len()
                    invariant
                        sim.parts@ == old(sim).parts@,
                        sim.molecules@ == old(sim).molecules@,
                        forall|k: int|
                            0 <= k < sim.molecules@.len() ==> (
                            #[trigger] sim.molecules@[k]).wf(),
                        i < sim.molecules@.len(),
                        spec_lone_atom(sim.molecules@[i as int], src@, Atom::Salt),
                        src2@ != src@,
                        -0x200000 <= src2@.0 <= 0x200000,
                        -0x200000 <= src2@.1 <= 0x200000,
                        -0x200000 <= out1@.0 <= 0x200000,
                        -0x200000 <= out1@.1 <= 0x200000,
                        -0x200000 <= out2@.0 <= 0x200000,
                        -0x200000 <= out2@.1 <= 0x200000,
                        j <= sim.molecules@.len(),
                        spec_first_mol(sim.molecules@, src2@, 0) == spec_first_mol(
                            sim.molecules@,
                            src2@,
                            j as int,
                        ),
                    decreases sim.molecules@.len() - j,
                {
                    if sim.molecules[j].contains_pos(src2) {
                        let t2 = sim.molecules[j].atom_at(src2);
                        proof {
                            lemma_sm_lookup_some(
                                sim.molecules@[j as int].layout@.atoms,
                                sim.molecules@[j as int].pos@,
                                src2@,
                            );
                        }
                        let t2 = match t2 {
                            Some(t2) => t2,
                            None => {
                                proof {
                                    assert(false);
                                }
                                return Ok(());
                            },
                        };
                        let lone2 = sim.molecules[j].layout.atoms.len() == 1
                            && !sim.molecules[j].grabbed && atom_eq(t2, Atom::Salt);
                        if !lone2 {
                            return Ok(());
                        }
                        let mut e: usize = 0;
                        while e < sim.molecules.len()
                            invariant
                                sim.molecules@ == old(sim).molecules@,
                                forall|k: int|
                                    0 <= k < sim.molecules@.len() ==> (
                                    #[trigger] sim.molecules@[k]).wf(),
                                -0x200000 <= out1@.0 <= 0x200000,
                                -0x200000 <= out1@.1 <= 0x200000,
                                e <= sim.molecules@.len(),
                                forall|k: int|
                                    0 <= k < e as int ==> !sm_has(
                                        #[trigger] sim.molecules@[k],
                                        out1@,
                                    ),
                            decreases sim.molecules@.len() - e,
                        {
                            if sim.molecules[e].contains_pos(out1) {
                                proof {
                                    lemma_first_mol_some(
                                        sim.molecules@,
                                        out1@,
                                        0,
                                        e as int,
                                    );
                                }
                                return Ok(());
                            }
                            e = e + 1;
                        }
                        proof {
                            lemma_first_mol_none(sim.molecules@, out1@, 0);
                        }
                        let mut e2: usize = 0;
                        while e2 < sim.molecules.len()
                            invariant
                                sim.molecules@ == old(sim).molecules@,
                                forall|k: int|
                                    0 <= k < sim.molecules@.len() ==> (
                                    #[trigger] sim.molecules@[k]).wf(),
                                -0x200000 <= out2@.0 <= 0x200000,
                                -0x200000 <= out2@.1 <= 0x200000,
                                e2 <= sim.molecules@.len(),
                                forall|k: int|
                                    0 <= k < e2 as int ==> !sm_has(
                                        #[trigger] sim.molecules@[k],
                                        out2@,
                                    ),
                            decreases sim.molecules@.len() - e2,
                        {
                            if sim.molecules[e2].contains_pos(out2) {
                                proof {
                                    lemma_first_mol_some(
                                        sim.molecules@,
                                        out2@,
                                        0,
                                        e2 as int,
                                    );
                                }
                                return Ok(());
                            }
                            e2 = e2 + 1;
                        }
                        proof {
                            lemma_first_mol_none(sim.molecules@, out2@, 0);
                            assert(j != i) by {
                                if j == i {
                                    let sm = sim.molecules@[i as int];
                                    assert(sm_has(sm, src2@));
                                    let k = choose|k: int|
                                        0 <= k < sm.layout@.atoms.len() && hex_add(
                                            (#[trigger] sm.layout@.atoms[k]).0@,
                                            sm.pos@,
                                        ) == src2@;
                                    assert(k == 0);
                                    assert(hex_add(sm.layout@.atoms[0].0@, sm.pos@)
                                        == src@);
                                }
                            };
                        }
                        if out1.q < -SIM_BOUND || out1.q > SIM_BOUND || out1.r < -SIM_BOUND
                            || out1.r > SIM_BOUND || out2.q < -SIM_BOUND || out2.q
                            > SIM_BOUND || out2.r < -SIM_BOUND || out2.r > SIM_BOUND {
                            return Err(SimulationError::OutOfBounds { cycle });
                        }
                        let (lo, hi) = if i < j {
                            (i, j)
                        } else {
                            (j, i)
                        };
                        let ghost before = sim.molecules@;
                        let ghost pre1 = sim.molecules@;
                        sim.molecules.remove(hi);
                        proof {
                            assert forall|k: int|
                                0 <= k < sim.molecules@.len() implies (
                            #[trigger] sim.molecules@[k]).wf() by {
                                if k < hi as int {
                                    assert(sim.molecules@[k] == pre1[k]);
                                } else {
                                    assert(sim.molecules@[k] == pre1[k + 1]);
                                }
                            }
                        }
                        let ghost pre2 = sim.molecules@;
                        sim.molecules.remove(lo);
                        proof {
                            assert forall|k: int|
                                0 <= k < sim.molecules@.len() implies (
                            #[trigger] sim.molecules@[k]).wf() by {
                                if k < lo as int {
                                    assert(sim.molecules@[k] == pre2[k]);
                                } else {
                                    assert(sim.molecules@[k] == pre2[k + 1]);
                                }
                            }
                        }
                        let mut atoms1: Vec<(HexIndex, Atom)> = Vec::new();
                        atoms1.push((out1, Atom::Vitae));
                        let vm = SimMolecule {
                            layout: Molecule { atoms: atoms1, bonds: Vec::new() },
                            pos: HexIndex { q: 0, r: 0 },
                            grabbed: false,
                        };
                        proof {
                            assert(vm.wf()) by {
                                assert(vm.layout@.atoms.len() == 1);
                                assert(vm.layout@.bonds.len() == 0);
                            };
                        }
                        sim.molecules.push(vm);
                        let mut atoms2: Vec<(HexIndex, Atom)> = Vec::new();
                        atoms2.push((out2, Atom::Mors));
                        let mm = SimMolecule {
                            layout: Molecule { atoms: atoms2, bonds: Vec::new() },
                            pos: HexIndex { q: 0, r: 0 },
                            grabbed: false,
                        };
                        proof {
                            assert(mm.wf()) by {
                                assert(mm.layout@.atoms.len() == 1);
                                assert(mm.layout@.bonds.len() == 0);
                            };
                        }
                        sim.molecules.push(mm);
                        proof {
                            assert(sim.molecules@ =~= before.remove(hi as int).remove(
                                lo as int,
                            ).push(sim.molecules@[sim.molecules@.len() - 2]).push(
                                sim.molecules@.last(),
                            ));
                        }
                        return Ok(());
                    }
                    j = j + 1;
                }
                return Ok(());
            }
            i = i + 1;
        }
        Ok(())
    
}

/// One tick of the glyph of purification at `pos` with reduced rotation
/// `rotation`: two lone atoms of one metal on the glyph's cells fuse into
/// the next metal on its output cell.
#[verifier::loop_isolation(false)]
#[verifier::rlimit(100)]
fn purification_tick(pos: HexIndex, rotation: HexRotation, sim: &mut Sim, cycle: u64) -> (res:
    Result<(), SimulationError>)
    requires
        old(sim).wf(),
        rotation.wf(),
        -SIM_BOUND <= pos@.0 <= SIM_BOUND,
        -SIM_BOUND <= pos@.1 <= SIM_BOUND,
    ensures
        final(sim).wf(),
        final(sim).parts@ == old(sim).parts@,
        ({
            let src = pos@;
            let src2 = hex_add(pos@, crate::hex::rot_n((1int, 0int), rotation.turns as nat));
            let out = hex_add(
                pos@,
                crate::hex::rot_n((1int, 0int), (((rotation.turns + 1) as int) % 6) as nat),
            );
            match spec_first_mol(old(sim).molecules@, src, 0) {
                Some(i) => match spec_sm_lookup(
                    old(sim).molecules@[i].layout@.atoms,
                    old(sim).molecules@[i].pos@,
                    src,
                ) {
                    Some(t) => if spec_lone_atom(old(sim).molecules@[i], src, t)
                        && spec_next_metal(t) is Some {
                        match spec_first_mol(old(sim).molecules@, src2, 0) {
                            Some(j) => if spec_lone_atom(old(sim).molecules@[j], src2, t) {
                                if spec_first_mol(old(sim).molecules@, out, 0) is None {
                                    if -SIM_BOUND <= out.0 <= SIM_BOUND && -SIM_BOUND <= out.1
                                        <= SIM_BOUND {
                                        let lo: int = if i < j {
                                            i
                                        } else {
                                            j
                                        };
                                        let hi: int = if i < j {
                                            j
                                        } else {
                                            i
                                        };
                                        res is Ok && i != j && final(sim).molecules@.len() + 1
                                            == old(sim).molecules@.len() && final(sim).molecules@
                                            == old(sim).molecules@.remove(hi).remove(lo).push(
                                            final(sim).molecules@.last(),
                                        ) && ({
                                            let newm = final(sim).molecules@.last();
                                            &&& !newm.grabbed
                                            &&& newm.layout@.bonds.len() == 0
                                            &&& newm.layout@.atoms.len() == 1
                                            &&& newm.layout@.atoms[0].1 == spec_next_metal(t)->0
                                            &&& hex_add(newm.layout@.atoms[0].0@, newm.pos@) == out
                                        })
                                    } else {
                                        res == Err::<(), SimulationError>(
                                            SimulationError::OutOfBounds { cycle },
                                        ) && final(sim).molecules@ == old(sim).molecules@
                                    }
                                } else {
                                    res is Ok && final(sim).molecules@ == old(sim).molecules@
                                }
                            } else {
                                res is Ok && final(sim).molecules@ == old(sim).molecules@
                            },
                            None => res is Ok && final(sim).molecules@ == old(sim).molecules@,
                        }
                    } else {
                        res is Ok && final(sim).molecules@ == old(sim).molecules@
                    },
                    None => res is Ok && final(sim).molecules@ == old(sim).molecules@,
                },
                None => res is Ok && final(sim).molecules@ == old(sim).molecules@,
            }
        }),
{

                        let src = pos;
        let src2 = pos.plus(hex_dir(rotation.turns()));
        let out_rot: u8 = (rotation.turns() + 1) % 6;
        let out = pos.plus(hex_dir(out_rot));
        proof {
            let n = rotation.turns as nat;
            assert(crate::hex::rot_n((1int, 0int), n) != (0int, 0int)) by {
                reveal_with_fuel(crate::hex::rot_n, 7);
                let t = rotation.turns;
                if t == 0 {
                } else if t == 1 {
                } else if t == 2 {
                } else if t == 3 {
                } else if t == 4 {
                } else {
                    assert(t == 5);
                }
            };
            assert(src2@ != src@);
        }
        let mut i: usize = 0;
        while i < sim.molecules.len()
            invariant
                sim.parts@ == old(sim).parts@,
                sim.molecules@ == old(sim).molecules@,
                forall|k: int|
                    0 <= k < sim.molecules@.len() ==> (#[trigger] sim.molecules@[k]).wf(),
                src == pos,
                -SIM_BOUND <= src@.0 <= SIM_BOUND,
                -SIM_BOUND <= src@.1 <= SIM_BOUND,
                src2@ == hex_add(
                    pos@,
                    crate::hex::rot_n((1int, 0int), rotation.turns as nat),
                ),
                out@ == hex_add(
                    pos@,
                    crate::hex::rot_n(
                        (1int, 0int),
                        (((rotation.turns + 1) as int) % 6) as nat,
                    ),
                ),
                src2@ != src@,
                -0x200000 <= src2@.0 <= 0x200000,
                -0x200000 <= src2@.1 <= 0x200000,
                -0x200000 <= out@.0 <= 0x200000,
                -0x200000 <= out@.1 <= 0x200000,
                i <= sim.molecules@.len(),
                spec_first_mol(sim.molecules@, src@, 0) == spec_first_mol(
                    sim.molecules@,
                    src@,
                    i as int,
                ),
            decreases sim.molecules@.len() - i,
        {
            if sim.molecules[i].contains_pos(src) {
                let t = sim.molecules[i].atom_at(src);
                proof {
                    lemma_sm_lookup_some(
                        sim.molecules@[i as int].layout@.atoms,
                        sim.molecules@[i as int].pos@,
                        src@,
                    );
                }
                let t = match t {
                    Some(t) => t,
                    None => {
                        proof {
                            assert(false);
                        }
                        return Ok(());
                    },
                };
                let lone = sim.molecules[i].layout.atoms.len() == 1
                    && !sim.molecules[i].grabbed;
                let promotes = match next_metal(t) {
                    Some(_) => true,
                    None => false,
                };
                if !(lone && promotes) {
                    return Ok(());
                }
                let mut j: usize = 0;
                while j < sim.molecules.len()
                    invariant
                        sim.parts@ == old(sim).parts@,
                        sim.molecules@ == old(sim).molecules@,
                        forall|k: int|
                            0 <= k < sim.molecules@.len() ==> (
                            #[trigger] sim.molecules@[k]).wf(),
                        i < sim.molecules@.len(),
                        spec_lone_atom(sim.molecules@[i as int], src@, t),
                        spec_sm_lookup(
                            sim.molecules@[i as int].layout@.atoms,
                            sim.molecules@[i as int].pos@,
                            src@,
                        ) == Some(t),
                        spec_next_metal(t) is Some,
                        src2@ != src@,
                        -0x200000 <= src2@.0 <= 0x200000,
                        -0x200000 <= src2@.1 <= 0x200000,
                        -0x200000 <= out@.0 <= 0x200000,
                        -0x200000 <= out@.1 <= 0x200000,
                        j <= sim.molecules@.len(),
                        spec_first_mol(sim.molecules@, src2@, 0) == spec_first_mol(
                            sim.molecules@,
                            src2@,
                            j as int,
                        ),
                    decreases sim.molecules@.len() - j,
                {
                    if sim.molecules[j].contains_pos(src2) {
                        let t2 = sim.molecules[j].atom_at(src2);
                        proof {
                            lemma_sm_lookup_some(
                                sim.molecules@[j as int].layout@.atoms,
                                sim.molecules@[j as int].pos@,
                                src2@,
                            );
                        }
                        let t2 = match t2 {
                            Some(t2) => t2,
                            None => {
                                proof {
                                    assert(false);
                                }
                                return Ok(());
                            },
                        };
                        let lone2 = sim.molecules[j].layout.atoms.len() == 1
                            && !sim.molecules[j].grabbed;
                        if !(lone2 && atom_eq(t2, t)) {
                            return Ok(());
                        }
                        // the output cell must be empty
                        let mut e: usize = 0;
                        while e < sim.molecules.len()
                            invariant
                                sim.molecules@ == old(sim).molecules@,
                                forall|k: int|
                                    0 <= k < sim.molecules@.len() ==> (
                                    #[trigger] sim.molecules@[k]).wf(),
                                -0x200000 <= out@.0 <= 0x200000,
                                -0x200000 <= out@.1 <= 0x200000,
                                e <= sim.molecules@.len(),
                                forall|k: int|
                                    0 <= k < e as int ==> !sm_has(
                                        #[trigger] sim.molecules@[k],
                                        out@,
                                    ),
                            decreases sim.molecules@.len() - e,
                        {
                            if sim.molecules[e].contains_pos(out) {
                                proof {
                                    lemma_first_mol_some(sim.molecules@, out@, 0, e as int);
                                }
                                return Ok(());
                            }
                            e = e + 1;
                        }
                        proof {
                            lemma_first_mol_none(sim.molecules@, out@, 0);
                            assert(j != i) by {
                                if j == i {
                                    let sm = sim.molecules@[i as int];
                                    assert(sm_has(sm, src2@));
                                    let k = choose|k: int|
                                        0 <= k < sm.layout@.atoms.len() && hex_add(
                                            (#[trigger] sm.layout@.atoms[k]).0@,
                                            sm.pos@,
                                        ) == src2@;
                                    assert(k == 0);
                                    assert(hex_add(sm.layout@.atoms[0].0@, sm.pos@)
                                        == src@);
                                }
                            };
                        }
                        if out.q < -SIM_BOUND || out.q > SIM_BOUND || out.r < -SIM_BOUND
                            || out.r > SIM_BOUND {
                            return Err(SimulationError::OutOfBounds { cycle });
                        }
                        let produced = match next_metal(t) {
                            Some(n) => n,
                            None => {
                                proof {
                                    assert(false);
                                }
                                return Ok(());
                            },
                        };
                        let (lo, hi) = if i < j {
                            (i, j)
                        } else {
                            (j, i)
                        };
                        let ghost before = sim.molecules@;
                        let ghost pre1 = sim.molecules@;
                        sim.molecules.remove(hi);
                        proof {
                            assert forall|k: int|
                                0 <= k < sim.molecules@.len() implies (
                            #[trigger] sim.molecules@[k]).wf() by {
                                if k < hi as int {
                                    assert(sim.molecules@[k] == pre1[k]);
                                } else {
                                    assert(sim.molecules@[k] == pre1[k + 1]);
                                }
                            }
                        }
                        let ghost pre2 = sim.molecules@;
                        sim.molecules.remove(lo);
                        proof {
                            assert forall|k: int|
                                0 <= k < sim.molecules@.len() implies (
                            #[trigger] sim.molecules@[k]).wf() by {
                                if k < lo as int {
                                    assert(sim.molecules@[k] == pre2[k]);
                                } else {
                                    assert(sim.molecules@[k] == pre2[k + 1]);
                                }
                            }
                        }
                        let mut atoms: Vec<(HexIndex, Atom)> = Vec::new();
                        atoms.push((out, produced));
                        let newm = SimMolecule {
                            layout: Molecule { atoms, bonds: Vec::new() },
                            pos: HexIndex { q: 0, r: 0 },
                            grabbed: false,
                        };
                        proof {
                            assert(newm.wf()) by {
                                assert(newm.layout@.atoms.len() == 1);
                                assert(newm.layout@.bonds.len() == 0);
                            };
                        }
                        sim.molecules.push(newm);
                        proof {
                            assert(sim.molecules@ =~= before.remove(hi as int).remove(
                                lo as int,
                            ).push(sim.molecules@.last()));
                        }
                        return Ok(());
                    }
                    j = j + 1;
                }
                return Ok(());
            }
            i = i + 1;
        }
        Ok(())
    
}

/// One tick of the glyph of projection at `pos` with reduced rotation
/// `rotation`: a lone quicksilver atom on the glyph is consumed and the
/// metal beside it promotes one step.
#[verifier::loop_isolation(false)]
#[verifier::rlimit(100)]
fn projection_tick(pos: HexIndex, rotation: HexRotation, sim: &mut Sim) -> (res: Result<
    (),
    SimulationError,
>)
    requires
        old(sim).wf(),
        rotation.wf(),
        -SIM_BOUND <= pos@.0 <= SIM_BOUND,
        -SIM_BOUND <= pos@.1 <= SIM_BOUND,
    ensures
        final(sim).wf(),
        final(sim).parts@ == old(sim).parts@,
        res is Ok,
        ({
            let src = pos@;
            let dst = hex_add(pos@, crate::hex::rot_n((1int, 0int), rotation.turns as nat));
            match spec_first_mol(old(sim).molecules@, src, 0) {
                Some(i) => if spec_lone_atom(old(sim).molecules@[i], src, Atom::Quicksilver) {
                    match spec_first_mol(old(sim).molecules@, dst, 0) {
                        Some(j) => match spec_sm_lookup(
                            old(sim).molecules@[j].layout@.atoms,
                            old(sim).molecules@[j].pos@,
                            dst,
                        ) {
                            Some(t) => match spec_next_metal(t) {
                                Some(n) => j != i && ({
                                    let j2: int = if j < i {
                                        j
                                    } else {
                                        j - 1
                                    };
                                    &&& final(sim).molecules@.len() + 1 == old(sim).molecules@.len()
                                    &&& final(sim).molecules@ == old(sim).molecules@.update(
                                        j,
                                        final(sim).molecules@[j2],
                                    ).remove(i)
                                    &&& final(sim).molecules@[j2].pos == old(sim).molecules@[j].pos
                                    &&& final(sim).molecules@[j2].grabbed == old(sim).molecules@[j].grabbed
                                    &&& final(sim).molecules@[j2].layout@.bonds == old(sim).molecules@[j].layout@.bonds
                                    &&& final(sim).molecules@[j2].layout@.atoms == spec_set_atom(
                                        old(sim).molecules@[j].layout@.atoms,
                                        old(sim).molecules@[j].pos@,
                                        dst,
                                        n,
                                    )
                                }),
                                None => final(sim).molecules@ == old(sim).molecules@,
                            },
                            None => final(sim).molecules@ == old(sim).molecules@,
                        },
                        None => final(sim).molecules@ == old(sim).molecules@,
                    }
                } else {
                    final(sim).molecules@ == old(sim).molecules@
                },
                None => final(sim).molecules@ == old(sim).molecules@,
            }
        }),
{

                        let src = pos;
        let dst = pos.plus(hex_dir(rotation.turns()));
        proof {
            let n = rotation.turns as nat;
            assert(crate::hex::rot_n((1int, 0int), n) != (0int, 0int)) by {
                reveal_with_fuel(crate::hex::rot_n, 7);
                let t = rotation.turns;
                if t == 0 {
                } else if t == 1 {
                } else if t == 2 {
                } else if t == 3 {
                } else if t == 4 {
                } else {
                    assert(t == 5);
                }
            };
            assert(dst@ != src@);
        }
        let mut i: usize = 0;
        while i < sim.molecules.len()
            invariant
                sim.parts@ == old(sim).parts@,
                sim.molecules@ == old(sim).molecules@,
                forall|k: int|
                    0 <= k < sim.molecules@.len() ==> (#[trigger] sim.molecules@[k]).wf(),
                src == pos,
                -SIM_BOUND <= src@.0 <= SIM_BOUND,
                -SIM_BOUND <= src@.1 <= SIM_BOUND,
                dst@ == hex_add(
                    pos@,
                    crate::hex::rot_n((1int, 0int), rotation.turns as nat),
                ),
                dst@ != src@,
                -0x200000 <= dst@.0 <= 0x200000,
                -0x200000 <= dst@.1 <= 0x200000,
                i <= sim.molecules@.len(),
                spec_first_mol(sim.molecules@, src@, 0) == spec_first_mol(
                    sim.molecules@,
                    src@,
                    i as int,
                ),
            decreases sim.molecules@.len() - i,
        {
            if sim.molecules[i].contains_pos(src) {
                let lone = sim.molecules[i].layout.atoms.len() == 1
                    && !sim.molecules[i].grabbed;
                let qs = match sim.molecules[i].atom_at(src) {
                    Some(Atom::Quicksilver) => true,
                    _ => false,
                };
                if !(lone && qs) {
                    return Ok(());
                }
                let mut j: usize = 0;
                while j < sim.molecules.len()
                    invariant
                        sim.parts@ == old(sim).parts@,
                        sim.molecules@ == old(sim).molecules@,
                        forall|k: int|
                            0 <= k < sim.molecules@.len() ==> (
                            #[trigger] sim.molecules@[k]).wf(),
                        i < sim.molecules@.len(),
                        spec_lone_atom(sim.molecules@[i as int], src@, Atom::Quicksilver),
                        dst@ != src@,
                        -0x200000 <= dst@.0 <= 0x200000,
                        -0x200000 <= dst@.1 <= 0x200000,
                        j <= sim.molecules@.len(),
                        spec_first_mol(sim.molecules@, dst@, 0) == spec_first_mol(
                            sim.molecules@,
                            dst@,
                            j as int,
                        ),
                    decreases sim.molecules@.len() - j,
                {
                    if sim.molecules[j].contains_pos(dst) {
                        let t = sim.molecules[j].atom_at(dst);
                        proof {
                            lemma_sm_lookup_some(
                                sim.molecules@[j as int].layout@.atoms,
                                sim.molecules@[j as int].pos@,
                                dst@,
                            );
                        }
                        let t = match t {
                            Some(t) => t,
                            None => {
                                proof {
                                    assert(false);
                                }
                                return Ok(());
                            },
                        };
                        let n = match next_metal(t) {
                            Some(n) => n,
                            None => {
                                return Ok(());
                            },
                        };
                        proof {
                            // the lone quicksilver holds only `src`,
                            // so it is not the molecule at `dst`
                            assert(j != i) by {
                                if j == i {
                                    let sm = sim.molecules@[i as int];
                                    assert(sm_has(sm, dst@));
                                    let k = choose|k: int|
                                        0 <= k < sm.layout@.atoms.len() && hex_add(
                                            (#[trigger] sm.layout@.atoms[k]).0@,
                                            sm.pos@,
                                        ) == dst@;
                                    assert(k == 0);
                                    assert(spec_sm_lookup(
                                        sm.layout@.atoms,
                                        sm.pos@,
                                        src@,
                                    ) == Some(Atom::Quicksilver));
                                    assert(hex_add(sm.layout@.atoms[0].0@, sm.pos@)
                                        == src@);
                                }
                            };
                        }
                        let ghost before = sim.molecules@;
                        set_atom_molecule(&mut sim.molecules, j, dst, n);
                        let ghost mid = sim.molecules@;
                        proof {
                            assert(mid =~= before.update(j as int, mid[j as int]));
                        }
                        let ghost pre = sim.molecules@;
                        sim.molecules.remove(i);
                        proof {
                            assert forall|k: int|
                                0 <= k < sim.molecules@.len() implies (
                            #[trigger] sim.molecules@[k]).wf() by {
                                if k < i as int {
                                    assert(sim.molecules@[k] == pre[k]);
                                } else {
                                    assert(sim.molecules@[k] == pre[k + 1]);
                                }
                            }
                            let j2: int = if (j as int) < i as int {
                                j as int
                            } else {
                                j as int - 1
                            };
                            assert(sim.molecules@[j2] == mid[j as int]);
                            assert(sim.molecules@ =~= before.update(
                                j as int,
                                sim.molecules@[j2],
                            ).remove(i as int));
                        }
                        return Ok(());
                    }
                    j = j + 1;
                }
                return Ok(());
            }
            i = i + 1;
        }
        Ok(())
    
}

impl SimPart {
    /// Advance this part one cycle in the io and glyph phase. Arms do
    /// nothing here: their movements run in the engine's movement phase.
    ///
    /// Inputs deposit a copy of their molecule on first activation; outputs
    /// consume every unheld structurally equivalent molecule, counting each;
    /// calcification turns an elemental atom on the glyph to salt;
    /// duplication copies an elemental atom onto a salt beside it; disposal
    /// swallows a lone atom; projection spends a lone quicksilver to promote
    /// the metal beside it; purification fuses two lone atoms of one metal
    /// into the next; animismus turns two lone salts into vitae and mors;
    /// the equilibrium marker does nothing. The bond glyphs and conduits
    /// stop the run with an explicit error instead.
    #[verifier::loop_isolation(false)]
    #[verifier::rlimit(100)]
    pub fn tick(&mut self, sim: &mut Sim, cycle: u64, at: usize) -> (res: Result<
        (),
        SimulationError,
    >)
        requires
            old(self).wf(),
            old(sim).wf(),
        ensures
            final(self).wf(),
            final(sim).wf(),
            final(sim).parts@ == old(sim).parts@,
            final(self).pos == old(self).pos && final(self).rotation == old(self).rotation,
            match old(self).ty {
                SimPartType::Input(inp) => res is Ok && (if inp.fired {
                    final(self).ty == old(self).ty && final(sim).molecules@ == old(sim).molecules@
                } else {
                    final(self).ty matches SimPartType::Input(inp2) && inp2.fired && inp2.m@
                        == inp.m@ && final(sim).molecules@.len() == old(sim).molecules@.len() + 1
                        && (forall|k: int|
                        0 <= k < old(sim).molecules@.len() ==> final(sim).molecules@[k] == old(sim).molecules@[k]) && final(sim).molecules@.last().layout@ == inp.m@ && final(sim).molecules@.last().pos@ == (0int, 0int) && !final(sim).molecules@.last().grabbed
                }),
                SimPartType::Output(out) => res is Ok && (
                match spec_first_is(old(sim).molecules@, out.m@, 0) {
                    Some(i) => final(self).ty matches SimPartType::Output(out2) && out2.m@
                        == out.m@ && out2.required == out.required && out2.completed == (
                    if out.completed < u64::MAX {
                        out.completed + 1
                    } else {
                        u64::MAX as int
                    }) && final(sim).molecules@ == old(sim).molecules@.remove(i),
                    None => final(self).ty == old(self).ty && final(sim).molecules@ == old(sim).molecules@,
                }),
                SimPartType::Arms(_) | SimPartType::Track | SimPartType::Equilibrium => res
                    is Ok && final(self).ty == old(self).ty && final(sim).molecules@ == old(sim).molecules@,
                SimPartType::Disposal => res is Ok && final(self).ty == old(self).ty && (
                match spec_first_mol(old(sim).molecules@, old(self).pos@, 0) {
                    Some(i) => if old(sim).molecules@[i].layout@.atoms.len() == 1 && !old(sim).molecules@[i].grabbed {
                        final(sim).molecules@ == old(sim).molecules@.remove(i)
                    } else {
                        final(sim).molecules@ == old(sim).molecules@
                    },
                    None => final(sim).molecules@ == old(sim).molecules@,
                }),
                SimPartType::Duplication => res is Ok && final(self).ty == old(self).ty && ({
                    let src = old(self).pos@;
                    let dst = hex_add(
                        old(self).pos@,
                        crate::hex::rot_n((1int, 0int), old(self).rotation.turns as nat),
                    );
                    match spec_first_mol(old(sim).molecules@, src, 0) {
                        Some(i) => match spec_sm_lookup(
                            old(sim).molecules@[i].layout@.atoms,
                            old(sim).molecules@[i].pos@,
                            src,
                        ) {
                            Some(a) => if spec_is_elemental(a) {
                                match spec_first_mol(old(sim).molecules@, dst, 0) {
                                    Some(j) => if spec_sm_lookup(
                                        old(sim).molecules@[j].layout@.atoms,
                                        old(sim).molecules@[j].pos@,
                                        dst,
                                    ) == Some(Atom::Salt) {
                                        final(sim).molecules@.len() == old(sim).molecules@.len()
                                            && (forall|k: int|
                                            0 <= k < old(sim).molecules@.len() && k != j ==> final(sim).molecules@[k] == old(sim).molecules@[k]) && final(sim).molecules@[j].pos == old(sim).molecules@[j].pos && final(sim).molecules@[j].grabbed == old(sim).molecules@[j].grabbed
                                            && final(sim).molecules@[j].layout@.bonds == old(sim).molecules@[j].layout@.bonds && final(sim).molecules@[j].layout@.atoms == spec_set_atom(
                                            old(sim).molecules@[j].layout@.atoms,
                                            old(sim).molecules@[j].pos@,
                                            dst,
                                            a,
                                        )
                                    } else {
                                        final(sim).molecules@ == old(sim).molecules@
                                    },
                                    None => final(sim).molecules@ == old(sim).molecules@,
                                }
                            } else {
                                final(sim).molecules@ == old(sim).molecules@
                            },
                            None => final(sim).molecules@ == old(sim).molecules@,
                        },
                        None => final(sim).molecules@ == old(sim).molecules@,
                    }
                }),
                SimPartType::Projection(_) => res is Ok && final(self).ty == old(self).ty && ({
                    let src = old(self).pos@;
                    let dst = hex_add(
                        old(self).pos@,
                        crate::hex::rot_n((1int, 0int), old(self).rotation.turns as nat),
                    );
                    match spec_first_mol(old(sim).molecules@, src, 0) {
                        Some(i) => if spec_lone_atom(
                            old(sim).molecules@[i],
                            src,
                            Atom::Quicksilver,
                        ) {
                            match spec_first_mol(old(sim).molecules@, dst, 0) {
                                Some(j) => match spec_sm_lookup(
                                    old(sim).molecules@[j].layout@.atoms,
                                    old(sim).molecules@[j].pos@,
                                    dst,
                                ) {
                                    Some(t) => match spec_next_metal(t) {
                                        Some(n) => j != i && ({
                                            let j2: int = if j < i {
                                                j
                                            } else {
                                                j - 1
                                            };
                                            &&& final(sim).molecules@.len() + 1 == old(sim).molecules@.len()
                                            &&& final(sim).molecules@ == old(sim).molecules@.update(
                                                j,
                                                final(sim).molecules@[j2],
                                            ).remove(i)
                                            &&& final(sim).molecules@[j2].pos == old(sim).molecules@[j].pos
                                            &&& final(sim).molecules@[j2].grabbed == old(sim).molecules@[j].grabbed
                                            &&& final(sim).molecules@[j2].layout@.bonds == old(sim).molecules@[j].layout@.bonds
                                            &&& final(sim).molecules@[j2].layout@.atoms
                                                == spec_set_atom(
                                                old(sim).molecules@[j].layout@.atoms,
                                                old(sim).molecules@[j].pos@,
                                                dst,
                                                n,
                                            )
                                        }),
                                        None => final(sim).molecules@ == old(sim).molecules@,
                                    },
                                    None => final(sim).molecules@ == old(sim).molecules@,
                                },
                                None => final(sim).molecules@ == old(sim).molecules@,
                            }
                        } else {
                            final(sim).molecules@ == old(sim).molecules@
                        },
                        None => final(sim).molecules@ == old(sim).molecules@,
                    }
                }),
                SimPartType::Purification(_) => final(self).ty == old(self).ty && ({
                    let src = old(self).pos@;
                    let src2 = hex_add(
                        old(self).pos@,
                        crate::hex::rot_n((1int, 0int), old(self).rotation.turns as nat),
                    );
                    let out = hex_add(
                        old(self).pos@,
                        crate::hex::rot_n(
                            (1int, 0int),
                            (((old(self).rotation.turns + 1) as int) % 6) as nat,
                        ),
                    );
                    match spec_first_mol(old(sim).molecules@, src, 0) {
                        Some(i) => match spec_sm_lookup(
                            old(sim).molecules@[i].layout@.atoms,
                            old(sim).molecules@[i].pos@,
                            src,
                        ) {
                            Some(t) => if spec_lone_atom(old(sim).molecules@[i], src, t)
                                && spec_next_metal(t) is Some {
                                match spec_first_mol(old(sim).molecules@, src2, 0) {
                                    Some(j) => if spec_lone_atom(old(sim).molecules@[j], src2, t) {
                                        if spec_first_mol(old(sim).molecules@, out, 0) is None {
                                            if -SIM_BOUND <= out.0 <= SIM_BOUND && -SIM_BOUND
                                                <= out.1 <= SIM_BOUND {
                                                let lo: int = if i < j {
                                                    i
                                                } else {
                                                    j
                                                };
                                                let hi: int = if i < j {
                                                    j
                                                } else {
                                                    i
                                                };
                                                res is Ok && i != j && final(sim).molecules@.len()
                                                    + 1 == old(sim).molecules@.len() && final(sim).molecules@ == old(sim).molecules@.remove(
                                                    hi,
                                                ).remove(lo).push(final(sim).molecules@.last()) && ({
                                                    let newm = final(sim).molecules@.last();
                                                    &&& !newm.grabbed
                                                    &&& newm.layout@.bonds.len() == 0
                                                    &&& newm.layout@.atoms.len() == 1
                                                    &&& newm.layout@.atoms[0].1
                                                        == spec_next_metal(t)->0
                                                    &&& hex_add(
                                                        newm.layout@.atoms[0].0@,
                                                        newm.pos@,
                                                    ) == out
                                                })
                                            } else {
                                                res == Err::<(), SimulationError>(
                                                    SimulationError::OutOfBounds { cycle },
                                                ) && final(sim).molecules@ == old(sim).molecules@
                                            }
                                        } else {
                                            res is Ok && final(sim).molecules@ == old(sim).molecules@
                                        }
                                    } else {
                                        res is Ok && final(sim).molecules@ == old(sim).molecules@
                                    },
                                    None => res is Ok && final(sim).molecules@ == old(sim).molecules@,
                                }
                            } else {
                                res is Ok && final(sim).molecules@ == old(sim).molecules@
                            },
                            None => res is Ok && final(sim).molecules@ == old(sim).molecules@,
                        },
                        None => res is Ok && final(sim).molecules@ == old(sim).molecules@,
                    }
                }),
                SimPartType::Animismus => final(self).ty == old(self).ty && ({
                    let src = old(self).pos@;
                    let src2 = hex_add(
                        old(self).pos@,
                        crate::hex::rot_n((1int, 0int), old(self).rotation.turns as nat),
                    );
                    let out1 = hex_add(
                        old(self).pos@,
                        crate::hex::rot_n(
                            (1int, 0int),
                            (((old(self).rotation.turns + 2) as int) % 6) as nat,
                        ),
                    );
                    let out2 = hex_add(
                        old(self).pos@,
                        crate::hex::rot_n(
                            (1int, 0int),
                            (((old(self).rotation.turns + 4) as int) % 6) as nat,
                        ),
                    );
                    match spec_first_mol(old(sim).molecules@, src, 0) {
                        Some(i) => if spec_lone_atom(old(sim).molecules@[i], src, Atom::Salt) {
                            match spec_first_mol(old(sim).molecules@, src2, 0) {
                                Some(j) => if spec_lone_atom(
                                    old(sim).molecules@[j],
                                    src2,
                                    Atom::Salt,
                                ) {
                                    if spec_first_mol(old(sim).molecules@, out1, 0) is None
                                        && spec_first_mol(old(sim).molecules@, out2, 0) is None {
                                        if -SIM_BOUND <= out1.0 <= SIM_BOUND && -SIM_BOUND <= out1.1
                                            <= SIM_BOUND && -SIM_BOUND <= out2.0 <= SIM_BOUND
                                            && -SIM_BOUND <= out2.1 <= SIM_BOUND {
                                            let lo: int = if i < j {
                                                i
                                            } else {
                                                j
                                            };
                                            let hi: int = if i < j {
                                                j
                                            } else {
                                                i
                                            };
                                            res is Ok && i != j && final(sim).molecules@.len()
                                                == old(sim).molecules@.len() && final(sim).molecules@ == old(sim).molecules@.remove(hi).remove(
                                                lo,
                                            ).push(
                                                final(sim).molecules@[final(sim).molecules@.len() - 2],
                                            ).push(final(sim).molecules@.last()) && ({
                                                let vm = final(sim).molecules@[final(sim).molecules@.len() - 2];
                                                let mm = final(sim).molecules@.last();
                                                &&& !vm.grabbed && !mm.grabbed
                                                &&& vm.layout@.bonds.len() == 0
                                                    && mm.layout@.bonds.len() == 0
                                                &&& vm.layout@.atoms.len() == 1
                                                    && mm.layout@.atoms.len() == 1
                                                &&& vm.layout@.atoms[0].1 == Atom::Vitae
                                                &&& mm.layout@.atoms[0].1 == Atom::Mors
                                                &&& hex_add(vm.layout@.atoms[0].0@, vm.pos@)
                                                    == out1
                                                &&& hex_add(mm.layout@.atoms[0].0@, mm.pos@)
                                                    == out2
                                            })
                                        } else {
                                            res == Err::<(), SimulationError>(
                                                SimulationError::OutOfBounds { cycle },
                                            ) && final(sim).molecules@ == old(sim).molecules@
                                        }
                                    } else {
                                        res is Ok && final(sim).molecules@ == old(sim).molecules@
                                    }
                                } else {
                                    res is Ok && final(sim).molecules@ == old(sim).molecules@
                                },
                                None => res is Ok && final(sim).molecules@ == old(sim).molecules@,
                            }
                        } else {
                            res is Ok && final(sim).molecules@ == old(sim).molecules@
                        },
                        None => res is Ok && final(sim).molecules@ == old(sim).molecules@,
                    }
                }),
                SimPartType::Calcification(_) => res is Ok && final(self).ty == old(self).ty && (
                match spec_first_mol(old(sim).molecules@, old(self).pos@, 0) {
                    Some(i) => final(sim).molecules@.len() == old(sim).molecules@.len() && (forall|
                        k: int,
                    |
                        0 <= k < old(sim).molecules@.len() && k != i ==> final(sim).molecules@[k]
                            == old(sim).molecules@[k]) && final(sim).molecules@[i].pos == old(sim).molecules@[i].pos && final(sim).molecules@[i].grabbed == old(sim).molecules@[i].grabbed && final(sim).molecules@[i].layout@.bonds == old(sim).molecules@[i].layout@.bonds && final(sim).molecules@[i].layout@.atoms
                        == spec_calcify(
                        old(sim).molecules@[i].layout@.atoms,
                        old(sim).molecules@[i].pos@,
                        old(self).pos@,
                    ),
                    None => final(sim).molecules@ == old(sim).molecules@,
                }),
                _ => res == Err::<(), SimulationError>(
                    SimulationError::UnsupportedPart { cycle, part: at },
                ) && final(sim).molecules@ == old(sim).molecules@ && final(self).ty == old(self).ty,
            },
    {
        let mut ty = SimPartType::Track;
        core::mem::swap(&mut self.ty, &mut ty);
        match ty {
            SimPartType::Input(inp) => {
                if !inp.fired {
                    let sm = SimMolecule {
                        layout: inp.m.duplicate(),
                        pos: HexIndex { q: 0, r: 0 },
                        grabbed: false,
                    };
                    sim.molecules.push(sm);
                    self.ty = SimPartType::Input(Input { m: inp.m, fired: true });
                } else {
                    self.ty = SimPartType::Input(inp);
                }
                Ok(())
            },
            SimPartType::Output(out) => {
                {
                    let mut i: usize = 0;
                    while i < sim.molecules.len()
                        invariant
                            self.pos == old(self).pos,
                            self.rotation == old(self).rotation,
                            sim.parts@ == old(sim).parts@,
                            sim.molecules@ == old(sim).molecules@,
                            forall|k: int|
                                0 <= k < sim.molecules@.len() ==> (
                                #[trigger] sim.molecules@[k]).wf(),
                            out.m@.wf(),
                            mol_in_bounds(out.m@, SIM_BOUND as int),
                            i <= sim.molecules@.len(),
                            spec_first_is(sim.molecules@, out.m@, 0) == spec_first_is(
                                sim.molecules@,
                                out.m@,
                                i as int,
                            ),
                        decreases sim.molecules@.len() - i,
                    {
                        let matched = !sim.molecules[i].grabbed && sim.molecules[i].is(&out.m);
                        if matched {
                            let ghost pre = sim.molecules@;
                            sim.molecules.remove(i);
                            proof {
                                assert forall|k: int|
                                    0 <= k < sim.molecules@.len() implies (
                                #[trigger] sim.molecules@[k]).wf() by {
                                    if k < i as int {
                                        assert(sim.molecules@[k] == pre[k]);
                                    } else {
                                        assert(sim.molecules@[k] == pre[k + 1]);
                                    }
                                }
                            }
                            let bumped: u64 = if out.completed < 0xFFFFFFFFFFFFFFFFu64 {
                                out.completed + 1
                            } else {
                                out.completed
                            };
                            self.ty = SimPartType::Output(
                                Output { m: out.m, completed: bumped, required: out.required },
                            );
                            return Ok(());
                        }
                        i = i + 1;
                    }
                }
                self.ty = SimPartType::Output(out);
                Ok(())
            },
            SimPartType::Arms(arm) => {
                self.ty = SimPartType::Arms(arm);
                Ok(())
            },
            SimPartType::Track => {
                self.ty = SimPartType::Track;
                Ok(())
            },
            SimPartType::Calcification(g) => {
                self.ty = SimPartType::Calcification(g);
                let pos = self.pos;
                let mut i: usize = 0;
                while i < sim.molecules.len()
                    invariant
                        sim.parts@ == old(sim).parts@,
                        sim.molecules@ == old(sim).molecules@,
                        forall|k: int|
                            0 <= k < sim.molecules@.len() ==> (#[trigger] sim.molecules@[k]).wf(),
                        -SIM_BOUND <= pos@.0 <= SIM_BOUND,
                        -SIM_BOUND <= pos@.1 <= SIM_BOUND,
                        i <= sim.molecules@.len(),
                        spec_first_mol(sim.molecules@, pos@, 0) == spec_first_mol(
                            sim.molecules@,
                            pos@,
                            i as int,
                        ),
                    decreases sim.molecules@.len() - i,
                {
                    if sim.molecules[i].contains_pos(pos) {
                        calcify_molecule(&mut sim.molecules, i, pos);
                        return Ok(());
                    }
                    i = i + 1;
                }
                Ok(())
            },
            SimPartType::Equilibrium => {
                self.ty = SimPartType::Equilibrium;
                Ok(())
            },
            SimPartType::Disposal => {
                self.ty = SimPartType::Disposal;
                let pos = self.pos;
                let mut i: usize = 0;
                while i < sim.molecules.len()
                    invariant
                        sim.parts@ == old(sim).parts@,
                        sim.molecules@ == old(sim).molecules@,
                        forall|k: int|
                            0 <= k < sim.molecules@.len() ==> (#[trigger] sim.molecules@[k]).wf(),
                        -SIM_BOUND <= pos@.0 <= SIM_BOUND,
                        -SIM_BOUND <= pos@.1 <= SIM_BOUND,
                        i <= sim.molecules@.len(),
                        spec_first_mol(sim.molecules@, pos@, 0) == spec_first_mol(
                            sim.molecules@,
                            pos@,
                            i as int,
                        ),
                    decreases sim.molecules@.len() - i,
                {
                    if sim.molecules[i].contains_pos(pos) {
                        if sim.molecules[i].layout.atoms.len() == 1 && !sim.molecules[i].grabbed {
                            let ghost pre = sim.molecules@;
                            sim.molecules.remove(i);
                            proof {
                                assert forall|k: int|
                                    0 <= k < sim.molecules@.len() implies (
                                #[trigger] sim.molecules@[k]).wf() by {
                                    if k < i as int {
                                        assert(sim.molecules@[k] == pre[k]);
                                    } else {
                                        assert(sim.molecules@[k] == pre[k + 1]);
                                    }
                                }
                            }
                        }
                        return Ok(());
                    }
                    i = i + 1;
                }
                Ok(())
            },
            SimPartType::Duplication => {
                self.ty = SimPartType::Duplication;
                let src = self.pos;
                let dst = self.pos.plus(hex_dir(self.rotation.turns()));
                let mut i: usize = 0;
                while i < sim.molecules.len()
                    invariant
                        sim.parts@ == old(sim).parts@,
                        sim.molecules@ == old(sim).molecules@,
                        forall|k: int|
                            0 <= k < sim.molecules@.len() ==> (#[trigger] sim.molecules@[k]).wf(),
                        -SIM_BOUND <= src@.0 <= SIM_BOUND,
                        -SIM_BOUND <= src@.1 <= SIM_BOUND,
                        dst@ == hex_add(
                            old(self).pos@,
                            crate::hex::rot_n((1int, 0int), old(self).rotation.turns as nat),
                        ),
                        -0x200000 <= dst@.0 <= 0x200000,
                        -0x200000 <= dst@.1 <= 0x200000,
                        i <= sim.molecules@.len(),
                        spec_first_mol(sim.molecules@, src@, 0) == spec_first_mol(
                            sim.molecules@,
                            src@,
                            i as int,
                        ),
                    decreases sim.molecules@.len() - i,
                {
                    if sim.molecules[i].contains_pos(src) {
                        let found = sim.molecules[i].atom_at(src);
                        proof {
                            lemma_sm_lookup_some(
                                sim.molecules@[i as int].layout@.atoms,
                                sim.molecules@[i as int].pos@,
                                src@,
                            );
                        }
                        let a = match found {
                            Some(a) => a,
                            None => {
                                proof {
                                    assert(false);
                                }
                                return Ok(());
                            },
                        };
                        let elemental = match a {
                            Atom::Air => true,
                            Atom::Earth => true,
                            Atom::Fire => true,
                            Atom::Water => true,
                            _ => false,
                        };
                        if !elemental {
                            return Ok(());
                        }
                        let mut j: usize = 0;
                        while j < sim.molecules.len()
                            invariant
                                sim.parts@ == old(sim).parts@,
                                sim.molecules@ == old(sim).molecules@,
                                forall|k: int|
                                    0 <= k < sim.molecules@.len() ==> (
                                    #[trigger] sim.molecules@[k]).wf(),
                                -0x200000 <= dst@.0 <= 0x200000,
                                -0x200000 <= dst@.1 <= 0x200000,
                                j <= sim.molecules@.len(),
                                spec_first_mol(sim.molecules@, dst@, 0) == spec_first_mol(
                                    sim.molecules@,
                                    dst@,
                                    j as int,
                                ),
                            decreases sim.molecules@.len() - j,
                        {
                            if sim.molecules[j].contains_pos(dst) {
                                let t = sim.molecules[j].atom_at(dst);
                                proof {
                                    lemma_sm_lookup_some(
                                        sim.molecules@[j as int].layout@.atoms,
                                        sim.molecules@[j as int].pos@,
                                        dst@,
                                    );
                                }
                                let is_salt = match t {
                                    Some(Atom::Salt) => true,
                                    _ => false,
                                };
                                if is_salt {
                                    set_atom_molecule(&mut sim.molecules, j, dst, a);
                                }
                                return Ok(());
                            }
                            j = j + 1;
                        }
                        return Ok(());
                    }
                    i = i + 1;
                }
                Ok(())
            },
            SimPartType::Bonding(g) => {
                self.ty = SimPartType::Bonding(g);
                Err(SimulationError::UnsupportedPart { cycle, part: at })
            },
            SimPartType::MultiBonding => {
                self.ty = SimPartType::MultiBonding;
                Err(SimulationError::UnsupportedPart { cycle, part: at })
            },
            SimPartType::Unbonding(g) => {
                self.ty = SimPartType::Unbonding(g);
                Err(SimulationError::UnsupportedPart { cycle, part: at })
            },
            SimPartType::Animismus => {
                self.ty = SimPartType::Animismus;
                animismus_tick(self.pos, self.rotation, sim, cycle)
            },
            SimPartType::Projection(g) => {
                self.ty = SimPartType::Projection(g);
                projection_tick(self.pos, self.rotation, sim)
            },
            SimPartType::Purification(g) => {
                self.ty = SimPartType::Purification(g);
                purification_tick(self.pos, self.rotation, sim, cycle)
            },
            SimPartType::Conduit(g) => {
                self.ty = SimPartType::Conduit(g);
                Err(SimulationError::UnsupportedPart { cycle, part: at })
            },
        }
    }
}

/// Turn the first elemental atom of molecule `i` at board position `p` to
/// salt, in place.
#[verifier::loop_isolation(false)]
fn calcify_molecule(mols: &mut Vec<SimMolecule>, i: usize, p: HexIndex) -> (res: ())
    requires
        i < old(mols)@.len(),
        old(mols)@[i as int].wf(),
        -SIM_BOUND <= p@.0 <= SIM_BOUND,
        -SIM_BOUND <= p@.1 <= SIM_BOUND,
        forall|k: int| 0 <= k < old(mols)@.len() ==> (#[trigger] old(mols)@[k]).wf(),
    ensures
        final(mols)@.len() == old(mols)@.len(),
        forall|k: int|
            0 <= k < old(mols)@.len() && k != i as int ==> final(mols)@[k] == old(mols)@[k],
        final(mols)@[i as int].pos == old(mols)@[i as int].pos,
        final(mols)@[i as int].grabbed == old(mols)@[i as int].grabbed,
        final(mols)@[i as int].layout@.bonds == old(mols)@[i as int].layout@.bonds,
        final(mols)@[i as int].layout@.atoms == spec_calcify(
            old(mols)@[i as int].layout@.atoms,
            old(mols)@[i as int].pos@,
            p@,
        ),
        forall|k: int| 0 <= k < final(mols)@.len() ==> (#[trigger] final(mols)@[k]).wf(),
    decreases 0int,
{
    let ghost orig = mols@[i as int].layout@.atoms;
    let ghost base = mols@[i as int].pos@;
    let n = mols[i].layout.atoms.len();
    let mut j: usize = 0;
    while j < n
        invariant
            i < mols@.len(),
            mols@.len() == old(mols)@.len(),
            forall|k: int| 0 <= k < mols@.len() && k != i as int ==> mols@[k] == old(mols)@[k],
            mols@[i as int] == old(mols)@[i as int],
            n == orig.len(),
            j <= n,
            forall|k: int| 0 <= k < j as int ==> hex_add((#[trigger] orig[k]).0@, base) != p@,
        decreases n - j,
    {
        let (ap, atom) = mols[i].layout.atoms[j];
        let abs = ap.plus(mols[i].pos);
        if abs.q == p.q && abs.r == p.r {
            let elemental = match atom {
                Atom::Air => true,
                Atom::Earth => true,
                Atom::Fire => true,
                Atom::Water => true,
                _ => false,
            };
            if elemental {
                let mut m = mols[i].layout.duplicate();
                m.atoms.set(j, (ap, Atom::Salt));
                let pos = mols[i].pos;
                let grabbed = mols[i].grabbed;
                proof {
                    lemma_calcify_at(orig, base, p@, j as int);
                    assert(m.atoms@ =~= spec_calcify(orig, base, p@));
                    lemma_same_positions_wf(
                        MolView { atoms: m.atoms@, bonds: m.bonds@ },
                        MolView { atoms: orig, bonds: mols@[i as int].layout@.bonds },
                    );
                }
                mols.set(i, SimMolecule { layout: m, pos, grabbed });
                return ();
            } else {
                proof {
                    lemma_calcify_at(orig, base, p@, j as int);
                }
                return ();
            }
        }
        j = j + 1;
    }
    proof {
        lemma_calcify_missing(orig, base, p@);
    }
    ()
}

/// Two molecule views with the same atom positions (types may differ) and
/// the same bonds are equally well formed and equally bounded.
proof fn lemma_same_positions_wf(a: MolView, b: MolView)
    requires
        a.bonds == b.bonds,
        a.atoms.len() == b.atoms.len(),
        forall|i: int| 0 <= i < a.atoms.len() ==> (#[trigger] a.atoms[i]).0 == b.atoms[i].0,
    ensures
        a.wf() == b.wf(),
        mol_in_bounds(a, SIM_BOUND as int) == mol_in_bounds(b, SIM_BOUND as int),
{
    assert forall|i: int| 0 <= i < a.atoms.len() implies (#[trigger] a.atoms[i]).0@
        == b.atoms[i].0@ by {
        assert(a.atoms[i].0 == b.atoms[i].0);
    }
    assert(a.unique_positions() == b.unique_positions()) by {
        if a.unique_positions() {
            assert forall|i: int, j: int| 0 <= i < j < b.atoms.len() implies (
            #[trigger] b.atoms[i]).0 != (#[trigger] b.atoms[j]).0 by {
                assert(a.atoms[i].0 != a.atoms[j].0);
            }
        }
        if b.unique_positions() {
            assert forall|i: int, j: int| 0 <= i < j < a.atoms.len() implies (
            #[trigger] a.atoms[i]).0 != (#[trigger] a.atoms[j]).0 by {
                assert(b.atoms[i].0 != b.atoms[j].0);
            }
        }
    };
    assert(mol_in_bounds(a, SIM_BOUND as int) == mol_in_bounds(b, SIM_BOUND as int)) by {
        if mol_in_bounds(a, SIM_BOUND as int) {
            assert forall|i: int| 0 <= i < b.atoms.len() implies -SIM_BOUND <= (
            #[trigger] b.atoms[i]).0@.0 <= SIM_BOUND && -SIM_BOUND <= b.atoms[i].0@.1
                <= SIM_BOUND by {
                assert(-SIM_BOUND <= a.atoms[i].0@.0 <= SIM_BOUND && -SIM_BOUND <= a.atoms[i].0@.1
                    <= SIM_BOUND);
            }
        }
        if mol_in_bounds(b, SIM_BOUND as int) {
            assert forall|i: int| 0 <= i < a.atoms.len() implies -SIM_BOUND <= (
            #[trigger] a.atoms[i]).0@.0 <= SIM_BOUND && -SIM_BOUND <= a.atoms[i].0@.1
                <= SIM_BOUND by {
                assert(-SIM_BOUND <= b.atoms[i].0@.0 <= SIM_BOUND && -SIM_BOUND <= b.atoms[i].0@.1
                    <= SIM_BOUND);
            }
        }
    };
    assert(a.bonds_closed() == b.bonds_closed()) by {
        if a.bonds_closed() {
            assert forall|k: int| 0 <= k < b.bonds.len() implies b.has_atom(
                (#[trigger] b.bonds[k]).start,
            ) && b.has_atom(b.bonds[k].end) by {
                let s = choose|s: int| 0 <= s < a.atoms.len() && a.atoms[s].0 == a.bonds[k].start;
                assert(b.atoms[s].0 == b.bonds[k].start);
                let e = choose|e: int| 0 <= e < a.atoms.len() && a.atoms[e].0 == a.bonds[k].end;
                assert(b.atoms[e].0 == b.bonds[k].end);
            }
        }
        if b.bonds_closed() {
            assert forall|k: int| 0 <= k < a.bonds.len() implies a.has_atom(
                (#[trigger] a.bonds[k]).start,
            ) && a.has_atom(a.bonds[k].end) by {
                let s = choose|s: int| 0 <= s < b.atoms.len() && b.atoms[s].0 == b.bonds[k].start;
                assert(a.atoms[s].0 == a.bonds[k].start);
                let e = choose|e: int| 0 <= e < b.atoms.len() && b.atoms[e].0 == b.bonds[k].end;
                assert(a.atoms[e].0 == a.bonds[k].end);
            }
        }
    };
}

/// When the first atom at `p` sits at index `j` (nothing before matches),
/// calcification updates exactly that index, or nothing when the atom is
/// not elemental.
proof fn lemma_calcify_at(atoms: Seq<(HexIndex, Atom)>, base: (int, int), p: (int, int), j: int)
    requires
        0 <= j < atoms.len(),
        forall|k: int| 0 <= k < j ==> hex_add((#[trigger] atoms[k]).0@, base) != p,
        hex_add(atoms[j].0@, base) == p,
    ensures
        (atoms[j].1 == Atom::Air || atoms[j].1 == Atom::Earth || atoms[j].1 == Atom::Fire
            || atoms[j].1 == Atom::Water) ==> spec_calcify(atoms, base, p) =~= atoms.update(
            j,
            (atoms[j].0, Atom::Salt),
        ),
        !(atoms[j].1 == Atom::Air || atoms[j].1 == Atom::Earth || atoms[j].1 == Atom::Fire
            || atoms[j].1 == Atom::Water) ==> spec_calcify(atoms, base, p) == atoms,
    decreases j,
{
    if j == 0 {
        if atoms[0].1 == Atom::Air || atoms[0].1 == Atom::Earth || atoms[0].1 == Atom::Fire
            || atoms[0].1 == Atom::Water {
            assert(spec_calcify(atoms, base, p) =~= atoms.update(0, (atoms[0].0, Atom::Salt)));
        }
    } else {
        lemma_calcify_at(atoms.drop_first(), base, p, j - 1);
        assert(atoms.drop_first()[j - 1] == atoms[j]);
        if atoms[j].1 == Atom::Air || atoms[j].1 == Atom::Earth || atoms[j].1 == Atom::Fire
            || atoms[j].1 == Atom::Water {
            assert(spec_calcify(atoms, base, p) == seq![atoms[0]] + spec_calcify(
                atoms.drop_first(),
                base,
                p,
            ));
            assert(seq![atoms[0]] + atoms.drop_first().update(j - 1, (atoms[j].0, Atom::Salt))
                =~= atoms.update(j, (atoms[j].0, Atom::Salt)));
        } else {
            assert(seq![atoms[0]] + atoms.drop_first() =~= atoms);
        }
    }
}

/// When no atom sits at `p`, calcification changes nothing.
proof fn lemma_calcify_missing(atoms: Seq<(HexIndex, Atom)>, base: (int, int), p: (int, int))
    requires
        forall|k: int| 0 <= k < atoms.len() ==> hex_add((#[trigger] atoms[k]).0@, base) != p,
    ensures
        spec_calcify(atoms, base, p) == atoms,
    decreases atoms.len(),
{
    if atoms.len() > 0 {
        lemma_calcify_missing(atoms.drop_first(), base, p);
        assert(seq![atoms[0]] + atoms.drop_first() =~= atoms);
    }
}

/// The unit direction vector of a reduced rotation.
fn hex_dir(r: u8) -> (res: HexIndex)
    requires
        r < 6,
    ensures
        res@ == crate::hex::rot_n((1int, 0int), r as nat),
        -1 <= res@.0 <= 1,
        -1 <= res@.1 <= 1,
{
    proof {
        reveal_with_fuel(crate::hex::rot_n, 7);
    }
    match r {
        0 => HexIndex { q: 1, r: 0 },
        1 => HexIndex { q: 0, r: 1 },
        2 => HexIndex { q: -1, r: 1 },
        3 => HexIndex { q: -1, r: 0 },
        4 => HexIndex { q: 0, r: -1 },
        _ => HexIndex { q: 1, r: -1 },
    }
}

/// A direction vector scaled by a small factor.
fn hex_scale(h: HexIndex, k: i32) -> (res: HexIndex)
    requires
        -1 <= h@.0 <= 1,
        -1 <= h@.1 <= 1,
        0 <= k <= 4,
    ensures
        res@ == (k * h@.0, k * h@.1),
        -4 <= res@.0 <= 4,
        -4 <= res@.1 <= 4,
{
    proof {
        assert(-4 <= k * h@.0 <= 4 && -4 <= k * h@.1 <= 4) by (nonlinear_arith)
            requires
                -1 <= h@.0 <= 1,
                -1 <= h@.1 <= 1,
                0 <= k <= 4,
        ;
    }
    HexIndex { q: k * h.q, r: k * h.r }
}

/// One deferred state change, planned in the movement phase and committed
/// only after the cycle's movements pass the collision check.
enum Effect {
    /// Set a molecule's grabbed flag.
    SetGrab { mol: usize, val: bool },
    /// Rotate a molecule around a board position by clockwise steps.
    RotateMol { mol: usize, around: HexIndex, by: HexRotation },
    /// Translate a molecule.
    TranslateMol { mol: usize, by: HexIndex },
    /// Update an arm's rotation and length.
    SetArm { part: usize, rotation: HexRotation, length: i32 },
}

/// Check a movement against the collision detector's coordinate range.
fn movement_in_range(m: &crate::collision::Movement) -> (res: bool)
    ensures
        res == m.in_range(),
{
    let bound = crate::collision::MOVE_BOUND;
    match m {
        crate::collision::Movement::Stay { at } => !(at.q < -bound || at.q > bound || at.r < -bound
            || at.r > bound),
        crate::collision::Movement::Translate { start, end } => !(start.q < -bound || start.q
            > bound || start.r < -bound || start.r > bound || end.q < -bound || end.q > bound
            || end.r < -bound || end.r > bound),
        crate::collision::Movement::Rotate { start, around, rotation } => !(start.q < -bound
            || start.q > bound || start.r < -bound || start.r > bound || around.q < -bound
            || around.q > bound || around.r < -bound || around.r > bound || rotation.turns >= 6),
    }
}

/// Push a collider after checking it is within the detector's range.
fn push_collider(
    colliders: &mut Vec<crate::collision::Collider>,
    c: crate::collision::Collider,
    cycle: u64,
) -> (res: Result<(), SimulationError>)
    requires
        forall|k: int|
            0 <= k < old(colliders)@.len() ==> (#[trigger] old(colliders)@[k]).movement.in_range(),
    ensures
        forall|k: int|
            0 <= k < final(colliders)@.len() ==> (#[trigger] final(colliders)@[k]).movement.in_range(),
        res is Err ==> res == Err::<(), SimulationError>(SimulationError::OutOfBounds { cycle }),
{
    if movement_in_range(&c.movement) {
        colliders.push(c);
        Ok(())
    } else {
        Err(SimulationError::OutOfBounds { cycle })
    }
}

impl Sim {
    /// The first molecule, if any, with an atom at the board position.
    fn molecule_at(&self, pos: HexIndex) -> (res: Option<usize>)
        requires
            self.wf(),
            coords_ok(pos@),
        ensures
            match res {
                Some(i) => i < self.molecules@.len() && sm_has(self.molecules@[i as int], pos@),
                None => forall|k: int|
                    0 <= k < self.molecules@.len() ==> !sm_has(
                        #[trigger] self.molecules@[k],
                        pos@,
                    ),
            },
    {
        let mut i: usize = 0;
        while i < self.molecules.len()
            invariant
                self.wf(),
                coords_ok(pos@),
                i <= self.molecules@.len(),
                forall|k: int|
                    0 <= k < i as int ==> !sm_has(#[trigger] self.molecules@[k], pos@),
            decreases self.molecules@.len() - i,
        {
            if self.molecules[i].contains_pos(pos) {
                return Some(i);
            }
            i = i + 1;
        }
        None
    }

    /// Advance the run one cycle: arms plan their movements, the batched
    /// movements pass the collision detector or the run fails, the planned
    /// effects commit, io sites and glyphs tick, and the run completes when
    /// every output has reached its required count.
    ///
    /// Parts tick in placement order within each phase, so the run is
    /// deterministic.
    #[verifier::loop_isolation(false)]
    pub fn step(&mut self, cycle: u64) -> (res: Result<bool, SimulationError>)
        requires
            old(self).wf(),
        ensures
            final(self).wf(),
            final(self).parts@.len() == old(self).parts@.len(),
            match res {
                Ok(done) => done == outputs_complete(final(self).parts@),
                Err(e) => match e {
                    SimulationError::Collision { cycle: c } => c == cycle,
                    SimulationError::InstructionPrecondition { cycle: c, part: p } => c == cycle
                        && p < old(self).parts@.len(),
                    SimulationError::UnsupportedInstruction { cycle: c, part: p } => c == cycle
                        && p < old(self).parts@.len(),
                    SimulationError::UnsupportedPart { cycle: c, part: p } => c == cycle && p < old(self).parts@.len(),
                    SimulationError::OutOfBounds { cycle: c } => c == cycle,
                    SimulationError::CycleLimit { .. } => false,
                },
            },
            old(self).parts@.len() == 0 && old(self).molecules@.len() == 0 ==> res == Ok::<
                bool,
                SimulationError,
            >(true) && final(self).parts@ == old(self).parts@ && final(self).molecules@ == old(self).molecules@,
    {
        if self.parts.len() == 0 && self.molecules.len() == 0 {
            // An empty board is already complete: nothing moves, nothing
            // collides, and there is no output left wanting.
            return Ok(true);
        }
        let mut colliders: Vec<crate::collision::Collider> = Vec::new();
        let mut effects: Vec<Effect> = Vec::new();
        let mut moved: Vec<bool> = Vec::new();
        let mut i: usize = 0;
        while i < self.molecules.len()
            invariant
                moved@.len() == i as int,
                i <= self.molecules@.len(),
            decreases self.molecules@.len() - i,
        {
            moved.push(false);
            i = i + 1;
        }
        // Movement phase: every arm contributes its colliders and plans its
        // effects; everything else stays put.
        let mut p: usize = 0;
        while p < self.parts.len()
            invariant
                self.wf(),
                self == old(self),
                moved@.len() == self.molecules@.len(),
                p <= self.parts@.len(),
                forall|k: int|
                    0 <= k < colliders@.len() ==> (#[trigger] colliders@[k]).movement.in_range(),
            decreases self.parts@.len() - p,
        {
            let is_arm = match &self.parts[p].ty {
                SimPartType::Arms(_) => true,
                _ => false,
            };
            if is_arm {
                match self.plan_arm(p, cycle, &mut colliders, &mut effects, &mut moved) {
                    Ok(()) => {
                    },
                    Err(e) => {
                        return Err(e);
                    },
                }
            }
            p = p + 1;
        }
        // Unmoved molecules hold still: their atoms join the batch as
        // stationary colliders.
        let mut mi: usize = 0;
        while mi < self.molecules.len()
            invariant
                self.wf(),
                self == old(self),
                moved@.len() == self.molecules@.len(),
                mi <= self.molecules@.len(),
                forall|k: int|
                    0 <= k < colliders@.len() ==> (#[trigger] colliders@[k]).movement.in_range(),
            decreases self.molecules@.len() - mi,
        {
            if !moved[mi] {
                let sm = &self.molecules[mi];
                let mut ai: usize = 0;
                while ai < sm.layout.atoms.len()
                    invariant
                        self.wf(),
                        self == old(self),
                        mi < self.molecules@.len(),
                        sm == &self.molecules@[mi as int],
                        ai <= sm.layout.atoms@.len(),
                        forall|k: int|
                            0 <= k < colliders@.len() ==> (
                            #[trigger] colliders@[k]).movement.in_range(),
                    decreases sm.layout.atoms@.len() - ai,
                {
                    proof {
                assert(-SIM_BOUND <= (#[trigger] sm.layout@.atoms[ai as int]).0@.0 <= SIM_BOUND
                    && -SIM_BOUND <= sm.layout@.atoms[ai as int].0@.1 <= SIM_BOUND);
            }
            let abs = sm.layout.atoms[ai].0.plus(sm.pos);
                    match push_collider(
                        &mut colliders,
                        crate::collision::Collider {
                            ty: crate::collision::ColliderType::Atom,
                            movement: crate::collision::Movement::Stay { at: abs },
                        },
                        cycle,
                    ) {
                        Ok(()) => {
                        },
                        Err(e) => {
                            return Err(e);
                        },
                    }
                    ai = ai + 1;
                }
            }
            mi = mi + 1;
        }
        // Collision check over the whole batch.
        if crate::collision::collides(&colliders, SAMPLE_STEPS) {
            return Err(SimulationError::Collision { cycle });
        }
        // Commit phase: apply the planned effects in order.
        let mut ei: usize = 0;
        while ei < effects.len()
            invariant
                self.wf(),
                self.parts@.len() == old(self).parts@.len(),
                self.molecules@.len() == old(self).molecules@.len(),
                ei <= effects@.len(),
            decreases effects@.len() - ei,
        {
            let ok = self.apply_effect(&effects, ei, cycle);
            match ok {
                Ok(()) => {
                },
                Err(e) => {
                    return Err(e);
                },
            }
            ei = ei + 1;
        }
        // Io and glyph phase: parts tick in placement order.
        let mut parts: Vec<SimPart> = Vec::new();
        core::mem::swap(&mut self.parts, &mut parts);
        let n = parts.len();
        let mut pi: usize = 0;
        let mut ticked: Vec<SimPart> = Vec::new();
        while pi < n
            invariant
                self.wf(),
                n == parts@.len() + ticked@.len(),
                pi == ticked@.len(),
                pi <= n,
                forall|k: int| 0 <= k < parts@.len() ==> (#[trigger] parts@[k]).wf(),
                forall|k: int| 0 <= k < ticked@.len() ==> (#[trigger] ticked@[k]).wf(),
            decreases n - pi,
        {
            let mut part = parts.remove(0);
            match part.tick(self, cycle, pi) {
                Ok(()) => {
                },
                Err(e) => {
                    ticked.push(part);
                    ticked.append(&mut parts);
                    self.parts = ticked;
                    return Err(e);
                },
            }
            ticked.push(part);
            pi = pi + 1;
        }
        self.parts = ticked;
        // Completion check.
        let mut done = true;
        let ghost settled = *self;
        let mut ci: usize = 0;
        while ci < self.parts.len()
            invariant
                self.wf(),
                *self == settled,
                ci <= self.parts@.len(),
                done ==> forall|k: int|
                    0 <= k < ci as int ==> match (#[trigger] self.parts@[k]).ty {
                        SimPartType::Output(out) => out.completed >= out.required,
                        _ => true,
                    },
                !done ==> !outputs_complete(self.parts@),
            decreases self.parts@.len() - ci,
        {
            match &self.parts[ci].ty {
                SimPartType::Output(out) => {
                    if out.completed < out.required {
                        proof {
                            assert(!outputs_complete(self.parts@)) by {
                                if outputs_complete(self.parts@) {
                                    assert(match self.parts@[ci as int].ty {
                                        SimPartType::Output(o) => o.completed >= o.required,
                                        _ => true,
                                    });
                                }
                            };
                        }
                        done = false;
                    }
                },
                _ => {
                },
            }
            ci = ci + 1;
        }
        Ok(done)
    }

    /// Plan one arm's instruction for the cycle: push the colliders of the
    /// arm and whatever it moves, and queue the state changes to commit
    /// after the collision check.
    #[verifier::loop_isolation(false)]
    fn plan_arm(
        &self,
        p: usize,
        cycle: u64,
        colliders: &mut Vec<crate::collision::Collider>,
        effects: &mut Vec<Effect>,
        moved: &mut Vec<bool>,
    ) -> (res: Result<(), SimulationError>)
        requires
            self.wf(),
            p < self.parts@.len(),
            old(moved)@.len() == self.molecules@.len(),
            forall|k: int|
                0 <= k < old(colliders)@.len() ==> (
                #[trigger] old(colliders)@[k]).movement.in_range(),
        ensures
            final(moved)@.len() == old(moved)@.len(),
            forall|k: int|
                0 <= k < final(colliders)@.len() ==> (
                #[trigger] final(colliders)@[k]).movement.in_range(),
            res is Err ==> res == Err::<(), SimulationError>(
                SimulationError::OutOfBounds { cycle },
            ) || res == Err::<(), SimulationError>(
                SimulationError::InstructionPrecondition { cycle, part: p },
            ) || res == Err::<(), SimulationError>(
                SimulationError::UnsupportedInstruction { cycle, part: p },
            ),
    {
        let part = &self.parts[p];
        let arm = match &part.ty {
            SimPartType::Arms(arm) => arm,
            _ => {
                return Ok(());
            },
        };
        let ins = tape_lookup(&arm.instructions, cycle);
        let base = part.pos;
        // The arm base never moves without a track.
        match push_collider(
            colliders,
            crate::collision::Collider {
                ty: crate::collision::ColliderType::ArmBase,
                movement: crate::collision::Movement::Stay { at: base },
            },
            cycle,
        ) {
            Ok(()) => {
            },
            Err(e) => {
                return Err(e);
            },
        }
        let spacing: u8 = 6 / arm.grippers;
        let mut planned_rotation = part.rotation;
        let mut planned_length = arm.length;
        // Track movement and tape control flow are not simulated.
        match ins {
            Instruction::Advance | Instruction::Retreat | Instruction::Reset
                | Instruction::Repeat => {
                return Err(SimulationError::UnsupportedInstruction { cycle, part: p });
            },
            _ => {
            },
        }
        let mut g: u8 = 0;
        let mut grabbed_any = false;
        while g < arm.grippers
            invariant
                self.wf(),
                p < self.parts@.len(),
                self.parts@[p as int] == *part,
                part.ty matches SimPartType::Arms(a2) && a2 == arm,
                moved@.len() == self.molecules@.len(),
                g <= arm.grippers,
                arm.grippers == 1 || arm.grippers == 2 || arm.grippers == 3 || arm.grippers == 6,
                spacing as int == 6int / arm.grippers as int,
                0 <= arm.length <= 3,
                part.rotation.wf(),
                -SIM_BOUND <= part.pos@.0 <= SIM_BOUND,
                -SIM_BOUND <= part.pos@.1 <= SIM_BOUND,
                forall|k: int|
                    0 <= k < colliders@.len() ==> (#[trigger] colliders@[k]).movement.in_range(),
            decreases arm.grippers - g,
        {
            proof {
                assert((g as int) * (spacing as int) <= 6 * 6) by (nonlinear_arith)
                    requires
                        0 <= (g as int) <= 6,
                        0 <= (spacing as int) <= 6,
                ;
            }
            let grot: u8 = (part.rotation.turns() + g * spacing) % 6;
            let gripper = base.plus(hex_scale(hex_dir(grot), arm.length));
            let held: Option<usize> = {
                let found = self.molecule_at(gripper);
                match found {
                    Some(i) => if self.molecules[i].grabbed {
                        Some(i)
                    } else {
                        None
                    },
                    None => None,
                }
            };
            match ins {
                Instruction::Blank | Instruction::PeriodOverride => {
                    match push_collider(
                        colliders,
                        crate::collision::Collider {
                            ty: crate::collision::ColliderType::ArmGripper,
                            movement: crate::collision::Movement::Stay { at: gripper },
                        },
                        cycle,
                    ) {
                        Ok(()) => {
                        },
                        Err(e) => {
                            return Err(e);
                        },
                    }
                },
                Instruction::Grab => {
                    match push_collider(
                        colliders,
                        crate::collision::Collider {
                            ty: crate::collision::ColliderType::ArmGripper,
                            movement: crate::collision::Movement::Stay { at: gripper },
                        },
                        cycle,
                    ) {
                        Ok(()) => {
                        },
                        Err(e) => {
                            return Err(e);
                        },
                    }
                    match self.molecule_at(gripper) {
                        Some(i) => {
                            effects.push(Effect::SetGrab { mol: i, val: true });
                            grabbed_any = true;
                        },
                        None => {
                        },
                    }
                },
                Instruction::Drop => {
                    match push_collider(
                        colliders,
                        crate::collision::Collider {
                            ty: crate::collision::ColliderType::ArmGripper,
                            movement: crate::collision::Movement::Stay { at: gripper },
                        },
                        cycle,
                    ) {
                        Ok(()) => {
                        },
                        Err(e) => {
                            return Err(e);
                        },
                    }
                    match self.molecule_at(gripper) {
                        Some(i) => {
                            effects.push(Effect::SetGrab { mol: i, val: false });
                        },
                        None => {
                        },
                    }
                },
                Instruction::RotateClockwise | Instruction::RotateAnticlockwise => {
                    let cw = match ins {
                        Instruction::RotateClockwise => true,
                        _ => false,
                    };
                    let hex_steps = HexRotation::from_unsigned(
                        if cw {
                            1
                        } else {
                            5
                        },
                    );
                    let movement_rot = HexRotation::from_unsigned(
                        if cw {
                            5
                        } else {
                            1
                        },
                    );
                    match push_collider(
                        colliders,
                        crate::collision::Collider {
                            ty: crate::collision::ColliderType::ArmGripper,
                            movement: crate::collision::Movement::Rotate {
                                start: gripper,
                                around: base,
                                rotation: movement_rot,
                            },
                        },
                        cycle,
                    ) {
                        Ok(()) => {
                        },
                        Err(e) => {
                            return Err(e);
                        },
                    }
                    if g == 0 {
                        planned_rotation = part.rotation.plus(hex_steps);
                    }
                    match held {
                        Some(i) => {
                            match self.push_molecule_movement(
                                i,
                                crate::collision::Movement::Rotate {
                                    start: base,
                                    around: base,
                                    rotation: movement_rot,
                                },
                                true,
                                base,
                                colliders,
                                cycle,
                            ) {
                                Ok(()) => {
                                },
                                Err(e) => {
                                    return Err(e);
                                },
                            }
                            effects.push(
                                Effect::RotateMol { mol: i, around: base, by: hex_steps },
                            );
                            moved.set(i, true);
                        },
                        None => {
                        },
                    }
                },
                Instruction::PivotClockwise | Instruction::PivotAnticlockwise => {
                    let cw = match ins {
                        Instruction::PivotClockwise => true,
                        _ => false,
                    };
                    let hex_steps = HexRotation::from_unsigned(
                        if cw {
                            1
                        } else {
                            5
                        },
                    );
                    let movement_rot = HexRotation::from_unsigned(
                        if cw {
                            5
                        } else {
                            1
                        },
                    );
                    match push_collider(
                        colliders,
                        crate::collision::Collider {
                            ty: crate::collision::ColliderType::ArmGripper,
                            movement: crate::collision::Movement::Stay { at: gripper },
                        },
                        cycle,
                    ) {
                        Ok(()) => {
                        },
                        Err(e) => {
                            return Err(e);
                        },
                    }
                    match held {
                        Some(i) => {
                            match self.push_molecule_movement(
                                i,
                                crate::collision::Movement::Rotate {
                                    start: gripper,
                                    around: gripper,
                                    rotation: movement_rot,
                                },
                                true,
                                gripper,
                                colliders,
                                cycle,
                            ) {
                                Ok(()) => {
                                },
                                Err(e) => {
                                    return Err(e);
                                },
                            }
                            effects.push(
                                Effect::RotateMol { mol: i, around: gripper, by: hex_steps },
                            );
                            moved.set(i, true);
                        },
                        None => {
                        },
                    }
                },
                Instruction::Extend | Instruction::Retract => {
                    let out = match ins {
                        Instruction::Extend => true,
                        _ => false,
                    };
                    if !arm.piston {
                        return Err(SimulationError::InstructionPrecondition { cycle, part: p });
                    }
                    let new_len = if out {
                        arm.length + 1
                    } else {
                        arm.length - 1
                    };
                    if new_len < 1 || new_len > 3 {
                        return Err(SimulationError::InstructionPrecondition { cycle, part: p });
                    }
                    let dir = hex_dir(grot);
                    let delta = if out {
                        dir
                    } else {
                        HexIndex { q: -dir.q, r: -dir.r }
                    };
                    let gripper_end = gripper.plus(delta);
                    match push_collider(
                        colliders,
                        crate::collision::Collider {
                            ty: crate::collision::ColliderType::ArmGripper,
                            movement: crate::collision::Movement::Translate {
                                start: gripper,
                                end: gripper_end,
                            },
                        },
                        cycle,
                    ) {
                        Ok(()) => {
                        },
                        Err(e) => {
                            return Err(e);
                        },
                    }
                    if g == 0 {
                        planned_length = new_len;
                    }
                    match held {
                        Some(i) => {
                            match self.push_molecule_translation(i, delta, colliders, cycle) {
                                Ok(()) => {
                                },
                                Err(e) => {
                                    return Err(e);
                                },
                            }
                            effects.push(Effect::TranslateMol { mol: i, by: delta });
                            moved.set(i, true);
                        },
                        None => {
                        },
                    }
                },
                _ => {
                },
            }
            g = g + 1;
        }
        let is_grab = match ins {
            Instruction::Grab => true,
            _ => false,
        };
        if is_grab && !grabbed_any {
            return Err(SimulationError::InstructionPrecondition { cycle, part: p });
        }
        effects.push(Effect::SetArm { part: p, rotation: planned_rotation, length: planned_length });
        Ok(())
    }

    /// Push one rotating molecule's atom colliders: each atom swings around
    /// the pivot with the given movement rotation.
    #[verifier::loop_isolation(false)]
    fn push_molecule_movement(
        &self,
        i: usize,
        template: crate::collision::Movement,
        rotate: bool,
        pivot: HexIndex,
        colliders: &mut Vec<crate::collision::Collider>,
        cycle: u64,
    ) -> (res: Result<(), SimulationError>)
        requires
            self.wf(),
            i < self.molecules@.len(),
            template matches crate::collision::Movement::Rotate { start: _, around, rotation }
                && around == pivot && rotation.wf(),
            forall|k: int|
                0 <= k < old(colliders)@.len() ==> (
                #[trigger] old(colliders)@[k]).movement.in_range(),
        ensures
            forall|k: int|
                0 <= k < final(colliders)@.len() ==> (
                #[trigger] final(colliders)@[k]).movement.in_range(),
            res is Err ==> res == Err::<(), SimulationError>(
                SimulationError::OutOfBounds { cycle },
            ),
    {
        let rotation = match template {
            crate::collision::Movement::Rotate { start: _, around: _, rotation } => rotation,
            _ => {
                return Ok(());
            },
        };
        let sm = &self.molecules[i];
        let mut ai: usize = 0;
        while ai < sm.layout.atoms.len()
            invariant
                self.wf(),
                i < self.molecules@.len(),
                sm == &self.molecules@[i as int],
                rotation.wf(),
                ai <= sm.layout.atoms@.len(),
                forall|k: int|
                    0 <= k < colliders@.len() ==> (#[trigger] colliders@[k]).movement.in_range(),
            decreases sm.layout.atoms@.len() - ai,
        {
            proof {
                assert(-SIM_BOUND <= (#[trigger] sm.layout@.atoms[ai as int]).0@.0 <= SIM_BOUND
                    && -SIM_BOUND <= sm.layout@.atoms[ai as int].0@.1 <= SIM_BOUND);
            }
            let abs = sm.layout.atoms[ai].0.plus(sm.pos);
            match push_collider(
                colliders,
                crate::collision::Collider {
                    ty: crate::collision::ColliderType::Atom,
                    movement: crate::collision::Movement::Rotate {
                        start: abs,
                        around: pivot,
                        rotation,
                    },
                },
                cycle,
            ) {
                Ok(()) => {
                },
                Err(e) => {
                    return Err(e);
                },
            }
            ai = ai + 1;
        }
        Ok(())
    }

    /// Push one translating molecule's atom colliders.
    #[verifier::loop_isolation(false)]
    fn push_molecule_translation(
        &self,
        i: usize,
        delta: HexIndex,
        colliders: &mut Vec<crate::collision::Collider>,
        cycle: u64,
    ) -> (res: Result<(), SimulationError>)
        requires
            self.wf(),
            i < self.molecules@.len(),
            -4 <= delta@.0 <= 4,
            -4 <= delta@.1 <= 4,
            forall|k: int|
                0 <= k < old(colliders)@.len() ==> (
                #[trigger] old(colliders)@[k]).movement.in_range(),
        ensures
            forall|k: int|
                0 <= k < final(colliders)@.len() ==> (
                #[trigger] final(colliders)@[k]).movement.in_range(),
            res is Err ==> res == Err::<(), SimulationError>(
                SimulationError::OutOfBounds { cycle },
            ),
    {
        let sm = &self.molecules[i];
        let mut ai: usize = 0;
        while ai < sm.layout.atoms.len()
            invariant
                self.wf(),
                i < self.molecules@.len(),
                sm == &self.molecules@[i as int],
                -4 <= delta@.0 <= 4,
                -4 <= delta@.1 <= 4,
                ai <= sm.layout.atoms@.len(),
                forall|k: int|
                    0 <= k < colliders@.len() ==> (#[trigger] colliders@[k]).movement.in_range(),
            decreases sm.layout.atoms@.len() - ai,
        {
            proof {
                assert(-SIM_BOUND <= (#[trigger] sm.layout@.atoms[ai as int]).0@.0 <= SIM_BOUND
                    && -SIM_BOUND <= sm.layout@.atoms[ai as int].0@.1 <= SIM_BOUND);
            }
            let abs = sm.layout.atoms[ai].0.plus(sm.pos);
            let end = abs.plus(delta);
            match push_collider(
                colliders,
                crate::collision::Collider {
                    ty: crate::collision::ColliderType::Atom,
                    movement: crate::collision::Movement::Translate { start: abs, end },
                },
                cycle,
            ) {
                Ok(()) => {
                },
                Err(e) => {
                    return Err(e);
                },
            }
            ai = ai + 1;
        }
        Ok(())
    }

    /// Commit one planned effect.
    #[verifier::loop_isolation(false)]
    fn apply_effect(&mut self, effects: &Vec<Effect>, ei: usize, cycle: u64) -> (res: Result<
        (),
        SimulationError,
    >)
        requires
            old(self).wf(),
            ei < effects@.len(),
        ensures
            final(self).wf(),
            final(self).parts@.len() == old(self).parts@.len(),
            final(self).molecules@.len() == old(self).molecules@.len(),
            res is Err ==> res == Err::<(), SimulationError>(
                SimulationError::OutOfBounds { cycle },
            ),
    {
        match &effects[ei] {
            Effect::SetGrab { mol, val } => {
                let mol = *mol;
                let val = *val;
                if mol < self.molecules.len() {
                    let sm = self.molecules.remove(mol);
                    let ghost pre = self.molecules@;
                    self.molecules.insert(
                        mol,
                        SimMolecule { layout: sm.layout, pos: sm.pos, grabbed: val },
                    );
                }
                Ok(())
            },
            Effect::RotateMol { mol, around, by } => {
                let mol = *mol;
                let around = *around;
                let by = *by;
                if mol >= self.molecules.len() || by.turns() >= 6 || around.q < -SIM_BOUND
                    || around.q > SIM_BOUND || around.r < -SIM_BOUND || around.r > SIM_BOUND {
                    return Err(SimulationError::OutOfBounds { cycle });
                }
                let sm = self.molecules.remove(mol);
                let pivot_local = around.minus(sm.pos);
                proof {
                    let n = by.turns as nat;
                    assert forall|k: int| 0 <= k < sm.layout@.atoms.len() implies coords_ok(
                        (#[trigger] sm.layout@.atoms[k]).0@,
                    ) by {}
                }
                let rotated = sm.layout.rotated(pivot_local, by);
                if !check_mol_bounds(&rotated, SIM_BOUND) {
                    self.molecules.insert(mol, sm);
                    return Err(SimulationError::OutOfBounds { cycle });
                }
                proof {
                    let ghost tr = crate::data::PosTransform::Rotation(pivot_local, by);
                    assert(tr.wf() && (forall|k: int|
                        0 <= k < sm.layout@.atoms.len() ==> (#[trigger] rotated@.atoms[k]).0@
                            == tr.apply(sm.layout@.atoms[k].0@) && rotated@.atoms[k].1
                            == sm.layout@.atoms[k].1) && (forall|k: int|
                        0 <= k < sm.layout@.bonds.len() ==> (#[trigger] rotated@.bonds[k]).start@
                            == tr.apply(sm.layout@.bonds[k].start@) && rotated@.bonds[k].end@
                            == tr.apply(sm.layout@.bonds[k].end@) && rotated@.bonds[k].ty
                            == sm.layout@.bonds[k].ty));
                    lemma_mapped_wf_iff(sm.layout@, rotated@, tr);
                }
                self.molecules.insert(
                    mol,
                    SimMolecule { layout: rotated, pos: sm.pos, grabbed: sm.grabbed },
                );
                Ok(())
            },
            Effect::TranslateMol { mol, by } => {
                let mol = *mol;
                let by = *by;
                if mol >= self.molecules.len() || by.q < -4 || by.q > 4 || by.r < -4 || by.r > 4 {
                    return Err(SimulationError::OutOfBounds { cycle });
                }
                let sm = self.molecules.remove(mol);
                let new_pos = sm.pos.plus(by);
                if new_pos.q < -SIM_BOUND || new_pos.q > SIM_BOUND || new_pos.r < -SIM_BOUND
                    || new_pos.r > SIM_BOUND {
                    self.molecules.insert(mol, sm);
                    return Err(SimulationError::OutOfBounds { cycle });
                }
                self.molecules.insert(
                    mol,
                    SimMolecule { layout: sm.layout, pos: new_pos, grabbed: sm.grabbed },
                );
                Ok(())
            },
            Effect::SetArm { part, rotation, length } => {
                let part = *part;
                let rotation = *rotation;
                let length = *length;
                if part >= self.parts.len() || rotation.turns() >= 6 || length < 0 || length > 3 {
                    return Err(SimulationError::OutOfBounds { cycle });
                }
                let sp = self.parts.remove(part);
                let new_ty = match sp.ty {
                    SimPartType::Arms(arm) => SimPartType::Arms(
                        SimArm {
                            length,
                            grippers: arm.grippers,
                            piston: arm.piston,
                            instructions: arm.instructions,
                        },
                    ),
                    other => other,
                };
                self.parts.insert(part, SimPart { pos: sp.pos, rotation, ty: new_ty });
                Ok(())
            },
        }
    }

    /// Run the simulation to completion: success when every output reaches
    /// its required count, failure on any simulation error or when the cycle
    /// limit passes without completion. Cycles count from one; a success on
    /// cycle `c` means the `c`-th step completed, and the cycle-limit failure
    /// comes only after `max_cycles` non-completing cycles.
    #[verifier::loop_isolation(false)]
    pub fn run(&mut self, max_cycles: u64) -> (res: RunState)
        requires
            old(self).wf(),
            max_cycles < 0xFFFFFFFFFFFFFFFF,
        ensures
            final(self).wf(),
            !(res is Running),
            res matches RunState::Succeeded { cycles } ==> outputs_complete(final(self).parts@)
                && 1 <= cycles <= max_cycles,
            res matches RunState::Failed { error } ==> (match error {
                SimulationError::CycleLimit { max_cycles: m } => m == max_cycles,
                SimulationError::Collision { cycle: c } => 1 <= c <= max_cycles,
                SimulationError::InstructionPrecondition { cycle: c, part: _ } => 1 <= c
                    <= max_cycles,
                SimulationError::UnsupportedInstruction { cycle: c, part: _ } => 1 <= c
                    <= max_cycles,
                SimulationError::UnsupportedPart { cycle: c, part: _ } => 1 <= c <= max_cycles,
                SimulationError::OutOfBounds { cycle: c } => 1 <= c <= max_cycles,
            }),
            old(self).parts@.len() == 0 && old(self).molecules@.len() == 0 && max_cycles >= 1
                ==> res == (RunState::Succeeded { cycles: 1 }),
    {
        let mut cycle: u64 = 1;
        while cycle <= max_cycles
            invariant
                self.wf(),
                1 <= cycle <= max_cycles + 1,
                old(self).parts@.len() == 0 && old(self).molecules@.len() == 0 ==> cycle == 1
                    && self.parts@ == old(self).parts@ && self.molecules@ == old(self).molecules@,
            decreases max_cycles - cycle + 1,
        {
            match self.step(cycle) {
                Ok(done) => {
                    if done {
                        return RunState::Succeeded { cycles: cycle };
                    }
                },
                Err(e) => {
                    return RunState::Failed { error: e };
                },
            }
            cycle = cycle + 1;
        }
        RunState::Failed { error: SimulationError::CycleLimit { max_cycles } }
    }
}

} // verus!
