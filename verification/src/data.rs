//! The data model: atoms, bonds, molecules, parts, puzzles and solutions.

use vstd::prelude::*;

use crate::hex::{coords_ok, hex_add, rot_around, HexIndex, HexRotation};
use crate::hex::COORD_BOUND;

verus! {

/// An atom type, or element.
#[derive(Copy, Clone, Debug, Default, PartialEq, Eq, Hash, Structural)]
pub enum Atom {
    #[default]
    Salt,
    Air,
    Earth,
    Fire,
    Water,
    Quicksilver,
    Vitae,
    Mors,
    Lead,
    Tin,
    Iron,
    Copper,
    Silver,
    Gold,
    Quintessence,
    Repeat,
}

/// The atom denoted by a byte id on the wire, ids one through sixteen.
pub open spec fn spec_atom_from_id(id: u8) -> Option<Atom> {
    if id == 1 {
        Some(Atom::Salt)
    } else if id == 2 {
        Some(Atom::Air)
    } else if id == 3 {
        Some(Atom::Earth)
    } else if id == 4 {
        Some(Atom::Fire)
    } else if id == 5 {
        Some(Atom::Water)
    } else if id == 6 {
        Some(Atom::Quicksilver)
    } else if id == 7 {
        Some(Atom::Gold)
    } else if id == 8 {
        Some(Atom::Silver)
    } else if id == 9 {
        Some(Atom::Copper)
    } else if id == 10 {
        Some(Atom::Iron)
    } else if id == 11 {
        Some(Atom::Tin)
    } else if id == 12 {
        Some(Atom::Lead)
    } else if id == 13 {
        Some(Atom::Vitae)
    } else if id == 14 {
        Some(Atom::Mors)
    } else if id == 15 {
        Some(Atom::Repeat)
    } else if id == 16 {
        Some(Atom::Quintessence)
    } else {
        None
    }
}

/// The wire byte id of an atom; the inverse of `spec_atom_from_id`.
pub open spec fn spec_atom_id(a: Atom) -> u8 {
    match a {
        Atom::Salt => 1,
        Atom::Air => 2,
        Atom::Earth => 3,
        Atom::Fire => 4,
        Atom::Water => 5,
        Atom::Quicksilver => 6,
        Atom::Gold => 7,
        Atom::Silver => 8,
        Atom::Copper => 9,
        Atom::Iron => 10,
        Atom::Tin => 11,
        Atom::Lead => 12,
        Atom::Vitae => 13,
        Atom::Mors => 14,
        Atom::Repeat => 15,
        Atom::Quintessence => 16,
    }
}

/// Every atom's id decodes back to the same atom.
pub proof fn lemma_atom_id_roundtrip(a: Atom)
    ensures
        spec_atom_from_id(spec_atom_id(a)) == Some(a),
{
}

impl Atom {
    /// Get an atom type by byte id, or `None` if the id is invalid.
    pub fn from_id(id: u8) -> (res: Option<Atom>)
        ensures
            res == spec_atom_from_id(id),
            res is Some <==> 1 <= id <= 16,
    {
        match id {
            1 => Some(Atom::Salt),
            2 => Some(Atom::Air),
            3 => Some(Atom::Earth),
            4 => Some(Atom::Fire),
            5 => Some(Atom::Water),
            6 => Some(Atom::Quicksilver),
            7 => Some(Atom::Gold),
            8 => Some(Atom::Silver),
            9 => Some(Atom::Copper),
            10 => Some(Atom::Iron),
            11 => Some(Atom::Tin),
            12 => Some(Atom::Lead),
            13 => Some(Atom::Vitae),
            14 => Some(Atom::Mors),
            15 => Some(Atom::Repeat),
            16 => Some(Atom::Quintessence),
            _ => None,
        }
    }

    /// The byte id this atom is written as.
    pub fn to_id(self) -> (res: u8)
        ensures
            res == spec_atom_id(self),
    {
        match self {
            Atom::Salt => 1,
            Atom::Air => 2,
            Atom::Earth => 3,
            Atom::Fire => 4,
            Atom::Water => 5,
            Atom::Quicksilver => 6,
            Atom::Gold => 7,
            Atom::Silver => 8,
            Atom::Copper => 9,
            Atom::Iron => 10,
            Atom::Tin => 11,
            Atom::Lead => 12,
            Atom::Vitae => 13,
            Atom::Mors => 14,
            Atom::Repeat => 15,
            Atom::Quintessence => 16,
        }
    }
}

/// A bond type: normal, or triplex with three independent colour flags.
#[derive(Copy, Clone, Debug, Default, PartialEq, Eq, Hash, Structural)]
pub enum BondType {
    #[default]
    Normal,
    Triplex { red: bool, black: bool, yellow: bool },
}

/// A bond between two atom positions.
/// The endpoints may be non-adjacent in the case of quantum bonds.
#[derive(Copy, Clone, Debug, PartialEq, Eq, Hash, Structural)]
pub struct Bond {
    /// One end of the bond.
    pub start: HexIndex,
    /// The other end of the bond.
    pub end: HexIndex,
    /// The type of bond this is.
    pub ty: BondType,
}

/// The mathematical value of a molecule: its atom list (position, element)
/// and its bond list, both in wire order.
pub ghost struct MolView {
    pub atoms: Seq<(HexIndex, Atom)>,
    pub bonds: Seq<Bond>,
}

/// A molecule: a collection of atoms keyed by relative position, plus the
/// bonds between them. Atom order is the order of the wire encoding; a
/// well-formed molecule has no two atoms at the same position.
#[derive(Debug, Clone)]
pub struct Molecule {
    /// The atoms in this molecule by relative position.
    pub atoms: Vec<(HexIndex, Atom)>,
    /// The bonds between atoms.
    pub bonds: Vec<Bond>,
}

impl View for Molecule {
    type V = MolView;

    open spec fn view(&self) -> MolView {
        MolView { atoms: self.atoms@, bonds: self.bonds@ }
    }
}


/// The views of a sequence of molecules.
pub open spec fn mol_views(ms: Seq<Molecule>) -> Seq<MolView> {
    ms.map_values(|m: Molecule| m@)
}

/// First atom in the list at position `p`, if any.
pub open spec fn spec_lookup_atom(atoms: Seq<(HexIndex, Atom)>, p: HexIndex) -> Option<Atom>
    decreases atoms.len(),
{
    if atoms.len() == 0 {
        None
    } else if atoms[0].0 == p {
        Some(atoms[0].1)
    } else {
        spec_lookup_atom(atoms.drop_first(), p)
    }
}

impl MolView {
    /// True when some atom sits at position `p`.
    pub open spec fn has_atom(self, p: HexIndex) -> bool {
        exists|i: int| 0 <= i < self.atoms.len() && self.atoms[i].0 == p
    }

    /// The atom at position `p` (the first one in wire order).
    pub open spec fn atom_at(self, p: HexIndex) -> Option<Atom> {
        spec_lookup_atom(self.atoms, p)
    }

    /// No two atoms share a position.
    pub open spec fn unique_positions(self) -> bool {
        forall|i: int, j: int|
            0 <= i < j < self.atoms.len() ==> self.atoms[i].0 != self.atoms[j].0
    }

    /// Every bond endpoint is the position of some atom.
    pub open spec fn bonds_closed(self) -> bool {
        forall|k: int|
            0 <= k < self.bonds.len() ==> self.has_atom(#[trigger] self.bonds[k].start)
                && self.has_atom(self.bonds[k].end)
    }

    /// The molecule invariant: unique atom positions, and every bond endpoint
    /// present as an atom.
    pub open spec fn wf(self) -> bool {
        self.unique_positions() && self.bonds_closed()
    }

    /// All positions, atom and bond endpoints alike, within `COORD_BOUND`.
    pub open spec fn coords_in_range(self) -> bool {
        &&& forall|i: int| 0 <= i < self.atoms.len() ==> coords_ok((#[trigger] self.atoms[i]).0@)
        &&& forall|k: int|
            0 <= k < self.bonds.len() ==> coords_ok((#[trigger] self.bonds[k]).start@)
                && coords_ok(self.bonds[k].end@)
    }
}

/// A positional transform applied to a whole molecule: a translation, or a
/// rotation around a pivot.
#[derive(Copy, Clone, Debug)]
pub enum PosTransform {
    Translate(HexIndex),
    Rotation(HexIndex, HexRotation),
}

impl PosTransform {
    /// The transform as a function on coordinate pairs.
    pub open spec fn apply(self, p: (int, int)) -> (int, int) {
        match self {
            PosTransform::Translate(d) => hex_add(p, d@),
            PosTransform::Rotation(c, by) => rot_around(p, c@, by.turns as nat),
        }
    }

    pub open spec fn wf(self) -> bool {
        match self {
            PosTransform::Translate(d) => coords_ok(d@),
            PosTransform::Rotation(c, by) => coords_ok(c@) && by.wf(),
        }
    }
}

/// Apply a transform to one position.
pub fn apply_transform(t: PosTransform, p: HexIndex) -> (res: HexIndex)
    requires
        t.wf(),
        coords_ok(p@),
    ensures
        res@ == t.apply(p@),
{
    match t {
        PosTransform::Translate(d) => p.plus(d),
        PosTransform::Rotation(c, by) => p.rotated(c, by),
    }
}

/// A transform maps distinct positions to distinct positions.
pub proof fn lemma_transform_injective(t: PosTransform, p1: (int, int), p2: (int, int))
    requires
        t.wf(),
        t.apply(p1) == t.apply(p2),
    ensures
        p1 == p2,
{
    match t {
        PosTransform::Translate(d) => {
            assert(hex_add(p1, d@).0 == hex_add(p2, d@).0);
        },
        PosTransform::Rotation(c, by) => {
            let n = by.turns as nat;
            crate::hex::lemma_rotate_inverse(p1, c@, n);
            crate::hex::lemma_rotate_inverse(p2, c@, n);
        },
    }
}

impl Molecule {
    /// A molecule with no atoms and no bonds.
    pub fn empty() -> (res: Molecule)
        ensures
            res@.atoms.len() == 0,
            res@.bonds.len() == 0,
    {
        Molecule { atoms: Vec::new(), bonds: Vec::new() }
    }

    /// An exact copy.
    pub fn duplicate(&self) -> (res: Molecule)
        ensures
            res@ == self@,
    {
        let mut atoms: Vec<(HexIndex, Atom)> = Vec::new();
        let mut i: usize = 0;
        while i < self.atoms.len()
            invariant
                i <= self.atoms@.len(),
                atoms@ == self.atoms@.take(i as int),
            decreases self.atoms@.len() - i,
        {
            atoms.push(self.atoms[i]);
            proof {
                assert(atoms@ =~= self.atoms@.take(i + 1));
            }
            i = i + 1;
        }
        let mut bonds: Vec<Bond> = Vec::new();
        let mut j: usize = 0;
        while j < self.bonds.len()
            invariant
                j <= self.bonds@.len(),
                bonds@ == self.bonds@.take(j as int),
            decreases self.bonds@.len() - j,
        {
            bonds.push(self.bonds[j]);
            proof {
                assert(bonds@ =~= self.bonds@.take(j + 1));
            }
            j = j + 1;
        }
        proof {
            assert(atoms@ =~= self.atoms@);
            assert(bonds@ =~= self.bonds@);
        }
        Molecule { atoms, bonds }
    }

    /// A new molecule with every atom position and every bond endpoint
    /// remapped by the transform, atom types and bond types unchanged.
    pub fn mapped_positions(&self, t: PosTransform) -> (res: Molecule)
        requires
            t.wf(),
            self@.coords_in_range(),
        ensures
            res@.atoms.len() == self@.atoms.len(),
            forall|i: int|
                0 <= i < self@.atoms.len() ==> (#[trigger] res@.atoms[i]).0@ == t.apply(
                    self@.atoms[i].0@,
                ) && res@.atoms[i].1 == self@.atoms[i].1,
            res@.bonds.len() == self@.bonds.len(),
            forall|k: int|
                0 <= k < self@.bonds.len() ==> (#[trigger] res@.bonds[k]).start@ == t.apply(
                    self@.bonds[k].start@,
                ) && res@.bonds[k].end@ == t.apply(self@.bonds[k].end@) && res@.bonds[k].ty
                    == self@.bonds[k].ty,
            self@.unique_positions() ==> res@.unique_positions(),
    {
        let mut atoms: Vec<(HexIndex, Atom)> = Vec::new();
        let mut i: usize = 0;
        while i < self.atoms.len()
            invariant
                t.wf(),
                self@.coords_in_range(),
                i <= self.atoms@.len(),
                atoms@.len() == i as int,
                forall|k: int|
                    0 <= k < i as int ==> (#[trigger] atoms@[k]).0@ == t.apply(
                        self.atoms@[k].0@,
                    ) && atoms@[k].1 == self.atoms@[k].1,
            decreases self.atoms@.len() - i,
        {
            let (pos, atom) = self.atoms[i];
            proof {
                assert(coords_ok(self.atoms@[i as int].0@)) by {
                    assert(coords_ok((self@.atoms[i as int]).0@));
                }
            }
            atoms.push((apply_transform(t, pos), atom));
            i = i + 1;
        }
        let mut bonds: Vec<Bond> = Vec::new();
        let mut j: usize = 0;
        while j < self.bonds.len()
            invariant
                t.wf(),
                self@.coords_in_range(),
                j <= self.bonds@.len(),
                bonds@.len() == j as int,
                forall|k: int|
                    0 <= k < j as int ==> (#[trigger] bonds@[k]).start@ == t.apply(
                        self.bonds@[k].start@,
                    ) && bonds@[k].end@ == t.apply(self.bonds@[k].end@) && bonds@[k].ty
                        == self.bonds@[k].ty,
            decreases self.bonds@.len() - j,
        {
            let b = self.bonds[j];
            bonds.push(
                Bond {
                    start: apply_transform(t, b.start),
                    end: apply_transform(t, b.end),
                    ty: b.ty,
                },
            );
            j = j + 1;
        }
        let res = Molecule { atoms, bonds };
        proof {
            if self@.unique_positions() {
                assert forall|a: int, b: int|
                    0 <= a < b < res@.atoms.len() implies res@.atoms[a].0 != res@.atoms[b].0 by {
                    if res@.atoms[a].0 == res@.atoms[b].0 {
                        lemma_transform_injective(t, self@.atoms[a].0@, self@.atoms[b].0@);
                        assert(self@.atoms[a].0@ == self@.atoms[b].0@);
                        assert(self@.atoms[a].0 == self@.atoms[b].0);
                    }
                }
            }
        }
        res
    }

    /// The molecule translated by `by`.
    pub fn translated(&self, by: HexIndex) -> (res: Molecule)
        requires
            coords_ok(by@),
            self@.coords_in_range(),
        ensures
            res@.atoms.len() == self@.atoms.len(),
            forall|i: int|
                0 <= i < self@.atoms.len() ==> (#[trigger] res@.atoms[i]).0@ == hex_add(
                    self@.atoms[i].0@,
                    by@,
                ) && res@.atoms[i].1 == self@.atoms[i].1,
            res@.bonds.len() == self@.bonds.len(),
            forall|k: int|
                0 <= k < self@.bonds.len() ==> (#[trigger] res@.bonds[k]).start@ == hex_add(
                    self@.bonds[k].start@,
                    by@,
                ) && res@.bonds[k].end@ == hex_add(self@.bonds[k].end@, by@) && res@.bonds[k].ty
                    == self@.bonds[k].ty,
            self@.unique_positions() ==> res@.unique_positions(),
    {
        self.mapped_positions(PosTransform::Translate(by))
    }

    /// The molecule rotated around `around` by `by` clockwise steps.
    pub fn rotated(&self, around: HexIndex, by: HexRotation) -> (res: Molecule)
        requires
            coords_ok(around@),
            by.wf(),
            self@.coords_in_range(),
        ensures
            res@.atoms.len() == self@.atoms.len(),
            forall|i: int|
                0 <= i < self@.atoms.len() ==> (#[trigger] res@.atoms[i]).0@ == rot_around(
                    self@.atoms[i].0@,
                    around@,
                    by.turns as nat,
                ) && res@.atoms[i].1 == self@.atoms[i].1,
            res@.bonds.len() == self@.bonds.len(),
            forall|k: int|
                0 <= k < self@.bonds.len() ==> (#[trigger] res@.bonds[k]).start@ == rot_around(
                    self@.bonds[k].start@,
                    around@,
                    by.turns as nat,
                ) && res@.bonds[k].end@ == rot_around(self@.bonds[k].end@, around@, by.turns as nat)
                    && res@.bonds[k].ty == self@.bonds[k].ty,
            self@.unique_positions() ==> res@.unique_positions(),
    {
        self.mapped_positions(PosTransform::Rotation(around, by))
    }

    /// Is there an atom at the given (molecule-local) position?
    pub fn contains_pos(&self, pos: HexIndex) -> (res: bool)
        ensures
            res == self@.has_atom(pos),
    {
        let mut i: usize = 0;
        while i < self.atoms.len()
            invariant
                i <= self.atoms@.len(),
                forall|k: int| 0 <= k < i as int ==> (#[trigger] self.atoms@[k]).0 != pos,
            decreases self.atoms@.len() - i,
        {
            if self.atoms[i].0 == pos {
                proof {
                    assert(self@.atoms[i as int].0 == pos && (i as int) < self@.atoms.len());
                }
                return true;
            }
            i = i + 1;
        }
        false
    }

    /// The atom at the given position, or `None`.
    pub fn atom_at(&self, pos: HexIndex) -> (res: Option<Atom>)
        ensures
            res == self@.atom_at(pos),
    {
        let mut i: usize = 0;
        proof {
            assert(self.atoms@.skip(0) =~= self.atoms@);
        }
        while i < self.atoms.len()
            invariant
                i <= self.atoms@.len(),
                spec_lookup_atom(self.atoms@, pos) == spec_lookup_atom(
                    self.atoms@.skip(i as int),
                    pos,
                ),
            decreases self.atoms@.len() - i,
        {
            let (p, a) = self.atoms[i];
            proof {
                assert(self.atoms@.skip(i as int)[0] == self.atoms@[i as int]);
                assert(self.atoms@.skip(i as int).drop_first() =~= self.atoms@.skip(i + 1));
            }
            if p == pos {
                return Some(a);
            }
            i = i + 1;
        }
        None
    }

    /// Whether every coordinate in the molecule is within `COORD_BOUND`.
    pub fn check_coords(&self) -> (res: bool)
        ensures
            res == self@.coords_in_range(),
    {
        let mut i: usize = 0;
        while i < self.atoms.len()
            invariant
                i <= self.atoms@.len(),
                forall|k: int| 0 <= k < i as int ==> coords_ok((#[trigger] self.atoms@[k]).0@),
            decreases self.atoms@.len() - i,
        {
            let p = self.atoms[i].0;
            if p.q < -COORD_BOUND || p.q > COORD_BOUND || p.r < -COORD_BOUND || p.r > COORD_BOUND {
                proof {
                    assert(!coords_ok((self@.atoms[i as int]).0@));
                }
                return false;
            }
            proof {
                assert(coords_ok((self.atoms@[i as int]).0@));
            }
            i = i + 1;
        }
        let mut j: usize = 0;
        while j < self.bonds.len()
            invariant
                j <= self.bonds@.len(),
                forall|k: int| 0 <= k < i as int ==> coords_ok((#[trigger] self.atoms@[k]).0@),
                i as int == self.atoms@.len(),
                forall|k: int|
                    0 <= k < j as int ==> coords_ok((#[trigger] self.bonds@[k]).start@)
                        && coords_ok(self.bonds@[k].end@),
            decreases self.bonds@.len() - j,
        {
            let b = self.bonds[j];
            if b.start.q < -COORD_BOUND || b.start.q > COORD_BOUND || b.start.r < -COORD_BOUND
                || b.start.r > COORD_BOUND {
                proof {
                    assert(!coords_ok(self.bonds@[j as int].start@));
                }
                return false;
            }
            if b.end.q < -COORD_BOUND || b.end.q > COORD_BOUND || b.end.r < -COORD_BOUND
                || b.end.r > COORD_BOUND {
                proof {
                    assert(!coords_ok(self.bonds@[j as int].end@));
                }
                return false;
            }
            proof {
                assert(coords_ok((self.bonds@[j as int]).start@));
                assert(coords_ok((self.bonds@[j as int]).end@));
            }
            j = j + 1;
        }
        true
    }
}

// ---------------------------------------------------------------------------
// Byte-string helpers

/// Compare a byte slice with a byte vector.
pub fn bytes_eq(a: &[u8], b: &Vec<u8>) -> (res: bool)
    ensures
        res == (a@ == b@),
{
    if a.len() != b.len() {
        return false;
    }
    let mut i: usize = 0;
    while i < a.len()
        invariant
            a@.len() == b@.len(),
            i <= a@.len(),
            forall|k: int| 0 <= k < i as int ==> a@[k] == b@[k],
        decreases a@.len() - i,
    {
        if a[i] != b[i] {
            return false;
        }
        i = i + 1;
    }
    proof {
        assert(a@ =~= b@);
    }
    true
}

/// Copy a vector of copyable elements.
pub fn copy_vec<T: Copy>(v: &Vec<T>) -> (res: Vec<T>)
    ensures
        res@ == v@,
{
    let mut out: Vec<T> = Vec::new();
    let mut i: usize = 0;
    while i < v.len()
        invariant
            i <= v@.len(),
            out@ == v@.take(i as int),
        decreases v@.len() - i,
    {
        out.push(v[i]);
        proof {
            assert(out@ =~= v@.take(i + 1));
        }
        i = i + 1;
    }
    proof {
        assert(out@ =~= v@);
    }
    out
}

// ---------------------------------------------------------------------------
// Metrics and permissions

/// Metrics that a solved solution may record.
#[derive(Copy, Clone, Debug, PartialEq, Eq, Default, Structural)]
pub struct Metrics {
    pub cycles: i32,
    pub cost: i32,
    pub area: i32,
    pub instructions: i32,
}

/// The bits of the permission mask with a known meaning.
pub const KNOWN_PERMISSION_BITS: u64 = 0x17C7FF0F;

/// The permission flags a puzzle may enable, as named booleans, plus one
/// residual mask that preserves any unknown bits of the wire value.
#[derive(Copy, Clone, Debug, PartialEq, Eq, Structural)]
pub struct Permissions {
    pub simple_arm: bool,
    pub multi_arms: bool,
    pub piston_arm: bool,
    pub track: bool,
    pub bonder: bool,
    pub unbonder: bool,
    pub multi_bonder: bool,
    pub triplex_bonder: bool,
    pub calcification: bool,
    pub duplication: bool,
    pub projection: bool,
    pub purification: bool,
    pub animismus: bool,
    pub disposal: bool,
    pub quintessence: bool,
    pub berlo: bool,
    pub grab_turn_instructions: bool,
    pub drop_instruction: bool,
    pub reset_instruction: bool,
    pub repeat_instruction: bool,
    pub pivot_instructions: bool,
    /// Bits of the wire mask with no known meaning, preserved as-is.
    pub residual: u64,
}

/// The permissions denoted by a wire mask.
pub open spec fn spec_permissions_from_bits(bits: u64) -> Permissions {
    Permissions {
        simple_arm: bits & 0x1 != 0,
        multi_arms: bits & 0x2 != 0,
        piston_arm: bits & 0x4 != 0,
        track: bits & 0x8 != 0,
        bonder: bits & 0x100 != 0,
        unbonder: bits & 0x200 != 0,
        multi_bonder: bits & 0x400 != 0,
        triplex_bonder: bits & 0x800 != 0,
        calcification: bits & 0x1000 != 0,
        duplication: bits & 0x2000 != 0,
        projection: bits & 0x4000 != 0,
        purification: bits & 0x8000 != 0,
        animismus: bits & 0x10000 != 0,
        disposal: bits & 0x20000 != 0,
        quintessence: bits & 0x40000 != 0,
        berlo: bits & 0x10000000 != 0,
        grab_turn_instructions: bits & 0x400000 != 0,
        drop_instruction: bits & 0x800000 != 0,
        reset_instruction: bits & 0x1000000 != 0,
        repeat_instruction: bits & 0x2000000 != 0,
        pivot_instructions: bits & 0x4000000 != 0,
        residual: bits & !KNOWN_PERMISSION_BITS,
    }
}

/// The mask contribution of one flag.
pub open spec fn flag_bit(b: bool, m: u64) -> u64 {
    if b {
        m
    } else {
        0u64
    }
}

/// The mask contribution of one flag, computed.
fn flag_bit_e(b: bool, m: u64) -> (res: u64)
    ensures
        res == flag_bit(b, m),
{
    if b {
        m
    } else {
        0
    }
}

/// The wire mask a permission value is written as.
pub open spec fn spec_permissions_bits(p: Permissions) -> u64 {
    flag_bit(p.simple_arm, 0x1u64)
    | flag_bit(p.multi_arms, 0x2u64)
    | flag_bit(p.piston_arm, 0x4u64)
    | flag_bit(p.track, 0x8u64)
    | flag_bit(p.bonder, 0x100u64)
    | flag_bit(p.unbonder, 0x200u64)
    | flag_bit(p.multi_bonder, 0x400u64)
    | flag_bit(p.triplex_bonder, 0x800u64)
    | flag_bit(p.calcification, 0x1000u64)
    | flag_bit(p.duplication, 0x2000u64)
    | flag_bit(p.projection, 0x4000u64)
    | flag_bit(p.purification, 0x8000u64)
    | flag_bit(p.animismus, 0x10000u64)
    | flag_bit(p.disposal, 0x20000u64)
    | flag_bit(p.quintessence, 0x40000u64)
    | flag_bit(p.berlo, 0x10000000u64)
    | flag_bit(p.grab_turn_instructions, 0x400000u64)
    | flag_bit(p.drop_instruction, 0x800000u64)
    | flag_bit(p.reset_instruction, 0x1000000u64)
    | flag_bit(p.repeat_instruction, 0x2000000u64)
    | flag_bit(p.pivot_instructions, 0x4000000u64)
    | (p.residual & !KNOWN_PERMISSION_BITS)
}

impl Permissions {
    /// The residual holds no known bit; decoding establishes this.
    pub open spec fn wf(self) -> bool {
        self.residual & KNOWN_PERMISSION_BITS == 0
    }

    /// Decode a wire mask into named flags plus the residual unknown bits.
    pub fn from_bits(bits: u64) -> (res: Permissions)
        ensures
            res == spec_permissions_from_bits(bits),
            res.wf(),
    {
        proof {
            assert((bits & !0x17C7FF0Fu64) & 0x17C7FF0Fu64 == 0) by (bit_vector);
        }
        Permissions {
            simple_arm: bits & 0x1 != 0,
            multi_arms: bits & 0x2 != 0,
            piston_arm: bits & 0x4 != 0,
            track: bits & 0x8 != 0,
            bonder: bits & 0x100 != 0,
            unbonder: bits & 0x200 != 0,
            multi_bonder: bits & 0x400 != 0,
            triplex_bonder: bits & 0x800 != 0,
            calcification: bits & 0x1000 != 0,
            duplication: bits & 0x2000 != 0,
            projection: bits & 0x4000 != 0,
            purification: bits & 0x8000 != 0,
            animismus: bits & 0x10000 != 0,
            disposal: bits & 0x20000 != 0,
            quintessence: bits & 0x40000 != 0,
            berlo: bits & 0x10000000 != 0,
            grab_turn_instructions: bits & 0x400000 != 0,
            drop_instruction: bits & 0x800000 != 0,
            reset_instruction: bits & 0x1000000 != 0,
            repeat_instruction: bits & 0x2000000 != 0,
            pivot_instructions: bits & 0x4000000 != 0,
            residual: bits & !KNOWN_PERMISSION_BITS,
        }
    }

    /// Encode the flags back into a wire mask.
    pub fn to_bits(self) -> (res: u64)
        ensures
            res == spec_permissions_bits(self),
    {
        flag_bit_e(self.simple_arm, 0x1u64)
        | flag_bit_e(self.multi_arms, 0x2u64)
        | flag_bit_e(self.piston_arm, 0x4u64)
        | flag_bit_e(self.track, 0x8u64)
        | flag_bit_e(self.bonder, 0x100u64)
        | flag_bit_e(self.unbonder, 0x200u64)
        | flag_bit_e(self.multi_bonder, 0x400u64)
        | flag_bit_e(self.triplex_bonder, 0x800u64)
        | flag_bit_e(self.calcification, 0x1000u64)
        | flag_bit_e(self.duplication, 0x2000u64)
        | flag_bit_e(self.projection, 0x4000u64)
        | flag_bit_e(self.purification, 0x8000u64)
        | flag_bit_e(self.animismus, 0x10000u64)
        | flag_bit_e(self.disposal, 0x20000u64)
        | flag_bit_e(self.quintessence, 0x40000u64)
        | flag_bit_e(self.berlo, 0x10000000u64)
        | flag_bit_e(self.grab_turn_instructions, 0x400000u64)
        | flag_bit_e(self.drop_instruction, 0x800000u64)
        | flag_bit_e(self.reset_instruction, 0x1000000u64)
        | flag_bit_e(self.repeat_instruction, 0x2000000u64)
        | flag_bit_e(self.pivot_instructions, 0x4000000u64)
        | (self.residual & !KNOWN_PERMISSION_BITS)
    }
}

// ---------------------------------------------------------------------------
// Chambers and production puzzles

/// Supported chamber sizes.
#[derive(Copy, Clone, Debug, PartialEq, Eq, Hash, Structural)]
pub enum ChamberType {
    Small,
    SmallWide,
    SmallWider,
    Medium,
    MediumWide,
    Large,
}

/// A chamber that parts may be placed within in production puzzles.
#[derive(Copy, Clone, Debug, PartialEq, Eq, Hash, Structural)]
pub struct Chamber {
    /// Position on the board, as an offset from the origin.
    pub pos: HexIndex,
    /// Type and size.
    pub ty: ChamberType,
}

/// The mathematical value of a conduit definition.
pub ghost struct ConduitView {
    pub pos_a: HexIndex,
    pub pos_b: HexIndex,
    pub hexes: Seq<HexIndex>,
}

/// A conduit defined by a puzzle: the default starting positions of its two
/// ends and its footprint in the default rotation.
#[derive(Clone, Debug)]
pub struct Conduit {
    pub pos_a: HexIndex,
    pub pos_b: HexIndex,
    pub hexes: Vec<HexIndex>,
}

impl View for Conduit {
    type V = ConduitView;

    open spec fn view(&self) -> ConduitView {
        ConduitView { pos_a: self.pos_a, pos_b: self.pos_b, hexes: self.hexes@ }
    }
}

/// The mathematical value of a production layout.
pub ghost struct ProductionInfoView {
    pub isolation: bool,
    pub chambers: Seq<Chamber>,
    pub conduits: Seq<ConduitView>,
}

/// Information relevant only to production puzzles: the chamber layout and
/// the conduits the puzzle defines.
#[derive(Clone, Debug)]
pub struct ProductionInfo {
    /// Whether the inputs and outputs must be placed in different chambers.
    pub isolation: bool,
    /// The chambers that parts may be placed in.
    pub chambers: Vec<Chamber>,
    /// The conduits defined by the puzzle.
    pub conduits: Vec<Conduit>,
}

impl View for ProductionInfo {
    type V = ProductionInfoView;

    open spec fn view(&self) -> ProductionInfoView {
        ProductionInfoView {
            isolation: self.isolation,
            chambers: self.chambers@,
            conduits: self.conduits@.map_values(|c: Conduit| c@),
        }
    }
}

// ---------------------------------------------------------------------------
// Parts and instructions

/// A part type: a kind of mechanism, glyph or io site.
#[derive(Copy, Clone, Debug, PartialEq, Eq, Hash, Structural)]
pub enum PartType {
    Input,
    Output,
    PolymerOutput,
    Arm,
    BiArm,
    TriArm,
    HexArm,
    PistonArm,
    Track,
    Berlo,
    Equilibrium,
    Bonding,
    MultiBonding,
    Unbonding,
    Calcification,
    Projection,
    Purification,
    Duplication,
    Animismus,
    Unification,
    Dispersion,
    TriplexBonding,
    Disposal,
    Conduit,
}

/// A type of instruction on an arm's tape.
#[derive(Copy, Clone, Debug, PartialEq, Eq, Hash, Default, Structural)]
pub enum Instruction {
    #[default]
    Blank,
    Grab,
    Drop,
    RotateClockwise,
    RotateAnticlockwise,
    Extend,
    Retract,
    PivotClockwise,
    PivotAnticlockwise,
    Advance,
    Retreat,
    PeriodOverride,
    Reset,
    Repeat,
}

/// The instruction denoted by a wire byte, or `None`.
pub open spec fn spec_instruction_from_id(id: u8) -> Option<Instruction> {
    if id == 32 {
        Some(Instruction::Blank)
    } else if id == 71 {
        Some(Instruction::Grab)
    } else if id == 103 {
        Some(Instruction::Drop)
    } else if id == 82 {
        Some(Instruction::RotateClockwise)
    } else if id == 114 {
        Some(Instruction::RotateAnticlockwise)
    } else if id == 69 {
        Some(Instruction::Extend)
    } else if id == 101 {
        Some(Instruction::Retract)
    } else if id == 80 {
        Some(Instruction::PivotClockwise)
    } else if id == 112 {
        Some(Instruction::PivotAnticlockwise)
    } else if id == 65 {
        Some(Instruction::Advance)
    } else if id == 97 {
        Some(Instruction::Retreat)
    } else if id == 79 {
        Some(Instruction::PeriodOverride)
    } else if id == 88 {
        Some(Instruction::Reset)
    } else if id == 67 {
        Some(Instruction::Repeat)
    } else {
        None
    }
}

/// The wire byte of an instruction; the inverse of `spec_instruction_from_id`.
pub open spec fn spec_instruction_id(ins: Instruction) -> u8 {
    match ins {
        Instruction::Blank => 32,
        Instruction::Grab => 71,
        Instruction::Drop => 103,
        Instruction::RotateClockwise => 82,
        Instruction::RotateAnticlockwise => 114,
        Instruction::Extend => 69,
        Instruction::Retract => 101,
        Instruction::PivotClockwise => 80,
        Instruction::PivotAnticlockwise => 112,
        Instruction::Advance => 65,
        Instruction::Retreat => 97,
        Instruction::PeriodOverride => 79,
        Instruction::Reset => 88,
        Instruction::Repeat => 67,
    }
}

/// Every instruction's wire byte decodes back to the same instruction.
pub proof fn lemma_instruction_id_roundtrip(ins: Instruction)
    ensures
        spec_instruction_from_id(spec_instruction_id(ins)) == Some(ins),
{
}

impl Instruction {
    /// Get an instruction by wire byte (an ASCII table), or `None`.
    pub fn from_id(id: u8) -> (res: Option<Instruction>)
        ensures
            res == spec_instruction_from_id(id),
    {
        match id {
            32u8 => Some(Instruction::Blank),
            71u8 => Some(Instruction::Grab),
            103u8 => Some(Instruction::Drop),
            82u8 => Some(Instruction::RotateClockwise),
            114u8 => Some(Instruction::RotateAnticlockwise),
            69u8 => Some(Instruction::Extend),
            101u8 => Some(Instruction::Retract),
            80u8 => Some(Instruction::PivotClockwise),
            112u8 => Some(Instruction::PivotAnticlockwise),
            65u8 => Some(Instruction::Advance),
            97u8 => Some(Instruction::Retreat),
            79u8 => Some(Instruction::PeriodOverride),
            88u8 => Some(Instruction::Reset),
            67u8 => Some(Instruction::Repeat),
            _ => None,
        }
    }

    /// The wire byte this instruction is written as.
    pub fn to_id(self) -> (res: u8)
        ensures
            res == spec_instruction_id(self),
    {
        match self {
            Instruction::Blank => 32u8,
            Instruction::Grab => 71u8,
            Instruction::Drop => 103u8,
            Instruction::RotateClockwise => 82u8,
            Instruction::RotateAnticlockwise => 114u8,
            Instruction::Extend => 69u8,
            Instruction::Retract => 101u8,
            Instruction::PivotClockwise => 80u8,
            Instruction::PivotAnticlockwise => 112u8,
            Instruction::Advance => 65u8,
            Instruction::Retreat => 97u8,
            Instruction::PeriodOverride => 79u8,
            Instruction::Reset => 88u8,
            Instruction::Repeat => 67u8,
        }
    }
}
/// The wire name of each part type.
pub open spec fn spec_part_type_name(ty: PartType) -> Seq<u8> {
    match ty {
        PartType::Input => seq![105u8, 110u8, 112u8, 117u8, 116u8],
        PartType::Output => seq![111u8, 117u8, 116u8, 45u8, 115u8, 116u8, 100u8],
        PartType::PolymerOutput => seq![111u8, 117u8, 116u8, 45u8, 114u8, 101u8, 112u8],
        PartType::Arm => seq![97u8, 114u8, 109u8, 49u8],
        PartType::BiArm => seq![97u8, 114u8, 109u8, 50u8],
        PartType::TriArm => seq![97u8, 114u8, 109u8, 51u8],
        PartType::HexArm => seq![97u8, 114u8, 109u8, 54u8],
        PartType::PistonArm => seq![112u8, 105u8, 115u8, 116u8, 111u8, 110u8],
        PartType::Track => seq![116u8, 114u8, 97u8, 99u8, 107u8],
        PartType::Berlo => seq![98u8, 97u8, 114u8, 111u8, 110u8],
        PartType::Equilibrium => seq![103u8, 108u8, 121u8, 112u8, 104u8, 45u8, 109u8, 97u8, 114u8, 107u8, 101u8, 114u8],
        PartType::Bonding => seq![98u8, 111u8, 110u8, 100u8, 101u8, 114u8],
        PartType::MultiBonding => seq![98u8, 111u8, 110u8, 100u8, 101u8, 114u8, 45u8, 115u8, 112u8, 101u8, 101u8, 100u8],
        PartType::Unbonding => seq![117u8, 110u8, 98u8, 111u8, 110u8, 100u8, 101u8, 114u8],
        PartType::Calcification => seq![103u8, 108u8, 121u8, 112u8, 104u8, 45u8, 99u8, 97u8, 108u8, 99u8, 105u8, 102u8, 105u8, 99u8, 97u8, 116u8, 105u8, 111u8, 110u8],
        PartType::Projection => seq![103u8, 108u8, 121u8, 112u8, 104u8, 45u8, 112u8, 114u8, 111u8, 106u8, 101u8, 99u8, 116u8, 105u8, 111u8, 110u8],
        PartType::Purification => seq![103u8, 108u8, 121u8, 112u8, 104u8, 45u8, 112u8, 117u8, 114u8, 105u8, 102u8, 105u8, 99u8, 97u8, 116u8, 105u8, 111u8, 110u8],
        PartType::Duplication => seq![103u8, 108u8, 121u8, 112u8, 104u8, 45u8, 100u8, 117u8, 112u8, 108u8, 105u8, 99u8, 97u8, 116u8, 105u8, 111u8, 110u8],
        PartType::Animismus => seq![103u8, 108u8, 121u8, 112u8, 104u8, 45u8, 108u8, 105u8, 102u8, 101u8, 45u8, 97u8, 110u8, 100u8, 45u8, 100u8, 101u8, 97u8, 116u8, 104u8],
        PartType::Unification => seq![103u8, 108u8, 121u8, 112u8, 104u8, 45u8, 117u8, 110u8, 105u8, 102u8, 105u8, 99u8, 97u8, 116u8, 105u8, 111u8, 110u8],
        PartType::Dispersion => seq![103u8, 108u8, 121u8, 112u8, 104u8, 45u8, 100u8, 105u8, 115u8, 112u8, 101u8, 114u8, 115u8, 105u8, 111u8, 110u8],
        PartType::TriplexBonding => seq![98u8, 111u8, 110u8, 100u8, 101u8, 114u8, 45u8, 112u8, 114u8, 105u8, 115u8, 109u8, 97u8],
        PartType::Disposal => seq![103u8, 108u8, 121u8, 112u8, 104u8, 45u8, 100u8, 105u8, 115u8, 112u8, 111u8, 115u8, 97u8, 108u8],
        PartType::Conduit => seq![112u8, 105u8, 112u8, 101u8],
    }
}

/// Every part type, in the order tried when matching a wire name.
pub open spec fn spec_all_part_types() -> Seq<PartType> {
    seq![
        PartType::Input,
        PartType::Output,
        PartType::PolymerOutput,
        PartType::Arm,
        PartType::BiArm,
        PartType::TriArm,
        PartType::HexArm,
        PartType::PistonArm,
        PartType::Track,
        PartType::Berlo,
        PartType::Equilibrium,
        PartType::Bonding,
        PartType::MultiBonding,
        PartType::Unbonding,
        PartType::Calcification,
        PartType::Projection,
        PartType::Purification,
        PartType::Duplication,
        PartType::Animismus,
        PartType::Unification,
        PartType::Dispersion,
        PartType::TriplexBonding,
        PartType::Disposal,
        PartType::Conduit,
    ]
}

impl PartType {
    /// The bytes of this part type's wire name.
    pub fn name_bytes(self) -> (res: Vec<u8>)
        ensures
            res@ == spec_part_type_name(self),
    {
        let mut v: Vec<u8> = Vec::new();
        match self {
            PartType::Input => { v.push(105u8); v.push(110u8); v.push(112u8); v.push(117u8); v.push(116u8); },
            PartType::Output => { v.push(111u8); v.push(117u8); v.push(116u8); v.push(45u8); v.push(115u8); v.push(116u8); v.push(100u8); },
            PartType::PolymerOutput => { v.push(111u8); v.push(117u8); v.push(116u8); v.push(45u8); v.push(114u8); v.push(101u8); v.push(112u8); },
            PartType::Arm => { v.push(97u8); v.push(114u8); v.push(109u8); v.push(49u8); },
            PartType::BiArm => { v.push(97u8); v.push(114u8); v.push(109u8); v.push(50u8); },
            PartType::TriArm => { v.push(97u8); v.push(114u8); v.push(109u8); v.push(51u8); },
            PartType::HexArm => { v.push(97u8); v.push(114u8); v.push(109u8); v.push(54u8); },
            PartType::PistonArm => { v.push(112u8); v.push(105u8); v.push(115u8); v.push(116u8); v.push(111u8); v.push(110u8); },
            PartType::Track => { v.push(116u8); v.push(114u8); v.push(97u8); v.push(99u8); v.push(107u8); },
            PartType::Berlo => { v.push(98u8); v.push(97u8); v.push(114u8); v.push(111u8); v.push(110u8); },
            PartType::Equilibrium => { v.push(103u8); v.push(108u8); v.push(121u8); v.push(112u8); v.push(104u8); v.push(45u8); v.push(109u8); v.push(97u8); v.push(114u8); v.push(107u8); v.push(101u8); v.push(114u8); },
            PartType::Bonding => { v.push(98u8); v.push(111u8); v.push(110u8); v.push(100u8); v.push(101u8); v.push(114u8); },
            PartType::MultiBonding => { v.push(98u8); v.push(111u8); v.push(110u8); v.push(100u8); v.push(101u8); v.push(114u8); v.push(45u8); v.push(115u8); v.push(112u8); v.push(101u8); v.push(101u8); v.push(100u8); },
            PartType::Unbonding => { v.push(117u8); v.push(110u8); v.push(98u8); v.push(111u8); v.push(110u8); v.push(100u8); v.push(101u8); v.push(114u8); },
            PartType::Calcification => { v.push(103u8); v.push(108u8); v.push(121u8); v.push(112u8); v.push(104u8); v.push(45u8); v.push(99u8); v.push(97u8); v.push(108u8); v.push(99u8); v.push(105u8); v.push(102u8); v.push(105u8); v.push(99u8); v.push(97u8); v.push(116u8); v.push(105u8); v.push(111u8); v.push(110u8); },
            PartType::Projection => { v.push(103u8); v.push(108u8); v.push(121u8); v.push(112u8); v.push(104u8); v.push(45u8); v.push(112u8); v.push(114u8); v.push(111u8); v.push(106u8); v.push(101u8); v.push(99u8); v.push(116u8); v.push(105u8); v.push(111u8); v.push(110u8); },
            PartType::Purification => { v.push(103u8); v.push(108u8); v.push(121u8); v.push(112u8); v.push(104u8); v.push(45u8); v.push(112u8); v.push(117u8); v.push(114u8); v.push(105u8); v.push(102u8); v.push(105u8); v.push(99u8); v.push(97u8); v.push(116u8); v.push(105u8); v.push(111u8); v.push(110u8); },
            PartType::Duplication => { v.push(103u8); v.push(108u8); v.push(121u8); v.push(112u8); v.push(104u8); v.push(45u8); v.push(100u8); v.push(117u8); v.push(112u8); v.push(108u8); v.push(105u8); v.push(99u8); v.push(97u8); v.push(116u8); v.push(105u8); v.push(111u8); v.push(110u8); },
            PartType::Animismus => { v.push(103u8); v.push(108u8); v.push(121u8); v.push(112u8); v.push(104u8); v.push(45u8); v.push(108u8); v.push(105u8); v.push(102u8); v.push(101u8); v.push(45u8); v.push(97u8); v.push(110u8); v.push(100u8); v.push(45u8); v.push(100u8); v.push(101u8); v.push(97u8); v.push(116u8); v.push(104u8); },
            PartType::Unification => { v.push(103u8); v.push(108u8); v.push(121u8); v.push(112u8); v.push(104u8); v.push(45u8); v.push(117u8); v.push(110u8); v.push(105u8); v.push(102u8); v.push(105u8); v.push(99u8); v.push(97u8); v.push(116u8); v.push(105u8); v.push(111u8); v.push(110u8); },
            PartType::Dispersion => { v.push(103u8); v.push(108u8); v.push(121u8); v.push(112u8); v.push(104u8); v.push(45u8); v.push(100u8); v.push(105u8); v.push(115u8); v.push(112u8); v.push(101u8); v.push(114u8); v.push(115u8); v.push(105u8); v.push(111u8); v.push(110u8); },
            PartType::TriplexBonding => { v.push(98u8); v.push(111u8); v.push(110u8); v.push(100u8); v.push(101u8); v.push(114u8); v.push(45u8); v.push(112u8); v.push(114u8); v.push(105u8); v.push(115u8); v.push(109u8); v.push(97u8); },
            PartType::Disposal => { v.push(103u8); v.push(108u8); v.push(121u8); v.push(112u8); v.push(104u8); v.push(45u8); v.push(100u8); v.push(105u8); v.push(115u8); v.push(112u8); v.push(111u8); v.push(115u8); v.push(97u8); v.push(108u8); },
            PartType::Conduit => { v.push(112u8); v.push(105u8); v.push(112u8); v.push(101u8); },
        }
        proof {
            assert(v@ =~= spec_part_type_name(self));
        }
        v
    }
}
/// The wire name of each chamber type.
pub open spec fn spec_chamber_type_name(ty: ChamberType) -> Seq<u8> {
    match ty {
        ChamberType::Small => seq![83u8, 109u8, 97u8, 108u8, 108u8],
        ChamberType::SmallWide => seq![83u8, 109u8, 97u8, 108u8, 108u8, 87u8, 105u8, 100u8, 101u8],
        ChamberType::SmallWider => seq![83u8, 109u8, 97u8, 108u8, 108u8, 87u8, 105u8, 100u8, 101u8, 114u8],
        ChamberType::Medium => seq![77u8, 101u8, 100u8, 105u8, 117u8, 109u8],
        ChamberType::MediumWide => seq![77u8, 101u8, 100u8, 105u8, 117u8, 109u8, 87u8, 105u8, 100u8, 101u8],
        ChamberType::Large => seq![76u8, 97u8, 114u8, 103u8, 101u8],
    }
}

/// Every chamber type, in the order tried when matching a name.
pub open spec fn spec_all_chamber_types() -> Seq<ChamberType> {
    seq![
        ChamberType::Small,
        ChamberType::SmallWide,
        ChamberType::SmallWider,
        ChamberType::Medium,
        ChamberType::MediumWide,
        ChamberType::Large,
    ]
}

impl ChamberType {
    /// The bytes of this chamber type's name.
    pub fn name_bytes(self) -> (res: Vec<u8>)
        ensures
            res@ == spec_chamber_type_name(self),
    {
        let mut v: Vec<u8> = Vec::new();
        match self {
            ChamberType::Small => { v.push(83u8); v.push(109u8); v.push(97u8); v.push(108u8); v.push(108u8); },
            ChamberType::SmallWide => { v.push(83u8); v.push(109u8); v.push(97u8); v.push(108u8); v.push(108u8); v.push(87u8); v.push(105u8); v.push(100u8); v.push(101u8); },
            ChamberType::SmallWider => { v.push(83u8); v.push(109u8); v.push(97u8); v.push(108u8); v.push(108u8); v.push(87u8); v.push(105u8); v.push(100u8); v.push(101u8); v.push(114u8); },
            ChamberType::Medium => { v.push(77u8); v.push(101u8); v.push(100u8); v.push(105u8); v.push(117u8); v.push(109u8); },
            ChamberType::MediumWide => { v.push(77u8); v.push(101u8); v.push(100u8); v.push(105u8); v.push(117u8); v.push(109u8); v.push(87u8); v.push(105u8); v.push(100u8); v.push(101u8); },
            ChamberType::Large => { v.push(76u8); v.push(97u8); v.push(114u8); v.push(103u8); v.push(101u8); },
        }
        proof {
            assert(v@ =~= spec_chamber_type_name(self));
        }
        v
    }
}

/// Walk the part-type list from index `i`, returning the first whose wire
/// name matches.
pub open spec fn spec_find_part_type(name: Seq<u8>, i: int) -> Option<PartType>
    decreases 24 - i,
{
    if i < 0 || i >= 24 {
        None
    } else if spec_part_type_name(spec_all_part_types()[i]) == name {
        Some(spec_all_part_types()[i])
    } else {
        spec_find_part_type(name, i + 1)
    }
}

/// The part type denoted by a wire name, or `None`.
pub open spec fn spec_part_type_from_name(name: Seq<u8>) -> Option<PartType> {
    spec_find_part_type(name, 0)
}

impl PartType {
    /// Every part type, in the order tried when matching a wire name.
    pub fn all() -> (res: Vec<PartType>)
        ensures
            res@ == spec_all_part_types(),
    {
        let mut v: Vec<PartType> = Vec::new();
        v.push(PartType::Input);
        v.push(PartType::Output);
        v.push(PartType::PolymerOutput);
        v.push(PartType::Arm);
        v.push(PartType::BiArm);
        v.push(PartType::TriArm);
        v.push(PartType::HexArm);
        v.push(PartType::PistonArm);
        v.push(PartType::Track);
        v.push(PartType::Berlo);
        v.push(PartType::Equilibrium);
        v.push(PartType::Bonding);
        v.push(PartType::MultiBonding);
        v.push(PartType::Unbonding);
        v.push(PartType::Calcification);
        v.push(PartType::Projection);
        v.push(PartType::Purification);
        v.push(PartType::Duplication);
        v.push(PartType::Animismus);
        v.push(PartType::Unification);
        v.push(PartType::Dispersion);
        v.push(PartType::TriplexBonding);
        v.push(PartType::Disposal);
        v.push(PartType::Conduit);
        proof {
            assert(v@ =~= spec_all_part_types());
        }
        v
    }

    /// The part type whose wire name is the given byte string, or `None`.
    pub fn from_name_bytes(name: &[u8]) -> (res: Option<PartType>)
        ensures
            res == spec_part_type_from_name(name@),
    {
        let all = PartType::all();
        let mut i: usize = 0;
        while i < all.len()
            invariant
                all@ == spec_all_part_types(),
                i <= 24,
                all@.len() == 24,
                spec_find_part_type(name@, 0) == spec_find_part_type(name@, i as int),
            decreases 24 - i,
        {
            let nb = all[i].name_bytes();
            if bytes_eq(name, &nb) {
                return Some(all[i]);
            }
            i = i + 1;
        }
        None
    }

    /// The part type whose wire name is the given string, or `None`.
    pub fn from_name(name: &str) -> (res: Option<PartType>)
        ensures
            res == spec_part_type_from_name(
                vstd::string::StringSliceAdditionalSpecFns::spec_bytes(name),
            ),
    {
        PartType::from_name_bytes(name.as_bytes())
    }
}

impl ChamberType {
    /// Every chamber type, in the order tried when matching a name.
    pub fn all() -> (res: Vec<ChamberType>)
        ensures
            res@ == spec_all_chamber_types(),
    {
        let mut v: Vec<ChamberType> = Vec::new();
        v.push(ChamberType::Small);
        v.push(ChamberType::SmallWide);
        v.push(ChamberType::SmallWider);
        v.push(ChamberType::Medium);
        v.push(ChamberType::MediumWide);
        v.push(ChamberType::Large);
        proof {
            assert(v@ =~= spec_all_chamber_types());
        }
        v
    }

    /// The chamber type with the given name, or `None`.
    pub fn from_name_bytes(name: &[u8]) -> (res: Option<ChamberType>)
        ensures
            res == spec_chamber_type_from_name(name@),
    {
        let all = ChamberType::all();
        let mut i: usize = 0;
        while i < all.len()
            invariant
                all@ == spec_all_chamber_types(),
                i <= 6,
                all@.len() == 6,
                spec_find_chamber_type(name@, 0) == spec_find_chamber_type(name@, i as int),
            decreases 6 - i,
        {
            let nb = all[i].name_bytes();
            if bytes_eq(name, &nb) {
                return Some(all[i]);
            }
            i = i + 1;
        }
        None
    }

    /// The chamber type with the given name, or `None`.
    pub fn from_name(name: &str) -> (res: Option<ChamberType>)
        ensures
            res == spec_chamber_type_from_name(
                vstd::string::StringSliceAdditionalSpecFns::spec_bytes(name),
            ),
    {
        ChamberType::from_name_bytes(name.as_bytes())
    }
}

/// Walk the chamber-type list from index `i`, returning the first whose name
/// matches.
pub open spec fn spec_find_chamber_type(name: Seq<u8>, i: int) -> Option<ChamberType>
    decreases 6 - i,
{
    if i < 0 || i >= 6 {
        None
    } else if spec_chamber_type_name(spec_all_chamber_types()[i]) == name {
        Some(spec_all_chamber_types()[i])
    } else {
        spec_find_chamber_type(name, i + 1)
    }
}

/// The chamber type denoted by a name, or `None`.
pub open spec fn spec_chamber_type_from_name(name: Seq<u8>) -> Option<ChamberType> {
    spec_find_chamber_type(name, 0)
}

// ---------------------------------------------------------------------------
// Parts, puzzles, solutions

/// The mathematical value of a placed part.
pub ghost struct PartView {
    pub ty: PartType,
    pub pos: HexIndex,
    pub rotation: i32,
    pub arm_length: i32,
    pub index: i32,
    pub conduit_index: i32,
    pub track_hexes: Seq<HexIndex>,
    pub conduit_hexes: Seq<HexIndex>,
    pub instructions: Seq<(Instruction, i32)>,
}

/// A part, as read from a solution file. Invalid state, such as arms with
/// out-of-range sizes or instructions on glyphs, is preserved as read.
#[derive(Clone, Debug)]
pub struct Part {
    pub ty: PartType,
    /// Absolute position on the board.
    pub pos: HexIndex,
    /// Raw rotation as read, unreduced.
    pub rotation: i32,
    /// Arm length, for arms.
    pub arm_length: i32,
    /// For an input or output, the index of the reagent or product it serves.
    pub index: i32,
    /// For a conduit, the id of the conduit this is an end of.
    pub conduit_index: i32,
    /// For a track, the hexes the track covers in placement order.
    pub track_hexes: Vec<HexIndex>,
    /// For a conduit, the hexes it occupies.
    pub conduit_hexes: Vec<HexIndex>,
    /// The sparse instruction tape: (instruction, cycle index) pairs.
    pub instructions: Vec<(Instruction, i32)>,
}

impl View for Part {
    type V = PartView;

    open spec fn view(&self) -> PartView {
        PartView {
            ty: self.ty,
            pos: self.pos,
            rotation: self.rotation,
            arm_length: self.arm_length,
            index: self.index,
            conduit_index: self.conduit_index,
            track_hexes: self.track_hexes@,
            conduit_hexes: self.conduit_hexes@,
            instructions: self.instructions@,
        }
    }
}

impl Part {
    /// An exact copy.
    pub fn duplicate(&self) -> (res: Part)
        ensures
            res@ == self@,
    {
        Part {
            ty: self.ty,
            pos: self.pos,
            rotation: self.rotation,
            arm_length: self.arm_length,
            index: self.index,
            conduit_index: self.conduit_index,
            track_hexes: copy_vec(&self.track_hexes),
            conduit_hexes: copy_vec(&self.conduit_hexes),
            instructions: copy_vec(&self.instructions),
        }
    }
}


/// The views of a sequence of parts.
pub open spec fn part_views(ps: Seq<Part>) -> Seq<PartView> {
    ps.map_values(|p: Part| p@)
}

/// The mathematical value of a puzzle.
pub ghost struct PuzzleView {
    pub name: Seq<u8>,
    pub creator_id: u64,
    pub reagents: Seq<MolView>,
    pub products: Seq<MolView>,
    pub product_multiplier: i32,
    pub permissions: u64,
    pub production_info: Option<ProductionInfoView>,
}

/// A puzzle, as read from a puzzle file. No attempt is made to reject
/// unsolvable puzzles.
#[derive(Clone, Debug)]
pub struct Puzzle {
    /// String id, as UTF-8 bytes.
    pub name: Vec<u8>,
    /// Id of the creator of this puzzle.
    pub creator_id: u64,
    /// Input molecules.
    pub reagents: Vec<Molecule>,
    /// Output molecules.
    pub products: Vec<Molecule>,
    /// Multiplier for the number of output molecules required.
    pub product_multiplier: i32,
    /// Permission mask gating available mechanisms and instructions; unknown
    /// bits are preserved. Decode with `Permissions::from_bits`.
    pub permissions: u64,
    /// For production puzzles, the chamber layout, otherwise `None`.
    pub production_info: Option<ProductionInfo>,
}

impl View for Puzzle {
    type V = PuzzleView;

    open spec fn view(&self) -> PuzzleView {
        PuzzleView {
            name: self.name@,
            creator_id: self.creator_id,
            reagents: mol_views(self.reagents@),
            products: mol_views(self.products@),
            product_multiplier: self.product_multiplier,
            permissions: self.permissions,
            production_info: match self.production_info {
                Some(p) => Some(p@),
                None => None,
            },
        }
    }
}

/// The mathematical value of a solution.
pub ghost struct SolutionView {
    pub name: Seq<u8>,
    pub puzzle_name: Seq<u8>,
    pub metrics: Option<Metrics>,
    pub parts: Seq<PartView>,
}

/// A solution to a puzzle, as read from a solution file. Parts may hold
/// invalid state; validation happens separately.
#[derive(Clone, Debug)]
pub struct Solution {
    /// Display name, as UTF-8 bytes.
    pub name: Vec<u8>,
    /// String id of the puzzle this solves, as UTF-8 bytes.
    pub puzzle_name: Vec<u8>,
    /// The metrics recorded in the file, if the solution was marked solved.
    pub metrics: Option<Metrics>,
    /// Placed parts with their instruction tapes, in file order.
    pub parts: Vec<Part>,
}

impl View for Solution {
    type V = SolutionView;

    open spec fn view(&self) -> SolutionView {
        SolutionView {
            name: self.name@,
            puzzle_name: self.puzzle_name@,
            metrics: self.metrics,
            parts: part_views(self.parts@),
        }
    }
}

impl Solution {
    /// An exact copy.
    pub fn duplicate(&self) -> (res: Solution)
        ensures
            res@ == self@,
    {
        let mut parts: Vec<Part> = Vec::new();
        let mut i: usize = 0;
        while i < self.parts.len()
            invariant
                i <= self.parts@.len(),
                parts@.len() == i as int,
                forall|k: int| 0 <= k < i as int ==> (#[trigger] parts@[k])@ == self.parts@[k]@,
            decreases self.parts@.len() - i,
        {
            let p = self.parts[i].duplicate();
            parts.push(p);
            i = i + 1;
        }
        let res = Solution {
            name: copy_vec(&self.name),
            puzzle_name: copy_vec(&self.puzzle_name),
            metrics: self.metrics,
            parts,
        };
        proof {
            assert(res@.parts =~= self@.parts);
        }
        res
    }
}

// ---------------------------------------------------------------------------
// Validation

/// A well-formed but semantically illegal solution, found before any
/// simulation cycle runs.
#[derive(Copy, Clone, Debug, PartialEq, Eq, Structural)]
pub enum ValidationError {
    /// An input or output part has a negative index.
    NegativeIndex { part: usize },
    /// An input part's index is not below the puzzle's reagent count.
    InputIndexOutOfBounds { part: usize },
    /// An output part's index is not below the puzzle's product count.
    OutputIndexOutOfBounds { part: usize },
    /// The part's type is forbidden by the puzzle's permission mask.
    ForbiddenPartType { part: usize },
    /// A position or size in the part is outside the engine's range.
    PositionOutOfRange { part: usize },
    /// A part type the engine cannot instantiate.
    UnsupportedPartType { part: usize },
}

/// Whether a permission value allows placing a part of the given type.
/// Io sites, conduits and the equilibrium marker are always allowed.
pub open spec fn spec_permission_allows(p: Permissions, ty: PartType) -> bool {
    match ty {
        PartType::Input => true,
        PartType::Output => true,
        PartType::PolymerOutput => true,
        PartType::Conduit => true,
        PartType::Equilibrium => true,
        PartType::Arm => p.simple_arm,
        PartType::BiArm => p.multi_arms,
        PartType::TriArm => p.multi_arms,
        PartType::HexArm => p.multi_arms,
        PartType::PistonArm => p.piston_arm,
        PartType::Track => p.track,
        PartType::Berlo => p.berlo,
        PartType::Bonding => p.bonder,
        PartType::MultiBonding => p.multi_bonder,
        PartType::Unbonding => p.unbonder,
        PartType::TriplexBonding => p.triplex_bonder,
        PartType::Calcification => p.calcification,
        PartType::Duplication => p.duplication,
        PartType::Projection => p.projection,
        PartType::Purification => p.purification,
        PartType::Animismus => p.animismus,
        PartType::Disposal => p.disposal,
        PartType::Unification => p.quintessence,
        PartType::Dispersion => p.quintessence,
    }
}

impl Permissions {
    /// Whether this permission value allows placing a part of the given type.
    pub fn allows(&self, ty: PartType) -> (res: bool)
        ensures
            res == spec_permission_allows(*self, ty),
    {
        match ty {
            PartType::Input => true,
            PartType::Output => true,
            PartType::PolymerOutput => true,
            PartType::Conduit => true,
            PartType::Equilibrium => true,
            PartType::Arm => self.simple_arm,
            PartType::BiArm => self.multi_arms,
            PartType::TriArm => self.multi_arms,
            PartType::HexArm => self.multi_arms,
            PartType::PistonArm => self.piston_arm,
            PartType::Track => self.track,
            PartType::Berlo => self.berlo,
            PartType::Bonding => self.bonder,
            PartType::MultiBonding => self.multi_bonder,
            PartType::Unbonding => self.unbonder,
            PartType::TriplexBonding => self.triplex_bonder,
            PartType::Calcification => self.calcification,
            PartType::Duplication => self.duplication,
            PartType::Projection => self.projection,
            PartType::Purification => self.purification,
            PartType::Animismus => self.animismus,
            PartType::Disposal => self.disposal,
            PartType::Unification => self.quintessence,
            PartType::Dispersion => self.quintessence,
        }
    }
}

/// Whether the part type is an input site.
pub open spec fn spec_is_input(ty: PartType) -> bool {
    ty == PartType::Input
}

/// Whether the part type is an output site.
pub open spec fn spec_is_output(ty: PartType) -> bool {
    ty == PartType::Output || ty == PartType::PolymerOutput
}

/// The validation error for one part placed against a puzzle, if any.
pub open spec fn spec_part_error(pz: PuzzleView, part: PartView, at: usize) -> Option<
    ValidationError,
> {
    if (spec_is_input(part.ty) || spec_is_output(part.ty)) && part.index < 0 {
        Some(ValidationError::NegativeIndex { part: at })
    } else if spec_is_input(part.ty) && part.index >= pz.reagents.len() {
        Some(ValidationError::InputIndexOutOfBounds { part: at })
    } else if spec_is_output(part.ty) && part.index >= pz.products.len() {
        Some(ValidationError::OutputIndexOutOfBounds { part: at })
    } else if !spec_permission_allows(spec_permissions_from_bits(pz.permissions), part.ty) {
        Some(ValidationError::ForbiddenPartType { part: at })
    } else {
        None
    }
}

/// The first validation error among the parts from index `i` on, if any.
pub open spec fn spec_first_error(pz: PuzzleView, parts: Seq<PartView>, i: int) -> Option<
    ValidationError,
>
    decreases parts.len() - i,
{
    if i < 0 || i >= parts.len() {
        None
    } else if spec_part_error(pz, parts[i], i as usize) is Some {
        spec_part_error(pz, parts[i], i as usize)
    } else {
        spec_first_error(pz, parts, i + 1)
    }
}

impl Puzzle {
    /// Check a solution against this puzzle before simulating it: every
    /// input index must name a reagent, every output index a product, and
    /// every part type must be allowed by the permission mask. Returns a
    /// copy of the solution, or the first validation error in part order.
    pub fn clean_solution(&self, solution: &Solution) -> (res: Result<
        Solution,
        ValidationError,
    >)
        ensures
            match res {
                Ok(s) => s@ == solution@ && spec_first_error(self@, solution@.parts, 0) is None,
                Err(e) => Some(e) == spec_first_error(self@, solution@.parts, 0),
            },
    {
        let perms = Permissions::from_bits(self.permissions);
        let mut i: usize = 0;
        while i < solution.parts.len()
            invariant
                perms == spec_permissions_from_bits(self@.permissions),
                i <= solution.parts@.len(),
                spec_first_error(self@, solution@.parts, 0) == spec_first_error(
                    self@,
                    solution@.parts,
                    i as int,
                ),
            decreases solution.parts@.len() - i,
        {
            let part = &solution.parts[i];
            proof {
                assert(solution@.parts[i as int] == solution.parts@[i as int]@);
            }
            let is_input = match part.ty {
                PartType::Input => true,
                _ => false,
            };
            let is_output = match part.ty {
                PartType::Output => true,
                PartType::PolymerOutput => true,
                _ => false,
            };
            if (is_input || is_output) && part.index < 0 {
                return Err(ValidationError::NegativeIndex { part: i });
            }
            if is_input && part.index as usize >= self.reagents.len() {
                return Err(ValidationError::InputIndexOutOfBounds { part: i });
            }
            if is_output && part.index as usize >= self.products.len() {
                return Err(ValidationError::OutputIndexOutOfBounds { part: i });
            }
            if !perms.allows(part.ty) {
                return Err(ValidationError::ForbiddenPartType { part: i });
            }
            i = i + 1;
        }
        Ok(solution.duplicate())
    }
}

} // verus!
