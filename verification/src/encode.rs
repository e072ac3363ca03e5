//! The binary codec, encoding side, with the round-trip law: decoding what
//! was encoded reproduces the value.

use vstd::prelude::*;

use crate::data::{spec_atom_id, Atom, Bond, BondType, MolView, Molecule};
use crate::hex::HexIndex;
use crate::parse::{
    spec_le_u32, spec_parse_atom, spec_parse_atom_entries, spec_parse_atom_entry, spec_parse_b_hex,
    spec_parse_bond, spec_parse_bond_type, spec_parse_bonds, spec_parse_molecule, spec_parse_sbyte,
    spec_parse_u32, FormatError,
};

verus! {

/// Four little-endian bytes of a 32-bit value.
pub open spec fn spec_enc_u32(v: u32) -> Seq<u8> {
    seq![
        (v & 0xFF) as u8,
        ((v >> 8) & 0xFF) as u8,
        ((v >> 16) & 0xFF) as u8,
        ((v >> 24) & 0xFF) as u8,
    ]
}

/// A signed byte, two's-complement.
pub open spec fn spec_enc_sbyte(v: i8) -> Seq<u8> {
    seq![v as u8]
}

/// A hex index as two signed bytes; both coordinates must fit one.
pub open spec fn spec_enc_b_hex(h: HexIndex) -> Seq<u8> {
    spec_enc_sbyte(h.q as i8) + spec_enc_sbyte(h.r as i8)
}

/// An atom as its byte id.
pub open spec fn spec_enc_atom(a: Atom) -> Seq<u8> {
    seq![spec_atom_id(a)]
}

/// A bond type byte: one for normal, the three colour bits for triplex.
pub open spec fn spec_enc_bond_type(t: BondType) -> Seq<u8> {
    match t {
        BondType::Normal => seq![1u8],
        BondType::Triplex { red, black, yellow } => seq![
            (if red {
                2u8
            } else {
                0u8
            }) | (if black {
                4u8
            } else {
                0u8
            }) | (if yellow {
                8u8
            } else {
                0u8
            }),
        ],
    }
}

/// A bond: its type byte and two signed-byte endpoints.
pub open spec fn spec_enc_bond(b: Bond) -> Seq<u8> {
    spec_enc_bond_type(b.ty) + spec_enc_b_hex(b.start) + spec_enc_b_hex(b.end)
}

/// One atom entry: the atom id, then its position.
pub open spec fn spec_enc_atom_entry(e: (HexIndex, Atom)) -> Seq<u8> {
    spec_enc_atom(e.1) + spec_enc_b_hex(e.0)
}

/// A list of atom entries, in order.
pub open spec fn spec_enc_atom_entries(es: Seq<(HexIndex, Atom)>) -> Seq<u8>
    decreases es.len(),
{
    if es.len() == 0 {
        seq![]
    } else {
        spec_enc_atom_entry(es[0]) + spec_enc_atom_entries(es.drop_first())
    }
}

/// A list of bonds, in order.
pub open spec fn spec_enc_bonds(bs: Seq<Bond>) -> Seq<u8>
    decreases bs.len(),
{
    if bs.len() == 0 {
        seq![]
    } else {
        spec_enc_bond(bs[0]) + spec_enc_bonds(bs.drop_first())
    }
}

/// A whole molecule: the counted atom list, then the counted bond list.
pub open spec fn spec_enc_molecule(m: MolView) -> Seq<u8> {
    spec_enc_u32(m.atoms.len() as u32) + spec_enc_atom_entries(m.atoms) + spec_enc_u32(
        m.bonds.len() as u32,
    ) + spec_enc_bonds(m.bonds)
}

/// Whether a hex index fits the signed-byte wire form.
pub open spec fn hex_in_byte_range(h: HexIndex) -> bool {
    -128 <= h@.0 <= 127 && -128 <= h@.1 <= 127
}

/// Whether a molecule can be written at all: list lengths fit the 32-bit
/// counts and every position fits a signed byte.
pub open spec fn mol_encodable(m: MolView) -> bool {
    &&& m.atoms.len() < 0x100000000
    &&& m.bonds.len() < 0x100000000
    &&& forall|i: int| 0 <= i < m.atoms.len() ==> hex_in_byte_range((#[trigger] m.atoms[i]).0)
    &&& forall|k: int|
        0 <= k < m.bonds.len() ==> hex_in_byte_range((#[trigger] m.bonds[k]).start)
            && hex_in_byte_range(m.bonds[k].end)
}

// ---------------------------------------------------------------------------
// Round-trip lemmas, bottom up

/// Four little-endian bytes parse back to their value.
proof fn lemma_rt_u32(s: Seq<u8>, i: int, v: u32)
    requires
        0 <= i,
        i + 4 <= s.len(),
        s.subrange(i, i + 4) =~= spec_enc_u32(v),
    ensures
        spec_parse_u32(s, i) == Ok::<(u32, int), FormatError>((v, i + 4)),
{
    assert(s[i] == (v & 0xFF) as u8 && s[i + 1] == ((v >> 8) & 0xFF) as u8 && s[i + 2] == ((v
        >> 16) & 0xFF) as u8 && s[i + 3] == ((v >> 24) & 0xFF) as u8) by {
        assert(s.subrange(i, i + 4)[0] == s[i]);
        assert(s.subrange(i, i + 4)[1] == s[i + 1]);
        assert(s.subrange(i, i + 4)[2] == s[i + 2]);
        assert(s.subrange(i, i + 4)[3] == s[i + 3]);
    };
    assert(spec_le_u32(
        (v & 0xFF) as u8,
        ((v >> 8) & 0xFF) as u8,
        ((v >> 16) & 0xFF) as u8,
        ((v >> 24) & 0xFF) as u8,
    ) == v) by {
        assert((((v & 0xFF) as u8) as u32) | ((((v >> 8) & 0xFF) as u8) as u32) << 8 | ((((v >> 16)
            & 0xFF) as u8) as u32) << 16 | ((((v >> 24) & 0xFF) as u8) as u32) << 24 == v)
            by (bit_vector);
    };
}

/// A signed byte parses back.
proof fn lemma_rt_sbyte(s: Seq<u8>, i: int, v: i8)
    requires
        0 <= i,
        i + 1 <= s.len(),
        s[i] == v as u8,
    ensures
        spec_parse_sbyte(s, i) == Ok::<(i8, int), FormatError>((v, i + 1)),
{
    assert((v as u8) as i8 == v) by (bit_vector);
}

/// A hex index in signed-byte form parses back, when it fits the form.
proof fn lemma_rt_b_hex(s: Seq<u8>, i: int, h: HexIndex)
    requires
        0 <= i,
        i + 2 <= s.len(),
        hex_in_byte_range(h),
        s.subrange(i, i + 2) =~= spec_enc_b_hex(h),
    ensures
        spec_parse_b_hex(s, i) == Ok::<(HexIndex, int), FormatError>((h, i + 2)),
{
    assert(s[i] == (h.q as i8) as u8 && s[i + 1] == (h.r as i8) as u8) by {
        assert(s.subrange(i, i + 2)[0] == s[i]);
        assert(s.subrange(i, i + 2)[1] == s[i + 1]);
    };
    lemma_rt_sbyte(s, i, h.q as i8);
    lemma_rt_sbyte(s, i + 1, h.r as i8);
    assert(((h.q as i8) as i32) == h.q);
    assert(((h.r as i8) as i32) == h.r);
}

/// An atom id parses back to the atom.
proof fn lemma_rt_atom(s: Seq<u8>, i: int, a: Atom)
    requires
        0 <= i,
        i + 1 <= s.len(),
        s[i] == spec_atom_id(a),
    ensures
        spec_parse_atom(s, i) == Ok::<(Atom, int), FormatError>((a, i + 1)),
{
    crate::data::lemma_atom_id_roundtrip(a);
}

/// A bond type byte parses back to the bond type.
proof fn lemma_rt_bond_type(s: Seq<u8>, i: int, t: BondType)
    requires
        0 <= i,
        i + 1 <= s.len(),
        s[i] == spec_enc_bond_type(t)[0],
    ensures
        spec_parse_bond_type(s, i) == Ok::<(BondType, int), FormatError>((t, i + 1)),
{
    match t {
        BondType::Normal => {
        },
        BondType::Triplex { red, black, yellow } => {
            let b = s[i];
            assert(b == (if red {
                2u8
            } else {
                0u8
            }) | (if black {
                4u8
            } else {
                0u8
            }) | (if yellow {
                8u8
            } else {
                0u8
            }));
            assert({
                &&& b != 1
                &&& b & 0xF1 == 0
                &&& (b & 0x2 != 0) == red
                &&& (b & 0x4 != 0) == black
                &&& (b & 0x8 != 0) == yellow
            }) by (bit_vector)
                requires
                    b == (if red {
                        2u8
                    } else {
                        0u8
                    }) | (if black {
                        4u8
                    } else {
                        0u8
                    }) | (if yellow {
                        8u8
                    } else {
                        0u8
                    }),
            ;
        },
    }
}

/// A bond parses back, when its endpoints fit the signed-byte form.
proof fn lemma_rt_bond(s: Seq<u8>, i: int, b: Bond)
    requires
        0 <= i,
        i + 5 <= s.len(),
        hex_in_byte_range(b.start),
        hex_in_byte_range(b.end),
        s.subrange(i, i + 5) =~= spec_enc_bond(b),
    ensures
        spec_parse_bond(s, i) == Ok::<(Bond, int), FormatError>((b, i + 5)),
{
    assert(s[i] == spec_enc_bond_type(b.ty)[0]) by {
        assert(s.subrange(i, i + 5)[0] == s[i]);
    };
    lemma_rt_bond_type(s, i, b.ty);
    assert(s.subrange(i + 1, i + 3) =~= spec_enc_b_hex(b.start)) by {
        assert forall|k: int| 0 <= k < 2 implies s.subrange(i + 1, i + 3)[k] == spec_enc_b_hex(
            b.start,
        )[k] by {
            assert(s.subrange(i, i + 5)[k + 1] == s[i + 1 + k]);
        }
    };
    lemma_rt_b_hex(s, i + 1, b.start);
    assert(s.subrange(i + 3, i + 5) =~= spec_enc_b_hex(b.end)) by {
        assert forall|k: int| 0 <= k < 2 implies s.subrange(i + 3, i + 5)[k] == spec_enc_b_hex(
            b.end,
        )[k] by {
            assert(s.subrange(i, i + 5)[k + 3] == s[i + 3 + k]);
        }
    };
    lemma_rt_b_hex(s, i + 3, b.end);
}

/// An atom entry parses back.
proof fn lemma_rt_atom_entry(s: Seq<u8>, i: int, e: (HexIndex, Atom))
    requires
        0 <= i,
        i + 3 <= s.len(),
        hex_in_byte_range(e.0),
        s.subrange(i, i + 3) =~= spec_enc_atom_entry(e),
    ensures
        spec_parse_atom_entry(s, i) == Ok::<((HexIndex, Atom), int), FormatError>((e, i + 3)),
{
    assert(s[i] == spec_atom_id(e.1)) by {
        assert(s.subrange(i, i + 3)[0] == s[i]);
    };
    lemma_rt_atom(s, i, e.1);
    assert(s.subrange(i + 1, i + 3) =~= spec_enc_b_hex(e.0)) by {
        assert forall|k: int| 0 <= k < 2 implies s.subrange(i + 1, i + 3)[k] == spec_enc_b_hex(
            e.0,
        )[k] by {
            assert(s.subrange(i, i + 3)[k + 1] == s[i + 1 + k]);
        }
    };
    lemma_rt_b_hex(s, i + 1, e.0);
}

/// A list of atom entries embedded in a buffer parses back.
proof fn lemma_rt_atom_entries(s: Seq<u8>, i: int, es: Seq<(HexIndex, Atom)>)
    requires
        0 <= i,
        i + spec_enc_atom_entries(es).len() <= s.len(),
        forall|k: int| 0 <= k < es.len() ==> hex_in_byte_range((#[trigger] es[k]).0),
        s.subrange(i, i + spec_enc_atom_entries(es).len()) =~= spec_enc_atom_entries(es),
    ensures
        spec_parse_atom_entries(s, i, es.len()) == Ok::<(Seq<(HexIndex, Atom)>, int), FormatError>(
            (es, i + spec_enc_atom_entries(es).len()),
        ),
    decreases es.len(),
{
    if es.len() == 0 {
        assert(spec_parse_atom_entries(s, i, 0) == Ok::<(Seq<(HexIndex, Atom)>, int), FormatError>(
            (Seq::empty(), i),
        ));
        assert(es =~= Seq::<(HexIndex, Atom)>::empty());
    } else {
        let head = spec_enc_atom_entry(es[0]);
        let tail = spec_enc_atom_entries(es.drop_first());
        assert(spec_enc_atom_entries(es) == head + tail);
        assert(head.len() == 3);
        assert(s.subrange(i, i + 3) =~= head) by {
            assert forall|k: int| 0 <= k < 3 implies s.subrange(i, i + 3)[k] == head[k] by {
                assert(s.subrange(i, i + spec_enc_atom_entries(es).len())[k] == s[i + k]);
                assert((head + tail)[k] == head[k]);
            }
        };
        lemma_rt_atom_entry(s, i, es[0]);
        assert(s.subrange(i + 3, i + 3 + tail.len() as int) =~= tail) by {
            assert forall|k: int| 0 <= k < tail.len() implies s.subrange(
                i + 3,
                i + 3 + tail.len() as int,
            )[k] == tail[k] by {
                assert(s.subrange(i, i + spec_enc_atom_entries(es).len())[k + 3] == s[i + 3 + k]);
                assert((head + tail)[k + 3] == tail[k]);
            }
        };
        lemma_rt_atom_entries(s, i + 3, es.drop_first());
        assert(seq![es[0]] + es.drop_first() =~= es);
    }
}

/// A list of bonds embedded in a buffer parses back.
proof fn lemma_rt_bonds(s: Seq<u8>, i: int, bs: Seq<Bond>)
    requires
        0 <= i,
        i + spec_enc_bonds(bs).len() <= s.len(),
        forall|k: int|
            0 <= k < bs.len() ==> hex_in_byte_range((#[trigger] bs[k]).start) && hex_in_byte_range(
                bs[k].end,
            ),
        s.subrange(i, i + spec_enc_bonds(bs).len()) =~= spec_enc_bonds(bs),
    ensures
        spec_parse_bonds(s, i, bs.len()) == Ok::<(Seq<Bond>, int), FormatError>(
            (bs, i + spec_enc_bonds(bs).len()),
        ),
    decreases bs.len(),
{
    if bs.len() == 0 {
        assert(bs =~= Seq::<Bond>::empty());
    } else {
        let head = spec_enc_bond(bs[0]);
        let tail = spec_enc_bonds(bs.drop_first());
        assert(spec_enc_bonds(bs) == head + tail);
        assert(head.len() == 5);
        assert(s.subrange(i, i + 5) =~= head) by {
            assert forall|k: int| 0 <= k < 5 implies s.subrange(i, i + 5)[k] == head[k] by {
                assert(s.subrange(i, i + spec_enc_bonds(bs).len())[k] == s[i + k]);
                assert((head + tail)[k] == head[k]);
            }
        };
        lemma_rt_bond(s, i, bs[0]);
        assert(s.subrange(i + 5, i + 5 + tail.len() as int) =~= tail) by {
            assert forall|k: int| 0 <= k < tail.len() implies s.subrange(
                i + 5,
                i + 5 + tail.len() as int,
            )[k] == tail[k] by {
                assert(s.subrange(i, i + spec_enc_bonds(bs).len())[k + 5] == s[i + 5 + k]);
                assert((head + tail)[k + 5] == tail[k]);
            }
        };
        lemma_rt_bonds(s, i + 5, bs.drop_first());
        assert(seq![bs[0]] + bs.drop_first() =~= bs);
    }
}

/// Encoded atom entries take three bytes each.
proof fn lemma_enc_atom_entries_len(es: Seq<(HexIndex, Atom)>)
    ensures
        spec_enc_atom_entries(es).len() == 3 * es.len(),
    decreases es.len(),
{
    if es.len() > 0 {
        lemma_enc_atom_entries_len(es.drop_first());
    }
}

/// Encoded bonds take five bytes each.
proof fn lemma_enc_bonds_len(bs: Seq<Bond>)
    ensures
        spec_enc_bonds(bs).len() == 5 * bs.len(),
    decreases bs.len(),
{
    if bs.len() > 0 {
        lemma_enc_bonds_len(bs.drop_first());
    }
}

/// The round-trip law for molecules: decoding an encoded molecule
/// reproduces it exactly, for any molecule whose lists fit their counts and
/// whose positions fit the signed-byte wire form.
pub proof fn lemma_molecule_roundtrip(m: MolView)
    requires
        mol_encodable(m),
    ensures
        spec_parse_molecule(spec_enc_molecule(m), 0) == Ok::<(MolView, int), FormatError>(
            (m, spec_enc_molecule(m).len() as int),
        ),
{
    let s = spec_enc_molecule(m);
    let ea = spec_enc_atom_entries(m.atoms);
    let eb = spec_enc_bonds(m.bonds);
    lemma_enc_atom_entries_len(m.atoms);
    lemma_enc_bonds_len(m.bonds);
    let na = spec_enc_u32(m.atoms.len() as u32);
    let nb = spec_enc_u32(m.bonds.len() as u32);
    assert(s == na + ea + nb + eb);
    assert(s.subrange(0, 4) =~= na);
    lemma_rt_u32(s, 0, m.atoms.len() as u32);
    assert(s.subrange(4, 4 + ea.len() as int) =~= ea) by {
        assert forall|k: int| 0 <= k < ea.len() implies s.subrange(4, 4 + ea.len() as int)[k] == ea[k] by {
            assert(s[4 + k] == (na + ea + nb)[4 + k]);
            assert((na + ea)[4 + k] == ea[k]);
        }
    };
    lemma_rt_atom_entries(s, 4, m.atoms);
    let o1 = 4 + ea.len() as int;
    assert(s.subrange(o1, o1 + 4) =~= nb) by {
        assert forall|k: int| 0 <= k < 4 implies s.subrange(o1, o1 + 4)[k] == nb[k] by {
            assert(s[o1 + k] == ((na + ea) + nb)[o1 + k]);
        }
    };
    lemma_rt_u32(s, o1, m.bonds.len() as u32);
    let o2 = o1 + 4;
    assert(s.subrange(o2, o2 + eb.len() as int) =~= eb) by {
        assert forall|k: int| 0 <= k < eb.len() implies s.subrange(o2, o2 + eb.len() as int)[k]
            == eb[k] by {
            assert(s[o2 + k] == (((na + ea) + nb) + eb)[o2 + k]);
        }
    };
    lemma_rt_bonds(s, o2, m.bonds);
    assert((m.atoms.len() as u32) as nat == m.atoms.len());
    assert((m.bonds.len() as u32) as nat == m.bonds.len());
}

// ---------------------------------------------------------------------------
// Exec encoders

/// Append four little-endian bytes.
pub fn write_u32(out: &mut Vec<u8>, v: u32)
    ensures
        final(out)@ == old(out)@ + spec_enc_u32(v),
{
    out.push((v & 0xFF) as u8);
    out.push(((v >> 8) & 0xFF) as u8);
    out.push(((v >> 16) & 0xFF) as u8);
    out.push(((v >> 24) & 0xFF) as u8);
    proof {
        assert(out@ =~= old(out)@ + spec_enc_u32(v));
    }
}

/// Append a hex index as two signed bytes.
pub fn write_b_hex(out: &mut Vec<u8>, h: HexIndex)
    requires
        hex_in_byte_range(h),
    ensures
        final(out)@ == old(out)@ + spec_enc_b_hex(h),
{
    out.push(
        #[verifier::truncate]
        ((h.q as i8) as u8),
    );
    out.push(
        #[verifier::truncate]
        ((h.r as i8) as u8),
    );
    proof {
        assert(out@ =~= old(out)@ + spec_enc_b_hex(h));
    }
}

/// Append a bond type byte.
pub fn write_bond_type(out: &mut Vec<u8>, t: BondType)
    ensures
        final(out)@ == old(out)@ + spec_enc_bond_type(t),
{
    match t {
        BondType::Normal => {
            out.push(1);
        },
        BondType::Triplex { red, black, yellow } => {
            let b = (if red {
                2u8
            } else {
                0u8
            }) | (if black {
                4u8
            } else {
                0u8
            }) | (if yellow {
                8u8
            } else {
                0u8
            });
            out.push(b);
        },
    }
    proof {
        assert(out@ =~= old(out)@ + spec_enc_bond_type(t));
    }
}

/// Encode a whole molecule into bytes; every position must fit the
/// signed-byte wire form and the lists their counts.
pub fn encode_molecule(m: &Molecule) -> (res: Result<Vec<u8>, ()>)
    ensures
        match res {
            Ok(bytes) => mol_encodable(m@) && bytes@ == spec_enc_molecule(m@),
            Err(()) => !mol_encodable(m@),
        },
{
    if m.atoms.len() as u64 >= 0x100000000u64 || m.bonds.len() as u64 >= 0x100000000u64 {
        return Err(());
    }
    let mut i: usize = 0;
    while i < m.atoms.len()
        invariant
            i <= m.atoms@.len(),
            forall|k: int| 0 <= k < i as int ==> hex_in_byte_range((#[trigger] m.atoms@[k]).0),
        decreases m.atoms@.len() - i,
    {
        let p = m.atoms[i].0;
        if p.q < -128 || p.q > 127 || p.r < -128 || p.r > 127 {
            proof {
                assert(!hex_in_byte_range(m.atoms@[i as int].0));
            }
            return Err(());
        }
        proof {
            assert(hex_in_byte_range((m.atoms@[i as int]).0));
        }
        i = i + 1;
    }
    let mut j: usize = 0;
    while j < m.bonds.len()
        invariant
            forall|k: int| 0 <= k < m.atoms@.len() ==> hex_in_byte_range((#[trigger] m.atoms@[k]).0),
            j <= m.bonds@.len(),
            forall|k: int|
                0 <= k < j as int ==> hex_in_byte_range((#[trigger] m.bonds@[k]).start)
                    && hex_in_byte_range(m.bonds@[k].end),
        decreases m.bonds@.len() - j,
    {
        let b = m.bonds[j];
        if b.start.q < -128 || b.start.q > 127 || b.start.r < -128 || b.start.r > 127 || b.end.q
            < -128 || b.end.q > 127 || b.end.r < -128 || b.end.r > 127 {
            proof {
                assert(!(hex_in_byte_range(m.bonds@[j as int].start) && hex_in_byte_range(
                    m.bonds@[j as int].end,
                )));
            }
            return Err(());
        }
        proof {
            assert(hex_in_byte_range((m.bonds@[j as int]).start) && hex_in_byte_range(
                m.bonds@[j as int].end,
            ));
        }
        j = j + 1;
    }
    let mut out: Vec<u8> = Vec::new();
    write_u32(&mut out, m.atoms.len() as u32);
    let ghost after_na = out@;
    let mut i: usize = 0;
    while i < m.atoms.len()
        invariant
            forall|k: int| 0 <= k < m.atoms@.len() ==> hex_in_byte_range((#[trigger] m.atoms@[k]).0),
            i <= m.atoms@.len(),
            out@ == after_na + spec_enc_atom_entries(m.atoms@.take(i as int)),
        decreases m.atoms@.len() - i,
    {
        let (p, a) = m.atoms[i];
        let ghost before = out@;
        out.push(a.to_id());
        write_b_hex(&mut out, p);
        proof {
            assert(out@ =~= before + spec_enc_atom_entry(m.atoms@[i as int]));
            lemma_enc_entries_snoc(m.atoms@, i as int);
            assert(out@ =~= after_na + spec_enc_atom_entries(m.atoms@.take(i as int + 1)));
        }
        i = i + 1;
    }
    proof {
        assert(m.atoms@.take(m.atoms@.len() as int) =~= m.atoms@);
    }
    write_u32(&mut out, m.bonds.len() as u32);
    let ghost after_nb = out@;
    let mut j: usize = 0;
    while j < m.bonds.len()
        invariant
            forall|k: int|
                0 <= k < m.bonds@.len() ==> hex_in_byte_range((#[trigger] m.bonds@[k]).start)
                    && hex_in_byte_range(m.bonds@[k].end),
            j <= m.bonds@.len(),
            out@ == after_nb + spec_enc_bonds(m.bonds@.take(j as int)),
        decreases m.bonds@.len() - j,
    {
        let b = m.bonds[j];
        let ghost before = out@;
        write_bond_type(&mut out, b.ty);
        write_b_hex(&mut out, b.start);
        write_b_hex(&mut out, b.end);
        proof {
            assert(out@ =~= before + spec_enc_bond(m.bonds@[j as int]));
            lemma_enc_bonds_snoc(m.bonds@, j as int);
            assert(out@ =~= after_nb + spec_enc_bonds(m.bonds@.take(j as int + 1)));
        }
        j = j + 1;
    }
    proof {
        assert(m.bonds@.take(m.bonds@.len() as int) =~= m.bonds@);
        assert(out@ =~= spec_enc_molecule(m@));
    }
    Ok(out)
}

/// Appending one entry to a prefix appends its encoding.
proof fn lemma_enc_entries_snoc(es: Seq<(HexIndex, Atom)>, i: int)
    requires
        0 <= i < es.len(),
    ensures
        spec_enc_atom_entries(es.take(i + 1)) =~= spec_enc_atom_entries(es.take(i))
            + spec_enc_atom_entry(es[i]),
    decreases i,
{
    if i == 0 {
        assert(es.take(1) =~= seq![es[0]]);
        assert(es.take(1).drop_first() =~= Seq::<(HexIndex, Atom)>::empty());
        assert(es.take(0) =~= Seq::<(HexIndex, Atom)>::empty());
    } else {
        lemma_enc_entries_snoc(es.drop_first(), i - 1);
        assert(es.take(i + 1).drop_first() =~= es.drop_first().take(i));
        assert(es.take(i).drop_first() =~= es.drop_first().take(i - 1));
        assert(es.drop_first()[i - 1] == es[i]);
        assert(spec_enc_atom_entries(es.take(i + 1)) == spec_enc_atom_entry(es[0])
            + spec_enc_atom_entries(es.drop_first().take(i)));
        assert(spec_enc_atom_entries(es.take(i)) == spec_enc_atom_entry(es[0])
            + spec_enc_atom_entries(es.drop_first().take(i - 1)));
    }
}

/// Appending one bond to a prefix appends its encoding.
proof fn lemma_enc_bonds_snoc(bs: Seq<Bond>, i: int)
    requires
        0 <= i < bs.len(),
    ensures
        spec_enc_bonds(bs.take(i + 1)) =~= spec_enc_bonds(bs.take(i)) + spec_enc_bond(bs[i]),
    decreases i,
{
    if i == 0 {
        assert(bs.take(1) =~= seq![bs[0]]);
        assert(bs.take(1).drop_first() =~= Seq::<Bond>::empty());
        assert(bs.take(0) =~= Seq::<Bond>::empty());
    } else {
        lemma_enc_bonds_snoc(bs.drop_first(), i - 1);
        assert(bs.take(i + 1).drop_first() =~= bs.drop_first().take(i));
        assert(bs.take(i).drop_first() =~= bs.drop_first().take(i - 1));
        assert(bs.drop_first()[i - 1] == bs[i]);
        assert(spec_enc_bonds(bs.take(i + 1)) == spec_enc_bond(bs[0]) + spec_enc_bonds(
            bs.drop_first().take(i),
        ));
        assert(spec_enc_bonds(bs.take(i)) == spec_enc_bond(bs[0]) + spec_enc_bonds(
            bs.drop_first().take(i - 1),
        ));
    }
}

// ---------------------------------------------------------------------------
// Puzzle encoding and its round trip

/// Eight little-endian bytes of a 64-bit value.
pub open spec fn spec_enc_u64(v: u64) -> Seq<u8> {
    seq![
        (v & 0xFF) as u8,
        ((v >> 8) & 0xFF) as u8,
        ((v >> 16) & 0xFF) as u8,
        ((v >> 24) & 0xFF) as u8,
        ((v >> 32) & 0xFF) as u8,
        ((v >> 40) & 0xFF) as u8,
        ((v >> 48) & 0xFF) as u8,
        ((v >> 56) & 0xFF) as u8,
    ]
}

/// The minimal varint form of a value below two to the thirty-fifth.
pub open spec fn spec_enc_varint(n: u64) -> Seq<u8>
    decreases n,
{
    if n < 128 {
        seq![n as u8]
    } else {
        seq![(n % 128 + 128) as u8] + spec_enc_varint(n / 128)
    }
}

/// A string: its varint byte length, then its bytes.
pub open spec fn spec_enc_string(bytes: Seq<u8>) -> Seq<u8> {
    spec_enc_varint(bytes.len() as u64) + bytes
}

/// A list of molecules, in order.
pub open spec fn spec_enc_molecules(ms: Seq<MolView>) -> Seq<u8>
    decreases ms.len(),
{
    if ms.len() == 0 {
        seq![]
    } else {
        spec_enc_molecule(ms[0]) + spec_enc_molecules(ms.drop_first())
    }
}

/// The whole puzzle record: tag three, name, creator id, permission mask,
/// counted reagents, counted products, product multiplier.
pub open spec fn spec_enc_puzzle(p: crate::data::PuzzleView) -> Seq<u8> {
    spec_enc_u32(3u32) + spec_enc_string(p.name) + spec_enc_u64(p.creator_id) + spec_enc_u64(
        p.permissions,
    ) + spec_enc_u32(p.reagents.len() as u32) + spec_enc_molecules(p.reagents) + spec_enc_u32(
        p.products.len() as u32,
    ) + spec_enc_molecules(p.products) + spec_enc_u32(p.product_multiplier as u32)
}

/// Whether a puzzle can be written at all: the name is UTF-8 of bounded
/// length, list lengths fit their counts, every molecule is encodable, the
/// product multiplier is a count (nonnegative), and the record carries no
/// production layout (the wire format has none).
pub open spec fn puzzle_encodable(p: crate::data::PuzzleView) -> bool {
    &&& crate::parse::spec_is_utf8(p.name)
    &&& p.name.len() < 128
    &&& p.reagents.len() < 0x100000000
    &&& p.products.len() < 0x100000000
    &&& forall|i: int| 0 <= i < p.reagents.len() ==> mol_encodable(#[trigger] p.reagents[i])
    &&& forall|i: int| 0 <= i < p.products.len() ==> mol_encodable(#[trigger] p.products[i])
    &&& 0 <= p.product_multiplier
    &&& p.production_info is None
}

/// Eight little-endian bytes parse back to their value.
proof fn lemma_rt_u64(s: Seq<u8>, i: int, v: u64)
    requires
        0 <= i,
        i + 8 <= s.len(),
        s.subrange(i, i + 8) =~= spec_enc_u64(v),
    ensures
        crate::parse::spec_parse_u64(s, i) == Ok::<(u64, int), FormatError>((v, i + 8)),
{
    assert forall|k: int| 0 <= k < 8 implies s[i + k] == spec_enc_u64(v)[k] by {
        assert(s.subrange(i, i + 8)[k] == s[i + k]);
    }
    assert(crate::parse::spec_le_u64(s, i) == v) by {
        let b0 = (v & 0xFF) as u8;
        let b1 = ((v >> 8) & 0xFF) as u8;
        let b2 = ((v >> 16) & 0xFF) as u8;
        let b3 = ((v >> 24) & 0xFF) as u8;
        let b4 = ((v >> 32) & 0xFF) as u8;
        let b5 = ((v >> 40) & 0xFF) as u8;
        let b6 = ((v >> 48) & 0xFF) as u8;
        let b7 = ((v >> 56) & 0xFF) as u8;
        assert((b0 as u64) | (b1 as u64) << 8 | (b2 as u64) << 16 | (b3 as u64) << 24 | (b4
            as u64) << 32 | (b5 as u64) << 40 | (b6 as u64) << 48 | (b7 as u64) << 56 == v)
            by (bit_vector)
            requires
                b0 == (v & 0xFF) as u8,
                b1 == ((v >> 8) & 0xFF) as u8,
                b2 == ((v >> 16) & 0xFF) as u8,
                b3 == ((v >> 24) & 0xFF) as u8,
                b4 == ((v >> 32) & 0xFF) as u8,
                b5 == ((v >> 40) & 0xFF) as u8,
                b6 == ((v >> 48) & 0xFF) as u8,
                b7 == ((v >> 56) & 0xFF) as u8,
        ;
    };
}

/// A minimal varint parses back from any depth it fits under.
proof fn lemma_rt_varint(s: Seq<u8>, i: int, n: u64, depth: nat)
    requires
        0 <= i,
        i + spec_enc_varint(n).len() <= s.len(),
        n < crate::parse::spec_varint_cap(depth),
        depth <= 4,
        s.subrange(i, i + spec_enc_varint(n).len() as int) =~= spec_enc_varint(n),
    ensures
        crate::parse::spec_parse_varint_at(s, i, depth) == Ok::<(u64, int), FormatError>(
            (n, i + spec_enc_varint(n).len()),
        ),
    decreases n,
{
    if n < 128 {
        assert(s[i] == n as u8) by {
            assert(s.subrange(i, i + 1)[0] == s[i]);
        };
    } else {
        let b = (n % 128 + 128) as u8;
        let tail = spec_enc_varint(n / 128);
        assert(s[i] == b) by {
            assert(s.subrange(i, i + spec_enc_varint(n).len() as int)[0] == s[i]);
        };
        assert(b >= 128);
        crate::parse::lemma_varint_cap_bound(depth);
        assert(depth < 4) by {
            if depth == 4 {
                assert(crate::parse::spec_varint_cap(4) == 128);
            }
        };
        assert(n / 128 < crate::parse::spec_varint_cap(depth + 1)) by {
            assert(crate::parse::spec_varint_cap(depth) == 128 * crate::parse::spec_varint_cap(
                depth + 1,
            ));
            vstd::arithmetic::div_mod::lemma_fundamental_div_mod(n as int, 128);
        };
        assert(s.subrange(i + 1, i + 1 + tail.len() as int) =~= tail) by {
            assert forall|k: int| 0 <= k < tail.len() implies s.subrange(
                i + 1,
                i + 1 + tail.len() as int,
            )[k] == tail[k] by {
                assert(s.subrange(i, i + spec_enc_varint(n).len() as int)[k + 1] == s[i + 1 + k]);
                assert((seq![b] + tail)[k + 1] == tail[k]);
            }
        };
        lemma_rt_varint(s, i + 1, n / 128, depth + 1);
        assert((b % 128) as u64 + (n / 128) * 128 == n) by {
            assert(b as int == n % 128 + 128) by {
                vstd::arithmetic::div_mod::lemma_mod_bound(n as int, 128);
            };
            assert((b % 128) as int == (b as int) % 128);
            vstd::arithmetic::div_mod::lemma_mod_add_multiples_vanish((n as int) % 128, 128);
            vstd::arithmetic::div_mod::lemma_mod_bound(n as int, 128);
            vstd::arithmetic::div_mod::lemma_small_mod(((n as int) % 128) as nat, 128);
            vstd::arithmetic::div_mod::lemma_fundamental_div_mod(n as int, 128);
        };
    }
}

/// A string parses back: the varint length, then the UTF-8 bytes.
proof fn lemma_rt_string(s: Seq<u8>, i: int, bytes: Seq<u8>)
    requires
        0 <= i,
        i + spec_enc_string(bytes).len() <= s.len(),
        bytes.len() < 128,
        crate::parse::spec_is_utf8(bytes),
        s.subrange(i, i + spec_enc_string(bytes).len() as int) =~= spec_enc_string(bytes),
    ensures
        crate::parse::spec_parse_string(s, i) == Ok::<(Seq<u8>, int), FormatError>(
            (bytes, i + spec_enc_string(bytes).len()),
        ),
{
    let n = bytes.len() as u64;
    assert(spec_enc_varint(n).len() == 1);
    assert(s.subrange(i, i + 1) =~= spec_enc_varint(n)) by {
        assert(s.subrange(i, i + spec_enc_string(bytes).len() as int)[0] == s[i]);
        assert((spec_enc_varint(n) + bytes)[0] == spec_enc_varint(n)[0]);
    };
    crate::parse::lemma_varint_cap_bound(0);
    lemma_rt_varint(s, i, n, 0);
    assert(s.subrange(i + 1, i + 1 + bytes.len() as int) =~= bytes) by {
        assert forall|k: int| 0 <= k < bytes.len() implies s.subrange(
            i + 1,
            i + 1 + bytes.len() as int,
        )[k] == bytes[k] by {
            assert(s.subrange(i, i + spec_enc_string(bytes).len() as int)[k + 1] == s[i + 1 + k]);
            assert((spec_enc_varint(n) + bytes)[k + 1] == bytes[k]);
        }
    };
}

/// A list of molecules embedded in a buffer parses back.
proof fn lemma_rt_molecules(s: Seq<u8>, i: int, ms: Seq<MolView>)
    requires
        0 <= i,
        i + spec_enc_molecules(ms).len() <= s.len(),
        forall|k: int| 0 <= k < ms.len() ==> mol_encodable(#[trigger] ms[k]),
        s.subrange(i, i + spec_enc_molecules(ms).len() as int) =~= spec_enc_molecules(ms),
    ensures
        crate::parse::spec_parse_molecules(s, i, ms.len()) == Ok::<(Seq<MolView>, int), FormatError>(
            (ms, i + spec_enc_molecules(ms).len()),
        ),
    decreases ms.len(),
{
    if ms.len() == 0 {
        assert(ms =~= Seq::<MolView>::empty());
    } else {
        let head = spec_enc_molecule(ms[0]);
        let tail = spec_enc_molecules(ms.drop_first());
        assert(spec_enc_molecules(ms) == head + tail);
        assert(s.subrange(i, i + head.len() as int) =~= head) by {
            assert forall|k: int| 0 <= k < head.len() implies s.subrange(
                i,
                i + head.len() as int,
            )[k] == head[k] by {
                assert(s.subrange(i, i + spec_enc_molecules(ms).len() as int)[k] == s[i + k]);
                assert((head + tail)[k] == head[k]);
            }
        };
        lemma_rt_molecule_at(s, i, ms[0]);
        let o = i + head.len() as int;
        assert(s.subrange(o, o + tail.len() as int) =~= tail) by {
            assert forall|k: int| 0 <= k < tail.len() implies s.subrange(
                o,
                o + tail.len() as int,
            )[k] == tail[k] by {
                assert(s.subrange(i, i + spec_enc_molecules(ms).len() as int)[k + head.len()] == s[o
                    + k]);
                assert((head + tail)[k + head.len()] == tail[k]);
            }
        };
        lemma_rt_molecules(s, o, ms.drop_first());
        assert(seq![ms[0]] + ms.drop_first() =~= ms);
    }
}

/// A molecule embedded at any offset of a buffer parses back.
proof fn lemma_rt_molecule_at(s: Seq<u8>, i: int, m: MolView)
    requires
        0 <= i,
        i + spec_enc_molecule(m).len() <= s.len(),
        mol_encodable(m),
        s.subrange(i, i + spec_enc_molecule(m).len() as int) =~= spec_enc_molecule(m),
    ensures
        spec_parse_molecule(s, i) == Ok::<(MolView, int), FormatError>(
            (m, i + spec_enc_molecule(m).len()),
        ),
{
    let ea = spec_enc_atom_entries(m.atoms);
    let eb = spec_enc_bonds(m.bonds);
    lemma_enc_atom_entries_len(m.atoms);
    lemma_enc_bonds_len(m.bonds);
    let na = spec_enc_u32(m.atoms.len() as u32);
    let nb = spec_enc_u32(m.bonds.len() as u32);
    let whole = spec_enc_molecule(m);
    assert(whole == na + ea + nb + eb);
    assert(s.subrange(i, i + 4) =~= na) by {
        assert forall|k: int| 0 <= k < 4 implies s.subrange(i, i + 4)[k] == na[k] by {
            assert(s.subrange(i, i + whole.len() as int)[k] == s[i + k]);
            assert((((na + ea) + nb) + eb)[k] == na[k]);
        }
    };
    lemma_rt_u32(s, i, m.atoms.len() as u32);
    let o1 = i + 4;
    assert(s.subrange(o1, o1 + ea.len() as int) =~= ea) by {
        assert forall|k: int| 0 <= k < ea.len() implies s.subrange(o1, o1 + ea.len() as int)[k]
            == ea[k] by {
            assert(s.subrange(i, i + whole.len() as int)[k + 4] == s[o1 + k]);
            assert((((na + ea) + nb) + eb)[k + 4] == ea[k]);
        }
    };
    lemma_rt_atom_entries(s, o1, m.atoms);
    let o2 = o1 + ea.len() as int;
    assert(s.subrange(o2, o2 + 4) =~= nb) by {
        assert forall|k: int| 0 <= k < 4 implies s.subrange(o2, o2 + 4)[k] == nb[k] by {
            assert(s.subrange(i, i + whole.len() as int)[k + 4 + ea.len()] == s[o2 + k]);
            assert((((na + ea) + nb) + eb)[k + 4 + ea.len()] == nb[k]);
        }
    };
    lemma_rt_u32(s, o2, m.bonds.len() as u32);
    let o3 = o2 + 4;
    assert(s.subrange(o3, o3 + eb.len() as int) =~= eb) by {
        assert forall|k: int| 0 <= k < eb.len() implies s.subrange(o3, o3 + eb.len() as int)[k]
            == eb[k] by {
            assert(s.subrange(i, i + whole.len() as int)[k + 8 + ea.len()] == s[o3 + k]);
            assert((((na + ea) + nb) + eb)[k + 8 + ea.len()] == eb[k]);
        }
    };
    lemma_rt_bonds(s, o3, m.bonds);
    assert((m.atoms.len() as u32) as nat == m.atoms.len());
    assert((m.bonds.len() as u32) as nat == m.bonds.len());
}

/// The round-trip law for puzzles: decoding an encoded puzzle reproduces the
/// value exactly, for any encodable puzzle.
#[verifier::rlimit(100)]
pub proof fn lemma_puzzle_roundtrip(p: crate::data::PuzzleView)
    requires
        puzzle_encodable(p),
    ensures
        crate::parse::spec_parse_puzzle(spec_enc_puzzle(p)) == Ok::<
            crate::data::PuzzleView,
            FormatError,
        >(p),
{
    let s = spec_enc_puzzle(p);
    let tag = spec_enc_u32(3u32);
    let name = spec_enc_string(p.name);
    let cid = spec_enc_u64(p.creator_id);
    let perm = spec_enc_u64(p.permissions);
    let nr = spec_enc_u32(p.reagents.len() as u32);
    let er = spec_enc_molecules(p.reagents);
    let np = spec_enc_u32(p.products.len() as u32);
    let ep = spec_enc_molecules(p.products);
    let mult = spec_enc_u32(p.product_multiplier as u32);
    assert(s == tag + name + cid + perm + nr + er + np + ep + mult);
    let o1 = 4int;
    let o2 = o1 + name.len() as int;
    let o3 = o2 + 8;
    let o4 = o3 + 8;
    let o5 = o4 + 4;
    let o6 = o5 + er.len() as int;
    let o7 = o6 + 4;
    let o8 = o7 + ep.len() as int;
    assert(s.subrange(0, 4) =~= tag);
    lemma_rt_u32(s, 0, 3u32);
    assert((3u32) as i32 == 3i32);
    assert(s.subrange(o1, o2) =~= name) by {
        assert forall|k: int| 0 <= k < name.len() implies s.subrange(o1, o2)[k] == name[k] by {
            assert(s[o1 + k] == ((tag + name) + cid)[o1 + k]);
            assert((tag + name)[o1 + k] == name[k]);
        }
    };
    lemma_rt_string(s, o1, p.name);
    assert(s.subrange(o2, o3) =~= cid) by {
        assert forall|k: int| 0 <= k < 8 implies s.subrange(o2, o3)[k] == cid[k] by {
            assert(s[o2 + k] == (((tag + name) + cid) + perm)[o2 + k]);
        }
    };
    lemma_rt_u64(s, o2, p.creator_id);
    assert(s.subrange(o3, o4) =~= perm) by {
        assert forall|k: int| 0 <= k < 8 implies s.subrange(o3, o4)[k] == perm[k] by {
            assert(s[o3 + k] == ((((tag + name) + cid) + perm) + nr)[o3 + k]);
        }
    };
    lemma_rt_u64(s, o3, p.permissions);
    assert(s.subrange(o4, o5) =~= nr) by {
        assert forall|k: int| 0 <= k < 4 implies s.subrange(o4, o5)[k] == nr[k] by {
            assert(s[o4 + k] == (((((tag + name) + cid) + perm) + nr) + er)[o4 + k]);
        }
    };
    lemma_rt_u32(s, o4, p.reagents.len() as u32);
    assert(s.subrange(o5, o6) =~= er) by {
        assert forall|k: int| 0 <= k < er.len() implies s.subrange(o5, o6)[k] == er[k] by {
            assert(s[o5 + k] == ((((((tag + name) + cid) + perm) + nr) + er) + np)[o5 + k]);
        }
    };
    lemma_rt_molecules(s, o5, p.reagents);
    assert(s.subrange(o6, o7) =~= np) by {
        assert forall|k: int| 0 <= k < 4 implies s.subrange(o6, o7)[k] == np[k] by {
            assert(s[o6 + k] == (((((((tag + name) + cid) + perm) + nr) + er) + np) + ep)[o6 + k]);
        }
    };
    lemma_rt_u32(s, o6, p.products.len() as u32);
    assert(s.subrange(o7, o8) =~= ep) by {
        assert forall|k: int| 0 <= k < ep.len() implies s.subrange(o7, o8)[k] == ep[k] by {
            assert(s[o7 + k] == ((((((((tag + name) + cid) + perm) + nr) + er) + np) + ep) + mult)[
                o7 + k]);
        }
    };
    lemma_rt_molecules(s, o7, p.products);
    assert(s.subrange(o8, o8 + 4) =~= mult) by {
        assert forall|k: int| 0 <= k < 4 implies s.subrange(o8, o8 + 4)[k] == mult[k] by {
            assert(s[o8 + k] == ((((((((tag + name) + cid) + perm) + nr) + er) + np) + ep) + mult)[
                o8 + k]);
        }
    };
    lemma_rt_u32(s, o8, p.product_multiplier as u32);
    assert((p.product_multiplier as u32) as i32 == p.product_multiplier);
    assert((p.reagents.len() as u32) as nat == p.reagents.len());
    assert((p.products.len() as u32) as nat == p.products.len());
}

} // verus!
