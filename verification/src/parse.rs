//! The binary codec, decoding side: puzzle and solution wire formats.
//!
//! Integers are little-endian fixed width; strings are a 7-bit varint length
//! followed by that many UTF-8 bytes; lists are a 32-bit count followed by
//! that many elements. Every exec parser is specified exactly by a spec-level
//! parser over the byte sequence.

use vstd::prelude::*;

use crate::data::{
    spec_atom_from_id, spec_instruction_from_id, spec_part_type_from_name, Atom, Bond, BondType,
    Instruction, Metrics, MolView, Molecule, Part, PartType, PartView, Puzzle, PuzzleView,
    Solution, SolutionView,
};
use crate::hex::HexIndex;

verus! {

/// What went wrong while decoding, with the byte offset where it was found.
#[derive(Copy, Clone, Debug, PartialEq, Eq, Structural)]
pub struct FormatError {
    /// Byte offset at which decoding failed.
    pub offset: usize,
    /// The kind of failure, with expected/actual context where it applies.
    pub kind: FormatErrorKind,
}

/// The kinds of decoding failure.
#[derive(Copy, Clone, Debug, PartialEq, Eq, Structural)]
pub enum FormatErrorKind {
    /// A read ran past the end of the buffer.
    InsufficientData,
    /// The leading tag was not the puzzle tag (three).
    NotAPuzzle { actual: i32 },
    /// The leading tag was not the solution tag (seven).
    NotASolution { actual: i32 },
    /// A varint ran over the width this codec accepts.
    VarintTooLong,
    /// A string's bytes were not valid UTF-8.
    InvalidUtf8,
    /// An atom byte outside the table of sixteen elements.
    InvalidAtomId { actual: u8 },
    /// A bond-type byte with a high bit set that must be zero.
    InvalidBondType { actual: u8 },
    /// A metrics tag other than zero or four.
    InvalidMetricsTag { actual: i32 },
    /// A metrics echo index out of the expected order.
    MetricsIndexMismatch { expected: i32, actual: i32 },
    /// A part name missing from the table of part types.
    UnknownPartName,
    /// The reserved byte after a part name was not one.
    InvalidReservedByte { actual: u8 },
    /// An instruction byte missing from the instruction table.
    InvalidInstruction { actual: u8 },
}

/// Shorthand for the outcome of a spec-level parse: the value and the
/// position after it, or an error.
pub type PRes<T> = Result<(T, int), FormatError>;

pub open spec fn spec_insufficient(s: Seq<u8>) -> FormatError {
    FormatError { offset: s.len() as usize, kind: FormatErrorKind::InsufficientData }
}

// ---------------------------------------------------------------------------
// Primitive spec parsers

pub open spec fn spec_parse_byte(s: Seq<u8>, i: int) -> PRes<u8> {
    if i + 1 <= s.len() {
        Ok((s[i], i + 1))
    } else {
        Err(spec_insufficient(s))
    }
}

/// A signed byte is the byte reinterpreted two's-complement.
pub open spec fn spec_parse_sbyte(s: Seq<u8>, i: int) -> PRes<i8> {
    match spec_parse_byte(s, i) {
        Ok((b, j)) => Ok((b as i8, j)),
        Err(e) => Err(e),
    }
}

/// The unsigned 32-bit value of four little-endian bytes.
pub open spec fn spec_le_u32(b0: u8, b1: u8, b2: u8, b3: u8) -> u32 {
    (b0 as u32) | (b1 as u32) << 8 | (b2 as u32) << 16 | (b3 as u32) << 24
}

pub open spec fn spec_parse_u32(s: Seq<u8>, i: int) -> PRes<u32> {
    if i + 4 <= s.len() {
        Ok((spec_le_u32(s[i], s[i + 1], s[i + 2], s[i + 3]), i + 4))
    } else {
        Err(spec_insufficient(s))
    }
}

pub open spec fn spec_parse_i32(s: Seq<u8>, i: int) -> PRes<i32> {
    match spec_parse_u32(s, i) {
        Ok((v, j)) => Ok((v as i32, j)),
        Err(e) => Err(e),
    }
}

/// The unsigned 64-bit value of eight little-endian bytes.
pub open spec fn spec_le_u64(s: Seq<u8>, i: int) -> u64 {
    (s[i] as u64) | (s[i + 1] as u64) << 8 | (s[i + 2] as u64) << 16 | (s[i + 3] as u64) << 24
        | (s[i + 4] as u64) << 32 | (s[i + 5] as u64) << 40 | (s[i + 6] as u64) << 48 | (s[i
        + 7] as u64) << 56
}

pub open spec fn spec_parse_u64(s: Seq<u8>, i: int) -> PRes<u64> {
    if i + 8 <= s.len() {
        Ok((spec_le_u64(s, i), i + 8))
    } else {
        Err(spec_insufficient(s))
    }
}

/// A 7-bit varint: low seven bits per byte, continuation in the high bit,
/// least-significant group first. At most five bytes are accepted, so the
/// value is below two to the thirty-fifth.
pub open spec fn spec_parse_varint_at(s: Seq<u8>, i: int, depth: nat) -> PRes<u64>
    decreases 5 - depth,
{
    if i >= s.len() {
        Err(spec_insufficient(s))
    } else {
        let b = s[i];
        if b < 128 {
            Ok(((b % 128) as u64, i + 1))
        } else if depth >= 4 {
            Err(FormatError { offset: i as usize, kind: FormatErrorKind::VarintTooLong })
        } else {
            match spec_parse_varint_at(s, i + 1, depth + 1) {
                Ok((v, j)) => Ok((((b % 128) as u64 + v * 128) as u64, j)),
                Err(e) => Err(e),
            }
        }
    }
}

pub open spec fn spec_parse_varint(s: Seq<u8>, i: int) -> PRes<u64> {
    spec_parse_varint_at(s, i, 0)
}

/// The exclusive bound on a varint parsed from the given depth: one
/// hundred twenty-eight to the power of the remaining groups.
pub open spec fn spec_varint_cap(depth: nat) -> int
    decreases 5 - depth,
{
    if depth >= 4 {
        128
    } else {
        128 * spec_varint_cap(depth + 1)
    }
}

/// Every cap is at most the top one, two to the thirty-fifth.
pub proof fn lemma_varint_cap_bound(depth: nat)
    ensures
        128 <= spec_varint_cap(depth) <= 0x800000000,
{
    reveal_with_fuel(spec_varint_cap, 6);
    if depth >= 4 {
    } else if depth == 3 {
    } else if depth == 2 {
    } else if depth == 1 {
    } else {
        assert(depth == 0);
    }
}

/// A parsed varint is below the cap of its depth; from the top, below two
/// to the thirty-fifth.
pub proof fn lemma_varint_bound(s: Seq<u8>, i: int, depth: nat)
    ensures
        match spec_parse_varint_at(s, i, depth) {
            Ok((v, j)) => v < spec_varint_cap(depth) && i < j <= s.len(),
            Err(_) => true,
        },
    decreases 5 - depth,
{
    lemma_varint_cap_bound(depth);
    if i < s.len() {
        let b = s[i];
        if b >= 128 && depth < 4 {
            lemma_varint_cap_bound((depth + 1) as nat);
            lemma_varint_bound(s, i + 1, depth + 1);
        }
    }
}

// ---------------------------------------------------------------------------
// UTF-8

/// Whether a byte is a UTF-8 continuation byte.
pub open spec fn utf8_cont(b: u8) -> bool {
    128 <= b <= 191
}

/// Whether the bytes are a well-formed UTF-8 encoding, by the byte-range
/// table of the encoding: one-byte sequences below 0x80; two-byte leads
/// 0xC2..=0xDF; three-byte leads 0xE0..=0xEF with the narrowed second-byte
/// ranges for 0xE0 (no overlong forms) and 0xED (no surrogates); four-byte
/// leads 0xF0..=0xF4 with the narrowed ranges for 0xF0 and 0xF4.
pub open spec fn spec_is_utf8(s: Seq<u8>) -> bool
    decreases s.len(),
{
    if s.len() == 0 {
        true
    } else {
        let b = s[0];
        if b < 128 {
            spec_is_utf8(s.skip(1))
        } else if 194 <= b <= 223 {
            s.len() >= 2 && utf8_cont(s[1]) && spec_is_utf8(s.skip(2))
        } else if b == 224 {
            s.len() >= 3 && 160 <= s[1] <= 191 && utf8_cont(s[2]) && spec_is_utf8(s.skip(3))
        } else if b == 237 {
            s.len() >= 3 && 128 <= s[1] <= 159 && utf8_cont(s[2]) && spec_is_utf8(s.skip(3))
        } else if 225 <= b <= 239 {
            s.len() >= 3 && utf8_cont(s[1]) && utf8_cont(s[2]) && spec_is_utf8(s.skip(3))
        } else if b == 240 {
            s.len() >= 4 && 144 <= s[1] <= 191 && utf8_cont(s[2]) && utf8_cont(s[3])
                && spec_is_utf8(s.skip(4))
        } else if b == 244 {
            s.len() >= 4 && 128 <= s[1] <= 143 && utf8_cont(s[2]) && utf8_cont(s[3])
                && spec_is_utf8(s.skip(4))
        } else if 241 <= b <= 243 {
            s.len() >= 4 && utf8_cont(s[1]) && utf8_cont(s[2]) && utf8_cont(s[3])
                && spec_is_utf8(s.skip(4))
        } else {
            false
        }
    }
}

/// Check whether a byte vector is well-formed UTF-8.
pub fn is_utf8(v: &Vec<u8>) -> (res: bool)
    ensures
        res == spec_is_utf8(v@),
{
    let n = v.len();
    let mut i: usize = 0;
    proof {
        assert(v@.skip(0) =~= v@);
    }
    while i < n
        invariant
            n == v@.len(),
            i <= n,
            spec_is_utf8(v@) == spec_is_utf8(v@.skip(i as int)),
        decreases n - i,
    {
        let ghost suf = v@.skip(i as int);
        proof {
            assert(suf[0] == v@[i as int]);
        }
        let b = v[i];
        let step: usize;
        if b < 128 {
            step = 1;
        } else if 194 <= b && b <= 223 {
            if !(i + 1 < n && 128 <= v[i + 1] && v[i + 1] <= 191) {
                proof {
                    if i + 1 < n {
                        assert(suf[1] == v@[i + 1]);
                    }
                }
                return false;
            }
            proof {
                assert(suf[1] == v@[i + 1]);
            }
            step = 2;
        } else if 224 <= b && b <= 239 {
            let lo: u8 = if b == 224 {
                160
            } else {
                128
            };
            let hi: u8 = if b == 237 {
                159
            } else {
                191
            };
            if !(n - i > 2) {
                proof {
                    if i + 1 < n {
                        assert(suf[1] == v@[i + 1]);
                    }
                    if i + 2 < n {
                        assert(suf[2] == v@[i + 2]);
                    }
                }
                return false;
            }
            if !(lo <= v[i + 1] && v[i + 1] <= hi && 128 <= v[i + 2] && v[i + 2] <= 191) {
                proof {
                    assert(suf[1] == v@[i + 1]);
                    assert(suf[2] == v@[i + 2]);
                }
                return false;
            }
            proof {
                assert(suf[1] == v@[i + 1]);
                assert(suf[2] == v@[i + 2]);
            }
            step = 3;
        } else if 240 <= b && b <= 244 {
            let lo: u8 = if b == 240 {
                144
            } else {
                128
            };
            let hi: u8 = if b == 244 {
                143
            } else {
                191
            };
            if !(n - i > 3) {
                proof {
                    if i + 1 < n {
                        assert(suf[1] == v@[i + 1]);
                    }
                    if i + 2 < n {
                        assert(suf[2] == v@[i + 2]);
                    }
                }
                return false;
            }
            if !(lo <= v[i + 1] && v[i + 1] <= hi && 128 <= v[i + 2] && v[i + 2] <= 191 && 128 <= v[
                i + 3] && v[i + 3] <= 191) {
                proof {
                    assert(suf[1] == v@[i + 1]);
                    assert(suf[2] == v@[i + 2]);
                    assert(suf[3] == v@[i + 3]);
                }
                return false;
            }
            proof {
                assert(suf[1] == v@[i + 1]);
                assert(suf[2] == v@[i + 2]);
                assert(suf[3] == v@[i + 3]);
            }
            step = 4;
        } else {
            return false;
        }
        proof {
            assert(v@.skip(i as int).skip(step as int) =~= v@.skip(i as int + step as int));
        }
        i = i + step;
    }
    true
}

// ---------------------------------------------------------------------------
// Composite spec parsers

/// A string: a varint byte length, then that many bytes of UTF-8.
pub open spec fn spec_parse_string(s: Seq<u8>, i: int) -> PRes<Seq<u8>> {
    match spec_parse_varint(s, i) {
        Err(e) => Err(e),
        Ok((n, j)) => if j + n > s.len() {
            Err(spec_insufficient(s))
        } else {
            let bytes = s.subrange(j, j + n);
            if spec_is_utf8(bytes) {
                Ok((bytes, j + n))
            } else {
                Err(FormatError { offset: j as usize, kind: FormatErrorKind::InvalidUtf8 })
            }
        },
    }
}

/// A hex index stored as two signed bytes.
pub open spec fn spec_parse_b_hex(s: Seq<u8>, i: int) -> PRes<HexIndex> {
    match spec_parse_sbyte(s, i) {
        Err(e) => Err(e),
        Ok((q, j)) => match spec_parse_sbyte(s, j) {
            Err(e) => Err(e),
            Ok((r, k)) => Ok((HexIndex { q: q as i32, r: r as i32 }, k)),
        },
    }
}

/// A hex index stored as two 32-bit integers.
pub open spec fn spec_parse_i_hex(s: Seq<u8>, i: int) -> PRes<HexIndex> {
    match spec_parse_i32(s, i) {
        Err(e) => Err(e),
        Ok((q, j)) => match spec_parse_i32(s, j) {
            Err(e) => Err(e),
            Ok((r, k)) => Ok((HexIndex { q, r }, k)),
        },
    }
}

/// An atom byte id.
pub open spec fn spec_parse_atom(s: Seq<u8>, i: int) -> PRes<Atom> {
    match spec_parse_byte(s, i) {
        Err(e) => Err(e),
        Ok((b, j)) => match spec_atom_from_id(b) {
            Some(a) => Ok((a, j)),
            None => Err(
                FormatError { offset: i as usize, kind: FormatErrorKind::InvalidAtomId { actual: b } },
            ),
        },
    }
}

/// One molecule atom entry: an atom byte id, then its signed-byte position.
pub open spec fn spec_parse_atom_entry(s: Seq<u8>, i: int) -> PRes<(HexIndex, Atom)> {
    match spec_parse_atom(s, i) {
        Err(e) => Err(e),
        Ok((a, j)) => match spec_parse_b_hex(s, j) {
            Err(e) => Err(e),
            Ok((p, k)) => Ok(((p, a), k)),
        },
    }
}

/// A bond-type byte: one means normal; otherwise the four high bits and the
/// low bit must be clear, and bits one, two and three flag the red, black
/// and yellow triplex colours.
pub open spec fn spec_parse_bond_type(s: Seq<u8>, i: int) -> PRes<BondType> {
    match spec_parse_byte(s, i) {
        Err(e) => Err(e),
        Ok((b, j)) => if b == 1 {
            Ok((BondType::Normal, j))
        } else if b & 0xF1 != 0 {
            Err(
                FormatError {
                    offset: i as usize,
                    kind: FormatErrorKind::InvalidBondType { actual: b },
                },
            )
        } else {
            Ok(
                (
                    BondType::Triplex {
                        red: b & 0x2 != 0,
                        black: b & 0x4 != 0,
                        yellow: b & 0x8 != 0,
                    },
                    j,
                ),
            )
        },
    }
}

/// A bond: its type byte and its two signed-byte endpoints.
pub open spec fn spec_parse_bond(s: Seq<u8>, i: int) -> PRes<Bond> {
    match spec_parse_bond_type(s, i) {
        Err(e) => Err(e),
        Ok((ty, j)) => match spec_parse_b_hex(s, j) {
            Err(e) => Err(e),
            Ok((start, k)) => match spec_parse_b_hex(s, k) {
                Err(e) => Err(e),
                Ok((end, m)) => Ok((Bond { start, end, ty }, m)),
            },
        },
    }
}

/// `n` atom entries in sequence.
pub open spec fn spec_parse_atom_entries(s: Seq<u8>, i: int, n: nat) -> PRes<
    Seq<(HexIndex, Atom)>,
>
    decreases n,
{
    if n == 0 {
        Ok((seq![], i))
    } else {
        match spec_parse_atom_entry(s, i) {
            Err(e) => Err(e),
            Ok((v, j)) => match spec_parse_atom_entries(s, j, (n - 1) as nat) {
                Err(e) => Err(e),
                Ok((vs, k)) => Ok((seq![v] + vs, k)),
            },
        }
    }
}

/// `n` bonds in sequence.
pub open spec fn spec_parse_bonds(s: Seq<u8>, i: int, n: nat) -> PRes<Seq<Bond>>
    decreases n,
{
    if n == 0 {
        Ok((seq![], i))
    } else {
        match spec_parse_bond(s, i) {
            Err(e) => Err(e),
            Ok((v, j)) => match spec_parse_bonds(s, j, (n - 1) as nat) {
                Err(e) => Err(e),
                Ok((vs, k)) => Ok((seq![v] + vs, k)),
            },
        }
    }
}

/// A molecule: a list of atom entries, then a list of bonds, each a 32-bit
/// count followed by that many elements.
pub open spec fn spec_parse_molecule(s: Seq<u8>, i: int) -> PRes<MolView> {
    match spec_parse_u32(s, i) {
        Err(e) => Err(e),
        Ok((na, j)) => match spec_parse_atom_entries(s, j, na as nat) {
            Err(e) => Err(e),
            Ok((atoms, k)) => match spec_parse_u32(s, k) {
                Err(e) => Err(e),
                Ok((nb, m)) => match spec_parse_bonds(s, m, nb as nat) {
                    Err(e) => Err(e),
                    Ok((bonds, p)) => Ok((MolView { atoms, bonds }, p)),
                },
            },
        },
    }
}

/// `n` molecules in sequence.
pub open spec fn spec_parse_molecules(s: Seq<u8>, i: int, n: nat) -> PRes<Seq<MolView>>
    decreases n,
{
    if n == 0 {
        Ok((seq![], i))
    } else {
        match spec_parse_molecule(s, i) {
            Err(e) => Err(e),
            Ok((v, j)) => match spec_parse_molecules(s, j, (n - 1) as nat) {
                Err(e) => Err(e),
                Ok((vs, k)) => Ok((seq![v] + vs, k)),
            },
        }
    }
}

/// The whole puzzle record: tag three, name, creator id, permission mask,
/// reagents, products, product multiplier.
pub open spec fn spec_parse_puzzle(s: Seq<u8>) -> Result<PuzzleView, FormatError> {
    match spec_parse_i32(s, 0) {
        Err(e) => Err(e),
        Ok((tag, i)) => if tag != 3 {
            Err(FormatError { offset: 0, kind: FormatErrorKind::NotAPuzzle { actual: tag } })
        } else {
            match spec_parse_string(s, i) {
                Err(e) => Err(e),
                Ok((name, j)) => match spec_parse_u64(s, j) {
                    Err(e) => Err(e),
                    Ok((creator, k)) => match spec_parse_u64(s, k) {
                        Err(e) => Err(e),
                        Ok((perms, m)) => match spec_parse_u32(s, m) {
                            Err(e) => Err(e),
                            Ok((nr, p)) => match spec_parse_molecules(s, p, nr as nat) {
                                Err(e) => Err(e),
                                Ok((reagents, q)) => match spec_parse_u32(s, q) {
                                    Err(e) => Err(e),
                                    Ok((np, r)) => match spec_parse_molecules(s, r, np as nat) {
                                        Err(e) => Err(e),
                                        Ok((products, t)) => match spec_parse_i32(s, t) {
                                            Err(e) => Err(e),
                                            Ok((mult, _u)) => Ok(
                                                PuzzleView {
                                                    name,
                                                    creator_id: creator,
                                                    reagents,
                                                    products,
                                                    product_multiplier: mult,
                                                    permissions: perms,
                                                    production_info: None,
                                                },
                                            ),
                                        },
                                    },
                                },
                            },
                        },
                    },
                },
            }
        },
    }
}

/// One echoed metrics entry: a 32-bit index that must equal its expected
/// position, then the 32-bit value.
pub open spec fn spec_parse_metric_entry(s: Seq<u8>, i: int, expected: i32) -> PRes<i32> {
    match spec_parse_i32(s, i) {
        Err(e) => Err(e),
        Ok((idx, j)) => if idx != expected {
            Err(
                FormatError {
                    offset: i as usize,
                    kind: FormatErrorKind::MetricsIndexMismatch { expected, actual: idx },
                },
            )
        } else {
            spec_parse_i32(s, j)
        },
    }
}

/// The metrics block: tag zero is no metrics; tag four is the exact echoed
/// sequence (0, cycles), (1, cost), (2, area), (3, instructions); any other
/// tag is an error.
pub open spec fn spec_parse_metrics(s: Seq<u8>, i: int) -> PRes<Option<Metrics>> {
    match spec_parse_i32(s, i) {
        Err(e) => Err(e),
        Ok((tag, j)) => if tag == 0 {
            Ok((None, j))
        } else if tag != 4 {
            Err(
                FormatError {
                    offset: i as usize,
                    kind: FormatErrorKind::InvalidMetricsTag { actual: tag },
                },
            )
        } else {
            match spec_parse_metric_entry(s, j, 0) {
                Err(e) => Err(e),
                Ok((cycles, k)) => match spec_parse_metric_entry(s, k, 1) {
                    Err(e) => Err(e),
                    Ok((cost, m)) => match spec_parse_metric_entry(s, m, 2) {
                        Err(e) => Err(e),
                        Ok((area, p)) => match spec_parse_metric_entry(s, p, 3) {
                            Err(e) => Err(e),
                            Ok((instructions, q)) => Ok(
                                (Some(Metrics { cycles, cost, area, instructions }), q),
                            ),
                        },
                    },
                },
            }
        },
    }
}

/// One instruction-tape entry: a 32-bit cycle index, then an instruction
/// byte from the fixed ASCII table.
pub open spec fn spec_parse_instr_entry(s: Seq<u8>, i: int) -> PRes<(Instruction, i32)> {
    match spec_parse_i32(s, i) {
        Err(e) => Err(e),
        Ok((cycle, j)) => match spec_parse_byte(s, j) {
            Err(e) => Err(e),
            Ok((b, k)) => match spec_instruction_from_id(b) {
                Some(ins) => Ok(((ins, cycle), k)),
                None => Err(
                    FormatError {
                        offset: j as usize,
                        kind: FormatErrorKind::InvalidInstruction { actual: b },
                    },
                ),
            },
        },
    }
}

/// `n` instruction-tape entries in sequence.
pub open spec fn spec_parse_instr_entries(s: Seq<u8>, i: int, n: nat) -> PRes<
    Seq<(Instruction, i32)>,
>
    decreases n,
{
    if n == 0 {
        Ok((seq![], i))
    } else {
        match spec_parse_instr_entry(s, i) {
            Err(e) => Err(e),
            Ok((v, j)) => match spec_parse_instr_entries(s, j, (n - 1) as nat) {
                Err(e) => Err(e),
                Ok((vs, k)) => Ok((seq![v] + vs, k)),
            },
        }
    }
}

/// `n` 32-bit-pair hex indices in sequence.
pub open spec fn spec_parse_i_hexes(s: Seq<u8>, i: int, n: nat) -> PRes<Seq<HexIndex>>
    decreases n,
{
    if n == 0 {
        Ok((seq![], i))
    } else {
        match spec_parse_i_hex(s, i) {
            Err(e) => Err(e),
            Ok((v, j)) => match spec_parse_i_hexes(s, j, (n - 1) as nat) {
                Err(e) => Err(e),
                Ok((vs, k)) => Ok((seq![v] + vs, k)),
            },
        }
    }
}

/// One placed part: its type name, a reserved byte that must equal one, its
/// position, arm length, raw rotation and io index, its instruction tape,
/// then a track footprint if it is a track, and a conduit id plus footprint
/// if it is a conduit.
pub open spec fn spec_parse_part(s: Seq<u8>, i: int) -> PRes<PartView> {
    match spec_parse_string(s, i) {
        Err(e) => Err(e),
        Ok((name, j)) => match spec_part_type_from_name(name) {
            None => Err(FormatError { offset: i as usize, kind: FormatErrorKind::UnknownPartName }),
            Some(ty) => match spec_parse_byte(s, j) {
                Err(e) => Err(e),
                Ok((one, k)) => if one != 1 {
                    Err(
                        FormatError {
                            offset: j as usize,
                            kind: FormatErrorKind::InvalidReservedByte { actual: one },
                        },
                    )
                } else {
                    match spec_parse_i_hex(s, k) {
                        Err(e) => Err(e),
                        Ok((pos, m)) => match spec_parse_i32(s, m) {
                            Err(e) => Err(e),
                            Ok((arm_length, p)) => match spec_parse_i32(s, p) {
                                Err(e) => Err(e),
                                Ok((rotation, q)) => match spec_parse_i32(s, q) {
                                    Err(e) => Err(e),
                                    Ok((index, r)) => match spec_parse_u32(s, r) {
                                        Err(e) => Err(e),
                                        Ok((ni, t)) => match spec_parse_instr_entries(
                                            s,
                                            t,
                                            ni as nat,
                                        ) {
                                            Err(e) => Err(e),
                                            Ok((instructions, u)) => spec_parse_part_tail(
                                                s,
                                                u,
                                                ty,
                                                pos,
                                                arm_length,
                                                rotation,
                                                index,
                                                instructions,
                                            ),
                                        },
                                    },
                                },
                            },
                        },
                    }
                },
            },
        },
    }
}

/// The conditional tail of a part: the track footprint for tracks, the
/// conduit id and footprint for conduits.
pub open spec fn spec_parse_part_tail(
    s: Seq<u8>,
    i: int,
    ty: PartType,
    pos: HexIndex,
    arm_length: i32,
    rotation: i32,
    index: i32,
    instructions: Seq<(Instruction, i32)>,
) -> PRes<PartView> {
    let track = if ty == PartType::Track {
        match spec_parse_u32(s, i) {
            Err(e) => Err(e),
            Ok((nt, j)) => spec_parse_i_hexes(s, j, nt as nat),
        }
    } else {
        Ok((seq![], i))
    };
    match track {
        Err(e) => Err(e),
        Ok((track_hexes, j)) => {
            let conduit = if ty == PartType::Conduit {
                match spec_parse_i32(s, j) {
                    Err(e) => Err(e),
                    Ok((ci, k)) => match spec_parse_u32(s, k) {
                        Err(e) => Err(e),
                        Ok((nc, m)) => match spec_parse_i_hexes(s, m, nc as nat) {
                            Err(e) => Err(e),
                            Ok((hexes, p)) => Ok(((ci, hexes), p)),
                        },
                    },
                }
            } else {
                Ok(((0i32, seq![]), j))
            };
            match conduit {
                Err(e) => Err(e),
                Ok(((conduit_index, conduit_hexes), k)) => Ok(
                    (
                        PartView {
                            ty,
                            pos,
                            rotation,
                            arm_length,
                            index,
                            conduit_index,
                            track_hexes,
                            conduit_hexes,
                            instructions,
                        },
                        k,
                    ),
                ),
            }
        },
    }
}

/// `n` parts in sequence.
pub open spec fn spec_parse_parts(s: Seq<u8>, i: int, n: nat) -> PRes<Seq<PartView>>
    decreases n,
{
    if n == 0 {
        Ok((seq![], i))
    } else {
        match spec_parse_part(s, i) {
            Err(e) => Err(e),
            Ok((v, j)) => match spec_parse_parts(s, j, (n - 1) as nat) {
                Err(e) => Err(e),
                Ok((vs, k)) => Ok((seq![v] + vs, k)),
            },
        }
    }
}

/// The whole solution record: tag seven, puzzle id, display name, metrics
/// block, then the list of placed parts.
pub open spec fn spec_parse_solution(s: Seq<u8>) -> Result<SolutionView, FormatError> {
    match spec_parse_i32(s, 0) {
        Err(e) => Err(e),
        Ok((tag, i)) => if tag != 7 {
            Err(FormatError { offset: 0, kind: FormatErrorKind::NotASolution { actual: tag } })
        } else {
            match spec_parse_string(s, i) {
                Err(e) => Err(e),
                Ok((puzzle_name, j)) => match spec_parse_string(s, j) {
                    Err(e) => Err(e),
                    Ok((name, k)) => match spec_parse_metrics(s, k) {
                        Err(e) => Err(e),
                        Ok((metrics, m)) => match spec_parse_u32(s, m) {
                            Err(e) => Err(e),
                            Ok((np, p)) => match spec_parse_parts(s, p, np as nat) {
                                Err(e) => Err(e),
                                Ok((parts, _q)) => Ok(
                                    SolutionView { name, puzzle_name, metrics, parts },
                                ),
                            },
                        },
                    },
                },
            }
        },
    }
}

// ---------------------------------------------------------------------------
// The exec parser

/// A byte-stream reader over a borrowed buffer: the buffer and a position.
pub struct BaseParser<'a> {
    /// The whole input buffer.
    pub data: &'a [u8],
    /// The next byte to read.
    pub pos: usize,
}

impl<'a> BaseParser<'a> {
    /// The position never runs past the buffer.
    pub open spec fn wf(self) -> bool {
        self.pos <= self.data@.len()
    }

    /// A reader at the start of the buffer.
    pub fn new(data: &'a [u8]) -> (res: Self)
        ensures
            res.data@ == data@,
            res.pos == 0,
            res.wf(),
    {
        BaseParser { data, pos: 0 }
    }

    /// Read one byte.
    pub fn parse_byte(&mut self) -> (res: Result<u8, FormatError>)
        requires
            old(self).wf(),
        ensures
            final(self).data@ == old(self).data@,
            final(self).wf(),
            match spec_parse_byte(old(self).data@, old(self).pos as int) {
                Ok((v, j)) => res == Ok::<u8, FormatError>(v) && final(self).pos == j,
                Err(e) => res == Err::<u8, FormatError>(e),
            },
    {
        if self.pos < self.data.len() {
            let b = self.data[self.pos];
            self.pos = self.pos + 1;
            Ok(b)
        } else {
            Err(FormatError { offset: self.data.len(), kind: FormatErrorKind::InsufficientData })
        }
    }

    /// Read one signed byte, two's-complement.
    pub fn parse_sbyte(&mut self) -> (res: Result<i8, FormatError>)
        requires
            old(self).wf(),
        ensures
            final(self).data@ == old(self).data@,
            final(self).wf(),
            match spec_parse_sbyte(old(self).data@, old(self).pos as int) {
                Ok((v, j)) => res == Ok::<i8, FormatError>(v) && final(self).pos == j,
                Err(e) => res == Err::<i8, FormatError>(e),
            },
    {
        match self.parse_byte() {
            Ok(b) => Ok(
                #[verifier::truncate]
                (b as i8),
            ),
            Err(e) => Err(e),
        }
    }

    /// Read one byte as a boolean: nonzero is true.
    pub fn parse_bool(&mut self) -> (res: Result<bool, FormatError>)
        requires
            old(self).wf(),
        ensures
            final(self).data@ == old(self).data@,
            final(self).wf(),
            match spec_parse_byte(old(self).data@, old(self).pos as int) {
                Ok((v, j)) => res == Ok::<bool, FormatError>(v != 0) && final(self).pos == j,
                Err(e) => res == Err::<bool, FormatError>(e),
            },
    {
        match self.parse_byte() {
            Ok(b) => Ok(b != 0),
            Err(e) => Err(e),
        }
    }

    /// Read a 32-bit little-endian integer.
    pub fn parse_int(&mut self) -> (res: Result<i32, FormatError>)
        requires
            old(self).wf(),
        ensures
            final(self).data@ == old(self).data@,
            final(self).wf(),
            match spec_parse_i32(old(self).data@, old(self).pos as int) {
                Ok((v, j)) => res == Ok::<i32, FormatError>(v) && final(self).pos == j,
                Err(e) => res == Err::<i32, FormatError>(e),
            },
    {
        match self.parse_uint() {
            Ok(v) => Ok(
                #[verifier::truncate]
                (v as i32),
            ),
            Err(e) => Err(e),
        }
    }

    /// Read a 32-bit little-endian unsigned integer.
    pub fn parse_uint(&mut self) -> (res: Result<u32, FormatError>)
        requires
            old(self).wf(),
        ensures
            final(self).data@ == old(self).data@,
            final(self).wf(),
            match spec_parse_u32(old(self).data@, old(self).pos as int) {
                Ok((v, j)) => res == Ok::<u32, FormatError>(v) && final(self).pos == j,
                Err(e) => res == Err::<u32, FormatError>(e),
            },
    {
        if self.data.len() - self.pos >= 4 {
            let b0 = self.data[self.pos];
            let b1 = self.data[self.pos + 1];
            let b2 = self.data[self.pos + 2];
            let b3 = self.data[self.pos + 3];
            let v: u32 = (b0 as u32) | ((b1 as u32) << 8) | ((b2 as u32) << 16) | ((b3
                as u32) << 24);
            self.pos = self.pos + 4;
            Ok(v)
        } else {
            Err(FormatError { offset: self.data.len(), kind: FormatErrorKind::InsufficientData })
        }
    }

    /// Read a 64-bit little-endian unsigned integer.
    pub fn parse_long(&mut self) -> (res: Result<u64, FormatError>)
        requires
            old(self).wf(),
        ensures
            final(self).data@ == old(self).data@,
            final(self).wf(),
            match spec_parse_u64(old(self).data@, old(self).pos as int) {
                Ok((v, j)) => res == Ok::<u64, FormatError>(v) && final(self).pos == j,
                Err(e) => res == Err::<u64, FormatError>(e),
            },
    {
        if self.data.len() - self.pos >= 8 {
            let b0 = self.data[self.pos];
            let b1 = self.data[self.pos + 1];
            let b2 = self.data[self.pos + 2];
            let b3 = self.data[self.pos + 3];
            let b4 = self.data[self.pos + 4];
            let b5 = self.data[self.pos + 5];
            let b6 = self.data[self.pos + 6];
            let b7 = self.data[self.pos + 7];
            let v: u64 = (b0 as u64) | ((b1 as u64) << 8) | ((b2 as u64) << 16) | ((b3
                as u64) << 24) | ((b4 as u64) << 32) | ((b5 as u64) << 40) | ((b6 as u64) << 48)
                | ((b7 as u64) << 56);
            self.pos = self.pos + 8;
            Ok(v)
        } else {
            Err(FormatError { offset: self.data.len(), kind: FormatErrorKind::InsufficientData })
        }
    }

    /// Read a 7-bit varint of at most five bytes.
    pub fn parse_var_int(&mut self) -> (res: Result<u64, FormatError>)
        requires
            old(self).wf(),
        ensures
            final(self).data@ == old(self).data@,
            final(self).wf(),
            match spec_parse_varint(old(self).data@, old(self).pos as int) {
                Ok((v, j)) => res == Ok::<u64, FormatError>(v) && final(self).pos == j && v
                    < 0x800000000u64,
                Err(e) => res == Err::<u64, FormatError>(e),
            },
    {
        proof {
            lemma_varint_bound(self.data@, self.pos as int, 0);
            lemma_varint_cap_bound(0);
        }
        match varint_at(self.data, self.pos, 0) {
            Ok((v, j)) => {
                self.pos = j;
                Ok(v)
            },
            Err(e) => Err(e),
        }
    }
}

/// Read one varint group at `i`, `depth` groups already consumed.
fn varint_at(data: &[u8], i: usize, depth: u8) -> (res: Result<(u64, usize), FormatError>)
    requires
        i <= data@.len(),
        depth <= 4,
    ensures
        match spec_parse_varint_at(data@, i as int, depth as nat) {
            Ok((v, j)) => res == Ok::<(u64, usize), FormatError>((v, j as usize)) && i < j
                <= data@.len() && j == j as usize,
            Err(e) => res == Err::<(u64, usize), FormatError>(e),
        },
    decreases 5 - depth,
{
    proof {
        lemma_varint_bound(data@, i as int, depth as nat);
    }
    if i >= data.len() {
        return Err(FormatError { offset: data.len(), kind: FormatErrorKind::InsufficientData });
    }
    let b = data[i];
    if b < 128 {
        Ok(((b % 128) as u64, i + 1))
    } else if depth >= 4 {
        Err(FormatError { offset: i, kind: FormatErrorKind::VarintTooLong })
    } else {
        proof {
            lemma_varint_bound(data@, i as int + 1, (depth + 1) as nat);
            lemma_varint_cap_bound((depth + 1) as nat);
        }
        match varint_at(data, i + 1, depth + 1) {
            Ok((v, j)) => Ok(((b % 128) as u64 + v * 128, j)),
            Err(e) => Err(e),
        }
    }
}

impl<'a> BaseParser<'a> {
    /// Read a length-prefixed UTF-8 string, returned as its bytes.
    #[verifier::loop_isolation(false)]
    pub fn parse_string(&mut self) -> (res: Result<Vec<u8>, FormatError>)
        requires
            old(self).wf(),
        ensures
            final(self).data@ == old(self).data@,
            final(self).wf(),
            match spec_parse_string(old(self).data@, old(self).pos as int) {
                Ok((v, j)) => res is Ok && res->Ok_0@ == v && final(self).pos == j,
                Err(e) => res == Err::<Vec<u8>, FormatError>(e),
            },
    {
        let n64 = match self.parse_var_int() {
            Ok(v) => v,
            Err(e) => {
                return Err(e);
            },
        };
        if n64 > (self.data.len() - self.pos) as u64 {
            return Err(
                FormatError { offset: self.data.len(), kind: FormatErrorKind::InsufficientData },
            );
        }
        let n = n64 as usize;
        let start = self.pos;
        let mut bytes: Vec<u8> = Vec::new();
        let mut i: usize = 0;
        while i < n
            invariant
                self.wf(),
                self.data@ == old(self).data@,
                self.pos == start,
                start + n <= self.data@.len(),
                i <= n,
                bytes@ == self.data@.subrange(start as int, start as int + i as int),
            decreases n - i,
        {
            bytes.push(self.data[start + i]);
            proof {
                assert(bytes@ =~= self.data@.subrange(start as int, start as int + i as int + 1));
            }
            i = i + 1;
        }
        if !is_utf8(&bytes) {
            return Err(FormatError { offset: self.pos, kind: FormatErrorKind::InvalidUtf8 });
        }
        self.pos = self.pos + n;
        Ok(bytes)
    }

    /// Read a hex index stored as two signed bytes.
    pub fn parse_b_hex_index(&mut self) -> (res: Result<HexIndex, FormatError>)
        requires
            old(self).wf(),
        ensures
            final(self).data@ == old(self).data@,
            final(self).wf(),
            match spec_parse_b_hex(old(self).data@, old(self).pos as int) {
                Ok((v, j)) => res == Ok::<HexIndex, FormatError>(v) && final(self).pos == j,
                Err(e) => res == Err::<HexIndex, FormatError>(e),
            },
    {
        let q = match self.parse_sbyte() {
            Ok(v) => v,
            Err(e) => {
                return Err(e);
            },
        };
        let r = match self.parse_sbyte() {
            Ok(v) => v,
            Err(e) => {
                return Err(e);
            },
        };
        Ok(HexIndex { q: q as i32, r: r as i32 })
    }

    /// Read a hex index stored as two 32-bit integers.
    pub fn parse_i_hex_index(&mut self) -> (res: Result<HexIndex, FormatError>)
        requires
            old(self).wf(),
        ensures
            final(self).data@ == old(self).data@,
            final(self).wf(),
            match spec_parse_i_hex(old(self).data@, old(self).pos as int) {
                Ok((v, j)) => res == Ok::<HexIndex, FormatError>(v) && final(self).pos == j,
                Err(e) => res == Err::<HexIndex, FormatError>(e),
            },
    {
        let q = match self.parse_int() {
            Ok(v) => v,
            Err(e) => {
                return Err(e);
            },
        };
        let r = match self.parse_int() {
            Ok(v) => v,
            Err(e) => {
                return Err(e);
            },
        };
        Ok(HexIndex { q, r })
    }

    /// Read an atom byte id.
    pub fn parse_atom(&mut self) -> (res: Result<Atom, FormatError>)
        requires
            old(self).wf(),
        ensures
            final(self).data@ == old(self).data@,
            final(self).wf(),
            match spec_parse_atom(old(self).data@, old(self).pos as int) {
                Ok((v, j)) => res == Ok::<Atom, FormatError>(v) && final(self).pos == j,
                Err(e) => res == Err::<Atom, FormatError>(e),
            },
    {
        let at = self.pos;
        let b = match self.parse_byte() {
            Ok(v) => v,
            Err(e) => {
                return Err(e);
            },
        };
        match Atom::from_id(b) {
            Some(a) => Ok(a),
            None => Err(
                FormatError { offset: at, kind: FormatErrorKind::InvalidAtomId { actual: b } },
            ),
        }
    }

    /// Read one molecule atom entry: atom id, then position.
    pub fn parse_atom_entry(&mut self) -> (res: Result<(HexIndex, Atom), FormatError>)
        requires
            old(self).wf(),
        ensures
            final(self).data@ == old(self).data@,
            final(self).wf(),
            match spec_parse_atom_entry(old(self).data@, old(self).pos as int) {
                Ok((v, j)) => res == Ok::<(HexIndex, Atom), FormatError>(v) && final(self).pos
                    == j,
                Err(e) => res == Err::<(HexIndex, Atom), FormatError>(e),
            },
    {
        let a = match self.parse_atom() {
            Ok(v) => v,
            Err(e) => {
                return Err(e);
            },
        };
        let p = match self.parse_b_hex_index() {
            Ok(v) => v,
            Err(e) => {
                return Err(e);
            },
        };
        Ok((p, a))
    }

    /// Read a bond-type byte.
    pub fn parse_bond_type(&mut self) -> (res: Result<BondType, FormatError>)
        requires
            old(self).wf(),
        ensures
            final(self).data@ == old(self).data@,
            final(self).wf(),
            match spec_parse_bond_type(old(self).data@, old(self).pos as int) {
                Ok((v, j)) => res == Ok::<BondType, FormatError>(v) && final(self).pos == j,
                Err(e) => res == Err::<BondType, FormatError>(e),
            },
    {
        let at = self.pos;
        let b = match self.parse_byte() {
            Ok(v) => v,
            Err(e) => {
                return Err(e);
            },
        };
        if b == 1 {
            Ok(BondType::Normal)
        } else if b & 0xF1 != 0 {
            Err(FormatError { offset: at, kind: FormatErrorKind::InvalidBondType { actual: b } })
        } else {
            Ok(BondType::Triplex { red: b & 0x2 != 0, black: b & 0x4 != 0, yellow: b & 0x8 != 0 })
        }
    }

    /// Read a bond: type byte and two endpoints.
    pub fn parse_bond(&mut self) -> (res: Result<Bond, FormatError>)
        requires
            old(self).wf(),
        ensures
            final(self).data@ == old(self).data@,
            final(self).wf(),
            match spec_parse_bond(old(self).data@, old(self).pos as int) {
                Ok((v, j)) => res == Ok::<Bond, FormatError>(v) && final(self).pos == j,
                Err(e) => res == Err::<Bond, FormatError>(e),
            },
    {
        let ty = match self.parse_bond_type() {
            Ok(v) => v,
            Err(e) => {
                return Err(e);
            },
        };
        let start = match self.parse_b_hex_index() {
            Ok(v) => v,
            Err(e) => {
                return Err(e);
            },
        };
        let end = match self.parse_b_hex_index() {
            Ok(v) => v,
            Err(e) => {
                return Err(e);
            },
        };
        Ok(Bond { start, end, ty })
    }

    /// Read a molecule: its atom list, then its bond list.
    #[verifier::loop_isolation(false)]
    pub fn parse_molecule(&mut self) -> (res: Result<Molecule, FormatError>)
        requires
            old(self).wf(),
        ensures
            final(self).data@ == old(self).data@,
            final(self).wf(),
            match spec_parse_molecule(old(self).data@, old(self).pos as int) {
                Ok((v, j)) => res is Ok && res->Ok_0@ == v && final(self).pos == j,
                Err(e) => res == Err::<Molecule, FormatError>(e),
            },
    {
        let ghost s = self.data@;
        let na = match self.parse_uint() {
            Ok(v) => v,
            Err(e) => {
                return Err(e);
            },
        };
        let ghost astart = self.pos as int;
        let mut atoms: Vec<(HexIndex, Atom)> = Vec::new();
        let mut k: u32 = 0;
        proof {
            if let Ok((vs, j)) = spec_parse_atom_entries(s, astart, na as nat) {
                assert(atoms@ + vs =~= vs);
            }
        }
        while k < na
            invariant
                self.wf(),
                self.data@ == s,
                k <= na,
                spec_parse_atom_entries(s, astart, na as nat) == (
                match spec_parse_atom_entries(s, self.pos as int, (na - k) as nat) {
                    Ok((vs, j)) => Ok::<(Seq<(HexIndex, Atom)>, int), FormatError>(
                        (atoms@ + vs, j),
                    ),
                    Err(e) => Err::<(Seq<(HexIndex, Atom)>, int), FormatError>(e),
                }),
            decreases na - k,
        {
            let ghost cur = self.pos as int;
            let entry = match self.parse_atom_entry() {
                Ok(v) => v,
                Err(e) => {
                    return Err(e);
                },
            };
            proof {
                if let Ok((v2, j2)) = spec_parse_atom_entry(s, cur) {
                    if let Ok((vs3, j3)) = spec_parse_atom_entries(s, j2, (na - k - 1) as nat) {
                        assert(atoms@ + (seq![v2] + vs3) =~= atoms@.push(v2) + vs3);
                    }
                }
            }
            atoms.push(entry);
            k = k + 1;
        }
        proof {
            assert(atoms@ + Seq::<(HexIndex, Atom)>::empty() =~= atoms@);
        }
        let nb = match self.parse_uint() {
            Ok(v) => v,
            Err(e) => {
                return Err(e);
            },
        };
        let ghost bstart = self.pos as int;
        let mut bonds: Vec<Bond> = Vec::new();
        let mut m: u32 = 0;
        proof {
            if let Ok((vs, j)) = spec_parse_bonds(s, bstart, nb as nat) {
                assert(bonds@ + vs =~= vs);
            }
        }
        while m < nb
            invariant
                self.wf(),
                self.data@ == s,
                m <= nb,
                spec_parse_bonds(s, bstart, nb as nat) == (
                match spec_parse_bonds(s, self.pos as int, (nb - m) as nat) {
                    Ok((vs, j)) => Ok::<(Seq<Bond>, int), FormatError>((bonds@ + vs, j)),
                    Err(e) => Err::<(Seq<Bond>, int), FormatError>(e),
                }),
            decreases nb - m,
        {
            let ghost cur = self.pos as int;
            let bond = match self.parse_bond() {
                Ok(v) => v,
                Err(e) => {
                    return Err(e);
                },
            };
            proof {
                if let Ok((v2, j2)) = spec_parse_bond(s, cur) {
                    if let Ok((vs3, j3)) = spec_parse_bonds(s, j2, (nb - m - 1) as nat) {
                        assert(bonds@ + (seq![v2] + vs3) =~= bonds@.push(v2) + vs3);
                    }
                }
            }
            bonds.push(bond);
            m = m + 1;
        }
        proof {
            assert(bonds@ + Seq::<Bond>::empty() =~= bonds@);
        }
        Ok(Molecule { atoms, bonds })
    }

    /// Read one echoed metrics entry against its expected index.
    pub fn parse_metric_entry(&mut self, expected: i32) -> (res: Result<i32, FormatError>)
        requires
            old(self).wf(),
        ensures
            final(self).data@ == old(self).data@,
            final(self).wf(),
            match spec_parse_metric_entry(old(self).data@, old(self).pos as int, expected) {
                Ok((v, j)) => res == Ok::<i32, FormatError>(v) && final(self).pos == j,
                Err(e) => res == Err::<i32, FormatError>(e),
            },
    {
        let at = self.pos;
        let idx = match self.parse_int() {
            Ok(v) => v,
            Err(e) => {
                return Err(e);
            },
        };
        if idx != expected {
            return Err(
                FormatError {
                    offset: at,
                    kind: FormatErrorKind::MetricsIndexMismatch { expected, actual: idx },
                },
            );
        }
        self.parse_int()
    }

    /// Read the metrics block.
    pub fn parse_metrics(&mut self) -> (res: Result<Option<Metrics>, FormatError>)
        requires
            old(self).wf(),
        ensures
            final(self).data@ == old(self).data@,
            final(self).wf(),
            match spec_parse_metrics(old(self).data@, old(self).pos as int) {
                Ok((v, j)) => res == Ok::<Option<Metrics>, FormatError>(v) && final(self).pos
                    == j,
                Err(e) => res == Err::<Option<Metrics>, FormatError>(e),
            },
    {
        let at = self.pos;
        let tag = match self.parse_int() {
            Ok(v) => v,
            Err(e) => {
                return Err(e);
            },
        };
        if tag == 0 {
            return Ok(None);
        }
        if tag != 4 {
            return Err(
                FormatError { offset: at, kind: FormatErrorKind::InvalidMetricsTag { actual: tag } },
            );
        }
        let cycles = match self.parse_metric_entry(0) {
            Ok(v) => v,
            Err(e) => {
                return Err(e);
            },
        };
        let cost = match self.parse_metric_entry(1) {
            Ok(v) => v,
            Err(e) => {
                return Err(e);
            },
        };
        let area = match self.parse_metric_entry(2) {
            Ok(v) => v,
            Err(e) => {
                return Err(e);
            },
        };
        let instructions = match self.parse_metric_entry(3) {
            Ok(v) => v,
            Err(e) => {
                return Err(e);
            },
        };
        Ok(Some(Metrics { cycles, cost, area, instructions }))
    }

    /// Read one instruction-tape entry.
    pub fn parse_instr_entry(&mut self) -> (res: Result<(Instruction, i32), FormatError>)
        requires
            old(self).wf(),
        ensures
            final(self).data@ == old(self).data@,
            final(self).wf(),
            match spec_parse_instr_entry(old(self).data@, old(self).pos as int) {
                Ok((v, j)) => res == Ok::<(Instruction, i32), FormatError>(v) && final(self).pos
                    == j,
                Err(e) => res == Err::<(Instruction, i32), FormatError>(e),
            },
    {
        let cycle = match self.parse_int() {
            Ok(v) => v,
            Err(e) => {
                return Err(e);
            },
        };
        let at = self.pos;
        let b = match self.parse_byte() {
            Ok(v) => v,
            Err(e) => {
                return Err(e);
            },
        };
        match Instruction::from_id(b) {
            Some(ins) => Ok((ins, cycle)),
            None => Err(
                FormatError { offset: at, kind: FormatErrorKind::InvalidInstruction { actual: b } },
            ),
        }
    }

    /// Read a list of 32-bit-pair hex indices, given its count.
    #[verifier::loop_isolation(false)]
    pub fn parse_i_hexes(&mut self, n: u32) -> (res: Result<Vec<HexIndex>, FormatError>)
        requires
            old(self).wf(),
        ensures
            final(self).data@ == old(self).data@,
            final(self).wf(),
            match spec_parse_i_hexes(old(self).data@, old(self).pos as int, n as nat) {
                Ok((v, j)) => res is Ok && res->Ok_0@ == v && final(self).pos == j,
                Err(e) => res == Err::<Vec<HexIndex>, FormatError>(e),
            },
    {
        let ghost s = self.data@;
        let ghost start = self.pos as int;
        let mut hexes: Vec<HexIndex> = Vec::new();
        let mut k: u32 = 0;
        proof {
            if let Ok((vs, j)) = spec_parse_i_hexes(s, start, n as nat) {
                assert(hexes@ + vs =~= vs);
            }
        }
        while k < n
            invariant
                self.wf(),
                self.data@ == s,
                k <= n,
                spec_parse_i_hexes(s, start, n as nat) == (
                match spec_parse_i_hexes(s, self.pos as int, (n - k) as nat) {
                    Ok((vs, j)) => Ok::<(Seq<HexIndex>, int), FormatError>((hexes@ + vs, j)),
                    Err(e) => Err::<(Seq<HexIndex>, int), FormatError>(e),
                }),
            decreases n - k,
        {
            let ghost cur = self.pos as int;
            let h = match self.parse_i_hex_index() {
                Ok(v) => v,
                Err(e) => {
                    return Err(e);
                },
            };
            proof {
                if let Ok((v2, j2)) = spec_parse_i_hex(s, cur) {
                    if let Ok((vs3, j3)) = spec_parse_i_hexes(s, j2, (n - k - 1) as nat) {
                        assert(hexes@ + (seq![v2] + vs3) =~= hexes@.push(v2) + vs3);
                    }
                }
            }
            hexes.push(h);
            k = k + 1;
        }
        proof {
            assert(hexes@ + Seq::<HexIndex>::empty() =~= hexes@);
        }
        Ok(hexes)
    }

    /// Read one placed part.
    #[verifier::loop_isolation(false)]
    pub fn parse_part(&mut self) -> (res: Result<Part, FormatError>)
        requires
            old(self).wf(),
        ensures
            final(self).data@ == old(self).data@,
            final(self).wf(),
            match spec_parse_part(old(self).data@, old(self).pos as int) {
                Ok((v, j)) => res is Ok && res->Ok_0@ == v && final(self).pos == j,
                Err(e) => res == Err::<Part, FormatError>(e),
            },
    {
        let ghost s = self.data@;
        let at = self.pos;
        let name = match self.parse_string() {
            Ok(v) => v,
            Err(e) => {
                return Err(e);
            },
        };
        let ty = match PartType::from_name_bytes(name.as_slice()) {
            Some(t) => t,
            None => {
                return Err(FormatError { offset: at, kind: FormatErrorKind::UnknownPartName });
            },
        };
        let rat = self.pos;
        let one = match self.parse_byte() {
            Ok(v) => v,
            Err(e) => {
                return Err(e);
            },
        };
        if one != 1 {
            return Err(
                FormatError {
                    offset: rat,
                    kind: FormatErrorKind::InvalidReservedByte { actual: one },
                },
            );
        }
        let pos = match self.parse_i_hex_index() {
            Ok(v) => v,
            Err(e) => {
                return Err(e);
            },
        };
        let arm_length = match self.parse_int() {
            Ok(v) => v,
            Err(e) => {
                return Err(e);
            },
        };
        let rotation = match self.parse_int() {
            Ok(v) => v,
            Err(e) => {
                return Err(e);
            },
        };
        let index = match self.parse_int() {
            Ok(v) => v,
            Err(e) => {
                return Err(e);
            },
        };
        let ni = match self.parse_uint() {
            Ok(v) => v,
            Err(e) => {
                return Err(e);
            },
        };
        let ghost istart = self.pos as int;
        let mut instructions: Vec<(Instruction, i32)> = Vec::new();
        let mut k: u32 = 0;
        proof {
            if let Ok((vs, j)) = spec_parse_instr_entries(s, istart, ni as nat) {
                assert(instructions@ + vs =~= vs);
            }
        }
        while k < ni
            invariant
                self.wf(),
                self.data@ == s,
                k <= ni,
                spec_parse_instr_entries(s, istart, ni as nat) == (
                match spec_parse_instr_entries(s, self.pos as int, (ni - k) as nat) {
                    Ok((vs, j)) => Ok::<(Seq<(Instruction, i32)>, int), FormatError>(
                        (instructions@ + vs, j),
                    ),
                    Err(e) => Err::<(Seq<(Instruction, i32)>, int), FormatError>(e),
                }),
            decreases ni - k,
        {
            let ghost cur = self.pos as int;
            let entry = match self.parse_instr_entry() {
                Ok(v) => v,
                Err(e) => {
                    return Err(e);
                },
            };
            proof {
                if let Ok((v2, j2)) = spec_parse_instr_entry(s, cur) {
                    if let Ok((vs3, j3)) = spec_parse_instr_entries(s, j2, (ni - k - 1) as nat) {
                        assert(instructions@ + (seq![v2] + vs3) =~= instructions@.push(v2) + vs3);
                    }
                }
            }
            instructions.push(entry);
            k = k + 1;
        }
        proof {
            assert(instructions@ + Seq::<(Instruction, i32)>::empty() =~= instructions@);
        }
        let is_track = match ty {
            PartType::Track => true,
            _ => false,
        };
        let track_hexes: Vec<HexIndex> = if is_track {
            let nt = match self.parse_uint() {
                Ok(v) => v,
                Err(e) => {
                    return Err(e);
                },
            };
            match self.parse_i_hexes(nt) {
                Ok(v) => v,
                Err(e) => {
                    return Err(e);
                },
            }
        } else {
            Vec::new()
        };
        let is_conduit = match ty {
            PartType::Conduit => true,
            _ => false,
        };
        let mut conduit_index: i32 = 0;
        let conduit_hexes: Vec<HexIndex> = if is_conduit {
            conduit_index = match self.parse_int() {
                Ok(v) => v,
                Err(e) => {
                    return Err(e);
                },
            };
            let nc = match self.parse_uint() {
                Ok(v) => v,
                Err(e) => {
                    return Err(e);
                },
            };
            match self.parse_i_hexes(nc) {
                Ok(v) => v,
                Err(e) => {
                    return Err(e);
                },
            }
        } else {
            Vec::new()
        };
        let part = Part {
            ty,
            pos,
            rotation,
            arm_length,
            index,
            conduit_index,
            track_hexes,
            conduit_hexes,
            instructions,
        };
        Ok(part)
    }
}

/// Decode a puzzle record from a byte buffer.
pub fn parse_puzzle(data: &[u8]) -> (res: Result<Puzzle, FormatError>)
    ensures
        match spec_parse_puzzle(data@) {
            Ok(pv) => res is Ok && res->Ok_0@ == pv,
            Err(e) => res == Err::<Puzzle, FormatError>(e),
        },
{
    let ghost s = data@;
    let mut parser = BaseParser::new(data);
    let tag = match parser.parse_int() {
        Ok(v) => v,
        Err(e) => {
            return Err(e);
        },
    };
    if tag != 3 {
        return Err(FormatError { offset: 0, kind: FormatErrorKind::NotAPuzzle { actual: tag } });
    }
    let name = match parser.parse_string() {
        Ok(v) => v,
        Err(e) => {
            return Err(e);
        },
    };
    let creator_id = match parser.parse_long() {
        Ok(v) => v,
        Err(e) => {
            return Err(e);
        },
    };
    let permissions = match parser.parse_long() {
        Ok(v) => v,
        Err(e) => {
            return Err(e);
        },
    };
    let nr = match parser.parse_uint() {
        Ok(v) => v,
        Err(e) => {
            return Err(e);
        },
    };
    let reagents = match parser.parse_molecules(nr) {
        Ok(v) => v,
        Err(e) => {
            return Err(e);
        },
    };
    let np = match parser.parse_uint() {
        Ok(v) => v,
        Err(e) => {
            return Err(e);
        },
    };
    let products = match parser.parse_molecules(np) {
        Ok(v) => v,
        Err(e) => {
            return Err(e);
        },
    };
    let product_multiplier = match parser.parse_int() {
        Ok(v) => v,
        Err(e) => {
            return Err(e);
        },
    };
    Ok(
        Puzzle {
            name,
            creator_id,
            reagents,
            products,
            product_multiplier,
            permissions,
            production_info: None,
        },
    )
}

impl<'a> BaseParser<'a> {
    /// Read a list of molecules, given its count.
    #[verifier::loop_isolation(false)]
    pub fn parse_molecules(&mut self, n: u32) -> (res: Result<Vec<Molecule>, FormatError>)
        requires
            old(self).wf(),
        ensures
            final(self).data@ == old(self).data@,
            final(self).wf(),
            match spec_parse_molecules(old(self).data@, old(self).pos as int, n as nat) {
                Ok((v, j)) => res is Ok && crate::data::mol_views(res->Ok_0@) == v && final(self).pos == j,
                Err(e) => res == Err::<Vec<Molecule>, FormatError>(e),
            },
    {
        let ghost s = self.data@;
        let ghost start = self.pos as int;
        let mut mols: Vec<Molecule> = Vec::new();
        let mut k: u32 = 0;
        proof {
            if let Ok((vs, j)) = spec_parse_molecules(s, start, n as nat) {
                assert(crate::data::mol_views(mols@) + vs =~= vs);
            }
        }
        while k < n
            invariant
                self.wf(),
                self.data@ == s,
                k <= n,
                spec_parse_molecules(s, start, n as nat) == (
                match spec_parse_molecules(s, self.pos as int, (n - k) as nat) {
                    Ok((vs, j)) => Ok::<(Seq<MolView>, int), FormatError>(
                        (crate::data::mol_views(mols@) + vs, j),
                    ),
                    Err(e) => Err::<(Seq<MolView>, int), FormatError>(e),
                }),
            decreases n - k,
        {
            let ghost cur = self.pos as int;
            let mol = match self.parse_molecule() {
                Ok(v) => v,
                Err(e) => {
                    return Err(e);
                },
            };
            proof {
                if let Ok((v2, j2)) = spec_parse_molecule(s, cur) {
                    if let Ok((vs3, j3)) = spec_parse_molecules(s, j2, (n - k - 1) as nat) {
                        assert(crate::data::mol_views(mols@) + (seq![v2] + vs3) =~= crate::data::mol_views(mols@.push(mol)) + vs3) by {
                            assert(crate::data::mol_views(mols@.push(mol)) =~= crate::data::mol_views(mols@).push(mol@));
                        };
                    }
                }
            }
            mols.push(mol);
            k = k + 1;
        }
        proof {
            assert(crate::data::mol_views(mols@) + Seq::<MolView>::empty() =~= crate::data::mol_views(mols@));
        }
        Ok(mols)
    }

    /// Read a list of parts, given its count.
    #[verifier::loop_isolation(false)]
    pub fn parse_parts(&mut self, n: u32) -> (res: Result<Vec<Part>, FormatError>)
        requires
            old(self).wf(),
        ensures
            final(self).data@ == old(self).data@,
            final(self).wf(),
            match spec_parse_parts(old(self).data@, old(self).pos as int, n as nat) {
                Ok((v, j)) => res is Ok && crate::data::part_views(res->Ok_0@) == v && final(self).pos == j,
                Err(e) => res == Err::<Vec<Part>, FormatError>(e),
            },
    {
        let ghost s = self.data@;
        let ghost start = self.pos as int;
        let mut parts: Vec<Part> = Vec::new();
        let mut k: u32 = 0;
        proof {
            if let Ok((vs, j)) = spec_parse_parts(s, start, n as nat) {
                assert(crate::data::part_views(parts@) + vs =~= vs);
            }
        }
        while k < n
            invariant
                self.wf(),
                self.data@ == s,
                k <= n,
                spec_parse_parts(s, start, n as nat) == (
                match spec_parse_parts(s, self.pos as int, (n - k) as nat) {
                    Ok((vs, j)) => Ok::<(Seq<PartView>, int), FormatError>(
                        (crate::data::part_views(parts@) + vs, j),
                    ),
                    Err(e) => Err::<(Seq<PartView>, int), FormatError>(e),
                }),
            decreases n - k,
        {
            let ghost cur = self.pos as int;
            let part = match self.parse_part() {
                Ok(v) => v,
                Err(e) => {
                    return Err(e);
                },
            };
            proof {
                if let Ok((v2, j2)) = spec_parse_part(s, cur) {
                    if let Ok((vs3, j3)) = spec_parse_parts(s, j2, (n - k - 1) as nat) {
                        assert(crate::data::part_views(parts@) + (seq![v2] + vs3) =~= crate::data::part_views(parts@.push(part)) + vs3) by {
                            assert(crate::data::part_views(parts@.push(part)) =~= crate::data::part_views(parts@).push(part@));
                        };
                    }
                }
            }
            parts.push(part);
            k = k + 1;
        }
        proof {
            assert(crate::data::part_views(parts@) + Seq::<PartView>::empty() =~= crate::data::part_views(parts@));
        }
        Ok(parts)
    }
}

/// Decode a solution record from a byte buffer.
pub fn parse_solution(data: &[u8]) -> (res: Result<Solution, FormatError>)
    ensures
        match spec_parse_solution(data@) {
            Ok(sv) => res is Ok && res->Ok_0@ == sv,
            Err(e) => res == Err::<Solution, FormatError>(e),
        },
{
    let mut parser = BaseParser::new(data);
    let tag = match parser.parse_int() {
        Ok(v) => v,
        Err(e) => {
            return Err(e);
        },
    };
    if tag != 7 {
        return Err(FormatError { offset: 0, kind: FormatErrorKind::NotASolution { actual: tag } });
    }
    let puzzle_name = match parser.parse_string() {
        Ok(v) => v,
        Err(e) => {
            return Err(e);
        },
    };
    let name = match parser.parse_string() {
        Ok(v) => v,
        Err(e) => {
            return Err(e);
        },
    };
    let metrics = match parser.parse_metrics() {
        Ok(v) => v,
        Err(e) => {
            return Err(e);
        },
    };
    let np = match parser.parse_uint() {
        Ok(v) => v,
        Err(e) => {
            return Err(e);
        },
    };
    let parts = match parser.parse_parts(np) {
        Ok(v) => v,
        Err(e) => {
            return Err(e);
        },
    };
    Ok(Solution { name, puzzle_name, metrics, parts })
}

} // verus!
