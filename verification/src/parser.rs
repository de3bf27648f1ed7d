//! Reading a model from the text of a structure file.
//!
//! The patterns find the atom blocks and the lattice vectors; what they
//! capture is turned into atoms and vectors here.

use vstd::prelude::*;
use vstd::string::*;
use crate::atom::{Atom, AtomView, Point3, PointView};
use crate::bindings::{
    regex_all_captures, regex_captures, regex_captures_iter, regex_first_captures,
};
use crate::decimal::{is_real_literal, Decimal};
use crate::lattice::{
    atom_views, ids_from_one, unique_ids, Lattice, LatticeView, Matrix3, MatrixView,
};
use crate::text::{parse_unsigned, parse_unsigned_str};

verus! {

/// Why a text is not read as a model.
#[derive(Debug, Clone, Copy, PartialEq, Eq, Structural)]
pub enum ParseError {
    /// A pattern was not accepted.
    Pattern,
    /// The text holds no atom block: it is not a structure file.
    NoAtomBlock,
    /// The atom block with this index, counted from zero, holds a number
    /// that cannot be read.
    MalformedAtom { block: usize },
    /// The text holds no block of three lattice vectors.
    NoLatticeVectors,
    /// The lattice vector with this index (0 for a, 1 for b, 2 for c) holds
    /// fewer than three numbers.
    MalformedVector { vector: usize },
    /// Two atoms carry the same identifier.
    DuplicateAtomId,
}

/// The pattern of an atom block. It captures the atomic number, the symbol,
/// the three coordinates and the identifier. A line may end in a carriage
/// return before its line feed.
pub const ATOM_PATTERN: &'static str =
    "ACL \"([0-9]+) ([a-zA-Z]+).*\n.*Label \".*\n.*XYZ \\(([0-9.e-]+) ([0-9.e-]+) ([0-9.e-]+).*\n.*Id ([0-9]+)";

/// The pattern of the three lattice vectors. It captures what stands in the
/// brackets of each. A line may end in a carriage return before its line feed.
pub const LATTICE_PATTERN: &'static str =
    ".*A3 \\(([0-9e. -]+)\\)\\)\r?\n.*B3 \\(([0-9e. -]+)\\)\\)\r?\n.*C3 \\(([0-9e. -]+)\\)\\)";

/// The identifiers of the sites that a model read from a file designates
/// for substitution.
pub const DEFAULT_SITES: [u32; 3] = [73, 74, 75];

/// The group `i` of `groups`, if there is one and it took part in the match.
pub open spec fn group(groups: Seq<Option<Seq<char>>>, i: int) -> Option<Seq<char>> {
    if 0 <= i < groups.len() {
        groups[i]
    } else {
        None
    }
}

/// The atom that the groups of one match describe: group 1 is the atomic
/// number, group 2 the symbol, groups 3 to 5 the coordinates and group 6 the
/// identifier. There is none if a group is missing, if a number is not
/// written in digits or is above 255, if the identifier is zero, or if a
/// coordinate is no real literal.
pub open spec fn atom_of(groups: Seq<Option<Seq<char>>>) -> Option<AtomView> {
    match (
        group(groups, 1),
        group(groups, 2),
        group(groups, 3),
        group(groups, 4),
        group(groups, 5),
        group(groups, 6),
    ) {
        (Some(number), Some(symbol), Some(x), Some(y), Some(z), Some(id)) => {
            match (parse_unsigned(number, 255), parse_unsigned(id, 255)) {
                (Some(element_id), Some(atom_id)) => {
                    if atom_id >= 1 && is_real_literal(x) && is_real_literal(y) && is_real_literal(
                        z,
                    ) {
                        Some(
                            AtomView {
                                element_name: symbol,
                                element_id: element_id as u8,
                                xyz: PointView { x, y, z },
                                atom_id: atom_id as u8,
                            },
                        )
                    } else {
                        None
                    }
                },
                _ => None,
            }
        },
        _ => None,
    }
}

/// The atoms that the first `count` matches describe, in the order of the
/// matches, or the first match among them that describes none.
pub open spec fn atoms_of_prefix(captures: Seq<Seq<Option<Seq<char>>>>, count: int) -> Result<
    Seq<AtomView>,
    ParseError,
>
    decreases count,
{
    if count <= 0 {
        Ok(Seq::empty())
    } else {
        match atoms_of_prefix(captures, count - 1) {
            Err(e) => Err(e),
            Ok(atoms) => match atom_of(captures[count - 1]) {
                Some(atom) => Ok(atoms.push(atom)),
                None => Err(ParseError::MalformedAtom { block: (count - 1) as usize }),
            },
        }
    }
}

/// The atoms that the matches of the atom pattern describe. Without a match
/// the text is no structure file.
pub open spec fn atoms_of(captures: Seq<Seq<Option<Seq<char>>>>) -> Result<
    Seq<AtomView>,
    ParseError,
> {
    if captures.len() == 0 {
        Err(ParseError::NoAtomBlock)
    } else {
        atoms_of_prefix(captures, captures.len() as int)
    }
}

/// The atoms in `text`, in the order in which their blocks stand.
pub open spec fn parsed_atoms(text: Seq<char>) -> Result<Seq<AtomView>, ParseError> {
    match regex_all_captures(ATOM_PATTERN@, text) {
        None => Err(ParseError::Pattern),
        Some(captures) => atoms_of(captures),
    }
}

/// Whether `c` is white space.
pub open spec fn is_space(c: char) -> bool {
    ||| ('\u{9}' <= c && c <= '\u{d}')
    ||| c == ' '
    ||| c == '\u{85}'
    ||| c == '\u{a0}'
    ||| c == '\u{1680}'
    ||| ('\u{2000}' <= c && c <= '\u{200a}')
    ||| c == '\u{2028}'
    ||| c == '\u{2029}'
    ||| c == '\u{202f}'
    ||| c == '\u{205f}'
    ||| c == '\u{3000}'
}

/// The index just behind the word of `s` that starts at `from`.
pub open spec fn word_end(s: Seq<char>, from: int) -> int
    decreases s.len() - from,
{
    if 0 <= from < s.len() && !is_space(s[from]) {
        word_end(s, from + 1)
    } else {
        from
    }
}

/// The words of `s` from `from` on that are real literals, in their order.
/// Words are divided by white space; a word that is no real literal is
/// passed over.
pub open spec fn real_words(s: Seq<char>, from: int) -> Seq<Seq<char>>
    decreases s.len() - from,
    via real_words_decreases
{
    if from < 0 || from >= s.len() {
        Seq::empty()
    } else if is_space(s[from]) {
        real_words(s, from + 1)
    } else {
        let end = word_end(s, from);
        let word = s.subrange(from, end);
        if is_real_literal(word) {
            seq![word] + real_words(s, end)
        } else {
            real_words(s, end)
        }
    }
}

#[via_fn]
proof fn real_words_decreases(s: Seq<char>, from: int) {
    if 0 <= from < s.len() && !is_space(s[from]) {
        lemma_word_end_bounds(s, from + 1);
    }
}

/// A word ends at or behind its start and within the text.
pub proof fn lemma_word_end_bounds(s: Seq<char>, from: int)
    requires
        0 <= from <= s.len(),
    ensures
        from <= word_end(s, from) <= s.len(),
    decreases s.len() - from,
{
    if from < s.len() && !is_space(s[from]) {
        lemma_word_end_bounds(s, from + 1);
    }
}

/// The atoms that matches describe carry identifiers from one on.
proof fn lemma_atoms_of_prefix_ids(captures: Seq<Seq<Option<Seq<char>>>>, count: int)
    requires
        0 <= count,
    ensures
        atoms_of_prefix(captures, count) matches Ok(atoms) ==> ids_from_one(atoms),
    decreases count,
{
    if count > 0 {
        lemma_atoms_of_prefix_ids(captures, count - 1);
    }
}

/// Once a match describes no atom, no longer run of matches gives atoms.
proof fn lemma_atoms_of_prefix_fails(
    captures: Seq<Seq<Option<Seq<char>>>>,
    count: int,
    more: int,
)
    requires
        0 <= count <= more,
        atoms_of_prefix(captures, count) is Err,
    ensures
        atoms_of_prefix(captures, more) == atoms_of_prefix(captures, count),
    decreases more - count,
{
    if count < more {
        lemma_atoms_of_prefix_fails(captures, count, more - 1);
    }
}

/// The vector that `s` writes: its first three words that are real
/// literals. There is none if `s` holds fewer than three.
pub open spec fn vector_of(s: Seq<char>) -> Option<PointView> {
    let words = real_words(s, 0);
    if words.len() >= 3 {
        Some(PointView { x: words[0], y: words[1], z: words[2] })
    } else {
        None
    }
}

/// The lattice vectors that the groups of the match describe: group 1 is a,
/// group 2 is b, group 3 is c.
pub open spec fn vectors_of(groups: Seq<Option<Seq<char>>>) -> Result<MatrixView, ParseError> {
    match group(groups, 1) {
        Some(a) if vector_of(a) is Some => match group(groups, 2) {
            Some(b) if vector_of(b) is Some => match group(groups, 3) {
                Some(c) if vector_of(c) is Some => Ok(
                    MatrixView {
                        a: vector_of(a).unwrap(),
                        b: vector_of(b).unwrap(),
                        c: vector_of(c).unwrap(),
                    },
                ),
                _ => Err(ParseError::MalformedVector { vector: 2 }),
            },
            _ => Err(ParseError::MalformedVector { vector: 1 }),
        },
        _ => Err(ParseError::MalformedVector { vector: 0 }),
    }
}

/// The lattice vectors in `text`.
pub open spec fn parsed_vectors(text: Seq<char>) -> Result<MatrixView, ParseError> {
    match regex_first_captures(LATTICE_PATTERN@, text) {
        None => Err(ParseError::Pattern),
        Some(None) => Err(ParseError::NoLatticeVectors),
        Some(Some(groups)) => vectors_of(groups),
    }
}

/// The model named `name` that `text` describes: its atoms, its lattice
/// vectors, the default sites, no adsorbate, not sorted.
pub open spec fn parsed_lattice(name: Seq<char>, text: Seq<char>) -> Result<
    LatticeView,
    ParseError,
> {
    match parsed_atoms(text) {
        Err(e) => Err(e),
        Ok(atoms) => match parsed_vectors(text) {
            Err(e) => Err(e),
            Ok(vectors) => if unique_ids(atoms) {
                Ok(
                    LatticeView {
                        lattice_name: name,
                        atoms: atoms,
                        lattice_vectors: vectors,
                        metal_sites: DEFAULT_SITES@,
                        adsorbate: None,
                        sorted: false,
                    },
                )
            } else {
                Err(ParseError::DuplicateAtomId)
            },
        },
    }
}

/// The group `i` of a match, if it took part.
fn group_at(groups: &Vec<Option<String>>, i: usize) -> (r: Option<&str>)
    ensures
        match r {
            Some(s) => group(groups.deep_view(), i as int) == Some(s@),
            None => group(groups.deep_view(), i as int) is None,
        },
{
    if i < groups.len() {
        match &groups[i] {
            Some(s) => Some(s.as_str()),
            None => None,
        }
    } else {
        None
    }
}

/// Makes the atom that the groups of one match describe.
pub fn atom_from_groups(groups: &Vec<Option<String>>) -> (r: Option<Atom>)
    ensures
        match r {
            Some(atom) => atom_of(groups.deep_view()) == Some(atom@),
            None => atom_of(groups.deep_view()) is None,
        },
{
    let (number, symbol, x, y, z, id) = match (
        group_at(groups, 1),
        group_at(groups, 2),
        group_at(groups, 3),
        group_at(groups, 4),
        group_at(groups, 5),
        group_at(groups, 6),
    ) {
        (Some(number), Some(symbol), Some(x), Some(y), Some(z), Some(id)) => (
            number,
            symbol,
            x,
            y,
            z,
            id,
        ),
        _ => { return None; },
    };
    let element_id = match parse_unsigned_str(number, 255) {
        Some(v) => v as u8,
        None => { return None; },
    };
    let atom_id = match parse_unsigned_str(id, 255) {
        Some(v) => v as u8,
        None => { return None; },
    };
    if atom_id == 0 {
        return None;
    }
    match (Decimal::parse(x), Decimal::parse(y), Decimal::parse(z)) {
        (Some(x), Some(y), Some(z)) => Some(
            Atom::new(String::from_str(symbol), element_id, Point3::new(x, y, z), atom_id),
        ),
        _ => None,
    }
}

/// Makes the atoms that the matches of the atom pattern describe.
pub fn atoms_from_captures(captures: &Vec<Vec<Option<String>>>) -> (r: Result<
    Vec<Atom>,
    ParseError,
>)
    ensures
        match r {
            Ok(atoms) => atoms_of(captures.deep_view()) == Ok::<Seq<AtomView>, ParseError>(
                atom_views(atoms@),
            ),
            Err(e) => atoms_of(captures.deep_view()) == Err::<Seq<AtomView>, ParseError>(e),
        },
{
    if captures.len() == 0 {
        return Err(ParseError::NoAtomBlock);
    }
    let ghost all = captures.deep_view();
    let mut atoms: Vec<Atom> = Vec::new();
    let mut i: usize = 0;
    assert(atom_views(atoms@) =~= Seq::<AtomView>::empty());
    while i < captures.len()
        invariant
            all == captures.deep_view(),
            i <= captures@.len(),
            atoms_of_prefix(all, i as int) == Ok::<Seq<AtomView>, ParseError>(atom_views(atoms@)),
        decreases captures@.len() - i,
    {
        assert(all[i as int] == captures@[i as int].deep_view());
        match atom_from_groups(&captures[i]) {
            Some(atom) => {
                proof {
                    assert(atom_views(atoms@.push(atom)) =~= atom_views(atoms@).push(atom@));
                }
                atoms.push(atom);
            },
            None => {
                proof {
                    lemma_atoms_of_prefix_fails(all, i + 1, all.len() as int);
                }
                return Err(ParseError::MalformedAtom { block: i });
            },
        }
        i = i + 1;
    }
    Ok(atoms)
}

/// Reads the atoms of a structure file, in the order in which their blocks
/// stand. Fails with `NoAtomBlock` if the text holds no atom block, and with
/// `MalformedAtom` for the first block whose numbers cannot be read.
pub fn parse_atom(text: &str) -> (r: Result<Vec<Atom>, ParseError>)
    ensures
        match r {
            Ok(atoms) => parsed_atoms(text@) == Ok::<Seq<AtomView>, ParseError>(
                atom_views(atoms@),
            ),
            Err(e) => parsed_atoms(text@) == Err::<Seq<AtomView>, ParseError>(e),
        },
{
    match regex_captures_iter(ATOM_PATTERN, text) {
        None => Err(ParseError::Pattern),
        Some(captures) => atoms_from_captures(&captures),
    }
}

/// Decides whether `c` is white space.
fn is_space_char(c: char) -> (r: bool)
    ensures
        r == is_space(c),
{
    ('\u{9}' <= c && c <= '\u{d}') || c == ' ' || c == '\u{85}' || c == '\u{a0}' || c
        == '\u{1680}' || ('\u{2000}' <= c && c <= '\u{200a}') || c == '\u{2028}' || c
        == '\u{2029}' || c == '\u{202f}' || c == '\u{205f}' || c == '\u{3000}'
}

/// Reads the vector that `s` writes.
pub fn vector_from_text(s: &str) -> (r: Option<Point3>)
    ensures
        match r {
            Some(v) => vector_of(s@) == Some(v@),
            None => vector_of(s@) is None,
        },
{
    let len = s.unicode_len();
    let mut found: Vec<Decimal> = Vec::new();
    let mut i: usize = 0;
    while i < len
        invariant
            len == s@.len(),
            i <= len,
            real_words(s@, 0) == Seq::new(found@.len(), |k: int| found@[k]@) + real_words(
                s@,
                i as int,
            ),
        decreases len - i,
    {
        if is_space_char(s.get_char(i)) {
            i = i + 1;
        } else {
            let start = i;
            let mut end = i + 1;
            while end < len && !is_space_char(s.get_char(end))
                invariant
                    len == s@.len(),
                    start < end <= len,
                    word_end(s@, start as int) == word_end(s@, end as int),
                decreases len - end,
            {
                end = end + 1;
            }
            let word = s.substring_char(start, end);
            let ghost before = Seq::new(found@.len(), |k: int| found@[k]@);
            match Decimal::parse(word) {
                Some(d) => {
                    found.push(d);
                    assert(Seq::new(found@.len(), |k: int| found@[k]@) =~= before + seq![word@]);
                },
                None => {},
            }
            i = end;
        }
    }
    assert(real_words(s@, 0) =~= Seq::new(found@.len(), |k: int| found@[k]@));
    if found.len() >= 3 {
        Some(Point3::new(found[0].clone(), found[1].clone(), found[2].clone()))
    } else {
        None
    }
}

/// Makes the lattice vectors that the groups of the match describe.
pub fn vectors_from_groups(groups: &Vec<Option<String>>) -> (r: Result<Matrix3, ParseError>)
    ensures
        match r {
            Ok(m) => vectors_of(groups.deep_view()) == Ok::<MatrixView, ParseError>(m@),
            Err(e) => vectors_of(groups.deep_view()) == Err::<MatrixView, ParseError>(e),
        },
{
    let a = match group_at(groups, 1) {
        Some(s) => match vector_from_text(s) {
            Some(v) => v,
            None => { return Err(ParseError::MalformedVector { vector: 0 }); },
        },
        None => { return Err(ParseError::MalformedVector { vector: 0 }); },
    };
    let b = match group_at(groups, 2) {
        Some(s) => match vector_from_text(s) {
            Some(v) => v,
            None => { return Err(ParseError::MalformedVector { vector: 1 }); },
        },
        None => { return Err(ParseError::MalformedVector { vector: 1 }); },
    };
    let c = match group_at(groups, 3) {
        Some(s) => match vector_from_text(s) {
            Some(v) => v,
            None => { return Err(ParseError::MalformedVector { vector: 2 }); },
        },
        None => { return Err(ParseError::MalformedVector { vector: 2 }); },
    };
    Ok(Matrix3::from_columns(a, b, c))
}

/// Reads the three lattice vectors of a structure file. Fails with
/// `NoLatticeVectors` if the text holds no block of them, and with
/// `MalformedVector` for the first vector with fewer than three numbers.
pub fn parse_lattice_vectors(text: &str) -> (r: Result<Matrix3, ParseError>)
    ensures
        match r {
            Ok(m) => parsed_vectors(text@) == Ok::<MatrixView, ParseError>(m@),
            Err(e) => parsed_vectors(text@) == Err::<MatrixView, ParseError>(e),
        },
{
    match regex_captures(LATTICE_PATTERN, text) {
        None => Err(ParseError::Pattern),
        Some(None) => Err(ParseError::NoLatticeVectors),
        Some(Some(groups)) => vectors_from_groups(&groups),
    }
}

/// Makes the model named `name` of the atoms and lattice vectors read from a
/// structure file: the default sites, no adsorbate, not sorted. Fails with
/// `DuplicateAtomId` if two atoms carry the same identifier.
fn lattice_from_parts(name: &str, atoms: Vec<Atom>, vectors: Matrix3) -> (r: Result<
    Lattice,
    ParseError,
>)
    requires
        ids_from_one(atom_views(atoms@)),
    ensures
        match r {
            Ok(lattice) => {
                &&& lattice.wf()
                &&& unique_ids(atom_views(atoms@))
                &&& lattice@ == (LatticeView {
                    lattice_name: name@,
                    atoms: atom_views(atoms@),
                    lattice_vectors: vectors@,
                    metal_sites: DEFAULT_SITES@,
                    adsorbate: None,
                    sorted: false,
                })
            },
            Err(e) => e == ParseError::DuplicateAtomId && !unique_ids(atom_views(atoms@)),
        },
{
    let mut sites: Vec<u32> = Vec::new();
    sites.push(DEFAULT_SITES[0]);
    sites.push(DEFAULT_SITES[1]);
    sites.push(DEFAULT_SITES[2]);
    assert(sites@ =~= DEFAULT_SITES@);
    match Lattice::new(String::from_str(name), atoms, vectors, sites, None, false) {
        Ok(lattice) => Ok(lattice),
        Err(_) => Err(ParseError::DuplicateAtomId),
    }
}

/// Reads the model named `name` from the text of a structure file.
pub fn parse_lattice(name: &str, text: &str) -> (r: Result<Lattice, ParseError>)
    ensures
        match r {
            Ok(lattice) => lattice.wf() && parsed_lattice(name@, text@) == Ok::<
                LatticeView,
                ParseError,
            >(lattice@),
            Err(e) => parsed_lattice(name@, text@) == Err::<LatticeView, ParseError>(e),
        },
{
    let atoms = match parse_atom(text) {
        Ok(atoms) => atoms,
        Err(e) => { return Err(e); },
    };
    proof {
        if let Some(captures) = regex_all_captures(ATOM_PATTERN@, text@) {
            lemma_atoms_of_prefix_ids(captures, captures.len() as int);
        }
    }
    let vectors = match parse_lattice_vectors(text) {
        Ok(vectors) => vectors,
        Err(e) => { return Err(e); },
    };
    lattice_from_parts(name, atoms, vectors)
}

} // verus!
