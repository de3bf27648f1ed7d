//! The geometry file of a model: lattice vectors, fractional positions and
//! the blocks that describe the species.

use vstd::prelude::*;
use vstd::string::*;
use crate::atom::{point_is_fixed, Atom, AtomView, Point3, PointView};
use crate::element_table::{Element, ElementTable, ElementView};
use crate::lattice::{
    atom_views, element_number, is_element_list, lattice_cart_rows, matrix_is_fixed, point_views,
    sorted_by_element, Lattice, LatticeView, LATTICE_PLACES,
};
use crate::text::{decimal, decimal_string, pad_left, pad_left_string};

verus! {

/// Why the text of a seed file cannot be written.
#[derive(Debug, Clone, Copy, PartialEq, Eq, Structural)]
pub enum ExportError {
    /// The atoms have not been sorted by element.
    NotSorted,
    /// The number of fractional positions differs from the number of atoms.
    PositionCount,
    /// The table of properties has no entry for the symbol of an atom.
    Lookup,
    /// A number is not written with the digits behind the point that the
    /// file format asks for.
    Precision,
    /// The symbol of an atom is that of no element.
    UnknownElement,
}

/// A lattice that is being written as a geometry file.
///
/// Before a cell is written, its lattice is turned so that the vector a lies
/// along the first axis; the caller does that, and computes the fractional
/// positions of the atoms that the functions here take.
#[derive(Debug)]
pub struct Cell {
    lattice: Lattice,
    sorted: bool,
}

/// How many digits behind the point a fractional coordinate is written with.
pub const FRACTIONAL_PLACES: usize = 16;

/// The width of the field of a fractional coordinate.
pub const FRACTIONAL_WIDTH: usize = 20;

/// How many digits behind the point a mass is written with.
pub const MASS_PLACES: usize = 10;

/// The width of the field of a mass.
pub const MASS_WIDTH: usize = 17;

/// A block of a geometry file: the opening line with the name, the content,
/// the closing line with the name, and an empty line.
pub open spec fn block_text(name: Seq<char>, content: Seq<char>) -> Seq<char> {
    "%BLOCK "@ + name + "\n"@ + content + "%ENDBLOCK "@ + name + "\n\n"@
}

/// The spin of an atom as the positions block writes it: with ten zeros
/// behind the point, right-aligned in 14 columns.
pub open spec fn spin_text(spin: u8) -> Seq<char> {
    pad_left(decimal(spin as nat) + ".0000000000"@, 14)
}

/// The line of one atom in the positions block: the symbol right-aligned in
/// 3 columns, the three fractional coordinates in 20 columns each, and the
/// spin if it is not zero.
pub open spec fn position_row(name: Seq<char>, at: PointView, spin: u8) -> Seq<char> {
    pad_left(name, 3) + pad_left(at.x, FRACTIONAL_WIDTH as nat) + pad_left(
        at.y,
        FRACTIONAL_WIDTH as nat,
    ) + pad_left(at.z, FRACTIONAL_WIDTH as nat) + (if spin > 0 {
        " SPIN="@ + spin_text(spin)
    } else {
        Seq::empty()
    }) + "\n"@
}

/// The line of the atom `atom` at the fractional position `at`, or why it
/// cannot be written: `Lookup` if the table has no entry for its symbol, else
/// `Precision` unless the coordinates have sixteen digits behind the point.
pub open spec fn position_line(
    atom: AtomView,
    at: PointView,
    table: Map<Seq<char>, ElementView>,
) -> Result<Seq<char>, ExportError> {
    if !table.contains_key(atom.element_name) {
        Err(ExportError::Lookup)
    } else if !point_is_fixed(at, FRACTIONAL_PLACES as nat) {
        Err(ExportError::Precision)
    } else {
        Ok(position_row(atom.element_name, at, table[atom.element_name].spin))
    }
}

/// The lines of the first `count` atoms in the positions block, or the
/// reason why the first line that cannot be written cannot.
pub open spec fn position_lines(
    atoms: Seq<AtomView>,
    fractional: Seq<PointView>,
    table: Map<Seq<char>, ElementView>,
    count: int,
) -> Result<Seq<char>, ExportError>
    decreases count,
{
    if count <= 0 {
        Ok(Seq::empty())
    } else {
        match position_lines(atoms, fractional, table, count - 1) {
            Err(e) => Err(e),
            Ok(lines) => match position_line(atoms[count - 1], fractional[count - 1], table) {
                Err(e) => Err(e),
                Ok(line) => Ok(lines + line),
            },
        }
    }
}

/// The content of the positions block of a cell, or why it cannot be
/// written: `NotSorted` if the atoms are not sorted by element, else
/// `PositionCount` unless there is one fractional position for each atom,
/// else what the first line that cannot be written fails with.
pub open spec fn positions_content(
    sorted: bool,
    atoms: Seq<AtomView>,
    fractional: Seq<PointView>,
    table: Map<Seq<char>, ElementView>,
) -> Result<Seq<char>, ExportError> {
    if !sorted {
        Err(ExportError::NotSorted)
    } else if fractional.len() != atoms.len() {
        Err(ExportError::PositionCount)
    } else {
        position_lines(atoms, fractional, table, atoms.len() as int)
    }
}

/// The k-point block: one point at the origin with the weight one.
pub const KPOINTS_CONTENT: &'static str =
    "   0.0000000000000000   0.0000000000000000   0.0000000000000000       1.000000000000000\n";

/// The options that stand in front of the constraints block.
pub const CELL_OPTIONS: &'static str = "FIX_ALL_CELL : true\n\nFIX_COM : false\n";

/// The content of the block of the electric field: none.
pub const EFIELD_CONTENT: &'static str = "    0.0000000000     0.0000000000     0.0000000000\n";

/// The content of the block of the pressure: none.
pub const PRESSURE_CONTENT: &'static str =
    "    0.0000000000    0.0000000000    0.0000000000\n                    0.0000000000    0.0000000000\n                                    0.0000000000\n";

/// The part of a geometry file between the k-points and the species: the
/// options, an empty constraints block, the electric field and the pressure.
pub open spec fn misc_text() -> Seq<char> {
    CELL_OPTIONS@ + block_text("IONIC_CONSTRAINTS"@, Seq::empty()) + block_text(
        "EXTERNAL_EFIELD"@,
        EFIELD_CONTENT@,
    ) + block_text("EXTERNAL_PRESSURE"@, PRESSURE_CONTENT@)
}

/// Which of the three blocks on the species a line belongs to.
#[derive(Debug, Clone, Copy, PartialEq, Eq, Structural)]
pub enum SpeciesBlock {
    Mass,
    Potential,
    LcaoStates,
}

/// The line of the element `e` in a block on the species. Each starts with
/// the symbol right-aligned in 8 columns. Then comes the mass in 17 columns,
/// or two spaces and the name of the pseudopotential file, or the number of
/// states in 9 columns.
pub open spec fn species_row(block: SpeciesBlock, e: ElementView) -> Seq<char> {
    match block {
        SpeciesBlock::Mass => pad_left(e.element, 8) + pad_left(e.mass, MASS_WIDTH as nat)
            + "\n"@,
        SpeciesBlock::Potential => pad_left(e.element, 8) + "  "@ + e.pot + "\n"@,
        SpeciesBlock::LcaoStates => pad_left(e.element, 8) + pad_left(decimal(e.lcao as nat), 9)
            + "\n"@,
    }
}

/// The line of the element with the symbol `name`, or why it cannot be
/// written: `Lookup` if the table has no entry for the symbol, else, for a
/// mass, `Precision` unless it has ten digits behind the point.
pub open spec fn species_line(
    block: SpeciesBlock,
    name: Seq<char>,
    table: Map<Seq<char>, ElementView>,
) -> Result<Seq<char>, ExportError> {
    if !table.contains_key(name) {
        Err(ExportError::Lookup)
    } else if block == SpeciesBlock::Mass && !crate::decimal::is_fixed(
        table[name].mass,
        MASS_PLACES as nat,
    ) {
        Err(ExportError::Precision)
    } else {
        Ok(species_row(block, table[name]))
    }
}

/// The lines of the first `count` elements of `list` in a block on the
/// species, or the reason why the first line that cannot be written cannot.
pub open spec fn species_lines(
    block: SpeciesBlock,
    list: Seq<Seq<char>>,
    table: Map<Seq<char>, ElementView>,
    count: int,
) -> Result<Seq<char>, ExportError>
    decreases count,
{
    if count <= 0 {
        Ok(Seq::empty())
    } else {
        match species_lines(block, list, table, count - 1) {
            Err(e) => Err(e),
            Ok(lines) => match species_line(block, list[count - 1], table) {
                Err(e) => Err(e),
                Ok(line) => Ok(lines + line),
            },
        }
    }
}

/// The content of a block on the species for the elements `list`.
pub open spec fn species_content(
    block: SpeciesBlock,
    list: Seq<Seq<char>>,
    table: Map<Seq<char>, ElementView>,
) -> Result<Seq<char>, ExportError> {
    species_lines(block, list, table, list.len() as int)
}

/// The content of the block of lattice vectors, or `Precision` unless the
/// nine numbers have eighteen digits behind the point.
pub open spec fn lattice_content(lattice: LatticeView) -> Result<Seq<char>, ExportError> {
    if matrix_is_fixed(lattice.lattice_vectors, LATTICE_PLACES as nat) {
        Ok(lattice_cart_rows(lattice.lattice_vectors))
    } else {
        Err(ExportError::Precision)
    }
}

/// The geometry file of a cell whose elements are `list`: the blocks of the
/// lattice vectors, of the fractional positions and of the k-points, the
/// fixed part, and the blocks of the masses, the pseudopotentials and the
/// states of the species. If a block cannot be written, the reason of the
/// first such block.
pub open spec fn cell_text(
    sorted: bool,
    lattice: LatticeView,
    fractional: Seq<PointView>,
    table: Map<Seq<char>, ElementView>,
    list: Seq<Seq<char>>,
) -> Result<Seq<char>, ExportError> {
    match (
        lattice_content(lattice),
        positions_content(sorted, lattice.atoms, fractional, table),
        species_content(SpeciesBlock::Mass, list, table),
        species_content(SpeciesBlock::Potential, list, table),
        species_content(SpeciesBlock::LcaoStates, list, table),
    ) {
        (Err(e), _, _, _, _) => Err(e),
        (_, Err(e), _, _, _) => Err(e),
        (_, _, Err(e), _, _) => Err(e),
        (_, _, _, Err(e), _) => Err(e),
        (_, _, _, _, Err(e)) => Err(e),
        (Ok(vectors), Ok(positions), Ok(mass), Ok(pot), Ok(lcao)) => Ok(
            block_text("LATTICE_CART"@, vectors) + block_text("POSITIONS_FRAC"@, positions)
                + block_text("KPOINTS_LIST"@, KPOINTS_CONTENT@) + misc_text() + block_text(
                "SPECIES_MASS"@,
                mass,
            ) + block_text("SPECIES_POT"@, pot) + block_text("SPECIES_LCAO_STATES"@, lcao),
        ),
    }
}

/// Once a line cannot be written, no longer run of lines can.
proof fn lemma_position_lines_fail(
    atoms: Seq<AtomView>,
    fractional: Seq<PointView>,
    table: Map<Seq<char>, ElementView>,
    count: int,
    more: int,
)
    requires
        0 <= count <= more,
        position_lines(atoms, fractional, table, count) is Err,
    ensures
        position_lines(atoms, fractional, table, more) == position_lines(
            atoms,
            fractional,
            table,
            count,
        ),
    decreases more - count,
{
    if count < more {
        lemma_position_lines_fail(atoms, fractional, table, count, more - 1);
    }
}

/// Once a line cannot be written, no longer run of lines can.
proof fn lemma_species_lines_fail(
    block: SpeciesBlock,
    list: Seq<Seq<char>>,
    table: Map<Seq<char>, ElementView>,
    count: int,
    more: int,
)
    requires
        0 <= count <= more,
        species_lines(block, list, table, count) is Err,
    ensures
        species_lines(block, list, table, more) == species_lines(block, list, table, count),
    decreases more - count,
{
    if count < more {
        lemma_species_lines_fail(block, list, table, count, more - 1);
    }
}

/// The positions block fails only for want of an entry or of digits.
pub proof fn lemma_position_lines_errors(
    atoms: Seq<AtomView>,
    fractional: Seq<PointView>,
    table: Map<Seq<char>, ElementView>,
    count: int,
)
    ensures
        position_lines(atoms, fractional, table, count) matches Err(e) ==> e == ExportError::Lookup
            || e == ExportError::Precision,
    decreases count,
{
    if count > 0 {
        lemma_position_lines_errors(atoms, fractional, table, count - 1);
    }
}

/// A block on the species fails only for want of an entry or of digits.
pub proof fn lemma_species_lines_errors(
    block: SpeciesBlock,
    list: Seq<Seq<char>>,
    table: Map<Seq<char>, ElementView>,
    count: int,
)
    ensures
        species_lines(block, list, table, count) matches Err(e) ==> e == ExportError::Lookup || e
            == ExportError::Precision,
    decreases count,
{
    if count > 0 {
        lemma_species_lines_errors(block, list, table, count - 1);
    }
}

/// A geometry file whose elements are listed never fails with
/// `UnknownElement`.
pub proof fn lemma_cell_text_errors(
    sorted: bool,
    lattice: LatticeView,
    fractional: Seq<PointView>,
    table: Map<Seq<char>, ElementView>,
    list: Seq<Seq<char>>,
)
    ensures
        cell_text(sorted, lattice, fractional, table, list) != Err::<Seq<char>, ExportError>(
            ExportError::UnknownElement,
        ),
{
    lemma_position_lines_errors(lattice.atoms, fractional, table, lattice.atoms.len() as int);
    lemma_species_lines_errors(SpeciesBlock::Mass, list, table, list.len() as int);
    lemma_species_lines_errors(SpeciesBlock::Potential, list, table, list.len() as int);
    lemma_species_lines_errors(SpeciesBlock::LcaoStates, list, table, list.len() as int);
}

/// Writes `s` right-aligned in `width` columns behind `out`.
fn append_padded(out: &mut String, s: &str, width: usize)
    ensures
        final(out)@ == old(out)@ + pad_left(s@, width as nat),
{
    out.append(pad_left_string(s, width).as_str());
}

/// Writes a block of a geometry file.
pub fn write_block(block: (String, String)) -> (r: String)
    ensures
        r@ == block_text(block.0@, block.1@),
{
    let (block_name, content) = block;
    let mut out = String::from_str("%BLOCK ");
    out.append(block_name.as_str());
    out.append("\n");
    out.append(content.as_str());
    out.append("%ENDBLOCK ");
    out.append(block_name.as_str());
    out.append("\n\n");
    out
}

/// Writes the line of one atom in the positions block.
pub fn position_row_string(name: &str, at: &Point3, spin: u8) -> (r: String)
    ensures
        r@ == position_row(name@, at@, spin),
{
    let mut out = String::new();
    append_padded(&mut out, name, 3);
    append_padded(&mut out, at.x.as_str(), FRACTIONAL_WIDTH);
    append_padded(&mut out, at.y.as_str(), FRACTIONAL_WIDTH);
    append_padded(&mut out, at.z.as_str(), FRACTIONAL_WIDTH);
    if spin > 0 {
        out.append(" SPIN=");
        let mut number = decimal_string(spin as u64);
        number.append(".0000000000");
        append_padded(&mut out, number.as_str(), 14);
    }
    out.append("\n");
    out
}

/// Writes the content of the positions block for `atoms` at the fractional
/// positions `fractional`.
pub fn positions_rows(
    sorted: bool,
    atoms: &Vec<Atom>,
    fractional: &Vec<Point3>,
    table: &ElementTable,
) -> (r: Result<String, ExportError>)
    ensures
        match r {
            Ok(text) => positions_content(
                sorted,
                atom_views(atoms@),
                point_views(fractional@),
                table@,
            ) == Ok::<Seq<char>, ExportError>(text@),
            Err(e) => positions_content(
                sorted,
                atom_views(atoms@),
                point_views(fractional@),
                table@,
            ) == Err::<Seq<char>, ExportError>(e),
        },
{
    if !sorted {
        return Err(ExportError::NotSorted);
    }
    if fractional.len() != atoms.len() {
        return Err(ExportError::PositionCount);
    }
    let ghost views = atom_views(atoms@);
    let ghost points = point_views(fractional@);
    let mut out = String::new();
    let mut i: usize = 0;
    while i < atoms.len()
        invariant
            views == atom_views(atoms@),
            points == point_views(fractional@),
            fractional@.len() == atoms@.len(),
            sorted,
            i <= atoms@.len(),
            position_lines(views, points, table@, i as int) == Ok::<Seq<char>, ExportError>(out@),
        decreases atoms@.len() - i,
    {
        let atom = &atoms[i];
        let at = &fractional[i];
        assert(views[i as int] == atom@);
        assert(points[i as int] == at@);
        let entry = match table.get(atom.element_name()) {
            Some(entry) => entry,
            None => {
                proof {
                    assert(position_line(views[i as int], points[i as int], table@) is Err);
                    assert(position_lines(views, points, table@, i + 1) == Err::<
                        Seq<char>,
                        ExportError,
                    >(ExportError::Lookup));
                    lemma_position_lines_fail(views, points, table@, i + 1, views.len() as int);
                }
                return Err(ExportError::Lookup);
            },
        };
        if !at.has_places(FRACTIONAL_PLACES) {
            proof {
                assert(position_lines(views, points, table@, i + 1) == Err::<
                    Seq<char>,
                    ExportError,
                >(ExportError::Precision));
                lemma_position_lines_fail(views, points, table@, i + 1, views.len() as int);
            }
            return Err(ExportError::Precision);
        }
        out.append(position_row_string(atom.element_name(), at, entry.spin).as_str());
        i = i + 1;
    }
    Ok(out)
}

/// Writes the line of the element `e` in a block on the species.
pub fn species_row_string(block: SpeciesBlock, e: &Element) -> (r: String)
    ensures
        r@ == species_row(block, e@),
{
    let mut out = String::new();
    append_padded(&mut out, e.element.as_str(), 8);
    match block {
        SpeciesBlock::Mass => {
            append_padded(&mut out, e.mass.as_str(), MASS_WIDTH);
        },
        SpeciesBlock::Potential => {
            out.append("  ");
            out.append(e.pot.as_str());
        },
        SpeciesBlock::LcaoStates => {
            append_padded(&mut out, decimal_string(e.lcao as u64).as_str(), 9);
        },
    }
    out.append("\n");
    out
}

/// Writes the content of a block on the species for the elements `list`.
pub fn species_rows(block: SpeciesBlock, list: &Vec<String>, table: &ElementTable) -> (r: Result<
    String,
    ExportError,
>)
    ensures
        match r {
            Ok(text) => species_content(block, list.deep_view(), table@) == Ok::<
                Seq<char>,
                ExportError,
            >(text@),
            Err(e) => species_content(block, list.deep_view(), table@) == Err::<
                Seq<char>,
                ExportError,
            >(e),
        },
{
    let ghost names = list.deep_view();
    let mut out = String::new();
    let mut i: usize = 0;
    while i < list.len()
        invariant
            names == list.deep_view(),
            i <= list@.len(),
            species_lines(block, names, table@, i as int) == Ok::<Seq<char>, ExportError>(out@),
        decreases list@.len() - i,
    {
        assert(names[i as int] == list@[i as int]@);
        let entry = match table.get(list[i].as_str()) {
            Some(entry) => entry,
            None => {
                proof {
                    assert(species_lines(block, names, table@, i + 1) is Err);
                    lemma_species_lines_fail(block, names, table@, i + 1, names.len() as int);
                }
                return Err(ExportError::Lookup);
            },
        };
        let mass_block = match block {
            SpeciesBlock::Mass => true,
            _ => false,
        };
        if mass_block && !entry.mass.has_places(MASS_PLACES) {
            proof {
                assert(species_lines(block, names, table@, i + 1) is Err);
                lemma_species_lines_fail(block, names, table@, i + 1, names.len() as int);
            }
            return Err(ExportError::Precision);
        }
        out.append(species_row_string(block, entry).as_str());
        i = i + 1;
    }
    Ok(out)
}

/// The name of a block on the species.
pub open spec fn species_block_name(block: SpeciesBlock) -> Seq<char> {
    match block {
        SpeciesBlock::Mass => "SPECIES_MASS"@,
        SpeciesBlock::Potential => "SPECIES_POT"@,
        SpeciesBlock::LcaoStates => "SPECIES_LCAO_STATES"@,
    }
}

/// Whether the symbol of some atom of `atoms` is that of no element.
pub open spec fn has_unknown_element(atoms: Seq<AtomView>) -> bool {
    exists|i: int|
        0 <= i < atoms.len() && element_number(#[trigger] atoms[i].element_name) is None
}

/// What a [`Cell`] holds.
pub struct CellView {
    pub lattice: LatticeView,
    pub sorted: bool,
}

impl View for Cell {
    type V = CellView;

    closed spec fn view(&self) -> CellView {
        CellView { lattice: self.lattice@, sorted: self.sorted }
    }
}

impl Cell {
    /// The lattice of the cell is well formed.
    pub closed spec fn wf(&self) -> bool {
        self.lattice.wf()
    }

    /// The lattice of the cell.
    pub fn lattice(&self) -> (r: &Lattice)
        ensures
            r@ == self@.lattice,
            r.wf() == self.wf(),
    {
        &self.lattice
    }

    /// Gives the lattice back.
    pub fn into_lattice(self) -> (r: Lattice)
        ensures
            r@ == self@.lattice,
            r.wf() == self.wf(),
    {
        self.lattice
    }

    /// Whether the atoms have been sorted by element.
    pub fn sorted(&self) -> (r: bool)
        ensures
            r == self@.sorted,
    {
        self.sorted
    }

    /// Takes a lattice that has been turned to the standard orientation.
    pub fn new(lattice: Lattice, sorted: bool) -> (r: Self)
        requires
            lattice.wf(),
        ensures
            r.wf(),
            r@ == (CellView { lattice: lattice@, sorted: sorted }),
    {
        Cell { lattice, sorted }
    }

    /// Groups the atoms by element: ascending atomic number, and within one
    /// element the order in which the atoms stood.
    pub fn sort_atoms_by_elements(&mut self)
        requires
            old(self).wf(),
        ensures
            final(self).wf(),
            final(self)@ == (CellView {
                lattice: LatticeView {
                    atoms: sorted_by_element(old(self)@.lattice.atoms),
                    sorted: true,
                    ..old(self)@.lattice
                },
                sorted: true,
            }),
    {
        self.lattice.sort_atoms_by_elements();
        self.sorted = true;
    }

    pub fn get_cell_name(&self) -> (r: String)
        ensures
            r@ == self@.lattice.lattice_name,
    {
        String::from_str(self.lattice.lattice_name())
    }

    /// The block of lattice vectors: its name and its content. Fails with
    /// `Precision` unless the nine numbers have eighteen digits behind the
    /// point.
    pub fn lattice_vector_str(&self) -> (r: Result<(String, String), ExportError>)
        ensures
            match r {
                Ok((name, content)) => name@ == "LATTICE_CART"@ && lattice_content(self@.lattice)
                    == Ok::<Seq<char>, ExportError>(content@),
                Err(e) => lattice_content(self@.lattice) == Err::<Seq<char>, ExportError>(e),
            },
    {
        match self.lattice.lattice_vector_str() {
            Ok(block) => Ok(block),
            Err(_) => Err(ExportError::Precision),
        }
    }

    /// The block of fractional positions: its name and its content.
    pub fn positions_str(&self, fractional: &Vec<Point3>, element_info: &ElementTable) -> (r:
        Result<(String, String), ExportError>)
        ensures
            match r {
                Ok((name, content)) => name@ == "POSITIONS_FRAC"@ && positions_content(
                    self@.sorted,
                    self@.lattice.atoms,
                    point_views(fractional@),
                    element_info@,
                ) == Ok::<Seq<char>, ExportError>(content@),
                Err(e) => positions_content(
                    self@.sorted,
                    self@.lattice.atoms,
                    point_views(fractional@),
                    element_info@,
                ) == Err::<Seq<char>, ExportError>(e),
            },
    {
        match positions_rows(self.sorted, self.lattice.atoms_vec(), fractional, element_info) {
            Ok(content) => Ok((String::from_str("POSITIONS_FRAC"), content)),
            Err(e) => Err(e),
        }
    }

    /// The block of k-points: its name and its content.
    pub fn kpoints_list_str(&self) -> (r: (String, String))
        ensures
            r.0@ == "KPOINTS_LIST"@,
            r.1@ == KPOINTS_CONTENT@,
    {
        (String::from_str("KPOINTS_LIST"), String::from_str(KPOINTS_CONTENT))
    }

    /// The fixed part of a geometry file.
    pub fn misc_str(&self) -> (r: String)
        ensures
            r@ == misc_text(),
    {
        let mut misc = String::from_str(CELL_OPTIONS);
        misc.append(
            write_block((String::from_str("IONIC_CONSTRAINTS"), String::new())).as_str(),
        );
        misc.append(
            write_block(
                (String::from_str("EXTERNAL_EFIELD"), String::from_str(EFIELD_CONTENT)),
            ).as_str(),
        );
        misc.append(
            write_block(
                (String::from_str("EXTERNAL_PRESSURE"), String::from_str(PRESSURE_CONTENT)),
            ).as_str(),
        );
        misc
    }

    /// A block on the species: its name and its content, one line for each
    /// element of the cell by ascending atomic number. Fails with
    /// `UnknownElement` if the symbol of an atom is that of no element, and
    /// else as the first line that cannot be written does.
    pub fn species_str(&self, block: SpeciesBlock, element_info: &ElementTable) -> (r: Result<
        (String, String),
        ExportError,
    >)
        ensures
            match r {
                Err(ExportError::UnknownElement) => has_unknown_element(self@.lattice.atoms),
                Ok((name, content)) => name@ == species_block_name(block) && exists|
                    list: Seq<Seq<char>>,
                |
                    is_element_list(list, self@.lattice.atoms) && #[trigger] species_content(
                        block,
                        list,
                        element_info@,
                    ) == Ok::<Seq<char>, ExportError>(content@),
                Err(e) => exists|list: Seq<Seq<char>>|
                    is_element_list(list, self@.lattice.atoms) && #[trigger] species_content(
                        block,
                        list,
                        element_info@,
                    ) == Err::<Seq<char>, ExportError>(e),
            },
    {
        let list = match self.lattice.get_element_list() {
            Ok(list) => list,
            Err(_) => {
                return Err(ExportError::UnknownElement);
            },
        };
        let name = match block {
            SpeciesBlock::Mass => String::from_str("SPECIES_MASS"),
            SpeciesBlock::Potential => String::from_str("SPECIES_POT"),
            SpeciesBlock::LcaoStates => String::from_str("SPECIES_LCAO_STATES"),
        };
        proof {
            lemma_species_lines_errors(
                block,
                list.deep_view(),
                element_info@,
                list.deep_view().len() as int,
            );
        }
        match species_rows(block, &list, element_info) {
            Ok(content) => {
                assert(species_content(block, list.deep_view(), element_info@) == Ok::<
                    Seq<char>,
                    ExportError,
                >(content@));
                Ok((name, content))
            },
            Err(e) => {
                assert(species_content(block, list.deep_view(), element_info@) == Err::<
                    Seq<char>,
                    ExportError,
                >(e));
                Err(e)
            },
        }
    }

    /// The block of the masses of the species.
    pub fn species_mass_str(&self, element_info: &ElementTable) -> (r: Result<
        (String, String),
        ExportError,
    >)
        ensures
            match r {
                Err(ExportError::UnknownElement) => has_unknown_element(self@.lattice.atoms),
                Ok((name, content)) => name@ == "SPECIES_MASS"@ && exists|list: Seq<Seq<char>>|
                    is_element_list(list, self@.lattice.atoms) && #[trigger] species_content(
                        SpeciesBlock::Mass,
                        list,
                        element_info@,
                    ) == Ok::<Seq<char>, ExportError>(content@),
                Err(e) => exists|list: Seq<Seq<char>>|
                    is_element_list(list, self@.lattice.atoms) && #[trigger] species_content(
                        SpeciesBlock::Mass,
                        list,
                        element_info@,
                    ) == Err::<Seq<char>, ExportError>(e),
            },
    {
        self.species_str(SpeciesBlock::Mass, element_info)
    }

    /// The block of the pseudopotential files of the species.
    pub fn species_pot_str(&self, element_info: &ElementTable) -> (r: Result<
        (String, String),
        ExportError,
    >)
        ensures
            match r {
                Err(ExportError::UnknownElement) => has_unknown_element(self@.lattice.atoms),
                Ok((name, content)) => name@ == "SPECIES_POT"@ && exists|list: Seq<Seq<char>>|
                    is_element_list(list, self@.lattice.atoms) && #[trigger] species_content(
                        SpeciesBlock::Potential,
                        list,
                        element_info@,
                    ) == Ok::<Seq<char>, ExportError>(content@),
                Err(e) => exists|list: Seq<Seq<char>>|
                    is_element_list(list, self@.lattice.atoms) && #[trigger] species_content(
                        SpeciesBlock::Potential,
                        list,
                        element_info@,
                    ) == Err::<Seq<char>, ExportError>(e),
            },
    {
        self.species_str(SpeciesBlock::Potential, element_info)
    }

    /// The block of the states of the species.
    pub fn species_lcao_str(&self, element_info: &ElementTable) -> (r: Result<
        (String, String),
        ExportError,
    >)
        ensures
            match r {
                Err(ExportError::UnknownElement) => has_unknown_element(self@.lattice.atoms),
                Ok((name, content)) => name@ == "SPECIES_LCAO_STATES"@ && exists|
                    list: Seq<Seq<char>>,
                |
                    is_element_list(list, self@.lattice.atoms) && #[trigger] species_content(
                        SpeciesBlock::LcaoStates,
                        list,
                        element_info@,
                    ) == Ok::<Seq<char>, ExportError>(content@),
                Err(e) => exists|list: Seq<Seq<char>>|
                    is_element_list(list, self@.lattice.atoms) && #[trigger] species_content(
                        SpeciesBlock::LcaoStates,
                        list,
                        element_info@,
                    ) == Err::<Seq<char>, ExportError>(e),
            },
    {
        self.species_str(SpeciesBlock::LcaoStates, element_info)
    }

    /// Writes the geometry file of the cell, whose atoms stand at the
    /// fractional positions `fractional`. Fails with `UnknownElement` if the
    /// symbol of an atom is that of no element, and else as the first block
    /// that cannot be written does.
    pub fn format_output(&self, fractional: &Vec<Point3>, element_info: &ElementTable) -> (r:
        Result<String, ExportError>)
        ensures
            match r {
                Err(ExportError::UnknownElement) => has_unknown_element(self@.lattice.atoms),
                Ok(text) => exists|list: Seq<Seq<char>>|
                    is_element_list(list, self@.lattice.atoms) && #[trigger] cell_text(
                        self@.sorted,
                        self@.lattice,
                        point_views(fractional@),
                        element_info@,
                        list,
                    ) == Ok::<Seq<char>, ExportError>(text@),
                Err(e) => exists|list: Seq<Seq<char>>|
                    is_element_list(list, self@.lattice.atoms) && #[trigger] cell_text(
                        self@.sorted,
                        self@.lattice,
                        point_views(fractional@),
                        element_info@,
                        list,
                    ) == Err::<Seq<char>, ExportError>(e),
            },
    {
        let list = match self.lattice.get_element_list() {
            Ok(list) => list,
            Err(_) => {
                return Err(ExportError::UnknownElement);
            },
        };
        let r = cell_file(
            self.sorted,
            &self.lattice,
            fractional,
            element_info,
            &list,
        );
        proof {
            let spec = cell_text(
                self@.sorted,
                self@.lattice,
                point_views(fractional@),
                element_info@,
                list.deep_view(),
            );
            lemma_cell_text_errors(
                self@.sorted,
                self@.lattice,
                point_views(fractional@),
                element_info@,
                list.deep_view(),
            );
            if r is Ok {
                assert(spec == Ok::<Seq<char>, ExportError>(r->Ok_0@));
            } else {
                assert(spec == Err::<Seq<char>, ExportError>(r->Err_0));
            }
        }
        r
    }
}

/// Writes the geometry file of a lattice whose elements are `list`.
pub fn cell_file(
    sorted: bool,
    lattice: &Lattice,
    fractional: &Vec<Point3>,
    element_info: &ElementTable,
    list: &Vec<String>,
) -> (r: Result<String, ExportError>)
    ensures
        match r {
            Ok(text) => cell_text(
                sorted,
                lattice@,
                point_views(fractional@),
                element_info@,
                list.deep_view(),
            ) == Ok::<Seq<char>, ExportError>(text@),
            Err(e) => cell_text(
                sorted,
                lattice@,
                point_views(fractional@),
                element_info@,
                list.deep_view(),
            ) == Err::<Seq<char>, ExportError>(e),
        },
{
    let vectors = match lattice.lattice_vector_str() {
        Ok(block) => block,
        Err(_) => {
            return Err(ExportError::Precision);
        },
    };
    let positions = match positions_rows(sorted, lattice.atoms_vec(), fractional, element_info) {
        Ok(content) => content,
        Err(e) => {
            return Err(e);
        },
    };
    let mass = match species_rows(SpeciesBlock::Mass, list, element_info) {
        Ok(content) => content,
        Err(e) => {
            return Err(e);
        },
    };
    let pot = match species_rows(SpeciesBlock::Potential, list, element_info) {
        Ok(content) => content,
        Err(e) => {
            return Err(e);
        },
    };
    let lcao = match species_rows(SpeciesBlock::LcaoStates, list, element_info) {
        Ok(content) => content,
        Err(e) => {
            return Err(e);
        },
    };
    let ghost expected = block_text("LATTICE_CART"@, vectors.1@) + block_text(
        "POSITIONS_FRAC"@,
        positions@,
    ) + block_text("KPOINTS_LIST"@, KPOINTS_CONTENT@) + misc_text() + block_text(
        "SPECIES_MASS"@,
        mass@,
    ) + block_text("SPECIES_POT"@, pot@) + block_text("SPECIES_LCAO_STATES"@, lcao@);
    let mut content = write_block(vectors);
    content.append(write_block((String::from_str("POSITIONS_FRAC"), positions)).as_str());
    content.append(
        write_block(
            (String::from_str("KPOINTS_LIST"), String::from_str(KPOINTS_CONTENT)),
        ).as_str(),
    );
    content.append(CELL_OPTIONS);
    content.append(
        write_block((String::from_str("IONIC_CONSTRAINTS"), String::new())).as_str(),
    );
    content.append(
        write_block(
            (String::from_str("EXTERNAL_EFIELD"), String::from_str(EFIELD_CONTENT)),
        ).as_str(),
    );
    content.append(
        write_block(
            (String::from_str("EXTERNAL_PRESSURE"), String::from_str(PRESSURE_CONTENT)),
        ).as_str(),
    );
    content.append(write_block((String::from_str("SPECIES_MASS"), mass)).as_str());
    content.append(write_block((String::from_str("SPECIES_POT"), pot)).as_str());
    content.append(write_block((String::from_str("SPECIES_LCAO_STATES"), lcao)).as_str());
    assert(content@ =~= expected);
    Ok(content)
}

} // verus!
