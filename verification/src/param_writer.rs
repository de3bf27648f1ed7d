//! The parameter files and the auxiliary files of a model, and where the
//! files of a model go.

use vstd::prelude::*;
use vstd::string::*;
use crate::atom::{Atom, AtomView};
use crate::bindings::{regex_captures, regex_first_captures};
use crate::atom::{Point3, PointView};
use crate::cell::{
    cell_file, cell_text, has_unknown_element, lemma_cell_text_errors, position_lines, Cell,
    ExportError,
};
use crate::editor::{family, family_dir, family_dir_name, family_of};
use crate::export::{seed_file_views, SeedFile, SeedFileView};
use crate::write_once::is_among;
use crate::element_table::{ElementTable, ElementView};
use crate::lattice::{
    atom_views, has_element, has_id, is_element_list, place_of, point_views, LatticeView,
};
use crate::parser::group;
use crate::text::{decimal, decimal_string, pad_left, pad_left_string, parse_unsigned, parse_unsigned_str};

verus! {

/// The calculation that a parameter file asks for.
#[derive(Debug, Clone, Copy, PartialEq, Eq, Structural)]
pub enum CastepTask {
    GeometryOptimization,
    BandStructure,
}

/// Why no cutoff energy is derived.
#[derive(Debug, Clone, Copy, PartialEq, Eq, Structural)]
pub enum CutoffError {
    /// The pattern was not accepted.
    Pattern,
    /// The pseudopotential file with this index, counted from zero, holds no
    /// number in front of the word FINE.
    NoMarker { file: usize },
    /// The number in the pseudopotential file with this index does not fit.
    BadMarker { file: usize },
}

/// The pattern of the fine cutoff energy in a pseudopotential file: a number
/// with the word FINE behind it on the same line.
pub const FINE_PATTERN: &'static str = "([0-9]+).*FINE";

/// The directory under which the models are written.
pub const MODELS_ROOT: &'static str = "GDY_TAC_models";

/// What stands in a parameter file between the task and the spin.
pub const PARAM_AFTER_TASK: &'static str =
    "\ncontinuation : default\ncomment : CASTEP calculation from Materials Studio\nxc_functional : PBE\nspin_polarized : true\nspin :        ";

/// What stands in a parameter file between the spin and the cutoff energy.
pub const PARAM_AFTER_SPIN: &'static str =
    "\nopt_strategy : Speed\npage_wvfns :        0\ncut_off_energy : ";

/// What stands in a parameter file behind the cutoff energy.
pub const PARAM_TAIL: &'static str =
    "\ngrid_scale :        1.500000000000000\nfine_grid_scale :        1.500000000000000\nfinite_basis_corr :        0\nelec_energy_tol :   1.000000000000000e-005\nmax_scf_cycles :     6000\nfix_occupancy : false\nmetals_method : dm\nmixing_scheme : Pulay\nmix_charge_amp :        0.500000000000000\nmix_spin_amp :        2.000000000000000\nmix_charge_gmax :        1.500000000000000\nmix_spin_gmax :        1.500000000000000\nmix_history_length :       20\nperc_extra_bands :      72\nsmearing_width :        0.100000000000000\nspin_fix :        6\nnum_dump_cycles : 0\nbs_nextra_bands :       72\nbs_xc_functional : PBE\nbs_eigenvalue_tol :   1.000000000000000e-005\ncalculate_stress : false\ncalculate_ELF : false\npopn_calculate : false\ncalculate_hirshfeld : false\ncalculate_densdiff : false\npdos_calculate_weights : true\nbs_write_eigenvalues : true\n";

/// The file of k-point images, the same for both calculations.
pub const KPTAUX_CONTENTS: &'static str =
    "MP_GRID :        1       1       1\nMP_OFFSET :   0.000000000000000e+000  \n0.000000000000000e+000  0.000000000000000e+000\n%BLOCK KPOINT_IMAGES\n   1   1\n%ENDBLOCK KPOINT_IMAGES";

/// The head of the file that lists the identifiers of the atoms.
pub const TRJAUX_HEADER: &'static str =
    "# Atom IDs to appear in any .trj file to be generated.\n# Correspond to atom IDs which will be used in exported .msi file\n# required for animation/analysis of trajectory within Cerius2.\n";

/// The last line of the file that lists the identifiers of the atoms.
pub const TRJAUX_ENDING: &'static str =
    "#Origin  0.000000000000000e+000  0.000000000000000e+000  0.000000000000000e+000";

/// The fine cutoff energy rounded up to the next multiple of ten above it.
pub open spec fn ultra_fine(raw: nat) -> nat {
    (raw / 10 + 1) * 10
}

/// The fine cutoff energy that the groups of a match hold in group 1.
pub open spec fn marker_of(groups: Seq<Option<Seq<char>>>) -> Option<nat> {
    match group(groups, 1) {
        Some(digits) => parse_unsigned(digits, 0xffff_ffff),
        None => None,
    }
}

/// The fine cutoff energy that the pseudopotential file `text` holds; it is
/// the file with the index `file`.
pub open spec fn fine_cutoff_of(text: Seq<char>, file: usize) -> Result<nat, CutoffError> {
    match regex_first_captures(FINE_PATTERN@, text) {
        None => Err(CutoffError::Pattern),
        Some(None) => Err(CutoffError::NoMarker { file }),
        Some(Some(groups)) => match marker_of(groups) {
            Some(raw) => Ok(raw),
            None => Err(CutoffError::BadMarker { file }),
        },
    }
}

/// The larger of two numbers.
pub open spec fn larger(a: nat, b: nat) -> nat {
    if a >= b {
        a
    } else {
        b
    }
}

/// The cutoff energy for the first `count` pseudopotential files: the
/// largest of their rounded fine cutoff energies, zero for no file; or the
/// reason why the first file that gives none gives none.
pub open spec fn cutoff_of_files(files: Seq<Seq<char>>, count: int) -> Result<nat, CutoffError>
    decreases count,
{
    if count <= 0 {
        Ok(0)
    } else {
        match cutoff_of_files(files, count - 1) {
            Err(e) => Err(e),
            Ok(energy) => match fine_cutoff_of(files[count - 1], (count - 1) as usize) {
                Err(e) => Err(e),
                Ok(raw) => Ok(larger(energy, ultra_fine(raw))),
            },
        }
    }
}

/// The largest of the rounded values of the first `count` fine cutoff
/// energies, zero for none.
pub open spec fn cutoff_of_markers(markers: Seq<u32>, count: int) -> nat
    decreases count,
{
    if count <= 0 {
        0
    } else {
        larger(cutoff_of_markers(markers, count - 1), ultra_fine(markers[count - 1] as nat))
    }
}

/// Once a file gives no cutoff energy, no longer run of files gives one.
proof fn lemma_cutoff_of_files_fails(files: Seq<Seq<char>>, count: int, more: int)
    requires
        0 <= count <= more,
        cutoff_of_files(files, count) is Err,
    ensures
        cutoff_of_files(files, more) == cutoff_of_files(files, count),
    decreases more - count,
{
    if count < more {
        lemma_cutoff_of_files_fails(files, count, more - 1);
    }
}

/// The derived cutoff energy is a multiple of ten, is above every fine
/// cutoff energy it was derived from, and exceeds the largest of them by at
/// most ten.
pub proof fn lemma_cutoff_bounds(markers: Seq<u32>, count: int)
    requires
        0 <= count <= markers.len(),
    ensures
        cutoff_of_markers(markers, count) % 10 == 0,
        forall|i: int|
            0 <= i < count ==> (#[trigger] markers[i]) < cutoff_of_markers(markers, count),
        count > 0 ==> exists|i: int|
            0 <= i < count && cutoff_of_markers(markers, count) <= (#[trigger] markers[i]) + 10,
    decreases count,
{
    if count > 0 {
        lemma_cutoff_bounds(markers, count - 1);
        let last = markers[count - 1] as nat;
        assert(ultra_fine(last) % 10 == 0 && last < ultra_fine(last) <= last + 10) by {
            assert(last == 10 * (last / 10) + last % 10);
            assert(((last / 10 + 1) * 10) % 10 == 0) by (nonlinear_arith);
            assert((last / 10 + 1) * 10 == (last / 10) * 10 + 10) by (nonlinear_arith);
        }
        if count > 1 {
            let i = choose|i: int|
                0 <= i < count - 1 && cutoff_of_markers(markers, count - 1) <= (
                #[trigger] markers[i]) + 10;
            if cutoff_of_markers(markers, count - 1) >= ultra_fine(last) {
                assert(cutoff_of_markers(markers, count) <= markers[i] + 10);
            } else {
                assert(cutoff_of_markers(markers, count) <= markers[count - 1] + 10);
            }
        } else {
            assert(cutoff_of_markers(markers, count) <= markers[count - 1] + 10);
        }
    }
}

/// Rounds a fine cutoff energy up to the next multiple of ten above it.
pub fn round_up_cutoff(raw: u32) -> (r: u64)
    ensures
        r == ultra_fine(raw as nat),
{
    (raw as u64 / 10 + 1) * 10
}

/// Derives the cutoff energy from fine cutoff energies: the largest of
/// their rounded values.
pub fn cutoff_from_markers(markers: &Vec<u32>) -> (r: u64)
    ensures
        r == cutoff_of_markers(markers@, markers@.len() as int),
{
    let mut energy: u64 = 0;
    let mut i: usize = 0;
    while i < markers.len()
        invariant
            i <= markers@.len(),
            energy == cutoff_of_markers(markers@, i as int),
            energy <= 0x1_0000_000a,
        decreases markers@.len() - i,
    {
        let rounded = round_up_cutoff(markers[i]);
        if rounded > energy {
            energy = rounded;
        }
        i = i + 1;
    }
    energy
}

/// Reads the fine cutoff energy from the groups of a match.
pub fn marker_from_groups(groups: &Vec<Option<String>>) -> (r: Option<u32>)
    ensures
        match r {
            Some(raw) => marker_of(groups.deep_view()) == Some(raw as nat),
            None => marker_of(groups.deep_view()) is None,
        },
{
    if 1 < groups.len() {
        match &groups[1] {
            Some(digits) => match parse_unsigned_str(digits.as_str(), 0xffff_ffff) {
                Some(v) => Some(v as u32),
                None => None,
            },
            None => None,
        }
    } else {
        None
    }
}

/// Finds the fine cutoff energy in the pseudopotential file `text`, the
/// file with the index `file`.
pub fn fine_cutoff_energy(text: &str, file: usize) -> (r: Result<u32, CutoffError>)
    ensures
        match r {
            Ok(raw) => fine_cutoff_of(text@, file) == Ok::<nat, CutoffError>(raw as nat),
            Err(e) => fine_cutoff_of(text@, file) == Err::<nat, CutoffError>(e),
        },
{
    match regex_captures(FINE_PATTERN, text) {
        None => Err(CutoffError::Pattern),
        Some(None) => Err(CutoffError::NoMarker { file }),
        Some(Some(groups)) => match marker_from_groups(&groups) {
            Some(raw) => Ok(raw),
            None => Err(CutoffError::BadMarker { file }),
        },
    }
}

/// Derives the cutoff energy of a model from its pseudopotential files, one
/// for each of its elements: the largest rounded fine cutoff energy.
pub fn get_final_cutoff_energy(potential_files: &Vec<String>) -> (r: Result<u64, CutoffError>)
    ensures
        match r {
            Ok(energy) => cutoff_of_files(
                potential_files.deep_view(),
                potential_files@.len() as int,
            ) == Ok::<nat, CutoffError>(energy as nat),
            Err(e) => cutoff_of_files(potential_files.deep_view(), potential_files@.len() as int)
                == Err::<nat, CutoffError>(e),
        },
{
    let ghost files = potential_files.deep_view();
    let mut energy: u64 = 0;
    let mut i: usize = 0;
    while i < potential_files.len()
        invariant
            files == potential_files.deep_view(),
            i <= potential_files@.len(),
            cutoff_of_files(files, i as int) == Ok::<nat, CutoffError>(energy as nat),
            energy <= 0x1_0000_000a,
        decreases potential_files@.len() - i,
    {
        assert(files[i as int] == potential_files@[i as int]@);
        match fine_cutoff_energy(potential_files[i].as_str(), i) {
            Ok(raw) => {
                let rounded = round_up_cutoff(raw);
                if rounded > energy {
                    energy = rounded;
                }
            },
            Err(e) => {
                proof {
                    assert(cutoff_of_files(files, i + 1) == Err::<nat, CutoffError>(e));
                    lemma_cutoff_of_files_fails(files, i + 1, files.len() as int);
                }
                return Err(e);
            },
        }
        i = i + 1;
    }
    Ok(energy)
}

/// The sum of the spins of the first `count` atoms, each as the table gives
/// it for the element of the atom; `None` if the table has no entry for the
/// symbol of one of them.
pub open spec fn spin_sum(
    atoms: Seq<AtomView>,
    table: Map<Seq<char>, ElementView>,
    count: int,
) -> Option<nat>
    decreases count,
{
    if count <= 0 {
        Some(0)
    } else {
        match spin_sum(atoms, table, count - 1) {
            None => None,
            Some(sum) => if table.contains_key(atoms[count - 1].element_name) {
                Some(sum + table[atoms[count - 1].element_name].spin as nat)
            } else {
                None
            },
        }
    }
}

proof fn lemma_spin_sum_fails(
    atoms: Seq<AtomView>,
    table: Map<Seq<char>, ElementView>,
    count: int,
    more: int,
)
    requires
        0 <= count <= more,
        spin_sum(atoms, table, count) is None,
    ensures
        spin_sum(atoms, table, more) is None,
    decreases more - count,
{
    if count < more {
        lemma_spin_sum_fails(atoms, table, count, more - 1);
    }
}

proof fn lemma_spin_sum_bound(atoms: Seq<AtomView>, table: Map<Seq<char>, ElementView>, count: int)
    requires
        0 <= count,
    ensures
        spin_sum(atoms, table, count) matches Some(sum) ==> sum <= 255 * count,
    decreases count,
{
    if count > 0 {
        lemma_spin_sum_bound(atoms, table, count - 1);
    }
}

/// Adds up the spins of `atoms`. There is no sum if the table has no entry
/// for the symbol of an atom.
pub fn spin_total(atoms: &Vec<Atom>, element_infotab: &ElementTable) -> (r: Option<u64>)
    requires
        atoms@.len() <= 0xffff_ffff,
    ensures
        match r {
            Some(sum) => spin_sum(atom_views(atoms@), element_infotab@, atoms@.len() as int)
                == Some(sum as nat),
            None => spin_sum(atom_views(atoms@), element_infotab@, atoms@.len() as int) is None,
        },
{
    let ghost views = atom_views(atoms@);
    let mut sum: u64 = 0;
    let mut i: usize = 0;
    while i < atoms.len()
        invariant
            views == atom_views(atoms@),
            atoms@.len() <= 0xffff_ffff,
            i <= atoms@.len(),
            spin_sum(views, element_infotab@, i as int) == Some(sum as nat),
        decreases atoms@.len() - i,
    {
        assert(views[i as int] == atoms@[i as int]@);
        proof {
            lemma_spin_sum_bound(views, element_infotab@, i as int);
        }
        match element_infotab.get(atoms[i].element_name()) {
            Some(entry) => {
                sum = sum + entry.spin as u64;
            },
            None => {
                proof {
                    assert(spin_sum(views, element_infotab@, i + 1) is None);
                    lemma_spin_sum_fails(views, element_infotab@, i + 1, views.len() as int);
                }
                return None;
            },
        }
        i = i + 1;
    }
    Some(sum)
}

/// The name of a task as a parameter file writes it.
pub open spec fn task_name(task: CastepTask) -> Seq<char> {
    match task {
        CastepTask::GeometryOptimization => "GeometryOptimization"@,
        CastepTask::BandStructure => "BandStructure"@,
    }
}

/// The cutoff energy as a parameter file writes it: with fifteen zeros
/// behind the point; for a geometry optimization right-aligned in 18
/// columns, for a band structure behind five spaces.
pub open spec fn cutoff_text(task: CastepTask, cutoff_energy: nat) -> Seq<char> {
    let number = decimal(cutoff_energy) + ".000000000000000"@;
    match task {
        CastepTask::GeometryOptimization => pad_left(number, 18),
        CastepTask::BandStructure => "     "@ + number,
    }
}

/// The parameter file for `task`. Only the task, the total spin and the
/// cutoff energy vary.
pub open spec fn param_text(task: CastepTask, spin_total: nat, cutoff_energy: nat) -> Seq<char> {
    "task : "@ + task_name(task) + PARAM_AFTER_TASK@ + decimal(spin_total) + PARAM_AFTER_SPIN@
        + cutoff_text(task, cutoff_energy) + PARAM_TAIL@
}

/// Writes the parameter file for `task`.
pub fn param_content(task: CastepTask, spin_total: u64, cutoff_energy: u64) -> (r: String)
    ensures
        r@ == param_text(task, spin_total as nat, cutoff_energy as nat),
{
    let mut number = decimal_string(cutoff_energy);
    number.append(".000000000000000");
    let mut out = String::from_str("task : ");
    match task {
        CastepTask::GeometryOptimization => {
            out.append("GeometryOptimization");
        },
        CastepTask::BandStructure => {
            out.append("BandStructure");
        },
    }
    out.append(PARAM_AFTER_TASK);
    out.append(decimal_string(spin_total).as_str());
    out.append(PARAM_AFTER_SPIN);
    match task {
        CastepTask::GeometryOptimization => {
            out.append(pad_left_string(number.as_str(), 18).as_str());
        },
        CastepTask::BandStructure => {
            out.append("     ");
            out.append(number.as_str());
        },
    }
    out.append(PARAM_TAIL);
    assert(out@ =~= param_text(task, spin_total as nat, cutoff_energy as nat));
    out
}

/// The lines of the identifiers of the first `count` atoms.
pub open spec fn id_lines(atoms: Seq<AtomView>, count: int) -> Seq<char>
    decreases count,
{
    if count <= 0 {
        Seq::empty()
    } else {
        id_lines(atoms, count - 1) + decimal(atoms[count - 1].atom_id as nat) + "\n"@
    }
}

/// The file that lists the identifiers of the atoms: the head, one line
/// for each atom in the order of the atoms, and the last line.
pub open spec fn trjaux_text(atoms: Seq<AtomView>) -> Seq<char> {
    TRJAUX_HEADER@ + id_lines(atoms, atoms.len() as int) + TRJAUX_ENDING@
}

/// Writes the file that lists the identifiers of the atoms.
pub fn trjaux_contents(atoms: &Vec<Atom>) -> (r: String)
    ensures
        r@ == trjaux_text(atom_views(atoms@)),
{
    let ghost views = atom_views(atoms@);
    let mut out = String::from_str(TRJAUX_HEADER);
    let mut i: usize = 0;
    while i < atoms.len()
        invariant
            views == atom_views(atoms@),
            i <= atoms@.len(),
            out@ == TRJAUX_HEADER@ + id_lines(views, i as int),
        decreases atoms@.len() - i,
    {
        assert(views[i as int] == atoms@[i as int]@);
        let mut line = decimal_string(atoms[i].atom_id() as u64);
        line.append("\n");
        out.append(line.as_str());
        assert(out@ =~= TRJAUX_HEADER@ + id_lines(views, i + 1));
        i = i + 1;
    }
    out.append(TRJAUX_ENDING);
    out
}

/// Writes the file of k-point images.
pub fn kptaux_contents() -> (r: String)
    ensures
        r@ == KPTAUX_CONTENTS@,
{
    String::from_str(KPTAUX_CONTENTS)
}

/// The directory of a model: under the root the directory of the family of
/// the metal on the first designated site, under it that of the metal, under
/// it that of the model.
pub open spec fn destination(lattice: LatticeView) -> Seq<char> {
    let main = lattice.atoms[place_of(lattice.atoms, lattice.metal_sites[0] as int)];
    MODELS_ROOT@ + "/"@ + family_dir(family_of(main.element_id as int)) + "/"@ + main.element_name
        + "/"@ + lattice.lattice_name + "_opt"@
}

/// The path of the file of a model with the ending `ending`.
pub open spec fn file_path(lattice: LatticeView, ending: Seq<char>) -> Seq<char> {
    destination(lattice) + "/"@ + lattice.lattice_name + ending
}

/// Names the directory of the model of `cell`. Fails with `MissingSite` if
/// the first designated site names no atom.
pub fn export_destination(cell: &Cell) -> (r: Result<String, SeedError>)
    requires
        cell.wf(),
    ensures
        match r {
            Ok(path) => has_id(cell@.lattice.atoms, cell@.lattice.metal_sites[0] as int) && path@
                == destination(cell@.lattice),
            Err(e) => e == SeedError::MissingSite && !has_id(
                cell@.lattice.atoms,
                cell@.lattice.metal_sites[0] as int,
            ),
        },
{
    let lattice = cell.lattice();
    proof {
        lattice.lemma_wf();
    }
    let main = match lattice.get_atom_by_id(lattice.get_metal_sites()[0]) {
        Some(atom) => atom,
        None => {
            return Err(SeedError::MissingSite);
        },
    };
    let mut path = String::from_str(MODELS_ROOT);
    path.append("/");
    path.append(family_dir_name(family(main.element_id() as u32)));
    path.append("/");
    path.append(main.element_name());
    path.append("/");
    path.append(lattice.lattice_name());
    path.append("_opt");
    Ok(path)
}

/// Names the file of the model of `cell` with the ending `filename`.
pub fn export_filepath(cell: &Cell, filename: &str) -> (r: Result<String, SeedError>)
    requires
        cell.wf(),
    ensures
        match r {
            Ok(path) => has_id(cell@.lattice.atoms, cell@.lattice.metal_sites[0] as int) && path@
                == file_path(cell@.lattice, filename@),
            Err(e) => e == SeedError::MissingSite && !has_id(
                cell@.lattice.atoms,
                cell@.lattice.metal_sites[0] as int,
            ),
        },
{
    let mut path = match export_destination(cell) {
        Ok(path) => path,
        Err(e) => {
            return Err(e);
        },
    };
    path.append("/");
    path.append(cell.lattice().lattice_name());
    path.append(filename);
    Ok(path)
}

/// Why the seed files of a model cannot be prepared.
#[derive(Debug, Clone, Copy, PartialEq, Eq, Structural)]
pub enum SeedError {
    /// The first designated site names no atom.
    MissingSite,
    /// A text cannot be written.
    Export(ExportError),
    /// No cutoff energy is derived.
    Cutoff(CutoffError),
    /// The number of pseudopotential files differs from the number of
    /// elements of the model.
    PotentialCount,
}

/// The two parameter files of a model: that of the geometry optimization
/// and that of the band structure, for the atoms `atoms` and the cutoff
/// energy `cutoff_energy`. `None` if the table has no entry for the symbol of
/// an atom.
pub open spec fn param_texts(
    atoms: Seq<AtomView>,
    table: Map<Seq<char>, ElementView>,
    cutoff_energy: nat,
) -> Option<(Seq<char>, Seq<char>)> {
    match spin_sum(atoms, table, atoms.len() as int) {
        Some(spin) => Some(
            (
                param_text(CastepTask::GeometryOptimization, spin, cutoff_energy),
                param_text(CastepTask::BandStructure, spin, cutoff_energy),
            ),
        ),
        None => None,
    }
}

/// Writes the two parameter files of the model of `cell`. Fails with
/// `Lookup` if the table has no entry for the symbol of an atom.
pub fn write_param(cell: &Cell, element_infotab: &ElementTable, cutoff_energy: u64) -> (r: Result<
    (String, String),
    ExportError,
>)
    requires
        cell.wf(),
    ensures
        match r {
            Ok((geom, dos)) => param_texts(
                cell@.lattice.atoms,
                element_infotab@,
                cutoff_energy as nat,
            ) == Some((geom@, dos@)),
            Err(e) => e == ExportError::Lookup && param_texts(
                cell@.lattice.atoms,
                element_infotab@,
                cutoff_energy as nat,
            ) is None,
        },
{
    let lattice = cell.lattice();
    let atoms = lattice.atoms_vec();
    proof {
        lattice.lemma_at_most_255();
    }
    match spin_total(atoms, element_infotab) {
        Some(spin) => Ok(
            (
                param_content(CastepTask::GeometryOptimization, spin, cutoff_energy),
                param_content(CastepTask::BandStructure, spin, cutoff_energy),
            ),
        ),
        None => Err(ExportError::Lookup),
    }
}

/// Writes the file of k-point images of a model; that of the band
/// structure is the same.
pub fn write_kptaux(cell: &Cell) -> (r: String)
    ensures
        r@ == KPTAUX_CONTENTS@,
{
    kptaux_contents()
}

/// Writes the file that lists the identifiers of the atoms of a model.
pub fn write_trjaux(cell: &Cell) -> (r: String)
    ensures
        r@ == trjaux_text(cell@.lattice.atoms),
{
    trjaux_contents(cell.lattice().atoms_vec())
}

/// The name under which the extension resource is copied to a model.
pub open spec fn extension_name(lattice_name: Seq<char>) -> Seq<char> {
    "SMCastep_Extension_"@ + lattice_name + ".xms"@
}

/// Names the copy of the extension resource for the model of `cell`.
pub fn copy_smcastep_extension(cell: &Cell) -> (r: String)
    ensures
        r@ == extension_name(cell@.lattice.lattice_name),
{
    let mut name = String::from_str("SMCastep_Extension_");
    name.append(cell.lattice().lattice_name());
    name.append(".xms");
    name
}

/// Where the pseudopotential files are kept.
pub const POTENTIALS_DIR: &'static str = "./resources/Potentials";

/// The extension resource that every model gets a copy of.
pub const EXTENSION_SOURCE: &'static str = "./resources/SMCastep_Extension.xms";

/// The five texts of a model with their paths: the parameter files of the
/// geometry optimization and of the band structure, the files of k-point
/// images of the two, and the file that lists the identifiers of the atoms.
pub open spec fn seed_texts(
    lattice: LatticeView,
    table: Map<Seq<char>, ElementView>,
    cutoff_energy: nat,
) -> Seq<SeedFileView> {
    let params = param_texts(lattice.atoms, table, cutoff_energy).unwrap();
    seq![
        SeedFileView { path: file_path(lattice, ".param"@), text: params.0 },
        SeedFileView { path: file_path(lattice, "_DOS.param"@), text: params.1 },
        SeedFileView { path: file_path(lattice, ".kptaux"@), text: KPTAUX_CONTENTS@ },
        SeedFileView { path: file_path(lattice, "_DOS.kptaux"@), text: KPTAUX_CONTENTS@ },
        SeedFileView { path: file_path(lattice, ".trjaux"@), text: trjaux_text(lattice.atoms) },
    ]
}

/// Makes the parameter files and the auxiliary files of the model of `cell`,
/// each with the path it goes to. Fails with `MissingSite` if the first
/// designated site names no atom, else with `Lookup` if the table has no
/// entry for the symbol of an atom.
pub fn write_seed_files_for_cell(
    cell: &Cell,
    element_infotab: &ElementTable,
    cutoff_energy: u64,
) -> (r: Result<Vec<SeedFile>, SeedError>)
    requires
        cell.wf(),
    ensures
        match r {
            Ok(files) => {
                &&& has_id(cell@.lattice.atoms, cell@.lattice.metal_sites[0] as int)
                &&& param_texts(cell@.lattice.atoms, element_infotab@, cutoff_energy as nat) is Some
                &&& seed_file_views(files@) == seed_texts(
                    cell@.lattice,
                    element_infotab@,
                    cutoff_energy as nat,
                )
            },
            Err(SeedError::MissingSite) => !has_id(
                cell@.lattice.atoms,
                cell@.lattice.metal_sites[0] as int,
            ),
            Err(e) => e == SeedError::Export(ExportError::Lookup) && has_id(
                cell@.lattice.atoms,
                cell@.lattice.metal_sites[0] as int,
            ) && param_texts(cell@.lattice.atoms, element_infotab@, cutoff_energy as nat) is None,
        },
{
    let param_path = match export_filepath(cell, ".param") {
        Ok(path) => path,
        Err(e) => {
            return Err(e);
        },
    };
    let (geom, dos) = match write_param(cell, element_infotab, cutoff_energy) {
        Ok(texts) => texts,
        Err(e) => {
            return Err(SeedError::Export(e));
        },
    };
    let mut files: Vec<SeedFile> = Vec::new();
    files.push(SeedFile { path: param_path, text: geom });
    match export_filepath(cell, "_DOS.param") {
        Ok(path) => {
            files.push(SeedFile { path, text: dos });
        },
        Err(e) => {
            return Err(e);
        },
    }
    match export_filepath(cell, ".kptaux") {
        Ok(path) => {
            files.push(SeedFile { path, text: write_kptaux(cell) });
        },
        Err(e) => {
            return Err(e);
        },
    }
    match export_filepath(cell, "_DOS.kptaux") {
        Ok(path) => {
            files.push(SeedFile { path, text: write_kptaux(cell) });
        },
        Err(e) => {
            return Err(e);
        },
    }
    match export_filepath(cell, ".trjaux") {
        Ok(path) => {
            files.push(SeedFile { path, text: write_trjaux(cell) });
        },
        Err(e) => {
            return Err(e);
        },
    }
    assert(seed_file_views(files@) =~= seed_texts(
        cell@.lattice,
        element_infotab@,
        cutoff_energy as nat,
    ));
    Ok(files)
}

/// The names of the pseudopotential files of the elements `list`, in
/// their order; `None` if the table has no entry for one of them.
pub open spec fn potential_names(
    list: Seq<Seq<char>>,
    table: Map<Seq<char>, ElementView>,
    count: int,
) -> Option<Seq<Seq<char>>>
    decreases count,
{
    if count <= 0 {
        Some(Seq::empty())
    } else {
        match potential_names(list, table, count - 1) {
            None => None,
            Some(names) => if table.contains_key(list[count - 1]) {
                Some(names.push(table[list[count - 1]].pot))
            } else {
                None
            },
        }
    }
}

proof fn lemma_potential_names_fail(
    list: Seq<Seq<char>>,
    table: Map<Seq<char>, ElementView>,
    count: int,
    more: int,
)
    requires
        0 <= count <= more,
        potential_names(list, table, count) is None,
    ensures
        potential_names(list, table, more) is None,
    decreases more - count,
{
    if count < more {
        lemma_potential_names_fail(list, table, count, more - 1);
    }
}

/// Names the pseudopotential files of the elements `list`. There are none
/// if the table has no entry for one of the elements.
pub fn potential_files(list: &Vec<String>, element_infotab: &ElementTable) -> (r: Option<
    Vec<String>,
>)
    ensures
        match r {
            Some(names) => potential_names(list.deep_view(), element_infotab@, list@.len() as int)
                == Some(names.deep_view()),
            None => potential_names(list.deep_view(), element_infotab@, list@.len() as int)
                is None,
        },
{
    let ghost elements = list.deep_view();
    let mut names: Vec<String> = Vec::new();
    let mut i: usize = 0;
    assert(names.deep_view() =~= Seq::<Seq<char>>::empty());
    while i < list.len()
        invariant
            elements == list.deep_view(),
            i <= list@.len(),
            potential_names(elements, element_infotab@, i as int) == Some(names.deep_view()),
        decreases list@.len() - i,
    {
        assert(elements[i as int] == list@[i as int]@);
        match element_infotab.get(list[i].as_str()) {
            Some(entry) => {
                let ghost before = names.deep_view();
                names.push(entry.pot.clone());
                assert(names.deep_view() =~= before.push(entry.pot@));
            },
            None => {
                proof {
                    assert(potential_names(elements, element_infotab@, i + 1) is None);
                    lemma_potential_names_fail(elements, element_infotab@, i + 1, elements.len() as int);
                }
                return None;
            },
        }
        i = i + 1;
    }
    Some(names)
}

/// Where the pseudopotential file named `name` is copied from and where
/// to, for a model in the directory `target_dir`.
pub open spec fn potential_copy_of(target_dir: Seq<char>, name: Seq<char>) -> (
    Seq<char>,
    Seq<char>,
) {
    (POTENTIALS_DIR@ + "/"@ + name, target_dir + "/"@ + name)
}

/// Whether `copies` are the copies of the pseudopotential files of the
/// elements `list` for a model in `target_dir`, one for each element in
/// the order of the list.
pub open spec fn copies_for(
    copies: Seq<(String, String)>,
    target_dir: Seq<char>,
    list: Seq<Seq<char>>,
    table: Map<Seq<char>, ElementView>,
) -> bool {
    let names = potential_names(list, table, list.len() as int);
    &&& names is Some
    &&& copies.len() == names.unwrap().len()
    &&& forall|i: int|
        0 <= i < copies.len() ==> ((#[trigger] copies[i]).0@, copies[i].1@) == potential_copy_of(
            target_dir,
            names.unwrap()[i],
        )
}

/// Whether `copies` are the copies of the pseudopotential files of the
/// elements of the model `lattice`, one for each element, for some list of
/// its elements by ascending atomic number.
pub open spec fn copies_of_model(
    copies: Seq<(String, String)>,
    lattice: LatticeView,
    table: Map<Seq<char>, ElementView>,
) -> bool {
    exists|list: Seq<Seq<char>>|
        is_element_list(list, lattice.atoms) && #[trigger] copies_for(
            copies,
            destination(lattice),
            list,
            table,
        )
}

/// Whether the table has no entry for an element of the model `lattice`.
pub open spec fn lacks_potential(lattice: LatticeView, table: Map<Seq<char>, ElementView>) -> bool {
    exists|list: Seq<Seq<char>>|
        is_element_list(list, lattice.atoms) && #[trigger] potential_names(
            list,
            table,
            list.len() as int,
        ) is None
}

/// Lists the copies of pseudopotential files that the model of `cell`
/// needs: one for each of its elements, by ascending atomic number. Fails with
/// `MissingSite` if the first designated site names no atom, with
/// `UnknownElement` if the symbol of an atom is that of no element, and with
/// `Lookup` if the table has no entry for an element.
pub fn copy_potentials(cell: &Cell, element_infotab: &ElementTable) -> (r: Result<
    Vec<(String, String)>,
    SeedError,
>)
    requires
        cell.wf(),
    ensures
        match r {
            Ok(copies) => has_id(cell@.lattice.atoms, cell@.lattice.metal_sites[0] as int)
                && copies_of_model(copies@, cell@.lattice, element_infotab@),
            Err(SeedError::MissingSite) => !has_id(
                cell@.lattice.atoms,
                cell@.lattice.metal_sites[0] as int,
            ),
            Err(SeedError::Export(ExportError::UnknownElement)) => has_unknown_element(
                cell@.lattice.atoms,
            ),
            Err(e) => e == SeedError::Export(ExportError::Lookup) && lacks_potential(
                cell@.lattice,
                element_infotab@,
            ),
        },
{
    let target_dir = match export_destination(cell) {
        Ok(path) => path,
        Err(e) => {
            return Err(e);
        },
    };
    let list = match cell.lattice().get_element_list() {
        Ok(list) => list,
        Err(_) => {
            return Err(SeedError::Export(ExportError::UnknownElement));
        },
    };
    let names = match potential_files(&list, element_infotab) {
        Some(names) => names,
        None => {
            assert(potential_names(
                list.deep_view(),
                element_infotab@,
                list.deep_view().len() as int,
            ) is None);
            assert(lacks_potential(cell@.lattice, element_infotab@));
            return Err(SeedError::Export(ExportError::Lookup));
        },
    };
    let ghost wanted = names.deep_view();
    let mut copies: Vec<(String, String)> = Vec::new();
    let mut i: usize = 0;
    while i < names.len()
        invariant
            wanted == names.deep_view(),
            i <= names@.len(),
            copies@.len() == i,
            forall|k: int|
                0 <= k < i ==> ((#[trigger] copies@[k]).0@, copies@[k].1@) == potential_copy_of(
                    target_dir@,
                    wanted[k],
                ),
        decreases names@.len() - i,
    {
        assert(wanted[i as int] == names@[i as int]@);
        let mut source = String::from_str(POTENTIALS_DIR);
        source.append("/");
        source.append(names[i].as_str());
        let mut dest = target_dir.clone();
        dest.append("/");
        dest.append(names[i].as_str());
        copies.push((source, dest));
        i = i + 1;
    }
    assert(target_dir@ == destination(cell@.lattice));
    assert(is_element_list(list.deep_view(), cell@.lattice.atoms));
    assert(copies_for(copies@, destination(cell@.lattice), list.deep_view(), element_infotab@));
    assert(copies_of_model(copies@, cell@.lattice, element_infotab@));
    Ok(copies)
}

/// Everything that the export of a model puts on disk: the directory of the
/// model, the files to write into it, and the files to copy into it (each
/// with its source and its destination).
#[derive(Debug)]
pub struct SeedExport {
    pub directory: String,
    pub files: Vec<SeedFile>,
    pub copies: Vec<(String, String)>,
}

/// What a [`SeedExport`] holds.
pub struct SeedExportView {
    pub directory: Seq<char>,
    pub files: Seq<SeedFileView>,
    pub copies: Seq<(Seq<char>, Seq<char>)>,
}

impl View for SeedExport {
    type V = SeedExportView;

    open spec fn view(&self) -> SeedExportView {
        SeedExportView {
            directory: self.directory@,
            files: seed_file_views(self.files@),
            copies: Seq::new(self.copies@.len(), |i: int| (self.copies@[i].0@, self.copies@[i].1@)),
        }
    }
}

/// The export of a model whose elements are `list` and whose cutoff energy
/// is `cutoff_energy`: into the directory of the model go the two parameter
/// files, the two files of k-point images, the file of identifiers and the
/// geometry file; a copy of the pseudopotential file of each element, in the
/// order of `list`; and a copy of the extension resource.
pub open spec fn seed_export_of(
    sorted: bool,
    lattice: LatticeView,
    fractional: Seq<PointView>,
    table: Map<Seq<char>, ElementView>,
    list: Seq<Seq<char>>,
    cutoff_energy: nat,
) -> SeedExportView {
    let names = potential_names(list, table, list.len() as int).unwrap();
    SeedExportView {
        directory: destination(lattice),
        files: seed_texts(lattice, table, cutoff_energy).push(
            SeedFileView {
                path: file_path(lattice, ".cell"@),
                text: cell_text(sorted, lattice, fractional, table, list).unwrap(),
            },
        ),
        copies: Seq::new(names.len(), |i: int| potential_copy_of(destination(lattice), names[i])).push(
            (
                EXTENSION_SOURCE@,
                destination(lattice) + "/"@ + extension_name(lattice.lattice_name),
            ),
        ),
    }
}

/// Whether the export of a model can be made for the list `list` of its
/// elements: the geometry file can be written and there is one
/// pseudopotential file for each element.
pub open spec fn exportable(
    sorted: bool,
    lattice: LatticeView,
    fractional: Seq<PointView>,
    table: Map<Seq<char>, ElementView>,
    list: Seq<Seq<char>>,
    potential_count: nat,
) -> bool {
    &&& is_element_list(list, lattice.atoms)
    &&& cell_text(sorted, lattice, fractional, table, list) is Ok
    &&& param_texts(lattice.atoms, table, 0) is Some
    &&& potential_names(list, table, list.len() as int) is Some
    &&& potential_count == list.len()
}

/// What [`seed_export`] returns: the export for some list of the elements
/// of the model, or the reason why the first step that fails fails. The steps
/// are: the directory (`MissingSite`), the list of elements
/// (`UnknownElement`), the geometry file (what it fails with), the count of
/// the pseudopotential files (`PotentialCount`), the cutoff energy (what it
/// fails with).
pub open spec fn seed_export_result(
    r: Result<SeedExportView, SeedError>,
    sorted: bool,
    lattice: LatticeView,
    fractional: Seq<PointView>,
    table: Map<Seq<char>, ElementView>,
    potentials: Seq<Seq<char>>,
) -> bool {
    let sited = has_id(lattice.atoms, lattice.metal_sites[0] as int);
    let cutoff = cutoff_of_files(potentials, potentials.len() as int);
    match r {
        Err(SeedError::MissingSite) => !sited,
        Err(SeedError::Export(ExportError::UnknownElement)) => sited && has_unknown_element(
            lattice.atoms,
        ),
        Err(SeedError::Export(e)) => sited && exists|list: Seq<Seq<char>>|
            is_element_list(list, lattice.atoms) && #[trigger] cell_text(
                sorted,
                lattice,
                fractional,
                table,
                list,
            ) == Err::<Seq<char>, ExportError>(e),
        Err(SeedError::PotentialCount) => sited && exists|list: Seq<Seq<char>>|
            is_element_list(list, lattice.atoms) && #[trigger] cell_text(
                sorted,
                lattice,
                fractional,
                table,
                list,
            ) is Ok && potentials.len() != list.len(),
        Err(SeedError::Cutoff(e)) => sited && cutoff == Err::<nat, CutoffError>(e) && exists|
            list: Seq<Seq<char>>,
        | #[trigger]
            exportable(sorted, lattice, fractional, table, list, potentials.len()),
        Ok(export) => sited && cutoff is Ok && exists|list: Seq<Seq<char>>| #[trigger]
            exportable(sorted, lattice, fractional, table, list, potentials.len()) && export
                == seed_export_of(sorted, lattice, fractional, table, list, cutoff.unwrap()),
    }
}

/// The atoms whose lines in the positions block can be written all have an
/// entry in the table.
pub proof fn lemma_written_positions_have_entries(
    atoms: Seq<AtomView>,
    fractional: Seq<PointView>,
    table: Map<Seq<char>, ElementView>,
    count: int,
)
    requires
        position_lines(atoms, fractional, table, count) is Ok,
    ensures
        forall|i: int| 0 <= i < count ==> table.contains_key((#[trigger] atoms[i]).element_name),
        spin_sum(atoms, table, count) is Some,
    decreases count,
{
    if count > 0 {
        lemma_written_positions_have_entries(atoms, fractional, table, count - 1);
    }
}

/// If the table has an entry for each of the first `count` elements of
/// `list`, each has a pseudopotential file.
pub proof fn lemma_potential_names_exist(
    list: Seq<Seq<char>>,
    table: Map<Seq<char>, ElementView>,
    count: int,
)
    requires
        0 <= count <= list.len(),
        forall|k: int| 0 <= k < count ==> table.contains_key(#[trigger] list[k]),
    ensures
        potential_names(list, table, count) matches Some(names) && names.len() == count,
    decreases count,
{
    if count > 0 {
        lemma_potential_names_exist(list, table, count - 1);
    }
}

/// Prepares the export of the model of `cell`: what is to be written and
/// copied, and where. `fractional` are the fractional positions of the atoms;
/// `potentials` are the texts of the pseudopotential files of the elements of
/// the model, by ascending atomic number.
pub fn seed_export(
    cell: &Cell,
    fractional: &Vec<Point3>,
    element_infotab: &ElementTable,
    potentials: &Vec<String>,
) -> (r: Result<SeedExport, SeedError>)
    requires
        cell.wf(),
    ensures
        seed_export_result(
            match r {
                Ok(export) => Ok(export@),
                Err(e) => Err(e),
            },
            cell@.sorted,
            cell@.lattice,
            point_views(fractional@),
            element_infotab@,
            potentials.deep_view(),
        ),
{
    let ghost lattice = cell@.lattice;
    let ghost points = point_views(fractional@);
    let ghost texts = potentials.deep_view();
    let directory = match export_destination(cell) {
        Ok(path) => path,
        Err(e) => {
            return Err(e);
        },
    };
    let list = match cell.lattice().get_element_list() {
        Ok(list) => list,
        Err(_) => {
            return Err(SeedError::Export(ExportError::UnknownElement));
        },
    };
    let ghost elements = list.deep_view();
    proof {
        lemma_cell_text_errors(cell@.sorted, lattice, points, element_infotab@, elements);
    }
    let geometry = match cell_file(cell.sorted(), cell.lattice(), fractional, element_infotab, &list) {
        Ok(text) => text,
        Err(e) => {
            assert(cell_text(cell@.sorted, lattice, points, element_infotab@, elements) == Err::<
                Seq<char>,
                ExportError,
            >(e));
            return Err(SeedError::Export(e));
        },
    };
    proof {
        lemma_written_positions_have_entries(
            lattice.atoms,
            points,
            element_infotab@,
            lattice.atoms.len() as int,
        );
        assert forall|k: int| 0 <= k < elements.len() implies element_infotab@.contains_key(
            #[trigger] elements[k],
        ) by {
            assert(elements.contains(elements[k]));
            assert(has_element(lattice.atoms, elements[k]));
            let i = choose|i: int|
                0 <= i < lattice.atoms.len() && #[trigger] lattice.atoms[i].element_name
                    == elements[k];
            assert(element_infotab@.contains_key(lattice.atoms[i].element_name));
        }
        lemma_potential_names_exist(elements, element_infotab@, elements.len() as int);
    }
    if potentials.len() != list.len() {
        return Err(SeedError::PotentialCount);
    }
    assert(exportable(
        cell@.sorted,
        lattice,
        points,
        element_infotab@,
        elements,
        texts.len(),
    ));
    let cutoff_energy = match get_final_cutoff_energy(potentials) {
        Ok(energy) => energy,
        Err(e) => {
            return Err(SeedError::Cutoff(e));
        },
    };
    let mut files = match write_seed_files_for_cell(cell, element_infotab, cutoff_energy) {
        Ok(files) => files,
        Err(e) => {
            return Err(e);
        },
    };
    let ghost five = seed_file_views(files@);
    let path = match export_filepath(cell, ".cell") {
        Ok(path) => path,
        Err(e) => {
            return Err(e);
        },
    };
    files.push(SeedFile { path, text: geometry });
    assert(seed_file_views(files@) =~= five.push(
        SeedFileView { path: file_path(lattice, ".cell"@), text: geometry@ },
    ));
    let names = match potential_files(&list, element_infotab) {
        Some(names) => names,
        None => {
            return Err(SeedError::Export(ExportError::Lookup));
        },
    };
    let ghost wanted = names.deep_view();
    let mut copies: Vec<(String, String)> = Vec::new();
    let mut i: usize = 0;
    while i < names.len()
        invariant
            wanted == names.deep_view(),
            i <= names@.len(),
            copies@.len() == i,
            forall|k: int|
                0 <= k < i ==> ((#[trigger] copies@[k]).0@, copies@[k].1@) == potential_copy_of(
                    directory@,
                    wanted[k],
                ),
        decreases names@.len() - i,
    {
        assert(wanted[i as int] == names@[i as int]@);
        let mut source = String::from_str(POTENTIALS_DIR);
        source.append("/");
        source.append(names[i].as_str());
        let mut dest = directory.clone();
        dest.append("/");
        dest.append(names[i].as_str());
        copies.push((source, dest));
        i = i + 1;
    }
    let mut extension = directory.clone();
    extension.append("/");
    extension.append(copy_smcastep_extension(cell).as_str());
    copies.push((String::from_str(EXTENSION_SOURCE), extension));
    let export = SeedExport { directory, files, copies };
    proof {
        let expected = seed_export_of(
            cell@.sorted,
            lattice,
            points,
            element_infotab@,
            elements,
            cutoff_energy as nat,
        );
        assert(export@.copies =~= expected.copies);
        assert(export@.files =~= expected.files);
        assert(export@ == expected);
    }
    Ok(export)
}

/// The export without its two parameter files.
pub open spec fn without_params(export: SeedExportView) -> SeedExportView {
    SeedExportView { files: export.files.skip(2), ..export }
}

/// Whether the export of a model without its parameter files can be made
/// for the list `list` of its elements.
pub open spec fn rest_exportable(
    sorted: bool,
    lattice: LatticeView,
    fractional: Seq<PointView>,
    table: Map<Seq<char>, ElementView>,
    list: Seq<Seq<char>>,
) -> bool {
    &&& is_element_list(list, lattice.atoms)
    &&& cell_text(sorted, lattice, fractional, table, list) is Ok
    &&& potential_names(list, table, list.len() as int) is Some
}

/// What [`seed_export_rest`] returns: the export without its parameter
/// files for some list of the elements of the model, or the reason why the
/// first step that fails fails. The steps are: the directory (`MissingSite`),
/// the list of elements (`UnknownElement`), the geometry file (what it fails
/// with).
pub open spec fn seed_export_rest_result(
    r: Result<SeedExportView, SeedError>,
    sorted: bool,
    lattice: LatticeView,
    fractional: Seq<PointView>,
    table: Map<Seq<char>, ElementView>,
) -> bool {
    let sited = has_id(lattice.atoms, lattice.metal_sites[0] as int);
    match r {
        Err(SeedError::MissingSite) => !sited,
        Err(SeedError::Export(ExportError::UnknownElement)) => sited && has_unknown_element(
            lattice.atoms,
        ),
        Err(SeedError::Export(e)) => sited && exists|list: Seq<Seq<char>>|
            is_element_list(list, lattice.atoms) && #[trigger] cell_text(
                sorted,
                lattice,
                fractional,
                table,
                list,
            ) == Err::<Seq<char>, ExportError>(e),
        Err(_) => false,
        Ok(export) => sited && exists|list: Seq<Seq<char>>| #[trigger]
            rest_exportable(sorted, lattice, fractional, table, list) && export == without_params(
                seed_export_of(sorted, lattice, fractional, table, list, 0),
            ),
    }
}

/// Prepares the export of the model of `cell` without its two parameter
/// files, for a model whose parameter files are there: no cutoff energy is
/// needed, and so no pseudopotential file is read.
pub fn seed_export_rest(cell: &Cell, fractional: &Vec<Point3>, element_infotab: &ElementTable) -> (r:
    Result<SeedExport, SeedError>)
    requires
        cell.wf(),
    ensures
        seed_export_rest_result(
            match r {
                Ok(export) => Ok(export@),
                Err(e) => Err(e),
            },
            cell@.sorted,
            cell@.lattice,
            point_views(fractional@),
            element_infotab@,
        ),
{
    let ghost lattice = cell@.lattice;
    let ghost points = point_views(fractional@);
    let directory = match export_destination(cell) {
        Ok(path) => path,
        Err(e) => {
            return Err(e);
        },
    };
    let list = match cell.lattice().get_element_list() {
        Ok(list) => list,
        Err(_) => {
            return Err(SeedError::Export(ExportError::UnknownElement));
        },
    };
    let ghost elements = list.deep_view();
    proof {
        lemma_cell_text_errors(cell@.sorted, lattice, points, element_infotab@, elements);
    }
    let geometry = match cell_file(cell.sorted(), cell.lattice(), fractional, element_infotab, &list) {
        Ok(text) => text,
        Err(e) => {
            assert(cell_text(cell@.sorted, lattice, points, element_infotab@, elements) == Err::<
                Seq<char>,
                ExportError,
            >(e));
            return Err(SeedError::Export(e));
        },
    };
    proof {
        lemma_written_positions_have_entries(
            lattice.atoms,
            points,
            element_infotab@,
            lattice.atoms.len() as int,
        );
        assert forall|k: int| 0 <= k < elements.len() implies element_infotab@.contains_key(
            #[trigger] elements[k],
        ) by {
            assert(elements.contains(elements[k]));
            assert(has_element(lattice.atoms, elements[k]));
            let i = choose|i: int|
                0 <= i < lattice.atoms.len() && #[trigger] lattice.atoms[i].element_name
                    == elements[k];
            assert(element_infotab@.contains_key(lattice.atoms[i].element_name));
        }
        lemma_potential_names_exist(elements, element_infotab@, elements.len() as int);
    }
    assert(rest_exportable(cell@.sorted, lattice, points, element_infotab@, elements));
    let mut files: Vec<SeedFile> = Vec::new();
    match export_filepath(cell, ".kptaux") {
        Ok(path) => {
            files.push(SeedFile { path, text: write_kptaux(cell) });
        },
        Err(e) => {
            return Err(e);
        },
    }
    match export_filepath(cell, "_DOS.kptaux") {
        Ok(path) => {
            files.push(SeedFile { path, text: write_kptaux(cell) });
        },
        Err(e) => {
            return Err(e);
        },
    }
    match export_filepath(cell, ".trjaux") {
        Ok(path) => {
            files.push(SeedFile { path, text: write_trjaux(cell) });
        },
        Err(e) => {
            return Err(e);
        },
    }
    match export_filepath(cell, ".cell") {
        Ok(path) => {
            files.push(SeedFile { path, text: geometry });
        },
        Err(e) => {
            return Err(e);
        },
    }
    let names = match potential_files(&list, element_infotab) {
        Some(names) => names,
        None => {
            return Err(SeedError::Export(ExportError::Lookup));
        },
    };
    let ghost wanted = names.deep_view();
    let mut copies: Vec<(String, String)> = Vec::new();
    let mut i: usize = 0;
    while i < names.len()
        invariant
            wanted == names.deep_view(),
            i <= names@.len(),
            copies@.len() == i,
            forall|k: int|
                0 <= k < i ==> ((#[trigger] copies@[k]).0@, copies@[k].1@) == potential_copy_of(
                    directory@,
                    wanted[k],
                ),
        decreases names@.len() - i,
    {
        assert(wanted[i as int] == names@[i as int]@);
        let mut source = String::from_str(POTENTIALS_DIR);
        source.append("/");
        source.append(names[i].as_str());
        let mut dest = directory.clone();
        dest.append("/");
        dest.append(names[i].as_str());
        copies.push((source, dest));
        i = i + 1;
    }
    let mut extension = directory.clone();
    extension.append("/");
    extension.append(copy_smcastep_extension(cell).as_str());
    copies.push((String::from_str(EXTENSION_SOURCE), extension));
    let export = SeedExport { directory, files, copies };
    proof {
        let expected = without_params(
            seed_export_of(cell@.sorted, lattice, points, element_infotab@, elements, 0),
        );
        assert(export@.copies =~= expected.copies);
        assert(export@.files =~= expected.files);
        assert(export@ == expected);
    }
    Ok(export)
}

/// Decides whether a parameter file of the model of `cell` is still to be
/// written, given the paths `present` of the files that are there: whether
/// that of the geometry optimization or that of the band structure is not
/// among them. Only then is a cutoff energy needed. Fails with `MissingSite`
/// if the first designated site names no atom.
pub fn param_files_missing(cell: &Cell, present: &Vec<String>) -> (r: Result<bool, SeedError>)
    requires
        cell.wf(),
    ensures
        match r {
            Ok(missing) => has_id(cell@.lattice.atoms, cell@.lattice.metal_sites[0] as int)
                && missing == (!present.deep_view().contains(file_path(cell@.lattice, ".param"@))
                || !present.deep_view().contains(file_path(cell@.lattice, "_DOS.param"@))),
            Err(e) => e == SeedError::MissingSite && !has_id(
                cell@.lattice.atoms,
                cell@.lattice.metal_sites[0] as int,
            ),
        },
{
    let geom = match export_filepath(cell, ".param") {
        Ok(path) => path,
        Err(e) => {
            return Err(e);
        },
    };
    let dos = match export_filepath(cell, "_DOS.param") {
        Ok(path) => path,
        Err(e) => {
            return Err(e);
        },
    };
    Ok(!is_among(&geom, present) || !is_among(&dos, present))
}

} // verus!
