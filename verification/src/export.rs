//! The seed files of a variant, ready to be written.
//!
//! Nothing here touches a disk: a package lists the files of a variant with
//! their names and texts, and the caller writes those that are not there yet.

use vstd::prelude::*;
use vstd::string::*;
use crate::atom::Point3;
use crate::cell::{cell_text, has_unknown_element, Cell, ExportError};
use crate::edit::Model;
use crate::element_table::ElementTable;
use crate::lattice::{base_name, is_element_list, point_views};
use crate::param_writer::{
    lemma_written_positions_have_entries, param_content, param_text, spin_sum, spin_total,
    CastepTask,
};

verus! {

/// A file to be written: its path and its text.
#[derive(Debug)]
pub struct SeedFile {
    pub path: String,
    pub text: String,
}

/// What a [`SeedFile`] holds.
pub struct SeedFileView {
    pub path: Seq<char>,
    pub text: Seq<char>,
}

impl View for SeedFile {
    type V = SeedFileView;

    open spec fn view(&self) -> SeedFileView {
        SeedFileView { path: self.path@, text: self.text@ }
    }
}

/// The views of `files`.
pub open spec fn seed_file_views(files: Seq<SeedFile>) -> Seq<SeedFileView> {
    Seq::new(files.len(), |i: int| files[i]@)
}

/// The geometry file and the parameter file of one calculation.
#[derive(Debug)]
pub struct ExportPackage {
    filename_stem: String,
    full_cell_doc: String,
    param: String,
    potentials_loc: String,
}

/// What an [`ExportPackage`] holds.
pub struct ExportPackageView {
    pub filename_stem: Seq<char>,
    pub full_cell_doc: Seq<char>,
    pub param: Seq<char>,
    pub potentials_loc: Seq<char>,
}

impl View for ExportPackage {
    type V = ExportPackageView;

    closed spec fn view(&self) -> ExportPackageView {
        ExportPackageView {
            filename_stem: self.filename_stem@,
            full_cell_doc: self.full_cell_doc@,
            param: self.param@,
            potentials_loc: self.potentials_loc@,
        }
    }
}

/// The path of the file named `stem` with the ending `ending` in the
/// directory `dest_dir`.
pub open spec fn path_in(dest_dir: Seq<char>, stem: Seq<char>, ending: Seq<char>) -> Seq<char> {
    dest_dir + "/"@ + stem + ending
}

/// The two files of a package in the directory `dest_dir`: the geometry
/// file, then the parameter file.
pub open spec fn package_files(pack: ExportPackageView, dest_dir: Seq<char>) -> Seq<SeedFileView> {
    seq![
        SeedFileView {
            path: path_in(dest_dir, pack.filename_stem, ".cell"@),
            text: pack.full_cell_doc,
        },
        SeedFileView { path: path_in(dest_dir, pack.filename_stem, ".param"@), text: pack.param },
    ]
}

/// Names the file `stem` with the ending `ending` in `dest_dir`.
pub fn join_path(dest_dir: &str, stem: &str, ending: &str) -> (r: String)
    ensures
        r@ == path_in(dest_dir@, stem@, ending@),
{
    let mut path = String::from_str(dest_dir);
    path.append("/");
    path.append(stem);
    path.append(ending);
    path
}

impl ExportPackage {
    pub fn new(model_stem: String, full_cell_doc: String, param: String, potentials_loc: String) -> (r:
        Self)
        ensures
            r@ == (ExportPackageView {
                filename_stem: model_stem@,
                full_cell_doc: full_cell_doc@,
                param: param@,
                potentials_loc: potentials_loc@,
            }),
    {
        Self { filename_stem: model_stem, full_cell_doc, param, potentials_loc }
    }

    /// The geometry file and the parameter file in `dest_dir`.
    pub fn write_to_path(&self, dest_dir: &str) -> (r: Vec<SeedFile>)
        ensures
            seed_file_views(r@) == package_files(self@, dest_dir@),
    {
        let mut files: Vec<SeedFile> = Vec::new();
        files.push(
            SeedFile {
                path: join_path(dest_dir, self.filename_stem.as_str(), ".cell"),
                text: self.full_cell_doc.clone(),
            },
        );
        files.push(
            SeedFile {
                path: join_path(dest_dir, self.filename_stem.as_str(), ".param"),
                text: self.param.clone(),
            },
        );
        assert(seed_file_views(files@) =~= package_files(self@, dest_dir@));
        files
    }

    /// The path of the crystallographic information file in `dest_dir`.
    pub fn write_cif_to_path(&self, dest_dir: &str) -> (r: String)
        ensures
            r@ == path_in(dest_dir@, self@.filename_stem, ".cif"@),
    {
        join_path(dest_dir, self.filename_stem.as_str(), ".cif")
    }

    /// The path of the geometry file in `dest_dir`, which the job script
    /// is written for.
    pub fn write_script(&self, dest_dir: &str) -> (r: String)
        ensures
            r@ == path_in(dest_dir@, self@.filename_stem, ".cell"@),
    {
        join_path(dest_dir, self.filename_stem.as_str(), ".cell")
    }

    pub fn potentials_loc(&self) -> (r: &String)
        ensures
            r@ == self@.potentials_loc,
    {
        &self.potentials_loc
    }

    /// The name of the files of the package, without ending.
    pub fn filename_stem(&self) -> (r: &str)
        ensures
            r@ == self@.filename_stem,
    {
        self.filename_stem.as_str()
    }
}

/// The seed files of a variant: those of the geometry optimization and
/// those of the band structure, and where they go.
#[derive(Debug)]
pub struct SeedFilePackage {
    geom_pack: ExportPackage,
    bs_pack: ExportPackage,
    parent_dir: String,
    output_dir: String,
}

/// What a [`SeedFilePackage`] holds.
pub struct SeedFilePackageView {
    pub geom_pack: ExportPackageView,
    pub bs_pack: ExportPackageView,
    pub parent_dir: Seq<char>,
    pub output_dir: Seq<char>,
}

impl View for SeedFilePackage {
    type V = SeedFilePackageView;

    closed spec fn view(&self) -> SeedFilePackageView {
        SeedFilePackageView {
            geom_pack: self.geom_pack@,
            bs_pack: self.bs_pack@,
            parent_dir: self.parent_dir@,
            output_dir: self.output_dir@,
        }
    }
}

/// The source and the destination of the copy of the pseudopotential file
/// named `name`.
pub open spec fn potential_copy(
    potentials_loc: Seq<char>,
    output_dir: Seq<char>,
    name: Seq<char>,
) -> (Seq<char>, Seq<char>) {
    (potentials_loc + "/"@ + name, output_dir + "/"@ + name)
}

impl SeedFilePackage {
    pub fn new(
        geom_pack: ExportPackage,
        bs_pack: ExportPackage,
        parent_dir: String,
        output_dir: String,
    ) -> (r: Self)
        ensures
            r@ == (SeedFilePackageView {
                geom_pack: geom_pack@,
                bs_pack: bs_pack@,
                parent_dir: parent_dir@,
                output_dir: output_dir@,
            }),
    {
        Self { geom_pack, bs_pack, parent_dir, output_dir }
    }

    /// The directories that have to be there before the files are written:
    /// the parent, then the directory of the variant.
    pub fn directory_check(&self) -> (r: (&str, &str))
        ensures
            r.0@ == self@.parent_dir,
            r.1@ == self@.output_dir,
    {
        (self.parent_dir.as_str(), self.output_dir.as_str())
    }

    /// The files of the variant in its directory: the two of the geometry
    /// optimization, then the two of the band structure.
    pub fn write_to_dir(&self) -> (r: Vec<SeedFile>)
        ensures
            seed_file_views(r@) == package_files(self@.geom_pack, self@.output_dir) + package_files(
                self@.bs_pack,
                self@.output_dir,
            ),
    {
        let mut files = self.geom_pack.write_to_path(self.output_dir.as_str());
        let mut more = self.bs_pack.write_to_path(self.output_dir.as_str());
        let ghost first = seed_file_views(files@);
        let ghost second = seed_file_views(more@);
        files.append(&mut more);
        assert(seed_file_views(files@) =~= first + second);
        files
    }

    /// For each pseudopotential file named in `names`, where it is copied
    /// from and where to.
    pub fn copy_potentials(&self, names: &Vec<String>) -> (r: Vec<(String, String)>)
        ensures
            r@.len() == names@.len(),
            forall|i: int|
                0 <= i < r@.len() ==> ((#[trigger] r@[i]).0@, r@[i].1@) == potential_copy(
                    self@.geom_pack.potentials_loc,
                    self@.output_dir,
                    names@[i]@,
                ),
    {
        let mut copies: Vec<(String, String)> = Vec::new();
        let mut i: usize = 0;
        while i < names.len()
            invariant
                i <= names@.len(),
                copies@.len() == i,
                forall|k: int|
                    0 <= k < i ==> ((#[trigger] copies@[k]).0@, copies@[k].1@) == potential_copy(
                        self@.geom_pack.potentials_loc,
                        self@.output_dir,
                        names@[k]@,
                    ),
            decreases names@.len() - i,
        {
            let mut source = self.geom_pack.potentials_loc.clone();
            source.append("/");
            source.append(names[i].as_str());
            let mut dest = self.output_dir.clone();
            dest.append("/");
            dest.append(names[i].as_str());
            copies.push((source, dest));
            i = i + 1;
        }
        copies
    }
}

/// The name of the files of a calculation of the model named `name`.
pub open spec fn stem_of(name: Seq<char>, task: CastepTask) -> Seq<char> {
    match task {
        CastepTask::BandStructure => name + "_DOS"@,
        CastepTask::GeometryOptimization => name,
    }
}

impl Model {
    /// Makes the geometry file and the parameter file of the calculation
    /// `task` for the model. `cell` is the lattice of the model, sorted and
    /// turned; `fractional` are the fractional positions of its atoms.
    pub fn export_files(
        &self,
        cell: &Cell,
        fractional: &Vec<Point3>,
        element_info: &ElementTable,
        cutoff_energy: u64,
        potentials_loc: &str,
        task: CastepTask,
    ) -> (r: Result<ExportPackage, ExportError>)
        requires
            self.wf(),
            cell.wf(),
        ensures
            match r {
                Err(ExportError::UnknownElement) => has_unknown_element(cell@.lattice.atoms),
                Ok(pack) => {
                    &&& pack@.filename_stem == stem_of(
                        base_name(self@.symbols[0], self@.symbols[1], self@.symbols[2]),
                        task,
                    )
                    &&& pack@.potentials_loc == potentials_loc@
                    &&& spin_sum(
                        cell@.lattice.atoms,
                        element_info@,
                        cell@.lattice.atoms.len() as int,
                    ) matches Some(spin) && pack@.param == param_text(
                        task,
                        spin,
                        cutoff_energy as nat,
                    )
                    &&& exists|list: Seq<Seq<char>>|
                        is_element_list(list, cell@.lattice.atoms) && #[trigger] cell_text(
                            cell@.sorted,
                            cell@.lattice,
                            point_views(fractional@),
                            element_info@,
                            list,
                        ) == Ok::<Seq<char>, ExportError>(pack@.full_cell_doc)
                },
                Err(e) => exists|list: Seq<Seq<char>>|
                    is_element_list(list, cell@.lattice.atoms) && #[trigger] cell_text(
                        cell@.sorted,
                        cell@.lattice,
                        point_views(fractional@),
                        element_info@,
                        list,
                    ) == Err::<Seq<char>, ExportError>(e),
            },
    {
        let full_cell_doc = match cell.format_output(fractional, element_info) {
            Ok(text) => text,
            Err(e) => {
                return Err(e);
            },
        };
        let lattice = cell.lattice();
        proof {
            lattice.lemma_at_most_255();
            lemma_written_positions_have_entries(
                cell@.lattice.atoms,
                point_views(fractional@),
                element_info@,
                cell@.lattice.atoms.len() as int,
            );
        }
        let spin = match spin_total(lattice.atoms_vec(), element_info) {
            Some(spin) => spin,
            None => {
                return Err(ExportError::Lookup);
            },
        };
        let mut stem = self.output_name();
        match task {
            CastepTask::BandStructure => {
                stem.append("_DOS");
            },
            CastepTask::GeometryOptimization => {},
        }
        Ok(
            ExportPackage::new(
                stem,
                full_cell_doc,
                param_content(task, spin, cutoff_energy),
                String::from_str(potentials_loc),
            ),
        )
    }
}

} // verus!
