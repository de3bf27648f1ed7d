//! Adsorbates: small molecules that are put on a lattice.

use vstd::prelude::*;
use vstd::string::*;
use crate::atom::{Atom, AtomView, Export};
use crate::lattice::{atom_views, atoms_format_output, atoms_text};

verus! {

/// A molecule with the atoms that bind it, its stem and its plane.
#[derive(Debug)]
pub struct Adsorbate {
    mol_name: String,
    atoms_vec: Vec<Atom>,
    coord_atom_nums: u32,
    coord_atom_ids: Vec<u32>,
    stem_atom_ids: [u32; 2],
    plane_atom_ids: [u32; 3],
    vertical: bool,
    symmetric: bool,
    upper_atom_id: u32,
    pathway_name: String,
}

/// What an [`Adsorbate`] holds.
pub struct AdsorbateView {
    pub mol_name: Seq<char>,
    pub atoms: Seq<AtomView>,
    pub coord_atom_nums: u32,
    pub coord_atom_ids: Seq<u32>,
    pub stem_atom_ids: Seq<u32>,
    pub plane_atom_ids: Seq<u32>,
    pub vertical: bool,
    pub symmetric: bool,
    pub upper_atom_id: u32,
    pub pathway_name: Seq<char>,
}

impl View for Adsorbate {
    type V = AdsorbateView;

    closed spec fn view(&self) -> AdsorbateView {
        AdsorbateView {
            mol_name: self.mol_name@,
            atoms: atom_views(self.atoms_vec@),
            coord_atom_nums: self.coord_atom_nums,
            coord_atom_ids: self.coord_atom_ids@,
            stem_atom_ids: self.stem_atom_ids@,
            plane_atom_ids: self.plane_atom_ids@,
            vertical: self.vertical,
            symmetric: self.symmetric,
            upper_atom_id: self.upper_atom_id,
            pathway_name: self.pathway_name@,
        }
    }
}

/// The first place below `count` in `atoms` of an atom with the identifier
/// `id`, if there is one.
pub open spec fn first_with_id(atoms: Seq<AtomView>, id: u32, count: int) -> Option<int>
    decreases count,
{
    if count <= 0 {
        None
    } else {
        match first_with_id(atoms, id, count - 1) {
            Some(i) => Some(i),
            None => if atoms[count - 1].atom_id == id {
                Some(count - 1)
            } else {
                None
            },
        }
    }
}

/// Finds the first atom of `atoms` with the identifier `id`.
pub fn find_atom(atoms: &Vec<Atom>, id: u32) -> (r: Option<&Atom>)
    ensures
        match r {
            Some(atom) => first_with_id(atom_views(atoms@), id, atoms@.len() as int) matches Some(
                i,
            ) && 0 <= i < atoms@.len() && atoms@[i]@ == atom@ && atom@.atom_id == id,
            None => first_with_id(atom_views(atoms@), id, atoms@.len() as int) is None,
        },
{
    let ghost views = atom_views(atoms@);
    let mut i: usize = 0;
    while i < atoms.len()
        invariant
            views == atom_views(atoms@),
            i <= atoms@.len(),
            first_with_id(views, id, i as int) is None,
        decreases atoms@.len() - i,
    {
        assert(views[i as int] == atoms@[i as int]@);
        if atoms[i].atom_id() as u32 == id {
            proof {
                assert(first_with_id(views, id, i + 1) == Some(i as int));
                lemma_first_found(views, id, i + 1, views.len() as int);
            }
            return Some(&atoms[i]);
        }
        i = i + 1;
    }
    None
}

/// What was found first stays the first.
proof fn lemma_first_found(atoms: Seq<AtomView>, id: u32, count: int, more: int)
    requires
        0 <= count <= more,
        first_with_id(atoms, id, count) is Some,
    ensures
        first_with_id(atoms, id, more) == first_with_id(atoms, id, count),
    decreases more - count,
{
    if count < more {
        lemma_first_found(atoms, id, count, more - 1);
    }
}

impl Adsorbate {
    pub fn new(
        mol_name: String,
        atoms_vec: Vec<Atom>,
        coord_atom_nums: u32,
        coord_atom_ids: Vec<u32>,
        stem_atom_ids: [u32; 2],
        plane_atom_ids: [u32; 3],
        vertical: bool,
        symmetric: bool,
        upper_atom_id: u32,
        pathway_name: String,
    ) -> (r: Self)
        ensures
            r@ == (AdsorbateView {
                mol_name: mol_name@,
                atoms: atom_views(atoms_vec@),
                coord_atom_nums: coord_atom_nums,
                coord_atom_ids: coord_atom_ids@,
                stem_atom_ids: stem_atom_ids@,
                plane_atom_ids: plane_atom_ids@,
                vertical: vertical,
                symmetric: symmetric,
                upper_atom_id: upper_atom_id,
                pathway_name: pathway_name@,
            }),
    {
        Self {
            mol_name,
            atoms_vec,
            coord_atom_nums,
            coord_atom_ids,
            stem_atom_ids,
            plane_atom_ids,
            vertical,
            symmetric,
            upper_atom_id,
            pathway_name,
        }
    }

    pub fn set_adsorate_name(&mut self, new_name: &str)
        ensures
            final(self)@ == (AdsorbateView { mol_name: new_name@, ..old(self)@ }),
    {
        self.mol_name = String::from_str(new_name);
    }

    /// The atoms of the molecule.
    pub fn atoms_vec(&self) -> (r: &Vec<Atom>)
        ensures
            atom_views(r@) == self@.atoms,
    {
        &self.atoms_vec
    }

    /// Whether the molecule stands upright on the lattice.
    pub fn vertical(&self) -> (r: bool)
        ensures
            r == self@.vertical,
    {
        self.vertical
    }

    /// The two atoms between which the stem of the molecule runs: the first
    /// atom with each of the two identifiers of the stem. There are none if
    /// one of the identifiers is that of no atom.
    pub fn get_stem_atoms(&self) -> (r: Option<(&Atom, &Atom)>)
        ensures
            match r {
                Some((a, b)) => {
                    &&& first_with_id(
                        self@.atoms,
                        self@.stem_atom_ids[0],
                        self@.atoms.len() as int,
                    ) matches Some(i) && self@.atoms[i] == a@
                    &&& first_with_id(
                        self@.atoms,
                        self@.stem_atom_ids[1],
                        self@.atoms.len() as int,
                    ) matches Some(j) && self@.atoms[j] == b@
                },
                None => first_with_id(
                    self@.atoms,
                    self@.stem_atom_ids[0],
                    self@.atoms.len() as int,
                ) is None || first_with_id(
                    self@.atoms,
                    self@.stem_atom_ids[1],
                    self@.atoms.len() as int,
                ) is None,
            },
    {
        let ghost views = atom_views(self.atoms_vec@);
        match (
            find_atom(&self.atoms_vec, self.stem_atom_ids[0]),
            find_atom(&self.atoms_vec, self.stem_atom_ids[1]),
        ) {
            (Some(a), Some(b)) => {
                proof {
                    let i = first_with_id(views, self.stem_atom_ids[0], views.len() as int)->0;
                    let j = first_with_id(views, self.stem_atom_ids[1], views.len() as int)->0;
                    assert(views[i] == self.atoms_vec@[i]@);
                    assert(views[j] == self.atoms_vec@[j]@);
                }
                Some((a, b))
            },
            _ => None,
        }
    }

    /// The three atoms that span the plane of the molecule: the first atom
    /// with each of the three identifiers of the plane. There are none if one
    /// of the identifiers is that of no atom.
    pub fn get_plane_atoms(&self) -> (r: Option<(&Atom, &Atom, &Atom)>)
        ensures
            match r {
                Some((a, b, c)) => {
                    &&& first_with_id(
                        self@.atoms,
                        self@.plane_atom_ids[0],
                        self@.atoms.len() as int,
                    ) matches Some(i) && self@.atoms[i] == a@
                    &&& first_with_id(
                        self@.atoms,
                        self@.plane_atom_ids[1],
                        self@.atoms.len() as int,
                    ) matches Some(j) && self@.atoms[j] == b@
                    &&& first_with_id(
                        self@.atoms,
                        self@.plane_atom_ids[2],
                        self@.atoms.len() as int,
                    ) matches Some(k) && self@.atoms[k] == c@
                },
                None => first_with_id(
                    self@.atoms,
                    self@.plane_atom_ids[0],
                    self@.atoms.len() as int,
                ) is None || first_with_id(
                    self@.atoms,
                    self@.plane_atom_ids[1],
                    self@.atoms.len() as int,
                ) is None || first_with_id(
                    self@.atoms,
                    self@.plane_atom_ids[2],
                    self@.atoms.len() as int,
                ) is None,
            },
    {
        let ghost views = atom_views(self.atoms_vec@);
        match (
            find_atom(&self.atoms_vec, self.plane_atom_ids[0]),
            find_atom(&self.atoms_vec, self.plane_atom_ids[1]),
            find_atom(&self.atoms_vec, self.plane_atom_ids[2]),
        ) {
            (Some(a), Some(b), Some(c)) => {
                proof {
                    let i = first_with_id(views, self.plane_atom_ids[0], views.len() as int)->0;
                    let j = first_with_id(views, self.plane_atom_ids[1], views.len() as int)->0;
                    let k = first_with_id(views, self.plane_atom_ids[2], views.len() as int)->0;
                    assert(views[i] == self.atoms_vec@[i]@);
                    assert(views[j] == self.atoms_vec@[j]@);
                    assert(views[k] == self.atoms_vec@[k]@);
                }
                Some((a, b, c))
            },
            _ => None,
        }
    }
}

impl Export for Adsorbate {
    open spec fn output(&self) -> Seq<char> {
        atoms_text(self@.atoms)
    }

    fn format_output(&self) -> (r: String) {
        atoms_format_output(&self.atoms_vec)
    }
}

} // verus!
