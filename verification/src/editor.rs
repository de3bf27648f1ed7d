//! Substituting the metals on the designated sites of a seed model.

use vstd::prelude::*;
use vstd::string::*;
use crate::atom::{Atom, AtomView, Export};
use crate::bindings::{periodic_table_entry, periodic_table_lookup};
use crate::lattice::{
    base_name, edited_atoms, model_text, sites_present, Lattice, LatticeError, LatticeView,
};

verus! {

/// A family of metals, by the range of its atomic numbers.
#[derive(Debug, Clone, Copy, PartialEq, Eq, Structural)]
pub enum Family {
    /// 21 to 30.
    Metal3d,
    /// 39 to 48.
    Metal4d,
    /// 72 to 80.
    Metal5d,
    /// 57 to 71.
    RareEarth,
    /// Any other element.
    Else,
}

/// The family of the element with the atomic number `atomic_number`.
pub open spec fn family_of(atomic_number: int) -> Family {
    if 21 <= atomic_number <= 30 {
        Family::Metal3d
    } else if 39 <= atomic_number <= 48 {
        Family::Metal4d
    } else if 72 <= atomic_number <= 80 {
        Family::Metal5d
    } else if 57 <= atomic_number <= 71 {
        Family::RareEarth
    } else {
        Family::Else
    }
}

/// The name of the directory of a family.
pub open spec fn family_dir(family: Family) -> Seq<char> {
    match family {
        Family::Metal3d => "3d"@,
        Family::Metal4d => "4d"@,
        Family::Metal5d => "5d"@,
        Family::RareEarth => "rare_earth"@,
        Family::Else => "else"@,
    }
}

/// Finds the family of an element.
pub fn family(atomic_number: u32) -> (r: Family)
    ensures
        r == family_of(atomic_number as int),
{
    if 21 <= atomic_number && atomic_number <= 30 {
        Family::Metal3d
    } else if 39 <= atomic_number && atomic_number <= 48 {
        Family::Metal4d
    } else if 72 <= atomic_number && atomic_number <= 80 {
        Family::Metal5d
    } else if 57 <= atomic_number && atomic_number <= 71 {
        Family::RareEarth
    } else {
        Family::Else
    }
}

/// The name of the directory of a family.
pub fn family_dir_name(family: Family) -> (r: &'static str)
    ensures
        r@ == family_dir(family),
{
    match family {
        Family::Metal3d => "3d",
        Family::Metal4d => "4d",
        Family::Metal5d => "5d",
        Family::RareEarth => "rare_earth",
        Family::Else => "else",
    }
}

/// Gives `target_atom` another element.
pub fn change_atom_element(target_atom: &mut Atom, new_element_name: &str, new_element_id: u8)
    ensures
        final(target_atom)@ == (AtomView {
            element_name: new_element_name@,
            element_id: new_element_id,
            ..old(target_atom)@
        }),
{
    target_atom.set_element_name(new_element_name);
    target_atom.set_element_id(new_element_id);
}

/// A metal that may stand on a designated site.
#[derive(Debug)]
pub struct Metal {
    pub atomic_number: u8,
    pub symbol: String,
}

/// What a [`Metal`] holds.
pub struct MetalView {
    pub atomic_number: u8,
    pub symbol: Seq<char>,
}

impl View for Metal {
    type V = MetalView;

    open spec fn view(&self) -> MetalView {
        MetalView { atomic_number: self.atomic_number, symbol: self.symbol@ }
    }
}

/// The views of `metals`.
pub open spec fn metal_views(metals: Seq<Metal>) -> Seq<MetalView> {
    Seq::new(metals.len(), |i: int| metals[i]@)
}

/// A structure file to be written: where, and what.
#[derive(Debug)]
pub struct ModelFile {
    pub path: String,
    pub text: String,
}

/// What a [`ModelFile`] holds.
pub struct ModelFileView {
    pub path: Seq<char>,
    pub text: Seq<char>,
}

impl View for ModelFile {
    type V = ModelFileView;

    open spec fn view(&self) -> ModelFileView {
        ModelFileView { path: self.path@, text: self.text@ }
    }
}

/// The views of `files`.
pub open spec fn file_views(files: Seq<ModelFile>) -> Seq<ModelFileView> {
    Seq::new(files.len(), |i: int| files[i]@)
}

/// The directory of the models whose first metal is `element`: under the
/// root the directory of its family, under it that of the metal.
pub open spec fn metal_destination(element: MetalView) -> Seq<char> {
    "./GDY_TAC_models/"@ + family_dir(family_of(element.atomic_number as int)) + "/"@
        + element.symbol
}

/// Names the directory of the models whose first metal is `element`.
pub fn export_destination(element: &Metal) -> (r: String)
    ensures
        r@ == metal_destination(element@),
{
    let mut path = String::from_str("./GDY_TAC_models/");
    path.append(family_dir_name(family(element.atomic_number as u32)));
    path.append("/");
    path.append(element.symbol.as_str());
    path
}

/// The structure file of the seed model `seed` with `main` on its first two
/// designated sites and `other` on the third: it is named after the three
/// metals and goes to a directory of its own under that of `main`.
pub open spec fn pair_file(seed: LatticeView, main: MetalView, other: MetalView) -> ModelFileView {
    let name = base_name(main.symbol, main.symbol, other.symbol);
    ModelFileView {
        path: metal_destination(main) + "/"@ + name + "_opt/"@ + name + ".msi"@,
        text: model_text(
            edited_atoms(
                seed,
                seq![main.atomic_number, main.atomic_number, other.atomic_number],
                seq![main.symbol, main.symbol, other.symbol],
            ),
        ),
    }
}

/// The structure files of the seed model for the first `count` pairs of
/// metals: the pair `k` is the metal `k / n` with the metal `k % n`, where `n`
/// is the number of metals.
pub open spec fn pair_files(seed: LatticeView, metals: Seq<MetalView>, count: int) -> Seq<
    ModelFileView,
> {
    Seq::new(
        count as nat,
        |k: int| pair_file(seed, metals[k / (metals.len() as int)], metals[k % (metals.len() as int)]),
    )
}

/// Makes the structure file of the seed model with `main` on its first two
/// designated sites and `other` on the third. The seed model stays as it is.
/// Fails with `MissingSite` if a designated site names no atom.
pub fn pair_model(target_lattice: &Lattice, main: &Metal, other: &Metal) -> (r: Result<
    ModelFile,
    LatticeError,
>)
    requires
        target_lattice.wf(),
    ensures
        match r {
            Ok(file) => sites_present(target_lattice@) && file@ == pair_file(
                target_lattice@,
                main@,
                other@,
            ),
            Err(e) => e == LatticeError::MissingSite && !sites_present(target_lattice@),
        },
{
    let mut lattice = target_lattice.clone();
    let numbers: [u8; 3] = [main.atomic_number, main.atomic_number, other.atomic_number];
    match lattice.substitute_sites(
        &numbers,
        main.symbol.as_str(),
        main.symbol.as_str(),
        other.symbol.as_str(),
    ) {
        Ok(()) => {},
        Err(e) => {
            return Err(e);
        },
    }
    assert(numbers@ =~= seq![main.atomic_number, main.atomic_number, other.atomic_number]);
    let mut name = String::from_str("GDY_");
    name.append(main.symbol.as_str());
    name.append("_");
    name.append(main.symbol.as_str());
    name.append("_");
    name.append(other.symbol.as_str());
    let mut path = export_destination(main);
    path.append("/");
    path.append(name.as_str());
    path.append("_opt/");
    path.append(name.as_str());
    path.append(".msi");
    let text = lattice.format_output();
    Ok(ModelFile { path, text })
}

/// Makes the structure files of the seed model for every pair of metals:
/// the first of the pair on the first two designated sites, the second on
/// the third. The seed model stays as it is. Fails with `MissingSite` if
/// there is a metal and a designated site names no atom.
pub fn iterate_over_elements(target_lattice: &Lattice, to_use_metals: &Vec<Metal>) -> (r: Result<
    Vec<ModelFile>,
    LatticeError,
>)
    requires
        target_lattice.wf(),
    ensures
        match r {
            Ok(files) => {
                &&& to_use_metals@.len() > 0 ==> sites_present(target_lattice@)
                &&& files@.len() == to_use_metals@.len() * to_use_metals@.len()
                &&& file_views(files@) == pair_files(
                    target_lattice@,
                    metal_views(to_use_metals@),
                    files@.len() as int,
                )
            },
            Err(e) => e == LatticeError::MissingSite && to_use_metals@.len() > 0 && !sites_present(
                target_lattice@,
            ),
        },
{
    let n = to_use_metals.len();
    let ghost metals = metal_views(to_use_metals@);
    let mut files: Vec<ModelFile> = Vec::new();
    let mut a: usize = 0;
    while a < n
        invariant
            target_lattice.wf(),
            n == to_use_metals@.len(),
            metals == metal_views(to_use_metals@),
            a <= n,
            a > 0 ==> sites_present(target_lattice@),
            files@.len() == a * n,
            forall|k: int|
                0 <= k < files@.len() ==> (#[trigger] files@[k])@ == pair_file(
                    target_lattice@,
                    metals[k / (n as int)],
                    metals[k % (n as int)],
                ),
        decreases n - a,
    {
        let mut b: usize = 0;
        while b < n
            invariant
                target_lattice.wf(),
                n == to_use_metals@.len(),
                metals == metal_views(to_use_metals@),
                a < n,
                b <= n,
                a > 0 || b > 0 ==> sites_present(target_lattice@),
                files@.len() == a * n + b,
                forall|k: int|
                    0 <= k < files@.len() ==> (#[trigger] files@[k])@ == pair_file(
                        target_lattice@,
                        metals[k / (n as int)],
                        metals[k % (n as int)],
                    ),
            decreases n - b,
        {
            proof {
                let k = a * n + b;
                assert(k % (n as int) == b && k / (n as int) == a) by (nonlinear_arith)
                    requires
                        k == a * n + b,
                        0 <= b < n,
                        0 <= a,
                ;
            }
            match pair_model(target_lattice, &to_use_metals[a], &to_use_metals[b]) {
                Ok(file) => {
                    files.push(file);
                },
                Err(e) => {
                    return Err(e);
                },
            }
            b = b + 1;
        }
        assert((a + 1) * n == a * n + n) by (nonlinear_arith);
        a = a + 1;
    }
    assert(file_views(files@) =~= pair_files(target_lattice@, metals, files@.len() as int));
    Ok(files)
}

/// The metal that the periodic table holds at `index`, if the table is that
/// long and the atomic number is below 256.
pub open spec fn table_metal(index: usize) -> Option<MetalView> {
    match periodic_table_entry(index) {
        Some((number, symbol)) => if number <= 255 {
            Some(MetalView { atomic_number: number as u8, symbol: symbol })
        } else {
            None
        },
        None => None,
    }
}

/// The places in the periodic table of the metals that take the designated
/// sites: 20 to 29 (the 3d metals), 38 to 47 (the 4d metals), 71 to 79 (the
/// 5d metals) and 56 to 70 (the rare earths), in this order.
pub open spec fn base_places() -> Seq<usize> {
    Seq::new(10, |i: int| (20 + i) as usize) + Seq::new(10, |i: int| (38 + i) as usize) + Seq::new(
        9,
        |i: int| (71 + i) as usize,
    ) + Seq::new(15, |i: int| (56 + i) as usize)
}

/// Reads from the periodic table the metals at the places `first` up to,
/// not including, `end`, and appends them to `metals`. Returns `false` at the
/// first place that holds no metal.
fn push_metals(metals: &mut Vec<Metal>, first: usize, end: usize) -> (ok: bool)
    requires
        first <= end,
    ensures
        ok ==> metal_views(final(metals)@) == metal_views(old(metals)@) + Seq::new(
            (end - first) as nat,
            |i: int| table_metal((first + i) as usize).unwrap(),
        ),
        ok <==> forall|i: usize| first <= i < end ==> #[trigger] table_metal(i) is Some,
{
    let ghost before = metal_views(metals@);
    let mut at: usize = first;
    while at < end
        invariant
            first <= at <= end,
            metal_views(metals@) == before + Seq::new(
                (at - first) as nat,
                |i: int| table_metal((first + i) as usize).unwrap(),
            ),
            forall|i: usize| first <= i < at ==> #[trigger] table_metal(i) is Some,
        decreases end - at,
    {
        let metal = match periodic_table_lookup(at) {
            Some((number, symbol)) => {
                if number > 255 {
                    return false;
                }
                Metal { atomic_number: number as u8, symbol }
            },
            None => {
                return false;
            },
        };
        let ghost so_far = metal_views(metals@);
        metals.push(metal);
        assert(metal_views(metals@) =~= so_far.push(table_metal(at).unwrap()));
        assert(metal_views(metals@) =~= before + Seq::new(
            (at + 1 - first) as nat,
            |i: int| table_metal((first + i) as usize).unwrap(),
        ));
        at = at + 1;
    }
    true
}

/// Whether the periodic table holds a metal at each of the places of
/// [`base_places`].
pub open spec fn base_metals_known() -> bool {
    forall|i: int| 0 <= i < base_places().len() ==> table_metal(#[trigger] base_places()[i]) is Some
}

/// The metals that take the designated sites, read from the periodic
/// table. There are none if the table lacks one of them.
pub fn base_metals() -> (r: Option<Vec<Metal>>)
    ensures
        match r {
            Some(metals) => base_metals_known() && metal_views(metals@) == Seq::new(
                44,
                |i: int| table_metal(base_places()[i]).unwrap(),
            ),
            None => !base_metals_known(),
        },
{
    let mut metals: Vec<Metal> = Vec::new();
    assert(metal_views(metals@) =~= Seq::<MetalView>::empty());
    if !push_metals(&mut metals, 20, 30) {
        proof {
            let i = choose|i: usize| 20 <= i < 30 && #[trigger] table_metal(i) is None;
            assert(base_places()[i - 20] == i);
        }
        return None;
    }
    if !push_metals(&mut metals, 38, 48) {
        proof {
            let i = choose|i: usize| 38 <= i < 48 && #[trigger] table_metal(i) is None;
            assert(base_places()[i - 38 + 10] == i);
        }
        return None;
    }
    if !push_metals(&mut metals, 71, 80) {
        proof {
            let i = choose|i: usize| 71 <= i < 80 && #[trigger] table_metal(i) is None;
            assert(base_places()[i - 71 + 20] == i);
        }
        return None;
    }
    if !push_metals(&mut metals, 56, 71) {
        proof {
            let i = choose|i: usize| 56 <= i < 71 && #[trigger] table_metal(i) is None;
            assert(base_places()[i - 56 + 29] == i);
        }
        return None;
    }
    proof {
        assert forall|i: int| 0 <= i < base_places().len() implies table_metal(
            #[trigger] base_places()[i],
        ) is Some by {
            if i < 10 {
                assert(base_places()[i] == (20 + i) as usize);
            } else if i < 20 {
                assert(base_places()[i] == (38 + i - 10) as usize);
            } else if i < 29 {
                assert(base_places()[i] == (71 + i - 20) as usize);
            } else {
                assert(base_places()[i] == (56 + i - 29) as usize);
            }
        }
        assert(metal_views(metals@) =~= Seq::new(
            44,
            |i: int| table_metal(base_places()[i]).unwrap(),
        ));
    }
    Some(metals)
}

/// Why the structure files of the base models are not made.
#[derive(Debug, Clone, Copy, PartialEq, Eq, Structural)]
pub enum BaseModelError {
    /// The periodic table lacks one of the metals.
    UnknownElement,
    /// A designated site names no atom of the seed model.
    MissingSite,
}

/// Makes the structure files of all base models of the seed model
/// `src_lattice`: one for every pair of the 44 metals.
pub fn generate_all_base_models(src_lattice: &Lattice) -> (r: Result<
    Vec<ModelFile>,
    BaseModelError,
>)
    requires
        src_lattice.wf(),
    ensures
        match r {
            Ok(files) => {
                &&& base_metals_known()
                &&& sites_present(src_lattice@)
                &&& files@.len() == 1936
                &&& file_views(files@) == pair_files(
                    src_lattice@,
                    Seq::new(44, |i: int| table_metal(base_places()[i]).unwrap()),
                    1936,
                )
            },
            Err(BaseModelError::UnknownElement) => !base_metals_known(),
            Err(BaseModelError::MissingSite) => base_metals_known() && !sites_present(
                src_lattice@,
            ),
        },
{
    let metals = match base_metals() {
        Some(metals) => metals,
        None => {
            return Err(BaseModelError::UnknownElement);
        },
    };
    proof {
        let n = metals@.len();
        assert(metal_views(metals@).len() == 44);
        assert(n * n == 1936) by (nonlinear_arith)
            requires
                n == 44,
        ;
    }
    match iterate_over_elements(src_lattice, &metals) {
        Ok(files) => Ok(files),
        Err(_) => Err(BaseModelError::MissingSite),
    }
}

} // verus!
