//! The variants of a seed model: one for each choice of three metals.

use vstd::prelude::*;
use vstd::string::*;
use crate::bindings::{
    combinations_from, combinations_with_replacement, element_symbol_name, symbol_of_atomic_number,
};
use crate::combos::{lemma_combinations_shape, lemma_three_of};
use crate::editor::{family, family_of, Family};
use crate::lattice::{base_name, edited_atoms, sites_present, Lattice, LatticeView};

verus! {

/// Why a seed model cannot be edited.
#[derive(Debug, Clone, Copy, PartialEq, Eq, Structural)]
pub enum EditError {
    /// A designated site names no atom of the seed model.
    MissingSite,
    /// An atomic number is that of no element.
    UnknownElement,
}

/// The atomic numbers `first` to `last`, ascending.
pub open spec fn number_range(first: int, last: int) -> Seq<u8> {
    Seq::new((last - first + 1) as nat, |i: int| (first + i) as u8)
}

/// The atomic numbers of the candidate metals: the 3d metals (21 to 30),
/// the 4d metals (39 to 48), the 5d metals (72 to 80) and the rare earths
/// (57 to 71), in this order.
pub open spec fn candidate_numbers() -> Seq<u8> {
    number_range(21, 30) + number_range(39, 48) + number_range(72, 80) + number_range(57, 71)
}

/// The name of a family in the name of a directory of variants.
pub open spec fn family_tag(family: Family) -> Seq<char> {
    match family {
        Family::Metal3d => "3d"@,
        Family::Metal4d => "4d"@,
        Family::Metal5d => "5d"@,
        Family::RareEarth => "RE"@,
        Family::Else => "else"@,
    }
}

/// Whether each of the three atomic numbers `combo` is that of an element.
pub open spec fn symbols_known(combo: Seq<u8>) -> bool {
    &&& element_symbol_name(combo[0]) is Some
    &&& element_symbol_name(combo[1]) is Some
    &&& element_symbol_name(combo[2]) is Some
}

/// The symbols of the three atomic numbers `combo`.
pub open spec fn symbols_of(combo: Seq<u8>) -> Seq<Seq<char>> {
    seq![
        element_symbol_name(combo[0]).unwrap(),
        element_symbol_name(combo[1]).unwrap(),
        element_symbol_name(combo[2]).unwrap(),
    ]
}

/// The variant of `seed` for `combo`: the same model with the three metals
/// on its designated sites, or why there is none.
pub open spec fn edited(seed: LatticeView, combo: Seq<u8>) -> Result<LatticeView, EditError> {
    if !symbols_known(combo) {
        Err(EditError::UnknownElement)
    } else if !sites_present(seed) {
        Err(EditError::MissingSite)
    } else {
        Ok(LatticeView { atoms: edited_atoms(seed, combo, symbols_of(combo)), ..seed })
    }
}

/// A variant of the seed model: the model with three metals on its
/// designated sites.
#[derive(Debug)]
pub struct Model {
    basic_cell: Lattice,
    new_elements: [u8; 3],
    symbols: Vec<String>,
}

/// What a [`Model`] holds.
pub struct ModelView {
    pub basic_cell: LatticeView,
    pub new_elements: Seq<u8>,
    pub symbols: Seq<Seq<char>>,
}

impl View for Model {
    type V = ModelView;

    closed spec fn view(&self) -> ModelView {
        ModelView {
            basic_cell: self.basic_cell@,
            new_elements: self.new_elements@,
            symbols: self.symbols.deep_view(),
        }
    }
}

/// The symbol of the element with the atomic number `number`, if there is
/// such an element.
pub fn element_symbol(number: u8) -> (r: Option<String>)
    ensures
        match r {
            Some(s) => element_symbol_name(number) == Some(s@),
            None => element_symbol_name(number) is None,
        },
{
    symbol_of_atomic_number(number)
}

impl Model {
    /// The lattice is well formed, and the symbols are those of the three
    /// elements.
    pub closed spec fn wf(&self) -> bool {
        &&& self.basic_cell.wf()
        &&& symbols_known(self.new_elements@)
        &&& self.symbols.deep_view() == symbols_of(self.new_elements@)
    }

    /// What a well-formed model is known to hold.
    pub proof fn lemma_wf(&self)
        requires
            self.wf(),
        ensures
            self@.new_elements.len() == 3,
            symbols_known(self@.new_elements),
            self@.symbols == symbols_of(self@.new_elements),
    {
    }

    /// Makes the model of `basic_cell` and the three elements with the atomic
    /// numbers `new_elements`. There is none if one of the numbers is that of
    /// no element.
    pub fn new(basic_cell: Lattice, new_elements: [u8; 3]) -> (r: Option<Self>)
        requires
            basic_cell.wf(),
        ensures
            match r {
                Some(model) => {
                    &&& model.wf()
                    &&& symbols_known(new_elements@)
                    &&& model@ == (ModelView {
                        basic_cell: basic_cell@,
                        new_elements: new_elements@,
                        symbols: symbols_of(new_elements@),
                    })
                },
                None => !symbols_known(new_elements@),
            },
    {
        let first = match element_symbol(new_elements[0]) {
            Some(s) => s,
            None => {
                return None;
            },
        };
        let second = match element_symbol(new_elements[1]) {
            Some(s) => s,
            None => {
                return None;
            },
        };
        let third = match element_symbol(new_elements[2]) {
            Some(s) => s,
            None => {
                return None;
            },
        };
        let mut symbols: Vec<String> = Vec::new();
        symbols.push(first);
        symbols.push(second);
        symbols.push(third);
        assert(symbols.deep_view() =~= symbols_of(new_elements@));
        Some(Model { basic_cell, new_elements, symbols })
    }

    /// The name of the model: its three symbols behind `GDY`, joined by
    /// underscores.
    pub fn output_name(&self) -> (r: String)
        requires
            self.wf(),
        ensures
            r@ == base_name(self@.symbols[0], self@.symbols[1], self@.symbols[2]),
    {
        assert(self.symbols.deep_view().len() == 3);
        assert(forall|t: int| 0 <= t < 3 ==> self.symbols.deep_view()[t] == self.symbols@[t]@);
        let mut name = String::from_str("GDY_");
        name.append(self.symbols[0].as_str());
        name.append("_");
        name.append(self.symbols[1].as_str());
        name.append("_");
        name.append(self.symbols[2].as_str());
        name
    }

    /// The name of the directory of the model: the families of its three
    /// elements behind `GDY`, joined by underscores.
    pub fn dir_name(&self) -> (r: String)
        ensures
            r@ == base_name(
                family_tag(family_of(self@.new_elements[0] as int)),
                family_tag(family_of(self@.new_elements[1] as int)),
                family_tag(family_of(self@.new_elements[2] as int)),
            ),
    {
        let mut name = String::from_str("GDY_");
        name.append(family_tag_name(family(self.new_elements[0] as u32)));
        name.append("_");
        name.append(family_tag_name(family(self.new_elements[1] as u32)));
        name.append("_");
        name.append(family_tag_name(family(self.new_elements[2] as u32)));
        name
    }

    pub fn basic_cell(&self) -> (r: &Lattice)
        ensures
            r@ == self@.basic_cell,
            self.wf() ==> r.wf(),
    {
        &self.basic_cell
    }

    /// The atomic numbers of the three elements.
    pub fn new_elements(&self) -> (r: [u8; 3])
        ensures
            r@ == self@.new_elements,
    {
        self.new_elements
    }
}

/// The name of a family in the name of a directory of variants.
pub fn family_tag_name(family: Family) -> (r: &'static str)
    ensures
        r@ == family_tag(family),
{
    match family {
        Family::Metal3d => "3d",
        Family::Metal4d => "4d",
        Family::Metal5d => "5d",
        Family::RareEarth => "RE",
        Family::Else => "else",
    }
}

/// Appends the atomic numbers `first` to `last` to `list`.
fn push_range(list: &mut Vec<u8>, first: u8, last: u8)
    requires
        first <= last < 255,
    ensures
        final(list)@ == old(list)@ + number_range(first as int, last as int),
{
    let mut n: u8 = first;
    while n <= last
        invariant
            first <= n <= last + 1,
            last < 255,
            list@ == old(list)@ + number_range(first as int, n - 1),
        decreases last + 1 - n,
    {
        list.push(n);
        assert(list@ =~= old(list)@ + number_range(first as int, n as int));
        n = n + 1;
    }
}

/// The atomic numbers of the candidate metals.
pub fn element_lists() -> (r: Vec<u8>)
    ensures
        r@ == candidate_numbers(),
{
    let mut list: Vec<u8> = Vec::new();
    push_range(&mut list, 21, 30);
    push_range(&mut list, 39, 48);
    push_range(&mut list, 72, 80);
    push_range(&mut list, 57, 71);
    assert(list@ =~= candidate_numbers());
    list
}

/// The choices of three items of `list`, with replacement, each once, in
/// the order of the places they are taken from.
pub fn combos_of_three(list: &Vec<u8>) -> (r: Vec<[u8; 3]>)
    ensures
        r@.len() == combinations_from(list@, 3, 0).len(),
        forall|p: int|
            0 <= p < r@.len() ==> (#[trigger] r@[p])@ == combinations_from(list@, 3, 0)[p],
{
    let combos = combinations_with_replacement(list, 3);
    let ghost all = combinations_from(list@, 3, 0);
    proof {
        lemma_combinations_shape(list@, 3, 0);
    }
    let mut out: Vec<[u8; 3]> = Vec::new();
    let mut p: usize = 0;
    while p < combos.len()
        invariant
            combos.deep_view() == all,
            forall|q: int| 0 <= q < all.len() ==> (#[trigger] all[q]).len() == 3,
            p <= combos@.len(),
            out@.len() == p,
            forall|q: int| 0 <= q < p ==> (#[trigger] out@[q])@ == all[q],
        decreases combos@.len() - p,
    {
        let combo = &combos[p];
        assert(all[p as int] == combo.deep_view());
        assert(combo@.len() == 3);
        let triple: [u8; 3] = [combo[0], combo[1], combo[2]];
        assert(triple@ =~= all[p as int]);
        out.push(triple);
        p = p + 1;
    }
    out
}

/// The choices of three candidate metals, with replacement, each once.
pub fn tri_elm_combos() -> (r: Vec<[u8; 3]>)
    ensures
        r@.len() == combinations_from(candidate_numbers(), 3, 0).len(),
        forall|p: int|
            0 <= p < r@.len() ==> (#[trigger] r@[p])@ == combinations_from(
                candidate_numbers(),
                3,
                0,
            )[p],
{
    let list = element_lists();
    combos_of_three(&list)
}

/// There are 15180 choices of three candidate metals, and no two are the
/// same.
pub proof fn lemma_variant_count()
    ensures
        candidate_numbers().len() == 44,
        candidate_numbers().no_duplicates(),
        combinations_from(candidate_numbers(), 3, 0).len() == 15180,
        combinations_from(candidate_numbers(), 3, 0).no_duplicates(),
{
    let pool = candidate_numbers();
    assert(pool.len() == 44);
    assert forall|i: int, j: int| 0 <= i < pool.len() && 0 <= j < pool.len() && i
        != j implies pool[i] != pool[j] by {
        lemma_candidate_at(i);
        lemma_candidate_at(j);
    }
    lemma_three_of(pool);
    let n = pool.len();
    assert(n * (n + 1) * (n + 2) == 91080) by (nonlinear_arith)
        requires
            n == 44,
    ;
}

/// The candidate at the place `i`.
proof fn lemma_candidate_at(i: int)
    requires
        0 <= i < 44,
    ensures
        candidate_numbers()[i] == if i < 10 {
            21 + i
        } else if i < 20 {
            29 + i
        } else if i < 29 {
            52 + i
        } else {
            28 + i
        },
{
    let a = number_range(21, 30);
    let b = number_range(39, 48);
    let c = number_range(72, 80);
    let d = number_range(57, 71);
    if i < 10 {
        assert(candidate_numbers()[i] == a[i]);
    } else if i < 20 {
        assert(candidate_numbers()[i] == b[i - 10]);
    } else if i < 29 {
        assert(candidate_numbers()[i] == c[i - 20]);
    } else {
        assert(candidate_numbers()[i] == d[i - 29]);
    }
}

/// Puts the three elements `combo` on the designated sites of a copy of the
/// seed model. The seed model stays as it is.
pub fn edit_template(template: &Lattice, combo: &[u8; 3]) -> (r: Result<Lattice, EditError>)
    requires
        template.wf(),
    ensures
        match r {
            Ok(lattice) => lattice.wf() && edited(template@, combo@) == Ok::<
                LatticeView,
                EditError,
            >(lattice@),
            Err(e) => edited(template@, combo@) == Err::<LatticeView, EditError>(e),
        },
{
    let first = match element_symbol(combo[0]) {
        Some(s) => s,
        None => {
            return Err(EditError::UnknownElement);
        },
    };
    let second = match element_symbol(combo[1]) {
        Some(s) => s,
        None => {
            return Err(EditError::UnknownElement);
        },
    };
    let third = match element_symbol(combo[2]) {
        Some(s) => s,
        None => {
            return Err(EditError::UnknownElement);
        },
    };
    let mut lattice = template.clone();
    match lattice.substitute_sites(combo, first.as_str(), second.as_str(), third.as_str()) {
        Ok(()) => {},
        Err(_) => {
            return Err(EditError::MissingSite);
        },
    }
    assert(symbols_of(combo@) =~= seq![first@, second@, third@]);
    Ok(lattice)
}

/// The variant of `seed` for `combo`, or why there is none.
pub open spec fn model_of(seed: LatticeView, combo: Seq<u8>) -> Result<ModelView, EditError> {
    match edited(seed, combo) {
        Ok(lattice) => Ok(
            ModelView { basic_cell: lattice, new_elements: combo, symbols: symbols_of(combo) },
        ),
        Err(e) => Err(e),
    }
}

/// The variants of `seed` for the first `count` of `combos`, in their
/// order, or the reason why the first of them that cannot be made cannot.
pub open spec fn models_of(seed: LatticeView, combos: Seq<Seq<u8>>, count: int) -> Result<
    Seq<ModelView>,
    EditError,
>
    decreases count,
{
    if count <= 0 {
        Ok(Seq::empty())
    } else {
        match models_of(seed, combos, count - 1) {
            Err(e) => Err(e),
            Ok(models) => match model_of(seed, combos[count - 1]) {
                Err(e) => Err(e),
                Ok(model) => Ok(models.push(model)),
            },
        }
    }
}

/// Once a variant cannot be made, no longer run of variants can.
proof fn lemma_models_of_fails(seed: LatticeView, combos: Seq<Seq<u8>>, count: int, more: int)
    requires
        0 <= count <= more,
        models_of(seed, combos, count) is Err,
    ensures
        models_of(seed, combos, more) == models_of(seed, combos, count),
    decreases more - count,
{
    if count < more {
        lemma_models_of_fails(seed, combos, count, more - 1);
    }
}

/// The views of `models`.
pub open spec fn model_views(models: Seq<Model>) -> Seq<ModelView> {
    Seq::new(models.len(), |i: int| models[i]@)
}

/// If the designated sites of the seed model name atoms and every
/// candidate metal is an element, there is a variant for each choice of three
/// candidates: 15180 in all, one for each choice and no two for the same.
pub proof fn lemma_all_variants(seed: LatticeView)
    requires
        sites_present(seed),
        forall|i: int|
            0 <= i < candidate_numbers().len() ==> element_symbol_name(
                #[trigger] candidate_numbers()[i],
            ) is Some,
    ensures
        models_of(seed, combinations_from(candidate_numbers(), 3, 0), 15180) matches Ok(models)
            && models.len() == 15180 && (forall|p: int|
            0 <= p < 15180 ==> (#[trigger] models[p]).new_elements == combinations_from(
                candidate_numbers(),
                3,
                0,
            )[p]) && (forall|p: int, q: int|
            0 <= p < q < 15180 ==> (#[trigger] models[p]).new_elements != (
            #[trigger] models[q]).new_elements),
{
    lemma_variant_count();
    let combos = combinations_from(candidate_numbers(), 3, 0);
    lemma_models_prefix(seed, 15180);
    let models = models_of(seed, combos, 15180)->Ok_0;
    assert forall|p: int, q: int| 0 <= p < q < 15180 implies (#[trigger] models[p]).new_elements
        != (#[trigger] models[q]).new_elements by {
        assert(combos[p] != combos[q]);
    }
}

/// The first `count` variants can all be made, under the conditions of
/// [`lemma_all_variants`].
proof fn lemma_models_prefix(seed: LatticeView, count: int)
    requires
        sites_present(seed),
        forall|i: int|
            0 <= i < candidate_numbers().len() ==> element_symbol_name(
                #[trigger] candidate_numbers()[i],
            ) is Some,
        0 <= count <= combinations_from(candidate_numbers(), 3, 0).len(),
    ensures
        models_of(seed, combinations_from(candidate_numbers(), 3, 0), count) matches Ok(models)
            && models.len() == count && (forall|p: int|
            0 <= p < count ==> (#[trigger] models[p]).new_elements == combinations_from(
                candidate_numbers(),
                3,
                0,
            )[p]),
    decreases count,
{
    if count > 0 {
        lemma_models_prefix(seed, count - 1);
        let pool = candidate_numbers();
        let combos = combinations_from(pool, 3, 0);
        let places = crate::combos::lemma_combinations_sound(pool, 3, 0, count - 1);
        let combo = combos[count - 1];
        assert(combo[0] == pool[places[0]]);
        assert(combo[1] == pool[places[1]]);
        assert(combo[2] == pool[places[2]]);
        assert(symbols_known(combo));
    }
}

/// Makes the variants of the seed model `template`: one for each choice of
/// three candidate metals, in the order of the choices. Each holds a copy of
/// its own of the seed model, which stays as it is.
pub fn generate_models(template: &Lattice) -> (r: Result<Vec<Model>, EditError>)
    requires
        template.wf(),
    ensures
        match r {
            Ok(models) => {
                &&& models_of(
                    template@,
                    combinations_from(candidate_numbers(), 3, 0),
                    combinations_from(candidate_numbers(), 3, 0).len() as int,
                ) == Ok::<Seq<ModelView>, EditError>(model_views(models@))
                &&& forall|p: int| 0 <= p < models@.len() ==> (#[trigger] models@[p]).wf()
            },
            Err(e) => models_of(
                template@,
                combinations_from(candidate_numbers(), 3, 0),
                combinations_from(candidate_numbers(), 3, 0).len() as int,
            ) == Err::<Seq<ModelView>, EditError>(e),
        },
{
    let combos = tri_elm_combos();
    let ghost all = combinations_from(candidate_numbers(), 3, 0);
    let mut models: Vec<Model> = Vec::new();
    let mut p: usize = 0;
    assert(model_views(models@) =~= Seq::<ModelView>::empty());
    while p < combos.len()
        invariant
            template.wf(),
            all == combinations_from(candidate_numbers(), 3, 0),
            combos@.len() == all.len(),
            forall|q: int| 0 <= q < combos@.len() ==> (#[trigger] combos@[q])@ == all[q],
            p <= combos@.len(),
            models_of(template@, all, p as int) == Ok::<Seq<ModelView>, EditError>(
                model_views(models@),
            ),
            forall|q: int| 0 <= q < models@.len() ==> (#[trigger] models@[q]).wf(),
        decreases combos@.len() - p,
    {
        let combo = combos[p];
        assert(combo@ == all[p as int]);
        let lattice = match edit_template(template, &combo) {
            Ok(lattice) => lattice,
            Err(e) => {
                proof {
                    assert(models_of(template@, all, p + 1) == Err::<Seq<ModelView>, EditError>(e));
                    lemma_models_of_fails(template@, all, p + 1, all.len() as int);
                }
                return Err(e);
            },
        };
        match Model::new(lattice, combo) {
            Some(model) => {
                proof {
                    assert(model_views(models@.push(model)) =~= model_views(models@).push(model@));
                }
                models.push(model);
            },
            None => {
                return Err(EditError::UnknownElement);
            },
        }
        p = p + 1;
    }
    Ok(models)
}

} // verus!
