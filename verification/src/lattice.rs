//! The lattice model: a named structure of atoms in a periodic cell.

use vstd::prelude::*;
use vstd::string::*;
use crate::atom::{atom_block, point_is_fixed, Atom, AtomView, Export, Point3, PointView};
use crate::order::{
    lemma_stable_order_of_sorted, lemma_stable_order_permutes, lemma_stable_order_sorted,
    stable_order, stable_order_of,
};
use crate::bindings::{atomic_number_of_symbol, from_first_symbol, symbol_atomic_number};
use crate::text::{lemma_pad_left_fills, pad_left};

verus! {

/// The three lattice vectors of a cell, in Cartesian coordinates.
#[derive(Debug)]
pub struct Matrix3 {
    pub a: Point3,
    pub b: Point3,
    pub c: Point3,
}

/// The literals of a [`Matrix3`].
pub struct MatrixView {
    pub a: PointView,
    pub b: PointView,
    pub c: PointView,
}

/// Whether each of the nine numbers of `m` is written with `places` digits
/// behind the point.
pub open spec fn matrix_is_fixed(m: MatrixView, places: nat) -> bool {
    point_is_fixed(m.a, places) && point_is_fixed(m.b, places) && point_is_fixed(m.c, places)
}

impl View for Matrix3 {
    type V = MatrixView;

    open spec fn view(&self) -> MatrixView {
        MatrixView { a: self.a@, b: self.b@, c: self.c@ }
    }
}

impl Clone for Matrix3 {
    fn clone(&self) -> (r: Self)
        ensures
            r@ == self@,
    {
        Matrix3 { a: self.a.clone(), b: self.b.clone(), c: self.c.clone() }
    }
}

impl Matrix3 {
    /// The matrix with the columns `a`, `b` and `c`.
    pub fn from_columns(a: Point3, b: Point3, c: Point3) -> (r: Self)
        ensures
            r@ == (MatrixView { a: a@, b: b@, c: c@ }),
    {
        Matrix3 { a, b, c }
    }

    /// Whether each of the nine numbers is written with `places` digits
    /// behind the point.
    pub fn has_places(&self, places: usize) -> (ok: bool)
        ensures
            ok == matrix_is_fixed(self@, places as nat),
    {
        self.a.has_places(places) && self.b.has_places(places) && self.c.has_places(places)
    }
}

/// Why a lattice cannot be made or used.
#[derive(Debug, Clone, Copy, PartialEq, Eq, Structural)]
pub enum LatticeError {
    /// Two atoms carry the same identifier.
    DuplicateAtomId,
    /// The number of designated sites is not three.
    SiteCount,
    /// A designated site names no atom of the structure.
    MissingSite,
    /// The number of positions differs from the number of atoms.
    PositionCount,
    /// A number is not written with the digits behind the point that the
    /// output asks for.
    Precision,
    /// The symbol of an atom is that of no element.
    UnknownElement,
    /// An atom carries the identifier zero; identifiers count from one.
    ZeroAtomId,
}

/// How many sites of a lattice are designated for substitution.
pub const SITE_COUNT: usize = 3;

/// The views of the atoms in `atoms`.
pub open spec fn atom_views(atoms: Seq<Atom>) -> Seq<AtomView> {
    Seq::new(atoms.len(), |i: int| atoms[i]@)
}

/// No identifier occurs twice in `atoms`.
pub open spec fn unique_ids(atoms: Seq<AtomView>) -> bool {
    forall|i: int, j: int| 0 <= i < j < atoms.len() ==> atoms[i].atom_id != atoms[j].atom_id
}

/// Every identifier in `atoms` is at least one.
pub open spec fn ids_from_one(atoms: Seq<AtomView>) -> bool {
    forall|i: int| 0 <= i < atoms.len() ==> (#[trigger] atoms[i]).atom_id >= 1
}

/// Some atom in `atoms` carries the identifier `id`.
pub open spec fn has_id(atoms: Seq<AtomView>, id: int) -> bool {
    exists|i: int| 0 <= i < atoms.len() && #[trigger] atoms[i].atom_id == id
}

/// The place in `atoms` of the atom with the identifier `id`; meant for an
/// identifier that occurs.
pub open spec fn place_of(atoms: Seq<AtomView>, id: int) -> int {
    choose|i: int| 0 <= i < atoms.len() && #[trigger] atoms[i].atom_id == id
}

/// The atomic numbers of `atoms`, place by place.
pub open spec fn atomic_numbers(atoms: Seq<AtomView>) -> Seq<u8> {
    Seq::new(atoms.len(), |i: int| atoms[i].element_id)
}

/// `atoms` grouped by element: ascending atomic number, and within one
/// element the order in which the atoms stood.
pub open spec fn sorted_by_element(atoms: Seq<AtomView>) -> Seq<AtomView> {
    let order = stable_order(atomic_numbers(atoms));
    Seq::new(order.len(), |p: int| atoms[order[p]])
}

/// Sorting by element is a stable sort. The sorted sequence is as long as
/// `atoms`; atomic numbers never fall from one place to the next; there is a
/// one-to-one assignment `from` of sorted places to places of `atoms` that
/// each sorted atom was taken from; and two atoms of one element keep their
/// relative order.
pub proof fn lemma_sort_is_stable(atoms: Seq<AtomView>) -> (from: Seq<int>)
    ensures
        sorted_by_element(atoms).len() == atoms.len(),
        from.len() == atoms.len(),
        forall|p: int|
            0 <= p < atoms.len() ==> 0 <= #[trigger] from[p] < atoms.len() && sorted_by_element(
                atoms,
            )[p] == atoms[from[p]],
        forall|p: int, q: int| 0 <= p < q < atoms.len() ==> from[p] != from[q],
        forall|i: int| 0 <= i < atoms.len() ==> from.contains(i),
        forall|p: int, q: int|
            0 <= p < q < atoms.len() ==> (#[trigger] sorted_by_element(atoms)[p]).element_id <= (
            #[trigger] sorted_by_element(atoms)[q]).element_id,
        forall|p: int, q: int|
            0 <= p < q < atoms.len() && (#[trigger] sorted_by_element(atoms)[p]).element_id == (
            #[trigger] sorted_by_element(atoms)[q]).element_id ==> from[p] < from[q],
{
    let keys = atomic_numbers(atoms);
    lemma_stable_order_permutes(keys);
    lemma_stable_order_sorted(keys);
    let order = stable_order(keys);
    assert forall|p: int, q: int| 0 <= p < q < atoms.len() implies (#[trigger] sorted_by_element(
        atoms,
    )[p]).element_id <= (#[trigger] sorted_by_element(atoms)[q]).element_id by {
        let a = order[p];
        let b = order[q];
        assert(keys[a] <= keys[b]);
    }
    assert forall|p: int, q: int|
        0 <= p < q < atoms.len() && (#[trigger] sorted_by_element(atoms)[p]).element_id == (
        #[trigger] sorted_by_element(atoms)[q]).element_id implies order[p] < order[q] by {
        let a = order[p];
        let b = order[q];
        assert(keys[a] == keys[b] ==> a < b);
    }
    order
}

/// To sort by element a second time changes nothing.
pub proof fn lemma_sort_is_idempotent(atoms: Seq<AtomView>)
    ensures
        sorted_by_element(sorted_by_element(atoms)) == sorted_by_element(atoms),
{
    let from = lemma_sort_is_stable(atoms);
    let sorted = sorted_by_element(atoms);
    let keys = atomic_numbers(sorted);
    assert forall|i: int, j: int| 0 <= i < j < keys.len() implies keys[i] <= keys[j] by {
        assert(sorted[i].element_id <= sorted[j].element_id);
    }
    lemma_stable_order_of_sorted(keys);
    assert(sorted_by_element(sorted) =~= sorted);
}

/// Sorting by element keeps identifiers unique.
pub proof fn lemma_sort_keeps_unique_ids(atoms: Seq<AtomView>)
    requires
        unique_ids(atoms),
    ensures
        unique_ids(sorted_by_element(atoms)),
{
    let from = lemma_sort_is_stable(atoms);
    let sorted = sorted_by_element(atoms);
    assert forall|i: int, j: int| 0 <= i < j < sorted.len() implies sorted[i].atom_id
        != sorted[j].atom_id by {
        let a = from[i];
        let b = from[j];
        assert(a != b);
        if a < b {
            assert(atoms[a].atom_id != atoms[b].atom_id);
        } else {
            assert(atoms[b].atom_id != atoms[a].atom_id);
        }
    }
}

/// The blocks of `atoms`, one behind the other.
pub open spec fn atoms_text(atoms: Seq<AtomView>) -> Seq<char>
    decreases atoms.len(),
{
    if atoms.len() == 0 {
        Seq::empty()
    } else {
        atoms_text(atoms.drop_last()) + atom_block(atoms.last())
    }
}

/// The head of a structure file. It gives the cell of the seed model,
/// whatever the lattice vectors of the model that is written are.
pub const MODEL_HEADER: &'static str =
    "# MSI CERIUS2 DataModel File Version 4 0\n(1 Model\n  (A I CRY/DISPLAY (192 256))\n  (A I PeriodicType 100)\n  (A C SpaceGroup \"1 1\")\n  (A D A3 (16.39518593025 -9.465765010246 0))\n  (A D B3 (0 18.93153002049 0))\n  (A D C3 (0 0 9.999213039981))\n  (A D CRY/TOLERANCE 0.05)\n";

/// The structure file of a model with the atoms `atoms`: the head, the
/// blocks of the atoms, and the closing bracket.
pub open spec fn model_text(atoms: Seq<AtomView>) -> Seq<char> {
    MODEL_HEADER@ + atoms_text(atoms) + ")"@
}

/// How many digits behind the point a lattice vector is written with.
pub const LATTICE_PLACES: usize = 18;

/// The width of the field of one number of a lattice vector.
pub const LATTICE_WIDTH: usize = 24;

/// One line of the block of lattice vectors: the three numbers of `v`, each
/// right-aligned in 24 columns.
pub open spec fn vector_row(v: PointView) -> Seq<char> {
    pad_left(v.x, LATTICE_WIDTH as nat) + pad_left(v.y, LATTICE_WIDTH as nat) + pad_left(
        v.z,
        LATTICE_WIDTH as nat,
    ) + "\n"@
}

/// The numbers of a lattice vector stand in fixed columns: if none of them
/// is longer than its field, the line is three fields and the line feed long,
/// and each number ends where its field ends.
pub proof fn lemma_vector_row_columns(v: PointView)
    requires
        v.x.len() <= LATTICE_WIDTH,
        v.y.len() <= LATTICE_WIDTH,
        v.z.len() <= LATTICE_WIDTH,
    ensures
        vector_row(v).len() == 3 * LATTICE_WIDTH + 1,
        vector_row(v).subrange(LATTICE_WIDTH - v.x.len(), LATTICE_WIDTH as int) == v.x,
        vector_row(v).subrange(2 * LATTICE_WIDTH - v.y.len(), 2 * LATTICE_WIDTH) == v.y,
        vector_row(v).subrange(3 * LATTICE_WIDTH - v.z.len(), 3 * LATTICE_WIDTH) == v.z,
        vector_row(v)[3 * LATTICE_WIDTH] == '\n',
{
    let w = LATTICE_WIDTH as nat;
    lemma_pad_left_fills(v.x, w);
    lemma_pad_left_fills(v.y, w);
    lemma_pad_left_fills(v.z, w);
    reveal_strlit("\n");
    let row = vector_row(v);
    let x = pad_left(v.x, w);
    let y = pad_left(v.y, w);
    let z = pad_left(v.z, w);
    assert(row.subrange(0, 24) =~= x);
    assert(row.subrange(24, 48) =~= y);
    assert(row.subrange(48, 72) =~= z);
    assert(row.subrange(24 - v.x.len(), 24) =~= x.subrange(24 - v.x.len(), 24));
    assert(row.subrange(48 - v.y.len(), 48) =~= y.subrange(24 - v.y.len(), 24));
    assert(row.subrange(72 - v.z.len(), 72) =~= z.subrange(24 - v.z.len(), 24));
}

/// The lines of the block of lattice vectors: one for each of a, b and c.
pub open spec fn lattice_cart_rows(m: MatrixView) -> Seq<char> {
    vector_row(m.a) + vector_row(m.b) + vector_row(m.c)
}

/// The name of a model whose designated sites hold the elements `first`,
/// `second` and `third`.
pub open spec fn base_name(first: Seq<char>, second: Seq<char>, third: Seq<char>) -> Seq<char> {
    "GDY_"@ + first + "_"@ + second + "_"@ + third
}

/// `atoms` with the element of the atom at `place` replaced.
pub open spec fn with_element(
    atoms: Seq<AtomView>,
    place: int,
    name: Seq<char>,
    number: u8,
) -> Seq<AtomView> {
    atoms.update(place, AtomView { element_name: name, element_id: number, ..atoms[place] })
}

/// `atoms` with each position replaced by the one at the same place in
/// `positions`.
pub open spec fn with_positions(atoms: Seq<AtomView>, positions: Seq<PointView>) -> Seq<AtomView> {
    Seq::new(atoms.len(), |i: int| AtomView { xyz: positions[i], ..atoms[i] })
}

/// The views of `points`.
pub open spec fn point_views(points: Seq<Point3>) -> Seq<PointView> {
    Seq::new(points.len(), |i: int| points[i]@)
}

/// Whether some atom of `atoms` is of the element with the symbol `name`.
pub open spec fn has_element(atoms: Seq<AtomView>, name: Seq<char>) -> bool {
    exists|i: int| 0 <= i < atoms.len() && #[trigger] atoms[i].element_name == name
}

/// The atomic number of the element with the symbol `symbol`. There is
/// none for a text that sorts before `Ac`, the first of the symbols, nor for
/// one that the periodic table does not know.
pub open spec fn element_number(symbol: Seq<char>) -> Option<usize> {
    if from_first_symbol(symbol) {
        symbol_atomic_number(symbol)
    } else {
        None
    }
}

/// Finds the atomic number of the element with the symbol `symbol`. A text
/// that sorts before the first of the symbols is answered without a search.
pub fn atomic_number_for(symbol: &str) -> (r: Option<usize>)
    ensures
        r == element_number(symbol@),
{
    let len = symbol.unicode_len();
    if len == 0 {
        return None;
    }
    let first = symbol.get_char(0);
    if first > 'A' {
        return atomic_number_of_symbol(symbol);
    }
    if first == 'A' && len >= 2 && symbol.get_char(1) >= 'c' {
        return atomic_number_of_symbol(symbol);
    }
    None
}

/// Whether `list` is the list of the elements of `atoms`: it holds the
/// symbol of each element that occurs, once, and no other; each symbol is
/// that of an element; and the atomic numbers never fall from one place to
/// the next.
pub open spec fn is_element_list(list: Seq<Seq<char>>, atoms: Seq<AtomView>) -> bool {
    &&& list.no_duplicates()
    &&& forall|name: Seq<char>| #[trigger] list.contains(name) <==> has_element(atoms, name)
    &&& forall|p: int| 0 <= p < list.len() ==> element_number(#[trigger] list[p]) is Some
    &&& forall|p: int, q: int|
        0 <= p < q < list.len() ==> element_number(#[trigger] list[p]).unwrap() <= element_number(
            #[trigger] list[q],
        ).unwrap()
}

/// Numbers from 0 up to `bound` that all differ are at most `bound` many.
pub proof fn lemma_distinct_bounded(values: Seq<int>, bound: int)
    requires
        0 <= bound,
        forall|i: int| 0 <= i < values.len() ==> 0 <= #[trigger] values[i] < bound,
        forall|i: int, j: int| 0 <= i < j < values.len() ==> values[i] != values[j],
    ensures
        values.len() <= bound,
    decreases bound,
{
    if values.len() > 0 {
        if bound == 0 {
            let first = values[0];
            assert(0 <= first < bound);
        } else {
            // Take out the place that holds the largest number, if any does.
            let top = bound - 1;
            if exists|i: int| 0 <= i < values.len() && values[i] == top {
                let at = choose|i: int| 0 <= i < values.len() && values[i] == top;
                let rest = values.remove(at);
                assert forall|i: int| 0 <= i < rest.len() implies 0 <= #[trigger] rest[i]
                    < top by {
                    if i < at {
                        assert(rest[i] == values[i]);
                    } else {
                        assert(rest[i] == values[i + 1]);
                    }
                }
                assert forall|i: int, j: int| 0 <= i < j < rest.len() implies rest[i]
                    != rest[j] by {
                    let a = if i < at { i } else { i + 1 };
                    let b = if j < at { j } else { j + 1 };
                    assert(rest[i] == values[a] && rest[j] == values[b]);
                }
                lemma_distinct_bounded(rest, top);
            } else {
                lemma_distinct_bounded(values, top);
            }
        }
    }
}

/// The seed model `seed` with the elements `combo` on its three designated
/// sites, one after the other; `symbols` are their symbols.
pub open spec fn edited_atoms(seed: LatticeView, combo: Seq<u8>, symbols: Seq<Seq<char>>) -> Seq<
    AtomView,
> {
    let first = with_element(
        seed.atoms,
        place_of(seed.atoms, seed.metal_sites[0] as int),
        symbols[0],
        combo[0],
    );
    let second = with_element(
        first,
        place_of(seed.atoms, seed.metal_sites[1] as int),
        symbols[1],
        combo[1],
    );
    with_element(second, place_of(seed.atoms, seed.metal_sites[2] as int), symbols[2], combo[2])
}

/// Whether the three designated sites of `seed` name atoms.
pub open spec fn sites_present(seed: LatticeView) -> bool {
    &&& has_id(seed.atoms, seed.metal_sites[0] as int)
    &&& has_id(seed.atoms, seed.metal_sites[1] as int)
    &&& has_id(seed.atoms, seed.metal_sites[2] as int)
}

/// Replacing the element of an atom moves no atom and changes no
/// identifier.
pub proof fn lemma_with_element_keeps_places(
    atoms: Seq<AtomView>,
    place: int,
    name: Seq<char>,
    number: u8,
    id: int,
)
    requires
        unique_ids(atoms),
        0 <= place < atoms.len(),
        has_id(atoms, id),
    ensures
        unique_ids(with_element(atoms, place, name, number)),
        has_id(with_element(atoms, place, name, number), id),
        place_of(with_element(atoms, place, name, number), id) == place_of(atoms, id),
{
    let after = with_element(atoms, place, name, number);
    assert forall|i: int| 0 <= i < atoms.len() implies (#[trigger] after[i]).atom_id
        == atoms[i].atom_id by {}
    let at = place_of(atoms, id);
    assert(after[at].atom_id == id);
    let found = place_of(after, id);
    assert(atoms[found].atom_id == id);
    if found < at {
        assert(atoms[found].atom_id != atoms[at].atom_id);
    } else if at < found {
        assert(atoms[at].atom_id != atoms[found].atom_id);
    }
}

/// What a [`Lattice`] holds.
pub struct LatticeView {
    pub lattice_name: Seq<char>,
    pub atoms: Seq<AtomView>,
    pub lattice_vectors: MatrixView,
    pub metal_sites: Seq<u32>,
    pub adsorbate: Option<Seq<char>>,
    pub sorted: bool,
}

/// A structure of atoms in a periodic cell, with the sites designated for
/// substitution.
///
/// Identifiers count from one, no two atoms carry the same, and there are
/// three designated sites. That the lattice vectors span a volume is for the caller to see to:
/// the library does not compute with them.
#[derive(Debug)]
pub struct Lattice {
    lattice_name: String,
    atoms_vec: Vec<Atom>,
    lattice_vectors: Matrix3,
    metal_sites: Vec<u32>,
    adsorbate: Option<String>,
    sorted: bool,
    /// For each identifier the place of its atom in `atoms_vec`.
    slots: Vec<Option<usize>>,
}

/// `slots` is the table of places for `atoms`.
pub open spec fn slots_for(slots: Seq<Option<usize>>, atoms: Seq<AtomView>) -> bool {
    &&& slots.len() == 256
    &&& slots[0] is None
    &&& forall|i: int|
        0 <= i < atoms.len() ==> (#[trigger] slots[atoms[i].atom_id as int] matches Some(k)
            && k == i)
    &&& forall|id: int|
        0 <= id < 256 ==> (#[trigger] slots[id] matches Some(i) ==> i < atoms.len()
            && atoms[i as int].atom_id == id)
}

/// A table of places with nothing in it.
fn empty_slots() -> (slots: Vec<Option<usize>>)
    ensures
        slots@.len() == 256,
        forall|id: int| 0 <= id < 256 ==> slots@[id] is None,
{
    let mut slots: Vec<Option<usize>> = Vec::new();
    let mut id: usize = 0;
    while id < 256
        invariant
            id <= 256,
            slots@.len() == id,
            forall|k: int| 0 <= k < id ==> slots@[k] is None,
        decreases 256 - id,
    {
        slots.push(None);
        id = id + 1;
    }
    slots
}

/// Decides whether an atom carries the identifier zero.
fn has_zero_id(atoms: &Vec<Atom>) -> (r: bool)
    ensures
        r == !ids_from_one(atom_views(atoms@)),
{
    let ghost views = atom_views(atoms@);
    let mut i: usize = 0;
    while i < atoms.len()
        invariant
            i <= atoms@.len(),
            views == atom_views(atoms@),
            forall|k: int| 0 <= k < i ==> (#[trigger] views[k]).atom_id >= 1,
        decreases atoms@.len() - i,
    {
        assert(views[i as int] == atoms@[i as int]@);
        if atoms[i].atom_id() == 0 {
            return true;
        }
        i = i + 1;
    }
    false
}

/// Builds the table of places, unless an identifier is zero or occurs
/// twice.
fn index_atoms(atoms: &Vec<Atom>) -> (r: Option<Vec<Option<usize>>>)
    ensures
        r is Some <==> unique_ids(atom_views(atoms@)) && ids_from_one(atom_views(atoms@)),
        r matches Some(slots) ==> slots_for(slots@, atom_views(atoms@)),
{
    let ghost views = atom_views(atoms@);
    let mut slots = empty_slots();
    let mut i: usize = 0;
    while i < atoms.len()
        invariant
            i <= atoms@.len(),
            views == atom_views(atoms@),
            slots@.len() == 256,
            slots@[0] is None,
            unique_ids(views.take(i as int)),
            ids_from_one(views.take(i as int)),
            forall|k: int|
                0 <= k < i ==> (#[trigger] slots@[views[k].atom_id as int] matches Some(j)
                    && j == k),
            forall|id: int|
                0 <= id < 256 ==> (#[trigger] slots@[id] matches Some(k) ==> k < i
                    && views[k as int].atom_id == id),
        decreases atoms@.len() - i,
    {
        let id = atoms[i].atom_id() as usize;
        assert(views[i as int] == atoms@[i as int]@);
        if id == 0 {
            return None;
        }
        match slots[id] {
            Some(k) => {
                proof {
                    assert(views[k as int].atom_id == views[i as int].atom_id);
                }
                return None;
            },
            None => {},
        }
        proof {
            let before = views.take(i as int);
            let next = views.take(i + 1);
            assert forall|a: int, b: int| 0 <= a < b < next.len() implies next[a].atom_id
                != next[b].atom_id by {
                if b < i {
                    assert(before[a].atom_id != before[b].atom_id);
                } else {
                    assert(slots@[views[a].atom_id as int] is Some);
                }
            }
            assert forall|a: int| 0 <= a < next.len() implies (#[trigger] next[a]).atom_id >= 1 by {
                if a < i {
                    assert(before[a].atom_id >= 1);
                }
            }
        }
        slots.set(id, Some(i));
        i = i + 1;
    }
    assert(views.take(atoms@.len() as int) =~= views);
    Some(slots)
}

impl View for Lattice {
    type V = LatticeView;

    closed spec fn view(&self) -> LatticeView {
        LatticeView {
            lattice_name: self.lattice_name@,
            atoms: atom_views(self.atoms_vec@),
            lattice_vectors: self.lattice_vectors@,
            metal_sites: self.metal_sites@,
            adsorbate: match self.adsorbate {
                Some(name) => Some(name@),
                None => None,
            },
            sorted: self.sorted,
        }
    }
}

impl Lattice {
    /// The lattice is as its type describes: identifiers count from one and
    /// are unique, and there are three designated sites.
    pub closed spec fn wf(&self) -> bool {
        &&& slots_for(self.slots@, atom_views(self.atoms_vec@))
        &&& self.metal_sites@.len() == SITE_COUNT
    }

    /// What a well-formed lattice is known to hold.
    pub proof fn lemma_wf(&self)
        requires
            self.wf(),
        ensures
            unique_ids(self@.atoms),
            ids_from_one(self@.atoms),
            self@.metal_sites.len() == SITE_COUNT,
    {
        let atoms = atom_views(self.atoms_vec@);
        assert forall|i: int| 0 <= i < atoms.len() implies (#[trigger] atoms[i]).atom_id >= 1 by {
            assert(self.slots@[atoms[i].atom_id as int] is Some);
        }
        assert forall|i: int, j: int| 0 <= i < j < atoms.len() implies atoms[i].atom_id
            != atoms[j].atom_id by {
            assert(self.slots@[atoms[i].atom_id as int]->0 == i);
            assert(self.slots@[atoms[j].atom_id as int]->0 == j);
        }
    }

    /// A lattice has at most 255 atoms: there are no more identifiers.
    pub proof fn lemma_at_most_255(&self)
        requires
            self.wf(),
        ensures
            self@.atoms.len() <= 255,
    {
        let atoms = atom_views(self.atoms_vec@);
        self.lemma_wf();
        let ids = Seq::new(atoms.len(), |i: int| atoms[i].atom_id - 1);
        assert forall|i: int, j: int| 0 <= i < j < ids.len() implies ids[i] != ids[j] by {
            assert(atoms[i].atom_id != atoms[j].atom_id);
        }
        assert forall|i: int| 0 <= i < ids.len() implies 0 <= #[trigger] ids[i] < 255 by {
            assert(atoms[i].atom_id >= 1);
        }
        lemma_distinct_bounded(ids, 255);
    }

    /// Makes a lattice. Fails with `ZeroAtomId` if an atom carries the
    /// identifier zero, else with `DuplicateAtomId` if two atoms carry the
    /// same identifier, else with `SiteCount` unless three sites are given.
    pub fn new(
        lattice_name: String,
        atoms_vec: Vec<Atom>,
        lattice_vectors: Matrix3,
        metal_sites: Vec<u32>,
        adsorbate: Option<String>,
        sorted: bool,
    ) -> (r: Result<Self, LatticeError>)
        ensures
            match r {
                Ok(lattice) => {
                    &&& lattice.wf()
                    &&& ids_from_one(atom_views(atoms_vec@))
                    &&& unique_ids(atom_views(atoms_vec@))
                    &&& metal_sites@.len() == SITE_COUNT
                    &&& lattice@ == (LatticeView {
                        lattice_name: lattice_name@,
                        atoms: atom_views(atoms_vec@),
                        lattice_vectors: lattice_vectors@,
                        metal_sites: metal_sites@,
                        adsorbate: match adsorbate {
                            Some(name) => Some(name@),
                            None => None,
                        },
                        sorted: sorted,
                    })
                },
                Err(LatticeError::ZeroAtomId) => !ids_from_one(atom_views(atoms_vec@)),
                Err(LatticeError::DuplicateAtomId) => ids_from_one(atom_views(atoms_vec@))
                    && !unique_ids(atom_views(atoms_vec@)),
                Err(LatticeError::SiteCount) => ids_from_one(atom_views(atoms_vec@)) && unique_ids(
                    atom_views(atoms_vec@),
                ) && metal_sites@.len() != SITE_COUNT,
                Err(_) => false,
            },
    {
        if has_zero_id(&atoms_vec) {
            return Err(LatticeError::ZeroAtomId);
        }
        match index_atoms(&atoms_vec) {
            None => Err(LatticeError::DuplicateAtomId),
            Some(slots) => {
                if metal_sites.len() != SITE_COUNT {
                    Err(LatticeError::SiteCount)
                } else {
                    Ok(
                        Lattice {
                            lattice_name,
                            atoms_vec,
                            lattice_vectors,
                            metal_sites,
                            adsorbate,
                            sorted,
                            slots,
                        },
                    )
                }
            },
        }
    }

    pub fn get_lattice_vectors(&self) -> (r: &Matrix3)
        ensures
            r@ == self@.lattice_vectors,
    {
        &self.lattice_vectors
    }

    pub fn set_lattice_vectors(&mut self, new_lattice_vec: Matrix3)
        requires
            old(self).wf(),
        ensures
            final(self).wf(),
            final(self)@ == (LatticeView { lattice_vectors: new_lattice_vec@, ..old(self)@ }),
    {
        self.lattice_vectors = new_lattice_vec;
    }

    pub fn get_metal_sites(&self) -> (r: &Vec<u32>)
        ensures
            r@ == self@.metal_sites,
    {
        &self.metal_sites
    }

    pub fn get_adsorbate_name(&self) -> (r: Option<&str>)
        ensures
            match r {
                Some(name) => self@.adsorbate == Some(name@),
                None => self@.adsorbate is None,
            },
    {
        match &self.adsorbate {
            Some(x) => Some(x.as_str()),
            None => None,
        }
    }

    pub fn set_adsorbate_name(&mut self, ads_name: String)
        requires
            old(self).wf(),
        ensures
            final(self).wf(),
            final(self)@ == (LatticeView { adsorbate: Some(ads_name@), ..old(self)@ }),
    {
        self.adsorbate = Some(ads_name);
    }

    pub fn lattice_name(&self) -> (r: &str)
        ensures
            r@ == self@.lattice_name,
    {
        self.lattice_name.as_str()
    }

    pub fn set_lattice_name(&mut self, lattice_name: String)
        requires
            old(self).wf(),
        ensures
            final(self).wf(),
            final(self)@ == (LatticeView { lattice_name: lattice_name@, ..old(self)@ }),
    {
        self.lattice_name = lattice_name;
    }

    pub fn atoms_vec(&self) -> (r: &Vec<Atom>)
        ensures
            atom_views(r@) == self@.atoms,
    {
        &self.atoms_vec
    }

    pub fn set_sorted(&mut self, sorted: bool)
        requires
            old(self).wf(),
        ensures
            final(self).wf(),
            final(self)@ == (LatticeView { sorted: sorted, ..old(self)@ }),
    {
        self.sorted = sorted;
    }

    pub fn sorted(&self) -> (r: bool)
        ensures
            r == self@.sorted,
    {
        self.sorted
    }

    /// Groups the atoms by element: ascending atomic number, and within one
    /// element the order in which the atoms stood.
    pub fn sort_atoms_by_elements(&mut self)
        requires
            old(self).wf(),
        ensures
            final(self).wf(),
            final(self)@ == (LatticeView {
                atoms: sorted_by_element(old(self)@.atoms),
                sorted: true,
                ..old(self)@
            }),
    {
        let ghost views = atom_views(self.atoms_vec@);
        let n = self.atoms_vec.len();
        let mut keys: Vec<u8> = Vec::new();
        let mut i: usize = 0;
        while i < n
            invariant
                n == self.atoms_vec@.len(),
                views == atom_views(self.atoms_vec@),
                i <= n,
                keys@.len() == i,
                forall|k: int| 0 <= k < i ==> keys@[k] == views[k].element_id,
            decreases n - i,
        {
            keys.push(self.atoms_vec[i].element_id());
            i = i + 1;
        }
        assert(keys@ =~= atomic_numbers(views));
        let order = stable_order_of(&keys);
        proof {
            lemma_stable_order_permutes(keys@);
        }
        let mut sorted: Vec<Atom> = Vec::new();
        let mut p: usize = 0;
        while p < order.len()
            invariant
                n == self.atoms_vec@.len(),
                views == atom_views(self.atoms_vec@),
                keys@ == atomic_numbers(views),
                order@.len() == stable_order(keys@).len(),
                forall|q: int| 0 <= q < order@.len() ==> order@[q] as int == stable_order(keys@)[q],
                forall|q: int| 0 <= q < order@.len() ==> (#[trigger] order@[q]) < keys@.len(),
                p <= order@.len(),
                sorted@.len() == p,
                forall|q: int| 0 <= q < p ==> sorted@[q]@ == sorted_by_element(views)[q],
            decreases order@.len() - p,
        {
            let from = order[p];
            sorted.push(self.atoms_vec[from].clone());
            p = p + 1;
        }
        assert(atom_views(sorted@) =~= sorted_by_element(views));
        proof {
            self.lemma_wf();
            lemma_sort_keeps_unique_ids(views);
            let from = lemma_sort_is_stable(views);
            let after = sorted_by_element(views);
            assert forall|i: int| 0 <= i < after.len() implies (#[trigger] after[i]).atom_id
                >= 1 by {
                assert(views[from[i]].atom_id >= 1);
            }
        }
        match index_atoms(&sorted) {
            Some(slots) => {
                self.atoms_vec = sorted;
                self.slots = slots;
                self.sorted = true;
            },
            None => {},
        }
    }

    /// Replaces the element of the atom with the identifier `id`; the atom
    /// keeps its identifier, its position and its place. Fails with
    /// `MissingSite`, and changes nothing, if no atom carries `id`.
    pub fn substitute_element(&mut self, id: u32, new_element_name: &str, new_element_id: u8) -> (r:
        Result<(), LatticeError>)
        requires
            old(self).wf(),
        ensures
            final(self).wf(),
            match r {
                Ok(()) => has_id(old(self)@.atoms, id as int) && final(self)@ == (LatticeView {
                    atoms: with_element(
                        old(self)@.atoms,
                        place_of(old(self)@.atoms, id as int),
                        new_element_name@,
                        new_element_id,
                    ),
                    ..old(self)@
                }),
                Err(e) => e == LatticeError::MissingSite && !has_id(old(self)@.atoms, id as int)
                    && *final(self) == *old(self),
            },
    {
        let ghost views = atom_views(self.atoms_vec@);
        if id >= 256 {
            return Err(LatticeError::MissingSite);
        }
        match self.slots[id as usize] {
            None => {
                proof {
                    if has_id(views, id as int) {
                        let k = place_of(views, id as int);
                        assert(self.slots@[views[k].atom_id as int] is Some);
                    }
                }
                Err(LatticeError::MissingSite)
            },
            Some(i) => {
                proof {
                    self.lemma_wf();
                    assert(views[i as int].atom_id == id);
                    let k = place_of(views, id as int);
                    if k < i {
                        assert(views[k].atom_id != views[i as int].atom_id);
                    } else if i < k {
                        assert(views[i as int].atom_id != views[k].atom_id);
                    }
                }
                let mut atom = self.atoms_vec[i].clone();
                atom.set_element_name(new_element_name);
                atom.set_element_id(new_element_id);
                self.atoms_vec.set(i, atom);
                proof {
                    let after = atom_views(self.atoms_vec@);
                    assert(after =~= with_element(views, i as int, new_element_name@, new_element_id));
                    assert forall|k: int| 0 <= k < after.len() implies after[k].atom_id
                        == views[k].atom_id by {}
                    assert forall|k: int| 0 <= k < after.len() implies (
                    #[trigger] self.slots@[after[k].atom_id as int] matches Some(j) && j == k) by {
                        assert(self.slots@[views[k].atom_id as int] is Some);
                    }
                }
                Ok(())
            },
        }
    }

    /// Puts the elements with the atomic numbers `numbers` and the symbols
    /// `first`, `second` and `third` on the three designated sites, one after
    /// the other. Fails with `MissingSite`, and changes nothing, if one of the
    /// sites names no atom.
    pub fn substitute_sites(
        &mut self,
        numbers: &[u8; 3],
        first: &str,
        second: &str,
        third: &str,
    ) -> (r: Result<(), LatticeError>)
        requires
            old(self).wf(),
        ensures
            final(self).wf(),
            match r {
                Ok(()) => sites_present(old(self)@) && final(self)@ == (LatticeView {
                    atoms: edited_atoms(old(self)@, numbers@, seq![first@, second@, third@]),
                    ..old(self)@
                }),
                Err(e) => e == LatticeError::MissingSite && !sites_present(old(self)@)
                    && *final(self) == *old(self),
            },
    {
        proof {
            self.lemma_wf();
        }
        let site0 = self.metal_sites[0];
        let site1 = self.metal_sites[1];
        let site2 = self.metal_sites[2];
        if self.get_atom_by_id(site0).is_none() || self.get_atom_by_id(site1).is_none()
            || self.get_atom_by_id(site2).is_none() {
            return Err(LatticeError::MissingSite);
        }
        let ghost seed = self@;
        proof {
            let p0 = place_of(seed.atoms, site0 as int);
            let p1 = place_of(seed.atoms, site1 as int);
            lemma_with_element_keeps_places(seed.atoms, p0, first@, numbers[0], site1 as int);
            lemma_with_element_keeps_places(seed.atoms, p0, first@, numbers[0], site2 as int);
            let one = with_element(seed.atoms, p0, first@, numbers[0]);
            lemma_with_element_keeps_places(one, p1, second@, numbers[1], site2 as int);
        }
        let r0 = self.substitute_element(site0, first, numbers[0]);
        let r1 = self.substitute_element(site1, second, numbers[1]);
        let r2 = self.substitute_element(site2, third, numbers[2]);
        assert(r0 is Ok && r1 is Ok && r2 is Ok);
        Ok(())
    }

    /// Gives each atom the position at its place in `positions`. Fails with
    /// `PositionCount`, and changes nothing, unless there is one position for
    /// each atom.
    pub fn set_positions(&mut self, positions: Vec<Point3>) -> (r: Result<(), LatticeError>)
        requires
            old(self).wf(),
        ensures
            final(self).wf(),
            match r {
                Ok(()) => positions@.len() == old(self)@.atoms.len() && final(self)@ == (
                LatticeView {
                    atoms: with_positions(old(self)@.atoms, point_views(positions@)),
                    ..old(self)@
                }),
                Err(e) => e == LatticeError::PositionCount && positions@.len() != old(
                    self,
                )@.atoms.len() && *final(self) == *old(self),
            },
    {
        let ghost views = atom_views(self.atoms_vec@);
        let n = self.atoms_vec.len();
        if positions.len() != n {
            return Err(LatticeError::PositionCount);
        }
        let mut i: usize = 0;
        while i < n
            invariant
                n == self.atoms_vec@.len(),
                n == positions@.len(),
                n == views.len(),
                i <= n,
                self.slots == old(self).slots,
                self.metal_sites == old(self).metal_sites,
                self.lattice_name == old(self).lattice_name,
                self.lattice_vectors == old(self).lattice_vectors,
                self.adsorbate == old(self).adsorbate,
                self.sorted == old(self).sorted,
                forall|k: int|
                    0 <= k < i ==> (#[trigger] self.atoms_vec@[k])@ == (AtomView {
                        xyz: positions@[k]@,
                        ..views[k]
                    }),
                forall|k: int| i <= k < n ==> (#[trigger] self.atoms_vec@[k])@ == views[k],
            decreases n - i,
        {
            let mut atom = self.atoms_vec[i].clone();
            atom.set_xyz(positions[i].clone());
            self.atoms_vec.set(i, atom);
            i = i + 1;
        }
        proof {
            let after = atom_views(self.atoms_vec@);
            assert(after =~= with_positions(views, point_views(positions@)));
            assert forall|k: int| 0 <= k < after.len() implies (
            #[trigger] self.slots@[after[k].atom_id as int] matches Some(j) && j == k) by {
                assert(self.slots@[views[k].atom_id as int] is Some);
            }
        }
        Ok(())
    }

    /// Names the lattice after the elements on its three designated sites.
    /// Fails with `MissingSite`, and changes nothing, if one of the sites
    /// names no atom.
    pub fn update_base_name(&mut self) -> (r: Result<(), LatticeError>)
        requires
            old(self).wf(),
        ensures
            final(self).wf(),
            match r {
                Ok(()) => {
                    let atoms = old(self)@.atoms;
                    let sites = old(self)@.metal_sites;
                    &&& has_id(atoms, sites[0] as int)
                    &&& has_id(atoms, sites[1] as int)
                    &&& has_id(atoms, sites[2] as int)
                    &&& final(self)@ == (LatticeView {
                        lattice_name: base_name(
                            atoms[place_of(atoms, sites[0] as int)].element_name,
                            atoms[place_of(atoms, sites[1] as int)].element_name,
                            atoms[place_of(atoms, sites[2] as int)].element_name,
                        ),
                        ..old(self)@
                    })
                },
                Err(e) => {
                    let atoms = old(self)@.atoms;
                    let sites = old(self)@.metal_sites;
                    &&& e == LatticeError::MissingSite
                    &&& !(has_id(atoms, sites[0] as int) && has_id(atoms, sites[1] as int)
                        && has_id(atoms, sites[2] as int))
                    &&& *final(self) == *old(self)
                },
            },
    {
        let first = self.get_atom_by_id(self.metal_sites[0]);
        let second = self.get_atom_by_id(self.metal_sites[1]);
        let third = self.get_atom_by_id(self.metal_sites[2]);
        match (first, second, third) {
            (Some(a), Some(b), Some(c)) => {
                let mut name = String::from_str("GDY_");
                name.append(a.element_name());
                name.append("_");
                name.append(b.element_name());
                name.append("_");
                name.append(c.element_name());
                self.lattice_name = name;
                Ok(())
            },
            _ => Err(LatticeError::MissingSite),
        }
    }

    /// The block of lattice vectors: its name and its three lines. Fails
    /// with `Precision` unless each of the nine numbers is written with
    /// eighteen digits behind the point.
    pub fn lattice_vector_str(&self) -> (r: Result<(String, String), LatticeError>)
        ensures
            match r {
                Ok((name, rows)) => {
                    &&& matrix_is_fixed(self@.lattice_vectors, LATTICE_PLACES as nat)
                    &&& name@ == "LATTICE_CART"@
                    &&& rows@ == lattice_cart_rows(self@.lattice_vectors)
                },
                Err(e) => e == LatticeError::Precision && !matrix_is_fixed(
                    self@.lattice_vectors,
                    LATTICE_PLACES as nat,
                ),
            },
    {
        if !self.lattice_vectors.has_places(LATTICE_PLACES) {
            return Err(LatticeError::Precision);
        }
        let mut rows = String::new();
        append_vector_row(&mut rows, &self.lattice_vectors.a);
        append_vector_row(&mut rows, &self.lattice_vectors.b);
        append_vector_row(&mut rows, &self.lattice_vectors.c);
        Ok((String::from_str("LATTICE_CART"), rows))
    }

    /// Lists the elements of the lattice by ascending atomic number. Fails
    /// with `UnknownElement` if the symbol of an atom is that of no element.
    pub fn get_element_list(&self) -> (r: Result<Vec<String>, LatticeError>)
        ensures
            match r {
                Ok(list) => is_element_list(list.deep_view(), self@.atoms),
                Err(e) => e == LatticeError::UnknownElement && exists|i: int|
                    0 <= i < self@.atoms.len() && element_number(
                        #[trigger] self@.atoms[i].element_name,
                    ) is None,
            },
    {
        let r = element_list(&self.atoms_vec);
        proof {
            let atoms = atom_views(self.atoms_vec@);
            assert(self@.atoms == atoms);
            if let Err(e) = r {
                let i = choose|i: int|
                    0 <= i < atoms.len() && element_number(
                        #[trigger] atoms[i].element_name,
                    ) is None;
                assert(element_number(self@.atoms[i].element_name) is None);
            }
        }
        r
    }

    /// The atom with the identifier `id`, found through the table of places
    /// in one step.
    pub fn get_atom_by_id(&self, id: u32) -> (r: Option<&Atom>)
        requires
            self.wf(),
        ensures
            r is Some <==> has_id(self@.atoms, id as int),
            r matches Some(atom) ==> atom@ == self@.atoms[place_of(self@.atoms, id as int)]
                && atom@.atom_id == id,
    {
        let ghost atoms = atom_views(self.atoms_vec@);
        if id >= 256 {
            return None;
        }
        match self.slots[id as usize] {
            Some(i) => {
                proof {
                    self.lemma_wf();
                    assert(atoms[i as int].atom_id == id);
                    let k = place_of(atoms, id as int);
                    if k < i {
                        assert(atoms[k].atom_id != atoms[i as int].atom_id);
                    } else if i < k {
                        assert(atoms[i as int].atom_id != atoms[k].atom_id);
                    }
                }
                Some(&self.atoms_vec[i])
            },
            None => {
                proof {
                    if has_id(atoms, id as int) {
                        let k = place_of(atoms, id as int);
                        assert(self.slots@[atoms[k].atom_id as int] is Some);
                    }
                }
                None
            },
        }
    }
}

/// Lists the elements of `atoms` by ascending atomic number. Fails with
/// `UnknownElement` if the symbol of an atom is that of no element.
pub fn element_list(atoms: &Vec<Atom>) -> (r: Result<Vec<String>, LatticeError>)
    ensures
        match r {
            Ok(list) => is_element_list(list.deep_view(), atom_views(atoms@)),
            Err(e) => e == LatticeError::UnknownElement && exists|i: int|
                0 <= i < atoms@.len() && element_number(
                    #[trigger] atom_views(atoms@)[i].element_name,
                ) is None,
        },
{
    let ghost views = atom_views(atoms@);
    let mut names: Vec<String> = Vec::new();
    let mut numbers: Vec<usize> = Vec::new();
    let mut i: usize = 0;
    while i < atoms.len()
        invariant
            views == atom_views(atoms@),
            i <= atoms@.len(),
            names@.len() == numbers@.len(),
            forall|p: int|
                0 <= p < names@.len() ==> element_number((#[trigger] names@[p])@) == Some(
                    numbers@[p],
                ),
            forall|p: int, q: int|
                0 <= p < q < numbers@.len() ==> #[trigger] numbers@[p] <= #[trigger] numbers@[q],
            forall|p: int, q: int|
                0 <= p < q < names@.len() ==> (#[trigger] names@[p])@ != (#[trigger] names@[q])@,
            forall|p: int|
                0 <= p < names@.len() ==> has_element(views.take(i as int), (#[trigger] names@[p])@),
            forall|j: int|
                0 <= j < i ==> exists|p: int|
                    0 <= p < names@.len() && (#[trigger] names@[p])@ == (
                    #[trigger] views[j]).element_name,
        decreases atoms@.len() - i,
    {
        let name = atoms[i].element_name();
        let owned = String::from_str(name);
        assert(views[i as int] == atoms@[i as int]@);
        let mut known = false;
        let mut k: usize = 0;
        while k < names.len()
            invariant
                k <= names@.len(),
                owned@ == name@,
                known <==> exists|p: int| 0 <= p < k && (#[trigger] names@[p])@ == name@,
            decreases names@.len() - k,
        {
            if names[k] == owned {
                known = true;
            }
            k = k + 1;
        }
        let ghost before = views.take(i as int);
        let ghost next = views.take(i + 1);
        assert(forall|j: int| 0 <= j < i ==> before[j] == next[j]);
        assert(next[i as int] == views[i as int]);
        if !known {
            let number = match atomic_number_for(name) {
                Some(number) => number,
                None => {
                    return Err(LatticeError::UnknownElement);
                },
            };
            let mut at: usize = 0;
            while at < numbers.len() && numbers[at] <= number
                invariant
                    at <= numbers@.len(),
                    forall|p: int| 0 <= p < at ==> #[trigger] numbers@[p] <= number,
                decreases numbers@.len() - at,
            {
                at = at + 1;
            }
            let ghost old_names = names@;
            let ghost old_numbers = numbers@;
            names.insert(at, owned);
            numbers.insert(at, number);
            proof {
                assert forall|p: int| 0 <= p < names@.len() implies {
                    &&& p < at ==> names@[p] == old_names[p] && numbers@[p] == old_numbers[p]
                    &&& p == at ==> names@[p]@ == name@ && numbers@[p] == number
                    &&& p > at ==> names@[p] == old_names[p - 1] && numbers@[p] == old_numbers[p
                        - 1]
                } by {}
                assert forall|p: int| 0 <= p < names@.len() implies has_element(
                    next,
                    (#[trigger] names@[p])@,
                ) by {
                    if p == at {
                        assert(next[i as int].element_name == name@);
                    } else {
                        let o = if p < at { p } else { p - 1 };
                        assert(has_element(before, old_names[o]@));
                        let j = choose|j: int|
                            0 <= j < before.len() && #[trigger] before[j].element_name
                                == old_names[o]@;
                        assert(next[j].element_name == old_names[o]@);
                    }
                }
                assert forall|j: int| 0 <= j < i + 1 implies exists|p: int|
                    0 <= p < names@.len() && (#[trigger] names@[p])@ == (
                    #[trigger] views[j]).element_name by {
                    if j == i {
                        assert(names@[at as int]@ == views[j].element_name);
                    } else {
                        let o = choose|o: int|
                            0 <= o < old_names.len() && (#[trigger] old_names[o])@
                                == views[j].element_name;
                        let p = if o < at { o } else { o + 1 };
                        assert(names@[p]@ == views[j].element_name);
                    }
                }
                assert forall|p: int, q: int| 0 <= p < q < names@.len() implies (
                #[trigger] names@[p])@ != (#[trigger] names@[q])@ by {
                    if p != at && q != at {
                        let op = if p < at { p } else { p - 1 };
                        let oq = if q < at { q } else { q - 1 };
                        assert(old_names[op]@ != old_names[oq]@);
                    } else {
                        let other = if p == at { q - 1 } else { p };
                        assert(old_names[other]@ != name@);
                    }
                }
                assert forall|p: int, q: int| 0 <= p < q < numbers@.len() implies #[trigger] numbers@[p]
                    <= #[trigger] numbers@[q] by {
                    if p != at && q != at {
                        let op = if p < at { p } else { p - 1 };
                        let oq = if q < at { q } else { q - 1 };
                        assert(old_numbers[op] <= old_numbers[oq]);
                    } else if p == at {
                        if at < old_numbers.len() {
                            assert(old_numbers[at as int] > number);
                            assert(old_numbers[at as int] <= old_numbers[q - 1]);
                        }
                    } else {
                        assert(old_numbers[p] <= number);
                    }
                }
            }
        } else {
            proof {
                assert forall|p: int| 0 <= p < names@.len() implies has_element(
                    next,
                    (#[trigger] names@[p])@,
                ) by {
                    assert(has_element(before, names@[p]@));
                    let j = choose|j: int|
                        0 <= j < before.len() && #[trigger] before[j].element_name == names@[p]@;
                    assert(next[j].element_name == names@[p]@);
                }
            }
        }
        i = i + 1;
    }
    proof {
        assert(views.take(atoms@.len() as int) =~= views);
        let list = names.deep_view();
        assert forall|name: Seq<char>| #[trigger] list.contains(name) <==> has_element(
            views,
            name,
        ) by {
            if list.contains(name) {
                let p = choose|p: int| 0 <= p < list.len() && list[p] == name;
                assert(has_element(views, names@[p]@));
            }
            if has_element(views, name) {
                let j = choose|j: int|
                    0 <= j < views.len() && #[trigger] views[j].element_name == name;
                let p = choose|p: int|
                    0 <= p < names@.len() && (#[trigger] names@[p])@ == views[j].element_name;
                assert(list[p] == name);
            }
        }
        assert forall|p: int, q: int| 0 <= p < q < list.len() implies element_number(
            #[trigger] list[p],
        ).unwrap() <= element_number(#[trigger] list[q]).unwrap() by {
            assert(element_number(names@[p]@) == Some(numbers@[p]));
            assert(element_number(names@[q]@) == Some(numbers@[q]));
        }
        assert forall|p: int| 0 <= p < list.len() implies element_number(
            #[trigger] list[p],
        ) is Some by {
            assert(element_number(names@[p]@) == Some(numbers@[p]));
        }
        assert forall|p: int, q: int| 0 <= p < list.len() && 0 <= q < list.len() && p
            != q implies list[p] != list[q] by {
            if p < q {
                assert(names@[p]@ != names@[q]@);
            } else {
                assert(names@[q]@ != names@[p]@);
            }
        }
    }
    Ok(names)
}

/// Writes one line of the block of lattice vectors behind `out`.
fn append_vector_row(out: &mut String, v: &Point3)
    ensures
        final(out)@ == old(out)@ + vector_row(v@),
{
    out.append(crate::text::pad_left_string(v.x.as_str(), LATTICE_WIDTH).as_str());
    out.append(crate::text::pad_left_string(v.y.as_str(), LATTICE_WIDTH).as_str());
    out.append(crate::text::pad_left_string(v.z.as_str(), LATTICE_WIDTH).as_str());
    out.append("\n");
}

/// Writes the blocks of `atoms`, one behind the other.
pub fn atoms_format_output(atoms: &Vec<Atom>) -> (r: String)
    ensures
        r@ == atoms_text(atom_views(atoms@)),
{
    let ghost views = atom_views(atoms@);
    let mut out = String::new();
    let mut i: usize = 0;
    while i < atoms.len()
        invariant
            views == atom_views(atoms@),
            i <= atoms@.len(),
            out@ == atoms_text(views.take(i as int)),
        decreases atoms@.len() - i,
    {
        out.append(atoms[i].format_output().as_str());
        proof {
            assert(views.take(i + 1).drop_last() =~= views.take(i as int));
            assert(views.take(i + 1).last() == atoms@[i as int]@);
        }
        i = i + 1;
    }
    assert(views.take(atoms@.len() as int) =~= views);
    out
}

impl Export for Lattice {
    open spec fn output(&self) -> Seq<char> {
        model_text(self@.atoms)
    }

    fn format_output(&self) -> (r: String) {
        let mut out = String::from_str(MODEL_HEADER);
        out.append(atoms_format_output(&self.atoms_vec).as_str());
        out.append(")");
        out
    }
}

/// Copies `atoms`, atom by atom.
pub fn clone_atoms(atoms: &Vec<Atom>) -> (r: Vec<Atom>)
    ensures
        atom_views(r@) == atom_views(atoms@),
{
    let mut out: Vec<Atom> = Vec::new();
    let mut i: usize = 0;
    while i < atoms.len()
        invariant
            i <= atoms@.len(),
            out@.len() == i,
            forall|k: int| 0 <= k < i ==> out@[k]@ == atoms@[k]@,
        decreases atoms@.len() - i,
    {
        out.push(atoms[i].clone());
        i = i + 1;
    }
    assert(atom_views(out@) =~= atom_views(atoms@));
    out
}

impl Clone for Lattice {
    /// A copy that shares nothing with the lattice it was made from.
    fn clone(&self) -> (r: Self)
        ensures
            r@ == self@,
            r.wf() == self.wf(),
    {
        let mut sites: Vec<u32> = Vec::new();
        let mut i: usize = 0;
        while i < self.metal_sites.len()
            invariant
                i <= self.metal_sites@.len(),
                sites@ == self.metal_sites@.take(i as int),
            decreases self.metal_sites@.len() - i,
        {
            sites.push(self.metal_sites[i]);
            assert(sites@ =~= self.metal_sites@.take(i + 1));
            i = i + 1;
        }
        assert(sites@ =~= self.metal_sites@);
        let mut slots: Vec<Option<usize>> = Vec::new();
        let mut j: usize = 0;
        while j < self.slots.len()
            invariant
                j <= self.slots@.len(),
                slots@ == self.slots@.take(j as int),
            decreases self.slots@.len() - j,
        {
            slots.push(self.slots[j]);
            assert(slots@ =~= self.slots@.take(j + 1));
            j = j + 1;
        }
        assert(slots@ =~= self.slots@);
        Lattice {
            lattice_name: self.lattice_name.clone(),
            atoms_vec: clone_atoms(&self.atoms_vec),
            lattice_vectors: self.lattice_vectors.clone(),
            metal_sites: sites,
            adsorbate: match &self.adsorbate {
                Some(name) => Some(name.clone()),
                None => None,
            },
            sorted: self.sorted,
            slots,
        }
    }
}

} // verus!
