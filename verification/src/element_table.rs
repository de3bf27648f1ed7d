//! The table of element properties that the seed files are written from.

use vstd::prelude::*;
use vstd::string::*;
use crate::decimal::Decimal;

verus! {

/// The properties of one element.
#[derive(Debug)]
pub struct Element {
    /// The symbol.
    pub element: String,
    pub atomic_number: u8,
    /// The number of states of the basis of atomic orbitals.
    pub lcao: u8,
    pub mass: Decimal,
    /// The name of the pseudopotential file.
    pub pot: String,
    pub spin: u8,
}

/// What an [`Element`] holds.
pub struct ElementView {
    pub element: Seq<char>,
    pub atomic_number: u8,
    pub lcao: u8,
    pub mass: Seq<char>,
    pub pot: Seq<char>,
    pub spin: u8,
}

impl View for Element {
    type V = ElementView;

    open spec fn view(&self) -> ElementView {
        ElementView {
            element: self.element@,
            atomic_number: self.atomic_number,
            lcao: self.lcao,
            mass: self.mass@,
            pot: self.pot@,
            spin: self.spin,
        }
    }
}

impl Clone for Element {
    fn clone(&self) -> (r: Self)
        ensures
            r@ == self@,
    {
        Element {
            element: self.element.clone(),
            atomic_number: self.atomic_number,
            lcao: self.lcao,
            mass: self.mass.clone(),
            pot: self.pot.clone(),
            spin: self.spin,
        }
    }
}

/// The table as it is loaded: a list of elements, or nothing.
#[derive(Debug)]
pub struct ElmTab {
    pub elements: Option<Vec<Element>>,
}

/// The table under its earlier name.
pub type ElmInfo = ElmTab;

/// The views of `elements`.
pub open spec fn element_views(elements: Seq<Element>) -> Seq<ElementView> {
    Seq::new(elements.len(), |i: int| elements[i]@)
}

/// The map from symbol to properties that `entries` make when they are
/// entered one after the other: of two entries with one symbol the later
/// stays.
pub open spec fn table_map(entries: Seq<ElementView>) -> Map<Seq<char>, ElementView>
    decreases entries.len(),
{
    if entries.len() == 0 {
        Map::empty()
    } else {
        table_map(entries.drop_last()).insert(entries.last().element, entries.last())
    }
}

/// The properties of the elements, found by symbol. It is made once and
/// only read afterwards.
#[derive(Debug)]
pub struct ElementTable {
    entries: Vec<Element>,
}

impl View for ElementTable {
    type V = Map<Seq<char>, ElementView>;

    closed spec fn view(&self) -> Map<Seq<char>, ElementView> {
        table_map(element_views(self.entries@))
    }
}

impl ElementTable {
    /// The table of `entries`.
    pub fn from_elements(entries: Vec<Element>) -> (r: Self)
        ensures
            r@ == table_map(element_views(entries@)),
    {
        ElementTable { entries }
    }

    /// The properties of the element with the symbol `symbol`.
    pub fn get(&self, symbol: &str) -> (r: Option<&Element>)
        ensures
            match r {
                Some(e) => self@.contains_key(symbol@) && self@[symbol@] == e@,
                None => !self@.contains_key(symbol@),
            },
    {
        let ghost all = element_views(self.entries@);
        let wanted = String::from_str(symbol);
        let mut i: usize = self.entries.len();
        assert(all.take(i as int) =~= all);
        while i > 0
            invariant
                all == element_views(self.entries@),
                i <= self.entries@.len(),
                wanted@ == symbol@,
                table_map(all).contains_key(symbol@) <==> table_map(
                    all.take(i as int),
                ).contains_key(symbol@),
                table_map(all).contains_key(symbol@) ==> table_map(all)[symbol@] == table_map(
                    all.take(i as int),
                )[symbol@],
            decreases i,
        {
            proof {
                assert(all.take(i as int).drop_last() =~= all.take(i - 1));
                assert(all.take(i as int).last() == self.entries@[i - 1]@);
            }
            if self.entries[i - 1].element == wanted {
                return Some(&self.entries[i - 1]);
            }
            i = i - 1;
        }
        assert(all.take(0) =~= Seq::<ElementView>::empty());
        None
    }
}

/// Makes the table of what was loaded. There is none if nothing was loaded.
pub fn hash_table(table: ElmTab) -> (r: Option<ElementTable>)
    ensures
        match r {
            Some(t) => table.elements matches Some(elements) && t@ == table_map(
                element_views(elements@),
            ),
            None => table.elements is None,
        },
{
    match table.elements {
        Some(elements) => Some(ElementTable::from_elements(elements)),
        None => None,
    }
}

} // verus!
