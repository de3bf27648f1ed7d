//! Calls into other crates.
//!
//! Each function here makes one call and converts what it takes and gives.
//! Its contract is not proved: it says what the called crate documents, or
//! gives the result a name where the result takes more than a few lines to
//! state. The rest of the library is proved from these contracts.

use vstd::prelude::*;

verus! {

/// What `regex::Regex::captures_iter` finds for the pattern `pattern` in
/// `text`: for each match, in the order of the matches, the text of each group
/// (group 0, the whole match, first), `None` for a group that took no part.
/// `None` in all if `regex::Regex::new` does not accept the pattern.
pub uninterp spec fn regex_all_captures(pattern: Seq<char>, text: Seq<char>) -> Option<
    Seq<Seq<Option<Seq<char>>>>,
>;

/// What `regex::Regex::captures` finds for the pattern `pattern` in `text`:
/// the groups of the first match, if there is a match. `None` in all if
/// `regex::Regex::new` does not accept the pattern.
pub uninterp spec fn regex_first_captures(pattern: Seq<char>, text: Seq<char>) -> Option<
    Option<Seq<Option<Seq<char>>>>,
>;

/// The atomic number that `periodic_table_on_an_enum::Element::from_symbol`
/// and `get_atomic_number` give for the symbol `symbol`, if the crate knows
/// the symbol.
pub uninterp spec fn symbol_atomic_number(symbol: Seq<char>) -> Option<usize>;

/// Whether `symbol` does not sort before `Ac`, the first of the symbols
/// that `periodic_table_on_an_enum` searches: it is not empty, and it starts
/// with a character behind `A`, or with `A` and a second character that is
/// `c` or behind it. The empty text, `A` and `Ab` sort before `Ac`.
pub open spec fn from_first_symbol(symbol: Seq<char>) -> bool {
    symbol.len() >= 1 && (symbol[0] > 'A' || (symbol.len() >= 2 && symbol[0] == 'A' && symbol[1]
        >= 'c'))
}

/// The symbol that `castep_periodic_table` writes for the element that
/// `ElementSymbol::try_from` makes of `number`, if it makes one.
pub uninterp spec fn element_symbol_name(number: u8) -> Option<Seq<char>>;

/// The atomic number and the symbol of the entry at `index` of the table that
/// `periodic_table::periodic_table` returns, if the table is that long.
pub uninterp spec fn periodic_table_entry(index: usize) -> Option<(u32, Seq<char>)>;

/// The combinations with replacement of `k` items of `pool` that start at or
/// behind the place `from`: each is a sequence of `k` items of `pool` taken at
/// places that never fall; they stand in the lexicographic order of their
/// places.
pub open spec fn combinations_from(pool: Seq<u8>, k: nat, from: int) -> Seq<Seq<u8>>
    decreases k, pool.len() - from,
{
    if k == 0 {
        seq![Seq::empty()]
    } else if from < 0 || from >= pool.len() {
        Seq::empty()
    } else {
        Seq::new(
            combinations_from(pool, (k - 1) as nat, from).len(),
            |i: int| seq![pool[from]] + combinations_from(pool, (k - 1) as nat, from)[i],
        ) + combinations_from(pool, k, from + 1)
    }
}

/// Calls `regex::Regex::new` on `pattern` and `captures_iter` on `text`, and
/// copies the groups of every match.
#[verifier::external_body]
pub(crate) fn regex_captures_iter(pattern: &str, text: &str) -> (r: Option<
    Vec<Vec<Option<String>>>,
>)
    ensures
        r.deep_view() == regex_all_captures(pattern@, text@),
{
    let re = regex::Regex::new(pattern).ok()?;
    Some(
        re.captures_iter(text).map(
            |caps| caps.iter().map(|group| group.map(|m| m.as_str().to_string())).collect(),
        ).collect(),
    )
}

/// Calls `regex::Regex::new` on `pattern` and `captures` on `text`, and
/// copies the groups of the match.
#[verifier::external_body]
pub(crate) fn regex_captures(pattern: &str, text: &str) -> (r: Option<Option<Vec<Option<String>>>>)
    ensures
        r.deep_view() == regex_first_captures(pattern@, text@),
{
    let re = regex::Regex::new(pattern).ok()?;
    Some(
        re.captures(text).map(
            |caps| caps.iter().map(|group| group.map(|m| m.as_str().to_string())).collect(),
        ),
    )
}

/// Calls `periodic_table_on_an_enum::Element::from_symbol` and, on the
/// element found, `get_atomic_number`. The crate searches its sorted symbols
/// by halving and steps below its first symbol, `Ac`, for a text that sorts
/// before it: such a text is not to be handed in.
#[verifier::external_body]
pub(crate) fn atomic_number_of_symbol(symbol: &str) -> (r: Option<usize>)
    requires
        from_first_symbol(symbol@),
    ensures
        r == symbol_atomic_number(symbol@),
{
    periodic_table_on_an_enum::Element::from_symbol(symbol).map(|e| e.get_atomic_number())
}

/// Calls `castep_periodic_table::element::ElementSymbol::try_from` and writes
/// the symbol found.
#[verifier::external_body]
pub(crate) fn symbol_of_atomic_number(number: u8) -> (r: Option<String>)
    ensures
        r.deep_view() == element_symbol_name(number),
{
    castep_periodic_table::element::ElementSymbol::try_from(number).ok().map(|s| s.to_string())
}

/// Calls `periodic_table::periodic_table` and copies the atomic number and
/// the symbol of the entry at `index`.
#[verifier::external_body]
pub(crate) fn periodic_table_lookup(index: usize) -> (r: Option<(u32, String)>)
    ensures
        r.deep_view() == periodic_table_entry(index),
{
    periodic_table::periodic_table().get(index).map(|e| (e.atomic_number, e.symbol.to_string()))
}

/// Calls `itertools::Itertools::combinations_with_replacement` on the items
/// of `pool` and collects what it yields. The crate yields the combinations
/// in the lexicographic order of the places they are taken from. It makes a
/// list of `k` places before it starts, so `k` is kept small.
#[verifier::external_body]
pub(crate) fn combinations_with_replacement(pool: &Vec<u8>, k: usize) -> (r: Vec<Vec<u8>>)
    requires
        k <= 3,
    ensures
        r.deep_view() == combinations_from(pool@, k as nat, 0),
{
    itertools::Itertools::combinations_with_replacement(pool.iter().copied(), k).collect()
}

} // verus!
