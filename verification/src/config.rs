//! The configuration of an energy study: sites, adsorbates and pathways.

use vstd::prelude::*;
use vstd::string::*;
use crate::string_map::StringMap;

verus! {

/// The sites of a study: groups of site names, and the name of each group.
#[derive(Debug)]
pub struct Sites {
    site_names: Vec<Vec<String>>,
    site_series: Vec<String>,
}

/// The groups of site names and the names of the groups differ in number.
#[derive(Debug, Clone, Copy, PartialEq, Eq, Structural)]
pub struct SitesLengthError;

impl SitesLengthError {
    /// The message of the error.
    pub fn message(&self) -> (r: String)
        ensures
            r@ == "Inconsistent lengths of site_names and site_series"@,
    {
        String::from_str("Inconsistent lengths of site_names and site_series")
    }
}

/// The texts of the first `count` groups, one behind the other.
pub open spec fn flattened(groups: Seq<Seq<Seq<char>>>, count: int) -> Seq<Seq<char>>
    decreases count,
{
    if count <= 0 {
        Seq::empty()
    } else {
        flattened(groups, count - 1) + groups[count - 1]
    }
}

/// The map that gives, for the first `count` names of groups, the group
/// with the same index; of two groups with one name the later stays.
pub open spec fn series_map(
    series: Seq<Seq<char>>,
    groups: Seq<Seq<Seq<char>>>,
    count: int,
) -> Map<Seq<char>, Seq<Seq<char>>>
    decreases count,
{
    if count <= 0 {
        Map::empty()
    } else {
        series_map(series, groups, count - 1).insert(series[count - 1], groups[count - 1])
    }
}

/// Copies a list of texts.
pub fn clone_strings(list: &Vec<String>) -> (r: Vec<String>)
    ensures
        r.deep_view() == list.deep_view(),
{
    let mut out: Vec<String> = Vec::new();
    let mut i: usize = 0;
    while i < list.len()
        invariant
            i <= list@.len(),
            out@.len() == i,
            forall|k: int| 0 <= k < i ==> out@[k]@ == list@[k]@,
        decreases list@.len() - i,
    {
        out.push(list[i].clone());
        i = i + 1;
    }
    assert(out.deep_view() =~= list.deep_view());
    out
}

impl Sites {
    pub fn new(site_names: Vec<Vec<String>>, site_series: Vec<String>) -> (r: Self)
        ensures
            r.names() == site_names.deep_view(),
            r.series() == site_series.deep_view(),
    {
        Sites { site_names, site_series }
    }

    /// The groups of site names.
    pub closed spec fn names(&self) -> Seq<Seq<Seq<char>>> {
        self.site_names.deep_view()
    }

    /// The names of the groups.
    pub closed spec fn series(&self) -> Seq<Seq<char>> {
        self.site_series.deep_view()
    }

    pub fn site_names(&self) -> (r: &Vec<Vec<String>>)
        ensures
            r.deep_view() == self.names(),
    {
        &self.site_names
    }

    pub fn site_series(&self) -> (r: &Vec<String>)
        ensures
            r.deep_view() == self.series(),
    {
        &self.site_series
    }

    /// All site names in one list: those of the first group, then those of
    /// the second, and so on.
    pub fn all_sites(&self) -> (r: Vec<String>)
        ensures
            r.deep_view() == flattened(self.names(), self.names().len() as int),
    {
        let ghost groups = self.site_names.deep_view();
        let mut out: Vec<String> = Vec::new();
        let mut i: usize = 0;
        while i < self.site_names.len()
            invariant
                groups == self.site_names.deep_view(),
                i <= self.site_names@.len(),
                out.deep_view() == flattened(groups, i as int),
            decreases self.site_names@.len() - i,
        {
            let group = &self.site_names[i];
            let ghost before = out.deep_view();
            assert(groups[i as int] == group.deep_view());
            let mut j: usize = 0;
            while j < group.len()
                invariant
                    j <= group@.len(),
                    out.deep_view() == before + group.deep_view().take(j as int),
                decreases group@.len() - j,
            {
                let ghost so_far = out.deep_view();
                out.push(group[j].clone());
                assert(out.deep_view() =~= so_far.push(group@[j as int]@));
                assert(out.deep_view() =~= before + group.deep_view().take(j + 1));
                j = j + 1;
            }
            assert(group.deep_view().take(group@.len() as int) =~= group.deep_view());
            i = i + 1;
        }
        out
    }

    /// The map from the name of a group to its site names. Fails if the
    /// groups and the names of the groups differ in number.
    pub fn hashmap(&self) -> (r: Result<StringMap<Vec<String>>, SitesLengthError>)
        ensures
            match r {
                Ok(map) => self.names().len() == self.series().len() && map@ == series_map(
                    self.series(),
                    self.names(),
                    self.series().len() as int,
                ),
                Err(_) => self.names().len() != self.series().len(),
            },
    {
        if self.site_names.len() != self.site_series.len() {
            return Err(SitesLengthError);
        }
        let ghost groups = self.site_names.deep_view();
        let ghost series = self.site_series.deep_view();
        let mut map: StringMap<Vec<String>> = StringMap::new();
        let mut i: usize = 0;
        while i < self.site_series.len()
            invariant
                groups == self.site_names.deep_view(),
                series == self.site_series.deep_view(),
                self.site_names@.len() == self.site_series@.len(),
                i <= self.site_series@.len(),
                map@ == series_map(series, groups, i as int),
            decreases self.site_series@.len() - i,
        {
            assert(groups[i as int] == self.site_names@[i as int].deep_view());
            assert(series[i as int] == self.site_series@[i as int]@);
            map.insert(self.site_series[i].clone(), clone_strings(&self.site_names[i]));
            i = i + 1;
        }
        Ok(map)
    }
}

/// An adsorbate of a study and the name of the group of sites it binds to.
#[derive(Debug)]
pub struct Adsorbate {
    name: String,
    site_series: String,
}

impl Adsorbate {
    pub fn new(name: String, site_series: String) -> (r: Self)
        ensures
            r.name_text() == name@,
            r.sites_text() == site_series@,
    {
        Adsorbate { name, site_series }
    }

    pub closed spec fn name_text(&self) -> Seq<char> {
        self.name@
    }

    pub closed spec fn sites_text(&self) -> Seq<char> {
        self.site_series@
    }

    pub fn name(&self) -> (r: &str)
        ensures
            r@ == self.name_text(),
    {
        self.name.as_str()
    }

    pub fn sites(&self) -> (r: &str)
        ensures
            r@ == self.sites_text(),
    {
        self.site_series.as_str()
    }
}

/// The adsorbates of a study.
#[derive(Debug)]
pub struct AdsorbatesMap {
    adsorbates: Vec<Adsorbate>,
}

/// The map that gives, for the first `count` adsorbates, the name of the
/// group of sites under the name of the adsorbate.
pub open spec fn adsorbate_map(list: Seq<Adsorbate>, count: int) -> Map<Seq<char>, Seq<char>>
    decreases count,
{
    if count <= 0 {
        Map::empty()
    } else {
        adsorbate_map(list, count - 1).insert(
            list[count - 1].name_text(),
            list[count - 1].sites_text(),
        )
    }
}

impl AdsorbatesMap {
    pub fn new(adsorbates: Vec<Adsorbate>) -> (r: Self)
        ensures
            r.list() == adsorbates@,
    {
        AdsorbatesMap { adsorbates }
    }

    pub closed spec fn list(&self) -> Seq<Adsorbate> {
        self.adsorbates@
    }

    pub fn adsorbates(&self) -> (r: &Vec<Adsorbate>)
        ensures
            r@ == self.list(),
    {
        &self.adsorbates
    }

    /// The map from the name of an adsorbate to the name of its group of
    /// sites.
    pub fn ads_name_site_hashmap(&self) -> (r: StringMap<String>)
        ensures
            r@ == adsorbate_map(self.list(), self.list().len() as int),
    {
        let mut map: StringMap<String> = StringMap::new();
        let mut i: usize = 0;
        while i < self.adsorbates.len()
            invariant
                i <= self.adsorbates@.len(),
                map@ == adsorbate_map(self.adsorbates@, i as int),
            decreases self.adsorbates@.len() - i,
        {
            let ads = &self.adsorbates[i];
            map.insert(String::from_str(ads.name()), String::from_str(ads.sites()));
            i = i + 1;
        }
        map
    }
}

/// One reaction pathway: its name and the adsorbates along it.
#[derive(Debug)]
pub struct PathwayItem {
    name: String,
    path: Vec<String>,
}

impl PathwayItem {
    pub fn new(name: String, path: Vec<String>) -> (r: Self)
        ensures
            r.name_text() == name@,
            r.steps() == path.deep_view(),
    {
        PathwayItem { name, path }
    }

    pub closed spec fn name_text(&self) -> Seq<char> {
        self.name@
    }

    pub closed spec fn steps(&self) -> Seq<Seq<char>> {
        self.path.deep_view()
    }

    pub fn name(&self) -> (r: &str)
        ensures
            r@ == self.name_text(),
    {
        self.name.as_str()
    }

    pub fn path(&self) -> (r: &Vec<String>)
        ensures
            r.deep_view() == self.steps(),
    {
        &self.path
    }
}

/// The pathways of a study.
#[derive(Debug)]
pub struct Pathways {
    item: Vec<PathwayItem>,
}

impl Pathways {
    pub fn new(item: Vec<PathwayItem>) -> (r: Self)
        ensures
            r.items() == item@,
    {
        Pathways { item }
    }

    pub closed spec fn items(&self) -> Seq<PathwayItem> {
        self.item@
    }

    pub fn item(&self) -> (r: &Vec<PathwayItem>)
        ensures
            r@ == self.items(),
    {
        &self.item
    }
}

/// A part of a configuration.
#[derive(Debug)]
pub enum Part {
    Elements { element_symbols: Vec<String> },
    Sites(Sites),
    Adsorbates(AdsorbatesMap),
}

/// The configuration of an energy study.
#[derive(Debug)]
pub struct EnergyConfig {
    dir_prefix: String,
    element_symbols: Vec<String>,
    sites: Sites,
    adsorbates: AdsorbatesMap,
    pathways: Pathways,
}

impl EnergyConfig {
    pub fn new(
        dir_prefix: String,
        element_symbols: Vec<String>,
        sites: Sites,
        adsorbates: AdsorbatesMap,
        pathways: Pathways,
    ) -> (r: Self)
        ensures
            r.prefix() == dir_prefix@,
            r.symbols() == element_symbols.deep_view(),
            r.sites_part() == sites,
            r.adsorbates_part() == adsorbates,
            r.pathways_part() == pathways,
    {
        EnergyConfig { dir_prefix, element_symbols, sites, adsorbates, pathways }
    }

    pub closed spec fn prefix(&self) -> Seq<char> {
        self.dir_prefix@
    }

    pub closed spec fn symbols(&self) -> Seq<Seq<char>> {
        self.element_symbols.deep_view()
    }

    pub closed spec fn sites_part(&self) -> Sites {
        self.sites
    }

    pub closed spec fn adsorbates_part(&self) -> AdsorbatesMap {
        self.adsorbates
    }

    pub closed spec fn pathways_part(&self) -> Pathways {
        self.pathways
    }

    pub fn sites(&self) -> (r: &Sites)
        ensures
            *r == self.sites_part(),
    {
        &self.sites
    }

    pub fn adsorbates(&self) -> (r: &AdsorbatesMap)
        ensures
            *r == self.adsorbates_part(),
    {
        &self.adsorbates
    }

    pub fn pathways(&self) -> (r: &Pathways)
        ensures
            *r == self.pathways_part(),
    {
        &self.pathways
    }

    pub fn dir_prefix(&self) -> (r: &str)
        ensures
            r@ == self.prefix(),
    {
        self.dir_prefix.as_str()
    }

    pub fn element_symbols(&self) -> (r: &Vec<String>)
        ensures
            r.deep_view() == self.symbols(),
    {
        &self.element_symbols
    }
}

} // verus!
