use gdy_model::atom::{Atom, Export, Point3};
use gdy_model::config::{
    clone_strings, Adsorbate, AdsorbatesMap, EnergyConfig, Part, PathwayItem, Pathways, Sites,
    SitesLengthError,
};
use gdy_model::decimal::Decimal;
use gdy_model::mesh::{meshgrid, meshgrid_by_columns, Cart3dMeshData, MyOutput};
use gdy_model::molecule::{find_atom, Adsorbate as Molecule};
use gdy_model::string_map::StringMap;

fn strings(list: &[&str]) -> Vec<String> {
    list.iter().map(|s| s.to_string()).collect()
}

fn sites() -> Sites {
    Sites::new(
        vec![strings(&["c1", "c2"]), strings(&["metal"]), strings(&[])],
        strings(&["carbon", "metal", "none"]),
    )
}

#[test]
fn sites_getters() {
    let s = sites();
    assert_eq!(s.site_names().len(), 3);
    assert_eq!(s.site_names()[0], strings(&["c1", "c2"]));
    assert_eq!(s.site_series(), &strings(&["carbon", "metal", "none"]));
    assert_eq!(s.all_sites(), strings(&["c1", "c2", "metal"]));
    assert_eq!(Sites::new(vec![], vec![]).all_sites(), Vec::<String>::new());
}

#[test]
fn sites_map_by_series() {
    let map = sites().hashmap().unwrap();
    assert_eq!(map.get("carbon").unwrap(), &strings(&["c1", "c2"]));
    assert_eq!(map.get("metal").unwrap(), &strings(&["metal"]));
    assert_eq!(map.get("none").unwrap(), &Vec::<String>::new());
    assert!(map.get("c1").is_none());
    assert!(map.contains_key("metal"));
    assert!(!map.contains_key(""));
    let twice = Sites::new(vec![strings(&["a"]), strings(&["b"])], strings(&["s", "s"]));
    assert_eq!(twice.hashmap().unwrap().get("s").unwrap(), &strings(&["b"]));
}

#[test]
fn sites_of_different_lengths() {
    let s = Sites::new(vec![strings(&["c1"])], strings(&["carbon", "metal"]));
    let e = s.hashmap().unwrap_err();
    assert_eq!(e, SitesLengthError);
    assert_eq!(e.message(), "Inconsistent lengths of site_names and site_series");
}

#[test]
fn adsorbates_and_pathways() {
    let map = AdsorbatesMap::new(vec![
        Adsorbate::new("CO2".to_string(), "carbon".to_string()),
        Adsorbate::new("COOH".to_string(), "metal".to_string()),
        Adsorbate::new("CO2".to_string(), "metal".to_string()),
    ]);
    assert_eq!(map.adsorbates().len(), 3);
    assert_eq!(map.adsorbates()[1].name(), "COOH");
    assert_eq!(map.adsorbates()[1].sites(), "metal");
    let by_name = map.ads_name_site_hashmap();
    assert_eq!(by_name.get("CO2").unwrap(), "metal");
    assert_eq!(by_name.get("COOH").unwrap(), "metal");
    assert!(by_name.get("CO").is_none());

    let item = PathwayItem::new("methanol".to_string(), strings(&["CO2", "COOH", "CO"]));
    assert_eq!(item.name(), "methanol");
    assert_eq!(item.path(), &strings(&["CO2", "COOH", "CO"]));
    let pathways = Pathways::new(vec![item]);
    assert_eq!(pathways.item().len(), 1);
    assert_eq!(pathways.item()[0].path()[2], "CO");

    let config = EnergyConfig::new(
        "GDY".to_string(),
        strings(&["Sc", "Ti"]),
        sites(),
        map,
        pathways,
    );
    assert_eq!(config.dir_prefix(), "GDY");
    assert_eq!(config.element_symbols(), &strings(&["Sc", "Ti"]));
    assert_eq!(config.sites().site_series().len(), 3);
    assert_eq!(config.adsorbates().adsorbates()[0].name(), "CO2");
    assert_eq!(config.pathways().item()[0].name(), "methanol");
    // Every adsorbate along a pathway has its series of sites.
    let by_name = config.adsorbates().ads_name_site_hashmap();
    for step in ["CO2", "COOH"] {
        assert!(by_name.get(step).is_some());
    }
    let part = Part::Elements { element_symbols: strings(&["Sc"]) };
    assert!(matches!(part, Part::Elements { .. }));
    assert_eq!(clone_strings(&strings(&["a", "b"])), strings(&["a", "b"]));
}

#[test]
fn string_map_keeps_the_later_entry() {
    let mut map: StringMap<String> = StringMap::new();
    assert!(map.get("a").is_none());
    map.insert("a".to_string(), "1".to_string());
    map.insert("b".to_string(), "2".to_string());
    map.insert("a".to_string(), "3".to_string());
    assert_eq!(map.get("a").unwrap(), "3");
    assert_eq!(map.get("b").unwrap(), "2");
    assert!(!map.contains_key("c"));
}

#[test]
fn meshgrid_of_two_lists() {
    let (xv, yv) = meshgrid(vec![1, 2, 3], vec![10, 20]);
    assert_eq!(xv, vec![1, 2, 3, 1, 2, 3]);
    assert_eq!(yv, vec![10, 10, 10, 20, 20, 20]);
    let (xv, yv) = meshgrid(vec![0.0f64, 0.5], vec![1.0f64, 2.0, 3.0]);
    assert_eq!(xv, vec![0.0, 0.5, 0.0, 0.5, 0.0, 0.5]);
    assert_eq!(yv, vec![1.0, 1.0, 2.0, 2.0, 3.0, 3.0]);
    let (xv, yv) = meshgrid(Vec::<u8>::new(), vec![1, 2]);
    assert!(xv.is_empty() && yv.is_empty());
    let (xv, yv) = meshgrid(vec!["a".to_string()], Vec::<String>::new());
    assert!(xv.is_empty() && yv.is_empty());
}

#[test]
fn meshgrid_of_two_lists_by_columns() {
    let (xv, yv) = meshgrid_by_columns(vec![1, 2, 3], vec![10, 20]);
    assert_eq!(xv, vec![1, 1, 2, 2, 3, 3]);
    assert_eq!(yv, vec![10, 20, 10, 20, 10, 20]);
    let (xv, yv) = meshgrid_by_columns(vec![0.0f64, 0.5], vec![1.0f64, 2.0, 3.0]);
    assert_eq!(xv, vec![0.0, 0.0, 0.0, 0.5, 0.5, 0.5]);
    assert_eq!(yv, vec![1.0, 2.0, 3.0, 1.0, 2.0, 3.0]);
    let (xv, yv) = meshgrid_by_columns(Vec::<u8>::new(), vec![1, 2]);
    assert!(xv.is_empty() && yv.is_empty());
    let (xv, yv) = meshgrid_by_columns(vec![1u8, 2], Vec::<u8>::new());
    assert!(xv.is_empty() && yv.is_empty());
}

#[test]
fn values_write_themselves() {
    assert_eq!("CO2".formatted_output(), "CO2");
    assert_eq!(Decimal::parse("0.12345678").unwrap().formatted_output(), "0.12345678");
    let _mesh: Cart3dMeshData<&str> = Cart3dMeshData::new(2, 1, vec!["a", "b"]);
}

fn atom(name: &str, number: u8, id: u8) -> Atom {
    let d = |s: &str| Decimal::parse(s).unwrap();
    Atom::new(name.to_string(), number, Point3::new(d("0.0"), d("1.0"), d("2.0")), id)
}

#[test]
fn adsorbate_molecule() {
    let mut mol = Molecule::new(
        "CO2".to_string(),
        vec![atom("C", 6, 1), atom("O", 8, 2), atom("O", 8, 3), atom("H", 1, 2)],
        1,
        vec![1],
        [2, 3],
        [1, 2, 3],
        true,
        true,
        2,
        "methanol".to_string(),
    );
    mol.set_adsorate_name("COOH");
    assert!(mol.vertical());
    assert_eq!(mol.atoms_vec().len(), 4);
    let (a, b) = mol.get_stem_atoms().unwrap();
    assert_eq!((a.atom_id(), a.element_name()), (2, "O"));
    assert_eq!(b.atom_id(), 3);
    let (p, q, r) = mol.get_plane_atoms().unwrap();
    assert_eq!((p.atom_id(), q.atom_id(), r.atom_id()), (1, 2, 3));
    // Of two atoms with one identifier the first is taken.
    assert_eq!(q.element_name(), "O");
    let text = mol.format_output();
    let parts: String = mol.atoms_vec().iter().map(|a| a.format_output()).collect();
    assert_eq!(text, parts);
    assert!(find_atom(mol.atoms_vec(), 9).is_none());
    assert!(find_atom(mol.atoms_vec(), 258).is_none());
    let broken = Molecule::new(
        "x".to_string(),
        vec![atom("C", 6, 1)],
        1,
        vec![1],
        [1, 5],
        [1, 1, 7],
        false,
        false,
        1,
        String::new(),
    );
    assert!(broken.get_stem_atoms().is_none());
    assert!(broken.get_plane_atoms().is_none());
}
