use gdy_model::atom::{Atom, Export, Point3};
use gdy_model::decimal::Decimal;
use gdy_model::lattice::{atomic_number_for, Lattice, LatticeError, Matrix3};
use gdy_model::order::stable_order_of;

fn num(s: &str) -> Decimal {
    Decimal::parse(s).unwrap()
}

fn point(x: &str, y: &str, z: &str) -> Point3 {
    Point3::new(num(x), num(y), num(z))
}

fn atom(name: &str, number: u8, id: u8) -> Atom {
    let c = format!("{}.5", id);
    Atom::new(name.to_string(), number, point(&c, "0", "1"), id)
}

fn unit() -> Matrix3 {
    Matrix3::from_columns(point("1", "0", "0"), point("0", "1", "0"), point("0", "0", "1"))
}

fn sample(atoms: Vec<Atom>) -> Lattice {
    Lattice::new("seed".to_string(), atoms, unit(), vec![73, 74, 75], None, false).unwrap()
}

fn names(lattice: &Lattice) -> Vec<(String, u8)> {
    lattice.atoms_vec().iter().map(|a| (a.element_name().to_string(), a.atom_id())).collect()
}

#[test]
fn atom_getters_and_setters() {
    let mut a = atom("C", 6, 1);
    assert_eq!(a.element_name(), "C");
    assert_eq!(a.element_id(), 6);
    assert_eq!(a.atom_id(), 1);
    assert_eq!(a.xyz().x.as_str(), "1.5");
    a.set_element_name("Mn");
    a.set_element_id(25);
    a.set_xyz(point("0.25", "0.5", "0.75"));
    assert_eq!(a.element_name(), "Mn");
    assert_eq!(a.element_id(), 25);
    assert_eq!(a.atom_id(), 1);
    assert_eq!(a.xyz().z.as_str(), "0.75");
    let b = a.clone();
    assert_eq!(b.element_name(), "Mn");
    assert_eq!(b.xyz().y.as_str(), "0.5");
}

#[test]
fn atom_block_text() {
    let a = Atom::new(
        "Mn".to_string(),
        25,
        point("1.000000000000", "-2.500000000000", "0.000000000000"),
        73,
    );
    assert_eq!(
        a.format_output(),
        "  (74 Atom\n    (A C ACL \"25 Mn\")\n    (A C Label \"Mn\")\n    (A D XYZ (1.000000000000 -2.500000000000 0.000000000000))\n    (A I Id 73)\n  )\n"
    );
    let last = Atom::new("H".to_string(), 1, point("0", "0", "0"), 255);
    assert!(last.format_output().starts_with("  (256 Atom\n"));
}

#[test]
fn stable_order_groups_by_key() {
    assert_eq!(stable_order_of(&vec![]), Vec::<usize>::new());
    assert_eq!(stable_order_of(&vec![6, 1, 6, 25, 1, 0, 255]), vec![5, 1, 4, 0, 2, 3, 6]);
    assert_eq!(stable_order_of(&vec![3, 3, 3]), vec![0, 1, 2]);
}

#[test]
fn new_rejects_duplicate_ids_and_wrong_site_counts() {
    let dup = Lattice::new(
        "x".to_string(),
        vec![atom("C", 6, 1), atom("H", 1, 1)],
        unit(),
        vec![73, 74, 75],
        None,
        false,
    );
    assert_eq!(dup.unwrap_err(), LatticeError::DuplicateAtomId);
    let two = Lattice::new("x".to_string(), vec![atom("C", 6, 1)], unit(), vec![1, 2], None, false);
    assert_eq!(two.unwrap_err(), LatticeError::SiteCount);
    let both = Lattice::new(
        "x".to_string(),
        vec![atom("C", 6, 1), atom("H", 1, 1)],
        unit(),
        vec![],
        None,
        false,
    );
    assert_eq!(both.unwrap_err(), LatticeError::DuplicateAtomId);
    let zero = Lattice::new(
        "x".to_string(),
        vec![atom("C", 6, 1), atom("H", 1, 0)],
        unit(),
        vec![73, 74, 75],
        None,
        false,
    );
    assert_eq!(zero.unwrap_err(), LatticeError::ZeroAtomId);
    let zero_twice = Lattice::new(
        "x".to_string(),
        vec![atom("C", 6, 0), atom("H", 1, 0)],
        unit(),
        vec![],
        None,
        false,
    );
    assert_eq!(zero_twice.unwrap_err(), LatticeError::ZeroAtomId);
    let empty = Lattice::new("x".to_string(), vec![], unit(), vec![1, 2, 3], None, true).unwrap();
    assert_eq!(empty.atoms_vec().len(), 0);
    assert!(empty.sorted());
}

#[test]
fn sort_atoms_by_elements_is_stable() {
    let mut lattice = sample(vec![
        atom("Mn", 25, 73),
        atom("C", 6, 2),
        atom("H", 1, 9),
        atom("C", 6, 1),
        atom("Ni", 28, 75),
        atom("H", 1, 3),
        atom("Mn", 25, 74),
        atom("C", 6, 5),
    ]);
    lattice.sort_atoms_by_elements();
    assert!(lattice.sorted());
    assert_eq!(
        names(&lattice),
        vec![
            ("H".to_string(), 9),
            ("H".to_string(), 3),
            ("C".to_string(), 2),
            ("C".to_string(), 1),
            ("C".to_string(), 5),
            ("Mn".to_string(), 73),
            ("Mn".to_string(), 74),
            ("Ni".to_string(), 75),
        ]
    );
    // The positions travel with their atoms.
    assert_eq!(lattice.atoms_vec()[0].xyz().x.as_str(), "9.5");
    // Lookup by identifier still finds every atom.
    for id in [73u32, 2, 9, 1, 75, 3, 74, 5] {
        assert_eq!(lattice.get_atom_by_id(id).unwrap().atom_id() as u32, id);
    }
    let numbers: Vec<u8> = lattice.atoms_vec().iter().map(|a| a.element_id()).collect();
    assert!(numbers.windows(2).all(|w| w[0] <= w[1]));
    // Sorting again changes nothing.
    let before = names(&lattice);
    lattice.sort_atoms_by_elements();
    assert_eq!(names(&lattice), before);
}

#[test]
fn lookup_by_identifier() {
    let lattice = sample(vec![atom("C", 6, 1), atom("Mn", 25, 73), atom("H", 1, 255)]);
    assert_eq!(lattice.get_atom_by_id(73).unwrap().element_name(), "Mn");
    assert_eq!(lattice.get_atom_by_id(255).unwrap().element_name(), "H");
    assert!(lattice.get_atom_by_id(0).is_none());
    assert!(lattice.get_atom_by_id(2).is_none());
    assert!(lattice.get_atom_by_id(256).is_none());
    assert!(lattice.get_atom_by_id(u32::MAX).is_none());
}

#[test]
fn substitute_element_keeps_id_and_position() {
    let mut lattice = sample(vec![atom("C", 6, 1), atom("Sc", 21, 73)]);
    assert_eq!(lattice.substitute_element(73, "Mn", 25), Ok(()));
    let a = lattice.get_atom_by_id(73).unwrap();
    assert_eq!((a.element_name(), a.element_id(), a.atom_id()), ("Mn", 25, 73));
    assert_eq!(a.xyz().x.as_str(), "73.5");
    assert_eq!(lattice.atoms_vec()[0].element_name(), "C");
    assert_eq!(lattice.substitute_element(74, "Mn", 25), Err(LatticeError::MissingSite));
    assert_eq!(names(&lattice), vec![("C".to_string(), 1), ("Mn".to_string(), 73)]);
}

#[test]
fn substitute_sites_and_base_name() {
    let mut lattice = sample(vec![
        atom("Sc", 21, 73),
        atom("C", 6, 1),
        atom("Sc", 21, 74),
        atom("Sc", 21, 75),
    ]);
    assert_eq!(lattice.substitute_sites(&[25, 25, 28], "Mn", "Mn", "Ni"), Ok(()));
    assert_eq!(lattice.update_base_name(), Ok(()));
    assert_eq!(lattice.lattice_name(), "GDY_Mn_Mn_Ni");
    assert_eq!(lattice.get_atom_by_id(75).unwrap().element_id(), 28);
    assert_eq!(lattice.get_atom_by_id(1).unwrap().element_name(), "C");

    let mut short = sample(vec![atom("Sc", 21, 73), atom("Sc", 21, 74)]);
    assert_eq!(
        short.substitute_sites(&[25, 25, 28], "Mn", "Mn", "Ni"),
        Err(LatticeError::MissingSite)
    );
    assert_eq!(short.atoms_vec()[0].element_name(), "Sc");
    assert_eq!(short.update_base_name(), Err(LatticeError::MissingSite));
    assert_eq!(short.lattice_name(), "seed");
}

#[test]
fn setters_of_the_lattice() {
    let mut lattice = sample(vec![atom("C", 6, 1)]);
    assert!(lattice.get_adsorbate_name().is_none());
    lattice.set_adsorbate_name("CO2".to_string());
    assert_eq!(lattice.get_adsorbate_name(), Some("CO2"));
    lattice.set_lattice_name("other".to_string());
    assert_eq!(lattice.lattice_name(), "other");
    lattice.set_sorted(true);
    assert!(lattice.sorted());
    lattice.set_lattice_vectors(Matrix3::from_columns(
        point("5", "0", "0"),
        point("0", "5", "0"),
        point("0", "0", "5"),
    ));
    assert_eq!(lattice.get_lattice_vectors().b.y.as_str(), "5");
    assert_eq!(lattice.get_metal_sites(), &vec![73, 74, 75]);
    let copy = lattice.clone();
    assert_eq!(copy.lattice_name(), "other");
    assert_eq!(copy.get_adsorbate_name(), Some("CO2"));
    assert_eq!(copy.get_atom_by_id(1).unwrap().element_name(), "C");
}

#[test]
fn set_positions_needs_one_for_each_atom() {
    let mut lattice = sample(vec![atom("C", 6, 1), atom("H", 1, 2)]);
    assert_eq!(
        lattice.set_positions(vec![point("1", "2", "3")]),
        Err(LatticeError::PositionCount)
    );
    assert_eq!(lattice.atoms_vec()[0].xyz().x.as_str(), "1.5");
    assert_eq!(
        lattice.set_positions(vec![point("1", "2", "3"), point("4", "5", "6")]),
        Ok(())
    );
    assert_eq!(lattice.atoms_vec()[0].xyz().y.as_str(), "2");
    assert_eq!(lattice.atoms_vec()[1].xyz().z.as_str(), "6");
    assert_eq!(lattice.get_atom_by_id(2).unwrap().xyz().x.as_str(), "4");
}

#[test]
fn lattice_vectors_take_24_columns_and_18_places() {
    let mut lattice = sample(vec![atom("C", 6, 1)]);
    assert_eq!(lattice.lattice_vector_str(), Err(LatticeError::Precision));
    let a = [16.39518593025f64, -9.465765010246, 0.0];
    let b = [0.0f64, 18.93153002049, 0.0];
    let c = [0.0f64, 0.0, 9.999213039981];
    let col = |v: [f64; 3]| {
        Point3::new(
            num(&format!("{:.18}", v[0])),
            num(&format!("{:.18}", v[1])),
            num(&format!("{:.18}", v[2])),
        )
    };
    lattice.set_lattice_vectors(Matrix3::from_columns(col(a), col(b), col(c)));
    let (name, rows) = lattice.lattice_vector_str().unwrap();
    assert_eq!(name, "LATTICE_CART");
    let mut expected = String::new();
    for v in [a, b, c] {
        expected.push_str(&format!("{:24.18}{:24.18}{:24.18}\n", v[0], v[1], v[2]));
    }
    assert_eq!(rows, expected);
    assert_eq!(rows.lines().next().unwrap().len(), 72);
}

#[test]
fn element_list_is_ordered_by_atomic_number() {
    let lattice = sample(vec![
        atom("O", 8, 1),
        atom("Mn", 25, 2),
        atom("C", 6, 3),
        atom("H", 1, 4),
        atom("C", 6, 5),
        atom("Ni", 28, 6),
        atom("O", 8, 7),
    ]);
    assert_eq!(lattice.get_element_list().unwrap(), vec!["H", "C", "O", "Mn", "Ni"]);
    let odd = sample(vec![atom("C", 6, 1), atom("Xx", 0, 2)]);
    assert_eq!(odd.get_element_list(), Err(LatticeError::UnknownElement));
    let none = sample(vec![]);
    assert_eq!(none.get_element_list().unwrap(), Vec::<String>::new());
    // A symbol that sorts before the first symbol of the table is that of
    // no element either.
    for symbol in ["", "A", "Aa", "Ab", "AB", "0", " C", "@", "-"] {
        let lattice = sample(vec![atom("C", 6, 1), atom(symbol, 0, 2)]);
        assert_eq!(lattice.get_element_list(), Err(LatticeError::UnknownElement), "{symbol:?}");
    }
}

#[test]
fn atomic_numbers_by_symbol() {
    for symbol in ["", "A", "Aa", "Ab", "0", " H", "Ad", "Xx", "Zz", "h", "ac", "Acx", "\u{e9}"] {
        assert_eq!(atomic_number_for(symbol), None, "{symbol:?}");
    }
    assert_eq!(atomic_number_for("Ac"), Some(89));
    assert_eq!(atomic_number_for("Ag"), Some(47));
    assert_eq!(atomic_number_for("Al"), Some(13));
    assert_eq!(atomic_number_for("Ar"), Some(18));
    assert_eq!(atomic_number_for("B"), Some(5));
    assert_eq!(atomic_number_for("H"), Some(1));
    assert_eq!(atomic_number_for("Mn"), Some(25));
    assert_eq!(atomic_number_for("Zr"), Some(40));
    assert_eq!(atomic_number_for("Og"), Some(118));
}

#[test]
fn model_text_has_head_atoms_and_bracket() {
    let lattice = sample(vec![atom("C", 6, 1), atom("H", 1, 2)]);
    let text = lattice.format_output();
    let head = "# MSI CERIUS2 DataModel File Version 4 0\n(1 Model\n  (A I CRY/DISPLAY (192 256))\n  (A I PeriodicType 100)\n  (A C SpaceGroup \"1 1\")\n  (A D A3 (16.39518593025 -9.465765010246 0))\n  (A D B3 (0 18.93153002049 0))\n  (A D C3 (0 0 9.999213039981))\n  (A D CRY/TOLERANCE 0.05)\n";
    let expected = format!(
        "{}{}{})",
        head,
        lattice.atoms_vec()[0].format_output(),
        lattice.atoms_vec()[1].format_output()
    );
    assert_eq!(text, expected);
    // What is written can be read again.
    let again = gdy_model::parser::parse_lattice("seed", &text).unwrap();
    assert_eq!(names(&again), names(&lattice));
    assert_eq!(again.atoms_vec()[1].xyz().x.as_str(), "2.5");
}
