use gdy_model::atom::Export;
use gdy_model::parser::{parse_atom, parse_lattice, parse_lattice_vectors, ParseError};

const MINIMAL: &str = "# MSI CERIUS2 DataModel File Version 4 0\n(1 Model\n  (A D A3 (1 0 0))\n  (A D B3 (0 1 0))\n  (A D C3 (0 0 1))\n  (2 Atom\n    (A C ACL \"6 C\")\n    (A C Label \"C\")\n    (A D XYZ (1.0 2.0 3.0))\n    (A I Id 1)\n  )\n)";

#[test]
fn minimal_parse_example() {
    let lattice = parse_lattice("minimal", MINIMAL).unwrap();
    let atoms = lattice.atoms_vec();
    assert_eq!(atoms.len(), 1);
    let atom = &atoms[0];
    assert_eq!(atom.element_name(), "C");
    assert_eq!(atom.element_id(), 6);
    assert_eq!(atom.atom_id(), 1);
    let xyz = atom.xyz();
    assert_eq!(xyz.x.as_str().parse::<f64>().unwrap(), 1.0);
    assert_eq!(xyz.y.as_str().parse::<f64>().unwrap(), 2.0);
    assert_eq!(xyz.z.as_str().parse::<f64>().unwrap(), 3.0);
    let m = lattice.get_lattice_vectors();
    let cols = [&m.a, &m.b, &m.c];
    for (i, col) in cols.iter().enumerate() {
        let v = [
            col.x.as_str().parse::<f64>().unwrap(),
            col.y.as_str().parse::<f64>().unwrap(),
            col.z.as_str().parse::<f64>().unwrap(),
        ];
        for j in 0..3 {
            assert_eq!(v[j], if i == j { 1.0 } else { 0.0 });
        }
    }
    assert_eq!(lattice.get_metal_sites(), &vec![73, 74, 75]);
    assert_eq!(lattice.lattice_name(), "minimal");
    assert!(lattice.get_adsorbate_name().is_none());
    assert!(!lattice.sorted());
}

#[test]
fn parse_without_atom_block_fails() {
    assert_eq!(parse_atom("nothing here").unwrap_err(), ParseError::NoAtomBlock);
    assert_eq!(parse_lattice("x", "nothing here").unwrap_err(), ParseError::NoAtomBlock);
}

#[test]
fn parse_tolerates_crlf() {
    let text = MINIMAL.replace('\n', "\r\n");
    let lattice = parse_lattice("crlf", &text).unwrap();
    assert_eq!(lattice.atoms_vec().len(), 1);
    assert_eq!(lattice.atoms_vec()[0].element_name(), "C");
    assert_eq!(lattice.get_lattice_vectors().a.x.as_str(), "1");
}

#[test]
fn parse_lattice_vectors_missing() {
    assert_eq!(parse_lattice_vectors("(A D A3 (1 0 0))").unwrap_err(), ParseError::NoLatticeVectors);
}

#[test]
fn atom_block_round_trip() {
    let lattice = parse_lattice("minimal", MINIMAL).unwrap();
    let text = lattice.atoms_vec()[0].format_output();
    assert_eq!(
        text,
        "  (2 Atom\n    (A C ACL \"6 C\")\n    (A C Label \"C\")\n    (A D XYZ (1.0 2.0 3.0))\n    (A I Id 1)\n  )\n"
    );
}

#[test]
fn atoms_come_in_the_order_of_the_text() {
    let text = "  (2 Atom\n    (A C ACL \"25 Mn\")\n    (A C Label \"Mn\")\n    (A D XYZ (-1.5 2e-3 .25))\n    (A I Id 73)\n  )\n  (3 Atom\n    (A C ACL \"6 C\")\n    (A C Label \"C\")\n    (A D XYZ (0 0 1.))\n    (A I Id 2)\n  )\n";
    let atoms = parse_atom(text).unwrap();
    assert_eq!(atoms.len(), 2);
    assert_eq!((atoms[0].element_name(), atoms[0].element_id(), atoms[0].atom_id()), ("Mn", 25, 73));
    assert_eq!((atoms[1].element_name(), atoms[1].element_id(), atoms[1].atom_id()), ("C", 6, 2));
    assert_eq!(atoms[0].xyz().x.as_str(), "-1.5");
    assert_eq!(atoms[0].xyz().y.as_str().parse::<f64>().unwrap(), 0.002);
    assert_eq!(atoms[0].xyz().z.as_str(), ".25");
    assert_eq!(atoms[1].xyz().z.as_str().parse::<f64>().unwrap(), 1.0);
}

#[test]
fn malformed_atoms_are_reported_with_their_block() {
    let good = "(A C ACL \"6 C\")\n(A C Label \"C\")\n(A D XYZ (0 0 1))\n(A I Id 2)\n";
    let big_number = "(A C ACL \"300 C\")\n(A C Label \"C\")\n(A D XYZ (0 0 1))\n(A I Id 3)\n";
    let big_id = "(A C ACL \"6 C\")\n(A C Label \"C\")\n(A D XYZ (0 0 1))\n(A I Id 256)\n";
    let bad_xyz = "(A C ACL \"6 C\")\n(A C Label \"C\")\n(A D XYZ (0 1.2.3 1))\n(A I Id 4)\n";
    assert_eq!(parse_atom(big_number).unwrap_err(), ParseError::MalformedAtom { block: 0 });
    assert_eq!(
        parse_atom(&format!("{good}{big_id}")).unwrap_err(),
        ParseError::MalformedAtom { block: 1 }
    );
    assert_eq!(
        parse_atom(&format!("{good}{bad_xyz}{big_id}")).unwrap_err(),
        ParseError::MalformedAtom { block: 1 }
    );
    assert_eq!(parse_atom(good).unwrap().len(), 1);
}

#[test]
fn lattice_vectors_are_read_from_their_words() {
    let text = "  (A D A3 (16.39518593025 -9.465765010246 0))\n  (A D B3 (0 18.93153002049 0))\n  (A D C3 (0 0 9.999213039981))\n";
    let m = parse_lattice_vectors(text).unwrap();
    assert_eq!(m.a.x.as_str(), "16.39518593025");
    assert_eq!(m.a.y.as_str(), "-9.465765010246");
    assert_eq!(m.a.z.as_str(), "0");
    assert_eq!(m.b.y.as_str(), "18.93153002049");
    assert_eq!(m.c.z.as_str(), "9.999213039981");
    // Words that are no numbers are passed over; a fourth number is not read.
    let odd = "(A D A3 (1 - 2  e 3 4))\n(A D B3 (0 1 0))\n(A D C3 (0 0 1))";
    let m = parse_lattice_vectors(odd).unwrap();
    assert_eq!((m.a.x.as_str(), m.a.y.as_str(), m.a.z.as_str()), ("1", "2", "3"));
    let short = "(A D A3 (1 0 0))\n(A D B3 (0 1))\n(A D C3 (0 0 1))";
    assert_eq!(
        parse_lattice_vectors(short).unwrap_err(),
        ParseError::MalformedVector { vector: 1 }
    );
    let first = "(A D A3 (1 e 0))\n(A D B3 (0 1 0))\n(A D C3 (0 0 1))";
    assert_eq!(
        parse_lattice_vectors(first).unwrap_err(),
        ParseError::MalformedVector { vector: 0 }
    );
    let last = "(A D A3 (1 0 0))\n(A D B3 (0 1 0))\n(A D C3 (- - -))";
    assert_eq!(
        parse_lattice_vectors(last).unwrap_err(),
        ParseError::MalformedVector { vector: 2 }
    );
}

#[test]
fn duplicate_identifiers_are_no_model() {
    let block = "(A C ACL \"6 C\")\n(A C Label \"C\")\n(A D XYZ (0 0 1))\n(A I Id 2)\n";
    let text = format!("(A D A3 (1 0 0))\n(A D B3 (0 1 0))\n(A D C3 (0 0 1))\n{block}{block}");
    assert_eq!(parse_lattice("x", &text).unwrap_err(), ParseError::DuplicateAtomId);
    let no_vectors = block.to_string();
    assert_eq!(parse_lattice("x", &no_vectors).unwrap_err(), ParseError::NoLatticeVectors);
}

#[test]
fn identifiers_count_from_one() {
    let zero = "(A C ACL \"6 C\")\n(A C Label \"C\")\n(A D XYZ (0 0 1))\n(A I Id 0)\n";
    let one = "(A C ACL \"6 C\")\n(A C Label \"C\")\n(A D XYZ (0 0 1))\n(A I Id 1)\n";
    assert_eq!(parse_atom(zero).unwrap_err(), ParseError::MalformedAtom { block: 0 });
    assert_eq!(
        parse_atom(&format!("{one}{zero}")).unwrap_err(),
        ParseError::MalformedAtom { block: 1 }
    );
    assert_eq!(parse_atom(one).unwrap()[0].atom_id(), 1);
    assert_eq!(parse_atom(&one.replace("Id 1", "Id 255")).unwrap()[0].atom_id(), 255);
}

#[test]
fn a_symbol_of_no_element_is_read_and_then_refused() {
    for symbol in ["A", "Aa", "Ab", "Xx"] {
        let text = format!(
            "(A D A3 (1 0 0))\n(A D B3 (0 1 0))\n(A D C3 (0 0 1))\n(A C ACL \"6 {symbol}\")\n(A C Label \"{symbol}\")\n(A D XYZ (0 0 1))\n(A I Id 1)\n"
        );
        let lattice = parse_lattice("odd", &text).unwrap();
        assert_eq!(lattice.atoms_vec()[0].element_name(), symbol);
        assert_eq!(
            lattice.get_element_list(),
            Err(gdy_model::lattice::LatticeError::UnknownElement)
        );
    }
}
