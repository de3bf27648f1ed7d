use gdy_model::atom::{Atom, Point3};
use gdy_model::cell::{
    position_row_string, species_row_string, write_block, Cell, ExportError, SpeciesBlock,
};
use gdy_model::decimal::Decimal;
use gdy_model::element_table::{hash_table, Element, ElementTable, ElmTab};
use gdy_model::export::SeedFile;
use gdy_model::lattice::{Lattice, Matrix3};
use gdy_model::param_writer::{
    copy_potentials, copy_smcastep_extension, cutoff_from_markers, export_destination,
    param_files_missing, seed_export_rest,
    export_filepath, fine_cutoff_energy, get_final_cutoff_energy, kptaux_contents, param_content,
    potential_files, round_up_cutoff, seed_export, spin_total, trjaux_contents, write_kptaux,
    write_param,
    write_seed_files_for_cell, write_trjaux, CastepTask, CutoffError, SeedError,
};

use gdy_model::write_once::missing_files;
use std::collections::HashMap;

fn num(s: &str) -> Decimal {
    Decimal::parse(s).unwrap()
}

fn fixed(v: [f64; 3], places: usize) -> Point3 {
    Point3::new(
        num(&format!("{:.*}", places, v[0])),
        num(&format!("{:.*}", places, v[1])),
        num(&format!("{:.*}", places, v[2])),
    )
}

fn atom(name: &str, number: u8, id: u8) -> Atom {
    Atom::new(name.to_string(), number, fixed([id as f64, 0.0, 0.0], 12), id)
}

fn element(symbol: &str, number: u8, lcao: u8, mass: f64, pot: &str, spin: u8) -> Element {
    Element {
        element: symbol.to_string(),
        atomic_number: number,
        lcao,
        mass: num(&format!("{:.10}", mass)),
        pot: pot.to_string(),
        spin,
    }
}

fn table() -> ElementTable {
    ElementTable::from_elements(vec![
        element("H", 1, 1, 1.00794, "H_00.usp", 1),
        element("C", 6, 2, 12.011, "C_00PBE.usp", 0),
        element("Mn", 25, 3, 54.938049, "Mn_00.uspcc", 5),
        element("Ni", 28, 3, 58.6934, "Ni_00.uspcc", 2),
    ])
}

const CUBE: [[f64; 3]; 3] = [[5.0, 0.0, 0.0], [0.0, 5.0, 0.0], [0.0, 0.0, 5.0]];

fn cell_of(atoms: Vec<Atom>, sorted: bool) -> Cell {
    let vectors =
        Matrix3::from_columns(fixed(CUBE[0], 18), fixed(CUBE[1], 18), fixed(CUBE[2], 18));
    let lattice =
        Lattice::new("GDY_Mn_Mn_Ni".to_string(), atoms, vectors, vec![73, 74, 75], None, false)
            .unwrap();
    Cell::new(lattice, sorted)
}

fn sample_cell() -> Cell {
    let mut cell = cell_of(
        vec![atom("Mn", 25, 73), atom("C", 6, 1), atom("Mn", 25, 74), atom("Ni", 28, 75), atom("C", 6, 2)],
        false,
    );
    cell.sort_atoms_by_elements();
    cell
}

fn half(n: usize) -> Vec<Point3> {
    (0..n).map(|i| fixed([0.5, 0.25 * i as f64, 0.125], 16)).collect()
}

#[test]
fn element_table_finds_by_symbol_and_keeps_the_later_entry() {
    let t = ElementTable::from_elements(vec![
        element("C", 6, 2, 12.011, "old.usp", 0),
        element("H", 1, 1, 1.00794, "H_00.usp", 1),
        element("C", 6, 2, 12.011, "new.usp", 0),
    ]);
    assert_eq!(t.get("C").unwrap().pot, "new.usp");
    assert_eq!(t.get("H").unwrap().spin, 1);
    assert!(t.get("He").is_none());
    assert!(t.get("").is_none());
    assert!(hash_table(ElmTab { elements: None }).is_none());
    let loaded = hash_table(ElmTab { elements: Some(vec![element("C", 6, 2, 12.011, "C.usp", 0)]) })
        .unwrap();
    assert_eq!(loaded.get("C").unwrap().mass.as_str(), "12.0110000000");
    assert_eq!(loaded.get("C").unwrap().clone().lcao, 2);
}

#[test]
fn block_text() {
    assert_eq!(
        write_block(("KPOINTS_LIST".to_string(), "x\n".to_string())),
        "%BLOCK KPOINTS_LIST\nx\n%ENDBLOCK KPOINTS_LIST\n\n"
    );
    assert_eq!(
        write_block(("IONIC_CONSTRAINTS".to_string(), String::new())),
        "%BLOCK IONIC_CONSTRAINTS\n%ENDBLOCK IONIC_CONSTRAINTS\n\n"
    );
}

#[test]
fn position_rows_carry_spin_only_when_not_zero() {
    let at = fixed([0.5, 0.5, 0.5], 16);
    assert_eq!(
        position_row_string("C", &at, 0),
        format!("{:>3}{:20.16}{:20.16}{:20.16}\n", "C", 0.5, 0.5, 0.5)
    );
    assert_eq!(
        position_row_string("Mn", &at, 5),
        format!("{:>3}{:20.16}{:20.16}{:20.16} SPIN={:14.10}\n", "Mn", 0.5, 0.5, 0.5, 5.0)
    );
    assert_eq!(
        position_row_string("Mn", &at, 5),
        " Mn  0.5000000000000000  0.5000000000000000  0.5000000000000000 SPIN=  5.0000000000\n"
    );
    assert!(position_row_string("Gd", &at, 255).ends_with(" SPIN=255.0000000000\n"));
}

#[test]
fn species_rows() {
    let e = element("Mn", 25, 3, 54.938049, "Mn_00.uspcc", 5);
    assert_eq!(
        species_row_string(SpeciesBlock::Mass, &e),
        format!("{:>8}{:17.10}\n", "Mn", 54.938049)
    );
    assert_eq!(species_row_string(SpeciesBlock::Potential, &e), "      Mn  Mn_00.uspcc\n");
    assert_eq!(species_row_string(SpeciesBlock::LcaoStates, &e), format!("{:>8}{:9}\n", "Mn", 3));
}

#[test]
fn geometry_file_of_a_cubic_cell() {
    let cell = sample_cell();
    assert!(cell.sorted());
    assert_eq!(cell.get_cell_name(), "GDY_Mn_Mn_Ni");
    let frac = half(5);
    let text = cell.format_output(&frac, &table()).unwrap();
    let mut expected = String::new();
    expected.push_str("%BLOCK LATTICE_CART\n");
    for v in CUBE {
        expected.push_str(&format!("{:24.18}{:24.18}{:24.18}\n", v[0], v[1], v[2]));
    }
    expected.push_str("%ENDBLOCK LATTICE_CART\n\n%BLOCK POSITIONS_FRAC\n");
    let order = [("C", 0u8), ("C", 0), ("Mn", 5), ("Mn", 5), ("Ni", 2)];
    for (i, (name, spin)) in order.iter().enumerate() {
        let y = 0.25 * i as f64;
        if *spin > 0 {
            expected.push_str(&format!(
                "{:>3}{:20.16}{:20.16}{:20.16} SPIN={:14.10}\n",
                name, 0.5, y, 0.125, *spin as f64
            ));
        } else {
            expected.push_str(&format!("{:>3}{:20.16}{:20.16}{:20.16}\n", name, 0.5, y, 0.125));
        }
    }
    expected.push_str("%ENDBLOCK POSITIONS_FRAC\n\n");
    expected.push_str("%BLOCK KPOINTS_LIST\n   0.0000000000000000   0.0000000000000000   0.0000000000000000       1.000000000000000\n%ENDBLOCK KPOINTS_LIST\n\n");
    expected.push_str("FIX_ALL_CELL : true\n\nFIX_COM : false\n%BLOCK IONIC_CONSTRAINTS\n%ENDBLOCK IONIC_CONSTRAINTS\n\n");
    expected.push_str("%BLOCK EXTERNAL_EFIELD\n    0.0000000000     0.0000000000     0.0000000000\n%ENDBLOCK EXTERNAL_EFIELD\n\n");
    expected.push_str("%BLOCK EXTERNAL_PRESSURE\n    0.0000000000    0.0000000000    0.0000000000\n                    0.0000000000    0.0000000000\n                                    0.0000000000\n%ENDBLOCK EXTERNAL_PRESSURE\n\n");
    expected.push_str("%BLOCK SPECIES_MASS\n");
    for (name, mass) in [("C", 12.011), ("Mn", 54.938049), ("Ni", 58.6934)] {
        expected.push_str(&format!("{:>8}{:17.10}\n", name, mass));
    }
    expected.push_str("%ENDBLOCK SPECIES_MASS\n\n%BLOCK SPECIES_POT\n");
    for (name, pot) in [("C", "C_00PBE.usp"), ("Mn", "Mn_00.uspcc"), ("Ni", "Ni_00.uspcc")] {
        expected.push_str(&format!("{:>8}  {}\n", name, pot));
    }
    expected.push_str("%ENDBLOCK SPECIES_POT\n\n%BLOCK SPECIES_LCAO_STATES\n");
    for (name, lcao) in [("C", 2), ("Mn", 3), ("Ni", 3)] {
        expected.push_str(&format!("{:>8}{:9}\n", name, lcao));
    }
    expected.push_str("%ENDBLOCK SPECIES_LCAO_STATES\n\n");
    assert_eq!(text, expected);

    // The parts, one by one.
    assert_eq!(cell.kpoints_list_str().0, "KPOINTS_LIST");
    assert!(expected.contains(&cell.misc_str()));
    let (name, rows) = cell.positions_str(&frac, &table()).unwrap();
    assert_eq!(name, "POSITIONS_FRAC");
    assert_eq!(rows.lines().count(), 5);
    assert_eq!(cell.lattice_vector_str().unwrap().0, "LATTICE_CART");
    assert_eq!(cell.species_mass_str(&table()).unwrap().0, "SPECIES_MASS");
    assert_eq!(
        cell.species_pot_str(&table()).unwrap().1,
        "       C  C_00PBE.usp\n      Mn  Mn_00.uspcc\n      Ni  Ni_00.uspcc\n"
    );
    assert_eq!(cell.species_lcao_str(&table()).unwrap().0, "SPECIES_LCAO_STATES");
}

#[test]
fn geometry_file_errors() {
    let frac = half(5);
    let unsorted = cell_of(vec![atom("C", 6, 1)], false);
    assert_eq!(unsorted.format_output(&half(1), &table()), Err(ExportError::NotSorted));
    let cell = sample_cell();
    assert_eq!(cell.format_output(&half(4), &table()), Err(ExportError::PositionCount));
    let coarse: Vec<Point3> = (0..5).map(|_| fixed([0.5, 0.5, 0.5], 15)).collect();
    assert_eq!(cell.format_output(&coarse, &table()), Err(ExportError::Precision));
    let small = ElementTable::from_elements(vec![element("C", 6, 2, 12.011, "C.usp", 0)]);
    assert_eq!(cell.format_output(&frac, &small), Err(ExportError::Lookup));
    let mut odd = cell_of(vec![atom("Xx", 0, 1)], false);
    odd.sort_atoms_by_elements();
    assert_eq!(odd.format_output(&half(1), &table()), Err(ExportError::UnknownElement));
    let rough = ElementTable::from_elements(vec![Element {
        element: "C".to_string(),
        atomic_number: 6,
        lcao: 2,
        mass: num("12.011"),
        pot: "C.usp".to_string(),
        spin: 0,
    }]);
    let mut carbon = cell_of(vec![atom("C", 6, 1)], false);
    carbon.sort_atoms_by_elements();
    assert_eq!(carbon.species_mass_str(&rough), Err(ExportError::Precision));
    assert!(carbon.species_pot_str(&rough).is_ok());
    assert_eq!(carbon.format_output(&half(1), &rough), Err(ExportError::Precision));
    let into = carbon.into_lattice();
    assert!(into.sorted());
}

#[test]
fn cutoff_energy_example() {
    assert_eq!(round_up_cutoff(521), 530);
    assert_eq!(round_up_cutoff(549), 550);
    assert_eq!(cutoff_from_markers(&vec![521, 549]), 550);
    assert_eq!(cutoff_from_markers(&vec![549, 521]), 550);
    let files =
        vec!["  480  COARSE\n  521  FINE\n".to_string(), "x 500 MEDIUM\n549 FINE".to_string()];
    assert_eq!(get_final_cutoff_energy(&files), Ok(550));
}

#[test]
fn cutoff_energy_rounds_to_the_next_ten_above() {
    assert_eq!(round_up_cutoff(0), 10);
    assert_eq!(round_up_cutoff(9), 10);
    assert_eq!(round_up_cutoff(10), 20);
    assert_eq!(round_up_cutoff(520), 530);
    assert_eq!(round_up_cutoff(u32::MAX), 4294967300);
    assert_eq!(cutoff_from_markers(&vec![]), 0);
    assert_eq!(get_final_cutoff_energy(&vec![]), Ok(0));
}

#[test]
fn cutoff_energy_errors() {
    assert_eq!(fine_cutoff_energy("  340  FINE", 0), Ok(340));
    assert_eq!(fine_cutoff_energy("12 34 FINE", 0), Ok(12));
    assert_eq!(fine_cutoff_energy("no number FINE", 3), Err(CutoffError::NoMarker { file: 3 }));
    assert_eq!(fine_cutoff_energy("340\nFINE", 1), Err(CutoffError::NoMarker { file: 1 }));
    assert_eq!(
        fine_cutoff_energy("99999999999 FINE", 2),
        Err(CutoffError::BadMarker { file: 2 })
    );
    let files = vec!["521 FINE".to_string(), "nothing".to_string(), "99999999999 FINE".to_string()];
    assert_eq!(get_final_cutoff_energy(&files), Err(CutoffError::NoMarker { file: 1 }));
}

#[test]
fn spin_is_summed_over_the_atoms() {
    let cell = sample_cell();
    assert_eq!(spin_total(cell.lattice().atoms_vec(), &table()), Some(12));
    assert_eq!(spin_total(&vec![], &table()), Some(0));
    assert_eq!(spin_total(&vec![atom("Zr", 40, 1)], &table()), None);
    let many: Vec<Atom> = (0..200).map(|i| atom("Mn", 25, i as u8)).collect();
    assert_eq!(spin_total(&many, &table()), Some(1000));
}

const PARAM_TAIL: &str = "\ngrid_scale :        1.500000000000000\nfine_grid_scale :        1.500000000000000\nfinite_basis_corr :        0\nelec_energy_tol :   1.000000000000000e-005\nmax_scf_cycles :     6000\nfix_occupancy : false\nmetals_method : dm\nmixing_scheme : Pulay\nmix_charge_amp :        0.500000000000000\nmix_spin_amp :        2.000000000000000\nmix_charge_gmax :        1.500000000000000\nmix_spin_gmax :        1.500000000000000\nmix_history_length :       20\nperc_extra_bands :      72\nsmearing_width :        0.100000000000000\nspin_fix :        6\nnum_dump_cycles : 0\nbs_nextra_bands :       72\nbs_xc_functional : PBE\nbs_eigenvalue_tol :   1.000000000000000e-005\ncalculate_stress : false\ncalculate_ELF : false\npopn_calculate : false\ncalculate_hirshfeld : false\ncalculate_densdiff : false\npdos_calculate_weights : true\nbs_write_eigenvalues : true\n";

fn param(task: &str, spin: u64, cutoff: &str) -> String {
    format!(
        "task : {task}\ncontinuation : default\ncomment : CASTEP calculation from Materials Studio\nxc_functional : PBE\nspin_polarized : true\nspin :        {spin}\nopt_strategy : Speed\npage_wvfns :        0\ncut_off_energy : {cutoff}{PARAM_TAIL}"
    )
}

#[test]
fn parameter_files() {
    let geom = param_content(CastepTask::GeometryOptimization, 12, 550);
    assert_eq!(geom, param("GeometryOptimization", 12, &format!("{:18.15}", 550.0)));
    let dos = param_content(CastepTask::BandStructure, 12, 550);
    assert_eq!(dos, param("BandStructure", 12, &format!("     {:.15}", 550.0)));
    // A short cutoff energy is padded for the geometry optimization only.
    assert!(param_content(CastepTask::GeometryOptimization, 0, 10)
        .contains("cut_off_energy : 10.000000000000000\n"));
    assert!(param_content(CastepTask::GeometryOptimization, 0, 0)
        .contains("cut_off_energy :  0.000000000000000\n"));
    assert!(param_content(CastepTask::BandStructure, 0, 0)
        .contains("cut_off_energy :      0.000000000000000\n"));
    let cell = sample_cell();
    let (g, d) = write_param(&cell, &table(), 550).unwrap();
    assert_eq!(g, geom);
    assert_eq!(d, dos);
    let small = ElementTable::from_elements(vec![]);
    assert_eq!(write_param(&cell, &small, 550), Err(ExportError::Lookup));
}

#[test]
fn auxiliary_files() {
    let k = "MP_GRID :        1       1       1\nMP_OFFSET :   0.000000000000000e+000  \n0.000000000000000e+000  0.000000000000000e+000\n%BLOCK KPOINT_IMAGES\n   1   1\n%ENDBLOCK KPOINT_IMAGES";
    assert_eq!(kptaux_contents(), k);
    let cell = sample_cell();
    assert_eq!(write_kptaux(&cell), k);
    let t = write_trjaux(&cell);
    assert_eq!(
        t,
        "# Atom IDs to appear in any .trj file to be generated.\n# Correspond to atom IDs which will be used in exported .msi file\n# required for animation/analysis of trajectory within Cerius2.\n1\n2\n73\n74\n75\n#Origin  0.000000000000000e+000  0.000000000000000e+000  0.000000000000000e+000"
    );
    assert_eq!(trjaux_contents(cell.lattice().atoms_vec()), t);
    assert_eq!(copy_smcastep_extension(&cell), "SMCastep_Extension_GDY_Mn_Mn_Ni.xms");
}

#[test]
fn destinations() {
    let cell = sample_cell();
    assert_eq!(export_destination(&cell).unwrap(), "GDY_TAC_models/3d/Mn/GDY_Mn_Mn_Ni_opt");
    assert_eq!(
        export_filepath(&cell, "_DOS.param").unwrap(),
        "GDY_TAC_models/3d/Mn/GDY_Mn_Mn_Ni_opt/GDY_Mn_Mn_Ni_DOS.param"
    );
    let lone = cell_of(vec![atom("C", 6, 1)], true);
    assert_eq!(export_destination(&lone), Err(SeedError::MissingSite));
    assert_eq!(export_filepath(&lone, ".param"), Err(SeedError::MissingSite));
    for (name, number, dir) in
        [("Zr", 40u8, "4d"), ("Au", 79, "5d"), ("Gd", 64, "rare_earth"), ("C", 6, "else")]
    {
        let c = cell_of(vec![atom(name, number, 73)], true);
        assert_eq!(
            export_destination(&c).unwrap(),
            format!("GDY_TAC_models/{dir}/{name}/GDY_Mn_Mn_Ni_opt")
        );
    }
}

#[test]
fn seed_files_of_a_cell() {
    let cell = sample_cell();
    let files = write_seed_files_for_cell(&cell, &table(), 550).unwrap();
    let paths: Vec<&str> = files.iter().map(|f| f.path.as_str()).collect();
    let dir = "GDY_TAC_models/3d/Mn/GDY_Mn_Mn_Ni_opt/GDY_Mn_Mn_Ni";
    assert_eq!(
        paths,
        vec![
            format!("{dir}.param"),
            format!("{dir}_DOS.param"),
            format!("{dir}.kptaux"),
            format!("{dir}_DOS.kptaux"),
            format!("{dir}.trjaux"),
        ]
    );
    assert_eq!(files[0].text, param_content(CastepTask::GeometryOptimization, 12, 550));
    assert_eq!(files[1].text, param_content(CastepTask::BandStructure, 12, 550));
    assert_eq!(files[2].text, kptaux_contents());
    assert_eq!(files[3].text, kptaux_contents());
    assert_eq!(files[4].text, write_trjaux(&cell));
    // Making them again gives the same files.
    let again = write_seed_files_for_cell(&cell, &table(), 550).unwrap();
    for (a, b) in files.iter().zip(again.iter()) {
        assert_eq!((&a.path, &a.text), (&b.path, &b.text));
    }
    let lone = cell_of(vec![atom("C", 6, 1)], true);
    assert_eq!(
        write_seed_files_for_cell(&lone, &table(), 550).unwrap_err(),
        SeedError::MissingSite
    );
    let small = ElementTable::from_elements(vec![]);
    assert_eq!(
        write_seed_files_for_cell(&cell, &small, 550).unwrap_err(),
        SeedError::Export(ExportError::Lookup)
    );
}

#[test]
fn potentials_to_copy() {
    let cell = sample_cell();
    let list = cell.lattice().get_element_list().unwrap();
    assert_eq!(
        potential_files(&list, &table()).unwrap(),
        vec!["C_00PBE.usp", "Mn_00.uspcc", "Ni_00.uspcc"]
    );
    assert!(potential_files(&vec!["Zr".to_string()], &table()).is_none());
    let copies = copy_potentials(&cell, &table()).unwrap();
    assert_eq!(
        copies,
        vec![
            (
                "./resources/Potentials/C_00PBE.usp".to_string(),
                "GDY_TAC_models/3d/Mn/GDY_Mn_Mn_Ni_opt/C_00PBE.usp".to_string()
            ),
            (
                "./resources/Potentials/Mn_00.uspcc".to_string(),
                "GDY_TAC_models/3d/Mn/GDY_Mn_Mn_Ni_opt/Mn_00.uspcc".to_string()
            ),
            (
                "./resources/Potentials/Ni_00.uspcc".to_string(),
                "GDY_TAC_models/3d/Mn/GDY_Mn_Mn_Ni_opt/Ni_00.uspcc".to_string()
            ),
        ]
    );
    let small = ElementTable::from_elements(vec![]);
    assert_eq!(
        copy_potentials(&cell, &small).unwrap_err(),
        SeedError::Export(ExportError::Lookup)
    );
}

#[test]
fn files_are_written_once() {
    let file = |path: &str, text: &str| SeedFile { path: path.to_string(), text: text.to_string() };
    let files = vec![
        file("d/a.param", "1"),
        file("d/b.param", "2"),
        file("d/a.param", "3"),
        file("d/c.cell", "4"),
    ];
    assert_eq!(missing_files(&files, &vec![]), vec![0, 1, 3]);
    assert_eq!(missing_files(&files, &vec!["d/b.param".to_string()]), vec![0, 3]);
    assert_eq!(
        missing_files(&files, &vec!["d/a.param".to_string(), "other".to_string()]),
        vec![1, 3]
    );
    assert_eq!(missing_files(&vec![], &vec!["x".to_string()]), Vec::<usize>::new());
    // A directory that takes the missing files twice is the same after the
    // second time, and what stood in it stands in it unchanged.
    let mut dir: HashMap<String, String> = HashMap::new();
    dir.insert("d/b.param".to_string(), "old".to_string());
    for round in 0..2 {
        let present: Vec<String> = dir.keys().cloned().collect();
        let missing = missing_files(&files, &present);
        assert_eq!(missing.is_empty(), round == 1);
        for i in missing {
            dir.insert(files[i].path.clone(), files[i].text.clone());
        }
        assert_eq!(dir.len(), 3);
        assert_eq!(dir["d/a.param"], "1");
        assert_eq!(dir["d/b.param"], "old");
        assert_eq!(dir["d/c.cell"], "4");
    }
}

#[test]
fn the_whole_export_of_a_model() {
    let cell = sample_cell();
    let frac = half(5);
    let potentials =
        vec!["340 FINE".to_string(), "521 FINE".to_string(), "549 FINE".to_string()];
    let export = seed_export(&cell, &frac, &table(), &potentials).unwrap();
    let dir = "GDY_TAC_models/3d/Mn/GDY_Mn_Mn_Ni_opt";
    assert_eq!(export.directory, dir);
    let five = write_seed_files_for_cell(&cell, &table(), 550).unwrap();
    assert_eq!(export.files.len(), 6);
    for (a, b) in export.files.iter().zip(five.iter()) {
        assert_eq!((&a.path, &a.text), (&b.path, &b.text));
    }
    assert_eq!(export.files[5].path, format!("{dir}/GDY_Mn_Mn_Ni.cell"));
    assert_eq!(export.files[5].text, cell.format_output(&frac, &table()).unwrap());
    let mut copies = copy_potentials(&cell, &table()).unwrap();
    copies.push((
        "./resources/SMCastep_Extension.xms".to_string(),
        format!("{dir}/SMCastep_Extension_GDY_Mn_Mn_Ni.xms"),
    ));
    assert_eq!(export.copies, copies);
    // The same model gives the same export again.
    let again = seed_export(&cell, &frac, &table(), &potentials).unwrap();
    assert_eq!(again.copies, export.copies);
    assert_eq!(again.files[5].text, export.files[5].text);

    let err = |r: Result<gdy_model::param_writer::SeedExport, SeedError>| r.unwrap_err();
    assert_eq!(
        err(seed_export(&cell, &frac, &table(), &vec!["340 FINE".to_string()])),
        SeedError::PotentialCount
    );
    let bad = vec!["340 FINE".to_string(), "x".to_string(), "549 FINE".to_string()];
    assert_eq!(
        err(seed_export(&cell, &frac, &table(), &bad)),
        SeedError::Cutoff(CutoffError::NoMarker { file: 1 })
    );
    assert_eq!(
        err(seed_export(&cell, &half(2), &table(), &potentials)),
        SeedError::Export(ExportError::PositionCount)
    );
    let small = ElementTable::from_elements(vec![]);
    assert_eq!(
        err(seed_export(&cell, &frac, &small, &potentials)),
        SeedError::Export(ExportError::Lookup)
    );
    let lone = cell_of(vec![atom("C", 6, 1)], true);
    assert_eq!(err(seed_export(&lone, &half(1), &table(), &potentials)), SeedError::MissingSite);
    let mut odd = cell_of(vec![atom("Xx", 0, 73)], false);
    odd.sort_atoms_by_elements();
    assert_eq!(
        err(seed_export(&odd, &half(1), &table(), &potentials)),
        SeedError::Export(ExportError::UnknownElement)
    );
}

#[test]
fn the_export_of_a_model_whose_parameter_files_are_there() {
    let cell = sample_cell();
    let frac = half(5);
    let dir = "GDY_TAC_models/3d/Mn/GDY_Mn_Mn_Ni_opt";
    let geom = format!("{dir}/GDY_Mn_Mn_Ni.param");
    let dos = format!("{dir}/GDY_Mn_Mn_Ni_DOS.param");
    assert_eq!(param_files_missing(&cell, &vec![]), Ok(true));
    assert_eq!(param_files_missing(&cell, &vec![geom.clone()]), Ok(true));
    assert_eq!(param_files_missing(&cell, &vec![dos.clone(), "x".to_string()]), Ok(true));
    assert_eq!(param_files_missing(&cell, &vec![dos.clone(), geom.clone()]), Ok(false));
    let lone = cell_of(vec![atom("C", 6, 1)], true);
    assert_eq!(param_files_missing(&lone, &vec![]), Err(SeedError::MissingSite));

    let potentials =
        vec!["340 FINE".to_string(), "521 FINE".to_string(), "549 FINE".to_string()];
    let whole = seed_export(&cell, &frac, &table(), &potentials).unwrap();
    let rest = seed_export_rest(&cell, &frac, &table()).unwrap();
    assert_eq!(rest.directory, whole.directory);
    assert_eq!(rest.copies, whole.copies);
    assert_eq!(rest.files.len(), 4);
    for (a, b) in rest.files.iter().zip(whole.files[2..].iter()) {
        assert_eq!((&a.path, &a.text), (&b.path, &b.text));
    }
    assert!(rest.files.iter().all(|f| !f.path.ends_with(".param")));

    let err = |r: Result<gdy_model::param_writer::SeedExport, SeedError>| r.unwrap_err();
    assert_eq!(err(seed_export_rest(&lone, &half(1), &table())), SeedError::MissingSite);
    assert_eq!(
        err(seed_export_rest(&cell, &half(2), &table())),
        SeedError::Export(ExportError::PositionCount)
    );
    for symbol in ["A", "", "Xx"] {
        let mut odd = cell_of(vec![atom(symbol, 0, 73)], false);
        odd.sort_atoms_by_elements();
        assert_eq!(
            err(seed_export_rest(&odd, &half(1), &table())),
            SeedError::Export(ExportError::UnknownElement)
        );
        assert_eq!(odd.format_output(&half(1), &table()), Err(ExportError::UnknownElement));
        assert_eq!(
            err(seed_export(&odd, &half(1), &table(), &potentials)),
            SeedError::Export(ExportError::UnknownElement)
        );
        assert_eq!(
            copy_potentials(&odd, &table()).unwrap_err(),
            SeedError::Export(ExportError::UnknownElement)
        );
    }
}
