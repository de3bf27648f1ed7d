use gdy_model::atom::{Atom, Export, Point3};
use gdy_model::cell::Cell;
use gdy_model::decimal::Decimal;
use gdy_model::edit::{
    edit_template, element_lists, family_tag_name, generate_models, tri_elm_combos, EditError,
    Model,
};
use gdy_model::editor::{
    base_metals, change_atom_element, export_destination, family, family_dir_name,
    generate_all_base_models, iterate_over_elements, pair_model, BaseModelError, Family, Metal,
};
use gdy_model::element_table::{Element, ElementTable};
use gdy_model::export::{join_path, ExportPackage, SeedFilePackage};
use gdy_model::lattice::{Lattice, LatticeError, Matrix3};
use gdy_model::param_writer::{param_content, CastepTask};
use std::collections::HashSet;

fn num(s: &str) -> Decimal {
    Decimal::parse(s).unwrap()
}

fn point(x: f64, y: f64, z: f64, places: usize) -> Point3 {
    Point3::new(
        num(&format!("{:.*}", places, x)),
        num(&format!("{:.*}", places, y)),
        num(&format!("{:.*}", places, z)),
    )
}

fn atom(name: &str, number: u8, id: u8) -> Atom {
    Atom::new(name.to_string(), number, point(id as f64, 0.0, 0.0, 12), id)
}

fn seed() -> Lattice {
    Lattice::new(
        "GDY_tri".to_string(),
        vec![atom("C", 6, 1), atom("Sc", 21, 73), atom("Sc", 21, 74), atom("Sc", 21, 75)],
        Matrix3::from_columns(
            point(5.0, 0.0, 0.0, 18),
            point(0.0, 5.0, 0.0, 18),
            point(0.0, 0.0, 5.0, 18),
        ),
        vec![73, 74, 75],
        None,
        false,
    )
    .unwrap()
}

fn elements_at_sites(lattice: &Lattice) -> Vec<(String, u8)> {
    [73u32, 74, 75]
        .iter()
        .map(|id| {
            let a = lattice.get_atom_by_id(*id).unwrap();
            (a.element_name().to_string(), a.element_id())
        })
        .collect()
}

#[test]
fn families_by_atomic_number() {
    let expect = |n: u32| match n {
        21..=30 => Family::Metal3d,
        39..=48 => Family::Metal4d,
        72..=80 => Family::Metal5d,
        57..=71 => Family::RareEarth,
        _ => Family::Else,
    };
    for n in 0..=300u32 {
        assert_eq!(family(n), expect(n), "{n}");
    }
    assert_eq!(family_dir_name(Family::Metal3d), "3d");
    assert_eq!(family_dir_name(Family::Metal4d), "4d");
    assert_eq!(family_dir_name(Family::Metal5d), "5d");
    assert_eq!(family_dir_name(Family::RareEarth), "rare_earth");
    assert_eq!(family_dir_name(Family::Else), "else");
    assert_eq!(family_tag_name(Family::RareEarth), "RE");
    assert_eq!(family_tag_name(Family::Metal5d), "5d");
    assert_eq!(family_tag_name(Family::Else), "else");
}

#[test]
fn candidates_are_the_four_families() {
    let list = element_lists();
    let mut expected: Vec<u8> = (21..=30).collect();
    expected.extend(39..=48);
    expected.extend(72..=80);
    expected.extend(57..=71);
    assert_eq!(list, expected);
    assert_eq!(list.len(), 44);
}

#[test]
fn three_of_the_candidates_with_replacement() {
    let combos = tri_elm_combos();
    let f = 44usize;
    assert_eq!(combos.len(), f * (f + 1) * (f + 2) / 6);
    assert_eq!(combos.len(), 15180);
    assert_eq!(combos[0], [21, 21, 21]);
    assert_eq!(combos[1], [21, 21, 22]);
    assert_eq!(combos[43], [21, 21, 71]);
    assert_eq!(combos[44], [21, 22, 22]);
    assert_eq!(combos[15179], [71, 71, 71]);
    let distinct: HashSet<[u8; 3]> = combos.iter().copied().collect();
    assert_eq!(distinct.len(), combos.len());
    // None is left out: every choice of three places that never fall is there.
    let list = element_lists();
    for i in 0..f {
        for j in i..f {
            for k in j..f {
                assert!(distinct.contains(&[list[i], list[j], list[k]]));
            }
        }
    }
    // And a permutation of a choice is no choice of its own.
    assert!(!distinct.contains(&[22, 21, 21]));
}

#[test]
fn a_model_is_named_after_its_metals() {
    let model = Model::new(seed(), [21, 22, 79]).unwrap();
    assert_eq!(model.output_name(), "GDY_Sc_Ti_Au");
    assert_eq!(model.dir_name(), "GDY_3d_3d_5d");
    assert_eq!(model.new_elements(), [21, 22, 79]);
    assert_eq!(model.basic_cell().lattice_name(), "GDY_tri");
    let other = Model::new(seed(), [40, 64, 6]).unwrap();
    assert_eq!(other.output_name(), "GDY_Zr_Gd_C");
    assert_eq!(other.dir_name(), "GDY_4d_RE_else");
    assert!(Model::new(seed(), [21, 22, 200]).is_none());
    assert!(Model::new(seed(), [1, 22, 23]).is_none());
}

#[test]
fn editing_leaves_the_seed_as_it_is() {
    let template = seed();
    let edited = edit_template(&template, &[21, 22, 79]).unwrap();
    assert_eq!(
        elements_at_sites(&edited),
        vec![("Sc".to_string(), 21), ("Ti".to_string(), 22), ("Au".to_string(), 79)]
    );
    assert_eq!(edited.get_atom_by_id(1).unwrap().element_name(), "C");
    assert_eq!(edited.get_atom_by_id(74).unwrap().xyz().x.as_str(), "74.000000000000");
    assert_eq!(
        elements_at_sites(&template),
        vec![("Sc".to_string(), 21), ("Sc".to_string(), 21), ("Sc".to_string(), 21)]
    );
    assert_eq!(edit_template(&template, &[21, 22, 250]).unwrap_err(), EditError::UnknownElement);
    let bare = Lattice::new(
        "bare".to_string(),
        vec![atom("Sc", 21, 73)],
        Matrix3::from_columns(
            point(1.0, 0.0, 0.0, 1),
            point(0.0, 1.0, 0.0, 1),
            point(0.0, 0.0, 1.0, 1),
        ),
        vec![73, 74, 75],
        None,
        false,
    )
    .unwrap();
    assert_eq!(edit_template(&bare, &[21, 22, 23]).unwrap_err(), EditError::MissingSite);
    assert_eq!(edit_template(&bare, &[21, 22, 250]).unwrap_err(), EditError::UnknownElement);
}

#[test]
fn one_variant_for_each_choice() {
    let template = seed();
    let models = generate_models(&template).unwrap();
    assert_eq!(models.len(), 15180);
    let combos = tri_elm_combos();
    let mut names = HashSet::new();
    for (model, combo) in models.iter().zip(combos.iter()) {
        assert_eq!(model.new_elements(), *combo);
        let at_sites: Vec<u8> =
            elements_at_sites(model.basic_cell()).iter().map(|e| e.1).collect();
        assert_eq!(at_sites, combo.to_vec());
        names.insert(model.output_name());
    }
    assert_eq!(names.len(), 15180);
    assert_eq!(models[0].output_name(), "GDY_Sc_Sc_Sc");
    assert_eq!(models[15179].output_name(), "GDY_Lu_Lu_Lu");
    assert_eq!(models[15179].dir_name(), "GDY_RE_RE_RE");
    assert_eq!(elements_at_sites(&template)[0], ("Sc".to_string(), 21));
    let bare = Lattice::new(
        "bare".to_string(),
        vec![],
        Matrix3::from_columns(
            point(1.0, 0.0, 0.0, 1),
            point(0.0, 1.0, 0.0, 1),
            point(0.0, 0.0, 1.0, 1),
        ),
        vec![73, 74, 75],
        None,
        false,
    )
    .unwrap();
    assert_eq!(generate_models(&bare).unwrap_err(), EditError::MissingSite);
}

#[test]
fn changing_the_element_of_an_atom() {
    let mut a = atom("Sc", 21, 73);
    change_atom_element(&mut a, "Mn", 25);
    assert_eq!((a.element_name(), a.element_id(), a.atom_id()), ("Mn", 25, 73));
}

#[test]
fn base_models_for_pairs_of_metals() {
    let mn = Metal { atomic_number: 25, symbol: "Mn".to_string() };
    let gd = Metal { atomic_number: 64, symbol: "Gd".to_string() };
    assert_eq!(export_destination(&mn), "./GDY_TAC_models/3d/Mn");
    assert_eq!(export_destination(&gd), "./GDY_TAC_models/rare_earth/Gd");
    let template = seed();
    let file = pair_model(&template, &mn, &gd).unwrap();
    assert_eq!(file.path, "./GDY_TAC_models/3d/Mn/GDY_Mn_Mn_Gd_opt/GDY_Mn_Mn_Gd.msi");
    let mut expected = template.clone();
    expected.substitute_sites(&[25, 25, 64], "Mn", "Mn", "Gd").unwrap();
    assert_eq!(file.text, expected.format_output());
    assert!(file.text.contains("(A C ACL \"64 Gd\")"));

    let metals = vec![mn, gd];
    let files = iterate_over_elements(&template, &metals).unwrap();
    let paths: Vec<&str> = files.iter().map(|f| f.path.as_str()).collect();
    assert_eq!(
        paths,
        vec![
            "./GDY_TAC_models/3d/Mn/GDY_Mn_Mn_Mn_opt/GDY_Mn_Mn_Mn.msi",
            "./GDY_TAC_models/3d/Mn/GDY_Mn_Mn_Gd_opt/GDY_Mn_Mn_Gd.msi",
            "./GDY_TAC_models/rare_earth/Gd/GDY_Gd_Gd_Mn_opt/GDY_Gd_Gd_Mn.msi",
            "./GDY_TAC_models/rare_earth/Gd/GDY_Gd_Gd_Gd_opt/GDY_Gd_Gd_Gd.msi",
        ]
    );
    assert_eq!(files[1].text, file.text);
    assert_eq!(elements_at_sites(&template)[2], ("Sc".to_string(), 21));
    assert_eq!(iterate_over_elements(&template, &vec![]).unwrap().len(), 0);
    let bare = Lattice::new(
        "bare".to_string(),
        vec![atom("Sc", 21, 73)],
        Matrix3::from_columns(
            point(1.0, 0.0, 0.0, 1),
            point(0.0, 1.0, 0.0, 1),
            point(0.0, 0.0, 1.0, 1),
        ),
        vec![73, 74, 75],
        None,
        false,
    )
    .unwrap();
    assert_eq!(iterate_over_elements(&bare, &metals).unwrap_err(), LatticeError::MissingSite);
    assert_eq!(iterate_over_elements(&bare, &vec![]).unwrap().len(), 0);
    assert_eq!(generate_all_base_models(&bare).unwrap_err(), BaseModelError::MissingSite);
}

#[test]
fn the_metals_of_the_periodic_table() {
    let metals = base_metals().unwrap();
    assert_eq!(metals.len(), 44);
    let numbers: Vec<u8> = metals.iter().map(|m| m.atomic_number).collect();
    assert_eq!(numbers, element_lists());
    assert_eq!(metals[0].symbol, "Sc");
    assert_eq!(metals[9].symbol, "Zn");
    assert_eq!(metals[10].symbol, "Y");
    assert_eq!(metals[20].symbol, "Hf");
    assert_eq!(metals[28].symbol, "Hg");
    assert_eq!(metals[29].symbol, "La");
    assert_eq!(metals[43].symbol, "Lu");
}

#[test]
fn all_base_models() {
    let files = generate_all_base_models(&seed()).unwrap();
    assert_eq!(files.len(), 44 * 44);
    assert_eq!(files[0].path, "./GDY_TAC_models/3d/Sc/GDY_Sc_Sc_Sc_opt/GDY_Sc_Sc_Sc.msi");
    assert_eq!(
        files[44 * 44 - 1].path,
        "./GDY_TAC_models/rare_earth/Lu/GDY_Lu_Lu_Lu_opt/GDY_Lu_Lu_Lu.msi"
    );
    assert_eq!(files[45].path, "./GDY_TAC_models/3d/Ti/GDY_Ti_Ti_Ti_opt/GDY_Ti_Ti_Ti.msi");
    let paths: HashSet<&str> = files.iter().map(|f| f.path.as_str()).collect();
    assert_eq!(paths.len(), files.len());
}

fn table() -> ElementTable {
    let e = |s: &str, n: u8, spin: u8| Element {
        element: s.to_string(),
        atomic_number: n,
        lcao: 2,
        mass: num("1.0000000000"),
        pot: format!("{s}_00.usp"),
        spin,
    };
    ElementTable::from_elements(vec![e("C", 6, 0), e("Sc", 21, 1), e("Ti", 22, 2), e("Au", 79, 1)])
}

#[test]
fn packages_of_a_variant() {
    let template = seed();
    let lattice = edit_template(&template, &[21, 22, 79]).unwrap();
    let model = Model::new(lattice.clone(), [21, 22, 79]).unwrap();
    let mut cell = Cell::new(lattice, false);
    cell.sort_atoms_by_elements();
    let frac: Vec<Point3> = (0..4).map(|i| point(0.25 * i as f64, 0.5, 0.5, 16)).collect();
    let geom = model
        .export_files(&cell, &frac, &table(), 550, "Potentials", CastepTask::GeometryOptimization)
        .unwrap();
    let bs = model
        .export_files(&cell, &frac, &table(), 550, "Potentials", CastepTask::BandStructure)
        .unwrap();
    assert_eq!(geom.filename_stem(), "GDY_Sc_Ti_Au");
    assert_eq!(bs.filename_stem(), "GDY_Sc_Ti_Au_DOS");
    assert_eq!(geom.potentials_loc(), "Potentials");
    assert_eq!(geom.write_cif_to_path("out"), "out/GDY_Sc_Ti_Au.cif");
    assert_eq!(bs.write_script("out"), "out/GDY_Sc_Ti_Au_DOS.cell");
    let files = geom.write_to_path("out/dir");
    assert_eq!(files.len(), 2);
    assert_eq!(files[0].path, "out/dir/GDY_Sc_Ti_Au.cell");
    assert_eq!(files[0].text, cell.format_output(&frac, &table()).unwrap());
    assert_eq!(files[1].path, "out/dir/GDY_Sc_Ti_Au.param");
    assert_eq!(files[1].text, param_content(CastepTask::GeometryOptimization, 4, 550));

    let pack = SeedFilePackage::new(
        geom,
        bs,
        "GDY_TAC_Models/GDY_3d_3d_5d".to_string(),
        "GDY_TAC_Models/GDY_3d_3d_5d/GDY_Sc_Ti_Au".to_string(),
    );
    assert_eq!(
        pack.directory_check(),
        ("GDY_TAC_Models/GDY_3d_3d_5d", "GDY_TAC_Models/GDY_3d_3d_5d/GDY_Sc_Ti_Au")
    );
    let all = pack.write_to_dir();
    let paths: Vec<&str> = all.iter().map(|f| f.path.as_str()).collect();
    let dir = "GDY_TAC_Models/GDY_3d_3d_5d/GDY_Sc_Ti_Au";
    assert_eq!(
        paths,
        vec![
            format!("{dir}/GDY_Sc_Ti_Au.cell"),
            format!("{dir}/GDY_Sc_Ti_Au.param"),
            format!("{dir}/GDY_Sc_Ti_Au_DOS.cell"),
            format!("{dir}/GDY_Sc_Ti_Au_DOS.param"),
        ]
    );
    assert_eq!(all[3].text, param_content(CastepTask::BandStructure, 4, 550));
    assert_eq!(
        pack.copy_potentials(&vec!["C_00.usp".to_string(), "Sc_00.usp".to_string()]),
        vec![
            ("Potentials/C_00.usp".to_string(), format!("{dir}/C_00.usp")),
            ("Potentials/Sc_00.usp".to_string(), format!("{dir}/Sc_00.usp")),
        ]
    );
    assert_eq!(join_path("a", "b", ".c"), "a/b.c");
    let plain = ExportPackage::new(
        "stem".to_string(),
        "cell".to_string(),
        "param".to_string(),
        "loc".to_string(),
    );
    assert_eq!(plain.write_to_path("d")[1].text, "param");
}
