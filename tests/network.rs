use biomodels::models::{BioModelData, LookupError};
use biomodels::parser::parse_sbml;
use biomodels::scan::ScanError;
use biomodels::simulator::{method_from_name, stoichiometry_matrix, Method};

fn numeric(doc: &str) -> BioModelData<f64> {
    let m = parse_sbml(doc).unwrap();
    BioModelData {
        compartments: m.compartments,
        species: m
            .species
            .into_iter()
            .map(|s| biomodels::models::Species {
                id: s.id,
                name: s.name,
                compartment: s.compartment,
                initial_concentration: s.initial_concentration.parse().unwrap_or(0.0),
            })
            .collect(),
        reactions: m.reactions,
        parameters: m
            .parameters
            .into_iter()
            .map(|p| biomodels::models::Parameter { id: p.id, value: p.value.parse().unwrap_or(0.0), constant: p.constant })
            .collect(),
    }
}

const DOC: &str = r#"<sbml><model>
<listOfSpecies><species id="A" initialConcentration="1"/><species id="B" initialConcentration="0"/><species id="A" initialConcentration="9"/></listOfSpecies>
<listOfParameters><parameter id="k" value="0.5"/><parameter id="j" value="2"/></listOfParameters>
<listOfReactions>
<reaction id="dimer"><listOfReactants><speciesReference species="A"/><speciesReference species="A"/></listOfReactants>
<listOfProducts><speciesReference species="B"/><speciesReference species="X"/></listOfProducts></reaction>
<reaction id="back"><listOfReactants><speciesReference species="B"/></listOfReactants>
<listOfProducts><speciesReference species="A"/></listOfProducts></reaction>
</listOfReactions></model></sbml>"#;

#[test]
fn stoichiometry_counts_repeats_and_drops_unknown_ids() {
    let m = numeric(DOC);
    let s = stoichiometry_matrix(&m);
    assert_eq!(s, vec![vec![-2, 1], vec![1, -1], vec![0, 0]]);
}

#[test]
fn stoichiometry_of_empty_network() {
    let m: BioModelData<f64> = BioModelData::new();
    assert!(stoichiometry_matrix(&m).is_empty());
}

#[test]
fn resolve_ids_takes_the_first_match() {
    let m = numeric(DOC);
    let ids = vec!["A".to_string(), "X".to_string(), "B".to_string()];
    assert_eq!(m.resolve_ids(&ids), vec![Some(0), None, Some(1)]);
}

#[test]
fn species_index_is_the_first_match() {
    let m = numeric(DOC);
    assert_eq!(m.get_species_index("A"), Some(0));
    assert_eq!(m.get_species_index("B"), Some(1));
    assert_eq!(m.get_species_index("Z"), None);
    assert_eq!(m.get_parameter_index("j"), Some(1));
}

#[test]
fn parameter_value_with_default() {
    let m = numeric(DOC);
    assert_eq!(m.get_parameter_value("k", 1.0), 0.5);
    assert_eq!(m.get_parameter_value("missing", 1.0), 1.0);
}

#[test]
fn set_parameter_changes_only_that_value() {
    let mut m = numeric(DOC);
    let before = m.clone();
    assert_eq!(m.set_parameter("j", 4.0), Ok(()));
    assert_eq!(m.parameters[1].value, 4.0);
    assert_eq!(m.parameters[0], before.parameters[0]);
    assert_eq!(m.species, before.species);
}

#[test]
fn set_initial_concentration_changes_the_first_match() {
    let mut m = numeric(DOC);
    assert_eq!(m.set_initial_concentration("A", 3.0), Ok(()));
    assert_eq!(m.species[0].initial_concentration, 3.0);
    assert_eq!(m.species[2].initial_concentration, 9.0);
}

#[test]
fn unknown_ids_are_rejected_and_change_nothing() {
    let mut m = numeric(DOC);
    let before = m.clone();
    assert_eq!(m.set_parameter("nonexistent", 1.0), Err(LookupError::UnknownParameter("nonexistent".to_string())));
    assert_eq!(
        m.set_initial_concentration("nonexistent", 1.0),
        Err(LookupError::UnknownSpecies("nonexistent".to_string()))
    );
    assert_eq!(m, before);
}

#[test]
fn sweep_then_restore_gives_back_the_parameters() {
    let mut m = numeric(DOC);
    let before = m.clone();
    let original = m.get_parameter_value("k", 1.0);
    for v in [0.1, 0.2, 0.3] {
        m.set_parameter("k", v).unwrap();
        assert_eq!(m.parameters[0].value, v);
    }
    m.set_parameter("k", original).unwrap();
    assert_eq!(m, before);
}

#[test]
fn trajectory_takes_every_species_stride() {
    let r = biomodels::simulator::SimulationResults {
        time: vec![0.0, 1.0, 2.0],
        values: vec![1.0, 0.0, 0.5, 0.5, 0.25, 0.75],
        species_names: vec!["A".to_string(), "B".to_string()],
        num_species: 2,
    };
    assert_eq!(r.get_species_trajectory(0), vec![1.0, 0.5, 0.25]);
    assert_eq!(r.get_species_trajectory(1), vec![0.0, 0.5, 0.75]);
}

#[test]
fn scan_runs_each_value_and_restores() {
    let mut m = numeric(DOC);
    let before = m.clone();
    let out = m
        .parameter_scan("k", &vec![0.1, 0.2, 0.3], |seen: &BioModelData<f64>| {
            Ok::<f64, String>(seen.get_parameter_value("k", -1.0) * 10.0)
        })
        .unwrap();
    assert_eq!(out.len(), 3);
    assert_eq!(out[0], (0.1, 0.1 * 10.0));
    assert_eq!(out[1], (0.2, 0.2 * 10.0));
    assert_eq!(out[2], (0.3, 0.3 * 10.0));
    assert_eq!(m, before);
}

#[test]
fn scan_failure_still_restores() {
    let mut m = numeric(DOC);
    let before = m.clone();
    let out = m.parameter_scan("k", &vec![0.1, 0.2, 0.3], |seen: &BioModelData<f64>| {
        let v = seen.get_parameter_value("k", -1.0);
        if v > 0.15 { Err(format!("diverged at {}", v)) } else { Ok(v) }
    });
    assert_eq!(out, Err(ScanError::Failed("diverged at 0.2".to_string())));
    assert_eq!(m, before);
}

#[test]
fn scan_of_unknown_parameter_runs_nothing() {
    let mut m = numeric(DOC);
    let before = m.clone();
    let out = m.parameter_scan("nonexistent", &vec![1.0], |_: &BioModelData<f64>| -> Result<f64, String> {
        panic!("no run expected")
    });
    assert_eq!(out, Err(ScanError::UnknownParameter("nonexistent".to_string())));
    assert_eq!(m, before);
}

#[test]
fn method_names_select_an_integrator() {
    assert_eq!(method_from_name("euler"), Method::Euler);
    assert_eq!(method_from_name("rk4"), Method::RungeKutta4);
    assert_eq!(method_from_name("bogus"), method_from_name("rk4"));
    assert_eq!(method_from_name("Euler"), Method::RungeKutta4);
}
