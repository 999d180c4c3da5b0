use biomodels::markup::{tokenize, Token};
use biomodels::parser::{load_tokens, parse_sbml, ParserError};

const NETWORK: &str = r#"<?xml version="1.0"?>
<sbml><model id="m">
<listOfCompartments><compartment id="cell" name="Cell"/><compartment name="nameless"/></listOfCompartments>
<listOfSpecies>
 <species id="A" compartment="cell" initialConcentration="1.0"/>
 <species id="B" name="Bee" compartment="cell" initialAmount="0.0"/>
 <species name="no id"/>
</listOfSpecies>
<listOfParameters>
 <parameter id="k1" value="0.5" constant="false"/>
 <parameter id="k2" value="x"/>
 <parameter id="k3" value="2" constant="yes"/>
</listOfParameters>
<listOfReactions>
 <reaction id="R1" name="conv">
  <listOfReactants><speciesReference species="A"/></listOfReactants>
  <listOfProducts><speciesReference species="B"/></listOfProducts>
  <kineticLaw><math><ci>k1</ci></math></kineticLaw>
 </reaction>
 <reaction id="R2"/>
</listOfReactions>
</model></sbml>"#;

#[test]
fn loads_every_section() {
    let m = parse_sbml(NETWORK).unwrap();
    assert_eq!(m.compartments.len(), 1);
    assert_eq!(m.compartments[0].id, "cell");
    assert_eq!(m.compartments[0].name, "Cell");
    assert_eq!(m.species.len(), 2);
    assert_eq!(m.species[0].id, "A");
    assert_eq!(m.species[0].name, "A");
    assert_eq!(m.species[0].compartment, "cell");
    assert_eq!(m.species[0].initial_concentration, "1.0");
    assert_eq!(m.species[1].name, "Bee");
    assert_eq!(m.species[1].initial_concentration, "0.0");
    assert_eq!(m.parameters.len(), 3);
    assert_eq!(m.parameters[0].value, "0.5");
    assert!(!m.parameters[0].constant);
    assert_eq!(m.parameters[1].value, "x");
    assert!(m.parameters[1].constant);
    assert!(m.parameters[2].constant);
}

#[test]
fn loads_reactions_with_references_and_law() {
    let m = parse_sbml(NETWORK).unwrap();
    assert_eq!(m.reactions.len(), 2);
    let r = &m.reactions[0];
    assert_eq!(r.id, "R1");
    assert_eq!(r.name, "conv");
    assert_eq!(r.reactants, vec!["A".to_string()]);
    assert_eq!(r.products, vec!["B".to_string()]);
    assert_eq!(r.kinetic_law, "k1");
    let r2 = &m.reactions[1];
    assert_eq!(r2.name, "R2");
    assert!(r2.reactants.is_empty());
    assert!(r2.products.is_empty());
}

#[test]
fn later_initial_attribute_wins() {
    let doc = r#"<listOfSpecies><species id="S" initialConcentration="3" initialAmount="7"/></listOfSpecies>"#;
    let m = parse_sbml(doc).unwrap();
    assert_eq!(m.species[0].initial_concentration, "7");
}

#[test]
fn entries_outside_their_section_are_ignored() {
    let doc = r#"<model><species id="S"/><listOfSpecies></listOfSpecies><species id="T"/>
<listOfSpecies><parameter id="p" value="1"/><species id="U"/></listOfSpecies></model>"#;
    let m = parse_sbml(doc).unwrap();
    assert_eq!(m.species.len(), 1);
    assert_eq!(m.species[0].id, "U");
    assert!(m.parameters.is_empty());
}

#[test]
fn repeated_reference_is_kept_twice() {
    let doc = r#"<listOfReactions><reaction id="d"><listOfReactants>
<speciesReference species="A"/><speciesReference species="A"></speciesReference>
</listOfReactants></reaction></listOfReactions>"#;
    let m = parse_sbml(doc).unwrap();
    assert_eq!(m.reactions[0].reactants, vec!["A".to_string(), "A".to_string()]);
}

#[test]
fn mismatched_tags_are_an_xml_error() {
    let r = parse_sbml("<sbml><listOfSpecies><species id=\"A\"></sbml>");
    assert!(matches!(r, Err(ParserError::XmlError(_))));
}

#[test]
fn undecodable_attribute_of_an_entry_is_an_xml_error() {
    let r = parse_sbml("<listOfSpecies><species id=\"A&bogus;\"/></listOfSpecies>");
    assert!(matches!(r, Err(ParserError::XmlError(_))));
}

#[test]
fn undecodable_attribute_elsewhere_is_passed_over() {
    let m = parse_sbml("<model><notes title=\"&bogus;\"/><listOfSpecies><species id=\"A\"/></listOfSpecies></model>").unwrap();
    assert_eq!(m.species.len(), 1);
}

#[test]
fn empty_document_gives_empty_network() {
    let m = parse_sbml("").unwrap();
    assert!(m.compartments.is_empty() && m.species.is_empty());
    assert!(m.reactions.is_empty() && m.parameters.is_empty());
}

#[test]
fn tokens_end_with_the_end_of_document() {
    let ts = tokenize("<a x=\"1\">t</a>").unwrap();
    assert_eq!(ts.len(), 4);
    assert!(matches!(ts[3], Token::Eof));
    match &ts[0] {
        Token::Start(e) => {
            assert_eq!(e.name, "a");
            assert_eq!(e.attributes, Ok(vec![("x".to_string(), "1".to_string())]));
        }
        _ => panic!("expected a start tag"),
    }
    assert_eq!(ts[1], Token::Text(Ok("t".to_string())));
    assert_eq!(ts[2], Token::End("a".to_string()));
}

#[test]
fn loading_tokens_matches_loading_text() {
    let ts = tokenize(NETWORK).unwrap();
    assert_eq!(load_tokens(&ts).unwrap(), parse_sbml(NETWORK).unwrap());
}

#[test]
fn kinetic_law_text_failure_is_an_xml_error() {
    let ts = vec![
        Token::Start(biomodels::markup::Element { name: "listOfReactions".to_string(), attributes: Ok(vec![]) }),
        Token::Start(biomodels::markup::Element {
            name: "reaction".to_string(),
            attributes: Ok(vec![("id".to_string(), "r".to_string())]),
        }),
        Token::Start(biomodels::markup::Element { name: "kineticLaw".to_string(), attributes: Ok(vec![]) }),
        Token::Text(Err("bad escape".to_string())),
    ];
    assert!(matches!(load_tokens(&ts), Err(ParserError::XmlError(_))));
}

#[test]
fn reaction_open_at_the_end_is_finished() {
    let ts = vec![
        Token::Start(biomodels::markup::Element { name: "listOfReactions".to_string(), attributes: Ok(vec![]) }),
        Token::Start(biomodels::markup::Element {
            name: "reaction".to_string(),
            attributes: Ok(vec![("id".to_string(), "r".to_string())]),
        }),
    ];
    let m = load_tokens(&ts).unwrap();
    assert_eq!(m.reactions.len(), 1);
    assert_eq!(m.reactions[0].id, "r");
}

#[test]
fn unterminated_tag_fails_to_tokenize() {
    assert!(tokenize("<sbml><listOfSpecies").is_err());
    assert!(matches!(parse_sbml("<sbml><listOfSpecies"), Err(ParserError::XmlError(_))));
}

#[test]
fn section_ends_only_at_its_own_wrapper() {
    let doc = r#"<listOfSpecies><listOfFoo></listOfFoo><species id="S"/></listOfSpecies><species id="T"/>"#;
    let m = parse_sbml(doc).unwrap();
    assert_eq!(m.species.len(), 1);
    assert_eq!(m.species[0].id, "S");
}
