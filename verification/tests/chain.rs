use tensor_compress::chain_xml::{parse_chain_xml, ChainXmlError};
use tensor_compress::decay::{DecayChain, DecayMode, DecayNuclide, ReactionChannel, ReactionTarget};

const SAMPLE: &str = r#"<?xml version="1.0"?>
<depletion_chain>
  <nuclide name="U235" half_life="2.221e16" decay_energy="4.572e6">
    <decay type="alpha" target="Th231" branching_ratio="1.0"/>
    <reaction type="(n,gamma)" target="U236" Q="6545200.0" branching_ratio="1.0"/>
    <reaction type="fission" Q="1.93e8" branching_ratio="1.0">
      <neutron_fission_yields>
        <energies>0.0253 500000.0</energies>
        <fission_yields energy="0.0253">
          <products>Cs137 Sr90</products>
          <data>0.062 0.058</data>
        </fission_yields>
        <fission_yields energy="500000.0">
          <products>Cs137 Sr90</products>
          <data>0.060 0.055</data>
        </fission_yields>
      </neutron_fission_yields>
    </reaction>
  </nuclide>
  <nuclide name="Cs137" half_life="9.488e8">
    <decay type="beta-" target="Ba137_m1" branching_ratio="0.946"/>
    <decay type="beta-" target="Ba137" branching_ratio="0.054"/>
  </nuclide>
  <nuclide name="Th231"/>
  <nuclide name="Ba137"/>
  <nuclide name="Ba137_m1"/>
  <nuclide name="U236"/>
  <nuclide name="Sr90"/>
</depletion_chain>
"#;

fn real_of(s: &str) -> f64 {
    s.trim().parse::<f64>().unwrap()
}

#[test]
fn parses_minimal_chain() {
    let chain = parse_chain_xml(SAMPLE.as_bytes()).expect("parse");
    let u235_idx = chain.index_of("U235").expect("U235 in chain");
    let u235 = &chain.nuclides[u235_idx];
    assert!((real_of(u235.half_life.as_ref().unwrap()) - 2.221e16).abs() < 1e10);
    assert_eq!(u235.decay_modes.len(), 1);
    assert_eq!(u235.decay_modes[0].mode, "alpha");
    assert_eq!(u235.decay_modes[0].target, ReactionTarget::Nuclide("Th231".into()));
    assert_eq!(u235.reactions.len(), 2);
    let fission = u235.reactions.iter().find(|r| r.mt == "fission").expect("fission rxn");
    assert_eq!(fission.target, ReactionTarget::Lost);

    let fy = u235.fission_yields.as_ref().expect("fission yields");
    let thermal = fy
        .tables
        .iter()
        .find(|(e, _)| real_of(e) == 0.0253)
        .map(|(_, t)| t)
        .unwrap();
    let k = thermal.products.iter().position(|p| p == "Cs137").expect("Cs137 yield");
    let cs137 = real_of(&thermal.yields[k]);
    assert!((cs137 - 0.062).abs() < 1e-12);
}

#[test]
fn cs137_branching_ratios_sum_to_one() {
    let chain = parse_chain_xml(SAMPLE.as_bytes()).expect("parse");
    let cs = chain.index_of("Cs137").expect("Cs137 in chain");
    let cs = &chain.nuclides[cs];
    let total: f64 = cs
        .decay_modes
        .iter()
        .map(|m| m.branching_ratio.as_deref().map_or(1.0, real_of))
        .sum();
    assert!((total - 1.0).abs() < 1e-9);
}

#[test]
fn chain_keeps_document_order_and_texts() {
    let chain = parse_chain_xml(SAMPLE.as_bytes()).unwrap();
    let names: Vec<&str> = chain.nuclides.iter().map(|n| n.name.as_str()).collect();
    // Self-closing `<nuclide/>` entries are stable nuclides without channels.
    assert_eq!(names, vec!["U235", "Cs137", "Th231", "Ba137", "Ba137_m1", "U236", "Sr90"]);
    assert_eq!(chain.len(), 7);
    assert_eq!(chain.index_of("Th231"), Some(2));
    let th = &chain.nuclides[2];
    assert!(th.half_life.is_none());
    assert!(th.decay_modes.is_empty() && th.reactions.is_empty());
    assert!(th.fission_yields.is_none());
    let u = &chain.nuclides[0];
    assert_eq!(u.half_life.as_deref(), Some("2.221e16"));
    assert_eq!(u.decay_energy.as_deref(), Some("4.572e6"));
    assert_eq!(u.reactions[0].mt, "(n,gamma)");
    assert_eq!(u.reactions[0].q_value.as_deref(), Some("6545200.0"));
    let fy = u.fission_yields.as_ref().unwrap();
    assert_eq!(fy.tables.len(), 2);
    assert_eq!(fy.tables[1].0, "500000.0");
    assert_eq!(fy.tables[1].1.yields, vec!["0.060".to_string(), "0.055".to_string()]);
    let cs = &chain.nuclides[1];
    assert!(cs.decay_energy.is_none());
    assert!(cs.reactions.is_empty());
    assert!(cs.fission_yields.is_none());
}

#[test]
fn decay_and_reaction_links_resolve_targets() {
    let chain = parse_chain_xml(SAMPLE.as_bytes()).unwrap();
    // U235 alpha -> Th231 (2); Cs137 beta- -> Ba137_m1 (4) and Ba137 (3).
    assert_eq!(chain.decay_links(), vec![(0, 0, 2), (1, 0, 4), (1, 1, 3)]);
    // U235 (n,gamma) -> U236 (5); fission has no single child.
    assert_eq!(chain.reaction_links(), vec![(0, 0, 5)]);

    let doc = br#"<depletion_chain>
  <nuclide name="U235" half_life="2.221e16">
    <decay type="alpha" target="Th231" branching_ratio="1.0"/>
    <reaction type="(n,gamma)" target="U236"/>
    <reaction type="fission" target="U236"/>
  </nuclide>
  <nuclide name="Th231"></nuclide>
  <nuclide name="U236">
    <decay type="alpha" target="Th232"/>
  </nuclide>
</depletion_chain>"#;
    let chain = parse_chain_xml(doc).unwrap();
    assert_eq!(chain.decay_links(), vec![(0, 0, 1)]);
    assert_eq!(chain.reaction_links(), vec![(0, 0, 2)]);
}

#[test]
fn missing_name_is_reported() {
    let doc = b"<depletion_chain><nuclide half_life=\"1.0\"></nuclide></depletion_chain>";
    match parse_chain_xml(doc) {
        Err(ChainXmlError::MissingAttribute { tag, key }) => {
            assert_eq!(tag, b"nuclide".to_vec());
            assert_eq!(key, "name");
        }
        other => panic!("unexpected {:?}", other.map(|c| c.len())),
    }
}

#[test]
fn non_numeric_half_life_is_rejected() {
    let doc = b"<depletion_chain><nuclide name=\"X\" half_life=\"soon\"></nuclide></depletion_chain>";
    match parse_chain_xml(doc) {
        Err(ChainXmlError::NotANumber(s)) => assert_eq!(s, "soon"),
        other => panic!("unexpected {:?}", other.map(|c| c.len())),
    }
}

#[test]
fn non_numeric_yield_is_rejected() {
    let doc = b"<depletion_chain><nuclide name=\"U\"><neutron_fission_yields>\
<fission_yields energy=\"1\"><products>A</products><data>x1</data></fission_yields>\
</neutron_fission_yields></nuclide></depletion_chain>";
    match parse_chain_xml(doc) {
        Err(ChainXmlError::NotANumber(s)) => assert_eq!(s, "x1"),
        other => panic!("unexpected {:?}", other.map(|c| c.len())),
    }
}

#[test]
fn yield_count_mismatch_is_rejected() {
    let doc = b"<depletion_chain><nuclide name=\"U\"><neutron_fission_yields>\
<fission_yields energy=\"0.0253\"><products>A B</products><data>0.1</data></fission_yields>\
</neutron_fission_yields></nuclide></depletion_chain>";
    match parse_chain_xml(doc) {
        Err(ChainXmlError::YieldCountMismatch { energy, products, data }) => {
            assert_eq!(energy, "0.0253");
            assert_eq!(products, 2);
            assert_eq!(data, 1);
        }
        other => panic!("unexpected {:?}", other.map(|c| c.len())),
    }
}

#[test]
fn mismatched_tags_are_an_xml_error() {
    let doc = b"<depletion_chain><nuclide name=\"U\"></decay></depletion_chain>";
    assert!(matches!(parse_chain_xml(doc), Err(ChainXmlError::Xml(_))));
}

#[test]
fn empty_document_gives_empty_chain() {
    let chain = parse_chain_xml(b"").unwrap();
    assert!(chain.is_empty());
    assert_eq!(chain.len(), 0);
}

#[test]
fn later_duplicate_name_wins() {
    let mut chain = DecayChain::new();
    assert_eq!(chain.push(DecayNuclide::new("A".to_string())), 0);
    assert_eq!(chain.push(DecayNuclide::new("B".to_string())), 1);
    assert_eq!(chain.push(DecayNuclide::new("A".to_string())), 2);
    assert_eq!(chain.index_of("A"), Some(2));
    assert_eq!(chain.index_of("B"), Some(1));
    assert_eq!(chain.index_of("C"), None);
    assert_eq!(chain.len(), 3);
}

#[test]
fn target_index_of_lost_is_none() {
    let mut chain = DecayChain::new();
    chain.push(DecayNuclide::new("Xe135".to_string()));
    assert_eq!(chain.target_index(&ReactionTarget::Lost), None);
    assert_eq!(chain.target_index(&ReactionTarget::Nuclide("Xe135".into())), Some(0));
}

#[test]
fn hand_built_links() {
    let mut chain = DecayChain::new();
    let mut a = DecayNuclide::new("A".to_string());
    a.decay_modes.push(DecayMode {
        mode: "beta-".to_string(),
        target: ReactionTarget::Nuclide("B".to_string()),
        branching_ratio: None,
    });
    a.decay_modes.push(DecayMode {
        mode: "alpha".to_string(),
        target: ReactionTarget::Nuclide("Missing".to_string()),
        branching_ratio: None,
    });
    a.reactions.push(ReactionChannel {
        mt: "fission".to_string(),
        target: ReactionTarget::Nuclide("B".to_string()),
        q_value: None,
        branching_ratio: None,
    });
    a.reactions.push(ReactionChannel {
        mt: "(n,2n)".to_string(),
        target: ReactionTarget::Nuclide("B".to_string()),
        q_value: None,
        branching_ratio: None,
    });
    chain.push(a);
    chain.push(DecayNuclide::new("B".to_string()));
    assert_eq!(chain.decay_links(), vec![(0, 0, 1)]);
    assert_eq!(chain.reaction_links(), vec![(0, 1, 1)]);
}

#[test]
fn self_closing_nuclide_attributes_are_checked() {
    let doc = b"<depletion_chain><nuclide name=\"Xe135\" half_life=\"3.29e4\"/><nuclide half_life=\"1\"/></depletion_chain>";
    match parse_chain_xml(doc) {
        Err(ChainXmlError::MissingAttribute { tag, key }) => {
            assert_eq!(tag, b"nuclide".to_vec());
            assert_eq!(key, "name");
        }
        other => panic!("unexpected {:?}", other.map(|c| c.len())),
    }
    let chain = parse_chain_xml(b"<c><nuclide name=\"Xe135\" half_life=\"3.29e4\"/></c>").unwrap();
    assert_eq!(chain.nuclides[0].name, "Xe135");
    assert_eq!(chain.nuclides[0].half_life.as_deref(), Some("3.29e4"));
}

#[test]
fn missing_name_message() {
    let doc = b"<depletion_chain><nuclide half_life='1.0'></nuclide></depletion_chain>";
    let e = parse_chain_xml(doc).unwrap_err();
    assert_eq!(e.message(), "chain.xml schema error: <nuclide>: missing required attribute 'name'");
}

#[test]
fn not_a_number_message_matches_the_float_parser() {
    for s in ["soon", "  ", "1e"] {
        let e = ChainXmlError::NotANumber(s.to_string());
        let reason = s.trim().parse::<f64>().unwrap_err().to_string();
        assert_eq!(e.message(), format!("chain.xml schema error: not a real number: '{s}' ({reason})"));
    }
    assert_eq!(
        ChainXmlError::NotANumber("x".to_string()).message(),
        "chain.xml schema error: not a real number: 'x' (invalid float literal)"
    );
}

#[test]
fn yield_mismatch_message() {
    let doc = b"<depletion_chain><nuclide name=\"U\"><neutron_fission_yields>\
<fission_yields energy=\"0.0253\"><products>A B</products><data>0.1</data></fission_yields>\
</neutron_fission_yields></nuclide></depletion_chain>";
    let e = parse_chain_xml(doc).unwrap_err();
    assert_eq!(e.message(), "chain.xml schema error: fission_yields at 0.0253 eV: products 2 ≠ data 1");
}

#[test]
fn xml_error_message_prefix() {
    let e = parse_chain_xml(b"<a></b>").unwrap_err();
    assert!(e.message().starts_with("XML parse error in chain.xml: "));
    let io = ChainXmlError::from(std::io::Error::new(std::io::ErrorKind::NotFound, "gone"));
    assert_eq!(io.message(), "I/O error reading chain.xml: gone");
}
