use anda_kip::{
    parse_json, parse_kip, parse_kml, parse_kql, parse_meta, Command, ConceptBlock, DeleteItem,
    DescribeTarget, ErrorDetails, Json, KipError, KmlStatement, MetaCommand, PropTarget,
    UpsertBlock, UpsertItem, WhereClause,
};

const CAPSULE: &str = r#"
// Knowledge Capsule: cognizin.v1.0
// Description: Defines the novel nootropic drug "Cognizine" and its effects.

UPSERT {
  // Define the main drug concept: Cognizine
  CONCEPT @cognizine {
    ON { type: "Drug", name: "Cognizine" }
    SET ATTRIBUTES {
      molecular_formula: "C12H15N5O3",     // Molecular formula of Cognizine
      risk_level: 2,
      description: "A novel nootropic drug designed to enhance cognitive functions."
    }
    SET PROPOSITIONS {
      // Link to an existing concept (Nootropic)
      PROP("is_class_of", ON { type: "DrugClass", name: "Nootropic" })

      // Link to an existing concept (Brain Fog)
      PROP("treats", ON { type: "Symptom", name: "Brain Fog" })

      // Link to another new concept defined within this capsule (@neural_bloom)
      PROP("has_side_effect", @neural_bloom) WITH METADATA {
        // This specific proposition has its own metadata
        confidence: 0.75,
        source: "Preliminary Clinical Trial NCT012345"
      }
    }
  }

  // Define the new side effect concept: Neural Bloom
  CONCEPT @neural_bloom {
    ON { type: "Symptom", name: "Neural Bloom" }
    SET ATTRIBUTES {
      description: "A rare side effect characterized by a temporary burst of creative thoughts."
    }
    // This concept has no outgoing propositions in this capsule
  }
}
WITH METADATA {
  // Global metadata for all facts in this capsule
  source: "KnowledgeCapsule:Nootropics_v1.0",
  author: "LDC Labs Research Team",
  confidence: 0.95,
  status: "reviewed"
}
        "#;

fn s(t: &str) -> Json {
    Json::Str(t.to_string())
}

#[test]
fn test_parse_kml() {
    let result = parse_kml(CAPSULE);
    assert!(result.is_ok());

    let kml_statement = result.unwrap();

    match kml_statement {
        KmlStatement::Upsert(UpsertBlock { items, metadata }) => {
            assert_eq!(items.len(), 2);

            {
                let UpsertItem::Concept(ConceptBlock {
                    handle,
                    on,
                    metadata,
                    set_attributes,
                    set_propositions,
                }) = &items[0];
                assert_eq!(handle, "cognizine");
                assert_eq!(on.keys.len(), 2);
                assert!(metadata.is_none());
                assert_eq!(set_attributes.as_ref().unwrap().len(), 3);
                assert_eq!(set_propositions.as_ref().unwrap().len(), 3);
            }

            {
                let UpsertItem::Concept(ConceptBlock {
                    handle,
                    on,
                    metadata,
                    set_attributes,
                    set_propositions,
                }) = &items[1];
                assert_eq!(handle, "neural_bloom");
                assert_eq!(on.keys.len(), 2);
                assert!(metadata.is_none());
                assert_eq!(set_attributes.as_ref().unwrap().len(), 1);
                assert!(set_propositions.is_none());
            }

            assert!(metadata.is_some());
            let global_metadata = metadata.as_ref().unwrap();
            assert_eq!(global_metadata.len(), 4);
            assert_eq!(
                global_metadata.get("source"),
                Some(&s("KnowledgeCapsule:Nootropics_v1.0"))
            );
            assert_eq!(
                global_metadata.get("author"),
                Some(&s("LDC Labs Research Team"))
            );
            match global_metadata.get("confidence") {
                Some(Json::Number(n)) => assert_eq!(n.parse::<f64>().unwrap(), 0.95),
                other => panic!("Expected a number, got {:?}", other),
            }
            assert_eq!(global_metadata.get("status"), Some(&s("reviewed")));
        }
        _ => panic!("Expected Upsert statement"),
    }
}

#[test]
fn capsule_keeps_declared_order_and_forward_reference() {
    let KmlStatement::Upsert(block) = parse_kml(CAPSULE).unwrap() else {
        panic!("Expected Upsert statement");
    };
    let UpsertItem::Concept(first) = &block.items[0];
    let props = first.set_propositions.as_ref().unwrap();
    assert_eq!(props[0].relation, "is_class_of");
    assert_eq!(props[1].relation, "treats");
    assert_eq!(props[2].relation, "has_side_effect");
    // the handle of a concept declared later in the same block
    assert_eq!(props[2].target, PropTarget::Handle("neural_bloom".to_string()));
    let md = props[2].metadata.as_ref().unwrap();
    assert_eq!(md.get("confidence"), Some(&Json::Number("0.75".to_string())));
    match &props[0].target {
        PropTarget::On(on) => {
            assert_eq!(on.keys.get("type"), Some(&s("DrugClass")));
            assert_eq!(on.keys.get("name"), Some(&s("Nootropic")));
        }
        _ => panic!("Expected an ON target"),
    }
    let attrs = first.set_attributes.as_ref().unwrap();
    assert_eq!(attrs.entries[0].0, "molecular_formula");
    assert_eq!(attrs.entries[1].0, "risk_level");
    assert_eq!(attrs.entries[1].1, Json::Number("2".to_string()));
    assert_eq!(attrs.entries[2].0, "description");
    assert_eq!(attrs.get("missing"), None);
}

#[test]
fn forward_reference_alone_parses() {
    let r = parse_kml(
        "UPSERT { CONCEPT @a { ON { name: \"A\" } SET PROPOSITIONS { PROP(\"rel\", @b) } } \
         CONCEPT @b { ON { name: \"B\" } } }",
    );
    let KmlStatement::Upsert(block) = r.unwrap() else {
        panic!("Expected Upsert statement");
    };
    assert_eq!(block.items.len(), 2);
    assert!(block.metadata.is_none());
}

#[test]
fn unbalanced_braces_fail() {
    let inputs = [
        "UPSERT { CONCEPT @a { ON { name: \"A\" } }",
        "UPSERT { CONCEPT @a { ON { name: \"A\" } } } }",
        "UPSERT { CONCEPT @a { ON { name: \"A\" } }",
        "UPSERT { CONCEPT @a { ON { name: \"A\" } SET ATTRIBUTES { x: 1 } }",
        "UPSERT { CONCEPT @a { ON { name: \"A\" } SET PROPOSITIONS { PROP(\"r\", @b) } }",
        "UPSERT { CONCEPT @a { ON { name: \"A\" } } } WITH METADATA { x: 1",
        "UPSERT { CONCEPT @a { ON { name: \"A\" } SET ATTRIBUTES { x: {\"k\": 1 } } }",
        "UPSERT { CONCEPT @a { ON { name: \"A\" } } } }",
    ];
    for input in inputs {
        assert!(matches!(parse_kml(input), Err(KipError::Parse(_))), "{input}");
        assert!(matches!(parse_kip(input), Err(KipError::Parse(_))), "{input}");
    }
    let whole = &CAPSULE[..CAPSULE.rfind('}').unwrap()];
    assert!(matches!(parse_kml(whole), Err(KipError::Parse(_))));
}

#[test]
fn on_clause_rules() {
    assert!(parse_kml("UPSERT { CONCEPT @a { ON { } } }").is_err());
    assert!(parse_kml("UPSERT { CONCEPT @a { ON { name: \"A\", name: \"B\" } } }").is_err());
    assert!(parse_kml("UPSERT { CONCEPT @a { ON { \"name\": \"A\" } } }").is_ok());
    assert!(parse_kml("UPSERT { }").is_err());
    assert!(parse_kml("UPSERT { CONCEPT @a { ON { name: \"A\" } } } WITH METADATA { }").is_ok());
}

#[test]
fn delete_statement() {
    let r = parse_kml("DELETE { CONCEPT ON { name: \"A\" } CONCEPT ON { name: \"B\", type: \"T\" } }");
    let KmlStatement::Delete(block) = r.unwrap() else {
        panic!("Expected Delete statement");
    };
    assert_eq!(block.items.len(), 2);
    let DeleteItem::Concept(on) = &block.items[1];
    assert_eq!(on.keys.len(), 2);
    assert!(parse_kml("DELETE { }").is_err());
}

#[test]
fn kql_query() {
    let q = parse_kql(
        "FIND(?drug_name) WHERE { ?drug(type: \"Drug\") ATTR(?drug, \"name\", ?drug_name) }",
    )
    .unwrap();
    assert_eq!(q.find, vec!["drug_name".to_string()]);
    assert_eq!(q.clauses.len(), 2);
    match &q.clauses[0] {
        WhereClause::Pattern { var, filter } => {
            assert_eq!(var, "drug");
            assert_eq!(filter.get("type"), Some(&s("Drug")));
        }
        _ => panic!("Expected a pattern"),
    }
    assert_eq!(
        q.clauses[1],
        WhereClause::Attr {
            node: "drug".to_string(),
            attribute: "name".to_string(),
            value: "drug_name".to_string(),
        }
    );
    let q = parse_kql("FIND(?a, ?b) WHERE { ?a() ?b(x: 1, y: [true, null]) }").unwrap();
    assert_eq!(q.find.len(), 2);
    assert!(parse_kql("FIND() WHERE { ?a() }").is_err());
    assert!(parse_kql("FIND(?a) WHERE { }").is_err());
    assert!(parse_kql("FIND(?a) WHERE { ?a(type: \"Drug\") ").is_err());
}

#[test]
fn full_consumption() {
    let ok = "FIND(?x) WHERE { ?x(type: \"Drug\") }";
    assert!(parse_kql(ok).is_ok());
    let garbage = "FIND(?x) WHERE { ?x(type: \"Drug\") } garbage";
    assert!(matches!(parse_kql(garbage), Err(KipError::Parse(_))));
    assert!(matches!(parse_kip(garbage), Err(KipError::Parse(_))));
    match parse_kql(garbage) {
        Err(KipError::Parse(m)) => assert_eq!(m, "unexpected input at offset 36"),
        other => panic!("unexpected {:?}", other),
    }
    assert!(parse_kql("  FIND(?x) WHERE { ?x() }  // done\n").is_ok());
}

#[test]
fn dialect_order() {
    let q = parse_kip("FIND(?drug) WHERE { ?drug(type: \"Drug\") }").unwrap();
    assert!(matches!(q, Command::Kql(_)));
    let k = parse_kip("UPSERT { CONCEPT @drug { ON { name: \"Aspirin\" } } }").unwrap();
    assert!(matches!(k, Command::Kml(_)));
    let m = parse_kip("DESCRIBE PRIMER").unwrap();
    assert_eq!(m, Command::Meta(MetaCommand::Describe(DescribeTarget::Primer)));
    assert!(parse_kip("").is_err());
    assert!(parse_kip("SELECT * FROM t").is_err());
    assert!(matches!(parse_kip("UNKNOWN"), Err(KipError::Parse(m)) if m == "invalid KIP command at offset 0"));
}

#[test]
fn meta_commands() {
    let cases = [
        ("DESCRIBE PRIMER", DescribeTarget::Primer),
        ("DESCRIBE DOMAINS", DescribeTarget::Domains),
        ("DESCRIBE CONCEPT TYPES", DescribeTarget::ConceptTypes),
        ("DESCRIBE CONCEPT TYPE \"Drug\"", DescribeTarget::ConceptType("Drug".to_string())),
        ("DESCRIBE PROPOSITION TYPES", DescribeTarget::PropositionTypes),
        (
            "// intro\nDESCRIBE PROPOSITION TYPE \"treats\" // end",
            DescribeTarget::PropositionType("treats".to_string()),
        ),
    ];
    for (input, target) in cases {
        assert_eq!(parse_meta(input).unwrap(), MetaCommand::Describe(target));
    }
    assert!(parse_meta("DESCRIBE EVERYTHING").is_err());
    assert!(parse_meta("DESCRIBE PRIMERS").is_err());
    assert!(parse_meta("DESCRIBE CONCEPT TYPE Drug").is_err());
    assert!(parse_meta("FIND(?a) WHERE { ?a() }").is_err());
}

#[test]
fn json_values() {
    let v = parse_json(r#"{"name": "Aspirin", "dosage": 500}"#).unwrap();
    assert_eq!(
        v,
        Json::Object(vec![
            ("name".to_string(), s("Aspirin")),
            ("dosage".to_string(), Json::Number("500".to_string())),
        ])
    );
    assert_eq!(
        parse_json("[1, 2, 3]").unwrap(),
        Json::Array(vec![
            Json::Number("1".to_string()),
            Json::Number("2".to_string()),
            Json::Number("3".to_string()),
        ])
    );
    assert_eq!(parse_json("\"hello world\"").unwrap(), s("hello world"));
    assert_eq!(parse_json(" true ").unwrap(), Json::Bool(true));
    assert_eq!(parse_json("false").unwrap(), Json::Bool(false));
    assert_eq!(parse_json("null").unwrap(), Json::Null);
    assert_eq!(parse_json("[]").unwrap(), Json::Array(vec![]));
    assert_eq!(parse_json("{}").unwrap(), Json::Object(vec![]));
    for n in ["0", "-0", "0.95", "-12.5e+3", "1E9", "10"] {
        assert_eq!(parse_json(n).unwrap(), Json::Number(n.to_string()));
    }
    for bad in ["01", "1.", ".5", "-", "1e", "+1", "[1,]", "{\"a\" 1}", "nul", "truex", "[1 2]"] {
        assert!(parse_json(bad).is_err(), "{bad}");
    }
    assert!(matches!(parse_json("{"), Err(KipError::Parse(m)) if m == "invalid JSON value at offset 1"));
}

#[test]
fn json_nesting_limit() {
    let deep = |n: usize| format!("{}{}", "[".repeat(n), "]".repeat(n));
    assert!(parse_json(&deep(64)).is_ok());
    assert!(parse_json(&deep(65)).is_err());
    assert!(parse_json(&deep(10_000)).is_err());
}

#[test]
fn error_details_codes() {
    let cases = [
        (KipError::Parse("p".to_string()), "ParseError", "p"),
        (KipError::Execution("e".to_string()), "ExecutionError", "e"),
        (KipError::NotImplemented("n".to_string()), "NotImplemented", "n"),
        (KipError::InvalidCommand("i".to_string()), "InvalidCommand", "i"),
    ];
    for (err, code, message) in cases {
        let d = ErrorDetails::from_error(err);
        assert_eq!(d.code, code);
        assert_eq!(d.message, message);
    }
}

#[test]
fn braces_inside_literals_and_comments_do_not_count() {
    let r = parse_kml(
        "UPSERT { CONCEPT @a { ON { name: \"{{{\" } // }}\n SET ATTRIBUTES { note: \"}\" } } }",
    );
    assert!(r.is_ok());
    assert!(parse_kml("UPSERT { CONCEPT @a { ON { name: \"{\" } }").is_err());
}

#[test]
fn error_names_furthest_position() {
    let input = "UPSERT { CONCEPT @a { ON { name: \"A\" } SET ATRIBUTES { x: 1 } } }";
    let at = input.find("ATRIBUTES").unwrap();
    assert_eq!(
        parse_kml(input),
        Err(KipError::Parse(format!("invalid KML statement at offset {at}")))
    );
    assert_eq!(
        parse_kip(input),
        Err(KipError::Parse(format!("invalid KIP command at offset {at}")))
    );
    let open = "UPSERT { CONCEPT @a { ON { name: \"A\" } } ";
    assert_eq!(
        parse_kml(open),
        Err(KipError::Parse(format!("invalid KML statement at offset {}", open.len())))
    );
}
