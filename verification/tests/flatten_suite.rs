use zenoh_flow::config::{merge_overwrite, Configuration};
use zenoh_flow::errors::ErrorKind;
use zenoh_flow::flatten::{DescriptorRegistry, ParsedDescriptor};
use zenoh_flow::model::{
    CompositeInput, CompositeOperatorDescriptor, CompositeOutput, LinkDescriptor, LinkFrom,
    LinkTo, NodeDescriptor, OperatorDescriptor, PortDescriptor, SinkDescriptor, SourceDescriptor,
};
use zenoh_flow::strutil::some_kind_of_uppercase_first_letter;
use zenoh_flow::uri::{make_builtin_descriptor, parse_uri, Middleware, NodeKind, URIStruct};

fn s(x: &str) -> String {
    x.to_string()
}

fn port(id: &str, ty: &str) -> PortDescriptor {
    PortDescriptor { port_id: s(id), port_type: s(ty) }
}

fn config(pairs: &[(&str, &str)]) -> Configuration {
    let mut c = Configuration::new();
    for (k, v) in pairs {
        c.insert(s(k), s(v));
    }
    c
}

fn empty_parsed() -> ParsedDescriptor {
    ParsedDescriptor {
        simple: None,
        composite: None,
        source: None,
        sink: None,
        simple_diagnostic: None,
        composite_diagnostic: None,
    }
}

fn simple_operator(id: &str, cfg: Option<Configuration>) -> OperatorDescriptor {
    OperatorDescriptor {
        id: s(id),
        inputs: vec![port("IN", "bytes")],
        outputs: vec![port("OUT", "bytes")],
        uri: Some(s("file://libop.so")),
        configuration: cfg,
        runtime: None,
    }
}

fn link(fnode: &str, fport: &str, tnode: &str, tport: &str) -> LinkDescriptor {
    LinkDescriptor {
        from: LinkFrom { node: s(fnode), output: s(fport) },
        to: LinkTo { node: s(tnode), input: s(tport) },
    }
}

#[test]
fn parse_uri_file() {
    match parse_uri("file://graph.yaml") {
        Ok(URIStruct::File(p)) => assert_eq!(p, "graph.yaml"),
        _ => panic!("expected a file URI"),
    }
}

#[test]
fn parse_uri_builtins() {
    assert!(matches!(
        parse_uri("builtin://zenoh/source"),
        Ok(URIStruct::Builtin(Middleware::Zenoh, NodeKind::Source))
    ));
    assert!(matches!(
        parse_uri("builtin://zenoh/sink"),
        Ok(URIStruct::Builtin(Middleware::Zenoh, NodeKind::Sink))
    ));
    assert!(matches!(
        parse_uri("builtin://zenoh/operator"),
        Ok(URIStruct::Builtin(Middleware::Zenoh, NodeKind::Operator))
    ));
}

#[test]
fn parse_uri_rejects_garbage() {
    let e = parse_uri("http://somewhere").unwrap_err();
    assert_eq!(e.kind, ErrorKind::ParsingError);
    let e = parse_uri("builtin://other/source").unwrap_err();
    assert_eq!(e.kind, ErrorKind::ParsingError);
}

#[test]
fn builtin_descriptor_text_is_exact() {
    let c = config(&[("key-expression", "demo/topic")]);
    let text = make_builtin_descriptor(Middleware::Zenoh, NodeKind::Sink, &Some(c)).unwrap();
    assert_eq!(
        text,
        "id: zenoh-sink\nuri: builtin://zenoh/sink\ninput:\n  port_id: Data\n  port_type: _any_\nconfiguration:\n  key-expression: demo/topic\n"
    );
}

#[test]
fn builtin_descriptor_operator_is_unimplemented() {
    let e = make_builtin_descriptor(Middleware::Zenoh, NodeKind::Operator, &None).unwrap_err();
    assert_eq!(e.kind, ErrorKind::Unimplemented);
}

#[test]
fn builtin_descriptor_needs_configuration() {
    let e = make_builtin_descriptor(Middleware::Zenoh, NodeKind::Source, &None).unwrap_err();
    assert_eq!(e.kind, ErrorKind::MissingConfiguration);
}

#[test]
fn uppercase_first_letter() {
    assert_eq!(some_kind_of_uppercase_first_letter("counter"), "Counter");
    assert_eq!(some_kind_of_uppercase_first_letter(""), "");
    assert_eq!(some_kind_of_uppercase_first_letter("X"), "X");
}

#[test]
fn merge_overwrite_inner_wins() {
    let outer = config(&[("a", "1"), ("b", "2")]);
    let inner = config(&[("b", "20"), ("c", "30")]);
    let merged = merge_overwrite(&Some(outer), &Some(inner)).unwrap();
    assert_eq!(merged.get(&s("a")).unwrap(), "1");
    assert_eq!(merged.get(&s("b")).unwrap(), "20");
    assert_eq!(merged.get(&s("c")).unwrap(), "30");
    assert!(merged.get(&s("d")).is_none());
}

#[test]
fn merge_overwrite_absent_sides() {
    assert!(merge_overwrite(&None, &None).is_none());
    let only = merge_overwrite(&Some(config(&[("a", "1")])), &None).unwrap();
    assert_eq!(only.get(&s("a")).unwrap(), "1");
    let only = merge_overwrite(&None, &Some(config(&[("z", "9")]))).unwrap();
    assert_eq!(only.get(&s("z")).unwrap(), "9");
}

#[test]
fn flatten_simple_overwrites_id_and_merges_configuration() {
    let mut registry = DescriptorRegistry::new();
    let op = simple_operator("original", Some(config(&[("local", "x"), ("both", "in")])));
    registry
        .add(s("file://op.yaml"), ParsedDescriptor { simple: Some(op), ..empty_parsed() })
        .unwrap();

    let node = NodeDescriptor { id: s("ignored"), descriptor: s("file://op.yaml"), configuration: None };
    let mut links = Vec::new();
    let mut ancestors = Vec::new();
    let global = Some(config(&[("global", "g"), ("both", "out")]));
    let ops = node.flatten(&registry, s("stage"), &mut links, global, &mut ancestors).unwrap();

    assert_eq!(ops.len(), 1);
    assert_eq!(ops[0].id, "stage");
    let cfg = ops[0].configuration.as_ref().unwrap();
    assert_eq!(cfg.get(&s("global")).unwrap(), "g");
    assert_eq!(cfg.get(&s("local")).unwrap(), "x");
    assert_eq!(cfg.get(&s("both")).unwrap(), "in");
    assert!(links.is_empty());
    assert!(ancestors.is_empty());
}

#[test]
fn flatten_is_idempotent_on_simple_descriptors() {
    let mut registry = DescriptorRegistry::new();
    let op = simple_operator("original", Some(config(&[("k", "v")])));
    registry
        .add(s("file://op.yaml"), ParsedDescriptor { simple: Some(op), ..empty_parsed() })
        .unwrap();

    let node = NodeDescriptor { id: s("n"), descriptor: s("file://op.yaml"), configuration: None };
    let mut links = Vec::new();
    let mut ancestors = Vec::new();
    let first = node
        .flatten(&registry, s("n"), &mut links, Some(config(&[("g", "1")])), &mut ancestors)
        .unwrap();

    // Feed the already-resolved descriptor through the flattener again,
    // under its own identifier and no outer configuration.
    let mut registry2 = DescriptorRegistry::new();
    registry2
        .add(
            s("file://resolved.yaml"),
            ParsedDescriptor { simple: Some(first[0].duplicate()), ..empty_parsed() },
        )
        .unwrap();
    let node2 = NodeDescriptor { id: s("n"), descriptor: s("file://resolved.yaml"), configuration: None };
    let second = node2.flatten(&registry2, s("n"), &mut links, None, &mut ancestors).unwrap();

    assert_eq!(second.len(), 1);
    assert_eq!(second[0].id, first[0].id);
    let c1 = first[0].configuration.as_ref().unwrap();
    let c2 = second[0].configuration.as_ref().unwrap();
    for key in ["k", "g"] {
        assert_eq!(c1.get(&s(key)), c2.get(&s(key)));
    }
    assert_eq!(second[0].inputs.len(), first[0].inputs.len());
    assert_eq!(second[0].outputs.len(), first[0].outputs.len());
}

#[test]
fn flatten_composite_prefixes_and_rewires() {
    let mut registry = DescriptorRegistry::new();
    registry
        .add(
            s("file://n.yaml"),
            ParsedDescriptor { simple: Some(simple_operator("n-impl", None)), ..empty_parsed() },
        )
        .unwrap();
    let composite = CompositeOperatorDescriptor {
        id: s("C"),
        inputs: vec![CompositeInput { id: s("in"), node: s("n"), input: s("IN") }],
        outputs: vec![CompositeOutput { id: s("out"), node: s("n"), output: s("OUT") }],
        operators: vec![NodeDescriptor { id: s("n"), descriptor: s("file://n.yaml"), configuration: None }],
        links: Vec::new(),
        configuration: None,
    };
    registry
        .add(
            s("file://comp.yaml"),
            ParsedDescriptor { composite: Some(composite), ..empty_parsed() },
        )
        .unwrap();

    let mut links = vec![link("S", "OUT", "P", "in"), link("P", "out", "K", "IN")];
    let mut ancestors = Vec::new();
    let node = NodeDescriptor { id: s("P"), descriptor: s("file://comp.yaml"), configuration: None };
    let ops = node.flatten(&registry, s("P"), &mut links, None, &mut ancestors).unwrap();

    assert_eq!(ops.len(), 1);
    assert_eq!(ops[0].id, "P/n");
    // The flow's links now name the inner node under its flattened path.
    assert_eq!(links[0].to.node, "P/n");
    assert_eq!(links[0].to.input, "IN");
    assert_eq!(links[0].from.node, "S");
    assert_eq!(links[1].from.node, "P/n");
    assert_eq!(links[1].from.output, "OUT");
    assert_eq!(links[1].to.node, "K");
    assert!(ancestors.is_empty());
}

#[test]
fn flatten_nested_composites_yield_distinct_ids() {
    let mut registry = DescriptorRegistry::new();
    registry
        .add(
            s("file://leaf.yaml"),
            ParsedDescriptor { simple: Some(simple_operator("leaf", None)), ..empty_parsed() },
        )
        .unwrap();
    let inner = CompositeOperatorDescriptor {
        id: s("inner"),
        inputs: Vec::new(),
        outputs: Vec::new(),
        operators: vec![
            NodeDescriptor { id: s("a"), descriptor: s("file://leaf.yaml"), configuration: None },
            NodeDescriptor { id: s("b"), descriptor: s("file://leaf.yaml"), configuration: None },
        ],
        links: Vec::new(),
        configuration: None,
    };
    registry
        .add(s("file://inner.yaml"), ParsedDescriptor { composite: Some(inner), ..empty_parsed() })
        .unwrap();
    let outer = CompositeOperatorDescriptor {
        id: s("outer"),
        inputs: Vec::new(),
        outputs: Vec::new(),
        operators: vec![
            NodeDescriptor { id: s("x"), descriptor: s("file://inner.yaml"), configuration: None },
            NodeDescriptor { id: s("y"), descriptor: s("file://leaf.yaml"), configuration: None },
        ],
        links: Vec::new(),
        configuration: None,
    };
    registry
        .add(s("file://outer.yaml"), ParsedDescriptor { composite: Some(outer), ..empty_parsed() })
        .unwrap();

    let mut links = Vec::new();
    let mut ancestors = Vec::new();
    let node = NodeDescriptor { id: s("top"), descriptor: s("file://outer.yaml"), configuration: None };
    let ops = node.flatten(&registry, s("top"), &mut links, None, &mut ancestors).unwrap();

    let ids: Vec<&str> = ops.iter().map(|o| o.id.as_str()).collect();
    assert_eq!(ids, vec!["top/x/a", "top/x/b", "top/y"]);
    for i in 0..ids.len() {
        for j in (i + 1)..ids.len() {
            assert_ne!(ids[i], ids[j]);
        }
    }
}

#[test]
fn flatten_rejects_cycles_with_the_chain_in_the_message() {
    let mut registry = DescriptorRegistry::new();
    let comp_a = CompositeOperatorDescriptor {
        id: s("A"),
        inputs: Vec::new(),
        outputs: Vec::new(),
        operators: vec![NodeDescriptor { id: s("b"), descriptor: s("file://B.yaml"), configuration: None }],
        links: Vec::new(),
        configuration: None,
    };
    let comp_b = CompositeOperatorDescriptor {
        id: s("B"),
        inputs: Vec::new(),
        outputs: Vec::new(),
        operators: vec![NodeDescriptor { id: s("a"), descriptor: s("file://A.yaml"), configuration: None }],
        links: Vec::new(),
        configuration: None,
    };
    registry
        .add(s("file://A.yaml"), ParsedDescriptor { composite: Some(comp_a), ..empty_parsed() })
        .unwrap();
    registry
        .add(s("file://B.yaml"), ParsedDescriptor { composite: Some(comp_b), ..empty_parsed() })
        .unwrap();

    let mut links = Vec::new();
    let mut ancestors = Vec::new();
    let node = NodeDescriptor { id: s("A"), descriptor: s("file://A.yaml"), configuration: None };
    let e = node.flatten(&registry, s("A"), &mut links, None, &mut ancestors).unwrap_err();
    assert_eq!(e.kind, ErrorKind::ParsingError);
    let msg = e.message_string();
    assert!(msg.contains("A.yaml"));
    assert!(msg.contains("B.yaml"));
    assert!(ancestors.is_empty());
}

#[test]
fn flatten_unknown_uri_is_io_error() {
    let registry = DescriptorRegistry::new();
    let node = NodeDescriptor { id: s("n"), descriptor: s("file://missing.yaml"), configuration: None };
    let mut links = Vec::new();
    let mut ancestors = Vec::new();
    let e = node.flatten(&registry, s("n"), &mut links, None, &mut ancestors).unwrap_err();
    assert_eq!(e.kind, ErrorKind::IOError);
}

#[test]
fn flatten_text_parsing_as_nothing_is_parsing_error() {
    let mut registry = DescriptorRegistry::new();
    registry.add(s("file://junk.yaml"), empty_parsed()).unwrap();
    let node = NodeDescriptor { id: s("n"), descriptor: s("file://junk.yaml"), configuration: None };
    let mut links = Vec::new();
    let mut ancestors = Vec::new();
    let e = node.flatten(&registry, s("n"), &mut links, None, &mut ancestors).unwrap_err();
    assert_eq!(e.kind, ErrorKind::ParsingError);
}

#[test]
fn load_source_from_registry() {
    let mut registry = DescriptorRegistry::new();
    let src = SourceDescriptor {
        id: s("original"),
        output: port("OUT", "bytes"),
        period: None,
        uri: Some(s("file://libsrc.so")),
        configuration: Some(config(&[("rate", "10")])),
        runtime: None,
    };
    registry
        .add(s("file://src.yaml"), ParsedDescriptor { source: Some(src), ..empty_parsed() })
        .unwrap();
    let node = NodeDescriptor { id: s("cam"), descriptor: s("file://src.yaml"), configuration: None };
    let d = node.load_source(&registry, Some(config(&[("rate", "5"), ("g", "1")]))).unwrap();
    assert_eq!(d.id, "cam");
    let cfg = d.configuration.as_ref().unwrap();
    assert_eq!(cfg.get(&s("rate")).unwrap(), "10");
    assert_eq!(cfg.get(&s("g")).unwrap(), "1");
}

#[test]
fn load_sink_builtin() {
    let registry = DescriptorRegistry::new();
    let node = NodeDescriptor {
        id: s("out"),
        descriptor: s("builtin://zenoh/sink"),
        configuration: Some(config(&[("key-expression", "demo")])),
    };
    let d = node.load_sink(&registry, None).unwrap();
    assert_eq!(d.id, "out");
    assert_eq!(d.input.port_id, "Data");
    assert_eq!(d.uri.as_deref(), Some("builtin://zenoh/sink"));
    assert_eq!(d.configuration.unwrap().get(&s("key-expression")).unwrap(), "demo");
}

#[test]
fn load_source_as_sink_is_parsing_error() {
    let mut registry = DescriptorRegistry::new();
    let snk = SinkDescriptor {
        id: s("original"),
        input: port("IN", "bytes"),
        uri: None,
        configuration: None,
        runtime: None,
    };
    registry
        .add(s("file://snk.yaml"), ParsedDescriptor { sink: Some(snk), ..empty_parsed() })
        .unwrap();
    let node = NodeDescriptor { id: s("n"), descriptor: s("file://snk.yaml"), configuration: None };
    let e = node.load_source(&registry, None).unwrap_err();
    assert_eq!(e.kind, ErrorKind::ParsingError);
}

#[test]
fn registry_rejects_composite_with_duplicate_children() {
    let mut registry = DescriptorRegistry::new();
    let composite = CompositeOperatorDescriptor {
        id: s("C"),
        inputs: Vec::new(),
        outputs: Vec::new(),
        operators: vec![
            NodeDescriptor { id: s("n"), descriptor: s("file://x.yaml"), configuration: None },
            NodeDescriptor { id: s("n"), descriptor: s("file://y.yaml"), configuration: None },
        ],
        links: Vec::new(),
        configuration: None,
    };
    let e = registry
        .add(s("file://c.yaml"), ParsedDescriptor { composite: Some(composite), ..empty_parsed() })
        .unwrap_err();
    assert_eq!(e.kind, ErrorKind::ParsingError);
}

#[test]
fn neither_parse_carries_both_diagnostics() {
    let mut registry = DescriptorRegistry::new();
    registry
        .add(
            s("file://junk.yaml"),
            ParsedDescriptor {
                simple_diagnostic: Some(s("missing field inputs")),
                composite_diagnostic: Some(s("missing field operators")),
                ..empty_parsed()
            },
        )
        .unwrap();
    let node =
        NodeDescriptor { id: s("n"), descriptor: s("file://junk.yaml"), configuration: None };
    let mut links = Vec::new();
    let mut ancestors = Vec::new();
    let e = node.flatten(&registry, s("n"), &mut links, None, &mut ancestors).unwrap_err();
    assert_eq!(e.kind, ErrorKind::ParsingError);
    let mut expected = String::from("Could not parse < file://junk.yaml > as an operator");
    expected.push_str("; simple reading: missing field inputs");
    expected.push_str("; composite reading: missing field operators");
    assert_eq!(e.message_string(), expected);
}

#[test]
fn neither_parse_names_the_uri() {
    let mut registry = DescriptorRegistry::new();
    registry.add(s("file://junk.yaml"), empty_parsed()).unwrap();
    let node =
        NodeDescriptor { id: s("n"), descriptor: s("file://junk.yaml"), configuration: None };
    let mut links = Vec::new();
    let mut ancestors = Vec::new();
    let e = node.flatten(&registry, s("n"), &mut links, None, &mut ancestors).unwrap_err();
    assert_eq!(e.kind, ErrorKind::ParsingError);
    assert_eq!(e.message_string(), "Could not parse < file://junk.yaml > as an operator");
    assert!(links.is_empty());
}
