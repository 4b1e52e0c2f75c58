use apigen::registry::MultitypeRegistry;
use apigen::schema::{RawMember, RawMethod, RawSpec, RawType};
use apigen::{run_generation, GenError, Generate, GenerationError, NamingError, SchemaError};

fn member(name: &str, types: &[&str], required: bool, desc: &str) -> RawMember {
    RawMember {
        name: name.to_string(),
        types: types.iter().map(|s| s.to_string()).collect(),
        required,
        description: desc.to_string(),
    }
}

fn ty(name: &str, desc: &str, fields: Vec<RawMember>) -> RawType {
    RawType { name: name.to_string(), description: desc.to_string(), fields }
}

fn method(name: &str, desc: &str, params: Vec<RawMember>, returns: &[&str]) -> RawMethod {
    RawMethod {
        name: name.to_string(),
        description: desc.to_string(),
        params,
        returns: returns.iter().map(|s| s.to_string()).collect(),
    }
}

const INPUT_FILE_DECL: &str = "enum InputFile {\n    Bytes(Vec<u8>),\n    Text(String),\n}\n\n";

#[test]
fn union_field_gets_one_synthesized_sum_type() {
    // A type with one field accepting String or Integer: exactly one
    // two-variant sum type, referenced by the field.
    let raw = RawSpec {
        types: vec![ty("Foo", "A foo", vec![member("x", &["String", "Integer"], true, "the x")])],
        methods: vec![],
    };
    let mut g = Generate::new(&raw).unwrap();
    let out = g.generate_types().unwrap();
    let expected = format!(
        "{}enum EInteger_String {{\n    Integer(i64),\n    String(String),\n}}\n\n/// A foo\nstruct Foo {{\n    /// the x\n    x: EInteger_String,\n}}\n\n",
        INPUT_FILE_DECL
    );
    assert_eq!(out, expected);
    assert_eq!(out.matches("enum EInteger_String").count(), 1);
}

#[test]
fn required_parameters_precede_optional_ones() {
    // Declared order is b (optional) then a (required); the binding
    // lists a before b.
    let raw = RawSpec {
        types: vec![],
        methods: vec![method(
            "doThing",
            "does a thing",
            vec![
                member("b", &["String"], false, "second"),
                member("a", &["Integer"], true, "first"),
            ],
            &["String"],
        )],
    };
    let mut g = Generate::new(&raw).unwrap();
    let _types = g.generate_types().unwrap();
    let out = g.generate_methods().unwrap();
    assert_eq!(out, "/// does a thing\nfn doThing(a: i64, b: Option<String>) -> String;\n\n");
}

#[test]
fn undeclared_reference_fails_with_unknown_type() {
    let raw = RawSpec {
        types: vec![ty("Foo", "A foo", vec![member("x", &["Bogus"], true, "the x")])],
        methods: vec![],
    };
    match Generate::new(&raw) {
        Err(SchemaError::UnknownType) => {},
        other => panic!("expected UnknownType, got {:?}", other.is_ok()),
    }
}

#[test]
fn skipping_type_generation_yields_unresolved_union() {
    // A method that references a union key never produced during
    // type generation: method generation must abort, not register.
    let raw = RawSpec {
        types: vec![],
        methods: vec![method(
            "pick",
            "picks",
            vec![member("v", &["String", "Integer"], true, "value")],
            &["Boolean"],
        )],
    };
    let g = Generate::new(&raw).unwrap();
    match g.generate_methods() {
        Err(GenError::Generation(GenerationError::UnresolvedUnion)) => {},
        _ => panic!("expected UnresolvedUnion"),
    }
}

#[test]
fn union_method_resolves_after_type_generation() {
    // The same union registered by a type field resolves for the
    // method, and the looked-up name matches the emitted enum.
    let raw = RawSpec {
        types: vec![ty("Holder", "holds", vec![member("v", &["String", "Integer"], true, "v")])],
        methods: vec![method(
            "pick",
            "picks",
            vec![member("v", &["Integer", "String"], true, "value")],
            &["Boolean"],
        )],
    };
    let mut g = Generate::new(&raw).unwrap();
    let types_block = g.generate_types().unwrap();
    let methods_block = g.generate_methods().unwrap();
    assert!(types_block.contains("enum EInteger_String"));
    assert_eq!(methods_block, "/// picks\nfn pick(v: EInteger_String) -> bool;\n\n");
}

#[test]
fn generation_is_deterministic() {
    let build = || RawSpec {
        types: vec![
            ty("Bar", "bar", vec![member("a", &["Integer", "String"], false, "a")]),
            ty("Foo", "foo", vec![member("b", &["Bar"], true, "b")]),
        ],
        methods: vec![method("go", "go", vec![member("x", &["Bar"], true, "x")], &["Bar"])],
    };
    let mut g1 = Generate::new(&build()).unwrap();
    let mut g2 = Generate::new(&build()).unwrap();
    let (t1, m1) = g1.generate().unwrap();
    let (t2, m2) = g2.generate().unwrap();
    assert_eq!(t1, t2);
    assert_eq!(m1, m2);
}

#[test]
fn union_name_is_order_independent_and_emitted_once() {
    // Two fields declare the same candidate set in opposite orders:
    // both get the identical synthesized name, one definition.
    let raw = RawSpec {
        types: vec![
            ty("A", "a", vec![member("x", &["String", "Integer"], true, "x")]),
            ty("B", "b", vec![member("y", &["Integer", "String"], true, "y")]),
        ],
        methods: vec![],
    };
    let mut g = Generate::new(&raw).unwrap();
    let out = g.generate_types().unwrap();
    assert_eq!(out.matches("enum EInteger_String").count(), 1);
    assert_eq!(out.matches("x: EInteger_String").count(), 1);
    assert_eq!(out.matches("y: EInteger_String").count(), 1);
}

#[test]
fn forward_references_are_legal() {
    // Foo references Bar, declared later in the same document.
    let raw = RawSpec {
        types: vec![
            ty("Foo", "foo", vec![member("b", &["Bar"], true, "b")]),
            ty("Bar", "bar", vec![]),
        ],
        methods: vec![],
    };
    let mut g = Generate::new(&raw).unwrap();
    let out = g.generate_types().unwrap();
    assert!(out.contains("struct Foo"));
    assert!(out.contains("struct Bar"));
    assert!(out.contains("    b: Bar,\n"));
}

#[test]
fn malformed_inputs_are_rejected() {
    // Duplicate type names.
    let raw = RawSpec {
        types: vec![ty("Foo", "", vec![]), ty("Foo", "", vec![])],
        methods: vec![],
    };
    assert!(matches!(Generate::new(&raw), Err(SchemaError::Malformed)));

    // An empty token list.
    let raw = RawSpec {
        types: vec![ty("Foo", "", vec![member("x", &[], true, "")])],
        methods: vec![],
    };
    assert!(matches!(Generate::new(&raw), Err(SchemaError::Malformed)));

    // A union over an array token.
    let raw = RawSpec {
        types: vec![ty("Foo", "", vec![member("x", &["Array of String", "Integer"], true, "")])],
        methods: vec![],
    };
    assert!(matches!(Generate::new(&raw), Err(SchemaError::Malformed)));

    // Duplicate union constituents.
    let raw = RawSpec {
        types: vec![ty("Foo", "", vec![member("x", &["String", "String"], true, "")])],
        methods: vec![],
    };
    assert!(matches!(Generate::new(&raw), Err(SchemaError::Malformed)));

    // A type name that is not alphanumeric.
    let raw = RawSpec { types: vec![ty("Fo o", "", vec![])], methods: vec![] };
    assert!(matches!(Generate::new(&raw), Err(SchemaError::Malformed)));

    // A declared type shadowing a scalar.
    let raw = RawSpec { types: vec![ty("String", "", vec![])], methods: vec![] };
    assert!(matches!(Generate::new(&raw), Err(SchemaError::Malformed)));

    // A declared type shadowing the file-attachment pseudo-type.
    let raw = RawSpec { types: vec![ty("InputFile", "", vec![])], methods: vec![] };
    assert!(matches!(Generate::new(&raw), Err(SchemaError::Malformed)));

    // A method without a return token.
    let raw = RawSpec {
        types: vec![],
        methods: vec![method("go", "", vec![], &[])],
    };
    assert!(matches!(Generate::new(&raw), Err(SchemaError::Malformed)));
}

#[test]
fn reserved_names_are_escaped_and_wire_key_kept() {
    let raw = RawSpec {
        types: vec![ty("Foo", "A foo", vec![member("type", &["String"], true, "kind")])],
        methods: vec![],
    };
    let mut g = Generate::new(&raw).unwrap();
    let out = g.generate_types().unwrap();
    let expected = format!(
        "{}/// A foo\nstruct Foo {{\n    /// kind\n    // wire: type\n    tg_type: String,\n}}\n\n",
        INPUT_FILE_DECL
    );
    assert_eq!(out, expected);
}

#[test]
fn colliding_escapes_are_fatal() {
    // "type" escapes to "tg_type", colliding with the declared
    // "tg_type": never silently disambiguated.
    let raw = RawSpec {
        types: vec![ty(
            "Foo",
            "",
            vec![member("type", &["String"], true, ""), member("tg_type", &["String"], true, "")],
        )],
        methods: vec![],
    };
    let mut g = Generate::new(&raw).unwrap();
    match g.generate_types() {
        Err(GenError::Naming(NamingError::ReservedCollision)) => {},
        _ => panic!("expected ReservedCollision"),
    }
}

#[test]
fn array_tokens_nest_and_scalars_map() {
    let raw = RawSpec {
        types: vec![
            ty("PhotoSize", "one photo", vec![]),
            ty(
                "Gallery",
                "a gallery",
                vec![
                    member("items", &["Array of Array of PhotoSize"], true, "rows"),
                    member("count", &["Integer"], true, "n"),
                    member("live", &["Boolean"], false, "live"),
                    member("score", &["Float"], false, "score"),
                    member("ok", &["True"], true, "ok"),
                ],
            ),
        ],
        methods: vec![],
    };
    let mut g = Generate::new(&raw).unwrap();
    let out = g.generate_types().unwrap();
    assert!(out.contains("    items: Vec<Vec<PhotoSize>>,\n"));
    assert!(out.contains("    count: i64,\n"));
    assert!(out.contains("    live: Option<bool>,\n"));
    assert!(out.contains("    score: Option<f64>,\n"));
    assert!(out.contains("    ok: bool,\n"));
}

#[test]
fn input_file_parameters_are_marked_multipart() {
    let raw = RawSpec {
        types: vec![],
        methods: vec![
            method(
                "sendPhoto",
                "send a photo",
                vec![member("photo", &["InputFile"], true, "the photo")],
                &["Boolean"],
            ),
            method(
                "sendText",
                "send text",
                vec![member("text", &["String"], true, "the text")],
                &["Boolean"],
            ),
        ],
    };
    let mut g = Generate::new(&raw).unwrap();
    let _ = g.generate_types().unwrap();
    let out = g.generate_methods().unwrap();
    assert!(out.contains("/// send a photo\n// multipart: photo\nfn sendPhoto(photo: InputFile) -> bool;\n\n"));
    // A plain parameter carries no marking.
    assert!(out.contains("/// send text\nfn sendText(text: String) -> bool;\n\n"));
}

#[test]
fn input_file_definition_heads_the_types_block() {
    let raw = RawSpec { types: vec![], methods: vec![] };
    let mut g = Generate::new(&raw).unwrap();
    let out = g.generate_types().unwrap();
    assert_eq!(out, INPUT_FILE_DECL);
}

#[test]
fn envelope_union_scales_to_many_constituents() {
    // A top-level envelope whose payload field is a union over many
    // event subtypes is just a large instance of the mechanism.
    let subtypes = ["Message", "Edited", "Channel", "Inline", "Chosen", "Callback"];
    let mut types: Vec<RawType> = subtypes.iter().map(|n| ty(n, "event", vec![])).collect();
    types.push(ty(
        "Update",
        "the envelope",
        vec![
            member("update_id", &["Integer"], true, "id"),
            member("payload", &subtypes, false, "the event"),
        ],
    ));
    let raw = RawSpec { types, methods: vec![] };
    let mut g = Generate::new(&raw).unwrap();
    let out = g.generate_types().unwrap();
    let expected_enum = "enum ECallback_Channel_Chosen_Edited_Inline_Message {\n    Callback(Callback),\n    Channel(Channel),\n    Chosen(Chosen),\n    Edited(Edited),\n    Inline(Inline),\n    Message(Message),\n}\n\n";
    assert!(out.contains(expected_enum));
    assert!(out.contains("    payload: Option<ECallback_Channel_Chosen_Edited_Inline_Message>,\n"));
}

#[test]
fn reserved_type_and_method_names_are_escaped() {
    let raw = RawSpec {
        types: vec![ty("Vec", "a vec", vec![])],
        methods: vec![method("loop", "loops", vec![], &["Boolean"])],
    };
    let mut g = Generate::new(&raw).unwrap();
    let (types_block, methods_block) = g.generate().unwrap();
    assert!(types_block.contains("struct TgVec"));
    assert!(methods_block.contains("fn tg_loop() -> bool;\n\n"));
}

#[test]
fn union_return_type_resolves_through_registry() {
    let raw = RawSpec {
        types: vec![ty("Holder", "holds", vec![member("v", &["Message", "Boolean"], true, "v")]),
            ty("Message", "msg", vec![])],
        methods: vec![method("fetch", "fetches", vec![], &["Boolean", "Message"])],
    };
    let mut g = Generate::new(&raw).unwrap();
    let (_, methods_block) = g.generate().unwrap();
    assert_eq!(methods_block, "/// fetches\nfn fetch() -> EBoolean_Message;\n\n");
}

#[test]
fn registry_is_write_once_per_key() {
    let mut reg = MultitypeRegistry::new();
    let names = vec!["String".to_string(), "Integer".to_string()];
    let (n1, new1) = reg.get_or_create(&names);
    assert!(new1);
    // The same candidate set in another order is the same key.
    let reordered = vec!["Integer".to_string(), "String".to_string()];
    let (n2, new2) = reg.get_or_create(&reordered);
    assert!(!new2);
    assert_eq!(n1, n2);
    assert_eq!(n1, "EInteger_String");
    assert_eq!(reg.lookup(&names), Some("EInteger_String".to_string()));
    let other = vec!["Boolean".to_string(), "String".to_string()];
    assert_eq!(reg.lookup(&other), None);
}

#[test]
fn full_run_reports_the_first_error_or_both_blocks() {
    // An unresolved name surfaces through the whole pipeline.
    let raw = RawSpec {
        types: vec![ty("Foo", "", vec![member("x", &["Bogus"], true, "")])],
        methods: vec![],
    };
    assert!(matches!(run_generation(&raw), Err(GenError::Schema(SchemaError::UnknownType))));
    // A structural fault takes precedence over resolution.
    let raw = RawSpec {
        types: vec![ty("Foo", "", vec![]), ty("Foo", "", vec![member("x", &["Bogus"], true, "")])],
        methods: vec![],
    };
    assert!(matches!(run_generation(&raw), Err(GenError::Schema(SchemaError::Malformed))));
    // A successful run returns both blocks, types first.
    let raw = RawSpec {
        types: vec![ty("Foo", "f", vec![member("x", &["String"], true, "x")])],
        methods: vec![method("go", "g", vec![], &["Foo"])],
    };
    let (types_block, methods_block) = run_generation(&raw).unwrap();
    assert!(types_block.contains("struct Foo"));
    assert_eq!(methods_block, "/// g\nfn go() -> Foo;\n\n");
}

#[test]
fn union_with_input_file_is_marked_multipart() {
    let raw = RawSpec {
        types: vec![ty(
            "Holder",
            "holds",
            vec![member("media", &["InputFile", "String"], true, "media")],
        )],
        methods: vec![method(
            "sendMedia",
            "send media",
            vec![member("media", &["String", "InputFile"], true, "the media")],
            &["Boolean"],
        )],
    };
    let mut g = Generate::new(&raw).unwrap();
    let (types_block, methods_block) = g.generate().unwrap();
    assert!(types_block.contains(
        "enum EInputFile_String {\n    InputFile(InputFile),\n    String(String),\n}\n\n"
    ));
    assert_eq!(
        methods_block,
        "/// send media\n// multipart: media\nfn sendMedia(media: EInputFile_String) -> bool;\n\n"
    );
}
