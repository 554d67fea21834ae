use vmod::errors::{SchemaField, VmodError};
use vmod::schema::parse_vmod_json;
use vmod::types::{Obj, Type};

fn prop<'a>(o: &'a Obj, name: &str) -> &'a Type {
    &o.properties.iter().find(|(k, _)| k == name).expect("property missing").1
}

#[test]
fn func_row_builds_named_function_with_signature_and_return() {
    let json = r#"[["$FUNC","greet",[["STRING"],null,null,["STRING","name"],["INT","count"]]]]"#;
    let ns = parse_vmod_json(json).expect("parse failed");
    assert_eq!(ns.name, "");
    assert!(ns.read_only);
    assert_eq!(ns.properties.len(), 1);
    match prop(&ns, "greet") {
        Type::Func(f) => {
            assert_eq!(f.name, "greet");
            assert_eq!(f.signature.as_deref(), Some("(STRING name, INT count)"));
            assert_eq!(f.ret_type.as_deref(), Some("STRING"));
            assert_eq!(f.ret.as_deref(), Some(&Type::Str));
        }
        other => panic!("expected a function, got {:?}", other),
    }
}

#[test]
fn obj_row_builds_constructor_like_callable() {
    let json = r#"[["$OBJ","backend_handle",null,null,null,null,["m","ping",[["BOOL"],null,null]]]]"#;
    let ns = parse_vmod_json(json).expect("parse failed");
    assert_eq!(ns.properties.len(), 1);
    match prop(&ns, "backend_handle") {
        Type::Func(f) => {
            assert_eq!(f.name, "backend_handle");
            assert_eq!(f.signature, None);
            assert_eq!(f.ret_type.as_deref(), Some("backend_handle"));
            match f.ret.as_deref() {
                Some(Type::Obj(o)) => {
                    assert_eq!(o.name, "backend_handle");
                    assert!(o.read_only);
                    assert_eq!(o.properties.len(), 1);
                    match prop(o, "ping") {
                        Type::Func(m) => {
                            assert_eq!(m.name, "ping");
                            assert_eq!(m.signature.as_deref(), Some("()"));
                            assert_eq!(m.ret.as_deref(), Some(&Type::Bool));
                        }
                        other => panic!("expected a method, got {:?}", other),
                    }
                }
                other => panic!("expected an object return, got {:?}", other),
            }
        }
        other => panic!("expected a function, got {:?}", other),
    }
}

#[test]
fn primitive_mapping_is_total_and_exact() {
    let cases = [
        ("REAL", Some(Type::Number)),
        ("INT", Some(Type::Number)),
        ("STRING", Some(Type::Str)),
        ("BOOL", Some(Type::Bool)),
        ("BACKEND", Some(Type::Backend)),
        ("VOID", None),
        ("DURATION", None),
    ];
    for (name, expected) in cases {
        let json = format!(r#"[["$FUNC","f",[["{}"],null,null]]]"#, name);
        let ns = parse_vmod_json(&json).expect("parse failed");
        match prop(&ns, "f") {
            Type::Func(f) => {
                assert_eq!(f.ret_type.as_deref(), Some(name));
                assert_eq!(f.ret.as_deref(), expected.as_ref(), "mapping of {}", name);
            }
            other => panic!("expected a function, got {:?}", other),
        }
    }
}

#[test]
fn parsing_twice_yields_equal_independent_trees() {
    let json = r#"[["$FUNC","a",[["INT"],null,null,["STRING","x"]]],["$OBJ","o",0,0,0,0,["m","p",[["VOID"],null,null]]]]"#;
    let first = parse_vmod_json(json).expect("parse failed");
    let second = parse_vmod_json(json).expect("parse failed");
    assert_eq!(first, second);
}

#[test]
fn later_row_overwrites_earlier_under_same_name() {
    let json = r#"[["$FUNC","f",[["INT"],null,null]],["$FUNC","g",[["BOOL"],null,null]],["$FUNC","f",[["STRING"],null,null]]]"#;
    let ns = parse_vmod_json(json).expect("parse failed");
    assert_eq!(ns.properties.len(), 2);
    match prop(&ns, "f") {
        Type::Func(f) => {
            assert_eq!(f.ret_type.as_deref(), Some("STRING"));
            assert_eq!(f.ret.as_deref(), Some(&Type::Str));
        }
        other => panic!("expected a function, got {:?}", other),
    }
}

#[test]
fn malformed_func_row_fails_whole_parse() {
    // missing the signature element entirely
    let r = parse_vmod_json(r#"[["$FUNC","bad"]]"#);
    assert!(matches!(r, Err(VmodError::SchemaShapeError(_))), "got {:?}", r);
    // signature is not an array
    let r = parse_vmod_json(r#"[["$FUNC","bad","nope"]]"#);
    assert_eq!(r, Err(VmodError::SchemaShapeError(SchemaField::FuncSignatureArr)));
    // a parameter is not an array, after a valid earlier row
    let r = parse_vmod_json(r#"[["$FUNC","ok",[["INT"],null,null]],["$FUNC","bad",[["INT"],null,null,7]]]"#);
    assert_eq!(r, Err(VmodError::SchemaShapeError(SchemaField::ArgArr)));
    // function name is not text
    let r = parse_vmod_json(r#"[["$FUNC",7,[["INT"],null,null]]]"#);
    assert_eq!(r, Err(VmodError::SchemaShapeError(SchemaField::FuncNameText)));
    // empty return-type candidate list
    let r = parse_vmod_json(r#"[["$FUNC","f",[[],null,null]]]"#);
    assert_eq!(r, Err(VmodError::SchemaShapeError(SchemaField::RetTypeMissing)));
}

#[test]
fn malformed_method_row_fails_whole_parse() {
    let r = parse_vmod_json(r#"[["$OBJ","o",0,0,0,0,"notarray"]]"#);
    assert_eq!(r, Err(VmodError::SchemaShapeError(SchemaField::MethodArr)));
    let r = parse_vmod_json(r#"[["$OBJ",17]]"#);
    assert_eq!(r, Err(VmodError::SchemaShapeError(SchemaField::ObjNameText)));
}

#[test]
fn invalid_json_is_a_syntax_error() {
    assert_eq!(parse_vmod_json("not json at all"), Err(VmodError::SchemaSyntaxError));
    assert_eq!(parse_vmod_json(r#"[["$FUNC""#), Err(VmodError::SchemaSyntaxError));
}

#[test]
fn wrong_top_level_shapes_are_shape_errors() {
    assert_eq!(
        parse_vmod_json(r#"{"a": 1}"#),
        Err(VmodError::SchemaShapeError(SchemaField::Toplevel))
    );
    assert_eq!(
        parse_vmod_json(r#"["notarow"]"#),
        Err(VmodError::SchemaShapeError(SchemaField::Row))
    );
    assert_eq!(
        parse_vmod_json(r#"[[]]"#),
        Err(VmodError::SchemaShapeError(SchemaField::RowTag))
    );
}

#[test]
fn reserved_and_unknown_tags_are_skipped() {
    let json = r#"[["$VMOD","1.0"],["$EVENT","event_function"],["$NEWTAG",1,2],[42,"x"],["$FUNC","f",[["VOID"],null,null]]]"#;
    let ns = parse_vmod_json(json).expect("parse failed");
    assert_eq!(ns.properties.len(), 1);
    match prop(&ns, "f") {
        Type::Func(f) => assert_eq!(f.ret, None),
        other => panic!("expected a function, got {:?}", other),
    }
}

#[test]
fn empty_schema_yields_empty_namespace() {
    let ns = parse_vmod_json("[]").expect("parse failed");
    assert_eq!(ns.properties.len(), 0);
    assert_eq!(ns.name, "");
    assert!(ns.read_only);
}

#[test]
fn signature_with_only_the_fixed_elements_means_no_parameters() {
    let ns = parse_vmod_json(r#"[["$FUNC","f",[["INT"],null,null]]]"#).expect("parse failed");
    match prop(&ns, "f") {
        Type::Func(f) => assert_eq!(f.signature.as_deref(), Some("()")),
        other => panic!("expected a function, got {:?}", other),
    }
}

#[test]
fn signature_array_shorter_than_its_fixed_elements_is_a_shape_error() {
    let r = parse_vmod_json(r#"[["$FUNC","f",[["INT"]]]]"#);
    assert_eq!(r, Err(VmodError::SchemaShapeError(SchemaField::SignatureElements)));
    let r = parse_vmod_json(r#"[["$FUNC","f",[["INT"],null]]]"#);
    assert_eq!(r, Err(VmodError::SchemaShapeError(SchemaField::SignatureElements)));
}

#[test]
fn object_row_with_exactly_six_elements_has_no_methods() {
    let ns = parse_vmod_json(r#"[["$OBJ","o",0,0,0,0]]"#).expect("parse failed");
    match prop(&ns, "o") {
        Type::Func(f) => match f.ret.as_deref() {
            Some(Type::Obj(o)) => assert_eq!(o.properties.len(), 0),
            other => panic!("expected an object return, got {:?}", other),
        },
        other => panic!("expected a function, got {:?}", other),
    }
}

#[test]
fn object_row_shorter_than_its_fixed_elements_is_a_shape_error() {
    let r = parse_vmod_json(r#"[["$OBJ","o"]]"#);
    assert_eq!(r, Err(VmodError::SchemaShapeError(SchemaField::ObjElements)));
    let r = parse_vmod_json(r#"[["$OBJ","o",0,0,0]]"#);
    assert_eq!(r, Err(VmodError::SchemaShapeError(SchemaField::ObjElements)));
}

#[test]
fn duplicate_method_names_keep_one_entry_with_the_later_winning() {
    let json = r#"[["$OBJ","o",0,0,0,0,["m","p",[["INT"],null,null]],["m","p",[["BOOL"],null,null]]]]"#;
    let ns = parse_vmod_json(json).expect("parse failed");
    match prop(&ns, "o") {
        Type::Func(f) => match f.ret.as_deref() {
            Some(Type::Obj(o)) => {
                assert_eq!(o.properties.len(), 1);
                match prop(o, "p") {
                    Type::Func(m) => assert_eq!(m.ret.as_deref(), Some(&Type::Bool)),
                    other => panic!("expected a method, got {:?}", other),
                }
            }
            other => panic!("expected an object return, got {:?}", other),
        },
        other => panic!("expected a function, got {:?}", other),
    }
}
