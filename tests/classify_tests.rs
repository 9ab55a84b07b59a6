use builder::classify::{
    classify_field, detect_option_inner_type, is_option, is_target_path_ident, plan_declaration,
    FieldKind, FieldPlan, GenError,
};
use builder::syntax::{
    AttrSyntax, BodySyntax, DeclSyntax, FieldSyntax, GenericArgSyntax, LitSyntax, MetaSyntax,
    NestedSyntax, PathSyntax, TypeSyntax,
};
use builder::text::{is_identifier, same_text};

fn path(segs: &[&str]) -> PathSyntax {
    PathSyntax { segments: segs.iter().map(|s| s.to_string()).collect() }
}

fn plain_ty(name: &str) -> TypeSyntax {
    TypeSyntax::Path { path: path(&[name]), first_arg: None, text: name.to_string() }
}

fn wrapped(outer: &str, inner: &str) -> TypeSyntax {
    TypeSyntax::Path {
        path: path(&[outer]),
        first_arg: Some(GenericArgSyntax::Type(inner.to_string())),
        text: format!("{}<{}>", outer, inner),
    }
}

fn builder_attr(nested: Vec<NestedSyntax>) -> AttrSyntax {
    AttrSyntax { path: path(&["builder"]), meta: MetaSyntax::List(nested) }
}

fn each_attr(name: &str) -> AttrSyntax {
    builder_attr(vec![NestedSyntax::NameValue(path(&["each"]), LitSyntax::Str(name.to_string()))])
}

fn field(name: &str, ty: TypeSyntax, attrs: Vec<AttrSyntax>) -> FieldSyntax {
    FieldSyntax { name: name.to_string(), ty, attrs }
}

fn decl(name: &str, fields: Vec<FieldSyntax>) -> DeclSyntax {
    DeclSyntax { name: name.to_string(), body: BodySyntax::Named(fields) }
}

#[test]
fn path_ident_is_read_from_the_first_segment() {
    assert!(is_target_path_ident(&path(&["builder"]), "builder"));
    assert!(is_target_path_ident(&path(&["builder", "each"]), "builder"));
    assert!(!is_target_path_ident(&path(&["serde", "builder"]), "builder"));
    assert!(!is_target_path_ident(&path(&[]), "builder"));
    assert!(!is_target_path_ident(&path(&["build"]), "builder"));
}

#[test]
fn option_is_recognised_by_its_leading_name() {
    assert!(is_option(&wrapped("Option", "String")));
    assert!(!is_option(&wrapped("Vec", "String")));
    assert!(!is_option(&plain_ty("String")));
    assert!(!is_option(&TypeSyntax::Other { text: "&str".to_string() }));
}

#[test]
fn inner_type_is_the_first_type_argument() {
    assert_eq!(detect_option_inner_type(&wrapped("Option", "u32")), Some("u32".to_string()));
    assert_eq!(detect_option_inner_type(&wrapped("Vec", "String")), Some("String".to_string()));
    assert_eq!(detect_option_inner_type(&plain_ty("String")), None);
    let lifetime = TypeSyntax::Path {
        path: path(&["Cow"]),
        first_arg: Some(GenericArgSyntax::Other),
        text: "Cow<'a, str>".to_string(),
    };
    assert_eq!(detect_option_inner_type(&lifetime), None);
}

#[test]
fn fields_are_classified_by_kind() {
    assert_eq!(
        classify_field(&field("executable", plain_ty("String"), vec![])),
        Ok(FieldKind::Mandatory { ty: "String".to_string() })
    );
    assert_eq!(
        classify_field(&field("env", wrapped("Option", "String"), vec![])),
        Ok(FieldKind::Optional { inner: "String".to_string() })
    );
    assert_eq!(
        classify_field(&field("args", wrapped("Vec", "String"), vec![each_attr("arg")])),
        Ok(FieldKind::Repeated {
            ty: "Vec<String>".to_string(),
            elem: "String".to_string(),
            method: "arg".to_string(),
        })
    );
}

#[test]
fn each_attribute_takes_precedence_over_option() {
    assert_eq!(
        classify_field(&field("xs", wrapped("Option", "String"), vec![each_attr("x")])),
        Ok(FieldKind::Repeated {
            ty: "Option<String>".to_string(),
            elem: "String".to_string(),
            method: "x".to_string(),
        })
    );
}

#[test]
fn other_attributes_are_not_read() {
    let doc = AttrSyntax {
        path: path(&["doc"]),
        meta: MetaSyntax::NameValue(LitSyntax::Str(" text".to_string())),
    };
    let odd = AttrSyntax { path: path(&["serde"]), meta: MetaSyntax::Unparsable };
    assert_eq!(
        classify_field(&field("a", plain_ty("u8"), vec![doc, odd])),
        Ok(FieldKind::Mandatory { ty: "u8".to_string() })
    );
}

#[test]
fn malformed_builder_attributes_are_rejected() {
    let bad = |a: AttrSyntax| classify_field(&field("args", wrapped("Vec", "String"), vec![a]));
    let err = Err(GenError::MalformedAttribute { field: "args".to_string() });
    assert_eq!(bad(AttrSyntax { path: path(&["builder"]), meta: MetaSyntax::Path }), err);
    assert_eq!(bad(AttrSyntax { path: path(&["builder"]), meta: MetaSyntax::Unparsable }), err);
    assert_eq!(
        bad(AttrSyntax {
            path: path(&["builder"]),
            meta: MetaSyntax::NameValue(LitSyntax::Str("arg".to_string())),
        }),
        err
    );
    assert_eq!(bad(builder_attr(vec![])), err);
    assert_eq!(
        bad(builder_attr(vec![NestedSyntax::NameValue(
            path(&["eac"]),
            LitSyntax::Str("arg".to_string())
        )])),
        err
    );
    assert_eq!(
        bad(builder_attr(vec![NestedSyntax::NameValue(path(&["each"]), LitSyntax::Other)])),
        err
    );
    assert_eq!(bad(builder_attr(vec![NestedSyntax::Path(path(&["each"]))])), err);
    assert_eq!(bad(builder_attr(vec![NestedSyntax::List(path(&["each"]))])), err);
    assert_eq!(bad(builder_attr(vec![NestedSyntax::Lit(LitSyntax::Str("arg".to_string()))])), err);
    assert_eq!(bad(each_attr("not an ident")), err);
    assert_eq!(bad(each_attr("")), err);
    assert_eq!(bad(each_attr("_")), err);
    assert_eq!(bad(each_attr("1arg")), err);
    assert_eq!(
        bad(builder_attr(vec![
            NestedSyntax::NameValue(path(&["each"]), LitSyntax::Str("arg".to_string())),
            NestedSyntax::Path(path(&["extra"])),
        ])),
        err
    );
}

#[test]
fn a_second_builder_attribute_is_rejected() {
    assert_eq!(
        classify_field(&field(
            "args",
            wrapped("Vec", "String"),
            vec![each_attr("arg"), each_attr("other")]
        )),
        Err(GenError::DuplicateAttribute { field: "args".to_string() })
    );
}

#[test]
fn a_type_without_argument_is_rejected() {
    assert_eq!(
        classify_field(&field("args", plain_ty("String"), vec![each_attr("arg")])),
        Err(GenError::MissingTypeArgument { field: "args".to_string() })
    );
    assert_eq!(
        classify_field(&field("env", plain_ty("Option"), vec![])),
        Err(GenError::MissingTypeArgument { field: "env".to_string() })
    );
}

#[test]
fn declarations_other_than_named_structs_are_rejected() {
    let e = DeclSyntax { name: "E".to_string(), body: BodySyntax::NotStruct };
    assert_eq!(plan_declaration(&e), Err(GenError::NotStruct));
    let t = DeclSyntax { name: "T".to_string(), body: BodySyntax::Unnamed };
    assert_eq!(plan_declaration(&t), Err(GenError::UnnamedFields));
}

#[test]
fn repeated_field_names_are_rejected() {
    let d = decl(
        "S",
        vec![
            field("a", plain_ty("u8"), vec![]),
            field("b", plain_ty("u8"), vec![]),
            field("a", plain_ty("u16"), vec![]),
        ],
    );
    assert_eq!(plan_declaration(&d), Err(GenError::DuplicateField { field: "a".to_string() }));
}

#[test]
fn the_first_faulty_field_is_reported() {
    let d = decl(
        "S",
        vec![
            field("a", plain_ty("u8"), vec![each_attr("x")]),
            field("b", plain_ty("u8"), vec![AttrSyntax {
                path: path(&["builder"]),
                meta: MetaSyntax::Path,
            }]),
        ],
    );
    assert_eq!(plan_declaration(&d), Err(GenError::MissingTypeArgument { field: "a".to_string() }));
}

#[test]
fn plans_follow_declaration_order() {
    let d = decl(
        "Command",
        vec![
            field("executable", plain_ty("String"), vec![]),
            field("args", wrapped("Vec", "String"), vec![each_attr("arg")]),
            field("env", wrapped("Option", "String"), vec![]),
        ],
    );
    assert_eq!(
        plan_declaration(&d),
        Ok(vec![
            FieldPlan {
                name: "executable".to_string(),
                kind: FieldKind::Mandatory { ty: "String".to_string() },
            },
            FieldPlan {
                name: "args".to_string(),
                kind: FieldKind::Repeated {
                    ty: "Vec<String>".to_string(),
                    elem: "String".to_string(),
                    method: "arg".to_string(),
                },
            },
            FieldPlan {
                name: "env".to_string(),
                kind: FieldKind::Optional { inner: "String".to_string() },
            },
        ])
    );
    assert_eq!(plan_declaration(&decl("Empty", vec![])), Ok(vec![]));
}

#[test]
fn text_helpers() {
    assert!(same_text("abc", "abc"));
    assert!(!same_text("abc", "abd"));
    assert!(!same_text("abc", "ab"));
    assert!(same_text("", ""));
    assert!(is_identifier("push_x"));
    assert!(is_identifier("_x1"));
    assert!(!is_identifier("x-y"));
    assert!(!is_identifier("9"));
}
