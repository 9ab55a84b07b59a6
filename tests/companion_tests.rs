use builder::classify::{plan_declaration, FieldKind, FieldPlan};
use builder::companion::{Companion, FieldValue};
use builder::syntax::{
    AttrSyntax, BodySyntax, DeclSyntax, FieldSyntax, GenericArgSyntax, LitSyntax, MetaSyntax,
    NestedSyntax, PathSyntax, TypeSyntax,
};

fn s(x: &str) -> String {
    x.to_string()
}

fn path(segs: &[&str]) -> PathSyntax {
    PathSyntax { segments: segs.iter().map(|x| x.to_string()).collect() }
}

fn wrapped(outer: &str, inner: &str) -> TypeSyntax {
    TypeSyntax::Path {
        path: path(&[outer]),
        first_arg: Some(GenericArgSyntax::Type(inner.to_string())),
        text: format!("{}<{}>", outer, inner),
    }
}

fn command_plans() -> Vec<FieldPlan> {
    let d = DeclSyntax {
        name: s("Command"),
        body: BodySyntax::Named(vec![
            FieldSyntax {
                name: s("executable"),
                ty: TypeSyntax::Path { path: path(&["String"]), first_arg: None, text: s("String") },
                attrs: vec![],
            },
            FieldSyntax {
                name: s("args"),
                ty: wrapped("Vec", "String"),
                attrs: vec![AttrSyntax {
                    path: path(&["builder"]),
                    meta: MetaSyntax::List(vec![NestedSyntax::NameValue(
                        path(&["each"]),
                        LitSyntax::Str(s("arg")),
                    )]),
                }],
            },
            FieldSyntax { name: s("env"), ty: wrapped("Option", "String"), attrs: vec![] },
        ]),
    };
    plan_declaration(&d).unwrap()
}

fn mandatory(names: &[&str]) -> Vec<FieldPlan> {
    names
        .iter()
        .map(|n| FieldPlan { name: s(n), kind: FieldKind::Mandatory { ty: s("u32") } })
        .collect()
}

#[test]
fn command_scenario_builds() {
    let mut c: Companion<String> = Companion::new(command_plans());
    c.set("executable", s("ls")).push("arg", s("-l")).push("arg", s("-a"));
    let r = c.build().unwrap();
    assert_eq!(
        r,
        vec![
            FieldValue::Plain(s("ls")),
            FieldValue::Repeated(vec![s("-l"), s("-a")]),
            FieldValue::Optional(None),
        ]
    );
}

#[test]
fn command_scenario_without_executable_fails() {
    let mut c: Companion<String> = Companion::new(command_plans());
    c.push("arg", s("-l"));
    let e = c.build().unwrap_err();
    assert_eq!(e.field, "executable");
    assert_eq!(e.message(), "executable is required.");
}

#[test]
fn all_mandatory_set_builds_the_values() {
    let mut c: Companion<u32> = Companion::new(mandatory(&["a", "b", "c"]));
    c.set("a", 1).set("b", 2).set("c", 3);
    assert_eq!(
        c.build(),
        Ok(vec![FieldValue::Plain(1), FieldValue::Plain(2), FieldValue::Plain(3)])
    );
}

#[test]
fn optional_left_unset_is_absent_and_set_is_present() {
    let mut c: Companion<String> = Companion::new(command_plans());
    c.set("executable", s("ls"));
    assert_eq!(
        c.build().unwrap()[2],
        FieldValue::Optional(None)
    );
    let mut c: Companion<String> = Companion::new(command_plans());
    c.set("executable", s("ls")).set("env", s("PATH=/bin"));
    assert_eq!(c.build().unwrap()[2], FieldValue::Optional(Some(s("PATH=/bin"))));
}

#[test]
fn appended_values_keep_call_order() {
    let mut c: Companion<String> = Companion::new(command_plans());
    c.set("executable", s("ls"));
    for v in ["x", "y", "z", "y"] {
        c.push("arg", s(v));
    }
    assert_eq!(
        c.build().unwrap()[1],
        FieldValue::Repeated(vec![s("x"), s("y"), s("z"), s("y")])
    );
}

#[test]
fn no_appends_give_an_empty_sequence() {
    let mut c: Companion<String> = Companion::new(command_plans());
    c.set("executable", s("ls"));
    assert_eq!(c.build().unwrap()[1], FieldValue::Repeated(vec![]));
}

#[test]
fn setter_order_does_not_matter() {
    let orders: [[&str; 3]; 3] = [["a", "b", "c"], ["c", "a", "b"], ["b", "c", "a"]];
    let mut results = vec![];
    for order in orders {
        let mut c: Companion<u32> = Companion::new(mandatory(&["a", "b", "c"]));
        for name in order {
            let v = match name {
                "a" => 10,
                "b" => 20,
                _ => 30,
            };
            c.set(name, v);
        }
        results.push(c.build());
    }
    assert_eq!(results[0], results[1]);
    assert_eq!(results[0], results[2]);
    assert_eq!(
        results[0],
        Ok(vec![FieldValue::Plain(10), FieldValue::Plain(20), FieldValue::Plain(30)])
    );
}

#[test]
fn setting_again_overwrites() {
    let mut c: Companion<u32> = Companion::new(mandatory(&["a"]));
    c.set("a", 1).set("a", 2);
    assert_eq!(c.build(), Ok(vec![FieldValue::Plain(2)]));
}

#[test]
fn omitting_one_mandatory_field_names_it() {
    let mut c: Companion<u32> = Companion::new(mandatory(&["a", "b", "c"]));
    c.set("a", 1).set("c", 3);
    assert_eq!(c.build().unwrap_err().field, "b");
}

#[test]
fn omitting_all_mandatory_fields_names_the_first() {
    let c: Companion<u32> = Companion::new(mandatory(&["a", "b", "c"]));
    let e = c.build().unwrap_err();
    assert_eq!(e.field, "a");
    assert_eq!(e.message(), "a is required.");
}

#[test]
fn unknown_names_change_nothing() {
    let mut c: Companion<String> = Companion::new(command_plans());
    c.set("executable", s("ls")).set("arg", s("no setter")).push("args", s("no accumulator"));
    c.push("executable", s("not repeated"));
    assert_eq!(
        c.build().unwrap(),
        vec![
            FieldValue::Plain(s("ls")),
            FieldValue::Repeated(vec![]),
            FieldValue::Optional(None),
        ]
    );
}

#[test]
fn fresh_companion_without_mandatory_fields_builds() {
    let plans = vec![FieldPlan { name: s("o"), kind: FieldKind::Optional { inner: s("u8") } }];
    let c: Companion<u8> = Companion::new(plans);
    assert_eq!(c.plans().len(), 1);
    assert_eq!(c.build(), Ok(vec![FieldValue::Optional(None)]));
}
