use builder::emit::{companion_source, derive_builder, required_message_text};
use builder::classify::{FieldKind, FieldPlan, GenError};
use builder::syntax::{
    AttrSyntax, BodySyntax, DeclSyntax, FieldSyntax, GenericArgSyntax, LitSyntax, MetaSyntax,
    NestedSyntax, PathSyntax, TypeSyntax,
};

fn path(segs: &[&str]) -> PathSyntax {
    PathSyntax { segments: segs.iter().map(|s| s.to_string()).collect() }
}

fn ty(outer: &str, inner: Option<&str>) -> TypeSyntax {
    TypeSyntax::Path {
        path: path(&[outer]),
        first_arg: inner.map(|i| GenericArgSyntax::Type(i.to_string())),
        text: match inner {
            Some(i) => format!("{}<{}>", outer, i),
            None => outer.to_string(),
        },
    }
}

fn each_attr(name: &str) -> AttrSyntax {
    AttrSyntax {
        path: path(&["builder"]),
        meta: MetaSyntax::List(vec![NestedSyntax::NameValue(
            path(&["each"]),
            LitSyntax::Str(name.to_string()),
        )]),
    }
}

const CMD_TEXT: &str = "pub struct CmdBuilder {
    name: ::core::option::Option<String>,
    env: ::core::option::Option<String>,
    args: Vec<String>,
}
impl Cmd {
    pub fn builder() -> CmdBuilder {
        CmdBuilder {
            name: ::core::option::Option::None,
            env: ::core::option::Option::None,
            args: ::core::default::Default::default(),
        }
    }
}
impl CmdBuilder {
    pub fn name(&mut self, value: String) -> &mut Self {
        self.name = ::core::option::Option::Some(value);
        self
    }
    pub fn env(&mut self, value: String) -> &mut Self {
        self.env = ::core::option::Option::Some(value);
        self
    }
    pub fn arg(&mut self, value: String) -> &mut Self {
        self.args.push(value);
        self
    }
    pub fn build(&mut self) -> ::core::result::Result<Cmd, ::std::boxed::Box<dyn ::std::error::Error>> {
        if self.name.is_none() {
            return ::core::result::Result::Err(::std::convert::From::from(\"name is required.\"));
        }
        ::core::result::Result::Ok(Cmd {
            name: self.name.clone().unwrap(),
            env: self.env.clone(),
            args: self.args.clone(),
        })
    }
}
";

#[test]
fn companion_text_for_three_kinds_of_field() {
    let d = DeclSyntax {
        name: "Cmd".to_string(),
        body: BodySyntax::Named(vec![
            FieldSyntax { name: "name".to_string(), ty: ty("String", None), attrs: vec![] },
            FieldSyntax {
                name: "env".to_string(),
                ty: ty("Option", Some("String")),
                attrs: vec![],
            },
            FieldSyntax {
                name: "args".to_string(),
                ty: ty("Vec", Some("String")),
                attrs: vec![each_attr("arg")],
            },
        ]),
    };
    assert_eq!(derive_builder(&d), Ok(CMD_TEXT.to_string()));
}

#[test]
fn companion_text_without_fields() {
    let text = companion_source("Unit", &vec![]);
    assert_eq!(
        text,
        "pub struct UnitBuilder {\n}\nimpl Unit {\n    pub fn builder() -> UnitBuilder {\n        UnitBuilder {\n        }\n    }\n}\nimpl UnitBuilder {\n    pub fn build(&mut self) -> ::core::result::Result<Unit, ::std::boxed::Box<dyn ::std::error::Error>> {\n        ::core::result::Result::Ok(Unit {\n        })\n    }\n}\n"
    );
}

#[test]
fn every_mandatory_field_is_checked_in_order() {
    let plans = vec![
        FieldPlan { name: "a".to_string(), kind: FieldKind::Mandatory { ty: "u8".to_string() } },
        FieldPlan { name: "b".to_string(), kind: FieldKind::Optional { inner: "u8".to_string() } },
        FieldPlan { name: "c".to_string(), kind: FieldKind::Mandatory { ty: "u8".to_string() } },
    ];
    let text = companion_source("S", &plans);
    let a = text.find("From::from(\"a is required.\")").unwrap();
    let c = text.find("From::from(\"c is required.\")").unwrap();
    assert!(a < c);
    assert!(!text.contains("b is required."));
    assert!(text.contains("    b: ::core::option::Option<u8>,\n"));
    assert!(text.contains("            b: self.b.clone(),\n"));
    assert!(text.contains("            c: self.c.clone().unwrap(),\n"));
}

#[test]
fn generation_errors_pass_through() {
    let d = DeclSyntax { name: "E".to_string(), body: BodySyntax::NotStruct };
    assert_eq!(derive_builder(&d), Err(GenError::NotStruct));
}

#[test]
fn required_message_names_the_field() {
    assert_eq!(required_message_text("executable"), "executable is required.");
}
