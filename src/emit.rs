//! The source text of the companion builder.
use vstd::prelude::*;
use crate::classify::{
    decl_plan, plan_declaration, plans_model, FieldKind, FieldPlan, GenError, KindModel, PlanModel,
};
use crate::syntax::DeclSyntax;

verus! {

/// The message of a build that lacks the mandatory field `name`.
pub open spec fn required_message(name: Seq<char>) -> Seq<char> {
    name + " is required."@
}

/// The message of a build that lacks the mandatory field `name`.
pub fn required_message_text(name: &str) -> (r: String)
    ensures
        r@ == required_message(name@),
{
    let mut r = String::from_str(name);
    r.append(" is required.");
    r
}

/// The per-field pieces of the companion's text.
#[derive(Clone, Copy, PartialEq, Eq)]
pub enum Part {
    /// The field's slot in the companion struct.
    Slot,
    /// The slot's starting value in `builder()`.
    Init,
    /// The setter, or for a repeated field the accumulator.
    Setter,
    /// The presence check in `build()`.
    Check,
    /// The field's value in the struct that `build()` returns.
    Take,
}

/// The type stored in a field's slot.
pub open spec fn slot_type(k: KindModel) -> Seq<char> {
    match k {
        KindModel::Mandatory { ty } => "::core::option::Option<"@ + ty + ">"@,
        KindModel::Optional { inner } => "::core::option::Option<"@ + inner + ">"@,
        KindModel::Repeated { ty, .. } => ty,
    }
}

/// The text of one piece for one field.
pub open spec fn part_text(part: Part, p: PlanModel) -> Seq<char> {
    let n = p.name;
    match part {
        Part::Slot => "    "@ + n + ": "@ + slot_type(p.kind) + ",\n"@,
        Part::Init => match p.kind {
            KindModel::Repeated { .. } => "            "@ + n
                + ": ::core::default::Default::default(),\n"@,
            _ => "            "@ + n + ": ::core::option::Option::None,\n"@,
        },
        Part::Setter => match p.kind {
            KindModel::Repeated { elem, method, .. } => "    pub fn "@ + method
                + "(&mut self, value: "@ + elem + ") -> &mut Self {\n        self."@ + n
                + ".push(value);\n        self\n    }\n"@,
            KindModel::Mandatory { ty } => "    pub fn "@ + n + "(&mut self, value: "@ + ty
                + ") -> &mut Self {\n        self."@ + n
                + " = ::core::option::Option::Some(value);\n        self\n    }\n"@,
            KindModel::Optional { inner } => "    pub fn "@ + n + "(&mut self, value: "@ + inner
                + ") -> &mut Self {\n        self."@ + n
                + " = ::core::option::Option::Some(value);\n        self\n    }\n"@,
        },
        Part::Check => match p.kind {
            KindModel::Mandatory { .. } => "        if self."@ + n
                + ".is_none() {\n            return ::core::result::Result::Err(::std::convert::From::from(\""@
                + required_message(n) + "\"));\n        }\n"@,
            _ => Seq::empty(),
        },
        Part::Take => match p.kind {
            KindModel::Mandatory { .. } => "            "@ + n + ": self."@ + n
                + ".clone().unwrap(),\n"@,
            _ => "            "@ + n + ": self."@ + n + ".clone(),\n"@,
        },
    }
}

/// One piece for every field, in declaration order.
pub open spec fn parts_text(part: Part, ps: Seq<PlanModel>) -> Seq<char>
    decreases ps.len(),
{
    if ps.len() == 0 {
        Seq::empty()
    } else {
        parts_text(part, ps.drop_last()) + part_text(part, ps.last())
    }
}

/// The whole companion for the struct `name` with the fields `ps`: the
/// `<name>Builder` struct, `<name>::builder()`, one setter or accumulator per
/// field, and `build()`, which fails on the first unset mandatory field in
/// declaration order.
pub open spec fn companion_text(name: Seq<char>, ps: Seq<PlanModel>) -> Seq<char> {
    "pub struct "@ + name + "Builder {\n"@ + parts_text(Part::Slot, ps) + "}\nimpl "@ + name
        + " {\n    pub fn builder() -> "@ + name + "Builder {\n        "@ + name + "Builder {\n"@
        + parts_text(Part::Init, ps) + "        }\n    }\n}\nimpl "@ + name + "Builder {\n"@
        + parts_text(Part::Setter, ps)
        + "    pub fn build(&mut self) -> ::core::result::Result<"@ + name
        + ", ::std::boxed::Box<dyn ::std::error::Error>> {\n"@ + parts_text(Part::Check, ps)
        + "        ::core::result::Result::Ok("@ + name + " {\n"@ + parts_text(Part::Take, ps)
        + "        })\n    }\n}\n"@
}

/// Appends [`part_text`] of one field.
fn push_part(out: &mut String, part: Part, p: &FieldPlan)
    ensures
        final(out)@ == old(out)@ + part_text(part, p@),
{
    let ghost start = out@;
    let n = p.name.as_str();
    match part {
        Part::Slot => {
            out.append("    ");
            out.append(n);
            out.append(": ");
            match &p.kind {
                FieldKind::Mandatory { ty } => {
                    out.append("::core::option::Option<");
                    out.append(ty.as_str());
                    out.append(">");
                },
                FieldKind::Optional { inner } => {
                    out.append("::core::option::Option<");
                    out.append(inner.as_str());
                    out.append(">");
                },
                FieldKind::Repeated { ty, .. } => {
                    out.append(ty.as_str());
                },
            }
            out.append(",\n");
        },
        Part::Init => {
            out.append("            ");
            out.append(n);
            match &p.kind {
                FieldKind::Repeated { .. } => {
                    out.append(": ::core::default::Default::default(),\n");
                },
                _ => {
                    out.append(": ::core::option::Option::None,\n");
                },
            }
        },
        Part::Setter => {
            match &p.kind {
                FieldKind::Repeated { elem, method, .. } => {
                    out.append("    pub fn ");
                    out.append(method.as_str());
                    out.append("(&mut self, value: ");
                    out.append(elem.as_str());
                    out.append(") -> &mut Self {\n        self.");
                    out.append(n);
                    out.append(".push(value);\n        self\n    }\n");
                },
                FieldKind::Mandatory { ty } => {
                    out.append("    pub fn ");
                    out.append(n);
                    out.append("(&mut self, value: ");
                    out.append(ty.as_str());
                    out.append(") -> &mut Self {\n        self.");
                    out.append(n);
                    out.append(" = ::core::option::Option::Some(value);\n        self\n    }\n");
                },
                FieldKind::Optional { inner } => {
                    out.append("    pub fn ");
                    out.append(n);
                    out.append("(&mut self, value: ");
                    out.append(inner.as_str());
                    out.append(") -> &mut Self {\n        self.");
                    out.append(n);
                    out.append(" = ::core::option::Option::Some(value);\n        self\n    }\n");
                },
            }
        },
        Part::Check => {
            match &p.kind {
                FieldKind::Mandatory { .. } => {
                    out.append("        if self.");
                    out.append(n);
                    out.append(
                        ".is_none() {\n            return ::core::result::Result::Err(::std::convert::From::from(\"",
                    );
                    let msg = required_message_text(n);
                    out.append(msg.as_str());
                    out.append("\"));\n        }\n");
                },
                _ => {},
            }
        },
        Part::Take => {
            out.append("            ");
            out.append(n);
            out.append(": self.");
            out.append(n);
            match &p.kind {
                FieldKind::Mandatory { .. } => {
                    out.append(".clone().unwrap(),\n");
                },
                _ => {
                    out.append(".clone(),\n");
                },
            }
        },
    }
    assert(out@ =~= start + part_text(part, p@));
}

/// Appends [`parts_text`] of all fields.
fn push_parts(out: &mut String, part: Part, plans: &Vec<FieldPlan>)
    ensures
        final(out)@ == old(out)@ + parts_text(part, plans_model(plans@)),
{
    let ghost start = out@;
    let ghost ps = plans_model(plans@);
    let mut i: usize = 0;
    assert(ps.take(0) =~= Seq::<PlanModel>::empty());
    assert(start =~= start + parts_text(part, ps.take(0)));
    while i < plans.len()
        invariant
            i <= plans@.len(),
            ps == plans_model(plans@),
            out@ == start + parts_text(part, ps.take(i as int)),
        decreases plans@.len() - i,
    {
        push_part(out, part, &plans[i]);
        assert(ps.take(i + 1).drop_last() =~= ps.take(i as int));
        assert(out@ =~= start + parts_text(part, ps.take(i + 1)));
        i += 1;
    }
    assert(ps.take(plans@.len() as int) =~= ps);
}

/// The companion's text for the struct `name` with the fields `plans`.
pub fn companion_source(name: &str, plans: &Vec<FieldPlan>) -> (r: String)
    ensures
        r@ == companion_text(name@, plans_model(plans@)),
{
    let mut out = String::new();
    out.append("pub struct ");
    out.append(name);
    out.append("Builder {\n");
    push_parts(&mut out, Part::Slot, plans);
    out.append("}\nimpl ");
    out.append(name);
    out.append(" {\n    pub fn builder() -> ");
    out.append(name);
    out.append("Builder {\n        ");
    out.append(name);
    out.append("Builder {\n");
    push_parts(&mut out, Part::Init, plans);
    out.append("        }\n    }\n}\nimpl ");
    out.append(name);
    out.append("Builder {\n");
    push_parts(&mut out, Part::Setter, plans);
    out.append("    pub fn build(&mut self) -> ::core::result::Result<");
    out.append(name);
    out.append(", ::std::boxed::Box<dyn ::std::error::Error>> {\n");
    push_parts(&mut out, Part::Check, plans);
    out.append("        ::core::result::Result::Ok(");
    out.append(name);
    out.append(" {\n");
    push_parts(&mut out, Part::Take, plans);
    out.append("        })\n    }\n}\n");
    assert(out@ =~= companion_text(name@, plans_model(plans@)));
    out
}

/// The companion builder's source text for a declaration, or why there is
/// none: exactly the declaration's plan written out by [`companion_text`].
pub fn derive_builder(decl: &DeclSyntax) -> (r: Result<String, GenError>)
    ensures
        match (r, decl_plan(*decl)) {
            (Ok(s), Ok(ps)) => s@ == companion_text(decl.name@, ps),
            (Err(e), Err(m)) => e@ == m,
            _ => false,
        },
{
    match plan_declaration(decl) {
        Ok(plans) => Ok(companion_source(decl.name.as_str(), &plans)),
        Err(e) => Err(e),
    }
}

} // verus!
