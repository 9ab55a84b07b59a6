//! Sorting a declaration's fields into mandatory, optional and repeated ones.
use vstd::prelude::*;
use crate::syntax::{
    AttrSyntax, BodySyntax, DeclSyntax, FieldSyntax, GenericArgSyntax, LitSyntax, MetaSyntax,
    NestedSyntax, PathSyntax, TypeSyntax,
};
use crate::text::{is_ident_text, is_identifier, same_text};

verus! {

/// How one field is filled in by the companion builder.
#[derive(Clone, Debug, PartialEq, Eq)]
pub enum FieldKind {
    /// No optionality wrapper: the field must be set before building.
    Mandatory { ty: String },
    /// Declared `Option<inner>`: set with an `inner`, absent by default.
    Optional { inner: String },
    /// Marked `builder(each = "method")`: filled one `elem` at a time.
    Repeated { ty: String, elem: String, method: String },
}

/// One field of the declaration with its classification.
#[derive(Clone, Debug, PartialEq, Eq)]
pub struct FieldPlan {
    pub name: String,
    pub kind: FieldKind,
}

/// [`FieldKind`] over character sequences.
pub enum KindModel {
    Mandatory { ty: Seq<char> },
    Optional { inner: Seq<char> },
    Repeated { ty: Seq<char>, elem: Seq<char>, method: Seq<char> },
}

/// [`FieldPlan`] over character sequences.
pub struct PlanModel {
    pub name: Seq<char>,
    pub kind: KindModel,
}

impl View for FieldKind {
    type V = KindModel;

    open spec fn view(&self) -> KindModel {
        match self {
            FieldKind::Mandatory { ty } => KindModel::Mandatory { ty: ty@ },
            FieldKind::Optional { inner } => KindModel::Optional { inner: inner@ },
            FieldKind::Repeated { ty, elem, method } => KindModel::Repeated {
                ty: ty@,
                elem: elem@,
                method: method@,
            },
        }
    }
}

impl View for FieldPlan {
    type V = PlanModel;

    open spec fn view(&self) -> PlanModel {
        PlanModel { name: self.name@, kind: self.kind@ }
    }
}

/// The models of a sequence of plans.
pub open spec fn plans_model(v: Seq<FieldPlan>) -> Seq<PlanModel> {
    v.map_values(|p: FieldPlan| p@)
}

/// Why no builder can be generated for a declaration.
#[derive(Clone, Debug, PartialEq, Eq)]
pub enum GenError {
    /// The declaration is an enum or a union.
    NotStruct,
    /// The struct's fields have no names.
    UnnamedFields,
    /// Two fields share this name.
    DuplicateField { field: String },
    /// This field's `builder` attribute is not `builder(each = "<identifier>")`.
    MalformedAttribute { field: String },
    /// This field has more than one `builder` attribute.
    DuplicateAttribute { field: String },
    /// This field's type has no type argument to take the value type from.
    MissingTypeArgument { field: String },
}

/// [`GenError`] over character sequences.
pub enum GenErrorModel {
    NotStruct,
    UnnamedFields,
    DuplicateField { field: Seq<char> },
    MalformedAttribute { field: Seq<char> },
    DuplicateAttribute { field: Seq<char> },
    MissingTypeArgument { field: Seq<char> },
}

impl View for GenError {
    type V = GenErrorModel;

    open spec fn view(&self) -> GenErrorModel {
        match self {
            GenError::NotStruct => GenErrorModel::NotStruct,
            GenError::UnnamedFields => GenErrorModel::UnnamedFields,
            GenError::DuplicateField { field } => GenErrorModel::DuplicateField { field: field@ },
            GenError::MalformedAttribute { field } => GenErrorModel::MalformedAttribute {
                field: field@,
            },
            GenError::DuplicateAttribute { field } => GenErrorModel::DuplicateAttribute {
                field: field@,
            },
            GenError::MissingTypeArgument { field } => GenErrorModel::MissingTypeArgument {
                field: field@,
            },
        }
    }
}

/// Whether the path's first segment is `target`.
pub open spec fn path_starts_with(path: PathSyntax, target: Seq<char>) -> bool {
    path.segments@.len() > 0 && path.segments@[0]@ == target
}

/// Whether the path's first segment is `target`.
pub fn is_target_path_ident(path: &PathSyntax, target: &str) -> (r: bool)
    ensures
        r == path_starts_with(*path, target@),
{
    if path.segments.len() == 0 {
        false
    } else {
        same_text(path.segments[0].as_str(), target)
    }
}

/// Whether the type is a path type whose first segment is `Option`.
pub open spec fn is_option_type(ty: TypeSyntax) -> bool {
    match ty {
        TypeSyntax::Path { path, .. } => path_starts_with(path, "Option"@),
        TypeSyntax::Other { .. } => false,
    }
}

/// Whether the type is written as an `Option`.
pub fn is_option(ty: &TypeSyntax) -> (r: bool)
    ensures
        r == is_option_type(*ty),
{
    match ty {
        TypeSyntax::Path { path, .. } => is_target_path_ident(path, "Option"),
        TypeSyntax::Other { .. } => false,
    }
}

/// The text of the type's first type argument, as in `Option<T>` or `Vec<T>`.
pub open spec fn first_type_arg(ty: TypeSyntax) -> Option<Seq<char>> {
    match ty {
        TypeSyntax::Path { first_arg: Some(GenericArgSyntax::Type(t)), .. } => Some(t@),
        _ => None,
    }
}

/// The type argument of a one-parameter wrapper such as `Option<T>` or
/// `Vec<T>`, or `None` where the type has no type argument.
pub fn detect_option_inner_type(ty: &TypeSyntax) -> (r: Option<String>)
    ensures
        r matches Some(t) ==> first_type_arg(*ty) == Some(t@),
        r is None ==> first_type_arg(*ty) is None,
{
    match ty {
        TypeSyntax::Path { first_arg: Some(GenericArgSyntax::Type(t)), .. } => Some(t.clone()),
        _ => None,
    }
}

/// The method name that a well-formed `builder` attribute gives, or `None`
/// where the attribute is not exactly `builder(each = "<identifier>")`.
pub open spec fn each_name(a: AttrSyntax) -> Option<Seq<char>> {
    match a.meta {
        MetaSyntax::List(nested) => if nested@.len() == 1 {
            match nested@[0] {
                NestedSyntax::NameValue(p, LitSyntax::Str(s)) => if path_starts_with(p, "each"@)
                    && is_ident_text(s@) {
                    Some(s@)
                } else {
                    None
                },
                _ => None,
            }
        } else {
            None
        },
        _ => None,
    }
}

/// What is wrong with a field's `builder` attributes.
#[derive(Clone, Debug, PartialEq, Eq)]
pub enum AttrFault {
    Malformed,
    Duplicate,
}

/// The accumulator name that a field's attributes give: `Ok(None)` without
/// a `builder` attribute, `Ok(Some(name))` with one well-formed one. Other
/// attributes are not read.
pub open spec fn annotation(attrs: Seq<AttrSyntax>) -> Result<Option<Seq<char>>, AttrFault>
    decreases attrs.len(),
{
    if attrs.len() == 0 {
        Ok(None)
    } else {
        let a = attrs.last();
        match annotation(attrs.drop_last()) {
            Err(e) => Err(e),
            Ok(prev) => if !path_starts_with(a.path, "builder"@) {
                Ok(prev)
            } else {
                match each_name(a) {
                    None => Err(AttrFault::Malformed),
                    Some(m) => if prev is Some {
                        Err(AttrFault::Duplicate)
                    } else {
                        Ok(Some(m))
                    },
                }
            },
        }
    }
}

/// The method name of one attribute, as [`each_name`] states.
fn attr_each_name(a: &AttrSyntax) -> (r: Option<String>)
    ensures
        r matches Some(s) ==> each_name(*a) == Some(s@),
        r is None ==> each_name(*a) is None,
{
    match &a.meta {
        MetaSyntax::List(nested) => {
            if nested.len() != 1 {
                return None;
            }
            match &nested[0] {
                NestedSyntax::NameValue(p, LitSyntax::Str(s)) => {
                    if is_target_path_ident(p, "each") && is_identifier(s.as_str()) {
                        Some(s.clone())
                    } else {
                        None
                    }
                },
                _ => None,
            }
        },
        _ => None,
    }
}

/// Reads a field's attributes, as [`annotation`] states.
fn field_annotation(attrs: &Vec<AttrSyntax>) -> (r: Result<Option<String>, AttrFault>)
    ensures
        match (r, annotation(attrs@)) {
            (Ok(Some(s)), Ok(Some(m))) => s@ == m,
            (Ok(None), Ok(None)) => true,
            (Err(AttrFault::Malformed), Err(AttrFault::Malformed)) => true,
            (Err(AttrFault::Duplicate), Err(AttrFault::Duplicate)) => true,
            _ => false,
        },
{
    let mut found: Option<String> = None;
    let mut i: usize = 0;
    while i < attrs.len()
        invariant
            i <= attrs@.len(),
            match (found, annotation(attrs@.take(i as int))) {
                (Some(s), Ok(Some(m))) => s@ == m,
                (None, Ok(None)) => true,
                _ => false,
            },
        decreases attrs@.len() - i,
    {
        assert(attrs@.take(i + 1).drop_last() =~= attrs@.take(i as int));
        let a = &attrs[i];
        if is_target_path_ident(&a.path, "builder") {
            match attr_each_name(a) {
                None => {
                    proof { lemma_annotation_err_stays(attrs@, i as int + 1); }
                    return Err(AttrFault::Malformed);
                },
                Some(m) => {
                    if found.is_some() {
                        proof { lemma_annotation_err_stays(attrs@, i as int + 1); }
                        return Err(AttrFault::Duplicate);
                    }
                    found = Some(m);
                },
            }
        }
        i += 1;
    }
    assert(attrs@.take(attrs@.len() as int) =~= attrs@);
    match found {
        Some(s) => Ok(Some(s)),
        None => Ok(None),
    }
}

/// Once the attributes read so far are at fault, the same fault stands for
/// the whole list.
proof fn lemma_annotation_err_stays(attrs: Seq<AttrSyntax>, n: int)
    requires
        0 <= n <= attrs.len(),
        annotation(attrs.take(n)) is Err,
    ensures
        annotation(attrs) == annotation(attrs.take(n)),
    decreases attrs.len() - n,
{
    if n < attrs.len() {
        assert(attrs.take(n + 1).drop_last() =~= attrs.take(n));
        lemma_annotation_err_stays(attrs, n + 1);
    } else {
        assert(attrs.take(n) =~= attrs);
    }
}

/// The classification of one field: an accumulator attribute first, then an
/// `Option` type, else mandatory.
pub open spec fn field_kind(f: FieldSyntax) -> Result<KindModel, GenErrorModel> {
    match annotation(f.attrs@) {
        Err(AttrFault::Malformed) => Err(GenErrorModel::MalformedAttribute { field: f.name@ }),
        Err(AttrFault::Duplicate) => Err(GenErrorModel::DuplicateAttribute { field: f.name@ }),
        Ok(Some(m)) => match first_type_arg(f.ty) {
            Some(e) => Ok(KindModel::Repeated { ty: f.ty.spec_text(), elem: e, method: m }),
            None => Err(GenErrorModel::MissingTypeArgument { field: f.name@ }),
        },
        Ok(None) => if is_option_type(f.ty) {
            match first_type_arg(f.ty) {
                Some(t) => Ok(KindModel::Optional { inner: t }),
                None => Err(GenErrorModel::MissingTypeArgument { field: f.name@ }),
            }
        } else {
            Ok(KindModel::Mandatory { ty: f.ty.spec_text() })
        },
    }
}

/// Classifies one field, as [`field_kind`] states.
pub fn classify_field(f: &FieldSyntax) -> (r: Result<FieldKind, GenError>)
    ensures
        match (r, field_kind(*f)) {
            (Ok(k), Ok(m)) => k@ == m,
            (Err(e), Err(m)) => e@ == m,
            _ => false,
        },
{
    match field_annotation(&f.attrs) {
        Err(AttrFault::Malformed) => Err(GenError::MalformedAttribute { field: f.name.clone() }),
        Err(AttrFault::Duplicate) => Err(GenError::DuplicateAttribute { field: f.name.clone() }),
        Ok(Some(method)) => match detect_option_inner_type(&f.ty) {
            Some(elem) => Ok(FieldKind::Repeated { ty: f.ty.text().clone(), elem, method }),
            None => Err(GenError::MissingTypeArgument { field: f.name.clone() }),
        },
        Ok(None) => {
            if is_option(&f.ty) {
                match detect_option_inner_type(&f.ty) {
                    Some(inner) => Ok(FieldKind::Optional { inner }),
                    None => Err(GenError::MissingTypeArgument { field: f.name.clone() }),
                }
            } else {
                Ok(FieldKind::Mandatory { ty: f.ty.text().clone() })
            }
        },
    }
}

/// Whether some field before position `i` is named `name`.
pub open spec fn name_taken(fields: Seq<FieldSyntax>, i: int, name: Seq<char>) -> bool {
    exists|j: int| 0 <= j < i && (#[trigger] fields[j]).name@ == name
}

/// The plans of a declaration's fields in declaration order, or the error of
/// the first field, in that order, that is a second use of a name or cannot
/// be classified.
pub open spec fn fields_plan(fields: Seq<FieldSyntax>) -> Result<Seq<PlanModel>, GenErrorModel>
    decreases fields.len(),
{
    if fields.len() == 0 {
        Ok(Seq::empty())
    } else {
        let f = fields.last();
        match fields_plan(fields.drop_last()) {
            Err(e) => Err(e),
            Ok(ps) => if name_taken(fields, fields.len() - 1, f.name@) {
                Err(GenErrorModel::DuplicateField { field: f.name@ })
            } else {
                match field_kind(f) {
                    Err(e) => Err(e),
                    Ok(k) => Ok(ps.push(PlanModel { name: f.name@, kind: k })),
                }
            },
        }
    }
}

/// The plan of a whole declaration.
pub open spec fn decl_plan(d: DeclSyntax) -> Result<Seq<PlanModel>, GenErrorModel> {
    match d.body {
        BodySyntax::Named(fields) => fields_plan(fields@),
        BodySyntax::Unnamed => Err(GenErrorModel::UnnamedFields),
        BodySyntax::NotStruct => Err(GenErrorModel::NotStruct),
    }
}

/// Whether no two plans share a name.
pub open spec fn distinct_names(ps: Seq<PlanModel>) -> bool {
    forall|i: int, j: int|
        0 <= i < ps.len() && 0 <= j < ps.len() && i != j ==> (#[trigger] ps[i]).name
            != (#[trigger] ps[j]).name
}

/// The plans, field by field, agree with the fields they come from.
pub proof fn lemma_fields_plan_shape(fields: Seq<FieldSyntax>)
    requires
        fields_plan(fields) is Ok,
    ensures
        ({
            let ps = fields_plan(fields)->Ok_0;
            &&& ps.len() == fields.len()
            &&& forall|i: int| 0 <= i < ps.len() ==> (#[trigger] ps[i]).name == fields[i].name@
            &&& forall|i: int| 0 <= i < ps.len() ==> field_kind(fields[i]) == Ok::<
                KindModel,
                GenErrorModel,
            >((#[trigger] ps[i]).kind)
            &&& distinct_names(ps)
        }),
    decreases fields.len(),
{
    if fields.len() > 0 {
        let pre = fields.drop_last();
        lemma_fields_plan_shape(pre);
        let n = fields.len() - 1;
        assert forall|i: int| 0 <= i < n implies fields[i].name@ != fields[n].name@ by {
            if fields[i].name@ == fields[n].name@ {
                assert(name_taken(fields, n, fields[n].name@));
            }
        }
    }
}

/// Classifies the fields of a declaration, as [`fields_plan`] states.
fn plan_fields(fields: &Vec<FieldSyntax>) -> (r: Result<Vec<FieldPlan>, GenError>)
    ensures
        match (r, fields_plan(fields@)) {
            (Ok(v), Ok(m)) => plans_model(v@) == m,
            (Err(e), Err(m)) => e@ == m,
            _ => false,
        },
{
    let mut plans: Vec<FieldPlan> = Vec::new();
    let mut i: usize = 0;
    assert(fields@.take(0) =~= Seq::<FieldSyntax>::empty());
    assert(plans_model(plans@) =~= Seq::<PlanModel>::empty());
    while i < fields.len()
        invariant
            i <= fields@.len(),
            fields_plan(fields@.take(i as int)) == Ok::<Seq<PlanModel>, GenErrorModel>(
                plans_model(plans@),
            ),
        decreases fields@.len() - i,
    {
        let ghost pre = fields@.take(i as int);
        let ghost cur = fields@.take(i + 1);
        assert(cur.drop_last() =~= pre);
        let f = &fields[i];
        let mut taken = false;
        let mut j: usize = 0;
        while j < i
            invariant
                i < fields@.len(),
                j <= i,
                cur == fields@.take(i + 1),
                *f == fields@[i as int],
                taken == name_taken(cur, j as int, fields@[i as int].name@),
            decreases i - j,
        {
            let same = same_text(fields[j].name.as_str(), f.name.as_str());
            proof {
                let n = fields@[i as int].name@;
                assert(cur[j as int] == fields@[j as int]);
                if same {
                    assert(0 <= j < j + 1 && cur[j as int].name@ == n);
                    assert(name_taken(cur, j + 1, n));
                } else if name_taken(cur, j + 1, n) {
                    let w = choose|w: int| 0 <= w < j + 1 && (#[trigger] cur[w]).name@ == n;
                    assert(w != j);
                    assert(name_taken(cur, j as int, n));
                }
                if name_taken(cur, j as int, n) {
                    let w = choose|w: int| 0 <= w < j && (#[trigger] cur[w]).name@ == n;
                    assert(0 <= w < j + 1 && cur[w].name@ == n);
                }
            }
            if same {
                taken = true;
            }
            j += 1;
        }
        if taken {
            proof { lemma_fields_plan_err_stays(fields@, i as int + 1); }
            return Err(GenError::DuplicateField { field: f.name.clone() });
        }
        match classify_field(f) {
            Err(e) => {
                proof { lemma_fields_plan_err_stays(fields@, i as int + 1); }
                return Err(e);
            },
            Ok(kind) => {
                let ghost old_plans = plans@;
                plans.push(FieldPlan { name: f.name.clone(), kind });
                assert(plans_model(plans@) =~= plans_model(old_plans).push(plans@.last()@));
            },
        }
        i += 1;
    }
    assert(fields@.take(fields@.len() as int) =~= fields@);
    Ok(plans)
}

/// Once a prefix of the fields is at fault, so is the whole list, alike.
proof fn lemma_fields_plan_err_stays(fields: Seq<FieldSyntax>, n: int)
    requires
        0 <= n <= fields.len(),
        fields_plan(fields.take(n)) is Err,
    ensures
        fields_plan(fields) == fields_plan(fields.take(n)),
    decreases fields.len() - n,
{
    if n < fields.len() {
        assert(fields.take(n + 1).drop_last() =~= fields.take(n));
        lemma_fields_plan_err_stays(fields, n + 1);
    } else {
        assert(fields.take(n) =~= fields);
    }
}

/// Classifies every field of a declaration, in declaration order.
pub fn plan_declaration(d: &DeclSyntax) -> (r: Result<Vec<FieldPlan>, GenError>)
    ensures
        match (r, decl_plan(*d)) {
            (Ok(v), Ok(m)) => plans_model(v@) == m,
            (Err(e), Err(m)) => e@ == m,
            _ => false,
        },
        r matches Ok(v) ==> distinct_names(plans_model(v@)),
{
    proof {
        if d.body is Named && fields_plan(d.body->Named_0@) is Ok {
            lemma_fields_plan_shape(d.body->Named_0@);
        }
    }
    match &d.body {
        BodySyntax::Named(fields) => plan_fields(fields),
        BodySyntax::Unnamed => Err(GenError::UnnamedFields),
        BodySyntax::NotStruct => Err(GenError::NotStruct),
    }
}

} // verus!
