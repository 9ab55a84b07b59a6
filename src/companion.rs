//! What a generated companion builder does at run time, as an executable
//! model over one value type `V` for all fields: a fresh companion, setters
//! and accumulators looked up by name, and `build`, which consumes the
//! companion (so it is called once).
use vstd::prelude::*;
use crate::classify::{plans_model, FieldKind, FieldPlan, KindModel, PlanModel};
use crate::emit::{required_message, required_message_text};
use crate::text::same_text;

verus! {

/// The storage of one field: one value or none, or a sequence for a
/// repeated field.
pub enum Slot<V> {
    Single(Option<V>),
    Many(Vec<V>),
}

/// [`Slot`] over sequences.
pub enum SlotModel<V> {
    Single(Option<V>),
    Many(Seq<V>),
}

impl<V> View for Slot<V> {
    type V = SlotModel<V>;

    open spec fn view(&self) -> SlotModel<V> {
        match self {
            Slot::Single(o) => SlotModel::Single(*o),
            Slot::Many(v) => SlotModel::Many(v@),
        }
    }
}

/// One field of a built value: a mandatory field's value, an optional
/// field's presence or absence, or a repeated field's sequence.
#[derive(Clone, Debug, PartialEq, Eq)]
pub enum FieldValue<V> {
    Plain(V),
    Optional(Option<V>),
    Repeated(Vec<V>),
}

/// [`FieldValue`] over sequences.
pub enum ValueModel<V> {
    Plain(V),
    Optional(Option<V>),
    Repeated(Seq<V>),
}

impl<V> View for FieldValue<V> {
    type V = ValueModel<V>;

    open spec fn view(&self) -> ValueModel<V> {
        match self {
            FieldValue::Plain(v) => ValueModel::Plain(*v),
            FieldValue::Optional(o) => ValueModel::Optional(*o),
            FieldValue::Repeated(v) => ValueModel::Repeated(v@),
        }
    }
}

/// The failure of `build`: a mandatory field was never set.
#[derive(Clone, Debug, PartialEq, Eq)]
pub struct MissingField {
    pub field: String,
}

impl MissingField {
    /// The failure's message, which names the field.
    pub fn message(&self) -> (r: String)
        ensures
            r@ == required_message(self.field@),
    {
        required_message_text(self.field.as_str())
    }
}

/// A companion builder for the fields `plans`, holding one slot per field.
pub struct Companion<V> {
    plans: Vec<FieldPlan>,
    slots: Vec<Slot<V>>,
}

/// A companion's state: its fields' plans and their slots.
pub struct CompanionModel<V> {
    pub plans: Seq<PlanModel>,
    pub slots: Seq<SlotModel<V>>,
}

impl<V> View for Companion<V> {
    type V = CompanionModel<V>;

    closed spec fn view(&self) -> CompanionModel<V> {
        CompanionModel {
            plans: plans_model(self.plans@),
            slots: self.slots@.map_values(|s: Slot<V>| s@),
        }
    }
}

/// One slot per field, a sequence exactly for each repeated field.
pub open spec fn model_wf<V>(s: CompanionModel<V>) -> bool {
    &&& s.slots.len() == s.plans.len()
    &&& forall|i: int|
        0 <= i < s.plans.len() ==> ((#[trigger] s.plans[i]).kind is Repeated <==> s.slots[i] is Many)
}

/// The starting slot of a field: absent, or an empty sequence.
pub open spec fn fresh_slot<V>(p: PlanModel) -> SlotModel<V> {
    if p.kind is Repeated {
        SlotModel::Many(Seq::empty())
    } else {
        SlotModel::Single(None)
    }
}

/// A fresh companion for the fields `ps`.
pub open spec fn fresh<V>(ps: Seq<PlanModel>) -> CompanionModel<V> {
    CompanionModel { plans: ps, slots: ps.map_values(|p: PlanModel| fresh_slot::<V>(p)) }
}

/// Whether the field has a setter called `name`.
pub open spec fn is_setter(p: PlanModel, name: Seq<char>) -> bool {
    p.name == name && !(p.kind is Repeated)
}

/// Whether the field has an accumulator called `method`.
pub open spec fn is_accumulator(p: PlanModel, method: Seq<char>) -> bool {
    match p.kind {
        KindModel::Repeated { method: m, .. } => m == method,
        _ => false,
    }
}

/// The first of the first `k` fields with a setter called `name`.
pub open spec fn setter_upto(ps: Seq<PlanModel>, name: Seq<char>, k: int) -> Option<int>
    decreases k,
{
    if k <= 0 {
        None
    } else {
        match setter_upto(ps, name, k - 1) {
            Some(i) => Some(i),
            None => if is_setter(ps[k - 1], name) {
                Some(k - 1)
            } else {
                None
            },
        }
    }
}

/// The field that the setter `name` sets.
pub open spec fn setter_at(ps: Seq<PlanModel>, name: Seq<char>) -> Option<int> {
    setter_upto(ps, name, ps.len() as int)
}

/// The first of the first `k` fields with an accumulator called `method`.
pub open spec fn accumulator_upto(ps: Seq<PlanModel>, method: Seq<char>, k: int) -> Option<int>
    decreases k,
{
    if k <= 0 {
        None
    } else {
        match accumulator_upto(ps, method, k - 1) {
            Some(i) => Some(i),
            None => if is_accumulator(ps[k - 1], method) {
                Some(k - 1)
            } else {
                None
            },
        }
    }
}

/// The field that the accumulator `method` appends to.
pub open spec fn accumulator_at(ps: Seq<PlanModel>, method: Seq<char>) -> Option<int> {
    accumulator_upto(ps, method, ps.len() as int)
}

/// A call on a companion: a setter or an accumulator, by name, with a value.
pub enum Call<V> {
    Assign(Seq<char>, V),
    Append(Seq<char>, V),
}

/// The value that a call hands over.
pub open spec fn call_value<V>(c: Call<V>) -> V {
    match c {
        Call::Assign(_, v) => v,
        Call::Append(_, v) => v,
    }
}

/// The state after one call. A name that no field has leaves it unchanged.
pub open spec fn step<V>(s: CompanionModel<V>, c: Call<V>) -> CompanionModel<V> {
    match c {
        Call::Assign(n, v) => match setter_at(s.plans, n) {
            Some(i) => CompanionModel {
                plans: s.plans,
                slots: s.slots.update(i, SlotModel::Single(Some(v))),
            },
            None => s,
        },
        Call::Append(m, v) => match accumulator_at(s.plans, m) {
            Some(i) => match s.slots[i] {
                SlotModel::Many(vs) => CompanionModel {
                    plans: s.plans,
                    slots: s.slots.update(i, SlotModel::Many(vs.push(v))),
                },
                SlotModel::Single(_) => s,
            },
            None => s,
        },
    }
}

/// The state after a sequence of calls, in order.
pub open spec fn run<V>(s: CompanionModel<V>, calls: Seq<Call<V>>) -> CompanionModel<V>
    decreases calls.len(),
{
    if calls.len() == 0 {
        s
    } else {
        step(run(s, calls.drop_last()), calls.last())
    }
}

/// Whether field `i` is a mandatory field that has no value.
pub open spec fn is_missing<V>(s: CompanionModel<V>, i: int) -> bool {
    s.plans[i].kind is Mandatory && s.slots[i] == SlotModel::<V>::Single(None)
}

/// The first of the first `k` fields that is missing.
pub open spec fn first_missing_upto<V>(s: CompanionModel<V>, k: int) -> Option<int>
    decreases k,
{
    if k <= 0 {
        None
    } else {
        match first_missing_upto(s, k - 1) {
            Some(i) => Some(i),
            None => if is_missing(s, k - 1) {
                Some(k - 1)
            } else {
                None
            },
        }
    }
}

/// The built value of one field from its slot.
pub open spec fn value_of<V>(p: PlanModel, s: SlotModel<V>) -> ValueModel<V> {
    match (p.kind, s) {
        (KindModel::Mandatory { .. }, SlotModel::Single(Some(v))) => ValueModel::Plain(v),
        (_, SlotModel::Single(o)) => ValueModel::Optional(o),
        (_, SlotModel::Many(vs)) => ValueModel::Repeated(vs),
    }
}

/// What `build` gives: the name of the first missing mandatory field in
/// declaration order, or every field's value.
pub open spec fn build_model<V>(s: CompanionModel<V>) -> Result<Seq<ValueModel<V>>, Seq<char>> {
    match first_missing_upto(s, s.plans.len() as int) {
        Some(i) => Err(s.plans[i].name),
        None => Ok(Seq::new(s.plans.len(), |i: int| value_of(s.plans[i], s.slots[i]))),
    }
}

impl<V> Companion<V> {
    /// Whether the slots fit the plans.
    pub open spec fn wf(&self) -> bool {
        model_wf(self@)
    }

    /// A fresh companion: every mandatory and optional field absent, every
    /// repeated field empty.
    pub fn new(plans: Vec<FieldPlan>) -> (r: Self)
        ensures
            r@ == fresh::<V>(plans_model(plans@)),
            r.wf(),
    {
        let ghost ps = plans_model(plans@);
        let mut slots: Vec<Slot<V>> = Vec::new();
        let mut i: usize = 0;
        while i < plans.len()
            invariant
                i <= plans@.len(),
                ps == plans_model(plans@),
                slots@.len() == i,
                forall|k: int| 0 <= k < i ==> (#[trigger] slots@[k])@ == fresh_slot::<V>(ps[k]),
            decreases plans@.len() - i,
        {
            match &plans[i].kind {
                FieldKind::Repeated { .. } => slots.push(Slot::Many(Vec::new())),
                _ => slots.push(Slot::Single(None)),
            }
            i += 1;
        }
        let r = Companion { plans, slots };
        assert(r@.slots =~= fresh::<V>(ps).slots);
        r
    }

    /// The plans of the fields.
    pub fn plans(&self) -> (r: &Vec<FieldPlan>)
        ensures
            plans_model(r@) == self@.plans,
    {
        &self.plans
    }

    /// The first field with a setter called `name`, as [`setter_at`] states.
    fn find_setter(&self, name: &str) -> (r: Option<usize>)
        ensures
            r matches Some(i) ==> setter_at(self@.plans, name@) == Some(i as int),
            r is None ==> setter_at(self@.plans, name@) is None,
    {
        let ghost ps = self@.plans;
        let mut i: usize = 0;
        while i < self.plans.len()
            invariant
                i <= ps.len(),
                ps == self@.plans,
                setter_upto(ps, name@, i as int) is None,
            decreases ps.len() - i,
        {
            let p = &self.plans[i];
            assert(ps[i as int] == p@);
            let repeated = match &p.kind {
                FieldKind::Repeated { .. } => true,
                _ => false,
            };
            if !repeated && same_text(p.name.as_str(), name) {
                proof {
                    lemma_setter_upto(ps, name@, i as int);
                    lemma_setter_upto(ps, name@, ps.len() as int);
                }
                return Some(i);
            }
            i += 1;
        }
        None
    }

    /// The first field with an accumulator called `method`, as
    /// [`accumulator_at`] states.
    fn find_accumulator(&self, method: &str) -> (r: Option<usize>)
        ensures
            r matches Some(i) ==> accumulator_at(self@.plans, method@) == Some(i as int),
            r is None ==> accumulator_at(self@.plans, method@) is None,
    {
        let ghost ps = self@.plans;
        let mut i: usize = 0;
        while i < self.plans.len()
            invariant
                i <= ps.len(),
                ps == self@.plans,
                accumulator_upto(ps, method@, i as int) is None,
            decreases ps.len() - i,
        {
            let p = &self.plans[i];
            assert(ps[i as int] == p@);
            let hit = match &p.kind {
                FieldKind::Repeated { method: m, .. } => same_text(m.as_str(), method),
                _ => false,
            };
            if hit {
                proof {
                    lemma_accumulator_upto(ps, method@, i as int);
                    lemma_accumulator_upto(ps, method@, ps.len() as int);
                }
                return Some(i);
            }
            i += 1;
        }
        None
    }

    /// Sets the mandatory or optional field `name` to `value`.
    pub fn set(&mut self, name: &str, value: V) -> (r: &mut Self)
        requires
            old(self).wf(),
        ensures
            (*r)@ == step(old(self)@, Call::Assign(name@, value)),
            (*r).wf(),
            *final(self) == *final(r),
    {
        match self.find_setter(name) {
            Some(i) => {
                proof { lemma_setter_upto(self@.plans, name@, self@.plans.len() as int); }
                self.slots.set(i, Slot::Single(Some(value)));
                assert(self@.slots =~= step(old(self)@, Call::Assign(name@, value)).slots);
            },
            None => {},
        }
        self
    }

    /// Appends `value` to the repeated field whose accumulator is `method`.
    pub fn push(&mut self, method: &str, value: V) -> (r: &mut Self)
        requires
            old(self).wf(),
        ensures
            (*r)@ == step(old(self)@, Call::Append(method@, value)),
            (*r).wf(),
            *final(self) == *final(r),
    {
        match self.find_accumulator(method) {
            Some(i) => {
                proof { lemma_accumulator_upto(self@.plans, method@, self@.plans.len() as int); }
                let s = self.slots.remove(i);
                match s {
                    Slot::Many(mut vs) => {
                        vs.push(value);
                        self.slots.insert(i, Slot::Many(vs));
                    },
                    Slot::Single(o) => {
                        self.slots.insert(i, Slot::Single(o));
                    },
                }
                assert(self@.slots =~= step(old(self)@, Call::Append(method@, value)).slots);
            },
            None => {},
        }
        self
    }

    /// Builds the value: fails with the first missing mandatory field in
    /// declaration order, else hands out every field's value.
    pub fn build(self) -> (r: Result<Vec<FieldValue<V>>, MissingField>)
        requires
            self.wf(),
        ensures
            match (r, build_model(self@)) {
                (Ok(v), Ok(m)) => v@.map_values(|f: FieldValue<V>| f@) == m,
                (Err(e), Err(n)) => e.field@ == n,
                _ => false,
            },
    {
        let ghost s = self@;
        let n = self.plans.len();
        let mut i: usize = 0;
        while i < n
            invariant
                n == s.plans.len(),
                s == self@,
                self.wf(),
                i <= n,
                first_missing_upto(s, i as int) is None,
            decreases n - i,
        {
            let mandatory = match &self.plans[i].kind {
                FieldKind::Mandatory { .. } => true,
                _ => false,
            };
            let absent = match &self.slots[i] {
                Slot::Single(None) => true,
                _ => false,
            };
            assert(s.slots[i as int] == self.slots@[i as int]@);
            assert(s.plans[i as int] == self.plans@[i as int]@);
            if mandatory && absent {
                proof {
                    lemma_first_missing_upto(s, i as int);
                    lemma_first_missing_upto(s, n as int);
                }
                let field = self.plans[i].name.clone();
                assert(is_missing(s, i as int));
                assert(first_missing_upto(s, i as int + 1) == Some(i as int));
                assert(first_missing_upto(s, n as int) == Some(i as int));
                assert(field@ == s.plans[i as int].name);
                return Err(MissingField { field });
            }
            i += 1;
        }
        let Companion { plans, mut slots } = self;
        let mut out: Vec<FieldValue<V>> = Vec::new();
        let mut j: usize = 0;
        while j < n
            invariant
                n == s.plans.len(),
                n == plans@.len(),
                s.plans == plans_model(plans@),
                j <= n,
                slots@.len() == n - j,
                forall|k: int| 0 <= k < n - j ==> (#[trigger] slots@[k])@ == s.slots[k + j],
                out@.len() == j,
                forall|k: int|
                    0 <= k < j ==> (#[trigger] out@[k])@ == value_of(s.plans[k], s.slots[k]),
            decreases n - j,
        {
            let slot = slots.remove(0);
            assert(slot@ == s.slots[j as int]);
            assert(s.plans[j as int] == plans@[j as int]@);
            let v = match (&plans[j].kind, slot) {
                (FieldKind::Mandatory { .. }, Slot::Single(Some(v))) => FieldValue::Plain(v),
                (_, Slot::Single(o)) => FieldValue::Optional(o),
                (_, Slot::Many(vs)) => FieldValue::Repeated(vs),
            };
            out.push(v);
            j += 1;
        }
        assert(out@.map_values(|f: FieldValue<V>| f@) =~= Seq::new(
            s.plans.len(),
            |k: int| value_of(s.plans[k], s.slots[k]),
        ));
        Ok(out)
    }
}

/// What [`setter_upto`] finds: the first field with that setter.
pub proof fn lemma_setter_upto(ps: Seq<PlanModel>, name: Seq<char>, k: int)
    requires
        0 <= k <= ps.len(),
    ensures
        setter_upto(ps, name, k) matches Some(i) ==> 0 <= i < k && is_setter(ps[i], name) && forall|
            j: int,
        | 0 <= j < i ==> !is_setter(#[trigger] ps[j], name),
        setter_upto(ps, name, k) is None ==> forall|j: int|
            0 <= j < k ==> !is_setter(#[trigger] ps[j], name),
    decreases k,
{
    if k > 0 {
        lemma_setter_upto(ps, name, k - 1);
    }
}

/// What [`first_missing_upto`] finds: the first missing field.
pub proof fn lemma_first_missing_upto<V>(s: CompanionModel<V>, k: int)
    requires
        0 <= k <= s.plans.len(),
    ensures
        first_missing_upto(s, k) matches Some(i) ==> 0 <= i < k && is_missing(s, i) && forall|
            j: int,
        | 0 <= j < i ==> !is_missing(s, j),
        first_missing_upto(s, k) is None ==> forall|j: int| 0 <= j < k ==> !is_missing(s, j),
    decreases k,
{
    if k > 0 {
        lemma_first_missing_upto(s, k - 1);
    }
}

/// What [`accumulator_upto`] finds: the first field with that accumulator.
pub proof fn lemma_accumulator_upto(ps: Seq<PlanModel>, method: Seq<char>, k: int)
    requires
        0 <= k <= ps.len(),
    ensures
        accumulator_upto(ps, method, k) matches Some(i) ==> 0 <= i < k && is_accumulator(
            ps[i],
            method,
        ) && forall|j: int| 0 <= j < i ==> !is_accumulator(#[trigger] ps[j], method),
        accumulator_upto(ps, method, k) is None ==> forall|j: int|
            0 <= j < k ==> !is_accumulator(#[trigger] ps[j], method),
    decreases k,
{
    if k > 0 {
        lemma_accumulator_upto(ps, method, k - 1);
    }
}

} // verus!
