//! Laws of the companion builder over any sequence of calls.
use vstd::prelude::*;
use crate::classify::{distinct_names, KindModel, PlanModel};
use crate::companion::{
    accumulator_at, build_model, call_value, fresh, is_accumulator, is_missing,
    lemma_accumulator_upto, lemma_first_missing_upto, lemma_setter_upto, run, setter_at, step,
    value_of, Call, SlotModel, ValueModel,
};

verus! {

/// Whether the call sets or appends to field `i`.
pub open spec fn fills<V>(ps: Seq<PlanModel>, c: Call<V>, i: int) -> bool {
    match c {
        Call::Assign(n, _) => setter_at(ps, n) == Some(i),
        Call::Append(m, _) => accumulator_at(ps, m) == Some(i),
    }
}

/// Whether some call sets or appends to field `i`.
pub open spec fn filled<V>(ps: Seq<PlanModel>, calls: Seq<Call<V>>, i: int) -> bool {
    exists|j: int| 0 <= j < calls.len() && fills(ps, #[trigger] calls[j], i)
}

/// Whether every mandatory field is set by some call.
pub open spec fn mandatory_filled<V>(ps: Seq<PlanModel>, calls: Seq<Call<V>>) -> bool {
    forall|k: int| 0 <= k < ps.len() && (#[trigger] ps[k]).kind is Mandatory ==> filled(ps, calls, k)
}

/// The value of the last call that sets field `i`.
pub open spec fn last_value<V>(ps: Seq<PlanModel>, calls: Seq<Call<V>>, i: int) -> Option<V>
    decreases calls.len(),
{
    if calls.len() == 0 {
        None
    } else if fills(ps, calls.last(), i) {
        Some(call_value(calls.last()))
    } else {
        last_value(ps, calls.drop_last(), i)
    }
}

/// The values of the calls that append to field `i`, in call order.
pub open spec fn appended<V>(ps: Seq<PlanModel>, calls: Seq<Call<V>>, i: int) -> Seq<V>
    decreases calls.len(),
{
    if calls.len() == 0 {
        Seq::empty()
    } else if fills(ps, calls.last(), i) {
        appended(ps, calls.drop_last(), i).push(call_value(calls.last()))
    } else {
        appended(ps, calls.drop_last(), i)
    }
}

/// Field `i`'s slot after the calls: its last value set, or all values
/// appended.
pub open spec fn slot_after<V>(ps: Seq<PlanModel>, calls: Seq<Call<V>>, i: int) -> SlotModel<V> {
    if ps[i].kind is Repeated {
        SlotModel::Many(appended(ps, calls, i))
    } else {
        SlotModel::Single(last_value(ps, calls, i))
    }
}

/// No two repeated fields share an accumulator name.
pub open spec fn distinct_accumulators(ps: Seq<PlanModel>) -> bool {
    forall|i: int, j: int, m: Seq<char>|
        0 <= i < ps.len() && 0 <= j < ps.len() && #[trigger] is_accumulator(ps[i], m)
            && #[trigger] is_accumulator(ps[j], m) ==> i == j
}

/// One setter call per field of `ps`, in declaration order, with `vals`.
pub open spec fn assign_all<V>(ps: Seq<PlanModel>, vals: Seq<V>) -> Seq<Call<V>> {
    Seq::new(vals.len(), |k: int| Call::Assign(ps[k].name, vals[k]))
}

/// One accumulator call `method` per value, in order.
pub open spec fn append_all<V>(method: Seq<char>, vals: Seq<V>) -> Seq<Call<V>> {
    Seq::new(vals.len(), |k: int| Call::Append(method, vals[k]))
}

/// Every call is a setter call, and no two name the same setter.
pub open spec fn assigns_once<V>(calls: Seq<Call<V>>) -> bool {
    &&& forall|j: int| 0 <= j < calls.len() ==> (#[trigger] calls[j]) is Assign
    &&& forall|j: int, k: int|
        0 <= j < calls.len() && 0 <= k < calls.len() && j != k ==> (#[trigger] calls[j])->Assign_0
            != (#[trigger] calls[k])->Assign_0
}

/// With distinct names, a field's setter sets that field.
pub proof fn lemma_setter_of_field(ps: Seq<PlanModel>, i: int)
    requires
        distinct_names(ps),
        0 <= i < ps.len(),
        !(ps[i].kind is Repeated),
    ensures
        setter_at(ps, ps[i].name) == Some(i),
{
    lemma_setter_upto(ps, ps[i].name, ps.len() as int);
}

/// With distinct accumulator names, a field's accumulator appends to it.
pub proof fn lemma_accumulator_of_field(ps: Seq<PlanModel>, i: int)
    requires
        distinct_accumulators(ps),
        0 <= i < ps.len(),
        ps[i].kind is Repeated,
    ensures
        accumulator_at(ps, ps[i].kind->Repeated_method) == Some(i),
{
    let m = ps[i].kind->Repeated_method;
    assert(is_accumulator(ps[i], m));
    lemma_accumulator_upto(ps, m, ps.len() as int);
}

/// A setter call fills only a field that is not repeated; an accumulator
/// call only a repeated one.
pub proof fn lemma_fills_kind<V>(ps: Seq<PlanModel>, c: Call<V>, i: int)
    requires
        fills(ps, c, i),
    ensures
        0 <= i < ps.len(),
        c is Assign ==> !(ps[i].kind is Repeated) && ps[i].name == c->Assign_0,
        c is Append ==> ps[i].kind is Repeated,
{
    match c {
        Call::Assign(n, _) => lemma_setter_upto(ps, n, ps.len() as int),
        Call::Append(m, _) => lemma_accumulator_upto(ps, m, ps.len() as int),
    }
}

/// Each field's slot after any calls from a fresh companion.
pub proof fn lemma_run<V>(ps: Seq<PlanModel>, calls: Seq<Call<V>>)
    ensures
        run(fresh::<V>(ps), calls).plans == ps,
        run(fresh::<V>(ps), calls).slots.len() == ps.len(),
        forall|i: int|
            0 <= i < ps.len() ==> (#[trigger] run(fresh::<V>(ps), calls).slots[i]) == slot_after(
                ps,
                calls,
                i,
            ),
    decreases calls.len(),
{
    if calls.len() > 0 {
        let pre = calls.drop_last();
        let c = calls.last();
        lemma_run(ps, pre);
        let prev = run(fresh::<V>(ps), pre);
        let next = run(fresh::<V>(ps), calls);
        assert(next == step(prev, c));
        match c {
            Call::Assign(n, v) => {
                lemma_setter_upto(ps, n, ps.len() as int);
            },
            Call::Append(m, v) => {
                lemma_accumulator_upto(ps, m, ps.len() as int);
                if let Some(j) = accumulator_at(ps, m) {
                    assert(prev.slots[j] == slot_after(ps, pre, j));
                }
            },
        }
        assert forall|i: int| 0 <= i < ps.len() implies (#[trigger] next.slots[i]) == slot_after(
            ps,
            calls,
            i,
        ) by {
            assert(prev.slots[i] == slot_after(ps, pre, i));
        }
    }
}

/// No call sets field `i`: it has no value.
pub proof fn lemma_last_value_none<V>(ps: Seq<PlanModel>, calls: Seq<Call<V>>, i: int)
    requires
        !filled(ps, calls, i),
    ensures
        last_value(ps, calls, i) is None,
        appended(ps, calls, i) == Seq::<V>::empty(),
    decreases calls.len(),
{
    if calls.len() > 0 {
        let pre = calls.drop_last();
        assert(!fills(ps, calls[calls.len() - 1], i));
        assert forall|j: int| 0 <= j < pre.len() implies !fills(ps, #[trigger] pre[j], i) by {
            assert(pre[j] == calls[j]);
        }
        lemma_last_value_none(ps, pre, i);
    }
}

/// Some call sets field `i`: it has a value.
pub proof fn lemma_last_value_some<V>(ps: Seq<PlanModel>, calls: Seq<Call<V>>, i: int)
    requires
        filled(ps, calls, i),
    ensures
        last_value(ps, calls, i) is Some,
    decreases calls.len(),
{
    let pre = calls.drop_last();
    if !fills(ps, calls.last(), i) {
        let j = choose|j: int| 0 <= j < calls.len() && fills(ps, #[trigger] calls[j], i);
        assert(j < pre.len() && pre[j] == calls[j]);
        lemma_last_value_some(ps, pre, i);
    }
}

/// Exactly one call sets field `i`: the field holds that call's value.
pub proof fn lemma_last_value_unique<V>(ps: Seq<PlanModel>, calls: Seq<Call<V>>, i: int, k: int)
    requires
        0 <= k < calls.len(),
        fills(ps, calls[k], i),
        forall|j: int| 0 <= j < calls.len() && j != k ==> !fills(ps, #[trigger] calls[j], i),
    ensures
        last_value(ps, calls, i) == Some(call_value(calls[k])),
    decreases calls.len(),
{
    let pre = calls.drop_last();
    if k < calls.len() - 1 {
        assert(!fills(ps, calls[calls.len() - 1], i));
        assert forall|j: int| 0 <= j < pre.len() && j != k implies !fills(ps, #[trigger] pre[j], i) by {
            assert(pre[j] == calls[j]);
        }
        lemma_last_value_unique(ps, pre, i, k);
    }
}

/// After calls that do not touch field `i`, appending `vals` with its
/// accumulator leaves exactly `vals` in it.
pub proof fn lemma_appended_all<V>(
    ps: Seq<PlanModel>,
    setup: Seq<Call<V>>,
    m: Seq<char>,
    vals: Seq<V>,
    i: int,
)
    requires
        accumulator_at(ps, m) == Some(i),
        !filled(ps, setup, i),
    ensures
        appended(ps, setup + append_all(m, vals), i) == vals,
    decreases vals.len(),
{
    if vals.len() == 0 {
        assert(setup + append_all(m, vals) =~= setup);
        lemma_last_value_none(ps, setup, i);
    } else {
        let pre = vals.drop_last();
        assert((setup + append_all(m, vals)).drop_last() =~= setup + append_all(m, pre));
        lemma_appended_all(ps, setup, m, pre, i);
        assert(vals =~= pre.push(vals.last()));
    }
}

/// With every mandatory field set, `build` succeeds with each field's slot.
pub proof fn lemma_build_ok<V>(ps: Seq<PlanModel>, calls: Seq<Call<V>>)
    requires
        mandatory_filled(ps, calls),
    ensures
        build_model(run(fresh::<V>(ps), calls)) == Ok::<Seq<ValueModel<V>>, Seq<char>>(
            Seq::new(ps.len(), |i: int| value_of(ps[i], slot_after(ps, calls, i))),
        ),
{
    lemma_run(ps, calls);
    let s = run(fresh::<V>(ps), calls);
    assert forall|k: int| 0 <= k < ps.len() implies !is_missing(s, k) by {
        assert(s.slots[k] == slot_after(ps, calls, k));
        if ps[k].kind is Mandatory {
            lemma_last_value_some(ps, calls, k);
        }
    }
    lemma_first_missing_upto(s, ps.len() as int);
    assert(Seq::new(ps.len(), |i: int| value_of(s.plans[i], s.slots[i])) =~= Seq::new(
        ps.len(),
        |i: int| value_of(ps[i], slot_after(ps, calls, i)),
    ));
}

/// Setting each field of a declaration of mandatory fields once, in
/// declaration order, and building gives exactly the values set, as direct
/// construction with those values would.
pub proof fn law_set_all_then_build<V>(ps: Seq<PlanModel>, vals: Seq<V>)
    requires
        distinct_names(ps),
        vals.len() == ps.len(),
        forall|i: int| 0 <= i < ps.len() ==> (#[trigger] ps[i]).kind is Mandatory,
    ensures
        build_model(run(fresh::<V>(ps), assign_all(ps, vals))) == Ok::<
            Seq<ValueModel<V>>,
            Seq<char>,
        >(Seq::new(ps.len(), |i: int| ValueModel::Plain(vals[i]))),
{
    let calls = assign_all(ps, vals);
    assert forall|i: int| 0 <= i < ps.len() implies last_value(ps, calls, i) == Some(vals[i]) by {
        lemma_setter_of_field(ps, i);
        assert forall|j: int| 0 <= j < calls.len() && j != i implies !fills(
            ps,
            #[trigger] calls[j],
            i,
        ) by {
            lemma_setter_of_field(ps, j);
        }
        lemma_last_value_unique(ps, calls, i, i);
    }
    assert forall|k: int| 0 <= k < ps.len() && (#[trigger] ps[k]).kind is Mandatory implies filled(
        ps,
        calls,
        k,
    ) by {
        lemma_setter_of_field(ps, k);
        assert(fills(ps, calls[k], k));
    }
    lemma_build_ok(ps, calls);
    assert(Seq::new(ps.len(), |i: int| value_of(ps[i], slot_after(ps, calls, i))) =~= Seq::new(
        ps.len(),
        |i: int| ValueModel::Plain(vals[i]),
    ));
}

/// An optional field that no call sets is absent from the built value,
/// which is built whenever every mandatory field is set.
pub proof fn law_optional_left_unset<V>(ps: Seq<PlanModel>, calls: Seq<Call<V>>, i: int)
    requires
        0 <= i < ps.len(),
        ps[i].kind is Optional,
        !filled(ps, calls, i),
        mandatory_filled(ps, calls),
    ensures
        build_model(run(fresh::<V>(ps), calls)) matches Ok(r) && r[i] == ValueModel::<V>::Optional(
            None,
        ),
{
    lemma_build_ok(ps, calls);
    lemma_last_value_none(ps, calls, i);
}

/// Setting an optional field last makes it present with that value.
pub proof fn law_optional_set<V>(ps: Seq<PlanModel>, calls: Seq<Call<V>>, i: int, v: V)
    requires
        distinct_names(ps),
        0 <= i < ps.len(),
        ps[i].kind is Optional,
        mandatory_filled(ps, calls),
    ensures
        build_model(run(fresh::<V>(ps), calls.push(Call::Assign(ps[i].name, v)))) matches Ok(r)
            && r[i] == ValueModel::Optional(Some(v)),
{
    let all = calls.push(Call::Assign(ps[i].name, v));
    assert forall|k: int| 0 <= k < ps.len() && (#[trigger] ps[k]).kind is Mandatory implies filled(
        ps,
        all,
        k,
    ) by {
        let j = choose|j: int| 0 <= j < calls.len() && fills(ps, #[trigger] calls[j], k);
        assert(all[j] == calls[j]);
    }
    lemma_setter_of_field(ps, i);
    assert(all.drop_last() =~= calls);
    lemma_build_ok(ps, all);
}

/// Appending `v1..vN` with a repeated field's accumulator leaves exactly
/// `[v1..vN]` in the built value, in call order; with no such call, an
/// empty sequence.
pub proof fn law_append_in_order<V>(
    ps: Seq<PlanModel>,
    setup: Seq<Call<V>>,
    i: int,
    vals: Seq<V>,
)
    requires
        distinct_accumulators(ps),
        0 <= i < ps.len(),
        ps[i].kind is Repeated,
        !filled(ps, setup, i),
        mandatory_filled(ps, setup),
    ensures
        build_model(run(fresh::<V>(ps), setup + append_all(ps[i].kind->Repeated_method, vals)))
            matches Ok(r) && r[i] == ValueModel::Repeated(vals),
{
    let m = ps[i].kind->Repeated_method;
    let all = setup + append_all(m, vals);
    assert forall|k: int| 0 <= k < ps.len() && (#[trigger] ps[k]).kind is Mandatory implies filled(
        ps,
        all,
        k,
    ) by {
        let j = choose|j: int| 0 <= j < setup.len() && fills(ps, #[trigger] setup[j], k);
        assert(all[j] == setup[j]);
    }
    lemma_accumulator_of_field(ps, i);
    lemma_appended_all(ps, setup, m, vals, i);
    lemma_build_ok(ps, all);
}

/// The field that a setter-only call list with distinct names sets is set
/// by exactly one of its calls, or by none.
proof fn lemma_once_value<V>(ps: Seq<PlanModel>, calls: Seq<Call<V>>, i: int, k: int)
    requires
        assigns_once(calls),
        0 <= k < calls.len(),
        fills(ps, calls[k], i),
    ensures
        last_value(ps, calls, i) == Some(call_value(calls[k])),
{
    assert forall|j: int| 0 <= j < calls.len() && j != k implies !fills(ps, #[trigger] calls[j], i) by {
        if fills(ps, calls[j], i) {
            lemma_fills_kind(ps, calls[j], i);
            lemma_fills_kind(ps, calls[k], i);
        }
    }
    lemma_last_value_unique(ps, calls, i, k);
}

/// Setter calls, each field once, give the same companion in whatever order
/// they are made; so `build` gives the same result too.
pub proof fn law_setter_order<V>(ps: Seq<PlanModel>, calls1: Seq<Call<V>>, calls2: Seq<Call<V>>)
    requires
        assigns_once(calls1),
        assigns_once(calls2),
        forall|c: Call<V>| calls1.contains(c) <==> calls2.contains(c),
    ensures
        run(fresh::<V>(ps), calls1) == run(fresh::<V>(ps), calls2),
        build_model(run(fresh::<V>(ps), calls1)) == build_model(run(fresh::<V>(ps), calls2)),
{
    lemma_run(ps, calls1);
    lemma_run(ps, calls2);
    let s1 = run(fresh::<V>(ps), calls1);
    let s2 = run(fresh::<V>(ps), calls2);
    assert forall|i: int| 0 <= i < ps.len() implies s1.slots[i] == s2.slots[i] by {
        assert(s1.slots[i] == slot_after(ps, calls1, i));
        assert(s2.slots[i] == slot_after(ps, calls2, i));
        if filled(ps, calls1, i) {
            let k1 = choose|j: int| 0 <= j < calls1.len() && fills(ps, #[trigger] calls1[j], i);
            assert(calls1.contains(calls1[k1]));
            let k2 = choose|j: int| 0 <= j < calls2.len() && calls2[j] == calls1[k1];
            lemma_once_value(ps, calls1, i, k1);
            lemma_once_value(ps, calls2, i, k2);
            lemma_fills_kind(ps, calls1[k1], i);
            assert(!(ps[i].kind is Repeated));
        } else if filled(ps, calls2, i) {
            let k2 = choose|j: int| 0 <= j < calls2.len() && fills(ps, #[trigger] calls2[j], i);
            assert(calls2.contains(calls2[k2]));
            let k1 = choose|j: int| 0 <= j < calls1.len() && calls1[j] == calls2[k2];
            assert(fills(ps, calls1[k1], i));
        } else {
            lemma_last_value_none(ps, calls1, i);
            lemma_last_value_none(ps, calls2, i);
        }
    }
    assert(s1.slots =~= s2.slots);
}

/// When field `i` is the first mandatory field in declaration order that no
/// call sets, `build` fails naming it: so leaving out one mandatory field
/// names that field, and leaving out all names the first.
pub proof fn law_missing_field_reported<V>(ps: Seq<PlanModel>, calls: Seq<Call<V>>, i: int)
    requires
        0 <= i < ps.len(),
        ps[i].kind is Mandatory,
        !filled(ps, calls, i),
        forall|j: int| 0 <= j < i && (#[trigger] ps[j]).kind is Mandatory ==> filled(ps, calls, j),
    ensures
        build_model(run(fresh::<V>(ps), calls)) == Err::<Seq<ValueModel<V>>, Seq<char>>(
            ps[i].name,
        ),
{
    lemma_run(ps, calls);
    let s = run(fresh::<V>(ps), calls);
    lemma_last_value_none(ps, calls, i);
    assert(s.slots[i] == slot_after(ps, calls, i));
    assert(is_missing(s, i));
    assert forall|j: int| 0 <= j < i implies !is_missing(s, j) by {
        assert(s.slots[j] == slot_after(ps, calls, j));
        if ps[j].kind is Mandatory {
            lemma_last_value_some(ps, calls, j);
        }
    }
    lemma_first_missing_upto(s, ps.len() as int);
}

} // verus!
