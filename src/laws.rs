//! Properties of the reconciler, proved over its contracts.
use vstd::prelude::*;
use crate::vnode::{Prop, PropName, Value, Handler, VNode, same_value};
use crate::diff::{
    ChildPatch, Patch, PropOp, attach_ops, detach_ops, handler_ops, holds, is_noop,
    lays_out_hints, listens, mentions, patch_for, prop_ops, set_ops, unset_ops,
};

verus! {

proof fn lemma_set_ops_none(old: Seq<Prop>, new: Seq<Prop>)
    requires
        forall|i: int| 0 <= i < new.len() ==> holds(old, #[trigger] new[i].name, new[i].value),
    ensures
        set_ops(old, new).len() == 0,
    decreases new.len(),
{
    if new.len() > 0 {
        let d = new.drop_last();
        assert forall|i: int| 0 <= i < d.len() implies holds(old, #[trigger] d[i].name, d[i].value) by {
            assert(d[i] == new[i]);
        }
        lemma_set_ops_none(old, d);
        assert(holds(old, new[new.len() - 1].name, new[new.len() - 1].value));
    }
}

proof fn lemma_unset_ops_none(old: Seq<Prop>, new: Seq<Prop>)
    requires
        forall|i: int| 0 <= i < old.len() ==> mentions(new, #[trigger] old[i].name),
    ensures
        unset_ops(old, new).len() == 0,
    decreases old.len(),
{
    if old.len() > 0 {
        let d = old.drop_last();
        assert forall|i: int| 0 <= i < d.len() implies mentions(new, #[trigger] d[i].name) by {
            assert(d[i] == old[i]);
        }
        lemma_unset_ops_none(d, new);
        assert(mentions(new, old[old.len() - 1].name));
    }
}

proof fn lemma_prop_ops_same(ps: Seq<Prop>)
    ensures
        prop_ops(ps, ps).len() == 0,
{
    assert forall|i: int| 0 <= i < ps.len() implies holds(ps, #[trigger] ps[i].name, ps[i].value) by {
        assert(same_value(ps[i].value, ps[i].value));
    }
    assert forall|i: int| 0 <= i < ps.len() implies mentions(ps, #[trigger] ps[i].name) by {}
    lemma_set_ops_none(ps, ps);
    lemma_unset_ops_none(ps, ps);
}

proof fn lemma_attach_ops_none(old: Seq<Handler>, new: Seq<Handler>)
    requires
        forall|i: int| 0 <= i < new.len() ==> old.contains(#[trigger] new[i]),
    ensures
        attach_ops(old, new).len() == 0,
    decreases new.len(),
{
    if new.len() > 0 {
        let d = new.drop_last();
        assert forall|i: int| 0 <= i < d.len() implies old.contains(#[trigger] d[i]) by {
            assert(d[i] == new[i]);
        }
        lemma_attach_ops_none(old, d);
        assert(old.contains(new[new.len() - 1]));
    }
}

proof fn lemma_detach_ops_none(old: Seq<Handler>, new: Seq<Handler>)
    requires
        forall|i: int| 0 <= i < old.len() ==> listens(new, #[trigger] old[i].event),
    ensures
        detach_ops(old, new).len() == 0,
    decreases old.len(),
{
    if old.len() > 0 {
        let d = old.drop_last();
        assert forall|i: int| 0 <= i < d.len() implies listens(new, #[trigger] d[i].event) by {
            assert(d[i] == old[i]);
        }
        lemma_detach_ops_none(d, new);
        assert(listens(new, old[old.len() - 1].event));
    }
}

proof fn lemma_handler_ops_same(hs: Seq<Handler>)
    ensures
        handler_ops(hs, hs).len() == 0,
{
    assert forall|i: int| 0 <= i < hs.len() implies hs.contains(#[trigger] hs[i]) by {}
    assert forall|i: int| 0 <= i < hs.len() implies listens(hs, #[trigger] hs[i].event) by {}
    lemma_attach_ops_none(hs, hs);
    lemma_detach_ops_none(hs, hs);
}

/// Reconciling a tree against itself yields a patch with no operation: a
/// second pass over an unchanged render touches nothing.
pub proof fn lemma_reconcile_idempotent(t: VNode, placed: bool, p: Patch)
    requires
        patch_for(t, t, placed, p),
    ensures
        is_noop(p),
    decreases t,
{
    lemma_prop_ops_same(t.props@);
    lemma_prop_ops_same(t.hints@);
    lemma_handler_ops_same(t.handlers@);
    match p {
        Patch::Replace => {},
        Patch::Update { props, hints, handlers, children, .. } => {
            assert forall|i: int| 0 <= i < children.len() implies match #[trigger] children@[i] {
                ChildPatch::Diff(q) => is_noop(q),
                _ => false,
            } by {
                match children@[i] {
                    ChildPatch::Diff(q) => {
                        lemma_reconcile_idempotent(t.children@[i], lays_out_hints(t.kind), q);
                    },
                    _ => {},
                }
            }
        },
    }
}

proof fn lemma_set_ops_contains(old: Seq<Prop>, new: Seq<Prop>, op: PropOp)
    ensures
        set_ops(old, new).contains(op) <==> exists|i: int|
            0 <= i < new.len() && op == PropOp::SetProp(new[i].name, new[i].value)
                && !holds(old, new[i].name, new[i].value),
    decreases new.len(),
{
    if new.len() > 0 {
        let d = new.drop_last();
        let last = new.len() - 1;
        lemma_set_ops_contains(old, d, op);
        let rest = set_ops(old, d);
        if set_ops(old, new).contains(op) {
            if rest.contains(op) {
                let i = choose|i: int|
                    0 <= i < d.len() && op == PropOp::SetProp(d[i].name, d[i].value)
                        && !holds(old, d[i].name, d[i].value);
                assert(d[i] == new[i]);
            } else {
                assert(!holds(old, new[last].name, new[last].value));
                let k = choose|k: int| 0 <= k < set_ops(old, new).len() && set_ops(old, new)[k] == op;
                if k < rest.len() {
                    assert(rest.contains(op));
                }
            }
        }
        if exists|i: int|
            0 <= i < new.len() && op == PropOp::SetProp(new[i].name, new[i].value)
                && !holds(old, new[i].name, new[i].value) {
            let i = choose|i: int|
                0 <= i < new.len() && op == PropOp::SetProp(new[i].name, new[i].value)
                    && !holds(old, new[i].name, new[i].value);
            if i < last {
                assert(d[i] == new[i]);
                let k = choose|k: int| 0 <= k < rest.len() && rest[k] == op;
                assert(set_ops(old, new)[k] == op);
            } else {
                assert(set_ops(old, new) == rest.push(op));
                assert(set_ops(old, new)[rest.len() as int] == op);
            }
        }
    }
}

proof fn lemma_unset_ops_contains(old: Seq<Prop>, new: Seq<Prop>, op: PropOp)
    ensures
        unset_ops(old, new).contains(op) <==> exists|i: int|
            0 <= i < old.len() && op == PropOp::UnsetProp(old[i].name) && !mentions(new, old[i].name),
    decreases old.len(),
{
    if old.len() > 0 {
        let d = old.drop_last();
        let last = old.len() - 1;
        lemma_unset_ops_contains(d, new, op);
        let rest = unset_ops(d, new);
        if unset_ops(old, new).contains(op) {
            if rest.contains(op) {
                let i = choose|i: int|
                    0 <= i < d.len() && op == PropOp::UnsetProp(d[i].name) && !mentions(new, d[i].name);
                assert(d[i] == old[i]);
            } else {
                assert(!mentions(new, old[last].name));
                let k = choose|k: int| 0 <= k < unset_ops(old, new).len() && unset_ops(old, new)[k] == op;
                if k < rest.len() {
                    assert(rest.contains(op));
                }
            }
        }
        if exists|i: int|
            0 <= i < old.len() && op == PropOp::UnsetProp(old[i].name) && !mentions(new, old[i].name) {
            let i = choose|i: int|
                0 <= i < old.len() && op == PropOp::UnsetProp(old[i].name) && !mentions(new, old[i].name);
            if i < last {
                assert(d[i] == old[i]);
                let k = choose|k: int| 0 <= k < rest.len() && rest[k] == op;
                assert(unset_ops(old, new)[k] == op);
            } else {
                assert(unset_ops(old, new) == rest.push(op));
                assert(unset_ops(old, new)[rest.len() as int] == op);
            }
        }
    }
}

proof fn lemma_concat_contains(a: Seq<PropOp>, b: Seq<PropOp>, op: PropOp)
    ensures
        (a + b).contains(op) <==> a.contains(op) || b.contains(op),
{
    if (a + b).contains(op) {
        let k = choose|k: int| 0 <= k < (a + b).len() && (a + b)[k] == op;
        if k < a.len() {
            assert(a[k] == op);
        } else {
            assert(b[k - a.len()] == op);
        }
    }
    if a.contains(op) {
        let k = choose|k: int| 0 <= k < a.len() && a[k] == op;
        assert((a + b)[k] == op);
    }
    if b.contains(op) {
        let k = choose|k: int| 0 <= k < b.len() && b[k] == op;
        assert((a + b)[k + a.len()] == op);
    }
}

/// The property operations set exactly the entries of `new` whose value
/// `old` does not already hold under that name, and unset exactly the names
/// that `old` has and `new` lacks; names with an unchanged value are not
/// touched.
pub proof fn lemma_prop_ops_exact(old: Seq<Prop>, new: Seq<Prop>, name: PropName, v: Value)
    ensures
        prop_ops(old, new).contains(PropOp::SetProp(name, v)) <==> (exists|i: int|
            0 <= i < new.len() && new[i].name == name && new[i].value == v) && !holds(old, name, v),
        prop_ops(old, new).contains(PropOp::UnsetProp(name)) <==> mentions(old, name) && !mentions(
            new,
            name,
        ),
{
    lemma_set_ops_contains(old, new, PropOp::SetProp(name, v));
    lemma_unset_ops_contains(old, new, PropOp::SetProp(name, v));
    lemma_concat_contains(set_ops(old, new), unset_ops(old, new), PropOp::SetProp(name, v));
    lemma_set_ops_contains(old, new, PropOp::UnsetProp(name));
    lemma_unset_ops_contains(old, new, PropOp::UnsetProp(name));
    lemma_concat_contains(set_ops(old, new), unset_ops(old, new), PropOp::UnsetProp(name));
}

/// Children are reconciled by index: a child left the same at index `i`
/// gets a patch with no operation, whatever changed at other indices.
pub proof fn lemma_positional_children(old: VNode, new: VNode, placed: bool, p: Patch, i: int)
    requires
        patch_for(old, new, placed, p),
        old.kind == new.kind,
        0 <= i < old.children.len(),
        i < new.children.len(),
        old.children@[i] == new.children@[i],
    ensures
        p matches Patch::Update { children, .. } && children@[i] matches ChildPatch::Diff(q)
            && is_noop(q),
{
    match p {
        Patch::Update { children, .. } => {
            assert(0 <= i < children.len());
            match children@[i] {
                ChildPatch::Diff(q) => {
                    lemma_reconcile_idempotent(new.children@[i], lays_out_hints(new.kind), q);
                },
                _ => {},
            }
        },
        _ => {},
    }
}

/// A change of kind at a position, such as a primitive widget replaced by a
/// component reference, always destroys and recreates: never an in-place
/// update.
pub proof fn lemma_kind_change_replaces(old: VNode, new: VNode, placed: bool, p: Patch)
    requires
        patch_for(old, new, placed, p),
        old.kind != new.kind,
    ensures
        p is Replace,
{
}

/// Property names in a map are unique.
pub open spec fn unique_names(ps: Seq<Prop>) -> bool {
    forall|i: int, j: int| 0 <= i < j < ps.len() ==> ps[i].name != ps[j].name
}

/// The map from names to values that a property list describes.
pub open spec fn prop_map(ps: Seq<Prop>) -> Map<PropName, Value>
    decreases ps.len(),
{
    if ps.len() == 0 {
        Map::empty()
    } else {
        prop_map(ps.drop_last()).insert(ps.last().name, ps.last().value)
    }
}

/// The property map of a widget after the operations `ops`, in order.
pub open spec fn apply_prop_ops(m: Map<PropName, Value>, ops: Seq<PropOp>) -> Map<PropName, Value>
    decreases ops.len(),
{
    if ops.len() == 0 {
        m
    } else {
        let before = apply_prop_ops(m, ops.drop_last());
        match ops.last() {
            PropOp::SetProp(k, v) => before.insert(k, v),
            PropOp::UnsetProp(k) => before.remove(k),
        }
    }
}

proof fn lemma_prop_map(ps: Seq<Prop>)
    requires
        unique_names(ps),
    ensures
        forall|k: PropName| prop_map(ps).dom().contains(k) <==> mentions(ps, k),
        forall|i: int| 0 <= i < ps.len() ==> prop_map(ps)[#[trigger] ps[i].name] == ps[i].value,
    decreases ps.len(),
{
    if ps.len() > 0 {
        let d = ps.drop_last();
        assert(unique_names(d)) by {
            assert forall|i: int, j: int| 0 <= i < j < d.len() implies d[i].name != d[j].name by {
                assert(d[i] == ps[i] && d[j] == ps[j]);
            }
        }
        lemma_prop_map(d);
        assert forall|k: PropName| prop_map(ps).dom().contains(k) <==> mentions(ps, k) by {
            if mentions(ps, k) {
                let i = choose|i: int| 0 <= i < ps.len() && ps[i].name == k;
                if i < d.len() {
                    assert(d[i] == ps[i]);
                }
            }
            if mentions(d, k) {
                let i = choose|i: int| 0 <= i < d.len() && d[i].name == k;
                assert(d[i] == ps[i]);
            }
        }
        assert forall|i: int| 0 <= i < ps.len() implies prop_map(ps)[#[trigger] ps[i].name] == ps[i].value by {
            if i < d.len() {
                assert(d[i] == ps[i]);
                assert(ps[i].name != ps[ps.len() - 1].name);
            }
        }
    }
}

proof fn lemma_apply_concat(m: Map<PropName, Value>, a: Seq<PropOp>, b: Seq<PropOp>)
    ensures
        apply_prop_ops(m, a + b) == apply_prop_ops(apply_prop_ops(m, a), b),
    decreases b.len(),
{
    if b.len() == 0 {
        assert(a + b =~= a);
    } else {
        assert((a + b).drop_last() =~= a + b.drop_last());
        assert((a + b).last() == b.last());
        lemma_apply_concat(m, a, b.drop_last());
    }
}

proof fn lemma_apply_set_ops(m: Map<PropName, Value>, old: Seq<Prop>, new: Seq<Prop>, k: PropName, i: int)
    requires
        unique_names(new),
        forall|n: PropName| mentions(old, n) ==> m.dom().contains(n),
    ensures
        apply_prop_ops(m, set_ops(old, new)).dom().contains(k) <==> (m.dom().contains(k) || mentions(
            new,
            k,
        )),
        0 <= i < new.len() && new[i].name == k && !holds(old, k, new[i].value) ==> apply_prop_ops(
            m,
            set_ops(old, new),
        )[k] == new[i].value,
        0 <= i < new.len() && new[i].name == k && holds(old, k, new[i].value) ==> apply_prop_ops(
            m,
            set_ops(old, new),
        )[k] == m[k],
    decreases new.len(),
{
    if new.len() == 0 {
        assert(set_ops(old, new) =~= Seq::<PropOp>::empty());
    } else {
        let d = new.drop_last();
        let last = new.len() - 1;
        assert(unique_names(d)) by {
            assert forall|x: int, y: int| 0 <= x < y < d.len() implies d[x].name != d[y].name by {
                assert(d[x] == new[x] && d[y] == new[y]);
            }
        }
        lemma_apply_set_ops(m, old, d, k, i);
        let rd = apply_prop_ops(m, set_ops(old, d));
        let r = apply_prop_ops(m, set_ops(old, new));
        if !holds(old, new[last].name, new[last].value) {
            let ops = set_ops(old, new);
            assert(ops.drop_last() =~= set_ops(old, d));
            assert(r == rd.insert(new[last].name, new[last].value));
        } else {
            assert(r == rd);
            let j = choose|j: int|
                0 <= j < old.len() && old[j].name == new[last].name && same_value(old[j].value, new[last].value);
            assert(mentions(old, new[last].name));
        }
        if mentions(new, k) {
            let x = choose|x: int| 0 <= x < new.len() && new[x].name == k;
            if x < last {
                assert(d[x] == new[x]);
            }
        }
        if mentions(d, k) {
            let x = choose|x: int| 0 <= x < d.len() && d[x].name == k;
            assert(d[x] == new[x]);
        }
        if 0 <= i < new.len() && new[i].name == k {
            if i < last {
                assert(d[i] == new[i]);
                assert(new[i].name != new[last].name);
            } else {
                assert forall|x: int| 0 <= x < d.len() implies d[x].name != k by {
                    assert(d[x] == new[x]);
                }
                assert(!mentions(d, k));
                if holds(old, k, new[i].value) {
                    let j = choose|j: int| 0 <= j < old.len() && old[j].name == k && same_value(old[j].value, new[i].value);
                    assert(mentions(old, k));
                    lemma_apply_set_ops_other(m, old, d, k);
                }
            }
        }
    }
}

proof fn lemma_apply_set_ops_other(m: Map<PropName, Value>, old: Seq<Prop>, new: Seq<Prop>, k: PropName)
    requires
        m.dom().contains(k),
        !mentions(new, k),
    ensures
        apply_prop_ops(m, set_ops(old, new))[k] == m[k],
    decreases new.len(),
{
    if new.len() == 0 {
        assert(set_ops(old, new) =~= Seq::<PropOp>::empty());
    } else {
        let d = new.drop_last();
        let last = new.len() - 1;
        assert(!mentions(d, k)) by {
            if mentions(d, k) {
                let x = choose|x: int| 0 <= x < d.len() && d[x].name == k;
                assert(d[x] == new[x]);
            }
        }
        lemma_apply_set_ops_other(m, old, d, k);
        if !holds(old, new[last].name, new[last].value) {
            let ops = set_ops(old, new);
            assert(ops.drop_last() =~= set_ops(old, d));
        }
        assert(new[last].name != k);
    }
}

proof fn lemma_apply_unset_ops(m: Map<PropName, Value>, old: Seq<Prop>, new: Seq<Prop>, k: PropName)
    ensures
        apply_prop_ops(m, unset_ops(old, new)).dom().contains(k) <==> (m.dom().contains(k) && !(
        mentions(old, k) && !mentions(new, k))),
        apply_prop_ops(m, unset_ops(old, new)).dom().contains(k) ==> apply_prop_ops(
            m,
            unset_ops(old, new),
        )[k] == m[k],
    decreases old.len(),
{
    if old.len() == 0 {
        assert(unset_ops(old, new) =~= Seq::<PropOp>::empty());
    } else {
        let d = old.drop_last();
        let last = old.len() - 1;
        lemma_apply_unset_ops(m, d, new, k);
        let rd = apply_prop_ops(m, unset_ops(d, new));
        let r = apply_prop_ops(m, unset_ops(old, new));
        if !mentions(new, old[last].name) {
            let ops = unset_ops(old, new);
            assert(ops.drop_last() =~= unset_ops(d, new));
            assert(r == rd.remove(old[last].name));
        } else {
            assert(r == rd);
        }
        if mentions(old, k) {
            let x = choose|x: int| 0 <= x < old.len() && old[x].name == k;
            if x < last {
                assert(d[x] == old[x]);
            }
        }
        if mentions(d, k) {
            let x = choose|x: int| 0 <= x < d.len() && d[x].name == k;
            assert(d[x] == old[x]);
        }
    }
}

/// Applying the property operations to the widget's map from the last
/// render gives the new render's map: the same names, each bound to the
/// same value as in the new render.
pub proof fn lemma_prop_ops_sound(old: Seq<Prop>, new: Seq<Prop>)
    requires
        unique_names(old),
        unique_names(new),
    ensures
        forall|k: PropName|
            #[trigger] apply_prop_ops(prop_map(old), prop_ops(old, new)).dom().contains(k)
                <==> mentions(new, k),
        forall|i: int|
            0 <= i < new.len() ==> same_value(
                apply_prop_ops(prop_map(old), prop_ops(old, new))[#[trigger] new[i].name],
                new[i].value,
            ),
{
    let m = prop_map(old);
    lemma_prop_map(old);
    lemma_apply_concat(m, set_ops(old, new), unset_ops(old, new));
    let ms = apply_prop_ops(m, set_ops(old, new));
    let r = apply_prop_ops(m, prop_ops(old, new));
    assert(r == apply_prop_ops(ms, unset_ops(old, new)));
    assert forall|k: PropName| #[trigger] r.dom().contains(k) <==> mentions(new, k) by {
        lemma_apply_set_ops(m, old, new, k, 0);
        lemma_apply_unset_ops(ms, old, new, k);
    }
    assert forall|i: int| 0 <= i < new.len() implies same_value(r[#[trigger] new[i].name], new[i].value) by {
        let k = new[i].name;
        lemma_apply_set_ops(m, old, new, k, i);
        lemma_apply_unset_ops(ms, old, new, k);
        assert(mentions(new, k));
        if holds(old, k, new[i].value) {
            let j = choose|j: int| 0 <= j < old.len() && old[j].name == k && same_value(old[j].value, new[i].value);
            assert(m[old[j].name] == old[j].value);
        }
    }
}

/// Two property lists with the same names in the same order, bound to the
/// same values.
pub open spec fn props_alike(x: Seq<Prop>, y: Seq<Prop>) -> bool {
    &&& x.len() == y.len()
    &&& forall|i: int| 0 <= i < x.len() ==> #[trigger] x[i].name == y[i].name && same_value(x[i].value, y[i].value)
}

/// Two trees that differ at most in which text objects hold equal text.
pub open spec fn alike(a: VNode, b: VNode) -> bool
    decreases a,
{
    &&& a.kind == b.kind
    &&& props_alike(a.props@, b.props@)
    &&& props_alike(a.hints@, b.hints@)
    &&& a.handlers@ == b.handlers@
    &&& a.children.len() == b.children.len()
    &&& forall|i: int| 0 <= i < a.children.len() ==> alike(a.children@[i], #[trigger] b.children@[i])
}

proof fn lemma_props_alike_none(x: Seq<Prop>, y: Seq<Prop>)
    requires
        props_alike(x, y),
    ensures
        prop_ops(x, y).len() == 0,
{
    assert forall|i: int| 0 <= i < y.len() implies holds(x, #[trigger] y[i].name, y[i].value) by {
        assert(x[i].name == y[i].name && same_value(x[i].value, y[i].value));
    }
    assert forall|i: int| 0 <= i < x.len() implies mentions(y, #[trigger] x[i].name) by {
        assert(x[i].name == y[i].name);
    }
    lemma_set_ops_none(x, y);
    lemma_unset_ops_none(x, y);
}

/// Reconciling a tree with one alike to it yields no operation: two renders
/// of one state that hold equal text reconcile to an empty patch.
pub proof fn lemma_alike_noop(a: VNode, b: VNode, placed: bool, p: Patch)
    requires
        alike(a, b),
        patch_for(a, b, placed, p),
    ensures
        is_noop(p),
    decreases b,
{
    lemma_props_alike_none(a.props@, b.props@);
    lemma_props_alike_none(a.hints@, b.hints@);
    lemma_handler_ops_same(a.handlers@);
    match p {
        Patch::Replace => {},
        Patch::Update { children, .. } => {
            assert forall|i: int| 0 <= i < children.len() implies match #[trigger] children@[i] {
                ChildPatch::Diff(q) => is_noop(q),
                _ => false,
            } by {
                match children@[i] {
                    ChildPatch::Diff(q) => {
                        assert(alike(a.children@[i], b.children@[i]));
                        lemma_alike_noop(a.children@[i], b.children@[i], lays_out_hints(b.kind), q);
                    },
                    _ => {},
                }
            }
        },
    }
}

} // verus!
