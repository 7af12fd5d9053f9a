//! The reconciler: computes the patch that turns the previously rendered
//! virtual tree into the new one.
use vstd::prelude::*;
use crate::vnode::{EventName, Handler, Kind, PropName, Prop, VNode, Value, Widget, same_value};

verus! {

/// An operation on one property map of a live widget. Names that neither
/// render mentions get no operation: the widget keeps its own value.
#[derive(Debug)]
pub enum PropOp {
    SetProp(PropName, Value),
    UnsetProp(PropName),
}

/// An operation on the handler map of a live widget. `Attach` detaches any
/// handler bound to the event before attaching the new one.
#[derive(Clone, Copy, Debug, PartialEq, Eq, Structural)]
pub enum HandlerOp {
    Attach(EventName, u32, usize),
    Detach(EventName),
}

/// Whether the map `ps` holds `name` bound to a value the same as `v`.
pub open spec fn holds(ps: Seq<Prop>, name: PropName, v: Value) -> bool {
    exists|i: int| 0 <= i < ps.len() && ps[i].name == name && same_value(ps[i].value, v)
}

/// Whether the map `ps` mentions `name`.
pub open spec fn mentions(ps: Seq<Prop>, name: PropName) -> bool {
    exists|i: int| 0 <= i < ps.len() && ps[i].name == name
}

/// The `Set` operations: one for each entry of `new`, in order, whose value
/// `old` does not already hold.
pub open spec fn set_ops(old: Seq<Prop>, new: Seq<Prop>) -> Seq<PropOp>
    decreases new.len(),
{
    if new.len() == 0 {
        seq![]
    } else {
        let p = new.last();
        let rest = set_ops(old, new.drop_last());
        if holds(old, p.name, p.value) {
            rest
        } else {
            rest.push(PropOp::SetProp(p.name, p.value))
        }
    }
}

/// The `Unset` operations: one for each entry of `old`, in order, whose name
/// `new` no longer mentions.
pub open spec fn unset_ops(old: Seq<Prop>, new: Seq<Prop>) -> Seq<PropOp>
    decreases old.len(),
{
    if old.len() == 0 {
        seq![]
    } else {
        let p = old.last();
        let rest = unset_ops(old.drop_last(), new);
        if mentions(new, p.name) {
            rest
        } else {
            rest.push(PropOp::UnsetProp(p.name))
        }
    }
}

/// The operations that turn property map `old` into `new`.
pub open spec fn prop_ops(old: Seq<Prop>, new: Seq<Prop>) -> Seq<PropOp> {
    set_ops(old, new) + unset_ops(old, new)
}

fn holds_exec(ps: &Vec<Prop>, name: PropName, v: &Value) -> (r: bool)
    ensures
        r == holds(ps@, name, *v),
{
    let mut i: usize = 0;
    while i < ps.len()
        invariant
            0 <= i <= ps.len(),
            forall|j: int| 0 <= j < i ==> !(ps@[j].name == name && same_value(ps@[j].value, *v)),
        decreases ps.len() - i,
    {
        if ps[i].name == name && ps[i].value.same(v) {
            return true;
        }
        i = i + 1;
    }
    false
}

fn mentions_exec(ps: &Vec<Prop>, name: PropName) -> (r: bool)
    ensures
        r == mentions(ps@, name),
{
    let mut i: usize = 0;
    while i < ps.len()
        invariant
            0 <= i <= ps.len(),
            forall|j: int| 0 <= j < i ==> ps@[j].name != name,
        decreases ps.len() - i,
    {
        if ps[i].name == name {
            return true;
        }
        i = i + 1;
    }
    false
}

/// The property operations from `old` to `new`: a `Set` for each entry of
/// `new` whose value differs from (or is missing in) `old`, then an `Unset`
/// for each name of `old` that `new` drops.
pub fn diff_props(old: &Vec<Prop>, new: &Vec<Prop>) -> (r: Vec<PropOp>)
    ensures
        r@ == prop_ops(old@, new@),
{
    let mut r: Vec<PropOp> = Vec::new();
    let mut i: usize = 0;
    while i < new.len()
        invariant
            0 <= i <= new.len(),
            r@ == set_ops(old@, new@.subrange(0, i as int)),
        decreases new.len() - i,
    {
        assert(new@.subrange(0, i + 1).drop_last() =~= new@.subrange(0, i as int));
        if !holds_exec(old, new[i].name, &new[i].value) {
            r.push(PropOp::SetProp(new[i].name, new[i].value.duplicate()));
        }
        i = i + 1;
    }
    assert(new@.subrange(0, new.len() as int) =~= new@);
    let ghost sets = r@;
    let mut j: usize = 0;
    while j < old.len()
        invariant
            0 <= j <= old.len(),
            r@ == sets + unset_ops(old@.subrange(0, j as int), new@),
            sets == set_ops(old@, new@),
        decreases old.len() - j,
    {
        assert(old@.subrange(0, j + 1).drop_last() =~= old@.subrange(0, j as int));
        if !mentions_exec(new, old[j].name) {
            r.push(PropOp::UnsetProp(old[j].name));
            assert(r@ =~= sets + unset_ops(old@.subrange(0, j + 1), new@));
        }
        j = j + 1;
    }
    assert(old@.subrange(0, old.len() as int) =~= old@);
    r
}

/// Attach operations: one for each handler of `new`, in order, that `old`
/// does not already hold with the same message.
pub open spec fn attach_ops(old: Seq<Handler>, new: Seq<Handler>) -> Seq<HandlerOp>
    decreases new.len(),
{
    if new.len() == 0 {
        seq![]
    } else {
        let h = new.last();
        let rest = attach_ops(old, new.drop_last());
        if old.contains(h) {
            rest
        } else {
            rest.push(HandlerOp::Attach(h.event, h.message, h.arg))
        }
    }
}

/// Whether the handler map `hs` has a handler for `event`.
pub open spec fn listens(hs: Seq<Handler>, event: EventName) -> bool {
    exists|i: int| 0 <= i < hs.len() && hs[i].event == event
}

/// Detach operations: one for each handler of `old`, in order, whose event
/// `new` no longer listens to.
pub open spec fn detach_ops(old: Seq<Handler>, new: Seq<Handler>) -> Seq<HandlerOp>
    decreases old.len(),
{
    if old.len() == 0 {
        seq![]
    } else {
        let h = old.last();
        let rest = detach_ops(old.drop_last(), new);
        if listens(new, h.event) {
            rest
        } else {
            rest.push(HandlerOp::Detach(h.event))
        }
    }
}

/// The operations that turn handler map `old` into `new`.
pub open spec fn handler_ops(old: Seq<Handler>, new: Seq<Handler>) -> Seq<HandlerOp> {
    attach_ops(old, new) + detach_ops(old, new)
}

fn contains_handler(hs: &Vec<Handler>, h: Handler) -> (r: bool)
    ensures
        r == hs@.contains(h),
{
    let mut i: usize = 0;
    while i < hs.len()
        invariant
            0 <= i <= hs.len(),
            forall|j: int| 0 <= j < i ==> hs@[j] != h,
        decreases hs.len() - i,
    {
        if hs[i] == h {
            return true;
        }
        i = i + 1;
    }
    false
}

fn listens_exec(hs: &Vec<Handler>, event: EventName) -> (r: bool)
    ensures
        r == listens(hs@, event),
{
    let mut i: usize = 0;
    while i < hs.len()
        invariant
            0 <= i <= hs.len(),
            forall|j: int| 0 <= j < i ==> hs@[j].event != event,
        decreases hs.len() - i,
    {
        if hs[i].event == event {
            return true;
        }
        i = i + 1;
    }
    false
}

/// The handler operations from `old` to `new`: handlers are replaced
/// wholesale when their message changes, and detached when their event is
/// gone.
pub fn diff_handlers(old: &Vec<Handler>, new: &Vec<Handler>) -> (r: Vec<HandlerOp>)
    ensures
        r@ == handler_ops(old@, new@),
{
    let mut r: Vec<HandlerOp> = Vec::new();
    let mut i: usize = 0;
    while i < new.len()
        invariant
            0 <= i <= new.len(),
            r@ == attach_ops(old@, new@.subrange(0, i as int)),
        decreases new.len() - i,
    {
        assert(new@.subrange(0, i + 1).drop_last() =~= new@.subrange(0, i as int));
        if !contains_handler(old, new[i]) {
            r.push(HandlerOp::Attach(new[i].event, new[i].message, new[i].arg));
        }
        i = i + 1;
    }
    assert(new@.subrange(0, new.len() as int) =~= new@);
    let ghost attaches = r@;
    let mut j: usize = 0;
    while j < old.len()
        invariant
            0 <= j <= old.len(),
            r@ == attaches + detach_ops(old@.subrange(0, j as int), new@),
            attaches == attach_ops(old@, new@),
        decreases old.len() - j,
    {
        assert(old@.subrange(0, j + 1).drop_last() =~= old@.subrange(0, j as int));
        if !listens_exec(new, old[j].event) {
            r.push(HandlerOp::Detach(old[j].event));
            assert(r@ =~= attaches + detach_ops(old@.subrange(0, j + 1), new@));
        }
        j = j + 1;
    }
    assert(old@.subrange(0, old.len() as int) =~= old@);
    r
}

/// The patch for one structural position.
#[derive(Debug)]
pub enum Patch {
    /// Kinds differ: destroy the old subtree, then create the new one.
    Replace,
    /// Same kind: update in place, and reconcile children by index.
    /// `misplaced` reports child-placement hints given to a node whose
    /// parent does not lay its children out by hints; they are skipped.
    Update {
        props: Vec<PropOp>,
        hints: Vec<PropOp>,
        misplaced: bool,
        handlers: Vec<HandlerOp>,
        children: Vec<ChildPatch>,
    },
}

/// The patch for the child at one index.
#[derive(Debug)]
pub enum ChildPatch {
    /// Both lists have a child here: reconcile the two.
    Diff(Patch),
    /// Only the new list has a child here: create it.
    Create,
    /// Only the old list has a child here: destroy it.
    Remove,
}

/// Whether a node of kind `k` lays its children out by placement hints.
pub open spec fn lays_out_hints(k: Kind) -> bool {
    k == Kind::Widget(Widget::Box)
}

fn lays_out_hints_exec(k: Kind) -> (r: bool)
    ensures
        r == lays_out_hints(k),
{
    k == Kind::Widget(Widget::Box)
}

/// `p` is the patch that reconciles `old` with `new` at one position;
/// `placed` tells whether the parent lays its children out by hints.
pub open spec fn patch_for(old: VNode, new: VNode, placed: bool, p: Patch) -> bool
    decreases new,
{
    if old.kind != new.kind {
        p is Replace
    } else {
        match p {
            Patch::Replace => false,
            Patch::Update { props, hints, misplaced, handlers, children } => {
                &&& props@ == prop_ops(old.props@, new.props@)
                &&& hints@ == if placed {
                    prop_ops(old.hints@, new.hints@)
                } else {
                    Seq::<PropOp>::empty()
                }
                &&& misplaced == (!placed && new.hints.len() > 0)
                &&& handlers@ == handler_ops(old.handlers@, new.handlers@)
                &&& children.len() == if old.children.len() < new.children.len() {
                    new.children.len()
                } else {
                    old.children.len()
                }
                &&& forall|i: int|
                    0 <= i < children.len() ==> match #[trigger] children@[i] {
                        ChildPatch::Diff(q) => i < old.children.len() && i < new.children.len()
                            && patch_for(
                            old.children@[i],
                            new.children@[i],
                            lays_out_hints(new.kind),
                            q,
                        ),
                        ChildPatch::Create => old.children.len() <= i < new.children.len(),
                        ChildPatch::Remove => new.children.len() <= i < old.children.len(),
                    }
            },
        }
    }
}

/// A patch that performs no native-tree operation.
pub open spec fn is_noop(p: Patch) -> bool
    decreases p,
{
    match p {
        Patch::Replace => false,
        Patch::Update { props, hints, handlers, children, .. } => {
            &&& props.len() == 0
            &&& hints.len() == 0
            &&& handlers.len() == 0
            &&& forall|i: int|
                0 <= i < children.len() ==> match #[trigger] children@[i] {
                    ChildPatch::Diff(q) => is_noop(q),
                    _ => false,
                }
        },
    }
}

/// Reconciles `old` (the tree rendered last at the root) with `new`.
pub fn diff(old: &VNode, new: &VNode) -> (p: Patch)
    ensures
        patch_for(*old, *new, false, p),
{
    diff_at(old, new, false)
}

/// Reconciles `old` with `new` at a position whose parent lays children
/// out by hints exactly when `placed`.
pub fn diff_at(old: &VNode, new: &VNode, placed: bool) -> (p: Patch)
    ensures
        patch_for(*old, *new, placed, p),
    decreases new,
{
    if old.kind != new.kind {
        return Patch::Replace;
    }
    let props = diff_props(&old.props, &new.props);
    let hints = if placed {
        diff_props(&old.hints, &new.hints)
    } else {
        Vec::new()
    };
    let misplaced = !placed && new.hints.len() > 0;
    let handlers = diff_handlers(&old.handlers, &new.handlers);
    let inner = lays_out_hints_exec(new.kind);
    let n: usize = if old.children.len() < new.children.len() {
        new.children.len()
    } else {
        old.children.len()
    };
    let mut children: Vec<ChildPatch> = Vec::new();
    let mut i: usize = 0;
    while i < n
        invariant
            0 <= i <= n,
            inner == lays_out_hints(new.kind),
            n == if old.children.len() < new.children.len() {
                new.children.len()
            } else {
                old.children.len()
            },
            children.len() == i,
            forall|j: int|
                0 <= j < i ==> match #[trigger] children@[j] {
                    ChildPatch::Diff(q) => j < old.children.len() && j < new.children.len()
                        && patch_for(old.children@[j], new.children@[j], inner, q),
                    ChildPatch::Create => old.children.len() <= j < new.children.len(),
                    ChildPatch::Remove => new.children.len() <= j < old.children.len(),
                },
        decreases n - i,
    {
        if i < old.children.len() && i < new.children.len() {
            let q = diff_at(&old.children[i], &new.children[i], inner);
            children.push(ChildPatch::Diff(q));
        } else if i < new.children.len() {
            children.push(ChildPatch::Create);
        } else {
            children.push(ChildPatch::Remove);
        }
        i = i + 1;
    }
    Patch::Update { props, hints, misplaced, handlers, children }
}

} // verus!
