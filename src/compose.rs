//! Nested components: a component reference in a rendered tree is given
//! the subtree its instance renders, so that reconciliation recurses across
//! component boundaries like any other child list.
use vstd::prelude::*;
use crate::vnode::{EventName, Handler, Kind, Prop, PropName, VNode, Value};
use crate::todo::{Filter, filter_at};
use crate::radio::{Callback, Emitted, Radio, RadioMsg, RADIO, radio_view};

verus! {

/// The filter that a radio reference's properties select: the first
/// `Active` tag naming a filter, else `All`.
pub open spec fn active_of(ps: Seq<Prop>) -> Filter
    decreases ps.len(),
{
    if ps.len() == 0 {
        Filter::All
    } else if ps[0].name == PropName::Active && ps[0].value is Tag && ps[0].value->Tag_0 < 3 {
        filter_at(ps[0].value->Tag_0 as usize)
    } else {
        active_of(ps.drop_first())
    }
}

/// The callback that a radio reference's handlers install: the first
/// handler of the `Changed` event, if any.
pub open spec fn callback_of(hs: Seq<Handler>) -> Option<Callback>
    decreases hs.len(),
{
    if hs.len() == 0 {
        None
    } else if hs[0].event == EventName::Changed {
        Some(Callback { message: hs[0].message })
    } else {
        callback_of(hs.drop_first())
    }
}

/// The properties of the radio instance that a reference stands for.
pub fn radio_props(props: &Vec<Prop>, handlers: &Vec<Handler>) -> (r: Radio)
    ensures
        r.active == active_of(props@),
        r.on_changed == callback_of(handlers@),
{
    let mut active = Filter::All;
    let mut i: usize = props.len();
    while i > 0
        invariant
            0 <= i <= props.len(),
            active == active_of(props@.subrange(i as int, props.len() as int)),
        decreases i,
    {
        i = i - 1;
        let ghost tail = props@.subrange(i as int, props.len() as int);
        assert(tail.drop_first() =~= props@.subrange(i + 1, props.len() as int));
        if props[i].name == PropName::Active {
            match props[i].value {
                Value::Tag(t) => {
                    if t < 3 {
                        active = filter_at_exec(t);
                    }
                },
                _ => {},
            }
        }
    }
    assert(props@.subrange(0, props.len() as int) =~= props@);
    let mut on_changed: Option<Callback> = None;
    let mut j: usize = handlers.len();
    while j > 0
        invariant
            0 <= j <= handlers.len(),
            on_changed == callback_of(handlers@.subrange(j as int, handlers.len() as int)),
        decreases j,
    {
        j = j - 1;
        let ghost tail = handlers@.subrange(j as int, handlers.len() as int);
        assert(tail.drop_first() =~= handlers@.subrange(j + 1, handlers.len() as int));
        if handlers[j].event == EventName::Changed {
            on_changed = Some(Callback { message: handlers[j].message });
        }
    }
    assert(handlers@.subrange(0, handlers.len() as int) =~= handlers@);
    Radio::create(Radio { active, on_changed })
}

fn filter_at_exec(t: u32) -> (r: Filter)
    requires
        t < 3,
    ensures
        r == filter_at(t as usize),
{
    if t == 0 {
        Filter::All
    } else if t == 1 {
        Filter::Active
    } else {
        Filter::Completed
    }
}

/// `r` is `n` with each radio reference given its instance's rendering as
/// its only child; everything else is kept.
pub open spec fn expanded(n: VNode, r: VNode) -> bool
    decreases n,
{
    &&& r.kind == n.kind
    &&& r.props == n.props
    &&& r.hints == n.hints
    &&& r.handlers == n.handlers
    &&& if n.kind == Kind::Component(RADIO) {
        r.children.len() == 1 && radio_view(r.children@[0], active_of(n.props@))
    } else {
        &&& r.children.len() == n.children.len()
        &&& forall|i: int|
            0 <= i < n.children.len() ==> expanded(n.children@[i], #[trigger] r.children@[i])
    }
}

/// Renders every radio reference of `n` into its subtree.
pub fn expand(n: VNode) -> (r: VNode)
    ensures
        expanded(n, r),
    decreases n,
{
    let ghost g = n;
    let VNode { kind, props, hints, handlers, children } = n;
    if kind == Kind::Component(RADIO) {
        let radio = radio_props(&props, &handlers);
        let inner = radio.view();
        return VNode { kind, props, hints, handlers, children: vec![inner] };
    }
    let mut rest = children;
    let mut done: Vec<VNode> = Vec::new();
    while rest.len() > 0
        invariant
            g == n,
            done.len() + rest.len() == g.children.len(),
            rest@ == g.children@.subrange(done.len() as int, g.children.len() as int),
            forall|i: int| 0 <= i < done.len() ==> expanded(g.children@[i], #[trigger] done@[i]),
        decreases rest.len(),
    {
        let k: usize = done.len();
        let child = rest.remove(0);
        assert(child == g.children@[k as int]);
        proof {
            vstd::std_specs::vec::axiom_vec_index_decreases(g.children, k as int);
        }
        assert(rest@ =~= g.children@.subrange(k + 1, g.children.len() as int));
        let e = expand(child);
        done.push(e);
    }
    VNode { kind, props, hints, handlers, children: done }
}

/// The node reached from `t` by following the child indices of `path`.
pub open spec fn node_at(t: VNode, path: Seq<usize>) -> Option<VNode>
    decreases path.len(),
{
    if path.len() == 0 {
        Some(t)
    } else {
        match node_at(t, path.drop_last()) {
            Some(n) => if (path.last() as int) < n.children.len() {
                Some(n.children@[path.last() as int])
            } else {
                None
            },
            None => None,
        }
    }
}

/// Looks up the node at `path` below `t`.
pub fn find_node<'a>(t: &'a VNode, path: &Vec<usize>) -> (r: Option<&'a VNode>)
    ensures
        r is Some <==> node_at(*t, path@) is Some,
        r is Some ==> *r->Some_0 == node_at(*t, path@)->Some_0,
{
    let mut n: &VNode = t;
    let mut i: usize = 0;
    while i < path.len()
        invariant
            0 <= i <= path.len(),
            node_at(*t, path@.subrange(0, i as int)) == Some(*n),
        decreases path.len() - i,
    {
        let ghost next = path@.subrange(0, i + 1);
        assert(next.drop_last() =~= path@.subrange(0, i as int));
        if path[i] < n.children.len() {
            n = &n.children[path[i]];
        } else {
            proof {
                lemma_node_at_none_extends(*t, path@, i + 1);
            }
            return None;
        }
        i = i + 1;
    }
    assert(path@.subrange(0, path.len() as int) =~= path@);
    Some(n)
}

proof fn lemma_node_at_none_extends(t: VNode, path: Seq<usize>, k: int)
    requires
        0 <= k <= path.len(),
        node_at(t, path.subrange(0, k)) is None,
    ensures
        node_at(t, path) is None,
    decreases path.len() - k,
{
    if k < path.len() {
        assert(path.subrange(0, k + 1).drop_last() =~= path.subrange(0, k));
        lemma_node_at_none_extends(t, path, k + 1);
    } else {
        assert(path.subrange(0, k) =~= path);
    }
}

/// The instance that a radio reference `n` stands for.
pub open spec fn instance_of(n: VNode) -> Radio {
    Radio { active: active_of(n.props@), on_changed: callback_of(n.handlers@) }
}

/// Keeps the radio instance at structural position `path` of the rendered
/// tree `tree` in step with it. A radio reference there updates the live
/// instance through `change` (or creates one if there was none) and asks
/// for a redraw; anything else destroys the instance.
pub fn reconcile_instance(slot: &mut Option<Radio>, tree: &VNode, path: &Vec<usize>) -> (redraw: bool)
    ensures
        match node_at(*tree, path@) {
            Some(n) => if n.kind == Kind::Component(RADIO) {
                *final(slot) == Some(instance_of(n)) && redraw
            } else {
                *final(slot) is None && !redraw
            },
            None => *final(slot) is None && !redraw,
        },
{
    match find_node(tree, path) {
        Some(n) => {
            if n.kind == Kind::Component(RADIO) {
                let props = radio_props(&n.props, &n.handlers);
                match slot {
                    Some(live) => {
                        live.change(props);
                    },
                    None => {
                        *slot = Some(Radio::create(props));
                    },
                }
                true
            } else {
                *slot = None;
                false
            }
        },
        None => {
            *slot = None;
            false
        },
    }
}

/// A toggle of button `arg` inside the radio group at a position. A live
/// instance selects that filter and returns what its callback sends to the
/// parent; a destroyed instance (a stale callback) or an unknown button
/// does nothing.
pub fn radio_event(slot: &mut Option<Radio>, arg: usize) -> (r: Option<Emitted>)
    ensures
        match *old(slot) {
            Some(radio) => if arg < 3 {
                &&& *final(slot) == Some(Radio { active: filter_at(arg), on_changed: radio.on_changed })
                &&& r == match radio.on_changed {
                    Some(cb) => Some((Emitted { message: cb.message, arg })),
                    None => None,
                }
            } else {
                *final(slot) == *old(slot) && r is None
            },
            None => *final(slot) is None && r is None,
        },
{
    match slot {
        Some(live) => {
            match RadioMsg::from_handler(crate::radio::RADIO_SELECTED, arg) {
                Some(msg) => {
                    let (_, sent) = live.update(msg);
                    sent
                },
                None => None,
            }
        },
        None => None,
    }
}

} // verus!
