//! Components and the dispatch loop that owns the root component and the
//! tree it rendered last.
use vstd::prelude::*;
use crate::vnode::VNode;
use crate::diff::{Patch, diff, patch_for};

verus! {

/// A unit of state that consumes messages and renders a virtual tree.
pub trait Component: Sized {
    type Message;
    type Error;
    type State;

    /// The abstract state of the instance.
    spec fn state(&self) -> Self::State;

    /// The effect of one message: the next state and whether a redraw is
    /// needed, or the error that `update` surfaces.
    spec fn step(s: Self::State, msg: Self::Message) -> Result<(Self::State, bool), Self::Error>;

    /// `v` is a rendering of state `s`.
    spec fn renders(s: Self::State, v: VNode) -> bool;

    /// `msg` is the designated message that ends the dispatch loop.
    spec fn exits(msg: Self::Message) -> bool;

    fn update(&mut self, msg: Self::Message) -> (r: Result<bool, Self::Error>)
        ensures
            match Self::step(old(self).state(), msg) {
                Ok((s, redraw)) => r == Ok::<bool, Self::Error>(redraw) && final(self).state() == s,
                Err(e) => r == Err::<bool, Self::Error>(e) && final(self).state() == old(
                    self,
                ).state(),
            },
    ;

    fn view(&self) -> (v: VNode)
        ensures
            Self::renders(self.state(), v),
    ;

    fn is_exit(msg: &Self::Message) -> (r: bool)
        ensures
            r == Self::exits(*msg),
    ;
}

/// What draining a batch of messages from state `s` gives: the final state,
/// whether any update asked for a redraw, whether the exit message was met
/// (the messages after it are dropped), and the error that stopped the
/// drain, if any (the messages after it are dropped too).
pub open spec fn drain<C: Component>(s: C::State, msgs: Seq<C::Message>) -> (
    C::State,
    bool,
    bool,
    Option<C::Error>,
)
    decreases msgs.len(),
{
    if msgs.len() == 0 {
        (s, false, false, None)
    } else if C::exits(msgs[0]) {
        (s, false, true, None)
    } else {
        match C::step(s, msgs[0]) {
            Err(e) => (s, false, false, Some(e)),
            Ok((t, redraw)) => {
                let rest = drain::<C>(t, msgs.drop_first());
                (rest.0, redraw || rest.1, rest.2, rest.3)
            },
        }
    }
}

/// The dispatch loop's state: the root component, the tree it rendered
/// last (the record the next render is reconciled against), and whether
/// the loop still accepts messages.
pub struct Runtime<C: Component> {
    pub root: C,
    pub tree: VNode,
    pub running: bool,
}

impl<C: Component> Runtime<C> {
    /// Takes ownership of the root component and renders it once.
    pub fn start(root: C) -> (r: Runtime<C>)
        ensures
            r.root.state() == root.state(),
            C::renders(root.state(), r.tree),
            r.running,
    {
        let tree = root.view();
        Runtime { root, tree, running: true }
    }

    /// Drains `batch` into the root component in order, then renders at most
    /// once: when some update asked for a redraw, the new tree is reconciled
    /// against the one rendered last, remembered, and the patch returned.
    /// The exit message stops the loop without a render; an update error
    /// aborts the pass without a render and is returned. A stopped loop
    /// ignores every message.
    pub fn dispatch(&mut self, batch: Vec<C::Message>) -> (r: Result<Option<Patch>, C::Error>)
        ensures
            !old(self).running ==> r is Ok && r->Ok_0 is None && final(self).running == false
                && final(self).root.state() == old(self).root.state() && final(self).tree
                == old(self).tree,
            old(self).running ==> {
                let d = drain::<C>(old(self).root.state(), batch@);
                &&& final(self).root.state() == d.0
                &&& final(self).running == !d.2
                &&& match d.3 {
                    Some(e) => r == Err::<Option<Patch>, C::Error>(e) && final(self).tree == old(
                        self,
                    ).tree,
                    None => if d.1 && !d.2 {
                        r matches Ok(Some(p)) && patch_for(old(self).tree, final(self).tree, false, p)
                            && C::renders(d.0, final(self).tree)
                    } else {
                        r matches Ok(None) && final(self).tree == old(self).tree
                    },
                }
            },
    {
        if !self.running {
            return Ok(None);
        }
        let ghost total = drain::<C>(self.root.state(), batch@);
        let mut pending = batch;
        let mut redraw = false;
        while pending.len() > 0
            invariant
                self.running,
                old(self).running,
                total == drain::<C>(old(self).root.state(), batch@),
                self.tree == old(self).tree,
                ({
                    let rest = drain::<C>(self.root.state(), pending@);
                    total == (rest.0, redraw || rest.1, rest.2, rest.3)
                }),
            decreases pending.len(),
        {
            let ghost before = pending@;
            let msg = pending.remove(0);
            assert(pending@ =~= before.drop_first());
            if C::is_exit(&msg) {
                self.running = false;
                return Ok(None);
            }
            match self.root.update(msg) {
                Err(e) => {
                    return Err(e);
                },
                Ok(again) => {
                    redraw = redraw || again;
                },
            }
        }
        if redraw {
            let next = self.root.view();
            let p = diff(&self.tree, &next);
            self.tree = next;
            Ok(Some(p))
        } else {
            Ok(None)
        }
    }
}

/// Two messages dispatched together, each asking for a redraw, are drained
/// into one state before a single render: the pass reflects both.
pub proof fn lemma_batch_single_pass<C: Component>(
    s: C::State,
    t: C::State,
    u: C::State,
    m1: C::Message,
    m2: C::Message,
)
    requires
        !C::exits(m1),
        !C::exits(m2),
        C::step(s, m1) == Ok::<(C::State, bool), C::Error>((t, true)),
        C::step(t, m2) == Ok::<(C::State, bool), C::Error>((u, true)),
    ensures
        drain::<C>(s, seq![m1, m2]) == (u, true, false, None::<C::Error>),
{
    let ms = seq![m1, m2];
    assert(ms.drop_first() =~= seq![m2]);
    assert(seq![m2].drop_first() =~= Seq::<C::Message>::empty());
    assert(drain::<C>(u, Seq::<C::Message>::empty()) == (u, false, false, None::<C::Error>));
    assert(drain::<C>(t, seq![m2]) == (u, true, false, None::<C::Error>));
}

} // verus!
