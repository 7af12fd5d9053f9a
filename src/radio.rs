//! A radio group over the todo filters: a component embedded by reference,
//! which tells its parent of a new choice through a callback.
use vstd::prelude::*;
use crate::vnode::{EventName, Handler, Kind, Prop, PropName, VNode, Value, Widget, HORIZONTAL};
use crate::todo::{Filter, filter_at, filter_index, filter_name};
use crate::diff::{Patch, is_noop, patch_for};
use crate::laws::{alike, lemma_alike_noop, props_alike};

verus! {

/// Component type number of the radio group.
pub const RADIO: u32 = 1;

/// Message code of a radio button being toggled; the argument is the index
/// of its filter.
pub const RADIO_SELECTED: u32 = 100;

/// A child-to-parent conduit: sending a value yields the parent's message
/// `message` with that value as its argument.
#[derive(Clone, Copy, Debug, PartialEq, Eq, Structural)]
pub struct Callback {
    pub message: u32,
}

/// A message addressed to the parent component.
#[derive(Clone, Copy, Debug, PartialEq, Eq, Structural)]
pub struct Emitted {
    pub message: u32,
    pub arg: usize,
}

impl Callback {
    /// The parent message for `value`.
    pub fn send(&self, value: usize) -> (r: Emitted)
        ensures
            r == (Emitted { message: self.message, arg: value }),
    {
        Emitted { message: self.message, arg: value }
    }
}

/// Messages of the radio group.
#[derive(Clone, Copy, Debug, PartialEq, Eq, Structural)]
pub enum RadioMsg {
    Selected(Filter),
}

impl RadioMsg {
    /// The message that a toggle button of the group produces.
    pub fn from_handler(message: u32, arg: usize) -> (r: Option<RadioMsg>)
        ensures
            message == RADIO_SELECTED && arg < 3 ==> r == Some(RadioMsg::Selected(filter_at(arg))),
            !(message == RADIO_SELECTED && arg < 3) ==> r is None,
    {
        if message != RADIO_SELECTED {
            return None;
        }
        match Filter::from_index(arg) {
            Some(f) => Some(RadioMsg::Selected(f)),
            None => None,
        }
    }
}

/// The radio group: the active filter and the parent's callback, if any.
/// It is its own properties.
#[derive(Clone, Copy, Debug, PartialEq, Eq, Structural)]
pub struct Radio {
    pub active: Filter,
    pub on_changed: Option<Callback>,
}

/// `n` is the toggle button for filter `f` in a group whose choice is `active`.
pub open spec fn toggle_for(n: VNode, f: Filter, active: Filter) -> bool {
    &&& n.kind == Kind::Widget(Widget::ToggleButton)
    &&& n.props.len() == 2
    &&& n.props@[0].name == PropName::Label
    &&& n.props@[0].value matches Value::Text(s) && s@ == filter_name(f)
    &&& n.props@[1] == (Prop { name: PropName::Active, value: Value::Bool(f == active) })
    &&& n.hints@ == Seq::<Prop>::empty()
    &&& n.handlers@ == seq![
        Handler { event: EventName::Toggled, message: RADIO_SELECTED, arg: filter_index(f) },
    ]
    &&& n.children@ == Seq::<VNode>::empty()
}

/// `r` is the radio group's rendering for the choice `active`: a
/// horizontal box with spacing 10 holding one toggle button per filter, in
/// order.
pub open spec fn radio_view(r: VNode, active: Filter) -> bool {
    &&& r.kind == Kind::Widget(Widget::Box)
    &&& r.props@ == seq![
        Prop { name: PropName::Orientation, value: Value::Tag(HORIZONTAL) },
        Prop { name: PropName::Spacing, value: Value::Int(10) },
    ]
    &&& r.hints.len() == 0
    &&& r.handlers.len() == 0
    &&& r.children.len() == 3
    &&& forall|i: int| 0 <= i < 3 ==> toggle_for(#[trigger] r.children@[i], filter_at(i as usize), active)
}

impl Radio {
    /// A new instance holds the properties given.
    pub fn create(props: Radio) -> (r: Radio)
        ensures
            r == props,
    {
        props
    }

    /// New properties from the parent replace the state; always redraws.
    pub fn change(&mut self, props: Radio) -> (r: bool)
        ensures
            *final(self) == props,
            r,
    {
        *self = props;
        true
    }

    /// Selecting a filter makes it active and sends its index through the
    /// callback, if there is one; always redraws.
    pub fn update(&mut self, msg: RadioMsg) -> (r: (bool, Option<Emitted>))
        ensures
            match msg {
                RadioMsg::Selected(f) => {
                    &&& final(self).active == f
                    &&& final(self).on_changed == old(self).on_changed
                    &&& r.0
                    &&& r.1 == match old(self).on_changed {
                        Some(cb) => Some((Emitted { message: cb.message, arg: filter_index(f) })),
                        None => None,
                    }
                },
            },
    {
        match msg {
            RadioMsg::Selected(selected) => {
                self.active = selected;
                let sent = match self.on_changed {
                    Some(cb) => Some(cb.send(selected.index())),
                    None => None,
                };
                (true, sent)
            },
        }
    }

    /// A horizontal box with one toggle button per filter, in order; the
    /// active filter's button is on.
    pub fn view(&self) -> (r: VNode)
        ensures
            radio_view(r, self.active),
    {
        let filters = Filter::all();
        let mut buttons: Vec<VNode> = Vec::new();
        let mut i: usize = 0;
        while i < filters.len()
            invariant
                0 <= i <= filters.len(),
                filters@ == seq![Filter::All, Filter::Active, Filter::Completed],
                buttons.len() == i,
                forall|j: int| 0 <= j < i ==> toggle_for(#[trigger] buttons@[j], filter_at(j as usize), self.active),
            decreases filters.len() - i,
        {
            let f = filters[i];
            let button = VNode {
                kind: Kind::Widget(Widget::ToggleButton),
                props: vec![
                    Prop { name: PropName::Label, value: Value::Text(f.label()) },
                    Prop { name: PropName::Active, value: Value::Bool(f == self.active) },
                ],
                hints: Vec::new(),
                handlers: vec![Handler { event: EventName::Toggled, message: RADIO_SELECTED, arg: f.index() }],
                children: Vec::new(),
            };
            assert(f == filter_at(i));
            assert(button.handlers@ =~= seq![
                Handler { event: EventName::Toggled, message: RADIO_SELECTED, arg: filter_index(f) },
            ]);
            assert(button.hints@ =~= Seq::<Prop>::empty());
            assert(button.children@ =~= Seq::<VNode>::empty());
            buttons.push(button);
            i = i + 1;
        }
        let r = VNode {
            kind: Kind::Widget(Widget::Box),
            props: vec![
                Prop { name: PropName::Orientation, value: Value::Tag(HORIZONTAL) },
                Prop { name: PropName::Spacing, value: Value::Int(10) },
            ],
            hints: Vec::new(),
            handlers: Vec::new(),
            children: buttons,
        };
        assert(r.props@ =~= seq![
            Prop { name: PropName::Orientation, value: Value::Tag(HORIZONTAL) },
            Prop { name: PropName::Spacing, value: Value::Int(10) },
        ]);
        r
    }
}

/// Two renderings of the radio group for one choice are alike, so a
/// re-render after `change` with the same properties reconciles to no
/// operation.
pub proof fn lemma_radio_rerender_noop(a: VNode, b: VNode, active: Filter, p: Patch)
    requires
        radio_view(a, active),
        radio_view(b, active),
        patch_for(a, b, false, p),
    ensures
        is_noop(p),
{
    assert forall|i: int| 0 <= i < 3 implies alike(a.children@[i], #[trigger] b.children@[i]) by {
        let (x, y) = (a.children@[i], b.children@[i]);
        assert(toggle_for(x, filter_at(i as usize), active));
        assert(toggle_for(y, filter_at(i as usize), active));
        assert(props_alike(x.props@, y.props@));
        assert(props_alike(x.hints@, y.hints@));
        assert(x.handlers@ == y.handlers@);
        assert(alike(x, y));
    }
    assert(props_alike(a.props@, b.props@));
    assert(props_alike(a.hints@, b.hints@));
    assert(a.handlers@ =~= b.handlers@);
    assert(alike(a, b));
    lemma_alike_noop(a, b, false, p);
}

} // verus!
