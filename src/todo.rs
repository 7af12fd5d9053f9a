//! The todo-list component: its model, messages, update rules and view.
use vstd::prelude::*;
use crate::vnode::{
    EventName, Handler, Kind, Prop, PropName, VNode, Value, Widget, HORIZONTAL, PACK_END,
    RELIEF_HALF, RELIEF_NONE, SELECT_NONE, VERTICAL, same_value,
};
use crate::radio::RADIO;
use crate::runtime::Component;
use crate::compose::{expand, expanded, node_at, instance_of, active_of, callback_of};
use crate::radio::{Callback, Radio};
use crate::laws::{alike, lemma_alike_noop, props_alike};
use crate::diff::{Patch, is_noop, patch_for};

verus! {

/// Which items the list shows.
#[derive(Clone, Copy, Debug, PartialEq, Eq, Structural)]
pub enum Filter {
    All,
    Active,
    Completed,
}

/// The display name of each filter.
pub open spec fn filter_name(f: Filter) -> Seq<char> {
    match f {
        Filter::All => "All"@,
        Filter::Active => "Active"@,
        Filter::Completed => "Completed"@,
    }
}

/// The position of a filter in the list of all filters.
pub open spec fn filter_index(f: Filter) -> usize {
    match f {
        Filter::All => 0,
        Filter::Active => 1,
        Filter::Completed => 2,
    }
}

/// The filter at position `i` (`i < 3`) of the list of all filters.
pub open spec fn filter_at(i: usize) -> Filter {
    if i == 0 {
        Filter::All
    } else if i == 1 {
        Filter::Active
    } else {
        Filter::Completed
    }
}

impl Default for Filter {
    fn default() -> (r: Filter)
        ensures
            r == Filter::All,
    {
        Filter::All
    }
}

impl Filter {
    /// Every filter, in declaration order.
    pub fn all() -> (r: Vec<Filter>)
        ensures
            r@ == seq![Filter::All, Filter::Active, Filter::Completed],
    {
        vec![Filter::All, Filter::Active, Filter::Completed]
    }

    /// The position of the filter in `Filter::all()`.
    pub fn index(&self) -> (r: usize)
        ensures
            r == filter_index(*self),
    {
        match self {
            Filter::All => 0,
            Filter::Active => 1,
            Filter::Completed => 2,
        }
    }

    /// The filter at position `i` of `Filter::all()`, if there is one.
    pub fn from_index(i: usize) -> (r: Option<Filter>)
        ensures
            i < 3 ==> r == Some(filter_at(i)),
            i >= 3 ==> r is None,
    {
        if i == 0 {
            Some(Filter::All)
        } else if i == 1 {
            Some(Filter::Active)
        } else if i == 2 {
            Some(Filter::Completed)
        } else {
            None
        }
    }

    /// The display name.
    pub fn label(&self) -> (r: String)
        ensures
            r@ == filter_name(*self),
    {
        match self {
            Filter::All => "All".to_owned(),
            Filter::Active => "Active".to_owned(),
            Filter::Completed => "Completed".to_owned(),
        }
    }
}

/// One todo entry.
#[derive(Debug)]
pub struct Item {
    pub label: String,
    pub done: bool,
}

impl Item {
    /// A new entry, not done.
    pub fn new(label: &str) -> (r: Item)
        ensures
            r.label@ == label@,
            !r.done,
    {
        Item { label: label.to_owned(), done: false }
    }
}

/// Whether `filter` shows `item`.
pub open spec fn shows(filter: Filter, item: Item) -> bool {
    match filter {
        Filter::All => true,
        Filter::Active => !item.done,
        Filter::Completed => item.done,
    }
}

/// The indices, in order, of the items that `filter` shows.
pub open spec fn shown(items: Seq<Item>, filter: Filter) -> Seq<usize>
    decreases items.len(),
{
    if items.len() == 0 {
        seq![]
    } else {
        let rest = shown(items.drop_last(), filter);
        if shows(filter, items.last()) {
            rest.push((items.len() - 1) as usize)
        } else {
            rest
        }
    }
}

/// The items that are not done, in order.
pub open spec fn not_done(items: Seq<Item>) -> Seq<Item>
    decreases items.len(),
{
    if items.len() == 0 {
        seq![]
    } else {
        let rest = not_done(items.drop_last());
        if items.last().done {
            rest
        } else {
            rest.push(items.last())
        }
    }
}

/// The items with every `done` flag set to `done`.
pub open spec fn all_marked(items: Seq<Item>, done: bool) -> Seq<Item> {
    Seq::new(items.len(), |i: int| Item { label: items[i].label, done })
}

/// The number of items not done.
pub open spec fn left_count(items: Seq<Item>) -> nat {
    shown(items, Filter::Active).len()
}

/// A decimal digit.
pub open spec fn digit(d: nat) -> char {
    if d == 0 { '0' }
    else if d == 1 { '1' }
    else if d == 2 { '2' }
    else if d == 3 { '3' }
    else if d == 4 { '4' }
    else if d == 5 { '5' }
    else if d == 6 { '6' }
    else if d == 7 { '7' }
    else if d == 8 { '8' }
    else { '9' }
}

/// The decimal notation of `n`, without leading zeros.
pub open spec fn decimal(n: nat) -> Seq<char>
    decreases n,
{
    if n < 10 {
        seq![digit(n)]
    } else {
        decimal(n / 10).push(digit(n % 10))
    }
}

/// The text of the "items left" label for `n` items left.
pub open spec fn left_text(n: nat) -> Seq<char> {
    if n == 1 {
        "1 item left"@
    } else {
        decimal(n) + " items left"@
    }
}

/// Relies on `usize`'s `Display` (through `ToString::to_string`): the
/// decimal notation of the number.
#[verifier::external_body]
fn decimal_text(n: usize) -> (r: String)
    ensures
        r@ == decimal(n as nat),
{
    n.to_string()
}

/// Failure of a message that names an item index past the end of the list.
#[derive(Clone, Copy, Debug, PartialEq, Eq, Structural)]
pub enum TodoError {
    OutOfRange { index: usize, len: usize },
}

/// Messages of the todo component.
#[derive(Debug)]
pub enum Msg {
    Add { item: String },
    Remove { index: usize },
    Toggle { index: usize },
    Filter { filter: Filter },
    ToggleAll,
    ClearCompleted,
    Exit,
}

/// The effect of one message on the item list and the filter: the new list
/// and filter, or `OutOfRange` for an index past the end of the list.
pub open spec fn todo_step(items: Seq<Item>, filter: Filter, msg: Msg) -> Result<
    (Seq<Item>, Filter),
    TodoError,
> {
    match msg {
        Msg::Add { item } => Ok((items.push((Item { label: item, done: false })), filter)),
        Msg::Remove { index } => if index < items.len() {
            Ok((items.remove(index as int), filter))
        } else {
            Err(TodoError::OutOfRange { index, len: items.len() as usize })
        },
        Msg::Toggle { index } => if index < items.len() {
            Ok(
                (
                    items.update(
                        index as int,
                        (Item { label: items[index as int].label, done: !items[index as int].done }),
                    ),
                    filter,
                ),
            )
        } else {
            Err(TodoError::OutOfRange { index, len: items.len() as usize })
        },
        Msg::Filter { filter: f } => Ok((items, f)),
        Msg::ToggleAll => Ok((all_marked(items, left_count(items) > 0), filter)),
        Msg::ClearCompleted => Ok((not_done(items), filter)),
        Msg::Exit => Ok((items, filter)),
    }
}

/// The todo component's state.
#[derive(Debug)]
pub struct Model {
    pub items: Vec<Item>,
    pub filter: Filter,
}

impl Default for Model {
    /// Two items, "foo" and "bar", neither done; every item shown.
    fn default() -> (r: Model)
        ensures
            r.items.len() == 2,
            r.items@[0].label@ == "foo"@,
            r.items@[1].label@ == "bar"@,
            !r.items@[0].done,
            !r.items@[1].done,
            r.filter == Filter::All,
    {
        let mut items: Vec<Item> = Vec::new();
        items.push(Item::new("foo"));
        items.push(Item::new("bar"));
        Model { items, filter: Filter::All }
    }
}

impl Model {
    /// The indices of the items that `filter` shows, in list order.
    pub fn filter(&self, filter: Filter) -> (r: Vec<usize>)
        ensures
            r@ == shown(self.items@, filter),
    {
        let mut r: Vec<usize> = Vec::new();
        let mut i: usize = 0;
        while i < self.items.len()
            invariant
                0 <= i <= self.items.len(),
                r@ == shown(self.items@.subrange(0, i as int), filter),
            decreases self.items.len() - i,
        {
            let ghost pre = self.items@.subrange(0, i + 1);
            assert(pre.drop_last() =~= self.items@.subrange(0, i as int));
            let shows_it = match filter {
                Filter::All => true,
                Filter::Active => !self.items[i].done,
                Filter::Completed => self.items[i].done,
            };
            if shows_it {
                r.push(i);
            }
            i = i + 1;
        }
        assert(self.items@.subrange(0, self.items.len() as int) =~= self.items@);
        r
    }

    /// Applies one message. Every message asks for a redraw; an index past
    /// the end of the list fails with `OutOfRange` and changes nothing.
    pub fn update(&mut self, msg: Msg) -> (r: Result<bool, TodoError>)
        ensures
            match todo_step(old(self).items@, old(self).filter, msg) {
                Ok((items, filter)) => r == Ok::<bool, TodoError>(true) && final(self).items@
                    == items && final(self).filter == filter,
                Err(e) => r == Err::<bool, TodoError>(e) && final(self).items@ == old(self).items@
                    && final(self).filter == old(self).filter,
            },
    {
        match msg {
            Msg::Add { item } => {
                self.items.push(Item { label: item, done: false });
            },
            Msg::Remove { index } => {
                if index >= self.items.len() {
                    return Err(TodoError::OutOfRange { index, len: self.items.len() });
                }
                self.items.remove(index);
            },
            Msg::Toggle { index } => {
                if index >= self.items.len() {
                    return Err(TodoError::OutOfRange { index, len: self.items.len() });
                }
                let flipped = Item { label: self.items[index].label.clone(), done: !self.items[index].done };
                self.items.set(index, flipped);
            },
            Msg::Filter { filter } => {
                self.filter = filter;
            },
            Msg::ToggleAll => {
                let mark = self.filter(Filter::Active).len() > 0;
                let mut next: Vec<Item> = Vec::new();
                let mut i: usize = 0;
                while i < self.items.len()
                    invariant
                        0 <= i <= self.items.len(),
                        next.len() == i,
                        forall|j: int| 0 <= j < i ==> #[trigger] next@[j] == (Item {
                            label: self.items@[j].label,
                            done: mark,
                        }),
                    decreases self.items.len() - i,
                {
                    next.push(Item { label: self.items[i].label.clone(), done: mark });
                    i = i + 1;
                }
                assert(next@ =~= all_marked(self.items@, mark));
                self.items = next;
            },
            Msg::ClearCompleted => {
                let mut next: Vec<Item> = Vec::new();
                let mut i: usize = 0;
                while i < self.items.len()
                    invariant
                        0 <= i <= self.items.len(),
                        next@ == not_done(self.items@.subrange(0, i as int)),
                    decreases self.items.len() - i,
                {
                    assert(self.items@.subrange(0, i + 1).drop_last() =~= self.items@.subrange(0, i as int));
                    if !self.items[i].done {
                        next.push(Item { label: self.items[i].label.clone(), done: false });
                    }
                    i = i + 1;
                }
                assert(self.items@.subrange(0, self.items.len() as int) =~= self.items@);
                self.items = next;
            },
            Msg::Exit => {},
        }
        Ok(true)
    }

    /// The "items left" label: "1 item left", else "<n> items left".
    pub fn left_label(&self) -> (r: String)
        ensures
            r@ == left_text(left_count(self.items@)),
    {
        let left = self.filter(Filter::Active).len();
        items_left_text(left)
    }
}

/// The "items left" label for `n` items left.
pub fn items_left_text(n: usize) -> (r: String)
    ensures
        r@ == left_text(n as nat),
{
    if n == 1 {
        proof {
            reveal_strlit("1 item left");
        }
        "1 item left".to_owned()
    } else {
        let mut s = decimal_text(n);
        s.append(" items left");
        s
    }
}

/// Message codes that the view's handlers carry.
pub const MSG_ADD: u32 = 0;
pub const MSG_REMOVE: u32 = 1;
pub const MSG_TOGGLE: u32 = 2;
pub const MSG_FILTER: u32 = 3;
pub const MSG_TOGGLE_ALL: u32 = 4;
pub const MSG_CLEAR_COMPLETED: u32 = 5;
pub const MSG_EXIT: u32 = 6;

/// The text shown for an item: struck through and faded when done.
pub open spec fn item_text(item: Item) -> Seq<char> {
    if item.done {
        "<span strikethrough=\"true\" alpha=\"50%\">"@ + item.label@ + "</span>"@
    } else {
        item.label@
    }
}

/// `v` is a text value with the characters `t`.
pub open spec fn is_text(v: Value, t: Seq<char>) -> bool {
    v matches Value::Text(s) && s@ == t
}

/// `n` has no hints, no handlers and no children.
pub open spec fn bare(n: VNode) -> bool {
    n.hints.len() == 0 && n.handlers.len() == 0 && n.children.len() == 0
}

/// The props of a box laid out with spacing 10 and the given orientation.
pub open spec fn box_props(orientation: u32) -> Seq<Prop> {
    seq![
        Prop { name: PropName::Spacing, value: Value::Int(10) },
        Prop { name: PropName::Orientation, value: Value::Tag(orientation) },
    ]
}

/// `n` is the list row for `item`, whose handlers carry `index`: a
/// horizontal box holding a check box bound to the done flag, the label
/// (filling its space) and a remove button packed at the end.
pub open spec fn row_for(n: VNode, index: usize, item: Item) -> bool {
    &&& n.kind == Kind::Widget(Widget::ListBoxRow)
    &&& n.props.len() == 0
    &&& n.hints.len() == 0
    &&& n.handlers.len() == 0
    &&& n.children.len() == 1
    &&& {
        let b = n.children@[0];
        &&& b.kind == Kind::Widget(Widget::Box)
        &&& b.props@ == box_props(HORIZONTAL)
        &&& b.hints.len() == 0
        &&& b.handlers.len() == 0
        &&& b.children.len() == 3
    }
    &&& {
        let check = n.children@[0].children@[0];
        &&& check.kind == Kind::Widget(Widget::CheckButton)
        &&& check.props@ == seq![Prop { name: PropName::Active, value: Value::Bool(item.done) }]
        &&& check.hints.len() == 0
        &&& check.handlers@ == seq![
            Handler { event: EventName::Toggled, message: MSG_TOGGLE, arg: index },
        ]
        &&& check.children.len() == 0
    }
    &&& {
        let label = n.children@[0].children@[1];
        &&& label.kind == Kind::Widget(Widget::Label)
        &&& label.props.len() == 2
        &&& label.props@[0].name == PropName::Label
        &&& is_text(label.props@[0].value, item_text(item))
        &&& label.props@[1] == (Prop { name: PropName::UseMarkup, value: Value::Bool(true) })
        &&& label.hints@ == seq![Prop { name: PropName::Fill, value: Value::Bool(true) }]
        &&& label.handlers.len() == 0
        &&& label.children.len() == 0
    }
    &&& {
        let remove = n.children@[0].children@[2];
        &&& remove.kind == Kind::Widget(Widget::Button)
        &&& remove.props.len() == 3
        &&& remove.props@[0] == (Prop { name: PropName::Relief, value: Value::Tag(RELIEF_NONE) })
        &&& remove.props@[1] == (Prop { name: PropName::AlwaysShowImage, value: Value::Bool(true) })
        &&& remove.props@[2].name == PropName::Image
        &&& is_text(remove.props@[2].value, "edit-delete"@)
        &&& remove.hints@ == seq![Prop { name: PropName::PackType, value: Value::Tag(PACK_END) }]
        &&& remove.handlers@ == seq![
            Handler { event: EventName::Clicked, message: MSG_REMOVE, arg: index },
        ]
        &&& remove.children.len() == 0
    }
}

fn text(s: &str) -> (r: Value)
    ensures
        r matches Value::Text(t) && t@ == s@,
{
    Value::Text(s.to_owned())
}

/// The list row for the item at `index`: a check box bound to its done flag,
/// its label, and a remove button.
pub fn render_item(index: usize, item: &Item) -> (r: VNode)
    ensures
        row_for(r, index, *item),
{
    let label = if item.done {
        let mut s = "<span strikethrough=\"true\" alpha=\"50%\">".to_owned();
        s.append(item.label.as_str());
        s.append("</span>");
        s
    } else {
        item.label.clone()
    };
    let check = VNode {
        kind: Kind::Widget(Widget::CheckButton),
        props: vec![Prop { name: PropName::Active, value: Value::Bool(item.done) }],
        hints: Vec::new(),
        handlers: vec![Handler { event: EventName::Toggled, message: MSG_TOGGLE, arg: index }],
        children: Vec::new(),
    };
    let text_label = VNode {
        kind: Kind::Widget(Widget::Label),
        props: vec![
            Prop { name: PropName::Label, value: Value::Text(label) },
            Prop { name: PropName::UseMarkup, value: Value::Bool(true) },
        ],
        hints: vec![Prop { name: PropName::Fill, value: Value::Bool(true) }],
        handlers: Vec::new(),
        children: Vec::new(),
    };
    let remove = VNode {
        kind: Kind::Widget(Widget::Button),
        props: vec![
            Prop { name: PropName::Relief, value: Value::Tag(RELIEF_NONE) },
            Prop { name: PropName::AlwaysShowImage, value: Value::Bool(true) },
            Prop { name: PropName::Image, value: text("edit-delete") },
        ],
        hints: vec![Prop { name: PropName::PackType, value: Value::Tag(PACK_END) }],
        handlers: vec![Handler { event: EventName::Clicked, message: MSG_REMOVE, arg: index }],
        children: Vec::new(),
    };
    assert(check.props@ =~= seq![Prop { name: PropName::Active, value: Value::Bool(item.done) }]);
    assert(check.handlers@ =~= seq![
        Handler { event: EventName::Toggled, message: MSG_TOGGLE, arg: index },
    ]);
    assert(text_label.hints@ =~= seq![Prop { name: PropName::Fill, value: Value::Bool(true) }]);
    assert(remove.hints@ =~= seq![Prop { name: PropName::PackType, value: Value::Tag(PACK_END) }]);
    assert(remove.handlers@ =~= seq![
        Handler { event: EventName::Clicked, message: MSG_REMOVE, arg: index },
    ]);
    let row_box = VNode {
        kind: Kind::Widget(Widget::Box),
        props: vec![
            Prop { name: PropName::Spacing, value: Value::Int(10) },
            Prop { name: PropName::Orientation, value: Value::Tag(HORIZONTAL) },
        ],
        hints: Vec::new(),
        handlers: Vec::new(),
        children: vec![check, text_label, remove],
    };
    assert(row_box.props@ =~= box_props(HORIZONTAL));
    VNode {
        kind: Kind::Widget(Widget::ListBoxRow),
        props: Vec::new(),
        hints: Vec::new(),
        handlers: Vec::new(),
        children: vec![row_box],
    }
}

/// The list box of a rendered todo view.
pub open spec fn list_of(v: VNode) -> VNode {
    v.children@[1].children@[1].children@[0]
}

/// `h` is the header bar.
pub open spec fn header_ok(h: VNode) -> bool {
    &&& h.kind == Kind::Widget(Widget::HeaderBar)
    &&& h.props.len() == 3
    &&& h.props@[0].name == PropName::Title
    &&& is_text(h.props@[0].value, "TodoMVC"@)
    &&& h.props@[1].name == PropName::Subtitle
    &&& is_text(h.props@[1].value, "wtf do we do now"@)
    &&& h.props@[2] == (Prop { name: PropName::ShowCloseButton, value: Value::Bool(true) })
    &&& bare(h)
}

/// `n` is the input row: the toggle-all button and the entry for new items.
pub open spec fn input_row_ok(n: VNode) -> bool {
    &&& n.kind == Kind::Widget(Widget::Box)
    &&& n.props@ == box_props(HORIZONTAL)
    &&& n.hints@ == seq![Prop { name: PropName::Expand, value: Value::Bool(false) }]
    &&& n.handlers.len() == 0
    &&& n.children.len() == 2
    &&& {
        let t = n.children@[0];
        &&& t.kind == Kind::Widget(Widget::Button)
        &&& t.props.len() == 3
        &&& t.props@[0].name == PropName::Image
        &&& is_text(t.props@[0].value, "edit-select-all"@)
        &&& t.props@[1] == (Prop { name: PropName::Relief, value: Value::Tag(RELIEF_HALF) })
        &&& t.props@[2] == (Prop { name: PropName::AlwaysShowImage, value: Value::Bool(true) })
        &&& t.hints.len() == 0
        &&& t.handlers@ == seq![Handler { event: EventName::Clicked, message: MSG_TOGGLE_ALL, arg: 0 }]
        &&& t.children.len() == 0
    }
    &&& {
        let e = n.children@[1];
        &&& e.kind == Kind::Widget(Widget::Entry)
        &&& e.props.len() == 1
        &&& e.props@[0].name == PropName::PlaceholderText
        &&& is_text(e.props@[0].value, "What needs to be done?"@)
        &&& e.hints@ == seq![
            Prop { name: PropName::Expand, value: Value::Bool(true) },
            Prop { name: PropName::Fill, value: Value::Bool(true) },
        ]
        &&& e.handlers@ == seq![Handler { event: EventName::Activate, message: MSG_ADD, arg: 0 }]
        &&& e.children.len() == 0
    }
}

/// `f` is the footer: the left label, the filter radio reference and, when
/// `clear`, the clear button packed at the end.
pub open spec fn footer_ok(f: VNode, left: Seq<char>, filter: Filter, clear: bool) -> bool {
    &&& f.kind == Kind::Widget(Widget::Box)
    &&& f.props@ == box_props(HORIZONTAL)
    &&& f.hints@ == seq![Prop { name: PropName::Expand, value: Value::Bool(false) }]
    &&& f.handlers.len() == 0
    &&& f.children.len() == if clear { 3nat } else { 2nat }
    &&& {
        let l = f.children@[0];
        &&& l.kind == Kind::Widget(Widget::Label)
        &&& l.props.len() == 1
        &&& l.props@[0].name == PropName::Label
        &&& is_text(l.props@[0].value, left)
        &&& bare(l)
    }
    &&& {
        let r = f.children@[1];
        &&& r.kind == Kind::Component(RADIO)
        &&& r.props@ == seq![
            Prop { name: PropName::Active, value: Value::Tag(filter_index(filter) as u32) },
        ]
        &&& r.hints@ == seq![Prop { name: PropName::Expand, value: Value::Bool(true) }]
        &&& r.handlers@ == seq![Handler { event: EventName::Changed, message: MSG_FILTER, arg: 0 }]
        &&& r.children.len() == 0
    }
    &&& clear ==> {
        let c = f.children@[2];
        &&& c.kind == Kind::Widget(Widget::Button)
        &&& c.props.len() == 1
        &&& c.props@[0].name == PropName::Label
        &&& is_text(c.props@[0].value, "Clear completed"@)
        &&& c.hints@ == seq![Prop { name: PropName::PackType, value: Value::Tag(PACK_END) }]
        &&& c.handlers@ == seq![
            Handler { event: EventName::Clicked, message: MSG_CLEAR_COMPLETED, arg: 0 },
        ]
        &&& c.children.len() == 0
    }
}

/// `r` is the todo window for the item list `items` under `filter`. Row `i`
/// of the list is for the `i`-th item that the filter shows, and its
/// handlers carry `i`, the row's position in the filtered list.
pub open spec fn todo_view(items: Seq<Item>, filter: Filter, r: VNode) -> bool {
    &&& r.kind == Kind::Widget(Widget::Window)
    &&& r.props@ == seq![
        Prop { name: PropName::DefaultWidth, value: Value::Int(800) },
        Prop { name: PropName::DefaultHeight, value: Value::Int(480) },
        Prop { name: PropName::BorderWidth, value: Value::Int(20) },
    ]
    &&& r.hints.len() == 0
    &&& r.handlers@ == seq![Handler { event: EventName::Destroy, message: MSG_EXIT, arg: 0 }]
    &&& r.children.len() == 2
    &&& header_ok(r.children@[0])
    &&& {
        let body = r.children@[1];
        &&& body.kind == Kind::Widget(Widget::Box)
        &&& body.props@ == box_props(VERTICAL)
        &&& body.hints.len() == 0
        &&& body.handlers.len() == 0
        &&& body.children.len() == 3
        &&& input_row_ok(body.children@[0])
        &&& {
            let sc = body.children@[1];
            &&& sc.kind == Kind::Widget(Widget::ScrolledWindow)
            &&& sc.props.len() == 0
            &&& sc.hints@ == seq![
                Prop { name: PropName::Expand, value: Value::Bool(true) },
                Prop { name: PropName::Fill, value: Value::Bool(true) },
            ]
            &&& sc.handlers.len() == 0
            &&& sc.children.len() == 1
        }
        &&& footer_ok(
            body.children@[2],
            left_text(left_count(items)),
            filter,
            shown(items, Filter::Completed).len() > 0,
        )
    }
    &&& list_of(r).kind == Kind::Widget(Widget::ListBox)
    &&& list_of(r).props@ == seq![
        Prop { name: PropName::SelectionMode, value: Value::Tag(SELECT_NONE) },
    ]
    &&& list_of(r).hints.len() == 0
    &&& list_of(r).handlers.len() == 0
    &&& list_of(r).children.len() == shown(items, filter).len()
    &&& forall|i: int|
        0 <= i < list_of(r).children.len() ==> row_for(
            #[trigger] list_of(r).children@[i],
            i as usize,
            items[shown(items, filter)[i] as int],
        )
}

impl Model {
    /// The whole window: a header, an input row, the list of the items that
    /// the current filter shows (one row each, in order), and a footer with
    /// the left label, the filter radio group and, when some item is done, a
    /// clear button.
    pub fn view(&self) -> (r: VNode)
        ensures
            todo_view(self.items@, self.filter, r),
    {
        let header = VNode {
            kind: Kind::Widget(Widget::HeaderBar),
            props: vec![
                Prop { name: PropName::Title, value: text("TodoMVC") },
                Prop { name: PropName::Subtitle, value: text("wtf do we do now") },
                Prop { name: PropName::ShowCloseButton, value: Value::Bool(true) },
            ],
            hints: Vec::new(),
            handlers: Vec::new(),
            children: Vec::new(),
        };
        let toggle_all = VNode {
            kind: Kind::Widget(Widget::Button),
            props: vec![
                Prop { name: PropName::Image, value: text("edit-select-all") },
                Prop { name: PropName::Relief, value: Value::Tag(RELIEF_HALF) },
                Prop { name: PropName::AlwaysShowImage, value: Value::Bool(true) },
            ],
            hints: Vec::new(),
            handlers: vec![Handler { event: EventName::Clicked, message: MSG_TOGGLE_ALL, arg: 0 }],
            children: Vec::new(),
        };
        let entry = VNode {
            kind: Kind::Widget(Widget::Entry),
            props: vec![Prop { name: PropName::PlaceholderText, value: text("What needs to be done?") }],
            hints: vec![
                Prop { name: PropName::Expand, value: Value::Bool(true) },
                Prop { name: PropName::Fill, value: Value::Bool(true) },
            ],
            handlers: vec![Handler { event: EventName::Activate, message: MSG_ADD, arg: 0 }],
            children: Vec::new(),
        };
        assert(header_ok(header));
        assert(toggle_all.handlers@ =~= seq![
            Handler { event: EventName::Clicked, message: MSG_TOGGLE_ALL, arg: 0 },
        ]);
        assert(entry.hints@ =~= seq![
            Prop { name: PropName::Expand, value: Value::Bool(true) },
            Prop { name: PropName::Fill, value: Value::Bool(true) },
        ]);
        assert(entry.handlers@ =~= seq![Handler { event: EventName::Activate, message: MSG_ADD, arg: 0 }]);
        let input_row = VNode {
            kind: Kind::Widget(Widget::Box),
            props: vec![
                Prop { name: PropName::Spacing, value: Value::Int(10) },
                Prop { name: PropName::Orientation, value: Value::Tag(HORIZONTAL) },
            ],
            hints: vec![Prop { name: PropName::Expand, value: Value::Bool(false) }],
            handlers: Vec::new(),
            children: vec![toggle_all, entry],
        };
        assert(input_row.props@ =~= box_props(HORIZONTAL));
        assert(input_row.hints@ =~= seq![Prop { name: PropName::Expand, value: Value::Bool(false) }]);
        assert(input_row_ok(input_row));
        let indices = self.filter(self.filter);
        let mut rows: Vec<VNode> = Vec::new();
        let mut i: usize = 0;
        while i < indices.len()
            invariant
                0 <= i <= indices.len(),
                indices@ == shown(self.items@, self.filter),
                rows.len() == i,
                forall|j: int| 0 <= j < i ==> row_for(#[trigger] rows@[j], j as usize, self.items@[indices@[j] as int]),
            decreases indices.len() - i,
        {
            proof {
                assert(self.items@.len() == self.items.len());
                lemma_shown_exact(self.items@, self.filter);
            }
            let row = render_item(i, &self.items[indices[i]]);
            rows.push(row);
            i = i + 1;
        }
        let list = VNode {
            kind: Kind::Widget(Widget::ListBox),
            props: vec![Prop { name: PropName::SelectionMode, value: Value::Tag(SELECT_NONE) }],
            hints: Vec::new(),
            handlers: Vec::new(),
            children: rows,
        };
        assert(list.props@ =~= seq![
            Prop { name: PropName::SelectionMode, value: Value::Tag(SELECT_NONE) },
        ]);
        let scroller = VNode {
            kind: Kind::Widget(Widget::ScrolledWindow),
            props: Vec::new(),
            hints: vec![
                Prop { name: PropName::Expand, value: Value::Bool(true) },
                Prop { name: PropName::Fill, value: Value::Bool(true) },
            ],
            handlers: Vec::new(),
            children: vec![list],
        };
        assert(scroller.hints@ =~= seq![
            Prop { name: PropName::Expand, value: Value::Bool(true) },
            Prop { name: PropName::Fill, value: Value::Bool(true) },
        ]);
        let left = VNode {
            kind: Kind::Widget(Widget::Label),
            props: vec![Prop { name: PropName::Label, value: Value::Text(self.left_label()) }],
            hints: Vec::new(),
            handlers: Vec::new(),
            children: Vec::new(),
        };
        let choice = self.filter.index() as u32;
        let radio = VNode {
            kind: Kind::Component(RADIO),
            props: vec![Prop { name: PropName::Active, value: Value::Tag(choice) }],
            hints: vec![Prop { name: PropName::Expand, value: Value::Bool(true) }],
            handlers: vec![Handler { event: EventName::Changed, message: MSG_FILTER, arg: 0 }],
            children: Vec::new(),
        };
        assert(radio.props@ =~= seq![
            Prop { name: PropName::Active, value: Value::Tag(filter_index(self.filter) as u32) },
        ]);
        assert(radio.hints@ =~= seq![Prop { name: PropName::Expand, value: Value::Bool(true) }]);
        assert(radio.handlers@ =~= seq![Handler { event: EventName::Changed, message: MSG_FILTER, arg: 0 }]);
        let mut footer_children: Vec<VNode> = vec![left, radio];
        if self.filter(Filter::Completed).len() > 0 {
            let clear = VNode {
                kind: Kind::Widget(Widget::Button),
                props: vec![Prop { name: PropName::Label, value: text("Clear completed") }],
                hints: vec![Prop { name: PropName::PackType, value: Value::Tag(PACK_END) }],
                handlers: vec![Handler { event: EventName::Clicked, message: MSG_CLEAR_COMPLETED, arg: 0 }],
                children: Vec::new(),
            };
            assert(clear.hints@ =~= seq![Prop { name: PropName::PackType, value: Value::Tag(PACK_END) }]);
            assert(clear.handlers@ =~= seq![
                Handler { event: EventName::Clicked, message: MSG_CLEAR_COMPLETED, arg: 0 },
            ]);
            footer_children.push(clear);
        }
        let footer = VNode {
            kind: Kind::Widget(Widget::Box),
            props: vec![
                Prop { name: PropName::Spacing, value: Value::Int(10) },
                Prop { name: PropName::Orientation, value: Value::Tag(HORIZONTAL) },
            ],
            hints: vec![Prop { name: PropName::Expand, value: Value::Bool(false) }],
            handlers: Vec::new(),
            children: footer_children,
        };
        assert(footer.props@ =~= box_props(HORIZONTAL));
        assert(footer.hints@ =~= seq![Prop { name: PropName::Expand, value: Value::Bool(false) }]);
        let body = VNode {
            kind: Kind::Widget(Widget::Box),
            props: vec![
                Prop { name: PropName::Spacing, value: Value::Int(10) },
                Prop { name: PropName::Orientation, value: Value::Tag(VERTICAL) },
            ],
            hints: Vec::new(),
            handlers: Vec::new(),
            children: vec![input_row, scroller, footer],
        };
        assert(body.props@ =~= box_props(VERTICAL));
        let r = VNode {
            kind: Kind::Widget(Widget::Window),
            props: vec![
                Prop { name: PropName::DefaultWidth, value: Value::Int(800) },
                Prop { name: PropName::DefaultHeight, value: Value::Int(480) },
                Prop { name: PropName::BorderWidth, value: Value::Int(20) },
            ],
            hints: Vec::new(),
            handlers: vec![Handler { event: EventName::Destroy, message: MSG_EXIT, arg: 0 }],
            children: vec![header, body],
        };
        assert(r.handlers@ =~= seq![Handler { event: EventName::Destroy, message: MSG_EXIT, arg: 0 }]);
        assert(r.props@ =~= seq![
            Prop { name: PropName::DefaultWidth, value: Value::Int(800) },
            Prop { name: PropName::DefaultHeight, value: Value::Int(480) },
            Prop { name: PropName::BorderWidth, value: Value::Int(20) },
        ]);
        r
    }
}

/// The rows a filter shows are exactly the items it shows: each index
/// names an item of the list that the filter shows, and each such item has
/// its index there.
pub proof fn lemma_shown_exact(items: Seq<Item>, filter: Filter)
    requires
        items.len() <= usize::MAX,
    ensures
        forall|k: int|
            0 <= k < shown(items, filter).len() ==> #[trigger] shown(items, filter)[k] < items.len()
                && shows(filter, items[shown(items, filter)[k] as int]),
        forall|i: int|
            0 <= i < items.len() && shows(filter, #[trigger] items[i]) ==> shown(
                items,
                filter,
            ).contains(i as usize),
    decreases items.len(),
{
    if items.len() > 0 {
        let d = items.drop_last();
        lemma_shown_exact(d, filter);
        let rest = shown(d, filter);
        let all = shown(items, filter);
        assert forall|k: int| 0 <= k < all.len() implies #[trigger] all[k] < items.len() && shows(
            filter,
            items[all[k] as int],
        ) by {
            if k < rest.len() {
                assert(all[k] == rest[k]);
                assert(d[rest[k] as int] == items[rest[k] as int]);
            } else {
                assert(all[k] == (items.len() - 1) as usize);
                assert(items.last() == items[items.len() - 1]);
            }
        }
        assert forall|i: int| 0 <= i < items.len() && shows(filter, #[trigger] items[i]) implies all.contains(
            i as usize,
        ) by {
            if i < d.len() {
                assert(d[i] == items[i]);
                let k = choose|k: int| 0 <= k < rest.len() && rest[k] == i as usize;
                assert(all[k] == i as usize);
            } else {
                assert(all[all.len() - 1] == i as usize);
            }
        }
    }
}

/// Under the `Active` filter the rendered list has one row per item not
/// done, and each row is for an item not done.
pub proof fn lemma_active_rows_not_done(items: Seq<Item>, v: VNode)
    requires
        items.len() <= usize::MAX,
        todo_view(items, Filter::Active, v),
    ensures
        list_of(v).children.len() == left_count(items),
        forall|i: int|
            0 <= i < list_of(v).children.len() ==> row_for(
                #[trigger] list_of(v).children@[i],
                i as usize,
                items[shown(items, Filter::Active)[i] as int],
            ) && !items[shown(items, Filter::Active)[i] as int].done,
{
    lemma_shown_exact(items, Filter::Active);
    assert forall|i: int| 0 <= i < list_of(v).children.len() implies row_for(
        #[trigger] list_of(v).children@[i],
        i as usize,
        items[shown(items, Filter::Active)[i] as int],
    ) && !items[shown(items, Filter::Active)[i] as int].done by {
        assert(shows(Filter::Active, items[shown(items, Filter::Active)[i] as int]));
    }
}

/// The structural position of the filter radio group in the todo window.
pub fn radio_path() -> (r: Vec<usize>)
    ensures
        r@ == seq![1usize, 2usize, 1usize],
{
    vec![1, 2, 1]
}

/// In every rendering of the todo component the filter radio group sits at
/// `radio_path()`, and the instance it stands for shows the current filter
/// and calls back with the `Filter` message.
pub proof fn lemma_radio_position(items: Seq<Item>, filter: Filter, v: VNode)
    requires
        <Model as Component>::renders((items, filter), v),
    ensures
        node_at(v, seq![1usize, 2usize, 1usize]) matches Some(n) && n.kind == Kind::Component(RADIO)
            && instance_of(n) == (Radio {
            active: filter,
            on_changed: Some(Callback { message: MSG_FILTER }),
        }),
{
    let u = choose|u: VNode| todo_view(items, filter, u) && expanded(u, v);
    let p = seq![1usize, 2usize, 1usize];
    assert(p.drop_last() =~= seq![1usize, 2usize]);
    assert(p.drop_last().drop_last() =~= seq![1usize]);
    assert(p.drop_last().drop_last().drop_last() =~= Seq::<usize>::empty());
    assert(expanded(u.children@[1], v.children@[1]));
    assert(expanded(u.children@[1].children@[2], v.children@[1].children@[2]));
    assert(expanded(u.children@[1].children@[2].children@[1], v.children@[1].children@[2].children@[1]));
    let n = v.children@[1].children@[2].children@[1];
    assert(node_at(v, Seq::<usize>::empty()) == Some(v));
    assert(node_at(v, seq![1usize]) == Some(v.children@[1]));
    assert(node_at(v, seq![1usize, 2usize]) == Some(v.children@[1].children@[2]));
    assert(node_at(v, p) == Some(n));
    assert(n.kind == Kind::Component(RADIO));
    let ps = n.props@;
    assert(ps.drop_first() =~= Seq::<Prop>::empty());
    assert(active_of(ps) == filter);
    let hs = n.handlers@;
    assert(callback_of(hs) == Some(Callback { message: MSG_FILTER }));
}

proof fn lemma_props_alike_same(x: Seq<Prop>)
    ensures
        props_alike(x, x),
{
    assert forall|i: int| 0 <= i < x.len() implies #[trigger] x[i].name == x[i].name && same_value(
        x[i].value,
        x[i].value,
    ) by {}
}

/// Rows for the same position and for items with the same text and done
/// flag are alike.
pub proof fn lemma_rows_alike(a: VNode, b: VNode, index: usize, x: Item, y: Item)
    requires
        row_for(a, index, x),
        row_for(b, index, y),
        x.label@ == y.label@,
        x.done == y.done,
    ensures
        alike(a, b),
{
    let (ba, bb) = (a.children@[0], b.children@[0]);
    lemma_props_alike_same(ba.props@);
    lemma_props_alike_same(ba.children@[0].props@);
    lemma_props_alike_same(ba.children@[0].hints@);
    lemma_props_alike_same(ba.children@[1].hints@);
    lemma_props_alike_same(ba.children@[2].hints@);
    lemma_props_alike_same(a.props@);
    lemma_props_alike_same(a.hints@);
    lemma_props_alike_same(ba.hints@);
    assert(props_alike(ba.children@[1].props@, bb.children@[1].props@));
    assert(props_alike(ba.children@[2].props@, bb.children@[2].props@));
    assert(alike(ba.children@[0], bb.children@[0]));
    assert(ba.children@[1].handlers@ =~= bb.children@[1].handlers@);
    assert(ba.handlers@ =~= bb.handlers@);
    assert(a.handlers@ =~= b.handlers@);
    assert(alike(ba.children@[1], bb.children@[1]));
    assert(alike(ba.children@[2], bb.children@[2]));
    assert(alike(ba, bb));
    assert(alike(a, b));
}

/// Two renders of one todo state are alike, so reconciling the second
/// against the first performs no operation.
pub proof fn lemma_views_alike(items: Seq<Item>, filter: Filter, v: VNode, w: VNode)
    requires
        todo_view(items, filter, v),
        todo_view(items, filter, w),
    ensures
        alike(v, w),
{
    lemma_props_alike_same(v.props@);
    lemma_props_alike_same(v.hints@);
    let (h, hw) = (v.children@[0], w.children@[0]);
    lemma_props_alike_same(h.hints@);
    assert(props_alike(h.props@, hw.props@));
    assert(h.handlers@ =~= hw.handlers@);
    assert(alike(h, hw));
    let (body, bw) = (v.children@[1], w.children@[1]);
    lemma_props_alike_same(body.props@);
    lemma_props_alike_same(body.hints@);
    let (ir, iw) = (body.children@[0], bw.children@[0]);
    lemma_props_alike_same(ir.props@);
    lemma_props_alike_same(ir.hints@);
    lemma_props_alike_same(ir.children@[0].hints@);
    lemma_props_alike_same(ir.children@[1].hints@);
    assert(props_alike(ir.children@[0].props@, iw.children@[0].props@));
    assert(props_alike(ir.children@[1].props@, iw.children@[1].props@));
    assert(alike(ir.children@[0], iw.children@[0]));
    assert(alike(ir.children@[1], iw.children@[1]));
    assert(ir.handlers@ =~= iw.handlers@);
    assert(alike(ir, iw));
    let (sc, sw) = (body.children@[1], bw.children@[1]);
    let (l, lw) = (sc.children@[0], sw.children@[0]);
    lemma_props_alike_same(sc.props@);
    lemma_props_alike_same(sc.hints@);
    lemma_props_alike_same(l.props@);
    lemma_props_alike_same(l.hints@);
    assert forall|i: int| 0 <= i < l.children.len() implies alike(l.children@[i], #[trigger] lw.children@[i]) by {
        lemma_rows_alike(
            l.children@[i],
            lw.children@[i],
            i as usize,
            items[shown(items, filter)[i] as int],
            items[shown(items, filter)[i] as int],
        );
    }
    assert(l.handlers@ =~= lw.handlers@);
    assert(sc.handlers@ =~= sw.handlers@);
    assert(alike(l, lw));
    assert(alike(sc, sw));
    let (f, fw) = (body.children@[2], bw.children@[2]);
    lemma_props_alike_same(f.props@);
    lemma_props_alike_same(f.hints@);
    lemma_props_alike_same(f.children@[0].hints@);
    lemma_props_alike_same(f.children@[1].props@);
    lemma_props_alike_same(f.children@[1].hints@);
    assert(props_alike(f.children@[0].props@, fw.children@[0].props@));
    assert(f.children@[0].handlers@ =~= fw.children@[0].handlers@);
    assert(f.handlers@ =~= fw.handlers@);
    assert(body.handlers@ =~= bw.handlers@);
    assert(alike(f.children@[0], fw.children@[0]));
    assert(alike(f.children@[1], fw.children@[1]));
    if f.children.len() == 3 {
        lemma_props_alike_same(f.children@[2].hints@);
        assert(props_alike(f.children@[2].props@, fw.children@[2].props@));
        assert(alike(f.children@[2], fw.children@[2]));
    }
    assert forall|i: int| 0 <= i < f.children.len() implies alike(f.children@[i], #[trigger] fw.children@[i]) by {
        if i == 0 {} else if i == 1 {} else {}
    }
    assert(alike(f, fw));
    assert forall|i: int| 0 <= i < body.children.len() implies alike(body.children@[i], #[trigger] bw.children@[i]) by {
        if i == 0 {} else if i == 1 {} else {}
    }
    assert(alike(body, bw));
    assert forall|i: int| 0 <= i < v.children.len() implies alike(v.children@[i], #[trigger] w.children@[i]) by {
        if i == 0 {} else {}
    }
    assert(alike(v, w));
}

/// Rendering one todo state twice and reconciling the second render
/// against the first performs no native-tree operation.
pub proof fn lemma_rerender_noop(items: Seq<Item>, filter: Filter, v: VNode, w: VNode, p: Patch)
    requires
        todo_view(items, filter, v),
        todo_view(items, filter, w),
        patch_for(v, w, false, p),
    ensures
        is_noop(p),
{
    lemma_views_alike(items, filter, v, w);
    lemma_alike_noop(v, w, false, p);
}

impl Msg {
    /// The message that a handler of the todo view produces, from its code
    /// and argument; `text` is the entry's text, used by `Add`. Unknown codes
    /// and filter positions give `None`.
    pub fn from_handler(message: u32, arg: usize, text: &str) -> (r: Option<Msg>)
        ensures
            message == MSG_ADD ==> (r matches Some(Msg::Add { item }) && item@ == text@),
            message == MSG_REMOVE ==> (r matches Some(Msg::Remove { index }) && index == arg),
            message == MSG_TOGGLE ==> (r matches Some(Msg::Toggle { index }) && index == arg),
            message == MSG_FILTER && arg < 3 ==> (r matches Some(Msg::Filter { filter }) && filter
                == filter_at(arg)),
            message == MSG_FILTER && arg >= 3 ==> r is None,
            message == MSG_TOGGLE_ALL ==> r matches Some(Msg::ToggleAll),
            message == MSG_CLEAR_COMPLETED ==> r matches Some(Msg::ClearCompleted),
            message == MSG_EXIT ==> r matches Some(Msg::Exit),
            message > MSG_EXIT ==> r is None,
    {
        if message == MSG_ADD {
            Some(Msg::Add { item: text.to_owned() })
        } else if message == MSG_REMOVE {
            Some(Msg::Remove { index: arg })
        } else if message == MSG_TOGGLE {
            Some(Msg::Toggle { index: arg })
        } else if message == MSG_FILTER {
            match Filter::from_index(arg) {
                Some(filter) => Some(Msg::Filter { filter }),
                None => None,
            }
        } else if message == MSG_TOGGLE_ALL {
            Some(Msg::ToggleAll)
        } else if message == MSG_CLEAR_COMPLETED {
            Some(Msg::ClearCompleted)
        } else if message == MSG_EXIT {
            Some(Msg::Exit)
        } else {
            None
        }
    }
}

impl Component for Model {
    type Message = Msg;
    type Error = TodoError;
    type State = (Seq<Item>, Filter);

    open spec fn state(&self) -> (Seq<Item>, Filter) {
        (self.items@, self.filter)
    }

    open spec fn step(s: (Seq<Item>, Filter), msg: Msg) -> Result<((Seq<Item>, Filter), bool), TodoError> {
        match todo_step(s.0, s.1, msg) {
            Ok(next) => Ok((next, true)),
            Err(e) => Err(e),
        }
    }

    /// The todo window, with the filter radio group rendered under its
    /// reference.
    open spec fn renders(s: (Seq<Item>, Filter), v: VNode) -> bool {
        exists|u: VNode| todo_view(s.0, s.1, u) && expanded(u, v)
    }

    open spec fn exits(msg: Msg) -> bool {
        msg is Exit
    }

    fn update(&mut self, msg: Msg) -> (r: Result<bool, TodoError>) {
        Model::update(self, msg)
    }

    fn view(&self) -> (v: VNode) {
        let u = Model::view(self);
        let ghost g = u;
        let v = expand(u);
        assert(todo_view(self.items@, self.filter, g) && expanded(g, v));
        v
    }

    fn is_exit(msg: &Msg) -> (r: bool) {
        match msg {
            Msg::Exit => true,
            _ => false,
        }
    }
}

} // verus!
