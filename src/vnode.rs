//! Virtual tree: the immutable description of the UI wanted for one render.
use vstd::prelude::*;

verus! {

/// Native widget kinds known to the toolkit collaborator.
#[derive(Clone, Copy, Debug, PartialEq, Eq, Structural)]
pub enum Widget {
    Window,
    HeaderBar,
    Box,
    Button,
    ToggleButton,
    CheckButton,
    Entry,
    Label,
    ScrolledWindow,
    ListBox,
    ListBoxRow,
}

/// What a node stands for: a native widget, or a nested component
/// (identified by its component type number).
#[derive(Clone, Copy, Debug, PartialEq, Eq, Structural)]
pub enum Kind {
    Widget(Widget),
    Component(u32),
}

/// Property names, including the child-placement hints that a container
/// records for the child at a given index.
#[derive(Clone, Copy, Debug, PartialEq, Eq, Structural)]
pub enum PropName {
    Label,
    Title,
    Subtitle,
    Active,
    Spacing,
    Orientation,
    DefaultWidth,
    DefaultHeight,
    BorderWidth,
    ShowCloseButton,
    Image,
    Relief,
    AlwaysShowImage,
    PlaceholderText,
    SelectionMode,
    UseMarkup,
    Expand,
    Fill,
    PackType,
}

/// Event names a handler can be attached to.
#[derive(Clone, Copy, Debug, PartialEq, Eq, Structural)]
pub enum EventName {
    Clicked,
    Toggled,
    Activate,
    Destroy,
    /// A nested component's callback fired.
    Changed,
}

/// `Tag` values of the `Orientation` property.
pub const HORIZONTAL: u32 = 0;
pub const VERTICAL: u32 = 1;

/// `Tag` values of the `Relief` property.
pub const RELIEF_HALF: u32 = 1;
pub const RELIEF_NONE: u32 = 2;

/// `Tag` value of the `PackType` hint that packs a child at the end.
pub const PACK_END: u32 = 1;

/// `Tag` value of the `SelectionMode` property that allows no selection.
pub const SELECT_NONE: u32 = 0;

/// A typed property value.
#[derive(Debug)]
pub enum Value {
    Text(String),
    Int(i64),
    Bool(bool),
    Tag(u32),
}

/// Two values are the same when they have the same variant and payload
/// (text is compared by its characters).
pub open spec fn same_value(a: Value, b: Value) -> bool {
    match (a, b) {
        (Value::Text(x), Value::Text(y)) => x@ == y@,
        (Value::Int(x), Value::Int(y)) => x == y,
        (Value::Bool(x), Value::Bool(y)) => x == y,
        (Value::Tag(x), Value::Tag(y)) => x == y,
        _ => false,
    }
}

impl Value {
    /// A copy of the value.
    pub fn duplicate(&self) -> (r: Value)
        ensures
            r == *self,
    {
        match self {
            Value::Text(s) => Value::Text(s.clone()),
            Value::Int(i) => Value::Int(*i),
            Value::Bool(b) => Value::Bool(*b),
            Value::Tag(t) => Value::Tag(*t),
        }
    }

    /// Whether two values are the same.
    pub fn same(&self, other: &Value) -> (r: bool)
        ensures
            r == same_value(*self, *other),
    {
        match (self, other) {
            (Value::Text(x), Value::Text(y)) => *x == *y,
            (Value::Int(x), Value::Int(y)) => *x == *y,
            (Value::Bool(x), Value::Bool(y)) => *x == *y,
            (Value::Tag(x), Value::Tag(y)) => *x == *y,
            _ => false,
        }
    }
}

/// One entry of a property map.
#[derive(Debug)]
pub struct Prop {
    pub name: PropName,
    pub value: Value,
}

/// One entry of a handler map: the event, and the message the handler
/// produces, as a message code and an argument (an item index, a choice).
#[derive(Clone, Copy, Debug, PartialEq, Eq, Structural)]
pub struct Handler {
    pub event: EventName,
    pub message: u32,
    pub arg: usize,
}

/// A virtual node: kind, properties, child-placement hints (relative to its
/// parent), handlers, and ordered children.
#[derive(Debug)]
pub struct VNode {
    pub kind: Kind,
    pub props: Vec<Prop>,
    pub hints: Vec<Prop>,
    pub handlers: Vec<Handler>,
    pub children: Vec<VNode>,
}

} // verus!
