use vgtk::diff::{diff, diff_handlers, diff_props, ChildPatch, HandlerOp, Patch, PropOp};
use vgtk::vnode::{EventName, Handler, Kind, Prop, PropName, VNode, Value, Widget};

fn text(s: &str) -> Value {
    Value::Text(s.to_string())
}

fn prop(name: PropName, value: Value) -> Prop {
    Prop { name, value }
}

fn leaf(w: Widget, props: Vec<Prop>) -> VNode {
    VNode { kind: Kind::Widget(w), props, hints: Vec::new(), handlers: Vec::new(), children: Vec::new() }
}

fn boxed(children: Vec<VNode>) -> VNode {
    VNode {
        kind: Kind::Widget(Widget::Box),
        props: vec![prop(PropName::Spacing, Value::Int(10))],
        hints: Vec::new(),
        handlers: Vec::new(),
        children,
    }
}

fn label(s: &str) -> VNode {
    leaf(Widget::Label, vec![prop(PropName::Label, text(s))])
}

fn is_noop(p: &Patch) -> bool {
    match p {
        Patch::Replace => false,
        Patch::Update { props, hints, handlers, children, .. } => {
            props.is_empty()
                && hints.is_empty()
                && handlers.is_empty()
                && children.iter().all(|c| match c {
                    ChildPatch::Diff(q) => is_noop(q),
                    _ => false,
                })
        }
    }
}

fn same_op(a: &PropOp, b: &PropOp) -> bool {
    format!("{:?}", a) == format!("{:?}", b)
}

#[test]
fn props_set_changed_and_new_keys_unset_dropped_keys() {
    let old = vec![
        prop(PropName::Label, text("a")),
        prop(PropName::Active, Value::Bool(false)),
        prop(PropName::Spacing, Value::Int(4)),
    ];
    let new = vec![
        prop(PropName::Label, text("a")),
        prop(PropName::Active, Value::Bool(true)),
        prop(PropName::Title, text("t")),
    ];
    let ops = diff_props(&old, &new);
    assert_eq!(ops.len(), 3);
    assert!(same_op(&ops[0], &PropOp::SetProp(PropName::Active, Value::Bool(true))));
    assert!(same_op(&ops[1], &PropOp::SetProp(PropName::Title, text("t"))));
    assert!(same_op(&ops[2], &PropOp::UnsetProp(PropName::Spacing)));
}

#[test]
fn props_type_change_is_a_set() {
    let old = vec![prop(PropName::Label, Value::Int(1))];
    let new = vec![prop(PropName::Label, text("1"))];
    let ops = diff_props(&old, &new);
    assert_eq!(ops.len(), 1);
    assert!(same_op(&ops[0], &PropOp::SetProp(PropName::Label, text("1"))));
}

#[test]
fn props_empty_maps() {
    assert!(diff_props(&Vec::new(), &Vec::new()).is_empty());
    let ops = diff_props(&Vec::new(), &vec![prop(PropName::Fill, Value::Bool(true))]);
    assert_eq!(ops.len(), 1);
    let ops = diff_props(&vec![prop(PropName::Fill, Value::Bool(true))], &Vec::new());
    assert!(same_op(&ops[0], &PropOp::UnsetProp(PropName::Fill)));
}

#[test]
fn handlers_replaced_when_message_changes() {
    let old = vec![
        Handler { event: EventName::Clicked, message: 1, arg: 0 },
        Handler { event: EventName::Toggled, message: 2, arg: 3 },
    ];
    let new = vec![Handler { event: EventName::Clicked, message: 1, arg: 5 }];
    let ops = diff_handlers(&old, &new);
    assert_eq!(ops, vec![HandlerOp::Attach(EventName::Clicked, 1, 5), HandlerOp::Detach(EventName::Toggled)]);
    assert!(diff_handlers(&new, &new).is_empty());
}

#[test]
fn second_pass_over_same_tree_is_empty() {
    let t = boxed(vec![label("a"), boxed(vec![label("b"), label("c")])]);
    let t2 = boxed(vec![label("a"), boxed(vec![label("b"), label("c")])]);
    assert!(is_noop(&diff(&t, &t2)));
    assert!(is_noop(&diff(&t2, &t2)));
}

#[test]
fn children_are_diffed_by_position() {
    let old = boxed(vec![label("A"), label("B"), label("C")]);
    let new = boxed(vec![label("X"), label("B"), label("C")]);
    match diff(&old, &new) {
        Patch::Update { props, children, .. } => {
            assert!(props.is_empty());
            assert_eq!(children.len(), 3);
            match &children[0] {
                ChildPatch::Diff(Patch::Update { props, .. }) => {
                    assert_eq!(props.len(), 1);
                    assert!(same_op(&props[0], &PropOp::SetProp(PropName::Label, text("X"))));
                }
                other => panic!("unexpected {:?}", other),
            }
            for c in &children[1..] {
                match c {
                    ChildPatch::Diff(q) => assert!(is_noop(q)),
                    other => panic!("unexpected {:?}", other),
                }
            }
        }
        Patch::Replace => panic!("replaced"),
    }
}

#[test]
fn longer_and_shorter_child_lists() {
    let two = boxed(vec![label("a"), label("b")]);
    let three = boxed(vec![label("a"), label("b"), label("c")]);
    match diff(&two, &three) {
        Patch::Update { children, .. } => {
            assert_eq!(children.len(), 3);
            assert!(matches!(children[2], ChildPatch::Create));
        }
        Patch::Replace => panic!("replaced"),
    }
    match diff(&three, &two) {
        Patch::Update { children, .. } => {
            assert_eq!(children.len(), 3);
            assert!(matches!(children[2], ChildPatch::Remove));
        }
        Patch::Replace => panic!("replaced"),
    }
}

#[test]
fn kind_change_replaces() {
    let widget = label("x");
    let component = VNode {
        kind: Kind::Component(1),
        props: vec![prop(PropName::Label, text("x"))],
        hints: Vec::new(),
        handlers: Vec::new(),
        children: Vec::new(),
    };
    assert!(matches!(diff(&widget, &component), Patch::Replace));
    let parent_old = boxed(vec![label("x")]);
    let parent_new = boxed(vec![leaf(Widget::Button, vec![prop(PropName::Label, text("x"))])]);
    match diff(&parent_old, &parent_new) {
        Patch::Update { children, .. } => assert!(matches!(children[0], ChildPatch::Diff(Patch::Replace))),
        Patch::Replace => panic!("replaced"),
    }
}

#[test]
fn hints_are_diffed_per_child_position() {
    let mut a = label("x");
    a.hints = vec![prop(PropName::Expand, Value::Bool(false))];
    let mut b = label("x");
    b.hints = vec![prop(PropName::Expand, Value::Bool(true))];
    match diff(&boxed(vec![a]), &boxed(vec![b])) {
        Patch::Update { children, .. } => match &children[0] {
            ChildPatch::Diff(Patch::Update { props, hints, .. }) => {
                assert!(props.is_empty());
                assert_eq!(hints.len(), 1);
                assert!(same_op(&hints[0], &PropOp::SetProp(PropName::Expand, Value::Bool(true))));
            }
            other => panic!("unexpected {:?}", other),
        },
        Patch::Replace => panic!("replaced"),
    }
}

#[test]
fn hints_under_a_parent_without_layout_are_reported_and_skipped() {
    let mut a = label("x");
    a.hints = vec![prop(PropName::Expand, Value::Bool(false))];
    let mut b = label("x");
    b.hints = vec![prop(PropName::Expand, Value::Bool(true))];
    let old = VNode { kind: Kind::Widget(Widget::ListBox), props: Vec::new(), hints: Vec::new(), handlers: Vec::new(), children: vec![a] };
    let new = VNode { kind: Kind::Widget(Widget::ListBox), props: Vec::new(), hints: Vec::new(), handlers: Vec::new(), children: vec![b] };
    match diff(&old, &new) {
        Patch::Update { misplaced, children, .. } => {
            assert!(!misplaced);
            match &children[0] {
                ChildPatch::Diff(Patch::Update { hints, misplaced, .. }) => {
                    assert!(hints.is_empty());
                    assert!(*misplaced);
                }
                other => panic!("unexpected {:?}", other),
            }
        }
        Patch::Replace => panic!("replaced"),
    }
}
