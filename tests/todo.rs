use vgtk::compose::{expand, find_node, radio_event, radio_props, reconcile_instance};
use vgtk::diff::{ChildPatch, Patch};
use vgtk::radio::{Callback, Emitted, Radio, RadioMsg, RADIO, RADIO_SELECTED};
use vgtk::runtime::Runtime;
use vgtk::todo::{
    items_left_text, radio_path, render_item, Filter, Item, Model, Msg, TodoError, MSG_ADD, MSG_FILTER, MSG_REMOVE,
};
use vgtk::vnode::{EventName, Handler, Kind, Prop, PropName, VNode, Value, Widget};

fn list(v: &VNode) -> &VNode {
    &v.children[1].children[1].children[0]
}

fn footer(v: &VNode) -> &VNode {
    &v.children[1].children[2]
}

fn label_text(n: &VNode) -> String {
    match &n.props[0].value {
        Value::Text(s) => s.clone(),
        other => panic!("not text: {:?}", other),
    }
}

fn labels(m: &Model) -> Vec<String> {
    m.items.iter().map(|i| i.label.clone()).collect()
}

#[test]
fn default_model_has_foo_and_bar() {
    let m = Model::default();
    assert_eq!(labels(&m), vec!["foo".to_string(), "bar".to_string()]);
    assert!(m.items.iter().all(|i| !i.done));
    assert_eq!(m.filter, Filter::All);
    assert_eq!(Filter::default(), Filter::All);
}

#[test]
fn toggle_then_clear_completed() {
    let mut rt = Runtime::start(Model::default());
    let p = rt.dispatch(vec![Msg::Toggle { index: 0 }]).unwrap();
    assert!(p.is_some());
    assert!(rt.root.items[0].done);
    assert_eq!(rt.root.left_label(), "1 item left");
    assert_eq!(label_text(&footer(&rt.tree).children[0]), "1 item left");
    assert_eq!(footer(&rt.tree).children.len(), 3);
    rt.dispatch(vec![Msg::ClearCompleted]).unwrap();
    assert_eq!(labels(&rt.root), vec!["bar".to_string()]);
    assert_eq!(footer(&rt.tree).children.len(), 2);
}

#[test]
fn active_filter_shows_only_items_not_done() {
    let mut rt = Runtime::start(Model::default());
    rt.dispatch(vec![Msg::Add { item: "baz".to_string() }, Msg::Toggle { index: 1 }]).unwrap();
    assert_eq!(list(&rt.tree).children.len(), 3);
    rt.dispatch(vec![Msg::Filter { filter: Filter::Active }]).unwrap();
    assert_eq!(rt.root.filter, Filter::Active);
    assert_eq!(list(&rt.tree).children.len(), 2);
    let shown: Vec<String> = list(&rt.tree)
        .children
        .iter()
        .map(|row| label_text(&row.children[0].children[1]))
        .collect();
    assert_eq!(shown, vec!["foo".to_string(), "baz".to_string()]);
    rt.dispatch(vec![Msg::Filter { filter: Filter::Completed }]).unwrap();
    assert_eq!(list(&rt.tree).children.len(), 1);
    assert_eq!(rt.root.filter(Filter::Completed), vec![1]);
}

#[test]
fn two_messages_one_render_pass() {
    let mut rt = Runtime::start(Model::default());
    let p = rt.dispatch(vec![Msg::Toggle { index: 0 }, Msg::Toggle { index: 1 }]).unwrap();
    assert!(rt.root.items.iter().all(|i| i.done));
    assert_eq!(label_text(&footer(&rt.tree).children[0]), "0 items left");
    match p {
        Some(Patch::Update { children, .. }) => assert_eq!(children.len(), 2),
        other => panic!("unexpected {:?}", other),
    }
    let again = expand(Model::view(&rt.root));
    assert_eq!(format!("{:?}", again), format!("{:?}", rt.tree));
}

#[test]
fn out_of_range_index_is_an_error() {
    let mut m = Model::default();
    assert_eq!(m.update(Msg::Remove { index: 2 }), Err(TodoError::OutOfRange { index: 2, len: 2 }));
    assert_eq!(m.update(Msg::Toggle { index: 9 }), Err(TodoError::OutOfRange { index: 9, len: 2 }));
    assert_eq!(labels(&m), vec!["foo".to_string(), "bar".to_string()]);
    let mut rt = Runtime::start(Model::default());
    let before = format!("{:?}", rt.tree);
    let r = rt.dispatch(vec![Msg::Toggle { index: 0 }, Msg::Remove { index: 5 }]);
    assert!(matches!(r, Err(TodoError::OutOfRange { index: 5, len: 2 })));
    assert_eq!(format!("{:?}", rt.tree), before);
    assert!(rt.running);
}

#[test]
fn add_remove_toggle_all() {
    let mut m = Model::default();
    assert_eq!(m.update(Msg::Add { item: "baz".to_string() }), Ok(true));
    assert_eq!(labels(&m), vec!["foo".to_string(), "bar".to_string(), "baz".to_string()]);
    assert_eq!(m.update(Msg::Remove { index: 0 }), Ok(true));
    assert_eq!(labels(&m), vec!["bar".to_string(), "baz".to_string()]);
    assert_eq!(m.update(Msg::ToggleAll), Ok(true));
    assert!(m.items.iter().all(|i| i.done));
    assert_eq!(m.update(Msg::ToggleAll), Ok(true));
    assert!(m.items.iter().all(|i| !i.done));
}

#[test]
fn exit_stops_the_loop() {
    let mut rt = Runtime::start(Model::default());
    assert!(rt.dispatch(vec![Msg::Exit, Msg::Toggle { index: 0 }]).unwrap().is_none());
    assert!(!rt.running);
    assert!(!rt.root.items[0].done);
    assert!(rt.dispatch(vec![Msg::Toggle { index: 0 }]).unwrap().is_none());
    assert!(!rt.root.items[0].done);
}

#[test]
fn left_label_texts() {
    assert_eq!(items_left_text(0), "0 items left");
    assert_eq!(items_left_text(1), "1 item left");
    assert_eq!(items_left_text(2), "2 items left");
    assert_eq!(items_left_text(12), "12 items left");
}

#[test]
fn rendered_item_rows() {
    let mut item = Item::new("milk");
    let row = render_item(4, &item);
    assert_eq!(row.kind, Kind::Widget(Widget::ListBoxRow));
    assert_eq!(label_text(&row.children[0].children[1]), "milk");
    assert_eq!(row.children[0].children[0].handlers[0].arg, 4);
    item.done = true;
    let row = render_item(4, &item);
    assert_eq!(
        label_text(&row.children[0].children[1]),
        "<span strikethrough=\"true\" alpha=\"50%\">milk</span>"
    );
    assert!(matches!(row.children[0].children[0].props[0].value, Value::Bool(true)));
}

#[test]
fn handler_messages_decode() {
    assert!(matches!(Msg::from_handler(MSG_ADD, 0, "x"), Some(Msg::Add { item }) if item == "x"));
    assert!(matches!(Msg::from_handler(MSG_REMOVE, 3, ""), Some(Msg::Remove { index: 3 })));
    assert!(matches!(Msg::from_handler(MSG_FILTER, 2, ""), Some(Msg::Filter { filter: Filter::Completed })));
    assert!(Msg::from_handler(MSG_FILTER, 3, "").is_none());
    assert!(Msg::from_handler(77, 0, "").is_none());
}

#[test]
fn filters_and_labels() {
    assert_eq!(Filter::all(), vec![Filter::All, Filter::Active, Filter::Completed]);
    assert_eq!(Filter::Completed.label(), "Completed");
    assert_eq!(Filter::Active.index(), 1);
    assert_eq!(Filter::from_index(0), Some(Filter::All));
    assert_eq!(Filter::from_index(3), None);
}

#[test]
fn radio_selects_and_calls_back() {
    let mut r = Radio::create(Radio { active: Filter::All, on_changed: Some(Callback { message: MSG_FILTER }) });
    let v = r.view();
    assert_eq!(v.children.len(), 3);
    assert!(matches!(v.children[0].props[1].value, Value::Bool(true)));
    let msg = RadioMsg::from_handler(RADIO_SELECTED, 1).unwrap();
    let (redraw, sent) = r.update(msg);
    assert!(redraw);
    assert_eq!(sent, Some(Emitted { message: MSG_FILTER, arg: 1 }));
    assert_eq!(r.active, Filter::Active);
    let v = r.view();
    assert!(matches!(v.children[1].props[1].value, Value::Bool(true)));
    assert!(matches!(v.children[0].props[1].value, Value::Bool(false)));
    assert!(r.change(Radio { active: Filter::Completed, on_changed: None }));
    assert_eq!(r.update(RadioMsg::Selected(Filter::All)), (true, None));
    assert!(RadioMsg::from_handler(RADIO_SELECTED, 3).is_none());
}

#[test]
fn view_embeds_the_radio_component() {
    let m = Model::default();
    let v = m.view();
    let radio = &footer(&v).children[1];
    assert_eq!(radio.kind, Kind::Component(RADIO));
    assert_eq!(radio.props[0].name, PropName::Active);
    assert!(matches!(radio.props[0].value, Value::Tag(0)));
    let mut m2 = Model::default();
    m2.update(Msg::Filter { filter: Filter::Active }).unwrap();
    let p = vgtk::diff::diff(&v, &m2.view());
    match p {
        Patch::Update { children, .. } => assert!(matches!(children[1], ChildPatch::Diff(_))),
        Patch::Replace => panic!("replaced"),
    }
}

#[test]
fn filter_change_reconciles_inside_the_radio() {
    let mut rt = Runtime::start(Model::default());
    let radio = &footer(&rt.tree).children[1];
    assert_eq!(radio.children.len(), 1);
    assert_eq!(radio.children[0].children.len(), 3);
    let p = rt.dispatch(vec![Msg::Filter { filter: Filter::Active }]).unwrap().unwrap();
    let body = match p {
        Patch::Update { mut children, .. } => children.remove(1),
        Patch::Replace => panic!("replaced"),
    };
    let foot = match body {
        ChildPatch::Diff(Patch::Update { mut children, .. }) => children.remove(2),
        other => panic!("unexpected {:?}", other),
    };
    let radio_patch = match foot {
        ChildPatch::Diff(Patch::Update { mut children, .. }) => children.remove(1),
        other => panic!("unexpected {:?}", other),
    };
    let group = match radio_patch {
        ChildPatch::Diff(Patch::Update { props, mut children, .. }) => {
            assert_eq!(props.len(), 1);
            children.remove(0)
        }
        other => panic!("unexpected {:?}", other),
    };
    match group {
        ChildPatch::Diff(Patch::Update { children, .. }) => {
            assert_eq!(children.len(), 3);
            for (i, c) in children.iter().enumerate() {
                match c {
                    ChildPatch::Diff(Patch::Update { props, .. }) => {
                        assert_eq!(props.len(), if i == 2 { 0 } else { 1 });
                    }
                    other => panic!("unexpected {:?}", other),
                }
            }
        }
        other => panic!("unexpected {:?}", other),
    }
}

#[test]
fn radio_reference_properties() {
    let props = vec![Prop { name: PropName::Active, value: Value::Tag(2) }];
    let handlers = vec![Handler { event: EventName::Changed, message: MSG_FILTER, arg: 0 }];
    let r = radio_props(&props, &handlers);
    assert_eq!(r.active, Filter::Completed);
    assert_eq!(r.on_changed, Some(Callback { message: MSG_FILTER }));
    let r = radio_props(&vec![Prop { name: PropName::Active, value: Value::Tag(7) }], &Vec::new());
    assert_eq!(r.active, Filter::All);
    assert_eq!(r.on_changed, None);
    let node = VNode { kind: Kind::Component(RADIO), props, hints: Vec::new(), handlers, children: Vec::new() };
    let e = expand(node);
    assert_eq!(e.children.len(), 1);
    assert!(matches!(e.children[0].children[2].props[1].value, Value::Bool(true)));
    assert_eq!(label_text(&e.children[0].children[0]), "All");
}

#[test]
fn filtered_rows_carry_their_list_position() {
    let mut m = Model::default();
    m.update(Msg::Toggle { index: 0 }).unwrap();
    m.update(Msg::Filter { filter: Filter::Active }).unwrap();
    let v = m.view();
    assert_eq!(list(&v).children.len(), 1);
    let row = &list(&v).children[0];
    assert_eq!(format!("{:?}", row), format!("{:?}", render_item(0, &Item::new("bar"))));
    assert_eq!(row.children[0].children[0].handlers[0].arg, 0);
    assert_eq!(row.children[0].children[2].handlers[0].arg, 0);
}

#[test]
fn radio_instance_lifecycle() {
    let rt = Runtime::start(Model::default());
    let path = radio_path();
    assert_eq!(path, vec![1, 2, 1]);
    assert_eq!(find_node(&rt.tree, &path).unwrap().kind, Kind::Component(RADIO));
    assert!(find_node(&rt.tree, &vec![1, 9]).is_none());
    let mut slot: Option<Radio> = None;
    assert!(reconcile_instance(&mut slot, &rt.tree, &path));
    assert_eq!(slot, Some(Radio { active: Filter::All, on_changed: Some(Callback { message: MSG_FILTER }) }));
    let sent = radio_event(&mut slot, 2).unwrap();
    assert_eq!(sent, Emitted { message: MSG_FILTER, arg: 2 });
    assert!(matches!(Msg::from_handler(sent.message, sent.arg, ""), Some(Msg::Filter { filter: Filter::Completed })));
    assert_eq!(slot.unwrap().active, Filter::Completed);
    assert!(radio_event(&mut slot, 5).is_none());
    assert!(!reconcile_instance(&mut slot, &rt.tree, &vec![1, 2, 0]));
    assert_eq!(slot, None);
    assert!(radio_event(&mut slot, 1).is_none());
}
