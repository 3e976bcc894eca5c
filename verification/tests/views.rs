use rich::attach::Event;
use rich::object_map::ObjectMap;
use rich::value::{NodeMeta, Value, ValueMeta};
use rich::view::{ArrayView, BoolView, ObjectView, ValueView, ValueVisit};
use rich::{MetaId, Rich, RichScope, WrappedMeta};

fn leaf(id: usize) -> WrappedMeta<()> {
    WrappedMeta::new((), MetaId::from_usize(id))
}

fn node(id: usize, nested: ValueMeta) -> NodeMeta {
    WrappedMeta::new(Some(nested), MetaId::from_usize(id))
}

/// `{"foo": true, "message": "Hello, World!", "list": [true, false]}`
fn document() -> Event {
    Event::Mapping(vec![
        (String::from("foo"), Event::Bool(true)),
        (String::from("message"), Event::Str(String::from("Hello, World!"))),
        (String::from("list"), Event::Sequence(vec![Event::Bool(true), Event::Bool(false)])),
    ])
}

fn same_shape(value: &Value, meta: &NodeMeta) -> bool {
    match (value, &meta.nested) {
        (Value::Null, Some(ValueMeta::Null(_))) => true,
        (Value::Bool(_), Some(ValueMeta::Bool(_))) => true,
        (Value::Number(_), Some(ValueMeta::Number(_))) => true,
        (Value::String(_), Some(ValueMeta::String(_))) => true,
        (Value::Array(values), Some(ValueMeta::Array(metas))) => {
            values.len() == metas.len()
                && values.iter().zip(metas).all(|(value, meta)| same_shape(value, meta))
        }
        (Value::Object(values), Some(ValueMeta::Object(metas))) => {
            values.len() == metas.len()
                && values.entries.iter().all(|(key, value)| match metas.get(key) {
                    Some(meta) => same_shape(value, meta),
                    None => false,
                })
        }
        _ => false,
    }
}

/// The identifiers of `meta` in the order in which they were issued, if that
/// is the order of the tree: everything below a node before the node.
fn identifiers(meta: &NodeMeta, into: &mut Vec<usize>) {
    match &meta.nested {
        None => {}
        Some(ValueMeta::Null(leaf)) | Some(ValueMeta::Bool(leaf)) | Some(ValueMeta::String(leaf)) => {
            into.push(leaf.id.into_usize())
        }
        Some(ValueMeta::Number(id)) => into.push(id.into_usize()),
        Some(ValueMeta::Array(metas)) => metas.iter().for_each(|meta| identifiers(meta, into)),
        Some(ValueMeta::Object(metas)) => {
            metas.entries.iter().for_each(|(_, meta)| identifiers(meta, into))
        }
    }
    into.push(meta.id.into_usize());
}

fn post_ordered(meta: &NodeMeta) -> bool {
    let mut below = Vec::new();
    identifiers(meta, &mut below);
    below.pop();
    let children_ordered = match &meta.nested {
        Some(ValueMeta::Array(metas)) => metas.iter().all(post_ordered),
        Some(ValueMeta::Object(metas)) => metas.entries.iter().all(|(_, meta)| post_ordered(meta)),
        _ => true,
    };
    children_ordered && below.iter().all(|id| *id < meta.id.into_usize())
}

#[test]
fn document_scenario() {
    let mut scope = RichScope::new();
    let rich = Value::rich_deserialize(&mut scope, &document());

    let mut members = ObjectMap::new();
    members.insert(String::from("foo"), node(1, ValueMeta::Bool(leaf(0))));
    members.insert(String::from("message"), node(3, ValueMeta::String(leaf(2))));
    members.insert(
        String::from("list"),
        node(
            8,
            ValueMeta::Array(vec![
                node(5, ValueMeta::Bool(leaf(4))),
                node(7, ValueMeta::Bool(leaf(6))),
            ]),
        ),
    );
    assert_eq!(rich.meta, node(9, ValueMeta::Object(members)));

    let view = ValueView::new(rich.as_ref());
    assert_eq!(view.meta(), MetaId::from_usize(9));
    let ValueVisit::Object(object) = view.visit() else {
        panic!("the root is an object");
    };
    assert_eq!(object.get("foo").unwrap().meta(), MetaId::from_usize(1));
}

#[test]
fn metadata_has_the_shape_of_the_document() {
    let events = [
        document(),
        Event::Bool(false),
        Event::Number(-1),
        Event::Str(String::new()),
        Event::Sequence(vec![]),
        Event::Mapping(vec![]),
        Event::Sequence(vec![document(), Event::Sequence(vec![document()]), Event::Number(3)]),
        Event::Mapping(vec![
            (String::from("a"), document()),
            (String::from("b"), Event::Number(0)),
            (String::from("a"), Event::Sequence(vec![Event::Bool(true)])),
        ]),
    ];
    let mut scope = RichScope::new();
    for event in &events {
        let rich = Value::rich_deserialize(&mut scope, event);
        assert!(same_shape(&rich.value, &rich.meta));
    }
}

#[test]
fn identifiers_are_issued_in_post_order() {
    let event = Event::Sequence(vec![document(), Event::Sequence(vec![document()]), Event::Number(3)]);
    let mut scope = RichScope::new();
    scope.attach(());
    let rich = Value::rich_deserialize(&mut scope, &event);

    let mut issued = Vec::new();
    identifiers(&rich.meta, &mut issued);
    assert_eq!(issued, (1..=24).collect::<Vec<usize>>());
    assert!(post_ordered(&rich.meta));
    assert_eq!(rich.meta.id, MetaId::from_usize(24));
    assert_eq!(scope.attach(()).meta, MetaId::from_usize(25));
}

#[test]
fn a_member_that_is_replaced_keeps_its_place_and_loses_its_identifiers() {
    let event = Event::Mapping(vec![
        (String::from("a"), Event::Bool(true)),
        (String::from("b"), Event::Bool(true)),
        (String::from("a"), Event::Bool(false)),
    ]);
    let mut scope = RichScope::new();
    let rich = Value::rich_deserialize(&mut scope, &event);

    let mut values = ObjectMap::new();
    values.insert(String::from("a"), Value::Bool(false));
    values.insert(String::from("b"), Value::Bool(true));
    assert_eq!(rich.value, Value::Object(values));

    let mut metas = ObjectMap::new();
    metas.insert(String::from("a"), node(5, ValueMeta::Bool(leaf(4))));
    metas.insert(String::from("b"), node(3, ValueMeta::Bool(leaf(2))));
    assert_eq!(rich.meta, node(6, ValueMeta::Object(metas)));
    assert!(post_ordered(&rich.meta));
}

#[test]
fn a_view_reports_its_node_and_identifier() {
    let value = Value::Number(5);
    let meta = node(11, ValueMeta::Number(MetaId::from_usize(10)));
    let view = ValueView::new(Rich::new(&value, &meta));
    assert_eq!(view.value(), &Value::Number(5));
    assert_eq!(view.meta(), MetaId::from_usize(11));
    assert!(view.try_visit().is_none());

    let null = Value::Null;
    assert!(ValueView::new(Rich::new(&null, &meta)).try_visit().is_none());
    let text = Value::String(String::from("t"));
    assert!(ValueView::new(Rich::new(&text, &meta)).try_visit().is_none());
}

#[test]
fn a_view_of_a_truth_value() {
    let value = true;
    let meta = leaf(3);
    let view = BoolView::new(Rich::new(&value, &meta));
    assert_eq!(view.value(), true);
    assert_eq!(view.meta(), MetaId::from_usize(3));
}

#[test]
fn array_view_ends_where_the_array_ends() {
    let values = vec![Value::Bool(true), Value::Bool(false)];
    let metas = vec![node(1, ValueMeta::Bool(leaf(0))), node(3, ValueMeta::Bool(leaf(2)))];
    let view = ArrayView::new(Rich::new(&values, &metas));

    assert_eq!(view.get(0).unwrap().meta(), MetaId::from_usize(1));
    assert_eq!(view.get(1).unwrap().value(), &Value::Bool(false));
    assert_eq!(view.get(1).unwrap().meta(), MetaId::from_usize(3));
    assert!(view.get(2).is_none());
    assert!(view.get(usize::MAX).is_none());
}

#[test]
fn array_view_without_metadata_for_an_element_reports_the_empty_metadata() {
    let values = vec![Value::Bool(true), Value::Bool(false)];
    let metas = vec![node(8, ValueMeta::Bool(leaf(7)))];
    let view = ArrayView::new(Rich::new(&values, &metas));

    let first = view.get(0).unwrap();
    assert_eq!(first.meta(), MetaId::from_usize(8));
    assert!(first.meta.is_some());

    let second = view.get(1).unwrap();
    assert_eq!(second.value(), &Value::Bool(false));
    assert!(second.meta.is_none());
    assert_eq!(second.meta(), MetaId::from_usize(0));
    let ValueVisit::Bool(raw) = second.visit() else {
        panic!("a truth value");
    };
    assert_eq!(raw.value(), false);
    assert_eq!(raw.meta(), MetaId::from_usize(0));
}

#[test]
fn object_view_without_metadata_for_a_member_reports_the_empty_metadata() {
    let mut values = ObjectMap::new();
    values.insert(String::from("here"), Value::Bool(true));
    values.insert(String::from("lost"), Value::Array(vec![Value::Bool(true)]));
    let mut metas = ObjectMap::new();
    metas.insert(String::from("here"), node(2, ValueMeta::Bool(leaf(1))));
    metas.insert(String::from("extra"), node(4, ValueMeta::Bool(leaf(3))));
    let view = ObjectView::new(Rich::new(&values, &metas));

    assert_eq!(view.get("here").unwrap().meta(), MetaId::from_usize(2));
    assert!(view.get("extra").is_none());
    assert!(view.get("missing").is_none());

    let lost = view.get("lost").unwrap();
    assert!(lost.meta.is_none());
    assert_eq!(lost.meta(), MetaId::from_usize(0));
    let ValueVisit::Array(array) = lost.visit() else {
        panic!("an array");
    };
    assert!(array.metas.is_none());
    let element = array.get(0).unwrap();
    assert_eq!(element.value(), &Value::Bool(true));
    assert_eq!(element.meta(), MetaId::from_usize(0));
}

#[test]
fn metadata_of_another_variant_counts_as_none() {
    let value = Value::Array(vec![Value::Bool(true)]);
    let meta = node(9, ValueMeta::Bool(leaf(8)));
    let view = ValueView::new(Rich::new(&value, &meta));
    assert_eq!(view.meta(), MetaId::from_usize(9));
    let ValueVisit::Array(array) = view.visit() else {
        panic!("an array");
    };
    assert!(array.metas.is_none());
    assert_eq!(array.get(0).unwrap().meta(), MetaId::from_usize(0));

    let value = Value::Bool(true);
    let meta: NodeMeta = WrappedMeta::new(None, MetaId::from_usize(4));
    let ValueVisit::Bool(raw) = ValueView::new(Rich::new(&value, &meta)).visit() else {
        panic!("a truth value");
    };
    assert!(raw.meta.is_none());
    assert_eq!(raw.meta(), MetaId::from_usize(0));
}
