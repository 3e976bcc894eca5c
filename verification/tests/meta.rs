use rich::object_map::ObjectMap;
use rich::split::SplitMeta;
use rich::{EmptyMeta, MetaId, Rich, RichPrimitive, RichScope, TreeMeta, WrappedMeta};

#[test]
fn identifiers_wrap_numbers() {
    assert_eq!(MetaId::from_usize(7).into_usize(), 7);
    assert_eq!(MetaId::from_usize(0), MetaId::from_usize(0));
    assert_ne!(MetaId::from_usize(0), MetaId::from_usize(1));
    assert!(MetaId::from_usize(3) < MetaId::from_usize(4));
    assert_eq!(MetaId::from_usize(usize::MAX).into_usize(), usize::MAX);
}

#[test]
fn empty_metadata_is_one_value() {
    assert_eq!(EmptyMeta, EmptyMeta::default());
}

#[test]
fn rich_pairs_and_maps() {
    let rich = Rich::new(20u8, "meta");
    assert_eq!(rich.value, 20);
    assert_eq!(rich.meta, "meta");

    let by_reference = rich.as_ref();
    assert_eq!(*by_reference.value, 20);
    assert_eq!(*by_reference.meta, "meta");

    let doubled = rich.map_value(|value| u16::from(value) * 2);
    assert_eq!(doubled, Rich::new(40u16, "meta"));

    let measured = doubled.map_meta(|meta| meta.len());
    assert_eq!(measured, Rich::new(40u16, 4usize));
}

#[test]
fn a_fresh_scope_starts_at_the_smallest_identifier() {
    let mut scope = RichScope::new();
    assert_eq!(scope.attach('a'), Rich::new('a', MetaId::from_usize(usize::MIN)));
}

#[test]
fn every_mint_takes_one_identifier() {
    let mut scope = RichScope::new();
    let plain = scope.attach("leaf");
    assert_eq!(plain, Rich::new("leaf", MetaId::from_usize(0)));

    let wrapped = scope.wrap(Rich::new("node", vec![plain.meta]));
    assert_eq!(
        wrapped,
        Rich::new("node", WrappedMeta::new(vec![MetaId::from_usize(0)], MetaId::from_usize(1)))
    );

    let again = scope.wrap(wrapped);
    assert_eq!(again.meta.id, MetaId::from_usize(2));
    assert_eq!(again.meta.nested.id, MetaId::from_usize(1));
    assert_eq!(scope.attach(()).meta, MetaId::from_usize(3));
}

#[test]
fn identifiers_of_one_scope_increase() {
    let mut scope = RichScope::new();
    let mut last = scope.attach(()).meta;
    for _ in 0..1000 {
        let next = if last.into_usize() % 2 == 0 {
            scope.attach(()).meta
        } else {
            scope.wrap(Rich::new((), ())).meta.id
        };
        assert!(last < next);
        assert_eq!(next.into_usize(), last.into_usize() + 1);
        last = next;
    }
}

#[test]
fn two_scopes_number_alike() {
    let mut first = RichScope::new();
    let mut second = RichScope::new();
    first.attach(());
    assert_eq!(first.attach(()).meta, MetaId::from_usize(1));
    assert_eq!(second.attach(()).meta, MetaId::from_usize(0));
}

#[test]
fn leaves_split_into_themselves() {
    let flag: Rich<bool, ()> = <bool as SplitMeta<MetaId>>::split_meta(true);
    assert_eq!(flag, Rich::new(true, ()));

    let number: Rich<u32, ()> = <u32 as SplitMeta<MetaId>>::split_meta(42);
    assert_eq!(number, Rich::new(42, ()));

    let text: Rich<String, ()> = <String as SplitMeta<MetaId>>::split_meta(String::from("x"));
    assert_eq!(text, Rich::new(String::from("x"), ()));

    let primitive = RichPrimitive(7u32);
    assert_eq!(*primitive.as_ref(), 7);
    let split: Rich<u32, ()> = <RichPrimitive<u32> as SplitMeta<MetaId>>::split_meta(primitive);
    assert_eq!(split, Rich::new(7, ()));
}

#[test]
fn deep_split_moves_the_identifier_into_the_tree() {
    let rich = Rich::new(true, MetaId::from_usize(5));
    assert_eq!(
        rich.deep_split_meta(),
        Rich::new(true, TreeMeta::new(MetaId::from_usize(5), ()))
    );

    let rich = Rich::new(RichPrimitive(9u32), MetaId::from_usize(6));
    assert_eq!(rich.deep_split_meta(), Rich::new(9, TreeMeta::new(MetaId::from_usize(6), ())));
}

#[test]
fn object_map_keeps_one_value_for_a_key() {
    let mut map = ObjectMap::new();
    assert_eq!(map.len(), 0);
    assert_eq!(map.get("a"), None);
    assert!(!map.contains_key("a"));

    map.insert(String::from("a"), 1);
    map.insert(String::from("b"), 2);
    assert_eq!(map.len(), 2);
    assert_eq!(map.get("a"), Some(&1));
    assert_eq!(map.get("b"), Some(&2));
    assert_eq!(map.get("c"), None);
    assert_eq!(map.position("b"), Some(1));

    map.insert(String::from("a"), 3);
    assert_eq!(map.len(), 2);
    assert_eq!(map.get("a"), Some(&3));
    assert_eq!(map.position("a"), Some(0));
    assert_eq!(map.entries, vec![(String::from("a"), 3), (String::from("b"), 2)]);
    assert!(map.contains_key("a"));
    assert!(!map.contains_key(""));
}

#[test]
fn object_map_finds_the_first_of_two_entries_with_one_key() {
    let map = ObjectMap {
        entries: vec![(String::from("k"), 1), (String::from("other"), 2), (String::from("k"), 3)],
    };
    assert_eq!(map.get("k"), Some(&1));
    assert_eq!(map.position("k"), Some(0));
}
