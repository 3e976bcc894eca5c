//! What types become under a projector. Each test holds values of the types
//! that the projection is to give: it does not compile if they differ.

use rich::projection::{
    ConstProjector, MetaFor, Project, RefMutProjector, RefProjector, SliceProjector,
    TreeMetaProjection, TreeMetaProjector, VecProjector, WrappedMetaProjector,
};
use rich::record::{
    Config, ConfigStructure, MetaConfig, MetaNested, Nested, NestedStructure, WrappedConfig,
    WrappedNested,
};
use rich::value::{NodeMeta, Value, ValueMeta};
use rich::{MetaId, TreeMeta, WrappedMeta};

fn id(id: usize) -> MetaId {
    MetaId::from_usize(id)
}

#[test]
fn leaves_project_to_the_unit_type() {
    let unit: Project<(), ConstProjector<MetaId>> = ();
    let flag: Project<bool, VecProjector> = ();
    let number: Project<u32, TreeMetaProjector<MetaId>> = ();
    let text: Project<String, ConstProjector<String>> = ();
    assert_eq!((unit, flag, number, text), ((), (), (), ()));

    let flag: <bool as TreeMetaProjection<MetaId>>::TreeMeta = ();
    let number: <u32 as TreeMetaProjection<u8>>::TreeMeta = ();
    let text: <String as TreeMetaProjection<()>>::TreeMeta = ();
    assert_eq!((flag, number, text), ((), (), ()));

    let flag: MetaFor<bool, MetaId> = ();
    let text: MetaFor<String, MetaId> = ();
    assert_eq!((flag, text), ((), ()));
}

#[test]
fn vectors_and_tuples_project_each_component() {
    let ids: Project<Vec<bool>, ConstProjector<MetaId>> = vec![id(1), id(2)];
    assert_eq!(ids.len(), 2);

    let nested: Project<Vec<u32>, VecProjector> = vec![vec![1, 2], vec![]];
    assert_eq!(nested[0], [1, 2]);

    let metas: MetaFor<Vec<String>, u8> = vec![1, 2, 3];
    assert_eq!(metas, [1, 2, 3]);

    let trees: <Vec<bool> as TreeMetaProjection<MetaId>>::TreeMeta =
        vec![TreeMeta::new(id(4), ()), TreeMeta::new(id(5), ())];
    assert_eq!(trees[1], TreeMeta::new(id(5), ()));

    let single: Project<(bool,), ConstProjector<u8>> = (1,);
    let pair: Project<(bool, String), ConstProjector<MetaId>> = (id(1), id(2));
    let triple: Project<(bool, u32, String), VecProjector> = (vec![true], vec![1], vec![]);
    assert_eq!(single, (1,));
    assert_eq!(pair, (id(1), id(2)));
    assert_eq!(triple.1, [1]);

    let pair: MetaFor<(bool, u32), char> = ('a', 'b');
    assert_eq!(pair, ('a', 'b'));

    let trees: Project<(bool, Vec<u32>), TreeMetaProjector<MetaId>> =
        (TreeMeta::new(id(1), ()), TreeMeta::new(id(3), vec![TreeMeta::new(id(2), ())]));
    assert_eq!(trees.1.nested.len(), 1);
}

#[test]
fn references_project_to_references() {
    let first = 1u32;
    let mut second = true;
    let words = [String::from("a")];

    let shared: Project<(u32, bool), RefProjector<'_>> = (&first, &second);
    assert_eq!(*shared.0, 1);
    assert!(*shared.1);

    let unique: Project<(bool,), RefMutProjector<'_>> = (&mut second,);
    *unique.0 = false;
    assert!(!second);

    let slices: Project<(String,), SliceProjector<'_>> = (&words[..],);
    assert_eq!(slices.0.len(), 1);
}

#[test]
fn records_project_field_by_field() {
    let nested: MetaNested = NestedStructure { crab: TreeMeta::new(id(1), ()) };
    let projected: Project<Nested, TreeMetaProjector<MetaId>> = nested;
    let tree: <Nested as TreeMetaProjection<MetaId>>::TreeMeta = projected;
    assert_eq!(tree, MetaNested { crab: TreeMeta::new(id(1), ()) });

    let config: MetaConfig = ConfigStructure {
        str: TreeMeta::new(id(2), ()),
        num: TreeMeta::new(id(3), ()),
        nested: TreeMeta::new(id(5), tree),
    };
    let projected: Project<Config, TreeMetaProjector<MetaId>> = config;
    assert_eq!(projected.nested.nested.crab, TreeMeta::new(id(1), ()));

    let flags: Project<Nested, VecProjector> = NestedStructure { crab: vec![true, false] };
    assert_eq!(flags.crab.len(), 2);

    let notes: Project<Config, ConstProjector<&str>> =
        ConfigStructure { str: "a text", num: "a number", nested: "a record" };
    assert_eq!(notes.num, "a number");
}

#[test]
fn decoding_wraps_the_metadata_of_each_field() {
    let nested: WrappedNested = NestedStructure { crab: WrappedMeta::new((), id(1)) };
    let projected: Project<Nested, WrappedMetaProjector> = nested;
    assert_eq!(projected.crab.id, id(1));

    let config: WrappedConfig = ConfigStructure {
        str: WrappedMeta::new((), id(2)),
        num: WrappedMeta::new((), id(3)),
        nested: WrappedMeta::new(projected, id(4)),
    };
    let projected: Project<Config, WrappedMetaProjector> = config;
    assert_eq!(projected.nested.nested.crab, WrappedMeta::new((), id(1)));

    let elements: Project<Vec<bool>, WrappedMetaProjector> = vec![WrappedMeta::new((), id(5))];
    assert_eq!(elements[0].id, id(5));
}

#[test]
fn a_document_projects_to_the_metadata_of_its_variant() {
    let nothing: Project<Value, WrappedMetaProjector> = None;
    let number: Project<Value, WrappedMetaProjector> = Some(ValueMeta::Number(id(1)));
    assert_eq!(nothing, None);
    assert_eq!(number, Some(ValueMeta::Number(id(1))));

    let node: NodeMeta = WrappedMeta::new(number, id(2));
    let elements: Project<Vec<Value>, WrappedMetaProjector> = vec![node];
    assert_eq!(elements[0].id, id(2));
}
