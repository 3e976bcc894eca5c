use rich::projection::TreeMetaProjection;
use rich::split::SplitMeta;
use rich::{MetaId, Rich, TreeMeta};

#[derive(Debug, Clone, Copy, PartialEq, Eq, PartialOrd, Ord, Hash)]
struct Mascot {
    is_crab: bool,
    price: u32,
}

#[derive(Debug, Clone, Copy, PartialEq, Eq, PartialOrd, Ord, Hash)]
struct MascotMeta<M> {
    is_crab: TreeMeta<M, ()>,
    price: TreeMeta<M, ()>,
}

impl<M> TreeMetaProjection<M> for Mascot {
    type TreeMeta = MascotMeta<M>;
}

#[derive(Debug, Clone, Copy, PartialEq, Eq, PartialOrd, Ord, Hash)]
struct RichMascot {
    is_crab: Rich<bool, MetaId>,
    price: Rich<u32, MetaId>,
}

impl SplitMeta<MetaId> for RichMascot {
    type Value = Mascot;

    fn split_meta(self) -> Rich<Self::Value, MascotMeta<MetaId>> {
        let is_crab: Rich<bool, _> = self.is_crab.deep_split_meta();
        let price: Rich<u32, _> = self.price.deep_split_meta();
        Rich::new(
            Mascot { is_crab: is_crab.value, price: price.value },
            MascotMeta { is_crab: is_crab.meta, price: price.meta },
        )
    }
}

#[test]
fn deep_split_meta_mascot() {
    let config = Rich::new(
        RichMascot {
            is_crab: Rich::new(true, MetaId::from_usize(1)),
            price: Rich::new(42, MetaId::from_usize(2)),
        },
        MetaId::from_usize(3),
    );

    let actual = config.deep_split_meta();

    let expected = Rich::new(
        Mascot { is_crab: true, price: 42 },
        TreeMeta::new(
            MetaId::from_usize(3),
            MascotMeta {
                is_crab: TreeMeta::new(MetaId::from_usize(1), ()),
                price: TreeMeta::new(MetaId::from_usize(2), ()),
            },
        ),
    );

    assert_eq!(actual, expected);
}
