use memeroute::dsn::design::{
    check_unit, convert_layers, convert_net, keepout_kind, kind_named, layer_kind, layer_set_by_name,
    layer_with_name,
};
use memeroute::dsn::error::DsnError;
use memeroute::dsn::number::DsnNumber;
use memeroute::dsn::session::SessionWriter;
use memeroute::dsn::types::{
    DsnDimensionUnit, DsnKeepoutType, DsnLayer, DsnLayerType, DsnNet, DsnPinRef, DsnResolution,
};
use memeroute::model::geom::qt::query::{
    all_query, matches_kinds_query, matches_query, no_kinds, no_tag, Kinds, KindsQuery, Query, Tag, TagQuery,
};
use memeroute::model::pcb::{
    layer_by_id, layer_id, layers_by_kind, Clearance, KeepoutType, Layer, LayerKind, LayerSet, ObjectKind,
};
use memeroute::name::NameMap;
use rust_dense_bitset::BitSet;

fn dsn_layer(name: &str, t: DsnLayerType) -> DsnLayer {
    DsnLayer { layer_name: name.to_owned(), layer_type: t }
}

fn set_of(ids: &[usize]) -> LayerSet {
    LayerSet::from_ids(ids)
}

fn members(s: &LayerSet) -> Vec<usize> {
    let mut it = s.iter();
    let mut v = Vec::new();
    while let Some(x) = it.next() {
        v.push(x);
    }
    v
}

#[test]
fn layers_get_ids_in_order() {
    let mut names = NameMap::new();
    names.name_to_id("board");
    let ls = convert_layers(
        &mut names,
        &[dsn_layer("F.Cu", DsnLayerType::Signal), dsn_layer("In1", DsnLayerType::Power), dsn_layer("B.Cu", DsnLayerType::Jumper)],
    )
    .unwrap();
    assert_eq!(ls.len(), 3);
    assert_eq!(ls[0], Layer { name_id: 1, layer_id: 0, kind: LayerKind::Signal });
    assert_eq!(ls[1], Layer { name_id: 2, layer_id: 1, kind: LayerKind::Power });
    assert_eq!(ls[2], Layer { name_id: 3, layer_id: 2, kind: LayerKind::Jumper });
    assert_eq!(names.len(), 4);
    assert_eq!(names.name(3), "B.Cu");
}

#[test]
fn duplicate_layer_is_refused() {
    let mut names = NameMap::new();
    let r = convert_layers(
        &mut names,
        &[dsn_layer("a", DsnLayerType::Signal), dsn_layer("b", DsnLayerType::Signal), dsn_layer("a", DsnLayerType::Mixed)],
    );
    match r {
        Err(DsnError::DuplicateLayer(s)) => assert_eq!(s, "a"),
        _ => panic!("expected a duplicate layer"),
    }
    assert_eq!(names.len(), 2);
}

#[test]
fn layer_kinds_and_keepout_kinds() {
    assert_eq!(layer_kind(DsnLayerType::Mixed), LayerKind::Mixed);
    assert_eq!(layer_kind(DsnLayerType::Signal), LayerKind::Signal);
    assert_eq!(keepout_kind(DsnKeepoutType::WireKeepout), KeepoutType::WireKeepout);
    assert_eq!(keepout_kind(DsnKeepoutType::Keepout), KeepoutType::Keepout);
}

#[test]
fn unit_must_match_resolution() {
    let mm = DsnResolution { amount: 1000, dimension: DsnDimensionUnit::Mm };
    let mm1 = DsnResolution { amount: 1, dimension: DsnDimensionUnit::Mm };
    let inch = DsnResolution { amount: 1, dimension: DsnDimensionUnit::Inch };
    assert!(check_unit(&mm1, &mm).is_ok());
    assert!(matches!(check_unit(&inch, &mm), Err(DsnError::UnitOverride)));
}

fn board(names: &mut NameMap) -> Vec<Layer> {
    convert_layers(
        names,
        &[dsn_layer("top", DsnLayerType::Signal), dsn_layer("gnd", DsnLayerType::Power), dsn_layer("bot", DsnLayerType::Signal)],
    )
    .unwrap()
}

#[test]
fn layer_names_stand_for_sets() {
    let mut names = NameMap::new();
    let layers = board(&mut names);
    assert_eq!(kind_named("signal"), Some(LayerKind::Signal));
    assert_eq!(kind_named("pcb"), Some(LayerKind::All));
    assert_eq!(kind_named("gnd"), None);
    assert_eq!(members(&layer_set_by_name(&mut names, &layers, "signal").unwrap()), vec![0, 2]);
    assert_eq!(members(&layer_set_by_name(&mut names, &layers, "power").unwrap()), vec![1]);
    assert_eq!(members(&layer_set_by_name(&mut names, &layers, "pcb").unwrap()), vec![0, 1, 2]);
    assert!(layer_set_by_name(&mut names, &layers, "jumper").unwrap().is_empty());
    assert_eq!(members(&layer_set_by_name(&mut names, &layers, "bot").unwrap()), vec![2]);
    assert_eq!(names.len(), 3);
    match layer_set_by_name(&mut names, &layers, "inner") {
        Err(DsnError::UnknownLayer(s)) => assert_eq!(s, "inner"),
        _ => panic!("expected an unknown layer"),
    }
    // Looking the name up added it.
    assert_eq!(names.len(), 4);
    assert_eq!(layer_with_name(&layers, 1), Some(1));
    assert_eq!(layer_with_name(&layers, 3), None);
}

#[test]
fn nets_look_up_names_in_order() {
    let mut names = NameMap::new();
    names.name_to_id("R1");
    let net = DsnNet {
        net_id: "GND".to_owned(),
        pins: vec![
            DsnPinRef { component_id: "R1".to_owned(), pin_id: "1".to_owned() },
            DsnPinRef { component_id: "C2".to_owned(), pin_id: "1".to_owned() },
        ],
    };
    let n = convert_net(&mut names, &net);
    assert_eq!(n.id, 1);
    assert_eq!(n.pins.len(), 2);
    assert_eq!((n.pins[0].component, n.pins[0].pin), (0, 2));
    assert_eq!((n.pins[1].component, n.pins[1].pin), (3, 2));
    assert_eq!(names.len(), 4);
}

#[test]
fn layer_set_operations() {
    let mut s = LayerSet::empty();
    assert!(s.is_empty());
    assert_eq!(s.first(), None);
    s.insert(3);
    s.insert(5);
    assert_eq!(s.len(), 2);
    assert_eq!(s.first(), Some(3));
    assert_eq!(s.id(), None);
    assert!(s.contains(5));
    assert!(!s.contains(4));
    s.remove(3);
    assert_eq!(s.id(), Some(5));
    assert!(LayerSet::one(5) == s);
    let a = set_of(&[0, 1, 2]);
    let b = set_of(&[2, 3]);
    assert_eq!(members(&a.union(&b)), vec![0, 1, 2, 3]);
    assert_eq!(members(&a.intersect(&b)), vec![2]);
    assert!(a.contains_set(set_of(&[0, 2])));
    assert!(!a.contains_set(b));
}

#[test]
fn flipping_twice_gives_the_set_back() {
    let mut s = set_of(&[0, 1, 3]);
    s.flip(4);
    assert_eq!(members(&s), vec![0, 2, 3]);
    s.flip(4);
    assert_eq!(members(&s), vec![0, 1, 3]);
    let mut t = set_of(&[5]);
    t.flip(4);
    assert!(t.is_empty());
}

#[test]
fn board_layers_by_kind_and_name() {
    let mut names = NameMap::new();
    let layers = board(&mut names);
    assert_eq!(members(&layers_by_kind(&layers, LayerKind::Signal)), vec![0, 2]);
    assert_eq!(members(&layers_by_kind(&layers, LayerKind::All)), vec![0, 1, 2]);
    assert_eq!(layer_by_id(&layers, 1).name_id, 1);
    assert_eq!(layer_id(&layers, &names, LayerSet::one(2)), Some("bot".to_owned()));
    assert_eq!(layer_id(&layers, &names, set_of(&[0, 1, 2])), Some("all".to_owned()));
    assert_eq!(layer_id(&layers, &names, set_of(&[0, 2])), Some("signal".to_owned()));
    assert_eq!(layer_id(&layers, &names, set_of(&[0, 1])), None);
}

#[test]
fn kinds_and_queries() {
    let pin = ObjectKind::Pin.query();
    let wire = ObjectKind::Wire.query();
    assert!(matches_kinds_query(pin, KindsQuery::All));
    assert!(matches_kinds_query(pin, KindsQuery::HasCommon(ObjectKind::Pin.query())));
    assert!(!matches_kinds_query(pin, KindsQuery::HasCommon(wire)));
    assert!(!matches_kinds_query(no_kinds(), KindsQuery::HasCommon(wire)));
    assert!(matches_query(Tag(3), pin, all_query()));
    assert!(!matches_query(Tag(3), pin, Query(TagQuery::Except(Tag(3)), KindsQuery::All)));
    assert!(matches_query(no_tag(), wire, Query(TagQuery::Except(Tag(3)), KindsQuery::HasCommon(wire))));
}

#[test]
fn session_layout() {
    let mut names = NameMap::new();
    names.name_to_id("board");
    let mut w = SessionWriter::new();
    w.begin("session");
    w.id(&names, 0);
    w.begin("routes");
    w.resolution();
    w.side(true);
    w.token("x");
    w.end();
    w.end();
    assert_eq!(
        w.finish(),
        "(session \"board\"\n  (routes\n    (resolution mm 100000) back x))"
    );
}

fn kind_bits(k: Kinds) -> Vec<usize> {
    (0..5).filter(|&b| k.0.get_bit(b)).collect()
}

#[test]
fn clearance_pairs_apply_both_ways() {
    let amount = DsnNumber { mantissa: 2, scale: 1 };
    let c = Clearance::new(amount, &[(ObjectKind::Smd, ObjectKind::Wire), (ObjectKind::Via, ObjectKind::Via)]);
    assert_eq!(kind_bits(c.subset_for(ObjectKind::Smd)), vec![4]);
    assert_eq!(kind_bits(c.subset_for(ObjectKind::Wire)), vec![2]);
    assert_eq!(kind_bits(c.subset_for(ObjectKind::Via)), vec![3]);
    assert_eq!(kind_bits(c.subset_for(ObjectKind::Area)), Vec::<usize>::new());
    assert_eq!(kind_bits(c.subset_for(ObjectKind::Pin)), Vec::<usize>::new());
    let none = Clearance::new(amount, &[]);
    assert_eq!(kind_bits(none.subset_for(ObjectKind::Wire)), Vec::<usize>::new());
}
