use memeroute::dsn::design_to_pcb::DesignToPcb;
use memeroute::dsn::error::DsnError;
use memeroute::dsn::lexer::Lexer;
use memeroute::dsn::parser::Parser;
use memeroute::dsn::types::DsnPcb;
use memeroute::model::pcb::{LayerKind, LayerSet, PinRef};

fn design(s: &str) -> DsnPcb {
    let lx = Lexer::new(s).unwrap();
    assert!(lx.can_lex());
    let toks = lx.lex().unwrap();
    Parser::new(&toks).parse().unwrap()
}

fn members(s: &LayerSet) -> Vec<usize> {
    let mut it = s.iter();
    let mut v = Vec::new();
    while let Some(x) = it.next() {
        v.push(x);
    }
    v
}

const BOARD: &str = "(pcb demo
  (resolution inch 1000) (unit inch)
  (structure
    (layer F.Cu (type signal)) (layer GND (type power)) (layer B.Cu (type signal))
    (boundary (rect pcb 0 0 100 100))
    (keepout (circle B.Cu 5 10 10))
    (via via0))
  (library
    (image R0805 (outline (path signal 1 0 0 1 1)) (pin smd 1 -1 0) (pin smd 2 1 0))
    (padstack smd (shape (rect F.Cu -1 -1 1 1)))
    (padstack via0 (shape (circle signal 8)) (attach off)))
  (placement (component R0805 (place R1 10 10 front 0) (place R2 20 10 back 90)))
  (network
    (net GND (pins R1-1 R2-1))
    (net VCC (pins R1-2))
    (class default GND VCC (circuit (use_via via0)) (rule (width 250) (clearance 200))))
  (wiring))";

#[test]
fn converts_a_whole_design() {
    let b = DesignToPcb::new(design(BOARD)).convert().unwrap();
    let pcb = &b.pcb;
    assert_eq!(pcb.to_name(pcb.pcb_id()), "demo");
    assert_eq!(pcb.layers().len(), 3);
    assert_eq!(pcb.layers()[1].kind, LayerKind::Power);
    assert_eq!(pcb.to_name(pcb.layers()[2].name_id), "B.Cu");
    // Padstacks, in the order of the library.
    assert_eq!(b.padstacks.len(), 2);
    assert_eq!(pcb.to_name(b.padstacks[0].id), "smd");
    assert_eq!(members(&b.padstacks[0].shape_layers[0]), vec![0]);
    assert_eq!(members(&b.padstacks[1].shape_layers[0]), vec![0, 2]);
    assert!(!b.padstacks[1].attach);
    // The image, its outline on the signal layers and its pins.
    assert_eq!(b.images.len(), 1);
    assert_eq!(members(&b.images[0].outline_layers[0]), vec![0, 2]);
    assert_eq!(b.images[0].pins.len(), 2);
    // Boundaries on every layer, the keepout on its layer, the via.
    assert_eq!(members(&b.boundary_layers[0]), vec![0, 1, 2]);
    assert_eq!(members(&b.keepout_layers[0]), vec![2]);
    assert_eq!(b.via_padstacks, vec![1]);
    // Components by ID.
    assert_eq!(b.components.len(), 2);
    let mut backs: Vec<(String, bool)> =
        b.components.values().map(|c| (pcb.to_name(c.id), c.back)).collect();
    backs.sort();
    assert_eq!(backs, vec![("R1".to_owned(), false), ("R2".to_owned(), true)]);
    // Nets and the pins filed under them.
    let gnd = pcb.net(pcb.layers()[1].name_id).unwrap();
    assert_eq!(gnd.pins.len(), 2);
    let r1 = b.components.values().find(|c| pcb.to_name(c.id) == "R1").unwrap().id;
    let pin1 = b.images[0].pins.values().find(|p| pcb.to_name(p.id) == "1").unwrap().id;
    assert_eq!(pcb.pin_ref_net(&PinRef { component: r1, pin: pin1 }), Some(gnd.id));
    // The class is the rule set of both nets.
    assert_eq!(b.rulesets.len(), 1);
    let rs = b.rulesets.values().next().unwrap();
    assert_eq!(pcb.to_name(rs.id), "default");
    assert_eq!(rs.vias.len(), 1);
    assert_eq!(pcb.net_ruleset(gnd.id), rs.id);
}

#[test]
fn pin_refs_resolve_on_a_converted_board() {
    let mut b = DesignToPcb::new(design(BOARD)).convert().unwrap();
    let r2 = b.pcb.to_id("R2");
    let pin2 = b.pcb.to_id("2");
    let (c, pin) = b.pin_ref(&PinRef { component: r2, pin: pin2 }).unwrap();
    assert_eq!(c.id, r2);
    assert!(c.back);
    assert_eq!(c.image, 0);
    assert_eq!(pin.id, pin2);
    assert_eq!(pin.pin, 1);
    assert_eq!(pin.padstack, 0);
    // A name that no component has, and one that no pin of the image has.
    let gnd = b.pcb.to_id("GND");
    assert!(matches!(
        b.pin_ref(&PinRef { component: gnd, pin: pin2 }),
        Err(DsnError::UnknownComponent)
    ));
    assert!(matches!(b.pin_ref(&PinRef { component: r2, pin: gnd }), Err(DsnError::UnknownPin)));
}

#[test]
fn each_net_of_a_board_is_listed_once() {
    let b = DesignToPcb::new(design(BOARD)).convert().unwrap();
    let mut names: Vec<String> = b.pcb.nets().iter().map(|n| b.pcb.to_name(n.id)).collect();
    names.sort();
    assert_eq!(names, vec!["GND".to_owned(), "VCC".to_owned()]);
    let gnd = b.pcb.nets().into_iter().find(|n| b.pcb.to_name(n.id) == "GND").unwrap();
    assert_eq!(gnd.pins.len(), 2);
}

#[test]
fn a_cloned_board_keeps_its_names_and_nets() {
    let b = DesignToPcb::new(design(BOARD)).convert().unwrap();
    let mut copy = b.pcb.clone();
    assert_eq!(copy.to_name(copy.pcb_id()), "demo");
    assert_eq!(copy.layers().len(), 3);
    assert_eq!(copy.nets().len(), 2);
    // Looking a new name up in the copy leaves the original as it was.
    let n = b.pcb.name_count();
    copy.to_id("new name");
    assert_eq!(copy.name_count(), n + 1);
    assert_eq!(b.pcb.name_count(), n);
}

fn convert_err(s: &str) -> DsnError {
    match DesignToPcb::new(design(s)).convert() {
        Err(e) => e,
        Ok(_) => panic!("expected the conversion to fail"),
    }
}

#[test]
fn unit_override_is_refused() {
    assert!(matches!(convert_err("(pcb a (resolution mm 10) (structure (layer x)))"), DsnError::UnitOverride));
}

#[test]
fn duplicate_layer_in_a_design() {
    match convert_err("(pcb a (structure (layer x) (layer y) (layer x)))") {
        DsnError::DuplicateLayer(s) => assert_eq!(s, "x"),
        _ => panic!("expected a duplicate layer"),
    }
}

#[test]
fn unknown_layer_of_a_shape() {
    match convert_err("(pcb a (structure (layer x) (boundary (rect y 0 0 1 1))))") {
        DsnError::UnknownLayer(s) => assert_eq!(s, "y"),
        _ => panic!("expected an unknown layer"),
    }
}

#[test]
fn duplicate_and_missing_padstacks() {
    match convert_err("(pcb a (structure (layer x)) (library (padstack p) (padstack p)))") {
        DsnError::DuplicatePadstack(s) => assert_eq!(s, "p"),
        _ => panic!("expected a duplicate padstack"),
    }
    match convert_err("(pcb a (structure (layer x)) (library (image i (pin q 1 0 0))))") {
        DsnError::MissingPadstack(s) => assert_eq!(s, "q"),
        _ => panic!("expected a missing padstack"),
    }
    match convert_err("(pcb a (structure (layer x) (via v)))") {
        DsnError::UnknownPadstack(s) => assert_eq!(s, "v"),
        _ => panic!("expected an unknown padstack"),
    }
}

#[test]
fn images_and_components() {
    match convert_err("(pcb a (structure (layer x)) (library (image i) (image i)))") {
        DsnError::DuplicateImage(s) => assert_eq!(s, "i"),
        _ => panic!("expected a duplicate image"),
    }
    match convert_err("(pcb a (structure (layer x)) (placement (component j (place c 0 0 front 0))))") {
        DsnError::MissingImage(s) => assert_eq!(s, "j"),
        _ => panic!("expected a missing image"),
    }
    assert!(matches!(
        convert_err("(pcb a (structure (layer x)) (library (image i)) (placement (component i (place c 0 0 both 0))))"),
        DsnError::InvalidSide
    ));
}

#[test]
fn two_widths_in_a_class_are_refused() {
    assert!(matches!(
        convert_err("(pcb a (structure (layer x)) (network (class c (rule (width 1) (width 2)))))"),
        DsnError::MultipleWidthRules
    ));
}

#[test]
fn class_without_nets_is_the_default() {
    let b = DesignToPcb::new(design("(pcb a (structure (layer x)) (network (net n) (class c)))")).convert().unwrap();
    let pcb = &b.pcb;
    let rs = b.rulesets.values().next().unwrap().id;
    assert_eq!(pcb.to_name(rs), "c");
    assert_eq!(pcb.net_ruleset(12345), rs);
}
