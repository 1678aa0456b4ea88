use memeroute::dsn::error::DsnError;
use memeroute::dsn::lexer::Lexer;
use memeroute::dsn::number::DsnNumber;
use memeroute::dsn::parser::Parser;
use memeroute::dsn::token::Token;
use memeroute::dsn::types::{
    DsnCircuit, DsnClearanceType, DsnDimensionUnit, DsnKeepoutType, DsnLayerType, DsnLockType,
    DsnPt, DsnRule, DsnShape, DsnSide, DsnWindow,
};

fn lex(s: &str) -> Vec<Token> {
    let lx = Lexer::new(s).unwrap();
    assert!(lx.can_lex());
    lx.lex().unwrap()
}

fn parser(s: &str) -> Parser {
    Parser::new(&lex(s))
}

fn num(mantissa: i128, scale: u32) -> DsnNumber {
    DsnNumber { mantissa, scale }
}

fn pt(x: DsnNumber, y: DsnNumber) -> DsnPt {
    DsnPt { x, y }
}

#[test]
fn numbers_keep_mantissa_and_scale() {
    let mut p = parser("1.25 -3 0.500 12");
    assert_eq!(p.number().unwrap(), num(125, 2));
    assert_eq!(p.number().unwrap(), num(-3, 0));
    assert_eq!(p.number().unwrap(), num(500, 3));
    assert_eq!(p.number().unwrap(), num(12, 0));
    assert!(matches!(p.number(), Err(DsnError::UnexpectedEof)));
}

#[test]
fn a_word_is_no_number() {
    let mut p = parser("abc");
    match p.number() {
        Err(DsnError::InvalidNumber(s)) => assert_eq!(s, "abc"),
        _ => panic!("expected an invalid number"),
    }
}

#[test]
fn vertices_read_x_then_y() {
    let mut p = parser("1 2.5");
    assert_eq!(p.vertex().unwrap(), pt(num(1, 0), num(25, 1)));
}

#[test]
fn rect_corners_in_either_order() {
    let r = parser("(rect pcb 10 20 -5 3)").rect().unwrap();
    assert_eq!(r.layer_id, "pcb");
    assert_eq!(r.rect.l, num(-5, 0));
    assert_eq!(r.rect.b, num(3, 0));
    assert_eq!(r.rect.r, num(10, 0));
    assert_eq!(r.rect.t, num(20, 0));
    // Decimals are compared by value, not by their parts.
    let r = parser("(rect top 1.5 0 2 1)").rect().unwrap();
    assert_eq!(r.rect.l, num(15, 1));
    assert_eq!(r.rect.r, num(2, 0));
}

#[test]
fn circle_center_defaults_to_origin() {
    let c = parser("(circle top 100)").circle().unwrap();
    assert_eq!(c.layer_id, "top");
    assert_eq!(c.diameter, num(100, 0));
    assert_eq!(c.p, pt(num(0, 0), num(0, 0)));
    let c = parser("(circle top 100 1 2)").circle().unwrap();
    assert_eq!(c.p, pt(num(1, 0), num(2, 0)));
}

#[test]
fn polygon_and_path_vertices() {
    let v = parser("(polygon signal 0 0 0 10 0 10 10)").polygon().unwrap();
    assert_eq!(v.layer_id, "signal");
    assert_eq!(v.aperture_width, num(0, 0));
    assert_eq!(v.pts, vec![pt(num(0, 0), num(0, 0)), pt(num(10, 0), num(0, 0)), pt(num(10, 0), num(10, 0))]);
    let v = parser("(path top 5 1 1 2 2)").path().unwrap();
    assert_eq!(v.aperture_width, num(5, 0));
    assert_eq!(v.pts.len(), 2);
}

#[test]
fn qarc_reads_three_vertices() {
    let v = parser("(qarc top 1 0 0 2 2 1 1)").qarc().unwrap();
    assert_eq!(v.start, pt(num(0, 0), num(0, 0)));
    assert_eq!(v.end, pt(num(2, 0), num(2, 0)));
    assert_eq!(v.center, pt(num(1, 0), num(1, 0)));
}

#[test]
fn shapes_by_keyword() {
    assert!(matches!(parser("(circle a 1)").shape().unwrap(), DsnShape::Circle(_)));
    assert!(matches!(parser("(rect a 0 0 1 1)").shape().unwrap(), DsnShape::Rect(_)));
    assert!(matches!(parser("(path a 1 0 0)").shape().unwrap(), DsnShape::Path(_)));
    assert!(matches!(parser("(polygon a 1 0 0)").shape().unwrap(), DsnShape::Polygon(_)));
    assert!(matches!(parser("(qarc a 1 0 0 0 0 0 0)").shape().unwrap(), DsnShape::QArc(_)));
    assert!(matches!(parser("(pin a 1)").shape(), Err(DsnError::UnrecognisedShapeType)));
}

#[test]
fn padstack_with_shapes_and_attach() {
    let v = parser("(padstack via0 (shape (circle top 10) (window)) (shape (circle bottom 10)) (attach off))")
        .padstack()
        .unwrap();
    assert_eq!(v.padstack_id, "via0");
    assert_eq!(v.shapes.len(), 2);
    assert_eq!(v.shapes[0].windows.len(), 1);
    assert!(matches!(v.shapes[0].windows[0], DsnWindow::Rect(_)));
    assert!(!v.attach);
    let v = parser("(padstack p)").padstack().unwrap();
    assert!(v.attach);
}

#[test]
fn pin_with_and_without_rotation() {
    let v = parser("(pin round (rotate 90) 1 -2 3)").pin().unwrap();
    assert_eq!(v.padstack_id, "round");
    assert_eq!(v.rotation, num(90, 0));
    assert_eq!(v.pin_id, "1");
    assert_eq!(v.p, pt(num(-2, 0), num(3, 0)));
    let v = parser("(pin round 2 0 0)").pin().unwrap();
    assert_eq!(v.rotation, num(0, 0));
    assert_eq!(v.pin_id, "2");
}

#[test]
fn keepout_kinds() {
    let v = parser("(via_keepout (circle top 5))").keepout().unwrap();
    assert_eq!(v.keepout_type, DsnKeepoutType::ViaKeepout);
    assert!(matches!(v.shape, DsnShape::Circle(_)));
    assert!(matches!(parser("(pin (circle top 5))").keepout(), Err(DsnError::UnrecognisedKeepoutType)));
}

#[test]
fn image_collects_outlines_pins_keepouts() {
    let v = parser(
        "(image R0805 (outline (path signal 1 0 0 1 1)) (pin p1 1 0 0) (pin p1 2 1 0) (keepout (rect top 0 0 1 1)))",
    )
    .image()
    .unwrap();
    assert_eq!(v.image_id, "R0805");
    assert_eq!(v.outlines.len(), 1);
    assert_eq!(v.pins.len(), 2);
    assert_eq!(v.pins[1].pin_id, "2");
    assert_eq!(v.keepouts.len(), 1);
}

#[test]
fn library_images_and_padstacks() {
    let v = parser("(library (image a) (padstack b) (image c))").library().unwrap();
    assert_eq!(v.images.len(), 2);
    assert_eq!(v.images[1].image_id, "c");
    assert_eq!(v.padstacks.len(), 1);
    assert!(matches!(parser("(library (net x))").library(), Err(DsnError::UnrecognisedToken(_))));
}

#[test]
fn placement_reference_fields() {
    let v = parser("(place R1 10 20 back 180 (lock_type position) (PN 10k))").placement_ref().unwrap();
    assert_eq!(v.component_id, "R1");
    assert_eq!(v.p, pt(num(10, 0), num(20, 0)));
    assert_eq!(v.side, DsnSide::Back);
    assert_eq!(v.rotation, num(180, 0));
    assert_eq!(v.lock_type, DsnLockType::Position);
    assert_eq!(v.part_number, "10k");
    let v = parser("(place R2 0 0 front 0)").placement_ref().unwrap();
    assert_eq!(v.lock_type, DsnLockType::Unlocked);
    assert_eq!(v.part_number, "");
    assert!(matches!(
        parser("(place R1 0 0 front 0 (lock_type none))").placement_ref(),
        Err(DsnError::UnrecognisedLockType)
    ));
}

#[test]
fn placement_of_components() {
    let v = parser("(placement (component R0805 (place R1 0 0 front 0) (place R2 1 1 back 90)))")
        .placement()
        .unwrap();
    assert_eq!(v.components.len(), 1);
    assert_eq!(v.components[0].image_id, "R0805");
    assert_eq!(v.components[0].refs.len(), 2);
}

#[test]
fn clearance_and_rules() {
    let v = parser("(rule (width 250) (clearance 200 (type default_smd) (type smd_smd)))").rule().unwrap();
    assert_eq!(v.len(), 2);
    assert_eq!(v[0], DsnRule::Width(num(250, 0)));
    match &v[1] {
        DsnRule::Clearance(c) => {
            assert_eq!(c.amount, num(200, 0));
            assert_eq!(c.types, vec![DsnClearanceType::DefaultSmd, DsnClearanceType::SmdSmd]);
        },
        _ => panic!("expected a clearance"),
    }
    assert!(matches!(
        parser("(clearance 1 (type wire_wire))").clearance(),
        Err(DsnError::UnrecognisedClearanceType)
    ));
}

#[test]
fn circuit_names_its_via() {
    assert_eq!(parser("(circuit (use_via v1))").circuit().unwrap(), DsnCircuit::UseVia("v1".to_owned()));
    assert_eq!(parser("(circuit)").circuit().unwrap(), DsnCircuit::UseVia(String::new()));
}

#[test]
fn class_nets_circuits_rules() {
    let v = parser("(class kicad_default GND VCC (circuit (use_via v)) (rule (width 1)) (rule (width 2)))")
        .class()
        .unwrap();
    assert_eq!(v.class_id, "kicad_default");
    assert_eq!(v.net_ids, vec!["GND".to_owned(), "VCC".to_owned()]);
    assert_eq!(v.circuits.len(), 1);
    assert_eq!(v.rules, vec![DsnRule::Width(num(1, 0)), DsnRule::Width(num(2, 0))]);
}

#[test]
fn network_nets_and_classes() {
    let v = parser("(network (net GND (pins R1-1 R2-2)) (class c GND))").network().unwrap();
    assert_eq!(v.nets.len(), 1);
    assert_eq!(v.nets[0].pins.len(), 2);
    assert_eq!(v.classes.len(), 1);
}

#[test]
fn structure_parts() {
    let v = parser(
        "(structure (layer F.Cu (type signal)) (layer In1 (type power)) (boundary (rect pcb 0 0 10 10)) \
         (keepout (circle F.Cu 1)) (plane) (via v1 v2) (rule (width 1)))",
    )
    .structure()
    .unwrap();
    assert_eq!(v.layers.len(), 2);
    assert_eq!(v.layers[1].layer_type, DsnLayerType::Power);
    assert_eq!(v.boundaries.len(), 1);
    assert_eq!(v.keepouts.len(), 1);
    assert_eq!(v.planes.len(), 1);
    assert_eq!(v.vias, vec!["v1".to_owned(), "v2".to_owned()]);
    assert_eq!(v.rules.len(), 1);
}

#[test]
fn whole_design() {
    let toks = lex(
        "(pcb board (parser (host_cad x)) (resolution mm 1000) (unit mm) \
         (structure (layer top (type signal))) (library (padstack v)) \
         (placement) (network (net a)) (wiring))",
    );
    let v = Parser::new(&toks).parse().unwrap();
    assert_eq!(v.pcb_id, "board");
    assert_eq!(v.resolution.dimension, DsnDimensionUnit::Mm);
    assert_eq!(v.resolution.amount, 1000);
    assert_eq!(v.unit.dimension, DsnDimensionUnit::Inch);
    assert_eq!(v.structure.layers.len(), 1);
    assert_eq!(v.library.padstacks.len(), 1);
    assert_eq!(v.network.nets.len(), 1);
    assert!(v.wiring.wires.is_empty());
}

#[test]
fn design_with_unknown_section_is_refused() {
    let toks = lex("(pcb board (foo))");
    assert!(matches!(Parser::new(&toks).parse(), Err(DsnError::UnrecognisedToken(_))));
    let toks = lex("(pcb board");
    assert!(matches!(Parser::new(&toks).parse(), Err(DsnError::UnexpectedEof)));
}

#[test]
fn attach_must_be_on_or_off() {
    assert!(matches!(parser("(padstack p (attach maybe))").padstack(), Err(DsnError::ExpectedOnOff)));
}
