use vstd::prelude::*;

use crate::dsn::number::DsnNumber;
use crate::dsn::parser::{pin_refs_model, LayerModel, PinRefModel};
use crate::dsn::types::{
    DsnCircle, DsnCircuit, DsnClass, DsnClearance, DsnClearanceType, DsnComponent, DsnImage,
    DsnKeepout, DsnKeepoutType, DsnLayer, DsnLibrary, DsnLockType, DsnNet, DsnNetwork, DsnPadstack,
    DsnPadstackShape, DsnPath, DsnPcb, DsnPin, DsnPlacement, DsnPlacementRef, DsnPlane, DsnPolygon,
    DsnPt, DsnQArc, DsnRect, DsnResolution, DsnRt, DsnRule, DsnShape, DsnSide, DsnStructure,
    DsnVia, DsnWindow, DsnWire, DsnWiring,
};

verus! {

// What a DSN design holds, as mathematical values: text as sequences of
// characters, lists as sequences.

/// A rectangle on a layer.
#[verifier::ext_equal]
pub struct RectModel {
    pub layer_id: Seq<char>,
    pub rect: DsnRt,
}

/// A circle on a layer.
#[verifier::ext_equal]
pub struct CircleModel {
    pub layer_id: Seq<char>,
    pub diameter: DsnNumber,
    pub p: DsnPt,
}

/// A polygon or a path on a layer.
#[verifier::ext_equal]
pub struct PolyModel {
    pub layer_id: Seq<char>,
    pub aperture_width: DsnNumber,
    pub pts: Seq<DsnPt>,
}

/// A quarter arc on a layer.
#[verifier::ext_equal]
pub struct QArcModel {
    pub layer_id: Seq<char>,
    pub aperture_width: DsnNumber,
    pub start: DsnPt,
    pub end: DsnPt,
    pub center: DsnPt,
}

/// A shape.
#[verifier::ext_equal]
pub enum ShapeModel {
    Rect(RectModel),
    Circle(CircleModel),
    Polygon(PolyModel),
    Path(PolyModel),
    QArc(QArcModel),
}

/// A window.
#[verifier::ext_equal]
pub enum WindowModel {
    Rect(RectModel),
    Polygon(PolyModel),
}

/// A shape of a padstack and its windows.
#[verifier::ext_equal]
pub struct PadstackShapeModel {
    pub shape: ShapeModel,
    pub windows: Seq<WindowModel>,
}

/// A padstack.
#[verifier::ext_equal]
pub struct PadstackModel {
    pub padstack_id: Seq<char>,
    pub shapes: Seq<PadstackShapeModel>,
    pub attach: bool,
}

/// A pin of an image.
#[verifier::ext_equal]
pub struct PinModel {
    pub padstack_id: Seq<char>,
    pub rotation: DsnNumber,
    pub pin_id: Seq<char>,
    pub p: DsnPt,
}

/// A keepout.
#[verifier::ext_equal]
pub struct KeepoutModel {
    pub keepout_type: DsnKeepoutType,
    pub shape: ShapeModel,
}

/// An image.
#[verifier::ext_equal]
pub struct ImageModel {
    pub image_id: Seq<char>,
    pub outlines: Seq<ShapeModel>,
    pub pins: Seq<PinModel>,
    pub keepouts: Seq<KeepoutModel>,
}

/// A placement of a component.
#[verifier::ext_equal]
pub struct PlacementRefModel {
    pub component_id: Seq<char>,
    pub p: DsnPt,
    pub side: DsnSide,
    pub rotation: DsnNumber,
    pub lock_type: DsnLockType,
    pub part_number: Seq<char>,
}

/// The placements of one image.
#[verifier::ext_equal]
pub struct ComponentModel {
    pub image_id: Seq<char>,
    pub refs: Seq<PlacementRefModel>,
}

/// A clearance rule.
#[verifier::ext_equal]
pub struct ClearanceModel {
    pub amount: DsnNumber,
    pub types: Seq<DsnClearanceType>,
}

/// A rule.
#[verifier::ext_equal]
pub enum RuleModel {
    Width(DsnNumber),
    Clearance(ClearanceModel),
}

/// A net: its ID and its pins.
pub type NetModel = (Seq<char>, Seq<PinRefModel>);

/// A class: its ID, its nets, the vias of its circuits and its rules.
#[verifier::ext_equal]
pub struct ClassModel {
    pub class_id: Seq<char>,
    pub net_ids: Seq<Seq<char>>,
    pub circuits: Seq<Seq<char>>,
    pub rules: Seq<RuleModel>,
}

/// The nets and classes of a design.
#[verifier::ext_equal]
pub struct NetworkModel {
    pub nets: Seq<NetModel>,
    pub classes: Seq<ClassModel>,
}

/// The images and padstacks of a design.
#[verifier::ext_equal]
pub struct LibraryModel {
    pub images: Seq<ImageModel>,
    pub padstacks: Seq<PadstackModel>,
}

/// A plane.
#[verifier::ext_equal]
pub struct PlaneModel {
    pub net_id: Seq<char>,
    pub shape: ShapeModel,
    pub windows: Seq<WindowModel>,
}

/// The structure of a design.
#[verifier::ext_equal]
pub struct StructureModel {
    pub boundaries: Seq<ShapeModel>,
    pub keepouts: Seq<KeepoutModel>,
    pub layers: Seq<LayerModel>,
    pub planes: Seq<PlaneModel>,
    pub rules: Seq<RuleModel>,
    pub vias: Seq<Seq<char>>,
}

/// The pre-existing wires and vias of a design.
#[verifier::ext_equal]
pub struct WiringModel {
    pub wires: Seq<DsnWire>,
    pub vias: Seq<DsnVia>,
}

/// A whole design.
#[verifier::ext_equal]
pub struct PcbModel {
    pub pcb_id: Seq<char>,
    pub library: LibraryModel,
    pub network: NetworkModel,
    pub placement: Seq<ComponentModel>,
    pub resolution: DsnResolution,
    pub structure: StructureModel,
    pub unit: DsnResolution,
    pub wiring: WiringModel,
}

impl View for DsnRect {
    type V = RectModel;

    open spec fn view(&self) -> RectModel {
        RectModel { layer_id: self.layer_id@, rect: self.rect }
    }
}

impl View for DsnCircle {
    type V = CircleModel;

    open spec fn view(&self) -> CircleModel {
        CircleModel { layer_id: self.layer_id@, diameter: self.diameter, p: self.p }
    }
}

impl View for DsnPolygon {
    type V = PolyModel;

    open spec fn view(&self) -> PolyModel {
        PolyModel { layer_id: self.layer_id@, aperture_width: self.aperture_width, pts: self.pts@ }
    }
}

impl View for DsnPath {
    type V = PolyModel;

    open spec fn view(&self) -> PolyModel {
        PolyModel { layer_id: self.layer_id@, aperture_width: self.aperture_width, pts: self.pts@ }
    }
}

impl View for DsnQArc {
    type V = QArcModel;

    open spec fn view(&self) -> QArcModel {
        QArcModel {
            layer_id: self.layer_id@,
            aperture_width: self.aperture_width,
            start: self.start,
            end: self.end,
            center: self.center,
        }
    }
}

impl View for DsnShape {
    type V = ShapeModel;

    open spec fn view(&self) -> ShapeModel {
        match self {
            DsnShape::Rect(v) => ShapeModel::Rect(v@),
            DsnShape::Circle(v) => ShapeModel::Circle(v@),
            DsnShape::Polygon(v) => ShapeModel::Polygon(v@),
            DsnShape::Path(v) => ShapeModel::Path(v@),
            DsnShape::QArc(v) => ShapeModel::QArc(v@),
        }
    }
}

impl View for DsnWindow {
    type V = WindowModel;

    open spec fn view(&self) -> WindowModel {
        match self {
            DsnWindow::Rect(v) => WindowModel::Rect(v@),
            DsnWindow::Polygon(v) => WindowModel::Polygon(v@),
        }
    }
}

/// The models of a sequence of shapes.
pub open spec fn shapes_model(s: Seq<DsnShape>) -> Seq<ShapeModel> {
    s.map_values(|v: DsnShape| v@)
}

/// The models of a sequence of windows.
pub open spec fn windows_model(s: Seq<DsnWindow>) -> Seq<WindowModel> {
    s.map_values(|v: DsnWindow| v@)
}

impl View for DsnPadstackShape {
    type V = PadstackShapeModel;

    open spec fn view(&self) -> PadstackShapeModel {
        PadstackShapeModel { shape: self.shape@, windows: windows_model(self.windows@) }
    }
}

impl View for DsnPadstack {
    type V = PadstackModel;

    open spec fn view(&self) -> PadstackModel {
        PadstackModel {
            padstack_id: self.padstack_id@,
            shapes: self.shapes@.map_values(|v: DsnPadstackShape| v@),
            attach: self.attach,
        }
    }
}

impl View for DsnPin {
    type V = PinModel;

    open spec fn view(&self) -> PinModel {
        PinModel {
            padstack_id: self.padstack_id@,
            rotation: self.rotation,
            pin_id: self.pin_id@,
            p: self.p,
        }
    }
}

impl View for DsnKeepout {
    type V = KeepoutModel;

    open spec fn view(&self) -> KeepoutModel {
        KeepoutModel { keepout_type: self.keepout_type, shape: self.shape@ }
    }
}

impl View for DsnImage {
    type V = ImageModel;

    open spec fn view(&self) -> ImageModel {
        ImageModel {
            image_id: self.image_id@,
            outlines: shapes_model(self.outlines@),
            pins: self.pins@.map_values(|v: DsnPin| v@),
            keepouts: self.keepouts@.map_values(|v: DsnKeepout| v@),
        }
    }
}

impl View for DsnPlacementRef {
    type V = PlacementRefModel;

    open spec fn view(&self) -> PlacementRefModel {
        PlacementRefModel {
            component_id: self.component_id@,
            p: self.p,
            side: self.side,
            rotation: self.rotation,
            lock_type: self.lock_type,
            part_number: self.part_number@,
        }
    }
}

impl View for DsnComponent {
    type V = ComponentModel;

    open spec fn view(&self) -> ComponentModel {
        ComponentModel {
            image_id: self.image_id@,
            refs: self.refs@.map_values(|v: DsnPlacementRef| v@),
        }
    }
}

impl View for DsnClearance {
    type V = ClearanceModel;

    open spec fn view(&self) -> ClearanceModel {
        ClearanceModel { amount: self.amount, types: self.types@ }
    }
}

impl View for DsnRule {
    type V = RuleModel;

    open spec fn view(&self) -> RuleModel {
        match self {
            DsnRule::Width(w) => RuleModel::Width(*w),
            DsnRule::Clearance(c) => RuleModel::Clearance(c@),
        }
    }
}

/// The models of a sequence of rules.
pub open spec fn rules_model(s: Seq<DsnRule>) -> Seq<RuleModel> {
    s.map_values(|v: DsnRule| v@)
}

/// The via of a circuit.
pub open spec fn circuit_model(c: DsnCircuit) -> Seq<char> {
    match c {
        DsnCircuit::UseVia(v) => v@,
    }
}

/// The ID and pins of a net.
pub open spec fn net_model(n: DsnNet) -> NetModel {
    (n.net_id@, pin_refs_model(n.pins@))
}

impl View for DsnClass {
    type V = ClassModel;

    open spec fn view(&self) -> ClassModel {
        ClassModel {
            class_id: self.class_id@,
            net_ids: self.net_ids@.map_values(|v: String| v@),
            circuits: self.circuits@.map_values(|c: DsnCircuit| circuit_model(c)),
            rules: rules_model(self.rules@),
        }
    }
}

impl View for DsnNetwork {
    type V = NetworkModel;

    open spec fn view(&self) -> NetworkModel {
        NetworkModel {
            nets: self.nets@.map_values(|n: DsnNet| net_model(n)),
            classes: self.classes@.map_values(|c: DsnClass| c@),
        }
    }
}

impl View for DsnLibrary {
    type V = LibraryModel;

    open spec fn view(&self) -> LibraryModel {
        LibraryModel {
            images: self.images@.map_values(|v: DsnImage| v@),
            padstacks: self.padstacks@.map_values(|v: DsnPadstack| v@),
        }
    }
}

impl View for DsnPlane {
    type V = PlaneModel;

    open spec fn view(&self) -> PlaneModel {
        PlaneModel { net_id: self.net_id@, shape: self.shape@, windows: windows_model(self.windows@) }
    }
}

/// The name and type of a layer.
pub open spec fn layer_model(l: DsnLayer) -> LayerModel {
    (l.layer_name@, l.layer_type)
}

impl View for DsnStructure {
    type V = StructureModel;

    open spec fn view(&self) -> StructureModel {
        StructureModel {
            boundaries: shapes_model(self.boundaries@),
            keepouts: self.keepouts@.map_values(|v: DsnKeepout| v@),
            layers: self.layers@.map_values(|l: DsnLayer| layer_model(l)),
            planes: self.planes@.map_values(|v: DsnPlane| v@),
            rules: rules_model(self.rules@),
            vias: self.vias@.map_values(|v: String| v@),
        }
    }
}

impl View for DsnPlacement {
    type V = Seq<ComponentModel>;

    open spec fn view(&self) -> Seq<ComponentModel> {
        self.components@.map_values(|v: DsnComponent| v@)
    }
}

impl View for DsnWiring {
    type V = WiringModel;

    open spec fn view(&self) -> WiringModel {
        WiringModel { wires: self.wires@, vias: self.vias@ }
    }
}

impl View for DsnPcb {
    type V = PcbModel;

    open spec fn view(&self) -> PcbModel {
        PcbModel {
            pcb_id: self.pcb_id@,
            library: self.library@,
            network: self.network@,
            placement: self.placement@,
            resolution: self.resolution,
            structure: self.structure@,
            unit: self.unit,
            wiring: self.wiring@,
        }
    }
}

} // verus!
