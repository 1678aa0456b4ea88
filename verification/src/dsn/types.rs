use vstd::prelude::*;

use crate::dsn::number::DsnNumber;

verus! {

// Types defined in the DSN specification.

/// An identifier: `<id>`, `<component_id>`, `<pin_id>`, `<padstack_id>`,
/// `<via_id>`, `<image_id>`, `<net_id>`, `<pcb_id>`, `<class_id>`.
pub type DsnId = String;

/// `<layer_id> = <id> | pcb | signal | power`
pub type DsnLayerId = DsnId;

/// A unit of length: `(unit <dimension_unit>)` with `<dimension_unit> = [inch | mil | cm | mm | um]`.
#[derive(PartialEq, Eq, Structural, Debug, Copy, Clone)]
pub enum DsnDimensionUnit {
    Inch,
    Mil,
    Cm,
    Mm,
    Um,
}

impl DsnDimensionUnit {
    /// The name of the value as the file writes it.
    pub open spec fn spec_name(&self) -> Seq<char> {
        match self {
            DsnDimensionUnit::Inch => "inch"@,
            DsnDimensionUnit::Mil => "mil"@,
            DsnDimensionUnit::Cm => "cm"@,
            DsnDimensionUnit::Mm => "mm"@,
            DsnDimensionUnit::Um => "um"@,
        }
    }

    /// The name of the value as the file writes it.
    pub fn to_string(&self) -> (s: String)
        ensures
            s@ == self.spec_name(),
    {
        match self {
            DsnDimensionUnit::Inch => "inch".to_owned(),
            DsnDimensionUnit::Mil => "mil".to_owned(),
            DsnDimensionUnit::Cm => "cm".to_owned(),
            DsnDimensionUnit::Mm => "mm".to_owned(),
            DsnDimensionUnit::Um => "um".to_owned(),
        }
    }
}

impl Default for DsnDimensionUnit {
    fn default() -> (r: Self)
        ensures
            r == DsnDimensionUnit::Inch,
    {
        DsnDimensionUnit::Inch
    }
}

/// A kind of object: `<object_type> = [pin | smd | via | wire | area | testpoint]`.
#[derive(PartialEq, Eq, Structural, Debug, Copy, Clone)]
pub enum DsnObjectType {
    Pin,
    Smd,
    Via,
    Wire,
    Area,
    TestPoint,
}

impl DsnObjectType {
    /// The name of the value as the file writes it.
    pub open spec fn spec_name(&self) -> Seq<char> {
        match self {
            DsnObjectType::Pin => "pin"@,
            DsnObjectType::Smd => "smd"@,
            DsnObjectType::Via => "via"@,
            DsnObjectType::Wire => "wire"@,
            DsnObjectType::Area => "area"@,
            DsnObjectType::TestPoint => "testpoint"@,
        }
    }

    /// The name of the value as the file writes it.
    pub fn to_string(&self) -> (s: String)
        ensures
            s@ == self.spec_name(),
    {
        match self {
            DsnObjectType::Pin => "pin".to_owned(),
            DsnObjectType::Smd => "smd".to_owned(),
            DsnObjectType::Via => "via".to_owned(),
            DsnObjectType::Wire => "wire".to_owned(),
            DsnObjectType::Area => "area".to_owned(),
            DsnObjectType::TestPoint => "testpoint".to_owned(),
        }
    }
}

/// A side of the board.
#[derive(PartialEq, Eq, Structural, Debug, Copy, Clone)]
pub enum DsnSide {
    Front,
    Back,
    Both,
}

impl DsnSide {
    /// The name of the value as the file writes it.
    pub open spec fn spec_name(&self) -> Seq<char> {
        match self {
            DsnSide::Front => "front"@,
            DsnSide::Back => "back"@,
            DsnSide::Both => "both"@,
        }
    }

    /// The name of the value as the file writes it.
    pub fn to_string(&self) -> (s: String)
        ensures
            s@ == self.spec_name(),
    {
        match self {
            DsnSide::Front => "front".to_owned(),
            DsnSide::Back => "back".to_owned(),
            DsnSide::Both => "both".to_owned(),
        }
    }
}

impl Default for DsnSide {
    fn default() -> (r: Self)
        ensures
            r == DsnSide::Front,
    {
        DsnSide::Front
    }
}

/// A keepout forbids all routing, vias only, or wires only.
#[derive(PartialEq, Eq, Structural, Debug, Copy, Clone)]
pub enum DsnKeepoutType {
    Keepout,
    ViaKeepout,
    WireKeepout,
}

impl DsnKeepoutType {
    /// The name of the value as the file writes it.
    pub open spec fn spec_name(&self) -> Seq<char> {
        match self {
            DsnKeepoutType::Keepout => "keepout"@,
            DsnKeepoutType::ViaKeepout => "via_keepout"@,
            DsnKeepoutType::WireKeepout => "wire_keepout"@,
        }
    }

    /// The name of the value as the file writes it.
    pub fn to_string(&self) -> (s: String)
        ensures
            s@ == self.spec_name(),
    {
        match self {
            DsnKeepoutType::Keepout => "keepout".to_owned(),
            DsnKeepoutType::ViaKeepout => "via_keepout".to_owned(),
            DsnKeepoutType::WireKeepout => "wire_keepout".to_owned(),
        }
    }
}

impl Default for DsnKeepoutType {
    fn default() -> (r: Self)
        ensures
            r == DsnKeepoutType::Keepout,
    {
        DsnKeepoutType::Keepout
    }
}

/// What of a placed component is locked; `Unlocked` (written `none`) locks
/// nothing.
#[derive(PartialEq, Eq, Structural, Debug, Copy, Clone)]
pub enum DsnLockType {
    Unlocked,
    Position,
    Gate,
}

impl DsnLockType {
    /// The name of the value as the file writes it.
    pub open spec fn spec_name(&self) -> Seq<char> {
        match self {
            DsnLockType::Unlocked => "none"@,
            DsnLockType::Position => "position"@,
            DsnLockType::Gate => "gate"@,
        }
    }

    /// The name of the value as the file writes it.
    pub fn to_string(&self) -> (s: String)
        ensures
            s@ == self.spec_name(),
    {
        match self {
            DsnLockType::Unlocked => "none".to_owned(),
            DsnLockType::Position => "position".to_owned(),
            DsnLockType::Gate => "gate".to_owned(),
        }
    }
}

impl Default for DsnLockType {
    fn default() -> (r: Self)
        ensures
            r == DsnLockType::Unlocked,
    {
        DsnLockType::Unlocked
    }
}

/// A kind of layer: `<layer_type> = [signal | power | mixed | jumper]`.
#[derive(PartialEq, Eq, Structural, Debug, Copy, Clone)]
pub enum DsnLayerType {
    Signal,
    Power,
    Mixed,
    Jumper,
}

impl DsnLayerType {
    /// The name of the value as the file writes it.
    pub open spec fn spec_name(&self) -> Seq<char> {
        match self {
            DsnLayerType::Signal => "signal"@,
            DsnLayerType::Power => "power"@,
            DsnLayerType::Mixed => "mixed"@,
            DsnLayerType::Jumper => "jumper"@,
        }
    }

    /// The name of the value as the file writes it.
    pub fn to_string(&self) -> (s: String)
        ensures
            s@ == self.spec_name(),
    {
        match self {
            DsnLayerType::Signal => "signal".to_owned(),
            DsnLayerType::Power => "power".to_owned(),
            DsnLayerType::Mixed => "mixed".to_owned(),
            DsnLayerType::Jumper => "jumper".to_owned(),
        }
    }
}

impl Default for DsnLayerType {
    fn default() -> (r: Self)
        ensures
            r == DsnLayerType::Signal,
    {
        DsnLayerType::Signal
    }
}

/// A kind of wire: `[fix | route | normal | protect]`.
#[derive(PartialEq, Eq, Structural, Debug, Copy, Clone)]
pub enum DsnWireType {
    Fix,
    Route,
    Normal,
    Protect,
}

impl DsnWireType {
    /// The name of the value as the file writes it.
    pub open spec fn spec_name(&self) -> Seq<char> {
        match self {
            DsnWireType::Fix => "fix"@,
            DsnWireType::Route => "route"@,
            DsnWireType::Normal => "normal"@,
            DsnWireType::Protect => "protect"@,
        }
    }

    /// The name of the value as the file writes it.
    pub fn to_string(&self) -> (s: String)
        ensures
            s@ == self.spec_name(),
    {
        match self {
            DsnWireType::Fix => "fix".to_owned(),
            DsnWireType::Route => "route".to_owned(),
            DsnWireType::Normal => "normal".to_owned(),
            DsnWireType::Protect => "protect".to_owned(),
        }
    }
}

/// An attribute of a wire: `[test | fanout | bus | jumper]`.
#[derive(PartialEq, Eq, Structural, Debug, Copy, Clone)]
pub enum DsnWireAttr {
    Test,
    Fanout,
    Bus,
    Jumper,
}

impl DsnWireAttr {
    /// The name of the value as the file writes it.
    pub open spec fn spec_name(&self) -> Seq<char> {
        match self {
            DsnWireAttr::Test => "test"@,
            DsnWireAttr::Fanout => "fanout"@,
            DsnWireAttr::Bus => "bus"@,
            DsnWireAttr::Jumper => "jumper"@,
        }
    }

    /// The name of the value as the file writes it.
    pub fn to_string(&self) -> (s: String)
        ensures
            s@ == self.spec_name(),
    {
        match self {
            DsnWireAttr::Test => "test".to_owned(),
            DsnWireAttr::Fanout => "fanout".to_owned(),
            DsnWireAttr::Bus => "bus".to_owned(),
            DsnWireAttr::Jumper => "jumper".to_owned(),
        }
    }
}

/// `<pin_reference> = <component_id>-<pin_id>`
#[derive(Debug, Default, Clone, PartialEq)]
pub struct DsnPinRef {
    pub component_id: DsnId,
    pub pin_id: DsnId,
}

/// `(net <net_id> ... [(pins {<pin_reference>})] ...)`
#[derive(Debug, Default, Clone, PartialEq)]
pub struct DsnNet {
    pub net_id: DsnId,
    pub pins: Vec<DsnPinRef>,
}

/// A routing rule that belongs to a class.
#[derive(Debug, Clone, PartialEq)]
pub enum DsnCircuit {
    /// The padstack ID of the via to use.
    UseVia(DsnId),
}

/// `<clearance_type>`; `All` applies when none is given, and `DefaultSmd`
/// stands for any type unless a more specific one is given.
#[derive(PartialEq, Eq, Structural, Debug, Copy, Clone)]
pub enum DsnClearanceType {
    All,
    DefaultSmd,
    SmdSmd,
}

/// `(layer <layer_name> (type <layer_type>) ...)`
#[derive(Debug, Default, Clone, PartialEq)]
pub struct DsnLayer {
    pub layer_name: DsnId,
    pub layer_type: DsnLayerType,
}

/// `(resolution <dimension_unit> <positive_integer>)`: numbers are in units
/// of `dimension`, resolved to `1 / amount`.
#[derive(PartialEq, Eq, Structural, Debug, Copy, Clone)]
pub struct DsnResolution {
    pub amount: i32,
    pub dimension: DsnDimensionUnit,
}

impl Default for DsnResolution {
    /// 2540000 divisions of an inch.
    fn default() -> (r: Self)
        ensures
            r == (DsnResolution { amount: 2540000, dimension: DsnDimensionUnit::Inch }),
    {
        DsnResolution { amount: 2540000, dimension: DsnDimensionUnit::Inch }
    }
}

/// A pre-existing trace.
#[derive(PartialEq, Eq, Structural, Debug, Default, Copy, Clone)]
pub struct DsnWire {}

/// A pre-existing via.
#[derive(PartialEq, Eq, Structural, Debug, Default, Copy, Clone)]
pub struct DsnVia {}

/// `(wiring ...)`: the pre-existing traces and vias of the board.
#[derive(Debug, Default, Clone, PartialEq)]
pub struct DsnWiring {
    pub wires: Vec<DsnWire>,
    pub vias: Vec<DsnVia>,
}

/// A point of the board, in the units of the file.
#[derive(PartialEq, Eq, Structural, Debug, Default, Copy, Clone)]
pub struct DsnPt {
    pub x: DsnNumber,
    pub y: DsnNumber,
}

/// An axis-aligned rectangle by its left, bottom, right and top edges.
#[derive(PartialEq, Eq, Structural, Debug, Default, Copy, Clone)]
pub struct DsnRt {
    pub l: DsnNumber,
    pub b: DsnNumber,
    pub r: DsnNumber,
    pub t: DsnNumber,
}

/// `(rect <layer_id> <vertex> <vertex>)`
#[derive(Debug, Default, Clone, PartialEq)]
pub struct DsnRect {
    pub layer_id: DsnLayerId,
    pub rect: DsnRt,
}

/// `(circle <layer_id> <diameter> [<vertex>])`
#[derive(Debug, Default, Clone, PartialEq)]
pub struct DsnCircle {
    pub layer_id: DsnLayerId,
    pub diameter: DsnNumber,
    /// The board origin unless given.
    pub p: DsnPt,
}

/// `(polygon <layer_id> <aperture_width> {<vertex>} [(aperture_type [round | square])])`
#[derive(Debug, Default, Clone, PartialEq)]
pub struct DsnPolygon {
    pub layer_id: DsnLayerId,
    pub aperture_width: DsnNumber,
    pub pts: Vec<DsnPt>,
}

/// `(path <layer_id> <aperture_width> {<vertex>} [(aperture_type [round | square])])`
#[derive(Debug, Default, Clone, PartialEq)]
pub struct DsnPath {
    pub layer_id: DsnLayerId,
    pub aperture_width: DsnNumber,
    pub pts: Vec<DsnPt>,
}

/// `(qarc <layer_id> <aperture_width> <vertex> <vertex> <vertex>)`: start,
/// end and center.
#[derive(Debug, Default, Clone, PartialEq)]
pub struct DsnQArc {
    pub layer_id: DsnLayerId,
    pub aperture_width: DsnNumber,
    pub start: DsnPt,
    pub end: DsnPt,
    pub center: DsnPt,
}

/// `<shape_descriptor> = [<rectangle_descriptor> | <circle_descriptor> |
/// <polygon_descriptor> | <path_descriptor> | <qarc_descriptor>]`
#[derive(Debug, Clone, PartialEq)]
pub enum DsnShape {
    Rect(DsnRect),
    Circle(DsnCircle),
    Polygon(DsnPolygon),
    Path(DsnPath),
    QArc(DsnQArc),
}

/// `(window <shape_descriptor>)`: a hole in a shape.
#[derive(Debug, Clone, PartialEq)]
pub enum DsnWindow {
    Rect(DsnRect),
    Polygon(DsnPolygon),
}

/// `(shape <shape_descriptor> ... {<window_descriptor>})` in a padstack.
#[derive(Debug, Clone, PartialEq)]
pub struct DsnPadstackShape {
    pub shape: DsnShape,
    pub windows: Vec<DsnWindow>,
}

/// `(padstack <padstack_id> {<shape_descriptor>} [(attach [off | on])] ...)`
#[derive(Debug, Clone, PartialEq)]
pub struct DsnPadstack {
    pub padstack_id: DsnId,
    pub shapes: Vec<DsnPadstackShape>,
    /// Whether vias may sit under SMD pads; they may unless the file says
    /// otherwise.
    pub attach: bool,
}

/// `(pin <padstack_id> [(rotate <rotation>)] <pin_id> <vertex>)`
#[derive(Debug, Default, Clone, PartialEq)]
pub struct DsnPin {
    /// The padstack that gives the pin its shape.
    pub padstack_id: DsnId,
    /// In degrees; 0 unless given.
    pub rotation: DsnNumber,
    pub pin_id: DsnId,
    /// Relative to the component that the pin belongs to.
    pub p: DsnPt,
}

/// `(keepout | via_keepout | wire_keepout ... <shape_descriptor> ...)`
#[derive(Debug, Clone, PartialEq)]
pub struct DsnKeepout {
    pub keepout_type: DsnKeepoutType,
    pub shape: DsnShape,
}

/// `(image <image_id> {<outline_descriptor>} {<pin_descriptor>}
/// {<keepout_descriptor>} ...)`: a footprint.
#[derive(Debug, Default, Clone, PartialEq)]
pub struct DsnImage {
    pub image_id: DsnId,
    pub outlines: Vec<DsnShape>,
    pub pins: Vec<DsnPin>,
    pub keepouts: Vec<DsnKeepout>,
}

/// `(place <component_id> <vertex> <side> <rotation> [(lock_type ...)]
/// [(PN <part_number>)] ...)`: where one instance of a component stands.
#[derive(Debug, Default, Clone, PartialEq)]
pub struct DsnPlacementRef {
    pub component_id: DsnId,
    pub p: DsnPt,
    pub side: DsnSide,
    pub rotation: DsnNumber,
    pub lock_type: DsnLockType,
    pub part_number: DsnId,
}

/// `(component <image_id> {<placement_reference>})`: the instances of one
/// image.
#[derive(Debug, Default, Clone, PartialEq)]
pub struct DsnComponent {
    pub image_id: DsnId,
    pub refs: Vec<DsnPlacementRef>,
}

/// `(clearance <positive_dimension> [(type {<clearance_type>})])`
#[derive(Debug, Default, Clone, PartialEq)]
pub struct DsnClearance {
    pub amount: DsnNumber,
    pub types: Vec<DsnClearanceType>,
}

/// A `<rule_descriptor>`: the width of wires, or a clearance.
#[derive(Debug, Clone, PartialEq)]
pub enum DsnRule {
    Width(DsnNumber),
    Clearance(DsnClearance),
}

/// `(class <class_id> {<net_id>} [<circuit_descriptor>] [<rule_descriptor>] ...)`
#[derive(Debug, Default, Clone, PartialEq)]
pub struct DsnClass {
    pub class_id: DsnId,
    pub net_ids: Vec<DsnId>,
    pub circuits: Vec<DsnCircuit>,
    pub rules: Vec<DsnRule>,
}

/// `(network {<net_descriptor>} [{<class_descriptor>}] ...)`
#[derive(Debug, Default, Clone, PartialEq)]
pub struct DsnNetwork {
    pub nets: Vec<DsnNet>,
    pub classes: Vec<DsnClass>,
}

/// `(library [<unit_descriptor>] {<image_descriptor>} {<padstack_descriptor>} ...)`
#[derive(Debug, Default, Clone, PartialEq)]
pub struct DsnLibrary {
    pub images: Vec<DsnImage>,
    pub padstacks: Vec<DsnPadstack>,
}

/// `(plane <net_id> <shape_descriptor> [{<window_descriptor>}])`
#[derive(Debug, Clone, PartialEq)]
pub struct DsnPlane {
    pub net_id: DsnId,
    pub shape: DsnShape,
    pub windows: Vec<DsnWindow>,
}

/// `(structure ...)`: the layers, boundaries, keepouts, planes, rules and
/// vias of the board.
#[derive(Debug, Default, Clone, PartialEq)]
pub struct DsnStructure {
    pub boundaries: Vec<DsnShape>,
    pub keepouts: Vec<DsnKeepout>,
    pub layers: Vec<DsnLayer>,
    pub planes: Vec<DsnPlane>,
    pub rules: Vec<DsnRule>,
    /// The padstack IDs of the vias that may be used.
    pub vias: Vec<DsnId>,
}

/// `(placement ... {<component_instance>})`
#[derive(Debug, Default, Clone, PartialEq)]
pub struct DsnPlacement {
    pub components: Vec<DsnComponent>,
}

/// `(pcb <pcb_id> ...)`: a whole design.
#[derive(Debug, Clone, PartialEq)]
pub struct DsnPcb {
    pub pcb_id: DsnId,
    pub library: DsnLibrary,
    pub network: DsnNetwork,
    pub placement: DsnPlacement,
    pub resolution: DsnResolution,
    pub structure: DsnStructure,
    /// Overrides `resolution`; its amount is always 1.
    pub unit: DsnResolution,
    pub wiring: DsnWiring,
}

} // verus!
