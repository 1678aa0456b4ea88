use vstd::prelude::*;

use std::collections::HashMap;

use crate::dsn::design::{
    check_unit, convert_layers, convert_net, dsn_layer_names, first_with_name, layer_set_by_name,
    net_names, no_repeat_before, repeats_at, spec_kind_named, spec_layer_kind,
};
use crate::dsn::error::DsnError;
use crate::dsn::models::{
    circuit_model, net_model, rules_model, ClassModel, ComponentModel, ImageModel, KeepoutModel,
    NetModel, PadstackModel, PadstackShapeModel, PinModel, PlacementRefModel, RuleModel, ShapeModel,
};
use crate::dsn::parser::pin_refs_model;
use crate::dsn::types::{
    DsnCircuit, DsnClass, DsnComponent, DsnImage, DsnKeepout, DsnLayer, DsnNet, DsnPadstack,
    DsnPadstackShape, DsnPcb, DsnPin, DsnPlacementRef, DsnRule, DsnShape, DsnSide,
};
use crate::model::pcb::{
    layer_ids_in_word, spec_layers_by_kind, Layer, LayerId, LayerSet, Net, Pcb, PinRef,
};
use crate::name::{
    lemma_lookup_extends, lemma_lookup_seq_extends, lookup_seq, names_extend, spec_lookup, Id, NameMap,
    NO_ID,
};

verus! {

// Turning a design into the structure of a board: every name is looked up,
// every layer name resolved and every reference between the parts checked,
// in the order in which a board is built from a design. The coordinates stay
// as the design gives them.

/// Why turning a design into a board fails, with names as sequences of
/// characters.
pub enum ConvertError {
    UnitOverride,
    DuplicateLayer(Seq<char>),
    UnknownLayer(Seq<char>),
    DuplicatePadstack(Seq<char>),
    MissingPadstack(Seq<char>),
    DuplicateImage(Seq<char>),
    UnknownPadstack(Seq<char>),
    MissingImage(Seq<char>),
    InvalidSide,
    MultipleWidthRules,
}

/// Whether `e` is the error that `m` describes.
pub open spec fn error_is(e: DsnError, m: ConvertError) -> bool {
    match m {
        ConvertError::UnitOverride => e is UnitOverride,
        ConvertError::DuplicateLayer(n) => e matches DsnError::DuplicateLayer(s) && s@ == n,
        ConvertError::UnknownLayer(n) => e matches DsnError::UnknownLayer(s) && s@ == n,
        ConvertError::DuplicatePadstack(n) => e matches DsnError::DuplicatePadstack(s) && s@ == n,
        ConvertError::MissingPadstack(n) => e matches DsnError::MissingPadstack(s) && s@ == n,
        ConvertError::DuplicateImage(n) => e matches DsnError::DuplicateImage(s) && s@ == n,
        ConvertError::UnknownPadstack(n) => e matches DsnError::UnknownPadstack(s) && s@ == n,
        ConvertError::MissingImage(n) => e matches DsnError::MissingImage(s) && s@ == n,
        ConvertError::InvalidSide => e is InvalidSide,
        ConvertError::MultipleWidthRules => e is MultipleWidthRules,
    }
}

/// The outcome of a step of the conversion: the names after it and its
/// value, or why it failed.
pub type Conv<A> = Result<(Seq<Seq<char>>, A), ConvertError>;

/// The layer that a shape names.
pub open spec fn shape_layer_name(s: ShapeModel) -> Seq<char> {
    match s {
        ShapeModel::Rect(v) => v.layer_id,
        ShapeModel::Circle(v) => v.layer_id,
        ShapeModel::Polygon(v) => v.layer_id,
        ShapeModel::Path(v) => v.layer_id,
        ShapeModel::QArc(v) => v.layer_id,
    }
}

/// The layers that a layer name stands for (see `layer_set_by_name`).
#[verifier::opaque]
pub open spec fn spec_layers_of(names: Seq<Seq<char>>, layers: Seq<Layer>, name: Seq<char>) -> Conv<
    Set<nat>,
> {
    match spec_kind_named(name) {
        Some(kind) => Ok((names, spec_layers_by_kind(layers, kind))),
        None => {
            let (fin, id) = spec_lookup(names, name);
            if exists|k: int| 0 <= k < layers.len() && layers[k].name_id == id {
                Ok((fin, Set::<nat>::empty().insert(layers[first_with_name(layers, id)].layer_id as nat)))
            } else {
                Err(ConvertError::UnknownLayer(name))
            }
        },
    }
}

/// The layers of each shape in turn.
pub open spec fn spec_shapes_layers(names: Seq<Seq<char>>, layers: Seq<Layer>, ss: Seq<ShapeModel>) -> Conv<
    Seq<Set<nat>>,
>
    decreases ss.len(),
{
    if ss.len() == 0 {
        Ok((names, Seq::empty()))
    } else {
        match spec_shapes_layers(names, layers, ss.drop_last()) {
            Err(e) => Err(e),
            Ok((n1, acc)) => match spec_layers_of(n1, layers, shape_layer_name(ss.last())) {
                Err(e) => Err(e),
                Ok((n2, l)) => Ok((n2, acc.push(l))),
            },
        }
    }
}

/// The sets of layers of a sequence of layer sets.
pub open spec fn sets_model(v: Seq<LayerSet>) -> Seq<Set<nat>> {
    v.map_values(|x: LayerSet| x@)
}

/// Something of a design that has a shape.
pub trait HasShape {
    /// The shape.
    spec fn shape_model(&self) -> ShapeModel;

    /// The shape.
    fn shape_ref(&self) -> (r: &DsnShape)
        ensures
            r@ == self.shape_model(),
    ;
}

impl HasShape for DsnShape {
    open spec fn shape_model(&self) -> ShapeModel {
        self@
    }

    fn shape_ref(&self) -> (r: &DsnShape) {
        self
    }
}

impl HasShape for DsnKeepout {
    open spec fn shape_model(&self) -> ShapeModel {
        self.shape@
    }

    fn shape_ref(&self) -> (r: &DsnShape) {
        &self.shape
    }
}

impl HasShape for DsnPadstackShape {
    open spec fn shape_model(&self) -> ShapeModel {
        self.shape@
    }

    fn shape_ref(&self) -> (r: &DsnShape) {
        &self.shape
    }
}

/// The shapes of a sequence of things with shapes.
pub open spec fn shapes_of<T: HasShape>(v: Seq<T>) -> Seq<ShapeModel> {
    v.map_values(|t: T| t.shape_model())
}

/// Finds the layers of each shape of `items` in turn.
#[verifier::rlimit(40)]
pub fn shapes_layers<T: HasShape>(names: &mut NameMap, layers: &[Layer], items: &[T]) -> (r: Result<
    Vec<LayerSet>,
    DsnError,
>)
    requires
        old(names).wf(),
        layer_ids_in_word(layers@),
    ensures
        final(names).wf(),
        match spec_shapes_layers(old(names)@, layers@, shapes_of(items@)) {
            Ok((n, sets)) => final(names)@ == n && (r matches Ok(v) && sets_model(v@) == sets),
            Err(m) => r matches Err(e) && error_is(e, m),
        },
{
    let ghost n0 = names@;
    let ghost ss = shapes_of(items@);
    let mut out: Vec<LayerSet> = Vec::new();
    let mut i: usize = 0;
    assert(sets_model(out@) =~= Seq::<Set<nat>>::empty());
    assert(ss.take(0).len() == 0);
    while i < items.len()
        invariant
            i <= items@.len(),
            ss == shapes_of(items@),
            n0 == old(names)@,
            names.wf(),
            layer_ids_in_word(layers@),
            spec_shapes_layers(n0, layers@, ss.take(i as int)) == Ok::<
                (Seq<Seq<char>>, Seq<Set<nat>>),
                ConvertError,
            >((names@, sets_model(out@))),
        decreases items@.len() - i,
    {
        let s = items[i].shape_ref();
        proof {
            assert(ss.take(i + 1).drop_last() =~= ss.take(i as int));
            assert(ss.take(i + 1).last() == s@);
        }
        let ghost before = names@;
        match layers_of(names, layers, layer_name(s)) {
            Ok(set) => {
                let ghost prev = out@;
                out.push(set);
                assert(sets_model(out@) =~= sets_model(prev).push(set@));
            },
            Err(e) => {
                proof {
                    assert(spec_shapes_layers(n0, layers@, ss.take(i + 1)) is Err);
                    lemma_shapes_layers_err(n0, layers@, ss, i as int + 1);
                }
                return Err(e);
            },
        }
        i = i + 1;
    }
    assert(ss.take(items@.len() as int) =~= ss);
    Ok(out)
}

/// Once the layers of a prefix of the shapes cannot be found, neither can
/// those of all of them, for the same reason.
proof fn lemma_shapes_layers_err(names: Seq<Seq<char>>, layers: Seq<Layer>, ss: Seq<ShapeModel>, n: int)
    requires
        0 <= n <= ss.len(),
        spec_shapes_layers(names, layers, ss.take(n)) is Err,
    ensures
        spec_shapes_layers(names, layers, ss) == spec_shapes_layers(names, layers, ss.take(n)),
    decreases ss.len() - n,
{
    if n < ss.len() {
        assert(ss.take(n + 1).drop_last() =~= ss.take(n));
        lemma_shapes_layers_err(names, layers, ss, n + 1);
    } else {
        assert(ss.take(n) =~= ss);
    }
}

/// The layers that a layer name stands for, looked up as
/// `layer_set_by_name` does.
pub fn layers_of(names: &mut NameMap, layers: &[Layer], name: &str) -> (r: Result<LayerSet, DsnError>)
    requires
        old(names).wf(),
        layer_ids_in_word(layers@),
    ensures
        final(names).wf(),
        match spec_layers_of(old(names)@, layers@, name@) {
            Ok((n, set)) => final(names)@ == n && (r matches Ok(v) && v@ == set),
            Err(m) => r matches Err(e) && error_is(e, m),
        },
{
    proof {
        reveal(spec_layers_of);
    }
    layer_set_by_name(names, layers, name)
}

/// The layer that a shape names.
pub fn layer_name(s: &DsnShape) -> (r: &str)
    ensures
        r@ == shape_layer_name(s@),
{
    match s {
        DsnShape::Rect(v) => v.layer_id.as_str(),
        DsnShape::Circle(v) => v.layer_id.as_str(),
        DsnShape::Polygon(v) => v.layer_id.as_str(),
        DsnShape::Path(v) => v.layer_id.as_str(),
        DsnShape::QArc(v) => v.layer_id.as_str(),
    }
}

/// A padstack of the board: its ID, the layers of each of its shapes in
/// the order of the design, and whether vias may sit under it.
pub struct PadstackLayers {
    pub id: Id,
    pub shape_layers: Vec<LayerSet>,
    pub attach: bool,
}

/// A padstack of the board, with its layers as sets.
pub struct PadstackLayersModel {
    pub id: Id,
    pub shape_layers: Seq<Set<nat>>,
    pub attach: bool,
}

impl View for PadstackLayers {
    type V = PadstackLayersModel;

    open spec fn view(&self) -> PadstackLayersModel {
        PadstackLayersModel { id: self.id, shape_layers: sets_model(self.shape_layers@), attach: self.attach }
    }
}

/// The models of a sequence of padstacks.
pub open spec fn padstacks_model(v: Seq<PadstackLayers>) -> Seq<PadstackLayersModel> {
    v.map_values(|p: PadstackLayers| p@)
}

/// A padstack: its ID is looked up, then the layers of its shapes.
#[verifier::opaque]
pub open spec fn spec_padstack(names: Seq<Seq<char>>, layers: Seq<Layer>, p: PadstackModel) -> Conv<
    PadstackLayersModel,
> {
    let (n1, id) = spec_lookup(names, p.padstack_id);
    match spec_shapes_layers(n1, layers, p.shapes.map_values(|s: PadstackShapeModel| s.shape)) {
        Err(e) => Err(e),
        Ok((n2, sl)) => Ok((n2, PadstackLayersModel { id, shape_layers: sl, attach: p.attach })),
    }
}

/// The padstacks of the library in turn: each is filed under the ID of its
/// name, looked up first; a second padstack under an ID is refused.
pub open spec fn spec_padstacks(names: Seq<Seq<char>>, layers: Seq<Layer>, ps: Seq<PadstackModel>) -> Conv<
    Seq<PadstackLayersModel>,
>
    decreases ps.len(),
{
    if ps.len() == 0 {
        Ok((names, Seq::empty()))
    } else {
        match spec_padstacks(names, layers, ps.drop_last()) {
            Err(e) => Err(e),
            Ok((n1, acc)) => {
                let (n2, key) = spec_lookup(n1, ps.last().padstack_id);
                match spec_padstack(n2, layers, ps.last()) {
                    Err(e) => Err(e),
                    Ok((n3, p)) => if exists|j: int| 0 <= j < acc.len() && acc[j].id == key {
                        Err(ConvertError::DuplicatePadstack(ps.last().padstack_id))
                    } else {
                        Ok((n3, acc.push(p)))
                    },
                }
            },
        }
    }
}

/// Once a prefix of the padstacks fails, all of them fail the same way.
proof fn lemma_padstacks_err(names: Seq<Seq<char>>, layers: Seq<Layer>, ps: Seq<PadstackModel>, n: int)
    requires
        0 <= n <= ps.len(),
        spec_padstacks(names, layers, ps.take(n)) is Err,
    ensures
        spec_padstacks(names, layers, ps) == spec_padstacks(names, layers, ps.take(n)),
    decreases ps.len() - n,
{
    if n < ps.len() {
        assert(ps.take(n + 1).drop_last() =~= ps.take(n));
        lemma_padstacks_err(names, layers, ps, n + 1);
    } else {
        assert(ps.take(n) =~= ps);
    }
}

/// The index of the first padstack with ID `id`.
pub open spec fn first_padstack_with_id(ps: Seq<PadstackLayersModel>, id: Id) -> int {
    choose|k: int|
        0 <= k < ps.len() && ps[k].id == id && (forall|j: int| 0 <= j < k ==> ps[j].id != id)
}

/// The index of the first padstack with ID `id`, if any.
pub fn padstack_with_id(ps: &[PadstackLayers], id: Id) -> (r: Option<usize>)
    ensures
        match r {
            Some(k) => k < ps@.len() && ps@[k as int].id == id && k == first_padstack_with_id(
                padstacks_model(ps@),
                id,
            ),
            None => forall|j: int| 0 <= j < ps@.len() ==> ps@[j].id != id,
        },
{
    let mut i: usize = 0;
    while i < ps.len()
        invariant
            i <= ps@.len(),
            forall|j: int| 0 <= j < i ==> ps@[j].id != id,
        decreases ps@.len() - i,
    {
        if ps[i].id == id {
            proof {
                let m = padstacks_model(ps@);
                assert(m[i as int].id == id);
                let f = first_padstack_with_id(m, id);
                if f < i {
                    assert(m[f].id == ps@[f].id);
                } else if f > i {
                    assert(m[i as int].id == id);
                }
            }
            return Some(i);
        }
        i = i + 1;
    }
    None
}

/// Finds the layers of a padstack.
#[verifier::rlimit(40)]
pub fn padstack(names: &mut NameMap, layers: &[Layer], v: &DsnPadstack) -> (r: Result<PadstackLayers, DsnError>)
    requires
        old(names).wf(),
        layer_ids_in_word(layers@),
    ensures
        final(names).wf(),
        match spec_padstack(old(names)@, layers@, v@) {
            Ok((n, p)) => final(names)@ == n && (r matches Ok(x) && x@ == p),
            Err(m) => r matches Err(e) && error_is(e, m),
        },
{
    proof {
        reveal(spec_padstack);
    }
    let id = names.name_to_id(v.padstack_id.as_str());
    proof {
        assert(v@.shapes.map_values(|s: PadstackShapeModel| s.shape) =~= shapes_of(v.shapes@));
    }
    let shape_layers = shapes_layers(names, layers, v.shapes.as_slice())?;
    Ok(PadstackLayers { id, shape_layers, attach: v.attach })
}

/// Finds the layers of the padstacks of the library, in order, refusing a
/// second padstack with the same ID.
#[verifier::rlimit(50)]
pub fn convert_padstacks(names: &mut NameMap, layers: &[Layer], ps: &[DsnPadstack]) -> (r: Result<
    Vec<PadstackLayers>,
    DsnError,
>)
    requires
        old(names).wf(),
        layer_ids_in_word(layers@),
    ensures
        final(names).wf(),
        match spec_padstacks(old(names)@, layers@, ps@.map_values(|p: DsnPadstack| p@)) {
            Ok((n, v)) => final(names)@ == n && (r matches Ok(x) && padstacks_model(x@) == v),
            Err(m) => r matches Err(e) && error_is(e, m),
        },
{
    let ghost n0 = names@;
    let ghost ms = ps@.map_values(|p: DsnPadstack| p@);
    let mut out: Vec<PadstackLayers> = Vec::new();
    let mut i: usize = 0;
    assert(padstacks_model(out@) =~= Seq::<PadstackLayersModel>::empty());
    assert(ms.take(0).len() == 0);
    while i < ps.len()
        invariant
            i <= ps@.len(),
            ms == ps@.map_values(|p: DsnPadstack| p@),
            n0 == old(names)@,
            names.wf(),
            layer_ids_in_word(layers@),
            spec_padstacks(n0, layers@, ms.take(i as int)) == Ok::<
                (Seq<Seq<char>>, Seq<PadstackLayersModel>),
                ConvertError,
            >((names@, padstacks_model(out@))),
        decreases ps@.len() - i,
    {
        let v = &ps[i];
        proof {
            assert(ms.take(i + 1).drop_last() =~= ms.take(i as int));
            assert(ms.take(i + 1).last() == v@);
        }
        let key = names.name_to_id(v.padstack_id.as_str());
        match padstack(names, layers, v) {
            Ok(p) => {
                match padstack_with_id(out.as_slice(), key) {
                    Some(j) => {
                        proof {
                            assert(padstacks_model(out@)[j as int].id == out@[j as int].id);
                            lemma_padstacks_err(n0, layers@, ms, i as int + 1);
                        }
                        return Err(DsnError::DuplicatePadstack(v.padstack_id.clone()));
                    },
                    None => {
                        proof {
                            assert(!exists|j: int|
                                0 <= j < padstacks_model(out@).len() && padstacks_model(out@)[j].id
                                    == key);
                        }
                        let ghost prev = out@;
                        out.push(p);
                        assert(padstacks_model(out@) =~= padstacks_model(prev).push(p@));
                    },
                }
            },
            Err(e) => {
                proof {
                    lemma_padstacks_err(n0, layers@, ms, i as int + 1);
                }
                return Err(e);
            },
        }
        i = i + 1;
    }
    assert(ms.take(ps@.len() as int) =~= ms);
    Ok(out)
}

/// A pin of an image: its ID, the index of the pin in the image of the
/// design, and the index of its padstack among the board's padstacks.
#[derive(PartialEq, Eq, Structural, Debug, Copy, Clone)]
pub struct ImagePin {
    pub id: Id,
    pub pin: usize,
    pub padstack: usize,
}

/// An image of the board: the ID of its footprint, the layers of its
/// outlines and keepouts in the order of the design, and its pins by ID.
pub struct ImageLayers {
    pub footprint_id: Id,
    pub outline_layers: Vec<LayerSet>,
    pub keepout_layers: Vec<LayerSet>,
    pub pins: HashMap<Id, ImagePin>,
}

/// An image of the board, with its layers as sets.
pub struct ImageLayersModel {
    pub footprint_id: Id,
    pub outline_layers: Seq<Set<nat>>,
    pub keepout_layers: Seq<Set<nat>>,
    pub pins: Map<Id, ImagePin>,
}

impl View for ImageLayers {
    type V = ImageLayersModel;

    open spec fn view(&self) -> ImageLayersModel {
        ImageLayersModel {
            footprint_id: self.footprint_id,
            outline_layers: sets_model(self.outline_layers@),
            keepout_layers: sets_model(self.keepout_layers@),
            pins: self.pins@,
        }
    }
}

/// The models of a sequence of images.
pub open spec fn images_model(v: Seq<ImageLayers>) -> Seq<ImageLayersModel> {
    v.map_values(|p: ImageLayers| p@)
}

/// Pin `index` of an image: its ID is looked up, then the ID of its
/// padstack, which must be on the board.
#[verifier::opaque]
pub open spec fn spec_pin(names: Seq<Seq<char>>, pads: Seq<PadstackLayersModel>, pin: PinModel, index: int) -> Conv<
    ImagePin,
> {
    let (n1, pid) = spec_lookup(names, pin.pin_id);
    let (n2, psid) = spec_lookup(n1, pin.padstack_id);
    if exists|k: int| 0 <= k < pads.len() && pads[k].id == psid {
        Ok(
            (
                n2,
                ImagePin {
                    id: pid,
                    pin: index as usize,
                    padstack: first_padstack_with_id(pads, psid) as usize,
                },
            ),
        )
    } else {
        Err(ConvertError::MissingPadstack(pin.padstack_id))
    }
}

/// The pins of an image in turn, by ID; a later pin replaces an earlier one
/// with its ID.
pub open spec fn spec_image_pins(names: Seq<Seq<char>>, pads: Seq<PadstackLayersModel>, pins: Seq<PinModel>) -> Conv<
    Map<Id, ImagePin>,
>
    decreases pins.len(),
{
    if pins.len() == 0 {
        Ok((names, Map::empty()))
    } else {
        match spec_image_pins(names, pads, pins.drop_last()) {
            Err(e) => Err(e),
            Ok((n1, m)) => match spec_pin(n1, pads, pins.last(), pins.len() - 1) {
                Err(e) => Err(e),
                Ok((n2, p)) => Ok((n2, m.insert(p.id, p))),
            },
        }
    }
}

/// Once a prefix of the pins fails, all of them fail the same way.
proof fn lemma_image_pins_err(names: Seq<Seq<char>>, pads: Seq<PadstackLayersModel>, pins: Seq<PinModel>, n: int)
    requires
        0 <= n <= pins.len(),
        spec_image_pins(names, pads, pins.take(n)) is Err,
    ensures
        spec_image_pins(names, pads, pins) == spec_image_pins(names, pads, pins.take(n)),
    decreases pins.len() - n,
{
    if n < pins.len() {
        assert(pins.take(n + 1).drop_last() =~= pins.take(n));
        lemma_image_pins_err(names, pads, pins, n + 1);
    } else {
        assert(pins.take(n) =~= pins);
    }
}

/// An image: the ID of its name is looked up, then the layers of its
/// outlines, then those of its keepouts, then its pins.
#[verifier::opaque]
pub open spec fn spec_image(
    names: Seq<Seq<char>>,
    layers: Seq<Layer>,
    pads: Seq<PadstackLayersModel>,
    im: ImageModel,
) -> Conv<ImageLayersModel> {
    let (n1, fid) = spec_lookup(names, im.image_id);
    match spec_shapes_layers(n1, layers, im.outlines) {
        Err(e) => Err(e),
        Ok((n2, ol)) => match spec_shapes_layers(
            n2,
            layers,
            im.keepouts.map_values(|k: KeepoutModel| k.shape),
        ) {
            Err(e) => Err(e),
            Ok((n3, kl)) => match spec_image_pins(n3, pads, im.pins) {
                Err(e) => Err(e),
                Ok((n4, pm)) => Ok(
                    (
                        n4,
                        ImageLayersModel {
                            footprint_id: fid,
                            outline_layers: ol,
                            keepout_layers: kl,
                            pins: pm,
                        },
                    ),
                ),
            },
        },
    }
}

/// The images of the library in turn: each is filed under the ID of its
/// name, looked up first; a second image under an ID is refused.
pub open spec fn spec_images(
    names: Seq<Seq<char>>,
    layers: Seq<Layer>,
    pads: Seq<PadstackLayersModel>,
    ims: Seq<ImageModel>,
) -> Conv<Seq<ImageLayersModel>>
    decreases ims.len(),
{
    if ims.len() == 0 {
        Ok((names, Seq::empty()))
    } else {
        match spec_images(names, layers, pads, ims.drop_last()) {
            Err(e) => Err(e),
            Ok((n1, acc)) => {
                let (n2, key) = spec_lookup(n1, ims.last().image_id);
                match spec_image(n2, layers, pads, ims.last()) {
                    Err(e) => Err(e),
                    Ok((n3, im)) => if exists|j: int| 0 <= j < acc.len() && acc[j].footprint_id == key {
                        Err(ConvertError::DuplicateImage(ims.last().image_id))
                    } else {
                        Ok((n3, acc.push(im)))
                    },
                }
            },
        }
    }
}

/// Once a prefix of the images fails, all of them fail the same way.
proof fn lemma_images_err(
    names: Seq<Seq<char>>,
    layers: Seq<Layer>,
    pads: Seq<PadstackLayersModel>,
    ims: Seq<ImageModel>,
    n: int,
)
    requires
        0 <= n <= ims.len(),
        spec_images(names, layers, pads, ims.take(n)) is Err,
    ensures
        spec_images(names, layers, pads, ims) == spec_images(names, layers, pads, ims.take(n)),
    decreases ims.len() - n,
{
    if n < ims.len() {
        assert(ims.take(n + 1).drop_last() =~= ims.take(n));
        lemma_images_err(names, layers, pads, ims, n + 1);
    } else {
        assert(ims.take(n) =~= ims);
    }
}

/// Pin `index` of an image.
#[verifier::rlimit(40)]
pub fn pin(names: &mut NameMap, pads: &[PadstackLayers], v: &DsnPin, index: usize) -> (r: Result<
    ImagePin,
    DsnError,
>)
    requires
        old(names).wf(),
    ensures
        final(names).wf(),
        match spec_pin(old(names)@, padstacks_model(pads@), v@, index as int) {
            Ok((n, p)) => final(names)@ == n && r == Ok::<ImagePin, DsnError>(p),
            Err(m) => r matches Err(e) && error_is(e, m),
        },
{
    proof {
        reveal(spec_pin);
    }
    let id = names.name_to_id(v.pin_id.as_str());
    let psid = names.name_to_id(v.padstack_id.as_str());
    match padstack_with_id(pads, psid) {
        Some(k) => {
            proof {
                assert(padstacks_model(pads@)[k as int].id == psid);
            }
            Ok(ImagePin { id, pin: index, padstack: k })
        },
        None => {
            proof {
                assert forall|k: int|
                    0 <= k < padstacks_model(pads@).len() implies padstacks_model(pads@)[k].id != psid by {
                    assert(padstacks_model(pads@)[k].id == pads@[k].id);
                }
            }
            Err(DsnError::MissingPadstack(v.padstack_id.clone()))
        },
    }
}

/// Finds the layers and pins of an image.
#[verifier::rlimit(40)]
pub fn image(names: &mut NameMap, layers: &[Layer], pads: &[PadstackLayers], v: &DsnImage) -> (r: Result<
    ImageLayers,
    DsnError,
>)
    requires
        old(names).wf(),
        layer_ids_in_word(layers@),
    ensures
        final(names).wf(),
        match spec_image(old(names)@, layers@, padstacks_model(pads@), v@) {
            Ok((n, im)) => final(names)@ == n && (r matches Ok(x) && x@ == im),
            Err(m) => r matches Err(e) && error_is(e, m),
        },
{
    broadcast use vstd::std_specs::hash::group_hash_axioms;

    proof {
        reveal(spec_image);
    }
    let footprint_id = names.name_to_id(v.image_id.as_str());
    proof {
        assert(v@.outlines =~= shapes_of(v.outlines@));
        assert(v@.keepouts.map_values(|k: KeepoutModel| k.shape) =~= shapes_of(v.keepouts@));
    }
    let outline_layers = shapes_layers(names, layers, v.outlines.as_slice())?;
    let keepout_layers = shapes_layers(names, layers, v.keepouts.as_slice())?;
    let ghost n0 = names@;
    let ghost ps = v@.pins;
    let ghost pads_m = padstacks_model(pads@);
    let mut pins: HashMap<Id, ImagePin> = HashMap::new();
    let mut i: usize = 0;
    assert(ps.take(0).len() == 0);
    assert(pins@ =~= Map::<Id, ImagePin>::empty());
    let ghost whole = match spec_image_pins(n0, pads_m, ps) {
        Err(e) => Err(e),
        Ok((n4, pm)) => Ok(
            (
                n4,
                ImageLayersModel {
                    footprint_id,
                    outline_layers: sets_model(outline_layers@),
                    keepout_layers: sets_model(keepout_layers@),
                    pins: pm,
                },
            ),
        ),
    };
    assert(spec_image(old(names)@, layers@, pads_m, v@) == whole);
    while i < v.pins.len()
        invariant
            i <= v.pins@.len(),
            spec_image(old(names)@, layers@, pads_m, v@) == whole,
            whole == match spec_image_pins(n0, pads_m, ps) {
                Err(e) => Err(e),
                Ok((n4, pm)) => Ok(
                    (
                        n4,
                        ImageLayersModel {
                            footprint_id,
                            outline_layers: sets_model(outline_layers@),
                            keepout_layers: sets_model(keepout_layers@),
                            pins: pm,
                        },
                    ),
                ),
            },
            ps == v@.pins,
            ps.len() == v.pins@.len(),
            pads_m == padstacks_model(pads@),
            names.wf(),
            spec_image_pins(n0, pads_m, ps.take(i as int)) == Ok::<
                (Seq<Seq<char>>, Map<Id, ImagePin>),
                ConvertError,
            >((names@, pins@)),
        decreases v.pins@.len() - i,
    {
        proof {
            assert(ps.take(i + 1).drop_last() =~= ps.take(i as int));
            assert(ps.take(i + 1).last() == v.pins@[i as int]@);
            assert(ps.take(i + 1).len() - 1 == i);
        }
        match pin(names, pads, &v.pins[i], i) {
            Ok(p) => {
                pins.insert(p.id, p);
            },
            Err(e) => {
                proof {
                    lemma_image_pins_err(n0, pads_m, ps, i as int + 1);
                }
                return Err(e);
            },
        }
        i = i + 1;
    }
    assert(ps.take(ps.len() as int) =~= ps);
    Ok(ImageLayers { footprint_id, outline_layers, keepout_layers, pins })
}

/// Finds the layers and pins of the images of the library, in order,
/// refusing a second image with the same ID.
#[verifier::rlimit(40)]
pub fn convert_images(names: &mut NameMap, layers: &[Layer], pads: &[PadstackLayers], ims: &[DsnImage]) -> (r:
    Result<Vec<ImageLayers>, DsnError>)
    requires
        old(names).wf(),
        layer_ids_in_word(layers@),
    ensures
        final(names).wf(),
        match spec_images(old(names)@, layers@, padstacks_model(pads@), ims@.map_values(|p: DsnImage| p@)) {
            Ok((n, v)) => final(names)@ == n && (r matches Ok(x) && images_model(x@) == v),
            Err(m) => r matches Err(e) && error_is(e, m),
        },
{
    let ghost n0 = names@;
    let ghost ms = ims@.map_values(|p: DsnImage| p@);
    let ghost pads_m = padstacks_model(pads@);
    let mut out: Vec<ImageLayers> = Vec::new();
    let mut i: usize = 0;
    assert(images_model(out@) =~= Seq::<ImageLayersModel>::empty());
    assert(ms.take(0).len() == 0);
    while i < ims.len()
        invariant
            i <= ims@.len(),
            ms == ims@.map_values(|p: DsnImage| p@),
            pads_m == padstacks_model(pads@),
            n0 == old(names)@,
            names.wf(),
            layer_ids_in_word(layers@),
            spec_images(n0, layers@, pads_m, ms.take(i as int)) == Ok::<
                (Seq<Seq<char>>, Seq<ImageLayersModel>),
                ConvertError,
            >((names@, images_model(out@))),
        decreases ims@.len() - i,
    {
        let v = &ims[i];
        proof {
            assert(ms.take(i + 1).drop_last() =~= ms.take(i as int));
            assert(ms.take(i + 1).last() == v@);
        }
        let key = names.name_to_id(v.image_id.as_str());
        match image(names, layers, pads, v) {
            Ok(im) => {
                let mut dup = false;
                let mut j: usize = 0;
                while j < out.len()
                    invariant
                        j <= out@.len(),
                        dup ==> exists|k: int| 0 <= k < out@.len() && out@[k].footprint_id == key,
                        !dup ==> forall|k: int| 0 <= k < j ==> out@[k].footprint_id != key,
                    decreases out@.len() - j,
                {
                    if out[j].footprint_id == key {
                        dup = true;
                    }
                    j = j + 1;
                }
                if dup {
                    proof {
                        let k = choose|k: int| 0 <= k < out@.len() && out@[k].footprint_id == key;
                        assert(images_model(out@)[k].footprint_id == key);
                        lemma_images_err(n0, layers@, pads_m, ms, i as int + 1);
                    }
                    return Err(DsnError::DuplicateImage(v.image_id.clone()));
                }
                proof {
                    assert forall|k: int|
                        0 <= k < images_model(out@).len() implies images_model(out@)[k].footprint_id
                        != key by {
                        assert(images_model(out@)[k].footprint_id == out@[k].footprint_id);
                    }
                }
                let ghost prev = out@;
                out.push(im);
                assert(images_model(out@) =~= images_model(prev).push(im@));
            },
            Err(e) => {
                proof {
                    lemma_images_err(n0, layers@, pads_m, ms, i as int + 1);
                }
                return Err(e);
            },
        }
        i = i + 1;
    }
    assert(ms.take(ims@.len() as int) =~= ms);
    Ok(out)
}

/// The padstacks named as the vias of the structure, in turn: each name is
/// looked up and must be a padstack's.
pub open spec fn spec_vias(names: Seq<Seq<char>>, pads: Seq<PadstackLayersModel>, vias: Seq<Seq<char>>) -> Conv<
    Seq<usize>,
>
    decreases vias.len(),
{
    if vias.len() == 0 {
        Ok((names, Seq::empty()))
    } else {
        match spec_vias(names, pads, vias.drop_last()) {
            Err(e) => Err(e),
            Ok((n1, acc)) => {
                let (n2, id) = spec_lookup(n1, vias.last());
                if exists|k: int| 0 <= k < pads.len() && pads[k].id == id {
                    Ok((n2, acc.push(first_padstack_with_id(pads, id) as usize)))
                } else {
                    Err(ConvertError::UnknownPadstack(vias.last()))
                }
            },
        }
    }
}

/// Once a prefix of the vias fails, all of them fail the same way.
proof fn lemma_vias_err(names: Seq<Seq<char>>, pads: Seq<PadstackLayersModel>, vias: Seq<Seq<char>>, n: int)
    requires
        0 <= n <= vias.len(),
        spec_vias(names, pads, vias.take(n)) is Err,
    ensures
        spec_vias(names, pads, vias) == spec_vias(names, pads, vias.take(n)),
    decreases vias.len() - n,
{
    if n < vias.len() {
        assert(vias.take(n + 1).drop_last() =~= vias.take(n));
        lemma_vias_err(names, pads, vias, n + 1);
    } else {
        assert(vias.take(n) =~= vias);
    }
}

/// Finds the padstacks named as the vias of the structure.
#[verifier::rlimit(40)]
pub fn convert_vias(names: &mut NameMap, pads: &[PadstackLayers], vias: &[String]) -> (r: Result<
    Vec<usize>,
    DsnError,
>)
    requires
        old(names).wf(),
    ensures
        final(names).wf(),
        match spec_vias(old(names)@, padstacks_model(pads@), vias@.map_values(|s: String| s@)) {
            Ok((n, v)) => final(names)@ == n && (r matches Ok(x) && x@ == v),
            Err(m) => r matches Err(e) && error_is(e, m),
        },
{
    let ghost n0 = names@;
    let ghost ms = vias@.map_values(|s: String| s@);
    let ghost pads_m = padstacks_model(pads@);
    let mut out: Vec<usize> = Vec::new();
    let mut i: usize = 0;
    assert(ms.take(0).len() == 0);
    assert(out@ =~= Seq::<usize>::empty());
    while i < vias.len()
        invariant
            i <= vias@.len(),
            ms == vias@.map_values(|s: String| s@),
            pads_m == padstacks_model(pads@),
            n0 == old(names)@,
            names.wf(),
            spec_vias(n0, pads_m, ms.take(i as int)) == Ok::<(Seq<Seq<char>>, Seq<usize>), ConvertError>(
                (names@, out@),
            ),
        decreases vias@.len() - i,
    {
        proof {
            assert(ms.take(i + 1).drop_last() =~= ms.take(i as int));
            assert(ms.take(i + 1).last() == vias@[i as int]@);
        }
        let id = names.name_to_id(vias[i].as_str());
        match padstack_with_id(pads, id) {
            Some(k) => {
                proof {
                    assert(pads_m[k as int].id == id);
                }
                out.push(k);
            },
            None => {
                proof {
                    assert forall|k: int| 0 <= k < pads_m.len() implies pads_m[k].id != id by {
                        assert(pads_m[k].id == pads@[k].id);
                    }
                    lemma_vias_err(n0, pads_m, ms, i as int + 1);
                }
                return Err(DsnError::UnknownPadstack(vias[i].clone()));
            },
        }
        i = i + 1;
    }
    assert(ms.take(vias@.len() as int) =~= ms);
    Ok(out)
}

/// A component placed on the board: its ID, the index of its image, the
/// indices of its component and placement in the design, and whether it is
/// on the back.
#[derive(PartialEq, Eq, Structural, Debug, Copy, Clone)]
pub struct PlacedComponent {
    pub id: Id,
    pub image: usize,
    pub component: usize,
    pub place: usize,
    pub back: bool,
}

/// The index of the first image with footprint ID `id`.
pub open spec fn first_image_with_id(ims: Seq<ImageLayersModel>, id: Id) -> int {
    choose|k: int|
        0 <= k < ims.len() && ims[k].footprint_id == id && (forall|j: int|
            0 <= j < k ==> ims[j].footprint_id != id)
}

/// Placement `place` of component `component`, an instance of the image
/// named `image_id`: the image's name is looked up and must be an image's,
/// then the component's ID; the side must be the front or the back.
/// The index of the image named `image_id`: the name is looked up and must
/// be an image's.
#[verifier::opaque]
pub open spec fn spec_image_index(names: Seq<Seq<char>>, ims: Seq<ImageLayersModel>, image_id: Seq<char>) -> Conv<
    usize,
> {
    let (n1, iid) = spec_lookup(names, image_id);
    if exists|k: int| 0 <= k < ims.len() && ims[k].footprint_id == iid {
        Ok((n1, first_image_with_id(ims, iid) as usize))
    } else {
        Err(ConvertError::MissingImage(image_id))
    }
}

#[verifier::opaque]
pub open spec fn spec_place(
    names: Seq<Seq<char>>,
    ims: Seq<ImageLayersModel>,
    image_id: Seq<char>,
    component: usize,
    place: usize,
    r: PlacementRefModel,
) -> Conv<PlacedComponent> {
    match spec_image_index(names, ims, image_id) {
        Err(e) => Err(e),
        Ok((n1, image)) => {
            let (n2, cid) = spec_lookup(n1, r.component_id);
            if r.side == DsnSide::Both {
                Err(ConvertError::InvalidSide)
            } else {
                Ok(
                    (
                        n2,
                        PlacedComponent {
                            id: cid,
                            image,
                            component,
                            place,
                            back: r.side == DsnSide::Back,
                        },
                    ),
                )
            }
        },
    }
}

/// The placements of a component in turn, filed by ID after `acc`; a later
/// one replaces an earlier one with its ID.
pub open spec fn spec_places(
    names: Seq<Seq<char>>,
    ims: Seq<ImageLayersModel>,
    image_id: Seq<char>,
    component: int,
    refs: Seq<PlacementRefModel>,
    acc: Map<Id, PlacedComponent>,
) -> Conv<Map<Id, PlacedComponent>>
    decreases refs.len(),
{
    if refs.len() == 0 {
        Ok((names, acc))
    } else {
        match spec_places(names, ims, image_id, component, refs.drop_last(), acc) {
            Err(e) => Err(e),
            Ok((n1, m)) => match spec_place(
                n1,
                ims,
                image_id,
                component as usize,
                (refs.len() - 1) as usize,
                refs.last(),
            ) {
                Err(e) => Err(e),
                Ok((n2, c)) => Ok((n2, m.insert(c.id, c))),
            },
        }
    }
}

/// The placements of every component in turn, filed by ID.
pub open spec fn spec_components(names: Seq<Seq<char>>, ims: Seq<ImageLayersModel>, comps: Seq<ComponentModel>) -> Conv<
    Map<Id, PlacedComponent>,
>
    decreases comps.len(),
{
    if comps.len() == 0 {
        Ok((names, Map::empty()))
    } else {
        match spec_components(names, ims, comps.drop_last()) {
            Err(e) => Err(e),
            Ok((n1, m)) => spec_places(
                n1,
                ims,
                comps.last().image_id,
                comps.len() - 1,
                comps.last().refs,
                m,
            ),
        }
    }
}

/// Once a prefix of the placements fails, all of them fail the same way.
proof fn lemma_places_err(
    names: Seq<Seq<char>>,
    ims: Seq<ImageLayersModel>,
    image_id: Seq<char>,
    component: int,
    refs: Seq<PlacementRefModel>,
    acc: Map<Id, PlacedComponent>,
    n: int,
)
    requires
        0 <= n <= refs.len(),
        spec_places(names, ims, image_id, component, refs.take(n), acc) is Err,
    ensures
        spec_places(names, ims, image_id, component, refs, acc) == spec_places(
            names,
            ims,
            image_id,
            component,
            refs.take(n),
            acc,
        ),
    decreases refs.len() - n,
{
    if n < refs.len() {
        assert(refs.take(n + 1).drop_last() =~= refs.take(n));
        lemma_places_err(names, ims, image_id, component, refs, acc, n + 1);
    } else {
        assert(refs.take(n) =~= refs);
    }
}

/// Once a prefix of the components fails, all of them fail the same way.
proof fn lemma_components_err(names: Seq<Seq<char>>, ims: Seq<ImageLayersModel>, comps: Seq<ComponentModel>, n: int)
    requires
        0 <= n <= comps.len(),
        spec_components(names, ims, comps.take(n)) is Err,
    ensures
        spec_components(names, ims, comps) == spec_components(names, ims, comps.take(n)),
    decreases comps.len() - n,
{
    if n < comps.len() {
        assert(comps.take(n + 1).drop_last() =~= comps.take(n));
        lemma_components_err(names, ims, comps, n + 1);
    } else {
        assert(comps.take(n) =~= comps);
    }
}

/// The index of the first image with footprint ID `id`, if any.
fn image_with_id(ims: &[ImageLayers], id: Id) -> (r: Option<usize>)
    ensures
        match r {
            Some(k) => k < ims@.len() && ims@[k as int].footprint_id == id && k == first_image_with_id(
                images_model(ims@),
                id,
            ),
            None => forall|j: int| 0 <= j < ims@.len() ==> ims@[j].footprint_id != id,
        },
{
    let mut i: usize = 0;
    while i < ims.len()
        invariant
            i <= ims@.len(),
            forall|j: int| 0 <= j < i ==> ims@[j].footprint_id != id,
        decreases ims@.len() - i,
    {
        if ims[i].footprint_id == id {
            proof {
                let m = images_model(ims@);
                assert(m[i as int].footprint_id == id);
                let f = first_image_with_id(m, id);
                if f < i {
                    assert(m[f].footprint_id == ims@[f].footprint_id);
                } else if f > i {
                    assert(m[i as int].footprint_id == id);
                }
            }
            return Some(i);
        }
        i = i + 1;
    }
    None
}

/// The index of the image named `image_id`.
#[verifier::rlimit(40)]
fn image_index(names: &mut NameMap, ims: &[ImageLayers], image_id: &str) -> (r: Result<usize, DsnError>)
    requires
        old(names).wf(),
    ensures
        final(names).wf(),
        match spec_image_index(old(names)@, images_model(ims@), image_id@) {
            Ok((n, k)) => final(names)@ == n && r == Ok::<usize, DsnError>(k),
            Err(m) => r matches Err(e) && error_is(e, m),
        },
{
    proof {
        reveal(spec_image_index);
    }
    let ghost ims_m = images_model(ims@);
    let iid = names.name_to_id(image_id);
    match image_with_id(ims, iid) {
        Some(k) => {
            proof {
                assert(ims_m[k as int].footprint_id == iid);
            }
            Ok(k)
        },
        None => {
            proof {
                assert forall|x: int| 0 <= x < ims_m.len() implies ims_m[x].footprint_id != iid by {
                    assert(ims_m[x].footprint_id == ims@[x].footprint_id);
                }
            }
            Err(DsnError::MissingImage(image_id.to_owned()))
        },
    }
}

/// Placement `place` of component `component`, an instance of the image
/// named `image_id`.
#[verifier::rlimit(40)]
fn place_component(
    names: &mut NameMap,
    ims: &[ImageLayers],
    image_id: &str,
    component: usize,
    place: usize,
    pl: &DsnPlacementRef,
) -> (r: Result<PlacedComponent, DsnError>)
    requires
        old(names).wf(),
    ensures
        final(names).wf(),
        match spec_place(old(names)@, images_model(ims@), image_id@, component, place, pl@) {
            Ok((n, c)) => final(names)@ == n && r == Ok::<PlacedComponent, DsnError>(c),
            Err(m) => r matches Err(e) && error_is(e, m),
        },
{
    proof {
        reveal(spec_place);
    }
    let k = image_index(names, ims, image_id)?;
    let cid = names.name_to_id(pl.component_id.as_str());
    let back = match pl.side {
        DsnSide::Front => false,
        DsnSide::Back => true,
        DsnSide::Both => {
            return Err(DsnError::InvalidSide);
        },
    };
    Ok(PlacedComponent { id: cid, image: k, component, place, back })
}

/// Places the components of the design, filed by ID.
#[verifier::rlimit(40)]
pub fn convert_components(names: &mut NameMap, ims: &[ImageLayers], comps: &[DsnComponent]) -> (r: Result<
    HashMap<Id, PlacedComponent>,
    DsnError,
>)
    requires
        old(names).wf(),
    ensures
        final(names).wf(),
        match spec_components(old(names)@, images_model(ims@), comps@.map_values(|c: DsnComponent| c@)) {
            Ok((n, m)) => final(names)@ == n && (r matches Ok(x) && x@ == m),
            Err(m) => r matches Err(e) && error_is(e, m),
        },
{
    broadcast use vstd::std_specs::hash::group_hash_axioms;

    let ghost n0 = names@;
    let ghost ms = comps@.map_values(|c: DsnComponent| c@);
    let ghost ims_m = images_model(ims@);
    let mut out: HashMap<Id, PlacedComponent> = HashMap::new();
    let mut i: usize = 0;
    assert(ms.take(0).len() == 0);
    assert(out@ =~= Map::<Id, PlacedComponent>::empty());
    while i < comps.len()
        invariant
            i <= comps@.len(),
            ms == comps@.map_values(|c: DsnComponent| c@),
            ims_m == images_model(ims@),
            n0 == old(names)@,
            names.wf(),
            spec_components(n0, ims_m, ms.take(i as int)) == Ok::<
                (Seq<Seq<char>>, Map<Id, PlacedComponent>),
                ConvertError,
            >((names@, out@)),
        decreases comps@.len() - i,
    {
        let c = &comps[i];
        let ghost cm = c@;
        let ghost nc = names@;
        let ghost mc = out@;
        proof {
            assert(ms.take(i + 1).drop_last() =~= ms.take(i as int));
            assert(ms.take(i + 1).last() == cm);
            assert(ms.take(i + 1).len() - 1 == i);
            assert(spec_components(n0, ims_m, ms.take(i + 1)) == spec_places(
                nc,
                ims_m,
                cm.image_id,
                i as int,
                cm.refs,
                mc,
            ));
            assert(cm.refs.take(0).len() == 0);
        }
        let mut j: usize = 0;
        while j < c.refs.len()
            invariant
                j <= c.refs@.len(),
                i < comps@.len(),
                ms == comps@.map_values(|c: DsnComponent| c@),
                n0 == old(names)@,
                c == &comps@[i as int],
                cm == c@,
                cm.refs.len() == c.refs@.len(),
                ims_m == images_model(ims@),
                names.wf(),
                spec_components(n0, ims_m, ms.take(i + 1)) == spec_places(
                    nc,
                    ims_m,
                    cm.image_id,
                    i as int,
                    cm.refs,
                    mc,
                ),
                spec_places(nc, ims_m, cm.image_id, i as int, cm.refs.take(j as int), mc) == Ok::<
                    (Seq<Seq<char>>, Map<Id, PlacedComponent>),
                    ConvertError,
                >((names@, out@)),
            decreases c.refs@.len() - j,
        {
            let pl = &c.refs[j];
            proof {
                assert(cm.refs.take(j + 1).drop_last() =~= cm.refs.take(j as int));
                assert(cm.refs.take(j + 1).last() == pl@);
                assert(cm.refs.take(j + 1).len() - 1 == j);
            }
            match place_component(names, ims, c.image_id.as_str(), i, j, pl) {
                Ok(placed) => {
                    out.insert(placed.id, placed);
                },
                Err(e) => {
                    proof {
                        lemma_places_err(nc, ims_m, cm.image_id, i as int, cm.refs, mc, j as int + 1);
                        lemma_components_err(n0, ims_m, ms, i as int + 1);
                    }
                    return Err(e);
                },
            }
            j = j + 1;
        }
        proof {
            assert(cm.refs.take(cm.refs.len() as int) =~= cm.refs);
        }
        i = i + 1;
    }
    assert(ms.take(comps@.len() as int) =~= ms);
    Ok(out)
}

/// A net as IDs: its own and those of its pins.
pub type NetIds = (Id, Seq<PinRef>);

/// The IDs of a net, given the IDs that looking up its names gave.
pub open spec fn net_ids(v: NetModel, ids: Seq<Id>) -> NetIds {
    (ids[0], Seq::new(v.1.len(), |k: int| PinRef { component: ids[1 + 2 * k], pin: ids[2 + 2 * k] }))
}

/// The nets of the design in turn, as IDs.
pub open spec fn spec_nets(names: Seq<Seq<char>>, nets: Seq<NetModel>) -> (Seq<Seq<char>>, Seq<NetIds>)
    decreases nets.len(),
{
    if nets.len() == 0 {
        (names, Seq::empty())
    } else {
        let (n1, acc) = spec_nets(names, nets.drop_last());
        let (n2, ids) = lookup_seq(n1, net_names(nets.last().0, nets.last().1));
        (n2, acc.push(net_ids(nets.last(), ids)))
    }
}

/// The nets by ID once `nets` are added in turn; a later net replaces an
/// earlier one with its ID.
pub open spec fn nets_map(nets: Seq<NetIds>) -> Map<Id, Seq<PinRef>>
    decreases nets.len(),
{
    if nets.len() == 0 {
        Map::empty()
    } else {
        nets_map(nets.drop_last()).insert(nets.last().0, nets.last().1)
    }
}

/// The net that pin `p` is filed under once `nets` are added in turn: the
/// last of them that has the pin.
pub open spec fn pin_net_after(nets: Seq<NetIds>, p: PinRef) -> Option<Id>
    decreases nets.len(),
{
    if nets.len() == 0 {
        None
    } else if nets.last().1.contains(p) {
        Some(nets.last().0)
    } else {
        pin_net_after(nets.drop_last(), p)
    }
}

/// Whether the nets of a board are those of `m`, each filed under its own
/// ID.
pub open spec fn nets_agree(pcb_nets: Map<Id, Net>, m: Map<Id, Seq<PinRef>>) -> bool {
    &&& pcb_nets.dom() == m.dom()
    &&& forall|id: Id| #[trigger] m.contains_key(id) ==> pcb_nets[id].id == id && pcb_nets[id].pins@ == m[id]
}

/// Adds the nets of the design to a board that has none yet.
#[verifier::rlimit(40)]
fn convert_nets(pcb: &mut Pcb, nets: &[DsnNet])
    requires
        old(pcb).names_wf(),
        old(pcb).spec_nets() == Map::<Id, Net>::empty(),
        forall|p: PinRef| old(pcb).spec_pin_net(p) is None,
    ensures
        final(pcb).names_wf(),
        ({
            let (n, ns) = spec_nets(old(pcb).spec_names(), nets@.map_values(|v: DsnNet| net_model(v)));
            &&& final(pcb).spec_names() == n
            &&& nets_agree(final(pcb).spec_nets(), nets_map(ns))
            &&& forall|p: PinRef| #[trigger] final(pcb).spec_pin_net(p) == pin_net_after(ns, p)
        }),
        final(pcb).spec_id() == old(pcb).spec_id(),
        final(pcb).spec_layers() == old(pcb).spec_layers(),
        final(pcb).spec_net_rulesets() == old(pcb).spec_net_rulesets(),
        final(pcb).spec_default_ruleset() == old(pcb).spec_default_ruleset(),
{
    let ghost n0 = pcb.spec_names();
    let ghost ms = nets@.map_values(|v: DsnNet| net_model(v));
    let mut i: usize = 0;
    assert(ms.take(0).len() == 0);
    assert(nets_map(Seq::<NetIds>::empty()) =~= Map::<Id, Seq<PinRef>>::empty());
    assert(pcb.spec_nets().dom() =~= Set::<Id>::empty());
    while i < nets.len()
        invariant
            i <= nets@.len(),
            ms == nets@.map_values(|v: DsnNet| net_model(v)),
            n0 == old(pcb).spec_names(),
            pcb.names_wf(),
            pcb.spec_names() == spec_nets(n0, ms.take(i as int)).0,
            nets_agree(pcb.spec_nets(), nets_map(spec_nets(n0, ms.take(i as int)).1)),
            forall|p: PinRef| #[trigger] pcb.spec_pin_net(p) == pin_net_after(spec_nets(n0, ms.take(i as int)).1, p),
            pcb.spec_id() == old(pcb).spec_id(),
            pcb.spec_layers() == old(pcb).spec_layers(),
            pcb.spec_net_rulesets() == old(pcb).spec_net_rulesets(),
            pcb.spec_default_ruleset() == old(pcb).spec_default_ruleset(),
        decreases nets@.len() - i,
    {
        let v = &nets[i];
        let ghost before = spec_nets(n0, ms.take(i as int));
        proof {
            assert(ms.take(i + 1).drop_last() =~= ms.take(i as int));
            assert(ms.take(i + 1).last() == net_model(*v));
        }
        let n = convert_net(pcb.names_mut(), v);
        let ghost ids = lookup_seq(before.0, net_names(v.net_id@, pin_refs_model(v.pins@))).1;
        let ghost added = net_ids(net_model(*v), ids);
        proof {
            assert(n.pins@ =~= added.1);
            assert(n.id == added.0);
        }
        pcb.add_net(n);
        proof {
            let after = spec_nets(n0, ms.take(i + 1));
            assert(after.1 == before.1.push(added));
            assert(after.1.drop_last() =~= before.1);
            assert(after.1.last() == added);
            assert(nets_map(after.1) == nets_map(before.1).insert(added.0, added.1));
            assert(pcb.spec_nets().dom() =~= nets_map(after.1).dom());
            assert forall|p: PinRef| #[trigger] pcb.spec_pin_net(p) == pin_net_after(after.1, p) by {
                assert(after.1.drop_last() =~= before.1);
            }
        }
        i = i + 1;
    }
    assert(ms.take(nets@.len() as int) =~= ms);
}

/// The number of width rules among `rules`.
pub open spec fn width_count(rules: Seq<RuleModel>) -> nat
    decreases rules.len(),
{
    if rules.len() == 0 {
        0
    } else {
        width_count(rules.drop_last()) + if rules.last() is Width {
            1nat
        } else {
            0nat
        }
    }
}

/// A rule set of the board: its ID, the index of the class of the design
/// that gives its rules, and the IDs of the vias that its circuits name.
pub struct RulesetRef {
    pub id: Id,
    pub class: usize,
    pub vias: Vec<Id>,
}

/// A rule set of the board, with its vias as a sequence.
pub struct RulesetRefModel {
    pub id: Id,
    pub class: usize,
    pub vias: Seq<Id>,
}

impl View for RulesetRef {
    type V = RulesetRefModel;

    open spec fn view(&self) -> RulesetRefModel {
        RulesetRefModel { id: self.id, class: self.class, vias: self.vias@ }
    }
}

/// The models of rule sets by ID.
pub open spec fn rulesets_model(m: Map<Id, RulesetRef>) -> Map<Id, RulesetRefModel> {
    m.map_values(|r: RulesetRef| r@)
}

/// The rule sets of a board and which of them its nets follow.
pub struct ClassesModel {
    pub rulesets: Map<Id, RulesetRefModel>,
    pub net_rulesets: Map<Id, Id>,
    pub default: Id,
}

/// `m` with each of `ids` in turn given rule set `rs`.
pub open spec fn assign_all(m: Map<Id, Id>, ids: Seq<Id>, rs: Id) -> Map<Id, Id>
    decreases ids.len(),
{
    if ids.len() == 0 {
        m
    } else {
        assign_all(m, ids.drop_last(), rs).insert(ids.last(), rs)
    }
}

/// Class `ci`: the ID of its name is looked up, then those of the vias of
/// its circuits; more than one width rule is refused. Its rule set is filed
/// under its ID; it becomes the default if the class names no nets, and
/// otherwise each net that it names, looked up in turn, is given it.
pub open spec fn spec_class(names: Seq<Seq<char>>, c: ClassModel, ci: usize, st: ClassesModel) -> Conv<
    ClassesModel,
> {
    let (n1, id) = spec_lookup(names, c.class_id);
    let (n2, vias) = lookup_seq(n1, c.circuits);
    if width_count(c.rules) > 1 {
        Err(ConvertError::MultipleWidthRules)
    } else {
        let rs = st.rulesets.insert(id, RulesetRefModel { id, class: ci, vias });
        if c.net_ids.len() == 0 {
            Ok((n2, ClassesModel { rulesets: rs, net_rulesets: st.net_rulesets, default: id }))
        } else {
            let (n3, nids) = lookup_seq(n2, c.net_ids);
            Ok(
                (
                    n3,
                    ClassesModel {
                        rulesets: rs,
                        net_rulesets: assign_all(st.net_rulesets, nids, id),
                        default: st.default,
                    },
                ),
            )
        }
    }
}

/// The classes of the design in turn.
pub open spec fn spec_classes(names: Seq<Seq<char>>, cls: Seq<ClassModel>, st0: ClassesModel) -> Conv<
    ClassesModel,
>
    decreases cls.len(),
{
    if cls.len() == 0 {
        Ok((names, st0))
    } else {
        match spec_classes(names, cls.drop_last(), st0) {
            Err(e) => Err(e),
            Ok((n1, st)) => spec_class(n1, cls.last(), (cls.len() - 1) as usize, st),
        }
    }
}

/// Once a prefix of the classes fails, all of them fail the same way.
proof fn lemma_classes_err(names: Seq<Seq<char>>, cls: Seq<ClassModel>, st0: ClassesModel, n: int)
    requires
        0 <= n <= cls.len(),
        spec_classes(names, cls.take(n), st0) is Err,
    ensures
        spec_classes(names, cls, st0) == spec_classes(names, cls.take(n), st0),
    decreases cls.len() - n,
{
    if n < cls.len() {
        assert(cls.take(n + 1).drop_last() =~= cls.take(n));
        lemma_classes_err(names, cls, st0, n + 1);
    } else {
        assert(cls.take(n) =~= cls);
    }
}

/// The state of the rule sets of a board.
pub open spec fn classes_state(pcb: Pcb, rulesets: Map<Id, RulesetRef>) -> ClassesModel {
    ClassesModel {
        rulesets: rulesets_model(rulesets),
        net_rulesets: pcb.spec_net_rulesets(),
        default: pcb.spec_default_ruleset(),
    }
}

/// Looks up the names `ss` in turn on the board.
fn lookup_all(pcb: &mut Pcb, ss: &[String]) -> (r: Vec<Id>)
    requires
        old(pcb).names_wf(),
    ensures
        final(pcb).names_wf(),
        (final(pcb).spec_names(), r@) == lookup_seq(old(pcb).spec_names(), ss@.map_values(|s: String| s@)),
        final(pcb).spec_id() == old(pcb).spec_id(),
        final(pcb).spec_layers() == old(pcb).spec_layers(),
        final(pcb).spec_nets() == old(pcb).spec_nets(),
        forall|p: PinRef| final(pcb).spec_pin_net(p) == old(pcb).spec_pin_net(p),
        final(pcb).spec_net_rulesets() == old(pcb).spec_net_rulesets(),
        final(pcb).spec_default_ruleset() == old(pcb).spec_default_ruleset(),
{
    let ghost n0 = pcb.spec_names();
    let ghost ms = ss@.map_values(|s: String| s@);
    let mut out: Vec<Id> = Vec::new();
    let mut i: usize = 0;
    assert(ms.take(0).len() == 0);
    assert(out@ =~= Seq::<Id>::empty());
    while i < ss.len()
        invariant
            i <= ss@.len(),
            ms == ss@.map_values(|s: String| s@),
            n0 == old(pcb).spec_names(),
            pcb.names_wf(),
            (pcb.spec_names(), out@) == lookup_seq(n0, ms.take(i as int)),
            pcb.spec_id() == old(pcb).spec_id(),
            pcb.spec_layers() == old(pcb).spec_layers(),
            pcb.spec_nets() == old(pcb).spec_nets(),
            forall|p: PinRef| pcb.spec_pin_net(p) == old(pcb).spec_pin_net(p),
            pcb.spec_net_rulesets() == old(pcb).spec_net_rulesets(),
            pcb.spec_default_ruleset() == old(pcb).spec_default_ruleset(),
        decreases ss@.len() - i,
    {
        proof {
            assert(ms.take(i + 1).drop_last() =~= ms.take(i as int));
            assert(ms.take(i + 1).last() == ss@[i as int]@);
        }
        let id = pcb.to_id(ss[i].as_str());
        out.push(id);
        i = i + 1;
    }
    assert(ms.take(ss@.len() as int) =~= ms);
    out
}

/// The names of the vias that circuits name.
fn circuit_vias(cs: &[DsnCircuit]) -> (r: Vec<String>)
    ensures
        r@.map_values(|s: String| s@) == cs@.map_values(|c: DsnCircuit| circuit_model(c)),
{
    let mut out: Vec<String> = Vec::new();
    let mut i: usize = 0;
    while i < cs.len()
        invariant
            i <= cs@.len(),
            out@.map_values(|s: String| s@) == cs@.take(i as int).map_values(|c: DsnCircuit| circuit_model(c)),
        decreases cs@.len() - i,
    {
        match &cs[i] {
            DsnCircuit::UseVia(v) => {
                let ghost prev = out@;
                out.push(v.clone());
                proof {
                    assert(cs@.take(i + 1) =~= cs@.take(i as int).push(cs@[i as int]));
                    assert(out@ =~= prev.push(*v));
                    assert(out@.map_values(|s: String| s@) =~= prev.map_values(|s: String| s@).push(
                        v@,
                    ));
                    assert(cs@.take(i + 1).map_values(|c: DsnCircuit| circuit_model(c))
                        =~= cs@.take(i as int).map_values(|c: DsnCircuit| circuit_model(c)).push(
                        circuit_model(cs@[i as int]),
                    ));
                }
            },
        }
        i = i + 1;
    }
    assert(cs@.take(cs@.len() as int) =~= cs@);
    out
}

/// The number of width rules among `rules`.
fn count_widths(rules: &[DsnRule]) -> (r: usize)
    ensures
        r == width_count(rules_model(rules@)),
{
    let ghost ms = rules_model(rules@);
    let mut n: usize = 0;
    let mut i: usize = 0;
    assert(ms.take(0).len() == 0);
    while i < rules.len()
        invariant
            i <= rules@.len(),
            ms == rules_model(rules@),
            n == width_count(ms.take(i as int)),
            n <= i,
        decreases rules@.len() - i,
    {
        proof {
            assert(ms.take(i + 1).drop_last() =~= ms.take(i as int));
            assert(ms.take(i + 1).last() == rules@[i as int]@);
        }
        match &rules[i] {
            DsnRule::Width(_) => {
                n = n + 1;
            },
            DsnRule::Clearance(_) => {},
        }
        i = i + 1;
    }
    assert(ms.take(rules@.len() as int) =~= ms);
    n
}

/// Converts class `ci`.
#[verifier::rlimit(40)]
fn convert_class(pcb: &mut Pcb, rulesets: &mut HashMap<Id, RulesetRef>, c: &DsnClass, ci: usize) -> (r:
    Result<(), DsnError>)
    requires
        old(pcb).names_wf(),
    ensures
        final(pcb).names_wf(),
        match spec_class(old(pcb).spec_names(), c@, ci, classes_state(*old(pcb), old(rulesets)@)) {
            Ok((n, st)) => r is Ok && final(pcb).spec_names() == n && classes_state(
                *final(pcb),
                final(rulesets)@,
            ) == st,
            Err(m) => r matches Err(e) && error_is(e, m),
        },
        final(pcb).spec_id() == old(pcb).spec_id(),
        final(pcb).spec_layers() == old(pcb).spec_layers(),
        final(pcb).spec_nets() == old(pcb).spec_nets(),
        forall|p: PinRef| final(pcb).spec_pin_net(p) == old(pcb).spec_pin_net(p),
{
    broadcast use vstd::std_specs::hash::group_hash_axioms;

    let id = pcb.to_id(c.class_id.as_str());
    let via_names = circuit_vias(c.circuits.as_slice());
    let vias = lookup_all(pcb, via_names.as_slice());
    if count_widths(c.rules.as_slice()) > 1 {
        return Err(DsnError::MultipleWidthRules);
    }
    let ghost rs0 = rulesets@;
    rulesets.insert(id, RulesetRef { id, class: ci, vias });
    proof {
        assert(rulesets_model(rulesets@) =~= rulesets_model(rs0).insert(
            id,
            RulesetRefModel { id, class: ci, vias: rulesets@[id].vias@ },
        ));
    }
    if c.net_ids.len() == 0 {
        pcb.set_default_net_ruleset(id);
    } else {
        let ghost st_nets = pcb.spec_net_rulesets();
        let nids = lookup_all(pcb, c.net_ids.as_slice());
        let ghost p1 = *pcb;
        let mut i: usize = 0;
        assert(nids@.take(0).len() == 0);
        while i < nids.len()
            invariant
                i <= nids@.len(),
                pcb.spec_net_rulesets() == assign_all(st_nets, nids@.take(i as int), id),
                pcb.names_wf(),
                pcb.spec_names() == p1.spec_names(),
                pcb.spec_default_ruleset() == p1.spec_default_ruleset(),
                pcb.spec_id() == p1.spec_id(),
                pcb.spec_layers() == p1.spec_layers(),
                pcb.spec_nets() == p1.spec_nets(),
                forall|p: PinRef| pcb.spec_pin_net(p) == p1.spec_pin_net(p),
            decreases nids@.len() - i,
        {
            proof {
                assert(nids@.take(i + 1).drop_last() =~= nids@.take(i as int));
            }
            pcb.set_net_ruleset(nids[i], id);
            i = i + 1;
        }
        assert(nids@.take(nids@.len() as int) =~= nids@);
    }
    Ok(())
}

/// Converts the classes of the design in turn.
#[verifier::rlimit(40)]
fn convert_classes(pcb: &mut Pcb, rulesets: &mut HashMap<Id, RulesetRef>, cls: &[DsnClass]) -> (r: Result<
    (),
    DsnError,
>)
    requires
        old(pcb).names_wf(),
    ensures
        final(pcb).names_wf(),
        match spec_classes(
            old(pcb).spec_names(),
            cls@.map_values(|c: DsnClass| c@),
            classes_state(*old(pcb), old(rulesets)@),
        ) {
            Ok((n, st)) => r is Ok && final(pcb).spec_names() == n && classes_state(
                *final(pcb),
                final(rulesets)@,
            ) == st,
            Err(m) => r matches Err(e) && error_is(e, m),
        },
        final(pcb).spec_id() == old(pcb).spec_id(),
        final(pcb).spec_layers() == old(pcb).spec_layers(),
        final(pcb).spec_nets() == old(pcb).spec_nets(),
        forall|p: PinRef| final(pcb).spec_pin_net(p) == old(pcb).spec_pin_net(p),
{
    let ghost n0 = pcb.spec_names();
    let ghost st0 = classes_state(*pcb, rulesets@);
    let ghost ms = cls@.map_values(|c: DsnClass| c@);
    let mut i: usize = 0;
    assert(ms.take(0).len() == 0);
    while i < cls.len()
        invariant
            i <= cls@.len(),
            ms == cls@.map_values(|c: DsnClass| c@),
            n0 == old(pcb).spec_names(),
            st0 == classes_state(*old(pcb), old(rulesets)@),
            pcb.names_wf(),
            spec_classes(n0, ms.take(i as int), st0) == Ok::<(Seq<Seq<char>>, ClassesModel), ConvertError>(
                (pcb.spec_names(), classes_state(*pcb, rulesets@)),
            ),
            pcb.spec_id() == old(pcb).spec_id(),
            pcb.spec_layers() == old(pcb).spec_layers(),
            pcb.spec_nets() == old(pcb).spec_nets(),
            forall|p: PinRef| pcb.spec_pin_net(p) == old(pcb).spec_pin_net(p),
        decreases cls@.len() - i,
    {
        proof {
            assert(ms.take(i + 1).drop_last() =~= ms.take(i as int));
            assert(ms.take(i + 1).last() == cls@[i as int]@);
            assert(ms.take(i + 1).len() - 1 == i);
        }
        match convert_class(pcb, rulesets, &cls[i], i) {
            Ok(()) => {},
            Err(e) => {
                proof {
                    lemma_classes_err(n0, ms, st0, i as int + 1);
                }
                return Err(e);
            },
        }
        i = i + 1;
    }
    assert(ms.take(cls@.len() as int) =~= ms);
    Ok(())
}

/// The first layer of the design whose name an earlier layer has.
pub open spec fn first_repeat(ss: Seq<Seq<char>>) -> int {
    choose|k: int| 0 <= k < ss.len() && no_repeat_before(ss, k) && repeats_at(ss, k)
}

/// The layers of the board: layer `k` gets ID `k`, the ID of its name and
/// the kind of its type.
pub open spec fn design_layers(ls: Seq<DsnLayer>, ids: Seq<Id>) -> Seq<Layer> {
    Seq::new(
        ls.len(),
        |k: int| Layer { name_id: ids[k], layer_id: k as LayerId, kind: spec_layer_kind(ls[k].layer_type) },
    )
}

/// A board as the conversion gives it.
pub struct BoardModel {
    pub names: Seq<Seq<char>>,
    pub id: Id,
    pub layers: Seq<Layer>,
    pub padstacks: Seq<PadstackLayersModel>,
    pub images: Seq<ImageLayersModel>,
    pub boundary_layers: Seq<Set<nat>>,
    pub keepout_layers: Seq<Set<nat>>,
    pub via_padstacks: Seq<usize>,
    pub components: Map<Id, PlacedComponent>,
    pub nets: Seq<NetIds>,
    pub classes: ClassesModel,
}

/// No rule sets, none given to a net, and the default rule set 0.
pub open spec fn no_classes() -> ClassesModel {
    ClassesModel { rulesets: Map::empty(), net_rulesets: Map::empty(), default: 0 }
}

/// What converting design `d` gives: the board's name is looked up; the
/// unit must be that of the resolution; then come the layers, padstacks,
/// images, boundaries, keepouts, vias, components, nets and classes, in
/// that order.
pub open spec fn spec_convert(d: DsnPcb) -> Result<BoardModel, ConvertError> {
    let (n1, pid) = spec_lookup(Seq::empty(), d.pcb_id@);
    let ss = dsn_layer_names(d.structure.layers@);
    if d.unit.dimension != d.resolution.dimension {
        Err(ConvertError::UnitOverride)
    } else if !no_repeat_before(ss, ss.len() as int) {
        Err(ConvertError::DuplicateLayer(ss[first_repeat(ss)]))
    } else {
        let (n2, ids) = lookup_seq(n1, ss);
        let layers = design_layers(d.structure.layers@, ids);
        match spec_padstacks(n2, layers, d.library.padstacks@.map_values(|p: DsnPadstack| p@)) {
            Err(e) => Err(e),
            Ok((n3, pads)) => match spec_images(
                n3,
                layers,
                pads,
                d.library.images@.map_values(|p: DsnImage| p@),
            ) {
                Err(e) => Err(e),
                Ok((n4, ims)) => match spec_shapes_layers(n4, layers, shapes_of(d.structure.boundaries@)) {
                    Err(e) => Err(e),
                    Ok((n5, bl)) => match spec_shapes_layers(n5, layers, shapes_of(d.structure.keepouts@)) {
                        Err(e) => Err(e),
                        Ok((n6, kl)) => match spec_vias(
                            n6,
                            pads,
                            d.structure.vias@.map_values(|s: String| s@),
                        ) {
                            Err(e) => Err(e),
                            Ok((n7, vias)) => match spec_components(
                                n7,
                                ims,
                                d.placement.components@.map_values(|c: DsnComponent| c@),
                            ) {
                                Err(e) => Err(e),
                                Ok((n8, comps)) => {
                                    let (n9, nets) = spec_nets(
                                        n8,
                                        d.network.nets@.map_values(
                                            |v: DsnNet| net_model(v),
                                        ),
                                    );
                                    match spec_classes(
                                        n9,
                                        d.network.classes@.map_values(|c: DsnClass| c@),
                                        no_classes(),
                                    ) {
                                        Err(e) => Err(e),
                                        Ok((n10, st)) => Ok(
                                            BoardModel {
                                                names: n10,
                                                id: pid,
                                                layers,
                                                padstacks: pads,
                                                images: ims,
                                                boundary_layers: bl,
                                                keepout_layers: kl,
                                                via_padstacks: vias,
                                                components: comps,
                                                nets,
                                                classes: st,
                                            },
                                        ),
                                    }
                                },
                            },
                        },
                    },
                },
            },
        }
    }
}

/// The structure of a board built from a design: the board itself (names,
/// layers, nets and the rule sets of its nets), and for each part of the
/// design the layers and references that were resolved for it.
pub struct Board {
    pub pcb: Pcb,
    /// One for each padstack of the library, in order.
    pub padstacks: Vec<PadstackLayers>,
    /// One for each image of the library, in order.
    pub images: Vec<ImageLayers>,
    /// The layers of each boundary of the structure, in order.
    pub boundary_layers: Vec<LayerSet>,
    /// The layers of each keepout of the structure, in order.
    pub keepout_layers: Vec<LayerSet>,
    /// The index of the padstack of each via of the structure, in order.
    pub via_padstacks: Vec<usize>,
    /// The placed components, by ID.
    pub components: HashMap<Id, PlacedComponent>,
    /// The rule sets, by ID.
    pub rulesets: HashMap<Id, RulesetRef>,
}

/// Whether board `b` is the one that `m` describes.
pub open spec fn board_is(b: Board, m: BoardModel) -> bool {
    &&& b.pcb.names_wf()
    &&& b.pcb.spec_names() == m.names
    &&& b.pcb.spec_id() == m.id
    &&& b.pcb.spec_layers() == m.layers
    &&& padstacks_model(b.padstacks@) == m.padstacks
    &&& images_model(b.images@) == m.images
    &&& sets_model(b.boundary_layers@) == m.boundary_layers
    &&& sets_model(b.keepout_layers@) == m.keepout_layers
    &&& b.via_padstacks@ == m.via_padstacks
    &&& b.components@ == m.components
    &&& nets_agree(b.pcb.spec_nets(), nets_map(m.nets))
    &&& forall|p: PinRef| #[trigger] b.pcb.spec_pin_net(p) == pin_net_after(m.nets, p)
    &&& classes_state(b.pcb, b.rulesets@) == m.classes
}

/// Whether each component of `comps` is an instance of one of the first `n`
/// images.
pub open spec fn components_in(comps: Map<Id, PlacedComponent>, n: nat) -> bool {
    forall|id: Id| #[trigger] comps.contains_key(id) ==> comps[id].image < n
}

/// Where some image has footprint ID `id`, the first such image is one.
proof fn lemma_first_image(ims: Seq<ImageLayersModel>, id: Id, k: int)
    requires
        0 <= k < ims.len(),
        ims[k].footprint_id == id,
    ensures
        0 <= first_image_with_id(ims, id) < ims.len(),
        ims[first_image_with_id(ims, id)].footprint_id == id,
    decreases k,
{
    if exists|j: int| 0 <= j < k && ims[j].footprint_id == id {
        let j = choose|j: int| 0 <= j < k && ims[j].footprint_id == id;
        lemma_first_image(ims, id, j);
    } else {
        assert(0 <= k < ims.len() && ims[k].footprint_id == id && (forall|j: int|
            0 <= j < k ==> ims[j].footprint_id != id));
    }
}

/// A placement that succeeds is an instance of one of the images.
proof fn lemma_place_in(
    names: Seq<Seq<char>>,
    ims: Seq<ImageLayersModel>,
    image_id: Seq<char>,
    component: usize,
    place: usize,
    r: PlacementRefModel,
)
    ensures
        spec_place(names, ims, image_id, component, place, r) matches Ok((n, c)) ==> c.image
            < ims.len(),
{
    reveal(spec_place);
    reveal(spec_image_index);
    let (n1, iid) = spec_lookup(names, image_id);
    if exists|k: int| 0 <= k < ims.len() && ims[k].footprint_id == iid {
        let k = choose|k: int| 0 <= k < ims.len() && ims[k].footprint_id == iid;
        lemma_first_image(ims, iid, k);
    }
}

/// Placements that succeed add instances of the images only.
proof fn lemma_places_in(
    names: Seq<Seq<char>>,
    ims: Seq<ImageLayersModel>,
    image_id: Seq<char>,
    component: int,
    refs: Seq<PlacementRefModel>,
    acc: Map<Id, PlacedComponent>,
)
    requires
        components_in(acc, ims.len()),
    ensures
        spec_places(names, ims, image_id, component, refs, acc) matches Ok((n, m)) ==> components_in(
            m,
            ims.len(),
        ),
    decreases refs.len(),
{
    if refs.len() > 0 {
        lemma_places_in(names, ims, image_id, component, refs.drop_last(), acc);
        if let Ok((n1, m)) = spec_places(names, ims, image_id, component, refs.drop_last(), acc) {
            lemma_place_in(n1, ims, image_id, component as usize, (refs.len() - 1) as usize, refs.last());
            if let Ok((n2, c)) = spec_place(
                n1,
                ims,
                image_id,
                component as usize,
                (refs.len() - 1) as usize,
                refs.last(),
            ) {
                let m2 = m.insert(c.id, c);
                assert forall|id: Id| #[trigger] m2.contains_key(id) implies m2[id].image < ims.len() by {
                    if id != c.id {
                        assert(m.contains_key(id));
                    }
                }
            }
        }
    }
}

/// Components that are placed without error are instances of the images.
proof fn lemma_components_in(names: Seq<Seq<char>>, ims: Seq<ImageLayersModel>, comps: Seq<ComponentModel>)
    ensures
        spec_components(names, ims, comps) matches Ok((n, m)) ==> components_in(m, ims.len()),
    decreases comps.len(),
{
    if comps.len() > 0 {
        lemma_components_in(names, ims, comps.drop_last());
        if let Ok((n1, m)) = spec_components(names, ims, comps.drop_last()) {
            lemma_places_in(n1, ims, comps.last().image_id, comps.len() - 1, comps.last().refs, m);
        }
    } else {
        assert(components_in(Map::<Id, PlacedComponent>::empty(), ims.len()));
    }
}

/// Every component of a board built from a design is an instance of one of
/// the board's images.
pub proof fn lemma_converted_components_have_images(d: DsnPcb)
    requires
        spec_convert(d) is Ok,
    ensures
        components_in(spec_convert(d)->Ok_0.components, spec_convert(d)->Ok_0.images.len()),
{
    let m = spec_convert(d)->Ok_0;
    let (n1, pid) = spec_lookup(Seq::empty(), d.pcb_id@);
    let ss = dsn_layer_names(d.structure.layers@);
    let (n2, ids) = lookup_seq(n1, ss);
    let layers = design_layers(d.structure.layers@, ids);
    let (n3, pads) = spec_padstacks(n2, layers, d.library.padstacks@.map_values(|p: DsnPadstack| p@))->Ok_0;
    let (n4, ims) = spec_images(n3, layers, pads, d.library.images@.map_values(|p: DsnImage| p@))->Ok_0;
    let (n5, bl) = spec_shapes_layers(n4, layers, shapes_of(d.structure.boundaries@))->Ok_0;
    let (n6, kl) = spec_shapes_layers(n5, layers, shapes_of(d.structure.keepouts@))->Ok_0;
    let (n7, vias) = spec_vias(n6, pads, d.structure.vias@.map_values(|s: String| s@))->Ok_0;
    lemma_components_in(n7, ims, d.placement.components@.map_values(|c: DsnComponent| c@));
}

impl Board {
    /// The component and the pin that `p` refers to.
    pub fn pin_ref(&self, p: &PinRef) -> (r: Result<(PlacedComponent, ImagePin), DsnError>)
        requires
            components_in(self.components@, self.images@.len()),
        ensures
            match self.components@.get(p.component) {
                None => r matches Err(DsnError::UnknownComponent),
                Some(c) => match self.images@[c.image as int].pins@.get(p.pin) {
                    None => r matches Err(DsnError::UnknownPin),
                    Some(pin) => r == Ok::<(PlacedComponent, ImagePin), DsnError>((c, pin)),
                },
            },
    {
        broadcast use vstd::std_specs::hash::group_hash_axioms;

        let c = match self.components.get(&p.component) {
            Some(c) => *c,
            None => {
                return Err(DsnError::UnknownComponent);
            },
        };
        let pin = match self.images[c.image].pins.get(&p.pin) {
            Some(pin) => *pin,
            None => {
                return Err(DsnError::UnknownPin);
            },
        };
        Ok((c, pin))
    }
}

/// Extending names is transitive.
proof fn lemma_extend_trans(a: Seq<Seq<char>>, b: Seq<Seq<char>>, c: Seq<Seq<char>>)
    requires
        names_extend(a, b),
        names_extend(b, c),
    ensures
        names_extend(a, c),
{
    assert forall|i: int| 0 <= i < a.len() implies #[trigger] c[i] == a[i] by {
        assert(c[i] == b[i]);
    }
}

/// Each ID of `ids` gets rule set `rs`.
proof fn lemma_assign_all_in(m: Map<Id, Id>, ids: Seq<Id>, rs: Id, k: int)
    requires
        0 <= k < ids.len(),
    ensures
        assign_all(m, ids, rs).contains_key(ids[k]),
        assign_all(m, ids, rs)[ids[k]] == rs,
    decreases ids.len(),
{
    if k < ids.len() - 1 {
        lemma_assign_all_in(m, ids.drop_last(), rs, k);
    }
}

/// An ID not among `ids` keeps its rule set.
proof fn lemma_assign_all_other(m: Map<Id, Id>, ids: Seq<Id>, rs: Id, x: Id)
    requires
        forall|k: int| 0 <= k < ids.len() ==> ids[k] != x,
    ensures
        assign_all(m, ids, rs).contains_key(x) == m.contains_key(x),
        m.contains_key(x) ==> assign_all(m, ids, rs)[x] == m[x],
    decreases ids.len(),
{
    if ids.len() > 0 {
        lemma_assign_all_other(m, ids.drop_last(), rs, x);
    }
}

/// A class keeps the names and their IDs; a net whose name it does not list
/// keeps its rule set.
proof fn lemma_class_keeps(names: Seq<Seq<char>>, c: ClassModel, ci: usize, st: ClassesModel, nid: Id)
    requires
        nid < names.len(),
        forall|j: int| 0 <= j < c.net_ids.len() ==> c.net_ids[j] != names[nid as int],
    ensures
        spec_class(names, c, ci, st) matches Ok((n2, st2)) ==> {
            &&& names_extend(names, n2)
            &&& n2.len() <= NO_ID && st.net_rulesets.contains_key(nid) ==> st2.net_rulesets.contains_key(nid)
                && st2.net_rulesets[nid] == st.net_rulesets[nid]
        },
{
    let (n1, id) = spec_lookup(names, c.class_id);
    let (n2, vias) = lookup_seq(n1, c.circuits);
    lemma_lookup_extends(names, c.class_id);
    lemma_lookup_seq_extends(n1, c.circuits);
    lemma_extend_trans(names, n1, n2);
    if c.net_ids.len() > 0 {
        let (n3, nids) = lookup_seq(n2, c.net_ids);
        lemma_lookup_seq_extends(n2, c.net_ids);
        lemma_extend_trans(names, n2, n3);
        if n3.len() <= NO_ID {
            assert forall|k: int| 0 <= k < nids.len() implies nids[k] != nid by {
                assert(n3[nids[k] as int] == c.net_ids[k]);
                assert(n3[nid as int] == names[nid as int]);
            }
            lemma_assign_all_other(st.net_rulesets, nids, id, nid);
        }
    }
}

/// Net `net_name` has ID `nid` in `names`, class `class_name` has ID `cid`,
/// and the net follows that class's rule set.
pub open spec fn net_follows(
    names: Seq<Seq<char>>,
    st: ClassesModel,
    class_name: Seq<char>,
    net_name: Seq<char>,
    nid: Id,
    cid: Id,
) -> bool {
    &&& nid < names.len()
    &&& names[nid as int] == net_name
    &&& cid < names.len()
    &&& names[cid as int] == class_name
    &&& st.net_rulesets.contains_key(nid)
    &&& st.net_rulesets[nid] == cid
}

/// A class gives each net it lists its own rule set.
proof fn lemma_class_assigns(names: Seq<Seq<char>>, c: ClassModel, ci: usize, st: ClassesModel, k: int)
    requires
        0 <= k < c.net_ids.len(),
    ensures
        spec_class(names, c, ci, st) matches Ok((n2, st2)) ==> (n2.len() <= NO_ID ==> exists|nid: Id, cid: Id|
            #[trigger] net_follows(n2, st2, c.class_id, c.net_ids[k], nid, cid)),
{
    let (n1, id) = spec_lookup(names, c.class_id);
    let (n2, vias) = lookup_seq(n1, c.circuits);
    let (n3, nids) = lookup_seq(n2, c.net_ids);
    lemma_lookup_extends(names, c.class_id);
    lemma_lookup_seq_extends(n1, c.circuits);
    lemma_lookup_seq_extends(n2, c.net_ids);
    if let Ok((fin, st2)) = spec_class(names, c, ci, st) {
        if fin.len() <= NO_ID {
            assert(fin == n3);
            lemma_extend_trans(n1, n2, n3);
            assert(n3[id as int] == n1[id as int]);
            lemma_assign_all_in(st.net_rulesets, nids, id, k);
            assert(nids[k] < n3.len() && n3[nids[k] as int] == c.net_ids[k]);
            assert(net_follows(fin, st2, c.class_id, c.net_ids[k], nids[k], id));
        }
    }
}

/// The classes keep the names and their IDs.
proof fn lemma_classes_extend(names: Seq<Seq<char>>, cls: Seq<ClassModel>, st0: ClassesModel)
    ensures
        spec_classes(names, cls, st0) matches Ok((fin, _)) ==> names_extend(names, fin),
    decreases cls.len(),
{
    if cls.len() > 0 {
        lemma_classes_extend(names, cls.drop_last(), st0);
        if let Ok((n1, st)) = spec_classes(names, cls.drop_last(), st0) {
            if let Ok((n2, st2)) = spec_class(n1, cls.last(), (cls.len() - 1) as usize, st) {
                lemma_class_keeps_names(n1, cls.last(), (cls.len() - 1) as usize, st);
                lemma_extend_trans(names, n1, n2);
            }
        }
    }
}

/// A class keeps the names and their IDs.
proof fn lemma_class_keeps_names(names: Seq<Seq<char>>, c: ClassModel, ci: usize, st: ClassesModel)
    ensures
        spec_class(names, c, ci, st) matches Ok((n2, _)) ==> names_extend(names, n2),
{
    let (n1, id) = spec_lookup(names, c.class_id);
    let (n2, vias) = lookup_seq(n1, c.circuits);
    lemma_lookup_extends(names, c.class_id);
    lemma_lookup_seq_extends(n1, c.circuits);
    lemma_extend_trans(names, n1, n2);
    if c.net_ids.len() > 0 {
        lemma_lookup_seq_extends(n2, c.net_ids);
        lemma_extend_trans(names, n2, lookup_seq(n2, c.net_ids).0);
    }
}

/// Class `ci` gives its `k`-th net its rule set, unless a later class lists
/// that net too.
proof fn lemma_classes_assign(names: Seq<Seq<char>>, cls: Seq<ClassModel>, st0: ClassesModel, ci: int, k: int)
    requires
        0 <= ci < cls.len(),
        0 <= k < cls[ci].net_ids.len(),
        forall|cj: int, j: int|
            ci < cj < cls.len() && 0 <= j < cls[cj].net_ids.len() ==> cls[cj].net_ids[j] != cls[ci].net_ids[k],
    ensures
        spec_classes(names, cls, st0) matches Ok((fin, st)) ==> (fin.len() <= NO_ID ==> exists|
            nid: Id,
            cid: Id,
        | #[trigger] net_follows(fin, st, cls[ci].class_id, cls[ci].net_ids[k], nid, cid)),
    decreases cls.len(),
{
    let pre = cls.drop_last();
    let last = (cls.len() - 1) as usize;
    if let Ok((n1, st1)) = spec_classes(names, pre, st0) {
        if let Ok((fin, st)) = spec_class(n1, cls.last(), last, st1) {
            if fin.len() <= NO_ID {
                lemma_class_keeps_names(n1, cls.last(), last, st1);
                if ci == cls.len() - 1 {
                    assert(cls.last() == cls[ci]);
                    lemma_class_assigns(n1, cls.last(), last, st1, k);
                } else {
                    lemma_classes_assign(names, pre, st0, ci, k);
                    assert(pre[ci] == cls[ci]);
                    let (nid, cid) = choose|nid: Id, cid: Id|
                        #[trigger] net_follows(n1, st1, cls[ci].class_id, cls[ci].net_ids[k], nid, cid);
                    assert forall|j: int| 0 <= j < cls.last().net_ids.len() implies cls.last().net_ids[j]
                        != n1[nid as int] by {
                        assert(cls[cls.len() - 1] == cls.last());
                    }
                    lemma_class_keeps(n1, cls.last(), last, st1, nid);
                    assert(fin[nid as int] == n1[nid as int]);
                    assert(fin[cid as int] == n1[cid as int]);
                    assert(net_follows(fin, st, cls[ci].class_id, cls[ci].net_ids[k], nid, cid));
                }
            }
        }
    }
}

/// The nets keep the names and their IDs.
proof fn lemma_nets_extend(names: Seq<Seq<char>>, nets: Seq<NetModel>)
    ensures
        names_extend(names, spec_nets(names, nets).0),
    decreases nets.len(),
{
    if nets.len() > 0 {
        lemma_nets_extend(names, nets.drop_last());
        let n1 = spec_nets(names, nets.drop_last()).0;
        lemma_lookup_seq_extends(n1, net_names(nets.last().0, nets.last().1));
        lemma_extend_trans(names, n1, spec_nets(names, nets).0);
    }
}

/// Board component `c` is the one that placement `c.place` of component
/// `c.component` of the design puts down: it bears the placement's name and
/// side, and is an instance of the image that the component names.
pub open spec fn placed_as(
    names: Seq<Seq<char>>,
    ims: Seq<ImageLayersModel>,
    comps: Seq<ComponentModel>,
    c: PlacedComponent,
) -> bool {
    &&& c.component < comps.len()
    &&& c.place < comps[c.component as int].refs.len()
    &&& c.id < names.len()
    &&& names[c.id as int] == comps[c.component as int].refs[c.place as int].component_id
    &&& c.back == (comps[c.component as int].refs[c.place as int].side == DsnSide::Back)
    &&& c.image < ims.len()
    &&& ims[c.image as int].footprint_id < names.len()
    &&& names[ims[c.image as int].footprint_id as int] == comps[c.component as int].image_id
}

/// Every component of `m` is filed under its own ID and stands as placed.
pub open spec fn all_placed_as(
    names: Seq<Seq<char>>,
    ims: Seq<ImageLayersModel>,
    comps: Seq<ComponentModel>,
    m: Map<Id, PlacedComponent>,
) -> bool {
    forall|id: Id| #[trigger] m.contains_key(id) ==> m[id].id == id && placed_as(names, ims, comps, m[id])
}

/// More names keep every component as placed.
proof fn lemma_placed_extend(
    a: Seq<Seq<char>>,
    b: Seq<Seq<char>>,
    ims: Seq<ImageLayersModel>,
    comps: Seq<ComponentModel>,
    m: Map<Id, PlacedComponent>,
)
    requires
        names_extend(a, b),
        all_placed_as(a, ims, comps, m),
    ensures
        all_placed_as(b, ims, comps, m),
{
    assert forall|id: Id| #[trigger] m.contains_key(id) implies m[id].id == id && placed_as(b, ims, comps, m[id]) by {
        let c = m[id];
        assert(b[c.id as int] == a[c.id as int]);
        assert(b[ims[c.image as int].footprint_id as int] == a[ims[c.image as int].footprint_id as int]);
    }
}

/// A placement that succeeds puts down a component with the placement's
/// name and side, of the image named `image_id`.
proof fn lemma_place_as(
    names: Seq<Seq<char>>,
    ims: Seq<ImageLayersModel>,
    image_id: Seq<char>,
    component: usize,
    place: usize,
    r: PlacementRefModel,
)
    ensures
        spec_place(names, ims, image_id, component, place, r) matches Ok((n2, c)) ==> {
            &&& names_extend(names, n2)
            &&& c.component == component
            &&& c.place == place
            &&& c.back == (r.side == DsnSide::Back)
            &&& ims.len() <= usize::MAX && n2.len() <= NO_ID ==> {
                &&& c.image < ims.len()
                &&& c.id < n2.len()
                &&& n2[c.id as int] == r.component_id
                &&& ims[c.image as int].footprint_id < n2.len()
                &&& n2[ims[c.image as int].footprint_id as int] == image_id
            }
        },
{
    reveal(spec_place);
    reveal(spec_image_index);
    let (n1, iid) = spec_lookup(names, image_id);
    let (n2, cid) = spec_lookup(n1, r.component_id);
    lemma_lookup_extends(names, image_id);
    lemma_lookup_extends(n1, r.component_id);
    lemma_extend_trans(names, n1, n2);
    if exists|k: int| 0 <= k < ims.len() && ims[k].footprint_id == iid {
        let k = choose|k: int| 0 <= k < ims.len() && ims[k].footprint_id == iid;
        lemma_first_image(ims, iid, k);
        let f = first_image_with_id(ims, iid);
        assert(spec_image_index(names, ims, image_id) == Ok::<(Seq<Seq<char>>, usize), ConvertError>((n1, f as usize)));
        if r.side != DsnSide::Both {
            let c = PlacedComponent { id: cid, image: f as usize, component, place, back: r.side == DsnSide::Back };
            assert(spec_place(names, ims, image_id, component, place, r) == Ok::<(Seq<Seq<char>>, PlacedComponent), ConvertError>((n2, c)));
            if ims.len() <= usize::MAX && n2.len() <= NO_ID {
                assert(f as usize as int == f);
                assert(n2[iid as int] == n1[iid as int]);
            }
        }
    }
}

/// The placements of component `ci`, from the first on, put down components
/// as placed.
proof fn lemma_places_as(
    names: Seq<Seq<char>>,
    ims: Seq<ImageLayersModel>,
    comps: Seq<ComponentModel>,
    ci: int,
    refs: Seq<PlacementRefModel>,
    acc: Map<Id, PlacedComponent>,
)
    requires
        0 <= ci < comps.len(),
        comps.len() <= usize::MAX,
        comps[ci].refs.len() <= usize::MAX,
        ims.len() <= usize::MAX,
        refs.len() <= comps[ci].refs.len(),
        forall|j: int| 0 <= j < refs.len() ==> refs[j] == comps[ci].refs[j],
        all_placed_as(names, ims, comps, acc),
    ensures
        spec_places(names, ims, comps[ci].image_id, ci, refs, acc) matches Ok((n, m)) ==> {
            &&& names_extend(names, n)
            &&& n.len() <= NO_ID ==> all_placed_as(n, ims, comps, m)
        },
    decreases refs.len(),
{
    if refs.len() == 0 {
        assert(names_extend(names, names));
    } else {
        let pre = refs.drop_last();
        let place = (refs.len() - 1) as usize;
        lemma_places_as(names, ims, comps, ci, pre, acc);
        if let Ok((n1, m1)) = spec_places(names, ims, comps[ci].image_id, ci, pre, acc) {
            lemma_place_as(n1, ims, comps[ci].image_id, ci as usize, place, refs.last());
            if let Ok((n2, c)) = spec_place(n1, ims, comps[ci].image_id, ci as usize, place, refs.last()) {
                lemma_extend_trans(names, n1, n2);
                if n2.len() <= NO_ID {
                    lemma_placed_extend(n1, n2, ims, comps, m1);
                    assert(refs.last() == comps[ci].refs[place as int]);
                    assert(placed_as(n2, ims, comps, c));
                    let m = m1.insert(c.id, c);
                    assert forall|id: Id| #[trigger] m.contains_key(id) implies m[id].id == id && placed_as(
                        n2,
                        ims,
                        comps,
                        m[id],
                    ) by {
                        if id != c.id {
                            assert(m1.contains_key(id));
                        }
                    }
                }
            }
        }
    }
}

/// The components of the design, from the first on, are put down as placed.
proof fn lemma_components_as(
    names: Seq<Seq<char>>,
    ims: Seq<ImageLayersModel>,
    all: Seq<ComponentModel>,
    comps: Seq<ComponentModel>,
)
    requires
        comps.len() <= all.len(),
        forall|i: int| 0 <= i < comps.len() ==> comps[i] == all[i],
        all.len() <= usize::MAX,
        forall|i: int| 0 <= i < all.len() ==> #[trigger] all[i].refs.len() <= usize::MAX,
        ims.len() <= usize::MAX,
    ensures
        spec_components(names, ims, comps) matches Ok((n, m)) ==> {
            &&& names_extend(names, n)
            &&& n.len() <= NO_ID ==> all_placed_as(n, ims, all, m)
        },
    decreases comps.len(),
{
    if comps.len() == 0 {
        assert(names_extend(names, names));
        assert(all_placed_as(names, ims, all, Map::<Id, PlacedComponent>::empty()));
    } else {
        let pre = comps.drop_last();
        let ci = comps.len() - 1;
        lemma_components_as(names, ims, all, pre);
        if let Ok((n1, m1)) = spec_components(names, ims, pre) {
            assert(comps.last() == all[ci]);
            assert(all[ci].refs.len() <= usize::MAX);
            // The placements' names only grow, whatever they give.
            lemma_places_names(n1, ims, all[ci].image_id, ci, all[ci].refs, m1);
            if let Ok((n2, m2)) = spec_places(n1, ims, all[ci].image_id, ci, all[ci].refs, m1) {
                lemma_extend_trans(names, n1, n2);
                if n2.len() <= NO_ID {
                    assert(n1.len() <= NO_ID);
                    lemma_places_as(n1, ims, all, ci, all[ci].refs, m1);
                }
            }
        }
    }
}

/// Placements only ever add names.
proof fn lemma_places_names(
    names: Seq<Seq<char>>,
    ims: Seq<ImageLayersModel>,
    image_id: Seq<char>,
    component: int,
    refs: Seq<PlacementRefModel>,
    acc: Map<Id, PlacedComponent>,
)
    ensures
        spec_places(names, ims, image_id, component, refs, acc) matches Ok((n, m)) ==> names_extend(names, n),
    decreases refs.len(),
{
    if refs.len() == 0 {
        assert(names_extend(names, names));
    } else {
        lemma_places_names(names, ims, image_id, component, refs.drop_last(), acc);
        if let Ok((n1, m1)) = spec_places(names, ims, image_id, component, refs.drop_last(), acc) {
            let place = (refs.len() - 1) as usize;
            lemma_place_as(n1, ims, image_id, component as usize, place, refs.last());
            if let Ok((n2, c)) = spec_place(n1, ims, image_id, component as usize, place, refs.last()) {
                lemma_extend_trans(names, n1, n2);
            }
        }
    }
}

/// The images that the conversion gives are one for each image of the
/// library.
proof fn lemma_images_len(
    names: Seq<Seq<char>>,
    layers: Seq<Layer>,
    pads: Seq<PadstackLayersModel>,
    ims: Seq<ImageModel>,
)
    ensures
        spec_images(names, layers, pads, ims) matches Ok((_, acc)) ==> acc.len() == ims.len(),
    decreases ims.len(),
{
    if ims.len() > 0 {
        lemma_images_len(names, layers, pads, ims.drop_last());
    }
}

/// The components of the design as models.
pub open spec fn components_model(d: DsnPcb) -> Seq<ComponentModel> {
    d.placement.components@.map_values(|c: DsnComponent| c@)
}

/// The classes of the design as models.
pub open spec fn classes_model(d: DsnPcb) -> Seq<ClassModel> {
    d.network.classes@.map_values(|c: DsnClass| c@)
}

/// Every component of a board built from a design stands where a placement
/// of the design puts it: component `c` is filed under its ID, which is the
/// name that placement `c.place` of component `c.component` gives, with that
/// placement's side, and it is an instance of the image that the component
/// names.
pub proof fn lemma_components_stand_as_placed(d: DsnPcb)
    requires
        spec_convert(d) is Ok,
        spec_convert(d)->Ok_0.names.len() <= NO_ID,
    ensures
        all_placed_as(
            spec_convert(d)->Ok_0.names,
            spec_convert(d)->Ok_0.images,
            components_model(d),
            spec_convert(d)->Ok_0.components,
        ),
{
    let m = spec_convert(d)->Ok_0;
    let comps = components_model(d);
    let (n1, pid) = spec_lookup(Seq::empty(), d.pcb_id@);
    let ss = dsn_layer_names(d.structure.layers@);
    let (n2, ids) = lookup_seq(n1, ss);
    let layers = design_layers(d.structure.layers@, ids);
    let lib_ims = d.library.images@.map_values(|p: DsnImage| p@);
    let (n3, pads) = spec_padstacks(n2, layers, d.library.padstacks@.map_values(|p: DsnPadstack| p@))->Ok_0;
    let (n4, ims) = spec_images(n3, layers, pads, lib_ims)->Ok_0;
    let (n5, bl) = spec_shapes_layers(n4, layers, shapes_of(d.structure.boundaries@))->Ok_0;
    let (n6, kl) = spec_shapes_layers(n5, layers, shapes_of(d.structure.keepouts@))->Ok_0;
    let (n7, vias) = spec_vias(n6, pads, d.structure.vias@.map_values(|s: String| s@))->Ok_0;
    let (n8, cm) = spec_components(n7, ims, comps)->Ok_0;
    let nets = d.network.nets@.map_values(|v: DsnNet| net_model(v));
    let (n9, nl) = spec_nets(n8, nets);
    let (n10, st) = spec_classes(n9, classes_model(d), no_classes())->Ok_0;
    assert(m.names == n10 && m.images == ims && m.components == cm);
    // Lengths of vectors fit a `usize`.
    vstd::std_specs::vec::axiom_spec_len(&d.placement.components);
    vstd::std_specs::vec::axiom_spec_len(&d.library.images);
    assert forall|i: int| 0 <= i < comps.len() implies #[trigger] comps[i].refs.len() <= usize::MAX by {
        vstd::std_specs::vec::axiom_spec_len(&d.placement.components@[i].refs);
    }
    lemma_images_len(n3, layers, pads, lib_ims);
    // The names only grow after the components are placed.
    lemma_nets_extend(n8, nets);
    lemma_classes_extend(n9, classes_model(d), no_classes());
    lemma_extend_trans(n8, n9, n10);
    lemma_components_as(n7, ims, comps, comps);
    lemma_placed_extend(n8, n10, ims, comps, cm);
}

/// A class that lists nets gives each of them its rule set: on a board built
/// from a design, net `k` of class `ci`, unless a later class lists it too,
/// has the ID of a name that spells it, and its rule set is the ID of the
/// class's name.
pub proof fn lemma_class_nets_follow_class(d: DsnPcb, ci: int, k: int)
    requires
        spec_convert(d) is Ok,
        spec_convert(d)->Ok_0.names.len() <= NO_ID,
        0 <= ci < classes_model(d).len(),
        0 <= k < classes_model(d)[ci].net_ids.len(),
        forall|cj: int, j: int|
            ci < cj < classes_model(d).len() && 0 <= j < classes_model(d)[cj].net_ids.len()
                ==> classes_model(d)[cj].net_ids[j] != classes_model(d)[ci].net_ids[k],
    ensures
        exists|nid: Id, cid: Id|
            #[trigger] net_follows(
                spec_convert(d)->Ok_0.names,
                spec_convert(d)->Ok_0.classes,
                classes_model(d)[ci].class_id,
                classes_model(d)[ci].net_ids[k],
                nid,
                cid,
            ),
{
    let m = spec_convert(d)->Ok_0;
    let (n1, pid) = spec_lookup(Seq::empty(), d.pcb_id@);
    let ss = dsn_layer_names(d.structure.layers@);
    let (n2, ids) = lookup_seq(n1, ss);
    let layers = design_layers(d.structure.layers@, ids);
    let (n3, pads) = spec_padstacks(n2, layers, d.library.padstacks@.map_values(|p: DsnPadstack| p@))->Ok_0;
    let (n4, ims) = spec_images(n3, layers, pads, d.library.images@.map_values(|p: DsnImage| p@))->Ok_0;
    let (n5, bl) = spec_shapes_layers(n4, layers, shapes_of(d.structure.boundaries@))->Ok_0;
    let (n6, kl) = spec_shapes_layers(n5, layers, shapes_of(d.structure.keepouts@))->Ok_0;
    let (n7, vias) = spec_vias(n6, pads, d.structure.vias@.map_values(|s: String| s@))->Ok_0;
    let (n8, cm) = spec_components(n7, ims, components_model(d))->Ok_0;
    let (n9, nl) = spec_nets(n8, d.network.nets@.map_values(|v: DsnNet| net_model(v)));
    assert(spec_classes(n9, classes_model(d), no_classes()) == Ok::<(Seq<Seq<char>>, ClassesModel), ConvertError>((m.names, m.classes)));
    lemma_classes_assign(n9, classes_model(d), no_classes(), ci, k);
}

/// Builds the structure of a board from a design.
pub struct DesignToPcb {
    dsn: DsnPcb,
}

impl DesignToPcb {
    /// The design to convert.
    pub closed spec fn spec_dsn(&self) -> DsnPcb {
        self.dsn
    }

    /// A conversion of `dsn`.
    pub fn new(dsn: DsnPcb) -> (r: Self)
        ensures
            r.spec_dsn() == dsn,
    {
        DesignToPcb { dsn }
    }

    /// Builds the board; boards have at most 64 layers.
    #[verifier::rlimit(80)]
    pub fn convert(self) -> (r: Result<Board, DsnError>)
        requires
            self.spec_dsn().structure.layers@.len() <= 64,
        ensures
            match spec_convert(self.spec_dsn()) {
                Ok(m) => r matches Ok(b) && board_is(b, m),
                Err(m) => r matches Err(e) && error_is(e, m),
            },
    {
        broadcast use vstd::std_specs::hash::group_hash_axioms;

        let d = self.dsn;
        let mut pcb = Pcb::new();
        pcb.set_pcb_name(d.pcb_id.as_str());
        if let Err(e) = check_unit(&d.unit, &d.resolution) {
            return Err(e);
        }
        let ghost ss = dsn_layer_names(d.structure.layers@);
        let layers = match convert_layers(pcb.names_mut(), d.structure.layers.as_slice()) {
            Ok(ls) => ls,
            Err(e) => {
                proof {
                    let k = choose|k: int|
                        0 <= k < ss.len() && no_repeat_before(ss, k) && #[trigger] repeats_at(ss, k)
                            && (e matches DsnError::DuplicateLayer(s) && s@ == ss[k]);
                    let f = first_repeat(ss);
                    if f < k {
                        assert(!repeats_at(ss, f));
                    } else if f > k {
                        assert(!repeats_at(ss, k));
                    }
                }
                return Err(e);
            },
        };
        proof {
            assert(layers@ =~= design_layers(d.structure.layers@, lookup_seq(spec_lookup(Seq::empty(), d.pcb_id@).0, ss).1));
        }
        let ghost n2 = pcb.spec_names();
        let ghost pid = pcb.spec_id();
        let mut i: usize = 0;
        assert(layers@.take(0) =~= Seq::<Layer>::empty());
        while i < layers.len()
            invariant
                i <= layers@.len(),
                pcb.spec_layers() == layers@.take(i as int),
                pcb.names_wf(),
                pcb.spec_names() == n2,
                pcb.spec_id() == pid,
                pcb.spec_nets() == Map::<Id, Net>::empty(),
                forall|p: PinRef| pcb.spec_pin_net(p) is None,
                pcb.spec_net_rulesets() == Map::<Id, Id>::empty(),
                pcb.spec_default_ruleset() == 0,
            decreases layers@.len() - i,
        {
            pcb.add_layer(layers[i]);
            assert(layers@.take(i + 1) =~= layers@.take(i as int).push(layers@[i as int]));
            i = i + 1;
        }
        assert(layers@.take(layers@.len() as int) =~= layers@);
        let padstacks = match convert_padstacks(pcb.names_mut(), layers.as_slice(), d.library.padstacks.as_slice()) {
            Ok(v) => v,
            Err(e) => {
                return Err(e);
            },
        };
        let images = match convert_images(
            pcb.names_mut(),
            layers.as_slice(),
            padstacks.as_slice(),
            d.library.images.as_slice(),
        ) {
            Ok(v) => v,
            Err(e) => {
                return Err(e);
            },
        };
        let boundary_layers = match shapes_layers(pcb.names_mut(), layers.as_slice(), d.structure.boundaries.as_slice()) {
            Ok(v) => v,
            Err(e) => {
                return Err(e);
            },
        };
        let keepout_layers = match shapes_layers(pcb.names_mut(), layers.as_slice(), d.structure.keepouts.as_slice()) {
            Ok(v) => v,
            Err(e) => {
                return Err(e);
            },
        };
        let via_padstacks = match convert_vias(pcb.names_mut(), padstacks.as_slice(), d.structure.vias.as_slice()) {
            Ok(v) => v,
            Err(e) => {
                return Err(e);
            },
        };
        let components = match convert_components(pcb.names_mut(), images.as_slice(), d.placement.components.as_slice()) {
            Ok(v) => v,
            Err(e) => {
                return Err(e);
            },
        };
        convert_nets(&mut pcb, d.network.nets.as_slice());
        let mut rulesets: HashMap<Id, RulesetRef> = HashMap::new();
        proof {
            assert(rulesets_model(rulesets@) =~= Map::<Id, RulesetRefModel>::empty());
            assert(classes_state(pcb, rulesets@) == no_classes());
        }
        match convert_classes(&mut pcb, &mut rulesets, d.network.classes.as_slice()) {
            Ok(()) => {},
            Err(e) => {
                return Err(e);
            },
        }
        Ok(
            Board {
                pcb,
                padstacks,
                images,
                boundary_layers,
                keepout_layers,
                via_padstacks,
                components,
                rulesets,
            },
        )
    }
}

} // verus!
