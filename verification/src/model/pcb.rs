use vstd::prelude::*;

use rust_dense_bitset::DenseBitSet;

use crate::model::dense_bits::{
    dense_and, dense_any, dense_bits, dense_eq, dense_first_set, dense_from_integer,
    dense_get_bit, dense_new, dense_or, dense_reverse, dense_set_bit, dense_shr_assign,
    dense_weight, lemma_single_bit, word_positions,
};
use crate::dsn::number::DsnNumber;
use crate::model::geom::qt::query::Kinds;
use std::collections::HashMap;

use crate::name::{spec_lookup, Id, NameMap, NO_ID};

verus! {

// A file-format independent representation of a PCB.

/// The index of a layer, counted from 0 in the order of the physical stackup.
pub type LayerId = usize;

/// A kind of layer; `All` stands for every kind.
#[derive(PartialEq, Eq, Structural, Debug, Copy, Clone, Hash)]
pub enum LayerKind {
    All,
    Signal,
    Power,
    Mixed,
    Jumper,
}

/// A set of layers; layer IDs below 64 only.
#[derive(Copy, Clone)]
pub struct LayerSet {
    l: DenseBitSet,
}

/// True iff every element of `s` is a bit position of a 64-bit word.
pub open spec fn in_word(s: Set<nat>) -> bool {
    forall|k: nat| s.contains(k) ==> k < 64
}

/// The layers of a stack of `n` layers turned over: layer `k` becomes layer
/// `n - 1 - k`, and layers at `n` or above drop out.
pub open spec fn spec_flip(s: Set<nat>, n: nat) -> Set<nat> {
    Set::new(|k: nat| k < n && s.contains((n - 1 - k) as nat))
}

/// Turning a stack of `n` layers over twice gives back every set of layers
/// below `n`.
pub proof fn lemma_flip_twice(s: Set<nat>, n: nat)
    requires
        forall|k: nat| s.contains(k) ==> k < n,
    ensures
        spec_flip(spec_flip(s, n), n) == s,
{
    assert(spec_flip(spec_flip(s, n), n) =~= s) by {
        assert forall|k: nat| spec_flip(spec_flip(s, n), n).contains(k) <==> s.contains(k) by {
            if k < n {
                assert((n - 1 - (n - 1 - k) as nat) as nat == k);
            }
        }
    }
}

/// A set of positions below 64 is finite.
proof fn lemma_in_word_finite(s: Set<nat>)
    requires
        in_word(s),
    ensures
        s.finite(),
        s.len() <= 64,
{
    let w = word_positions();
    <nat as vstd::set_lib::FiniteRange>::range_properties(0, 64);
    assert(s.subset_of(w));
    vstd::set_lib::lemma_set_subset_finite(w, s);
    vstd::set_lib::lemma_len_subset(s, w);
}

impl View for LayerSet {
    type V = Set<nat>;

    closed spec fn view(&self) -> Set<nat> {
        dense_bits(self.l)
    }
}

impl LayerSet {
    #[verifier::type_invariant]
    closed spec fn inv(self) -> bool {
        in_word(dense_bits(self.l))
    }

    /// The empty set.
    pub fn empty() -> (r: Self)
        ensures
            r@ == Set::<nat>::empty(),
    {
        LayerSet { l: dense_new() }
    }

    /// The set of the one layer `id`.
    pub fn one(id: LayerId) -> (r: Self)
        requires
            id < 64,
        ensures
            r@ == Set::<nat>::empty().insert(id as nat),
    {
        let idw = id as u64;
        let l = dense_from_integer(1u64 << idw);
        proof {
            lemma_single_bit(idw);
        }
        LayerSet { l }
    }

    /// Whether the set holds no layer.
    pub fn is_empty(&self) -> (r: bool)
        ensures
            r == (self@.len() == 0),
    {
        self.len() == 0
    }

    /// The number of layers in the set.
    pub fn len(&self) -> (r: usize)
        ensures
            r == self@.len(),
    {
        proof {
            use_type_invariant(self);
            lemma_in_word_finite(self@);
        }
        dense_weight(&self.l) as usize
    }

    /// The layer of a set of exactly one layer; none otherwise.
    pub fn id(&self) -> (r: Option<LayerId>)
        ensures
            self@.len() == 1 ==> (r matches Some(x) && self@ == Set::<nat>::empty().insert(x as nat)),
            self@.len() != 1 ==> r is None,
    {
        proof {
            use_type_invariant(self);
            lemma_in_word_finite(self@);
        }
        if self.len() == 1 {
            let f = dense_first_set(self.l);
            proof {
                assert(self@ != Set::<nat>::empty());
                assert(self@ =~= Set::<nat>::empty().insert(f as nat)) by {
                    assert(self@.contains(f as nat));
                    assert forall|k: nat| self@.contains(k) implies k == f as nat by {
                        if k != f as nat {
                            let two = Set::<nat>::empty().insert(f as nat).insert(k);
                            assert(two.subset_of(self@));
                            vstd::set_lib::lemma_len_subset(two, self@);
                        }
                    }
                }
            }
            Some(f as LayerId)
        } else {
            None
        }
    }

    /// The lowest layer of the set; none if it is empty.
    pub fn first(&self) -> (r: Option<LayerId>)
        ensures
            self@.len() == 0 ==> r is None,
            self@.len() != 0 ==> (r matches Some(x) && self@.contains(x as nat) && (forall|k: nat|
                self@.contains(k) ==> x <= k)),
    {
        proof {
            use_type_invariant(self);
            lemma_in_word_finite(self@);
        }
        if !self.is_empty() {
            let f = dense_first_set(self.l);
            proof {
                assert(self@ != Set::<nat>::empty());
            }
            Some(f as LayerId)
        } else {
            None
        }
    }

    /// Whether the set holds layer `layer`, which must be below 64.
    pub fn contains(&self, layer: LayerId) -> (r: bool)
        requires
            layer < 64,
        ensures
            r == self@.contains(layer as nat),
    {
        dense_get_bit(&self.l, layer)
    }

    /// Whether every layer of `layers` is in this set.
    pub fn contains_set(&self, layers: LayerSet) -> (r: bool)
        ensures
            r == layers@.subset_of(self@),
    {
        let u = dense_or(self.l, layers.l);
        let r = dense_eq(&u, &self.l);
        proof {
            if layers@.subset_of(self@) {
                assert(dense_bits(u) =~= self@);
            } else {
                let k = choose|k: nat| layers@.contains(k) && !self@.contains(k);
                assert(dense_bits(u).contains(k));
            }
        }
        r
    }

    /// The union of the two sets.
    pub fn union(&self, o: &LayerSet) -> (r: LayerSet)
        ensures
            r@ == self@.union(o@),
    {
        proof {
            use_type_invariant(self);
            use_type_invariant(o);
        }
        LayerSet { l: dense_or(self.l, o.l) }
    }

    /// The intersection of the two sets.
    pub fn intersect(&self, o: &LayerSet) -> (r: LayerSet)
        ensures
            r@ == self@.intersect(o@),
    {
        proof {
            use_type_invariant(self);
        }
        LayerSet { l: dense_and(self.l, o.l) }
    }

    /// Adds layer `layer`, which must be below 64.
    pub fn insert(&mut self, layer: LayerId)
        requires
            layer < 64,
        ensures
            final(self)@ == old(self)@.insert(layer as nat),
    {
        proof {
            use_type_invariant(&*self);
        }
        let mut l = self.l;
        dense_set_bit(&mut l, layer, true);
        *self = LayerSet { l };
    }

    /// Removes layer `layer`, which must be below 64.
    pub fn remove(&mut self, layer: LayerId)
        requires
            layer < 64,
        ensures
            final(self)@ == old(self)@.remove(layer as nat),
    {
        proof {
            use_type_invariant(&*self);
        }
        let mut l = self.l;
        dense_set_bit(&mut l, layer, false);
        *self = LayerSet { l };
    }

    /// Turns the set over for a stack of `num_layers` layers, as when a
    /// component moves from the front to the back: layer `k` becomes layer
    /// `num_layers - 1 - k`. This rests on the layers being numbered in the
    /// order of the physical stackup.
    pub fn flip(&mut self, num_layers: usize)
        requires
            num_layers <= 64,
        ensures
            final(self)@ == spec_flip(old(self)@, num_layers as nat),
    {
        let mut l = dense_reverse(self.l);
        dense_shr_assign(&mut l, 64 - num_layers);
        proof {
            let n = num_layers as nat;
            let rev = Set::new(|k: nat| k < 64 && old(self)@.contains((63 - k) as nat));
            assert(dense_bits(l) =~= spec_flip(old(self)@, n)) by {
                assert forall|k: nat| dense_bits(l).contains(k) <==> spec_flip(old(self)@, n).contains(k) by {
                    if k < n {
                        assert((63 - (k + (64 - n))) as nat == (n - 1 - k) as nat);
                    }
                }
            }
        }
        *self = LayerSet { l };
    }

    /// The layers of the set, lowest first, one at a time.
    pub fn iter(&self) -> (r: BitSetIterator)
        ensures
            r@ == self@,
    {
        proof {
            use_type_invariant(self);
        }
        BitSetIterator::new(self.l)
    }

    /// The set of the layers in `ids`, each below 64.
    pub fn from_ids(ids: &[LayerId]) -> (r: LayerSet)
        requires
            forall|k: int| 0 <= k < ids@.len() ==> ids@[k] < 64,
        ensures
            forall|x: nat| r@.contains(x) <==> exists|k: int| 0 <= k < ids@.len() && ids@[k] == x,
    {
        let mut r = LayerSet::empty();
        let mut i: usize = 0;
        while i < ids.len()
            invariant
                i <= ids@.len(),
                forall|k: int| 0 <= k < ids@.len() ==> ids@[k] < 64,
                forall|x: nat| r@.contains(x) <==> exists|k: int| 0 <= k < i && ids@[k] == x,
            decreases ids@.len() - i,
        {
            r.insert(ids[i]);
            proof {
                assert forall|x: nat| r@.contains(x) <==> exists|k: int| 0 <= k < i + 1 && ids@[k] == x by {
                    if x == ids@[i as int] {
                        assert(ids@[i as int] == x);
                    }
                }
            }
            i = i + 1;
        }
        r
    }
}

/// The layers of a set, handed out lowest first.
pub struct BitSetIterator {
    l: DenseBitSet,
}

impl View for BitSetIterator {
    /// The layers not yet handed out.
    type V = Set<nat>;

    closed spec fn view(&self) -> Set<nat> {
        dense_bits(self.l)
    }
}

impl BitSetIterator {
    #[verifier::type_invariant]
    closed spec fn inv(self) -> bool {
        in_word(dense_bits(self.l))
    }

    /// An iterator over the set bits of `l`.
    pub fn new(l: DenseBitSet) -> (r: Self)
        requires
            in_word(dense_bits(l)),
        ensures
            r@ == dense_bits(l),
    {
        BitSetIterator { l }
    }

    /// The lowest layer not yet handed out, which it then drops; none once
    /// all are out.
    pub fn next(&mut self) -> (r: Option<LayerId>)
        ensures
            old(self)@ == Set::<nat>::empty() ==> r is None && final(self)@ == old(self)@,
            old(self)@ != Set::<nat>::empty() ==> (r matches Some(x) && old(self)@.contains(x as nat)
                && (forall|k: nat| old(self)@.contains(k) ==> x <= k) && final(self)@ == old(
                self,
            )@.remove(x as nat)),
    {
        proof {
            use_type_invariant(&*self);
        }
        if dense_any(self.l) {
            let id = dense_first_set(self.l);
            let mut l = self.l;
            dense_set_bit(&mut l, id as usize, false);
            *self = BitSetIterator { l };
            Some(id as LayerId)
        } else {
            None
        }
    }
}

/// A layer of the board.
#[derive(PartialEq, Eq, Structural, Debug, Copy, Clone)]
pub struct Layer {
    pub name_id: Id,
    /// Less than 64.
    pub layer_id: LayerId,
    pub kind: LayerKind,
}

/// `Keepout` forbids all routing, `ViaKeepout` vias, `WireKeepout` wires.
#[derive(PartialEq, Eq, Structural, Debug, Copy, Clone)]
pub enum KeepoutType {
    Keepout,
    ViaKeepout,
    WireKeepout,
}

/// A pin of a component, by the IDs of both.
#[derive(PartialEq, Eq, Structural, Debug, Default, Copy, Clone, Hash)]
pub struct PinRef {
    pub component: Id,
    pub pin: Id,
}

/// A net: the pins that it connects.
#[derive(Debug, Default, Clone)]
pub struct Net {
    pub id: Id,
    pub pins: Vec<PinRef>,
}

/// The kinds of object that clearance rules speak of.
#[derive(PartialEq, Eq, Structural, Debug, Copy, Clone, Hash)]
pub enum ObjectKind {
    /// Keepouts, boundaries and conducting shapes (fills).
    Area,
    /// Through-hole pins.
    Pin,
    /// Surface-mount pads.
    Smd,
    Via,
    Wire,
}

impl LayerKind {
    /// Every kind of layer, `All` first.
    pub fn all_kinds() -> (r: [LayerKind; 5])
        ensures
            r@ == seq![LayerKind::All, LayerKind::Signal, LayerKind::Power, LayerKind::Mixed, LayerKind::Jumper],
    {
        let r = [LayerKind::All, LayerKind::Signal, LayerKind::Power, LayerKind::Mixed, LayerKind::Jumper];
        assert(r@ =~= seq![LayerKind::All, LayerKind::Signal, LayerKind::Power, LayerKind::Mixed, LayerKind::Jumper]);
        r
    }

    /// The name under which a session file writes a set of all layers of
    /// this kind.
    pub open spec fn spec_name(&self) -> Seq<char> {
        match self {
            LayerKind::All => "all"@,
            LayerKind::Signal => "signal"@,
            LayerKind::Power => "power"@,
            LayerKind::Mixed => "mixed"@,
            LayerKind::Jumper => "jumper"@,
        }
    }

    /// The name under which a session file writes a set of all layers of
    /// this kind.
    pub fn name(&self) -> (s: String)
        ensures
            s@ == self.spec_name(),
    {
        match self {
            LayerKind::All => "all".to_owned(),
            LayerKind::Signal => "signal".to_owned(),
            LayerKind::Power => "power".to_owned(),
            LayerKind::Mixed => "mixed".to_owned(),
            LayerKind::Jumper => "jumper".to_owned(),
        }
    }
}

/// True iff every layer's ID is below 64.
pub open spec fn layer_ids_in_word(layers: Seq<Layer>) -> bool {
    forall|k: int| 0 <= k < layers.len() ==> #[trigger] layers[k].layer_id < 64
}

/// The IDs of the layers of kind `kind`, or of all layers for `All`.
pub open spec fn spec_layers_by_kind(layers: Seq<Layer>, kind: LayerKind) -> Set<nat> {
    Set::new(
        |x: nat|
            exists|k: int|
                0 <= k < layers.len() && layers[k].layer_id == x && (kind == LayerKind::All
                    || layers[k].kind == kind),
    )
}

/// The set of the layers of kind `kind`; every layer for `All`.
pub fn layers_by_kind(layers: &[Layer], kind: LayerKind) -> (r: LayerSet)
    requires
        layer_ids_in_word(layers@),
    ensures
        r@ == spec_layers_by_kind(layers@, kind),
{
    let mut r = LayerSet::empty();
    let mut i: usize = 0;
    while i < layers.len()
        invariant
            i <= layers@.len(),
            layer_ids_in_word(layers@),
            forall|x: nat|
                r@.contains(x) <==> exists|k: int|
                    0 <= k < i && layers@[k].layer_id == x && (kind == LayerKind::All
                        || layers@[k].kind == kind),
        decreases layers@.len() - i,
    {
        let l = layers[i];
        if kind == LayerKind::All || l.kind == kind {
            r.insert(l.layer_id);
        }
        proof {
            assert forall|x: nat|
                r@.contains(x) <==> exists|k: int|
                    0 <= k < i + 1 && layers@[k].layer_id == x && (kind == LayerKind::All
                        || layers@[k].kind == kind) by {
                if x == l.layer_id && (kind == LayerKind::All || l.kind == kind) {
                    assert(layers@[i as int] == l);
                }
            }
        }
        i = i + 1;
    }
    assert(r@ =~= spec_layers_by_kind(layers@, kind));
    r
}

/// The index of the first layer with ID `lid`.
pub open spec fn first_with_id(layers: Seq<Layer>, lid: LayerId) -> int {
    choose|k: int|
        0 <= k < layers.len() && layers[k].layer_id == lid && (forall|j: int|
            0 <= j < k ==> layers[j].layer_id != lid)
}

/// The first layer with ID `lid`, which must exist.
pub fn layer_by_id(layers: &[Layer], lid: LayerId) -> (r: &Layer)
    requires
        exists|k: int| 0 <= k < layers@.len() && layers@[k].layer_id == lid,
    ensures
        0 <= first_with_id(layers@, lid) < layers@.len(),
        *r == layers@[first_with_id(layers@, lid)],
        r.layer_id == lid,
{
    let mut i: usize = 0;
    while i < layers.len()
        invariant
            i <= layers@.len(),
            exists|k: int| i <= k < layers@.len() && layers@[k].layer_id == lid,
            forall|j: int| 0 <= j < i ==> layers@[j].layer_id != lid,
        decreases layers@.len() - i,
    {
        if layers[i].layer_id == lid {
            proof {
                let k = first_with_id(layers@, lid);
                if k < i {
                    assert(layers@[k].layer_id != lid);
                } else if k > i {
                    assert(layers@[i as int].layer_id == lid);
                }
            }
            return &layers[i];
        }
        i = i + 1;
    }
    proof {
        let k = choose|k: int| i <= k < layers@.len() && layers@[k].layer_id == lid;
    }
    &layers[0]
}

impl PartialEq for LayerSet {
    fn eq(&self, other: &Self) -> (r: bool) {
        dense_eq(&self.l, &other.l)
    }
}

impl vstd::std_specs::cmp::PartialEqSpecImpl for LayerSet {
    open spec fn obeys_eq_spec() -> bool {
        true
    }

    open spec fn eq_spec(&self, other: &Self) -> bool {
        self@ == other@
    }
}

/// The name under which a session file writes the layers of `l`: the name of
/// its layer if it holds exactly one, else the name of the first kind (in the
/// order of `LayerKind::all_kinds`) whose layers it is, else none.
pub open spec fn spec_layer_id(layers: Seq<Layer>, names: Seq<Seq<char>>, l: Set<nat>) -> Option<
    Seq<char>,
> {
    if l.len() == 1 {
        Some(names[layers[first_with_id(layers, l.choose() as LayerId)].name_id as int])
    } else if l == spec_layers_by_kind(layers, LayerKind::All) {
        Some("all"@)
    } else if l == spec_layers_by_kind(layers, LayerKind::Signal) {
        Some("signal"@)
    } else if l == spec_layers_by_kind(layers, LayerKind::Power) {
        Some("power"@)
    } else if l == spec_layers_by_kind(layers, LayerKind::Mixed) {
        Some("mixed"@)
    } else if l == spec_layers_by_kind(layers, LayerKind::Jumper) {
        Some("jumper"@)
    } else {
        None
    }
}

/// True iff every layer's ID is below 64 and every layer's name is in
/// `names`.
pub open spec fn layers_named(layers: Seq<Layer>, names: Seq<Seq<char>>) -> bool {
    &&& layer_ids_in_word(layers)
    &&& forall|k: int| 0 <= k < layers.len() ==> #[trigger] layers[k].name_id < names.len()
}

/// The name of the one layer of a set.
fn single_layer_name(layers: &[Layer], names: &NameMap, lid: LayerId) -> (r: String)
    requires
        layers_named(layers@, names@),
        exists|k: int| 0 <= k < layers@.len() && layers@[k].layer_id == lid,
    ensures
        r@ == names@[layers@[first_with_id(layers@, lid)].name_id as int],
{
    let layer = layer_by_id(layers, lid);
    proof {
        assert(layers@[first_with_id(layers@, lid)].name_id < names@.len());
    }
    names.name(layer.name_id).to_owned()
}

/// Finds the name under which a session file writes the layers of `l`.
pub fn layer_id(layers: &[Layer], names: &NameMap, l: LayerSet) -> (r: Option<String>)
    requires
        layers_named(layers@, names@),
        l@.len() == 1 ==> exists|k: int|
            0 <= k < layers@.len() && layers@[k].layer_id == l@.choose() as LayerId,
    ensures
        match spec_layer_id(layers@, names@, l@) {
            Some(s) => r matches Some(x) && x@ == s,
            None => r is None,
        },
{
    if let Some(lid) = l.id() {
        proof {
            assert(l@.contains(lid as nat));
            assert(l@.choose() == lid as nat);
        }
        Some(single_layer_name(layers, names, lid))
    } else {
        let kinds = LayerKind::all_kinds();
        let mut i: usize = 0;
        while i < 5
            invariant
                i <= 5,
                kinds@ == seq![LayerKind::All, LayerKind::Signal, LayerKind::Power, LayerKind::Mixed, LayerKind::Jumper],
                layers_named(layers@, names@),
                l@.len() != 1,
                forall|j: int| 0 <= j < i ==> l@ != spec_layers_by_kind(layers@, #[trigger] kinds@[j]),
            decreases 5 - i,
        {
            let kind = kinds[i];
            let by_kind = layers_by_kind(layers, kind);
            if l == by_kind {
                return Some(kind.name());
            }
            i = i + 1;
        }
        None
    }
}

impl ObjectKind {
    /// The bit of this kind in a mask of kinds: its place in the list of
    /// kinds.
    pub open spec fn spec_bit(&self) -> nat {
        match self {
            ObjectKind::Area => 0,
            ObjectKind::Pin => 1,
            ObjectKind::Smd => 2,
            ObjectKind::Via => 3,
            ObjectKind::Wire => 4,
        }
    }

    /// The mask of kinds that holds this kind only.
    pub fn query(&self) -> (k: Kinds)
        ensures
            dense_bits(k.0) == Set::<nat>::empty().insert(self.spec_bit()),
    {
        let bit: u64 = match self {
            ObjectKind::Area => 0,
            ObjectKind::Pin => 1,
            ObjectKind::Smd => 2,
            ObjectKind::Via => 3,
            ObjectKind::Wire => 4,
        };
        let l = dense_from_integer(1u64 << bit);
        proof {
            lemma_single_bit(bit);
        }
        Kinds(l)
    }
}

impl ObjectKind {
    /// The bit of this kind in a mask of kinds.
    fn bit(&self) -> (b: usize)
        ensures
            b == self.spec_bit(),
            b < 5,
    {
        match self {
            ObjectKind::Area => 0,
            ObjectKind::Pin => 1,
            ObjectKind::Smd => 2,
            ObjectKind::Via => 3,
            ObjectKind::Wire => 4,
        }
    }
}

/// The bits of the kinds that `kind` is paired with in `pairs`, on either
/// side of a pair.
pub open spec fn paired_kinds(pairs: Seq<(ObjectKind, ObjectKind)>, kind: ObjectKind) -> Set<nat> {
    Set::new(
        |b: nat|
            exists|i: int|
                0 <= i < pairs.len() && ((pairs[i].0 == kind && pairs[i].1.spec_bit() == b) || (
                pairs[i].1 == kind && pairs[i].0.spec_bit() == b)),
    )
}

/// A clearance rule: the distance it keeps, and for each kind of object the
/// kinds it keeps that kind apart from.
#[derive(Debug, Copy, Clone)]
pub struct Clearance {
    amount: DsnNumber,
    area_kinds: Kinds,
    pin_kinds: Kinds,
    smd_kinds: Kinds,
    via_kinds: Kinds,
    wire_kinds: Kinds,
}

impl Clearance {
    /// The distance that the rule keeps.
    pub closed spec fn spec_amount(&self) -> DsnNumber {
        self.amount
    }

    /// The bits of the kinds that the rule keeps `kind` apart from.
    pub closed spec fn spec_subset(&self, kind: ObjectKind) -> Set<nat> {
        match kind {
            ObjectKind::Area => dense_bits(self.area_kinds.0),
            ObjectKind::Pin => dense_bits(self.pin_kinds.0),
            ObjectKind::Smd => dense_bits(self.smd_kinds.0),
            ObjectKind::Via => dense_bits(self.via_kinds.0),
            ObjectKind::Wire => dense_bits(self.wire_kinds.0),
        }
    }

    /// The rule that keeps `amount` between the two kinds of each pair of
    /// `pairs`, both ways round.
    pub fn new(amount: DsnNumber, pairs: &[(ObjectKind, ObjectKind)]) -> (c: Self)
        ensures
            c.spec_amount() == amount,
            forall|k: ObjectKind| #[trigger] c.spec_subset(k) == paired_kinds(pairs@, k),
    {
        let mut c = Clearance {
            amount,
            area_kinds: Kinds(dense_new()),
            pin_kinds: Kinds(dense_new()),
            smd_kinds: Kinds(dense_new()),
            via_kinds: Kinds(dense_new()),
            wire_kinds: Kinds(dense_new()),
        };
        let mut i: usize = 0;
        proof {
            assert forall|k: ObjectKind| #[trigger] c.spec_subset(k) == paired_kinds(pairs@.take(0), k) by {
                assert(paired_kinds(pairs@.take(0), k) =~= Set::<nat>::empty());
            }
        }
        while i < pairs.len()
            invariant
                i <= pairs@.len(),
                c.amount == amount,
                forall|k: ObjectKind| #[trigger] c.spec_subset(k) == paired_kinds(pairs@.take(i as int), k),
            decreases pairs@.len() - i,
        {
            let (a, b) = pairs[i];
            let ghost before = c;
            let sa = c.subset_for_mut(a);
            dense_set_bit(&mut sa.0, b.bit(), true);
            let ghost mid = c;
            let sb = c.subset_for_mut(b);
            dense_set_bit(&mut sb.0, a.bit(), true);
            proof {
                let t0 = pairs@.take(i as int);
                let t1 = pairs@.take(i + 1);
                assert forall|k: ObjectKind| #[trigger] c.spec_subset(k) == paired_kinds(t1, k) by {
                    assert forall|x: nat| paired_kinds(t1, k).contains(x) <==> c.spec_subset(k).contains(x) by {
                        if paired_kinds(t0, k).contains(x) {
                            let j = choose|j: int|
                                0 <= j < t0.len() && ((t0[j].0 == k && t0[j].1.spec_bit() == x) || (t0[j].1 == k
                                    && t0[j].0.spec_bit() == x));
                            assert(t1[j] == t0[j]);
                        }
                        if paired_kinds(t1, k).contains(x) {
                            let j = choose|j: int|
                                0 <= j < t1.len() && ((t1[j].0 == k && t1[j].1.spec_bit() == x) || (t1[j].1 == k
                                    && t1[j].0.spec_bit() == x));
                            if j < i {
                                assert(t0[j] == t1[j]);
                            }
                        }
                        if k == a && x == b.spec_bit() {
                            assert(t1[i as int] == (a, b));
                        }
                        if k == b && x == a.spec_bit() {
                            assert(t1[i as int] == (a, b));
                        }
                    }
                    assert(paired_kinds(t1, k) =~= c.spec_subset(k));
                }
            }
            i = i + 1;
        }
        assert(pairs@.take(pairs@.len() as int) =~= pairs@);
        c
    }

    /// The kinds that the rule keeps `kind` apart from.
    pub fn subset_for(&self, kind: ObjectKind) -> (r: Kinds)
        ensures
            dense_bits(r.0) == self.spec_subset(kind),
    {
        match kind {
            ObjectKind::Area => self.area_kinds,
            ObjectKind::Pin => self.pin_kinds,
            ObjectKind::Smd => self.smd_kinds,
            ObjectKind::Via => self.via_kinds,
            ObjectKind::Wire => self.wire_kinds,
        }
    }

    /// The kinds that the rule keeps `kind` apart from, to change.
    fn subset_for_mut(&mut self, kind: ObjectKind) -> (r: &mut Kinds)
        ensures
            dense_bits(r.0) == old(self).spec_subset(kind),
            final(self).amount == old(self).amount,
            final(self).spec_subset(kind) == dense_bits(final(r).0),
            forall|k: ObjectKind| k != kind ==> #[trigger] final(self).spec_subset(k) == old(self).spec_subset(k),
    {
        match kind {
            ObjectKind::Area => &mut self.area_kinds,
            ObjectKind::Pin => &mut self.pin_kinds,
            ObjectKind::Smd => &mut self.smd_kinds,
            ObjectKind::Via => &mut self.via_kinds,
            ObjectKind::Wire => &mut self.wire_kinds,
        }
    }
}

/// A clearance rule keeps one kind apart from another exactly when it keeps
/// the other apart from the one.
pub proof fn lemma_clearance_symmetric(pairs: Seq<(ObjectKind, ObjectKind)>, a: ObjectKind, b: ObjectKind)
    ensures
        paired_kinds(pairs, a).contains(b.spec_bit()) <==> paired_kinds(pairs, b).contains(a.spec_bit()),
{
    assert forall|x: ObjectKind, y: ObjectKind| x.spec_bit() == y.spec_bit() implies x == y by {}
}

/// The key under which a pin reference is filed: the component and the pin
/// side by side in one 128-bit integer.
pub open spec fn pin_key(p: PinRef) -> u128 {
    (p.component as int * 0x1_0000_0000_0000_0000 + p.pin as int) as u128
}

/// Two pin references have the same key only if they are the same.
pub proof fn lemma_pin_key_injective(a: PinRef, b: PinRef)
    ensures
        pin_key(a) == pin_key(b) ==> a == b,
{
    assert(a.pin < 0x1_0000_0000_0000_0000 && b.pin < 0x1_0000_0000_0000_0000) by {
        assert(usize::MAX < 0x1_0000_0000_0000_0000);
    }
}

/// The key under which a pin reference is filed.
fn pin_ref_key(p: &PinRef) -> (k: u128)
    ensures
        k == pin_key(*p),
{
    assert(p.component < 0x1_0000_0000_0000_0000 && p.pin < 0x1_0000_0000_0000_0000) by {
        assert(usize::MAX < 0x1_0000_0000_0000_0000);
    }
    (p.component as u128) * 0x1_0000_0000_0000_0000u128 + (p.pin as u128)
}

/// A board: its name, the names of its objects, its layers, its nets and
/// the rule sets that the nets follow.
#[derive(Debug, Clone)]
pub struct Pcb {
    id: Id,
    name_map: NameMap,
    layers: Vec<Layer>,
    nets: HashMap<Id, Net>,
    pin_ref_to_net: HashMap<u128, Id>,
    net_to_ruleset: HashMap<Id, Id>,
    default_net_ruleset: Id,
}

impl Pcb {
    /// The ID of the board's name.
    pub closed spec fn spec_id(&self) -> Id {
        self.id
    }

    /// The names, by ID.
    pub closed spec fn spec_names(&self) -> Seq<Seq<char>> {
        self.name_map@
    }

    /// The layers, in the order they were added.
    pub closed spec fn spec_layers(&self) -> Seq<Layer> {
        self.layers@
    }

    /// The nets, by ID.
    pub closed spec fn spec_nets(&self) -> Map<Id, Net> {
        self.nets@
    }

    /// The nets of the board, each once, in the order in which the map of
    /// nets is walked.
    pub fn nets(&self) -> (r: Vec<&Net>)
        ensures
            r@.len() == self.spec_nets().dom().len(),
            forall|i: int| 0 <= i < r@.len() ==> self.spec_nets().values().contains(*#[trigger] r@[i]),
            forall|n: Net| #[trigger] self.spec_nets().values().contains(n) ==> exists|i: int|
                0 <= i < r@.len() && *r@[i] == n,
    {
        broadcast use vstd::std_specs::hash::group_hash_axioms;

        let mut v: Vec<&Net> = Vec::new();
        let ghost all = vstd::std_specs::iter::IteratorSpec::remaining(&vstd::std_specs::hash::spec_values_iter(&self.nets));
        for n in it: self.nets.values()
            invariant
                it.seq() == all,
                v@ == all.take(it.index() as int),
            ensures
                v@ == all,
        {
            v.push(n);
            assert(v@ =~= all.take(it.index() + 1));
        }
        proof {
            assert forall|n: Net| #[trigger] self.spec_nets().values().contains(n) implies exists|i: int|
                0 <= i < v@.len() && *v@[i] == n by {
                assert(all.unref().to_set().contains(n));
                let i = choose|i: int| 0 <= i < all.unref().len() && all.unref()[i] == n;
                assert(*v@[i] == n);
            }
            assert forall|i: int| 0 <= i < v@.len() implies self.spec_nets().values().contains(*#[trigger] v@[i]) by {
                assert(all.unref()[i] == *v@[i]);
                assert(all.unref().to_set().contains(*v@[i]));
            }
        }
        v
    }

    /// The net that pin `p` is filed under, if any.
    pub closed spec fn spec_pin_net(&self, p: PinRef) -> Option<Id> {
        if self.pin_ref_to_net@.contains_key(pin_key(p)) {
            Some(self.pin_ref_to_net@[pin_key(p)])
        } else {
            None
        }
    }

    /// The rule sets given to single nets, by net ID.
    pub closed spec fn spec_net_rulesets(&self) -> Map<Id, Id> {
        self.net_to_ruleset@
    }

    /// The rule set of the nets that were given none.
    pub closed spec fn spec_default_ruleset(&self) -> Id {
        self.default_net_ruleset
    }

    /// The rule set that net `net_id` follows: its own if it was given one,
    /// else the default.
    pub open spec fn spec_net_ruleset(&self, net_id: Id) -> Id {
        if self.spec_net_rulesets().contains_key(net_id) {
            self.spec_net_rulesets()[net_id]
        } else {
            self.spec_default_ruleset()
        }
    }

    /// Well-formedness: the names are a well-formed table.
    pub open spec fn names_wf(&self) -> bool {
        &&& crate::name::distinct_names(self.spec_names())
        &&& self.spec_names().len() <= NO_ID
    }

    /// A board with nothing on it; its name and default rule set have ID 0.
    pub fn new() -> (r: Self)
        ensures
            r.names_wf(),
            r.spec_id() == 0,
            r.spec_names() == Seq::<Seq<char>>::empty(),
            r.spec_layers() == Seq::<Layer>::empty(),
            r.spec_nets() == Map::<Id, Net>::empty(),
            forall|p: PinRef| r.spec_pin_net(p) is None,
            r.spec_net_rulesets() == Map::<Id, Id>::empty(),
            r.spec_default_ruleset() == 0,
    {
        broadcast use vstd::std_specs::hash::group_hash_axioms;

        Pcb {
            id: 0,
            name_map: NameMap::new(),
            layers: Vec::new(),
            nets: HashMap::new(),
            pin_ref_to_net: HashMap::new(),
            net_to_ruleset: HashMap::new(),
            default_net_ruleset: 0,
        }
    }

    /// The number of IDs handed out so far.
    pub fn name_count(&self) -> (r: usize)
        ensures
            r == self.spec_names().len(),
    {
        self.name_map.len()
    }

    /// The name that ID `id` stands for; the ID must have been handed out.
    pub fn to_name(&self, id: Id) -> (s: String)
        requires
            id < self.spec_names().len(),
        ensures
            s@ == self.spec_names()[id as int],
    {
        self.name_map.name(id).to_owned()
    }

    /// The ID of `name`, handing out the next one if the name is new.
    pub fn to_id(&mut self, name: &str) -> (id: Id)
        requires
            old(self).names_wf(),
        ensures
            (final(self).spec_names(), id) == spec_lookup(old(self).spec_names(), name@),
            final(self).names_wf(),
            final(self).spec_id() == old(self).spec_id(),
            final(self).spec_layers() == old(self).spec_layers(),
            final(self).spec_nets() == old(self).spec_nets(),
            forall|p: PinRef| final(self).spec_pin_net(p) == old(self).spec_pin_net(p),
            final(self).spec_net_rulesets() == old(self).spec_net_rulesets(),
            final(self).spec_default_ruleset() == old(self).spec_default_ruleset(),
    {
        self.name_map.name_to_id(name)
    }

    /// The table of names, to look names up in; nothing else of the board
    /// changes through it.
    pub fn names_mut(&mut self) -> (r: &mut NameMap)
        ensures
            r@ == old(self).spec_names(),
            final(self).spec_names() == final(r)@,
            final(self).spec_id() == old(self).spec_id(),
            final(self).spec_layers() == old(self).spec_layers(),
            final(self).spec_nets() == old(self).spec_nets(),
            forall|p: PinRef| final(self).spec_pin_net(p) == old(self).spec_pin_net(p),
            final(self).spec_net_rulesets() == old(self).spec_net_rulesets(),
            final(self).spec_default_ruleset() == old(self).spec_default_ruleset(),
    {
        &mut self.name_map
    }

    /// Names the board `name`.
    pub fn set_pcb_name(&mut self, name: &str)
        requires
            old(self).names_wf(),
        ensures
            final(self).names_wf(),
            (final(self).spec_names(), final(self).spec_id()) == spec_lookup(
                old(self).spec_names(),
                name@,
            ),
            final(self).spec_layers() == old(self).spec_layers(),
            final(self).spec_nets() == old(self).spec_nets(),
            forall|p: PinRef| final(self).spec_pin_net(p) == old(self).spec_pin_net(p),
            final(self).spec_net_rulesets() == old(self).spec_net_rulesets(),
            final(self).spec_default_ruleset() == old(self).spec_default_ruleset(),
    {
        self.id = self.to_id(name);
    }

    /// The ID of the board's name.
    pub fn pcb_id(&self) -> (r: Id)
        ensures
            r == self.spec_id(),
    {
        self.id
    }

    /// Adds a layer after the others.
    pub fn add_layer(&mut self, l: Layer)
        ensures
            final(self).spec_layers() == old(self).spec_layers().push(l),
            final(self).spec_id() == old(self).spec_id(),
            final(self).spec_names() == old(self).spec_names(),
            final(self).spec_nets() == old(self).spec_nets(),
            forall|p: PinRef| final(self).spec_pin_net(p) == old(self).spec_pin_net(p),
            final(self).spec_net_rulesets() == old(self).spec_net_rulesets(),
            final(self).spec_default_ruleset() == old(self).spec_default_ruleset(),
    {
        self.layers.push(l);
    }

    /// The layers, in the order they were added.
    pub fn layers(&self) -> (r: &[Layer])
        ensures
            r@ == self.spec_layers(),
    {
        self.layers.as_slice()
    }

    /// The set of the layers of kind `kind`; every layer for `All`.
    pub fn layers_by_kind(&self, kind: LayerKind) -> (r: LayerSet)
        requires
            layer_ids_in_word(self.spec_layers()),
        ensures
            r@ == spec_layers_by_kind(self.spec_layers(), kind),
    {
        layers_by_kind(self.layers.as_slice(), kind)
    }

    /// The first layer with ID `lid`, which must exist.
    pub fn layer_by_id(&self, lid: LayerId) -> (r: &Layer)
        requires
            exists|k: int| 0 <= k < self.spec_layers().len() && self.spec_layers()[k].layer_id == lid,
        ensures
            *r == self.spec_layers()[first_with_id(self.spec_layers(), lid)],
    {
        layer_by_id(self.layers.as_slice(), lid)
    }

    /// The name under which a session file writes the layers of `l` (see
    /// `layer_id`).
    pub fn layer_id(&self, l: LayerSet) -> (r: Option<String>)
        requires
            layers_named(self.spec_layers(), self.spec_names()),
            l@.len() == 1 ==> exists|k: int|
                0 <= k < self.spec_layers().len() && self.spec_layers()[k].layer_id == l@.choose() as LayerId,
        ensures
            match spec_layer_id(self.spec_layers(), self.spec_names(), l@) {
                Some(s) => r matches Some(x) && x@ == s,
                None => r is None,
            },
    {
        layer_id(self.layers.as_slice(), &self.name_map, l)
    }

    /// Adds net `n`, replacing any net with its ID, and files each of its
    /// pins under it.
    pub fn add_net(&mut self, n: Net)
        ensures
            final(self).spec_nets() == old(self).spec_nets().insert(n.id, n),
            forall|p: PinRef|
                #[trigger] final(self).spec_pin_net(p) == if n.pins@.contains(p) {
                    Some(n.id)
                } else {
                    old(self).spec_pin_net(p)
                },
            final(self).spec_id() == old(self).spec_id(),
            final(self).spec_names() == old(self).spec_names(),
            final(self).spec_layers() == old(self).spec_layers(),
            final(self).spec_net_rulesets() == old(self).spec_net_rulesets(),
            final(self).spec_default_ruleset() == old(self).spec_default_ruleset(),
    {
        broadcast use vstd::std_specs::hash::group_hash_axioms;

        let mut i: usize = 0;
        while i < n.pins.len()
            invariant
                i <= n.pins@.len(),
                self.nets@ == old(self).nets@,
                self.id == old(self).id,
                self.name_map@ == old(self).name_map@,
                self.layers@ == old(self).layers@,
                self.net_to_ruleset@ == old(self).net_to_ruleset@,
                self.default_net_ruleset == old(self).default_net_ruleset,
                forall|k: u128|
                    #[trigger] self.pin_ref_to_net@.contains_key(k) <==> (old(
                        self,
                    ).pin_ref_to_net@.contains_key(k) || exists|j: int|
                        0 <= j < i && pin_key(n.pins@[j]) == k),
                forall|k: u128|
                    #[trigger] self.pin_ref_to_net@.contains_key(k) ==> self.pin_ref_to_net@[k] == if exists|j: int|
                        0 <= j < i && pin_key(n.pins@[j]) == k {
                        n.id
                    } else {
                        old(self).pin_ref_to_net@[k]
                    },
            decreases n.pins@.len() - i,
        {
            let key = pin_ref_key(&n.pins[i]);
            self.pin_ref_to_net.insert(key, n.id);
            i = i + 1;
        }
        proof {
            assert forall|p: PinRef|
                #[trigger] self.spec_pin_net(p) == if n.pins@.contains(p) {
                    Some(n.id)
                } else {
                    old(self).spec_pin_net(p)
                } by {
                if n.pins@.contains(p) {
                    let j = choose|j: int| 0 <= j < n.pins@.len() && n.pins@[j] == p;
                    assert(self.pin_ref_to_net@.contains_key(pin_key(p)));
                } else {
                    assert forall|j: int| 0 <= j < n.pins@.len() implies pin_key(n.pins@[j]) != pin_key(p) by {
                        lemma_pin_key_injective(n.pins@[j], p);
                    }
                }
            }
        }
        let id = n.id;
        self.nets.insert(id, n);
    }

    /// The net with ID `id`, if any.
    pub fn net(&self, id: Id) -> (r: Option<&Net>)
        ensures
            match r {
                Some(n) => self.spec_nets().contains_key(id) && *n == self.spec_nets()[id],
                None => !self.spec_nets().contains_key(id),
            },
    {
        broadcast use vstd::std_specs::hash::group_hash_axioms;

        self.nets.get(&id)
    }

    /// The net that pin `p` is filed under, if any.
    pub fn pin_ref_net(&self, p: &PinRef) -> (r: Option<Id>)
        ensures
            r == self.spec_pin_net(*p),
    {
        broadcast use vstd::std_specs::hash::group_hash_axioms;

        let key = pin_ref_key(p);
        match self.pin_ref_to_net.get(&key) {
            Some(id) => Some(*id),
            None => None,
        }
    }

    /// Makes `id` the rule set of the nets that were given none.
    pub fn set_default_net_ruleset(&mut self, id: Id)
        ensures
            final(self).spec_default_ruleset() == id,
            final(self).spec_net_rulesets() == old(self).spec_net_rulesets(),
            final(self).spec_id() == old(self).spec_id(),
            final(self).spec_names() == old(self).spec_names(),
            final(self).spec_layers() == old(self).spec_layers(),
            final(self).spec_nets() == old(self).spec_nets(),
            forall|p: PinRef| final(self).spec_pin_net(p) == old(self).spec_pin_net(p),
    {
        self.default_net_ruleset = id;
    }

    /// Gives net `net_id` the rule set `ruleset_id`.
    pub fn set_net_ruleset(&mut self, net_id: Id, ruleset_id: Id)
        ensures
            final(self).spec_net_rulesets() == old(self).spec_net_rulesets().insert(net_id, ruleset_id),
            final(self).spec_default_ruleset() == old(self).spec_default_ruleset(),
            final(self).spec_id() == old(self).spec_id(),
            final(self).spec_names() == old(self).spec_names(),
            final(self).spec_layers() == old(self).spec_layers(),
            final(self).spec_nets() == old(self).spec_nets(),
            forall|p: PinRef| final(self).spec_pin_net(p) == old(self).spec_pin_net(p),
    {
        broadcast use vstd::std_specs::hash::group_hash_axioms;

        self.net_to_ruleset.insert(net_id, ruleset_id);
    }

    /// The ID of the rule set that net `net_id` follows: its own if it was
    /// given one, else the default.
    pub fn net_ruleset(&self, net_id: Id) -> (r: Id)
        ensures
            r == self.spec_net_ruleset(net_id),
    {
        broadcast use vstd::std_specs::hash::group_hash_axioms;

        match self.net_to_ruleset.get(&net_id) {
            Some(id) => *id,
            None => self.default_net_ruleset,
        }
    }
}

/// Giving a net its own rule set decides the rule set that it follows and
/// leaves every other net's as it was; the default decides for nets that
/// were given none.
pub proof fn lemma_net_ruleset_after_set(before: Pcb, after: Pcb, net_id: Id, ruleset_id: Id, other: Id)
    requires
        after.spec_net_rulesets() == before.spec_net_rulesets().insert(net_id, ruleset_id),
        after.spec_default_ruleset() == before.spec_default_ruleset(),
    ensures
        after.spec_net_ruleset(net_id) == ruleset_id,
        other != net_id ==> after.spec_net_ruleset(other) == before.spec_net_ruleset(other),
{
}

} // verus!
