use vstd::prelude::*;

use crate::dsn::error::DsnError;
use crate::dsn::parser::{pin_ref_model, pin_refs_model, PinRefModel};
use crate::dsn::types::{DsnKeepoutType, DsnLayer, DsnLayerType, DsnNet, DsnResolution};
use crate::model::pcb::{
    layer_ids_in_word, layers_by_kind, spec_layers_by_kind, KeepoutType, Layer, LayerId, LayerKind,
    LayerSet, Net, PinRef,
};
use crate::name::{lemma_lookup_seq_ids, lookup_seq, spec_lookup, Id, NameMap, NO_ID};
use crate::text::str_eq;

verus! {

// The parts of turning a DSN design into a board that deal with names,
// layers and nets.

/// The kind of layer that a DSN layer type stands for.
pub open spec fn spec_layer_kind(t: DsnLayerType) -> LayerKind {
    match t {
        DsnLayerType::Signal => LayerKind::Signal,
        DsnLayerType::Power => LayerKind::Power,
        DsnLayerType::Mixed => LayerKind::Mixed,
        DsnLayerType::Jumper => LayerKind::Jumper,
    }
}

/// The kind of layer that a DSN layer type stands for.
pub fn layer_kind(t: DsnLayerType) -> (k: LayerKind)
    ensures
        k == spec_layer_kind(t),
{
    match t {
        DsnLayerType::Signal => LayerKind::Signal,
        DsnLayerType::Power => LayerKind::Power,
        DsnLayerType::Mixed => LayerKind::Mixed,
        DsnLayerType::Jumper => LayerKind::Jumper,
    }
}

/// The keepout type that a DSN keepout type stands for.
pub fn keepout_kind(t: DsnKeepoutType) -> (k: KeepoutType)
    ensures
        k == match t {
            DsnKeepoutType::Keepout => KeepoutType::Keepout,
            DsnKeepoutType::ViaKeepout => KeepoutType::ViaKeepout,
            DsnKeepoutType::WireKeepout => KeepoutType::WireKeepout,
        },
{
    match t {
        DsnKeepoutType::Keepout => KeepoutType::Keepout,
        DsnKeepoutType::ViaKeepout => KeepoutType::ViaKeepout,
        DsnKeepoutType::WireKeepout => KeepoutType::WireKeepout,
    }
}

/// A design may only give its unit by its resolution: the two must name the
/// same unit.
pub fn check_unit(unit: &DsnResolution, resolution: &DsnResolution) -> (r: Result<(), DsnError>)
    ensures
        r is Ok <==> unit.dimension == resolution.dimension,
        r matches Err(e) ==> e is UnitOverride,
{
    if unit.dimension != resolution.dimension {
        Err(DsnError::UnitOverride)
    } else {
        Ok(())
    }
}

/// The names of the layers.
pub open spec fn dsn_layer_names(ls: Seq<DsnLayer>) -> Seq<Seq<char>> {
    ls.map_values(|l: DsnLayer| l.layer_name@)
}

/// True iff `ss[k]` repeats an earlier element.
pub open spec fn repeats_at(ss: Seq<Seq<char>>, k: int) -> bool {
    exists|j: int| 0 <= j < k && ss[j] == ss[k]
}

/// True iff no element of `ss` before index `n` repeats an earlier one.
pub open spec fn no_repeat_before(ss: Seq<Seq<char>>, n: int) -> bool {
    forall|m: int| 0 <= m < n ==> !repeats_at(ss, m)
}

/// The index of the first layer named `name_id`, if any.
pub fn layer_with_name(layers: &[Layer], name_id: Id) -> (r: Option<usize>)
    ensures
        r matches Some(k) ==> {
            &&& k < layers@.len()
            &&& layers@[k as int].name_id == name_id
            &&& forall|j: int| 0 <= j < k ==> layers@[j].name_id != name_id
        },
        r is None ==> forall|j: int| 0 <= j < layers@.len() ==> layers@[j].name_id != name_id,
{
    let mut i: usize = 0;
    while i < layers.len()
        invariant
            i <= layers@.len(),
            forall|j: int| 0 <= j < i ==> layers@[j].name_id != name_id,
        decreases layers@.len() - i,
    {
        if layers[i].name_id == name_id {
            return Some(i);
        }
        i = i + 1;
    }
    None
}

/// One step of looking names up in turn: the next name is looked up in the
/// table that the earlier ones left, and its ID equals an earlier one's
/// exactly when the names are equal.
proof fn lemma_lookup_step(n0: Seq<Seq<char>>, ss: Seq<Seq<char>>, i: int)
    requires
        crate::name::distinct_names(n0),
        lookup_seq(n0, ss.take(i + 1)).0.len() <= NO_ID,
        0 <= i < ss.len(),
    ensures
        ({
            let (n1, ids0) = lookup_seq(n0, ss.take(i));
            let (n2, ids1) = lookup_seq(n0, ss.take(i + 1));
            &&& crate::name::distinct_names(n1)
            &&& n1.len() <= n0.len() + i
            &&& ids0.len() == i
            &&& (n2, ids1[i]) == spec_lookup(n1, ss[i])
            &&& ids1 == ids0.push(ids1[i])
            &&& forall|j: int| 0 <= j < i ==> (#[trigger] ids1[j] == ids1[i] <==> ss[j] == ss[i])
        }),
{
    let t = ss.take(i + 1);
    assert(t.drop_last() =~= ss.take(i));
    lemma_lookup_seq_ids(n0, t);
    lemma_lookup_seq_ids(n0, ss.take(i));
    assert(t.last() == ss[i]);
    assert forall|j: int| 0 <= j < i implies (#[trigger] lookup_seq(n0, t).1[j] == lookup_seq(n0, t).1[i]
        <==> ss[j] == ss[i]) by {
        assert(t[j] == ss[j]);
        assert(t[i] == ss[i]);
    }
}

/// Builds the layers of the board from the layers of the design, in order:
/// layer `k` gets ID `k`, the ID of its name, and the kind of its type. Two
/// layers with the same name are refused; the second is named.
pub fn convert_layers(names: &mut NameMap, dsn_layers: &[DsnLayer]) -> (r: Result<Vec<Layer>, DsnError>)
    requires
        old(names).wf(),
    ensures
        final(names).wf(),
        ({
            let ss = dsn_layer_names(dsn_layers@);
            let (fin, ids) = lookup_seq(old(names)@, ss);
            &&& r is Ok <==> no_repeat_before(ss, ss.len() as int)
            &&& r matches Ok(ls) ==> {
                &&& final(names)@ == fin
                &&& ls@.len() == ss.len()
                &&& forall|k: int|
                    0 <= k < ls@.len() ==> #[trigger] ls@[k] == (Layer {
                        name_id: ids[k],
                        layer_id: k as LayerId,
                        kind: spec_layer_kind(dsn_layers@[k].layer_type),
                    })
            }
            &&& r matches Err(e) ==> exists|k: int|
                0 <= k < ss.len() && no_repeat_before(ss, k) && #[trigger] repeats_at(ss, k) && (e matches DsnError::DuplicateLayer(
                    s,
                ) && s@ == ss[k]) && final(names)@ == lookup_seq(old(names)@, ss.take(k + 1)).0
        }),
{
    let ghost ss = dsn_layer_names(dsn_layers@);
    let ghost n0 = names@;
    let mut out: Vec<Layer> = Vec::new();
    let mut i: usize = 0;
    while i < dsn_layers.len()
        invariant
            i <= dsn_layers@.len(),
            ss == dsn_layer_names(dsn_layers@),
            ss.len() == dsn_layers@.len(),
            names.wf(),
            crate::name::distinct_names(n0),
            n0 == old(names)@,
            names@ == lookup_seq(n0, ss.take(i as int)).0,
            no_repeat_before(ss, i as int),
            out@.len() == i,
            forall|k: int|
                0 <= k < i ==> #[trigger] out@[k] == (Layer {
                    name_id: lookup_seq(n0, ss.take(i as int)).1[k],
                    layer_id: k as LayerId,
                    kind: spec_layer_kind(dsn_layers@[k].layer_type),
                }),
        decreases dsn_layers@.len() - i,
    {
        let v = &dsn_layers[i];
        let ghost ids0 = lookup_seq(n0, ss.take(i as int)).1;
        let ghost ids1 = lookup_seq(n0, ss.take(i + 1)).1;
        let id = names.name_to_id(v.layer_name.as_str());
        proof {
            assert(ss.take(i + 1).drop_last() =~= ss.take(i as int));
            assert(ss[i as int] == v.layer_name@);
            assert(names@ == lookup_seq(n0, ss.take(i + 1)).0);
            lemma_lookup_step(n0, ss, i as int);
            assert forall|k: int| 0 <= k < i implies #[trigger] out@[k].name_id == ids1[k] by {
                assert(ids1[k] == ids0[k]);
            }
        }
        match layer_with_name(out.as_slice(), id) {
            Some(j) => {
                proof {
                    assert(ids1[j as int] == ids1[i as int]);
                    assert(ss[j as int] == ss[i as int]);
                    assert(repeats_at(ss, i as int));
                    assert(!no_repeat_before(ss, ss.len() as int));
                }
                let e = DsnError::DuplicateLayer(v.layer_name.clone());
                proof {
                    let k = i as int;
                    assert(0 <= k < ss.len() && no_repeat_before(ss, k) && repeats_at(ss, k) && (
                    e matches DsnError::DuplicateLayer(s) && s@ == ss[k]) && names@ == lookup_seq(
                        n0,
                        ss.take(k + 1),
                    ).0);
                }
                return Err(e);
            },
            None => {},
        }
        proof {
            assert(!repeats_at(ss, i as int)) by {
                if repeats_at(ss, i as int) {
                    let w = choose|w: int| 0 <= w < i && ss[w] == ss[i as int];
                    assert(ids1[w] == ids1[i as int]);
                    assert(out@[w].name_id == ids1[w]);
                }
            }
        }
        out.push(Layer { name_id: id, layer_id: i, kind: layer_kind(v.layer_type) });
        proof {
            assert forall|k: int| 0 <= k < i + 1 implies #[trigger] out@[k] == (Layer {
                name_id: ids1[k],
                layer_id: k as LayerId,
                kind: spec_layer_kind(dsn_layers@[k].layer_type),
            }) by {}
        }
        i = i + 1;
    }
    assert(ss.take(ss.len() as int) =~= ss);
    Ok(out)
}

/// A layer that `convert_layers` built is found again under its name: the
/// name keeps the ID that the layer carries when it is looked up again, and
/// no earlier layer has that ID, so `layer_set_by_name` gives back the layer
/// itself.
pub proof fn lemma_layers_found_by_name(
    n0: Seq<Seq<char>>,
    dsn_layers: Seq<DsnLayer>,
    ls: Seq<Layer>,
    k: int,
)
    requires
        crate::name::distinct_names(n0),
        lookup_seq(n0, dsn_layer_names(dsn_layers)).0.len() <= NO_ID,
        dsn_layers.len() <= usize::MAX,
        no_repeat_before(dsn_layer_names(dsn_layers), dsn_layers.len() as int),
        ls.len() == dsn_layers.len(),
        forall|j: int|
            0 <= j < ls.len() ==> #[trigger] ls[j] == (Layer {
                name_id: lookup_seq(n0, dsn_layer_names(dsn_layers)).1[j],
                layer_id: j as LayerId,
                kind: spec_layer_kind(dsn_layers[j].layer_type),
            }),
        0 <= k < ls.len(),
    ensures
        ({
            let (fin, ids) = lookup_seq(n0, dsn_layer_names(dsn_layers));
            &&& spec_lookup(fin, dsn_layers[k].layer_name@) == (fin, ids[k])
            &&& first_with_name(ls, ids[k]) == k
            &&& ls[first_with_name(ls, ids[k])].layer_id == k
        }),
{
    let ss = dsn_layer_names(dsn_layers);
    let (fin, ids) = lookup_seq(n0, ss);
    lemma_lookup_seq_ids(n0, ss);
    assert(ss[k] == dsn_layers[k].layer_name@);
    let i = choose|i: int| 0 <= i < fin.len() && fin[i] == ss[k];
    assert(fin[ids[k] as int] == ss[k]);
    assert(i == ids[k]);
    assert(!repeats_at(ss, k));
    assert(ls[k].name_id == ids[k]);
    assert forall|j: int| 0 <= j < k implies ls[j].name_id != ids[k] by {
        assert(ls[j].name_id == ids[j]);
        assert(ss[j] != ss[k]);
    }
    let f = first_with_name(ls, ids[k]);
    if f < k {
        assert(ls[f].name_id != ids[k]);
    } else if f > k {
        assert(ls[k].name_id == ids[k]);
    }
}

/// The kind of layer whose layers a layer name of a design stands for, if it
/// names one: "pcb" stands for every layer.
pub open spec fn spec_kind_named(name: Seq<char>) -> Option<LayerKind> {
    if name == "signal"@ {
        Some(LayerKind::Signal)
    } else if name == "jumper"@ {
        Some(LayerKind::Jumper)
    } else if name == "mixed"@ {
        Some(LayerKind::Mixed)
    } else if name == "power"@ {
        Some(LayerKind::Power)
    } else if name == "pcb"@ {
        Some(LayerKind::All)
    } else {
        None
    }
}

/// The kind of layer whose layers a layer name of a design stands for, if it
/// names one.
pub fn kind_named(name: &str) -> (r: Option<LayerKind>)
    ensures
        r == spec_kind_named(name@),
{
    if str_eq(name, "signal") {
        Some(LayerKind::Signal)
    } else if str_eq(name, "jumper") {
        Some(LayerKind::Jumper)
    } else if str_eq(name, "mixed") {
        Some(LayerKind::Mixed)
    } else if str_eq(name, "power") {
        Some(LayerKind::Power)
    } else if str_eq(name, "pcb") {
        Some(LayerKind::All)
    } else {
        None
    }
}

/// The ids of the layers among `layers` of kind `kind`.
pub open spec fn ids_of_kind(layers: Seq<Layer>, kind: LayerKind) -> Set<nat> {
    Set::new(|x: nat| exists|k: int| 0 <= k < layers.len() && layers[k].layer_id == x && layers[k].kind == kind)
}

/// The ids of all of `layers`.
pub open spec fn all_ids(layers: Seq<Layer>) -> Set<nat> {
    Set::new(|x: nat| exists|k: int| 0 <= k < layers.len() && layers[k].layer_id == x)
}

/// A layer-kind name stands for exactly the layers of the kind it spells:
/// "signal", "power", "mixed" and "jumper" give the layers of that kind,
/// "pcb" gives every layer, and none of them looks a name up.
pub proof fn lemma_kind_names_give_their_layers(layers: Seq<Layer>)
    ensures
        spec_kind_named("signal"@) matches Some(k) && spec_layers_by_kind(layers, k) == ids_of_kind(
            layers,
            LayerKind::Signal,
        ),
        spec_kind_named("power"@) matches Some(k) && spec_layers_by_kind(layers, k) == ids_of_kind(
            layers,
            LayerKind::Power,
        ),
        spec_kind_named("mixed"@) matches Some(k) && spec_layers_by_kind(layers, k) == ids_of_kind(
            layers,
            LayerKind::Mixed,
        ),
        spec_kind_named("jumper"@) matches Some(k) && spec_layers_by_kind(layers, k) == ids_of_kind(
            layers,
            LayerKind::Jumper,
        ),
        spec_kind_named("pcb"@) matches Some(k) && spec_layers_by_kind(layers, k) == all_ids(layers),
{
    reveal_strlit("signal");
    reveal_strlit("power");
    reveal_strlit("mixed");
    reveal_strlit("jumper");
    reveal_strlit("pcb");
    assert("jumper"@ != "signal"@) by {
        assert("jumper"@[0] != "signal"@[0]);
    }
    assert("mixed"@ != "signal"@ && "mixed"@ != "jumper"@) by {
        assert("mixed"@[0] != "signal"@[0]);
        assert("mixed"@[0] != "jumper"@[0]);
    }
    assert("power"@ != "signal"@ && "power"@ != "jumper"@ && "power"@ != "mixed"@) by {
        assert("power"@[0] != "signal"@[0]);
        assert("power"@[0] != "jumper"@[0]);
        assert("power"@[0] != "mixed"@[0]);
    }
    assert("pcb"@ != "signal"@ && "pcb"@ != "jumper"@ && "pcb"@ != "mixed"@ && "pcb"@ != "power"@) by {
        assert("pcb"@[0] != "signal"@[0]);
        assert("pcb"@[0] != "jumper"@[0]);
        assert("pcb"@[0] != "mixed"@[0]);
        assert("pcb"@[1] != "power"@[1]);
    }
    assert(spec_kind_named("signal"@) == Some(LayerKind::Signal));
    assert(spec_kind_named("jumper"@) == Some(LayerKind::Jumper));
    assert(spec_kind_named("mixed"@) == Some(LayerKind::Mixed));
    assert(spec_kind_named("power"@) == Some(LayerKind::Power));
    assert(spec_kind_named("pcb"@) == Some(LayerKind::All));
    assert(spec_layers_by_kind(layers, LayerKind::Signal) =~= ids_of_kind(layers, LayerKind::Signal));
    assert(spec_layers_by_kind(layers, LayerKind::Power) =~= ids_of_kind(layers, LayerKind::Power));
    assert(spec_layers_by_kind(layers, LayerKind::Mixed) =~= ids_of_kind(layers, LayerKind::Mixed));
    assert(spec_layers_by_kind(layers, LayerKind::Jumper) =~= ids_of_kind(layers, LayerKind::Jumper));
    assert(spec_layers_by_kind(layers, LayerKind::All) =~= all_ids(layers));
}

/// The index of the first layer named `name_id`.
pub open spec fn first_with_name(layers: Seq<Layer>, name_id: Id) -> int {
    choose|k: int|
        0 <= k < layers.len() && layers[k].name_id == name_id && (forall|j: int|
            0 <= j < k ==> layers[j].name_id != name_id)
}

/// The layers that a layer name of a design stands for: those of a kind for
/// "signal", "jumper", "mixed" and "power", every layer for "pcb", else the
/// first layer with that name. The name is looked up (and so added to
/// `names` if new) only in the last case; a name that no layer has is
/// refused.
pub fn layer_set_by_name(names: &mut NameMap, layers: &[Layer], name: &str) -> (r: Result<LayerSet, DsnError>)
    requires
        old(names).wf(),
        layer_ids_in_word(layers@),
    ensures
        final(names).wf(),
        match spec_kind_named(name@) {
            Some(kind) => final(names)@ == old(names)@ && (r matches Ok(set) && set@
                == spec_layers_by_kind(layers@, kind)),
            None => {
                let (fin, id) = spec_lookup(old(names)@, name@);
                &&& final(names)@ == fin
                &&& if exists|k: int| 0 <= k < layers@.len() && layers@[k].name_id == id {
                    r matches Ok(set) && set@ == Set::<nat>::empty().insert(
                        layers@[first_with_name(layers@, id)].layer_id as nat,
                    )
                } else {
                    r matches Err(e) && e matches DsnError::UnknownLayer(n) && n@ == name@
                }
            },
        },
{
    match kind_named(name) {
        Some(kind) => Ok(layers_by_kind(layers, kind)),
        None => {
            let id = names.name_to_id(name);
            match layer_with_name(layers, id) {
                Some(k) => {
                    proof {
                        let f = first_with_name(layers@, id);
                        if f < k {
                            assert(layers@[f].name_id != id);
                        } else if f > k {
                            assert(layers@[k as int].name_id == id);
                        }
                        assert(layers@[k as int].layer_id < 64);
                    }
                    Ok(LayerSet::one(layers[k].layer_id))
                },
                None => Err(DsnError::UnknownLayer(name.to_owned())),
            }
        },
    }
}

/// The names that converting a net looks up, in order: the net's, then the
/// component's and the pin's of each pin reference.
pub open spec fn net_names(net_id: Seq<char>, pins: Seq<PinRefModel>) -> Seq<Seq<char>>
    decreases pins.len(),
{
    if pins.len() == 0 {
        seq![net_id]
    } else {
        net_names(net_id, pins.drop_last()).push(pins.last().0).push(pins.last().1)
    }
}

/// Looking up one more name extends the IDs of the earlier ones by its ID.
proof fn lemma_lookup_push(n0: Seq<Seq<char>>, xs: Seq<Seq<char>>, a: Seq<char>)
    ensures
        ({
            let (n1, ids) = lookup_seq(n0, xs);
            let (n2, id) = spec_lookup(n1, a);
            lookup_seq(n0, xs.push(a)) == (n2, ids.push(id))
        }),
{
    assert(xs.push(a).drop_last() =~= xs);
}

/// The net of the board that a net of the design stands for: its name is
/// looked up first, then the component and the pin of each pin reference,
/// in order.
pub fn convert_net(names: &mut NameMap, v: &DsnNet) -> (n: Net)
    requires
        old(names).wf(),
    ensures
        final(names).wf(),
        ({
            let (fin, ids) = lookup_seq(old(names)@, net_names(v.net_id@, pin_refs_model(v.pins@)));
            &&& final(names)@ == fin
            &&& n.id == ids[0]
            &&& n.pins@.len() == v.pins@.len()
            &&& forall|k: int|
                0 <= k < n.pins@.len() ==> #[trigger] n.pins@[k] == (PinRef {
                    component: ids[1 + 2 * k],
                    pin: ids[2 + 2 * k],
                })
        }),
{
    let ghost n0 = names@;
    let ghost ps = pin_refs_model(v.pins@);
    let id = names.name_to_id(v.net_id.as_str());
    proof {
        lemma_lookup_push(n0, Seq::empty(), v.net_id@);
        assert(Seq::<Seq<char>>::empty().push(v.net_id@) =~= net_names(v.net_id@, ps.take(0)));
    }
    let mut pins: Vec<PinRef> = Vec::new();
    let mut i: usize = 0;
    while i < v.pins.len()
        invariant
            i <= v.pins@.len(),
            ps == pin_refs_model(v.pins@),
            names.wf(),
            net_names(v.net_id@, ps.take(i as int)).len() == 1 + 2 * i,
            names@ == lookup_seq(n0, net_names(v.net_id@, ps.take(i as int))).0,
            lookup_seq(n0, net_names(v.net_id@, ps.take(i as int))).1.len() == 1 + 2 * i,
            lookup_seq(n0, net_names(v.net_id@, ps.take(i as int))).1[0] == id,
            pins@.len() == i,
            forall|k: int|
                0 <= k < i ==> #[trigger] pins@[k] == (PinRef {
                    component: lookup_seq(n0, net_names(v.net_id@, ps.take(i as int))).1[1 + 2 * k],
                    pin: lookup_seq(n0, net_names(v.net_id@, ps.take(i as int))).1[2 + 2 * k],
                }),
        decreases v.pins@.len() - i,
    {
        let p = &v.pins[i];
        let ghost xs = net_names(v.net_id@, ps.take(i as int));
        let ghost ids0 = lookup_seq(n0, xs).1;
        let component = names.name_to_id(p.component_id.as_str());
        let pin = names.name_to_id(p.pin_id.as_str());
        proof {
            assert(ps.take(i + 1).drop_last() =~= ps.take(i as int));
            assert(ps.take(i + 1).last() == pin_ref_model(*p));
            assert(net_names(v.net_id@, ps.take(i + 1)) == xs.push(p.component_id@).push(p.pin_id@));
            lemma_lookup_push(n0, xs, p.component_id@);
            lemma_lookup_push(n0, xs.push(p.component_id@), p.pin_id@);
        }
        pins.push(PinRef { component, pin });
        proof {
            let ids1 = lookup_seq(n0, net_names(v.net_id@, ps.take(i + 1))).1;
            assert(ids1 == ids0.push(component).push(pin));
            assert forall|k: int| 0 <= k < i + 1 implies #[trigger] pins@[k] == (PinRef {
                component: ids1[1 + 2 * k],
                pin: ids1[2 + 2 * k],
            }) by {
                if k < i {
                    assert(ids1[1 + 2 * k] == ids0[1 + 2 * k]);
                    assert(ids1[2 + 2 * k] == ids0[2 + 2 * k]);
                }
            }
        }
        i = i + 1;
    }
    proof {
        assert(ps.take(ps.len() as int) =~= ps);
    }
    Net { id, pins }
}

} // verus!
