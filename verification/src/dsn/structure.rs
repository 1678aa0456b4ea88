use vstd::prelude::*;

use crate::dsn::error::DsnError;
use crate::dsn::library::{advanced, spec_keepout, spec_keepout_type_of, spec_library};
use crate::dsn::models::{
    layer_model, rules_model, LibraryModel, NetworkModel, PcbModel, PlaneModel, StructureModel,
    WiringModel,
};
use crate::dsn::network::{spec_network, spec_rule};
use crate::dsn::parser::{
    lemma_ignore_advances, spec_empty_descriptor, spec_expect, spec_ignore, spec_layer, spec_next,
    spec_open, spec_peek, spec_resolution, Parser, Step,
};
use crate::dsn::placement::spec_placement;
use crate::dsn::shapes::{default_rect, default_shape_model, spec_shape};
use crate::dsn::token::{Tok, Token};
use crate::dsn::types::{
    DsnDimensionUnit, DsnLibrary, DsnNetwork, DsnPcb, DsnPlacement, DsnPlane, DsnResolution,
    DsnShape, DsnStructure, DsnWiring,
};

verus! {

// The structure descriptor of a DSN file and the design as a whole.

/// `(plane)`, of which nothing is read: a plane of no net with the empty
/// rectangle as its shape and no windows.
pub open spec fn spec_plane(toks: Seq<Token>, i: int) -> Step<PlaneModel> {
    match spec_empty_descriptor(toks, i, Tok::Plane) {
        Err(e) => Err(e),
        Ok((_, k)) => Ok(
            (PlaneModel { net_id: Seq::empty(), shape: default_shape_model(), windows: Seq::empty() }, k),
        ),
    }
}

/// The structure with nothing in it.
pub open spec fn empty_structure() -> StructureModel {
    StructureModel {
        boundaries: Seq::empty(),
        keepouts: Seq::empty(),
        layers: Seq::empty(),
        planes: Seq::empty(),
        rules: Seq::empty(),
        vias: Seq::empty(),
    }
}

/// The rest of a structure descriptor from index `j`: boundaries, keepouts,
/// layers, planes, rules and via lists in any order, then `)`.
pub open spec fn spec_structure_rest(toks: Seq<Token>, j: int, m: StructureModel) -> Step<
    StructureModel,
>
    decreases toks.len() - j, 1int,
{
    match spec_peek(toks, j, 0) {
        Err(e) => Err(e),
        Ok(t0) => if t0.tok == Tok::Rparen {
            Ok((m, j + 1))
        } else {
            match spec_peek(toks, j, 1) {
                Err(e) => Err(e),
                Ok(t) => if t.tok == Tok::Boundary {
                    match spec_open(toks, j, Tok::Boundary) {
                        Err(e) => Err(e),
                        Ok(_) => match spec_shape(toks, j + 2) {
                            Err(e) => Err(e),
                            Ok((s, k)) => match spec_expect(toks, k, Tok::Rparen) {
                                Err(e) => Err(e),
                                Ok(_) => if advanced(toks, j, k + 1) {
                                    spec_structure_rest(
                                        toks,
                                        k + 1,
                                        StructureModel { boundaries: m.boundaries.push(s), ..m },
                                    )
                                } else {
                                    Err(DsnError::UnexpectedEof)
                                },
                            },
                        },
                    }
                } else if spec_keepout_type_of(t.tok) is Some {
                    match spec_keepout(toks, j) {
                        Err(e) => Err(e),
                        Ok((v, k)) => if advanced(toks, j, k) {
                            spec_structure_rest(toks, k, StructureModel { keepouts: m.keepouts.push(v), ..m })
                        } else {
                            Err(DsnError::UnexpectedEof)
                        },
                    }
                } else if t.tok == Tok::Layer {
                    match spec_layer(toks, j) {
                        Err(e) => Err(e),
                        Ok((v, k)) => if advanced(toks, j, k) {
                            spec_structure_rest(toks, k, StructureModel { layers: m.layers.push(v), ..m })
                        } else {
                            Err(DsnError::UnexpectedEof)
                        },
                    }
                } else if t.tok == Tok::Plane {
                    match spec_plane(toks, j) {
                        Err(e) => Err(e),
                        Ok((v, k)) => if advanced(toks, j, k) {
                            spec_structure_rest(toks, k, StructureModel { planes: m.planes.push(v), ..m })
                        } else {
                            Err(DsnError::UnexpectedEof)
                        },
                    }
                } else if t.tok == Tok::Rule {
                    match spec_rule(toks, j) {
                        Err(e) => Err(e),
                        Ok((rs, k)) => if advanced(toks, j, k) {
                            spec_structure_rest(toks, k, StructureModel { rules: m.rules + rs, ..m })
                        } else {
                            Err(DsnError::UnexpectedEof)
                        },
                    }
                } else if t.tok == Tok::Via {
                    match spec_open(toks, j, Tok::Via) {
                        Err(e) => Err(e),
                        Ok(_) => spec_vias_rest(toks, j + 2, m),
                    }
                } else {
                    Err(DsnError::UnrecognisedToken(t))
                },
            }
        },
    }
}

/// The padstack IDs of a `(via ...)` list from index `j` up to its `)`,
/// then the rest of the structure descriptor.
pub open spec fn spec_vias_rest(toks: Seq<Token>, j: int, m: StructureModel) -> Step<StructureModel>
    decreases toks.len() - j, 0int,
{
    match spec_peek(toks, j, 0) {
        Err(e) => Err(e),
        Ok(t0) => if t0.tok == Tok::Rparen {
            spec_structure_rest(toks, j + 1, m)
        } else {
            match spec_next(toks, j) {
                Err(e) => Err(e),
                Ok((x, _)) => spec_vias_rest(toks, j + 1, StructureModel { vias: m.vias.push(x.s@), ..m }),
            }
        },
    }
}

/// `(structure {(boundary <shape_descriptor>)} {<keepout_descriptor>}
/// {<layer_descriptor>} {<plane_descriptor>} {<rule_descriptor>}
/// {(via {<padstack_id>})})`
pub open spec fn spec_structure(toks: Seq<Token>, i: int) -> Step<StructureModel> {
    match spec_open(toks, i, Tok::Structure) {
        Err(e) => Err(e),
        Ok(_) => spec_structure_rest(toks, i + 2, empty_structure()),
    }
}

/// The resolution of a design that gives none: 2540000 divisions of an
/// inch.
pub open spec fn default_resolution() -> DsnResolution {
    DsnResolution { amount: 2540000, dimension: DsnDimensionUnit::Inch }
}

/// The design with nothing in it but its ID.
pub open spec fn empty_pcb(id: Seq<char>) -> PcbModel {
    PcbModel {
        pcb_id: id,
        library: LibraryModel { images: Seq::empty(), padstacks: Seq::empty() },
        network: NetworkModel { nets: Seq::empty(), classes: Seq::empty() },
        placement: Seq::empty(),
        resolution: default_resolution(),
        structure: empty_structure(),
        unit: default_resolution(),
        wiring: WiringModel { wires: Seq::empty(), vias: Seq::empty() },
    }
}

/// The rest of a pcb descriptor from index `j`: a library, network,
/// placement, resolution, structure and wiring descriptor in any order,
/// each replacing the one before; `(parser ...)` and `(unit ...)` are
/// skipped. Then `)`.
pub open spec fn spec_pcb_rest(toks: Seq<Token>, j: int, m: PcbModel) -> Step<PcbModel>
    decreases toks.len() - j,
{
    match spec_peek(toks, j, 0) {
        Err(e) => Err(e),
        Ok(t0) => if t0.tok == Tok::Rparen {
            Ok((m, j + 1))
        } else {
            match spec_peek(toks, j, 1) {
                Err(e) => Err(e),
                Ok(t) => if t.tok == Tok::Library {
                    match spec_library(toks, j) {
                        Err(e) => Err(e),
                        Ok((v, k)) => if advanced(toks, j, k) {
                            spec_pcb_rest(toks, k, PcbModel { library: v, ..m })
                        } else {
                            Err(DsnError::UnexpectedEof)
                        },
                    }
                } else if t.tok == Tok::Network {
                    match spec_network(toks, j) {
                        Err(e) => Err(e),
                        Ok((v, k)) => if advanced(toks, j, k) {
                            spec_pcb_rest(toks, k, PcbModel { network: v, ..m })
                        } else {
                            Err(DsnError::UnexpectedEof)
                        },
                    }
                } else if t.tok == Tok::Parser || t.tok == Tok::Unit {
                    match spec_ignore(toks, j) {
                        None => Err(DsnError::UnexpectedEof),
                        Some(k) => if advanced(toks, j, k) {
                            spec_pcb_rest(toks, k, m)
                        } else {
                            Err(DsnError::UnexpectedEof)
                        },
                    }
                } else if t.tok == Tok::Placement {
                    match spec_placement(toks, j) {
                        Err(e) => Err(e),
                        Ok((v, k)) => if advanced(toks, j, k) {
                            spec_pcb_rest(toks, k, PcbModel { placement: v, ..m })
                        } else {
                            Err(DsnError::UnexpectedEof)
                        },
                    }
                } else if t.tok == Tok::Resolution {
                    match spec_resolution(toks, j) {
                        Err(e) => Err(e),
                        Ok((v, k)) => if advanced(toks, j, k) {
                            spec_pcb_rest(toks, k, PcbModel { resolution: v, ..m })
                        } else {
                            Err(DsnError::UnexpectedEof)
                        },
                    }
                } else if t.tok == Tok::Structure {
                    match spec_structure(toks, j) {
                        Err(e) => Err(e),
                        Ok((v, k)) => if advanced(toks, j, k) {
                            spec_pcb_rest(toks, k, PcbModel { structure: v, ..m })
                        } else {
                            Err(DsnError::UnexpectedEof)
                        },
                    }
                } else if t.tok == Tok::Wiring {
                    match spec_empty_descriptor(toks, j, Tok::Wiring) {
                        Err(e) => Err(e),
                        Ok((_, k)) => if advanced(toks, j, k) {
                            spec_pcb_rest(
                                toks,
                                k,
                                PcbModel { wiring: WiringModel { wires: Seq::empty(), vias: Seq::empty() }, ..m },
                            )
                        } else {
                            Err(DsnError::UnexpectedEof)
                        },
                    }
                } else {
                    Err(DsnError::UnrecognisedToken(t))
                },
            }
        },
    }
}

/// `(pcb <pcb_id> [<library_descriptor>] [<network_descriptor>]
/// [<placement_descriptor>] [<resolution_descriptor>]
/// [<structure_descriptor>] [<wiring_descriptor>] ...)`
pub open spec fn spec_pcb(toks: Seq<Token>, i: int) -> Step<PcbModel> {
    match spec_open(toks, i, Tok::Pcb) {
        Err(e) => Err(e),
        Ok(_) => match spec_next(toks, i + 2) {
            Err(e) => Err(e),
            Ok((lit, _)) => spec_pcb_rest(toks, i + 3, empty_pcb(lit.s@)),
        },
    }
}

impl Parser {
    /// Reads `(plane)`, of which nothing is read.
    pub fn plane(&mut self) -> (r: Result<DsnPlane, DsnError>)
        ensures
            final(self).spec_toks() == old(self).spec_toks(),
            match spec_plane(old(self).spec_toks(), old(self).spec_idx()) {
                Ok((m, j)) => r matches Ok(v) && v@ == m && final(self).spec_idx() == j
                    && advanced(old(self).spec_toks(), old(self).spec_idx(), j),
                Err(e) => r == Err::<DsnPlane, DsnError>(e),
            },
    {
        self.empty_descriptor(Tok::Plane)?;
        let v = DsnPlane { net_id: String::new(), shape: DsnShape::Rect(default_rect()), windows: Vec::new() };
        assert(v@ =~= PlaneModel { net_id: Seq::empty(), shape: default_shape_model(), windows: Seq::empty() });
        Ok(v)
    }

    /// Reads a structure descriptor.
    pub fn structure(&mut self) -> (r: Result<DsnStructure, DsnError>)
        ensures
            final(self).spec_toks() == old(self).spec_toks(),
            match spec_structure(old(self).spec_toks(), old(self).spec_idx()) {
                Ok((m, j)) => r matches Ok(v) && v@ == m && final(self).spec_idx() == j
                    && advanced(old(self).spec_toks(), old(self).spec_idx(), j),
                Err(e) => r == Err::<DsnStructure, DsnError>(e),
            },
    {
        let ghost toks0 = self.spec_toks();
        let ghost i0 = self.spec_idx();
        let ghost target = spec_structure(toks0, i0);
        self.open(Tok::Structure)?;
        let mut v = DsnStructure {
            boundaries: Vec::new(),
            keepouts: Vec::new(),
            layers: Vec::new(),
            planes: Vec::new(),
            rules: Vec::new(),
            vias: Vec::new(),
        };
        assert(v@ =~= empty_structure());
        loop
            invariant
                self.spec_toks() == toks0,
                toks0 == old(self).spec_toks(),
                i0 == old(self).spec_idx(),
                target == spec_structure(toks0, i0),
                spec_structure_rest(toks0, self.spec_idx(), v@) == target,
                i0 < self.spec_idx() <= toks0.len(),
            decreases toks0.len() - self.spec_idx(),
        {
            let ghost start = self.spec_idx();
            let t0 = self.peek(0)?;
            if t0.tok == Tok::Rparen {
                self.expect(Tok::Rparen)?;
                return Ok(v);
            }
            let t = self.peek(1)?;
            let ghost prev = v@;
            match t.tok {
                Tok::Boundary => {
                    self.open(Tok::Boundary)?;
                    let s = self.shape()?;
                    v.boundaries.push(s);
                    assert(v@ =~= StructureModel { boundaries: prev.boundaries.push(s@), ..prev });
                    self.expect(Tok::Rparen)?;
                },
                Tok::Keepout | Tok::ViaKeepout | Tok::WireKeepout => {
                    let k = self.keepout()?;
                    v.keepouts.push(k);
                    assert(v@ =~= StructureModel { keepouts: prev.keepouts.push(k@), ..prev });
                },
                Tok::Layer => {
                    let l = self.layer()?;
                    v.layers.push(l);
                    assert(v@ =~= StructureModel { layers: prev.layers.push(layer_model(l)), ..prev });
                },
                Tok::Plane => {
                    let p = self.plane()?;
                    v.planes.push(p);
                    assert(v@ =~= StructureModel { planes: prev.planes.push(p@), ..prev });
                },
                Tok::Rule => {
                    let mut rs = self.rule()?;
                    let ghost added = rs@;
                    v.rules.append(&mut rs);
                    assert(rules_model(v.rules@) =~= prev.rules + rules_model(added));
                    assert(v@ =~= StructureModel { rules: prev.rules + rules_model(added), ..prev });
                },
                Tok::Via => {
                    self.open(Tok::Via)?;
                    loop
                        invariant
                            self.spec_toks() == toks0,
                            toks0 == old(self).spec_toks(),
                            i0 == old(self).spec_idx(),
                            target == spec_structure(toks0, i0),
                            spec_vias_rest(toks0, self.spec_idx(), v@) == target,
                            i0 < start < self.spec_idx() <= toks0.len(),
                        ensures
                            self.spec_toks() == toks0,
                            start < self.spec_idx() < toks0.len(),
                            toks0[self.spec_idx()].tok == Tok::Rparen,
                            spec_vias_rest(toks0, self.spec_idx(), v@) == target,
                        decreases toks0.len() - self.spec_idx(),
                    {
                        let u = self.peek(0)?;
                        if u.tok == Tok::Rparen {
                            break;
                        }
                        let ghost before = v@;
                        let x = self.literal()?;
                        v.vias.push(x);
                        assert(v@ =~= StructureModel { vias: before.vias.push(x@), ..before });
                    }
                    self.expect(Tok::Rparen)?;
                },
                _ => {
                    return Err(DsnError::UnrecognisedToken(t));
                },
            }
        }
    }

    /// Reads a pcb descriptor: a whole design.
    pub fn pcb(&mut self) -> (r: Result<DsnPcb, DsnError>)
        ensures
            final(self).spec_toks() == old(self).spec_toks(),
            match spec_pcb(old(self).spec_toks(), old(self).spec_idx()) {
                Ok((m, j)) => r matches Ok(v) && v@ == m && final(self).spec_idx() == j
                    && advanced(old(self).spec_toks(), old(self).spec_idx(), j),
                Err(e) => r == Err::<DsnPcb, DsnError>(e),
            },
    {
        let ghost toks0 = self.spec_toks();
        let ghost i0 = self.spec_idx();
        let ghost target = spec_pcb(toks0, i0);
        self.open(Tok::Pcb)?;
        let pcb_id = self.literal()?;
        let mut v = DsnPcb {
            pcb_id,
            library: DsnLibrary { images: Vec::new(), padstacks: Vec::new() },
            network: DsnNetwork { nets: Vec::new(), classes: Vec::new() },
            placement: DsnPlacement { components: Vec::new() },
            resolution: DsnResolution { amount: 2540000, dimension: DsnDimensionUnit::Inch },
            structure: DsnStructure {
                boundaries: Vec::new(),
                keepouts: Vec::new(),
                layers: Vec::new(),
                planes: Vec::new(),
                rules: Vec::new(),
                vias: Vec::new(),
            },
            unit: DsnResolution { amount: 2540000, dimension: DsnDimensionUnit::Inch },
            wiring: DsnWiring { wires: Vec::new(), vias: Vec::new() },
        };
        assert(v@ =~= empty_pcb(v.pcb_id@));
        loop
            invariant
                self.spec_toks() == toks0,
                toks0 == old(self).spec_toks(),
                i0 == old(self).spec_idx(),
                target == spec_pcb(toks0, i0),
                spec_pcb_rest(toks0, self.spec_idx(), v@) == target,
                i0 < self.spec_idx() <= toks0.len(),
            decreases toks0.len() - self.spec_idx(),
        {
            let ghost start = self.spec_idx();
            let t0 = self.peek(0)?;
            if t0.tok == Tok::Rparen {
                self.expect(Tok::Rparen)?;
                return Ok(v);
            }
            let t = self.peek(1)?;
            let ghost prev = v@;
            match t.tok {
                Tok::Library => {
                    v.library = self.library()?;
                    assert(v@ =~= PcbModel { library: v.library@, ..prev });
                },
                Tok::Network => {
                    v.network = self.network()?;
                    assert(v@ =~= PcbModel { network: v.network@, ..prev });
                },
                Tok::Parser | Tok::Unit => {
                    proof {
                        lemma_ignore_advances(toks0, start);
                    }
                    self.ignore()?;
                },
                Tok::Placement => {
                    v.placement = self.placement()?;
                    assert(v@ =~= PcbModel { placement: v.placement@, ..prev });
                },
                Tok::Resolution => {
                    v.resolution = self.resolution()?;
                    assert(v@ =~= PcbModel { resolution: v.resolution, ..prev });
                },
                Tok::Structure => {
                    v.structure = self.structure()?;
                    assert(v@ =~= PcbModel { structure: v.structure@, ..prev });
                },
                Tok::Wiring => {
                    v.wiring = self.wiring()?;
                    assert(v@ =~= PcbModel {
                        wiring: WiringModel { wires: Seq::empty(), vias: Seq::empty() },
                        ..prev
                    });
                },
                _ => {
                    return Err(DsnError::UnrecognisedToken(t));
                },
            }
        }
    }

    /// Reads the design that the tokens hold, from the current token.
    pub fn parse(self) -> (r: Result<DsnPcb, DsnError>)
        ensures
            match spec_pcb(self.spec_toks(), self.spec_idx()) {
                Ok((m, _)) => r matches Ok(v) && v@ == m,
                Err(e) => r == Err::<DsnPcb, DsnError>(e),
            },
    {
        let mut p = self;
        p.pcb()
    }
}

} // verus!
