use vstd::prelude::*;

use crate::dsn::error::DsnError;
use crate::dsn::library::advanced;
use crate::dsn::models::{ComponentModel, PlacementRefModel};
use crate::dsn::parser::{
    spec_expect, spec_next, spec_number, spec_open, spec_peek, spec_side, spec_vertex, Parser, Step,
};
use crate::dsn::token::{Tok, Token};
use crate::dsn::types::{DsnComponent, DsnLockType, DsnPlacement, DsnPlacementRef};

verus! {

// The placement descriptors of a DSN file: where components stand.

/// The lock type that a keyword names.
pub open spec fn spec_lock_type_of(t: Tok) -> Option<DsnLockType> {
    match t {
        Tok::Gate => Some(DsnLockType::Gate),
        Tok::Position => Some(DsnLockType::Position),
        _ => None,
    }
}

/// The rest of a placement reference from index `j`: `(lock_type ...)` and
/// `(PN ...)` clauses, each of which sets its field, then `)`.
pub open spec fn spec_place_rest(toks: Seq<Token>, j: int, m: PlacementRefModel) -> Step<
    PlacementRefModel,
>
    decreases toks.len() - j,
{
    match spec_peek(toks, j, 0) {
        Err(e) => Err(e),
        Ok(t0) => if t0.tok == Tok::Rparen {
            Ok((m, j + 1))
        } else {
            match spec_peek(toks, j, 1) {
                Err(e) => Err(e),
                Ok(t) => if t.tok == Tok::LockType {
                    match spec_open(toks, j, Tok::LockType) {
                        Err(e) => Err(e),
                        Ok(_) => match spec_next(toks, j + 2) {
                            Err(e) => Err(e),
                            Ok((x, _)) => match spec_lock_type_of(x.tok) {
                                None => Err(DsnError::UnrecognisedLockType),
                                Some(lt) => match spec_expect(toks, j + 3, Tok::Rparen) {
                                    Err(e) => Err(e),
                                    Ok(_) => spec_place_rest(
                                        toks,
                                        j + 4,
                                        PlacementRefModel { lock_type: lt, ..m },
                                    ),
                                },
                            },
                        },
                    }
                } else if t.tok == Tok::Pn {
                    match spec_open(toks, j, Tok::Pn) {
                        Err(e) => Err(e),
                        Ok(_) => match spec_next(toks, j + 2) {
                            Err(e) => Err(e),
                            Ok((x, _)) => match spec_expect(toks, j + 3, Tok::Rparen) {
                                Err(e) => Err(e),
                                Ok(_) => spec_place_rest(
                                    toks,
                                    j + 4,
                                    PlacementRefModel { part_number: x.s@, ..m },
                                ),
                            },
                        },
                    }
                } else {
                    Err(DsnError::UnrecognisedToken(t))
                },
            }
        },
    }
}

/// `(place <component_id> <vertex> <side> <rotation> [(lock_type <lock>)]
/// [(PN <part_number>)])`; unlocked and without part number unless given.
pub open spec fn spec_placement_ref(toks: Seq<Token>, i: int) -> Step<PlacementRefModel> {
    match spec_open(toks, i, Tok::Place) {
        Err(e) => Err(e),
        Ok(_) => match spec_next(toks, i + 2) {
            Err(e) => Err(e),
            Ok((lit, _)) => match spec_vertex(toks, i + 3) {
                Err(e) => Err(e),
                Ok((p, _)) => match spec_side(toks, i + 5) {
                    Err(e) => Err(e),
                    Ok((side, _)) => match spec_number(toks, i + 6) {
                        Err(e) => Err(e),
                        Ok((rotation, _)) => spec_place_rest(
                            toks,
                            i + 7,
                            PlacementRefModel {
                                component_id: lit.s@,
                                p,
                                side,
                                rotation,
                                lock_type: DsnLockType::Unlocked,
                                part_number: Seq::empty(),
                            },
                        ),
                    },
                },
            },
        },
    }
}

/// The rest of a component descriptor from index `j`: placement references,
/// then `)`.
pub open spec fn spec_component_rest(toks: Seq<Token>, j: int, m: ComponentModel) -> Step<
    ComponentModel,
>
    decreases toks.len() - j,
{
    match spec_peek(toks, j, 0) {
        Err(e) => Err(e),
        Ok(t0) => if t0.tok == Tok::Rparen {
            Ok((m, j + 1))
        } else {
            match spec_peek(toks, j, 1) {
                Err(e) => Err(e),
                Ok(t) => if t.tok == Tok::Place {
                    match spec_placement_ref(toks, j) {
                        Err(e) => Err(e),
                        Ok((v, k)) => if advanced(toks, j, k) {
                            spec_component_rest(toks, k, ComponentModel { refs: m.refs.push(v), ..m })
                        } else {
                            Err(DsnError::UnexpectedEof)
                        },
                    }
                } else {
                    Err(DsnError::UnrecognisedToken(t))
                },
            }
        },
    }
}

/// `(component <image_id> {<placement_reference>})`
pub open spec fn spec_component(toks: Seq<Token>, i: int) -> Step<ComponentModel> {
    match spec_open(toks, i, Tok::Component) {
        Err(e) => Err(e),
        Ok(_) => match spec_next(toks, i + 2) {
            Err(e) => Err(e),
            Ok((lit, _)) => spec_component_rest(
                toks,
                i + 3,
                ComponentModel { image_id: lit.s@, refs: Seq::empty() },
            ),
        },
    }
}

/// The rest of a placement descriptor from index `j`: components, then `)`.
pub open spec fn spec_placement_rest(toks: Seq<Token>, j: int, acc: Seq<ComponentModel>) -> Step<
    Seq<ComponentModel>,
>
    decreases toks.len() - j,
{
    match spec_peek(toks, j, 0) {
        Err(e) => Err(e),
        Ok(t0) => if t0.tok == Tok::Rparen {
            Ok((acc, j + 1))
        } else {
            match spec_peek(toks, j, 1) {
                Err(e) => Err(e),
                Ok(t) => if t.tok == Tok::Component {
                    match spec_component(toks, j) {
                        Err(e) => Err(e),
                        Ok((v, k)) => if advanced(toks, j, k) {
                            spec_placement_rest(toks, k, acc.push(v))
                        } else {
                            Err(DsnError::UnexpectedEof)
                        },
                    }
                } else {
                    Err(DsnError::UnrecognisedToken(t))
                },
            }
        },
    }
}

/// `(placement {<component_instance>})`
pub open spec fn spec_placement(toks: Seq<Token>, i: int) -> Step<Seq<ComponentModel>> {
    match spec_open(toks, i, Tok::Placement) {
        Err(e) => Err(e),
        Ok(_) => spec_placement_rest(toks, i + 2, Seq::empty()),
    }
}

impl Parser {
    /// Reads `(place <component_id> <vertex> <side> <rotation>
    /// [(lock_type <lock>)] [(PN <part_number>)])`.
    pub fn placement_ref(&mut self) -> (r: Result<DsnPlacementRef, DsnError>)
        ensures
            final(self).spec_toks() == old(self).spec_toks(),
            match spec_placement_ref(old(self).spec_toks(), old(self).spec_idx()) {
                Ok((m, j)) => r matches Ok(v) && v@ == m && final(self).spec_idx() == j
                    && advanced(old(self).spec_toks(), old(self).spec_idx(), j),
                Err(e) => r == Err::<DsnPlacementRef, DsnError>(e),
            },
    {
        let ghost toks0 = self.spec_toks();
        let ghost i0 = self.spec_idx();
        let ghost target = spec_placement_ref(toks0, i0);
        self.open(Tok::Place)?;
        let component_id = self.literal()?;
        let p = self.vertex()?;
        let side = self.side()?;
        let rotation = self.number()?;
        let mut v = DsnPlacementRef {
            component_id,
            p,
            side,
            rotation,
            lock_type: DsnLockType::Unlocked,
            part_number: String::new(),
        };
        loop
            invariant
                self.spec_toks() == toks0,
                toks0 == old(self).spec_toks(),
                i0 == old(self).spec_idx(),
                target == spec_placement_ref(toks0, i0),
                spec_place_rest(toks0, self.spec_idx(), v@) == target,
                i0 < self.spec_idx() <= toks0.len(),
            decreases toks0.len() - self.spec_idx(),
        {
            let t0 = self.peek(0)?;
            if t0.tok == Tok::Rparen {
                self.expect(Tok::Rparen)?;
                return Ok(v);
            }
            let t = self.peek(1)?;
            match t.tok {
                Tok::LockType => {
                    self.open(Tok::LockType)?;
                    match self.next()?.tok {
                        Tok::Gate => v.lock_type = DsnLockType::Gate,
                        Tok::Position => v.lock_type = DsnLockType::Position,
                        _ => {
                            return Err(DsnError::UnrecognisedLockType);
                        },
                    }
                    self.expect(Tok::Rparen)?;
                },
                Tok::Pn => {
                    self.open(Tok::Pn)?;
                    v.part_number = self.literal()?;
                    self.expect(Tok::Rparen)?;
                },
                _ => {
                    return Err(DsnError::UnrecognisedToken(t));
                },
            }
        }
    }

    /// Reads `(component <image_id> {<placement_reference>})`.
    pub fn component(&mut self) -> (r: Result<DsnComponent, DsnError>)
        ensures
            final(self).spec_toks() == old(self).spec_toks(),
            match spec_component(old(self).spec_toks(), old(self).spec_idx()) {
                Ok((m, j)) => r matches Ok(v) && v@ == m && final(self).spec_idx() == j
                    && advanced(old(self).spec_toks(), old(self).spec_idx(), j),
                Err(e) => r == Err::<DsnComponent, DsnError>(e),
            },
    {
        let ghost toks0 = self.spec_toks();
        let ghost i0 = self.spec_idx();
        let ghost target = spec_component(toks0, i0);
        self.open(Tok::Component)?;
        let image_id = self.literal()?;
        let mut v = DsnComponent { image_id, refs: Vec::new() };
        assert(v@ =~= ComponentModel { image_id: v.image_id@, refs: Seq::empty() });
        loop
            invariant
                self.spec_toks() == toks0,
                toks0 == old(self).spec_toks(),
                i0 == old(self).spec_idx(),
                target == spec_component(toks0, i0),
                spec_component_rest(toks0, self.spec_idx(), v@) == target,
                i0 < self.spec_idx() <= toks0.len(),
            decreases toks0.len() - self.spec_idx(),
        {
            let t0 = self.peek(0)?;
            if t0.tok == Tok::Rparen {
                self.expect(Tok::Rparen)?;
                return Ok(v);
            }
            let t = self.peek(1)?;
            let ghost prev = v@;
            match t.tok {
                Tok::Place => {
                    let x = self.placement_ref()?;
                    v.refs.push(x);
                    assert(v@ =~= ComponentModel { refs: prev.refs.push(x@), ..prev });
                },
                _ => {
                    return Err(DsnError::UnrecognisedToken(t));
                },
            }
        }
    }

    /// Reads `(placement {<component_instance>})`.
    pub fn placement(&mut self) -> (r: Result<DsnPlacement, DsnError>)
        ensures
            final(self).spec_toks() == old(self).spec_toks(),
            match spec_placement(old(self).spec_toks(), old(self).spec_idx()) {
                Ok((m, j)) => r matches Ok(v) && v@ == m && final(self).spec_idx() == j
                    && advanced(old(self).spec_toks(), old(self).spec_idx(), j),
                Err(e) => r == Err::<DsnPlacement, DsnError>(e),
            },
    {
        let ghost toks0 = self.spec_toks();
        let ghost i0 = self.spec_idx();
        let ghost target = spec_placement(toks0, i0);
        self.open(Tok::Placement)?;
        let mut v = DsnPlacement { components: Vec::new() };
        assert(v@ =~= Seq::<ComponentModel>::empty());
        loop
            invariant
                self.spec_toks() == toks0,
                toks0 == old(self).spec_toks(),
                i0 == old(self).spec_idx(),
                target == spec_placement(toks0, i0),
                spec_placement_rest(toks0, self.spec_idx(), v@) == target,
                i0 < self.spec_idx() <= toks0.len(),
            decreases toks0.len() - self.spec_idx(),
        {
            let t0 = self.peek(0)?;
            if t0.tok == Tok::Rparen {
                self.expect(Tok::Rparen)?;
                return Ok(v);
            }
            let t = self.peek(1)?;
            let ghost prev = v@;
            match t.tok {
                Tok::Component => {
                    let x = self.component()?;
                    v.components.push(x);
                    assert(v@ =~= prev.push(x@));
                },
                _ => {
                    return Err(DsnError::UnrecognisedToken(t));
                },
            }
        }
    }
}

} // verus!
