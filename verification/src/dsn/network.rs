use vstd::prelude::*;

use crate::dsn::error::DsnError;
use crate::dsn::library::advanced;
use crate::dsn::models::{circuit_model, net_model, rules_model, ClassModel, ClearanceModel, NetworkModel, RuleModel};
use crate::dsn::number::DsnNumber;
use crate::dsn::parser::{
    spec_expect, spec_net, spec_next, spec_number, spec_open, spec_peek, Parser, Step,
};
use crate::dsn::token::{Tok, Token};
use crate::dsn::types::{
    DsnCircuit, DsnClass, DsnClearance, DsnClearanceType, DsnNetwork, DsnRule,
};

verus! {

// The network descriptors of a DSN file: nets, classes and their rules.

/// The clearance type that a keyword names.
pub open spec fn spec_clearance_type_of(t: Tok) -> Option<DsnClearanceType> {
    match t {
        Tok::DefaultSmd => Some(DsnClearanceType::DefaultSmd),
        Tok::SmdSmd => Some(DsnClearanceType::SmdSmd),
        _ => None,
    }
}

/// The `(type <clearance_type>)` clauses of a clearance from index `j` up to
/// its `)`, after the types `types`.
pub open spec fn spec_clearance_rest(
    toks: Seq<Token>,
    j: int,
    amount: DsnNumber,
    types: Seq<DsnClearanceType>,
) -> Step<ClearanceModel>
    decreases toks.len() - j,
{
    match spec_peek(toks, j, 0) {
        Err(e) => Err(e),
        Ok(t0) => if t0.tok == Tok::Rparen {
            Ok((ClearanceModel { amount, types }, j + 1))
        } else {
            match spec_open(toks, j, Tok::Type) {
                Err(e) => Err(e),
                Ok(_) => match spec_next(toks, j + 2) {
                    Err(e) => Err(e),
                    Ok((x, _)) => match spec_clearance_type_of(x.tok) {
                        None => Err(DsnError::UnrecognisedClearanceType),
                        Some(ct) => match spec_expect(toks, j + 3, Tok::Rparen) {
                            Err(e) => Err(e),
                            Ok(_) => spec_clearance_rest(toks, j + 4, amount, types.push(ct)),
                        },
                    },
                },
            }
        },
    }
}

/// `(clearance <positive_dimension> {(type <clearance_type>)})`
pub open spec fn spec_clearance(toks: Seq<Token>, i: int) -> Step<ClearanceModel> {
    match spec_open(toks, i, Tok::Clearance) {
        Err(e) => Err(e),
        Ok(_) => match spec_number(toks, i + 2) {
            Err(e) => Err(e),
            Ok((amount, _)) => spec_clearance_rest(toks, i + 3, amount, Seq::empty()),
        },
    }
}

/// The rules of a rule descriptor from index `j` up to its `)`, after the
/// rules `acc`.
pub open spec fn spec_rule_rest(toks: Seq<Token>, j: int, acc: Seq<RuleModel>) -> Step<Seq<RuleModel>>
    decreases toks.len() - j,
{
    match spec_peek(toks, j, 0) {
        Err(e) => Err(e),
        Ok(t0) => if t0.tok == Tok::Rparen {
            Ok((acc, j + 1))
        } else {
            match spec_peek(toks, j, 1) {
                Err(e) => Err(e),
                Ok(t) => if t.tok == Tok::Width {
                    match spec_open(toks, j, Tok::Width) {
                        Err(e) => Err(e),
                        Ok(_) => match spec_number(toks, j + 2) {
                            Err(e) => Err(e),
                            Ok((w, _)) => match spec_expect(toks, j + 3, Tok::Rparen) {
                                Err(e) => Err(e),
                                Ok(_) => spec_rule_rest(toks, j + 4, acc.push(RuleModel::Width(w))),
                            },
                        },
                    }
                } else if t.tok == Tok::Clearance {
                    match spec_clearance(toks, j) {
                        Err(e) => Err(e),
                        Ok((c, k)) => if advanced(toks, j, k) {
                            spec_rule_rest(toks, k, acc.push(RuleModel::Clearance(c)))
                        } else {
                            Err(DsnError::UnexpectedEof)
                        },
                    }
                } else {
                    Err(DsnError::UnrecognisedToken(t))
                },
            }
        },
    }
}

/// `(rule {(width <number>) | <clearance_descriptor>})`: its rules, in
/// order.
pub open spec fn spec_rule(toks: Seq<Token>, i: int) -> Step<Seq<RuleModel>> {
    match spec_open(toks, i, Tok::Rule) {
        Err(e) => Err(e),
        Ok(_) => spec_rule_rest(toks, i + 2, Seq::empty()),
    }
}

/// The `(use_via <padstack_id>)` clauses of a circuit from index `j` up to
/// its `)`; each replaces the via before.
pub open spec fn spec_circuit_rest(toks: Seq<Token>, j: int, via: Seq<char>) -> Step<Seq<char>>
    decreases toks.len() - j,
{
    match spec_peek(toks, j, 0) {
        Err(e) => Err(e),
        Ok(t0) => if t0.tok == Tok::Rparen {
            Ok((via, j + 1))
        } else {
            match spec_peek(toks, j, 1) {
                Err(e) => Err(e),
                Ok(t) => if t.tok == Tok::UseVia {
                    match spec_open(toks, j, Tok::UseVia) {
                        Err(e) => Err(e),
                        Ok(_) => match spec_next(toks, j + 2) {
                            Err(e) => Err(e),
                            Ok((x, _)) => match spec_expect(toks, j + 3, Tok::Rparen) {
                                Err(e) => Err(e),
                                Ok(_) => spec_circuit_rest(toks, j + 4, x.s@),
                            },
                        },
                    }
                } else {
                    Err(DsnError::UnrecognisedToken(t))
                },
            }
        },
    }
}

/// `(circuit {(use_via <padstack_id>)})`: the via to use; the empty name
/// unless given.
pub open spec fn spec_circuit(toks: Seq<Token>, i: int) -> Step<Seq<char>> {
    match spec_open(toks, i, Tok::Circuit) {
        Err(e) => Err(e),
        Ok(_) => spec_circuit_rest(toks, i + 2, Seq::empty()),
    }
}

/// The rest of a class descriptor from index `j`: net IDs, circuits and
/// rules in any order, then `)`.
pub open spec fn spec_class_rest(toks: Seq<Token>, j: int, m: ClassModel) -> Step<ClassModel>
    decreases toks.len() - j,
{
    match spec_peek(toks, j, 0) {
        Err(e) => Err(e),
        Ok(t0) => if t0.tok == Tok::Rparen {
            Ok((m, j + 1))
        } else if t0.tok == Tok::Lparen {
            match spec_peek(toks, j, 1) {
                Err(e) => Err(e),
                Ok(t) => if t.tok == Tok::Circuit {
                    match spec_circuit(toks, j) {
                        Err(e) => Err(e),
                        Ok((c, k)) => if advanced(toks, j, k) {
                            spec_class_rest(toks, k, ClassModel { circuits: m.circuits.push(c), ..m })
                        } else {
                            Err(DsnError::UnexpectedEof)
                        },
                    }
                } else if t.tok == Tok::Rule {
                    match spec_rule(toks, j) {
                        Err(e) => Err(e),
                        Ok((rs, k)) => if advanced(toks, j, k) {
                            spec_class_rest(toks, k, ClassModel { rules: m.rules + rs, ..m })
                        } else {
                            Err(DsnError::UnexpectedEof)
                        },
                    }
                } else {
                    Err(DsnError::UnrecognisedToken(t))
                },
            }
        } else {
            match spec_next(toks, j) {
                Err(e) => Err(e),
                Ok((x, _)) => spec_class_rest(
                    toks,
                    j + 1,
                    ClassModel { net_ids: m.net_ids.push(x.s@), ..m },
                ),
            }
        },
    }
}

/// `(class <class_id> {<net_id>} {<circuit_descriptor>} {<rule_descriptor>})`
pub open spec fn spec_class(toks: Seq<Token>, i: int) -> Step<ClassModel> {
    match spec_open(toks, i, Tok::Class) {
        Err(e) => Err(e),
        Ok(_) => match spec_next(toks, i + 2) {
            Err(e) => Err(e),
            Ok((lit, _)) => spec_class_rest(
                toks,
                i + 3,
                ClassModel {
                    class_id: lit.s@,
                    net_ids: Seq::empty(),
                    circuits: Seq::empty(),
                    rules: Seq::empty(),
                },
            ),
        },
    }
}

/// The rest of a network descriptor from index `j`: nets and classes in any
/// order, then `)`.
pub open spec fn spec_network_rest(toks: Seq<Token>, j: int, m: NetworkModel) -> Step<NetworkModel>
    decreases toks.len() - j,
{
    match spec_peek(toks, j, 0) {
        Err(e) => Err(e),
        Ok(t0) => if t0.tok == Tok::Rparen {
            Ok((m, j + 1))
        } else {
            match spec_peek(toks, j, 1) {
                Err(e) => Err(e),
                Ok(t) => if t.tok == Tok::Class {
                    match spec_class(toks, j) {
                        Err(e) => Err(e),
                        Ok((c, k)) => if advanced(toks, j, k) {
                            spec_network_rest(toks, k, NetworkModel { classes: m.classes.push(c), ..m })
                        } else {
                            Err(DsnError::UnexpectedEof)
                        },
                    }
                } else if t.tok == Tok::Net {
                    match spec_net(toks, j) {
                        Err(e) => Err(e),
                        Ok((n, k)) => if advanced(toks, j, k) {
                            spec_network_rest(toks, k, NetworkModel { nets: m.nets.push(n), ..m })
                        } else {
                            Err(DsnError::UnexpectedEof)
                        },
                    }
                } else {
                    Err(DsnError::UnrecognisedToken(t))
                },
            }
        },
    }
}

/// `(network {<net_descriptor>} {<class_descriptor>})`
pub open spec fn spec_network(toks: Seq<Token>, i: int) -> Step<NetworkModel> {
    match spec_open(toks, i, Tok::Network) {
        Err(e) => Err(e),
        Ok(_) => spec_network_rest(
            toks,
            i + 2,
            NetworkModel { nets: Seq::empty(), classes: Seq::empty() },
        ),
    }
}

impl Parser {
    /// Reads `(clearance <positive_dimension> {(type <clearance_type>)})`.
    pub fn clearance(&mut self) -> (r: Result<DsnClearance, DsnError>)
        ensures
            final(self).spec_toks() == old(self).spec_toks(),
            match spec_clearance(old(self).spec_toks(), old(self).spec_idx()) {
                Ok((m, j)) => r matches Ok(v) && v@ == m && final(self).spec_idx() == j
                    && advanced(old(self).spec_toks(), old(self).spec_idx(), j),
                Err(e) => r == Err::<DsnClearance, DsnError>(e),
            },
    {
        let ghost toks0 = self.spec_toks();
        let ghost i0 = self.spec_idx();
        let ghost target = spec_clearance(toks0, i0);
        self.open(Tok::Clearance)?;
        let amount = self.number()?;
        let mut v = DsnClearance { amount, types: Vec::new() };
        loop
            invariant
                self.spec_toks() == toks0,
                toks0 == old(self).spec_toks(),
                i0 == old(self).spec_idx(),
                target == spec_clearance(toks0, i0),
                spec_clearance_rest(toks0, self.spec_idx(), v.amount, v.types@) == target,
                i0 < self.spec_idx() <= toks0.len(),
            decreases toks0.len() - self.spec_idx(),
        {
            let t0 = self.peek(0)?;
            if t0.tok == Tok::Rparen {
                self.expect(Tok::Rparen)?;
                return Ok(v);
            }
            self.open(Tok::Type)?;
            let ct = match self.next()?.tok {
                Tok::DefaultSmd => DsnClearanceType::DefaultSmd,
                Tok::SmdSmd => DsnClearanceType::SmdSmd,
                _ => {
                    return Err(DsnError::UnrecognisedClearanceType);
                },
            };
            v.types.push(ct);
            self.expect(Tok::Rparen)?;
        }
    }

    /// Reads `(rule {(width <number>) | <clearance_descriptor>})`: its rules,
    /// in order.
    pub fn rule(&mut self) -> (r: Result<Vec<DsnRule>, DsnError>)
        ensures
            final(self).spec_toks() == old(self).spec_toks(),
            match spec_rule(old(self).spec_toks(), old(self).spec_idx()) {
                Ok((m, j)) => r matches Ok(v) && rules_model(v@) == m && final(self).spec_idx() == j
                    && advanced(old(self).spec_toks(), old(self).spec_idx(), j),
                Err(e) => r == Err::<Vec<DsnRule>, DsnError>(e),
            },
    {
        let ghost toks0 = self.spec_toks();
        let ghost i0 = self.spec_idx();
        let ghost target = spec_rule(toks0, i0);
        self.open(Tok::Rule)?;
        let mut v: Vec<DsnRule> = Vec::new();
        assert(rules_model(v@) =~= Seq::<RuleModel>::empty());
        loop
            invariant
                self.spec_toks() == toks0,
                toks0 == old(self).spec_toks(),
                i0 == old(self).spec_idx(),
                target == spec_rule(toks0, i0),
                spec_rule_rest(toks0, self.spec_idx(), rules_model(v@)) == target,
                i0 < self.spec_idx() <= toks0.len(),
            decreases toks0.len() - self.spec_idx(),
        {
            let t0 = self.peek(0)?;
            if t0.tok == Tok::Rparen {
                self.expect(Tok::Rparen)?;
                return Ok(v);
            }
            let t = self.peek(1)?;
            let ghost prev = v@;
            match t.tok {
                Tok::Width => {
                    self.open(Tok::Width)?;
                    let width = self.number()?;
                    v.push(DsnRule::Width(width));
                    assert(rules_model(v@) =~= rules_model(prev).push(RuleModel::Width(width)));
                    self.expect(Tok::Rparen)?;
                },
                Tok::Clearance => {
                    let c = self.clearance()?;
                    v.push(DsnRule::Clearance(c));
                    assert(rules_model(v@) =~= rules_model(prev).push(RuleModel::Clearance(c@)));
                },
                _ => {
                    return Err(DsnError::UnrecognisedToken(t));
                },
            }
        }
    }

    /// Reads `(circuit {(use_via <padstack_id>)})`.
    pub fn circuit(&mut self) -> (r: Result<DsnCircuit, DsnError>)
        ensures
            final(self).spec_toks() == old(self).spec_toks(),
            match spec_circuit(old(self).spec_toks(), old(self).spec_idx()) {
                Ok((m, j)) => r matches Ok(v) && circuit_model(v) == m && final(self).spec_idx() == j
                    && advanced(old(self).spec_toks(), old(self).spec_idx(), j),
                Err(e) => r == Err::<DsnCircuit, DsnError>(e),
            },
    {
        let ghost toks0 = self.spec_toks();
        let ghost i0 = self.spec_idx();
        let ghost target = spec_circuit(toks0, i0);
        self.open(Tok::Circuit)?;
        let mut use_via = String::new();
        loop
            invariant
                self.spec_toks() == toks0,
                toks0 == old(self).spec_toks(),
                i0 == old(self).spec_idx(),
                target == spec_circuit(toks0, i0),
                spec_circuit_rest(toks0, self.spec_idx(), use_via@) == target,
                i0 < self.spec_idx() <= toks0.len(),
            decreases toks0.len() - self.spec_idx(),
        {
            let t0 = self.peek(0)?;
            if t0.tok == Tok::Rparen {
                self.expect(Tok::Rparen)?;
                return Ok(DsnCircuit::UseVia(use_via));
            }
            let t = self.peek(1)?;
            match t.tok {
                Tok::UseVia => {
                    self.open(Tok::UseVia)?;
                    use_via = self.literal()?;
                    self.expect(Tok::Rparen)?;
                },
                _ => {
                    return Err(DsnError::UnrecognisedToken(t));
                },
            }
        }
    }

    /// Reads `(class <class_id> {<net_id>} {<circuit_descriptor>}
    /// {<rule_descriptor>})`.
    pub fn class(&mut self) -> (r: Result<DsnClass, DsnError>)
        ensures
            final(self).spec_toks() == old(self).spec_toks(),
            match spec_class(old(self).spec_toks(), old(self).spec_idx()) {
                Ok((m, j)) => r matches Ok(v) && v@ == m && final(self).spec_idx() == j
                    && advanced(old(self).spec_toks(), old(self).spec_idx(), j),
                Err(e) => r == Err::<DsnClass, DsnError>(e),
            },
    {
        let ghost toks0 = self.spec_toks();
        let ghost i0 = self.spec_idx();
        let ghost target = spec_class(toks0, i0);
        self.open(Tok::Class)?;
        let class_id = self.literal()?;
        let mut v = DsnClass { class_id, net_ids: Vec::new(), circuits: Vec::new(), rules: Vec::new() };
        assert(v@ =~= ClassModel {
            class_id: v.class_id@,
            net_ids: Seq::empty(),
            circuits: Seq::empty(),
            rules: Seq::empty(),
        });
        loop
            invariant
                self.spec_toks() == toks0,
                toks0 == old(self).spec_toks(),
                i0 == old(self).spec_idx(),
                target == spec_class(toks0, i0),
                spec_class_rest(toks0, self.spec_idx(), v@) == target,
                i0 < self.spec_idx() <= toks0.len(),
            decreases toks0.len() - self.spec_idx(),
        {
            let t0 = self.peek(0)?;
            if t0.tok == Tok::Rparen {
                self.expect(Tok::Rparen)?;
                return Ok(v);
            }
            let ghost prev = v@;
            if t0.tok == Tok::Lparen {
                let t = self.peek(1)?;
                match t.tok {
                    Tok::Circuit => {
                        let c = self.circuit()?;
                        v.circuits.push(c);
                        assert(v@ =~= ClassModel { circuits: prev.circuits.push(circuit_model(c)), ..prev });
                    },
                    Tok::Rule => {
                        let mut rs = self.rule()?;
                        let ghost added = rs@;
                        v.rules.append(&mut rs);
                        assert(rules_model(v.rules@) =~= prev.rules + rules_model(added));
                        assert(v@ =~= ClassModel { rules: prev.rules + rules_model(added), ..prev });
                    },
                    _ => {
                        return Err(DsnError::UnrecognisedToken(t));
                    },
                }
            } else {
                let n = self.literal()?;
                v.net_ids.push(n);
                assert(v@ =~= ClassModel { net_ids: prev.net_ids.push(n@), ..prev });
            }
        }
    }

    /// Reads `(network {<net_descriptor>} {<class_descriptor>})`.
    pub fn network(&mut self) -> (r: Result<DsnNetwork, DsnError>)
        ensures
            final(self).spec_toks() == old(self).spec_toks(),
            match spec_network(old(self).spec_toks(), old(self).spec_idx()) {
                Ok((m, j)) => r matches Ok(v) && v@ == m && final(self).spec_idx() == j
                    && advanced(old(self).spec_toks(), old(self).spec_idx(), j),
                Err(e) => r == Err::<DsnNetwork, DsnError>(e),
            },
    {
        let ghost toks0 = self.spec_toks();
        let ghost i0 = self.spec_idx();
        let ghost target = spec_network(toks0, i0);
        self.open(Tok::Network)?;
        let mut v = DsnNetwork { nets: Vec::new(), classes: Vec::new() };
        assert(v@ =~= NetworkModel { nets: Seq::empty(), classes: Seq::empty() });
        loop
            invariant
                self.spec_toks() == toks0,
                toks0 == old(self).spec_toks(),
                i0 == old(self).spec_idx(),
                target == spec_network(toks0, i0),
                spec_network_rest(toks0, self.spec_idx(), v@) == target,
                i0 < self.spec_idx() <= toks0.len(),
            decreases toks0.len() - self.spec_idx(),
        {
            let t0 = self.peek(0)?;
            if t0.tok == Tok::Rparen {
                self.expect(Tok::Rparen)?;
                return Ok(v);
            }
            let t = self.peek(1)?;
            let ghost prev = v@;
            match t.tok {
                Tok::Class => {
                    let c = self.class()?;
                    v.classes.push(c);
                    assert(v@ =~= NetworkModel { classes: prev.classes.push(c@), ..prev });
                },
                Tok::Net => {
                    let n = self.net()?;
                    v.nets.push(n);
                    assert(v@ =~= NetworkModel { nets: prev.nets.push(net_model(n)), ..prev });
                },
                _ => {
                    return Err(DsnError::UnrecognisedToken(t));
                },
            }
        }
    }
}

} // verus!
