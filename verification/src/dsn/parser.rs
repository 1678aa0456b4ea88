use vstd::prelude::*;

use crate::dsn::error::DsnError;
use crate::dsn::token::{Tok, Token};
use crate::dsn::types::{
    DsnDimensionUnit, DsnLayer, DsnLayerType, DsnNet, DsnPinRef, DsnPt, DsnResolution, DsnSide,
    DsnVia, DsnWire, DsnWiring,
};
use crate::dsn::number::{decimal_parse, parse_decimal, DsnNumber};
use crate::text::{parse_i32, spec_parse_i32, spec_split_once, split_once};

verus! {

/// The outcome of reading a construct that starts at some index: the value
/// and the index after it, or the error.
pub type Step<A> = Result<(A, int), DsnError>;

/// The token at index `i`, if any.
pub open spec fn spec_next(toks: Seq<Token>, i: int) -> Step<Token> {
    if 0 <= i < toks.len() {
        Ok((toks[i], i + 1))
    } else {
        Err(DsnError::UnexpectedEof)
    }
}

/// The token `ahead` places after index `i`, if any; reading it consumes
/// nothing.
pub open spec fn spec_peek(toks: Seq<Token>, i: int, ahead: int) -> Result<Token, DsnError> {
    if 0 <= i + ahead < toks.len() {
        Ok(toks[i + ahead])
    } else {
        Err(DsnError::UnexpectedEof)
    }
}

/// The token at index `i`, which must be of kind `t`.
pub open spec fn spec_expect(toks: Seq<Token>, i: int, t: Tok) -> Step<Token> {
    match spec_next(toks, i) {
        Ok((x, j)) => if x.tok == t {
            Ok((x, j))
        } else {
            Err(DsnError::UnexpectedToken(x))
        },
        Err(e) => Err(e),
    }
}

/// An `on` or `off` switch.
pub open spec fn spec_onoff(toks: Seq<Token>, i: int) -> Step<bool> {
    match spec_next(toks, i) {
        Ok((x, j)) => match x.tok {
            Tok::Off => Ok((false, j)),
            Tok::On => Ok((true, j)),
            _ => Err(DsnError::ExpectedOnOff),
        },
        Err(e) => Err(e),
    }
}

/// A side: `front`, `back` or `both`.
pub open spec fn spec_side(toks: Seq<Token>, i: int) -> Step<DsnSide> {
    match spec_next(toks, i) {
        Ok((x, j)) => match x.tok {
            Tok::Back => Ok((DsnSide::Back, j)),
            Tok::Both => Ok((DsnSide::Both, j)),
            Tok::Front => Ok((DsnSide::Front, j)),
            _ => Err(DsnError::UnrecognisedSide),
        },
        Err(e) => Err(e),
    }
}

/// Where skipping the expression that starts at index `i` stops: if the
/// token there is `(`, after the parenthesised group that it opens; otherwise
/// the tokens are inside an expression, which is skipped up to and including
/// its closing `)`. None if the tokens end first.
pub open spec fn spec_ignore(toks: Seq<Token>, i: int) -> Option<int>
    decreases toks.len() - i, 1int,
{
    if 0 <= i < toks.len() {
        spec_ignore_loop(toks, i, toks[i].tok != Tok::Lparen)
    } else {
        None
    }
}

/// Where skipping stops when reading from index `j`: a `)` ends the skip; a
/// `(` opens a group that is skipped (see `spec_ignore`), which ends the skip
/// unless `inside` tells that the skip began inside an expression.
pub open spec fn spec_ignore_loop(toks: Seq<Token>, j: int, inside: bool) -> Option<int>
    decreases toks.len() - j, 0int,
{
    if 0 <= j < toks.len() {
        if toks[j].tok == Tok::Rparen {
            Some(j + 1)
        } else if toks[j].tok == Tok::Lparen {
            match spec_ignore(toks, j + 1) {
                None => None,
                Some(k) => if !inside {
                    Some(k)
                } else if k <= j || k > toks.len() {
                    None
                } else {
                    spec_ignore_loop(toks, k, inside)
                },
            }
        } else {
            spec_ignore_loop(toks, j + 1, inside)
        }
    } else {
        None
    }
}

/// Skipping always moves forward.
proof fn lemma_ignore_loop_advances(toks: Seq<Token>, j: int, inside: bool)
    ensures
        spec_ignore_loop(toks, j, inside) matches Some(k) ==> j < k <= toks.len(),
    decreases toks.len() - j,
{
    if 0 <= j < toks.len() {
        lemma_ignore_loop_advances(toks, j + 1, inside);
        if j + 1 < toks.len() {
            let inner = toks[j + 1].tok != Tok::Lparen;
            lemma_ignore_loop_advances(toks, j + 1, inner);
            assert(spec_ignore(toks, j + 1) == spec_ignore_loop(toks, j + 1, inner));
            match spec_ignore(toks, j + 1) {
                Some(k1) => {
                    assert(k1 > j);
                    assert(k1 <= toks.len());
                    lemma_ignore_loop_advances(toks, k1, inside);
                },
                None => {},
            }
        }
    }
}

/// Skipping always moves forward.
pub proof fn lemma_ignore_advances(toks: Seq<Token>, i: int)
    ensures
        spec_ignore(toks, i) matches Some(k) ==> i < k <= toks.len(),
{
    if 0 <= i < toks.len() {
        lemma_ignore_loop_advances(toks, i, toks[i].tok != Tok::Lparen);
    }
}

/// A 32-bit integer literal.
pub open spec fn spec_integer(toks: Seq<Token>, i: int) -> Step<i32> {
    match spec_next(toks, i) {
        Ok((x, j)) => match spec_parse_i32(x.s@) {
            Some(v) => Ok((v, j)),
            None => Err(DsnError::InvalidInteger(x.s)),
        },
        Err(e) => Err(e),
    }
}

/// `(` and then the keyword `kw`, from index `i`; what follows starts at
/// `i + 2`.
pub open spec fn spec_open(toks: Seq<Token>, i: int, kw: Tok) -> Result<(), DsnError> {
    match spec_expect(toks, i, Tok::Lparen) {
        Err(e) => Err(e),
        Ok(_) => match spec_expect(toks, i + 1, kw) {
            Err(e) => Err(e),
            Ok(_) => Ok(()),
        },
    }
}

/// A decimal number: one literal, read as `rust_decimal` reads it.
pub open spec fn spec_number(toks: Seq<Token>, i: int) -> Step<DsnNumber> {
    match spec_next(toks, i) {
        Ok((x, j)) => match decimal_parse(x.s@) {
            Some((m, s)) => Ok((DsnNumber { mantissa: m, scale: s }, j)),
            None => Err(DsnError::InvalidNumber(x.s)),
        },
        Err(e) => Err(e),
    }
}

/// A vertex: two numbers, `x` then `y`.
pub open spec fn spec_vertex(toks: Seq<Token>, i: int) -> Step<DsnPt> {
    match spec_number(toks, i) {
        Err(e) => Err(e),
        Ok((x, _)) => match spec_number(toks, i + 1) {
            Err(e) => Err(e),
            Ok((y, _)) => Ok((DsnPt { x, y }, i + 2)),
        },
    }
}

/// The component and pin of a pin reference.
pub type PinRefModel = (Seq<char>, Seq<char>);

/// The component and pin that a pin reference names.
pub open spec fn pin_ref_model(p: DsnPinRef) -> PinRefModel {
    (p.component_id@, p.pin_id@)
}

/// The component and pins that a sequence of pin references names.
pub open spec fn pin_refs_model(ps: Seq<DsnPinRef>) -> Seq<PinRefModel> {
    ps.map_values(|p: DsnPinRef| pin_ref_model(p))
}

/// A pin reference `<component_id>-<pin_id>`: one literal, split at its
/// first `-`.
pub open spec fn spec_pin_ref(toks: Seq<Token>, i: int) -> Step<PinRefModel> {
    match spec_next(toks, i) {
        Ok((x, j)) => match spec_split_once(x.s@, '-') {
            Some((a, b)) => Ok(((a, b), j)),
            None => Err(DsnError::InvalidPinRef(x.s)),
        },
        Err(e) => Err(e),
    }
}

/// The rest of a net descriptor after its ID `id`, where `acc` holds the
/// pins read so far: any number of `(pins {<pin_reference>})` clauses, then
/// `)`. Any other clause is refused.
pub open spec fn spec_net_rest(toks: Seq<Token>, j: int, id: Seq<char>, acc: Seq<PinRefModel>) -> Step<
    (Seq<char>, Seq<PinRefModel>),
>
    decreases toks.len() - j, 1int,
{
    match spec_peek(toks, j, 0) {
        Err(e) => Err(e),
        Ok(t0) => if t0.tok == Tok::Rparen {
            Ok(((id, acc), j + 1))
        } else {
            match spec_peek(toks, j, 1) {
                Err(e) => Err(e),
                Ok(t) => if t.tok == Tok::Pins {
                    match spec_expect(toks, j, Tok::Lparen) {
                        Err(e) => Err(e),
                        Ok(_) => match spec_expect(toks, j + 1, Tok::Pins) {
                            Err(e) => Err(e),
                            Ok(_) => spec_pins_rest(toks, j + 2, id, acc),
                        },
                    }
                } else {
                    Err(DsnError::UnrecognisedToken(t))
                },
            }
        },
    }
}

/// The rest of a `(pins ...)` clause from index `j`: pin references up to
/// the closing `)`, then the rest of the net descriptor.
pub open spec fn spec_pins_rest(toks: Seq<Token>, j: int, id: Seq<char>, acc: Seq<PinRefModel>) -> Step<
    (Seq<char>, Seq<PinRefModel>),
>
    decreases toks.len() - j, 0int,
{
    match spec_peek(toks, j, 0) {
        Err(e) => Err(e),
        Ok(t0) => if t0.tok == Tok::Rparen {
            spec_net_rest(toks, j + 1, id, acc)
        } else {
            match spec_pin_ref(toks, j) {
                Err(e) => Err(e),
                Ok((p, _)) => spec_pins_rest(toks, j + 1, id, acc.push(p)),
            }
        },
    }
}

/// A net descriptor `(net <net_id> {(pins {<pin_reference>})})`: its ID and
/// its pins, in order.
pub open spec fn spec_net(toks: Seq<Token>, i: int) -> Step<(Seq<char>, Seq<PinRefModel>)> {
    match spec_expect(toks, i, Tok::Lparen) {
        Err(e) => Err(e),
        Ok(_) => match spec_expect(toks, i + 1, Tok::Net) {
            Err(e) => Err(e),
            Ok(_) => match spec_next(toks, i + 2) {
                Err(e) => Err(e),
                Ok((x, _)) => spec_net_rest(toks, i + 3, x.s@, Seq::empty()),
            },
        },
    }
}

/// The dimension unit that a keyword names.
pub open spec fn spec_unit_of(t: Tok) -> Option<DsnDimensionUnit> {
    match t {
        Tok::Inch => Some(DsnDimensionUnit::Inch),
        Tok::Mil => Some(DsnDimensionUnit::Mil),
        Tok::Cm => Some(DsnDimensionUnit::Cm),
        Tok::Mm => Some(DsnDimensionUnit::Mm),
        Tok::Um => Some(DsnDimensionUnit::Um),
        _ => None,
    }
}

/// A resolution descriptor `(resolution <dimension_unit> <integer>)`.
pub open spec fn spec_resolution(toks: Seq<Token>, i: int) -> Step<DsnResolution> {
    match spec_expect(toks, i, Tok::Lparen) {
        Err(e) => Err(e),
        Ok(_) => match spec_expect(toks, i + 1, Tok::Resolution) {
            Err(e) => Err(e),
            Ok(_) => match spec_next(toks, i + 2) {
                Err(e) => Err(e),
                Ok((x, _)) => match spec_unit_of(x.tok) {
                    None => Err(DsnError::UnknownDimensionUnit),
                    Some(u) => match spec_integer(toks, i + 3) {
                        Err(e) => Err(e),
                        Ok((a, _)) => match spec_expect(toks, i + 4, Tok::Rparen) {
                            Err(e) => Err(e),
                            Ok(_) => Ok((DsnResolution { amount: a, dimension: u }, i + 5)),
                        },
                    },
                },
            },
        },
    }
}

/// The layer type that a keyword names.
pub open spec fn spec_layer_type_of(t: Tok) -> Option<DsnLayerType> {
    match t {
        Tok::Jumper => Some(DsnLayerType::Jumper),
        Tok::Mixed => Some(DsnLayerType::Mixed),
        Tok::Power => Some(DsnLayerType::Power),
        Tok::Signal => Some(DsnLayerType::Signal),
        _ => None,
    }
}

/// The name and type of a layer.
pub type LayerModel = (Seq<char>, DsnLayerType);

/// The rest of a layer descriptor after its name: `(type <layer_type>)`
/// clauses, each of which sets the type, and `(property ...)` clauses, which
/// are skipped, then `)`. Any other clause is refused.
pub open spec fn spec_layer_rest(toks: Seq<Token>, j: int, name: Seq<char>, ty: DsnLayerType) -> Step<
    LayerModel,
>
    decreases toks.len() - j,
{
    match spec_peek(toks, j, 0) {
        Err(e) => Err(e),
        Ok(t0) => if t0.tok == Tok::Rparen {
            Ok(((name, ty), j + 1))
        } else {
            match spec_peek(toks, j, 1) {
                Err(e) => Err(e),
                Ok(t) => if t.tok == Tok::Type {
                    match spec_expect(toks, j, Tok::Lparen) {
                        Err(e) => Err(e),
                        Ok(_) => match spec_expect(toks, j + 1, Tok::Type) {
                            Err(e) => Err(e),
                            Ok(_) => match spec_next(toks, j + 2) {
                                Err(e) => Err(e),
                                Ok((x, _)) => match spec_layer_type_of(x.tok) {
                                    None => Err(DsnError::UnrecognisedLayerType),
                                    Some(lt) => match spec_expect(toks, j + 3, Tok::Rparen) {
                                        Err(e) => Err(e),
                                        Ok(_) => spec_layer_rest(toks, j + 4, name, lt),
                                    },
                                },
                            },
                        },
                    }
                } else if t.tok == Tok::Property {
                    match spec_ignore(toks, j) {
                        None => Err(DsnError::UnexpectedEof),
                        Some(k) => if k <= j || k > toks.len() {
                            Err(DsnError::UnexpectedEof)
                        } else {
                            spec_layer_rest(toks, k, name, ty)
                        },
                    }
                } else {
                    Err(DsnError::UnrecognisedToken(t))
                },
            }
        },
    }
}

/// A layer descriptor `(layer <layer_name> {(type <layer_type>) |
/// (property ...)})`; the type is `signal` unless a clause sets it.
pub open spec fn spec_layer(toks: Seq<Token>, i: int) -> Step<LayerModel> {
    match spec_expect(toks, i, Tok::Lparen) {
        Err(e) => Err(e),
        Ok(_) => match spec_expect(toks, i + 1, Tok::Layer) {
            Err(e) => Err(e),
            Ok(_) => match spec_next(toks, i + 2) {
                Err(e) => Err(e),
                Ok((x, _)) => spec_layer_rest(toks, i + 3, x.s@, DsnLayerType::Signal),
            },
        },
    }
}

/// A descriptor `(<kw>)` of which nothing is read: any clause in it is
/// refused.
pub open spec fn spec_empty_descriptor(toks: Seq<Token>, i: int, kw: Tok) -> Step<()> {
    match spec_expect(toks, i, Tok::Lparen) {
        Err(e) => Err(e),
        Ok(_) => match spec_expect(toks, i + 1, kw) {
            Err(e) => Err(e),
            Ok(_) => match spec_peek(toks, i + 2, 0) {
                Err(e) => Err(e),
                Ok(t0) => if t0.tok == Tok::Rparen {
                    Ok(((), i + 3))
                } else {
                    match spec_peek(toks, i + 2, 1) {
                        Err(e) => Err(e),
                        Ok(t) => Err(DsnError::UnrecognisedToken(t)),
                    }
                },
            },
        },
    }
}

/// Reads the constructs of a DSN file from its tokens, front to back.
pub struct Parser {
    toks: Vec<Token>,
    idx: usize,
}

impl Parser {
    /// The tokens.
    pub closed spec fn spec_toks(&self) -> Seq<Token> {
        self.toks@
    }

    /// The index of the next token to read.
    pub closed spec fn spec_idx(&self) -> int {
        self.idx as int
    }

    /// A parser at the first of `toks`.
    pub fn new(toks: &[Token]) -> (p: Self)
        ensures
            p.spec_toks() == toks@,
            p.spec_idx() == 0,
    {
        let mut v: Vec<Token> = Vec::new();
        let mut k: usize = 0;
        while k < toks.len()
            invariant
                k <= toks@.len(),
                v@ == toks@.take(k as int),
            decreases toks@.len() - k,
        {
            v.push(toks[k].clone());
            assert(v@ =~= toks@.take(k + 1));
            k = k + 1;
        }
        assert(v@ =~= toks@);
        Parser { toks: v, idx: 0 }
    }

    /// The token `ahead` places after the next one, without reading it.
    pub fn peek(&self, ahead: usize) -> (r: Result<Token, DsnError>)
        ensures
            r == spec_peek(self.spec_toks(), self.spec_idx(), ahead as int),
    {
        if self.idx < self.toks.len() && ahead < self.toks.len() - self.idx {
            Ok(self.toks[self.idx + ahead].clone())
        } else {
            Err(DsnError::UnexpectedEof)
        }
    }

    /// Reads the next token.
    pub fn next(&mut self) -> (r: Result<Token, DsnError>)
        ensures
            final(self).spec_toks() == old(self).spec_toks(),
            match spec_next(old(self).spec_toks(), old(self).spec_idx()) {
                Ok((x, j)) => r == Ok::<Token, DsnError>(x) && final(self).spec_idx() == j,
                Err(e) => r == Err::<Token, DsnError>(e) && final(self).spec_idx() == old(self).spec_idx(),
            },
    {
        if self.idx < self.toks.len() {
            self.idx += 1;
            Ok(self.toks[self.idx - 1].clone())
        } else {
            Err(DsnError::UnexpectedEof)
        }
    }

    /// Reads the next token, which must be of kind `t`.
    pub fn expect(&mut self, t: Tok) -> (r: Result<Token, DsnError>)
        ensures
            final(self).spec_toks() == old(self).spec_toks(),
            match spec_expect(old(self).spec_toks(), old(self).spec_idx(), t) {
                Ok((x, j)) => r == Ok::<Token, DsnError>(x) && final(self).spec_idx() == j,
                Err(e) => r == Err::<Token, DsnError>(e),
            },
    {
        let x = self.next()?;
        if x.tok == t {
            Ok(x)
        } else {
            Err(DsnError::UnexpectedToken(x))
        }
    }

    /// Reads the text of the next token.
    pub fn literal(&mut self) -> (r: Result<String, DsnError>)
        ensures
            final(self).spec_toks() == old(self).spec_toks(),
            match spec_next(old(self).spec_toks(), old(self).spec_idx()) {
                Ok((x, j)) => r == Ok::<String, DsnError>(x.s) && final(self).spec_idx() == j,
                Err(e) => r == Err::<String, DsnError>(e),
            },
    {
        Ok(self.next()?.s)
    }

    /// Reads an `on` or `off` switch.
    pub fn onoff(&mut self) -> (r: Result<bool, DsnError>)
        ensures
            final(self).spec_toks() == old(self).spec_toks(),
            match spec_onoff(old(self).spec_toks(), old(self).spec_idx()) {
                Ok((b, j)) => r == Ok::<bool, DsnError>(b) && final(self).spec_idx() == j,
                Err(e) => r == Err::<bool, DsnError>(e),
            },
    {
        match self.next()?.tok {
            Tok::Off => Ok(false),
            Tok::On => Ok(true),
            _ => Err(DsnError::ExpectedOnOff),
        }
    }

    /// Reads a side: `front`, `back` or `both`.
    pub fn side(&mut self) -> (r: Result<DsnSide, DsnError>)
        ensures
            final(self).spec_toks() == old(self).spec_toks(),
            match spec_side(old(self).spec_toks(), old(self).spec_idx()) {
                Ok((s, j)) => r == Ok::<DsnSide, DsnError>(s) && final(self).spec_idx() == j,
                Err(e) => r == Err::<DsnSide, DsnError>(e),
            },
    {
        match self.next()?.tok {
            Tok::Back => Ok(DsnSide::Back),
            Tok::Both => Ok(DsnSide::Both),
            Tok::Front => Ok(DsnSide::Front),
            _ => Err(DsnError::UnrecognisedSide),
        }
    }

    /// Skips the expression at the current token: a parenthesised group if
    /// it starts with `(`, otherwise the rest of the enclosing expression up
    /// to and including its `)` (see `spec_ignore`).
    pub fn ignore(&mut self) -> (r: Result<(), DsnError>)
        ensures
            final(self).spec_toks() == old(self).spec_toks(),
            match spec_ignore(old(self).spec_toks(), old(self).spec_idx()) {
                Some(k) => r is Ok && final(self).spec_idx() == k,
                None => r == Err::<(), DsnError>(DsnError::UnexpectedEof),
            },
        decreases old(self).spec_toks().len() - old(self).spec_idx(),
    {
        let ghost toks0 = self.toks@;
        let ghost i0 = self.idx as int;
        assert(toks0 == old(self).spec_toks());
        let inside_expr = self.peek(0)?.tok != Tok::Lparen;
        loop
            invariant
                self.toks@ == toks0,
                toks0 == old(self).spec_toks(),
                i0 == old(self).spec_idx(),
                self.idx >= i0,
                0 <= i0 < toks0.len(),
                inside_expr == (toks0[i0].tok != Tok::Lparen),
                spec_ignore_loop(toks0, self.idx as int, inside_expr) == spec_ignore(toks0, i0),
            decreases toks0.len() - self.idx,
        {
            let ghost j = self.idx as int;
            let t = self.next()?;
            if t.tok == Tok::Rparen {
                return Ok(());
            }
            if t.tok == Tok::Lparen {
                proof {
                    lemma_ignore_advances(toks0, j + 1);
                }
                self.ignore()?;
                if !inside_expr {
                    return Ok(());
                }
            }
        }
    }

    /// Reads a 32-bit integer literal.
    pub fn integer(&mut self) -> (r: Result<i32, DsnError>)
        ensures
            final(self).spec_toks() == old(self).spec_toks(),
            match spec_integer(old(self).spec_toks(), old(self).spec_idx()) {
                Ok((v, j)) => r == Ok::<i32, DsnError>(v) && final(self).spec_idx() == j,
                Err(e) => r == Err::<i32, DsnError>(e),
            },
    {
        let s = self.literal()?;
        match parse_i32(s.as_str()) {
            Some(v) => Ok(v),
            None => Err(DsnError::InvalidInteger(s)),
        }
    }

    /// Reads `(` and then the keyword `kw`.
    pub fn open(&mut self, kw: Tok) -> (r: Result<(), DsnError>)
        ensures
            final(self).spec_toks() == old(self).spec_toks(),
            match spec_open(old(self).spec_toks(), old(self).spec_idx(), kw) {
                Ok(_) => r is Ok && final(self).spec_idx() == old(self).spec_idx() + 2,
                Err(e) => r == Err::<(), DsnError>(e),
            },
    {
        self.expect(Tok::Lparen)?;
        self.expect(kw)?;
        Ok(())
    }

    /// Reads a decimal number.
    pub fn number(&mut self) -> (r: Result<DsnNumber, DsnError>)
        ensures
            final(self).spec_toks() == old(self).spec_toks(),
            match spec_number(old(self).spec_toks(), old(self).spec_idx()) {
                Ok((v, j)) => r == Ok::<DsnNumber, DsnError>(v) && v.wf() && final(self).spec_idx() == j,
                Err(e) => r == Err::<DsnNumber, DsnError>(e),
            },
    {
        let s = self.literal()?;
        match parse_decimal(s.as_str()) {
            Ok((mantissa, scale)) => Ok(DsnNumber { mantissa, scale }),
            Err(_) => Err(DsnError::InvalidNumber(s)),
        }
    }

    /// Reads a vertex: `x` then `y`.
    pub fn vertex(&mut self) -> (r: Result<DsnPt, DsnError>)
        ensures
            final(self).spec_toks() == old(self).spec_toks(),
            match spec_vertex(old(self).spec_toks(), old(self).spec_idx()) {
                Ok((p, j)) => r == Ok::<DsnPt, DsnError>(p) && p.x.wf() && p.y.wf()
                    && final(self).spec_idx() == j,
                Err(e) => r == Err::<DsnPt, DsnError>(e),
            },
    {
        let x = self.number()?;
        let y = self.number()?;
        Ok(DsnPt { x, y })
    }

    /// Reads a pin reference `<component_id>-<pin_id>`.
    pub fn pin_ref(&mut self) -> (r: Result<DsnPinRef, DsnError>)
        ensures
            final(self).spec_toks() == old(self).spec_toks(),
            match spec_pin_ref(old(self).spec_toks(), old(self).spec_idx()) {
                Ok((p, j)) => r matches Ok(x) && pin_ref_model(x) == p && final(self).spec_idx() == j,
                Err(e) => r == Err::<DsnPinRef, DsnError>(e),
            },
    {
        let p = self.literal()?;
        match split_once(p.as_str(), '-') {
            Some((a, b)) => Ok(DsnPinRef { component_id: a, pin_id: b }),
            None => Err(DsnError::InvalidPinRef(p)),
        }
    }

    /// Reads a net descriptor `(net <net_id> {(pins {<pin_reference>})})`.
    pub fn net(&mut self) -> (r: Result<DsnNet, DsnError>)
        ensures
            final(self).spec_toks() == old(self).spec_toks(),
            match spec_net(old(self).spec_toks(), old(self).spec_idx()) {
                Ok(((id, pins), j)) => r matches Ok(v) && v.net_id@ == id && pin_refs_model(v.pins@)
                    == pins && final(self).spec_idx() == j && old(self).spec_idx() < j <= old(
                    self,
                ).spec_toks().len(),
                Err(e) => r == Err::<DsnNet, DsnError>(e),
            },
    {
        let ghost toks0 = self.toks@;
        let ghost i0 = self.idx as int;
        let ghost target = spec_net(toks0, self.idx as int);
        self.expect(Tok::Lparen)?;
        self.expect(Tok::Net)?;
        let mut v = DsnNet { net_id: String::new(), pins: Vec::new() };
        v.net_id = self.literal()?;
        assert(pin_refs_model(v.pins@) =~= Seq::<PinRefModel>::empty());
        loop
            invariant
                self.toks@ == toks0,
                toks0 == old(self).spec_toks(),
                target == spec_net(old(self).spec_toks(), old(self).spec_idx()),
                spec_net_rest(toks0, self.idx as int, v.net_id@, pin_refs_model(v.pins@)) == target,
                i0 == old(self).spec_idx(),
                i0 < self.idx <= toks0.len(),
            decreases toks0.len() - self.idx,
        {
            let ghost start = self.idx;
            let t0 = self.peek(0)?;
            if t0.tok == Tok::Rparen {
                self.expect(Tok::Rparen)?;
                return Ok(v);
            }
            let t = self.peek(1)?;
            match t.tok {
                Tok::Pins => {
                    self.expect(Tok::Lparen)?;
                    self.expect(Tok::Pins)?;
                    loop
                        invariant
                            self.toks@ == toks0,
                            toks0 == old(self).spec_toks(),
                            target == spec_net(old(self).spec_toks(), old(self).spec_idx()),
                            spec_pins_rest(toks0, self.idx as int, v.net_id@, pin_refs_model(v.pins@))
                                == target,
                            i0 == old(self).spec_idx(),
                            i0 < start < self.idx <= toks0.len(),
                        ensures
                            start < self.idx,
                            self.toks@ == toks0,
                            self.idx < toks0.len(),
                            toks0[self.idx as int].tok == Tok::Rparen,
                            spec_pins_rest(toks0, self.idx as int, v.net_id@, pin_refs_model(v.pins@))
                                == target,
                        decreases toks0.len() - self.idx,
                    {
                        let u = self.peek(0)?;
                        if u.tok == Tok::Rparen {
                            break;
                        }
                        let p = self.pin_ref()?;
                        let ghost prev = v.pins@;
                        v.pins.push(p);
                        assert(pin_refs_model(v.pins@) =~= pin_refs_model(prev).push(pin_ref_model(p)));
                    }
                    self.expect(Tok::Rparen)?;
                },
                _ => {
                    return Err(DsnError::UnrecognisedToken(t));
                },
            }
        }
    }

    /// Reads a resolution descriptor `(resolution <dimension_unit> <integer>)`.
    pub fn resolution(&mut self) -> (r: Result<DsnResolution, DsnError>)
        ensures
            final(self).spec_toks() == old(self).spec_toks(),
            match spec_resolution(old(self).spec_toks(), old(self).spec_idx()) {
                Ok((v, j)) => r == Ok::<DsnResolution, DsnError>(v) && final(self).spec_idx() == j,
                Err(e) => r == Err::<DsnResolution, DsnError>(e),
            },
    {
        let mut v = DsnResolution { amount: 2540000, dimension: DsnDimensionUnit::Inch };
        self.expect(Tok::Lparen)?;
        self.expect(Tok::Resolution)?;
        v.dimension = match self.next()?.tok {
            Tok::Inch => DsnDimensionUnit::Inch,
            Tok::Mil => DsnDimensionUnit::Mil,
            Tok::Cm => DsnDimensionUnit::Cm,
            Tok::Mm => DsnDimensionUnit::Mm,
            Tok::Um => DsnDimensionUnit::Um,
            _ => {
                return Err(DsnError::UnknownDimensionUnit);
            },
        };
        v.amount = self.integer()?;
        self.expect(Tok::Rparen)?;
        Ok(v)
    }

    /// Reads a layer descriptor `(layer <layer_name> {(type <layer_type>) |
    /// (property ...)})`.
    pub fn layer(&mut self) -> (r: Result<DsnLayer, DsnError>)
        ensures
            final(self).spec_toks() == old(self).spec_toks(),
            match spec_layer(old(self).spec_toks(), old(self).spec_idx()) {
                Ok(((name, ty), j)) => r matches Ok(v) && v.layer_name@ == name && v.layer_type == ty
                    && final(self).spec_idx() == j && old(self).spec_idx() < j <= old(
                    self,
                ).spec_toks().len(),
                Err(e) => r == Err::<DsnLayer, DsnError>(e),
            },
    {
        let ghost toks0 = self.toks@;
        let ghost i0 = self.idx as int;
        let ghost target = spec_layer(toks0, self.idx as int);
        let mut v = DsnLayer { layer_name: String::new(), layer_type: DsnLayerType::Signal };
        self.expect(Tok::Lparen)?;
        self.expect(Tok::Layer)?;
        v.layer_name = self.literal()?;
        loop
            invariant
                self.toks@ == toks0,
                toks0 == old(self).spec_toks(),
                target == spec_layer(old(self).spec_toks(), old(self).spec_idx()),
                spec_layer_rest(toks0, self.idx as int, v.layer_name@, v.layer_type) == target,
                i0 == old(self).spec_idx(),
                i0 < self.idx <= toks0.len(),
            decreases toks0.len() - self.idx,
        {
            let ghost start = self.idx as int;
            let t0 = self.peek(0)?;
            if t0.tok == Tok::Rparen {
                self.expect(Tok::Rparen)?;
                return Ok(v);
            }
            let t = self.peek(1)?;
            match t.tok {
                Tok::Type => {
                    self.expect(Tok::Lparen)?;
                    self.expect(Tok::Type)?;
                    match self.next()?.tok {
                        Tok::Jumper => v.layer_type = DsnLayerType::Jumper,
                        Tok::Mixed => v.layer_type = DsnLayerType::Mixed,
                        Tok::Power => v.layer_type = DsnLayerType::Power,
                        Tok::Signal => v.layer_type = DsnLayerType::Signal,
                        _ => {
                            return Err(DsnError::UnrecognisedLayerType);
                        },
                    }
                    self.expect(Tok::Rparen)?;
                },
                Tok::Property => {
                    proof {
                        lemma_ignore_advances(toks0, start);
                    }
                    self.ignore()?;
                },
                _ => {
                    return Err(DsnError::UnrecognisedToken(t));
                },
            }
        }
    }

    /// Reads `(<kw>)`, refusing any clause in it.
    pub(crate) fn empty_descriptor(&mut self, kw: Tok) -> (r: Result<(), DsnError>)
        ensures
            final(self).spec_toks() == old(self).spec_toks(),
            match spec_empty_descriptor(old(self).spec_toks(), old(self).spec_idx(), kw) {
                Ok((_, j)) => r is Ok && final(self).spec_idx() == j,
                Err(e) => r == Err::<(), DsnError>(e),
            },
    {
        self.expect(Tok::Lparen)?;
        self.expect(kw)?;
        let t0 = self.peek(0)?;
        if t0.tok != Tok::Rparen {
            let t = self.peek(1)?;
            return Err(DsnError::UnrecognisedToken(t));
        }
        self.expect(Tok::Rparen)?;
        Ok(())
    }

    /// Reads a unit descriptor `(unit)`, of which nothing is read; the unit
    /// is the default, inches.
    pub fn unit(&mut self) -> (r: Result<DsnDimensionUnit, DsnError>)
        ensures
            final(self).spec_toks() == old(self).spec_toks(),
            match spec_empty_descriptor(old(self).spec_toks(), old(self).spec_idx(), Tok::Unit) {
                Ok((_, j)) => r == Ok::<DsnDimensionUnit, DsnError>(DsnDimensionUnit::Inch)
                    && final(self).spec_idx() == j,
                Err(e) => r == Err::<DsnDimensionUnit, DsnError>(e),
            },
    {
        self.empty_descriptor(Tok::Unit)?;
        Ok(DsnDimensionUnit::Inch)
    }

    /// Reads a wiring descriptor `(wiring)`, which holds no wires or vias.
    pub fn wiring(&mut self) -> (r: Result<DsnWiring, DsnError>)
        ensures
            final(self).spec_toks() == old(self).spec_toks(),
            match spec_empty_descriptor(old(self).spec_toks(), old(self).spec_idx(), Tok::Wiring) {
                Ok((_, j)) => r matches Ok(w) && w.wires@.len() == 0 && w.vias@.len() == 0
                    && final(self).spec_idx() == j,
                Err(e) => r == Err::<DsnWiring, DsnError>(e),
            },
    {
        self.empty_descriptor(Tok::Wiring)?;
        Ok(DsnWiring { wires: Vec::new(), vias: Vec::new() })
    }

    /// Reads a via descriptor `(via)`.
    pub fn via(&mut self) -> (r: Result<DsnVia, DsnError>)
        ensures
            final(self).spec_toks() == old(self).spec_toks(),
            match spec_empty_descriptor(old(self).spec_toks(), old(self).spec_idx(), Tok::Via) {
                Ok((_, j)) => r is Ok && final(self).spec_idx() == j,
                Err(e) => r == Err::<DsnVia, DsnError>(e),
            },
    {
        self.empty_descriptor(Tok::Via)?;
        Ok(DsnVia {  })
    }

    /// Reads a wire descriptor `(wire)`.
    pub fn wire(&mut self) -> (r: Result<DsnWire, DsnError>)
        ensures
            final(self).spec_toks() == old(self).spec_toks(),
            match spec_empty_descriptor(old(self).spec_toks(), old(self).spec_idx(), Tok::Wire) {
                Ok((_, j)) => r is Ok && final(self).spec_idx() == j,
                Err(e) => r == Err::<DsnWire, DsnError>(e),
            },
    {
        self.empty_descriptor(Tok::Wire)?;
        Ok(DsnWire {  })
    }
}

} // verus!
