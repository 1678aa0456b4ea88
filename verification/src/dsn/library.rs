use vstd::prelude::*;

use crate::dsn::error::DsnError;
use crate::dsn::models::{
    windows_model, ImageModel, KeepoutModel, LibraryModel, PadstackModel, PadstackShapeModel, PinModel,
    ShapeModel, WindowModel,
};
use crate::dsn::number::DsnNumber;
use crate::dsn::parser::{
    spec_expect, spec_next, spec_number, spec_onoff, spec_open, spec_peek, spec_vertex,
    Parser, Step,
};
use crate::dsn::shapes::{default_rect, default_shape_model, spec_shape, spec_window};
use crate::dsn::token::{Tok, Token};
use crate::dsn::types::{
    DsnImage, DsnKeepout, DsnKeepoutType, DsnLibrary, DsnPadstack, DsnPadstackShape, DsnPin, DsnShape,
};

verus! {

// The library descriptors of a DSN file: padstacks, images, keepouts and
// pins.

/// Whether a clause read from index `j` ended at `k`: after `j`, within the
/// tokens.
pub open spec fn advanced(toks: Seq<Token>, j: int, k: int) -> bool {
    j < k <= toks.len()
}

/// The windows of a padstack shape from index `j` up to its `)`, after the
/// windows `acc`.
pub open spec fn spec_windows_rest(
    toks: Seq<Token>,
    j: int,
    shape: ShapeModel,
    acc: Seq<WindowModel>,
) -> Step<PadstackShapeModel>
    decreases toks.len() - j,
{
    match spec_peek(toks, j, 0) {
        Err(e) => Err(e),
        Ok(t0) => if t0.tok == Tok::Rparen {
            Ok((PadstackShapeModel { shape, windows: acc }, j + 1))
        } else {
            match spec_peek(toks, j, 1) {
                Err(e) => Err(e),
                Ok(t) => if t.tok == Tok::Window {
                    match spec_window(toks, j) {
                        Err(e) => Err(e),
                        Ok((w, k)) => if advanced(toks, j, k) {
                            spec_windows_rest(toks, k, shape, acc.push(w))
                        } else {
                            Err(DsnError::UnexpectedEof)
                        },
                    }
                } else {
                    Err(DsnError::UnrecognisedToken(t))
                },
            }
        },
    }
}

/// `(shape <shape_descriptor> {<window_descriptor>})`
pub open spec fn spec_padstack_shape(toks: Seq<Token>, i: int) -> Step<PadstackShapeModel> {
    match spec_open(toks, i, Tok::Shape) {
        Err(e) => Err(e),
        Ok(_) => match spec_shape(toks, i + 2) {
            Err(e) => Err(e),
            Ok((s, k)) => spec_windows_rest(toks, k, s, Seq::empty()),
        },
    }
}

/// The rest of a padstack descriptor from index `j`: `(attach <on/off>)`
/// clauses, each of which sets the switch, and shapes, then `)`.
pub open spec fn spec_padstack_rest(
    toks: Seq<Token>,
    j: int,
    id: Seq<char>,
    shapes: Seq<PadstackShapeModel>,
    attach: bool,
) -> Step<PadstackModel>
    decreases toks.len() - j,
{
    match spec_peek(toks, j, 0) {
        Err(e) => Err(e),
        Ok(t0) => if t0.tok == Tok::Rparen {
            Ok((PadstackModel { padstack_id: id, shapes, attach }, j + 1))
        } else {
            match spec_peek(toks, j, 1) {
                Err(e) => Err(e),
                Ok(t) => if t.tok == Tok::Attach {
                    match spec_open(toks, j, Tok::Attach) {
                        Err(e) => Err(e),
                        Ok(_) => match spec_onoff(toks, j + 2) {
                            Err(e) => Err(e),
                            Ok((b, _)) => match spec_expect(toks, j + 3, Tok::Rparen) {
                                Err(e) => Err(e),
                                Ok(_) => spec_padstack_rest(toks, j + 4, id, shapes, b),
                            },
                        },
                    }
                } else if t.tok == Tok::Shape {
                    match spec_padstack_shape(toks, j) {
                        Err(e) => Err(e),
                        Ok((s, k)) => if advanced(toks, j, k) {
                            spec_padstack_rest(toks, k, id, shapes.push(s), attach)
                        } else {
                            Err(DsnError::UnexpectedEof)
                        },
                    }
                } else {
                    Err(DsnError::UnrecognisedToken(t))
                },
            }
        },
    }
}

/// `(padstack <padstack_id> {<shape>} [(attach <on/off>)])`; vias may sit
/// under pads unless `attach` says otherwise.
pub open spec fn spec_padstack(toks: Seq<Token>, i: int) -> Step<PadstackModel> {
    match spec_open(toks, i, Tok::Padstack) {
        Err(e) => Err(e),
        Ok(_) => match spec_next(toks, i + 2) {
            Err(e) => Err(e),
            Ok((lit, _)) => spec_padstack_rest(toks, i + 3, lit.s@, Seq::empty(), true),
        },
    }
}

/// The end of a pin descriptor from index `j`: `<pin_id> <vertex>)`.
pub open spec fn spec_pin_tail(toks: Seq<Token>, j: int, padstack_id: Seq<char>, rotation: DsnNumber) -> Step<
    PinModel,
> {
    match spec_next(toks, j) {
        Err(e) => Err(e),
        Ok((lit, _)) => match spec_vertex(toks, j + 1) {
            Err(e) => Err(e),
            Ok((p, _)) => match spec_expect(toks, j + 3, Tok::Rparen) {
                Err(e) => Err(e),
                Ok(_) => Ok((PinModel { padstack_id, rotation, pin_id: lit.s@, p }, j + 4)),
            },
        },
    }
}

/// `(pin <padstack_id> [(rotate <rotation>)] <pin_id> <vertex>)`; the
/// rotation is 0 unless given.
pub open spec fn spec_pin(toks: Seq<Token>, i: int) -> Step<PinModel> {
    match spec_open(toks, i, Tok::Pin) {
        Err(e) => Err(e),
        Ok(_) => match spec_next(toks, i + 2) {
            Err(e) => Err(e),
            Ok((pad, _)) => match spec_peek(toks, i + 3, 0) {
                Err(e) => Err(e),
                Ok(t0) => if t0.tok == Tok::Lparen {
                    match spec_open(toks, i + 3, Tok::Rotate) {
                        Err(e) => Err(e),
                        Ok(_) => match spec_number(toks, i + 5) {
                            Err(e) => Err(e),
                            Ok((rot, _)) => match spec_expect(toks, i + 6, Tok::Rparen) {
                                Err(e) => Err(e),
                                Ok(_) => spec_pin_tail(toks, i + 7, pad.s@, rot),
                            },
                        },
                    }
                } else {
                    spec_pin_tail(toks, i + 3, pad.s@, DsnNumber { mantissa: 0, scale: 0 })
                },
            },
        },
    }
}

/// The keepout type that a keyword names.
pub open spec fn spec_keepout_type_of(t: Tok) -> Option<DsnKeepoutType> {
    match t {
        Tok::Keepout => Some(DsnKeepoutType::Keepout),
        Tok::ViaKeepout => Some(DsnKeepoutType::ViaKeepout),
        Tok::WireKeepout => Some(DsnKeepoutType::WireKeepout),
        _ => None,
    }
}

/// Whether a keyword starts a shape descriptor.
pub open spec fn is_shape_keyword(t: Tok) -> bool {
    t == Tok::Rect || t == Tok::Circle || t == Tok::Polygon || t == Tok::Path || t == Tok::Qarc
}

/// The rest of a keepout descriptor from index `j`: shapes, each of which
/// replaces the one before, then `)`.
pub open spec fn spec_keepout_rest(toks: Seq<Token>, j: int, kt: DsnKeepoutType, shape: ShapeModel) -> Step<
    KeepoutModel,
>
    decreases toks.len() - j,
{
    match spec_peek(toks, j, 0) {
        Err(e) => Err(e),
        Ok(t0) => if t0.tok == Tok::Rparen {
            Ok((KeepoutModel { keepout_type: kt, shape }, j + 1))
        } else {
            match spec_peek(toks, j, 1) {
                Err(e) => Err(e),
                Ok(t) => if is_shape_keyword(t.tok) {
                    match spec_shape(toks, j) {
                        Err(e) => Err(e),
                        Ok((s, k)) => if advanced(toks, j, k) {
                            spec_keepout_rest(toks, k, kt, s)
                        } else {
                            Err(DsnError::UnexpectedEof)
                        },
                    }
                } else {
                    Err(DsnError::UnrecognisedToken(t))
                },
            }
        },
    }
}

/// `(keepout | via_keepout | wire_keepout <shape_descriptor>)`; the shape
/// is the empty rectangle unless given.
pub open spec fn spec_keepout(toks: Seq<Token>, i: int) -> Step<KeepoutModel> {
    match spec_expect(toks, i, Tok::Lparen) {
        Err(e) => Err(e),
        Ok(_) => match spec_next(toks, i + 1) {
            Err(e) => Err(e),
            Ok((x, _)) => match spec_keepout_type_of(x.tok) {
                None => Err(DsnError::UnrecognisedKeepoutType),
                Some(kt) => spec_keepout_rest(toks, i + 2, kt, default_shape_model()),
            },
        },
    }
}

/// The rest of a keepout descriptor keeps the keepout type it was given.
proof fn lemma_keepout_rest_type(toks: Seq<Token>, j: int, kt: DsnKeepoutType, shape: ShapeModel)
    ensures
        spec_keepout_rest(toks, j, kt, shape) matches Ok((k, _)) ==> k.keepout_type == kt,
    decreases toks.len() - j,
{
    if let Ok(t0) = spec_peek(toks, j, 0) {
        if t0.tok != Tok::Rparen {
            if let Ok(t) = spec_peek(toks, j, 1) {
                if is_shape_keyword(t.tok) {
                    if let Ok((s, k)) = spec_shape(toks, j) {
                        if advanced(toks, j, k) {
                            lemma_keepout_rest_type(toks, k, kt, s);
                        }
                    }
                }
            }
        }
    }
}

/// A keepout read at index `i` is of the type its keyword names: `keepout`
/// gives `Keepout`, `via_keepout` gives `ViaKeepout` and `wire_keepout`
/// gives `WireKeepout`, and no keyword gives another's type.
pub proof fn lemma_keepout_type_follows_keyword(toks: Seq<Token>, i: int)
    ensures
        spec_keepout(toks, i) matches Ok((k, _)) ==> {
            &&& 0 <= i + 1 < toks.len()
            &&& (k.keepout_type == DsnKeepoutType::Keepout <==> toks[i + 1].tok == Tok::Keepout)
            &&& (k.keepout_type == DsnKeepoutType::ViaKeepout <==> toks[i + 1].tok == Tok::ViaKeepout)
            &&& (k.keepout_type == DsnKeepoutType::WireKeepout <==> toks[i + 1].tok
                == Tok::WireKeepout)
        },
{
    if let Ok(_) = spec_expect(toks, i, Tok::Lparen) {
        if let Ok((x, _)) = spec_next(toks, i + 1) {
            if let Some(kt) = spec_keepout_type_of(x.tok) {
                lemma_keepout_rest_type(toks, i + 2, kt, default_shape_model());
            }
        }
    }
}

/// The rest of an image descriptor from index `j`: outlines, pins and
/// keepouts in any order, then `)`.
pub open spec fn spec_image_rest(toks: Seq<Token>, j: int, m: ImageModel) -> Step<ImageModel>
    decreases toks.len() - j,
{
    match spec_peek(toks, j, 0) {
        Err(e) => Err(e),
        Ok(t0) => if t0.tok == Tok::Rparen {
            Ok((m, j + 1))
        } else {
            match spec_peek(toks, j, 1) {
                Err(e) => Err(e),
                Ok(t) => if t.tok == Tok::Outline {
                    match spec_open(toks, j, Tok::Outline) {
                        Err(e) => Err(e),
                        Ok(_) => match spec_shape(toks, j + 2) {
                            Err(e) => Err(e),
                            Ok((s, k)) => match spec_expect(toks, k, Tok::Rparen) {
                                Err(e) => Err(e),
                                Ok(_) => if advanced(toks, j, k + 1) {
                                    spec_image_rest(
                                        toks,
                                        k + 1,
                                        ImageModel { outlines: m.outlines.push(s), ..m },
                                    )
                                } else {
                                    Err(DsnError::UnexpectedEof)
                                },
                            },
                        },
                    }
                } else if t.tok == Tok::Pin {
                    match spec_pin(toks, j) {
                        Err(e) => Err(e),
                        Ok((p, k)) => if advanced(toks, j, k) {
                            spec_image_rest(toks, k, ImageModel { pins: m.pins.push(p), ..m })
                        } else {
                            Err(DsnError::UnexpectedEof)
                        },
                    }
                } else if spec_keepout_type_of(t.tok) is Some {
                    match spec_keepout(toks, j) {
                        Err(e) => Err(e),
                        Ok((ko, k)) => if advanced(toks, j, k) {
                            spec_image_rest(toks, k, ImageModel { keepouts: m.keepouts.push(ko), ..m })
                        } else {
                            Err(DsnError::UnexpectedEof)
                        },
                    }
                } else {
                    Err(DsnError::UnrecognisedToken(t))
                },
            }
        },
    }
}

/// `(image <image_id> {(outline <shape_descriptor>)} {<pin_descriptor>}
/// {<keepout_descriptor>})`
pub open spec fn spec_image(toks: Seq<Token>, i: int) -> Step<ImageModel> {
    match spec_open(toks, i, Tok::Image) {
        Err(e) => Err(e),
        Ok(_) => match spec_next(toks, i + 2) {
            Err(e) => Err(e),
            Ok((lit, _)) => spec_image_rest(
                toks,
                i + 3,
                ImageModel {
                    image_id: lit.s@,
                    outlines: Seq::empty(),
                    pins: Seq::empty(),
                    keepouts: Seq::empty(),
                },
            ),
        },
    }
}

/// The rest of a library descriptor from index `j`: images and padstacks in
/// any order, then `)`.
pub open spec fn spec_library_rest(toks: Seq<Token>, j: int, m: LibraryModel) -> Step<LibraryModel>
    decreases toks.len() - j,
{
    match spec_peek(toks, j, 0) {
        Err(e) => Err(e),
        Ok(t0) => if t0.tok == Tok::Rparen {
            Ok((m, j + 1))
        } else {
            match spec_peek(toks, j, 1) {
                Err(e) => Err(e),
                Ok(t) => if t.tok == Tok::Image {
                    match spec_image(toks, j) {
                        Err(e) => Err(e),
                        Ok((v, k)) => if advanced(toks, j, k) {
                            spec_library_rest(toks, k, LibraryModel { images: m.images.push(v), ..m })
                        } else {
                            Err(DsnError::UnexpectedEof)
                        },
                    }
                } else if t.tok == Tok::Padstack {
                    match spec_padstack(toks, j) {
                        Err(e) => Err(e),
                        Ok((v, k)) => if advanced(toks, j, k) {
                            spec_library_rest(
                                toks,
                                k,
                                LibraryModel { padstacks: m.padstacks.push(v), ..m },
                            )
                        } else {
                            Err(DsnError::UnexpectedEof)
                        },
                    }
                } else {
                    Err(DsnError::UnrecognisedToken(t))
                },
            }
        },
    }
}

/// `(library {<image_descriptor>} {<padstack_descriptor>})`
pub open spec fn spec_library(toks: Seq<Token>, i: int) -> Step<LibraryModel> {
    match spec_open(toks, i, Tok::Library) {
        Err(e) => Err(e),
        Ok(_) => spec_library_rest(
            toks,
            i + 2,
            LibraryModel { images: Seq::empty(), padstacks: Seq::empty() },
        ),
    }
}

impl Parser {
    /// Reads `(shape <shape_descriptor> {<window_descriptor>})`.
    pub fn padstack_shape(&mut self) -> (r: Result<DsnPadstackShape, DsnError>)
        ensures
            final(self).spec_toks() == old(self).spec_toks(),
            match spec_padstack_shape(old(self).spec_toks(), old(self).spec_idx()) {
                Ok((m, j)) => r matches Ok(v) && v@ == m && final(self).spec_idx() == j
                    && advanced(old(self).spec_toks(), old(self).spec_idx(), j),
                Err(e) => r == Err::<DsnPadstackShape, DsnError>(e),
            },
    {
        let ghost toks0 = self.spec_toks();
        let ghost i0 = self.spec_idx();
        let ghost target = spec_padstack_shape(toks0, i0);
        self.open(Tok::Shape)?;
        let shape = self.shape()?;
        let mut v = DsnPadstackShape { shape, windows: Vec::new() };
        assert(windows_model(v.windows@) =~= Seq::<WindowModel>::empty());
        loop
            invariant
                self.spec_toks() == toks0,
                toks0 == old(self).spec_toks(),
                i0 == old(self).spec_idx(),
                target == spec_padstack_shape(toks0, i0),
                spec_windows_rest(toks0, self.spec_idx(), v.shape@, windows_model(v.windows@))
                    == target,
                i0 < self.spec_idx() <= toks0.len(),
            decreases toks0.len() - self.spec_idx(),
        {
            let t0 = self.peek(0)?;
            if t0.tok == Tok::Rparen {
                self.expect(Tok::Rparen)?;
                return Ok(v);
            }
            let t = self.peek(1)?;
            match t.tok {
                Tok::Window => {
                    let w = self.window()?;
                    let ghost prev = v.windows@;
                    v.windows.push(w);
                    assert(windows_model(v.windows@) =~= windows_model(prev).push(w@));
                },
                _ => {
                    return Err(DsnError::UnrecognisedToken(t));
                },
            }
        }
    }

    /// Reads `(padstack <padstack_id> {<shape>} [(attach <on/off>)])`.
    pub fn padstack(&mut self) -> (r: Result<DsnPadstack, DsnError>)
        ensures
            final(self).spec_toks() == old(self).spec_toks(),
            match spec_padstack(old(self).spec_toks(), old(self).spec_idx()) {
                Ok((m, j)) => r matches Ok(v) && v@ == m && final(self).spec_idx() == j
                    && advanced(old(self).spec_toks(), old(self).spec_idx(), j),
                Err(e) => r == Err::<DsnPadstack, DsnError>(e),
            },
    {
        let ghost toks0 = self.spec_toks();
        let ghost i0 = self.spec_idx();
        let ghost target = spec_padstack(toks0, i0);
        self.open(Tok::Padstack)?;
        let padstack_id = self.literal()?;
        let mut v = DsnPadstack { padstack_id, shapes: Vec::new(), attach: true };
        assert(v@.shapes =~= Seq::<PadstackShapeModel>::empty());
        loop
            invariant
                self.spec_toks() == toks0,
                toks0 == old(self).spec_toks(),
                i0 == old(self).spec_idx(),
                target == spec_padstack(toks0, i0),
                spec_padstack_rest(toks0, self.spec_idx(), v@.padstack_id, v@.shapes, v@.attach)
                    == target,
                i0 < self.spec_idx() <= toks0.len(),
            decreases toks0.len() - self.spec_idx(),
        {
            let t0 = self.peek(0)?;
            if t0.tok == Tok::Rparen {
                self.expect(Tok::Rparen)?;
                return Ok(v);
            }
            let t = self.peek(1)?;
            match t.tok {
                Tok::Attach => {
                    self.open(Tok::Attach)?;
                    v.attach = self.onoff()?;
                    self.expect(Tok::Rparen)?;
                },
                Tok::Shape => {
                    let s = self.padstack_shape()?;
                    let ghost prev = v@.shapes;
                    v.shapes.push(s);
                    assert(v@.shapes =~= prev.push(s@));
                },
                _ => {
                    return Err(DsnError::UnrecognisedToken(t));
                },
            }
        }
    }

    /// Reads `(pin <padstack_id> [(rotate <rotation>)] <pin_id> <vertex>)`.
    pub fn pin(&mut self) -> (r: Result<DsnPin, DsnError>)
        ensures
            final(self).spec_toks() == old(self).spec_toks(),
            match spec_pin(old(self).spec_toks(), old(self).spec_idx()) {
                Ok((m, j)) => r matches Ok(v) && v@ == m && final(self).spec_idx() == j
                    && advanced(old(self).spec_toks(), old(self).spec_idx(), j),
                Err(e) => r == Err::<DsnPin, DsnError>(e),
            },
    {
        self.open(Tok::Pin)?;
        let padstack_id = self.literal()?;
        let mut rotation = DsnNumber::zero();
        if self.peek(0)?.tok == Tok::Lparen {
            self.open(Tok::Rotate)?;
            rotation = self.number()?;
            self.expect(Tok::Rparen)?;
        }
        let pin_id = self.literal()?;
        let p = self.vertex()?;
        self.expect(Tok::Rparen)?;
        Ok(DsnPin { padstack_id, rotation, pin_id, p })
    }

    /// Reads `(keepout | via_keepout | wire_keepout <shape_descriptor>)`.
    pub fn keepout(&mut self) -> (r: Result<DsnKeepout, DsnError>)
        ensures
            final(self).spec_toks() == old(self).spec_toks(),
            match spec_keepout(old(self).spec_toks(), old(self).spec_idx()) {
                Ok((m, j)) => r matches Ok(v) && v@ == m && final(self).spec_idx() == j
                    && advanced(old(self).spec_toks(), old(self).spec_idx(), j),
                Err(e) => r == Err::<DsnKeepout, DsnError>(e),
            },
    {
        let ghost toks0 = self.spec_toks();
        let ghost i0 = self.spec_idx();
        let ghost target = spec_keepout(toks0, i0);
        self.expect(Tok::Lparen)?;
        let keepout_type = match self.next()?.tok {
            Tok::Keepout => DsnKeepoutType::Keepout,
            Tok::ViaKeepout => DsnKeepoutType::ViaKeepout,
            Tok::WireKeepout => DsnKeepoutType::WireKeepout,
            _ => {
                return Err(DsnError::UnrecognisedKeepoutType);
            },
        };
        let mut v = DsnKeepout { keepout_type, shape: DsnShape::Rect(default_rect()) };
        loop
            invariant
                self.spec_toks() == toks0,
                toks0 == old(self).spec_toks(),
                i0 == old(self).spec_idx(),
                target == spec_keepout(toks0, i0),
                spec_keepout_rest(toks0, self.spec_idx(), v.keepout_type, v.shape@) == target,
                i0 < self.spec_idx() <= toks0.len(),
            decreases toks0.len() - self.spec_idx(),
        {
            let t0 = self.peek(0)?;
            if t0.tok == Tok::Rparen {
                self.expect(Tok::Rparen)?;
                return Ok(v);
            }
            let t = self.peek(1)?;
            match t.tok {
                Tok::Rect | Tok::Circle | Tok::Polygon | Tok::Path | Tok::Qarc => {
                    v.shape = self.shape()?;
                },
                _ => {
                    return Err(DsnError::UnrecognisedToken(t));
                },
            }
        }
    }

    /// Reads `(image <image_id> {(outline <shape_descriptor>)}
    /// {<pin_descriptor>} {<keepout_descriptor>})`.
    pub fn image(&mut self) -> (r: Result<DsnImage, DsnError>)
        ensures
            final(self).spec_toks() == old(self).spec_toks(),
            match spec_image(old(self).spec_toks(), old(self).spec_idx()) {
                Ok((m, j)) => r matches Ok(v) && v@ == m && final(self).spec_idx() == j
                    && advanced(old(self).spec_toks(), old(self).spec_idx(), j),
                Err(e) => r == Err::<DsnImage, DsnError>(e),
            },
    {
        let ghost toks0 = self.spec_toks();
        let ghost i0 = self.spec_idx();
        let ghost target = spec_image(toks0, i0);
        self.open(Tok::Image)?;
        let image_id = self.literal()?;
        let mut v = DsnImage { image_id, outlines: Vec::new(), pins: Vec::new(), keepouts: Vec::new() };
        assert(v@ =~= ImageModel {
            image_id: v.image_id@,
            outlines: Seq::empty(),
            pins: Seq::empty(),
            keepouts: Seq::empty(),
        });
        loop
            invariant
                self.spec_toks() == toks0,
                toks0 == old(self).spec_toks(),
                i0 == old(self).spec_idx(),
                target == spec_image(toks0, i0),
                spec_image_rest(toks0, self.spec_idx(), v@) == target,
                i0 < self.spec_idx() <= toks0.len(),
            decreases toks0.len() - self.spec_idx(),
        {
            let t0 = self.peek(0)?;
            if t0.tok == Tok::Rparen {
                self.expect(Tok::Rparen)?;
                return Ok(v);
            }
            let t = self.peek(1)?;
            let ghost prev = v@;
            match t.tok {
                Tok::Outline => {
                    self.open(Tok::Outline)?;
                    let s = self.shape()?;
                    self.expect(Tok::Rparen)?;
                    v.outlines.push(s);
                    assert(v@ =~= ImageModel { outlines: prev.outlines.push(s@), ..prev });
                },
                Tok::Pin => {
                    let p = self.pin()?;
                    v.pins.push(p);
                    assert(v@ =~= ImageModel { pins: prev.pins.push(p@), ..prev });
                },
                Tok::Keepout | Tok::ViaKeepout | Tok::WireKeepout => {
                    let k = self.keepout()?;
                    v.keepouts.push(k);
                    assert(v@ =~= ImageModel { keepouts: prev.keepouts.push(k@), ..prev });
                },
                _ => {
                    return Err(DsnError::UnrecognisedToken(t));
                },
            }
        }
    }

    /// Reads `(library {<image_descriptor>} {<padstack_descriptor>})`.
    pub fn library(&mut self) -> (r: Result<DsnLibrary, DsnError>)
        ensures
            final(self).spec_toks() == old(self).spec_toks(),
            match spec_library(old(self).spec_toks(), old(self).spec_idx()) {
                Ok((m, j)) => r matches Ok(v) && v@ == m && final(self).spec_idx() == j
                    && advanced(old(self).spec_toks(), old(self).spec_idx(), j),
                Err(e) => r == Err::<DsnLibrary, DsnError>(e),
            },
    {
        let ghost toks0 = self.spec_toks();
        let ghost i0 = self.spec_idx();
        let ghost target = spec_library(toks0, i0);
        self.open(Tok::Library)?;
        let mut v = DsnLibrary { images: Vec::new(), padstacks: Vec::new() };
        assert(v@ =~= LibraryModel { images: Seq::empty(), padstacks: Seq::empty() });
        loop
            invariant
                self.spec_toks() == toks0,
                toks0 == old(self).spec_toks(),
                i0 == old(self).spec_idx(),
                target == spec_library(toks0, i0),
                spec_library_rest(toks0, self.spec_idx(), v@) == target,
                i0 < self.spec_idx() <= toks0.len(),
            decreases toks0.len() - self.spec_idx(),
        {
            let t0 = self.peek(0)?;
            if t0.tok == Tok::Rparen {
                self.expect(Tok::Rparen)?;
                return Ok(v);
            }
            let t = self.peek(1)?;
            let ghost prev = v@;
            match t.tok {
                Tok::Image => {
                    let x = self.image()?;
                    v.images.push(x);
                    assert(v@ =~= LibraryModel { images: prev.images.push(x@), ..prev });
                },
                Tok::Padstack => {
                    let x = self.padstack()?;
                    v.padstacks.push(x);
                    assert(v@ =~= LibraryModel { padstacks: prev.padstacks.push(x@), ..prev });
                },
                _ => {
                    return Err(DsnError::UnrecognisedToken(t));
                },
            }
        }
    }
}

} // verus!
