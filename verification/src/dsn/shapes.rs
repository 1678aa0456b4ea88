use vstd::prelude::*;

use crate::dsn::error::DsnError;
use crate::dsn::models::{CircleModel, PolyModel, QArcModel, RectModel, ShapeModel, WindowModel};
use crate::dsn::number::{decimal_less, number_max, number_min, spec_max, spec_min, DsnNumber};
use crate::dsn::parser::{
    spec_empty_descriptor, spec_expect, spec_next, spec_number, spec_open, spec_peek, spec_vertex,
    Parser, Step,
};
use crate::dsn::token::{Tok, Token};
use crate::dsn::types::{
    DsnCircle, DsnPath, DsnPolygon, DsnPt, DsnQArc, DsnRect, DsnRt, DsnShape, DsnWindow,
};

verus! {

// The shape descriptors of a DSN file.

/// The origin.
pub open spec fn zero_pt() -> DsnPt {
    DsnPt { x: DsnNumber { mantissa: 0, scale: 0 }, y: DsnNumber { mantissa: 0, scale: 0 } }
}

/// The rectangle whose opposite corners are `a` and `b`, in either order.
pub open spec fn spec_enclosing(a: DsnPt, b: DsnPt) -> DsnRt {
    DsnRt {
        l: spec_min(a.x, b.x),
        b: spec_min(a.y, b.y),
        r: spec_max(a.x, b.x),
        t: spec_max(a.y, b.y),
    }
}

/// The rectangle read from two corners holds both: its left edge is not
/// right of its right edge nor its bottom above its top, and neither corner
/// lies outside it.
pub proof fn lemma_enclosing_holds_corners(a: DsnPt, b: DsnPt)
    ensures
        ({
            let r = spec_enclosing(a, b);
            &&& !decimal_less(r.r, r.l) && !decimal_less(r.t, r.b)
            &&& !decimal_less(a.x, r.l) && !decimal_less(r.r, a.x)
            &&& !decimal_less(b.x, r.l) && !decimal_less(r.r, b.x)
            &&& !decimal_less(a.y, r.b) && !decimal_less(r.t, a.y)
            &&& !decimal_less(b.y, r.b) && !decimal_less(r.t, b.y)
        }),
{
}

/// The rectangle of no extent at the origin on no layer.
pub open spec fn default_rect_model() -> RectModel {
    RectModel {
        layer_id: Seq::empty(),
        rect: DsnRt { l: zero_pt().x, b: zero_pt().x, r: zero_pt().x, t: zero_pt().x },
    }
}

/// The shape that a descriptor holds until it reads one.
pub open spec fn default_shape_model() -> ShapeModel {
    ShapeModel::Rect(default_rect_model())
}

/// `(rect <layer_id> <vertex> <vertex>)`: the rectangle with these opposite
/// corners.
pub open spec fn spec_rect(toks: Seq<Token>, i: int) -> Step<RectModel> {
    match spec_open(toks, i, Tok::Rect) {
        Err(e) => Err(e),
        Ok(_) => match spec_next(toks, i + 2) {
            Err(e) => Err(e),
            Ok((lit, _)) => match spec_vertex(toks, i + 3) {
                Err(e) => Err(e),
                Ok((a, _)) => match spec_vertex(toks, i + 5) {
                    Err(e) => Err(e),
                    Ok((b, _)) => match spec_expect(toks, i + 7, Tok::Rparen) {
                        Err(e) => Err(e),
                        Ok(_) => Ok(
                            (RectModel { layer_id: lit.s@, rect: spec_enclosing(a, b) }, i + 8),
                        ),
                    },
                },
            },
        },
    }
}

/// `(circle <layer_id> <diameter> [<vertex>])`; the center is the origin
/// unless given.
pub open spec fn spec_circle(toks: Seq<Token>, i: int) -> Step<CircleModel> {
    match spec_open(toks, i, Tok::Circle) {
        Err(e) => Err(e),
        Ok(_) => match spec_next(toks, i + 2) {
            Err(e) => Err(e),
            Ok((lit, _)) => match spec_number(toks, i + 3) {
                Err(e) => Err(e),
                Ok((d, _)) => match spec_peek(toks, i + 4, 0) {
                    Err(e) => Err(e),
                    Ok(t0) => if t0.tok != Tok::Rparen {
                        match spec_vertex(toks, i + 4) {
                            Err(e) => Err(e),
                            Ok((p, _)) => match spec_expect(toks, i + 6, Tok::Rparen) {
                                Err(e) => Err(e),
                                Ok(_) => Ok(
                                    (CircleModel { layer_id: lit.s@, diameter: d, p }, i + 7),
                                ),
                            },
                        }
                    } else {
                        Ok((CircleModel { layer_id: lit.s@, diameter: d, p: zero_pt() }, i + 5))
                    },
                },
            },
        },
    }
}

/// The vertices of a polygon or path from index `j` up to its `)`, after the
/// vertices `acc`.
pub open spec fn spec_pts_rest(
    toks: Seq<Token>,
    j: int,
    layer_id: Seq<char>,
    w: DsnNumber,
    acc: Seq<DsnPt>,
) -> Step<PolyModel>
    decreases toks.len() - j,
{
    match spec_peek(toks, j, 0) {
        Err(e) => Err(e),
        Ok(t0) => if t0.tok == Tok::Rparen {
            Ok((PolyModel { layer_id, aperture_width: w, pts: acc }, j + 1))
        } else {
            match spec_vertex(toks, j) {
                Err(e) => Err(e),
                Ok((p, _)) => spec_pts_rest(toks, j + 2, layer_id, w, acc.push(p)),
            }
        },
    }
}

/// `(<kw> <layer_id> <aperture_width> {<vertex>})`, for `polygon` and `path`.
pub open spec fn spec_poly(toks: Seq<Token>, i: int, kw: Tok) -> Step<PolyModel> {
    match spec_open(toks, i, kw) {
        Err(e) => Err(e),
        Ok(_) => match spec_next(toks, i + 2) {
            Err(e) => Err(e),
            Ok((lit, _)) => match spec_number(toks, i + 3) {
                Err(e) => Err(e),
                Ok((w, _)) => spec_pts_rest(toks, i + 4, lit.s@, w, Seq::empty()),
            },
        },
    }
}

/// `(qarc <layer_id> <aperture_width> <vertex> <vertex> <vertex>)`: start,
/// end and center.
pub open spec fn spec_qarc(toks: Seq<Token>, i: int) -> Step<QArcModel> {
    match spec_open(toks, i, Tok::Qarc) {
        Err(e) => Err(e),
        Ok(_) => match spec_next(toks, i + 2) {
            Err(e) => Err(e),
            Ok((lit, _)) => match spec_number(toks, i + 3) {
                Err(e) => Err(e),
                Ok((w, _)) => match spec_vertex(toks, i + 4) {
                    Err(e) => Err(e),
                    Ok((start, _)) => match spec_vertex(toks, i + 6) {
                        Err(e) => Err(e),
                        Ok((end, _)) => match spec_vertex(toks, i + 8) {
                            Err(e) => Err(e),
                            Ok((center, _)) => match spec_expect(toks, i + 10, Tok::Rparen) {
                                Err(e) => Err(e),
                                Ok(_) => Ok(
                                    (
                                        QArcModel {
                                            layer_id: lit.s@,
                                            aperture_width: w,
                                            start,
                                            end,
                                            center,
                                        },
                                        i + 11,
                                    ),
                                ),
                            },
                        },
                    },
                },
            },
        },
    }
}

/// A shape descriptor, told apart by its keyword.
pub open spec fn spec_shape(toks: Seq<Token>, i: int) -> Step<ShapeModel> {
    match spec_peek(toks, i, 1) {
        Err(e) => Err(e),
        Ok(t) => match t.tok {
            Tok::Circle => match spec_circle(toks, i) {
                Err(e) => Err(e),
                Ok((v, k)) => Ok((ShapeModel::Circle(v), k)),
            },
            Tok::Path => match spec_poly(toks, i, Tok::Path) {
                Err(e) => Err(e),
                Ok((v, k)) => Ok((ShapeModel::Path(v), k)),
            },
            Tok::Polygon => match spec_poly(toks, i, Tok::Polygon) {
                Err(e) => Err(e),
                Ok((v, k)) => Ok((ShapeModel::Polygon(v), k)),
            },
            Tok::Qarc => match spec_qarc(toks, i) {
                Err(e) => Err(e),
                Ok((v, k)) => Ok((ShapeModel::QArc(v), k)),
            },
            Tok::Rect => match spec_rect(toks, i) {
                Err(e) => Err(e),
                Ok((v, k)) => Ok((ShapeModel::Rect(v), k)),
            },
            _ => Err(DsnError::UnrecognisedShapeType),
        },
    }
}

/// `(window)`, of which nothing is read: it stands for the empty rectangle.
pub open spec fn spec_window(toks: Seq<Token>, i: int) -> Step<WindowModel> {
    match spec_empty_descriptor(toks, i, Tok::Window) {
        Err(e) => Err(e),
        Ok((_, k)) => Ok((WindowModel::Rect(default_rect_model()), k)),
    }
}

/// The empty rectangle at the origin on no layer.
pub fn default_rect() -> (r: DsnRect)
    ensures
        r@ == default_rect_model(),
{
    let z = DsnNumber::zero();
    DsnRect { layer_id: String::new(), rect: DsnRt { l: z, b: z, r: z, t: z } }
}

impl Parser {
    /// Reads `(rect <layer_id> <vertex> <vertex>)`.
    pub fn rect(&mut self) -> (r: Result<DsnRect, DsnError>)
        ensures
            final(self).spec_toks() == old(self).spec_toks(),
            match spec_rect(old(self).spec_toks(), old(self).spec_idx()) {
                Ok((m, j)) => r matches Ok(v) && v@ == m && final(self).spec_idx() == j && old(
                    self,
                ).spec_idx() < j <= old(self).spec_toks().len(),
                Err(e) => r == Err::<DsnRect, DsnError>(e),
            },
    {
        self.open(Tok::Rect)?;
        let layer_id = self.literal()?;
        let a = self.vertex()?;
        let b = self.vertex()?;
        let rect = DsnRt {
            l: number_min(a.x, b.x),
            b: number_min(a.y, b.y),
            r: number_max(a.x, b.x),
            t: number_max(a.y, b.y),
        };
        self.expect(Tok::Rparen)?;
        Ok(DsnRect { layer_id, rect })
    }

    /// Reads `(circle <layer_id> <diameter> [<vertex>])`.
    pub fn circle(&mut self) -> (r: Result<DsnCircle, DsnError>)
        ensures
            final(self).spec_toks() == old(self).spec_toks(),
            match spec_circle(old(self).spec_toks(), old(self).spec_idx()) {
                Ok((m, j)) => r matches Ok(v) && v@ == m && final(self).spec_idx() == j
                    && old(self).spec_idx() < j <= old(self).spec_toks().len(),
                Err(e) => r == Err::<DsnCircle, DsnError>(e),
            },
    {
        self.open(Tok::Circle)?;
        let layer_id = self.literal()?;
        let diameter = self.number()?;
        let mut p = DsnPt { x: DsnNumber::zero(), y: DsnNumber::zero() };
        if self.peek(0)?.tok != Tok::Rparen {
            p = self.vertex()?;
        }
        self.expect(Tok::Rparen)?;
        Ok(DsnCircle { layer_id, diameter, p })
    }

    /// Reads `(<kw> <layer_id> <aperture_width> {<vertex>})`: the layer, the
    /// aperture width and the vertices.
    fn poly(&mut self, kw: Tok) -> (r: Result<(String, DsnNumber, Vec<DsnPt>), DsnError>)
        ensures
            final(self).spec_toks() == old(self).spec_toks(),
            match spec_poly(old(self).spec_toks(), old(self).spec_idx(), kw) {
                Ok((m, j)) => r matches Ok((l, w, pts)) && l@ == m.layer_id && w == m.aperture_width
                    && pts@ == m.pts && final(self).spec_idx() == j && old(self).spec_idx() < j
                    <= old(self).spec_toks().len(),
                Err(e) => r == Err::<(String, DsnNumber, Vec<DsnPt>), DsnError>(e),
            },
    {
        let ghost toks0 = self.spec_toks();
        let ghost i0 = self.spec_idx();
        let ghost target = spec_poly(toks0, i0, kw);
        self.open(kw)?;
        let layer_id = self.literal()?;
        let w = self.number()?;
        let mut pts: Vec<DsnPt> = Vec::new();
        loop
            invariant
                self.spec_toks() == toks0,
                toks0 == old(self).spec_toks(),
                i0 == old(self).spec_idx(),
                target == spec_poly(toks0, i0, kw),
                spec_pts_rest(toks0, self.spec_idx(), layer_id@, w, pts@) == target,
                i0 < self.spec_idx() <= toks0.len(),
            decreases toks0.len() - self.spec_idx(),
        {
            let t0 = self.peek(0)?;
            if t0.tok == Tok::Rparen {
                self.expect(Tok::Rparen)?;
                return Ok((layer_id, w, pts));
            }
            let p = self.vertex()?;
            pts.push(p);
        }
    }

    /// Reads `(polygon <layer_id> <aperture_width> {<vertex>})`.
    pub fn polygon(&mut self) -> (r: Result<DsnPolygon, DsnError>)
        ensures
            final(self).spec_toks() == old(self).spec_toks(),
            match spec_poly(old(self).spec_toks(), old(self).spec_idx(), Tok::Polygon) {
                Ok((m, j)) => r matches Ok(v) && v@ == m && final(self).spec_idx() == j
                    && old(self).spec_idx() < j <= old(self).spec_toks().len(),
                Err(e) => r == Err::<DsnPolygon, DsnError>(e),
            },
    {
        let (layer_id, aperture_width, pts) = self.poly(Tok::Polygon)?;
        Ok(DsnPolygon { layer_id, aperture_width, pts })
    }

    /// Reads `(path <layer_id> <aperture_width> {<vertex>})`.
    pub fn path(&mut self) -> (r: Result<DsnPath, DsnError>)
        ensures
            final(self).spec_toks() == old(self).spec_toks(),
            match spec_poly(old(self).spec_toks(), old(self).spec_idx(), Tok::Path) {
                Ok((m, j)) => r matches Ok(v) && v@ == m && final(self).spec_idx() == j
                    && old(self).spec_idx() < j <= old(self).spec_toks().len(),
                Err(e) => r == Err::<DsnPath, DsnError>(e),
            },
    {
        let (layer_id, aperture_width, pts) = self.poly(Tok::Path)?;
        Ok(DsnPath { layer_id, aperture_width, pts })
    }

    /// Reads `(qarc <layer_id> <aperture_width> <vertex> <vertex> <vertex>)`.
    pub fn qarc(&mut self) -> (r: Result<DsnQArc, DsnError>)
        ensures
            final(self).spec_toks() == old(self).spec_toks(),
            match spec_qarc(old(self).spec_toks(), old(self).spec_idx()) {
                Ok((m, j)) => r matches Ok(v) && v@ == m && final(self).spec_idx() == j
                    && old(self).spec_idx() < j <= old(self).spec_toks().len(),
                Err(e) => r == Err::<DsnQArc, DsnError>(e),
            },
    {
        self.open(Tok::Qarc)?;
        let layer_id = self.literal()?;
        let aperture_width = self.number()?;
        let start = self.vertex()?;
        let end = self.vertex()?;
        let center = self.vertex()?;
        self.expect(Tok::Rparen)?;
        Ok(DsnQArc { layer_id, aperture_width, start, end, center })
    }

    /// Reads a shape descriptor.
    pub fn shape(&mut self) -> (r: Result<DsnShape, DsnError>)
        ensures
            final(self).spec_toks() == old(self).spec_toks(),
            match spec_shape(old(self).spec_toks(), old(self).spec_idx()) {
                Ok((m, j)) => r matches Ok(v) && v@ == m && final(self).spec_idx() == j
                    && old(self).spec_idx() < j <= old(self).spec_toks().len(),
                Err(e) => r == Err::<DsnShape, DsnError>(e),
            },
    {
        match self.peek(1)?.tok {
            Tok::Circle => Ok(DsnShape::Circle(self.circle()?)),
            Tok::Path => Ok(DsnShape::Path(self.path()?)),
            Tok::Polygon => Ok(DsnShape::Polygon(self.polygon()?)),
            Tok::Qarc => Ok(DsnShape::QArc(self.qarc()?)),
            Tok::Rect => Ok(DsnShape::Rect(self.rect()?)),
            _ => Err(DsnError::UnrecognisedShapeType),
        }
    }

    /// Reads `(window)`, of which nothing is read.
    pub fn window(&mut self) -> (r: Result<DsnWindow, DsnError>)
        ensures
            final(self).spec_toks() == old(self).spec_toks(),
            match spec_window(old(self).spec_toks(), old(self).spec_idx()) {
                Ok((m, j)) => r matches Ok(v) && v@ == m && final(self).spec_idx() == j
                    && old(self).spec_idx() < j <= old(self).spec_toks().len(),
                Err(e) => r == Err::<DsnWindow, DsnError>(e),
            },
    {
        self.empty_descriptor(Tok::Window)?;
        Ok(DsnWindow::Rect(default_rect()))
    }
}

} // verus!
