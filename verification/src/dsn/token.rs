use vstd::prelude::*;

use crate::text::str_eq;

verus! {

/// The kinds of token in a DSN file: the parentheses, the keywords, and
/// literals (everything else).
#[derive(PartialEq, Eq, Structural, Debug, Copy, Clone)]
pub enum Tok {
    Lparen,
    Rparen,
    Attach,
    Back,
    Both,
    Boundary,
    Circle,
    Circuit,
    Class,
    Clearance,
    Cm,
    Component,
    DefaultSmd,
    Front,
    Gate,
    Image,
    Inch,
    Jumper,
    Keepout,
    Layer,
    Library,
    LockType,
    Mil,
    Mixed,
    Mm,
    Net,
    Network,
    Off,
    On,
    Outline,
    Padstack,
    Parser,
    Path,
    Pcb,
    Pin,
    Pins,
    Place,
    Placement,
    Plane,
    Pn,
    Polygon,
    Position,
    Power,
    Property,
    Qarc,
    Rect,
    Resolution,
    Rotate,
    Rule,
    Shape,
    Signal,
    SmdSmd,
    Structure,
    Type,
    Um,
    Unit,
    UseVia,
    Via,
    ViaKeepout,
    Width,
    Window,
    Wire,
    WireKeepout,
    Wiring,
    Literal,
}

/// The keyword that a spelling stands for: `(` and `)`, and otherwise the
/// keyword's name in lower case with words joined by `_`. A spelling that is
/// no keyword stands for none.
pub open spec fn spec_keyword(s: Seq<char>) -> Option<Tok> {
    if s == "("@ {
        Some(Tok::Lparen)
    } else if s == ")"@ {
        Some(Tok::Rparen)
    } else if s == "attach"@ {
        Some(Tok::Attach)
    } else if s == "back"@ {
        Some(Tok::Back)
    } else if s == "both"@ {
        Some(Tok::Both)
    } else if s == "boundary"@ {
        Some(Tok::Boundary)
    } else if s == "circle"@ {
        Some(Tok::Circle)
    } else if s == "circuit"@ {
        Some(Tok::Circuit)
    } else if s == "class"@ {
        Some(Tok::Class)
    } else if s == "clearance"@ {
        Some(Tok::Clearance)
    } else if s == "cm"@ {
        Some(Tok::Cm)
    } else if s == "component"@ {
        Some(Tok::Component)
    } else if s == "default_smd"@ {
        Some(Tok::DefaultSmd)
    } else if s == "front"@ {
        Some(Tok::Front)
    } else if s == "gate"@ {
        Some(Tok::Gate)
    } else if s == "image"@ {
        Some(Tok::Image)
    } else if s == "inch"@ {
        Some(Tok::Inch)
    } else if s == "jumper"@ {
        Some(Tok::Jumper)
    } else if s == "keepout"@ {
        Some(Tok::Keepout)
    } else if s == "layer"@ {
        Some(Tok::Layer)
    } else if s == "library"@ {
        Some(Tok::Library)
    } else if s == "lock_type"@ {
        Some(Tok::LockType)
    } else if s == "mil"@ {
        Some(Tok::Mil)
    } else if s == "mixed"@ {
        Some(Tok::Mixed)
    } else if s == "mm"@ {
        Some(Tok::Mm)
    } else if s == "net"@ {
        Some(Tok::Net)
    } else if s == "network"@ {
        Some(Tok::Network)
    } else if s == "off"@ {
        Some(Tok::Off)
    } else if s == "on"@ {
        Some(Tok::On)
    } else if s == "outline"@ {
        Some(Tok::Outline)
    } else if s == "padstack"@ {
        Some(Tok::Padstack)
    } else if s == "parser"@ {
        Some(Tok::Parser)
    } else if s == "path"@ {
        Some(Tok::Path)
    } else if s == "pcb"@ {
        Some(Tok::Pcb)
    } else if s == "pin"@ {
        Some(Tok::Pin)
    } else if s == "pins"@ {
        Some(Tok::Pins)
    } else if s == "place"@ {
        Some(Tok::Place)
    } else if s == "placement"@ {
        Some(Tok::Placement)
    } else if s == "plane"@ {
        Some(Tok::Plane)
    } else if s == "pn"@ {
        Some(Tok::Pn)
    } else if s == "polygon"@ {
        Some(Tok::Polygon)
    } else if s == "position"@ {
        Some(Tok::Position)
    } else if s == "power"@ {
        Some(Tok::Power)
    } else if s == "property"@ {
        Some(Tok::Property)
    } else if s == "qarc"@ {
        Some(Tok::Qarc)
    } else if s == "rect"@ {
        Some(Tok::Rect)
    } else if s == "resolution"@ {
        Some(Tok::Resolution)
    } else if s == "rotate"@ {
        Some(Tok::Rotate)
    } else if s == "rule"@ {
        Some(Tok::Rule)
    } else if s == "shape"@ {
        Some(Tok::Shape)
    } else if s == "signal"@ {
        Some(Tok::Signal)
    } else if s == "smd_smd"@ {
        Some(Tok::SmdSmd)
    } else if s == "structure"@ {
        Some(Tok::Structure)
    } else if s == "type"@ {
        Some(Tok::Type)
    } else if s == "um"@ {
        Some(Tok::Um)
    } else if s == "unit"@ {
        Some(Tok::Unit)
    } else if s == "use_via"@ {
        Some(Tok::UseVia)
    } else if s == "via"@ {
        Some(Tok::Via)
    } else if s == "via_keepout"@ {
        Some(Tok::ViaKeepout)
    } else if s == "width"@ {
        Some(Tok::Width)
    } else if s == "window"@ {
        Some(Tok::Window)
    } else if s == "wire"@ {
        Some(Tok::Wire)
    } else if s == "wire_keepout"@ {
        Some(Tok::WireKeepout)
    } else if s == "wiring"@ {
        Some(Tok::Wiring)
    } else {
        None
    }
}

impl Tok {
    /// The keyword spelled `s`, if any.
    pub fn from_keyword(s: &str) -> (r: Option<Tok>)
        ensures
            r == spec_keyword(s@),
    {
        if str_eq(s, "(") {
            Some(Tok::Lparen)
        } else if str_eq(s, ")") {
            Some(Tok::Rparen)
        } else if str_eq(s, "attach") {
            Some(Tok::Attach)
        } else if str_eq(s, "back") {
            Some(Tok::Back)
        } else if str_eq(s, "both") {
            Some(Tok::Both)
        } else if str_eq(s, "boundary") {
            Some(Tok::Boundary)
        } else if str_eq(s, "circle") {
            Some(Tok::Circle)
        } else if str_eq(s, "circuit") {
            Some(Tok::Circuit)
        } else if str_eq(s, "class") {
            Some(Tok::Class)
        } else if str_eq(s, "clearance") {
            Some(Tok::Clearance)
        } else if str_eq(s, "cm") {
            Some(Tok::Cm)
        } else if str_eq(s, "component") {
            Some(Tok::Component)
        } else if str_eq(s, "default_smd") {
            Some(Tok::DefaultSmd)
        } else if str_eq(s, "front") {
            Some(Tok::Front)
        } else if str_eq(s, "gate") {
            Some(Tok::Gate)
        } else if str_eq(s, "image") {
            Some(Tok::Image)
        } else if str_eq(s, "inch") {
            Some(Tok::Inch)
        } else if str_eq(s, "jumper") {
            Some(Tok::Jumper)
        } else if str_eq(s, "keepout") {
            Some(Tok::Keepout)
        } else if str_eq(s, "layer") {
            Some(Tok::Layer)
        } else if str_eq(s, "library") {
            Some(Tok::Library)
        } else if str_eq(s, "lock_type") {
            Some(Tok::LockType)
        } else if str_eq(s, "mil") {
            Some(Tok::Mil)
        } else if str_eq(s, "mixed") {
            Some(Tok::Mixed)
        } else if str_eq(s, "mm") {
            Some(Tok::Mm)
        } else if str_eq(s, "net") {
            Some(Tok::Net)
        } else if str_eq(s, "network") {
            Some(Tok::Network)
        } else if str_eq(s, "off") {
            Some(Tok::Off)
        } else if str_eq(s, "on") {
            Some(Tok::On)
        } else if str_eq(s, "outline") {
            Some(Tok::Outline)
        } else if str_eq(s, "padstack") {
            Some(Tok::Padstack)
        } else if str_eq(s, "parser") {
            Some(Tok::Parser)
        } else if str_eq(s, "path") {
            Some(Tok::Path)
        } else if str_eq(s, "pcb") {
            Some(Tok::Pcb)
        } else if str_eq(s, "pin") {
            Some(Tok::Pin)
        } else if str_eq(s, "pins") {
            Some(Tok::Pins)
        } else if str_eq(s, "place") {
            Some(Tok::Place)
        } else if str_eq(s, "placement") {
            Some(Tok::Placement)
        } else if str_eq(s, "plane") {
            Some(Tok::Plane)
        } else if str_eq(s, "pn") {
            Some(Tok::Pn)
        } else if str_eq(s, "polygon") {
            Some(Tok::Polygon)
        } else if str_eq(s, "position") {
            Some(Tok::Position)
        } else if str_eq(s, "power") {
            Some(Tok::Power)
        } else if str_eq(s, "property") {
            Some(Tok::Property)
        } else if str_eq(s, "qarc") {
            Some(Tok::Qarc)
        } else if str_eq(s, "rect") {
            Some(Tok::Rect)
        } else if str_eq(s, "resolution") {
            Some(Tok::Resolution)
        } else if str_eq(s, "rotate") {
            Some(Tok::Rotate)
        } else if str_eq(s, "rule") {
            Some(Tok::Rule)
        } else if str_eq(s, "shape") {
            Some(Tok::Shape)
        } else if str_eq(s, "signal") {
            Some(Tok::Signal)
        } else if str_eq(s, "smd_smd") {
            Some(Tok::SmdSmd)
        } else if str_eq(s, "structure") {
            Some(Tok::Structure)
        } else if str_eq(s, "type") {
            Some(Tok::Type)
        } else if str_eq(s, "um") {
            Some(Tok::Um)
        } else if str_eq(s, "unit") {
            Some(Tok::Unit)
        } else if str_eq(s, "use_via") {
            Some(Tok::UseVia)
        } else if str_eq(s, "via") {
            Some(Tok::Via)
        } else if str_eq(s, "via_keepout") {
            Some(Tok::ViaKeepout)
        } else if str_eq(s, "width") {
            Some(Tok::Width)
        } else if str_eq(s, "window") {
            Some(Tok::Window)
        } else if str_eq(s, "wire") {
            Some(Tok::Wire)
        } else if str_eq(s, "wire_keepout") {
            Some(Tok::WireKeepout)
        } else if str_eq(s, "wiring") {
            Some(Tok::Wiring)
        } else {
            None
        }
    }
}

} // verus!

verus! {

/// A token of a DSN file: its kind and its text as written.
#[derive(Debug)]
pub struct Token {
    pub tok: Tok,
    pub s: String,
}

impl Clone for Token {
    fn clone(&self) -> (r: Self)
        ensures
            r == *self,
    {
        Token { tok: self.tok, s: self.s.clone() }
    }
}

/// The kind of the token with text `s`: the keyword spelled by `s` in lower
/// case, or a literal.
pub open spec fn spec_classify(s: Seq<char>) -> Tok {
    match spec_keyword(crate::text::lowercase(s)) {
        Some(t) => t,
        None => Tok::Literal,
    }
}

/// The kind of the token with text `s`.
pub fn classify(s: &str) -> (t: Tok)
    ensures
        t == spec_classify(s@),
{
    let lower = crate::text::to_lowercase(s);
    match Tok::from_keyword(lower.as_str()) {
        Some(t) => t,
        None => Tok::Literal,
    }
}

impl Token {
    /// The token with text `s`, of the kind that `s` spells.
    pub fn new(s: &str) -> (r: Token)
        ensures
            r.s@ == s@,
            r.tok == spec_classify(s@),
    {
        Token { tok: classify(s), s: s.to_owned() }
    }
}

} // verus!
