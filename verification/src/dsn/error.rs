use vstd::prelude::*;

use crate::dsn::token::Token;

verus! {

/// Why reading a DSN file failed.
#[derive(Debug)]
pub enum DsnError {
    /// A pattern that the lexer searches for did not compile.
    InvalidPattern,
    /// The `string_quote` directive names no quote character.
    MissingQuoteCharacter,
    /// The `string_quote` directive names a character other than `'`, `"`
    /// and `$`; it is given.
    UnknownQuoteCharacter(String),
    /// The input ended in the middle of a construct.
    UnexpectedEof,
    /// A token other than the expected one came; it is given.
    UnexpectedToken(Token),
    /// A token that the construct does not allow came; it is given.
    UnrecognisedToken(Token),
    /// A `resolution` names no dimension unit.
    UnknownDimensionUnit,
    /// A layer `type` names no layer type.
    UnrecognisedLayerType,
    /// A switch is neither `on` nor `off`.
    ExpectedOnOff,
    /// A side is neither `front`, `back` nor `both`.
    UnrecognisedSide,
    /// A pin reference has no `-`; the literal is given.
    InvalidPinRef(String),
    /// A literal is no 32-bit integer; it is given.
    InvalidInteger(String),
    /// A literal is no decimal number; it is given.
    InvalidNumber(String),
    /// A shape is none of `rect`, `circle`, `polygon`, `path` and `qarc`.
    UnrecognisedShapeType,
    /// A keepout is none of `keepout`, `via_keepout` and `wire_keepout`.
    UnrecognisedKeepoutType,
    /// A lock type is neither `gate` nor `position`.
    UnrecognisedLockType,
    /// A clearance type is neither `default_smd` nor `smd_smd`.
    UnrecognisedClearanceType,
    /// Two layers have the same name; it is given.
    DuplicateLayer(String),
    /// A shape names a layer that the board does not have; it is given.
    UnknownLayer(String),
    /// The unit descriptor names another unit than the resolution.
    UnitOverride,
    /// Two padstacks have the same ID; it is given.
    DuplicatePadstack(String),
    /// A pin names a padstack that the library does not have; it is given.
    MissingPadstack(String),
    /// Two images have the same ID; it is given.
    DuplicateImage(String),
    /// The vias of the structure name a padstack that the library does not
    /// have; it is given.
    UnknownPadstack(String),
    /// A component names an image that the library does not have; it is
    /// given.
    MissingImage(String),
    /// A component is placed on both sides.
    InvalidSide,
    /// A class gives more than one wire width.
    MultipleWidthRules,
    /// A pin reference names a component that the board does not have.
    UnknownComponent,
    /// A pin reference names a pin that the image of its component does not
    /// have.
    UnknownPin,
}

} // verus!
