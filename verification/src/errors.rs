//! The error taxonomy of the library: binary-layer, descriptor-layer and
//! schema-layer failures. Every failure is terminal for the call that
//! raised it; no partial result accompanies an error.

use vstd::prelude::*;

verus! {

/// Which required element of a recognized schema row was missing or had
/// the wrong shape.
#[derive(Clone, Copy, Debug, PartialEq, Eq)]
pub enum SchemaField {
    /// The top level of the schema is not an array of rows.
    Toplevel,
    /// A top-level element is not an array.
    Row,
    /// A row is an empty array, so it carries no discriminator tag.
    RowTag,
    /// A function row has no name element.
    FuncName,
    /// A function row's name element is not text.
    FuncNameText,
    /// A function row has no signature element.
    FuncSignature,
    /// A function row's signature element is not an array.
    FuncSignatureArr,
    /// A signature has no return-type element.
    RetTypes,
    /// A signature array is shorter than its three fixed leading
    /// elements (the return-type list and the two reserved places).
    SignatureElements,
    /// A signature's return-type element is not an array.
    RetTypesArr,
    /// The return-type array is empty.
    RetTypeMissing,
    /// The first return-type candidate is not text.
    RetTypeText,
    /// A parameter element is not an array.
    ArgArr,
    /// A parameter array has no type element.
    ArgType,
    /// A parameter's type element is not text.
    ArgTypeText,
    /// A parameter array has no name element.
    ArgName,
    /// A parameter's name element is not text.
    ArgNameText,
    /// An object row has no name element.
    ObjName,
    /// An object row's name element is not text.
    ObjNameText,
    /// An object row is shorter than its six fixed leading elements.
    ObjElements,
    /// A method element of an object row is not an array.
    MethodArr,
}

/// A failure of one full extraction or of one of its stages.
#[derive(Clone, Copy, Debug, PartialEq, Eq)]
pub enum VmodError {
    /// The byte buffer cannot be parsed as a shared-object image at all.
    MalformedImage,
    /// No export of the expected name exists in the dynamic export table.
    SymbolNotFound,
    /// The matched export refers to a section index that does not exist.
    SectionNotFound,
    /// A stored offset points at or beyond the end of the buffer.
    OutOfBounds,
    /// No null terminator follows a stored text offset within the buffer.
    UnterminatedString,
    /// Fewer bytes remain at the record offset than the fixed record needs.
    TruncatedData,
    /// The schema text is not valid JSON.
    SchemaSyntaxError,
    /// A recognized schema row is missing an element or has an ill-shaped one.
    SchemaShapeError(SchemaField),
}

} // verus!
