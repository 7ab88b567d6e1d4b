//! The shape of an existing controller or registry file: the top-level items
//! that the scanner reads, with the source locations it needs. A caller builds
//! it from a syntax tree of the file.
use crate::patcher::SourceLocation;
use vstd::prelude::*;

verus! {

/// The tree of one `use` declaration.
#[derive(Debug)]
pub enum UseTree {
    /// `segment::rest`
    Path(String, Box<UseTree>),
    /// A plain imported identifier and where it starts.
    Name(String, SourceLocation),
    /// `name as alias`
    Rename(String, String),
    /// `*`
    Glob,
    /// `{a, b, ...}`, and the location just after its opening brace.
    Group(Vec<UseTree>, SourceLocation),
}

/// A function of an `impl` block: its name and where its body's closing
/// brace ends.
#[derive(Debug)]
pub struct MethodOutline {
    pub name: String,
    pub body_end: SourceLocation,
}

/// A module declaration: its name and where the declaration ends.
#[derive(Debug)]
pub struct ModOutline {
    pub name: String,
    pub end: SourceLocation,
}

/// One top-level item of a file.
#[derive(Debug)]
pub enum ItemOutline {
    Use(UseTree),
    /// The functions of an `impl` block, and where its closing brace starts.
    Impl(Vec<MethodOutline>, SourceLocation),
    Mod(ModOutline),
    Other,
}

} // verus!
