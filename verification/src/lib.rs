//! Core model of the Vizardra vector sketch editor: colours, document
//! objects, the document itself, edit history, project files and SVG output.
use vstd::prelude::*;

pub mod canvas;
pub mod color;
pub mod document;
pub mod input;
pub mod object;
pub mod path;
pub mod project;
pub mod renderer;
pub mod state;
pub mod svg;
pub mod text;

verus! {

} // verus!
