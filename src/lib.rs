//! A static site builder: path mapping for content files, frontmatter
//! classification, the diagram compiler protocol, the decisions of the two
//! build passes, and the site index.
use vstd::prelude::*;

pub mod content;
pub mod dates;
pub mod diagrams;
pub mod frontmatter;
pub mod laws;
pub mod markup;
pub mod passes;
pub mod path;
pub mod sitemap;
pub mod text;

verus! {

} // verus!
