//! Conversion of a parsed Markdown-like document tree into a complete HTML
//! document tree, with a verified serializer, slug generation, literal-text
//! substitution, footnote and table-of-contents resolution, and document
//! assembly.

pub mod assemble;
pub mod err;
pub mod fm;
pub mod html;
pub mod replace;
pub mod slug;
pub mod state;
pub mod text;
pub mod transduce;
