//! Text labels for a retained-mode user interface: a plain label, and a label
//! whose individual characters can be highlighted. The heart of the library is
//! the segmentation of a highlighted text into maximal runs of equal colour.

pub mod color;
pub mod label;
pub mod runs;
