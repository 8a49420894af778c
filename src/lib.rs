//! Integer side of a small path tracer: image dimensions, the row-major pixel
//! stream, its plain-text PPM encoding, and the depth-bounded control of a
//! single light path.

mod image;
mod path;
mod ppm;

pub use path::{lemma_no_budget_is_black, lemma_path_ends_within_budget, path_end, Bounce, LightPath, Terminal};
pub use ppm::{ppm_document, write_color_to_string};
pub use image::{assemble_rows, ImageSize, Rgb, ShapeError};
