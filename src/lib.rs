//! Typed model of a DASH media presentation description (MPD) and the codecs
//! that carry its field values to and from text.
//!
//! - `duration_iso_8601`, `tags`, `conditional_uint`: the field codecs.
//! - `xml`: the element tree and the rules that read typed fields from it.
//! - `element_writer`: the rules that write typed fields back into elements.
//! - `utils`, `segments`, `representations`, `period`, `mpd`: the entities.
pub mod conditional_uint;
pub mod duration_iso_8601;
pub mod element_writer;
pub mod mpd;
pub mod period;
pub mod representations;
pub mod segments;
pub mod tags;
pub mod text;
pub mod utils;
pub mod xml;
