//! The two map formats: text (`.vmf`) and compiled (`.bsp`), and which one a file
//! is read as.
use vstd::prelude::*;
use crate::state::{extension, extension_of};
use crate::text::eq_chars;

pub mod bsp;
pub mod vmf;

verus! {

/// The format a map file is read as.
pub enum MapFormat {
    Text,
    Compiled,
}

/// The format of the map file at `path` by its extension, where that format is
/// to be processed; none for any other file.
pub fn map_format(path: &str, process_vmf: bool, process_bsp: bool) -> (r: Option<MapFormat>)
    ensures
        r == if process_vmf && extension(path@) == Some(seq!['v', 'm', 'f']) {
            Some(MapFormat::Text)
        } else if process_bsp && extension(path@) == Some(seq!['b', 's', 'p']) {
            Some(MapFormat::Compiled)
        } else {
            None::<MapFormat>
        },
{
    let vmf = vec!['v', 'm', 'f'];
    let bsp = vec!['b', 's', 'p'];
    assert(vmf@ =~= seq!['v', 'm', 'f']);
    assert(bsp@ =~= seq!['b', 's', 'p']);
    let ext = match extension_of(path) {
        Some(e) => crate::text::chars_of(e.as_str()),
        None => return None,
    };
    if process_vmf && eq_chars(&ext, &vmf) {
        Some(MapFormat::Text)
    } else if process_bsp && eq_chars(&ext, &bsp) {
        Some(MapFormat::Compiled)
    } else {
        None
    }
}

} // verus!
