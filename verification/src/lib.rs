use vstd::prelude::*;

pub mod text;
pub mod config;
pub mod format;
pub mod sort;
pub mod network;
pub mod encoding;
pub mod media;
pub mod palette;
pub mod launch;
pub mod history;
pub mod flyout;
pub mod appbar;
pub mod labels;
pub mod audio;

verus! {

} // verus!
