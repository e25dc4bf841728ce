//! The client side: archives of packages, the precache driver, the init
//! script and the package browser.

pub mod archive;
pub mod cdn;
pub mod client;
pub mod laboratory_editor;
pub mod precache;
