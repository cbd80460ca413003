//! Session layer between an editable Typst project and the Typst compiler:
//! file caching, position mapping, diagnostics, navigation and export
//! planning, each stated as a contract and proved.

pub mod assoc;
pub mod diagnostic;
pub mod export;
pub mod manager;
pub mod navigation;
pub mod position;
pub mod render;
pub mod session;
pub mod slot;
pub mod world;
