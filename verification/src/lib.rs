//! Core logic of PonyClean: cleaning targets and path safety rules, disk
//! analysis bookkeeping, network quality classification, startup item
//! handling and the small formatting helpers they share.

pub mod cleaner;
pub mod cleanlog;
pub mod delete;
pub mod disk;
pub mod icon;
pub mod monitor;
pub mod netmon;
pub mod paths;
pub mod scan;
pub mod settings;
pub mod startup;
pub mod targets;
pub mod text;
pub mod window;
