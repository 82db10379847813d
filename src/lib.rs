//! Reconstructs the object hierarchy of a scene-graph prefab document and the
//! sprite images that its renderers reference.
//!
//! A document is split into records at its header lines (`document`), each
//! body is decoded into a value tree (`yaml`, `value`) and projected onto a
//! typed record (`fields`, `records`). The records are indexed (`lookup`) and
//! assembled into one tree from the transform with a null father
//! (`hierarchy`). Sprite images are located through sidecar metadata
//! (`resolver`) and cut from their textures (`sprite`).
pub mod text;
pub mod strings;
pub mod value;
pub mod yaml;
pub mod fields;
pub mod records;
pub mod document;
pub mod lookup;
pub mod hierarchy;
pub mod resolver;
pub mod sprite;
pub mod asset_crop;
pub mod export;
pub mod logger;
pub mod files;
pub mod acquire;

pub use text::chars_of;
