//! Layered polyline viewer: document model, viewer state and the per-frame
//! render pipeline that turns them into an ordered display list.

pub mod document;
pub mod label;
pub mod laws;
pub mod render;
pub mod viewer;

pub use document::{Color, FlattenedDocument, Layer, LayerID, PageSize, Path};
pub use label::layer_label;
pub use render::{render_scene, Primitive, POINT_RADIUS_SCALE, SHADOW_OFFSET};
pub use viewer::{HostAction, MenuEvent, Viewer};
