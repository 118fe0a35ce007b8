//! A layer compositor and multi-pipeline frame renderer.
//!
//! Drawing primitives are partitioned into ordered layers, batched by
//! primitive kind, staged into a bounded upload ring, and emitted as an
//! ordered stream of render-pass commands that preserves strict
//! back-to-front paint order across heterogeneous pipeline kinds.

pub mod backend;
pub mod encoder;
pub mod geometry;
pub mod layer;
pub mod pipeline;
pub mod primitive;
pub mod ring;

pub use backend::Backend;
pub use backend::DrawKind;
pub use encoder::Command;
pub use encoder::Encoder;
pub use encoder::PassLoad;
pub use geometry::Color;
pub use geometry::Rectangle;
pub use geometry::Viewport;
pub use layer::Layer;
pub use primitive::Custom;
pub use primitive::Drawable;
pub use primitive::Image;
pub use primitive::Mesh;
pub use primitive::Primitive;
pub use primitive::Quad;
pub use primitive::Text;
pub use primitive::Vertex;
pub use ring::StagingRing;
