//! Drawing primitives: the closed set of drawable kinds handed in once per
//! frame by the widget layer, plus the clip construct that opens a new
//! layer scope.

use vstd::prelude::*;
use crate::geometry::Color;
use crate::geometry::Rectangle;

verus! {

/// A solid rounded quad.
#[derive(Clone, Copy, PartialEq, Eq, Structural, Debug)]
pub struct Quad {
    pub bounds: Rectangle,
    pub color: Color,
}

/// One mesh vertex: a position with a per-vertex color.
#[derive(Clone, Copy, PartialEq, Eq, Structural, Debug)]
pub struct Vertex {
    pub x: u32,
    pub y: u32,
    pub color: Color,
}

/// A triangle mesh with its own vertex buffer.
#[derive(Debug)]
pub struct Mesh {
    pub bounds: Rectangle,
    pub vertices: Vec<Vertex>,
}

/// A raster image draw, referring to a texture by handle.
#[derive(Clone, Copy, PartialEq, Eq, Structural, Debug)]
pub struct Image {
    pub bounds: Rectangle,
    pub handle: u64,
}

/// A run of text.
#[derive(Debug)]
pub struct Text {
    pub bounds: Rectangle,
    pub color: Color,
    pub size: u32,
    pub content: String,
}

/// An invocation of a third-party pipeline, identified by its pipeline id,
/// with its own clip viewport and an opaque payload.
#[derive(Debug)]
pub struct Custom {
    pub pipeline: u64,
    pub bounds: Rectangle,
    pub viewport: Rectangle,
    pub payload: Vec<u8>,
}

/// A drawable of one of the closed set of kinds.
#[derive(Debug)]
pub enum Drawable {
    Quad(Quad),
    Mesh(Mesh),
    Image(Image),
    Text(Text),
    Custom(Custom),
}

/// A frame primitive: either a drawable painted in the current layer
/// scope, or a clip opening a dedicated layer for its content.
#[derive(Debug)]
pub enum Primitive {
    Draw(Drawable),
    Clip { bounds: Rectangle, content: Vec<Drawable> },
}

/// The mathematical value of a [`Mesh`].
pub ghost struct MeshView {
    pub bounds: Rectangle,
    pub vertices: Seq<Vertex>,
}

/// The mathematical value of a [`Text`].
pub ghost struct TextView {
    pub bounds: Rectangle,
    pub color: Color,
    pub size: u32,
    pub content: Seq<char>,
}

/// The mathematical value of a [`Custom`].
pub ghost struct CustomView {
    pub pipeline: u64,
    pub bounds: Rectangle,
    pub viewport: Rectangle,
    pub payload: Seq<u8>,
}

/// The mathematical value of a [`Drawable`].
pub ghost enum DrawableView {
    Quad(Quad),
    Mesh(MeshView),
    Image(Image),
    Text(TextView),
    Custom(CustomView),
}

/// The mathematical value of a [`Primitive`].
pub ghost enum PrimitiveView {
    Draw(DrawableView),
    Clip { bounds: Rectangle, content: Seq<DrawableView> },
}

impl View for Mesh {
    type V = MeshView;

    open spec fn view(&self) -> MeshView {
        MeshView { bounds: self.bounds, vertices: self.vertices@ }
    }
}

impl View for Text {
    type V = TextView;

    open spec fn view(&self) -> TextView {
        TextView {
            bounds: self.bounds,
            color: self.color,
            size: self.size,
            content: self.content@,
        }
    }
}

impl View for Custom {
    type V = CustomView;

    open spec fn view(&self) -> CustomView {
        CustomView {
            pipeline: self.pipeline,
            bounds: self.bounds,
            viewport: self.viewport,
            payload: self.payload@,
        }
    }
}

impl View for Drawable {
    type V = DrawableView;

    open spec fn view(&self) -> DrawableView {
        match self {
            Drawable::Quad(q) => DrawableView::Quad(*q),
            Drawable::Mesh(m) => DrawableView::Mesh(m@),
            Drawable::Image(i) => DrawableView::Image(*i),
            Drawable::Text(t) => DrawableView::Text(t@),
            Drawable::Custom(c) => DrawableView::Custom(c@),
        }
    }
}

impl View for Primitive {
    type V = PrimitiveView;

    open spec fn view(&self) -> PrimitiveView {
        match self {
            Primitive::Draw(d) => PrimitiveView::Draw(d@),
            Primitive::Clip { bounds, content } => PrimitiveView::Clip {
                bounds: *bounds,
                content: drawable_views(content@),
            },
        }
    }
}

/// The sequence of views of a sequence of drawables.
pub open spec fn drawable_views(ds: Seq<Drawable>) -> Seq<DrawableView> {
    ds.map_values(|d: Drawable| d@)
}

/// The sequence of views of a sequence of primitives.
pub open spec fn primitive_views(ps: Seq<Primitive>) -> Seq<PrimitiveView> {
    ps.map_values(|p: Primitive| p@)
}

/// Copies one vertex buffer.
fn copy_vertices(vs: &Vec<Vertex>) -> (r: Vec<Vertex>)
    ensures
        r@ == vs@,
{
    let mut r: Vec<Vertex> = Vec::new();
    let mut i: usize = 0;
    while i < vs.len()
        invariant
            i <= vs.len(),
            r@ == vs@.take(i as int),
        decreases vs.len() - i,
    {
        r.push(vs[i]);
        proof {
            assert(vs@.take(i + 1 as int) =~= vs@.take(i as int).push(vs@[i as int]));
        }
        i = i + 1;
    }
    proof {
        assert(vs@.take(vs@.len() as int) =~= vs@);
    }
    r
}

/// Copies one byte buffer.
pub fn copy_bytes(bs: &Vec<u8>) -> (r: Vec<u8>)
    ensures
        r@ == bs@,
{
    let mut r: Vec<u8> = Vec::new();
    let mut i: usize = 0;
    while i < bs.len()
        invariant
            i <= bs.len(),
            r@ == bs@.take(i as int),
        decreases bs.len() - i,
    {
        r.push(bs[i]);
        proof {
            assert(bs@.take(i + 1 as int) =~= bs@.take(i as int).push(bs@[i as int]));
        }
        i = i + 1;
    }
    proof {
        assert(bs@.take(bs@.len() as int) =~= bs@);
    }
    r
}

impl Drawable {
    /// Rebuilds an owned drawable with the same value.
    pub fn duplicate(&self) -> (r: Drawable)
        ensures
            r@ == self@,
    {
        match self {
            Drawable::Quad(q) => Drawable::Quad(*q),
            Drawable::Mesh(m) => Drawable::Mesh(Mesh {
                bounds: m.bounds,
                vertices: copy_vertices(&m.vertices),
            }),
            Drawable::Image(i) => Drawable::Image(*i),
            Drawable::Text(t) => Drawable::Text(Text {
                bounds: t.bounds,
                color: t.color,
                size: t.size,
                content: t.content.clone(),
            }),
            Drawable::Custom(c) => Drawable::Custom(Custom {
                pipeline: c.pipeline,
                bounds: c.bounds,
                viewport: c.viewport,
                payload: copy_bytes(&c.payload),
            }),
        }
    }
}

} // verus!
