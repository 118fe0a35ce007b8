//! Layers: ordered buckets of same-frame drawables sharing paint order.
//!
//! `generate` partitions a frame's primitives into back-to-front layers,
//! preserving submission order; `overlay` builds the synthetic diagnostic
//! layer that always paints last.

use vstd::prelude::*;
use crate::geometry::Color;
use crate::geometry::Rectangle;
use crate::geometry::Viewport;
use crate::geometry::rect_intersect;
use crate::primitive::Custom;
use crate::primitive::CustomView;
use crate::primitive::Drawable;
use crate::primitive::DrawableView;
use crate::primitive::Image;
use crate::primitive::MeshView;
use crate::primitive::Primitive;
use crate::primitive::PrimitiveView;
use crate::primitive::Quad;
use crate::primitive::Text;
use crate::primitive::TextView;
use crate::primitive::drawable_views;
use crate::primitive::primitive_views;

verus! {

/// Vertical step between overlay lines, in logical pixels.
pub const LINE_HEIGHT: u32 = 20;

/// Font size of overlay text, in logical pixels.
pub const OVERLAY_TEXT_SIZE: u32 = 16;

/// One layer: a bucket of drawables sharing paint order, with the clip
/// bounds used both for scissoring and for the tiny-layer cull.
#[derive(Debug)]
pub struct Layer {
    pub bounds: Rectangle,
    pub quads: Vec<Quad>,
    pub meshes: Vec<crate::primitive::Mesh>,
    pub images: Vec<Image>,
    pub text: Vec<Text>,
    pub pipelines: Vec<Custom>,
}

/// The mathematical value of a [`Layer`].
#[verifier::ext_equal]
pub ghost struct LayerView {
    pub bounds: Rectangle,
    pub quads: Seq<Quad>,
    pub meshes: Seq<MeshView>,
    pub images: Seq<Image>,
    pub text: Seq<TextView>,
    pub pipelines: Seq<CustomView>,
}

impl View for Layer {
    type V = LayerView;

    open spec fn view(&self) -> LayerView {
        LayerView {
            bounds: self.bounds,
            quads: self.quads@,
            meshes: self.meshes@.map_values(|m: crate::primitive::Mesh| m@),
            images: self.images@,
            text: self.text@.map_values(|t: Text| t@),
            pipelines: self.pipelines@.map_values(|c: Custom| c@),
        }
    }
}

/// The sequence of views of a sequence of layers.
pub open spec fn layer_views(ls: Seq<Layer>) -> Seq<LayerView> {
    ls.map_values(|l: Layer| l@)
}

/// The quads of a drawable sequence, in order.
pub open spec fn quads_of(ds: Seq<DrawableView>) -> Seq<Quad>
    decreases ds.len(),
{
    if ds.len() == 0 {
        Seq::empty()
    } else {
        quads_of(ds.drop_last()) + (match ds.last() {
            DrawableView::Quad(q) => seq![q],
            _ => Seq::empty(),
        })
    }
}

/// The meshes of a drawable sequence, in order.
pub open spec fn meshes_of(ds: Seq<DrawableView>) -> Seq<MeshView>
    decreases ds.len(),
{
    if ds.len() == 0 {
        Seq::empty()
    } else {
        meshes_of(ds.drop_last()) + (match ds.last() {
            DrawableView::Mesh(m) => seq![m],
            _ => Seq::empty(),
        })
    }
}

/// The images of a drawable sequence, in order.
pub open spec fn images_of(ds: Seq<DrawableView>) -> Seq<Image>
    decreases ds.len(),
{
    if ds.len() == 0 {
        Seq::empty()
    } else {
        images_of(ds.drop_last()) + (match ds.last() {
            DrawableView::Image(i) => seq![i],
            _ => Seq::empty(),
        })
    }
}

/// The text runs of a drawable sequence, in order.
pub open spec fn texts_of(ds: Seq<DrawableView>) -> Seq<TextView>
    decreases ds.len(),
{
    if ds.len() == 0 {
        Seq::empty()
    } else {
        texts_of(ds.drop_last()) + (match ds.last() {
            DrawableView::Text(t) => seq![t],
            _ => Seq::empty(),
        })
    }
}

/// The custom-pipeline invocations of a drawable sequence, in order.
pub open spec fn customs_of(ds: Seq<DrawableView>) -> Seq<CustomView>
    decreases ds.len(),
{
    if ds.len() == 0 {
        Seq::empty()
    } else {
        customs_of(ds.drop_last()) + (match ds.last() {
            DrawableView::Custom(c) => seq![c],
            _ => Seq::empty(),
        })
    }
}

/// The layer holding exactly the drawables `ds`, bucketed by kind, under
/// bounds `bounds`.
pub open spec fn layer_of(bounds: Rectangle, ds: Seq<DrawableView>) -> LayerView {
    LayerView {
        bounds,
        quads: quads_of(ds),
        meshes: meshes_of(ds),
        images: images_of(ds),
        text: texts_of(ds),
        pipelines: customs_of(ds),
    }
}

/// The layer `l` with one more drawable appended to its kind's bucket.
pub open spec fn layer_push(l: LayerView, d: DrawableView) -> LayerView {
    match d {
        DrawableView::Quad(q) => LayerView { quads: l.quads.push(q), ..l },
        DrawableView::Mesh(m) => LayerView { meshes: l.meshes.push(m), ..l },
        DrawableView::Image(i) => LayerView { images: l.images.push(i), ..l },
        DrawableView::Text(t) => LayerView { text: l.text.push(t), ..l },
        DrawableView::Custom(c) => LayerView { pipelines: l.pipelines.push(c), ..l },
    }
}

/// Appending a drawable to the bucketed form of `ds` buckets it at the
/// end of its own kind's sequence.
pub proof fn lemma_layer_of_push(bounds: Rectangle, ds: Seq<DrawableView>, d: DrawableView)
    ensures
        layer_of(bounds, ds.push(d)) == layer_push(layer_of(bounds, ds), d),
{
    assert(ds.push(d).drop_last() =~= ds);
    assert(ds.push(d).last() == d);
    assert(layer_of(bounds, ds.push(d)) =~= layer_push(layer_of(bounds, ds), d));
}

impl Layer {
    /// An empty layer with the given bounds.
    pub fn new(bounds: Rectangle) -> (r: Layer)
        ensures
            r@ == layer_of(bounds, Seq::<DrawableView>::empty()),
    {
        let r = Layer {
            bounds,
            quads: Vec::new(),
            meshes: Vec::new(),
            images: Vec::new(),
            text: Vec::new(),
            pipelines: Vec::new(),
        };
        proof {
            assert(r@ =~= layer_of(bounds, Seq::<DrawableView>::empty()));
        }
        r
    }

    /// Adds one drawable to the bucket of its kind, keeping submission
    /// order within that kind.
    pub fn push(&mut self, d: Drawable)
        ensures
            final(self)@ == layer_push(old(self)@, d@),
    {
        match d {
            Drawable::Quad(q) => self.quads.push(q),
            Drawable::Mesh(m) => self.meshes.push(m),
            Drawable::Image(i) => self.images.push(i),
            Drawable::Text(t) => self.text.push(t),
            Drawable::Custom(c) => self.pipelines.push(c),
        }
        proof {
            assert(self@ =~= layer_push(old(self)@, d@));
        }
    }
}

/// The layer flushed for drawables collected outside any clip scope:
/// none if nothing was collected.
pub open spec fn flush(vb: Rectangle, pending: Seq<DrawableView>) -> Seq<LayerView> {
    if pending.len() == 0 {
        Seq::empty()
    } else {
        seq![layer_of(vb, pending)]
    }
}

/// The layers generated from the primitives not yet consumed, with
/// `pending` the drawables already collected for the open base layer.
pub open spec fn gen_layers(
    ps: Seq<PrimitiveView>,
    vb: Rectangle,
    pending: Seq<DrawableView>,
) -> Seq<LayerView>
    decreases ps.len(),
{
    if ps.len() == 0 {
        flush(vb, pending)
    } else {
        match ps.first() {
            PrimitiveView::Draw(d) => gen_layers(ps.drop_first(), vb, pending.push(d)),
            PrimitiveView::Clip { bounds, content } => flush(vb, pending)
                + seq![layer_of(rect_intersect(bounds, vb), content)]
                + gen_layers(ps.drop_first(), vb, Seq::empty()),
        }
    }
}

/// The ordered layer sequence of a frame's primitives under viewport
/// bounds `vb`.
pub open spec fn generate_spec(ps: Seq<PrimitiveView>, vb: Rectangle) -> Seq<LayerView> {
    gen_layers(ps, vb, Seq::empty())
}

impl Layer {
    /// Partitions a frame's primitives into ordered layers.
    ///
    /// Drawables outside any clip share a base layer bounded by the
    /// viewport; each clip gets a dedicated layer clipped to the
    /// viewport, and drawables after it start a fresh base layer, so
    /// paint order is never reordered. An empty primitive list yields an
    /// empty layer sequence.
    pub fn generate(primitives: &Vec<Primitive>, viewport: &Viewport) -> (r: Vec<Layer>)
        ensures
            layer_views(r@) == generate_spec(
                primitive_views(primitives@),
                viewport.spec_bounds(),
            ),
    {
        let vb = viewport.bounds();
        let ghost psv = primitive_views(primitives@);
        let mut layers: Vec<Layer> = Vec::new();
        let mut open_base: bool = false;
        let ghost mut pending = Seq::<DrawableView>::empty();
        let mut i: usize = 0;
        proof {
            assert(psv.skip(0) =~= psv);
            assert(layer_views(layers@) =~= Seq::<LayerView>::empty());
            assert(layer_views(layers@) + gen_layers(psv, vb, pending)
                =~= gen_layers(psv, vb, pending));
        }
        while i < primitives.len()
            invariant
                i <= primitives.len(),
                psv == primitive_views(primitives@),
                open_base ==> layers@.len() >= 1,
                open_base ==> pending.len() >= 1,
                open_base ==> layers@.last()@ == layer_of(vb, pending),
                !open_base ==> pending == Seq::<DrawableView>::empty(),
                generate_spec(psv, vb) == (if open_base {
                    layer_views(layers@).drop_last()
                } else {
                    layer_views(layers@)
                }) + gen_layers(psv.skip(i as int), vb, pending),
                vb == viewport.spec_bounds(),
            decreases primitives.len() - i,
        {
            proof {
                assert(psv[i as int] == primitives@[i as int]@);
                assert(psv.skip(i as int).first() == psv[i as int]);
                assert(psv.skip(i as int).drop_first() =~= psv.skip(i + 1 as int));
            }
            let ghost layers0 = layers@;
            let ghost open0 = open_base;
            let ghost pending0 = pending;
            match &primitives[i] {
                Primitive::Draw(d) => {
                    proof {
                        assert(psv[i as int] == PrimitiveView::Draw(d@));
                        assert(gen_layers(psv.skip(i as int), vb, pending0)
                            == gen_layers(psv.skip(i + 1 as int), vb, pending0.push(d@)));
                    }
                    let dd = d.duplicate();
                    if open_base {
                        let mut last = layers.pop().unwrap();
                        last.push(dd);
                        layers.push(last);
                    } else {
                        let mut first = Layer::new(vb);
                        first.push(dd);
                        layers.push(first);
                        open_base = true;
                    }
                    proof {
                        lemma_layer_of_push(vb, pending0, d@);
                        pending = pending0.push(d@);
                        assert(layers@.last()@ == layer_of(vb, pending));
                        if open0 {
                            assert(layers@ =~= layers0.drop_last().push(layers@.last()));
                            assert(layer_views(layers@).drop_last() =~= layer_views(
                                layers0,
                            ).drop_last());
                        } else {
                            assert(layers@ =~= layers0.push(layers@.last()));
                            assert(layer_views(layers@).drop_last() =~= layer_views(layers0));
                        }
                    }
                }
                Primitive::Clip { bounds, content } => {
                    proof {
                        assert(psv[i as int] == (PrimitiveView::Clip {
                            bounds: *bounds,
                            content: drawable_views(content@),
                        }));
                    }
                    let cb = bounds.intersect(&vb);
                    let mut clip = Layer::new(cb);
                    let ghost dvs = drawable_views(content@);
                    let mut j: usize = 0;
                    while j < content.len()
                        invariant
                            j <= content.len(),
                            dvs == drawable_views(content@),
                            clip@ == layer_of(cb, dvs.take(j as int)),
                        decreases content.len() - j,
                    {
                        let dd = content[j].duplicate();
                        clip.push(dd);
                        proof {
                            assert(dvs[j as int] == content@[j as int]@);
                            assert(dvs.take(j + 1 as int) =~= dvs.take(j as int).push(
                                dvs[j as int],
                            ));
                            lemma_layer_of_push(cb, dvs.take(j as int), dvs[j as int]);
                        }
                        j = j + 1;
                    }
                    proof {
                        assert(dvs.take(content@.len() as int) =~= dvs);
                        assert(clip@ == layer_of(cb, dvs));
                    }
                    layers.push(clip);
                    open_base = false;
                    proof {
                        pending = Seq::<DrawableView>::empty();
                        assert(layer_views(layers@) =~= layer_views(layers0).push(clip@));
                        if open0 {
                            assert(flush(vb, pending0) =~= seq![layers0.last()@]);
                            assert(layer_views(layers0).drop_last().push(layers0.last()@)
                                =~= layer_views(layers0));
                        } else {
                            assert(flush(vb, pending0) =~= Seq::<LayerView>::empty());
                        }
                        assert(generate_spec(psv, vb) =~= layer_views(layers@) + gen_layers(
                            psv.skip(i + 1 as int),
                            vb,
                            pending,
                        ));
                    }
                }
            }
            i = i + 1;
        }
        proof {
            let n = primitives@.len() as int;
            assert(psv.skip(n) =~= Seq::<PrimitiveView>::empty());
            if open_base {
                assert(gen_layers(psv.skip(n), vb, pending) == flush(vb, pending));
                assert(layer_views(layers@).drop_last() + seq![layer_of(vb, pending)]
                    =~= layer_views(layers@));
            } else {
                assert(gen_layers(psv.skip(n), vb, pending) == Seq::<LayerView>::empty());
                assert(layer_views(layers@) + Seq::<LayerView>::empty() =~= layer_views(
                    layers@,
                ));
            }
        }
        layers
    }
}

/// All quads of a layer sequence, in layer order.
pub open spec fn all_quads(ls: Seq<LayerView>) -> Seq<Quad>
    decreases ls.len(),
{
    if ls.len() == 0 {
        Seq::empty()
    } else {
        all_quads(ls.drop_last()) + ls.last().quads
    }
}

/// All meshes of a layer sequence, in layer order.
pub open spec fn all_meshes(ls: Seq<LayerView>) -> Seq<MeshView>
    decreases ls.len(),
{
    if ls.len() == 0 {
        Seq::empty()
    } else {
        all_meshes(ls.drop_last()) + ls.last().meshes
    }
}

/// All images of a layer sequence, in layer order.
pub open spec fn all_images(ls: Seq<LayerView>) -> Seq<Image>
    decreases ls.len(),
{
    if ls.len() == 0 {
        Seq::empty()
    } else {
        all_images(ls.drop_last()) + ls.last().images
    }
}

/// All text runs of a layer sequence, in layer order.
pub open spec fn all_texts(ls: Seq<LayerView>) -> Seq<TextView>
    decreases ls.len(),
{
    if ls.len() == 0 {
        Seq::empty()
    } else {
        all_texts(ls.drop_last()) + ls.last().text
    }
}

/// All custom invocations of a layer sequence, in layer order.
pub open spec fn all_customs(ls: Seq<LayerView>) -> Seq<CustomView>
    decreases ls.len(),
{
    if ls.len() == 0 {
        Seq::empty()
    } else {
        all_customs(ls.drop_last()) + ls.last().pipelines
    }
}

/// The quads of a primitive sequence, in submission order, clip
/// contents included in place.
pub open spec fn prim_quads(ps: Seq<PrimitiveView>) -> Seq<Quad>
    decreases ps.len(),
{
    if ps.len() == 0 {
        Seq::empty()
    } else {
        (match ps.first() {
            PrimitiveView::Draw(d) => match d {
                DrawableView::Quad(q) => seq![q],
                _ => Seq::<Quad>::empty(),
            },
            PrimitiveView::Clip { content, .. } => quads_of(content),
        }) + prim_quads(ps.drop_first())
    }
}

/// The meshes of a primitive sequence, in submission order.
pub open spec fn prim_meshes(ps: Seq<PrimitiveView>) -> Seq<MeshView>
    decreases ps.len(),
{
    if ps.len() == 0 {
        Seq::empty()
    } else {
        (match ps.first() {
            PrimitiveView::Draw(d) => match d {
                DrawableView::Mesh(m) => seq![m],
                _ => Seq::<MeshView>::empty(),
            },
            PrimitiveView::Clip { content, .. } => meshes_of(content),
        }) + prim_meshes(ps.drop_first())
    }
}

/// The images of a primitive sequence, in submission order.
pub open spec fn prim_images(ps: Seq<PrimitiveView>) -> Seq<Image>
    decreases ps.len(),
{
    if ps.len() == 0 {
        Seq::empty()
    } else {
        (match ps.first() {
            PrimitiveView::Draw(d) => match d {
                DrawableView::Image(i) => seq![i],
                _ => Seq::<Image>::empty(),
            },
            PrimitiveView::Clip { content, .. } => images_of(content),
        }) + prim_images(ps.drop_first())
    }
}

/// The text runs of a primitive sequence, in submission order.
pub open spec fn prim_texts(ps: Seq<PrimitiveView>) -> Seq<TextView>
    decreases ps.len(),
{
    if ps.len() == 0 {
        Seq::empty()
    } else {
        (match ps.first() {
            PrimitiveView::Draw(d) => match d {
                DrawableView::Text(t) => seq![t],
                _ => Seq::<TextView>::empty(),
            },
            PrimitiveView::Clip { content, .. } => texts_of(content),
        }) + prim_texts(ps.drop_first())
    }
}

/// The custom invocations of a primitive sequence, in submission order.
pub open spec fn prim_customs(ps: Seq<PrimitiveView>) -> Seq<CustomView>
    decreases ps.len(),
{
    if ps.len() == 0 {
        Seq::empty()
    } else {
        (match ps.first() {
            PrimitiveView::Draw(d) => match d {
                DrawableView::Custom(c) => seq![c],
                _ => Seq::<CustomView>::empty(),
            },
            PrimitiveView::Clip { content, .. } => customs_of(content),
        }) + prim_customs(ps.drop_first())
    }
}

/// Collecting a kind over concatenated layer sequences concatenates the
/// collections.
proof fn lemma_all_concat(a: Seq<LayerView>, b: Seq<LayerView>)
    ensures
        all_quads(a + b) == all_quads(a) + all_quads(b),
        all_meshes(a + b) == all_meshes(a) + all_meshes(b),
        all_images(a + b) == all_images(a) + all_images(b),
        all_texts(a + b) == all_texts(a) + all_texts(b),
        all_customs(a + b) == all_customs(a) + all_customs(b),
    decreases b.len(),
{
    if b.len() == 0 {
        assert(a + b =~= a);
        assert(all_quads(a) + all_quads(b) =~= all_quads(a));
        assert(all_meshes(a) + all_meshes(b) =~= all_meshes(a));
        assert(all_images(a) + all_images(b) =~= all_images(a));
        assert(all_texts(a) + all_texts(b) =~= all_texts(a));
        assert(all_customs(a) + all_customs(b) =~= all_customs(a));
    } else {
        lemma_all_concat(a, b.drop_last());
        assert((a + b).drop_last() =~= a + b.drop_last());
        assert((a + b).last() == b.last());
        assert(all_quads(a + b) =~= all_quads(a) + all_quads(b));
        assert(all_meshes(a + b) =~= all_meshes(a) + all_meshes(b));
        assert(all_images(a + b) =~= all_images(a) + all_images(b));
        assert(all_texts(a + b) =~= all_texts(a) + all_texts(b));
        assert(all_customs(a + b) =~= all_customs(a) + all_customs(b));
    }
}

proof fn lemma_gen_order(ps: Seq<PrimitiveView>, vb: Rectangle, pending: Seq<DrawableView>)
    ensures
        all_quads(gen_layers(ps, vb, pending)) == quads_of(pending) + prim_quads(ps),
        all_meshes(gen_layers(ps, vb, pending)) == meshes_of(pending) + prim_meshes(ps),
        all_images(gen_layers(ps, vb, pending)) == images_of(pending) + prim_images(ps),
        all_texts(gen_layers(ps, vb, pending)) == texts_of(pending) + prim_texts(ps),
        all_customs(gen_layers(ps, vb, pending)) == customs_of(pending) + prim_customs(ps),
    decreases ps.len(),
{
    if ps.len() == 0 {
        assert(all_quads(Seq::<LayerView>::empty()) == Seq::<Quad>::empty());
        assert(all_meshes(Seq::<LayerView>::empty()) == Seq::<MeshView>::empty());
        assert(all_images(Seq::<LayerView>::empty()) == Seq::<Image>::empty());
        assert(all_texts(Seq::<LayerView>::empty()) == Seq::<TextView>::empty());
        assert(all_customs(Seq::<LayerView>::empty()) == Seq::<CustomView>::empty());
        if pending.len() == 0 {
            assert(all_quads(flush(vb, pending)) =~= quads_of(pending) + prim_quads(ps));
            assert(all_meshes(flush(vb, pending)) =~= meshes_of(pending) + prim_meshes(ps));
            assert(all_images(flush(vb, pending)) =~= images_of(pending) + prim_images(ps));
            assert(all_texts(flush(vb, pending)) =~= texts_of(pending) + prim_texts(ps));
            assert(all_customs(flush(vb, pending)) =~= customs_of(pending) + prim_customs(ps));
        } else {
            let f = flush(vb, pending);
            assert(f.drop_last() =~= Seq::<LayerView>::empty());
            assert(all_quads(f) =~= quads_of(pending) + prim_quads(ps));
            assert(all_meshes(f) =~= meshes_of(pending) + prim_meshes(ps));
            assert(all_images(f) =~= images_of(pending) + prim_images(ps));
            assert(all_texts(f) =~= texts_of(pending) + prim_texts(ps));
            assert(all_customs(f) =~= customs_of(pending) + prim_customs(ps));
        }
    } else {
        match ps.first() {
            PrimitiveView::Draw(d) => {
                lemma_gen_order(ps.drop_first(), vb, pending.push(d));
                assert(pending.push(d).drop_last() =~= pending);
                assert(gen_layers(ps, vb, pending) == gen_layers(
                    ps.drop_first(),
                    vb,
                    pending.push(d),
                ));
                let dq: Seq<Quad> = match d {
                    DrawableView::Quad(q) => seq![q],
                    _ => Seq::empty(),
                };
                let dm: Seq<MeshView> = match d {
                    DrawableView::Mesh(m) => seq![m],
                    _ => Seq::empty(),
                };
                let di: Seq<Image> = match d {
                    DrawableView::Image(i) => seq![i],
                    _ => Seq::empty(),
                };
                let dt: Seq<TextView> = match d {
                    DrawableView::Text(t) => seq![t],
                    _ => Seq::empty(),
                };
                let dc: Seq<CustomView> = match d {
                    DrawableView::Custom(c) => seq![c],
                    _ => Seq::empty(),
                };
                assert(quads_of(pending.push(d)) == quads_of(pending) + dq);
                assert(prim_quads(ps) == dq + prim_quads(ps.drop_first()));
                assert((quads_of(pending) + dq) + prim_quads(ps.drop_first()) =~= quads_of(
                    pending,
                ) + (dq + prim_quads(ps.drop_first())));
                assert(meshes_of(pending.push(d)) == meshes_of(pending) + dm);
                assert(prim_meshes(ps) == dm + prim_meshes(ps.drop_first()));
                assert((meshes_of(pending) + dm) + prim_meshes(ps.drop_first()) =~= meshes_of(
                    pending,
                ) + (dm + prim_meshes(ps.drop_first())));
                assert(images_of(pending.push(d)) == images_of(pending) + di);
                assert(prim_images(ps) == di + prim_images(ps.drop_first()));
                assert((images_of(pending) + di) + prim_images(ps.drop_first()) =~= images_of(
                    pending,
                ) + (di + prim_images(ps.drop_first())));
                assert(texts_of(pending.push(d)) == texts_of(pending) + dt);
                assert(prim_texts(ps) == dt + prim_texts(ps.drop_first()));
                assert((texts_of(pending) + dt) + prim_texts(ps.drop_first()) =~= texts_of(
                    pending,
                ) + (dt + prim_texts(ps.drop_first())));
                assert(customs_of(pending.push(d)) == customs_of(pending) + dc);
                assert(prim_customs(ps) == dc + prim_customs(ps.drop_first()));
                assert((customs_of(pending) + dc) + prim_customs(ps.drop_first())
                    =~= customs_of(pending) + (dc + prim_customs(ps.drop_first())));
            }
            PrimitiveView::Clip { bounds, content } => {
                lemma_gen_order(ps.drop_first(), vb, Seq::empty());
                let f = flush(vb, pending);
                let c = seq![layer_of(rect_intersect(bounds, vb), content)];
                let rest = gen_layers(ps.drop_first(), vb, Seq::empty());
                lemma_all_concat(f + c, rest);
                lemma_all_concat(f, c);
                assert(gen_layers(ps, vb, pending) == (f + c) + rest);
                assert(all_quads(Seq::<LayerView>::empty()) == Seq::<Quad>::empty());
                assert(all_meshes(Seq::<LayerView>::empty()) == Seq::<MeshView>::empty());
                assert(all_images(Seq::<LayerView>::empty()) == Seq::<Image>::empty());
                assert(all_texts(Seq::<LayerView>::empty()) == Seq::<TextView>::empty());
                assert(all_customs(Seq::<LayerView>::empty()) == Seq::<CustomView>::empty());
                assert(c.drop_last() =~= Seq::<LayerView>::empty());
                assert(all_quads(c) =~= quads_of(content));
                assert(all_meshes(c) =~= meshes_of(content));
                assert(all_images(c) =~= images_of(content));
                assert(all_texts(c) =~= texts_of(content));
                assert(all_customs(c) =~= customs_of(content));
                if pending.len() > 0 {
                    assert(f.drop_last() =~= Seq::<LayerView>::empty());
                }
                assert(all_quads(f) =~= quads_of(pending));
                assert(all_meshes(f) =~= meshes_of(pending));
                assert(all_images(f) =~= images_of(pending));
                assert(all_texts(f) =~= texts_of(pending));
                assert(all_customs(f) =~= customs_of(pending));
                assert(all_quads(rest) =~= prim_quads(ps.drop_first()));
                assert(all_meshes(rest) =~= prim_meshes(ps.drop_first()));
                assert(all_images(rest) =~= prim_images(ps.drop_first()));
                assert(all_texts(rest) =~= prim_texts(ps.drop_first()));
                assert(all_customs(rest) =~= prim_customs(ps.drop_first()));
                assert(prim_quads(ps) == quads_of(content) + prim_quads(ps.drop_first()));
                assert(prim_meshes(ps) == meshes_of(content) + prim_meshes(ps.drop_first()));
                assert(prim_images(ps) == images_of(content) + prim_images(ps.drop_first()));
                assert(prim_texts(ps) == texts_of(content) + prim_texts(ps.drop_first()));
                assert(prim_customs(ps) == customs_of(content) + prim_customs(
                    ps.drop_first(),
                ));
                assert(all_quads(gen_layers(ps, vb, pending)) =~= quads_of(pending)
                    + prim_quads(ps));
                assert(all_meshes(gen_layers(ps, vb, pending)) =~= meshes_of(pending)
                    + prim_meshes(ps));
                assert(all_images(gen_layers(ps, vb, pending)) =~= images_of(pending)
                    + prim_images(ps));
                assert(all_texts(gen_layers(ps, vb, pending)) =~= texts_of(pending)
                    + prim_texts(ps));
                assert(all_customs(gen_layers(ps, vb, pending)) =~= customs_of(pending)
                    + prim_customs(ps));
            }
        }
    }
}

/// Order preservation: the generated layer sequence visits the
/// primitives of every kind in exactly the submission order of the
/// primitive list, clip contents in place; nothing is sorted or
/// reordered.
pub proof fn lemma_order_preserved(ps: Seq<PrimitiveView>, vb: Rectangle)
    ensures
        all_quads(generate_spec(ps, vb)) == prim_quads(ps),
        all_meshes(generate_spec(ps, vb)) == prim_meshes(ps),
        all_images(generate_spec(ps, vb)) == prim_images(ps),
        all_texts(generate_spec(ps, vb)) == prim_texts(ps),
        all_customs(generate_spec(ps, vb)) == prim_customs(ps),
{
    lemma_gen_order(ps, vb, Seq::empty());
    assert(quads_of(Seq::<DrawableView>::empty()) + prim_quads(ps) =~= prim_quads(ps));
    assert(meshes_of(Seq::<DrawableView>::empty()) + prim_meshes(ps) =~= prim_meshes(ps));
    assert(images_of(Seq::<DrawableView>::empty()) + prim_images(ps) =~= prim_images(ps));
    assert(texts_of(Seq::<DrawableView>::empty()) + prim_texts(ps) =~= prim_texts(ps));
    assert(customs_of(Seq::<DrawableView>::empty()) + prim_customs(ps) =~= prim_customs(ps));
}

/// The white used for overlay text.
pub open spec fn overlay_color() -> Color {
    Color { r: 255, g: 255, b: 255, a: 255 }
}

/// The vertical position of overlay line `i`, saturated at the
/// representable maximum.
pub open spec fn overlay_y(i: int) -> u32 {
    if LINE_HEIGHT * i <= u32::MAX {
        (LINE_HEIGHT * i) as u32
    } else {
        u32::MAX
    }
}

/// The text item of overlay line `i` with content `line` under viewport
/// bounds `vb`.
pub open spec fn overlay_text_view(line: Seq<char>, i: int, vb: Rectangle) -> TextView {
    TextView {
        bounds: Rectangle {
            x: 0,
            y: overlay_y(i),
            width: vb.width,
            height: LINE_HEIGHT,
        },
        color: overlay_color(),
        size: OVERLAY_TEXT_SIZE,
        content: line,
    }
}

/// The text items of the overlay lines, one per line, in order.
pub open spec fn overlay_texts(lines: Seq<Seq<char>>, vb: Rectangle) -> Seq<TextView> {
    Seq::new(lines.len(), |i: int| overlay_text_view(lines[i], i, vb))
}

/// The synthetic overlay layer for the given diagnostic lines.
pub open spec fn overlay_spec(lines: Seq<Seq<char>>, vb: Rectangle) -> LayerView {
    LayerView {
        bounds: vb,
        quads: Seq::empty(),
        meshes: Seq::empty(),
        images: Seq::empty(),
        text: overlay_texts(lines, vb),
        pipelines: Seq::empty(),
    }
}

/// The sequence of views of the overlay lines.
pub open spec fn line_views(lines: Seq<String>) -> Seq<Seq<char>> {
    lines.map_values(|s: String| s@)
}

impl Layer {
    /// Builds the synthetic diagnostic layer: one text run per overlay
    /// line, stacked top to bottom, bounded by the whole viewport.
    pub fn overlay(lines: &Vec<String>, viewport: &Viewport) -> (r: Layer)
        ensures
            r@ == overlay_spec(line_views(lines@), viewport.spec_bounds()),
    {
        let vb = viewport.bounds();
        let mut text: Vec<Text> = Vec::new();
        let mut i: usize = 0;
        while i < lines.len()
            invariant
                i <= lines.len(),
                text@.map_values(|t: Text| t@) =~= overlay_texts(
                    line_views(lines@),
                    viewport.spec_bounds(),
                ).take(i as int),
                vb == viewport.spec_bounds(),
            decreases lines.len() - i,
        {
            let y128: u128 = LINE_HEIGHT as u128 * i as u128;
            let y: u32 = if y128 <= u32::MAX as u128 {
                y128 as u32
            } else {
                u32::MAX
            };
            let t = Text {
                bounds: Rectangle { x: 0, y, width: vb.width, height: LINE_HEIGHT },
                color: Color { r: 255, g: 255, b: 255, a: 255 },
                size: OVERLAY_TEXT_SIZE,
                content: lines[i].clone(),
            };
            let ghost t0 = t@;
            text.push(t);
            proof {
                let lv = line_views(lines@);
                assert(lv[i as int] == lines@[i as int]@);
                assert(y == overlay_y(i as int));
                assert(t0 == overlay_text_view(lv[i as int], i as int, vb));
                assert(text@.map_values(|x: Text| x@) =~= text@.drop_last().map_values(
                    |x: Text| x@,
                ).push(t0));
                assert(overlay_texts(lv, vb).take(i + 1 as int) =~= overlay_texts(
                    lv,
                    vb,
                ).take(i as int).push(overlay_texts(lv, vb)[i as int]));
            }
            i = i + 1;
        }
        let r = Layer {
            bounds: vb,
            quads: Vec::new(),
            meshes: Vec::new(),
            images: Vec::new(),
            text,
            pipelines: Vec::new(),
        };
        proof {
            assert(overlay_texts(line_views(lines@), vb).take(lines@.len() as int)
                =~= overlay_texts(line_views(lines@), vb));
            assert(r@ =~= overlay_spec(line_views(lines@), viewport.spec_bounds()));
        }
        r
    }
}

} // verus!
