//! The frame compositor: orchestrates one frame from primitives to a
//! recorded command stream.
//!
//! `present` builds layers, drives every pipeline kind's preparer in
//! layer order, seals the staging ring, and emits draw commands in
//! strict back-to-front order, closing and reopening the shared pass
//! around mesh and custom-pipeline draws. `recall` recycles the staging
//! ring once the caller knows the submission is consumed.

use vstd::prelude::*;
use crate::encoder::Command;
use crate::encoder::Encoder;
use crate::encoder::PassLoad;
use crate::geometry::Color;
use crate::geometry::Viewport;
use crate::geometry::rect_visible;
use crate::geometry::snap_rect;
use crate::layer::Layer;
use crate::layer::LayerView;
use crate::layer::generate_spec;
use crate::layer::layer_views;
use crate::layer::line_views;
use crate::layer::overlay_spec;
use crate::pipeline::Pipeline;
use crate::pipeline::PreparedLayer;
use crate::pipeline::Storage;
use crate::pipeline::encode_images;
use crate::pipeline::encode_meshes;
use crate::pipeline::encode_quads;
use crate::pipeline::encode_texts;
use crate::pipeline::images_bytes;
use crate::pipeline::meshes_bytes;
use crate::pipeline::quads_bytes;
use crate::pipeline::texts_bytes;
use crate::primitive::CustomView;
use crate::primitive::Primitive;
use crate::primitive::PrimitiveView;
use crate::primitive::copy_bytes;
use crate::primitive::primitive_views;
use crate::ring::RingState;
use crate::ring::StagingRing;

verus! {

/// Default capacity of the staging ring, about 100 KiB.
pub const STAGING_CAPACITY: usize = 102400;

/// Whether a layer survives the tiny-layer cull under `scale`.
pub open spec fn layer_visible(l: LayerView, scale: u32) -> bool {
    rect_visible(l.bounds, scale)
}

/// Everything one frame's preparation produces: the prepared layers of
/// each kind, in layer-index order, and the bytes carved into the ring.
#[verifier::ext_equal]
pub ghost struct PrepOut {
    pub quads: Seq<PreparedLayer>,
    pub meshes: Seq<PreparedLayer>,
    pub images: Seq<PreparedLayer>,
    pub texts: Seq<PreparedLayer>,
    pub bytes: Seq<u8>,
}

/// Preparation output with nothing prepared.
pub open spec fn prep_empty() -> PrepOut {
    PrepOut {
        quads: Seq::empty(),
        meshes: Seq::empty(),
        images: Seq::empty(),
        texts: Seq::empty(),
        bytes: Seq::empty(),
    }
}

/// Extends `p` by one visible layer: each non-empty kind stages its
/// serialized bytes, in the fixed kind order quad, mesh, image, text,
/// at offsets continuing from `base + p.bytes`.
pub open spec fn layer_prep(p: PrepOut, l: LayerView, base: int) -> PrepOut {
    let qb = if l.quads.len() > 0 { quads_bytes(l.quads) } else { Seq::<u8>::empty() };
    let mb = if l.meshes.len() > 0 { meshes_bytes(l.meshes) } else { Seq::<u8>::empty() };
    let ib = if l.images.len() > 0 { images_bytes(l.images) } else { Seq::<u8>::empty() };
    let tb = if l.text.len() > 0 { texts_bytes(l.text) } else { Seq::<u8>::empty() };
    let o0 = base + p.bytes.len();
    PrepOut {
        quads: if l.quads.len() > 0 {
            p.quads.push(PreparedLayer {
                offset: o0 as usize,
                len: qb.len() as usize,
                count: l.quads.len() as usize,
            })
        } else {
            p.quads
        },
        meshes: if l.meshes.len() > 0 {
            p.meshes.push(PreparedLayer {
                offset: (o0 + qb.len()) as usize,
                len: mb.len() as usize,
                count: l.meshes.len() as usize,
            })
        } else {
            p.meshes
        },
        images: if l.images.len() > 0 {
            p.images.push(PreparedLayer {
                offset: (o0 + qb.len() + mb.len()) as usize,
                len: ib.len() as usize,
                count: l.images.len() as usize,
            })
        } else {
            p.images
        },
        texts: if l.text.len() > 0 {
            p.texts.push(PreparedLayer {
                offset: (o0 + qb.len() + mb.len() + ib.len()) as usize,
                len: tb.len() as usize,
                count: l.text.len() as usize,
            })
        } else {
            p.texts
        },
        bytes: p.bytes + qb + mb + ib + tb,
    }
}

/// What preparing the layers stages, visible layers only, in layer
/// order, with ring offsets starting at `base`.
pub open spec fn prep(ls: Seq<LayerView>, scale: u32, base: int) -> PrepOut
    decreases ls.len(),
{
    if ls.len() == 0 {
        prep_empty()
    } else {
        let p = prep(ls.drop_last(), scale, base);
        if layer_visible(ls.last(), scale) {
            layer_prep(p, ls.last(), base)
        } else {
            p
        }
    }
}

/// The registry after one visible layer's custom invocations stored
/// their state, in submission order.
pub open spec fn store_customs(cs: Seq<CustomView>, m: Map<u64, Seq<u8>>) -> Map<u64, Seq<u8>>
    decreases cs.len(),
{
    if cs.len() == 0 {
        m
    } else {
        store_customs(cs.drop_last(), m).insert(cs.last().pipeline, cs.last().payload)
    }
}

/// The registry after preparing the layers, starting from `m`.
pub open spec fn stored_after(ls: Seq<LayerView>, scale: u32, m: Map<u64, Seq<u8>>) -> Map<
    u64,
    Seq<u8>,
>
    decreases ls.len(),
{
    if ls.len() == 0 {
        m
    } else {
        let m1 = stored_after(ls.drop_last(), scale, m);
        if layer_visible(ls.last(), scale) {
            store_customs(ls.last().pipelines, m1)
        } else {
            m1
        }
    }
}

/// How the frame's first pass treats the target: clear to the caller's
/// color, or accumulate over the existing contents.
pub open spec fn load_of(clear_color: Option<Color>) -> PassLoad {
    match clear_color {
        Some(c) => PassLoad::Clear(c),
        None => PassLoad::Keep,
    }
}

/// The draw commands of one visible layer's custom invocations, each
/// clipped to its own physical viewport and culled when tiny.
pub open spec fn custom_cmds(cs: Seq<CustomView>, scale: u32) -> Seq<Command>
    decreases cs.len(),
{
    if cs.len() == 0 {
        Seq::empty()
    } else {
        custom_cmds(cs.drop_last(), scale) + (if rect_visible(cs.last().viewport, scale) {
            seq![
                Command::DrawCustom {
                    pipeline: cs.last().pipeline,
                    viewport: snap_rect(cs.last().viewport, scale),
                },
            ]
        } else {
            Seq::<Command>::empty()
        })
    }
}

/// The quad segment of one visible layer's commands.
pub open spec fn seg_quads(l: LayerView, scale: u32, q: usize) -> Seq<Command> {
    if l.quads.len() > 0 {
        seq![Command::DrawQuads { layer: q, bounds: snap_rect(l.bounds, scale) }]
    } else {
        Seq::<Command>::empty()
    }
}

/// The mesh segment: the shared pass closes, the mesh batch draws and
/// resolves in its own multisampled pass, and the shared pass reopens
/// loading the existing contents.
pub open spec fn seg_meshes(l: LayerView, scale: u32, m: usize) -> Seq<Command> {
    if l.meshes.len() > 0 {
        seq![
            Command::EndPass,
            Command::BeginMeshPass { layer: m, bounds: snap_rect(l.bounds, scale) },
            Command::Resolve,
            Command::EndPass,
            Command::BeginPass { load: PassLoad::Keep },
        ]
    } else {
        Seq::<Command>::empty()
    }
}

/// The image segment of one visible layer's commands.
pub open spec fn seg_images(l: LayerView, scale: u32, im: usize) -> Seq<Command> {
    if l.images.len() > 0 {
        seq![Command::DrawImages { layer: im, bounds: snap_rect(l.bounds, scale) }]
    } else {
        Seq::<Command>::empty()
    }
}

/// The text segment of one visible layer's commands.
pub open spec fn seg_texts(l: LayerView, scale: u32, tx: usize) -> Seq<Command> {
    if l.text.len() > 0 {
        seq![Command::DrawText { layer: tx, bounds: snap_rect(l.bounds, scale) }]
    } else {
        Seq::<Command>::empty()
    }
}

/// The custom segment: the shared pass closes, each invocation draws in
/// its own scope, and the shared pass reopens loading the existing
/// contents.
pub open spec fn seg_customs(l: LayerView, scale: u32) -> Seq<Command> {
    if l.pipelines.len() > 0 {
        seq![Command::EndPass] + custom_cmds(l.pipelines, scale) + seq![
            Command::BeginPass { load: PassLoad::Keep },
        ]
    } else {
        Seq::<Command>::empty()
    }
}

/// The commands of one visible layer, given each kind's current layer
/// index. Kinds draw in the fixed order quad, mesh, image, text,
/// custom; mesh and custom draws close the shared pass and reopen it
/// with load semantics.
pub open spec fn layer_cmds(l: LayerView, scale: u32, q: usize, m: usize, im: usize, tx: usize)
    -> Seq<Command> {
    seg_quads(l, scale, q) + seg_meshes(l, scale, m) + seg_images(l, scale, im) + seg_texts(
        l,
        scale,
        tx,
    ) + seg_customs(l, scale)
}

/// One drawable kind, as named in the fixed cross-kind draw order.
#[derive(Clone, Copy, PartialEq, Eq, Structural, Debug)]
pub enum DrawKind {
    Quad,
    Mesh,
    Image,
    Text,
    Custom,
}

/// The fixed cross-kind draw order within one layer: the only place
/// relative z-order across kinds sharing a layer is decided.
pub open spec fn draw_order() -> Seq<DrawKind> {
    seq![DrawKind::Quad, DrawKind::Mesh, DrawKind::Image, DrawKind::Text, DrawKind::Custom]
}

/// The command segment one kind contributes to one visible layer.
pub open spec fn seg_of(
    k: DrawKind,
    l: LayerView,
    scale: u32,
    q: usize,
    m: usize,
    im: usize,
    tx: usize,
) -> Seq<Command> {
    match k {
        DrawKind::Quad => seg_quads(l, scale, q),
        DrawKind::Mesh => seg_meshes(l, scale, m),
        DrawKind::Image => seg_images(l, scale, im),
        DrawKind::Text => seg_texts(l, scale, tx),
        DrawKind::Custom => seg_customs(l, scale),
    }
}

/// The segments of the kinds `ks`, concatenated in their order.
pub open spec fn segs_in_order(
    ks: Seq<DrawKind>,
    l: LayerView,
    scale: u32,
    q: usize,
    m: usize,
    im: usize,
    tx: usize,
) -> Seq<Command>
    decreases ks.len(),
{
    if ks.len() == 0 {
        Seq::empty()
    } else {
        seg_of(ks.first(), l, scale, q, m, im, tx) + segs_in_order(
            ks.drop_first(),
            l,
            scale,
            q,
            m,
            im,
            tx,
        )
    }
}

/// A layer's commands are exactly its kinds' segments in the fixed
/// draw order: the order is the enumerated constant, not code layout.
pub proof fn lemma_fixed_kind_order(
    l: LayerView,
    scale: u32,
    q: usize,
    m: usize,
    im: usize,
    tx: usize,
)
    ensures
        layer_cmds(l, scale, q, m, im, tx) == segs_in_order(
            draw_order(),
            l,
            scale,
            q,
            m,
            im,
            tx,
        ),
{
    let k1 = draw_order().drop_first();
    let k2 = k1.drop_first();
    let k3 = k2.drop_first();
    let k4 = k3.drop_first();
    let k5 = k4.drop_first();
    assert(k1 =~= seq![DrawKind::Mesh, DrawKind::Image, DrawKind::Text, DrawKind::Custom]);
    assert(k2 =~= seq![DrawKind::Image, DrawKind::Text, DrawKind::Custom]);
    assert(k3 =~= seq![DrawKind::Text, DrawKind::Custom]);
    assert(k4 =~= seq![DrawKind::Custom]);
    assert(k5 =~= Seq::<DrawKind>::empty());
    assert(segs_in_order(k5, l, scale, q, m, im, tx) == Seq::<Command>::empty());
    assert(segs_in_order(k4, l, scale, q, m, im, tx) == seg_customs(l, scale) + segs_in_order(
        k5,
        l,
        scale,
        q,
        m,
        im,
        tx,
    ));
    assert(segs_in_order(k3, l, scale, q, m, im, tx) == seg_texts(l, scale, tx)
        + segs_in_order(k4, l, scale, q, m, im, tx));
    assert(segs_in_order(k2, l, scale, q, m, im, tx) == seg_images(l, scale, im)
        + segs_in_order(k3, l, scale, q, m, im, tx));
    assert(segs_in_order(k1, l, scale, q, m, im, tx) == seg_meshes(l, scale, m)
        + segs_in_order(k2, l, scale, q, m, im, tx));
    assert(segs_in_order(draw_order(), l, scale, q, m, im, tx) == seg_quads(l, scale, q)
        + segs_in_order(k1, l, scale, q, m, im, tx));
    assert(layer_cmds(l, scale, q, m, im, tx) =~= segs_in_order(
        draw_order(),
        l,
        scale,
        q,
        m,
        im,
        tx,
    ));
}

/// The fixed cross-kind draw order, as a value tests and callers can
/// inspect.
pub fn kind_order() -> (r: Vec<DrawKind>)
    ensures
        r@ == draw_order(),
{
    let mut r: Vec<DrawKind> = Vec::new();
    r.push(DrawKind::Quad);
    r.push(DrawKind::Mesh);
    r.push(DrawKind::Image);
    r.push(DrawKind::Text);
    r.push(DrawKind::Custom);
    proof {
        assert(r@ =~= draw_order());
    }
    r
}

/// The next layer index of a kind: advanced only when the kind drew.
pub open spec fn bump(c: usize, drew: bool) -> usize {
    if drew {
        (c + 1) as usize
    } else {
        c
    }
}

/// The commands of the remaining layers, skipping culled layers without
/// consuming layer indices.
pub open spec fn layers_cmds(
    ls: Seq<LayerView>,
    scale: u32,
    q: usize,
    m: usize,
    im: usize,
    tx: usize,
) -> Seq<Command>
    decreases ls.len(),
{
    if ls.len() == 0 {
        Seq::empty()
    } else if !layer_visible(ls.first(), scale) {
        layers_cmds(ls.drop_first(), scale, q, m, im, tx)
    } else {
        let l = ls.first();
        layer_cmds(l, scale, q, m, im, tx) + layers_cmds(
            ls.drop_first(),
            scale,
            bump(q, l.quads.len() > 0),
            bump(m, l.meshes.len() > 0),
            bump(im, l.images.len() > 0),
            bump(tx, l.text.len() > 0),
        )
    }
}

/// The full command stream of one frame over the given layers.
pub open spec fn frame_cmds(ls: Seq<LayerView>, clear_color: Option<Color>, scale: u32) -> Seq<
    Command,
> {
    seq![Command::BeginPass { load: load_of(clear_color) }] + layers_cmds(ls, scale, 0, 0, 0, 0)
        + seq![Command::EndPass]
}

/// How many layers a kind prepares: the visible layers with a non-empty
/// bucket of that kind.
pub open spec fn count_quad_layers(ls: Seq<LayerView>, scale: u32) -> nat
    decreases ls.len(),
{
    if ls.len() == 0 {
        0
    } else {
        count_quad_layers(ls.drop_last(), scale) + (if layer_visible(ls.last(), scale)
            && ls.last().quads.len() > 0 {
            1nat
        } else {
            0nat
        })
    }
}

/// How many layers the mesh kind prepares.
pub open spec fn count_mesh_layers(ls: Seq<LayerView>, scale: u32) -> nat
    decreases ls.len(),
{
    if ls.len() == 0 {
        0
    } else {
        count_mesh_layers(ls.drop_last(), scale) + (if layer_visible(ls.last(), scale)
            && ls.last().meshes.len() > 0 {
            1nat
        } else {
            0nat
        })
    }
}

/// How many layers the image kind prepares.
pub open spec fn count_image_layers(ls: Seq<LayerView>, scale: u32) -> nat
    decreases ls.len(),
{
    if ls.len() == 0 {
        0
    } else {
        count_image_layers(ls.drop_last(), scale) + (if layer_visible(ls.last(), scale)
            && ls.last().images.len() > 0 {
            1nat
        } else {
            0nat
        })
    }
}

/// How many layers the text kind prepares.
pub open spec fn count_text_layers(ls: Seq<LayerView>, scale: u32) -> nat
    decreases ls.len(),
{
    if ls.len() == 0 {
        0
    } else {
        count_text_layers(ls.drop_last(), scale) + (if layer_visible(ls.last(), scale)
            && ls.last().text.len() > 0 {
            1nat
        } else {
            0nat
        })
    }
}

/// Preparation produces exactly one prepared layer per visible layer
/// with a non-empty bucket of the kind, for every kind.
pub proof fn lemma_prep_counts(ls: Seq<LayerView>, scale: u32, base: int)
    ensures
        prep(ls, scale, base).quads.len() == count_quad_layers(ls, scale),
        prep(ls, scale, base).meshes.len() == count_mesh_layers(ls, scale),
        prep(ls, scale, base).images.len() == count_image_layers(ls, scale),
        prep(ls, scale, base).texts.len() == count_text_layers(ls, scale),
    decreases ls.len(),
{
    if ls.len() > 0 {
        lemma_prep_counts(ls.drop_last(), scale, base);
    }
}

/// The layer sequence of one frame: the generated layers, with the
/// overlay layer appended last whenever there are overlay lines.
pub open spec fn frame_layers(
    ps: Seq<PrimitiveView>,
    lines: Seq<Seq<char>>,
    vp: Viewport,
) -> Seq<LayerView> {
    let base = generate_spec(ps, vp.spec_bounds());
    if lines.len() > 0 {
        base.push(overlay_spec(lines, vp.spec_bounds()))
    } else {
        base
    }
}

/// Empty-frame idempotence: a frame with no primitives and no overlay
/// text generates no layers, and its command stream is exactly one pass
/// opened and closed again, with no draw command, however often it is
/// presented.
pub proof fn lemma_empty_frame(vp: Viewport, clear_color: Option<Color>, scale: u32)
    ensures
        frame_layers(Seq::empty(), Seq::empty(), vp) == Seq::<LayerView>::empty(),
        frame_cmds(Seq::empty(), clear_color, scale) == seq![
            Command::BeginPass { load: load_of(clear_color) },
            Command::EndPass,
        ],
{
    assert(frame_layers(Seq::empty(), Seq::empty(), vp) =~= Seq::<LayerView>::empty());
    assert(frame_cmds(Seq::empty(), clear_color, scale) =~= seq![
        Command::BeginPass { load: load_of(clear_color) },
        Command::EndPass,
    ]);
}

/// Tiny-layer culling leaves the command stream untouched: inserting a
/// layer whose physical bounds round below one pixel anywhere in the
/// layer sequence changes no command, and in particular shifts no other
/// layer's per-kind layer index.
pub proof fn lemma_cull_preserves_commands(
    ls: Seq<LayerView>,
    i: int,
    l: LayerView,
    scale: u32,
    q: usize,
    m: usize,
    im: usize,
    tx: usize,
)
    requires
        0 <= i <= ls.len(),
        !layer_visible(l, scale),
    ensures
        layers_cmds(ls.insert(i, l), scale, q, m, im, tx) == layers_cmds(
            ls,
            scale,
            q,
            m,
            im,
            tx,
        ),
    decreases ls.len(),
{
    let w = ls.insert(i, l);
    if i == 0 {
        assert(w.first() == l);
        assert(w.drop_first() =~= ls);
    } else {
        assert(w.first() == ls.first());
        assert(w.drop_first() =~= ls.drop_first().insert(i - 1, l));
        if layer_visible(ls.first(), scale) {
            let lf = ls.first();
            lemma_cull_preserves_commands(
                ls.drop_first(),
                i - 1,
                l,
                scale,
                bump(q, lf.quads.len() > 0),
                bump(m, lf.meshes.len() > 0),
                bump(im, lf.images.len() > 0),
                bump(tx, lf.text.len() > 0),
            );
        } else {
            lemma_cull_preserves_commands(ls.drop_first(), i - 1, l, scale, q, m, im, tx);
        }
    }
}

/// Tiny-layer culling also stages nothing: inserting a culled layer
/// changes neither the bytes and prepared layers of any kind nor the
/// custom-pipeline registry.
pub proof fn lemma_cull_preserves_prepare(
    ls: Seq<LayerView>,
    i: int,
    l: LayerView,
    scale: u32,
    base: int,
    m: Map<u64, Seq<u8>>,
)
    requires
        0 <= i <= ls.len(),
        !layer_visible(l, scale),
    ensures
        prep(ls.insert(i, l), scale, base) == prep(ls, scale, base),
        stored_after(ls.insert(i, l), scale, m) == stored_after(ls, scale, m),
    decreases ls.len() - i,
{
    let w = ls.insert(i, l);
    if i == ls.len() {
        assert(w.drop_last() =~= ls);
        assert(w.last() == l);
    } else {
        assert(w.last() == ls.last());
        assert(w.drop_last() =~= ls.drop_last().insert(i, l));
        lemma_cull_preserves_prepare(ls.drop_last(), i, l, scale, base, m);
    }
}

/// Overlay always on top: with non-empty overlay text the frame's last
/// layer is the overlay layer, and the layers before it are exactly the
/// generated layers of the primitives, whatever their order.
pub proof fn lemma_overlay_on_top(
    ps: Seq<PrimitiveView>,
    lines: Seq<Seq<char>>,
    vp: Viewport,
)
    requires
        lines.len() > 0,
    ensures
        frame_layers(ps, lines, vp).len() == generate_spec(ps, vp.spec_bounds()).len() + 1,
        frame_layers(ps, lines, vp).last() == overlay_spec(lines, vp.spec_bounds()),
        frame_layers(ps, lines, vp).drop_last() == generate_spec(ps, vp.spec_bounds()),
{
    assert(frame_layers(ps, lines, vp).drop_last() =~= generate_spec(ps, vp.spec_bounds()));
}

/// Emits one draw command per custom invocation in order, skipping
/// those whose own physical viewport is tiny.
#[verifier::loop_isolation(false)]
fn render_custom_list(encoder: &mut Encoder, pipelines: &Vec<crate::primitive::Custom>, scale: u32)
    ensures
        final(encoder)@ == old(encoder)@ + custom_cmds(
            pipelines@.map_values(|c: crate::primitive::Custom| c@),
            scale,
        ),
{
    let ghost cs = pipelines@.map_values(|c: crate::primitive::Custom| c@);
    let ghost ec = encoder@;
    let mut j: usize = 0;
    proof {
        assert(cs.take(0) =~= Seq::<CustomView>::empty());
        assert(encoder@ =~= ec + custom_cmds(cs.take(0), scale));
    }
    while j < pipelines.len()
        invariant
            j <= pipelines.len(),
            cs == pipelines@.map_values(|c: crate::primitive::Custom| c@),
            encoder@ == ec + custom_cmds(cs.take(j as int), scale),
        decreases pipelines.len() - j,
    {
        let c = &pipelines[j];
        proof {
            assert(cs[j as int] == pipelines@[j as int]@);
        }
        if c.viewport.is_visible(scale) {
            encoder.record(Command::DrawCustom {
                pipeline: c.pipeline,
                viewport: c.viewport.snap(scale),
            });
        }
        proof {
            assert(cs.take(j + 1 as int).drop_last() =~= cs.take(j as int));
            assert(cs.take(j + 1 as int).last() == cs[j as int]);
            assert(encoder@ =~= ec + custom_cmds(cs.take(j + 1 as int), scale));
        }
        j = j + 1;
    }
    proof {
        assert(cs.take(pipelines@.len() as int) =~= cs);
    }
}

/// Emits one visible layer's quad segment.
fn render_quad_seg(encoder: &mut Encoder, layer: &Layer, scale: u32, q: usize)
    ensures
        final(encoder)@ == old(encoder)@ + seg_quads(layer@, scale, q),
{
    let bounds = layer.bounds.snap(scale);
    if layer.quads.len() > 0 {
        encoder.record(Command::DrawQuads { layer: q, bounds });
        proof {
            assert(encoder@ =~= old(encoder)@ + seg_quads(layer@, scale, q));
        }
    } else {
        proof {
            assert(encoder@ =~= old(encoder)@ + seg_quads(layer@, scale, q));
        }
    }
}

/// Emits one visible layer's mesh segment, a pass of its own.
fn render_mesh_seg(encoder: &mut Encoder, layer: &Layer, scale: u32, m: usize)
    ensures
        final(encoder)@ == old(encoder)@ + seg_meshes(layer@, scale, m),
{
    let bounds = layer.bounds.snap(scale);
    if layer.meshes.len() > 0 {
        encoder.record(Command::EndPass);
        encoder.record(Command::BeginMeshPass { layer: m, bounds });
        encoder.record(Command::Resolve);
        encoder.record(Command::EndPass);
        encoder.record(Command::BeginPass { load: PassLoad::Keep });
        proof {
            assert(encoder@ =~= old(encoder)@ + seg_meshes(layer@, scale, m));
        }
    } else {
        proof {
            assert(encoder@ =~= old(encoder)@ + seg_meshes(layer@, scale, m));
        }
    }
}

/// Emits one visible layer's image segment.
fn render_image_seg(encoder: &mut Encoder, layer: &Layer, scale: u32, im: usize)
    ensures
        final(encoder)@ == old(encoder)@ + seg_images(layer@, scale, im),
{
    let bounds = layer.bounds.snap(scale);
    if layer.images.len() > 0 {
        encoder.record(Command::DrawImages { layer: im, bounds });
        proof {
            assert(encoder@ =~= old(encoder)@ + seg_images(layer@, scale, im));
        }
    } else {
        proof {
            assert(encoder@ =~= old(encoder)@ + seg_images(layer@, scale, im));
        }
    }
}

/// Emits one visible layer's text segment.
fn render_text_seg(encoder: &mut Encoder, layer: &Layer, scale: u32, tx: usize)
    ensures
        final(encoder)@ == old(encoder)@ + seg_texts(layer@, scale, tx),
{
    let bounds = layer.bounds.snap(scale);
    if layer.text.len() > 0 {
        encoder.record(Command::DrawText { layer: tx, bounds });
        proof {
            assert(encoder@ =~= old(encoder)@ + seg_texts(layer@, scale, tx));
        }
    } else {
        proof {
            assert(encoder@ =~= old(encoder)@ + seg_texts(layer@, scale, tx));
        }
    }
}

/// Emits one visible layer's custom segment, outside the shared pass.
fn render_custom_seg(encoder: &mut Encoder, layer: &Layer, scale: u32)
    ensures
        final(encoder)@ == old(encoder)@ + seg_customs(layer@, scale),
{
    if layer.pipelines.len() > 0 {
        encoder.record(Command::EndPass);
        render_custom_list(encoder, &layer.pipelines, scale);
        encoder.record(Command::BeginPass { load: PassLoad::Keep });
        proof {
            assert(encoder@ =~= old(encoder)@ + seg_customs(layer@, scale));
        }
    } else {
        proof {
            assert(encoder@ =~= old(encoder)@ + seg_customs(layer@, scale));
        }
    }
}

/// Emits one visible layer's commands: each non-empty kind in the fixed
/// kind order, with the end-pass/reopen protocol around mesh and custom
/// draws.
fn render_layer(
    encoder: &mut Encoder,
    layer: &Layer,
    scale: u32,
    q: usize,
    m: usize,
    im: usize,
    tx: usize,
)
    ensures
        final(encoder)@ == old(encoder)@ + layer_cmds(layer@, scale, q, m, im, tx),
{
    render_quad_seg(encoder, layer, scale, q);
    render_mesh_seg(encoder, layer, scale, m);
    render_image_seg(encoder, layer, scale, im);
    render_text_seg(encoder, layer, scale, tx);
    render_custom_seg(encoder, layer, scale);
    proof {
        assert(encoder@ =~= old(encoder)@ + layer_cmds(layer@, scale, q, m, im, tx));
    }
}

/// The compositor backend: one preparer per primitive kind, the
/// custom-pipeline registry, the staging ring, and the loaded fonts.
#[derive(Debug)]
pub struct Backend {
    pub quad_pipeline: Pipeline,
    pub text_pipeline: Pipeline,
    pub triangle_pipeline: Pipeline,
    pub image_pipeline: Pipeline,
    pub pipeline_storage: Storage,
    pub staging_ring: StagingRing,
    pub fonts: Vec<Vec<u8>>,
}

impl Backend {
    /// Ready to record a frame: the ring is recording and every kind's
    /// layer-index counter is at zero.
    pub open spec fn frame_ready(&self) -> bool {
        &&& self.staging_ring.wf()
        &&& self.staging_ring@.state == RingState::Recording
        &&& self.quad_pipeline.prepared@.len() == 0
        &&& self.text_pipeline.prepared@.len() == 0
        &&& self.triangle_pipeline.prepared@.len() == 0
        &&& self.image_pipeline.prepared@.len() == 0
    }

    /// Creates a backend with an empty registry and a staging ring of
    /// the default capacity.
    pub fn new() -> (r: Backend)
        ensures
            r.frame_ready(),
            r.staging_ring@.bytes == Seq::<u8>::empty(),
            r.staging_ring@.capacity == STAGING_CAPACITY,
            r.pipeline_storage@ == Map::<u64, Seq<u8>>::empty(),
            r.fonts@ == Seq::<Vec<u8>>::empty(),
    {
        let r = Backend {
            quad_pipeline: Pipeline::new(),
            text_pipeline: Pipeline::new(),
            triangle_pipeline: Pipeline::new(),
            image_pipeline: Pipeline::new(),
            pipeline_storage: Storage::new(),
            staging_ring: StagingRing::new(STAGING_CAPACITY),
            fonts: Vec::new(),
        };
        proof {
            assert(r.fonts@ =~= Seq::<Vec<u8>>::empty());
        }
        r
    }

    /// Registers font bytes for text shaping, independent of any frame.
    pub fn load_font(&mut self, font: Vec<u8>)
        ensures
            final(self).fonts@ == old(self).fonts@.push(font),
            final(self).quad_pipeline == old(self).quad_pipeline,
            final(self).text_pipeline == old(self).text_pipeline,
            final(self).triangle_pipeline == old(self).triangle_pipeline,
            final(self).image_pipeline == old(self).image_pipeline,
            final(self).pipeline_storage == old(self).pipeline_storage,
            final(self).staging_ring == old(self).staging_ring,
    {
        self.fonts.push(font);
    }

    /// Stages every visible layer's data: for each layer surviving the
    /// tiny-layer cull, each non-empty kind serializes its batch into
    /// the ring, in the fixed kind order, and each custom invocation
    /// stores its state in the registry.
    #[verifier::loop_isolation(false)]
    #[verifier::rlimit(60)]
    fn prepare(&mut self, layers: &Vec<Layer>, viewport: &Viewport)
        requires
            old(self).staging_ring.wf(),
            old(self).staging_ring@.state == RingState::Recording,
        ensures
            final(self).staging_ring.wf(),
            final(self).staging_ring@.state == RingState::Recording,
            final(self).staging_ring@.capacity >= old(self).staging_ring@.capacity,
            final(self).staging_ring@.bytes == old(self).staging_ring@.bytes + prep(
                layer_views(layers@),
                viewport.scale_hundredths,
                old(self).staging_ring@.bytes.len() as int,
            ).bytes,
            final(self).quad_pipeline.prepared@ == old(self).quad_pipeline.prepared@ + prep(
                layer_views(layers@),
                viewport.scale_hundredths,
                old(self).staging_ring@.bytes.len() as int,
            ).quads,
            final(self).triangle_pipeline.prepared@ == old(self).triangle_pipeline.prepared@
                + prep(
                layer_views(layers@),
                viewport.scale_hundredths,
                old(self).staging_ring@.bytes.len() as int,
            ).meshes,
            final(self).image_pipeline.prepared@ == old(self).image_pipeline.prepared@ + prep(
                layer_views(layers@),
                viewport.scale_hundredths,
                old(self).staging_ring@.bytes.len() as int,
            ).images,
            final(self).text_pipeline.prepared@ == old(self).text_pipeline.prepared@ + prep(
                layer_views(layers@),
                viewport.scale_hundredths,
                old(self).staging_ring@.bytes.len() as int,
            ).texts,
            final(self).pipeline_storage@ == stored_after(
                layer_views(layers@),
                viewport.scale_hundredths,
                old(self).pipeline_storage@,
            ),
            final(self).fonts == old(self).fonts,
    {
        let scale = viewport.scale_hundredths;
        let ghost lsv = layer_views(layers@);
        let ghost base = old(self).staging_ring@.bytes.len() as int;
        let mut i: usize = 0;
        proof {
            assert(lsv.take(0) =~= Seq::<LayerView>::empty());
            assert(old(self).staging_ring@.bytes + prep(lsv.take(0), scale, base).bytes
                =~= old(self).staging_ring@.bytes);
            assert(old(self).quad_pipeline.prepared@ + prep(lsv.take(0), scale, base).quads
                =~= old(self).quad_pipeline.prepared@);
            assert(old(self).triangle_pipeline.prepared@ + prep(
                lsv.take(0),
                scale,
                base,
            ).meshes =~= old(self).triangle_pipeline.prepared@);
            assert(old(self).image_pipeline.prepared@ + prep(lsv.take(0), scale, base).images
                =~= old(self).image_pipeline.prepared@);
            assert(old(self).text_pipeline.prepared@ + prep(lsv.take(0), scale, base).texts
                =~= old(self).text_pipeline.prepared@);
        }
        while i < layers.len()
            invariant
                i <= layers.len(),
                lsv == layer_views(layers@),
                base == old(self).staging_ring@.bytes.len() as int,
                self.staging_ring.wf(),
                self.staging_ring@.state == RingState::Recording,
                self.staging_ring@.capacity >= old(self).staging_ring@.capacity,
                self.staging_ring@.bytes == old(self).staging_ring@.bytes + prep(
                    lsv.take(i as int),
                    scale,
                    base,
                ).bytes,
                self.quad_pipeline.prepared@ == old(self).quad_pipeline.prepared@ + prep(
                    lsv.take(i as int),
                    scale,
                    base,
                ).quads,
                self.triangle_pipeline.prepared@ == old(self).triangle_pipeline.prepared@
                    + prep(lsv.take(i as int), scale, base).meshes,
                self.image_pipeline.prepared@ == old(self).image_pipeline.prepared@ + prep(
                    lsv.take(i as int),
                    scale,
                    base,
                ).images,
                self.text_pipeline.prepared@ == old(self).text_pipeline.prepared@ + prep(
                    lsv.take(i as int),
                    scale,
                    base,
                ).texts,
                self.pipeline_storage@ == stored_after(
                    lsv.take(i as int),
                    scale,
                    old(self).pipeline_storage@,
                ),
                self.fonts == old(self).fonts,
            decreases layers.len() - i,
        {
            let layer = &layers[i];
            proof {
                assert(lsv[i as int] == layers@[i as int]@);
                assert(lsv.take(i + 1 as int).drop_last() =~= lsv.take(i as int));
                assert(lsv.take(i + 1 as int).last() == lsv[i as int]);
            }
            let ghost p0 = prep(lsv.take(i as int), scale, base);
            if layer.bounds.is_visible(scale) {
                if layer.quads.len() > 0 {
                    let bytes = encode_quads(&layer.quads);
                    self.quad_pipeline.stage(&mut self.staging_ring, &bytes, layer.quads.len());
                }
                if layer.meshes.len() > 0 {
                    let bytes = encode_meshes(&layer.meshes);
                    self.triangle_pipeline.stage(
                        &mut self.staging_ring,
                        &bytes,
                        layer.meshes.len(),
                    );
                }
                if layer.images.len() > 0 {
                    let bytes = encode_images(&layer.images);
                    self.image_pipeline.stage(
                        &mut self.staging_ring,
                        &bytes,
                        layer.images.len(),
                    );
                }
                if layer.text.len() > 0 {
                    let bytes = encode_texts(&layer.text);
                    self.text_pipeline.stage(&mut self.staging_ring, &bytes, layer.text.len());
                }
                let ghost m0 = self.pipeline_storage@;
                let ghost cs = lsv[i as int].pipelines;
                let ghost snap = *self;
                let mut j: usize = 0;
                proof {
                    assert(cs.take(0) =~= Seq::<CustomView>::empty());
                }
                while j < layer.pipelines.len()
                    invariant
                        j <= layer.pipelines.len(),
                        self.staging_ring == snap.staging_ring,
                        self.quad_pipeline == snap.quad_pipeline,
                        self.text_pipeline == snap.text_pipeline,
                        self.triangle_pipeline == snap.triangle_pipeline,
                        self.image_pipeline == snap.image_pipeline,
                        self.fonts == snap.fonts,
                        cs == layer_views(layers@)[i as int].pipelines,
                        i < layers@.len(),
                        cs.len() == layer.pipelines@.len(),
                        forall|k: int| 0 <= k < cs.len() ==> cs[k] == layer.pipelines@[k]@,
                        self.pipeline_storage@ == store_customs(cs.take(j as int), m0),
                    decreases layer.pipelines.len() - j,
                {
                    let c = &layer.pipelines[j];
                    let payload = copy_bytes(&c.payload);
                    self.pipeline_storage.store(c.pipeline, payload);
                    proof {
                        assert(cs.take(j + 1 as int).drop_last() =~= cs.take(j as int));
                        assert(cs.take(j + 1 as int).last() == cs[j as int]);
                    }
                    j = j + 1;
                }
                proof {
                    assert(cs.take(layer.pipelines@.len() as int) =~= cs);
                    assert(prep(lsv.take(i + 1 as int), scale, base) =~= layer_prep(
                        p0,
                        lsv[i as int],
                        base,
                    ));
                }
            } else {
                proof {
                    assert(prep(lsv.take(i + 1 as int), scale, base) =~= p0);
                }
            }
            i = i + 1;
        }
        proof {
            assert(lsv.take(layers@.len() as int) =~= lsv);
        }
    }

    /// Emits the frame's draw commands in strict back-to-front order:
    /// one shared pass over the target, closed and reopened with load
    /// semantics around every mesh batch and every layer's custom
    /// invocations. Must run after the frame's `prepare`: each kind's
    /// prepared count matches the visible layers it will draw.
    #[verifier::loop_isolation(false)]
    #[verifier::rlimit(100)]
    fn render(
        &self,
        encoder: &mut Encoder,
        clear_color: Option<Color>,
        viewport: &Viewport,
        layers: &Vec<Layer>,
    )
        requires
            self.quad_pipeline.prepared@.len() == count_quad_layers(
                layer_views(layers@),
                viewport.scale_hundredths,
            ),
            self.triangle_pipeline.prepared@.len() == count_mesh_layers(
                layer_views(layers@),
                viewport.scale_hundredths,
            ),
            self.image_pipeline.prepared@.len() == count_image_layers(
                layer_views(layers@),
                viewport.scale_hundredths,
            ),
            self.text_pipeline.prepared@.len() == count_text_layers(
                layer_views(layers@),
                viewport.scale_hundredths,
            ),
        ensures
            final(encoder)@ == old(encoder)@ + frame_cmds(
                layer_views(layers@),
                clear_color,
                viewport.scale_hundredths,
            ),
    {
        let scale = viewport.scale_hundredths;
        let ghost lsv = layer_views(layers@);
        let load = match clear_color {
            Some(c) => PassLoad::Clear(c),
            None => PassLoad::Keep,
        };
        encoder.record(Command::BeginPass { load });
        let mut quad_layer: usize = 0;
        let mut triangle_layer: usize = 0;
        let mut image_layer: usize = 0;
        let mut text_layer: usize = 0;
        let mut i: usize = 0;
        proof {
            assert(lsv.skip(0) =~= lsv);
            assert(old(encoder)@ + frame_cmds(lsv, clear_color, scale) =~= encoder@
                + layers_cmds(lsv, scale, 0, 0, 0, 0) + seq![Command::EndPass]);
        }
        while i < layers.len()
            invariant
                i <= layers.len(),
                quad_layer <= i,
                triangle_layer <= i,
                image_layer <= i,
                text_layer <= i,
                old(encoder)@ + frame_cmds(lsv, clear_color, scale) == encoder@ + layers_cmds(
                    lsv.skip(i as int),
                    scale,
                    quad_layer,
                    triangle_layer,
                    image_layer,
                    text_layer,
                ) + seq![Command::EndPass],
            decreases layers.len() - i,
        {
            let layer = &layers[i];
            proof {
                assert(lsv[i as int] == layers@[i as int]@);
                assert(lsv.skip(i as int).first() == lsv[i as int]);
                assert(lsv.skip(i as int).drop_first() =~= lsv.skip(i + 1 as int));
            }
            let ghost q0 = quad_layer;
            let ghost m0 = triangle_layer;
            let ghost im0 = image_layer;
            let ghost tx0 = text_layer;
            let ghost e0 = encoder@;
            if layer.bounds.is_visible(scale) {
                render_layer(encoder, layer, scale, quad_layer, triangle_layer, image_layer,
                    text_layer);
                if layer.quads.len() > 0 {
                    quad_layer = quad_layer + 1;
                }
                if layer.meshes.len() > 0 {
                    triangle_layer = triangle_layer + 1;
                }
                if layer.images.len() > 0 {
                    image_layer = image_layer + 1;
                }
                if layer.text.len() > 0 {
                    text_layer = text_layer + 1;
                }
                proof {
                    assert(layers_cmds(lsv.skip(i as int), scale, q0, m0, im0, tx0)
                        == layer_cmds(lsv[i as int], scale, q0, m0, im0, tx0) + layers_cmds(
                        lsv.skip(i + 1 as int),
                        scale,
                        quad_layer,
                        triangle_layer,
                        image_layer,
                        text_layer,
                    ));
                    assert(old(encoder)@ + frame_cmds(lsv, clear_color, scale) =~= encoder@
                        + layers_cmds(
                        lsv.skip(i + 1 as int),
                        scale,
                        quad_layer,
                        triangle_layer,
                        image_layer,
                        text_layer,
                    ) + seq![Command::EndPass]);
                }
            } else {
                proof {
                    assert(layers_cmds(lsv.skip(i as int), scale, q0, m0, im0, tx0)
                        == layers_cmds(lsv.skip(i + 1 as int), scale, q0, m0, im0, tx0));
                }
            }
            i = i + 1;
        }
        proof {
            assert(lsv.skip(layers@.len() as int) =~= Seq::<LayerView>::empty());
        }
        encoder.record(Command::EndPass);
        proof {
            assert(encoder@ =~= old(encoder)@ + frame_cmds(lsv, clear_color, scale));
        }
    }

    /// Presents one frame: partitions the primitives into layers,
    /// appends the overlay layer for non-empty overlay text, stages
    /// every visible layer's data into the ring, seals the ring, and
    /// records the frame's commands into the encoder, in strict
    /// back-to-front order. Ends the frame on every pipeline kind, so
    /// every layer-index counter is back at zero, drawn or not.
    pub fn present(
        &mut self,
        encoder: &mut Encoder,
        clear_color: Option<Color>,
        viewport: &Viewport,
        primitives: &Vec<Primitive>,
        overlay_text: &Vec<String>,
    )
        requires
            old(self).frame_ready(),
        ensures
            final(encoder)@ == old(encoder)@ + frame_cmds(
                frame_layers(
                    primitive_views(primitives@),
                    line_views(overlay_text@),
                    *viewport,
                ),
                clear_color,
                viewport.scale_hundredths,
            ),
            final(self).staging_ring.wf(),
            final(self).staging_ring@.state == RingState::Finished,
            final(self).staging_ring@.capacity >= old(self).staging_ring@.capacity,
            final(self).staging_ring@.bytes == old(self).staging_ring@.bytes + prep(
                frame_layers(
                    primitive_views(primitives@),
                    line_views(overlay_text@),
                    *viewport,
                ),
                viewport.scale_hundredths,
                old(self).staging_ring@.bytes.len() as int,
            ).bytes,
            final(self).quad_pipeline.prepared@.len() == 0,
            final(self).text_pipeline.prepared@.len() == 0,
            final(self).triangle_pipeline.prepared@.len() == 0,
            final(self).image_pipeline.prepared@.len() == 0,
            final(self).pipeline_storage@ == stored_after(
                frame_layers(
                    primitive_views(primitives@),
                    line_views(overlay_text@),
                    *viewport,
                ),
                viewport.scale_hundredths,
                old(self).pipeline_storage@,
            ),
            final(self).fonts == old(self).fonts,
    {
        let ghost lsv = frame_layers(
            primitive_views(primitives@),
            line_views(overlay_text@),
            *viewport,
        );
        let mut layers = Layer::generate(primitives, viewport);
        if overlay_text.len() > 0 {
            let overlay = Layer::overlay(overlay_text, viewport);
            let ghost before = layers@;
            layers.push(overlay);
            proof {
                assert(layer_views(layers@) =~= layer_views(before).push(
                    overlay_spec(line_views(overlay_text@), viewport.spec_bounds()),
                ));
            }
        }
        proof {
            assert(layer_views(layers@) == lsv);
        }
        self.prepare(&layers, viewport);
        self.staging_ring.finish();
        proof {
            lemma_prep_counts(
                lsv,
                viewport.scale_hundredths,
                old(self).staging_ring@.bytes.len() as int,
            );
        }
        self.render(encoder, clear_color, viewport, &layers);
        self.quad_pipeline.end_frame();
        self.text_pipeline.end_frame();
        self.triangle_pipeline.end_frame();
        self.image_pipeline.end_frame();
    }

    /// Recalls staging memory for future uploads. Must be called only
    /// once the frame's submission is known to be consumed; the ring
    /// returns to full availability and the backend is ready for the
    /// next frame.
    pub fn recall(&mut self)
        requires
            old(self).staging_ring@.state == RingState::Finished,
        ensures
            final(self).staging_ring.wf(),
            final(self).staging_ring@.state == RingState::Recording,
            final(self).staging_ring@.bytes == Seq::<u8>::empty(),
            final(self).staging_ring@.capacity == old(self).staging_ring@.capacity,
            final(self).quad_pipeline == old(self).quad_pipeline,
            final(self).text_pipeline == old(self).text_pipeline,
            final(self).triangle_pipeline == old(self).triangle_pipeline,
            final(self).image_pipeline == old(self).image_pipeline,
            final(self).pipeline_storage == old(self).pipeline_storage,
            final(self).fonts == old(self).fonts,
    {
        self.staging_ring.recall();
    }
}

} // verus!
