//! Per-kind pipeline preparers and the custom-pipeline registry.
//!
//! A preparer serializes one layer's drawables of its kind into bytes,
//! carves them into the staging ring, and records the region as one
//! prepared layer; its prepared count is the per-kind layer index
//! numbering space used during rendering and reset by `end_frame`.

use vstd::prelude::*;
use vstd::string::StrSliceExecFns;
use crate::geometry::Color;
use crate::geometry::Rectangle;
use crate::primitive::Image;
use crate::primitive::Mesh;
use crate::primitive::MeshView;
use crate::primitive::Quad;
use crate::primitive::Text;
use crate::primitive::TextView;
use crate::primitive::Vertex;
use crate::ring::RingState;
use crate::ring::StagingRing;

verus! {

/// The little-endian bytes of a `u32`.
pub open spec fn u32_le(v: u32) -> Seq<u8> {
    seq![
        (v & 0xff) as u8,
        ((v >> 8) & 0xff) as u8,
        ((v >> 16) & 0xff) as u8,
        ((v >> 24) & 0xff) as u8,
    ]
}

/// The little-endian bytes of a `u64`.
pub open spec fn u64_le(v: u64) -> Seq<u8> {
    seq![
        (v & 0xff) as u8,
        ((v >> 8) & 0xff) as u8,
        ((v >> 16) & 0xff) as u8,
        ((v >> 24) & 0xff) as u8,
        ((v >> 32) & 0xff) as u8,
        ((v >> 40) & 0xff) as u8,
        ((v >> 48) & 0xff) as u8,
        ((v >> 56) & 0xff) as u8,
    ]
}

/// The staged bytes of a rectangle: its four sides, little endian.
pub open spec fn rect_bytes(r: Rectangle) -> Seq<u8> {
    u32_le(r.x) + u32_le(r.y) + u32_le(r.width) + u32_le(r.height)
}

/// The staged bytes of a color: one byte per channel.
pub open spec fn color_bytes(c: Color) -> Seq<u8> {
    seq![c.r, c.g, c.b, c.a]
}

/// The staged bytes of one quad.
pub open spec fn quad_bytes(q: Quad) -> Seq<u8> {
    rect_bytes(q.bounds) + color_bytes(q.color)
}

/// The staged bytes of a quad batch, in submission order.
pub open spec fn quads_bytes(qs: Seq<Quad>) -> Seq<u8>
    decreases qs.len(),
{
    if qs.len() == 0 {
        Seq::empty()
    } else {
        quads_bytes(qs.drop_last()) + quad_bytes(qs.last())
    }
}

/// The staged bytes of one mesh vertex.
pub open spec fn vertex_bytes(v: Vertex) -> Seq<u8> {
    u32_le(v.x) + u32_le(v.y) + color_bytes(v.color)
}

/// The staged bytes of a vertex buffer, in order.
pub open spec fn vertices_bytes(vs: Seq<Vertex>) -> Seq<u8>
    decreases vs.len(),
{
    if vs.len() == 0 {
        Seq::empty()
    } else {
        vertices_bytes(vs.drop_last()) + vertex_bytes(vs.last())
    }
}

/// The staged bytes of one mesh: its bounds, then its vertices.
pub open spec fn mesh_bytes(m: MeshView) -> Seq<u8> {
    rect_bytes(m.bounds) + vertices_bytes(m.vertices)
}

/// The staged bytes of a mesh batch, in submission order.
pub open spec fn meshes_bytes(ms: Seq<MeshView>) -> Seq<u8>
    decreases ms.len(),
{
    if ms.len() == 0 {
        Seq::empty()
    } else {
        meshes_bytes(ms.drop_last()) + mesh_bytes(ms.last())
    }
}

/// The staged bytes of one image draw: its bounds, then its handle.
pub open spec fn image_bytes(i: Image) -> Seq<u8> {
    rect_bytes(i.bounds) + u64_le(i.handle)
}

/// The staged bytes of an image batch, in submission order.
pub open spec fn images_bytes(is: Seq<Image>) -> Seq<u8>
    decreases is.len(),
{
    if is.len() == 0 {
        Seq::empty()
    } else {
        images_bytes(is.drop_last()) + image_bytes(is.last())
    }
}

/// The staged bytes of a character: its code point, little endian.
pub open spec fn char_bytes(c: char) -> Seq<u8> {
    u32_le(c as u32)
}

/// The staged bytes of a text run's characters, in order.
pub open spec fn chars_bytes(cs: Seq<char>) -> Seq<u8>
    decreases cs.len(),
{
    if cs.len() == 0 {
        Seq::empty()
    } else {
        chars_bytes(cs.drop_last()) + char_bytes(cs.last())
    }
}

/// The staged bytes of one text run: bounds, color, size, characters.
pub open spec fn text_bytes(t: TextView) -> Seq<u8> {
    rect_bytes(t.bounds) + color_bytes(t.color) + u32_le(t.size) + chars_bytes(t.content)
}

/// The staged bytes of a text batch, in submission order.
pub open spec fn texts_bytes(ts: Seq<TextView>) -> Seq<u8>
    decreases ts.len(),
{
    if ts.len() == 0 {
        Seq::empty()
    } else {
        texts_bytes(ts.drop_last()) + text_bytes(ts.last())
    }
}

/// Appends the little-endian bytes of `v`.
fn push_u32_le(buf: &mut Vec<u8>, v: u32)
    ensures
        final(buf)@ == old(buf)@ + u32_le(v),
{
    proof {
        assert(v & 0xff < 256 && (v >> 8) & 0xff < 256 && (v >> 16) & 0xff < 256 && (v
            >> 24) & 0xff < 256) by (bit_vector);
    }
    buf.push((v & 0xff) as u8);
    buf.push(((v >> 8) & 0xff) as u8);
    buf.push(((v >> 16) & 0xff) as u8);
    buf.push(((v >> 24) & 0xff) as u8);
    proof {
        assert(buf@ =~= old(buf)@ + u32_le(v));
    }
}

/// Appends the little-endian bytes of `v`.
fn push_u64_le(buf: &mut Vec<u8>, v: u64)
    ensures
        final(buf)@ == old(buf)@ + u64_le(v),
{
    proof {
        assert(v & 0xff < 256 && (v >> 8) & 0xff < 256 && (v >> 16) & 0xff < 256 && (v
            >> 24) & 0xff < 256 && (v >> 32) & 0xff < 256 && (v >> 40) & 0xff < 256 && (v
            >> 48) & 0xff < 256 && (v >> 56) & 0xff < 256) by (bit_vector);
    }
    buf.push((v & 0xff) as u8);
    buf.push(((v >> 8) & 0xff) as u8);
    buf.push(((v >> 16) & 0xff) as u8);
    buf.push(((v >> 24) & 0xff) as u8);
    buf.push(((v >> 32) & 0xff) as u8);
    buf.push(((v >> 40) & 0xff) as u8);
    buf.push(((v >> 48) & 0xff) as u8);
    buf.push(((v >> 56) & 0xff) as u8);
    proof {
        assert(buf@ =~= old(buf)@ + u64_le(v));
    }
}

/// Appends the staged bytes of a rectangle.
fn push_rect(buf: &mut Vec<u8>, r: &Rectangle)
    ensures
        final(buf)@ == old(buf)@ + rect_bytes(*r),
{
    push_u32_le(buf, r.x);
    push_u32_le(buf, r.y);
    push_u32_le(buf, r.width);
    push_u32_le(buf, r.height);
    proof {
        assert(buf@ =~= old(buf)@ + rect_bytes(*r));
    }
}

/// Appends the staged bytes of a color.
fn push_color(buf: &mut Vec<u8>, c: &Color)
    ensures
        final(buf)@ == old(buf)@ + color_bytes(*c),
{
    buf.push(c.r);
    buf.push(c.g);
    buf.push(c.b);
    buf.push(c.a);
    proof {
        assert(buf@ =~= old(buf)@ + color_bytes(*c));
    }
}

/// Serializes a quad batch in submission order.
pub fn encode_quads(qs: &Vec<Quad>) -> (r: Vec<u8>)
    ensures
        r@ == quads_bytes(qs@),
{
    let mut buf: Vec<u8> = Vec::new();
    let mut i: usize = 0;
    proof {
        assert(buf@ =~= quads_bytes(qs@.take(0)));
    }
    while i < qs.len()
        invariant
            i <= qs.len(),
            buf@ == quads_bytes(qs@.take(i as int)),
        decreases qs.len() - i,
    {
        let q = qs[i];
        push_rect(&mut buf, &q.bounds);
        push_color(&mut buf, &q.color);
        proof {
            assert(qs@.take(i + 1 as int).drop_last() =~= qs@.take(i as int));
            assert(qs@.take(i + 1 as int).last() == qs@[i as int]);
            assert(buf@ =~= quads_bytes(qs@.take(i + 1 as int)));
        }
        i = i + 1;
    }
    proof {
        assert(qs@.take(qs@.len() as int) =~= qs@);
    }
    buf
}

/// Serializes a mesh batch in submission order.
pub fn encode_meshes(ms: &Vec<Mesh>) -> (r: Vec<u8>)
    ensures
        r@ == meshes_bytes(ms@.map_values(|m: Mesh| m@)),
{
    let ghost msv = ms@.map_values(|m: Mesh| m@);
    let mut buf: Vec<u8> = Vec::new();
    let mut i: usize = 0;
    proof {
        assert(buf@ =~= meshes_bytes(msv.take(0)));
    }
    while i < ms.len()
        invariant
            i <= ms.len(),
            msv == ms@.map_values(|m: Mesh| m@),
            buf@ == meshes_bytes(msv.take(i as int)),
        decreases ms.len() - i,
    {
        let m = &ms[i];
        push_rect(&mut buf, &m.bounds);
        let ghost mid = buf@;
        let mut j: usize = 0;
        proof {
            assert(mid + vertices_bytes(m.vertices@.take(0)) =~= mid);
        }
        while j < m.vertices.len()
            invariant
                j <= m.vertices.len(),
                buf@ == mid + vertices_bytes(m.vertices@.take(j as int)),
            decreases m.vertices.len() - j,
        {
            let v = m.vertices[j];
            push_u32_le(&mut buf, v.x);
            push_u32_le(&mut buf, v.y);
            push_color(&mut buf, &v.color);
            proof {
                assert(m.vertices@.take(j + 1 as int).drop_last() =~= m.vertices@.take(
                    j as int,
                ));
                assert(m.vertices@.take(j + 1 as int).last() == m.vertices@[j as int]);
                assert(buf@ =~= mid + vertices_bytes(m.vertices@.take(j + 1 as int)));
            }
            j = j + 1;
        }
        proof {
            assert(m.vertices@.take(m.vertices@.len() as int) =~= m.vertices@);
            assert(msv.take(i + 1 as int).drop_last() =~= msv.take(i as int));
            assert(msv.take(i + 1 as int).last() == msv[i as int]);
            assert(msv[i as int] == ms@[i as int]@);
            assert(buf@ =~= meshes_bytes(msv.take(i + 1 as int)));
        }
        i = i + 1;
    }
    proof {
        assert(msv.take(msv.len() as int) =~= msv);
    }
    buf
}

/// Serializes an image batch in submission order.
pub fn encode_images(is: &Vec<Image>) -> (r: Vec<u8>)
    ensures
        r@ == images_bytes(is@),
{
    let mut buf: Vec<u8> = Vec::new();
    let mut i: usize = 0;
    proof {
        assert(buf@ =~= images_bytes(is@.take(0)));
    }
    while i < is.len()
        invariant
            i <= is.len(),
            buf@ == images_bytes(is@.take(i as int)),
        decreases is.len() - i,
    {
        let im = is[i];
        push_rect(&mut buf, &im.bounds);
        push_u64_le(&mut buf, im.handle);
        proof {
            assert(is@.take(i + 1 as int).drop_last() =~= is@.take(i as int));
            assert(is@.take(i + 1 as int).last() == is@[i as int]);
            assert(buf@ =~= images_bytes(is@.take(i + 1 as int)));
        }
        i = i + 1;
    }
    proof {
        assert(is@.take(is@.len() as int) =~= is@);
    }
    buf
}

/// Serializes a text batch in submission order.
pub fn encode_texts(ts: &Vec<Text>) -> (r: Vec<u8>)
    ensures
        r@ == texts_bytes(ts@.map_values(|t: Text| t@)),
{
    let ghost tsv = ts@.map_values(|t: Text| t@);
    let mut buf: Vec<u8> = Vec::new();
    let mut i: usize = 0;
    proof {
        assert(buf@ =~= texts_bytes(tsv.take(0)));
    }
    while i < ts.len()
        invariant
            i <= ts.len(),
            tsv == ts@.map_values(|t: Text| t@),
            buf@ == texts_bytes(tsv.take(i as int)),
        decreases ts.len() - i,
    {
        let t = &ts[i];
        push_rect(&mut buf, &t.bounds);
        push_color(&mut buf, &t.color);
        push_u32_le(&mut buf, t.size);
        let ghost mid = buf@;
        let s = t.content.as_str();
        let n = s.unicode_len();
        let mut j: usize = 0;
        proof {
            assert(mid + chars_bytes(s@.take(0)) =~= mid);
        }
        while j < n
            invariant
                j <= n,
                n == s@.len(),
                buf@ == mid + chars_bytes(s@.take(j as int)),
            decreases n - j,
        {
            let c = s.get_char(j);
            push_u32_le(&mut buf, c as u32);
            proof {
                assert(s@.take(j + 1 as int).drop_last() =~= s@.take(j as int));
                assert(s@.take(j + 1 as int).last() == s@[j as int]);
                assert(buf@ =~= mid + chars_bytes(s@.take(j + 1 as int)));
            }
            j = j + 1;
        }
        proof {
            assert(s@.take(s@.len() as int) =~= s@);
            assert(tsv.take(i + 1 as int).drop_last() =~= tsv.take(i as int));
            assert(tsv.take(i + 1 as int).last() == tsv[i as int]);
            assert(tsv[i as int] == ts@[i as int]@);
            assert(buf@ =~= texts_bytes(tsv.take(i + 1 as int)));
        }
        i = i + 1;
    }
    proof {
        assert(tsv.take(tsv.len() as int) =~= tsv);
    }
    buf
}

/// One prepared layer of a pipeline: the carved region holding its
/// staged bytes and how many items it draws.
#[derive(Clone, Copy, PartialEq, Eq, Structural, Debug)]
pub struct PreparedLayer {
    pub offset: usize,
    pub len: usize,
    pub count: usize,
}

/// One pipeline kind's per-frame state: the layers prepared so far, in
/// layer-index order. The prepared count is the kind's next layer index.
#[derive(Debug)]
pub struct Pipeline {
    pub prepared: Vec<PreparedLayer>,
}

impl Pipeline {
    /// A pipeline with no prepared layers.
    pub fn new() -> (r: Pipeline)
        ensures
            r.prepared@ == Seq::<PreparedLayer>::empty(),
    {
        let r = Pipeline { prepared: Vec::new() };
        proof {
            assert(r.prepared@ =~= Seq::<PreparedLayer>::empty());
        }
        r
    }

    /// The per-kind layer-index counter: how many layers of this kind
    /// were prepared this frame.
    pub fn layer_count(&self) -> (r: usize)
        ensures
            r == self.prepared@.len(),
    {
        self.prepared.len()
    }

    /// Stages one layer's serialized bytes into the ring and records the
    /// carved region as the next prepared layer of this kind.
    pub fn stage(&mut self, ring: &mut StagingRing, bytes: &Vec<u8>, count: usize)
        requires
            old(ring).wf(),
            old(ring)@.state == RingState::Recording,
        ensures
            final(ring).wf(),
            final(ring)@.state == RingState::Recording,
            final(ring)@.bytes == old(ring)@.bytes + bytes@,
            final(ring)@.capacity >= old(ring)@.capacity,
            old(ring)@.bytes.len() + bytes@.len() <= old(ring)@.capacity
                ==> final(ring)@.capacity == old(ring)@.capacity,
            final(self).prepared@ == old(self).prepared@.push(PreparedLayer {
                offset: old(ring)@.bytes.len() as usize,
                len: bytes@.len() as usize,
                count,
            }),
    {
        let offset = ring.carve(bytes);
        self.prepared.push(PreparedLayer { offset, len: bytes.len(), count });
    }

    /// Ends the frame for this kind: resets the layer-index counter to
    /// zero and drops the frame's prepared regions.
    pub fn end_frame(&mut self)
        ensures
            final(self).prepared@ == Seq::<PreparedLayer>::empty(),
    {
        self.prepared = Vec::new();
        proof {
            assert(self.prepared@ =~= Seq::<PreparedLayer>::empty());
        }
    }
}

/// The registry entries' accumulated mapping, later stores shadowing
/// earlier ones.
pub open spec fn entries_map(es: Seq<(u64, Vec<u8>)>) -> Map<u64, Seq<u8>>
    decreases es.len(),
{
    if es.len() == 0 {
        Map::empty()
    } else {
        entries_map(es.drop_last()).insert(es.last().0, es.last().1@)
    }
}

/// The custom-pipeline registry: per-pipeline persistent state, keyed by
/// pipeline identity, owned by the backend and surviving across frames.
#[derive(Debug)]
pub struct Storage {
    entries: Vec<(u64, Vec<u8>)>,
}

impl View for Storage {
    type V = Map<u64, Seq<u8>>;

    closed spec fn view(&self) -> Map<u64, Seq<u8>> {
        entries_map(self.entries@)
    }
}

/// No entry at or after `from` carries `key`.
pub open spec fn key_absent_from(es: Seq<(u64, Vec<u8>)>, key: u64, from: int) -> bool {
    forall|j: int| from <= j < es.len() ==> (#[trigger] es[j]).0 != key
}

proof fn lemma_entries_map_found(es: Seq<(u64, Vec<u8>)>, key: u64, i: int)
    requires
        0 <= i < es.len(),
        es[i].0 == key,
        key_absent_from(es, key, i + 1),
    ensures
        entries_map(es).contains_key(key),
        entries_map(es)[key] == es[i].1@,
    decreases es.len(),
{
    if i == es.len() - 1 {
        assert(es.last() == es[i]);
    } else {
        assert(es.last().0 != key);
        lemma_entries_map_found(es.drop_last(), key, i);
    }
}

proof fn lemma_entries_map_absent(es: Seq<(u64, Vec<u8>)>, key: u64)
    requires
        key_absent_from(es, key, 0),
    ensures
        !entries_map(es).contains_key(key),
    decreases es.len(),
{
    if es.len() > 0 {
        assert(es.last().0 != key);
        lemma_entries_map_absent(es.drop_last(), key);
    }
}

impl Storage {
    /// An empty registry.
    pub fn new() -> (r: Storage)
        ensures
            r@ == Map::<u64, Seq<u8>>::empty(),
    {
        Storage { entries: Vec::new() }
    }

    /// Stores a pipeline's state under its identity, replacing what that
    /// pipeline stored before and touching no other pipeline's entry.
    pub fn store(&mut self, key: u64, value: Vec<u8>)
        ensures
            final(self)@ == old(self)@.insert(key, value@),
    {
        let ghost v0 = value@;
        self.entries.push((key, value));
        proof {
            assert(self.entries@.drop_last() =~= old(self).entries@);
            assert(self.entries@.last() == (key, self.entries@.last().1));
            assert(self.entries@.last().1@ == v0);
        }
    }

    /// Looks a pipeline's state up by its identity.
    pub fn get(&self, key: u64) -> (r: Option<&Vec<u8>>)
        ensures
            match r {
                Some(v) => self@.contains_key(key) && v@ == self@[key],
                None => !self@.contains_key(key),
            },
    {
        let mut i: usize = self.entries.len();
        while i > 0
            invariant
                i <= self.entries.len(),
                key_absent_from(self.entries@, key, i as int),
            decreases i,
        {
            i = i - 1;
            if self.entries[i].0 == key {
                proof {
                    lemma_entries_map_found(self.entries@, key, i as int);
                }
                return Some(&self.entries[i].1);
            }
        }
        proof {
            lemma_entries_map_absent(self.entries@, key);
        }
        None
    }
}

} // verus!
