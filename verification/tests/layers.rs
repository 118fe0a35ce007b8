use compositor::Color;
use compositor::Drawable;
use compositor::Image;
use compositor::Layer;
use compositor::Mesh;
use compositor::Primitive;
use compositor::Quad;
use compositor::Rectangle;
use compositor::Text;
use compositor::Vertex;
use compositor::Viewport;

fn rect(x: u32, y: u32, width: u32, height: u32) -> Rectangle {
    Rectangle { x, y, width, height }
}

fn red() -> Color {
    Color { r: 255, g: 0, b: 0, a: 255 }
}

fn quad(x: u32, y: u32, w: u32, h: u32) -> Drawable {
    Drawable::Quad(Quad { bounds: rect(x, y, w, h), color: red() })
}

#[test]
fn generate_empty_list_yields_no_layers() {
    let vp = Viewport::new(200, 200, 100);
    let layers = Layer::generate(&Vec::new(), &vp);
    assert_eq!(layers.len(), 0);
}

#[test]
fn generate_flat_drawables_share_one_base_layer() {
    let vp = Viewport::new(200, 200, 100);
    let primitives = vec![
        Primitive::Draw(quad(0, 0, 10, 10)),
        Primitive::Draw(quad(20, 20, 10, 10)),
        Primitive::Draw(Drawable::Image(Image { bounds: rect(5, 5, 8, 8), handle: 42 })),
    ];
    let layers = Layer::generate(&primitives, &vp);
    assert_eq!(layers.len(), 1);
    assert_eq!(layers[0].bounds, rect(0, 0, 200, 200));
    assert_eq!(layers[0].quads.len(), 2);
    assert_eq!(layers[0].quads[0].bounds, rect(0, 0, 10, 10));
    assert_eq!(layers[0].quads[1].bounds, rect(20, 20, 10, 10));
    assert_eq!(layers[0].images.len(), 1);
    assert_eq!(layers[0].images[0].handle, 42);
}

#[test]
fn generate_clip_opens_its_own_layer_in_order() {
    let vp = Viewport::new(200, 200, 100);
    let mesh = Mesh {
        bounds: rect(0, 0, 200, 200),
        vertices: vec![Vertex { x: 1, y: 2, color: red() }],
    };
    let primitives = vec![
        Primitive::Draw(quad(0, 0, 10, 10)),
        Primitive::Clip { bounds: rect(10, 10, 50, 50), content: vec![Drawable::Mesh(mesh)] },
        Primitive::Draw(quad(30, 30, 10, 10)),
    ];
    let layers = Layer::generate(&primitives, &vp);
    assert_eq!(layers.len(), 3);
    assert_eq!(layers[0].quads.len(), 1);
    assert_eq!(layers[0].quads[0].bounds, rect(0, 0, 10, 10));
    assert_eq!(layers[1].meshes.len(), 1);
    assert_eq!(layers[1].bounds, rect(10, 10, 50, 50));
    assert_eq!(layers[2].quads.len(), 1);
    assert_eq!(layers[2].quads[0].bounds, rect(30, 30, 10, 10));
}

#[test]
fn generate_clip_bounds_are_clipped_to_viewport() {
    let vp = Viewport::new(100, 100, 100);
    let primitives = vec![Primitive::Clip {
        bounds: rect(60, 60, 80, 80),
        content: vec![quad(60, 60, 5, 5)],
    }];
    let layers = Layer::generate(&primitives, &vp);
    assert_eq!(layers.len(), 1);
    assert_eq!(layers[0].bounds, rect(60, 60, 40, 40));
}

#[test]
fn generate_keeps_submission_order_within_a_kind() {
    let vp = Viewport::new(300, 300, 100);
    let primitives = vec![
        Primitive::Draw(quad(1, 0, 5, 5)),
        Primitive::Clip { bounds: rect(0, 0, 300, 300), content: vec![quad(2, 0, 5, 5)] },
        Primitive::Draw(quad(3, 0, 5, 5)),
        Primitive::Draw(quad(4, 0, 5, 5)),
    ];
    let layers = Layer::generate(&primitives, &vp);
    let xs: Vec<u32> = layers
        .iter()
        .flat_map(|l| l.quads.iter().map(|q| q.bounds.x))
        .collect();
    assert_eq!(xs, vec![1, 2, 3, 4]);
}

#[test]
fn overlay_stacks_lines_top_to_bottom() {
    let vp = Viewport::new(400, 300, 100);
    let lines = vec![String::from("frame 1"), String::from("draws 7")];
    let overlay = Layer::overlay(&lines, &vp);
    assert_eq!(overlay.bounds, rect(0, 0, 400, 300));
    assert_eq!(overlay.text.len(), 2);
    assert_eq!(overlay.text[0].content, "frame 1");
    assert_eq!(overlay.text[0].bounds.y, 0);
    assert_eq!(overlay.text[1].content, "draws 7");
    assert_eq!(overlay.text[1].bounds.y, 20);
    assert_eq!(overlay.text[0].color, Color { r: 255, g: 255, b: 255, a: 255 });
    assert!(overlay.quads.is_empty());
    assert!(overlay.meshes.is_empty());
    assert!(overlay.pipelines.is_empty());
}

#[test]
fn layer_push_buckets_by_kind() {
    let mut layer = Layer::new(rect(0, 0, 10, 10));
    layer.push(quad(0, 0, 1, 1));
    layer.push(Drawable::Text(Text {
        bounds: rect(0, 0, 10, 10),
        color: red(),
        size: 16,
        content: String::from("hi"),
    }));
    layer.push(quad(1, 1, 1, 1));
    assert_eq!(layer.quads.len(), 2);
    assert_eq!(layer.text.len(), 1);
    assert_eq!(layer.meshes.len(), 0);
}
