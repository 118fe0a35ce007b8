use compositor::Backend;
use compositor::Color;
use compositor::DrawKind;
use compositor::Command;
use compositor::Custom;
use compositor::Drawable;
use compositor::Encoder;
use compositor::Mesh;
use compositor::PassLoad;
use compositor::Primitive;
use compositor::Quad;
use compositor::Rectangle;
use compositor::Vertex;
use compositor::Viewport;

fn rect(x: u32, y: u32, width: u32, height: u32) -> Rectangle {
    Rectangle { x, y, width, height }
}

fn black() -> Color {
    Color { r: 0, g: 0, b: 0, a: 255 }
}

fn red() -> Color {
    Color { r: 255, g: 0, b: 0, a: 255 }
}

fn quad(x: u32, y: u32, w: u32, h: u32) -> Drawable {
    Drawable::Quad(Quad { bounds: rect(x, y, w, h), color: red() })
}

#[test]
fn empty_frame_records_no_draws_and_resets_counters() {
    let mut backend = Backend::new();
    let mut encoder = Encoder::new();
    let vp = Viewport::new(200, 200, 100);
    backend.present(&mut encoder, None, &vp, &Vec::new(), &Vec::new());
    assert_eq!(
        encoder.commands,
        vec![Command::BeginPass { load: PassLoad::Keep }, Command::EndPass]
    );
    assert_eq!(backend.quad_pipeline.layer_count(), 0);
    assert_eq!(backend.text_pipeline.layer_count(), 0);
    assert_eq!(backend.triangle_pipeline.layer_count(), 0);
    assert_eq!(backend.image_pipeline.layer_count(), 0);
    backend.recall();
    backend.present(&mut encoder, None, &vp, &Vec::new(), &Vec::new());
    assert_eq!(
        encoder.commands,
        vec![
            Command::BeginPass { load: PassLoad::Keep },
            Command::EndPass,
            Command::BeginPass { load: PassLoad::Keep },
            Command::EndPass,
        ]
    );
    assert_eq!(backend.quad_pipeline.layer_count(), 0);
}

#[test]
fn single_red_quad_end_to_end() {
    let mut backend = Backend::new();
    let mut encoder = Encoder::new();
    let vp = Viewport::new(200, 200, 100);
    let primitives = vec![Primitive::Draw(quad(0, 0, 100, 100))];
    backend.present(&mut encoder, Some(black()), &vp, &primitives, &Vec::new());
    assert_eq!(
        encoder.commands,
        vec![
            Command::BeginPass { load: PassLoad::Clear(black()) },
            Command::DrawQuads { layer: 0, bounds: rect(0, 0, 200, 200) },
            Command::EndPass,
        ]
    );
    assert_eq!(backend.quad_pipeline.layer_count(), 0);
    assert_eq!(backend.staging_ring.available(), 102400 - 20);
    assert_eq!(
        backend.staging_ring.read_back(0, 20),
        vec![0, 0, 0, 0, 0, 0, 0, 0, 100, 0, 0, 0, 100, 0, 0, 0, 255, 0, 0, 255]
    );
    backend.recall();
    assert_eq!(backend.staging_ring.available(), 102400);
    assert_eq!(backend.staging_ring.capacity(), 102400);
}

#[test]
fn mesh_layer_gets_its_own_pass_and_reopen_loads() {
    let mut backend = Backend::new();
    let mut encoder = Encoder::new();
    let vp = Viewport::new(200, 200, 100);
    let mesh = Mesh {
        bounds: rect(0, 0, 200, 200),
        vertices: vec![Vertex { x: 0, y: 0, color: red() }],
    };
    let primitives = vec![
        Primitive::Draw(quad(0, 0, 50, 50)),
        Primitive::Clip { bounds: rect(0, 0, 200, 200), content: vec![Drawable::Mesh(mesh)] },
        Primitive::Draw(quad(50, 50, 50, 50)),
    ];
    backend.present(&mut encoder, Some(black()), &vp, &primitives, &Vec::new());
    assert_eq!(
        encoder.commands,
        vec![
            Command::BeginPass { load: PassLoad::Clear(black()) },
            Command::DrawQuads { layer: 0, bounds: rect(0, 0, 200, 200) },
            Command::EndPass,
            Command::BeginMeshPass { layer: 0, bounds: rect(0, 0, 200, 200) },
            Command::Resolve,
            Command::EndPass,
            Command::BeginPass { load: PassLoad::Keep },
            Command::DrawQuads { layer: 1, bounds: rect(0, 0, 200, 200) },
            Command::EndPass,
        ]
    );
}

#[test]
fn culled_layer_does_not_shift_later_layer_indices() {
    let mut backend = Backend::new();
    let mut encoder = Encoder::new();
    let vp = Viewport::new(200, 200, 100);
    let primitives = vec![
        Primitive::Draw(quad(0, 0, 10, 10)),
        Primitive::Clip { bounds: rect(0, 0, 0, 10), content: vec![quad(0, 0, 5, 5)] },
        Primitive::Draw(quad(20, 20, 10, 10)),
    ];
    backend.present(&mut encoder, Some(black()), &vp, &primitives, &Vec::new());
    assert_eq!(
        encoder.commands,
        vec![
            Command::BeginPass { load: PassLoad::Clear(black()) },
            Command::DrawQuads { layer: 0, bounds: rect(0, 0, 200, 200) },
            Command::DrawQuads { layer: 1, bounds: rect(0, 0, 200, 200) },
            Command::EndPass,
        ]
    );
    assert_eq!(backend.staging_ring.available(), 102400 - 40);
}

#[test]
fn fractional_scale_culls_sub_pixel_layers() {
    let mut backend = Backend::new();
    let mut encoder = Encoder::new();
    let vp = Viewport::new(200, 200, 40);
    let primitives = vec![
        Primitive::Clip { bounds: rect(0, 0, 1, 10), content: vec![quad(0, 0, 1, 1)] },
        Primitive::Clip { bounds: rect(0, 0, 10, 10), content: vec![quad(0, 0, 2, 2)] },
    ];
    backend.present(&mut encoder, None, &vp, &primitives, &Vec::new());
    assert_eq!(
        encoder.commands,
        vec![
            Command::BeginPass { load: PassLoad::Keep },
            Command::DrawQuads { layer: 0, bounds: rect(0, 0, 4, 4) },
            Command::EndPass,
        ]
    );
}

#[test]
fn overlay_draws_after_every_primitive() {
    let mut backend = Backend::new();
    let mut encoder = Encoder::new();
    let vp = Viewport::new(200, 200, 100);
    let primitives = vec![
        Primitive::Draw(quad(0, 0, 10, 10)),
        Primitive::Clip { bounds: rect(0, 0, 200, 200), content: vec![quad(1, 1, 5, 5)] },
    ];
    let overlay = vec![String::from("dbg")];
    backend.present(&mut encoder, None, &vp, &primitives, &overlay);
    assert_eq!(
        encoder.commands,
        vec![
            Command::BeginPass { load: PassLoad::Keep },
            Command::DrawQuads { layer: 0, bounds: rect(0, 0, 200, 200) },
            Command::DrawQuads { layer: 1, bounds: rect(0, 0, 200, 200) },
            Command::DrawText { layer: 0, bounds: rect(0, 0, 200, 200) },
            Command::EndPass,
        ]
    );
}

#[test]
fn custom_pipeline_draws_outside_shared_pass_and_stores_state() {
    let mut backend = Backend::new();
    let mut encoder = Encoder::new();
    let vp = Viewport::new(200, 200, 100);
    let custom = Custom {
        pipeline: 7,
        bounds: rect(0, 0, 200, 200),
        viewport: rect(10, 10, 50, 50),
        payload: vec![1, 2, 3],
    };
    let tiny = Custom {
        pipeline: 8,
        bounds: rect(0, 0, 200, 200),
        viewport: rect(0, 0, 0, 5),
        payload: vec![9],
    };
    let primitives = vec![
        Primitive::Draw(Drawable::Custom(custom)),
        Primitive::Draw(Drawable::Custom(tiny)),
    ];
    backend.present(&mut encoder, None, &vp, &primitives, &Vec::new());
    assert_eq!(
        encoder.commands,
        vec![
            Command::BeginPass { load: PassLoad::Keep },
            Command::EndPass,
            Command::DrawCustom { pipeline: 7, viewport: rect(10, 10, 50, 50) },
            Command::BeginPass { load: PassLoad::Keep },
            Command::EndPass,
        ]
    );
    assert_eq!(backend.pipeline_storage.get(7), Some(&vec![1u8, 2, 3]));
    assert_eq!(backend.pipeline_storage.get(8), Some(&vec![9u8]));
    assert_eq!(backend.pipeline_storage.get(99), None);
}

#[test]
fn kind_order_is_the_fixed_constant() {
    assert_eq!(
        compositor::backend::kind_order(),
        vec![
            DrawKind::Quad,
            DrawKind::Mesh,
            DrawKind::Image,
            DrawKind::Text,
            DrawKind::Custom,
        ]
    );
}

#[test]
fn load_font_keeps_bytes() {
    let mut backend = Backend::new();
    backend.load_font(vec![0, 1, 0, 0]);
    backend.load_font(vec![0xde, 0xad]);
    assert_eq!(backend.fonts.len(), 2);
    assert_eq!(backend.fonts[1], vec![0xde, 0xad]);
}
