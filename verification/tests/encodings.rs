use compositor::Color;
use compositor::Image;
use compositor::Mesh;
use compositor::Quad;
use compositor::Rectangle;
use compositor::Text;
use compositor::Vertex;
use compositor::pipeline::encode_images;
use compositor::pipeline::encode_meshes;
use compositor::pipeline::encode_quads;
use compositor::pipeline::encode_texts;

fn rect(x: u32, y: u32, width: u32, height: u32) -> Rectangle {
    Rectangle { x, y, width, height }
}

#[test]
fn quad_encoding_is_little_endian_bounds_then_color() {
    let quads = vec![Quad {
        bounds: rect(1, 2, 3, 0x01020304),
        color: Color { r: 5, g: 6, b: 7, a: 8 },
    }];
    let bytes = encode_quads(&quads);
    assert_eq!(
        bytes,
        vec![1, 0, 0, 0, 2, 0, 0, 0, 3, 0, 0, 0, 4, 3, 2, 1, 5, 6, 7, 8]
    );
}

#[test]
fn quad_batch_concatenates_in_order() {
    let quads = vec![
        Quad { bounds: rect(1, 0, 0, 0), color: Color { r: 0, g: 0, b: 0, a: 0 } },
        Quad { bounds: rect(2, 0, 0, 0), color: Color { r: 0, g: 0, b: 0, a: 0 } },
    ];
    let bytes = encode_quads(&quads);
    assert_eq!(bytes.len(), 40);
    assert_eq!(bytes[0], 1);
    assert_eq!(bytes[20], 2);
}

#[test]
fn mesh_encoding_holds_bounds_then_vertices() {
    let meshes = vec![Mesh {
        bounds: rect(0, 0, 1, 1),
        vertices: vec![
            Vertex { x: 9, y: 10, color: Color { r: 1, g: 2, b: 3, a: 4 } },
        ],
    }];
    let bytes = encode_meshes(&meshes);
    assert_eq!(
        bytes,
        vec![0, 0, 0, 0, 0, 0, 0, 0, 1, 0, 0, 0, 1, 0, 0, 0, 9, 0, 0, 0, 10, 0, 0, 0, 1, 2, 3, 4]
    );
}

#[test]
fn image_encoding_holds_bounds_then_handle() {
    let images = vec![Image { bounds: rect(0, 0, 2, 2), handle: 0x0102030405060708 }];
    let bytes = encode_images(&images);
    assert_eq!(
        bytes,
        vec![0, 0, 0, 0, 0, 0, 0, 0, 2, 0, 0, 0, 2, 0, 0, 0, 8, 7, 6, 5, 4, 3, 2, 1]
    );
}

#[test]
fn text_encoding_holds_code_points() {
    let texts = vec![Text {
        bounds: rect(0, 0, 4, 4),
        color: Color { r: 9, g: 9, b: 9, a: 9 },
        size: 16,
        content: String::from("AB"),
    }];
    let bytes = encode_texts(&texts);
    assert_eq!(
        bytes,
        vec![
            0, 0, 0, 0, 0, 0, 0, 0, 4, 0, 0, 0, 4, 0, 0, 0, 9, 9, 9, 9, 16, 0, 0, 0, 65, 0,
            0, 0, 66, 0, 0, 0,
        ]
    );
}

#[test]
fn empty_batches_encode_to_nothing() {
    assert_eq!(encode_quads(&Vec::new()).len(), 0);
    assert_eq!(encode_meshes(&Vec::new()).len(), 0);
    assert_eq!(encode_images(&Vec::new()).len(), 0);
    assert_eq!(encode_texts(&Vec::new()).len(), 0);
}
