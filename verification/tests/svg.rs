use resvg::tiny_skia::{Pixmap, Transform};
use resvg::usvg::{Options, Tree};
use riv::image::{DecodeError, DecodedImage};
use riv::svg::{
    decode_svg, drawn_image, parse_svg_tree, probe_svg_weight, swap_red_and_blue,
};

fn parsed(svg: &[u8]) -> Result<Tree, DecodeError> {
    parse_svg_tree(Tree::from_data(svg, &Options::default()).map_err(|error| error.to_string()))
}

/// Renders at the given long side.
fn decoded(svg: &[u8], target: f32) -> DecodedImage {
    let tree = parsed(svg).ok().expect("drawing");
    let scale = target / tree.size().width().max(tree.size().height());
    let width = (tree.size().width() * scale).round().max(1.0) as u32;
    let height = (tree.size().height() * scale).round().max(1.0) as u32;
    let mut pixmap = Pixmap::new(width, height).expect("raster");
    resvg::render(&tree, Transform::from_scale(scale, scale), &mut pixmap.as_mut());
    decode_svg(Some((width, height)), Some(pixmap.take()), "SVG")
        .ok()
        .expect("decode failed")
}

#[test]
fn svg_pixels_come_out_premultiplied_bgra() {
    let svg = br##"<svg xmlns="http://www.w3.org/2000/svg" width="4" height="4"><rect width="4" height="4" fill="#FF8000" fill-opacity="1.0"/></svg>"##;
    let decoded = decoded(svg, 64.0);
    let pixel = &decoded.frames[0].pixels[..4];
    assert_eq!(pixel, [0x00, 0x80, 0xFF, 0xFF], "expected BGRA order");
}

#[test]
fn a_drawing_fills_its_raster() {
    let svg = br##"<svg xmlns="http://www.w3.org/2000/svg" width="4" height="2"><rect width="4" height="2" fill="#0000FF"/></svg>"##;
    let decoded = decoded(svg, 16.0);
    assert_eq!((decoded.width, decoded.height), (16, 8));
    assert_eq!(decoded.frames[0].pixels.len(), 16 * 8 * 4);
    assert_eq!(&decoded.frames[0].pixels[16 * 8 * 4 - 4..], [0xFF, 0, 0, 0xFF]);
    assert_eq!(decoded.format_name, "SVG");
}

#[test]
fn a_drawing_without_a_size_is_refused() {
    let error = decode_svg(None, None, "SVG").err().expect("refused");
    assert_eq!(error.message, "SVG has no intrinsic size");
    assert_eq!(error.code, 0);
    let error = decode_svg(Some((0, 4)), None, "SVG").err().expect("refused");
    assert_eq!(error.message, "SVG raster target allocation failed");
    assert_eq!(probe_svg_weight(None), None);
    assert_eq!(probe_svg_weight(Some((16, 8))), Some(16 * 8 * 4));
}

#[test]
fn a_refused_drawing_keeps_its_reason() {
    let error = parsed(&[0xFF, 0xFE, 0x00]).err().expect("refused");
    assert_eq!(error.message, "provided data has not an UTF-8 encoding");
    assert_eq!(error.code, 0);
    assert!(parsed(b"plain text").is_err());
    let flat = br##"<svg xmlns="http://www.w3.org/2000/svg" width="0" height="4"/>"##;
    let error = parsed(flat).err().expect("refused");
    assert_eq!(error.message, "SVG has an invalid size");
    assert_eq!(parse_svg_tree(Ok(7u8)).ok(), Some(7));
}

#[test]
fn swapping_twice_restores_the_raster() {
    let mut pixels = vec![1, 2, 3, 4, 5, 6, 7, 8, 9];
    swap_red_and_blue(&mut pixels);
    assert_eq!(pixels, [3, 2, 1, 4, 7, 6, 5, 8, 9]);
    swap_red_and_blue(&mut pixels);
    assert_eq!(pixels, [1, 2, 3, 4, 5, 6, 7, 8, 9]);
    let image = drawn_image(1, 1, vec![10, 20, 30, 40], "SVG");
    assert_eq!(image.frames[0].pixels, [30, 20, 10, 40]);
}
