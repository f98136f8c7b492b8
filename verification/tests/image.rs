use wlclient::image::{load_image, premultiply_argb, ImageError};

fn encode_rgba(width: u32, height: u32, pixels: &[u8]) -> Vec<u8> {
    let mut out = Vec::new();
    {
        let mut encoder = png::Encoder::new(&mut out, width, height);
        encoder.set_color(png::ColorType::Rgba);
        encoder.set_depth(png::BitDepth::Eight);
        let mut writer = encoder.write_header().unwrap();
        writer.write_image_data(pixels).unwrap();
        writer.finish().unwrap();
    }
    out
}

#[test]
fn premultiply_scales_and_swaps_channels() {
    let mut px = vec![200u8, 100, 50, 128, 255, 255, 255, 255, 10, 20, 30, 0];
    premultiply_argb(&mut px);
    assert_eq!(px, vec![25, 50, 100, 128, 254, 254, 254, 255, 0, 0, 0, 0]);
}

#[test]
fn premultiply_of_nothing_is_nothing() {
    let mut px: Vec<u8> = Vec::new();
    premultiply_argb(&mut px);
    assert!(px.is_empty());
}

#[test]
fn premultiplied_channels_never_exceed_alpha() {
    let mut px = Vec::new();
    for c in [0u8, 1, 127, 128, 200, 255] {
        for a in [0u8, 1, 64, 255] {
            px.extend_from_slice(&[c, 255 - c, c / 2, a]);
        }
    }
    let before = px.clone();
    premultiply_argb(&mut px);
    for (out, src) in px.chunks(4).zip(before.chunks(4)) {
        assert_eq!(out[3], src[3]);
        assert!(out[0] <= out[3] && out[1] <= out[3] && out[2] <= out[3]);
    }
}

#[test]
fn load_image_decodes_and_premultiplies() {
    let data = encode_rgba(2, 1, &[200, 100, 50, 128, 0, 0, 255, 255]);
    let (w, h, px) = load_image(&data).unwrap();
    assert_eq!((w, h), (2, 1));
    assert_eq!(px, vec![25, 50, 100, 128, 254, 0, 0, 255]);
}

#[test]
fn load_image_refuses_what_is_no_png() {
    assert_eq!(load_image(b"not a png").unwrap_err(), ImageError::Undecodable);
    assert_eq!(load_image(&[]).unwrap_err(), ImageError::Undecodable);
}

#[test]
fn load_image_refuses_truncated_pixel_data() {
    let data = encode_rgba(4, 4, &[7u8; 64]);
    let cut = &data[..data.len() - 20];
    assert_eq!(load_image(cut).unwrap_err(), ImageError::Undecodable);
}
