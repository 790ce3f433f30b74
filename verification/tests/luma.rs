use imgclr::color::Color;
use imgclr::engine::Buffer;
use imgclr::luma::swap_luma;

fn gray(v: u8) -> Color {
    Color::new(v, v, v)
}

#[test]
fn swap_luma_flips_black_and_white() {
    let mut buf = Buffer::from_pixels(2, 1, vec![gray(0), gray(255)]).unwrap();
    swap_luma(&mut buf);
    assert_eq!(buf.get(0, 0), gray(255));
    assert_eq!(buf.get(1, 0), gray(0));
}

#[test]
fn swap_luma_is_an_involution_on_the_doc_example() {
    // the colour library documents #009900 <-> #66FF66
    let dark_green = Color::new(0x00, 0x99, 0x00);
    let light_green = Color::new(0x66, 0xFF, 0x66);
    let mut buf = Buffer::from_pixels(1, 1, vec![dark_green]).unwrap();
    swap_luma(&mut buf);
    assert_eq!(buf.get(0, 0), light_green);
    swap_luma(&mut buf);
    assert_eq!(buf.get(0, 0), dark_green);
}

#[test]
fn swap_luma_keeps_dimensions() {
    let mut buf = Buffer::from_pixels(3, 2, vec![gray(10); 6]).unwrap();
    swap_luma(&mut buf);
    assert_eq!(buf.width(), 3);
    assert_eq!(buf.height(), 2);
    assert_eq!(buf.cell_count(), 6);
}
