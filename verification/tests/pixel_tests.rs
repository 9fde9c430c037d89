use rwm::pixels::{blend_pixel, blend_pixel_premul, clear_buffer, fill_rect, rgba_to_argb};
use rwm::render::{blit_argb_into, draw_glyph, GlyphImage, GlyphMode, PremulImage, Renderer, TextGlyph};

#[test]
fn rgba_becomes_argb() {
    assert_eq!(rgba_to_argb(0x1122_3344), 0x4411_2233);
    assert_eq!(rgba_to_argb(0xFF00_00FF), 0xFFFF_0000);
}

#[test]
fn blend_full_none_and_half() {
    assert_eq!(blend_pixel(0xFF00_0000, 0xFFFF_FFFF, 255), 0xFFFF_FFFF);
    assert_eq!(blend_pixel(0x0010_2030, 0xFFFF_FFFF, 0), 0xFF10_2030);
    assert_eq!(blend_pixel(0xFF00_0000, 0xFFFF_FFFF, 128), 0xFF80_8080);
    // A transparent text colour leaves the background.
    assert_eq!(blend_pixel(0xFF12_3456, 0x00FF_FFFF, 255), 0xFF12_3456);
}

#[test]
fn premultiplied_blend() {
    assert_eq!(blend_pixel_premul(0xFF00_0000, 10, 20, 30, 255), 0xFF0A_141E);
    assert_eq!(blend_pixel_premul(0xFFFF_FFFF, 0, 0, 0, 0), 0xFFFF_FFFF);
    // Half coverage keeps half the background.
    assert_eq!(blend_pixel_premul(0xFFFF_FFFF, 0, 0, 0, 128), 0xFF7F_7F7F);
}

#[test]
fn fill_is_clipped_to_the_buffer() {
    let mut px = vec![0u32; 12];
    fill_rect(&mut px, 4, 3, -1, 1, 3, 5, 7);
    let mut want = vec![0u32; 12];
    for i in [4usize, 5, 8, 9] {
        want[i] = 7;
    }
    assert_eq!(px, want);
    fill_rect(&mut px, 4, 3, 0, 0, 0, 3, 9);
    assert_eq!(px, want);
    clear_buffer(&mut px);
    assert_eq!(px, vec![0u32; 12]);
}

#[test]
fn argb_copy_is_clipped() {
    let src = vec![1u32, 2, 3, 4];
    let mut dst = vec![0u32; 12];
    blit_argb_into(&mut dst, 4, 3, &src, 2, 2, 3, 2);
    let mut want = vec![0u32; 12];
    want[11] = 1;
    assert_eq!(dst, want);
    let mut dst2 = vec![0u32; 12];
    blit_argb_into(&mut dst2, 4, 3, &src, 2, 2, -1, -1);
    let mut want2 = vec![0u32; 12];
    want2[0] = 4;
    assert_eq!(dst2, want2);
}

#[test]
fn renderer_needs_a_matching_buffer() {
    assert!(Renderer::new(vec![0u32; 6], 3, 2).is_some());
    assert!(Renderer::new(vec![0u32; 5], 3, 2).is_none());
    assert!(Renderer::new(vec![0u32; 0], 0, 2).is_none());
    assert!(Renderer::new(vec![0u32; 6], -3, -2).is_none());
}

#[test]
fn premultiplied_icon_is_laid_over() {
    let mut r = Renderer::new(vec![0xFFFF_FFFFu32; 3], 3, 1).unwrap();
    let icon = PremulImage { width: 2, height: 1, data: vec![10, 20, 30, 255, 0, 0, 0, 0] };
    r.blit_pixmap(&icon, 0, 0);
    assert_eq!(r.data().clone(), vec![0xFF0A_141E, 0xFFFF_FFFF, 0xFFFF_FFFF]);
    assert_eq!((r.width(), r.height()), (3, 1));
}

#[test]
fn renderer_fills_and_copies() {
    let mut r = Renderer::new(vec![0u32; 4], 2, 2).unwrap();
    r.fill_rect(1, 0, 5, 5, 3);
    assert_eq!(r.data().clone(), vec![0, 3, 0, 3]);
    r.blit_argb(&vec![8u32], 1, 1, 0, 1);
    assert_eq!(r.data().clone(), vec![0, 3, 8, 3]);
}

fn gray(width: i32, rows: i32, pitch: i32, buffer: Vec<u8>) -> GlyphImage {
    GlyphImage { width, rows, pitch, mode: GlyphMode::Gray, buffer }
}

#[test]
fn coverage_glyph_is_drawn() {
    let red = 0xFFFF_0000u32;
    let g = gray(2, 2, 2, vec![255, 0, 0, 255]);
    let mut px = vec![0u32; 20];
    draw_glyph(&mut px, 5, 4, (0, 0, 5, 4), &g, 1, 1, red, false);
    let mut want = vec![0u32; 20];
    want[6] = red;
    want[12] = red;
    assert_eq!(px, want);
}

#[test]
fn bold_glyph_is_drawn_twice() {
    let red = 0xFFFF_0000u32;
    let g = gray(2, 2, 2, vec![255, 0, 0, 255]);
    let mut px = vec![0u32; 20];
    draw_glyph(&mut px, 5, 4, (0, 0, 5, 4), &g, 1, 1, red, true);
    let mut want = vec![0u32; 20];
    for i in [6usize, 7, 12, 13] {
        want[i] = red;
    }
    assert_eq!(px, want);
}

#[test]
fn bottom_up_glyph_and_clipping() {
    let red = 0xFFFF_0000u32;
    let g = gray(2, 2, -2, vec![255, 0, 0, 255]);
    let mut px = vec![0u32; 20];
    draw_glyph(&mut px, 5, 4, (0, 0, 5, 4), &g, 1, 1, red, false);
    let mut want = vec![0u32; 20];
    want[7] = red;
    want[11] = red;
    assert_eq!(px, want);

    let g2 = gray(2, 2, 2, vec![255, 0, 0, 255]);
    let mut px2 = vec![0u32; 20];
    draw_glyph(&mut px2, 5, 4, (0, 0, 2, 4), &g2, 1, 1, red, false);
    let mut want2 = vec![0u32; 20];
    want2[6] = red;
    assert_eq!(px2, want2);
}

#[test]
fn colour_glyph_is_laid_over() {
    let g = GlyphImage { width: 1, rows: 1, pitch: 4, mode: GlyphMode::Bgra, buffer: vec![30, 20, 10, 255] };
    let mut px = vec![0xFF00_0000u32; 4];
    draw_glyph(&mut px, 2, 2, (0, 0, 2, 2), &g, 1, 0, 0xFFFF_FFFF, false);
    assert_eq!(px, vec![0xFF00_0000, 0xFF0A_141E, 0xFF00_0000, 0xFF00_0000]);
}

fn dot(advance: i32) -> Option<TextGlyph> {
    Some(TextGlyph { advance, left: 0, top: 2, image: gray(1, 1, 1, vec![255]) })
}

#[test]
fn text_stops_at_the_first_glyph_that_does_not_fit() {
    let white = 0xFFFF_FFFFu32;
    let mut r = Renderer::new(vec![0u32; 60], 10, 6).unwrap();
    let glyphs = vec![dot(4), None, dot(4), dot(1), dot(0)];
    r.render_text(&glyphs, 0, 0, 10, 5, white, Some((3, -1)), 1);
    let mut want = vec![0u32; 60];
    want[21] = white;
    want[25] = white;
    assert_eq!(r.data().clone(), want);
}

#[test]
fn text_without_metrics_or_area_draws_nothing() {
    let mut r = Renderer::new(vec![0u32; 60], 10, 6).unwrap();
    let glyphs = vec![dot(4)];
    r.render_text(&glyphs, 0, 0, 10, 5, 0xFFFF_FFFF, None, 1);
    r.render_text(&glyphs, 0, 0, 0, 5, 0xFFFF_FFFF, Some((3, -1)), 1);
    r.render_text(&Vec::new(), 0, 0, 10, 5, 0xFFFF_FFFF, Some((3, -1)), 1);
    assert_eq!(r.data().clone(), vec![0u32; 60]);
}
