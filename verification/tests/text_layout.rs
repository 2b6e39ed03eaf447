use magellanicus::color::ColorRgba;
use magellanicus::error::Error;
use magellanicus::fixed::FRAC_ONE;
use magellanicus::font::{
    blend_pixel, AddFontParameter, AddFontParameterCharacter, Font, FontDrawRequest, Pixel,
    TextAlignment,
};
use magellanicus::parameters::Resolution;

fn glyph(character: char, advance_x: i32) -> AddFontParameterCharacter {
    AddFontParameterCharacter { character, data: vec![255], width: 1, height: 1, advance_x }
}

/// A font of 1x1 fully covered glyphs with uniform advance 5 and line
/// height 7.
fn test_font() -> Font {
    let parameter = AddFontParameter {
        characters: vec![
            glyph('A', 5),
            glyph('B', 5),
            glyph('C', 5),
            glyph('^', 5),
            glyph('|', 5),
        ],
        line_height: 7,
    };
    assert!(parameter.validate().is_ok());
    Font::load_from_parameters(parameter)
}

fn white() -> ColorRgba {
    ColorRgba { r: FRAC_ONE, g: FRAC_ONE, b: FRAC_ONE, a: FRAC_ONE }
}

fn request(alignment: TextAlignment) -> FontDrawRequest {
    FontDrawRequest {
        alignment,
        color: white(),
        resolution: Resolution { width: 640, height: 480 },
        tab_offsets: [0; 8],
    }
}

#[test]
fn newline_layout_positions() {
    // "AB\nC" with uniform advance 5 and line height 7 must place
    // A at (0,0), B at (5,0) and C at (0,7).
    let font = test_font();
    let mut draws = Vec::new();
    font.generate_string_draws("AB\nC", request(TextAlignment::Left), &mut draws);
    assert_eq!(draws.len(), 3);
    assert_eq!((draws[0].character, draws[0].x, draws[0].y), ('A', 0, 0));
    assert_eq!((draws[1].character, draws[1].x, draws[1].y), ('B', 5, 0));
    assert_eq!((draws[2].character, draws[2].x, draws[2].y), ('C', 0, 7));
    assert!(draws[2].alignment_changed);
}

#[test]
fn color_code_recolors_following_glyphs() {
    // "^1A" yields glyph A in red; the base alpha is preserved.
    let font = test_font();
    let mut draws = Vec::new();
    font.generate_string_draws("^1A", request(TextAlignment::Left), &mut draws);
    assert_eq!(draws.len(), 1);
    assert_eq!(draws[0].character, 'A');
    assert_eq!(
        (draws[0].color.r, draws[0].color.g, draws[0].color.b, draws[0].color.a),
        (FRAC_ONE, 0, 0, FRAC_ONE)
    );
}

#[test]
fn doubled_marker_emits_literal_glyph() {
    // "^^A" yields a literal caret and then A, both unmodified.
    let font = test_font();
    let mut draws = Vec::new();
    font.generate_string_draws("^^A", request(TextAlignment::Left), &mut draws);
    assert_eq!(draws.len(), 2);
    assert_eq!(draws[0].character, '^');
    assert_eq!(draws[0].color, white());
    assert_eq!(draws[1].character, 'A');
    assert_eq!(draws[1].color, white());
}

#[test]
fn color_reset_returns_to_original() {
    let font = test_font();
    let mut draws = Vec::new();
    font.generate_string_draws("^1A^xB", request(TextAlignment::Left), &mut draws);
    assert_eq!(draws.len(), 2);
    assert_eq!(draws[0].color.r, FRAC_ONE);
    assert_eq!(draws[0].color.g, 0);
    assert_eq!(draws[1].color, white());
}

#[test]
fn doubled_pipe_emits_literal_glyph() {
    let font = test_font();
    let mut draws = Vec::new();
    font.generate_string_draws("||A", request(TextAlignment::Left), &mut draws);
    assert_eq!(draws.len(), 2);
    assert_eq!(draws[0].character, '|');
    assert_eq!(draws[1].character, 'A');
}

#[test]
fn right_alignment_ends_at_surface_edge() {
    // Two glyphs of advance 5 on a 640-wide surface start at 630.
    let font = test_font();
    let mut draws = Vec::new();
    font.generate_string_draws("AB", request(TextAlignment::Right), &mut draws);
    assert_eq!(draws[0].x, 630);
    assert_eq!(draws[1].x, 635);
}

#[test]
fn center_alignment_adds_half_back() {
    let font = test_font();
    let mut draws = Vec::new();
    font.generate_string_draws("AB", request(TextAlignment::Center), &mut draws);
    assert_eq!(draws[0].x, 635);
}

#[test]
fn newline_directive_and_alignment_directives() {
    // |n forces a newline; |r right-aligns the line that follows it.
    let font = test_font();
    let mut draws = Vec::new();
    font.generate_string_draws("A|nB", request(TextAlignment::Left), &mut draws);
    assert_eq!(draws.len(), 2);
    assert_eq!((draws[0].x, draws[0].y), (0, 0));
    assert_eq!((draws[1].x, draws[1].y), (0, 7));
    let mut aligned = Vec::new();
    font.generate_string_draws("|rA", request(TextAlignment::Left), &mut aligned);
    assert_eq!(aligned.len(), 1);
    assert_eq!(aligned[0].x, 635);
}

#[test]
fn unknown_characters_and_directives_are_skipped() {
    let font = test_font();
    let mut draws = Vec::new();
    font.generate_string_draws("AzB|qC", request(TextAlignment::Left), &mut draws);
    let chars: Vec<char> = draws.iter().map(|d| d.character).collect();
    assert_eq!(chars, vec!['A', 'B', 'C']);
}

#[test]
fn font_validation_rules() {
    let mismatched = AddFontParameterCharacter {
        character: 'A',
        data: vec![0, 0],
        width: 3,
        height: 1,
        advance_x: 1,
    };
    assert_eq!(mismatched.validate(), Err(Error::Validation));
    let duplicated = AddFontParameter {
        characters: vec![glyph('A', 1), glyph('A', 2)],
        line_height: 1,
    };
    assert_eq!(duplicated.validate(), Err(Error::Validation));
}

#[test]
fn blend_pixel_composites_exactly() {
    let dest = Pixel { r: 0, g: 0, b: 0, a: 0 };
    // Full coverage at full alpha paints the color outright.
    let painted = blend_pixel(dest, white(), 255);
    assert_eq!(painted, Pixel { r: 255, g: 255, b: 255, a: 255 });
    // Zero coverage leaves the destination untouched.
    assert_eq!(blend_pixel(dest, white(), 0), dest);
    // Half alpha interpolates half way.
    let half = ColorRgba { r: FRAC_ONE, g: 0, b: 0, a: FRAC_ONE / 2 };
    let mixed = blend_pixel(Pixel { r: 0, g: 0, b: 0, a: 255 }, half, 255);
    assert_eq!(mixed.r, 127);
    assert_eq!(mixed.g, 0);
}

#[test]
fn rasterized_text_draws_shadow_then_glyph() {
    let font = test_font();
    let req = FontDrawRequest {
        alignment: TextAlignment::Left,
        color: white(),
        resolution: Resolution { width: 4, height: 4 },
        tab_offsets: [0; 8],
    };
    let mut draws = Vec::new();
    font.generate_string_draws("A", req, &mut draws);
    let parameter = font.draw_string_buffer_to_bitmap(&draws, req);
    assert_eq!(parameter.bitmaps.len(), 1);
    let image = &parameter.bitmaps[0];
    assert_eq!(image.data.len(), 4 * 4 * 4);
    // The glyph pixel at (0,0) is white.
    assert_eq!(&image.data[0..4], &[255, 255, 255, 255]);
    // Its drop shadow at (1,1) is black at full alpha.
    let shadow = (1 + 1 * 4) * 4;
    assert_eq!(&image.data[shadow..shadow + 4], &[0, 0, 0, 255]);
    // Everything else stays transparent.
    assert_eq!(&image.data[4..8], &[0, 0, 0, 0]);
    // The parameter is valid to add to the registry as-is.
    assert!(parameter.validate().is_ok());
}

#[test]
fn debug_text_pipeline_stores_a_bitmap() {
    let mut renderer =
        magellanicus::renderer::Renderer::new(&magellanicus::parameters::RendererParameters::default())
            .unwrap();
    let parameter = AddFontParameter {
        characters: vec![glyph('F', 5), glyph('P', 5), glyph('S', 5)],
        line_height: 7,
    };
    renderer.add_font("fonts/terminal", parameter).unwrap();
    renderer.set_debug_font(Some("fonts/terminal")).unwrap();
    assert!(renderer.debug_text_stale);
    renderer.draw_debug_text("FPS", white()).unwrap();
    assert!(!renderer.debug_text_stale);
    assert_eq!(renderer.debug_text.len(), 1);
}

#[test]
fn debug_text_without_font_is_a_no_op() {
    let mut renderer =
        magellanicus::renderer::Renderer::new(&magellanicus::parameters::RendererParameters::default())
            .unwrap();
    assert!(renderer.draw_debug_text("anything", white()).is_ok());
    assert!(renderer.debug_text.is_empty());
    assert!(renderer.debug_text_stale);
}

#[test]
fn debug_text_rejects_invalid_color() {
    let mut renderer =
        magellanicus::renderer::Renderer::new(&magellanicus::parameters::RendererParameters::default())
            .unwrap();
    let parameter = AddFontParameter { characters: vec![glyph('A', 5)], line_height: 7 };
    renderer.add_font("fonts/small", parameter).unwrap();
    renderer.set_debug_font(Some("fonts/small")).unwrap();
    let overbright = ColorRgba { r: FRAC_ONE + 1, g: 0, b: 0, a: FRAC_ONE };
    assert_eq!(renderer.draw_debug_text("A", overbright), Err(Error::Validation));
    assert!(renderer.debug_text.is_empty());
    assert!(renderer.debug_text_stale);
}
