use tensor_compress::preview::{ascii_preview_text, glyphs_for_names, legend_text, plain_ascii_preview};
use tensor_compress::preview::{
    ascii_frame, ascii_glyph_for_name, glyph_for_lowercase_name, pack_rgb, paint_framebuffer,
    MaterialPalette,
};

#[test]
fn glyphs_for_common_materials() {
    assert_eq!(ascii_glyph_for_name("Heavy Water"), 'D');
    assert_eq!(ascii_glyph_for_name("D2O moderator"), 'D');
    assert_eq!(ascii_glyph_for_name("Light water"), '.');
    assert_eq!(ascii_glyph_for_name("borated water"), '.');
    assert_eq!(ascii_glyph_for_name("MOX 8%"), 'M');
    assert_eq!(ascii_glyph_for_name("UO2 fuel 3.1%"), '#');
    assert_eq!(ascii_glyph_for_name("Fuel (spent)"), 'b');
    assert_eq!(ascii_glyph_for_name("second cycle fuel"), 'm');
    assert_eq!(ascii_glyph_for_name("Zircaloy-4"), '+');
    assert_eq!(ascii_glyph_for_name("Zr"), '+');
    assert_eq!(ascii_glyph_for_name("SS 304"), '=');
    assert_eq!(ascii_glyph_for_name("reactor vessel"), '=');
    assert_eq!(ascii_glyph_for_name("concrete"), ':');
    assert_eq!(ascii_glyph_for_name("B4C control rod"), 'X');
    assert_eq!(ascii_glyph_for_name("LBE coolant"), 'p');
    assert_eq!(ascii_glyph_for_name("lead shield"), 'P');
    assert_eq!(ascii_glyph_for_name("graphite"), 'C');
    assert_eq!(ascii_glyph_for_name("liquid Na"), '~');
    assert_eq!(ascii_glyph_for_name("Air gap"), ' ');
    assert_eq!(ascii_glyph_for_name("radial reflector"), 'r');
    assert_eq!(ascii_glyph_for_name("moderator"), ',');
    assert_eq!(ascii_glyph_for_name("unobtainium"), ' ');
}

#[test]
fn heavy_water_wins_over_water() {
    assert_eq!(glyph_for_lowercase_name("heavy water"), 'D');
    assert_eq!(glyph_for_lowercase_name("water, heavy"), ' ');
}

#[test]
fn unicode_subscripts_are_recognised() {
    assert_eq!(ascii_glyph_for_name("UO₂"), '#');
    assert_eq!(ascii_glyph_for_name("H₂O"), '.');
}

#[test]
fn pack_rgb_layout() {
    assert_eq!(pack_rgb([0x12, 0x34, 0x56]), 0x0012_3456);
    assert_eq!(pack_rgb([255, 255, 255]), 0x00ff_ffff);
    assert_eq!(pack_rgb([0, 0, 0]), 0);
}

#[test]
fn default_palette() {
    let p = MaterialPalette::default();
    assert_eq!(p.colors.len(), 8);
    assert_eq!(p.colors[0], [200, 80, 60]);
    assert_eq!(p.colors[7], [80, 60, 40]);
    assert_eq!(p.void, [12, 12, 16]);
    assert_eq!(p.color_of(Some(2)), [60, 130, 220]);
    assert_eq!(p.color_of(Some(8)), [12, 12, 16]);
    assert_eq!(p.color_of(None), [12, 12, 16]);
}

#[test]
fn framebuffer_follows_palette() {
    let p = MaterialPalette::default();
    let buf = paint_framebuffer(&vec![Some(0), None, Some(99), Some(1)], &p);
    assert_eq!(buf, vec![0x00c8_503c, 0x000c_0c10, 0x000c_0c10, 0x0078_7878]);
}

#[test]
fn plain_ascii_frame() {
    let mats = vec![Some(0), Some(1), None, Some(1), Some(5), Some(0)];
    let glyphs = vec!['#', '.'];
    let text = ascii_frame(&mats, 3, 2, &glyphs, &vec![], false);
    assert_eq!(text, "#. \n. #\n");
    assert_eq!(text.chars().count(), 2 * (3 + 1));
}

#[test]
fn coloured_ascii_frame_emits_escapes_on_change() {
    let mats = vec![Some(0), Some(0), Some(1)];
    let glyphs = vec!['#', '.'];
    let colours = vec![Some([1, 2, 3]), None];
    let text = ascii_frame(&mats, 3, 1, &glyphs, &colours, true);
    assert_eq!(text, "\x1b[48;2;1;2;3m##\x1b[49m.\x1b[0m\n");
}

#[test]
fn empty_frame_is_empty() {
    assert_eq!(ascii_frame(&vec![], 0, 0, &vec![], &vec![], true), "");
    assert_eq!(ascii_frame(&vec![], 0, 2, &vec![], &vec![], false), "\n\n");
}

#[test]
fn legend_lines_follow_colouring() {
    let names = vec!["UO2 fuel".to_string(), "water".to_string(), "extra".to_string()];
    let glyphs = vec!['#', '.'];
    let colours = vec![Some([200, 80, 60]), None];
    assert_eq!(
        legend_text(&names, &glyphs, &colours, true),
        "legend:\n  \x1b[48;2;200;80;60m # \x1b[0m  UO2 fuel\n  '.'  water\n"
    );
    assert_eq!(
        legend_text(&names, &glyphs, &colours, false),
        "legend:\n  '#'  UO2 fuel\n  '.'  water\n"
    );
    assert_eq!(legend_text(&vec![], &vec![], &vec![], true), "legend:\n");
}

#[test]
fn plain_preview_is_frame_then_legend() {
    let names = vec!["UO2 fuel".to_string(), "water".to_string()];
    let glyphs = vec!['#', '.'];
    let text = ascii_preview_text(&vec![Some(0), Some(1), None, Some(1)], 2, 2, &names, &glyphs, &vec![], false);
    assert_eq!(text, "#.\n .\nlegend:\n  '#'  UO2 fuel\n  '.'  water\n");
}

#[test]
fn plain_preview_from_names() {
    let names = vec!["UO2 fuel".to_string(), "Light Water".to_string(), "mystery".to_string()];
    assert_eq!(glyphs_for_names(&names), vec!['#', '.', ' ']);
    let text = plain_ascii_preview(&vec![Some(0), Some(1), Some(2), None], 2, 2, &names);
    assert_eq!(text, "#.\n  \nlegend:\n  '#'  UO2 fuel\n  '.'  Light Water\n  ' '  mystery\n");
}
