use easyvietsub::ass::{ass_alignment, ass_color, ass_document, hex_color_sliceable, parse_hex_color};
use easyvietsub::models::{RenderStyle, SubtitleSegment};

fn style(text: &str, outline: &str, background: &str, position: &str) -> RenderStyle {
    RenderStyle {
        font_family: "Arial".to_string(),
        font_size: 48,
        text_color: text.to_string(),
        outline_color: outline.to_string(),
        outline_width: 2,
        background_color: background.to_string(),
        line_spacing: 0,
        margin_x: 30,
        margin_y: 40,
        bold: true,
        italic: false,
        position: position.to_string(),
    }
}

#[test]
fn six_digit_colour_is_opaque() {
    assert_eq!(parse_hex_color("#FF8000"), (255, 255, 128, 0));
    assert_eq!(parse_hex_color("  ff8000 "), (255, 255, 128, 0));
}

#[test]
fn eight_digit_colour_carries_alpha() {
    assert_eq!(parse_hex_color("#11223344"), (0x44, 0x11, 0x22, 0x33));
}

#[test]
fn colour_of_other_length_is_white() {
    assert_eq!(parse_hex_color("#FFF"), (255, 255, 255, 255));
    assert_eq!(parse_hex_color(""), (255, 255, 255, 255));
}

#[test]
fn bad_hex_pair_reads_as_255() {
    assert_eq!(parse_hex_color("#GG0000"), (255, 255, 0, 0));
}

#[test]
fn repeated_hashes_are_all_removed() {
    assert_eq!(parse_hex_color("##00FF00"), (255, 0, 255, 0));
}

#[test]
fn ass_colour_inverts_alpha_and_reverses_channels() {
    assert_eq!(ass_color("#FF8000"), "&H000080FF");
    assert_eq!(ass_color("#11223344"), "&HBB332211");
    assert_eq!(ass_color("nonsense"), "&H00FFFFFF");
}

#[test]
fn colour_split_inside_a_character_is_detected() {
    assert!(hex_color_sliceable("#FF8000"));
    assert!(!hex_color_sliceable("aé000"));
    assert!(hex_color_sliceable("éé00"));
    assert!(hex_color_sliceable("é"));
}

#[test]
fn alignment_follows_position() {
    assert_eq!(ass_alignment("top"), 8);
    assert_eq!(ass_alignment("center"), 5);
    assert_eq!(ass_alignment("bottom"), 2);
    assert_eq!(ass_alignment("TOP"), 2);
}

#[test]
fn ass_document_holds_style_and_escaped_dialogue() {
    let segments = vec![SubtitleSegment {
        id: "1".to_string(),
        start_ms: 1_000,
        end_ms: 2_500,
        source_text: "ignored".to_string(),
        translated_text: "a\nb{c}".to_string(),
    }];
    let s = style("#FFFFFF", "#000000", "#00000080", "top");
    let expected = String::from(
        "[Script Info]\nScriptType: v4.00+\nWrapStyle: 0\nScaledBorderAndShadow: yes\nYCbCr Matrix: TV.709\n\n[V4+ Styles]\nFormat: Name, Fontname, Fontsize, PrimaryColour, SecondaryColour, OutlineColour, BackColour, Bold, Italic, Underline, StrikeOut, ScaleX, ScaleY, Spacing, Angle, BorderStyle, Outline, Shadow, Alignment, MarginL, MarginR, MarginV, Encoding\n",
    ) + "Style: Default,Arial,48,&H00FFFFFF,&H000000FF,&H00000000,&H7F000000,-1,0,0,0,100,100,0,0,1,2,0,8,30,30,40,1\n\n[Events]\nFormat: Layer, Start, End, Style, Name, MarginL, MarginR, MarginV, Effect, Text\n"
        + "Dialogue: 0,0:00:01.00,0:00:02.50,Default,,0,0,0,,a\\Nb\\{c\\}\n";
    assert_eq!(ass_document(&segments, &s), expected);
}

#[test]
fn ass_document_without_segments_ends_after_events_format() {
    let s = style("#FFFFFF", "#000000", "#000000", "bottom");
    let doc = ass_document(&Vec::new(), &s);
    assert!(doc.ends_with("Format: Layer, Start, End, Style, Name, MarginL, MarginR, MarginV, Effect, Text\n"));
    assert!(doc.contains(",-1,0,0,0,100,100,0,0,1,2,0,2,30,30,40,1\n"));
}
