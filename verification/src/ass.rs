//! Advanced SubStation Alpha (ASS) subtitles: colours, alignment, and the
//! document that FFmpeg's `ass` filter burns into a video.
use vstd::prelude::*;
use vstd::utf8::{encode_utf8, is_char_boundary};
use vstd::string::StringSliceAdditionalSpecFns;

use crate::models::{RenderStyle, SegmentView, SubtitleSegment, segment_views};
use crate::srt::{ass_timestamp, ms_to_ass_timestamp};
use crate::text::{
    chars_of, dec, hex2, join, push_chars, push_dec, push_hex2, push_str, replace, replace_chars,
    trim, trim_bounds,
};

verus! {

// ---------------------------------------------------------------------------
// Colours
// ---------------------------------------------------------------------------
/// `s` without its leading `#` characters.
pub open spec fn drop_hashes(s: Seq<char>) -> Seq<char>
    decreases s.len(),
{
    if s.len() > 0 && s[0] == '#' {
        drop_hashes(s.drop_first())
    } else {
        s
    }
}

/// The colour text that is read: trimmed, leading `#`s removed.
pub open spec fn color_digits(input: Seq<char>) -> Seq<char> {
    drop_hashes(trim(input))
}

/// An ASCII hexadecimal digit, as `char::to_digit(16)` accepts it.
pub open spec fn is_hex_byte(b: u8) -> bool {
    (48 <= b <= 57) || (65 <= b <= 70) || (97 <= b <= 102)
}

pub open spec fn hex_byte_value(b: u8) -> u8 {
    if 48 <= b <= 57 {
        (b - 48) as u8
    } else if 65 <= b <= 70 {
        (b - 55) as u8
    } else {
        (b - 87) as u8
    }
}

/// `u8::from_str_radix(two bytes, 16)`, or 255 where it fails: an optional
/// `+` before one digit, or two digits.
pub open spec fn hex_pair(x: u8, y: u8) -> u8 {
    if x == 43 {
        if is_hex_byte(y) {
            hex_byte_value(y)
        } else {
            255
        }
    } else if is_hex_byte(x) && is_hex_byte(y) {
        (hex_byte_value(x) * 16 + hex_byte_value(y)) as u8
    } else {
        255
    }
}

/// Reading a colour slices its UTF-8 bytes in pairs; this holds when each
/// cut falls on a character boundary (slicing panics otherwise).
pub open spec fn color_sliceable(input: Seq<char>) -> bool {
    let b = encode_utf8(color_digits(input));
    &&& b.len() == 6 ==> is_char_boundary(b, 2) && is_char_boundary(b, 4)
    &&& b.len() == 8 ==> is_char_boundary(b, 2) && is_char_boundary(b, 4) && is_char_boundary(
        b,
        6,
    )
}

#[verifier::opaque]
/// The `(alpha, red, green, blue)` of a colour written `RRGGBB` or
/// `RRGGBBAA` (with optional `#`); any other length is opaque white, and a
/// pair that is not hexadecimal reads as 255.
pub open spec fn hex_color(input: Seq<char>) -> (u8, u8, u8, u8) {
    let b = encode_utf8(color_digits(input));
    if b.len() == 6 {
        (255, hex_pair(b[0], b[1]), hex_pair(b[2], b[3]), hex_pair(b[4], b[5]))
    } else if b.len() == 8 {
        (hex_pair(b[6], b[7]), hex_pair(b[0], b[1]), hex_pair(b[2], b[3]), hex_pair(b[4], b[5]))
    } else {
        (255, 255, 255, 255)
    }
}

fn is_hex(b: u8) -> (r: bool)
    ensures
        r == is_hex_byte(b),
{
    (48 <= b && b <= 57) || (65 <= b && b <= 70) || (97 <= b && b <= 102)
}

fn hex_value(b: u8) -> (r: u8)
    requires
        is_hex_byte(b),
    ensures
        r == hex_byte_value(b),
        r < 16,
{
    if 48 <= b && b <= 57 {
        b - 48
    } else if 65 <= b && b <= 70 {
        b - 55
    } else {
        b - 87
    }
}

fn read_hex_pair(x: u8, y: u8) -> (r: u8)
    ensures
        r == hex_pair(x, y),
{
    if x == 43 {
        if is_hex(y) {
            hex_value(y)
        } else {
            255
        }
    } else if is_hex(x) && is_hex(y) {
        hex_value(x) * 16 + hex_value(y)
    } else {
        255
    }
}

/// The bounds of `color_digits(v)` inside `v`.
fn color_bounds(v: &Vec<char>) -> (r: (usize, usize))
    ensures
        r.0 <= r.1 <= v.len(),
        v@.subrange(r.0 as int, r.1 as int) == color_digits(v@),
{
    let (mut lo, hi) = trim_bounds(v);
    while lo < hi && v[lo] == '#'
        invariant
            lo <= hi <= v.len(),
            color_digits(v@) == drop_hashes(v@.subrange(lo as int, hi as int)),
        decreases hi - lo,
    {
        assert(v@.subrange(lo as int, hi as int).drop_first() =~= v@.subrange(lo + 1, hi as int));
        lo = lo + 1;
    }
    (lo, hi)
}

/// Whether reading `input` as a colour cuts its bytes only at character
/// boundaries (slicing panics otherwise).
pub fn hex_color_sliceable(input: &str) -> (r: bool)
    ensures
        r == color_sliceable(input@),
{
    let v = chars_of(input);
    let (lo, hi) = color_bounds(&v);
    let clean = input.substring_char(lo, hi);
    assert(clean.spec_bytes() == encode_utf8(color_digits(input@)));
    let n = clean.as_bytes().len();
    if n == 6 {
        clean.is_char_boundary(2) && clean.is_char_boundary(4)
    } else if n == 8 {
        clean.is_char_boundary(2) && clean.is_char_boundary(4) && clean.is_char_boundary(6)
    } else {
        true
    }
}

/// Parses `RRGGBB` or `RRGGBBAA` (optionally after `#`) into
/// `(alpha, red, green, blue)`.
pub fn parse_hex_color(input: &str) -> (r: (u8, u8, u8, u8))
    requires
        color_sliceable(input@),
    ensures
        r == hex_color(input@),
{
    let v = chars_of(input);
    let (lo, hi) = color_bounds(&v);
    let clean = input.substring_char(lo, hi);
    let b = clean.as_bytes();
    assert(b@ == encode_utf8(color_digits(input@)));
    reveal(hex_color);
    if b.len() == 6 {
        let r = read_hex_pair(b[0], b[1]);
        let g = read_hex_pair(b[2], b[3]);
        let bl = read_hex_pair(b[4], b[5]);
        (255, r, g, bl)
    } else if b.len() == 8 {
        let r = read_hex_pair(b[0], b[1]);
        let g = read_hex_pair(b[2], b[3]);
        let bl = read_hex_pair(b[4], b[5]);
        let a = read_hex_pair(b[6], b[7]);
        (a, r, g, bl)
    } else {
        (255, 255, 255, 255)
    }
}

#[verifier::opaque]
/// An ASS colour `&HAABBGGRR`, with alpha inverted (ASS counts
/// transparency).
pub open spec fn ass_color_text(input: Seq<char>) -> Seq<char> {
    let (a, r, g, b) = hex_color(input);
    "&H"@ + hex2((255 - a) as u8) + hex2(b) + hex2(g) + hex2(r)
}

/// Converts a `#RRGGBB[AA]` colour into ASS `&HAABBGGRR` notation.
pub fn ass_color(input: &str) -> (r: String)
    requires
        color_sliceable(input@),
    ensures
        r@ == ass_color_text(input@),
{
    reveal(ass_color_text);
    let (alpha, red, green, blue) = parse_hex_color(input);
    let inverse_alpha = 255u8 - alpha;
    let mut s = String::new();
    push_str(&mut s, "&H");
    push_hex2(&mut s, inverse_alpha);
    push_hex2(&mut s, blue);
    push_hex2(&mut s, green);
    push_hex2(&mut s, red);
    s
}

/// The ASS numpad alignment for a named subtitle position.
pub open spec fn alignment_of(position: Seq<char>) -> u8 {
    if position == "top"@ {
        8
    } else if position == "center"@ {
        5
    } else {
        2
    }
}

/// ASS alignment: `top` is 8, `center` is 5, anything else is 2 (bottom).
pub fn ass_alignment(position: &str) -> (r: u8)
    ensures
        r == alignment_of(position@),
{
    let v = chars_of(position);
    if crate::text::chars_eq_str(&v, "top") {
        8
    } else if crate::text::chars_eq_str(&v, "center") {
        5
    } else {
        2
    }
}

// ---------------------------------------------------------------------------
// The ASS document
// ---------------------------------------------------------------------------
/// The fixed header: script info and the style format line.
pub const ASS_HEADER: &'static str = "[Script Info]\nScriptType: v4.00+\nWrapStyle: 0\nScaledBorderAndShadow: yes\nYCbCr Matrix: TV.709\n\n[V4+ Styles]\nFormat: Name, Fontname, Fontsize, PrimaryColour, SecondaryColour, OutlineColour, BackColour, Bold, Italic, Underline, StrikeOut, ScaleX, ScaleY, Spacing, Angle, BorderStyle, Outline, Shadow, Alignment, MarginL, MarginR, MarginV, Encoding\n";

/// The line that ends the styles section and opens the events section.
pub const ASS_EVENTS_HEADER: &'static str = ",1\n\n[Events]\nFormat: Layer, Start, End, Style, Name, MarginL, MarginR, MarginV, Effect, Text\n";

/// `-1` for a set flag, `0` otherwise, as ASS writes booleans.
pub open spec fn ass_flag(b: bool) -> Seq<char> {
    if b {
        "-1"@
    } else {
        "0"@
    }
}

/// The font part of the style line.
pub open spec fn ass_style_font(style: RenderStyle) -> Seq<char> {
    "Style: Default,"@ + style.font_family@ + ","@ + dec(style.font_size as nat) + ","@
}

/// The colour part of the style line.
pub open spec fn ass_style_colors(style: RenderStyle) -> Seq<char> {
    ass_color_text(style.text_color@) + ",&H000000FF,"@ + ass_color_text(style.outline_color@)
        + ","@ + ass_color_text(style.background_color@) + ","@
}

/// The emphasis and border part of the style line.
pub open spec fn ass_style_flags(style: RenderStyle) -> Seq<char> {
    ass_flag(style.bold) + ","@ + ass_flag(style.italic) + ",0,0,100,100,0,0,1,"@ + dec(
        style.outline_width as nat,
    ) + ",0,"@
}

/// The placement part of the style line, and the events header.
pub open spec fn ass_style_layout(style: RenderStyle) -> Seq<char> {
    dec(alignment_of(style.position@) as nat) + ","@ + dec(style.margin_x as nat) + ","@ + dec(
        style.margin_x as nat,
    ) + ","@ + dec(style.margin_y as nat) + ASS_EVENTS_HEADER@
}

/// The `Style: Default,...` line and the events header.
pub open spec fn ass_style_line(style: RenderStyle) -> Seq<char> {
    ass_style_font(style) + ass_style_colors(style) + ass_style_flags(style) + ass_style_layout(
        style,
    )
}

fn push_style_font(s: &mut String, style: &RenderStyle)
    ensures
        final(s)@ == old(s)@ + ass_style_font(*style),
{
    push_str(s, "Style: Default,");
    push_str(s, style.font_family.as_str());
    push_str(s, ",");
    push_dec(s, style.font_size);
    push_str(s, ",");
    assert(final(s)@ =~= old(s)@ + ass_style_font(*style));
}

fn push_style_colors(s: &mut String, style: &RenderStyle)
    requires
        style_colors_sliceable(*style),
    ensures
        final(s)@ == old(s)@ + ass_style_colors(*style),
{
    let primary = ass_color(style.text_color.as_str());
    let outline = ass_color(style.outline_color.as_str());
    let back = ass_color(style.background_color.as_str());
    push_str(s, primary.as_str());
    push_str(s, ",&H000000FF,");
    push_str(s, outline.as_str());
    push_str(s, ",");
    push_str(s, back.as_str());
    push_str(s, ",");
    assert(final(s)@ =~= old(s)@ + ass_style_colors(*style));
}

fn push_style_flags(s: &mut String, style: &RenderStyle)
    ensures
        final(s)@ == old(s)@ + ass_style_flags(*style),
{
    push_flag(s, style.bold);
    push_str(s, ",");
    push_flag(s, style.italic);
    push_str(s, ",0,0,100,100,0,0,1,");
    push_dec(s, style.outline_width);
    push_str(s, ",0,");
    assert(final(s)@ =~= old(s)@ + ass_style_flags(*style));
}

fn push_style_layout(s: &mut String, style: &RenderStyle)
    ensures
        final(s)@ == old(s)@ + ass_style_layout(*style),
{
    let alignment = ass_alignment(style.position.as_str());
    push_dec(s, alignment as u64);
    push_str(s, ",");
    push_dec(s, style.margin_x);
    push_str(s, ",");
    push_dec(s, style.margin_x);
    push_str(s, ",");
    push_dec(s, style.margin_y);
    push_str(s, ASS_EVENTS_HEADER);
    assert(final(s)@ =~= old(s)@ + ass_style_layout(*style));
}

#[verifier::opaque]
/// Subtitle text with line breaks as `\N` and braces escaped.
pub open spec fn ass_escape(t: Seq<char>) -> Seq<char> {
    replace(replace(replace(t, seq!['\n'], "\\N"@), seq!['{'], "\\{"@), seq!['}'], "\\}"@)
}

/// One `Dialogue:` event for a segment's translated text.
pub open spec fn dialogue_line(s: SegmentView) -> Seq<char> {
    "Dialogue: 0,"@ + ass_timestamp(s.start_ms) + ","@ + ass_timestamp(s.end_ms)
        + ",Default,,0,0,0,,"@ + ass_escape(s.translated_text) + "\n"@
}

/// The dialogue lines of `segs`, in order.
pub open spec fn dialogue_lines(segs: Seq<SegmentView>) -> Seq<char>
    decreases segs.len(),
{
    if segs.len() == 0 {
        Seq::empty()
    } else {
        dialogue_lines(segs.drop_last()) + dialogue_line(segs.last())
    }
}

/// The whole ASS document for `segs` in `style`.
pub open spec fn ass_document_text(segs: Seq<SegmentView>, style: RenderStyle) -> Seq<char> {
    ASS_HEADER@ + ass_style_line(style) + dialogue_lines(segs)
}

/// The three colours of a style can be read without panicking.
pub open spec fn style_colors_sliceable(style: RenderStyle) -> bool {
    color_sliceable(style.text_color@) && color_sliceable(style.outline_color@) && color_sliceable(
        style.background_color@,
    )
}

fn push_flag(s: &mut String, b: bool)
    ensures
        final(s)@ == old(s)@ + ass_flag(b),
{
    if b {
        push_str(s, "-1");
    } else {
        push_str(s, "0");
    }
}

fn escape_for_ass(t: &String) -> (r: Vec<char>)
    ensures
        r@ == ass_escape(t@),
{
    let v = chars_of(t.as_str());
    let mut nl: Vec<char> = Vec::new();
    nl.push('\n');
    let mut open: Vec<char> = Vec::new();
    open.push('{');
    let mut close: Vec<char> = Vec::new();
    close.push('}');
    assert(nl@ =~= seq!['\n']);
    assert(open@ =~= seq!['{']);
    assert(close@ =~= seq!['}']);
    reveal(ass_escape);
    let a = replace_chars(&v, &nl, &chars_of("\\N"));
    let b = replace_chars(&a, &open, &chars_of("\\{"));
    replace_chars(&b, &close, &chars_of("\\}"))
}

fn push_dialogue(s: &mut String, seg: &SubtitleSegment)
    ensures
        final(s)@ == old(s)@ + dialogue_line(seg@),
{
    let text = escape_for_ass(&seg.translated_text);
    push_str(s, "Dialogue: 0,");
    let a = ms_to_ass_timestamp(seg.start_ms);
    push_str(s, a.as_str());
    push_str(s, ",");
    let b = ms_to_ass_timestamp(seg.end_ms);
    push_str(s, b.as_str());
    push_str(s, ",Default,,0,0,0,,");
    push_chars(s, &text);
    push_str(s, "\n");
    assert(final(s)@ =~= old(s)@ + dialogue_line(seg@));
}

/// Builds the ASS document for `segments` in `style`.
pub fn ass_document(segments: &Vec<SubtitleSegment>, style: &RenderStyle) -> (r: String)
    requires
        style_colors_sliceable(*style),
    ensures
        r@ == ass_document_text(segment_views(segments@), *style),
{
    let mut s = String::new();
    push_str(&mut s, ASS_HEADER);
    let ghost head = s@;
    push_style_font(&mut s, style);
    push_style_colors(&mut s, style);
    push_style_flags(&mut s, style);
    push_style_layout(&mut s, style);
    assert(s@ =~= head + ass_style_line(*style));
    let ghost prefix = s@;
    let ghost segs = segment_views(segments@);
    let mut i: usize = 0;
    assert(segs.take(0) =~= Seq::<SegmentView>::empty());
    while i < segments.len()
        invariant
            i <= segments.len(),
            segs == segment_views(segments@),
            s@ == prefix + dialogue_lines(segs.take(i as int)),
        decreases segments.len() - i,
    {
        push_dialogue(&mut s, &segments[i]);
        proof {
            assert(segs.take(i + 1).drop_last() =~= segs.take(i as int));
        }
        i = i + 1;
    }
    assert(segs.take(segments.len() as int) =~= segs);
    s
}

} // verus!
