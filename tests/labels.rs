use ui2::color::{Color, LabelColor, Palette};
use ui2::label::{HighlightedLabel, Label, LabelStory, LineHeightStyle};
use ui2::runs::{text_runs, utf8_width, TextRun};

const BLUE: Color = Color { rgba: 0x0000_ffff };
const RED: Color = Color { rgba: 0xff00_00ff };

fn run(len: usize, color: Color) -> TextRun {
    TextRun { len, color }
}

fn palette() -> Palette {
    Palette {
        text: Color::from_rgba(1),
        text_muted: Color::from_rgba(2),
        text_disabled: Color::from_rgba(3),
        text_placeholder: Color::from_rgba(4),
        text_accent: Color::from_rgba(5),
        created: Color::from_rgba(6),
        modified: Color::from_rgba(7),
        deleted: Color::from_rgba(8),
        hidden: Color::from_rgba(9),
    }
}

fn total(runs: &[TextRun]) -> usize {
    runs.iter().map(|r| r.len).sum()
}

fn maximal(runs: &[TextRun]) -> bool {
    runs.windows(2).all(|w| w[0].color != w[1].color) && runs.iter().all(|r| r.len > 0)
}

#[test]
fn empty_text_gives_no_runs() {
    assert_eq!(text_runs("", &[], BLUE, RED), vec![]);
    assert_eq!(text_runs("", &[0, 1], BLUE, RED), vec![]);
}

#[test]
fn no_highlights_gives_one_base_run() {
    assert_eq!(text_runs("abc", &[], BLUE, RED), vec![run(3, BLUE)]);
    assert_eq!(text_runs("h\u{e9}llo", &[], BLUE, RED), vec![run(6, BLUE)]);
}

#[test]
fn one_highlight_splits_in_three() {
    assert_eq!(
        text_runs("abc", &[1], BLUE, RED),
        vec![run(1, BLUE), run(1, RED), run(1, BLUE)]
    );
}

#[test]
fn all_highlighted_merges_into_one_run() {
    assert_eq!(text_runs("abc", &[0, 1, 2], BLUE, RED), vec![run(3, RED)]);
    assert_eq!(text_runs("h\u{e9}llo", &[0, 1, 3, 4, 5], BLUE, RED), vec![run(6, RED)]);
}

#[test]
fn multi_byte_character_keeps_its_width() {
    let runs = text_runs("h\u{e9}llo", &[1], BLUE, RED);
    assert_eq!(runs, vec![run(1, BLUE), run(2, RED), run(3, BLUE)]);
}

#[test]
fn four_byte_character() {
    let runs = text_runs("a\u{1f600}b", &[1], BLUE, RED);
    assert_eq!(runs, vec![run(1, BLUE), run(4, RED), run(1, BLUE)]);
}

#[test]
fn utf8_widths() {
    assert_eq!(utf8_width('a'), 1);
    assert_eq!(utf8_width('\u{e9}'), 2);
    assert_eq!(utf8_width('\u{20ac}'), 3);
    assert_eq!(utf8_width('\u{1f600}'), 4);
}

#[test]
fn lengths_sum_to_byte_length() {
    let text = "Hello, w\u{f6}rld \u{20ac}\u{1f600}!";
    let runs = text_runs(text, &[0, 1, 8, 15, 16], BLUE, RED);
    assert_eq!(total(&runs), text.len());
    assert!(maximal(&runs));
}

#[test]
fn neighbouring_runs_differ_in_colour() {
    let runs = text_runs("abcdef", &[0, 2, 3, 5], BLUE, RED);
    assert_eq!(
        runs,
        vec![run(1, RED), run(1, BLUE), run(2, RED), run(1, BLUE), run(1, RED)]
    );
    assert!(maximal(&runs));
}

#[test]
fn equal_base_and_highlight_colours_merge() {
    assert_eq!(text_runs("abc", &[1], RED, RED), vec![run(3, RED)]);
}

#[test]
fn segmentation_is_deterministic() {
    let a = text_runs("H\u{e9}llo, world!", &[0, 1, 3, 8, 9, 13], BLUE, RED);
    let b = text_runs("H\u{e9}llo, world!", &[0, 1, 3, 8, 9, 13], BLUE, RED);
    assert_eq!(a, b);
}

#[test]
fn unsorted_offsets_stop_the_cursor() {
    // The cursor waits at offset 2; offset 0 behind it is never reached.
    assert_eq!(text_runs("abcd", &[2, 0, 3], BLUE, RED), vec![run(2, BLUE), run(1, RED), run(1, BLUE)]);
}

#[test]
fn offset_inside_a_character_blocks_later_ones() {
    // Offset 2 falls inside the two-byte character, so it never matches.
    assert_eq!(
        text_runs("h\u{e9}llo", &[2, 3], BLUE, RED),
        vec![run(6, BLUE)]
    );
}

#[test]
fn duplicate_offsets_are_consumed_once() {
    assert_eq!(
        text_runs("abc", &[1, 1, 2], BLUE, RED),
        vec![run(1, BLUE), run(1, RED), run(1, BLUE)]
    );
}

#[test]
fn roles_resolve_against_the_palette() {
    let p = palette();
    assert_eq!(LabelColor::Default.hsla(&p), p.text);
    assert_eq!(LabelColor::Muted.hsla(&p), p.text_muted);
    assert_eq!(LabelColor::Created.hsla(&p), p.created);
    assert_eq!(LabelColor::Modified.hsla(&p), p.modified);
    assert_eq!(LabelColor::Deleted.hsla(&p), p.deleted);
    assert_eq!(LabelColor::Disabled.hsla(&p), p.text_disabled);
    assert_eq!(LabelColor::Hidden.hsla(&p), p.hidden);
    assert_eq!(LabelColor::Placeholder.hsla(&p), p.text_placeholder);
    assert_eq!(LabelColor::Accent.hsla(&p), p.text_accent);
    assert_eq!(LabelColor::default(), LabelColor::Default);
    assert_eq!(LineHeightStyle::default(), LineHeightStyle::TextLabel);
}

#[test]
fn label_builders_and_render() {
    let label = Label::new("Hello");
    assert_eq!(label.label, "Hello");
    assert_eq!(label.color, LabelColor::Default);
    assert_eq!(label.line_height_style, LineHeightStyle::TextLabel);
    assert!(!label.strikethrough);
    let p = palette();
    let plain = Label::new("Hello").render(&p);
    assert_eq!(plain.text, "Hello");
    assert_eq!(plain.text_color, p.text);
    assert_eq!(plain.strikethrough, None);
    assert!(!plain.unit_line_height);
    let styled = Label::new("Hello")
        .color(LabelColor::Deleted)
        .line_height_style(LineHeightStyle::UILabel)
        .set_strikethrough(true)
        .render(&p);
    assert_eq!(styled.text_color, p.deleted);
    assert_eq!(styled.strikethrough, Some(p.hidden));
    assert!(styled.unit_line_height);
}

#[test]
fn highlighted_label_render() {
    let p = palette();
    let label = HighlightedLabel::new("abc", vec![1]);
    assert_eq!(label.color, LabelColor::Default);
    assert!(!label.strikethrough);
    let layout = label.render(&p);
    assert_eq!(layout.text, "abc");
    assert_eq!(layout.runs, vec![run(1, p.text), run(1, p.text_accent), run(1, p.text)]);
    assert_eq!(layout.strikethrough, None);
    let muted = HighlightedLabel::new("abc", vec![0])
        .color(LabelColor::Muted)
        .set_strikethrough(true)
        .render(&p);
    assert_eq!(muted.runs, vec![run(1, p.text_accent), run(2, p.text_muted)]);
    assert_eq!(muted.strikethrough, Some(p.hidden));
    let accent = HighlightedLabel::new("abc", vec![1]).color(LabelColor::Accent).render(&p);
    assert_eq!(accent.runs, vec![run(3, p.text_accent)]);
}

#[test]
fn story_shows_three_labels() {
    let (plain, highlighted) = LabelStory.render();
    assert_eq!(plain.label, "Hello, world!");
    assert_eq!(plain.line_height_style, LineHeightStyle::TextLabel);
    assert_eq!(plain.color, LabelColor::Default);
    assert!(!plain.strikethrough);
    assert_eq!(highlighted.len(), 2);
    for label in &highlighted {
        assert_eq!(label.color, LabelColor::Default);
        assert!(!label.strikethrough);
    }
    assert_eq!(highlighted[0].label, "Hello, world!");
    assert_eq!(highlighted[0].highlight_indices, vec![0, 1, 2, 7, 8, 12]);
    assert_eq!(highlighted[1].label, "H\u{e9}llo, world!");
    assert_eq!(highlighted[1].highlight_indices, vec![0, 1, 3, 8, 9, 13]);
    let p = palette();
    let runs = HighlightedLabel::new("H\u{e9}llo, world!", vec![0, 1, 3, 8, 9, 13]).render(&p).runs;
    assert_eq!(
        runs,
        vec![
            run(4, p.text_accent),
            run(4, p.text),
            run(2, p.text_accent),
            run(3, p.text),
            run(1, p.text_accent),
        ]
    );
}
