use mrtui::markdown::{is_video, render, render_events, MdEnd, MdEvent, MdStart};
use mrtui::style::{StyledLine, TextStyle, Tone};

fn plain() -> TextStyle {
    TextStyle { fg: Tone::Default, bold: false, italic: false, crossed_out: false, underlined: false }
}

fn with_fg(t: Tone) -> TextStyle {
    TextStyle { fg: t, ..plain() }
}

fn flat(lines: &[StyledLine]) -> Vec<Vec<(String, TextStyle)>> {
    lines.iter().map(|l| l.iter().map(|s| (s.text.clone(), s.style)).collect()).collect()
}

fn texts(lines: &[StyledLine]) -> Vec<String> {
    lines.iter().map(|l| l.iter().map(|s| s.text.as_str()).collect::<String>()).collect()
}

#[test]
fn heading_and_bold_paragraph() {
    let (lines, media) = render("# Title\n\nHello **world**");
    let h = TextStyle { fg: Tone::Cyan, bold: true, ..plain() };
    assert_eq!(
        flat(&lines),
        vec![
            vec![("# ".to_string(), h), ("Title".to_string(), h)],
            vec![],
            vec![("Hello ".to_string(), plain()), ("world".to_string(), TextStyle { bold: true, ..plain() })],
            vec![],
        ]
    );
    assert!(media.is_empty());
}

#[test]
fn third_level_heading_is_blue_and_fourth_has_no_marker() {
    let (lines, _) = render("### Three\n\n#### Four");
    let h3 = TextStyle { fg: Tone::Blue, bold: true, ..plain() };
    assert_eq!(flat(&lines)[0], vec![("### ".to_string(), h3), ("Three".to_string(), h3)]);
    assert_eq!(flat(&lines)[2], vec![("Four".to_string(), h3)]);
}

#[test]
fn images_become_placeholders_and_media_urls() {
    let (lines, media) = render("![shot](http://x/a.png) and ![clip](http://x/B.MP4)");
    assert_eq!(media, vec!["http://x/a.png".to_string(), "http://x/B.MP4".to_string()]);
    let t = texts(&lines);
    assert_eq!(t[0], "[image: http://x/a.png]  →  'o' to open");
    assert_eq!(t[1], " and [video: http://x/B.MP4]  →  'o' to open");
    let style = TextStyle { fg: Tone::DarkGray, italic: true, ..plain() };
    assert_eq!(lines[0][0].style, style);
}

#[test]
fn bullet_and_ordered_lists() {
    let (lines, _) = render("- one\n- two\n\n3. three\n4. four");
    assert_eq!(texts(&lines), vec!["• one", "• two", "", "3. three", "4. four", ""]);
    assert_eq!(lines[0][0].style, with_fg(Tone::DarkGray));
}

#[test]
fn nested_lists_are_indented() {
    let (lines, _) = render("- outer\n  - inner");
    assert_eq!(texts(&lines), vec!["• outer", "  • inner", ""]);
}

#[test]
fn code_blocks_are_indented_and_yellow() {
    let (lines, _) = render("```\nlet x = 1;\nlet y = 2;\n```");
    assert_eq!(texts(&lines), vec!["  let x = 1;", "  let y = 2;", ""]);
    assert_eq!(lines[0][0].style, with_fg(Tone::Yellow));
}

#[test]
fn inline_code_and_emphasis() {
    let (lines, _) = render("use `x` *now* ~~not~~");
    assert_eq!(
        flat(&lines)[0],
        vec![
            ("use ".to_string(), plain()),
            ("`x`".to_string(), with_fg(Tone::Yellow)),
            (" ".to_string(), plain()),
            ("now".to_string(), TextStyle { italic: true, ..plain() }),
            (" ".to_string(), plain()),
            ("not".to_string(), TextStyle { crossed_out: true, ..plain() }),
        ]
    );
}

#[test]
fn block_quotes_get_a_bar() {
    let (lines, _) = render("> quoted");
    assert_eq!(flat(&lines)[0], vec![("│ ".to_string(), with_fg(Tone::DarkGray)), ("quoted".to_string(), plain())]);
}

#[test]
fn rules_draw_sixty_dashes() {
    let (lines, _) = render("a\n\n---\n\nb");
    let t = texts(&lines);
    assert_eq!(t[2], "─".repeat(60));
    assert_eq!(t[3], "");
}

#[test]
fn task_list_markers() {
    let (lines, _) = render("- [x] done\n- [ ] open");
    assert_eq!(texts(&lines), vec!["• ☑ done", "• ☐ open", ""]);
}

#[test]
fn links_start_with_an_empty_underlined_span() {
    let (lines, _) = render("[site](http://example.org)");
    assert_eq!(lines[0][0].text, "");
    assert_eq!(lines[0][0].style, TextStyle { underlined: true, ..with_fg(Tone::Blue) });
    assert_eq!(lines[0][1].text, "site");
}

#[test]
fn soft_breaks_become_spaces() {
    let (lines, _) = render("one\ntwo");
    assert_eq!(texts(&lines), vec!["one two", ""]);
}

#[test]
fn empty_text_renders_nothing() {
    let (lines, media) = render("");
    assert!(lines.is_empty());
    assert!(media.is_empty());
}

#[test]
fn render_events_by_hand() {
    let events = vec![
        MdEvent::Start(MdStart::Paragraph),
        MdEvent::Text("a\nb".to_string()),
        MdEvent::End(MdEnd::Paragraph),
        MdEvent::ImageStart("http://x/v.webm".to_string()),
        MdEvent::Text("ignored".to_string()),
        MdEvent::End(MdEnd::Image),
    ];
    let (lines, media) = render_events(&events);
    assert_eq!(texts(&lines), vec!["a", "b", "", "[video: http://x/v.webm]  →  'o' to open"]);
    assert_eq!(media, vec!["http://x/v.webm".to_string()]);
}

#[test]
fn videos_by_extension() {
    assert!(is_video("http://x/a.mp4"));
    assert!(is_video("http://x/a.MOV"));
    assert!(is_video("a.webm"));
    assert!(is_video("a.AvI"));
    assert!(!is_video("a.png"));
    assert!(!is_video("a.mp4.png"));
    assert!(!is_video(""));
}
