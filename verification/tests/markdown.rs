use sn::markdown::{
    line_count, render, render_events, render_lines, CloseTag, Event, EventOf, Line, TagOf,
};
use sn::style::{Color, Style, BOLD, CROSSED_OUT, ITALIC, UNDERLINED};

fn texts(lines: &[Line]) -> Vec<Vec<String>> {
    lines
        .iter()
        .map(|l| l.spans.iter().map(|s| s.content.clone()).collect())
        .collect()
}

fn text(s: &str) -> Event {
    EventOf::Text(s.to_string())
}

#[test]
fn renders_heading_and_bold() {
    let lines = render_lines("# Title\n\n**bold** text");
    assert!(lines.len() >= 2);
    assert!(lines[0].spans[0].content.contains("Title"));
}

#[test]
fn renders_list_items() {
    let lines = render_lines("- one\n- two");
    let rendered = lines
        .iter()
        .flat_map(|line| line.spans.iter().map(|span| span.content.as_str()))
        .collect::<String>();
    assert!(rendered.contains('•'));
}

#[test]
fn heading_takes_its_level_style() {
    let lines = render_events(vec![
        EventOf::Start(TagOf::Heading(2)),
        text("Sub"),
        EventOf::End(CloseTag::Heading),
    ]);
    assert_eq!(lines.len(), 1);
    assert_eq!(lines[0].spans.len(), 1);
    assert_eq!(lines[0].spans[0].content, "Sub");
    assert_eq!(lines[0].spans[0].style, Style::new().fg(Color::Blue).add_modifier(BOLD));
}

#[test]
fn heading_levels_five_and_six_are_white() {
    for level in [5u8, 6u8] {
        let lines = render_events(vec![
            EventOf::Start(TagOf::Heading(level)),
            text("h"),
            EventOf::End(CloseTag::Heading),
        ]);
        assert_eq!(lines[0].spans[0].style, Style::new().fg(Color::White).add_modifier(BOLD));
    }
}

#[test]
fn paragraphs_are_separated_by_a_blank_line() {
    let lines = render_events(vec![
        EventOf::Start(TagOf::Paragraph),
        text("a"),
        EventOf::End(CloseTag::Paragraph),
        EventOf::Start(TagOf::Paragraph),
        text("b"),
        EventOf::End(CloseTag::Paragraph),
    ]);
    assert_eq!(texts(&lines), vec![vec!["a".to_string()], vec![], vec!["b".to_string()]]);
}

#[test]
fn ordered_list_counts_from_its_start() {
    let lines = render_events(vec![
        EventOf::Start(TagOf::List(Some(3))),
        EventOf::Start(TagOf::Item),
        text("x"),
        EventOf::End(CloseTag::Item),
        EventOf::Start(TagOf::Item),
        text("y"),
        EventOf::End(CloseTag::Item),
        EventOf::End(CloseTag::List),
    ]);
    assert_eq!(
        texts(&lines),
        vec![
            vec!["3. ".to_string(), "x".to_string()],
            vec!["4. ".to_string(), "y".to_string()],
        ]
    );
    assert_eq!(lines[0].spans[0].style, Style::new().fg(Color::Yellow));
}

#[test]
fn nested_bullets_are_indented() {
    let lines = render_events(vec![
        EventOf::Start(TagOf::List(None)),
        EventOf::Start(TagOf::Item),
        text("outer"),
        EventOf::Start(TagOf::List(None)),
        EventOf::Start(TagOf::Item),
        text("inner"),
        EventOf::End(CloseTag::Item),
        EventOf::End(CloseTag::List),
        EventOf::End(CloseTag::Item),
        EventOf::End(CloseTag::List),
    ]);
    let t = texts(&lines);
    assert_eq!(t[0], vec!["• ".to_string(), "outer".to_string()]);
    assert_eq!(t[1], vec!["  • ".to_string(), "inner".to_string()]);
    assert_eq!(t.len(), 2);
}

#[test]
fn code_block_lines_are_green_lines() {
    let lines = render_events(vec![
        EventOf::Start(TagOf::CodeBlock),
        text("let a = 1;\r\n\nb\n"),
        EventOf::End(CloseTag::CodeBlock),
        text("after"),
    ]);
    assert_eq!(
        texts(&lines),
        vec![
            vec!["let a = 1;".to_string()],
            vec!["".to_string()],
            vec!["b".to_string()],
            vec![],
            vec!["after".to_string()],
        ]
    );
    assert_eq!(lines[0].spans[0].style, Style::new().fg(Color::Green));
}

#[test]
fn link_shows_its_destination() {
    let lines = render_events(vec![
        EventOf::Start(TagOf::Link("https://x.org".to_string())),
        text("site"),
        EventOf::End(CloseTag::Link),
    ]);
    assert_eq!(texts(&lines), vec![vec!["site".to_string(), " (https://x.org)".to_string()]]);
    assert_eq!(
        lines[0].spans[0].style,
        Style::new().fg(Color::Blue).add_modifier(UNDERLINED)
    );
    assert_eq!(lines[0].spans[1].style, Style::new().fg(Color::DarkGray));
}

#[test]
fn nested_inline_styles_accumulate() {
    let lines = render_events(vec![
        EventOf::Start(TagOf::Emphasis),
        EventOf::Start(TagOf::Strong),
        EventOf::Start(TagOf::Strikethrough),
        text("all"),
        EventOf::End(CloseTag::Strikethrough),
        EventOf::End(CloseTag::Strong),
        text("it"),
        EventOf::End(CloseTag::Emphasis),
        text("plain"),
    ]);
    let spans = &lines[0].spans;
    assert_eq!(spans[0].style.add_modifier, ITALIC | BOLD | CROSSED_OUT);
    assert_eq!(spans[1].style.add_modifier, ITALIC);
    assert_eq!(spans[2].style, Style::new());
}

#[test]
fn rule_is_forty_strokes_and_trailing_blanks_are_dropped() {
    let lines = render_events(vec![text("a"), EventOf::Rule]);
    assert_eq!(lines.len(), 2);
    assert_eq!(lines[1].spans[0].content, "─".repeat(40));
    assert_eq!(lines[1].spans[0].style, Style::new().fg(Color::DarkGray));
}

#[test]
fn inline_code_is_bold_green_and_breaks_end_lines() {
    let lines = render_events(vec![
        EventOf::Code("c".to_string()),
        EventOf::SoftBreak,
        EventOf::Html("<b>".to_string()),
        EventOf::HardBreak,
        EventOf::InlineHtml("<i>".to_string()),
        EventOf::Other,
        text(""),
    ]);
    assert_eq!(
        texts(&lines),
        vec![vec!["c".to_string()], vec!["<b>".to_string()], vec!["<i>".to_string()]]
    );
    assert_eq!(lines[0].spans[0].style, Style::new().fg(Color::Green).add_modifier(BOLD));
}

#[test]
fn quote_is_magenta_italic() {
    let lines = render_events(vec![
        EventOf::Start(TagOf::BlockQuote),
        text("q"),
        EventOf::End(CloseTag::BlockQuote),
    ]);
    assert_eq!(lines[0].spans[0].style, Style::new().fg(Color::Magenta).add_modifier(ITALIC));
}

#[test]
fn parser_events_reach_the_renderer() {
    let lines = render_lines("1. first\n2. second");
    let t = texts(&lines);
    assert_eq!(t[0], vec!["1. ".to_string(), "first".to_string()]);
    assert_eq!(t[1], vec!["2. ".to_string(), "second".to_string()]);
    let code = render_lines("`x`");
    assert_eq!(texts(&code), vec![vec!["x".to_string()]]);
    assert_eq!(code[0].spans[0].style, Style::new().fg(Color::Green).add_modifier(BOLD));
}

#[test]
fn line_count_is_at_least_one_and_matches_render() {
    assert_eq!(line_count(""), 1);
    assert!(render_lines("").is_empty());
    assert_eq!(render("").lines.len(), 1);
    assert!(render("").lines[0].spans.is_empty());
    let content = "# T\n\npara one\n\n- a\n- b";
    assert_eq!(line_count(content), render(content).lines.len());
    assert_eq!(line_count(content), render_lines(content).len());
    assert_eq!(line_count("   "), 1);
}
