//! Markdown to styled terminal lines.
//!
//! `pulldown_cmark` turns the text into a stream of events; the renderer
//! here folds that stream into lines of styled spans: headings, quotes, code
//! blocks, bullet and numbered lists, inline emphasis, links and rules.

use pulldown_cmark::{Event as CmEvent, Options, Parser, Tag as CmTag, TagEnd as CmTagEnd};
use vstd::prelude::*;

use crate::strings::{
    decimal, decimal_string, opt_chars, push_char, repeat, repeat_str, split_lines, str_lines,
};
use crate::style::{
    plain, with_fg, with_modifier, Color, Style, BOLD, CROSSED_OUT, ITALIC, UNDERLINED,
};

verus! {

/// Where an element opens, with what the renderer reads of it.
#[derive(Clone, Debug, PartialEq, Eq)]
pub enum TagOf<S> {
    Paragraph,
    /// A heading of level 1 to 6.
    Heading(u8),
    BlockQuote,
    CodeBlock,
    /// A list; numbered from the given start, or a bullet list.
    List(Option<u64>),
    Item,
    Emphasis,
    Strong,
    Strikethrough,
    /// A link to the given destination.
    Link(S),
    /// Any other element.
    Other,
}

/// Where an element closes.
#[derive(Clone, Copy, Debug, PartialEq, Eq, Structural)]
pub enum CloseTag {
    Paragraph,
    Heading,
    BlockQuote,
    CodeBlock,
    List,
    Item,
    Emphasis,
    Strong,
    Strikethrough,
    Link,
    Other,
}

/// One event of the markdown stream.
#[derive(Clone, Debug, PartialEq, Eq)]
pub enum EventOf<S> {
    Start(TagOf<S>),
    End(CloseTag),
    Text(S),
    Code(S),
    Html(S),
    InlineHtml(S),
    SoftBreak,
    HardBreak,
    Rule,
    /// Any other event.
    Other,
}

pub type OpenTag = TagOf<String>;

pub type Event = EventOf<String>;

pub type TagView = TagOf<Seq<char>>;

pub type EventView = EventOf<Seq<char>>;

impl View for TagOf<String> {
    type V = TagOf<Seq<char>>;

    open spec fn view(&self) -> TagOf<Seq<char>> {
        match self {
            TagOf::Paragraph => TagOf::Paragraph,
            TagOf::Heading(l) => TagOf::Heading(*l),
            TagOf::BlockQuote => TagOf::BlockQuote,
            TagOf::CodeBlock => TagOf::CodeBlock,
            TagOf::List(start) => TagOf::List(*start),
            TagOf::Item => TagOf::Item,
            TagOf::Emphasis => TagOf::Emphasis,
            TagOf::Strong => TagOf::Strong,
            TagOf::Strikethrough => TagOf::Strikethrough,
            TagOf::Link(url) => TagOf::Link(url@),
            TagOf::Other => TagOf::Other,
        }
    }
}

impl View for EventOf<String> {
    type V = EventOf<Seq<char>>;

    open spec fn view(&self) -> EventOf<Seq<char>> {
        match self {
            EventOf::Start(t) => EventOf::Start(t@),
            EventOf::End(t) => EventOf::End(*t),
            EventOf::Text(s) => EventOf::Text(s@),
            EventOf::Code(s) => EventOf::Code(s@),
            EventOf::Html(s) => EventOf::Html(s@),
            EventOf::InlineHtml(s) => EventOf::InlineHtml(s@),
            EventOf::SoftBreak => EventOf::SoftBreak,
            EventOf::HardBreak => EventOf::HardBreak,
            EventOf::Rule => EventOf::Rule,
            EventOf::Other => EventOf::Other,
        }
    }
}

/// A run of text in one style.
#[derive(Clone, Debug, PartialEq, Eq)]
pub struct SpanOf<S> {
    pub content: S,
    pub style: Style,
}

pub type Span = SpanOf<String>;

pub type SpanView = SpanOf<Seq<char>>;

impl View for SpanOf<String> {
    type V = SpanOf<Seq<char>>;

    open spec fn view(&self) -> SpanOf<Seq<char>> {
        SpanOf { content: self.content@, style: self.style }
    }
}

/// One line of output: its spans, left to right.
#[derive(Clone, Debug)]
pub struct Line {
    pub spans: Vec<Span>,
}

impl View for Line {
    type V = Seq<SpanView>;

    open spec fn view(&self) -> Seq<SpanView> {
        self.spans@.map_values(|s: Span| s@)
    }
}

/// Lines of styled text, top to bottom.
#[derive(Clone, Debug)]
pub struct Text {
    pub lines: Vec<Line>,
}

/// The lines of `v`, each by its spans.
pub open spec fn lines_view(v: Seq<Line>) -> Seq<Seq<SpanView>> {
    v.map_values(|l: Line| l@)
}

impl View for Text {
    type V = Seq<Seq<SpanView>>;

    open spec fn view(&self) -> Seq<Seq<SpanView>> {
        lines_view(self.lines@)
    }
}

/// The events that `pulldown_cmark` produces for `content` with every
/// extension enabled, each read as an `EventView`.
pub uninterp spec fn markdown_events(content: Seq<char>) -> Seq<EventView>;

#[verifier::external_type_specification]
#[verifier::external_body]
pub struct ExCmTag<'a>(pulldown_cmark::Tag<'a>);

#[verifier::external_type_specification]
#[verifier::external_body]
pub struct ExCmTagEnd(pulldown_cmark::TagEnd);

/// Reads an opening tag of `pulldown_cmark` as an `OpenTag`, variant for variant;
/// the variants that the renderer does not read become `OpenTag::Other`. Used
/// by `parse_events` alone.
#[verifier::external_body]
fn from_cmark_tag(t: CmTag) -> OpenTag {
    match t {
        CmTag::Paragraph => OpenTag::Paragraph,
        CmTag::Heading { level, .. } => OpenTag::Heading(level as u8),
        CmTag::BlockQuote(_) => OpenTag::BlockQuote,
        CmTag::CodeBlock(_) => OpenTag::CodeBlock,
        CmTag::List(start) => OpenTag::List(start),
        CmTag::Item => OpenTag::Item,
        CmTag::Emphasis => OpenTag::Emphasis,
        CmTag::Strong => OpenTag::Strong,
        CmTag::Strikethrough => OpenTag::Strikethrough,
        CmTag::Link { dest_url, .. } => OpenTag::Link(dest_url.to_string()),
        _ => OpenTag::Other,
    }
}

/// Reads a closing tag of `pulldown_cmark` as a `CloseTag`, variant for
/// variant; the others become `CloseTag::Other`. Used by `parse_events` alone.
#[verifier::external_body]
fn from_cmark_tag_end(t: CmTagEnd) -> CloseTag {
    match t {
        CmTagEnd::Paragraph => CloseTag::Paragraph,
        CmTagEnd::Heading(_) => CloseTag::Heading,
        CmTagEnd::BlockQuote(_) => CloseTag::BlockQuote,
        CmTagEnd::CodeBlock => CloseTag::CodeBlock,
        CmTagEnd::List(_) => CloseTag::List,
        CmTagEnd::Item => CloseTag::Item,
        CmTagEnd::Emphasis => CloseTag::Emphasis,
        CmTagEnd::Strong => CloseTag::Strong,
        CmTagEnd::Strikethrough => CloseTag::Strikethrough,
        CmTagEnd::Link => CloseTag::Link,
        _ => CloseTag::Other,
    }
}

/// Parses `content` with `pulldown_cmark::Parser::new_ext` and every
/// extension (`Options::all()`), reading each event as an `Event`. The
/// contract claims that the events are a function of the text, the
/// sequence named `markdown_events(content@)`, and that the empty text
/// yields none (its first pass adds no node to the tree, so the iterator
/// ends at once).
#[verifier::external_body]
fn parse_events(content: &str) -> (events: Vec<Event>)
    ensures
        events@.map_values(|e: Event| e@) == markdown_events(content@),
        content@.len() == 0 ==> events@.len() == 0,
{
    Parser::new_ext(content, Options::all()).map(|e| match e {
        CmEvent::Start(t) => Event::Start(from_cmark_tag(t)),
        CmEvent::End(t) => Event::End(from_cmark_tag_end(t)),
        CmEvent::Text(t) => Event::Text(t.to_string()),
        CmEvent::Code(t) => Event::Code(t.to_string()),
        CmEvent::Html(t) => Event::Html(t.to_string()),
        CmEvent::InlineHtml(t) => Event::InlineHtml(t.to_string()),
        CmEvent::SoftBreak => Event::SoftBreak,
        CmEvent::HardBreak => Event::HardBreak,
        CmEvent::Rule => Event::Rule,
        _ => Event::Other,
    }).collect()
}

/// The state of the renderer between two events.
pub struct RenderState {
    /// The lines finished so far.
    pub lines: Seq<Seq<SpanView>>,
    /// The spans of the line being built.
    pub current: Seq<SpanView>,
    /// The stack of inline styles; its top styles new text.
    pub styles: Seq<Style>,
    pub in_code_block: bool,
    /// How many lists are open.
    pub list_depth: int,
    /// For each open list, the number its next item gets.
    pub ordered_counters: Seq<usize>,
    /// For each open list, whether it is a bullet list.
    pub unordered_lists: Seq<bool>,
    /// The destination of the open link, if any.
    pub link_url: Option<Seq<char>>,
}

/// The state before the first event.
pub open spec fn initial_state() -> RenderState {
    RenderState {
        lines: Seq::empty(),
        current: Seq::empty(),
        styles: seq![plain()],
        in_code_block: false,
        list_depth: 0,
        ordered_counters: Seq::empty(),
        unordered_lists: Seq::empty(),
        link_url: None,
    }
}

/// The state is consistent: one counter and one kind per open list.
pub open spec fn state_wf(s: RenderState) -> bool {
    &&& s.list_depth == s.ordered_counters.len()
    &&& s.list_depth == s.unordered_lists.len()
}

/// The style that new text takes.
pub open spec fn current_style(s: RenderState) -> Style {
    if s.styles.len() > 0 {
        s.styles.last()
    } else {
        plain()
    }
}

/// Adds a span to the current line, unless its text is empty.
pub open spec fn push_span(s: RenderState, text: Seq<char>, style: Style) -> RenderState {
    if text.len() == 0 {
        s
    } else {
        RenderState { current: s.current.push(SpanOf { content: text, style }), ..s }
    }
}

/// Ends the current line, unless it is empty.
pub open spec fn flush_line(s: RenderState) -> RenderState {
    if s.current.len() == 0 {
        s
    } else {
        RenderState { lines: s.lines.push(s.current), current: Seq::empty(), ..s }
    }
}

/// Adds an empty line.
pub open spec fn push_blank(s: RenderState) -> RenderState {
    RenderState { lines: s.lines.push(Seq::empty()), ..s }
}

/// Drops the top style, if there is one.
pub open spec fn pop_style(s: RenderState) -> RenderState {
    RenderState { styles: if s.styles.len() > 0 { s.styles.drop_last() } else { s.styles }, ..s }
}

/// Pushes a style.
pub open spec fn push_style(s: RenderState, st: Style) -> RenderState {
    RenderState { styles: s.styles.push(st), ..s }
}

/// A line of a code block.
pub open spec fn code_line(line: Seq<char>) -> Seq<SpanView> {
    seq![SpanOf { content: line, style: with_fg(plain(), Color::Green) }]
}

/// Text: inside a code block, one green line per line of the text;
/// elsewhere, a span in the current style.
pub open spec fn push_text(s: RenderState, text: Seq<char>) -> RenderState {
    if s.in_code_block {
        RenderState { lines: s.lines + str_lines(text).map_values(|l: Seq<char>| code_line(l)), ..s }
    } else {
        push_span(s, text, current_style(s))
    }
}

/// The style of a heading of level `level`.
pub open spec fn heading_style(level: u8) -> Style {
    let color = if level == 1 {
        Color::Cyan
    } else if level == 2 {
        Color::Blue
    } else if level == 3 {
        Color::Magenta
    } else if level == 4 {
        Color::Yellow
    } else {
        Color::White
    };
    with_modifier(with_fg(plain(), color), BOLD)
}

/// The indentation of an item in the innermost open list.
pub open spec fn item_indent(s: RenderState) -> Seq<char> {
    repeat(seq![' ', ' '], if s.list_depth > 0 { (s.list_depth - 1) as nat } else { 0 })
}

/// Whether the innermost open list is a bullet list (or none is open).
pub open spec fn in_bullet_list(s: RenderState) -> bool {
    if s.unordered_lists.len() > 0 {
        s.unordered_lists.last()
    } else {
        true
    }
}

/// The number the next item of the innermost numbered list gets.
pub open spec fn item_number(s: RenderState) -> usize {
    s.ordered_counters[s.list_depth - 1]
}

/// The marker of a new item: a bullet, or the item's number and a dot,
/// after the list's indentation.
pub open spec fn item_prefix(s: RenderState) -> Seq<char> {
    if in_bullet_list(s) {
        item_indent(s) + seq!['•', ' ']
    } else {
        item_indent(s) + decimal(item_number(s) as nat) + seq!['.', ' ']
    }
}

/// Starts a list item: ends the current line, writes the marker and moves
/// the counter of a numbered list on.
pub open spec fn start_item(s: RenderState) -> RenderState {
    let f = flush_line(s);
    let g = if in_bullet_list(f) {
        f
    } else {
        let i = f.list_depth - 1;
        RenderState {
            ordered_counters: f.ordered_counters.update(i, item_number(f).wrapping_add(1)),
            ..f
        }
    };
    push_span(g, item_prefix(f), with_fg(plain(), Color::Yellow))
}

/// The effect of an opening tag.
pub open spec fn start_tag(s: RenderState, tag: TagView) -> RenderState {
    match tag {
        TagOf::Heading(level) => push_style(flush_line(s), heading_style(level)),
        TagOf::BlockQuote => push_style(
            flush_line(s),
            with_modifier(with_fg(plain(), Color::Magenta), ITALIC),
        ),
        TagOf::CodeBlock => RenderState { in_code_block: true, ..flush_line(s) },
        TagOf::List(start) => RenderState {
            list_depth: s.list_depth + 1,
            unordered_lists: s.unordered_lists.push(start is None),
            ordered_counters: s.ordered_counters.push(
                match start {
                    Some(n) => n as usize,
                    None => 0,
                },
            ),
            ..s
        },
        TagOf::Item => start_item(s),
        TagOf::Emphasis => push_style(s, with_modifier(current_style(s), ITALIC)),
        TagOf::Strong => push_style(s, with_modifier(current_style(s), BOLD)),
        TagOf::Strikethrough => push_style(s, with_modifier(current_style(s), CROSSED_OUT)),
        TagOf::Link(url) => push_style(
            RenderState { link_url: Some(url), ..s },
            with_modifier(with_fg(plain(), Color::Blue), UNDERLINED),
        ),
        _ => s,
    }
}

/// The effect of a closing tag.
pub open spec fn end_tag(s: RenderState, tag: CloseTag) -> RenderState {
    match tag {
        CloseTag::Paragraph => push_blank(flush_line(s)),
        CloseTag::Heading => push_blank(flush_line(pop_style(s))),
        CloseTag::BlockQuote => push_blank(flush_line(pop_style(s))),
        CloseTag::CodeBlock => push_blank(RenderState { in_code_block: false, ..s }),
        CloseTag::List => push_blank(
            RenderState {
                list_depth: if s.list_depth > 0 { s.list_depth - 1 } else { 0 },
                ordered_counters: if s.ordered_counters.len() > 0 {
                    s.ordered_counters.drop_last()
                } else {
                    s.ordered_counters
                },
                unordered_lists: if s.unordered_lists.len() > 0 {
                    s.unordered_lists.drop_last()
                } else {
                    s.unordered_lists
                },
                ..s
            },
        ),
        CloseTag::Item => flush_line(s),
        CloseTag::Emphasis => pop_style(s),
        CloseTag::Strong => pop_style(s),
        CloseTag::Strikethrough => pop_style(s),
        CloseTag::Link => {
            let t = RenderState { link_url: None, ..s };
            let u = match s.link_url {
                Some(url) => push_span(
                    t,
                    seq![' ', '('] + url + seq![')'],
                    with_fg(plain(), Color::DarkGray),
                ),
                None => t,
            };
            pop_style(u)
        },
        CloseTag::Other => s,
    }
}

/// The horizontal rule: forty box-drawing strokes in dark grey.
pub open spec fn rule_line() -> Seq<SpanView> {
    seq![SpanOf { content: repeat(seq!['─'], 40), style: with_fg(plain(), Color::DarkGray) }]
}

/// The effect of one event.
pub open spec fn step(s: RenderState, e: EventView) -> RenderState {
    match e {
        EventOf::Start(tag) => start_tag(s, tag),
        EventOf::End(tag) => end_tag(s, tag),
        EventOf::Text(t) => push_text(s, t),
        EventOf::Code(t) => push_span(s, t, with_modifier(with_fg(plain(), Color::Green), BOLD)),
        EventOf::Html(t) => push_text(s, t),
        EventOf::InlineHtml(t) => push_text(s, t),
        EventOf::SoftBreak => flush_line(s),
        EventOf::HardBreak => flush_line(s),
        EventOf::Rule => {
            let f = flush_line(s);
            push_blank(RenderState { lines: f.lines.push(rule_line()), ..f })
        },
        EventOf::Other => s,
    }
}

/// The state after the events `es`, one by one from `s`.
pub open spec fn run(s: RenderState, es: Seq<EventView>) -> RenderState
    decreases es.len(),
{
    if es.len() == 0 {
        s
    } else {
        step(run(s, es.drop_last()), es.last())
    }
}

/// `lines` without the empty lines at its end.
pub open spec fn trim_blank(lines: Seq<Seq<SpanView>>) -> Seq<Seq<SpanView>>
    decreases lines.len(),
{
    if lines.len() > 0 && lines.last().len() == 0 {
        trim_blank(lines.drop_last())
    } else {
        lines
    }
}

/// The lines of a finished rendering: the open line ended, trailing empty
/// lines dropped.
pub open spec fn finish(s: RenderState) -> Seq<Seq<SpanView>> {
    trim_blank(flush_line(s).lines)
}

/// The lines that the events `es` render to.
pub open spec fn render_view(es: Seq<EventView>) -> Seq<Seq<SpanView>> {
    finish(run(initial_state(), es))
}

/// The lines that the markdown `content` renders to: none for the empty
/// text, on which the parser yields no event.
pub open spec fn rendered(content: Seq<char>) -> Seq<Seq<SpanView>> {
    if content.len() == 0 {
        Seq::empty()
    } else {
        render_view(markdown_events(content))
    }
}

/// The renderer: the finished lines, the line being built, and the open
/// styles, lists and link.
struct Renderer {
    lines: Vec<Line>,
    current: Vec<Span>,
    styles: Vec<Style>,
    in_code_block: bool,
    list_depth: usize,
    ordered_counters: Vec<usize>,
    unordered_lists: Vec<bool>,
    link_url: Option<String>,
}

impl View for Renderer {
    type V = RenderState;

    closed spec fn view(&self) -> RenderState {
        RenderState {
            lines: lines_view(self.lines@),
            current: self.current@.map_values(|s: Span| s@),
            styles: self.styles@,
            in_code_block: self.in_code_block,
            list_depth: self.list_depth as int,
            ordered_counters: self.ordered_counters@,
            unordered_lists: self.unordered_lists@,
            link_url: opt_chars(self.link_url),
        }
    }
}

/// The style of a heading of level `level`.
fn heading_style_of(level: u8) -> (r: Style)
    ensures
        r == heading_style(level),
{
    let color = match level {
        1 => Color::Cyan,
        2 => Color::Blue,
        3 => Color::Magenta,
        4 => Color::Yellow,
        _ => Color::White,
    };
    Style::new().fg(color).add_modifier(BOLD)
}

impl Renderer {
    fn new() -> (r: Renderer)
        ensures
            r@ == initial_state(),
    {
        let mut styles = Vec::new();
        styles.push(Style::new());
        let r = Renderer {
            lines: Vec::new(),
            current: Vec::new(),
            styles,
            in_code_block: false,
            list_depth: 0,
            ordered_counters: Vec::new(),
            unordered_lists: Vec::new(),
            link_url: None,
        };
        assert(r@.lines =~= Seq::<Seq<SpanView>>::empty());
        assert(r@.current =~= Seq::<SpanView>::empty());
        assert(r@.styles =~= seq![plain()]);
        r
    }

    fn current_style(&self) -> (r: Style)
        ensures
            r == current_style(self@),
    {
        let n = self.styles.len();
        if n > 0 {
            self.styles[n - 1]
        } else {
            Style::new()
        }
    }

    fn push_span(&mut self, text: String, style: Style)
        ensures
            final(self)@ == push_span(old(self)@, text@, style),
    {
        if text.as_str().unicode_len() == 0 {
            return;
        }
        let ghost before = self.current@;
        let span = SpanOf { content: text, style };
        self.current.push(span);
        assert(self.current@.map_values(|s: Span| s@) =~= before.map_values(|s: Span| s@).push(
            span@,
        ));
    }

    fn push_line(&mut self, line: Line)
        ensures
            final(self)@ == (RenderState { lines: old(self)@.lines.push(line@), ..old(self)@ }),
    {
        let ghost before = self.lines@;
        self.lines.push(line);
        assert(lines_view(self.lines@) =~= lines_view(before).push(line@));
    }

    fn push_blank(&mut self)
        ensures
            final(self)@ == push_blank(old(self)@),
    {
        let line = Line { spans: Vec::new() };
        assert(line@ =~= Seq::<SpanView>::empty());
        self.push_line(line);
    }

    fn flush_line(&mut self)
        ensures
            final(self)@ == flush_line(old(self)@),
    {
        if self.current.len() == 0 {
            return;
        }
        let mut spans = Vec::new();
        std::mem::swap(&mut spans, &mut self.current);
        assert(self@.current =~= Seq::<SpanView>::empty());
        self.push_line(Line { spans });
    }

    fn pop_style(&mut self)
        ensures
            final(self)@ == pop_style(old(self)@),
    {
        if self.styles.len() > 0 {
            self.styles.pop();
        }
    }

    fn push_style(&mut self, st: Style)
        ensures
            final(self)@ == push_style(old(self)@, st),
    {
        self.styles.push(st);
    }

    fn push_text(&mut self, text: String)
        ensures
            final(self)@ == push_text(old(self)@, text@),
    {
        if self.in_code_block {
            let parts = split_lines(text.as_str());
            let ghost base = self@.lines;
            let ghost code = str_lines(text@).map_values(|l: Seq<char>| code_line(l));
            let mut i: usize = 0;
            while i < parts.len()
                invariant
                    0 <= i <= parts@.len(),
                    parts@.map_values(|x: String| x@) == str_lines(text@),
                    code.len() == parts@.len(),
                    code == str_lines(text@).map_values(|l: Seq<char>| code_line(l)),
                    self@ == (RenderState { lines: base + code.take(i as int), ..old(self)@ }),
                decreases parts@.len() - i,
            {
                let mut spans = Vec::new();
                spans.push(SpanOf { content: parts[i].clone(), style: Style::new().fg(Color::Green) });
                let line = Line { spans };
                assert(line@ =~= code[i as int]) by {
                    assert(str_lines(text@)[i as int] == parts@[i as int]@);
                }
                self.push_line(line);
                assert(base + code.take(i + 1) =~= (base + code.take(i as int)).push(code[i as int]));
                i = i + 1;
            }
            assert(code.take(i as int) =~= code);
            return;
        }
        let st = self.current_style();
        self.push_span(text, st);
    }

    fn start_item(&mut self)
        requires
            state_wf(old(self)@),
        ensures
            final(self)@ == start_item(old(self)@),
            state_wf(final(self)@),
    {
        self.flush_line();
        let ghost f = self@;
        let depth = self.list_depth;
        proof {
            reveal_strlit("  ");
        }
        assert("  "@ =~= seq![' ', ' ']);
        let mut prefix = repeat_str("  ", if depth > 0 { depth - 1 } else { 0 });
        assert(prefix@ == item_indent(f));
        let n = self.unordered_lists.len();
        let bullet = if n > 0 { self.unordered_lists[n - 1] } else { true };
        if bullet {
            push_char(&mut prefix, '•');
            push_char(&mut prefix, ' ');
            assert(prefix@ =~= item_prefix(f));
        } else {
            let index = depth - 1;
            let number = self.ordered_counters[index];
            self.ordered_counters.set(index, number.wrapping_add(1));
            let numeral = decimal_string(number);
            prefix.append(numeral.as_str());
            push_char(&mut prefix, '.');
            push_char(&mut prefix, ' ');
            assert(prefix@ =~= item_prefix(f));
        }
        self.push_span(prefix, Style::new().fg(Color::Yellow));
    }

    fn start_tag(&mut self, tag: OpenTag)
        requires
            state_wf(old(self)@),
        ensures
            final(self)@ == start_tag(old(self)@, tag@),
            state_wf(final(self)@),
    {
        match tag {
            TagOf::Paragraph => {},
            TagOf::Heading(level) => {
                self.flush_line();
                self.push_style(heading_style_of(level));
            },
            TagOf::BlockQuote => {
                self.flush_line();
                self.push_style(Style::new().fg(Color::Magenta).add_modifier(ITALIC));
            },
            TagOf::CodeBlock => {
                self.flush_line();
                self.in_code_block = true;
            },
            TagOf::List(start) => {
                match start {
                    Some(first) => {
                        self.unordered_lists.push(false);
                        self.ordered_counters.push(first as usize);
                    },
                    None => {
                        self.unordered_lists.push(true);
                        self.ordered_counters.push(0);
                    },
                }
                self.list_depth = self.ordered_counters.len();
            },
            TagOf::Item => self.start_item(),
            TagOf::Emphasis => {
                let st = self.current_style().add_modifier(ITALIC);
                self.push_style(st);
            },
            TagOf::Strong => {
                let st = self.current_style().add_modifier(BOLD);
                self.push_style(st);
            },
            TagOf::Strikethrough => {
                let st = self.current_style().add_modifier(CROSSED_OUT);
                self.push_style(st);
            },
            TagOf::Link(url) => {
                self.link_url = Some(url);
                self.push_style(Style::new().fg(Color::Blue).add_modifier(UNDERLINED));
            },
            TagOf::Other => {},
        }
    }

    fn end_tag(&mut self, tag: CloseTag)
        requires
            state_wf(old(self)@),
        ensures
            final(self)@ == end_tag(old(self)@, tag),
            state_wf(final(self)@),
    {
        match tag {
            CloseTag::Paragraph => {
                self.flush_line();
                self.push_blank();
            },
            CloseTag::Heading | CloseTag::BlockQuote => {
                self.pop_style();
                self.flush_line();
                self.push_blank();
            },
            CloseTag::CodeBlock => {
                self.in_code_block = false;
                self.push_blank();
            },
            CloseTag::List => {
                if self.list_depth > 0 {
                    self.list_depth = self.list_depth - 1;
                }
                if self.ordered_counters.len() > 0 {
                    self.ordered_counters.pop();
                }
                if self.unordered_lists.len() > 0 {
                    self.unordered_lists.pop();
                }
                self.push_blank();
            },
            CloseTag::Item => self.flush_line(),
            CloseTag::Emphasis | CloseTag::Strong | CloseTag::Strikethrough => self.pop_style(),
            CloseTag::Link => {
                let url = self.link_url.take();
                match url {
                    Some(url) => {
                        let mut text = String::new();
                        push_char(&mut text, ' ');
                        push_char(&mut text, '(');
                        text.append(url.as_str());
                        push_char(&mut text, ')');
                        assert(text@ =~= seq![' ', '('] + url@ + seq![')']);
                        self.push_span(text, Style::new().fg(Color::DarkGray));
                    },
                    None => {},
                }
                self.pop_style();
            },
            CloseTag::Other => {},
        }
    }

    fn handle(&mut self, event: Event)
        requires
            state_wf(old(self)@),
        ensures
            final(self)@ == step(old(self)@, event@),
            state_wf(final(self)@),
    {
        match event {
            EventOf::Start(tag) => self.start_tag(tag),
            EventOf::End(tag) => self.end_tag(tag),
            EventOf::Text(text) => self.push_text(text),
            EventOf::Code(text) => self.push_span(
                text,
                Style::new().fg(Color::Green).add_modifier(BOLD),
            ),
            EventOf::SoftBreak | EventOf::HardBreak => self.flush_line(),
            EventOf::Rule => {
                self.flush_line();
                proof {
                    reveal_strlit("─");
                }
                assert("─"@ =~= seq!['─']);
                let mut spans = Vec::new();
                spans.push(SpanOf { content: repeat_str("─", 40), style: Style::new().fg(Color::DarkGray) });
                let line = Line { spans };
                assert(line@ =~= rule_line());
                self.push_line(line);
                self.push_blank();
            },
            EventOf::Html(text) | EventOf::InlineHtml(text) => self.push_text(text),
            EventOf::Other => {},
        }
    }

    fn finish(self) -> (r: Vec<Line>)
        ensures
            lines_view(r@) == finish(self@),
    {
        let mut this = self;
        this.flush_line();
        let mut lines = this.lines;
        while lines.len() > 0 && lines[lines.len() - 1].spans.len() == 0
            invariant
                trim_blank(lines_view(lines@)) == finish(self@),
            decreases lines@.len(),
        {
            let ghost before = lines@;
            lines.pop();
            assert(lines_view(lines@) =~= lines_view(before).drop_last());
        }
        lines
    }
}

/// Renders a stream of markdown events into lines.
pub fn render_events(events: Vec<Event>) -> (r: Vec<Line>)
    ensures
        lines_view(r@) == render_view(events@.map_values(|e: Event| e@)),
{
    let ghost es = events@.map_values(|e: Event| e@);
    let mut renderer = Renderer::new();
    assert(es.take(0) =~= Seq::<EventView>::empty());
    for event in it: events
        invariant
            es == it.seq().map_values(|e: Event| e@),
            renderer@ == run(initial_state(), es.take(it.index() as int)),
            state_wf(renderer@),
    {
        let ghost k = it.index() as int;
        assert(es.take(k + 1).drop_last() =~= es.take(k));
        assert(es.take(k + 1).last() == event@);
        renderer.handle(event);
    }
    assert(es.take(es.len() as int) =~= es);
    renderer.finish()
}

/// The lines that the markdown `content` renders to.
pub fn render_lines(content: &str) -> (r: Vec<Line>)
    ensures
        lines_view(r@) == rendered(content@),
{
    let events = parse_events(content);
    proof {
        if content@.len() == 0 {
            assert(events@.map_values(|e: Event| e@) =~= Seq::<EventView>::empty());
        }
    }
    render_events(events)
}

/// The text of a rendering: its lines, or one empty line when there are none.
pub open spec fn text_of(lines: Seq<Seq<SpanView>>) -> Seq<Seq<SpanView>> {
    if lines.len() == 0 {
        seq![Seq::<SpanView>::empty()]
    } else {
        lines
    }
}

/// The number of lines that the markdown `content` takes on screen: the
/// rendered lines, and never less than one.
pub open spec fn spec_line_count(content: Seq<char>) -> int {
    if rendered(content).len() == 0 {
        1
    } else {
        rendered(content).len() as int
    }
}

/// Renders the markdown `content` as styled text.
pub fn render(content: &str) -> (r: Text)
    ensures
        r@ == text_of(rendered(content@)),
        r.lines@.len() == spec_line_count(content@),
{
    let lines = render_lines(content);
    if lines.len() == 0 {
        let mut one = Vec::new();
        let empty = Line { spans: Vec::new() };
        assert(empty@ =~= Seq::<SpanView>::empty());
        one.push(empty);
        assert(lines_view(one@) =~= seq![Seq::<SpanView>::empty()]);
        Text { lines: one }
    } else {
        Text { lines }
    }
}

/// The number of lines that the markdown `content` takes on screen.
pub fn line_count(content: &str) -> (r: usize)
    ensures
        r as int == spec_line_count(content@),
        r >= 1,
{
    if content.is_empty() {
        return 1;
    }
    let n = render_lines(content).len();
    if n > 1 {
        n
    } else {
        1
    }
}

/// Every step keeps the renderer consistent: one counter and one kind for
/// each open list.
pub proof fn lemma_step_wf(s: RenderState, e: EventView)
    requires
        state_wf(s),
    ensures
        state_wf(step(s, e)),
{
}

/// Rendering any stream of events keeps the renderer consistent.
pub proof fn lemma_run_wf(es: Seq<EventView>)
    ensures
        state_wf(run(initial_state(), es)),
    decreases es.len(),
{
    if es.len() > 0 {
        lemma_run_wf(es.drop_last());
        lemma_step_wf(run(initial_state(), es.drop_last()), es.last());
    }
}

proof fn lemma_trim_blank(lines: Seq<Seq<SpanView>>)
    ensures
        trim_blank(lines).len() <= lines.len(),
        trim_blank(lines).len() > 0 ==> trim_blank(lines).last().len() > 0,
        trim_blank(lines) == lines.subrange(0, trim_blank(lines).len() as int),
    decreases lines.len(),
{
    if lines.len() > 0 && lines.last().len() == 0 {
        lemma_trim_blank(lines.drop_last());
        assert(lines.drop_last().subrange(0, trim_blank(lines).len() as int) =~= lines.subrange(
            0,
            trim_blank(lines).len() as int,
        ));
    } else {
        assert(lines.subrange(0, lines.len() as int) =~= lines);
    }
}

/// A rendering never ends with an empty line, and its lines are the first
/// lines of what the renderer wrote.
pub proof fn lemma_render_no_trailing_blank(es: Seq<EventView>)
    ensures
        render_view(es).len() > 0 ==> render_view(es).last().len() > 0,
        render_view(es) == flush_line(run(initial_state(), es)).lines.subrange(
            0,
            render_view(es).len() as int,
        ),
{
    lemma_trim_blank(flush_line(run(initial_state(), es)).lines);
}

/// The text of a rendering has as many lines as `line_count` reports.
pub proof fn lemma_render_matches_line_count(content: Seq<char>)
    ensures
        text_of(rendered(content)).len() == spec_line_count(content),
{
}

/// An inline style tag and its closing tag leave the style stack as it was;
/// in between, new text carries the tag's modifier on top of the style
/// around it.
pub proof fn lemma_inline_style_balanced(s: RenderState, open: TagView, close: CloseTag, m: u16)
    requires
        (open == TagOf::<Seq<char>>::Emphasis && close == CloseTag::Emphasis && m == ITALIC)
            || (open == TagOf::<Seq<char>>::Strong && close == CloseTag::Strong && m == BOLD)
            || (open == TagOf::<Seq<char>>::Strikethrough && close == CloseTag::Strikethrough
            && m == CROSSED_OUT),
    ensures
        current_style(start_tag(s, open)) == with_modifier(current_style(s), m),
        end_tag(start_tag(s, open), close) == s,
{
    assert(start_tag(s, open).styles.drop_last() =~= s.styles);
}

/// A heading and its closing tag leave the style stack as it was, so the
/// text after a heading takes the style it had before; in between, text
/// takes the heading's style.
pub proof fn lemma_heading_style_balanced(s: RenderState, level: u8)
    ensures
        current_style(start_tag(s, TagOf::Heading(level))) == heading_style(level),
        end_tag(start_tag(s, TagOf::Heading(level)), CloseTag::Heading).styles == s.styles,
        current_style(end_tag(start_tag(s, TagOf::Heading(level)), CloseTag::Heading))
            == current_style(s),
{
    assert(start_tag(s, TagOf::Heading(level)).styles.drop_last() =~= s.styles);
}

/// A block quote and its closing tag leave the style stack as it was; in
/// between, text is magenta and italic.
pub proof fn lemma_quote_style_balanced(s: RenderState)
    ensures
        current_style(start_tag(s, TagOf::BlockQuote)) == with_modifier(
            with_fg(plain(), Color::Magenta),
            ITALIC,
        ),
        end_tag(start_tag(s, TagOf::BlockQuote), CloseTag::BlockQuote).styles == s.styles,
{
    assert(start_tag(s, TagOf::BlockQuote).styles.drop_last() =~= s.styles);
}

/// A link and its closing tag leave the style stack as it was and no link
/// open.
pub proof fn lemma_link_style_balanced(s: RenderState, url: Seq<char>)
    ensures
        end_tag(start_tag(s, TagOf::Link(url)), CloseTag::Link).styles == s.styles,
        end_tag(start_tag(s, TagOf::Link(url)), CloseTag::Link).link_url is None,
{
    let t = start_tag(s, TagOf::Link(url));
    assert(t.styles.drop_last() =~= s.styles);
}

/// A list and its closing tag leave the open lists as they were.
pub proof fn lemma_list_balanced(s: RenderState, start: Option<u64>)
    requires
        state_wf(s),
    ensures
        end_tag(start_tag(s, TagOf::List(start)), CloseTag::List).list_depth == s.list_depth,
        end_tag(start_tag(s, TagOf::List(start)), CloseTag::List).ordered_counters
            == s.ordered_counters,
        end_tag(start_tag(s, TagOf::List(start)), CloseTag::List).unordered_lists
            == s.unordered_lists,
{
    let t = start_tag(s, TagOf::List(start));
    assert(t.ordered_counters.drop_last() =~= s.ordered_counters);
    assert(t.unordered_lists.drop_last() =~= s.unordered_lists);
}

/// After a code block closes, text is no longer read as code.
pub proof fn lemma_code_block_closes(s: RenderState)
    ensures
        start_tag(s, TagOf::CodeBlock).in_code_block,
        !end_tag(s, CloseTag::CodeBlock).in_code_block,
{
}

/// An item of a numbered list is marked with the list's current number,
/// and the next item gets the number after it.
pub proof fn lemma_item_numbering(s: RenderState)
    requires
        state_wf(s),
        s.list_depth > 0,
        !s.unordered_lists.last(),
        s.ordered_counters.last() < usize::MAX,
    ensures
        start_tag(s, TagOf::Item).ordered_counters.last() == s.ordered_counters.last() + 1,
        start_tag(s, TagOf::Item).current.last().content == item_indent(s) + decimal(
            s.ordered_counters.last() as nat,
        ) + seq!['.', ' '],
{
    let f = flush_line(s);
    assert(f.ordered_counters == s.ordered_counters);
    assert(item_indent(f) == item_indent(s));
    assert(item_prefix(f).len() > 0);
}

/// A paragraph's end finishes its line and adds one empty line after it;
/// the lines before stay as they were.
pub proof fn lemma_paragraph_end(s: RenderState)
    ensures
        ({
            let t = end_tag(s, CloseTag::Paragraph);
            &&& t.current.len() == 0
            &&& t.lines.len() == s.lines.len() + (if s.current.len() > 0 { 2int } else { 1int })
            &&& t.lines.last().len() == 0
            &&& t.lines.subrange(0, s.lines.len() as int) == s.lines
            &&& s.current.len() > 0 ==> t.lines[s.lines.len() as int] == s.current
            &&& t.styles == s.styles
        }),
{
    let t = end_tag(s, CloseTag::Paragraph);
    assert(t.lines.subrange(0, s.lines.len() as int) =~= s.lines);
}

/// An item of a bullet list is marked with two spaces per enclosing list
/// and a bullet, and leaves the counters as they were.
pub proof fn lemma_item_bullet(s: RenderState)
    requires
        state_wf(s),
        s.list_depth > 0,
        s.unordered_lists.last(),
    ensures
        start_tag(s, TagOf::Item).ordered_counters == s.ordered_counters,
        start_tag(s, TagOf::Item).current == seq![
            SpanOf {
                content: repeat(seq![' ', ' '], (s.list_depth - 1) as nat) + seq!['•', ' '],
                style: with_fg(plain(), Color::Yellow),
            },
        ],
{
    let f = flush_line(s);
    assert(item_prefix(f).len() > 0);
    assert(start_tag(s, TagOf::Item).current =~= Seq::<SpanView>::empty().push(
        SpanOf { content: item_prefix(f), style: with_fg(plain(), Color::Yellow) },
    ));
}

/// Outside a code block, text joins the current line as one span in the
/// current style (unless it is empty); no line is finished.
pub proof fn lemma_text_joins_line(s: RenderState, t: Seq<char>)
    requires
        !s.in_code_block,
        t.len() > 0,
    ensures
        step(s, EventOf::Text(t)).current == s.current.push(
            SpanOf { content: t, style: current_style(s) },
        ),
        step(s, EventOf::Text(t)).lines == s.lines,
        step(s, EventOf::Text(t)).styles == s.styles,
{
}

/// Inside a code block, text becomes one finished line per line of the
/// text, each one green span holding that line; the current line is left
/// alone.
pub proof fn lemma_code_text_lines(s: RenderState, t: Seq<char>)
    requires
        s.in_code_block,
    ensures
        ({
            let u = step(s, EventOf::Text(t));
            &&& u.lines.len() == s.lines.len() + str_lines(t).len()
            &&& u.lines.subrange(0, s.lines.len() as int) == s.lines
            &&& forall|i: int|
                0 <= i < str_lines(t).len() ==> #[trigger] u.lines[s.lines.len() + i] == seq![
                    SpanOf { content: str_lines(t)[i], style: with_fg(plain(), Color::Green) },
                ]
            &&& u.current == s.current
        }),
{
    let u = step(s, EventOf::Text(t));
    assert(u.lines.subrange(0, s.lines.len() as int) =~= s.lines);
}

proof fn lemma_repeat_len(c: Seq<char>, k: nat)
    ensures
        repeat(c, k).len() == c.len() * k,
        c.len() == 1 ==> forall|i: int| 0 <= i < k ==> #[trigger] repeat(c, k)[i] == c[0],
    decreases k,
{
    if k > 0 {
        lemma_repeat_len(c, (k - 1) as nat);
        assert(c.len() * k == c.len() * (k - 1) + c.len()) by (nonlinear_arith);
    }
}

/// A rule finishes the current line, then adds a line of forty dark grey
/// strokes and an empty line.
pub proof fn lemma_rule(s: RenderState)
    ensures
        ({
            let u = step(s, EventOf::Rule);
            let n = u.lines.len();
            &&& u.current.len() == 0
            &&& n == s.lines.len() + (if s.current.len() > 0 { 3int } else { 2int })
            &&& u.lines[n - 1].len() == 0
            &&& u.lines[n - 2].len() == 1
            &&& u.lines[n - 2][0].style == with_fg(plain(), Color::DarkGray)
            &&& u.lines[n - 2][0].content.len() == 40
            &&& forall|i: int|
                0 <= i < 40 ==> #[trigger] u.lines[n - 2][0].content[i] == '─'
        }),
{
    lemma_repeat_len(seq!['─'], 40);
}

/// Closing a link that had a destination adds ` (destination)` in dark grey
/// to the current line.
pub proof fn lemma_link_shows_destination(s: RenderState, url: Seq<char>)
    requires
        s.link_url == Some(url),
    ensures
        end_tag(s, CloseTag::Link).current == s.current.push(
            SpanOf {
                content: seq![' ', '('] + url + seq![')'],
                style: with_fg(plain(), Color::DarkGray),
            },
        ),
        end_tag(s, CloseTag::Link).lines == s.lines,
{
}

} // verus!
