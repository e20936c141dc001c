//! Markdown rendered into styled terminal lines, and the media links found in it.
//!
//! The parser's events are taken as `MdEvent`s; `render_events` runs the
//! renderer's state machine over them, one `md_step` per event.
use pulldown_cmark::{Event, Options, Parser, Tag, TagEnd};
use vstd::prelude::*;

use crate::style::{
    empty_line, fg, fg_style, push_line, push_span, span, StyledLine, StyledSpan, TextStyle, Tone,
};
use crate::text::{
    decimal, decimal_string, ends_with, has_suffix, lines, lines_of, lowercase, push_str, split_char,
    split_on, to_lower,
};

verus! {

/// The start of a markdown element (the parts the renderer tells apart).
#[derive(Clone, Copy, Debug, PartialEq, Eq, Structural)]
pub enum MdStart {
    Paragraph,
    /// A heading of level 1 to 6.
    Heading(u8),
    BlockQuote,
    CodeBlock,
    /// A list; an ordered one carries the number of its first item.
    List(Option<u64>),
    Item,
    Table,
    TableHead,
    TableRow,
    TableCell,
    Emphasis,
    Strong,
    Strikethrough,
    Link,
    Other,
}

/// The end of a markdown element.
#[derive(Clone, Copy, Debug, PartialEq, Eq, Structural)]
pub enum MdEnd {
    Paragraph,
    Heading,
    BlockQuote,
    CodeBlock,
    List,
    Item,
    Table,
    TableHead,
    TableRow,
    TableCell,
    Emphasis,
    Strong,
    Strikethrough,
    Link,
    Image,
    Other,
}

/// One parser event.
#[derive(Clone, Debug)]
pub enum MdEvent {
    Start(MdStart),
    /// The start of an image, with its destination URL.
    ImageStart(String),
    End(MdEnd),
    Text(String),
    Code(String),
    SoftBreak,
    HardBreak,
    Rule,
    TaskListMarker(bool),
    /// An event the renderer ignores (HTML, math, footnotes).
    Other,
}

/// The mathematical value of an `MdEvent`.
pub enum MdEventView {
    Start(MdStart),
    ImageStart(Seq<char>),
    End(MdEnd),
    Text(Seq<char>),
    Code(Seq<char>),
    SoftBreak,
    HardBreak,
    Rule,
    TaskListMarker(bool),
    Other,
}

impl DeepView for MdEvent {
    type V = MdEventView;

    open spec fn deep_view(&self) -> MdEventView {
        match self {
            MdEvent::Start(s) => MdEventView::Start(*s),
            MdEvent::ImageStart(u) => MdEventView::ImageStart(u@),
            MdEvent::End(e) => MdEventView::End(*e),
            MdEvent::Text(t) => MdEventView::Text(t@),
            MdEvent::Code(t) => MdEventView::Code(t@),
            MdEvent::SoftBreak => MdEventView::SoftBreak,
            MdEvent::HardBreak => MdEventView::HardBreak,
            MdEvent::Rule => MdEventView::Rule,
            MdEvent::TaskListMarker(b) => MdEventView::TaskListMarker(*b),
            MdEvent::Other => MdEventView::Other,
        }
    }
}

/// A styled span as a value.
pub type SpanView = (Seq<char>, TextStyle);

/// The renderer's state as a value.
#[verifier::ext_equal]
pub struct MdModel {
    pub lines: Seq<Seq<SpanView>>,
    pub media: Seq<Seq<char>>,
    pub pending: Seq<SpanView>,
    pub bold: bool,
    pub italic: bool,
    pub strike: bool,
    pub heading: u8,
    pub in_image: bool,
    pub in_code: bool,
    pub in_quote: bool,
    pub depth: int,
    pub ordered: Seq<bool>,
    pub counters: Seq<int>,
}

/// The state before the first event.
pub open spec fn md_initial() -> MdModel {
    MdModel {
        lines: seq![],
        media: seq![],
        pending: seq![],
        bold: false,
        italic: false,
        strike: false,
        heading: 0,
        in_image: false,
        in_code: false,
        in_quote: false,
        depth: 0,
        ordered: seq![],
        counters: seq![],
    }
}

/// The style of ordinary text: headings cyan (levels 1-2) or blue and bold,
/// then bold, italic and struck-through as the open elements ask.
pub open spec fn md_style(m: MdModel) -> TextStyle {
    TextStyle {
        fg: if m.heading > 0 {
            if m.heading <= 2 {
                Tone::Cyan
            } else {
                Tone::Blue
            }
        } else {
            Tone::Default
        },
        bold: m.heading > 0 || m.bold,
        italic: m.italic,
        crossed_out: m.strike,
        underlined: false,
    }
}

/// Adds `span` to the pending line.
pub open spec fn md_add(m: MdModel, span: SpanView) -> MdModel {
    MdModel { pending: m.pending.push(span), ..m }
}

/// Adds non-empty `t` to the pending line in the current style.
pub open spec fn md_push(m: MdModel, t: Seq<char>) -> MdModel {
    if t.len() == 0 {
        m
    } else {
        md_add(m, (t, md_style(m)))
    }
}

/// Ends the pending line, even an empty one.
pub open spec fn md_flush(m: MdModel) -> MdModel {
    MdModel { lines: m.lines.push(m.pending), pending: seq![], ..m }
}

/// Ends the pending line if it holds anything.
pub open spec fn md_flush_pending(m: MdModel) -> MdModel {
    if m.pending.len() > 0 {
        md_flush(m)
    } else {
        m
    }
}

/// Adds a finished line.
pub open spec fn md_emit(m: MdModel, line: Seq<SpanView>) -> MdModel {
    MdModel { lines: m.lines.push(line), ..m }
}

/// Ends the pending line and adds an empty one.
pub open spec fn md_blank(m: MdModel) -> MdModel {
    md_emit(md_flush_pending(m), seq![])
}

/// `n` copies of `s` one after another.
pub open spec fn repeat_seq(s: Seq<char>, n: nat) -> Seq<char>
    decreases n,
{
    if n == 0 {
        seq![]
    } else {
        repeat_seq(s, (n - 1) as nat) + s
    }
}

/// The horizontal rule line: sixty box-drawing dashes in dark gray.
pub open spec fn rule_line() -> Seq<SpanView> {
    seq![(repeat_seq("─"@, 60), fg_style(Tone::DarkGray))]
}

/// Code block lines, each indented by two spaces, in yellow.
pub open spec fn md_code_lines(m: MdModel, ls: Seq<Seq<char>>) -> MdModel
    decreases ls.len(),
{
    if ls.len() == 0 {
        m
    } else {
        let m1 = md_code_lines(m, ls.drop_last());
        md_flush(md_add(m1, ("  "@ + ls.last(), fg_style(Tone::Yellow))))
    }
}

/// Block quote lines, each after a dark gray bar.
pub open spec fn md_quote_lines(m: MdModel, ls: Seq<Seq<char>>) -> MdModel
    decreases ls.len(),
{
    if ls.len() == 0 {
        m
    } else {
        let m1 = md_quote_lines(m, ls.drop_last());
        md_flush(md_push(md_add(m1, ("│ "@, fg_style(Tone::DarkGray))), ls.last()))
    }
}

/// Ordinary text: its pieces between newlines, with a line break between them.
pub open spec fn md_pieces(m: MdModel, ps: Seq<Seq<char>>) -> MdModel
    decreases ps.len(),
{
    if ps.len() == 0 {
        m
    } else if ps.len() == 1 {
        md_push(m, ps[0])
    } else {
        md_push(md_flush_pending(md_pieces(m, ps.drop_last())), ps.last())
    }
}

/// A text event.
pub open spec fn md_text(m: MdModel, t: Seq<char>) -> MdModel {
    if m.in_image {
        m
    } else if m.in_code {
        md_code_lines(m, lines_of(t))
    } else if m.in_quote {
        md_quote_lines(m, lines_of(t))
    } else {
        md_pieces(m, split_on(t, '\n'))
    }
}

/// Whether a URL names a video: its lower-case form ends in `.mp4`, `.mov`,
/// `.webm` or `.avi`.
pub open spec fn video_url(url: Seq<char>) -> bool {
    let l = lowercase(url);
    has_suffix(l, ".mp4"@) || has_suffix(l, ".mov"@) || has_suffix(l, ".webm"@) || has_suffix(
        l,
        ".avi"@,
    )
}

/// The placeholder shown for an image or video link.
pub open spec fn media_label(url: Seq<char>) -> Seq<char> {
    "["@ + (if video_url(url) { "video"@ } else { "image"@ }) + ": "@ + url + "]  →  'o' to open"@
}

/// The style of the media placeholder: dark gray italics.
pub open spec fn media_style() -> TextStyle {
    TextStyle { italic: true, ..fg_style(Tone::DarkGray) }
}

/// The heading marker shown before a heading's text.
pub open spec fn heading_prefix(level: u8) -> Seq<char> {
    if level == 1 {
        "# "@
    } else if level == 2 {
        "## "@
    } else if level == 3 {
        "### "@
    } else {
        seq![]
    }
}

/// The marker of a list item: two spaces per level of nesting below the first,
/// then the item's number and a dot in an ordered list, a bullet otherwise.
pub open spec fn item_marker(m: MdModel) -> Seq<char> {
    let indent = repeat_seq("  "@, (if m.depth > 0 { m.depth - 1 } else { 0 }) as nat);
    let is_ordered = m.ordered.len() > 0 && m.ordered.last();
    if is_ordered {
        let n = if m.counters.len() > 0 { m.counters.last() } else { 1 };
        indent + decimal(n as nat) + ". "@
    } else {
        indent + "• "@
    }
}

/// The start of an element.
pub open spec fn md_start(m: MdModel, s: MdStart) -> MdModel {
    match s {
        MdStart::Heading(level) => {
            let m1 = MdModel { heading: level, ..md_flush_pending(m) };
            let p = heading_prefix(level);
            if p.len() > 0 {
                md_add(m1, (p, md_style(m1)))
            } else {
                m1
            }
        },
        MdStart::Strong => MdModel { bold: true, ..m },
        MdStart::Emphasis => MdModel { italic: true, ..m },
        MdStart::Strikethrough => MdModel { strike: true, ..m },
        MdStart::CodeBlock => MdModel { in_code: true, ..md_flush_pending(m) },
        MdStart::BlockQuote => MdModel { in_quote: true, ..m },
        MdStart::List(first) => MdModel {
            depth: m.depth + 1,
            ordered: m.ordered.push(first is Some),
            counters: m.counters.push(
                match first {
                    Some(n) => n as int,
                    None => 1,
                },
            ),
            ..m
        },
        MdStart::Item => {
            let m1 = md_flush_pending(m);
            let is_ordered = m1.ordered.len() > 0 && m1.ordered.last();
            let m2 = md_add(m1, (item_marker(m1), fg_style(Tone::DarkGray)));
            if is_ordered && m1.counters.len() > 0 {
                MdModel {
                    counters: m2.counters.update(
                        m2.counters.len() - 1,
                        m2.counters.last() + 1,
                    ),
                    ..m2
                }
            } else {
                m2
            }
        },
        MdStart::Link => md_add(
            m,
            (seq![], TextStyle { underlined: true, ..fg_style(Tone::Blue) }),
        ),
        MdStart::Table => md_flush_pending(m),
        MdStart::TableCell => md_add(m, (" │ "@, fg_style(Tone::DarkGray))),
        _ => m,
    }
}

/// The start of an image.
pub open spec fn md_image(m: MdModel, url: Seq<char>) -> MdModel {
    let m1 = md_add(MdModel { in_image: true, ..m }, (media_label(url), media_style()));
    md_flush(MdModel { media: m1.media.push(url), ..m1 })
}

/// The end of an element.
pub open spec fn md_end(m: MdModel, e: MdEnd) -> MdModel {
    match e {
        MdEnd::Heading => md_emit(md_flush(MdModel { heading: 0, ..m }), seq![]),
        MdEnd::Paragraph => md_blank(m),
        MdEnd::Strong => MdModel { bold: false, ..m },
        MdEnd::Emphasis => MdModel { italic: false, ..m },
        MdEnd::Strikethrough => MdModel { strike: false, ..m },
        MdEnd::CodeBlock => md_emit(MdModel { in_code: false, ..m }, seq![]),
        MdEnd::BlockQuote => MdModel { in_quote: false, ..m },
        MdEnd::List => {
            let m1 = MdModel {
                depth: m.depth - 1,
                ordered: if m.ordered.len() > 0 { m.ordered.drop_last() } else { m.ordered },
                counters: if m.counters.len() > 0 { m.counters.drop_last() } else { m.counters },
                ..m
            };
            if m1.depth == 0 {
                md_emit(m1, seq![])
            } else {
                m1
            }
        },
        MdEnd::Item => md_flush_pending(m),
        MdEnd::Image => MdModel { in_image: false, ..m },
        MdEnd::TableHead => md_emit(md_flush_pending(m), rule_line()),
        MdEnd::TableRow => md_flush_pending(m),
        MdEnd::Table => md_emit(m, seq![]),
        _ => m,
    }
}

/// Closing a list leaves one level of nesting: the innermost list's kind
/// and item counter go, a blank line follows only the outermost list, and
/// the line being built and everything else stay.
pub proof fn lemma_list_end(m: MdModel)
    requires
        m.depth >= 1,
        m.ordered.len() == m.depth,
        m.counters.len() == m.depth,
    ensures
        ({
            let n = md_end(m, MdEnd::List);
            &&& n.depth == m.depth - 1
            &&& n.ordered == m.ordered.drop_last()
            &&& n.counters == m.counters.drop_last()
            &&& n.ordered.len() == n.depth && n.counters.len() == n.depth
            &&& n.lines == (if m.depth == 1 {
                m.lines.push(seq![])
            } else {
                m.lines
            })
            &&& n == MdModel { depth: n.depth, ordered: n.ordered, counters: n.counters, lines: n.lines, ..m }
        }),
{
}

/// The end of a table row ends the line being built: the row, when it holds
/// anything, becomes a line of its own after the lines so far, and the next
/// row starts on an empty line.
pub proof fn lemma_table_row_ends_line(m: MdModel)
    ensures
        md_end(m, MdEnd::TableRow).pending.len() == 0,
        md_end(m, MdEnd::TableRow).lines == (if m.pending.len() > 0 {
            m.lines.push(m.pending)
        } else {
            m.lines
        }),
        md_end(m, MdEnd::TableRow).media == m.media,
{
}

/// One event.
pub open spec fn md_step(m: MdModel, e: MdEventView) -> MdModel {
    match e {
        MdEventView::Start(s) => md_start(m, s),
        MdEventView::ImageStart(url) => md_image(m, url),
        MdEventView::End(x) => md_end(m, x),
        MdEventView::Text(t) => md_text(m, t),
        MdEventView::Code(t) => md_add(m, ("`"@ + t + "`"@, fg_style(Tone::Yellow))),
        MdEventView::SoftBreak => md_push(m, " "@),
        MdEventView::HardBreak => md_flush_pending(m),
        MdEventView::Rule => md_emit(md_emit(md_flush_pending(m), rule_line()), seq![]),
        MdEventView::TaskListMarker(checked) => md_push(
            m,
            if checked {
                "☑ "@
            } else {
                "☐ "@
            },
        ),
        MdEventView::Other => m,
    }
}

/// The state after a sequence of events.
pub open spec fn md_run(m: MdModel, es: Seq<MdEventView>) -> MdModel
    decreases es.len(),
{
    if es.len() == 0 {
        m
    } else {
        md_step(md_run(m, es.drop_last()), es.last())
    }
}

/// The rendered lines and media URLs of a sequence of events.
pub open spec fn md_render(es: Seq<MdEventView>) -> (Seq<Seq<SpanView>>, Seq<Seq<char>>) {
    let m = md_flush_pending(md_run(md_initial(), es));
    (m.lines, m.media)
}

/// The links of the images among the events, in order.
pub open spec fn image_urls(es: Seq<MdEventView>) -> Seq<Seq<char>>
    decreases es.len(),
{
    if es.len() == 0 {
        seq![]
    } else {
        image_urls(es.drop_last()) + match es.last() {
            MdEventView::ImageStart(url) => seq![url],
            _ => Seq::<Seq<char>>::empty(),
        }
    }
}

proof fn lemma_code_lines_media(m: MdModel, ls: Seq<Seq<char>>)
    ensures
        md_code_lines(m, ls).media == m.media,
    decreases ls.len(),
{
    if ls.len() > 0 {
        lemma_code_lines_media(m, ls.drop_last());
    }
}

proof fn lemma_quote_lines_media(m: MdModel, ls: Seq<Seq<char>>)
    ensures
        md_quote_lines(m, ls).media == m.media,
    decreases ls.len(),
{
    if ls.len() > 0 {
        lemma_quote_lines_media(m, ls.drop_last());
    }
}

proof fn lemma_pieces_media(m: MdModel, ps: Seq<Seq<char>>)
    ensures
        md_pieces(m, ps).media == m.media,
    decreases ps.len(),
{
    if ps.len() > 1 {
        lemma_pieces_media(m, ps.drop_last());
    }
}

proof fn lemma_step_media(m: MdModel, e: MdEventView)
    ensures
        md_step(m, e).media == m.media + match e {
            MdEventView::ImageStart(url) => seq![url],
            _ => Seq::<Seq<char>>::empty(),
        },
{
    match e {
        MdEventView::Text(t) => {
            lemma_code_lines_media(m, lines_of(t));
            lemma_quote_lines_media(m, lines_of(t));
            lemma_pieces_media(m, split_on(t, '\n'));
            assert(md_step(m, e).media =~= m.media + Seq::<Seq<char>>::empty());
        },
        MdEventView::ImageStart(url) => {
            assert(md_step(m, e).media =~= m.media + seq![url]);
        },
        _ => {
            assert(md_step(m, e).media =~= m.media + Seq::<Seq<char>>::empty());
        },
    }
}

proof fn lemma_run_media(es: Seq<MdEventView>)
    ensures
        md_run(md_initial(), es).media == image_urls(es),
    decreases es.len(),
{
    if es.len() == 0 {
        assert(md_initial().media =~= image_urls(es));
    } else {
        lemma_run_media(es.drop_last());
        lemma_step_media(md_run(md_initial(), es.drop_last()), es.last());
    }
}

/// The media URLs a rendering lists are the links of the images in the
/// text, each once per image, in the order they appear.
pub proof fn lemma_media_are_images(es: Seq<MdEventView>)
    ensures
        md_render(es).1 == image_urls(es),
{
    lemma_run_media(es);
}

/// The nesting depth of lists after `es`: starts minus ends.
pub open spec fn list_depth(es: Seq<MdEventView>) -> int
    decreases es.len(),
{
    if es.len() == 0 {
        0
    } else {
        list_depth(es.drop_last()) + match es.last() {
            MdEventView::Start(MdStart::List(_)) => 1int,
            MdEventView::End(MdEnd::List) => -1int,
            _ => 0int,
        }
    }
}

/// What the renderer needs of its events: every list end closes an open list,
/// ordered lists start below 1,000,000,000, and there are fewer than 2^63 events.
pub open spec fn md_events_ok(es: Seq<MdEventView>) -> bool {
    &&& es.len() < 0x8000_0000_0000_0000
    &&& forall|k: int|
        0 <= k < es.len() && (#[trigger] es[k] matches MdEventView::End(MdEnd::List)) ==> list_depth(
            es.take(k),
        ) > 0
    &&& forall|k: int|
        0 <= k < es.len() ==> match #[trigger] es[k] {
            MdEventView::Start(MdStart::List(Some(n))) => n < 1_000_000_000,
            _ => true,
        }
}

} // verus!

verus! {

/// How an event changes the list nesting depth.
pub open spec fn list_delta(e: MdEventView) -> int {
    match e {
        MdEventView::Start(MdStart::List(_)) => 1int,
        MdEventView::End(MdEnd::List) => -1int,
        _ => 0int,
    }
}

/// Every counter is at most `b`.
pub open spec fn counters_below(c: Seq<u64>, b: int) -> bool {
    forall|j: int| 0 <= j < c.len() ==> c[j] <= b
}

/// `n` copies of `s`.
pub fn repeated(s: &str, n: usize) -> (r: String)
    ensures
        r@ == repeat_seq(s@, n as nat),
{
    let mut r = String::new();
    let mut i: usize = 0;
    while i < n
        invariant
            i <= n,
            r@ == repeat_seq(s@, i as nat),
        decreases n - i,
    {
        push_str(&mut r, s);
        i = i + 1;
    }
    r
}

/// `str::ends_with` applied to the lower-case form of a URL: whether it names a video.
pub fn is_video(url: &str) -> (r: bool)
    ensures
        r == video_url(url@),
{
    let l = to_lower(url);
    ends_with(l.as_str(), ".mp4") || ends_with(l.as_str(), ".mov") || ends_with(l.as_str(), ".webm")
        || ends_with(l.as_str(), ".avi")
}

struct Renderer {
    lines: Vec<StyledLine>,
    media_urls: Vec<String>,
    pending: StyledLine,
    bold: bool,
    italic: bool,
    strikethrough: bool,
    heading: u8,
    in_image: bool,
    in_code_block: bool,
    in_blockquote: bool,
    list_depth: usize,
    ordered: Vec<bool>,
    item_counter: Vec<u64>,
}

impl Renderer {
    spec fn model(&self) -> MdModel {
        MdModel {
            lines: self.lines.deep_view(),
            media: self.media_urls.deep_view(),
            pending: self.pending.deep_view(),
            bold: self.bold,
            italic: self.italic,
            strike: self.strikethrough,
            heading: self.heading,
            in_image: self.in_image,
            in_code: self.in_code_block,
            in_quote: self.in_blockquote,
            depth: self.list_depth as int,
            ordered: self.ordered@,
            counters: self.item_counter@.map_values(|c: u64| c as int),
        }
    }

    spec fn same_lists(&self, other: &Renderer) -> bool {
        &&& self.list_depth == other.list_depth
        &&& self.ordered@ == other.ordered@
        &&& self.item_counter@ == other.item_counter@
    }

    fn new() -> (r: Renderer)
        ensures
            r.model() == md_initial(),
            r.list_depth == 0,
            r.item_counter@.len() == 0,
    {
        let r = Renderer {
            lines: Vec::new(),
            media_urls: Vec::new(),
            pending: Vec::new(),
            bold: false,
            italic: false,
            strikethrough: false,
            heading: 0,
            in_image: false,
            in_code_block: false,
            in_blockquote: false,
            list_depth: 0,
            ordered: Vec::new(),
            item_counter: Vec::new(),
        };
        assert(r.model() =~= md_initial());
        r
    }

    fn style(&self) -> (s: TextStyle)
        ensures
            s == md_style(self.model()),
    {
        let fg = if self.heading > 0 {
            if self.heading <= 2 {
                Tone::Cyan
            } else {
                Tone::Blue
            }
        } else {
            Tone::Default
        };
        TextStyle {
            fg,
            bold: self.heading > 0 || self.bold,
            italic: self.italic,
            crossed_out: self.strikethrough,
            underlined: false,
        }
    }

    fn add(&mut self, s: StyledSpan)
        ensures
            final(self).model() == md_add(old(self).model(), s.deep_view()),
            final(self).same_lists(old(self)),
    {
        push_span(&mut self.pending, s);
        assert(self.model() =~= md_add(old(self).model(), s.deep_view()));
    }

    fn push(&mut self, text: String)
        ensures
            final(self).model() == md_push(old(self).model(), text@),
            final(self).same_lists(old(self)),
    {
        if text.as_str().is_empty() {
            return;
        }
        let s = self.style();
        self.add(StyledSpan { text, style: s });
    }

    fn flush(&mut self)
        ensures
            final(self).model() == md_flush(old(self).model()),
            final(self).same_lists(old(self)),
    {
        let mut spans: StyledLine = Vec::new();
        std::mem::swap(&mut spans, &mut self.pending);
        push_line(&mut self.lines, spans);
        assert(self.model() =~= md_flush(old(self).model()));
    }

    fn flush_pending(&mut self)
        ensures
            final(self).model() == md_flush_pending(old(self).model()),
            final(self).same_lists(old(self)),
    {
        if self.pending.len() > 0 {
            self.flush();
        }
    }

    fn emit(&mut self, line: StyledLine)
        ensures
            final(self).model() == md_emit(old(self).model(), line.deep_view()),
            final(self).same_lists(old(self)),
    {
        push_line(&mut self.lines, line);
        assert(self.model() =~= md_emit(old(self).model(), line.deep_view()));
    }

    fn blank(&mut self)
        ensures
            final(self).model() == md_blank(old(self).model()),
            final(self).same_lists(old(self)),
    {
        self.flush_pending();
        self.emit(empty_line());
    }

    fn rule(&mut self)
        ensures
            final(self).model() == md_emit(old(self).model(), rule_line()),
            final(self).same_lists(old(self)),
    {
        let dashes = repeated("─", 60);
        let mut line: StyledLine = Vec::new();
        push_span(&mut line, StyledSpan { text: dashes, style: fg(Tone::DarkGray) });
        assert(line.deep_view() =~= rule_line());
        self.emit(line);
    }
}

} // verus!

verus! {

impl Renderer {
    fn text(&mut self, text: &String)
        ensures
            final(self).model() == md_text(old(self).model(), text@),
            final(self).same_lists(old(self)),
    {
        if self.in_image {
            return;
        }
        let ghost m0 = self.model();
        if self.in_code_block || self.in_blockquote {
            let ls = lines(text.as_str());
            let ghost lv = ls@.map_values(|x: String| x@);
            let code = self.in_code_block;
            let mut i: usize = 0;
            while i < ls.len()
                invariant
                    i <= ls@.len(),
                    lv == ls@.map_values(|x: String| x@),
                    lv == lines_of(text@),
                    code == m0.in_code,
                    self.same_lists(old(self)),
                    code ==> self.model() == md_code_lines(m0, lv.take(i as int)),
                    !code ==> self.model() == md_quote_lines(m0, lv.take(i as int)),
                decreases ls.len() - i,
            {
                assert(lv.take(i + 1).drop_last() =~= lv.take(i as int));
                if code {
                    let mut s = String::new();
                    push_str(&mut s, "  ");
                    push_str(&mut s, ls[i].as_str());
                    self.add(StyledSpan { text: s, style: fg(Tone::Yellow) });
                } else {
                    self.add(span("│ ", fg(Tone::DarkGray)));
                    let mut s = String::new();
                    push_str(&mut s, ls[i].as_str());
                    assert(s@ =~= lv[i as int]);
                    self.push(s);
                }
                self.flush();
                i = i + 1;
            }
            assert(lv.take(i as int) =~= lv);
            return;
        }
        let ps = split_char(text.as_str(), '\n');
        let ghost pv = ps@.map_values(|x: String| x@);
        let mut i: usize = 0;
        while i < ps.len()
            invariant
                i <= ps@.len(),
                pv == ps@.map_values(|x: String| x@),
                pv == split_on(text@, '\n'),
                self.same_lists(old(self)),
                self.model() == md_pieces(m0, pv.take(i as int)),
            decreases ps.len() - i,
        {
            assert(pv.take(i + 1).drop_last() =~= pv.take(i as int));
            if i > 0 {
                self.flush_pending();
            } else {
                assert(pv.take(1)[0] == pv[0]);
            }
            let mut s = String::new();
            push_str(&mut s, ps[i].as_str());
            assert(s@ =~= pv[i as int]);
            self.push(s);
            i = i + 1;
        }
        assert(pv.take(i as int) =~= pv);
    }
}

} // verus!

verus! {

impl Renderer {
    fn start(&mut self, tag: MdStart, Ghost(bound): Ghost<int>)
        requires
            counters_below(old(self).item_counter@, bound),
            1 <= bound,
            bound + 1 < u64::MAX,
            old(self).list_depth < usize::MAX,
            old(self).model().depth == old(self).list_depth as int,
            tag matches MdStart::List(Some(n)) ==> n <= bound,
        ensures
            final(self).model() == md_start(old(self).model(), tag),
            counters_below(final(self).item_counter@, bound + 1),
            final(self).list_depth == old(self).list_depth + list_delta(MdEventView::Start(tag)),
    {
        match tag {
            MdStart::Heading(level) => {
                self.flush_pending();
                self.heading = level;
                let prefix = if level == 1 {
                    "# "
                } else if level == 2 {
                    "## "
                } else if level == 3 {
                    "### "
                } else {
                    ""
                };
                assert(prefix@ == heading_prefix(level)) by {
                    reveal_strlit("");
                }
                if !prefix.is_empty() {
                    let s = self.style();
                    self.add(span(prefix, s));
                }
            },
            MdStart::Strong => {
                self.bold = true;
            },
            MdStart::Emphasis => {
                self.italic = true;
            },
            MdStart::Strikethrough => {
                self.strikethrough = true;
            },
            MdStart::CodeBlock => {
                self.flush_pending();
                self.in_code_block = true;
            },
            MdStart::BlockQuote => {
                self.in_blockquote = true;
            },
            MdStart::List(first) => {
                self.list_depth = self.list_depth + 1;
                self.ordered.push(first.is_some());
                let n = match first {
                    Some(n) => n,
                    None => 1,
                };
                self.item_counter.push(n);
                assert(self.item_counter@.map_values(|c: u64| c as int) =~= old(
                    self,
                ).item_counter@.map_values(|c: u64| c as int).push(n as int));
                assert(counters_below(self.item_counter@, bound + 1));
            },
            MdStart::Item => {
                self.flush_pending();
                let ghost m1 = self.model();
                let depth = if self.list_depth > 0 {
                    self.list_depth - 1
                } else {
                    0
                };
                let mut bullet = repeated("  ", depth);
                let olen = self.ordered.len();
                let is_ordered = olen > 0 && self.ordered[olen - 1];
                if is_ordered {
                    let clen = self.item_counter.len();
                    let n = if clen > 0 {
                        let v = self.item_counter[clen - 1];
                        self.item_counter.set(clen - 1, v + 1);
                        v
                    } else {
                        1
                    };
                    let digits = decimal_string(n);
                    push_str(&mut bullet, digits.as_str());
                    push_str(&mut bullet, ". ");
                } else {
                    push_str(&mut bullet, "• ");
                }
                let ghost before = self.item_counter@;
                self.add(StyledSpan { text: bullet, style: fg(Tone::DarkGray) });
                proof {
                    assert(counters_below(self.item_counter@, bound + 1));
                    assert(bullet@ == item_marker(m1));
                    assert(self.model() =~= md_start(old(self).model(), tag));
                }
            },
            MdStart::Link => {
                self.add(StyledSpan {
                    text: String::new(),
                    style: TextStyle {
                        fg: Tone::Blue,
                        bold: false,
                        italic: false,
                        crossed_out: false,
                        underlined: true,
                    },
                });
            },
            MdStart::Table => {
                self.flush_pending();
            },
            MdStart::TableCell => {
                self.add(span(" │ ", fg(Tone::DarkGray)));
            },
            _ => {},
        }
        assert(self.model() =~= md_start(old(self).model(), tag));
    }
}

} // verus!

verus! {

impl Renderer {
    fn end(&mut self, tag: MdEnd)
        requires
            tag == MdEnd::List ==> old(self).list_depth > 0,
            old(self).model().depth == old(self).list_depth as int,
        ensures
            final(self).model() == md_end(old(self).model(), tag),
            forall|b: int|
                counters_below(old(self).item_counter@, b) ==> counters_below(
                    final(self).item_counter@,
                    b,
                ),
            final(self).list_depth == old(self).list_depth + list_delta(MdEventView::End(tag)),
    {
        match tag {
            MdEnd::Heading => {
                self.heading = 0;
                self.flush();
                self.emit(empty_line());
            },
            MdEnd::Paragraph => {
                self.blank();
            },
            MdEnd::Strong => {
                self.bold = false;
            },
            MdEnd::Emphasis => {
                self.italic = false;
            },
            MdEnd::Strikethrough => {
                self.strikethrough = false;
            },
            MdEnd::CodeBlock => {
                self.in_code_block = false;
                self.emit(empty_line());
            },
            MdEnd::BlockQuote => {
                self.in_blockquote = false;
            },
            MdEnd::List => {
                self.list_depth = self.list_depth - 1;
                self.ordered.pop();
                self.item_counter.pop();
                proof {
                    if old(self).item_counter@.len() > 0 {
                        assert(self.item_counter@ =~= old(self).item_counter@.drop_last());
                    }
                    assert(self.item_counter@.map_values(|c: u64| c as int) =~= (if old(
                        self,
                    ).item_counter@.len() > 0 {
                        old(self).item_counter@.map_values(|c: u64| c as int).drop_last()
                    } else {
                        old(self).item_counter@.map_values(|c: u64| c as int)
                    }));
                }
                if self.list_depth == 0 {
                    self.emit(empty_line());
                }
            },
            MdEnd::Item => {
                self.flush_pending();
            },
            MdEnd::Image => {
                self.in_image = false;
            },
            MdEnd::TableHead => {
                self.flush_pending();
                self.rule();
            },
            MdEnd::TableRow => {
                self.flush_pending();
            },
            MdEnd::Table => {
                self.emit(empty_line());
            },
            _ => {},
        }
        assert(self.model() =~= md_end(old(self).model(), tag));
    }

    fn image(&mut self, url: &String)
        ensures
            final(self).model() == md_image(old(self).model(), url@),
            final(self).same_lists(old(self)),
    {
        self.in_image = true;
        let kind = if is_video(url.as_str()) {
            "video"
        } else {
            "image"
        };
        let mut label = String::new();
        push_str(&mut label, "[");
        push_str(&mut label, kind);
        push_str(&mut label, ": ");
        push_str(&mut label, url.as_str());
        push_str(&mut label, "]  →  'o' to open");
        self.add(StyledSpan {
            text: label,
            style: TextStyle {
                fg: Tone::DarkGray,
                bold: false,
                italic: true,
                crossed_out: false,
                underlined: false,
            },
        });
        let copy = url.clone();
        self.media_urls.push(copy);
        assert(self.media_urls.deep_view() =~= old(self).media_urls.deep_view().push(url@));
        let ghost m1 = self.model();
        self.flush();
        assert(m1 =~= MdModel { media: m1.media, ..md_add(MdModel { in_image: true, ..old(self).model() }, (media_label(url@), media_style())) });
    }

    fn event(&mut self, e: &MdEvent, Ghost(bound): Ghost<int>)
        requires
            counters_below(old(self).item_counter@, bound),
            1 <= bound,
            bound + 1 < u64::MAX,
            old(self).list_depth < usize::MAX,
            old(self).model().depth == old(self).list_depth as int,
            e.deep_view() == MdEventView::End(MdEnd::List) ==> old(self).list_depth > 0,
            e.deep_view() matches MdEventView::Start(MdStart::List(Some(n))) ==> n <= bound,
        ensures
            final(self).model() == md_step(old(self).model(), e.deep_view()),
            counters_below(final(self).item_counter@, bound + 1),
            final(self).list_depth == old(self).list_depth + list_delta(e.deep_view()),
    {
        match e {
            MdEvent::Start(tag) => self.start(*tag, Ghost(bound)),
            MdEvent::ImageStart(url) => self.image(url),
            MdEvent::End(tag) => self.end(*tag),
            MdEvent::Text(t) => self.text(t),
            MdEvent::Code(t) => {
                let mut s = String::new();
                push_str(&mut s, "`");
                push_str(&mut s, t.as_str());
                push_str(&mut s, "`");
                self.add(StyledSpan { text: s, style: fg(Tone::Yellow) });
            },
            MdEvent::SoftBreak => {
                let mut s = String::new();
                push_str(&mut s, " ");
                self.push(s);
            },
            MdEvent::HardBreak => self.flush_pending(),
            MdEvent::Rule => {
                self.flush_pending();
                self.rule();
                self.emit(empty_line());
            },
            MdEvent::TaskListMarker(checked) => {
                let mut s = String::new();
                if *checked {
                    push_str(&mut s, "☑ ");
                } else {
                    push_str(&mut s, "☐ ");
                }
                self.push(s);
            },
            MdEvent::Other => {},
        }
        assert(counters_below(self.item_counter@, bound + 1));
    }
}

} // verus!

verus! {

/// Runs the renderer over a sequence of events and returns the lines and the
/// media URLs, in order.
pub fn render_events(events: &Vec<MdEvent>) -> (r: (Vec<StyledLine>, Vec<String>))
    requires
        md_events_ok(events.deep_view()),
    ensures
        (r.0.deep_view(), r.1.deep_view()) == md_render(events.deep_view()),
{
    let ghost ev = events.deep_view();
    let mut r = Renderer::new();
    let mut i: usize = 0;
    while i < events.len()
        invariant
            i <= events@.len(),
            ev == events.deep_view(),
            md_events_ok(ev),
            r.model() == md_run(md_initial(), ev.take(i as int)),
            r.list_depth as int == list_depth(ev.take(i as int)),
            r.list_depth <= i,
            counters_below(r.item_counter@, 1_000_000_000 + i),
        decreases events.len() - i,
    {
        proof {
            assert(ev.take(i + 1).drop_last() =~= ev.take(i as int));
            assert(ev.take(i + 1).last() == ev[i as int]);
            assert(ev[i as int] == events@[i as int].deep_view());
        }
        r.event(&events[i], Ghost(1_000_000_000 + i));
        i = i + 1;
    }
    assert(ev.take(i as int) =~= ev);
    r.flush_pending();
    (r.lines, r.media_urls)
}

} // verus!

verus! {

#[verifier::external_type_specification]
#[verifier::external_body]
pub struct ExTag<'a>(Tag<'a>);

#[verifier::external_type_specification]
#[verifier::external_body]
pub struct ExTagEnd(TagEnd);

/// The events that `pulldown_cmark::Parser::new_ext` yields for a text, with
/// strikethrough, tables and task lists enabled, as `MdEvent` values.
pub uninterp spec fn markdown_events(text: Seq<char>) -> Seq<MdEventView>;

/// `pulldown_cmark::Tag` as the renderer tells it apart (the start of an image
/// is taken apart by `parse_markdown` itself).
#[verifier::external_body]
fn start_of(tag: Tag) -> MdStart {
    match tag {
        Tag::Paragraph => MdStart::Paragraph,
        Tag::Heading { level, .. } => MdStart::Heading(level as u8),
        Tag::BlockQuote(_) => MdStart::BlockQuote,
        Tag::CodeBlock(_) => MdStart::CodeBlock,
        Tag::List(first) => MdStart::List(first),
        Tag::Item => MdStart::Item,
        Tag::Table(_) => MdStart::Table,
        Tag::TableHead => MdStart::TableHead,
        Tag::TableRow => MdStart::TableRow,
        Tag::TableCell => MdStart::TableCell,
        Tag::Emphasis => MdStart::Emphasis, Tag::Strong => MdStart::Strong,
        Tag::Strikethrough => MdStart::Strikethrough,
        Tag::Link { .. } => MdStart::Link, _ => MdStart::Other,
    }
}

/// `pulldown_cmark::TagEnd` as the renderer tells it apart.
#[verifier::external_body]
fn end_of(tag: TagEnd) -> MdEnd {
    match tag {
        TagEnd::Paragraph => MdEnd::Paragraph, TagEnd::Heading(_) => MdEnd::Heading,
        TagEnd::BlockQuote(_) => MdEnd::BlockQuote, TagEnd::CodeBlock => MdEnd::CodeBlock,
        TagEnd::List(_) => MdEnd::List, TagEnd::Item => MdEnd::Item,
        TagEnd::Table => MdEnd::Table, TagEnd::TableHead => MdEnd::TableHead,
        TagEnd::TableRow => MdEnd::TableRow, TagEnd::TableCell => MdEnd::TableCell,
        TagEnd::Emphasis => MdEnd::Emphasis, TagEnd::Strong => MdEnd::Strong,
        TagEnd::Strikethrough => MdEnd::Strikethrough, TagEnd::Link => MdEnd::Link,
        TagEnd::Image => MdEnd::Image, _ => MdEnd::Other,
    }
}

/// `pulldown_cmark::Parser::new_ext` over `text` with strikethrough, tables and
/// task lists, each event taken as an `MdEvent`. Claimed of the result: it is
/// `markdown_events(text@)`; its start and end events are balanced (the crate's
/// documentation of `Event::Start` guarantees it), so no list ends before it
/// starts; the start number of an ordered list has at most nine digits (the
/// list item scanner reads at most nine); and a vector holds fewer than 2^63
/// events.
#[verifier::external_body]
fn parse_markdown(text: &str) -> (r: Vec<MdEvent>)
    ensures
        r.deep_view() == markdown_events(text@),
        md_events_ok(r.deep_view()),
{
    let opts = Options::ENABLE_STRIKETHROUGH | Options::ENABLE_TABLES | Options::ENABLE_TASKLISTS;
    let mut out = Vec::new();
    for event in Parser::new_ext(text, opts) {
        out.push(match event {
            Event::Start(Tag::Image { dest_url, .. }) => MdEvent::ImageStart(dest_url.to_string()),
            Event::Start(tag) => MdEvent::Start(start_of(tag)),
            Event::End(tag) => MdEvent::End(end_of(tag)),
            Event::Text(t) => MdEvent::Text(t.to_string()),
            Event::Code(t) => MdEvent::Code(t.to_string()),
            Event::SoftBreak => MdEvent::SoftBreak, Event::HardBreak => MdEvent::HardBreak,
            Event::Rule => MdEvent::Rule,
            Event::TaskListMarker(checked) => MdEvent::TaskListMarker(checked), _ => MdEvent::Other,
        });
    }
    out
}

/// Parses markdown text and renders it into styled lines, with the image and
/// video URLs found in it, in order.
pub fn render(text: &str) -> (r: (Vec<StyledLine>, Vec<String>))
    ensures
        (r.0.deep_view(), r.1.deep_view()) == md_render(markdown_events(text@)),
{
    let events = parse_markdown(text);
    render_events(&events)
}

} // verus!
