//! The renderer: a stack-checked transducer from events to LaTeX fragments.

use vstd::prelude::*;
use vstd::string::StringExecFns;

use crate::escape::{escape, escape_seq};
use crate::event::{BlockKind, Construct, Event, InlineKind, same_construct};

verus! {

/// Why a stream of events could not be rendered.
#[derive(Debug, Clone, Copy, PartialEq, Eq, Structural)]
pub enum RenderError {
    /// An end event that does not close the innermost open construct, or a
    /// stream that ends with constructs still open.
    StructuralViolation,
}

/// The fragment that opens a block construct.
pub open spec fn open_block(k: BlockKind) -> Seq<char> {
    match k {
        BlockKind::Paragraph => "\n"@,
        BlockKind::Rule => "rule"@,
        BlockKind::Heading(_) => "\n\\section{"@,
        BlockKind::BlockQuote => "blockquote"@,
        BlockKind::CodeBlock(_) => "\n\\begin{lstlisting}\n"@,
        BlockKind::List(ordered) => if ordered {
            "\n\\begin{enumerate}\n"@
        } else {
            "\n\\begin{itemize}\n"@
        },
        BlockKind::ListItem => "\\item "@,
        BlockKind::FootnoteDefinition(_) => "footnote"@,
        BlockKind::Table(_) => "table"@,
        BlockKind::TableHead => "tablehead"@,
        BlockKind::TableRow => "tablerow"@,
        BlockKind::TableCell => "tablecell"@,
    }
}

/// The fragment that closes a block construct.
pub open spec fn close_block(k: BlockKind) -> Seq<char> {
    match k {
        BlockKind::Paragraph => "\n"@,
        BlockKind::Rule => "rule"@,
        BlockKind::Heading(_) => "}\n"@,
        BlockKind::BlockQuote => "blockquote"@,
        BlockKind::CodeBlock(_) => "\\end{lstlisting}\n"@,
        BlockKind::List(ordered) => if ordered {
            "\\end{enumerate}\n"@
        } else {
            "\\end{itemize}\n"@
        },
        BlockKind::ListItem => "\n"@,
        BlockKind::FootnoteDefinition(_) => "footnote"@,
        BlockKind::Table(_) => "table"@,
        BlockKind::TableHead => "tablehead"@,
        BlockKind::TableRow => "tablerow"@,
        BlockKind::TableCell => "tablecell"@,
    }
}

/// The fragment that opens an inline construct; a link destination is kept verbatim.
pub open spec fn open_inline(k: InlineKind) -> Seq<char> {
    match k {
        InlineKind::Emphasis => "\\textit{"@,
        InlineKind::Strong => "\\textbf{"@,
        InlineKind::InlineCode => "\\lstinline{"@,
        InlineKind::Link(dest) => "\\href{"@ + dest@ + "}{"@,
        InlineKind::Image(dest) => dest@,
    }
}

/// The fragment that closes an inline construct.
pub open spec fn close_inline(k: InlineKind) -> Seq<char> {
    match k {
        InlineKind::Image(dest) => dest@,
        _ => "}"@,
    }
}

/// The fragment that one event renders to.
pub open spec fn fragment(e: Event) -> Seq<char> {
    match e {
        Event::StartBlock(k) => open_block(k),
        Event::EndBlock(k) => close_block(k),
        Event::StartInline(k) => open_inline(k),
        Event::EndInline(k) => close_inline(k),
        Event::Text(s) => escape_seq(s@),
        Event::RawPassthrough(raw) => "\\url{"@ + raw@ + "}"@,
        Event::FootnoteReference(label) => label@,
        Event::LineBreakSoft => "\n"@,
        Event::LineBreakHard => "\n\\\\"@,
    }
}

/// The stack after closing `c`, if `c` is the innermost open construct.
pub open spec fn close(stack: Seq<Construct>, c: Construct) -> Option<Seq<Construct>> {
    if stack.len() > 0 && same_construct(stack.last(), c) {
        Some(stack.drop_last())
    } else {
        None
    }
}

/// The stack of open constructs after one event, or `None` where the event
/// closes something that is not open innermost.
pub open spec fn step(stack: Seq<Construct>, e: Event) -> Option<Seq<Construct>> {
    match e {
        Event::StartBlock(k) => Some(stack.push(Construct::Block(k))),
        Event::StartInline(k) => Some(stack.push(Construct::Inline(k))),
        Event::EndBlock(k) => close(stack, Construct::Block(k)),
        Event::EndInline(k) => close(stack, Construct::Inline(k)),
        _ => Some(stack),
    }
}

/// The stack after a whole sequence of events, or `None` at the first misplaced end.
pub open spec fn run(stack: Seq<Construct>, events: Seq<Event>) -> Option<Seq<Construct>>
    decreases events.len(),
{
    if events.len() == 0 {
        Some(stack)
    } else {
        match step(stack, events[0]) {
            Some(next) => run(next, events.drop_first()),
            None => None,
        }
    }
}

/// A stream that the renderer accepts: every end closes the innermost open
/// construct, and nothing is left open at the end.
pub open spec fn renders_cleanly(events: Seq<Event>) -> bool {
    &&& run(Seq::empty(), events) is Some
    &&& run(Seq::empty(), events)->Some_0.len() == 0
}

/// The three parts `a`, `b`, `c` joined.
fn join3(a: &str, b: &str, c: &str) -> (r: String)
    ensures
        r@ == a@ + b@ + c@,
{
    let mut r = String::from_str(a);
    r.append(b);
    r.append(c);
    r
}

/// The fragment that opens block `k`.
pub fn open_block_text(k: &BlockKind) -> (r: String)
    ensures
        r@ == open_block(*k),
{
    let s: &str = match k {
        BlockKind::Paragraph => "\n",
        BlockKind::Rule => "rule",
        BlockKind::Heading(_) => "\n\\section{",
        BlockKind::BlockQuote => "blockquote",
        BlockKind::CodeBlock(_) => "\n\\begin{lstlisting}\n",
        BlockKind::List(ordered) => if *ordered {
            "\n\\begin{enumerate}\n"
        } else {
            "\n\\begin{itemize}\n"
        },
        BlockKind::ListItem => "\\item ",
        BlockKind::FootnoteDefinition(_) => "footnote",
        BlockKind::Table(_) => "table",
        BlockKind::TableHead => "tablehead",
        BlockKind::TableRow => "tablerow",
        BlockKind::TableCell => "tablecell",
    };
    String::from_str(s)
}

/// The fragment that closes block `k`.
pub fn close_block_text(k: &BlockKind) -> (r: String)
    ensures
        r@ == close_block(*k),
{
    let s: &str = match k {
        BlockKind::Paragraph => "\n",
        BlockKind::Rule => "rule",
        BlockKind::Heading(_) => "}\n",
        BlockKind::BlockQuote => "blockquote",
        BlockKind::CodeBlock(_) => "\\end{lstlisting}\n",
        BlockKind::List(ordered) => if *ordered {
            "\\end{enumerate}\n"
        } else {
            "\\end{itemize}\n"
        },
        BlockKind::ListItem => "\n",
        BlockKind::FootnoteDefinition(_) => "footnote",
        BlockKind::Table(_) => "table",
        BlockKind::TableHead => "tablehead",
        BlockKind::TableRow => "tablerow",
        BlockKind::TableCell => "tablecell",
    };
    String::from_str(s)
}

/// The fragment that opens inline construct `k`.
pub fn open_inline_text(k: &InlineKind) -> (r: String)
    ensures
        r@ == open_inline(*k),
{
    match k {
        InlineKind::Emphasis => String::from_str("\\textit{"),
        InlineKind::Strong => String::from_str("\\textbf{"),
        InlineKind::InlineCode => String::from_str("\\lstinline{"),
        InlineKind::Link(dest) => join3("\\href{", dest.as_str(), "}{"),
        InlineKind::Image(dest) => String::from_str(dest.as_str()),
    }
}

/// The fragment that closes inline construct `k`.
pub fn close_inline_text(k: &InlineKind) -> (r: String)
    ensures
        r@ == close_inline(*k),
{
    match k {
        InlineKind::Image(dest) => String::from_str(dest.as_str()),
        _ => String::from_str("}"),
    }
}

/// The fragment that event `e` renders to, whatever is open around it.
pub fn fragment_text(e: &Event) -> (r: String)
    ensures
        r@ == fragment(*e),
{
    match e {
        Event::StartBlock(k) => open_block_text(k),
        Event::EndBlock(k) => close_block_text(k),
        Event::StartInline(k) => open_inline_text(k),
        Event::EndInline(k) => close_inline_text(k),
        Event::Text(s) => escape(s.as_str()),
        Event::RawPassthrough(raw) => join3("\\url{", raw.as_str(), "}"),
        Event::FootnoteReference(label) => String::from_str(label.as_str()),
        Event::LineBreakSoft => String::from_str("\n"),
        Event::LineBreakHard => String::from_str("\n\\\\"),
    }
}

/// Renders events one at a time, keeping the stack of open constructs.
pub struct Renderer {
    stack: Vec<Construct>,
}

impl Renderer {
    /// The constructs open now, outermost first.
    pub closed spec fn open_constructs(&self) -> Seq<Construct> {
        self.stack@
    }

    /// A renderer with nothing open.
    pub fn new() -> (r: Renderer)
        ensures
            r.open_constructs() == Seq::<Construct>::empty(),
    {
        Renderer { stack: Vec::new() }
    }

    /// How many constructs are open.
    pub fn depth(&self) -> (r: usize)
        ensures
            r == self.open_constructs().len(),
    {
        self.stack.len()
    }

    /// Renders one event: returns its fragment and opens or closes what it
    /// starts or ends. An end that does not match the innermost open
    /// construct is a structural violation, and leaves the stack as it was.
    pub fn render_event(&mut self, e: &Event) -> (r: Result<String, RenderError>)
        ensures
            match step(old(self).open_constructs(), *e) {
                Some(next) => {
                    &&& r is Ok
                    &&& r->Ok_0@ == fragment(*e)
                    &&& final(self).open_constructs() == next
                },
                None => {
                    &&& r == Err::<String, RenderError>(RenderError::StructuralViolation)
                    &&& final(self).open_constructs() == old(self).open_constructs()
                },
            },
    {
        match e {
            Event::StartBlock(k) => {
                self.stack.push(Construct::Block(k.duplicate()));
            },
            Event::StartInline(k) => {
                self.stack.push(Construct::Inline(k.duplicate()));
            },
            Event::EndBlock(k) => {
                let n = self.stack.len();
                let closes = n > 0 && match &self.stack[n - 1] {
                    Construct::Block(top) => top.matches(k),
                    Construct::Inline(_) => false,
                };
                if !closes {
                    return Err(RenderError::StructuralViolation);
                }
                self.stack.pop();
            },
            Event::EndInline(k) => {
                let n = self.stack.len();
                let closes = n > 0 && match &self.stack[n - 1] {
                    Construct::Inline(top) => top.matches(k),
                    Construct::Block(_) => false,
                };
                if !closes {
                    return Err(RenderError::StructuralViolation);
                }
                self.stack.pop();
            },
            _ => {},
        }
        Ok(fragment_text(e))
    }

    /// Ends the stream: a structural violation if anything is still open.
    pub fn finish(&self) -> (r: Result<(), RenderError>)
        ensures
            r is Ok <==> self.open_constructs().len() == 0,
            r is Err ==> r->Err_0 == RenderError::StructuralViolation,
    {
        if self.stack.len() == 0 {
            Ok(())
        } else {
            Err(RenderError::StructuralViolation)
        }
    }
}

/// Renders a whole stream of events: one fragment per event, in order, or a
/// structural violation where the stream is not properly nested.
pub fn render(events: &Vec<Event>) -> (r: Result<Vec<String>, RenderError>)
    ensures
        r is Ok <==> renders_cleanly(events@),
        r is Ok ==> r->Ok_0.len() == events.len() && forall|i: int|
            0 <= i < events.len() ==> (#[trigger] r->Ok_0[i])@ == fragment(events[i]),
        r is Err ==> r->Err_0 == RenderError::StructuralViolation,
{
    let mut renderer = Renderer::new();
    let mut out: Vec<String> = Vec::new();
    let mut i: usize = 0;
    proof {
        assert(events@.skip(0) == events@);
    }
    while i < events.len()
        invariant
            0 <= i <= events.len(),
            run(Seq::empty(), events@) == run(renderer.open_constructs(), events@.skip(i as int)),
            out.len() == i,
            forall|j: int| 0 <= j < i ==> (#[trigger] out[j])@ == fragment(events[j]),
        decreases events.len() - i,
    {
        proof {
            assert(events@.skip(i as int).drop_first() == events@.skip(i + 1));
        }
        match renderer.render_event(&events[i]) {
            Ok(f) => out.push(f),
            Err(e) => return Err(e),
        }
        i = i + 1;
    }
    proof {
        assert(events@.skip(i as int).len() == 0);
    }
    match renderer.finish() {
        Ok(()) => Ok(out),
        Err(e) => Err(e),
    }
}

} // verus!
