//! The structural events that the renderer consumes.

use vstd::prelude::*;

verus! {

/// Block-level constructs, opened by `Event::StartBlock` and closed by `Event::EndBlock`.
pub enum BlockKind {
    Paragraph,
    Rule,
    /// A heading of the given level (1 to 6).
    Heading(u8),
    BlockQuote,
    /// A fenced or indented code block, with its language annotation if any.
    CodeBlock(Option<String>),
    /// A list; `true` when it is ordered.
    List(bool),
    ListItem,
    /// A footnote definition with its label.
    FootnoteDefinition(String),
    /// A table with the given number of columns.
    Table(usize),
    TableHead,
    TableRow,
    TableCell,
}

/// Inline constructs, opened by `Event::StartInline` and closed by `Event::EndInline`.
pub enum InlineKind {
    Emphasis,
    Strong,
    InlineCode,
    /// A hyperlink to the given destination.
    Link(String),
    /// An image at the given destination.
    Image(String),
}

/// One structural occurrence in a parsed document.
pub enum Event {
    StartBlock(BlockKind),
    EndBlock(BlockKind),
    StartInline(InlineKind),
    EndInline(InlineKind),
    /// A run of literal text; it is escaped on output.
    Text(String),
    /// Raw markup embedded in the source; it is never escaped.
    RawPassthrough(String),
    FootnoteReference(String),
    LineBreakSoft,
    LineBreakHard,
}

/// A construct that is open while its contents are rendered.
pub enum Construct {
    Block(BlockKind),
    Inline(InlineKind),
}

/// Two optional texts hold the same characters.
pub open spec fn same_opt_text(a: Option<String>, b: Option<String>) -> bool {
    match a {
        Some(x) => b is Some && b->Some_0@ == x@,
        None => b is None,
    }
}

/// Two block kinds are the same kind with the same data.
pub open spec fn same_block(a: BlockKind, b: BlockKind) -> bool {
    match a {
        BlockKind::Paragraph => b is Paragraph,
        BlockKind::Rule => b is Rule,
        BlockKind::Heading(x) => b is Heading && b->Heading_0 == x,
        BlockKind::BlockQuote => b is BlockQuote,
        BlockKind::CodeBlock(x) => b is CodeBlock && same_opt_text(x, b->CodeBlock_0),
        BlockKind::List(x) => b is List && b->List_0 == x,
        BlockKind::ListItem => b is ListItem,
        BlockKind::FootnoteDefinition(x) => b is FootnoteDefinition && b->FootnoteDefinition_0@
            == x@,
        BlockKind::Table(x) => b is Table && b->Table_0 == x,
        BlockKind::TableHead => b is TableHead,
        BlockKind::TableRow => b is TableRow,
        BlockKind::TableCell => b is TableCell,
    }
}

/// Two inline kinds are the same kind with the same data.
pub open spec fn same_inline(a: InlineKind, b: InlineKind) -> bool {
    match a {
        InlineKind::Emphasis => b is Emphasis,
        InlineKind::Strong => b is Strong,
        InlineKind::InlineCode => b is InlineCode,
        InlineKind::Link(x) => b is Link && b->Link_0@ == x@,
        InlineKind::Image(x) => b is Image && b->Image_0@ == x@,
    }
}

/// Two open constructs are the same.
pub open spec fn same_construct(a: Construct, b: Construct) -> bool {
    match a {
        Construct::Block(x) => b is Block && same_block(x, b->Block_0),
        Construct::Inline(x) => b is Inline && same_inline(x, b->Inline_0),
    }
}

impl BlockKind {
    /// A copy of this kind.
    pub fn duplicate(&self) -> (r: BlockKind)
        ensures
            r == *self,
    {
        match self {
            BlockKind::Paragraph => BlockKind::Paragraph,
            BlockKind::Rule => BlockKind::Rule,
            BlockKind::Heading(n) => BlockKind::Heading(*n),
            BlockKind::BlockQuote => BlockKind::BlockQuote,
            BlockKind::CodeBlock(lang) => match lang {
                Some(l) => BlockKind::CodeBlock(Some(l.clone())),
                None => BlockKind::CodeBlock(None),
            },
            BlockKind::List(ordered) => BlockKind::List(*ordered),
            BlockKind::ListItem => BlockKind::ListItem,
            BlockKind::FootnoteDefinition(label) => BlockKind::FootnoteDefinition(label.clone()),
            BlockKind::Table(n) => BlockKind::Table(*n),
            BlockKind::TableHead => BlockKind::TableHead,
            BlockKind::TableRow => BlockKind::TableRow,
            BlockKind::TableCell => BlockKind::TableCell,
        }
    }

    /// Whether `self` and `other` are the same kind with the same data.
    pub fn matches(&self, other: &BlockKind) -> (r: bool)
        ensures
            r == same_block(*self, *other),
    {
        match self {
            BlockKind::Paragraph => matches!(other, BlockKind::Paragraph),
            BlockKind::Rule => matches!(other, BlockKind::Rule),
            BlockKind::Heading(x) => match other {
                BlockKind::Heading(y) => *x == *y,
                _ => false,
            },
            BlockKind::BlockQuote => matches!(other, BlockKind::BlockQuote),
            BlockKind::CodeBlock(x) => match other {
                BlockKind::CodeBlock(y) => match (x, y) {
                    (Some(a), Some(b)) => *a == *b,
                    (None, None) => true,
                    _ => false,
                },
                _ => false,
            },
            BlockKind::List(x) => match other {
                BlockKind::List(y) => *x == *y,
                _ => false,
            },
            BlockKind::ListItem => matches!(other, BlockKind::ListItem),
            BlockKind::FootnoteDefinition(x) => match other {
                BlockKind::FootnoteDefinition(y) => *x == *y,
                _ => false,
            },
            BlockKind::Table(x) => match other {
                BlockKind::Table(y) => *x == *y,
                _ => false,
            },
            BlockKind::TableHead => matches!(other, BlockKind::TableHead),
            BlockKind::TableRow => matches!(other, BlockKind::TableRow),
            BlockKind::TableCell => matches!(other, BlockKind::TableCell),
        }
    }
}

impl InlineKind {
    /// A copy of this kind.
    pub fn duplicate(&self) -> (r: InlineKind)
        ensures
            r == *self,
    {
        match self {
            InlineKind::Emphasis => InlineKind::Emphasis,
            InlineKind::Strong => InlineKind::Strong,
            InlineKind::InlineCode => InlineKind::InlineCode,
            InlineKind::Link(dest) => InlineKind::Link(dest.clone()),
            InlineKind::Image(dest) => InlineKind::Image(dest.clone()),
        }
    }

    /// Whether `self` and `other` are the same kind with the same data.
    pub fn matches(&self, other: &InlineKind) -> (r: bool)
        ensures
            r == same_inline(*self, *other),
    {
        match self {
            InlineKind::Emphasis => matches!(other, InlineKind::Emphasis),
            InlineKind::Strong => matches!(other, InlineKind::Strong),
            InlineKind::InlineCode => matches!(other, InlineKind::InlineCode),
            InlineKind::Link(x) => match other {
                InlineKind::Link(y) => *x == *y,
                _ => false,
            },
            InlineKind::Image(x) => match other {
                InlineKind::Image(y) => *x == *y,
                _ => false,
            },
        }
    }
}

} // verus!
