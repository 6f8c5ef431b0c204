//! What holds of the escaper and the renderer over all inputs.

use vstd::prelude::*;

use crate::escape::{escape_char, escape_seq, is_reserved};
use crate::event::{Construct, Event, same_block, same_inline};
use crate::render::{fragment, renders_cleanly, run, step};

verus! {

/// How many reserved characters `s` holds.
pub open spec fn reserved_count(s: Seq<char>) -> nat
    decreases s.len(),
{
    if s.len() == 0 {
        0
    } else {
        reserved_count(s.drop_last()) + if is_reserved(s.last()) {
            1nat
        } else {
            0nat
        }
    }
}

proof fn lemma_reserved_count_append(a: Seq<char>, b: Seq<char>)
    ensures
        reserved_count(a + b) == reserved_count(a) + reserved_count(b),
    decreases b.len(),
{
    if b.len() > 0 {
        assert((a + b).drop_last() =~= a + b.drop_last());
        lemma_reserved_count_append(a, b.drop_last());
    } else {
        assert(a + b =~= a);
    }
}

proof fn lemma_escape_char_counts(c: char)
    ensures
        reserved_count(escape_char(c)) == if is_reserved(c) {
            1nat
        } else {
            0nat
        },
        escape_char(c).len() >= 1,
{
    let e = escape_char(c);
    if is_reserved(c) {
        assert(e.drop_last() =~= seq!['\\']);
        lemma_no_reserved(e.drop_last());
        assert(reserved_count(e) == 1);
    } else {
        assert(e[0] == c);
        lemma_no_reserved(e);
    }
}

proof fn lemma_take_count_zero(e: Seq<char>, m: int)
    requires
        0 <= m <= e.len(),
        forall|k: int| 0 <= k < e.len() ==> !is_reserved(#[trigger] e[k]),
    ensures
        reserved_count(e.take(m)) == 0,
    decreases m,
{
    if m > 0 {
        assert(e.take(m).drop_last() =~= e.take(m - 1));
        lemma_take_count_zero(e, m - 1);
    }
}

proof fn lemma_no_reserved(e: Seq<char>)
    requires
        forall|k: int| 0 <= k < e.len() ==> !is_reserved(#[trigger] e[k]),
    ensures
        reserved_count(e) == 0,
{
    lemma_take_count_zero(e, e.len() as int);
    assert(e.take(e.len() as int) =~= e);
}

proof fn lemma_escape_counts(s: Seq<char>)
    ensures
        reserved_count(escape_seq(s)) == reserved_count(s),
        escape_seq(s).len() >= s.len() + reserved_count(s),
    decreases s.len(),
{
    if s.len() > 0 {
        lemma_escape_counts(s.drop_last());
        lemma_escape_char_counts(s.last());
        lemma_reserved_count_append(escape_seq(s.drop_last()), escape_char(s.last()));
        if is_reserved(s.last()) {
            assert(escape_char(s.last()).len() == 2);
        }
    }
}

proof fn lemma_some_reserved(s: Seq<char>, i: int)
    requires
        0 <= i < s.len(),
        is_reserved(s[i]),
    ensures
        reserved_count(s) > 0,
    decreases s.len(),
{
    if i < s.len() - 1 {
        lemma_some_reserved(s.drop_last(), i);
    }
}

/// Escaping is not idempotent: escaping a text that holds a reserved character
/// a second time changes it again, as each reserved character gains one more
/// backslash.
pub proof fn escape_twice_differs(s: Seq<char>)
    requires
        exists|i: int| 0 <= i < s.len() && is_reserved(#[trigger] s[i]),
    ensures
        escape_seq(escape_seq(s)) != escape_seq(s),
{
    let i = choose|i: int| 0 <= i < s.len() && is_reserved(#[trigger] s[i]);
    lemma_some_reserved(s, i);
    lemma_escape_counts(s);
    lemma_escape_counts(escape_seq(s));
}

/// Escaped text carries no bare reserved character: each `_` or `&` in the
/// output has a backslash just before it.
pub proof fn escape_leaves_no_bare_reserved(s: Seq<char>)
    ensures
        forall|i: int|
            0 <= i < escape_seq(s).len() && is_reserved(#[trigger] escape_seq(s)[i]) ==> 1 <= i
                && escape_seq(s)[i - 1] == '\\',
    decreases s.len(),
{
    if s.len() > 0 {
        escape_leaves_no_bare_reserved(s.drop_last());
        let p = escape_seq(s.drop_last());
        let e = escape_char(s.last());
        let out = escape_seq(s);
        assert(out == p + e);
        assert forall|i: int| 0 <= i < out.len() && is_reserved(#[trigger] out[i]) implies 1 <= i
            && out[i - 1] == '\\' by {
            if i < p.len() {
                assert(out[i] == p[i]);
            } else {
                assert(out[i] == e[i - p.len()]);
                assert(is_reserved(s.last()));
                assert(i == p.len() + 1);
            }
        }
    }
}

/// `close` is the end event that matches start event `open`.
pub open spec fn ends(open: Event, close: Event) -> bool {
    match open {
        Event::StartBlock(a) => close is EndBlock && same_block(a, close->EndBlock_0),
        Event::StartInline(a) => close is EndInline && same_inline(a, close->EndInline_0),
        _ => false,
    }
}

/// An event that neither starts nor ends a construct.
pub open spec fn is_leaf(e: Event) -> bool {
    !(e is StartBlock || e is StartInline || e is EndBlock || e is EndInline)
}

/// A well-formed stream: a sequence of leaves and of start events, each
/// followed by a well-formed stream and the end event that matches it.
pub open spec fn well_formed(s: Seq<Event>) -> bool
    decreases s.len(),
{
    if s.len() == 0 {
        true
    } else if is_leaf(s[0]) {
        well_formed(s.drop_first())
    } else {
        exists|j: int|
            0 < j < s.len() && ends(s[0], #[trigger] s[j]) && well_formed(s.subrange(1, j))
                && well_formed(s.subrange(j + 1, s.len() as int))
    }
}

proof fn lemma_run_append(stack: Seq<Construct>, a: Seq<Event>, b: Seq<Event>)
    ensures
        run(stack, a + b) == match run(stack, a) {
            Some(t) => run(t, b),
            None => None,
        },
    decreases a.len(),
{
    if a.len() == 0 {
        assert(a + b =~= b);
    } else {
        assert((a + b)[0] == a[0]);
        assert((a + b).drop_first() =~= a.drop_first() + b);
        match step(stack, a[0]) {
            Some(t) => lemma_run_append(t, a.drop_first(), b),
            None => {},
        }
    }
}

proof fn lemma_well_formed_keeps_stack(stack: Seq<Construct>, s: Seq<Event>)
    requires
        well_formed(s),
    ensures
        run(stack, s) == Some(stack),
    decreases s.len(),
{
    if s.len() > 0 {
        if is_leaf(s[0]) {
            lemma_well_formed_keeps_stack(stack, s.drop_first());
        } else {
            let j = choose|j: int|
                0 < j < s.len() && ends(s[0], #[trigger] s[j]) && well_formed(s.subrange(1, j))
                    && well_formed(s.subrange(j + 1, s.len() as int));
            let mid = s.subrange(1, j);
            let rest = s.subrange(j + 1, s.len() as int);
            let inner = step(stack, s[0])->Some_0;
            assert(step(stack, s[0]) is Some);
            lemma_well_formed_keeps_stack(inner, mid);
            lemma_well_formed_keeps_stack(stack, rest);
            assert(s.drop_first() =~= mid + (seq![s[j]] + rest));
            lemma_run_append(inner, mid, seq![s[j]] + rest);
            assert(step(inner, s[j]) == Some(stack)) by {
                assert(inner.drop_last() =~= stack);
            }
            assert((seq![s[j]] + rest).drop_first() =~= rest);
        }
    }
}

/// Balanced nesting: a well-formed stream is rendered without a structural
/// violation, and leaves nothing open after its last event.
pub proof fn well_formed_renders_cleanly(events: Seq<Event>)
    requires
        well_formed(events),
    ensures
        renders_cleanly(events),
        run(Seq::empty(), events) == Some(Seq::<Construct>::empty()),
{
    lemma_well_formed_keeps_stack(Seq::empty(), events);
}

/// The pieces of `fs` joined in order.
pub open spec fn concat(fs: Seq<Seq<char>>) -> Seq<char>
    decreases fs.len(),
{
    if fs.len() == 0 {
        Seq::empty()
    } else {
        concat(fs.drop_last()) + fs.last()
    }
}

/// The fragments of a stream, one per event.
pub open spec fn fragments(events: Seq<Event>) -> Seq<Seq<char>> {
    events.map_values(|e: Event| fragment(e))
}

/// The whole output of a stream: its fragments joined in order.
pub open spec fn rendered(events: Seq<Event>) -> Seq<char> {
    concat(fragments(events))
}

/// Where the fragment of event `i` begins in the output.
pub open spec fn start_of(events: Seq<Event>, i: int) -> int {
    concat(fragments(events).take(i)).len() as int
}

proof fn lemma_concat_prefix(fs: Seq<Seq<char>>, k: int, m: int)
    requires
        0 <= k <= m <= fs.len(),
    ensures
        concat(fs.take(k)).len() <= concat(fs.take(m)).len(),
        concat(fs.take(m)).subrange(0, concat(fs.take(k)).len() as int) == concat(fs.take(k)),
    decreases m - k,
{
    if k == m {
        assert(concat(fs.take(m)).subrange(0, concat(fs.take(m)).len() as int) =~= concat(
            fs.take(m),
        ));
    } else {
        lemma_concat_prefix(fs, k, m - 1);
        assert(fs.take(m).drop_last() =~= fs.take(m - 1));
        let a = concat(fs.take(m - 1));
        let n = concat(fs.take(k)).len() as int;
        assert(concat(fs.take(m)) == a + fs[m - 1]);
        assert((a + fs[m - 1]).subrange(0, n) =~= a.subrange(0, n));
    }
}

proof fn lemma_fragment_in_place(events: Seq<Event>, i: int)
    requires
        0 <= i < events.len(),
    ensures
        start_of(events, i) + fragment(events[i]).len() == start_of(events, i + 1),
        start_of(events, i + 1) <= rendered(events).len(),
        rendered(events).subrange(start_of(events, i), start_of(events, i + 1)) == fragment(
            events[i],
        ),
{
    let fs = fragments(events);
    assert(fs.take(i + 1).drop_last() =~= fs.take(i));
    let a = concat(fs.take(i));
    let b = concat(fs.take(i + 1));
    assert(b == a + fs[i]);
    lemma_concat_prefix(fs, i + 1, fs.len() as int);
    assert(fs.take(fs.len() as int) =~= fs);
    let out = rendered(events);
    assert(out.subrange(a.len() as int, b.len() as int) =~= b.subrange(
        a.len() as int,
        b.len() as int,
    ));
    assert(b.subrange(a.len() as int, b.len() as int) =~= fs[i]);
}

/// Order preservation: in the joined output, the escaped text of each text
/// event stands whole at its own place, and wholly before the text of any
/// later text event.
pub proof fn text_runs_keep_order(events: Seq<Event>, i: int, j: int)
    requires
        0 <= i < j < events.len(),
        events[i] is Text,
        events[j] is Text,
    ensures
        rendered(events).subrange(
            start_of(events, i),
            start_of(events, i) + escape_seq(events[i]->Text_0@).len(),
        ) == escape_seq(events[i]->Text_0@),
        rendered(events).subrange(
            start_of(events, j),
            start_of(events, j) + escape_seq(events[j]->Text_0@).len(),
        ) == escape_seq(events[j]->Text_0@),
        start_of(events, i) + escape_seq(events[i]->Text_0@).len() <= start_of(events, j),
{
    lemma_fragment_in_place(events, i);
    lemma_fragment_in_place(events, j);
    lemma_concat_prefix(fragments(events), i + 1, j);
}

} // verus!
