//! Inline markdown: `**bold**`, `*italic*`, `` `code` `` and `[label](url)`
//! inside one paragraph, list item or message line.
use vstd::prelude::*;
use crate::text::{chars_of, push_char, string_of};

verus! {

/// A run of inline text with its style.
#[derive(Debug, Clone)]
pub enum Inline {
    Plain(String),
    Code(String),
    Bold(String),
    Italic(String),
    /// `(label, url)`.
    Link(String, String),
}

pub enum InlineView {
    Plain(Seq<char>),
    Code(Seq<char>),
    Bold(Seq<char>),
    Italic(Seq<char>),
    Link(Seq<char>, Seq<char>),
}

impl View for Inline {
    type V = InlineView;

    open spec fn view(&self) -> InlineView {
        match self {
            Inline::Plain(s) => InlineView::Plain(s@),
            Inline::Code(s) => InlineView::Code(s@),
            Inline::Bold(s) => InlineView::Bold(s@),
            Inline::Italic(s) => InlineView::Italic(s@),
            Inline::Link(l, u) => InlineView::Link(l@, u@),
        }
    }
}

pub open spec fn inlines_view(s: Seq<Inline>) -> Seq<InlineView> {
    s.map_values(|x: Inline| x@)
}

/// Least `j >= i` with `cs[j] == c`, else `cs.len()`.
pub open spec fn find_from(cs: Seq<char>, i: int, c: char) -> int
    decreases cs.len() - i,
{
    if i >= cs.len() {
        cs.len() as int
    } else if cs[i] == c {
        i
    } else {
        find_from(cs, i + 1, c)
    }
}

/// Where the scan for a closing `**` that starts at `j` stops: the first `**`,
/// or the last character when there is none.
pub open spec fn bold_end(cs: Seq<char>, j: int) -> int
    decreases cs.len() - j,
{
    if j + 1 >= cs.len() || (cs[j] == '*' && cs[j + 1] == '*') {
        j
    } else {
        bold_end(cs, j + 1)
    }
}

pub open spec fn min(a: int, b: int) -> int {
    if a < b {
        a
    } else {
        b
    }
}

/// The pending plain run, if any.
pub open spec fn flush(plain: Seq<char>) -> Seq<InlineView> {
    if plain.len() > 0 {
        seq![InlineView::Plain(plain)]
    } else {
        Seq::empty()
    }
}

/// A link `[label](url)` starts at `i`: a `]` follows, directly followed by
/// `(`, and a `)` closes it.
pub open spec fn link_at(cs: Seq<char>, i: int) -> bool {
    let j = find_from(cs, i + 1, ']');
    j + 1 < cs.len() && cs[j + 1] == '(' && find_from(cs, j + 2, ')') < cs.len()
}

pub proof fn lemma_find_from(cs: Seq<char>, i: int, c: char)
    requires
        0 <= i,
    ensures
        i <= find_from(cs, i, c) || (i > cs.len() && find_from(cs, i, c) == cs.len()),
        find_from(cs, i, c) <= cs.len(),
        find_from(cs, i, c) < cs.len() ==> cs[find_from(cs, i, c)] == c,
        forall|k: int| i <= k < find_from(cs, i, c) ==> cs[k] != c,
    decreases cs.len() - i,
{
    if i < cs.len() && cs[i] != c {
        lemma_find_from(cs, i + 1, c);
    }
}

pub proof fn lemma_bold_end(cs: Seq<char>, j: int)
    requires
        0 <= j <= cs.len(),
    ensures
        j <= bold_end(cs, j) <= cs.len(),
    decreases cs.len() - j,
{
    if !(j + 1 >= cs.len() || (cs[j] == '*' && cs[j + 1] == '*')) {
        lemma_bold_end(cs, j + 1);
    }
}

/// The spans of `cs[i..]`, with `plain` the plain text gathered just before `i`.
pub open spec fn scan(cs: Seq<char>, i: int, plain: Seq<char>) -> Seq<InlineView>
    decreases cs.len() - i,
{
    if i < 0 || i >= cs.len() {
        flush(plain)
    } else if cs[i] == '`' {
        let j = find_from(cs, i + 1, '`');
        proof {
            lemma_find_from(cs, i + 1, '`');
        }
        flush(plain) + seq![InlineView::Code(cs.subrange(i + 1, j))] + scan(
            cs,
            min(j + 1, cs.len() as int),
            Seq::empty(),
        )
    } else if i + 1 < cs.len() && cs[i] == '*' && cs[i + 1] == '*' {
        let j = bold_end(cs, i + 2);
        proof {
            lemma_bold_end(cs, i + 2);
        }
        flush(plain) + seq![InlineView::Bold(cs.subrange(i + 2, j))] + scan(
            cs,
            min(j + 2, cs.len() as int),
            Seq::empty(),
        )
    } else if cs[i] == '*' {
        let j = find_from(cs, i + 1, '*');
        proof {
            lemma_find_from(cs, i + 1, '*');
        }
        flush(plain) + seq![InlineView::Italic(cs.subrange(i + 1, j))] + scan(
            cs,
            min(j + 1, cs.len() as int),
            Seq::empty(),
        )
    } else if cs[i] == '[' && link_at(cs, i) {
        let j = find_from(cs, i + 1, ']');
        let k = find_from(cs, j + 2, ')');
        proof {
            lemma_find_from(cs, i + 1, ']');
            lemma_find_from(cs, j + 2, ')');
        }
        flush(plain) + seq![InlineView::Link(cs.subrange(i + 1, j), cs.subrange(j + 2, k))] + scan(
            cs,
            k + 1,
            Seq::empty(),
        )
    } else {
        scan(cs, i + 1, plain.push(cs[i]))
    }
}

/// The spans of the inline markdown text `cs`.
pub open spec fn inline_spans(cs: Seq<char>) -> Seq<InlineView> {
    scan(cs, 0, Seq::empty())
}

/// Least `j >= i` with `cs[j] == c`, else `cs.len()`.
fn find_char(cs: &Vec<char>, i: usize, c: char) -> (j: usize)
    requires
        i <= cs.len(),
    ensures
        j == find_from(cs@, i as int, c),
        i <= j <= cs.len(),
{
    let mut j = i;
    while j < cs.len() && cs[j] != c
        invariant
            i <= j <= cs.len(),
            find_from(cs@, i as int, c) == find_from(cs@, j as int, c),
        decreases cs.len() - j,
    {
        j += 1;
    }
    j
}

fn push_plain(out: &mut Vec<Inline>, plain: &mut String)
    ensures
        inlines_view(final(out)@) == inlines_view(old(out)@) + flush(old(plain)@),
        final(plain)@ == Seq::<char>::empty(),
{
    if !plain.as_str().is_empty() {
        let ghost before = inlines_view(out@);
        let mut p = String::new();
        std::mem::swap(&mut p, plain);
        out.push(Inline::Plain(p));
        proof {
            assert(inlines_view(out@) =~= before + flush(old(plain)@));
        }
    } else {
        proof {
            assert(inlines_view(out@) =~= inlines_view(old(out)@) + flush(old(plain)@));
        }
    }
}

/// Parses one paragraph of inline markdown into styled runs: `` `code` ``,
/// `**bold**`, `*italic*` and `[label](url)`; everything else is plain text.
pub fn parse_inline(src: &str) -> (r: Vec<Inline>)
    ensures
        inlines_view(r@) == inline_spans(src@),
{
    let cs = chars_of(src);
    parse_inline_chars(&cs)
}

/// `parse_inline` on a character vector.
pub fn parse_inline_chars(cs: &Vec<char>) -> (r: Vec<Inline>)
    ensures
        inlines_view(r@) == inline_spans(cs@),
{
    let n = cs.len();
    let mut out: Vec<Inline> = Vec::new();
    let mut plain = String::new();
    let mut i: usize = 0;
    while i < n
        invariant
            n == cs.len(),
            i <= n,
            inline_spans(cs@) == inlines_view(out@) + scan(cs@, i as int, plain@),
        decreases n - i,
    {
        let ghost before = inlines_view(out@);
        let ghost pl = plain@;
        if cs[i] == '`' {
            let j = find_char(cs, i + 1, '`');
            push_plain(&mut out, &mut plain);
            let code = string_of(cs, i + 1, j);
            out.push(Inline::Code(code));
            let next = if j < n { j + 1 } else { n };
            proof {
                assert(inlines_view(out@) =~= before + flush(pl) + seq![InlineView::Code(cs@.subrange(i + 1, j as int))]);
            }
            i = next;
            continue;
        }
        if i + 1 < n && cs[i] == '*' && cs[i + 1] == '*' {
            let mut j = i + 2;
            while n - j > 1 && !(cs[j] == '*' && cs[j + 1] == '*')
                invariant
                    n == cs.len(),
                    i + 2 <= j <= n,
                    bold_end(cs@, i + 2) == bold_end(cs@, j as int),
                decreases n - j,
            {
                j += 1;
            }
            push_plain(&mut out, &mut plain);
            let bold = string_of(cs, i + 2, j);
            out.push(Inline::Bold(bold));
            let next = if n - j > 2 { j + 2 } else { n };
            proof {
                assert(inlines_view(out@) =~= before + flush(pl) + seq![InlineView::Bold(cs@.subrange(i + 2, j as int))]);
            }
            i = next;
            continue;
        }
        if cs[i] == '*' {
            let j = find_char(cs, i + 1, '*');
            push_plain(&mut out, &mut plain);
            let ital = string_of(cs, i + 1, j);
            out.push(Inline::Italic(ital));
            let next = if j < n { j + 1 } else { n };
            proof {
                assert(inlines_view(out@) =~= before + flush(pl) + seq![InlineView::Italic(cs@.subrange(i + 1, j as int))]);
            }
            i = next;
            continue;
        }
        if cs[i] == '[' {
            let j = find_char(cs, i + 1, ']');
            if j < n && n - j > 1 && cs[j + 1] == '(' {
                let k = find_char(cs, j + 2, ')');
                if k < n {
                    push_plain(&mut out, &mut plain);
                    let label = string_of(cs, i + 1, j);
                    let url = string_of(cs, j + 2, k);
                    out.push(Inline::Link(label, url));
                    proof {
                        assert(link_at(cs@, i as int));
                        assert(inlines_view(out@) =~= before + flush(pl) + seq![InlineView::Link(cs@.subrange(i + 1, j as int), cs@.subrange(j + 2, k as int))]);
                    }
                    i = k + 1;
                    continue;
                }
            }
        }
        push_char(&mut plain, cs[i]);
        i += 1;
    }
    push_plain(&mut out, &mut plain);
    out
}

/// The text holds none of the markers `` ` ``, `*` and `[`.
pub open spec fn no_markup(cs: Seq<char>) -> bool {
    forall|k: int| 0 <= k < cs.len() ==> #[trigger] cs[k] != '`' && cs[k] != '*' && cs[k] != '['
}

/// Text without markers is one plain run of the whole text (none when empty).
pub proof fn law_plain_text_is_one_run(cs: Seq<char>)
    requires
        no_markup(cs),
    ensures
        inline_spans(cs) == (if cs.len() > 0 {
            seq![InlineView::Plain(cs)]
        } else {
            Seq::<InlineView>::empty()
        }),
{
    lemma_scan_plain(cs, 0, Seq::empty());
    assert(Seq::<char>::empty() + cs.subrange(0, cs.len() as int) =~= cs);
}

} // verus!

verus! {

proof fn lemma_bold_end_at(cs: Seq<char>, j: int, e: int)
    requires
        0 <= j <= e,
        e + 1 < cs.len(),
        cs[e] == '*',
        cs[e + 1] == '*',
        forall|k: int| j <= k < e ==> cs[k] != '*',
    ensures
        bold_end(cs, j) == e,
    decreases e - j,
{
    if j < e {
        lemma_bold_end_at(cs, j + 1, e);
    }
}

/// From `i` on, text without markers all goes into the pending plain run.
proof fn lemma_scan_plain(cs: Seq<char>, i: int, plain: Seq<char>)
    requires
        0 <= i <= cs.len(),
        forall|k: int| i <= k < cs.len() ==> cs[k] != '`' && cs[k] != '*' && cs[k] != '[',
    ensures
        scan(cs, i, plain) == flush(plain + cs.subrange(i, cs.len() as int)),
    decreases cs.len() - i,
{
    if i < cs.len() {
        lemma_scan_plain(cs, i + 1, plain.push(cs[i]));
        assert(plain.push(cs[i]) + cs.subrange(i + 1, cs.len() as int) =~= plain + cs.subrange(
            i,
            cs.len() as int,
        ));
    } else {
        assert(plain + cs.subrange(i, cs.len() as int) =~= plain);
    }
}

/// A closed `**x**` (with no `*` inside) followed by plain text `t` gives
/// exactly a bold run of `x` and a plain run of `t`: nothing after the closing
/// marker is lost.
pub proof fn law_bold_then_plain(x: Seq<char>, t: Seq<char>)
    requires
        forall|k: int| 0 <= k < x.len() ==> x[k] != '*',
        t.len() > 0,
        no_markup(t),
    ensures
        inline_spans(seq!['*', '*'] + x + seq!['*', '*'] + t) == seq![
            InlineView::Bold(x),
            InlineView::Plain(t),
        ],
{
    let cs = seq!['*', '*'] + x + seq!['*', '*'] + t;
    let n = x.len() as int;
    assert(cs[0] == '*' && cs[1] == '*');
    assert forall|k: int| 2 <= k < 2 + n implies cs[k] != '*' by {
        assert(cs[k] == x[k - 2]);
    }
    assert(cs[2 + n] == '*' && cs[3 + n] == '*');
    lemma_bold_end_at(cs, 2, 2 + n);
    assert(cs.subrange(2, 2 + n) =~= x);
    assert forall|k: int| n + 4 <= k < cs.len() implies cs[k] != '`' && cs[k] != '*' && cs[k]
        != '[' by {
        assert(cs[k] == t[k - n - 4]);
        assert(t[k - n - 4] != '`' && t[k - n - 4] != '*' && t[k - n - 4] != '[');
    }
    lemma_scan_plain(cs, n + 4, Seq::empty());
    assert(Seq::<char>::empty() + cs.subrange(n + 4, cs.len() as int) =~= t);
    assert(flush(Seq::<char>::empty()) =~= Seq::<InlineView>::empty());
    assert(inline_spans(cs) =~= seq![InlineView::Bold(x), InlineView::Plain(t)]);
}

} // verus!

verus! {

/// A closed `` `x` `` (with no backtick inside) followed by plain text `t`
/// gives exactly a code run of `x` and a plain run of `t`.
pub proof fn law_code_then_plain(x: Seq<char>, t: Seq<char>)
    requires
        forall|k: int| 0 <= k < x.len() ==> x[k] != '`',
        t.len() > 0,
        no_markup(t),
    ensures
        inline_spans(seq!['`'] + x + seq!['`'] + t) == seq![InlineView::Code(x), InlineView::Plain(t)],
{
    let cs = seq!['`'] + x + seq!['`'] + t;
    let n = x.len() as int;
    assert forall|k: int| 1 <= k < 1 + n implies cs[k] != '`' by {
        assert(cs[k] == x[k - 1]);
    }
    lemma_find_from(cs, 1, '`');
    assert(cs[1 + n] == '`');
    assert(find_from(cs, 1, '`') == 1 + n);
    assert(cs.subrange(1, 1 + n) =~= x);
    assert forall|k: int| n + 2 <= k < cs.len() implies cs[k] != '`' && cs[k] != '*' && cs[k]
        != '[' by {
        assert(cs[k] == t[k - n - 2]);
        assert(t[k - n - 2] != '`' && t[k - n - 2] != '*' && t[k - n - 2] != '[');
    }
    lemma_scan_plain(cs, n + 2, Seq::empty());
    assert(Seq::<char>::empty() + cs.subrange(n + 2, cs.len() as int) =~= t);
    assert(flush(Seq::<char>::empty()) =~= Seq::<InlineView>::empty());
    assert(inline_spans(cs) =~= seq![InlineView::Code(x), InlineView::Plain(t)]);
}

/// A closed `*x*` (with `x` non-empty and no `*` inside) followed by plain
/// text `t` gives exactly an italic run of `x` and a plain run of `t`.
pub proof fn law_italic_then_plain(x: Seq<char>, t: Seq<char>)
    requires
        x.len() > 0,
        forall|k: int| 0 <= k < x.len() ==> x[k] != '*',
        t.len() > 0,
        no_markup(t),
    ensures
        inline_spans(seq!['*'] + x + seq!['*'] + t) == seq![InlineView::Italic(x), InlineView::Plain(t)],
{
    let cs = seq!['*'] + x + seq!['*'] + t;
    let n = x.len() as int;
    assert(cs[1] == x[0]);
    assert forall|k: int| 1 <= k < 1 + n implies cs[k] != '*' by {
        assert(cs[k] == x[k - 1]);
    }
    lemma_find_from(cs, 1, '*');
    assert(cs[1 + n] == '*');
    assert(find_from(cs, 1, '*') == 1 + n);
    assert(cs.subrange(1, 1 + n) =~= x);
    assert forall|k: int| n + 2 <= k < cs.len() implies cs[k] != '`' && cs[k] != '*' && cs[k]
        != '[' by {
        assert(cs[k] == t[k - n - 2]);
        assert(t[k - n - 2] != '`' && t[k - n - 2] != '*' && t[k - n - 2] != '[');
    }
    lemma_scan_plain(cs, n + 2, Seq::empty());
    assert(Seq::<char>::empty() + cs.subrange(n + 2, cs.len() as int) =~= t);
    assert(flush(Seq::<char>::empty()) =~= Seq::<InlineView>::empty());
    assert(inline_spans(cs) =~= seq![InlineView::Italic(x), InlineView::Plain(t)]);
}

} // verus!
