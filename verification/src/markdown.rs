//! Block-level markdown of a chat message: lists, headings and paragraphs,
//! each holding inline markdown.
use vstd::prelude::*;
use crate::inline::{Inline, InlineView, inline_spans, inlines_view, parse_inline_chars};
use crate::text::{
    chars_of, has_prefix, starts_with, string_of, trim, trim_bounds, trim_end, trim_start, trim_start_index,
};

verus! {

/// A block of a rendered message.
#[derive(Debug, Clone)]
pub enum MdBlock {
    /// A bullet list; one run list per item.
    List(Vec<Vec<Inline>>),
    /// A heading of level 1 to 3 (`#`, `##`, `###`), shown in bold without inline markdown.
    Heading(u8, String),
    Paragraph(Vec<Inline>),
    /// What an empty message shows: a single empty text.
    Empty,
}

pub enum MdBlockView {
    List(Seq<Seq<InlineView>>),
    Heading(u8, Seq<char>),
    Paragraph(Seq<InlineView>),
    Empty,
}

pub open spec fn items_view(items: Seq<Vec<Inline>>) -> Seq<Seq<InlineView>> {
    items.map_values(|v: Vec<Inline>| inlines_view(v@))
}

impl View for MdBlock {
    type V = MdBlockView;

    open spec fn view(&self) -> MdBlockView {
        match self {
            MdBlock::List(items) => MdBlockView::List(items_view(items@)),
            MdBlock::Heading(level, t) => MdBlockView::Heading(*level, t@),
            MdBlock::Paragraph(spans) => MdBlockView::Paragraph(inlines_view(spans@)),
            MdBlock::Empty => MdBlockView::Empty,
        }
    }
}

pub open spec fn blocks_view(s: Seq<MdBlock>) -> Seq<MdBlockView> {
    s.map_values(|b: MdBlock| b@)
}

// ---------------------------------------------------------------------------
// Lines
// ---------------------------------------------------------------------------

/// A line without the `\r` of a `\r\n` ending.
pub open spec fn strip_cr(l: Seq<char>) -> Seq<char> {
    if l.len() > 0 && l.last() == '\r' {
        l.drop_last()
    } else {
        l
    }
}

/// Least `j >= i` with `cs[j] == '\n'`, else `cs.len()`.
pub open spec fn newline_from(cs: Seq<char>, i: int) -> int
    decreases cs.len() - i,
{
    if i >= cs.len() {
        cs.len() as int
    } else if cs[i] == '\n' {
        i
    } else {
        newline_from(cs, i + 1)
    }
}

pub proof fn lemma_newline_from(cs: Seq<char>, i: int)
    requires
        0 <= i <= cs.len(),
    ensures
        i <= newline_from(cs, i) <= cs.len(),
    decreases cs.len() - i,
{
    if i < cs.len() && cs[i] != '\n' {
        lemma_newline_from(cs, i + 1);
    }
}

/// The lines of `cs[start..]` as `str::lines` yields them: split at `\n`,
/// a `\r` before the `\n` dropped, no line after a final `\n`.
pub open spec fn lines_from(cs: Seq<char>, start: int) -> Seq<Seq<char>>
    decreases cs.len() - start,
{
    if start < 0 || start >= cs.len() {
        Seq::empty()
    } else {
        let e = newline_from(cs, start);
        proof {
            lemma_newline_from(cs, start);
        }
        if e < cs.len() {
            seq![strip_cr(cs.subrange(start, e))] + lines_from(cs, e + 1)
        } else {
            seq![cs.subrange(start, cs.len() as int)]
        }
    }
}

pub open spec fn lines_of(cs: Seq<char>) -> Seq<Seq<char>> {
    lines_from(cs, 0)
}

pub open spec fn lines_view(v: Seq<Vec<char>>) -> Seq<Seq<char>> {
    v.map_values(|l: Vec<char>| l@)
}

/// The lines of `cs`, as `str::lines` yields them.
fn split_lines(cs: &Vec<char>) -> (r: Vec<Vec<char>>)
    ensures
        lines_view(r@) == lines_of(cs@),
{
    let n = cs.len();
    let mut out: Vec<Vec<char>> = Vec::new();
    let mut start: usize = 0;
    while start < n
        invariant
            n == cs.len(),
            start <= n,
            lines_of(cs@) == lines_view(out@) + lines_from(cs@, start as int),
        decreases n - start,
    {
        let mut e = start;
        while e < n && cs[e] != '\n'
            invariant
                start <= e <= n == cs.len(),
                newline_from(cs@, start as int) == newline_from(cs@, e as int),
            decreases n - e,
        {
            e += 1;
        }
        let ghost before = lines_view(out@);
        let mut line: Vec<char> = Vec::new();
        let mut k = start;
        while k < e
            invariant
                start <= k <= e <= n == cs.len(),
                line@ == cs@.subrange(start as int, k as int),
            decreases e - k,
        {
            line.push(cs[k]);
            k += 1;
            proof {
                assert(line@ =~= cs@.subrange(start as int, k as int));
            }
        }
        if e < n {
            if line.len() > 0 && line[line.len() - 1] == '\r' {
                line.pop();
            }
            proof {
                assert(line@ =~= strip_cr(cs@.subrange(start as int, e as int)));
            }
            out.push(line);
            proof {
                assert(lines_view(out@) =~= before + seq![strip_cr(cs@.subrange(start as int, e as int))]);
            }
            start = e + 1;
        } else {
            out.push(line);
            proof {
                assert(lines_view(out@) =~= before + seq![cs@.subrange(start as int, n as int)]);
                assert(lines_from(cs@, n as int) == Seq::<Seq<char>>::empty());
            }
            start = n;
        }
    }
    proof {
        assert(lines_view(out@) + lines_from(cs@, start as int) =~= lines_view(out@));
    }
    out
}

// ---------------------------------------------------------------------------
// Blocks
// ---------------------------------------------------------------------------

/// The line is a bullet of a list (`- ` or `* ` after its indentation).
pub open spec fn is_list_line(l: Seq<char>) -> bool {
    starts_with(trim_start(l), "- "@) || starts_with(trim_start(l), "* "@)
}

/// The line holds only whitespace.
pub open spec fn is_blank_line(l: Seq<char>) -> bool {
    trim(l).len() == 0
}

/// The line continues a paragraph.
pub open spec fn is_para_line(l: Seq<char>) -> bool {
    !is_blank_line(l) && !is_list_line(l) && !starts_with(trim_start(l), "#"@)
}

/// A line on which the block scanner makes no progress: it starts with `#`
/// but is no heading of level 1 to 3.
pub open spec fn is_stuck_line(l: Seq<char>) -> bool {
    let t = trim_start(l);
    starts_with(t, "#"@) && !starts_with(t, "# "@) && !starts_with(t, "## "@) && !starts_with(
        t,
        "### "@,
    )
}

/// Least `j >= i` whose line is not a list line, else `lines.len()`.
pub open spec fn list_end(lines: Seq<Seq<char>>, i: int) -> int
    decreases lines.len() - i,
{
    if i >= lines.len() {
        lines.len() as int
    } else if !is_list_line(lines[i]) {
        i
    } else {
        list_end(lines, i + 1)
    }
}

/// Least `j >= i` whose line does not continue a paragraph, else `lines.len()`.
pub open spec fn para_end(lines: Seq<Seq<char>>, i: int) -> int
    decreases lines.len() - i,
{
    if i >= lines.len() {
        lines.len() as int
    } else if !is_para_line(lines[i]) {
        i
    } else {
        para_end(lines, i + 1)
    }
}

pub proof fn lemma_list_end(lines: Seq<Seq<char>>, i: int)
    requires
        0 <= i <= lines.len(),
    ensures
        i <= list_end(lines, i) <= lines.len(),
        forall|k: int| i <= k < list_end(lines, i) ==> is_list_line(#[trigger] lines[k]),
    decreases lines.len() - i,
{
    if i < lines.len() && is_list_line(lines[i]) {
        lemma_list_end(lines, i + 1);
    }
}

pub proof fn lemma_para_end(lines: Seq<Seq<char>>, i: int)
    requires
        0 <= i <= lines.len(),
    ensures
        i <= para_end(lines, i) <= lines.len(),
    decreases lines.len() - i,
{
    if i < lines.len() && is_para_line(lines[i]) {
        lemma_para_end(lines, i + 1);
    }
}

/// A list line is at least as long as its bullet.
pub open spec fn list_line_len(l: Seq<char>) -> bool {
    trim_start(l).len() >= 2
}

/// The text of a list item: the line after its bullet, trimmed.
pub open spec fn item_text(l: Seq<char>) -> Seq<char> {
    trim(trim_start(l).skip(2))
}

/// The inline runs of the list items `lines[i..j]`.
pub open spec fn list_items(lines: Seq<Seq<char>>, i: int, j: int) -> Seq<Seq<InlineView>> {
    lines.subrange(i, j).map_values(|l: Seq<char>| inline_spans(item_text(l)))
}

/// Paragraph lines joined: each trimmed, separated by one space.
pub open spec fn para_join(ls: Seq<Seq<char>>) -> Seq<char>
    decreases ls.len(),
{
    if ls.len() == 0 {
        Seq::empty()
    } else {
        let a = para_join(ls.drop_last());
        if a.len() > 0 {
            a.push(' ') + trim(ls.last())
        } else {
            trim(ls.last())
        }
    }
}

/// The blocks of `lines[i..]`.
pub open spec fn blocks_from(lines: Seq<Seq<char>>, i: int) -> Seq<MdBlockView>
    decreases lines.len() - i,
{
    if i < 0 || i >= lines.len() {
        Seq::empty()
    } else {
        let l = lines[i];
        let t = trim_start(l);
        if is_list_line(l) {
            let j = list_end(lines, i);
            proof {
                lemma_list_end(lines, i + 1);
            }
            seq![MdBlockView::List(list_items(lines, i, j))] + blocks_from(lines, j)
        } else if starts_with(t, "### "@) {
            seq![MdBlockView::Heading(3, t.skip(4))] + blocks_from(lines, i + 1)
        } else if starts_with(t, "## "@) {
            seq![MdBlockView::Heading(2, t.skip(3))] + blocks_from(lines, i + 1)
        } else if starts_with(t, "# "@) {
            seq![MdBlockView::Heading(1, t.skip(2))] + blocks_from(lines, i + 1)
        } else if is_blank_line(l) {
            blocks_from(lines, i + 1)
        } else {
            let j = para_end(lines, i);
            proof {
                lemma_para_end(lines, i);
            }
            if j > i {
                seq![MdBlockView::Paragraph(inline_spans(para_join(lines.subrange(i, j))))]
                    + blocks_from(lines, j)
            } else {
                Seq::empty()
            }
        }
    }
}

/// The blocks of a message; an empty message shows one empty text.
pub open spec fn markdown_spec(cs: Seq<char>) -> Seq<MdBlockView> {
    let b = blocks_from(lines_of(cs), 0);
    if b.len() == 0 {
        seq![MdBlockView::Empty]
    } else {
        b
    }
}

/// No line of the message stalls the block scanner.
pub open spec fn renderable(cs: Seq<char>) -> bool {
    forall|k: int| 0 <= k < lines_of(cs).len() ==> !is_stuck_line(#[trigger] lines_of(cs)[k])
}

/// Whether the block scanner makes progress on every line of `text`.
pub fn is_renderable(text: &str) -> (r: bool)
    ensures
        r == renderable(text@),
{
    let cs = chars_of(text);
    let lines = split_lines(&cs);
    let mut k: usize = 0;
    while k < lines.len()
        invariant
            k <= lines.len(),
            lines_view(lines@) == lines_of(text@),
            forall|j: int| 0 <= j < k ==> !is_stuck_line(#[trigger] lines_of(text@)[j]),
        decreases lines.len() - k,
    {
        if stuck_line(&lines[k]) {
            proof {
                assert(lines_of(text@)[k as int] == lines[k as int]@);
            }
            return false;
        }
        proof {
            assert(lines_of(text@)[k as int] == lines[k as int]@);
        }
        k += 1;
    }
    true
}

fn stuck_line(l: &Vec<char>) -> (r: bool)
    ensures
        r == is_stuck_line(l@),
{
    let a = trim_start_index(l, 0, l.len());
    proof {
        assert(l@.subrange(0, l@.len() as int) =~= l@);
    }
    has_prefix(l, a, l.len(), "#") && !has_prefix(l, a, l.len(), "# ") && !has_prefix(
        l,
        a,
        l.len(),
        "## ",
    ) && !has_prefix(l, a, l.len(), "### ")
}

fn list_line(l: &Vec<char>) -> (r: bool)
    ensures
        r == is_list_line(l@),
{
    let a = trim_start_index(l, 0, l.len());
    proof {
        assert(l@.subrange(0, l@.len() as int) =~= l@);
    }
    has_prefix(l, a, l.len(), "- ") || has_prefix(l, a, l.len(), "* ")
}

fn blank_line(l: &Vec<char>) -> (r: bool)
    ensures
        r == is_blank_line(l@),
{
    let (a, b) = trim_bounds(l, 0, l.len());
    proof {
        assert(l@.subrange(0, l@.len() as int) =~= l@);
    }
    a == b
}

fn para_line(l: &Vec<char>) -> (r: bool)
    ensures
        r == is_para_line(l@),
{
    let a = trim_start_index(l, 0, l.len());
    proof {
        assert(l@.subrange(0, l@.len() as int) =~= l@);
    }
    !blank_line(l) && !list_line(l) && !has_prefix(l, a, l.len(), "#")
}

/// Appends `cs[lo..hi]` to `out`.
fn push_range(out: &mut Vec<char>, cs: &Vec<char>, lo: usize, hi: usize)
    requires
        lo <= hi <= cs.len(),
    ensures
        final(out)@ == old(out)@ + cs@.subrange(lo as int, hi as int),
{
    let mut k = lo;
    while k < hi
        invariant
            lo <= k <= hi <= cs.len(),
            out@ == old(out)@ + cs@.subrange(lo as int, k as int),
        decreases hi - k,
    {
        out.push(cs[k]);
        k += 1;
        proof {
            assert(out@ =~= old(out)@ + cs@.subrange(lo as int, k as int));
        }
    }
}

/// Splits a message into blocks: bullet lists (`- ` / `* `), headings
/// (`#`, `##`, `###`), and paragraphs of consecutive lines joined by spaces;
/// blank lines separate blocks. A message with no block shows one empty text.
pub fn markdown_blocks(content: &str) -> (r: Vec<MdBlock>)
    requires
        renderable(content@),
    ensures
        blocks_view(r@) == markdown_spec(content@),
{
    let cs = chars_of(content);
    let lines = split_lines(&cs);
    let ghost ls = lines_view(lines@);
    let n = lines.len();
    let mut out: Vec<MdBlock> = Vec::new();
    let mut i: usize = 0;
    while i < n
        invariant
            n == lines.len(),
            i <= n,
            ls == lines_view(lines@),
            ls == lines_of(content@),
            renderable(content@),
            blocks_from(ls, 0) == blocks_view(out@) + blocks_from(ls, i as int),
        decreases n - i,
    {
        let ghost before = blocks_view(out@);
        let line = &lines[i];
        proof {
            assert(ls[i as int] == line@);
            assert(line@.subrange(0, line@.len() as int) =~= line@);
        }
        let a = trim_start_index(line, 0, line.len());
        let len = line.len();
        if list_line(line) {
            let mut items: Vec<Vec<Inline>> = Vec::new();
            let mut j = i;
            while j < n && list_line(&lines[j])
                invariant
                    n == lines.len(),
                    i <= j <= n,
                    ls == lines_view(lines@),
                    list_end(ls, i as int) == list_end(ls, j as int),
                    items_view(items@) == list_items(ls, i as int, j as int),
                decreases n - j,
            {
                let item_line = &lines[j];
                proof {
                    assert(ls[j as int] == item_line@);
                    assert(item_line@.subrange(0, item_line@.len() as int) =~= item_line@);
                }
                let b = trim_start_index(item_line, 0, item_line.len());
                proof {
                    reveal_strlit("- ");
                    reveal_strlit("* ");
                    assert(list_line_len(item_line@));
                }
                let (p, q) = trim_bounds(item_line, b + 2, item_line.len());
                let mut text: Vec<char> = Vec::new();
                push_range(&mut text, item_line, p, q);
                proof {
                    assert(item_line@.subrange(b as int, item_line@.len() as int).skip(2)
                        =~= item_line@.subrange(b + 2, item_line@.len() as int));
                    assert(text@ =~= item_text(ls[j as int]));
                }
                let spans = parse_inline_chars(&text);
                let ghost prev = items_view(items@);
                items.push(spans);
                j += 1;
                proof {
                    assert(items_view(items@) =~= prev.push(inline_spans(item_text(ls[j - 1]))));
                    assert(ls.subrange(i as int, j as int) =~= ls.subrange(i as int, j - 1).push(ls[j - 1]));
                    assert(list_items(ls, i as int, j as int) =~= list_items(ls, i as int, j - 1).push(
                        inline_spans(item_text(ls[j - 1])),
                    ));
                }
            }
            out.push(MdBlock::List(items));
            proof {
                assert(blocks_view(out@) =~= before + seq![MdBlockView::List(list_items(ls, i as int, j as int))]);
            }
            i = j;
        } else if has_prefix(line, a, len, "### ") {
            proof {
                reveal_strlit("### ");
            }
            let t = string_of(line, a + 4, len);
            out.push(MdBlock::Heading(3, t));
            proof {
                assert(line@.subrange(a as int, len as int).skip(4) =~= line@.subrange(a + 4, len as int));
                assert(blocks_view(out@) =~= before + seq![MdBlockView::Heading(3, trim_start(ls[i as int]).skip(4))]);
            }
            i += 1;
        } else if has_prefix(line, a, len, "## ") {
            proof {
                reveal_strlit("## ");
            }
            let t = string_of(line, a + 3, len);
            out.push(MdBlock::Heading(2, t));
            proof {
                assert(line@.subrange(a as int, len as int).skip(3) =~= line@.subrange(a + 3, len as int));
                assert(blocks_view(out@) =~= before + seq![MdBlockView::Heading(2, trim_start(ls[i as int]).skip(3))]);
            }
            i += 1;
        } else if has_prefix(line, a, len, "# ") {
            proof {
                reveal_strlit("# ");
            }
            let t = string_of(line, a + 2, len);
            out.push(MdBlock::Heading(1, t));
            proof {
                assert(line@.subrange(a as int, len as int).skip(2) =~= line@.subrange(a + 2, len as int));
                assert(blocks_view(out@) =~= before + seq![MdBlockView::Heading(1, trim_start(ls[i as int]).skip(2))]);
            }
            i += 1;
        } else if blank_line(line) {
            i += 1;
        } else {
            proof {
                assert(!is_stuck_line(lines_of(content@)[i as int]));
                assert(is_para_line(ls[i as int]));
            }
            let mut para: Vec<char> = Vec::new();
            let mut j = i;
            while j < n && para_line(&lines[j])
                invariant
                    n == lines.len(),
                    i <= j <= n,
                    ls == lines_view(lines@),
                    para_end(ls, i as int) == para_end(ls, j as int),
                    para@ == para_join(ls.subrange(i as int, j as int)),
                decreases n - j,
            {
                let pl = &lines[j];
                proof {
                    assert(ls[j as int] == pl@);
                    assert(pl@.subrange(0, pl@.len() as int) =~= pl@);
                }
                let (p, q) = trim_bounds(pl, 0, pl.len());
                let ghost prev = para@;
                if para.len() > 0 {
                    para.push(' ');
                }
                push_range(&mut para, pl, p, q);
                j += 1;
                proof {
                    assert(ls.subrange(i as int, j as int).drop_last() =~= ls.subrange(i as int, j - 1));
                    assert(ls.subrange(i as int, j as int).last() == ls[j - 1]);
                    assert(para@ =~= para_join(ls.subrange(i as int, j as int)));
                }
            }
            let spans = parse_inline_chars(&para);
            out.push(MdBlock::Paragraph(spans));
            proof {
                assert(j > i);
                assert(blocks_view(out@) =~= before + seq![MdBlockView::Paragraph(inline_spans(para_join(ls.subrange(i as int, j as int))))]);
            }
            i = j;
        }
    }
    proof {
        assert(blocks_view(out@) + blocks_from(ls, n as int) =~= blocks_view(out@));
    }
    if out.len() == 0 {
        out.push(MdBlock::Empty);
        proof {
            assert(blocks_view(out@) =~= seq![MdBlockView::Empty]);
        }
    }
    out
}

} // verus!

verus! {

proof fn lemma_newline_at(cs: Seq<char>, i: int, e: int)
    requires
        0 <= i <= e <= cs.len(),
        e == cs.len() || cs[e] == '\n',
        forall|k: int| i <= k < e ==> cs[k] != '\n',
    ensures
        newline_from(cs, i) == e,
    decreases e - i,
{
    if i < e {
        lemma_newline_at(cs, i + 1, e);
    }
}

/// The line is neither blank, nor a bullet, nor a heading or other `#` line:
/// it is paragraph text.
pub open spec fn plain_text_line(l: Seq<char>) -> bool {
    &&& forall|k: int| 0 <= k < l.len() ==> l[k] != '\n'
    &&& trim(l).len() > 0
    &&& !starts_with(trim_start(l), seq!['#'])
    &&& !starts_with(trim_start(l), seq!['-', ' '])
    &&& !starts_with(trim_start(l), seq!['*', ' '])
}

proof fn lemma_plain_text_line(l: Seq<char>)
    requires
        plain_text_line(l),
    ensures
        !is_list_line(l),
        !starts_with(trim_start(l), "### "@),
        !starts_with(trim_start(l), "## "@),
        !starts_with(trim_start(l), "# "@),
        !is_blank_line(l),
        is_para_line(l),
{
    reveal_strlit("- ");
    reveal_strlit("* ");
    reveal_strlit("#");
    reveal_strlit("# ");
    reveal_strlit("## ");
    reveal_strlit("### ");
    let t = trim_start(l);
    assert("- "@ =~= seq!['-', ' ']);
    assert("* "@ =~= seq!['*', ' ']);
    assert("#"@ =~= seq!['#']);
    if starts_with(t, "# "@) {
        assert(t[0] == t.take(2)[0]);
        assert(t.take(1) =~= seq!['#']);
    }
    if starts_with(t, "## "@) {
        assert(t[0] == t.take(3)[0]);
        assert(t.take(1) =~= seq!['#']);
    }
    if starts_with(t, "### "@) {
        assert(t[0] == t.take(4)[0]);
        assert(t.take(1) =~= seq!['#']);
    }
}

/// A blank line ends a paragraph: two lines of paragraph text with a blank
/// line between them give two paragraphs, of each line trimmed.
pub proof fn law_blank_line_splits_paragraphs(a: Seq<char>, b: Seq<char>)
    requires
        plain_text_line(a),
        plain_text_line(b),
        a.last() != '\r',
    ensures
        markdown_spec(a + seq!['\n', '\n'] + b) == seq![
            MdBlockView::Paragraph(inline_spans(trim(a))),
            MdBlockView::Paragraph(inline_spans(trim(b))),
        ],
{
    let cs = a + seq!['\n', '\n'] + b;
    let n = a.len() as int;
    let m = cs.len() as int;
    assert(trim_start(Seq::<char>::empty()) == Seq::<char>::empty());
    assert(trim_end(Seq::<char>::empty()) == Seq::<char>::empty());
    if a.len() == 0 {
        assert(trim_start(a) == a);
    }
    if b.len() == 0 {
        assert(trim_start(b) == b);
    }
    assert(a.len() > 0 && b.len() > 0);
    // The lines are `a`, an empty line and `b`.
    assert forall|k: int| 0 <= k < n implies cs[k] != '\n' by {
        assert(cs[k] == a[k]);
    }
    lemma_newline_at(cs, 0, n);
    lemma_newline_at(cs, n + 1, n + 1);
    assert forall|k: int| n + 2 <= k < m implies cs[k] != '\n' by {
        assert(cs[k] == b[k - n - 2]);
    }
    lemma_newline_at(cs, n + 2, m);
    assert(cs.subrange(0, n) =~= a);
    assert(cs.subrange(n + 1, n + 1) =~= Seq::<char>::empty());
    assert(cs.subrange(n + 2, m) =~= b);
    assert(lines_from(cs, m) == Seq::<Seq<char>>::empty());
    assert(lines_from(cs, n + 2) == seq![b]);
    assert(lines_from(cs, n + 1) == seq![Seq::<char>::empty()] + seq![b]);
    let ls = seq![a, Seq::<char>::empty(), b];
    assert(lines_of(cs) =~= ls);
    // The blocks.
    lemma_plain_text_line(a);
    lemma_plain_text_line(b);
    let e = Seq::<char>::empty();
    reveal_strlit("- ");
    reveal_strlit("* ");
    reveal_strlit("# ");
    reveal_strlit("## ");
    reveal_strlit("### ");
    assert(!is_list_line(e));
    assert(!starts_with(trim_start(e), "### "@) && !starts_with(trim_start(e), "## "@)
        && !starts_with(trim_start(e), "# "@));
    assert(is_blank_line(e));
    assert(!is_para_line(e));
    assert(ls[0] == a && ls[1] == e && ls[2] == b);
    assert(para_end(ls, 3) == 3);
    assert(para_end(ls, 2) == 3);
    assert(para_end(ls, 1) == 1);
    assert(para_end(ls, 0) == 1);
    assert(ls.subrange(0, 1) =~= seq![a]);
    assert(ls.subrange(2, 3) =~= seq![b]);
    assert(seq![a].drop_last() =~= Seq::<Seq<char>>::empty());
    assert(seq![b].drop_last() =~= Seq::<Seq<char>>::empty());
    assert(para_join(Seq::<Seq<char>>::empty()) == Seq::<char>::empty());
    assert(seq![a].last() == a && seq![b].last() == b);
    assert(para_join(seq![a]) == trim(a));
    assert(para_join(seq![b]) == trim(b));
    assert(blocks_from(ls, 3) == Seq::<MdBlockView>::empty());
    assert(blocks_from(ls, 2) =~= seq![MdBlockView::Paragraph(inline_spans(trim(b)))]);
    assert(blocks_from(ls, 1) == blocks_from(ls, 2));
    assert(blocks_from(ls, 0) =~= seq![
        MdBlockView::Paragraph(inline_spans(trim(a))),
        MdBlockView::Paragraph(inline_spans(trim(b))),
    ]);
}

} // verus!

verus! {

proof fn lemma_single_line(cs: Seq<char>)
    requires
        cs.len() > 0,
        forall|k: int| 0 <= k < cs.len() ==> cs[k] != '\n',
    ensures
        lines_of(cs) == seq![cs],
{
    lemma_newline_at(cs, 0, cs.len() as int);
    assert(cs.subrange(0, cs.len() as int) =~= cs);
}

/// A line `# x`, `## x` or `### x` is one heading of level 1, 2 or 3 whose
/// text is `x`.
pub proof fn law_heading_levels(x: Seq<char>)
    requires
        forall|k: int| 0 <= k < x.len() ==> x[k] != '\n',
    ensures
        markdown_spec(seq!['#', ' '] + x) == seq![MdBlockView::Heading(1, x)],
        markdown_spec(seq!['#', '#', ' '] + x) == seq![MdBlockView::Heading(2, x)],
        markdown_spec(seq!['#', '#', '#', ' '] + x) == seq![MdBlockView::Heading(3, x)],
{
    reveal_strlit("- ");
    reveal_strlit("* ");
    reveal_strlit("# ");
    reveal_strlit("## ");
    reveal_strlit("### ");
    let h1 = seq!['#', ' '] + x;
    let h2 = seq!['#', '#', ' '] + x;
    let h3 = seq!['#', '#', '#', ' '] + x;
    assert forall|k: int| 0 <= k < h1.len() implies h1[k] != '\n' by {
        if k >= 2 {
            assert(h1[k] == x[k - 2]);
        }
    }
    assert forall|k: int| 0 <= k < h2.len() implies h2[k] != '\n' by {
        if k >= 3 {
            assert(h2[k] == x[k - 3]);
        }
    }
    assert forall|k: int| 0 <= k < h3.len() implies h3[k] != '\n' by {
        if k >= 4 {
            assert(h3[k] == x[k - 4]);
        }
    }
    lemma_single_line(h1);
    lemma_single_line(h2);
    lemma_single_line(h3);
    assert(trim_start(h1) == h1);
    assert(trim_start(h2) == h2);
    assert(trim_start(h3) == h3);
    assert(h1.take(2) =~= "# "@);
    assert(h2.take(3) =~= "## "@);
    assert(h3.take(4) =~= "### "@);
    if starts_with(h1, "## "@) {
        assert(h1.take(3)[1] == "## "@[1]);
    }
    if starts_with(h1, "### "@) {
        assert(h1.take(4)[1] == "### "@[1]);
    }
    if starts_with(h2, "### "@) {
        assert(h2.take(4)[2] == "### "@[2]);
    }
    assert(h1.take(2)[0] != "- "@[0] && h1.take(2)[0] != "* "@[0]);
    assert(h2.take(2)[0] != "- "@[0] && h2.take(2)[0] != "* "@[0]);
    assert(h3.take(2)[0] != "- "@[0] && h3.take(2)[0] != "* "@[0]);
    assert(h1.skip(2) =~= x);
    assert(h2.skip(3) =~= x);
    assert(h3.skip(4) =~= x);
    assert(blocks_from(seq![h1], 1) == Seq::<MdBlockView>::empty());
    assert(blocks_from(seq![h2], 1) == Seq::<MdBlockView>::empty());
    assert(blocks_from(seq![h3], 1) == Seq::<MdBlockView>::empty());
    assert(blocks_from(seq![h1], 0) =~= seq![MdBlockView::Heading(1, x)]);
    assert(blocks_from(seq![h2], 0) =~= seq![MdBlockView::Heading(2, x)]);
    assert(blocks_from(seq![h3], 0) =~= seq![MdBlockView::Heading(3, x)]);
}

} // verus!
