//! Render sink: converts a structured diff result (lines of colour-tagged
//! spans) into either printable text lines or a styled pane for an
//! interactive two-column view. Span order is preserved exactly; the colour
//! mapping is fixed.

use vstd::prelude::*;

verus! {

/// Semantic colour of one diff span: unchanged, removed (before side) or
/// added (after side) content.
#[derive(Clone, Copy, PartialEq, Eq, Structural, Debug)]
pub enum ColorTag {
    Default,
    Removed,
    Added,
}

/// One fragment of a rendered diff line: a run of text under a single
/// semantic colour.
#[derive(Debug)]
pub struct Span {
    pub text: String,
    pub color: ColorTag,
}

/// Mathematical image of a `Span`.
pub ghost struct SpanView {
    pub text: Seq<char>,
    pub color: ColorTag,
}

impl View for Span {
    type V = SpanView;

    open spec fn view(&self) -> SpanView {
        SpanView { text: self.text@, color: self.color }
    }
}

/// Presentation colour of the interactive view; the sink maps semantic
/// colours onto it and nothing else chooses it.
#[derive(Clone, Copy, PartialEq, Eq, Structural, Debug)]
pub enum PaneColor {
    Neutral,
    Red,
    Green,
}

/// One styled fragment of a pane line.
#[derive(Debug)]
pub struct PaneSpan {
    pub text: String,
    pub color: PaneColor,
}

/// One independently scrollable text block of the two-column view: an
/// ordered sequence of display lines, each an ordered sequence of styled
/// spans.
#[derive(Debug)]
pub struct Pane {
    pub lines: Vec<Vec<PaneSpan>>,
}

/// The fixed mapping from semantic colour to presentation colour.
pub open spec fn pane_color_of(tag: ColorTag) -> PaneColor {
    match tag {
        ColorTag::Default => PaneColor::Neutral,
        ColorTag::Removed => PaneColor::Red,
        ColorTag::Added => PaneColor::Green,
    }
}

/// The views of the lines of one side.
pub open spec fn text_views(lines: Seq<String>) -> Seq<Seq<char>> {
    lines.map_values(|l: String| l@)
}

/// The views of the spans of one line.
pub open spec fn line_views(line: Seq<Span>) -> Seq<SpanView> {
    line.map_values(|s: Span| s@)
}

/// The views of all lines of a render-form result.
pub open spec fn result_views(result: Seq<Vec<Span>>) -> Seq<Seq<SpanView>> {
    result.map_values(|l: Vec<Span>| line_views(l@))
}

/// The text content of one line: its span texts concatenated in order,
/// colour ignored.
pub open spec fn line_text_spec(line: Seq<SpanView>) -> Seq<char>
    decreases line.len(),
{
    if line.len() == 0 {
        Seq::<char>::empty()
    } else {
        line_text_spec(line.drop_last()) + line.last().text
    }
}

/// Concatenates the span texts of one line, in span order, ignoring colour.
/// This is the text the print form carries for that line.
pub fn line_text(line: &Vec<Span>) -> (r: String)
    ensures
        r@ == line_text_spec(line_views(line@)),
{
    let mut r = String::new();
    let mut i: usize = 0;
    while i < line.len()
        invariant
            i <= line.len(),
            r@ == line_text_spec(line_views(line@).take(i as int)),
        decreases line.len() - i,
    {
        r.append(line[i].text.as_str());
        proof {
            let views = line_views(line@);
            assert(views.take(i + 1).drop_last() =~= views.take(i as int));
            assert(views.take(i + 1).last() == views[i as int]);
        }
        i = i + 1;
    }
    proof {
        assert(line_views(line@).take(line@.len() as int) =~= line_views(line@));
    }
    r
}

/// Produces the print-form content of a render-form result: one text line
/// per rendered line, each the concatenation of that line's spans.
pub fn print_lines(result: &Vec<Vec<Span>>) -> (out: Vec<String>)
    ensures
        out@.len() == result@.len(),
        forall|i: int|
            0 <= i < result@.len() ==> #[trigger] out@[i]@ == line_text_spec(
                result_views(result@)[i],
            ),
{
    let mut out: Vec<String> = Vec::new();
    let mut i: usize = 0;
    while i < result.len()
        invariant
            i <= result.len(),
            out@.len() == i,
            forall|k: int|
                0 <= k < i ==> #[trigger] out@[k]@ == line_text_spec(result_views(result@)[k]),
        decreases result.len() - i,
    {
        let line = line_text(&result[i]);
        out.push(line);
        i = i + 1;
    }
    out
}

/// Converts a render-form result into a pane: the line and span structure is
/// kept exactly (no span is merged, dropped or reordered) and each span's
/// colour is mapped by `pane_color_of`.
pub fn to_pane(result: &Vec<Vec<Span>>) -> (p: Pane)
    ensures
        p.lines@.len() == result@.len(),
        forall|i: int|
            0 <= i < result@.len() ==> #[trigger] p.lines@[i]@.len() == result@[i]@.len(),
        forall|i: int, j: int|
            0 <= i < result@.len() && 0 <= j < result@[i]@.len() ==> (#[trigger] p.lines@[i]@[j]).text@
                == result@[i]@[j].text@ && p.lines@[i]@[j].color == pane_color_of(
                result@[i]@[j].color,
            ),
{
    let mut lines: Vec<Vec<PaneSpan>> = Vec::new();
    let mut i: usize = 0;
    while i < result.len()
        invariant
            i <= result.len(),
            lines@.len() == i,
            forall|k: int| 0 <= k < i ==> #[trigger] lines@[k]@.len() == result@[k]@.len(),
            forall|k: int, j: int|
                0 <= k < i && 0 <= j < result@[k]@.len() ==> (#[trigger] lines@[k]@[j]).text@
                    == result@[k]@[j].text@ && lines@[k]@[j].color == pane_color_of(
                    result@[k]@[j].color,
                ),
        decreases result.len() - i,
    {
        let src_line = &result[i];
        let mut line: Vec<PaneSpan> = Vec::new();
        let mut j: usize = 0;
        while j < src_line.len()
            invariant
                j <= src_line.len(),
                line@.len() == j,
                forall|m: int|
                    0 <= m < j ==> (#[trigger] line@[m]).text@ == src_line@[m].text@
                        && line@[m].color == pane_color_of(src_line@[m].color),
            decreases src_line.len() - j,
        {
            let tag = src_line[j].color;
            let color = match tag {
                ColorTag::Default => PaneColor::Neutral,
                ColorTag::Removed => PaneColor::Red,
                ColorTag::Added => PaneColor::Green,
            };
            line.push(PaneSpan { text: src_line[j].text.clone(), color });
            j = j + 1;
        }
        lines.push(line);
        i = i + 1;
    }
    Pane { lines }
}

/// The text content of one pane line: its styled span texts concatenated in
/// order, colour ignored.
pub open spec fn pane_line_text(line: Seq<PaneSpan>) -> Seq<char>
    decreases line.len(),
{
    if line.len() == 0 {
        Seq::<char>::empty()
    } else {
        pane_line_text(line.drop_last()) + line.last().text@
    }
}

/// Law: for one rendered line, mapping each span onto a pane span (text
/// kept, colour translated) and then concatenating the pane texts restores
/// exactly the line's print-form text. Stated span-by-span: any pane line
/// whose spans carry the same texts in the same order concatenates to the
/// print text.
pub proof fn lemma_pane_line_text_matches(line: Seq<SpanView>, pane_line: Seq<PaneSpan>)
    requires
        pane_line.len() == line.len(),
        forall|j: int| 0 <= j < line.len() ==> #[trigger] pane_line[j].text@ == line[j].text,
    ensures
        pane_line_text(pane_line) == line_text_spec(line),
    decreases line.len(),
{
    if line.len() > 0 {
        lemma_pane_line_text_matches(line.drop_last(), pane_line.drop_last());
    }
}

/// Law (round trip of the two output forms): for every render-form result,
/// the pane produced by `to_pane` reproduces, line by line and span by span
/// with colour ignored, exactly the text that `print_lines` produces.
pub proof fn lemma_render_print_round_trip(result: Seq<Vec<Span>>, pane: Pane, printed: Seq<String>)
    requires
        pane.lines@.len() == result.len(),
        forall|i: int|
            0 <= i < result.len() ==> #[trigger] pane.lines@[i]@.len() == result[i]@.len(),
        forall|i: int, j: int|
            0 <= i < result.len() && 0 <= j < result[i]@.len() ==> #[trigger] pane.lines@[i]@[j].text@
                == result[i]@[j].text@,
        printed.len() == result.len(),
        forall|i: int|
            0 <= i < result.len() ==> #[trigger] printed[i]@ == line_text_spec(
                result_views(result)[i],
            ),
    ensures
        forall|i: int|
            0 <= i < result.len() ==> #[trigger] pane_line_text(pane.lines@[i]@) == printed[i]@,
{
    assert forall|i: int| 0 <= i < result.len() implies #[trigger] pane_line_text(pane.lines@[i]@)
        == printed[i]@ by {
        assert(result_views(result)[i] == line_views(result[i]@));
        assert forall|j: int| 0 <= j < line_views(result[i]@).len() implies #[trigger] pane.lines@[i]@[j].text@
            == line_views(result[i]@)[j].text by {
            assert(line_views(result[i]@)[j] == result[i]@[j]@);
        }
        lemma_pane_line_text_matches(line_views(result[i]@), pane.lines@[i]@);
    }
}

/// A run of `n` space characters.
pub open spec fn spaces(n: nat) -> Seq<char>
    decreases n,
{
    if n == 0 {
        Seq::<char>::empty()
    } else {
        spaces((n - 1) as nat) + seq![' ']
    }
}

/// A text padded with trailing spaces to the column width; longer text is
/// kept whole.
pub open spec fn pad_to(s: Seq<char>, w: nat) -> Seq<char> {
    if s.len() >= w {
        s
    } else {
        s + spaces((w - s.len()) as nat)
    }
}

/// Line `i` of one side's print form, the empty text where that side has
/// ended.
pub open spec fn column_line(lines: Seq<Seq<char>>, i: int) -> Seq<char> {
    if 0 <= i < lines.len() {
        lines[i]
    } else {
        Seq::<char>::empty()
    }
}

/// One combined terminal line: the left column padded to the column width,
/// the separator, then the right column.
pub open spec fn combined_line(l: Seq<char>, r: Seq<char>, w: nat) -> Seq<char> {
    pad_to(l, w) + seq![' ', '|', ' '] + r
}

/// Joins the two sides' print-form lines into the side-by-side terminal
/// lines: row by row, the left line padded to the column width, a separator,
/// and the right line, with an ended side continued as empty text. The
/// terminal sink writes these lines exactly as produced.
pub fn side_by_side_lines(left: &Vec<String>, right: &Vec<String>, column_width: usize) -> (out:
    Vec<String>)
    ensures
        out@.len() == (if left@.len() >= right@.len() {
            left@.len()
        } else {
            right@.len()
        }),
        forall|i: int|
            0 <= i < out@.len() ==> #[trigger] out@[i]@ == combined_line(
                column_line(text_views(left@), i),
                column_line(text_views(right@), i),
                column_width as nat,
            ),
{
    let n = if left.len() >= right.len() {
        left.len()
    } else {
        right.len()
    };
    let mut out: Vec<String> = Vec::new();
    let mut i: usize = 0;
    while i < n
        invariant
            i <= n,
            n == (if left@.len() >= right@.len() {
                left@.len()
            } else {
                right@.len()
            }),
            out@.len() == i,
            forall|k: int|
                0 <= k < i ==> #[trigger] out@[k]@ == combined_line(
                    column_line(text_views(left@), k),
                    column_line(text_views(right@), k),
                    column_width as nat,
                ),
        decreases n - i,
    {
        let ghost lcol = column_line(text_views(left@), i as int);
        let ghost rcol = column_line(text_views(right@), i as int);
        let mut line = String::new();
        if i < left.len() {
            line.append(left[i].as_str());
        }
        proof {
            assert(line@ =~= lcol);
        }
        let start = line.as_str().unicode_len();
        let mut j: usize = start;
        while j < column_width
            invariant
                lcol.len() <= j,
                lcol.len() >= column_width ==> j == lcol.len(),
                lcol.len() < column_width ==> j <= column_width,
                line@ =~= lcol + spaces((j - lcol.len()) as nat),
            decreases column_width - j,
        {
            line.append(" ");
            proof {
                reveal_strlit(" ");
                assert(" "@ =~= seq![' ']);
            }
            j = j + 1;
        }
        proof {
            assert(line@ =~= pad_to(lcol, column_width as nat));
        }
        line.append(" | ");
        proof {
            reveal_strlit(" | ");
            assert(" | "@ =~= seq![' ', '|', ' ']);
        }
        if i < right.len() {
            line.append(right[i].as_str());
        }
        proof {
            assert(line@ =~= combined_line(lcol, rcol, column_width as nat));
        }
        out.push(line);
        i = i + 1;
    }
    out
}

} // verus!
