//! Assembly of the beamer document: a fixed preamble, one frame per slide,
//! and the closing marker.
use vstd::prelude::*;
use crate::escape::{escaped, push_escaped};
use crate::text::{
    joined, lemma_split_on_joined, lemma_split_on_nonempty, lines_of, split_chars, split_on,
    string_views, strings_of, text_lines, to_chars, views,
};

verus! {

/// Page setup: 16:9 beamer slides on black, white sans-serif text, no
/// navigation decorations, and page-relative units for absolute placement.
pub const PREAMBLE: &'static str = r#"\documentclass[aspectratio=169]{beamer}
\usepackage[T1]{fontenc}
\usepackage[utf8]{inputenc}
\usepackage{xcolor}
\usepackage[absolute,overlay]{textpos}
\usetheme{default}
\setbeamertemplate{navigation symbols}{}
\setbeamertemplate{footline}{}
\setbeamercolor{background canvas}{bg=black}
\renewcommand{\rmdefault}{phv} % Arial
\renewcommand{\sfdefault}{phv} % Arial
\renewcommand{\baselinestretch}{1.2}
\setlength{\TPHorizModule}{\paperwidth}
\setlength{\TPVertModule}{\paperheight}
\begin{document}
\color{white}
"#;

/// Opens a frame with centered white content.
pub const FRAME_OPEN: &'static str = "\\begin{frame}\n\\centering\n\\color{white}\n";

/// Closes a frame.
pub const FRAME_CLOSE: &'static str = "\\end{frame}\n\n";

/// Starts one large display line.
pub const LINE_OPEN: &'static str = "\\huge{";

/// Ends one large display line with a forced line break.
pub const LINE_CLOSE: &'static str = "} \\\\\n";

/// Starts the small gray preview block near the bottom left of the page.
pub const PREVIEW_OPEN: &'static str = "\n\\begin{textblock}{1.0}(0.00001,0.8)\\color{gray}\\normalsize{";

/// Ends the preview block.
pub const PREVIEW_CLOSE: &'static str = "}\\end{textblock}\n";

/// Ends the document.
pub const DOCUMENT_END: &'static str = "\\end{document}\n";

/// The slide blocks of a source text: the text cut at every blank line
/// (two newlines in a row), literally and from left to right.
pub open spec fn slides_of(text: Seq<char>) -> Seq<Seq<char>> {
    split_on(text, seq!['\n', '\n'])
}

/// One line of a slide: nothing for an empty line, else the escaped line set large.
pub open spec fn display_line(line: Seq<char>) -> Seq<char> {
    if line.len() == 0 {
        Seq::empty()
    } else {
        LINE_OPEN@ + escaped(line) + LINE_CLOSE@
    }
}

/// The display lines of a slide, in order.
pub open spec fn slide_body(lines: Seq<Seq<char>>) -> Seq<char>
    decreases lines.len(),
{
    if lines.len() == 0 {
        Seq::empty()
    } else {
        slide_body(lines.drop_last()) + display_line(lines.last())
    }
}

/// The preview on slide `i`: the first line of the next slide, escaped; nothing
/// on the last slide or when the next slide has no lines at all.
pub open spec fn preview(slides: Seq<Seq<char>>, i: int) -> Seq<char> {
    if i + 1 < slides.len() && text_lines(slides[i + 1]).len() > 0 {
        PREVIEW_OPEN@ + escaped(text_lines(slides[i + 1])[0]) + PREVIEW_CLOSE@
    } else {
        Seq::empty()
    }
}

/// The frame of slide `i`.
pub open spec fn frame(slides: Seq<Seq<char>>, i: int) -> Seq<char> {
    FRAME_OPEN@ + slide_body(text_lines(slides[i])) + preview(slides, i) + FRAME_CLOSE@
}

/// The frames of the first `n` slides, in order.
pub open spec fn frames(slides: Seq<Seq<char>>, n: int) -> Seq<char>
    decreases n,
{
    if n <= 0 {
        Seq::empty()
    } else {
        frames(slides, n - 1) + frame(slides, n - 1)
    }
}

/// The document for a source text.
pub open spec fn document(text: Seq<char>) -> Seq<char> {
    let slides = slides_of(text);
    PREAMBLE@ + frames(slides, slides.len() as int) + DOCUMENT_END@
}

/// The slide blocks of `text` (see `slides_of`); there is always at least one.
pub fn split_slides(text: &str) -> (r: Vec<String>)
    ensures
        string_views(r@) == slides_of(text@),
        r@.len() >= 1,
{
    let chars = to_chars(text);
    let mut separator: Vec<char> = Vec::new();
    separator.push('\n');
    separator.push('\n');
    assert(separator@ =~= seq!['\n', '\n']);
    let blocks = split_chars(&chars, &separator);
    proof {
        lemma_split_on_nonempty(text@, seq!['\n', '\n']);
    }
    strings_of(&blocks)
}

/// The display lines of one slide block (see `text_lines`).
pub fn slide_lines(block: &str) -> (r: Vec<String>)
    ensures
        string_views(r@) == text_lines(block@),
{
    let chars = to_chars(block);
    let lines = lines_of(&chars);
    strings_of(&lines)
}

/// A source text is never lost in splitting: it has at least one slide
/// block, and the blocks joined with blank lines give back the text.
pub proof fn lemma_slides_cover_text(text: Seq<char>)
    ensures
        slides_of(text).len() >= 1,
        joined(slides_of(text), seq!['\n', '\n']) == text,
{
    lemma_split_on_nonempty(text, seq!['\n', '\n']);
    lemma_split_on_joined(text, seq!['\n', '\n']);
}

/// Building is a function of the source text alone: equal texts, for
/// instance the same text built twice, give identical documents.
pub proof fn lemma_document_deterministic(a: Seq<char>, b: Seq<char>)
    requires
        a == b,
    ensures
        document(a) == document(b),
{
}

/// Appends the display lines of one slide to `out`.
fn push_slide_body(out: &mut String, lines: &Vec<Vec<char>>)
    ensures
        final(out)@ == old(out)@ + slide_body(views(lines@)),
{
    let ghost start = out@;
    let ghost all = views(lines@);
    let mut j: usize = 0;
    assert(all.take(0) =~= Seq::<Seq<char>>::empty());
    assert(start + Seq::<char>::empty() =~= start);
    while j < lines.len()
        invariant
            j <= lines@.len(),
            all == views(lines@),
            out@ == start + slide_body(all.take(j as int)),
        decreases lines@.len() - j,
    {
        let ghost prev = out@;
        assert(all.take(j + 1).drop_last() =~= all.take(j as int));
        if lines[j].len() > 0 {
            out.append(LINE_OPEN);
            push_escaped(out, &lines[j]);
            out.append(LINE_CLOSE);
        }
        assert(out@ =~= prev + display_line(all[j as int]));
        assert(out@ =~= start + slide_body(all.take(j + 1)));
        j = j + 1;
    }
    assert(all.take(j as int) =~= all);
}

/// Builds the complete document for one source text: the preamble, then one
/// frame per slide block with its non-empty lines escaped and set large and,
/// on every slide but the last, a preview of the next block's first line;
/// then the closing marker.
pub fn build_document(source: &str) -> (r: String)
    ensures
        r@ == document(source@),
{
    let chars = to_chars(source);
    let mut separator: Vec<char> = Vec::new();
    separator.push('\n');
    separator.push('\n');
    assert(separator@ =~= seq!['\n', '\n']);
    let blocks = split_chars(&chars, &separator);
    let ghost slides = slides_of(source@);
    let mut out = String::from_str(PREAMBLE);
    let mut i: usize = 0;
    while i < blocks.len()
        invariant
            i <= blocks@.len(),
            slides == views(blocks@),
            out@ == PREAMBLE@ + frames(slides, i as int),
        decreases blocks@.len() - i,
    {
        let ghost prev = out@;
        out.append(FRAME_OPEN);
        let lines = lines_of(&blocks[i]);
        push_slide_body(&mut out, &lines);
        let ghost with_body = out@;
        if i + 1 < blocks.len() {
            let next = lines_of(&blocks[i + 1]);
            if next.len() > 0 {
                out.append(PREVIEW_OPEN);
                push_escaped(&mut out, &next[0]);
                out.append(PREVIEW_CLOSE);
            }
        }
        assert(out@ =~= with_body + preview(slides, i as int));
        out.append(FRAME_CLOSE);
        assert(out@ =~= prev + frame(slides, i as int));
        i = i + 1;
    }
    out.append(DOCUMENT_END);
    out
}

} // verus!
