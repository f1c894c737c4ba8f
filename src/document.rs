//! The expanded document: literal lines as they stand, and each directive
//! replaced by the files it selected, written in the output format.
use crate::eftemplate::{option_view, EfTemplate};
use crate::template::{parse_line, parse_template, LineView, Template, TemplateLine};
use crate::text::{append_chars, chars_of, lemma_lines_terminated, lines, string_of, terminated};
use crate::warning::{Warning, Warnings};
use vstd::prelude::*;

verus! {

/// A file that a directive selected, as the caller read it.
#[derive(Debug)]
pub struct ExpandedFile {
    /// The path the resolver gave.
    pub path: String,
    /// Its canonical form, where it could be found.
    pub canonical: Option<String>,
    /// Its text; none where it could not be read.
    pub content: Option<String>,
}

/// What the files of one directive add to the document: each file read is
/// written in the format and ended by a line feed.
pub open spec fn files_output(
    format: EfTemplate,
    cwd: Option<Seq<char>>,
    files: Seq<ExpandedFile>,
) -> Seq<char>
    decreases files.len(),
{
    if files.len() == 0 {
        Seq::empty()
    } else {
        let f = files.last();
        files_output(format, cwd, files.drop_last()) + match f.content {
            Some(c) => format.render(f.path@, option_view(f.canonical), cwd, c@).push('\n'),
            None => Seq::empty(),
        }
    }
}

/// The paths of the files that could not be read, in order.
pub open spec fn unread(files: Seq<ExpandedFile>) -> Seq<Seq<char>>
    decreases files.len(),
{
    if files.len() == 0 {
        Seq::empty()
    } else {
        let f = files.last();
        unread(files.drop_last()) + match f.content {
            Some(_) => Seq::empty(),
            None => seq![f.path@],
        }
    }
}

/// The document: each text line ended by a line feed, each directive line
/// replaced by the output of the files expanded for it.
pub open spec fn document(
    format: EfTemplate,
    cwd: Option<Seq<char>>,
    lines: Seq<LineView>,
    expansions: Seq<Seq<ExpandedFile>>,
) -> Seq<char>
    decreases lines.len(),
{
    if lines.len() == 0 {
        Seq::empty()
    } else {
        document(format, cwd, lines.drop_last(), expansions) + match lines.last() {
            LineView::Text(t) => t.push('\n'),
            LineView::Directive(_) => files_output(format, cwd, expansions[lines.len() - 1]),
        }
    }
}

/// The warnings that rendering raises: one per file that could not be read.
pub open spec fn document_warnings(
    lines: Seq<LineView>,
    expansions: Seq<Seq<ExpandedFile>>,
) -> Seq<Seq<char>>
    decreases lines.len(),
{
    if lines.len() == 0 {
        Seq::empty()
    } else {
        document_warnings(lines.drop_last(), expansions) + match lines.last() {
            LineView::Text(_) => Seq::empty(),
            LineView::Directive(_) => unread(expansions[lines.len() - 1]),
        }
    }
}

pub open spec fn nested_views(v: Seq<Vec<ExpandedFile>>) -> Seq<Seq<ExpandedFile>> {
    v.map_values(|f: Vec<ExpandedFile>| f@)
}

fn render_files(
    format: &EfTemplate,
    cwd: &Option<String>,
    files: &Vec<ExpandedFile>,
    out: &mut Vec<char>,
    warnings: &mut Warnings,
)
    ensures
        final(out)@ == old(out)@ + files_output(*format, option_view(*cwd), files@),
        final(warnings)@ == old(warnings)@ + unread(files@),
{
    let mut i: usize = 0;
    while i < files.len()
        invariant
            i <= files.len(),
            out@ == old(out)@ + files_output(*format, option_view(*cwd), files@.take(i as int)),
            warnings@ == old(warnings)@ + unread(files@.take(i as int)),
        decreases files.len() - i,
    {
        let f = &files[i];
        proof {
            assert(files@.take(i + 1).drop_last() =~= files@.take(i as int));
            assert(files@.take(i + 1).last() == *f);
        }
        match &f.content {
            Some(c) => {
                let written = format.format(f.path.as_str(), &f.canonical, cwd, c.as_str());
                append_chars(out, &chars_of(written.as_str()));
                out.push('\n');
            },
            None => {
                warnings.push(Warning::FileNotFound { path: f.path.clone() });
            },
        }
        i += 1;
        assert(out@ =~= old(out)@ + files_output(*format, option_view(*cwd), files@.take(i as int)));
        assert(warnings@ =~= old(warnings)@ + unread(files@.take(i as int)));
    }
    assert(files@.take(i as int) =~= files@);
}

/// Renders the document of `template`. `expansions` holds, for each line, the
/// files expanded for it (ignored for a text line), and `cwd` the canonical
/// working directory where it is known. A file that could not be read is
/// left out with a warning.
pub fn render_document(
    template: &Template,
    format: &EfTemplate,
    cwd: &Option<String>,
    expansions: &Vec<Vec<ExpandedFile>>,
    warnings: &mut Warnings,
) -> (r: String)
    requires
        expansions.len() == template@.len(),
    ensures
        r@ == document(*format, option_view(*cwd), template@, nested_views(expansions@)),
        final(warnings)@ == old(warnings)@ + document_warnings(
            template@,
            nested_views(expansions@),
        ),
{
    let lines = template.lines();
    let ghost ls = template@;
    let ghost ex = nested_views(expansions@);
    let mut out: Vec<char> = Vec::new();
    let mut i: usize = 0;
    while i < lines.len()
        invariant
            i <= lines.len() == expansions.len(),
            lines@.map_values(|l: TemplateLine| l@) == ls,
            ls == template@,
            ex == nested_views(expansions@),
            out@ == document(*format, option_view(*cwd), ls.take(i as int), ex),
            warnings@ == old(warnings)@ + document_warnings(ls.take(i as int), ex),
        decreases lines.len() - i,
    {
        proof {
            assert(ls.take(i + 1).drop_last() =~= ls.take(i as int));
            assert(ls.take(i + 1).last() == lines@[i as int]@);
            assert(ex[i as int] == expansions@[i as int]@);
        }
        match &lines[i] {
            TemplateLine::Text(t) => {
                append_chars(&mut out, &chars_of(t.as_str()));
                out.push('\n');
                assert(warnings@ =~= old(warnings)@ + document_warnings(ls.take(i + 1), ex));
            },
            TemplateLine::Directive(_) => {
                render_files(format, cwd, &expansions[i], &mut out, warnings);
                assert(warnings@ =~= old(warnings)@ + document_warnings(ls.take(i + 1), ex));
            },
        }
        i += 1;
        assert(out@ =~= document(*format, option_view(*cwd), ls.take(i as int), ex));
    }
    assert(ls.take(i as int) =~= ls);
    string_of(&out)
}

proof fn lemma_literal_lines(
    format: EfTemplate,
    cwd: Option<Seq<char>>,
    ls: Seq<Seq<char>>,
    expansions: Seq<Seq<ExpandedFile>>,
)
    requires
        forall|i: int| 0 <= i < ls.len() ==> !(ls[i].len() > 0 && #[trigger] ls[i][0] == '#'),
    ensures
        document(format, cwd, ls.map_values(|l: Seq<char>| parse_line(l)), expansions)
            == terminated(ls),
        document_warnings(ls.map_values(|l: Seq<char>| parse_line(l)), expansions) == Seq::<
            Seq<char>,
        >::empty(),
    decreases ls.len(),
{
    let parsed = ls.map_values(|l: Seq<char>| parse_line(l));
    if ls.len() > 0 {
        let rest = ls.drop_last();
        assert forall|i: int| 0 <= i < rest.len() implies !(rest[i].len() > 0 && #[trigger] rest[i][0]
            == '#') by {
            assert(rest[i] == ls[i]);
        }
        lemma_literal_lines(format, cwd, rest, expansions);
        assert(parsed.drop_last() =~= rest.map_values(|l: Seq<char>| parse_line(l)));
        let k = ls.len() - 1;
        assert(!(ls[k].len() > 0 && ls[k][0] == '#'));
        assert(parsed.last() == LineView::Text(ls.last()));
        assert(document_warnings(parsed, expansions) =~= Seq::<Seq<char>>::empty());
    }
}

/// A template of literal text alone, with no line starting with `#`, renders
/// to its lines, each ended by a line feed, and raises no warning. Where the
/// text has no carriage return and ends with a line feed (or is empty), the
/// document is the text itself.
pub proof fn lemma_literal_template_round_trip(
    format: EfTemplate,
    cwd: Option<Seq<char>>,
    content: Seq<char>,
    expansions: Seq<Seq<ExpandedFile>>,
)
    requires
        forall|i: int|
            0 <= i < lines(content).len() ==> !(lines(content)[i].len() > 0 && #[trigger] lines(
                content,
            )[i][0] == '#'),
    ensures
        document(format, cwd, parse_template(content), expansions) == terminated(lines(content)),
        document_warnings(parse_template(content), expansions) == Seq::<Seq<char>>::empty(),
        (forall|i: int| 0 <= i < content.len() ==> content[i] != '\r') && (content.len() == 0
            || content.last() == '\n') ==> document(format, cwd, parse_template(content), expansions)
            == content,
{
    lemma_literal_lines(format, cwd, lines(content), expansions);
    if (forall|i: int| 0 <= i < content.len() ==> content[i] != '\r') && (content.len() == 0
        || content.last() == '\n') {
        lemma_lines_terminated(content);
    }
}

} // verus!
