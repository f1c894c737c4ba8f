//! The template: literal text lines and the directives among them.
use crate::error::Error;
use crate::text::{
    chars_of, join, join_pieces, keep_non_empty, lemma_lines_unbroken, lemma_single_line, lines,
    skip_chars, split_pieces, string_of, text_lines, views, words, Separator,
};
use vstd::prelude::*;

verus! {

/// A request to expand the files that a pattern selects.
#[derive(Debug, PartialEq, Eq, Clone)]
pub enum Directive {
    /// `#ef <pattern>`: a shell glob.
    Glob(String),
    /// `#efr <pattern>`: a regular expression over base-relative paths.
    Regex(String),
}

/// One line of a template.
#[derive(Debug, PartialEq, Eq, Clone)]
pub enum TemplateLine {
    /// A line passed through as it stands.
    Text(String),
    /// A line that asks for files.
    Directive(Directive),
}

/// A parsed template: its lines, in source order.
#[derive(Debug, PartialEq, Eq)]
pub struct Template {
    lines: Vec<TemplateLine>,
}

pub ghost enum DirectiveView {
    Glob(Seq<char>),
    Regex(Seq<char>),
}

pub ghost enum LineView {
    Text(Seq<char>),
    Directive(DirectiveView),
}

impl View for Directive {
    type V = DirectiveView;

    open spec fn view(&self) -> DirectiveView {
        match self {
            Directive::Glob(p) => DirectiveView::Glob(p@),
            Directive::Regex(p) => DirectiveView::Regex(p@),
        }
    }
}

impl View for TemplateLine {
    type V = LineView;

    open spec fn view(&self) -> LineView {
        match self {
            TemplateLine::Text(t) => LineView::Text(t@),
            TemplateLine::Directive(d) => LineView::Directive(d@),
        }
    }
}

impl View for Template {
    type V = Seq<LineView>;

    closed spec fn view(&self) -> Seq<LineView> {
        self.lines@.map_values(|l: TemplateLine| l@)
    }
}

/// The directive keyword for glob patterns.
pub open spec fn glob_keyword() -> Seq<char> {
    seq!['e', 'f']
}

/// The directive keyword for regular expressions.
pub open spec fn regex_keyword() -> Seq<char> {
    seq!['e', 'f', 'r']
}

/// What one line of a template is. A line that starts with `#` is split at
/// white space after the `#`; when its first word is a directive keyword and
/// the other words, joined with single spaces, are not empty, it is that
/// directive with that argument. Every other line is text.
pub open spec fn parse_line(l: Seq<char>) -> LineView {
    if l.len() > 0 && l[0] == '#' {
        let ws = words(l.drop_first());
        if ws.len() == 0 {
            LineView::Text(l)
        } else {
            let arg = join(ws.drop_first(), seq![' ']);
            if ws[0] == glob_keyword() && arg.len() > 0 {
                LineView::Directive(DirectiveView::Glob(arg))
            } else if ws[0] == regex_keyword() && arg.len() > 0 {
                LineView::Directive(DirectiveView::Regex(arg))
            } else {
                LineView::Text(l)
            }
        }
    } else {
        LineView::Text(l)
    }
}

/// The template that a text holds: one entry per line, in order.
pub open spec fn parse_template(content: Seq<char>) -> Seq<LineView> {
    lines(content).map_values(|l: Seq<char>| parse_line(l))
}

fn is_keyword(w: &Vec<char>, regex: bool) -> (r: bool)
    ensures
        r == (w@ == if regex {
            regex_keyword()
        } else {
            glob_keyword()
        }),
{
    let n: usize = if regex {
        3
    } else {
        2
    };
    if w.len() != n || w[0] != 'e' || w[1] != 'f' || (regex && w[2] != 'r') {
        return false;
    }
    if regex {
        assert(w@ =~= regex_keyword());
    } else {
        assert(w@ =~= glob_keyword());
    }
    true
}

fn parse_one_line(line: Vec<char>) -> (r: TemplateLine)
    ensures
        r@ == parse_line(line@),
{
    if line.len() > 0 && line[0] == '#' {
        let rest = skip_chars(&line, 1);
        assert(rest@ =~= line@.drop_first());
        let ws = keep_non_empty(split_pieces(&rest, Separator::Whitespace));
        if ws.len() == 0 {
            return TemplateLine::Text(string_of(&line));
        }
        let space = vec![' '];
        let arg = join_pieces(&ws, 1, ws.len(), &space);
        proof {
            assert(views(ws@).subrange(1, ws.len() as int) =~= views(ws@).drop_first());
            assert(space@ =~= seq![' ']);
        }
        if arg.len() > 0 && is_keyword(&ws[0], false) {
            TemplateLine::Directive(Directive::Glob(string_of(&arg)))
        } else if arg.len() > 0 && is_keyword(&ws[0], true) {
            TemplateLine::Directive(Directive::Regex(string_of(&arg)))
        } else {
            TemplateLine::Text(string_of(&line))
        }
    } else {
        TemplateLine::Text(string_of(&line))
    }
}

impl Template {
    /// Parses a template. Every text is a template, so this never fails.
    pub fn parse(content: &str) -> (r: Result<Template, Error>)
        ensures
            r matches Ok(t) && t@ == parse_template(content@),
    {
        let ls = text_lines(&chars_of(content));
        let ghost ls_view = views(ls@);
        let mut out: Vec<TemplateLine> = Vec::new();
        for line in it: ls.into_iter()
            invariant
                it.seq() == ls@,
                ls_view == views(ls@),
                ls_view == lines(content@),
                out@.map_values(|l: TemplateLine| l@) == ls_view.take(it.index() as int).map_values(
                    |l: Seq<char>| parse_line(l),
                ),
        {
            let ghost i = it.index() as int;
            let parsed = parse_one_line(line);
            proof {
                assert(ls_view[i] == ls@[i]@);
                assert(ls_view.take(i + 1).map_values(|l: Seq<char>| parse_line(l)) =~= ls_view.take(
                    i,
                ).map_values(|l: Seq<char>| parse_line(l)).push(parse_line(ls_view[i])));
                assert(out@.push(parsed).map_values(|l: TemplateLine| l@) =~= out@.map_values(
                    |l: TemplateLine| l@,
                ).push(parsed@));
            }
            out.push(parsed);
        }
        assert(ls_view.take(ls_view.len() as int) =~= ls_view);
        Ok(Template { lines: out })
    }

    /// The lines, in source order.
    pub fn lines(&self) -> (r: &[TemplateLine])
        ensures
            r@.map_values(|l: TemplateLine| l@) == self@,
    {
        self.lines.as_slice()
    }
}

/// A line that parsing kept as text, parsed again on its own, gives the same
/// text line. An empty line is left out: the empty text has no lines.
pub proof fn lemma_text_line_reparses(content: Seq<char>, i: int)
    requires
        0 <= i < parse_template(content).len(),
        parse_template(content)[i] is Text,
        parse_template(content)[i]->Text_0.len() > 0,
    ensures
        parse_template(parse_template(content)[i]->Text_0) == seq![parse_template(content)[i]],
{
    let l = lines(content)[i];
    let t = parse_template(content)[i]->Text_0;
    assert(parse_template(content)[i] == parse_line(l));
    assert(t == l);
    lemma_lines_unbroken(content);
    assert forall|m: int| 0 <= m < t.len() implies #[trigger] t[m] != '\n' by {
        assert(lines(content)[i][m] != '\n');
    }
    lemma_single_line(t);
    assert(parse_template(t) =~= seq![parse_line(t)]);
}

} // verus!
