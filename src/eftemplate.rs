//! The output format: how one matched file is written into the document.
use crate::language_mapping::{lookup, LanguageTable, table_from, LANGUAGE_MAPPINGS_RON};
use crate::paths::{
    absolute, ancestor, ancestors, extension, extension_of, has_prefix, is_absolute_path,
    join_path, join_paths, names, normalize, normalize_path, starts_with_path,
};
use crate::text::{append_chars, chars_of, string_of};
use vstd::prelude::*;

verus! {

/// The name of the per-directory configuration file.
pub const CONFIG_FILE_NAME: &'static str = ".eftemplate";

/// The format used where no configuration file is found: the path, then the
/// content in a code fence labelled with the language.
pub const DEFAULT_TEMPLATE: &'static str = "{filePath}\n```{language}\n{content}\n```\n";

/// The language label of a file whose extension the table does not know.
pub const PLAINTEXT: &'static str = "plaintext";

pub open spec fn file_path_key() -> Seq<char> {
    seq!['{', 'f', 'i', 'l', 'e', 'P', 'a', 't', 'h', '}']
}

pub open spec fn language_key() -> Seq<char> {
    seq!['{', 'l', 'a', 'n', 'g', 'u', 'a', 'g', 'e', '}']
}

pub open spec fn content_key() -> Seq<char> {
    seq!['{', 'c', 'o', 'n', 't', 'e', 'n', 't', '}']
}

pub open spec fn starts_with(t: Seq<char>, key: Seq<char>) -> bool {
    key.len() <= t.len() && t.take(key.len() as int) == key
}

/// `t` with every `{filePath}`, `{language}` and `{content}` replaced, in one
/// pass from left to right: what is put in is not searched again.
pub open spec fn fill(t: Seq<char>, path: Seq<char>, language: Seq<char>, content: Seq<char>) -> Seq<
    char,
>
    decreases t.len(),
{
    if t.len() == 0 {
        t
    } else if starts_with(t, file_path_key()) {
        path + fill(t.skip(file_path_key().len() as int), path, language, content)
    } else if starts_with(t, language_key()) {
        language + fill(t.skip(language_key().len() as int), path, language, content)
    } else if starts_with(t, content_key()) {
        content + fill(t.skip(content_key().len() as int), path, language, content)
    } else {
        seq![t[0]] + fill(t.drop_first(), path, language, content)
    }
}

/// The path of the diff from `base` to `path` that `pathdiff::diff_paths`
/// computes, or none where it finds none.
pub uninterp spec fn path_diff(path: Seq<char>, base: Seq<char>) -> Option<Seq<char>>;

/// Relies on `pathdiff::diff_paths`: the relative path that leads from `base`
/// to `path`.
#[verifier::external_body]
fn diff_paths(path: &str, base: &str) -> (r: Option<String>)
    ensures
        r is None ==> path_diff(path@, base@) is None,
        r matches Some(d) ==> path_diff(path@, base@) == Some(d@),
{
    pathdiff::diff_paths(path, base).map(|p| p.to_string_lossy().into_owned())
}

/// The path shown for a file. A relative path is shown as given. An
/// absolute one is shown relative to the working directory where its
/// canonical form lies inside the canonical working directory, and in its
/// canonical form where it lies outside; where either canonical form is
/// unknown, as given. The result is written out from its components.
pub open spec fn shown_path(
    file: Seq<char>,
    canonical_file: Option<Seq<char>>,
    canonical_cwd: Option<Seq<char>>,
) -> Seq<char> {
    normalize(
        if absolute(file) {
            match (canonical_file, canonical_cwd) {
                (Some(f), Some(c)) => if has_prefix(f, c) {
                    match path_diff(f, c) {
                        Some(d) => d,
                        None => f,
                    }
                } else {
                    f
                },
                _ => file,
            }
        } else {
            file
        },
    )
}

/// The language label of `path`: what the table gives for its extension, or
/// `plaintext`.
pub open spec fn language_label(table: Seq<(Seq<char>, Seq<char>)>, path: Seq<char>) -> Seq<char> {
    match extension(path) {
        Some(e) => match lookup(table, e) {
            Some(l) => l,
            None => PLAINTEXT@,
        },
        None => PLAINTEXT@,
    }
}

/// The configuration chosen among candidates: the first that is present.
pub open spec fn chosen(candidates: Seq<Seq<char>>, present: Seq<bool>) -> Option<Seq<char>>
    decreases present.len(),
{
    if present.len() == 0 || candidates.len() == 0 {
        None
    } else if present[0] {
        Some(candidates[0])
    } else {
        chosen(candidates.drop_first(), present.drop_first())
    }
}

pub open spec fn option_view(o: Option<String>) -> Option<Seq<char>> {
    match o {
        Some(s) => Some(s@),
        None => None,
    }
}

/// An output format and the extension table it labels languages with.
pub struct EfTemplate {
    template: String,
    languages: LanguageTable,
}

impl EfTemplate {
    /// The format text.
    pub closed spec fn text(&self) -> Seq<char> {
        self.template@
    }

    /// The extension table.
    pub closed spec fn table(&self) -> Seq<(Seq<char>, Seq<char>)> {
        self.languages@
    }

    /// What `format` writes for one file.
    pub open spec fn render(
        &self,
        file: Seq<char>,
        canonical_file: Option<Seq<char>>,
        canonical_cwd: Option<Seq<char>>,
        content: Seq<char>,
    ) -> Seq<char> {
        let shown = shown_path(file, canonical_file, canonical_cwd);
        fill(self.text(), shown, language_label(self.table(), shown), content)
    }

    /// A format of the given text and table.
    pub fn new(template: String, languages: LanguageTable) -> (r: EfTemplate)
        ensures
            r.text() == template@,
            r.table() == languages@,
    {
        EfTemplate { template, languages }
    }

    /// The format that a found configuration file holds, or the default
    /// format where none was found; either labels languages with the
    /// built-in table.
    pub fn from_config(found: Option<String>) -> (r: EfTemplate)
        ensures
            found matches Some(t) ==> r.text() == t@,
            found is None ==> r.text() == DEFAULT_TEMPLATE@,
            r.table() == table_from(LANGUAGE_MAPPINGS_RON@),
    {
        let template = match found {
            Some(t) => t,
            None => DEFAULT_TEMPLATE.to_owned(),
        };
        EfTemplate { template, languages: LanguageTable::embedded() }
    }

    /// The format text.
    pub fn template(&self) -> (r: &str)
        ensures
            r@ == self.text(),
    {
        self.template.as_str()
    }

    /// Where a configuration file for `start_dir` may be: in the directory
    /// itself, then in each ancestor up to the root, nearest first.
    pub fn config_candidates(start_dir: &str) -> (r: Vec<String>)
        ensures
            r.len() == names(start_dir@).len() + 1,
            forall|k: int|
                0 <= k < r.len() ==> (#[trigger] r[k])@ == join_path(
                    ancestor(start_dir@, k),
                    CONFIG_FILE_NAME@,
                ),
    {
        let dirs = ancestors(start_dir);
        let mut r: Vec<String> = Vec::new();
        let mut k: usize = 0;
        while k < dirs.len()
            invariant
                k <= dirs.len() == names(start_dir@).len() + 1,
                forall|j: int| 0 <= j < dirs.len() ==> (#[trigger] dirs[j])@ == ancestor(start_dir@, j),
                r.len() == k,
                forall|j: int|
                    0 <= j < k ==> (#[trigger] r[j])@ == join_path(
                        ancestor(start_dir@, j),
                        CONFIG_FILE_NAME@,
                    ),
            decreases dirs.len() - k,
        {
            r.push(join_paths(dirs[k].as_str(), CONFIG_FILE_NAME));
            k += 1;
        }
        r
    }

    /// The configuration file that governs: the first candidate that is
    /// present, so a nearer file shadows one further up.
    pub fn find_template(candidates: &Vec<String>, present: &Vec<bool>) -> (r: Option<String>)
        requires
            candidates.len() == present.len(),
        ensures
            option_view(r) == chosen(candidates@.map_values(|c: String| c@), present@),
    {
        let ghost cs = candidates@.map_values(|c: String| c@);
        let mut i: usize = 0;
        assert(cs.skip(0) =~= cs);
        assert(present@.skip(0) =~= present@);
        while i < present.len()
            invariant
                i <= present.len() == candidates.len(),
                cs == candidates@.map_values(|c: String| c@),
                chosen(cs, present@) == chosen(cs.skip(i as int), present@.skip(i as int)),
            decreases present.len() - i,
        {
            assert(cs.skip(i as int).drop_first() =~= cs.skip(i + 1));
            assert(present@.skip(i as int).drop_first() =~= present@.skip(i + 1));
            if present[i] {
                return Some(candidates[i].clone());
            }
            i += 1;
        }
        None
    }

    /// The path shown for `file_path`, given the canonical forms of the file
    /// and of the working directory where they are known.
    pub fn display_path(
        file_path: &str,
        canonical_file: &Option<String>,
        canonical_cwd: &Option<String>,
    ) -> (r: String)
        ensures
            r@ == shown_path(file_path@, option_view(*canonical_file), option_view(*canonical_cwd)),
            !absolute(file_path@) ==> r@ == normalize(file_path@),
            absolute(file_path@) && canonical_file is Some && canonical_cwd is Some && !has_prefix(
                canonical_file->Some_0@,
                canonical_cwd->Some_0@,
            ) ==> r@ == normalize(canonical_file->Some_0@),
    {
        if !is_absolute_path(file_path) {
            return normalize_path(file_path);
        }
        match (canonical_file, canonical_cwd) {
            (Some(f), Some(c)) => {
                if starts_with_path(f.as_str(), c.as_str()) {
                    match diff_paths(f.as_str(), c.as_str()) {
                        Some(d) => normalize_path(d.as_str()),
                        None => normalize_path(f.as_str()),
                    }
                } else {
                    normalize_path(f.as_str())
                }
            },
            _ => normalize_path(file_path),
        }
    }

    /// The language label for the file that `path` names.
    pub fn language_of(&self, path: &str) -> (r: String)
        ensures
            r@ == language_label(self.table(), path@),
    {
        match extension_of(path) {
            Some(e) => match self.languages.get(e.as_str()) {
                Some(l) => l,
                None => PLAINTEXT.to_owned(),
            },
            None => PLAINTEXT.to_owned(),
        }
    }

    /// One file written in this format.
    pub fn format(
        &self,
        file_path: &str,
        canonical_file: &Option<String>,
        canonical_cwd: &Option<String>,
        content: &str,
    ) -> (r: String)
        ensures
            r@ == self.render(
                file_path@,
                option_view(*canonical_file),
                option_view(*canonical_cwd),
                content@,
            ),
    {
        let shown = EfTemplate::display_path(file_path, canonical_file, canonical_cwd);
        let language = self.language_of(shown.as_str());
        let out = fill_template(
            &chars_of(self.template.as_str()),
            &chars_of(shown.as_str()),
            &chars_of(language.as_str()),
            &chars_of(content),
        );
        string_of(&out)
    }
}

impl Default for EfTemplate {
    fn default() -> (r: EfTemplate)
        ensures
            r.text() == DEFAULT_TEMPLATE@,
            r.table() == table_from(LANGUAGE_MAPPINGS_RON@),
    {
        EfTemplate::from_config(None)
    }
}

fn key_at(t: &Vec<char>, i: usize, key: &Vec<char>) -> (r: bool)
    requires
        i <= t.len(),
    ensures
        r == starts_with(t@.skip(i as int), key@),
{
    if key.len() > t.len() - i {
        return false;
    }
    let mut j: usize = 0;
    while j < key.len()
        invariant
            j <= key.len() <= t.len() - i,
            i <= t.len(),
            forall|m: int| 0 <= m < j ==> t@[i + m] == key@[m],
        decreases key.len() - j,
    {
        if t[i + j] != key[j] {
            assert(t@.skip(i as int).take(key.len() as int)[j as int] != key@[j as int]);
            return false;
        }
        j += 1;
    }
    assert(t@.skip(i as int).take(key.len() as int) =~= key@);
    true
}

fn fill_template(t: &Vec<char>, path: &Vec<char>, language: &Vec<char>, content: &Vec<char>) -> (r:
    Vec<char>)
    ensures
        r@ == fill(t@, path@, language@, content@),
{
    let kp = vec!['{', 'f', 'i', 'l', 'e', 'P', 'a', 't', 'h', '}'];
    let kl = vec!['{', 'l', 'a', 'n', 'g', 'u', 'a', 'g', 'e', '}'];
    let kc = vec!['{', 'c', 'o', 'n', 't', 'e', 'n', 't', '}'];
    assert(kp@ =~= file_path_key());
    assert(kl@ =~= language_key());
    assert(kc@ =~= content_key());
    let mut out: Vec<char> = Vec::new();
    let mut i: usize = 0;
    assert(t@.skip(0) =~= t@);
    while i < t.len()
        invariant
            i <= t.len(),
            kp@ == file_path_key(),
            kl@ == language_key(),
            kc@ == content_key(),
            out@ + fill(t@.skip(i as int), path@, language@, content@) == fill(
                t@,
                path@,
                language@,
                content@,
            ),
        decreases t.len() - i,
    {
        let ghost rest = t@.skip(i as int);
        if key_at(t, i, &kp) {
            append_chars(&mut out, path);
            assert(rest.skip(10) =~= t@.skip(i + 10));
            i += 10;
        } else if key_at(t, i, &kl) {
            append_chars(&mut out, language);
            assert(rest.skip(10) =~= t@.skip(i + 10));
            i += 10;
        } else if key_at(t, i, &kc) {
            append_chars(&mut out, content);
            assert(rest.skip(9) =~= t@.skip(i + 9));
            i += 9;
        } else {
            out.push(t[i]);
            assert(rest.drop_first() =~= t@.skip(i + 1));
            i += 1;
        }
        assert(out@ + fill(t@.skip(i as int), path@, language@, content@) =~= fill(
            t@,
            path@,
            language@,
            content@,
        ));
    }
    assert(out@ + fill(t@.skip(i as int), path@, language@, content@) =~= out@);
    out
}

/// Nearest configuration wins: where the configuration at index `i` is
/// present and none nearer is, it is the one chosen, whatever the candidates
/// further up hold. With `i` = 0, a configuration file in the directory
/// itself shadows every ancestor's.
pub proof fn lemma_nearest_config_wins(candidates: Seq<Seq<char>>, present: Seq<bool>, i: int)
    requires
        candidates.len() == present.len(),
        0 <= i < present.len(),
        present[i],
        forall|j: int| 0 <= j < i ==> !present[j],
    ensures
        chosen(candidates, present) == Some(candidates[i]),
    decreases i,
{
    if i > 0 {
        assert(!present[0]);
        assert forall|j: int| 0 <= j < i - 1 implies !present.drop_first()[j] by {
            assert(!present[j + 1]);
        }
        lemma_nearest_config_wins(candidates.drop_first(), present.drop_first(), i - 1);
    }
}

} // verus!
