//! Turns the pattern of a directive into the files it selects.
//!
//! The resolver decides; the caller walks the file system. For a glob the
//! resolver builds and checks the search pattern and hands back the lazy
//! expansion; the caller iterates it, probes each path and hands the probes
//! back to `resolve_glob`. For a regular expression the caller walks the base
//! directory (without following symbolic links to directories, so no
//! directory is walked twice) and hands every regular file it met, in walk
//! order, to `resolve_regex`.
use crate::error::Error;
use crate::paths::{join_path, join_paths, relative_path, relative_to};
use crate::warning::{Warning, Warnings};
use glob::GlobError as GlobItemError;
use glob::Paths as GlobPaths;
use glob::PatternError as GlobPatternError;
use regex::Error as RegexError;
use regex::Regex as CompiledRegex;
use std::path::PathBuf;
use vstd::prelude::*;

verus! {

#[verifier::external_type_specification]
#[verifier::external_body]
pub struct ExGlobPaths(GlobPaths);

// The item and path types of the expansion's iterator, which Verus reads
// when the expansion type is declared.
#[verifier::external_type_specification]
#[verifier::external_body]
pub struct ExGlobItemError(GlobItemError);

#[verifier::external_type_specification]
#[verifier::external_body]
pub struct ExPathBuf(PathBuf);

#[verifier::external_type_specification]
#[verifier::external_body]
pub struct ExCompiledRegex(CompiledRegex);

/// How many leading bytes decide whether a file is text.
pub const BINARY_PROBE_LEN: usize = 1024;

/// Whether `glob::glob` accepts `pattern`: the whole pattern and each of its
/// components parse.
pub uninterp spec fn glob_accepts(pattern: Seq<char>) -> bool;

/// Whether `regex::Regex::new` compiles `pattern`.
pub uninterp spec fn regex_compiles(pattern: Seq<char>) -> bool;

/// Whether the regular expression `pattern` matches somewhere in `text`.
pub uninterp spec fn regex_matches(pattern: Seq<char>, text: Seq<char>) -> bool;

/// Relies on `glob::glob`: checks the pattern and, where it parses, returns
/// its expansion, which reads nothing until it is iterated.
#[verifier::external_body]
fn glob_expansion(pattern: &str) -> (r: Result<GlobPaths, GlobPatternError>)
    ensures
        r is Ok <==> glob_accepts(pattern@),
{
    glob::glob(pattern)
}

/// Relies on `regex::Regex::new`: compiles a pattern or says why it cannot.
#[verifier::external_body]
fn compile_regex(pattern: &str) -> (r: Result<CompiledRegex, RegexError>)
    ensures
        r is Ok <==> regex_compiles(pattern@),
{
    CompiledRegex::new(pattern)
}

/// A compiled regular expression with the pattern it was compiled from.
pub struct PathRegex {
    pattern: String,
    compiled: CompiledRegex,
}

impl PathRegex {
    /// The pattern the expression was compiled from.
    pub closed spec fn source(&self) -> Seq<char> {
        self.pattern@
    }

    /// Compiles `pattern`; fails with `InvalidRegexPattern` where it does
    /// not compile.
    pub fn new(pattern: &str) -> (r: Result<PathRegex, Error>)
        ensures
            r is Ok <==> regex_compiles(pattern@),
            r matches Ok(x) ==> x.source() == pattern@,
            r matches Err(e) ==> e matches Error::InvalidRegexPattern { pattern: p, .. } && p@
                == pattern@,
    {
        match compile_regex(pattern) {
            Ok(compiled) => Ok(PathRegex { pattern: pattern.to_owned(), compiled }),
            Err(source) => Err(Error::InvalidRegexPattern { pattern: pattern.to_owned(), source }),
        }
    }

    /// The pattern the expression was compiled from.
    pub fn as_str(&self) -> (r: &str)
        ensures
            r@ == self.source(),
    {
        self.pattern.as_str()
    }

    /// Relies on `regex::Regex::is_match`: whether the expression matches
    /// somewhere in `text`. `compiled` was compiled from `pattern`: `new` is
    /// the only constructor and neither field changes afterwards.
    #[verifier::external_body]
    fn is_match(&self, text: &str) -> (r: bool)
        ensures
            r == regex_matches(self.source(), text@),
    {
        self.compiled.is_match(text)
    }
}

/// A path that a pattern may select, as the caller found it on disk.
#[derive(Debug)]
pub struct Candidate {
    /// The path, as the walk or the glob expansion gave it.
    pub path: String,
    /// At least the first `BINARY_PROBE_LEN` bytes of the file (all of it
    /// where it is shorter); none where the path is not a regular file that
    /// could be read.
    pub head: Option<Vec<u8>>,
}

/// One item of a glob expansion.
#[derive(Debug)]
pub enum GlobEntry {
    /// A path that the expansion produced.
    Found(Candidate),
    /// The expansion failed on some path.
    Failed,
}

/// Whether the bytes hold no NUL among the first `BINARY_PROBE_LEN`.
pub open spec fn is_text_head(head: Seq<u8>) -> bool {
    forall|i: int| 0 <= i < head.len() && i < BINARY_PROBE_LEN ==> head[i] != 0
}

/// Whether a candidate is eligible: a readable regular file whose head holds
/// no NUL.
pub open spec fn eligible(c: Candidate) -> bool {
    c.head matches Some(h) && is_text_head(h@)
}

/// Whether a candidate is a readable regular file that is binary.
pub open spec fn is_binary(c: Candidate) -> bool {
    c.head matches Some(h) && !is_text_head(h@)
}

/// The paths of the eligible files of a glob expansion, in its order.
pub open spec fn glob_selection(entries: Seq<GlobEntry>) -> Seq<Seq<char>>
    decreases entries.len(),
{
    if entries.len() == 0 {
        Seq::empty()
    } else {
        let r = glob_selection(entries.drop_last());
        match entries.last() {
            GlobEntry::Found(c) => if eligible(c) {
                r.push(c.path@)
            } else {
                r
            },
            GlobEntry::Failed => r,
        }
    }
}

/// One warning for `pattern` per failed item of the expansion.
pub open spec fn failure_warnings(pattern: Seq<char>, entries: Seq<GlobEntry>) -> Seq<Seq<char>>
    decreases entries.len(),
{
    if entries.len() == 0 {
        Seq::empty()
    } else {
        let r = failure_warnings(pattern, entries.drop_last());
        match entries.last() {
            GlobEntry::Failed => r.push(pattern),
            GlobEntry::Found(_) => r,
        }
    }
}

/// One warning for `pattern` where nothing was selected.
pub open spec fn empty_warning(pattern: Seq<char>, selected: Seq<Seq<char>>) -> Seq<Seq<char>> {
    if selected.len() == 0 {
        seq![pattern]
    } else {
        Seq::empty()
    }
}

/// The warnings that resolving a glob raises, in order.
pub open spec fn glob_warnings(pattern: Seq<char>, entries: Seq<GlobEntry>) -> Seq<Seq<char>> {
    failure_warnings(pattern, entries) + empty_warning(pattern, glob_selection(entries))
}

/// Whether the expansion had no failed item.
pub open spec fn no_failures(entries: Seq<GlobEntry>) -> bool {
    forall|i: int| 0 <= i < entries.len() ==> entries[i] is Found
}

/// The paths of the eligible files that `pattern` matches, each tested by
/// its path relative to `base`, in walk order.
pub open spec fn regex_selection(base: Seq<char>, pattern: Seq<char>, files: Seq<Candidate>) -> Seq<
    Seq<char>,
>
    decreases files.len(),
{
    if files.len() == 0 {
        Seq::empty()
    } else {
        let r = regex_selection(base, pattern, files.drop_last());
        let c = files.last();
        if regex_matches(pattern, relative_to(c.path@, base)) && eligible(c) {
            r.push(c.path@)
        } else {
            r
        }
    }
}

pub open spec fn string_views(v: Seq<String>) -> Seq<Seq<char>> {
    v.map_values(|s: String| s@)
}

fn text_head(head: &Vec<u8>) -> (r: bool)
    ensures
        r == is_text_head(head@),
{
    let mut i: usize = 0;
    while i < head.len() && i < BINARY_PROBE_LEN
        invariant
            i <= head.len(),
            forall|j: int| 0 <= j < i && j < BINARY_PROBE_LEN ==> head@[j] != 0,
        decreases head.len() - i,
    {
        if head[i] == 0 {
            return false;
        }
        i += 1;
    }
    true
}

fn is_eligible(c: &Candidate) -> (r: bool)
    ensures
        r == eligible(*c),
{
    match &c.head {
        Some(h) => text_head(h),
        None => false,
    }
}

/// Resolves directive patterns against a fixed base directory and collects
/// the warnings of the resolutions.
pub struct PathResolver {
    base_dir: String,
    warnings: Warnings,
}

impl PathResolver {
    /// The directory that relative patterns and regex walks start from.
    pub closed spec fn base(&self) -> Seq<char> {
        self.base_dir@
    }

    /// The warnings raised so far and not yet taken.
    pub closed spec fn pending(&self) -> Seq<Seq<char>> {
        self.warnings@
    }

    /// A resolver for `base_dir`, with no warnings.
    pub fn new(base_dir: String) -> (r: PathResolver)
        ensures
            r.base() == base_dir@,
            r.pending() == Seq::<Seq<char>>::empty(),
    {
        PathResolver { base_dir, warnings: Warnings::new() }
    }

    /// The base directory.
    pub fn base_dir(&self) -> (r: &str)
        ensures
            r@ == self.base(),
    {
        self.base_dir.as_str()
    }

    /// The pattern that a glob directive searches for: a relative pattern
    /// joined onto the base directory, an absolute one as it stands.
    pub fn glob_pattern(&self, pattern: &str) -> (r: String)
        ensures
            r@ == join_path(self.base(), pattern@),
    {
        join_paths(self.base_dir.as_str(), pattern)
    }

    /// Checks the glob `pattern` and returns its expansion, which the caller
    /// iterates. Fails with `InvalidGlobPattern`, before anything is read,
    /// where the search pattern does not parse.
    pub fn glob(&self, pattern: &str) -> (r: Result<GlobPaths, Error>)
        ensures
            r is Ok <==> glob_accepts(join_path(self.base(), pattern@)),
            r matches Err(e) ==> e matches Error::InvalidGlobPattern { pattern: p, .. } && p@
                == pattern@,
    {
        let full = self.glob_pattern(pattern);
        match glob_expansion(full.as_str()) {
            Ok(paths) => Ok(paths),
            Err(source) => Err(Error::InvalidGlobPattern { pattern: pattern.to_owned(), source }),
        }
    }

    /// The eligible files among the items of the expansion of `pattern`, in
    /// its order. Each failed item raises a warning for the pattern, and so
    /// does selecting nothing; a binary or unreadable file is left out
    /// silently.
    pub fn resolve_glob(&mut self, pattern: &str, entries: Vec<GlobEntry>) -> (r: Vec<String>)
        ensures
            string_views(r@) == glob_selection(entries@),
            final(self).base() == old(self).base(),
            final(self).pending() == old(self).pending() + glob_warnings(pattern@, entries@),
            r@.len() == 0 && no_failures(entries@) ==> final(self).pending() == old(
                self,
            ).pending().push(pattern@),
    {
        let ghost all = entries@;
        let ghost start = self.warnings@;
        let mut result: Vec<String> = Vec::new();
        for entry in it: entries.into_iter()
            invariant
                it.seq() == all,
                string_views(result@) == glob_selection(all.take(it.index() as int)),
                self.warnings@ == start + failure_warnings(pattern@, all.take(it.index() as int)),
                self.base_dir == old(self).base_dir,
                start == old(self).warnings@,
        {
            let ghost i = it.index() as int;
            proof {
                assert(all.take(i + 1).drop_last() =~= all.take(i));
                assert(all.take(i + 1).last() == entry);
            }
            match entry {
                GlobEntry::Found(c) => {
                    if is_eligible(&c) {
                        proof {
                            assert(string_views(result@.push(c.path)) =~= string_views(
                                result@,
                            ).push(c.path@));
                        }
                        result.push(c.path);
                    }
                },
                GlobEntry::Failed => {
                    self.warnings.push(Warning::FileNotFound { path: pattern.to_owned() });
                    assert(self.warnings@ =~= start + failure_warnings(
                        pattern@,
                        all.take(i + 1),
                    ));
                },
            }
        }
        proof {
            assert(all.take(all.len() as int) =~= all);
        }
        if result.len() == 0 {
            self.warnings.push(Warning::FileNotFound { path: pattern.to_owned() });
        }
        proof {
            assert(self.warnings@ =~= start + glob_warnings(pattern@, all));
            if result@.len() == 0 && no_failures(all) {
                lemma_no_failure_warnings(pattern@, all);
                assert(self.warnings@ =~= start.push(pattern@));
            }
        }
        result
    }

    /// The eligible files among `files` whose path relative to the base
    /// directory `regex` matches, in walk order. Selecting nothing raises a
    /// warning for the pattern; a binary or unreadable file is left out
    /// silently.
    pub fn resolve_regex(&mut self, regex: &PathRegex, files: Vec<Candidate>) -> (r: Vec<String>)
        ensures
            string_views(r@) == regex_selection(old(self).base(), regex.source(), files@),
            final(self).base() == old(self).base(),
            final(self).pending() == old(self).pending() + empty_warning(
                regex.source(),
                string_views(r@),
            ),
            r@.len() == 0 ==> final(self).pending() == old(self).pending().push(regex.source()),
    {
        let ghost all = files@;
        let ghost base = self.base_dir@;
        let mut result: Vec<String> = Vec::new();
        for c in it: files.into_iter()
            invariant
                it.seq() == all,
                base == self.base_dir@,
                string_views(result@) == regex_selection(base, regex.source(), all.take(
                    it.index() as int,
                )),
                self.base_dir == old(self).base_dir,
                self.warnings == old(self).warnings,
        {
            let ghost i = it.index() as int;
            proof {
                assert(all.take(i + 1).drop_last() =~= all.take(i));
                assert(all.take(i + 1).last() == c);
            }
            let rel = relative_path(c.path.as_str(), self.base_dir.as_str());
            if regex.is_match(rel.as_str()) && is_eligible(&c) {
                proof {
                    assert(string_views(result@.push(c.path)) =~= string_views(result@).push(
                        c.path@,
                    ));
                }
                result.push(c.path);
            }
        }
        proof {
            assert(all.take(all.len() as int) =~= all);
        }
        if result.len() == 0 {
            self.warnings.push(Warning::FileNotFound { path: regex.as_str().to_owned() });
        }
        assert(self.warnings@ =~= old(self).warnings@ + empty_warning(
            regex.source(),
            string_views(result@),
        ));
        result
    }

    /// Hands over the warnings raised so far and starts afresh.
    pub fn take_warnings(&mut self) -> (r: Warnings)
        ensures
            r@ == old(self).pending(),
            final(self).pending() == Seq::<Seq<char>>::empty(),
            final(self).base() == old(self).base(),
    {
        let mut taken = Warnings::new();
        std::mem::swap(&mut taken, &mut self.warnings);
        taken
    }
}

/// A binary file in a glob expansion is left out without a warning: the
/// expansion without it selects the same paths and raises the same warnings.
pub proof fn lemma_binary_glob_entry_silent(pattern: Seq<char>, entries: Seq<GlobEntry>, i: int)
    requires
        0 <= i < entries.len(),
        entries[i] matches GlobEntry::Found(c) && is_binary(c),
    ensures
        glob_selection(entries.remove(i)) == glob_selection(entries),
        glob_warnings(pattern, entries.remove(i)) == glob_warnings(pattern, entries),
{
    lemma_binary_glob_entry_kept_out(pattern, entries, i);
}

proof fn lemma_binary_glob_entry_kept_out(pattern: Seq<char>, entries: Seq<GlobEntry>, i: int)
    requires
        0 <= i < entries.len(),
        entries[i] matches GlobEntry::Found(c) && is_binary(c),
    ensures
        glob_selection(entries.remove(i)) == glob_selection(entries),
        failure_warnings(pattern, entries.remove(i)) == failure_warnings(pattern, entries),
    decreases entries.len(),
{
    let rest = entries.remove(i);
    if i == entries.len() - 1 {
        assert(rest =~= entries.drop_last());
    } else {
        assert(rest.drop_last() =~= entries.drop_last().remove(i));
        assert(rest.last() == entries.last());
        lemma_binary_glob_entry_kept_out(pattern, entries.drop_last(), i);
    }
}

/// A binary file met by a regex walk is left out without a warning: the
/// walk without it selects the same paths, so it raises the same warnings.
pub proof fn lemma_binary_walk_file_silent(
    base: Seq<char>,
    pattern: Seq<char>,
    files: Seq<Candidate>,
    i: int,
)
    requires
        0 <= i < files.len(),
        is_binary(files[i]),
    ensures
        regex_selection(base, pattern, files.remove(i)) == regex_selection(base, pattern, files),
        empty_warning(pattern, regex_selection(base, pattern, files.remove(i))) == empty_warning(
            pattern,
            regex_selection(base, pattern, files),
        ),
    decreases files.len(),
{
    let rest = files.remove(i);
    if i == files.len() - 1 {
        assert(rest =~= files.drop_last());
    } else {
        assert(rest.drop_last() =~= files.drop_last().remove(i));
        assert(rest.last() == files.last());
        lemma_binary_walk_file_silent(base, pattern, files.drop_last(), i);
    }
}

proof fn lemma_no_failure_warnings(pattern: Seq<char>, entries: Seq<GlobEntry>)
    requires
        no_failures(entries),
    ensures
        failure_warnings(pattern, entries) == Seq::<Seq<char>>::empty(),
    decreases entries.len(),
{
    if entries.len() > 0 {
        assert(entries.last() is Found);
        lemma_no_failure_warnings(pattern, entries.drop_last());
    }
}

} // verus!
