//! The table from file extension to language name.
use std::collections::BTreeMap;
use vstd::prelude::*;

verus! {

/// The extension table as RON: a map from extension (no leading dot, case
/// as written) to lower-case language name.
pub const LANGUAGE_MAPPINGS_RON: &'static str = "{
    \"abap\": \"abap\",
    \"ada\": \"ada\",
    \"adb\": \"ada\",
    \"adoc\": \"asciidoc\",
    \"ads\": \"ada\",
    \"agda\": \"agda\",
    \"apex\": \"apex\",
    \"asm\": \"assembly\",
    \"astro\": \"astro\",
    \"awk\": \"awk\",
    \"bash\": \"shell\",
    \"bat\": \"batchfile\",
    \"bib\": \"bibtex\",
    \"bicep\": \"bicep\",
    \"c\": \"c\",
    \"capnp\": \"cap'n proto\",
    \"cc\": \"c++\",
    \"cfg\": \"ini\",
    \"cjs\": \"javascript\",
    \"clj\": \"clojure\",
    \"cljs\": \"clojure\",
    \"cls\": \"apex\",
    \"cmake\": \"cmake\",
    \"cmd\": \"batchfile\",
    \"cob\": \"cobol\",
    \"coffee\": \"coffeescript\",
    \"cpp\": \"c++\",
    \"cr\": \"crystal\",
    \"cs\": \"c#\",
    \"css\": \"css\",
    \"csv\": \"csv\",
    \"cts\": \"typescript\",
    \"cu\": \"cuda\",
    \"cue\": \"cue\",
    \"cxx\": \"c++\",
    \"d\": \"d\",
    \"dart\": \"dart\",
    \"dhall\": \"dhall\",
    \"diff\": \"diff\",
    \"dockerfile\": \"dockerfile\",
    \"edn\": \"edn\",
    \"ejs\": \"ejs\",
    \"el\": \"emacs lisp\",
    \"elm\": \"elm\",
    \"erb\": \"html+erb\",
    \"erl\": \"erlang\",
    \"ex\": \"elixir\",
    \"exs\": \"elixir\",
    \"f\": \"fortran\",
    \"f90\": \"fortran free form\",
    \"fish\": \"fish\",
    \"fs\": \"f#\",
    \"fsx\": \"f#\",
    \"gd\": \"gdscript\",
    \"gemspec\": \"ruby\",
    \"glsl\": \"glsl\",
    \"go\": \"go\",
    \"gql\": \"graphql\",
    \"gradle\": \"gradle\",
    \"graphql\": \"graphql\",
    \"groovy\": \"groovy\",
    \"h\": \"c\",
    \"hack\": \"hack\",
    \"hbs\": \"handlebars\",
    \"hcl\": \"hcl\",
    \"hh\": \"c++\",
    \"hlsl\": \"hlsl\",
    \"hpp\": \"c++\",
    \"hrl\": \"erlang\",
    \"hs\": \"haskell\",
    \"htm\": \"html\",
    \"html\": \"html\",
    \"hx\": \"haxe\",
    \"hxx\": \"c++\",
    \"idr\": \"idris\",
    \"ini\": \"ini\",
    \"ipynb\": \"jupyter notebook\",
    \"j2\": \"jinja\",
    \"java\": \"java\",
    \"jinja\": \"jinja\",
    \"jl\": \"julia\",
    \"js\": \"javascript\",
    \"json\": \"json\",
    \"json5\": \"json5\",
    \"jsonc\": \"json with comments\",
    \"jsx\": \"javascript\",
    \"ksh\": \"shell\",
    \"kt\": \"kotlin\",
    \"kts\": \"kotlin\",
    \"lean\": \"lean\",
    \"less\": \"less\",
    \"lhs\": \"literate haskell\",
    \"liquid\": \"liquid\",
    \"lisp\": \"common lisp\",
    \"lock\": \"json\",
    \"lsp\": \"common lisp\",
    \"lua\": \"lua\",
    \"m\": \"objective-c\",
    \"markdown\": \"markdown\",
    \"md\": \"markdown\",
    \"mdx\": \"mdx\",
    \"mjs\": \"javascript\",
    \"mk\": \"makefile\",
    \"ml\": \"ocaml\",
    \"mli\": \"ocaml\",
    \"mm\": \"objective-c++\",
    \"mts\": \"typescript\",
    \"nasm\": \"assembly\",
    \"nim\": \"nim\",
    \"nix\": \"nix\",
    \"org\": \"org\",
    \"pas\": \"pascal\",
    \"patch\": \"diff\",
    \"php\": \"php\",
    \"pl\": \"perl\",
    \"pm\": \"perl\",
    \"prisma\": \"prisma\",
    \"pro\": \"qmake\",
    \"properties\": \"java properties\",
    \"proto\": \"protocol buffer\",
    \"ps1\": \"powershell\",
    \"psm1\": \"powershell\",
    \"pug\": \"pug\",
    \"purs\": \"purescript\",
    \"py\": \"python\",
    \"pyi\": \"python\",
    \"pyw\": \"python\",
    \"qml\": \"qml\",
    \"r\": \"r\",
    \"rake\": \"ruby\",
    \"rb\": \"ruby\",
    \"rkt\": \"racket\",
    \"rmd\": \"rmarkdown\",
    \"ron\": \"ron\",
    \"rs\": \"rust\",
    \"rst\": \"restructuredtext\",
    \"sass\": \"sass\",
    \"sc\": \"scala\",
    \"scala\": \"scala\",
    \"scm\": \"scheme\",
    \"scss\": \"scss\",
    \"sed\": \"sed\",
    \"sh\": \"shell\",
    \"sol\": \"solidity\",
    \"sql\": \"sql\",
    \"styl\": \"stylus\",
    \"sv\": \"systemverilog\",
    \"svelte\": \"svelte\",
    \"svg\": \"svg\",
    \"swift\": \"swift\",
    \"tcl\": \"tcl\",
    \"tex\": \"tex\",
    \"tf\": \"hcl\",
    \"thrift\": \"thrift\",
    \"toml\": \"toml\",
    \"ts\": \"typescript\",
    \"tsv\": \"tsv\",
    \"tsx\": \"typescript\",
    \"twig\": \"twig\",
    \"txt\": \"plaintext\",
    \"v\": \"v\",
    \"vhd\": \"vhdl\",
    \"vhdl\": \"vhdl\",
    \"vim\": \"vim script\",
    \"vue\": \"vue\",
    \"wat\": \"webassembly\",
    \"wgsl\": \"wgsl\",
    \"xhtml\": \"html\",
    \"xml\": \"xml\",
    \"xsd\": \"xml\",
    \"yaml\": \"yaml\",
    \"yml\": \"yaml\",
    \"zig\": \"zig\",
    \"zsh\": \"shell\"
}";

/// The entries that `ron::from_str` reads from `text` as a map of strings to
/// strings, ordered by key; none where `text` is no such map.
pub uninterp spec fn ron_string_map(text: Seq<char>) -> Option<Seq<(Seq<char>, Seq<char>)>>;

pub open spec fn entry_views(v: Seq<(String, String)>) -> Seq<(Seq<char>, Seq<char>)> {
    v.map_values(|e: (String, String)| (e.0@, e.1@))
}

/// Relies on `ron::from_str`: reads a RON map of strings to strings into a
/// `BTreeMap`, whose entries come out ordered by key.
#[verifier::external_body]
fn read_ron_map(text: &str) -> (r: Option<Vec<(String, String)>>)
    ensures
        r is Some <==> ron_string_map(text@) is Some,
        r matches Some(v) ==> entry_views(v@) == ron_string_map(text@)->Some_0,
{
    ron::from_str::<BTreeMap<String, String>>(text).ok().map(|m| m.into_iter().collect())
}

/// The value of the first entry whose key is `key`.
pub open spec fn lookup(entries: Seq<(Seq<char>, Seq<char>)>, key: Seq<char>) -> Option<Seq<char>>
    decreases entries.len(),
{
    if entries.len() == 0 {
        None
    } else if entries[0].0 == key {
        Some(entries[0].1)
    } else {
        lookup(entries.drop_first(), key)
    }
}

/// The entries of a table read from `text`: those of the map it holds, or
/// none where it holds no map.
pub open spec fn table_from(text: Seq<char>) -> Seq<(Seq<char>, Seq<char>)> {
    match ron_string_map(text) {
        Some(v) => v,
        None => Seq::empty(),
    }
}

/// A read-only table from file extension to language name.
pub struct LanguageTable {
    entries: Vec<(String, String)>,
}

impl View for LanguageTable {
    type V = Seq<(Seq<char>, Seq<char>)>;

    closed spec fn view(&self) -> Seq<(Seq<char>, Seq<char>)> {
        entry_views(self.entries@)
    }
}

impl LanguageTable {
    /// A table of the given entries; where a key repeats, the first entry
    /// counts.
    pub fn from_entries(entries: Vec<(String, String)>) -> (r: LanguageTable)
        ensures
            r@ == entry_views(entries@),
    {
        LanguageTable { entries }
    }

    /// The table that `text` holds as a RON map, or an empty table where it
    /// holds none.
    pub fn from_ron(text: &str) -> (r: LanguageTable)
        ensures
            r@ == table_from(text@),
    {
        match read_ron_map(text) {
            Some(entries) => LanguageTable { entries },
            None => {
                let r = LanguageTable { entries: Vec::new() };
                assert(r@ =~= Seq::<(Seq<char>, Seq<char>)>::empty());
                r
            },
        }
    }

    /// The table built into the library.
    pub fn embedded() -> (r: LanguageTable)
        ensures
            r@ == table_from(LANGUAGE_MAPPINGS_RON@),
    {
        LanguageTable::from_ron(LANGUAGE_MAPPINGS_RON)
    }

    /// The language of the extension `ext`.
    pub fn get(&self, ext: &str) -> (r: Option<String>)
        ensures
            r is Some <==> lookup(self@, ext@) is Some,
            r matches Some(l) ==> lookup(self@, ext@) == Some(l@),
    {
        let key = ext.to_owned();
        let ghost all = self@;
        let mut i: usize = 0;
        assert(all.skip(0) =~= all);
        while i < self.entries.len()
            invariant
                i <= self.entries.len(),
                all == self@,
                all == entry_views(self.entries@),
                key@ == ext@,
                lookup(all, ext@) == lookup(all.skip(i as int), ext@),
            decreases self.entries.len() - i,
        {
            let ghost rest = all.skip(i as int);
            assert(rest[0] == all[i as int]);
            assert(rest.drop_first() =~= all.skip(i + 1));
            if self.entries[i].0 == key {
                return Some(self.entries[i].1.clone());
            }
            i += 1;
        }
        assert(all.skip(i as int).len() == 0);
        None
    }

    /// Whether the table knows the extension `ext`.
    pub fn contains_key(&self, ext: &str) -> (r: bool)
        ensures
            r == lookup(self@, ext@) is Some,
    {
        self.get(ext).is_some()
    }
}

/// The language of the extension `extension`, from the built-in table.
pub fn get_language_for_extension(extension: &str) -> (r: Option<String>)
    ensures
        r is Some <==> lookup(table_from(LANGUAGE_MAPPINGS_RON@), extension@) is Some,
        r matches Some(l) ==> lookup(table_from(LANGUAGE_MAPPINGS_RON@), extension@) == Some(l@),
{
    LanguageTable::embedded().get(extension)
}

} // verus!
