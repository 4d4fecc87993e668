use vstd::prelude::*;
use crate::pattern::{all_compile, compile_all, included, is_included, lemma_names_first_bad, names_first_bad, pattern_compiles, sources_of, Pattern, PatternError};
use crate::search::{doc_fits_memory, from_some_doc, has_result_for, is_ranked, relevant_doc, search, search_terms, Document};
use crate::text::{chars_of, has_prefix, starts_with};
use crate::types::{DataSource, FileInfo, FileSystemError, FileType, SearchResult, SourceType};

verus! {

/// The default size ceiling of an indexable file, in bytes: larger files do
/// not fit an LLM's context budget.
pub const DEFAULT_MAX_FILE_SIZE: u64 = 1048576;

/// What a walk of the file system found about one file: its path, size,
/// modification time (milliseconds since the Unix epoch) and first bytes.
#[derive(Clone, Debug)]
pub struct ScannedFile {
    pub path: String,
    pub size: u64,
    pub modified: i64,
    pub head: Vec<u8>,
}

/// The classes of file, without the language tag of code.
#[derive(Clone, Copy, Debug, PartialEq, Eq, Structural)]
pub enum FileClass {
    Text,
    Markdown,
    Json,
    Config,
    Code,
    Log,
    Binary,
}

/// Whether `p` is `root` or lies below it, component-wise (`/a/bc` is not
/// below `/a/b`).
pub open spec fn path_under(p: Seq<char>, root: Seq<char>) -> bool {
    p == root || (has_prefix(p, root) && root.len() < p.len() && (
        (root.len() > 0 && root.last() == '/') || p[root.len() as int] == '/'))
}

/// The extension of a path: what follows the last `.` of its last
/// component, if that component has a `.`.
pub open spec fn extension(p: Seq<char>) -> Option<Seq<char>>
    decreases p.len(),
{
    if p.len() == 0 || p.last() == '/' {
        None
    } else if p.last() == '.' {
        Some(Seq::<char>::empty())
    } else {
        match extension(p.drop_last()) {
            Some(e) => Some(e.push(p.last())),
            None => None,
        }
    }
}

/// Whether the first bytes of a file mark it as binary: they hold a zero.
pub open spec fn looks_binary(head: Seq<u8>) -> bool {
    exists|i: int| 0 <= i < head.len() && head[i] == 0
}

pub open spec fn is_code_extension(e: Seq<char>) -> bool {
    e == "rs"@ || e == "py"@ || e == "js"@ || e == "ts"@ || e == "go"@ || e == "c"@
        || e == "h"@ || e == "cpp"@ || e == "java"@ || e == "rb"@ || e == "sh"@
}

/// The class of a file from its extension and its first bytes.
pub open spec fn class_of(ext: Option<Seq<char>>, head: Seq<u8>) -> FileClass {
    if looks_binary(head) {
        FileClass::Binary
    } else {
        match ext {
            None => FileClass::Text,
            Some(e) => if e == "md"@ || e == "markdown"@ {
                FileClass::Markdown
            } else if e == "json"@ {
                FileClass::Json
            } else if e == "toml"@ || e == "yaml"@ || e == "yml"@ || e == "ini"@ || e == "cfg"@
                || e == "conf"@ {
                FileClass::Config
            } else if e == "log"@ {
                FileClass::Log
            } else if is_code_extension(e) {
                FileClass::Code
            } else {
                FileClass::Text
            },
        }
    }
}

/// Whether `t` is the type of a file with path `p` and first bytes `head`;
/// code carries its extension as language tag.
pub open spec fn type_fits(t: FileType, p: Seq<char>, head: Seq<u8>) -> bool {
    let c = class_of(extension(p), head);
    match t {
        FileType::Text => c == FileClass::Text,
        FileType::Markdown => c == FileClass::Markdown,
        FileType::Json => c == FileClass::Json,
        FileType::Config => c == FileClass::Config,
        FileType::Code(lang) => c == FileClass::Code && extension(p) == Some(lang@),
        FileType::Log => c == FileClass::Log,
        FileType::Binary => c == FileClass::Binary,
    }
}

/// Whether `e` is the catalog entry of the scanned file `s` under the size
/// ceiling `max`: binary files and files above the ceiling are not indexable.
pub open spec fn entry_fits(e: FileInfo, s: ScannedFile, max: u64) -> bool {
    &&& e.path@ == s.path@
    &&& e.size == s.size
    &&& e.modified == s.modified
    &&& type_fits(e.file_type, s.path@, s.head@)
    &&& e.indexable == (!looks_binary(s.head@) && s.size <= max)
}

/// Whether a path lies under one of the registered sources.
pub open spec fn under_some_source(sources: Seq<DataSource>, p: Seq<char>) -> bool {
    exists|i: int| 0 <= i < sources.len() && path_under(p, (#[trigger] sources[i]).path@)
}

pub open spec fn has_path(files: Seq<ScannedFile>, p: Seq<char>) -> bool {
    exists|i: int| 0 <= i < files.len() && (#[trigger] files[i]).path@ == p
}

/// The scanned files that make it into the catalog, in scan order: those
/// under a registered source that pass the pattern rule, the first of each
/// path only.
pub open spec fn selected(
    sources: Seq<DataSource>,
    accept: Seq<Seq<char>>,
    reject: Seq<Seq<char>>,
    scanned: Seq<ScannedFile>,
) -> Seq<ScannedFile>
    decreases scanned.len(),
{
    if scanned.len() == 0 {
        Seq::<ScannedFile>::empty()
    } else {
        let before = selected(sources, accept, reject, scanned.drop_last());
        let s = scanned.last();
        if under_some_source(sources, s.path@) && included(accept, reject, s.path@) && !has_path(
            before,
            s.path@,
        ) {
            before.push(s)
        } else {
            before
        }
    }
}

/// Whether `catalog` is, entry for entry, the catalog of the selected files.
pub open spec fn catalog_fits(catalog: Seq<FileInfo>, chosen: Seq<ScannedFile>, max: u64) -> bool {
    catalog.len() == chosen.len() && forall|i: int|
        0 <= i < catalog.len() ==> entry_fits(#[trigger] catalog[i], chosen[i], max)
}

/// Whether no two entries share a path.
pub open spec fn distinct_paths(catalog: Seq<FileInfo>) -> bool {
    forall|i: int, j: int|
        0 <= i < catalog.len() && 0 <= j < catalog.len() && i != j ==> (#[trigger] catalog[i]).path@
            != (#[trigger] catalog[j]).path@
}

/// The entries of `catalog` that do not lie under `root`, in order.
pub open spec fn entries_outside(catalog: Seq<FileInfo>, root: Seq<char>) -> Seq<FileInfo>
    decreases catalog.len(),
{
    if catalog.len() == 0 {
        catalog
    } else {
        let before = entries_outside(catalog.drop_last(), root);
        if path_under(catalog.last().path@, root) {
            before
        } else {
            before.push(catalog.last())
        }
    }
}

/// The entries of `catalog` that pass the pattern rule, in order.
pub open spec fn entries_included(
    catalog: Seq<FileInfo>,
    accept: Seq<Seq<char>>,
    reject: Seq<Seq<char>>,
) -> Seq<FileInfo>
    decreases catalog.len(),
{
    if catalog.len() == 0 {
        catalog
    } else {
        let before = entries_included(catalog.drop_last(), accept, reject);
        if included(accept, reject, catalog.last().path@) {
            before.push(catalog.last())
        } else {
            before
        }
    }
}

/// The sources whose path is not `root`, in order.
pub open spec fn sources_other_than(sources: Seq<DataSource>, root: Seq<char>) -> Seq<DataSource>
    decreases sources.len(),
{
    if sources.len() == 0 {
        sources
    } else {
        let before = sources_other_than(sources.drop_last(), root);
        if sources.last().path@ == root {
            before
        } else {
            before.push(sources.last())
        }
    }
}

/// The paths of the indexable entries of a catalog, in order.
pub open spec fn indexable_paths(catalog: Seq<FileInfo>) -> Seq<Seq<char>>
    decreases catalog.len(),
{
    if catalog.len() == 0 {
        Seq::<Seq<char>>::empty()
    } else {
        let before = indexable_paths(catalog.drop_last());
        if catalog.last().indexable {
            before.push(catalog.last().path@)
        } else {
            before
        }
    }
}

/// The data sources, the catalog of indexed files and the pattern rule that
/// decides which files the catalog may hold.
pub struct FileSystemManager {
    indexed_sources: Vec<DataSource>,
    file_index: Vec<FileInfo>,
    include_patterns: Vec<Pattern>,
    exclude_patterns: Vec<Pattern>,
    max_file_size: u64,
    index_warnings: Vec<String>,
}

impl FileSystemManager {
    pub closed spec fn sources(&self) -> Seq<DataSource> {
        self.indexed_sources@
    }

    pub closed spec fn catalog(&self) -> Seq<FileInfo> {
        self.file_index@
    }

    pub closed spec fn accept(&self) -> Seq<Seq<char>> {
        sources_of(self.include_patterns@)
    }

    pub closed spec fn reject(&self) -> Seq<Seq<char>> {
        sources_of(self.exclude_patterns@)
    }

    /// The soft warnings of the last index pass: the paths that could not be
    /// read.
    pub closed spec fn warnings(&self) -> Seq<Seq<char>> {
        self.index_warnings@.map_values(|p: String| p@)
    }

    pub closed spec fn size_ceiling(&self) -> u64 {
        self.max_file_size
    }

    /// The catalog holds one entry per path, and only paths that pass the
    /// pattern rule.
    pub open spec fn wf(&self) -> bool {
        &&& distinct_paths(self.catalog())
        &&& forall|i: int|
            0 <= i < self.catalog().len() ==> included(
                self.accept(),
                self.reject(),
                (#[trigger] self.catalog()[i]).path@,
            )
    }

    /// An empty manager: no sources, an empty catalog, no patterns, and the
    /// default size ceiling.
    pub fn new() -> (r: Self)
        ensures
            r.wf(),
            r.sources().len() == 0,
            r.catalog().len() == 0,
            r.accept().len() == 0,
            r.reject().len() == 0,
            r.size_ceiling() == DEFAULT_MAX_FILE_SIZE,
    {
        FileSystemManager {
            indexed_sources: Vec::new(),
            file_index: Vec::new(),
            include_patterns: Vec::new(),
            exclude_patterns: Vec::new(),
            max_file_size: DEFAULT_MAX_FILE_SIZE,
            index_warnings: Vec::new(),
        }
    }
}

/// The text of a pattern error: the pattern and the parser's message.
pub fn pattern_error_message(e: &PatternError) -> (r: String)
    ensures
        r@ == "Invalid regex pattern '"@ + e.pattern@ + "': "@ + e.message@,
{
    let a = crate::text::concat("Invalid regex pattern '", e.pattern.as_str());
    let b = a.concat("': ");
    b.concat(e.message.as_str())
}

/// Whether `after` is `before` after an index pass over `scanned`: only
/// the catalog changed, and it is the catalog of the selected files.
pub open spec fn built(before: FileSystemManager, after: FileSystemManager, scanned: Seq<ScannedFile>) -> bool {
    &&& after.sources() == before.sources()
    &&& after.accept() == before.accept()
    &&& after.reject() == before.reject()
    &&& after.size_ceiling() == before.size_ceiling()
    &&& catalog_fits(
        after.catalog(),
        selected(before.sources(), before.accept(), before.reject(), scanned),
        before.size_ceiling(),
    )
}

/// Whether `s` equals the literal `lit`.
fn equals_literal(s: &Vec<char>, lit: &str) -> (r: bool)
    ensures
        r == (s@ == lit@),
{
    let l = chars_of(lit);
    if l.len() != s.len() {
        return false;
    }
    let r = starts_with(s, &l);
    assert(s@.subrange(0, l@.len() as int) =~= s@);
    r
}

/// The extension of `p`, as `extension` defines it.
pub fn extension_of(p: &Vec<char>) -> (r: Option<Vec<char>>)
    ensures
        match r {
            Some(e) => extension(p@) == Some(e@),
            None => extension(p@) is None,
        },
{
    let mut i: usize = p.len();
    while i > 0 && p[i - 1] != '.' && p[i - 1] != '/'
        invariant
            i <= p@.len(),
            forall|m: int| i <= m < p@.len() ==> p@[m] != '.' && p@[m] != '/',
        decreases i,
    {
        i = i - 1;
    }
    if i == 0 || p[i - 1] == '/' {
        proof {
            lemma_extension_none(p@, i as int);
        }
        return None;
    }
    let mut e: Vec<char> = Vec::new();
    let mut j: usize = i;
    while j < p.len()
        invariant
            i <= j <= p@.len(),
            e@ == p@.subrange(i as int, j as int),
        decreases p@.len() - j,
    {
        e.push(p[j]);
        j = j + 1;
    }
    proof {
        lemma_extension_some(p@, i as int);
    }
    Some(e)
}

proof fn lemma_extension_none(p: Seq<char>, i: int)
    requires
        0 <= i <= p.len(),
        forall|m: int| i <= m < p.len() ==> p[m] != '.' && p[m] != '/',
        i == 0 || p[i - 1] == '/',
    ensures
        extension(p) is None,
    decreases p.len(),
{
    if p.len() > i {
        lemma_extension_none(p.drop_last(), i);
    }
}

proof fn lemma_extension_some(p: Seq<char>, i: int)
    requires
        1 <= i <= p.len(),
        forall|m: int| i <= m < p.len() ==> p[m] != '.' && p[m] != '/',
        p[i - 1] == '.',
    ensures
        extension(p) == Some(p.subrange(i, p.len() as int)),
    decreases p.len(),
{
    if p.len() > i {
        lemma_extension_some(p.drop_last(), i);
        assert(p.subrange(i, p.len() - 1).push(p.last()) =~= p.subrange(i, p.len() as int));
    } else {
        assert(p.subrange(i, p.len() as int) =~= Seq::<char>::empty());
    }
}

/// Whether the first bytes of a file hold a zero.
fn has_zero_byte(head: &Vec<u8>) -> (r: bool)
    ensures
        r == looks_binary(head@),
{
    let mut i: usize = 0;
    while i < head.len()
        invariant
            i <= head@.len(),
            forall|m: int| 0 <= m < i ==> head@[m] != 0,
        decreases head@.len() - i,
    {
        if head[i] == 0 {
            return true;
        }
        i = i + 1;
    }
    false
}

fn is_code_ext(e: &Vec<char>) -> (r: bool)
    ensures
        r == is_code_extension(e@),
{
    equals_literal(e, "rs") || equals_literal(e, "py") || equals_literal(e, "js")
        || equals_literal(e, "ts") || equals_literal(e, "go") || equals_literal(e, "c")
        || equals_literal(e, "h") || equals_literal(e, "cpp") || equals_literal(e, "java")
        || equals_literal(e, "rb") || equals_literal(e, "sh")
}

/// The type of a file from its path and first bytes.
pub fn classify(path: &str, head: &Vec<u8>) -> (r: FileType)
    ensures
        type_fits(r, path@, head@),
{
    let p = chars_of(path);
    if has_zero_byte(head) {
        return FileType::Binary;
    }
    match extension_of(&p) {
        None => FileType::Text,
        Some(e) => {
            if equals_literal(&e, "md") || equals_literal(&e, "markdown") {
                FileType::Markdown
            } else if equals_literal(&e, "json") {
                FileType::Json
            } else if equals_literal(&e, "toml") || equals_literal(&e, "yaml") || equals_literal(
                &e,
                "yml",
            ) || equals_literal(&e, "ini") || equals_literal(&e, "cfg") || equals_literal(
                &e,
                "conf",
            ) {
                FileType::Config
            } else if equals_literal(&e, "log") {
                FileType::Log
            } else if is_code_ext(&e) {
                let lang = crate::text::string_of(e.as_slice());
                FileType::Code(lang)
            } else {
                FileType::Text
            }
        },
    }
}

/// Whether `p` is `root` or lies below it.
pub fn is_under(p: &Vec<char>, root: &Vec<char>) -> (r: bool)
    ensures
        r == path_under(p@, root@),
{
    if !starts_with(p, root) {
        assert(p@ == root@ ==> p@.subrange(0, root@.len() as int) =~= p@);
        return false;
    }
    if p.len() == root.len() {
        assert(p@ =~= root@);
        return true;
    }
    (root.len() > 0 && root[root.len() - 1] == '/') || p[root.len()] == '/'
}


impl FileSystemManager {
    /// Sets the size ceiling of indexable files; the next index pass uses it.
    pub fn set_max_file_size(&mut self, max: u64)
        ensures
            final(self).warnings() == old(self).warnings(),
            final(self).size_ceiling() == max,
            final(self).sources() == old(self).sources(),
            final(self).catalog() == old(self).catalog(),
            final(self).accept() == old(self).accept(),
            final(self).reject() == old(self).reject(),
    {
        self.max_file_size = max;
    }

    /// Registers a data source. `probe` is what the file system says of
    /// `path`: `None` when it does not exist, which fails with `NotFound` and
    /// changes nothing. The source is recorded with time `now`; nothing is
    /// indexed until the next index pass.
    pub fn add_source(&mut self, path: String, probe: Option<SourceType>, now: i64) -> (r: Result<(), FileSystemError>)
        ensures
            final(self).warnings() == old(self).warnings(),
            probe is None <==> r is Err,
            r matches Err(e) ==> e is NotFound,
            probe is None ==> final(self).sources() == old(self).sources(),
            probe matches Some(t) ==> final(self).sources().len() == old(self).sources().len() + 1
                && final(self).sources().drop_last() == old(self).sources()
                && final(self).sources().last().path@ == path@
                && final(self).sources().last().source_type == t
                && final(self).sources().last().last_indexed == now,
            final(self).catalog() == old(self).catalog(),
            final(self).accept() == old(self).accept(),
            final(self).reject() == old(self).reject(),
            final(self).size_ceiling() == old(self).size_ceiling(),
    {
        match probe {
            None => {
                let msg = crate::text::concat("Path does not exist: ", path.as_str());
                Err(FileSystemError::NotFound(msg))
            },
            Some(t) => {
                let ghost before = self.indexed_sources@;
                self.indexed_sources.push(DataSource { path, source_type: t, last_indexed: now });
                assert(self.indexed_sources@.drop_last() =~= before);
                Ok(())
            },
        }
    }

    /// Removes every source whose path is `path`, and every catalog entry that
    /// lies under it. Removing an unknown source changes nothing; it never
    /// fails.
    pub fn remove_source(&mut self, path: &String) -> (r: Result<(), FileSystemError>)
        requires
            old(self).wf(),
        ensures
            final(self).warnings() == old(self).warnings(),
            r is Ok,
            final(self).wf(),
            final(self).sources() == sources_other_than(old(self).sources(), path@),
            final(self).catalog() == entries_outside(old(self).catalog(), path@),
            final(self).accept() == old(self).accept(),
            final(self).reject() == old(self).reject(),
            final(self).size_ceiling() == old(self).size_ceiling(),
    {
        let root = chars_of(path.as_str());
        let ghost orig = self.indexed_sources@;
        let mut i: usize = 0;
        let ghost mut j: int = 0;
        while i < self.indexed_sources.len()
            invariant
                0 <= j <= orig.len(),
                orig == old(self).indexed_sources@,
                self.indexed_sources@ == sources_other_than(orig.take(j), path@) + orig.skip(j),
                i == sources_other_than(orig.take(j), path@).len(),
                self.indexed_sources@.len() == i + (orig.len() - j),
                self.file_index@ == old(self).file_index@,
                self.include_patterns@ == old(self).include_patterns@,
                self.exclude_patterns@ == old(self).exclude_patterns@,
                self.max_file_size == old(self).max_file_size,
                self.index_warnings@ == old(self).index_warnings@,
            decreases orig.len() - j,
        {
            let ghost kept = sources_other_than(orig.take(j), path@);
            assert(orig.take(j + 1).drop_last() =~= orig.take(j));
            assert(self.indexed_sources@[i as int] == orig[j]);
            if self.indexed_sources[i].path == *path {
                self.indexed_sources.remove(i);
                assert(self.indexed_sources@ =~= kept + orig.skip(j + 1));
            } else {
                i = i + 1;
                assert(kept.push(orig[j]) + orig.skip(j + 1) =~= kept + orig.skip(j));
            }
            proof {
                j = j + 1;
            }
        }
        assert(orig.take(j) =~= orig);
        assert(self.indexed_sources@ =~= sources_other_than(orig, path@));
        let ghost cat = self.file_index@;
        let mut i: usize = 0;
        let ghost mut j: int = 0;
        while i < self.file_index.len()
            invariant
                0 <= j <= cat.len(),
                cat == old(self).file_index@,
                self.file_index@ == entries_outside(cat.take(j), path@) + cat.skip(j),
                i == entries_outside(cat.take(j), path@).len(),
                self.file_index@.len() == i + (cat.len() - j),
                root@ == path@,
                self.include_patterns@ == old(self).include_patterns@,
                self.exclude_patterns@ == old(self).exclude_patterns@,
                self.max_file_size == old(self).max_file_size,
                self.index_warnings@ == old(self).index_warnings@,
                self.indexed_sources@ == sources_other_than(orig, path@),
                self.wf(),
            decreases cat.len() - j,
        {
            let ghost kept = entries_outside(cat.take(j), path@);
            assert(cat.take(j + 1).drop_last() =~= cat.take(j));
            assert(self.file_index@[i as int] == cat[j]);
            let p = chars_of(self.file_index[i].path.as_str());
            if is_under(&p, &root) {
                self.file_index.remove(i);
                assert(self.file_index@ =~= kept + cat.skip(j + 1));
            } else {
                i = i + 1;
                assert(kept.push(cat[j]) + cat.skip(j + 1) =~= kept + cat.skip(j));
            }
            proof {
                j = j + 1;
            }
        }
        assert(cat.take(j) =~= cat);
        assert(self.file_index@ =~= entries_outside(cat, path@));
        Ok(())
    }

    /// Drops the catalog entries that the current pattern rule refuses.
    fn prune_to_patterns(&mut self)
        requires
            distinct_paths(old(self).catalog()),
        ensures
            final(self).warnings() == old(self).warnings(),
            final(self).wf(),
            final(self).catalog() == entries_included(old(self).catalog(), old(self).accept(), old(self).reject()),
            final(self).sources() == old(self).sources(),
            final(self).accept() == old(self).accept(),
            final(self).reject() == old(self).reject(),
            final(self).size_ceiling() == old(self).size_ceiling(),
    {
        let ghost cat = self.file_index@;
        let ghost acc = self.accept();
        let ghost rej = self.reject();
        let mut i: usize = 0;
        let ghost mut j: int = 0;
        while i < self.file_index.len()
            invariant
                0 <= j <= cat.len(),
                cat == old(self).file_index@,
                acc == old(self).accept(),
                rej == old(self).reject(),
                self.file_index@ == entries_included(cat.take(j), acc, rej) + cat.skip(j),
                i == entries_included(cat.take(j), acc, rej).len(),
                self.file_index@.len() == i + (cat.len() - j),
                self.include_patterns@ == old(self).include_patterns@,
                self.exclude_patterns@ == old(self).exclude_patterns@,
                self.max_file_size == old(self).max_file_size,
                self.index_warnings@ == old(self).index_warnings@,
                self.indexed_sources@ == old(self).indexed_sources@,
                distinct_paths(self.file_index@),
                forall|k: int| 0 <= k < i ==> included(acc, rej, (#[trigger] self.file_index@[k]).path@),
            decreases cat.len() - j,
        {
            let ghost kept = entries_included(cat.take(j), acc, rej);
            assert(cat.take(j + 1).drop_last() =~= cat.take(j));
            assert(self.file_index@[i as int] == cat[j]);
            if is_included(&self.include_patterns, &self.exclude_patterns, self.file_index[i].path.as_str()) {
                i = i + 1;
                assert(kept.push(cat[j]) + cat.skip(j + 1) =~= kept + cat.skip(j));
            } else {
                self.file_index.remove(i);
                assert(self.file_index@ =~= kept + cat.skip(j + 1));
            }
            proof {
                j = j + 1;
            }
        }
        assert(cat.take(j) =~= cat);
        assert(self.file_index@ =~= entries_included(cat, acc, rej));
    }

    /// Replaces the accept patterns, all or nothing. If a pattern does not
    /// compile, fails with `Indexing` naming it and changes nothing.
    /// Otherwise the catalog keeps only the entries that the new rule admits.
    pub fn set_include_patterns(&mut self, patterns: Vec<String>) -> (r: Result<(), FileSystemError>)
        requires
            old(self).wf(),
        ensures
            final(self).warnings() == old(self).warnings(),
            final(self).wf(),
            r is Ok <==> forall|i: int| 0 <= i < patterns@.len() ==> pattern_compiles(#[trigger] patterns@[i]@),
            r is Err ==> (r matches Err(FileSystemError::Indexing(_))) && *final(self) == *old(self),
            r matches Err(FileSystemError::Indexing(m)) ==> names_first_bad(m@, patterns@, "Invalid regex pattern '"@),
            r is Ok ==> final(self).accept() == patterns@.map_values(|p: String| p@)
                && final(self).catalog() == entries_included(old(self).catalog(), final(self).accept(), old(self).reject()),
            final(self).reject() == old(self).reject(),
            final(self).sources() == old(self).sources(),
            final(self).size_ceiling() == old(self).size_ceiling(),
    {
        match compile_all(&patterns) {
            Ok(ps) => {
                self.include_patterns = ps;
                assert(self.accept() =~= patterns@.map_values(|p: String| p@));
                self.prune_to_patterns();
                Ok(())
            },
            Err(e) => {
                let m = pattern_error_message(&e);
                proof {
                    lemma_names_first_bad(m@, patterns@, "Invalid regex pattern '"@, e);
                }
                Err(FileSystemError::Indexing(m))
            },
        }
    }

    /// Replaces the reject patterns, all or nothing, as
    /// `set_include_patterns` does for the accept patterns.
    pub fn set_exclude_patterns(&mut self, patterns: Vec<String>) -> (r: Result<(), FileSystemError>)
        requires
            old(self).wf(),
        ensures
            final(self).warnings() == old(self).warnings(),
            final(self).wf(),
            r is Ok <==> forall|i: int| 0 <= i < patterns@.len() ==> pattern_compiles(#[trigger] patterns@[i]@),
            r is Err ==> (r matches Err(FileSystemError::Indexing(_))) && *final(self) == *old(self),
            r matches Err(FileSystemError::Indexing(m)) ==> names_first_bad(m@, patterns@, "Invalid regex pattern '"@),
            r is Ok ==> final(self).reject() == patterns@.map_values(|p: String| p@)
                && final(self).catalog() == entries_included(old(self).catalog(), old(self).accept(), final(self).reject()),
            final(self).accept() == old(self).accept(),
            final(self).sources() == old(self).sources(),
            final(self).size_ceiling() == old(self).size_ceiling(),
    {
        match compile_all(&patterns) {
            Ok(ps) => {
                self.exclude_patterns = ps;
                assert(self.reject() =~= patterns@.map_values(|p: String| p@));
                self.prune_to_patterns();
                Ok(())
            },
            Err(e) => {
                let m = pattern_error_message(&e);
                proof {
                    lemma_names_first_bad(m@, patterns@, "Invalid regex pattern '"@, e);
                }
                Err(FileSystemError::Indexing(m))
            },
        }
    }

    /// Whether `p` lies under one of the registered sources.
    fn under_registered_source(&self, p: &Vec<char>) -> (r: bool)
        ensures
            r == under_some_source(self.sources(), p@),
    {
        let mut i: usize = 0;
        while i < self.indexed_sources.len()
            invariant
                i <= self.sources().len(),
                forall|k: int| 0 <= k < i ==> !path_under(p@, (#[trigger] self.sources()[k]).path@),
            decreases self.sources().len() - i,
        {
            let root = chars_of(self.indexed_sources[i].path.as_str());
            if is_under(p, &root) {
                return true;
            }
            i = i + 1;
        }
        false
    }

    /// Rebuilds the catalog from a walk of the registered sources. `scanned`
    /// lists what the walk found, in walk order; files that could not be read
    /// are simply absent from it. The new catalog holds the entry of each
    /// selected file and nothing else, so entries of vanished files and of
    /// sources removed since the last pass disappear. It is swapped in whole.
    /// `skipped` lists what the walk could not read (files, vanished roots):
    /// the pass goes on without them and keeps them as soft warnings.
    pub fn index_sources(&mut self, scanned: &Vec<ScannedFile>, skipped: Vec<String>) -> (r: Result<(), FileSystemError>)
        requires
            old(self).wf(),
        ensures
            r is Ok,
            final(self).wf(),
            built(*old(self), *final(self), scanned@),
            final(self).warnings() == skipped@.map_values(|p: String| p@),
    {
        let mut cat: Vec<FileInfo> = Vec::new();
        let ghost acc = self.accept();
        let ghost rej = self.reject();
        let mut i: usize = 0;
        while i < scanned.len()
            invariant
                i <= scanned@.len(),
                acc == self.accept(),
                rej == self.reject(),
                *self == *old(self),
                catalog_fits(cat@, selected(self.sources(), acc, rej, scanned@.take(i as int)), self.max_file_size),
                distinct_paths(cat@),
                forall|k: int| 0 <= k < cat@.len() ==> included(acc, rej, (#[trigger] cat@[k]).path@),
            decreases scanned@.len() - i,
        {
            let s = &scanned[i];
            let ghost chosen = selected(self.sources(), acc, rej, scanned@.take(i as int));
            assert(scanned@.take(i + 1).drop_last() =~= scanned@.take(i as int));
            assert(scanned@.take(i + 1).last() == *s);
            let p = chars_of(s.path.as_str());
            if self.under_registered_source(&p) && is_included(&self.include_patterns, &self.exclude_patterns, s.path.as_str()) {
                let mut seen = false;
                let mut k: usize = 0;
                while k < cat.len()
                    invariant
                        k <= cat@.len(),
                        catalog_fits(cat@, chosen, self.max_file_size),
                        !seen ==> forall|m: int| 0 <= m < k ==> (#[trigger] chosen[m]).path@ != s.path@,
                        seen ==> has_path(chosen, s.path@),
                    decreases cat@.len() - k,
                {
                    if cat[k].path == s.path {
                        assert(entry_fits(cat@[k as int], chosen[k as int], self.max_file_size));
                        seen = true;
                    }
                    k = k + 1;
                }
                if !seen {
                    let binary = has_zero_byte(&s.head);
                    let entry = FileInfo {
                        path: s.path.clone(),
                        size: s.size,
                        modified: s.modified,
                        file_type: classify(s.path.as_str(), &s.head),
                        indexable: !binary && s.size <= self.max_file_size,
                    };
                    cat.push(entry);
                    assert(catalog_fits(cat@, chosen.push(*s), self.max_file_size));
                }
            }
            i = i + 1;
        }
        assert(scanned@.take(scanned@.len() as int) =~= scanned@);
        self.file_index = cat;
        self.index_warnings = skipped;
        Ok(())
    }

    /// The paths of the indexable catalog entries, in catalog order: the
    /// files a search reads.
    pub fn search_targets(&self) -> (r: Vec<String>)
        ensures
            r@.map_values(|p: String| p@) == indexable_paths(self.catalog()),
    {
        let mut out: Vec<String> = Vec::new();
        let mut i: usize = 0;
        while i < self.file_index.len()
            invariant
                i <= self.catalog().len(),
                out@.map_values(|p: String| p@) == indexable_paths(self.catalog().take(i as int)),
            decreases self.catalog().len() - i,
        {
            assert(self.catalog().take(i + 1).drop_last() =~= self.catalog().take(i as int));
            if self.file_index[i].indexable {
                let ghost before = out@;
                out.push(self.file_index[i].path.clone());
                assert(out@.map_values(|p: String| p@) =~= before.map_values(|p: String| p@).push(self.catalog()[i as int].path@));
            }
            i = i + 1;
        }
        assert(self.catalog().take(self.catalog().len() as int) =~= self.catalog());
        out
    }

    /// Replaces both pattern lists at once, all or nothing. If a pattern of
    /// either list does not compile, fails with `Indexing` naming the first
    /// such pattern (of the accept list first) and changes nothing. Otherwise
    /// the catalog keeps only the entries that the new rule admits.
    pub fn set_patterns(&mut self, accept: Vec<String>, reject: Vec<String>) -> (r: Result<(), FileSystemError>)
        requires
            old(self).wf(),
        ensures
            final(self).warnings() == old(self).warnings(),
            final(self).wf(),
            r is Ok <==> all_compile(accept@) && all_compile(reject@),
            r is Err ==> (r matches Err(FileSystemError::Indexing(_))) && *final(self) == *old(self),
            r matches Err(FileSystemError::Indexing(m)) ==> if !all_compile(accept@) {
                names_first_bad(m@, accept@, "Invalid regex pattern '"@)
            } else {
                names_first_bad(m@, reject@, "Invalid regex pattern '"@)
            },
            r is Ok ==> final(self).accept() == accept@.map_values(|p: String| p@)
                && final(self).reject() == reject@.map_values(|p: String| p@)
                && final(self).catalog() == entries_included(old(self).catalog(), final(self).accept(), final(self).reject()),
            final(self).sources() == old(self).sources(),
            final(self).size_ceiling() == old(self).size_ceiling(),
    {
        let acc = match compile_all(&accept) {
            Ok(ps) => ps,
            Err(e) => {
                let m = pattern_error_message(&e);
                proof {
                    lemma_names_first_bad(m@, accept@, "Invalid regex pattern '"@, e);
                }
                return Err(FileSystemError::Indexing(m));
            },
        };
        let rej = match compile_all(&reject) {
            Ok(ps) => ps,
            Err(e) => {
                let m = pattern_error_message(&e);
                proof {
                    lemma_names_first_bad(m@, reject@, "Invalid regex pattern '"@, e);
                }
                return Err(FileSystemError::Indexing(m));
            },
        };
        self.include_patterns = acc;
        self.exclude_patterns = rej;
        assert(self.accept() =~= accept@.map_values(|p: String| p@));
        assert(self.reject() =~= reject@.map_values(|p: String| p@));
        self.prune_to_patterns();
        Ok(())
    }

    /// The soft warnings of the last index pass.
    pub fn index_warnings(&self) -> (r: &Vec<String>)
        ensures
            r@.map_values(|p: String| p@) == self.warnings(),
    {
        &self.index_warnings
    }

    /// The registered sources, in order of registration.
    pub fn list_sources(&self) -> (r: &Vec<DataSource>)
        ensures
            r@ == self.sources(),
    {
        &self.indexed_sources
    }

    /// The catalog, in index order.
    pub fn get_indexed_files(&self) -> (r: &Vec<FileInfo>)
        ensures
            r@ == self.catalog(),
    {
        &self.file_index
    }
}

} // verus!

verus! {

/// Whether two types are the same: same variant, and the same language tag
/// for code.
pub open spec fn same_type(a: FileType, b: FileType) -> bool {
    match (a, b) {
        (FileType::Text, FileType::Text) => true,
        (FileType::Markdown, FileType::Markdown) => true,
        (FileType::Json, FileType::Json) => true,
        (FileType::Config, FileType::Config) => true,
        (FileType::Code(x), FileType::Code(y)) => x@ == y@,
        (FileType::Log, FileType::Log) => true,
        (FileType::Binary, FileType::Binary) => true,
        _ => false,
    }
}

/// Whether two catalog entries describe the same file the same way.
pub open spec fn same_entry(a: FileInfo, b: FileInfo) -> bool {
    &&& a.path@ == b.path@
    &&& a.size == b.size
    &&& a.modified == b.modified
    &&& a.indexable == b.indexable
    &&& same_type(a.file_type, b.file_type)
}

/// Indexing twice over the same walk gives the same catalog: the second pass
/// finds the same entries, with the same paths, sizes and types.
pub proof fn lemma_rebuild_is_idempotent(
    a: FileSystemManager,
    b: FileSystemManager,
    c: FileSystemManager,
    scanned: Seq<ScannedFile>,
)
    requires
        built(a, b, scanned),
        built(b, c, scanned),
    ensures
        c.catalog().len() == b.catalog().len(),
        forall|i: int| 0 <= i < c.catalog().len() ==> same_entry(#[trigger] c.catalog()[i], b.catalog()[i]),
{
    let chosen = selected(a.sources(), a.accept(), a.reject(), scanned);
    assert forall|i: int| 0 <= i < c.catalog().len() implies same_entry(#[trigger] c.catalog()[i], b.catalog()[i]) by {
        assert(entry_fits(c.catalog()[i], chosen[i], a.size_ceiling()));
        assert(entry_fits(b.catalog()[i], chosen[i], a.size_ceiling()));
    }
}

/// Every file an index pass selects lies under a registered source and passes
/// the pattern rule.
pub proof fn lemma_selected_admitted(
    sources: Seq<DataSource>,
    accept: Seq<Seq<char>>,
    reject: Seq<Seq<char>>,
    scanned: Seq<ScannedFile>,
)
    ensures
        forall|i: int| 0 <= i < selected(sources, accept, reject, scanned).len() ==> {
            let p = (#[trigger] selected(sources, accept, reject, scanned)[i]).path@;
            under_some_source(sources, p) && included(accept, reject, p)
        },
    decreases scanned.len(),
{
    if scanned.len() > 0 {
        lemma_selected_admitted(sources, accept, reject, scanned.drop_last());
        let before = selected(sources, accept, reject, scanned.drop_last());
        let now = selected(sources, accept, reject, scanned);
        assert forall|i: int| 0 <= i < now.len() implies {
            let p = (#[trigger] now[i]).path@;
            under_some_source(sources, p) && included(accept, reject, p)
        } by {
            if i < before.len() {
                assert(now[i] == before[i]);
            }
        }
    }
}

/// No catalog entry ever fails the pattern rule, and after an index pass
/// every entry lies under a registered source.
pub proof fn lemma_catalog_respects_rule(m: FileSystemManager, before: FileSystemManager, scanned: Seq<ScannedFile>)
    requires
        m.wf(),
    ensures
        forall|i: int| 0 <= i < m.catalog().len() ==> included(m.accept(), m.reject(), (#[trigger] m.catalog()[i]).path@),
        built(before, m, scanned) ==> forall|i: int| 0 <= i < m.catalog().len() ==> under_some_source(m.sources(), (#[trigger] m.catalog()[i]).path@),
{
    if built(before, m, scanned) {
        lemma_selected_admitted(before.sources(), before.accept(), before.reject(), scanned);
        let chosen = selected(before.sources(), before.accept(), before.reject(), scanned);
        assert forall|i: int| 0 <= i < m.catalog().len() implies under_some_source(m.sources(), (#[trigger] m.catalog()[i]).path@) by {
            assert(entry_fits(m.catalog()[i], chosen[i], before.size_ceiling()));
            assert(chosen[i].path@ == m.catalog()[i].path@);
        }
    }
}

/// Removing a source removes exactly the entries under it: what is left is
/// what the catalog held outside it.
pub proof fn lemma_removal_is_exact(catalog: Seq<FileInfo>, root: Seq<char>)
    ensures
        forall|i: int| 0 <= i < entries_outside(catalog, root).len() ==> {
            let e = #[trigger] entries_outside(catalog, root)[i];
            !path_under(e.path@, root) && catalog.contains(e)
        },
        forall|i: int| 0 <= i < catalog.len() && !path_under((#[trigger] catalog[i]).path@, root) ==> entries_outside(catalog, root).contains(catalog[i]),
    decreases catalog.len(),
{
    if catalog.len() > 0 {
        let rest = catalog.drop_last();
        lemma_removal_is_exact(rest, root);
        let before = entries_outside(rest, root);
        assert forall|i: int| 0 <= i < entries_outside(catalog, root).len() implies {
            let e = #[trigger] entries_outside(catalog, root)[i];
            !path_under(e.path@, root) && catalog.contains(e)
        } by {
            let e = entries_outside(catalog, root)[i];
            if i < before.len() {
                assert(e == before[i]);
                let k = choose|k: int| 0 <= k < rest.len() && rest[k] == e;
                assert(catalog[k] == e);
            } else {
                assert(catalog[catalog.len() - 1] == e);
            }
        }
        assert forall|i: int| 0 <= i < catalog.len() && !path_under((#[trigger] catalog[i]).path@, root) implies entries_outside(catalog, root).contains(catalog[i]) by {
            if i < catalog.len() - 1 {
                assert(rest[i] == catalog[i]);
                let k = choose|k: int| 0 <= k < before.len() && before[k] == catalog[i];
                assert(entries_outside(catalog, root)[k] == catalog[i]);
            } else {
                let out = entries_outside(catalog, root);
                assert(out[out.len() - 1] == catalog[i]);
            }
        }
    }
}

} // verus!

verus! {

proof fn lemma_indexable_paths_distinct(cat: Seq<FileInfo>)
    requires
        distinct_paths(cat),
    ensures
        forall|i: int| 0 <= i < indexable_paths(cat).len() ==> exists|k: int| 0 <= k < cat.len() && (#[trigger] indexable_paths(cat)[i]) == cat[k].path@,
        forall|i: int, j: int|
            0 <= i < indexable_paths(cat).len() && 0 <= j < indexable_paths(cat).len() && i != j ==> (#[trigger] indexable_paths(cat)[i]) != (#[trigger] indexable_paths(cat)[j]),
    decreases cat.len(),
{
    if cat.len() > 0 {
        let rest = cat.drop_last();
        assert(distinct_paths(rest)) by {
            assert forall|i: int, j: int| 0 <= i < rest.len() && 0 <= j < rest.len() && i != j implies (#[trigger] rest[i]).path@ != (#[trigger] rest[j]).path@ by {
                assert(rest[i] == cat[i] && rest[j] == cat[j]);
            }
        }
        lemma_indexable_paths_distinct(rest);
        let before = indexable_paths(rest);
        let now = indexable_paths(cat);
        assert forall|i: int| 0 <= i < now.len() implies exists|k: int| 0 <= k < cat.len() && (#[trigger] now[i]) == cat[k].path@ by {
            if i < before.len() {
                assert(now[i] == before[i]);
                let k = choose|k: int| 0 <= k < rest.len() && before[i] == rest[k].path@;
                assert(cat[k] == rest[k]);
            } else {
                assert(now[i] == cat[cat.len() - 1].path@);
            }
        }
        assert forall|i: int, j: int| 0 <= i < now.len() && 0 <= j < now.len() && i != j implies (#[trigger] now[i]) != (#[trigger] now[j]) by {
            if i < before.len() && j < before.len() {
                assert(now[i] == before[i] && now[j] == before[j]);
            } else if i < before.len() {
                assert(now[i] == before[i]);
                let k = choose|k: int| 0 <= k < rest.len() && before[i] == rest[k].path@;
                assert(cat[k] == rest[k]);
                assert(now[j] == cat[cat.len() - 1].path@);
            } else if j < before.len() {
                assert(now[j] == before[j]);
                let k = choose|k: int| 0 <= k < rest.len() && before[j] == rest[k].path@;
                assert(cat[k] == rest[k]);
                assert(now[i] == cat[cat.len() - 1].path@);
            }
        }
    }
}

impl FileSystemManager {
    /// Searches the indexable files for the keywords. `docs` holds, for each
    /// path that `search_targets` returned and in that order, the text read
    /// now (`None` for a file that could not be read, which is skipped).
    pub fn search_files(&self, keywords: &Vec<String>, docs: &Vec<Document>) -> (r: Vec<SearchResult>)
        requires
            self.wf(),
            docs@.len() == indexable_paths(self.catalog()).len(),
            forall|j: int| 0 <= j < docs@.len() ==> (#[trigger] docs@[j]).path@ == indexable_paths(self.catalog())[j],
            forall|j: int| 0 <= j < docs@.len() ==> doc_fits_memory(#[trigger] docs@[j]),
        ensures
            is_ranked(r@),
            forall|i: int| 0 <= i < r@.len() ==> from_some_doc(#[trigger] r@[i], search_terms(keywords@.map_values(|k: String| k@)), docs@, docs@.len() as int),
            forall|j: int| 0 <= j < docs@.len() && relevant_doc(search_terms(keywords@.map_values(|k: String| k@)), #[trigger] docs@[j]) ==> has_result_for(r@, docs@[j].path@),
    {
        proof {
            lemma_indexable_paths_distinct(self.catalog());
            let ip = indexable_paths(self.catalog());
            assert forall|i: int, j: int| 0 <= i < docs@.len() && 0 <= j < docs@.len() && i != j implies (#[trigger] docs@[i]).path@ != (#[trigger] docs@[j]).path@ by {
                assert(docs@[i].path@ == ip[i] && docs@[j].path@ == ip[j]);
            }
        }
        search(keywords, docs)
    }
}

} // verus!

verus! {

/// A copy of a file type.
pub fn copy_type(t: &FileType) -> (r: FileType)
    ensures
        same_type(r, *t),
{
    match t {
        FileType::Text => FileType::Text,
        FileType::Markdown => FileType::Markdown,
        FileType::Json => FileType::Json,
        FileType::Config => FileType::Config,
        FileType::Code(lang) => FileType::Code(lang.clone()),
        FileType::Log => FileType::Log,
        FileType::Binary => FileType::Binary,
    }
}

impl FileSystemManager {
    /// A copy of the catalog, entry for entry: what a retrieval round sees.
    pub fn catalog_snapshot(&self) -> (r: Vec<FileInfo>)
        ensures
            r@.len() == self.catalog().len(),
            forall|i: int| 0 <= i < r@.len() ==> same_entry(#[trigger] r@[i], self.catalog()[i]),
    {
        let mut out: Vec<FileInfo> = Vec::new();
        let mut i: usize = 0;
        while i < self.file_index.len()
            invariant
                i <= self.catalog().len(),
                out@.len() == i,
                forall|k: int| 0 <= k < i ==> same_entry(#[trigger] out@[k], self.catalog()[k]),
            decreases self.catalog().len() - i,
        {
            let f = &self.file_index[i];
            out.push(FileInfo {
                path: f.path.clone(),
                size: f.size,
                modified: f.modified,
                file_type: copy_type(&f.file_type),
                indexable: f.indexable,
            });
            i = i + 1;
        }
        out
    }
}

} // verus!
