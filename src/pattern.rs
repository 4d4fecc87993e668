use vstd::prelude::*;

verus! {

/// Whether `regex::Regex::new` accepts a pattern.
pub uninterp spec fn pattern_compiles(pattern: Seq<char>) -> bool;

/// Whether the regex compiled from `pattern` matches somewhere in `text`.
pub uninterp spec fn pattern_matches(pattern: Seq<char>, text: Seq<char>) -> bool;

#[verifier::external_type_specification]
#[verifier::external_body]
pub struct ExRegex(regex::Regex);

#[verifier::external_type_specification]
#[verifier::external_body]
pub struct ExRegexError(regex::Error);

/// A compiled pattern, kept together with the text it was compiled from.
/// Only `Pattern::compile` builds one, so the regex always comes from
/// `source`.
pub struct Pattern {
    source: String,
    regex: regex::Regex,
}

/// Why a pattern set was refused: the first pattern that did not compile and
/// the parser's message.
#[derive(Debug)]
pub struct PatternError {
    pub pattern: String,
    pub message: String,
}

/// Relies on regex::Regex::new: it returns `Ok` exactly for the patterns
/// that the regex syntax accepts.
#[verifier::external_body]
fn compile_regex(pattern: &str) -> (r: Result<regex::Regex, regex::Error>)
    ensures
        r is Ok <==> pattern_compiles(pattern@),
{
    regex::Regex::new(pattern)
}

/// Relies on regex::Error's `Display`: the parser's message.
#[verifier::external_body]
fn regex_error_message(e: &regex::Error) -> (r: String) {
    e.to_string()
}

/// Relies on regex::Regex::is_match, on a regex that `compile` built from
/// `p.source`: whether it matches anywhere in `text`.
#[verifier::external_body]
fn regex_is_match(p: &Pattern, text: &str) -> (r: bool)
    ensures
        r == pattern_matches(p@, text@),
{
    p.regex.is_match(text)
}

impl View for Pattern {
    type V = Seq<char>;

    closed spec fn view(&self) -> Seq<char> {
        self.source@
    }
}

impl Pattern {
    /// Compiles `source`; fails exactly when the regex syntax refuses it.
    pub fn compile(source: &String) -> (r: Result<Pattern, PatternError>)
        ensures
            r is Ok <==> pattern_compiles(source@),
            r matches Ok(p) ==> p@ == source@,
            r matches Err(e) ==> e.pattern@ == source@,
    {
        match compile_regex(source.as_str()) {
            Ok(regex) => Ok(Pattern { source: source.clone(), regex }),
            Err(e) => Err(PatternError { pattern: source.clone(), message: regex_error_message(&e) }),
        }
    }

    /// The text the pattern was compiled from.
    pub fn source(&self) -> (r: &String)
        ensures
            r@ == self@,
    {
        &self.source
    }

    /// Whether the pattern matches somewhere in `text`.
    pub fn is_match(&self, text: &str) -> (r: bool)
        ensures
            r == pattern_matches(self@, text@),
    {
        regex_is_match(self, text)
    }
}

/// The sources of a list of patterns.
pub open spec fn sources_of(ps: Seq<Pattern>) -> Seq<Seq<char>> {
    ps.map_values(|p: Pattern| p@)
}

/// Whether some pattern of `ps` matches `text`.
pub open spec fn any_matches(ps: Seq<Seq<char>>, text: Seq<char>) -> bool {
    exists|i: int| 0 <= i < ps.len() && pattern_matches(#[trigger] ps[i], text)
}

/// The accept/reject rule: a path is included when it matches at least one
/// accept pattern and no reject pattern.
pub open spec fn included(accept: Seq<Seq<char>>, reject: Seq<Seq<char>>, path: Seq<char>) -> bool {
    any_matches(accept, path) && !any_matches(reject, path)
}

/// Whether every pattern of `ps` compiles.
pub open spec fn all_compile(ps: Seq<String>) -> bool {
    forall|i: int| 0 <= i < ps.len() ==> pattern_compiles(#[trigger] ps[i]@)
}

/// Whether the error text `m` starts with `lead`, then names the first
/// pattern of `ps` that does not compile, then `': ` (the parser's message
/// follows).
pub open spec fn names_first_bad(m: Seq<char>, ps: Seq<String>, lead: Seq<char>) -> bool {
    exists|i: int|
        0 <= i < ps.len() && !pattern_compiles(#[trigger] ps[i]@) && (forall|j: int|
            0 <= j < i ==> pattern_compiles(#[trigger] ps[j]@)) && crate::text::has_prefix(
            m,
            lead + ps[i]@ + "': "@,
        )
}

/// An error text made of `lead`, the pattern of `e`, `': ` and the parser's
/// message names the first bad pattern of `ps` when `e` came from compiling
/// `ps`.
pub proof fn lemma_names_first_bad(m: Seq<char>, ps: Seq<String>, lead: Seq<char>, e: PatternError)
    requires
        m == lead + e.pattern@ + "': "@ + e.message@,
        exists|i: int|
            0 <= i < ps.len() && (#[trigger] ps[i])@ == e.pattern@ && !pattern_compiles(ps[i]@)
                && forall|j: int| 0 <= j < i ==> pattern_compiles(#[trigger] ps[j]@),
    ensures
        names_first_bad(m, ps, lead),
{
    let i = choose|i: int|
        0 <= i < ps.len() && (#[trigger] ps[i])@ == e.pattern@ && !pattern_compiles(ps[i]@)
            && forall|j: int| 0 <= j < i ==> pattern_compiles(#[trigger] ps[j]@);
    let head = lead + ps[i]@ + "': "@;
    assert(m.subrange(0, head.len() as int) =~= head);
}

/// Compiles every pattern of `sources`, all or nothing: on failure it names
/// the first pattern that does not compile.
pub fn compile_all(sources: &Vec<String>) -> (r: Result<Vec<Pattern>, PatternError>)
    ensures
        r is Ok <==> forall|i: int| 0 <= i < sources@.len() ==> pattern_compiles(#[trigger] sources@[i]@),
        r matches Ok(ps) ==> ps@.len() == sources@.len()
            && forall|i: int| 0 <= i < sources@.len() ==> (#[trigger] ps@[i])@ == sources@[i]@,
        r matches Err(e) ==> exists|i: int| 0 <= i < sources@.len()
            && (#[trigger] sources@[i])@ == e.pattern@
            && !pattern_compiles(sources@[i]@)
            && forall|j: int| 0 <= j < i ==> pattern_compiles(#[trigger] sources@[j]@),
{
    let mut out: Vec<Pattern> = Vec::new();
    let mut i: usize = 0;
    while i < sources.len()
        invariant
            i <= sources@.len(),
            out@.len() == i,
            forall|j: int| 0 <= j < i ==> (#[trigger] out@[j])@ == sources@[j]@,
            forall|j: int| 0 <= j < i ==> pattern_compiles(#[trigger] sources@[j]@),
        decreases sources@.len() - i,
    {
        match Pattern::compile(&sources[i]) {
            Ok(p) => out.push(p),
            Err(e) => {
                return Err(e);
            },
        }
        i = i + 1;
    }
    Ok(out)
}

/// Whether some pattern of `ps` matches `text`.
pub fn matches_any(ps: &Vec<Pattern>, text: &str) -> (r: bool)
    ensures
        r == any_matches(sources_of(ps@), text@),
{
    let mut i: usize = 0;
    while i < ps.len()
        invariant
            i <= ps@.len(),
            forall|j: int| 0 <= j < i ==> !pattern_matches(#[trigger] sources_of(ps@)[j], text@),
        decreases ps@.len() - i,
    {
        if ps[i].is_match(text) {
            assert(pattern_matches(sources_of(ps@)[i as int], text@));
            return true;
        }
        i = i + 1;
    }
    false
}

/// The accept/reject rule on one path.
pub fn is_included(accept: &Vec<Pattern>, reject: &Vec<Pattern>, path: &str) -> (r: bool)
    ensures
        r == included(sources_of(accept@), sources_of(reject@), path@),
{
    matches_any(accept, path) && !matches_any(reject, path)
}

} // verus!
