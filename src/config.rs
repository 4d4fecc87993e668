use vstd::prelude::*;
use crate::pattern::{all_compile, compile_all, lemma_names_first_bad, names_first_bad, pattern_compiles};
use crate::text::{blank, chars_of, concat, has_prefix, is_blank, starts_with};
use crate::types::{ConfigError, LlmProvider};

verus! {

/// The application's settings. Paths are text; `data_sources` lists the
/// registered roots.
#[derive(Debug)]
pub struct AppConfig {
    pub llm_provider: Option<LlmProvider>,
    pub global_system_prompt: Option<String>,
    pub rag_enabled_default: bool,
    pub provisional_mode_default: bool,
    pub data_sources: Vec<String>,
    pub include_patterns: Vec<String>,
    pub exclude_patterns: Vec<String>,
    pub conversation_storage_path: String,
}

pub open spec fn texts(v: Seq<String>) -> Seq<Seq<char>> {
    v.map_values(|s: String| s@)
}

/// The default accept patterns: plain-text and structured formats.
pub open spec fn default_accept() -> Seq<Seq<char>> {
    seq!["\\.txt$"@, "\\.md$"@, "\\.json$"@, "\\.toml$"@, "\\.yaml$"@, "\\.yml$"@]
}

/// The default reject patterns: version control, build output, dependencies
/// and OS metadata.
pub open spec fn default_reject() -> Seq<Seq<char>> {
    seq!["\\.git/"@, "target/"@, "node_modules/"@, "\\.DS_Store$"@]
}

impl Default for AppConfig {
    fn default() -> (r: Self)
        ensures
            r.llm_provider is None,
            r.global_system_prompt is None,
            !r.rag_enabled_default,
            !r.provisional_mode_default,
            r.data_sources@.len() == 0,
            texts(r.include_patterns@) == default_accept(),
            texts(r.exclude_patterns@) == default_reject(),
            r.conversation_storage_path@ == "conversations"@,
    {
        let mut acc: Vec<String> = Vec::new();
        acc.push(String::from_str("\\.txt$"));
        acc.push(String::from_str("\\.md$"));
        acc.push(String::from_str("\\.json$"));
        acc.push(String::from_str("\\.toml$"));
        acc.push(String::from_str("\\.yaml$"));
        acc.push(String::from_str("\\.yml$"));
        let mut rej: Vec<String> = Vec::new();
        rej.push(String::from_str("\\.git/"));
        rej.push(String::from_str("target/"));
        rej.push(String::from_str("node_modules/"));
        rej.push(String::from_str("\\.DS_Store$"));
        assert(texts(acc@) =~= default_accept());
        assert(texts(rej@) =~= default_reject());
        AppConfig {
            llm_provider: None,
            global_system_prompt: None,
            rag_enabled_default: false,
            provisional_mode_default: false,
            data_sources: Vec::new(),
            include_patterns: acc,
            exclude_patterns: rej,
            conversation_storage_path: String::from_str("conversations"),
        }
    }
}

/// Whether a base URL names an HTTP endpoint.
pub open spec fn is_http_url(u: Seq<char>) -> bool {
    has_prefix(u, "http://"@) || has_prefix(u, "https://"@)
}

/// The largest temperature accepted, in thousandths.
pub const MAX_TEMPERATURE: i64 = 2000;

/// Whether the provider settings are usable: a key and a model that are not
/// blank, an HTTP base URL if one is given, a temperature within [0, 2] and
/// a positive token limit if given.
pub open spec fn provider_valid(p: LlmProvider) -> bool {
    &&& !blank(p.api_key@)
    &&& !blank(p.model@)
    &&& (p.base_url matches Some(u) ==> is_http_url(u@))
    &&& (p.temperature matches Some(t) ==> 0 <= t <= MAX_TEMPERATURE)
    &&& (p.max_tokens matches Some(m) ==> m > 0)
}

/// The message for the first rule that the provider settings break.
pub open spec fn provider_error(p: LlmProvider) -> Seq<char> {
    if blank(p.api_key@) {
        "LLM provider API key cannot be empty"@
    } else if blank(p.model@) {
        "LLM provider model name cannot be empty"@
    } else if p.base_url matches Some(u) && !is_http_url(u@) {
        "LLM provider base URL must start with http:// or https://"@
    } else if p.temperature matches Some(t) && !(0 <= t <= MAX_TEMPERATURE) {
        "LLM provider temperature must be between 0.0 and 2.0"@
    } else {
        "LLM provider max_tokens must be greater than 0"@
    }
}

fn validation(text: &str) -> (e: ConfigError)
    ensures
        e matches ConfigError::Validation(m) && m@ == text@,
{
    ConfigError::Validation(String::from_str(text))
}

/// Checks the provider settings; the first rule broken gives the error.
pub fn validate_llm_provider(provider: &LlmProvider) -> (r: Result<(), ConfigError>)
    ensures
        r is Ok <==> provider_valid(*provider),
        r matches Err(e) ==> e is Validation,
        r matches Err(ConfigError::Validation(m)) ==> m@ == provider_error(*provider),
{
    if is_blank(provider.api_key.as_str()) {
        return Err(validation("LLM provider API key cannot be empty"));
    }
    if is_blank(provider.model.as_str()) {
        return Err(validation("LLM provider model name cannot be empty"));
    }
    match &provider.base_url {
        Some(u) => {
            let cs = chars_of(u.as_str());
            let h1 = chars_of("http://");
            let h2 = chars_of("https://");
            if !starts_with(&cs, &h1) && !starts_with(&cs, &h2) {
                return Err(validation("LLM provider base URL must start with http:// or https://"));
            }
        },
        None => {},
    }
    match provider.temperature {
        Some(t) => {
            if t < 0 || t > MAX_TEMPERATURE {
                return Err(validation("LLM provider temperature must be between 0.0 and 2.0"));
            }
        },
        None => {},
    }
    match provider.max_tokens {
        Some(m) => {
            if m == 0 {
                return Err(validation("LLM provider max_tokens must be greater than 0"));
            }
        },
        None => {},
    }
    Ok(())
}

/// The sources that exist, in order; `exists[i]` says whether `sources[i]`
/// does.
pub open spec fn existing(sources: Seq<Seq<char>>, exists: Seq<bool>) -> Seq<Seq<char>>
    decreases sources.len(),
{
    if sources.len() == 0 || exists.len() < sources.len() {
        Seq::<Seq<char>>::empty()
    } else {
        let before = existing(sources.drop_last(), exists);
        if exists[sources.len() - 1] {
            before.push(sources.last())
        } else {
            before
        }
    }
}

/// Whether every setting is acceptable.
pub open spec fn config_valid(c: AppConfig) -> bool {
    &&& all_compile(c.include_patterns@)
    &&& all_compile(c.exclude_patterns@)
    &&& (c.llm_provider matches Some(p) ==> provider_valid(p))
}

impl AppConfig {
    /// Validates the settings and mends what can be mended: sources that do
    /// not exist are dropped (`exists[i]` says whether `data_sources[i]`
    /// does), and an empty storage path becomes `conversations`. A pattern
    /// that does not compile or unusable provider settings fail with
    /// `Validation`.
    pub fn validate(&mut self, exists: &Vec<bool>) -> (r: Result<(), ConfigError>)
        requires
            exists@.len() == old(self).data_sources@.len(),
        ensures
            r is Ok <==> config_valid(*old(self)),
            r matches Err(e) ==> e is Validation,
            r matches Err(ConfigError::Validation(m)) ==> if !all_compile(old(self).include_patterns@) {
                names_first_bad(m@, old(self).include_patterns@, "Invalid include pattern '"@)
            } else if !all_compile(old(self).exclude_patterns@) {
                names_first_bad(m@, old(self).exclude_patterns@, "Invalid exclude pattern '"@)
            } else {
                match old(self).llm_provider {
                    Some(p) => m@ == provider_error(p),
                    None => false,
                }
            },
            r is Ok ==> texts(final(self).data_sources@) == existing(texts(old(self).data_sources@), exists@)
                && (old(self).conversation_storage_path@.len() == 0 ==> final(self).conversation_storage_path@ == "conversations"@)
                && (old(self).conversation_storage_path@.len() > 0 ==> final(self).conversation_storage_path@ == old(self).conversation_storage_path@)
                && texts(final(self).include_patterns@) == texts(old(self).include_patterns@)
                && texts(final(self).exclude_patterns@) == texts(old(self).exclude_patterns@),
    {
        match compile_all(&self.include_patterns) {
            Ok(_) => {},
            Err(e) => {
                let a = concat("Invalid include pattern '", e.pattern.as_str());
                let b = a.concat("': ");
                let m = b.concat(e.message.as_str());
                proof {
                    lemma_names_first_bad(m@, self.include_patterns@, "Invalid include pattern '"@, e);
                }
                return Err(ConfigError::Validation(m));
            },
        }
        match compile_all(&self.exclude_patterns) {
            Ok(_) => {},
            Err(e) => {
                let a = concat("Invalid exclude pattern '", e.pattern.as_str());
                let b = a.concat("': ");
                let m = b.concat(e.message.as_str());
                proof {
                    lemma_names_first_bad(m@, self.exclude_patterns@, "Invalid exclude pattern '"@, e);
                }
                return Err(ConfigError::Validation(m));
            },
        }
        match &self.llm_provider {
            Some(p) => {
                match validate_llm_provider(p) {
                    Ok(()) => {},
                    Err(e) => {
                        return Err(e);
                    },
                }
            },
            None => {},
        }
        let ghost src = texts(self.data_sources@);
        let mut kept: Vec<String> = Vec::new();
        let mut i: usize = 0;
        while i < self.data_sources.len()
            invariant
                i <= self.data_sources@.len(),
                exists@.len() == self.data_sources@.len(),
                src == texts(self.data_sources@),
                texts(kept@) == existing(src.take(i as int), exists@),
            decreases self.data_sources@.len() - i,
        {
            assert(src.take(i + 1).drop_last() =~= src.take(i as int));
            if exists[i] {
                let ghost before = kept@;
                kept.push(self.data_sources[i].clone());
                assert(texts(kept@) =~= texts(before).push(src[i as int]));
            }
            i = i + 1;
        }
        assert(src.take(src.len() as int) =~= src);
        self.data_sources = kept;
        if self.conversation_storage_path.as_str().unicode_len() == 0 {
            self.conversation_storage_path = String::from_str("conversations");
        }
        Ok(())
    }

    /// Adds a data source unless it is listed already; says whether it was
    /// added.
    pub fn add_data_source(&mut self, path: String) -> (added: bool)
        ensures
            added <==> !texts(old(self).data_sources@).contains(path@),
            added ==> texts(final(self).data_sources@) == texts(old(self).data_sources@).push(path@),
            !added ==> final(self).data_sources@ == old(self).data_sources@,
    {
        if contains_text(&self.data_sources, &path) {
            return false;
        }
        let ghost before = self.data_sources@;
        self.data_sources.push(path);
        assert(texts(self.data_sources@) =~= texts(before).push(path@));
        true
    }

    /// Adds a pattern to the accept list unless listed already. A pattern
    /// that does not compile fails with `Validation` and changes nothing.
    pub fn add_include_pattern(&mut self, pattern: String) -> (r: Result<bool, ConfigError>)
        ensures
            r is Err <==> !pattern_compiles(pattern@),
            r matches Err(e) ==> e is Validation,
            r is Err ==> final(self).include_patterns@ == old(self).include_patterns@,
            r == Ok::<bool, ConfigError>(true) ==> texts(final(self).include_patterns@) == texts(old(self).include_patterns@).push(pattern@),
            r == Ok::<bool, ConfigError>(false) ==> final(self).include_patterns@ == old(self).include_patterns@,
            final(self).exclude_patterns@ == old(self).exclude_patterns@,
    {
        let added = add_pattern(&mut self.include_patterns, pattern)?;
        Ok(added)
    }

    /// Adds a pattern to the reject list, as `add_include_pattern` does.
    pub fn add_exclude_pattern(&mut self, pattern: String) -> (r: Result<bool, ConfigError>)
        ensures
            r is Err <==> !pattern_compiles(pattern@),
            r matches Err(e) ==> e is Validation,
            r is Err ==> final(self).exclude_patterns@ == old(self).exclude_patterns@,
            r == Ok::<bool, ConfigError>(true) ==> texts(final(self).exclude_patterns@) == texts(old(self).exclude_patterns@).push(pattern@),
            r == Ok::<bool, ConfigError>(false) ==> final(self).exclude_patterns@ == old(self).exclude_patterns@,
            final(self).include_patterns@ == old(self).include_patterns@,
    {
        let added = add_pattern(&mut self.exclude_patterns, pattern)?;
        Ok(added)
    }

    /// Removes a data source, every time it is listed.
    pub fn remove_data_source(&mut self, path: &String)
        ensures
            !texts(final(self).data_sources@).contains(path@),
            forall|i: int| 0 <= i < old(self).data_sources@.len() && old(self).data_sources@[i]@ != path@
                ==> texts(final(self).data_sources@).contains(#[trigger] old(self).data_sources@[i]@),
    {
        remove_text(&mut self.data_sources, path);
    }

    /// Removes a pattern from the accept list, every time it is listed.
    pub fn remove_include_pattern(&mut self, pattern: &String)
        ensures
            !texts(final(self).include_patterns@).contains(pattern@),
            forall|i: int| 0 <= i < old(self).include_patterns@.len() && old(self).include_patterns@[i]@ != pattern@
                ==> texts(final(self).include_patterns@).contains(#[trigger] old(self).include_patterns@[i]@),
    {
        remove_text(&mut self.include_patterns, pattern);
    }

    /// Removes a pattern from the reject list, every time it is listed.
    pub fn remove_exclude_pattern(&mut self, pattern: &String)
        ensures
            !texts(final(self).exclude_patterns@).contains(pattern@),
            forall|i: int| 0 <= i < old(self).exclude_patterns@.len() && old(self).exclude_patterns@[i]@ != pattern@
                ==> texts(final(self).exclude_patterns@).contains(#[trigger] old(self).exclude_patterns@[i]@),
    {
        remove_text(&mut self.exclude_patterns, pattern);
    }
}

/// Whether `v` lists `s`.
fn contains_text(v: &Vec<String>, s: &String) -> (r: bool)
    ensures
        r == texts(v@).contains(s@),
{
    let mut i: usize = 0;
    while i < v.len()
        invariant
            i <= v@.len(),
            forall|k: int| 0 <= k < i ==> v@[k]@ != s@,
        decreases v@.len() - i,
    {
        if v[i] == *s {
            assert(texts(v@)[i as int] == s@);
            return true;
        }
        i = i + 1;
    }
    assert(!texts(v@).contains(s@)) by {
        if texts(v@).contains(s@) {
            let k = choose|k: int| 0 <= k < texts(v@).len() && texts(v@)[k] == s@;
            assert(v@[k]@ == s@);
        }
    }
    false
}

fn add_pattern(v: &mut Vec<String>, pattern: String) -> (r: Result<bool, ConfigError>)
    ensures
        r is Err <==> !pattern_compiles(pattern@),
        r matches Err(e) ==> e is Validation,
        r is Err ==> final(v)@ == old(v)@,
        r == Ok::<bool, ConfigError>(true) ==> texts(final(v)@) == texts(old(v)@).push(pattern@),
        r == Ok::<bool, ConfigError>(false) ==> final(v)@ == old(v)@,
{
    match crate::pattern::Pattern::compile(&pattern) {
        Err(e) => {
            let a = concat("Invalid pattern '", e.pattern.as_str());
            let b = a.concat("': ");
            Err(ConfigError::Validation(b.concat(e.message.as_str())))
        },
        Ok(_) => {
            if contains_text(v, &pattern) {
                Ok(false)
            } else {
                let ghost before = v@;
                v.push(pattern);
                assert(texts(v@) =~= texts(before).push(texts(v@).last()));
                Ok(true)
            }
        },
    }
}

fn remove_text(v: &mut Vec<String>, s: &String)
    ensures
        !texts(final(v)@).contains(s@),
        forall|i: int| 0 <= i < old(v)@.len() && old(v)@[i]@ != s@ ==> texts(final(v)@).contains(#[trigger] old(v)@[i]@),
{
    let ghost orig = v@;
    let mut i: usize = 0;
    let ghost mut j: int = 0;
    while i < v.len()
        invariant
            0 <= j <= orig.len(),
            i <= j,
            v@.len() == i + (orig.len() - j),
            forall|k: int| 0 <= k < i ==> (#[trigger] v@[k])@ != s@,
            forall|k: int| j <= k < orig.len() ==> v@[i + (k - j)] == #[trigger] orig[k],
            forall|k: int| 0 <= k < j && orig[k]@ != s@ ==> exists|m: int| 0 <= m < i && (#[trigger] v@[m])@ == (#[trigger] orig[k])@,
        decreases orig.len() - j,
    {
        if v[i] == *s {
            let ghost before = v@;
            v.remove(i);
            assert forall|k: int| 0 <= k < j + 1 && orig[k]@ != s@ implies exists|m: int| 0 <= m < i && (#[trigger] v@[m])@ == (#[trigger] orig[k])@ by {
                let m = choose|m: int| 0 <= m < i && before[m]@ == orig[k]@;
                assert(v@[m] == before[m]);
            }
        } else {
            assert(v@[i as int] == orig[j]);
            i = i + 1;
        }
        proof {
            j = j + 1;
        }
    }
    assert forall|k: int| 0 <= k < orig.len() && orig[k]@ != s@ implies texts(v@).contains(#[trigger] orig[k]@) by {
        let m = choose|m: int| 0 <= m < i && (#[trigger] v@[m])@ == orig[k]@;
        assert(texts(v@)[m] == orig[k]@);
    }
    assert(!texts(v@).contains(s@)) by {
        if texts(v@).contains(s@) {
            let k = choose|k: int| 0 <= k < texts(v@).len() && texts(v@)[k] == s@;
            assert(v@[k]@ == s@);
        }
    }
}

} // verus!
