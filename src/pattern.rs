use vstd::prelude::*;

verus! {

#[verifier::external_type_specification]
#[verifier::external_body]
pub struct ExRegex(regex::Regex);

#[verifier::external_type_specification]
#[verifier::external_body]
pub struct ExRegexError(regex::Error);

/// Whether `regex::Regex::new` accepts the pattern text `pattern`.
pub uninterp spec fn regex_accepts(pattern: Seq<char>) -> bool;

/// Whether the regular expression written `pattern` matches somewhere in `text`.
pub uninterp spec fn regex_finds(pattern: Seq<char>, text: Seq<char>) -> bool;

/// A compiled regular expression together with the text it was compiled from.
/// The only way to make one is `Pattern::new`, so `compiled` always comes from `source`.
#[derive(Debug)]
pub struct Pattern {
    source: String,
    compiled: regex::Regex,
}

impl View for Pattern {
    type V = Seq<char>;

    closed spec fn view(&self) -> Seq<char> {
        self.source@
    }
}

/// A pattern string that is not a valid regular expression.
#[derive(Debug)]
pub struct PatternError {
    pub pattern: String,
    pub error: regex::Error,
}

/// Relies on regex::Regex::new: it succeeds exactly on the pattern texts it accepts,
/// which depends on the text alone.
#[verifier::external_body]
fn compile(source: &str) -> (r: Result<Pattern, regex::Error>)
    ensures
        r is Ok <==> regex_accepts(source@),
        r matches Ok(p) ==> p@ == source@,
{
    match regex::Regex::new(source) {
        Ok(re) => Ok(Pattern { source: source.to_string(), compiled: re }),
        Err(e) => Err(e),
    }
}

/// Relies on regex::Regex::is_match: whether the expression matches somewhere in the text.
#[verifier::external_body]
fn find_in(p: &Pattern, text: &str) -> (r: bool)
    ensures
        r == regex_finds(p@, text@),
{
    p.compiled.is_match(text)
}

impl Pattern {
    /// Compiles `source`, or names it in the error where it is not a valid expression.
    pub fn new(source: &str) -> (r: Result<Pattern, PatternError>)
        ensures
            r is Ok <==> regex_accepts(source@),
            r matches Ok(p) ==> p@ == source@,
            r matches Err(e) ==> e.pattern@ == source@,
    {
        match compile(source) {
            Ok(p) => Ok(p),
            Err(error) => Err(PatternError { pattern: source.to_string(), error }),
        }
    }

    /// The text the pattern was compiled from.
    pub fn as_str(&self) -> (r: &str)
        ensures
            r@ == self@,
    {
        self.source.as_str()
    }

    /// Whether the pattern matches somewhere in `text`.
    pub fn is_match(&self, text: &str) -> (r: bool)
        ensures
            r == regex_finds(self@, text@),
    {
        find_in(self, text)
    }
}

/// The index of the first of `pats`, from index `k` on, that matches `text`.
pub open spec fn first_match_from(pats: Seq<Seq<char>>, text: Seq<char>, k: int) -> Option<int>
    decreases pats.len() - k,
{
    if k < 0 || k >= pats.len() {
        None
    } else if regex_finds(pats[k], text) {
        Some(k)
    } else {
        first_match_from(pats, text, k + 1)
    }
}

/// The index of the first of `pats` that matches `text`, if any does.
pub open spec fn first_match(pats: Seq<Seq<char>>, text: Seq<char>) -> Option<int> {
    first_match_from(pats, text, 0)
}

/// The index of the first of `srcs`, from index `k` on, that is not a valid expression.
pub open spec fn first_rejected_from(srcs: Seq<Seq<char>>, k: int) -> Option<int>
    decreases srcs.len() - k,
{
    if k < 0 || k >= srcs.len() {
        None
    } else if !regex_accepts(srcs[k]) {
        Some(k)
    } else {
        first_rejected_from(srcs, k + 1)
    }
}

pub open spec fn first_rejected(srcs: Seq<Seq<char>>) -> Option<int> {
    first_rejected_from(srcs, 0)
}

pub open spec fn texts(v: Seq<String>) -> Seq<Seq<char>> {
    v.map_values(|s: String| s@)
}

/// A fixed set of patterns; a text matches when any one of them does.
#[derive(Debug)]
pub struct Matcher {
    patterns: Vec<Pattern>,
}

impl View for Matcher {
    type V = Seq<Seq<char>>;

    closed spec fn view(&self) -> Seq<Seq<char>> {
        self.patterns@.map_values(|p: Pattern| p@)
    }
}

impl Matcher {
    /// Compiles every pattern string, failing on the first invalid one before any
    /// matching can take place.
    pub fn new(sources: &Vec<String>) -> (r: Result<Matcher, PatternError>)
        ensures
            r is Ok <==> first_rejected(texts(sources@)) is None,
            r matches Ok(m) ==> m@ == texts(sources@),
            r matches Err(e) ==> first_rejected(texts(sources@)) matches Some(k)
                && e.pattern@ == sources@[k]@,
    {
        let ghost srcs = texts(sources@);
        let mut patterns: Vec<Pattern> = Vec::new();
        let mut i: usize = 0;
        while i < sources.len()
            invariant
                srcs == texts(sources@),
                i <= sources.len(),
                patterns@.len() == i,
                forall|j: int| 0 <= j < i ==> (#[trigger] patterns@[j])@ == sources@[j]@,
                first_rejected(srcs) == first_rejected_from(srcs, i as int),
            decreases sources.len() - i,
        {
            match Pattern::new(sources[i].as_str()) {
                Ok(p) => {
                    patterns.push(p);
                    i = i + 1;
                },
                Err(e) => {
                    return Err(e);
                },
            }
        }
        let m = Matcher { patterns };
        assert(m@ =~= srcs);
        Ok(m)
    }

    /// The number of patterns.
    pub fn len(&self) -> (r: usize)
        ensures
            r == self@.len(),
    {
        self.patterns.len()
    }

    /// The first pattern, by index, that matches `text`.
    pub fn matches(&self, text: &str) -> (r: Option<usize>)
        ensures
            r matches Some(k) ==> first_match(self@, text@) == Some(k as int),
            r is None ==> first_match(self@, text@) is None,
    {
        let ghost pats = self@;
        let mut i: usize = 0;
        while i < self.patterns.len()
            invariant
                pats == self@,
                i <= self.patterns@.len(),
                first_match(pats, text@) == first_match_from(pats, text@, i as int),
            decreases self.patterns@.len() - i,
        {
            if self.patterns[i].is_match(text) {
                return Some(i);
            }
            i = i + 1;
        }
        None
    }
}

} // verus!
