use vstd::prelude::*;
use vstd::string::*;

use crate::kernel::text_equal;

verus! {

/// The text `text` with every non-overlapping match of the regular
/// expression `pattern` replaced by `replacement` (with `$name` and `${name}`
/// standing for capture groups and `$$` for `$`); `None` when the pattern
/// does not compile.
pub uninterp spec fn regex_replace_all_of(pattern: Seq<char>, text: Seq<char>, replacement: Seq<
    char,
>) -> Option<Seq<char>>;

/// Relies on regex's `Regex::new` and `Regex::replace_all`: the replaced
/// text, or `None` when the pattern does not compile.
#[verifier::external_body]
fn regex_replace_all(pattern: &str, text: &str, replacement: &str) -> (r: Option<String>)
    ensures
        match r {
            Some(s) => regex_replace_all_of(pattern@, text@, replacement@) == Some(s@),
            None => regex_replace_all_of(pattern@, text@, replacement@) is None,
        },
{
    regex::Regex::new(pattern).ok().map(|re| re.replace_all(text, replacement).to_string())
}

/// `text` after one replacement pass, or `text` itself when the pattern does
/// not compile.
pub open spec fn replaced_or_kept(pattern: Seq<char>, text: Seq<char>, replacement: Seq<char>) -> Seq<
    char,
> {
    match regex_replace_all_of(pattern, text, replacement) {
        Some(s) => s,
        None => text,
    }
}

/// A quoted placeholder: `"${NAME}"`, `" ${NAME=default} "`.
pub open spec fn both_quoted_pattern() -> Seq<char> {
    "\"\\s*\\$\\{(\\w*)(?:=[^}]+)?}\\s*\""@
}

/// A placeholder after a closing quote: `"${NAME}`.
pub open spec fn left_quoted_pattern() -> Seq<char> {
    "\"\\s*\\$\\{(\\w*)(?:=[^}]+)?}"@
}

/// A placeholder before an opening quote: `${NAME}"rest`.
pub open spec fn right_quoted_pattern() -> Seq<char> {
    "\\$\\{(\\w*)(?:=[^}]+)?}\\s*\"([^}]+)"@
}

/// HOCON-style placeholders outside of string quotes, moved inside the
/// neighbouring strings: `"s3://"${V}"/x"` becomes `"s3://${V}/x"`.
pub open spec fn hocon_replaced(input: Seq<char>) -> Seq<char> {
    let a = replaced_or_kept(both_quoted_pattern(), input, "$${${1}}"@);
    let b = replaced_or_kept(left_quoted_pattern(), a, "$${${1}}\""@);
    replaced_or_kept(right_quoted_pattern(), b, "\"$${${1}}${2}"@)
}

fn replace_or_keep(pattern: &str, text: String, replacement: &str) -> (r: String)
    ensures
        r@ == replaced_or_kept(pattern@, text@, replacement@),
{
    match regex_replace_all(pattern, text.as_str(), replacement) {
        Some(s) => s,
        None => text,
    }
}

/// Turns HOCON-style placeholders that stand outside string quotes into
/// placeholders inside the strings, so that the configuration is JSON.
pub fn replace_hocon_parameters(input: &str) -> (r: String)
    ensures
        r@ == hocon_replaced(input@),
{
    let a = replace_or_keep(
        "\"\\s*\\$\\{(\\w*)(?:=[^}]+)?}\\s*\"",
        input.to_string(),
        "$${${1}}",
    );
    let b = replace_or_keep("\"\\s*\\$\\{(\\w*)(?:=[^}]+)?}", a, "$${${1}}\"");
    replace_or_keep("\\$\\{(\\w*)(?:=[^}]+)?}\\s*\"([^}]+)", b, "\"$${${1}}${2}")
}

/// Whether the regular expression `pattern` matches somewhere in `text`;
/// `None` when the pattern does not compile.
pub uninterp spec fn regex_is_match_of(pattern: Seq<char>, text: Seq<char>) -> Option<bool>;

/// The texts of the successive non-overlapping matches of `pattern` in
/// `text`; `None` when the pattern does not compile.
pub uninterp spec fn regex_find_all_of(pattern: Seq<char>, text: Seq<char>) -> Option<
    Seq<Seq<char>>,
>;

/// The texts `s` in ascending order.
pub uninterp spec fn sorted_texts_of(s: Seq<Seq<char>>) -> Seq<Seq<char>>;

/// Relies on regex's `Regex::new` and `Regex::is_match`.
#[verifier::external_body]
fn regex_is_match(pattern: &str, text: &str) -> (r: Option<bool>)
    ensures
        r == regex_is_match_of(pattern@, text@),
{
    regex::Regex::new(pattern).ok().map(|re| re.is_match(text))
}

/// Relies on regex's `Regex::new` and `Regex::find_iter`: the matched texts,
/// in order.
#[verifier::external_body]
fn regex_find_all(pattern: &str, text: &str) -> (r: Option<Vec<String>>)
    ensures
        match r {
            Some(v) => regex_find_all_of(pattern@, text@) == Some(v.deep_view()),
            None => regex_find_all_of(pattern@, text@) is None,
        },
{
    regex::Regex::new(pattern).ok().map(|re| re.find_iter(text).map(|m| m.as_str().to_string()).collect())
}

/// Relies on `slice::sort_unstable` on strings: the same texts in ascending
/// order.
#[verifier::external_body]
fn sort_texts(v: Vec<String>) -> (r: Vec<String>)
    ensures
        r.deep_view() == sorted_texts_of(v.deep_view()),
{
    let mut v = v;
    v.sort_unstable();
    v
}

/// Why a substitution failed.
pub enum SubstitutionError {
    /// A pattern built for a parameter does not compile.
    InvalidPattern(String),
    /// No placeholder names this parameter.
    MissingPlaceholder(String),
    /// These placeholders have no parameter.
    MissingParameters(Vec<String>),
}

/// A substitution failure, over texts.
pub enum SubstitutionFailure {
    InvalidPattern(Seq<char>),
    MissingPlaceholder(Seq<char>),
    MissingParameters(Seq<Seq<char>>),
}

impl SubstitutionError {
    pub open spec fn failure(&self) -> SubstitutionFailure {
        match self {
            SubstitutionError::InvalidPattern(p) => SubstitutionFailure::InvalidPattern(p@),
            SubstitutionError::MissingPlaceholder(k) => SubstitutionFailure::MissingPlaceholder(k@),
            SubstitutionError::MissingParameters(v) => SubstitutionFailure::MissingParameters(
                v.deep_view(),
            ),
        }
    }
}

/// The placeholders `${key}` and `${key=default}` of one parameter.
pub open spec fn key_pattern(key: Seq<char>) -> Seq<char> {
    "[$][{]("@ + key + ")(?:=[^}]+)?[}]"@
}

/// Any placeholder left.
pub open spec fn leftover_pattern() -> Seq<char> {
    "[$][{](\\w*)(?:=[^}]+)?[}]"@
}

/// `s` without elements equal to the one before them.
pub open spec fn dedup_adjacent(s: Seq<Seq<char>>) -> Seq<Seq<char>>
    decreases s.len(),
{
    if s.len() <= 1 {
        s
    } else if s.last() == s[s.len() - 2] {
        dedup_adjacent(s.drop_last())
    } else {
        dedup_adjacent(s.drop_last()).push(s.last())
    }
}

/// `text` with the placeholders of `key` replaced by `value`.
pub open spec fn substitute_one(
    text: Seq<char>,
    key: Seq<char>,
    value: Seq<char>,
    allow_missing_placeholders: bool,
) -> Result<Seq<char>, SubstitutionFailure> {
    let p = key_pattern(key);
    match regex_is_match_of(p, text) {
        None => Err(SubstitutionFailure::InvalidPattern(p)),
        Some(found) => if !allow_missing_placeholders && !found {
            Err(SubstitutionFailure::MissingPlaceholder(key))
        } else {
            match regex_replace_all_of(p, text, value) {
                None => Err(SubstitutionFailure::InvalidPattern(p)),
                Some(t) => Ok(t),
            }
        },
    }
}

/// `input` with the parameters substituted one after another.
pub open spec fn substitute_all(
    input: Seq<char>,
    params: Seq<(Seq<char>, Seq<char>)>,
    allow_missing_placeholders: bool,
) -> Result<Seq<char>, SubstitutionFailure>
    decreases params.len(),
{
    if params.len() == 0 {
        Ok(input)
    } else {
        match substitute_all(input, params.drop_last(), allow_missing_placeholders) {
            Err(e) => Err(e),
            Ok(t) => substitute_one(t, params.last().0, params.last().1, allow_missing_placeholders),
        }
    }
}

/// What `substitute_variables` gives.
pub open spec fn substituted(
    input: Seq<char>,
    params: Seq<(Seq<char>, Seq<char>)>,
    allow_missing_placeholders: bool,
    allow_missing_parameters: bool,
) -> Result<Seq<char>, SubstitutionFailure> {
    match substitute_all(input, params, allow_missing_placeholders) {
        Err(e) => Err(e),
        Ok(t) => if allow_missing_parameters {
            Ok(t)
        } else {
            match regex_find_all_of(leftover_pattern(), t) {
                None => Err(SubstitutionFailure::InvalidPattern(leftover_pattern())),
                Some(found) => if found.len() == 0 {
                    Ok(t)
                } else {
                    Err(SubstitutionFailure::MissingParameters(sorted_texts_of(dedup_adjacent(found))))
                },
            }
        },
    }
}

proof fn lemma_substitution_error_sticks(
    input: Seq<char>,
    params: Seq<(Seq<char>, Seq<char>)>,
    n: int,
    allow_missing_placeholders: bool,
)
    requires
        0 <= n <= params.len(),
        substitute_all(input, params.take(n), allow_missing_placeholders) is Err,
    ensures
        substitute_all(input, params, allow_missing_placeholders) == substitute_all(
            input,
            params.take(n),
            allow_missing_placeholders,
        ),
    decreases params.len() - n,
{
    if n == params.len() {
        assert(params.take(n) == params);
    } else {
        assert(params.take(n + 1).drop_last() == params.take(n));
        lemma_substitution_error_sticks(input, params, n + 1, allow_missing_placeholders);
    }
}

fn key_pattern_text(key: &str) -> (r: String)
    ensures
        r@ == key_pattern(key@),
{
    String::from_str("[$][{](").concat(key).concat(")(?:=[^}]+)?[}]")
}

fn dedup_texts(v: &Vec<String>) -> (r: Vec<String>)
    ensures
        r.deep_view() == dedup_adjacent(v.deep_view()),
{
    let mut r: Vec<String> = Vec::new();
    let mut i: usize = 0;
    while i < v.len()
        invariant
            i <= v.len(),
            r.deep_view() == dedup_adjacent(v.deep_view().take(i as int)),
            i > 0 ==> r@.len() > 0 && r.deep_view().last() == v.deep_view()[i - 1],
        decreases v.len() - i,
    {
        let ghost t = v.deep_view().take(i as int + 1);
        proof {
            assert(t.drop_last() == v.deep_view().take(i as int));
        }
        if i > 0 && text_equal(v[i - 1].as_str(), v[i].as_str()) {
            proof {
                assert(t.last() == t[t.len() - 2]);
            }
        } else {
            let ghost before = r.deep_view();
            r.push(v[i].clone());
            proof {
                assert(r.deep_view() =~= before.push(v.deep_view()[i as int]));
                if i > 0 {
                    assert(t.last() != t[t.len() - 2]);
                } else {
                    assert(t.len() == 1);
                    assert(r.deep_view() =~= t);
                }
            }
        }
        i = i + 1;
    }
    proof {
        assert(v.deep_view().take(i as int) == v.deep_view());
    }
    r
}

/// Replaces the placeholders `${key}` (or `${key=default}`) of each
/// parameter, in the order of `params`, by its value. Unless allowed, a
/// parameter without a placeholder is an error, and so are placeholders left
/// without a parameter (listed once per run of equal neighbours, sorted).
pub fn substitute_variables(
    input: String,
    params: &Vec<(String, String)>,
    allow_missing_placeholders: bool,
    allow_missing_parameters: bool,
) -> (r: Result<String, SubstitutionError>)
    ensures
        match (r, substituted(input@, params.deep_view(), allow_missing_placeholders, allow_missing_parameters)) {
            (Ok(s), Ok(t)) => s@ == t,
            (Err(e), Err(f)) => e.failure() == f,
            _ => false,
        },
{
    let mut text = input;
    let mut i: usize = 0;
    while i < params.len()
        invariant
            i <= params.len(),
            substitute_all(input@, params.deep_view().take(i as int), allow_missing_placeholders)
                == Ok::<Seq<char>, SubstitutionFailure>(text@),
        decreases params.len() - i,
    {
        let ghost ps = params.deep_view().take(i as int + 1);
        proof {
            assert(ps.drop_last() == params.deep_view().take(i as int));
            assert(ps.last() == params.deep_view()[i as int]);
        }
        let key = params[i].0.as_str();
        let value = params[i].1.as_str();
        let p = key_pattern_text(key);
        let found = match regex_is_match(p.as_str(), text.as_str()) {
            None => {
                proof {
                    lemma_substitution_error_sticks(input@, params.deep_view(), i + 1, allow_missing_placeholders);
                }
                return Err(SubstitutionError::InvalidPattern(p));
            },
            Some(b) => b,
        };
        if !allow_missing_placeholders && !found {
            proof {
                lemma_substitution_error_sticks(input@, params.deep_view(), i + 1, allow_missing_placeholders);
            }
            return Err(SubstitutionError::MissingPlaceholder(key.to_string()));
        }
        text = match regex_replace_all(p.as_str(), text.as_str(), value) {
            None => {
                proof {
                    lemma_substitution_error_sticks(input@, params.deep_view(), i + 1, allow_missing_placeholders);
                }
                return Err(SubstitutionError::InvalidPattern(p));
            },
            Some(t) => t,
        };
        i = i + 1;
    }
    proof {
        assert(params.deep_view().take(i as int) == params.deep_view());
    }
    if allow_missing_parameters {
        return Ok(text);
    }
    let leftover = "[$][{](\\w*)(?:=[^}]+)?[}]";
    match regex_find_all(leftover, text.as_str()) {
        None => Err(SubstitutionError::InvalidPattern(leftover.to_string())),
        Some(found) => if found.len() == 0 {
            Ok(text)
        } else {
            let unique = dedup_texts(&found);
            Err(SubstitutionError::MissingParameters(sort_texts(unique)))
        },
    }
}

} // verus!
