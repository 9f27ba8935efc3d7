//! Splitting the boards of a record file into those matched by a text
//! pattern and those not.  The pattern is a regular expression evaluated
//! by the regex crate behind a trusted wrapper; everything around the
//! match is verified.
use vstd::prelude::*;

verus! {

/// The abstract command surface of the filter run.
pub struct Args {
    /// Input record file path.
    pub input: String,
    /// The regular expression matched against each board's text.
    pub pattern: String,
    /// Optional output path for the matched boards.
    pub matched: Option<String>,
    /// Optional output path for the boards not matched.
    pub not_matched: Option<String>,
    /// Whether matching is case-sensitive; the default is not.
    pub case_sensitive: bool,
    /// Whether output boards are renumbered sequentially.
    pub renumber: bool,
    /// Whether page documents of the outputs are rendered as well.
    pub pdf: bool,
}

/// A pattern the regular-expression engine refuses.
#[derive(Debug)]
pub enum FilterError {
    InvalidPattern(String),
}

/// Whether the regex crate accepts a pattern, compiled with the given
/// case-insensitivity.
pub uninterp spec fn regex_pattern_valid(pattern: Seq<char>, case_insensitive: bool) -> bool;

/// Whether a pattern, compiled with the given case-insensitivity,
/// matches anywhere in a text.
pub uninterp spec fn regex_matches(pattern: Seq<char>, case_insensitive: bool, text: Seq<char>) -> bool;

/// Relies on `regex::RegexBuilder::build` and `regex::Regex::is_match`:
/// building succeeds exactly when the pattern is a valid expression, and
/// matching is a pure function of the pattern, the case-insensitivity
/// flag and the text.
#[verifier::external_body]
fn regex_is_match(pattern: &str, case_insensitive: bool, text: &str) -> (r: Option<bool>)
    ensures
        r is Some <==> regex_pattern_valid(pattern@, case_insensitive),
        r matches Some(b) ==> b == regex_matches(pattern@, case_insensitive, text@),
{
    match regex::RegexBuilder::new(pattern).case_insensitive(case_insensitive).build() {
        Ok(re) => Some(re.is_match(text)),
        Err(_) => None,
    }
}

/// The board sections whose text the pattern matches (`want` true), or
/// the rest (`want` false), in source order.
pub open spec fn filtered_sections(
    sections: Seq<Seq<char>>,
    pattern: Seq<char>,
    case_insensitive: bool,
    want: bool,
    i: nat,
) -> Seq<Seq<char>>
    decreases sections.len() - i,
{
    if i >= sections.len() {
        Seq::empty()
    } else {
        let rest = filtered_sections(sections, pattern, case_insensitive, want, i + 1);
        if regex_matches(pattern, case_insensitive, sections[i as int]) == want {
            seq![sections[i as int]] + rest
        } else {
            rest
        }
    }
}

/// Splits board sections into those the pattern matches and those it
/// does not; a pattern the expression engine refuses is the error.
pub fn filter_sections(pattern: &str, case_sensitive: bool, sections: &Vec<String>) -> (r: Result<
    (Vec<String>, Vec<String>),
    FilterError,
>)
    ensures
        match r {
            Ok(p) => regex_pattern_valid(pattern@, !case_sensitive) && p.0.deep_view()
                == filtered_sections(
                sections.deep_view(),
                pattern@,
                !case_sensitive,
                true,
                0,
            ) && p.1.deep_view() == filtered_sections(
                sections.deep_view(),
                pattern@,
                !case_sensitive,
                false,
                0,
            ),
            Err(_) => !regex_pattern_valid(pattern@, !case_sensitive),
        },
{
    let ci = !case_sensitive;
    // compiling against the empty text settles the pattern's validity
    // before any board is read
    match regex_is_match(pattern, ci, "") {
        Some(_) => {},
        None => {
            return Err(FilterError::InvalidPattern(String::from_str(pattern)));
        },
    }
    let ghost sv = sections.deep_view();
    let mut matched: Vec<String> = Vec::new();
    let mut not_matched: Vec<String> = Vec::new();
    let n = sections.len();
    let mut i: usize = 0;
    while i < n
        invariant
            sv == sections.deep_view(),
            i <= n,
            n == sections@.len(),
            sv.len() == n,
            regex_pattern_valid(pattern@, ci),
            filtered_sections(sv, pattern@, ci, true, 0) == matched.deep_view()
                + filtered_sections(sv, pattern@, ci, true, i as nat),
            filtered_sections(sv, pattern@, ci, false, 0) == not_matched.deep_view()
                + filtered_sections(sv, pattern@, ci, false, i as nat),
        decreases n - i,
    {
        proof {
            assert(sections@[i as int]@ == sv[i as int]);
        }
        let hit = match regex_is_match(pattern, ci, sections[i].as_str()) {
            Some(b) => b,
            None => {
                proof {
                    assert(false);
                }
                false
            },
        };
        if hit {
            let ghost old_dv = matched.deep_view();
            matched.push(sections[i].clone());
            proof {
                assert(matched.deep_view() =~= old_dv + seq![sv[i as int]]);
            }
        } else {
            let ghost old_dv = not_matched.deep_view();
            not_matched.push(sections[i].clone());
            proof {
                assert(not_matched.deep_view() =~= old_dv + seq![sv[i as int]]);
            }
        }
        i += 1;
    }
    proof {
        assert(matched.deep_view() =~= matched.deep_view() + filtered_sections(
            sv,
            pattern@,
            ci,
            true,
            n as nat,
        ));
        assert(not_matched.deep_view() =~= not_matched.deep_view() + filtered_sections(
            sv,
            pattern@,
            ci,
            false,
            n as nat,
        ));
    }
    Ok((matched, not_matched))
}

} // verus!
