//! Matching of bracketed tags with a quoted value anywhere in a text:
//! `[Name "value"]` with one or more whitespace characters between the
//! name and the opening quote.  The leftmost match is found, a match can
//! be replaced, and all matches can be replaced or counted.
use vstd::prelude::*;
use crate::text::dec_spec;
use crate::text::is_space_char;

verus! {

/// End of the run of whitespace starting at `from`.
pub open spec fn space_run_end(s: Seq<char>, from: nat) -> nat
    decreases s.len() - from,
{
    if from >= s.len() {
        s.len()
    } else if !is_space_char(s[from as int]) {
        from
    } else {
        space_run_end(s, from + 1)
    }
}

/// End of the run of non-quote characters starting at `from`.
pub open spec fn nonquote_run_end(s: Seq<char>, from: nat) -> nat
    decreases s.len() - from,
{
    if from >= s.len() {
        s.len()
    } else if s[from as int] == '"' {
        from
    } else {
        nonquote_run_end(s, from + 1)
    }
}

proof fn lemma_space_run_end_at(s: Seq<char>, from: nat, idx: nat)
    requires
        from <= idx <= s.len(),
        forall|j: int| from <= j < idx ==> is_space_char(s[j]),
        idx == s.len() || !is_space_char(s[idx as int]),
    ensures
        space_run_end(s, from) == idx,
    decreases idx - from,
{
    if from < idx {
        lemma_space_run_end_at(s, from + 1, idx);
    }
}

proof fn lemma_nonquote_run_end_at(s: Seq<char>, from: nat, idx: nat)
    requires
        from <= idx <= s.len(),
        forall|j: int| from <= j < idx ==> s[j] != '"',
        idx == s.len() || s[idx as int] == '"',
    ensures
        nonquote_run_end(s, from) == idx,
    decreases idx - from,
{
    if from < idx {
        lemma_nonquote_run_end_at(s, from + 1, idx);
    }
}

/// Start of the quoted value of a tag match at `i`: one past the opening
/// quote that follows the whitespace run after the name.
pub open spec fn tag_value_start(s: Seq<char>, i: int, name: Seq<char>) -> int {
    space_run_end(s, (i + 1 + name.len()) as nat) as int + 1
}

/// End of the quoted value of a tag match at `i`: the closing quote.
pub open spec fn tag_value_end(s: Seq<char>, i: int, name: Seq<char>) -> int {
    nonquote_run_end(s, tag_value_start(s, i, name) as nat) as int
}

/// One past the closing bracket of a tag match at `i`.
pub open spec fn tag_match_end(s: Seq<char>, i: int, name: Seq<char>) -> int {
    tag_value_end(s, i, name) + 2
}

/// Whether a tag of the given name with a quoted value stands at `i`:
/// an opening bracket, the name, at least one whitespace character, a
/// quoted run of non-quote characters (nonempty when `need_value`), and
/// the closing bracket.
pub open spec fn tag_match_at(s: Seq<char>, i: int, name: Seq<char>, need_value: bool) -> bool {
    let a = i + 1 + name.len();
    let b = space_run_end(s, a as nat) as int;
    let vs = b + 1;
    let ve = tag_value_end(s, i, name);
    0 <= i && a < s.len() && s[i] == '[' && s.subrange(i + 1, a) == name && is_space_char(s[a])
        && b < s.len() && s[b] == '"' && (!need_value || ve > vs) && ve < s.len() && s[ve] == '"'
        && ve + 1 < s.len() && s[ve + 1] == ']'
}

/// The leftmost tag match at or after `i`.
pub open spec fn first_tag_match_from(s: Seq<char>, name: Seq<char>, need_value: bool, i: nat) -> Option<
    int,
>
    decreases s.len() - i,
{
    if i >= s.len() {
        None
    } else if tag_match_at(s, i as int, name, need_value) {
        Some(i as int)
    } else {
        first_tag_match_from(s, name, need_value, i + 1)
    }
}

proof fn lemma_first_tag_match_none(s: Seq<char>, name: Seq<char>, need_value: bool, i: nat)
    requires
        i <= s.len(),
        forall|j: int| i <= j < s.len() ==> !tag_match_at(s, j, name, need_value),
    ensures
        first_tag_match_from(s, name, need_value, i) is None,
    decreases s.len() - i,
{
    if i < s.len() {
        lemma_first_tag_match_none(s, name, need_value, i + 1);
    }
}

proof fn lemma_first_tag_match_some(s: Seq<char>, name: Seq<char>, need_value: bool, i: nat, m: nat)
    requires
        i <= m < s.len(),
        forall|j: int| i <= j < m ==> !tag_match_at(s, j, name, need_value),
        tag_match_at(s, m as int, name, need_value),
    ensures
        first_tag_match_from(s, name, need_value, i) == Some(m as int),
    decreases m - i,
{
    if i < m {
        lemma_first_tag_match_some(s, name, need_value, i + 1, m);
    }
}

/// Tests for a tag match at one position, returning the value span.
fn try_tag_match_at(s: &Vec<char>, i: usize, name: &Vec<char>, need_value: bool) -> (r: Option<
    (usize, usize),
>)
    ensures
        match r {
            Some(p) => tag_match_at(s@, i as int, name@, need_value) && p.0 == tag_value_start(
                s@,
                i as int,
                name@,
            ) && p.1 == tag_value_end(s@, i as int, name@) && i < p.0 && p.0 <= p.1 && p.1 + 1
                < s@.len(),
            None => !tag_match_at(s@, i as int, name@, need_value),
        },
{
    let n = s.len();
    if i >= n || s[i] != '[' {
        return None;
    }
    // the name must follow the bracket
    if name.len() >= n - i {
        return None;
    }
    let a = i + 1 + name.len();
    if a >= n {
        return None;
    }
    let mut k: usize = 0;
    while k < name.len()
        invariant
            a == i + 1 + name@.len() <= s@.len(),
            k <= name@.len(),
            forall|j: int| 0 <= j < k ==> s@[i + 1 + j] == name@[j],
        decreases name@.len() - k,
    {
        if s[i + 1 + k] != name[k] {
            proof {
                assert(s@.subrange(i + 1 as int, a as int)[k as int] != name@[k as int]);
            }
            return None;
        }
        k += 1;
    }
    proof {
        assert(s@.subrange(i + 1 as int, a as int) =~= name@);
    }
    if !crate::text::is_space(s[a]) {
        return None;
    }
    // skip the whitespace run
    let mut b: usize = a;
    while b < n && crate::text::is_space(s[b])
        invariant
            a <= b <= n == s@.len(),
            forall|j: int| a <= j < b ==> is_space_char(s@[j]),
        decreases n - b,
    {
        b += 1;
    }
    proof {
        lemma_space_run_end_at(s@, a as nat, b as nat);
    }
    if b >= n || s[b] != '"' {
        return None;
    }
    // scan the quoted value
    let vs = b + 1;
    let mut ve: usize = vs;
    while ve < n && s[ve] != '"'
        invariant
            vs <= ve <= n == s@.len(),
            forall|j: int| vs <= j < ve ==> s@[j] != '"',
        decreases n - ve,
    {
        ve += 1;
    }
    proof {
        lemma_nonquote_run_end_at(s@, vs as nat, ve as nat);
    }
    if need_value && ve == vs {
        return None;
    }
    if ve >= n || ve + 1 >= n {
        return None;
    }
    if s[ve + 1] != ']' {
        return None;
    }
    Some((vs, ve))
}

/// Finds the leftmost tag match at or after `from`, returning its start
/// and the value span.
fn find_tag_match(s: &Vec<char>, from: usize, name: &Vec<char>, need_value: bool) -> (r: Option<
    (usize, usize, usize),
>)
    requires
        from <= s@.len(),
    ensures
        match r {
            Some(p) => first_tag_match_from(s@, name@, need_value, from as nat) == Some(p.0 as int)
                && tag_match_at(s@, p.0 as int, name@, need_value) && p.1 == tag_value_start(
                s@,
                p.0 as int,
                name@,
            ) && p.2 == tag_value_end(s@, p.0 as int, name@) && from <= p.0 && p.0 < p.1 && p.1
                <= p.2 && p.2 + 1 < s@.len(),
            None => first_tag_match_from(s@, name@, need_value, from as nat) is None,
        },
{
    let n = s.len();
    let mut i: usize = from;
    while i < n
        invariant
            from <= i <= n == s@.len(),
            forall|j: int| from <= j < i ==> !tag_match_at(s@, j, name@, need_value),
        decreases n - i,
    {
        match try_tag_match_at(s, i, name, need_value) {
            Some(p) => {
                proof {
                    lemma_first_tag_match_some(s@, name@, need_value, from as nat, i as nat);
                }
                return Some((i, p.0, p.1));
            },
            None => {},
        }
        i += 1;
    }
    proof {
        lemma_first_tag_match_none(s@, name@, need_value, from as nat);
    }
    None
}

// ---------------------------------------------------------------------------
// Extracting the first value
// ---------------------------------------------------------------------------

/// The value of the leftmost nonempty-valued tag of the given name, or
/// nothing.
pub open spec fn extract_tag_value_spec(s: Seq<char>, name: Seq<char>) -> Seq<char> {
    match first_tag_match_from(s, name, true, 0) {
        Some(i) => s.subrange(tag_value_start(s, i, name), tag_value_end(s, i, name)),
        None => Seq::empty(),
    }
}

/// The value of the first `[name "value"]` occurrence with a nonempty
/// value anywhere in a board section, or the empty string.
pub fn extract_tag_value(section: &str, tag_name: &str) -> (r: String)
    ensures
        r@ == extract_tag_value_spec(section@, tag_name@),
{
    let s = crate::text::str_to_chars(section);
    let name = crate::text::str_to_chars(tag_name);
    match find_tag_match(&s, 0, &name, true) {
        Some(p) => {
            let v = crate::text::subrange_chars(&s, p.1, p.2);
            crate::text::chars_to_string(&v)
        },
        None => {
            let out: Vec<char> = Vec::new();
            proof {
                assert(out@ =~= extract_tag_value_spec(section@, tag_name@));
            }
            crate::text::chars_to_string(&out)
        },
    }
}

// ---------------------------------------------------------------------------
// Replacing matches
// ---------------------------------------------------------------------------

/// The text from `i` on with every tag match of the given name replaced,
/// scanning left to right past each replaced match.
pub open spec fn replace_tags_from(
    s: Seq<char>,
    name: Seq<char>,
    replacement: Seq<char>,
    i: nat,
) -> Seq<char>
    decreases s.len() - i,
{
    if i >= s.len() {
        Seq::empty()
    } else if tag_match_at(s, i as int, name, false) {
        let e = tag_match_end(s, i as int, name);
        if i < e <= s.len() {
            replacement + replace_tags_from(s, name, replacement, e as nat)
        } else {
            Seq::empty()
        }
    } else {
        seq![s[i as int]] + replace_tags_from(s, name, replacement, i + 1)
    }
}

/// How many tag matches of the given name the scan from `i` finds.
pub open spec fn count_tags_from(s: Seq<char>, name: Seq<char>, i: nat) -> nat
    decreases s.len() - i,
{
    if i >= s.len() {
        0
    } else if tag_match_at(s, i as int, name, false) {
        let e = tag_match_end(s, i as int, name);
        if i < e <= s.len() {
            1 + count_tags_from(s, name, e as nat)
        } else {
            1
        }
    } else {
        count_tags_from(s, name, i + 1)
    }
}

/// Replaces every non-overlapping tag match of the given name and counts
/// the matches replaced.
pub fn replace_all_tags(content: &str, tag_name: &str, replacement: &Vec<char>) -> (r: (
    String,
    usize,
))
    ensures
        r.0@ == replace_tags_from(content@, tag_name@, replacement@, 0),
        r.1 == count_tags_from(content@, tag_name@, 0),
{
    let s = crate::text::str_to_chars(content);
    let name = crate::text::str_to_chars(tag_name);
    let n = s.len();
    let mut out: Vec<char> = Vec::new();
    let mut count: usize = 0;
    let mut i: usize = 0;
    while i < n
        invariant
            n == s@.len(),
            i <= n,
            count <= i,
            name@ == tag_name@,
            s@ == content@,
            replace_tags_from(s@, name@, replacement@, 0) == out@ + replace_tags_from(
                s@,
                name@,
                replacement@,
                i as nat,
            ),
            count_tags_from(s@, name@, 0) == count + count_tags_from(s@, name@, i as nat),
        decreases n - i,
    {
        match try_tag_match_at(&s, i, &name, false) {
            Some(p) => {
                let ghost old_out = out@;
                crate::text::append_chars(&mut out, replacement);
                proof {
                    assert(tag_match_end(s@, i as int, name@) == p.1 + 2);
                    assert(i < p.1 + 2 <= s@.len());
                    assert(replace_tags_from(s@, name@, replacement@, i as nat) == replacement@
                        + replace_tags_from(s@, name@, replacement@, (p.1 + 2) as nat));
                }
                count += 1;
                i = p.1 + 2;
            },
            None => {
                let ghost old_out = out@;
                out.push(s[i]);
                proof {
                    assert(out@ =~= old_out + seq![s@[i as int]]);
                }
                i += 1;
            },
        }
    }
    proof {
        assert(out@ =~= out@ + replace_tags_from(s@, name@, replacement@, n as nat));
    }
    (crate::text::chars_to_string(&out), count)
}

/// The section with its leftmost board-number tag replaced by one naming
/// board `n`.
pub open spec fn renumber_section_spec(s: Seq<char>, n: int) -> Seq<char> {
    match first_tag_match_from(s, "Board"@, false, 0) {
        Some(i) => s.subrange(0, i) + "[Board \""@ + dec_spec(n) + "\"]"@ + s.subrange(
            tag_match_end(s, i, "Board"@),
            s.len() as int,
        ),
        None => s,
    }
}

/// Renumbers board sections sequentially from 1: in each section the
/// leftmost board-number tag is rewritten; a section without one is kept
/// unchanged.
pub fn renumber_boards(sections: &Vec<String>) -> (r: Vec<String>)
    ensures
        r.deep_view().len() == sections.deep_view().len(),
        forall|k: int|
            0 <= k < sections.deep_view().len() ==> r.deep_view()[k] == renumber_section_spec(
                sections.deep_view()[k],
                k + 1,
            ),
{
    let ghost sv = sections.deep_view();
    let mut r: Vec<String> = Vec::new();
    let mut i: usize = 0;
    while i < sections.len()
        invariant
            sv == sections.deep_view(),
            i <= sections@.len(),
            sv.len() == sections@.len(),
            r.deep_view().len() == i,
            forall|k: int|
                0 <= k < i ==> r.deep_view()[k] == renumber_section_spec(sv[k], k + 1),
        decreases sections@.len() - i,
    {
        proof {
            assert(sections@[i as int]@ == sv[i as int]);
        }
        let s = crate::text::str_to_chars(sections[i].as_str());
        let name = crate::text::str_to_chars("Board");
        proof {
            assert(name@ == "Board"@);
        }
        let section_new: String = match find_tag_match(&s, 0, &name, false) {
            Some(p) => {
                let mut out: Vec<char> = crate::text::subrange_chars(&s, 0, p.0);
                crate::text::push_str_chars(&mut out, "[Board \"");
                crate::text::push_dec_u64(&mut out, (i as u64) + 1);
                crate::text::push_str_chars(&mut out, "\"]");
                let e = p.2 + 2;
                proof {
                    assert(tag_match_end(s@, p.0 as int, name@) == p.2 + 2);
                }
                let tail = crate::text::subrange_chars(&s, e, s.len());
                crate::text::append_chars(&mut out, &tail);
                proof {
                    assert(out@ =~= renumber_section_spec(sv[i as int], i + 1));
                }
                crate::text::chars_to_string(&out)
            },
            None => crate::text::chars_to_string(&s),
        };
        let ghost old_dv = r.deep_view();
        let ghost snv = section_new@;
        r.push(section_new);
        proof {
            assert(r.deep_view() =~= old_dv + seq![snv]);
        }
        i += 1;
    }
    r
}

} // verus!
