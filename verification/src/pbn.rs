//! Line-level machinery for the tagged deal-record format: parsing a tag
//! line into name and quoted value, scanning the extra tags of each
//! board, splitting a file into its header and board sections, and
//! joining sections back into a file.
use vstd::prelude::*;
use crate::rotation::TagEntry;
use crate::rotation::entries_view;
use crate::text::ends_with_char;
use crate::text::has_prefix;
use crate::text::is_space_char;
use crate::text::lines_spec;
use crate::text::parse_u32_spec;
use crate::text::starts_with_char;
use crate::text::trim_spec;

verus! {

// ---------------------------------------------------------------------------
// Tag lines
// ---------------------------------------------------------------------------

/// Index of the first space at or after `from`, or the length if none.
pub open spec fn find_space(s: Seq<char>, from: nat) -> nat
    decreases s.len() - from,
{
    if from >= s.len() {
        s.len()
    } else if s[from as int] == ' ' {
        from
    } else {
        find_space(s, from + 1)
    }
}

proof fn lemma_find_space_at(s: Seq<char>, from: nat, idx: nat)
    requires
        from <= idx <= s.len(),
        forall|j: int| from <= j < idx ==> s[j] != ' ',
        idx == s.len() || s[idx as int] == ' ',
    ensures
        find_space(s, from) == idx,
    decreases idx - from,
{
    if from < idx {
        lemma_find_space_at(s, from + 1, idx);
    }
}

/// The name and quoted value of a tag line `[Name "value"]`: the name is
/// everything between the opening bracket and the first space, the value
/// is the quoted text after it, trimmed of surrounding whitespace before
/// the quotes are removed.  Anything else yields nothing.
pub open spec fn parse_tag_line_spec(s: Seq<char>) -> Option<(Seq<char>, Seq<char>)> {
    if s.len() < 2 || s[0] != '[' || s[s.len() - 1] != ']' {
        None
    } else {
        let inner = s.subrange(1, s.len() - 1);
        let i = find_space(inner, 0);
        if i < inner.len() {
            let name = inner.subrange(0, i as int);
            let v = trim_spec(inner.subrange(i + 1 as int, inner.len() as int));
            if v.len() >= 2 && v[0] == '"' && v[v.len() - 1] == '"' {
                Some((name, v.subrange(1, v.len() - 1)))
            } else {
                None
            }
        } else {
            None
        }
    }
}

/// Parses a tag line into its name and quoted value.
pub fn parse_tag_line(line: &str) -> (r: Option<(String, String)>)
    ensures
        match r {
            Some(p) => parse_tag_line_spec(line@) == Some((p.0@, p.1@)),
            None => parse_tag_line_spec(line@) is None,
        },
{
    let chars = crate::text::str_to_chars(line);
    parse_tag_line_chars(&chars)
}

/// Parses a tag line held as characters into its name and quoted value.
pub fn parse_tag_line_chars(chars: &Vec<char>) -> (r: Option<(String, String)>)
    ensures
        match r {
            Some(p) => parse_tag_line_spec(chars@) == Some((p.0@, p.1@)),
            None => parse_tag_line_spec(chars@) is None,
        },
{
    let n = chars.len();
    if n < 2 || chars[0] != '[' || chars[n - 1] != ']' {
        return None;
    }
    let inner = crate::text::subrange_chars(chars, 1, n - 1);
    let m = inner.len();
    let mut i: usize = 0;
    while i < m && inner[i] != ' '
        invariant
            m == inner@.len(),
            i <= m,
            forall|j: int| 0 <= j < i ==> inner@[j] != ' ',
        decreases m - i,
    {
        i += 1;
    }
    proof {
        lemma_find_space_at(inner@, 0, i as nat);
    }
    if i == m {
        return None;
    }
    let name = crate::text::subrange_chars(&inner, 0, i);
    let raw = crate::text::subrange_chars(&inner, i + 1, m);
    let v = crate::text::trim_chars(&raw);
    let k = v.len();
    if k >= 2 && v[0] == '"' && v[k - 1] == '"' {
        let value = crate::text::subrange_chars(&v, 1, k - 1);
        Some((crate::text::chars_to_string(&name), crate::text::chars_to_string(&value)))
    } else {
        None
    }
}

// ---------------------------------------------------------------------------
// Extra tags per board
// ---------------------------------------------------------------------------

/// What one line contributes to the extra-tag scan: a parseable `Board`
/// tag moves the current board number; any other parseable tag line is
/// captured under the current board; everything else is passed over.
pub open spec fn extra_tags_from(lines: Seq<Seq<char>>, i: nat, current: Option<u32>) -> Seq<
    (u32, Seq<char>, Seq<char>),
>
    decreases lines.len() - i,
{
    if i >= lines.len() {
        Seq::empty()
    } else {
        let t = trim_spec(lines[i as int]);
        match parse_tag_line_spec(t) {
            Some(p) => {
                if p.0 == "Board"@ {
                    match parse_u32_spec(p.1) {
                        Some(n) => extra_tags_from(lines, i + 1, Some(n)),
                        None => extra_tags_from(lines, i + 1, current),
                    }
                } else {
                    match current {
                        Some(b) => seq![(b, p.0, p.1)] + extra_tags_from(lines, i + 1, current),
                        None => extra_tags_from(lines, i + 1, current),
                    }
                }
            },
            None => extra_tags_from(lines, i + 1, current),
        }
    }
}

/// Scans a file for the tag values of each board that the structured
/// model does not carry, in line order.
pub fn parse_extra_tags(content: &str) -> (r: Vec<TagEntry>)
    ensures
        entries_view(r@) == extra_tags_from(lines_spec(content@), 0, None),
{
    let chars = crate::text::str_to_chars(content);
    let lines = crate::text::split_lines(&chars);
    let ghost ls = lines_spec(content@);
    let mut out: Vec<TagEntry> = Vec::new();
    let mut current: Option<u32> = None;
    let mut i: usize = 0;
    proof {
        assert(entries_view(out@) =~= Seq::<(u32, Seq<char>, Seq<char>)>::empty());
    }
    while i < lines.len()
        invariant
            lines.deep_view() == ls,
            i <= lines@.len(),
            lines@.len() == ls.len(),
            extra_tags_from(ls, 0, None) == entries_view(out@) + extra_tags_from(
                ls,
                i as nat,
                current,
            ),
        decreases lines@.len() - i,
    {
        proof {
            assert(lines@[i as int].deep_view() =~= lines@[i as int]@);
            assert(lines@[i as int]@ == ls[i as int]);
        }
        let t = crate::text::trim_chars(&lines[i]);
        let ghost old_out = out@;
        let ghost old_current = current;
        match parse_tag_line_chars(&t) {
            Some(p) => {
                let name_chars = crate::text::str_to_chars(p.0.as_str());
                if crate::text::chars_eq_str(&name_chars, "Board") {
                    let value_chars = crate::text::str_to_chars(p.1.as_str());
                    match crate::text::parse_u32_chars(&value_chars) {
                        Some(n) => {
                            current = Some(n);
                        },
                        None => {},
                    }
                } else {
                    match current {
                        Some(b) => {
                            out.push(TagEntry { board: b, name: p.0, value: p.1 });
                            proof {
                                assert(entries_view(out@) =~= entries_view(old_out) + seq![
                                    (b, out@[out@.len() - 1].name@, out@[out@.len() - 1].value@),
                                ]);
                            }
                        },
                        None => {},
                    }
                }
            },
            None => {},
        }
        i += 1;
    }
    proof {
        assert(entries_view(out@) =~= entries_view(out@) + extra_tags_from(
            ls,
            lines@.len() as nat,
            current,
        ));
    }
    out
}

// ---------------------------------------------------------------------------
// Splitting a file into header and board sections
// ---------------------------------------------------------------------------

/// The remaining header text and board sections from line `i` on.  Header
/// directive and blank lines are kept; the first tag line ends the
/// header; after it, each `[Event ` tag line starts a new section.
pub open spec fn split_rest(lines: Seq<Seq<char>>, i: nat, in_header: bool, current: Seq<char>) -> (
    Seq<char>,
    Seq<Seq<char>>,
)
    decreases lines.len() - i,
{
    if i >= lines.len() {
        (Seq::empty(), if current.len() > 0 {
            seq![current]
        } else {
            Seq::empty()
        })
    } else {
        let l = lines[i as int];
        let t = trim_spec(l);
        if in_header {
            if starts_with_char(t, '%') || t.len() == 0 {
                let r = split_rest(lines, i + 1, true, current);
                (l + "\n"@ + r.0, r.1)
            } else if starts_with_char(t, '[') {
                split_rest(lines, i + 1, false, current + l + "\n"@)
            } else {
                split_rest(lines, i + 1, true, current)
            }
        } else {
            if has_prefix(t, "[Event "@) && current.len() > 0 {
                let r = split_rest(lines, i + 1, false, l + "\n"@);
                (r.0, seq![current] + r.1)
            } else {
                split_rest(lines, i + 1, false, current + l + "\n"@)
            }
        }
    }
}

/// The header text and board sections of a file.
pub open spec fn split_pbn_spec(s: Seq<char>) -> (Seq<char>, Seq<Seq<char>>) {
    split_rest(lines_spec(s), 0, true, Seq::empty())
}

/// Splits a file into its header and one text block per board.
pub fn split_pbn_content(content: &str) -> (r: (String, Vec<String>))
    ensures
        r.0@ == split_pbn_spec(content@).0,
        r.1.deep_view() == split_pbn_spec(content@).1,
{
    let chars = crate::text::str_to_chars(content);
    let lines = crate::text::split_lines(&chars);
    let ghost ls = lines_spec(content@);
    let mut header: Vec<char> = Vec::new();
    let mut sections: Vec<String> = Vec::new();
    let mut current: Vec<char> = Vec::new();
    let mut in_header = true;
    let mut i: usize = 0;
    while i < lines.len()
        invariant
            lines.deep_view() == ls,
            i <= lines@.len(),
            lines@.len() == ls.len(),
            split_rest(ls, 0, true, Seq::empty()).0 == header@ + split_rest(
                ls,
                i as nat,
                in_header,
                current@,
            ).0,
            split_rest(ls, 0, true, Seq::empty()).1 == sections.deep_view() + split_rest(
                ls,
                i as nat,
                in_header,
                current@,
            ).1,
        decreases lines@.len() - i,
    {
        let ghost l = ls[i as int];
        proof {
            reveal_strlit("\n");
            assert(lines@[i as int].deep_view() =~= lines@[i as int]@);
            assert(lines@[i as int]@ == l);
        }
        let t = crate::text::trim_chars(&lines[i]);
        let ghost old_sections = sections.deep_view();
        let ghost old_header = header@;
        let ghost old_current = current@;
        if in_header {
            if crate::text::chars_start_with(&t, '%') || t.len() == 0 {
                crate::text::append_chars(&mut header, &lines[i]);
                header.push('\n');
                proof {
                    assert(header@ =~= old_header + (l + "\n"@));
                }
            } else if crate::text::chars_start_with(&t, '[') {
                in_header = false;
                crate::text::append_chars(&mut current, &lines[i]);
                current.push('\n');
                proof {
                    assert(current@ =~= old_current + l + "\n"@);
                }
            }
        } else {
            if crate::text::chars_have_str_prefix(&t, "[Event ") && current.len() > 0 {
                sections.push(crate::text::chars_to_string(&current));
                current = Vec::new();
                crate::text::append_chars(&mut current, &lines[i]);
                current.push('\n');
                proof {
                    assert(sections.deep_view() =~= old_sections + seq![old_current]);
                    assert(current@ =~= l + "\n"@);
                }
            } else {
                crate::text::append_chars(&mut current, &lines[i]);
                current.push('\n');
                proof {
                    assert(current@ =~= old_current + l + "\n"@);
                }
            }
        }
        i += 1;
    }
    let ghost tail = split_rest(ls, lines@.len() as nat, in_header, current@);
    if current.len() > 0 {
        let ghost old_sections = sections.deep_view();
        sections.push(crate::text::chars_to_string(&current));
        proof {
            assert(sections.deep_view() =~= old_sections + seq![sections@[sections@.len() - 1]@]);
            assert(header@ =~= header@ + tail.0);
        }
    } else {
        proof {
            assert(sections.deep_view() =~= sections.deep_view() + tail.1);
            assert(header@ =~= header@ + tail.0);
        }
    }
    (crate::text::chars_to_string(&header), sections)
}

// ---------------------------------------------------------------------------
// Joining sections back into a file
// ---------------------------------------------------------------------------

/// The board sections from `i` on, each followed by a newline when it
/// does not already end with one.
pub open spec fn build_output_from(sections: Seq<Seq<char>>, i: nat) -> Seq<char>
    decreases sections.len() - i,
{
    if i >= sections.len() {
        Seq::empty()
    } else {
        let b = sections[i as int];
        (if ends_with_char(b, '\n') {
            b
        } else {
            b + "\n"@
        }) + build_output_from(sections, i + 1)
    }
}

/// The header followed by every board section.
pub open spec fn build_output_spec(header: Seq<char>, sections: Seq<Seq<char>>) -> Seq<char> {
    header + build_output_from(sections, 0)
}

/// Joins a header and board sections into one output text.
pub fn build_output(header: &str, sections: &Vec<String>) -> (r: String)
    ensures
        r@ == build_output_spec(header@, sections.deep_view()),
{
    let ghost sv = sections.deep_view();
    let mut out: Vec<char> = Vec::new();
    crate::text::push_str_chars(&mut out, header);
    let mut i: usize = 0;
    while i < sections.len()
        invariant
            sv == sections.deep_view(),
            i <= sections@.len(),
            sv.len() == sections@.len(),
            build_output_spec(header@, sv) == out@ + build_output_from(sv, i as nat),
        decreases sections@.len() - i,
    {
        let ghost old_out = out@;
        proof {
            reveal_strlit("\n");
            assert(sections@[i as int]@ == sv[i as int]);
        }
        let s = sections[i].as_str();
        crate::text::push_str_chars(&mut out, s);
        let n = s.unicode_len();
        if n == 0 || s.get_char(n - 1) != '\n' {
            out.push('\n');
            proof {
                assert(out@ =~= old_out + (sv[i as int] + "\n"@));
            }
        }
        i += 1;
    }
    proof {
        assert(out@ =~= out@ + build_output_from(sv, sections@.len() as nat));
    }
    crate::text::chars_to_string(&out)
}

} // verus!
