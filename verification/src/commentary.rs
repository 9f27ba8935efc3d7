//! Rotation of compass-direction words inside free-text commentary.
//!
//! The text is tokenised into maximal runs of word characters; a run that
//! case-insensitively spells one of the four direction names is replaced
//! by the name the rotation amount positions later in the cycle, rendered
//! in the letter-casing class of the original occurrence.  Every other
//! character is copied.  Because the input is scanned once, left to
//! right, and the output is never rescanned, no replacement can itself be
//! matched again.
//!
//! Word characters are the ASCII letters, digits and the underscore, the
//! intended reading here: the four direction names and their case
//! variants are ASCII, and any character outside this class bounds a
//! word.  A direction name abutting a non-ASCII letter is therefore
//! treated as a whole word of its own.
use vstd::prelude::*;

verus! {

/// A word character: ASCII letter, digit, or underscore.  Any other
/// character, non-ASCII ones included, bounds a word; this ASCII class
/// is the intended word-boundary reading for the ASCII direction names.
pub open spec fn is_word_char(c: char) -> bool {
    (65 <= c as u32 && c as u32 <= 90) || (97 <= c as u32 && c as u32 <= 122) || (48 <= c as u32
        && c as u32 <= 57) || c == '_'
}

fn is_word_char_exec(c: char) -> (r: bool)
    ensures
        r == is_word_char(c),
{
    let u = c as u32;
    (65 <= u && u <= 90) || (97 <= u && u <= 122) || (48 <= u && u <= 57) || c == '_'
}

pub open spec fn is_upper_char(c: char) -> bool {
    65 <= c as u32 && c as u32 <= 90
}

fn is_upper_char_exec(c: char) -> (r: bool)
    ensures
        r == is_upper_char(c),
{
    let u = c as u32;
    65 <= u && u <= 90
}

/// The letter-casing class of a matched word.
#[derive(Clone, Copy, PartialEq, Eq, Structural, Debug)]
pub enum CaseClass {
    /// First letter upper-case, not all letters upper-case.
    Title,
    /// All letters upper-case.
    Upper,
    /// First letter lower-case.
    Lower,
}

/// The casing class of a nonempty word, judged from its letters: a
/// word starting with an upper-case letter is Upper when every character
/// is upper-case and Title otherwise; any other word is Lower.
pub open spec fn case_class_spec(w: Seq<char>) -> CaseClass {
    if w.len() > 0 && is_upper_char(w[0]) {
        if forall|i: int| 0 <= i < w.len() ==> is_upper_char(w[i]) {
            CaseClass::Upper
        } else {
            CaseClass::Title
        }
    } else {
        CaseClass::Lower
    }
}

/// The lower-case letters of the direction name at cycle position `i`.
pub open spec fn name_lower(i: int) -> Seq<char> {
    if i == 0 {
        seq!['n', 'o', 'r', 't', 'h']
    } else if i == 1 {
        seq!['e', 'a', 's', 't']
    } else if i == 2 {
        seq!['s', 'o', 'u', 't', 'h']
    } else {
        seq!['w', 'e', 's', 't']
    }
}

/// Case-insensitive equality of a word against a lower-case ASCII word;
/// only the ASCII case fold is meant, as the direction names are ASCII.
pub open spec fn matches_ci(w: Seq<char>, lower: Seq<char>) -> bool {
    w.len() == lower.len() && forall|i: int|
        0 <= i < w.len() ==> w[i] == lower[i] || w[i] as u32 + 32 == lower[i] as u32
}

/// The cycle position of the direction name a word spells, if any.
pub open spec fn word_direction_spec(w: Seq<char>) -> Option<int> {
    if matches_ci(w, name_lower(0)) {
        Some(0int)
    } else if matches_ci(w, name_lower(1)) {
        Some(1int)
    } else if matches_ci(w, name_lower(2)) {
        Some(2int)
    } else if matches_ci(w, name_lower(3)) {
        Some(3int)
    } else {
        None
    }
}

/// The direction name at cycle position `i`, rendered in a casing class.
pub open spec fn rendered_name(i: int, class: CaseClass) -> Seq<char> {
    let k = i % 4;
    match class {
        CaseClass::Title => if k == 0 {
            "North"@
        } else if k == 1 {
            "East"@
        } else if k == 2 {
            "South"@
        } else {
            "West"@
        },
        CaseClass::Upper => if k == 0 {
            "NORTH"@
        } else if k == 1 {
            "EAST"@
        } else if k == 2 {
            "SOUTH"@
        } else {
            "WEST"@
        },
        CaseClass::Lower => if k == 0 {
            "north"@
        } else if k == 1 {
            "east"@
        } else if k == 2 {
            "south"@
        } else {
            "west"@
        },
    }
}

/// What a maximal word run becomes: a direction name moves `r` positions
/// along the cycle and keeps its casing class; any other word stays.
pub open spec fn replaced_word(w: Seq<char>, r: int) -> Seq<char> {
    match word_direction_spec(w) {
        Some(i) => rendered_name(i + r, case_class_spec(w)),
        None => w,
    }
}

/// End of the maximal word-character run starting at `from`.
pub open spec fn word_end(s: Seq<char>, from: nat) -> nat
    decreases s.len() - from,
{
    if from >= s.len() {
        s.len()
    } else if !is_word_char(s[from as int]) {
        from
    } else {
        word_end(s, from + 1)
    }
}

proof fn lemma_word_end_at(s: Seq<char>, from: nat, idx: nat)
    requires
        from <= idx <= s.len(),
        forall|j: int| from <= j < idx ==> is_word_char(s[j]),
        idx == s.len() || !is_word_char(s[idx as int]),
    ensures
        word_end(s, from) == idx,
    decreases idx - from,
{
    if from < idx {
        lemma_word_end_at(s, from + 1, idx);
    }
}

/// The rotated commentary from position `i` on.
pub open spec fn rotate_commentary_from(s: Seq<char>, i: nat, r: int) -> Seq<char>
    decreases s.len() - i,
{
    if i >= s.len() {
        Seq::empty()
    } else if !is_word_char(s[i as int]) {
        seq![s[i as int]] + rotate_commentary_from(s, i + 1, r)
    } else {
        let j = word_end(s, i);
        if i < j <= s.len() {
            replaced_word(s.subrange(i as int, j as int), r) + rotate_commentary_from(s, j, r)
        } else {
            Seq::empty()
        }
    }
}

/// The view of commentary rotation: a rotation of zero copies the text;
/// any other amount rotates every whole-word, case-insensitive occurrence
/// of a direction name and copies everything else.
pub open spec fn rotate_commentary_spec(s: Seq<char>, r: int) -> Seq<char> {
    if r == 0 {
        s
    } else {
        rotate_commentary_from(s, 0, r)
    }
}

/// Rotating commentary by zero quarter-turns leaves the text as it is.
pub proof fn lemma_rotate_commentary_zero(s: Seq<char>)
    ensures
        rotate_commentary_spec(s, 0) == s,
{
}

fn direction_word(idx: usize, class: CaseClass) -> (r: &'static str)
    ensures
        r@ == rendered_name(idx as int, class),
{
    let k = idx % 4;
    match class {
        CaseClass::Title => if k == 0 {
            "North"
        } else if k == 1 {
            "East"
        } else if k == 2 {
            "South"
        } else {
            "West"
        },
        CaseClass::Upper => if k == 0 {
            "NORTH"
        } else if k == 1 {
            "EAST"
        } else if k == 2 {
            "SOUTH"
        } else {
            "WEST"
        },
        CaseClass::Lower => if k == 0 {
            "north"
        } else if k == 1 {
            "east"
        } else if k == 2 {
            "south"
        } else {
            "west"
        },
    }
}

/// Case-insensitive comparison of a word slice against a lower-case name.
fn word_matches_ci(w: &Vec<char>, lower: &str) -> (r: bool)
    ensures
        r == matches_ci(w@, lower@),
{
    let n = lower.unicode_len();
    if w.len() != n {
        return false;
    }
    let mut i: usize = 0;
    while i < n
        invariant
            n == lower@.len(),
            w@.len() == n,
            i <= n,
            forall|j: int| 0 <= j < i ==> w@[j] == lower@[j] || w@[j] as u32 + 32 == lower@[j] as u32,
        decreases n - i,
    {
        let a = w[i];
        let b = lower.get_char(i);
        proof {
            vstd::utf8::char_is_scalar(a);
            assert(a as u32 <= 0x10FFFF);
        }
        if !(a == b || (a as u32) + 32 == b as u32) {
            return false;
        }
        i += 1;
    }
    true
}

fn word_direction(w: &Vec<char>) -> (r: Option<usize>)
    ensures
        match r {
            Some(i) => word_direction_spec(w@) == Some(i as int),
            None => word_direction_spec(w@) is None,
        },
{
    proof {
        reveal_strlit("north");
        reveal_strlit("east");
        reveal_strlit("south");
        reveal_strlit("west");
        assert("north"@ =~= name_lower(0));
        assert("east"@ =~= name_lower(1));
        assert("south"@ =~= name_lower(2));
        assert("west"@ =~= name_lower(3));
    }
    if word_matches_ci(w, "north") {
        Some(0)
    } else if word_matches_ci(w, "east") {
        Some(1)
    } else if word_matches_ci(w, "south") {
        Some(2)
    } else if word_matches_ci(w, "west") {
        Some(3)
    } else {
        None
    }
}

fn case_class_of(w: &Vec<char>) -> (r: CaseClass)
    requires
        w@.len() > 0,
    ensures
        r == case_class_spec(w@),
{
    if !is_upper_char_exec(w[0]) {
        return CaseClass::Lower;
    }
    let mut i: usize = 0;
    while i < w.len()
        invariant
            i <= w@.len(),
            w@.len() > 0,
            is_upper_char(w@[0]),
            forall|j: int| 0 <= j < i ==> is_upper_char(w@[j]),
        decreases w@.len() - i,
    {
        if !is_upper_char_exec(w[i]) {
            return CaseClass::Title;
        }
        i += 1;
    }
    CaseClass::Upper
}

/// Rotates every whole-word, case-insensitive compass-direction name in a
/// commentary text `rotation` positions along the cycle, preserving each
/// occurrence's letter-casing class; a rotation of zero returns the text
/// unchanged.
pub fn rotate_commentary(text: &str, rotation: u8) -> (r: String)
    ensures
        r@ == rotate_commentary_spec(text@, rotation as int),
{
    let chars = crate::text::str_to_chars(text);
    if rotation == 0 {
        return crate::text::chars_to_string(&chars);
    }
    let ghost s = text@;
    let ghost rr = rotation as int;
    let n = chars.len();
    let mut out: Vec<char> = Vec::new();
    let mut i: usize = 0;
    while i < n
        invariant
            chars@ == s,
            n == s.len(),
            i <= n,
            rr == rotation as int,
            rr != 0,
            rotate_commentary_from(s, 0, rr) == out@ + rotate_commentary_from(s, i as nat, rr),
        decreases n - i,
    {
        let c = chars[i];
        if !is_word_char_exec(c) {
            out.push(c);
            i += 1;
        } else {
            let mut j: usize = i;
            while j < n && is_word_char_exec(chars[j])
                invariant
                    chars@ == s,
                    n == s.len(),
                    i <= j <= n,
                    forall|k: int| i <= k < j ==> is_word_char(s[k]),
                decreases n - j,
            {
                j += 1;
            }
            proof {
                lemma_word_end_at(s, i as nat, j as nat);
            }
            let mut w: Vec<char> = Vec::new();
            let mut k: usize = i;
            while k < j
                invariant
                    chars@ == s,
                    n == s.len(),
                    i <= k <= j <= n,
                    w@ == s.subrange(i as int, k as int),
                decreases j - k,
            {
                w.push(chars[k]);
                proof {
                    assert(s.subrange(i as int, k + 1 as int) =~= s.subrange(i as int, k as int)
                        .push(s[k as int]));
                }
                k += 1;
            }
            match word_direction(&w) {
                Some(di) => {
                    let class = case_class_of(&w);
                    let name = direction_word(di + rotation as usize, class);
                    proof {
                        assert((di + rotation as usize) as int % 4 == (di as int + rr) % 4);
                        assert(name@ == rendered_name(di as int + rr, class));
                        assert(replaced_word(s.subrange(i as int, j as int), rr) == name@);
                    }
                    crate::text::push_str_chars(&mut out, name);
                },
                None => {
                    crate::text::append_chars(&mut out, &w);
                },
            }
            i = j;
        }
    }
    proof {
        assert(out@ =~= out@ + rotate_commentary_from(s, n as nat, rr));
    }
    crate::text::chars_to_string(&out)
}

} // verus!
