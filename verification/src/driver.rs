//! The pattern driver: splits the requested rotation patterns, retains
//! the boards whose deals hold cards, assigns each retained board a
//! target direction by cycling through the pattern, computes and applies
//! its rotation, and renders one rewritten output text per pattern.
use vstd::prelude::*;
use crate::board::Board;
use crate::board::board_has_valid_deal_spec;
use crate::board::deal_like;
use crate::board::hand_like;
use crate::direction::Direction;
use crate::direction::direction_from_char_spec;
use crate::direction::rotation_amount_spec;
use crate::rewriter::write_rotated_pbn_spec;
use crate::rotation::RotationBasis;
use crate::rotation::RotationInfo;
use crate::rotation::TagEntry;
use crate::rotation::entries_view;
use crate::rotation::find_basis_dir_spec;
use crate::rotation::find_basis_kind_spec;
use crate::rotation::rotated_dealer_spec;
use crate::rotation::rotated_deal_hand_spec;
use crate::rotation::rotated_vulnerability_spec;
use crate::text::trim_spec;

verus! {

/// The abstract command surface of the rotation run.
pub struct Args {
    /// Input record file path.
    pub input: String,
    /// Optional output path; only valid with a single pattern.
    pub output: Option<String>,
    /// Comma-separated rotation pattern list.
    pub pattern: String,
    /// How each board's current orientation is determined.
    pub basis: RotationBasis,
    /// Whether vulnerability is taken from the board number instead of
    /// rotated.
    pub standard_vul: bool,
}

/// A fatal configuration or input error of the rotation run.
#[derive(Clone, Copy, PartialEq, Eq, Structural, Debug)]
pub enum RotateError {
    /// More than one pattern together with an explicit output path.
    MultiplePatternsWithOutput,
    /// No board with cards remains after filtering.
    NoValidBoards,
    /// A pattern character is not a direction initial.
    InvalidPatternChar(char),
    /// A pattern with no characters.
    EmptyPattern,
}

impl RotateError {
    /// A description of the error for display.
    pub fn message(&self) -> (r: String)
        ensures
            r@ == match *self {
                RotateError::MultiplePatternsWithOutput =>
                    "Cannot use --output with multiple patterns. Output files will be auto-named."@,
                RotateError::NoValidBoards => "No valid boards found in input file"@,
                RotateError::InvalidPatternChar(c) => "Invalid direction '"@ + seq![c]
                    + "' in pattern"@,
                RotateError::EmptyPattern => "Pattern cannot be empty"@,
            },
    {
        let mut out: Vec<char> = Vec::new();
        match self {
            RotateError::MultiplePatternsWithOutput => {
                crate::text::push_str_chars(
                    &mut out,
                    "Cannot use --output with multiple patterns. Output files will be auto-named.",
                );
            },
            RotateError::NoValidBoards => {
                crate::text::push_str_chars(&mut out, "No valid boards found in input file");
            },
            RotateError::InvalidPatternChar(c) => {
                crate::text::push_str_chars(&mut out, "Invalid direction '");
                out.push(*c);
                crate::text::push_str_chars(&mut out, "' in pattern");
            },
            RotateError::EmptyPattern => {
                crate::text::push_str_chars(&mut out, "Pattern cannot be empty");
            },
        }
        proof {
            assert(out@ =~= match *self {
                RotateError::MultiplePatternsWithOutput =>
                    "Cannot use --output with multiple patterns. Output files will be auto-named."@,
                RotateError::NoValidBoards => "No valid boards found in input file"@,
                RotateError::InvalidPatternChar(c) => "Invalid direction '"@ + seq![c]
                    + "' in pattern"@,
                RotateError::EmptyPattern => "Pattern cannot be empty"@,
            });
        }
        crate::text::chars_to_string(&out)
    }
}

// ---------------------------------------------------------------------------
// Parsing a pattern
// ---------------------------------------------------------------------------

/// The first pattern position holding no direction initial.
pub open spec fn first_invalid_index(s: Seq<char>, i: nat) -> Option<int>
    decreases s.len() - i,
{
    if i >= s.len() {
        None
    } else if direction_from_char_spec(s[i as int]) is None {
        Some(i as int)
    } else {
        first_invalid_index(s, i + 1)
    }
}

/// What parsing a pattern yields: the directions of its characters, or
/// the first offending character, or the empty-pattern error.
pub open spec fn parse_pattern_spec(s: Seq<char>) -> Result<Seq<Direction>, RotateError> {
    match first_invalid_index(s, 0) {
        Some(i) => Err(RotateError::InvalidPatternChar(s[i])),
        None => if s.len() == 0 {
            Err(RotateError::EmptyPattern)
        } else {
            Ok(Seq::new(s.len(), |i: int| direction_from_char_spec(s[i])->Some_0))
        },
    }
}

/// Parses a pattern such as `NESW` or `ns` into directions; either
/// letter case is accepted.
pub fn parse_pattern(pattern: &str) -> (r: Result<Vec<Direction>, RotateError>)
    ensures
        match r {
            Ok(v) => parse_pattern_spec(pattern@) == Ok::<Seq<Direction>, RotateError>(v@),
            Err(e) => parse_pattern_spec(pattern@) == Err::<Seq<Direction>, RotateError>(e),
        },
{
    let chars = crate::text::str_to_chars(pattern);
    let mut dirs: Vec<Direction> = Vec::new();
    let mut i: usize = 0;
    while i < chars.len()
        invariant
            chars@ == pattern@,
            i <= chars@.len(),
            dirs@.len() == i,
            first_invalid_index(pattern@, 0) == first_invalid_index(pattern@, i as nat),
            forall|j: int|
                0 <= j < i ==> direction_from_char_spec(pattern@[j]) == Some(#[trigger] dirs@[j]),
        decreases chars@.len() - i,
    {
        match crate::direction::direction_from_char(chars[i]) {
            Some(d) => {
                dirs.push(d);
            },
            None => {
                return Err(RotateError::InvalidPatternChar(chars[i]));
            },
        }
        i += 1;
    }
    if dirs.len() == 0 {
        return Err(RotateError::EmptyPattern);
    }
    proof {
        assert(dirs@ =~= Seq::new(
            pattern@.len(),
            |i: int| direction_from_char_spec(pattern@[i])->Some_0,
        ));
    }
    Ok(dirs)
}

// ---------------------------------------------------------------------------
// Splitting the pattern argument
// ---------------------------------------------------------------------------

/// Index of the first comma at or after `from`, or the length.
pub open spec fn find_comma(s: Seq<char>, from: nat) -> nat
    decreases s.len() - from,
{
    if from >= s.len() {
        s.len()
    } else if s[from as int] == ',' {
        from
    } else {
        find_comma(s, from + 1)
    }
}

proof fn lemma_find_comma_at(s: Seq<char>, from: nat, idx: nat)
    requires
        from <= idx <= s.len(),
        forall|j: int| from <= j < idx ==> s[j] != ',',
        idx == s.len() || s[idx as int] == ',',
    ensures
        find_comma(s, from) == idx,
    decreases idx - from,
{
    if from < idx {
        lemma_find_comma_at(s, from + 1, idx);
    }
}

/// The comma-separated pieces of the pattern argument, each trimmed;
/// there is always at least one piece.
pub open spec fn split_patterns_spec(s: Seq<char>) -> Seq<Seq<char>>
    decreases s.len(),
{
    let i = find_comma(s, 0);
    if i < s.len() {
        seq![trim_spec(s.subrange(0, i as int))] + split_patterns_spec(
            s.subrange(i + 1 as int, s.len() as int),
        )
    } else {
        seq![trim_spec(s)]
    }
}

/// Splits the pattern argument at commas and trims each piece.
pub fn split_patterns(arg: &str) -> (r: Vec<String>)
    ensures
        r.deep_view() == split_patterns_spec(arg@),
        r@.len() > 0,
{
    let chars = crate::text::str_to_chars(arg);
    let n = chars.len();
    let mut r: Vec<String> = Vec::new();
    let mut start: usize = 0;
    proof {
        assert(arg@.subrange(0, n as int) =~= arg@);
        assert(r.deep_view() =~= Seq::<Seq<char>>::empty());
    }
    loop
        invariant_except_break
            chars@ == arg@,
            start <= n,
            n == chars@.len(),
            split_patterns_spec(arg@) == r.deep_view() + split_patterns_spec(
                arg@.subrange(start as int, n as int),
            ),
        ensures
            r.deep_view() == split_patterns_spec(arg@),
            r@.len() > 0,
        decreases n - start,
    {
        let ghost rest = arg@.subrange(start as int, n as int);
        let mut j: usize = start;
        while j < n && chars[j] != ','
            invariant
                chars@ == arg@,
                start <= j <= n,
                n == chars@.len(),
                forall|k: int| start <= k < j ==> arg@[k] != ',',
            decreases n - j,
        {
            j += 1;
        }
        proof {
            assert(forall|k: int| 0 <= k < j - start ==> rest[k] == arg@[start + k]);
            lemma_find_comma_at(rest, 0, (j - start) as nat);
        }
        let piece_raw = crate::text::subrange_chars(&chars, start, j);
        let piece = crate::text::trim_chars(&piece_raw);
        let ghost pv = trim_spec(piece_raw@);
        let ghost old_dv = r.deep_view();
        r.push(crate::text::chars_to_string(&piece));
        proof {
            assert(r.deep_view() =~= old_dv + seq![pv]);
        }
        if j < n {
            proof {
                assert(rest.subrange(0, (j - start) as int) =~= arg@.subrange(
                    start as int,
                    j as int,
                ));
                assert(rest.subrange((j - start + 1) as int, rest.len() as int) =~= arg@.subrange(
                    j + 1 as int,
                    n as int,
                ));
            }
            start = j + 1;
        } else {
            proof {
                assert(rest.subrange(0, (j - start) as int) =~= rest);
                assert(split_patterns_spec(rest) == seq![trim_spec(rest)]);
                assert(r.deep_view() =~= old_dv + split_patterns_spec(rest));
            }
            break ;
        }
    }
    r
}

// ---------------------------------------------------------------------------
// Output naming
// ---------------------------------------------------------------------------

/// ASCII upper-casing of one character.
pub open spec fn ascii_upper_char(c: char) -> char {
    if c == 'a' { 'A' } else if c == 'b' { 'B' } else if c == 'c' { 'C' } else if c == 'd' { 'D' }
    else if c == 'e' { 'E' } else if c == 'f' { 'F' } else if c == 'g' { 'G' }
    else if c == 'h' { 'H' } else if c == 'i' { 'I' } else if c == 'j' { 'J' }
    else if c == 'k' { 'K' } else if c == 'l' { 'L' } else if c == 'm' { 'M' }
    else if c == 'n' { 'N' } else if c == 'o' { 'O' } else if c == 'p' { 'P' }
    else if c == 'q' { 'Q' } else if c == 'r' { 'R' } else if c == 's' { 'S' }
    else if c == 't' { 'T' } else if c == 'u' { 'U' } else if c == 'v' { 'V' }
    else if c == 'w' { 'W' } else if c == 'x' { 'X' } else if c == 'y' { 'Y' }
    else if c == 'z' { 'Z' } else { c }
}

fn ascii_upper(c: char) -> (r: char)
    ensures
        r == ascii_upper_char(c),
{
    if c == 'a' { 'A' } else if c == 'b' { 'B' } else if c == 'c' { 'C' } else if c == 'd' { 'D' }
    else if c == 'e' { 'E' } else if c == 'f' { 'F' } else if c == 'g' { 'G' }
    else if c == 'h' { 'H' } else if c == 'i' { 'I' } else if c == 'j' { 'J' }
    else if c == 'k' { 'K' } else if c == 'l' { 'L' } else if c == 'm' { 'M' }
    else if c == 'n' { 'N' } else if c == 'o' { 'O' } else if c == 'p' { 'P' }
    else if c == 'q' { 'Q' } else if c == 'r' { 'R' } else if c == 's' { 'S' }
    else if c == 't' { 'T' } else if c == 'u' { 'U' } else if c == 'v' { 'V' }
    else if c == 'w' { 'W' } else if c == 'x' { 'X' } else if c == 'y' { 'Y' }
    else if c == 'z' { 'Z' } else { c }
}

/// Last index before which the directory part of a path ends: one past
/// the last separator, or zero.
pub open spec fn dir_end_spec(s: Seq<char>, i: nat) -> nat
    decreases i,
{
    if i == 0 {
        0
    } else if s[i - 1] == '/' {
        i
    } else {
        dir_end_spec(s, (i - 1) as nat)
    }
}

/// Last dot of the file name, as an offset into the file name, or the
/// file-name length if there is none.
pub open spec fn last_dot_spec(s: Seq<char>, from: nat, i: nat) -> nat
    decreases i,
{
    if i <= from {
        s.len()
    } else if s[i - 1] == '.' {
        (i - 1) as nat
    } else {
        last_dot_spec(s, from, (i - 1) as nat)
    }
}

/// The derived output path: the directory kept, the file stem, a dash,
/// the upper-cased pattern, and the input's extension (or `pbn` when it
/// has none).
pub open spec fn make_output_path_spec(input: Seq<char>, pattern: Seq<char>) -> Seq<char> {
    let d = dir_end_spec(input, input.len());
    let dot = last_dot_spec(input, d, input.len());
    let upper = Seq::new(pattern.len(), |i: int| ascii_upper_char(pattern[i]));
    if dot < input.len() && dot > d {
        input.subrange(0, dot as int) + " - "@ + upper + "."@ + input.subrange(
            dot + 1 as int,
            input.len() as int,
        )
    } else {
        input + " - "@ + upper + "."@ + "pbn"@
    }
}

/// Derives the output path of a pattern from the input path: the pattern
/// is upper-cased and appended to the file stem, and the extension is
/// kept, with `pbn` standing in when the input has none.
pub fn make_output_path(input: &str, pattern: &str) -> (r: String)
    ensures
        r@ == make_output_path_spec(input@, pattern@),
{
    let chars = crate::text::str_to_chars(input);
    let n = chars.len();
    let mut d: usize = n;
    while d > 0 && chars[d - 1] != '/'
        invariant
            chars@ == input@,
            d <= n,
            n == chars@.len(),
            dir_end_spec(input@, n as nat) == dir_end_spec(input@, d as nat),
        decreases d,
    {
        d -= 1;
    }
    let mut dot: usize = n;
    let mut i: usize = n;
    while i > d && chars[i - 1] != '.'
        invariant
            chars@ == input@,
            d <= i <= n,
            n == chars@.len(),
            last_dot_spec(input@, d as nat, n as nat) == last_dot_spec(input@, d as nat, i as nat),
        decreases i,
    {
        i -= 1;
    }
    if i > d {
        dot = i - 1;
        proof {
            assert(last_dot_spec(input@, d as nat, n as nat) == dot);
        }
    } else {
        proof {
            assert(last_dot_spec(input@, d as nat, n as nat) == n);
        }
    }
    let pat = crate::text::str_to_chars(pattern);
    let mut upper: Vec<char> = Vec::new();
    let mut k: usize = 0;
    while k < pat.len()
        invariant
            pat@ == pattern@,
            k <= pat@.len(),
            upper@.len() == k,
            forall|j: int| 0 <= j < k ==> upper@[j] == ascii_upper_char(pattern@[j]),
        decreases pat@.len() - k,
    {
        upper.push(ascii_upper(pat[k]));
        k += 1;
    }
    proof {
        assert(upper@ =~= Seq::new(pattern@.len(), |i: int| ascii_upper_char(pattern@[i])));
    }
    let mut out: Vec<char> = Vec::new();
    if dot < n && dot > d {
        let head = crate::text::subrange_chars(&chars, 0, dot);
        crate::text::append_chars(&mut out, &head);
        crate::text::push_str_chars(&mut out, " - ");
        crate::text::append_chars(&mut out, &upper);
        crate::text::push_str_chars(&mut out, ".");
        let ext = crate::text::subrange_chars(&chars, dot + 1, n);
        crate::text::append_chars(&mut out, &ext);
    } else {
        crate::text::append_chars(&mut out, &chars);
        crate::text::push_str_chars(&mut out, " - ");
        crate::text::append_chars(&mut out, &upper);
        crate::text::push_str_chars(&mut out, ".");
        crate::text::push_str_chars(&mut out, "pbn");
    }
    proof {
        assert(out@ =~= make_output_path_spec(input@, pattern@));
    }
    crate::text::chars_to_string(&out)
}

// ---------------------------------------------------------------------------
// Retaining and rotating the boards of one pattern
// ---------------------------------------------------------------------------

/// The boards whose deals hold cards, in source order.
pub open spec fn retained_spec(boards: Seq<Board>) -> Seq<Board>
    decreases boards.len(),
{
    if boards.len() == 0 {
        Seq::empty()
    } else {
        let rest = retained_spec(boards.drop_last());
        if board_has_valid_deal_spec(boards.last()) {
            rest.push(boards.last())
        } else {
            rest
        }
    }
}

/// Boards with all four hands empty are absent from the retained set,
/// and every board with cards is in it.
pub proof fn lemma_retained_exactly_valid(boards: Seq<Board>)
    ensures
        forall|i: int|
            0 <= i < retained_spec(boards).len() ==> board_has_valid_deal_spec(
                #[trigger] retained_spec(boards)[i],
            ),
        forall|j: int|
            0 <= j < boards.len() && board_has_valid_deal_spec(boards[j])
                ==> retained_spec(boards).contains(#[trigger] boards[j]),
        forall|j: int|
            0 <= j < boards.len() && !board_has_valid_deal_spec(boards[j])
                ==> !retained_spec(boards).contains(#[trigger] boards[j]),
    decreases boards.len(),
{
    if boards.len() > 0 {
        lemma_retained_exactly_valid(boards.drop_last());
        let r = retained_spec(boards);
        let rp = retained_spec(boards.drop_last());
        assert forall|j: int|
            0 <= j < boards.len() && board_has_valid_deal_spec(boards[j]) implies r.contains(
            #[trigger] boards[j],
        ) by {
            if j < boards.len() - 1 {
                assert(boards.drop_last()[j] == boards[j]);
                let w = choose|w: int| 0 <= w < rp.len() && rp[w] == boards[j];
                if board_has_valid_deal_spec(boards.last()) {
                    assert(r[w] == boards[j]);
                } else {
                    assert(r[w] == boards[j]);
                }
            } else {
                assert(r[r.len() - 1] == boards[j]);
            }
        }
        assert forall|j: int|
            0 <= j < boards.len() && !board_has_valid_deal_spec(boards[j]) implies !r.contains(
            #[trigger] boards[j],
        ) by {
            if r.contains(boards[j]) {
                let w = choose|w: int| 0 <= w < r.len() && r[w] == boards[j];
                assert(board_has_valid_deal_spec(r[w]));
            }
        }
    }
}

/// The number a retained board carries at position `i`: its own, or the
/// position counted from one.
pub open spec fn assigned_number(b: Board, i: int) -> u32 {
    match b.number {
        Some(n) => n,
        None => (i + 1) as u32,
    }
}

/// The target direction of the retained board at position `i`.
pub open spec fn board_target(pattern: Seq<Direction>, i: int) -> Direction {
    pattern[i % pattern.len() as int]
}

/// The basis direction of retained board `b` at position `i`.
pub open spec fn board_basis_dir(
    b: Board,
    i: int,
    entries: Seq<(u32, Seq<char>, Seq<char>)>,
    basis: RotationBasis,
) -> Direction {
    find_basis_dir_spec(b, entries, assigned_number(b, i), basis)
}

/// The quarter-turn count of retained board `b` at position `i`.
pub open spec fn board_rotation(
    b: Board,
    i: int,
    pattern: Seq<Direction>,
    entries: Seq<(u32, Seq<char>, Seq<char>)>,
    basis: RotationBasis,
) -> int {
    rotation_amount_spec(board_basis_dir(b, i, entries, basis), board_target(pattern, i))
}

/// How one retained board `b` at position `i` relates to its rotated
/// copy `rb` and its rotation record `info`.
pub open spec fn rotated_pair_ok(
    b: Board,
    i: int,
    pattern: Seq<Direction>,
    entries: Seq<(u32, Seq<char>, Seq<char>)>,
    basis: RotationBasis,
    standard_vul: bool,
    rb: Board,
    info: (u32, RotationInfo),
) -> bool {
    let num = assigned_number(b, i);
    let rot = board_rotation(b, i, pattern, entries, basis);
    info.0 == num && info.1.rotation == rot && info.1.target == board_target(pattern, i)
        && info.1.basis == board_basis_dir(b, i, entries, basis) && info.1.basis_kind@
        == find_basis_kind_spec(b, entries, num, basis) && info.1.use_standard_vul == standard_vul
        && rb.number == Some(num) && (if rot != 0 {
        rb.dealer == rotated_dealer_spec(b.dealer, rot) && rb.vulnerable
            == rotated_vulnerability_spec(b.vulnerable, Some(num), rot, standard_vul) && hand_like(
            rb.deal.north,
            rotated_deal_hand_spec(b.deal, Direction::North, rot),
        ) && hand_like(rb.deal.east, rotated_deal_hand_spec(b.deal, Direction::East, rot))
            && hand_like(rb.deal.south, rotated_deal_hand_spec(b.deal, Direction::South, rot))
            && hand_like(rb.deal.west, rotated_deal_hand_spec(b.deal, Direction::West, rot))
    } else {
        rb.dealer == b.dealer && rb.vulnerable == b.vulnerable && deal_like(rb.deal, b.deal)
    })
}

/// How a whole retained board list relates to its rotated copies and
/// rotation records under one pattern.
pub open spec fn rotated_set_ok(
    ret: Seq<Board>,
    pattern: Seq<Direction>,
    entries: Seq<(u32, Seq<char>, Seq<char>)>,
    basis: RotationBasis,
    standard_vul: bool,
    bs: Seq<Board>,
    inf: Seq<(u32, RotationInfo)>,
) -> bool {
    bs.len() == ret.len() && inf.len() == ret.len() && forall|i: int|
        0 <= i < ret.len() ==> rotated_pair_ok(
            ret[i],
            i,
            pattern,
            entries,
            basis,
            standard_vul,
            bs[i],
            inf[i],
        )
}

/// Retains the boards with cards, assigns missing numbers sequentially
/// from one, resolves each board's basis, computes its rotation to the
/// pattern's target for its position, and applies it.
#[verifier::rlimit(60)]
pub fn rotate_boards_for_pattern(
    boards: &Vec<Board>,
    pattern: &Vec<Direction>,
    entries: &Vec<TagEntry>,
    basis: RotationBasis,
    standard_vul: bool,
) -> (r: (Vec<Board>, Vec<(u32, RotationInfo)>))
    requires
        pattern@.len() > 0,
        boards@.len() < u32::MAX,
    ensures
        rotated_set_ok(
            retained_spec(boards@),
            pattern@,
            entries_view(entries@),
            basis,
            standard_vul,
            r.0@,
            r.1@,
        ),
{
    let ghost ev = entries_view(entries@);
    let mut rotated: Vec<Board> = Vec::new();
    let mut infos: Vec<(u32, RotationInfo)> = Vec::new();
    let mut j: usize = 0;
    proof {
        assert(boards@.subrange(0, 0) =~= Seq::<Board>::empty());
    }
    while j < boards.len()
        invariant
            ev == entries_view(entries@),
            j <= boards@.len(),
            boards@.len() < u32::MAX,
            pattern@.len() > 0,
            rotated@.len() == retained_spec(boards@.subrange(0, j as int)).len(),
            infos@.len() == rotated@.len(),
            rotated@.len() <= j,
            forall|i: int|
                0 <= i < rotated@.len() ==> rotated_pair_ok(
                    retained_spec(boards@.subrange(0, j as int))[i],
                    i,
                    pattern@,
                    ev,
                    basis,
                    standard_vul,
                    rotated@[i],
                    infos@[i],
                ),
        decreases boards@.len() - j,
    {
        let ghost pre = retained_spec(boards@.subrange(0, j as int));
        proof {
            assert(boards@.subrange(0, j + 1 as int).drop_last() =~= boards@.subrange(0, j as int));
            assert(boards@.subrange(0, j + 1 as int).last() == boards@[j as int]);
        }
        if crate::board::board_has_valid_deal(&boards[j]) {
            let i = rotated.len();
            let mut nb = crate::board::clone_board(&boards[j]);
            if nb.number.is_none() {
                nb.number = Some((i as u32) + 1);
            }
            let num: u32 = match nb.number {
                Some(n) => n,
                None => 1,
            };
            proof {
                assert(num == assigned_number(boards@[j as int], i as int));
            }
            let target = pattern[i % pattern.len()];
            let (basis_dir, kind) = crate::rotation::find_basis(&nb, entries, num, basis);
            proof {
                // basis resolution reads only the dealer and the captured
                // tags, so the numbered copy resolves as the source board
                assert(find_basis_dir_spec(nb, ev, num, basis) == find_basis_dir_spec(
                    boards@[j as int],
                    ev,
                    num,
                    basis,
                ));
                assert(find_basis_kind_spec(nb, ev, num, basis) == find_basis_kind_spec(
                    boards@[j as int],
                    ev,
                    num,
                    basis,
                ));
            }
            let rotation = crate::direction::rotation_amount(basis_dir, target);
            let info = RotationInfo {
                rotation,
                target,
                basis: basis_dir,
                basis_kind: String::from_str(kind),
                use_standard_vul: standard_vul,
            };
            let ghost old_infos = infos@;
            let ghost old_rotated = rotated@;
            infos.push((num, info));
            if rotation != 0 {
                crate::rotation::rotate_board(&mut nb, rotation, standard_vul);
            }
            rotated.push(nb);
            proof {
                assert(retained_spec(boards@.subrange(0, j + 1 as int)) =~= pre.push(
                    boards@[j as int],
                ));
                assert(rotated_pair_ok(
                    boards@[j as int],
                    i as int,
                    pattern@,
                    ev,
                    basis,
                    standard_vul,
                    rotated@[i as int],
                    infos@[i as int],
                ));
                assert(forall|k: int|
                    0 <= k < old_rotated.len() ==> rotated@[k] == old_rotated[k] && infos@[k]
                        == old_infos[k]);
            }
        } else {
            proof {
                assert(retained_spec(boards@.subrange(0, j + 1 as int)) =~= pre);
            }
        }
        j += 1;
    }
    proof {
        assert(boards@.subrange(0, boards@.len() as int) =~= boards@);
    }
    (rotated, infos)
}

// ---------------------------------------------------------------------------
// The whole run
// ---------------------------------------------------------------------------

/// The output text of one pattern is the rewrite of the source against
/// some rotated board set and records standing in the stated relation to
/// the retained boards.
pub open spec fn pattern_output_ok(
    content: Seq<char>,
    boards: Seq<Board>,
    pattern: Seq<Direction>,
    entries: Seq<(u32, Seq<char>, Seq<char>)>,
    basis: RotationBasis,
    standard_vul: bool,
    out: Seq<char>,
) -> bool {
    exists|bs: Seq<Board>, inf: Seq<(u32, RotationInfo)>|
        #[trigger] rotated_set_ok(retained_spec(boards), pattern, entries, basis, standard_vul, bs, inf)
            && out == write_rotated_pbn_spec(content, bs, inf)
}

/// Produces the rewritten output text of one parsed pattern.
pub fn process_pattern(
    content: &str,
    boards: &Vec<Board>,
    entries: &Vec<TagEntry>,
    pattern: &Vec<Direction>,
    basis: RotationBasis,
    standard_vul: bool,
) -> (r: String)
    requires
        pattern@.len() > 0,
        boards@.len() < u32::MAX,
    ensures
        pattern_output_ok(
            content@,
            boards@,
            pattern@,
            entries_view(entries@),
            basis,
            standard_vul,
            r@,
        ),
{
    let (rotated, infos) = rotate_boards_for_pattern(boards, pattern, entries, basis, standard_vul);
    let out = crate::rewriter::write_rotated_pbn(content, &rotated, &infos);
    proof {
        assert(rotated_set_ok(
            retained_spec(boards@),
            pattern@,
            entries_view(entries@),
            basis,
            standard_vul,
            rotated@,
            infos@,
        ));
    }
    out
}

/// Rewrites the source once per requested pattern.  The patterns are the
/// comma-separated, trimmed pieces of `pattern_arg`.  More than one
/// pattern with an explicit output path, an input without a single board
/// holding cards, and a piece that is empty or holds a character that is
/// no direction initial are fatal; otherwise one `(pattern, output)`
/// pair per piece is returned, in order.
pub fn rotate_deals(
    content: &str,
    boards: &Vec<Board>,
    pattern_arg: &str,
    basis: RotationBasis,
    standard_vul: bool,
    output_given: bool,
) -> (r: Result<Vec<(String, String)>, RotateError>)
    requires
        boards@.len() < u32::MAX,
    ensures
        match r {
            Err(e) => {
                let pieces = split_patterns_spec(pattern_arg@);
                if pieces.len() > 1 && output_given {
                    e == RotateError::MultiplePatternsWithOutput
                } else if retained_spec(boards@).len() == 0 {
                    e == RotateError::NoValidBoards
                } else {
                    exists|k: int|
                        0 <= k < pieces.len() && parse_pattern_spec(#[trigger] pieces[k]) == Err::<
                            Seq<Direction>,
                            RotateError,
                        >(e) && forall|j: int|
                            0 <= j < k ==> parse_pattern_spec(#[trigger] pieces[j]) is Ok
                }
            },
            Ok(v) => {
                let pieces = split_patterns_spec(pattern_arg@);
                let entries = crate::pbn::extra_tags_from(
                    crate::text::lines_spec(content@),
                    0,
                    None,
                );
                !(pieces.len() > 1 && output_given) && retained_spec(boards@).len() > 0
                    && v@.len() == pieces.len() && forall|k: int|
                    0 <= k < pieces.len() ==> (#[trigger] v@[k]).0@ == pieces[k]
                        && parse_pattern_spec(pieces[k]) is Ok && pattern_output_ok(
                        content@,
                        boards@,
                        parse_pattern_spec(pieces[k])->Ok_0,
                        entries,
                        basis,
                        standard_vul,
                        v@[k].1@,
                    )
            },
        },
{
    let pieces = split_patterns(pattern_arg);
    let ghost pv = split_patterns_spec(pattern_arg@);
    if pieces.len() > 1 && output_given {
        return Err(RotateError::MultiplePatternsWithOutput);
    }
    // count the boards holding cards
    let mut valid: usize = 0;
    let mut j: usize = 0;
    proof {
        assert(boards@.subrange(0, 0) =~= Seq::<Board>::empty());
    }
    while j < boards.len()
        invariant
            j <= boards@.len(),
            valid <= j,
            valid == retained_spec(boards@.subrange(0, j as int)).len(),
        decreases boards@.len() - j,
    {
        proof {
            assert(boards@.subrange(0, j + 1 as int).drop_last() =~= boards@.subrange(0, j as int));
            assert(boards@.subrange(0, j + 1 as int).last() == boards@[j as int]);
        }
        if crate::board::board_has_valid_deal(&boards[j]) {
            valid += 1;
        }
        j += 1;
    }
    proof {
        assert(boards@.subrange(0, boards@.len() as int) =~= boards@);
    }
    if valid == 0 {
        return Err(RotateError::NoValidBoards);
    }
    // parse every pattern before producing any output
    let mut parsed: Vec<Vec<Direction>> = Vec::new();
    let mut k: usize = 0;
    while k < pieces.len()
        invariant
            pv == split_patterns_spec(pattern_arg@),
            pieces.deep_view() == pv,
            k <= pieces@.len(),
            pieces@.len() == pv.len(),
            retained_spec(boards@).len() > 0,
            !(pv.len() > 1 && output_given),
            parsed@.len() == k,
            forall|i: int|
                0 <= i < k ==> parse_pattern_spec(pv[i]) == Ok::<Seq<Direction>, RotateError>(
                    (#[trigger] parsed@[i])@,
                ) && parsed@[i]@.len() > 0,
        decreases pieces@.len() - k,
    {
        proof {
            assert(pieces@[k as int]@ == pv[k as int]);
        }
        match parse_pattern(pieces[k].as_str()) {
            Ok(dirs) => {
                proof {
                    assert(dirs@.len() == pv[k as int].len());
                    if pv[k as int].len() == 0 {
                        assert(parse_pattern_spec(pv[k as int]) is Err);
                    }
                }
                parsed.push(dirs);
            },
            Err(e) => {
                proof {
                    assert(parse_pattern_spec(pv[k as int]) == Err::<Seq<Direction>, RotateError>(
                        e,
                    ));
                    assert forall|j2: int| 0 <= j2 < k implies parse_pattern_spec(
                        #[trigger] pv[j2],
                    ) is Ok by {
                        let d = parsed@[j2];
                        assert(parse_pattern_spec(pv[j2]) == Ok::<Seq<Direction>, RotateError>(d@));
                    }
                }
                return Err(e);
            },
        }
        k += 1;
    }
    let entries = crate::pbn::parse_extra_tags(content);
    let mut outputs: Vec<(String, String)> = Vec::new();
    let mut k: usize = 0;
    while k < pieces.len()
        invariant
            pv == split_patterns_spec(pattern_arg@),
            pieces.deep_view() == pv,
            k <= pieces@.len(),
            pieces@.len() == pv.len(),
            parsed@.len() == pv.len(),
            boards@.len() < u32::MAX,
            entries_view(entries@) == crate::pbn::extra_tags_from(
                crate::text::lines_spec(content@),
                0,
                None,
            ),
            forall|i: int|
                0 <= i < pv.len() ==> parse_pattern_spec(pv[i]) == Ok::<Seq<Direction>, RotateError>(
                    (#[trigger] parsed@[i])@,
                ) && parsed@[i]@.len() > 0,
            outputs@.len() == k,
            forall|i: int|
                0 <= i < k ==> (#[trigger] outputs@[i]).0@ == pv[i] && pattern_output_ok(
                    content@,
                    boards@,
                    parsed@[i]@,
                    entries_view(entries@),
                    basis,
                    standard_vul,
                    outputs@[i].1@,
                ),
        decreases pieces@.len() - k,
    {
        proof {
            assert(pieces@[k as int]@ == pv[k as int]);
        }
        let out = process_pattern(content, boards, &entries, &parsed[k], basis, standard_vul);
        outputs.push((pieces[k].clone(), out));
        k += 1;
    }
    Ok(outputs)
}

} // verus!
