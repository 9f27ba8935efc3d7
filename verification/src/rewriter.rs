//! The format-preserving rewriter: one pass over the original record
//! text, line by line, substituting seat-dependent tag values from the
//! rotated board set and copying everything else.
//!
//! The pass is a finite-state machine.  `Header` copies directives,
//! blank lines and free text until the first board marker; a board
//! marker whose number is in the retained set enters `Active`, any other
//! enters `Suppressed`, which drops every line until the next marker.
//! Free-text blocks are buffered and, inside a retained board with a
//! nonzero rotation, passed through the commentary rotator when they
//! close.
use vstd::prelude::*;
use crate::board::Board;
use crate::board::deal_pbn_spec;
use crate::commentary::rotate_commentary_spec;
use crate::direction::Direction;
use crate::direction::direction_char_spec;
use crate::direction::vulnerability_token_spec;
use crate::pbn::parse_tag_line_spec;
use crate::rotation::RotationInfo;
use crate::rotation::rotate_direction_value_spec;
use crate::rotation::rotate_score_value_spec;
use crate::rotation::rotation_note_spec;
use crate::text::ends_with_char;
use crate::text::lines_spec;
use crate::text::parse_u32_spec;
use crate::text::starts_with_char;
use crate::text::trim_spec;

verus! {

/// Where the rewriter stands between lines.
#[derive(Clone, Copy, PartialEq, Eq, Structural, Debug)]
pub enum RwMode {
    /// Before the first board marker.
    Header,
    /// Inside a board that was dropped: lines are suppressed until the
    /// next board marker.
    Suppressed,
    /// Inside a retained board.
    Active { board_num: u32, board_idx: usize, rotation: u8 },
}

/// The full rewriter state: the mode, whether a free-text block is open,
/// its buffered lines, and whether the first retained board has been
/// emitted.
pub struct RwState {
    pub mode: RwMode,
    pub in_text: bool,
    pub buffer: Vec<char>,
    pub first_done: bool,
}

/// The mathematical image of the rewriter state.
pub struct RwStateSpec {
    pub mode: RwMode,
    pub in_text: bool,
    pub buffer: Seq<char>,
    pub first_done: bool,
}

pub open spec fn rw_view(st: RwState) -> RwStateSpec {
    RwStateSpec { mode: st.mode, in_text: st.in_text, buffer: st.buffer@, first_done: st.first_done }
}

/// An `Active` mode always points into the retained board list.
pub open spec fn rw_state_ok(st: RwStateSpec, boards: Seq<Board>) -> bool {
    match st.mode {
        RwMode::Active { board_num, board_idx, rotation } => board_idx < boards.len(),
        _ => true,
    }
}

pub open spec fn rw_init() -> RwStateSpec {
    RwStateSpec { mode: RwMode::Header, in_text: false, buffer: Seq::empty(), first_done: false }
}

// ---------------------------------------------------------------------------
// Lookups
// ---------------------------------------------------------------------------

/// Index of the first retained board with the given number.
pub open spec fn find_board_from(boards: Seq<Board>, num: u32, i: nat) -> Option<int>
    decreases boards.len() - i,
{
    if i >= boards.len() {
        None
    } else if boards[i as int].number == Some(num) {
        Some(i as int)
    } else {
        find_board_from(boards, num, i + 1)
    }
}

fn find_board_index(boards: &Vec<Board>, num: u32) -> (r: Option<usize>)
    ensures
        match r {
            Some(i) => find_board_from(boards@, num, 0) == Some(i as int) && i < boards@.len(),
            None => find_board_from(boards@, num, 0) is None,
        },
{
    let mut i: usize = 0;
    while i < boards.len()
        invariant
            i <= boards@.len(),
            find_board_from(boards@, num, 0) == find_board_from(boards@, num, i as nat),
        decreases boards@.len() - i,
    {
        let hit = match boards[i].number {
            Some(n) => n == num,
            None => false,
        };
        if hit {
            return Some(i);
        }
        i += 1;
    }
    None
}

/// The rotation record of a board number; the last record wins when a
/// number repeats.
pub open spec fn info_lookup_spec(infos: Seq<(u32, RotationInfo)>, num: u32) -> Option<RotationInfo>
    decreases infos.len(),
{
    if infos.len() == 0 {
        None
    } else if infos[infos.len() - 1].0 == num {
        Some(infos[infos.len() - 1].1)
    } else {
        info_lookup_spec(infos.drop_last(), num)
    }
}

fn find_info(infos: &Vec<(u32, RotationInfo)>, num: u32) -> (r: Option<usize>)
    ensures
        match r {
            Some(i) => i < infos@.len() && info_lookup_spec(infos@, num) == Some(
                infos@[i as int].1,
            ),
            None => info_lookup_spec(infos@, num) is None,
        },
{
    let mut i: usize = infos.len();
    proof {
        assert(infos@.subrange(0, infos@.len() as int) =~= infos@);
    }
    while i > 0
        invariant
            i <= infos@.len(),
            info_lookup_spec(infos@, num) == info_lookup_spec(
                infos@.subrange(0, i as int),
                num,
            ),
        decreases i,
    {
        i -= 1;
        proof {
            assert(infos@.subrange(0, i + 1).drop_last() =~= infos@.subrange(0, i as int));
            assert(infos@.subrange(0, i + 1).last() == infos@[i as int]);
        }
        if infos[i].0 == num {
            return Some(i);
        }
    }
    proof {
        assert(infos@.subrange(0, 0) =~= Seq::<(u32, RotationInfo)>::empty());
    }
    None
}

/// The title taken from the first Event tag with a nonempty value.
pub open spec fn event_title_from(lines: Seq<Seq<char>>, i: nat) -> Seq<char>
    decreases lines.len() - i,
{
    if i >= lines.len() {
        Seq::empty()
    } else {
        match parse_tag_line_spec(trim_spec(lines[i as int])) {
            Some(p) => if p.0 == "Event"@ && p.1.len() > 0 {
                p.1
            } else {
                event_title_from(lines, i + 1)
            },
            None => event_title_from(lines, i + 1),
        }
    }
}

fn find_event_title(lines: &Vec<Vec<char>>) -> (r: Vec<char>)
    ensures
        r@ == event_title_from(lines.deep_view(), 0),
{
    let ghost ls = lines.deep_view();
    let mut i: usize = 0;
    while i < lines.len()
        invariant
            ls == lines.deep_view(),
            i <= lines@.len(),
            ls.len() == lines@.len(),
            event_title_from(ls, 0) == event_title_from(ls, i as nat),
        decreases lines@.len() - i,
    {
        proof {
            assert(lines@[i as int].deep_view() =~= lines@[i as int]@);
            assert(lines@[i as int]@ == ls[i as int]);
        }
        let t = crate::text::trim_chars(&lines[i]);
        match crate::pbn::parse_tag_line_chars(&t) {
            Some(p) => {
                if crate::text::string_eq_lit(&p.0, "Event") && p.1.as_str().unicode_len() > 0 {
                    return crate::text::str_to_chars(p.1.as_str());
                }
            },
            None => {},
        }
        i += 1;
    }
    let empty: Vec<char> = Vec::new();
    proof {
        assert(empty@ =~= Seq::<char>::empty());
    }
    empty
}

// ---------------------------------------------------------------------------
// One step of the machine
// ---------------------------------------------------------------------------

/// What an `Active` board emits for one parsed tag line, and the state
/// that follows.
pub open spec fn rw_tag_step(
    line: Seq<char>,
    name: Seq<char>,
    value: Seq<char>,
    st: RwStateSpec,
    boards: Seq<Board>,
    infos: Seq<(u32, RotationInfo)>,
    title: Seq<char>,
) -> (Seq<char>, RwStateSpec) {
    if name == "Board"@ {
        match parse_u32_spec(value) {
            Some(num) => match find_board_from(boards, num, 0) {
                Some(idx) => {
                    let rot = match info_lookup_spec(infos, num) {
                        Some(info) => info.rotation,
                        None => 0u8,
                    };
                    let preamble = (if !st.first_done {
                        "[Event \""@ + title + "\"]\n"@
                    } else {
                        "[Event \"\"]\n"@
                    }) + "[Site \"\"]\n"@ + "[Date \"\"]\n"@;
                    (
                        preamble + line + "\n"@,
                        RwStateSpec {
                            mode: RwMode::Active {
                                board_num: num,
                                board_idx: idx as usize,
                                rotation: rot,
                            },
                            first_done: true,
                            ..st
                        },
                    )
                },
                None => (Seq::empty(), RwStateSpec { mode: RwMode::Suppressed, ..st }),
            },
            None => match st.mode {
                RwMode::Suppressed => (Seq::empty(), st),
                _ => (line + "\n"@, st),
            },
        }
    } else if name == "Event"@ || name == "Site"@ || name == "Date"@ {
        // always dropped: the preamble before each board marker stands in
        (Seq::empty(), st)
    } else {
        match st.mode {
            RwMode::Header => (Seq::empty(), st),
            RwMode::Suppressed => (Seq::empty(), st),
            RwMode::Active { board_num, board_idx, rotation } => {
                let board = boards[board_idx as int];
                if name == "Dealer"@ {
                    (
                        "[Dealer \""@ + seq![
                            match board.dealer {
                                Some(d) => direction_char_spec(d),
                                None => 'N',
                            },
                        ] + "\"]"@ + "\n"@,
                        st,
                    )
                } else if name == "Vulnerable"@ {
                    (
                        "[Vulnerable \""@ + vulnerability_token_spec(board.vulnerable) + "\"]"@
                            + "\n"@,
                        st,
                    )
                } else if name == "Deal"@ {
                    let first = match board.dealer {
                        Some(d) => d,
                        None => Direction::North,
                    };
                    ("[Deal \""@ + deal_pbn_spec(board.deal, first) + "\"]"@ + "\n"@, st)
                } else if name == "Auction"@ || name == "Play"@ || name == "Declarer"@ {
                    (
                        "["@ + name + " \""@ + rotate_direction_value_spec(value, rotation as int)
                            + "\"]"@ + "\n"@,
                        st,
                    )
                } else if name == "Score"@ {
                    (
                        "[Score \""@ + rotate_score_value_spec(value, rotation as int) + "\"]"@
                            + "\n"@,
                        st,
                    )
                } else if name == "BCFlags"@ {
                    let note = match info_lookup_spec(infos, board_num) {
                        Some(info) => rotation_note_spec(
                            info.rotation,
                            info.target,
                            info.basis,
                            info.basis_kind@,
                            info.use_standard_vul,
                            board_num,
                        ) + "\n"@,
                        None => Seq::empty(),
                    };
                    (line + "\n"@ + note, st)
                } else {
                    (line + "\n"@, st)
                }
            },
        }
    }
}

/// What one line emits, and the state that follows it.
pub open spec fn rw_step(
    line: Seq<char>,
    st: RwStateSpec,
    boards: Seq<Board>,
    infos: Seq<(u32, RotationInfo)>,
    title: Seq<char>,
) -> (Seq<char>, RwStateSpec) {
    let t = trim_spec(line);
    if st.in_text {
        if starts_with_char(t, '{') && !ends_with_char(t, '}') {
            // a new block start resets the buffer
            (Seq::empty(), RwStateSpec { buffer: line + "\n"@, ..st })
        } else {
            let buf = st.buffer + line + "\n"@;
            if ends_with_char(t, '}') {
                let out = match st.mode {
                    RwMode::Header => buf,
                    RwMode::Suppressed => Seq::empty(),
                    RwMode::Active { board_num, board_idx, rotation } => if rotation != 0 {
                        rotate_commentary_spec(buf, rotation as int)
                    } else {
                        buf
                    },
                };
                (out, RwStateSpec { in_text: false, buffer: Seq::empty(), ..st })
            } else {
                (Seq::empty(), RwStateSpec { buffer: buf, ..st })
            }
        }
    } else if starts_with_char(t, '{') && !ends_with_char(t, '}') {
        (Seq::empty(), RwStateSpec { in_text: true, buffer: line + "\n"@, ..st })
    } else if starts_with_char(t, '{') && ends_with_char(t, '}') {
        match st.mode {
            RwMode::Header => (line + "\n"@, st),
            RwMode::Suppressed => (Seq::empty(), st),
            RwMode::Active { board_num, board_idx, rotation } => (
                (if rotation != 0 {
                    rotate_commentary_spec(line, rotation as int)
                } else {
                    line
                }) + "\n"@,
                st,
            ),
        }
    } else if starts_with_char(t, '%') || starts_with_char(t, ';') || t.len() == 0 {
        match st.mode {
            RwMode::Suppressed => (Seq::empty(), st),
            _ => (line + "\n"@, st),
        }
    } else {
        match parse_tag_line_spec(t) {
            Some(p) => rw_tag_step(line, p.0, p.1, st, boards, infos, title),
            None => match st.mode {
                RwMode::Suppressed => (Seq::empty(), st),
                _ => (line + "\n"@, st),
            },
        }
    }
}

/// The output of the machine from line `i` on; an unterminated free-text
/// buffer at the end of input is dropped.
pub open spec fn rewrite_from(
    lines: Seq<Seq<char>>,
    i: nat,
    st: RwStateSpec,
    boards: Seq<Board>,
    infos: Seq<(u32, RotationInfo)>,
    title: Seq<char>,
) -> Seq<char>
    decreases lines.len() - i,
{
    if i >= lines.len() {
        Seq::empty()
    } else {
        let s = rw_step(lines[i as int], st, boards, infos, title);
        s.0 + rewrite_from(lines, i + 1, s.1, boards, infos, title)
    }
}

/// The whole rewritten text of a source file against a retained board
/// set and its rotation records.
pub open spec fn write_rotated_pbn_spec(
    content: Seq<char>,
    boards: Seq<Board>,
    infos: Seq<(u32, RotationInfo)>,
) -> Seq<char> {
    let lines = lines_spec(content);
    rewrite_from(lines, 0, rw_init(), boards, infos, event_title_from(lines, 0))
}

/// A line that marks a retained board: a parseable board tag whose
/// number names a board of the retained set.
pub open spec fn is_retained_marker(line: Seq<char>, boards: Seq<Board>) -> bool {
    match parse_tag_line_spec(trim_spec(line)) {
        Some(p) => p.0 == "Board"@ && (match parse_u32_spec(p.1) {
            Some(num) => find_board_from(boards, num, 0) is Some,
            None => false,
        }),
        None => false,
    }
}

/// While a board is suppressed, every line emits nothing and the machine
/// stays suppressed, until a marker of a retained board stands outside a
/// free-text block.
pub proof fn lemma_suppressed_emits_nothing(
    line: Seq<char>,
    st: RwStateSpec,
    boards: Seq<Board>,
    infos: Seq<(u32, RotationInfo)>,
    title: Seq<char>,
)
    requires
        st.mode == RwMode::Suppressed,
        !(!st.in_text && is_retained_marker(line, boards)),
    ensures
        rw_step(line, st, boards, infos, title).0 == Seq::<char>::empty(),
        rw_step(line, st, boards, infos, title).1.mode == RwMode::Suppressed,
{
    let t = trim_spec(line);
    if !st.in_text && !(starts_with_char(t, '{')) && !(starts_with_char(t, '%')
        || starts_with_char(t, ';') || t.len() == 0) {
        match parse_tag_line_spec(t) {
            Some(p) => {
                if p.0 == "Board"@ {
                    match parse_u32_spec(p.1) {
                        Some(num) => {
                            assert(find_board_from(boards, num, 0) is None);
                        },
                        None => {},
                    }
                }
            },
            None => {},
        }
    }
}

proof fn lemma_find_board_bounds(boards: Seq<Board>, num: u32, i: nat)
    ensures
        match find_board_from(boards, num, i) {
            Some(j) => i <= j < boards.len(),
            None => true,
        },
    decreases boards.len() - i,
{
    if i < boards.len() && boards[i as int].number != Some(num) {
        lemma_find_board_bounds(boards, num, i + 1);
    }
}

proof fn lemma_rw_step_ok(
    line: Seq<char>,
    st: RwStateSpec,
    boards: Seq<Board>,
    infos: Seq<(u32, RotationInfo)>,
    title: Seq<char>,
)
    requires
        rw_state_ok(st, boards),
    ensures
        rw_state_ok(rw_step(line, st, boards, infos, title).1, boards),
{
    let t = trim_spec(line);
    if !st.in_text && !(starts_with_char(t, '{')) && !(starts_with_char(t, '%')
        || starts_with_char(t, ';') || t.len() == 0) {
        match parse_tag_line_spec(t) {
            Some(p) => {
                if p.0 == "Board"@ {
                    match parse_u32_spec(p.1) {
                        Some(num) => {
                            lemma_find_board_bounds(boards, num, 0);
                        },
                        None => {},
                    }
                }
            },
            None => {},
        }
    }
}

// ---------------------------------------------------------------------------
// Executable machine
// ---------------------------------------------------------------------------

fn rw_step_exec(
    line: &Vec<char>,
    st: RwState,
    boards: &Vec<Board>,
    infos: &Vec<(u32, RotationInfo)>,
    title: &Vec<char>,
) -> (r: (Vec<char>, RwState))
    requires
        rw_state_ok(rw_view(st), boards@),
    ensures
        r.0@ == rw_step(line@, rw_view(st), boards@, infos@, title@).0,
        rw_view(r.1) == rw_step(line@, rw_view(st), boards@, infos@, title@).1,
        rw_state_ok(rw_view(r.1), boards@),
{
    let ghost spec_r = rw_step(line@, rw_view(st), boards@, infos@, title@);
    proof {
        lemma_rw_step_ok(line@, rw_view(st), boards@, infos@, title@);
    }
    let t = crate::text::trim_chars(line);
    let mut out: Vec<char> = Vec::new();
    let mut st = st;
    if st.in_text {
        if crate::text::chars_start_with(&t, '{') && !crate::text::chars_end_with(&t, '}') {
            st.buffer = Vec::new();
            crate::text::append_chars(&mut st.buffer, line);
            crate::text::push_str_chars(&mut st.buffer, "\n");
            proof {
                assert(st.buffer@ =~= line@ + "\n"@);
                assert(rw_view(st) == spec_r.1);
            }
            return (out, st);
        }
        crate::text::append_chars(&mut st.buffer, line);
        crate::text::push_str_chars(&mut st.buffer, "\n");
        if crate::text::chars_end_with(&t, '}') {
            match st.mode {
                RwMode::Header => {
                    crate::text::append_chars(&mut out, &st.buffer);
                },
                RwMode::Suppressed => {},
                RwMode::Active { board_num, board_idx, rotation } => {
                    if rotation != 0 {
                        let text = crate::text::chars_to_string(&st.buffer);
                        let rotated = crate::commentary::rotate_commentary(text.as_str(), rotation);
                        crate::text::push_str_chars(&mut out, rotated.as_str());
                    } else {
                        crate::text::append_chars(&mut out, &st.buffer);
                    }
                },
            }
            st.in_text = false;
            st.buffer = Vec::new();
            proof {
                assert(st.buffer@ =~= Seq::<char>::empty());
                assert(out@ == spec_r.0);
                assert(rw_view(st) == spec_r.1);
            }
            return (out, st);
        }
        proof {
            assert(rw_view(st) == spec_r.1);
        }
        return (out, st);
    }
    if crate::text::chars_start_with(&t, '{') && !crate::text::chars_end_with(&t, '}') {
        st.in_text = true;
        st.buffer = Vec::new();
        crate::text::append_chars(&mut st.buffer, line);
        crate::text::push_str_chars(&mut st.buffer, "\n");
        proof {
            assert(st.buffer@ =~= line@ + "\n"@);
            assert(rw_view(st) == spec_r.1);
        }
        return (out, st);
    }
    if crate::text::chars_start_with(&t, '{') && crate::text::chars_end_with(&t, '}') {
        match st.mode {
            RwMode::Header => {
                crate::text::append_chars(&mut out, line);
                crate::text::push_str_chars(&mut out, "\n");
            },
            RwMode::Suppressed => {},
            RwMode::Active { board_num, board_idx, rotation } => {
                if rotation != 0 {
                    let text = crate::text::chars_to_string(line);
                    let rotated = crate::commentary::rotate_commentary(text.as_str(), rotation);
                    crate::text::push_str_chars(&mut out, rotated.as_str());
                    crate::text::push_str_chars(&mut out, "\n");
                } else {
                    crate::text::append_chars(&mut out, line);
                    crate::text::push_str_chars(&mut out, "\n");
                }
            },
        }
        proof {
            assert(out@ == spec_r.0);
        }
        return (out, st);
    }
    if crate::text::chars_start_with(&t, '%') || crate::text::chars_start_with(&t, ';') || t.len()
        == 0 {
        match st.mode {
            RwMode::Suppressed => {},
            _ => {
                crate::text::append_chars(&mut out, line);
                crate::text::push_str_chars(&mut out, "\n");
            },
        }
        proof {
            assert(out@ == spec_r.0);
        }
        return (out, st);
    }
    match crate::pbn::parse_tag_line_chars(&t) {
        Some(p) => {
            let (emitted, new_st) = rw_tag_step_exec(line, &p.0, &p.1, st, boards, infos, title);
            return (emitted, new_st);
        },
        None => {
            match st.mode {
                RwMode::Suppressed => {},
                _ => {
                    crate::text::append_chars(&mut out, line);
                    crate::text::push_str_chars(&mut out, "\n");
                },
            }
            proof {
                assert(out@ == spec_r.0);
            }
            return (out, st);
        },
    }
}

fn rw_tag_step_exec(
    line: &Vec<char>,
    name: &String,
    value: &String,
    st: RwState,
    boards: &Vec<Board>,
    infos: &Vec<(u32, RotationInfo)>,
    title: &Vec<char>,
) -> (r: (Vec<char>, RwState))
    requires
        rw_state_ok(rw_view(st), boards@),
    ensures
        r.0@ == rw_tag_step(line@, name@, value@, rw_view(st), boards@, infos@, title@).0,
        rw_view(r.1) == rw_tag_step(line@, name@, value@, rw_view(st), boards@, infos@, title@).1,
{
    let ghost spec_r = rw_tag_step(line@, name@, value@, rw_view(st), boards@, infos@, title@);
    let mut out: Vec<char> = Vec::new();
    let mut st = st;
    if crate::text::string_eq_lit(name, "Board") {
        let value_chars = crate::text::str_to_chars(value.as_str());
        match crate::text::parse_u32_chars(&value_chars) {
            Some(num) => {
                match find_board_index(boards, num) {
                    Some(idx) => {
                        let rot: u8 = match find_info(infos, num) {
                            Some(k) => infos[k].1.rotation,
                            None => 0,
                        };
                        if !st.first_done {
                            crate::text::push_str_chars(&mut out, "[Event \"");
                            crate::text::append_chars(&mut out, title);
                            crate::text::push_str_chars(&mut out, "\"]\n");
                        } else {
                            crate::text::push_str_chars(&mut out, "[Event \"\"]\n");
                        }
                        crate::text::push_str_chars(&mut out, "[Site \"\"]\n");
                        crate::text::push_str_chars(&mut out, "[Date \"\"]\n");
                        crate::text::append_chars(&mut out, line);
                        crate::text::push_str_chars(&mut out, "\n");
                        st.mode = RwMode::Active { board_num: num, board_idx: idx, rotation: rot };
                        st.first_done = true;
                        proof {
                            assert(out@ =~= spec_r.0);
                            assert(rw_view(st) == spec_r.1);
                        }
                        return (out, st);
                    },
                    None => {
                        st.mode = RwMode::Suppressed;
                        proof {
                            assert(rw_view(st) == spec_r.1);
                        }
                        return (out, st);
                    },
                }
            },
            None => {
                match st.mode {
                    RwMode::Suppressed => {},
                    _ => {
                        crate::text::append_chars(&mut out, line);
                        crate::text::push_str_chars(&mut out, "\n");
                    },
                }
                proof {
                    assert(out@ == spec_r.0);
                }
                return (out, st);
            },
        }
    }
    if crate::text::string_eq_lit(name, "Event") || crate::text::string_eq_lit(name, "Site")
        || crate::text::string_eq_lit(name, "Date") {
        return (out, st);
    }
    let (board_num, board_idx, rotation): (u32, usize, u8) = match st.mode {
        RwMode::Header => {
            proof {
                assert(out@ == spec_r.0);
            }
            return (out, st);
        },
        RwMode::Suppressed => {
            proof {
                assert(out@ == spec_r.0);
            }
            return (out, st);
        },
        RwMode::Active { board_num, board_idx, rotation } => (board_num, board_idx, rotation),
    };
    let board = &boards[board_idx];
    if crate::text::string_eq_lit(name, "Dealer") {
        crate::text::push_str_chars(&mut out, "[Dealer \"");
        let c = match board.dealer {
            Some(d) => crate::direction::direction_char(d),
            None => 'N',
        };
        out.push(c);
        crate::text::push_str_chars(&mut out, "\"]");
        crate::text::push_str_chars(&mut out, "\n");
        proof {
            assert(out@ =~= spec_r.0);
        }
        return (out, st);
    }
    if crate::text::string_eq_lit(name, "Vulnerable") {
        crate::text::push_str_chars(&mut out, "[Vulnerable \"");
        crate::text::push_str_chars(&mut out, crate::direction::vulnerability_token(board.vulnerable));
        crate::text::push_str_chars(&mut out, "\"]");
        crate::text::push_str_chars(&mut out, "\n");
        proof {
            assert(out@ =~= spec_r.0);
        }
        return (out, st);
    }
    if crate::text::string_eq_lit(name, "Deal") {
        crate::text::push_str_chars(&mut out, "[Deal \"");
        let first = match board.dealer {
            Some(d) => d,
            None => Direction::North,
        };
        crate::board::push_deal_pbn(&mut out, &board.deal, first);
        crate::text::push_str_chars(&mut out, "\"]");
        crate::text::push_str_chars(&mut out, "\n");
        proof {
            assert(out@ =~= spec_r.0);
        }
        return (out, st);
    }
    if crate::text::string_eq_lit(name, "Auction") || crate::text::string_eq_lit(name, "Play")
        || crate::text::string_eq_lit(name, "Declarer") {
        crate::text::push_str_chars(&mut out, "[");
        crate::text::push_str_chars(&mut out, name.as_str());
        crate::text::push_str_chars(&mut out, " \"");
        let rotated = crate::rotation::rotate_direction_value(value.as_str(), rotation);
        crate::text::push_str_chars(&mut out, rotated.as_str());
        crate::text::push_str_chars(&mut out, "\"]");
        crate::text::push_str_chars(&mut out, "\n");
        proof {
            assert(out@ =~= spec_r.0);
        }
        return (out, st);
    }
    if crate::text::string_eq_lit(name, "Score") {
        crate::text::push_str_chars(&mut out, "[Score \"");
        let rotated = crate::rotation::rotate_score_value(value.as_str(), rotation);
        crate::text::push_str_chars(&mut out, rotated.as_str());
        crate::text::push_str_chars(&mut out, "\"]");
        crate::text::push_str_chars(&mut out, "\n");
        proof {
            assert(out@ =~= spec_r.0);
        }
        return (out, st);
    }
    if crate::text::string_eq_lit(name, "BCFlags") {
        crate::text::append_chars(&mut out, line);
        crate::text::push_str_chars(&mut out, "\n");
        match find_info(infos, board_num) {
            Some(k) => {
                let note = infos[k].1.to_rotation_note(board_num);
                crate::text::push_str_chars(&mut out, note.as_str());
                crate::text::push_str_chars(&mut out, "\n");
            },
            None => {},
        }
        proof {
            assert(out@ =~= spec_r.0);
        }
        return (out, st);
    }
    crate::text::append_chars(&mut out, line);
    crate::text::push_str_chars(&mut out, "\n");
    proof {
        assert(out@ =~= spec_r.0);
    }
    (out, st)
}

/// Rewrites the original record text against the retained, rotated board
/// set: seat-dependent tag values are substituted, dropped boards are
/// suppressed, free-text commentary is rotated, and everything else is
/// copied as it stands.
pub fn write_rotated_pbn(
    content: &str,
    boards: &Vec<Board>,
    infos: &Vec<(u32, RotationInfo)>,
) -> (r: String)
    ensures
        r@ == write_rotated_pbn_spec(content@, boards@, infos@),
{
    let chars = crate::text::str_to_chars(content);
    let lines = crate::text::split_lines(&chars);
    let ghost ls = lines_spec(content@);
    let title = find_event_title(&lines);
    let mut out: Vec<char> = Vec::new();
    let mut st = RwState {
        mode: RwMode::Header,
        in_text: false,
        buffer: Vec::new(),
        first_done: false,
    };
    proof {
        assert(rw_view(st).buffer =~= rw_init().buffer);
        assert(rw_view(st) == rw_init());
    }
    let mut i: usize = 0;
    while i < lines.len()
        invariant
            ls == lines.deep_view(),
            i <= lines@.len(),
            ls.len() == lines@.len(),
            title@ == event_title_from(ls, 0),
            rw_state_ok(rw_view(st), boards@),
            rewrite_from(ls, 0, rw_init(), boards@, infos@, title@) == out@ + rewrite_from(
                ls,
                i as nat,
                rw_view(st),
                boards@,
                infos@,
                title@,
            ),
        decreases lines@.len() - i,
    {
        proof {
            assert(lines@[i as int].deep_view() =~= lines@[i as int]@);
            assert(lines@[i as int]@ == ls[i as int]);
        }
        let (emitted, new_st) = rw_step_exec(&lines[i], st, boards, infos, &title);
        crate::text::append_chars(&mut out, &emitted);
        st = new_st;
        i += 1;
    }
    proof {
        assert(out@ =~= out@ + rewrite_from(
            ls,
            lines@.len() as nat,
            rw_view(st),
            boards@,
            infos@,
            title@,
        ));
    }
    crate::text::chars_to_string(&out)
}

} // verus!
