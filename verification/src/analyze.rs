//! Double-dummy analysis results: rendering trick tables, scoring made
//! contracts, estimating a par result, selecting boards by a range
//! expression, and inserting result tags into record text.  The trick
//! counts themselves come from an external solver.
use vstd::prelude::*;
use crate::text::dec_spec;
use crate::text::has_prefix;
use crate::text::lines_spec;
use crate::text::parse_u32_spec;
use crate::text::trim_spec;
use crate::board::Board;

verus! {

broadcast use vstd::array::group_array_axioms;

/// The abstract command surface of the analysis run.
pub struct Args {
    /// Input record file path.
    pub input: String,
    /// Optional output path for the record with result tags.
    pub output: Option<String>,
    /// Optional board range expression such as `1-4` or `1,3,5`.
    pub board_range: Option<String>,
    /// Whether each board's table and par are printed.
    pub verbose: bool,
}

/// Double-dummy results of one board: tricks by declarer (rows North,
/// South, East, West) and denomination (columns notrump, spades,
/// hearts, diamonds, clubs).
#[derive(Debug, Clone)]
pub struct DdResults {
    pub tricks: [[u8; 5]; 4],
}

// ---------------------------------------------------------------------------
// Scoring a made contract
// ---------------------------------------------------------------------------

/// Duplicate score of a made contract: trick score, game or part-score
/// bonus, slam bonus, and overtricks.
pub open spec fn calculate_score_spec(
    level: int,
    denom_idx: int,
    tricks: int,
    vul: bool,
    doubled: bool,
) -> int {
    let overtricks = tricks - (level + 6);
    let trick_value: int = if denom_idx == 0 {
        30
    } else if denom_idx == 1 || denom_idx == 2 {
        30
    } else {
        20
    };
    let base: int = if denom_idx == 0 {
        40 + (level - 1) * 30
    } else {
        level * trick_value
    };
    let base2: int = if doubled {
        base * 2
    } else {
        base
    };
    let game_threshold: int = if denom_idx == 0 {
        3
    } else if denom_idx == 1 || denom_idx == 2 {
        4
    } else {
        5
    };
    let bonus: int = if level >= game_threshold {
        if vul {
            500int
        } else {
            300int
        }
    } else {
        50int
    };
    let slam: int = if level == 6 {
        if vul {
            750int
        } else {
            500int
        }
    } else if level == 7 {
        if vul {
            1500int
        } else {
            1000int
        }
    } else {
        0int
    };
    let with_slam: int = base2 + bonus + slam;
    let overtrick_value: int = if doubled {
        if vul {
            200
        } else {
            100
        }
    } else {
        trick_value
    };
    with_slam + overtricks * overtrick_value
}

/// Scores a made contract of the given level and denomination with the
/// given trick count.
pub fn calculate_score(level: u8, denom_idx: usize, tricks: u8, vul: bool, doubled: bool) -> (r:
    i32)
    ensures
        r == calculate_score_spec(level as int, denom_idx as int, tricks as int, vul, doubled),
{
    let overtricks = tricks as i32 - (level as i32 + 6);
    let trick_value: i32 = if denom_idx == 0 {
        30
    } else if denom_idx == 1 || denom_idx == 2 {
        30
    } else {
        20
    };
    let mut score: i32 = if denom_idx == 0 {
        40 + (level as i32 - 1) * 30
    } else {
        level as i32 * trick_value
    };
    if doubled {
        score = score * 2;
    }
    let game_threshold: i32 = if denom_idx == 0 {
        3
    } else if denom_idx == 1 || denom_idx == 2 {
        4
    } else {
        5
    };
    if level as i32 >= game_threshold {
        score = score + (if vul {
            500
        } else {
            300
        });
    } else {
        score = score + 50;
    }
    if level == 6 {
        score = score + (if vul {
            750
        } else {
            500
        });
    } else if level == 7 {
        score = score + (if vul {
            1500
        } else {
            1000
        });
    }
    let overtrick_value: i32 = if doubled {
        if vul {
            200
        } else {
            100
        }
    } else {
        trick_value
    };
    score + overtricks * overtrick_value
}

/// A score of a contract that makes (tricks at least level plus six) is
/// positive.
pub proof fn lemma_made_score_positive(level: int, denom_idx: int, tricks: int, vul: bool)
    requires
        1 <= level <= 7,
        tricks >= level + 6,
    ensures
        calculate_score_spec(level, denom_idx, tricks, vul, false) > 0,
{
    let overtricks = tricks - (level + 6);
    let trick_value: int = if denom_idx == 0 || denom_idx == 1 || denom_idx == 2 {
        30
    } else {
        20
    };
    assert(overtricks * trick_value >= 0) by (nonlinear_arith)
        requires
            overtricks >= 0,
            trick_value > 0,
    ;
    assert(level * trick_value >= trick_value) by (nonlinear_arith)
        requires
            level >= 1,
            trick_value > 0,
    ;
}

// ---------------------------------------------------------------------------
// Best contract of a side
// ---------------------------------------------------------------------------

/// The seat row a side's candidate declarer index stands for: rows 0
/// and 1 are North and South, rows 2 and 3 East and West.
pub open spec fn side_row(is_ns: bool, di: int) -> int {
    if is_ns {
        di
    } else {
        di + 2
    }
}

/// The declarer row, denomination and level of linear candidate `c` in
/// the scan order: declarer first, then denomination, then level.
pub open spec fn cand_row(is_ns: bool, c: int) -> int {
    side_row(is_ns, c / 35)
}

pub open spec fn cand_denom(c: int) -> int {
    (c % 35) / 7
}

pub open spec fn cand_level(c: int) -> int {
    (c % 7) + 1
}

/// Whether candidate `c` makes: the declarer takes at least level plus
/// six tricks.
pub open spec fn cand_makes(t: [[u8; 5]; 4], is_ns: bool, c: int) -> bool {
    t@[cand_row(is_ns, c)]@[cand_denom(c)] >= cand_level(c) + 6
}

pub open spec fn cand_score(t: [[u8; 5]; 4], is_ns: bool, vul: bool, c: int) -> int {
    calculate_score_spec(
        cand_level(c),
        cand_denom(c),
        t@[cand_row(is_ns, c)]@[cand_denom(c)] as int,
        vul,
        false,
    )
}

/// The scan over all 70 candidate contracts of a side, keeping the
/// first candidate with the strictly highest score; `best_c` is -1
/// while none makes.
pub open spec fn best_fold(
    t: [[u8; 5]; 4],
    is_ns: bool,
    vul: bool,
    c: nat,
    best_c: int,
    best_s: int,
) -> (int, int)
    decreases 70 - c,
{
    if c >= 70 {
        (best_c, best_s)
    } else if cand_makes(t, is_ns, c as int) && cand_score(t, is_ns, vul, c as int) > best_s {
        best_fold(t, is_ns, vul, c + 1, c as int, cand_score(t, is_ns, vul, c as int))
    } else {
        best_fold(t, is_ns, vul, c + 1, best_c, best_s)
    }
}

pub open spec fn best_contract_fold(t: [[u8; 5]; 4], is_ns: bool, vul: bool) -> (int, int) {
    best_fold(t, is_ns, vul, 0, -1, i32::MIN as int)
}

/// The display text of candidate `c`: level, denomination letters, and
/// the declarer's seat letter.
pub open spec fn cand_string(is_ns: bool, c: int) -> Seq<char> {
    let denom: Seq<char> = {
        let d = cand_denom(c);
        if d == 0 {
            "NT"@
        } else if d == 1 {
            "S"@
        } else if d == 2 {
            "H"@
        } else if d == 3 {
            "D"@
        } else {
            "C"@
        }
    };
    let seat: Seq<char> = {
        let row = cand_row(is_ns, c);
        if row == 0 {
            "N"@
        } else if row == 1 {
            "S"@
        } else if row == 2 {
            "E"@
        } else {
            "W"@
        }
    };
    dec_spec(cand_level(c)) + denom + " by "@ + seat
}

/// What the side's best-contract search returns: the first candidate
/// with the highest positive score, or `Pass` and zero when nothing
/// makes.
pub open spec fn best_contract_result(t: [[u8; 5]; 4], is_ns: bool, vul: bool) -> (Seq<char>, int) {
    let f = best_contract_fold(t, is_ns, vul);
    if f.0 < 0 {
        ("Pass"@, 0)
    } else {
        (cand_string(is_ns, f.0), f.1)
    }
}

proof fn lemma_best_fold_props(
    t: [[u8; 5]; 4],
    is_ns: bool,
    vul: bool,
    c: nat,
    best_c: int,
    best_s: int,
)
    requires
        best_c >= 0 ==> best_s > 0,
        best_c < 0 ==> best_s == i32::MIN,
    ensures
        ({
            let f = best_fold(t, is_ns, vul, c, best_c, best_s);
            (f.0 >= 0 ==> f.1 > 0) && (f.0 < 0 ==> f.1 == i32::MIN)
        }),
    decreases 70 - c,
{
    if c < 70 {
        if cand_makes(t, is_ns, c as int) && cand_score(t, is_ns, vul, c as int) > best_s {
            lemma_made_score_positive(
                cand_level(c as int),
                cand_denom(c as int),
                t@[cand_row(is_ns, c as int)]@[cand_denom(c as int)] as int,
                vul,
            );
            lemma_best_fold_props(
                t,
                is_ns,
                vul,
                c + 1,
                c as int,
                cand_score(t, is_ns, vul, c as int),
            );
        } else {
            lemma_best_fold_props(t, is_ns, vul, c + 1, best_c, best_s);
        }
    }
}

impl DdResults {
    /// Finds the highest-scoring makeable contract of one side,
    /// scanning declarers, denominations and levels in order and
    /// keeping the first strict maximum; `Pass` and zero when nothing
    /// makes.
    pub fn best_contract_for_side(&self, is_ns: bool, declarer_vul: bool, defender_vul: bool) -> (r:
        (String, i32))
        ensures
            r.0@ == best_contract_result(self.tricks, is_ns, declarer_vul).0,
            r.1 == best_contract_result(self.tricks, is_ns, declarer_vul).1,
            r.1 >= 0,
    {
        let mut best_c: i32 = -1;
        let mut best_s: i32 = i32::MIN;
        let mut c: usize = 0;
        while c < 70
            invariant
                c <= 70,
                best_c >= 0 ==> best_s > 0,
                best_c < 0 ==> best_s == i32::MIN,
                best_c < 70,
                best_fold(self.tricks, is_ns, declarer_vul, 0, -1, i32::MIN as int) == best_fold(
                    self.tricks,
                    is_ns,
                    declarer_vul,
                    c as nat,
                    best_c as int,
                    best_s as int,
                ),
            decreases 70 - c,
        {
            let di = c / 35;
            let row = if is_ns {
                di
            } else {
                di + 2
            };
            let denom = (c % 35) / 7;
            let level = (c % 7) + 1;
            let tr = self.tricks[row][denom];
            proof {
                assert(cand_row(is_ns, c as int) == row as int);
                assert(cand_denom(c as int) == denom as int);
                assert(cand_level(c as int) == level as int);
                assert(tr == self.tricks@[row as int]@[denom as int]);
            }
            if tr as usize >= level + 6 {
                let sc = calculate_score(level as u8, denom, tr, declarer_vul, false);
                proof {
                    lemma_made_score_positive(level as int, denom as int, tr as int, declarer_vul);
                }
                if sc > best_s {
                    best_s = sc;
                    best_c = c as i32;
                }
            }
            c += 1;
        }
        proof {
            lemma_best_fold_props(self.tricks, is_ns, declarer_vul, 0, -1, i32::MIN as int);
        }
        if best_c < 0 {
            let mut out: Vec<char> = Vec::new();
            crate::text::push_str_chars(&mut out, "Pass");
            (crate::text::chars_to_string(&out), 0)
        } else {
            let bc = best_c as usize;
            let mut out: Vec<char> = Vec::new();
            let level = (bc % 7) + 1;
            crate::text::push_dec_u64(&mut out, level as u64);
            let denom = (bc % 35) / 7;
            if denom == 0 {
                crate::text::push_str_chars(&mut out, "NT");
            } else if denom == 1 {
                crate::text::push_str_chars(&mut out, "S");
            } else if denom == 2 {
                crate::text::push_str_chars(&mut out, "H");
            } else if denom == 3 {
                crate::text::push_str_chars(&mut out, "D");
            } else {
                crate::text::push_str_chars(&mut out, "C");
            }
            crate::text::push_str_chars(&mut out, " by ");
            let di = bc / 35;
            let row = if is_ns {
                di
            } else {
                di + 2
            };
            if row == 0 {
                crate::text::push_str_chars(&mut out, "N");
            } else if row == 1 {
                crate::text::push_str_chars(&mut out, "S");
            } else if row == 2 {
                crate::text::push_str_chars(&mut out, "E");
            } else {
                crate::text::push_str_chars(&mut out, "W");
            }
            proof {
                assert(out@ =~= cand_string(is_ns, best_c as int));
            }
            (crate::text::chars_to_string(&out), best_s)
        }
    }

    /// Estimates the par result: each side's best contract is compared
    /// and the stronger side plays; the defending side's score is
    /// negated.  A best-effort estimate, not a full competitive-bidding
    /// par search.
    pub fn par_score(&self, vul_ns: bool, vul_ew: bool) -> (r: (String, i32))
        ensures
            ({
                let ns = best_contract_result(self.tricks, true, vul_ns);
                let ew = best_contract_result(self.tricks, false, vul_ew);
                if ns.1 >= -ew.1 {
                    r.0@ == ns.0 && r.1 == ns.1
                } else {
                    r.0@ == ew.0 && r.1 == -ew.1
                }
            }),
    {
        let (ns_contract, ns_score) = self.best_contract_for_side(true, vul_ns, vul_ew);
        let (ew_contract, ew_score) = self.best_contract_for_side(false, vul_ew, vul_ns);
        if ns_score >= -ew_score {
            (ns_contract, ns_score)
        } else {
            (ew_contract, -ew_score)
        }
    }
}

// ---------------------------------------------------------------------------
// Rendering the trick tables
// ---------------------------------------------------------------------------

/// One row of the OptimumResultTable value: the seat letter and five
/// trick counts, tab-separated.
pub open spec fn opt_row_spec(t: [[u8; 5]; 4], i: int) -> Seq<char> {
    let seat: Seq<char> = if i == 0 {
        "N"@
    } else if i == 1 {
        "S"@
    } else if i == 2 {
        "E"@
    } else {
        "W"@
    };
    seat + "\t"@ + dec_spec(t@[i]@[0] as int) + "\t"@ + dec_spec(t@[i]@[1] as int) + "\t"@
        + dec_spec(t@[i]@[2] as int) + "\t"@ + dec_spec(t@[i]@[3] as int) + "\t"@ + dec_spec(
        t@[i]@[4] as int,
    )
}

/// The OptimumResultTable tag value: a header row and one row per seat,
/// joined by a literal backslash-n pair.
pub open spec fn opt_table_spec(t: [[u8; 5]; 4]) -> Seq<char> {
    "NT\tS\tH\tD\tC"@ + "\\n"@ + opt_row_spec(t, 0) + "\\n"@ + opt_row_spec(t, 1) + "\\n"@
        + opt_row_spec(t, 2) + "\\n"@ + opt_row_spec(t, 3)
}

/// A trick count right-aligned to two columns.
pub open spec fn pad2_spec(v: int) -> Seq<char> {
    if v < 10 {
        " "@ + dec_spec(v)
    } else {
        dec_spec(v)
    }
}

/// One row of the human-readable table.
pub open spec fn display_row_spec(t: [[u8; 5]; 4], i: int) -> Seq<char> {
    let seat: Seq<char> = if i == 0 {
        "N"@
    } else if i == 1 {
        "S"@
    } else if i == 2 {
        "E"@
    } else {
        "W"@
    };
    "  "@ + seat + "    "@ + pad2_spec(t@[i]@[0] as int) + "  "@ + pad2_spec(t@[i]@[1] as int)
        + "  "@ + pad2_spec(t@[i]@[2] as int) + "  "@ + pad2_spec(t@[i]@[3] as int) + "  "@
        + pad2_spec(t@[i]@[4] as int) + "\n"@
}

/// The human-readable trick table.
pub open spec fn display_table_spec(t: [[u8; 5]; 4]) -> Seq<char> {
    "       NT   S   H   D   C\n"@ + display_row_spec(t, 0) + display_row_spec(t, 1)
        + display_row_spec(t, 2) + display_row_spec(t, 3)
}

#[verifier::rlimit(100)]
#[verifier::spinoff_prover]
fn push_opt_row(out: &mut Vec<char>, t: &[[u8; 5]; 4], i: usize)
    requires
        i < 4,
    ensures
        final(out)@ == old(out)@ + opt_row_spec(*t, i as int),
{
    if i == 0 {
        crate::text::push_str_chars(out, "N");
    } else if i == 1 {
        crate::text::push_str_chars(out, "S");
    } else if i == 2 {
        crate::text::push_str_chars(out, "E");
    } else {
        crate::text::push_str_chars(out, "W");
    }
    let row = &t[i];
    crate::text::push_str_chars(out, "\t");
    crate::text::push_dec_u64(out, row[0] as u64);
    crate::text::push_str_chars(out, "\t");
    crate::text::push_dec_u64(out, row[1] as u64);
    crate::text::push_str_chars(out, "\t");
    crate::text::push_dec_u64(out, row[2] as u64);
    crate::text::push_str_chars(out, "\t");
    crate::text::push_dec_u64(out, row[3] as u64);
    crate::text::push_str_chars(out, "\t");
    crate::text::push_dec_u64(out, row[4] as u64);
    proof {
        assert(final(out)@ =~= old(out)@ + opt_row_spec(*t, i as int));
    }
}

fn push_pad2(out: &mut Vec<char>, v: u8)
    ensures
        final(out)@ == old(out)@ + pad2_spec(v as int),
{
    if v < 10 {
        crate::text::push_str_chars(out, " ");
    }
    crate::text::push_dec_u64(out, v as u64);
    proof {
        assert(final(out)@ =~= old(out)@ + pad2_spec(v as int));
    }
}

#[verifier::rlimit(80)]
fn push_display_row(out: &mut Vec<char>, t: &[[u8; 5]; 4], i: usize)
    requires
        i < 4,
    ensures
        final(out)@ == old(out)@ + display_row_spec(*t, i as int),
{
    crate::text::push_str_chars(out, "  ");
    if i == 0 {
        crate::text::push_str_chars(out, "N");
    } else if i == 1 {
        crate::text::push_str_chars(out, "S");
    } else if i == 2 {
        crate::text::push_str_chars(out, "E");
    } else {
        crate::text::push_str_chars(out, "W");
    }
    crate::text::push_str_chars(out, "    ");
    let row = &t[i];
    push_pad2(out, row[0]);
    crate::text::push_str_chars(out, "  ");
    push_pad2(out, row[1]);
    crate::text::push_str_chars(out, "  ");
    push_pad2(out, row[2]);
    crate::text::push_str_chars(out, "  ");
    push_pad2(out, row[3]);
    crate::text::push_str_chars(out, "  ");
    push_pad2(out, row[4]);
    crate::text::push_str_chars(out, "\n");
    proof {
        assert(final(out)@ =~= old(out)@ + display_row_spec(*t, i as int));
    }
}

impl DdResults {
    /// Renders the results as the OptimumResultTable tag value.
    pub fn to_optimum_result_table(&self) -> (r: String)
        ensures
            r@ == opt_table_spec(self.tricks),
    {
        let mut out: Vec<char> = Vec::new();
        crate::text::push_str_chars(&mut out, "NT\tS\tH\tD\tC");
        crate::text::push_str_chars(&mut out, "\\n");
        push_opt_row(&mut out, &self.tricks, 0);
        crate::text::push_str_chars(&mut out, "\\n");
        push_opt_row(&mut out, &self.tricks, 1);
        crate::text::push_str_chars(&mut out, "\\n");
        push_opt_row(&mut out, &self.tricks, 2);
        crate::text::push_str_chars(&mut out, "\\n");
        push_opt_row(&mut out, &self.tricks, 3);
        proof {
            assert(out@ =~= opt_table_spec(self.tricks));
        }
        crate::text::chars_to_string(&out)
    }

    /// Renders the results as a human-readable table.
    pub fn to_display_table(&self) -> (r: String)
        ensures
            r@ == display_table_spec(self.tricks),
    {
        let mut out: Vec<char> = Vec::new();
        crate::text::push_str_chars(&mut out, "       NT   S   H   D   C\n");
        push_display_row(&mut out, &self.tricks, 0);
        push_display_row(&mut out, &self.tricks, 1);
        push_display_row(&mut out, &self.tricks, 2);
        push_display_row(&mut out, &self.tricks, 3);
        proof {
            assert(out@ =~= display_table_spec(self.tricks));
        }
        crate::text::chars_to_string(&out)
    }
}

// ---------------------------------------------------------------------------
// Board ranges
// ---------------------------------------------------------------------------

/// A malformed board-range expression: a piece with more than one dash,
/// or a piece or bound that is no number; each holds the offending text.
#[derive(Debug)]
pub enum RangeError {
    InvalidRange(String),
    InvalidNumberInRange(String),
    InvalidBoardNumber(String),
}

/// The mathematical image of a range error.
pub enum RangeErrSpec {
    Range(Seq<char>),
    NumberInRange(Seq<char>),
    BoardNumber(Seq<char>),
}

/// Index of the first dash at or after `from`, or the length.
pub open spec fn first_dash(s: Seq<char>, from: nat) -> nat
    decreases s.len() - from,
{
    if from >= s.len() {
        s.len()
    } else if s[from as int] == '-' {
        from
    } else {
        first_dash(s, from + 1)
    }
}

proof fn lemma_first_dash_at(s: Seq<char>, from: nat, idx: nat)
    requires
        from <= idx <= s.len(),
        forall|j: int| from <= j < idx ==> s[j] != '-',
        idx == s.len() || s[idx as int] == '-',
    ensures
        first_dash(s, from) == idx,
    decreases idx - from,
{
    if from < idx {
        lemma_first_dash_at(s, from + 1, idx);
    }
}

/// The board numbers `a` through `b` inclusive, or none when `a > b`.
pub open spec fn range_expand(a: int, b: int) -> Seq<u32> {
    if a > b {
        Seq::empty()
    } else {
        Seq::new((b - a + 1) as nat, |i: int| (a + i) as u32)
    }
}

/// What one trimmed piece of a range expression yields: a dash piece is
/// the inclusive range of its two bounds, any other piece one number.
pub open spec fn parse_piece_spec(p: Seq<char>) -> Result<Seq<u32>, RangeErrSpec> {
    let d = first_dash(p, 0);
    if d < p.len() {
        let d2 = first_dash(p, d + 1);
        if d2 < p.len() {
            Err(RangeErrSpec::Range(p))
        } else {
            let left = p.subrange(0, d as int);
            let right = p.subrange(d + 1 as int, p.len() as int);
            match parse_u32_spec(trim_spec(left)) {
                Some(a) => match parse_u32_spec(trim_spec(right)) {
                    Some(b) => Ok(range_expand(a as int, b as int)),
                    None => Err(RangeErrSpec::NumberInRange(right)),
                },
                None => Err(RangeErrSpec::NumberInRange(left)),
            }
        }
    } else {
        match parse_u32_spec(p) {
            Some(n) => Ok(seq![n]),
            None => Err(RangeErrSpec::BoardNumber(p)),
        }
    }
}

/// The concatenation of the pieces from `i` on; the first failing piece
/// decides the error.
pub open spec fn parse_board_range_from(pieces: Seq<Seq<char>>, i: nat) -> Result<
    Seq<u32>,
    RangeErrSpec,
>
    decreases pieces.len() - i,
{
    if i >= pieces.len() {
        Ok(Seq::empty())
    } else {
        match parse_piece_spec(pieces[i as int]) {
            Ok(v) => match parse_board_range_from(pieces, i + 1) {
                Ok(vs) => Ok(v + vs),
                Err(e) => Err(e),
            },
            Err(e) => Err(e),
        }
    }
}

/// The board numbers a range expression such as `1-4`, `1,3,5` or
/// `1-4,7,9-12` names, in written order.
pub open spec fn parse_board_range_spec(s: Seq<char>) -> Result<Seq<u32>, RangeErrSpec> {
    parse_board_range_from(crate::driver::split_patterns_spec(s), 0)
}

fn parse_piece(piece: &String) -> (r: Result<Vec<u32>, RangeError>)
    ensures
        match r {
            Ok(v) => parse_piece_spec(piece@) == Ok::<Seq<u32>, RangeErrSpec>(v@),
            Err(e) => match e {
                RangeError::InvalidRange(t) => parse_piece_spec(piece@) == Err::<
                    Seq<u32>,
                    RangeErrSpec,
                >(RangeErrSpec::Range(t@)),
                RangeError::InvalidNumberInRange(t) => parse_piece_spec(piece@) == Err::<
                    Seq<u32>,
                    RangeErrSpec,
                >(RangeErrSpec::NumberInRange(t@)),
                RangeError::InvalidBoardNumber(t) => parse_piece_spec(piece@) == Err::<
                    Seq<u32>,
                    RangeErrSpec,
                >(RangeErrSpec::BoardNumber(t@)),
            },
        },
{
    let p = crate::text::str_to_chars(piece.as_str());
    let n = p.len();
    let mut d: usize = 0;
    while d < n && p[d] != '-'
        invariant
            p@ == piece@,
            d <= n,
            n == p@.len(),
            forall|j: int| 0 <= j < d ==> p@[j] != '-',
        decreases n - d,
    {
        d += 1;
    }
    proof {
        lemma_first_dash_at(p@, 0, d as nat);
    }
    if d < n {
        let mut d2: usize = d + 1;
        while d2 < n && p[d2] != '-'
            invariant
                p@ == piece@,
                d + 1 <= d2 <= n,
                n == p@.len(),
                forall|j: int| d + 1 <= j < d2 ==> p@[j] != '-',
            decreases n - d2,
        {
            d2 += 1;
        }
        proof {
            lemma_first_dash_at(p@, (d + 1) as nat, d2 as nat);
        }
        if d2 < n {
            return Err(RangeError::InvalidRange(crate::text::chars_to_string(&p)));
        }
        let left = crate::text::subrange_chars(&p, 0, d);
        let right = crate::text::subrange_chars(&p, d + 1, n);
        let a = match crate::text::parse_u32_chars(&crate::text::trim_chars(&left)) {
            Some(a) => a,
            None => {
                return Err(
                    RangeError::InvalidNumberInRange(crate::text::chars_to_string(&left)),
                );
            },
        };
        let b = match crate::text::parse_u32_chars(&crate::text::trim_chars(&right)) {
            Some(b) => b,
            None => {
                return Err(
                    RangeError::InvalidNumberInRange(crate::text::chars_to_string(&right)),
                );
            },
        };
        let mut v: Vec<u32> = Vec::new();
        if a <= b {
            let mut i: u32 = a;
            loop
                invariant_except_break
                    a <= i <= b,
                    v@ == range_expand(a as int, b as int).subrange(0, (i - a) as int),
                ensures
                    v@ == range_expand(a as int, b as int),
                decreases b - i,
            {
                v.push(i);
                proof {
                    assert(range_expand(a as int, b as int).subrange(0, (i - a + 1) as int)
                        =~= range_expand(a as int, b as int).subrange(0, (i - a) as int).push(i));
                }
                if i == b {
                    proof {
                        assert(range_expand(a as int, b as int).subrange(
                            0,
                            (b - a + 1) as int,
                        ) =~= range_expand(a as int, b as int));
                    }
                    break ;
                }
                i += 1;
            }
        } else {
            proof {
                assert(v@ =~= range_expand(a as int, b as int));
            }
        }
        Ok(v)
    } else {
        match crate::text::parse_u32_chars(&p) {
            Some(num) => {
                let mut v: Vec<u32> = Vec::new();
                v.push(num);
                proof {
                    assert(v@ =~= seq![num]);
                }
                Ok(v)
            },
            None => Err(RangeError::InvalidBoardNumber(crate::text::chars_to_string(&p))),
        }
    }
}

/// Parses a board-range expression into the list of board numbers it
/// names; the first malformed piece or bound is the error.
pub fn parse_board_range(range: &str) -> (r: Result<Vec<u32>, RangeError>)
    ensures
        match r {
            Ok(v) => parse_board_range_spec(range@) == Ok::<Seq<u32>, RangeErrSpec>(v@),
            Err(e) => match e {
                RangeError::InvalidRange(t) => parse_board_range_spec(range@) == Err::<
                    Seq<u32>,
                    RangeErrSpec,
                >(RangeErrSpec::Range(t@)),
                RangeError::InvalidNumberInRange(t) => parse_board_range_spec(range@) == Err::<
                    Seq<u32>,
                    RangeErrSpec,
                >(RangeErrSpec::NumberInRange(t@)),
                RangeError::InvalidBoardNumber(t) => parse_board_range_spec(range@) == Err::<
                    Seq<u32>,
                    RangeErrSpec,
                >(RangeErrSpec::BoardNumber(t@)),
            },
        },
{
    let pieces = crate::driver::split_patterns(range);
    let ghost pv = crate::driver::split_patterns_spec(range@);
    let mut out: Vec<u32> = Vec::new();
    let mut k: usize = 0;
    while k < pieces.len()
        invariant
            pv == crate::driver::split_patterns_spec(range@),
            pieces.deep_view() == pv,
            k <= pieces@.len(),
            pieces@.len() == pv.len(),
            parse_board_range_from(pv, 0) == match parse_board_range_from(pv, k as nat) {
                Ok(vs) => Ok::<Seq<u32>, RangeErrSpec>(out@ + vs),
                Err(e) => Err::<Seq<u32>, RangeErrSpec>(e),
            },
        decreases pieces@.len() - k,
    {
        proof {
            assert(pieces@[k as int]@ == pv[k as int]);
        }
        match parse_piece(&pieces[k]) {
            Ok(v) => {
                let ghost old_out = out@;
                crate::analyze::append_u32s(&mut out, &v);
                proof {
                    assert(old_out + (v@ + match parse_board_range_from(pv, (k + 1) as nat) {
                        Ok(vs) => vs,
                        Err(_) => Seq::empty(),
                    }) =~= (old_out + v@) + match parse_board_range_from(pv, (k + 1) as nat) {
                        Ok(vs) => vs,
                        Err(_) => Seq::empty(),
                    });
                }
            },
            Err(e) => {
                return Err(e);
            },
        }
        k += 1;
    }
    proof {
        assert(out@ =~= out@ + Seq::<u32>::empty());
    }
    Ok(out)
}

/// Appends every number of `other` to `out`.
pub fn append_u32s(out: &mut Vec<u32>, other: &Vec<u32>)
    ensures
        final(out)@ == old(out)@ + other@,
{
    let mut i: usize = 0;
    while i < other.len()
        invariant
            i <= other@.len(),
            out@ == old(out)@ + other@.subrange(0, i as int),
        decreases other@.len() - i,
    {
        out.push(other[i]);
        proof {
            assert(old(out)@ + other@.subrange(0, i + 1 as int) =~= (old(out)@ + other@.subrange(
                0,
                i as int,
            )).push(other@[i as int]));
        }
        i += 1;
    }
    proof {
        assert(other@.subrange(0, other@.len() as int) =~= other@);
    }
}

// ---------------------------------------------------------------------------
// Inserting result tags into record text
// ---------------------------------------------------------------------------

/// The results of a board number; the last entry wins when a number
/// repeats.
pub open spec fn dd_lookup(results: Seq<(u32, DdResults)>, num: u32) -> Option<DdResults>
    decreases results.len(),
{
    if results.len() == 0 {
        None
    } else if results[results.len() - 1].0 == num {
        Some(results[results.len() - 1].1)
    } else {
        dd_lookup(results.drop_last(), num)
    }
}

fn find_dd(results: &Vec<(u32, DdResults)>, num: u32) -> (r: Option<usize>)
    ensures
        match r {
            Some(i) => i < results@.len() && dd_lookup(results@, num) == Some(results@[i as int].1),
            None => dd_lookup(results@, num) is None,
        },
{
    let mut i: usize = results.len();
    proof {
        assert(results@.subrange(0, results@.len() as int) =~= results@);
    }
    while i > 0
        invariant
            i <= results@.len(),
            dd_lookup(results@, num) == dd_lookup(results@.subrange(0, i as int), num),
        decreases i,
    {
        i -= 1;
        proof {
            assert(results@.subrange(0, i + 1).drop_last() =~= results@.subrange(0, i as int));
            assert(results@.subrange(0, i + 1).last() == results@[i as int]);
        }
        if results[i].0 == num {
            return Some(i);
        }
    }
    proof {
        assert(results@.subrange(0, 0) =~= Seq::<(u32, DdResults)>::empty());
    }
    None
}

/// The synthesized OptimumResultTable tag line of one board's results.
pub open spec fn opt_line_spec(dd: DdResults) -> Seq<char> {
    "[OptimumResultTable \""@ + opt_table_spec(dd.tricks) + "\"]"@ + "\n"@
}

/// Index of the first double quote at or after `from`, or the length.
pub open spec fn first_quote(s: Seq<char>, from: nat) -> nat
    decreases s.len() - from,
{
    if from >= s.len() {
        s.len()
    } else if s[from as int] == '"' {
        from
    } else {
        first_quote(s, from + 1)
    }
}

proof fn lemma_first_quote_at(s: Seq<char>, from: nat, idx: nat)
    requires
        from <= idx <= s.len(),
        forall|j: int| from <= j < idx ==> s[j] != '"',
        idx == s.len() || s[idx as int] == '"',
    ensures
        first_quote(s, from) == idx,
    decreases idx - from,
{
    if from < idx {
        lemma_first_quote_at(s, from + 1, idx);
    }
}

/// The board number read from between the first two quotes of a board
/// marker line.
pub open spec fn board_line_num(t: Seq<char>) -> Option<u32> {
    let q1 = first_quote(t, 0);
    if q1 < t.len() {
        let q2 = first_quote(t, q1 + 1);
        if q2 < t.len() {
            parse_u32_spec(t.subrange(q1 + 1 as int, q2 as int))
        } else {
            None
        }
    } else {
        None
    }
}

/// What is owed to the board that is ending: its result line, when it
/// has results and none was written yet.
pub open spec fn dd_flush(
    current: Option<u32>,
    inserted: bool,
    results: Seq<(u32, DdResults)>,
) -> Seq<char> {
    match current {
        Some(n) => if !inserted {
            match dd_lookup(results, n) {
                Some(dd) => opt_line_spec(dd),
                None => Seq::empty(),
            }
        } else {
            Seq::empty()
        },
        None => Seq::empty(),
    }
}

/// What one line of the source emits during result insertion, and the
/// `(current board, result written)` state after it.
pub open spec fn dd_step(
    l: Seq<char>,
    st: (Option<u32>, bool),
    results: Seq<(u32, DdResults)>,
) -> (Seq<char>, (Option<u32>, bool)) {
    let t = trim_spec(l);
    if has_prefix(t, "[Board "@) {
        let flush = dd_flush(st.0, st.1, results);
        let newst = match board_line_num(t) {
            Some(n) => (Some(n), false),
            None => st,
        };
        (flush + l + "\n"@, newst)
    } else if has_prefix(t, "[OptimumResultTable "@) {
        let emitted = match st.0 {
            Some(n) => match dd_lookup(results, n) {
                Some(dd) => opt_line_spec(dd),
                None => Seq::empty(),
            },
            None => Seq::empty(),
        };
        (emitted, (st.0, true))
    } else if has_prefix(t, "[Deal "@) && !st.1 {
        match st.0 {
            Some(n) => match dd_lookup(results, n) {
                Some(dd) => (opt_line_spec(dd) + l + "\n"@, (st.0, true)),
                None => (l + "\n"@, st),
            },
            None => (l + "\n"@, st),
        }
    } else {
        (l + "\n"@, st)
    }
}

pub open spec fn dd_from(
    lines: Seq<Seq<char>>,
    i: nat,
    st: (Option<u32>, bool),
    results: Seq<(u32, DdResults)>,
) -> Seq<char>
    decreases lines.len() - i,
{
    if i >= lines.len() {
        dd_flush(st.0, st.1, results)
    } else {
        let s = dd_step(lines[i as int], st, results);
        s.0 + dd_from(lines, i + 1, s.1, results)
    }
}

/// The record text with one OptimumResultTable tag per analysed board:
/// an existing tag is replaced in place, otherwise one is inserted
/// before the deal or, failing that, at the board's end.
pub open spec fn add_dd_tags_spec(content: Seq<char>, results: Seq<(u32, DdResults)>) -> Seq<
    char,
> {
    dd_from(lines_spec(content), 0, (None, false), results)
}

/// Inserts or replaces the OptimumResultTable tag of every board that
/// has results, copying all other lines.
fn dd_step_exec(
    line: &Vec<char>,
    current: Option<u32>,
    inserted: bool,
    results: &Vec<(u32, DdResults)>,
) -> (r: (Vec<char>, Option<u32>, bool))
    ensures
        r.0@ == dd_step(line@, (current, inserted), results@).0,
        (r.1, r.2) == dd_step(line@, (current, inserted), results@).1,
{
    let ghost spec_r = dd_step(line@, (current, inserted), results@);
    let mut out: Vec<char> = Vec::new();
    let mut current = current;
    let mut inserted = inserted;
    let t = crate::text::trim_chars(line);
    if crate::text::chars_have_str_prefix(&t, "[Board ") {
        // settle the previous board, then read the new number
        match current {
            Some(n) => {
                if !inserted {
                    match find_dd(results, n) {
                        Some(k) => {
                            push_opt_line(&mut out, &results[k].1);
                        },
                        None => {},
                    }
                }
            },
            None => {},
        }
        match parse_board_quote_num(&t) {
            Some(n) => {
                current = Some(n);
                inserted = false;
            },
            None => {},
        }
        crate::text::append_chars(&mut out, line);
        crate::text::push_str_chars(&mut out, "\n");
        proof {
            assert(out@ =~= spec_r.0);
        }
    } else if crate::text::chars_have_str_prefix(&t, "[OptimumResultTable ") {
        match current {
            Some(n) => {
                match find_dd(results, n) {
                    Some(k) => {
                        push_opt_line(&mut out, &results[k].1);
                    },
                    None => {},
                }
            },
            None => {},
        }
        inserted = true;
        proof {
            assert(out@ =~= spec_r.0);
        }
    } else if crate::text::chars_have_str_prefix(&t, "[Deal ") && !inserted {
        match current {
            Some(n) => {
                match find_dd(results, n) {
                    Some(k) => {
                        push_opt_line(&mut out, &results[k].1);
                        inserted = true;
                    },
                    None => {},
                }
            },
            None => {},
        }
        crate::text::append_chars(&mut out, line);
        crate::text::push_str_chars(&mut out, "\n");
        proof {
            assert(out@ =~= spec_r.0);
        }
    } else {
        crate::text::append_chars(&mut out, line);
        crate::text::push_str_chars(&mut out, "\n");
        proof {
            assert(out@ =~= spec_r.0);
        }
    }
    (out, current, inserted)
}

/// Inserts or replaces the OptimumResultTable tag of every board that
/// has results, copying all other lines.
pub fn add_dd_tags_to_pbn(content: &str, results: &Vec<(u32, DdResults)>) -> (r: String)
    ensures
        r@ == add_dd_tags_spec(content@, results@),
{
    let chars = crate::text::str_to_chars(content);
    let lines = crate::text::split_lines(&chars);
    let ghost ls = lines_spec(content@);
    let mut out: Vec<char> = Vec::new();
    let mut current: Option<u32> = None;
    let mut inserted = false;
    let mut i: usize = 0;
    while i < lines.len()
        invariant
            ls == lines.deep_view(),
            i <= lines@.len(),
            ls.len() == lines@.len(),
            dd_from(ls, 0, (None, false), results@) == out@ + dd_from(
                ls,
                i as nat,
                (current, inserted),
                results@,
            ),
        decreases lines@.len() - i,
    {
        proof {
            assert(lines@[i as int].deep_view() =~= lines@[i as int]@);
            assert(lines@[i as int]@ == ls[i as int]);
        }
        let (emitted, nc, ni) = dd_step_exec(&lines[i], current, inserted, results);
        crate::text::append_chars(&mut out, &emitted);
        current = nc;
        inserted = ni;
        i += 1;
    }
    match current {
        Some(n) => {
            if !inserted {
                match find_dd(results, n) {
                    Some(k) => {
                        push_opt_line(&mut out, &results[k].1);
                    },
                    None => {},
                }
            }
        },
        None => {},
    }
    crate::text::chars_to_string(&out)
}

/// Appends the synthesized result tag line of one board.
fn push_opt_line(out: &mut Vec<char>, dd: &DdResults)
    ensures
        final(out)@ == old(out)@ + opt_line_spec(*dd),
{
    crate::text::push_str_chars(out, "[OptimumResultTable \"");
    let table = dd.to_optimum_result_table();
    crate::text::push_str_chars(out, table.as_str());
    crate::text::push_str_chars(out, "\"]");
    crate::text::push_str_chars(out, "\n");
    proof {
        assert(final(out)@ =~= old(out)@ + opt_line_spec(*dd));
    }
}

/// Reads the number between the first two quotes of a trimmed board
/// marker line.
fn parse_board_quote_num(t: &Vec<char>) -> (r: Option<u32>)
    ensures
        r == board_line_num(t@),
{
    let n = t.len();
    let mut q1: usize = 0;
    while q1 < n && t[q1] != '"'
        invariant
            q1 <= n,
            n == t@.len(),
            forall|j: int| 0 <= j < q1 ==> t@[j] != '"',
        decreases n - q1,
    {
        q1 += 1;
    }
    proof {
        lemma_first_quote_at(t@, 0, q1 as nat);
    }
    if q1 >= n {
        return None;
    }
    let mut q2: usize = q1 + 1;
    while q2 < n && t[q2] != '"'
        invariant
            q1 + 1 <= q2 <= n,
            n == t@.len(),
            forall|j: int| q1 + 1 <= j < q2 ==> t@[j] != '"',
        decreases n - q2,
    {
        q2 += 1;
    }
    proof {
        lemma_first_quote_at(t@, (q1 + 1) as nat, q2 as nat);
    }
    if q2 >= n {
        return None;
    }
    let mid = crate::text::subrange_chars(t, q1 + 1, q2);
    crate::text::parse_u32_chars(&mid)
}

// ---------------------------------------------------------------------------
// Handing a deal to the solver
// ---------------------------------------------------------------------------

/// Whether every hand of a deal is empty.
pub open spec fn deal_is_empty_spec(b: Board) -> bool {
    crate::board::hand_pbn_spec(b.deal.north) == "..."@ && crate::board::hand_pbn_spec(b.deal.east)
        == "..."@ && crate::board::hand_pbn_spec(b.deal.south) == "..."@
        && crate::board::hand_pbn_spec(b.deal.west) == "..."@
}


/// Whether every suit of a hand is empty, which is exactly when its
/// compact notation is three dots.
fn hand_is_empty(h: &crate::board::Hand) -> (r: bool)
    ensures
        r == (crate::board::hand_pbn_spec(*h) == "..."@),
{
    let r = h.spades.as_str().unicode_len() == 0 && h.hearts.as_str().unicode_len() == 0
        && h.diamonds.as_str().unicode_len() == 0 && h.clubs.as_str().unicode_len() == 0;
    proof {
        reveal_strlit("...");
        reveal_strlit(".");
        if r {
            assert(crate::board::hand_pbn_spec(*h) =~= "..."@);
        } else {
            assert(crate::board::hand_pbn_spec(*h).len() > 3);
        }
    }
    r
}

/// The deal line handed to the double-dummy solver: the four hands from
/// North clockwise; a deal with no cards in any hand yields nothing.
pub fn build_solver_deal(b: &Board) -> (r: Option<String>)
    ensures
        match r {
            Some(s) => !deal_is_empty_spec(*b) && s@ == "N:"@ + crate::board::hand_pbn_spec(
                b.deal.north,
            ) + " "@ + crate::board::hand_pbn_spec(b.deal.east) + " "@
                + crate::board::hand_pbn_spec(b.deal.south) + " "@ + crate::board::hand_pbn_spec(
                b.deal.west,
            ),
            None => deal_is_empty_spec(*b),
        },
{
    let ne = hand_is_empty(&b.deal.north);
    let ee = hand_is_empty(&b.deal.east);
    let se = hand_is_empty(&b.deal.south);
    let we = hand_is_empty(&b.deal.west);
    if ne && ee && se && we {
        return None;
    }
    let mut out: Vec<char> = Vec::new();
    crate::text::push_str_chars(&mut out, "N:");
    crate::board::push_hand_pbn(&mut out, &b.deal.north);
    crate::text::push_str_chars(&mut out, " ");
    crate::board::push_hand_pbn(&mut out, &b.deal.east);
    crate::text::push_str_chars(&mut out, " ");
    crate::board::push_hand_pbn(&mut out, &b.deal.south);
    crate::text::push_str_chars(&mut out, " ");
    crate::board::push_hand_pbn(&mut out, &b.deal.west);
    proof {
        assert(out@ =~= "N:"@ + crate::board::hand_pbn_spec(b.deal.north) + " "@
            + crate::board::hand_pbn_spec(b.deal.east) + " "@ + crate::board::hand_pbn_spec(
            b.deal.south,
        ) + " "@ + crate::board::hand_pbn_spec(b.deal.west));
    }
    Some(crate::text::chars_to_string(&out))
}

} // verus!
