//! Replicating a block of boards: the first block keeps the original
//! board text, every further block repeats the deals under fresh board
//! numbers with the standard dealer and vulnerability tables, and
//! virtual-board tags record what each copy replicates.
use vstd::prelude::*;
use crate::direction::direction_char_spec;
use crate::direction::direction_from_index_spec;
use crate::direction::standard_vul_table_spec;
use crate::direction::vulnerability_token_spec;
use crate::text::dec_spec;
use crate::text::ends_with_char;

verus! {

/// The abstract command surface of the block-replication run.
pub struct Args {
    /// Input record file path.
    pub input: String,
    /// Optional output path.
    pub output: Option<String>,
    /// Boards per block; the input board count when absent.
    pub block_size: Option<u32>,
    /// Number of blocks; enough to fill thirty-six boards when absent.
    pub block_count: Option<u32>,
    /// Whether a page document is rendered as well.
    pub pdf: bool,
}

/// The deal handed to filler boards past the input: each player holds
/// one whole suit.
pub fn filler_deal() -> (r: &'static str)
    ensures
        r@ == "N:AKQJT98765432... .AKQJT98765432.. ..AKQJT98765432. ...AKQJT98765432"@,
{
    "N:AKQJT98765432... .AKQJT98765432.. ..AKQJT98765432. ...AKQJT98765432"
}

/// The deal text of replicated board position `bib`: the extracted deal
/// of the source board, or the filler deal past the input.
pub open spec fn repl_deal_spec(deals: Seq<Seq<char>>, bib: int) -> Seq<char> {
    if bib < deals.len() {
        deals[bib]
    } else {
        "N:AKQJT98765432... .AKQJT98765432.. ..AKQJT98765432. ...AKQJT98765432"@
    }
}

pub open spec fn repl_bcflags_spec(bcflags: Seq<Seq<char>>, bib: int) -> Seq<char> {
    if bib < bcflags.len() {
        bcflags[bib]
    } else {
        Seq::empty()
    }
}

/// The first half of a generated tag block: the blank title tags, the
/// board number, the seats, the dealer, the vulnerability, the deal and
/// the blank result tags.
pub open spec fn repl_generated_head(deals: Seq<Seq<char>>, block_size: int, bd: int) -> Seq<
    char,
> {
    let bib = bd % block_size;
    "[Event \"\"]\n[Site \"\"]\n[Date \"\"]\n"@ + "[Board \""@ + dec_spec(bd + 1) + "\"]\n"@
        + "[West \"\"]\n[North \"\"]\n[East \"\"]\n[South \"\"]\n"@ + "[Dealer \""@ + seq![
        direction_char_spec(direction_from_index_spec(bd % 4)),
    ] + "\"]\n"@ + "[Vulnerable \""@ + vulnerability_token_spec(standard_vul_table_spec(bd % 16))
        + "\"]\n"@ + "[Deal \""@ + repl_deal_spec(deals, bib) + "\"]\n"@
        + "[Scoring \"\"]\n[Declarer \"\"]\n[Contract \"\"]\n[Result \"\"]\n"@
}

/// The second half of a generated tag block: the carried flags and the
/// virtual-board tags naming what the copy replicates.
pub open spec fn repl_generated_tail(bcflags: Seq<Seq<char>>, block_size: int, bd: int) -> Seq<
    char,
> {
    let block_num = bd / block_size;
    let bib = bd % block_size;
    let bcf = repl_bcflags_spec(bcflags, bib);
    (if bcf.len() > 0 {
        "[BCFlags \""@ + bcf + "\"]\n"@
    } else {
        Seq::<char>::empty()
    }) + "[VirtualBoard \""@ + dec_spec(bib + 1) + "\"]\n"@ + "[VirtualDealer \""@ + seq![
        direction_char_spec(direction_from_index_spec(bib % 4)),
    ] + "\"]\n"@ + "[VirtualVulnerable \""@ + vulnerability_token_spec(
        standard_vul_table_spec(bib % 16),
    ) + "\"]\n"@ + "[BlockNumber \""@ + dec_spec(block_num + 1) + "\"]\n"@ + "\n"@
}

/// The generated tag block of board `bd` (zero-based): standard tags,
/// the deal, and the virtual-board tags naming what it replicates.
pub open spec fn repl_generated_spec(
    deals: Seq<Seq<char>>,
    bcflags: Seq<Seq<char>>,
    block_size: int,
    bd: int,
) -> Seq<char> {
    repl_generated_head(deals, block_size, bd) + repl_generated_tail(bcflags, block_size, bd)
}

/// What board `bd` of the output holds: in the first block a source
/// board's text is kept as it stands, everywhere else the generated tag
/// block stands.
pub open spec fn repl_board_spec(
    sections: Seq<Seq<char>>,
    deals: Seq<Seq<char>>,
    bcflags: Seq<Seq<char>>,
    block_size: int,
    bd: int,
) -> Seq<char> {
    let block_num = bd / block_size;
    let bib = bd % block_size;
    if block_num == 0 && bib < sections.len() {
        let sec = sections[bib];
        sec + (if ends_with_char(sec, '\n') {
            Seq::<char>::empty()
        } else {
            "\n"@
        })
    } else {
        repl_generated_spec(deals, bcflags, block_size, bd)
    }
}

pub open spec fn repl_from(
    sections: Seq<Seq<char>>,
    deals: Seq<Seq<char>>,
    bcflags: Seq<Seq<char>>,
    block_size: int,
    bd: nat,
    total: nat,
) -> Seq<char>
    decreases total - bd,
{
    if bd >= total {
        Seq::empty()
    } else {
        repl_board_spec(sections, deals, bcflags, block_size, bd as int) + repl_from(
            sections,
            deals,
            bcflags,
            block_size,
            bd + 1,
            total,
        )
    }
}

/// The whole replicated output: the header, then every board of every
/// block in order.
pub open spec fn generate_replicated_spec(
    header: Seq<char>,
    sections: Seq<Seq<char>>,
    deals: Seq<Seq<char>>,
    bcflags: Seq<Seq<char>>,
    block_size: int,
    block_count: int,
) -> Seq<char> {
    header + repl_from(sections, deals, bcflags, block_size, 0, (block_size * block_count) as nat)
}

#[verifier::rlimit(100)]
#[verifier::spinoff_prover]
fn push_generated_head(out: &mut Vec<char>, deals: &Vec<String>, block_size: u32, bd: u32)
    requires
        block_size > 0,
        bd < u32::MAX,
    ensures
        final(out)@ == old(out)@ + repl_generated_head(
            deals.deep_view(),
            block_size as int,
            bd as int,
        ),
{
    let bib = bd % block_size;
    crate::text::push_str_chars(out, "[Event \"\"]\n[Site \"\"]\n[Date \"\"]\n");
    crate::text::push_str_chars(out, "[Board \"");
    crate::text::push_dec_u64(out, (bd as u64) + 1);
    crate::text::push_str_chars(out, "\"]\n");
    crate::text::push_str_chars(out, "[West \"\"]\n[North \"\"]\n[East \"\"]\n[South \"\"]\n");
    crate::text::push_str_chars(out, "[Dealer \"");
    crate::text::push_one_char(
        out,
        crate::direction::direction_char(crate::direction::standard_dealer((bd % 4) as usize)),
    );
    crate::text::push_str_chars(out, "\"]\n");
    crate::text::push_str_chars(out, "[Vulnerable \"");
    crate::text::push_str_chars(
        out,
        crate::direction::vulnerability_token(crate::direction::standard_vul((bd % 16) as usize)),
    );
    crate::text::push_str_chars(out, "\"]\n");
    crate::text::push_str_chars(out, "[Deal \"");
    if (bib as usize) < deals.len() {
        proof {
            assert(deals@[bib as int]@ == deals.deep_view()[bib as int]);
        }
        crate::text::push_str_chars(out, deals[bib as usize].as_str());
    } else {
        crate::text::push_str_chars(out, filler_deal());
    }
    crate::text::push_str_chars(out, "\"]\n");
    crate::text::push_str_chars(
        out,
        "[Scoring \"\"]\n[Declarer \"\"]\n[Contract \"\"]\n[Result \"\"]\n",
    );
    proof {
        assert((bd % 4) as int == bd as int % 4);
        assert((bd % 16) as int == bd as int % 16);
        assert(final(out)@ =~= old(out)@ + repl_generated_head(
            deals.deep_view(),
            block_size as int,
            bd as int,
        ));
    }
}

#[verifier::rlimit(100)]
#[verifier::spinoff_prover]
fn push_generated_tail(out: &mut Vec<char>, bcflags: &Vec<String>, block_size: u32, bd: u32)
    requires
        block_size > 0,
        bd < u32::MAX,
    ensures
        final(out)@ == old(out)@ + repl_generated_tail(
            bcflags.deep_view(),
            block_size as int,
            bd as int,
        ),
{
    let block_num = bd / block_size;
    let bib = bd % block_size;
    let has_bcf = (bib as usize) < bcflags.len() && bcflags[bib as usize].as_str().unicode_len()
        > 0;
    if has_bcf {
        proof {
            assert(bcflags@[bib as int]@ == bcflags.deep_view()[bib as int]);
        }
        crate::text::push_str_chars(out, "[BCFlags \"");
        crate::text::push_str_chars(out, bcflags[bib as usize].as_str());
        crate::text::push_str_chars(out, "\"]\n");
    }
    crate::text::push_str_chars(out, "[VirtualBoard \"");
    crate::text::push_dec_u64(out, (bib as u64) + 1);
    crate::text::push_str_chars(out, "\"]\n");
    crate::text::push_str_chars(out, "[VirtualDealer \"");
    crate::text::push_one_char(
        out,
        crate::direction::direction_char(crate::direction::standard_dealer((bib % 4) as usize)),
    );
    crate::text::push_str_chars(out, "\"]\n");
    crate::text::push_str_chars(out, "[VirtualVulnerable \"");
    crate::text::push_str_chars(
        out,
        crate::direction::vulnerability_token(crate::direction::standard_vul((bib % 16) as usize)),
    );
    crate::text::push_str_chars(out, "\"]\n");
    crate::text::push_str_chars(out, "[BlockNumber \"");
    crate::text::push_dec_u64(out, (block_num as u64) + 1);
    crate::text::push_str_chars(out, "\"]\n");
    crate::text::push_str_chars(out, "\n");
    proof {
        assert((bib % 4) as int == (bd as int % block_size as int) % 4);
        assert((bib % 16) as int == (bd as int % block_size as int) % 16);
        assert((bd / block_size) as int == bd as int / block_size as int);
        assert(final(out)@ =~= old(out)@ + repl_generated_tail(
            bcflags.deep_view(),
            block_size as int,
            bd as int,
        ));
    }
}

fn push_generated(
    out: &mut Vec<char>,
    deals: &Vec<String>,
    bcflags: &Vec<String>,
    block_size: u32,
    bd: u32,
)
    requires
        block_size > 0,
        bd < u32::MAX,
    ensures
        final(out)@ == old(out)@ + repl_generated_spec(
            deals.deep_view(),
            bcflags.deep_view(),
            block_size as int,
            bd as int,
        ),
{
    push_generated_head(out, deals, block_size, bd);
    push_generated_tail(out, bcflags, block_size, bd);
    proof {
        assert(final(out)@ =~= old(out)@ + repl_generated_spec(
            deals.deep_view(),
            bcflags.deep_view(),
            block_size as int,
            bd as int,
        ));
    }
}

/// Generates the replicated record: the header, the original boards of
/// the first block, and generated boards for every further position.
pub fn generate_replicated_pbn(
    header: &str,
    sections: &Vec<String>,
    deals: &Vec<String>,
    bcflags: &Vec<String>,
    block_size: u32,
    block_count: u32,
) -> (r: String)
    requires
        block_size > 0,
        block_size * block_count < u32::MAX,
    ensures
        r@ == generate_replicated_spec(
            header@,
            sections.deep_view(),
            deals.deep_view(),
            bcflags.deep_view(),
            block_size as int,
            block_count as int,
        ),
{
    let ghost secv = sections.deep_view();
    let ghost dealv = deals.deep_view();
    let ghost bcfv = bcflags.deep_view();
    let mut out: Vec<char> = Vec::new();
    crate::text::push_str_chars(&mut out, header);
    let total = block_size * block_count;
    let mut bd: u32 = 0;
    while bd < total
        invariant
            secv == sections.deep_view(),
            dealv == deals.deep_view(),
            bcfv == bcflags.deep_view(),
            block_size > 0,
            total == block_size * block_count,
            total < u32::MAX,
            bd <= total,
            generate_replicated_spec(
                header@,
                secv,
                dealv,
                bcfv,
                block_size as int,
                block_count as int,
            ) == out@ + repl_from(secv, dealv, bcfv, block_size as int, bd as nat, total as nat),
        decreases total - bd,
    {
        let block_num = bd / block_size;
        let bib = bd % block_size;
        let ghost before = out@;
        if block_num == 0 && (bib as usize) < sections.len() {
            proof {
                assert(sections@[bib as int]@ == secv[bib as int]);
            }
            let s = sections[bib as usize].as_str();
            crate::text::push_str_chars(&mut out, s);
            let n = s.unicode_len();
            if n == 0 || s.get_char(n - 1) != '\n' {
                out.push('\n');
                proof {
                    reveal_strlit("\n");
                    assert(out@ =~= before + (secv[bib as int] + "\n"@));
                }
            }
        } else {
            push_generated(&mut out, deals, bcflags, block_size, bd);
        }
        proof {
            assert(out@ =~= before + repl_board_spec(
                secv,
                dealv,
                bcfv,
                block_size as int,
                bd as int,
            ));
        }
        bd += 1;
    }
    proof {
        assert(out@ =~= out@ + repl_from(
            secv,
            dealv,
            bcfv,
            block_size as int,
            total as nat,
            total as nat,
        ));
    }
    crate::text::chars_to_string(&out)
}

} // verus!
