//! The abstract command surface of page-document rendering.  The
//! rendering itself is an external collaborator; the library holds the
//! layout choice and the options handed to it.
use vstd::prelude::*;

verus! {

/// The page layout of the rendered document.
#[derive(Clone, Copy, PartialEq, Eq, Structural, Debug, Default)]
pub enum Layout {
    /// Full hand diagram with bidding table and commentary.
    #[default]
    Analysis,
    /// Simplified layout for practice bidding.
    BiddingSheets,
    /// Four deals per page for declarer's planning practice.
    DeclarersPlan,
}

/// The abstract command surface of the rendering run.
pub struct Args {
    /// Input record file path.
    pub input: String,
    /// Optional output path for the document.
    pub output: Option<String>,
    /// The page layout.
    pub layout: Layout,
    /// Boards per page.
    pub boards_per_page: Option<u8>,
    /// Optional board range expression.
    pub board_range: Option<String>,
    /// Whether the bidding is hidden.
    pub hide_bidding: bool,
    /// Whether the play sequence is hidden.
    pub hide_play: bool,
    /// Whether commentary is hidden.
    pub hide_commentary: bool,
    /// Whether high-card points are shown.
    pub show_hcp: bool,
}

} // verus!
