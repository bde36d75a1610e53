//! A game as the data files hold it.

use vstd::prelude::*;

verus! {

/// A recorded game of a data file.
#[derive(Clone, PartialEq, Debug)]
pub struct Game {
    pub data_raw: String,
    pub hash: String,
    pub client: Option<String>,
    pub created_at: i64,
}

/// The value of a stored game that equality looks at: its fields, the texts
/// by their characters.
pub open spec fn game_view(g: Game) -> (Seq<char>, Seq<char>, Option<Seq<char>>, i64) {
    (
        g.data_raw@,
        g.hash@,
        match g.client {
            Some(c) => Some(c@),
            None => None,
        },
        g.created_at,
    )
}

} // verus!
