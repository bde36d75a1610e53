//! Which loaded games the analyzer keeps: those that the engine can replay
//! and validates.

use vstd::prelude::*;

use crate::game::Game;
use crate::libproxy::{accepted, is_valid_recording};

verus! {

/// The games of a list that the engine can replay and validates, in their
/// order.
pub open spec fn valid_games(s: Seq<Game>) -> Seq<Game>
    decreases s.len(),
{
    if s.len() == 0 {
        s
    } else {
        let p = valid_games(s.drop_last());
        if accepted(s.last().data_raw@) {
            p.push(s.last())
        } else {
            p
        }
    }
}

/// Keeps the games whose recordings the engine can replay and validates, in
/// their order. The two flags
/// are accepted and have no effect.
pub fn filter(data: Vec<Game>, allow_abandoned: bool, only_abandoned: bool) -> (res: Vec<Game>)
    ensures
        res@ == valid_games(data@),
{
    let ghost s = data@;
    let mut kept: Vec<Game> = Vec::new();
    for g in it: data.into_iter()
        invariant
            s == it.seq(),
            kept@ == valid_games(s.take(it.index() as int)),
    {
        proof {
            let now = s.take(it.index() + 1);
            assert(now.drop_last() =~= s.take(it.index() as int));
            assert(now.last() == g);
        }
        if is_valid_recording(g.data_raw.as_str()) {
            kept.push(g);
        }
    }
    proof {
        assert(s.take(s.len() as int) =~= s);
    }
    kept
}

/// Every kept game is accepted, and a game is kept exactly when it is in the
/// list and accepted.
pub proof fn lemma_valid_games_members(s: Seq<Game>, g: Game)
    ensures
        valid_games(s).contains(g) <==> (s.contains(g) && accepted(g.data_raw@)),
        forall|i: int| 0 <= i < valid_games(s).len() ==> accepted(#[trigger] valid_games(s)[i].data_raw@),
        valid_games(s).len() <= s.len(),
    decreases s.len(),
{
    if s.len() > 0 {
        let p = s.drop_last();
        lemma_valid_games_members(p, g);
        let v = valid_games(p);
        if accepted(s.last().data_raw@) {
            assert(v.push(s.last())[v.len() as int] == s.last());
            if v.contains(g) {
                let i = choose|i: int| 0 <= i < v.len() && v[i] == g;
                assert(v.push(s.last())[i] == g);
            }
            if v.push(s.last()).contains(g) && g != s.last() {
                let i = choose|i: int| 0 <= i < v.len() + 1 && v.push(s.last())[i] == g;
                assert(v[i] == g);
            }
            assert forall|i: int| 0 <= i < v.len() + 1 implies accepted(
                #[trigger] v.push(s.last())[i].data_raw@,
            ) by {
                if i < v.len() {
                    assert(v.push(s.last())[i] == v[i]);
                }
            }
        }
        if s.contains(g) && g != s.last() {
            let i = choose|i: int| 0 <= i < s.len() && s[i] == g;
            assert(p[i] == g);
        }
        if p.contains(g) {
            let i = choose|i: int| 0 <= i < p.len() && p[i] == g;
            assert(s[i] == g);
        }
        assert(s[s.len() - 1] == s.last());
    }
}

/// Filtering a second time keeps every game that the first kept.
pub proof fn lemma_filter_idempotent(s: Seq<Game>)
    ensures
        valid_games(valid_games(s)) == valid_games(s),
    decreases s.len(),
{
    if s.len() > 0 {
        let p = s.drop_last();
        lemma_filter_idempotent(p);
        if accepted(s.last().data_raw@) {
            let v = valid_games(p);
            assert(v.push(s.last()).drop_last() =~= v);
        }
    }
}

} // verus!
