//! The analyzer's data files: which files are read, and how the games of
//! several files are merged into one list without repeats.

use array_tool::vec::Union;
use vstd::prelude::*;

use crate::server::api::internal_types::{game_view, Game};

verus! {

/// The games of one data file.
#[derive(Clone)]
pub struct Data {
    pub data: Vec<Game>,
}

/// A game by what equality compares.
pub type GameKey = (Seq<char>, Seq<char>, Option<Seq<char>>, i64);

/// The games of a list, each by what equality compares.
pub open spec fn game_views(s: Seq<Game>) -> Seq<GameKey> {
    s.map_values(|g: Game| game_view(g))
}

/// The list with every later repeat of an element left out: each element
/// stays where it first occurs.
pub open spec fn dedup<A>(s: Seq<A>) -> Seq<A>
    decreases s.len(),
{
    if s.len() == 0 {
        s
    } else {
        let d = dedup(s.drop_last());
        if d.contains(s.last()) {
            d
        } else {
            d.push(s.last())
        }
    }
}

/// All games of a list of files, file after file.
pub open spec fn all_games(ds: Seq<Data>) -> Seq<GameKey>
    decreases ds.len(),
{
    if ds.len() == 0 {
        Seq::empty()
    } else {
        all_games(ds.drop_last()) + game_views(ds.last().data@)
    }
}

/// Calls `array_tool::vec::Union::union` on two lists of games. As its source
/// shows, it appends `b` to a clone of `a` and keeps of equal games the first
/// (`Uniq::unique`); games are equal when their fields are (the derived
/// `PartialEq`), and a clone of a game has the same fields. The contract
/// claims that result by the games' fields.
#[verifier::external_body]
fn games_union(a: &Vec<Game>, b: Vec<Game>) -> (res: Vec<Game>)
    ensures
        game_views(res@) == dedup(game_views(a@) + game_views(b@)),
{
    a.union(b)
}

/// An element is in the list without repeats exactly when it is in the list.
pub proof fn lemma_dedup_contains<A>(s: Seq<A>, x: A)
    ensures
        dedup(s).contains(x) <==> s.contains(x),
    decreases s.len(),
{
    if s.len() > 0 {
        lemma_dedup_contains(s.drop_last(), x);
        let d = dedup(s.drop_last());
        if s.contains(x) {
            if x != s.last() {
                let i = choose|i: int| 0 <= i < s.len() && s[i] == x;
                assert(s.drop_last()[i] == x);
            }
        }
        if d.contains(x) && !d.contains(s.last()) {
            assert(d.push(s.last()).contains(x)) by {
                let i = choose|i: int| 0 <= i < d.len() && d[i] == x;
                assert(d.push(s.last())[i] == x);
            }
        }
        if !d.contains(s.last()) {
            assert(d.push(s.last())[d.len() as int] == s.last());
        }
        if s.drop_last().contains(x) {
            let i = choose|i: int| 0 <= i < s.drop_last().len() && s.drop_last()[i] == x;
            assert(s[i] == x);
        }
        assert(s[s.len() - 1] == s.last());
    }
}

/// The list without repeats holds no element twice.
pub proof fn lemma_dedup_no_duplicates<A>(s: Seq<A>)
    ensures
        dedup(s).no_duplicates(),
    decreases s.len(),
{
    if s.len() > 0 {
        lemma_dedup_no_duplicates(s.drop_last());
        let d = dedup(s.drop_last());
        if !d.contains(s.last()) {
            let e = d.push(s.last());
            assert forall|i: int, j: int| 0 <= i < e.len() && 0 <= j < e.len() && i != j implies e[i]
                != e[j] by {
                if i == d.len() as int {
                    assert(d[j] == e[j]);
                } else if j == d.len() as int {
                    assert(d[i] == e[i]);
                }
            }
        }
    }
}

/// A list that holds no element twice is its own list without repeats.
pub proof fn lemma_dedup_distinct<A>(s: Seq<A>)
    requires
        s.no_duplicates(),
    ensures
        dedup(s) == s,
    decreases s.len(),
{
    if s.len() > 0 {
        let p = s.drop_last();
        assert(p.no_duplicates());
        lemma_dedup_distinct(p);
        if p.contains(s.last()) {
            let i = choose|i: int| 0 <= i < p.len() && p[i] == s.last();
            assert(s[i] == s[s.len() - 1]);
        }
        assert(p.push(s.last()) =~= s);
    }
}

/// Leaving out repeats twice changes nothing more than doing it once.
pub proof fn lemma_dedup_idempotent<A>(s: Seq<A>)
    ensures
        dedup(dedup(s)) == dedup(s),
{
    lemma_dedup_no_duplicates(s);
    lemma_dedup_distinct(dedup(s));
}

/// Leaving out the repeats of a list before appending another, and then the
/// repeats of the whole, is the same as leaving out the repeats of the whole.
pub proof fn lemma_dedup_append<A>(a: Seq<A>, b: Seq<A>)
    ensures
        dedup(dedup(a) + b) == dedup(a + b),
    decreases b.len(),
{
    if b.len() == 0 {
        assert(dedup(a) + b =~= dedup(a));
        assert(a + b =~= a);
        lemma_dedup_idempotent(a);
    } else {
        let b1 = b.drop_last();
        lemma_dedup_append(a, b1);
        assert((dedup(a) + b).drop_last() =~= dedup(a) + b1);
        assert((a + b).drop_last() =~= a + b1);
        assert((dedup(a) + b).last() == b.last());
        assert((a + b).last() == b.last());
    }
}

/// Merges the games of several data files into one list in which no game
/// occurs twice: the games come file after file, each where it first occurs.
pub fn merge_data(data: Vec<Data>) -> (res: Data)
    ensures
        game_views(res.data@) == dedup(all_games(data@)),
        game_views(res.data@).no_duplicates(),
        forall|k: GameKey| game_views(res.data@).contains(k) <==> all_games(data@).contains(k),
{
    let ghost ds = data@;
    let mut composite: Vec<Game> = Vec::new();
    proof {
        assert(game_views(composite@) =~= dedup(all_games(ds.take(0))));
    }
    for d in it: data.into_iter()
        invariant
            ds == it.seq(),
            game_views(composite@) == dedup(all_games(ds.take(it.index() as int))),
    {
        let ghost before = ds.take(it.index() as int);
        let ghost now = ds.take(it.index() + 1);
        proof {
            assert(now.drop_last() =~= before);
            assert(now.last() == d);
            lemma_dedup_append(all_games(before), game_views(d.data@));
        }
        composite = games_union(&composite, d.data);
    }
    proof {
        assert(ds.take(ds.len() as int) =~= ds);
    }
    proof {
        lemma_dedup_no_duplicates(all_games(ds));
        assert forall|k: GameKey| game_views(composite@).contains(k) <==> all_games(ds).contains(k) by {
            lemma_dedup_contains(all_games(ds), k);
        }
    }
    Data { data: composite }
}

/// Merging the result of a merge once more gives it back unchanged.
pub proof fn lemma_merge_again(ds: Seq<Data>, merged: Data)
    requires
        game_views(merged.data@) == dedup(all_games(ds)),
    ensures
        dedup(all_games(seq![merged])) == game_views(merged.data@),
{
    let one = seq![merged];
    assert(one.drop_last() =~= Seq::<Data>::empty());
    assert(one.last() == merged);
    assert(all_games(one.drop_last()) == Seq::<GameKey>::empty());
    assert(all_games(one) =~= game_views(merged.data@));
    lemma_dedup_idempotent(all_games(ds));
}

/// Appending elements that the list already holds leaves its list without
/// repeats unchanged.
pub proof fn lemma_dedup_append_known<A>(a: Seq<A>, b: Seq<A>)
    requires
        forall|i: int| 0 <= i < b.len() ==> a.contains(#[trigger] b[i]),
    ensures
        dedup(a + b) == dedup(a),
    decreases b.len(),
{
    if b.len() == 0 {
        assert(a + b =~= a);
    } else {
        let b1 = b.drop_last();
        assert forall|i: int| 0 <= i < b1.len() implies a.contains(#[trigger] b1[i]) by {
            assert(b1[i] == b[i]);
        }
        lemma_dedup_append_known(a, b1);
        assert((a + b).drop_last() =~= a + b1);
        assert((a + b).last() == b[b.len() - 1]);
        assert(a.contains(b[b.len() - 1]));
        let x = b[b.len() - 1];
        let i = choose|i: int| 0 <= i < a.len() && a[i] == x;
        assert((a + b1)[i] == x);
        lemma_dedup_contains(a + b1, x);
    }
}

/// Merging two copies of merged data gives the merged data back.
pub proof fn lemma_merge_twice(ds: Seq<Data>, merged: Data)
    requires
        game_views(merged.data@) == dedup(all_games(ds)),
    ensures
        dedup(all_games(seq![merged, merged])) == game_views(merged.data@),
{
    let v = game_views(merged.data@);
    let two = seq![merged, merged];
    let one = seq![merged];
    assert(two.drop_last() =~= one);
    assert(one.drop_last() =~= Seq::<Data>::empty());
    assert(all_games(Seq::<Data>::empty()) == Seq::<GameKey>::empty());
    assert(all_games(one) =~= v);
    assert(all_games(two) =~= v + v);
    assert forall|i: int| 0 <= i < v.len() implies v.contains(#[trigger] v[i]) by {}
    lemma_dedup_append_known(v, v);
    lemma_dedup_no_duplicates(all_games(ds));
    lemma_dedup_distinct(v);
}

/// Whether a file with the given extension is a data file: its extension is
/// `json`.
pub fn is_data_file_extension(extension: &Option<String>) -> (yes: bool)
    ensures
        yes <==> (extension matches Some(e) && e@ == "json"@),
{
    match extension {
        Some(e) => {
            let json = "json".to_owned();
            *e == json
        },
        None => false,
    }
}

} // verus!
