//! The requests that the server answers, and the decisions behind each
//! answer. The server's handlers read and write the database; what they
//! answer, and what they store, is decided here.

pub mod input_types;
pub mod internal_types;
pub mod response_types;

use vstd::prelude::*;

use crate::libproxy::{accepted, hash_of_recording, hash_result, is_valid_recording};
use input_types::{RecordInput, WipeInput};
use response_types::{
    AliveResponse, GetConfigResponse, RecordResponse, ServerConfig, Stats, StatsResponse,
    WipeResponse,
};

verus! {

/// The analytics API.
#[derive(Default)]
pub struct Api;

/// The step of recording a game that follows the lookup of its hash.
pub enum RecordStep {
    /// Answer with this response; nothing is stored.
    Answer(RecordResponse),
    /// Store the game under this hash, stamped with the current time, and
    /// answer [`RecordResponse::Success`].
    Store(String),
}

impl Api {
    /// The API.
    pub fn new() -> (api: Api) {
        Api
    }

    /// The server is alive.
    pub fn alive(&self) -> (r: AliveResponse)
        ensures
            r == AliveResponse::Success,
    {
        AliveResponse::Success
    }

    /// The statistics for a count of recorded games (no count counts as 0).
    pub fn stats(&self, count: Option<i64>) -> (r: StatsResponse)
        ensures
            r == StatsResponse::Success(
                Stats {
                    recorded_games: match count {
                        Some(c) => c as usize,
                        None => 0usize,
                    },
                },
            ),
    {
        let c: i64 = match count {
            Some(c) => c,
            None => 0,
        };
        StatsResponse::Success(Stats { recorded_games: c as usize })
    }

    /// What the server tells of itself.
    pub fn get_config(&self, platform: String, version: String, rust_version: String) -> (r:
        GetConfigResponse)
        ensures
            r == GetConfigResponse::Success(ServerConfig { platform, version, rust_version }),
    {
        GetConfigResponse::Success(ServerConfig { platform, version, rust_version })
    }

    /// Whether a wipe is allowed: only when a wipe key is configured and the
    /// request gives that key. `Success` means that the games are to be wiped.
    pub fn wipe(&self, wipe_key: &Option<String>, input: &WipeInput) -> (r: WipeResponse)
        ensures
            (r == WipeResponse::Success) <==> (wipe_key matches Some(k) && k@ == input.key@),
            (r == WipeResponse::Unauthorized) <==> !(wipe_key matches Some(k) && k@ == input.key@),
    {
        match wipe_key {
            None => WipeResponse::Unauthorized,
            Some(k) => {
                if input.key == *k {
                    WipeResponse::Success
                } else {
                    WipeResponse::Unauthorized
                }
            },
        }
    }

    /// The first step of recording a game: a recording that cannot be hashed
    /// (also one outside the engine's domain) is refused as invalid; otherwise its hash (`Ok`) is to be looked up
    /// among the recorded games, and [`Api::record_after_lookup`] decides.
    pub fn record_start(&self, input: &RecordInput) -> (res: Result<String, RecordResponse>)
        ensures
            match hash_result(input.r@) {
                None => res matches Err(RecordResponse::InvalidGame),
                Some(h) => res matches Ok(x) && x@ == h,
            },
    {
        match hash_of_recording(input.r.as_str()) {
            None => Err(RecordResponse::InvalidGame),
            Some(h) => Ok(h),
        }
    }

    /// The second step of recording a game, once it is known whether a game
    /// with its hash is recorded: a known game is refused as existing, one
    /// that is not accepted (outside the engine's domain, or not validating)
    /// as invalid, and only a new accepted game is stored, under its hash.
    pub fn record_after_lookup(&self, input: &RecordInput, hash: String, already_recorded: bool) -> (step:
        RecordStep)
        ensures
            already_recorded ==> step matches RecordStep::Answer(RecordResponse::AlreadyExists),
            !already_recorded && !accepted(input.r@) ==> step matches RecordStep::Answer(
                RecordResponse::InvalidGame,
            ),
            !already_recorded && accepted(input.r@) ==> step == RecordStep::Store(hash),
            step is Store ==> !already_recorded && accepted(input.r@),
    {
        if already_recorded {
            RecordStep::Answer(RecordResponse::AlreadyExists)
        } else if !is_valid_recording(input.r.as_str()) {
            RecordStep::Answer(RecordResponse::InvalidGame)
        } else {
            RecordStep::Store(hash)
        }
    }

    /// The window of a page of games: the offset `page * page_size` and the
    /// page size, page 0 and an unlimited size by default. `None` when the
    /// offset overflows.
    pub fn page_window(&self, page: Option<i64>, page_size: Option<i64>) -> (w: Option<(i64, i64)>)
        ensures
            ({
                let p: int = match page {
                    Some(p) => p as int,
                    None => 0,
                };
                let s: int = match page_size {
                    Some(s) => s as int,
                    None => i64::MAX as int,
                };
                if i64::MIN <= p * s <= i64::MAX {
                    w == Some(((p * s) as i64, s as i64))
                } else {
                    w is None
                }
            }),
    {
        let page: i64 = match page {
            Some(p) => p,
            None => 0,
        };
        let page_size: i64 = match page_size {
            Some(s) => s,
            None => i64::MAX,
        };
        match page.checked_mul(page_size) {
            Some(offset) => Some((offset, page_size)),
            None => None,
        }
    }

    /// A recorded game as it is handed out: the stored client, always present.
    pub fn data_game(&self, data_raw: String, hash: String, client: String, created_at: i64) -> (g:
        response_types::Game)
        ensures
            g == (response_types::Game { data_raw, hash, client: Some(client), created_at }),
    {
        response_types::Game { data_raw, hash, client: Some(client), created_at }
    }
}

/// The table of recorded games, each as its recording and its hash.
pub type RecordTable = Seq<(Seq<char>, Seq<char>)>;

/// A sound table: no hash occurs twice, and every recording is accepted and
/// stored under its own hash.
pub open spec fn table_ok(t: RecordTable) -> bool {
    &&& forall|i: int, j: int| 0 <= i < j < t.len() ==> (#[trigger] t[i]).1 != (#[trigger] t[j]).1
    &&& forall|i: int|
        0 <= i < t.len() ==> accepted((#[trigger] t[i]).0) && hash_result(t[i].0) == Some(t[i].1)
}

/// Whether a hash is recorded in the table.
pub open spec fn table_has(t: RecordTable, h: Seq<char>) -> bool {
    exists|i: int| 0 <= i < t.len() && (#[trigger] t[i]).1 == h
}

/// Recording keeps the table sound: the request's recording hashes to `h`
/// (as `Api::record_start` answers), the lookup tells whether `h` is
/// recorded, and the row is stored only when `Api::record_after_lookup`
/// says so, which it does only for a new accepted game. Whatever is
/// answered, the table stays sound.
pub proof fn lemma_record_keeps_table(t: RecordTable, r: Seq<char>, h: Seq<char>, store: bool)
    requires
        table_ok(t),
        hash_result(r) == Some(h),
        store ==> !table_has(t, h) && accepted(r),
    ensures
        table_ok(if store {
            t.push((r, h))
        } else {
            t
        }),
{
    if store {
        let u = t.push((r, h));
        assert forall|i: int, j: int| 0 <= i < j < u.len() implies (#[trigger] u[i]).1 != (
        #[trigger] u[j]).1 by {
            if j == t.len() {
                assert(u[i] == t[i]);
                if t[i].1 == h {
                    assert(table_has(t, h));
                }
            } else {
                assert(u[i] == t[i]);
                assert(u[j] == t[j]);
            }
        }
        assert forall|i: int| 0 <= i < u.len() implies accepted((#[trigger] u[i]).0) && hash_result(
            u[i].0,
        ) == Some(u[i].1) by {
            if i < t.len() {
                assert(u[i] == t[i]);
            }
        }
    }
}

/// The count of recorded games that `Api::stats` reports for a table: the
/// table's number of rows, as the database counts them.
pub open spec fn reported_count(t: RecordTable) -> usize {
    (t.len() as i64) as usize
}

/// The table after the second step of recording a game: the row is added
/// when the game is stored, and kept as it was on any other answer.
pub open spec fn after_record(t: RecordTable, r: Seq<char>, step: RecordStep) -> RecordTable {
    match step {
        RecordStep::Store(h) => t.push((r, h@)),
        RecordStep::Answer(_) => t,
    }
}

/// The table after a wipe request: empty when the wipe is allowed, else as
/// it was.
pub open spec fn after_wipe(t: RecordTable, w: WipeResponse) -> RecordTable {
    match w {
        WipeResponse::Success => Seq::empty(),
        WipeResponse::Unauthorized => t,
    }
}

/// The reported count follows the answers of recording: a stored game (the
/// answer `Success`) adds one to it, and a game refused as existing or as
/// invalid leaves it as it was.
pub proof fn lemma_stats_follow_record(t: RecordTable, r: Seq<char>, step: RecordStep)
    requires
        t.len() < i64::MAX,
        t.len() < usize::MAX,
    ensures
        step is Store ==> reported_count(after_record(t, r, step)) == reported_count(t) + 1,
        step is Answer ==> reported_count(after_record(t, r, step)) == reported_count(t),
{
    if let RecordStep::Store(h) = step {
        assert(t.push((r, h@)).len() == t.len() + 1);
    }
}

/// The reported count follows the answers of wiping: after an allowed wipe
/// it is 0, and after a refused one it is as it was.
pub proof fn lemma_stats_follow_wipe(t: RecordTable, w: WipeResponse)
    requires
        t.len() <= i64::MAX,
        t.len() <= usize::MAX,
    ensures
        w == WipeResponse::Success ==> reported_count(after_wipe(t, w)) == 0,
        w == WipeResponse::Unauthorized ==> reported_count(after_wipe(t, w)) == reported_count(t),
{
}

} // verus!
