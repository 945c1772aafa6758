//! The ranking of best scores: a table of `CAPACITY` slots whose occupied prefix is kept
//! in descending order of score.

use crate::identity::{default_key, key_of, zero_bytes};
use anchor_lang::prelude::Pubkey;
use vstd::prelude::*;
use vstd::utf8::encode_utf8;

verus! {

/// Number of slots in the ranking.
pub const CAPACITY: usize = 20;

/// Width in bytes of the name kept with each entry.
pub const NAME_WIDTH: usize = 32;

/// What an entry says: who scored what, when, and under which name.
pub struct ScoreEntryView {
    pub player: Pubkey,
    pub score: u64,
    pub timestamp: i64,
    pub player_name: Seq<u8>,
}

/// One slot of the ranking. The name is a copy taken when the score came in; a later
/// change of the player's name does not reach it.
#[derive(Clone, Copy, Debug)]
pub struct ScoreEntry {
    pub player: Pubkey,
    pub score: u64,
    pub timestamp: i64,
    pub player_name: [u8; 32],
}

impl View for ScoreEntry {
    type V = ScoreEntryView;

    open spec fn view(&self) -> ScoreEntryView {
        ScoreEntryView {
            player: self.player,
            score: self.score,
            timestamp: self.timestamp,
            player_name: self.player_name@,
        }
    }
}

/// A name as an entry keeps it: the first `NAME_WIDTH` bytes, then zeros up to that width.
pub open spec fn padded_name(bytes: Seq<u8>) -> Seq<u8> {
    Seq::new(
        NAME_WIDTH as nat,
        |i: int|
            if i < bytes.len() {
                bytes[i]
            } else {
                0u8
            },
    )
}

/// The entry of a slot that holds no score.
pub open spec fn vacant_entry() -> ScoreEntryView {
    ScoreEntryView {
        player: key_of(zero_bytes()),
        score: 0,
        timestamp: 0,
        player_name: padded_name(Seq::empty()),
    }
}

impl ScoreEntry {
    /// Builds the entry for `score`, reached by `player` at `timestamp` under the name
    /// `player_name`, cut or padded to `NAME_WIDTH` bytes.
    pub fn new(player: Pubkey, score: u64, timestamp: i64, player_name: &str) -> (entry: ScoreEntry)
        ensures
            entry@ == (ScoreEntryView {
                player,
                score,
                timestamp,
                player_name: padded_name(encode_utf8(player_name@)),
            }),
    {
        let bytes = player_name.as_bytes();
        let len: usize = if bytes.len() < NAME_WIDTH {
            bytes.len()
        } else {
            NAME_WIDTH
        };
        let mut name_bytes = [0u8; 32];
        let mut i: usize = 0;
        while i < len
            invariant
                i <= len <= NAME_WIDTH,
                len <= bytes@.len(),
                forall|j: int| 0 <= j < i ==> name_bytes@[j] == bytes@[j],
                forall|j: int| i <= j < NAME_WIDTH ==> name_bytes@[j] == 0u8,
            decreases len - i,
        {
            name_bytes[i] = bytes[i];
            i += 1;
        }
        assert(name_bytes@ =~= padded_name(encode_utf8(player_name@)));
        ScoreEntry { player, score, timestamp, player_name: name_bytes }
    }
}

impl Default for ScoreEntry {
    fn default() -> (entry: ScoreEntry)
        ensures
            entry@ == vacant_entry(),
    {
        let entry = ScoreEntry {
            player: default_key(),
            score: 0,
            timestamp: 0,
            player_name: [0u8; 32],
        };
        assert(entry.player_name@ =~= padded_name(Seq::empty()));
        entry
    }
}

/// The ranking. Slots `[0, count)` hold the scores, best first; the slots behind them
/// are not part of it.
pub struct Leaderboard {
    pub top_scores: [ScoreEntry; 20],
    pub count: u32,
}

impl View for Leaderboard {
    type V = Seq<ScoreEntryView>;

    /// The occupied slots, best first.
    open spec fn view(&self) -> Seq<ScoreEntryView> {
        Seq::new(self.count as nat, |i: int| self.top_scores@[i]@)
    }
}

/// No entry is followed by one with a higher score.
pub open spec fn is_ranked(entries: Seq<ScoreEntryView>) -> bool {
    forall|i: int, j: int| 0 <= i <= j < entries.len() ==> entries[i].score >= entries[j].score
}

/// `rank` is where `score` goes: every entry before it scores at least as much, and the
/// entry at it, if there is one, scores less.
pub open spec fn is_rank(entries: Seq<ScoreEntryView>, score: u64, rank: int) -> bool {
    &&& 0 <= rank <= entries.len()
    &&& forall|j: int| 0 <= j < rank ==> entries[j].score >= score
    &&& rank < entries.len() ==> entries[rank].score < score
}

/// The index of the first entry that scores less than `score`, or the number of entries
/// if none does. An equal score stays in front: who came first ranks first.
pub open spec fn rank_of(entries: Seq<ScoreEntryView>, score: u64) -> int
    decreases entries.len(),
{
    if entries.len() == 0 || score > entries[0].score {
        0
    } else {
        1 + rank_of(entries.drop_first(), score)
    }
}

/// A score enters the ranking if it is not zero and either a slot is free or it beats
/// the last entry.
pub open spec fn qualifies(entries: Seq<ScoreEntryView>, score: u64) -> bool {
    score > 0 && (entries.len() < CAPACITY || score > entries[CAPACITY - 1].score)
}

/// The ranking after `entry` came in: unchanged if its score does not qualify, else with
/// `entry` at its rank and, where that makes one entry too many, without the last.
pub open spec fn with_score(entries: Seq<ScoreEntryView>, entry: ScoreEntryView) -> Seq<
    ScoreEntryView,
> {
    if qualifies(entries, entry.score) {
        let placed = entries.insert(rank_of(entries, entry.score), entry);
        if placed.len() > CAPACITY {
            placed.take(CAPACITY as int)
        } else {
            placed
        }
    } else {
        entries
    }
}

/// The ranking after every entry of `submitted` came in, in order, starting from `start`.
pub open spec fn with_scores(start: Seq<ScoreEntryView>, submitted: Seq<ScoreEntryView>) -> Seq<
    ScoreEntryView,
>
    decreases submitted.len(),
{
    if submitted.len() == 0 {
        start
    } else {
        with_score(with_scores(start, submitted.drop_last()), submitted.last())
    }
}

/// `rank_of` is a rank.
pub proof fn lemma_rank_of_is_rank(entries: Seq<ScoreEntryView>, score: u64)
    ensures
        is_rank(entries, score, rank_of(entries, score)),
    decreases entries.len(),
{
    if entries.len() == 0 || score > entries[0].score {
    } else {
        let rest = entries.drop_first();
        lemma_rank_of_is_rank(rest, score);
        let r = rank_of(rest, score);
        assert forall|j: int| 0 <= j < r + 1 implies entries[j].score >= score by {
            if j > 0 {
                assert(entries[j] == rest[j - 1]);
            }
        }
        if r + 1 < entries.len() {
            assert(entries[r + 1] == rest[r]);
        }
    }
}

/// There is one rank only: whatever is a rank is `rank_of`.
pub proof fn lemma_rank_is_unique(entries: Seq<ScoreEntryView>, score: u64, rank: int)
    requires
        is_rank(entries, score, rank),
    ensures
        rank == rank_of(entries, score),
{
    lemma_rank_of_is_rank(entries, score);
    let r = rank_of(entries, score);
    if rank < r {
        assert(entries[rank].score >= score);
    } else if r < rank {
        assert(entries[r].score >= score);
    }
}

/// One score more keeps a ranking a ranking: it stays within `CAPACITY` entries, and
/// stays in descending order if it was.
pub proof fn lemma_with_score_keeps_ranking(entries: Seq<ScoreEntryView>, entry: ScoreEntryView)
    requires
        entries.len() <= CAPACITY,
    ensures
        with_score(entries, entry).len() <= CAPACITY,
        with_score(entries, entry).len() >= entries.len(),
        is_ranked(entries) ==> is_ranked(with_score(entries, entry)),
{
    lemma_rank_of_is_rank(entries, entry.score);
    let r = rank_of(entries, entry.score);
    let placed = entries.insert(r, entry);
    entries.insert_ensures(r, entry);
    if qualifies(entries, entry.score) && is_ranked(entries) {
        assert forall|i: int, j: int| 0 <= i <= j < placed.len() implies placed[i].score
            >= placed[j].score by {
            if j < r {
            } else if j == r {
            } else {
                assert(placed[j] == entries[j - 1]);
                if i < r {
                    assert(placed[i] == entries[i]);
                } else if i == r {
                    assert(entries[r].score >= entries[j - 1].score);
                } else {
                    assert(placed[i] == entries[i - 1]);
                }
            }
        }
    }
}

/// Where a score that qualifies comes to stand in a ranking in descending order: at
/// its rank, which is a slot of the table. The entries before it stay, the entries
/// behind it move one slot back, and the table grows by one entry unless it was full, in
/// which case its last entry is gone.
pub proof fn lemma_with_score_places_entry(entries: Seq<ScoreEntryView>, entry: ScoreEntryView)
    requires
        entries.len() <= CAPACITY,
        is_ranked(entries),
        qualifies(entries, entry.score),
    ensures
        rank_of(entries, entry.score) < CAPACITY,
        with_score(entries, entry).len() == if entries.len() < CAPACITY {
            entries.len() + 1
        } else {
            CAPACITY as nat
        },
        with_score(entries, entry)[rank_of(entries, entry.score)] == entry,
        forall|i: int|
            0 <= i < rank_of(entries, entry.score) ==> with_score(entries, entry)[i] == entries[i],
        forall|i: int|
            rank_of(entries, entry.score) < i < with_score(entries, entry).len() ==> with_score(
                entries,
                entry,
            )[i] == entries[i - 1],
{
    lemma_rank_of_is_rank(entries, entry.score);
    entries.insert_ensures(rank_of(entries, entry.score), entry);
}

/// Whatever comes in, in whatever order, a ranking that starts within `CAPACITY`
/// entries and in descending order stays so.
pub proof fn lemma_with_scores_keeps_ranking(
    start: Seq<ScoreEntryView>,
    submitted: Seq<ScoreEntryView>,
)
    requires
        start.len() <= CAPACITY,
        is_ranked(start),
    ensures
        with_scores(start, submitted).len() <= CAPACITY,
        is_ranked(with_scores(start, submitted)),
    decreases submitted.len(),
{
    if submitted.len() > 0 {
        lemma_with_scores_keeps_ranking(start, submitted.drop_last());
        lemma_with_score_keeps_ranking(
            with_scores(start, submitted.drop_last()),
            submitted.last(),
        );
    }
}

/// A score that does not beat the last entry of a full ranking changes nothing, however
/// often it comes in.
pub proof fn lemma_unqualified_score_is_dropped(
    entries: Seq<ScoreEntryView>,
    entry: ScoreEntryView,
)
    requires
        entries.len() == CAPACITY,
        entry.score <= entries[CAPACITY - 1].score,
    ensures
        with_score(entries, entry) == entries,
        with_score(with_score(entries, entry), entry) == entries,
{
}

impl Leaderboard {
    /// The table holds no more scores than it has slots.
    pub open spec fn wf(&self) -> bool {
        self.count <= CAPACITY
    }

    /// Records that `player`, known as `player_name`, reached `score` at `timestamp`.
    ///
    /// A score of zero, or one that does not beat the last entry of a full table, leaves
    /// the table as it is. Any other score is placed behind the entries that score at
    /// least as much; the entries behind it move one slot back and, if the table was
    /// full, the last one leaves it.
    pub fn add_score(&mut self, player: Pubkey, score: u64, player_name: String, timestamp: i64)
        requires
            old(self).wf(),
        ensures
            final(self).wf(),
            final(self)@ == with_score(
                old(self)@,
                ScoreEntryView {
                    player,
                    score,
                    timestamp,
                    player_name: padded_name(encode_utf8(player_name@)),
                },
            ),
            forall|i: int|
                final(self).count <= i < CAPACITY ==> final(self).top_scores@[i]
                    == old(self).top_scores@[i],
            !qualifies(old(self)@, score) ==> *final(self) == *old(self),
            is_ranked(old(self)@) ==> is_ranked(final(self)@),
    {
        let count = self.count as usize;
        if score == 0 || (count >= CAPACITY && score <= self.top_scores[CAPACITY - 1].score) {
            return ;
        }
        let new_entry = ScoreEntry::new(player, score, timestamp, player_name.as_str());
        proof {
            lemma_with_score_keeps_ranking(old(self)@, new_entry@);
        }

        let mut insertion_index: usize = 0;
        while insertion_index < count && score <= self.top_scores[insertion_index].score
            invariant
                *self == *old(self),
                count == self.count <= CAPACITY,
                insertion_index <= count,
                forall|j: int| 0 <= j < insertion_index ==> self@[j].score >= score,
            decreases count - insertion_index,
        {
            insertion_index += 1;
        }
        proof {
            lemma_rank_is_unique(self@, score, insertion_index as int);
        }

        if insertion_index < CAPACITY {
            if count < CAPACITY {
                self.count += 1;
            }
            let new_count = self.count as usize;
            let ghost before = old(self).top_scores@;
            let mut i: usize = new_count - 1;
            while i > insertion_index
                invariant
                    insertion_index <= i < new_count <= CAPACITY,
                    self.count == new_count,
                    forall|k: int| 0 <= k <= i ==> self.top_scores@[k] == before[k],
                    forall|k: int| i < k < new_count ==> self.top_scores@[k] == before[k - 1],
                    forall|k: int| new_count <= k < CAPACITY ==> self.top_scores@[k] == before[k],
                decreases i,
            {
                self.top_scores[i] = self.top_scores[i - 1];
                i -= 1;
            }
            self.top_scores[insertion_index] = new_entry;
            assert(self@ =~= with_score(old(self)@, new_entry@));
        } else {
            let ghost placed = old(self)@.insert(CAPACITY as int, new_entry@);
            assert(placed.take(CAPACITY as int) =~= old(self)@);
        }
    }
}

/// An empty ranking: no score yet, every slot vacant.
pub fn initialize_leaderboard() -> (leaderboard: Leaderboard)
    ensures
        leaderboard.wf(),
        leaderboard@ == Seq::<ScoreEntryView>::empty(),
        is_ranked(leaderboard@),
        forall|i: int| 0 <= i < CAPACITY ==> leaderboard.top_scores@[i]@ == vacant_entry(),
{
    let leaderboard = Leaderboard { top_scores: [ScoreEntry::default(); 20], count: 0 };
    assert(leaderboard@ =~= Seq::<ScoreEntryView>::empty());
    leaderboard
}

} // verus!
