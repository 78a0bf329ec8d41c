//! The scoreboard registry: validated registration under unique names,
//! sequential id allocation, the win/loss scoring rule, and ordered snapshots.

use vstd::prelude::*;
use crate::text::{is_blank, has_control, check_blank, check_has_control};
use vstd::string::StrSliceExecFns;

verus! {

/// The abstract record of one registered player. A registry abstracts to a
/// sequence of these; the player at position `i` holds id `i + 1`.
pub ghost struct PlayerData {
    pub name: Seq<char>,
    pub score: int,
}

/// Why a registration was rejected.
#[derive(Clone, Copy, PartialEq, Eq, Structural, Debug)]
pub enum ValidationError {
    /// The name is empty once trimmed of whitespace.
    EmptyName,
    /// The name has more than `NAME_LIMIT` characters.
    NameTooLong,
    /// The name contains a control character.
    InvalidCharacters,
    /// A registered player already bears exactly this name.
    DuplicateName,
}

/// Why a result could not be recorded.
#[derive(Clone, Copy, PartialEq, Eq, Structural, Debug)]
pub enum LookupError {
    /// The given id was never issued.
    UnknownPlayer,
}

/// The longest admissible player name, in characters.
pub const NAME_LIMIT: usize = 20;

/// A name the registry accepts alongside the players already on `board`:
/// not blank, within the length limit, free of control characters, and not
/// already taken.
pub open spec fn acceptable_name(name: Seq<char>, board: Seq<PlayerData>) -> bool {
    &&& !is_blank(name)
    &&& name.len() <= NAME_LIMIT
    &&& !has_control(name)
    &&& forall|i: int| 0 <= i < board.len() ==> (#[trigger] board[i]).name != name
}

/// The board after a win is recorded for the player with id `winner_id`:
/// the winner gains one point and every other player loses one.
pub open spec fn apply_win(board: Seq<PlayerData>, winner_id: int) -> Seq<PlayerData> {
    Seq::new(
        board.len(),
        |i: int|
            PlayerData {
                name: board[i].name,
                score: if i + 1 == winner_id {
                    board[i].score + 1
                } else {
                    board[i].score - 1
                },
            },
    )
}

/// `entries` is the full snapshot of `board`: one `(id, name, score)` triple
/// per player, in ascending id order.
pub open spec fn snapshot_matches(entries: Seq<(usize, String, i64)>, board: Seq<PlayerData>) -> bool {
    &&& entries.len() == board.len()
    &&& forall|i: int|
        0 <= i < board.len() ==> {
            &&& (#[trigger] entries[i]).0 == i + 1
            &&& entries[i].1@ == board[i].name
            &&& entries[i].2 == board[i].score
        }
}

/// `entries` is the name listing of `board`: one `(id, name)` pair per
/// player, in ascending id order.
pub open spec fn name_listing_matches(entries: Seq<(usize, String)>, board: Seq<PlayerData>) -> bool {
    &&& entries.len() == board.len()
    &&& forall|i: int|
        0 <= i < board.len() ==> {
            &&& (#[trigger] entries[i]).0 == i + 1
            &&& entries[i].1@ == board[i].name
        }
}

/// The registry of players. Names and scores sit at matching positions; the
/// player stored at position `i` holds id `i + 1`, so ids are sequential from
/// 1 and are never reused.
pub struct Scoreboard {
    names: Vec<String>,
    scores: Vec<i64>,
}

impl View for Scoreboard {
    type V = Seq<PlayerData>;

    closed spec fn view(&self) -> Seq<PlayerData> {
        Seq::new(
            self.names@.len() as nat,
            |i: int| PlayerData { name: self.names@[i]@, score: self.scores@[i] as int },
        )
    }
}

impl Scoreboard {
    /// Internal consistency: every player has exactly one name and one score,
    /// and no two players share a name.
    pub closed spec fn wf(&self) -> bool {
        &&& self.names@.len() == self.scores@.len()
        &&& forall|i: int, j: int|
            0 <= i < j < self.names@.len() ==> (#[trigger] self.names@[i])@ != (
            #[trigger] self.names@[j])@
    }

    /// An empty registry; the first registration will receive id 1.
    pub fn new() -> (board: Scoreboard)
        ensures
            board.wf(),
            board@ == Seq::<PlayerData>::empty(),
    {
        let board = Scoreboard { names: Vec::new(), scores: Vec::new() };
        proof {
            assert(board@ =~= Seq::<PlayerData>::empty());
        }
        board
    }

    /// How many players are registered.
    pub fn player_count(&self) -> (n: usize)
        ensures
            n == self@.len(),
    {
        self.names.len()
    }

    /// Registers a player under `name`. The checks run in order — blank,
    /// too long, control characters, duplicate — and the first failure is
    /// returned with the registry untouched. On success the player is added
    /// with the next sequential id (one past the count so far) and a score
    /// of zero.
    pub fn add_player(&mut self, name: String) -> (r: Result<usize, ValidationError>)
        requires
            old(self).wf(),
            old(self)@.len() < usize::MAX,
        ensures
            final(self).wf(),
            match r {
                Ok(id) => {
                    &&& acceptable_name(name@, old(self)@)
                    &&& id == old(self)@.len() + 1
                    &&& final(self)@ == old(self)@.push((PlayerData { name: name@, score: 0 }))
                },
                Err(ValidationError::EmptyName) => {
                    &&& is_blank(name@)
                    &&& final(self)@ == old(self)@
                },
                Err(ValidationError::NameTooLong) => {
                    &&& !is_blank(name@)
                    &&& name@.len() > NAME_LIMIT
                    &&& final(self)@ == old(self)@
                },
                Err(ValidationError::InvalidCharacters) => {
                    &&& !is_blank(name@)
                    &&& name@.len() <= NAME_LIMIT
                    &&& has_control(name@)
                    &&& final(self)@ == old(self)@
                },
                Err(ValidationError::DuplicateName) => {
                    &&& !is_blank(name@)
                    &&& name@.len() <= NAME_LIMIT
                    &&& !has_control(name@)
                    &&& exists|i: int|
                        0 <= i < old(self)@.len() && (#[trigger] old(self)@[i]).name == name@
                    &&& final(self)@ == old(self)@
                },
            },
    {
        if check_blank(name.as_str()) {
            return Err(ValidationError::EmptyName);
        }
        if name.as_str().unicode_len() > NAME_LIMIT {
            return Err(ValidationError::NameTooLong);
        }
        if check_has_control(name.as_str()) {
            return Err(ValidationError::InvalidCharacters);
        }
        let n = self.names.len();
        let mut i: usize = 0;
        while i < n
            invariant
                0 <= i <= n,
                n == self.names@.len(),
                *self == *old(self),
                old(self).wf(),
                old(self)@.len() < usize::MAX,
                !is_blank(name@),
                name@.len() <= NAME_LIMIT,
                !has_control(name@),
                forall|j: int| 0 <= j < i ==> (#[trigger] self.names@[j])@ != name@,
            decreases n - i,
        {
            if self.names[i] == name {
                proof {
                    assert(self@[i as int].name == name@);
                }
                return Err(ValidationError::DuplicateName);
            }
            i += 1;
        }
        proof {
            assert(forall|j: int| 0 <= j < old(self)@.len() ==> (#[trigger] old(self)@[j]).name != name@);
        }
        let id = n + 1;
        self.names.push(name);
        self.scores.push(0);
        proof {
            assert(self@ =~= old(self)@.push(
                (PlayerData { name: self.names@[n as int]@, score: 0 }),
            ));
        }
        Ok(id)
    }

    /// Records a win for the player with id `winner_id`: that player gains a
    /// point and every other player loses one. An id that was never issued is
    /// rejected before any score changes. The score bounds in the
    /// precondition only keep the one-point adjustments within `i64`.
    pub fn update_scores(&mut self, winner_id: usize) -> (r: Result<(), LookupError>)
        requires
            old(self).wf(),
            forall|i: int|
                0 <= i < old(self)@.len() ==> i64::MIN < (#[trigger] old(self)@[i]).score < i64::MAX,
        ensures
            final(self).wf(),
            match r {
                Ok(_) => {
                    &&& 1 <= winner_id <= old(self)@.len()
                    &&& final(self)@ == apply_win(old(self)@, winner_id as int)
                },
                Err(e) => {
                    &&& e == LookupError::UnknownPlayer
                    &&& !(1 <= winner_id <= old(self)@.len())
                    &&& final(self)@ == old(self)@
                },
            },
    {
        let n = self.scores.len();
        if winner_id == 0 || winner_id > n {
            return Err(LookupError::UnknownPlayer);
        }
        proof {
            assert forall|j: int|
                0 <= j < n implies i64::MIN < #[trigger] old(self).scores@[j] < i64::MAX by {
                assert(old(self)@[j].score == old(self).scores@[j] as int);
            }
        }
        let mut i: usize = 0;
        while i < n
            invariant
                0 <= i <= n,
                1 <= winner_id <= n,
                self.names@ == old(self).names@,
                self.scores@.len() == n,
                n == old(self).scores@.len(),
                old(self).wf(),
                forall|j: int|
                    0 <= j < n ==> i64::MIN < (#[trigger] old(self).scores@[j]) < i64::MAX,
                forall|j: int|
                    0 <= j < i ==> (#[trigger] self.scores@[j]) == (if j + 1 == winner_id {
                        old(self).scores@[j] + 1
                    } else {
                        old(self).scores@[j] - 1
                    }),
                forall|j: int| i <= j < n ==> (#[trigger] self.scores@[j]) == old(self).scores@[j],
            decreases n - i,
        {
            let s = self.scores[i];
            if i + 1 == winner_id {
                self.scores[i] = s + 1;
            } else {
                self.scores[i] = s - 1;
            }
            i += 1;
        }
        proof {
            assert(self@ =~= apply_win(old(self)@, winner_id as int));
        }
        Ok(())
    }

    /// The full standings, one `(id, name, score)` triple per player, in
    /// ascending id order. Reading leaves the registry untouched.
    pub fn snapshot_ordered_by_id(&self) -> (entries: Vec<(usize, String, i64)>)
        requires
            self.wf(),
        ensures
            snapshot_matches(entries@, self@),
    {
        let n = self.names.len();
        let mut entries: Vec<(usize, String, i64)> = Vec::new();
        let mut i: usize = 0;
        while i < n
            invariant
                0 <= i <= n,
                n == self.names@.len(),
                self.wf(),
                entries@.len() == i,
                forall|j: int|
                    0 <= j < i ==> {
                        &&& (#[trigger] entries@[j]).0 == j + 1
                        &&& entries@[j].1@ == self@[j].name
                        &&& entries@[j].2 == self@[j].score
                    },
            decreases n - i,
        {
            entries.push((i + 1, self.names[i].clone(), self.scores[i]));
            i += 1;
        }
        entries
    }

    /// The name listing, one `(id, name)` pair per player, in ascending id
    /// order. Reading leaves the registry untouched.
    pub fn snapshot_names_ordered_by_id(&self) -> (entries: Vec<(usize, String)>)
        requires
            self.wf(),
        ensures
            name_listing_matches(entries@, self@),
    {
        let n = self.names.len();
        let mut entries: Vec<(usize, String)> = Vec::new();
        let mut i: usize = 0;
        while i < n
            invariant
                0 <= i <= n,
                n == self.names@.len(),
                self.wf(),
                entries@.len() == i,
                forall|j: int|
                    0 <= j < i ==> {
                        &&& (#[trigger] entries@[j]).0 == j + 1
                        &&& entries@[j].1@ == self@[j].name
                    },
            decreases n - i,
        {
            entries.push((i + 1, self.names[i].clone()));
            i += 1;
        }
        entries
    }

    /// No two registered players ever share a name.
    pub proof fn lemma_names_distinct(&self)
        requires
            self.wf(),
        ensures
            forall|i: int, j: int|
                0 <= i < j < self@.len() ==> (#[trigger] self@[i]).name != (#[trigger] self@[j]).name,
    {
    }
}

/// Registering a name uses it up: once a player is added under `name`, that
/// name is no longer acceptable, so registering it again must fail as a
/// duplicate and leave the registry — and its size — unchanged.
pub proof fn lemma_duplicate_registration(board: Seq<PlayerData>, name: Seq<char>)
    requires
        acceptable_name(name, board),
    ensures
        !acceptable_name(name, board.push((PlayerData { name, score: 0 }))),
        exists|i: int|
            0 <= i < board.push((PlayerData { name, score: 0 })).len() && (#[trigger] board.push(
                (PlayerData { name, score: 0 }),
            )[i]).name == name,
{
    assert(board.push((PlayerData { name, score: 0 }))[board.len() as int].name == name);
}

/// Two wins in a row for the same player raise that player's score by exactly
/// two and lower every other score by exactly two, with all names unchanged.
pub proof fn lemma_two_wins(board: Seq<PlayerData>, winner_id: int)
    requires
        1 <= winner_id <= board.len(),
    ensures
        apply_win(apply_win(board, winner_id), winner_id).len() == board.len(),
        apply_win(apply_win(board, winner_id), winner_id)[winner_id - 1].score == board[winner_id
            - 1].score + 2,
        forall|i: int|
            0 <= i < board.len() && i != winner_id - 1 ==> apply_win(
                apply_win(board, winner_id),
                winner_id,
            )[i].score == board[i].score - 2,
        forall|i: int|
            0 <= i < board.len() ==> apply_win(apply_win(board, winner_id), winner_id)[i].name
                == board[i].name,
{
}

/// A recorded win widens the winner's lead over every other player by exactly
/// two points and leaves the gap between any two other players alone, so
/// standings move with win counts: by winning, a player pulls strictly ahead
/// of everyone they were level with or ahead of, and bystanders keep their
/// relative order.
pub proof fn lemma_win_widens_lead(board: Seq<PlayerData>, winner_id: int)
    requires
        1 <= winner_id <= board.len(),
    ensures
        forall|i: int|
            0 <= i < board.len() && i != winner_id - 1 ==> apply_win(board, winner_id)[winner_id
                - 1].score - (#[trigger] apply_win(board, winner_id)[i]).score == board[winner_id
                - 1].score - board[i].score + 2,
        forall|i: int|
            0 <= i < board.len() && i != winner_id - 1 && board[winner_id - 1].score
                >= board[i].score ==> apply_win(board, winner_id)[winner_id - 1].score > (
            #[trigger] apply_win(board, winner_id)[i]).score,
        forall|i: int, j: int|
            0 <= i < board.len() && 0 <= j < board.len() && i != winner_id - 1 && j != winner_id
                - 1 ==> (#[trigger] apply_win(board, winner_id)[i]).score - (
            #[trigger] apply_win(board, winner_id)[j]).score == board[i].score - board[j].score,
{
}

/// Snapshot entries carry strictly ascending ids, whatever the insertion
/// history or the scores.
pub proof fn lemma_snapshot_sorted_by_id(entries: Seq<(usize, String, i64)>, board: Seq<PlayerData>)
    requires
        snapshot_matches(entries, board),
    ensures
        forall|i: int, j: int|
            0 <= i < j < entries.len() ==> (#[trigger] entries[i]).0 < (#[trigger] entries[j]).0,
{
}

/// Reading is idempotent: two snapshots of the same registry state agree
/// entry by entry.
pub proof fn lemma_snapshot_repeatable(
    first: Seq<(usize, String, i64)>,
    second: Seq<(usize, String, i64)>,
    board: Seq<PlayerData>,
)
    requires
        snapshot_matches(first, board),
        snapshot_matches(second, board),
    ensures
        first.len() == second.len(),
        forall|i: int|
            0 <= i < first.len() ==> {
                &&& (#[trigger] first[i]).0 == (#[trigger] second[i]).0
                &&& first[i].1@ == second[i].1@
                &&& first[i].2 == second[i].2
            },
{
}

/// Reading the name listing is idempotent in the same way.
pub proof fn lemma_name_listing_repeatable(
    first: Seq<(usize, String)>,
    second: Seq<(usize, String)>,
    board: Seq<PlayerData>,
)
    requires
        name_listing_matches(first, board),
        name_listing_matches(second, board),
    ensures
        first.len() == second.len(),
        forall|i: int|
            0 <= i < first.len() ==> {
                &&& (#[trigger] first[i]).0 == (#[trigger] second[i]).0
                &&& first[i].1@ == second[i].1@
            },
{
}

} // verus!
