//! A leaderboard of bounded size with paid admission.
//!
//! A player pays to enter and gets an entry that waits for a score. Once the
//! score is submitted the entry is settled. When the board is full, a new
//! entrant takes the place of the settled entry with the lowest score.

use vstd::prelude::*;
use vstd::string::*;
use crate::identity::Identity;

pub mod laws;

verus! {

/// The number of ranks that the board publishes.
pub const RANKING_SIZE: usize = 100;

/// The number of entries that the board can hold: the published ranks and one
/// more for an entrant who has paid and not yet submitted a score.
pub const MAX_PLAYERS: usize = RANKING_SIZE + 1;

/// The number of characters that a stored username may have.
pub const USERNAME_MAX_CHARS: usize = 32;

/// What an entrant pays to the owner of the game before entering.
pub const ENTRY_FEE_LAMPORTS: u64 = 500_000_000;

/// One entry of the leaderboard.
#[derive(Clone, Debug)]
pub struct Player {
    /// The name shown for the player, at most `USERNAME_MAX_CHARS` characters
    /// when it was stored by `new_game`.
    pub username: String,
    pub pubkey: Identity,
    pub score: u64,
    /// True from the admission until the score is submitted.
    pub has_payed: bool,
}

/// What an entry holds, as plain values.
pub struct PlayerView {
    pub username: Seq<char>,
    pub pubkey: Identity,
    pub score: u64,
    pub has_payed: bool,
}

impl View for Player {
    type V = PlayerView;

    open spec fn view(&self) -> PlayerView {
        PlayerView {
            username: self.username@,
            pubkey: self.pubkey,
            score: self.score,
            has_payed: self.has_payed,
        }
    }
}

/// The leaderboard: its entries in the order in which they were admitted.
#[derive(Clone, Debug)]
pub struct Leaderboard {
    pub players: Vec<Player>,
}

impl View for Leaderboard {
    type V = Seq<PlayerView>;

    open spec fn view(&self) -> Seq<PlayerView> {
        Seq::new(self.players@.len(), |i: int| self.players@[i]@)
    }
}

impl Leaderboard {
    /// The board holds no more than `MAX_PLAYERS` entries.
    pub open spec fn wf(&self) -> bool {
        self@.len() <= MAX_PLAYERS
    }
}

/// Why a call on the leaderboard was rejected.
#[derive(Clone, Copy, Debug, PartialEq, Eq, Structural)]
pub enum AnchError {
    /// The caller has no entry that waits for a score.
    PlayerNotFound,
}

/// The first `USERNAME_MAX_CHARS` characters of a name, or all of it when it
/// is shorter.
pub open spec fn truncated_username(raw: Seq<char>) -> Seq<char> {
    if raw.len() > USERNAME_MAX_CHARS {
        raw.subrange(0, USERNAME_MAX_CHARS as int)
    } else {
        raw
    }
}

/// The entry that an admission creates.
pub open spec fn fresh_entry(user: Identity, raw_username: Seq<char>) -> PlayerView {
    PlayerView {
        username: truncated_username(raw_username),
        pubkey: user,
        score: 0,
        has_payed: true,
    }
}

/// Some entry is settled.
pub open spec fn has_settled(entries: Seq<PlayerView>) -> bool {
    exists|i: int| 0 <= i < entries.len() && !(#[trigger] entries[i]).has_payed
}

/// Entry `k` is settled, no settled entry has a lower score, and every
/// settled entry before it has a higher one.
pub open spec fn is_lowest_settled(entries: Seq<PlayerView>, k: int) -> bool {
    &&& 0 <= k < entries.len()
    &&& !entries[k].has_payed
    &&& forall|j: int|
        0 <= j < entries.len() && !(#[trigger] entries[j]).has_payed ==> entries[k].score
            <= entries[j].score
    &&& forall|j: int|
        0 <= j < k && !(#[trigger] entries[j]).has_payed ==> entries[k].score < entries[j].score
}

/// The position that a new entrant takes on a full board: that of the first
/// settled entry with the lowest score, or position 0 when no entry is
/// settled.
pub open spec fn eviction_index(entries: Seq<PlayerView>) -> int {
    if has_settled(entries) {
        choose|k: int| is_lowest_settled(entries, k)
    } else {
        0
    }
}

/// The entries after `user` has been admitted under `raw_username`.
pub open spec fn entered(entries: Seq<PlayerView>, user: Identity, raw_username: Seq<char>) -> Seq<
    PlayerView,
> {
    if entries.len() == MAX_PLAYERS {
        entries.update(eviction_index(entries), fresh_entry(user, raw_username))
    } else {
        entries.push(fresh_entry(user, raw_username))
    }
}

/// Entry `i` belongs to `user` and waits for a score.
pub open spec fn awaits_score(entries: Seq<PlayerView>, user: Identity, i: int) -> bool {
    0 <= i < entries.len() && entries[i].pubkey == user && entries[i].has_payed
}

/// Entry `i` is the first one of `user` that waits for a score.
pub open spec fn is_first_awaiting(entries: Seq<PlayerView>, user: Identity, i: int) -> bool {
    &&& awaits_score(entries, user, i)
    &&& forall|j: int| 0 <= j < i ==> !awaits_score(entries, user, j)
}

/// Some entry of `user` waits for a score.
pub open spec fn has_awaiting(entries: Seq<PlayerView>, user: Identity) -> bool {
    exists|i: int| awaits_score(entries, user, i)
}

/// The position of the first entry of `user` that waits for a score. It means
/// something only when there is one.
pub open spec fn first_awaiting(entries: Seq<PlayerView>, user: Identity) -> int {
    choose|i: int| is_first_awaiting(entries, user, i)
}

/// Entry `e` with `score` recorded and the entry settled.
pub open spec fn settled_entry(e: PlayerView, score: u64) -> PlayerView {
    PlayerView { username: e.username, pubkey: e.pubkey, score, has_payed: false }
}

/// The outcome of `user` submitting `score`: the first entry of `user` that
/// waits for a score is settled with it, and without such an entry the call
/// is rejected.
pub open spec fn submitted(entries: Seq<PlayerView>, user: Identity, score: u64) -> Result<
    Seq<PlayerView>,
    AnchError,
> {
    if has_awaiting(entries, user) {
        let i = first_awaiting(entries, user);
        Ok(entries.update(i, settled_entry(entries[i], score)))
    } else {
        Err(AnchError::PlayerNotFound)
    }
}

/// At most one position is that of the first settled entry with the lowest
/// score, so `eviction_index` is that position whenever there is one.
pub proof fn lemma_eviction_index_is(entries: Seq<PlayerView>, k: int)
    requires
        is_lowest_settled(entries, k),
    ensures
        has_settled(entries),
        eviction_index(entries) == k,
{
    let c = eviction_index(entries);
    assert(is_lowest_settled(entries, c));
    if c < k {
        assert(entries[k].score < entries[c].score);
    } else if k < c {
        assert(entries[c].score < entries[k].score);
    }
}

/// At most one position is that of the first entry of `user` that waits for a
/// score, so `first_awaiting` is that position whenever there is one.
pub proof fn lemma_first_awaiting_is(entries: Seq<PlayerView>, user: Identity, i: int)
    requires
        is_first_awaiting(entries, user, i),
    ensures
        has_awaiting(entries, user),
        first_awaiting(entries, user) == i,
{
    let c = first_awaiting(entries, user);
    assert(awaits_score(entries, user, i));
    assert(is_first_awaiting(entries, user, c));
}

/// Cuts a name down to its first `USERNAME_MAX_CHARS` characters.
pub fn truncate_username(raw: String) -> (username: String)
    ensures
        username@ == truncated_username(raw@),
        username@.len() <= USERNAME_MAX_CHARS,
        username@.len() == raw@.len() || username@.len() == USERNAME_MAX_CHARS,
{
    let count = raw.as_str().unicode_len();
    if count > USERNAME_MAX_CHARS {
        String::from_str(raw.as_str().substring_char(0, USERNAME_MAX_CHARS))
    } else {
        raw
    }
}

/// The first settled entry with the lowest score among the first `n + 1`
/// entries, from that among the first `n`: the entry at `n` takes its place
/// if it is settled and either is the first settled one or has a lower
/// score.
pub proof fn lemma_lowest_settled_step(entries: Seq<PlayerView>, n: int, lowest: Option<int>) -> (next:
    Option<int>)
    requires
        0 <= n < entries.len(),
        match lowest {
            None => !has_settled(entries.take(n)),
            Some(k) => is_lowest_settled(entries.take(n), k),
        },
    ensures
        next == if entries[n].has_payed {
            lowest
        } else if lowest is Some && entries[lowest->Some_0].score <= entries[n].score {
            lowest
        } else {
            Some(n)
        },
        match next {
            None => !has_settled(entries.take(n + 1)),
            Some(k) => is_lowest_settled(entries.take(n + 1), k),
        },
{
    let shorter = entries.take(n);
    let longer = entries.take(n + 1);
    assert forall|j: int| 0 <= j < n implies shorter[j] == longer[j] by {}
    let next = if entries[n].has_payed {
        lowest
    } else if lowest is Some && entries[lowest->Some_0].score <= entries[n].score {
        lowest
    } else {
        Some(n)
    };
    match next {
        None => {
            assert forall|j: int| 0 <= j < longer.len() implies (#[trigger] longer[j]).has_payed by {
                if j < n {
                    assert(shorter[j].has_payed);
                }
            }
        },
        Some(k) => {
            assert forall|j: int|
                0 <= j < longer.len() && !(#[trigger] longer[j]).has_payed implies longer[k].score
                <= longer[j].score by {
                if j < n {
                    assert(!shorter[j].has_payed);
                }
            }
            assert forall|j: int| 0 <= j < k && !(#[trigger] longer[j]).has_payed implies longer[k].score
                < longer[j].score by {
                assert(!shorter[j].has_payed);
            }
        },
    }
    next
}

/// Finds the position that a new entrant takes on a full board.
pub fn find_eviction_index(leaderboard: &Leaderboard) -> (index: usize)
    ensures
        index == eviction_index(leaderboard@),
        leaderboard.players.len() > 0 ==> index < leaderboard.players.len(),
{
    let ghost entries = leaderboard@;
    let mut lowest: Option<usize> = None;
    let mut i: usize = 0;
    while i < leaderboard.players.len()
        invariant
            i <= leaderboard.players.len(),
            entries == leaderboard@,
            match lowest {
                None => !has_settled(entries.take(i as int)),
                Some(k) => is_lowest_settled(entries.take(i as int), k as int),
            },
        decreases leaderboard.players.len() - i,
    {
        proof {
            let so_far = match lowest {
                None => None,
                Some(k) => Some(k as int),
            };
            lemma_lowest_settled_step(entries, i as int, so_far);
        }
        let candidate = &leaderboard.players[i];
        if !candidate.has_payed {
            let lower = match lowest {
                None => true,
                Some(k) => candidate.score < leaderboard.players[k].score,
            };
            if lower {
                lowest = Some(i);
            }
        }
        i += 1;
    }
    assert(entries.take(i as int) == entries);
    match lowest {
        None => 0,
        Some(k) => {
            proof {
                lemma_eviction_index_is(entries, k as int);
            }
            k
        },
    }
}

/// Empties the leaderboard.
pub fn initialise_leaderboard(leaderboard: &mut Leaderboard) -> (result: Result<(), AnchError>)
    ensures
        result is Ok,
        final(leaderboard)@ == Seq::<PlayerView>::empty(),
        final(leaderboard).wf(),
{
    leaderboard.players = Vec::new();
    Ok(())
}

/// Admits `user` under the given name, cut down to `USERNAME_MAX_CHARS`
/// characters. The new entry has score 0 and waits for a score. On a board
/// that holds `MAX_PLAYERS` entries it replaces the first settled entry with
/// the lowest score, or the entry at position 0 when none is settled; on any
/// other board it is added at the end.
///
/// The entrant is to have paid `ENTRY_FEE_LAMPORTS` before this is called.
pub fn new_game(leaderboard: &mut Leaderboard, user: Identity, username: String) -> (result: Result<
    (),
    AnchError,
>)
    ensures
        result is Ok,
        final(leaderboard)@ == entered(old(leaderboard)@, user, username@),
        old(leaderboard).wf() ==> final(leaderboard).wf(),
{
    let username = truncate_username(username);
    let player = Player { username, pubkey: user, score: 0, has_payed: true };
    if leaderboard.players.len() == MAX_PLAYERS {
        let index = find_eviction_index(leaderboard);
        leaderboard.players[index] = player;
    } else {
        leaderboard.players.push(player);
    }
    Ok(())
}

/// Records `score` for `user`: the first entry of `user` that waits for a
/// score takes it and is settled. Without such an entry the call is rejected
/// and the board stays as it is.
pub fn add_player_to_leaderboard(leaderboard: &mut Leaderboard, user: Identity, score: u64) -> (result:
    Result<(), AnchError>)
    ensures
        match submitted(old(leaderboard)@, user, score) {
            Ok(entries) => result is Ok && final(leaderboard)@ == entries,
            Err(e) => result == Err::<(), AnchError>(e) && *final(leaderboard) == *old(leaderboard),
        },
        final(leaderboard)@.len() == old(leaderboard)@.len(),
        old(leaderboard).wf() ==> final(leaderboard).wf(),
{
    let ghost entries = leaderboard@;
    let mut i: usize = 0;
    while i < leaderboard.players.len()
        invariant
            i <= leaderboard.players.len(),
            *leaderboard == *old(leaderboard),
            entries == leaderboard@,
            forall|j: int| 0 <= j < i ==> !awaits_score(entries, user, j),
        decreases leaderboard.players.len() - i,
    {
        assert(entries[i as int] == leaderboard.players[i as int]@);
        if leaderboard.players[i].pubkey == user && leaderboard.players[i].has_payed {
            proof {
                lemma_first_awaiting_is(entries, user, i as int);
            }
            leaderboard.players[i].score = score;
            leaderboard.players[i].has_payed = false;
            assert(leaderboard@ =~= entries.update(i as int, settled_entry(entries[i as int], score)));
            return Ok(());
        }
        i += 1;
    }
    assert(!has_awaiting(entries, user));
    Err(AnchError::PlayerNotFound)
}

} // verus!
