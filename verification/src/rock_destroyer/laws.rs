//! What holds of the leaderboard over any admissions and submissions.

use vstd::prelude::*;
use vstd::utf8::encode_utf8;
use crate::encoding::lemma_utf8_length_bounds;
use crate::identity::Identity;
use crate::rock_destroyer::{
    PlayerView, AnchError, MAX_PLAYERS, USERNAME_MAX_CHARS, truncated_username, fresh_entry,
    has_settled, is_lowest_settled, eviction_index, entered, awaits_score, is_first_awaiting,
    has_awaiting, first_awaiting, settled_entry, submitted, lemma_eviction_index_is,
    lemma_first_awaiting_is, lemma_lowest_settled_step,
};

verus! {

/// A stored name has the characters of the name given, up to the first
/// `USERNAME_MAX_CHARS` of them: a longer name is cut to exactly that many,
/// a shorter one is kept whole.
pub proof fn lemma_truncated_username(raw: Seq<char>)
    ensures
        truncated_username(raw).len() == if raw.len() > USERNAME_MAX_CHARS {
            USERNAME_MAX_CHARS as nat
        } else {
            raw.len()
        },
        forall|i: int|
            0 <= i < truncated_username(raw).len() ==> truncated_username(raw)[i] == raw[i],
{
}

/// A stored name takes at most four bytes for each of its characters, so at
/// most `4 * USERNAME_MAX_CHARS` bytes.
pub proof fn lemma_stored_username_bytes(raw: Seq<char>)
    ensures
        encode_utf8(truncated_username(raw)).len() <= 4 * USERNAME_MAX_CHARS,
{
    lemma_utf8_length_bounds(truncated_username(raw));
}

proof fn lemma_lowest_settled_in_prefix(entries: Seq<PlayerView>, n: int) -> (lowest: Option<int>)
    requires
        0 <= n <= entries.len(),
    ensures
        match lowest {
            None => !has_settled(entries.take(n)),
            Some(k) => is_lowest_settled(entries.take(n), k),
        },
    decreases n,
{
    if n == 0 {
        None
    } else {
        let before = lemma_lowest_settled_in_prefix(entries, n - 1);
        lemma_lowest_settled_step(entries, n - 1, before)
    }
}

/// On a board with a settled entry, `eviction_index` is the position of the
/// first settled entry with the lowest score.
pub proof fn lemma_eviction_index_settled(entries: Seq<PlayerView>)
    requires
        has_settled(entries),
    ensures
        is_lowest_settled(entries, eviction_index(entries)),
{
    assert(entries.take(entries.len() as int) == entries);
    let lowest = lemma_lowest_settled_in_prefix(entries, entries.len() as int);
    lemma_eviction_index_is(entries, lowest->Some_0);
}

proof fn lemma_first_awaiting_before(entries: Seq<PlayerView>, user: Identity, i: int) -> (first: int)
    requires
        awaits_score(entries, user, i),
    ensures
        is_first_awaiting(entries, user, first),
        first <= i,
    decreases i,
{
    if exists|j: int| 0 <= j < i && awaits_score(entries, user, j) {
        let j = choose|j: int| 0 <= j < i && awaits_score(entries, user, j);
        lemma_first_awaiting_before(entries, user, j)
    } else {
        i
    }
}

/// When some entry of `user` waits for a score, `first_awaiting` is the
/// position of the first such entry.
pub proof fn lemma_first_awaiting_found(entries: Seq<PlayerView>, user: Identity)
    requires
        has_awaiting(entries, user),
    ensures
        is_first_awaiting(entries, user, first_awaiting(entries, user)),
{
    let i = choose|i: int| awaits_score(entries, user, i);
    let first = lemma_first_awaiting_before(entries, user, i);
    lemma_first_awaiting_is(entries, user, first);
}

/// An admission never makes a board longer than `MAX_PLAYERS` entries: a
/// board below that bound grows by one, a board at the bound keeps its
/// length.
pub proof fn lemma_admission_keeps_bound(
    entries: Seq<PlayerView>,
    user: Identity,
    raw_username: Seq<char>,
)
    requires
        entries.len() <= MAX_PLAYERS,
    ensures
        entered(entries, user, raw_username).len() == if entries.len() == MAX_PLAYERS {
            MAX_PLAYERS as nat
        } else {
            entries.len() + 1
        },
{
    if entries.len() == MAX_PLAYERS && has_settled(entries) {
        lemma_eviction_index_settled(entries);
    }
}

/// On a full board where every entry waits for a score, the new entrant
/// takes position 0 and the other entries stay.
pub proof fn lemma_full_board_replaces_first(
    entries: Seq<PlayerView>,
    user: Identity,
    raw_username: Seq<char>,
)
    requires
        entries.len() == MAX_PLAYERS,
        forall|i: int| 0 <= i < entries.len() ==> (#[trigger] entries[i]).has_payed,
    ensures
        entered(entries, user, raw_username) == entries.update(0, fresh_entry(user, raw_username)),
{
}

/// On a full board with a settled entry, the new entrant takes the place of
/// the first settled entry with the lowest score, and the other entries
/// stay. An entry that waits for a score is never replaced there.
pub proof fn lemma_full_board_replaces_lowest_settled(
    entries: Seq<PlayerView>,
    user: Identity,
    raw_username: Seq<char>,
)
    requires
        entries.len() == MAX_PLAYERS,
        has_settled(entries),
    ensures
        is_lowest_settled(entries, eviction_index(entries)),
        entered(entries, user, raw_username) == entries.update(
            eviction_index(entries),
            fresh_entry(user, raw_username),
        ),
        forall|i: int|
            0 <= i < entries.len() && (#[trigger] entries[i]).has_payed ==> entered(
                entries,
                user,
                raw_username,
            )[i] == entries[i],
{
    lemma_eviction_index_settled(entries);
}

/// The board after the given entrants, each an identity and a name, were
/// admitted in order.
pub open spec fn entered_all(entries: Seq<PlayerView>, entrants: Seq<(Identity, Seq<char>)>) -> Seq<
    PlayerView,
>
    decreases entrants.len(),
{
    if entrants.len() == 0 {
        entries
    } else {
        entered(entered_all(entries, entrants.drop_last()), entrants.last().0, entrants.last().1)
    }
}

/// Admissions on an empty board with no score submitted in between: the
/// board fills in order up to `MAX_PLAYERS` entries, and from then on stays
/// at that length, each further entrant taking position 0.
pub proof fn lemma_admissions_on_empty_board(entrants: Seq<(Identity, Seq<char>)>)
    ensures
        entered_all(Seq::empty(), entrants).len() == if entrants.len() <= MAX_PLAYERS {
            entrants.len()
        } else {
            MAX_PLAYERS as nat
        },
        forall|i: int|
            0 <= i < entered_all(Seq::empty(), entrants).len() ==> (#[trigger] entered_all(
                Seq::empty(),
                entrants,
            )[i]).has_payed,
        forall|i: int|
            0 <= i < entered_all(Seq::empty(), entrants).len() && (i > 0 || entrants.len()
                <= MAX_PLAYERS) ==> #[trigger] entered_all(Seq::empty(), entrants)[i]
                == fresh_entry(entrants[i].0, entrants[i].1),
        entrants.len() > MAX_PLAYERS ==> entered_all(Seq::empty(), entrants)[0] == fresh_entry(
            entrants.last().0,
            entrants.last().1,
        ),
    decreases entrants.len(),
{
    if entrants.len() > 0 {
        let earlier = entrants.drop_last();
        lemma_admissions_on_empty_board(earlier);
        let before = entered_all(Seq::empty(), earlier);
        if before.len() == MAX_PLAYERS {
            lemma_full_board_replaces_first(before, entrants.last().0, entrants.last().1);
        }
        assert forall|i: int| 0 <= i < earlier.len() implies earlier[i] == entrants[i] by {}
    }
}

/// A submission settles the first entry of the user that waits for a score,
/// with the score given, and leaves every other entry as it is.
pub proof fn lemma_submission_settles_first(entries: Seq<PlayerView>, user: Identity, score: u64)
    requires
        has_awaiting(entries, user),
    ensures
        is_first_awaiting(entries, user, first_awaiting(entries, user)),
        submitted(entries, user, score) is Ok,
        submitted(entries, user, score)->Ok_0.len() == entries.len(),
        submitted(entries, user, score)->Ok_0[first_awaiting(entries, user)] == settled_entry(
            entries[first_awaiting(entries, user)],
            score,
        ),
        forall|j: int|
            0 <= j < entries.len() && j != first_awaiting(entries, user) ==> submitted(
                entries,
                user,
                score,
            )->Ok_0[j] == entries[j],
{
    lemma_first_awaiting_found(entries, user);
}

/// A submission is rejected exactly when no entry of the user waits for a
/// score.
pub proof fn lemma_submission_rejected(entries: Seq<PlayerView>, user: Identity, score: u64)
    ensures
        submitted(entries, user, score) is Err <==> !has_awaiting(entries, user),
        submitted(entries, user, score) is Err ==> submitted(entries, user, score) == Err::<
            Seq<PlayerView>,
            AnchError,
        >(AnchError::PlayerNotFound),
{
}

/// After a submission was accepted, a second one by the same user is
/// rejected exactly when no other entry of that user was waiting for a
/// score.
pub proof fn lemma_second_submission(
    entries: Seq<PlayerView>,
    user: Identity,
    first_score: u64,
    second_score: u64,
)
    requires
        has_awaiting(entries, user),
    ensures
        submitted(submitted(entries, user, first_score)->Ok_0, user, second_score) is Err <==> (
        forall|j: int|
            j != first_awaiting(entries, user) ==> !awaits_score(entries, user, j)),
{
    lemma_submission_settles_first(entries, user, first_score);
    let i = first_awaiting(entries, user);
    let next = submitted(entries, user, first_score)->Ok_0;
    assert(!awaits_score(next, user, i));
    assert forall|j: int| j != i implies awaits_score(next, user, j) == awaits_score(
        entries,
        user,
        j,
    ) by {}
    if forall|j: int| j != i ==> !awaits_score(entries, user, j) {
        assert forall|j: int| !awaits_score(next, user, j) by {}
    } else {
        let j = choose|j: int| j != i && awaits_score(entries, user, j);
        assert(awaits_score(next, user, j));
    }
}

/// After an admission the entrant has an entry that waits for a score, so a
/// submission by the entrant is accepted.
pub proof fn lemma_admission_allows_submission(
    entries: Seq<PlayerView>,
    user: Identity,
    raw_username: Seq<char>,
    score: u64,
)
    ensures
        has_awaiting(entered(entries, user, raw_username), user),
        submitted(entered(entries, user, raw_username), user, score) is Ok,
{
    let next = entered(entries, user, raw_username);
    if entries.len() == MAX_PLAYERS {
        if has_settled(entries) {
            lemma_eviction_index_settled(entries);
        }
        assert(awaits_score(next, user, eviction_index(entries)));
    } else {
        assert(awaits_score(next, user, entries.len() as int));
    }
}

} // verus!
