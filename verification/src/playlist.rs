//! Shaping the items of a playlist for the remote service: tracks go out in
//! batches of a hundred, and what comes back is numbered as it is listed.

use vstd::prelude::*;
use vstd::std_specs::iter::IteratorSpec;

verus! {

/// The service takes at most this many tracks in one request.
pub const PLAYLIST_BATCH: usize = 100;

/// In how many batches `count` tracks go out: one when there is none.
pub open spec fn batch_count(count: nat) -> nat {
    if count == 0 {
        1
    } else {
        ((count + PLAYLIST_BATCH - 1) / PLAYLIST_BATCH as int) as nat
    }
}

/// The batch at position `i`: the next hundred tracks, or what is left.
pub open spec fn batch_at<T>(tracks: Seq<T>, i: int) -> Seq<T> {
    tracks.subrange(
        PLAYLIST_BATCH * i,
        if PLAYLIST_BATCH * (i + 1) <= tracks.len() {
            PLAYLIST_BATCH * (i + 1)
        } else {
            tracks.len() as int
        },
    )
}

/// Splits the tracks that a playlist is to hold into the batches they are
/// sent in. The first batch replaces what the playlist held, also when it
/// is empty; each further batch is appended.
pub fn playlist_batches<T>(tracks: Vec<T>) -> (batches: Vec<Vec<T>>)
    ensures
        batches@.len() == batch_count(tracks@.len()),
        forall|i: int| 0 <= i < batches@.len() ==> (#[trigger] batches@[i])@ == batch_at(tracks@, i),
{
    let mut batches: Vec<Vec<T>> = Vec::new();
    let mut rest = tracks;
    while rest.len() > PLAYLIST_BATCH
        invariant
            PLAYLIST_BATCH * batches@.len() + rest@.len() == tracks@.len(),
            rest@ == tracks@.skip(PLAYLIST_BATCH * batches@.len()),
            batches@.len() > 0 ==> rest@.len() >= 1,
            forall|i: int|
                0 <= i < batches@.len() ==> (#[trigger] batches@[i])@ == batch_at(tracks@, i),
        decreases rest@.len(),
    {
        let ghost done = batches@.len() as int;
        let tail = rest.split_off(PLAYLIST_BATCH);
        assert(rest@ =~= batch_at(tracks@, done));
        assert(tail@ =~= tracks@.skip(PLAYLIST_BATCH * (done + 1)));
        batches.push(rest);
        rest = tail;
    }
    let ghost done = batches@.len() as int;
    assert(rest@ =~= batch_at(tracks@, done));
    batches.push(rest);
    batches
}

/// One item of a playlist as the service lists it.
#[derive(Debug)]
pub struct PlaylistEntry<T> {
    /// What the item plays, where the service says so.
    pub track: Option<T>,
    /// Whether the service says of the item that its kind is unknown.
    pub unknown: bool,
    /// When the item was added, in seconds since the epoch, where known.
    pub added_at: Option<i64>,
}

/// A track of a playlist with its place in the listing.
#[derive(Debug)]
pub struct ListedTrack<T> {
    pub track: T,
    pub added_at: Option<i64>,
    /// The place of the track among those that could be used.
    pub list_index: usize,
}

/// Whether an item can be used: it plays something of a known kind.
pub open spec fn is_usable<T>(entry: PlaylistEntry<T>) -> bool {
    entry.track is Some && !entry.unknown
}

/// The usable items of a page that starts at `offset`, in order, each
/// numbered from `offset` on by its place among the usable ones.
pub open spec fn listed<T>(offset: nat, entries: Seq<PlaylistEntry<T>>) -> Seq<ListedTrack<T>>
    decreases entries.len(),
{
    if entries.len() == 0 {
        Seq::empty()
    } else {
        let before = listed(offset, entries.drop_last());
        let entry = entries.last();
        if is_usable(entry) {
            before.push(
                ListedTrack {
                    track: entry.track->0,
                    added_at: entry.added_at,
                    list_index: (offset + before.len()) as usize,
                },
            )
        } else {
            before
        }
    }
}

/// No more tracks are listed than there are items.
pub proof fn lemma_listed_len<T>(offset: nat, entries: Seq<PlaylistEntry<T>>)
    ensures
        listed(offset, entries).len() <= entries.len(),
    decreases entries.len(),
{
    if entries.len() > 0 {
        lemma_listed_len(offset, entries.drop_last());
    }
}

/// Turns the items of one page of a playlist into tracks. Items that play
/// nothing, or something of an unknown kind, are left out; the rest keep
/// their order.
pub fn listed_tracks<T>(offset: u32, entries: Vec<PlaylistEntry<T>>) -> (tracks: Vec<
    ListedTrack<T>,
>)
    requires
        offset + entries@.len() <= usize::MAX,
    ensures
        tracks@ == listed(offset as nat, entries@),
{
    let mut tracks: Vec<ListedTrack<T>> = Vec::new();
    let ghost all = entries@;
    for entry in it: entries.into_iter()
        invariant
            it.seq() == all,
            offset + all.len() <= usize::MAX,
            tracks@ == listed(offset as nat, all.take(it.index() as int)),
    {
        proof {
            let seen = all.take(it.index() as int);
            lemma_listed_len(offset as nat, seen);
            assert(all.take(it.index() + 1).drop_last() =~= seen);
        }
        if !entry.unknown {
            match entry.track {
                Some(track) => {
                    let list_index = offset as usize + tracks.len();
                    tracks.push(ListedTrack { track, added_at: entry.added_at, list_index });
                },
                None => {},
            }
        }
    }
    assert(all.take(all.len() as int) =~= all);
    tracks
}

/// One item that the user picked in a playlist.
#[derive(Debug)]
pub struct PlaylistPick {
    /// The identifier of what the item plays, if it has one.
    pub id: Option<String>,
    /// The place of the item in the playlist.
    pub list_index: usize,
}

/// One occurrence of an item to take out of a playlist.
#[derive(Debug)]
pub struct Removal {
    pub id: String,
    /// The place of the occurrence; the service counts in 32 bits.
    pub position: u32,
}

/// A removal as a mathematical value.
pub struct RemovalView {
    pub id: Seq<char>,
    pub position: u32,
}

impl View for Removal {
    type V = RemovalView;

    open spec fn view(&self) -> RemovalView {
        RemovalView { id: self.id@, position: self.position }
    }
}

/// The identifiers among the picks, in order.
pub open spec fn picked_ids(picks: Seq<PlaylistPick>) -> Seq<Seq<char>>
    decreases picks.len(),
{
    if picks.len() == 0 {
        Seq::empty()
    } else {
        let before = picked_ids(picks.drop_last());
        match picks.last().id {
            Some(id) => before.push(id@),
            None => before,
        }
    }
}

/// No more identifiers are found than there are picks.
pub proof fn lemma_picked_ids_len(picks: Seq<PlaylistPick>)
    ensures
        picked_ids(picks).len() <= picks.len(),
    decreases picks.len(),
{
    if picks.len() > 0 {
        lemma_picked_ids_len(picks.drop_last());
    }
}

/// The removals that a selection of picks asks for: the identifiers that
/// the picks have, in order, each paired with the place of the pick at the
/// same position of the selection.
pub fn removals(picks: Vec<PlaylistPick>) -> (out: Vec<Removal>)
    ensures
        out@.len() == picked_ids(picks@).len(),
        forall|k: int|
            0 <= k < out@.len() ==> (#[trigger] out@[k])@ == (RemovalView {
                id: picked_ids(picks@)[k],
                position: picks@[k].list_index as u32,
            }),
{
    let ghost all = picks@;
    let mut ids: Vec<String> = Vec::new();
    let mut positions: Vec<u32> = Vec::new();
    for pick in it: picks.into_iter()
        invariant
            it.seq() == all,
            positions@.len() == it.index(),
            forall|k: int|
                0 <= k < positions@.len() ==> #[trigger] positions@[k] == all[k].list_index as u32,
            ids@.len() == picked_ids(all.take(it.index() as int)).len(),
            forall|k: int|
                0 <= k < ids@.len() ==> (#[trigger] ids@[k])@ == picked_ids(
                    all.take(it.index() as int),
                )[k],
    {
        proof {
            assert(all.take(it.index() + 1).drop_last() =~= all.take(it.index() as int));
        }
        positions.push(#[verifier::truncate] (pick.list_index as u32));
        match pick.id {
            Some(id) => {
                ids.push(id);
            },
            None => {},
        }
    }
    proof {
        assert(all.take(all.len() as int) =~= all);
        lemma_picked_ids_len(all);
    }
    let ghost found = ids@;
    let mut out: Vec<Removal> = Vec::new();
    for id in it: ids.into_iter()
        invariant
            it.seq() == found,
            found.len() <= positions@.len(),
            out@.len() == it.index(),
            forall|k: int|
                0 <= k < out@.len() ==> (#[trigger] out@[k])@ == (RemovalView {
                    id: found[k]@,
                    position: positions@[k],
                }),
    {
        let position = positions[out.len()];
        out.push(Removal { id, position });
    }
    out
}

} // verus!
