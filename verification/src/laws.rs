//! Properties that hold across the comparison, the sync rows and the status
//! counts.
use vstd::prelude::*;

use crate::playlist::{
    diff_report_of, ids_of, is_listed, lines_for, new_track_lines, new_tracks,
    removed_track_lines, removed_tracks, synced_rows, DiffEntry, TrackRowView, TrackView,
};
use crate::status::{available_count, new_count, removed_count, status_lines_of, StatusReport};
use crate::text::{decimal, pad2};
use crate::web::{
    escape_char, escaped, escaped_has_no_angle_brackets, index_page, index_row, index_rows,
    page_title, IndexTrack, PAGE_END, PAGE_HEAD, PAGE_LIST, PAGE_STYLE,
};
use crate::youtube::{first_list_value, is_unavailable, playlist_id_of, PlaylistEntry};
use vstd::utf8::encode_utf8;

verus! {

proof fn lemma_new_count(local: Seq<DiffEntry>, entries: Seq<PlaylistEntry>, n: nat)
    requires
        n <= entries.len(),
    ensures
        new_count(ids_of(local), entries, n) == new_tracks(local, entries, n).len(),
    decreases n,
{
    if n > 0 {
        lemma_new_count(local, entries, (n - 1) as nat);
    }
}

/// `status` counts as new exactly the tracks that `diff` lists as new.
pub proof fn status_new_matches_diff(local: Seq<DiffEntry>, entries: Seq<PlaylistEntry>)
    ensures
        new_count(ids_of(local), entries, entries.len()) == new_tracks(
            local,
            entries,
            entries.len(),
        ).len(),
{
    lemma_new_count(local, entries, entries.len());
}

proof fn lemma_removed_count(local: Seq<DiffEntry>, entries: Seq<PlaylistEntry>, n: nat)
    requires
        n <= local.len(),
        ids_of(local).no_duplicates(),
    ensures
        removed_count(ids_of(local), entries, n) == removed_tracks(local, entries, n).len(),
    decreases n,
{
    if n > 0 {
        lemma_removed_count(local, entries, (n - 1) as nat);
        let ids = ids_of(local);
        assert(!ids.take(n - 1).contains(ids[n - 1])) by {
            if ids.take(n - 1).contains(ids[n - 1]) {
                let j = choose|j: int| 0 <= j < n - 1 && #[trigger] ids.take(n - 1)[j] == ids[n - 1];
                assert(ids[j] == ids[n - 1]);
            }
        }
    }
}

/// When the local table holds each video id once (its key makes it so),
/// `status` counts as removed exactly the tracks that `diff` lists as
/// removed.
pub proof fn status_removed_matches_diff(local: Seq<DiffEntry>, entries: Seq<PlaylistEntry>)
    requires
        ids_of(local).no_duplicates(),
    ensures
        removed_count(ids_of(local), entries, local.len()) == removed_tracks(
            local,
            entries,
            local.len(),
        ).len(),
{
    lemma_removed_count(local, entries, local.len());
}

proof fn lemma_synced_not_new(local: Seq<DiffEntry>, entries: Seq<PlaylistEntry>, n: nat)
    requires
        n <= entries.len(),
        forall|k: int|
            0 <= k < synced_rows(entries, n).len() ==> ids_of(local).contains(
                #[trigger] synced_rows(entries, n)[k].youtube_id,
            ),
    ensures
        new_tracks(local, entries, n).len() == 0,
    decreases n,
{
    if n > 0 {
        let prev = synced_rows(entries, (n - 1) as nat);
        let cur = synced_rows(entries, n);
        assert forall|k: int| 0 <= k < prev.len() implies ids_of(local).contains(
            #[trigger] prev[k].youtube_id,
        ) by {
            assert(cur[k] == prev[k]);
        }
        lemma_synced_not_new(local, entries, (n - 1) as nat);
        if !is_unavailable(entries[n - 1].title@) {
            assert(cur[cur.len() - 1].youtube_id == entries[n - 1].id@);
        }
    }
}

/// After a sync, nothing is new: when the local table holds the id of every
/// row that a sync writes for a playlist, comparing it with that playlist
/// finds no new track, and `status` counts none.
pub proof fn synced_playlist_has_nothing_new(local: Seq<DiffEntry>, entries: Seq<PlaylistEntry>)
    requires
        forall|k: int|
            0 <= k < synced_rows(entries, entries.len()).len() ==> ids_of(local).contains(
                #[trigger] synced_rows(entries, entries.len())[k].youtube_id,
            ),
    ensures
        new_tracks(local, entries, entries.len()).len() == 0,
        new_count(ids_of(local), entries, entries.len()) == 0,
{
    lemma_synced_not_new(local, entries, entries.len());
    lemma_new_count(local, entries, entries.len());
}

proof fn lemma_new_tracks_sound(local: Seq<DiffEntry>, entries: Seq<PlaylistEntry>, n: nat)
    requires
        n <= entries.len() <= i64::MAX,
    ensures
        forall|k: int|
            0 <= k < new_tracks(local, entries, n).len() ==> {
                let t = #[trigger] new_tracks(local, entries, n)[k];
                &&& 0 <= t.position < n
                &&& entries[t.position as int].id@ == t.youtube_id
                &&& entries[t.position as int].title@ == t.title
                &&& !is_unavailable(t.title)
                &&& !ids_of(local).contains(t.youtube_id)
            },
    decreases n,
{
    if n > 0 {
        lemma_new_tracks_sound(local, entries, (n - 1) as nat);
        let prev = new_tracks(local, entries, (n - 1) as nat);
        let cur = new_tracks(local, entries, n);
        assert forall|k: int| 0 <= k < cur.len() implies {
            let t = #[trigger] cur[k];
            &&& 0 <= t.position < n
            &&& entries[t.position as int].id@ == t.youtube_id
            &&& entries[t.position as int].title@ == t.title
            &&& !is_unavailable(t.title)
            &&& !ids_of(local).contains(t.youtube_id)
        } by {
            if k < prev.len() {
                assert(cur[k] == prev[k]);
            }
        }
    }
}

/// Every track that the comparison calls new is an available video of the
/// playlist, at its index in the playlist, whose id the local table lacks.
pub proof fn new_tracks_are_untracked_videos(local: Seq<DiffEntry>, entries: Seq<PlaylistEntry>)
    requires
        entries.len() <= i64::MAX,
    ensures
        forall|k: int|
            0 <= k < new_tracks(local, entries, entries.len()).len() ==> {
                let t = #[trigger] new_tracks(local, entries, entries.len())[k];
                &&& 0 <= t.position < entries.len()
                &&& entries[t.position as int].id@ == t.youtube_id
                &&& entries[t.position as int].title@ == t.title
                &&& !is_unavailable(t.title)
                &&& !ids_of(local).contains(t.youtube_id)
            },
{
    lemma_new_tracks_sound(local, entries, entries.len());
}

proof fn lemma_removed_sound(local: Seq<DiffEntry>, entries: Seq<PlaylistEntry>, n: nat)
    requires
        n <= local.len(),
    ensures
        forall|k: int|
            0 <= k < removed_tracks(local, entries, n).len() ==> {
                let t = #[trigger] removed_tracks(local, entries, n)[k];
                &&& exists|j: int| 0 <= j < n && local[j]@ == t
                &&& !is_listed(entries, t.youtube_id)
            },
    decreases n,
{
    if n > 0 {
        lemma_removed_sound(local, entries, (n - 1) as nat);
        let prev = removed_tracks(local, entries, (n - 1) as nat);
        let cur = removed_tracks(local, entries, n);
        assert forall|k: int| 0 <= k < cur.len() implies {
            let t = #[trigger] cur[k];
            &&& exists|j: int| 0 <= j < n && local[j]@ == t
            &&& !is_listed(entries, t.youtube_id)
        } by {
            if k < prev.len() {
                assert(cur[k] == prev[k]);
                let j = choose|j: int| 0 <= j < n - 1 && local[j]@ == prev[k];
                assert(local[j]@ == cur[k]);
            } else {
                assert(local[n - 1]@ == cur[k]);
            }
        }
    }
}

/// Every track that the comparison calls removed is a local track whose
/// video the playlist no longer lists; nothing else is reported removed.
pub proof fn removed_tracks_are_unlisted_local_tracks(
    local: Seq<DiffEntry>,
    entries: Seq<PlaylistEntry>,
)
    ensures
        forall|k: int|
            0 <= k < removed_tracks(local, entries, local.len()).len() ==> {
                let t = #[trigger] removed_tracks(local, entries, local.len())[k];
                &&& exists|j: int| 0 <= j < local.len() && local[j]@ == t
                &&& !is_listed(entries, t.youtube_id)
            },
{
    lemma_removed_sound(local, entries, local.len());
}

proof fn lemma_synced_available(entries: Seq<PlaylistEntry>, n: nat)
    requires
        n <= entries.len(),
    ensures
        forall|k: int|
            0 <= k < synced_rows(entries, n).len() ==> !is_unavailable(
                #[trigger] synced_rows(entries, n)[k].title,
            ),
    decreases n,
{
    if n > 0 {
        lemma_synced_available(entries, (n - 1) as nat);
        let prev = synced_rows(entries, (n - 1) as nat);
        let cur = synced_rows(entries, n);
        assert forall|k: int| 0 <= k < cur.len() implies !is_unavailable(
            #[trigger] cur[k].title,
        ) by {
            if k < prev.len() {
                assert(cur[k] == prev[k]);
            }
        }
    }
}

proof fn lemma_synced_rows_exact(entries: Seq<PlaylistEntry>, n: nat)
    requires
        n <= entries.len() <= i64::MAX,
    ensures
        forall|k: int|
            0 <= k < synced_rows(entries, n).len() ==> {
                let r = #[trigger] synced_rows(entries, n)[k];
                &&& 0 <= r.position < n
                &&& entries[r.position as int].id@ == r.youtube_id
                &&& entries[r.position as int].title@ == r.title
            },
        forall|i: int|
            0 <= i < n && !is_unavailable(#[trigger] entries[i].title@) ==> exists|k: int|
                0 <= k < synced_rows(entries, n).len() && synced_rows(entries, n)[k].position == i
                    && synced_rows(entries, n)[k].youtube_id == entries[i].id@,
    decreases n,
{
    if n > 0 {
        lemma_synced_rows_exact(entries, (n - 1) as nat);
        let prev = synced_rows(entries, (n - 1) as nat);
        let cur = synced_rows(entries, n);
        assert forall|k: int| 0 <= k < cur.len() implies {
            let r = #[trigger] cur[k];
            &&& 0 <= r.position < n
            &&& entries[r.position as int].id@ == r.youtube_id
            &&& entries[r.position as int].title@ == r.title
        } by {
            if k < prev.len() {
                assert(cur[k] == prev[k]);
            }
        }
        assert forall|i: int| 0 <= i < n && !is_unavailable(#[trigger] entries[i].title@) implies exists|k: int|
            0 <= k < cur.len() && cur[k].position == i && cur[k].youtube_id == entries[i].id@ by {
            if i < n - 1 {
                let k = choose|k: int|
                    0 <= k < prev.len() && prev[k].position == i && prev[k].youtube_id
                        == entries[i].id@;
                assert(cur[k] == prev[k]);
            } else {
                assert(cur[cur.len() - 1].position == i);
            }
        }
    }
}

/// A sync writes a row for exactly the available videos of the playlist:
/// each row is such a video at its index in the playlist, and each such
/// video has a row at its index.
pub proof fn sync_writes_every_available_video(entries: Seq<PlaylistEntry>)
    requires
        entries.len() <= i64::MAX,
    ensures
        forall|k: int|
            0 <= k < synced_rows(entries, entries.len()).len() ==> {
                let r = #[trigger] synced_rows(entries, entries.len())[k];
                &&& 0 <= r.position < entries.len()
                &&& entries[r.position as int].id@ == r.youtube_id
                &&& entries[r.position as int].title@ == r.title
                &&& !is_unavailable(r.title)
            },
        forall|i: int|
            0 <= i < entries.len() && !is_unavailable(#[trigger] entries[i].title@) ==> exists|k: int|
                0 <= k < synced_rows(entries, entries.len()).len() && synced_rows(
                    entries,
                    entries.len(),
                )[k].position == i && synced_rows(entries, entries.len())[k].youtube_id
                    == entries[i].id@,
{
    lemma_synced_rows_exact(entries, entries.len());
    lemma_synced_available(entries, entries.len());
}

/// `&amp;`
pub open spec fn amp_entity() -> Seq<char> {
    seq!['&', 'a', 'm', 'p', ';']
}

/// `&lt;`
pub open spec fn lt_entity() -> Seq<char> {
    seq!['&', 'l', 't', ';']
}

/// `&gt;`
pub open spec fn gt_entity() -> Seq<char> {
    seq!['&', 'g', 't', ';']
}

/// Decodes the three entities that HTML escaping writes, left to right;
/// every other character stays.
pub open spec fn unescaped(t: Seq<char>) -> Seq<char>
    decreases t.len(),
{
    if t.len() == 0 {
        t
    } else if t.len() >= 5 && t.take(5) == amp_entity() {
        seq!['&'] + unescaped(t.skip(5))
    } else if t.len() >= 4 && t.take(4) == lt_entity() {
        seq!['<'] + unescaped(t.skip(4))
    } else if t.len() >= 4 && t.take(4) == gt_entity() {
        seq!['>'] + unescaped(t.skip(4))
    } else {
        seq![t[0]] + unescaped(t.drop_first())
    }
}

/// Whether one of the three entities starts at index `i`.
pub open spec fn entity_at(t: Seq<char>, i: int) -> bool {
    ||| i + 5 <= t.len() && t.subrange(i, i + 5) == amp_entity()
    ||| i + 4 <= t.len() && t.subrange(i, i + 4) == lt_entity()
    ||| i + 4 <= t.len() && t.subrange(i, i + 4) == gt_entity()
}

proof fn lemma_escaped_front(s: Seq<char>)
    requires
        s.len() > 0,
    ensures
        escaped(s) == escape_char(s[0]) + escaped(s.drop_first()),
    decreases s.len(),
{
    if s.len() == 1 {
        assert(s.drop_last().len() == 0);
        assert(s.drop_first().len() == 0);
        assert(escaped(s.drop_last()) == Seq::<char>::empty());
        assert(escaped(s.drop_first()) == Seq::<char>::empty());
        assert(s.last() == s[0]);
        assert(escaped(s) == escaped(s.drop_last()) + escape_char(s.last()));
        assert(escaped(s) =~= escape_char(s[0]) + escaped(s.drop_first()));
    } else {
        lemma_escaped_front(s.drop_last());
        assert(s.drop_last().drop_first() =~= s.drop_first().drop_last());
        assert(s.drop_first().last() == s.last());
        assert(s.drop_last()[0] == s[0]);
        assert(escaped(s) == escaped(s.drop_last()) + escape_char(s.last()));
        assert(escaped(s.drop_first()) == escaped(s.drop_first().drop_last()) + escape_char(
            s.drop_first().last(),
        ));
        assert(escaped(s) =~= escape_char(s[0]) + escaped(s.drop_first()));
    }
}

proof fn lemma_unescape_head(c: char, rest: Seq<char>)
    ensures
        unescaped(escape_char(c) + rest) == seq![c] + unescaped(rest),
{
    let e = escape_char(c) + rest;
    if c == '&' {
        assert(e.take(5) =~= amp_entity());
        assert(e.skip(5) =~= rest);
    } else if c == '<' {
        assert(e[1] == 'l');
        assert(e.len() >= 5 ==> e.take(5)[1] != amp_entity()[1]);
        assert(e.take(4) =~= lt_entity());
        assert(e.skip(4) =~= rest);
    } else if c == '>' {
        assert(e[1] == 'g');
        assert(e.len() >= 5 ==> e.take(5)[1] != amp_entity()[1]);
        assert(e.take(4)[1] != lt_entity()[1]);
        assert(e.take(4) =~= gt_entity());
        assert(e.skip(4) =~= rest);
    } else {
        assert(e[0] == c);
        assert(e.len() >= 5 ==> e.take(5)[0] != amp_entity()[0]);
        assert(e.len() >= 4 ==> e.take(4)[0] != lt_entity()[0]);
        assert(e.drop_first() =~= rest);
    }
}

/// HTML escaping loses nothing: decoding `&amp;`, `&lt;` and `&gt;` in an
/// escaped text gives the text back.
pub proof fn unescaping_undoes_escaping(s: Seq<char>)
    ensures
        unescaped(escaped(s)) == s,
    decreases s.len(),
{
    if s.len() == 0 {
        assert(escaped(s) =~= seq![]);
    } else {
        lemma_escaped_front(s);
        unescaping_undoes_escaping(s.drop_first());
        lemma_unescape_head(s[0], escaped(s.drop_first()));
        assert(seq![s[0]] + s.drop_first() =~= s);
    }
}

/// In an escaped text every `&` starts `&amp;`, `&lt;` or `&gt;`.
pub proof fn every_ampersand_starts_an_entity(s: Seq<char>)
    ensures
        forall|i: int| 0 <= i < escaped(s).len() && #[trigger] escaped(s)[i] == '&' ==> entity_at(
            escaped(s),
            i,
        ),
    decreases s.len(),
{
    if s.len() > 0 {
        every_ampersand_starts_an_entity(s.drop_last());
        let head = escaped(s.drop_last());
        let tail = escape_char(s.last());
        let e = escaped(s);
        assert(e == head + tail);
        assert forall|i: int| 0 <= i < e.len() && #[trigger] e[i] == '&' implies entity_at(e, i) by {
            if i < head.len() {
                assert(head[i] == '&');
                if i + 5 <= head.len() && head.subrange(i, i + 5) == amp_entity() {
                    assert(e.subrange(i, i + 5) =~= head.subrange(i, i + 5));
                } else if i + 4 <= head.len() && head.subrange(i, i + 4) == lt_entity() {
                    assert(e.subrange(i, i + 4) =~= head.subrange(i, i + 4));
                } else {
                    assert(entity_at(head, i));
                    assert(e.subrange(i, i + 4) =~= head.subrange(i, i + 4));
                }
            } else {
                let k = i - head.len();
                assert(tail[k] == '&');
                let c = s.last();
                if c == '&' {
                    assert(k == 0);
                    assert(e.subrange(i, i + 5) =~= amp_entity());
                } else if c == '<' {
                    assert(k == 0);
                    assert(e.subrange(i, i + 4) =~= lt_entity());
                } else if c == '>' {
                    assert(k == 0);
                    assert(e.subrange(i, i + 4) =~= gt_entity());
                } else {
                    assert(tail[k] == c);
                }
            }
        }
    }
}

/// A text without `&`, `<` and `>` is its own escaped form.
pub proof fn plain_text_escapes_to_itself(s: Seq<char>)
    requires
        !s.contains('&'),
        !s.contains('<'),
        !s.contains('>'),
    ensures
        escaped(s) == s,
    decreases s.len(),
{
    if s.len() > 0 {
        let t = s.drop_last();
        assert(!t.contains('&') && !t.contains('<') && !t.contains('>')) by {
            if t.contains('&') {
                let j = choose|j: int| 0 <= j < t.len() && t[j] == '&';
                assert(s[j] == '&');
            }
            if t.contains('<') {
                let j = choose|j: int| 0 <= j < t.len() && t[j] == '<';
                assert(s[j] == '<');
            }
            if t.contains('>') {
                let j = choose|j: int| 0 <= j < t.len() && t[j] == '>';
                assert(s[j] == '>');
            }
        }
        plain_text_escapes_to_itself(t);
        let c = s.last();
        assert(c != '&' && c != '<' && c != '>') by {
            assert(s[s.len() - 1] == c);
        }
        assert(escaped(s) =~= s);
    }
}

/// What a track's list item holds before its title: the item and number.
pub open spec fn row_start(key: (Seq<char>, i64)) -> Seq<char> {
    "<li><span class=\"n\">"@ + pad2(key.1 + 1) + "</span><span class=\"t\">"@
}

/// What a track's list item holds after its title: the player of its audio.
pub open spec fn row_end(key: (Seq<char>, i64)) -> Seq<char> {
    "</span><audio controls preload=\"none\" src=\"/tracks/"@ + key.0 + "/audio\"></audio></li>\n"@
}

/// The video id and position of each track: all of a track but its title.
pub open spec fn track_keys(tracks: Seq<IndexTrack>) -> Seq<(Seq<char>, i64)> {
    tracks.map_values(|t: IndexTrack| (t.youtube_id@, t.position))
}

/// The fixed parts of the page around its titles, the last one still open.
pub open spec fn open_frames(keys: Seq<(Seq<char>, i64)>) -> Seq<Seq<char>>
    decreases keys.len(),
{
    if keys.len() == 0 {
        seq![PAGE_HEAD@, PAGE_STYLE@, PAGE_LIST@]
    } else {
        let g = open_frames(keys.drop_last());
        let k = keys.last();
        g.drop_last().push(g.last() + row_start(k)).push(row_end(k))
    }
}

/// The fixed parts of the page around its titles: they depend on the video
/// ids and positions of the tracks alone.
pub open spec fn index_frames(keys: Seq<(Seq<char>, i64)>) -> Seq<Seq<char>> {
    let g = open_frames(keys);
    g.drop_last().push(g.last() + PAGE_END@)
}

/// The title texts of the page, in order: the playlist title in the title
/// element and in the heading, then each track's escaped title.
pub open spec fn index_holes(title: Seq<char>, tracks: Seq<IndexTrack>) -> Seq<Seq<char>>
    decreases tracks.len(),
{
    if tracks.len() == 0 {
        seq![title, title]
    } else {
        index_holes(title, tracks.drop_last()).push(escaped(tracks.last().title@))
    }
}

/// Fixed parts and holes, alternating: `frames[0] + holes[0] + frames[1] + ...`.
pub open spec fn interleave(frames: Seq<Seq<char>>, holes: Seq<Seq<char>>) -> Seq<char>
    decreases holes.len(),
{
    if holes.len() == 0 {
        frames[0]
    } else {
        interleave(frames.drop_last(), holes.drop_last()) + holes.last() + frames.last()
    }
}

proof fn lemma_open_frames_len(keys: Seq<(Seq<char>, i64)>)
    ensures
        open_frames(keys).len() == keys.len() + 3,
    decreases keys.len(),
{
    if keys.len() > 0 {
        lemma_open_frames_len(keys.drop_last());
    }
}

proof fn lemma_holes_len(title: Seq<char>, tracks: Seq<IndexTrack>)
    ensures
        index_holes(title, tracks).len() == tracks.len() + 2,
    decreases tracks.len(),
{
    if tracks.len() > 0 {
        lemma_holes_len(title, tracks.drop_last());
    }
}

proof fn lemma_interleave_extend(f: Seq<Seq<char>>, h: Seq<Seq<char>>, x: Seq<char>)
    requires
        f.len() == h.len() + 1,
    ensures
        interleave(f.drop_last().push(f.last() + x), h) == interleave(f, h) + x,
{
    let g = f.drop_last().push(f.last() + x);
    if h.len() == 0 {
        assert(g[0] == f[0] + x);
    } else {
        assert(g.drop_last() =~= f.drop_last());
        assert(g.last() == f.last() + x);
        assert(interleave(g, h) == interleave(g.drop_last(), h.drop_last()) + h.last() + g.last());
        assert(interleave(f, h) == interleave(f.drop_last(), h.drop_last()) + h.last() + f.last());
        assert(interleave(g, h) =~= interleave(f, h) + x);
    }
}

#[verifier::rlimit(40)]
#[verifier::spinoff_prover]
proof fn lemma_index_prefix(t: Seq<char>, tracks: Seq<IndexTrack>, n: nat)
    requires
        n <= tracks.len(),
    ensures
        interleave(open_frames(track_keys(tracks.take(n as int))), index_holes(t, tracks.take(n as int)))
            == PAGE_HEAD@ + t + PAGE_STYLE@ + t + PAGE_LIST@ + index_rows(tracks.take(n as int)),
    decreases n,
{
    let tr = tracks.take(n as int);
    let keys = track_keys(tr);
    if n == 0 {
        assert(keys.len() == 0);
        assert(tr.len() == 0);
        let f = open_frames(keys);
        let h = index_holes(t, tr);
        assert(f == seq![PAGE_HEAD@, PAGE_STYLE@, PAGE_LIST@]);
        assert(h == seq![t, t]);
        assert(f.drop_last().drop_last() =~= seq![PAGE_HEAD@]);
        assert(h.drop_last().drop_last() =~= Seq::<Seq<char>>::empty());
        assert(interleave(f.drop_last().drop_last(), h.drop_last().drop_last()) == PAGE_HEAD@);
        assert(interleave(f.drop_last(), h.drop_last()) == PAGE_HEAD@ + t + PAGE_STYLE@);
        assert(interleave(f, h) == PAGE_HEAD@ + t + PAGE_STYLE@ + t + PAGE_LIST@);
        assert(index_rows(tr) == Seq::<char>::empty());
        assert(interleave(f, h) =~= PAGE_HEAD@ + t + PAGE_STYLE@ + t + PAGE_LIST@ + index_rows(tr));
    } else {
        let m = (n - 1) as nat;
        lemma_index_prefix(t, tracks, m);
        let pr = tracks.take(m as int);
        let pkeys = track_keys(pr);
        assert(tr.drop_last() =~= pr);
        assert(keys.drop_last() =~= pkeys);
        let track = tracks[m as int];
        assert(tr.last() == track);
        let k = (track.youtube_id@, track.position);
        assert(keys.last() == k);
        let g = open_frames(pkeys);
        let hp = index_holes(t, pr);
        lemma_open_frames_len(pkeys);
        lemma_holes_len(t, pr);
        let big = open_frames(keys);
        assert(big == g.drop_last().push(g.last() + row_start(k)).push(row_end(k)));
        let hb = index_holes(t, tr);
        assert(hb == hp.push(escaped(track.title@)));
        assert(big.drop_last() =~= g.drop_last().push(g.last() + row_start(k)));
        assert(hb.drop_last() =~= hp);
        assert(interleave(big, hb) == interleave(big.drop_last(), hp) + escaped(track.title@)
            + row_end(k));
        lemma_interleave_extend(g, hp, row_start(k));
        assert(index_rows(tr) == index_rows(pr) + index_row(track));
        assert(index_row(track) =~= row_start(k) + escaped(track.title@) + row_end(k));
        assert(interleave(big, hb) =~= PAGE_HEAD@ + t + PAGE_STYLE@ + t + PAGE_LIST@ + index_rows(
            tr,
        ));
    }
}

/// The served page is its fixed parts with the escaped titles between them:
/// the fixed parts depend on the tracks' ids and positions alone.
pub proof fn index_page_is_frames_and_titles(title: Option<String>, tracks: Seq<IndexTrack>)
    ensures
        index_page(title, tracks) == interleave(
            index_frames(track_keys(tracks)),
            index_holes(escaped(page_title(title)), tracks),
        ),
{
    let t = escaped(page_title(title));
    lemma_index_prefix(t, tracks, tracks.len());
    assert(tracks.take(tracks.len() as int) =~= tracks);
    lemma_open_frames_len(track_keys(tracks));
    lemma_holes_len(t, tracks);
    lemma_interleave_extend(open_frames(track_keys(tracks)), index_holes(t, tracks), PAGE_END@);
}

proof fn lemma_holes_escaped(t: Seq<char>, tracks: Seq<IndexTrack>)
    requires
        !t.contains('<'),
        !t.contains('>'),
    ensures
        forall|k: int|
            0 <= k < index_holes(t, tracks).len() ==> !(#[trigger] index_holes(t, tracks)[k]).contains('<')
                && !index_holes(t, tracks)[k].contains('>'),
    decreases tracks.len(),
{
    if tracks.len() > 0 {
        lemma_holes_escaped(t, tracks.drop_last());
        escaped_has_no_angle_brackets(tracks.last().title@);
        let h = index_holes(t, tracks);
        let p = index_holes(t, tracks.drop_last());
        assert forall|k: int| 0 <= k < h.len() implies !(#[trigger] h[k]).contains('<')
            && !h[k].contains('>') by {
            if k < p.len() {
                assert(h[k] == p[k]);
            }
        }
    }
}

/// Two pages whose tracks have the same ids and positions, in the same
/// order, differ only in their title texts: both are the same fixed parts
/// with each page's escaped titles between them, and no title text holds a
/// `<` or a `>`.
pub proof fn index_pages_differ_only_in_titles(
    title_a: Option<String>,
    tracks_a: Seq<IndexTrack>,
    title_b: Option<String>,
    tracks_b: Seq<IndexTrack>,
)
    requires
        track_keys(tracks_a) == track_keys(tracks_b),
    ensures
        index_page(title_a, tracks_a) == interleave(
            index_frames(track_keys(tracks_a)),
            index_holes(escaped(page_title(title_a)), tracks_a),
        ),
        index_page(title_b, tracks_b) == interleave(
            index_frames(track_keys(tracks_a)),
            index_holes(escaped(page_title(title_b)), tracks_b),
        ),
        forall|k: int|
            0 <= k < index_holes(escaped(page_title(title_a)), tracks_a).len() ==> !(
            #[trigger] index_holes(escaped(page_title(title_a)), tracks_a)[k]).contains('<')
                && !index_holes(escaped(page_title(title_a)), tracks_a)[k].contains('>'),
        forall|k: int|
            0 <= k < index_holes(escaped(page_title(title_b)), tracks_b).len() ==> !(
            #[trigger] index_holes(escaped(page_title(title_b)), tracks_b)[k]).contains('<')
                && !index_holes(escaped(page_title(title_b)), tracks_b)[k].contains('>'),
{
    index_page_is_frames_and_titles(title_a, tracks_a);
    index_page_is_frames_and_titles(title_b, tracks_b);
    escaped_has_no_angle_brackets(page_title(title_a));
    escaped_has_no_angle_brackets(page_title(title_b));
    lemma_holes_escaped(escaped(page_title(title_a)), tracks_a);
    lemma_holes_escaped(escaped(page_title(title_b)), tracks_b);
}

/// The video ids of the rows a sync writes.
pub open spec fn row_ids(rows: Seq<TrackRowView>) -> Seq<Seq<char>> {
    rows.map_values(|r: TrackRowView| r.youtube_id)
}

/// The track that a written row leaves in the table.
pub open spec fn row_track(r: TrackRowView) -> TrackView {
    TrackView { youtube_id: r.youtube_id, title: r.title, position: r.position }
}

/// `after` is the track table `before` once the rows were written as the
/// sync's insert-or-update does: a row with a known video id replaces that
/// track's title and position, a row with a new id adds a track, and tracks
/// that no row names stay as they were.
pub open spec fn is_upsert_of(
    before: Seq<DiffEntry>,
    rows: Seq<TrackRowView>,
    after: Seq<DiffEntry>,
) -> bool {
    &&& forall|j: int|
        0 <= j < after.len() ==> (exists|k: int|
            0 <= k < rows.len() && #[trigger] after[j]@ == row_track(rows[k])) || (exists|i: int|
            0 <= i < before.len() && before[i]@ == #[trigger] after[j]@ && !row_ids(rows).contains(
                before[i].youtube_id@,
            ))
    &&& forall|i: int|
        0 <= i < before.len() && !row_ids(rows).contains(#[trigger] before[i].youtube_id@) ==> exists|
            j: int,
        |
            0 <= j < after.len() && #[trigger] after[j]@ == before[i]@
    &&& forall|k: int|
        0 <= k < rows.len() ==> exists|j: int|
            0 <= j < after.len() && after[j].youtube_id@ == #[trigger] rows[k].youtube_id
}

proof fn lemma_removed_complete(local: Seq<DiffEntry>, entries: Seq<PlaylistEntry>, n: nat)
    requires
        n <= local.len(),
    ensures
        forall|j: int|
            0 <= j < n && !is_listed(entries, #[trigger] local[j].youtube_id@) ==> removed_tracks(
                local,
                entries,
                n,
            ).contains(local[j]@),
    decreases n,
{
    if n > 0 {
        lemma_removed_complete(local, entries, (n - 1) as nat);
        let prev = removed_tracks(local, entries, (n - 1) as nat);
        let cur = removed_tracks(local, entries, n);
        assert forall|j: int|
            0 <= j < n && !is_listed(entries, #[trigger] local[j].youtube_id@) implies cur.contains(
            local[j]@,
        ) by {
            if j < n - 1 {
                let k = choose|k: int| 0 <= k < prev.len() && prev[k] == local[j]@;
                assert(cur[k] == prev[k]);
            } else {
                assert(cur[cur.len() - 1] == local[j]@);
            }
        }
    }
}

proof fn lemma_removed_iff(local: Seq<DiffEntry>, entries: Seq<PlaylistEntry>, t: TrackView)
    ensures
        removed_tracks(local, entries, local.len()).contains(t) <==> exists|j: int|
            0 <= j < local.len() && #[trigger] local[j]@ == t && !is_listed(entries, t.youtube_id),
{
    lemma_removed_sound(local, entries, local.len());
    lemma_removed_complete(local, entries, local.len());
    let r = removed_tracks(local, entries, local.len());
    if r.contains(t) {
        let k = choose|k: int| 0 <= k < r.len() && r[k] == t;
        assert(r[k] == t);
    }
    if exists|j: int| 0 <= j < local.len() && #[trigger] local[j]@ == t && !is_listed(entries, t.youtube_id) {
        let j = choose|j: int| 0 <= j < local.len() && #[trigger] local[j]@ == t && !is_listed(entries, t.youtube_id);
        assert(local[j].youtube_id@ == t.youtube_id);
    }
}

/// Comparing again right after a sync finds nothing new, and the same
/// removed tracks as before it: the sync writes every available video and
/// leaves the tracks that the playlist no longer lists untouched.
pub proof fn diff_after_sync(
    before: Seq<DiffEntry>,
    after: Seq<DiffEntry>,
    entries: Seq<PlaylistEntry>,
)
    requires
        entries.len() <= i64::MAX,
        is_upsert_of(before, synced_rows(entries, entries.len()), after),
    ensures
        new_tracks(after, entries, entries.len()).len() == 0,
        forall|t: TrackView|
            removed_tracks(after, entries, after.len()).contains(t) <==> removed_tracks(
                before,
                entries,
                before.len(),
            ).contains(t),
{
    let rows = synced_rows(entries, entries.len());
    sync_writes_every_available_video(entries);
    assert forall|k: int| 0 <= k < rows.len() implies is_listed(entries, #[trigger] rows[k].youtube_id) by {
        let p = rows[k].position as int;
        assert(entries[p].id@ == rows[k].youtube_id);
        assert(!is_unavailable(entries[p].title@));
    }
    assert forall|k: int| 0 <= k < rows.len() implies ids_of(after).contains(
        #[trigger] rows[k].youtube_id,
    ) by {
        let j = choose|j: int| 0 <= j < after.len() && after[j].youtube_id@ == rows[k].youtube_id;
        assert(ids_of(after)[j] == rows[k].youtube_id);
    }
    synced_playlist_has_nothing_new(after, entries);
    assert forall|t: TrackView|
        removed_tracks(after, entries, after.len()).contains(t) <==> removed_tracks(
            before,
            entries,
            before.len(),
        ).contains(t) by {
        lemma_removed_iff(after, entries, t);
        lemma_removed_iff(before, entries, t);
        if removed_tracks(after, entries, after.len()).contains(t) {
            let j = choose|j: int|
                0 <= j < after.len() && #[trigger] after[j]@ == t && !is_listed(entries, t.youtube_id);
            if exists|k: int| 0 <= k < rows.len() && #[trigger] after[j]@ == row_track(rows[k]) {
                let k = choose|k: int| 0 <= k < rows.len() && #[trigger] after[j]@ == row_track(rows[k]);
                assert(is_listed(entries, rows[k].youtube_id));
            } else {
                let i = choose|i: int|
                    0 <= i < before.len() && before[i]@ == #[trigger] after[j]@ && !row_ids(rows).contains(
                        before[i].youtube_id@,
                    );
                assert(before[i]@ == t);
            }
        }
        if removed_tracks(before, entries, before.len()).contains(t) {
            let i = choose|i: int|
                0 <= i < before.len() && #[trigger] before[i]@ == t && !is_listed(entries, t.youtube_id);
            assert(!row_ids(rows).contains(before[i].youtube_id@)) by {
                if row_ids(rows).contains(before[i].youtube_id@) {
                    let k = choose|k: int| 0 <= k < rows.len() && row_ids(rows)[k] == before[i].youtube_id@;
                    assert(is_listed(entries, rows[k].youtube_id));
                }
            }
            let j = choose|j: int| 0 <= j < after.len() && #[trigger] after[j]@ == before[i]@;
            assert(after[j]@ == t);
        }
    }
}

/// Every match of a non-empty `pat`, found left to right without overlap,
/// replaced by `rep`, as `str::replace` does.
pub open spec fn replaced(s: Seq<char>, pat: Seq<char>, rep: Seq<char>) -> Seq<char>
    decreases s.len(),
{
    if s.len() == 0 {
        s
    } else if pat.len() > 0 && s.len() >= pat.len() && s.take(pat.len() as int) == pat {
        rep + replaced(s.skip(pat.len() as int), pat, rep)
    } else {
        seq![s[0]] + replaced(s.drop_first(), pat, rep)
    }
}

proof fn lemma_replace_plain(tok: Seq<char>, rest: Seq<char>, pat: Seq<char>, rep: Seq<char>)
    requires
        pat.len() > 0,
        pat[0] == '&',
        !tok.contains('&'),
    ensures
        replaced(tok + rest, pat, rep) == tok + replaced(rest, pat, rep),
    decreases tok.len(),
{
    if tok.len() > 0 {
        let e = tok + rest;
        assert(e[0] == tok[0]);
        assert(tok[0] != '&') by {
            if tok[0] == '&' {
                assert(tok.contains('&'));
            }
        }
        assert(e.len() >= pat.len() ==> e.take(pat.len() as int)[0] != pat[0]);
        assert(!tok.drop_first().contains('&')) by {
            if tok.drop_first().contains('&') {
                let j = choose|j: int| 0 <= j < tok.drop_first().len() && tok.drop_first()[j] == '&';
                assert(tok[j + 1] == '&');
            }
        }
        lemma_replace_plain(tok.drop_first(), rest, pat, rep);
        assert(e.drop_first() =~= tok.drop_first() + rest);
        assert(seq![tok[0]] + tok.drop_first() =~= tok);
        assert(replaced(e, pat, rep) =~= tok + replaced(rest, pat, rep));
    } else {
        assert(tok + rest =~= rest);
    }
}

proof fn lemma_replace_other_entity(
    tok: Seq<char>,
    rest: Seq<char>,
    pat: Seq<char>,
    rep: Seq<char>,
)
    requires
        pat.len() >= 2,
        pat[0] == '&',
        tok.len() >= 2,
        tok[0] == '&',
        tok[1] != pat[1],
        !tok.drop_first().contains('&'),
    ensures
        replaced(tok + rest, pat, rep) == tok + replaced(rest, pat, rep),
{
    let e = tok + rest;
    assert(e.len() >= pat.len() ==> e.take(pat.len() as int)[1] != pat[1]);
    lemma_replace_plain(tok.drop_first(), rest, pat, rep);
    assert(e.drop_first() =~= tok.drop_first() + rest);
    assert(seq![tok[0]] + tok.drop_first() =~= tok);
    assert(replaced(e, pat, rep) =~= tok + replaced(rest, pat, rep));
}

proof fn lemma_replace_match(rest: Seq<char>, pat: Seq<char>, rep: Seq<char>)
    requires
        pat.len() > 0,
    ensures
        replaced(pat + rest, pat, rep) == rep + replaced(rest, pat, rep),
{
    let e = pat + rest;
    assert(e.take(pat.len() as int) =~= pat);
    assert(e.skip(pat.len() as int) =~= rest);
}

/// The escaped form after `&lt;` was turned back into `<`.
pub open spec fn lt_restored(s: Seq<char>) -> Seq<char>
    decreases s.len(),
{
    if s.len() == 0 {
        s
    } else {
        (if s[0] == '<' { seq!['<'] } else { escape_char(s[0]) }) + lt_restored(s.drop_first())
    }
}

/// The escaped form after `&lt;` and `&gt;` were turned back.
pub open spec fn angles_restored(s: Seq<char>) -> Seq<char>
    decreases s.len(),
{
    if s.len() == 0 {
        s
    } else {
        (if s[0] == '<' || s[0] == '>' { seq![s[0]] } else { escape_char(s[0]) })
            + angles_restored(s.drop_first())
    }
}

proof fn lemma_no_amp_tail(t: Seq<char>)
    requires
        t.len() >= 2,
        forall|j: int| 1 <= j < t.len() ==> t[j] != '&',
    ensures
        !t.drop_first().contains('&'),
{
    if t.drop_first().contains('&') {
        let j = choose|j: int| 0 <= j < t.drop_first().len() && t.drop_first()[j] == '&';
        assert(t[j + 1] == '&');
    }
}

proof fn lemma_single_plain(c: char)
    requires
        c != '&',
    ensures
        !seq![c].contains('&'),
{
    if seq![c].contains('&') {
        let j = choose|j: int| 0 <= j < 1 && seq![c][j] == '&';
    }
}

proof fn lemma_restore_lt(s: Seq<char>)
    ensures
        replaced(escaped(s), lt_entity(), seq!['<']) == lt_restored(s),
    decreases s.len(),
{
    if s.len() == 0 {
        assert(escaped(s) =~= seq![]);
    } else {
        lemma_escaped_front(s);
        lemma_restore_lt(s.drop_first());
        let rest = escaped(s.drop_first());
        let c = s[0];
        if c == '<' {
            lemma_replace_match(rest, lt_entity(), seq!['<']);
        } else if c == '&' {
            lemma_no_amp_tail(amp_entity());
            lemma_replace_other_entity(amp_entity(), rest, lt_entity(), seq!['<']);
        } else if c == '>' {
            lemma_no_amp_tail(gt_entity());
            lemma_replace_other_entity(gt_entity(), rest, lt_entity(), seq!['<']);
        } else {
            lemma_single_plain(c);
            lemma_replace_plain(seq![c], rest, lt_entity(), seq!['<']);
        }
    }
}

proof fn lemma_restore_gt(s: Seq<char>)
    ensures
        replaced(lt_restored(s), gt_entity(), seq!['>']) == angles_restored(s),
    decreases s.len(),
{
    if s.len() > 0 {
        lemma_restore_gt(s.drop_first());
        let rest = lt_restored(s.drop_first());
        let c = s[0];
        if c == '>' {
            lemma_replace_match(rest, gt_entity(), seq!['>']);
        } else if c == '&' {
            lemma_no_amp_tail(amp_entity());
            lemma_replace_other_entity(amp_entity(), rest, gt_entity(), seq!['>']);
        } else {
            lemma_single_plain(c);
            lemma_replace_plain(seq![c], rest, gt_entity(), seq!['>']);
        }
    }
}

proof fn lemma_restore_amp(s: Seq<char>)
    ensures
        replaced(angles_restored(s), amp_entity(), seq!['&']) == s,
    decreases s.len(),
{
    if s.len() > 0 {
        lemma_restore_amp(s.drop_first());
        let rest = angles_restored(s.drop_first());
        let c = s[0];
        if c == '&' {
            lemma_replace_match(rest, amp_entity(), seq!['&']);
        } else {
            lemma_single_plain(c);
            lemma_replace_plain(seq![c], rest, amp_entity(), seq!['&']);
        }
        assert(seq![c] + s.drop_first() =~= s);
    }
}

/// Replacing `&lt;` by `<`, then `&gt;` by `>`, then `&amp;` by `&` in an
/// escaped text gives the text back.
pub proof fn chained_replace_undoes_escaping(s: Seq<char>)
    ensures
        replaced(
            replaced(replaced(escaped(s), lt_entity(), seq!['<']), gt_entity(), seq!['>']),
            amp_entity(),
            seq!['&'],
        ) == s,
{
    lemma_restore_lt(s);
    lemma_restore_gt(s);
    lemma_restore_amp(s);
}

/// A row of the local track table: what a sync writes, and the download
/// state (`status`, `filename`) that only the download loop changes.
pub struct TableRow {
    pub youtube_id: Seq<char>,
    pub title: Seq<char>,
    pub uploader: Option<Seq<char>>,
    pub position: i64,
    pub thumbnail: Option<Seq<char>>,
    pub status: Seq<char>,
    pub filename: Option<Seq<char>>,
}

/// The table row that inserting a written row creates: a pending track.
pub open spec fn inserted_row(r: TrackRowView) -> TableRow {
    TableRow {
        youtube_id: r.youtube_id,
        title: r.title,
        uploader: r.uploader,
        position: r.position,
        thumbnail: r.thumbnail,
        status: "pending"@,
        filename: None,
    }
}

/// A table row once a written row with its video id updated it: new title,
/// position and thumbnail, everything else kept.
pub open spec fn updated_row(t: TableRow, r: TrackRowView) -> TableRow {
    TableRow {
        youtube_id: t.youtube_id,
        title: r.title,
        uploader: t.uploader,
        position: r.position,
        thumbnail: r.thumbnail,
        status: t.status,
        filename: t.filename,
    }
}

/// The video ids of a table.
pub open spec fn table_ids(t: Seq<TableRow>) -> Seq<Seq<char>> {
    t.map_values(|x: TableRow| x.youtube_id)
}

/// The id, title and position of a table row.
pub open spec fn table_track(x: TableRow) -> TrackView {
    TrackView { youtube_id: x.youtube_id, title: x.title, position: x.position }
}

/// One insert-or-update, as the sync's SQL statement does it: a row whose
/// video id is in the table updates that track, another row is inserted.
pub open spec fn upsert_one(t: Seq<TableRow>, r: TrackRowView) -> Seq<TableRow> {
    if table_ids(t).contains(r.youtube_id) {
        t.map_values(|x: TableRow| if x.youtube_id == r.youtube_id { updated_row(x, r) } else { x })
    } else {
        t.push(inserted_row(r))
    }
}

/// The table after writing the rows in order.
pub open spec fn upsert_all(t: Seq<TableRow>, rows: Seq<TrackRowView>) -> Seq<TableRow>
    decreases rows.len(),
{
    if rows.len() == 0 {
        t
    } else {
        upsert_one(upsert_all(t, rows.drop_last()), rows.last())
    }
}

/// The last of the rows with this video id.
pub open spec fn last_row(rows: Seq<TrackRowView>, id: Seq<char>) -> Option<TrackRowView>
    decreases rows.len(),
{
    if rows.len() == 0 {
        None
    } else if rows.last().youtube_id == id {
        Some(rows.last())
    } else {
        last_row(rows.drop_last(), id)
    }
}

/// The table `x` already holds what the rows write: every row's id, and for
/// each id the values of its last row.
pub open spec fn settled(x: Seq<TableRow>, rows: Seq<TrackRowView>) -> bool {
    &&& forall|k: int| 0 <= k < rows.len() ==> table_ids(x).contains(#[trigger] rows[k].youtube_id)
    &&& forall|i: int|
        0 <= i < x.len() ==> match last_row(rows, #[trigger] x[i].youtube_id) {
            Some(r) => updated_row(x[i], r) == x[i],
            None => true,
        }
}

/// The table `x` with every track updated by the last row of its id.
pub open spec fn updated_by_last(x: Seq<TableRow>, rows: Seq<TrackRowView>) -> Seq<TableRow> {
    x.map_values(
        |t: TableRow|
            match last_row(rows, t.youtube_id) {
                Some(r) => updated_row(t, r),
                None => t,
            },
    )
}

proof fn lemma_contains_after_map(x: Seq<TableRow>, f: spec_fn(TableRow) -> TableRow, id: Seq<char>)
    requires
        forall|t: TableRow| #[trigger] f(t).youtube_id == t.youtube_id,
        table_ids(x).contains(id),
    ensures
        table_ids(x.map_values(f)).contains(id),
{
    let j = choose|j: int| 0 <= j < table_ids(x).len() && table_ids(x)[j] == id;
    assert(table_ids(x.map_values(f))[j] == f(x[j]).youtube_id);
}

proof fn lemma_upsert_prefix(x: Seq<TableRow>, rows: Seq<TrackRowView>, n: nat)
    requires
        n <= rows.len(),
        forall|k: int| 0 <= k < rows.len() ==> table_ids(x).contains(#[trigger] rows[k].youtube_id),
    ensures
        upsert_all(x, rows.take(n as int)) == updated_by_last(x, rows.take(n as int)),
    decreases n,
{
    let rn = rows.take(n as int);
    if n == 0 {
        assert(updated_by_last(x, rn) =~= x);
    } else {
        let m = (n - 1) as nat;
        lemma_upsert_prefix(x, rows, m);
        let rm = rows.take(m as int);
        assert(rn.drop_last() =~= rm);
        let r = rows[m as int];
        assert(rn.last() == r);
        let u = updated_by_last(x, rm);
        let f = |t: TableRow|
            match last_row(rm, t.youtube_id) {
                Some(q) => updated_row(t, q),
                None => t,
            };
        assert(u == x.map_values(f));
        assert forall|t: TableRow| #[trigger] f(t).youtube_id == t.youtube_id by {}
        assert(table_ids(x).contains(r.youtube_id));
        lemma_contains_after_map(x, f, r.youtube_id);
        assert(upsert_all(x, rn) == upsert_one(u, r));
        assert(upsert_one(u, r) =~= updated_by_last(x, rn)) by {
            assert forall|i: int| 0 <= i < x.len() implies upsert_one(u, r)[i] == updated_by_last(
                x,
                rn,
            )[i] by {
                let t = x[i];
                if t.youtube_id == r.youtube_id {
                    assert(last_row(rn, t.youtube_id) == Some(r));
                } else {
                    assert(last_row(rn, t.youtube_id) == last_row(rm, t.youtube_id));
                }
            }
        }
    }
}

proof fn lemma_upsert_settles(t: Seq<TableRow>, rows: Seq<TrackRowView>)
    ensures
        settled(upsert_all(t, rows), rows),
    decreases rows.len(),
{
    if rows.len() > 0 {
        let prev = rows.drop_last();
        let r = rows.last();
        lemma_upsert_settles(t, prev);
        let u = upsert_all(t, prev);
        let v = upsert_one(u, r);
        assert(upsert_all(t, rows) == v);
        let f = |x: TableRow| if x.youtube_id == r.youtube_id { updated_row(x, r) } else { x };
        assert forall|x: TableRow| #[trigger] f(x).youtube_id == x.youtube_id by {}
        assert forall|k: int| 0 <= k < rows.len() implies table_ids(v).contains(
            #[trigger] rows[k].youtube_id,
        ) by {
            if k == rows.len() - 1 {
                if table_ids(u).contains(r.youtube_id) {
                    lemma_contains_after_map(u, f, r.youtube_id);
                } else {
                    assert(table_ids(v)[u.len() as int] == r.youtube_id);
                }
            } else {
                assert(prev[k] == rows[k]);
                assert(table_ids(u).contains(prev[k].youtube_id));
                if table_ids(u).contains(r.youtube_id) {
                    lemma_contains_after_map(u, f, rows[k].youtube_id);
                } else {
                    let j = choose|j: int|
                        0 <= j < table_ids(u).len() && table_ids(u)[j] == rows[k].youtube_id;
                    assert(table_ids(v)[j] == rows[k].youtube_id);
                }
            }
        }
        assert forall|i: int| 0 <= i < v.len() implies match last_row(rows, #[trigger] v[i].youtube_id) {
            Some(q) => updated_row(v[i], q) == v[i],
            None => true,
        } by {
            if i < u.len() {
                let old = u[i];
                if old.youtube_id == r.youtube_id {
                    if table_ids(u).contains(r.youtube_id) {
                        assert(v[i] == updated_row(old, r));
                    } else {
                        assert(table_ids(u)[i] == r.youtube_id);
                    }
                    assert(last_row(rows, v[i].youtube_id) == Some(r));
                } else {
                    assert(v[i] == old);
                    assert(last_row(rows, old.youtube_id) == last_row(prev, old.youtube_id));
                }
            } else {
                assert(v[i] == inserted_row(r));
                assert(last_row(rows, v[i].youtube_id) == Some(r));
            }
        }
    }
}

/// Writing a sync's rows twice leaves the table as writing them once: the
/// second sync adds no track and changes no field of any row.
pub proof fn sync_is_idempotent(table: Seq<TableRow>, rows: Seq<TrackRowView>)
    ensures
        upsert_all(upsert_all(table, rows), rows) == upsert_all(table, rows),
        upsert_all(upsert_all(table, rows), rows).len() == upsert_all(table, rows).len(),
{
    let u = upsert_all(table, rows);
    lemma_upsert_settles(table, rows);
    lemma_upsert_prefix(u, rows, rows.len());
    assert(rows.take(rows.len() as int) =~= rows);
    assert(updated_by_last(u, rows) =~= u) by {
        assert forall|i: int| 0 <= i < u.len() implies updated_by_last(u, rows)[i] == u[i] by {
            let t = u[i];
            match last_row(rows, t.youtube_id) {
                Some(q) => {},
                None => {},
            }
        }
    }
}

proof fn lemma_sync_adds(
    table: Seq<TableRow>,
    local: Seq<DiffEntry>,
    entries: Seq<PlaylistEntry>,
    n: nat,
)
    requires
        n <= entries.len(),
        table_ids(table) == ids_of(local),
        row_ids(synced_rows(entries, n)).no_duplicates(),
    ensures
        ({
            let u = upsert_all(table, synced_rows(entries, n));
            let fresh = new_tracks(local, entries, n);
            &&& u.len() == table.len() + fresh.len()
            &&& forall|k: int|
                0 <= k < fresh.len() ==> table_track(#[trigger] u[table.len() + k]) == fresh[k]
            &&& forall|i: int| 0 <= i < table.len() ==> (#[trigger] u[i]).youtube_id == table[i].youtube_id
            &&& forall|k: int|
                0 <= k < fresh.len() ==> row_ids(synced_rows(entries, n)).contains(
                    (#[trigger] u[table.len() + k]).youtube_id,
                )
        }),
    decreases n,
{
    if n == 0 {
        assert(upsert_all(table, synced_rows(entries, 0)) == table);
    } else {
        let m = (n - 1) as nat;
        let prev = synced_rows(entries, m);
        let cur = synced_rows(entries, n);
        let e = entries[m as int];
        if is_unavailable(e.title@) {
            assert(cur == prev);
            lemma_sync_adds(table, local, entries, m);
        } else {
            let row = cur.last();
            assert(cur == prev.push(row));
            assert(row_ids(cur) =~= row_ids(prev).push(row.youtube_id));
            assert(row_ids(prev).no_duplicates()) by {
                assert forall|a: int, b: int|
                    0 <= a < row_ids(prev).len() && 0 <= b < row_ids(prev).len() && a != b implies row_ids(
                    prev,
                )[a] != row_ids(prev)[b] by {
                    assert(row_ids(cur)[a] == row_ids(prev)[a]);
                    assert(row_ids(cur)[b] == row_ids(prev)[b]);
                }
            }
            assert(!row_ids(prev).contains(row.youtube_id)) by {
                if row_ids(prev).contains(row.youtube_id) {
                    let a = choose|a: int|
                        0 <= a < row_ids(prev).len() && row_ids(prev)[a] == row.youtube_id;
                    assert(row_ids(cur)[a] == row_ids(cur)[prev.len() as int]);
                }
            }
            lemma_sync_adds(table, local, entries, m);
            let u = upsert_all(table, prev);
            let fresh = new_tracks(local, entries, m);
            assert(cur.drop_last() =~= prev);
            let v = upsert_all(table, cur);
            assert(v == upsert_one(u, row));
            let in_u = table_ids(u).contains(row.youtube_id);
            let in_local = ids_of(local).contains(e.id@);
            assert(row.youtube_id == e.id@);
            assert(in_u == in_local) by {
                if in_local {
                    let i = choose|i: int| 0 <= i < ids_of(local).len() && ids_of(local)[i] == e.id@;
                    assert(table_ids(table)[i] == e.id@);
                    assert(table_ids(u)[i] == e.id@);
                }
                if in_u {
                    let i = choose|i: int| 0 <= i < table_ids(u).len() && table_ids(u)[i] == row.youtube_id;
                    if i < table.len() {
                        assert(ids_of(local)[i] == table_ids(table)[i]);
                    } else {
                        let k = i - table.len();
                        assert(u[table.len() + k] == u[i]);
                        assert(row_ids(prev).contains(u[i].youtube_id));
                    }
                }
            }
            let nt = new_tracks(local, entries, n);
            if in_u {
                assert(nt == fresh);
                assert forall|k: int| 0 <= k < nt.len() implies table_track(#[trigger] v[table.len() + k])
                    == nt[k] && row_ids(cur).contains(v[table.len() + k].youtube_id) by {
                    let x = u[table.len() + k];
                    assert(row_ids(prev).contains(x.youtube_id));
                    assert(x.youtube_id != row.youtube_id);
                    assert(v[table.len() + k] == x);
                    let a = choose|a: int| 0 <= a < row_ids(prev).len() && row_ids(prev)[a] == x.youtube_id;
                    assert(row_ids(cur)[a] == x.youtube_id);
                }
                assert forall|i: int| 0 <= i < table.len() implies (#[trigger] v[i]).youtube_id
                    == table[i].youtube_id by {
                    assert(u[i].youtube_id == table[i].youtube_id);
                }
            } else {
                assert(nt == fresh.push(TrackView { youtube_id: e.id@, title: e.title@, position: m as i64 }));
                assert(v == u.push(inserted_row(row)));
                assert forall|k: int| 0 <= k < nt.len() implies table_track(#[trigger] v[table.len() + k])
                    == nt[k] && row_ids(cur).contains(v[table.len() + k].youtube_id) by {
                    if k < fresh.len() {
                        assert(v[table.len() + k] == u[table.len() + k]);
                        let x = u[table.len() + k];
                        assert(row_ids(prev).contains(x.youtube_id));
                        let a = choose|a: int| 0 <= a < row_ids(prev).len() && row_ids(prev)[a] == x.youtube_id;
                        assert(row_ids(cur)[a] == x.youtube_id);
                    } else {
                        assert(v[table.len() + k] == inserted_row(row));
                        assert(row_ids(cur)[prev.len() as int] == row.youtube_id);
                    }
                }
                assert forall|i: int| 0 <= i < table.len() implies (#[trigger] v[i]).youtube_id
                    == table[i].youtube_id by {
                    assert(v[i] == u[i]);
                }
            }
        }
    }
}

/// When the playlist lists each available video once, a sync adds exactly
/// the tracks that the comparison calls new: the table grows by their number
/// and the added rows carry their ids, titles and positions, in order; the
/// existing rows keep their ids.
pub proof fn sync_adds_exactly_the_new_tracks(
    table: Seq<TableRow>,
    local: Seq<DiffEntry>,
    entries: Seq<PlaylistEntry>,
)
    requires
        table_ids(table) == ids_of(local),
        row_ids(synced_rows(entries, entries.len())).no_duplicates(),
    ensures
        upsert_all(table, synced_rows(entries, entries.len())).len() == table.len() + new_tracks(
            local,
            entries,
            entries.len(),
        ).len(),
        forall|k: int|
            0 <= k < new_tracks(local, entries, entries.len()).len() ==> table_track(
                #[trigger] upsert_all(table, synced_rows(entries, entries.len()))[table.len() + k],
            ) == new_tracks(local, entries, entries.len())[k],
        forall|i: int|
            0 <= i < table.len() ==> (#[trigger] upsert_all(
                table,
                synced_rows(entries, entries.len()),
            )[i]).youtube_id == table[i].youtube_id,
{
    lemma_sync_adds(table, local, entries, entries.len());
}

proof fn lemma_available_count(entries: Seq<PlaylistEntry>, n: nat)
    requires
        n <= entries.len(),
    ensures
        available_count(entries, n) == entries.take(n as int).filter(
            |e: PlaylistEntry| e.title@ != "[Deleted video]"@ && e.title@ != "[Private video]"@,
        ).len(),
        available_count(entries, n) == synced_rows(entries, n).len(),
    decreases n,
{
    reveal(Seq::filter);
    if n > 0 {
        lemma_available_count(entries, (n - 1) as nat);
        let t = entries.take(n as int);
        assert(t.drop_last() =~= entries.take(n - 1));
        assert(t.last() == entries[n - 1]);
    }
}

/// The remote count of `status` is the number of playlist entries that show
/// a video: every entry but the placeholders titled `[Deleted video]` and
/// `[Private video]`. It is also the number of rows that a sync writes.
pub proof fn remote_count_skips_placeholders(entries: Seq<PlaylistEntry>)
    ensures
        available_count(entries, entries.len()) == entries.filter(
            |e: PlaylistEntry| e.title@ != "[Deleted video]"@ && e.title@ != "[Private video]"@,
        ).len(),
        available_count(entries, entries.len()) == synced_rows(entries, entries.len()).len(),
        available_count(entries, entries.len()) <= entries.len(),
{
    lemma_available_count(entries, entries.len());
    assert(entries.take(entries.len() as int) =~= entries);
    entries.lemma_filter_len(
        |e: PlaylistEntry| e.title@ != "[Deleted video]"@ && e.title@ != "[Private video]"@,
    );
}

proof fn lemma_lines_for(tracks: Seq<TrackView>, added: bool)
    ensures
        lines_for(tracks, added).len() == 3 * tracks.len(),
        forall|k: int|
            #![trigger tracks[k]]
            0 <= k < tracks.len() ==> lines_for(tracks, added).subrange(3 * k, 3 * k + 3) == if added {
                new_track_lines(tracks[k])
            } else {
                removed_track_lines(tracks[k])
            },
    decreases tracks.len(),
{
    if tracks.len() > 0 {
        let p = tracks.drop_last();
        lemma_lines_for(p, added);
        let a = lines_for(p, added);
        let b = if added {
            new_track_lines(tracks.last())
        } else {
            removed_track_lines(tracks.last())
        };
        assert(lines_for(tracks, added) == a + b);
        assert forall|k: int| #![trigger tracks[k]] 0 <= k < tracks.len() implies lines_for(
            tracks,
            added,
        ).subrange(3 * k, 3 * k + 3) == if added {
            new_track_lines(tracks[k])
        } else {
            removed_track_lines(tracks[k])
        } by {
            if k < p.len() {
                assert(p[k] == tracks[k]);
                assert((a + b).subrange(3 * k, 3 * k + 3) =~= a.subrange(3 * k, 3 * k + 3));
            } else {
                assert((a + b).subrange(3 * k, 3 * k + 3) =~= b);
            }
        }
    }
}

/// `diff` says `No changes.` exactly when there is no new and no removed
/// track. Otherwise it prints three lines for each new track, in order (its
/// number and title, its watch URL, a blank line), then three lines for each
/// removed track, in order (its number and title, a note that the local file
/// stays, a blank line), and nothing else.
pub proof fn diff_report_lists_every_change(new: Seq<TrackView>, removed: Seq<TrackView>)
    ensures
        (diff_report_of(new, removed) == seq!["No changes."@]) <==> (new.len() == 0
            && removed.len() == 0),
        new.len() + removed.len() > 0 ==> diff_report_of(new, removed).len() == 3 * (new.len()
            + removed.len()),
        forall|k: int|
            #![trigger new[k]]
            0 <= k < new.len() ==> {
                let r = diff_report_of(new, removed);
                &&& r[3 * k] == "+ "@ + pad2(new[k].position + 1) + " - "@ + new[k].title
                &&& r[3 * k + 1] == "  "@ + "https://www.youtube.com/watch?v="@ + new[k].youtube_id
                &&& r[3 * k + 2] == Seq::<char>::empty()
            },
        forall|k: int|
            #![trigger removed[k]]
            0 <= k < removed.len() ==> {
                let r = diff_report_of(new, removed);
                let at = 3 * new.len() + 3 * k;
                &&& r[at] == "- "@ + pad2(removed[k].position + 1) + " - "@ + removed[k].title
                &&& r[at + 1] == "  local file preserved"@
                &&& r[at + 2] == Seq::<char>::empty()
            },
{
    lemma_lines_for(new, true);
    lemma_lines_for(removed, false);
    if new.len() + removed.len() > 0 {
        let a = lines_for(new, true);
        let b = lines_for(removed, false);
        let r = diff_report_of(new, removed);
        assert(r == a + b);
        assert forall|k: int| #![trigger new[k]] 0 <= k < new.len() implies {
            &&& r[3 * k] == "+ "@ + pad2(new[k].position + 1) + " - "@ + new[k].title
            &&& r[3 * k + 1] == "  "@ + "https://www.youtube.com/watch?v="@ + new[k].youtube_id
            &&& r[3 * k + 2] == Seq::<char>::empty()
        } by {
            let w = a.subrange(3 * k, 3 * k + 3);
            assert(w == new_track_lines(new[k]));
            assert(r[3 * k] == w[0]);
            assert(r[3 * k + 1] == w[1]);
            assert(r[3 * k + 2] == w[2]);
            assert(w[1] =~= "  "@ + "https://www.youtube.com/watch?v="@ + new[k].youtube_id);
        }
        assert forall|k: int| #![trigger removed[k]] 0 <= k < removed.len() implies {
            let at = 3 * new.len() + 3 * k;
            &&& r[at] == "- "@ + pad2(removed[k].position + 1) + " - "@ + removed[k].title
            &&& r[at + 1] == "  local file preserved"@
            &&& r[at + 2] == Seq::<char>::empty()
        } by {
            let at = 3 * new.len() + 3 * k;
            let w = b.subrange(3 * k, 3 * k + 3);
            assert(w == removed_track_lines(removed[k]));
            assert(r[at] == w[0]);
            assert(r[at + 1] == w[1]);
            assert(r[at + 2] == w[2]);
        }
        assert(r.len() != 1);
    }
}

proof fn lemma_first_list_value_at(p: Seq<(Seq<char>, Seq<char>)>, i: int)
    requires
        0 <= i < p.len(),
        p[i].0 == "list"@,
        forall|j: int| 0 <= j < i ==> (#[trigger] p[j]).0 != "list"@,
    ensures
        first_list_value(p) == Some(p[i].1),
    decreases i,
{
    if i > 0 {
        let q = p.drop_first();
        assert(p[0].0 != "list"@);
        assert(q[i - 1] == p[i]);
        assert forall|j: int| 0 <= j < i - 1 implies (#[trigger] q[j]).0 != "list"@ by {
            assert(q[j] == p[j + 1]);
        }
        lemma_first_list_value_at(q, i - 1);
    }
}

proof fn lemma_first_list_value_none(p: Seq<(Seq<char>, Seq<char>)>)
    requires
        forall|j: int| 0 <= j < p.len() ==> (#[trigger] p[j]).0 != "list"@,
    ensures
        first_list_value(p) is None,
    decreases p.len(),
{
    if p.len() > 0 {
        let q = p.drop_first();
        assert(p[0].0 != "list"@);
        assert forall|j: int| 0 <= j < q.len() implies (#[trigger] q[j]).0 != "list"@ by {
            assert(q[j] == p[j + 1]);
        }
        lemma_first_list_value_none(q);
    }
}

/// A URL names the playlist of its first `list` query parameter, wherever
/// that parameter stands among the others, and whatever the input would say
/// as a bare id.
pub proof fn playlist_id_is_first_list_parameter(
    input: Seq<char>,
    pairs: Seq<(Seq<char>, Seq<char>)>,
    i: int,
)
    requires
        0 <= i < pairs.len(),
        pairs[i].0 == "list"@,
        forall|j: int| 0 <= j < i ==> (#[trigger] pairs[j]).0 != "list"@,
    ensures
        playlist_id_of(input, Some(pairs)) == Some(pairs[i].1),
{
    lemma_first_list_value_at(pairs, i);
}

/// An input that is no URL, or a URL without a `list` query parameter, names
/// a playlist only as a bare id: itself, when it starts with `PL` and is
/// longer than ten bytes; else it names none.
pub proof fn playlist_id_without_list_parameter(
    input: Seq<char>,
    pairs: Option<Seq<(Seq<char>, Seq<char>)>>,
)
    requires
        pairs matches Some(p) ==> forall|j: int| 0 <= j < p.len() ==> (#[trigger] p[j]).0 != "list"@,
    ensures
        playlist_id_of(input, pairs) == if encode_utf8(input).len() > 10 && encode_utf8(input)[0]
            == 0x50u8 && encode_utf8(input)[1] == 0x4cu8 {
            Some(input)
        } else {
            None
        },
{
    if let Some(p) = pairs {
        lemma_first_list_value_none(p);
    }
}

/// The URL of the last thumbnail of an entry, written out.
spec fn last_listed_thumbnail(e: PlaylistEntry) -> Option<Seq<char>> {
    match e.thumbnails {
        Some(v) => if v@.len() > 0 { Some(v@[v@.len() - 1].url@) } else { None },
        None => None,
    }
}

/// The uploader of an entry, written out.
spec fn listed_uploader(e: PlaylistEntry) -> Option<Seq<char>> {
    match e.uploader {
        Some(u) => Some(u@),
        None => None,
    }
}

proof fn lemma_synced_rows_details(entries: Seq<PlaylistEntry>, n: nat)
    requires
        n <= entries.len() <= i64::MAX,
    ensures
        forall|k: int|
            0 <= k < synced_rows(entries, n).len() ==> {
                let r = #[trigger] synced_rows(entries, n)[k];
                &&& 0 <= r.position < n
                &&& r.uploader == listed_uploader(entries[r.position as int])
                &&& r.thumbnail == last_listed_thumbnail(entries[r.position as int])
            },
    decreases n,
{
    if n > 0 {
        lemma_synced_rows_details(entries, (n - 1) as nat);
        let prev = synced_rows(entries, (n - 1) as nat);
        let cur = synced_rows(entries, n);
        assert forall|k: int| 0 <= k < cur.len() implies {
            let r = #[trigger] cur[k];
            &&& 0 <= r.position < n
            &&& r.uploader == listed_uploader(entries[r.position as int])
            &&& r.thumbnail == last_listed_thumbnail(entries[r.position as int])
        } by {
            if k < prev.len() {
                assert(cur[k] == prev[k]);
            } else {
                let e = entries[n - 1];
                assert(cur[k].position == n - 1);
                assert(e.uploader.deep_view() == listed_uploader(e));
            }
        }
    }
}

/// Each row that a sync writes carries its video's uploader and the URL of
/// the last thumbnail that the listing gives for it (none where it gives
/// none).
pub proof fn sync_keeps_uploader_and_last_thumbnail(entries: Seq<PlaylistEntry>)
    requires
        entries.len() <= i64::MAX,
    ensures
        forall|k: int|
            0 <= k < synced_rows(entries, entries.len()).len() ==> {
                let r = #[trigger] synced_rows(entries, entries.len())[k];
                let e = entries[r.position as int];
                &&& 0 <= r.position < entries.len()
                &&& r.uploader == match e.uploader {
                    Some(u) => Some(u@),
                    None => None::<Seq<char>>,
                }
                &&& r.thumbnail == match e.thumbnails {
                    Some(v) => if v@.len() > 0 { Some(v@[v@.len() - 1].url@) } else { None },
                    None => None,
                }
            },
{
    lemma_synced_rows_details(entries, entries.len());
}

/// `status` shows the remote count on its third line, and ends by advising
/// a sync exactly when some track is new or removed; otherwise it ends with
/// `Up to date.`.
pub proof fn status_advises_sync_only_on_changes(r: StatusReport)
    ensures
        status_lines_of(r).len() == 10,
        status_lines_of(r)[2] == "  "@ + decimal(r.remote as nat) + " remote"@,
        (r.new > 0 || r.removed > 0) ==> status_lines_of(r)[9] == "Use 'yit sync' to update."@,
        (status_lines_of(r)[9] == "Up to date."@) <==> (r.new == 0 && r.removed == 0),
{
    reveal_strlit("Up to date.");
    reveal_strlit("Use 'yit sync' to update.");
    assert("Up to date."@[1] != "Use 'yit sync' to update."@[1]);
}

} // verus!
