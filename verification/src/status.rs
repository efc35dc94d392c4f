//! The summary that `status` prints: how far the local table is from the
//! remote playlist.
use vstd::prelude::*;

use crate::text::{decimal, i64_to_decimal, signed_decimal, u64_to_decimal};
use crate::youtube::{is_unavailable, title_is_unavailable, PlaylistEntry, PlaylistInfo};
use crate::playlist::{is_listed, listed_remotely};

verus! {

/// The counts that `status` reports.
pub struct StatusReport {
    /// Tracks downloaded locally.
    pub local_done: i64,
    /// Available videos in the remote playlist.
    pub remote: usize,
    /// Available remote videos whose id is not tracked locally.
    pub new: usize,
    /// Distinct local ids that the remote playlist no longer lists.
    pub removed: usize,
}

/// Available entries among the first `n`.
pub open spec fn available_count(entries: Seq<PlaylistEntry>, n: nat) -> nat
    decreases n,
{
    if n == 0 {
        0
    } else {
        available_count(entries, (n - 1) as nat) + if is_unavailable(entries[n - 1].title@) {
            0nat
        } else {
            1nat
        }
    }
}

/// Available entries among the first `n` whose id is not in `local_ids`.
pub open spec fn new_count(local_ids: Seq<Seq<char>>, entries: Seq<PlaylistEntry>, n: nat) -> nat
    decreases n,
{
    if n == 0 {
        0
    } else {
        let e = entries[n - 1];
        new_count(local_ids, entries, (n - 1) as nat) + if !is_unavailable(e.title@)
            && !local_ids.contains(e.id@) {
            1nat
        } else {
            0nat
        }
    }
}

/// Distinct ids among the first `n` local ids that the playlist does not
/// list (each id counted at its first occurrence).
pub open spec fn removed_count(local_ids: Seq<Seq<char>>, entries: Seq<PlaylistEntry>, n: nat) -> nat
    decreases n,
{
    if n == 0 {
        0
    } else {
        let id = local_ids[n - 1];
        removed_count(local_ids, entries, (n - 1) as nat) + if !is_listed(entries, id)
            && !local_ids.take(n - 1).contains(id) {
            1nat
        } else {
            0nat
        }
    }
}

fn contains_text(v: &Vec<String>, upto: usize, id: &String) -> (res: bool)
    requires
        upto <= v@.len(),
    ensures
        res == v.deep_view().take(upto as int).contains(id@),
{
    let mut i: usize = 0;
    while i < upto
        invariant
            i <= upto <= v@.len(),
            forall|j: int| 0 <= j < i ==> v@[j]@ != id@,
        decreases upto - i,
    {
        if v[i] == *id {
            assert(v.deep_view().take(upto as int)[i as int] == id@);
            return true;
        }
        i = i + 1;
    }
    assert(!v.deep_view().take(upto as int).contains(id@)) by {
        if v.deep_view().take(upto as int).contains(id@) {
            let j = choose|j: int|
                0 <= j < upto && v.deep_view().take(upto as int)[j] == id@;
            assert(v@[j]@ == id@);
        }
    }
    false
}

/// Counts what `status` reports, from the ids in the local table, the
/// fetched playlist and the number of downloaded tracks.
pub fn status_report(local_ids: &Vec<String>, info: &PlaylistInfo, local_done: i64) -> (res:
    StatusReport)
    ensures
        res.local_done == local_done,
        res.remote == available_count(info.entries@, info.entries@.len()),
        res.new == new_count(local_ids.deep_view(), info.entries@, info.entries@.len()),
        res.removed == removed_count(local_ids.deep_view(), info.entries@, local_ids@.len()),
{
    let ghost ids = local_ids.deep_view();
    let mut remote: usize = 0;
    let mut new: usize = 0;
    let mut i: usize = 0;
    while i < info.entries.len()
        invariant
            i <= info.entries@.len(),
            ids == local_ids.deep_view(),
            remote == available_count(info.entries@, i as nat),
            new == new_count(ids, info.entries@, i as nat),
            remote <= i,
            new <= i,
        decreases info.entries@.len() - i,
    {
        let entry = &info.entries[i];
        if !title_is_unavailable(&entry.title) {
            remote = remote + 1;
            assert(local_ids.deep_view().take(local_ids@.len() as int) =~= ids);
            if !contains_text(local_ids, local_ids.len(), &entry.id) {
                new = new + 1;
            }
        }
        i = i + 1;
    }
    let mut removed: usize = 0;
    let mut k: usize = 0;
    while k < local_ids.len()
        invariant
            k <= local_ids@.len(),
            ids == local_ids.deep_view(),
            removed == removed_count(ids, info.entries@, k as nat),
            removed <= k,
        decreases local_ids@.len() - k,
    {
        let id = &local_ids[k];
        if !listed_remotely(&info.entries, id) && !contains_text(local_ids, k, id) {
            removed = removed + 1;
        }
        k = k + 1;
    }
    StatusReport { local_done, remote, new, removed }
}

/// The first lines of `status`: the playlist and where it comes from.
pub fn status_header(title: &str, remote_url: &str) -> (res: Vec<String>)
    ensures
        res.deep_view() == seq![
            "Playlist: "@ + title@,
            "Remote:   "@ + remote_url@,
            Seq::<char>::empty(),
        ],
{
    let mut a = "Playlist: ".to_owned();
    a.append(title);
    let mut b = "Remote:   ".to_owned();
    b.append(remote_url);
    let mut v: Vec<String> = Vec::new();
    v.push(a);
    v.push(b);
    v.push(String::new());
    assert(v.deep_view() =~= seq![
        "Playlist: "@ + title@,
        "Remote:   "@ + remote_url@,
        Seq::<char>::empty(),
    ]);
    v
}

/// The rest of what `status` prints for a report.
pub open spec fn status_lines_of(r: StatusReport) -> Seq<Seq<char>> {
    seq![
        "Tracks"@,
        "  "@ + signed_decimal(r.local_done as int) + " local"@,
        "  "@ + decimal(r.remote as nat) + " remote"@,
        Seq::<char>::empty(),
        "Changes:"@,
        Seq::<char>::empty(),
        "  + "@ + decimal(r.new as nat) + " new"@,
        "  - "@ + decimal(r.removed as nat) + " removed"@,
        Seq::<char>::empty(),
        if r.new > 0 || r.removed > 0 { "Use 'yit sync' to update."@ } else { "Up to date."@ },
    ]
}

fn framed(before: &str, n: String, after: &str) -> (res: String)
    ensures
        res@ == before@ + n@ + after@,
{
    let mut s = before.to_owned();
    s.append(n.as_str());
    s.append(after);
    s
}

/// The counts and the advice that `status` prints.
pub fn status_lines(r: &StatusReport) -> (res: Vec<String>)
    ensures
        res.deep_view() == status_lines_of(*r),
{
    let mut v: Vec<String> = Vec::new();
    v.push("Tracks".to_owned());
    v.push(framed("  ", i64_to_decimal(r.local_done), " local"));
    v.push(framed("  ", u64_to_decimal(r.remote as u64), " remote"));
    v.push(String::new());
    v.push("Changes:".to_owned());
    v.push(String::new());
    v.push(framed("  + ", u64_to_decimal(r.new as u64), " new"));
    v.push(framed("  - ", u64_to_decimal(r.removed as u64), " removed"));
    v.push(String::new());
    if r.new > 0 || r.removed > 0 {
        v.push("Use 'yit sync' to update.".to_owned());
    } else {
        v.push("Up to date.".to_owned());
    }
    assert(v.deep_view() =~= status_lines_of(*r));
    v
}

} // verus!
