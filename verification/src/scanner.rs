//! Finding the files and directories that belong to an application.
//!
//! The traversal of the disk is the caller's: it lists what it visited under
//! each search root. Everything decided about a visited entry is decided
//! here: whether it is looked at, whether it matches, when progress is due,
//! and which of several sightings of one path stays.

use vstd::prelude::*;
use crate::app_info::{AppInfo, AppInfoView};
use crate::distinct::{
    distinct_entries, distinct_keys, has_key, keep_first, key_set, lemma_keep_first, path_key,
    EntryView,
};
use crate::matcher::{matches_spec, IdentityMatcher};
use crate::paths::{file_name, file_name_of};

verus! {

/// Progress is reported once for this many entries looked at.
pub const PROGRESS_INTERVAL: usize = 256;

/// What kind of thing the traversal met.
#[derive(Debug, Clone, Copy, PartialEq, Eq, Structural)]
pub enum EntryKind {
    File,
    Directory,
    /// A symbolic link or a special file: never followed, never matched.
    Other,
}

/// One entry that the traversal of a search root met.
#[derive(Debug)]
pub struct VisitedEntry {
    pub path: String,
    pub kind: EntryKind,
}

/// The mathematical content of a [`VisitedEntry`].
pub struct VisitedEntryView {
    pub path: Seq<char>,
    pub kind: EntryKind,
}

impl View for VisitedEntry {
    type V = VisitedEntryView;

    open spec fn view(&self) -> VisitedEntryView {
        VisitedEntryView { path: self.path@, kind: self.kind }
    }
}

impl DeepView for VisitedEntry {
    type V = VisitedEntryView;

    open spec fn deep_view(&self) -> VisitedEntryView {
        self@
    }
}

/// Whether an entry is looked at: a file or a directory whose path ends in a
/// name.
pub open spec fn looked_at(entry: VisitedEntryView) -> bool {
    entry.kind != EntryKind::Other && file_name_of(entry.path) is Some
}

/// The footprint entry that a visited entry gives: its path, labelled with
/// its name, when it is looked at and its name matches the identity.
pub open spec fn match_of(entry: VisitedEntryView, identity: AppInfoView) -> Option<EntryView> {
    if looked_at(entry) && matches_spec(file_name_of(entry.path)->0, identity) {
        Some((entry.path, file_name_of(entry.path)->0))
    } else {
        None
    }
}

/// The matches among the entries met under one root, in the order in which
/// they were met.
pub open spec fn matches_in(listing: Seq<VisitedEntryView>, identity: AppInfoView) -> Seq<
    EntryView,
>
    decreases listing.len(),
{
    if listing.len() == 0 {
        Seq::empty()
    } else {
        match match_of(listing.last(), identity) {
            Some(found) => matches_in(listing.drop_last(), identity).push(found),
            None => matches_in(listing.drop_last(), identity),
        }
    }
}

/// The matches of all roots, root after root.
pub open spec fn found_in(listings: Seq<Seq<VisitedEntryView>>, identity: AppInfoView) -> Seq<
    EntryView,
>
    decreases listings.len(),
{
    if listings.len() == 0 {
        Seq::empty()
    } else {
        found_in(listings.drop_last(), identity) + matches_in(listings.last(), identity)
    }
}

/// All per-root lists of matches, one after the other.
pub open spec fn merged(lists: Seq<Seq<EntryView>>) -> Seq<EntryView>
    decreases lists.len(),
{
    if lists.len() == 0 {
        Seq::empty()
    } else {
        merged(lists.drop_last()) + lists.last()
    }
}

/// The footprint: the matches of all roots, each path once. A path met under
/// two overlapping roots stays where it was met first.
pub open spec fn footprint_of(listings: Seq<Seq<VisitedEntryView>>, identity: AppInfoView) -> Seq<
    EntryView,
> {
    keep_first(found_in(listings, identity), path_key())
}

/// The paths of the entries of one listing that are looked at, in order.
pub open spec fn looked_in(listing: Seq<VisitedEntryView>) -> Seq<Seq<char>>
    decreases listing.len(),
{
    if listing.len() == 0 {
        Seq::empty()
    } else if looked_at(listing.last()) {
        looked_in(listing.drop_last()).push(listing.last().path)
    } else {
        looked_in(listing.drop_last())
    }
}

/// The paths of all entries that are looked at, root after root.
pub open spec fn looked_all(listings: Seq<Seq<VisitedEntryView>>) -> Seq<Seq<char>>
    decreases listings.len(),
{
    if listings.len() == 0 {
        Seq::empty()
    } else {
        looked_all(listings.drop_last()) + looked_in(listings.last())
    }
}

/// `progress` was told the running count `count` together with `path`.
pub open spec fn notified<F: Fn(usize, &str)>(progress: F, count: nat, path: Seq<char>) -> bool {
    exists|c: usize, p: &str|
        c == count && p@ == path && #[trigger] call_ensures(progress, (c, p), ())
}

/// `progress` was told of every entry among `looked` at which progress was
/// due: its number, counted from one, and its path.
pub open spec fn kept_informed<F: Fn(usize, &str)>(progress: F, looked: Seq<Seq<char>>) -> bool {
    forall|n: int|
        0 < n <= looked.len() && n <= usize::MAX && due_at(n as nat) ==> notified(
            progress,
            n as nat,
            #[trigger] looked[n - 1],
        )
}

/// Whether progress is due after the `count`-th entry was looked at.
pub open spec fn due_at(count: nat) -> bool {
    count % (PROGRESS_INTERVAL as nat) == 0
}

/// Whether an entry is looked at.
pub fn is_looked_at(entry: &VisitedEntry) -> (r: bool)
    ensures
        r == looked_at(entry@),
{
    match entry.kind {
        EntryKind::Other => false,
        _ => file_name(entry.path.as_str()).is_some(),
    }
}

/// Decides about one visited entry: the footprint entry it gives, if any.
pub fn visit(matcher: &IdentityMatcher, entry: &VisitedEntry) -> (r: Option<(String, String)>)
    ensures
        r.deep_view() == match_of(entry@, matcher.identity()),
{
    match entry.kind {
        EntryKind::Other => None,
        _ => match file_name(entry.path.as_str()) {
            Some(name) => {
                if matcher.matches(name.as_str()) {
                    Some((entry.path.clone(), name))
                } else {
                    None
                }
            },
            None => None,
        },
    }
}

/// Whether progress is due after the `count`-th entry was looked at: once
/// every [`PROGRESS_INTERVAL`] entries, so that a slow consumer is not
/// flooded.
pub fn progress_due(count: usize) -> (r: bool)
    ensures
        r == due_at(count as nat),
{
    count % PROGRESS_INTERVAL == 0
}

/// The matches among the entries met under one root.
pub fn scan_root(matcher: &IdentityMatcher, listing: &Vec<VisitedEntry>) -> (r: Vec<
    (String, String),
>)
    ensures
        r.deep_view() == matches_in(listing.deep_view(), matcher.identity()),
{
    let ghost all = listing.deep_view();
    let mut out: Vec<(String, String)> = Vec::new();
    let mut i: usize = 0;
    assert(all.take(0) =~= Seq::empty());
    assert(out.deep_view() =~= Seq::empty());
    while i < listing.len()
        invariant
            i <= listing.len(),
            all == listing.deep_view(),
            out.deep_view() == matches_in(all.take(i as int), matcher.identity()),
        decreases listing.len() - i,
    {
        proof {
            assert(all.take(i + 1).drop_last() =~= all.take(i as int));
            assert(all.take(i + 1).last() == listing[i as int]@);
        }
        let ghost before = out.deep_view();
        match visit(matcher, &listing[i]) {
            Some(found) => {
                out.push(found);
                assert(out.deep_view() =~= before.push(found.deep_view()));
            },
            None => {},
        }
        i += 1;
    }
    assert(all.take(i as int) =~= all);
    out
}

/// Appends copies of the entries of `more` to `out`.
fn append_entries(out: &mut Vec<(String, String)>, more: &Vec<(String, String)>)
    ensures
        final(out).deep_view() == old(out).deep_view() + more.deep_view(),
{
    let mut i: usize = 0;
    assert(out.deep_view() =~= old(out).deep_view() + more.deep_view().take(0));
    while i < more.len()
        invariant
            i <= more.len(),
            out.deep_view() == old(out).deep_view() + more.deep_view().take(i as int),
        decreases more.len() - i,
    {
        let ghost before = out.deep_view();
        out.push((more[i].0.clone(), more[i].1.clone()));
        assert(out.deep_view() =~= before.push(more.deep_view()[i as int]));
        assert(out.deep_view() =~= old(out).deep_view() + more.deep_view().take(i + 1));
        i += 1;
    }
    assert(more.deep_view().take(i as int) =~= more.deep_view());
}

/// Merges the matches that the roots gave, root after root, and keeps each
/// path once: where several entries share a path, the first stays.
pub fn merge(lists: &Vec<Vec<(String, String)>>) -> (r: Vec<(String, String)>)
    ensures
        r.deep_view() == keep_first(merged(lists.deep_view()), path_key()),
        distinct_keys(r.deep_view(), path_key()),
{
    let ghost all = lists.deep_view();
    let mut joined: Vec<(String, String)> = Vec::new();
    let mut i: usize = 0;
    assert(all.take(0) =~= Seq::empty());
    assert(joined.deep_view() =~= Seq::empty());
    while i < lists.len()
        invariant
            i <= lists.len(),
            all == lists.deep_view(),
            joined.deep_view() == merged(all.take(i as int)),
        decreases lists.len() - i,
    {
        proof {
            assert(all.take(i + 1).drop_last() =~= all.take(i as int));
            assert(all.take(i + 1).last() == lists[i as int].deep_view());
        }
        append_entries(&mut joined, &lists[i]);
        i += 1;
    }
    assert(all.take(i as int) =~= all);
    distinct_entries(&joined)
}

/// Scans what was met under every root, one root after the other: the
/// footprint is every match, each path once. `progress` is told the running
/// count and the path each time another [`PROGRESS_INTERVAL`] entries have
/// been looked at, and at no other time: it need not even be callable with
/// another count.
pub fn scan<F: Fn(usize, &str)>(
    identity: &AppInfo,
    listings: &Vec<Vec<VisitedEntry>>,
    progress: &F,
) -> (r: Vec<(String, String)>)
    requires
        forall|count: usize, path: &str|
            due_at(count as nat) ==> call_requires(*progress, (count, path)),
    ensures
        r.deep_view() == footprint_of(listings.deep_view(), identity@),
        distinct_keys(r.deep_view(), path_key()),
        kept_informed(*progress, looked_all(listings.deep_view())),
{
    let matcher = IdentityMatcher::new(identity);
    let ghost all = listings.deep_view();
    let mut found: Vec<(String, String)> = Vec::new();
    let mut count: usize = 0;
    let mut i: usize = 0;
    assert(all.take(0) =~= Seq::empty());
    assert(found.deep_view() =~= Seq::empty());
    while i < listings.len()
        invariant
            i <= listings.len(),
            all == listings.deep_view(),
            matcher.identity() == identity@,
            found.deep_view() == found_in(all.take(i as int), identity@),
            looked_all(all.take(i as int)).len() <= usize::MAX ==> count == looked_all(
                all.take(i as int),
            ).len(),
            kept_informed(*progress, looked_all(all.take(i as int))),
            forall|count: usize, path: &str|
                due_at(count as nat) ==> call_requires(*progress, (count, path)),
        decreases listings.len() - i,
    {
        proof {
            assert(all.take(i + 1).drop_last() =~= all.take(i as int));
            assert(all.take(i + 1).last() == listings[i as int].deep_view());
        }
        let listing = &listings[i];
        let ghost entries = listing.deep_view();
        let ghost before_root = found.deep_view();
        let ghost looked_before = looked_all(all.take(i as int));
        let mut j: usize = 0;
        assert(entries.take(0) =~= Seq::empty());
        assert(found.deep_view() =~= before_root + matches_in(entries.take(0), identity@));
        assert(looked_before + looked_in(entries.take(0)) =~= looked_before);
        while j < listing.len()
            invariant
                j <= listing.len(),
                entries == listing.deep_view(),
                matcher.identity() == identity@,
                found.deep_view() == before_root + matches_in(entries.take(j as int), identity@),
                (looked_before + looked_in(entries.take(j as int))).len() <= usize::MAX ==> count
                    == (looked_before + looked_in(entries.take(j as int))).len(),
                kept_informed(*progress, looked_before + looked_in(entries.take(j as int))),
                forall|count: usize, path: &str|
                due_at(count as nat) ==> call_requires(*progress, (count, path)),
            decreases listing.len() - j,
        {
            proof {
                assert(entries.take(j + 1).drop_last() =~= entries.take(j as int));
                assert(entries.take(j + 1).last() == listing[j as int]@);
            }
            let entry = &listing[j];
            let ghost before = found.deep_view();
            match visit(&matcher, entry) {
                Some(matched) => {
                    found.push(matched);
                    assert(found.deep_view() =~= before.push(matched.deep_view()));
                    assert(found.deep_view() =~= before_root + matches_in(
                        entries.take(j + 1),
                        identity@,
                    ));
                },
                None => {},
            }
            if is_looked_at(entry) {
                let ghost looked = looked_before + looked_in(entries.take(j as int));
                let ghost now = looked.push(entry@.path);
                assert(looked_before + looked_in(entries.take(j + 1)) =~= now);
                count = count.wrapping_add(1);
                if progress_due(count) {
                    let path = entry.path.as_str();
                    progress(count, path);
                    assert(call_ensures(*progress, (count, path), ()));
                }
                assert forall|n: int|
                    0 < n <= now.len() && n <= usize::MAX && due_at(n as nat) implies notified(
                        *progress,
                        n as nat,
                        #[trigger] now[n - 1],
                    ) by {
                    if n < now.len() {
                        assert(now[n - 1] == looked[n - 1]);
                    } else {
                        assert(count == n);
                    }
                }
            }
            j += 1;
        }
        assert(entries.take(j as int) =~= entries);
        i += 1;
    }
    assert(all.take(i as int) =~= all);
    distinct_entries(&found)
}

/// Some root's listing holds `entry`.
pub open spec fn visited(listings: Seq<Seq<VisitedEntryView>>, entry: VisitedEntryView) -> bool {
    exists|i: int, j: int|
        0 <= i < listings.len() && 0 <= j < listings[i].len() && #[trigger] listings[i][j]
            == entry
}

/// Some entry of the listing matches and has the path `path`.
pub open spec fn matched_path_in(
    listing: Seq<VisitedEntryView>,
    identity: AppInfoView,
    path: Seq<char>,
) -> bool {
    exists|j: int|
        0 <= j < listing.len() && (#[trigger] listing[j]).path == path && match_of(
            listing[j],
            identity,
        ) is Some
}

/// The paths among the matches of one root are those of its matching
/// entries.
pub proof fn lemma_matches_in_paths(
    listing: Seq<VisitedEntryView>,
    identity: AppInfoView,
    path: Seq<char>,
)
    ensures
        has_key(matches_in(listing, identity), path_key(), path) <==> matched_path_in(
            listing,
            identity,
            path,
        ),
    decreases listing.len(),
{
    let found = matches_in(listing, identity);
    if listing.len() > 0 {
        let init = listing.drop_last();
        let front = matches_in(init, identity);
        lemma_matches_in_paths(init, identity, path);
        if has_key(found, path_key(), path) {
            let k = choose|k: int| 0 <= k < found.len() && #[trigger] path_key()(found[k]) == path;
            if k < front.len() {
                assert(path_key()(front[k]) == path);
                assert(has_key(front, path_key(), path));
                let j = choose|j: int|
                    0 <= j < init.len() && (#[trigger] init[j]).path == path && match_of(
                        init[j],
                        identity,
                    ) is Some;
                assert(listing[j].path == path);
            } else {
                assert(listing[listing.len() - 1].path == path);
            }
        }
        if matched_path_in(listing, identity, path) {
            let j = choose|j: int|
                0 <= j < listing.len() && (#[trigger] listing[j]).path == path && match_of(
                    listing[j],
                    identity,
                ) is Some;
            if j < init.len() {
                assert(init[j].path == path);
                assert(matched_path_in(init, identity, path));
                let k = choose|k: int|
                    0 <= k < front.len() && #[trigger] path_key()(front[k]) == path;
                assert(path_key()(found[k]) == path);
            } else {
                assert(path_key()(found[found.len() - 1]) == path);
            }
        }
    }
}

/// The paths among all matches are those of the matching entries that some
/// root's listing holds.
pub proof fn lemma_found_in_paths(
    listings: Seq<Seq<VisitedEntryView>>,
    identity: AppInfoView,
    path: Seq<char>,
)
    ensures
        has_key(found_in(listings, identity), path_key(), path) <==> exists|
            entry: VisitedEntryView,
        |
            #[trigger] visited(listings, entry) && entry.path == path && match_of(entry, identity)
                is Some,
    decreases listings.len(),
{
    let found = found_in(listings, identity);
    if listings.len() > 0 {
        let init = listings.drop_last();
        let front = found_in(init, identity);
        let tail = matches_in(listings.last(), identity);
        lemma_found_in_paths(init, identity, path);
        lemma_matches_in_paths(listings.last(), identity, path);
        if has_key(found, path_key(), path) {
            let k = choose|k: int| 0 <= k < found.len() && #[trigger] path_key()(found[k]) == path;
            if k < front.len() {
                assert(path_key()(front[k]) == path);
                assert(has_key(front, path_key(), path));
                let entry = choose|entry: VisitedEntryView|
                    #[trigger] visited(init, entry) && entry.path == path && match_of(
                        entry,
                        identity,
                    ) is Some;
                let (i, j) = choose|i: int, j: int|
                    0 <= i < init.len() && 0 <= j < init[i].len() && #[trigger] init[i][j]
                        == entry;
                assert(listings[i][j] == entry);
                assert(visited(listings, entry));
            } else {
                assert(path_key()(tail[k - front.len()]) == path);
                assert(has_key(tail, path_key(), path));
                let j = choose|j: int|
                    0 <= j < listings.last().len() && (#[trigger] listings.last()[j]).path
                        == path && match_of(listings.last()[j], identity) is Some;
                let entry = listings.last()[j];
                assert(listings[listings.len() - 1][j] == entry);
                assert(visited(listings, entry));
            }
        }
        if exists|entry: VisitedEntryView|
            #[trigger] visited(listings, entry) && entry.path == path && match_of(entry, identity)
                is Some {
            let entry = choose|entry: VisitedEntryView|
                #[trigger] visited(listings, entry) && entry.path == path && match_of(
                    entry,
                    identity,
                ) is Some;
            let (i, j) = choose|i: int, j: int|
                0 <= i < listings.len() && 0 <= j < listings[i].len() && #[trigger] listings[i][j]
                    == entry;
            if i < init.len() {
                assert(init[i][j] == entry);
                assert(visited(init, entry));
                assert(has_key(front, path_key(), path));
                let k = choose|k: int|
                    0 <= k < front.len() && #[trigger] path_key()(front[k]) == path;
                assert(path_key()(found[k]) == path);
            } else {
                assert(listings.last()[j].path == path);
                assert(matched_path_in(listings.last(), identity, path));
                assert(has_key(tail, path_key(), path));
                let k = choose|k: int| 0 <= k < tail.len() && #[trigger] path_key()(tail[k]) == path;
                assert(path_key()(found[front.len() + k]) == path);
            }
        }
    }
}

/// The footprint holds a path exactly when some root's listing holds a
/// matching entry with that path.
pub proof fn lemma_footprint_paths(
    listings: Seq<Seq<VisitedEntryView>>,
    identity: AppInfoView,
    path: Seq<char>,
)
    ensures
        has_key(footprint_of(listings, identity), path_key(), path) <==> exists|
            entry: VisitedEntryView,
        |
            #[trigger] visited(listings, entry) && entry.path == path && match_of(entry, identity)
                is Some,
{
    lemma_keep_first(found_in(listings, identity), path_key());
    lemma_found_in_paths(listings, identity, path);
}

/// Scanning again gives the same set of paths: two scans that met the same
/// entries, under whatever roots and in whatever order, find the same paths.
pub proof fn lemma_scan_set_is_stable(
    first: Seq<Seq<VisitedEntryView>>,
    second: Seq<Seq<VisitedEntryView>>,
    identity: AppInfoView,
)
    requires
        forall|entry: VisitedEntryView| visited(first, entry) <==> visited(second, entry),
    ensures
        key_set(footprint_of(first, identity), path_key()) == key_set(
            footprint_of(second, identity),
            path_key(),
        ),
{
    assert forall|path: Seq<char>|
        has_key(footprint_of(first, identity), path_key(), path) <==> has_key(
            footprint_of(second, identity),
            path_key(),
            path,
        ) by {
        lemma_footprint_paths(first, identity, path);
        lemma_footprint_paths(second, identity, path);
        if has_key(footprint_of(first, identity), path_key(), path) {
            let entry = choose|entry: VisitedEntryView|
                #[trigger] visited(first, entry) && entry.path == path && match_of(
                    entry,
                    identity,
                ) is Some;
            assert(visited(second, entry));
        }
        if has_key(footprint_of(second, identity), path_key(), path) {
            let entry = choose|entry: VisitedEntryView|
                #[trigger] visited(second, entry) && entry.path == path && match_of(
                    entry,
                    identity,
                ) is Some;
            assert(visited(first, entry));
        }
    }
    assert(key_set(footprint_of(first, identity), path_key()) =~= key_set(
        footprint_of(second, identity),
        path_key(),
    ));
}

/// No path occurs twice in a footprint, however the roots overlap.
pub proof fn lemma_footprint_has_no_duplicates(
    listings: Seq<Seq<VisitedEntryView>>,
    identity: AppInfoView,
)
    ensures
        distinct_keys(footprint_of(listings, identity), path_key()),
{
    lemma_keep_first(found_in(listings, identity), path_key());
}

/// The matches of each root, as a task of its own would collect them.
pub open spec fn per_root(listings: Seq<Seq<VisitedEntryView>>, identity: AppInfoView) -> Seq<
    Seq<EntryView>,
> {
    Seq::new(listings.len(), |i: int| matches_in(listings[i], identity))
}

/// Scanning the roots apart and merging what they gave finds the footprint:
/// the roots can be scanned by tasks of their own.
pub proof fn lemma_merge_of_roots(listings: Seq<Seq<VisitedEntryView>>, identity: AppInfoView)
    ensures
        merged(per_root(listings, identity)) == found_in(listings, identity),
        keep_first(merged(per_root(listings, identity)), path_key()) == footprint_of(
            listings,
            identity,
        ),
    decreases listings.len(),
{
    if listings.len() > 0 {
        lemma_merge_of_roots(listings.drop_last(), identity);
        assert(per_root(listings, identity).drop_last() =~= per_root(
            listings.drop_last(),
            identity,
        ));
    }
}

} // verus!
