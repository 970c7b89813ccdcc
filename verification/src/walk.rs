//! The walk through the workspace that a search begins with: breadth first, without the directories
//! that are ignored, and bounded.
use crate::files::{ignored_dirs, is_ignored_dir};
use crate::search::SEARCH_MAX_FILES;
use crate::text::{chars_of, has_prefix, starts_with};
use std::collections::VecDeque;
use vstd::prelude::*;

verus! {

/// Files with more bytes than this are not searched.
pub const SEARCH_FILE_SIZE_LIMIT: u64 = 1_000_000;

/// How many entries a walk collects.
pub const WALK_MAX_ENTRIES: usize = SEARCH_MAX_FILES * 5;

/// What an entry of a directory is.
#[derive(Clone, Copy, Debug, PartialEq, Eq)]
pub enum EntryKind {
    Dir,
    File,
    Other,
}

/// An entry of a directory. The number stands for its path.
pub struct WalkEntry {
    pub id: usize,
    pub name: String,
    pub kind: EntryKind,
    /// Its size in bytes, where that could be had.
    pub size: Option<u64>,
}

/// The mathematical value of a [`WalkEntry`].
pub struct WalkEntryView {
    pub id: usize,
    pub name: Seq<char>,
    pub kind: EntryKind,
    pub size: Option<u64>,
}

impl DeepView for WalkEntry {
    type V = WalkEntryView;

    open spec fn deep_view(&self) -> WalkEntryView {
        WalkEntryView { id: self.id, name: self.name@, kind: self.kind, size: self.size }
    }
}

/// A walk: the directories that are still to be read, and what was collected, each entry with
/// whether it is a directory.
pub struct Walk {
    pub queue: VecDeque<usize>,
    pub out: Vec<(usize, bool)>,
    pub done: bool,
}

/// The mathematical value of a [`Walk`].
pub struct WalkView {
    pub queue: Seq<usize>,
    pub out: Seq<(usize, bool)>,
    pub done: bool,
}

impl View for Walk {
    type V = WalkView;

    open spec fn view(&self) -> WalkView {
        WalkView { queue: self.queue@, out: self.out@, done: self.done }
    }
}

/// Whether a walk goes into a directory.
pub open spec fn enters(name: Seq<char>) -> bool {
    !ignored_dirs().contains(name) && !has_prefix(name, "."@)
}

/// Whether a walk collects a file of this size.
pub open spec fn small(size: Option<u64>) -> bool {
    size matches Some(n) && n <= SEARCH_FILE_SIZE_LIMIT
}

/// The walk before its first directory.
pub open spec fn started(root: usize) -> WalkView {
    WalkView { queue: seq![root], out: seq![], done: false }
}

/// The next directory to read, where the walk goes on: it ends where nothing is left, where enough
/// was collected, and where it is told to stop.
pub open spec fn dir_taken(walk: WalkView, stop: bool) -> (WalkView, Option<usize>) {
    if walk.done || walk.queue.len() == 0 || walk.out.len() >= WALK_MAX_ENTRIES || stop {
        (WalkView { done: true, ..walk }, None)
    } else {
        (WalkView { queue: walk.queue.drop_first(), ..walk }, Some(walk.queue[0]))
    }
}

/// The walk after one entry. A file that finds no room ends the walk.
pub open spec fn entry_taken(walk: WalkView, entry: WalkEntryView) -> WalkView {
    let room = walk.out.len() < WALK_MAX_ENTRIES;
    if walk.done {
        walk
    } else if entry.kind == EntryKind::Dir && enters(entry.name) {
        WalkView {
            queue: walk.queue.push(entry.id),
            out: if room {
                walk.out.push((entry.id, true))
            } else {
                walk.out
            },
            done: false,
        }
    } else if entry.kind == EntryKind::File && small(entry.size) {
        if room {
            WalkView { out: walk.out.push((entry.id, false)), ..walk }
        } else {
            WalkView { done: true, ..walk }
        }
    } else {
        walk
    }
}

/// The walk after the first `n` entries of a directory.
pub open spec fn entries_taken(walk: WalkView, entries: Seq<WalkEntryView>, n: int) -> WalkView
    decreases n,
{
    if n <= 0 {
        walk
    } else {
        entry_taken(entries_taken(walk, entries, n - 1), entries[n - 1])
    }
}

impl Walk {
    /// A walk that starts in a directory.
    pub fn new(root: usize) -> (walk: Walk)
        ensures
            walk@ == started(root),
    {
        let mut queue: VecDeque<usize> = VecDeque::new();
        queue.push_back(root);
        Walk { queue, out: Vec::new(), done: false }
    }

    /// The next directory to read, where the walk goes on.
    pub fn next_dir(&mut self, stop: bool) -> (dir: Option<usize>)
        ensures
            (final(self)@, dir) == dir_taken(old(self)@, stop),
    {
        if self.done || self.queue.len() == 0 || self.out.len() >= WALK_MAX_ENTRIES || stop {
            self.done = true;
            return None;
        }
        let dir = self.queue.pop_front();
        assert(self@.queue == old(self)@.queue.drop_first());
        dir
    }

    fn take_entry(&mut self, entry: &WalkEntry)
        ensures
            final(self)@ == entry_taken(old(self)@, entry.deep_view()),
    {
        if self.done {
            return;
        }
        match entry.kind {
            EntryKind::Dir => {
                let name = entry.name.as_str();
                if !is_ignored_dir(name) && !starts_with(&chars_of(name), ".") {
                    if self.out.len() < WALK_MAX_ENTRIES {
                        self.out.push((entry.id, true));
                    }
                    self.queue.push_back(entry.id);
                }
            },
            EntryKind::File => {
                let fits = match entry.size {
                    Some(n) => n <= SEARCH_FILE_SIZE_LIMIT,
                    None => false,
                };
                if fits {
                    if self.out.len() >= WALK_MAX_ENTRIES {
                        self.done = true;
                    } else {
                        self.out.push((entry.id, false));
                    }
                }
            },
            EntryKind::Other => {},
        }
    }

    /// Takes in the entries of the directory that was read.
    pub fn take_entries(&mut self, entries: &Vec<WalkEntry>)
        ensures
            final(self)@ == entries_taken(
                old(self)@,
                entries.deep_view(),
                entries@.len() as int,
            ),
    {
        let ghost before = self@;
        let mut i: usize = 0;
        while i < entries.len()
            invariant
                i <= entries@.len(),
                before == old(self)@,
                self@ == entries_taken(before, entries.deep_view(), i as int),
            decreases entries@.len() - i,
        {
            self.take_entry(&entries[i]);
            i = i + 1;
        }
    }

    /// The files that were collected, in order.
    pub fn walk_files(&self) -> (files: Vec<usize>)
        ensures
            files@ == files_among(self.out@, self.out@.len() as int),
    {
        let mut files: Vec<usize> = Vec::new();
        let mut i: usize = 0;
        while i < self.out.len()
            invariant
                i <= self.out@.len(),
                files@ == files_among(self.out@, i as int),
            decreases self.out@.len() - i,
        {
            if !self.out[i].1 {
                files.push(self.out[i].0);
            }
            i = i + 1;
        }
        files
    }
}

/// The files among the first `n` of the collected entries.
pub open spec fn files_among(out: Seq<(usize, bool)>, n: int) -> Seq<usize>
    decreases n,
{
    if n <= 0 {
        seq![]
    } else if out[n - 1].1 {
        files_among(out, n - 1)
    } else {
        files_among(out, n - 1).push(out[n - 1].0)
    }
}

// ---------------------------------------------------------------------------
// Laws
// ---------------------------------------------------------------------------

/// The walk through a tree after its first `n` directories, where `tree` tells the entries of each.
pub open spec fn walked(
    tree: spec_fn(usize) -> Seq<WalkEntryView>,
    root: usize,
    n: nat,
) -> WalkView
    decreases n,
{
    if n == 0 {
        started(root)
    } else {
        let (walk, dir) = dir_taken(walked(tree, root, (n - 1) as nat), false);
        match dir {
            Some(id) => entries_taken(walk, tree(id), tree(id).len() as int),
            None => walk,
        }
    }
}

/// Whether `depth` tells how deep in the tree each entry lies.
pub open spec fn is_depth(
    tree: spec_fn(usize) -> Seq<WalkEntryView>,
    depth: spec_fn(usize) -> int,
) -> bool {
    forall|dir: usize, i: int|
        0 <= i < tree(dir).len() ==> depth((#[trigger] tree(dir)[i]).id) == depth(dir) + 1
}

/// Whether what was collected goes from the shallow to the deep, and what is left lies no deeper
/// than one below `level`.
pub open spec fn layered(walk: WalkView, depth: spec_fn(usize) -> int, level: int) -> bool {
    &&& forall|i: int, j: int|
        0 <= i < j < walk.out.len() ==> depth((#[trigger] walk.out[i]).0) <= depth(
            (#[trigger] walk.out[j]).0,
        )
    &&& forall|i: int, j: int|
        0 <= i < j < walk.queue.len() ==> depth(#[trigger] walk.queue[i]) <= depth(
            #[trigger] walk.queue[j],
        )
    &&& forall|i: int|
        0 <= i < walk.queue.len() ==> level <= depth(#[trigger] walk.queue[i]) <= level + 1
    &&& forall|i: int| 0 <= i < walk.out.len() ==> depth((#[trigger] walk.out[i]).0) <= level + 1
}

proof fn entries_keep_layers(
    walk: WalkView,
    entries: Seq<WalkEntryView>,
    n: int,
    depth: spec_fn(usize) -> int,
    level: int,
)
    requires
        layered(walk, depth, level),
        0 <= n <= entries.len(),
        forall|i: int| 0 <= i < entries.len() ==> depth((#[trigger] entries[i]).id) == level + 1,
    ensures
        layered(entries_taken(walk, entries, n), depth, level),
    decreases n,
{
    if n > 0 {
        entries_keep_layers(walk, entries, n - 1, depth, level);
        assert(depth(entries[n - 1].id) == level + 1);
    }
}

/// A walk goes breadth first: what lies deeper in the tree is collected later.
pub proof fn walk_is_breadth_first(
    tree: spec_fn(usize) -> Seq<WalkEntryView>,
    root: usize,
    depth: spec_fn(usize) -> int,
    n: nat,
)
    requires
        is_depth(tree, depth),
    ensures
        forall|i: int, j: int|
            0 <= i < j < walked(tree, root, n).out.len() ==> depth(
                (#[trigger] walked(tree, root, n).out[i]).0,
            ) <= depth((#[trigger] walked(tree, root, n).out[j]).0),
{
    walk_stays_layered(tree, root, depth, n);
}

proof fn walk_stays_layered(
    tree: spec_fn(usize) -> Seq<WalkEntryView>,
    root: usize,
    depth: spec_fn(usize) -> int,
    n: nat,
)
    requires
        is_depth(tree, depth),
    ensures
        exists|level: int| #[trigger] layered(walked(tree, root, n), depth, level),
    decreases n,
{
    if n == 0 {
        assert(layered(walked(tree, root, n), depth, depth(root)));
    } else {
        let before = walked(tree, root, (n - 1) as nat);
        walk_stays_layered(tree, root, depth, (n - 1) as nat);
        let level = choose|level: int| #[trigger] layered(before, depth, level);
        let (walk, dir) = dir_taken(before, false);
        match dir {
            Some(id) => {
                let next = depth(id);
                assert(before.queue[0] == id);
                assert forall|i: int| 0 <= i < walk.queue.len() implies next <= depth(
                    #[trigger] walk.queue[i],
                ) <= next + 1 by {
                    assert(walk.queue[i] == before.queue[i + 1]);
                }
                assert(layered(walk, depth, next));
                assert forall|i: int| 0 <= i < tree(id).len() implies depth(
                    (#[trigger] tree(id)[i]).id,
                ) == next + 1 by {}
                entries_keep_layers(walk, tree(id), tree(id).len() as int, depth, next);
                assert(layered(walked(tree, root, n), depth, next));
            },
            None => {
                assert(layered(walked(tree, root, n), depth, level));
            },
        }
    }
}

/// A walk passes over ignored and hidden directories, large files, and what is neither.
pub proof fn walk_passes_over(walk: WalkView, entry: WalkEntryView)
    requires
        entry.kind == EntryKind::Dir ==> !enters(entry.name),
        entry.kind == EntryKind::File ==> !small(entry.size),
    ensures
        entry_taken(walk, entry) == walk,
{
}

/// A walk never collects more than its limit.
pub proof fn walk_is_bounded(walk: WalkView, entries: Seq<WalkEntryView>, n: int)
    requires
        walk.out.len() <= WALK_MAX_ENTRIES,
    ensures
        entries_taken(walk, entries, n).out.len() <= WALK_MAX_ENTRIES,
    decreases n,
{
    if n > 0 {
        walk_is_bounded(walk, entries, n - 1);
    }
}

/// A walk collects every directory that is neither ignored nor hidden, and goes into it later; and
/// every file that has no more than a million bytes. A directory that finds no room among the ten
/// thousand entries is still gone into; a file that finds none ends the walk.
pub proof fn walk_collects(walk: WalkView, entry: WalkEntryView)
    requires
        !walk.done,
    ensures
        entry.kind == EntryKind::Dir && !ignored_dirs().contains(entry.name) && (entry.name.len()
            == 0 || entry.name[0] != '.') ==> ({
            let next = entry_taken(walk, entry);
            &&& next.queue == walk.queue.push(entry.id)
            &&& walk.out.len() < 10_000 ==> next.out == walk.out.push((entry.id, true))
            &&& walk.out.len() >= 10_000 ==> next.out == walk.out
            &&& !next.done
        }),
        entry.kind == EntryKind::Dir && (ignored_dirs().contains(entry.name) || (entry.name.len()
            > 0 && entry.name[0] == '.')) ==> entry_taken(walk, entry) == walk,
        entry.kind == EntryKind::File ==> (entry.size matches Some(size) ==> (size <= 1_000_000
            ==> ({
            let next = entry_taken(walk, entry);
            &&& next.queue == walk.queue
            &&& walk.out.len() < 10_000 ==> next.out == walk.out.push((entry.id, false))
                && !next.done
            &&& walk.out.len() >= 10_000 ==> next.out == walk.out && next.done
        }))),
        entry.kind == EntryKind::File ==> (entry.size matches Some(size) ==> (size > 1_000_000
            ==> entry_taken(walk, entry) == walk)),
        entry.kind == EntryKind::File && entry.size is None ==> entry_taken(walk, entry) == walk,
        entry.kind == EntryKind::Other ==> entry_taken(walk, entry) == walk,
{
    reveal_strlit(".");
    let dot = "."@;
    assert(dot == seq!['.']);
    if entry.name.len() > 0 {
        assert(entry.name.subrange(0, 1) == seq![entry.name[0]]);
        if has_prefix(entry.name, dot) {
            assert(entry.name.subrange(0, 1)[0] == '.');
        }
    }
}

/// A walk that has ended takes nothing in, and asks for nothing.
pub proof fn ended_walk_stays(walk: WalkView, entry: WalkEntryView, stop: bool)
    requires
        walk.done,
    ensures
        entry_taken(walk, entry) == walk,
        dir_taken(walk, stop) == (walk, None::<usize>),
{
}

/// A walk begins in its root, reads the directories in the order in which they were found, and ends
/// where none is left, where ten thousand entries were collected, or where it is told to.
pub proof fn directories_are_read_in_turn(walk: WalkView, root: usize, stop: bool)
    ensures
        dir_taken(started(root), false) == (
            WalkView { queue: seq![], out: seq![], done: false },
            Some(root),
        ),
        !walk.done && walk.queue.len() > 0 && walk.out.len() < 10_000 && !stop ==> dir_taken(
            walk,
            stop,
        ) == (
            WalkView { queue: walk.queue.subrange(1, walk.queue.len() as int), ..walk },
            Some(walk.queue[0]),
        ),
        walk.queue.len() == 0 || walk.out.len() >= 10_000 || stop ==> dir_taken(walk, stop) == (
            WalkView { done: true, ..walk },
            None::<usize>,
        ),
{
    assert(started(root).queue.drop_first() == Seq::<usize>::empty());
    if walk.queue.len() > 0 {
        assert(walk.queue.drop_first() == walk.queue.subrange(1, walk.queue.len() as int));
    }
}

/// Every entry of a directory is taken in, however many stand in front of it.
pub proof fn every_entry_is_taken_in(
    walk: WalkView,
    entries: Seq<WalkEntryView>,
    entry: WalkEntryView,
)
    ensures
        entries_taken(walk, seq![], 0) == walk,
        entries_taken(walk, entries.push(entry), entries.len() as int + 1) == entry_taken(
            entries_taken(walk, entries, entries.len() as int),
            entry,
        ),
{
    same_entries_taken(walk, entries.push(entry), entries, entries.len() as int);
}

proof fn same_entries_taken(
    walk: WalkView,
    a: Seq<WalkEntryView>,
    b: Seq<WalkEntryView>,
    n: int,
)
    requires
        n <= a.len(),
        n <= b.len(),
        forall|i: int| 0 <= i < n ==> #[trigger] a[i] == b[i],
    ensures
        entries_taken(walk, a, n) == entries_taken(walk, b, n),
    decreases n,
{
    if n > 0 {
        same_entries_taken(walk, a, b, n - 1);
        assert(a[n - 1] == b[n - 1]);
    }
}

/// The files of a walk are the entries that are no directories, in the order in which they were
/// collected.
pub proof fn files_are_what_is_no_directory(out: Seq<(usize, bool)>, entry: (usize, bool))
    ensures
        files_among(seq![], 0) == Seq::<usize>::empty(),
        entry.1 ==> files_among(out.push(entry), out.len() as int + 1) == files_among(
            out,
            out.len() as int,
        ),
        !entry.1 ==> files_among(out.push(entry), out.len() as int + 1) == files_among(
            out,
            out.len() as int,
        ).push(entry.0),
{
    same_files_among(out.push(entry), out, out.len() as int);
}

proof fn same_files_among(a: Seq<(usize, bool)>, b: Seq<(usize, bool)>, n: int)
    requires
        n <= a.len(),
        n <= b.len(),
        forall|i: int| 0 <= i < n ==> #[trigger] a[i] == b[i],
    ensures
        files_among(a, n) == files_among(b, n),
    decreases n,
{
    if n > 0 {
        same_files_among(a, b, n - 1);
        assert(a[n - 1] == b[n - 1]);
    }
}

} // verus!
