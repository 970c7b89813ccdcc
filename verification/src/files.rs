//! The file panel: which paths it may touch, and how it shows directories and files.
use crate::outside::lowercase;
use crate::sort::{arranged, belongs_before, is_order, is_sorted_list, sort_order, sorting_loses_nothing, SortKey};
use crate::text::{chars_of, str_eq};
use crate::version::{order_texts, text_order, text_order_chains, text_order_reversed};
use std::cmp::Ordering;
use vstd::prelude::*;

verus! {

// ---------------------------------------------------------------------------
// The sidebar
// ---------------------------------------------------------------------------

/// The sidebar. Its bar of icons is always there; its panel may be folded away.
pub struct Sidebar {
    pub hidden: bool,
}

impl Sidebar {
    /// The sidebar as the application starts with it: its panel is shown.
    pub fn new() -> (sidebar: Sidebar)
        ensures
            !sidebar.hidden,
    {
        Sidebar { hidden: false }
    }
}

/// The sidebar after its panel was folded away, or unfolded.
pub open spec fn toggled(sidebar: Sidebar) -> Sidebar {
    Sidebar { hidden: !sidebar.hidden }
}

/// Whether the panel is folded away.
pub fn sidebar_hidden(sidebar: &Sidebar) -> (hidden: bool)
    ensures
        hidden == sidebar.hidden,
{
    sidebar.hidden
}

/// Folds the panel away, or unfolds it, and tells which.
pub fn toggle_sidebar(sidebar: &mut Sidebar) -> (hidden: bool)
    ensures
        *final(sidebar) == toggled(*old(sidebar)),
        hidden == final(sidebar).hidden,
{
    sidebar.hidden = !sidebar.hidden;
    sidebar.hidden
}

/// Toggling the sidebar changes it, and toggling it twice gives back what was there.
pub proof fn toggling_twice_restores(sidebar: Sidebar)
    ensures
        toggled(sidebar).hidden == !sidebar.hidden,
        toggled(toggled(sidebar)) == sidebar,
{
}

// ---------------------------------------------------------------------------
// The workspace
// ---------------------------------------------------------------------------

/// The directory that the sidebar works in: that of the kernel's session where it is one, else the
/// application's own.
pub fn workspace_root<P>(
    session: Option<P>,
    session_is_dir: bool,
    own: P,
    own_is_dir: bool,
    own_shown: &str,
) -> (root: Result<P, String>)
    ensures
        match session {
            Some(dir) if session_is_dir => root == Ok::<P, String>(dir),
            _ => if own_is_dir {
                root == Ok::<P, String>(own)
            } else {
                root matches Err(e) && e@ == "工作区目录不存在："@ + own_shown@
            },
        },
{
    if let Some(dir) = session {
        if session_is_dir {
            return Ok(dir);
        }
    }
    if !own_is_dir {
        let mut error = "工作区目录不存在：".to_string();
        error.append(own_shown);
        return Err(error);
    }
    Ok(own)
}

/// What the sidebar tells of the workspace.
pub struct WorkspaceInfo {
    pub path: String,
    pub name: String,
    pub is_git_repo: bool,
    /// Whether it is a repository, but there is no git.
    pub git_missing: bool,
}

/// What the sidebar tells of the workspace: it is named after its directory, or by its whole path
/// where that has no name.
pub fn workspace_info(
    shown: &str,
    file_name: Option<String>,
    has_git_dir: bool,
    git_available: bool,
) -> (info: WorkspaceInfo)
    ensures
        info.path@ == shown@,
        info.name@ == (match file_name {
            Some(name) => name@,
            None => shown@,
        }),
        info.is_git_repo == has_git_dir,
        info.git_missing == (has_git_dir && !git_available),
{
    let name = match file_name {
        Some(name) => name,
        None => shown.to_string(),
    };
    WorkspaceInfo {
        path: shown.to_string(),
        name,
        is_git_repo: has_git_dir,
        git_missing: has_git_dir && !git_available,
    }
}

// ---------------------------------------------------------------------------
// Staying inside the workspace
// ---------------------------------------------------------------------------

/// A resolved path: the path itself, and its components from the root of the file system down.
pub struct Place<P> {
    pub path: P,
    pub components: Vec<Vec<u8>>,
}

/// Whether a path lies within a directory: it is that directory, or leads on from it.
pub open spec fn within(root: Seq<Seq<u8>>, path: Seq<Seq<u8>>) -> bool {
    root.len() <= path.len() && path.subrange(0, root.len() as int) == root
}

fn same_bytes(a: &Vec<u8>, b: &Vec<u8>) -> (same: bool)
    ensures
        same == (a@ == b@),
{
    if a.len() != b.len() {
        return false;
    }
    let mut i: usize = 0;
    while i < a.len()
        invariant
            i <= a@.len(),
            a@.len() == b@.len(),
            forall|k: int| 0 <= k < i ==> a@[k] == b@[k],
        decreases a@.len() - i,
    {
        if a[i] != b[i] {
            assert(a@ != b@);
            return false;
        }
        i = i + 1;
    }
    assert(a@ == b@);
    true
}

/// Whether a path lies within a directory, component by component.
pub fn is_within(root: &Vec<Vec<u8>>, path: &Vec<Vec<u8>>) -> (inside: bool)
    ensures
        inside == within(root.deep_view(), path.deep_view()),
{
    let ghost r = root.deep_view();
    let ghost p = path.deep_view();
    assert forall|k: int| 0 <= k < root@.len() implies #[trigger] r[k] == root@[k]@ by {
        assert(root@[k].deep_view() == root@[k]@);
    }
    assert forall|k: int| 0 <= k < path@.len() implies #[trigger] p[k] == path@[k]@ by {
        assert(path@[k].deep_view() == path@[k]@);
    }
    if root.len() > path.len() {
        return false;
    }
    let mut i: usize = 0;
    while i < root.len()
        invariant
            i <= root@.len() <= path@.len(),
            r.len() == root@.len(),
            p.len() == path@.len(),
            r == root.deep_view(),
            p == path.deep_view(),
            forall|k: int| 0 <= k < root@.len() ==> #[trigger] r[k] == root@[k]@,
            forall|k: int| 0 <= k < path@.len() ==> #[trigger] p[k] == path@[k]@,
            forall|k: int| 0 <= k < i ==> #[trigger] r[k] == p[k],
        decreases root@.len() - i,
    {
        if !same_bytes(&root[i], &path[i]) {
            assert(r[i as int] != p[i as int]);
            assert(p.subrange(0, r.len() as int)[i as int] == p[i as int]);
            return false;
        }
        assert(r[i as int] == p[i as int]);
        i = i + 1;
    }
    assert(p.subrange(0, r.len() as int) == r);
    true
}

/// Accepts a path only where it lies within the workspace. Both are resolved first, so that neither
/// a link nor a step upwards leads out; either may fail to resolve, for a reason.
pub fn ensure_inside<P>(
    root: Result<Vec<Vec<u8>>, String>,
    path: Result<Place<P>, String>,
    shown: &str,
) -> (accepted: Result<P, String>)
    ensures
        match (root, path) {
            (Err(reason), _) => accepted matches Err(e) && e@ == reason@,
            (Ok(_), Err(reason)) => accepted matches Err(e) && e@ == "路径无效（"@ + shown@
                + "）："@ + reason@,
            (Ok(dir), Ok(place)) => if within(dir.deep_view(), place.components.deep_view()) {
                accepted == Ok::<P, String>(place.path)
            } else {
                accepted matches Err(e) && e@ == "路径超出工作区范围："@ + shown@
            },
        },
{
    match root {
        Err(reason) => Err(reason),
        Ok(dir) => match path {
            Err(reason) => {
                let mut error = "路径无效（".to_string();
                error.append(shown);
                error.append("）：");
                error.append(reason.as_str());
                Err(error)
            },
            Ok(place) => if is_within(&dir, &place.components) {
                Ok(place.path)
            } else {
                let mut error = "路径超出工作区范围：".to_string();
                error.append(shown);
                Err(error)
            },
        },
    }
}

/// The parent directory of a path, which not every path has.
pub fn parent_of<P>(parent: Option<P>) -> (found: Result<P, String>)
    ensures
        match parent {
            Some(dir) => found == Ok::<P, String>(dir),
            None => found matches Err(e) && e@ == "路径缺少父目录"@,
        },
{
    match parent {
        Some(dir) => Ok(dir),
        None => Err("路径缺少父目录".to_string()),
    }
}

/// Accepts a path that need not exist yet only where its parent directory lies within the
/// workspace. `parent` is the resolved parent, where the path has one, with the text that shows it.
pub fn ensure_parent_inside<P>(
    root: Result<Vec<Vec<u8>>, String>,
    parent: Option<(Result<Place<P>, String>, String)>,
) -> (accepted: Result<(), String>)
    ensures
        match (parent, root) {
            (None, _) => accepted matches Err(e) && e@ == "路径缺少父目录"@,
            (Some(_), Err(reason)) => accepted matches Err(e) && e@ == reason@,
            (Some((Err(reason), shown)), Ok(_)) => accepted matches Err(e) && e@ == "路径无效（"@
                + shown@ + "）："@ + reason@,
            (Some((Ok(place), shown)), Ok(dir)) => if within(
                dir.deep_view(),
                place.components.deep_view(),
            ) {
                accepted == Ok::<(), String>(())
            } else {
                accepted matches Err(e) && e@ == "路径超出工作区范围："@ + shown@
            },
        },
{
    match parent_of(parent) {
        Err(error) => Err(error),
        Ok((place, shown)) => match ensure_inside(root, place, shown.as_str()) {
            Ok(_) => Ok(()),
            Err(error) => Err(error),
        },
    }
}

/// The directory that a request means: the workspace itself where it names none, else one that must
/// lie within it.
pub fn requested_dir<P>(
    root: Result<Place<P>, String>,
    path: Result<Place<P>, String>,
    dir: &str,
) -> (target: Result<P, String>)
    ensures
        match root {
            Err(reason) => target matches Err(e) && e@ == reason@,
            Ok(top) => if dir@.len() == 0 {
                target == Ok::<P, String>(top.path)
            } else {
                match path {
                    Err(reason) => target matches Err(e) && e@ == "路径无效（"@ + dir@ + "）："@
                        + reason@,
                    Ok(place) => if within(
                        top.components.deep_view(),
                        place.components.deep_view(),
                    ) {
                        target == Ok::<P, String>(place.path)
                    } else {
                        target matches Err(e) && e@ == "路径超出工作区范围："@ + dir@
                    },
                }
            },
        },
{
    match root {
        Err(reason) => Err(reason),
        Ok(top) => if dir.is_empty() {
            Ok(top.path)
        } else {
            ensure_inside(Ok(top.components), path, dir)
        },
    }
}

/// The directory itself where it is one; it was accepted, or not, for a reason.
pub fn require_dir<P>(target: Result<P, String>, is_dir: bool, shown: &str) -> (dir: Result<
    P,
    String,
>)
    ensures
        match target {
            Err(reason) => dir matches Err(e) && e@ == reason@,
            Ok(path) => if is_dir {
                dir == Ok::<P, String>(path)
            } else {
                dir matches Err(e) && e@ == "不是目录："@ + shown@
            },
        },
{
    match target {
        Err(reason) => Err(reason),
        Ok(path) => if is_dir {
            Ok(path)
        } else {
            let mut error = "不是目录：".to_string();
            error.append(shown);
            Err(error)
        },
    }
}

/// Accepts a new file only where there is nothing under its name.
pub fn require_absent(present: bool, name: &str) -> (accepted: Result<(), String>)
    ensures
        if present {
            accepted matches Err(e) && e@ == "已存在："@ + name@
        } else {
            accepted == Ok::<(), String>(())
        },
{
    if present {
        let mut error = "已存在：".to_string();
        error.append(name);
        Err(error)
    } else {
        Ok(())
    }
}

/// The outcome of copying a path to the clipboard.
pub fn fs_copy_path(outcome: Result<(), String>) -> (answer: Result<(), String>)
    ensures
        match outcome {
            Ok(_) => answer == Ok::<(), String>(()),
            Err(reason) => answer matches Err(e) && e@ == "复制失败："@ + reason@,
        },
{
    match outcome {
        Ok(_) => Ok(()),
        Err(reason) => {
            let mut error = "复制失败：".to_string();
            error.append(reason.as_str());
            Err(error)
        },
    }
}

/// What lies within a directory that lies within another lies within that one.
pub proof fn within_is_transitive(a: Seq<Seq<u8>>, b: Seq<Seq<u8>>, c: Seq<Seq<u8>>)
    requires
        within(a, b),
        within(b, c),
    ensures
        within(a, c),
{
    assert(c.subrange(0, a.len() as int) == c.subrange(0, b.len() as int).subrange(
        0,
        a.len() as int,
    ));
}

/// An entry whose parent directory lies within the workspace lies within it itself.
pub proof fn child_is_within(root: Seq<Seq<u8>>, parent: Seq<Seq<u8>>, name: Seq<u8>)
    requires
        within(root, parent),
    ensures
        within(root, parent.push(name)),
{
    assert(parent.push(name).subrange(0, root.len() as int) == parent.subrange(
        0,
        root.len() as int,
    ));
}

// ---------------------------------------------------------------------------
// Directories
// ---------------------------------------------------------------------------

/// The directories that neither the tree nor the search goes into.
pub open spec fn ignored_dirs() -> Seq<Seq<char>> {
    seq![
        ".git"@,
        "node_modules"@,
        "target"@,
        "dist"@,
        "build"@,
        "out"@,
        "coverage"@,
        "vendor"@,
        ".venv"@,
        "venv"@,
        "__pycache__"@,
        ".next"@,
        ".cache"@,
        "log"@,
        "logs"@,
        ".gradle"@,
        ".idea"@,
    ]
}

/// Whether neither the tree nor the search goes into a directory of this name.
pub fn is_ignored_dir(name: &str) -> (ignored: bool)
    ensures
        ignored == ignored_dirs().contains(name@),
{
    let names: [&str; 17] = [
        ".git",
        "node_modules",
        "target",
        "dist",
        "build",
        "out",
        "coverage",
        "vendor",
        ".venv",
        "venv",
        "__pycache__",
        ".next",
        ".cache",
        "log",
        "logs",
        ".gradle",
        ".idea",
    ];
    let mut i: usize = 0;
    while i < 17
        invariant
            i <= 17,
            names@.len() == 17,
            ignored_dirs().len() == 17,
            forall|k: int| 0 <= k < 17 ==> (#[trigger] names@[k])@ == ignored_dirs()[k],
            forall|k: int| 0 <= k < i ==> #[trigger] ignored_dirs()[k] != name@,
        decreases 17 - i,
    {
        assert(names@[i as int]@ == ignored_dirs()[i as int]);
        if str_eq(names[i], name) {
            return true;
        }
        i = i + 1;
    }
    assert(!ignored_dirs().contains(name@));
    false
}

/// An entry of a directory.
pub struct DirItem {
    pub name: String,
    pub path: String,
    pub is_dir: bool,
}

/// The mathematical value of a [`DirItem`].
pub struct DirItemView {
    pub name: Seq<char>,
    pub path: Seq<char>,
    pub is_dir: bool,
}

impl DeepView for DirItem {
    type V = DirItemView;

    open spec fn deep_view(&self) -> DirItemView {
        DirItemView { name: self.name@, path: self.path@, is_dir: self.is_dir }
    }
}

/// What an entry is sorted by: directories come first, then the names in lower case decide.
pub struct ItemKey {
    pub is_dir: bool,
    pub folded: Vec<char>,
}

impl SortKey for ItemKey {
    open spec fn comes_before(self, other: ItemKey) -> bool {
        if self.is_dir != other.is_dir {
            self.is_dir
        } else {
            text_order(self.folded@, other.folded@) == Ordering::Less
        }
    }

    proof fn one_way(a: ItemKey, b: ItemKey) {
        text_order_reversed(a.folded@, b.folded@);
    }

    proof fn in_line(a: ItemKey, b: ItemKey, c: ItemKey) {
        text_order_chains(c.folded@, a.folded@, b.folded@);
        text_order_reversed(a.folded@, c.folded@);
    }

    fn is_before(&self, other: &ItemKey) -> (b: bool) {
        if self.is_dir != other.is_dir {
            self.is_dir
        } else {
            match order_texts(&self.folded, &other.folded) {
                Ordering::Less => true,
                _ => false,
            }
        }
    }
}

/// The keys of entries, where `folded` holds their names in lower case.
pub open spec fn item_keys_are(
    keys: Seq<ItemKey>,
    items: Seq<DirItemView>,
    folded: Seq<Seq<char>>,
) -> bool {
    &&& keys.len() == items.len()
    &&& forall|i: int|
        0 <= i < keys.len() ==> (#[trigger] keys[i]).is_dir == items[i].is_dir && keys[i].folded@
            == folded[i]
}

/// Whether `listed` holds the entries as the tree shows them: directories first, then by their
/// names in lower case; what is equal in that keeps its order.
pub open spec fn tree_order(
    items: Seq<DirItemView>,
    folded: Seq<Seq<char>>,
    listed: Seq<DirItemView>,
) -> bool {
    exists|keys: Seq<ItemKey>| #[trigger]
        item_keys_are(keys, items, folded) && is_sorted_list(keys, items, listed)
}

/// The names of entries in lower case.
pub open spec fn lower_names(items: Seq<DirItemView>) -> Seq<Seq<char>> {
    Seq::new(items.len(), |i: int| lowercase(items[i].name))
}

fn copy_item(item: &DirItem) -> (copy: DirItem)
    ensures
        copy.deep_view() == item.deep_view(),
{
    DirItem { name: item.name.clone(), path: item.path.clone(), is_dir: item.is_dir }
}

/// The entries as the tree shows them, where `folded` holds their names in lower case.
pub fn sort_items(items: &Vec<DirItem>, folded: &Vec<String>) -> (listed: Vec<DirItem>)
    requires
        folded@.len() == items@.len(),
    ensures
        tree_order(items.deep_view(), folded.deep_view(), listed.deep_view()),
{
    let ghost list = items.deep_view();
    let ghost names = folded.deep_view();
    let mut keys: Vec<ItemKey> = Vec::new();
    let mut i: usize = 0;
    while i < items.len()
        invariant
            i <= items@.len(),
            folded@.len() == items@.len(),
            list == items.deep_view(),
            names == folded.deep_view(),
            keys@.len() == i,
            forall|k: int|
                0 <= k < i ==> (#[trigger] keys@[k]).is_dir == list[k].is_dir && keys@[k].folded@
                    == names[k],
        decreases items@.len() - i,
    {
        keys.push(ItemKey { is_dir: items[i].is_dir, folded: chars_of(folded[i].as_str()) });
        i = i + 1;
    }
    let order = sort_order(&keys);
    let mut listed: Vec<DirItem> = Vec::new();
    let mut j: usize = 0;
    while j < order.len()
        invariant
            j <= order@.len(),
            list == items.deep_view(),
            is_order(keys@, order@, items@.len() as int),
            listed@.len() == j,
            forall|k: int|
                0 <= k < j ==> #[trigger] listed.deep_view()[k] == list[order@[k] as int],
        decreases order@.len() - j,
    {
        let ghost before = listed.deep_view();
        let item = copy_item(&items[order[j]]);
        listed.push(item);
        assert(listed.deep_view() == before.push(item.deep_view()));
        j = j + 1;
    }
    assert(item_keys_are(keys@, list, names));
    assert(arranged(list, order@) == listed.deep_view());
    listed
}

/// The entries of a directory as the tree shows them.
pub fn read_dir_sorted(items: &Vec<DirItem>) -> (listed: Vec<DirItem>)
    ensures
        tree_order(items.deep_view(), lower_names(items.deep_view()), listed.deep_view()),
{
    let mut folded: Vec<String> = Vec::new();
    let mut i: usize = 0;
    while i < items.len()
        invariant
            i <= items@.len(),
            folded@.len() == i,
            forall|k: int|
                0 <= k < i ==> #[trigger] folded.deep_view()[k] == lowercase(
                    items.deep_view()[k].name,
                ),
        decreases items@.len() - i,
    {
        let ghost before = folded.deep_view();
        let name = items[i].name.as_str().to_lowercase();
        folded.push(name);
        assert(folded.deep_view() == before.push(name@));
        i = i + 1;
    }
    assert(folded.deep_view() == lower_names(items.deep_view()));
    sort_items(items, &folded)
}

/// Whether the tree shows an entry: all but ignored directories.
pub open spec fn tree_shows(item: DirItemView) -> bool {
    !(item.is_dir && ignored_dirs().contains(item.name))
}

/// The entries that the tree shows, in order.
pub fn shown_items(items: Vec<DirItem>) -> (shown: Vec<DirItem>)
    ensures
        shown.deep_view() == items.deep_view().filter(|item: DirItemView| tree_shows(item)),
{
    let mut shown: Vec<DirItem> = Vec::new();
    let ghost keep = |item: DirItemView| tree_shows(item);
    let ghost list = items.deep_view();
    let mut i: usize = 0;
    assert(list.subrange(0, 0).filter(keep) == Seq::<DirItemView>::empty()) by {
        reveal(Seq::filter);
    }
    assert(shown.deep_view() == Seq::<DirItemView>::empty());
    while i < items.len()
        invariant
            i <= items@.len(),
            list == items.deep_view(),
            keep == (|item: DirItemView| tree_shows(item)),
            shown.deep_view() == list.subrange(0, i as int).filter(keep),
        decreases items@.len() - i,
    {
        let ghost before = shown.deep_view();
        proof {
            reveal(Seq::filter);
            assert(list.subrange(0, i + 1).drop_last() == list.subrange(0, i as int));
            assert(list.subrange(0, i + 1).last() == list[i as int]);
        }
        if !(items[i].is_dir && is_ignored_dir(items[i].name.as_str())) {
            let item = copy_item(&items[i]);
            shown.push(item);
            assert(shown.deep_view() == before.push(item.deep_view()));
        }
        i = i + 1;
    }
    assert(list.subrange(0, list.len() as int) == list);
    shown
}

/// The entries of a directory that the tree shows, as it shows them.
pub fn fs_list(items: &Vec<DirItem>) -> (shown: Vec<DirItem>)
    ensures
        exists|listed: Seq<DirItemView>| #[trigger]
            tree_order(items.deep_view(), lower_names(items.deep_view()), listed)
                && shown.deep_view() == listed.filter(|item: DirItemView| tree_shows(item)),
{
    shown_items(read_dir_sorted(items))
}

/// The word by which the tree tells directories and files apart.
pub fn kind_of(is_dir: bool) -> (kind: &'static str)
    ensures
        kind@ == (if is_dir {
            "dir"@
        } else {
            "file"@
        }),
{
    if is_dir {
        "dir"
    } else {
        "file"
    }
}

/// In the tree no file stands in front of a directory.
pub proof fn directories_come_first(
    items: Seq<DirItemView>,
    folded: Seq<Seq<char>>,
    listed: Seq<DirItemView>,
    i: int,
    j: int,
)
    requires
        folded.len() == items.len(),
        tree_order(items, folded, listed),
        0 <= i < j < listed.len(),
        listed[j].is_dir,
    ensures
        listed[i].is_dir,
{
    let keys = choose|keys: Seq<ItemKey>| #[trigger]
        item_keys_are(keys, items, folded) && is_sorted_list(keys, items, listed);
    let order = choose|order: Seq<usize>| #[trigger]
        is_order(keys, order, items.len() as int) && arranged(items, order) == listed;
    assert(keys[order[i] as int].is_dir == items[order[i] as int].is_dir);
    assert(keys[order[j] as int].is_dir == items[order[j] as int].is_dir);
}

/// A path lies within a directory exactly where it leads on from it: the directory's own components,
/// and then any others. A name that merely begins like another does not count.
pub proof fn within_means_leading_on(root: Seq<Seq<u8>>, path: Seq<Seq<u8>>, rest: Seq<Seq<u8>>)
    ensures
        within(root, root + rest),
        within(root, path) ==> path == root + path.subrange(root.len() as int, path.len() as int),
        (exists|i: int|
            0 <= i < root.len() && (i >= path.len() || #[trigger] root[i] != path[i])) ==> !within(
            root,
            path,
        ),
{
    assert((root + rest).subrange(0, root.len() as int) == root);
    if within(root, path) {
        assert(path == root + path.subrange(root.len() as int, path.len() as int));
        assert forall|i: int| 0 <= i < root.len() implies i < path.len() && #[trigger] root[i]
            == path[i] by {
            assert(path.subrange(0, root.len() as int)[i] == path[i]);
        }
    }
}

/// A path is accepted exactly where it and the workspace can be resolved and it lies within; what is
/// handed on is the resolved path.
pub proof fn only_paths_inside_are_accepted<P>(
    root: Result<Vec<Vec<u8>>, String>,
    path: Result<Place<P>, String>,
    shown: &str,
    accepted: Result<P, String>,
)
    requires
        call_ensures(ensure_inside::<P>, (root, path, shown), accepted),
    ensures
        root is Err ==> accepted is Err && accepted->Err_0@ == root->Err_0@,
        root is Ok && path is Err ==> accepted is Err && accepted->Err_0@ == "路径无效（"@ + shown@
            + "）："@ + path->Err_0@,
        root is Ok && path is Ok && within(
            root->Ok_0.deep_view(),
            path->Ok_0.components.deep_view(),
        ) ==> accepted is Ok && accepted->Ok_0 == path->Ok_0.path,
        root is Ok && path is Ok && !within(
            root->Ok_0.deep_view(),
            path->Ok_0.components.deep_view(),
        ) ==> accepted is Err && accepted->Err_0@ == "路径超出工作区范围："@ + shown@,
{
}

/// A path that need not exist yet is accepted only where its parent directory can be resolved and
/// lies within the workspace.
pub proof fn only_parents_inside_are_accepted<P>(
    root: Result<Vec<Vec<u8>>, String>,
    parent: Option<(Result<Place<P>, String>, String)>,
    accepted: Result<(), String>,
)
    requires
        call_ensures(ensure_parent_inside::<P>, (root, parent), accepted),
    ensures
        accepted is Ok ==> root is Ok && parent is Some && (parent->0).0 is Ok && within(
            root->Ok_0.deep_view(),
            ((parent->0).0)->Ok_0.components.deep_view(),
        ),
        root is Ok && parent is Some && (parent->0).0 is Ok && within(
            root->Ok_0.deep_view(),
            ((parent->0).0)->Ok_0.components.deep_view(),
        ) ==> accepted is Ok,
        parent is None ==> accepted is Err && accepted->Err_0@ == "路径缺少父目录"@,
{
}

/// A request that names no directory means the workspace; one that names another is accepted only
/// where that lies within the workspace.
pub proof fn requests_stay_inside<P>(
    root: Result<Place<P>, String>,
    path: Result<Place<P>, String>,
    dir: &str,
    target: Result<P, String>,
)
    requires
        call_ensures(requested_dir::<P>, (root, path, dir), target),
    ensures
        root is Err ==> target is Err && target->Err_0@ == root->Err_0@,
        root is Ok && dir@.len() == 0 ==> target is Ok && target->Ok_0 == root->Ok_0.path,
        root is Ok && dir@.len() > 0 && target is Ok ==> path is Ok && target->Ok_0
            == path->Ok_0.path && within(
            root->Ok_0.components.deep_view(),
            path->Ok_0.components.deep_view(),
        ),
        root is Ok && dir@.len() > 0 && path is Ok && within(
            root->Ok_0.components.deep_view(),
            path->Ok_0.components.deep_view(),
        ) ==> target is Ok,
{
}

/// The sidebar works in the directory of the kernel's session where that is one, else in the
/// application's own, which must then be one.
pub proof fn session_directory_comes_first<P>(
    session: Option<P>,
    session_is_dir: bool,
    own: P,
    own_is_dir: bool,
    own_shown: &str,
    root: Result<P, String>,
)
    requires
        call_ensures(
            workspace_root::<P>,
            (session, session_is_dir, own, own_is_dir, own_shown),
            root,
        ),
    ensures
        session is Some && session_is_dir ==> root is Ok && root->Ok_0 == session->0,
        (session is None || !session_is_dir) && own_is_dir ==> root is Ok && root->Ok_0 == own,
        (session is None || !session_is_dir) && !own_is_dir ==> root is Err && root->Err_0@
            == "工作区目录不存在："@ + own_shown@,
{
}

/// The directories that are ignored are those that tools fill: no other name is.
pub proof fn ignored_names(name: Seq<char>)
    ensures
        ignored_dirs().contains(name) == (name == ".git"@ || name == "node_modules"@ || name
            == "target"@ || name == "dist"@ || name == "build"@ || name == "out"@ || name
            == "coverage"@ || name == "vendor"@ || name == ".venv"@ || name == "venv"@ || name
            == "__pycache__"@ || name == ".next"@ || name == ".cache"@ || name == "log"@ || name
            == "logs"@ || name == ".gradle"@ || name == ".idea"@),
{
    let list = ignored_dirs();
    assert(list.len() == 17);
    assert(list[0] == ".git"@);
    assert(list[1] == "node_modules"@);
    assert(list[2] == "target"@);
    assert(list[3] == "dist"@);
    assert(list[4] == "build"@);
    assert(list[5] == "out"@);
    assert(list[6] == "coverage"@);
    assert(list[7] == "vendor"@);
    assert(list[8] == ".venv"@);
    assert(list[9] == "venv"@);
    assert(list[10] == "__pycache__"@);
    assert(list[11] == ".next"@);
    assert(list[12] == ".cache"@);
    assert(list[13] == "log"@);
    assert(list[14] == "logs"@);
    assert(list[15] == ".gradle"@);
    assert(list[16] == ".idea"@);
}

/// The tree shows every file, whatever its name, and every directory whose name is not ignored.
pub proof fn tree_shows_files_and_other_directories(item: DirItemView)
    ensures
        !item.is_dir ==> tree_shows(item),
        item.is_dir ==> tree_shows(item) == !ignored_dirs().contains(item.name),
{
}

/// In the tree the entries of one kind stand in the order of their names in lower case.
pub proof fn names_are_in_order(items: Seq<DirItemView>, listed: Seq<DirItemView>, i: int, j: int)
    requires
        tree_order(items, lower_names(items), listed),
        0 <= i < j < listed.len(),
        listed[i].is_dir == listed[j].is_dir,
    ensures
        text_order(lowercase(listed[i].name), lowercase(listed[j].name)) != Ordering::Greater,
{
    let folded = lower_names(items);
    let keys = choose|keys: Seq<ItemKey>| #[trigger]
        item_keys_are(keys, items, folded) && is_sorted_list(keys, items, listed);
    let (order, n) = choose|order: Seq<usize>, n: int| #[trigger]
        is_order(keys, order, n) && n == items.len() && arranged(items, order) == listed;
    let a = place(order, i);
    let b = place(order, j);
    assert(belongs_before(keys, a, b));
    assert(keys[a].is_dir == items[a].is_dir && keys[a].folded@ == folded[a]);
    assert(keys[b].is_dir == items[b].is_dir && keys[b].folded@ == folded[b]);
    text_order_reversed(folded[a], folded[b]);
}

/// Where an order puts an item.
spec fn place(order: Seq<usize>, i: int) -> int {
    order[i] as int
}

/// The tree loses nothing: it lists every entry, and no other.
pub proof fn tree_lists_every_entry(items: Seq<DirItemView>, listed: Seq<DirItemView>)
    requires
        tree_order(items, lower_names(items), listed),
    ensures
        listed.len() == items.len(),
        forall|item: DirItemView| #[trigger] listed.contains(item) == items.contains(item),
{
    let keys = choose|keys: Seq<ItemKey>| #[trigger]
        item_keys_are(keys, items, lower_names(items)) && is_sorted_list(keys, items, listed);
    sorting_loses_nothing(keys, items, listed);
}

/// A listing shows exactly the entries that the tree shows, directories first.
pub proof fn listing_shows_what_the_tree_shows(items: &Vec<DirItem>, shown: Vec<DirItem>)
    requires
        call_ensures(fs_list, (items,), shown),
    ensures
        forall|item: DirItemView| #[trigger]
            shown.deep_view().contains(item) == (items.deep_view().contains(item) && tree_shows(item)),
        forall|i: int, j: int|
            0 <= i < j < shown@.len() && (#[trigger] shown.deep_view()[j]).is_dir
                ==> (#[trigger] shown.deep_view()[i]).is_dir,
{
    let list = items.deep_view();
    let keep = |item: DirItemView| tree_shows(item);
    let listed = choose|listed: Seq<DirItemView>| #[trigger]
        tree_order(list, lower_names(list), listed) && shown.deep_view() == listed.filter(keep);
    tree_lists_every_entry(list, listed);
    filter_keeps_what_it_should(listed, keep);
    filter_keeps_order(list, listed, keep);
}

/// A filter keeps exactly the items that it should.
proof fn filter_keeps_what_it_should(
    listed: Seq<DirItemView>,
    keep: spec_fn(DirItemView) -> bool,
)
    ensures
        forall|item: DirItemView| #[trigger]
            listed.filter(keep).contains(item) == (listed.contains(item) && keep(item)),
    decreases listed.len(),
{
    reveal(Seq::filter);
    if listed.len() > 0 {
        let init = listed.drop_last();
        let last = listed.last();
        filter_keeps_what_it_should(init, keep);
        let kept = listed.filter(keep);
        let before = init.filter(keep);
        assert(listed == init.push(last));
        assert forall|item: DirItemView| #[trigger] kept.contains(item) == (listed.contains(item)
            && keep(item)) by {
            if kept.contains(item) {
                let k = choose|k: int| 0 <= k < kept.len() && kept[k] == item;
                if k < before.len() {
                    assert(before[k] == item);
                    assert(before.contains(item));
                    let i = choose|i: int| 0 <= i < init.len() && init[i] == item;
                    assert(listed[i] == item);
                } else {
                    assert(listed[listed.len() - 1] == item);
                }
            }
            if listed.contains(item) && keep(item) {
                let i = choose|i: int| 0 <= i < listed.len() && listed[i] == item;
                if i < init.len() {
                    assert(init[i] == item);
                    assert(init.contains(item));
                    assert(before.contains(item));
                    let k = choose|k: int| 0 <= k < before.len() && before[k] == item;
                    assert(kept[k] == item);
                } else {
                    assert(kept[kept.len() - 1] == item);
                }
            }
        }
    }
}

/// What is left of a list in which directories come first has them first as well.
proof fn filter_keeps_order(
    items: Seq<DirItemView>,
    listed: Seq<DirItemView>,
    keep: spec_fn(DirItemView) -> bool,
)
    requires
        tree_order(items, lower_names(items), listed),
    ensures
        forall|i: int, j: int|
            0 <= i < j < listed.filter(keep).len() && (#[trigger] listed.filter(keep)[j]).is_dir
                ==> (#[trigger] listed.filter(keep)[i]).is_dir,
{
    assert forall|i: int, j: int| 0 <= i < j < listed.len() && (#[trigger] listed[j]).is_dir implies (
    #[trigger] listed[i]).is_dir by {
        directories_come_first(items, lower_names(items), listed, i, j);
    }
    directories_stay_first(listed, keep);
}

proof fn directories_stay_first(listed: Seq<DirItemView>, keep: spec_fn(DirItemView) -> bool)
    requires
        forall|i: int, j: int|
            0 <= i < j < listed.len() && (#[trigger] listed[j]).is_dir
                ==> (#[trigger] listed[i]).is_dir,
    ensures
        forall|i: int, j: int|
            0 <= i < j < listed.filter(keep).len() && (#[trigger] listed.filter(keep)[j]).is_dir
                ==> (#[trigger] listed.filter(keep)[i]).is_dir,
    decreases listed.len(),
{
    reveal(Seq::filter);
    if listed.len() > 0 {
        let init = listed.drop_last();
        directories_stay_first(init, keep);
        let kept = listed.filter(keep);
        let before = init.filter(keep);
        filter_keeps_what_it_should(init, keep);
        assert forall|i: int, j: int| 0 <= i < j < kept.len() && (#[trigger] kept[j]).is_dir implies (
        #[trigger] kept[i]).is_dir by {
            if j < before.len() {
                assert(kept[i] == before[i] && kept[j] == before[j]);
            } else {
                assert(kept[j] == listed[listed.len() - 1]);
                assert(kept[i] == before[i]);
                assert(before.contains(before[i]));
                let k = choose|k: int| 0 <= k < init.len() && init[k] == before[i];
                assert(listed[k] == before[i]);
            }
        }
    }
}

/// The workspace is named after its directory, or by its whole path where that has no name; that git
/// is missing is told only of a repository.
pub proof fn workspace_is_named_after_its_directory(
    shown: &str,
    file_name: Option<String>,
    has_git_dir: bool,
    git_available: bool,
    info: WorkspaceInfo,
)
    requires
        call_ensures(workspace_info, (shown, file_name, has_git_dir, git_available), info),
    ensures
        info.path@ == shown@,
        file_name matches Some(name) ==> info.name@ == name@,
        file_name is None ==> info.name@ == shown@,
        info.is_git_repo == has_git_dir,
        info.git_missing ==> has_git_dir && !git_available,
        has_git_dir && !git_available ==> info.git_missing,
{
}

/// Only a directory is listed, and only a name under which there is nothing is given to a new file.
pub proof fn listings_and_new_files_are_checked<P>(
    target: Result<P, String>,
    is_dir: bool,
    present: bool,
    shown: &str,
    dir: Result<P, String>,
    accepted: Result<(), String>,
)
    requires
        call_ensures(require_dir::<P>, (target, is_dir, shown), dir),
        call_ensures(require_absent, (present, shown), accepted),
    ensures
        target is Err ==> dir is Err && dir->Err_0@ == target->Err_0@,
        target is Ok && is_dir ==> dir is Ok && dir->Ok_0 == target->Ok_0,
        target is Ok && !is_dir ==> dir is Err && dir->Err_0@ == "不是目录："@ + shown@,
        present ==> accepted is Err && accepted->Err_0@ == "已存在："@ + shown@,
        !present ==> accepted is Ok,
{
}

} // verus!
