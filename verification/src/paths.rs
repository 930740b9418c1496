//! Paths as lists of parts, and the directories to watch for desktop entries.
use crate::text::chars_of;
use vstd::prelude::*;

verus! {

/// How many links are followed on the way to a directory.
pub const MAX_LINK_DEPTH: u8 = 32;

/// A part of a path. A name is a row of bytes.
#[derive(Clone, Debug, PartialEq, Eq)]
pub enum PathPart {
    /// The root, in front of an absolute path.
    Root,
    /// The directory itself, written as a dot.
    Current,
    /// The directory above, written as two dots.
    Parent,
    Name(Vec<u8>),
}

/// The contents of a `PathPart`.
pub enum PartModel {
    Root,
    Current,
    Parent,
    Name(Seq<u8>),
}

impl View for PathPart {
    type V = PartModel;

    open spec fn view(&self) -> PartModel {
        match *self {
            PathPart::Root => PartModel::Root,
            PathPart::Current => PartModel::Current,
            PathPart::Parent => PartModel::Parent,
            PathPart::Name(name) => PartModel::Name(name@),
        }
    }
}

pub open spec fn parts_of(path: Seq<PathPart>) -> Seq<PartModel> {
    path.map_values(|part: PathPart| part@)
}

/// A path without dots: a name is dropped by the two dots behind it, and nothing stands above
/// the start.
pub open spec fn normalized(path: Seq<PartModel>) -> Seq<PartModel>
    decreases path.len(),
{
    if path.len() == 0 {
        Seq::empty()
    } else {
        let before = normalized(path.drop_last());
        match path.last() {
            PartModel::Root => seq![PartModel::Root],
            PartModel::Current => before,
            PartModel::Parent => if before.len() > 0 && before.last() is Name {
                before.drop_last()
            } else {
                before
            },
            PartModel::Name(name) => before.push(PartModel::Name(name)),
        }
    }
}

/// Whether a path has no dots, and the root nowhere but in front.
pub open spec fn is_plain(path: Seq<PartModel>) -> bool {
    forall|i: int|
        0 <= i < path.len() ==> (#[trigger] path[i]) is Name || (path[i] is Root && i == 0)
}

fn copy_bytes(bytes: &Vec<u8>) -> (r: Vec<u8>)
    ensures
        r@ == bytes@,
{
    let mut out: Vec<u8> = Vec::new();
    let mut i: usize = 0;
    while i < bytes.len()
        invariant
            i <= bytes@.len(),
            out@ =~= bytes@.take(i as int),
        decreases bytes@.len() - i,
    {
        out.push(bytes[i]);
        i = i + 1;
    }
    out
}

fn same_bytes(a: &Vec<u8>, b: &Vec<u8>) -> (r: bool)
    ensures
        r == (a@ == b@),
{
    if a.len() != b.len() {
        return false;
    }
    let mut i: usize = 0;
    while i < a.len()
        invariant
            i <= a@.len(),
            a@.len() == b@.len(),
            forall|k: int| 0 <= k < i ==> a@[k] == b@[k],
        decreases a@.len() - i,
    {
        if a[i] != b[i] {
            return false;
        }
        i = i + 1;
    }
    assert(a@ =~= b@);
    true
}

fn copy_part(part: &PathPart) -> (r: PathPart)
    ensures
        r@ == part@,
{
    match part {
        PathPart::Root => PathPart::Root,
        PathPart::Current => PathPart::Current,
        PathPart::Parent => PathPart::Parent,
        PathPart::Name(name) => PathPart::Name(copy_bytes(name)),
    }
}

fn same_part(a: &PathPart, b: &PathPart) -> (r: bool)
    ensures
        r == (a@ == b@),
{
    match (a, b) {
        (PathPart::Root, PathPart::Root) => true,
        (PathPart::Current, PathPart::Current) => true,
        (PathPart::Parent, PathPart::Parent) => true,
        (PathPart::Name(x), PathPart::Name(y)) => same_bytes(x, y),
        _ => false,
    }
}

pub fn copy_path(path: &Vec<PathPart>) -> (r: Vec<PathPart>)
    ensures
        parts_of(r@) == parts_of(path@),
{
    let mut out: Vec<PathPart> = Vec::new();
    append_parts(&mut out, path);
    assert(parts_of(out@) =~= parts_of(path@));
    out
}

pub fn same_path(a: &Vec<PathPart>, b: &Vec<PathPart>) -> (r: bool)
    ensures
        r == (parts_of(a@) == parts_of(b@)),
{
    if a.len() != b.len() {
        assert(parts_of(a@).len() != parts_of(b@).len());
        return false;
    }
    let mut i: usize = 0;
    while i < a.len()
        invariant
            i <= a@.len(),
            a@.len() == b@.len(),
            forall|k: int| 0 <= k < i ==> parts_of(a@)[k] == parts_of(b@)[k],
        decreases a@.len() - i,
    {
        if !same_part(&a[i], &b[i]) {
            assert(parts_of(a@)[i as int] != parts_of(b@)[i as int]);
            return false;
        }
        i = i + 1;
    }
    assert(parts_of(a@) =~= parts_of(b@));
    true
}

fn append_parts(path: &mut Vec<PathPart>, tail: &Vec<PathPart>)
    ensures
        parts_of(final(path)@) == parts_of(old(path)@) + parts_of(tail@),
{
    let mut i: usize = 0;
    assert(parts_of(path@) =~= parts_of(path@) + parts_of(tail@).take(0));
    while i < tail.len()
        invariant
            i <= tail@.len(),
            parts_of(path@) == parts_of(old(path)@) + parts_of(tail@).take(i as int),
        decreases tail@.len() - i,
    {
        let ghost before = path@;
        path.push(copy_part(&tail[i]));
        assert(parts_of(path@) =~= parts_of(before).push(tail@[i as int]@));
        assert(parts_of(tail@).take(i as int + 1) =~= parts_of(tail@).take(i as int).push(
            tail@[i as int]@,
        ));
        assert(parts_of(path@) =~= parts_of(old(path)@) + parts_of(tail@).take(i as int + 1));
        i = i + 1;
    }
    assert(parts_of(tail@).take(tail@.len() as int) =~= parts_of(tail@));
}

/// A path without dots.
pub fn normalize_path(path: &Vec<PathPart>) -> (r: Vec<PathPart>)
    ensures
        parts_of(r@) == normalized(parts_of(path@)),
{
    let mut out: Vec<PathPart> = Vec::new();
    let mut i: usize = 0;
    assert(parts_of(path@).take(0) =~= Seq::<PartModel>::empty());
    assert(parts_of(out@) =~= Seq::<PartModel>::empty());
    while i < path.len()
        invariant
            i <= path@.len(),
            parts_of(out@) == normalized(parts_of(path@).take(i as int)),
        decreases path@.len() - i,
    {
        let ghost before = parts_of(out@);
        proof {
            let next = parts_of(path@).take(i as int + 1);
            assert(next.drop_last() =~= parts_of(path@).take(i as int));
            assert(next.last() == path@[i as int]@);
        }
        match &path[i] {
            PathPart::Root => {
                out = Vec::new();
                out.push(PathPart::Root);
                assert(parts_of(out@) =~= seq![PartModel::Root]);
            },
            PathPart::Current => {},
            PathPart::Parent => {
                let n: usize = out.len();
                let named = if n > 0 {
                    assert(before.last() == out@[n - 1]@);
                    match &out[n - 1] {
                        PathPart::Name(_) => true,
                        _ => false,
                    }
                } else {
                    false
                };
                if named {
                    out.pop();
                    assert(parts_of(out@) =~= before.drop_last());
                }
            },
            PathPart::Name(name) => {
                out.push(PathPart::Name(copy_bytes(name)));
                assert(parts_of(out@) =~= before.push(PartModel::Name(name@)));
            },
        }
        i = i + 1;
    }
    assert(parts_of(path@).take(path@.len() as int) =~= parts_of(path@));
    out
}

/// A normalized path has no dots.
pub proof fn normalized_is_plain(path: Seq<PartModel>)
    ensures
        is_plain(normalized(path)),
    decreases path.len(),
{
    if path.len() > 0 {
        normalized_is_plain(path.drop_last());
        let before = normalized(path.drop_last());
        assert forall|i: int| 0 <= i < normalized(path).len() implies (
        #[trigger] normalized(path)[i]) is Name || (normalized(path)[i] is Root && i == 0) by {
            if i < before.len() {
                assert(before[i] is Name || (before[i] is Root && i == 0));
            }
        }
    }
}

/// A path without dots is left as it is, so normalizing twice is normalizing once.
pub proof fn normalizing_is_idempotent(path: Seq<PartModel>)
    ensures
        is_plain(path) ==> normalized(path) == path,
        normalized(normalized(path)) == normalized(path),
{
    if is_plain(path) {
        plain_paths_stay(path);
    }
    normalized_is_plain(path);
    plain_paths_stay(normalized(path));
}

proof fn plain_paths_stay(path: Seq<PartModel>)
    requires
        is_plain(path),
    ensures
        normalized(path) == path,
    decreases path.len(),
{
    if path.len() > 0 {
        let front = path.drop_last();
        assert forall|i: int| 0 <= i < front.len() implies (#[trigger] front[i]) is Name || (
        front[i] is Root && i == 0) by {
            assert(path[i] is Name || (path[i] is Root && i == 0));
        }
        plain_paths_stay(front);
        assert(path[path.len() - 1] is Name || (path[path.len() - 1] is Root && path.len() - 1
            == 0));
        assert(normalized(path) =~= path);
    } else {
        assert(normalized(path) =~= path);
    }
}

/// The directory that holds the path: all but its last name.
pub open spec fn parent_of(path: Seq<PartModel>) -> Seq<PartModel> {
    if path.len() > 0 && path.last() is Name {
        path.drop_last()
    } else {
        seq![PartModel::Root]
    }
}

/// Where the way goes on when `link`, a normalized path, is a link to `target` and `rest` is
/// still to be gone.
pub open spec fn followed(
    link: Seq<PartModel>,
    target: Seq<PartModel>,
    rest: Seq<PartModel>,
) -> Seq<PartModel> {
    if target.len() > 0 && target[0] is Root {
        normalized(target + rest)
    } else {
        normalized(parent_of(link) + target + rest)
    }
}

/// Follows a link on the way to a directory.
pub fn follow_link(link: &Vec<PathPart>, target: &Vec<PathPart>, rest: &Vec<PathPart>) -> (r: Vec<
    PathPart,
>)
    ensures
        parts_of(r@) == followed(parts_of(link@), parts_of(target@), parts_of(rest@)),
{
    let mut next: Vec<PathPart> = Vec::new();
    let absolute = if target.len() > 0 {
        assert(parts_of(target@)[0] == target@[0]@);
        match &target[0] {
            PathPart::Root => true,
            _ => false,
        }
    } else {
        false
    };
    if !absolute {
        let n: usize = link.len();
        let named = if n > 0 {
            assert(parts_of(link@).last() == link@[n - 1]@);
            match &link[n - 1] {
                PathPart::Name(_) => true,
                _ => false,
            }
        } else {
            false
        };
        if named {
            next = copy_path(link);
            let ghost whole = next@;
            next.pop();
            assert(parts_of(next@) =~= parts_of(whole).drop_last());
        } else {
            next.push(PathPart::Root);
            assert(parts_of(next@) =~= seq![PartModel::Root]);
        }
    } else {
        assert(parts_of(next@) + parts_of(target@) =~= parts_of(target@));
    }
    append_parts(&mut next, target);
    append_parts(&mut next, rest);
    normalize_path(&next)
}

/// Whether a change that the watcher reported is about the watched path: the first or the second
/// path that it named. A report that names no path counts.
pub open spec fn watch_hit(
    exact: Option<Seq<PartModel>>,
    first: Option<Seq<PartModel>>,
    second: Option<Seq<PartModel>>,
) -> bool {
    match exact {
        None => true,
        Some(exact) => {
            ||| first is None && second is None
            ||| first matches Some(path) && normalized(path) == normalized(exact)
            ||| second matches Some(path) && normalized(path) == normalized(exact)
        },
    }
}

pub open spec fn opt_parts(path: Option<Vec<PathPart>>) -> Option<Seq<PartModel>> {
    match path {
        Some(path) => Some(parts_of(path@)),
        None => None,
    }
}

/// Whether a change is about the watched path.
pub fn desktop_watch_matches(
    exact: &Option<Vec<PathPart>>,
    first: &Option<Vec<PathPart>>,
    second: &Option<Vec<PathPart>>,
) -> (r: bool)
    ensures
        r == watch_hit(opt_parts(*exact), opt_parts(*first), opt_parts(*second)),
{
    let exact = match exact {
        Some(exact) => normalize_path(exact),
        None => return true,
    };
    if let Some(path) = first {
        let path = normalize_path(path);
        if same_path(&path, &exact) {
            return true;
        }
    }
    if let Some(path) = second {
        let path = normalize_path(path);
        if same_path(&path, &exact) {
            return true;
        }
    }
    first.is_none() && second.is_none()
}

/// A directory to watch, and the one path in it that matters where it is not all of it.
#[derive(Clone, Debug, PartialEq, Eq)]
pub struct DesktopWatch {
    pub directory: Vec<PathPart>,
    pub exact_path: Option<Vec<PathPart>>,
}

/// The contents of a `DesktopWatch`.
pub struct WatchModel {
    pub directory: Seq<PartModel>,
    pub exact_path: Option<Seq<PartModel>>,
}

impl View for DesktopWatch {
    type V = WatchModel;

    open spec fn view(&self) -> WatchModel {
        WatchModel { directory: parts_of(self.directory@), exact_path: opt_parts(self.exact_path) }
    }
}

pub open spec fn watches_of(watches: Seq<DesktopWatch>) -> Seq<WatchModel> {
    watches.map_values(|watch: DesktopWatch| watch@)
}

/// What is known of a directory to watch.
pub struct DirectoryFacts {
    pub is_directory: bool,
    /// The directory that is there, and the part under it that is missing on the way.
    pub missing: Option<(Vec<PathPart>, Vec<PathPart>)>,
    /// The directory that holds it, where that is there.
    pub parent: Option<Vec<PathPart>>,
}

/// The watches for a directory: on itself, and on what has to appear or could be replaced.
pub open spec fn directory_watch_models(path: Seq<PartModel>, facts: DirectoryFacts) -> Seq<
    WatchModel,
> {
    let own = if facts.is_directory {
        seq![WatchModel { directory: path, exact_path: None }]
    } else {
        Seq::empty()
    };
    match (facts.missing, facts.parent) {
        (Some(missing), _) => own.push(
            WatchModel {
                directory: parts_of(missing.0@),
                exact_path: Some(parts_of(missing.1@)),
            },
        ),
        (None, Some(parent)) => own.push(
            WatchModel { directory: parts_of(parent@), exact_path: Some(path) },
        ),
        (None, None) => own,
    }
}

pub fn directory_watches(path: &Vec<PathPart>, facts: &DirectoryFacts) -> (r: Vec<DesktopWatch>)
    ensures
        watches_of(r@) == directory_watch_models(parts_of(path@), *facts),
{
    let mut out: Vec<DesktopWatch> = Vec::new();
    if facts.is_directory {
        out.push(DesktopWatch { directory: copy_path(path), exact_path: None });
    }
    match (&facts.missing, &facts.parent) {
        (Some(missing), _) => {
            out.push(
                DesktopWatch {
                    directory: copy_path(&missing.0),
                    exact_path: Some(copy_path(&missing.1)),
                },
            );
        },
        (None, Some(parent)) => {
            out.push(
                DesktopWatch { directory: copy_path(parent), exact_path: Some(copy_path(path)) },
            );
        },
        (None, None) => {},
    }
    assert(watches_of(out@) =~= directory_watch_models(parts_of(path@), *facts));
    out
}

/// What is known of one of the directories of desktop entries.
pub struct WatchPlace {
    pub path: Vec<PathPart>,
    pub facts: DirectoryFacts,
    /// The links on the way to it, each with whether the directory that holds it is there.
    pub links: Vec<(Vec<PathPart>, bool)>,
    /// The directory that the links lead to; the path itself where there are none.
    pub resolved: Vec<PathPart>,
    pub resolved_facts: DirectoryFacts,
}

/// The watch on a link: on the directory that holds it, where that is there.
pub open spec fn link_watch(link: Seq<PartModel>, held: bool) -> Option<WatchModel> {
    if held && link.len() > 0 && link.last() is Name {
        Some(WatchModel { directory: link.drop_last(), exact_path: Some(link) })
    } else {
        None
    }
}

/// The watches on the links of a list.
pub open spec fn link_watches(links: Seq<(Vec<PathPart>, bool)>) -> Seq<WatchModel>
    decreases links.len(),
{
    if links.len() == 0 {
        Seq::empty()
    } else {
        let before = link_watches(links.drop_last());
        match link_watch(parts_of(links.last().0@), links.last().1) {
            Some(watch) => before.push(watch),
            None => before,
        }
    }
}

impl WatchPlace {
    /// The watches for the directory, for the links on the way, and for where they lead.
    pub open spec fn watch_models(&self) -> Seq<WatchModel> {
        directory_watch_models(parts_of(self.path@), self.facts) + link_watches(self.links@) + (
        if parts_of(self.resolved@) == parts_of(self.path@) {
            Seq::empty()
        } else {
            directory_watch_models(parts_of(self.resolved@), self.resolved_facts)
        })
    }

    fn watches(&self) -> (r: Vec<DesktopWatch>)
        ensures
            watches_of(r@) == self.watch_models(),
    {
        let mut out = directory_watches(&self.path, &self.facts);
        let ghost first = watches_of(out@);
        let mut i: usize = 0;
        assert(self.links@.take(0) =~= Seq::<(Vec<PathPart>, bool)>::empty());
        assert(first + link_watches(self.links@.take(0)) =~= first);
        while i < self.links.len()
            invariant
                i <= self.links@.len(),
                watches_of(out@) =~= first + link_watches(self.links@.take(i as int)),
            decreases self.links@.len() - i,
        {
            let ghost next = self.links@.take(i as int + 1);
            assert(next.drop_last() =~= self.links@.take(i as int));
            assert(next.last() == self.links@[i as int]);
            let link = &self.links[i].0;
            assert(parts_of(link@).len() == link@.len());
            let named = link.len() > 0 && match &link[link.len() - 1] {
                PathPart::Name(_) => true,
                _ => false,
            };
            assert(named == (link@.len() > 0 && parts_of(link@).last() is Name));
            if self.links[i].1 && named {
                let directory = ancestor_path(link, 1);
                assert(ancestor(parts_of(link@), 1) =~= parts_of(link@).drop_last());
                let exact = copy_path(link);
                let watch = DesktopWatch { directory, exact_path: Some(exact) };
                assert(Some(watch@) == link_watch(parts_of(link@), true));
                let ghost before = watches_of(out@);
                out.push(watch);
                assert(watches_of(out@) =~= before.push(watch@));
            }
            i = i + 1;
        }
        assert(self.links@.take(self.links@.len() as int) =~= self.links@);
        if !same_path(&self.resolved, &self.path) {
            let ghost before = watches_of(out@);
            let mut more = directory_watches(&self.resolved, &self.resolved_facts);
            let ghost added = watches_of(more@);
            out.append(&mut more);
            assert(watches_of(out@) =~= before + added);
        }
        assert(watches_of(out@) =~= self.watch_models());
        out
    }
}

/// The watches for all places, one place after the other.
pub open spec fn all_watches(places: Seq<WatchPlace>) -> Seq<WatchModel>
    decreases places.len(),
{
    if places.len() == 0 {
        Seq::empty()
    } else {
        all_watches(places.drop_last()) + places.last().watch_models()
    }
}

/// The watches of a list, each once, in the order in which they first come.
pub open spec fn distinct_watches(list: Seq<WatchModel>) -> Seq<WatchModel>
    decreases list.len(),
{
    if list.len() == 0 {
        Seq::empty()
    } else {
        let before = distinct_watches(list.drop_last());
        if before.contains(list.last()) {
            before
        } else {
            before.push(list.last())
        }
    }
}

/// Each watch is set up once, and none is left out.
pub proof fn watches_are_set_up_once(list: Seq<WatchModel>)
    ensures
        distinct_watches(list).no_duplicates(),
        forall|watch: WatchModel| #[trigger]
            distinct_watches(list).contains(watch) == list.contains(watch),
    decreases list.len(),
{
    if list.len() > 0 {
        let front = list.drop_last();
        let (before, all) = (distinct_watches(front), distinct_watches(list));
        watches_are_set_up_once(front);
        assert(front.push(list.last()) =~= list);
        assert forall|watch: WatchModel| #[trigger]
            all.contains(watch) == list.contains(watch) by {
            grown_members(front, list.last(), watch);
            grown_members(before, list.last(), watch);
            assert(before.contains(watch) == front.contains(watch));
        }
        if !before.contains(list.last()) {
            assert forall|i: int, j: int|
                0 <= i < all.len() && 0 <= j < all.len() && i != j implies all[i] != all[j] by {
                if i < before.len() && j < before.len() {
                    assert(before[i] != before[j]);
                } else if i < before.len() {
                    assert(before.contains(before[i]));
                } else {
                    assert(before.contains(before[j]));
                }
            }
        }
    }
}

proof fn grown_members(list: Seq<WatchModel>, x: WatchModel, t: WatchModel)
    ensures
        list.push(x).contains(t) == (list.contains(t) || t == x),
{
    if list.contains(t) {
        let i = choose|i: int| 0 <= i < list.len() && list[i] == t;
        assert(list.push(x)[i] == t);
    }
    assert(list.push(x)[list.len() as int] == x);
}

fn same_watch(a: &DesktopWatch, b: &DesktopWatch) -> (r: bool)
    ensures
        r == (a@ == b@),
{
    same_path(&a.directory, &b.directory) && match (&a.exact_path, &b.exact_path) {
        (Some(x), Some(y)) => same_path(x, y),
        (None, None) => true,
        _ => false,
    }
}

fn has_watch(list: &Vec<DesktopWatch>, watch: &DesktopWatch) -> (r: bool)
    ensures
        r == watches_of(list@).contains(watch@),
{
    let mut i: usize = 0;
    while i < list.len()
        invariant
            i <= list@.len(),
            forall|k: int| 0 <= k < i ==> watches_of(list@)[k] != watch@,
        decreases list@.len() - i,
    {
        if same_watch(&list[i], watch) {
            assert(watches_of(list@)[i as int] == watch@);
            return true;
        }
        i = i + 1;
    }
    false
}

/// The watches for the directories of desktop entries, each once.
pub fn desktop_watches(places: &Vec<WatchPlace>) -> (r: Vec<DesktopWatch>)
    ensures
        watches_of(r@) == distinct_watches(all_watches(places@)),
{
    let mut rest: Vec<DesktopWatch> = Vec::new();
    let mut i: usize = 0;
    assert(places@.take(0) =~= Seq::<WatchPlace>::empty());
    while i < places.len()
        invariant
            i <= places@.len(),
            watches_of(rest@) =~= all_watches(places@.take(i as int)),
        decreases places@.len() - i,
    {
        let ghost next = places@.take(i as int + 1);
        assert(next.drop_last() =~= places@.take(i as int));
        assert(next.last() == places@[i as int]);
        let ghost before = watches_of(rest@);
        let mut more = places[i].watches();
        let ghost added = watches_of(more@);
        rest.append(&mut more);
        assert(watches_of(rest@) =~= before + added);
        i = i + 1;
    }
    assert(places@.take(places@.len() as int) =~= places@);
    let ghost all = watches_of(rest@);
    let mut out: Vec<DesktopWatch> = Vec::new();
    let ghost mut done: int = 0;
    assert(all.take(0) =~= Seq::<WatchModel>::empty());
    while rest.len() > 0
        invariant
            0 <= done <= all.len(),
            watches_of(rest@) =~= all.skip(done),
            watches_of(out@) =~= distinct_watches(all.take(done)),
        decreases rest@.len(),
    {
        let ghost remaining = watches_of(rest@);
        assert(remaining.len() == rest@.len());
        let watch = rest.remove(0);
        proof {
            assert(watch@ == remaining[0]);
            assert(all.take(done + 1).drop_last() =~= all.take(done));
            assert(all.take(done + 1).last() == watch@);
            assert(watches_of(rest@) =~= remaining.skip(1));
            done = done + 1;
        }
        if !has_watch(&out, &watch) {
            out.push(watch);
        }
    }
    assert(watches_of(rest@).len() == rest@.len());
    assert(all.take(all.len() as int) =~= all);
    out
}

/// Whether path `i` differs from all paths before it.
pub open spec fn is_first(paths: Seq<Seq<PartModel>>, i: int) -> bool {
    forall|j: int| 0 <= j < i ==> #[trigger] paths[j] != paths[i]
}

/// The positions below `n` of the paths that differ from all before them.
pub open spec fn first_positions(paths: Seq<Seq<PartModel>>, n: nat) -> Seq<usize>
    decreases n,
{
    if n == 0 {
        Seq::empty()
    } else {
        let before = first_positions(paths, (n - 1) as nat);
        if is_first(paths, n - 1) {
            before.push((n - 1) as usize)
        } else {
            before
        }
    }
}

/// The normalized forms of paths.
pub open spec fn normal_forms(paths: Seq<Vec<PathPart>>) -> Seq<Seq<PartModel>> {
    paths.map_values(|path: Vec<PathPart>| normalized(parts_of(path@)))
}

/// The positions of the paths, each taken once however it is written.
pub fn distinct_paths(paths: &Vec<Vec<PathPart>>) -> (r: Vec<usize>)
    ensures
        r@ == first_positions(normal_forms(paths@), paths@.len()),
{
    let mut forms: Vec<Vec<PathPart>> = Vec::new();
    let mut out: Vec<usize> = Vec::new();
    let ghost all = normal_forms(paths@);
    let mut i: usize = 0;
    while i < paths.len()
        invariant
            all == normal_forms(paths@),
            i <= paths@.len(),
            forms@.len() == i,
            forall|k: int| 0 <= k < i ==> parts_of((#[trigger] forms@[k])@) == all[k],
            out@ == first_positions(all, i as nat),
        decreases paths@.len() - i,
    {
        let form = normalize_path(&paths[i]);
        assert(parts_of(form@) == all[i as int]);
        let mut seen = false;
        let mut j: usize = 0;
        while j < i
            invariant
                all == normal_forms(paths@),
                i < paths@.len(),
                j <= i,
                forms@.len() == i,
                parts_of(form@) == all[i as int],
                forall|k: int| 0 <= k < i ==> parts_of((#[trigger] forms@[k])@) == all[k],
                seen == exists|k: int| 0 <= k < j && #[trigger] all[k] == all[i as int],
            decreases i - j,
        {
            assert(parts_of(forms@[j as int]@) == all[j as int]);
            if same_path(&forms[j], &form) {
                seen = true;
            }
            j = j + 1;
        }
        assert(seen == !is_first(all, i as int));
        if !seen {
            out.push(i);
        }
        forms.push(form);
        i = i + 1;
    }
    out
}

/// Whether one of the positions is that of a path equal to path `i`.
pub open spec fn is_taken(paths: Seq<Seq<PartModel>>, positions: Seq<usize>, i: int) -> bool {
    exists|a: int|
        0 <= a < positions.len() && paths[(#[trigger] positions[a]) as int] == paths[i]
}

/// Each path is taken once: no two that are taken have one form, and every form is taken.
pub proof fn distinct_paths_differ(paths: Seq<Seq<PartModel>>, n: nat)
    requires
        n <= paths.len() <= usize::MAX,
    ensures
        forall|a: int|
            0 <= a < first_positions(paths, n).len() ==> (#[trigger] first_positions(paths, n)[a])
                < n,
        forall|a: int, b: int|
            #![trigger first_positions(paths, n)[a], first_positions(paths, n)[b]]
            0 <= a < b < first_positions(paths, n).len() ==> paths[first_positions(
                paths,
                n,
            )[a] as int] != paths[first_positions(paths, n)[b] as int],
        forall|i: int| 0 <= i < n ==> #[trigger] is_taken(paths, first_positions(paths, n), i),
    decreases n,
{
    if n > 0 {
        let last = n - 1;
        let before = first_positions(paths, last as nat);
        let all = first_positions(paths, n);
        distinct_paths_differ(paths, last as nat);
        assert forall|a: int, b: int|
            #![trigger all[a], all[b]]
            0 <= a < b < all.len() implies paths[all[a] as int] != paths[all[b] as int] by {
            if b < before.len() {
                assert(paths[before[a] as int] != paths[before[b] as int]);
            } else {
                assert(before[a] < last);
            }
        }
        assert forall|i: int| 0 <= i < n implies #[trigger] is_taken(paths, all, i) by {
            if is_first(paths, last) && i == last {
                assert(all[before.len() as int] == last);
            } else {
                let same = if i == last {
                    choose|j: int| 0 <= j < last && #[trigger] paths[j] == paths[last]
                } else {
                    i
                };
                assert(is_taken(paths, before, same));
                let a = choose|a: int|
                    0 <= a < before.len() && paths[(#[trigger] before[a]) as int] == paths[same];
                assert(all[a] == before[a]);
            }
        }
    }
}

/// A name that is written in ASCII.
pub open spec fn plain_name(text: Seq<char>) -> PartModel {
    PartModel::Name(text.map_values(|c: char| c as u8))
}

fn name_part(text: &str) -> (r: PathPart)
    requires
        forall|i: int| 0 <= i < text@.len() ==> (#[trigger] text@[i] as u32) < 128,
    ensures
        r@ == plain_name(text@),
{
    let chars = chars_of(text);
    let mut bytes: Vec<u8> = Vec::new();
    let mut i: usize = 0;
    while i < chars.len()
        invariant
            chars@ == text@,
            forall|k: int| 0 <= k < text@.len() ==> (#[trigger] text@[k] as u32) < 128,
            i <= chars@.len(),
            bytes@ =~= text@.map_values(|c: char| c as u8).take(i as int),
        decreases chars@.len() - i,
    {
        bytes.push(chars[i] as u8);
        i = i + 1;
    }
    assert(bytes@ =~= text@.map_values(|c: char| c as u8));
    PathPart::Name(bytes)
}

/// Where the environment says that data is: the places of the user, the shared ones, and the
/// user's name.
pub struct DesktopPlaces {
    pub data_home: Option<Vec<PathPart>>,
    pub home: Option<Vec<PathPart>>,
    pub data_dirs: Option<Vec<Vec<PathPart>>>,
    pub user: Option<Vec<PathPart>>,
}

pub open spec fn path_models(paths: Seq<Vec<PathPart>>) -> Seq<Seq<PartModel>> {
    paths.map_values(|path: Vec<PathPart>| parts_of(path@))
}

impl DesktopPlaces {
    /// The user's own data.
    pub open spec fn own_dirs(&self) -> Seq<Seq<PartModel>> {
        match (self.data_home, self.home) {
            (Some(dir), _) => seq![parts_of(dir@)],
            (None, Some(home)) => seq![
                parts_of(home@) + seq![plain_name(".local"@), plain_name("share"@)],
            ],
            (None, None) => Seq::empty(),
        }
    }

    /// The data that all users share.
    pub open spec fn shared_dirs(&self) -> Seq<Seq<PartModel>> {
        match self.data_dirs {
            Some(dirs) => path_models(dirs@),
            None => seq![
                seq![PartModel::Root, plain_name("usr"@), plain_name("local"@), plain_name("share"@)],
                seq![PartModel::Root, plain_name("usr"@), plain_name("share"@)],
            ],
        }
    }

    /// The data of package managers that belongs to the user.
    pub open spec fn profile_dirs(&self) -> Seq<Seq<PartModel>> {
        (match self.home {
            Some(home) => seq![
                parts_of(home@) + seq![plain_name(".nix-profile"@), plain_name("share"@)],
                parts_of(home@) + seq![
                    plain_name(".local"@),
                    plain_name("share"@),
                    plain_name("flatpak"@),
                    plain_name("exports"@),
                    plain_name("share"@),
                ],
            ],
            None => Seq::empty(),
        }) + (match self.user {
            Some(user) => seq![
                seq![
                    PartModel::Root,
                    plain_name("etc"@),
                    plain_name("profiles"@),
                    plain_name("per-user"@),
                ] + parts_of(user@) + seq![plain_name("share"@)],
            ],
            None => Seq::empty(),
        })
    }

    /// The data of package managers that belongs to the machine.
    pub open spec fn system_dirs() -> Seq<Seq<PartModel>> {
        seq![
            seq![
                PartModel::Root,
                plain_name("run"@),
                plain_name("current-system"@),
                plain_name("sw"@),
                plain_name("share"@),
            ],
            seq![
                PartModel::Root,
                plain_name("var"@),
                plain_name("lib"@),
                plain_name("flatpak"@),
                plain_name("exports"@),
                plain_name("share"@),
            ],
        ]
    }

    /// The directories of desktop entries, as they come.
    pub open spec fn entry_dirs(&self) -> Seq<Seq<PartModel>> {
        (self.own_dirs() + self.shared_dirs() + self.profile_dirs()
            + DesktopPlaces::system_dirs()).map_values(
            |dir: Seq<PartModel>| normalized(dir.push(plain_name("applications"@))),
        )
    }
}

fn extend_path(base: &Vec<PathPart>, names: &Vec<PathPart>) -> (r: Vec<PathPart>)
    ensures
        parts_of(r@) == parts_of(base@) + parts_of(names@),
{
    let mut out = copy_path(base);
    append_parts(&mut out, names);
    out
}

fn add_path(paths: &mut Vec<Vec<PathPart>>, path: Vec<PathPart>)
    ensures
        path_models(final(paths)@) == path_models(old(paths)@).push(parts_of(path@)),
{
    paths.push(path);
    assert(path_models(paths@) =~= path_models(old(paths)@).push(parts_of(path@)));
}

fn share_dir(names: Vec<PathPart>) -> (r: Vec<PathPart>)
    ensures
        parts_of(r@) == parts_of(names@).push(plain_name("share"@)),
{
    let mut out = names;
    let ghost before = out@;
    proof {
        reveal_strlit("share");
    }
    out.push(name_part("share"));
    assert(parts_of(out@) =~= parts_of(before).push(plain_name("share"@)));
    out
}

fn two_names(first: PathPart, second: PathPart) -> (r: Vec<PathPart>)
    ensures
        parts_of(r@) == seq![first@, second@],
{
    let mut out: Vec<PathPart> = Vec::new();
    out.push(first);
    out.push(second);
    assert(parts_of(out@) =~= seq![first@, second@]);
    out
}

fn flatpak_dir(start: Vec<PathPart>) -> (r: Vec<PathPart>)
    ensures
        parts_of(r@) == parts_of(start@) + seq![
            plain_name("flatpak"@),
            plain_name("exports"@),
            plain_name("share"@),
        ],
{
    proof {
        reveal_strlit("flatpak");
        reveal_strlit("exports");
    }
    let names = share_dir(two_names(name_part("flatpak"), name_part("exports")));
    let r = extend_path(&start, &names);
    assert(parts_of(r@) =~= parts_of(start@) + seq![
        plain_name("flatpak"@),
        plain_name("exports"@),
        plain_name("share"@),
    ]);
    r
}

fn own_path(places: &DesktopPlaces) -> (r: Vec<Vec<PathPart>>)
    ensures
        path_models(r@) == places.own_dirs(),
{
    let mut out: Vec<Vec<PathPart>> = Vec::new();
    assert(path_models(out@) =~= Seq::<Seq<PartModel>>::empty());
    match (&places.data_home, &places.home) {
        (Some(dir), _) => {
            add_path(&mut out, copy_path(dir));
        },
        (None, Some(home)) => {
            proof {
                reveal_strlit(".local");
            }
            let mut names: Vec<PathPart> = Vec::new();
            names.push(name_part(".local"));
            let names = share_dir(names);
            assert(parts_of(names@) =~= seq![plain_name(".local"@), plain_name("share"@)]);
            add_path(&mut out, extend_path(home, &names));
        },
        (None, None) => {},
    }
    assert(path_models(out@) =~= places.own_dirs());
    out
}

fn shared_paths(places: &DesktopPlaces) -> (r: Vec<Vec<PathPart>>)
    ensures
        path_models(r@) == places.shared_dirs(),
{
    let mut out: Vec<Vec<PathPart>> = Vec::new();
    assert(path_models(out@) =~= Seq::<Seq<PartModel>>::empty());
    match &places.data_dirs {
        Some(dirs) => {
            let mut i: usize = 0;
            while i < dirs.len()
                invariant
                    i <= dirs@.len(),
                    path_models(out@) =~= path_models(dirs@).take(i as int),
                decreases dirs@.len() - i,
            {
                add_path(&mut out, copy_path(&dirs[i]));
                i = i + 1;
            }
            assert(path_models(out@) =~= path_models(dirs@));
        },
        None => {
            proof {
                reveal_strlit("usr");
                reveal_strlit("local");
            }
            let usr = two_names(PathPart::Root, name_part("usr"));
            let mut local = copy_path(&usr);
            let ghost before = local@;
            local.push(name_part("local"));
            assert(parts_of(local@) =~= parts_of(before).push(plain_name("local"@)));
            let local = share_dir(local);
            let usr = share_dir(usr);
            assert(parts_of(local@) =~= seq![
                PartModel::Root,
                plain_name("usr"@),
                plain_name("local"@),
                plain_name("share"@),
            ]);
            assert(parts_of(usr@) =~= seq![
                PartModel::Root,
                plain_name("usr"@),
                plain_name("share"@),
            ]);
            add_path(&mut out, local);
            add_path(&mut out, usr);
            assert(path_models(out@) =~= places.shared_dirs());
        },
    }
    out
}

fn profile_paths(places: &DesktopPlaces) -> (r: Vec<Vec<PathPart>>)
    ensures
        path_models(r@) == places.profile_dirs(),
{
    let mut out: Vec<Vec<PathPart>> = Vec::new();
    assert(path_models(out@) =~= Seq::<Seq<PartModel>>::empty());
    if let Some(home) = &places.home {
        proof {
            reveal_strlit(".nix-profile");
            reveal_strlit(".local");
        }
        let mut nix: Vec<PathPart> = Vec::new();
        nix.push(name_part(".nix-profile"));
        let nix = share_dir(nix);
        assert(parts_of(nix@) =~= seq![plain_name(".nix-profile"@), plain_name("share"@)]);
        add_path(&mut out, extend_path(home, &nix));
        let mut local: Vec<PathPart> = Vec::new();
        local.push(name_part(".local"));
        let flatpak = flatpak_dir(share_dir(local));
        assert(parts_of(flatpak@) =~= seq![
            plain_name(".local"@),
            plain_name("share"@),
            plain_name("flatpak"@),
            plain_name("exports"@),
            plain_name("share"@),
        ]);
        add_path(&mut out, extend_path(home, &flatpak));
    }
    let ghost of_home = path_models(out@);
    if let Some(user) = &places.user {
        proof {
            reveal_strlit("etc");
            reveal_strlit("profiles");
            reveal_strlit("per-user");
        }
        let etc = two_names(PathPart::Root, name_part("etc"));
        let names = two_names(name_part("profiles"), name_part("per-user"));
        let base = extend_path(&etc, &names);
        assert(parts_of(base@) =~= seq![
            PartModel::Root,
            plain_name("etc"@),
            plain_name("profiles"@),
            plain_name("per-user"@),
        ]);
        let own = share_dir(extend_path(&base, user));
        assert(parts_of(own@) =~= parts_of(base@) + parts_of(user@) + seq![plain_name("share"@)]);
        add_path(&mut out, own);
    }
    assert(path_models(out@) =~= places.profile_dirs());
    out
}

fn system_paths() -> (r: Vec<Vec<PathPart>>)
    ensures
        path_models(r@) == DesktopPlaces::system_dirs(),
{
    let mut out: Vec<Vec<PathPart>> = Vec::new();
    proof {
        reveal_strlit("run");
        reveal_strlit("current-system");
        reveal_strlit("sw");
        reveal_strlit("var");
        reveal_strlit("lib");
    }
    let run = two_names(PathPart::Root, name_part("run"));
    let names = two_names(name_part("current-system"), name_part("sw"));
    let system = share_dir(extend_path(&run, &names));
    assert(parts_of(system@) =~= DesktopPlaces::system_dirs()[0]);
    let mut var = two_names(PathPart::Root, name_part("var"));
    let ghost before = var@;
    var.push(name_part("lib"));
    assert(parts_of(var@) =~= parts_of(before).push(plain_name("lib"@)));
    let flatpak = flatpak_dir(var);
    assert(parts_of(flatpak@) =~= DesktopPlaces::system_dirs()[1]);
    add_path(&mut out, system);
    add_path(&mut out, flatpak);
    assert(path_models(out@) =~= DesktopPlaces::system_dirs());
    out
}

fn add_all(paths: &mut Vec<Vec<PathPart>>, more: &Vec<Vec<PathPart>>)
    ensures
        path_models(final(paths)@) == path_models(old(paths)@) + path_models(more@),
{
    let mut i: usize = 0;
    assert(path_models(paths@) =~= path_models(paths@) + path_models(more@).take(0));
    while i < more.len()
        invariant
            i <= more@.len(),
            path_models(paths@) =~= path_models(old(paths)@) + path_models(more@).take(i as int),
        decreases more@.len() - i,
    {
        add_path(paths, copy_path(&more[i]));
        i = i + 1;
    }
    assert(path_models(more@).take(more@.len() as int) =~= path_models(more@));
}

/// The directories in which desktop entries can be, each once.
pub fn desktop_application_dirs(places: &DesktopPlaces) -> (r: Vec<Vec<PathPart>>)
    ensures
        path_models(r@) == first_positions(
            places.entry_dirs(),
            places.entry_dirs().len(),
        ).map_values(|i: usize| places.entry_dirs()[i as int]),
{
    let mut data = own_path(places);
    add_all(&mut data, &shared_paths(places));
    add_all(&mut data, &profile_paths(places));
    add_all(&mut data, &system_paths());
    let ghost all = places.own_dirs() + places.shared_dirs() + places.profile_dirs()
        + DesktopPlaces::system_dirs();
    assert(path_models(data@) == all);
    let mut dirs: Vec<Vec<PathPart>> = Vec::new();
    let mut i: usize = 0;
    while i < data.len()
        invariant
            path_models(data@) == all,
            i <= data@.len(),
            dirs@.len() == i,
            forall|k: int|
                0 <= k < i ==> parts_of((#[trigger] dirs@[k])@) == all[k].push(
                    plain_name("applications"@),
                ),
        decreases data@.len() - i,
    {
        proof {
            reveal_strlit("applications");
        }
        let mut dir = copy_path(&data[i]);
        let ghost before = dir@;
        dir.push(name_part("applications"));
        assert(parts_of(dir@) =~= parts_of(before).push(plain_name("applications"@)));
        assert(parts_of(before) == path_models(data@)[i as int]);
        dirs.push(dir);
        i = i + 1;
    }
    let ghost forms = places.entry_dirs();
    assert(all.len() == data@.len());
    assert(normal_forms(dirs@) =~= forms);
    let positions = distinct_paths(&dirs);
    proof {
        distinct_paths_differ(forms, forms.len());
    }
    let mut out: Vec<Vec<PathPart>> = Vec::new();
    let mut i: usize = 0;
    while i < positions.len()
        invariant
            normal_forms(dirs@) == forms,
            positions@ == first_positions(forms, forms.len()),
            forall|a: int| 0 <= a < positions@.len() ==> (#[trigger] positions@[a]) < forms.len(),
            i <= positions@.len(),
            out@.len() == i,
            forall|k: int|
                0 <= k < i ==> parts_of((#[trigger] out@[k])@) == forms[positions@[k] as int],
        decreases positions@.len() - i,
    {
        let place: usize = positions[i];
        assert(normal_forms(dirs@).len() == dirs@.len());
        let form = normalize_path(&dirs[place]);
        assert(parts_of(form@) == normal_forms(dirs@)[place as int]);
        out.push(form);
        i = i + 1;
    }
    assert(path_models(out@) =~= positions@.map_values(|i: usize| forms[i as int]));
    assert(positions@.map_values(|i: usize| forms[i as int]) =~= first_positions(
        places.entry_dirs(),
        places.entry_dirs().len(),
    ).map_values(|i: usize| places.entry_dirs()[i as int]));
    out
}

/// What the disk says of a path.
#[derive(Clone, Copy, Debug, PartialEq, Eq, Structural)]
pub struct PathState {
    pub exists: bool,
    pub is_directory: bool,
}

/// The path `n` steps up.
pub open spec fn ancestor(path: Seq<PartModel>, n: nat) -> Seq<PartModel> {
    path.take(path.len() - n)
}

/// How many steps up from a normalized path, from `n` on, the lowest part stands that is missing
/// though the directory for it is there. `states` tells of the path, its parent and so on.
pub open spec fn missing_step(path: Seq<PartModel>, states: Seq<PathState>, n: nat) -> Option<nat>
    decreases path.len() - n,
{
    if n >= path.len() || n + 1 >= states.len() || states[n as int].exists
        || !(path[path.len() - n - 1] is Name) {
        None
    } else if states[n as int + 1].is_directory {
        Some(n)
    } else {
        missing_step(path, states, n + 1)
    }
}

fn ancestor_path(path: &Vec<PathPart>, n: usize) -> (r: Vec<PathPart>)
    requires
        n <= path@.len(),
    ensures
        parts_of(r@) == ancestor(parts_of(path@), n as nat),
{
    let mut out: Vec<PathPart> = Vec::new();
    let mut i: usize = 0;
    while i < path.len() - n
        invariant
            n <= path@.len(),
            i <= path@.len() - n,
            parts_of(out@) =~= parts_of(path@).take(i as int),
        decreases path@.len() - n - i,
    {
        let ghost before = out@;
        out.push(copy_part(&path[i]));
        assert(parts_of(out@) =~= parts_of(before).push(path@[i as int]@));
        i = i + 1;
    }
    out
}

/// The directory in which the lowest missing part of a path has to appear, and that part.
pub fn nearest_missing_component(path: &Vec<PathPart>, states: &Vec<PathState>) -> (r: Option<
    (Vec<PathPart>, Vec<PathPart>),
>)
    ensures
        match r {
            Some((directory, missing)) => missing_step(parts_of(path@), states@, 0) matches Some(n)
                && parts_of(missing@) == ancestor(parts_of(path@), n) && parts_of(directory@)
                == ancestor(parts_of(path@), n + 1),
            None => missing_step(parts_of(path@), states@, 0) is None,
        },
{
    let mut n: usize = 0;
    while n < path.len() && n + 1 < states.len()
        invariant
            n <= path@.len(),
            missing_step(parts_of(path@), states@, 0) == missing_step(
                parts_of(path@),
                states@,
                n as nat,
            ),
        decreases path@.len() - n,
    {
        let named = match &path[path.len() - n - 1] {
            PathPart::Name(_) => true,
            _ => false,
        };
        assert(named == (parts_of(path@)[path@.len() - n - 1] is Name));
        if states[n].exists || !named {
            return None;
        }
        if states[n + 1].is_directory {
            return Some((ancestor_path(path, n + 1), ancestor_path(path, n)));
        }
        n = n + 1;
    }
    None
}

/// What the disk says of a path that may be a link.
pub enum LinkFacts {
    NoLink,
    /// A link that cannot be read.
    Unreadable,
    Target(Vec<PathPart>),
}

/// A way to a directory, part by part, that follows links.
pub struct PathWalk {
    /// Where the way has come to; in the end the directory itself.
    pub resolved: Vec<PathPart>,
    /// What is still to be gone.
    pub rest: Vec<PathPart>,
    /// The links on the way, in order.
    pub links: Vec<Vec<PathPart>>,
    pub depth: u8,
    pub done: bool,
}

impl PathWalk {
    pub open spec fn wf(&self) -> bool {
        &&& is_plain(parts_of(self.resolved@))
        &&& self.depth <= MAX_LINK_DEPTH
        &&& self.depth == MAX_LINK_DEPTH && !self.done ==> self.resolved@.len() == 0
        &&& self.links@.len() <= MAX_LINK_DEPTH
        &&& !self.done ==> self.links@.len() == self.depth
    }

    pub fn new(path: Vec<PathPart>) -> (r: Self)
        ensures
            r.wf(),
            r.resolved@.len() == 0,
            r.rest@ == path@,
            r.links@.len() == 0,
            r.depth == 0,
            !r.done,
    {
        PathWalk { resolved: Vec::new(), rest: path, links: Vec::new(), depth: 0, done: false }
    }

    /// Goes one part on; the answer says whether `resolved` is to be looked at on the disk. Else
    /// the way is over. After too many links the rest of the way is taken as it is.
    pub fn advance(&mut self) -> (r: bool)
        requires
            old(self).wf(),
        ensures
            final(self).wf(),
            r == !final(self).done,
            r ==> final(self).depth < MAX_LINK_DEPTH,
            final(self).links == old(self).links,
            final(self).depth == old(self).depth,
            ({
                let rest = parts_of(old(self).rest@);
                if old(self).done {
                    *final(self) == *old(self)
                } else if old(self).depth == MAX_LINK_DEPTH {
                    final(self).done && parts_of(final(self).resolved@) == normalized(rest)
                } else if rest.len() == 0 {
                    final(self).done && final(self).resolved == old(self).resolved
                } else {
                    &&& !final(self).done
                    &&& parts_of(final(self).rest@) == rest.skip(1)
                    &&& parts_of(final(self).resolved@) == normalized(
                        parts_of(old(self).resolved@).push(rest[0]),
                    )
                }
            }),
    {
        if self.done {
            return false;
        }
        if self.depth == MAX_LINK_DEPTH {
            self.resolved = normalize_path(&self.rest);
            self.done = true;
            proof {
                normalized_is_plain(parts_of(self.rest@));
            }
            return false;
        }
        if self.rest.len() == 0 {
            self.done = true;
            return false;
        }
        let ghost rest = parts_of(self.rest@);
        let ghost before = parts_of(self.resolved@);
        let part = self.rest.remove(0);
        assert(part@ == rest[0]);
        assert(parts_of(self.rest@) =~= rest.skip(1));
        self.resolved.push(part);
        assert(parts_of(self.resolved@) =~= before.push(rest[0]));
        self.resolved = normalize_path(&self.resolved);
        proof {
            normalized_is_plain(before.push(rest[0]));
        }
        true
    }

    /// Takes what the disk says of the path that the way has come to.
    pub fn answer(&mut self, facts: LinkFacts)
        requires
            old(self).wf(),
            !old(self).done,
            old(self).depth < MAX_LINK_DEPTH,
        ensures
            final(self).wf(),
            match facts {
                LinkFacts::NoLink => *final(self) == *old(self),
                LinkFacts::Unreadable => {
                    &&& final(self).done
                    &&& final(self).resolved == old(self).resolved
                    &&& path_models(final(self).links@) == path_models(old(self).links@).push(
                        parts_of(old(self).resolved@),
                    )
                },
                LinkFacts::Target(target) => {
                    &&& !final(self).done
                    &&& final(self).depth == old(self).depth + 1
                    &&& final(self).resolved@.len() == 0
                    &&& parts_of(final(self).rest@) == followed(
                        parts_of(old(self).resolved@),
                        parts_of(target@),
                        parts_of(old(self).rest@),
                    )
                    &&& path_models(final(self).links@) == path_models(old(self).links@).push(
                        parts_of(old(self).resolved@),
                    )
                },
            },
    {
        match facts {
            LinkFacts::NoLink => {},
            LinkFacts::Unreadable => {
                let link = copy_path(&self.resolved);
                add_path(&mut self.links, link);
                assert(path_models(self.links@).len() == self.links@.len());
                assert(path_models(old(self).links@).len() == old(self).links@.len());
                self.done = true;
            },
            LinkFacts::Target(target) => {
                let next = follow_link(&self.resolved, &target, &self.rest);
                let link = copy_path(&self.resolved);
                add_path(&mut self.links, link);
                assert(path_models(self.links@).len() == self.links@.len());
                assert(path_models(old(self).links@).len() == old(self).links@.len());
                self.rest = next;
                self.resolved = Vec::new();
                self.depth = self.depth + 1;
            },
        }
    }
}

/// A dot in a path changes nothing, two dots undo the name in front of them, a name stands behind
/// what comes before it, and the root starts the path over.
pub proof fn dots_lead_where_they_say(
    path: Vec<PathPart>,
    r: Vec<PathPart>,
    longer: Vec<PathPart>,
    s: Vec<PathPart>,
    name: Seq<u8>,
)
    requires
        call_ensures(normalize_path, (&path,), r),
        call_ensures(normalize_path, (&longer,), s),
    ensures
        parts_of(longer@) == parts_of(path@).push(PartModel::Current) ==> parts_of(s@) == parts_of(
            r@,
        ),
        parts_of(longer@) == parts_of(path@).push(PartModel::Name(name)) ==> parts_of(s@)
            == parts_of(r@).push(PartModel::Name(name)),
        parts_of(longer@) == parts_of(path@).push(PartModel::Name(name)).push(PartModel::Parent)
            ==> parts_of(s@) == parts_of(r@),
        parts_of(longer@) == parts_of(path@).push(PartModel::Root) ==> parts_of(s@) == seq![
            PartModel::Root,
        ],
        forall|i: int| 0 <= i < r@.len() ==> (#[trigger] r@[i]) is Name || (r@[i] is Root && i == 0),
{
    let p = parts_of(path@);
    let named = p.push(PartModel::Name(name));
    assert(named.drop_last() =~= p);
    assert(p.push(PartModel::Current).drop_last() =~= p);
    assert(p.push(PartModel::Root).drop_last() =~= p);
    assert(named.push(PartModel::Parent).drop_last() =~= named);
    assert(normalized(named) == normalized(p).push(PartModel::Name(name)));
    assert(normalized(p).push(PartModel::Name(name)).drop_last() =~= normalized(p));
    normalized_is_plain(p);
    assert forall|i: int| 0 <= i < r@.len() implies (#[trigger] r@[i]) is Name || (r@[i] is Root && i
        == 0) by {
        assert(parts_of(r@)[i] == r@[i]@);
    }
}

/// A link to an absolute path leads there wherever the link is, and one to a relative path leads on
/// from the directory that holds the link.
pub proof fn links_lead_where_they_point(
    link: Vec<PathPart>,
    other: Vec<PathPart>,
    target: Vec<PathPart>,
    rest: Vec<PathPart>,
    r: Vec<PathPart>,
    s: Vec<PathPart>,
    whole: Vec<PathPart>,
    direct: Vec<PathPart>,
)
    requires
        call_ensures(follow_link, (&link, &target, &rest), r),
        call_ensures(follow_link, (&other, &target, &rest), s),
        call_ensures(normalize_path, (&whole,), direct),
        target@.len() > 0,
    ensures
        target@[0] is Root ==> parts_of(r@) == parts_of(s@),
        target@[0] is Root && parts_of(whole@) == parts_of(target@) + parts_of(rest@) ==> parts_of(
            r@,
        ) == parts_of(direct@),
        !(target@[0] is Root) && link@.len() > 0 && link@.last() is Name && parts_of(whole@)
            == parts_of(link@).drop_last() + parts_of(target@) + parts_of(rest@) ==> parts_of(r@)
            == parts_of(direct@),
{
    assert(parts_of(target@)[0] == target@[0]@);
    if link@.len() > 0 {
        assert(parts_of(link@).last() == link@.last()@);
    }
}

/// A change counts where nothing in particular is watched, where it names no path, or where one of
/// the paths that it names is the watched one, however they are written.
pub proof fn changes_of_the_path_count(
    exact: Option<Vec<PathPart>>,
    first: Option<Vec<PathPart>>,
    second: Option<Vec<PathPart>>,
    r: bool,
    swapped: bool,
)
    requires
        call_ensures(desktop_watch_matches, (&exact, &first, &second), r),
        call_ensures(desktop_watch_matches, (&exact, &second, &first), swapped),
    ensures
        r == swapped,
        exact is None ==> r,
        first is None && second is None ==> r,
        (exact matches Some(path) && first matches Some(named) && parts_of(path@) == parts_of(
            named@,
        )) ==> r,
        (exact matches Some(path) && first matches Some(named) && second is None && normalized(
            parts_of(path@),
        ) != normalized(parts_of(named@))) ==> !r,
{
}

/// A directory that is there is watched; so is the place where its missing part has to appear, or
/// the directory that holds it, and nothing else.
pub proof fn directories_are_watched(
    path: Vec<PathPart>,
    facts: DirectoryFacts,
    r: Vec<DesktopWatch>,
)
    requires
        call_ensures(directory_watches, (&path, &facts), r),
    ensures
        facts.is_directory ==> r@.len() > 0 && parts_of(r@[0].directory@) == parts_of(path@)
            && r@[0].exact_path is None,
        facts.missing matches Some(missing) ==> r@.len() > 0 && parts_of(r@.last().directory@)
            == parts_of(missing.0@) && opt_parts(r@.last().exact_path) == Some(
            parts_of(missing.1@),
        ),
        facts.missing is None ==> (facts.parent matches Some(parent) ==> r@.len() > 0 && parts_of(
            r@.last().directory@,
        ) == parts_of(parent@) && opt_parts(r@.last().exact_path) == Some(parts_of(path@))),
        r@.len() == (if facts.is_directory {
            1int
        } else {
            0
        }) + (if facts.missing is Some || facts.parent is Some {
            1int
        } else {
            0
        }),
{
    let m = watches_of(r@);
    assert(m.len() == r@.len());
    if r@.len() > 0 {
        assert(m[0] == r@[0]@);
        assert(m.last() == r@.last()@);
    }
}

proof fn places_have_their_watches(places: Seq<WatchPlace>, i: int, watch: WatchModel)
    requires
        0 <= i < places.len(),
        places[i].watch_models().contains(watch),
    ensures
        all_watches(places).contains(watch),
    decreases places.len(),
{
    let rest = places.drop_last();
    let (front, back) = (all_watches(rest), places.last().watch_models());
    let all = front + back;
    if i == places.len() - 1 {
        let k = choose|k: int| 0 <= k < back.len() && back[k] == watch;
        assert(all[front.len() + k] == watch);
    } else {
        assert(rest[i] == places[i]);
        places_have_their_watches(rest, i, watch);
        let k = choose|k: int| 0 <= k < front.len() && front[k] == watch;
        assert(all[k] == watch);
    }
}

/// Every directory of desktop entries that is there is watched, and so is every link on the way to
/// one, in the directory that holds it; and nothing is watched twice.
pub proof fn entry_directories_are_watched(
    places: Vec<WatchPlace>,
    r: Vec<DesktopWatch>,
    i: int,
    k: int,
)
    requires
        call_ensures(desktop_watches, (&places,), r),
        0 <= i < places@.len(),
    ensures
        watches_of(r@).no_duplicates(),
        places@[i].facts.is_directory ==> watches_of(r@).contains(
            WatchModel { directory: parts_of(places@[i].path@), exact_path: None },
        ),
        places@[i].resolved_facts.is_directory && parts_of(places@[i].resolved@) != parts_of(
            places@[i].path@,
        ) ==> watches_of(r@).contains(
            WatchModel { directory: parts_of(places@[i].resolved@), exact_path: None },
        ),
        0 <= k < places@[i].links@.len() && places@[i].links@[k].1 && places@[i].links@[k].0@.len()
            > 0 && places@[i].links@[k].0@.last() is Name ==> watches_of(r@).contains(
            WatchModel {
                directory: parts_of(places@[i].links@[k].0@).drop_last(),
                exact_path: Some(parts_of(places@[i].links@[k].0@)),
            },
        ),
{
    let place = places@[i];
    let all = all_watches(places@);
    watches_are_set_up_once(all);
    let own = directory_watch_models(parts_of(place.path@), place.facts);
    let links = link_watches(place.links@);
    let far = if parts_of(place.resolved@) == parts_of(place.path@) {
        Seq::empty()
    } else {
        directory_watch_models(parts_of(place.resolved@), place.resolved_facts)
    };
    let mine = place.watch_models();
    if place.facts.is_directory {
        let watch = WatchModel { directory: parts_of(place.path@), exact_path: None };
        assert(own[0] == watch);
        assert(mine[0] == watch);
        places_have_their_watches(places@, i, watch);
        assert(all.contains(watch));
    }
    if place.resolved_facts.is_directory && parts_of(place.resolved@) != parts_of(place.path@) {
        let watch = WatchModel { directory: parts_of(place.resolved@), exact_path: None };
        assert(far[0] == watch);
        assert(mine[own.len() as int + links.len()] == watch);
        places_have_their_watches(places@, i, watch);
        assert(all.contains(watch));
    }
    if 0 <= k < place.links@.len() && place.links@[k].1 && place.links@[k].0@.len() > 0
        && place.links@[k].0@.last() is Name {
        let link = parts_of(place.links@[k].0@);
        let watch = WatchModel { directory: link.drop_last(), exact_path: Some(link) };
        assert(link.last() == place.links@[k].0@.last()@);
        links_are_watched(place.links@, k, watch);
        let n = choose|n: int| 0 <= n < links.len() && links[n] == watch;
        assert(mine[own.len() + n] == watch);
        places_have_their_watches(places@, i, watch);
        assert(all.contains(watch));
    }
}

proof fn links_are_watched(links: Seq<(Vec<PathPart>, bool)>, k: int, watch: WatchModel)
    requires
        0 <= k < links.len(),
        link_watch(parts_of(links[k].0@), links[k].1) == Some(watch),
    ensures
        link_watches(links).contains(watch),
    decreases links.len(),
{
    let all = link_watches(links);
    if k == links.len() - 1 {
        assert(all[all.len() - 1] == watch);
    } else {
        let rest = links.drop_last();
        assert(rest[k] == links[k]);
        links_are_watched(rest, k, watch);
        let before = link_watches(rest);
        let n = choose|n: int| 0 <= n < before.len() && before[n] == watch;
        assert(all[n] == watch);
    }
}

/// Whether a directory for desktop entries is searched below a directory of data.
pub open spec fn is_searched(dirs: Seq<Vec<PathPart>>, data: Seq<PartModel>) -> bool {
    exists|i: int|
        0 <= i < dirs.len() && parts_of((#[trigger] dirs[i])@) == normalized(
            data.push(plain_name("applications"@)),
        )
}

proof fn found_dirs_are_searched(places: DesktopPlaces, r: Seq<Vec<PathPart>>, k: int)
    requires
        path_models(r) == first_positions(
            places.entry_dirs(),
            places.entry_dirs().len(),
        ).map_values(|i: usize| places.entry_dirs()[i as int]),
        0 <= k < places.entry_dirs().len() <= usize::MAX,
    ensures
        exists|i: int|
            0 <= i < r.len() && parts_of((#[trigger] r[i])@) == places.entry_dirs()[k],
{
    let dirs = places.entry_dirs();
    let positions = first_positions(dirs, dirs.len());
    distinct_paths_differ(dirs, dirs.len());
    assert(is_taken(dirs, positions, k));
    let a = choose|a: int|
        0 <= a < positions.len() && dirs[(#[trigger] positions[a]) as int] == dirs[k];
    assert(path_models(r).len() == positions.len());
    assert(path_models(r)[a] == parts_of(r[a]@));
    assert(path_models(r)[a] == dirs[positions[a] as int]);
    assert(parts_of(r[a]@) == dirs[k]);
}

/// Desktop entries are searched for below the user's own data, or that of the home directory where
/// none is named; below every shared directory that is named, or the two usual ones; and below
/// those of the package managers.
pub proof fn entries_are_searched_everywhere(
    places: DesktopPlaces,
    r: Vec<Vec<PathPart>>,
    k: int,
)
    requires
        call_ensures(desktop_application_dirs, (&places,), r),
        places.entry_dirs().len() <= usize::MAX,
    ensures
        places.data_home matches Some(dir) ==> is_searched(r@, parts_of(dir@)),
        places.data_home is None ==> (places.home matches Some(home) ==> is_searched(
            r@,
            parts_of(home@) + seq![plain_name(".local"@), plain_name("share"@)],
        )),
        places.data_dirs matches Some(dirs) ==> (0 <= k < dirs@.len() ==> is_searched(
            r@,
            parts_of(dirs@[k]@),
        )),
        places.data_dirs is None ==> is_searched(
            r@,
            seq![PartModel::Root, plain_name("usr"@), plain_name("share"@)],
        ) && is_searched(
            r@,
            seq![PartModel::Root, plain_name("usr"@), plain_name("local"@), plain_name("share"@)],
        ),
        places.home matches Some(home) ==> is_searched(
            r@,
            parts_of(home@) + seq![plain_name(".nix-profile"@), plain_name("share"@)],
        ),
        is_searched(
            r@,
            seq![
                PartModel::Root,
                plain_name("run"@),
                plain_name("current-system"@),
                plain_name("sw"@),
                plain_name("share"@),
            ],
        ),
{
    let (own, shared) = (places.own_dirs(), places.shared_dirs());
    let (profile, system) = (places.profile_dirs(), DesktopPlaces::system_dirs());
    let all = own + shared + profile + system;
    let dirs = places.entry_dirs();
    assert(dirs.len() == all.len());
    assert forall|n: int| 0 <= n < all.len() implies is_searched(r@, #[trigger] all[n]) by {
        found_dirs_are_searched(places, r@, n);
        assert(dirs[n] == normalized(all[n].push(plain_name("applications"@))));
    }
    if own.len() > 0 {
        assert(all[0] == own[0]);
        assert(is_searched(r@, all[0]));
    }
    if places.data_dirs is None {
        assert(all[own.len() as int] == shared[0]);
        assert(all[own.len() as int + 1] == shared[1]);
        assert(is_searched(r@, all[own.len() as int]) && is_searched(r@, all[own.len() as int + 1]));
    } else if 0 <= k < places.data_dirs->0@.len() {
        assert(shared[k] == parts_of(places.data_dirs->0@[k]@));
        assert(all[own.len() + k] == shared[k]);
        assert(is_searched(r@, all[own.len() + k]));
    }
    if places.home is Some {
        assert(all[own.len() + shared.len() as int] == profile[0]);
        assert(is_searched(r@, all[own.len() + shared.len() as int]));
    }
    assert(all[own.len() + shared.len() + profile.len() as int] == system[0]);
    assert(is_searched(r@, all[own.len() + shared.len() + profile.len() as int]));
}

/// What has to appear is the first missing part of the path below a directory that is there: the
/// directory is the one right above it, and both lie on the path.
pub proof fn missing_parts_lie_on_the_path(
    path: Vec<PathPart>,
    states: Vec<PathState>,
    directory: Vec<PathPart>,
    missing: Vec<PathPart>,
    r: Option<(Vec<PathPart>, Vec<PathPart>)>,
)
    requires
        call_ensures(nearest_missing_component, (&path, &states), r),
        r == Some((directory, missing)),
    ensures
        0 < missing@.len() <= path@.len(),
        parts_of(missing@) == parts_of(path@).take(missing@.len() as int),
        parts_of(directory@) == parts_of(missing@).drop_last(),
        path@.len() - missing@.len() + 1 < states@.len(),
        states@[path@.len() - missing@.len() + 1].is_directory,
        !states@[path@.len() - missing@.len()].exists,
{
    let p = parts_of(path@);
    missing_steps_are_missing(p, states@, 0);
    let n = missing_step(p, states@, 0)->0;
    assert(parts_of(missing@).len() == missing@.len());
    assert(p.take(p.len() - n).drop_last() =~= p.take(p.len() - (n + 1)));
}

proof fn missing_steps_are_missing(path: Seq<PartModel>, states: Seq<PathState>, from: nat)
    ensures
        missing_step(path, states, from) matches Some(n) ==> from <= n < path.len() && n + 1
            < states.len() && !states[n as int].exists && states[n as int + 1].is_directory,
    decreases path.len() - from,
{
    if from < path.len() {
        missing_steps_are_missing(path, states, from + 1);
    }
}

/// On the way to a directory each link is remembered and leads on to where it points; without links
/// the way leads to the path itself.
pub proof fn ways_follow_links(
    walk: &mut PathWalk,
    goes_on: bool,
    told: &mut PathWalk,
    target: Vec<PathPart>,
    facts: LinkFacts,
)
    requires
        !old(walk).done,
        old(walk).depth < MAX_LINK_DEPTH,
        old(walk).rest@.len() > 0,
        call_ensures(PathWalk::advance, (walk,), goes_on),
        *old(told) == *final(walk),
        call_ensures(PathWalk::answer, (told, facts), ()),
        facts is Target ==> facts == LinkFacts::Target(target),
    ensures
        goes_on,
        facts is NoLink ==> *final(told) == *final(walk),
        !(facts is NoLink) ==> final(told).links@.len() == old(walk).links@.len() + 1 && parts_of(
            final(told).links@.last()@,
        ) == parts_of(final(walk).resolved@),
        facts is Target && target@.len() > 0 && target@[0] is Root ==> parts_of(
            final(told).rest@,
        ) == normalized(parts_of(target@) + parts_of(old(walk).rest@).skip(1)),
        facts is Unreadable ==> final(told).done && final(told).resolved == final(walk).resolved,
        facts is Target ==> !final(told).done && final(told).resolved@.len() == 0,
{
    if !(facts is NoLink) {
        let (a, b) = (path_models(final(told).links@), path_models(old(told).links@));
        assert(a.len() == final(told).links@.len() && b.len() == old(told).links@.len());
        assert(a.last() == parts_of(final(told).links@.last()@));
    }
    if facts is Target && target@.len() > 0 {
        assert(parts_of(target@)[0] == target@[0]@);
    }
}

/// Desktop entries are also searched for where Flatpak and the profiles of users keep theirs.
pub proof fn entries_of_package_managers_are_searched(places: DesktopPlaces, r: Vec<Vec<PathPart>>)
    requires
        call_ensures(desktop_application_dirs, (&places,), r),
        places.entry_dirs().len() <= usize::MAX,
    ensures
        places.home matches Some(home) ==> is_searched(
            r@,
            parts_of(home@) + seq![
                plain_name(".local"@),
                plain_name("share"@),
                plain_name("flatpak"@),
                plain_name("exports"@),
                plain_name("share"@),
            ],
        ),
        places.user matches Some(user) ==> is_searched(
            r@,
            seq![
                PartModel::Root,
                plain_name("etc"@),
                plain_name("profiles"@),
                plain_name("per-user"@),
            ] + parts_of(user@) + seq![plain_name("share"@)],
        ),
        is_searched(
            r@,
            seq![
                PartModel::Root,
                plain_name("var"@),
                plain_name("lib"@),
                plain_name("flatpak"@),
                plain_name("exports"@),
                plain_name("share"@),
            ],
        ),
{
    let (own, shared) = (places.own_dirs(), places.shared_dirs());
    let (profile, system) = (places.profile_dirs(), DesktopPlaces::system_dirs());
    let all = own + shared + profile + system;
    let dirs = places.entry_dirs();
    assert(dirs.len() == all.len());
    assert forall|n: int| 0 <= n < all.len() implies is_searched(r@, #[trigger] all[n]) by {
        found_dirs_are_searched(places, r@, n);
        assert(dirs[n] == normalized(all[n].push(plain_name("applications"@))));
    }
    let base = own.len() as int + shared.len();
    if places.home is Some {
        assert(all[base + 1] == profile[1]);
        assert(is_searched(r@, all[base + 1]));
    }
    if places.user is Some {
        assert(all[base + profile.len() - 1] == profile.last());
        assert(is_searched(r@, all[base + profile.len() - 1]));
    }
    assert(all[base + profile.len() + 1] == system[1]);
    assert(is_searched(r@, all[base + profile.len() + 1]));
}

/// The name of a directory in a path holds the characters that it is written with.
pub proof fn names_hold_their_characters(text: Seq<char>, i: int)
    requires
        0 <= i < text.len(),
        (text[i] as u32) < 128,
    ensures
        plain_name(text) matches PartModel::Name(bytes) && bytes.len() == text.len() && bytes[i]
            == text[i] as u8,
{
}

/// Two paths are the same where all their parts are.
pub proof fn same_paths_have_the_same_parts(
    a: Vec<PathPart>,
    b: Vec<PathPart>,
    r: bool,
    copied: Vec<PathPart>,
    paths: Vec<Vec<PathPart>>,
    taken: Vec<usize>,
    i: int,
)
    requires
        call_ensures(same_path, (&a, &b), r),
        call_ensures(copy_path, (&a,), copied),
        call_ensures(distinct_paths, (&paths,), taken),
        0 <= i < paths@.len() <= usize::MAX,
    ensures
        r == (parts_of(a@) == parts_of(b@)),
        parts_of(copied@) == parts_of(a@),
        is_taken(normal_forms(paths@), taken@, i),
{
    let forms = normal_forms(paths@);
    assert(forms.len() == paths@.len());
    distinct_paths_differ(forms, forms.len());
}

} // verus!
