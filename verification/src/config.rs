//! The configuration after loading: the route table with its lookup, the
//! resolved path of the not-found page, and the addresses to listen on.

use crate::mime_types::{mime_view, Mime};
use crate::paths::{
    absolutize, path_is_absolute, path_text, path_view, spec_absolutize, spec_is_absolute,
    spec_join, spec_join_text, spec_parent, HybridPathBuf, PathView,
};
use crate::routes::{
    converted_entry, dropped_entry, file_views, kept_direct, kept_entry, keyed_views,
    keys_distinct, lemma_kept_direct_is_relative, pair_views, spec_resolve_mime, text_views,
    FileObject, FileView, GetRoutes, RelativizeReport,
};
use crate::text::str_eq;
use vstd::hash_map::StringHashMap;
use vstd::prelude::*;
use vstd::string::{StrSliceExecFns, StringExecFns};

verus! {

/// What the configuration file holds.
#[derive(Debug, Clone)]
pub struct ConfigContent {
    /// The address to listen on.
    pub addr: String,
    /// The addresses to try, in this order, where `addr` cannot be bound.
    pub failsafe_addrs: Vec<String>,
    /// The file to answer with where no route matches.
    pub not_found: Option<String>,
    /// The declared routes.
    pub get_routes: Option<GetRoutes>,
}

/// Where a route leads: the content type to announce, if any, and the file.
#[derive(Debug, Clone)]
pub struct RouteTarget {
    pub mime: Option<Mime>,
    pub path: HybridPathBuf,
}

/// A target as the contracts see it: the text of the content type, if any,
/// and the path.
pub type TargetView = (Option<Seq<char>>, PathView);

impl View for RouteTarget {
    type V = TargetView;

    open spec fn view(&self) -> TargetView {
        (mime_view(self.mime), self.path@)
    }
}

/// The target of the file `file`: its content type, and its path made
/// absolute against `root`.
pub open spec fn route_target(file: FileView, root: PathView) -> TargetView {
    (spec_resolve_mime(file), spec_absolutize(file.1, root))
}

/// The table `table` after the keyed entry `entry`, which is set under its
/// key.
pub open spec fn with_map_entry(
    table: Map<Seq<char>, TargetView>,
    entry: (Seq<char>, FileView),
    root: PathView,
) -> Map<Seq<char>, TargetView> {
    table.insert(entry.0, route_target(entry.1, root))
}

/// The table `table` after the entry `file` of the `direct` list, which is
/// set under its own path.
pub open spec fn with_direct_entry(
    table: Map<Seq<char>, TargetView>,
    file: FileView,
    root: PathView,
) -> Map<Seq<char>, TargetView> {
    table.insert(file.1, route_target(file, root))
}

/// The table that the keyed entries give, set one after the other.
pub open spec fn map_routes(map: Seq<(Seq<char>, FileView)>, root: PathView) -> Map<
    Seq<char>,
    TargetView,
> {
    map.fold_left(
        Map::<Seq<char>, TargetView>::empty(),
        |t: Map<Seq<char>, TargetView>, e: (Seq<char>, FileView)| with_map_entry(t, e, root),
    )
}

/// The table `table` after the entries `direct`, set one after the other.
pub open spec fn with_direct_routes(
    table: Map<Seq<char>, TargetView>,
    direct: Seq<FileView>,
    root: PathView,
) -> Map<Seq<char>, TargetView> {
    direct.fold_left(
        table,
        |t: Map<Seq<char>, TargetView>, f: FileView| with_direct_entry(t, f, root),
    )
}

/// The route table of the declared routes: first the keyed entries, then the
/// entries of the `direct` list that the pass over it keeps, so that an entry
/// of `direct` takes the place of a keyed entry under the same key.
pub open spec fn route_table(
    direct: Seq<FileView>,
    map: Seq<(Seq<char>, FileView)>,
    root: PathView,
) -> Map<Seq<char>, TargetView> {
    with_direct_routes(map_routes(map, root), kept_direct(direct, path_text(root)), root)
}

/// The views of the targets of a table.
pub open spec fn target_views(table: Map<Seq<char>, RouteTarget>) -> Map<Seq<char>, TargetView> {
    table.map_values(|t: RouteTarget| t@)
}

/// The key under which the request path `url` is looked up: one leading `/`
/// is taken off, and `direct` stands for the reserved key `%direct`.
pub open spec fn route_key(url: Seq<char>) -> Seq<char> {
    let stripped = if url.len() > 0 && url[0] == '/' {
        url.subrange(1, url.len() as int)
    } else {
        url
    };
    if stripped == "direct"@ {
        "%direct"@
    } else {
        stripped
    }
}

/// The configuration as the server uses it.
pub struct Config {
    /// The directory of the configuration file: the root of all relative
    /// paths.
    pub file_dir: HybridPathBuf,
    pub content: ConfigContent,
    /// The route table: from the request key to the target.
    pub get_routes: StringHashMap<RouteTarget>,
    /// The file of the not-found page, resolved against the root.
    pub not_found: Option<HybridPathBuf>,
}

/// The last entry of `direct` whose path is `key`.
pub open spec fn last_direct(direct: Seq<FileView>, key: Seq<char>) -> Option<FileView>
    decreases direct.len(),
{
    if direct.len() == 0 {
        None
    } else if direct.last().1 == key {
        Some(direct.last())
    } else {
        last_direct(direct.drop_last(), key)
    }
}

/// The last keyed entry of `map` whose key is `key`.
pub open spec fn last_keyed(map: Seq<(Seq<char>, FileView)>, key: Seq<char>) -> Option<FileView>
    decreases map.len(),
{
    if map.len() == 0 {
        None
    } else if map.last().0 == key {
        Some(map.last().1)
    } else {
        last_keyed(map.drop_last(), key)
    }
}

/// What a lookup finds after the entries `direct` were set into `table`: under
/// the path of an entry of `direct`, the target of the last such entry; under
/// any other key, what `table` held.
pub proof fn lemma_direct_routes_lookup(
    table: Map<Seq<char>, TargetView>,
    direct: Seq<FileView>,
    root: PathView,
    key: Seq<char>,
)
    ensures
        match last_direct(direct, key) {
            Some(f) => {
                &&& with_direct_routes(table, direct, root).contains_key(key)
                &&& with_direct_routes(table, direct, root)[key] == route_target(f, root)
            },
            None => {
                &&& with_direct_routes(table, direct, root).contains_key(key)
                    == table.contains_key(key)
                &&& table.contains_key(key) ==> with_direct_routes(table, direct, root)[key]
                    == table[key]
            },
        },
    decreases direct.len(),
{
    if direct.len() > 0 {
        lemma_direct_routes_lookup(table, direct.drop_last(), root, key);
    }
}

/// What a lookup finds in the table of the keyed entries: under the key of an
/// entry, the target of the last entry with that key; under any other key,
/// nothing.
pub proof fn lemma_map_routes_lookup(
    map: Seq<(Seq<char>, FileView)>,
    root: PathView,
    key: Seq<char>,
)
    ensures
        match last_keyed(map, key) {
            Some(f) => {
                &&& map_routes(map, root).contains_key(key)
                &&& map_routes(map, root)[key] == route_target(f, root)
            },
            None => !map_routes(map, root).contains_key(key),
        },
    decreases map.len(),
{
    if map.len() > 0 {
        lemma_map_routes_lookup(map.drop_last(), root, key);
    }
}

/// What a lookup finds in the route table: under the path of an entry that
/// the pass over `direct` keeps, the target of the last such entry; else,
/// under the key of a keyed entry, the target of the last entry with that
/// key; under any other key, nothing. With no entries every lookup misses.
pub proof fn lemma_route_table_lookup(
    direct: Seq<FileView>,
    map: Seq<(Seq<char>, FileView)>,
    root: PathView,
    key: Seq<char>,
)
    ensures
        match last_direct(kept_direct(direct, path_text(root)), key) {
            Some(f) => {
                &&& route_table(direct, map, root).contains_key(key)
                &&& route_table(direct, map, root)[key] == route_target(f, root)
            },
            None => match last_keyed(map, key) {
                Some(f) => {
                    &&& route_table(direct, map, root).contains_key(key)
                    &&& route_table(direct, map, root)[key] == route_target(f, root)
                },
                None => !route_table(direct, map, root).contains_key(key),
            },
        },
{
    lemma_direct_routes_lookup(
        map_routes(map, root),
        kept_direct(direct, path_text(root)),
        root,
        key,
    );
    lemma_map_routes_lookup(map, root, key);
}

/// Whether a keyed entry has the key `key`.
proof fn lemma_last_keyed_is_some(map: Seq<(Seq<char>, FileView)>, key: Seq<char>)
    ensures
        last_keyed(map, key) is Some <==> exists|i: int|
            0 <= i < map.len() && (#[trigger] map[i]).0 == key,
        last_keyed(map, key) matches Some(f) ==> exists|i: int|
            0 <= i < map.len() && (#[trigger] map[i]) == (key, f),
    decreases map.len(),
{
    if map.len() > 0 {
        let rest = map.drop_last();
        lemma_last_keyed_is_some(rest, key);
        if map.last().0 == key {
            assert(map[map.len() - 1] == (key, map.last().1));
        } else {
            if last_keyed(rest, key) is Some {
                let f = last_keyed(rest, key).unwrap();
                let i = choose|i: int| 0 <= i < rest.len() && (#[trigger] rest[i]) == (key, f);
                assert(map[i] == (key, f));
            }
            if exists|i: int| 0 <= i < map.len() && (#[trigger] map[i]).0 == key {
                let i = choose|i: int| 0 <= i < map.len() && (#[trigger] map[i]).0 == key;
                assert(rest[i].0 == key);
            }
        }
    }
}

/// The keys of the route table are the paths of the entries that the pass over
/// `direct` keeps and the keys of the keyed entries, and nothing else.
pub proof fn lemma_route_table_keys(
    direct: Seq<FileView>,
    map: Seq<(Seq<char>, FileView)>,
    root: PathView,
    key: Seq<char>,
)
    ensures
        route_table(direct, map, root).contains_key(key) <==> (last_direct(
            kept_direct(direct, path_text(root)),
            key,
        ) is Some || exists|i: int| 0 <= i < map.len() && (#[trigger] map[i]).0 == key),
{
    lemma_route_table_lookup(direct, map, root, key);
    lemma_last_keyed_is_some(map, key);
}

/// Every target of the route table is that of a declared file: an entry that
/// the pass over `direct` keeps, or a keyed entry. Its path is the path of
/// that file made absolute against the root.
pub proof fn lemma_route_targets_are_absolutized(
    direct: Seq<FileView>,
    map: Seq<(Seq<char>, FileView)>,
    root: PathView,
    key: Seq<char>,
)
    requires
        route_table(direct, map, root).contains_key(key),
    ensures
        exists|file: FileView|
            {
                &&& #[trigger] route_target(file, root) == route_table(direct, map, root)[key]
                &&& route_table(direct, map, root)[key].1 == spec_absolutize(file.1, root)
                &&& kept_direct(direct, path_text(root)).contains(file) || exists|i: int|
                    0 <= i < map.len() && (#[trigger] map[i]) == (key, file)
            },
{
    let kept = kept_direct(direct, path_text(root));
    lemma_route_table_lookup(direct, map, root, key);
    lemma_last_direct_has_the_path(kept, key);
    lemma_last_keyed_is_some(map, key);
    match last_direct(kept, key) {
        Some(f) => {
            assert(route_target(f, root) == route_table(direct, map, root)[key]);
        },
        None => {
            let f = last_keyed(map, key).unwrap();
            assert(route_target(f, root) == route_table(direct, map, root)[key]);
        },
    }
}

/// An entry of the `direct` list takes the place of a keyed entry: where the
/// pass over `direct` keeps an entry whose relative path is `key`, a lookup of
/// `key` finds the target of the last such entry, whatever the keyed entries
/// hold under `key`.
pub proof fn lemma_direct_overrides_map(
    direct: Seq<FileView>,
    map: Seq<(Seq<char>, FileView)>,
    root: PathView,
    key: Seq<char>,
)
    ensures
        last_direct(kept_direct(direct, path_text(root)), key) matches Some(f) ==> {
            &&& route_table(direct, map, root).contains_key(key)
            &&& route_table(direct, map, root)[key] == route_target(f, root)
        },
{
    lemma_route_table_lookup(direct, map, root, key);
}

/// The entry that `last_keyed` finds is an entry of `map` with the key `key`,
/// and the only one where the keys are distinct.
proof fn lemma_last_keyed_is_an_entry(map: Seq<(Seq<char>, FileView)>, key: Seq<char>, i: int)
    requires
        keys_distinct(map),
        0 <= i < map.len(),
        map[i].0 == key,
    ensures
        last_keyed(map, key) == Some(map[i].1),
    decreases map.len(),
{
    if i < map.len() - 1 {
        let rest = map.drop_last();
        assert(map[i].0 != map[map.len() - 1].0);
        assert forall|a: int, b: int| 0 <= a < b < rest.len() implies (#[trigger] rest[a]).0 != (
        #[trigger] rest[b]).0 by {
            assert(rest[a] == map[a] && rest[b] == map[b]);
        }
        assert(rest[i] == map[i]);
        lemma_last_keyed_is_an_entry(rest, key, i);
    }
}

/// Where the keys of the keyed entries are distinct, the table holds each of
/// them: a lookup of the key of an entry finds the target of that entry,
/// unless the pass over `direct` keeps an entry with that key as its path.
pub proof fn lemma_table_holds_each_keyed_entry(
    direct: Seq<FileView>,
    map: Seq<(Seq<char>, FileView)>,
    root: PathView,
    i: int,
)
    requires
        keys_distinct(map),
        0 <= i < map.len(),
    ensures
        map_routes(map, root).contains_key(map[i].0),
        map_routes(map, root)[map[i].0] == route_target(map[i].1, root),
        route_table(direct, map, root).contains_key(map[i].0),
        last_direct(kept_direct(direct, path_text(root)), map[i].0) is None ==> route_table(
            direct,
            map,
            root,
        )[map[i].0] == route_target(map[i].1, root),
{
    lemma_last_keyed_is_an_entry(map, map[i].0, i);
    lemma_map_routes_lookup(map, root, map[i].0);
    lemma_route_table_lookup(direct, map, root, map[i].0);
}

/// The entry that `last_direct` finds has the path `key`.
proof fn lemma_last_direct_has_the_path(direct: Seq<FileView>, key: Seq<char>)
    ensures
        last_direct(direct, key) matches Some(f) ==> f.1 == key && direct.contains(f),
    decreases direct.len(),
{
    if direct.len() > 0 {
        lemma_last_direct_has_the_path(direct.drop_last(), key);
        match last_direct(direct, key) {
            Some(f) => {
                if direct.last().1 == key {
                    assert(direct[direct.len() - 1] == f);
                } else {
                    let rest = direct.drop_last();
                    let j = choose|j: int| 0 <= j < rest.len() && rest[j] == f;
                    assert(direct[j] == f);
                }
            },
            None => {},
        }
    }
}

/// Every key of the route table that the `direct` list gives is a relative
/// path, and the path of its target is that path adjoined to the root. No
/// absolute path of `direct` is a key.
pub proof fn lemma_direct_keys_are_relative(
    direct: Seq<FileView>,
    map: Seq<(Seq<char>, FileView)>,
    root: PathView,
    key: Seq<char>,
)
    ensures
        last_direct(kept_direct(direct, path_text(root)), key) is Some ==> {
            &&& !path_is_absolute(key)
            &&& route_table(direct, map, root)[key].1 == spec_join_text(root, key)
        },
{
    let kept = kept_direct(direct, path_text(root));
    lemma_last_direct_has_the_path(kept, key);
    lemma_route_table_lookup(direct, map, root, key);
    match last_direct(kept, key) {
        Some(f) => {
            let j = choose|j: int| 0 <= j < kept.len() && kept[j] == f;
            lemma_kept_direct_is_relative(direct, path_text(root), j);
        },
        None => {},
    }
}

/// Where the pass keeps no entry of `direct`, as it keeps none whose path is
/// absolute and does not lie below the root, the kept list is empty; with no
/// keyed entries the table is then empty, and every lookup misses.
pub proof fn lemma_paths_outside_the_root_are_not_reachable(
    direct: Seq<FileView>,
    root: PathView,
    key: Seq<char>,
)
    requires
        forall|i: int|
            0 <= i < direct.len() ==> kept_entry(#[trigger] direct[i], path_text(root)) is None,
    ensures
        kept_direct(direct, path_text(root)).len() == 0,
        !route_table(direct, Seq::<(Seq<char>, FileView)>::empty(), root).contains_key(key),
{
    lemma_nothing_kept(direct, path_text(root));
    lemma_route_table_lookup(direct, Seq::<(Seq<char>, FileView)>::empty(), root, key);
}

/// A pass that keeps no entry leaves an empty list.
proof fn lemma_nothing_kept(direct: Seq<FileView>, root: Option<Seq<char>>)
    requires
        forall|i: int| 0 <= i < direct.len() ==> kept_entry(#[trigger] direct[i], root) is None,
    ensures
        kept_direct(direct, root).len() == 0,
    decreases direct.len(),
{
    if direct.len() > 0 {
        let rest = direct.drop_last();
        assert forall|i: int| 0 <= i < rest.len() implies kept_entry(
            #[trigger] rest[i],
            root,
        ) is None by {
            assert(rest[i] == direct[i]);
        }
        lemma_nothing_kept(rest, root);
        assert(kept_entry(direct[direct.len() - 1], root) is None);
    }
}

/// The target of `file`, whose path is taken against `root`.
fn target_of(file: &FileObject, root: &HybridPathBuf) -> (target: RouteTarget)
    ensures
        target@ == route_target(file@, root@),
{
    RouteTarget { mime: file.resolve_mime(), path: absolutize(file.path().as_str(), root) }
}

/// Sets the keyed entries `map` into `table`, one after the other.
fn insert_map_routes(
    table: &mut StringHashMap<RouteTarget>,
    map: &Vec<(String, FileObject)>,
    root: &HybridPathBuf,
)
    ensures
        target_views(final(table)@) == keyed_views(map@).fold_left(
            target_views(old(table)@),
            |t: Map<Seq<char>, TargetView>, e: (Seq<char>, FileView)|
                with_map_entry(t, e, root@),
        ),
{
    let ghost entries = keyed_views(map@);
    let ghost start = target_views(table@);
    let ghost step = |t: Map<Seq<char>, TargetView>, e: (Seq<char>, FileView)|
        with_map_entry(t, e, root@);
    let n: usize = map.len();
    let mut i: usize = 0;
    proof {
        assert(entries.take(0) =~= Seq::<(Seq<char>, FileView)>::empty());
    }
    while i < n
        invariant
            i <= n,
            n == map@.len(),
            entries == keyed_views(map@),
            step == (|t: Map<Seq<char>, TargetView>, e: (Seq<char>, FileView)|
                with_map_entry(t, e, root@)),
            target_views(table@) == entries.take(i as int).fold_left(start, step),
        decreases n - i,
    {
        let entry = &map[i];
        let ghost before = table@;
        proof {
            assert(entries.take(i + 1).drop_last() =~= entries.take(i as int));
            assert(entries.take(i + 1).last() == (entry.0@, entry.1@));
        }
        let target = target_of(&entry.1, root);
        table.insert(entry.0.clone(), target);
        proof {
            assert(target_views(table@) =~= target_views(before).insert(entry.0@, target@));
        }
        i += 1;
    }
    proof {
        assert(entries.take(n as int) =~= entries);
    }
}

/// Sets the entries `direct` into `table`, one after the other, each under
/// its own path.
fn insert_direct_routes(
    table: &mut StringHashMap<RouteTarget>,
    direct: &Vec<FileObject>,
    root: &HybridPathBuf,
)
    ensures
        target_views(final(table)@) == with_direct_routes(
            target_views(old(table)@),
            file_views(direct@),
            root@,
        ),
{
    let ghost entries = file_views(direct@);
    let ghost start = target_views(table@);
    let ghost step = |t: Map<Seq<char>, TargetView>, f: FileView|
        with_direct_entry(t, f, root@);
    let n: usize = direct.len();
    let mut i: usize = 0;
    proof {
        assert(entries.take(0) =~= Seq::<FileView>::empty());
    }
    while i < n
        invariant
            i <= n,
            n == direct@.len(),
            entries == file_views(direct@),
            step == (|t: Map<Seq<char>, TargetView>, f: FileView|
                with_direct_entry(t, f, root@)),
            target_views(table@) == entries.take(i as int).fold_left(start, step),
        decreases n - i,
    {
        let file = &direct[i];
        let ghost before = table@;
        proof {
            assert(entries.take(i + 1).drop_last() =~= entries.take(i as int));
            assert(entries.take(i + 1).last() == file@);
        }
        let target = target_of(file, root);
        table.insert(file.path().clone(), target);
        proof {
            assert(target_views(table@) =~= target_views(before).insert(file@.1, target@));
        }
        i += 1;
    }
    proof {
        assert(entries.take(n as int) =~= entries);
    }
}

impl std::ops::Deref for Config {
    type Target = ConfigContent;

    fn deref(&self) -> (content: &ConfigContent)
        ensures
            *content == self.content,
    {
        &self.content
    }
}

impl Config {
    /// The route table as the contracts see it.
    pub open spec fn routes(&self) -> Map<Seq<char>, TargetView> {
        target_views(self.get_routes@)
    }

    /// Builds the configuration from what the file holds and the directory
    /// `root` that the file lies in.
    ///
    /// The not-found path is made absolute against `root`. With declared
    /// routes, the paths of `direct` are made relative to `root` where they
    /// lie below it, and entries that are still absolute are dropped, as the
    /// report says; the table is `route_table` of the declared routes. Without
    /// declared routes the table is empty, and so is the report. The routes
    /// and the not-found path are moved out of the content.
    pub fn new(root: HybridPathBuf, content: ConfigContent) -> (built: (Config, RelativizeReport))
        ensures
            built.0.file_dir == root,
            built.0.content.addr == content.addr,
            built.0.content.failsafe_addrs == content.failsafe_addrs,
            built.0.content.not_found is None,
            path_view(built.0.not_found) == match content.not_found {
                Some(p) => Some(spec_absolutize(p@, root@)),
                None => None,
            },
            match content.get_routes {
                Some(declared) => {
                    let direct = file_views(declared.direct@);
                    &&& built.0.routes() == route_table(
                        direct,
                        keyed_views(declared.map@),
                        root@,
                    )
                    &&& text_views(built.1.parent@) == direct.filter_map(
                        |f: FileView| dropped_entry(f, root.text()),
                    )
                    &&& pair_views(built.1.made_to_rel@) == direct.filter_map(
                        |f: FileView| converted_entry(f, root.text()),
                    )
                    &&& built.0.content.get_routes matches Some(left)
                    &&& left.direct@.len() == 0
                    &&& left.map@.len() == 0
                },
                None => {
                    &&& built.0.routes() == Map::<Seq<char>, TargetView>::empty()
                    &&& built.1.parent@.len() == 0
                    &&& built.1.made_to_rel@.len() == 0
                    &&& built.0.content.get_routes is None
                },
            },
    {
        let ConfigContent { addr, failsafe_addrs, not_found, get_routes } = content;
        let mut table: StringHashMap<RouteTarget> = StringHashMap::new();
        assert(target_views(table@) =~= Map::<Seq<char>, TargetView>::empty());
        let resolved = match not_found {
            Some(p) => Some(absolutize(p.as_str(), &root)),
            None => None,
        };
        let (left, report) = match get_routes {
            Some(declared) => {
                let mut declared = declared;
                let report = declared.relativize_direct_routes(&root);
                insert_map_routes(&mut table, &declared.map, &root);
                // `direct` comes after `map`, so that `direct` takes priority
                insert_direct_routes(&mut table, &declared.direct, &root);
                (Some(GetRoutes { direct: Vec::new(), map: Vec::new() }), report)
            },
            None => (None, RelativizeReport { parent: Vec::new(), made_to_rel: Vec::new() }),
        };
        let content = ConfigContent { addr, failsafe_addrs, not_found: None, get_routes: left };
        (Config { file_dir: root, content, get_routes: table, not_found: resolved }, report)
    }

    /// The root for a configuration file whose directory is `parent`, if it
    /// has one, where `absolute` says whether that directory is absolute and
    /// `current_dir` is the working directory, or why it cannot be had.
    ///
    /// A file without a directory has no root. An absolute directory is the
    /// root. A relative one is taken against the working directory, and
    /// without a working directory there is no root.
    pub fn root_from(
        parent: Option<HybridPathBuf>,
        absolute: bool,
        current_dir: Result<HybridPathBuf, String>,
    ) -> (root: Result<HybridPathBuf, String>)
        ensures
            match parent {
                None => root matches Err(e) && e@ == "config file path has no parent directory"@,
                Some(dir) => if absolute {
                    root == Ok::<HybridPathBuf, String>(dir)
                } else {
                    match current_dir {
                        Err(why) => root matches Err(e) && e@ == "failed to get current dir ("@
                            + why@ + ")"@,
                        Ok(cwd) => root matches Ok(r) && r@ == spec_join(cwd@, dir@),
                    }
                },
            },
    {
        match parent {
            None => Err("config file path has no parent directory".to_owned()),
            Some(dir) => {
                if absolute {
                    Ok(dir)
                } else {
                    match current_dir {
                        Err(why) => {
                            let mut message = "failed to get current dir (".to_owned();
                            message.append(why.as_str());
                            message.append(")");
                            Err(message)
                        },
                        Ok(cwd) => Ok(cwd.join(&dir)),
                    }
                }
            },
        }
    }

    /// The root for the configuration file at `config_path`: the directory
    /// that it lies in, taken against the working directory `current_dir`
    /// where it is relative. A file without a directory has no root, and
    /// neither has one with a relative directory where the working directory
    /// cannot be had.
    pub fn get_root(config_path: &HybridPathBuf, current_dir: Result<HybridPathBuf, String>) -> (root:
        Result<HybridPathBuf, String>)
        ensures
            match spec_parent(config_path@) {
                None => root matches Err(e) && e@ == "config file path has no parent directory"@,
                Some(dir) => if spec_is_absolute(dir) {
                    root matches Ok(r) && r@ == dir
                } else {
                    match current_dir {
                        Err(why) => root matches Err(e) && e@ == "failed to get current dir ("@
                            + why@ + ")"@,
                        Ok(cwd) => root matches Ok(r) && r@ == spec_join(cwd@, dir),
                    }
                },
            },
    {
        match config_path.parent() {
            Some(dir) => {
                let absolute = dir.is_absolute();
                Config::root_from(Some(dir), absolute, current_dir)
            },
            None => Config::root_from(None, false, current_dir),
        }
    }

    /// The addresses to listen on, in the order in which they are tried:
    /// first `addr`, then the fallbacks.
    pub fn bind_candidates(&self) -> (candidates: Vec<String>)
        ensures
            candidates@ == seq![self.content.addr] + self.content.failsafe_addrs@,
    {
        let mut candidates: Vec<String> = Vec::new();
        candidates.push(self.content.addr.clone());
        let n: usize = self.content.failsafe_addrs.len();
        let mut i: usize = 0;
        while i < n
            invariant
                i <= n,
                n == self.content.failsafe_addrs@.len(),
                candidates@ == seq![self.content.addr] + self.content.failsafe_addrs@.take(
                    i as int,
                ),
            decreases n - i,
        {
            candidates.push(self.content.failsafe_addrs[i].clone());
            proof {
                assert(self.content.failsafe_addrs@.take(i + 1)
                    =~= self.content.failsafe_addrs@.take(i as int).push(
                    self.content.failsafe_addrs@[i as int],
                ));
            }
            i += 1;
        }
        proof {
            assert(self.content.failsafe_addrs@.take(n as int) =~= self.content.failsafe_addrs@);
        }
        candidates
    }

    /// Looks up the request path `url`: the target under `route_key(url)`, or
    /// `None` where the table has no such key.
    pub fn resolve_route(&self, url: &str) -> (found: Option<(Option<&Mime>, &HybridPathBuf)>)
        ensures
            match found {
                Some((mime, path)) => self.get_routes@.contains_key(route_key(url@)) && ({
                    let target = self.get_routes@[route_key(url@)];
                    &&& path == target.path
                    &&& match mime {
                        Some(m) => target.mime == Some(*m),
                        None => target.mime is None,
                    }
                }),
                None => !self.get_routes@.contains_key(route_key(url@)),
            },
    {
        let n: usize = url.unicode_len();
        let stripped: &str = if n > 0 && url.get_char(0) == '/' {
            url.substring_char(1, n)
        } else {
            url
        };
        let key: &str = if str_eq(stripped, "direct") {
            "%direct"
        } else {
            stripped
        };
        match self.get_routes.get(key) {
            Some(target) => Some((target.mime.as_ref(), &target.path)),
            None => None,
        }
    }
}

} // verus!
