//! The declared routes: files with an inferred or an explicit content type,
//! and the pass that makes the paths of the `direct` list relative to the
//! root.

use crate::mime_types::{mime_for_extension, mime_parse, mime_view, spec_mime_for_extension, Mime};
use crate::paths::{
    path_extension, path_is_absolute, path_join, path_strip_prefix, spec_absolutize,
    utf8_extension, utf8_is_absolute, utf8_strip_prefix, HybridPathBuf, PathView,
};
use vstd::prelude::*;

verus! {

/// One file that can be routed to.
#[derive(Debug, Clone)]
pub enum FileObject {
    /// The content type follows from the extension of the path.
    InferMime(String),
    /// The content type is given as text.
    ExplicitMime { mime_type: String, path: String },
}

/// A file as the contracts see it: the explicit type, if any, and the path.
pub type FileView = (Option<Seq<char>>, Seq<char>);

impl View for FileObject {
    type V = FileView;

    open spec fn view(&self) -> FileView {
        match self {
            FileObject::InferMime(p) => (None, p@),
            FileObject::ExplicitMime { mime_type, path } => (Some(mime_type@), path@),
        }
    }
}

/// The content type of a file: the explicit type where it parses, else none;
/// without an explicit type, what the table gives to the extension.
pub open spec fn spec_resolve_mime(file: FileView) -> Option<Seq<char>> {
    match file.0 {
        Some(t) => mime_parse(t),
        None => match path_extension(file.1) {
            Some(e) => spec_mime_for_extension(e),
            None => None,
        },
    }
}

impl FileObject {
    /// The path of the file.
    pub fn path(&self) -> (path: &String)
        ensures
            path@ == self@.1,
    {
        match self {
            FileObject::InferMime(p) => p,
            FileObject::ExplicitMime { path, .. } => path,
        }
    }

    /// The path of the file, to be changed in place.
    pub fn path_mut(&mut self) -> (path: &mut String)
        ensures
            path@ == old(self)@.1,
            final(self)@ == (old(self)@.0, final(path)@),
    {
        match self {
            FileObject::InferMime(p) => p,
            FileObject::ExplicitMime { path, .. } => path,
        }
    }

    /// The path of the file, by value.
    pub fn into_path(self) -> (path: String)
        ensures
            path@ == self@.1,
    {
        match self {
            FileObject::InferMime(p) => p,
            FileObject::ExplicitMime { path, .. } => path,
        }
    }

    /// The content type of the file. An explicit type that does not parse
    /// gives no content type; so does an extension that the table does not
    /// know, and a path without extension.
    pub fn resolve_mime(&self) -> (mime: Option<Mime>)
        ensures
            mime_view(mime) == spec_resolve_mime(self@),
    {
        match self {
            FileObject::ExplicitMime { mime_type, .. } => Mime::parse(mime_type.as_str()),
            FileObject::InferMime(path) => match utf8_extension(path.as_str()) {
                Some(ext) => mime_for_extension(ext.as_str()),
                None => None,
            },
        }
    }

    /// The content type of the file, as `resolve_mime` gives it, and its path.
    pub fn into_mime_and_path(self) -> (pair: (Option<Mime>, String))
        ensures
            mime_view(pair.0) == spec_resolve_mime(self@),
            pair.1@ == self@.1,
    {
        let mime = self.resolve_mime();
        (mime, self.into_path())
    }
}

impl FileObject {
    /// The same file under the path `path`.
    pub fn with_path(&self, path: String) -> (file: FileObject)
        ensures
            file@ == (self@.0, path@),
    {
        match self {
            FileObject::InferMime(_) => FileObject::InferMime(path),
            FileObject::ExplicitMime { mime_type, .. } => FileObject::ExplicitMime {
                mime_type: mime_type.clone(),
                path,
            },
        }
    }
}

/// The declared routes: the `direct` list, whose entries are reached by their
/// own relative path, and the entries that are reached by a key of their own.
#[derive(Debug, Clone)]
pub struct GetRoutes {
    pub direct: Vec<FileObject>,
    /// The keyed entries. A configuration file gives each key once, which is
    /// what `keys_distinct` says; where a key stands twice, the later entry
    /// counts.
    pub map: Vec<(String, FileObject)>,
}

/// No two keyed entries have the same key.
pub open spec fn keys_distinct(map: Seq<(Seq<char>, FileView)>) -> bool {
    forall|i: int, j: int|
        0 <= i < j < map.len() ==> (#[trigger] map[i]).0 != (#[trigger] map[j]).0
}

/// What the pass over the `direct` list found.
#[derive(Debug, Clone)]
pub struct RelativizeReport {
    /// Paths of `direct` that stayed absolute: they lie outside the root and
    /// were dropped.
    pub parent: Vec<String>,
    /// Paths of `direct` that were made relative, each with what it became.
    pub made_to_rel: Vec<(String, String)>,
}

/// The views of a list of files.
pub open spec fn file_views(files: Seq<FileObject>) -> Seq<FileView> {
    files.map_values(|f: FileObject| f@)
}

/// The views of a list of texts.
pub open spec fn text_views(texts: Seq<String>) -> Seq<Seq<char>> {
    texts.map_values(|t: String| t@)
}

/// The views of a list of pairs of texts.
pub open spec fn pair_views(pairs: Seq<(String, String)>) -> Seq<(Seq<char>, Seq<char>)> {
    pairs.map_values(|p: (String, String)| (p.0@, p.1@))
}

/// The views of a list of keyed files.
pub open spec fn keyed_views(entries: Seq<(String, FileObject)>) -> Seq<(Seq<char>, FileView)> {
    entries.map_values(|e: (String, FileObject)| (e.0@, e.1@))
}

/// What is left of `path` below `root`, where `path` is absolute and a
/// descendant of `root`: `root` is text, it is a prefix of `path` by whole
/// components, and something is left. A root that is not text has no
/// descendants.
pub open spec fn descendant_rest(path: Seq<char>, root: Option<Seq<char>>) -> Option<Seq<char>> {
    match root {
        Some(r) => match path_strip_prefix(path, r) {
            Some(rest) => if path_is_absolute(path) && rest.len() > 0 {
                Some(rest)
            } else {
                None
            },
            None => None,
        },
        None => None,
    }
}

/// The path `path` after the pass: relative to `root` where it was a
/// descendant of `root`, else unchanged.
pub open spec fn relativized(path: Seq<char>, root: Option<Seq<char>>) -> Seq<char> {
    match descendant_rest(path, root) {
        Some(rest) => rest,
        None => path,
    }
}

/// The entry of `direct` that `file` becomes, if it stays: its path is
/// relative after the pass.
pub open spec fn kept_entry(file: FileView, root: Option<Seq<char>>) -> Option<FileView> {
    let path = relativized(file.1, root);
    if path_is_absolute(path) {
        None
    } else {
        Some((file.0, path))
    }
}

/// The path that is reported as dropped for `file`, if it is dropped: its path
/// is absolute after the pass.
pub open spec fn dropped_entry(file: FileView, root: Option<Seq<char>>) -> Option<Seq<char>> {
    let path = relativized(file.1, root);
    if path_is_absolute(path) {
        Some(path)
    } else {
        None
    }
}

/// The pair that is reported as converted for `file`, if its path was made
/// relative: the path as it was and as it is now.
pub open spec fn converted_entry(file: FileView, root: Option<Seq<char>>) -> Option<
    (Seq<char>, Seq<char>),
> {
    match descendant_rest(file.1, root) {
        Some(rest) => Some((file.1, rest)),
        None => None,
    }
}

/// The `direct` list after the pass.
pub open spec fn kept_direct(direct: Seq<FileView>, root: Option<Seq<char>>) -> Seq<FileView> {
    direct.filter_map(|f: FileView| kept_entry(f, root))
}

/// Every entry that the pass keeps has a relative path.
pub proof fn lemma_kept_direct_is_relative(
    direct: Seq<FileView>,
    root: Option<Seq<char>>,
    i: int,
)
    requires
        0 <= i < kept_direct(direct, root).len(),
    ensures
        !path_is_absolute(kept_direct(direct, root)[i].1),
    decreases direct.len(),
{
    if direct.len() > 0 {
        let rest = kept_direct(direct.drop_last(), root);
        if i < rest.len() {
            lemma_kept_direct_is_relative(direct.drop_last(), root, i);
        }
    }
}

/// A path that lies below the root is made relative, and reported as
/// converted; its entry is kept under the rest, unless the rest is absolute.
pub proof fn lemma_descendant_is_made_relative(file: FileView, root: Option<Seq<char>>)
    ensures
        descendant_rest(file.1, root) matches Some(rest) ==> {
            &&& relativized(file.1, root) == rest
            &&& converted_entry(file, root) == Some((file.1, rest))
            &&& !path_is_absolute(rest) ==> kept_entry(file, root) == Some((file.0, rest))
        },
{
}

/// An absolute path that does not lie below the root is dropped, and
/// reported as dropped: it is not made relative, and its entry is not kept.
pub proof fn lemma_path_outside_the_root_is_dropped(file: FileView, root: Option<Seq<char>>)
    ensures
        path_is_absolute(file.1) && descendant_rest(file.1, root) is None ==> {
            &&& kept_entry(file, root) is None
            &&& dropped_entry(file, root) == Some(file.1)
            &&& converted_entry(file, root) is None
        },
{
}

/// Absolutize, then relativize. Let `path` be relative and not empty. Where
/// the path rules count `path` adjoined to `root` as absolute, and take
/// `root` off it again to leave `path`, the pass gives `path` back unchanged:
/// the entry is kept under `path`, reported as converted, and not dropped.
pub proof fn lemma_round_trip_under_the_path_rules(
    explicit: Option<Seq<char>>,
    path: Seq<char>,
    root: Seq<char>,
)
    ensures
        ({
            &&& !path_is_absolute(path)
            &&& path.len() > 0
            &&& path_is_absolute(path_join(root, path))
            &&& path_strip_prefix(path_join(root, path), root) == Some(path)
        }) ==> {
            let joined = path_join(root, path);
            &&& spec_absolutize(path, PathView::Text(root)) == PathView::Text(joined)
            &&& relativized(joined, Some(root)) == path
            &&& kept_entry((explicit, joined), Some(root)) == Some((explicit, path))
            &&& converted_entry((explicit, joined), Some(root)) == Some((joined, path))
            &&& dropped_entry((explicit, joined), Some(root)) is None
        },
{
}

/// The pass leaves a relative path as it is, and keeps its entry.
pub proof fn lemma_relative_path_is_kept(file: FileView, root: Option<Seq<char>>)
    ensures
        !path_is_absolute(file.1) ==> relativized(file.1, root) == file.1 && kept_entry(file, root)
            == Some(file),
{
}

/// A pass over entries that are all relative keeps them all as they are.
proof fn lemma_relative_entries_are_kept(files: Seq<FileView>, root: Option<Seq<char>>)
    requires
        forall|i: int| 0 <= i < files.len() ==> !path_is_absolute(#[trigger] files[i].1),
    ensures
        kept_direct(files, root) == files,
    decreases files.len(),
{
    if files.len() > 0 {
        let rest = files.drop_last();
        assert forall|i: int| 0 <= i < rest.len() implies !path_is_absolute(
            #[trigger] rest[i].1,
        ) by {
            assert(rest[i] == files[i]);
        }
        lemma_relative_entries_are_kept(rest, root);
        lemma_relative_path_is_kept(files.last(), root);
        assert(kept_direct(files, root) =~= files);
    } else {
        assert(kept_direct(files, root) =~= files);
    }
}

/// The pass is idempotent: a second pass over what the first one kept changes
/// nothing.
pub proof fn lemma_relativize_is_idempotent(direct: Seq<FileView>, root: Option<Seq<char>>)
    ensures
        kept_direct(kept_direct(direct, root), root) == kept_direct(direct, root),
{
    let kept = kept_direct(direct, root);
    assert forall|i: int| 0 <= i < kept.len() implies !path_is_absolute(#[trigger] kept[i].1) by {
        lemma_kept_direct_is_relative(direct, root, i);
    }
    lemma_relative_entries_are_kept(kept, root);
}

/// The relative path under `root` that stands for `path`, if `path` is
/// absolute and a descendant of `root`.
pub fn relativize_if_descendant(path: &str, root: &HybridPathBuf) -> (rest: Option<String>)
    ensures
        match rest {
            Some(r) => descendant_rest(path@, root.text()) == Some(r@),
            None => descendant_rest(path@, root.text()) is None,
        },
{
    match root {
        HybridPathBuf::Utf8(r) => match utf8_strip_prefix(path, r.as_str()) {
            Some(rest) => {
                if utf8_is_absolute(path) && !rest.as_str().is_empty() {
                    Some(rest)
                } else {
                    None
                }
            },
            None => None,
        },
        HybridPathBuf::NonUtf8(_) => None,
    }
}

impl GetRoutes {
    /// No two keyed entries have the same key.
    pub open spec fn keys_distinct(&self) -> bool {
        keys_distinct(keyed_views(self.map@))
    }

    /// Makes the paths of `direct` relative to `root` where they are
    /// descendants of it, and drops the entries whose path is still absolute
    /// after that. The order of the entries that stay is kept, and so is the
    /// order within each list of the report. `map` is not touched.
    pub fn relativize_direct_routes(&mut self, root: &HybridPathBuf) -> (report: RelativizeReport)
        ensures
            file_views(final(self).direct@) == kept_direct(
                file_views(old(self).direct@),
                root.text(),
            ),
            text_views(report.parent@) == file_views(old(self).direct@).filter_map(
                |f: FileView| dropped_entry(f, root.text()),
            ),
            pair_views(report.made_to_rel@) == file_views(old(self).direct@).filter_map(
                |f: FileView| converted_entry(f, root.text()),
            ),
            final(self).map == old(self).map,
    {
        let mut parent: Vec<String> = Vec::new();
        let mut made_to_rel: Vec<(String, String)> = Vec::new();
        let mut kept: Vec<FileObject> = Vec::new();
        let ghost all = file_views(self.direct@);
        let ghost keep = |f: FileView| kept_entry(f, root.text());
        let ghost dropped = |f: FileView| dropped_entry(f, root.text());
        let ghost converted = |f: FileView| converted_entry(f, root.text());
        let n: usize = self.direct.len();
        let mut i: usize = 0;
        while i < n
            invariant
                i <= n,
                n == self.direct@.len(),
                *self == *old(self),
                all == file_views(self.direct@),
                keep == (|f: FileView| kept_entry(f, root.text())),
                dropped == (|f: FileView| dropped_entry(f, root.text())),
                converted == (|f: FileView| converted_entry(f, root.text())),
                file_views(kept@) == all.take(i as int).filter_map(keep),
                text_views(parent@) == all.take(i as int).filter_map(dropped),
                pair_views(made_to_rel@) == all.take(i as int).filter_map(converted),
            decreases n - i,
        {
            let file = &self.direct[i];
            let ghost kept_before = kept@;
            let ghost parent_before = parent@;
            let ghost made_before = made_to_rel@;
            proof {
                all.lemma_filter_map_take_succ(keep, i as int);
                all.lemma_filter_map_take_succ(dropped, i as int);
                all.lemma_filter_map_take_succ(converted, i as int);
                assert(all[i as int] == file@);
            }
            let path: String = match relativize_if_descendant(file.path().as_str(), root) {
                Some(rest) => {
                    made_to_rel.push((file.path().clone(), rest.clone()));
                    rest
                },
                None => file.path().clone(),
            };
            if utf8_is_absolute(path.as_str()) {
                parent.push(path);
            } else {
                kept.push(file.with_path(path));
            }
            proof {
                assert(file_views(kept@) =~= all.take(i + 1).filter_map(keep));
                assert(text_views(parent@) =~= all.take(i + 1).filter_map(dropped));
                assert(pair_views(made_to_rel@) =~= all.take(i + 1).filter_map(converted));
            }
            i += 1;
        }
        proof {
            assert(all.take(n as int) =~= all);
        }
        self.direct = kept;
        RelativizeReport { parent, made_to_rel }
    }
}

} // verus!
