//! Paths as text, and the path rules of `camino` and `std::path` behind
//! contracts.
//!
//! A path that is valid UTF-8 is held as a `String`. What the path rules make
//! of such a text is named by the spec functions below: each stands for the
//! result of one function of `camino`, which follows `std::path` on the
//! platform that the library is built for. A path that is not valid UTF-8 is
//! carried as the platform holds it; what the platform's rules make of such a
//! path is named too, each name for one function of `std::path`.

use vstd::prelude::*;

verus! {

/// Whether the platform counts the path `path` as absolute.
pub uninterp spec fn path_is_absolute(path: Seq<char>) -> bool;

/// What is left of `path` once the leading components `base` are taken off,
/// or `None` where `base` is not a prefix of `path` by whole components.
pub uninterp spec fn path_strip_prefix(path: Seq<char>, base: Seq<char>) -> Option<Seq<char>>;

/// The path `path` adjoined to `base`.
pub uninterp spec fn path_join(base: Seq<char>, path: Seq<char>) -> Seq<char>;

/// The extension of the file name of `path`, without the dot.
pub uninterp spec fn path_extension(path: Seq<char>) -> Option<Seq<char>>;

/// The path `path` without its final component.
pub uninterp spec fn path_parent(path: Seq<char>) -> Option<Seq<char>>;

/// `camino::Utf8Path::is_absolute`. Trusted: the answer depends on the text of
/// the path alone.
#[verifier::external_body]
pub(crate) fn utf8_is_absolute(path: &str) -> (absolute: bool)
    ensures
        absolute == path_is_absolute(path@),
{
    camino::Utf8Path::new(path).is_absolute()
}

/// `camino::Utf8Path::strip_prefix`, with the remainder copied out as text and
/// the error turned into `None`. Trusted: the outcome depends on the two texts
/// alone.
#[verifier::external_body]
pub(crate) fn utf8_strip_prefix(path: &str, base: &str) -> (rest: Option<String>)
    ensures
        match rest {
            Some(r) => path_strip_prefix(path@, base@) == Some(r@),
            None => path_strip_prefix(path@, base@) is None,
        },
{
    match camino::Utf8Path::new(path).strip_prefix(base) {
        Ok(rest) => Some(rest.as_str().to_string()),
        Err(_) => None,
    }
}

/// `camino::Utf8Path::join`, with the result as text. Trusted: the result
/// depends on the two texts alone.
#[verifier::external_body]
pub(crate) fn utf8_join(base: &str, path: &str) -> (joined: String)
    ensures
        joined@ == path_join(base@, path@),
{
    camino::Utf8Path::new(base).join(path).into_string()
}

/// `camino::Utf8Path::extension`, copied out as text. Trusted: the result
/// depends on the text of the path alone.
#[verifier::external_body]
pub(crate) fn utf8_extension(path: &str) -> (extension: Option<String>)
    ensures
        match extension {
            Some(e) => path_extension(path@) == Some(e@),
            None => path_extension(path@) is None,
        },
{
    match camino::Utf8Path::new(path).extension() {
        Some(e) => Some(e.to_string()),
        None => None,
    }
}

/// `camino::Utf8Path::parent`, copied out as text. Trusted: the result depends
/// on the text of the path alone.
#[verifier::external_body]
pub(crate) fn utf8_parent(path: &str) -> (parent: Option<String>)
    ensures
        match parent {
            Some(p) => path_parent(path@) == Some(p@),
            None => path_parent(path@) is None,
        },
{
    match camino::Utf8Path::new(path).parent() {
        Some(p) => Some(p.as_str().to_string()),
        None => None,
    }
}

/// `std::path::PathBuf`, carried through without being looked into.
#[verifier::external_type_specification]
#[verifier::external_body]
pub struct ExPathBuf(std::path::PathBuf);

/// `Clone` for `std::path::PathBuf`. Trusted: the copy is the path it was made
/// from.
pub assume_specification[ <std::path::PathBuf as Clone>::clone ](
    path: &std::path::PathBuf,
) -> (copy: std::path::PathBuf)
    ensures
        copy == *path,
;

/// Whether the platform counts the path `path`, as it holds it, as absolute.
pub uninterp spec fn os_path_is_absolute(path: std::path::PathBuf) -> bool;

/// The path `path`, as the platform holds it, without its final component.
pub uninterp spec fn os_path_parent(path: std::path::PathBuf) -> Option<std::path::PathBuf>;

/// The path `path` adjoined to `base`, both as the platform holds them.
pub uninterp spec fn os_path_join(
    base: std::path::PathBuf,
    path: std::path::PathBuf,
) -> std::path::PathBuf;

/// The path that the platform makes of the text `text`.
pub uninterp spec fn os_path(text: Seq<char>) -> std::path::PathBuf;

/// The text of the path `path`, where it is valid UTF-8.
pub uninterp spec fn os_path_text(path: std::path::PathBuf) -> Option<Seq<char>>;

/// `std::path::Path::is_absolute`. Trusted: the answer depends on the path
/// alone.
#[verifier::external_body]
fn os_is_absolute(path: &std::path::PathBuf) -> (absolute: bool)
    ensures
        absolute == os_path_is_absolute(*path),
{
    path.is_absolute()
}

/// `std::path::Path::parent`, copied into an owned path. Trusted: the result
/// depends on the path alone.
#[verifier::external_body]
fn os_parent(path: &std::path::PathBuf) -> (parent: Option<std::path::PathBuf>)
    ensures
        parent == os_path_parent(*path),
{
    match path.parent() {
        Some(p) => Some(p.to_path_buf()),
        None => None,
    }
}

/// `std::path::Path::join`. Trusted: the result depends on the two paths
/// alone.
#[verifier::external_body]
fn os_join(base: &std::path::PathBuf, path: &std::path::PathBuf) -> (joined: std::path::PathBuf)
    ensures
        joined == os_path_join(*base, *path),
{
    base.join(path)
}

/// `std::path::PathBuf::from` on text. Trusted: the path depends on the text
/// alone.
#[verifier::external_body]
fn os_from_text(path: &str) -> (held: std::path::PathBuf)
    ensures
        held == os_path(path@),
{
    std::path::PathBuf::from(path)
}

/// A path of the file system.
#[derive(Debug, Clone)]
pub enum HybridPathBuf {
    /// The path as text.
    Utf8(String),
    /// The path as the platform holds it.
    NonUtf8(std::path::PathBuf),
}

/// A path as the contracts see it: its text, or the path as the platform
/// holds it.
pub enum PathView {
    Text(Seq<char>),
    Held(std::path::PathBuf),
}

impl View for HybridPathBuf {
    type V = PathView;

    open spec fn view(&self) -> PathView {
        match self {
            HybridPathBuf::Utf8(s) => PathView::Text(s@),
            HybridPathBuf::NonUtf8(p) => PathView::Held(*p),
        }
    }
}

/// The text of the path `path`, where it is held as text.
pub open spec fn path_text(path: PathView) -> Option<Seq<char>> {
    match path {
        PathView::Text(t) => Some(t),
        PathView::Held(_) => None,
    }
}

/// The view of an optional path.
pub open spec fn path_view(path: Option<HybridPathBuf>) -> Option<PathView> {
    match path {
        Some(p) => Some(p@),
        None => None,
    }
}

/// The path `path` as text where it is valid UTF-8, and as it is where it is
/// not.
pub open spec fn classified(path: std::path::PathBuf) -> PathView {
    match os_path_text(path) {
        Some(t) => PathView::Text(t),
        None => PathView::Held(path),
    }
}

/// The path `path` in the platform's own form: what the platform makes of the
/// text, or the path that is held.
pub open spec fn held(path: PathView) -> std::path::PathBuf {
    match path {
        PathView::Text(t) => os_path(t),
        PathView::Held(p) => p,
    }
}

/// Whether the path `path` is absolute.
pub open spec fn spec_is_absolute(path: PathView) -> bool {
    match path {
        PathView::Text(t) => path_is_absolute(t),
        PathView::Held(p) => os_path_is_absolute(p),
    }
}

/// The path `path` without its final component, if it has one to lose. What
/// is left of a held path is text again where it is valid UTF-8.
pub open spec fn spec_parent(path: PathView) -> Option<PathView> {
    match path {
        PathView::Text(t) => match path_parent(t) {
            Some(p) => Some(PathView::Text(p)),
            None => None,
        },
        PathView::Held(h) => match os_path_parent(h) {
            Some(p) => Some(classified(p)),
            None => None,
        },
    }
}

/// The path `path` adjoined to `base`. Two texts are joined as text. Where
/// one of the two is held, they are joined in the platform's form, and the
/// result is text again where it is valid UTF-8.
pub open spec fn spec_join(base: PathView, path: PathView) -> PathView {
    match (base, path) {
        (PathView::Text(b), PathView::Text(p)) => PathView::Text(path_join(b, p)),
        _ => classified(os_path_join(held(base), held(path))),
    }
}

/// The text `path` adjoined to `base`. Below a held path the result is held.
pub open spec fn spec_join_text(base: PathView, path: Seq<char>) -> PathView {
    match base {
        PathView::Text(b) => PathView::Text(path_join(b, path)),
        PathView::Held(b) => PathView::Held(os_path_join(b, os_path(path))),
    }
}

/// The text `path` made absolute against `root`: an absolute path stays as it
/// is, a relative one is adjoined to `root`.
pub open spec fn spec_absolutize(path: Seq<char>, root: PathView) -> PathView {
    if path_is_absolute(path) {
        PathView::Text(path)
    } else {
        spec_join_text(root, path)
    }
}

impl HybridPathBuf {
    /// The text of the path, where it is held as text.
    pub open spec fn text(&self) -> Option<Seq<char>> {
        match self {
            HybridPathBuf::Utf8(s) => Some(s@),
            HybridPathBuf::NonUtf8(_) => None,
        }
    }

    /// `camino::Utf8PathBuf::from_path_buf`: the path as text where it is valid
    /// UTF-8, and the path itself where it is not. Trusted: which of the two
    /// it is, and the text, depend on the path alone.
    #[verifier::external_body]
    pub fn from_std_path_buf(path: std::path::PathBuf) -> (classed: Self)
        ensures
            classed@ == match os_path_text(path) {
                Some(t) => PathView::Text(t),
                None => PathView::Held(path),
            },
    {
        match camino::Utf8PathBuf::from_path_buf(path) {
            Ok(p) => HybridPathBuf::Utf8(p.into_string()),
            Err(p) => HybridPathBuf::NonUtf8(p),
        }
    }

    /// The path as text, where it is held as text.
    pub fn as_str(&self) -> (text: Option<&str>)
        ensures
            match text {
                Some(t) => self.text() == Some(t@),
                None => self.text() is None,
            },
    {
        match self {
            HybridPathBuf::Utf8(s) => Some(s.as_str()),
            HybridPathBuf::NonUtf8(_) => None,
        }
    }

    /// The path in the platform's own form: what the platform makes of the
    /// text, or the path that is held.
    fn to_std_path_buf(&self) -> (path: std::path::PathBuf)
        ensures
            path == held(self@),
    {
        match self {
            HybridPathBuf::Utf8(s) => os_from_text(s.as_str()),
            HybridPathBuf::NonUtf8(p) => p.clone(),
        }
    }

    /// Whether the path is absolute.
    pub fn is_absolute(&self) -> (absolute: bool)
        ensures
            absolute == spec_is_absolute(self@),
    {
        match self {
            HybridPathBuf::Utf8(s) => utf8_is_absolute(s.as_str()),
            HybridPathBuf::NonUtf8(p) => os_is_absolute(p),
        }
    }

    /// The path without its final component, if it has one to lose.
    pub fn parent(&self) -> (parent: Option<HybridPathBuf>)
        ensures
            path_view(parent) == spec_parent(self@),
    {
        match self {
            HybridPathBuf::Utf8(s) => match utf8_parent(s.as_str()) {
                Some(p) => Some(HybridPathBuf::Utf8(p)),
                None => None,
            },
            HybridPathBuf::NonUtf8(p) => match os_parent(p) {
                Some(q) => Some(HybridPathBuf::from_std_path_buf(q)),
                None => None,
            },
        }
    }

    /// `path` adjoined to this path.
    pub fn join(&self, path: &HybridPathBuf) -> (joined: HybridPathBuf)
        ensures
            joined@ == spec_join(self@, path@),
    {
        match (self, path) {
            (HybridPathBuf::Utf8(b), HybridPathBuf::Utf8(p)) => HybridPathBuf::Utf8(
                utf8_join(b.as_str(), p.as_str()),
            ),
            _ => {
                let b = self.to_std_path_buf();
                let p = path.to_std_path_buf();
                HybridPathBuf::from_std_path_buf(os_join(&b, &p))
            },
        }
    }

    /// The path `path`, given as text, adjoined to this path. Below a held
    /// path the result is held.
    pub fn join_text(&self, path: &str) -> (joined: HybridPathBuf)
        ensures
            joined@ == spec_join_text(self@, path@),
    {
        match self {
            HybridPathBuf::Utf8(b) => HybridPathBuf::Utf8(utf8_join(b.as_str(), path)),
            HybridPathBuf::NonUtf8(b) => {
                let p = os_from_text(path);
                HybridPathBuf::NonUtf8(os_join(b, &p))
            },
        }
    }
}

/// The path `path` made absolute against `root`: an absolute path stays as it
/// is, a relative one is adjoined to `root`.
pub fn absolutize(path: &str, root: &HybridPathBuf) -> (absolute: HybridPathBuf)
    ensures
        absolute@ == spec_absolutize(path@, root@),
{
    if utf8_is_absolute(path) {
        HybridPathBuf::Utf8(path.to_owned())
    } else {
        root.join_text(path)
    }
}

} // verus!
