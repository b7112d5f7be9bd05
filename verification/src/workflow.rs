//! Development workflow: classifying source changes and deciding what to
//! reload.
use crate::entry::parent_dir;
use crate::fonts::path_extension;
use crate::text::{same, to_ascii_lowercase_text};
use std::path::{Path, PathBuf};
use vstd::prelude::*;

verus! {

#[verifier::external_type_specification]
#[verifier::external_body]
pub struct ExPathBuf(PathBuf);

/// The path that a path buffer holds.
pub uninterp spec fn path_in(buffer: &PathBuf) -> &Path;

/// Calls `PathBuf::as_path`. The result depends on the buffer alone and is
/// named `path_in`.
#[verifier::external_body]
fn as_path(buffer: &PathBuf) -> (path: &Path)
    ensures
        path == path_in(buffer),
{
    buffer.as_path()
}

/// Calls `Path::to_path_buf`: the buffer holds the path.
#[verifier::external_body]
fn to_path_buf(path: &Path) -> (buffer: PathBuf)
    ensures
        path_in(&buffer) == path,
{
    path.to_path_buf()
}

/// Whether a path lies below a directory, compared component by component.
pub uninterp spec fn path_below(path: &Path, dir: &Path) -> bool;

/// Calls `Path::starts_with`. The result depends on the two paths alone and
/// is named `path_below`.
#[verifier::external_body]
fn is_below(path: &Path, dir: &Path) -> (below: bool)
    ensures
        below == path_below(path, dir),
{
    path.starts_with(dir)
}

/// The directory to watch for a component: the component itself where it is a
/// directory, else the one it lies in. `None` stands for the working directory.
pub fn watch_root(component: &Path, is_dir: bool) -> (root: Option<&Path>)
    ensures
        root == (if is_dir {
            Some(component)
        } else {
            crate::entry::parent_of(component)
        }),
{
    if is_dir {
        Some(component)
    } else {
        parent_dir(component)
    }
}

/// What a changed source file asks for.
#[derive(Debug, Clone, Copy, PartialEq, Eq, Structural)]
pub enum SourceKind {
    /// A script module: the bundle has to be rebuilt.
    Bundle,
    /// A stylesheet: it can be reloaded in place.
    Css,
    /// Any other file, which is ignored.
    Other,
}

/// The kind of source that a file extension stands for, in any case.
pub open spec fn source_kind(extension: Option<Seq<char>>) -> SourceKind {
    match extension {
        Some(extension) => {
            let lower = crate::text::ascii_lower_text(extension);
            if lower == "jsx"@ || lower == "tsx"@ || lower == "ts"@ {
                SourceKind::Bundle
            } else if lower == "css"@ {
                SourceKind::Css
            } else {
                SourceKind::Other
            }
        },
        None => SourceKind::Other,
    }
}

/// Classifies a changed file by its extension.
pub fn classify_source(extension: Option<&str>) -> (kind: SourceKind)
    ensures
        kind == source_kind(
            match extension {
                Some(extension) => Some(extension@),
                None => None,
            },
        ),
{
    match extension {
        Some(extension) => {
            let lower = to_ascii_lowercase_text(extension);
            let lower = lower.as_str();
            if same(lower, "jsx") || same(lower, "tsx") || same(lower, "ts") {
                SourceKind::Bundle
            } else if same(lower, "css") {
                SourceKind::Css
            } else {
                SourceKind::Other
            }
        },
        None => SourceKind::Other,
    }
}

/// Change summary of a file watch.
#[derive(Debug, Clone, PartialEq, Eq)]
pub struct SourceChangeSummary {
    /// A script module changed and the bundle needs to be rebuilt.
    pub bundle_rebuild: bool,
    /// A stylesheet changed and can be updated without remounting.
    pub css_reload: bool,
    /// The stylesheets that changed.
    pub css_paths: Vec<PathBuf>,
}

impl Default for SourceChangeSummary {
    fn default() -> (summary: Self)
        ensures
            !summary.bundle_rebuild,
            !summary.css_reload,
            summary.css_paths@ == Seq::<PathBuf>::empty(),
    {
        SourceChangeSummary { bundle_rebuild: false, css_reload: false, css_paths: Vec::new() }
    }
}

/// The kind of source that a changed path is. A path outside the source
/// directory counts as any other file.
pub open spec fn change_kind(path: &Path, source_dir: &Path) -> SourceKind {
    if path_below(path, source_dir) {
        source_kind(crate::fonts::extension_of(path))
    } else {
        SourceKind::Other
    }
}

/// Whether some of the first `upto` changes is of the kind `kind`.
pub open spec fn some_change(
    changes: Seq<PathBuf>,
    source_dir: &Path,
    kind: SourceKind,
    upto: int,
) -> bool {
    exists|i: int|
        0 <= i < upto && change_kind(path_in(&(#[trigger] changes[i])), source_dir) == kind
}

/// The stylesheets among the first `upto` changes, in order.
pub open spec fn css_changes(changes: Seq<PathBuf>, source_dir: &Path, upto: int) -> Seq<&Path>
    decreases upto,
{
    if upto <= 0 {
        Seq::empty()
    } else {
        let before = css_changes(changes, source_dir, upto - 1);
        let path = path_in(&changes[upto - 1]);
        if change_kind(path, source_dir) is Css {
            before.push(path)
        } else {
            before
        }
    }
}

/// Classifies pending file changes for live reload. Only script modules and
/// stylesheets below the source directory count, so that unrelated file
/// activity triggers no work.
pub fn summarize_changes(changes: &Vec<PathBuf>, source_dir: &Path) -> (summary:
    SourceChangeSummary)
    ensures
        summary.bundle_rebuild == some_change(
            changes@,
            source_dir,
            SourceKind::Bundle,
            changes@.len() as int,
        ),
        summary.css_reload == some_change(
            changes@,
            source_dir,
            SourceKind::Css,
            changes@.len() as int,
        ),
        summary.css_paths@.map_values(|buffer: PathBuf| path_in(&buffer)) == css_changes(
            changes@,
            source_dir,
            changes@.len() as int,
        ),
{
    let mut summary = SourceChangeSummary::default();
    let mut i: usize = 0;
    proof {
        assert(summary.css_paths@.map_values(|buffer: PathBuf| path_in(&buffer)) =~= css_changes(
            changes@,
            source_dir,
            0,
        ));
    }
    while i < changes.len()
        invariant
            i <= changes@.len(),
            summary.bundle_rebuild == some_change(
                changes@,
                source_dir,
                SourceKind::Bundle,
                i as int,
            ),
            summary.css_reload == some_change(changes@, source_dir, SourceKind::Css, i as int),
            summary.css_paths@.map_values(|buffer: PathBuf| path_in(&buffer)) == css_changes(
                changes@,
                source_dir,
                i as int,
            ),
        decreases changes@.len() - i,
    {
        let path = as_path(&changes[i]);
        let ghost kind = change_kind(path, source_dir);
        let ghost before = summary.css_paths@;
        assert(change_kind(path_in(&changes@[i as int]), source_dir) == kind);
        if is_below(path, source_dir) {
            let found = match path_extension(path) {
                Some(extension) => classify_source(Some(extension.as_str())),
                None => classify_source(None),
            };
            match found {
                SourceKind::Bundle => {
                    summary.bundle_rebuild = true;
                },
                SourceKind::Css => {
                    summary.css_reload = true;
                    summary.css_paths.push(to_path_buf(path));
                    proof {
                        assert(summary.css_paths@.map_values(
                            |buffer: PathBuf| path_in(&buffer),
                        ) =~= before.map_values(|buffer: PathBuf| path_in(&buffer)).push(path));
                    }
                },
                SourceKind::Other => {},
            }
        }
        proof {
            assert forall|wanted: SourceKind| #[trigger] some_change(
                changes@,
                source_dir,
                wanted,
                i + 1,
            ) == (some_change(changes@, source_dir, wanted, i as int) || kind == wanted) by {
                if some_change(changes@, source_dir, wanted, i as int) {
                    let k = choose|k: int|
                        0 <= k < i && change_kind(path_in(&(#[trigger] changes@[k])), source_dir)
                            == wanted;
                    assert(change_kind(path_in(&changes@[k]), source_dir) == wanted);
                }
            }
        }
        i += 1;
    }
    summary
}

/// What a watcher should do about source changes.
#[derive(Debug, Clone, PartialEq, Eq)]
pub enum ReloadAction {
    Nothing,
    Remount,
    CssChanged(Vec<PathBuf>),
}

/// Decides what to do about a change summary: a script change remounts, and
/// stylesheet changes alone are reloaded in place.
pub fn reload_action(summary: SourceChangeSummary) -> (action: ReloadAction)
    ensures
        match action {
            ReloadAction::Remount => summary.bundle_rebuild,
            ReloadAction::CssChanged(paths) => !summary.bundle_rebuild && summary.css_reload
                && paths == summary.css_paths,
            ReloadAction::Nothing => !summary.bundle_rebuild && !summary.css_reload,
        },
{
    if summary.bundle_rebuild {
        ReloadAction::Remount
    } else if summary.css_reload {
        ReloadAction::CssChanged(summary.css_paths)
    } else {
        ReloadAction::Nothing
    }
}

/// Source-directory workflow helper.
#[derive(Debug)]
pub struct SourceProject {
    pub dir: PathBuf,
}

impl Clone for SourceProject {
    fn clone(&self) -> (project: Self)
        ensures
            path_in(&project.dir) == path_in(&self.dir),
    {
        SourceProject { dir: to_path_buf(as_path(&self.dir)) }
    }
}

impl SourceProject {
    /// A project whose sources lie in `source_dir`.
    pub fn new(source_dir: PathBuf) -> (project: Self)
        ensures
            project.dir == source_dir,
    {
        SourceProject { dir: source_dir }
    }

    /// The directory of the sources.
    pub fn source_dir(&self) -> (dir: &Path)
        ensures
            dir == path_in(&self.dir),
    {
        as_path(&self.dir)
    }
}

/// Script modules and stylesheets are known by their extension, in any mix of capital
/// and small letters. Any other file, and one without an extension, is neither.
pub proof fn kinds_go_by_extension(extension: Seq<char>)
    ensures
        ({
            let lower = crate::text::ascii_lower_text(extension);
            let script = lower == "jsx"@ || lower == "tsx"@ || lower == "ts"@;
            &&& script ==> source_kind(Some(extension)) is Bundle
            &&& lower == "css"@ ==> source_kind(Some(extension)) is Css
            &&& !script && lower != "css"@ ==> source_kind(Some(extension)) is Other
        }),
        source_kind(None) is Other,
{
    reveal_strlit("jsx");
    reveal_strlit("tsx");
    reveal_strlit("ts");
    reveal_strlit("css");
    assert("jsx"@[0] == 'j' && "tsx"@[0] == 't' && "ts"@[0] == 't' && "css"@[0] == 'c');
}

/// Changes outside of the source directory count for nothing, and those below it by
/// their extension.
pub proof fn only_sources_count(path: &Path, source_dir: &Path)
    ensures
        !path_below(path, source_dir) ==> change_kind(path, source_dir) is Other,
        path_below(path, source_dir) ==> change_kind(path, source_dir) == source_kind(
            crate::fonts::extension_of(path),
        ),
{
}

/// Every changed stylesheet is among those to reload, and nothing else is.
pub proof fn changed_stylesheets_are_listed(
    changes: Seq<PathBuf>,
    source_dir: &Path,
    upto: int,
)
    requires
        0 <= upto <= changes.len(),
    ensures
        forall|i: int|
            0 <= i < upto && change_kind(path_in(&(#[trigger] changes[i])), source_dir) is Css
                ==> css_changes(changes, source_dir, upto).contains(path_in(&changes[i])),
        forall|k: int|
            0 <= k < css_changes(changes, source_dir, upto).len() ==> change_kind(
                #[trigger] css_changes(changes, source_dir, upto)[k],
                source_dir,
            ) is Css,
        css_changes(changes, source_dir, upto).len() > 0 <==> some_change(
            changes,
            source_dir,
            SourceKind::Css,
            upto,
        ),
    decreases upto,
{
    if upto > 0 {
        changed_stylesheets_are_listed(changes, source_dir, upto - 1);
        let before = css_changes(changes, source_dir, upto - 1);
        let after = css_changes(changes, source_dir, upto);
        let last = path_in(&changes[upto - 1]);
        assert forall|i: int|
            0 <= i < upto && change_kind(
                path_in(&(#[trigger] changes[i])),
                source_dir,
            ) is Css implies after.contains(path_in(&changes[i])) by {
            if i < upto - 1 {
                assert(before.contains(path_in(&changes[i])));
                let k = before.index_of(path_in(&changes[i]));
                assert(after[k] == path_in(&changes[i]));
            } else {
                assert(after[after.len() - 1] == last);
            }
        }
        if some_change(changes, source_dir, SourceKind::Css, upto) {
            let i = choose|i: int|
                0 <= i < upto && change_kind(path_in(&(#[trigger] changes[i])), source_dir)
                    == SourceKind::Css;
            assert(after.contains(path_in(&changes[i])));
        }
        if after.len() > 0 {
            if change_kind(last, source_dir) is Css {
                assert(change_kind(path_in(&changes[upto - 1]), source_dir) == SourceKind::Css);
            } else {
                let i = choose|i: int|
                    0 <= i < upto - 1 && change_kind(path_in(&(#[trigger] changes[i])), source_dir)
                        == SourceKind::Css;
                assert(change_kind(path_in(&changes[i]), source_dir) == SourceKind::Css);
            }
        }
    }
}

} // verus!
