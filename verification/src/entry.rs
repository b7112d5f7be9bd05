//! Where a component is mounted from: base URLs and entry modules.
use crate::errors::InstanceError;
use crate::fonts::path_extension;
use crate::text::same;
use crate::urls::{parse_url, ParsedUrl};
use std::path::Path;
use vstd::prelude::*;

verus! {

/// Parses a base URL. Returns its serialization, or an error that holds the
/// text and the parser's message.
pub fn parse_base_url(base_url: &str) -> (url: Result<String, InstanceError>)
    ensures
        match crate::urls::parsed_url(base_url@) {
            Ok((text, _)) => url matches Ok(url) && url@ == text,
            Err(message) => url matches Err(InstanceError::BaseUrl { value, error }) && value@
                == base_url@ && error@ == message,
        },
{
    base_url_result(base_url, parse_url(base_url))
}

/// The outcome of parsing a base URL, given what the parser said.
pub fn base_url_result(base_url: &str, parsed: Result<ParsedUrl, String>) -> (url: Result<
    String,
    InstanceError,
>)
    ensures
        match parsed {
            Ok(parsed) => url == Ok::<String, InstanceError>(parsed.text),
            Err(message) => url matches Err(InstanceError::BaseUrl { value, error }) && value@
                == base_url@ && error == message,
        },
{
    match parsed {
        Ok(parsed) => Ok(parsed.text),
        Err(error) => Err(InstanceError::BaseUrl { value: base_url.to_owned(), error }),
    }
}

/// Whether an extension stands for a module that needs the JSX compiler.
pub open spec fn jsx_or_ts(extension: Option<Seq<char>>) -> bool {
    match extension {
        Some(extension) => extension == "jsx"@ || extension == "tsx"@ || extension == "ts"@,
        None => false,
    }
}

/// Whether an extension stands for a module that needs the JSX compiler.
pub fn is_jsx_or_ts_extension(extension: Option<&str>) -> (needed: bool)
    ensures
        needed == jsx_or_ts(
            match extension {
                Some(extension) => Some(extension@),
                None => None,
            },
        ),
{
    match extension {
        Some(extension) => same(extension, "jsx") || same(extension, "tsx") || same(
            extension,
            "ts",
        ),
        None => false,
    }
}

/// Whether a module needs the JSX compiler.
pub fn is_jsx_or_ts_module(path: &Path) -> (needed: bool)
    ensures
        needed == jsx_or_ts(crate::fonts::extension_of(path)),
{
    match path_extension(path) {
        Some(extension) => is_jsx_or_ts_extension(Some(extension.as_str())),
        None => false,
    }
}

/// A source file of a virtual project.
#[derive(Debug)]
pub struct VirtualSourceFile {
    pub path: String,
    pub source: String,
}

/// The first file at or after `from` with the given path.
pub open spec fn file_at(files: Seq<VirtualSourceFile>, path: Seq<char>, from: int) -> Option<int>
    decreases files.len() - from,
{
    if from < 0 || from >= files.len() {
        None
    } else if files[from].path@ == path {
        Some(from)
    } else {
        file_at(files, path, from + 1)
    }
}

/// The module that mounts a virtual project.
#[derive(Debug)]
pub struct EntryModule {
    pub path: String,
    pub source: String,
}

/// Picks the entry module of a virtual project: the file with the path
/// `entry`. `needs_compiler` tells whether that module has to be compiled,
/// which only a build with the compiler can do.
pub fn pick_virtual_entry(
    files: &Vec<VirtualSourceFile>,
    entry: &str,
    needs_compiler: bool,
    has_compiler: bool,
) -> (module: Result<EntryModule, InstanceError>)
    ensures
        match file_at(files@, entry@, 0) {
            Some(at) => if needs_compiler && !has_compiler {
                module matches Err(InstanceError::UnsupportedJsxModule { path }) && path@
                    == entry@
            } else {
                module matches Ok(found) && found.path@ == entry@ && found.source@
                    == files@[at].source@
            },
            None => module matches Err(InstanceError::MissingVirtualEntrypoint { path }) && path@
                == entry@,
        },
{
    let mut i: usize = 0;
    while i < files.len()
        invariant
            i <= files@.len(),
            file_at(files@, entry@, 0) == file_at(files@, entry@, i as int),
        decreases files@.len() - i,
    {
        if same(files[i].path.as_str(), entry) {
            if needs_compiler && !has_compiler {
                return Err(InstanceError::UnsupportedJsxModule { path: entry.to_owned() });
            }
            return Ok(EntryModule { path: entry.to_owned(), source: files[i].source.clone() });
        }
        i += 1;
    }
    Err(InstanceError::MissingVirtualEntrypoint { path: entry.to_owned() })
}

/// The file names that a component is mounted from, in order of preference,
/// each with whether it needs the JSX compiler.
pub open spec fn entry_names() -> Seq<(Seq<char>, bool)> {
    seq![
        ("index.tsx"@, true),
        ("app.tsx"@, true),
        ("index.jsx"@, true),
        ("app.jsx"@, true),
        ("index.ts"@, true),
        ("app.ts"@, true),
        ("index.js"@, false),
        ("app.js"@, false),
        ("index.mjs"@, false),
        ("app.mjs"@, false),
    ]
}

/// The names in a list of candidates.
pub open spec fn name_texts(names: Seq<(&'static str, bool)>) -> Seq<(Seq<char>, bool)> {
    names.map_values(|name: (&'static str, bool)| (name.0@, name.1))
}

/// The file names that a component is mounted from, in order of preference,
/// each with whether it needs the JSX compiler.
pub fn entry_candidates() -> (names: Vec<(&'static str, bool)>)
    ensures
        name_texts(names@) == entry_names(),
{
    let mut names: Vec<(&'static str, bool)> = Vec::new();
    names.push(("index.tsx", true));
    names.push(("app.tsx", true));
    names.push(("index.jsx", true));
    names.push(("app.jsx", true));
    names.push(("index.ts", true));
    names.push(("app.ts", true));
    names.push(("index.js", false));
    names.push(("app.js", false));
    names.push(("index.mjs", false));
    names.push(("app.mjs", false));
    proof {
        assert(name_texts(names@) =~= entry_names());
    }
    names
}

/// The first name at or after `from` that a file carries. Where none does, the
/// preferred name stands in.
pub open spec fn entry_from(
    files: Seq<VirtualSourceFile>,
    names: Seq<(Seq<char>, bool)>,
    from: int,
) -> (Seq<char>, bool)
    decreases names.len() - from,
{
    if from < 0 || from >= names.len() {
        ("index.tsx"@, true)
    } else if file_at(files, names[from].0, 0) is Some {
        names[from]
    } else {
        entry_from(files, names, from + 1)
    }
}

fn has_file(files: &Vec<VirtualSourceFile>, path: &str) -> (found: bool)
    ensures
        found == (file_at(files@, path@, 0) is Some),
{
    let mut i: usize = 0;
    while i < files.len()
        invariant
            i <= files@.len(),
            file_at(files@, path@, 0) == file_at(files@, path@, i as int),
        decreases files@.len() - i,
    {
        if same(files[i].path.as_str(), path) {
            return true;
        }
        i += 1;
    }
    false
}

/// The path of the entry module of a virtual project, and whether it needs the
/// JSX compiler.
pub fn resolve_virtual_entrypoint(files: &Vec<VirtualSourceFile>) -> (entry: (&'static str, bool))
    ensures
        (entry.0@, entry.1) == entry_from(files@, entry_names(), 0),
{
    let names = entry_candidates();
    let ghost texts = name_texts(names@);
    let mut i: usize = 0;
    while i < names.len()
        invariant
            i <= names@.len(),
            texts == name_texts(names@),
            texts == entry_names(),
            entry_from(files@, texts, 0) == entry_from(files@, texts, i as int),
        decreases names@.len() - i,
    {
        let name = names[i];
        assert(texts[i as int] == (name.0@, name.1));
        if has_file(files, name.0) {
            return name;
        }
        i += 1;
    }
    ("index.tsx", true)
}

/// Whether `name` is among `names`.
pub open spec fn has_name(names: Seq<String>, name: Seq<char>) -> bool {
    exists|i: int| 0 <= i < names.len() && (#[trigger] names[i])@ == name
}

/// Whether the candidate at `at` is the first that is among `names`.
pub open spec fn first_entry(names: Seq<String>, at: int) -> bool {
    &&& 0 <= at < entry_names().len()
    &&& has_name(names, entry_names()[at].0)
    &&& forall|i: int| 0 <= i < at ==> !has_name(names, (#[trigger] entry_names()[i]).0)
}

fn contains_name(names: &Vec<String>, name: &str) -> (found: bool)
    ensures
        found == has_name(names@, name@),
{
    let mut i: usize = 0;
    while i < names.len()
        invariant
            i <= names@.len(),
            forall|k: int| 0 <= k < i ==> (#[trigger] names@[k])@ != name@,
        decreases names@.len() - i,
    {
        if same(names[i].as_str(), name) {
            return true;
        }
        i += 1;
    }
    false
}

/// The file that a source directory is mounted from, given the names of its
/// files, and whether it needs the JSX compiler. There is none where the
/// directory holds no candidate.
pub fn resolve_entrypoint(names: &Vec<String>) -> (entry: Option<(&'static str, bool)>)
    ensures
        match entry {
            Some((name, needs_compiler)) => exists|at: int| #[trigger]
                first_entry(names@, at) && entry_names()[at] == (name@, needs_compiler),
            None => forall|i: int|
                0 <= i < entry_names().len() ==> !has_name(
                    names@,
                    (#[trigger] entry_names()[i]).0,
                ),
        },
{
    let candidates = entry_candidates();
    let ghost texts = name_texts(candidates@);
    let mut i: usize = 0;
    while i < candidates.len()
        invariant
            i <= candidates@.len(),
            texts == name_texts(candidates@),
            texts == entry_names(),
            forall|k: int| 0 <= k < i ==> !has_name(names@, (#[trigger] entry_names()[k]).0),
        decreases candidates@.len() - i,
    {
        let candidate = candidates[i];
        assert(texts[i as int] == (candidate.0@, candidate.1));
        if contains_name(names, candidate.0) {
            assert(first_entry(names@, i as int));
            return Some(candidate);
        }
        i += 1;
    }
    None
}

proof fn lemma_file_at(files: Seq<VirtualSourceFile>, path: Seq<char>, from: int)
    requires
        0 <= from,
    ensures
        file_at(files, path, from) is Some <==> exists|i: int|
            from <= i < files.len() && (#[trigger] files[i]).path@ == path,
    decreases files.len() - from,
{
    if from < files.len() && files[from].path@ != path {
        lemma_file_at(files, path, from + 1);
    }
}

proof fn lemma_entry_from(
    files: Seq<VirtualSourceFile>,
    names: Seq<(Seq<char>, bool)>,
    from: int,
    at: int,
)
    requires
        0 <= from <= at < names.len(),
        file_at(files, names[at].0, 0) is Some,
        forall|i: int|
            from <= i < at ==> file_at(files, (#[trigger] names[i]).0, 0) is None,
    ensures
        entry_from(files, names, from) == names[at],
    decreases at - from,
{
    if from < at {
        assert(file_at(files, names[from].0, 0) is None);
        lemma_entry_from(files, names, from + 1, at);
    }
}

/// A project is mounted from the same module whether it lies in a directory or
/// comes as a list of virtual files.
pub proof fn virtual_files_mount_like_directory(
    files: Seq<VirtualSourceFile>,
    names: Seq<String>,
    at: int,
)
    requires
        names.len() == files.len(),
        forall|i: int| 0 <= i < files.len() ==> (#[trigger] files[i]).path@ == names[i]@,
        first_entry(names, at),
    ensures
        entry_from(files, entry_names(), 0) == entry_names()[at],
{
    assert forall|path: Seq<char>| (file_at(files, path, 0) is Some) == #[trigger] has_name(
        names,
        path,
    ) by {
        lemma_file_at(files, path, 0);
        if has_name(names, path) {
            let k = choose|k: int| 0 <= k < names.len() && (#[trigger] names[k])@ == path;
            assert(files[k].path@ == path);
        }
        if file_at(files, path, 0) is Some {
            let k = choose|k: int| 0 <= k < files.len() && (#[trigger] files[k]).path@ == path;
            assert(names[k]@ == path);
        }
    }
    assert forall|i: int| 0 <= i < at implies file_at(
        files,
        (#[trigger] entry_names()[i]).0,
        0,
    ) is None by {
        assert(!has_name(names, entry_names()[i].0));
    }
    lemma_entry_from(files, entry_names(), 0, at);
}

/// Calls `Path::parent`. The result depends on the path alone and is named
/// `parent_of`.
#[verifier::external_body]
pub(crate) fn parent_dir(path: &Path) -> (parent: Option<&Path>)
    ensures
        parent == parent_of(path),
{
    path.parent()
}

/// The directory that a path lies in.
pub uninterp spec fn parent_of(path: &Path) -> Option<&Path>;

/// The text of a path, with replacement characters for what is not Unicode.
pub uninterp spec fn lossy_text(path: &Path) -> Seq<char>;

/// Calls `Path::to_string_lossy`. The result depends on the path alone and is
/// named `lossy_text`.
#[verifier::external_body]
fn path_text(path: &Path) -> (text: String)
    ensures
        text@ == lossy_text(path),
{
    path.to_string_lossy().to_string()
}

/// The `file:` URL of a directory, where it has one.
pub uninterp spec fn directory_url_of(path: &Path) -> Option<Seq<char>>;

/// Calls `Url::from_directory_path` and serializes the result. It depends on
/// the path alone and is named `directory_url_of`; a relative path has no URL.
#[verifier::external_body]
fn directory_url(path: &Path) -> (url: Option<String>)
    ensures
        match url {
            Some(url) => directory_url_of(path) == Some(url@),
            None => directory_url_of(path) is None,
        },
{
    match url::Url::from_directory_path(path) {
        Ok(url) => Some(url.to_string()),
        Err(_) => None,
    }
}

/// The base URL of a process that runs in `cwd`.
pub fn default_base_url(cwd: &Path) -> (url: String)
    ensures
        url@ == (match directory_url_of(cwd) {
            Some(url) => url,
            None => "file:///"@,
        }),
{
    match directory_url(cwd) {
        Some(url) => url,
        None => "file:///".to_owned(),
    }
}

/// The base URL of a component file: that of its directory, or `fallback`.
pub open spec fn file_base_url(path: &Path, fallback: Seq<char>) -> Seq<char> {
    match parent_of(path) {
        Some(parent) => match directory_url_of(parent) {
            Some(url) => url,
            None => fallback,
        },
        None => fallback,
    }
}

/// The base URL of a component file, so that files beside it can be referred
/// to by relative paths.
pub fn base_url_for_file(path: &Path, fallback: &str) -> (url: String)
    ensures
        url@ == file_base_url(path, fallback@),
{
    match parent_dir(path) {
        Some(parent) => match directory_url(parent) {
            Some(url) => url,
            None => fallback.to_owned(),
        },
        None => fallback.to_owned(),
    }
}

/// The module of a component file that was read. A file that needs the JSX
/// compiler is refused where there is none.
pub fn file_entry(path: &Path, source: String, has_compiler: bool) -> (module: Result<
    EntryModule,
    InstanceError,
>)
    ensures
        if jsx_or_ts(crate::fonts::extension_of(path)) && !has_compiler {
            module matches Err(InstanceError::UnsupportedJsxModule { path: text }) && text@
                == lossy_text(path)
        } else {
            module matches Ok(found) && found.path@ == lossy_text(path) && found.source == source
        },
{
    if is_jsx_or_ts_module(path) && !has_compiler {
        return Err(InstanceError::UnsupportedJsxModule { path: path_text(path) });
    }
    Ok(EntryModule { path: path_text(path), source })
}

/// Modules in JSX, TSX and TypeScript need the compiler, and no others do.
pub proof fn compiled_extensions(extension: Seq<char>)
    ensures
        jsx_or_ts(Some("jsx"@)) && jsx_or_ts(Some("tsx"@)) && jsx_or_ts(Some("ts"@)),
        !jsx_or_ts(None),
        jsx_or_ts(Some(extension)) ==> extension == "jsx"@ || extension == "tsx"@ || extension
            == "ts"@,
{
}

/// The first file of a path is found, and none only where no file has it.
pub proof fn first_file_is_found(files: Seq<VirtualSourceFile>, path: Seq<char>, from: int)
    requires
        0 <= from <= files.len(),
    ensures
        match file_at(files, path, from) {
            Some(at) => {
                &&& from <= at < files.len()
                &&& files[at].path@ == path
                &&& forall|i: int| from <= i < at ==> (#[trigger] files[i]).path@ != path
            },
            None => forall|i: int| from <= i < files.len() ==> (#[trigger] files[i]).path@ != path,
        },
    decreases files.len() - from,
{
    if from < files.len() && files[from].path@ != path {
        first_file_is_found(files, path, from + 1);
    }
}

/// A component is mounted from `index` before `app`, and from TSX before JSX, TypeScript,
/// JavaScript and JavaScript modules. The last two need no compiler.
pub proof fn index_comes_before_app(kind: int)
    requires
        0 <= kind < 5,
    ensures
        entry_names().len() == 10,
        ({
            let extension = if kind == 0 {
                "tsx"@
            } else if kind == 1 {
                "jsx"@
            } else if kind == 2 {
                "ts"@
            } else if kind == 3 {
                "js"@
            } else {
                "mjs"@
            };
            &&& entry_names()[2 * kind] == ("index."@ + extension, kind < 3)
            &&& entry_names()[2 * kind + 1] == ("app."@ + extension, kind < 3)
        }),
{
    reveal_strlit("index.");
    reveal_strlit("app.");
    reveal_strlit("tsx");
    reveal_strlit("jsx");
    reveal_strlit("ts");
    reveal_strlit("js");
    reveal_strlit("mjs");
    reveal_strlit("index.tsx");
    reveal_strlit("app.tsx");
    reveal_strlit("index.jsx");
    reveal_strlit("app.jsx");
    reveal_strlit("index.ts");
    reveal_strlit("app.ts");
    reveal_strlit("index.js");
    reveal_strlit("app.js");
    reveal_strlit("index.mjs");
    reveal_strlit("app.mjs");
    assert("index."@ + "tsx"@ =~= "index.tsx"@ && "app."@ + "tsx"@ =~= "app.tsx"@);
    assert("index."@ + "jsx"@ =~= "index.jsx"@ && "app."@ + "jsx"@ =~= "app.jsx"@);
    assert("index."@ + "ts"@ =~= "index.ts"@ && "app."@ + "ts"@ =~= "app.ts"@);
    assert("index."@ + "js"@ =~= "index.js"@ && "app."@ + "js"@ =~= "app.js"@);
    assert("index."@ + "mjs"@ =~= "index.mjs"@ && "app."@ + "mjs"@ =~= "app.mjs"@);
}

/// The entry of a project is the first of the candidates that one of its files carries.
/// Where none does, it is the name that is preferred most.
pub proof fn preferred_entry_is_taken(
    files: Seq<VirtualSourceFile>,
    names: Seq<(Seq<char>, bool)>,
    from: int,
)
    requires
        0 <= from <= names.len(),
    ensures
        (forall|i: int| from <= i < names.len() ==> file_at(files, (#[trigger] names[i]).0, 0) is None)
            ==> entry_from(files, names, from) == ("index.tsx"@, true),
        forall|at: int|
            from <= at < names.len() && file_at(files, (#[trigger] names[at]).0, 0) is Some && (
            forall|i: int|
                from <= i < at ==> file_at(files, (#[trigger] names[i]).0, 0) is None)
                ==> entry_from(files, names, from) == names[at],
    decreases names.len() - from,
{
    if from < names.len() {
        preferred_entry_is_taken(files, names, from + 1);
        assert forall|at: int|
            from <= at < names.len() && file_at(files, (#[trigger] names[at]).0, 0) is Some && (
            forall|i: int|
                from <= i < at ==> file_at(
                    files,
                    (#[trigger] names[i]).0,
                    0,
                ) is None) implies entry_from(files, names, from) == names[at] by {
            lemma_entry_from(files, names, from, at);
        }
        assert(names[from] == names[from]);
    }
}

/// References of a component file are resolved against its directory, and against the
/// fallback where that has no URL.
pub proof fn files_are_resolved_beside(path: &Path, dir: &Path, url: Seq<char>, fallback: Seq<char>)
    ensures
        parent_of(path) == Some(dir) && directory_url_of(dir) == Some(url) ==> file_base_url(
            path,
            fallback,
        ) == url,
        parent_of(path) is None ==> file_base_url(path, fallback) == fallback,
        parent_of(path) == Some(dir) && directory_url_of(dir) is None ==> file_base_url(
            path,
            fallback,
        ) == fallback,
{
}

} // verus!
