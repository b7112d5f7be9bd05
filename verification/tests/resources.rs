//! Fonts, images, fetches, stylesheets and source files.
use solite::entry::{
    base_url_for_file, base_url_result, default_base_url, file_entry, parse_base_url,
    pick_virtual_entry, resolve_entrypoint, resolve_virtual_entrypoint, VirtualSourceFile,
};
use solite::errors::{InstanceError, RegisterFontError};
use solite::fonts::{register, FontFormat};
use solite::img::{ImgEvent, ImgNode, ImgWatcher};
use solite::effects::{Effect, EventName};
use solite::instance::{image_effects, Instance, InstanceConfig};
use solite::net::{FetchEvent, FetchStep, SoliteNetProvider};
use solite::scrollbar::{ScrollbarTheme, Tone};
use solite::stylesheets::StylesheetId;
use solite::workflow::{
    reload_action, summarize_changes, watch_root, ReloadAction, SourceProject,
};
use std::path::{Path, PathBuf};

fn config(stylesheets: Vec<String>) -> InstanceConfig {
    InstanceConfig { width: 100, height: 100, stylesheets, document_scroll: false, base_url: None }
}

fn instance() -> Instance {
    Instance::new(config(vec![]), "file:///work/", 1).expect("valid base URL")
}

fn parse_url(css: &str) -> Option<String> {
    let start = css.find("url(\"")? + "url(\"".len();
    let end = start + css[start..].find('"')?;
    Some(css[start..end].to_string())
}

fn deliver(provider: &mut SoliteNetProvider, url: &str) -> Vec<u8> {
    match provider.fetch(url).step {
        FetchStep::Deliver(bytes) => bytes,
        other => panic!("expected bytes, got {other:?}"),
    }
}

#[test]
fn register_returns_css_referencing_registered_url() {
    let mut provider = SoliteNetProvider::new();
    let registered =
        register(&mut provider, 0, "MyFamily", vec![1u8, 2, 3], FontFormat::Truetype);
    assert!(registered.css.contains("font-family: 'MyFamily'"));
    assert!(registered.css.contains("format(\"truetype\")"));

    let url = parse_url(&registered.css).expect("url present");
    assert_eq!(deliver(&mut provider, &url), vec![1u8, 2, 3]);
}

#[test]
fn from_path_handles_common_extensions() {
    assert!(matches!(FontFormat::from_path(Path::new("foo.ttf")), Some(FontFormat::Truetype)));
    assert!(matches!(FontFormat::from_path(Path::new("foo.OTF")), Some(FontFormat::Opentype)));
    assert!(matches!(FontFormat::from_path(Path::new("foo.WoFF2")), Some(FontFormat::Woff2)));
    assert!(FontFormat::from_path(Path::new("foo.png")).is_none());
}

#[test]
fn family_names_with_quotes_are_escaped() {
    let mut provider = SoliteNetProvider::new();
    let registered = register(&mut provider, 0, "Foo's Font", vec![], FontFormat::Woff2);
    assert!(registered.css.contains("'Foo\\'s Font'"));
}

#[test]
fn font_faces_are_written_out() {
    let mut provider = SoliteNetProvider::new();
    let font = register(&mut provider, 12, "F", vec![7u8], FontFormat::Woff);
    assert_eq!(
        font.css,
        "@font-face { font-family: 'F'; src: url(\"solite-font://font-12.woff\") format(\"woff\"); }"
    );
    assert_eq!(provider.lookup_registered("solite-font://font-12.woff"), Some(vec![7u8]));
    assert_eq!(provider.lookup_registered("solite-font://font-13.woff"), None);
}

#[test]
fn fresh_register_starts_unflagged() {
    let mut w = ImgWatcher::new();
    w.register(7, "file:///a.png".into());
    assert_eq!(w.tracked_count(), 1);
}

fn failed(url: &str) -> FetchEvent {
    FetchEvent { resolved_url: url.into(), ok: false, error: None }
}

#[test]
fn re_registering_same_url_is_idempotent_for_dispatch_state() {
    let id = 3;
    let nodes = vec![ImgNode::Element { has_image: false }];
    let mut w = ImgWatcher::new();
    w.register(id, "file:///a.png".into());
    w.ingest_fetch_events(vec![failed("file:///a.png")]);
    let first = w.collect_pending(&nodes);
    assert_eq!(first, vec![ImgEvent::Error { node_id: id }]);
    w.register(id, "file:///a.png".into());
    assert!(w.collect_pending(&nodes).is_empty());
}

#[test]
fn changing_url_resets_dispatch_state() {
    let id = 3;
    let nodes = vec![ImgNode::Element { has_image: false }];
    let mut w = ImgWatcher::new();
    w.register(id, "file:///a.png".into());
    w.ingest_fetch_events(vec![failed("file:///a.png")]);
    assert_eq!(w.collect_pending(&nodes), vec![ImgEvent::Error { node_id: id }]);
    w.register(id, "file:///b.png".into());
    assert!(w.collect_pending(&nodes).is_empty());
    w.ingest_fetch_events(vec![failed("file:///b.png")]);
    assert_eq!(w.collect_pending(&nodes), vec![ImgEvent::Error { node_id: id }]);
}

#[test]
fn clear_removes_node_from_tracking() {
    let mut w = ImgWatcher::new();
    w.register(1, "file:///a.png".into());
    assert_eq!(w.tracked_count(), 1);
    w.clear(1);
    assert_eq!(w.tracked_count(), 0);
}

#[test]
fn missing_node_id_is_dropped_silently() {
    let mut w = ImgWatcher::new();
    w.register(999, "file:///a.png".into());
    assert_eq!(w.tracked_ids(), vec![999]);
    assert!(w.collect_pending(&vec![ImgNode::Missing]).is_empty());
    assert_eq!(w.tracked_count(), 0);
}

#[test]
fn decoded_images_load_once() {
    let mut w = ImgWatcher::new();
    w.register(4, "file:///a.png".into());
    let nodes = vec![ImgNode::Element { has_image: true }];
    assert_eq!(w.collect_pending(&nodes), vec![ImgEvent::Load { node_id: 4 }]);
    assert!(w.collect_pending(&nodes).is_empty());
}

#[test]
fn each_event_comes_once_over_many_collections() {
    let mut w = ImgWatcher::new();
    w.register(4, "file:///a.png".into());
    w.register(5, "file:///b.png".into());
    let empty = ImgNode::Element { has_image: false };
    let decoded = ImgNode::Element { has_image: true };
    assert!(w.collect_pending(&vec![empty, ImgNode::NotElement]).is_empty());
    w.ingest_fetch_events(vec![failed("file:///a.png"), failed("file:///a.png")]);
    let events = w.collect_pending(&vec![empty, decoded]);
    assert_eq!(events, vec![ImgEvent::Error { node_id: 4 }, ImgEvent::Load { node_id: 5 }]);
    assert_eq!(w.collect_pending(&vec![decoded, decoded]), vec![ImgEvent::Load { node_id: 4 }]);
    for node in [empty, decoded, empty] {
        w.ingest_fetch_events(vec![failed("file:///a.png")]);
        w.register(4, "file:///a.png".into());
        assert!(w.collect_pending(&vec![node, decoded]).is_empty());
    }
    assert!(w.collect_pending(&vec![decoded, ImgNode::Missing]).is_empty());
    assert_eq!(w.tracked_ids(), vec![4]);
}

#[test]
fn new_urls_leave_other_images_alone() {
    let mut w = ImgWatcher::new();
    w.register(4, "file:///a.png".into());
    w.register(5, "file:///b.png".into());
    let nodes = vec![ImgNode::Element { has_image: true }, ImgNode::Element { has_image: true }];
    assert_eq!(w.collect_pending(&nodes).len(), 2);
    w.register(4, "file:///c.png".into());
    assert_eq!(w.tracked_count(), 2);
    assert_eq!(w.collect_pending(&nodes), vec![ImgEvent::Load { node_id: 4 }]);
}

#[test]
fn image_sources_are_resolved_against_the_base_url() {
    let base = "file:///work/ui/";
    let nodes = vec![ImgNode::Element { has_image: false }];
    let mut w = ImgWatcher::new();
    w.set_source(4, "../a.png", base);
    w.ingest_fetch_events(vec![failed("../a.png")]);
    assert!(w.collect_pending(&nodes).is_empty());
    w.ingest_fetch_events(vec![failed("file:///work/a.png")]);
    assert_eq!(w.collect_pending(&nodes), vec![ImgEvent::Error { node_id: 4 }]);
    w.set_source(4, "", base);
    assert_eq!(w.tracked_count(), 0, "an empty source is nothing to wait for");
    w.set_source(4, "a.png", base);
    assert_eq!(w.tracked_count(), 1);
    w.set_source(4, "a.png", "no url");
    assert_eq!(w.tracked_count(), 0);
    w.source_resolved(4, "a.png", Some("file:///a.png".into()));
    w.source_resolved(4, "a.png", None);
    assert_eq!(w.tracked_count(), 0);
}

#[test]
fn missing_img_src_dispatches_error_event() {
    let url = "file:///tmp/solite-does-not-exist-12345.png";
    let mut provider = SoliteNetProvider::new();
    let mut w = ImgWatcher::new();
    w.register(4, url.into());
    let fetch = provider.fetch(url);
    assert!(matches!(fetch.step, FetchStep::ReadFile(_)));
    provider.finish_file(&fetch.url, None);
    w.ingest_fetch_events(provider.drain_events());
    let events = w.collect_pending(&vec![ImgNode::Element { has_image: false }]);
    assert_eq!(
        image_effects(&events),
        vec![Effect::Fire { node: 4, event: EventName::Error }]
    );
}

#[test]
fn data_url_image_dispatches_load_event() {
    let url = "data:image/png;base64,iVBORw0KGgo=";
    let mut provider = SoliteNetProvider::new();
    let mut w = ImgWatcher::new();
    w.register(4, url.into());
    assert_eq!(deliver(&mut provider, url), b"\x89PNG\r\n\x1a\n");
    w.ingest_fetch_events(provider.drain_events());
    let events = w.collect_pending(&vec![ImgNode::Element { has_image: true }]);
    assert_eq!(image_effects(&events), vec![Effect::Fire { node: 4, event: EventName::Load }]);
}

#[test]
fn registered_url_returns_registered_bytes_and_records_success() {
    let mut provider = SoliteNetProvider::new();
    provider.register("solite-font://test".into(), b"PAYLOAD".to_vec());
    assert_eq!(deliver(&mut provider, "solite-font://test"), b"PAYLOAD");

    let events = provider.drain_events();
    assert_eq!(events.len(), 1);
    assert_eq!(events[0].resolved_url, "solite-font://test");
    assert!(events[0].ok);
}

#[test]
fn missing_file_url_returns_empty_bytes_and_records_failure() {
    let url = "file:///tmp/this-file-definitely-does-not-exist-solite.png";
    let mut provider = SoliteNetProvider::new();
    let fetch = provider.fetch(url);
    match fetch.step {
        FetchStep::ReadFile(path) => assert_eq!(
            path,
            PathBuf::from("/tmp/this-file-definitely-does-not-exist-solite.png")
        ),
        other => panic!("expected a file, got {other:?}"),
    }
    let bytes = provider.finish_file(&fetch.url, None);
    assert!(bytes.is_empty(), "expected empty bytes on file-not-found");

    let events = provider.drain_events();
    assert_eq!(events.len(), 1);
    assert!(!events[0].ok);
    assert_eq!(events[0].error.as_deref(), Some("failed to read file URL"));
}

#[test]
fn files_that_were_read_are_delivered() {
    let mut provider = SoliteNetProvider::new();
    let fetch = provider.fetch("FILE:///a/../b.png");
    assert_eq!(fetch.url, "file:///b.png");
    assert_eq!(provider.finish_file(&fetch.url, Some(vec![4, 2])), vec![4, 2]);
    assert_eq!(provider.drain_events()[0].resolved_url, "file:///b.png");
    assert!(deliver(&mut provider, "file://host/b.png").is_empty());
    assert_eq!(provider.drain_events()[0].error.as_deref(), Some("invalid file URL"));
    assert!(deliver(&mut provider, "no url").is_empty());
    assert_eq!(provider.drain_events()[0].error.as_deref(), Some("invalid URL"));
}

#[test]
fn data_url_decodes_to_payload_and_records_success() {
    let mut provider = SoliteNetProvider::new();
    let bytes = deliver(&mut provider, "data:application/octet-stream;base64,aGVsbG8=");
    assert_eq!(bytes, b"hello");
    let events = provider.drain_events();
    assert_eq!(events.len(), 1);
    assert!(events[0].ok);
}

#[test]
fn data_url_that_does_not_decode_records_failure() {
    let mut provider = SoliteNetProvider::new();
    let bytes = deliver(&mut provider, "data:text/plain;base64,a");
    assert!(bytes.is_empty());
    let events = provider.drain_events();
    assert_eq!(events.len(), 1);
    assert!(!events[0].ok);
    assert!(events[0].error.is_some());
}

#[test]
fn http_scheme_fetches_body_and_records_success() {
    let url = "http://127.0.0.1:80/img.png";
    let mut provider = SoliteNetProvider::new();
    assert!(matches!(provider.fetch(url).step, FetchStep::Http));
    let bytes = provider.finish_fetch(url, Ok(b"HTTP-PAYLOAD".to_vec()));
    assert_eq!(bytes, b"HTTP-PAYLOAD");

    let events = provider.drain_events();
    assert_eq!(events.len(), 1);
    assert!(events[0].ok);
    assert_eq!(events[0].error, None);
}

#[test]
fn http_404_is_reported_as_failure() {
    let url = "http://127.0.0.1:80/missing";
    let mut provider = SoliteNetProvider::new();
    assert!(matches!(provider.fetch(url).step, FetchStep::Http));
    let error = format!("HTTP status client error (404 Not Found) for url ({url})");
    assert!(provider.finish_fetch(url, Err(error)).is_empty());

    let events = provider.drain_events();
    assert_eq!(events.len(), 1);
    assert!(!events[0].ok);
    assert!(events[0].error.as_ref().expect("failure should include status").contains("404"));
}

#[test]
fn unknown_scheme_records_supported_error() {
    let mut provider = SoliteNetProvider::new();
    let bytes = deliver(&mut provider, "ftp://example.com/x.png");
    assert!(bytes.is_empty());

    let events = provider.drain_events();
    assert_eq!(events.len(), 1);
    assert!(!events[0].ok);
    assert_eq!(events[0].error.as_deref(), Some("unsupported URL scheme: ftp"));
}

#[test]
fn drain_events_is_consumed_once() {
    let mut provider = SoliteNetProvider::new();
    provider.register("solite-font://x".into(), vec![1u8, 2, 3]);
    deliver(&mut provider, "solite-font://x");
    assert_eq!(provider.drain_events().len(), 1);
    assert!(provider.drain_events().is_empty());
}

#[test]
fn replace_stylesheet_swaps_rule() {
    let mut instance = instance();
    let id = instance.add_stylesheet(".tag { color: rgb(255, 0, 0) }");
    instance.painted();
    assert_eq!(
        instance.replace_stylesheet(id, ".tag { color: rgb(0, 0, 255) }").as_deref(),
        Some(".tag { color: rgb(255, 0, 0) }")
    );
    assert_eq!(
        instance.stylesheets.get(id).map(|css| css.as_str()),
        Some(".tag { color: rgb(0, 0, 255) }")
    );
    assert!(instance.ui.needs_paint);
}

#[test]
fn remove_stylesheet_drops_rule() {
    let mut instance = instance();
    let id = instance.add_stylesheet(".tag { color: rgb(255, 0, 0) }");
    assert!(instance.remove_stylesheet(id).is_some());
    assert!(instance.stylesheets.get(id).is_none());
    instance.painted();
    assert!(instance.remove_stylesheet(id).is_none());
    assert!(!instance.ui.needs_paint);
}

#[test]
fn upsert_stylesheet_reuses_or_recreates_id() {
    let mut instance = instance();
    let stable_id = instance.add_stylesheet(".tag { color: rgb(255, 0, 0) }");
    let (updated_id, _) =
        instance.upsert_stylesheet(Some(stable_id), ".tag { color: rgb(0, 0, 255) }");
    assert_eq!(updated_id, stable_id);
    assert_eq!(
        instance.stylesheets.get(stable_id).map(|css| css.as_str()),
        Some(".tag { color: rgb(0, 0, 255) }")
    );

    let missing = StylesheetId(u64::MAX);
    let (new_id, replaced) =
        instance.upsert_stylesheet(Some(missing), ".tag { color: rgb(0, 128, 0) }");
    assert_ne!(new_id, missing);
    assert_eq!(replaced, None);
    assert_eq!(
        instance.stylesheets.get(new_id).map(|css| css.as_str()),
        Some(".tag { color: rgb(0, 128, 0) }")
    );
}

#[test]
fn initial_stylesheets_come_first() {
    let mut instance =
        Instance::new(config(vec!["a {}".into(), "b {}".into()]), "file:///work/", 1)
            .expect("valid base URL");
    assert_eq!(instance.stylesheets.get(StylesheetId(1)).map(|css| css.as_str()), Some("b {}"));
    assert_eq!(instance.add_stylesheet("c {}"), StylesheetId(2));
}

#[test]
fn register_font_bytes_returns_distinct_stylesheet_ids() {
    let mut instance = instance();
    let mut provider = SoliteNetProvider::new();
    let (a, _) = instance.register_font_bytes(
        &mut provider,
        0,
        "SoliteTestBullet",
        vec![1, 2],
        FontFormat::Opentype,
    );
    let (b, font) = instance.register_font_bytes(
        &mut provider,
        1,
        "SoliteTestBullet2",
        vec![1, 2],
        FontFormat::Opentype,
    );
    assert_ne!(a, b);
    assert_eq!(instance.stylesheets.get(b), Some(&font.css));
}

#[test]
fn register_font_from_path_reads_file() {
    let path = PathBuf::from("vendor/blitz/packages/blitz-dom/assets/moz-bullet-font.otf");
    let mut instance = instance();
    let mut provider = SoliteNetProvider::new();
    let (id, _) = instance
        .register_font_from_path(&mut provider, 0, "SoliteTestBullet", &path, Ok(vec![9, 9]))
        .expect("font loads");
    assert!(instance.remove_stylesheet(id).is_some());
}

#[test]
fn register_font_from_path_rejects_unknown_extension() {
    let path = PathBuf::from("Cargo.toml");
    let mut instance = instance();
    let mut provider = SoliteNetProvider::new();
    let err = instance
        .register_font_from_path(&mut provider, 0, "X", &path, Ok(vec![]))
        .expect_err("must reject .toml");
    assert!(matches!(err, RegisterFontError::UnknownFormat));
    assert_eq!(
        err.message(),
        "unknown font format: expected file extension `.ttf`, `.otf`, `.woff`, or `.woff2`"
    );
}

#[test]
fn unreadable_fonts_are_reported() {
    let mut instance = instance();
    let mut provider = SoliteNetProvider::new();
    let err = instance
        .register_font_from_path(
            &mut provider,
            0,
            "X",
            Path::new("x.ttf"),
            Err("permission denied".into()),
        )
        .expect_err("must report the error");
    assert_eq!(err.message(), "failed to read font file: permission denied");
}

#[test]
fn filewatch_classifies_css_and_js_changes() {
    let root = Path::new("/work/app");
    let css = summarize_changes(
        &vec![PathBuf::from("/work/app/style.css"), PathBuf::from("/elsewhere/app.tsx")],
        root,
    );
    assert!(css.css_reload, "css edits should be flagged for stylesheet reload");
    assert!(!css.bundle_rebuild, "css-only edits should not request bundle rebuild");
    assert_eq!(css.css_paths, vec![PathBuf::from("/work/app/style.css")]);

    let bundle = summarize_changes(&vec![PathBuf::from("/work/app/app.tsx")], root);
    assert!(bundle.bundle_rebuild, "jsx edits should be flagged for bundle rebuild");
    assert!(!bundle.css_reload, "jsx-only edits should not require css reload");

    let nothing = summarize_changes(&vec![PathBuf::from("/work/app/notes.txt")], root);
    assert!(!nothing.bundle_rebuild && !nothing.css_reload);
}

#[test]
fn components_are_watched_in_their_directory() {
    let file = Path::new("/work/ui/app.tsx");
    assert_eq!(watch_root(file, false), Some(Path::new("/work/ui")));
    assert_eq!(watch_root(Path::new("/work/ui"), true), Some(Path::new("/work/ui")));
    assert_eq!(watch_root(Path::new("/"), false), None);
}

#[test]
fn script_changes_win_over_css_changes() {
    let root = Path::new("/work");
    let both = vec![PathBuf::from("/work/a.css"), PathBuf::from("/work/b.TS")];
    assert!(matches!(reload_action(summarize_changes(&both, root)), ReloadAction::Remount));
    let css = vec![PathBuf::from("/work/a.css")];
    match reload_action(summarize_changes(&css, root)) {
        ReloadAction::CssChanged(paths) => assert_eq!(paths, css),
        other => panic!("expected a css reload, got {other:?}"),
    }
    assert!(matches!(reload_action(summarize_changes(&vec![], root)), ReloadAction::Nothing));
    let project = SourceProject::new(PathBuf::from("/work")).clone();
    assert_eq!(project.source_dir(), root);
}

#[test]
fn base_urls_are_checked() {
    assert_eq!(parse_base_url("HTTP://Example.com").expect("valid"), "http://example.com/");
    let error = parse_base_url("not a url").expect_err("relative");
    assert_eq!(
        error.message(),
        "invalid base URL `not a url`: relative URL without a base"
    );
    assert!(base_url_result("x", Err("no".into())).is_err());

    let mut instance = instance();
    assert_eq!(instance.base_url, "file:///work/");
    assert!(!instance.set_base_url("nope"));
    assert_eq!(instance.base_url, "file:///work/");
    assert!(instance.set_base_url("https://x.org/a"));
    assert_eq!(instance.base_url, "https://x.org/a");
}

#[test]
fn base_urls_follow_the_component() {
    assert_eq!(default_base_url(Path::new("/srv/ui")), "file:///srv/ui/");
    assert_eq!(default_base_url(Path::new("ui")), "file:///");
    assert_eq!(base_url_for_file(Path::new("/srv/ui/app.js"), "file:///f/"), "file:///srv/ui/");
    assert_eq!(base_url_for_file(Path::new("app.js"), "file:///f/"), "file:///f/");
}

fn file(path: &str, source: &str) -> VirtualSourceFile {
    VirtualSourceFile { path: path.into(), source: source.into() }
}

#[test]
fn virtual_projects_mount_their_entry() {
    let files = vec![file("util.js", "u"), file("app.js", "a"), file("index.mjs", "m")];
    assert_eq!(resolve_virtual_entrypoint(&files), ("app.js", false));
    let (instance, module) =
        Instance::new_from_virtual_files(config(vec![]), &files, false, "file:///d/", 8)
            .expect("mounts");
    assert_eq!(module.path, "app.js");
    assert_eq!(module.source, "a");
    assert_eq!(instance.container_id(), 8);
    assert_eq!(instance.base_url, "file:///d/");
}

#[test]
fn directories_mount_their_preferred_entry() {
    let names = |names: Vec<&str>| names.into_iter().map(String::from).collect::<Vec<_>>();
    assert_eq!(
        resolve_entrypoint(&names(vec!["app.js", "style.css", "app.tsx", "index.jsx"])),
        Some(("app.tsx", true))
    );
    assert_eq!(resolve_entrypoint(&names(vec!["app.mjs", "index.js"])), Some(("index.js", false)));
    assert_eq!(resolve_entrypoint(&names(vec!["main.tsx", "Index.tsx"])), None);
    assert_eq!(resolve_entrypoint(&vec![]), None);
}

#[test]
fn virtual_projects_without_entry_are_refused() {
    let error = Instance::new_from_virtual_files(
        config(vec![]),
        &vec![file("util.js", "u")],
        false,
        "file:///d/",
        8,
    )
    .expect_err("no entry");
    assert_eq!(error.message(), "missing virtual entrypoint source for `index.tsx`");
}

#[test]
fn jsx_needs_the_compiler() {
    let files = vec![file("index.tsx", "x")];
    let error = Instance::new_from_virtual_files(config(vec![]), &files, false, "file:///d/", 8)
        .expect_err("no compiler");
    assert_eq!(
        error.message(),
        "JSX/TSX/TS component loading requires the `jsx-compiler` feature: index.tsx"
    );
    assert!(pick_virtual_entry(&files, "index.tsx", true, true).is_ok());
    assert!(matches!(
        file_entry(Path::new("/a/b.ts"), "s".into(), false),
        Err(InstanceError::UnsupportedJsxModule { .. })
    ));
}

#[test]
fn files_mount_beside_their_assets() {
    let (instance, module) = Instance::new_from_file(
        config(vec![]),
        Path::new("/srv/ui/main.js"),
        "code".into(),
        false,
        "file:///d/",
        1,
    )
    .expect("mounts");
    assert_eq!(instance.base_url, "file:///srv/ui/");
    assert_eq!(module.path, "/srv/ui/main.js");
    assert_eq!(module.source, "code");
}

#[test]
fn invalid_base_urls_keep_an_instance_from_being_created() {
    let mut bad = config(vec![]);
    bad.base_url = Some("::".into());
    let error = Instance::new(bad, "file:///d/", 1).expect_err("invalid");
    assert!(matches!(error, InstanceError::BaseUrl { .. }));
    assert_eq!(
        InstanceError::Io("gone".into()).message(),
        "failed to read component source: gone"
    );
}

#[test]
fn scrollbars_stand_out_from_their_background() {
    let theme = ScrollbarTheme::derived(Tone::Middle, Tone::Middle, (10, 20, 30));
    assert_eq!(theme.track, (10, 20, 30, 40));
    assert_eq!(theme.thumb, (10, 20, 30, 180));
    let dark = ScrollbarTheme::derived(Tone::Dark, Tone::Light, (10, 20, 30));
    assert_eq!(dark.track, (188, 188, 188, 70));
    let light = ScrollbarTheme::derived(Tone::Middle, Tone::Light, (10, 20, 30));
    assert_eq!(light.thumb, (120, 120, 120, 210));
    assert_eq!(ScrollbarTheme::defaults().track, (0, 0, 0, 30));
}
