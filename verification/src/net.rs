//! Resource provider: bytes registered under URLs, and the outcome of every
//! fetch.
//!
//! Registered URLs are answered first. `data:` URLs are decoded inline,
//! `file:` and `http(s):` URLs are fetched by the host, and other schemes
//! fail. Every completed fetch is recorded, so that `load` and `error` events
//! can be dispatched for images.
use crate::table::Table;
use crate::text::same;
use crate::urls::parse_url;
use std::path::PathBuf;
use vstd::prelude::*;
use vstd::string::StringExecFns;

verus! {

/// Outcome of a single fetch.
#[derive(Debug, Clone, PartialEq, Eq)]
pub struct FetchEvent {
    pub resolved_url: String,
    pub ok: bool,
    pub error: Option<String>,
}

/// What a [`FetchEvent`] holds.
pub struct FetchRecord {
    pub url: Seq<char>,
    pub ok: bool,
    pub error: Option<Seq<char>>,
}

impl View for FetchEvent {
    type V = FetchRecord;

    open spec fn view(&self) -> FetchRecord {
        FetchRecord {
            url: self.resolved_url@,
            ok: self.ok,
            error: match self.error {
                Some(error) => Some(error@),
                None => None,
            },
        }
    }
}

/// What fetch events hold.
pub open spec fn records(events: Seq<FetchEvent>) -> Seq<FetchRecord> {
    events.map_values(|event: FetchEvent| event@)
}

/// Registered resources and the outcomes of fetches not yet drained.
#[derive(Debug)]
pub struct SoliteNetProvider {
    registered: Table<Vec<u8>>,
    outbox: Vec<FetchEvent>,
}

/// What a [`SoliteNetProvider`] holds.
#[verifier::ext_equal]
pub struct NetModel {
    pub registered: Map<Seq<char>, Vec<u8>>,
    pub outbox: Seq<FetchRecord>,
}

impl View for SoliteNetProvider {
    type V = NetModel;

    closed spec fn view(&self) -> NetModel {
        NetModel { registered: self.registered@, outbox: records(self.outbox@) }
    }
}

/// Why a `data:` URL has no bytes.
#[derive(Debug, Clone, Copy, PartialEq, Eq, Structural)]
pub enum DataUrlFault {
    /// The text is no `data:` URL.
    Url,
    /// The payload cannot be decoded.
    Payload,
}

/// How a fetch goes on.
#[derive(Debug)]
pub enum FetchStep {
    /// The fetch is complete: these bytes go to the requester.
    Deliver(Vec<u8>),
    /// The host has to read this file.
    ReadFile(PathBuf),
    /// The host has to request the URL over HTTP.
    Http,
}

/// What a [`FetchStep`] holds.
pub enum StepModel {
    Deliver(Seq<u8>),
    ReadFile(PathBuf),
    Http,
}

/// A fetch that was started.
#[derive(Debug)]
pub struct Fetch {
    /// The URL as the requester and the records know it.
    pub url: String,
    pub step: FetchStep,
}

impl View for FetchStep {
    type V = StepModel;

    open spec fn view(&self) -> StepModel {
        match *self {
            FetchStep::Deliver(bytes) => StepModel::Deliver(bytes@),
            FetchStep::ReadFile(path) => StepModel::ReadFile(path),
            FetchStep::Http => StepModel::Http,
        }
    }
}

/// The file that a URL names, if it names one.
pub uninterp spec fn file_url_path(url: Seq<char>) -> Option<PathBuf>;

/// Calls `Url::to_file_path` on the URL that `Url::parse` makes of the text.
/// The result depends on the text alone and is named `file_url_path`; a text
/// that is no URL names no file.
#[verifier::external_body]
fn file_path_of(url: &str) -> (path: Option<PathBuf>)
    ensures
        path == file_url_path(url@),
{
    match url::Url::parse(url) {
        Ok(url) => url.to_file_path().ok(),
        Err(_) => None,
    }
}

/// The bytes that a `data:` URL holds, or why it holds none.
pub uninterp spec fn data_url_bytes(url: Seq<char>) -> Result<Seq<u8>, DataUrlFault>;

/// Calls `DataUrl::process` and `DataUrl::decode_to_vec`. The result depends
/// on the text alone and is named `data_url_bytes`.
#[verifier::external_body]
fn decode_data_url(url: &str) -> (bytes: Result<Vec<u8>, DataUrlFault>)
    ensures
        match bytes {
            Ok(bytes) => data_url_bytes(url@) == Ok::<Seq<u8>, DataUrlFault>(bytes@),
            Err(fault) => data_url_bytes(url@) == Err::<Seq<u8>, DataUrlFault>(fault),
        },
{
    match data_url::DataUrl::process(url) {
        Ok(processed) => match processed.decode_to_vec() {
            Ok((bytes, _)) => Ok(bytes),
            Err(_) => Err(DataUrlFault::Payload),
        },
        Err(_) => Err(DataUrlFault::Url),
    }
}

/// The state with a successful fetch of `url` recorded.
pub open spec fn succeeded(m: NetModel, url: Seq<char>) -> NetModel {
    NetModel { outbox: m.outbox.push(FetchRecord { url, ok: true, error: None }), ..m }
}

/// The state with a failed fetch of `url` recorded.
pub open spec fn failed(m: NetModel, url: Seq<char>, error: Seq<char>) -> NetModel {
    NetModel { outbox: m.outbox.push(FetchRecord { url, ok: false, error: Some(error) }), ..m }
}

/// The error text for a `data:` URL without bytes.
pub open spec fn data_url_error(fault: DataUrlFault) -> Seq<char> {
    match fault {
        DataUrlFault::Url => "invalid data URL"@,
        DataUrlFault::Payload => "invalid data URL payload"@,
    }
}

/// State and next step of a fetch of `url`, given its scheme, what it decodes
/// to as a `data:` URL, and the file that it names.
pub open spec fn fetch_effect(
    m: NetModel,
    url: Seq<char>,
    scheme: Option<Seq<char>>,
    decoded: Result<Seq<u8>, DataUrlFault>,
    path: Option<PathBuf>,
) -> (NetModel, StepModel) {
    if m.registered.dom().contains(url) {
        (succeeded(m, url), StepModel::Deliver(m.registered[url]@))
    } else {
        match scheme {
            Some(scheme) => if scheme == "file"@ {
                match path {
                    Some(path) => (m, StepModel::ReadFile(path)),
                    None => (
                        failed(m, url, "invalid file URL"@),
                        StepModel::Deliver(Seq::empty()),
                    ),
                }
            } else if scheme == "data"@ {
                match decoded {
                    Ok(bytes) => (succeeded(m, url), StepModel::Deliver(bytes)),
                    Err(fault) => (
                        failed(m, url, data_url_error(fault)),
                        StepModel::Deliver(Seq::empty()),
                    ),
                }
            } else if scheme == "http"@ || scheme == "https"@ {
                (m, StepModel::Http)
            } else {
                (
                    failed(m, url, "unsupported URL scheme: "@ + scheme),
                    StepModel::Deliver(Seq::empty()),
                )
            },
            None => (failed(m, url, "invalid URL"@), StepModel::Deliver(Seq::empty())),
        }
    }
}

fn copy_bytes(bytes: &Vec<u8>) -> (copy: Vec<u8>)
    ensures
        copy@ == bytes@,
{
    let mut copy: Vec<u8> = Vec::new();
    let mut i: usize = 0;
    while i < bytes.len()
        invariant
            i <= bytes@.len(),
            copy@ == bytes@.take(i as int),
        decreases bytes@.len() - i,
    {
        copy.push(bytes[i]);
        proof {
            assert(bytes@.take(i as int).push(bytes@[i as int]) =~= bytes@.take(i + 1));
        }
        i += 1;
    }
    proof {
        assert(bytes@.take(i as int) =~= bytes@);
    }
    copy
}

impl SoliteNetProvider {
    /// A provider without resources and without outcomes.
    pub fn new() -> (provider: Self)
        ensures
            provider@ == (NetModel { registered: Map::empty(), outbox: Seq::empty() }),
    {
        let provider = SoliteNetProvider { registered: Table::new(), outbox: Vec::new() };
        proof {
            assert(provider@.outbox =~= Seq::empty());
        }
        provider
    }

    /// Registers the bytes that the provider returns for `url`.
    pub fn register(&mut self, url: String, bytes: Vec<u8>)
        ensures
            final(self)@ == (NetModel {
                registered: old(self)@.registered.insert(url@, bytes),
                ..old(self)@
            }),
    {
        self.registered.insert(url, bytes);
    }

    /// The bytes registered for `url`.
    pub fn lookup_registered(&self, url: &str) -> (bytes: Option<Vec<u8>>)
        ensures
            match bytes {
                Some(bytes) => self@.registered.dom().contains(url@) && bytes@
                    == self@.registered[url@]@,
                None => !self@.registered.dom().contains(url@),
            },
    {
        match self.registered.get(url) {
            Some(bytes) => Some(copy_bytes(bytes)),
            None => None,
        }
    }

    /// Hands out the recorded outcomes in order and clears them.
    pub fn drain_events(&mut self) -> (events: Vec<FetchEvent>)
        ensures
            records(events@) == old(self)@.outbox,
            final(self)@ == (NetModel { outbox: Seq::empty(), ..old(self)@ }),
    {
        let mut events: Vec<FetchEvent> = Vec::new();
        std::mem::swap(&mut events, &mut self.outbox);
        proof {
            assert(self@.outbox =~= Seq::empty());
        }
        events
    }

    fn record_success(&mut self, url: &str)
        ensures
            final(self)@ == succeeded(old(self)@, url@),
    {
        let ghost before = self.outbox@;
        self.outbox.push(FetchEvent { resolved_url: url.to_owned(), ok: true, error: None });
        proof {
            assert(records(self.outbox@) =~= records(before).push(
                FetchRecord { url: url@, ok: true, error: None },
            ));
        }
    }

    fn record_failure(&mut self, url: &str, error: String)
        ensures
            final(self)@ == failed(old(self)@, url@, error@),
    {
        let ghost before = self.outbox@;
        self.outbox.push(FetchEvent { resolved_url: url.to_owned(), ok: false, error: Some(error) });
        proof {
            assert(records(self.outbox@) =~= records(before).push(
                FetchRecord { url: url@, ok: false, error: Some(error@) },
            ));
        }
    }

    /// Decides a fetch of `url` from its scheme, what it decodes to as a
    /// `data:` URL, and the file that it names: answers it, or says what the
    /// host has to read.
    pub fn route_fetch(
        &mut self,
        url: &str,
        scheme: Option<&str>,
        decoded: Result<Vec<u8>, DataUrlFault>,
        path: Option<PathBuf>,
    ) -> (step: FetchStep)
        ensures
            (final(self)@, step@) == fetch_effect(
                old(self)@,
                url@,
                match scheme {
                    Some(scheme) => Some(scheme@),
                    None => None,
                },
                match decoded {
                    Ok(bytes) => Ok(bytes@),
                    Err(fault) => Err(fault),
                },
                path,
            ),
    {
        if let Some(bytes) = self.lookup_registered(url) {
            self.record_success(url);
            return FetchStep::Deliver(bytes);
        }
        let scheme = match scheme {
            Some(scheme) => scheme,
            None => {
                self.record_failure(url, "invalid URL".to_owned());
                return FetchStep::Deliver(Vec::new());
            },
        };
        if same(scheme, "file") {
            match path {
                Some(path) => FetchStep::ReadFile(path),
                None => {
                    self.record_failure(url, "invalid file URL".to_owned());
                    FetchStep::Deliver(Vec::new())
                },
            }
        } else if same(scheme, "data") {
            match decoded {
                Ok(bytes) => {
                    self.record_success(url);
                    FetchStep::Deliver(bytes)
                },
                Err(DataUrlFault::Url) => {
                    self.record_failure(url, "invalid data URL".to_owned());
                    FetchStep::Deliver(Vec::new())
                },
                Err(DataUrlFault::Payload) => {
                    self.record_failure(url, "invalid data URL payload".to_owned());
                    FetchStep::Deliver(Vec::new())
                },
            }
        } else if same(scheme, "http") || same(scheme, "https") {
            FetchStep::Http
        } else {
            let mut error = "unsupported URL scheme: ".to_owned();
            error.append(scheme);
            self.record_failure(url, error);
            FetchStep::Deliver(Vec::new())
        }
    }

    /// Starts a fetch of `url`: answers it from the registered resources, from
    /// the URL itself, or with a failure, or says what the host has to read.
    pub fn fetch(&mut self, url: &str) -> (fetch: Fetch)
        ensures
            match crate::urls::parsed_url(url@) {
                Ok((text, scheme)) => {
                    &&& fetch.url@ == text
                    &&& (final(self)@, fetch.step@) == fetch_effect(
                        old(self)@,
                        text,
                        Some(scheme),
                        data_url_bytes(text),
                        file_url_path(text),
                    )
                },
                Err(_) => {
                    &&& fetch.url@ == url@
                    &&& (final(self)@, fetch.step@) == fetch_effect(
                        old(self)@,
                        url@,
                        None,
                        data_url_bytes(url@),
                        file_url_path(url@),
                    )
                },
            },
    {
        match parse_url(url) {
            Ok(parsed) => {
                let decoded = if same(parsed.scheme.as_str(), "data") {
                    decode_data_url(parsed.text.as_str())
                } else {
                    Err(DataUrlFault::Url)
                };
                let path = if same(parsed.scheme.as_str(), "file") {
                    file_path_of(parsed.text.as_str())
                } else {
                    None
                };
                let step = self.route_fetch(
                    parsed.text.as_str(),
                    Some(parsed.scheme.as_str()),
                    decoded,
                    path,
                );
                Fetch { url: parsed.text, step }
            },
            Err(_) => {
                let step = self.route_fetch(url, None, Err(DataUrlFault::Url), None);
                Fetch { url: url.to_owned(), step }
            },
        }
    }

    /// Completes a fetch of a file that the host tried to read.
    pub fn finish_file(&mut self, url: &str, read: Option<Vec<u8>>) -> (bytes: Vec<u8>)
        ensures
            match read {
                Some(read) => bytes@ == read@ && final(self)@ == succeeded(old(self)@, url@),
                None => bytes@.len() == 0 && final(self)@ == failed(
                    old(self)@,
                    url@,
                    "failed to read file URL"@,
                ),
            },
    {
        match read {
            Some(read) => self.finish_fetch(url, Ok(read)),
            None => self.finish_fetch(url, Err("failed to read file URL".to_owned())),
        }
    }

    /// Completes a fetch that the host performed: records its outcome and
    /// returns the bytes for the requester, none for a failure.
    pub fn finish_fetch(&mut self, url: &str, outcome: Result<Vec<u8>, String>) -> (bytes: Vec<u8>)
        ensures
            match outcome {
                Ok(read) => bytes@ == read@ && final(self)@ == succeeded(old(self)@, url@),
                Err(error) => bytes@.len() == 0 && final(self)@ == failed(
                    old(self)@,
                    url@,
                    error@,
                ),
            },
    {
        match outcome {
            Ok(read) => {
                self.record_success(url);
                read
            },
            Err(error) => {
                self.record_failure(url, error);
                Vec::new()
            },
        }
    }
}

/// A registered URL is answered with its bytes, whatever its scheme, and the
/// success is recorded.
pub proof fn registered_bytes_are_served(
    m: NetModel,
    url: Seq<char>,
    bytes: Vec<u8>,
    scheme: Option<Seq<char>>,
    decoded: Result<Seq<u8>, DataUrlFault>,
    path: Option<PathBuf>,
)
    ensures
        ({
            let registered = NetModel { registered: m.registered.insert(url, bytes), ..m };
            let (after, step) = fetch_effect(registered, url, scheme, decoded, path);
            &&& step == StepModel::Deliver(bytes@)
            &&& after == succeeded(registered, url)
        }),
{
}

/// A fetch that is answered at once leaves exactly one record, of its own
/// URL; one that is handed to the host leaves none yet. Failures deliver no
/// bytes.
pub proof fn fetch_records_once(
    m: NetModel,
    url: Seq<char>,
    scheme: Option<Seq<char>>,
    decoded: Result<Seq<u8>, DataUrlFault>,
    path: Option<PathBuf>,
)
    ensures
        ({
            let (after, step) = fetch_effect(m, url, scheme, decoded, path);
            &&& after.registered == m.registered
            &&& match step {
                StepModel::Deliver(bytes) => {
                    &&& after.outbox.len() == m.outbox.len() + 1
                    &&& after.outbox.last().url == url
                    &&& after.outbox.drop_last() == m.outbox
                    &&& !after.outbox.last().ok ==> bytes.len() == 0
                    &&& after.outbox.last().ok == (after.outbox.last().error is None)
                },
                _ => after == m,
            }
        }),
{
    let (after, step) = fetch_effect(m, url, scheme, decoded, path);
    if step is Deliver {
        assert(after.outbox.drop_last() =~= m.outbox);
    }
}

/// Whether the only change is one more record, at the end, of a fetch of `url` that
/// failed with `error`.
pub open spec fn one_failure(before: NetModel, after: NetModel, url: Seq<char>, error: Seq<char>) -> bool {
    &&& after.registered == before.registered
    &&& after.outbox == before.outbox + seq![FetchRecord { url, ok: false, error: Some(error) }]
}

/// Whether the only change is one more record, at the end, of a fetch of `url` that
/// succeeded.
pub open spec fn one_success(before: NetModel, after: NetModel, url: Seq<char>) -> bool {
    &&& after.registered == before.registered
    &&& after.outbox == before.outbox + seq![FetchRecord { url, ok: true, error: None }]
}

/// Outcomes are recorded behind the earlier ones: a success without an error text, a
/// failure with it.
pub proof fn outcomes_are_appended(m: NetModel, url: Seq<char>, error: Seq<char>)
    ensures
        one_success(m, succeeded(m, url), url),
        one_failure(m, failed(m, url, error), url, error),
{
    assert(succeeded(m, url).outbox =~= m.outbox + seq![
        FetchRecord { url, ok: true, error: None },
    ]);
    assert(failed(m, url, error).outbox =~= m.outbox + seq![
        FetchRecord { url, ok: false, error: Some(error) },
    ]);
}

/// A registered URL delivers its own bytes and counts as a success, whatever else it
/// could stand for.
pub proof fn registered_urls_come_first(
    m: NetModel,
    url: Seq<char>,
    scheme: Option<Seq<char>>,
    decoded: Result<Seq<u8>, DataUrlFault>,
    path: Option<PathBuf>,
)
    requires
        m.registered.dom().contains(url),
    ensures
        ({
            let (after, step) = fetch_effect(m, url, scheme, decoded, path);
            step == StepModel::Deliver(m.registered[url]@) && one_success(m, after, url)
        }),
{
    outcomes_are_appended(m, url, Seq::empty());
}

/// A `file:` URL that is not registered is read by the host from the file that it
/// names. One that names none fails at once, with nothing delivered.
pub proof fn file_urls_are_read(
    m: NetModel,
    url: Seq<char>,
    decoded: Result<Seq<u8>, DataUrlFault>,
    path: Option<PathBuf>,
)
    requires
        !m.registered.dom().contains(url),
    ensures
        ({
            let (after, step) = fetch_effect(m, url, Some("file"@), decoded, path);
            &&& path matches Some(file) ==> step == StepModel::ReadFile(file) && after == m
            &&& path is None ==> step == StepModel::Deliver(Seq::empty()) && one_failure(
                m,
                after,
                url,
                "invalid file URL"@,
            )
        }),
{
    outcomes_are_appended(m, url, "invalid file URL"@);
}

/// A `data:` URL that is not registered delivers the bytes that it holds. One without
/// bytes fails, with the text that says what is wrong with it.
pub proof fn data_urls_are_decoded(
    m: NetModel,
    url: Seq<char>,
    decoded: Result<Seq<u8>, DataUrlFault>,
    path: Option<PathBuf>,
)
    requires
        !m.registered.dom().contains(url),
    ensures
        ({
            let (after, step) = fetch_effect(m, url, Some("data"@), decoded, path);
            &&& decoded matches Ok(bytes) ==> step == StepModel::Deliver(bytes) && one_success(
                m,
                after,
                url,
            )
            &&& decoded matches Err(fault) ==> step == StepModel::Deliver(Seq::empty())
                && one_failure(
                m,
                after,
                url,
                if fault is Url {
                    "invalid data URL"@
                } else {
                    "invalid data URL payload"@
                },
            )
        }),
{
    reveal_strlit("data");
    reveal_strlit("file");
    assert("data"@[0] == 'd' && "file"@[0] == 'f');
    outcomes_are_appended(m, url, "invalid data URL"@);
    outcomes_are_appended(m, url, "invalid data URL payload"@);
}

/// An `http:` or `https:` URL that is not registered is left to the host, and nothing
/// is recorded yet.
pub proof fn web_urls_are_requested(
    m: NetModel,
    url: Seq<char>,
    decoded: Result<Seq<u8>, DataUrlFault>,
    path: Option<PathBuf>,
)
    requires
        !m.registered.dom().contains(url),
    ensures
        fetch_effect(m, url, Some("http"@), decoded, path) == (m, StepModel::Http),
        fetch_effect(m, url, Some("https"@), decoded, path) == (m, StepModel::Http),
{
    reveal_strlit("data");
    reveal_strlit("file");
    reveal_strlit("http");
    reveal_strlit("https");
    assert("data"@[0] == 'd' && "file"@[0] == 'f' && "http"@[0] == 'h' && "https"@[0] == 'h');
}

/// A URL of any other scheme, and a text that is no URL, fails at once with nothing
/// delivered.
pub proof fn other_urls_fail(
    m: NetModel,
    url: Seq<char>,
    scheme: Seq<char>,
    decoded: Result<Seq<u8>, DataUrlFault>,
    path: Option<PathBuf>,
)
    requires
        !m.registered.dom().contains(url),
        scheme != "file"@ && scheme != "data"@ && scheme != "http"@ && scheme != "https"@,
    ensures
        ({
            let (after, step) = fetch_effect(m, url, Some(scheme), decoded, path);
            step == StepModel::Deliver(Seq::empty()) && one_failure(
                m,
                after,
                url,
                "unsupported URL scheme: "@ + scheme,
            )
        }),
        ({
            let (after, step) = fetch_effect(m, url, None, decoded, path);
            step == StepModel::Deliver(Seq::empty()) && one_failure(m, after, url, "invalid URL"@)
        }),
{
    outcomes_are_appended(m, url, "unsupported URL scheme: "@ + scheme);
    outcomes_are_appended(m, url, "invalid URL"@);
}

} // verus!
