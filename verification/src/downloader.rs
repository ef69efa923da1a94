//! The settings of a downloader, and what follows from them.
use crate::address::{
    copy_path, extend_path, extended_path, is_extension, join_path, joined_path,
};
use crate::fetch::{Fetch, FetchAction, FetchStage, FetchState, FetchStep};
use crate::http::{
    copy_headers, count_names, extend_headers, has_room, header_fields, insert_header, name_text,
    no_fields, no_headers, status_code, status_number, value_bytes, MAX_HEADER_NAMES,
};
use crate::request::{
    custom_fits, own_names, range_fields, range_headers, whole_fields, whole_headers,
};
use crate::resource::{Resource, Summary};
use crate::style::{hidden_settings, main_settings, pip_settings, ProgressBarOpts, StyleOptions};
use crate::text::ascii_bytes;
use reqwest::header::{HeaderMap, HeaderName, HeaderValue};
use std::path::PathBuf;
use uuid::Uuid;
use vstd::prelude::*;

verus! {

/// Marks a trace of time.
pub struct TimeTrace;

/// Downloads resources into a directory.
#[derive(Debug)]
pub struct Downloader {
    directory: PathBuf,
    retries: u32,
    concurrent_downloads: usize,
    concurrent_chunk: usize,
    chunk_size: u64,
    style_options: StyleOptions,
    headers: Option<HeaderMap>,
}

/// The settings of a downloader.
#[verifier::ext_equal]
pub struct Settings {
    pub directory: PathBuf,
    pub retries: u32,
    pub concurrent_downloads: usize,
    pub concurrent_chunk: usize,
    pub chunk_size: u64,
    pub style_options: StyleOptions,
    pub headers: Option<Map<Seq<char>, Seq<Seq<u8>>>>,
}

impl Settings {
    /// The headers that the caller wants in each request.
    pub open spec fn custom(self) -> Map<Seq<char>, Seq<Seq<u8>>> {
        match self.headers {
            Some(fields) => fields,
            None => no_fields(),
        }
    }

    /// The file that a resource is saved in.
    pub open spec fn file_of(self, resource: Resource) -> PathBuf {
        joined_path(self.directory, resource.filename@)
    }

    /// The file that a resource is written to until all of it is there.
    pub open spec fn part_of(self, resource: Resource) -> PathBuf {
        extended_path(joined_path(self.directory, resource.filename@), "part"@)
    }

    /// A plan for the client of these settings.
    pub open spec fn is_plan(self, plan: ClientPlan, insecure: Option<bool>) -> bool {
        &&& plan.retries == self.retries
        &&& header_fields(plan.default_headers) == whole_fields(self.custom())
        &&& plan.insecure == insecure
        &&& exists|id: Seq<char>|
            #[trigger] is_random_id(id) && plan.user_agent@ == "cargo-fetcher/"@ + id
    }

    /// The state in which the fetching of a resource begins.
    pub open spec fn begins(self, state: FetchState, resource: Resource) -> bool {
        &&& state.is_new()
        &&& state.resource == resource
        &&& state.custom == self.custom()
        &&& state.chunk == self.chunk_size
        &&& state.allowed == self.concurrent_chunk
        &&& state.clear == self.style_options.child_bar()@.clear
    }

    /// The settings with a header that stands for all that was set under its name.
    pub open spec fn with_header(self, name: Seq<char>, value: Seq<u8>) -> Settings {
        Settings { headers: Some(self.custom().insert(name, seq![value])), ..self }
    }

    /// The settings with more headers, each for all that was set under its name.
    pub open spec fn with_headers(self, more: Map<Seq<char>, Seq<Seq<u8>>>) -> Settings {
        Settings { headers: Some(self.custom().union_prefer_right(more)), ..self }
    }
}

/// Headers under different names can be set in either order; of two under the same name
/// the later stands; and no other setting changes.
pub proof fn law_headers_are_set_by_name(
    settings: Settings,
    name: Seq<char>,
    value: Seq<u8>,
    other: Seq<char>,
    later: Seq<u8>,
)
    ensures
        name != other ==> settings.with_header(name, value).with_header(other, later)
            == settings.with_header(other, later).with_header(name, value),
        settings.with_header(name, value).with_header(name, later) == settings.with_header(
            name,
            later,
        ),
        settings.with_header(name, value) == (Settings {
            headers: settings.with_header(name, value).headers,
            ..settings
        }),
{
    let one = settings.custom().insert(name, seq![value]);
    assert(one.insert(name, seq![later]) =~= settings.custom().insert(name, seq![later]));
    if name != other {
        assert(one.insert(other, seq![later]) =~= settings.custom().insert(
            other,
            seq![later],
        ).insert(name, seq![value]));
    }
}

impl View for Downloader {
    type V = Settings;

    closed spec fn view(&self) -> Settings {
        Settings {
            directory: self.directory,
            retries: self.retries,
            concurrent_downloads: self.concurrent_downloads,
            concurrent_chunk: self.concurrent_chunk,
            chunk_size: self.chunk_size,
            style_options: self.style_options,
            headers: match self.headers {
                Some(map) => Some(header_fields(map)),
                None => None,
            },
        }
    }
}

/// A random identifier in its usual form: 32 hexadecimal digits in groups of 8, 4, 4, 4
/// and 12, of which one tells the version and one the variant.
pub open spec fn is_random_id(text: Seq<char>) -> bool {
    text.len() == 36 && (forall|i: int|
        0 <= i < 36 ==> if i == 8 || i == 13 || i == 18 || i == 23 {
            #[trigger] text[i] == '-'
        } else {
            '0' <= text[i] <= '9' || 'a' <= text[i] <= 'f'
        }) && text[14] == '4' && (text[19] == '8' || text[19] == '9' || text[19] == 'a' || text[19]
        == 'b')
}

/// `Uuid::new_v4`, written out: which identifier comes is left to chance; its form is
/// always the same.
#[verifier::external_body]
fn random_id() -> (r: String)
    ensures
        is_random_id(r@),
{
    Uuid::new_v4().to_string()
}

/// The name that a client gives itself, with that identifier.
pub fn user_agent(id: &str) -> (r: String)
    ensures
        r@ == "cargo-fetcher/"@ + id@,
{
    let mut text = "cargo-fetcher/".to_owned();
    text.append(id);
    text
}

/// What a client is built with.
pub struct ClientPlan {
    pub retries: u32,
    pub default_headers: HeaderMap,
    pub insecure: Option<bool>,
    pub user_agent: String,
}

/// The summary of a download that failed before the server said anything of use.
pub open spec fn is_early_failure(
    summary: Summary,
    resource: Resource,
    message: Seq<char>,
) -> bool {
    summary.resource() == resource && status_number(summary.code()) == 400 && summary.bytes() == 0
        && summary.failed_with(message)
}

/// The summaries of downloads for which no client could be built.
pub fn client_failures(downloads: &[Resource], error: &str) -> (r: Vec<Summary>)
    ensures
        r@.len() == downloads@.len(),
        forall|i: int|
            0 <= i < r@.len() ==> is_early_failure(
                #[trigger] r@[i],
                downloads@[i],
                "failed to build reqwest client: "@ + error@,
            ),
{
    let mut message = "failed to build reqwest client: ".to_owned();
    message.append(error);
    let mut summaries: Vec<Summary> = Vec::new();
    let mut i: usize = 0;
    while i < downloads.len()
        invariant
            i <= downloads@.len(),
            summaries@.len() == i,
            message@ == "failed to build reqwest client: "@ + error@,
            forall|j: int|
                0 <= j < i ==> is_early_failure(#[trigger] summaries@[j], downloads@[j], message@),
        decreases downloads.len() - i,
    {
        let summary = Summary::new(downloads[i].clone(), status_code(400), 0);
        summaries.push(summary.fail(message.as_str()));
        i = i + 1;
    }
    summaries
}

impl Clone for Downloader {
    fn clone(&self) -> (r: Self)
        ensures
            r@ == self@,
    {
        proof {
            use_type_invariant(self);
        }
        Downloader {
            directory: copy_path(&self.directory),
            retries: self.retries,
            concurrent_downloads: self.concurrent_downloads,
            concurrent_chunk: self.concurrent_chunk,
            chunk_size: self.chunk_size,
            style_options: self.style_options.clone(),
            headers: match &self.headers {
                Some(map) => Some(copy_headers(map)),
                None => None,
            },
        }
    }
}

impl Downloader {
    #[verifier::type_invariant]
    pub closed spec fn well_formed(self) -> bool {
        custom_fits(self.headers)
    }

    pub const DEFAULT_RETRIES: u32 = 3;

    pub const DEFAULT_CONCURRENT_DOWNLOADS: usize = 32;

    pub const DEFAULT_CONCURRENT_CHUNK: usize = 8;

    pub const DEFAULT_CHUNK_SIZE: u64 = 10 * 1024 * 1024;

    pub const CHUNK_TIMEOUT_SECS: u64 = 30;

    /// How many downloads run at a time.
    pub fn concurrent_downloads(&self) -> (r: usize)
        ensures
            r == self@.concurrent_downloads,
    {
        self.concurrent_downloads
    }

    /// How the progress bars look.
    pub fn style_options(&self) -> (r: &StyleOptions)
        ensures
            *r == self@.style_options,
    {
        &self.style_options
    }

    /// The file that a resource is saved in.
    pub fn output_path(&self, download: &Resource) -> (r: PathBuf)
        ensures
            r == self@.file_of(*download),
    {
        join_path(&self.directory, download.filename.as_str())
    }

    /// The file that a resource is written to until all of it is there.
    pub fn part_path(&self, download: &Resource) -> (r: PathBuf)
        ensures
            r == self@.part_of(*download),
    {
        proof {
            reveal_strlit("part");
            assert(is_extension("part"@));
        }
        extend_path(&self.output_path(download), "part")
    }

    /// What the client for these downloads is built with.
    pub fn client_plan(&self, insecure: Option<bool>) -> (r: ClientPlan)
        ensures
            self@.is_plan(r, insecure),
    {
        proof {
            use_type_invariant(self);
        }
        let id = random_id();
        assert(is_random_id(id@));
        ClientPlan {
            retries: self.retries,
            default_headers: whole_headers(&self.headers),
            insecure,
            user_agent: user_agent(id.as_str()),
        }
    }

    /// The headers of the HEAD request of a probe.
    pub fn head_headers(&self) -> (r: HeaderMap)
        ensures
            header_fields(r) == whole_fields(self@.custom()),
    {
        proof {
            use_type_invariant(self);
        }
        whole_headers(&self.headers)
    }

    /// The headers of the request for the first byte of a probe.
    pub fn probe_headers(&self) -> (r: HeaderMap)
        ensures
            header_fields(r) == range_fields(self@.custom(), 0, 0, None),
    {
        proof {
            use_type_invariant(self);
        }
        range_headers(&self.headers, 0, 0, None)
    }

    /// The fetching of a resource, and what is wanted first.
    pub fn fetch(&self, download: &Resource) -> (r: (Fetch, FetchAction))
        ensures
            self@.begins(r.0@, *download),
            r.1@ == FetchStep::CreateDirectory,
    {
        proof {
            use_type_invariant(self);
        }
        let fetch = Fetch::new(
            download,
            &self.headers,
            self.chunk_size,
            self.concurrent_chunk,
            self.style_options.child().clears(),
        );
        (fetch, FetchAction::CreateDirectory)
    }
}

/// Builds a downloader.
pub struct DownloaderBuilder(Downloader);

impl View for DownloaderBuilder {
    type V = Settings;

    closed spec fn view(&self) -> Settings {
        self.0@
    }
}

/// Nothing but the directory, and how the bars look, is given for a downloader.
pub open spec fn is_default(settings: Settings, directory: PathBuf) -> bool {
    settings.directory == directory && settings.retries == 3 && settings.concurrent_downloads == 32
        && settings.concurrent_chunk == 8 && settings.chunk_size == 10485760
        && settings.headers is None
}

/// What a caller of the program may set; `None` leaves the setting as it is.
pub struct Options {
    pub retries: Option<u32>,
    pub concurrent_downloads: Option<usize>,
    pub concurrent_chunk: Option<usize>,
    pub chunk_size: Option<u64>,
    pub directory: Option<PathBuf>,
}

/// A setting that may be given anew.
pub open spec fn or_else<T>(given: Option<T>, before: T) -> T {
    match given {
        Some(value) => value,
        None => before,
    }
}

impl Settings {
    /// The settings with what a caller of the program has given.
    pub open spec fn configured(self, options: Options) -> Settings {
        Settings {
            retries: or_else(options.retries, self.retries),
            concurrent_downloads: or_else(options.concurrent_downloads, self.concurrent_downloads),
            concurrent_chunk: or_else(options.concurrent_chunk, self.concurrent_chunk),
            chunk_size: or_else(options.chunk_size, self.chunk_size),
            directory: or_else(options.directory, self.directory),
            ..self
        }
    }
}

impl DownloaderBuilder {
    /// A downloader into a directory.
    pub fn new(directory: PathBuf) -> (r: Self)
        ensures
            is_default(r@, directory),
            r@.style_options.main_bar()@ == main_settings(),
            r@.style_options.child_bar()@ == pip_settings(),
    {
        DownloaderBuilder(
            Downloader {
                directory,
                retries: Downloader::DEFAULT_RETRIES,
                concurrent_downloads: Downloader::DEFAULT_CONCURRENT_DOWNLOADS,
                concurrent_chunk: Downloader::DEFAULT_CONCURRENT_CHUNK,
                chunk_size: Downloader::DEFAULT_CHUNK_SIZE,
                style_options: StyleOptions::default(),
                headers: None,
            },
        )
    }

    /// A downloader into a directory that shows no bars.
    pub fn hidden(directory: PathBuf) -> (r: Self)
        ensures
            is_default(r@, directory),
            r@.style_options.main_bar()@ == hidden_settings(),
            r@.style_options.child_bar()@ == hidden_settings(),
    {
        let builder = DownloaderBuilder::new(directory);
        builder.style_options(StyleOptions::new(ProgressBarOpts::hidden(), ProgressBarOpts::hidden()))
    }

    /// Sets the directory that resources are saved in.
    pub fn directory(self, directory: PathBuf) -> (r: Self)
        ensures
            r@ == (Settings { directory, ..self@ }),
    {
        proof {
            use_type_invariant(&self.0);
        }
        DownloaderBuilder(Downloader { directory, ..self.0 })
    }

    /// Sets how often a request is tried again.
    pub fn retries(self, retries: u32) -> (r: Self)
        ensures
            r@ == (Settings { retries, ..self@ }),
    {
        proof {
            use_type_invariant(&self.0);
        }
        DownloaderBuilder(Downloader { retries, ..self.0 })
    }

    /// Sets how many downloads run at a time.
    pub fn concurrent_downloads(self, concurrent_downloads: usize) -> (r: Self)
        ensures
            r@ == (Settings { concurrent_downloads, ..self@ }),
    {
        proof {
            use_type_invariant(&self.0);
        }
        DownloaderBuilder(Downloader { concurrent_downloads, ..self.0 })
    }

    /// Sets how many ranges of one download are fetched at a time.
    pub fn concurrent_chunks(self, concurrent_chunks: usize) -> (r: Self)
        ensures
            r@ == (Settings { concurrent_chunk: concurrent_chunks, ..self@ }),
    {
        proof {
            use_type_invariant(&self.0);
        }
        DownloaderBuilder(Downloader { concurrent_chunk: concurrent_chunks, ..self.0 })
    }

    /// Sets how many bytes a range has.
    pub fn chunk_size(self, chunk_size: u64) -> (r: Self)
        ensures
            r@ == (Settings { chunk_size, ..self@ }),
    {
        proof {
            use_type_invariant(&self.0);
        }
        DownloaderBuilder(Downloader { chunk_size, ..self.0 })
    }

    /// Sets how the progress bars look.
    pub fn style_options(self, style_options: StyleOptions) -> (r: Self)
        ensures
            r@ == (Settings { style_options, ..self@ }),
    {
        proof {
            use_type_invariant(&self.0);
        }
        DownloaderBuilder(Downloader { style_options, ..self.0 })
    }

    /// Sets what a caller of the program has given.
    pub fn configure(self, options: Options) -> (r: Self)
        ensures
            r@ == self@.configured(options),
    {
        let mut builder = self;
        if let Some(retries) = options.retries {
            builder = builder.retries(retries);
        }
        if let Some(concurrent_downloads) = options.concurrent_downloads {
            builder = builder.concurrent_downloads(concurrent_downloads);
        }
        if let Some(concurrent_chunks) = options.concurrent_chunk {
            builder = builder.concurrent_chunks(concurrent_chunks);
        }
        if let Some(chunk_size) = options.chunk_size {
            builder = builder.chunk_size(chunk_size);
        }
        if let Some(directory) = options.directory {
            builder = builder.directory(directory);
        }
        builder
    }

    /// How many header names the caller has set so far.
    pub fn header_count(&self) -> (r: usize)
        ensures
            self@.custom().dom().finite(),
            r == self@.custom().dom().len(),
    {
        match &self.0.headers {
            Some(map) => count_names(map),
            None => 0,
        }
    }

    /// The headers that have been set so far.
    fn new_header(&self) -> (r: HeaderMap)
        ensures
            header_fields(r) == self@.custom(),
    {
        match &self.0.headers {
            Some(map) => copy_headers(map),
            None => no_headers(),
        }
    }

    /// Adds headers to those of each request. They win over what has been set under
    /// the same names before.
    pub fn headers(self, headers: HeaderMap) -> (r: Self)
        requires
            has_room(headers, self@.custom().dom().len() + own_names()),
        ensures
            r@ == self@.with_headers(header_fields(headers)),
    {
        proof {
            use_type_invariant(&self.0);
        }
        let mut map = self.new_header();
        let ghost before = header_fields(map);
        extend_headers(&mut map, headers);
        proof {
            assert(header_fields(map).dom() =~= before.dom().union(header_fields(headers).dom()));
            vstd::set_lib::lemma_len_union(before.dom(), header_fields(headers).dom());
        }
        DownloaderBuilder(Downloader { headers: Some(map), ..self.0 })
    }

    /// Sets a header of each request, in place of what has been set under its name.
    pub fn header(self, name: HeaderName, value: HeaderValue) -> (r: Self)
        requires
            self@.custom().dom().len() + 1 + own_names() <= MAX_HEADER_NAMES,
        ensures
            r@ == self@.with_header(name_text(name), value_bytes(value)),
    {
        proof {
            use_type_invariant(&self.0);
        }
        let mut map = self.new_header();
        insert_header(&mut map, name, value);
        DownloaderBuilder(Downloader { headers: Some(map), ..self.0 })
    }

    /// Adds headers to those of each request; hands the builder back unchanged where
    /// they are too many.
    pub fn try_headers(self, headers: HeaderMap) -> (r: Result<Self, Self>)
        ensures
            match r {
                Ok(builder) => has_room(headers, self@.custom().dom().len() + own_names())
                    && builder@ == self@.with_headers(header_fields(headers)),
                Err(builder) => !has_room(headers, self@.custom().dom().len() + own_names())
                    && builder == self,
            },
    {
        let more: usize = count_names(&headers);
        let set: usize = self.header_count();
        let free: usize = MAX_HEADER_NAMES - 3;
        if set <= free && more <= free - set {
            Ok(self.headers(headers))
        } else {
            Err(self)
        }
    }

    /// Sets a header of each request; hands the builder back unchanged where there are
    /// too many already.
    pub fn try_header(self, name: HeaderName, value: HeaderValue) -> (r: Result<Self, Self>)
        ensures
            match r {
                Ok(builder) => self@.custom().dom().len() + 1 + own_names() <= MAX_HEADER_NAMES
                    && builder@ == self@.with_header(name_text(name), value_bytes(value)),
                Err(builder) => self@.custom().dom().len() + 1 + own_names() > MAX_HEADER_NAMES
                    && builder == self,
            },
    {
        if self.header_count() < MAX_HEADER_NAMES - 3 {
            Ok(self.header(name, value))
        } else {
            Err(self)
        }
    }

    /// The downloader with these settings.
    pub fn build(self) -> (r: Downloader)
        ensures
            r@ == self@,
    {
        self.0
    }
}

/// A header that is set has just the value that it is given, and headers that are added
/// have just theirs; what stands under other names stays.
pub proof fn law_set_headers_are_there(
    settings: Settings,
    name: Seq<char>,
    value: Seq<u8>,
    more: Map<Seq<char>, Seq<Seq<u8>>>,
    other: Seq<char>,
)
    ensures
        ({
            let one = settings.with_header(name, value);
            let all = settings.with_headers(more);
            &&& one.custom().contains_key(name) && one.custom()[name] == seq![value]
            &&& other != name ==> (one.custom().contains_key(other)
                <==> settings.custom().contains_key(other))
            &&& other != name && settings.custom().contains_key(other) ==> one.custom()[other]
                == settings.custom()[other]
            &&& more.contains_key(other) ==> all.custom().contains_key(other)
                && all.custom()[other] == more[other]
            &&& !more.contains_key(other) ==> (all.custom().contains_key(other)
                <==> settings.custom().contains_key(other))
            &&& !more.contains_key(other) && settings.custom().contains_key(other)
                ==> all.custom()[other] == settings.custom()[other]
            &&& one.headers is Some && all.headers is Some
            &&& one == (Settings { headers: one.headers, ..settings })
            &&& all == (Settings { headers: all.headers, ..settings })
        }),
        settings.headers matches Some(fields) ==> settings.custom() == fields,
        settings.headers is None ==> settings.custom() == Map::<Seq<char>, Seq<Seq<u8>>>::empty(),
{
}

/// A downloader for which nothing is given tries a request three times more, runs 32
/// downloads at a time and eight ranges of each, in ranges of ten mebibytes, and sets no
/// headers. It waits half a minute for each piece of a body.
pub proof fn law_defaults(settings: Settings, directory: PathBuf)
    ensures
        is_default(settings, directory) ==> settings.directory == directory && settings.retries == 3
            && settings.concurrent_downloads == 32 && settings.concurrent_chunk == 8
            && settings.chunk_size == 10 * 1024 * 1024 && settings.headers is None,
        Downloader::DEFAULT_RETRIES == 3,
        Downloader::DEFAULT_CONCURRENT_DOWNLOADS == 32,
        Downloader::DEFAULT_CONCURRENT_CHUNK == 8,
        Downloader::DEFAULT_CHUNK_SIZE == 10 * 1024 * 1024,
        Downloader::CHUNK_TIMEOUT_SECS == 30,
{
}

/// A setting that is given anew is taken, and one that is not stays.
pub proof fn law_given_settings_are_taken<T>(given: T, before: T)
    ensures
        or_else(Some(given), before) == given,
        or_else(None::<T>, before) == before,
{
}

/// A download that failed early has the status of a bad request and no bytes, and tells
/// why.
pub proof fn law_early_failure_tells_why(summary: Summary, resource: Resource, message: Seq<char>)
    requires
        is_early_failure(summary, resource, message),
    ensures
        summary.resource() == resource,
        status_number(summary.code()) == 400,
        summary.bytes() == 0,
        summary.outcome() is Fail,
        summary.outcome()->Fail_0@ == message,
{
}

/// What a caller of the program gives is what is set, and all that is not given stays.
pub proof fn law_options_are_settings(settings: Settings, options: Options)
    ensures
        ({
            let now = settings.configured(options);
            &&& options.retries matches Some(retries) ==> now.retries == retries
            &&& options.retries is None ==> now.retries == settings.retries
            &&& options.concurrent_downloads matches Some(most) ==> now.concurrent_downloads == most
            &&& options.concurrent_downloads is None ==> now.concurrent_downloads
                == settings.concurrent_downloads
            &&& options.concurrent_chunk matches Some(most) ==> now.concurrent_chunk == most
            &&& options.concurrent_chunk is None ==> now.concurrent_chunk
                == settings.concurrent_chunk
            &&& options.chunk_size matches Some(size) ==> now.chunk_size == size
            &&& options.chunk_size is None ==> now.chunk_size == settings.chunk_size
            &&& options.directory matches Some(directory) ==> now.directory == directory
            &&& options.directory is None ==> now.directory == settings.directory
            &&& now.style_options == settings.style_options
            &&& now.headers == settings.headers
        }),
{
}

/// A resource is saved under its name in the directory, and until all of it is there it
/// is written beside that, to a file with the extension `part`.
pub proof fn law_resource_is_saved_in_the_directory(settings: Settings, resource: Resource)
    ensures
        settings.file_of(resource) == joined_path(settings.directory, resource.filename@),
        settings.part_of(resource) == extended_path(settings.file_of(resource), "part"@),
{
}

/// A client tries again as often as is set, skips checks as it is told, asks for bodies
/// as they are, sends the caller's other headers, and names itself with an identifier.
pub proof fn law_client_is_built_as_set(
    settings: Settings,
    plan: ClientPlan,
    insecure: Option<bool>,
    name: Seq<char>,
)
    requires
        settings.is_plan(plan, insecure),
    ensures
        plan.retries == settings.retries,
        plan.insecure == insecure,
        ({
            let fields = header_fields(plan.default_headers);
            &&& fields.contains_key("accept-encoding"@) && fields["accept-encoding"@] == seq![
                ascii_bytes("identity"@),
            ]
            &&& name != "accept-encoding"@ ==> (fields.contains_key(name)
                <==> settings.custom().contains_key(name))
            &&& name != "accept-encoding"@ && settings.custom().contains_key(name) ==> fields[name]
                == settings.custom()[name]
        }),
        exists|id: Seq<char>|
            #[trigger] is_random_id(id) && plan.user_agent@ == "cargo-fetcher/"@ + id,
{
}

/// A fetch begins with the resource, the caller's headers, the size and number of ranges
/// that are set, and knows nothing yet.
pub proof fn law_fetch_begins_as_set(settings: Settings, state: FetchState, resource: Resource)
    requires
        settings.begins(state, resource),
    ensures
        state.resource == resource,
        state.custom == settings.custom(),
        state.chunk == settings.chunk_size,
        state.allowed == settings.concurrent_chunk,
        state.clear == settings.style_options.child_bar()@.clear,
        state.stage == FetchStage::Directory,
        state.written == 0,
{
}

} // verus!
