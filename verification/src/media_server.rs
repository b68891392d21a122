use std::sync::Arc;
use std::time::Duration;

use vstd::prelude::*;

use crate::decimal::{decimal, spec_decimal};
use crate::media::{spec_kind_path, ImageKind, User};
use crate::text::{is_blank, is_whitespace, joined, opt_view, spec_is_whitespace};

verus! {

/// The kind of media server.
#[derive(Debug, Clone, Copy, PartialEq, Eq, Structural)]
pub enum Kind {
    Jellyfin,
    Emby,
}

/// How to reach one media server.
#[derive(Debug, Clone)]
pub struct Config {
    pub id: String,
    pub kind: Kind,
    pub base_url: String,
    pub api_key: String,
    pub user_id: Option<String>,
    pub timeout: u64,
}

/// The mathematical value of a server configuration.
pub struct ConfigView {
    pub id: Seq<char>,
    pub kind: Kind,
    pub base_url: Seq<char>,
    pub api_key: Seq<char>,
    pub user_id: Option<Seq<char>>,
    pub timeout: u64,
}

impl Config {
    /// A copy of this configuration.
    pub fn duplicate(&self) -> (res: Config)
        ensures
            res@ == self@,
    {
        Config {
            id: self.id.clone(),
            kind: self.kind,
            base_url: self.base_url.clone(),
            api_key: self.api_key.clone(),
            user_id: match &self.user_id {
                Some(u) => Some(u.clone()),
                None => None,
            },
            timeout: self.timeout,
        }
    }
}

impl View for Config {
    type V = ConfigView;

    open spec fn view(&self) -> ConfigView {
        ConfigView {
            id: self.id@,
            kind: self.kind,
            base_url: self.base_url@,
            api_key: self.api_key@,
            user_id: opt_view(self.user_id),
            timeout: self.timeout,
        }
    }
}

/// What can go wrong when talking to a media server.
#[derive(Debug)]
pub enum MediaServerError {
    InvalidUrl(String),
    BuildClient(reqwest::Error),
    Request(reqwest::Error),
    HttpStatus { status: reqwest::StatusCode, body: String },
    MissingUser,
}

/// The user agent the client sends.
pub const USER_AGENT: &'static str = "AutoFilm/0.1.0";

/// A text with all trailing `/` removed, as `trim_end_matches('/')` leaves it.
pub open spec fn strip_trailing_slashes(s: Seq<char>) -> Seq<char>
    decreases s.len(),
{
    if s.len() > 0 && s.last() == '/' {
        strip_trailing_slashes(s.drop_last())
    } else {
        s
    }
}

/// What `reqwest::Url::parse` makes of a text: the URL, or nothing where the
/// parser refuses the text.
pub uninterp spec fn parsed_url(text: Seq<char>) -> Option<reqwest::Url>;

/// Whether `reqwest::Url::parse` accepts a text.
pub open spec fn url_parses(text: Seq<char>) -> bool {
    parsed_url(text) is Some
}

/// Parses an absolute URL with `reqwest::Url::parse` (the `url` crate). The
/// outcome depends on the text alone and is named by `parsed_url`; the error
/// message on failure is the parser's and is not stated here.
#[verifier::external_body]
fn parse_url(text: &str) -> (res: Result<reqwest::Url, String>)
    ensures
        match res {
            Ok(url) => parsed_url(text@) == Some(url),
            Err(_) => parsed_url(text@) is None,
        },
{
    reqwest::Url::parse(text).map_err(|err| err.to_string())
}

/// The request timeout in seconds and the user agent that an HTTP client was
/// built with.
pub uninterp spec fn http_client_settings(client: reqwest::Client) -> (u64, Seq<char>);

/// Builds the HTTP client with `reqwest::Client::builder()`, a total request
/// timeout of `timeout_secs` seconds and the given user agent; a client it
/// builds sends requests with those settings. Whether building succeeds
/// depends on the TLS backend of the machine, so that is not stated.
#[verifier::external_body]
fn build_http_client(timeout_secs: u64, user_agent: &str) -> (res: Result<reqwest::Client, reqwest::Error>)
    ensures
        res matches Ok(client) ==> http_client_settings(client) == (timeout_secs, user_agent@),
{
    reqwest::Client::builder().timeout(Duration::from_secs(timeout_secs)).user_agent(user_agent).build()
}

/// A client for one media server (Jellyfin or Emby): its configuration with a
/// normalized base URL, the parsed base URL and the HTTP client.
#[derive(Debug)]
pub struct MediaServerClient {
    config: Config,
    base_url: reqwest::Url,
    http: reqwest::Client,
}

/// The configuration a client keeps: the given one, with trailing `/` removed
/// from the base URL.
pub open spec fn normalized(config: ConfigView) -> ConfigView {
    ConfigView { base_url: strip_trailing_slashes(config.base_url), ..config }
}

proof fn lemma_strip_trailing_slashes(s: Seq<char>)
    ensures
        strip_trailing_slashes(s).len() <= s.len(),
        strip_trailing_slashes(s) == s.subrange(0, strip_trailing_slashes(s).len() as int),
        forall|i: int|
            strip_trailing_slashes(s).len() <= i < s.len() ==> #[trigger] s[i] == '/',
        strip_trailing_slashes(s).len() > 0 ==> strip_trailing_slashes(s).last() != '/',
    decreases s.len(),
{
    if s.len() > 0 && s.last() == '/' {
        lemma_strip_trailing_slashes(s.drop_last());
        let t = strip_trailing_slashes(s.drop_last());
        assert(t == s.drop_last().subrange(0, t.len() as int));
        assert(s.drop_last().subrange(0, t.len() as int) =~= s.subrange(0, t.len() as int));
        assert forall|i: int| t.len() <= i < s.len() implies #[trigger] s[i] == '/' by {
            if i < s.len() - 1 {
                assert(s.drop_last()[i] == s[i]);
            }
        }
    } else {
        assert(s.subrange(0, s.len() as int) =~= s);
    }
}

/// A client keeps its configuration but for the base URL, whose trailing `/`
/// are removed and nothing else: the kept URL is a prefix of the configured
/// one, everything after it is `/`, and it does not end with `/`.
pub proof fn lemma_normalized_config(config: ConfigView)
    ensures
        normalized(config).id == config.id,
        normalized(config).kind == config.kind,
        normalized(config).api_key == config.api_key,
        normalized(config).user_id == config.user_id,
        normalized(config).timeout == config.timeout,
        normalized(config).base_url == config.base_url.subrange(0, normalized(config).base_url.len() as int),
        forall|i: int|
            normalized(config).base_url.len() <= i < config.base_url.len() ==> #[trigger] config.base_url[i]
                == '/',
        normalized(config).base_url.len() > 0 ==> normalized(config).base_url.last() != '/',
{
    lemma_strip_trailing_slashes(config.base_url);
}

/// Whether a configured user id is used as it is: it is present and not blank.
pub open spec fn spec_configured_user(config: ConfigView) -> Option<Seq<char>> {
    match config.user_id {
        Some(id) => if is_blank(id) {
            None
        } else {
            Some(id)
        },
        None => None,
    }
}

fn trim_trailing_slashes(text: &str) -> (res: String)
    ensures
        res@ == strip_trailing_slashes(text@),
{
    let n = text.unicode_len();
    let mut end = n;
    assert(text@.subrange(0, n as int) =~= text@);
    while end > 0 && text.get_char(end - 1) == '/'
        invariant
            n == text@.len(),
            end <= n,
            strip_trailing_slashes(text@) == strip_trailing_slashes(text@.subrange(0, end as int)),
        decreases end,
    {
        assert(text@.subrange(0, end as int).drop_last() =~= text@.subrange(0, end - 1));
        end = end - 1;
    }
    assert(text@.subrange(0, n as int) =~= text@);
    String::from_str(text.substring_char(0, end))
}

impl MediaServerClient {
    /// The configuration this client keeps.
    pub closed spec fn config_view(&self) -> ConfigView {
        self.config@
    }

    /// The base URL is the configured one with a `/` appended, as parsed, and
    /// the HTTP client was built with the configured timeout and the crate's
    /// user agent.
    #[verifier::type_invariant]
    spec fn client_inv(&self) -> bool {
        &&& parsed_url(self.config@.base_url + "/"@) == Some(self.base_url)
        &&& http_client_settings(self.http) == (self.config.timeout, USER_AGENT@)
    }

    /// Creates a client: trailing `/` are removed from the base URL, the base
    /// URL with one `/` appended must parse, and the HTTP client is built with
    /// the configured timeout and the crate's user agent.
    pub fn new(config: Config) -> (res: Result<MediaServerClient, MediaServerError>)
        ensures
            res matches Ok(client) ==> client.config_view() == normalized(config@),
            res is Ok ==> url_parses(strip_trailing_slashes(config.base_url@) + "/"@),
            !url_parses(strip_trailing_slashes(config.base_url@) + "/"@) ==> res matches Err(
                MediaServerError::InvalidUrl(_),
            ),
            url_parses(strip_trailing_slashes(config.base_url@) + "/"@) ==> (res is Ok || res matches Err(
                MediaServerError::BuildClient(_),
            )),
    {
        let mut config = config;
        config.base_url = trim_trailing_slashes(config.base_url.as_str());
        let with_slash = joined(config.base_url.as_str(), "/");
        let base_url = match parse_url(with_slash.as_str()) {
            Ok(url) => url,
            Err(message) => {
                return Err(MediaServerError::InvalidUrl(message));
            },
        };
        let http = match build_http_client(config.timeout, USER_AGENT) {
            Ok(http) => http,
            Err(err) => {
                return Err(MediaServerError::BuildClient(err));
            },
        };
        Ok(MediaServerClient { config, base_url, http })
    }

    /// The server's id.
    pub fn id(&self) -> (res: &str)
        ensures
            res@ == self.config_view().id,
    {
        self.config.id.as_str()
    }

    /// The server's kind.
    pub fn kind(&self) -> (res: Kind)
        ensures
            res == self.config_view().kind,
    {
        self.config.kind
    }

    /// The API key sent with every request.
    pub fn api_key(&self) -> (res: &str)
        ensures
            res@ == self.config_view().api_key,
    {
        self.config.api_key.as_str()
    }

    /// The base URL that request paths are resolved against: the configured
    /// base URL with a `/` appended, as parsed.
    pub fn base_url(&self) -> (res: &reqwest::Url)
        ensures
            parsed_url(self.config_view().base_url + "/"@) == Some(*res),
    {
        proof {
            use_type_invariant(self);
        }
        &self.base_url
    }

    /// The HTTP client that sends the requests, with the configured timeout
    /// and the crate's user agent.
    pub fn http(&self) -> (res: &reqwest::Client)
        ensures
            http_client_settings(*res) == (self.config_view().timeout, USER_AGENT@),
    {
        proof {
            use_type_invariant(self);
        }
        &self.http
    }

    /// The configured user id, where it is present and not blank; then no
    /// request for the users is needed.
    pub fn configured_user_id(&self) -> (res: Option<String>)
        ensures
            opt_view(res) == spec_configured_user(self.config_view()),
    {
        match &self.config.user_id {
            Some(id) => {
                assert(self.config_view().user_id == Some(id@));
                let n = id.unicode_len();
                let mut i: usize = 0;
                while i < n
                    invariant
                        n == id@.len(),
                        i <= n,
                        self.config_view().user_id == Some(id@),
                        forall|k: int| 0 <= k < i ==> spec_is_whitespace(#[trigger] id@[k]),
                    decreases n - i,
                {
                    let c = id.as_str().get_char(i);
                    if !is_whitespace(c) {
                        assert(!spec_is_whitespace(id@[i as int]));
                        assert(!is_blank(id@));
                        return Some(id.clone());
                    }
                    i = i + 1;
                }
                assert(is_blank(id@));
                None
            },
            None => None,
        }
    }
}

/// The id of the first user the server lists; a server that lists none is an error.
pub fn first_user_id(users: Vec<User>) -> (res: Result<String, MediaServerError>)
    ensures
        users@.len() > 0 ==> (res matches Ok(id) && id@ == users@[0].id@),
        users@.len() == 0 ==> res matches Err(MediaServerError::MissingUser),
{
    if users.len() > 0 {
        Ok(users[0].id.clone())
    } else {
        Err(MediaServerError::MissingUser)
    }
}

/// The path of the item listing of a user.
pub open spec fn spec_items_path(user_id: Seq<char>) -> Seq<char> {
    "Users/"@ + user_id + "/Items"@
}

/// The query parameters of an item listing, in order.
pub open spec fn spec_items_query(library_id: Seq<char>, sort_by: Seq<char>, random_seed: Option<u64>, limit: u64) -> Seq<(Seq<char>, Seq<char>)> {
    let fixed = seq![
        ("ParentId"@, library_id),
        ("Recursive"@, "true"@),
        ("SortBy"@, sort_by),
        ("SortOrder"@, "Descending"@),
        ("IncludeItemTypes"@, "Movie,Series,Episode,MusicAlbum,Audio,MusicVideo,BoxSet"@),
        ("Limit"@, spec_decimal(limit as nat)),
        ("Fields"@, "SeriesId,ParentBackdropItemId,ParentBackdropImageTags,BackdropImageTags"@),
    ];
    match random_seed {
        Some(seed) => fixed.push(("RandomSeed"@, spec_decimal(seed as nat))),
        None => fixed,
    }
}

/// The view of query parameters.
pub open spec fn query_view(q: Seq<(String, String)>) -> Seq<(Seq<char>, Seq<char>)> {
    q.map_values(|p: (String, String)| (p.0@, p.1@))
}

fn param(key: &str, value: String) -> (res: (String, String))
    ensures
        res.0@ == key@ && res.1@ == value@,
{
    (String::from_str(key), value)
}

/// The path of the server's user listing.
pub fn users_path() -> (res: String)
    ensures
        res@ == "Users"@,
{
    String::from_str("Users")
}

/// The path of the server's media library listing.
pub fn libraries_path() -> (res: String)
    ensures
        res@ == "Library/MediaFolders"@,
{
    String::from_str("Library/MediaFolders")
}

/// The path of a user's item listing.
pub fn items_path(user_id: &str) -> (res: String)
    ensures
        res@ == spec_items_path(user_id@),
{
    let mut path = joined("Users/", user_id);
    path.append("/Items");
    path
}

/// The query of an item listing: the candidates of a library, sorted and
/// limited, with the image fields that poster selection reads, and the random
/// seed where one is given.
pub fn items_query(library_id: &str, sort_by: &str, random_seed: Option<u64>, limit: u64) -> (res: Vec<(String, String)>)
    ensures
        query_view(res@) == spec_items_query(library_id@, sort_by@, random_seed, limit),
        res@.len() == if random_seed is Some { 8int } else { 7int },
        res@[0].0@ == "ParentId"@ && res@[0].1@ == library_id@,
        res@[2].0@ == "SortBy"@ && res@[2].1@ == sort_by@,
        res@[3].0@ == "SortOrder"@ && res@[3].1@ == "Descending"@,
        res@[5].0@ == "Limit"@ && res@[5].1@ == spec_decimal(limit as nat),
        random_seed matches Some(seed) ==> res@[7].0@ == "RandomSeed"@ && res@[7].1@ == spec_decimal(
            seed as nat,
        ),
{
    let mut query: Vec<(String, String)> = Vec::new();
    query.push(param("ParentId", String::from_str(library_id)));
    query.push(param("Recursive", String::from_str("true")));
    query.push(param("SortBy", String::from_str(sort_by)));
    query.push(param("SortOrder", String::from_str("Descending")));
    query.push(
        param(
            "IncludeItemTypes",
            String::from_str("Movie,Series,Episode,MusicAlbum,Audio,MusicVideo,BoxSet"),
        ),
    );
    query.push(param("Limit", decimal(limit)));
    query.push(
        param(
            "Fields",
            String::from_str(
                "SeriesId,ParentBackdropItemId,ParentBackdropImageTags,BackdropImageTags",
            ),
        ),
    );
    match random_seed {
        Some(seed) => {
            query.push(param("RandomSeed", decimal(seed)));
        },
        None => {},
    }
    assert(query_view(query@) =~= spec_items_query(library_id@, sort_by@, random_seed, limit));
    proof {
        lemma_items_query_newest_first(library_id@, sort_by@, random_seed, limit);
        assert(query_view(query@)[3] == (query@[3].0@, query@[3].1@));
        assert(query_view(query@)[0] == (query@[0].0@, query@[0].1@));
        assert(query_view(query@)[2] == (query@[2].0@, query@[2].1@));
        assert(query_view(query@)[5] == (query@[5].0@, query@[5].1@));
        if random_seed is Some {
            assert(query_view(query@)[7] == (query@[7].0@, query@[7].1@));
        }
    }
    query
}

/// The item listing asks for a library's items newest first, up to the
/// limit: for every library, sort and seed, the library is the parent, the
/// sort is the one given, the order is descending, the limit is written in
/// decimal, and a seed, where there is one, is sent last.
pub proof fn lemma_items_query_newest_first(library_id: Seq<char>, sort_by: Seq<char>, random_seed: Option<u64>, limit: u64)
    ensures
        spec_items_query(library_id, sort_by, random_seed, limit).len() == if random_seed is Some {
            8int
        } else {
            7int
        },
        spec_items_query(library_id, sort_by, random_seed, limit)[0] == ("ParentId"@, library_id),
        spec_items_query(library_id, sort_by, random_seed, limit)[1] == ("Recursive"@, "true"@),
        spec_items_query(library_id, sort_by, random_seed, limit)[4] == (
            "IncludeItemTypes"@,
            "Movie,Series,Episode,MusicAlbum,Audio,MusicVideo,BoxSet"@,
        ),
        spec_items_query(library_id, sort_by, random_seed, limit)[6] == (
            "Fields"@,
            "SeriesId,ParentBackdropItemId,ParentBackdropImageTags,BackdropImageTags"@,
        ),
        spec_items_query(library_id, sort_by, random_seed, limit)[2] == ("SortBy"@, sort_by),
        spec_items_query(library_id, sort_by, random_seed, limit)[3] == ("SortOrder"@, "Descending"@),
        spec_items_query(library_id, sort_by, random_seed, limit)[5] == ("Limit"@, spec_decimal(
            limit as nat,
        )),
        random_seed matches Some(seed) ==> spec_items_query(library_id, sort_by, random_seed, limit)[7]
            == ("RandomSeed"@, spec_decimal(seed as nat)),
{
}

/// The path of an item's image of the given kind.
pub open spec fn spec_image_path(item_id: Seq<char>, kind: ImageKind) -> Seq<char> {
    "Items/"@ + item_id + "/Images/"@ + spec_kind_path(kind)
}

/// The request paths: a user's items are listed under `Users/{id}/Items`; an
/// item's poster is under `Items/{id}/Images/Primary` and its first backdrop
/// under `Items/{id}/Images/Backdrop/0`, so the two kinds never share a path.
pub proof fn lemma_request_paths(id: Seq<char>)
    ensures
        spec_items_path(id) == "Users/"@ + id + "/Items"@,
        spec_image_path(id, ImageKind::Primary) == "Items/"@ + id + "/Images/Primary"@,
        spec_image_path(id, ImageKind::Backdrop) == "Items/"@ + id + "/Images/Backdrop/0"@,
        spec_image_path(id, ImageKind::Primary) != spec_image_path(id, ImageKind::Backdrop),
{
    reveal_strlit("Primary");
    reveal_strlit("Backdrop/0");
    reveal_strlit("/Images/");
    reveal_strlit("/Images/Primary");
    reveal_strlit("/Images/Backdrop/0");
    assert(spec_image_path(id, ImageKind::Primary) =~= "Items/"@ + id + "/Images/Primary"@);
    assert(spec_image_path(id, ImageKind::Backdrop) =~= "Items/"@ + id + "/Images/Backdrop/0"@);
    let p = spec_image_path(id, ImageKind::Primary);
    let b = spec_image_path(id, ImageKind::Backdrop);
    let n: int = ("Items/"@ + id + "/Images/"@).len() as int;
    assert(p[n] == 'P');
    assert(b[n] == 'B');
}

/// The path of an item's image of the given kind.
pub fn image_path(item_id: &str, kind: ImageKind) -> (res: String)
    ensures
        res@ == spec_image_path(item_id@, kind),
{
    let mut path = joined("Items/", item_id);
    path.append("/Images/");
    path.append(kind.path());
    path
}

/// The query of an image download: the image's tag, where it has one.
pub fn image_query(tag: &Option<String>) -> (res: Vec<(String, String)>)
    ensures
        query_view(res@) == match opt_view(*tag) {
            Some(t) => seq![("tag"@, t)],
            None => Seq::empty(),
        },
{
    let mut query: Vec<(String, String)> = Vec::new();
    match tag {
        Some(t) => {
            query.push(param("tag", t.clone()));
        },
        None => {},
    }
    assert(query_view(query@) =~= match opt_view(*tag) {
        Some(t) => seq![("tag"@, t)],
        None => Seq::empty(),
    });
    query
}

/// The path that a library's new primary image is posted to.
pub fn upload_path(library_id: &str) -> (res: String)
    ensures
        res@ == "Items/"@ + library_id@ + "/Images/Primary"@,
{
    let mut path = joined("Items/", library_id);
    path.append("/Images/Primary");
    path
}

/// Whether some client of a list has the given id.
pub open spec fn has_id(clients: Seq<ConfigView>, id: Seq<char>) -> bool {
    exists|i: int| 0 <= i < clients.len() && clients[i].id == id
}

/// The clients of the configured media servers, one per id, and the
/// configurations whose client could not be created, by position, with the
/// error, so that they can be reported.
pub struct ClientRegistry {
    entries: Vec<Arc<MediaServerClient>>,
    failed: Vec<(usize, MediaServerError)>,
}

impl ClientRegistry {
    /// The ids and configurations of the registered clients, in order.
    pub closed spec fn clients(&self) -> Seq<ConfigView> {
        self.entries@.map_values(|c: Arc<MediaServerClient>| c.config_view())
    }

    /// The positions of the configurations whose client could not be
    /// created, with the error, in the order they were tried.
    pub closed spec fn failures(&self) -> Seq<(usize, MediaServerError)> {
        self.failed@
    }

    /// A registry without clients.
    pub fn new() -> (res: ClientRegistry)
        ensures
            res.clients().len() == 0,
            res.failures().len() == 0,
    {
        let res = ClientRegistry { entries: Vec::new(), failed: Vec::new() };
        assert(res.clients() =~= Seq::<ConfigView>::empty());
        res
    }

    /// Takes the outcome of creating a client: a created client whose id has
    /// no client yet is registered; a failure, or a client whose id is taken,
    /// leaves the registry as it was.
    pub fn add(&mut self, created: Result<MediaServerClient, MediaServerError>) -> (added: bool)
        ensures
            added <==> (created is Ok && !has_id(old(self).clients(), created->Ok_0.config_view().id)),
            added ==> final(self).clients() == old(self).clients().push(created->Ok_0.config_view()),
            !added ==> final(self).clients() == old(self).clients(),
            final(self).failures() == old(self).failures(),
    {
        match created {
            Ok(client) => {
                if self.get(client.config.id.as_str()).is_none() {
                    let ghost before = self.clients();
                    self.entries.push(Arc::new(client));
                    assert(self.clients() =~= before.push(client.config_view()));
                    true
                } else {
                    false
                }
            },
            Err(_) => false,
        }
    }

    /// Notes that creating the client of the configuration at `position`
    /// failed with `error`.
    fn note_failure(&mut self, position: usize, error: MediaServerError)
        ensures
            final(self).clients() == old(self).clients(),
            final(self).failures() == old(self).failures().push((position, error)),
    {
        self.failed.push((position, error));
    }

    /// The positions of the configurations whose client could not be
    /// created, with the errors, in the order they were tried.
    pub fn failures_list(&self) -> (res: &Vec<(usize, MediaServerError)>)
        ensures
            res@ == self.failures(),
    {
        &self.failed
    }

    /// The number of registered clients.
    pub fn len(&self) -> (res: usize)
        ensures
            res == self.clients().len(),
    {
        self.entries.len()
    }

    /// The client registered under an id.
    pub fn get(&self, id: &str) -> (res: Option<&Arc<MediaServerClient>>)
        ensures
            res is Some <==> exists|i: int| 0 <= i < self.clients().len() && self.clients()[i].id == id@,
            res matches Some(c) ==> c.config_view().id == id@,
    {
        let ghost ids = self.clients();
        let mut i: usize = 0;
        while i < self.entries.len()
            invariant
                ids == self.clients(),
                i <= self.entries.len(),
                forall|k: int| 0 <= k < i ==> ids[k].id != id@,
            decreases self.entries.len() - i,
        {
            let entry = &self.entries[i];
            assert(ids[i as int] == entry.config_view());
            let found = entry.config.id.as_str();
            if String::from_str(found) == String::from_str(id) {
                return Some(entry);
            }
            i = i + 1;
        }
        None
    }
}

/// The clients that registering the configurations in order keeps, where
/// `created[k]` tells whether creating the client of configuration `k`
/// succeeded: a configuration whose id already has a client is skipped, and
/// one whose client was created is kept.
pub open spec fn register_upto(configs: Seq<Config>, created: Seq<bool>, n: int) -> Seq<ConfigView>
    decreases n,
{
    if n <= 0 {
        Seq::empty()
    } else {
        let before = register_upto(configs, created, n - 1);
        if created[n - 1] && !has_id(before, configs[n - 1].id@) {
            before.push(normalized(configs[n - 1]@))
        } else {
            before
        }
    }
}

proof fn lemma_register_prefix(configs: Seq<Config>, c1: Seq<bool>, c2: Seq<bool>, n: int)
    requires
        forall|i: int| 0 <= i < n ==> c1[i] == c2[i],
    ensures
        register_upto(configs, c1, n) == register_upto(configs, c2, n),
    decreases n,
{
    if n > 0 {
        lemma_register_prefix(configs, c1, c2, n - 1);
    }
}

proof fn lemma_register_created_has_id(configs: Seq<Config>, created: Seq<bool>, n: int, k: int)
    requires
        0 <= k < n,
        created[k],
    ensures
        has_id(register_upto(configs, created, n), configs[k].id@),
    decreases n,
{
    let before = register_upto(configs, created, n - 1);
    let after = register_upto(configs, created, n);
    if k < n - 1 {
        lemma_register_created_has_id(configs, created, n - 1, k);
        let i = choose|i: int| 0 <= i < before.len() && before[i].id == configs[k].id@;
        if after != before {
            assert(after == before.push(normalized(configs[n - 1]@)));
            assert(after[i] == before[i]);
        }
    } else {
        if !has_id(before, configs[k].id@) {
            assert(after == before.push(normalized(configs[n - 1]@)));
            assert(after[before.len() as int].id == configs[k].id@);
        }
    }
}

proof fn lemma_register_distinct(configs: Seq<Config>, created: Seq<bool>, n: int)
    requires
        0 <= n,
    ensures
        forall|i: int, j: int|
            0 <= i < j < register_upto(configs, created, n).len() ==> register_upto(
                configs,
                created,
                n,
            )[i].id != register_upto(configs, created, n)[j].id,
    decreases n,
{
    if n > 0 {
        lemma_register_distinct(configs, created, n - 1);
        let before = register_upto(configs, created, n - 1);
        let after = register_upto(configs, created, n);
        if after != before {
            let id = configs[n - 1].id@;
            assert(after == before.push(normalized(configs[n - 1]@)));
            assert(!has_id(before, id));
            assert forall|i: int, j: int| 0 <= i < j < after.len() implies after[i].id
                != after[j].id by {
                assert(after[i] == before[i]);
                if j < before.len() {
                    assert(after[j] == before[j]);
                } else {
                    assert(after[j].id == id);
                }
            }
        }
    }
}

/// Whether configuration `k` is the first of its id whose client was created.
pub open spec fn first_created(configs: Seq<Config>, created: Seq<bool>, k: int) -> bool {
    &&& created[k]
    &&& forall|j: int| #![trigger created[j]] 0 <= j < k && configs[j].id@ == configs[k].id@ ==> !created[j]
}

proof fn lemma_register_origin(configs: Seq<Config>, created: Seq<bool>, n: int, i: int)
    requires
        0 <= i < register_upto(configs, created, n).len(),
    ensures
        exists|k: int|
            0 <= k < n && first_created(configs, created, k) && #[trigger] normalized(configs[k]@)
                == register_upto(configs, created, n)[i],
    decreases n,
{
    if n > 0 {
        let before = register_upto(configs, created, n - 1);
        let after = register_upto(configs, created, n);
        if i < before.len() {
            lemma_register_origin(configs, created, n - 1, i);
            if after != before {
                assert(after == before.push(normalized(configs[n - 1]@)));
            }
            assert(after[i] == before[i]);
        } else {
            assert(after != before);
            assert(after == before.push(normalized(configs[n - 1]@)));
            assert forall|j: int|
                #![trigger created[j]]
                0 <= j < n - 1 && configs[j].id@ == configs[n - 1].id@ implies !created[j] by {
                if created[j] {
                    lemma_register_created_has_id(configs, created, n - 1, j);
                }
            }
            assert(first_created(configs, created, n - 1));
            assert(normalized(configs[n - 1]@) == after[i]);
        }
    }
}

/// Registration is first come, first served: the ids of the kept clients
/// are distinct; each kept client is made from the first configuration of
/// its id whose client was created; and every configuration whose client was
/// created has its id registered.
pub proof fn lemma_register_first_come(configs: Seq<Config>, created: Seq<bool>, n: int)
    requires
        0 <= n,
    ensures
        forall|i: int, j: int|
            0 <= i < j < register_upto(configs, created, n).len() ==> register_upto(
                configs,
                created,
                n,
            )[i].id != register_upto(configs, created, n)[j].id,
        forall|i: int|
            0 <= i < register_upto(configs, created, n).len() ==> exists|k: int|
                0 <= k < n && first_created(configs, created, k) && #[trigger] normalized(
                    configs[k]@,
                ) == #[trigger] register_upto(configs, created, n)[i],
        forall|k: int|
            0 <= k < n && #[trigger] created[k] ==> has_id(
                register_upto(configs, created, n),
                configs[k].id@,
            ),
{
    lemma_register_distinct(configs, created, n);
    assert forall|i: int| 0 <= i < register_upto(configs, created, n).len() implies exists|k: int|
        0 <= k < n && first_created(configs, created, k) && #[trigger] normalized(configs[k]@)
            == #[trigger] register_upto(configs, created, n)[i] by {
        lemma_register_origin(configs, created, n, i);
    }
    assert forall|k: int| 0 <= k < n && #[trigger] created[k] implies has_id(
        register_upto(configs, created, n),
        configs[k].id@,
    ) by {
        lemma_register_created_has_id(configs, created, n, k);
    }
}

/// Whether configuration `k` is tried: no earlier configuration registered a
/// client under its id.
pub open spec fn is_tried(configs: Seq<Config>, created: Seq<bool>, k: int) -> bool {
    !has_id(register_upto(configs, created, k), configs[k].id@)
}

/// The base URL of a configuration parses once trailing `/` are removed and
/// one `/` is appended.
pub open spec fn config_url_parses(config: Config) -> bool {
    url_parses(strip_trailing_slashes(config.base_url@) + "/"@)
}

proof fn lemma_register_keeps_ids(configs: Seq<Config>, created: Seq<bool>, m: int, n: int, id: Seq<char>)
    requires
        0 <= m <= n,
        has_id(register_upto(configs, created, m), id),
    ensures
        has_id(register_upto(configs, created, n), id),
    decreases n,
{
    if m < n {
        lemma_register_keeps_ids(configs, created, m, n - 1, id);
        let before = register_upto(configs, created, n - 1);
        let after = register_upto(configs, created, n);
        let i = choose|i: int| 0 <= i < before.len() && before[i].id == id;
        if after != before {
            assert(after == before.push(normalized(configs[n - 1]@)));
            assert(after[i] == before[i]);
        }
    }
}

/// What creating the clients of some configurations gives: with `created`
/// telling for each configuration whether creating its client succeeded,
/// only a configuration whose URL parses is created; the clients are the
/// first-come registration of the created ones; and the failures are exactly
/// the tried configurations whose creation failed, in order, each with an
/// error that says why: the URL where it does not parse, otherwise the HTTP
/// client.
pub open spec fn registry_made_from(configs: Seq<Config>, res: ClientRegistry) -> bool {
    exists|created: Seq<bool>|
        {
            &&& created.len() == configs.len()
            &&& forall|k: int|
                0 <= k < configs.len() && #[trigger] created[k] ==> config_url_parses(configs[k])
            &&& res.clients() == register_upto(configs, created, configs.len() as int)
            &&& forall|k: int|
                0 <= k < configs.len() && is_tried(configs, created, k) && !created[k] ==> exists|j: int|
                    0 <= j < res.failures().len() && #[trigger] res.failures()[j].0 == k
            &&& forall|j: int|
                0 <= j < res.failures().len() ==> {
                    let (k, e) = #[trigger] res.failures()[j];
                    &&& k < configs.len()
                    &&& is_tried(configs, created, k as int)
                    &&& !created[k as int]
                    &&& config_url_parses(configs[k as int]) ==> (e matches MediaServerError::BuildClient(_))
                    &&& !config_url_parses(configs[k as int]) ==> (e matches MediaServerError::InvalidUrl(_))
                }
        }
}

/// No configuration is dropped silently: after creating the clients, every
/// configuration's id has a client, or creating that configuration's own
/// client failed and is listed with its error; a configuration whose URL
/// parses fails only because its HTTP client could not be built.
pub proof fn lemma_registry_drops_only_failures(configs: Seq<Config>, res: ClientRegistry)
    requires
        registry_made_from(configs, res),
    ensures
        forall|k: int|
            0 <= k < configs.len() ==> has_id(res.clients(), #[trigger] configs[k].id@) || exists|j: int|
                0 <= j < res.failures().len() && res.failures()[j].0 == k && (config_url_parses(
                    configs[k],
                ) ==> (res.failures()[j].1 matches MediaServerError::BuildClient(_))),
        forall|i: int, j: int|
            0 <= i < j < res.clients().len() ==> res.clients()[i].id != res.clients()[j].id,
{
    let created = choose|created: Seq<bool>|
        {
            &&& created.len() == configs.len()
            &&& forall|k: int|
                0 <= k < configs.len() && #[trigger] created[k] ==> config_url_parses(configs[k])
            &&& res.clients() == register_upto(configs, created, configs.len() as int)
            &&& forall|k: int|
                0 <= k < configs.len() && is_tried(configs, created, k) && !created[k] ==> exists|j: int|
                    0 <= j < res.failures().len() && #[trigger] res.failures()[j].0 == k
            &&& forall|j: int|
                0 <= j < res.failures().len() ==> {
                    let (k, e) = #[trigger] res.failures()[j];
                    &&& k < configs.len()
                    &&& is_tried(configs, created, k as int)
                    &&& !created[k as int]
                    &&& config_url_parses(configs[k as int]) ==> (e matches MediaServerError::BuildClient(_))
                    &&& !config_url_parses(configs[k as int]) ==> (e matches MediaServerError::InvalidUrl(_))
                }
        };
    let n = configs.len() as int;
    assert forall|k: int| 0 <= k < configs.len() implies has_id(res.clients(), #[trigger] configs[k].id@)
        || exists|j: int|
        0 <= j < res.failures().len() && res.failures()[j].0 == k && (config_url_parses(configs[k])
            ==> (res.failures()[j].1 matches MediaServerError::BuildClient(_))) by {
        if !is_tried(configs, created, k) {
            lemma_register_keeps_ids(configs, created, k, n, configs[k].id@);
        } else if created[k] {
            lemma_register_created_has_id(configs, created, n, k);
        } else {
            let j = choose|j: int| 0 <= j < res.failures().len() && #[trigger] res.failures()[j].0 == k;
            assert(res.failures()[j].0 == k);
        }
    }
    lemma_register_distinct(configs, created, n);
}

/// Creates one reusable client per server id, first come, first served: a
/// configuration whose id already has a client is skipped without being
/// tried; otherwise its client is created, and registered when creating it
/// succeeds, so that a configuration that fails leaves room for a later one
/// of the same id, and the failure is kept with its error. Creation fails
/// where the base URL does not parse, and may fail where the HTTP client
/// cannot be built.
pub fn create_media_server_clients(configs: &[Config]) -> (res: ClientRegistry)
    ensures
        registry_made_from(configs@, res),
        forall|i: int, j: int|
            0 <= i < j < res.clients().len() ==> res.clients()[i].id != res.clients()[j].id,
{
    let mut registry = ClientRegistry::new();
    let ghost mut created: Seq<bool> = Seq::empty();
    let mut k: usize = 0;
    while k < configs.len()
        invariant
            k <= configs@.len(),
            created.len() == k,
            forall|m: int|
                0 <= m < k && #[trigger] created[m] ==> config_url_parses(configs@[m]),
            registry.clients() == register_upto(configs@, created, k as int),
            forall|m: int|
                0 <= m < k && is_tried(configs@, created, m) && !created[m] ==> exists|j: int|
                    0 <= j < registry.failures().len() && #[trigger] registry.failures()[j].0 == m,
            forall|j: int|
                0 <= j < registry.failures().len() ==> {
                    let (m, e) = #[trigger] registry.failures()[j];
                    &&& m < k
                    &&& is_tried(configs@, created, m as int)
                    &&& !created[m as int]
                    &&& config_url_parses(configs@[m as int]) ==> (e matches MediaServerError::BuildClient(_))
                    &&& !config_url_parses(configs@[m as int]) ==> (e matches MediaServerError::InvalidUrl(_))
                },
        decreases configs@.len() - k,
    {
        let config = &configs[k];
        let ghost old_created = created;
        let ghost old_failures = registry.failures();
        if registry.get(config.id.as_str()).is_none() {
            assert(is_tried(configs@, old_created, k as int));
            match MediaServerClient::new(config.duplicate()) {
                Ok(client) => {
                    let added = registry.add(Ok(client));
                    proof {
                        created = old_created.push(true);
                    }
                    assert(added);
                },
                Err(error) => {
                    registry.note_failure(k, error);
                    proof {
                        created = old_created.push(false);
                    }
                },
            }
        } else {
            proof {
                created = old_created.push(false);
            }
        }
        proof {
            lemma_register_prefix(configs@, old_created, created, k as int);
            assert forall|m: int| 0 <= m <= k implies is_tried(configs@, created, m) == is_tried(
                configs@,
                old_created,
                m,
            ) by {
                lemma_register_prefix(configs@, old_created, created, m);
            }
            assert forall|m: int|
                0 <= m < k + 1 && is_tried(configs@, created, m) && !created[m] implies exists|j: int|
                0 <= j < registry.failures().len() && #[trigger] registry.failures()[j].0 == m by {
                if m < k {
                    let j = choose|j: int|
                        0 <= j < old_failures.len() && #[trigger] old_failures[j].0 == m;
                    assert(registry.failures()[j] == old_failures[j]);
                } else {
                    assert(registry.failures()[old_failures.len() as int].0 == m);
                }
            }
            assert forall|j: int| 0 <= j < registry.failures().len() implies {
                let (m, e) = #[trigger] registry.failures()[j];
                &&& m < k + 1
                &&& is_tried(configs@, created, m as int)
                &&& !created[m as int]
                &&& config_url_parses(configs@[m as int]) ==> (e matches MediaServerError::BuildClient(_))
                &&& !config_url_parses(configs@[m as int]) ==> (e matches MediaServerError::InvalidUrl(_))
            } by {
                if j < old_failures.len() {
                    assert(registry.failures()[j] == old_failures[j]);
                }
            }
        }
        k = k + 1;
    }
    proof {
        assert(configs@.len() == k);
        lemma_register_first_come(configs@, created, k as int);
    }
    registry
}

} // verus!
