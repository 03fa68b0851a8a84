//! Sign-in through Chrome: the session values read from iCloud traffic, the choice of
//! the page to watch, the DevTools commands sent, and the decisions of the watch loop.
use vstd::prelude::*;
use crate::api::opt_view;
use crate::models::{
    pairs_map, pairs_view, Credentials, RestoreError, DEFAULT_CLIENT_BUILD, ICLOUD_RECOVERY_URL,
};
use crate::text::{concat, contains_seq, contains_text};

verus! {

/// Port of the Chrome remote-debugging interface.
pub const DEBUG_PORT: u16 = 9222;
/// How often the launcher checks for the debugging port after starting Chrome.
pub const LAUNCH_POLL_ATTEMPTS: u64 = 8;
/// Id of the DevTools command that asks for the iCloud cookies.
pub const COOKIE_REQUEST_ID: u64 = 4;

/// The session values that an iCloud request URL carries.
#[derive(Debug, Clone)]
pub struct CapturedRequestCredentials {
    pub client_id: String,
    pub dsid: String,
    pub client_build_number: String,
    pub client_mastering_number: String,
}

/// The query pairs of a URL, decoded, in order; `None` when the text is not an absolute URL.
pub uninterp spec fn url_query_pairs_result(input: Seq<char>) -> Option<Seq<(Seq<char>, Seq<char>)>>;

/// An optional list of pairs as values.
pub open spec fn opt_pairs_view(p: Option<Vec<(String, String)>>) -> Option<Seq<(Seq<char>, Seq<char>)>> {
    match p {
        Some(v) => Some(pairs_view(v@)),
        None => None,
    }
}

/// `url::Url::parse` followed by `Url::query_pairs`: the decoded query pairs of an
/// absolute URL, or nothing when the text does not parse. The result is named, as a
/// function of the text.
#[verifier::external_body]
fn url_query_pairs(input: &str) -> (r: Option<Vec<(String, String)>>)
    ensures
        opt_pairs_view(r) == url_query_pairs_result(input@),
{
    match url::Url::parse(input) {
        Ok(u) => Some(u.query_pairs().map(|(k, v)| (k.into_owned(), v.into_owned())).collect()),
        Err(_) => None,
    }
}

/// The captured values as character sequences: client id, dsid, build, mastering.
pub open spec fn captured_view(c: CapturedRequestCredentials) -> (Seq<char>, Seq<char>, Seq<char>, Seq<char>) {
    (c.client_id@, c.dsid@, c.client_build_number@, c.client_mastering_number@)
}

/// The value of a key in a query, the last pair with that key winning.
pub open spec fn query_value(pairs: Seq<(Seq<char>, Seq<char>)>, key: Seq<char>) -> Option<Seq<char>> {
    if pairs_map(pairs).dom().contains(key) {
        Some(pairs_map(pairs)[key])
    } else {
        None
    }
}

/// The session values in a query: client id and dsid are needed; build and mastering
/// numbers default to the stock build.
pub open spec fn captured_from_query(pairs: Seq<(Seq<char>, Seq<char>)>) -> Option<(Seq<char>, Seq<char>, Seq<char>, Seq<char>)> {
    match (query_value(pairs, "clientId"@), query_value(pairs, "dsid"@)) {
        (Some(id), Some(dsid)) => Some(
            (
                id,
                dsid,
                match query_value(pairs, "clientBuildNumber"@) {
                    Some(b) => b,
                    None => DEFAULT_CLIENT_BUILD@,
                },
                match query_value(pairs, "clientMasteringNumber"@) {
                    Some(m) => m,
                    None => DEFAULT_CLIENT_BUILD@,
                },
            ),
        ),
        _ => None,
    }
}

/// An optional capture as values.
pub open spec fn opt_captured_view(c: Option<CapturedRequestCredentials>) -> Option<(Seq<char>, Seq<char>, Seq<char>, Seq<char>)> {
    match c {
        Some(c) => Some(captured_view(c)),
        None => None,
    }
}

fn same_text(a: &String, b: &str) -> (r: bool)
    ensures
        r == (a@ == b@),
{
    *a == b.to_owned()
}

/// The session values that a decoded query carries, if it carries a client id and a dsid.
pub fn credentials_from_query(pairs: &Vec<(String, String)>) -> (r: Option<CapturedRequestCredentials>)
    ensures
        opt_captured_view(r) == captured_from_query(pairs_view(pairs@)),
{
    let ghost pv = pairs_view(pairs@);
    let mut client_id: Option<String> = None;
    let mut dsid: Option<String> = None;
    let mut build: Option<String> = None;
    let mut mastering: Option<String> = None;
    let mut i: usize = 0;
    proof {
        reveal_strlit("clientId");
        reveal_strlit("dsid");
        reveal_strlit("clientBuildNumber");
        reveal_strlit("clientMasteringNumber");
    }
    while i < pairs.len()
        invariant
            i <= pairs@.len(),
            pv == pairs_view(pairs@),
            "clientId"@.len() == 8,
            "dsid"@.len() == 4,
            "clientBuildNumber"@.len() == 17,
            "clientMasteringNumber"@.len() == 21,
            opt_view(client_id) == query_value(pv.take(i as int), "clientId"@),
            opt_view(dsid) == query_value(pv.take(i as int), "dsid"@),
            opt_view(build) == query_value(pv.take(i as int), "clientBuildNumber"@),
            opt_view(mastering) == query_value(pv.take(i as int), "clientMasteringNumber"@),
        decreases pairs@.len() - i,
    {
        let ghost pre = pv.take(i as int);
        let ghost next = pv.take(i + 1);
        proof {
            assert(next.drop_last() =~= pre);
            assert(next.last() == pv[i as int]);
        }
        let key = &pairs[i].0;
        let value = &pairs[i].1;
        if same_text(key, "clientId") {
            client_id = Some(value.clone());
        } else if same_text(key, "dsid") {
            dsid = Some(value.clone());
        } else if same_text(key, "clientBuildNumber") {
            build = Some(value.clone());
        } else if same_text(key, "clientMasteringNumber") {
            mastering = Some(value.clone());
        }
        i = i + 1;
    }
    proof {
        assert(pv.take(i as int) =~= pv);
    }
    match (client_id, dsid) {
        (Some(client_id), Some(dsid)) => Some(
            CapturedRequestCredentials {
                client_id,
                dsid,
                client_build_number: match build {
                    Some(b) => b,
                    None => DEFAULT_CLIENT_BUILD.to_owned(),
                },
                client_mastering_number: match mastering {
                    Some(m) => m,
                    None => DEFAULT_CLIENT_BUILD.to_owned(),
                },
            },
        ),
        _ => None,
    }
}

/// The session values in the URL of an iCloud request: nothing for a URL that does not
/// mention `icloud.com` or does not parse; else what its query carries.
pub open spec fn captured_from_url(url: Seq<char>) -> Option<(Seq<char>, Seq<char>, Seq<char>, Seq<char>)> {
    if !contains_seq(url, "icloud.com"@) {
        None
    } else {
        match url_query_pairs_result(url) {
            None => None,
            Some(pairs) => captured_from_query(pairs),
        }
    }
}

/// The session values in the URL of an iCloud request: nothing for a URL that does not
/// mention `icloud.com` or does not parse; else what its query carries.
pub fn capture_credentials_from_url(url: &str) -> (r: Option<CapturedRequestCredentials>)
    ensures
        opt_captured_view(r) == captured_from_url(url@),
{
    if !contains_text(url, "icloud.com") {
        return None;
    }
    match url_query_pairs(url) {
        Some(pairs) => credentials_from_query(&pairs),
        None => None,
    }
}

/// A page or other target that Chrome's debugging interface lists.
#[derive(Debug, Clone)]
pub struct CdpTarget {
    pub websocket_debugger_url: Option<String>,
    pub url: Option<String>,
    pub target_type: Option<String>,
}

/// A target is a page that can be watched.
pub open spec fn is_watchable_page(t: CdpTarget) -> bool {
    opt_view(t.target_type) == Some("page"@) && t.websocket_debugger_url is Some
}

/// A watchable page that shows iCloud.
pub open spec fn is_icloud_page(t: CdpTarget) -> bool {
    is_watchable_page(t) && match opt_view(t.url) {
        Some(u) => contains_seq(u, "icloud.com"@),
        None => false,
    }
}

/// The first position at or after `i` of a target that satisfies `p`.
pub open spec fn first_target(ts: Seq<CdpTarget>, p: spec_fn(CdpTarget) -> bool, i: int) -> Option<int>
    decreases ts.len() - i,
{
    if i < 0 || i >= ts.len() {
        None
    } else if p(ts[i]) {
        Some(i)
    } else {
        first_target(ts, p, i + 1)
    }
}

/// The target to watch: the first iCloud page, else the first watchable page.
pub open spec fn chosen_target(ts: Seq<CdpTarget>) -> Option<int> {
    match first_target(ts, |t: CdpTarget| is_icloud_page(t), 0) {
        Some(i) => Some(i),
        None => first_target(ts, |t: CdpTarget| is_watchable_page(t), 0),
    }
}

/// A target as values.
pub open spec fn target_view(t: CdpTarget) -> (Option<Seq<char>>, Option<Seq<char>>, Option<Seq<char>>) {
    (opt_view(t.websocket_debugger_url), opt_view(t.url), opt_view(t.target_type))
}

fn copy_target(t: &CdpTarget) -> (r: CdpTarget)
    ensures
        target_view(r) == target_view(*t),
{
    CdpTarget {
        websocket_debugger_url: crate::api::copy_opt(&t.websocket_debugger_url),
        url: crate::api::copy_opt(&t.url),
        target_type: crate::api::copy_opt(&t.target_type),
    }
}

fn watchable(t: &CdpTarget) -> (b: bool)
    ensures
        b == is_watchable_page(*t),
{
    let is_page = match &t.target_type {
        Some(ty) => same_text(ty, "page"),
        None => false,
    };
    is_page && t.websocket_debugger_url.is_some()
}

fn icloud_page(t: &CdpTarget) -> (b: bool)
    ensures
        b == is_icloud_page(*t),
{
    watchable(t) && match &t.url {
        Some(u) => contains_text(u.as_str(), "icloud.com"),
        None => false,
    }
}

/// The page to watch for sign-in traffic: the first iCloud page, else the first
/// watchable page, else a failed connection.
pub fn pick_page_target(targets: &Vec<CdpTarget>) -> (r: Result<CdpTarget, RestoreError>)
    ensures
        match chosen_target(targets@) {
            Some(i) => r matches Ok(t) && target_view(t) == target_view(targets@[i]),
            None => r matches Err(RestoreError::ChromeConnectionFailed),
        },
{
    let ghost p1 = |t: CdpTarget| is_icloud_page(t);
    let ghost p2 = |t: CdpTarget| is_watchable_page(t);
    let mut i: usize = 0;
    while i < targets.len()
        invariant
            i <= targets@.len(),
            p1 == (|t: CdpTarget| is_icloud_page(t)),
            first_target(targets@, p1, 0) == first_target(targets@, p1, i as int),
        decreases targets@.len() - i,
    {
        if icloud_page(&targets[i]) {
            return Ok(copy_target(&targets[i]));
        }
        i = i + 1;
    }
    assert(first_target(targets@, p1, i as int) is None);
    let mut j: usize = 0;
    while j < targets.len()
        invariant
            j <= targets@.len(),
            p2 == (|t: CdpTarget| is_watchable_page(t)),
            p1 == (|t: CdpTarget| is_icloud_page(t)),
            first_target(targets@, p1, 0) is None,
            first_target(targets@, p2, 0) == first_target(targets@, p2, j as int),
        decreases targets@.len() - j,
    {
        if watchable(&targets[j]) {
            return Ok(copy_target(&targets[j]));
        }
        j = j + 1;
    }
    assert(first_target(targets@, p2, j as int) is None);
    Err(RestoreError::ChromeConnectionFailed)
}

/// One cookie that Chrome reports: its name and value where they are strings.
#[derive(Debug, Clone)]
pub struct CdpCookie {
    pub name: Option<String>,
    pub value: Option<String>,
}

/// The `name=value` text of a cookie that has both.
pub open spec fn cookie_text(c: CdpCookie) -> Option<Seq<char>> {
    match (c.name, c.value) {
        (Some(n), Some(v)) => Some(n@ + "="@ + v@),
        _ => None,
    }
}

/// The parts joined with a separator between each two.
pub open spec fn join(parts: Seq<Seq<char>>, sep: Seq<char>) -> Seq<char>
    decreases parts.len(),
{
    if parts.len() == 0 {
        Seq::empty()
    } else if parts.len() == 1 {
        parts[0]
    } else {
        join(parts.drop_last(), sep) + sep + parts.last()
    }
}

/// The cookie header for a list of cookies: the complete cookies as `name=value`,
/// joined with `; `.
pub open spec fn cookie_header(cookies: Seq<CdpCookie>) -> Seq<char> {
    join(cookies.filter_map(|c: CdpCookie| cookie_text(c)), "; "@)
}

/// The cookie header from Chrome's cookie list; without a list, an API error.
pub fn parse_cdp_cookies(cookies: Option<&Vec<CdpCookie>>) -> (r: Result<String, RestoreError>)
    ensures
        match cookies {
            None => r matches Err(RestoreError::Api(m)) && m@ == "Chrome did not return iCloud cookies."@,
            Some(list) => r matches Ok(h) && h@ == cookie_header(list@),
        },
{
    let list = match cookies {
        Some(l) => l,
        None => {
            return Err(RestoreError::Api("Chrome did not return iCloud cookies.".to_owned()));
        },
    };
    let ghost f = |c: CdpCookie| cookie_text(c);
    let mut header = String::new();
    let mut count: usize = 0;
    let mut i: usize = 0;
    while i < list.len()
        invariant
            i <= list@.len(),
            f == (|c: CdpCookie| cookie_text(c)),
            header@ == join(list@.take(i as int).filter_map(f), "; "@),
            count == 0 <==> list@.take(i as int).filter_map(f).len() == 0,
        decreases list@.len() - i,
    {
        proof {
            list@.lemma_filter_map_take_succ(f, i as int);
        }
        let ghost parts = list@.take(i as int).filter_map(f);
        match (&list[i].name, &list[i].value) {
            (Some(n), Some(v)) => {
                let pair = concat(concat(n.as_str(), "=").as_str(), v.as_str());
                if count == 0 {
                    header = pair;
                    proof {
                        assert(parts =~= Seq::<Seq<char>>::empty());
                        assert(parts.push(pair@) =~= seq![pair@]);
                    }
                } else {
                    header = concat(concat(header.as_str(), "; ").as_str(), pair.as_str());
                    proof {
                        assert(parts.push(pair@).drop_last() =~= parts);
                    }
                }
                count = 1;
                proof {
                    assert(parts + seq![pair@] =~= parts.push(pair@));
                }
            },
            _ => {
                proof {
                    assert(parts + Seq::<Seq<char>>::empty() =~= parts);
                }
            },
        }
        i = i + 1;
    }
    proof {
        assert(list@.take(i as int) =~= list@);
    }
    Ok(header)
}

/// Parameters of a DevTools command.
#[derive(Debug, Clone)]
pub enum CdpParams {
    /// `{}`
    Empty,
    /// `{"url": url}`
    Navigate { url: String },
    /// `{"urls": urls}`
    GetCookies { urls: Vec<String> },
}

/// A DevTools command: `{"id": id, "method": method, "params": params}`.
#[derive(Debug, Clone)]
pub struct CdpCommand {
    pub id: u64,
    pub method: String,
    pub params: CdpParams,
}

/// The command has this id, method and parameter shape.
pub open spec fn command_is(c: CdpCommand, id: u64, method: Seq<char>) -> bool {
    c.id == id && c.method@ == method
}

/// The commands that prepare a page for watching: enable network and page events, then
/// open the recovery page, or reload it when the page already shows iCloud.
pub fn login_setup_commands(target_url: Option<&str>) -> (cmds: Vec<CdpCommand>)
    ensures
        cmds@.len() == 3,
        command_is(cmds@[0], 1, "Network.enable"@) && cmds@[0].params is Empty,
        command_is(cmds@[1], 2, "Page.enable"@) && cmds@[1].params is Empty,
        ({
            let shows_icloud = match target_url {
                Some(u) => contains_seq(u@, "icloud.com"@),
                None => false,
            };
            &&& !shows_icloud ==> command_is(cmds@[2], 3, "Page.navigate"@) && (
            cmds@[2].params matches CdpParams::Navigate { url } && url@ == ICLOUD_RECOVERY_URL@)
            &&& shows_icloud ==> command_is(cmds@[2], 3, "Page.reload"@)
                && cmds@[2].params is Empty
        }),
{
    let mut cmds: Vec<CdpCommand> = Vec::new();
    cmds.push(CdpCommand { id: 1, method: "Network.enable".to_owned(), params: CdpParams::Empty });
    cmds.push(CdpCommand { id: 2, method: "Page.enable".to_owned(), params: CdpParams::Empty });
    let shows_icloud = match target_url {
        Some(u) => contains_text(u, "icloud.com"),
        None => false,
    };
    if !shows_icloud {
        cmds.push(
            CdpCommand {
                id: 3,
                method: "Page.navigate".to_owned(),
                params: CdpParams::Navigate { url: ICLOUD_RECOVERY_URL.to_owned() },
            },
        );
    } else {
        cmds.push(CdpCommand { id: 3, method: "Page.reload".to_owned(), params: CdpParams::Empty });
    }
    cmds
}

/// The command that asks for the iCloud cookies.
pub fn cookie_request() -> (c: CdpCommand)
    ensures
        command_is(c, COOKIE_REQUEST_ID, "Network.getCookies"@),
        c.params matches CdpParams::GetCookies { urls } && urls.deep_view() == seq![
            "https://www.icloud.com"@,
        ],
{
    let mut urls: Vec<String> = Vec::new();
    urls.push("https://www.icloud.com".to_owned());
    assert(urls.deep_view() =~= seq!["https://www.icloud.com"@]);
    CdpCommand {
        id: COOKIE_REQUEST_ID,
        method: "Network.getCookies".to_owned(),
        params: CdpParams::GetCookies { urls },
    }
}

/// What the sign-in watch reads of one DevTools text message.
#[derive(Debug, Clone)]
pub struct CdpMessage {
    /// The message's `id`, when it is an unsigned integer.
    pub id: Option<u64>,
    /// The string at `params.request.url`, if any.
    pub request_url: Option<String>,
    /// The list at `result.cookies`, if any.
    pub cookies: Option<Vec<CdpCookie>>,
}

/// Where the watch goes after a message.
#[derive(Debug)]
pub enum WatchStep {
    /// Wait for the next message.
    Continue,
    /// Sign-in is complete with these credentials.
    Done(Credentials),
    /// Stop with this error.
    Fail(RestoreError),
}

/// What the watch does after a message: first send `send`, if any, then go on as `next`
/// says.
#[derive(Debug)]
pub struct WatchAction {
    pub send: Option<CdpCommand>,
    pub next: WatchStep,
}

/// The sign-in watch: the session values captured so far and the id of the cookie
/// request, once sent.
#[derive(Debug)]
pub struct LoginWatch {
    captured: Option<CapturedRequestCredentials>,
    cookie_request_id: Option<u64>,
}

impl LoginWatch {
    /// A watch that has captured nothing.
    pub fn new() -> (w: Self)
        ensures
            w.captured() is None,
            w.cookie_request_id() is None,
    {
        LoginWatch { captured: None, cookie_request_id: None }
    }

    /// The session values captured so far.
    pub closed spec fn captured(&self) -> Option<(Seq<char>, Seq<char>, Seq<char>, Seq<char>)> {
        opt_captured_view(self.captured)
    }

    /// The id of the cookie request, once sent.
    pub closed spec fn cookie_request_id(&self) -> Option<u64> {
        self.cookie_request_id
    }

    /// Handles one message. Before anything is captured, a request URL is searched for
    /// session values; when found, the cookie request is to be sent. Then, a message that
    /// carries the cookie request's id is read as the cookie reply: without a cookie list
    /// the watch fails; with one, and with captured values, sign-in is complete. Events,
    /// which carry no id, and any other message leave the watch waiting.
    pub fn on_message(&mut self, message: &CdpMessage) -> (action: WatchAction)
        ensures
            ({
                let looked = old(self).captured() is None && message.request_url is Some;
                let cap = if looked {
                    captured_from_url(message.request_url->0@)
                } else {
                    old(self).captured()
                };
                let captures = looked && cap is Some;
                let req = if captures { Some(COOKIE_REQUEST_ID) } else { old(self).cookie_request_id() };
                let reply = message.id is Some && message.id == req;
                &&& final(self).captured() == cap
                &&& final(self).cookie_request_id() == req
                &&& captures ==> (action.send matches Some(c) && command_is(
                    c,
                    COOKIE_REQUEST_ID,
                    "Network.getCookies"@,
                ) && (c.params matches CdpParams::GetCookies { urls } && urls.deep_view() == seq![
                    "https://www.icloud.com"@,
                ]))
                &&& !captures ==> action.send is None
                &&& (reply && message.cookies is None) ==> (
                action.next matches WatchStep::Fail(RestoreError::Api(m)) && m@
                    == "Chrome did not return iCloud cookies."@)
                &&& (reply && message.cookies is Some && cap is Some) ==> (
                action.next matches WatchStep::Done(c) && c.cookies@ == cookie_header(message.cookies->0@)
                    && (c.client_id@, c.dsid@, c.client_build_number@, c.client_mastering_number@)
                    == cap->0)
                &&& !(reply && (message.cookies is None || cap is Some)) ==> action.next is Continue
            }),
    {
        let mut send: Option<CdpCommand> = None;
        if self.captured.is_none() {
            match &message.request_url {
                Some(url) => {
                    self.captured = capture_credentials_from_url(url.as_str());
                    if self.captured.is_some() {
                        self.cookie_request_id = Some(COOKIE_REQUEST_ID);
                        send = Some(cookie_request());
                    }
                },
                None => {},
            }
        }
        let reply = match (message.id, self.cookie_request_id) {
            (Some(id), Some(expected)) => id == expected,
            _ => false,
        };
        if reply {
            let cookies = match parse_cdp_cookies(message.cookies.as_ref()) {
                Ok(h) => h,
                Err(e) => {
                    return WatchAction { send, next: WatchStep::Fail(e) };
                },
            };
            match &self.captured {
                Some(c) => {
                    let credentials = Credentials {
                        cookies,
                        client_id: c.client_id.clone(),
                        dsid: c.dsid.clone(),
                        client_build_number: c.client_build_number.clone(),
                        client_mastering_number: c.client_mastering_number.clone(),
                    };
                    return WatchAction { send, next: WatchStep::Done(credentials) };
                },
                None => {},
            }
        }
        WatchAction { send, next: WatchStep::Continue }
    }
}

/// The arguments that start Chrome for sign-in: the debugging port, a fresh profile
/// directory, no first-run dialogs, and the recovery page.
pub fn chrome_launch_args(profile_dir: &str) -> (args: Vec<String>)
    ensures
        args.deep_view() == seq![
            "--remote-debugging-port=9222"@,
            "--user-data-dir="@ + profile_dir@,
            "--no-first-run"@,
            ICLOUD_RECOVERY_URL@,
        ],
{
    let mut args: Vec<String> = Vec::new();
    args.push("--remote-debugging-port=9222".to_owned());
    args.push(concat("--user-data-dir=", profile_dir));
    args.push("--no-first-run".to_owned());
    args.push(ICLOUD_RECOVERY_URL.to_owned());
    assert(args.deep_view() =~= seq![
        "--remote-debugging-port=9222"@,
        "--user-data-dir="@ + profile_dir@,
        "--no-first-run"@,
        ICLOUD_RECOVERY_URL@,
    ]);
    args
}

/// Milliseconds to wait before check number `attempt` (from zero) for the debugging port.
pub fn launch_poll_delay_ms(attempt: u64) -> (ms: u64)
    requires
        attempt < LAUNCH_POLL_ATTEMPTS,
    ensures
        ms == 500 + attempt * 250,
{
    500 + attempt * 250
}

} // verus!
