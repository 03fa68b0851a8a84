//! Data model shared by the scan, restore and session logic.
use vstd::prelude::*;
use crate::text::{concat, law_text_less_order, push_char, text_less, text_less_exec};

verus! {

/// Page that the sign-in browser opens.
pub const ICLOUD_RECOVERY_URL: &'static str = "https://www.icloud.com/recovery/";
/// Client build number sent when the sign-in traffic did not reveal one.
pub const DEFAULT_CLIENT_BUILD: &'static str = "2546Build54";
/// Endpoint of the local Chrome remote-debugging interface.
pub const CHROME_DEBUG_URL: &'static str = "http://127.0.0.1:9222";
/// Items restored per request.
pub const DEFAULT_RESTORE_BATCH_SIZE: usize = 100;
/// Items listed per page of the deleted-items scan.
pub const DEFAULT_FETCH_PAGE_SIZE: usize = 2000;
/// Attempts made for one batch before it is counted as failed.
pub const DEFAULT_MAX_RETRIES: usize = 5;

/// The decimal digit character for `d < 10`.
pub open spec fn digit_char(d: nat) -> char {
    if d == 0 { '0' }
    else if d == 1 { '1' }
    else if d == 2 { '2' }
    else if d == 3 { '3' }
    else if d == 4 { '4' }
    else if d == 5 { '5' }
    else if d == 6 { '6' }
    else if d == 7 { '7' }
    else if d == 8 { '8' }
    else { '9' }
}

/// Decimal notation of a natural number, without leading zeros.
pub open spec fn decimal(n: nat) -> Seq<char>
    decreases n,
{
    if n < 10 {
        seq![digit_char(n)]
    } else {
        decimal(n / 10).push(digit_char(n % 10))
    }
}

fn digit(d: usize) -> (c: char)
    requires
        d < 10,
    ensures
        c == digit_char(d as nat),
{
    match d {
        0 => '0',
        1 => '1',
        2 => '2',
        3 => '3',
        4 => '4',
        5 => '5',
        6 => '6',
        7 => '7',
        8 => '8',
        _ => '9',
    }
}

/// Decimal rendering of a count, as `usize::to_string` gives it.
pub fn decimal_text(n: usize) -> (s: String)
    ensures
        s@ == decimal(n as nat),
    decreases n,
{
    if n < 10 {
        let mut s = String::new();
        push_char(&mut s, digit(n));
        assert(s@ =~= seq![digit_char(n as nat)]);
        s
    } else {
        let mut s = decimal_text(n / 10);
        push_char(&mut s, digit(n % 10));
        s
    }
}

/// The map that a list of key/value pairs denotes; a later pair wins over an earlier one.
pub open spec fn pairs_map(pairs: Seq<(Seq<char>, Seq<char>)>) -> Map<Seq<char>, Seq<char>>
    decreases pairs.len(),
{
    if pairs.len() == 0 {
        Map::empty()
    } else {
        pairs_map(pairs.drop_last()).insert(pairs.last().0, pairs.last().1)
    }
}

/// No key occurs twice in the list.
pub open spec fn keys_distinct(pairs: Seq<(Seq<char>, Seq<char>)>) -> bool {
    forall|i: int, j: int| 0 <= i < j < pairs.len() ==> pairs[i].0 != pairs[j].0
}

/// The keys come one after another in strictly increasing text order, as a `BTreeMap`
/// of strings keeps and walks them.
pub open spec fn keys_sorted(pairs: Seq<(Seq<char>, Seq<char>)>) -> bool {
    forall|i: int, j: int| 0 <= i < j < pairs.len() ==> text_less(#[trigger] pairs[i].0, #[trigger] pairs[j].0)
}

/// Keys in increasing order are distinct.
pub proof fn lemma_sorted_keys_distinct(pairs: Seq<(Seq<char>, Seq<char>)>)
    requires
        keys_sorted(pairs),
    ensures
        keys_distinct(pairs),
{
    assert forall|i: int, j: int| 0 <= i < j < pairs.len() implies pairs[i].0 != pairs[j].0 by {
        law_text_less_order(pairs[i].0, pairs[j].0, pairs[j].0);
    }
}

/// With distinct keys, the map gives each pair's value under its key, and holds no
/// other key.
pub proof fn lemma_pairs_map_lookup(pairs: Seq<(Seq<char>, Seq<char>)>)
    requires
        keys_distinct(pairs),
    ensures
        forall|j: int| 0 <= j < pairs.len() ==> #[trigger] pairs_map(pairs).dom().contains(pairs[j].0)
            && pairs_map(pairs)[pairs[j].0] == pairs[j].1,
        forall|k: Seq<char>| #[trigger] pairs_map(pairs).dom().contains(k) ==> exists|j: int|
            0 <= j < pairs.len() && pairs[j].0 == k,
    decreases pairs.len(),
{
    if pairs.len() > 0 {
        let p = pairs.drop_last();
        lemma_pairs_map_lookup(p);
        assert forall|j: int| 0 <= j < pairs.len() implies #[trigger] pairs_map(pairs).dom().contains(
            pairs[j].0,
        ) && pairs_map(pairs)[pairs[j].0] == pairs[j].1 by {
            if j < pairs.len() - 1 {
                assert(p[j] == pairs[j]);
                assert(pairs_map(p).dom().contains(p[j].0));
                assert(pairs[j].0 != pairs[pairs.len() - 1].0);
            }
        }
        assert forall|k: Seq<char>| #[trigger] pairs_map(pairs).dom().contains(k) implies exists|j: int|
            0 <= j < pairs.len() && pairs[j].0 == k by {
            if k != pairs.last().0 {
                assert(pairs_map(p).dom().contains(k));
                let j = choose|j: int| 0 <= j < p.len() && p[j].0 == k;
                assert(pairs[j] == p[j]);
            } else {
                assert(pairs[pairs.len() - 1].0 == k);
            }
        }
    }
}

/// Two key-sorted lists that denote the same map are the same list: the order of the
/// parameters is fixed by what they are.
pub proof fn law_sorted_pairs_unique(p: Seq<(Seq<char>, Seq<char>)>, q: Seq<(Seq<char>, Seq<char>)>)
    requires
        keys_sorted(p),
        keys_sorted(q),
        pairs_map(p) == pairs_map(q),
    ensures
        p == q,
    decreases p.len(),
{
    lemma_sorted_keys_distinct(p);
    lemma_sorted_keys_distinct(q);
    lemma_pairs_map_lookup(p);
    lemma_pairs_map_lookup(q);
    if p.len() == 0 {
        if q.len() > 0 {
            assert(pairs_map(q).dom().contains(q[0].0));
        }
        assert(p =~= q);
    } else if q.len() == 0 {
        assert(pairs_map(p).dom().contains(p[0].0));
    } else {
        let kp = p.last().0;
        let kq = q.last().0;
        assert(pairs_map(p).dom().contains(p[p.len() - 1].0));
        assert(pairs_map(q).dom().contains(q[q.len() - 1].0));
        let jq = choose|j: int| 0 <= j < q.len() && q[j].0 == kp;
        let jp = choose|j: int| 0 <= j < p.len() && p[j].0 == kq;
        if jq < q.len() - 1 {
            assert(text_less(q[jq].0, q[q.len() - 1].0));
        }
        if jp < p.len() - 1 {
            assert(text_less(p[jp].0, p[p.len() - 1].0));
        }
        law_text_less_order(kp, kq, kp);
        assert(kp == kq);
        let p1 = p.drop_last();
        let q1 = q.drop_last();
        assert(keys_sorted(p1)) by {
            assert forall|i: int, j: int| 0 <= i < j < p1.len() implies text_less(#[trigger] p1[i].0, #[trigger] p1[j].0) by {
                assert(p1[i] == p[i] && p1[j] == p[j]);
            }
        }
        assert(keys_sorted(q1)) by {
            assert forall|i: int, j: int| 0 <= i < j < q1.len() implies text_less(#[trigger] q1[i].0, #[trigger] q1[j].0) by {
                assert(q1[i] == q[i] && q1[j] == q[j]);
            }
        }
        lemma_sorted_keys_distinct(p1);
        lemma_sorted_keys_distinct(q1);
        lemma_pairs_map_lookup(p1);
        lemma_pairs_map_lookup(q1);
        assert(!pairs_map(p1).dom().contains(kp)) by {
            if pairs_map(p1).dom().contains(kp) {
                let j = choose|j: int| 0 <= j < p1.len() && p1[j].0 == kp;
                assert(p[j].0 == p[p.len() - 1].0);
            }
        }
        assert(!pairs_map(q1).dom().contains(kq)) by {
            if pairs_map(q1).dom().contains(kq) {
                let j = choose|j: int| 0 <= j < q1.len() && q1[j].0 == kq;
                assert(q[j].0 == q[q.len() - 1].0);
            }
        }
        assert(pairs_map(p1) =~= pairs_map(p).remove(kp));
        assert(pairs_map(q1) =~= pairs_map(q).remove(kq));
        law_sorted_pairs_unique(p1, q1);
        assert(p.last() == q.last());
        assert(p =~= p1.push(p.last()));
        assert(q =~= q1.push(q.last()));
    }
}

/// The list of pairs as plain character sequences.
pub open spec fn pairs_view(pairs: Seq<(String, String)>) -> Seq<(Seq<char>, Seq<char>)> {
    pairs.map_values(|p: (String, String)| (p.0@, p.1@))
}

proof fn lemma_pairs_map_update(pairs: Seq<(Seq<char>, Seq<char>)>, i: int, v: Seq<char>)
    requires
        keys_distinct(pairs),
        0 <= i < pairs.len(),
    ensures
        pairs_map(pairs.update(i, (pairs[i].0, v))) == pairs_map(pairs).insert(pairs[i].0, v),
    decreases pairs.len(),
{
    let k = pairs[i].0;
    let q = pairs.update(i, (k, v));
    if i == pairs.len() - 1 {
        assert(q.drop_last() =~= pairs.drop_last());
        assert(pairs_map(q) =~= pairs_map(pairs).insert(k, v));
    } else {
        let p = pairs.drop_last();
        assert(q.drop_last() =~= p.update(i, (k, v)));
        lemma_pairs_map_update(p, i, v);
        assert(pairs.last().0 != k);
        assert(pairs_map(q) =~= pairs_map(pairs).insert(k, v));
    }
}

/// A message for the user interface: a message id and named parameters.
#[derive(Debug)]
pub struct UiMessage {
    id: String,
    params: Vec<(String, String)>,
}

impl UiMessage {
    #[verifier::type_invariant]
    spec fn inv(self) -> bool {
        keys_sorted(pairs_view(self.params@))
    }

    /// The message id.
    pub closed spec fn spec_id(self) -> Seq<char> {
        self.id@
    }

    /// The parameters, by name.
    pub closed spec fn param_map(self) -> Map<Seq<char>, Seq<char>> {
        pairs_map(pairs_view(self.params@))
    }

    /// The parameters in increasing order of their keys.
    pub closed spec fn param_list(self) -> Seq<(Seq<char>, Seq<char>)> {
        pairs_view(self.params@)
    }

    /// A message with the given id and no parameters.
    pub fn new(id: &str) -> (m: Self)
        ensures
            m.spec_id() == id@,
            m.param_map() == Map::<Seq<char>, Seq<char>>::empty(),
            m.param_list().len() == 0,
    {
        let m = UiMessage { id: id.to_owned(), params: Vec::new() };
        assert(pairs_view(m.params@) =~= Seq::empty());
        m
    }

    /// The same message with the parameter `key` set to `value`; an earlier value of
    /// `key` is replaced.
    pub fn with_param(self, key: &str, value: &str) -> (m: Self)
        ensures
            m.spec_id() == self.spec_id(),
            m.param_map() == self.param_map().insert(key@, value@),
    {
        proof {
            use_type_invariant(&self);
        }
        let UiMessage { id, params } = self;
        let ghost old_view = pairs_view(params@);
        proof {
            lemma_sorted_keys_distinct(old_view);
            lemma_pairs_map_lookup(old_view);
        }
        let mut params = params;
        let key_text = key.to_owned();
        let mut i: usize = 0;
        while i < params.len()
            invariant
                params@ == self.params@,
                id@ == self.id@,
                key_text@ == key@,
                old_view == pairs_view(params@),
                keys_sorted(old_view),
                keys_distinct(old_view),
                i <= params.len(),
                forall|j: int| 0 <= j < i ==> text_less(#[trigger] old_view[j].0, key@),
            decreases params.len() - i,
        {
            if params[i].0 == key_text {
                let entry = (params[i].0.clone(), value.to_owned());
                params.set(i, entry);
                proof {
                    let nv = pairs_view(params@);
                    assert(nv =~= old_view.update(i as int, (old_view[i as int].0, value@)));
                    lemma_pairs_map_update(old_view, i as int, value@);
                    assert forall|a: int, b: int| 0 <= a < b < nv.len() implies text_less(
                        #[trigger] nv[a].0,
                        #[trigger] nv[b].0,
                    ) by {
                        assert(nv[a].0 == old_view[a].0 && nv[b].0 == old_view[b].0);
                    }
                }
                return UiMessage { id, params };
            }
            if text_less_exec(key, params[i].0.as_str()) {
                let ghost at = i as int;
                params.insert(i, (key_text, value.to_owned()));
                proof {
                    let nv = pairs_view(params@);
                    lemma_pairs_map_lookup(old_view);
                    assert(nv =~= old_view.insert(at, (key@, value@)));
                    assert forall|a: int, b: int| 0 <= a < b < nv.len() implies text_less(
                        #[trigger] nv[a].0,
                        #[trigger] nv[b].0,
                    ) by {
                        if b < at {
                            assert(nv[a] == old_view[a] && nv[b] == old_view[b]);
                        } else if b == at {
                            assert(nv[a] == old_view[a]);
                        } else if a == at {
                            assert(nv[b] == old_view[b - 1]);
                            if b - 1 > at {
                                law_text_less_order(key@, old_view[at].0, old_view[b - 1].0);
                            }
                        } else if a < at {
                            assert(nv[a] == old_view[a] && nv[b] == old_view[b - 1]);
                            law_text_less_order(old_view[a].0, key@, old_view[at].0);
                            if b - 1 > at {
                                law_text_less_order(old_view[a].0, old_view[at].0, old_view[b - 1].0);
                            }
                        } else {
                            assert(nv[a] == old_view[a - 1] && nv[b] == old_view[b - 1]);
                        }
                    }
                    lemma_sorted_keys_distinct(nv);
                    lemma_pairs_map_lookup(nv);
                    assert forall|j: int| 0 <= j < old_view.len() implies #[trigger] old_view[j].0 != key@ by {
                        if j < at {
                            law_text_less_order(old_view[j].0, key@, key@);
                        } else {
                            if j > at {
                                law_text_less_order(key@, old_view[at].0, old_view[j].0);
                            }
                            law_text_less_order(key@, old_view[j].0, key@);
                        }
                    }
                    assert forall|k: Seq<char>| #[trigger] pairs_map(nv).dom().contains(k) <==> pairs_map(
                        old_view,
                    ).insert(key@, value@).dom().contains(k) by {
                        if pairs_map(nv).dom().contains(k) {
                            let j = choose|j: int| 0 <= j < nv.len() && nv[j].0 == k;
                            if j > at {
                                assert(nv[j] == old_view[j - 1]);
                            } else if j < at {
                                assert(nv[j] == old_view[j]);
                            }
                        }
                        if pairs_map(old_view).dom().contains(k) {
                            let j = choose|j: int| 0 <= j < old_view.len() && old_view[j].0 == k;
                            if j >= at {
                                assert(nv[j + 1] == old_view[j]);
                            } else {
                                assert(nv[j] == old_view[j]);
                            }
                        }
                        if k == key@ {
                            assert(nv[at].0 == key@);
                        }
                    }
                    assert forall|k: Seq<char>| #[trigger] pairs_map(nv).dom().contains(k) implies pairs_map(
                        nv,
                    )[k] == pairs_map(old_view).insert(key@, value@)[k] by {
                        let j = choose|j: int| 0 <= j < nv.len() && nv[j].0 == k;
                        if j > at {
                            assert(nv[j] == old_view[j - 1]);
                        } else if j < at {
                            assert(nv[j] == old_view[j]);
                        }
                    }
                    assert(pairs_map(nv) =~= pairs_map(old_view).insert(key@, value@));
                }
                return UiMessage { id, params };
            }
            proof {
                law_text_less_order(key@, old_view[i as int].0, key@);
            }
            i = i + 1;
        }
        params.push((key_text, value.to_owned()));
        proof {
            let nv = pairs_view(params@);
            assert(nv.drop_last() =~= old_view);
            assert(nv.last() == (key@, value@));
            assert forall|a: int, b: int| 0 <= a < b < nv.len() implies text_less(
                #[trigger] nv[a].0,
                #[trigger] nv[b].0,
            ) by {
                assert(nv[a] == old_view[a]);
                if b < nv.len() - 1 {
                    assert(nv[b] == old_view[b]);
                }
            }
        }
        UiMessage { id, params }
    }

    /// The message id as a string.
    pub fn id(&self) -> (r: String)
        ensures
            r@ == self.spec_id(),
    {
        self.id.clone()
    }

    /// The parameters, each set key once, in increasing order of their keys (the order in
    /// which a `BTreeMap` of strings walks them).
    pub fn params(&self) -> (r: Vec<(String, String)>)
        ensures
            pairs_view(r@) == self.param_list(),
            keys_sorted(pairs_view(r@)),
            keys_distinct(pairs_view(r@)),
            pairs_map(pairs_view(r@)) == self.param_map(),
    {
        proof {
            use_type_invariant(self);
            lemma_sorted_keys_distinct(pairs_view(self.params@));
        }
        let mut r: Vec<(String, String)> = Vec::new();
        let mut i: usize = 0;
        while i < self.params.len()
            invariant
                i <= self.params@.len(),
                pairs_view(r@) == pairs_view(self.params@).subrange(0, i as int),
            decreases self.params@.len() - i,
        {
            let p = (self.params[i].0.clone(), self.params[i].1.clone());
            let ghost before = r@;
            r.push(p);
            proof {
                assert(r@ == before.push(p));
                assert(pairs_view(r@) =~= pairs_view(before).push((p.0@, p.1@)));
                assert(pairs_view(self.params@).subrange(0, i + 1) =~= pairs_view(
                    self.params@,
                ).subrange(0, i as int).push((p.0@, p.1@)));
            }
            i = i + 1;
        }
        assert(pairs_view(self.params@).subrange(0, i as int) =~= pairs_view(self.params@));
        r
    }
}

impl Clone for UiMessage {
    fn clone(&self) -> (r: Self)
        ensures
            r.spec_id() == self.spec_id(),
            r.param_list() == self.param_list(),
            r.param_map() == self.param_map(),
    {
        let params = self.params();
        UiMessage { id: self.id(), params }
    }
}

/// An HTTP status that means the iCloud session is no longer accepted.
pub open spec fn is_auth_status_spec(status: u16) -> bool {
    status == 401 || status == 403 || status == 421
}

/// Whether an HTTP status means the iCloud session is no longer accepted.
pub fn is_auth_status(status: u16) -> (r: bool)
    ensures
        r == is_auth_status_spec(status),
{
    status == 401 || status == 403 || status == 421
}

/// Why a sign-in, scan or restore step could not go on.
#[derive(Debug, Clone)]
pub enum RestoreError {
    ChromeMissing,
    ChromeLaunchFailed,
    ChromeConnectionFailed,
    LoginTimeout,
    AuthExpired,
    ProgressCorrupt(String),
    Api(String),
    Network(String),
    File(String),
    MissingCredentials,
    MissingScan,
    Cancelled,
    ScanCancelled,
}

/// The message id that the user interface shows for an error.
pub open spec fn error_id(e: RestoreError) -> Seq<char> {
    match e {
        RestoreError::ChromeMissing => "error.chromeMissing"@,
        RestoreError::ChromeLaunchFailed => "error.chromeLaunchFailed"@,
        RestoreError::ChromeConnectionFailed => "error.chromeConnectionFailed"@,
        RestoreError::LoginTimeout => "error.loginTimeout"@,
        RestoreError::AuthExpired => "error.authExpired"@,
        RestoreError::ProgressCorrupt(_) => "error.progressCorrupt"@,
        RestoreError::Api(_) => "error.api"@,
        RestoreError::Network(_) => "error.network"@,
        RestoreError::File(_) => "error.file"@,
        RestoreError::MissingCredentials => "error.missingCredentials"@,
        RestoreError::MissingScan => "error.missingScan"@,
        RestoreError::Cancelled => "error.cancelled"@,
        RestoreError::ScanCancelled => "error.scanCancelled"@,
    }
}

/// The technical details that an error carries, if any.
pub open spec fn error_details(e: RestoreError) -> Option<Seq<char>> {
    match e {
        RestoreError::ProgressCorrupt(d) => Some(d@),
        RestoreError::Api(d) => Some(d@),
        RestoreError::Network(d) => Some(d@),
        RestoreError::File(d) => Some(d@),
        _ => None,
    }
}

/// The parameters of an error's message: `details` where the error carries details.
pub open spec fn error_params(e: RestoreError) -> Map<Seq<char>, Seq<char>> {
    match error_details(e) {
        Some(d) => Map::<Seq<char>, Seq<char>>::empty().insert("details"@, d),
        None => Map::<Seq<char>, Seq<char>>::empty(),
    }
}

impl RestoreError {
    /// The user-interface message for this error.
    pub fn message(&self) -> (m: UiMessage)
        ensures
            m.spec_id() == error_id(*self),
            m.param_map() == error_params(*self),
    {
        match self {
            RestoreError::ChromeMissing => UiMessage::new("error.chromeMissing"),
            RestoreError::ChromeLaunchFailed => UiMessage::new("error.chromeLaunchFailed"),
            RestoreError::ChromeConnectionFailed => UiMessage::new("error.chromeConnectionFailed"),
            RestoreError::LoginTimeout => UiMessage::new("error.loginTimeout"),
            RestoreError::AuthExpired => UiMessage::new("error.authExpired"),
            RestoreError::ProgressCorrupt(d) => UiMessage::new("error.progressCorrupt").with_param(
                "details",
                d.as_str(),
            ),
            RestoreError::Api(d) => UiMessage::new("error.api").with_param("details", d.as_str()),
            RestoreError::Network(d) => UiMessage::new("error.network").with_param(
                "details",
                d.as_str(),
            ),
            RestoreError::File(d) => UiMessage::new("error.file").with_param("details", d.as_str()),
            RestoreError::MissingCredentials => UiMessage::new("error.missingCredentials"),
            RestoreError::MissingScan => UiMessage::new("error.missingScan"),
            RestoreError::Cancelled => UiMessage::new("error.cancelled"),
            RestoreError::ScanCancelled => UiMessage::new("error.scanCancelled"),
        }
    }

    /// The error that a failed HTTP exchange stands for: an expired session for the
    /// statuses 401, 403 and 421, else a network error with the failure's description.
    pub fn from_http_failure(status: Option<u16>, description: String) -> (e: RestoreError)
        ensures
            (status matches Some(s) && is_auth_status_spec(s)) ==> e is AuthExpired,
            !(status matches Some(s) && is_auth_status_spec(s)) ==> e == RestoreError::Network(
                description,
            ),
    {
        match status {
            Some(s) => {
                if is_auth_status(s) {
                    return RestoreError::AuthExpired;
                }
            },
            None => {},
        }
        RestoreError::Network(description)
    }

    /// The same error with a technical detail attached: a failed Chrome connection
    /// becomes an API error that names the detail; any other error is kept as it is.
    pub fn with_detail(self, detail: &str) -> (e: RestoreError)
        ensures
            self is ChromeConnectionFailed ==> (e matches RestoreError::Api(m) && m@
                == "Chrome connection failed: "@ + detail@),
            !(self is ChromeConnectionFailed) ==> e == self,
    {
        match self {
            RestoreError::ChromeConnectionFailed => RestoreError::Api(
                concat("Chrome connection failed: ", detail),
            ),
            other => other,
        }
    }
}

/// The session that the signed-in browser revealed, sent with every iCloud request.
#[derive(Debug, Clone)]
pub struct Credentials {
    pub cookies: String,
    pub client_id: String,
    pub dsid: String,
    pub client_build_number: String,
    pub client_mastering_number: String,
}

impl Credentials {
    /// Credentials with the default client build and mastering numbers.
    pub fn new(cookies: String, client_id: String, dsid: String) -> (c: Self)
        ensures
            c.cookies == cookies,
            c.client_id == client_id,
            c.dsid == dsid,
            c.client_build_number@ == DEFAULT_CLIENT_BUILD@,
            c.client_mastering_number@ == DEFAULT_CLIENT_BUILD@,
    {
        Credentials {
            cookies,
            client_id,
            dsid,
            client_build_number: DEFAULT_CLIENT_BUILD.to_owned(),
            client_mastering_number: DEFAULT_CLIENT_BUILD.to_owned(),
        }
    }
}

/// One recently deleted iCloud Drive item.
#[derive(Debug, Clone)]
pub struct DeletedItem {
    pub item_id: String,
    pub name: Option<String>,
    pub item_type: Option<String>,
}

/// Counts of a finished restore.
#[derive(Debug, Clone)]
pub struct RestoreStats {
    pub total: usize,
    pub restored: usize,
    pub failed: usize,
    pub failed_ids: Vec<String>,
}

impl Default for RestoreStats {
    fn default() -> (s: Self)
        ensures
            s.total == 0 && s.restored == 0 && s.failed == 0 && s.failed_ids@.len() == 0,
    {
        RestoreStats { total: 0, restored: 0, failed: 0, failed_ids: Vec::new() }
    }
}

/// What the user interface is told while a session runs.
#[derive(Debug, Clone)]
pub enum RestoreEvent {
    Status { message: UiMessage },
    AuthStarted,
    Authenticated,
    ScanProgress { page: u64, page_count: usize, total: usize },
    ScanComplete { total: usize },
    ScanPaused { partial_total: usize },
    RestoreStarted { total: usize },
    RestoreProgress {
        total: usize,
        restored: usize,
        failed: usize,
        eta_seconds: Option<u64>,
        message: UiMessage,
    },
    Retry { batch_number: usize, attempt: usize, message: UiMessage },
    Paused { message: UiMessage },
    Complete { stats: RestoreStats },
    Error { message: UiMessage, recoverable: bool },
}

/// The step of the recovery flow that the user is at.
#[derive(Debug, Clone, Copy, PartialEq, Eq, Structural)]
pub enum AppPhase {
    Welcome,
    SigningIn,
    ReadyToScan,
    Scanning,
    ReadyToRestore,
    Restoring,
    Paused,
    Complete,
    Error,
}

/// What the user interface shows of a session.
#[derive(Debug, Clone)]
pub struct UiSnapshot {
    pub phase: AppPhase,
    pub deleted_count: usize,
    pub stats: RestoreStats,
    pub message: UiMessage,
    pub can_resume: bool,
}

} // verus!
