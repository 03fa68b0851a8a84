//! The user's session: which step of the recovery flow it is at, what the user
//! interface shows of it, and how each command changes it.
use vstd::prelude::*;
use crate::checkpoint::RestoreProgress;
use crate::ids::copy_ids;
use crate::job::CancellationToken;
use crate::models::{
    decimal, decimal_text, error_id, error_params, pairs_map, pairs_view, AppPhase,
    Credentials, RestoreError, RestoreEvent, RestoreStats, UiMessage, UiSnapshot,
};
use crate::redact::{
    all_values_hidden, law_redact_sensitive_hides_values, redact_sensitive, redact_sensitive_spec,
};

verus! {

broadcast use vstd::seq_lib::group_seq_properties;

/// A message with the given id and no parameters.
pub fn msg(id: &str) -> (m: UiMessage)
    ensures
        m.spec_id() == id@,
        m.param_map() == Map::<Seq<char>, Seq<char>>::empty(),
{
    UiMessage::new(id)
}

/// The parameters with every value redacted.
pub open spec fn redacted_params(m: Map<Seq<char>, Seq<char>>) -> Map<Seq<char>, Seq<char>> {
    Map::new(|k: Seq<char>| m.dom().contains(k), |k: Seq<char>| redact_sensitive_spec(m[k]))
}

/// Every parameter of a redacted message hides the values after the session keys and
/// cookie headers: no session value reaches the user interface through an error.
pub proof fn law_ui_error_hides_session(params: Map<Seq<char>, Seq<char>>)
    ensures
        forall|p: Seq<char>| #[trigger] redacted_params(params).dom().contains(p) ==> {
            let v = redacted_params(params)[p];
            &&& all_values_hidden(v, "clientId="@)
            &&& all_values_hidden(v, "dsid="@)
            &&& all_values_hidden(v, "clientBuildNumber="@)
            &&& all_values_hidden(v, "clientMasteringNumber="@)
            &&& all_values_hidden(v, "Cookie:"@)
            &&& all_values_hidden(v, "cookie:"@)
        },
{
    assert forall|p: Seq<char>| #[trigger] redacted_params(params).dom().contains(p) implies {
        let v = redacted_params(params)[p];
        &&& all_values_hidden(v, "clientId="@)
        &&& all_values_hidden(v, "dsid="@)
        &&& all_values_hidden(v, "clientBuildNumber="@)
        &&& all_values_hidden(v, "clientMasteringNumber="@)
        &&& all_values_hidden(v, "Cookie:"@)
        &&& all_values_hidden(v, "cookie:"@)
    } by {
        law_redact_sensitive_hides_values(params[p]);
    }
}

/// The message an error is shown with: its own message, with every parameter value
/// redacted of session values.
pub fn to_ui_error(error: &RestoreError) -> (m: UiMessage)
    ensures
        m.spec_id() == error_id(*error),
        m.param_map() == redacted_params(error_params(*error)),
{
    let message = error.message();
    let id = message.id();
    let params = message.params();
    let ghost pv = pairs_view(params@);
    let mut out = UiMessage::new(id.as_str());
    let mut i: usize = 0;
    while i < params.len()
        invariant
            i <= params@.len(),
            pv == pairs_view(params@),
            out.spec_id() == id@,
            out.param_map() == redacted_params(pairs_map(pv.take(i as int))),
        decreases params@.len() - i,
    {
        let value = redact_sensitive(params[i].1.as_str());
        let ghost before = out.param_map();
        out = out.with_param(params[i].0.as_str(), value.as_str());
        proof {
            let pre = pv.take(i as int);
            let next = pv.take(i + 1);
            assert(next.drop_last() =~= pre);
            assert(next.last() == pv[i as int]);
            assert(out.param_map() =~= redacted_params(pairs_map(next)));
        }
        i = i + 1;
    }
    proof {
        assert(pv.take(i as int) =~= pv);
    }
    out
}

/// The state of the user's session.
#[derive(Debug)]
pub struct AppSession {
    pub phase: AppPhase,
    pub credentials: Option<Credentials>,
    pub deleted_item_ids: Vec<String>,
    /// Items found by a scan that was stopped before it finished.
    pub partial_scan_item_count: usize,
    pub stats: RestoreStats,
    pub message: UiMessage,
    pub cancellation: Option<CancellationToken>,
}

/// A message with one count parameter.
fn count_message(id: &str, key: &str, n: usize) -> (m: UiMessage)
    ensures
        m.spec_id() == id@,
        m.param_map() == Map::<Seq<char>, Seq<char>>::empty().insert(key@, decimal(n as nat)),
{
    let t = decimal_text(n);
    UiMessage::new(id).with_param(key, t.as_str())
}

/// The session is fresh: at the welcome step with nothing known, ready.
pub open spec fn is_fresh(s: AppSession) -> bool {
    &&& s.phase == AppPhase::Welcome
    &&& s.credentials is None
    &&& s.deleted_item_ids@.len() == 0
    &&& s.partial_scan_item_count == 0
    &&& s.stats.total == 0 && s.stats.restored == 0 && s.stats.failed == 0
    &&& s.stats.failed_ids@.len() == 0
    &&& s.message.spec_id() == "status.ready"@
    &&& s.message.param_map() == Map::<Seq<char>, Seq<char>>::empty()
    &&& s.cancellation is None
}

fn cancel_running(cancellation: &Option<CancellationToken>) {
    match cancellation {
        Some(token) => token.cancel(),
        None => {},
    }
}

impl Default for AppSession {
    fn default() -> (s: Self)
        ensures
            is_fresh(s),
    {
        AppSession {
            phase: AppPhase::Welcome,
            credentials: None,
            deleted_item_ids: Vec::new(),
            partial_scan_item_count: 0,
            stats: RestoreStats::default(),
            message: msg("status.ready"),
            cancellation: None,
        }
    }
}

impl AppSession {
    /// What the user interface shows: the count of deleted items is the scanned items,
    /// or, before a scan finished, the items a stopped scan found.
    pub fn snapshot(&self, can_resume: bool) -> (s: UiSnapshot)
        ensures
            s.phase == self.phase,
            s.deleted_count == (if self.deleted_item_ids@.len() == 0 {
                self.partial_scan_item_count as int
            } else {
                self.deleted_item_ids@.len() as int
            }),
            s.stats.total == self.stats.total,
            s.stats.restored == self.stats.restored,
            s.stats.failed == self.stats.failed,
            s.stats.failed_ids.deep_view() == self.stats.failed_ids.deep_view(),
            s.message.spec_id() == self.message.spec_id(),
            s.message.param_map() == self.message.param_map(),
            s.can_resume == can_resume,
    {
        let deleted_count = if self.deleted_item_ids.len() == 0 {
            self.partial_scan_item_count
        } else {
            self.deleted_item_ids.len()
        };
        UiSnapshot {
            phase: self.phase,
            deleted_count,
            stats: RestoreStats {
                total: self.stats.total,
                restored: self.stats.restored,
                failed: self.stats.failed,
                failed_ids: copy_ids(self.stats.failed_ids.as_slice()),
            },
            message: self.message.clone(),
            can_resume,
        }
    }

    /// Starts signing in: a running scan or restore is asked to stop, and the session
    /// starts over at the sign-in step.
    pub fn begin_sign_in(&mut self)
        ensures
            ({
                let s = *final(self);
                &&& s.phase == AppPhase::SigningIn
                &&& s.message.spec_id() == "status.signingIn"@
                &&& s.message.param_map() == Map::<Seq<char>, Seq<char>>::empty()
                &&& s.credentials is None
                &&& s.deleted_item_ids@.len() == 0
                &&& s.partial_scan_item_count == 0
                &&& s.stats.total == 0 && s.stats.restored == 0 && s.stats.failed == 0
                &&& s.stats.failed_ids@.len() == 0
                &&& s.cancellation is None
            }),
    {
        cancel_running(&self.cancellation);
        let mut fresh = AppSession::default();
        fresh.phase = AppPhase::SigningIn;
        fresh.message = msg("status.signingIn");
        *self = fresh;
    }

    /// Sign-in succeeded with these credentials: ready to scan.
    pub fn signed_in(&mut self, credentials: Credentials)
        ensures
            final(self).credentials == Some(credentials),
            final(self).phase == AppPhase::ReadyToScan,
            final(self).message.spec_id() == "status.authenticated"@,
            final(self).message.param_map() == Map::<Seq<char>, Seq<char>>::empty(),
            final(self).deleted_item_ids == old(self).deleted_item_ids,
            final(self).partial_scan_item_count == old(self).partial_scan_item_count,
            final(self).stats == old(self).stats,
            final(self).cancellation == old(self).cancellation,
    {
        self.credentials = Some(credentials);
        self.phase = AppPhase::ReadyToScan;
        self.message = msg("status.authenticated");
    }

    /// Asks a running scan to stop; outside a scan nothing happens.
    pub fn cancel_scan(&self) {
        if self.phase == AppPhase::Scanning {
            cancel_running(&self.cancellation);
        }
    }

    /// Starts over: a running scan or restore is asked to stop and the session is fresh.
    pub fn reset(&mut self)
        ensures
            is_fresh(*final(self)),
    {
        cancel_running(&self.cancellation);
        *self = AppSession::default();
    }

    /// The credentials of the signed-in session.
    pub fn credentials(&self) -> (r: Result<Credentials, RestoreError>)
        ensures
            self.credentials is None ==> r matches Err(RestoreError::MissingCredentials),
            self.credentials matches Some(c) ==> (r matches Ok(d) && d.cookies@ == c.cookies@
                && d.client_id@ == c.client_id@ && d.dsid@ == c.dsid@
                && d.client_build_number@ == c.client_build_number@
                && d.client_mastering_number@ == c.client_mastering_number@),
    {
        match &self.credentials {
            Some(c) => Ok(
                Credentials {
                    cookies: c.cookies.clone(),
                    client_id: c.client_id.clone(),
                    dsid: c.dsid.clone(),
                    client_build_number: c.client_build_number.clone(),
                    client_mastering_number: c.client_mastering_number.clone(),
                },
            ),
            None => Err(RestoreError::MissingCredentials),
        }
    }

    /// The ids that the last scan found; none is an error.
    pub fn scanned_item_ids(&self) -> (r: Result<Vec<String>, RestoreError>)
        ensures
            self.deleted_item_ids@.len() == 0 ==> r matches Err(RestoreError::MissingScan),
            self.deleted_item_ids@.len() > 0 ==> (r matches Ok(ids) && ids.deep_view()
                == self.deleted_item_ids.deep_view()),
    {
        if self.deleted_item_ids.len() == 0 {
            Err(RestoreError::MissingScan)
        } else {
            Ok(copy_ids(self.deleted_item_ids.as_slice()))
        }
    }

    /// A scan starts; it stops when `cancellation` is cancelled.
    pub fn begin_scan(&mut self, cancellation: CancellationToken)
        ensures
            final(self).phase == AppPhase::Scanning,
            final(self).partial_scan_item_count == 0,
            final(self).cancellation == Some(cancellation),
            final(self).message.spec_id() == "status.scanning"@,
            final(self).message.param_map() == Map::<Seq<char>, Seq<char>>::empty(),
            final(self).credentials == old(self).credentials,
            final(self).deleted_item_ids == old(self).deleted_item_ids,
            final(self).stats == old(self).stats,
    {
        self.partial_scan_item_count = 0;
        self.cancellation = Some(cancellation);
        self.phase = AppPhase::Scanning;
        self.message = msg("status.scanning");
    }

    /// The running scan or restore has returned.
    pub fn end_operation(&mut self)
        ensures
            final(self).cancellation is None,
            final(self).phase == old(self).phase,
            final(self).credentials == old(self).credentials,
            final(self).deleted_item_ids == old(self).deleted_item_ids,
            final(self).partial_scan_item_count == old(self).partial_scan_item_count,
            final(self).stats == old(self).stats,
            final(self).message == old(self).message,
    {
        self.cancellation = None;
    }

    /// The scan finished with these ids: ready to restore them.
    pub fn scan_succeeded(&mut self, item_ids: Vec<String>) -> (e: RestoreEvent)
        ensures
            final(self).deleted_item_ids == item_ids,
            final(self).partial_scan_item_count == 0,
            final(self).phase == AppPhase::ReadyToRestore,
            final(self).message.spec_id() == "status.scanComplete"@,
            final(self).message.param_map() == Map::<Seq<char>, Seq<char>>::empty().insert(
                "total"@,
                decimal(item_ids@.len()),
            ),
            final(self).stats.total == item_ids@.len() && final(self).stats.restored == 0
                && final(self).stats.failed == 0 && final(self).stats.failed_ids@.len() == 0,
            e == (RestoreEvent::ScanComplete { total: item_ids@.len() as usize }),
            final(self).credentials == old(self).credentials,
            final(self).cancellation == old(self).cancellation,
    {
        let total = item_ids.len();
        self.deleted_item_ids = item_ids;
        self.partial_scan_item_count = 0;
        self.phase = AppPhase::ReadyToRestore;
        self.message = count_message("status.scanComplete", "total", total);
        self.stats = RestoreStats { total, restored: 0, failed: 0, failed_ids: Vec::new() };
        RestoreEvent::ScanComplete { total }
    }

    /// The scan was stopped after finding `partial` items: ready to scan again, which
    /// resumes it.
    pub fn scan_cancelled(&mut self, partial: usize) -> (e: RestoreEvent)
        ensures
            final(self).partial_scan_item_count == partial,
            final(self).phase == AppPhase::ReadyToScan,
            final(self).message.spec_id() == "status.scanCancelledSave"@,
            final(self).message.param_map() == Map::<Seq<char>, Seq<char>>::empty().insert(
                "count"@,
                decimal(partial as nat),
            ),
            final(self).deleted_item_ids == old(self).deleted_item_ids,
            e == (RestoreEvent::ScanPaused { partial_total: partial }),
            final(self).credentials == old(self).credentials,
            final(self).stats == old(self).stats,
            final(self).cancellation == old(self).cancellation,
    {
        self.partial_scan_item_count = partial;
        self.phase = AppPhase::ReadyToScan;
        self.message = count_message("status.scanCancelledSave", "count", partial);
        RestoreEvent::ScanPaused { partial_total: partial }
    }

    /// A restore starts; it stops when `cancellation` is cancelled.
    pub fn begin_restore(&mut self, cancellation: CancellationToken)
        ensures
            final(self).phase == AppPhase::Restoring,
            final(self).cancellation == Some(cancellation),
            final(self).message.spec_id() == "status.restoring"@,
            final(self).message.param_map() == Map::<Seq<char>, Seq<char>>::empty(),
            final(self).deleted_item_ids == old(self).deleted_item_ids,
            final(self).credentials == old(self).credentials,
            final(self).partial_scan_item_count == old(self).partial_scan_item_count,
            final(self).stats == old(self).stats,
    {
        self.phase = AppPhase::Restoring;
        self.cancellation = Some(cancellation);
        self.message = msg("status.restoring");
    }

    /// Asks a running restore to pause after its current batch.
    pub fn request_pause(&mut self)
        ensures
            final(self).phase == AppPhase::Paused,
            final(self).message.spec_id() == "status.pausePending"@,
            final(self).message.param_map() == Map::<Seq<char>, Seq<char>>::empty(),
            final(self).cancellation == old(self).cancellation,
            final(self).deleted_item_ids == old(self).deleted_item_ids,
            final(self).credentials == old(self).credentials,
            final(self).partial_scan_item_count == old(self).partial_scan_item_count,
            final(self).stats == old(self).stats,
    {
        cancel_running(&self.cancellation);
        self.phase = AppPhase::Paused;
        self.message = msg("status.pausePending");
    }

    /// The restore has returned. Finished: complete, with a message that counts the
    /// restored items and, if any, the failed ones. Cancelled: paused. Otherwise: the
    /// error step, and the error's message, with every value redacted of session values,
    /// is shown and is what the command fails with.
    pub fn restore_finished(&mut self, result: Result<RestoreStats, RestoreError>) -> (r: Result<(), UiMessage>)
        ensures
            final(self).cancellation is None,
            final(self).deleted_item_ids == old(self).deleted_item_ids,
            final(self).credentials == old(self).credentials,
            final(self).partial_scan_item_count == old(self).partial_scan_item_count,
            !(result is Ok) ==> final(self).stats == old(self).stats,
            match result {
                Ok(stats) => {
                    &&& r is Ok
                    &&& final(self).phase == AppPhase::Complete
                    &&& final(self).stats == stats
                    &&& stats.failed == 0 ==> final(self).message.spec_id() == "status.complete"@
                        && final(self).message.param_map() == Map::<Seq<char>, Seq<char>>::empty().insert(
                        "restored"@,
                        decimal(stats.restored as nat),
                    )
                    &&& stats.failed != 0 ==> final(self).message.spec_id() == "status.partialComplete"@
                        && final(self).message.param_map() == Map::<Seq<char>, Seq<char>>::empty().insert(
                        "restored"@,
                        decimal(stats.restored as nat),
                    ).insert("failed"@, decimal(stats.failed as nat))
                },
                Err(RestoreError::Cancelled) => {
                    &&& r is Ok
                    &&& final(self).phase == AppPhase::Paused
                    &&& final(self).message.spec_id() == "status.paused"@
                    &&& final(self).message.param_map() == Map::<Seq<char>, Seq<char>>::empty()
                },
                Err(e) => {
                    &&& final(self).phase == AppPhase::Error
                    &&& final(self).message.spec_id() == error_id(e)
                    &&& final(self).message.param_map() == redacted_params(error_params(e))
                    &&& r matches Err(m) && m.spec_id() == error_id(e) && m.param_map()
                        == redacted_params(error_params(e))
                },
            },
    {
        self.cancellation = None;
        match result {
            Ok(stats) => {
                self.phase = AppPhase::Complete;
                if stats.failed == 0 {
                    self.message = count_message("status.complete", "restored", stats.restored);
                } else {
                    let r = decimal_text(stats.restored);
                    let f = decimal_text(stats.failed);
                    self.message = msg("status.partialComplete").with_param("restored", r.as_str()).with_param(
                        "failed",
                        f.as_str(),
                    );
                }
                self.stats = stats;
                Ok(())
            },
            Err(RestoreError::Cancelled) => {
                self.phase = AppPhase::Paused;
                self.message = msg("status.paused");
                Ok(())
            },
            Err(error) => {
                self.phase = AppPhase::Error;
                self.message = to_ui_error(&error);
                Err(self.message.clone())
            },
        }
    }
}

/// The failed ids that a retry restores, from the saved progress: without saved progress
/// the scan is missing; with no failed ids there is nothing to retry.
pub fn failed_ids_to_retry(progress: Option<RestoreProgress>) -> (r: Result<Vec<String>, UiMessage>)
    ensures
        progress is None ==> (r matches Err(m) && m.spec_id() == error_id(RestoreError::MissingScan)
            && m.param_map() == Map::<Seq<char>, Seq<char>>::empty()),
        progress matches Some(p) ==> (p.failed_ids@.len() == 0 ==> (r matches Err(m) && m.spec_id()
            == "status.retryFailedEmpty"@ && m.param_map() == Map::<Seq<char>, Seq<char>>::empty())),
        progress matches Some(p) ==> (p.failed_ids@.len() > 0 ==> r == Ok::<Vec<String>, UiMessage>(
            p.failed_ids,
        )),
{
    match progress {
        None => {
            let m = to_ui_error(&RestoreError::MissingScan);
            assert(m.param_map() =~= Map::<Seq<char>, Seq<char>>::empty());
            Err(m)
        },
        Some(p) => {
            if p.failed_ids.len() == 0 {
                Err(msg("status.retryFailedEmpty"))
            } else {
                Ok(p.failed_ids)
            }
        },
    }
}

} // verus!
