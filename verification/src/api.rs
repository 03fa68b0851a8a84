//! The iCloud Drive side: batching, scan pages and their checkpoint, request URLs and
//! the interpretation of responses.
use vstd::prelude::*;
use crate::checkpoint::FetchCheckpoint;
use crate::ids::{copy_ids, copy_range};
use crate::models::{
    decimal, decimal_text, is_auth_status, is_auth_status_spec, pairs_view, Credentials,
    DeletedItem, RestoreError, DEFAULT_FETCH_PAGE_SIZE, DEFAULT_MAX_RETRIES,
    DEFAULT_RESTORE_BATCH_SIZE,
};
use crate::text::{concat, string_of};

verus! {

/// The list cut into consecutive pieces of `n` elements; the last piece may be shorter.
/// With `n == 0` there are no pieces.
pub open spec fn chunks_of<A>(s: Seq<A>, n: nat) -> Seq<Seq<A>>
    decreases s.len(),
{
    if n == 0 || s.len() == 0 {
        Seq::empty()
    } else if s.len() <= n {
        seq![s]
    } else {
        seq![s.take(n as int)] + chunks_of(s.skip(n as int), n)
    }
}

/// Cutting into pieces loses and reorders nothing, every piece holds between one and
/// `n` elements, and only the last piece may hold fewer than `n`.
pub proof fn law_chunks<A>(s: Seq<A>, n: nat)
    requires
        n > 0,
    ensures
        chunks_of(s, n).flatten() == s,
        forall|k: int| 0 <= k < chunks_of(s, n).len() ==> 0 < #[trigger] chunks_of(s, n)[k].len() <= n,
        forall|k: int| 0 <= k < chunks_of(s, n).len() - 1 ==> #[trigger] chunks_of(s, n)[k].len() == n,
    decreases s.len(),
{
    let c = chunks_of(s, n);
    if s.len() == 0 {
    } else if s.len() <= n {
        assert(c.drop_first() =~= Seq::<Seq<A>>::empty());
        assert(c.drop_first().flatten() =~= Seq::<A>::empty());
        assert(c.flatten() == c.first() + c.drop_first().flatten());
        assert(c.flatten() =~= s);
    } else {
        let rest = chunks_of(s.skip(n as int), n);
        law_chunks(s.skip(n as int), n);
        assert(c.drop_first() =~= rest);
        assert(c.flatten() == s.take(n as int) + rest.flatten());
        assert(s.take(n as int) + s.skip(n as int) =~= s);
        assert forall|k: int| 0 <= k < c.len() implies 0 < #[trigger] c[k].len() <= n by {
            if k > 0 {
                assert(c[k] == rest[k - 1]);
            }
        }
        assert forall|k: int| 0 <= k < c.len() - 1 implies #[trigger] c[k].len() == n by {
            if k > 0 {
                assert(c[k] == rest[k - 1]);
            }
        }
    }
}

/// Cuts the ids into batches of `batch_size`, in order; no batches for a size of zero.
pub fn batch_item_ids(item_ids: &[String], batch_size: usize) -> (r: Vec<Vec<String>>)
    ensures
        r.deep_view() == chunks_of(item_ids.deep_view(), batch_size as nat),
{
    let mut out: Vec<Vec<String>> = Vec::new();
    if batch_size == 0 {
        assert(out.deep_view() =~= Seq::<Seq<Seq<char>>>::empty());
        return out;
    }
    let ghost s = item_ids.deep_view();
    let n = item_ids.len();
    let mut start: usize = 0;
    assert(s.skip(0) =~= s);
    assert(out.deep_view() =~= Seq::<Seq<Seq<char>>>::empty());
    while start < n
        invariant
            n == item_ids@.len(),
            s == item_ids.deep_view(),
            batch_size > 0,
            start <= n,
            out.deep_view() + chunks_of(s.skip(start as int), batch_size as nat) == chunks_of(
                s,
                batch_size as nat,
            ),
        decreases n - start,
    {
        let end = if n - start <= batch_size { n } else { start + batch_size };
        let chunk = copy_range(item_ids, start, end);
        let ghost rest = s.skip(start as int);
        let ghost before = out.deep_view();
        proof {
            if n - start <= batch_size {
                assert(chunks_of(rest, batch_size as nat) == seq![rest]);
                assert(s.skip(end as int).len() == 0);
                assert(chunks_of(s.skip(end as int), batch_size as nat) =~= Seq::<
                    Seq<Seq<char>>,
                >::empty());
                assert(rest =~= s.subrange(start as int, end as int));
            } else {
                assert(rest.take(batch_size as int) =~= s.subrange(start as int, end as int));
                assert(rest.skip(batch_size as int) =~= s.skip(end as int));
            }
        }
        out.push(chunk);
        assert(out.deep_view() =~= before.push(s.subrange(start as int, end as int)));
        assert(out.deep_view() + chunks_of(s.skip(end as int), batch_size as nat) =~= before
            + chunks_of(rest, batch_size as nat));
        start = end;
    }
    assert(s.skip(start as int).len() == 0);
    assert(out.deep_view() + chunks_of(s.skip(start as int), batch_size as nat) =~= out.deep_view());
    out
}

/// Cuts the ids into batches of the default restore batch size.
pub fn default_restore_batches(item_ids: &[String]) -> (r: Vec<Vec<String>>)
    ensures
        r.deep_view() == chunks_of(item_ids.deep_view(), DEFAULT_RESTORE_BATCH_SIZE as nat),
{
    batch_item_ids(item_ids, DEFAULT_RESTORE_BATCH_SIZE)
}

/// How many attempts one batch gets.
pub fn max_retries() -> (r: usize)
    ensures
        r == DEFAULT_MAX_RETRIES,
{
    DEFAULT_MAX_RETRIES
}

/// Default iCloud Drive web-service endpoint.
pub const DEFAULT_BASE_URL: &'static str = "https://p107-docws.icloud.com";

/// Progress of a scan after one page.
#[derive(Debug, Clone, Copy, PartialEq, Eq, Structural)]
pub struct FetchProgress {
    pub page: u64,
    pub page_count: usize,
    pub total: usize,
}

/// An optional string as an optional character sequence.
pub open spec fn opt_view(o: Option<String>) -> Option<Seq<char>> {
    match o {
        Some(s) => Some(s@),
        None => None,
    }
}

/// A copy of an optional string.
pub fn copy_opt(o: &Option<String>) -> (r: Option<String>)
    ensures
        opt_view(r) == opt_view(*o),
{
    match o {
        Some(s) => Some(s.clone()),
        None => None,
    }
}

/// A deleted item as values: id, name, type.
pub open spec fn item_view(d: DeletedItem) -> (Seq<char>, Option<Seq<char>>, Option<Seq<char>>) {
    (d.item_id@, opt_view(d.name), opt_view(d.item_type))
}

/// A list of deleted items as values.
pub open spec fn items_view(v: Seq<DeletedItem>) -> Seq<(Seq<char>, Option<Seq<char>>, Option<Seq<char>>)> {
    v.map_values(|d: DeletedItem| item_view(d))
}

/// The ids of a list of deleted items.
pub open spec fn item_ids_of(v: Seq<(Seq<char>, Option<Seq<char>>, Option<Seq<char>>)>) -> Seq<Seq<char>> {
    v.map_values(|d: (Seq<char>, Option<Seq<char>>, Option<Seq<char>>)| d.0)
}

/// Items known only by id: no name, no type.
pub open spec fn bare_items(ids: Seq<Seq<char>>) -> Seq<(Seq<char>, Option<Seq<char>>, Option<Seq<char>>)> {
    ids.map_values(|id: Seq<char>| (id, None::<Seq<char>>, None::<Seq<char>>))
}

/// One document of a page of the deleted-items listing, as far as the scan reads it.
#[derive(Debug, Clone)]
pub struct TombstoneDocument {
    pub item_id: Option<String>,
    pub name: Option<String>,
    pub item_type: Option<String>,
}

/// The item a document stands for, if it has an id.
pub open spec fn tombstone_item(d: TombstoneDocument) -> Option<(Seq<char>, Option<Seq<char>>, Option<Seq<char>>)> {
    match d.item_id {
        Some(id) => Some((id@, opt_view(d.name), opt_view(d.item_type))),
        None => None,
    }
}

/// The items of a page: one per document that has an id, in order.
pub open spec fn tombstone_items(docs: Seq<TombstoneDocument>) -> Seq<(Seq<char>, Option<Seq<char>>, Option<Seq<char>>)> {
    docs.filter_map(|d: TombstoneDocument| tombstone_item(d))
}

/// The deleted items that a page of documents lists; documents without an id are skipped.
pub fn parse_tombstones(documents: Vec<TombstoneDocument>) -> (r: Vec<DeletedItem>)
    ensures
        items_view(r@) == tombstone_items(documents@),
{
    let ghost f = |d: TombstoneDocument| tombstone_item(d);
    let mut out: Vec<DeletedItem> = Vec::new();
    let mut i: usize = 0;
    while i < documents.len()
        invariant
            i <= documents@.len(),
            f == (|d: TombstoneDocument| tombstone_item(d)),
            items_view(out@) == documents@.take(i as int).filter_map(f),
        decreases documents@.len() - i,
    {
        proof {
            documents@.lemma_filter_map_take_succ(f, i as int);
        }
        let doc = &documents[i];
        match &doc.item_id {
            Some(id) => {
                let item = DeletedItem {
                    item_id: id.clone(),
                    name: copy_opt(&doc.name),
                    item_type: copy_opt(&doc.item_type),
                };
                let ghost before = out@;
                out.push(item);
                assert(items_view(out@) =~= items_view(before) + seq![item_view(item)]);
            },
            None => {
            },
        }
        i = i + 1;
    }
    assert(documents@.take(i as int) =~= documents@);
    out
}

fn bare_item_list(ids: &Vec<String>) -> (r: Vec<DeletedItem>)
    ensures
        items_view(r@) == bare_items(ids.deep_view()),
{
    let mut out: Vec<DeletedItem> = Vec::new();
    let mut i: usize = 0;
    while i < ids.len()
        invariant
            i <= ids@.len(),
            items_view(out@) == bare_items(ids.deep_view().take(i as int)),
        decreases ids@.len() - i,
    {
        let item = DeletedItem { item_id: ids[i].clone(), name: None, item_type: None };
        let ghost before = out@;
        out.push(item);
        assert(items_view(out@) =~= items_view(before).push(item_view(item)));
        i = i + 1;
        assert(bare_items(ids.deep_view().take(i as int)) =~= bare_items(
            ids.deep_view().take(i - 1),
        ).push((ids.deep_view()[i - 1], None, None)));
    }
    assert(ids.deep_view().take(i as int) =~= ids.deep_view());
    out
}

/// Whether the listing's status says that more pages follow.
pub open spec fn says_more_available(status: Option<Seq<char>>) -> bool {
    status == Some("MORE_AVAILABLE"@)
}

/// The state of a scan as values.
pub ghost struct ScanView {
    pub item_ids: Seq<Seq<char>>,
    pub marker: Option<Seq<char>>,
    pub page: nat,
    pub complete: bool,
    pub items: Seq<(Seq<char>, Option<Seq<char>>, Option<Seq<char>>)>,
}

/// A scan in progress: the checkpoint to save after each page and the items found.
#[derive(Debug)]
pub struct ScanRun {
    checkpoint: FetchCheckpoint,
    items: Vec<DeletedItem>,
}

/// How a scan starts: a saved scan that finished gives its items at once.
#[derive(Debug)]
pub enum ScanStart {
    Done { items: Vec<DeletedItem>, progress: FetchProgress },
    Fetch(ScanRun),
}

/// What to do before the next page.
#[derive(Debug)]
pub enum PageRequest {
    /// The scan was cancelled; its checkpoint holds what was found so far.
    Cancelled,
    /// Fetch the next page, continuing from this marker.
    Fetch { marker: Option<String> },
}

impl View for ScanRun {
    type V = ScanView;

    closed spec fn view(&self) -> ScanView {
        ScanView {
            item_ids: self.checkpoint.item_ids.deep_view(),
            marker: opt_view(self.checkpoint.continuation_marker),
            page: self.checkpoint.page as nat,
            complete: self.checkpoint.complete,
            items: items_view(self.items@),
        }
    }
}

/// The ids in the checkpoint are the ids of the items found, in the same order.
pub open spec fn scan_wf(v: ScanView) -> bool {
    v.item_ids == item_ids_of(v.items)
}

/// The values of a saved checkpoint.
pub open spec fn checkpoint_view(c: FetchCheckpoint) -> ScanView {
    ScanView {
        item_ids: c.item_ids.deep_view(),
        marker: opt_view(c.continuation_marker),
        page: c.page as nat,
        complete: c.complete,
        items: bare_items(c.item_ids.deep_view()),
    }
}

/// The scan state after a page with these documents, continuation marker and status.
pub open spec fn after_page(
    v: ScanView,
    docs: Seq<TombstoneDocument>,
    marker: Option<Seq<char>>,
    status: Option<Seq<char>>,
) -> ScanView {
    let page_items = tombstone_items(docs);
    ScanView {
        item_ids: v.item_ids + item_ids_of(page_items),
        marker,
        page: v.page,
        complete: !says_more_available(status) || marker is None,
        items: v.items + page_items,
    }
}

proof fn lemma_bare_ids(ids: Seq<Seq<char>>)
    ensures
        item_ids_of(bare_items(ids)) == ids,
{
    assert(item_ids_of(bare_items(ids)) =~= ids);
}

/// A saved checkpoint resumes as a scan whose found items are exactly its ids.
pub proof fn law_scan_resume(c: FetchCheckpoint)
    ensures
        scan_wf(checkpoint_view(c)),
        checkpoint_view(c).items.len() == c.item_ids@.len(),
{
    lemma_bare_ids(c.item_ids.deep_view());
}

/// Recording a page keeps the checkpoint's ids equal to the found items' ids, keeps every
/// id found before in its place, and adds one id per document that has one.
pub proof fn law_scan_page(
    v: ScanView,
    docs: Seq<TombstoneDocument>,
    marker: Option<Seq<char>>,
    status: Option<Seq<char>>,
)
    requires
        scan_wf(v),
    ensures
        scan_wf(after_page(v, docs, marker, status)),
        after_page(v, docs, marker, status).item_ids.take(v.item_ids.len() as int) == v.item_ids,
        after_page(v, docs, marker, status).item_ids.len() == v.item_ids.len() + tombstone_items(docs).len(),
        after_page(v, docs, marker, status).complete <==> (!says_more_available(status) || marker is None),
{
    let w = after_page(v, docs, marker, status);
    let pi = tombstone_items(docs);
    assert(item_ids_of(v.items + pi) =~= item_ids_of(v.items) + item_ids_of(pi));
    assert(w.item_ids.take(v.item_ids.len() as int) =~= v.item_ids);
}

/// One answer of the deleted-items listing: its documents, continuation marker and
/// status.
pub ghost struct PageAnswer {
    pub docs: Seq<TombstoneDocument>,
    pub marker: Option<Seq<char>>,
    pub status: Option<Seq<char>>,
}

/// The scan state after each of these answers was asked for (`next_page`) and recorded
/// (`record_page`) in turn.
pub open spec fn scan_after_pages(v: ScanView, answers: Seq<PageAnswer>) -> ScanView
    decreases answers.len(),
{
    if answers.len() == 0 {
        v
    } else {
        let a = answers[0];
        scan_after_pages(
            after_page(ScanView { page: v.page + 1, ..v }, a.docs, a.marker, a.status),
            answers.drop_first(),
        )
    }
}

/// The ids of the documents of these answers, in order.
pub open spec fn answers_item_ids(answers: Seq<PageAnswer>) -> Seq<Seq<char>>
    decreases answers.len(),
{
    if answers.len() == 0 {
        Seq::empty()
    } else {
        item_ids_of(tombstone_items(answers[0].docs)) + answers_item_ids(answers.drop_first())
    }
}

/// What a scan saves depends on where it started and on the listing's answers alone,
/// never on the session values that went into the requests: after any answers, its
/// checkpoint holds the ids it started with followed by the ids of the answers'
/// documents in order, counts one page per answer, and keeps the last answer's marker.
pub proof fn law_scan_checkpoint_from_answers(v: ScanView, answers: Seq<PageAnswer>)
    requires
        scan_wf(v),
    ensures
        scan_wf(scan_after_pages(v, answers)),
        scan_after_pages(v, answers).item_ids == v.item_ids + answers_item_ids(answers),
        scan_after_pages(v, answers).page == v.page + answers.len(),
        answers.len() > 0 ==> scan_after_pages(v, answers).marker == answers.last().marker,
    decreases answers.len(),
{
    if answers.len() == 0 {
        assert(v.item_ids + answers_item_ids(answers) =~= v.item_ids);
    } else {
        let a = answers[0];
        let rest = answers.drop_first();
        let u = ScanView { page: v.page + 1, ..v };
        law_scan_page(u, a.docs, a.marker, a.status);
        let w = after_page(u, a.docs, a.marker, a.status);
        law_scan_checkpoint_from_answers(w, rest);
        assert(w.item_ids + answers_item_ids(rest) =~= v.item_ids + answers_item_ids(answers));
        if rest.len() > 0 {
            assert(rest.last() == answers.last());
        }
    }
}

impl ScanRun {
    #[verifier::type_invariant]
    spec fn inv(self) -> bool {
        scan_wf(self@)
    }

    /// Starts a scan from the saved checkpoint, if any. A saved scan that completed with
    /// items gives those items (by id only) at once; otherwise the scan goes on from the
    /// checkpoint with the items it already found.
    pub fn start(saved: Option<FetchCheckpoint>) -> (r: ScanStart)
        ensures
            ({
                let c = match saved {
                    Some(c) => checkpoint_view(c),
                    None => ScanView {
                        item_ids: Seq::empty(),
                        marker: None,
                        page: 0,
                        complete: false,
                        items: Seq::empty(),
                    },
                };
                &&& (c.complete && c.item_ids.len() > 0) ==> (r matches ScanStart::Done {
                    items,
                    progress,
                } && items_view(items@) == c.items && progress.page == c.page
                    && progress.page_count == 0 && progress.total == c.item_ids.len())
                &&& !(c.complete && c.item_ids.len() > 0) ==> (r matches ScanStart::Fetch(run)
                    && run@ == c && scan_wf(run@))
            }),
    {
        let checkpoint = match saved {
            Some(c) => c,
            None => FetchCheckpoint::default(),
        };
        let items = bare_item_list(&checkpoint.item_ids);
        proof {
            lemma_bare_ids(checkpoint.item_ids.deep_view());
            assert(opt_view(None::<String>) == None::<Seq<char>>);
            assert(checkpoint.item_ids.deep_view().len() == 0 ==> checkpoint.item_ids.deep_view()
                =~= Seq::<Seq<char>>::empty());
            assert(checkpoint.item_ids.deep_view().len() == 0 ==> bare_items(
                checkpoint.item_ids.deep_view(),
            ) =~= Seq::empty());
        }
        if checkpoint.complete && checkpoint.item_ids.len() > 0 {
            let progress = FetchProgress {
                page: checkpoint.page,
                page_count: 0,
                total: checkpoint.item_ids.len(),
            };
            return ScanStart::Done { items, progress };
        }
        ScanStart::Fetch(ScanRun { checkpoint, items })
    }

    /// Number of the last page fetched (0 before the first).
    pub fn page(&self) -> (p: u64)
        ensures
            p == self@.page,
    {
        self.checkpoint.page
    }

    /// Whether the listing said that no page follows.
    pub fn is_complete(&self) -> (b: bool)
        ensures
            b == self@.complete,
    {
        self.checkpoint.complete
    }

    /// The checkpoint to save.
    pub fn checkpoint(&self) -> (c: FetchCheckpoint)
        ensures
            c.item_ids.deep_view() == self@.item_ids,
            opt_view(c.continuation_marker) == self@.marker,
            c.page == self@.page,
            c.complete == self@.complete,
    {
        FetchCheckpoint {
            item_ids: copy_ids(self.checkpoint.item_ids.as_slice()),
            continuation_marker: copy_opt(&self.checkpoint.continuation_marker),
            page: self.checkpoint.page,
            complete: self.checkpoint.complete,
        }
    }

    /// What to do before the next page: stop when cancelled, else count the page and
    /// fetch it from the saved continuation marker.
    pub fn next_page(self, cancelled: bool) -> (r: (ScanRun, PageRequest))
        requires
            self@.page < u64::MAX,
        ensures
            scan_wf(r.0@),
            cancelled ==> r.1 is Cancelled && r.0@ == self@,
            !cancelled ==> (r.1 matches PageRequest::Fetch { marker } && opt_view(marker)
                == self@.marker && r.0@ == (ScanView { page: self@.page + 1, ..self@ })),
    {
        proof {
            use_type_invariant(&self);
        }
        if cancelled {
            return (self, PageRequest::Cancelled);
        }
        let ScanRun { checkpoint, items } = self;
        let FetchCheckpoint { item_ids, continuation_marker, page, complete } = checkpoint;
        let marker = copy_opt(&continuation_marker);
        let run = ScanRun {
            checkpoint: FetchCheckpoint { item_ids, continuation_marker, page: page + 1, complete },
            items,
        };
        (run, PageRequest::Fetch { marker })
    }

    /// Records a fetched page: its items join the found items and their ids join the
    /// checkpoint; the scan is complete unless the status says more is available and a
    /// continuation marker came with it.
    pub fn record_page(
        self,
        documents: Vec<TombstoneDocument>,
        continuation_marker: Option<String>,
        status: Option<String>,
    ) -> (r: (ScanRun, FetchProgress))
        ensures
            scan_wf(r.0@),
            r.0@ == after_page(self@, documents@, opt_view(continuation_marker), opt_view(status)),
            r.1.page == self@.page,
            r.1.page_count == tombstone_items(documents@).len(),
            r.1.total == r.0@.items.len(),
    {
        proof {
            use_type_invariant(&self);
        }
        let ghost v = self@;
        let ghost docs = documents@;
        let page_items = parse_tombstones(documents);
        let more = match &status {
            Some(s) => *s == "MORE_AVAILABLE".to_owned(),
            None => false,
        };
        let complete = !more || continuation_marker.is_none();
        let ScanRun { checkpoint, items } = self;
        let mut ids = checkpoint.item_ids;
        let mut items = items;
        let ghost old_items = items@;
        let mut i: usize = 0;
        let ghost ids0 = ids.deep_view();
        while i < page_items.len()
            invariant
                i <= page_items@.len(),
                ids.deep_view() == ids0 + item_ids_of(items_view(page_items@.take(i as int))),
                items_view(items@) == items_view(old_items) + items_view(page_items@.take(i as int)),
            decreases page_items@.len() - i,
        {
            let item = DeletedItem {
                item_id: page_items[i].item_id.clone(),
                name: copy_opt(&page_items[i].name),
                item_type: copy_opt(&page_items[i].item_type),
            };
            let id = page_items[i].item_id.clone();
            let ghost before_ids = ids.deep_view();
            let ghost before_items = items@;
            ids.push(id);
            items.push(item);
            proof {
                assert(page_items@.take(i + 1) =~= page_items@.take(i as int).push(page_items@[i as int]));
                assert(items_view(page_items@.take(i + 1)) =~= items_view(page_items@.take(i as int)).push(item_view(page_items@[i as int])));
                assert(items_view(items@) =~= items_view(before_items).push(item_view(item)));
                assert(ids.deep_view() =~= before_ids.push(id@));
            }
            i = i + 1;
        }
        proof {
            assert(page_items@.take(i as int) =~= page_items@);
        }
        let page_count = page_items.len();
        let total = items.len();
        let page = checkpoint.page;
        proof {
            let pi = tombstone_items(docs);
            assert(item_ids_of(items_view(items@)) =~= item_ids_of(items_view(old_items)) + item_ids_of(pi));
        }
        let run = ScanRun {
            checkpoint: FetchCheckpoint { item_ids: ids, continuation_marker, page, complete },
            items,
        };
        (run, FetchProgress { page, page_count, total })
    }

    /// The items found.
    pub fn into_items(self) -> (items: Vec<DeletedItem>)
        ensures
            items_view(items@) == self@.items,
    {
        self.items
    }
}

/// A response status that means the session expired.
pub fn ensure_auth(status: u16) -> (r: Result<(), RestoreError>)
    ensures
        is_auth_status_spec(status) ==> r matches Err(RestoreError::AuthExpired),
        !is_auth_status_spec(status) ==> r is Ok,
{
    if is_auth_status(status) {
        Err(RestoreError::AuthExpired)
    } else {
        Ok(())
    }
}

/// A status code in a restore response: a JSON string, or any other JSON value in its
/// JSON rendering.
#[derive(Debug, Clone)]
pub enum StatusCodeValue {
    Text(String),
    Rendered(String),
}

/// The per-item status that a restore response reports.
#[derive(Debug, Clone)]
pub struct ItemStatus {
    pub status_code: Option<StatusCodeValue>,
    pub status_message: Option<String>,
}

/// A status code as text: a string as it is, any other value as rendered.
pub open spec fn status_text(value: Option<StatusCodeValue>) -> Option<Seq<char>> {
    match value {
        Some(StatusCodeValue::Text(s)) => Some(s@),
        Some(StatusCodeValue::Rendered(s)) => Some(s@),
        None => None,
    }
}

/// A status code as text.
pub fn status_code_as_string(value: Option<&StatusCodeValue>) -> (r: Option<String>)
    ensures
        opt_view(r) == match value {
            Some(v) => status_text(Some(*v)),
            None => None,
        },
{
    match value {
        Some(StatusCodeValue::Text(s)) => Some(s.clone()),
        Some(StatusCodeValue::Rendered(s)) => Some(s.clone()),
        None => None,
    }
}

/// Whether a restore response's first item status reports a failure, and with which
/// message.
pub fn check_item_status(first: Option<&ItemStatus>) -> (r: Result<(), RestoreError>)
    ensures
        match first {
            Some(st) => match status_text(st.status_code) {
                Some(code) => if code != "200"@ {
                    r matches Err(RestoreError::Api(m)) && m@ == match opt_view(st.status_message) {
                        Some(msg) => msg,
                        None => "iCloud did not restore this batch."@,
                    }
                } else {
                    r is Ok
                },
                None => r is Ok,
            },
            None => r is Ok,
        },
{
    match first {
        Some(st) => {
            let code = match &st.status_code {
                Some(v) => status_code_as_string(Some(v)),
                None => status_code_as_string(None),
            };
            match code {
                Some(c) => {
                    if c != "200".to_owned() {
                        let message = match &st.status_message {
                            Some(m) => m.clone(),
                            None => "iCloud did not restore this batch.".to_owned(),
                        };
                        Err(RestoreError::Api(message))
                    } else {
                        Ok(())
                    }
                },
                None => Ok(()),
            }
        },
        None => Ok(()),
    }
}

/// The text without the given character at its end, however often it is repeated there.
pub open spec fn trim_end(s: Seq<char>, c: char) -> Seq<char>
    decreases s.len(),
{
    if s.len() > 0 && s.last() == c {
        trim_end(s.drop_last(), c)
    } else {
        s
    }
}

/// `str::trim_end_matches` with a character pattern.
pub fn trim_end_char(s: &str, c: char) -> (r: String)
    ensures
        r@ == trim_end(s@, c),
{
    let chars = crate::text::chars_of(s);
    let mut n = chars.len();
    assert(s@.subrange(0, n as int) =~= s@);
    while n > 0 && chars[n - 1] == c
        invariant
            n <= chars@.len(),
            chars@ == s@,
            trim_end(s@, c) == trim_end(s@.subrange(0, n as int), c),
        decreases n,
    {
        assert(s@.subrange(0, n as int).drop_last() =~= s@.subrange(0, n - 1));
        n = n - 1;
    }
    assert(trim_end(s@.subrange(0, n as int), c) == s@.subrange(0, n as int));
    string_of(&chars.as_slice()[0..n])
}

/// A result of two strings as character sequences.
pub open spec fn text_result(r: Result<String, String>) -> Result<Seq<char>, Seq<char>> {
    match r {
        Ok(u) => Ok(u@),
        Err(e) => Err(e@),
    }
}

/// What `Url::parse_with_params` gives for a URL text and query pairs: the serialized
/// URL, or the text of the parse error.
pub uninterp spec fn url_with_params_result(input: Seq<char>, pairs: Seq<(Seq<char>, Seq<char>)>) -> Result<Seq<char>, Seq<char>>;

/// `url::Url::parse_with_params`, serialized: parses `input` as an absolute URL and
/// appends the pairs, form-encoded, to its query. The result is named, as a function of
/// the text and the pairs.
#[verifier::external_body]
fn url_with_params(input: &str, pairs: &Vec<(String, String)>) -> (r: Result<String, String>)
    ensures
        text_result(r) == url_with_params_result(input@, pairs_view(pairs@)),
{
    match url::Url::parse_with_params(input, pairs.iter()) {
        Ok(u) => Ok(String::from(u)),
        Err(e) => Err(e.to_string()),
    }
}

/// The request URL that a built URL gives, or an API error carrying the parse error.
pub fn url_result(built: Result<String, String>) -> (r: Result<String, RestoreError>)
    ensures
        built matches Ok(u) ==> r == Ok::<String, RestoreError>(u),
        built matches Err(e) ==> r == Err::<String, RestoreError>(RestoreError::Api(e)),
{
    match built {
        Ok(u) => Ok(u),
        Err(e) => Err(RestoreError::Api(e)),
    }
}

/// The pairs that identify the session to iCloud, in request order.
pub open spec fn session_pairs(c: Credentials) -> Seq<(Seq<char>, Seq<char>)> {
    seq![
        ("clientBuildNumber"@, c.client_build_number@),
        ("clientMasteringNumber"@, c.client_mastering_number@),
        ("clientId"@, c.client_id@),
        ("dsid"@, c.dsid@),
    ]
}

/// The query of a page request of the deleted-items listing.
pub open spec fn tombstone_pairs(c: Credentials, marker: Option<Seq<char>>) -> Seq<(Seq<char>, Seq<char>)> {
    let base = session_pairs(c) + seq![
        ("limit"@, decimal(DEFAULT_FETCH_PAGE_SIZE as nat)),
        ("unified_format"@, "true"@),
    ];
    match marker {
        Some(m) => base.push(("nextPage"@, m)),
        None => base,
    }
}

fn push_pair(pairs: &mut Vec<(String, String)>, key: &str, value: &str)
    ensures
        pairs_view(final(pairs)@) == pairs_view(old(pairs)@).push((key@, value@)),
{
    let ghost before = pairs@;
    pairs.push((key.to_owned(), value.to_owned()));
    assert(pairs_view(pairs@) =~= pairs_view(before).push((key@, value@)));
}

fn session_query(credentials: &Credentials) -> (pairs: Vec<(String, String)>)
    ensures
        pairs_view(pairs@) == session_pairs(*credentials),
{
    let mut pairs: Vec<(String, String)> = Vec::new();
    assert(pairs_view(pairs@) =~= Seq::empty());
    push_pair(&mut pairs, "clientBuildNumber", credentials.client_build_number.as_str());
    push_pair(&mut pairs, "clientMasteringNumber", credentials.client_mastering_number.as_str());
    push_pair(&mut pairs, "clientId", credentials.client_id.as_str());
    push_pair(&mut pairs, "dsid", credentials.dsid.as_str());
    assert(pairs_view(pairs@) =~= session_pairs(*credentials));
    pairs
}

/// The query of a page request: the session, the page size, the unified format and, when
/// continuing, the continuation marker.
pub fn tombstone_query(credentials: &Credentials, continuation_marker: Option<&str>) -> (pairs: Vec<(String, String)>)
    ensures
        pairs_view(pairs@) == tombstone_pairs(*credentials, match continuation_marker {
            Some(m) => Some(m@),
            None => None,
        }),
{
    let mut pairs = session_query(credentials);
    let limit = decimal_text(DEFAULT_FETCH_PAGE_SIZE);
    push_pair(&mut pairs, "limit", limit.as_str());
    push_pair(&mut pairs, "unified_format", "true");
    assert(pairs_view(pairs@) =~= session_pairs(*credentials) + seq![
        ("limit"@, decimal(DEFAULT_FETCH_PAGE_SIZE as nat)),
        ("unified_format"@, "true"@),
    ]);
    match continuation_marker {
        Some(m) => push_pair(&mut pairs, "nextPage", m),
        None => {},
    }
    pairs
}

/// The listing endpoint under a base URL (trailing slashes of the base dropped).
pub open spec fn tombstones_endpoint(base_url: Seq<char>) -> Seq<char> {
    trim_end(base_url, '/') + "/ws/_all_/list/enumerate/tombstones"@
}

/// The restore endpoint under a base URL (trailing slashes of the base dropped).
pub open spec fn restore_endpoint(base_url: Seq<char>) -> Seq<char> {
    trim_end(base_url, '/') + "/v1/items"@
}

/// The URL of a page of the deleted-items listing.
pub fn tombstones_url(base_url: &str, credentials: &Credentials, continuation_marker: Option<&str>) -> (r: Result<String, RestoreError>)
    ensures
        ({
            let built = url_with_params_result(
                tombstones_endpoint(base_url@),
                tombstone_pairs(*credentials, match continuation_marker {
                    Some(m) => Some(m@),
                    None => None,
                }),
            );
            &&& built matches Ok(u) ==> (r matches Ok(s) && s@ == u)
            &&& built matches Err(e) ==> (r matches Err(RestoreError::Api(m)) && m@ == e)
        }),
{
    let base = trim_end_char(base_url, '/');
    let endpoint = concat(base.as_str(), "/ws/_all_/list/enumerate/tombstones");
    let pairs = tombstone_query(credentials, continuation_marker);
    url_result(url_with_params(endpoint.as_str(), &pairs))
}

/// The URL of a restore request.
pub fn restore_url(base_url: &str, credentials: &Credentials) -> (r: Result<String, RestoreError>)
    ensures
        ({
            let built = url_with_params_result(restore_endpoint(base_url@), session_pairs(*credentials));
            &&& built matches Ok(u) ==> (r matches Ok(s) && s@ == u)
            &&& built matches Err(e) ==> (r matches Err(RestoreError::Api(m)) && m@ == e)
        }),
{
    let base = trim_end_char(base_url, '/');
    let endpoint = concat(base.as_str(), "/v1/items");
    let pairs = session_query(credentials);
    url_result(url_with_params(endpoint.as_str(), &pairs))
}

} // verus!
