//! Cursor-following pagination.
//!
//! A paged listing is collected by repeating one exchange: perform the
//! pending request, decode the page, and hand it to [`Paginator::step`].
//! The step appends the page's items to the accumulator and either follows
//! the page's continuation reference, pauses and repeats the same request
//! after a transient server failure, finishes when the page carries no
//! continuation, or aborts on any other failure.  The items can be taken
//! only from a finished paginator, so an aborted run surfaces no partial
//! collection.

use vstd::prelude::*;
use crate::{ClientCfg, ClientCfgView, Error, Request, ReqView, is_server_error, is_server_error_exec};

verus! {

/// One decoded page of a listing: its items in server order, plus the
/// continuation reference of the next page, absent on the final page.
pub struct Page<C> {
    pub items: Vec<C>,
    pub next_href: Option<String>,
}

/// Mathematical image of a [`Page`].
#[verifier::ext_equal]
pub struct PageView<C> {
    pub items: Seq<C>,
    pub next: Option<Seq<char>>,
}

impl<C> View for Page<C> {
    type V = PageView<C>;

    open spec fn view(&self) -> PageView<C> {
        PageView {
            items: self.items@,
            next: match self.next_href {
                Some(ref u) => Some(u@),
                None => None,
            },
        }
    }
}

/// Where a pagination stands.
#[derive(Debug, Clone, Copy, PartialEq, Eq, Structural)]
pub enum PagPhase {
    /// The pending request still has to be performed.
    Active,
    /// The final page arrived; the items are complete.
    Finished,
    /// A fatal failure ended the run; no items are handed out.
    Aborted,
}

/// What one pagination step asks the caller to do.
#[derive(Debug)]
pub enum PageStep {
    /// A page with a continuation arrived: report `count` fetched items,
    /// then perform the new pending request.
    Next { count: usize },
    /// The final page arrived: report `count` fetched items; the collected
    /// items are ready.
    Done { count: usize },
    /// The server failed transiently: report the pause, sleep `time_secs`,
    /// and perform the unchanged pending request again.
    Pause { time_secs: u64 },
    /// A fatal failure: the whole operation ends with this error.
    Abort { err: Error },
}

/// Mathematical image of a [`Paginator`].
#[verifier::ext_equal]
pub struct PagModel<C> {
    pub collected: Seq<C>,
    pub pending: ReqView,
    pub phase: PagPhase,
}

/// The request that follows a continuation reference: a GET of the exact
/// URL the server supplied, authenticated, with the client id attached.
pub open spec fn continuation_req_view(cfg: ClientCfgView, href: Seq<char>) -> ReqView {
    ReqView {
        url: href,
        query: seq![("client_id"@, cfg.client_id)],
        oauth_token: Some(cfg.oauth_token),
    }
}

/// What [`Paginator::step`] does, as a function on the model: the new state
/// and the instruction handed back, for a page outcome.
pub open spec fn pag_step_model<C>(
    cfg: ClientCfgView,
    s: PagModel<C>,
    outcome: Result<PageView<C>, Error>,
) -> (PagModel<C>, PageStep) {
    match outcome {
        Ok(page) => {
            let collected = s.collected + page.items;
            match page.next {
                Some(href) => (
                    PagModel { collected, pending: continuation_req_view(cfg, href), phase: PagPhase::Active },
                    PageStep::Next { count: page.items.len() as usize },
                ),
                None => (
                    PagModel { collected, pending: s.pending, phase: PagPhase::Finished },
                    PageStep::Done { count: page.items.len() as usize },
                ),
            }
        },
        Err(e) => {
            if is_server_error(e) {
                (s, PageStep::Pause { time_secs: cfg.pause_secs })
            } else {
                (
                    PagModel { collected: s.collected, pending: s.pending, phase: PagPhase::Aborted },
                    PageStep::Abort { err: e },
                )
            }
        },
    }
}

/// The view of a page outcome.
pub open spec fn outcome_view<C>(o: Result<Page<C>, Error>) -> Result<PageView<C>, Error> {
    match o {
        Ok(p) => Ok(p@),
        Err(e) => Err(e),
    }
}

/// Drives repeated exchanges along a listing's continuation cursor,
/// accumulating the items of every page in server order.
pub struct Paginator<C> {
    cfg: ClientCfg,
    items: Vec<C>,
    req: Request,
    phase: PagPhase,
}

impl<C> View for Paginator<C> {
    type V = PagModel<C>;

    closed spec fn view(&self) -> PagModel<C> {
        PagModel { collected: self.items@, pending: self.req@, phase: self.phase }
    }
}

impl<C> Paginator<C> {
    /// The configuration the paginator was built with.
    pub closed spec fn cfg_view(&self) -> ClientCfgView {
        self.cfg@
    }

    /// A paginator about to perform `initial` with nothing collected yet.
    pub fn new(cfg: ClientCfg, initial: Request) -> (p: Self)
        ensures
            p@.collected =~= Seq::<C>::empty(),
            p@.pending =~= initial@,
            p@.phase is Active,
            p.cfg_view() =~= cfg@,
    {
        Paginator { cfg, items: Vec::new(), req: initial, phase: PagPhase::Active }
    }

    /// The request the caller has to perform next.
    pub fn pending_request(&self) -> (r: &Request)
        ensures
            r@ == self@.pending,
    {
        &self.req
    }

    /// Whether the pending request still has to be performed.
    pub fn active(&self) -> (b: bool)
        ensures
            b == (self@.phase is Active),
    {
        match self.phase {
            PagPhase::Active => true,
            _ => false,
        }
    }

    /// Feed the outcome of the pending exchange into the run.
    ///
    /// The returned instruction also names the one event to report: a
    /// page-progress count for `Next` and `Done`, a pause for `Pause`.
    pub fn step(&mut self, outcome: Result<Page<C>, Error>) -> (r: PageStep)
        requires
            old(self)@.phase is Active,
        ensures
            final(self).cfg_view() == old(self).cfg_view(),
            ({
                let (m, st) = pag_step_model(old(self).cfg_view(), old(self)@, outcome_view(outcome));
                final(self)@ =~= m && r == st
            }),
    {
        match outcome {
            Ok(page) => {
                let count = page.items.len();
                let mut arriving = page.items;
                self.items.append(&mut arriving);
                match page.next_href {
                    Some(href) => {
                        self.req = continuation_request(&self.cfg, href);
                        PageStep::Next { count }
                    },
                    None => {
                        self.phase = PagPhase::Finished;
                        PageStep::Done { count }
                    },
                }
            },
            Err(e) => {
                if is_server_error_exec(&e) {
                    PageStep::Pause { time_secs: self.cfg.pause_secs }
                } else {
                    self.phase = PagPhase::Aborted;
                    PageStep::Abort { err: e }
                }
            },
        }
    }

    /// Hand out the collected items of a finished run.
    ///
    /// Only a finished run can be consumed this way, so an aborted
    /// pagination never surfaces a partial collection.
    pub fn into_items(self) -> (r: Vec<C>)
        requires
            self@.phase is Finished,
        ensures
            r@ =~= self@.collected,
    {
        self.items
    }
}

/// Build the continuation request for a server-supplied reference.
fn continuation_request(cfg: &ClientCfg, href: String) -> (r: Request)
    ensures
        r@ =~= continuation_req_view(cfg@, href@),
{
    let mut query: Vec<(String, String)> = Vec::new();
    query.push(("client_id".to_owned(), cfg.client_id.clone()));
    let r = Request { url: href, query, oauth_token: Some(cfg.oauth_token.clone()) };
    proof {
        assert(r@.query =~= seq![("client_id"@, cfg@.client_id)]);
    }
    r
}

/// The model of a whole run: fold [`pag_step_model`] over a sequence of
/// page outcomes, collecting the instruction of every step.
pub open spec fn pag_run<C>(
    cfg: ClientCfgView,
    s: PagModel<C>,
    outcomes: Seq<Result<PageView<C>, Error>>,
) -> (PagModel<C>, Seq<PageStep>)
    decreases outcomes.len(),
{
    if outcomes.len() == 0 {
        (s, Seq::<PageStep>::empty())
    } else {
        let (s1, st) = pag_step_model(cfg, s, outcomes[0]);
        let (s2, sts) = pag_run(cfg, s1, outcomes.skip(1));
        (s2, seq![st] + sts)
    }
}

/// The concatenation of the items of a sequence of pages, in order.
pub open spec fn pages_concat<C>(pages: Seq<PageView<C>>) -> Seq<C>
    decreases pages.len(),
{
    if pages.len() == 0 {
        Seq::<C>::empty()
    } else {
        pages[0].items + pages_concat(pages.skip(1))
    }
}

/// The fold of an empty outcome sequence: the state stays, no instruction.
pub proof fn lemma_pag_run_empty<C>(cfg: ClientCfgView, s: PagModel<C>)
    ensures
        pag_run(cfg, s, Seq::<Result<PageView<C>, Error>>::empty()) == (s, Seq::<
            PageStep,
        >::empty()),
{
}

/// Folding concatenated outcome sequences equals folding them in turn.
pub proof fn lemma_pag_run_app<C>(
    cfg: ClientCfgView,
    s: PagModel<C>,
    a: Seq<Result<PageView<C>, Error>>,
    b: Seq<Result<PageView<C>, Error>>,
)
    ensures
        ({
            let (sa, st_a) = pag_run(cfg, s, a);
            let (sb, st_b) = pag_run(cfg, sa, b);
            pag_run(cfg, s, a + b) == (sb, st_a + st_b)
        }),
    decreases a.len(),
{
    let (sa, st_a) = pag_run(cfg, s, a);
    let (sb, st_b) = pag_run(cfg, sa, b);
    if a.len() == 0 {
        assert(a + b =~= b);
        assert(st_a + st_b =~= st_b);
    } else {
        let (s1, st0) = pag_step_model(cfg, s, a[0]);
        lemma_pag_run_app(cfg, s1, a.skip(1), b);
        assert((a + b)[0] == a[0]);
        assert((a + b).skip(1) =~= a.skip(1) + b);
        let (sa2, st_a2) = pag_run(cfg, s1, a.skip(1));
        let (sb2, st_b2) = pag_run(cfg, sa2, b);
        assert(st_a =~= seq![st0] + st_a2);
        assert(seq![st0] + (st_a2 + st_b2) =~= (seq![st0] + st_a2) + st_b2);
    }
}

/// Pagination completeness: when every exchange succeeds, the pages before
/// the last carry a continuation and the last does not, a run over them
/// finishes with the concatenation of all pages' items appended in order,
/// and its instructions report exactly one progress count per page, each
/// matching that page's item count.
pub proof fn lemma_pagination_completeness<C>(
    cfg: ClientCfgView,
    s: PagModel<C>,
    pages: Seq<PageView<C>>,
)
    requires
        s.phase is Active,
        pages.len() >= 1,
        forall|i: int| 0 <= i < pages.len() - 1 ==> pages[i].next is Some,
        pages[pages.len() - 1].next is None,
    ensures
        ({
            let (sf, steps) = pag_run(cfg, s, pages.map_values(|p: PageView<C>| Result::<PageView<C>, Error>::Ok(p)));
            &&& sf.phase is Finished
            &&& sf.collected =~= s.collected + pages_concat(pages)
            &&& steps.len() == pages.len()
            &&& forall|i: int|
                0 <= i < pages.len() - 1 ==> steps[i] == (PageStep::Next {
                    count: pages[i].items.len() as usize,
                })
            &&& steps[pages.len() - 1] == (PageStep::Done {
                count: pages[pages.len() - 1].items.len() as usize,
            })
        }),
    decreases pages.len(),
{
    let outcomes = pages.map_values(|p: PageView<C>| Result::<PageView<C>, Error>::Ok(p));
    assert(outcomes[0] == Result::<PageView<C>, Error>::Ok(pages[0]));
    let (s1, st) = pag_step_model(cfg, s, outcomes[0]);
    if pages.len() == 1 {
        assert(outcomes.skip(1) =~= Seq::<Result<PageView<C>, Error>>::empty());
        lemma_pag_run_empty(cfg, s1);
        assert(pages.skip(1) =~= Seq::<PageView<C>>::empty());
        assert(pages_concat(pages.skip(1)) =~= Seq::<C>::empty());
        let (sf, steps) = pag_run(cfg, s, outcomes);
        assert(sf == s1);
        assert(steps =~= seq![st]);
        assert(s1.collected =~= s.collected + (pages[0].items + pages_concat(pages.skip(1))));
        assert(pages_concat(pages) == pages[0].items + pages_concat(pages.skip(1)));
    } else {
        assert(pages[0].next is Some);
        lemma_pagination_completeness(cfg, s1, pages.skip(1));
        assert(outcomes.skip(1) =~= pages.skip(1).map_values(
            |p: PageView<C>| Result::<PageView<C>, Error>::Ok(p),
        ));
        let (sf, steps_rest) = pag_run(cfg, s1, outcomes.skip(1));
        assert(sf.collected =~= s1.collected + pages_concat(pages.skip(1)));
        assert(s1.collected =~= s.collected + pages[0].items);
        assert(sf.collected =~= s.collected + (pages[0].items + pages_concat(pages.skip(1))));
        let (sf2, steps) = pag_run(cfg, s, outcomes);
        assert(steps =~= seq![st] + steps_rest);
        assert forall|i: int| 0 <= i < pages.len() - 1 implies steps[i] == (PageStep::Next {
            count: pages[i].items.len() as usize,
        }) by {
            if i > 0 {
                assert(steps[i] == steps_rest[i - 1]);
                assert(pages.skip(1)[i - 1] == pages[i]);
            }
        }
        assert(steps[pages.len() - 1] == steps_rest[pages.len() - 2]);
        assert(pages.skip(1)[pages.len() - 2] == pages[pages.len() - 1]);
    }
}

/// A transient server failure preserves the cursor: a 5xx outcome slipped
/// in between any two parts of a run leaves the final state — and with it
/// every collected item — exactly as the run without the failure, and the
/// instructions gain exactly one pause at that spot, right before the
/// retried page's own progress instruction.
pub proof fn lemma_retry_preserves_cursor<C>(
    cfg: ClientCfgView,
    s: PagModel<C>,
    prefix: Seq<Result<PageView<C>, Error>>,
    suffix: Seq<Result<PageView<C>, Error>>,
    code: u16,
)
    requires
        crate::spec_is_500(code),
    ensures
        ({
            let err: Result<PageView<C>, Error> = Err(Error::HttpError(code));
            let (sp, steps_p) = pag_run(cfg, s, prefix);
            let (sf, steps_s) = pag_run(cfg, sp, suffix);
            &&& pag_run(cfg, s, prefix + suffix) == (sf, steps_p + steps_s)
            &&& pag_run(cfg, s, prefix + seq![err] + suffix) == (
                sf,
                steps_p + seq![PageStep::Pause { time_secs: cfg.pause_secs }] + steps_s,
            )
        }),
{
    let err: Result<PageView<C>, Error> = Err(Error::HttpError(code));
    let pause = PageStep::Pause { time_secs: cfg.pause_secs };
    let (sp, steps_p) = pag_run(cfg, s, prefix);
    lemma_pag_run_app(cfg, s, prefix, suffix);
    assert(is_server_error(Error::HttpError(code)));
    assert(pag_step_model(cfg, sp, err) == (sp, pause));
    lemma_pag_run_empty(cfg, sp);
    assert(seq![err].skip(1) =~= Seq::<Result<PageView<C>, Error>>::empty());
    assert(pag_run(cfg, sp, seq![err]).0 == sp);
    assert(pag_run(cfg, sp, seq![err]).1 =~= seq![pause]);
    lemma_pag_run_app(cfg, s, prefix, seq![err]);
    assert((prefix + seq![err]) + suffix =~= prefix + seq![err] + suffix);
    lemma_pag_run_app(cfg, s, prefix + seq![err], suffix);
    assert(pag_run(cfg, s, prefix + seq![err]).1 =~= steps_p + seq![pause]);
    assert((steps_p + seq![pause]) + pag_run(cfg, sp, suffix).1 =~= steps_p + seq![pause]
        + pag_run(cfg, sp, suffix).1);
}

/// Any failure other than a 5xx aborts the run at that step: the state
/// becomes aborted with exactly the items collected before the failure, and
/// the step's instruction carries the error out.
pub proof fn lemma_non_5xx_abort<C>(
    cfg: ClientCfgView,
    s: PagModel<C>,
    outcomes: Seq<Result<PageView<C>, Error>>,
    k: int,
)
    requires
        0 <= k < outcomes.len(),
        outcomes[k] matches Err(e) && !is_server_error(e),
    ensures
        ({
            let (sk, _) = pag_run(cfg, s, outcomes.take(k));
            let (sa, steps) = pag_run(cfg, s, outcomes.take(k + 1));
            &&& sa.phase is Aborted
            &&& sa.collected =~= sk.collected
            &&& steps.len() == k + 1
            &&& steps[k] == (PageStep::Abort { err: outcomes[k]->Err_0 })
        }),
{
    lemma_pag_run_snoc(cfg, s, outcomes.take(k), outcomes[k]);
    assert(outcomes.take(k + 1) =~= outcomes.take(k).push(outcomes[k]));
    lemma_pag_run_len(cfg, s, outcomes.take(k));
}

/// Folding one more outcome equals stepping once after the shorter fold.
pub proof fn lemma_pag_run_snoc<C>(
    cfg: ClientCfgView,
    s: PagModel<C>,
    outcomes: Seq<Result<PageView<C>, Error>>,
    last: Result<PageView<C>, Error>,
)
    ensures
        ({
            let (sn, steps) = pag_run(cfg, s, outcomes);
            let (sl, st) = pag_step_model(cfg, sn, last);
            pag_run(cfg, s, outcomes.push(last)) == (sl, steps.push(st))
        }),
{
    let (sn, steps) = pag_run(cfg, s, outcomes);
    let (sl, st) = pag_step_model(cfg, sn, last);
    lemma_pag_run_app(cfg, s, outcomes, seq![last]);
    lemma_pag_run_empty(cfg, sl);
    assert(seq![last].skip(1) =~= Seq::<Result<PageView<C>, Error>>::empty());
    assert(pag_run(cfg, sn, seq![last]).0 == sl);
    assert(pag_run(cfg, sn, seq![last]).1 =~= seq![st]);
    assert(outcomes + seq![last] =~= outcomes.push(last));
    assert(steps + seq![st] =~= steps.push(st));
}

/// A run hands back exactly one instruction per outcome.
pub proof fn lemma_pag_run_len<C>(
    cfg: ClientCfgView,
    s: PagModel<C>,
    outcomes: Seq<Result<PageView<C>, Error>>,
)
    ensures
        pag_run(cfg, s, outcomes).1.len() == outcomes.len(),
    decreases outcomes.len(),
{
    if outcomes.len() > 0 {
        let (s1, _) = pag_step_model(cfg, s, outcomes[0]);
        lemma_pag_run_len(cfg, s1, outcomes.skip(1));
    }
}

} // verus!
