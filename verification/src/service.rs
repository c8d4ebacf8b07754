//! The navigation service: owns the authoritative state, serializes
//! navigation requests, drives the matcher and the history provider, and
//! reports which subscribers to notify.

use vstd::prelude::*;

use crate::history::RoutingHistory;
use crate::matcher::{
    empty_match, resolve, resolve_target, target_path_spec, walk_spec, MatchView, Resolution,
    TargetOutcome, TargetResolution,
};
use crate::navigation::{opt_view, pairs_view, NavigationTarget};
use crate::path::{
    entry_path, entry_query, lemma_strs_view_drop_last, lemma_strs_view_push, split_entry,
    split_path_spec, strs_view,
};
use crate::route_definition::content::slots_view;
use crate::route_definition::Segment;
use crate::state::RouterState;

verus! {

/// A navigation request, applied in order during a drain cycle.
#[derive(Clone, Debug)]
pub enum RoutingMessage {
    /// Register the observer with this identity token; it is notified once
    /// per drain cycle from then on, while it stays live.
    Subscribe(u64),
    /// Resolve the target and push it onto the history.
    Push(NavigationTarget),
    /// Resolve the target and replace the current history entry with it.
    Replace(NavigationTarget),
    /// Go one history entry back.
    GoBack,
    /// Go one history entry forward.
    GoForward,
}

/// Why a navigation request was not performed.
#[derive(Clone, Debug)]
pub enum RoutingError {
    /// A named target references a route name absent from the tree; carries
    /// the name.
    UnresolvedName(String),
    /// An external target was requested but the history provider declares
    /// no external-navigation support; carries the URL.
    ExternalUnsupported(String),
    /// A redirect chain exceeded the configured limit; carries the path the
    /// last redirect asked for.
    RedirectLimit(String),
}

/// The observable content of a [`RoutingError`].
pub enum ErrorView {
    UnresolvedName(Seq<char>),
    ExternalUnsupported(Seq<char>),
    RedirectLimit(Seq<char>),
}

impl View for RoutingError {
    type V = ErrorView;

    open spec fn view(&self) -> ErrorView {
        match self {
            RoutingError::UnresolvedName(name) => ErrorView::UnresolvedName(name@),
            RoutingError::ExternalUnsupported(url) => ErrorView::ExternalUnsupported(url@),
            RoutingError::RedirectLimit(path) => ErrorView::RedirectLimit(path@),
        }
    }
}

/// The view of an error list.
pub open spec fn errors_view(errors: Seq<RoutingError>) -> Seq<ErrorView> {
    errors.map_values(|e: RoutingError| e@)
}

/// The observable model of a history stack: past entries, the current
/// entry, and future entries, each as a sequence of characters.
#[verifier::ext_equal]
pub struct HistView {
    /// The entries navigated away from, oldest first.
    pub past: Seq<Seq<char>>,
    /// The current entry.
    pub present: Seq<char>,
    /// The entries reachable by going forward, nearest last.
    pub future: Seq<Seq<char>>,
}

/// The observable model of a history provider.
pub open spec fn hist_view<H: RoutingHistory<String>>(history: &H) -> HistView {
    HistView {
        past: strs_view(history.past()),
        present: history.present()@,
        future: strs_view(history.future()),
    }
}

/// What `push` does to the model.
pub open spec fn hist_push(h: HistView, path: Seq<char>) -> HistView {
    HistView { past: h.past.push(h.present), present: path, future: Seq::<Seq<char>>::empty() }
}

/// What `replace` does to the model.
pub open spec fn hist_replace(h: HistView, path: Seq<char>) -> HistView {
    HistView { past: h.past, present: path, future: h.future }
}

/// What `go_back` does to the model.
pub open spec fn hist_back(h: HistView) -> HistView {
    if h.past.len() == 0 {
        h
    } else {
        HistView {
            past: h.past.drop_last(),
            present: h.past.last(),
            future: h.future.push(h.present),
        }
    }
}

/// What `go_forward` does to the model.
pub open spec fn hist_forward(h: HistView) -> HistView {
    if h.future.len() == 0 {
        h
    } else {
        HistView {
            past: h.past.push(h.present),
            present: h.future.last(),
            future: h.future.drop_last(),
        }
    }
}

/// A push followed immediately by a go-back restores the exact previous
/// current entry, with the previous past restored as well.
pub proof fn lemma_push_then_back(h: HistView, path: Seq<char>)
    ensures
        hist_back(hist_push(h, path)).present == h.present,
        hist_back(hist_push(h, path)).past == h.past,
{
}

/// A go-back followed by a go-forward restores the entry that was current
/// before the go-back. When there is nothing to go back to and something
/// to go forward to, the go-back is a no-op while the go-forward is not,
/// so that starting state is left out.
pub proof fn lemma_back_then_forward(h: HistView)
    requires
        h.past.len() != 0 || h.future.len() == 0,
    ensures
        hist_forward(hist_back(h)).present == h.present,
{
    if h.past.len() != 0 {
        assert(hist_back(h).future.len() != 0);
    }
}

/// A push clears all future entries: immediately after it there is nothing
/// to go forward to, whatever go-backs came before.
pub proof fn lemma_push_clears_future(h: HistView, path: Seq<char>)
    ensures
        hist_push(h, path).future.len() == 0,
{
}

/// A replace never changes whether one can go back or forward.
pub proof fn lemma_replace_keeps_motion(h: HistView, path: Seq<char>)
    ensures
        (hist_replace(h, path).past.len() != 0) == (h.past.len() != 0),
        (hist_replace(h, path).future.len() != 0) == (h.future.len() != 0),
{
}

/// The model carried through one drain cycle: the history, the subscriber
/// registry, and the errors reported so far.
#[verifier::ext_equal]
pub struct DrainModel {
    /// The history model.
    pub hist: HistView,
    /// The registered subscriber identities, in registration order.
    pub subs: Seq<u64>,
    /// The errors reported so far, in order.
    pub errors: Seq<ErrorView>,
}

/// What applying one message to the model does.
///
/// A target that resolves to a path is applied to the history; an external
/// target is handed off when the provider supports that and reported as an
/// error otherwise; an unresolved name is reported as an error and the
/// navigation is not performed.
pub open spec fn step_spec(
    routes: Segment,
    model: DrainModel,
    message: RoutingMessage,
    can_external: bool,
) -> DrainModel {
    match message {
        RoutingMessage::Subscribe(id) => DrainModel {
            hist: model.hist,
            subs: model.subs.push(id),
            errors: model.errors,
        },
        RoutingMessage::GoBack => DrainModel {
            hist: hist_back(model.hist),
            subs: model.subs,
            errors: model.errors,
        },
        RoutingMessage::GoForward => DrainModel {
            hist: hist_forward(model.hist),
            subs: model.subs,
            errors: model.errors,
        },
        RoutingMessage::Push(target) => match target_path_spec(
            target@,
            entry_path(model.hist.present),
            routes,
        ) {
            TargetOutcome::Path(path) => DrainModel {
                hist: hist_push(model.hist, path),
                subs: model.subs,
                errors: model.errors,
            },
            TargetOutcome::External(url) => if can_external {
                model
            } else {
                DrainModel {
                    hist: model.hist,
                    subs: model.subs,
                    errors: model.errors.push(ErrorView::ExternalUnsupported(url)),
                }
            },
            TargetOutcome::Unresolved(name) => DrainModel {
                hist: model.hist,
                subs: model.subs,
                errors: model.errors.push(ErrorView::UnresolvedName(name)),
            },
        },
        RoutingMessage::Replace(target) => match target_path_spec(
            target@,
            entry_path(model.hist.present),
            routes,
        ) {
            TargetOutcome::Path(path) => DrainModel {
                hist: hist_replace(model.hist, path),
                subs: model.subs,
                errors: model.errors,
            },
            TargetOutcome::External(url) => if can_external {
                model
            } else {
                DrainModel {
                    hist: model.hist,
                    subs: model.subs,
                    errors: model.errors.push(ErrorView::ExternalUnsupported(url)),
                }
            },
            TargetOutcome::Unresolved(name) => DrainModel {
                hist: model.hist,
                subs: model.subs,
                errors: model.errors.push(ErrorView::UnresolvedName(name)),
            },
        },
    }
}

/// What applying a whole message sequence does, in order.
pub open spec fn drain_spec(
    routes: Segment,
    messages: Seq<RoutingMessage>,
    model: DrainModel,
    can_external: bool,
) -> DrainModel
    decreases messages.len(),
{
    if messages.len() == 0 {
        model
    } else {
        step_spec(
            routes,
            drain_spec(routes, messages.drop_last(), model, can_external),
            messages.last(),
            can_external,
        )
    }
}

/// What settling does after the queue is drained: resolve the current path;
/// a redirect is applied as a replace and resolution starts over, at most
/// `fuel` times.
///
/// `done` is the final non-redirect match when one was reached; on a
/// reported error, and after an external hand-off, no new snapshot is
/// produced. `external` is the URL handed off, if any.
pub struct SettleModel {
    /// The history model after settling.
    pub hist: HistView,
    /// The final match, when a non-redirect state was reached.
    pub done: Option<MatchView>,
    /// The external URL handed off, if any.
    pub external: Option<Seq<char>>,
    /// The error that stopped settling, if one did.
    pub error: Option<ErrorView>,
}

/// The settling outcome, starting from the history model `h`.
pub open spec fn settle_spec(routes: Segment, h: HistView, can_external: bool, fuel: nat) -> SettleModel
    decreases fuel,
{
    let path = entry_path(h.present);
    let outcome = walk_spec(routes, split_path_spec(path), 0, empty_match());
    match outcome.redirect {
        None => SettleModel { hist: h, done: Some(outcome), external: None, error: None },
        Some(target) => match target_path_spec(target, path, routes) {
            TargetOutcome::Path(p) => if fuel == 0 {
                SettleModel {
                    hist: h,
                    done: None,
                    external: None,
                    error: Some(ErrorView::RedirectLimit(p)),
                }
            } else {
                settle_spec(routes, hist_replace(h, p), can_external, (fuel - 1) as nat)
            },
            TargetOutcome::External(url) => SettleModel {
                hist: h,
                done: None,
                external: if can_external {
                    Some(url)
                } else {
                    None
                },
                error: if can_external {
                    None
                } else {
                    Some(ErrorView::ExternalUnsupported(url))
                },
            },
            TargetOutcome::Unresolved(name) => SettleModel {
                hist: h,
                done: None,
                external: None,
                error: Some(ErrorView::UnresolvedName(name)),
            },
        },
    }
}

/// Whether a snapshot publishes exactly the match `m` for the history model
/// `h`.
pub open spec fn snapshot_matches(
    state: RouterState,
    h: HistView,
    m: MatchView,
    can_external: bool,
) -> bool {
    &&& state.components.0@ == m.mains
    &&& slots_view(state.components.1@) == m.slots
    &&& strs_view(state.names@) == m.names
    &&& pairs_view(state.parameters@) == m.params
    &&& state.path@ == entry_path(h.present)
    &&& opt_view(state.query) == entry_query(h.present)
    &&& state.can_go_back == (h.past.len() != 0)
    &&& state.can_go_forward == (h.future.len() != 0)
    &&& state.can_external == can_external
}

/// The registry after one notification pass: the subscribers that are
/// live, first occurrence only, in order.
pub open spec fn dedup_live(subs: Seq<u64>, live: Seq<u64>) -> Seq<u64>
    decreases subs.len(),
{
    if subs.len() == 0 {
        Seq::<u64>::empty()
    } else {
        let init = dedup_live(subs.drop_last(), live);
        let id = subs.last();
        if live.contains(id) && !init.contains(id) {
            init.push(id)
        } else {
            init
        }
    }
}

/// One notification pass delivers to each live subscriber exactly once:
/// the pass holds no identity twice, holds only identities that are both
/// registered and live, and holds every identity that is.
pub proof fn lemma_dedup_live_delivers_once(subs: Seq<u64>, live: Seq<u64>)
    ensures
        forall|i: int, j: int|
            0 <= i < j < dedup_live(subs, live).len() ==> dedup_live(subs, live)[i] != dedup_live(
                subs,
                live,
            )[j],
        forall|i: int|
            0 <= i < dedup_live(subs, live).len() ==> live.contains(#[trigger] dedup_live(subs, live)[i])
                && subs.contains(dedup_live(subs, live)[i]),
        forall|id: u64|
            subs.contains(id) && live.contains(id) ==> dedup_live(subs, live).contains(id),
    decreases subs.len(),
{
    if subs.len() == 0 {
    } else {
        let init = dedup_live(subs.drop_last(), live);
        let id = subs.last();
        lemma_dedup_live_delivers_once(subs.drop_last(), live);
        let result = dedup_live(subs, live);
        assert forall|i: int|
            0 <= i < result.len() implies live.contains(#[trigger] result[i]) && subs.contains(
            result[i],
        ) by {
            if i < init.len() {
                assert(result[i] == init[i]);
                let k = choose|k: int| 0 <= k < subs.drop_last().len() && subs.drop_last()[k] == init[i];
                assert(subs[k] == init[i]);
            } else {
                assert(result[i] == id);
                assert(subs[subs.len() - 1] == id);
            }
        }
        assert forall|x: u64| subs.contains(x) && live.contains(x) implies result.contains(x) by {
            let k = choose|k: int| 0 <= k < subs.len() && subs[k] == x;
            if k < subs.len() - 1 {
                assert(subs.drop_last()[k] == x);
                assert(subs.drop_last().contains(x));
                let m = choose|m: int| 0 <= m < init.len() && init[m] == x;
                assert(result[m] == x);
            } else {
                if live.contains(id) && !init.contains(id) {
                    assert(result[result.len() - 1] == x);
                } else {
                    let m = choose|m: int| 0 <= m < init.len() && init[m] == x;
                    assert(result[m] == x);
                }
            }
        }
    }
}

/// The result of one drain cycle: the subscribers to notify, each exactly
/// once, and the errors met while applying the queued messages.
pub struct DrainOutcome {
    /// The identities to notify, deduplicated, live ones only, in
    /// registration order.
    pub notify: Vec<u64>,
    /// The errors met, in order.
    pub errors: Vec<RoutingError>,
}

/// Whether the identity list holds `id`.
fn contains_id(ids: &Vec<u64>, id: u64) -> (found: bool)
    ensures
        found == ids@.contains(id),
{
    let mut i: usize = 0;
    while i < ids.len()
        invariant
            i <= ids@.len(),
            forall|j: int| 0 <= j < i ==> ids@[j] != id,
        decreases ids@.len() - i,
    {
        if ids[i] == id {
            return true;
        }
        i += 1;
    }
    false
}

/// The errors a step reports do not depend on the errors already
/// collected: they are appended.
proof fn lemma_step_errors(
    routes: Segment,
    model: DrainModel,
    message: RoutingMessage,
    can_external: bool,
)
    ensures
        ({
            let base = step_spec(
                routes,
                DrainModel { hist: model.hist, subs: model.subs, errors: Seq::<ErrorView>::empty() },
                message,
                can_external,
            );
            let full = step_spec(routes, model, message, can_external);
            &&& full.hist == base.hist
            &&& full.subs == base.subs
            &&& full.errors == model.errors + base.errors
        }),
{
    assert(model.errors + Seq::<ErrorView>::empty() =~= model.errors);
    assert forall|e: ErrorView|
        model.errors + Seq::<ErrorView>::empty().push(e) =~= model.errors.push(e) by {}
}

/// The navigation service.
///
/// All mutation of the history and the published snapshot happens inside
/// one drain cycle; callers enqueue messages with [`submit`] and run
/// [`run_until_empty`] from a single logical thread of control.
///
/// [`submit`]: RoutingService::submit
/// [`run_until_empty`]: RoutingService::run_until_empty
pub struct RoutingService<H: RoutingHistory<String>> {
    history: H,
    routes: Segment,
    prefix: String,
    redirect_limit: usize,
    state: RouterState,
    queue: Vec<RoutingMessage>,
    subscribers: Vec<u64>,
}

impl<H: RoutingHistory<String>> RoutingService<H> {
    /// The model of the owned history provider.
    pub closed spec fn history_model(&self) -> HistView {
        hist_view(&self.history)
    }

    /// Whether the owned history provider can navigate externally.
    pub closed spec fn external_capability(&self) -> bool {
        self.history.external_capability()
    }

    /// The route tree the service matches against.
    pub closed spec fn routes_spec(&self) -> Segment {
        self.routes
    }

    /// The configured prefix, carried into every snapshot.
    pub closed spec fn prefix_spec(&self) -> Seq<char> {
        self.prefix@
    }

    /// The configured bound on redirect chains.
    pub closed spec fn redirect_limit_spec(&self) -> nat {
        self.redirect_limit as nat
    }

    /// The published snapshot.
    pub closed spec fn snapshot(&self) -> RouterState {
        self.state
    }

    /// The messages submitted and not yet drained, in order.
    pub closed spec fn pending(&self) -> Seq<RoutingMessage> {
        self.queue@
    }

    /// The registered subscriber identities, in order.
    pub closed spec fn subscriber_ids(&self) -> Seq<u64> {
        self.subscribers@
    }

    /// Create a service around a history provider and a finalized route
    /// tree.
    ///
    /// `redirect_limit` bounds every redirect chain met while settling; an
    /// overflowing chain is reported as [`RoutingError::RedirectLimit`].
    /// The snapshot starts empty: run [`run_until_empty`] once to resolve
    /// the provider's initial path.
    ///
    /// [`run_until_empty`]: RoutingService::run_until_empty
    pub fn new(history: H, routes: Segment, prefix: String, redirect_limit: usize) -> (service:
        Self)
        ensures
            service.history_model() == hist_view(&history),
            service.external_capability() == history.external_capability(),
            service.routes_spec() == routes,
            service.prefix_spec() == prefix@,
            service.redirect_limit_spec() == redirect_limit as nat,
            crate::state::is_empty_snapshot(service.snapshot()),
            service.pending() == Seq::<RoutingMessage>::empty(),
            service.subscriber_ids() == Seq::<u64>::empty(),
    {
        Self {
            history,
            routes,
            prefix,
            redirect_limit,
            state: RouterState::new(),
            queue: Vec::new(),
            subscribers: Vec::new(),
        }
    }

    /// Read the published snapshot.
    pub fn state(&self) -> (state: &RouterState)
        ensures
            *state == self.snapshot(),
    {
        &self.state
    }

    /// Enqueue one navigation request. Nothing is applied until the next
    /// [`run_until_empty`].
    ///
    /// [`run_until_empty`]: RoutingService::run_until_empty
    pub fn submit(&mut self, message: RoutingMessage)
        ensures
            final(self).pending() == old(self).pending().push(message),
            final(self).history_model() == old(self).history_model(),
            final(self).external_capability() == old(self).external_capability(),
            final(self).routes_spec() == old(self).routes_spec(),
            final(self).prefix_spec() == old(self).prefix_spec(),
            final(self).redirect_limit_spec() == old(self).redirect_limit_spec(),
            final(self).snapshot() == old(self).snapshot(),
            final(self).subscriber_ids() == old(self).subscriber_ids(),
    {
        self.queue.push(message);
    }

    /// Apply one message: register a subscriber, move through the history,
    /// or resolve and apply a navigation target; a request that cannot be
    /// performed is returned as an error.
    fn apply_message(&mut self, message: RoutingMessage) -> (error: Option<RoutingError>)
        ensures
            ({
                let stepped = step_spec(
                    old(self).routes_spec(),
                    DrainModel {
                        hist: old(self).history_model(),
                        subs: old(self).subscriber_ids(),
                        errors: Seq::<ErrorView>::empty(),
                    },
                    message,
                    old(self).external_capability(),
                );
                &&& final(self).history_model() == stepped.hist
                &&& final(self).subscriber_ids() == stepped.subs
                &&& match error {
                    None => stepped.errors == Seq::<ErrorView>::empty(),
                    Some(e) => stepped.errors == seq![e@],
                }
            }),
            final(self).external_capability() == old(self).external_capability(),
            final(self).routes_spec() == old(self).routes_spec(),
            final(self).prefix_spec() == old(self).prefix_spec(),
            final(self).redirect_limit_spec() == old(self).redirect_limit_spec(),
            final(self).snapshot() == old(self).snapshot(),
            final(self).pending() == old(self).pending(),
    {
        let ghost h0 = hist_view(&self.history);
        match message {
            RoutingMessage::Subscribe(id) => {
                self.subscribers.push(id);
                None
            },
            RoutingMessage::GoBack => {
                self.history.go_back();
                proof {
                    if h0.past.len() != 0 {
                        lemma_strs_view_drop_last(old(self).history.past());
                        lemma_strs_view_push(old(self).history.future(), old(self).history.present());
                    }
                    assert(hist_view(&self.history) =~= hist_back(h0));
                }
                None
            },
            RoutingMessage::GoForward => {
                self.history.go_forward();
                proof {
                    if h0.future.len() != 0 {
                        lemma_strs_view_drop_last(old(self).history.future());
                        lemma_strs_view_push(old(self).history.past(), old(self).history.present());
                    }
                    assert(hist_view(&self.history) =~= hist_forward(h0));
                }
                None
            },
            RoutingMessage::Push(target) => {
                let entry = self.history.current().clone();
                let (path, _query) = split_entry(entry.as_str());
                match resolve_target(&target, path.as_str(), &self.routes) {
                    TargetResolution::Path(p) => {
                        let ghost pv = p@;
                        self.history.push(p);
                        proof {
                            lemma_strs_view_push(old(self).history.past(), old(self).history.present());
                            assert(strs_view(Seq::<String>::empty()) =~= Seq::<Seq<char>>::empty());
                            assert(hist_view(&self.history) =~= hist_push(h0, pv));
                        }
                        None
                    },
                    TargetResolution::External(url) => {
                        if self.history.can_external() {
                            self.history.external(url);
                            None
                        } else {
                            let error = RoutingError::ExternalUnsupported(url);
                            proof {
                                assert(Seq::<ErrorView>::empty().push(error@) =~= seq![error@]);
                            }
                            Some(error)
                        }
                    },
                    TargetResolution::Unresolved(name) => {
                        let error = RoutingError::UnresolvedName(name);
                        proof {
                            assert(Seq::<ErrorView>::empty().push(error@) =~= seq![error@]);
                        }
                        Some(error)
                    },
                }
            },
            RoutingMessage::Replace(target) => {
                let entry = self.history.current().clone();
                let (path, _query) = split_entry(entry.as_str());
                match resolve_target(&target, path.as_str(), &self.routes) {
                    TargetResolution::Path(p) => {
                        let ghost pv = p@;
                        self.history.replace(p);
                        proof {
                            assert(hist_view(&self.history) =~= hist_replace(h0, pv));
                        }
                        None
                    },
                    TargetResolution::External(url) => {
                        if self.history.can_external() {
                            self.history.external(url);
                            None
                        } else {
                            let error = RoutingError::ExternalUnsupported(url);
                            proof {
                                assert(Seq::<ErrorView>::empty().push(error@) =~= seq![error@]);
                            }
                            Some(error)
                        }
                    },
                    TargetResolution::Unresolved(name) => {
                        let error = RoutingError::UnresolvedName(name);
                        proof {
                            assert(Seq::<ErrorView>::empty().push(error@) =~= seq![error@]);
                        }
                        Some(error)
                    },
                }
            },
        }
    }

    /// Apply every pending message, in order, collecting the errors.
    #[verifier::loop_isolation(false)]
    fn drain_queue(&mut self) -> (errors: Vec<RoutingError>)
        ensures
            ({
                let drained = drain_spec(
                    old(self).routes_spec(),
                    old(self).pending(),
                    DrainModel {
                        hist: old(self).history_model(),
                        subs: old(self).subscriber_ids(),
                        errors: Seq::<ErrorView>::empty(),
                    },
                    old(self).external_capability(),
                );
                &&& final(self).history_model() == drained.hist
                &&& final(self).subscriber_ids() == drained.subs
                &&& errors_view(errors@) == drained.errors
            }),
            final(self).pending() == Seq::<RoutingMessage>::empty(),
            final(self).external_capability() == old(self).external_capability(),
            final(self).routes_spec() == old(self).routes_spec(),
            final(self).prefix_spec() == old(self).prefix_spec(),
            final(self).redirect_limit_spec() == old(self).redirect_limit_spec(),
            final(self).snapshot() == old(self).snapshot(),
    {
        let mut pending: Vec<RoutingMessage> = Vec::new();
        core::mem::swap(&mut self.queue, &mut pending);
        let ghost all = pending@;
        let ghost start = DrainModel {
            hist: self.history_model(),
            subs: self.subscriber_ids(),
            errors: Seq::<ErrorView>::empty(),
        };
        let ghost cap = self.external_capability();
        let ghost routes = self.routes_spec();
        let mut errors: Vec<RoutingError> = Vec::new();
        proof {
            assert(all.take(0) =~= Seq::<RoutingMessage>::empty());
            assert(errors_view(errors@) =~= Seq::<ErrorView>::empty());
            assert(all.skip(0) =~= all);
        }
        while pending.len() > 0
            invariant
                pending@.len() <= all.len(),
                pending@ == all.skip(all.len() - pending@.len()),
                ({
                    let done = drain_spec(routes, all.take(all.len() - pending@.len()), start, cap);
                    &&& self.history_model() == done.hist
                    &&& self.subscriber_ids() == done.subs
                    &&& errors_view(errors@) == done.errors
                }),
                self.pending() == Seq::<RoutingMessage>::empty(),
                self.external_capability() == cap,
                self.routes_spec() == routes,
                self.prefix_spec() == old(self).prefix_spec(),
                self.redirect_limit_spec() == old(self).redirect_limit_spec(),
                self.snapshot() == old(self).snapshot(),
            decreases pending@.len(),
        {
            let ghost i = all.len() - pending@.len();
            let ghost done_before = drain_spec(routes, all.take(i), start, cap);
            let message = pending.remove(0);
            proof {
                assert(message == all[i]);
                assert(pending@ =~= all.skip(i + 1));
            }
            let error = self.apply_message(message);
            proof {
                lemma_step_errors(routes, done_before, all[i], cap);
                assert(all.take(i + 1).drop_last() =~= all.take(i));
                assert(all.take(i + 1).last() == all[i]);
            }
            let ghost base_errors = step_spec(
                routes,
                DrainModel {
                    hist: done_before.hist,
                    subs: done_before.subs,
                    errors: Seq::<ErrorView>::empty(),
                },
                all[i],
                cap,
            ).errors;
            match error {
                Some(e) => {
                    proof {
                        assert(done_before.errors + seq![e@] =~= done_before.errors.push(e@));
                    }
                    errors.push(e);
                    proof {
                        assert(errors_view(errors@) =~= errors_view(errors@.drop_last()).push(
                            errors@.last()@,
                        ));
                    }
                },
                None => {
                    proof {
                        assert(done_before.errors + base_errors =~= done_before.errors);
                    }
                },
            }
        }
        proof {
            assert(all.take(all.len() as int) =~= all);
        }
        errors
    }

    /// Resolve the provider's current path and publish the outcome; a
    /// redirect is applied as a replace — never a push — and resolution
    /// starts over, at most as many times as the configured limit.
    ///
    /// On an error, and after an external hand-off, the previous snapshot
    /// stays published.
    #[verifier::loop_isolation(false)]
    fn settle(&mut self) -> (error: Option<RoutingError>)
        ensures
            ({
                let settled = settle_spec(
                    old(self).routes_spec(),
                    old(self).history_model(),
                    old(self).external_capability(),
                    old(self).redirect_limit_spec(),
                );
                &&& final(self).history_model() == settled.hist
                &&& match settled.done {
                    Some(m) => snapshot_matches(
                        final(self).snapshot(),
                        settled.hist,
                        m,
                        old(self).external_capability(),
                    ) && final(self).snapshot().prefix@ == old(self).prefix_spec(),
                    None => final(self).snapshot() == old(self).snapshot(),
                }
                &&& match error {
                    None => settled.error is None,
                    Some(e) => settled.error == Some(e@),
                }
            }),
            final(self).pending() == old(self).pending(),
            final(self).subscriber_ids() == old(self).subscriber_ids(),
            final(self).external_capability() == old(self).external_capability(),
            final(self).routes_spec() == old(self).routes_spec(),
            final(self).prefix_spec() == old(self).prefix_spec(),
            final(self).redirect_limit_spec() == old(self).redirect_limit_spec(),
    {
        let ghost routes = self.routes_spec();
        let ghost cap = self.external_capability();
        let ghost target_model = settle_spec(
            routes,
            self.history_model(),
            cap,
            self.redirect_limit_spec(),
        );
        let limit = self.redirect_limit;
        let mut iterations: usize = 0;
        loop
            invariant
                iterations <= limit,
                settle_spec(routes, self.history_model(), cap, (limit - iterations) as nat)
                    == target_model,
                self.pending() == old(self).pending(),
                self.subscriber_ids() == old(self).subscriber_ids(),
                self.snapshot() == old(self).snapshot(),
                self.external_capability() == cap,
                self.routes_spec() == routes,
                self.prefix_spec() == old(self).prefix_spec(),
                self.redirect_limit_spec() == old(self).redirect_limit_spec(),
                limit == old(self).redirect_limit_spec(),
            decreases limit - iterations,
        {
            let ghost h_now = self.history_model();
            let entry = self.history.current().clone();
            let (path, query) = split_entry(entry.as_str());
            let can_back = self.history.can_go_back();
            let can_forward = self.history.can_go_forward();
            let can_ext = self.history.can_external();
            match resolve(
                &self.routes,
                path.as_str(),
                query,
                self.prefix.clone(),
                can_back,
                can_forward,
                can_ext,
            ) {
                Resolution::Settled(new_state) => {
                    self.state = new_state;
                    proof {
                        assert(self.snapshot().path@ == entry_path(h_now.present));
                        assert(strs_view(old(self).history.past()).len()
                            == old(self).history.past().len());
                    }
                    return None;
                },
                Resolution::Redirect(target) => {
                    match resolve_target(&target, path.as_str(), &self.routes) {
                        TargetResolution::Path(p) => {
                            if iterations == limit {
                                return Some(RoutingError::RedirectLimit(p));
                            }
                            let ghost pv = p@;
                            self.history.replace(p);
                            proof {
                                assert(hist_view(&self.history) =~= hist_replace(h_now, pv));
                            }
                            iterations += 1;
                        },
                        TargetResolution::External(url) => {
                            if self.history.can_external() {
                                self.history.external(url);
                                return None;
                            } else {
                                return Some(RoutingError::ExternalUnsupported(url));
                            }
                        },
                        TargetResolution::Unresolved(name) => {
                            return Some(RoutingError::UnresolvedName(name));
                        },
                    }
                },
            }
        }
    }

    /// One notification pass over the registry: of the subscribers still
    /// live, each first occurrence is kept; duplicates and dead subscribers
    /// are pruned. The kept identities are returned, to be notified each
    /// exactly once.
    ///
    /// `live` holds the identities whose observers are still reachable;
    /// the owner of the registry supplies it, standing in for a liveness
    /// check on each subscriber.
    #[verifier::loop_isolation(false)]
    pub fn update_subscribers(&mut self, live: &Vec<u64>) -> (notify: Vec<u64>)
        ensures
            final(self).subscriber_ids() == dedup_live(old(self).subscriber_ids(), live@),
            notify@ == dedup_live(old(self).subscriber_ids(), live@),
            final(self).history_model() == old(self).history_model(),
            final(self).external_capability() == old(self).external_capability(),
            final(self).routes_spec() == old(self).routes_spec(),
            final(self).prefix_spec() == old(self).prefix_spec(),
            final(self).redirect_limit_spec() == old(self).redirect_limit_spec(),
            final(self).snapshot() == old(self).snapshot(),
            final(self).pending() == old(self).pending(),
    {
        let ghost subs = self.subscribers@;
        let mut retained: Vec<u64> = Vec::new();
        let mut notify: Vec<u64> = Vec::new();
        let mut i: usize = 0;
        proof {
            assert(subs.take(0) =~= Seq::<u64>::empty());
        }
        while i < self.subscribers.len()
            invariant
                i <= subs.len(),
                subs == self.subscribers@,
                retained@ == dedup_live(subs.take(i as int), live@),
                notify@ == retained@,
            decreases subs.len() - i,
        {
            let id = self.subscribers[i];
            if contains_id(live, id) && !contains_id(&retained, id) {
                retained.push(id);
                notify.push(id);
            }
            proof {
                assert(subs.take(i as int + 1).drop_last() =~= subs.take(i as int));
                assert(subs.take(i as int + 1).last() == subs[i as int]);
            }
            i += 1;
        }
        proof {
            assert(subs.take(subs.len() as int) =~= subs);
        }
        self.subscribers = retained;
        notify
    }

    /// One drain cycle: apply every queued message in order, settle the
    /// resulting path into a new snapshot, and prune the registry.
    ///
    /// The returned outcome carries the subscribers to notify — each
    /// exactly once per cycle — and the errors met; an error never aborts
    /// the cycle.
    pub fn run_until_empty(&mut self, live: &Vec<u64>) -> (outcome: DrainOutcome)
        ensures
            ({
                let drained = drain_spec(
                    old(self).routes_spec(),
                    old(self).pending(),
                    DrainModel {
                        hist: old(self).history_model(),
                        subs: old(self).subscriber_ids(),
                        errors: Seq::<ErrorView>::empty(),
                    },
                    old(self).external_capability(),
                );
                let settled = settle_spec(
                    old(self).routes_spec(),
                    drained.hist,
                    old(self).external_capability(),
                    old(self).redirect_limit_spec(),
                );
                &&& final(self).history_model() == settled.hist
                &&& final(self).pending() == Seq::<RoutingMessage>::empty()
                &&& final(self).subscriber_ids() == dedup_live(drained.subs, live@)
                &&& outcome.notify@ == dedup_live(drained.subs, live@)
                &&& errors_view(outcome.errors@) == drained.errors + (match settled.error {
                    Some(e) => seq![e],
                    None => Seq::<ErrorView>::empty(),
                })
                &&& match settled.done {
                    Some(m) => snapshot_matches(
                        final(self).snapshot(),
                        settled.hist,
                        m,
                        old(self).external_capability(),
                    ) && final(self).snapshot().prefix@ == old(self).prefix_spec(),
                    None => final(self).snapshot() == old(self).snapshot(),
                }
            }),
            final(self).external_capability() == old(self).external_capability(),
            final(self).routes_spec() == old(self).routes_spec(),
            final(self).prefix_spec() == old(self).prefix_spec(),
            final(self).redirect_limit_spec() == old(self).redirect_limit_spec(),
    {
        let mut errors = self.drain_queue();
        let ghost collected = errors_view(errors@);
        let settle_error = self.settle();
        match settle_error {
            Some(e) => {
                let ghost ev = e@;
                errors.push(e);
                proof {
                    assert(errors_view(errors@) =~= collected.push(ev));
                    assert(collected + seq![ev] =~= collected.push(ev));
                }
            },
            None => {
                proof {
                    assert(collected + Seq::<ErrorView>::empty() =~= collected);
                }
            },
        }
        let notify = self.update_subscribers(live);
        DrainOutcome { notify, errors }
    }
}

} // verus!
