//! The order of an open request. The window work is done by the caller;
//! this state machine says what to do next from what the last step
//! reported: validate the address before touching the window, report a
//! missing window before placing it, place, restore, show and focus it
//! before loading the page, and remember the address only once the window
//! has accepted it.
use vstd::prelude::*;

use crate::admission::{admitted, begins_with_scheme, validate_url, UrlParts};
use crate::navigation::{
    is_https_address,
    missing_window,
    missing_window_message,
    navigation_failure,
    navigation_failure_message,
    navigation_needed,
    HttpsAddress,
};
use crate::text::str_equal;

verus! {

/// The step an open request is waiting on.
#[derive(Debug, Clone, Copy)]
pub enum OpenPhase {
    FindingWindow,
    CheckingPlacement,
    Placing,
    CheckingMinimized,
    Unminimizing,
    CheckingVisible,
    Showing,
    Focusing,
    Titling,
    ReadingMemory,
    Navigating,
    Recording,
    Finished,
}

/// What the caller does next.
#[derive(Debug)]
pub enum OpenAction {
    /// Answer the request with this result.
    Finish(Result<String, String>),
    /// Look the window up; report whether it exists.
    FindWindow,
    /// Report whether no window position is remembered yet.
    CheckPlacement,
    /// Centre the window on the main window.
    PlaceAtCenter,
    /// Report whether the window is minimized.
    CheckMinimized,
    Unminimize,
    /// Report whether the window is visible.
    CheckVisible,
    Show,
    Focus,
    SetTitle(String),
    /// Report the remembered address (`None` when it cannot be read).
    ReadMemory,
    /// Load this address (the admitted URL's serialization); report the
    /// outcome.
    Navigate(String),
    /// Remember this address as requested.
    Record(HttpsAddress),
}

/// What the caller reports of the step it did.
#[derive(Debug)]
pub enum OpenReport {
    Done,
    Answer(bool),
    Remembered(Option<String>),
    Navigated(Result<(), String>),
}

/// An action, taken by its view.
pub enum ActionView {
    Finish(Result<Seq<char>, Seq<char>>),
    FindWindow,
    CheckPlacement,
    PlaceAtCenter,
    CheckMinimized,
    Unminimize,
    CheckVisible,
    Show,
    Focus,
    SetTitle(Seq<char>),
    ReadMemory,
    Navigate(Seq<char>),
    Record(Seq<char>),
}

/// A report, taken by its view.
pub enum ReportView {
    Done,
    Answer(bool),
    Remembered(Option<Seq<char>>),
    Navigated(Result<(), Seq<char>>),
}

pub open spec fn opt_str_view(o: Option<String>) -> Option<Seq<char>> {
    match o {
        Some(s) => Some(s@),
        None => None,
    }
}

impl View for OpenAction {
    type V = ActionView;

    open spec fn view(&self) -> ActionView {
        match self {
            OpenAction::Finish(Ok(t)) => ActionView::Finish(Ok(t@)),
            OpenAction::Finish(Err(e)) => ActionView::Finish(Err(e@)),
            OpenAction::FindWindow => ActionView::FindWindow,
            OpenAction::CheckPlacement => ActionView::CheckPlacement,
            OpenAction::PlaceAtCenter => ActionView::PlaceAtCenter,
            OpenAction::CheckMinimized => ActionView::CheckMinimized,
            OpenAction::Unminimize => ActionView::Unminimize,
            OpenAction::CheckVisible => ActionView::CheckVisible,
            OpenAction::Show => ActionView::Show,
            OpenAction::Focus => ActionView::Focus,
            OpenAction::SetTitle(t) => ActionView::SetTitle(t@),
            OpenAction::ReadMemory => ActionView::ReadMemory,
            OpenAction::Navigate(t) => ActionView::Navigate(t@),
            OpenAction::Record(t) => ActionView::Record(t@),
        }
    }
}

impl View for OpenReport {
    type V = ReportView;

    open spec fn view(&self) -> ReportView {
        match self {
            OpenReport::Done => ReportView::Done,
            OpenReport::Answer(b) => ReportView::Answer(*b),
            OpenReport::Remembered(m) => ReportView::Remembered(opt_str_view(*m)),
            OpenReport::Navigated(Ok(())) => ReportView::Navigated(Ok(())),
            OpenReport::Navigated(Err(e)) => ReportView::Navigated(Err(e@)),
        }
    }
}

/// An open request in progress: the address to load, the title to set,
/// whether a reload was asked for, and the step it waits on.
pub struct FlowView {
    pub target: Seq<char>,
    pub title: Option<Seq<char>>,
    pub reload: bool,
    pub phase: OpenPhase,
}

pub struct OpenFlow {
    target: String,
    title: Option<String>,
    reload: bool,
    phase: OpenPhase,
}

impl View for OpenFlow {
    type V = FlowView;

    closed spec fn view(&self) -> FlowView {
        FlowView {
            target: self.target@,
            title: opt_str_view(self.title),
            reload: self.reload,
            phase: self.phase,
        }
    }
}

/// The position of a step in the fixed order of an open request.
pub open spec fn rank(p: OpenPhase) -> int {
    match p {
        OpenPhase::FindingWindow => 0,
        OpenPhase::CheckingPlacement => 1,
        OpenPhase::Placing => 2,
        OpenPhase::CheckingMinimized => 3,
        OpenPhase::Unminimizing => 4,
        OpenPhase::CheckingVisible => 5,
        OpenPhase::Showing => 6,
        OpenPhase::Focusing => 7,
        OpenPhase::Titling => 8,
        OpenPhase::ReadingMemory => 9,
        OpenPhase::Navigating => 10,
        OpenPhase::Recording => 11,
        OpenPhase::Finished => 12,
    }
}

/// A request that is still running loads an `https` address.
pub open spec fn flow_ok(v: FlowView) -> bool {
    v.phase !is Finished ==> is_https_address(v.target)
}

/// The kind of report that the step `p` waits on.
pub open spec fn fits(p: OpenPhase, r: ReportView) -> bool {
    match p {
        OpenPhase::FindingWindow | OpenPhase::CheckingPlacement | OpenPhase::CheckingMinimized
        | OpenPhase::CheckingVisible => r is Answer,
        OpenPhase::ReadingMemory => r is Remembered,
        OpenPhase::Navigating => r is Navigated,
        OpenPhase::Finished => false,
        _ => r is Done,
    }
}

pub open spec fn yes(r: ReportView) -> bool {
    match r {
        ReportView::Answer(b) => b,
        _ => false,
    }
}

/// The next step of an open request, and the action it asks for, once the
/// step it waited on has reported `r`.
pub open spec fn open_next(v: FlowView, r: ReportView) -> (OpenPhase, ActionView) {
    match v.phase {
        OpenPhase::FindingWindow => if yes(r) {
            (OpenPhase::CheckingPlacement, ActionView::CheckPlacement)
        } else {
            (OpenPhase::Finished, ActionView::Finish(Err(missing_window_message())))
        },
        OpenPhase::CheckingPlacement => if yes(r) {
            (OpenPhase::Placing, ActionView::PlaceAtCenter)
        } else {
            (OpenPhase::CheckingMinimized, ActionView::CheckMinimized)
        },
        OpenPhase::Placing => (OpenPhase::CheckingMinimized, ActionView::CheckMinimized),
        OpenPhase::CheckingMinimized => if yes(r) {
            (OpenPhase::Unminimizing, ActionView::Unminimize)
        } else {
            (OpenPhase::CheckingVisible, ActionView::CheckVisible)
        },
        OpenPhase::Unminimizing => (OpenPhase::CheckingVisible, ActionView::CheckVisible),
        OpenPhase::CheckingVisible => if yes(r) {
            (OpenPhase::Focusing, ActionView::Focus)
        } else {
            (OpenPhase::Showing, ActionView::Show)
        },
        OpenPhase::Showing => (OpenPhase::Focusing, ActionView::Focus),
        OpenPhase::Focusing => match v.title {
            Some(t) => (OpenPhase::Titling, ActionView::SetTitle(t)),
            None => (OpenPhase::ReadingMemory, ActionView::ReadMemory),
        },
        OpenPhase::Titling => (OpenPhase::ReadingMemory, ActionView::ReadMemory),
        OpenPhase::ReadingMemory => {
            let m = match r {
                ReportView::Remembered(m) => m,
                _ => None,
            };
            if navigation_needed(m, v.target, v.reload) {
                (OpenPhase::Navigating, ActionView::Navigate(v.target))
            } else {
                (OpenPhase::Finished, ActionView::Finish(Ok(v.target)))
            }
        },
        OpenPhase::Navigating => match r {
            ReportView::Navigated(Err(e)) => (
                OpenPhase::Finished,
                ActionView::Finish(Err(navigation_failure_message(e))),
            ),
            _ => (OpenPhase::Recording, ActionView::Record(v.target)),
        },
        OpenPhase::Recording => (OpenPhase::Finished, ActionView::Finish(Ok(v.target))),
        OpenPhase::Finished => (OpenPhase::Finished, ActionView::Finish(Ok(v.target))),
    }
}

proof fn lemma_https_prefix(p: UrlParts)
    requires
        begins_with_scheme(p),
        p.scheme == "https"@,
    ensures
        is_https_address(p.href),
{
    reveal_strlit("https");
    reveal_strlit("https:");
    assert(p.href.subrange(0, 6) =~= "https:"@);
}

impl OpenFlow {
    /// The flow's internal consistency: a running request loads an `https`
    /// address.
    pub closed spec fn wf(&self) -> bool {
        flow_ok(self@)
    }

    /// Starts an open request of `raw_url`: a refused address ends it at
    /// once with the refusal, before any window work; an admitted one
    /// continues with looking the window up.
    pub fn start(raw_url: &str, title: Option<&str>, reload: bool) -> (r: (OpenFlow, OpenAction))
        ensures
            r.0.wf(),
            r.0@.title == (match title {
                Some(t) => Some(t@),
                None => None::<Seq<char>>,
            }),
            r.0@.reload == reload,
            match admitted(raw_url@) {
                Err(e) => r.0@.phase is Finished && r.1@ == ActionView::Finish(Err(e)),
                Ok(p) => r.0@.phase is FindingWindow && r.0@.target == p.href && r.1@
                    == ActionView::FindWindow,
            },
    {
        let title: Option<String> = match title {
            Some(t) => Some(String::from_str(t)),
            None => None,
        };
        match validate_url(raw_url) {
            Err(e) => (
                OpenFlow {
                    target: String::new(),
                    title,
                    reload,
                    phase: OpenPhase::Finished,
                },
                OpenAction::Finish(Err(e)),
            ),
            Ok(p) => {
                proof {
                    lemma_https_prefix(p@);
                }
                (
                    OpenFlow {
                        target: p.href,
                        title,
                        reload,
                        phase: OpenPhase::FindingWindow,
                    },
                    OpenAction::FindWindow,
                )
            },
        }
    }

    /// Whether `report` is the kind of report the current step waits on.
    pub fn expects(&self, report: &OpenReport) -> (b: bool)
        ensures
            b == fits(self@.phase, report@),
    {
        match (self.phase, report) {
            (OpenPhase::FindingWindow, OpenReport::Answer(_)) => true,
            (OpenPhase::CheckingPlacement, OpenReport::Answer(_)) => true,
            (OpenPhase::CheckingMinimized, OpenReport::Answer(_)) => true,
            (OpenPhase::CheckingVisible, OpenReport::Answer(_)) => true,
            (OpenPhase::ReadingMemory, OpenReport::Remembered(_)) => true,
            (OpenPhase::Navigating, OpenReport::Navigated(_)) => true,
            (OpenPhase::Placing, OpenReport::Done) => true,
            (OpenPhase::Unminimizing, OpenReport::Done) => true,
            (OpenPhase::Showing, OpenReport::Done) => true,
            (OpenPhase::Focusing, OpenReport::Done) => true,
            (OpenPhase::Titling, OpenReport::Done) => true,
            (OpenPhase::Recording, OpenReport::Done) => true,
            _ => false,
        }
    }

    /// Takes the report of the step just done and says what to do next
    /// (see `open_next`).
    pub fn advance(&mut self, report: OpenReport) -> (a: OpenAction)
        requires
            old(self).wf(),
            fits(old(self)@.phase, report@),
        ensures
            final(self).wf(),
            (final(self)@.phase, a@) == open_next(old(self)@, report@),
            final(self)@.target == old(self)@.target,
            final(self)@.title == old(self)@.title,
            final(self)@.reload == old(self)@.reload,
    {
        let yes = match &report {
            OpenReport::Answer(b) => *b,
            _ => false,
        };
        match self.phase {
            OpenPhase::FindingWindow => {
                if yes {
                    self.phase = OpenPhase::CheckingPlacement;
                    OpenAction::CheckPlacement
                } else {
                    self.phase = OpenPhase::Finished;
                    OpenAction::Finish(Err(missing_window()))
                }
            },
            OpenPhase::CheckingPlacement => {
                if yes {
                    self.phase = OpenPhase::Placing;
                    OpenAction::PlaceAtCenter
                } else {
                    self.phase = OpenPhase::CheckingMinimized;
                    OpenAction::CheckMinimized
                }
            },
            OpenPhase::Placing => {
                self.phase = OpenPhase::CheckingMinimized;
                OpenAction::CheckMinimized
            },
            OpenPhase::CheckingMinimized => {
                if yes {
                    self.phase = OpenPhase::Unminimizing;
                    OpenAction::Unminimize
                } else {
                    self.phase = OpenPhase::CheckingVisible;
                    OpenAction::CheckVisible
                }
            },
            OpenPhase::Unminimizing => {
                self.phase = OpenPhase::CheckingVisible;
                OpenAction::CheckVisible
            },
            OpenPhase::CheckingVisible => {
                if yes {
                    self.phase = OpenPhase::Focusing;
                    OpenAction::Focus
                } else {
                    self.phase = OpenPhase::Showing;
                    OpenAction::Show
                }
            },
            OpenPhase::Showing => {
                self.phase = OpenPhase::Focusing;
                OpenAction::Focus
            },
            OpenPhase::Focusing => {
                match &self.title {
                    Some(t) => {
                        let t = t.clone();
                        self.phase = OpenPhase::Titling;
                        OpenAction::SetTitle(t)
                    },
                    None => {
                        self.phase = OpenPhase::ReadingMemory;
                        OpenAction::ReadMemory
                    },
                }
            },
            OpenPhase::Titling => {
                self.phase = OpenPhase::ReadingMemory;
                OpenAction::ReadMemory
            },
            OpenPhase::ReadingMemory => {
                let needed = match &report {
                    OpenReport::Remembered(Some(m)) => self.reload || !str_equal(
                        m.as_str(),
                        self.target.as_str(),
                    ),
                    _ => true,
                };
                if needed {
                    self.phase = OpenPhase::Navigating;
                    OpenAction::Navigate(self.target.clone())
                } else {
                    self.phase = OpenPhase::Finished;
                    OpenAction::Finish(Ok(self.target.clone()))
                }
            },
            OpenPhase::Navigating => {
                match &report {
                    OpenReport::Navigated(Err(e)) => {
                        self.phase = OpenPhase::Finished;
                        OpenAction::Finish(Err(navigation_failure(e.as_str())))
                    },
                    _ => {
                        let address = HttpsAddress::new(self.target.clone());
                        self.phase = OpenPhase::Recording;
                        OpenAction::Record(address)
                    },
                }
            },
            OpenPhase::Recording => {
                self.phase = OpenPhase::Finished;
                OpenAction::Finish(Ok(self.target.clone()))
            },
            OpenPhase::Finished => OpenAction::Finish(Ok(self.target.clone())),
        }
    }
}

/// Every step moves an open request forward in the fixed order: find the
/// window (a missing one is reported before anything else is done), place,
/// restore, show, focus, title, read the memory, navigate, record. No step
/// is done twice and none comes back.
pub proof fn law_open_steps_move_forward(v: FlowView, r: ReportView)
    requires
        fits(v.phase, r),
    ensures
        rank(open_next(v, r).0) > rank(v.phase),
{
}

/// The page is loaded only once the window has been found, restored, shown
/// and focused and the memory read, and only when a reload was asked for or
/// the address differs from the one remembered.
pub proof fn law_navigate_only_when_needed(v: FlowView, r: ReportView)
    requires
        fits(v.phase, r),
        open_next(v, r).1 is Navigate,
    ensures
        v.phase is ReadingMemory,
        open_next(v, r).1 == ActionView::Navigate(v.target),
        r matches ReportView::Remembered(m) && navigation_needed(m, v.target, v.reload),
{
}

/// The address is remembered only after the window accepted the
/// navigation; a failed navigation is answered with its error and leaves
/// the memory alone.
pub proof fn law_record_only_after_successful_navigation(v: FlowView, r: ReportView)
    requires
        fits(v.phase, r),
        open_next(v, r).1 is Record,
    ensures
        v.phase is Navigating,
        r matches ReportView::Navigated(Ok(_)),
{
}

/// What an open request remembers, and what a successful one answers, is an
/// `https` address, never empty: once a site was opened the window state
/// never shows an empty address again.
pub proof fn law_opened_address_is_https(v: FlowView, r: ReportView)
    requires
        flow_ok(v),
        fits(v.phase, r),
    ensures
        open_next(v, r).1 matches ActionView::Record(t) ==> is_https_address(t) && t.len() > 0,
        open_next(v, r).1 matches ActionView::Finish(Ok(t)) ==> is_https_address(t) && t.len()
            > 0,
{
}

/// The actions a request asks for when its steps report `reports` in turn
/// (up to the first report that does not fit its step).
pub open spec fn run_actions(v: FlowView, reports: Seq<ReportView>) -> Seq<ActionView>
    decreases reports.len(),
{
    if reports.len() == 0 || !fits(v.phase, reports[0]) {
        Seq::<ActionView>::empty()
    } else {
        let (p, a) = open_next(v, reports[0]);
        seq![a] + run_actions(FlowView { phase: p, ..v }, reports.drop_first())
    }
}

/// The address an action loads, remembers or answers, if any.
pub open spec fn address_of(a: ActionView) -> Option<Seq<char>> {
    match a {
        ActionView::Navigate(t) => Some(t),
        ActionView::Record(t) => Some(t),
        ActionView::Finish(Ok(t)) => Some(t),
        _ => None,
    }
}

proof fn lemma_run_addresses(v: FlowView, reports: Seq<ReportView>)
    ensures
        forall|i: int|
            0 <= i < run_actions(v, reports).len() ==> (address_of(
                #[trigger] run_actions(v, reports)[i],
            ) matches Some(t) ==> t == v.target),
    decreases reports.len(),
{
    if reports.len() > 0 && fits(v.phase, reports[0]) {
        let (p, a) = open_next(v, reports[0]);
        let w = FlowView { phase: p, ..v };
        lemma_run_addresses(w, reports.drop_first());
        let rest = run_actions(w, reports.drop_first());
        assert forall|i: int|
            0 <= i < run_actions(v, reports).len() implies (address_of(
            #[trigger] run_actions(v, reports)[i],
        ) matches Some(t) ==> t == v.target) by {
            if i > 0 {
                assert(run_actions(v, reports)[i] == rest[i - 1]);
            }
        }
    }
}

/// A whole open request loads, remembers and answers only the admitted
/// address: whatever its steps report, every `Navigate`, `Record` and
/// successful `Finish` carries what the URL parser made of the trimmed
/// input, so the memory ends up holding either its old address or that one.
/// (No action creates or destroys a window: there is none such.)
pub proof fn law_request_uses_only_the_admitted_address(
    raw: Seq<char>,
    p: UrlParts,
    title: Option<Seq<char>>,
    reload: bool,
    reports: Seq<ReportView>,
)
    requires
        admitted(raw) == Ok::<UrlParts, Seq<char>>(p),
    ensures
        forall|i: int|
            0 <= i < run_actions(
                FlowView { target: p.href, title, reload, phase: OpenPhase::FindingWindow },
                reports,
            ).len() ==> (address_of(
                #[trigger] run_actions(
                    FlowView { target: p.href, title, reload, phase: OpenPhase::FindingWindow },
                    reports,
                )[i],
            ) matches Some(t) ==> t == p.href),
{
    lemma_run_addresses(
        FlowView { target: p.href, title, reload, phase: OpenPhase::FindingWindow },
        reports,
    );
}

/// Opening the address the window already holds, without a reload, never
/// navigates: when every memory read reports that address, no action of the
/// request is `Navigate`, so the page and a conversation on it are kept.
pub proof fn law_same_address_again_keeps_the_page(v: FlowView, reports: Seq<ReportView>)
    requires
        !v.reload,
        forall|i: int|
            0 <= i < reports.len() && (#[trigger] reports[i]) is Remembered ==> reports[i]
                == ReportView::Remembered(Some(v.target)),
    ensures
        forall|i: int|
            0 <= i < run_actions(v, reports).len() ==> !(#[trigger] run_actions(
                v,
                reports,
            )[i] is Navigate),
    decreases reports.len(),
{
    if reports.len() > 0 && fits(v.phase, reports[0]) {
        let (p, a) = open_next(v, reports[0]);
        let w = FlowView { phase: p, ..v };
        let tail = reports.drop_first();
        assert forall|i: int|
            0 <= i < tail.len() && (#[trigger] tail[i]) is Remembered implies tail[i]
                == ReportView::Remembered(Some(w.target)) by {
            assert(tail[i] == reports[i + 1]);
        }
        law_same_address_again_keeps_the_page(w, tail);
        let rest = run_actions(w, tail);
        assert(reports[0] is Remembered ==> reports[0] == ReportView::Remembered(Some(v.target)));
        assert forall|i: int|
            0 <= i < run_actions(v, reports).len() implies !(#[trigger] run_actions(
            v,
            reports,
        )[i] is Navigate) by {
            if i > 0 {
                assert(run_actions(v, reports)[i] == rest[i - 1]);
            }
        }
    }
}

/// Once the memory has been read, a request with a reload, or for an
/// address other than the remembered one, or with an unreadable memory,
/// loads its target; only a request without reload for the remembered
/// address answers at once with that address.
pub proof fn law_reload_or_new_address_navigates(
    v: FlowView,
    m: Option<Seq<char>>,
)
    requires
        v.phase is ReadingMemory,
    ensures
        v.reload ==> open_next(v, ReportView::Remembered(m)) == (
            OpenPhase::Navigating,
            ActionView::Navigate(v.target),
        ),
        (m matches Some(x) && x != v.target) ==> open_next(v, ReportView::Remembered(m)) == (
            OpenPhase::Navigating,
            ActionView::Navigate(v.target),
        ),
        m is None ==> open_next(v, ReportView::Remembered(m)) == (
            OpenPhase::Navigating,
            ActionView::Navigate(v.target),
        ),
        (!v.reload && m == Some(v.target)) ==> open_next(v, ReportView::Remembered(m)) == (
            OpenPhase::Finished,
            ActionView::Finish(Ok(v.target)),
        ),
{
}

/// Each window question decides its step: a missing window ends the
/// request with the missing-window error; a window without a remembered
/// position is centred, one with a position is not; a minimized window is
/// restored, a hidden window shown, and a visible one only focused; a title,
/// when given, is set after focusing.
pub proof fn law_window_questions_decide_their_steps(v: FlowView, b: bool)
    ensures
        v.phase is FindingWindow ==> open_next(v, ReportView::Answer(b)).1 == (if b {
            ActionView::CheckPlacement
        } else {
            ActionView::Finish(Err(missing_window_message()))
        }),
        v.phase is CheckingPlacement ==> open_next(v, ReportView::Answer(b)).1 == (if b {
            ActionView::PlaceAtCenter
        } else {
            ActionView::CheckMinimized
        }),
        v.phase is CheckingMinimized ==> open_next(v, ReportView::Answer(b)).1 == (if b {
            ActionView::Unminimize
        } else {
            ActionView::CheckVisible
        }),
        v.phase is CheckingVisible ==> open_next(v, ReportView::Answer(b)).1 == (if b {
            ActionView::Focus
        } else {
            ActionView::Show
        }),
        v.phase is Focusing ==> open_next(v, ReportView::Done).1 == (match v.title {
            Some(t) => ActionView::SetTitle(t),
            None => ActionView::ReadMemory,
        }),
{
}

/// A failed navigation answers with the window's error and remembers
/// nothing; a successful one is remembered and then answered with the
/// target.
pub proof fn law_navigation_outcome(v: FlowView, e: Seq<char>)
    requires
        v.phase is Navigating,
    ensures
        open_next(v, ReportView::Navigated(Err(e))) == (
            OpenPhase::Finished,
            ActionView::Finish(Err(navigation_failure_message(e))),
        ),
        open_next(v, ReportView::Navigated(Ok(()))) == (
            OpenPhase::Recording,
            ActionView::Record(v.target),
        ),
        open_next(FlowView { phase: OpenPhase::Recording, ..v }, ReportView::Done) == (
            OpenPhase::Finished,
            ActionView::Finish(Ok(v.target)),
        ),
{
}

} // verus!
