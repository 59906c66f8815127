//! The directory-navigation state: the current directory, the back and
//! forward history, and the file chosen for preview. The operating system's
//! part (canonicalizing a path, changing the process's directory) is done
//! by the caller, which hands the outcome back.
use vstd::prelude::*;

use crate::paths::{is_absolute_path, join, joined, opt_view, parent, parent_of};

verus! {

#[derive(Clone, Copy, Debug, PartialEq, Eq, Structural)]
pub enum AppTab {
    Main,
    Settings,
}

impl Default for AppTab {
    fn default() -> (r: AppTab)
        ensures
            r == AppTab::Main,
    {
        AppTab::Main
    }
}

/// How the tab area answers an application command.
#[derive(Clone, Copy, Debug, PartialEq, Eq, Structural)]
pub enum TabUpdate {
    /// Tear the interface down so that it is built again.
    Rebuild,
    /// Replace the tab area's content with the given tab.
    Show(AppTab),
}

pub fn update_tab_content_on_app_command(cmd: AppCommand) -> (r: TabUpdate)
    ensures
        r == match cmd {
            AppCommand::RebuildUi => TabUpdate::Rebuild,
            AppCommand::ChangeTab(t) => TabUpdate::Show(t),
        },
{
    match cmd {
        AppCommand::RebuildUi => TabUpdate::Rebuild,
        AppCommand::ChangeTab(t) => TabUpdate::Show(t),
    }
}

/// Something that application commands can be sent through.
pub trait ChangeTabExt {
    /// The commands sent so far.
    spec fn sent(&self) -> Seq<AppCommand>;

    fn change_tab(&mut self, tab: AppTab)
        ensures
            final(self).sent() == old(self).sent().push(AppCommand::ChangeTab(tab)),
    ;
}

/// A queue of commands waiting to be broadcast.
impl ChangeTabExt for Vec<AppCommand> {
    open spec fn sent(&self) -> Seq<AppCommand> {
        self@
    }

    fn change_tab(&mut self, tab: AppTab) {
        self.push(AppCommand::ChangeTab(tab));
    }
}

/// A request made by the explorer's widgets.
#[derive(Clone, Debug)]
pub enum ExplorerCommand {
    Reload,
    SetPreview(Option<String>),
    SetDirectory(String),
    HistoryBack,
    HistoryNext,
    GotoParent,
}

#[derive(Clone, Copy, Debug, PartialEq, Eq, Structural)]
pub enum AppCommand {
    RebuildUi,
    ChangeTab(AppTab),
}

pub ghost enum CommandView {
    Reload,
    SetPreview(Option<Seq<char>>),
    SetDirectory(Seq<char>),
    HistoryBack,
    HistoryNext,
    GotoParent,
}

impl View for ExplorerCommand {
    type V = CommandView;

    open spec fn view(&self) -> CommandView {
        match self {
            ExplorerCommand::Reload => CommandView::Reload,
            ExplorerCommand::SetPreview(p) => CommandView::SetPreview(opt_view(*p)),
            ExplorerCommand::SetDirectory(p) => CommandView::SetDirectory(p@),
            ExplorerCommand::HistoryBack => CommandView::HistoryBack,
            ExplorerCommand::HistoryNext => CommandView::HistoryNext,
            ExplorerCommand::GotoParent => CommandView::GotoParent,
        }
    }
}

/// What the caller does next for a command.
#[derive(Debug)]
pub enum Request {
    /// Nothing is to be done.
    Nothing,
    /// Show the given tab.
    ChangeTab(AppTab),
    /// Canonicalize the path, if any (a failure gives none), and hand the
    /// result to `set_preview`.
    Preview(Option<String>),
    /// Canonicalize the path; where `needs_change` holds of the result,
    /// make it the process's directory and hand the outcome to `enter`,
    /// with `record`.
    Enter { path: String, record: bool },
}

pub ghost enum RequestView {
    Nothing,
    ChangeTab(AppTab),
    Preview(Option<Seq<char>>),
    Enter { path: Seq<char>, record: bool },
}

impl View for Request {
    type V = RequestView;

    open spec fn view(&self) -> RequestView {
        match self {
            Request::Nothing => RequestView::Nothing,
            Request::ChangeTab(t) => RequestView::ChangeTab(*t),
            Request::Preview(p) => RequestView::Preview(opt_view(*p)),
            Request::Enter { path, record } => RequestView::Enter { path: path@, record: *record },
        }
    }
}

/// How changing the process's directory went.
#[derive(Clone, Debug)]
pub enum DirOutcome {
    Entered,
    NotADirectory,
    Failed(String),
}

/// What came of `enter`.
#[derive(Clone, Debug)]
pub enum Effect {
    /// The path is the current directory already.
    Unchanged,
    /// The current directory changed: list it anew.
    Changed,
    /// The path is no directory: it became the preview path.
    Previewed,
    /// The directory could not be entered; the state is as it was.
    Failed(String),
}

pub struct LocationHistory {
    pub back: Vec<String>,
    pub next: Vec<String>,
}

pub struct Explorer {
    pub current: String,
    pub history: LocationHistory,
    pub preview: Option<String>,
}

pub ghost struct ExplorerView {
    pub current: Seq<char>,
    pub back: Seq<Seq<char>>,
    pub next: Seq<Seq<char>>,
    pub preview: Option<Seq<char>>,
}

pub open spec fn texts(v: Seq<String>) -> Seq<Seq<char>> {
    v.map_values(|s: String| s@)
}

impl View for Explorer {
    type V = ExplorerView;

    open spec fn view(&self) -> ExplorerView {
        ExplorerView {
            current: self.current@,
            back: texts(self.history.back@),
            next: texts(self.history.next@),
            preview: opt_view(self.preview),
        }
    }
}

/// What the caller is asked to do for a command.
pub open spec fn request_of(s: ExplorerView, c: CommandView) -> RequestView {
    match c {
        CommandView::Reload => RequestView::ChangeTab(AppTab::Main),
        CommandView::SetPreview(p) => RequestView::Preview(p),
        CommandView::SetDirectory(p) => RequestView::Enter {
            path: joined(s.current, p),
            record: true,
        },
        CommandView::HistoryBack => if s.back.len() == 0 {
            RequestView::Nothing
        } else {
            RequestView::Enter { path: s.back.last(), record: false }
        },
        CommandView::HistoryNext => if s.next.len() == 0 {
            RequestView::Nothing
        } else {
            RequestView::Enter { path: s.next.last(), record: false }
        },
        CommandView::GotoParent => match parent_of(s.current) {
            Some(p) => RequestView::Enter { path: joined(s.current, p), record: true },
            None => RequestView::Nothing,
        },
    }
}

/// The state once a command is taken in: only the history moves, and only
/// for a step back or forward.
pub open spec fn after_command(s: ExplorerView, c: CommandView) -> ExplorerView {
    match c {
        CommandView::HistoryBack => if s.back.len() == 0 {
            s
        } else {
            ExplorerView { back: s.back.drop_last(), next: s.next.push(s.current), ..s }
        },
        CommandView::HistoryNext => if s.next.len() == 0 {
            s
        } else {
            ExplorerView { back: s.back.push(s.current), next: s.next.drop_last(), ..s }
        },
        _ => s,
    }
}

pub ghost enum OutcomeView {
    Entered,
    NotADirectory,
    Failed,
}

pub open spec fn outcome_view(o: DirOutcome) -> OutcomeView {
    match o {
        DirOutcome::Entered => OutcomeView::Entered,
        DirOutcome::NotADirectory => OutcomeView::NotADirectory,
        DirOutcome::Failed(_) => OutcomeView::Failed,
    }
}

/// The state once the caller has tried to enter `target`: a new current
/// directory clears the preview and, with `record`, pushes the old one on
/// the back history; a file becomes the preview path; any other failure
/// leaves the state alone.
pub open spec fn after_enter(
    s: ExplorerView,
    target: Seq<char>,
    o: OutcomeView,
    record: bool,
) -> ExplorerView {
    if target == s.current {
        s
    } else {
        match o {
            OutcomeView::Entered => ExplorerView {
                current: target,
                back: if record {
                    s.back.push(s.current)
                } else {
                    s.back
                },
                next: s.next,
                preview: None,
            },
            OutcomeView::NotADirectory => ExplorerView { preview: Some(target), ..s },
            OutcomeView::Failed => s,
        }
    }
}

/// One step back whose directory was entered as recorded.
pub open spec fn went_back(s: ExplorerView) -> ExplorerView {
    after_enter(
        after_command(s, CommandView::HistoryBack),
        s.back.last(),
        OutcomeView::Entered,
        false,
    )
}

/// One step forward whose directory was entered as recorded.
pub open spec fn went_forward(s: ExplorerView) -> ExplorerView {
    after_enter(
        after_command(s, CommandView::HistoryNext),
        s.next.last(),
        OutcomeView::Entered,
        false,
    )
}

pub open spec fn back_steps(s: ExplorerView, n: nat) -> ExplorerView
    decreases n,
{
    if n == 0 {
        s
    } else {
        back_steps(went_back(s), (n - 1) as nat)
    }
}

pub open spec fn forward_steps(s: ExplorerView, n: nat) -> ExplorerView
    decreases n,
{
    if n == 0 {
        s
    } else {
        went_forward(forward_steps(s, (n - 1) as nat))
    }
}

/// Same current directory and same history; the preview may differ.
pub open spec fn same_place(a: ExplorerView, b: ExplorerView) -> bool {
    a.current == b.current && a.back == b.back && a.next == b.next
}

proof fn lemma_forward_keeps_same_place(a: ExplorerView, b: ExplorerView)
    requires
        same_place(a, b),
    ensures
        same_place(went_forward(a), went_forward(b)),
{
}

/// Going back `n` times and then forward `n` times, each step entering the
/// directory that the history names, returns to the directory one started
/// in, with the history as it was.
pub proof fn lemma_back_then_forward_restores(s: ExplorerView, n: nat)
    requires
        n <= s.back.len(),
    ensures
        same_place(forward_steps(back_steps(s, n), n), s),
    decreases n,
{
    if n > 0 {
        let b = went_back(s);
        assert(b.back == s.back.drop_last());
        lemma_back_then_forward_restores(b, (n - 1) as nat);
        let x = forward_steps(back_steps(b, (n - 1) as nat), (n - 1) as nat);
        lemma_forward_keeps_same_place(x, b);
        let f = went_forward(b);
        assert(f.back =~= s.back);
        assert(f.next =~= s.next);
    }
}

/// A relative path asks for the same directory as the absolute path that
/// it names from the current directory.
pub proof fn lemma_relative_request_matches_absolute(s: ExplorerView, p: Seq<char>)
    requires
        is_absolute_path(s.current),
        !is_absolute_path(p),
    ensures
        request_of(s, CommandView::SetDirectory(p)) == request_of(
            s,
            CommandView::SetDirectory(joined(s.current, p)),
        ),
{
    let a = joined(s.current, p);
    assert(a[0] == s.current[0]);
}

/// Asking to enter a path that is no directory makes it the preview path
/// and leaves the current directory and the history as they were.
pub proof fn lemma_not_a_directory_previews(s: ExplorerView, target: Seq<char>, record: bool)
    requires
        target != s.current,
    ensures
        after_enter(s, target, OutcomeView::NotADirectory, record) == (ExplorerView {
            preview: Some(target),
            ..s
        }),
{
}

impl Explorer {
    /// An explorer in `current`, with no history and no preview.
    pub fn new(current: String) -> (r: Explorer)
        ensures
            r@ == (ExplorerView {
                current: current@,
                back: Seq::empty(),
                next: Seq::empty(),
                preview: None,
            }),
    {
        let r = Explorer {
            current,
            history: LocationHistory { back: Vec::new(), next: Vec::new() },
            preview: None,
        };
        assert(r@.back =~= Seq::empty());
        assert(r@.next =~= Seq::empty());
        r
    }

    /// Takes in a command: says what the caller has to do, and moves the
    /// history for a step back or forward.
    pub fn begin(&mut self, cmd: ExplorerCommand) -> (r: Request)
        ensures
            r@ == request_of(old(self)@, cmd@),
            final(self)@ == after_command(old(self)@, cmd@),
    {
        match cmd {
            ExplorerCommand::Reload => Request::ChangeTab(AppTab::Main),
            ExplorerCommand::SetPreview(p) => Request::Preview(p),
            ExplorerCommand::SetDirectory(p) => {
                Request::Enter { path: join(self.current.as_str(), p.as_str()), record: true }
            },
            ExplorerCommand::HistoryBack => {
                let ghost s = self@;
                match self.history.back.pop() {
                    None => Request::Nothing,
                    Some(prev) => {
                        let cur = self.current.clone();
                        self.history.next.push(cur);
                        proof {
                            assert(self@.back =~= s.back.drop_last());
                            assert(self@.next =~= s.next.push(s.current));
                        }
                        Request::Enter { path: prev, record: false }
                    },
                }
            },
            ExplorerCommand::HistoryNext => {
                let ghost s = self@;
                match self.history.next.pop() {
                    None => Request::Nothing,
                    Some(next) => {
                        let cur = self.current.clone();
                        self.history.back.push(cur);
                        proof {
                            assert(self@.back =~= s.back.push(s.current));
                            assert(self@.next =~= s.next.drop_last());
                        }
                        Request::Enter { path: next, record: false }
                    },
                }
            },
            ExplorerCommand::GotoParent => match parent(self.current.as_str()) {
                Some(p) => Request::Enter {
                    path: join(self.current.as_str(), p.as_str()),
                    record: true,
                },
                None => Request::Nothing,
            },
        }
    }

    /// Whether entering `canonical` would change the current directory.
    pub fn needs_change(&self, canonical: &String) -> (r: bool)
        ensures
            r == (canonical@ != self@.current),
    {
        !(*canonical == self.current)
    }

    /// Records how entering `canonical` went.
    pub fn enter(&mut self, canonical: String, outcome: DirOutcome, record: bool) -> (r: Effect)
        ensures
            final(self)@ == after_enter(old(self)@, canonical@, outcome_view(outcome), record),
            canonical@ == old(self)@.current ==> r is Unchanged,
            canonical@ != old(self)@.current ==> match outcome {
                DirOutcome::Entered => r is Changed,
                DirOutcome::NotADirectory => r is Previewed,
                DirOutcome::Failed(m) => r == Effect::Failed(m),
            },
    {
        if canonical == self.current {
            return Effect::Unchanged;
        }
        match outcome {
            DirOutcome::Entered => {
                let ghost s = self@;
                if record {
                    let cur = self.current.clone();
                    self.history.back.push(cur);
                }
                self.current = canonical;
                self.preview = None;
                proof {
                    if record {
                        assert(self@.back =~= s.back.push(s.current));
                    }
                }
                Effect::Changed
            },
            DirOutcome::NotADirectory => {
                self.preview = Some(canonical);
                Effect::Previewed
            },
            DirOutcome::Failed(m) => Effect::Failed(m),
        }
    }

    /// Sets the preview path, already canonicalized by the caller.
    pub fn set_preview(&mut self, canonical: Option<String>)
        ensures
            final(self)@ == (ExplorerView { preview: opt_view(canonical), ..old(self)@ }),
    {
        self.preview = canonical;
    }

    /// Forgets the preview path.
    pub fn clear_preview(&mut self)
        ensures
            final(self)@ == (ExplorerView { preview: None, ..old(self)@ }),
    {
        self.preview = None;
    }
}

} // verus!
