//! The `new` command: a project is made from a template while the log of the
//! work scrolls by above a live viewport.
//!
//! The update loop is a state machine. Whoever drives it waits for input for at
//! most one tick interval, hands what came of the wait to [`NewApp::update`], and
//! does what the returned [`Action`] says.
//!
//! Cancellation stops the loop at once, without a last flush or render: what is
//! still buffered then is never shown. The one exception is a task that has
//! already signalled completion: its last lines are shown whatever the wait
//! produced, and the loop stops after that.

use crate::content::{Content, LiveContent, Span, SpanView, Tone};
use crate::lines::{lines_of, tail_of};
use crate::repo::{default_hosts, known_hosts, resolution, resolve_repo, ResolveError};
use crate::term::{
    lemma_flush_is_idempotent, lemma_history_in_order, lemma_write_keeps_history, texts,
    DisplayState, Term,
};
use crate::text::{decode_lossy, option_text, shows, string_views, utf8_lossy};
use vstd::prelude::*;
use vstd::utf8::encode_utf8;

verus! {

/// How long a wait for input may last, in milliseconds.
pub const TICK_INTERVAL_MS: u64 = 20;

/// The number of rows of the live viewport.
pub const VIEWPORT_HEIGHT: u16 = 24;

/// What the `new` command is asked to do.
#[derive(Debug, PartialEq, Eq)]
pub struct NewArgs {
    /// The repository: a full URL, or a short form such as `owner/name` that is
    /// looked up on a host.
    pub repo: String,
    /// Where the new project is to be created.
    pub path: String,
    /// The branch to check out; the repository's main branch if none is named.
    pub branch: Option<String>,
    /// The host to get the repository from, as a URL. Ignored if `repo` is a full URL.
    pub host: Option<String>,
}

/// The two states of the update loop. `Stopped` is final.
#[derive(Clone, Copy, Debug, PartialEq, Eq, Structural)]
pub enum LoopState {
    Running,
    Stopped,
}

/// A key as far as the loop tells keys apart.
#[derive(Clone, Copy, Debug, PartialEq, Eq, Structural)]
pub enum Key {
    /// The escape key, which cancels.
    Esc,
    /// Any other key.
    Other,
}

/// An input event.
#[derive(Clone, Copy, Debug, PartialEq, Eq, Structural)]
pub enum Input {
    /// A key was pressed.
    Key(Key),
    /// Anything else happened.
    Other,
}

/// What the driver of the loop has to do after an update.
#[derive(Debug, PartialEq, Eq)]
pub enum Action {
    /// Nothing is to be drawn.
    Nothing,
    /// Insert `scrollback` above the viewport, line by line in this order, then
    /// draw the viewport with the content that the display driver now holds.
    Redraw { scrollback: Vec<String> },
}

/// An action as a mathematical value.
pub enum ActionView {
    Nothing,
    Redraw { scrollback: Seq<Seq<char>> },
}

impl View for Action {
    type V = ActionView;

    open spec fn view(&self) -> ActionView {
        match self {
            Action::Nothing => ActionView::Nothing,
            Action::Redraw { scrollback } => ActionView::Redraw {
                scrollback: string_views(scrollback@),
            },
        }
    }
}

/// The line that announces the work in the log.
pub open spec fn banner(repo: Seq<char>, path: Seq<char>) -> Seq<char> {
    " => Cloning from '"@ + repo + "' into '"@ + path + "'\n"@
}

/// A span of plain text.
pub open spec fn plain(text: Seq<char>) -> SpanView {
    SpanView { text, tone: Tone::Plain }
}

/// A span of green text.
pub open spec fn green(text: Seq<char>) -> SpanView {
    SpanView { text, tone: Tone::Green }
}

/// What the viewport shows while `repo` is cloned into `path` and `pending` is
/// the open line of the log.
pub open spec fn live_content(repo: Seq<char>, path: Seq<char>, pending: Seq<u8>) -> Content {
    Content {
        title: SpanView { text: " Silly Template Generator "@, tone: Tone::Bold },
        instructions: seq![plain(" Exit "@), SpanView { text: "<ESC>"@, tone: Tone::Blue }],
        status: seq![
            plain("Cloning from '"@),
            green(repo),
            plain("' into '"@),
            green(path),
            plain("'"@),
        ],
        pending: utf8_lossy(pending),
    }
}

/// Whether what a wait produced is the cancellation event.
pub open spec fn cancels(polled: Option<Input>) -> bool {
    polled == Some(Input::Key(Key::Esc))
}

/// The update loop as a mathematical value.
pub struct Session {
    pub repo: Seq<char>,
    pub path: Seq<char>,
    pub branch: Option<Seq<char>>,
    pub state: LoopState,
    pub complete: bool,
}

impl Session {
    /// The session after the task signalled that it is done.
    pub open spec fn signal_complete(self) -> Session {
        Session { complete: true, ..self }
    }

    /// Whether an update that is handed `polled` flushes and renders: a running
    /// loop does, unless it is cancelled before its task is done.
    pub open spec fn draws(self, polled: Option<Input>) -> bool {
        &&& self.state == LoopState::Running
        &&& self.complete || !cancels(polled)
    }

    /// The session after an update that is handed `polled`: a running loop keeps
    /// running unless its task is done or it is cancelled.
    pub open spec fn after(self, polled: Option<Input>) -> Session {
        if self.state == LoopState::Running && !self.complete && !cancels(polled) {
            self
        } else {
            Session { state: LoopState::Stopped, ..self }
        }
    }

    /// What the viewport is to show when the display is `display`.
    pub open spec fn content(self, display: DisplayState) -> Content {
        live_content(self.repo, self.path, display.stream.pending())
    }

    /// The display after an update that is handed `polled`.
    pub open spec fn display_after(
        self,
        display: DisplayState,
        polled: Option<Input>,
    ) -> DisplayState {
        if self.draws(polled) {
            display.flush().render(self.content(display))
        } else {
            display
        }
    }

    /// What an update that is handed `polled` asks of the driver.
    pub open spec fn action(self, display: DisplayState, polled: Option<Input>) -> ActionView {
        if self.draws(polled) {
            ActionView::Redraw { scrollback: display.unflushed() }
        } else {
            ActionView::Nothing
        }
    }
}

/// Something that happens to a session and its display.
pub enum Event {
    /// The task wrote a fragment of log text.
    Write(Seq<u8>),
    /// The task signalled that it is done.
    Complete,
    /// The loop took a turn with what its wait produced.
    Update(Option<Input>),
}

/// A session together with the display that it draws on.
pub struct Scene {
    pub session: Session,
    pub display: DisplayState,
}

impl Scene {
    /// The scene after `event`.
    pub open spec fn apply(self, event: Event) -> Scene {
        match event {
            Event::Write(buf) => Scene { session: self.session, display: self.display.write(buf) },
            Event::Complete => Scene {
                session: self.session.signal_complete(),
                display: self.display,
            },
            Event::Update(polled) => Scene {
                session: self.session.after(polled),
                display: self.session.display_after(self.display, polled),
            },
        }
    }

    /// The scene after each of `events`, in order.
    pub open spec fn run(self, events: Seq<Event>) -> Scene
        decreases events.len(),
    {
        if events.len() == 0 {
            self
        } else {
            self.run(events.drop_last()).apply(events.last())
        }
    }
}

/// The cancellation event stops the loop within the update that receives it,
/// whatever state the session was in. Unless the task was done already, that
/// update draws nothing and leaves the display as it was.
pub proof fn lemma_cancel_stops(session: Session, display: DisplayState, polled: Option<Input>)
    requires
        cancels(polled),
    ensures
        session.after(polled).state == LoopState::Stopped,
        !session.complete ==> session.action(display, polled) == ActionView::Nothing,
        !session.complete ==> session.display_after(display, polled) == display,
{
}

/// Once the loop has stopped it stays stopped, and nothing that is written
/// afterwards reaches the history or the viewport, whatever else happens.
pub proof fn lemma_stopped_is_final(scene: Scene, events: Seq<Event>)
    requires
        scene.session.state == LoopState::Stopped,
        scene.display.wf(),
    ensures
        scene.run(events).session.state == LoopState::Stopped,
        scene.run(events).display.history() == scene.display.history(),
        scene.run(events).display.viewport == scene.display.viewport,
        scene.run(events).display.wf(),
    decreases events.len(),
{
    if events.len() > 0 {
        lemma_stopped_is_final(scene, events.drop_last());
        let before = scene.run(events.drop_last());
        match events.last() {
            Event::Write(buf) => {
                lemma_write_keeps_history(before.display, buf);
            },
            Event::Complete => {},
            Event::Update(polled) => {},
        }
    }
}

/// A task that signals completion while the loop runs gets its last output
/// shown: the next update, whatever its wait produced, moves every completed
/// line into the history, renders the open line into the viewport even though no
/// line feed ever ended it, and stops the loop.
pub proof fn lemma_completion_drains(session: Session, display: DisplayState, polled: Option<Input>)
    requires
        session.state == LoopState::Running,
        display.wf(),
    ensures
        ({
            let done = session.signal_complete();
            let shown = done.display_after(display, polled);
            &&& done.after(polled).state == LoopState::Stopped
            &&& done.action(display, polled) == ActionView::Redraw {
                scrollback: display.unflushed(),
            }
            &&& shown.history() == texts(lines_of(display.stream.submitted))
            &&& shown.unflushed() == Seq::<Seq<char>>::empty()
            &&& shown.viewport.content matches Some(content) && content.pending == utf8_lossy(
                tail_of(display.stream.submitted),
            )
        }),
{
    lemma_history_in_order(display);
    lemma_flush_is_idempotent(display);
    let done = session.signal_complete();
    let shown = done.display_after(display, polled);
    assert(shown.stream == display.flush().stream);
}

/// The `new` command at work: what is cloned where, and the state of the loop.
pub struct NewApp {
    full_repo: String,
    path: String,
    branch: Option<String>,
    state: LoopState,
    complete: bool,
}

impl View for NewApp {
    type V = Session;

    closed spec fn view(&self) -> Session {
        Session {
            repo: self.full_repo@,
            path: self.path@,
            branch: option_text(self.branch),
            state: self.state,
            complete: self.complete,
        }
    }
}

impl NewApp {
    /// Starts the session: the loop is running, and the line that announces the
    /// work is written to the log.
    pub fn new(full_repo: String, path: String, branch: Option<String>, term: &mut Term) -> (app:
        NewApp)
        ensures
            app@ == (Session {
                repo: full_repo@,
                path: path@,
                branch: option_text(branch),
                state: LoopState::Running,
                complete: false,
            }),
            final(term)@ == old(term)@.write(encode_utf8(banner(full_repo@, path@))),
            final(term)@.wf(),
    {
        let mut line = " => Cloning from '".to_string();
        line.append(full_repo.as_str());
        line.append("' into '");
        line.append(path.as_str());
        line.append("'\n");
        term.write(line.as_str().as_bytes());
        NewApp { full_repo, path, branch, state: LoopState::Running, complete: false }
    }

    /// Records that the task is done. The next update shows the last lines and
    /// stops the loop.
    pub fn signal_complete(&mut self)
        ensures
            final(self)@ == old(self)@.signal_complete(),
    {
        self.complete = true;
    }

    /// Whether the loop is still running.
    pub fn is_running(&self) -> (running: bool)
        ensures
            running == (self@.state == LoopState::Running),
    {
        match self.state {
            LoopState::Running => true,
            LoopState::Stopped => false,
        }
    }

    /// Whether the task has signalled that it is done.
    pub fn is_complete(&self) -> (complete: bool)
        ensures
            complete == self@.complete,
    {
        self.complete
    }

    /// The URL that is cloned from.
    pub fn full_repo(&self) -> (repo: &String)
        ensures
            repo@ == self@.repo,
    {
        &self.full_repo
    }

    /// Where the new project is created.
    pub fn path(&self) -> (path: &String)
        ensures
            path@ == self@.path,
    {
        &self.path
    }

    /// The branch that is checked out, if one was named.
    pub fn branch(&self) -> (branch: &Option<String>)
        ensures
            option_text(*branch) == self@.branch,
    {
        &self.branch
    }

    /// What the viewport is to show now: a heading, the key help, what is cloned
    /// where, and the open line of the log.
    pub fn render(&self, term: &Term) -> (content: LiveContent)
        ensures
            content@ == self@.content(term@),
            shows(content@.pending, term@.stream.pending()),
    {
        let pending = decode_lossy(term.peek_pending());
        let title = Span { text: " Silly Template Generator ".to_string(), tone: Tone::Bold };
        let instructions = vec![
            Span { text: " Exit ".to_string(), tone: Tone::Plain },
            Span { text: "<ESC>".to_string(), tone: Tone::Blue },
        ];
        let status = vec![
            Span { text: "Cloning from '".to_string(), tone: Tone::Plain },
            Span { text: self.full_repo.clone(), tone: Tone::Green },
            Span { text: "' into '".to_string(), tone: Tone::Plain },
            Span { text: self.path.clone(), tone: Tone::Green },
            Span { text: "'".to_string(), tone: Tone::Plain },
        ];
        let content = LiveContent { title, instructions, status, pending };
        proof {
            let wanted = self@.content(term@);
            assert(content@.instructions =~= wanted.instructions);
            assert(content@.status =~= wanted.status);
        }
        content
    }

    /// One turn of the loop, given what the wait for input produced: `None` if
    /// the wait timed out.
    ///
    /// A stopped loop does nothing. A running loop whose task is done flushes,
    /// renders and stops. Any other running loop stops on the cancellation event
    /// without drawing, and otherwise flushes, renders and keeps running. The
    /// flush always comes before the render.
    pub fn update(&mut self, term: &mut Term, polled: Option<Input>) -> (action: Action)
        ensures
            final(self)@ == old(self)@.after(polled),
            final(term)@ == old(self)@.display_after(old(term)@, polled),
            action@ == old(self)@.action(old(term)@, polled),
    {
        let cancelled = match polled {
            Some(Input::Key(Key::Esc)) => true,
            _ => false,
        };
        match self.state {
            LoopState::Stopped => Action::Nothing,
            LoopState::Running => {
                if cancelled && !self.complete {
                    self.state = LoopState::Stopped;
                    Action::Nothing
                } else {
                    let scrollback = term.flush();
                    let content = self.render(term);
                    term.render(content);
                    if self.complete {
                        self.state = LoopState::Stopped;
                    }
                    Action::Redraw { scrollback }
                }
            },
        }
    }
}

/// Prepares the `new` command: the repository specifier is resolved to a URL,
/// with the default hosts where no host is named, and the session is started.
/// Where no URL comes of the specifier, nothing is written to the log.
pub fn start_new(new_args: NewArgs, term: &mut Term) -> (started: Result<NewApp, ResolveError>)
    ensures
        match resolution(new_args.repo@, option_text(new_args.host), known_hosts()) {
            Some(url) => {
                &&& started matches Ok(app)
                &&& app@ == (Session {
                    repo: url,
                    path: new_args.path@,
                    branch: option_text(new_args.branch),
                    state: LoopState::Running,
                    complete: false,
                })
                &&& final(term)@ == old(term)@.write(encode_utf8(banner(url, new_args.path@)))
            },
            None => {
                &&& started matches Err(error)
                &&& error is HostJoinFailed <==> new_args.host is Some
                &&& final(term)@ == old(term)@
            },
        },
{
    let hosts = default_hosts();
    match resolve_repo(new_args.repo.as_str(), &new_args.host, &hosts) {
        Ok(full_repo) => Ok(NewApp::new(full_repo, new_args.path, new_args.branch, term)),
        Err(error) => Err(error),
    }
}

} // verus!
