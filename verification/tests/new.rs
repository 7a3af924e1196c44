use silly::content::{LiveContent, Span, Tone};
use silly::new::{
    start_new, Action, Input, Key, NewApp, NewArgs, TICK_INTERVAL_MS, VIEWPORT_HEIGHT,
};
use silly::repo::ResolveError;
use silly::term::Term;

fn span(text: &str, tone: Tone) -> Span {
    Span { text: text.to_string(), tone }
}

fn expected_content(repo: &str, path: &str, pending: &str) -> LiveContent {
    LiveContent {
        title: span(" Silly Template Generator ", Tone::Bold),
        instructions: vec![span(" Exit ", Tone::Plain), span("<ESC>", Tone::Blue)],
        status: vec![
            span("Cloning from '", Tone::Plain),
            span(repo, Tone::Green),
            span("' into '", Tone::Plain),
            span(path, Tone::Green),
            span("'", Tone::Plain),
        ],
        pending: pending.to_string(),
    }
}

fn started(term: &mut Term) -> NewApp {
    NewApp::new("https://github.com/Kneelawk/silly".to_string(), "demo".to_string(), None, term)
}

fn args(repo: &str, host: Option<&str>) -> NewArgs {
    NewArgs {
        repo: repo.to_string(),
        path: "out/dir".to_string(),
        branch: Some("main".to_string()),
        host: host.map(|h| h.to_string()),
    }
}

#[test]
fn session_constants() {
    assert_eq!(TICK_INTERVAL_MS, 20);
    assert_eq!(VIEWPORT_HEIGHT, 24);
}

#[test]
fn new_app_runs_and_announces_the_work() {
    let mut term = Term::new(VIEWPORT_HEIGHT);
    let app = started(&mut term);
    assert!(app.is_running());
    assert!(!app.is_complete());
    assert_eq!(app.full_repo(), "https://github.com/Kneelawk/silly");
    assert_eq!(app.path(), "demo");
    assert_eq!(app.branch(), &None);
    assert_eq!(term.peek_pending(), b"");
    assert!(term.history().is_empty());
    assert_eq!(
        term.flush(),
        vec![" => Cloning from 'https://github.com/Kneelawk/silly' into 'demo'".to_string()]
    );
}

#[test]
fn render_shows_what_is_cloned_and_the_open_line() {
    let mut term = Term::new(VIEWPORT_HEIGHT);
    let app = started(&mut term);
    term.write(b"Receiving objects:  42%");
    assert_eq!(
        app.render(&term),
        expected_content("https://github.com/Kneelawk/silly", "demo", "Receiving objects:  42%")
    );
}

#[test]
fn timed_out_wait_flushes_then_renders_and_keeps_running() {
    let mut term = Term::new(VIEWPORT_HEIGHT);
    let mut app = started(&mut term);
    term.write(b"line one\nline tw");
    let action = app.update(&mut term, None);
    assert_eq!(
        action,
        Action::Redraw {
            scrollback: vec![
                " => Cloning from 'https://github.com/Kneelawk/silly' into 'demo'".to_string(),
                "line one".to_string(),
            ],
        }
    );
    assert!(app.is_running());
    assert_eq!(term.history().len(), 2);
    assert_eq!(
        term.viewport().content(),
        Some(&expected_content("https://github.com/Kneelawk/silly", "demo", "line tw"))
    );
}

#[test]
fn other_input_is_treated_like_a_timeout() {
    let mut term = Term::new(VIEWPORT_HEIGHT);
    let mut app = started(&mut term);
    let first = app.update(&mut term, Some(Input::Key(Key::Other)));
    assert!(matches!(first, Action::Redraw { .. }));
    let second = app.update(&mut term, Some(Input::Other));
    assert_eq!(second, Action::Redraw { scrollback: vec![] });
    assert!(app.is_running());
}

#[test]
fn escape_stops_within_one_update_and_draws_nothing() {
    let mut term = Term::new(VIEWPORT_HEIGHT);
    let mut app = started(&mut term);
    term.write(b"never shown\n");
    let action = app.update(&mut term, Some(Input::Key(Key::Esc)));
    assert_eq!(action, Action::Nothing);
    assert!(!app.is_running());
    assert!(term.history().is_empty());
    assert!(term.viewport().content().is_none());
}

#[test]
fn nothing_is_flushed_after_the_loop_stopped() {
    let mut term = Term::new(VIEWPORT_HEIGHT);
    let mut app = started(&mut term);
    app.update(&mut term, None);
    let history = term.history().clone();
    app.update(&mut term, Some(Input::Key(Key::Esc)));
    term.write(b"late\n");
    assert_eq!(app.update(&mut term, None), Action::Nothing);
    app.signal_complete();
    assert_eq!(app.update(&mut term, None), Action::Nothing);
    assert_eq!(app.update(&mut term, Some(Input::Other)), Action::Nothing);
    assert!(!app.is_running());
    assert_eq!(term.history(), &history);
}

#[test]
fn completion_shows_the_open_line_and_stops() {
    let mut term = Term::new(VIEWPORT_HEIGHT);
    let mut app = started(&mut term);
    app.update(&mut term, None);
    term.write(b"done line\nno terminator at the end");
    app.signal_complete();
    assert!(app.is_complete());
    assert!(app.is_running());
    let action = app.update(&mut term, None);
    assert_eq!(action, Action::Redraw { scrollback: vec!["done line".to_string()] });
    assert!(!app.is_running());
    assert_eq!(
        term.viewport().content(),
        Some(&expected_content(
            "https://github.com/Kneelawk/silly",
            "demo",
            "no terminator at the end"
        ))
    );
    assert_eq!(term.peek_pending(), b"no terminator at the end");
}

#[test]
fn completion_is_drawn_even_when_escape_arrives_with_it() {
    let mut term = Term::new(VIEWPORT_HEIGHT);
    let mut app = started(&mut term);
    term.write(b"tail");
    app.signal_complete();
    let action = app.update(&mut term, Some(Input::Key(Key::Esc)));
    assert!(matches!(action, Action::Redraw { .. }));
    assert!(!app.is_running());
    assert_eq!(
        term.viewport().content().map(|content| content.pending.as_str()),
        Some("tail")
    );
}

#[test]
fn escape_without_completion_hides_the_open_line() {
    let mut term = Term::new(VIEWPORT_HEIGHT);
    let mut app = started(&mut term);
    app.update(&mut term, None);
    term.write(b"tail");
    app.update(&mut term, Some(Input::Key(Key::Esc)));
    assert_eq!(
        term.viewport().content().map(|content| content.pending.as_str()),
        Some("")
    );
}

#[test]
fn start_resolves_a_short_form_on_the_default_host() {
    let mut term = Term::new(VIEWPORT_HEIGHT);
    let app = match start_new(args("Kneelawk/silly", None), &mut term) {
        Ok(app) => app,
        Err(error) => panic!("unexpected error: {:?}", error),
    };
    assert_eq!(app.full_repo(), "https://github.com/Kneelawk/silly");
    assert_eq!(app.path(), "out/dir");
    assert_eq!(app.branch(), &Some("main".to_string()));
    assert!(app.is_running());
    assert_eq!(
        term.flush(),
        vec![" => Cloning from 'https://github.com/Kneelawk/silly' into 'out/dir'".to_string()]
    );
}

#[test]
fn start_resolves_against_the_named_host() {
    let mut term = Term::new(VIEWPORT_HEIGHT);
    let app = match start_new(args("Kneelawk/silly", Some("https://codeberg.org/")), &mut term) {
        Ok(app) => app,
        Err(error) => panic!("unexpected error: {:?}", error),
    };
    assert_eq!(app.full_repo(), "https://codeberg.org/Kneelawk/silly");
}

#[test]
fn start_fails_without_writing_when_the_host_does_not_join() {
    let mut term = Term::new(VIEWPORT_HEIGHT);
    let result = start_new(args("Kneelawk/silly", Some("mailto:a@example.net")), &mut term);
    assert!(matches!(result, Err(ResolveError::HostJoinFailed(_))));
    assert_eq!(term.peek_pending(), b"");
    assert_eq!(term.flush(), Vec::<String>::new());
}

#[test]
fn a_whole_session_on_a_scripted_terminal() {
    // What the task writes before each turn, whether it is done then, and what the wait produces.
    let script: Vec<(&[u8], bool, Option<Input>)> = vec![
        (b"Cloning into 'demo'...\nremote: Enumera", false, None),
        (b"ting objects: 12\r", false, Some(Input::Other)),
        (b"\nReceiving objects:  50%\rReceiving", false, Some(Input::Key(Key::Other))),
        (b" objects: 100%\r\n", false, None),
        (b"Resolving deltas", true, None),
        (b"ignored\n", false, None),
    ];
    let mut term = Term::new(VIEWPORT_HEIGHT);
    let mut app = started(&mut term);
    let mut scrollback: Vec<String> = Vec::new();
    let mut frames: Vec<String> = Vec::new();
    for (written, done, polled) in script {
        term.write(written);
        if done {
            app.signal_complete();
        }
        match app.update(&mut term, polled) {
            Action::Redraw { scrollback: inserted } => {
                scrollback.extend(inserted);
                match term.viewport().content() {
                    Some(content) => frames.push(content.pending.clone()),
                    None => panic!("a redraw without content"),
                }
            }
            Action::Nothing => {}
        }
    }
    assert!(!app.is_running());
    assert_eq!(
        scrollback,
        vec![
            " => Cloning from 'https://github.com/Kneelawk/silly' into 'demo'".to_string(),
            "Cloning into 'demo'...".to_string(),
            "remote: Enumerating objects: 12".to_string(),
            "Receiving objects:  50%\rReceiving objects: 100%".to_string(),
        ]
    );
    assert_eq!(term.history(), &scrollback);
    assert_eq!(
        frames,
        vec![
            "remote: Enumera".to_string(),
            "remote: Enumerating objects: 12\r".to_string(),
            "Receiving objects:  50%\rReceiving".to_string(),
            "".to_string(),
            "Resolving deltas".to_string(),
        ]
    );
}
