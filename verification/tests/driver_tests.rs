use rusty_x::controller::Key;
use rusty_x::driver::{Command, Driver, PickError, Reply, Stage};
use rusty_x::input::{decode, RawKey};
use rusty_x::render::{Paint, TerminalGeometry};
use rusty_x::session::{SessionStep, TerminalSession};

fn strings(items: &[&str]) -> Vec<String> {
    items.iter().map(|s| s.to_string()).collect()
}

/// A front end that does nothing to any terminal: it records the mode changes
/// it is asked for, answers the size it was given and plays back the keys it
/// was given. The command numbered `fail_at`, counting from 0, fails.
fn run(
    candidates: &Vec<String>,
    keys: Vec<RawKey>,
    fail_at: Option<usize>,
) -> (Vec<SessionStep>, Vec<Vec<Paint>>, Result<Vec<usize>, PickError>) {
    let mut driver = Driver::new(candidates);
    let mut steps = Vec::new();
    let mut frames = Vec::new();
    let mut keys = keys.into_iter();
    let mut command = driver.command();
    let mut count = 0;
    loop {
        assert!(count < 1000);
        let fails = fail_at == Some(count);
        count += 1;
        let reply = match command {
            Command::Return(outcome) => return (steps, frames, outcome),
            Command::Session(step) => {
                steps.push(step);
                if fails { Reply::Failed } else { Reply::Done }
            }
            Command::QueryGeometry => {
                if fails {
                    Reply::Failed
                } else {
                    Reply::Size(TerminalGeometry { width: 40, height: 5 })
                }
            }
            Command::Paint(paints) => {
                frames.push(paints);
                if fails { Reply::Failed } else { Reply::Done }
            }
            Command::ReadKey => match keys.next() {
                Some(raw) if !fails => Reply::Pressed(raw),
                _ => Reply::Failed,
            },
        };
        command = driver.advance(reply);
    }
}

fn count(steps: &Vec<SessionStep>, step: SessionStep) -> usize {
    steps.iter().filter(|s| **s == step).count()
}

fn assert_paired(steps: &Vec<SessionStep>) {
    assert_eq!(count(steps, SessionStep::EnterRawMode), 1);
    assert_eq!(count(steps, SessionStep::LeaveRawMode), 1);
    assert_eq!(count(steps, SessionStep::EnterAlternateScreen), 1);
    assert_eq!(count(steps, SessionStep::LeaveAlternateScreen), 1);
    assert_eq!(count(steps, SessionStep::HideCursor), 1);
    assert_eq!(count(steps, SessionStep::ShowCursor), 1);
}

const FULL_SESSION: [SessionStep; 6] = [
    SessionStep::EnterRawMode,
    SessionStep::EnterAlternateScreen,
    SessionStep::HideCursor,
    SessionStep::ShowCursor,
    SessionStep::LeaveAlternateScreen,
    SessionStep::LeaveRawMode,
];

#[test]
fn decode_gives_keys_their_meaning() {
    assert_eq!(decode(RawKey::Char('a')), Some(Key::Char('a')));
    assert_eq!(decode(RawKey::Char(' ')), Some(Key::Char(' ')));
    assert_eq!(decode(RawKey::Char('é')), Some(Key::Char('é')));
    assert_eq!(decode(RawKey::Char('\n')), Some(Key::Enter));
    assert_eq!(decode(RawKey::Char('\r')), Some(Key::Enter));
    assert_eq!(decode(RawKey::Enter), Some(Key::Enter));
    assert_eq!(decode(RawKey::Char('\u{7f}')), Some(Key::Backspace));
    assert_eq!(decode(RawKey::Char('\u{8}')), Some(Key::Backspace));
    assert_eq!(decode(RawKey::Backspace), Some(Key::Backspace));
    assert_eq!(decode(RawKey::Delete), Some(Key::Backspace));
    assert_eq!(decode(RawKey::Up), Some(Key::Up));
    assert_eq!(decode(RawKey::Down), Some(Key::Down));
    assert_eq!(decode(RawKey::Esc), Some(Key::Cancel));
    assert_eq!(decode(RawKey::Char('\u{1b}')), Some(Key::Cancel));
    assert_eq!(decode(RawKey::Char('\u{3}')), Some(Key::Cancel));
    assert_eq!(decode(RawKey::Ctrl('c')), Some(Key::Cancel));
    assert_eq!(decode(RawKey::Ctrl('C')), Some(Key::Cancel));
}

#[test]
fn decode_drops_what_means_nothing() {
    assert_eq!(decode(RawKey::Other), None);
    assert_eq!(decode(RawKey::Ctrl('a')), None);
    assert_eq!(decode(RawKey::Char('\t')), None);
    assert_eq!(decode(RawKey::Char('\u{0}')), None);
    assert_eq!(decode(RawKey::Char('\u{1f}')), None);
}

#[test]
fn session_is_taken_in_order_and_given_back_in_reverse() {
    let mut session = TerminalSession::new();
    assert_eq!(session.next_release(), None);
    assert_eq!(session.release_steps(), Vec::<SessionStep>::new());
    let mut taken = Vec::new();
    while let Some(step) = session.next_setup() {
        taken.push(step);
        session.record(step);
        assert!(taken.len() <= 3);
    }
    assert_eq!(taken, FULL_SESSION[..3].to_vec());
    assert_eq!(
        session,
        TerminalSession { raw_mode: true, alternate_screen: true, cursor_hidden: true }
    );
    assert_eq!(session.release_steps(), FULL_SESSION[3..].to_vec());
    let mut given_back = Vec::new();
    while let Some(step) = session.next_release() {
        given_back.push(step);
        session.record(step);
        assert!(given_back.len() <= 3);
    }
    assert_eq!(given_back, FULL_SESSION[3..].to_vec());
    assert_eq!(session, TerminalSession::new());
}

#[test]
fn session_gives_back_only_what_is_held() {
    let session = TerminalSession { raw_mode: true, alternate_screen: false, cursor_hidden: false };
    assert_eq!(session.next_setup(), Some(SessionStep::EnterAlternateScreen));
    assert_eq!(session.next_release(), Some(SessionStep::LeaveRawMode));
    assert_eq!(session.release_steps(), vec![SessionStep::LeaveRawMode]);
    let session = TerminalSession { raw_mode: true, alternate_screen: true, cursor_hidden: false };
    assert_eq!(
        session.release_steps(),
        vec![SessionStep::LeaveAlternateScreen, SessionStep::LeaveRawMode]
    );
}

#[test]
fn run_with_down_then_enter_returns_the_top_entry() {
    let candidates = strings(&["a", "b", "c"]);
    let (steps, frames, outcome) = run(&candidates, vec![RawKey::Down, RawKey::Enter], None);
    assert_eq!(outcome, Ok(vec![0]));
    assert_eq!(steps, FULL_SESSION.to_vec());
    assert_eq!(
        frames,
        vec![vec![
            Paint::Entry { row: 0, candidate_index: 2 },
            Paint::Entry { row: 1, candidate_index: 1 },
            Paint::Entry { row: 2, candidate_index: 0 },
            Paint::Counter { row: 3, matches: 3, total: 3 },
            Paint::Prompt { row: 4 },
            Paint::Marker { row: 2 },
        ]]
    );
}

#[test]
fn run_with_typing_returns_the_match() {
    let candidates = strings(&["apple.md", "banana.md", "grape.md"]);
    let keys = vec![RawKey::Char('a'), RawKey::Char('p'), RawKey::Char('\r')];
    let (steps, frames, outcome) = run(&candidates, keys, None);
    assert_eq!(outcome, Ok(vec![0]));
    assert_paired(&steps);
    assert_eq!(frames.len(), 3);
    assert_eq!(
        frames[2],
        vec![
            Paint::Blank { row: 0 },
            Paint::Entry { row: 1, candidate_index: 2 },
            Paint::Entry { row: 2, candidate_index: 0 },
            Paint::Counter { row: 3, matches: 2, total: 3 },
            Paint::Prompt { row: 4 },
            Paint::Marker { row: 2 },
        ]
    );
}

#[test]
fn run_cancelled_at_once_restores_the_terminal() {
    let candidates = strings(&["a", "b", "c"]);
    let (steps, frames, outcome) = run(&candidates, vec![RawKey::Esc], None);
    assert_eq!(outcome, Ok(Vec::new()));
    assert_paired(&steps);
    assert_eq!(steps, FULL_SESSION.to_vec());
    assert_eq!(frames.len(), 1);
}

#[test]
fn run_committed_without_matches_restores_the_terminal() {
    let candidates = strings(&["a", "b", "c"]);
    let (steps, _, outcome) = run(&candidates, vec![RawKey::Char('z'), RawKey::Enter], None);
    assert_eq!(outcome, Ok(Vec::new()));
    assert_paired(&steps);
}

#[test]
fn run_without_candidates_never_touches_the_terminal() {
    let candidates: Vec<String> = Vec::new();
    let driver = Driver::new(&candidates);
    assert_eq!(driver.control().stage, Stage::Finished);
    assert_eq!(driver.command(), Command::Return(Ok(Vec::new())));
    let (steps, frames, outcome) = run(&candidates, vec![RawKey::Enter], None);
    assert_eq!(outcome, Ok(Vec::new()));
    assert!(steps.is_empty());
    assert!(frames.is_empty());
}

#[test]
fn run_moves_only_the_marker_for_arrows() {
    let candidates = strings(&["a", "b", "c"]);
    let keys = vec![RawKey::Up, RawKey::Other, RawKey::Up, RawKey::Up, RawKey::Enter];
    let (steps, frames, outcome) = run(&candidates, keys, None);
    assert_eq!(outcome, Ok(vec![2]));
    assert_paired(&steps);
    assert_eq!(frames.len(), 3);
    assert_eq!(frames[1], vec![Paint::Unmark { row: 2 }, Paint::Marker { row: 1 }]);
    assert_eq!(frames[2], vec![Paint::Unmark { row: 1 }, Paint::Marker { row: 0 }]);
}

#[test]
fn run_skips_noise() {
    let candidates = strings(&["a", "b"]);
    let mut driver = Driver::new(&candidates);
    assert_eq!(driver.command(), Command::Session(SessionStep::EnterRawMode));
    assert_eq!(driver.advance(Reply::Done), Command::Session(SessionStep::EnterAlternateScreen));
    assert_eq!(driver.advance(Reply::Done), Command::Session(SessionStep::HideCursor));
    assert_eq!(driver.advance(Reply::Done), Command::QueryGeometry);
    let size = Reply::Size(TerminalGeometry { width: 10, height: 2 });
    assert_eq!(
        driver.advance(size),
        Command::Paint(vec![
            Paint::Counter { row: 0, matches: 2, total: 2 },
            Paint::Prompt { row: 1 },
        ])
    );
    assert_eq!(driver.advance(Reply::Done), Command::ReadKey);
    assert_eq!(driver.advance(Reply::Noise), Command::ReadKey);
    assert_eq!(driver.advance(Reply::Pressed(RawKey::Other)), Command::ReadKey);
    assert_eq!(driver.control().stage, Stage::Reading);
    assert_eq!(driver.picker().cursor(), 0);
    assert_eq!(driver.advance(Reply::Pressed(RawKey::Up)), Command::Paint(Vec::new()));
    assert_eq!(driver.picker().cursor(), 1);
}

#[test]
fn failed_raw_mode_is_reported_with_nothing_to_give_back() {
    let candidates = strings(&["a", "b"]);
    let (steps, frames, outcome) = run(&candidates, vec![RawKey::Enter], Some(0));
    assert_eq!(outcome, Err(PickError::TerminalSetup));
    assert_eq!(steps, vec![SessionStep::EnterRawMode]);
    assert!(frames.is_empty());
}

#[test]
fn failed_alternate_screen_gives_raw_mode_back() {
    let candidates = strings(&["a", "b"]);
    let (steps, frames, outcome) = run(&candidates, vec![RawKey::Enter], Some(1));
    assert_eq!(outcome, Err(PickError::TerminalSetup));
    assert_eq!(
        steps,
        vec![
            SessionStep::EnterRawMode,
            SessionStep::EnterAlternateScreen,
            SessionStep::LeaveRawMode,
        ]
    );
    assert!(frames.is_empty());
}

#[test]
fn failed_size_query_is_a_setup_failure() {
    let candidates = strings(&["a", "b"]);
    let (steps, frames, outcome) = run(&candidates, vec![RawKey::Enter], Some(3));
    assert_eq!(outcome, Err(PickError::TerminalSetup));
    assert_eq!(steps, FULL_SESSION.to_vec());
    assert!(frames.is_empty());
}

#[test]
fn failed_paint_is_a_render_failure_and_restores_the_terminal() {
    let candidates = strings(&["a", "b"]);
    let (steps, frames, outcome) = run(&candidates, vec![RawKey::Enter], Some(4));
    assert_eq!(outcome, Err(PickError::Render));
    assert_eq!(steps, FULL_SESSION.to_vec());
    assert_eq!(frames.len(), 1);
}

#[test]
fn failed_read_is_an_input_failure_and_restores_the_terminal() {
    let candidates = strings(&["a", "b"]);
    let (steps, _, outcome) = run(&candidates, Vec::new(), None);
    assert_eq!(outcome, Err(PickError::Input));
    assert_eq!(steps, FULL_SESSION.to_vec());
}

#[test]
fn release_goes_on_where_a_release_step_fails() {
    let candidates = strings(&["a", "b"]);
    let (steps, _, outcome) = run(&candidates, vec![RawKey::Esc], Some(7));
    assert_eq!(outcome, Ok(Vec::new()));
    assert_eq!(steps, FULL_SESSION.to_vec());
}

#[test]
fn finished_driver_repeats_its_outcome() {
    let candidates = strings(&["a", "b"]);
    let mut driver = Driver::new(&candidates);
    assert_eq!(driver.advance(Reply::Failed), Command::Return(Err(PickError::TerminalSetup)));
    assert_eq!(driver.advance(Reply::Done), Command::Return(Err(PickError::TerminalSetup)));
    assert_eq!(driver.control().stage, Stage::Finished);
    assert_eq!(driver.control().failure, Some(PickError::TerminalSetup));
}
