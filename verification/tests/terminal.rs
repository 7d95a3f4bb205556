use inductor::terminal::{
    canonical_workspace, choose_shell, PtyManager, SpawnTerminalRequest, TerminalError, TerminalId,
    TerminalSize, TerminalState,
};

fn opened(manager: &mut PtyManager) -> TerminalId {
    let request = SpawnTerminalRequest::new("/workspace");
    let id = manager.reserve();
    manager.insert(id, request.size, request.scrollback);
    id
}

#[test]
fn terminal_size_clamps_to_nonzero() {
    assert_eq!(TerminalSize::new(0, 0), TerminalSize { rows: 1, cols: 1 });
}

#[test]
fn manager_reports_unknown_terminal() {
    let manager = PtyManager::new();

    assert!(matches!(
        manager.snapshot(TerminalId(42)),
        Err(TerminalError::UnknownTerminal { .. })
    ));
}

#[test]
fn rejects_non_directory_workspace() {
    let error = canonical_workspace("/tmp/file.txt", Ok(false), Ok("/tmp/file.txt".to_string()))
        .expect_err("file path must not be accepted as workspace");

    assert!(matches!(error, TerminalError::WorkspaceNotDirectory { .. }));
}

#[test]
fn vt100_snapshot_tracks_processed_output() {
    let mut state = TerminalState::new(TerminalSize::new(5, 20), 10);
    state.process(b"hello\r\nworld");

    let snapshot = state.snapshot(TerminalId(1));

    assert!(snapshot.contents.contains("hello"));
    assert!(snapshot.contents.contains("world"));
    assert!(snapshot.raw_output.contains("hello"));
}

#[test]
fn vt100_snapshot_exposes_physical_rows_for_cursor_rendering() {
    let mut state = TerminalState::new(TerminalSize::new(4, 5), 10);
    state.process(b"abcdef");

    let snapshot = state.snapshot(TerminalId(1));

    assert_eq!((snapshot.cursor_row, snapshot.cursor_col), (1, 1));
    assert_eq!(snapshot.screen_rows[0], "abcde");
    assert_eq!(snapshot.screen_rows[1], "f");
}

#[test]
fn resize_updates_snapshot_size() {
    let mut manager = PtyManager::new();
    let id = opened(&mut manager);

    manager.resize(id, TerminalSize::new(40, 120)).unwrap();
    let snapshot = manager.snapshot(id).unwrap();

    assert_eq!(snapshot.size, TerminalSize::new(40, 120));
    manager.kill(id).unwrap();
    assert!(manager.snapshot(id).is_err());
}

#[test]
fn raw_output_keeps_what_left_the_screen() {
    let mut state = TerminalState::new(TerminalSize::new(2, 10), 0);
    state.process(b"one\r\n");
    state.process(b"two\r\n");
    state.process(b"three");

    let snapshot = state.snapshot(TerminalId(1));
    assert_eq!(snapshot.raw_output, "one\r\ntwo\r\nthree");
    assert!(!snapshot.contents.contains("one"));
    assert!(snapshot.contents.contains("three"));
}

#[test]
fn ids_are_given_out_in_turn() {
    let mut manager = PtyManager::new();
    let first = opened(&mut manager);
    let second = opened(&mut manager);

    assert_eq!(first.value(), 1);
    assert_eq!(second.value(), 2);
    manager.process(first, b"only here").unwrap();
    assert!(manager.snapshot(first).unwrap().contents.contains("only here"));
    assert!(!manager.snapshot(second).unwrap().contents.contains("only here"));
    assert_eq!(manager.ids().len(), 2);
    assert!(matches!(
        manager.process(TerminalId(9), b"x"),
        Err(TerminalError::UnknownTerminal { id: TerminalId(9) })
    ));
}

#[test]
fn an_exit_is_shown() {
    let mut manager = PtyManager::new();
    let id = opened(&mut manager);

    assert_eq!(manager.try_wait(id, None).unwrap(), None);
    assert!(manager.snapshot(id).unwrap().is_running);
    assert_eq!(manager.try_wait(id, Some(3)).unwrap(), Some(3));
    let snapshot = manager.snapshot(id).unwrap();
    assert!(!snapshot.is_running);
    assert_eq!(snapshot.exit_code, Some(3));
}

#[test]
fn the_shell_that_was_asked_for_comes_first() {
    assert_eq!(choose_shell(Some("/bin/zsh".to_string()), Some("/bin/bash")), "/bin/zsh");
    assert_eq!(choose_shell(None, Some("/bin/bash")), "/bin/bash");
    assert_eq!(choose_shell(None, None), "/bin/sh");
}

#[test]
fn errors_say_what_happened() {
    let error = canonical_workspace("/nowhere", Err("no such file".to_string()), Ok(String::new()))
        .unwrap_err();
    assert!(matches!(&error, TerminalError::WorkspaceIo { .. }));
    assert_eq!(error.message(), "failed to inspect workspace /nowhere: no such file");
    assert_eq!(
        canonical_workspace("/ws/.", Ok(true), Ok("/ws".to_string())).unwrap(),
        "/ws"
    );
    assert_eq!(
        TerminalError::UnknownTerminal { id: TerminalId(42) }.message(),
        "unknown terminal id: 42"
    );
}

#[test]
fn a_single_column_takes_no_wider_character() {
    let mut narrow = TerminalState::new(TerminalSize::new(2, 1), 0);
    let widened = "\u{263A}\u{FE0F}".as_bytes();
    assert!(!narrow.takes(widened));
    assert!(narrow.takes(&widened[..5]));
    narrow.process(&widened[..5]);
    assert!(!narrow.takes(&widened[5..]));
    assert!(narrow.takes(b"x"));
    narrow.resize(TerminalSize::new(2, 2));
    assert!(narrow.takes(&widened[5..]));
    narrow.process(&widened[5..]);
    assert!(narrow.snapshot(TerminalId(1)).raw_output.contains('\u{FE0F}'));

    let manager = PtyManager::new();
    assert!(manager.takes(TerminalId(1), widened));
    assert!(!TerminalSize { rows: 1, cols: 65528 }.is_usable());
    assert!(TerminalSize { rows: 1, cols: 65527 }.is_usable());
}
