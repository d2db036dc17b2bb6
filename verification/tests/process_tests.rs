use fah_pauser::process::{
    chars_equal, command_file_name, found_process, found_process_buffers, ScanError,
};

#[test]
fn test_command_file_name() {
    assert_eq!(command_file_name("").unwrap(), "", "0");
    assert_eq!(command_file_name("a").unwrap(), "a", "1");
    assert_eq!(command_file_name("/a/b").unwrap(), "b", "2");
    assert_eq!(command_file_name("/a/b\0-c").unwrap(), "b", "3");
    assert_eq!(command_file_name("/bin/sh a").unwrap(), "a", "4");
}

#[test]
fn test_found_process() {
    let names: Vec<String> = Vec::new();
    let commands = vec![String::from("/usr/bin/worker"), String::from("/bin/sh job.sh")];
    assert!(!found_process(names.as_slice(), commands.as_slice()));
}

#[test]
fn test_equal() {
    let mut chars: [i8; 260] = [0; 260];
    assert!(chars_equal("", &chars), "0");

    chars = [0; 260];
    chars[0] = 97;
    assert!(chars_equal("a", &chars), "1");

    chars = [0; 260];
    chars[0] = -1;
    assert!(!chars_equal("", &chars), "2");

    chars = [0; 260];
    chars[0] = 1;
    assert!(!chars_equal("", &chars), "3");

    chars = [0; 260];
    assert!(!chars_equal("a", &chars), "4");
}

#[test]
fn resolution_ignores_trailing_separators() {
    assert_eq!(command_file_name("/a/b/").unwrap(), "b");
    assert_eq!(command_file_name("/usr/bin//").unwrap(), "bin");
    assert_eq!(command_file_name("worker/").unwrap(), "worker");
}

#[test]
fn resolution_of_dot_components() {
    assert_eq!(command_file_name(".").unwrap(), "");
    assert_eq!(command_file_name("..").unwrap(), "");
    assert_eq!(command_file_name("/a/..").unwrap(), "");
    assert_eq!(command_file_name("foo.txt/.").unwrap(), "foo.txt");
    assert_eq!(command_file_name("foo.txt/.//").unwrap(), "foo.txt");
    assert_eq!(command_file_name("/").unwrap(), "");
    assert_eq!(command_file_name(".hidden").unwrap(), ".hidden");
    assert_eq!(command_file_name("a...").unwrap(), "a...");
}

#[test]
fn script_name_resolution() {
    assert_eq!(command_file_name("/bin/sh script.sh").unwrap(), "script.sh");
}

#[test]
fn script_name_resolution_with_extra_arguments() {
    assert_eq!(command_file_name("/bin/bash run.sh --flag").unwrap(), "run.sh");
}

#[test]
fn plain_command_resolution() {
    assert_eq!(command_file_name("/usr/local/bin/worker").unwrap(), "worker");
    assert_eq!(command_file_name("worker").unwrap(), "worker");
}

#[test]
fn found_process_matches_resolved_names() {
    let names = vec![String::from("game.exe")];
    let running = vec![
        String::from("/usr/lib/systemd/systemd"),
        String::from("/opt/games/game.exe --fullscreen"),
    ];
    assert!(found_process(names.as_slice(), running.as_slice()));

    let absent = vec![String::from("/usr/lib/systemd/systemd"), String::from("game")];
    assert!(!found_process(names.as_slice(), absent.as_slice()));
}

#[test]
fn found_process_matches_script_names() {
    let names = vec![String::from("job.sh")];
    let running = vec![String::from("/bin/sh job.sh"), String::from("/usr/bin/editor")];
    assert!(found_process(names.as_slice(), running.as_slice()));

    // The interpreter's own name is not what the command resolves to.
    let shells = vec![String::from("sh")];
    assert!(!found_process(shells.as_slice(), running.as_slice()));
}

#[test]
fn found_process_is_idempotent_against_unchanged_snapshot() {
    let names = vec![String::from("worker"), String::from("game.exe")];
    let snapshot = vec![
        String::from("/usr/local/bin/worker"),
        String::from("/bin/bash run.sh --flag"),
    ];
    let first = found_process(names.as_slice(), snapshot.as_slice());
    let second = found_process(names.as_slice(), snapshot.as_slice());
    assert_eq!(first, second);
    assert!(first);
}

#[test]
fn matching_is_exact_and_case_sensitive() {
    let names = vec![String::from("Game.exe")];
    let running = vec![String::from("/opt/game.exe")];
    assert!(!found_process(names.as_slice(), running.as_slice()));

    let exact = vec![String::from("game.exe")];
    assert!(found_process(exact.as_slice(), running.as_slice()));
}

#[test]
fn chars_equal_stops_at_the_terminator() {
    let mut chars: [i8; 260] = [0; 260];
    chars[0] = 103; // g
    chars[1] = 97; // a
    chars[2] = 109; // m
    chars[3] = 101; // e
    assert!(chars_equal("game", &chars));
    assert!(!chars_equal("gam", &chars));
    assert!(!chars_equal("games", &chars));
}

#[test]
fn found_process_buffers_matches_a_snapshot_entry() {
    let names = vec![String::from("game.exe")];
    let mut game: [i8; 260] = [0; 260];
    for (k, b) in "game.exe".bytes().enumerate() {
        game[k] = b as i8;
    }
    let mut other: [i8; 260] = [0; 260];
    for (k, b) in "services".bytes().enumerate() {
        other[k] = b as i8;
    }

    let snapshot = vec![other, game];
    assert!(found_process_buffers(names.as_slice(), snapshot.as_slice()));

    let absent = vec![other];
    assert!(!found_process_buffers(names.as_slice(), absent.as_slice()));

    let no_names: Vec<String> = Vec::new();
    assert!(!found_process_buffers(no_names.as_slice(), snapshot.as_slice()));
}

#[test]
fn scan_error_message() {
    let e = ScanError::EnumerationUnavailable;
    assert_eq!(e.message(), "process enumeration unavailable");
}
