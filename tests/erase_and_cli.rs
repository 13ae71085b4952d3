use lockit::cli::{is_encrypt_mode, parse_mode, parse_mode_paths_and_flags, Mode};
use lockit::erase::{check_read_back, secure_delete_plan, secure_delete_steps, EraseStep};
use lockit::error::LockitError;

fn args(words: &[&str]) -> Vec<String> {
    words.iter().map(|w| w.to_string()).collect()
}

#[test]
fn erase_steps_when_skipping_overwrite() {
    let steps = secure_delete_steps(10, true, Vec::new());
    assert_eq!(steps.len(), 1);
    assert!(matches!(steps[0], EraseStep::Unlink));
}

#[test]
fn erase_steps_three_passes_then_verify() {
    let random = vec![9u8, 8, 7, 6];
    let steps = secure_delete_steps(4, false, random.clone());
    assert_eq!(steps.len(), 5);
    match &steps[0] {
        EraseStep::Overwrite(b) => assert_eq!(b, &vec![0xFFu8; 4]),
        other => panic!("unexpected {:?}", other),
    }
    match &steps[1] {
        EraseStep::Overwrite(b) => assert_eq!(b, &vec![0x00u8; 4]),
        other => panic!("unexpected {:?}", other),
    }
    match &steps[2] {
        EraseStep::Overwrite(b) => assert_eq!(b, &random),
        other => panic!("unexpected {:?}", other),
    }
    match &steps[3] {
        EraseStep::VerifyReadBack(b) => assert_eq!(b, &random),
        other => panic!("unexpected {:?}", other),
    }
    assert!(matches!(steps[4], EraseStep::Unlink));
}

#[test]
fn erase_plan_draws_random_pass() {
    let steps = secure_delete_plan(64, false).unwrap();
    assert_eq!(steps.len(), 5);
    let (written, expected) = match (&steps[2], &steps[3]) {
        (EraseStep::Overwrite(w), EraseStep::VerifyReadBack(e)) => (w.clone(), e.clone()),
        other => panic!("unexpected {:?}", other),
    };
    assert_eq!(written.len(), 64);
    assert_eq!(written, expected);
    let pattern = vec![b'P'; 64];
    assert_ne!(written, pattern);
    let other = secure_delete_plan(64, false).unwrap();
    match &other[2] {
        EraseStep::Overwrite(w) => assert_ne!(w, &written),
        o => panic!("unexpected {:?}", o),
    }
}

#[test]
fn erase_plan_of_empty_file() {
    let steps = secure_delete_plan(0, false).unwrap();
    assert_eq!(steps.len(), 5);
    match &steps[0] {
        EraseStep::Overwrite(b) => assert!(b.is_empty()),
        other => panic!("unexpected {:?}", other),
    }
    let steps = secure_delete_plan(0, true).unwrap();
    assert_eq!(steps.len(), 1);
}

#[test]
fn read_back_check() {
    assert_eq!(check_read_back(b"abc", b"abc"), Ok(()));
    assert_eq!(check_read_back(b"abc", b"abd"), Err(LockitError::Verification));
    assert_eq!(check_read_back(b"abc", b"ab"), Err(LockitError::Verification));
    assert_eq!(check_read_back(b"", b""), Ok(()));
}

#[test]
fn mode_words() {
    assert_eq!(parse_mode("encrypt"), Some(Mode::Encrypt));
    assert_eq!(parse_mode("decrypt"), Some(Mode::Decrypt));
    for w in ["remove", "delete", "rm", "del"] {
        assert_eq!(parse_mode(w), Some(Mode::Remove));
    }
    assert_eq!(parse_mode("encrypted"), None);
    assert_eq!(parse_mode(""), None);
}

#[test]
fn encrypt_mode_with_fallback() {
    assert!(is_encrypt_mode("encrypt"));
    assert!(!is_encrypt_mode("decrypt"));
    assert!(!is_encrypt_mode("rm"));
    assert!(!is_encrypt_mode("del"));
    assert!(is_encrypt_mode("bogus"));
}

#[test]
fn command_line_defaults() {
    let r = parse_mode_paths_and_flags(&args(&["lockit"]));
    assert_eq!(r, ("encrypt".to_string(), vec![".".to_string()], None, None, false, false, false));
    let r = parse_mode_paths_and_flags(&Vec::new());
    assert_eq!(r.1, vec![".".to_string()]);
}

#[test]
fn command_line_words_and_flags() {
    let r = parse_mode_paths_and_flags(&args(&[
        "lockit",
        "decrypt",
        "a",
        "--zipdir",
        "-p",
        "b/c.txt",
        "--no-encrypt-filenames",
        "--skip-dod",
        "--self-destruct",
    ]));
    assert_eq!(
        r,
        (
            "decrypt".to_string(),
            vec!["a".to_string(), "b/c.txt".to_string()],
            Some(false),
            Some(true),
            true,
            false,
            true
        )
    );
}

#[test]
fn command_line_last_word_wins() {
    let r = parse_mode_paths_and_flags(&args(&[
        "lockit",
        "rm",
        "--encrypt-filenames",
        "x",
        "encrypt",
        "--no-encrypt-filenames",
        "--encrypt-filenames",
        "--no-self-destruct",
    ]));
    assert_eq!(r.0, "encrypt");
    assert_eq!(r.1, vec!["x".to_string()]);
    assert_eq!(r.2, Some(true));
    assert_eq!(r.3, Some(false));
}

#[test]
fn command_line_pipe_has_no_default_path() {
    let r = parse_mode_paths_and_flags(&args(&["lockit", "encrypt", "--pipe"]));
    assert!(r.1.is_empty());
    assert!(r.5);
}

use lockit::file_operations::{path_action, PathAction, PathKind};

#[test]
fn path_dispatch() {
    assert_eq!(path_action(PathKind::Other, Mode::Encrypt, false), PathAction::Skip);
    assert_eq!(path_action(PathKind::Other, Mode::Remove, true), PathAction::Skip);
    assert_eq!(path_action(PathKind::File, Mode::Remove, false), PathAction::EraseFile);
    assert_eq!(path_action(PathKind::File, Mode::Encrypt, true), PathAction::ProcessFile);
    assert_eq!(path_action(PathKind::File, Mode::Decrypt, false), PathAction::ProcessFile);
    assert_eq!(path_action(PathKind::Directory, Mode::Remove, true), PathAction::EraseDirectory);
    assert_eq!(path_action(PathKind::Directory, Mode::Encrypt, true), PathAction::ArchiveDirectory);
    assert_eq!(path_action(PathKind::Directory, Mode::Encrypt, false), PathAction::ProcessEntries);
    assert_eq!(path_action(PathKind::Directory, Mode::Decrypt, true), PathAction::ProcessEntries);
}
