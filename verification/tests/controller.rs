use pocket_llama::cli::{classify_input, launch_mode, LaunchMode, ReplInput};
use pocket_llama::error::PocketError;
use pocket_llama::guardrail::{decimal_string, preflight_check};
use pocket_llama::text::{chars_of, first_word_chars, trim_chars};

#[test]
fn launch_modes() {
    assert_eq!(launch_mode(false, false, 1), LaunchMode::WebUi);
    assert_eq!(launch_mode(false, false, 0), LaunchMode::WebUi);
    assert_eq!(launch_mode(true, true, 5), LaunchMode::WebUi);
    assert_eq!(launch_mode(false, true, 2), LaunchMode::ApiServer);
    assert_eq!(launch_mode(false, false, 3), LaunchMode::Repl);
}

#[test]
fn typed_lines() {
    assert_eq!(classify_input(""), ReplInput::Skip);
    assert_eq!(classify_input(" \t\u{3000} "), ReplInput::Skip);
    assert_eq!(classify_input("exit"), ReplInput::Exit);
    assert_eq!(classify_input("  QuIt \n"), ReplInput::Exit);
    assert_eq!(classify_input("exiting"), ReplInput::Prompt("exiting".to_string()));
    assert_eq!(classify_input("  hello there  "), ReplInput::Prompt("hello there".to_string()));
}

#[test]
fn trimming_matches_the_standard_library() {
    for s in ["", "  a b  ", "\u{a0}x\u{2003}", "\u{85}\u{200b}y", " \u{1680}z\u{202f}\u{205f}", "tab\t"] {
        let t: String = trim_chars(&chars_of(s)).into_iter().collect();
        assert_eq!(t, s.trim());
        let w: String = first_word_chars(&chars_of(s)).into_iter().collect();
        assert_eq!(w, s.split_whitespace().next().unwrap_or(""));
    }
}

#[test]
fn guardrail_allows_models_within_eighty_percent() {
    assert!(preflight_check(800, 1000, false).is_ok());
    assert!(preflight_check(0, 0, false).is_ok());
    assert!(preflight_check(801, 1000, true).is_ok());
    match preflight_check(801, 1000, false) {
        Err(PocketError::MemoryInsufficient(m)) => assert_eq!(
            m,
            "Model size (801 bytes) exceeds 80% of physical RAM (1000 bytes). System would freeze. Use --force-ram to bypass."
        ),
        _ => panic!("the model must be refused"),
    }
    assert!(preflight_check(u64::MAX, u64::MAX, false).is_err());
    assert!(preflight_check(40_000_000_000, 8_000_000_000, false).is_err());
}

#[test]
fn decimal_notation() {
    assert_eq!(decimal_string(0), "0");
    assert_eq!(decimal_string(7), "7");
    assert_eq!(decimal_string(10), "10");
    assert_eq!(decimal_string(u64::MAX), u64::MAX.to_string());
}

#[test]
fn error_messages() {
    assert_eq!(PocketError::ConfigError("x".to_string()).message(), "Configuration Error: x");
    assert_eq!(PocketError::EngineError("y".to_string()).message(), "Engine Inference Error: y");
    assert_eq!(
        PocketError::MemoryInsufficient("z".to_string()).message(),
        "Insufficient System RAM: z"
    );
    let io = std::io::Error::new(std::io::ErrorKind::Other, "disk gone");
    assert_eq!(PocketError::IoError(io).message(), "I/O Error: disk gone");
}

#[test]
fn io_errors_convert() {
    let e: PocketError = std::io::Error::new(std::io::ErrorKind::NotFound, "gone").into();
    assert!(matches!(e, PocketError::IoError(_)));
    let r: pocket_llama::error::Result<u8> = Err(e);
    assert!(r.is_err());
}
