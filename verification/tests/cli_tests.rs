// The original suite's checks, driven through the library pipeline: prepare
// decides example mode and the fatal errors, compose renders warning and
// output.

use cli_example::pipeline::{compose, prepare, Prepared, RawArgs, Rendered};
use cli_example::validate::GreetError;

fn args(names: Option<&str>, greetings: Option<&str>, repeat: i32) -> RawArgs {
    RawArgs {
        names: names.map(|s| s.to_string()),
        greetings: greetings.map(|s| s.to_string()),
        repeat,
        verbose: false,
        example: false,
    }
}

fn run_ok(a: &RawArgs) -> Rendered {
    match prepare(a) {
        Prepared::Ready {
            names,
            greetings,
            repeat,
            verbose,
        } => compose(&names, &greetings, repeat, verbose).expect("run failed"),
        _ => panic!("expected a ready run"),
    }
}

fn run_err(a: &RawArgs) -> GreetError {
    match prepare(a) {
        Prepared::Fail { error } => error,
        _ => panic!("expected a failing run"),
    }
}

#[test]
fn test_example_option() {
    let mut a = args(None, None, 1);
    a.example = true;
    match prepare(&a) {
        Prepared::Example { text } => {
            assert!(text.contains("Esempio di utilizzo:"));
            assert!(text.contains(
                "cargo run -- --names \"Mario,Anna\" --greetings \"Salve,Ciao\" --repeat 3"
            ));
            assert!(text.contains(
                "cargo run -- --names \"Mario,Anna\" --greetings \"Salve,Ciao\" --repeat 3 --output saluti.txt"
            ));
        }
        _ => panic!("example mode must short-circuit everything else"),
    }
}

#[test]
fn test_basic_greetings() {
    let out = run_ok(&args(Some("Mario,Anna"), Some("Salve,Ciao"), 2));
    assert!(out.output.contains("Salve Mario!"));
    assert!(out.output.contains("Ciao Anna!"));
}

#[test]
fn test_repeat_option() {
    let out = run_ok(&args(Some("Mario"), Some("Salve"), 3));
    let count = out.output.matches("Salve Mario!").count();
    assert_eq!(count, 3);
}

#[test]
fn test_verbose_option() {
    let mut a = args(Some("Mario"), Some("Salve"), 1);
    a.verbose = true;
    let out = run_ok(&a);
    assert!(out.output.contains("Modalità dettagliata attivata"));
    assert!(out.output.contains("Ripetizioni del saluto: 1"));
    assert!(out.output.contains("Saluti: [\"Salve\"]"));
    assert!(out.output.contains("Nomi: [\"Mario\"]"));
    assert!(out.output.contains("Salve Mario!"));
}

#[test]
fn test_empty_names() {
    let e = run_err(&args(Some(""), Some("Salve"), 1));
    assert!(e.message().contains(
        "Errore: il nome '' contiene caratteri non validi. Sono ammessi solo caratteri alfanumerici e spazi."
    ));
}

#[test]
fn test_empty_greetings() {
    let e = run_err(&args(Some("Mario"), Some(""), 1));
    assert!(e.message().contains(
        "Errore: il saluto '' contiene caratteri non validi. Sono ammessi solo caratteri alfanumerici e spazi."
    ));
}

#[test]
fn test_unequal_names_and_greetings() {
    let out = run_ok(&args(Some("Mario,Anna"), Some("Salve"), 1));
    assert!(out.output.contains("Salve Mario!"));
    let warning = out.warning.expect("a count mismatch must warn");
    assert!(warning.contains("Attenzione: il numero di nomi (2) e di saluti (1) non corrisponde"));
}

#[test]
fn test_long_name() {
    let long_name = "Mario".repeat(11);
    let e = run_err(&args(Some(&long_name), Some("Salve"), 1));
    assert!(e.message().contains(
        "Errore: il nome 'MarioMarioMarioMarioMarioMarioMarioMarioMarioMarioMario' è troppo lungo"
    ));
}

#[test]
fn test_long_greeting() {
    let long_greeting = "Salve".repeat(11);
    let e = run_err(&args(Some("Mario"), Some(&long_greeting), 1));
    assert!(e.message().contains(
        "Errore: il saluto 'SalveSalveSalveSalveSalveSalveSalveSalveSalveSalveSalve' è troppo lungo"
    ));
}

#[test]
fn test_empty_names_input() {
    let e = run_err(&args(Some(""), Some("Salve"), 1));
    assert!(e.message().contains(
        "Errore: il nome '' contiene caratteri non validi. Sono ammessi solo caratteri alfanumerici e spazi."
    ));
}

#[test]
fn test_empty_greetings_input() {
    let e = run_err(&args(Some("Mario"), Some(""), 1));
    assert!(e.message().contains(
        "Errore: il saluto '' contiene caratteri non validi. Sono ammessi solo caratteri alfanumerici e spazi."
    ));
}

#[test]
fn test_invalid_name_with_special_characters() {
    let e = run_err(&args(Some("@@@"), Some("Salve"), 1));
    assert!(e.message().contains(
        "Errore: il nome '@@@' contiene caratteri non validi. Sono ammessi solo caratteri alfanumerici e spazi."
    ));
}

#[test]
fn test_invalid_greeting_with_special_characters() {
    let e = run_err(&args(Some("Mario"), Some("***"), 1));
    assert!(e.message().contains(
        "Errore: il saluto '***' contiene caratteri non validi. Sono ammessi solo caratteri alfanumerici e spazi."
    ));
}

#[test]
fn test_name_too_short() {
    let e = run_err(&args(Some("A"), Some("Salve"), 1));
    assert!(e
        .message()
        .contains("Errore: il nome 'A' è troppo corto. La lunghezza minima consentita è 2 caratteri."));
}

#[test]
fn test_greeting_too_short() {
    let e = run_err(&args(Some("Mario"), Some("B"), 1));
    assert!(e.message().contains(
        "Errore: il saluto 'B' è troppo corto. La lunghezza minima consentita è 2 caratteri."
    ));
}
