//! The run pipeline, split around the one I/O step a caller performs between
//! the two halves: `prepare` resolves example mode, checks the repeat count,
//! the presence of both lists and their tokens; the caller then opens its
//! output sink; `compose` normalizes the lists and produces the warning and
//! the full output text.

use vstd::prelude::*;
use vstd::string::*;

use crate::render::{
    count_char, lemma_line_no_terminator, lemma_lines_joined_count, line_spec, lines_joined,
    mismatch_warning, mismatch_warning_spec, paired_lines, render_lines, render_output,
    render_preamble, verbose_preamble,
};
use crate::text::normalize;
use crate::validate::{
    is_allowed_char, lemma_valid_list_normalizes, list_valid, token_chars_ok, validate_input,
    validation_error, GreetError, ListKind,
};

verus! {

/// The raw flag values a run starts from, as the argument parser hands them
/// over; immutable thereafter.
pub struct RawArgs {
    pub names: Option<String>,
    pub greetings: Option<String>,
    pub repeat: i32,
    pub verbose: bool,
    pub example: bool,
}

/// What `prepare` decides: print the usage examples and stop, fail before any
/// output, or go on rendering with the checked inputs.
pub enum Prepared {
    Example { text: String },
    Ready { names: String, greetings: String, repeat: u32, verbose: bool },
    Fail { error: GreetError },
}

/// A successful run's products: the optional count-mismatch warning for the
/// diagnostic stream, and the output text for the sink.
#[derive(Debug)]
pub struct Rendered {
    pub warning: Option<String>,
    pub output: String,
}

/// The two usage lines printed in example mode.
pub open spec fn example_text_spec() -> Seq<char> {
    "Esempio di utilizzo:\n  cargo run -- --names \"Mario,Anna\" --greetings \"Salve,Ciao\" --repeat 3\n  cargo run -- --names \"Mario,Anna\" --greetings \"Salve,Ciao\" --repeat 3 --output saluti.txt\n"@
}

/// Renders the example-mode text.
pub fn example_text() -> (r: String)
    ensures
        r@ == example_text_spec(),
{
    "Esempio di utilizzo:\n  cargo run -- --names \"Mario,Anna\" --greetings \"Salve,Ciao\" --repeat 3\n  cargo run -- --names \"Mario,Anna\" --greetings \"Salve,Ciao\" --repeat 3 --output saluti.txt\n".to_owned()
}

/// What `prepare` returns for each argument vector: example mode wins over
/// everything; then a non-positive repeat count, a missing list, and the
/// first token violation of the names and then of the greetings are fatal,
/// in that order; otherwise the checked inputs pass through unchanged.
pub open spec fn prepare_post(args: RawArgs, r: Prepared) -> bool {
    if args.example {
        r matches Prepared::Example { text } && text@ == example_text_spec()
    } else if args.repeat <= 0 {
        r matches Prepared::Fail { error } && error == GreetError::InvalidRepeatValue
    } else if args.names is None {
        r matches Prepared::Fail { error } && error == (GreetError::ArgumentMissing {
            kind: ListKind::Names,
        })
    } else if args.greetings is None {
        r matches Prepared::Fail { error } && error == (GreetError::ArgumentMissing {
            kind: ListKind::Greetings,
        })
    } else if !list_valid(args.names.unwrap()@) {
        r matches Prepared::Fail { error } && validation_error(
            error,
            ListKind::Names,
            args.names.unwrap()@,
        )
    } else if !list_valid(args.greetings.unwrap()@) {
        r matches Prepared::Fail { error } && validation_error(
            error,
            ListKind::Greetings,
            args.greetings.unwrap()@,
        )
    } else {
        r matches Prepared::Ready { names, greetings, repeat, verbose } && names@
            == args.names.unwrap()@ && greetings@ == args.greetings.unwrap()@ && repeat as int
            == args.repeat as int && verbose == args.verbose
    }
}

/// Decides how a run starts: example mode, an early fatal error, or the
/// checked inputs to render from.
pub fn prepare(args: &RawArgs) -> (r: Prepared)
    ensures
        prepare_post(*args, r),
{
    if args.example {
        return Prepared::Example { text: example_text() };
    }
    if args.repeat <= 0 {
        return Prepared::Fail { error: GreetError::InvalidRepeatValue };
    }
    let names = match &args.names {
        Some(n) => n,
        None => {
            return Prepared::Fail { error: GreetError::ArgumentMissing { kind: ListKind::Names } };
        },
    };
    let greetings = match &args.greetings {
        Some(g) => g,
        None => {
            return Prepared::Fail {
                error: GreetError::ArgumentMissing { kind: ListKind::Greetings },
            };
        },
    };
    if let Err(error) = validate_input(names.as_str(), ListKind::Names) {
        return Prepared::Fail { error };
    }
    if let Err(error) = validate_input(greetings.as_str(), ListKind::Greetings) {
        return Prepared::Fail { error };
    }
    Prepared::Ready {
        names: names.clone(),
        greetings: greetings.clone(),
        repeat: args.repeat as u32,
        verbose: args.verbose,
    }
}

/// The full output text of a run: the verbose preamble, if asked for, then
/// the `repeat` cyclically paired lines, each newline-terminated.
pub open spec fn output_spec(
    gs: Seq<Seq<char>>,
    ns: Seq<Seq<char>>,
    repeat: nat,
    verbose: bool,
) -> Seq<char> {
    let body = lines_joined(paired_lines(gs, ns, repeat));
    if verbose {
        verbose_preamble(repeat, gs, ns) + body
    } else {
        body
    }
}

/// What `compose` returns: an empty normalized name list, then an empty
/// normalized greeting list, is fatal; otherwise the run succeeds, warns
/// exactly when the two list lengths differ, and its output text is
/// `output_spec` of the normalized lists.
pub open spec fn compose_post(
    names_raw: Seq<char>,
    greetings_raw: Seq<char>,
    repeat: nat,
    verbose: bool,
    r: Result<Rendered, GreetError>,
) -> bool {
    let ns = normalize(names_raw);
    let gs = normalize(greetings_raw);
    if ns.len() == 0 {
        r matches Err(e) && e == (GreetError::EmptyList { kind: ListKind::Names })
    } else if gs.len() == 0 {
        r matches Err(e) && e == (GreetError::EmptyList { kind: ListKind::Greetings })
    } else {
        r matches Ok(out) && (if ns.len() != gs.len() {
            out.warning matches Some(w) && w@ == mismatch_warning_spec(ns.len(), gs.len())
        } else {
            out.warning is None
        }) && out.output@ == output_spec(gs, ns, repeat, verbose)
    }
}

/// Normalizes the two validated lists and renders the run's warning and
/// output text.
pub fn compose(names_raw: &str, greetings_raw: &str, repeat: u32, verbose: bool) -> (r: Result<
    Rendered,
    GreetError,
>)
    ensures
        compose_post(names_raw@, greetings_raw@, repeat as nat, verbose, r),
{
    let names = crate::text::normalize_list(names_raw);
    if names.len() == 0 {
        return Err(GreetError::EmptyList { kind: ListKind::Names });
    }
    let greetings = crate::text::normalize_list(greetings_raw);
    if greetings.len() == 0 {
        return Err(GreetError::EmptyList { kind: ListKind::Greetings });
    }
    let warning = if names.len() != greetings.len() {
        Some(mismatch_warning(names.len(), greetings.len()))
    } else {
        None
    };
    let lines = render_lines(&greetings, &names, repeat as usize);
    let body = render_output(&lines);
    let output = if verbose {
        let mut s = render_preamble(repeat as usize, &greetings, &names);
        s.append(body.as_str());
        s
    } else {
        body
    };
    Ok(Rendered { warning, output })
}

/// The cyclic pairing law: a run renders exactly `repeat` lines, and line `i`
/// pairs greeting `i mod |gs|` with name `i mod |ns|`, whether or not the two
/// lists have equal length.
pub proof fn lemma_cyclic_pairing(gs: Seq<Seq<char>>, ns: Seq<Seq<char>>, repeat: nat, i: int)
    requires
        gs.len() > 0,
        ns.len() > 0,
        0 <= i < repeat,
    ensures
        paired_lines(gs, ns, repeat).len() == repeat,
        paired_lines(gs, ns, repeat)[i] == line_spec(
            gs[i % gs.len() as int],
            ns[i % ns.len() as int],
        ),
{
}

/// The line-count law: for lists that passed validation, the rendered text of
/// a run holds exactly `repeat` newline-terminated lines — the normalized
/// lists are non-empty, no token smuggles a terminator in, and joining puts
/// one terminator per line.
pub proof fn lemma_output_line_count(names_raw: Seq<char>, greetings_raw: Seq<char>, repeat: nat)
    ensures
        list_valid(names_raw) && list_valid(greetings_raw) ==> {
            let gs = normalize(greetings_raw);
            let ns = normalize(names_raw);
            &&& gs.len() > 0
            &&& ns.len() > 0
            &&& count_char(lines_joined(paired_lines(gs, ns, repeat)), '\n') == repeat
        },
{
    if list_valid(names_raw) && list_valid(greetings_raw) {
        lemma_valid_list_normalizes(names_raw);
        lemma_valid_list_normalizes(greetings_raw);
        let gs = normalize(greetings_raw);
        let ns = normalize(names_raw);
        let lines = paired_lines(gs, ns, repeat);
        assert forall|i: int| 0 <= i < lines.len() implies count_char(
            #[trigger] lines[i],
            '\n',
        ) == 0 by {
            let g = gs[i % gs.len() as int];
            let n = ns[i % ns.len() as int];
            assert(token_chars_ok(g));
            assert(token_chars_ok(n));
            assert forall|j: int| 0 <= j < g.len() implies g[j] != '\n' by {
                assert(is_allowed_char(g[j]));
            }
            assert forall|j: int| 0 <= j < n.len() implies n[j] != '\n' by {
                assert(is_allowed_char(n[j]));
            }
            lemma_line_no_terminator(g, n);
        }
        lemma_lines_joined_count(lines);
    }
}

} // verus!
