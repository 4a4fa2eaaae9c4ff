//! Rendering: the greeting lines themselves, the joined output text, and the
//! diagnostic texts (verbose preamble, count-mismatch warning).

use vstd::prelude::*;
use vstd::string::*;

use crate::numbers::{dec_str, usize_to_string};

verus! {

/// One rendered line, without its terminator: `"<greeting> <name>!"`.
pub open spec fn line_spec(g: Seq<char>, n: Seq<char>) -> Seq<char> {
    g + seq![' '] + n + seq!['!']
}

/// The `repeat` lines of a run, in order: line `i` pairs greeting
/// `i mod |gs|` with name `i mod |ns|`.
pub open spec fn paired_lines(gs: Seq<Seq<char>>, ns: Seq<Seq<char>>, repeat: nat) -> Seq<
    Seq<char>,
> {
    Seq::new(repeat, |i: int| line_spec(gs[i % gs.len() as int], ns[i % ns.len() as int]))
}

/// The lines concatenated, each followed by a newline.
pub open spec fn lines_joined(lines: Seq<Seq<char>>) -> Seq<char>
    decreases lines.len(),
{
    if lines.len() == 0 {
        Seq::<char>::empty()
    } else {
        lines_joined(lines.drop_last()) + lines.last() + seq!['\n']
    }
}

/// The tokens quoted and comma-separated, as inside a debug rendering.
pub open spec fn quoted_tokens(ts: Seq<Seq<char>>) -> Seq<char>
    decreases ts.len(),
{
    if ts.len() == 0 {
        Seq::<char>::empty()
    } else if ts.len() == 1 {
        seq!['"'] + ts[0] + seq!['"']
    } else {
        quoted_tokens(ts.drop_last()) + seq![',', ' '] + seq!['"'] + ts.last() + seq!['"']
    }
}

/// The debug rendering of a token list: `["a", "b"]`.
pub open spec fn debug_list(ts: Seq<Seq<char>>) -> Seq<char> {
    seq!['['] + quoted_tokens(ts) + seq![']']
}

/// Renders one pairing of a greeting with a name.
pub fn render_line(greeting: &str, name: &str) -> (r: String)
    ensures
        r@ == line_spec(greeting@, name@),
{
    let mut s = greeting.to_owned();
    s.append(" ");
    s.append(name);
    s.append("!");
    proof {
        reveal_strlit(" ");
        reveal_strlit("!");
        assert(s@ =~= line_spec(greeting@, name@));
    }
    s
}

/// Renders the `repeat` lines of a run by cyclic pairing: line `i` greets
/// name `i mod |names|` with greeting `i mod |greetings|`.
pub fn render_lines(greetings: &Vec<String>, names: &Vec<String>, repeat: usize) -> (r: Vec<
    String,
>)
    requires
        greetings@.len() > 0,
        names@.len() > 0,
    ensures
        r.deep_view() == paired_lines(greetings.deep_view(), names.deep_view(), repeat as nat),
{
    let mut r: Vec<String> = Vec::new();
    let mut i: usize = 0;
    while i < repeat
        invariant
            i <= repeat,
            greetings@.len() > 0,
            names@.len() > 0,
            r@.len() == i,
            forall|j: int|
                0 <= j < i ==> r@[j]@ == line_spec(
                    greetings@[j % greetings@.len() as int]@,
                    names@[j % names@.len() as int]@,
                ),
        decreases repeat - i,
    {
        let gi = i % greetings.len();
        let ni = i % names.len();
        let line = render_line(greetings[gi].as_str(), names[ni].as_str());
        r.push(line);
        i = i + 1;
    }
    proof {
        assert(r.deep_view() =~= paired_lines(
            greetings.deep_view(),
            names.deep_view(),
            repeat as nat,
        ));
    }
    r
}

/// Joins rendered lines into the output text, one terminator per line.
pub fn render_output(lines: &Vec<String>) -> (r: String)
    ensures
        r@ == lines_joined(lines.deep_view()),
{
    let mut s = String::new();
    let mut i: usize = 0;
    proof {
        assert(lines.deep_view().take(0) =~= Seq::<Seq<char>>::empty());
    }
    while i < lines.len()
        invariant
            i <= lines@.len(),
            s@ == lines_joined(lines.deep_view().take(i as int)),
        decreases lines@.len() - i,
    {
        s.append(lines[i].as_str());
        s.append("\n");
        proof {
            reveal_strlit("\n");
            let dv = lines.deep_view();
            assert(dv.take(i + 1).drop_last() =~= dv.take(i as int));
            assert(dv.take(i + 1).last() == lines@[i as int]@);
            assert(s@ =~= lines_joined(dv.take(i + 1)));
        }
        i = i + 1;
    }
    proof {
        assert(lines.deep_view().take(lines@.len() as int) =~= lines.deep_view());
    }
    s
}

/// Renders a token list as its debug form, `["a", "b"]`.
pub fn render_debug_list(ts: &Vec<String>) -> (r: String)
    ensures
        r@ == debug_list(ts.deep_view()),
{
    let mut s = "[".to_owned();
    let mut i: usize = 0;
    proof {
        reveal_strlit("[");
        assert(ts.deep_view().take(0) =~= Seq::<Seq<char>>::empty());
        assert(s@ =~= seq!['['] + quoted_tokens(ts.deep_view().take(0)));
    }
    while i < ts.len()
        invariant
            i <= ts@.len(),
            s@ == seq!['['] + quoted_tokens(ts.deep_view().take(i as int)),
        decreases ts@.len() - i,
    {
        if i > 0 {
            s.append(", ");
        }
        s.append("\"");
        s.append(ts[i].as_str());
        s.append("\"");
        proof {
            reveal_strlit(", ");
            reveal_strlit("\"");
            let dv = ts.deep_view();
            assert(dv.take(i + 1).drop_last() =~= dv.take(i as int));
            assert(dv.take(i + 1).last() == ts@[i as int]@);
            assert(s@ =~= seq!['['] + quoted_tokens(dv.take(i + 1)));
        }
        i = i + 1;
    }
    s.append("]");
    proof {
        reveal_strlit("]");
        assert(ts.deep_view().take(ts@.len() as int) =~= ts.deep_view());
        assert(s@ =~= debug_list(ts.deep_view()));
    }
    s
}

/// The verbose preamble written before the rendered lines: the mode
/// announcement, the repeat count, and the two token lists in debug form,
/// each on its own line.
pub open spec fn verbose_preamble(repeat: nat, gs: Seq<Seq<char>>, ns: Seq<Seq<char>>) -> Seq<
    char,
> {
    "Modalità dettagliata attivata.\n"@ + "Ripetizioni del saluto: "@ + dec_str(repeat)
        + seq!['\n'] + "Saluti: "@ + debug_list(gs) + seq!['\n'] + "Nomi: "@ + debug_list(ns)
        + seq!['\n']
}

/// Renders the verbose preamble.
pub fn render_preamble(repeat: usize, greetings: &Vec<String>, names: &Vec<String>) -> (r: String)
    ensures
        r@ == verbose_preamble(repeat as nat, greetings.deep_view(), names.deep_view()),
{
    let mut s = "Modalità dettagliata attivata.\n".to_owned();
    s.append("Ripetizioni del saluto: ");
    s.append(usize_to_string(repeat).as_str());
    s.append("\n");
    s.append("Saluti: ");
    s.append(render_debug_list(greetings).as_str());
    s.append("\n");
    s.append("Nomi: ");
    s.append(render_debug_list(names).as_str());
    s.append("\n");
    proof {
        reveal_strlit("\n");
        assert(s@ =~= verbose_preamble(repeat as nat, greetings.deep_view(), names.deep_view()));
    }
    s
}

/// The warning emitted when the two lists have different lengths.
pub open spec fn mismatch_warning_spec(n_names: nat, n_greetings: nat) -> Seq<char> {
    "Attenzione: il numero di nomi ("@ + dec_str(n_names) + ") e di saluti ("@ + dec_str(
        n_greetings,
    ) + ") non corrisponde. Il programma utilizzerà il ciclo per abbinarli."@
}

/// How many times `c` occurs in `s`.
pub open spec fn count_char(s: Seq<char>, c: char) -> nat
    decreases s.len(),
{
    if s.len() == 0 {
        0
    } else {
        count_char(s.drop_last(), c) + if s.last() == c {
            1nat
        } else {
            0nat
        }
    }
}

pub proof fn lemma_count_char_concat(a: Seq<char>, b: Seq<char>, c: char)
    ensures
        count_char(a + b, c) == count_char(a, c) + count_char(b, c),
    decreases b.len(),
{
    if b.len() == 0 {
        assert(a + b =~= a);
    } else {
        lemma_count_char_concat(a, b.drop_last(), c);
        assert((a + b).drop_last() =~= a + b.drop_last());
        assert((a + b).last() == b.last());
    }
}

pub proof fn lemma_count_char_absent(s: Seq<char>, c: char)
    requires
        forall|i: int| 0 <= i < s.len() ==> s[i] != c,
    ensures
        count_char(s, c) == 0,
    decreases s.len(),
{
    if s.len() > 0 {
        lemma_count_char_absent(s.drop_last(), c);
    }
}

/// Joining lines that are free of the terminator puts exactly one terminator
/// per line into the text: the joined text holds as many newlines as there
/// are lines.
pub proof fn lemma_lines_joined_count(lines: Seq<Seq<char>>)
    requires
        forall|i: int| 0 <= i < lines.len() ==> count_char(#[trigger] lines[i], '\n') == 0,
    ensures
        count_char(lines_joined(lines), '\n') == lines.len(),
    decreases lines.len(),
{
    if lines.len() > 0 {
        lemma_lines_joined_count(lines.drop_last());
        lemma_count_char_concat(lines_joined(lines.drop_last()), lines.last(), '\n');
        lemma_count_char_concat(
            lines_joined(lines.drop_last()) + lines.last(),
            seq!['\n'],
            '\n',
        );
        assert(lines.last() == lines[lines.len() - 1]);
        assert(count_char(lines.last(), '\n') == 0);
        let nl = seq!['\n'];
        assert(nl.len() == 1);
        assert(nl.last() == '\n');
        assert(nl.drop_last() =~= Seq::<char>::empty());
        assert(count_char(nl.drop_last(), '\n') == 0);
        assert(count_char(nl, '\n') == 1);
    }
}

/// A line rendered from terminator-free parts is itself terminator-free.
pub proof fn lemma_line_no_terminator(g: Seq<char>, n: Seq<char>)
    requires
        forall|i: int| 0 <= i < g.len() ==> g[i] != '\n',
        forall|i: int| 0 <= i < n.len() ==> n[i] != '\n',
    ensures
        count_char(line_spec(g, n), '\n') == 0,
{
    assert forall|i: int| 0 <= i < line_spec(g, n).len() implies line_spec(g, n)[i] != '\n' by {
        let line = line_spec(g, n);
        if i < g.len() {
            assert(line[i] == g[i]);
        } else if i == g.len() {
            assert(line[i] == ' ');
        } else if i < g.len() + 1 + n.len() {
            assert(line[i] == n[i - g.len() - 1]);
        } else {
            assert(line[i] == '!');
        }
    }
    lemma_count_char_absent(line_spec(g, n), '\n');
}

/// Renders the count-mismatch warning naming both counts.
pub fn mismatch_warning(n_names: usize, n_greetings: usize) -> (r: String)
    ensures
        r@ == mismatch_warning_spec(n_names as nat, n_greetings as nat),
{
    let mut s = "Attenzione: il numero di nomi (".to_owned();
    s.append(usize_to_string(n_names).as_str());
    s.append(") e di saluti (");
    s.append(usize_to_string(n_greetings).as_str());
    s.append(") non corrisponde. Il programma utilizzerà il ciclo per abbinarli.");
    proof {
        assert(s@ =~= mismatch_warning_spec(n_names as nat, n_greetings as nat));
    }
    s
}

} // verus!
