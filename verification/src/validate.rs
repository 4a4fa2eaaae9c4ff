//! Token validation: every comma-separated, trimmed segment of an input list
//! must be made of ASCII letters, digits and spaces, and its length must lie
//! within fixed bounds. Checking is fail-fast: the first violated rule of the
//! first bad segment decides the error.

use vstd::prelude::*;
use vstd::string::*;

use crate::text::{
    lemma_split_commas_len, normalize, normalize_tokens, seq_trim, split_commas, split_segments,
    trim, trimmed_segments,
};

verus! {

/// Shortest token the validator accepts.
pub const MIN_TOKEN_LEN: usize = 2;

/// Longest token the validator accepts.
pub const MAX_TOKEN_LEN: usize = 50;

/// Which of the two input lists a token or an error belongs to.
#[derive(Clone, Copy, Debug, PartialEq, Eq, Structural)]
pub enum ListKind {
    Names,
    Greetings,
}

/// Everything that makes a run fail before any line is rendered.
#[derive(Clone, Debug, PartialEq, Eq)]
pub enum GreetError {
    ArgumentMissing { kind: ListKind },
    InvalidRepeatValue,
    InvalidCharacters { kind: ListKind, token: String },
    TooShort { kind: ListKind, token: String },
    TooLong { kind: ListKind, token: String },
    EmptyList { kind: ListKind },
}

/// The rule a single token breaks, if any; the checks apply in this order.
#[derive(Clone, Copy, Debug, PartialEq, Eq, Structural)]
pub enum TokenViolation {
    Chars,
    Short,
    Long,
}

/// An ASCII letter, an ASCII digit, or a space.
pub open spec fn is_allowed_char(c: char) -> bool {
    ('a' <= c && c <= 'z') || ('A' <= c && c <= 'Z') || ('0' <= c && c <= '9') || c == ' '
}

/// The token is non-empty and made of allowed characters only.
pub open spec fn token_chars_ok(t: Seq<char>) -> bool {
    t.len() > 0 && forall|i: int| 0 <= i < t.len() ==> is_allowed_char(#[trigger] t[i])
}

/// The first rule the token breaks: character class, then minimum length,
/// then maximum length.
pub open spec fn seg_violation(t: Seq<char>) -> Option<TokenViolation> {
    if !token_chars_ok(t) {
        Some(TokenViolation::Chars)
    } else if t.len() < MIN_TOKEN_LEN {
        Some(TokenViolation::Short)
    } else if t.len() > MAX_TOKEN_LEN {
        Some(TokenViolation::Long)
    } else {
        None
    }
}

/// Every trimmed segment of the raw list passes all three checks.
pub open spec fn list_valid(s: Seq<char>) -> bool {
    forall|i: int|
        0 <= i < trimmed_segments(s).len() ==> seg_violation(
            #[trigger] trimmed_segments(s)[i],
        ) is None
}

/// `e` is the error that reports the rule broken by token `t` of list `kind`.
pub open spec fn err_describes(e: GreetError, kind: ListKind, t: Seq<char>) -> bool {
    match seg_violation(t) {
        Some(TokenViolation::Chars) => e matches GreetError::InvalidCharacters {
            kind: k,
            token,
        } && k == kind && token@ == t,
        Some(TokenViolation::Short) => e matches GreetError::TooShort { kind: k, token } && k
            == kind && token@ == t,
        Some(TokenViolation::Long) => e matches GreetError::TooLong { kind: k, token } && k == kind
            && token@ == t,
        None => false,
    }
}

/// Segment `i` is the first one of `s` that breaks a rule, and `e` reports it.
pub open spec fn is_first_violation(e: GreetError, kind: ListKind, s: Seq<char>, i: int) -> bool {
    let segs = trimmed_segments(s);
    &&& 0 <= i < segs.len()
    &&& (forall|j: int| 0 <= j < i ==> seg_violation(#[trigger] segs[j]) is None)
    &&& err_describes(e, kind, segs[i])
}

/// `e` reports the first rule violation of the raw list `s`.
pub open spec fn validation_error(e: GreetError, kind: ListKind, s: Seq<char>) -> bool {
    exists|i: int| is_first_violation(e, kind, s, i)
}

/// The label under which a list's tokens are named in diagnostics.
pub open spec fn kind_label(kind: ListKind) -> Seq<char> {
    match kind {
        ListKind::Names => "nome"@,
        ListKind::Greetings => "saluto"@,
    }
}

/// The diagnostic text of an error, naming the offending value and the rule.
pub open spec fn message_spec(e: GreetError) -> Seq<char> {
    match e {
        GreetError::ArgumentMissing { kind } => match kind {
            ListKind::Names => "I nomi sono obbligatori."@,
            ListKind::Greetings => "I saluti sono obbligatori."@,
        },
        GreetError::InvalidRepeatValue => {
            "Errore: il valore di --repeat deve essere un numero positivo."@
        },
        GreetError::InvalidCharacters { kind, token } => {
            "Errore: il "@ + kind_label(kind) + " '"@ + token@
                + "' contiene caratteri non validi. Sono ammessi solo caratteri alfanumerici e spazi."@
        },
        GreetError::TooShort { kind, token } => {
            "Errore: il "@ + kind_label(kind) + " '"@ + token@
                + "' è troppo corto. La lunghezza minima consentita è 2 caratteri."@
        },
        GreetError::TooLong { kind, token } => {
            "Errore: il "@ + kind_label(kind) + " '"@ + token@
                + "' è troppo lungo. La lunghezza massima consentita è 50 caratteri."@
        },
        GreetError::EmptyList { kind } => match kind {
            ListKind::Names => "Errore: la lista dei nomi è vuota o contiene solo spazi."@,
            ListKind::Greetings => "Errore: la lista dei saluti è vuota o contiene solo spazi."@,
        },
    }
}

fn label_str(kind: ListKind) -> (r: &'static str)
    ensures
        r@ == kind_label(kind),
{
    match kind {
        ListKind::Names => "nome",
        ListKind::Greetings => "saluto",
    }
}

impl GreetError {
    /// The human-readable diagnostic for this error.
    pub fn message(&self) -> (r: String)
        ensures
            r@ == message_spec(*self),
    {
        match self {
            GreetError::ArgumentMissing { kind } => match kind {
                ListKind::Names => "I nomi sono obbligatori.".to_owned(),
                ListKind::Greetings => "I saluti sono obbligatori.".to_owned(),
            },
            GreetError::InvalidRepeatValue => {
                "Errore: il valore di --repeat deve essere un numero positivo.".to_owned()
            },
            GreetError::InvalidCharacters { kind, token } => {
                let mut s = "Errore: il ".to_owned();
                s.append(label_str(*kind));
                s.append(" '");
                s.append(token.as_str());
                s.append(
                    "' contiene caratteri non validi. Sono ammessi solo caratteri alfanumerici e spazi.",
                );
                proof {
                    assert(s@ =~= message_spec(*self));
                }
                s
            },
            GreetError::TooShort { kind, token } => {
                let mut s = "Errore: il ".to_owned();
                s.append(label_str(*kind));
                s.append(" '");
                s.append(token.as_str());
                s.append("' è troppo corto. La lunghezza minima consentita è 2 caratteri.");
                proof {
                    assert(s@ =~= message_spec(*self));
                }
                s
            },
            GreetError::TooLong { kind, token } => {
                let mut s = "Errore: il ".to_owned();
                s.append(label_str(*kind));
                s.append(" '");
                s.append(token.as_str());
                s.append("' è troppo lungo. La lunghezza massima consentita è 50 caratteri.");
                proof {
                    assert(s@ =~= message_spec(*self));
                }
                s
            },
            GreetError::EmptyList { kind } => match kind {
                ListKind::Names => {
                    "Errore: la lista dei nomi è vuota o contiene solo spazi.".to_owned()
                },
                ListKind::Greetings => {
                    "Errore: la lista dei saluti è vuota o contiene solo spazi.".to_owned()
                },
            },
        }
    }
}

proof fn lemma_normalize_tokens_of_valid(ts: Seq<Seq<char>>)
    requires
        forall|j: int| 0 <= j < ts.len() ==> seg_violation(trim(#[trigger] ts[j])) is None,
    ensures
        normalize_tokens(ts) == seq_trim(ts),
    decreases ts.len(),
{
    if ts.len() > 0 {
        assert forall|j: int| 0 <= j < ts.drop_last().len() implies seg_violation(
            trim(#[trigger] ts.drop_last()[j]),
        ) is None by {
            assert(ts.drop_last()[j] == ts[j]);
        }
        lemma_normalize_tokens_of_valid(ts.drop_last());
        assert(seg_violation(trim(ts.last())) is None);
        assert(token_chars_ok(trim(ts.last())));
        assert(normalize_tokens(ts) =~= seq_trim(ts));
    } else {
        assert(normalize_tokens(ts) =~= seq_trim(ts));
    }
}

/// A list that passed validation never normalizes to the empty list: every
/// trimmed segment survives normalization, and each normalized token is
/// non-empty and within the character class.
pub proof fn lemma_valid_list_normalizes(s: Seq<char>)
    requires
        list_valid(s),
    ensures
        normalize(s) == trimmed_segments(s),
        normalize(s).len() >= 1,
        forall|i: int| 0 <= i < normalize(s).len() ==> token_chars_ok(#[trigger] normalize(s)[i]),
{
    lemma_split_commas_len(s);
    let split = split_commas(s);
    assert forall|j: int| 0 <= j < split.len() implies seg_violation(
        trim(#[trigger] split[j]),
    ) is None by {
        assert(trimmed_segments(s)[j] == trim(split[j]));
    }
    lemma_normalize_tokens_of_valid(split);
    assert forall|i: int| 0 <= i < normalize(s).len() implies token_chars_ok(
        #[trigger] normalize(s)[i],
    ) by {
        assert(normalize(s)[i] == trim(split[i]));
        assert(seg_violation(trim(split[i])) is None);
    }
}

/// Relies on `regex::Regex::new` and `regex::Regex::is_match`: the anchored
/// pattern `^[a-zA-Z0-9 ]+$` matches a string if and only if it is non-empty
/// and made of ASCII letters, ASCII digits and spaces only.
#[verifier::external_body]
fn matches_token_class(s: &str) -> (r: bool)
    ensures
        r == token_chars_ok(s@),
{
    let class = regex::Regex::new("^[a-zA-Z0-9 ]+$").unwrap();
    class.is_match(s)
}

/// Checks every trimmed comma-separated segment of `input` against the
/// character-class rule, then the minimum length, then the maximum length,
/// and reports the first rule broken by the first failing segment.
pub fn validate_input(input: &str, kind: ListKind) -> (r: Result<(), GreetError>)
    ensures
        r is Ok <==> list_valid(input@),
        r matches Err(e) ==> validation_error(e, kind, input@),
{
    let segs = split_segments(input);
    let mut i: usize = 0;
    while i < segs.len()
        invariant
            i <= segs.len(),
            segs.deep_view() == trimmed_segments(input@),
            forall|j: int|
                0 <= j < i ==> seg_violation(#[trigger] trimmed_segments(input@)[j]) is None,
        decreases segs.len() - i,
    {
        proof {
            assert(segs.deep_view().len() == segs@.len());
            assert(segs@[i as int]@ == trimmed_segments(input@)[i as int]);
        }
        let t = &segs[i];
        if !matches_token_class(t.as_str()) {
            let e = GreetError::InvalidCharacters { kind, token: t.clone() };
            proof {
                assert(is_first_violation(e, kind, input@, i as int));
            }
            return Err(e);
        }
        let tl = t.as_str().unicode_len();
        if tl < MIN_TOKEN_LEN {
            let e = GreetError::TooShort { kind, token: t.clone() };
            proof {
                assert(is_first_violation(e, kind, input@, i as int));
            }
            return Err(e);
        }
        if tl > MAX_TOKEN_LEN {
            let e = GreetError::TooLong { kind, token: t.clone() };
            proof {
                assert(is_first_violation(e, kind, input@, i as int));
            }
            return Err(e);
        }
        i = i + 1;
    }
    Ok(())
}

} // verus!
