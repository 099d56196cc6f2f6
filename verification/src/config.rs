//! Decisions taken while reading and writing the configuration.

use vstd::prelude::*;

use crate::model::{AwsConfig, Config};
use crate::text::{
    chars_of, lemma_trim_whitespace_is_stretch, string_of, trim_whitespace, trim_whitespace_chars,
};

verus! {

/// The AWS credentials of a configuration, if a configuration was loaded and holds some.
pub open spec fn spec_aws_credentials(config: Option<Config>) -> Option<AwsConfig> {
    match config {
        Some(c) => c.aws,
        None => None,
    }
}

/// The AWS credentials of a configuration, if a configuration was loaded and holds some.
pub fn aws_credentials(config: &Option<Config>) -> (r: Option<&AwsConfig>)
    ensures
        match r {
            Some(a) => spec_aws_credentials(*config) == Some(*a),
            None => spec_aws_credentials(*config) is None,
        },
{
    match config {
        Some(c) => match &c.aws {
            Some(a) => Some(a),
            None => None,
        },
        None => None,
    }
}

/// Whether an answer, once trimmed, reads "y" or "yes" in any letter case. (These are the
/// only strings whose lower-case form is "y" or "yes": no other character lower-cases to
/// 'y', 'e' or 's'.)
pub open spec fn is_yes(t: Seq<char>) -> bool {
    ||| t.len() == 1 && (t[0] == 'y' || t[0] == 'Y')
    ||| t.len() == 3 && (t[0] == 'y' || t[0] == 'Y') && (t[1] == 'e' || t[1] == 'E') && (t[2]
        == 's' || t[2] == 'S')
}

/// `c` lower-cased, for ASCII letters; every other character is left alone.
pub open spec fn ascii_lower(c: char) -> char {
    if 'A' <= c <= 'Z' {
        ((c as int) + 32) as char
    } else {
        c
    }
}

/// `t` with its ASCII letters lower-cased.
pub open spec fn lower_all(t: Seq<char>) -> Seq<char> {
    t.map_values(|c: char| ascii_lower(c))
}

/// An accepting answer, once trimmed, lower-cases to exactly "y" or "yes": nothing else
/// (no other letter, no longer or shorter word) is taken as yes.
pub proof fn lemma_yes_is_y_or_yes(t: Seq<char>)
    ensures
        is_yes(t) <==> (lower_all(t) == seq!['y'] || lower_all(t) == seq!['y', 'e', 's']),
        is_yes(t) ==> (t.len() == 1 || t.len() == 3) && (t[0] == 'y' || t[0] == 'Y'),
{
    let l = lower_all(t);
    assert forall|c: char| #[trigger] ascii_lower(c) == 'y' <==> (c == 'y' || c == 'Y') by {}
    assert forall|c: char| #[trigger] ascii_lower(c) == 'e' <==> (c == 'e' || c == 'E') by {}
    assert forall|c: char| #[trigger] ascii_lower(c) == 's' <==> (c == 's' || c == 'S') by {}
    let y1: Seq<char> = seq!['y'];
    let y3: Seq<char> = seq!['y', 'e', 's'];
    assert(y1.len() == 1 && y1[0] == 'y');
    assert(y3.len() == 3 && y3[0] == 'y' && y3[1] == 'e' && y3[2] == 's');
    assert(l.len() == t.len());
    if t.len() == 1 {
        assert(l[0] == ascii_lower(t[0]));
        assert(l == y1 <==> l[0] == 'y') by {
            if l[0] == 'y' {
                assert(l =~= y1);
            }
        }
        assert(l != y3);
    } else if t.len() == 3 {
        assert(l[0] == ascii_lower(t[0]));
        assert(l[1] == ascii_lower(t[1]));
        assert(l[2] == ascii_lower(t[2]));
        assert(l == y3 <==> (l[0] == 'y' && l[1] == 'e' && l[2] == 's')) by {
            if l[0] == 'y' && l[1] == 'e' && l[2] == 's' {
                assert(l =~= y3);
            }
        }
        assert(l != y1);
    } else {
        assert(l != y1);
        assert(l != y3);
    }
}

/// Only an answer that holds a `y` (or `Y`) can accept: what is left after trimming is a
/// stretch of the answer itself, and an accepting one begins with `y` or `Y`. So "N",
/// "n", "x" and the empty answer are refusals.
pub proof fn lemma_accepting_answer_holds_y(answer: Seq<char>)
    requires
        is_yes(trim_whitespace(answer)),
    ensures
        exists|i: int| 0 <= i < answer.len() && (answer[i] == 'y' || answer[i] == 'Y'),
{
    let t = trim_whitespace(answer);
    let lo = lemma_trim_whitespace_is_stretch(answer);
    assert(t[0] == answer[lo]);
}

/// Whether the answer to a yes/no question accepts: after trimming white space it is
/// "y" or "yes", ignoring case.
pub fn confirm(answer: &str) -> (yes: bool)
    ensures
        yes == is_yes(trim_whitespace(answer@)),
{
    let cs = chars_of(answer);
    let t = trim_whitespace_chars(&cs);
    if t.len() == 1 {
        t[0] == 'y' || t[0] == 'Y'
    } else if t.len() == 3 {
        (t[0] == 'y' || t[0] == 'Y') && (t[1] == 'e' || t[1] == 'E') && (t[2] == 's' || t[2]
            == 'S')
    } else {
        false
    }
}

/// An answer as typed, without leading and trailing white space (what `str::trim` keeps).
pub fn trim_answer(line: &str) -> (t: String)
    ensures
        t@ == trim_whitespace(line@),
{
    let cs = chars_of(line);
    string_of(trim_whitespace_chars(&cs))
}

/// The session token to store for an answer: none when the answer is empty.
pub fn session_token_from_answer(token: String) -> (r: Option<String>)
    ensures
        token@.len() == 0 ==> r is None,
        token@.len() != 0 ==> r == Some(token),
{
    if token.as_str().is_empty() {
        None
    } else {
        Some(token)
    }
}

} // verus!
