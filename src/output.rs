//! The text of a CI step's fetched output.

use vstd::prelude::*;
use vstd::string::*;
use crate::text::{trim, trimmed_of};

verus! {

/// What `strip_ansi_escapes::strip_str` leaves of a text.
pub uninterp spec fn ansi_stripped(s: Seq<char>) -> Seq<char>;

/// Relies on `strip_ansi_escapes::strip_str`: the text without its ANSI
/// escape sequences; the result depends on the text alone.
#[verifier::external_body]
fn strip_ansi(s: &str) -> (r: String)
    ensures
        r@ == ansi_stripped(s@),
{
    strip_ansi_escapes::strip_str(s)
}

/// The messages of an output given as a list of lines, joined.
pub open spec fn joined_messages(lines: Seq<Option<String>>) -> Seq<char>
    decreases lines.len(),
{
    if lines.len() == 0 {
        Seq::empty()
    } else {
        joined_messages(lines.drop_last()) + match lines.last() {
            Some(m) => m@,
            None => Seq::empty(),
        }
    }
}

/// The body read as plain text: kept when it is not blank and does not
/// start like JSON.
pub open spec fn plain_text_ok(raw: Seq<char>) -> bool {
    trimmed_of(raw).len() > 0 && raw.len() > 0 && raw[0] != '{' && raw[0] != '['
}

/// The text of a fetched output, from what its body parsed as: the joined
/// messages of a list of lines when not empty; else the message (or output)
/// of a single object; else the body itself when it is plain text; else
/// nothing. Escape sequences are removed.
pub open spec fn output_text(
    lines: Option<Seq<Option<String>>>,
    single: Option<(Option<String>, Option<String>)>,
    raw: Seq<char>,
) -> Seq<char> {
    if lines is Some && joined_messages(lines->0).len() > 0 {
        ansi_stripped(joined_messages(lines->0))
    } else {
        match single {
            Some((Some(m), _)) => ansi_stripped(m@),
            Some((None, Some(o))) => ansi_stripped(o@),
            _ => if plain_text_ok(raw) { ansi_stripped(raw) } else { Seq::empty() },
        }
    }
}

/// Builds the text of a fetched output. `lines` is the body read as a list
/// of `{message}` objects, `single` as one object with `message` and
/// `output`, each when it parses as such.
pub fn step_output_text(
    lines: Option<Vec<Option<String>>>,
    single: Option<(Option<String>, Option<String>)>,
    raw: &str,
) -> (r: String)
    ensures
        r@ == output_text(
            match lines {
                Some(v) => Some(v@),
                None => None,
            },
            single,
            raw@,
        ),
{
    match &lines {
        Some(v) => {
            let mut joined = String::new();
            let mut i: usize = 0;
            while i < v.len()
                invariant
                    i <= v@.len(),
                    joined@ == joined_messages(v@.subrange(0, i as int)),
                decreases v@.len() - i,
            {
                assert(v@.subrange(0, i + 1).drop_last() =~= v@.subrange(0, i as int));
                match &v[i] {
                    Some(m) => joined.append(m.as_str()),
                    None => {},
                }
                assert(joined@ =~= joined_messages(v@.subrange(0, i + 1)));
                i += 1;
            }
            assert(v@.subrange(0, v@.len() as int) =~= v@);
            if joined.unicode_len() > 0 {
                return strip_ansi(joined.as_str());
            }
        },
        None => {},
    }
    match &single {
        Some((Some(m), _)) => {
            return strip_ansi(m.as_str());
        },
        Some((None, Some(o))) => {
            return strip_ansi(o.as_str());
        },
        _ => {},
    }
    let t = trim(raw);
    let n = raw.unicode_len();
    if t.unicode_len() > 0 && n > 0 {
        let c = raw.get_char(0);
        if c != '{' && c != '[' {
            return strip_ansi(raw);
        }
    }
    String::new()
}

} // verus!
