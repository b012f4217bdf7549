//! Page addresses, parsed by the `url` crate.

use vstd::prelude::*;

use crate::config::{is_letter, legal_scheme};
use crate::frontend::climbs;
use crate::text::first_of;

verus! {

/// What `url::Url::parse` makes of a text: the serialization of the URL, or what the
/// error says.
pub uninterp spec fn parsed_url(text: Seq<char>) -> Result<Seq<char>, Seq<char>>;

/// `s` with the capitals of the ASCII alphabet made small.
pub open spec fn lower(s: Seq<char>) -> Seq<char> {
    s.map_values(
        |c: char|
            if 'A' <= c <= 'Z' {
                (c as int - 'A' as int + 'a' as int) as char
            } else {
                c
            },
    )
}

/// What stands before the first colon of `text`.
pub open spec fn scheme_of(text: Seq<char>) -> Seq<char> {
    text.take(first_of(text, ':', ':'))
}

/// Whether `scheme` is legal and not `file`, in any case: the URL Standard drops the host
/// `localhost` from a `file` URL and keeps it under every other scheme.
pub open spec fn keeps_host(scheme: Seq<char>) -> bool {
    legal_scheme(scheme) && lower(scheme) != "file"@
}

/// How the address of every page under `scheme` begins.
pub open spec fn origin(scheme: Seq<char>) -> Seq<char> {
    lower(scheme) + "://localhost/"@
}

/// Whether `text` is the address of a page under a scheme that keeps the host.
pub open spec fn is_page_address(text: Seq<char>) -> bool {
    keeps_host(scheme_of(text)) && "://localhost/"@.is_prefix_of(
        text.skip(first_of(text, ':', ':')),
    )
}

/// What follows `<scheme>://localhost/` in the address of a page.
pub open spec fn page_part(text: Seq<char>) -> Seq<char> {
    text.skip(first_of(text, ':', ':') + "://localhost/"@.len())
}

/// Whether `c` stands for itself wherever it occurs after the host.
pub open spec fn is_plain_char(c: char) -> bool {
    ||| is_letter(c)
    ||| '0' <= c <= '9'
    ||| c == '-' || c == '.' || c == '_' || c == '~'
    ||| c == '!' || c == '$' || c == '&' || c == '(' || c == ')' || c == '*' || c == '+'
    ||| c == ',' || c == ';' || c == '=' || c == ':' || c == '@'
    ||| c == '/' || c == '?' || c == '#'
}

/// Whether `reference` (a path, with or without query and fragment) needs no escape and has
/// no `.` or `..` segment in its path. In the query and the fragment, escapes may stand.
pub open spec fn is_plain(reference: Seq<char>) -> bool {
    let path_end = first_of(reference, '?', '#');
    &&& forall|i: int|
        0 <= i < reference.len() ==> is_plain_char(#[trigger] reference[i]) || (reference[i] == '%'
            && i > path_end)
    &&& !climbs(reference.take(path_end))
}

/// `url::Url::parse` on `text`. The result is named: the URL by its serialization, the
/// error by its display text.
///
/// Of what the URL is, two things are claimed, both where `text` is a legal scheme other
/// than `file`, then `://localhost/`, then anything. The URL begins with that scheme in small
/// letters and `://localhost/`: the parser writes the scheme that way, takes the host up
/// to the first slash, and never takes away from the path the slash that it begins with.
/// And where what follows is plain, the URL ends in just that: the parser drops only tabs,
/// line breaks and what surrounds the text, escapes none of the plain characters, leaves a
/// percent sign alone, and rewrites no path but for `.` and `..` segments and, under
/// special schemes, backslashes.
#[verifier::external_body]
pub(crate) fn parse_url(text: &str) -> (parsed: Result<String, String>)
    ensures
        match parsed {
            Ok(url) => parsed_url(text@) == Ok::<Seq<char>, Seq<char>>(url@),
            Err(error) => parsed_url(text@) == Err::<Seq<char>, Seq<char>>(error@),
        },
        parsed matches Ok(url) ==> is_page_address(text@) ==> origin(
            scheme_of(text@),
        ).is_prefix_of(url@),
        parsed matches Ok(url) ==> is_page_address(text@) && is_plain(page_part(text@)) ==> url@
            == origin(scheme_of(text@)) + page_part(text@),
{
    match url::Url::parse(text) {
        Ok(url) => Ok(String::from(url)),
        Err(error) => Err(error.to_string()),
    }
}

/// A legal scheme is legal in small letters too.
pub proof fn lemma_lower_is_legal(scheme: Seq<char>)
    requires
        legal_scheme(scheme),
    ensures
        legal_scheme(lower(scheme)),
{
    let small = lower(scheme);
    assert forall|i: int| 0 <= i < small.len() implies crate::config::is_scheme_char(
        #[trigger] small[i],
    ) by {
        assert(crate::config::is_scheme_char(scheme[i]));
    }
    assert(is_letter(scheme[0]));
}

} // verus!
