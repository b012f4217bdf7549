//! What the environment configures: the scheme, and with it the addresses of pages, the
//! frontend directory and the name.

use vstd::prelude::*;

use crate::frontend::{after_host, requested, resource};
use crate::text::{after_first, concat4, split_on, to_chars};

verus! {

/// Whether `c` is whitespace, as Unicode's White_Space property has it.
pub open spec fn is_white_space(c: char) -> bool {
    ||| '\u{9}' <= c <= '\u{d}'
    ||| c == ' '
    ||| c == '\u{85}'
    ||| c == '\u{a0}'
    ||| c == '\u{1680}'
    ||| '\u{2000}' <= c <= '\u{200a}'
    ||| c == '\u{2028}'
    ||| c == '\u{2029}'
    ||| c == '\u{202f}'
    ||| c == '\u{205f}'
    ||| c == '\u{3000}'
}

/// `s` without the whitespace at its start.
pub open spec fn trim_start(s: Seq<char>) -> Seq<char>
    decreases s.len(),
{
    if s.len() > 0 && is_white_space(s[0]) {
        trim_start(s.drop_first())
    } else {
        s
    }
}

/// `s` without the whitespace at its end.
pub open spec fn trim_end(s: Seq<char>) -> Seq<char>
    decreases s.len(),
{
    if s.len() > 0 && is_white_space(s.last()) {
        trim_end(s.drop_last())
    } else {
        s
    }
}

/// `s` without the whitespace at either end.
pub open spec fn trimmed(s: Seq<char>) -> Seq<char> {
    trim_end(trim_start(s))
}

/// Whether `c` is a letter of the ASCII alphabet.
pub open spec fn is_letter(c: char) -> bool {
    'a' <= c <= 'z' || 'A' <= c <= 'Z'
}

/// Whether `c` may stand in a scheme.
pub open spec fn is_scheme_char(c: char) -> bool {
    is_letter(c) || '0' <= c <= '9' || c == '+' || c == '-' || c == '.'
}

/// Whether `s` is a legal scheme: a letter, then letters, digits, `+`, `-` and `.`.
pub open spec fn legal_scheme(s: Seq<char>) -> bool {
    &&& s.len() > 0
    &&& is_letter(s[0])
    &&& forall|i: int| 0 <= i < s.len() ==> is_scheme_char(#[trigger] s[i])
}

/// The scheme in force where `configured` is what the environment holds.
pub open spec fn effective_scheme(configured: Seq<char>) -> Seq<char> {
    if legal_scheme(trimmed(configured)) {
        trimmed(configured)
    } else {
        "app"@
    }
}

/// The address of the page `url` under `scheme`.
pub open spec fn page_url_text(scheme: Seq<char>, url: Seq<char>) -> Seq<char> {
    scheme + "://localhost/"@ + url
}

fn white_space(c: char) -> (r: bool)
    ensures
        r == is_white_space(c),
{
    ('\u{9}' <= c && c <= '\u{d}') || c == ' ' || c == '\u{85}' || c == '\u{a0}' || c == '\u{1680}'
        || ('\u{2000}' <= c && c <= '\u{200a}') || c == '\u{2028}' || c == '\u{2029}' || c
        == '\u{202f}' || c == '\u{205f}' || c == '\u{3000}'
}

fn letter(c: char) -> (r: bool)
    ensures
        r == is_letter(c),
{
    ('a' <= c && c <= 'z') || ('A' <= c && c <= 'Z')
}

fn scheme_char(c: char) -> (r: bool)
    ensures
        r == is_scheme_char(c),
{
    letter(c) || ('0' <= c && c <= '9') || c == '+' || c == '-' || c == '.'
}

/// `s` without the whitespace at either end.
fn trim(s: &str) -> (text: &str)
    ensures
        text@ == trimmed(s@),
{
    let chars = to_chars(s);
    let mut from: usize = 0;
    assert(s@.skip(0) =~= s@);
    while from < chars.len() && white_space(chars[from])
        invariant
            chars@ == s@,
            from <= chars@.len(),
            trim_start(s@) == trim_start(s@.skip(from as int)),
        decreases chars@.len() - from,
    {
        assert(s@.skip(from as int).drop_first() =~= s@.skip(from + 1));
        from = from + 1;
    }
    let ghost rest = s@.skip(from as int);
    assert(trim_start(s@) == rest);
    let mut to: usize = chars.len();
    assert(rest =~= s@.subrange(from as int, to as int));
    while to > from && white_space(chars[to - 1])
        invariant
            chars@ == s@,
            from <= to <= chars@.len(),
            trim_end(rest) == trim_end(s@.subrange(from as int, to as int)),
        decreases to,
    {
        let ghost part = s@.subrange(from as int, to as int);
        assert(part.last() == chars@[to - 1]);
        assert(part.drop_last() =~= s@.subrange(from as int, to - 1));
        to = to - 1;
    }
    s.substring_char(from, to)
}

/// Whether `s` is a legal scheme.
fn is_legal_scheme(s: &str) -> (r: bool)
    ensures
        r == legal_scheme(s@),
{
    let chars = to_chars(s);
    let length = chars.len();
    if length == 0 || !letter(chars[0]) {
        return false;
    }
    for i in 0..length
        invariant
            chars@ == s@,
            length == chars@.len(),
            forall|j: int| 0 <= j < i ==> is_scheme_char(#[trigger] chars@[j]),
    {
        if !scheme_char(chars[i]) {
            assert(!is_scheme_char(s@[i as int]));
            return false;
        }
    }
    true
}

/// The scheme that the frontend is served under, and therefore the page's origin, where
/// `configured` is what `TAURI_SHELL_SCHEME` holds, if anything.
///
/// What is configured is trimmed and taken where it is a legal scheme. Otherwise `app`
/// is; where something was configured, a report for the log comes with it.
pub fn scheme(configured: Option<&str>) -> (chosen: (String, Option<String>))
    ensures
        chosen.0@ == (match configured {
            Some(text) => effective_scheme(text@),
            None => "app"@,
        }),
        match chosen.1 {
            Some(report) => {
                &&& configured matches Some(text) && trimmed(text@).len() > 0 && !legal_scheme(
                    trimmed(text@),
                )
                &&& report@ == "[shell] ignoring unusable TAURI_SHELL_SCHEME '"@ + trimmed(
                    (configured->0)@,
                ) + "'; using 'app'"@
            },
            None => {
                ||| configured is None
                ||| trimmed((configured->0)@).len() == 0
                ||| legal_scheme(trimmed((configured->0)@))
            },
        },
{
    let text = match configured {
        Some(text) => trim(text),
        None => return ("app".to_owned(), None),
    };
    if text.is_empty() {
        return ("app".to_owned(), None);
    }
    if is_legal_scheme(text) {
        (text.to_owned(), None)
    } else {
        let mut report = "[shell] ignoring unusable TAURI_SHELL_SCHEME '".to_owned();
        report.append(text);
        report.append("'; using 'app'");
        ("app".to_owned(), Some(report))
    }
}

/// The address of the page `url` under `scheme`: `<scheme>://localhost/<url>`.
pub fn page_url(scheme: &str, url: &str) -> (address: String)
    ensures
        address@ == page_url_text(scheme@, url@),
        address@ == scheme@ + "://localhost/"@ + url@,
{
    let mut address = scheme.to_owned();
    address.append("://localhost/");
    address.append(url);
    address
}

/// The directory that the scheme serves: the configured one, or `dist/renderer` below the
/// working directory.
pub fn frontend_dir(configured: Option<String>) -> (dir: String)
    ensures
        dir@ == (match configured {
            Some(explicit) => explicit@,
            None => "dist/renderer"@,
        }),
{
    match configured {
        Some(explicit) => explicit,
        None => "dist/renderer".to_owned(),
    }
}

/// The name that the operating system shows for the process: the configured one, or
/// `Tauri Shell`.
pub fn app_name(configured: Option<String>) -> (name: String)
    ensures
        name@ == (match configured {
            Some(explicit) => explicit@,
            None => "Tauri Shell"@,
        }),
{
    match configured {
        Some(explicit) => explicit,
        None => "Tauri Shell".to_owned(),
    }
}

/// The line that says at startup what is served, and from where.
pub fn serving_line(scheme: &str, dir: &str) -> (line: String)
    ensures
        line@ == "[shell] serving "@ + scheme@ + "://localhost/ from "@ + dir@,
{
    concat4("[shell] serving ", scheme, "://localhost/ from ", dir)
}

/// The scheme in force is legal whatever is configured, so it holds no colon and no slash.
pub proof fn law_scheme_in_force_is_legal(configured: Seq<char>)
    ensures
        legal_scheme(effective_scheme(configured)),
        !effective_scheme(configured).contains(':'),
        !effective_scheme(configured).contains('/'),
{
    reveal_strlit("app");
    let s = effective_scheme(configured);
    if s == "app"@ {
        assert forall|i: int| 0 <= i < s.len() implies is_scheme_char(#[trigger] s[i]) by {}
    }
    assert(legal_scheme(s));
}

/// A legal scheme is taken as it is.
pub proof fn law_legal_scheme_is_kept(scheme: Seq<char>)
    requires
        legal_scheme(scheme),
    ensures
        effective_scheme(scheme) == scheme,
{
    assert(is_scheme_char(scheme.last()));
    assert(trim_start(scheme) == scheme);
    assert(trim_end(scheme) == scheme);
}

/// Under a legal scheme, what follows the first `://` is what follows the scheme's own.
proof fn lemma_after_scheme(scheme: Seq<char>, rest: Seq<char>)
    requires
        legal_scheme(scheme),
    ensures
        after_first(scheme + "://"@ + rest, "://"@) == Some(rest),
{
    reveal_strlit("://");
    let mark = "://"@;
    let text = scheme + mark + rest;
    let k = scheme.len() as int;
    assert(mark =~= text.skip(k).subrange(0, 3));
    assert forall|i: int| 0 <= i < k implies !mark.is_prefix_of(#[trigger] text.skip(i)) by {
        assert(text.skip(i)[0] == scheme[i]);
        assert(is_scheme_char(scheme[i]));
        if mark.is_prefix_of(text.skip(i)) {
            assert(text.skip(i).subrange(0, 3)[0] == mark[0]);
        }
    }
    crate::text::lemma_find_text_is(text, mark, k);
    assert(text.skip(k + 3) =~= rest);
}

/// A request for the page address of `url`, under any legal scheme, asks for the file that
/// `url` names.
pub proof fn law_page_address_asks_for_its_file(scheme: Seq<char>, url: Seq<char>)
    requires
        legal_scheme(scheme),
    ensures
        requested(page_url_text(scheme, url)) == resource(url),
{
    reveal_strlit("://localhost/");
    reveal_strlit("localhost/");
    reveal_strlit("://");
    let rest = "localhost/"@ + url;
    assert(page_url_text(scheme, url) =~= scheme + "://"@ + rest);
    lemma_after_scheme(scheme, rest);
    crate::text::lemma_first_of_is(rest, '/', '/', 9);
    assert(after_host(rest) =~= url);
}

/// Under any legal scheme the bare origin, with or without a slash, asks for `index.html`.
pub proof fn law_bare_origin_asks_for_index(scheme: Seq<char>)
    requires
        legal_scheme(scheme),
    ensures
        requested(scheme + "://localhost"@) == Some("index.html"@),
        requested(page_url_text(scheme, Seq::empty())) == Some("index.html"@),
{
    let none = Seq::<char>::empty();
    let index = "index.html"@;
    assert(resource(none) == Some(index)) by {
        reveal_strlit("index.html");
        reveal_strlit("..");
        reveal_strlit(".");
        assert(none.take(0) =~= none);
        crate::text::lemma_first_of_is(index, '/', '/', index.len() as int);
        assert(split_on(index, '/') =~= seq![index]);
    }
    law_page_address_asks_for_its_file(scheme, none);
    reveal_strlit("://localhost");
    reveal_strlit("localhost");
    reveal_strlit("://");
    let rest = "localhost"@;
    assert(scheme + "://localhost"@ =~= scheme + "://"@ + rest);
    lemma_after_scheme(scheme, rest);
    crate::text::lemma_first_of_is(rest, '/', '/', 9);
    assert(after_host(rest) == none);
}

} // verus!
