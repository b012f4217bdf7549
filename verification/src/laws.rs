//! What the shell promises, said of the texts and bytes themselves.
//!
//! Each law here relates what goes in to what comes out, for all inputs, with every name,
//! separator and number written out.

use vstd::prelude::*;
use vstd::utf8::{encode_utf8, valid_utf8};

use crate::color::{hex_color, Color};
use crate::config::{
    effective_scheme, is_white_space, page_url_text, trim_end, trim_start, trimmed,
};
use crate::frontend::{climbs, content_type, is_dots, requested, resource};
use crate::sidecar::{
    carries_out, effect, input_of, lossy_text, occurrence_of, payload_effect, turn, without_break,
    Effect, Input, Occurrence, Shell, SidecarMessage, Task, Turn,
};
use crate::text::{after_first, after_last, decimal, find_text, first_of, joined, split_on};
use crate::window::{
    command_named, event_line, name_of_event, plans, Extent, WindowCommand, WindowEvent,
    WindowPlan, WindowRequest,
};

verus! {

/// A path climbs exactly if `.` or `..` stands in it between two slashes, or between a slash
/// and an end, or between the ends.
pub proof fn law_climbing_is_a_dot_segment(path: Seq<char>)
    ensures
        climbs(path) <==> exists|i: int, j: int|
            0 <= i <= j <= path.len() && (i == 0 || path[i - 1] == '/') && (j == path.len()
                || path[j] == '/') && (#[trigger] path.subrange(i, j) == "."@ || path.subrange(i, j)
                == ".."@),
    decreases path.len(),
{
    reveal_strlit(".");
    reveal_strlit("..");
    let k = first_of(path, '/', '/');
    crate::text::lemma_first_of(path, '/', '/');
    crate::frontend::lemma_climbs_step(path);
    assert(path.take(k) =~= path.subrange(0, k));
    let rest = path.skip(k + 1);
    if k < path.len() {
        law_climbing_is_a_dot_segment(rest);
    }
    if climbs(path) {
        if is_dots(path.take(k)) {
            assert(path.subrange(0, k) == "."@ || path.subrange(0, k) == ".."@);
        } else {
            let (i, j) = choose|i: int, j: int|
                0 <= i <= j <= rest.len() && (i == 0 || rest[i - 1] == '/') && (j == rest.len()
                    || rest[j] == '/') && (#[trigger] rest.subrange(i, j) == "."@ || rest.subrange(
                    i,
                    j,
                ) == ".."@);
            assert(path.subrange(i + k + 1, j + k + 1) =~= rest.subrange(i, j));
        }
    }
    assert forall|i: int, j: int|
        0 <= i <= j <= path.len() && (i == 0 || path[i - 1] == '/') && (j == path.len() || path[j]
            == '/') && (#[trigger] path.subrange(i, j) == "."@ || path.subrange(i, j)
            == ".."@) implies climbs(path) by {
        let part = path.subrange(i, j);
        assert(part == "."@ ==> part.len() == 1 && part[0] == '.');
        assert(part == ".."@ ==> part.len() == 2 && part[0] == '.' && part[1] == '.');
        assert forall|m: int| i <= m < j implies path[m] != '/' by {
            assert(path[m] == part[m - i]);
            assert(m - i == 0 || m - i == 1);
        }
        if i == 0 {
            assert(j == k);
        } else {
            assert(k <= i - 1);
            assert(rest.subrange(i - k - 1, j - k - 1) =~= part);
        }
    }
}

/// What a reference names below the frontend directory, where `path` is what stands before its
/// query and fragment. An empty path names `index.html`. A path that starts with a slash, or
/// has a `.` or `..` segment, is refused. Every other path, however long, is granted as itself.
pub proof fn law_a_path_that_stays_inside_is_granted(path: Seq<char>, tail: Seq<char>)
    requires
        !path.contains('?'),
        !path.contains('#'),
        tail.len() == 0 || tail[0] == '?' || tail[0] == '#',
    ensures
        path.len() == 0 ==> resource(path + tail) == Some("index.html"@),
        path.len() > 0 && path[0] == '/' ==> resource(path + tail) is None,
        path.len() > 0 && path[0] != '/' ==> resource(path + tail) == (if exists|i: int, j: int|
            0 <= i <= j <= path.len() && (i == 0 || path[i - 1] == '/') && (j == path.len()
                || path[j] == '/') && (#[trigger] path.subrange(i, j) == "."@ || path.subrange(i, j)
                == ".."@) {
            None
        } else {
            Some(path)
        }),
{
    let whole = path + tail;
    let k = path.len() as int;
    assert forall|i: int| 0 <= i < k implies whole[i] != '?' && whole[i] != '#' by {
        assert(whole[i] == path[i]);
        assert(path.contains(path[i]));
    }
    if tail.len() > 0 {
        assert(whole[k] == tail[0]);
    }
    crate::text::lemma_first_of_is(whole, '?', '#', k);
    assert(whole.take(k) =~= path);
    law_climbing_is_a_dot_segment(path);
    if path.len() == 0 {
        let index = "index.html"@;
        reveal_strlit("index.html");
        reveal_strlit(".");
        reveal_strlit("..");
        crate::text::lemma_first_of_is(index, '/', '/', index.len() as int);
        assert(split_on(index, '/') =~= seq![index]);
    }
}

/// What every request asks for. `before` is what stands before the first `://`, `host` what
/// stands before the first slash after it, and `path` what stands before the query and the
/// fragment after that. Nothing but the path decides: it is granted as itself, unless it is
/// empty, starts with a slash, or has a `.` or `..` segment.
pub proof fn law_every_request_asks_for_its_path(
    before: Seq<char>,
    host: Seq<char>,
    path: Seq<char>,
    tail: Seq<char>,
)
    requires
        forall|i: int|
            0 <= i && i + 3 <= before.len() ==> #[trigger] before.subrange(i, i + 3) != "://"@,
        !host.contains('/'),
        !path.contains('?'),
        !path.contains('#'),
        tail.len() == 0 || tail[0] == '?' || tail[0] == '#',
    ensures
        requested(before + "://"@ + host) == Some("index.html"@),
        ({
            let answer = requested(before + "://"@ + host + "/"@ + path + tail);
            &&& path.len() == 0 ==> answer == Some("index.html"@)
            &&& path.len() > 0 && path[0] == '/' ==> answer is None
            &&& path.len() > 0 && path[0] != '/' ==> answer == (if exists|i: int, j: int|
                0 <= i <= j <= path.len() && (i == 0 || path[i - 1] == '/') && (j == path.len()
                    || path[j] == '/') && (#[trigger] path.subrange(i, j) == "."@ || path.subrange(
                    i,
                    j,
                ) == ".."@) {
                None
            } else {
                Some(path)
            })
        }),
{
    reveal_strlit("://");
    reveal_strlit("/");
    let reference = path + tail;
    let rest = host + "/"@ + reference;
    assert(before + "://"@ + host + "/"@ + path + tail =~= before + "://"@ + rest);
    lemma_after_mark(before, rest);
    lemma_after_mark(before, host);
    let k = host.len() as int;
    assert forall|i: int| 0 <= i < k implies host[i] != '/' by {
        assert(host.contains(host[i]));
    }
    assert forall|i: int| 0 <= i < k implies rest[i] != '/' by {
        assert(rest[i] == host[i]);
    }
    assert(rest[k] == '/');
    crate::text::lemma_first_of_is(rest, '/', '/', k);
    crate::text::lemma_first_of_is(host, '/', '/', k);
    assert(rest.skip(k + 1) =~= reference);
    let none = Seq::<char>::empty();
    law_a_path_that_stays_inside_is_granted(path, tail);
    law_a_path_that_stays_inside_is_granted(none, none);
    assert(none + none =~= none);
}

/// Where `before` holds no `://`, what follows the first one is what follows it.
proof fn lemma_after_mark(before: Seq<char>, rest: Seq<char>)
    requires
        forall|i: int|
            0 <= i && i + 3 <= before.len() ==> #[trigger] before.subrange(i, i + 3) != "://"@,
    ensures
        after_first(before + "://"@ + rest, "://"@) == Some(rest),
{
    reveal_strlit("://");
    let mark = "://"@;
    let text = before + mark + rest;
    let k = before.len() as int;
    assert(mark =~= text.skip(k).subrange(0, 3));
    assert forall|i: int| 0 <= i < k implies !mark.is_prefix_of(#[trigger] text.skip(i)) by {
        if mark.is_prefix_of(text.skip(i)) {
            let part = text.skip(i).subrange(0, 3);
            assert(part[0] == text[i] && part[1] == text[i + 1] && part[2] == text[i + 2]);
            assert(text[k] == ':');
            if i + 3 <= k {
                assert(before.subrange(i, i + 3) =~= mark);
            }
        }
    }
    crate::text::lemma_find_text_is(text, mark, k);
    assert(text.skip(k + 3) =~= rest);
}

/// A request without `://` is refused.
pub proof fn law_a_request_without_a_scheme_is_refused(uri: Seq<char>)
    requires
        forall|i: int| 0 <= i && i + 3 <= uri.len() ==> #[trigger] uri.subrange(i, i + 3) != "://"@,
    ensures
        requested(uri) is None,
{
    reveal_strlit("://");
    crate::text::lemma_find_text(uri, "://"@);
    if let Some(k) = find_text(uri, "://"@) {
        assert(uri.skip(k).subrange(0, 3) =~= uri.subrange(k, k + 3));
    }
}

/// What `after_last` gives is what follows an occurrence, with none after it.
proof fn lemma_after_last_some(s: Seq<char>, c: char)
    requires
        after_last(s, c) is Some,
    ensures
        ({
            let tail = after_last(s, c)->0;
            let k = s.len() - tail.len() - 1;
            &&& 0 <= k < s.len()
            &&& s[k] == c
            &&& s.skip(k + 1) == tail
        }),
    decreases s.len(),
{
    if s.last() == c {
        assert(s.skip(s.len() as int) =~= Seq::<char>::empty());
    } else {
        let t = s.drop_last();
        lemma_after_last_some(t, c);
        let tail = after_last(t, c)->0;
        let k = t.len() - tail.len() - 1;
        assert(s.skip(k + 1) =~= tail.push(s.last()));
    }
}

/// A path ends in a dot and an extension exactly if the extension is what follows its last dot.
proof fn lemma_ends_in(path: Seq<char>, ending: Seq<char>, extension: Seq<char>)
    requires
        ending == seq!['.'] + extension,
        forall|i: int| 0 <= i < extension.len() ==> extension[i] != '.',
    ensures
        ending.is_suffix_of(path) <==> after_last(path, '.') == Some(extension),
{
    let k = path.len() - ending.len();
    if ending.is_suffix_of(path) {
        let end = path.subrange(k, path.len() as int);
        assert(path[k] == end[0]);
        assert forall|i: int| k < i < path.len() implies path[i] != '.' by {
            assert(path[i] == end[i - k]);
            assert(end[i - k] == extension[i - k - 1]);
        }
        crate::frontend::lemma_after_last(path, '.', k);
        assert(path.skip(k + 1) =~= extension) by {
            assert forall|i: int| 0 <= i < extension.len() implies path[k + 1 + i]
                == extension[i] by {
                assert(path[k + 1 + i] == end[1 + i]);
                assert(ending[1 + i] == extension[i]);
            }
        }
    }
    if after_last(path, '.') == Some(extension) {
        lemma_after_last_some(path, '.');
        assert(path.subrange(k, path.len() as int) =~= ending) by {
            assert(path.skip(k + 1) == extension);
            assert forall|i: int| 1 <= i < ending.len() implies path[k + i] == ending[i] by {
                assert(path.skip(k + 1)[i - 1] == path[k + i]);
            }
        }
    }
}

/// How a path ends decides the media type that it is served with, whatever stands before; and
/// a path that ends in none of the known ways is served as bytes.
#[verifier::rlimit(60)]
pub proof fn law_the_ending_decides_the_media_type(path: Seq<char>)
    ensures
        ".html"@.is_suffix_of(path) ==> content_type(path) == "text/html"@,
        ".js"@.is_suffix_of(path) ==> content_type(path) == "text/javascript"@,
        ".mjs"@.is_suffix_of(path) ==> content_type(path) == "text/javascript"@,
        ".css"@.is_suffix_of(path) ==> content_type(path) == "text/css"@,
        ".json"@.is_suffix_of(path) ==> content_type(path) == "application/json"@,
        ".map"@.is_suffix_of(path) ==> content_type(path) == "application/json"@,
        ".svg"@.is_suffix_of(path) ==> content_type(path) == "image/svg+xml"@,
        ".png"@.is_suffix_of(path) ==> content_type(path) == "image/png"@,
        ".jpg"@.is_suffix_of(path) ==> content_type(path) == "image/jpeg"@,
        ".jpeg"@.is_suffix_of(path) ==> content_type(path) == "image/jpeg"@,
        ".webp"@.is_suffix_of(path) ==> content_type(path) == "image/webp"@,
        ".woff2"@.is_suffix_of(path) ==> content_type(path) == "font/woff2"@,
        ".woff"@.is_suffix_of(path) ==> content_type(path) == "font/woff"@,
        ".wasm"@.is_suffix_of(path) ==> content_type(path) == "application/wasm"@,
        !".html"@.is_suffix_of(path) && !".js"@.is_suffix_of(path) && !".mjs"@.is_suffix_of(path)
            && !".css"@.is_suffix_of(path) && !".json"@.is_suffix_of(path) && !".map"@.is_suffix_of(
            path,
        ) && !".svg"@.is_suffix_of(path) && !".png"@.is_suffix_of(path) && !".jpg"@.is_suffix_of(
            path,
        ) && !".jpeg"@.is_suffix_of(path) && !".webp"@.is_suffix_of(path) && !".woff2"@.is_suffix_of(
            path,
        ) && !".woff"@.is_suffix_of(path) && !".wasm"@.is_suffix_of(path) ==> content_type(path)
            == "application/octet-stream"@,
{
    reveal_strlit("html");
    reveal_strlit(".html");
    reveal_strlit("js");
    reveal_strlit(".js");
    reveal_strlit("mjs");
    reveal_strlit(".mjs");
    reveal_strlit("css");
    reveal_strlit(".css");
    reveal_strlit("json");
    reveal_strlit(".json");
    reveal_strlit("map");
    reveal_strlit(".map");
    reveal_strlit("svg");
    reveal_strlit(".svg");
    reveal_strlit("png");
    reveal_strlit(".png");
    reveal_strlit("jpg");
    reveal_strlit(".jpg");
    reveal_strlit("jpeg");
    reveal_strlit(".jpeg");
    reveal_strlit("webp");
    reveal_strlit(".webp");
    reveal_strlit("woff2");
    reveal_strlit(".woff2");
    reveal_strlit("woff");
    reveal_strlit(".woff");
    reveal_strlit("wasm");
    reveal_strlit(".wasm");
    assert(".html"@ =~= seq!['.'] + "html"@);
    lemma_ends_in(path, ".html"@, "html"@);
    assert(".js"@ =~= seq!['.'] + "js"@);
    lemma_ends_in(path, ".js"@, "js"@);
    assert(".mjs"@ =~= seq!['.'] + "mjs"@);
    lemma_ends_in(path, ".mjs"@, "mjs"@);
    assert(".css"@ =~= seq!['.'] + "css"@);
    lemma_ends_in(path, ".css"@, "css"@);
    assert(".json"@ =~= seq!['.'] + "json"@);
    lemma_ends_in(path, ".json"@, "json"@);
    assert(".map"@ =~= seq!['.'] + "map"@);
    lemma_ends_in(path, ".map"@, "map"@);
    assert(".svg"@ =~= seq!['.'] + "svg"@);
    lemma_ends_in(path, ".svg"@, "svg"@);
    assert(".png"@ =~= seq!['.'] + "png"@);
    lemma_ends_in(path, ".png"@, "png"@);
    assert(".jpg"@ =~= seq!['.'] + "jpg"@);
    lemma_ends_in(path, ".jpg"@, "jpg"@);
    assert(".jpeg"@ =~= seq!['.'] + "jpeg"@);
    lemma_ends_in(path, ".jpeg"@, "jpeg"@);
    assert(".webp"@ =~= seq!['.'] + "webp"@);
    lemma_ends_in(path, ".webp"@, "webp"@);
    assert(".woff2"@ =~= seq!['.'] + "woff2"@);
    lemma_ends_in(path, ".woff2"@, "woff2"@);
    assert(".woff"@ =~= seq!['.'] + "woff"@);
    lemma_ends_in(path, ".woff"@, "woff"@);
    assert(".wasm"@ =~= seq!['.'] + "wasm"@);
    lemma_ends_in(path, ".wasm"@, "wasm"@);
    assert("html"@.len() == 4 && "html"@[0] == 'h' && "html"@[1] == 't' && "html"@[2] == 'm' && "html"@[3] == 'l');
    assert("js"@.len() == 2 && "js"@[0] == 'j' && "js"@[1] == 's');
    assert("mjs"@.len() == 3 && "mjs"@[0] == 'm' && "mjs"@[1] == 'j' && "mjs"@[2] == 's');
    assert("css"@.len() == 3 && "css"@[0] == 'c' && "css"@[1] == 's' && "css"@[2] == 's');
    assert("json"@.len() == 4 && "json"@[0] == 'j' && "json"@[1] == 's' && "json"@[2] == 'o' && "json"@[3] == 'n');
    assert("map"@.len() == 3 && "map"@[0] == 'm' && "map"@[1] == 'a' && "map"@[2] == 'p');
    assert("svg"@.len() == 3 && "svg"@[0] == 's' && "svg"@[1] == 'v' && "svg"@[2] == 'g');
    assert("png"@.len() == 3 && "png"@[0] == 'p' && "png"@[1] == 'n' && "png"@[2] == 'g');
    assert("jpg"@.len() == 3 && "jpg"@[0] == 'j' && "jpg"@[1] == 'p' && "jpg"@[2] == 'g');
    assert("jpeg"@.len() == 4 && "jpeg"@[0] == 'j' && "jpeg"@[1] == 'p' && "jpeg"@[2] == 'e' && "jpeg"@[3] == 'g');
    assert("webp"@.len() == 4 && "webp"@[0] == 'w' && "webp"@[1] == 'e' && "webp"@[2] == 'b' && "webp"@[3] == 'p');
    assert("woff2"@.len() == 5 && "woff2"@[0] == 'w' && "woff2"@[1] == 'o' && "woff2"@[2] == 'f' && "woff2"@[3] == 'f' && "woff2"@[4] == '2');
    assert("woff"@.len() == 4 && "woff"@[0] == 'w' && "woff"@[1] == 'o' && "woff"@[2] == 'f' && "woff"@[3] == 'f');
    assert("wasm"@.len() == 4 && "wasm"@[0] == 'w' && "wasm"@[1] == 'a' && "wasm"@[2] == 's' && "wasm"@[3] == 'm');
}

/// A number is written digit by digit: with one digit it is that digit, and ten times a number
/// and a digit is the number, then the digit.
pub proof fn law_numbers_are_written_digit_by_digit(n: nat, d: nat)
    requires
        d < 10,
    ensures
        decimal(d) == seq!["0123456789"@[d as int]],
        n > 0 ==> decimal(10 * n + d) == decimal(n).push("0123456789"@[d as int]),
{
    reveal_strlit("0123456789");
    assert(forall|i: int| 0 <= i < 10 ==> "0123456789"@[i] as int == '0' as int + i) by {
        let t = "0123456789"@;
        assert(t[0] == '0' && t[1] == '1' && t[2] == '2' && t[3] == '3' && t[4] == '4' && t[5]
            == '5' && t[6] == '6' && t[7] == '7' && t[8] == '8' && t[9] == '9');
    }
    assert(decimal(d) =~= seq!["0123456789"@[d as int]]);
    if n > 0 {
        assert((10 * n + d) / 10 == n && (10 * n + d) % 10 == d);
    }
}

/// The line that tells of an event can be read back: whatever the window and whatever the name
/// of the event, the window's number stands after `"winId":` and the very name stands between
/// the quotes after `"event":`, with nothing left over.
pub proof fn law_an_event_line_reads_back(win_id: u64, event: Seq<char>)
    ensures
        ({
            let line = event_line(win_id, event);
            let number = decimal(win_id as nat);
            let head = "{\"op\":\"window-event\",\"winId\":"@;
            let middle = ",\"event\":\""@;
            let end = "\"}\n"@;
            let at_middle = (head.len() + number.len()) as int;
            let at_event = (at_middle + middle.len()) as int;
            let at_end = (at_event + event.len()) as int;
            &&& line.len() == at_end + end.len()
            &&& line.subrange(0, head.len() as int) == head
            &&& line.subrange(head.len() as int, at_middle) == number
            &&& line.subrange(at_middle, at_event) == middle
            &&& line.subrange(at_event, at_end) == event
            &&& line.skip(at_end) == end
        }),
{
    let line = event_line(win_id, event);
    let number = decimal(win_id as nat);
    let head = "{\"op\":\"window-event\",\"winId\":"@;
    let middle = ",\"event\":\""@;
    let end = "\"}\n"@;
    let at_middle = (head.len() + number.len()) as int;
    let at_event = (at_middle + middle.len()) as int;
    let at_end = (at_event + event.len()) as int;
    assert(line.subrange(0, head.len() as int) =~= head);
    assert(line.subrange(head.len() as int, at_middle) =~= number);
    assert(line.subrange(at_middle, at_event) =~= middle);
    assert(line.subrange(at_event, at_end) =~= event);
    assert(line.skip(at_end) =~= end);
}

/// What the sidecar is told of each event, for every window: that it is asked to close, that
/// it is closed, that it has the focus, and that it has lost it.
pub proof fn law_the_sidecar_is_told_what_happened(win_id: u64, event: WindowEvent)
    ensures
        match event {
            WindowEvent::CloseRequested => name_of_event(event) matches Some(name) && event_line(
                win_id,
                name,
            ) == "{\"op\":\"window-event\",\"winId\":"@ + decimal(win_id as nat)
                + ",\"event\":\"close-requested\"}\n"@,
            WindowEvent::Destroyed => name_of_event(event) matches Some(name) && event_line(
                win_id,
                name,
            ) == "{\"op\":\"window-event\",\"winId\":"@ + decimal(win_id as nat)
                + ",\"event\":\"closed\"}\n"@,
            WindowEvent::Focused(focused) => name_of_event(event) matches Some(name) && event_line(
                win_id,
                name,
            ) == "{\"op\":\"window-event\",\"winId\":"@ + decimal(win_id as nat) + (if focused {
                ",\"event\":\"focus\"}\n"@
            } else {
                ",\"event\":\"blur\"}\n"@
            }),
            WindowEvent::Other => name_of_event(event) is None,
        },
{
    reveal_strlit(",\"event\":\"");
    reveal_strlit("\"}\n");
    reveal_strlit("close-requested");
    reveal_strlit("closed");
    reveal_strlit("focus");
    reveal_strlit("blur");
    reveal_strlit(",\"event\":\"close-requested\"}\n");
    reveal_strlit(",\"event\":\"closed\"}\n");
    reveal_strlit(",\"event\":\"focus\"}\n");
    reveal_strlit(",\"event\":\"blur\"}\n");
    let head = "{\"op\":\"window-event\",\"winId\":"@ + decimal(win_id as nat);
    let m = ",\"event\":\""@;
    let e = "\"}\n"@;
    assert(m + "close-requested"@ + e =~= ",\"event\":\"close-requested\"}\n"@);
    assert(m + "closed"@ + e =~= ",\"event\":\"closed\"}\n"@);
    assert(m + "focus"@ + e =~= ",\"event\":\"focus\"}\n"@);
    assert(m + "blur"@ + e =~= ",\"event\":\"blur\"}\n"@);
    if let Some(name) = name_of_event(event) {
        assert(event_line(win_id, name) =~= head + (m + name + e));
    }
}

/// Each part of an opened window follows its own part of the request, whatever the other parts
/// hold. A length or a title that is asked for is taken, and one that is not has its own
/// default; a least size is the two lengths asked for, where both are; the label is the
/// window's number; and the window is visible.
pub proof fn law_each_part_of_a_window_follows_its_request<N>(
    plan: WindowPlan<N>,
    request: WindowRequest<N>,
    address: Seq<char>,
)
    requires
        plans(plan, request, address),
    ensures
        plan.label@ == "win-"@ + decimal(request.win_id as nat),
        plan.url@ == address,
        forall|w: N| request.width == Some(w) ==> plan.width == Extent::Asked(w),
        request.width is None ==> plan.width == Extent::<N>::Pixels(1200),
        forall|h: N| request.height == Some(h) ==> plan.height == Extent::Asked(h),
        request.height is None ==> plan.height == Extent::<N>::Pixels(800),
        forall|t: String| request.title == Some(t) ==> plan.title@ == #[trigger] t@,
        request.title is None ==> plan.title@ == "App"@,
        forall|w: N, h: N|
            request.min_width == Some(w) && request.min_height == Some(h) ==> plan.min_size
                == Some((w, h)),
        request.min_width is None || request.min_height is None ==> plan.min_size is None,
        forall|value: String|
            request.background_color == Some(value) ==> plan.background == hex_color(
                #[trigger] value@,
            ),
        request.background_color is None ==> plan.background is None,
        plan.visible,
{
}

/// An action reaches the window that it was sent for, as it was sent: the task names the label
/// of that window and holds the very text of the action, so that the command that is performed
/// is the one that was named.
pub proof fn law_an_action_reaches_its_window_as_it_was_sent<N>(
    task: Task<N>,
    win_id: u64,
    action: String,
)
    requires
        carries_out(task, Effect::Handle(SidecarMessage::Window { win_id, action })),
    ensures
        task matches Task::OperateWindow { label: name, action: sent } && name@ == "win-"@
            + decimal(win_id as nat) && sent@ == action@ && command_named(sent@) == command_named(
            action@,
        ),
{
}

/// A request for a window is handed on as it was sent, and a report is written as it is.
pub proof fn law_requests_and_reports_are_handed_on<N>(
    task: Task<N>,
    request: WindowRequest<N>,
    text: Seq<char>,
)
    ensures
        carries_out(task, Effect::Handle(SidecarMessage::CreateWindow(request))) ==> task
            == Task::CreateWindow(request),
        carries_out(task, Effect::Report(text)) ==> (task matches Task::Report(report) && report@
            == text),
{
}

/// Each of the six names has its command, and no other text has one.
pub proof fn law_the_six_names_have_their_commands(action: Seq<char>)
    ensures
        action == "show"@ <==> command_named(action) == Some(WindowCommand::Show),
        action == "hide"@ <==> command_named(action) == Some(WindowCommand::Hide),
        action == "focus"@ <==> command_named(action) == Some(WindowCommand::SetFocus),
        action == "close"@ <==> command_named(action) == Some(WindowCommand::Destroy),
        action == "maximize"@ <==> command_named(action) == Some(WindowCommand::Maximize),
        action == "minimize"@ <==> command_named(action) == Some(WindowCommand::Minimize),
        command_named(action) is None <==> action != "show"@ && action != "hide"@ && action
            != "focus"@ && action != "close"@ && action != "maximize"@ && action != "minimize"@,
{
    reveal_strlit("show");
    reveal_strlit("hide");
    reveal_strlit("focus");
    reveal_strlit("close");
    reveal_strlit("maximize");
    reveal_strlit("minimize");
    assert("show"@[0] == 's' && "hide"@[0] == 'h' && "focus"@[0] == 'f' && "close"@[0] == 'c'
        && "maximize"@[0] == 'm' && "minimize"@[0] == 'm');
    assert("maximize"@[1] == 'a' && "minimize"@[1] == 'i');
}

/// A colour is written with two digits for each channel, and reads as those channels and full
/// opacity. The digits may be of either case, each for itself.
pub proof fn law_a_written_color_reads_back(r: u8, g: u8, b: u8, digits: Seq<char>)
    requires
        digits.len() == 6,
        ({
            let small = "0123456789abcdef"@;
            let large = "0123456789ABCDEF"@;
            &&& digits[0] == small[r as int / 16] || digits[0] == large[r as int / 16]
            &&& digits[1] == small[r as int % 16] || digits[1] == large[r as int % 16]
            &&& digits[2] == small[g as int / 16] || digits[2] == large[g as int / 16]
            &&& digits[3] == small[g as int % 16] || digits[3] == large[g as int % 16]
            &&& digits[4] == small[b as int / 16] || digits[4] == large[b as int / 16]
            &&& digits[5] == small[b as int % 16] || digits[5] == large[b as int % 16]
        }),
    ensures
        hex_color(seq!['#'] + digits) == Some(Color(r, g, b, 255)),
{
    lemma_digit_tables();
    let value = seq!['#'] + digits;
    assert(value[0] == '#');
    assert forall|i: int| 1 <= i < 7 implies value[i] == digits[i - 1] by {}
}

/// The values of the hexadecimal digits, by their place in the tables of either case.
proof fn lemma_digit_tables()
    ensures
        forall|n: int|
            0 <= n < 16 ==> crate::color::hex_digit(#[trigger] "0123456789abcdef"@[n]) == Some(
                n as u8,
            ),
        forall|n: int|
            0 <= n < 16 ==> crate::color::hex_digit(#[trigger] "0123456789ABCDEF"@[n]) == Some(
                n as u8,
            ),
{
    reveal_strlit("0123456789abcdef");
    reveal_strlit("0123456789ABCDEF");
    let s = "0123456789abcdef"@;
    let t = "0123456789ABCDEF"@;
    assert(s[0] == '0' && s[1] == '1' && s[2] == '2' && s[3] == '3' && s[4] == '4' && s[5] == '5'
        && s[6] == '6' && s[7] == '7' && s[8] == '8' && s[9] == '9' && s[10] == 'a' && s[11] == 'b'
        && s[12] == 'c' && s[13] == 'd' && s[14] == 'e' && s[15] == 'f');
    assert(t[0] == '0' && t[1] == '1' && t[2] == '2' && t[3] == '3' && t[4] == '4' && t[5] == '5'
        && t[6] == '6' && t[7] == '7' && t[8] == '8' && t[9] == '9' && t[10] == 'A' && t[11] == 'B'
        && t[12] == 'C' && t[13] == 'D' && t[14] == 'E' && t[15] == 'F');
}

/// What is no colour: a value that does not begin with a hash sign, one of another length than
/// three or six digits, and one that holds anything but the digits of either case.
pub proof fn law_anything_else_is_no_color(value: Seq<char>)
    ensures
        hex_color(value) is Some <==> {
            &&& value.len() == 4 || value.len() == 7
            &&& value[0] == '#'
            &&& forall|i: int|
                1 <= i < value.len() ==> ("0123456789abcdef"@.contains(#[trigger] value[i])
                    || "0123456789ABCDEF"@.contains(value[i]))
        },
{
    lemma_digit_tables();
    reveal_strlit("0123456789abcdef");
    reveal_strlit("0123456789ABCDEF");
    let s = "0123456789abcdef"@;
    let t = "0123456789ABCDEF"@;
    assert forall|c: char|
        crate::color::hex_digit(c) is Some <==> #[trigger] s.contains(c) || t.contains(c) by {
        if '0' <= c <= '9' {
            let n = c as int - '0' as int;
            assert(s[n] == c);
        } else if 'a' <= c <= 'f' {
            let n = c as int - 'a' as int + 10;
            assert(s[n] == c);
        } else if 'A' <= c <= 'F' {
            let n = c as int - 'A' as int + 10;
            assert(t[n] == c);
        }
        if s.contains(c) {
            let n = choose|n: int| 0 <= n < s.len() && s[n] == c;
            assert(crate::color::hex_digit(s[n]) is Some);
        }
        if t.contains(c) {
            let n = choose|n: int| 0 <= n < t.len() && t[n] == c;
            assert(crate::color::hex_digit(t[n]) is Some);
        }
    }
    crate::color::law_colors_are_hash_and_digits(value);
}

/// The whitespace characters, by their numbers.
pub proof fn law_white_space_is_a_fixed_set(c: char)
    ensures
        is_white_space(c) <==> (9 <= c as int <= 13 || c as int == 32 || c as int == 133 || c as int
            == 160 || c as int == 5760 || 8192 <= c as int <= 8202 || c as int == 8232 || c as int
            == 8233 || c as int == 8239 || c as int == 8287 || c as int == 12288),
{
}

proof fn lemma_trim_start_drops(before: Seq<char>, rest: Seq<char>)
    requires
        forall|i: int| 0 <= i < before.len() ==> is_white_space(#[trigger] before[i]),
    ensures
        trim_start(before + rest) == trim_start(rest),
    decreases before.len(),
{
    if before.len() == 0 {
        assert(before + rest =~= rest);
    } else {
        let less = before.drop_first();
        assert((before + rest).drop_first() =~= less + rest);
        assert((before + rest)[0] == before[0]);
        assert forall|i: int| 0 <= i < less.len() implies is_white_space(#[trigger] less[i]) by {
            assert(less[i] == before[i + 1]);
        }
        lemma_trim_start_drops(less, rest);
    }
}

proof fn lemma_trim_end_drops(rest: Seq<char>, after: Seq<char>)
    requires
        forall|i: int| 0 <= i < after.len() ==> is_white_space(#[trigger] after[i]),
    ensures
        trim_end(rest + after) == trim_end(rest),
    decreases after.len(),
{
    if after.len() == 0 {
        assert(rest + after =~= rest);
    } else {
        let less = after.drop_last();
        assert((rest + after).drop_last() =~= rest + less);
        assert((rest + after).last() == after.last());
        lemma_trim_end_drops(rest, less);
    }
}

/// Trimming takes away the whitespace around a text, all of it, and nothing else.
pub proof fn law_trimming_takes_away_what_surrounds(
    before: Seq<char>,
    text: Seq<char>,
    after: Seq<char>,
)
    requires
        forall|i: int| 0 <= i < before.len() ==> is_white_space(#[trigger] before[i]),
        forall|i: int| 0 <= i < after.len() ==> is_white_space(#[trigger] after[i]),
        text.len() > 0 ==> !is_white_space(text[0]) && !is_white_space(text.last()),
    ensures
        trimmed(before + text + after) == text,
{
    let none = Seq::<char>::empty();
    assert(before + text + after =~= before + (text + after));
    lemma_trim_start_drops(before, text + after);
    if text.len() == 0 {
        assert(text + after =~= after + none);
        lemma_trim_start_drops(after, none);
        assert(trim_start(none) == none);
        assert(trim_end(none) == none);
        assert(text =~= none);
    } else {
        assert((text + after)[0] == text[0]);
        assert(trim_start(text + after) == text + after);
        lemma_trim_end_drops(text, after);
    }
}

/// The scheme in force is the configured text, without the whitespace around it, exactly where
/// that is a letter and then letters, digits, `+`, `-` and `.`. Otherwise it is `app`.
pub proof fn law_a_legal_scheme_is_taken_and_no_other(
    before: Seq<char>,
    text: Seq<char>,
    after: Seq<char>,
)
    requires
        forall|i: int| 0 <= i < before.len() ==> is_white_space(#[trigger] before[i]),
        forall|i: int| 0 <= i < after.len() ==> is_white_space(#[trigger] after[i]),
        text.len() > 0 ==> !is_white_space(text[0]) && !is_white_space(text.last()),
    ensures
        effective_scheme(before + text + after) == (if text.len() > 0 && ('a' <= text[0] <= 'z'
            || 'A' <= text[0] <= 'Z') && forall|i: int|
            0 <= i < text.len() ==> ('a' <= #[trigger] text[i] <= 'z' || 'A' <= text[i] <= 'Z'
                || '0' <= text[i] <= '9' || text[i] == '+' || text[i] == '-' || text[i] == '.') {
            text
        } else {
            "app"@
        }),
{
    law_trimming_takes_away_what_surrounds(before, text, after);
    let legal = crate::config::legal_scheme(text);
    if legal {
        assert forall|i: int| 0 <= i < text.len() implies ('a' <= #[trigger] text[i] <= 'z' || 'A'
            <= text[i] <= 'Z' || '0' <= text[i] <= '9' || text[i] == '+' || text[i] == '-'
            || text[i] == '.') by {
            assert(crate::config::is_scheme_char(text[i]));
        }
    }
}

/// The address of a page is the scheme, `://localhost/`, and the whole url.
pub proof fn law_a_page_address_holds_its_url(scheme: Seq<char>, url: Seq<char>)
    ensures
        ({
            let address = page_url_text(scheme, url);
            let k = scheme.len() as int;
            &&& address.len() == k + 13 + url.len()
            &&& address.take(k) == scheme
            &&& address.subrange(k, k + 13) == "://localhost/"@
            &&& address.skip(k + 13) == url
        }),
{
    reveal_strlit("://localhost/");
    let address = page_url_text(scheme, url);
    let k = scheme.len() as int;
    assert(address.take(k) =~= scheme);
    assert(address.subrange(k, k + 13) =~= "://localhost/"@);
    assert(address.skip(k + 13) =~= url);
}

/// A list is its items in order, with the separator between each two.
pub proof fn law_a_list_holds_its_items(list: Seq<Seq<char>>, last: Seq<char>, sep: Seq<char>)
    ensures
        joined(Seq::empty(), sep) == Seq::<char>::empty(),
        joined(seq![last], sep) == last,
        list.len() > 0 ==> joined(list.push(last), sep) == joined(list, sep) + sep + last,
{
    if list.len() > 0 {
        assert(list.push(last).drop_last() =~= list);
    }
}

/// Nothing but the line break is taken off a line, however long it is.
pub proof fn law_only_the_line_break_is_taken_off(content: Seq<u8>)
    ensures
        content.len() == 0 || content.last() != 10 ==> without_break(content) == content,
        content.len() == 0 || content.last() != 13 ==> without_break(content.push(10)) == content,
        without_break(content + seq![13u8, 10u8]) == content,
{
    assert(content.push(10).drop_last() =~= content);
    let long = content + seq![13u8, 10u8];
    assert(long.drop_last() =~= content.push(13));
    assert(content.push(13).drop_last() =~= content);
}

/// The bytes of a text, with either line break or with none, are read as that very text.
pub proof fn law_a_written_text_is_read(text: Seq<char>)
    ensures
        ({
            let bytes = encode_utf8(text);
            &&& bytes.len() == 0 || bytes.last() != 10 ==> input_of(bytes) == Input::Text(text)
            &&& bytes.len() == 0 || bytes.last() != 13 ==> input_of(bytes.push(10)) == Input::Text(
                text,
            )
            &&& input_of(bytes + seq![13u8, 10u8]) == Input::Text(text)
        }),
{
    vstd::utf8::encode_utf8_valid_utf8(text);
    vstd::utf8::encode_utf8_decode_utf8(text);
    law_only_the_line_break_is_taken_off(encode_utf8(text));
}

/// Bytes that are not UTF-8 are read as no text, and are all shown.
pub proof fn law_other_bytes_are_shown(bytes: Seq<u8>)
    requires
        !valid_utf8(bytes),
    ensures
        bytes.len() == 0 || bytes.last() != 10 ==> input_of(bytes) == Input::NotText(
            lossy_text(bytes),
        ),
        bytes.len() == 0 || bytes.last() != 13 ==> input_of(bytes.push(10)) == Input::NotText(
            lossy_text(bytes),
        ),
        input_of(bytes + seq![13u8, 10u8]) == Input::NotText(lossy_text(bytes)),
{
    law_only_the_line_break_is_taken_off(bytes);
}

/// What is done about each reading: what follows the prefix is decoded, all of it; every other
/// line is passed on, all of it; and only the end of the output ends the reading.
pub proof fn law_what_is_done_about_a_reading(text: Seq<char>)
    ensures
        turn(Input::Text("@tauri-shell "@ + text)) == Turn::Decode(text),
        !"@tauri-shell "@.is_prefix_of(text) ==> turn(Input::Text(text)) == Turn::Print(
            "[sidecar] "@ + text,
        ),
        turn(Input::NotText(text)) == Turn::Print("[sidecar] "@ + text),
        turn(Input::Closed) == Turn::Finish,
{
    let mark = "@tauri-shell "@;
    let line = mark + text;
    assert(mark =~= line.subrange(0, mark.len() as int));
    assert(line.skip(mark.len() as int) =~= text);
}

/// A payload that the sidecar writes reaches the decoder whole, and what it is decoded to is
/// what is done: the message is handled, or the error is reported with the payload. Text
/// without the prefix is passed on whole.
pub proof fn law_what_the_sidecar_writes_takes_effect<N>(
    text: Seq<char>,
    decode: spec_fn(Seq<char>) -> Result<SidecarMessage<N>, String>,
)
    ensures
        effect(input_of(encode_utf8("@tauri-shell "@ + text) + seq![13u8, 10u8]), decode) == (
        match decode(text) {
            Ok(message) => Effect::Handle(message),
            Err(error) => Effect::Report(
                "[shell] bad sidecar message: "@ + error@ + ": "@ + text,
            ),
        }),
        encode_utf8("@tauri-shell "@ + text).last() != 13 ==> effect(
            input_of(encode_utf8("@tauri-shell "@ + text).push(10)),
            decode,
        ) == (match decode(text) {
            Ok(message) => Effect::Handle(message),
            Err(error) => Effect::Report(
                "[shell] bad sidecar message: "@ + error@ + ": "@ + text,
            ),
        }),
        !"@tauri-shell "@.is_prefix_of(text) ==> effect(
            input_of(encode_utf8(text) + seq![13u8, 10u8]),
            decode,
        ) == Effect::<N>::Print("[sidecar] "@ + text),
{
    law_a_written_text_is_read("@tauri-shell "@ + text);
    law_a_written_text_is_read(text);
    law_what_is_done_about_a_reading(text);
}

/// What one step changes of what the shell remembers: a payload that is a request for a window
/// is remembered, and no other; the end of the output is remembered; nothing else changes.
pub proof fn law_what_a_step_changes<N>(
    shell: Shell,
    payload: Seq<char>,
    decoded: Result<SidecarMessage<N>, String>,
)
    ensures
        ({
            let next = shell.after(occurrence_of(payload_effect(payload, decoded)));
            &&& next.asked_for_a_window == (shell.asked_for_a_window || (decoded matches Ok(message)
                && message is CreateWindow))
            &&& next.sidecar_alive == shell.sidecar_alive
        }),
        shell.after(Occurrence::StdoutClosed).asked_for_a_window == shell.asked_for_a_window,
        !shell.after(Occurrence::StdoutClosed).sidecar_alive,
        !Shell::launched().asked_for_a_window,
        Shell::launched().sidecar_alive,
{
}

} // verus!
