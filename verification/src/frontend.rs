//! Serving the frontend: which file a request asks for, and what it is answered.

use vstd::prelude::*;

use crate::text::{
    after_first, after_last, concat4, first_of, locate, same_text, seek, split_on, to_chars,
};

verus! {

/// What follows the host in what follows `://`: everything after the first slash, and
/// nothing where there is no slash.
pub open spec fn after_host(rest: Seq<char>) -> Seq<char> {
    let slash = first_of(rest, '/', '/');
    if slash < rest.len() {
        rest.skip(slash + 1)
    } else {
        Seq::empty()
    }
}

/// Whether a path segment names the directory it stands in, or the one above.
pub open spec fn is_dots(segment: Seq<char>) -> bool {
    segment == ".."@ || segment == "."@
}

/// Whether some segment of `path` is `.` or `..`.
pub open spec fn climbs(path: Seq<char>) -> bool {
    exists|i: int| 0 <= i < split_on(path, '/').len() && is_dots(#[trigger] split_on(path, '/')[i])
}

/// Whether `path`, taken from a directory, may lead out of it: it climbs, or it starts with a
/// slash and so does not start at the directory at all. `/` is the only separator that this
/// knows: what a backslash or a drive letter means on some systems is not considered.
pub open spec fn leads_out(path: Seq<char>) -> bool {
    climbs(path) || (path.len() > 0 && path[0] == '/')
}

/// The file that a reference (a path, with or without query and fragment) names below
/// the frontend directory, or nothing where it is refused.
pub open spec fn resource(reference: Seq<char>) -> Option<Seq<char>> {
    let path = reference.take(first_of(reference, '?', '#'));
    let file = if path.len() == 0 {
        "index.html"@
    } else {
        path
    };
    if leads_out(file) {
        None
    } else {
        Some(file)
    }
}

/// The file that a request for `uri` names below the frontend directory, or nothing
/// where it is refused.
pub open spec fn requested(uri: Seq<char>) -> Option<Seq<char>> {
    match after_first(uri, "://"@) {
        Some(rest) => resource(after_host(rest)),
        None => None,
    }
}

/// A path climbs if its first segment does, or the rest after the first slash.
pub proof fn lemma_climbs_step(path: Seq<char>)
    ensures
        ({
            let k = first_of(path, '/', '/');
            &&& 0 <= k <= path.len()
            &&& climbs(path) <==> is_dots(path.take(k)) || (k < path.len() && climbs(
                path.skip(k + 1),
            ))
        }),
{
    let k = first_of(path, '/', '/');
    crate::text::lemma_first_of(path, '/', '/');
    let parts = split_on(path, '/');
    if k < path.len() {
        let tail = split_on(path.skip(k + 1), '/');
        assert(parts == seq![path.take(k)] + tail);
        assert(parts[0] == path.take(k));
        if climbs(path) {
            let i = choose|i: int| 0 <= i < parts.len() && is_dots(#[trigger] parts[i]);
            if i > 0 {
                assert(parts[i] == tail[i - 1]);
            }
        }
        if climbs(path.skip(k + 1)) {
            let i = choose|i: int| 0 <= i < tail.len() && is_dots(#[trigger] tail[i]);
            assert(parts[i + 1] == tail[i]);
        }
    } else {
        assert(path.take(k) =~= path);
        assert(parts =~= seq![path]);
        assert(parts[0] == path);
    }
}

/// Whether some segment of `path` is `.` or `..`.
fn has_dots(path: &str) -> (found: bool)
    ensures
        found == climbs(path@),
{
    let chars = to_chars(path);
    let mut start: usize = 0;
    assert(chars@.skip(0) =~= chars@);
    loop
        invariant
            chars@ == path@,
            start <= chars@.len(),
            climbs(path@) == climbs(chars@.skip(start as int)),
        decreases chars@.len() - start,
    {
        let end = seek(&chars, start, '/', '/');
        let segment = path.substring_char(start, end);
        proof {
            let rest = chars@.skip(start as int);
            lemma_climbs_step(rest);
            assert(rest.take(end - start) =~= segment@);
            if end < chars@.len() {
                assert(rest.skip(end - start + 1) =~= chars@.skip(end + 1));
            }
        }
        if same_text(segment, "..") || same_text(segment, ".") {
            return true;
        }
        if end == chars.len() {
            return false;
        }
        start = end + 1;
    }
}

/// The path that a `<scheme>://localhost/<path>?<query>` request asks for, refused where, with
/// `/` as the separator, it could leave the frontend directory: where one of its segments is `.`
/// or `..`, and where it starts with a slash. A `uri` without `://` is refused too.
///
/// An empty path asks for `index.html`.
pub fn request_path(uri: &str) -> (path: Option<String>)
    ensures
        match path {
            Some(path) => requested(uri@) == Some(path@),
            None => requested(uri@) is None,
        },
{
    let chars = to_chars(uri);
    let mark = to_chars("://");
    proof {
        reveal_strlit("://");
    }
    let Some(scheme_end) = locate(&chars, &mark) else {
        return None;
    };
    let length = chars.len();
    let rest = scheme_end + 3;
    let slash = seek(&chars, rest, '/', '/');
    let from = if slash == length {
        slash
    } else {
        slash + 1
    };
    let to = seek(&chars, from, '?', '#');
    proof {
        let after = chars@.skip(rest as int);
        let reference = chars@.skip(from as int);
        assert(after_first(uri@, "://"@) == Some(after));
        assert(after_host(after) =~= reference);
        assert(reference.take(to - from) =~= chars@.subrange(from as int, to as int));
    }
    let path: String = if from == to {
        proof {
            reveal_strlit("index.html");
        }
        "index.html".to_owned()
    } else {
        if chars[from] == '/' {
            return None;
        }
        uri.substring_char(from, to).to_owned()
    };
    if has_dots(path.as_str()) {
        return None;
    }
    Some(path)
}

/// The media type of a file whose name ends in a dot and `extension`.
pub open spec fn media_type(extension: Seq<char>) -> Seq<char> {
    if extension == "html"@ {
        "text/html"@
    } else if extension == "js"@ || extension == "mjs"@ {
        "text/javascript"@
    } else if extension == "css"@ {
        "text/css"@
    } else if extension == "json"@ || extension == "map"@ {
        "application/json"@
    } else if extension == "svg"@ {
        "image/svg+xml"@
    } else if extension == "png"@ {
        "image/png"@
    } else if extension == "jpg"@ || extension == "jpeg"@ {
        "image/jpeg"@
    } else if extension == "webp"@ {
        "image/webp"@
    } else if extension == "woff2"@ {
        "font/woff2"@
    } else if extension == "woff"@ {
        "font/woff"@
    } else if extension == "wasm"@ {
        "application/wasm"@
    } else {
        "application/octet-stream"@
    }
}

/// The media type that the file at `path` is served with.
pub open spec fn content_type(path: Seq<char>) -> Seq<char> {
    match after_last(path, '.') {
        Some(extension) => media_type(extension),
        None => "application/octet-stream"@,
    }
}

/// The text after a dot that no other dot follows is what `after_last` gives.
pub proof fn lemma_after_last(s: Seq<char>, c: char, k: int)
    requires
        0 <= k < s.len(),
        s[k] == c,
        forall|i: int| k < i < s.len() ==> s[i] != c,
    ensures
        after_last(s, c) == Some(s.skip(k + 1)),
    decreases s.len(),
{
    if s.last() == c {
        assert(k == s.len() - 1);
        assert(s.skip(k + 1) =~= Seq::<char>::empty());
    } else {
        let t = s.drop_last();
        lemma_after_last(t, c, k);
        assert(t.skip(k + 1).push(s.last()) =~= s.skip(k + 1));
    }
}

/// Nothing follows a character that does not occur.
pub proof fn lemma_after_last_none(s: Seq<char>, c: char)
    requires
        forall|i: int| 0 <= i < s.len() ==> s[i] != c,
    ensures
        after_last(s, c) is None,
    decreases s.len(),
{
    if s.len() > 0 {
        lemma_after_last_none(s.drop_last(), c);
    }
}

/// The media type of the files that end in a dot and `extension`.
fn media_type_for(extension: &str) -> (kind: &'static str)
    ensures
        kind@ == media_type(extension@),
{
    if same_text(extension, "html") {
        "text/html"
    } else if same_text(extension, "js") || same_text(extension, "mjs") {
        "text/javascript"
    } else if same_text(extension, "css") {
        "text/css"
    } else if same_text(extension, "json") || same_text(extension, "map") {
        "application/json"
    } else if same_text(extension, "svg") {
        "image/svg+xml"
    } else if same_text(extension, "png") {
        "image/png"
    } else if same_text(extension, "jpg") || same_text(extension, "jpeg") {
        "image/jpeg"
    } else if same_text(extension, "webp") {
        "image/webp"
    } else if same_text(extension, "woff2") {
        "font/woff2"
    } else if same_text(extension, "woff") {
        "font/woff"
    } else if same_text(extension, "wasm") {
        "application/wasm"
    } else {
        "application/octet-stream"
    }
}

/// The media type that the file at `path` is served with, by what follows its last dot.
pub fn content_type_for(path: &str) -> (kind: &'static str)
    ensures
        kind@ == content_type(path@),
{
    let chars = to_chars(path);
    let length = chars.len();
    let mut after: usize = length;
    while after > 0 && chars[after - 1] != '.'
        invariant
            chars@ == path@,
            length == chars@.len(),
            after <= length,
            forall|i: int| after <= i < length ==> chars@[i] != '.',
        decreases after,
    {
        after = after - 1;
    }
    if after == 0 {
        proof {
            lemma_after_last_none(path@, '.');
        }
        return "application/octet-stream";
    }
    proof {
        lemma_after_last(path@, '.', after - 1);
        assert(path@.skip(after as int) =~= path@.subrange(after as int, length as int));
    }
    media_type_for(path.substring_char(after, length))
}

/// What a request is answered.
pub struct Response {
    pub status: u16,
    pub content_type: Option<&'static str>,
    pub body: Vec<u8>,
}

/// What the frontend does with a request.
pub enum Route {
    /// Answer with the response, and write the report to the log.
    Refuse { response: Response, report: String },
    /// Read the file at this path below the frontend directory.
    Read { path: String },
}

/// An answer without a body.
fn bare(status: u16) -> (response: Response)
    ensures
        response.status == status,
        response.content_type is None,
        response.body@.len() == 0,
{
    Response { status, content_type: None, body: Vec::new() }
}

/// What becomes of a request for `uri`: the file it names is read, and a request that
/// names none is forbidden.
pub fn route(uri: &str) -> (route: Route)
    ensures
        match route {
            Route::Read { path } => requested(uri@) == Some(path@),
            Route::Refuse { response, report } => {
                &&& requested(uri@) is None
                &&& response.status == 403
                &&& response.content_type is None
                &&& response.body@ == Seq::<u8>::empty()
                &&& report@ == "[shell] refused traversal in "@ + uri@
            },
        },
{
    match request_path(uri) {
        Some(path) => Route::Read { path },
        None => {
            let mut report = "[shell] refused traversal in ".to_owned();
            report.append(uri);
            Route::Refuse { response: bare(403), report }
        },
    }
}

/// The answer to a request for the file at `path`, after trying to read it: its bytes
/// under its media type, or not found, with a report for the log.
pub fn answer(path: &str, read: Result<Vec<u8>, String>) -> (answer: (Response, Option<String>))
    ensures
        match read {
            Ok(bytes) => {
                &&& answer.0.status == 200
                &&& answer.0.content_type matches Some(kind) && kind@ == content_type(path@)
                &&& answer.0.body@ == bytes@
                &&& answer.1 is None
            },
            Err(error) => {
                &&& answer.0.status == 404
                &&& answer.0.content_type is None
                &&& answer.0.body@ == Seq::<u8>::empty()
                &&& answer.1 matches Some(report) && report@ == "[shell] 404 "@ + path@ + ": "@
                    + error@
            },
        },
{
    match read {
        Ok(body) => {
            let kind = content_type_for(path);
            (Response { status: 200, content_type: Some(kind), body }, None)
        },
        Err(error) => (bare(404), Some(concat4("[shell] 404 ", path, ": ", error.as_str()))),
    }
}

/// Where one path segment leads from a directory, given by the names on the way to it.
pub open spec fn enter(dir: Seq<Seq<char>>, segment: Seq<char>) -> Seq<Seq<char>> {
    if segment == ""@ || segment == "."@ {
        dir
    } else if segment == ".."@ {
        if dir.len() == 0 {
            dir
        } else {
            dir.drop_last()
        }
    } else {
        dir.push(segment)
    }
}

/// Where a sequence of path segments leads from a directory.
pub open spec fn walk(dir: Seq<Seq<char>>, segments: Seq<Seq<char>>) -> Seq<Seq<char>>
    decreases segments.len(),
{
    if segments.len() == 0 {
        dir
    } else {
        walk(enter(dir, segments[0]), segments.drop_first())
    }
}

/// Where `path` leads from a directory, with `/` as the only separator; with a leading slash
/// it starts at the top instead.
pub open spec fn place(dir: Seq<Seq<char>>, path: Seq<char>) -> Seq<Seq<char>> {
    walk(
        if path.len() > 0 && path[0] == '/' {
            Seq::empty()
        } else {
            dir
        },
        split_on(path, '/'),
    )
}

proof fn lemma_walk_stays(dir: Seq<Seq<char>>, segments: Seq<Seq<char>>)
    requires
        forall|i: int| 0 <= i < segments.len() ==> !is_dots(#[trigger] segments[i]),
    ensures
        dir.is_prefix_of(walk(dir, segments)),
    decreases segments.len(),
{
    if segments.len() == 0 {
        assert(dir =~= dir.subrange(0, dir.len() as int));
    } else {
        let next = enter(dir, segments[0]);
        let rest = segments.drop_first();
        assert forall|i: int| 0 <= i < rest.len() implies !is_dots(#[trigger] rest[i]) by {
            assert(rest[i] == segments[i + 1]);
        }
        assert(!is_dots(segments[0]));
        lemma_walk_stays(next, rest);
        let end = walk(next, rest);
        assert(next =~= end.subrange(0, next.len() as int));
        assert(dir =~= next.subrange(0, dir.len() as int));
        assert(dir =~= end.subrange(0, dir.len() as int)) by {
            assert forall|i: int| 0 <= i < dir.len() implies dir[i] == end[i] by {
                assert(next[i] == end.subrange(0, next.len() as int)[i]);
                assert(dir[i] == next.subrange(0, dir.len() as int)[i]);
            }
        }
    }
}

/// A path that a request is granted stays inside the frontend directory where `/` alone
/// separates the parts of a path: followed from any directory, it never leaves that directory.
pub proof fn law_granted_path_stays_inside(uri: Seq<char>, root: Seq<Seq<char>>)
    requires
        requested(uri) is Some,
    ensures
        !leads_out(requested(uri)->0),
        root.is_prefix_of(place(root, requested(uri)->0)),
{
    let path = requested(uri)->0;
    let parts = split_on(path, '/');
    assert(!climbs(path));
    assert forall|i: int| 0 <= i < parts.len() implies !is_dots(#[trigger] parts[i]) by {}
    lemma_walk_stays(root, parts);
}

/// A granted path is not empty and holds nothing of the query or the fragment.
pub proof fn law_granted_path_is_plain(uri: Seq<char>)
    requires
        requested(uri) is Some,
    ensures
        requested(uri)->0.len() > 0,
        !requested(uri)->0.contains('?'),
        !requested(uri)->0.contains('#'),
{
    reveal_strlit("index.html");
    let reference = after_host(after_first(uri, "://"@)->0);
    crate::text::lemma_first_of(reference, '?', '#');
}

/// A query or a fragment changes nothing about which file a reference names.
pub proof fn law_query_and_fragment_are_ignored(reference: Seq<char>, mark: char, rest: Seq<char>)
    requires
        mark == '?' || mark == '#',
    ensures
        resource(reference.push(mark) + rest) == resource(reference),
{
    let k = first_of(reference, '?', '#');
    crate::text::lemma_first_of(reference, '?', '#');
    let whole = reference.push(mark) + rest;
    assert forall|i: int| 0 <= i < k implies whole[i] != '?' && whole[i] != '#' by {
        assert(whole[i] == reference[i]);
    }
    assert(whole[k] == if k < reference.len() { reference[k] } else { mark });
    crate::text::lemma_first_of_is(whole, '?', '#', k);
    assert(whole.take(k) =~= reference.take(k));
}

/// What is granted, is granted again when it is asked for under its own name.
pub proof fn law_granted_path_names_itself(uri: Seq<char>)
    requires
        requested(uri) is Some,
    ensures
        resource(requested(uri)->0) == requested(uri),
{
    let path = requested(uri)->0;
    law_granted_path_is_plain(uri);
    assert forall|i: int| 0 <= i < path.len() implies path[i] != '?' && path[i] != '#' by {
        assert(path.contains(path[i]));
    }
    crate::text::lemma_first_of_is(path, '?', '#', path.len() as int);
    assert(path.take(path.len() as int) =~= path);
}

/// Only what follows the last dot decides the media type.
pub proof fn law_extension_decides(stem: Seq<char>, extension: Seq<char>)
    requires
        !extension.contains('.'),
    ensures
        content_type(stem.push('.') + extension) == media_type(extension),
{
    let path = stem.push('.') + extension;
    let k = stem.len() as int;
    assert forall|i: int| k < i < path.len() implies path[i] != '.' by {
        assert(path[i] == extension[i - k - 1]);
    }
    lemma_after_last(path, '.', k);
    assert(path.skip(k + 1) =~= extension);
}

/// A reference that starts with a slash is refused.
pub proof fn law_leading_slash_is_refused(rest: Seq<char>)
    ensures
        resource(seq!['/'] + rest) is None,
{
    let reference = seq!['/'] + rest;
    crate::text::lemma_first_of(reference, '?', '#');
    assert(reference[0] == '/');
    assert(first_of(reference, '?', '#') > 0);
}

/// A reference that names `..` or `.` among the segments of its path is refused.
pub proof fn law_naming_dots_is_refused(reference: Seq<char>, i: int)
    requires
        0 <= i < split_on(reference.take(first_of(reference, '?', '#')), '/').len(),
        is_dots(split_on(reference.take(first_of(reference, '?', '#')), '/')[i]),
    ensures
        resource(reference) is None,
{
    let path = reference.take(first_of(reference, '?', '#'));
    crate::text::lemma_first_of(reference, '?', '#');
    if path.len() == 0 {
        reveal_strlit("..");
        reveal_strlit(".");
        assert(split_on(path, '/') =~= seq![path]);
    }
}

} // verus!
