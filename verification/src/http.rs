//! The report server's request handling: which file or database a request
//! line asks for, and how a reply is framed.
use vstd::prelude::*;
use crate::text::{
    before_char, copy_range, decimal, find_char, has_prefix, is_white_space,
    lemma_find_char_absent, lemma_find_char_bounds, nat_text, push_char, same_text,
    skip_non_white, skip_white, split_char, split_on, starts_with, text_before_char, white_space,
};

verus! {

/// Status line of a successful reply.
pub const OK_STATUS: &'static str = "HTTP/1.1 200 OK";

/// Status line of a reply to a request for something that is not there.
pub const NOT_FOUND_STATUS: &'static str = "HTTP/1.1 404 NOT FOUND";

/// Body of a not-found reply.
pub const NOT_FOUND_BODY: &'static str = "haha not found";

/// Status line of a reply when a file exists but cannot be read.
pub const SERVER_ERROR_STATUS: &'static str = "HTTP/1.1 500 Internal Server Error";

/// Body of a server-error reply.
pub const SERVER_ERROR_BODY: &'static str = "Internal Server Error";

/// Number of bytes in the UTF-8 encoding of `c`.
pub open spec fn utf8_width(c: char) -> nat {
    if (c as u32) < 0x80 {
        1
    } else if (c as u32) < 0x800 {
        2
    } else if (c as u32) < 0x10000 {
        3
    } else {
        4
    }
}

/// Number of UTF-8 bytes taken by the first `k` characters of `s`.
pub open spec fn prefix_bytes(s: Seq<char>, k: int) -> nat
    decreases k,
{
    if k <= 0 || k > s.len() {
        0
    } else {
        prefix_bytes(s, k - 1) + utf8_width(s[k - 1])
    }
}

proof fn lemma_width_is_encoding_length(c: char)
    ensures
        utf8_width(c) == vstd::utf8::encode_scalar(c as u32).len(),
{
    vstd::utf8::char_is_scalar(c);
}

proof fn lemma_encoding_length_push(a: Seq<char>, c: char)
    ensures
        vstd::utf8::encode_utf8(a.push(c)).len() == vstd::utf8::encode_utf8(a).len() + utf8_width(
            c,
        ),
    decreases a.len(),
{
    lemma_width_is_encoding_length(c);
    let b = a.push(c);
    assert(vstd::utf8::encode_utf8(b) == vstd::utf8::encode_scalar(b[0] as u32)
        + vstd::utf8::encode_utf8(b.drop_first()));
    if a.len() == 0 {
        assert(b.drop_first() =~= Seq::<char>::empty());
        assert(vstd::utf8::encode_utf8(b.drop_first()).len() == 0);
        assert(vstd::utf8::encode_utf8(a).len() == 0);
    } else {
        assert(b.drop_first() =~= a.drop_first().push(c));
        lemma_encoding_length_push(a.drop_first(), c);
        assert(vstd::utf8::encode_utf8(a) == vstd::utf8::encode_scalar(a[0] as u32)
            + vstd::utf8::encode_utf8(a.drop_first()));
    }
}

/// `prefix_bytes` counts the bytes of the UTF-8 encoding of the prefix.
pub proof fn lemma_prefix_bytes_is_utf8_length(s: Seq<char>, k: int)
    requires
        0 <= k <= s.len(),
    ensures
        prefix_bytes(s, k) == vstd::utf8::encode_utf8(s.take(k)).len(),
    decreases k,
{
    if k > 0 {
        lemma_prefix_bytes_is_utf8_length(s, k - 1);
        assert(s.take(k) =~= s.take(k - 1).push(s[k - 1]));
        lemma_encoding_length_push(s.take(k - 1), s[k - 1]);
    } else {
        assert(s.take(0) =~= Seq::<char>::empty());
    }
}

/// Whether byte offset `n` of the UTF-8 text `s` falls between two
/// characters, that is, whether `&s[n..]` is defined.
pub open spec fn is_byte_boundary(s: Seq<char>, n: nat) -> bool {
    exists|k: int| 0 <= k <= s.len() && prefix_bytes(s, k) == n
}

/// The number of characters before byte offset `n`, when `n` is a boundary.
pub open spec fn chars_before_byte(s: Seq<char>, n: nat) -> int {
    choose|k: int| 0 <= k <= s.len() && prefix_bytes(s, k) == n
}

proof fn lemma_prefix_bytes_grow(s: Seq<char>, j: int, k: int)
    requires
        0 <= j < k <= s.len(),
    ensures
        prefix_bytes(s, j) < prefix_bytes(s, k),
    decreases k - j,
{
    if j + 1 < k {
        lemma_prefix_bytes_grow(s, j, k - 1);
    }
}

/// At most one character count corresponds to a byte offset.
proof fn lemma_byte_boundary_unique(s: Seq<char>, n: nat, k: int)
    requires
        0 <= k <= s.len(),
        prefix_bytes(s, k) == n,
    ensures
        is_byte_boundary(s, n),
        chars_before_byte(s, n) == k,
{
    let j = chars_before_byte(s, n);
    if j < k {
        lemma_prefix_bytes_grow(s, j, k);
    } else if j > k {
        lemma_prefix_bytes_grow(s, k, j);
    }
}

/// The first whitespace-separated word of `s` at or after character `k`
/// (`split_whitespace().nth(0)` on `s[k..]`).
pub open spec fn word_from(s: Seq<char>, k: int) -> Option<Seq<char>> {
    let a = skip_white(s, k);
    if a >= s.len() {
        None
    } else {
        Some(s.subrange(a, skip_non_white(s, a)))
    }
}

/// The first word after byte offset `n` of the line (`line[n..]`), or `None`
/// when that slice is undefined or holds no word.
pub open spec fn word_after_byte(line: Seq<char>, n: nat) -> Option<Seq<char>> {
    if is_byte_boundary(line, n) {
        word_from(line, chars_before_byte(line, n))
    } else {
        None
    }
}

/// `Path::new(base).join(part)` on Unix, as text: an absolute `part` replaces
/// `base`; otherwise `part` follows `base`, with a `/` between them unless
/// `base` is empty or already ends with one.
pub open spec fn join_path(base: Seq<char>, part: Seq<char>) -> Seq<char> {
    if part.len() > 0 && part[0] == '/' {
        part
    } else if base.len() == 0 {
        part
    } else if base[base.len() - 1] == '/' {
        base + part
    } else {
        base + seq!['/'] + part
    }
}

/// `Path::new(base).join(part)` rendered as text.
pub fn path_join(base: &str, part: &str) -> (r: String)
    ensures
        r@ == join_path(base@, part@),
{
    let n = base.unicode_len();
    let m = part.unicode_len();
    if m > 0 && part.get_char(0) == '/' {
        return part.to_owned();
    }
    let mut r = base.to_owned();
    if n > 0 && base.get_char(n - 1) != '/' {
        push_char(&mut r, '/');
    }
    r.append(part);
    r
}

/// What a request line asks for.
pub enum Route {
    /// A fixed file (or pseudo-file), answered with `OK_STATUS`.
    File(String),
    /// A file under the web root, answered only if it exists on disk.
    FileIfPresent(String),
    /// A line the server cannot take apart; the handling thread gives up on it.
    Malformed,
}

/// The mathematical content of a `Route`.
pub enum RouteView {
    File(Seq<char>),
    FileIfPresent(Seq<char>),
    Malformed,
}

impl View for Route {
    type V = RouteView;

    open spec fn view(&self) -> RouteView {
        match self {
            Route::File(f) => RouteView::File(f@),
            Route::FileIfPresent(f) => RouteView::FileIfPresent(f@),
            Route::Malformed => RouteView::Malformed,
        }
    }
}

/// The route of a request line: the fixed pages first, then `/db/...`
/// requests (served as the path after `GET /`), then any other path, looked
/// up under `web/` without its query string.
pub open spec fn route_of(line: Seq<char>) -> RouteView {
    if line == "GET / HTTP/1.1"@ || has_prefix(line, "GET /?"@) {
        RouteView::File("web/index.html"@)
    } else if line == "GET /config HTTP/1.1"@ {
        RouteView::File("config.json"@)
    } else if line == "GET /list_db HTTP/1.1"@ {
        RouteView::File("list_db"@)
    } else {
        match word_after_byte(line, 5) {
            None => RouteView::Malformed,
            Some(w) => if has_prefix(line, "GET /db/"@) {
                RouteView::File(w)
            } else {
                RouteView::FileIfPresent(join_path("web/"@, before_char(w, '?')))
            },
        }
    }
}

/// Character index at which byte offset `n` of `s` starts, if it is a boundary.
fn char_index_at_byte(s: &str, n: usize) -> (r: Option<usize>)
    requires
        n < 0x1000,
    ensures
        r is Some <==> is_byte_boundary(s@, n as nat),
        r matches Some(k) ==> k == chars_before_byte(s@, n as nat) && k <= s@.len(),
{
    let len = s.unicode_len();
    let mut i: usize = 0;
    let mut bytes: usize = 0;
    while i < len && bytes < n
        invariant
            len == s@.len(),
            n < 0x1000,
            i <= len,
            bytes < n + 4,
            bytes == prefix_bytes(s@, i as int),
            forall|k: int| 0 <= k < i ==> prefix_bytes(s@, k) < n,
        decreases len - i,
    {
        let c = s.get_char(i);
        let w: usize = if (c as u32) < 0x80 {
            1
        } else if (c as u32) < 0x800 {
            2
        } else if (c as u32) < 0x10000 {
            3
        } else {
            4
        };
        bytes = bytes + w;
        i = i + 1;
    }
    if bytes == n {
        proof {
            lemma_byte_boundary_unique(s@, n as nat, i as int);
        }
        Some(i)
    } else {
        proof {
            if is_byte_boundary(s@, n as nat) {
                let k = choose|k: int| 0 <= k <= s@.len() && prefix_bytes(s@, k) == n;
                if k < i {
                } else if k > i {
                    lemma_prefix_bytes_grow(s@, i as int, k);
                }
            }
        }
        None
    }
}

/// The first whitespace-separated word of `s` from character `k` on.
fn word_at(s: &str, k: usize) -> (r: Option<String>)
    requires
        k <= s@.len(),
    ensures
        r.deep_view() == word_from(s@, k as int),
{
    let len = s.unicode_len();
    let mut a = k;
    while a < len && white_space(s.get_char(a))
        invariant
            len == s@.len(),
            k <= a <= len,
            skip_white(s@, a as int) == skip_white(s@, k as int),
        decreases len - a,
    {
        a = a + 1;
    }
    if a >= len {
        return None;
    }
    let mut b = a;
    while b < len && !white_space(s.get_char(b))
        invariant
            len == s@.len(),
            a <= b <= len,
            skip_non_white(s@, b as int) == skip_non_white(s@, a as int),
        decreases len - b,
    {
        b = b + 1;
    }
    Some(copy_range(s, a, b))
}

/// Decides what a request line asks for.
pub fn route_request(line: &str) -> (r: Route)
    ensures
        r@ == route_of(line@),
{
    if same_text(line, "GET / HTTP/1.1") || starts_with(line, "GET /?") {
        return Route::File("web/index.html".to_owned());
    }
    if same_text(line, "GET /config HTTP/1.1") {
        return Route::File("config.json".to_owned());
    }
    if same_text(line, "GET /list_db HTTP/1.1") {
        return Route::File("list_db".to_owned());
    }
    match char_index_at_byte(line, 5) {
        None => Route::Malformed,
        Some(k) => match word_at(line, k) {
            None => Route::Malformed,
            Some(w) => {
                if starts_with(line, "GET /db/") {
                    Route::File(w)
                } else {
                    let path = text_before_char(w.as_str(), '?');
                    Route::FileIfPresent(path_join("web/", path.as_str()))
                }
            },
        },
    }
}

/// What the server does for a routed file name.
pub enum Target {
    /// Records of a monthly database: the master table when `table` is
    /// empty, else the named session table.
    Database { file: String, table: String },
    /// A database path without a database name in it.
    NotFound,
    /// The list of monthly databases.
    ListDb,
    /// The contents of a file on disk.
    ReadFile(String),
}

/// The mathematical content of a `Target`.
pub enum TargetView {
    Database { file: Seq<char>, table: Seq<char> },
    NotFound,
    ListDb,
    ReadFile(Seq<char>),
}

impl View for Target {
    type V = TargetView;

    open spec fn view(&self) -> TargetView {
        match self {
            Target::Database { file, table } => TargetView::Database { file: file@, table: table@ },
            Target::NotFound => TargetView::NotFound,
            Target::ListDb => TargetView::ListDb,
            Target::ReadFile(f) => TargetView::ReadFile(f@),
        }
    }
}

/// The target of a routed file name: names starting with `db` address
/// `db/<database>[/<table>]` (query string ignored), `list_db` lists the
/// databases, and anything else is a file to read.
pub open spec fn target_of(name: Seq<char>) -> TargetView {
    if has_prefix(name, "db"@) {
        let parts = split_char(before_char(name, '?'), '/');
        if parts.len() < 2 {
            TargetView::NotFound
        } else {
            TargetView::Database {
                file: parts[1] + ".db"@,
                table: if parts.len() > 2 {
                    parts[2]
                } else {
                    Seq::empty()
                },
            }
        }
    } else if name == "list_db"@ {
        TargetView::ListDb
    } else {
        TargetView::ReadFile(name)
    }
}

/// Decides what to do for a routed file name.
pub fn request_target(name: &str) -> (r: Target)
    ensures
        r@ == target_of(name@),
{
    if starts_with(name, "db") {
        let path = text_before_char(name, '?');
        let parts = split_on(path.as_str(), '/');
        if parts.len() < 2 {
            return Target::NotFound;
        }
        let mut file = parts[1].clone();
        file.append(".db");
        let table = if parts.len() > 2 {
            parts[2].clone()
        } else {
            String::new()
        };
        proof {
            assert(parts.deep_view()[1] == parts@[1]@);
            if parts.len() > 2 {
                assert(parts.deep_view()[2] == parts@[2]@);
            }
        }
        Target::Database { file, table }
    } else if same_text(name, "list_db") {
        Target::ListDb
    } else {
        Target::ReadFile(name.to_owned())
    }
}

/// The head of a reply: status line, `Content-Length` and the blank line.
pub open spec fn head_text(status: Seq<char>, length: nat) -> Seq<char> {
    status + "\r\nContent-Length: "@ + decimal(length) + "\r\n\r\n"@
}

/// The head of a reply whose body has `length` bytes.
pub fn response_head(status: &str, length: usize) -> (r: String)
    ensures
        r@ == head_text(status@, length as nat),
{
    let mut r = status.to_owned();
    r.append("\r\nContent-Length: ");
    let n = nat_text(length as u64);
    r.append(n.as_str());
    r.append("\r\n\r\n");
    r
}

/// A whole text reply; its `Content-Length` counts the UTF-8 bytes of the body.
pub fn text_response(status: &str, contents: &str) -> (r: String)
    requires
        vstd::utf8::encode_utf8(contents@).len() <= usize::MAX,
    ensures
        r@ == head_text(status@, vstd::utf8::encode_utf8(contents@).len()) + contents@,
{
    let length = contents.len();
    let mut r = response_head(status, length);
    r.append(contents);
    r
}

/// The mathematical content of an optional target.
pub open spec fn target_views(t: Option<Target>) -> Option<TargetView> {
    match t {
        Some(t) => Some(t@),
        None => None,
    }
}

/// The target of a route once it is known whether the web file exists.
pub open spec fn resolved_target(route: RouteView, exists: bool) -> Option<TargetView> {
    match route {
        RouteView::File(f) => Some(target_of(f)),
        RouteView::FileIfPresent(p) => if exists {
            Some(target_of(p))
        } else {
            Some(TargetView::NotFound)
        },
        RouteView::Malformed => None,
    }
}

/// The target of a route once the server knows whether a file under the web
/// root exists: `None` for a line it cannot take apart, a missing web file is
/// not found, and any other route targets its file name.
pub fn resolve_route(route: Route, exists: bool) -> (r: Option<Target>)
    ensures
        target_views(r) == resolved_target(route@, exists),
        route@ is File ==> target_views(r) == Some(target_of(route@->File_0)),
        route@ is FileIfPresent && exists ==> target_views(r) == Some(
            target_of(route@->FileIfPresent_0),
        ),
        route@ is FileIfPresent && !exists ==> target_views(r) == Some(TargetView::NotFound),
        route@ is Malformed ==> r is None,
{
    match route {
        Route::File(f) => Some(request_target(f.as_str())),
        Route::FileIfPresent(p) => {
            if exists {
                Some(request_target(p.as_str()))
            } else {
                Some(Target::NotFound)
            }
        },
        Route::Malformed => None,
    }
}

/// How fetching what a target names went.
pub enum Outcome {
    /// Text to send: the records or the list as JSON, or a file's text.
    Text(String),
    /// A file whose contents are not UTF-8 text.
    Bytes(Vec<u8>),
    /// The database could not be opened or queried, the records could not be
    /// turned into JSON, or the file could not be read.
    Failed,
}

/// The mathematical content of an `Outcome`.
pub enum OutcomeView {
    Text(Seq<char>),
    Bytes(Seq<u8>),
    Failed,
}

impl View for Outcome {
    type V = OutcomeView;

    open spec fn view(&self) -> OutcomeView {
        match self {
            Outcome::Text(t) => OutcomeView::Text(t@),
            Outcome::Bytes(b) => OutcomeView::Bytes(b@),
            Outcome::Failed => OutcomeView::Failed,
        }
    }
}

/// A reply: a status line and a text or byte body.
pub enum Reply {
    Text { status: String, body: String },
    Bytes { status: String, bytes: Vec<u8> },
}

/// The mathematical content of a `Reply`.
pub enum ReplyView {
    Text { status: Seq<char>, body: Seq<char> },
    Bytes { status: Seq<char>, bytes: Seq<u8> },
}

impl View for Reply {
    type V = ReplyView;

    open spec fn view(&self) -> ReplyView {
        match self {
            Reply::Text { status, body } => ReplyView::Text { status: status@, body: body@ },
            Reply::Bytes { status, bytes } => ReplyView::Bytes { status: status@, bytes: bytes@ },
        }
    }
}

/// The reply for a target and how fetching it went. A target that is not
/// found gets the not-found reply. A file is sent as text, or as bytes when it
/// is not UTF-8, and a failed read is a server error. Records and the list of
/// databases are sent as their JSON, and any failure is answered as not found.
pub open spec fn reply_of(target: TargetView, outcome: OutcomeView) -> ReplyView {
    match target {
        TargetView::NotFound => ReplyView::Text { status: NOT_FOUND_STATUS@, body: NOT_FOUND_BODY@ },
        TargetView::ReadFile(_) => match outcome {
            OutcomeView::Text(t) => ReplyView::Text { status: OK_STATUS@, body: t },
            OutcomeView::Bytes(b) => ReplyView::Bytes { status: OK_STATUS@, bytes: b },
            OutcomeView::Failed => ReplyView::Text {
                status: SERVER_ERROR_STATUS@,
                body: SERVER_ERROR_BODY@,
            },
        },
        _ => match outcome {
            OutcomeView::Text(t) => ReplyView::Text { status: OK_STATUS@, body: t },
            _ => ReplyView::Text { status: NOT_FOUND_STATUS@, body: NOT_FOUND_BODY@ },
        },
    }
}

/// Decides the reply for a target and how fetching it went.
pub fn reply_for(target: &Target, outcome: Outcome) -> (r: Reply)
    ensures
        r@ == reply_of(target@, outcome@),
        !(target@ is NotFound) && outcome@ is Text ==> r@ == (ReplyView::Text {
            status: OK_STATUS@,
            body: outcome@->Text_0,
        }),
        target@ is ReadFile && outcome@ is Bytes ==> r@ == (ReplyView::Bytes {
            status: OK_STATUS@,
            bytes: outcome@->Bytes_0,
        }),
        target@ is NotFound || (!(target@ is ReadFile) && !(outcome@ is Text)) ==> r@
            == (ReplyView::Text { status: NOT_FOUND_STATUS@, body: NOT_FOUND_BODY@ }),
        target@ is ReadFile && outcome@ is Failed ==> r@ == (ReplyView::Text {
            status: SERVER_ERROR_STATUS@,
            body: SERVER_ERROR_BODY@,
        }),
{
    let not_found = Reply::Text {
        status: NOT_FOUND_STATUS.to_owned(),
        body: NOT_FOUND_BODY.to_owned(),
    };
    match target {
        Target::NotFound => not_found,
        Target::ReadFile(_) => match outcome {
            Outcome::Text(t) => Reply::Text { status: OK_STATUS.to_owned(), body: t },
            Outcome::Bytes(b) => Reply::Bytes { status: OK_STATUS.to_owned(), bytes: b },
            Outcome::Failed => Reply::Text {
                status: SERVER_ERROR_STATUS.to_owned(),
                body: SERVER_ERROR_BODY.to_owned(),
            },
        },
        _ => match outcome {
            Outcome::Text(t) => Reply::Text { status: OK_STATUS.to_owned(), body: t },
            _ => not_found,
        },
    }
}

/// The bytes of a whole reply: the head with the body's length in bytes, then
/// the body (a text body in UTF-8).
pub open spec fn reply_bytes_of(reply: ReplyView) -> Seq<u8> {
    match reply {
        ReplyView::Text { status, body } => vstd::utf8::encode_utf8(
            head_text(status, vstd::utf8::encode_utf8(body).len()) + body,
        ),
        ReplyView::Bytes { status, bytes } => vstd::utf8::encode_utf8(
            head_text(status, bytes.len()),
        ) + bytes,
    }
}

/// Whether the byte length of a text body fits in a `usize`.
pub open spec fn reply_fits(reply: ReplyView) -> bool {
    match reply {
        ReplyView::Text { body, .. } => vstd::utf8::encode_utf8(body).len() <= usize::MAX,
        ReplyView::Bytes { .. } => true,
    }
}

/// The bytes to send for a reply.
pub fn reply_bytes(reply: Reply) -> (r: Vec<u8>)
    requires
        reply_fits(reply@),
    ensures
        r@ == reply_bytes_of(reply@),
{
    match reply {
        Reply::Text { status, body } => {
            let whole = text_response(status.as_str(), body.as_str());
            vstd::slice::slice_to_vec(whole.as_str().as_bytes())
        },
        Reply::Bytes { status, bytes } => {
            let head = response_head(status.as_str(), bytes.len());
            let mut r = vstd::slice::slice_to_vec(head.as_str().as_bytes());
            let mut b = bytes;
            r.append(&mut b);
            r
        },
    }
}

/// The path a reports page asks for to get the records of a database: the
/// master table when `table` is empty, else the named session table.
pub open spec fn db_request_path(db: Seq<char>, table: Seq<char>) -> Seq<char> {
    if table.len() == 0 {
        "db/"@ + db
    } else {
        "db/"@ + db + "/"@ + table
    }
}

/// A path segment with no whitespace, `?` or `/` in it.
pub open spec fn plain_segment(s: Seq<char>) -> bool {
    forall|k: int| 0 <= k < s.len() ==> !is_white_space(#[trigger] s[k]) && s[k] != '?' && s[k] != '/'
}

proof fn lemma_skip_non_white_run(s: Seq<char>, i: int, j: int)
    requires
        0 <= i <= j < s.len(),
        forall|k: int| i <= k < j ==> !is_white_space(#[trigger] s[k]),
        is_white_space(s[j]),
    ensures
        skip_non_white(s, i) == j,
    decreases j - i,
{
    if i < j {
        lemma_skip_non_white_run(s, i + 1, j);
    }
}

proof fn lemma_split_without_separator(s: Seq<char>, c: char)
    requires
        forall|k: int| 0 <= k < s.len() ==> #[trigger] s[k] != c,
    ensures
        split_char(s, c) == seq![s],
{
    lemma_find_char_absent(s, c, 0);
}

proof fn lemma_split_at(s: Seq<char>, c: char, k: int)
    requires
        0 <= k < s.len(),
        s[k] == c,
        forall|j: int| 0 <= j < k ==> #[trigger] s[j] != c,
    ensures
        split_char(s, c) == seq![s.take(k)] + split_char(s.skip(k + 1), c),
{
    lemma_find_char_bounds(s, c, 0);
    let f = find_char(s, c, 0);
    if f < k {
        assert(s[f] == c);
    }
}

/// A reports-page request for the records of a database is answered from
/// that database: the line `GET /db/<db>[/<table>] HTTP/1.1` routes to the
/// path after `GET /`, and that path targets `<db>.db` and the table (none
/// when it is left out), for names without whitespace, `?` or `/`.
pub proof fn lemma_database_request(db: Seq<char>, table: Seq<char>)
    requires
        plain_segment(db),
        plain_segment(table),
    ensures
        route_of("GET /"@ + db_request_path(db, table) + " HTTP/1.1"@) == RouteView::File(
            db_request_path(db, table),
        ),
        target_of(db_request_path(db, table)) == (TargetView::Database {
            file: db + ".db"@,
            table: table,
        }),
{
    reveal_strlit("GET /");
    reveal_strlit("db/");
    reveal_strlit("/");
    reveal_strlit(" HTTP/1.1");
    reveal_strlit("GET / HTTP/1.1");
    reveal_strlit("GET /?");
    reveal_strlit("GET /config HTTP/1.1");
    reveal_strlit("GET /list_db HTTP/1.1");
    reveal_strlit("GET /db/");
    reveal_strlit("db");
    let p = db_request_path(db, table);
    let line = "GET /"@ + p + " HTTP/1.1"@;
    let n = p.len() as int;
    assert(p[0] == 'd' && p[1] == 'b' && p[2] == '/');
    assert forall|k: int| 0 <= k < n implies !is_white_space(#[trigger] p[k]) && p[k] != '?' by {
        if k >= 3 && k < 3 + db.len() {
            assert(p[k] == db[k - 3]);
        } else if k >= 4 + db.len() {
            assert(p[k] == table[k - 4 - db.len()]);
        }
    }
    assert(line.len() == n + 14);
    assert forall|k: int| 0 <= k < n implies line[5 + k] == #[trigger] p[k] by {}
    assert(line[5] == 'd');
    assert(line[5 + n] == ' ');
    // the fixed routes differ at the sixth character
    assert(line != "GET / HTTP/1.1"@ && line != "GET /config HTTP/1.1"@ && line
        != "GET /list_db HTTP/1.1"@) by {
        assert("GET / HTTP/1.1"@[5] == ' ');
        assert("GET /config HTTP/1.1"@[5] == 'c');
        assert("GET /list_db HTTP/1.1"@[5] == 'l');
    }
    assert(!has_prefix(line, "GET /?"@)) by {
        if has_prefix(line, "GET /?"@) {
            assert(line.take(6)[5] == "GET /?"@[5]);
        }
    }
    assert(has_prefix(line, "GET /db/"@)) by {
        assert(line.take(8) =~= "GET /db/"@);
    }
    // byte 5 is character 5: the first five characters are ASCII
    assert(line[0] == 'G' && line[1] == 'E' && line[2] == 'T' && line[3] == ' ' && line[4] == '/');
    assert(prefix_bytes(line, 0) == 0);
    assert(prefix_bytes(line, 1) == 1);
    assert(prefix_bytes(line, 2) == 2);
    assert(prefix_bytes(line, 3) == 3);
    assert(prefix_bytes(line, 4) == 4);
    assert(prefix_bytes(line, 5) == 5);
    lemma_byte_boundary_unique(line, 5, 5);
    assert(skip_white(line, 5) == 5);
    assert forall|k: int| 5 <= k < 5 + n implies !is_white_space(#[trigger] line[k]) by {
        assert(line[k] == p[k - 5]);
    }
    lemma_skip_non_white_run(line, 5, 5 + n);
    assert(line.subrange(5, 5 + n) =~= p);
    // the target
    assert(has_prefix(p, "db"@)) by {
        assert(p.take(2) =~= "db"@);
    }
    lemma_find_char_absent(p, '?', 0);
    assert(before_char(p, '?') =~= p);
    lemma_split_at(p, '/', 2);
    assert(p.take(2) =~= "db"@);
    let rest = p.skip(3);
    if table.len() == 0 {
        assert(rest =~= db);
        lemma_split_without_separator(db, '/');
        let parts = split_char(p, '/');
        assert(parts =~= seq!["db"@, db]);
        assert(parts[1] == db);
        assert(table =~= Seq::<char>::empty());
    } else {
        assert(rest =~= db + seq!['/'] + table);
        assert forall|j: int| 0 <= j < db.len() implies #[trigger] rest[j] != '/' by {
            assert(rest[j] == db[j]);
        }
        lemma_split_at(rest, '/', db.len() as int);
        assert(rest.take(db.len() as int) =~= db);
        assert(rest.skip(db.len() as int + 1) =~= table);
        lemma_split_without_separator(table, '/');
        let parts = split_char(p, '/');
        assert(parts =~= seq!["db"@, db, table]);
        assert(parts[1] == db);
        assert(parts[2] == table);
    }
}

/// A fixed route is served whatever the server finds on disk: whether the web
/// file exists changes nothing, and the route targets its file name. The
/// reports page `GET /` is read from `web/index.html`.
pub proof fn lemma_fixed_routes_ignore_existence(f: Seq<char>)
    ensures
        resolved_target(RouteView::File(f), true) == resolved_target(RouteView::File(f), false),
        resolved_target(RouteView::File(f), false) == Some(target_of(f)),
        resolved_target(route_of("GET / HTTP/1.1"@), false) == Some(
            TargetView::ReadFile("web/index.html"@),
        ),
{
    reveal_strlit("web/index.html");
    reveal_strlit("db");
    reveal_strlit("list_db");
    let p = "web/index.html"@;
    assert(!has_prefix(p, "db"@)) by {
        assert(p.take(2)[0] == 'w');
    }
    assert(p != "list_db"@) by {
        assert(p.len() != "list_db"@.len());
    }
}

/// A web file is served when it exists and is not found when it does not.
pub proof fn lemma_web_files_need_existence(p: Seq<char>)
    ensures
        resolved_target(RouteView::FileIfPresent(p), true) == Some(target_of(p)),
        resolved_target(RouteView::FileIfPresent(p), false) == Some(TargetView::NotFound),
        resolved_target(RouteView::Malformed, true) is None,
{
}

/// Whatever the server fetched as text is sent with `200 OK` unchanged, for
/// every target that is found: database records, the list of databases, and
/// files.
pub proof fn lemma_fetched_text_is_sent(target: TargetView, t: Seq<char>)
    requires
        !(target is NotFound),
    ensures
        reply_of(target, OutcomeView::Text(t)) == (ReplyView::Text { status: OK_STATUS@, body: t }),
{
}

/// Failures are answered by target: a failed file read is a server error, a
/// failed database or list is not found, and a target that is not found is
/// answered not found whatever was fetched.
pub proof fn lemma_failed_replies(target: TargetView, outcome: OutcomeView)
    ensures
        target is ReadFile ==> reply_of(target, OutcomeView::Failed) == (ReplyView::Text {
            status: SERVER_ERROR_STATUS@,
            body: SERVER_ERROR_BODY@,
        }),
        (target is Database || target is ListDb) ==> reply_of(target, OutcomeView::Failed) == (
        ReplyView::Text { status: NOT_FOUND_STATUS@, body: NOT_FOUND_BODY@ }),
        target is NotFound ==> reply_of(target, outcome) == (ReplyView::Text {
            status: NOT_FOUND_STATUS@,
            body: NOT_FOUND_BODY@,
        }),
{
}

} // verus!
