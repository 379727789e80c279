//! Explicit, read-only classroom file sharing: which addresses may serve,
//! the materials page, and how a request is routed. No filesystem path is
//! accepted over HTTP: a file is looked up by its identifier only.
use vstd::prelude::*;
use crate::model::{replace_all, replace_text};
use crate::text::{chars_of, owned, push_char, push_str, string_of};

verus! {

#[verifier::external_type_specification]
#[verifier::external_body]
pub struct ExPathBuf(std::path::PathBuf);

/// A shared file: its identifier, its display name, its size in bytes and
/// where it is read from.
#[derive(Debug)]
pub struct Item {
    pub id: String,
    pub name: String,
    pub size: u64,
    pub path: std::path::PathBuf,
}

/// What the sharing window shows.
pub struct Status {
    pub running: bool,
    pub url: String,
    pub address: String,
    pub qr: String,
    pub files: Vec<Item>,
    pub live: bool,
    pub live_error: String,
}

/// A private (10/8, 172.16/12, 192.168/16), link-local (169.254/16) or
/// loopback (127/8) IPv4 address.
pub open spec fn lan_address(o: [u8; 4]) -> bool {
    ||| o[0] == 10
    ||| (o[0] == 172 && 16 <= o[1] <= 31)
    ||| (o[0] == 192 && o[1] == 168)
    ||| (o[0] == 169 && o[1] == 254)
    ||| o[0] == 127
}

/// Whether the server may listen on, or answer, the IPv4 address with these
/// octets.
pub fn allowed(octets: [u8; 4]) -> (r: bool)
    ensures
        r == lan_address(octets),
{
    let a = octets[0];
    let b = octets[1];
    a == 10 || (a == 172 && 16 <= b && b <= 31) || (a == 192 && b == 168) || (a == 169 && b == 254)
        || a == 127
}

/// HTML-escapes one character.
pub open spec fn escape_char(c: char) -> Seq<char> {
    if c == '&' {
        "&amp;"@
    } else if c == '<' {
        "&lt;"@
    } else if c == '>' {
        "&gt;"@
    } else if c == '"' {
        "&quot;"@
    } else if c == '\'' {
        "&#39;"@
    } else {
        seq![c]
    }
}

/// `s` with `&`, `<`, `>`, `"` and `'` written as HTML character references.
pub open spec fn escaped(s: Seq<char>) -> Seq<char>
    decreases s.len(),
{
    if s.len() == 0 {
        seq![]
    } else {
        escaped(s.drop_last()) + escape_char(s.last())
    }
}

/// Escapes text for HTML.
pub fn escape(s: &str) -> (r: String)
    ensures
        r@ == escaped(s@),
{
    let cs = chars_of(s);
    let mut r = String::new();
    let mut i: usize = 0;
    while i < cs.len()
        invariant
            i <= cs@.len(),
            cs@ == s@,
            r@ == escaped(cs@.take(i as int)),
        decreases cs.len() - i,
    {
        let c = cs[i];
        if c == '&' {
            push_str(&mut r, "&amp;");
        } else if c == '<' {
            push_str(&mut r, "&lt;");
        } else if c == '>' {
            push_str(&mut r, "&gt;");
        } else if c == '"' {
            push_str(&mut r, "&quot;");
        } else if c == '\'' {
            push_str(&mut r, "&#39;");
        } else {
            push_char(&mut r, c);
        }
        assert(cs@.take(i + 1).drop_last() =~= cs@.take(i as int));
        i += 1;
    }
    assert(cs@.take(cs.len() as int) =~= cs@);
    r
}

/// The decimal digits of `n`.
pub open spec fn decimal_text(n: nat) -> Seq<char>
    decreases n,
{
    if n < 10 {
        seq![('0' as u8 + n as u8) as char]
    } else {
        decimal_text(n / 10) + seq![('0' as u8 + (n % 10) as u8) as char]
    }
}

/// Writes `n` in decimal.
pub fn decimal_string(n: u64) -> (r: String)
    ensures
        r@ == decimal_text(n as nat),
    decreases n,
{
    if n < 10 {
        let mut r = String::new();
        push_char(&mut r, ((48u8 + n as u8)) as char);
        assert(r@ =~= decimal_text(n as nat));
        r
    } else {
        let mut r = decimal_string(n / 10);
        push_char(&mut r, ((48u8 + (n % 10) as u8)) as char);
        assert(r@ =~= decimal_text(n as nat));
        r
    }
}

/// Bytes per MiB.
pub const MIB: u64 = 1_048_576;

/// Tenths of a MiB in `size` bytes, rounded to nearest with ties to even, as
/// `{:.1}` rounds the exact quotient.
pub open spec fn tenths(size: nat) -> nat {
    let q = size * 10 / (MIB as nat);
    let rem = size * 10 % (MIB as nat);
    if rem > MIB / 2 || (rem == MIB / 2 && q % 2 == 1) {
        q + 1
    } else {
        q
    }
}

/// `size` bytes in MiB with one decimal.
pub open spec fn mib_text(size: nat) -> Seq<char> {
    let t = tenths(size);
    decimal_text(t / 10) + seq!['.'] + decimal_text(t % 10)
}

/// Writes `size` bytes in MiB with one decimal, as `{:.1}` writes
/// `size as f64 / 1048576.`.
pub fn mib_string(size: u64) -> (r: String)
    requires
        size <= u64::MAX / 10,
    ensures
        r@ == mib_text(size as nat),
{
    let scaled = size * 10;
    let q = scaled / MIB;
    let rem = scaled % MIB;
    let t = if rem > MIB / 2 || (rem == MIB / 2 && q % 2 == 1) {
        q + 1
    } else {
        q
    };
    let mut r = decimal_string(t / 10);
    push_char(&mut r, '.');
    let d = decimal_string(t % 10);
    push_str(&mut r, d.as_str());
    r
}

/// One entry of the materials list.
pub open spec fn row_html(id: Seq<char>, name: Seq<char>, size: nat) -> Seq<char> {
    "<li><a href=\"file/"@ + id + "\">"@ + escaped(name) + "</a><small>"@ + mib_text(size)
        + " MB</small></li>"@
}

pub open spec fn rows_html(items: Seq<(Seq<char>, Seq<char>, u64)>) -> Seq<char>
    decreases items.len(),
{
    if items.len() == 0 {
        seq![]
    } else {
        rows_html(items.drop_last()) + row_html(items.last().0, items.last().1, items.last().2 as nat)
    }
}

pub open spec fn items_view(items: Seq<Item>) -> Seq<(Seq<char>, Seq<char>, u64)> {
    items.map_values(|f: Item| (f.id@, f.name@, f.size))
}

/// The part of the materials page before the list.
pub open spec fn page_head() -> Seq<char> {
    "<!doctype html><html lang=\"en\"><meta charset=\"utf-8\"><meta name=\"viewport\" content=\"width=device-width,initial-scale=1\"><title>Pointory · Class materials</title><style>body{font:17px system-ui;background:#edf3fa;color:#152840;max-width:720px;margin:8vh auto;padding:24px}h1{color:#2368cc}li{background:white;padding:20px;margin:12px 0;border-radius:14px;overflow-wrap:anywhere}ul{padding:0;list-style:none}a{color:#1759b5}small{display:block;margin-top:8px;color:#526278}</style><h1>Pointory</h1><h2>Class materials · 수업 자료</h2><p>Choose a file to download. 파일을 선택해 내려받으세요.</p><ul>"@
}

/// The note shown when nothing is shared.
pub open spec fn empty_note() -> Seq<char> {
    "No materials yet. 아직 공유된 자료가 없습니다."@
}

/// The part of the materials page after the list and the note.
pub open spec fn page_tail() -> Seq<char> {
    "</p><p><a href=\"./\">Refresh · 새로고침</a></p><footer>Shared by this PC while Pointory sharing is on.<br>강사 PC에서 공유를 켠 동안 이용할 수 있습니다.</footer></html>"@
}

/// The materials page for the shared files, in the given order.
pub open spec fn page_html(items: Seq<(Seq<char>, Seq<char>, u64)>) -> Seq<char> {
    page_head() + rows_html(items) + "</ul><p>"@ + (if items.len() == 0 {
        empty_note()
    } else {
        seq![]
    }) + page_tail()
}

/// No file is as large as 2^53 bytes, so a size converts to `f64` exactly.
pub open spec fn sizes_exact(items: Seq<Item>) -> bool {
    forall|i: int| 0 <= i < items.len() ==> (#[trigger] items[i]).size <= 0x20_0000_0000_0000
}

/// The materials page listing `files` (in order of their identifiers).
pub fn page(files: &[Item]) -> (r: String)
    requires
        sizes_exact(files@),
    ensures
        r@ == page_html(items_view(files@)),
{
    let ghost iv = items_view(files@);
    let mut rows = String::new();
    let mut i: usize = 0;
    while i < files.len()
        invariant
            i <= files@.len(),
            iv == items_view(files@),
            sizes_exact(files@),
            rows@ == rows_html(iv.take(i as int)),
        decreases files.len() - i,
    {
        let f = &files[i];
        assert(iv[i as int] == (f.id@, f.name@, f.size));
        assert(f.size <= 0x20_0000_0000_0000);
        push_str(&mut rows, "<li><a href=\"file/");
        push_str(&mut rows, f.id.as_str());
        push_str(&mut rows, "\">");
        let name = escape(f.name.as_str());
        push_str(&mut rows, name.as_str());
        push_str(&mut rows, "</a><small>");
        let mb = mib_string(f.size);
        push_str(&mut rows, mb.as_str());
        push_str(&mut rows, " MB</small></li>");
        assert(iv.take(i + 1).drop_last() =~= iv.take(i as int));
        assert(iv.take(i + 1).last() == iv[i as int]);
        i += 1;
    }
    assert(iv.take(files.len() as int) =~= iv);
    let mut r = String::new();
    push_str(
        &mut r,
        "<!doctype html><html lang=\"en\"><meta charset=\"utf-8\"><meta name=\"viewport\" content=\"width=device-width,initial-scale=1\"><title>Pointory · Class materials</title><style>body{font:17px system-ui;background:#edf3fa;color:#152840;max-width:720px;margin:8vh auto;padding:24px}h1{color:#2368cc}li{background:white;padding:20px;margin:12px 0;border-radius:14px;overflow-wrap:anywhere}ul{padding:0;list-style:none}a{color:#1759b5}small{display:block;margin-top:8px;color:#526278}</style><h1>Pointory</h1><h2>Class materials · 수업 자료</h2><p>Choose a file to download. 파일을 선택해 내려받으세요.</p><ul>",
    );
    push_str(&mut r, rows.as_str());
    push_str(&mut r, "</ul><p>");
    if files.len() == 0 {
        push_str(&mut r, "No materials yet. 아직 공유된 자료가 없습니다.");
    }
    push_str(
        &mut r,
        "</p><p><a href=\"./\">Refresh · 새로고침</a></p><footer>Shared by this PC while Pointory sharing is on.<br>강사 PC에서 공유를 켠 동안 이용할 수 있습니다.</footer></html>",
    );
    proof {
        if files.len() == 0 {
            assert(r@ =~= page_html(iv));
        } else {
            assert(r@ =~= page_html(iv));
        }
    }
    r
}

/// The live-view section inserted before the list on the index page.
pub open spec fn live_section() -> Seq<char> {
    "<section><h2>Live view · 실시간 화면</h2><p id=\"liveStatus\">Waiting · 대기</p><img id=\"live\" alt=\"Instructor screen · 강사 화면\" style=\"width:100%;display:none\"><script src=\"viewer.js\" defer></script></section><ul>"@
}

/// The index page that the server answers: the materials page with the
/// live-view section before the list.
pub fn index_page(files: &[Item]) -> (r: String)
    requires
        sizes_exact(files@),
    ensures
        r@ == replace_all(page_html(items_view(files@)), "<ul>"@, live_section()),
{
    let p = page(files);
    proof {
        reveal_strlit("<ul>");
    }
    replace_text(
        p.as_str(),
        "<ul>",
        "<section><h2>Live view · 실시간 화면</h2><p id=\"liveStatus\">Waiting · 대기</p><img id=\"live\" alt=\"Instructor screen · 강사 화면\" style=\"width:100%;display:none\"><script src=\"viewer.js\" defer></script></section><ul>",
    )
}

/// Whether a character opens or closes HTML markup or an attribute value.
pub open spec fn markup_char(c: char) -> bool {
    c == '<' || c == '>' || c == '"' || c == '\''
}

proof fn lemma_escape_char_plain(c: char)
    ensures
        forall|i: int| 0 <= i < escape_char(c).len() ==> !markup_char(#[trigger] escape_char(c)[i]),
{
    reveal_strlit("&amp;");
    reveal_strlit("&lt;");
    reveal_strlit("&gt;");
    reveal_strlit("&quot;");
    reveal_strlit("&#39;");
}

/// Escaped text holds no character that could open a tag or end an
/// attribute value, whatever the name of a shared file is.
pub proof fn lemma_escaped_has_no_markup(s: Seq<char>)
    ensures
        forall|i: int| 0 <= i < escaped(s).len() ==> !markup_char(#[trigger] escaped(s)[i]),
    decreases s.len(),
{
    if s.len() > 0 {
        lemma_escaped_has_no_markup(s.drop_last());
        lemma_escape_char_plain(s.last());
        let a = escaped(s.drop_last());
        let b = escape_char(s.last());
        assert forall|i: int| 0 <= i < escaped(s).len() implies !markup_char(#[trigger] escaped(s)[i]) by {
            if i < a.len() {
                assert(escaped(s)[i] == a[i]);
            } else {
                assert(escaped(s)[i] == b[i - a.len()]);
            }
        }
    }
}

/// Only a `GET` addressed to this server's own host and under the session
/// token is answered with content: the index, the viewer script, the live
/// frame or a shared file.
pub proof fn lemma_served_requests_carry_the_token(req: Seq<char>, token: Seq<char>, host: Seq<char>)
    requires
        ({
            let r = route_of(req, token, host);
            r is ViewerScript || r is LiveFrame || r is Index || r is File
        }),
    ensures
        ({
            let ls = lines(req);
            let parts = words(ls[0]);
            let prefix = seq!['/'] + token + seq!['/'];
            &&& parts.len() == 3
            &&& parts[0] == "GET"@
            &&& host_values(ls.skip(1)) == seq![host]
            &&& crate::model::starts_with_spec(parts[1], prefix)
        }),
{
}

} // verus!

verus! {

// ---------------------------------------------------------------------------
// Routing a request

/// What the server does with a request.
#[derive(Clone, Debug, PartialEq, Eq)]
pub enum Route {
    /// The request is not UTF-8 text: the connection is closed unanswered.
    Ignore,
    /// Anything but a well-formed `GET`: `405 Method Not Allowed`.
    MethodNotAllowed,
    /// No `Host` header, several, or one naming another host: `403 Forbidden`.
    Forbidden,
    /// Outside the session's token, or an unknown route: `404 Not Found`.
    NotFound,
    /// The live-view script.
    ViewerScript,
    /// The latest live frame.
    LiveFrame,
    /// The index page.
    Index,
    /// The shared file with this identifier, if it is still shared.
    File(String),
}

/// The mathematical value of a `Route`.
pub enum RouteView {
    Ignore,
    MethodNotAllowed,
    Forbidden,
    NotFound,
    ViewerScript,
    LiveFrame,
    Index,
    File(Seq<char>),
}

impl View for Route {
    type V = RouteView;

    open spec fn view(&self) -> RouteView {
        match self {
            Route::Ignore => RouteView::Ignore,
            Route::MethodNotAllowed => RouteView::MethodNotAllowed,
            Route::Forbidden => RouteView::Forbidden,
            Route::NotFound => RouteView::NotFound,
            Route::ViewerScript => RouteView::ViewerScript,
            Route::LiveFrame => RouteView::LiveFrame,
            Route::Index => RouteView::Index,
            Route::File(id) => RouteView::File(id@),
        }
    }
}

/// A CRLF pair starts at `i`.
pub open spec fn crlf_at(s: Seq<char>, i: int) -> bool {
    0 <= i && i + 1 < s.len() && s[i] == '\r' && s[i + 1] == '\n'
}

/// The first CRLF at or after `i`, or -1.
pub open spec fn crlf_index(s: Seq<char>, i: int) -> int
    decreases s.len() - i,
{
    if i < 0 || i + 1 >= s.len() {
        -1
    } else if crlf_at(s, i) {
        i
    } else {
        crlf_index(s, i + 1)
    }
}

/// The lines of `s` separated by CRLF, as `str::split("\r\n")` yields them.
pub open spec fn lines(s: Seq<char>) -> Seq<Seq<char>>
    decreases s.len(),
{
    let k = crlf_index(s, 0);
    if k < 0 {
        seq![s]
    } else {
        proof {
            lemma_crlf_index_range(s, 0);
        }
        seq![s.take(k)] + lines(s.skip(k + 2))
    }
}

/// The search for a line break from `i` finds none, or one at or after `i`.
pub proof fn lemma_crlf_index_range(s: Seq<char>, i: int)
    ensures
        crlf_index(s, i) == -1 || (i <= crlf_index(s, i) && crlf_at(s, crlf_index(s, i))),
    decreases s.len() - i,
{
    if i >= 0 && i + 1 < s.len() && !crlf_at(s, i) {
        lemma_crlf_index_range(s, i + 1);
    }
}

proof fn lemma_crlf_index_found(s: Seq<char>, j: int, k: int)
    requires
        0 <= j <= k,
        forall|m: int| j <= m < k ==> !crlf_at(s, m),
        crlf_at(s, k),
    ensures
        crlf_index(s, j) == k,
    decreases k - j,
{
    if j < k {
        lemma_crlf_index_found(s, j + 1, k);
    }
}

proof fn lemma_crlf_index_none(s: Seq<char>, j: int)
    requires
        0 <= j,
        forall|m: int| j <= m ==> !crlf_at(s, m),
    ensures
        crlf_index(s, j) == -1,
    decreases s.len() - j,
{
    if j + 1 < s.len() {
        lemma_crlf_index_none(s, j + 1);
    }
}

/// Length of the run of non-whitespace characters at the start of `s`.
pub open spec fn run_len(s: Seq<char>) -> nat
    decreases s.len(),
{
    if s.len() > 0 && !crate::text::is_space(s[0]) {
        1 + run_len(s.drop_first())
    } else {
        0
    }
}

/// The words of `s`, as `str::split_whitespace` yields them.
pub open spec fn words(s: Seq<char>) -> Seq<Seq<char>>
    decreases s.len(),
{
    if s.len() == 0 {
        seq![]
    } else if crate::text::is_space(s[0]) {
        words(s.drop_first())
    } else {
        proof {
            lemma_run_len(s);
        }
        seq![s.take(run_len(s) as int)] + words(s.skip(run_len(s) as int))
    }
}

/// A leading run of non-space characters lies within the text, is not
/// empty when the text starts with a non-space, and holds no space.
pub proof fn lemma_run_len(s: Seq<char>)
    ensures
        run_len(s) <= s.len(),
        s.len() > 0 && !crate::text::is_space(s[0]) ==> run_len(s) >= 1,
        forall|i: int| 0 <= i < run_len(s) ==> !crate::text::is_space(#[trigger] s[i]),
        run_len(s) < s.len() ==> crate::text::is_space(s[run_len(s) as int]),
    decreases s.len(),
{
    if s.len() > 0 && !crate::text::is_space(s[0]) {
        lemma_run_len(s.drop_first());
        assert forall|i: int| 0 <= i < run_len(s) implies !crate::text::is_space(#[trigger] s[i]) by {
            if i > 0 {
                assert(s[i] == s.drop_first()[i - 1]);
            }
        }
    }
}

proof fn lemma_run_len_exact(s: Seq<char>, n: int)
    requires
        0 <= n <= s.len(),
        forall|i: int| 0 <= i < n ==> !crate::text::is_space(#[trigger] s[i]),
        n < s.len() ==> crate::text::is_space(s[n]),
    ensures
        run_len(s) == n,
    decreases n,
{
    if n > 0 {
        let t = s.drop_first();
        assert forall|i: int| 0 <= i < n - 1 implies !crate::text::is_space(#[trigger] t[i]) by {
            assert(t[i] == s[i + 1]);
        }
        if n - 1 < t.len() {
            assert(t[n - 1] == s[n]);
        }
        lemma_run_len_exact(t, n - 1);
    }
}

/// The value of a `Host` header line (name compared without regard to ASCII
/// case, value trimmed), if the line is one.
pub open spec fn header_host(line: Seq<char>) -> Option<Seq<char>> {
    if exists|i: int| 0 <= i < line.len() && line[i] == ':' {
        let i = choose|i: int| 0 <= i < line.len() && line[i] == ':' && forall|j: int| 0 <= j < i ==> line[j] != ':';
        let key = line.take(i);
        if key.len() == 4 && crate::profile::ascii_lower(key[0]) == 'h' && crate::profile::ascii_lower(key[1]) == 'o'
            && crate::profile::ascii_lower(key[2]) == 's' && crate::profile::ascii_lower(key[3]) == 't' {
            Some(crate::text::trimmed(line.skip(i + 1)))
        } else {
            None
        }
    } else {
        None
    }
}

/// The values of the `Host` headers among `ls`, in order.
pub open spec fn host_values(ls: Seq<Seq<char>>) -> Seq<Seq<char>>
    decreases ls.len(),
{
    if ls.len() == 0 {
        seq![]
    } else {
        host_values(ls.drop_last()) + match header_host(ls.last()) {
            Some(v) => seq![v],
            None => seq![],
        }
    }
}

/// Where a request path under the session prefix leads.
pub open spec fn route_of_rest(rest: Seq<char>) -> RouteView {
    if rest == "viewer.js"@ {
        RouteView::ViewerScript
    } else if rest == "live.jpg"@ {
        RouteView::LiveFrame
    } else if rest.len() == 0 {
        RouteView::Index
    } else if rest.len() >= 5 && rest.take(5) == "file/"@ {
        RouteView::File(rest.skip(5))
    } else {
        RouteView::NotFound
    }
}

/// The decision for request text `req`, for a server at `host` whose
/// routes live under `/token/`.
pub open spec fn route_of(req: Seq<char>, token: Seq<char>, host: Seq<char>) -> RouteView {
    let ls = lines(req);
    let parts = words(ls[0]);
    let prefix = seq!['/'] + token + seq!['/'];
    if parts.len() != 3 || parts[0] != "GET"@ {
        RouteView::MethodNotAllowed
    } else if host_values(ls.skip(1)) != seq![host] {
        RouteView::Forbidden
    } else if !(prefix.len() <= parts[1].len() && parts[1].take(prefix.len() as int) == prefix) {
        RouteView::NotFound
    } else {
        route_of_rest(parts[1].skip(prefix.len() as int))
    }
}

} // verus!

verus! {

/// Calls `std::str::from_utf8`, which accepts exactly the valid UTF-8 byte
/// strings and decodes them; the text is then copied into a `String`.
#[verifier::external_body]
pub(crate) fn utf8_text(bytes: &[u8]) -> (r: Option<String>)
    ensures
        r is Some <==> vstd::utf8::valid_utf8(bytes@),
        r matches Some(s) ==> s@ == vstd::utf8::decode_utf8(bytes@),
{
    std::str::from_utf8(bytes).ok().map(|s| s.to_owned())
}

fn slice_chars(cs: &[char], from: usize, to: usize) -> (r: Vec<char>)
    requires
        from <= to <= cs@.len(),
    ensures
        r@ == cs@.subrange(from as int, to as int),
{
    let mut r: Vec<char> = Vec::new();
    let mut i = from;
    while i < to
        invariant
            from <= i <= to,
            to <= cs@.len(),
            r@ == cs@.subrange(from as int, i as int),
        decreases to - i,
    {
        r.push(cs[i]);
        i += 1;
        assert(r@ =~= cs@.subrange(from as int, i as int));
    }
    r
}

proof fn lemma_chars_view_push(v: Seq<Vec<char>>, x: Vec<char>)
    ensures
        crate::fonts::chars_view(v.push(x)) == crate::fonts::chars_view(v).push(x@),
{
    assert(crate::fonts::chars_view(v.push(x)) =~= crate::fonts::chars_view(v).push(x@));
}

/// The CRLF-separated lines of `cs`.
fn split_lines(cs: &[char]) -> (r: Vec<Vec<char>>)
    ensures
        crate::fonts::chars_view(r@) == lines(cs@),
        r@.len() > 0,
{
    let mut out: Vec<Vec<char>> = Vec::new();
    let mut st: usize = 0;
    let mut i: usize = 0;
    assert(cs@.skip(0) =~= cs@);
    assert(crate::fonts::chars_view(out@) + lines(cs@) =~= lines(cs@));
    while i < cs.len() && i + 1 < cs.len()
        invariant
            st <= i <= cs@.len(),
            lines(cs@) == crate::fonts::chars_view(out@) + lines(cs@.skip(st as int)),
            forall|m: int| st <= m < i ==> !crlf_at(cs@, m),
        decreases cs.len() - i,
    {
        if cs[i] == '\r' && cs[i + 1] == '\n' {
            let line = slice_chars(cs, st, i);
            proof {
                let t = cs@.skip(st as int);
                assert forall|m: int| 0 <= m < i - st implies !crlf_at(t, m) by {
                    assert(!crlf_at(cs@, st + m));
                }
                assert(crlf_at(t, i - st));
                lemma_crlf_index_found(t, 0, i - st);
                assert(t.take(i - st) =~= line@);
                assert(t.skip(i - st + 2) =~= cs@.skip(i + 2));
                assert(lines(t) == seq![t.take(i - st)] + lines(t.skip(i - st + 2)));
                lemma_chars_view_push(out@, line);
                assert(crate::fonts::chars_view(out@.push(line)) + lines(cs@.skip(i + 2)) =~= crate::fonts::chars_view(out@) + lines(t));
            }
            out.push(line);
            st = i + 2;
            i = i + 2;
        } else {
            i += 1;
        }
    }
    let last = slice_chars(cs, st, cs.len());
    proof {
        let t = cs@.skip(st as int);
        assert forall|m: int| 0 <= m implies !crlf_at(t, m) by {
            if m + 1 < t.len() {
                assert(!crlf_at(cs@, st + m));
            }
        }
        lemma_crlf_index_none(t, 0);
        assert(t =~= last@);
        assert(lines(t) == seq![t]);
        lemma_chars_view_push(out@, last);
        assert(crate::fonts::chars_view(out@.push(last)) =~= crate::fonts::chars_view(out@) + lines(t));
    }
    out.push(last);
    out
}

/// The whitespace-separated words of `line`.
fn split_words(line: &[char]) -> (r: Vec<Vec<char>>)
    ensures
        crate::fonts::chars_view(r@) == words(line@),
{
    let mut out: Vec<Vec<char>> = Vec::new();
    let mut i: usize = 0;
    assert(line@.skip(0) =~= line@);
    assert(crate::fonts::chars_view(out@) + words(line@) =~= words(line@));
    while i < line.len()
        invariant
            i <= line@.len(),
            words(line@) == crate::fonts::chars_view(out@) + words(line@.skip(i as int)),
        decreases line.len() - i,
    {
        if crate::text::char_is_space(line[i]) {
            assert(line@.skip(i as int).drop_first() =~= line@.skip(i + 1));
            i += 1;
        } else {
            let mut j = i;
            while j < line.len() && !crate::text::char_is_space(line[j])
                invariant
                    i <= j <= line@.len(),
                    forall|m: int| i <= m < j ==> !crate::text::is_space(#[trigger] line@[m]),
                decreases line.len() - j,
            {
                j += 1;
            }
            let w = slice_chars(line, i, j);
            proof {
                let t = line@.skip(i as int);
                assert forall|m: int| 0 <= m < j - i implies !crate::text::is_space(#[trigger] t[m]) by {
                    assert(t[m] == line@[i + m]);
                }
                if j < line.len() {
                    assert(t[j - i] == line@[j as int]);
                }
                lemma_run_len_exact(t, j - i);
                assert(t.take(j - i) =~= w@);
                assert(t.skip(j - i) =~= line@.skip(j as int));
                lemma_chars_view_push(out@, w);
                assert(crate::fonts::chars_view(out@.push(w)) + words(line@.skip(j as int)) =~= crate::fonts::chars_view(out@) + words(t));
            }
            out.push(w);
            i = j;
        }
    }
    assert(line@.skip(line.len() as int) =~= Seq::<char>::empty());
    assert(crate::fonts::chars_view(out@) + Seq::<Seq<char>>::empty() =~= crate::fonts::chars_view(out@));
    out
}

/// The value of a `Host` header line, if the line is one.
fn header_host_exec(line: &[char]) -> (r: Option<Vec<char>>)
    ensures
        match (r, header_host(line@)) {
            (Some(v), Some(w)) => v@ == w,
            (None, None) => true,
            _ => false,
        },
{
    let mut p: usize = 0;
    while p < line.len() && line[p] != ':'
        invariant
            p <= line@.len(),
            forall|j: int| 0 <= j < p ==> line@[j] != ':',
        decreases line.len() - p,
    {
        p += 1;
    }
    if p == line.len() {
        return None;
    }
    proof {
        let i = choose|i: int| 0 <= i < line@.len() && line@[i] == ':' && forall|j: int| 0 <= j < i ==> line@[j] != ':';
        assert(line@[p as int] == ':');
        if i < p {
            assert(line@[i] != ':');
        }
        if i > p {
            assert(line@[p as int] != ':');
        }
        assert(i == p);
    }
    let key_ok = p == 4 && crate::profile::lower_char(line[0]) == 'h' && crate::profile::lower_char(line[1]) == 'o'
        && crate::profile::lower_char(line[2]) == 's' && crate::profile::lower_char(line[3]) == 't';
    if !key_ok {
        return None;
    }
    let value = slice_chars(line, p + 1, line.len());
    assert(value@ =~= line@.skip(p + 1));
    Some(crate::text::trim_chars(&value))
}

/// Decides what to answer to a request, given the server's address `host`
/// and its session token.
pub fn route(request: &[u8], token: &str, host: &str) -> (r: Route)
    ensures
        !vstd::utf8::valid_utf8(request@) ==> r@ == RouteView::Ignore,
        vstd::utf8::valid_utf8(request@) ==> r@ == route_of(
            vstd::utf8::decode_utf8(request@),
            token@,
            host@,
        ),
{
    let text = match utf8_text(request) {
        Some(t) => t,
        None => return Route::Ignore,
    };
    let cs = chars_of(text.as_str());
    let ls = split_lines(&cs);
    let ghost lv = crate::fonts::chars_view(ls@);
    let parts = split_words(&ls[0]);
    let ghost pv = crate::fonts::chars_view(parts@);
    assert(lv[0] == ls@[0]@);
    let get = chars_of("GET");
    if parts.len() != 3 || !crate::text::seq_eq(&parts[0], &get) {
        proof {
            if parts@.len() == 3 {
                assert(pv[0] == parts@[0]@);
            }
        }
        return Route::MethodNotAllowed;
    }
    assert(pv[0] == parts@[0]@);
    assert(pv[1] == parts@[1]@);
    // The Host headers.
    let mut hosts: Vec<Vec<char>> = Vec::new();
    let mut k: usize = 1;
    assert(lv.skip(1).take(0) =~= Seq::<Seq<char>>::empty());
    while k < ls.len()
        invariant
            1 <= k <= ls@.len(),
            lv == crate::fonts::chars_view(ls@),
            crate::fonts::chars_view(hosts@) == host_values(lv.skip(1).take(k - 1)),
        decreases ls.len() - k,
    {
        let h = header_host_exec(&ls[k]);
        proof {
            let pre = lv.skip(1).take(k - 1);
            let nxt = lv.skip(1).take(k as int);
            assert(nxt.drop_last() =~= pre);
            assert(nxt.last() == ls@[k as int]@);
        }
        match h {
            Some(v) => {
                proof {
                    lemma_chars_view_push(hosts@, v);
                }
                hosts.push(v);
            },
            None => {},
        }
        k += 1;
    }
    assert(lv.skip(1).take(ls.len() - 1) =~= lv.skip(1));
    let host_chars = chars_of(host);
    if hosts.len() != 1 || !crate::text::seq_eq(&hosts[0], &host_chars) {
        proof {
            let hv = crate::fonts::chars_view(hosts@);
            if hv.len() == 1 {
                assert(hv[0] == hosts@[0]@);
                if hv == seq![host@] {
                    assert(hv[0] == host@);
                }
            }
        }
        return Route::Forbidden;
    }
    assert(crate::fonts::chars_view(hosts@) =~= seq![host@]);
    let mut prefix: Vec<char> = Vec::new();
    prefix.push('/');
    let tc = chars_of(token);
    let mut t: usize = 0;
    while t < tc.len()
        invariant
            t <= tc@.len(),
            prefix@ == seq!['/'] + tc@.take(t as int),
        decreases tc.len() - t,
    {
        prefix.push(tc[t]);
        t += 1;
        assert(prefix@ =~= seq!['/'] + tc@.take(t as int));
    }
    prefix.push('/');
    assert(tc@.take(tc@.len() as int) =~= tc@);
    assert(prefix@ =~= seq!['/'] + token@ + seq!['/']);
    if !crate::text::starts_with(&parts[1], &prefix) {
        return Route::NotFound;
    }
    let rest = slice_chars(&parts[1], prefix.len(), parts[1].len());
    assert(rest@ =~= pv[1].skip(prefix@.len() as int));
    if crate::text::seq_eq(&rest, &chars_of("viewer.js")) {
        return Route::ViewerScript;
    }
    if crate::text::seq_eq(&rest, &chars_of("live.jpg")) {
        return Route::LiveFrame;
    }
    if rest.len() == 0 {
        return Route::Index;
    }
    let file = chars_of("file/");
    proof {
        reveal_strlit("file/");
    }
    if crate::text::starts_with(&rest, &file) {
        let id = slice_chars(&rest, 5, rest.len());
        assert(id@ =~= rest@.skip(5));
        return Route::File(string_of(&id));
    }
    Route::NotFound
}

/// The live screen view: whether it is on, the generation of its capture
/// loop, the latest JPEG frame and the last capture error.
pub struct Live {
    pub enabled: bool,
    pub generation: u64,
    pub frame: Vec<u8>,
    pub error: String,
}

impl Live {
    /// A live view that is off, with no frame and no error.
    pub fn new() -> (r: Self)
        ensures
            !r.enabled,
            r.generation == 0,
            r.frame@.len() == 0,
            r.error@.len() == 0,
    {
        Live { enabled: false, generation: 0, frame: Vec::new(), error: String::new() }
    }

    /// Turns the live view off, ends the running capture loop and drops the
    /// last frame, so that no earlier picture is served afterwards.
    pub fn stop(&mut self)
        ensures
            !final(self).enabled,
            final(self).generation == crate::spotlight::next_generation(old(self).generation),
            final(self).frame@.len() == 0,
            final(self).error == old(self).error,
    {
        self.enabled = false;
        self.generation = crate::spotlight::advance(self.generation);
        self.frame = Vec::new();
    }

    /// Stores a frame captured by the loop of `generation`, unless the view
    /// was turned off or restarted meanwhile. Returns whether it was kept.
    pub fn offer_frame(&mut self, generation: u64, frame: Vec<u8>) -> (r: bool)
        ensures
            r == (old(self).enabled && old(self).generation == generation),
            r ==> final(self).frame@ == frame@,
            !r ==> final(self).frame@ == old(self).frame@,
            final(self).enabled == old(self).enabled,
            final(self).generation == old(self).generation,
            final(self).error == old(self).error,
    {
        if self.enabled && self.generation == generation {
            self.frame = frame;
            true
        } else {
            false
        }
    }

    /// The frame to serve at `live.jpg`: none while the view is off or has no
    /// frame yet.
    pub fn served_frame(&self) -> (r: Option<&Vec<u8>>)
        ensures
            r is Some <==> (self.enabled && self.frame@.len() > 0),
            r matches Some(f) ==> f@ == self.frame@,
    {
        if self.enabled && self.frame.len() > 0 {
            Some(&self.frame)
        } else {
            None
        }
    }
}

/// After `stop`, no frame is served until a new loop delivers one.
pub proof fn lemma_stopped_view_serves_nothing(before: Live, after: Live)
    requires
        !after.enabled,
        after.generation == crate::spotlight::next_generation(before.generation),
        after.frame@.len() == 0,
    ensures
        !(after.enabled && after.frame@.len() > 0),
{
}

// ---------------------------------------------------------------------------
// Responses

/// The security headers every response carries after its length.
pub open spec fn fixed_headers() -> Seq<char> {
    "\r\nConnection: close\r\nCache-Control: no-store\r\nX-Content-Type-Options: nosniff\r\nReferrer-Policy: no-referrer\r\nContent-Security-Policy: default-src 'none'; style-src 'unsafe-inline'; img-src 'self' blob:; script-src 'self'; connect-src 'self'; frame-ancestors 'none'; base-uri 'none'\r\n"@
}

/// The status line and headers of a response with `len` body bytes; `extra`
/// holds further header lines, each ending in CRLF.
pub open spec fn head_text(status: Seq<char>, kind: Seq<char>, len: u64, extra: Seq<char>) -> Seq<char> {
    "HTTP/1.1 "@ + status + "\r\nContent-Type: "@ + kind + "\r\nContent-Length: "@ + decimal_text(
        len as nat,
    ) + fixed_headers() + extra + "\r\n"@
}

/// Writes the status line and headers of a response.
pub fn response_head(status: &str, kind: &str, len: u64, extra: &str) -> (r: String)
    ensures
        r@ == head_text(status@, kind@, len, extra@),
{
    let mut r = owned("HTTP/1.1 ");
    push_str(&mut r, status);
    push_str(&mut r, "\r\nContent-Type: ");
    push_str(&mut r, kind);
    push_str(&mut r, "\r\nContent-Length: ");
    let n = decimal_string(len);
    push_str(&mut r, n.as_str());
    push_str(
        &mut r,
        "\r\nConnection: close\r\nCache-Control: no-store\r\nX-Content-Type-Options: nosniff\r\nReferrer-Policy: no-referrer\r\nContent-Security-Policy: default-src 'none'; style-src 'unsafe-inline'; img-src 'self' blob:; script-src 'self'; connect-src 'self'; frame-ancestors 'none'; base-uri 'none'\r\n",
    );
    push_str(&mut r, extra);
    push_str(&mut r, "\r\n");
    r
}

/// Upper-case hexadecimal digit of `n` < 16.
pub open spec fn hex_upper(n: u8) -> char {
    if n < 10 {
        ('0' as u8 + n) as char
    } else {
        ('A' as u8 + (n - 10)) as char
    }
}

/// Each byte as `%` and two upper-case hex digits.
pub open spec fn percent_encoded(bytes: Seq<u8>) -> Seq<char>
    decreases bytes.len(),
{
    if bytes.len() == 0 {
        Seq::empty()
    } else {
        percent_encoded(bytes.drop_last()) + seq![
            '%',
            hex_upper(bytes.last() / 16),
            hex_upper(bytes.last() % 16),
        ]
    }
}

fn hex_upper_char(n: u8) -> (r: char)
    requires
        n < 16,
    ensures
        r == hex_upper(n),
{
    if n < 10 {
        (48u8 + n) as char
    } else {
        (65u8 + (n - 10)) as char
    }
}

/// The header line that offers a shared file for download: a fixed
/// fallback name, and the real name as percent-encoded UTF-8.
pub open spec fn disposition(name: Seq<char>) -> Seq<char> {
    "Content-Disposition: attachment; filename=\"download\"; filename*=UTF-8''"@ + percent_encoded(
        vstd::utf8::encode_utf8(name),
    ) + "\r\n"@
}

pub fn download_disposition(name: &str) -> (r: String)
    ensures
        r@ == disposition(name@),
{
    let bytes = name.as_bytes();
    let mut encoded = String::new();
    let mut i: usize = 0;
    while i < bytes.len()
        invariant
            i <= bytes@.len(),
            bytes@ == vstd::utf8::encode_utf8(name@),
            encoded@ == percent_encoded(bytes@.take(i as int)),
        decreases bytes.len() - i,
    {
        let b = bytes[i];
        push_char(&mut encoded, '%');
        push_char(&mut encoded, hex_upper_char(b / 16));
        push_char(&mut encoded, hex_upper_char(b % 16));
        assert(bytes@.take(i + 1).drop_last() =~= bytes@.take(i as int));
        i += 1;
        assert(encoded@ =~= percent_encoded(bytes@.take(i as int)));
    }
    assert(bytes@.take(bytes@.len() as int) =~= bytes@);
    let mut r = owned("Content-Disposition: attachment; filename=\"download\"; filename*=UTF-8''");
    push_str(&mut r, encoded.as_str());
    push_str(&mut r, "\r\n");
    r
}

/// The address of the materials page for `host` (with its port) and the
/// session's `token`.
pub fn share_url(host: &str, token: &str) -> (r: String)
    ensures
        r@ == "http://"@ + host@ + "/"@ + token@ + "/"@,
{
    let mut r = owned("http://");
    push_str(&mut r, host);
    push_str(&mut r, "/");
    push_str(&mut r, token);
    push_str(&mut r, "/");
    r
}

/// Calls `uuid::Uuid::new_v4().simple().to_string()`: a random identifier,
/// which the crate writes as 32 lower-case hexadecimal digits.
#[verifier::external_body]
fn random_hex_id() -> (r: String)
    ensures
        r@.len() == 32,
        forall|i: int| 0 <= i < 32 ==> ('0' <= #[trigger] r@[i] <= '9') || ('a' <= r@[i] <= 'f'),
{
    uuid::Uuid::new_v4().simple().to_string()
}

/// A fresh random identifier for a session token or a shared file: 32
/// lower-case hexadecimal digits, so it never holds `/` or `.`.
pub fn new_token() -> (r: String)
    ensures
        r@.len() == 32,
        forall|i: int| 0 <= i < 32 ==> ('0' <= #[trigger] r@[i] <= '9') || ('a' <= r@[i] <= 'f'),
{
    random_hex_id()
}

/// The SVG of the QR code for `url` (medium error correction, at least
/// 220 × 220), or the encoder's error message.
pub uninterp spec fn qr_svg_of(url: Seq<char>) -> Result<Seq<char>, Seq<char>>;

/// Calls `qrcode::QrCode::new` on the URL's bytes, then renders it with
/// `render::<svg::Color>().min_dimensions(220, 220).build()`; a `QrError` is
/// rendered with `to_string`. Claims that the outcome depends on `url` alone.
#[verifier::external_body]
fn qr_svg(url: &str) -> (r: Result<String, String>)
    ensures
        match r {
            Ok(svg) => qr_svg_of(url@) == Ok::<Seq<char>, Seq<char>>(svg@),
            Err(e) => qr_svg_of(url@) == Err::<Seq<char>, Seq<char>>(e@),
        },
{
    match qrcode::QrCode::new(url.as_bytes()) {
        Ok(code) => Ok(code.render::<qrcode::render::svg::Color>().min_dimensions(220, 220).build()),
        Err(e) => Err(e.to_string()),
    }
}

/// The QR code shown for the sharing address: none while sharing is off
/// (empty address).
pub fn share_qr(url: &str) -> (r: Result<String, String>)
    ensures
        url@.len() == 0 ==> (r matches Ok(svg) && svg@.len() == 0),
        url@.len() > 0 ==> match (r, qr_svg_of(url@)) {
            (Ok(a), Ok(b)) => a@ == b,
            (Err(a), Err(b)) => a@ == b,
            _ => false,
        },
{
    if chars_of(url).len() == 0 {
        return Ok(String::new());
    }
    qr_svg(url)
}

/// Percent-encoding leaves only `%` and upper-case hexadecimal digits, so a
/// file name cannot break out of the header line.
pub proof fn lemma_percent_encoding_is_plain(bytes: Seq<u8>)
    ensures
        forall|i: int| 0 <= i < percent_encoded(bytes).len() ==> ({
            let c = #[trigger] percent_encoded(bytes)[i];
            c == '%' || ('0' <= c <= '9') || ('A' <= c <= 'F')
        }),
    decreases bytes.len(),
{
    if bytes.len() > 0 {
        lemma_percent_encoding_is_plain(bytes.drop_last());
        let a = percent_encoded(bytes.drop_last());
        let hi = bytes.last() / 16;
        let lo = bytes.last() % 16;
        let tail = seq!['%', hex_upper(hi), hex_upper(lo)];
        assert(percent_encoded(bytes) == a + tail);
        assert forall|i: int| 0 <= i < percent_encoded(bytes).len() implies ({
            let c = #[trigger] percent_encoded(bytes)[i];
            c == '%' || ('0' <= c <= '9') || ('A' <= c <= 'F')
        }) by {
            if i < a.len() {
                assert(percent_encoded(bytes)[i] == a[i]);
            } else {
                assert(percent_encoded(bytes)[i] == tail[i - a.len()]);
            }
        }
    }
}

// ---------------------------------------------------------------------------
// The shared files

/// Most files shared at once.
pub const SHARE_LIMIT: usize = 100;

/// The identifiers of shared files, in order.
pub open spec fn item_ids(items: Seq<Item>) -> Seq<Seq<char>> {
    items.map_values(|f: Item| f.id@)
}

/// Whether two paths are equal as `Path` compares them: component by
/// component, so that `a//b` and `a/./b` equal `a/b`.
pub uninterp spec fn file_path_eq(a: std::path::PathBuf, b: std::path::PathBuf) -> bool;

/// Calls `==` on two `PathBuf`s, which compares them component by
/// component. Claims that the answer depends on the two paths alone; the
/// disk is not read.
#[verifier::external_body]
fn same_file_path(a: &std::path::PathBuf, b: &std::path::PathBuf) -> (r: bool)
    ensures
        r == file_path_eq(*a, *b),
{
    a == b
}

/// What adding a file did.
#[derive(Debug, Clone, Copy, PartialEq, Eq)]
pub enum Added {
    /// The file is now shared.
    Shared,
    /// The file was already shared; nothing changed.
    AlreadyShared,
}

/// The files chosen for sharing, by identifier in increasing order (the
/// order of the materials page).
pub struct SharedFiles {
    pub items: Vec<Item>,
}

impl SharedFiles {
    /// The identifiers strictly increase.
    pub open spec fn ordered(&self) -> bool {
        crate::fonts::strictly_sorted(item_ids(self.items@))
    }

    /// No file is shared.
    pub fn new() -> (r: SharedFiles)
        ensures
            r.ordered(),
            r.items@.len() == 0,
    {
        SharedFiles { items: Vec::new() }
    }

    /// The position of the file with identifier `id`.
    pub fn find(&self, id: &str) -> (r: Option<usize>)
        ensures
            r matches Some(i) ==> i < self.items@.len() && self.items@[i as int].id@ == id@,
            r is None ==> forall|i: int| 0 <= i < self.items@.len() ==> (#[trigger] self.items@[i]).id@ != id@,
    {
        let mut i: usize = 0;
        while i < self.items.len()
            invariant
                i <= self.items@.len(),
                forall|j: int| 0 <= j < i ==> (#[trigger] self.items@[j]).id@ != id@,
            decreases self.items.len() - i,
        {
            if crate::text::same_text(self.items[i].id.as_str(), id) {
                return Some(i);
            }
            i += 1;
        }
        None
    }

    /// Stops sharing the file with identifier `id`, if it is shared.
    pub fn remove(&mut self, id: &str)
        requires
            old(self).ordered(),
        ensures
            final(self).ordered(),
            forall|i: int| 0 <= i < final(self).items@.len() ==> (#[trigger] final(self).items@[i]).id@ != id@,
            match old(self).find_spec(id@) {
                Some(p) => final(self).items@ == old(self).items@.remove(p),
                None => final(self).items@ == old(self).items@,
            },
    {
        match self.find(id) {
            Some(p) => {
                let ghost before = item_ids(self.items@);
                self.items.remove(p);
                proof {
                    let c = choose|i: int| 0 <= i < old(self).items@.len() && (#[trigger] old(self).items@[i]).id@ == id@;
                    assert(old(self).items@[p as int].id@ == id@);
                    if c != p {
                        assert(before[c] == before[p as int]);
                        crate::fonts::lemma_text_lt_total(before[c], before[c]);
                        if c < p {
                            assert(crate::fonts::text_lt(before[c], before[p as int]));
                        } else {
                            assert(crate::fonts::text_lt(before[p as int], before[c]));
                        }
                    }
                    assert(item_ids(self.items@) =~= before.remove(p as int));
                    assert forall|i: int| 0 <= i < self.items@.len() implies (#[trigger] self.items@[i]).id@ != id@ by {
                        if i < p {
                            crate::fonts::lemma_text_lt_total(before[i], before[p as int]);
                        } else {
                            crate::fonts::lemma_text_lt_total(before[p as int], before[i + 1]);
                        }
                    }
                }
            },
            None => {},
        }
    }

    /// The position of the file with identifier `id`, the only one in an
    /// ordered list.
    pub open spec fn find_spec(&self, id: Seq<char>) -> Option<int> {
        if exists|i: int| 0 <= i < self.items@.len() && (#[trigger] self.items@[i]).id@ == id {
            Some(choose|i: int| 0 <= i < self.items@.len() && (#[trigger] self.items@[i]).id@ == id)
        } else {
            None
        }
    }

    /// Whether a shared file has a path equal to `path`.
    pub open spec fn holds_path(&self, path: std::path::PathBuf) -> bool {
        exists|i: int| 0 <= i < self.items@.len() && file_path_eq(#[trigger] self.items@[i].path, path)
    }

    /// Shares `item` under its fresh identifier, unless a file with the same
    /// path is shared already; refused when `SHARE_LIMIT` files are shared.
    /// A file whose identifier is shared replaces it.
    pub fn add(&mut self, item: Item) -> (r: Result<Added, String>)
        requires
            old(self).ordered(),
        ensures
            final(self).ordered(),
            old(self).holds_path(item.path) ==> (r matches Ok(Added::AlreadyShared)
                && final(self).items@ == old(self).items@),
            !old(self).holds_path(item.path) && old(self).items@.len() >= SHARE_LIMIT ==> (
            r matches Err(e) && e@ == "Maximum 100 files · 최대 100개"@ && final(self).items@
                == old(self).items@),
            !old(self).holds_path(item.path) && old(self).items@.len() < SHARE_LIMIT ==> (
            r matches Ok(Added::Shared) && exists|p: int|
                0 <= p <= old(self).items@.len() && (final(self).items@ == old(self).items@.insert(p, item)
                    || (p < old(self).items@.len() && old(self).items@[p].id@ == item.id@
                        && final(self).items@ == old(self).items@.update(p, item)))),
    {
        let mut i: usize = 0;
        while i < self.items.len()
            invariant
                i <= self.items@.len(),
                self.items@ == old(self).items@,
                old(self).ordered(),
                forall|j: int| 0 <= j < i ==> !file_path_eq(#[trigger] self.items@[j].path, item.path),
            decreases self.items.len() - i,
        {
            if same_file_path(&self.items[i].path, &item.path) {
                return Ok(Added::AlreadyShared);
            }
            i += 1;
        }
        if self.items.len() >= SHARE_LIMIT {
            return Err(crate::text::owned("Maximum 100 files · 최대 100개"));
        }
        let ghost before = item_ids(self.items@);
        let ghost old_items = self.items@;
        let x = chars_of(item.id.as_str());
        let mut p: usize = 0;
        while p < self.items.len() && crate::fonts::text_less(&chars_of(self.items[p].id.as_str()), &x)
            invariant
                p <= self.items@.len(),
                before == item_ids(self.items@),
                old_items == self.items@,
                x@ == item.id@,
                forall|a: int| 0 <= a < p ==> crate::fonts::text_lt(before[a], x@),
            decreases self.items.len() - p,
        {
            p += 1;
        }
        if p < self.items.len() && crate::text::same_text(self.items[p].id.as_str(), item.id.as_str()) {
            let ghost xv = item.id@;
            self.items.set(p, item);
            proof {
                assert(item_ids(self.items@) =~= before.update(p as int, xv));
                assert(before[p as int] == xv);
                assert(item_ids(self.items@) =~= before);
            }
            return Ok(Added::Shared);
        }
        proof {
            assert forall|b: int| p <= b < before.len() implies crate::fonts::text_lt(x@, before[b]) by {
                crate::fonts::lemma_text_lt_total(x@, before[p as int]);
                if b > p {
                    crate::fonts::lemma_text_lt_trans(x@, before[p as int], before[b]);
                }
            }
        }
        let ghost xv = x@;
        self.items.insert(p, item);
        let ghost after = item_ids(self.items@);
        assert(after =~= before.insert(p as int, xv));
        proof {
            assert forall|a: int, b: int| 0 <= a < b < after.len() implies crate::fonts::text_lt(after[a], after[b]) by {
                if b < p {
                } else if b == p {
                } else if a < p {
                    crate::fonts::lemma_text_lt_trans(after[a], xv, after[b]);
                } else if a == p {
                } else {
                }
            }
        }
        Ok(Added::Shared)
    }
}

} // verus!
