//! The site's API: the records it returns, the addresses and headers of its
//! requests, and what its answers to a login mean.
use vstd::prelude::*;
use vstd::string::*;
use vstd::utf8::{decode_utf8, encode_utf8, is_char_boundary};
use crate::text::{chars_of, is_white_space, is_whitespace, string_of};

verus! {

/// A file attached to a post.
#[derive(Debug, Clone, PartialEq, Eq)]
pub struct Attachment {
    pub server: Option<String>,
    pub name: String,
    pub path: String,
    pub extension: Option<String>,
}

/// The main file of a post.
#[derive(Debug, Clone, PartialEq, Eq)]
pub struct FileInfo {
    pub name: String,
    pub path: String,
    pub server: Option<String>,
}

/// A post as the API lists it.
#[derive(Debug, Clone, PartialEq, Eq)]
pub struct Post {
    pub id: String,
    pub user: String,
    pub service: String,
    pub title: String,
    pub substring: Option<String>,
    pub published: Option<String>,
    pub file: Option<FileInfo>,
    pub attachments: Vec<Attachment>,
}

/// The body of a successful login.
#[derive(Debug, Clone, PartialEq, Eq)]
pub struct LoginResponse {
    pub id: u64,
    pub username: String,
}

/// One header of a request: its (lowercase) name and its value.
#[derive(Debug, Clone, PartialEq, Eq)]
pub struct RequestHeader {
    pub name: String,
    pub value: String,
}

// ---------------------------------------------------------------- headers

/// A byte that a header value may hold: a tab, or 32 to 255 but 127.
pub open spec fn is_header_byte(b: u8) -> bool {
    (b >= 32 && b != 127) || b == 9
}

/// Text that can be a header value: each byte of its UTF-8 form is allowed.
pub open spec fn is_header_value(s: Seq<char>) -> bool {
    forall|i: int| 0 <= i < encode_utf8(s).len() ==> is_header_byte(#[trigger] encode_utf8(s)[i])
}

/// `reqwest::header::HeaderValue::from_str` accepts `s`: it does exactly when
/// every byte of `s` is a tab or lies in 32..=255 other than 127.
#[verifier::external_body]
pub(crate) fn header_value_ok(s: &str) -> (r: bool)
    ensures
        r == is_header_value(s@),
{
    reqwest::header::HeaderValue::from_str(s).is_ok()
}

/// The names and values of a list of headers.
pub open spec fn header_views(hs: Seq<RequestHeader>) -> Seq<(Seq<char>, Seq<char>)> {
    hs.map_values(|h: RequestHeader| (h.name@, h.value@))
}

/// The cookie value that carries a session.
pub open spec fn session_cookie(session: Seq<char>) -> Seq<char> {
    "session="@ + session
}

/// The cookie header of a session: none for an empty session or one that is no
/// valid header value.
pub open spec fn cookie_headers(session: Seq<char>) -> Seq<(Seq<char>, Seq<char>)> {
    if session.len() > 0 && is_header_value(session_cookie(session)) {
        seq![("cookie"@, session_cookie(session))]
    } else {
        Seq::empty()
    }
}

/// The headers of an API request: `accept: text/css`, and the session cookie.
pub open spec fn api_headers(session: Seq<char>) -> Seq<(Seq<char>, Seq<char>)> {
    seq![("accept"@, "text/css"@)] + cookie_headers(session)
}

pub fn new_header(name: &str, value: String) -> (r: RequestHeader)
    ensures
        r.name@ == name@,
        r.value@ == value@,
{
    RequestHeader { name: String::from_str(name), value }
}

/// Adds the session cookie, where there is a session that can be sent.
pub fn push_cookie_header(hs: &mut Vec<RequestHeader>, session: &str)
    ensures
        header_views(final(hs)@) == header_views(old(hs)@) + cookie_headers(session@),
{
    let ghost before = hs@;
    if !session.is_empty() {
        let mut cookie = String::from_str("session=");
        cookie.append(session);
        if header_value_ok(cookie.as_str()) {
            hs.push(new_header("cookie", cookie));
            assert(header_views(hs@) =~= header_views(before) + cookie_headers(session@));
            return;
        }
    }
    assert(header_views(hs@) =~= header_views(before) + cookie_headers(session@));
}

/// The headers of a request to the API with `session`.
pub fn build_headers(session: &str) -> (r: Vec<RequestHeader>)
    ensures
        header_views(r@) == api_headers(session@),
{
    let mut hs: Vec<RequestHeader> = Vec::new();
    hs.push(new_header("accept", String::from_str("text/css")));
    assert(header_views(hs@) =~= seq![("accept"@, "text/css"@)]);
    push_cookie_header(&mut hs, session);
    hs
}

// ---------------------------------------------------------------- addresses

pub open spec fn login_address(server: Seq<char>) -> Seq<char> {
    server + "/v1/authentication/login"@
}

pub open spec fn posts_address(server: Seq<char>, service: Seq<char>, creator_id: Seq<char>) -> Seq<
    char,
> {
    server + "/v1/"@ + service + "/user/"@ + creator_id + "/posts"@
}

pub open spec fn post_address(
    server: Seq<char>,
    service: Seq<char>,
    creator_id: Seq<char>,
    post_id: Seq<char>,
) -> Seq<char> {
    server + "/v1/"@ + service + "/user/"@ + creator_id + "/post/"@ + post_id
}

/// The address of the login endpoint.
pub fn login_url(server: &str) -> (r: String)
    ensures
        r@ == login_address(server@),
{
    let mut r = String::from_str(server);
    r.append("/v1/authentication/login");
    r
}

/// The address of a creator's post list.
pub fn posts_url(server: &str, service: &str, creator_id: &str) -> (r: String)
    ensures
        r@ == posts_address(server@, service@, creator_id@),
{
    let mut r = String::from_str(server);
    r.append("/v1/");
    r.append(service);
    r.append("/user/");
    r.append(creator_id);
    r.append("/posts");
    r
}

/// The address of one post's detail.
pub fn post_url(server: &str, service: &str, creator_id: &str, post_id: &str) -> (r: String)
    ensures
        r@ == post_address(server@, service@, creator_id@, post_id@),
{
    let mut r = String::from_str(server);
    r.append("/v1/");
    r.append(service);
    r.append("/user/");
    r.append(creator_id);
    r.append("/post/");
    r.append(post_id);
    r
}

/// The message of a failed request: `what (status): body`.
pub open spec fn failure_text(what: Seq<char>, status: Seq<char>, body: Seq<char>) -> Seq<char> {
    what + " ("@ + status + "): "@ + body
}

pub fn failure_message(what: &str, status: &str, body: &str) -> (r: String)
    ensures
        r@ == failure_text(what@, status@, body@),
{
    let mut r = String::from_str(what);
    r.append(" (");
    r.append(status);
    r.append("): ");
    r.append(body);
    r
}

/// The start of the error of a post list that could not be read.
pub const POSTS_PARSE_FAILURE: &'static str = "Failed to parse posts response: ";

/// How much of an unreadable answer the error quotes, in bytes.
pub const QUOTED_BYTES: usize = 500;

/// The number of bytes of `text` that the error quotes: all of them up to
/// `QUOTED_BYTES`.
pub open spec fn quoted_len(text: &str) -> int {
    let n = text.spec_bytes().len() as usize;
    if n < QUOTED_BYTES {
        n as int
    } else {
        QUOTED_BYTES as int
    }
}

/// The error of a post list that could not be read: the message, then the text
/// of the first `QUOTED_BYTES` bytes of the answer (all of it where shorter). The
/// cut must fall between two characters.
pub fn posts_parse_failure(text: &str) -> (r: String)
    requires
        is_char_boundary(text.spec_bytes(), quoted_len(text)),
    ensures
        r@ == POSTS_PARSE_FAILURE@ + decode_utf8(text.spec_bytes().subrange(0, quoted_len(text))),
{
    let n = text.len();
    let cut: usize = if n < QUOTED_BYTES {
        n
    } else {
        QUOTED_BYTES
    };
    assert(cut == quoted_len(text));
    let (head, _rest) = text.split_at(cut);
    proof {
        vstd::utf8::encode_utf8_decode_utf8(head@);
        assert(head.spec_bytes() == text.spec_bytes().subrange(0, cut as int));
    }
    let mut r = String::from_str(POSTS_PARSE_FAILURE);
    r.append(head);
    r
}

// ---------------------------------------------------------------- login

/// What a login answer's status means.
#[derive(Debug, Clone, PartialEq, Eq)]
pub enum LoginStatus {
    /// A success: the body holds the account.
    Accepted,
    /// 409: the account is signed in already; the session cookie still comes.
    AlreadySignedIn,
    /// Anything else: the login failed.
    Refused,
}

pub open spec fn login_status_of(code: u16) -> LoginStatus {
    if 200 <= code <= 299 {
        LoginStatus::Accepted
    } else if code == 409 {
        LoginStatus::AlreadySignedIn
    } else {
        LoginStatus::Refused
    }
}

/// Classifies the status of a login answer.
pub fn login_status(code: u16) -> (r: LoginStatus)
    ensures
        r == login_status_of(code),
{
    if 200 <= code && code <= 299 {
        LoginStatus::Accepted
    } else if code == 409 {
        LoginStatus::AlreadySignedIn
    } else {
        LoginStatus::Refused
    }
}

/// The account of a login answered with 409, which has no body to read.
pub fn already_signed_in(username: &str) -> (r: LoginResponse)
    ensures
        r.id == 0,
        r.username@ == username@,
{
    LoginResponse { id: 0, username: String::from_str(username) }
}

/// `s` without leading white space.
pub open spec fn trim_start(s: Seq<char>) -> Seq<char>
    decreases s.len(),
{
    if s.len() > 0 && is_white_space(s[0]) {
        trim_start(s.skip(1))
    } else {
        s
    }
}

/// `s` without trailing white space.
pub open spec fn trim_end(s: Seq<char>) -> Seq<char>
    decreases s.len(),
{
    if s.len() > 0 && is_white_space(s.last()) {
        trim_end(s.drop_last())
    } else {
        s
    }
}

/// `s` without white space at either end (`str::trim`).
pub open spec fn trimmed(s: Seq<char>) -> Seq<char> {
    trim_end(trim_start(s))
}

/// Splitting on `sep`, scanning from the left: the pieces closed so far and the
/// piece being read.
pub open spec fn split_state(s: Seq<char>, sep: char) -> (Seq<Seq<char>>, Seq<char>)
    decreases s.len(),
{
    if s.len() == 0 {
        (Seq::empty(), Seq::empty())
    } else {
        let (ps, cur) = split_state(s.drop_last(), sep);
        if s.last() == sep {
            (ps.push(cur), Seq::empty())
        } else {
            (ps, cur.push(s.last()))
        }
    }
}

/// The pieces of `s` between the occurrences of `sep` (`str::split`).
pub open spec fn split_on(s: Seq<char>, sep: char) -> Seq<Seq<char>> {
    split_state(s, sep).0.push(split_state(s, sep).1)
}

/// The session in the first cookie attribute that reads `session=...`, or
/// nothing.
pub open spec fn first_session(parts: Seq<Seq<char>>) -> Seq<char>
    decreases parts.len(),
{
    if parts.len() == 0 {
        Seq::empty()
    } else if crate::text::has_prefix(trimmed(parts[0]), "session="@) {
        trimmed(parts[0]).skip(8)
    } else {
        first_session(parts.skip(1))
    }
}

/// The session that a `set-cookie` header value carries.
pub open spec fn session_of_cookie(value: Seq<char>) -> Seq<char> {
    first_session(split_on(value, ';'))
}

/// The pieces of `cs` between the occurrences of `sep`.
pub fn split_chars(cs: &Vec<char>, sep: char) -> (r: Vec<Vec<char>>)
    ensures
        crate::html_generator::views(r@) == split_on(cs@, sep),
{
    let mut ps: Vec<Vec<char>> = Vec::new();
    let mut cur: Vec<char> = Vec::new();
    let mut i: usize = 0;
    while i < cs.len()
        invariant
            i <= cs.len(),
            (crate::html_generator::views(ps@), cur@) == split_state(cs@.take(i as int), sep),
        decreases cs.len() - i,
    {
        let ghost prev = ps@;
        assert(cs@.take(i + 1).drop_last() =~= cs@.take(i as int));
        if cs[i] == sep {
            ps.push(cur);
            assert(crate::html_generator::views(ps@) =~= crate::html_generator::views(prev).push(
                ps@.last()@,
            ));
            cur = Vec::new();
        } else {
            cur.push(cs[i]);
        }
        i = i + 1;
    }
    assert(cs@.take(cs.len() as int) =~= cs@);
    let ghost prev = ps@;
    ps.push(cur);
    assert(crate::html_generator::views(ps@) =~= crate::html_generator::views(prev).push(
        ps@.last()@,
    ));
    ps
}

/// The last piece of a split is no longer than the text, and shorter by at
/// least the separator before it where there are several pieces.
pub proof fn lemma_split_last_len(s: Seq<char>, sep: char)
    ensures
        split_on(s, sep).len() >= 1,
        split_on(s, sep).last().len() <= s.len(),
        split_on(s, sep).len() > 1 ==> split_on(s, sep).last().len() + 1 <= s.len(),
    decreases s.len(),
{
    if s.len() > 0 {
        lemma_split_last_len(s.drop_last(), sep);
    }
}

/// `cs` without white space at either end.
pub fn trim_chars(cs: &Vec<char>) -> (r: Vec<char>)
    ensures
        r@ == trimmed(cs@),
{
    let mut a: usize = 0;
    assert(cs@.skip(0) =~= cs@);
    while a < cs.len() && is_whitespace(cs[a])
        invariant
            a <= cs.len(),
            trim_start(cs@) == trim_start(cs@.skip(a as int)),
        decreases cs.len() - a,
    {
        assert(cs@.skip(a as int).skip(1) =~= cs@.skip(a + 1));
        a = a + 1;
    }
    let ghost start = cs@.skip(a as int);
    assert(trim_start(start) == start);
    let mut b: usize = cs.len();
    assert(start.take(b - a) =~= start);
    while b > a && is_whitespace(cs[b - 1])
        invariant
            a <= b <= cs.len(),
            start == cs@.skip(a as int),
            trim_end(start) == trim_end(start.take(b - a)),
        decreases b,
    {
        assert(start.take(b - a).drop_last() =~= start.take(b - 1 - a));
        b = b - 1;
    }
    assert(trim_end(start.take(b - a)) == start.take(b - a));
    let mut r: Vec<char> = Vec::new();
    let mut k: usize = a;
    while k < b
        invariant
            a <= k <= b <= cs.len(),
            r@ =~= cs@.subrange(a as int, k as int),
        decreases b - k,
    {
        r.push(cs[k]);
        k = k + 1;
    }
    assert(r@ =~= start.take(b - a));
    r
}

/// The session cookie that a login answer sets: in the value of its last
/// `set-cookie` header (where that is text), the first attribute that reads
/// `session=...`, without the white space around it; empty where there is none.
pub fn session_from_set_cookie(value: &Option<String>) -> (r: String)
    ensures
        r@ == match value {
            Some(v) => session_of_cookie(v@),
            None => Seq::empty(),
        },
{
    match value {
        None => String::new(),
        Some(v) => {
            proof {
                reveal_strlit("session=");
            }
            let cs = chars_of(v.as_str());
            let parts = split_chars(&cs, ';');
            let ghost pv = crate::html_generator::views(parts@);
            let mut i: usize = 0;
            assert(pv.skip(0) =~= pv);
            while i < parts.len()
                invariant
                    i <= parts.len(),
                    pv == crate::html_generator::views(parts@),
                    pv == split_on(v@, ';'),
                    value matches Some(w) && w@ == v@,
                    first_session(pv) == first_session(pv.skip(i as int)),
                decreases parts.len() - i,
            {
                let t = trim_chars(&parts[i]);
                assert(pv.skip(i as int)[0] == parts@[i as int]@);
                if crate::text::starts_with(&t, "session=") {
                    proof {
                        reveal_strlit("session=");
                    }
                    let mut rest: Vec<char> = Vec::new();
                    let mut k: usize = 8;
                    while k < t.len()
                        invariant
                            8 <= k <= t.len(),
                            rest@ =~= t@.subrange(8, k as int),
                        decreases t.len() - k,
                    {
                        rest.push(t[k]);
                        k = k + 1;
                    }
                    assert(rest@ =~= t@.skip(8));
                    assert(trimmed(pv.skip(i as int)[0]) == t@);
                    assert(first_session(pv.skip(i as int)) == t@.skip(8));
                    assert(session_of_cookie(v@) == rest@);
                    let r = string_of(&rest);
                    return r;
                }
                assert(pv.skip(i as int).skip(1) =~= pv.skip(i + 1));
                i = i + 1;
            }
            assert(pv.skip(parts.len() as int) =~= Seq::<Seq<char>>::empty());
            String::new()
        },
    }
}

// ---------------------------------------------------------------- post detail

/// The post of a detail answer, with the detail's top-level attachments where the
/// post itself lists none.
pub open spec fn merged_attachments(post: Seq<Attachment>, detail: Seq<Attachment>) -> Seq<
    Attachment,
> {
    if post.len() == 0 && detail.len() > 0 {
        detail
    } else {
        post
    }
}

/// Completes a post from its detail answer: where the post lists no attachment and
/// the detail does, the post takes the detail's attachments.
pub fn merge_detail_attachments(post: Post, attachments: Vec<Attachment>) -> (r: Post)
    ensures
        r.attachments@ == merged_attachments(post.attachments@, attachments@),
        r.id == post.id,
        r.user == post.user,
        r.service == post.service,
        r.title == post.title,
        r.substring == post.substring,
        r.published == post.published,
        r.file == post.file,
{
    let mut post = post;
    if post.attachments.len() == 0 && attachments.len() > 0 {
        post.attachments = attachments;
    }
    post
}


/// The detail's top-level attachments only fill in for a post that lists none:
/// where the post lists attachments, it keeps exactly those; where it lists none,
/// it takes the detail's list (which may be empty too).
pub proof fn lemma_merge_keeps_listed_attachments(post: Seq<Attachment>, detail: Seq<Attachment>)
    ensures
        post.len() > 0 ==> merged_attachments(post, detail) == post,
        post.len() == 0 ==> merged_attachments(post, detail) == detail,
{
    if post.len() == 0 && detail.len() == 0 {
        assert(post =~= detail);
    }
}

proof fn lemma_first_session_at(parts: Seq<Seq<char>>, k: int)
    requires
        0 <= k < parts.len(),
        crate::text::has_prefix(trimmed(parts[k]), "session="@),
        forall|j: int| 0 <= j < k ==> !crate::text::has_prefix(#[trigger] trimmed(parts[j]), "session="@),
    ensures
        "session="@ + first_session(parts) == trimmed(parts[k]),
    decreases k,
{
    reveal_strlit("session=");
    if k == 0 {
        let t = trimmed(parts[0]);
        assert(t.subrange(0, 8) == "session="@);
        assert("session="@ + t.skip(8) =~= t);
    } else {
        let rest = parts.skip(1);
        assert(!crate::text::has_prefix(trimmed(parts[0]), "session="@));
        assert forall|j: int| 0 <= j < k - 1 implies !crate::text::has_prefix(
            #[trigger] trimmed(rest[j]),
            "session="@,
        ) by {
            assert(rest[j] == parts[j + 1]);
        }
        assert(rest[k - 1] == parts[k]);
        lemma_first_session_at(rest, k - 1);
    }
}

proof fn lemma_first_session_none(parts: Seq<Seq<char>>)
    requires
        forall|j: int|
            0 <= j < parts.len() ==> !crate::text::has_prefix(#[trigger] trimmed(parts[j]), "session="@),
    ensures
        first_session(parts) == Seq::<char>::empty(),
    decreases parts.len(),
{
    if parts.len() > 0 {
        let rest = parts.skip(1);
        assert(!crate::text::has_prefix(trimmed(parts[0]), "session="@));
        assert forall|j: int| 0 <= j < rest.len() implies !crate::text::has_prefix(
            #[trigger] trimmed(rest[j]),
            "session="@,
        ) by {
            assert(rest[j] == parts[j + 1]);
        }
        lemma_first_session_none(rest);
    }
}

/// The session of a `set-cookie` value is the whole value of its first attribute
/// that reads `session=...` (with the white space around the attribute removed):
/// `session=` followed by the result is exactly that attribute. Where no attribute
/// reads so, the session is empty.
pub proof fn lemma_session_is_the_whole_attribute(value: Seq<char>, k: int)
    ensures
        ({
            let parts = split_on(value, ';');
            &&& (0 <= k < parts.len() && crate::text::has_prefix(trimmed(parts[k]), "session="@)
                && forall|j: int|
                0 <= j < k ==> !crate::text::has_prefix(#[trigger] trimmed(parts[j]), "session="@))
                ==> "session="@ + session_of_cookie(value) == trimmed(parts[k])
            &&& (forall|j: int|
                0 <= j < parts.len() ==> !crate::text::has_prefix(
                    #[trigger] trimmed(parts[j]),
                    "session="@,
                )) ==> session_of_cookie(value) == Seq::<char>::empty()
        }),
{
    let parts = split_on(value, ';');
    if 0 <= k < parts.len() && crate::text::has_prefix(trimmed(parts[k]), "session="@) && forall|
        j: int,
    | 0 <= j < k ==> !crate::text::has_prefix(#[trigger] trimmed(parts[j]), "session="@) {
        lemma_first_session_at(parts, k);
    }
    if forall|j: int|
        0 <= j < parts.len() ==> !crate::text::has_prefix(#[trigger] trimmed(parts[j]), "session="@) {
        lemma_first_session_none(parts);
    }
}

} // verus!
