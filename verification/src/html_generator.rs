//! The post information page: HTML escaping, link detection, icons,
//! folder names, and the page itself.
use vstd::prelude::*;
use vstd::string::*;
use crate::text::{
    chars_of, has_prefix, is_control, is_control_char, is_white_space, is_whitespace, push_char,
    push_decimal, decimal, starts_with, string_of,
};
use crate::page_template::{
    DOC_START, TITLE_SEPARATOR, HEAD_AND_STYLE, BADGE_OPEN, INFO_OPEN, ROW_SERVICE, ROW_CREATOR,
    ROW_PUBLISHED, ROW_ADDED, DD_CLOSE, ROW_SHARED, INFO_CLOSE, CONTENT_OPEN, CONTENT_CLOSE,
    SECTION_BREAK, ATTACHMENTS_OPEN, ATTACHMENTS_TABLE, ATTACHMENTS_CLOSE, PREVIEWS_CLOSE,
    VIDEO_LIST_OPEN, VIDEOS_CLOSE, NAV_CLOSE, FOOTER_LINK, DOC_END, UNTITLED, SHARED_YES,
    SHARED_NO, THUMB_OPEN, THUMB_CLOSE, THUMB_EMPTY, CONTENT_EMPTY, ATT_ROW_OPEN, ATT_ROW_ICON,
    ATT_ROW_HREF, ATT_ROW_TITLE, ATT_ROW_TEXT, ATT_ROW_EXT, ATT_ROW_CLOSE, FIGURE_OPEN,
    FIGURE_ALT, FIGURE_CAPTION, FIGURE_CLOSE, VIDEO_OPEN, VIDEO_TEXT, VIDEO_CLOSE, EMBED_OPEN,
    EMBED_CLOSE, EMBED_KEY_OPEN, EMBED_VALUE_OPEN, EMBED_ROW_CLOSE, TAGS_OPEN, TAGS_CLOSE,
    TAG_OPEN, TAG_CLOSE, MAIN_FILE_OPEN, MAIN_FILE_TEXT, MAIN_FILE_CLOSE, POST_URL_BASE,
    POST_URL_USER, POST_URL_POST, NAV_HOME_OPEN, NAV_HOME_CLOSE, NAV_PREV_OPEN, NAV_PREV_TEXT,
    NAV_PREV_CLOSE, NAV_NEXT_OPEN, NAV_NEXT_TEXT, NAV_NEXT_CLOSE, EDITED_OPEN, EDITED_CLOSE,
};

verus! {

// ---------------------------------------------------------------- escaping

/// What one character becomes in escaped HTML text.
pub open spec fn esc_char(c: char) -> Seq<char> {
    if c == '&' {
        "&amp;"@
    } else if c == '<' {
        "&lt;"@
    } else if c == '>' {
        "&gt;"@
    } else if c == '"' {
        "&quot;"@
    } else {
        seq![c]
    }
}

/// `s` with `&`, `<`, `>` and `"` replaced by their entities.
pub open spec fn escaped(s: Seq<char>) -> Seq<char>
    decreases s.len(),
{
    if s.len() == 0 {
        Seq::empty()
    } else {
        escaped(s.drop_last()) + esc_char(s.last())
    }
}

/// Escapes text for HTML: `&` `<` `>` `"` become `&amp;` `&lt;` `&gt;` `&quot;`.
pub fn esc(s: &str) -> (r: String)
    ensures
        r@ == escaped(s@),
{
    let cs = chars_of(s);
    let mut r = String::new();
    let mut i: usize = 0;
    while i < cs.len()
        invariant
            cs@ == s@,
            i <= cs.len(),
            r@ == escaped(cs@.take(i as int)),
        decreases cs.len() - i,
    {
        let c = cs[i];
        if c == '&' {
            r.append("&amp;");
        } else if c == '<' {
            r.append("&lt;");
        } else if c == '>' {
            r.append("&gt;");
        } else if c == '"' {
            r.append("&quot;");
        } else {
            push_char(&mut r, c);
        }
        assert(cs@.take(i + 1).drop_last() =~= cs@.take(i as int));
        i = i + 1;
    }
    assert(cs@.take(cs.len() as int) =~= cs@);
    r
}

// ---------------------------------------------------------------- icons

/// The icon name shown beside an attachment with extension `ext`.
pub open spec fn icon_for(ext: Seq<char>) -> Seq<char> {
    if ext == ".mp4"@ || ext == ".webm"@ || ext == ".mkv"@ {
        "film"@
    } else if ext == ".png"@ || ext == ".jpg"@ || ext == ".jpeg"@ || ext == ".gif"@ || ext
        == ".webp"@ {
        "image"@
    } else if ext == ".zip"@ || ext == ".rar"@ || ext == ".7z"@ {
        "archive"@
    } else {
        "file"@
    }
}

/// Whether two strings hold the same characters.
pub fn str_eq(a: &str, b: &str) -> (r: bool)
    ensures
        r == (a@ == b@),
{
    let ac = chars_of(a);
    let bc = chars_of(b);
    if ac.len() != bc.len() {
        return false;
    }
    let mut i: usize = 0;
    while i < ac.len()
        invariant
            ac@ == a@,
            bc@ == b@,
            ac.len() == bc.len(),
            i <= ac.len(),
            forall|j: int| 0 <= j < i ==> ac@[j] == bc@[j],
        decreases ac.len() - i,
    {
        if ac[i] != bc[i] {
            return false;
        }
        i = i + 1;
    }
    assert(ac@ =~= bc@);
    true
}

/// The icon for an attachment's extension: video, image, archive or a plain file.
pub fn ext_icon(ext: &str) -> (r: &'static str)
    ensures
        r@ == icon_for(ext@),
{
    if str_eq(ext, ".mp4") || str_eq(ext, ".webm") || str_eq(ext, ".mkv") {
        "film"
    } else if str_eq(ext, ".png") || str_eq(ext, ".jpg") || str_eq(ext, ".jpeg") || str_eq(
        ext,
        ".gif",
    ) || str_eq(ext, ".webp") {
        "image"
    } else if str_eq(ext, ".zip") || str_eq(ext, ".rar") || str_eq(ext, ".7z") {
        "archive"
    } else {
        "file"
    }
}

// ---------------------------------------------------------------- folder names

/// Characters that a folder name may not hold.
pub open spec fn is_forbidden_in_name(c: char) -> bool {
    c == '/' || c == '\\' || c == ':' || c == '*' || c == '?' || c == '"' || c == '<' || c == '>'
        || c == '|'
}

/// What a character of a folder name becomes.
pub open spec fn name_char(c: char) -> char {
    if is_forbidden_in_name(c) || is_control_char(c) {
        '_'
    } else {
        c
    }
}

/// Characters stripped from the end of a folder name.
pub open spec fn is_trailing_trim(c: char) -> bool {
    c == '.' || c == ' '
}

/// `s` without its trailing dots and spaces.
pub open spec fn trim_trailing(s: Seq<char>) -> Seq<char>
    decreases s.len(),
{
    if s.len() > 0 && is_trailing_trim(s.last()) {
        trim_trailing(s.drop_last())
    } else {
        s
    }
}

/// The folder name made of `name`.
pub open spec fn sanitized(name: Seq<char>) -> Seq<char> {
    trim_trailing(name.map_values(|c: char| name_char(c)))
}

/// Makes `name` usable as a directory name: each of `/ \ : * ? " < > |` and each
/// control character becomes `_`, and trailing dots and spaces are removed.
pub fn sanitize_folder_name(name: &str) -> (r: String)
    ensures
        r@ == sanitized(name@),
{
    let cs = chars_of(name);
    let mut mapped: Vec<char> = Vec::new();
    let mut i: usize = 0;
    while i < cs.len()
        invariant
            cs@ == name@,
            i <= cs.len(),
            mapped@ =~= cs@.take(i as int).map_values(|c: char| name_char(c)),
        decreases cs.len() - i,
    {
        let c = cs[i];
        let forbidden = c == '/' || c == '\\' || c == ':' || c == '*' || c == '?' || c == '"'
            || c == '<' || c == '>' || c == '|';
        if forbidden || is_control(c) {
            mapped.push('_');
        } else {
            mapped.push(c);
        }
        i = i + 1;
    }
    assert(cs@.take(cs.len() as int) =~= cs@);
    let ghost full = mapped@;
    let mut k: usize = mapped.len();
    assert(full.take(k as int) =~= full);
    while k > 0 && (mapped[k - 1] == '.' || mapped[k - 1] == ' ')
        invariant
            k <= mapped.len(),
            mapped@ == full,
            trim_trailing(full) == trim_trailing(full.take(k as int)),
        decreases k,
    {
        assert(full.take(k as int).drop_last() =~= full.take(k - 1));
        k = k - 1;
    }
    mapped.truncate(k);
    assert(mapped@ =~= full.take(k as int));
    string_of(&mapped)
}


// ---------------------------------------------------------------- links

/// The line separator that `auto_link_urls` splits on.
pub open spec fn br_mark() -> Seq<char> {
    seq!['<', 'b', 'r', '>']
}

/// `s` ends with `<br>`.
pub open spec fn ends_with_br(s: Seq<char>) -> bool {
    s.len() >= 4 && s.subrange(s.len() - 4, s.len() as int) == br_mark()
}

/// Splitting on `<br>`, scanning from the left: the lines closed so far and the
/// line being read.
pub open spec fn br_split_state(s: Seq<char>) -> (Seq<Seq<char>>, Seq<char>)
    decreases s.len(),
{
    if s.len() == 0 {
        (Seq::empty(), Seq::empty())
    } else {
        let (lines, cur) = br_split_state(s.drop_last());
        let cur2 = cur.push(s.last());
        if ends_with_br(cur2) {
            (lines.push(cur2.subrange(0, cur2.len() - 4)), Seq::empty())
        } else {
            (lines, cur2)
        }
    }
}

/// The pieces of `s` between occurrences of `<br>` (`str::split("<br>")`).
pub open spec fn br_lines(s: Seq<char>) -> Seq<Seq<char>> {
    br_split_state(s).0.push(br_split_state(s).1)
}

/// Splitting on white space, scanning from the left: the words closed so far and
/// the word being read.
pub open spec fn word_state(s: Seq<char>) -> (Seq<Seq<char>>, Seq<char>)
    decreases s.len(),
{
    if s.len() == 0 {
        (Seq::empty(), Seq::empty())
    } else {
        let (ws, cur) = word_state(s.drop_last());
        let c = s.last();
        if is_white_space(c) {
            if cur.len() > 0 {
                (ws.push(cur), Seq::empty())
            } else {
                (ws, Seq::empty())
            }
        } else {
            (ws, cur.push(c))
        }
    }
}

/// The maximal runs of non-white-space characters of `s` (`str::split_whitespace`).
pub open spec fn words(s: Seq<char>) -> Seq<Seq<char>> {
    let (ws, cur) = word_state(s);
    if cur.len() > 0 {
        ws.push(cur)
    } else {
        ws
    }
}

/// A word is a web address when it starts with `http://` or `https://`.
pub open spec fn is_web_address(w: Seq<char>) -> bool {
    has_prefix(w, "http://"@) || has_prefix(w, "https://"@)
}

/// A word as it stands in the page: web addresses become links.
pub open spec fn linked_word(w: Seq<char>) -> Seq<char> {
    if is_web_address(w) {
        "<a href=\""@ + w + "\" target=\"_blank\" rel=\"noopener\">"@ + w + "</a>"@
    } else {
        w
    }
}

/// The words of a line, linked and joined by single spaces.
pub open spec fn linked_words(ws: Seq<Seq<char>>) -> Seq<char>
    decreases ws.len(),
{
    if ws.len() == 0 {
        Seq::empty()
    } else if ws.len() == 1 {
        linked_word(ws[0])
    } else {
        linked_words(ws.drop_last()).push(' ') + linked_word(ws.last())
    }
}

/// The lines rendered and joined: a `<br>` goes before a line only where
/// something has been written already.
pub open spec fn linked_lines(ls: Seq<Seq<char>>) -> Seq<char>
    decreases ls.len(),
{
    if ls.len() == 0 {
        Seq::empty()
    } else {
        let acc = linked_lines(ls.drop_last());
        let line = linked_words(words(ls.last()));
        if acc.len() > 0 {
            acc + "<br>"@ + line
        } else {
            acc + line
        }
    }
}

/// What `auto_link_urls` makes of `text`.
pub open spec fn auto_linked(text: Seq<char>) -> Seq<char> {
    linked_lines(br_lines(text))
}

/// The views of a list of character vectors.
pub open spec fn views(v: Seq<Vec<char>>) -> Seq<Seq<char>> {
    v.map_values(|x: Vec<char>| x@)
}

fn split_br(cs: &Vec<char>) -> (r: Vec<Vec<char>>)
    ensures
        views(r@) == br_lines(cs@),
{
    let mut lines: Vec<Vec<char>> = Vec::new();
    let mut cur: Vec<char> = Vec::new();
    let mut i: usize = 0;
    while i < cs.len()
        invariant
            i <= cs.len(),
            (views(lines@), cur@) == br_split_state(cs@.take(i as int)),
        decreases cs.len() - i,
    {
        let ghost prev_lines = lines@;
        let ghost prev_cur = cur@;
        assert(cs@.take(i + 1).drop_last() =~= cs@.take(i as int));
        cur.push(cs[i]);
        let n = cur.len();
        if n >= 4 && cur[n - 4] == '<' && cur[n - 3] == 'b' && cur[n - 2] == 'r' && cur[n - 1]
            == '>' {
            assert(cur@.subrange(n - 4, n as int) =~= br_mark());
            cur.truncate(n - 4);
            assert(cur@ =~= prev_cur.push(cs@[i as int]).subrange(0, n - 4));
            lines.push(cur);
            cur = Vec::new();
            assert(views(lines@) =~= views(prev_lines).push(lines@.last()@));
        } else {
            assert(!ends_with_br(cur@)) by {
                if ends_with_br(cur@) {
                    assert(cur@.subrange(n - 4, n as int)[0] == '<');
                    assert(cur@.subrange(n - 4, n as int)[1] == 'b');
                    assert(cur@.subrange(n - 4, n as int)[2] == 'r');
                    assert(cur@.subrange(n - 4, n as int)[3] == '>');
                }
            }
        }
        i = i + 1;
    }
    assert(cs@.take(cs.len() as int) =~= cs@);
    let ghost prev_lines = lines@;
    lines.push(cur);
    assert(views(lines@) =~= views(prev_lines).push(lines@.last()@));
    lines
}

fn split_words(cs: &Vec<char>) -> (r: Vec<Vec<char>>)
    ensures
        views(r@) == words(cs@),
{
    let mut ws: Vec<Vec<char>> = Vec::new();
    let mut cur: Vec<char> = Vec::new();
    let mut i: usize = 0;
    while i < cs.len()
        invariant
            i <= cs.len(),
            (views(ws@), cur@) == word_state(cs@.take(i as int)),
        decreases cs.len() - i,
    {
        let ghost prev_ws = ws@;
        assert(cs@.take(i + 1).drop_last() =~= cs@.take(i as int));
        let c = cs[i];
        if is_whitespace(c) {
            if cur.len() > 0 {
                ws.push(cur);
                assert(views(ws@) =~= views(prev_ws).push(ws@.last()@));
            }
            cur = Vec::new();
        } else {
            cur.push(c);
        }
        i = i + 1;
    }
    assert(cs@.take(cs.len() as int) =~= cs@);
    if cur.len() > 0 {
        let ghost prev_ws = ws@;
        ws.push(cur);
        assert(views(ws@) =~= views(prev_ws).push(ws@.last()@));
    }
    ws
}

fn push_linked_word(out: &mut String, w: &Vec<char>)
    ensures
        final(out)@ == old(out)@ + linked_word(w@),
{
    if starts_with(w, "http://") || starts_with(w, "https://") {
        let ws = string_of(w);
        out.append("<a href=\"");
        out.append(ws.as_str());
        out.append("\" target=\"_blank\" rel=\"noopener\">");
        out.append(ws.as_str());
        out.append("</a>");
    } else {
        let ws = string_of(w);
        out.append(ws.as_str());
    }
}

/// Turns every word that starts with `http://` or `https://` into a link. The text
/// is split on `<br>`; each piece is split into words at white space and the words
/// are joined by single spaces; pieces are joined by `<br>`, which goes only after
/// something already written.
pub fn auto_link_urls(text: &str) -> (r: String)
    ensures
        r@ == auto_linked(text@),
{
    let cs = chars_of(text);
    let lines = split_br(&cs);
    let mut out = String::new();
    let mut i: usize = 0;
    while i < lines.len()
        invariant
            i <= lines.len(),
            views(lines@) == br_lines(text@),
            out@ == linked_lines(views(lines@).take(i as int)),
        decreases lines.len() - i,
    {
        assert(views(lines@).take(i + 1).drop_last() =~= views(lines@).take(i as int));
        if !out.as_str().is_empty() {
            out.append("<br>");
        }
        let ws = split_words(&lines[i]);
        let ghost before_line = out@;
        let mut j: usize = 0;
        while j < ws.len()
            invariant
                j <= ws.len(),
                out@ == before_line + linked_words(views(ws@).take(j as int)),
            decreases ws.len() - j,
        {
            assert(views(ws@).take(j + 1).drop_last() =~= views(ws@).take(j as int));
            if j > 0 {
                push_char(&mut out, ' ');
            }
            push_linked_word(&mut out, &ws[j]);
            assert(out@ =~= before_line + linked_words(views(ws@).take(j + 1)));
            j = j + 1;
        }
        assert(views(ws@).take(ws.len() as int) =~= views(ws@));
        i = i + 1;
    }
    assert(views(lines@).take(lines.len() as int) =~= views(lines@));
    out
}

/// `s` with every line feed replaced by `<br>` and a line feed.
pub open spec fn br_before_newlines(s: Seq<char>) -> Seq<char>
    decreases s.len(),
{
    if s.len() == 0 {
        Seq::empty()
    } else if s.last() == '\n' {
        br_before_newlines(s.drop_last()) + "<br>\n"@
    } else {
        br_before_newlines(s.drop_last()).push(s.last())
    }
}

/// Replaces each line feed by `<br>` and a line feed.
pub fn replace_newlines(s: &str) -> (r: String)
    ensures
        r@ == br_before_newlines(s@),
{
    let cs = chars_of(s);
    let mut r = String::new();
    let mut i: usize = 0;
    while i < cs.len()
        invariant
            cs@ == s@,
            i <= cs.len(),
            r@ == br_before_newlines(cs@.take(i as int)),
        decreases cs.len() - i,
    {
        assert(cs@.take(i + 1).drop_last() =~= cs@.take(i as int));
        if cs[i] == '\n' {
            r.append("<br>\n");
        } else {
            push_char(&mut r, cs[i]);
        }
        i = i + 1;
    }
    assert(cs@.take(cs.len() as int) =~= cs@);
    r
}


// ---------------------------------------------------------------- the page

/// An attachment as the page lists it: its `name` and `extension`, where they are text.
#[derive(Debug, Clone, PartialEq, Eq)]
pub struct PageAttachment {
    pub name: Option<String>,
    pub extension: Option<String>,
}

/// One entry of a post's `embed` object: the key and the value as text
/// (a string value itself, any other value in JSON notation).
#[derive(Debug, Clone, PartialEq, Eq)]
pub struct EmbedEntry {
    pub key: String,
    pub value: String,
}

/// What the page shows of a post detail. Each field holds what the detail gives
/// there: `None` where the field is missing or not of the expected kind; for the
/// lists, `None` where the detail has no list there.
#[derive(Debug, Clone, PartialEq, Eq)]
pub struct PostPage {
    pub title: Option<String>,
    pub id: Option<String>,
    pub service: Option<String>,
    pub user: Option<String>,
    pub published: Option<String>,
    pub added: Option<String>,
    pub edited: Option<String>,
    pub content: Option<String>,
    pub shared_file: Option<bool>,
    pub prev: Option<String>,
    pub next: Option<String>,
    pub embed: Option<Vec<EmbedEntry>>,
    pub tags: Option<Vec<Option<String>>>,
    /// `Some` where the post has a main file object, with that file's name.
    pub file: Option<Option<String>>,
    pub attachments: Option<Vec<PageAttachment>>,
    pub previews: Option<Vec<Option<String>>>,
    pub videos: Option<Vec<Option<String>>>,
}

/// The text of an optional string, or `d`.
pub open spec fn text_or(o: Option<String>, d: Seq<char>) -> Seq<char> {
    match o {
        Some(s) => s@,
        None => d,
    }
}

fn str_or<'a>(o: &'a Option<String>, d: &'a str) -> (r: &'a str)
    ensures
        r@ == text_or(*o, d@),
{
    match o {
        Some(s) => s.as_str(),
        None => d,
    }
}

fn text_of(o: &Option<String>) -> (r: &str)
    ensures
        r@ == text_or(*o, Seq::empty()),
{
    proof {
        reveal_strlit("");
    }
    match o {
        Some(s) => s.as_str(),
        None => "",
    }
}

/// The name of the first preview, which the page shows as its thumbnail.
pub open spec fn master_thumb_name(previews: Option<Vec<Option<String>>>) -> Seq<char> {
    match previews {
        Some(v) => if v@.len() > 0 {
            text_or(v@[0], Seq::empty())
        } else {
            Seq::empty()
        },
        None => Seq::empty(),
    }
}

pub open spec fn thumb_html(previews: Option<Vec<Option<String>>>) -> Seq<char> {
    let name = master_thumb_name(previews);
    if name.len() > 0 {
        THUMB_OPEN@ + escaped(name) + THUMB_CLOSE@
    } else {
        THUMB_EMPTY@
    }
}

fn build_thumb(previews: &Option<Vec<Option<String>>>) -> (r: String)
    ensures
        r@ == thumb_html(*previews),
{
    proof {
        reveal_strlit("");
    }
    let mut name: &str = "";
    match previews {
        Some(v) => {
            if v.len() > 0 {
                name = text_of(&v[0]);
            }
        },
        None => {},
    }
    if !name.is_empty() {
        let mut r = String::from_str(THUMB_OPEN);
        let e = esc(name);
        r.append(e.as_str());
        r.append(THUMB_CLOSE);
        r
    } else {
        String::from_str(THUMB_EMPTY)
    }
}

pub open spec fn content_html(content: Option<String>) -> Seq<char> {
    let c = text_or(content, Seq::empty());
    if c.len() == 0 {
        CONTENT_EMPTY@
    } else {
        br_before_newlines(auto_linked(escaped(c)))
    }
}

fn build_content(content: &Option<String>) -> (r: String)
    ensures
        r@ == content_html(*content),
{
    let c = text_of(content);
    if c.is_empty() {
        String::from_str(CONTENT_EMPTY)
    } else {
        let e = esc(c);
        let l = auto_link_urls(e.as_str());
        replace_newlines(l.as_str())
    }
}

pub open spec fn attachment_row(n: nat, a: PageAttachment) -> Seq<char> {
    let name = escaped(text_or(a.name, Seq::empty()));
    let ext = text_or(a.extension, Seq::empty());
    ATT_ROW_OPEN@ + decimal(n) + ATT_ROW_ICON@ + icon_for(ext) + ATT_ROW_HREF@ + name
        + ATT_ROW_TITLE@ + name + ATT_ROW_TEXT@ + name + ATT_ROW_EXT@ + escaped(ext)
        + ATT_ROW_CLOSE@
}

/// The table rows of the attachments, numbered from 1.
pub open spec fn attachment_rows(atts: Seq<PageAttachment>) -> Seq<char>
    decreases atts.len(),
{
    if atts.len() == 0 {
        Seq::empty()
    } else {
        attachment_rows(atts.drop_last()) + attachment_row(atts.len(), atts.last())
    }
}

pub open spec fn attachments_html(atts: Option<Vec<PageAttachment>>) -> Seq<char> {
    match atts {
        Some(v) => attachment_rows(v@),
        None => Seq::empty(),
    }
}

pub open spec fn list_count<T>(l: Option<Vec<T>>) -> nat {
    match l {
        Some(v) => v@.len(),
        None => 0,
    }
}

fn build_attachment_row(n: u64, a: &PageAttachment) -> (r: String)
    ensures
        r@ == attachment_row(n as nat, *a),
{
    let name = esc(text_of(&a.name));
    let ext = text_of(&a.extension);
    let mut r = String::from_str(ATT_ROW_OPEN);
    push_decimal(&mut r, n);
    r.append(ATT_ROW_ICON);
    r.append(ext_icon(ext));
    r.append(ATT_ROW_HREF);
    r.append(name.as_str());
    r.append(ATT_ROW_TITLE);
    r.append(name.as_str());
    r.append(ATT_ROW_TEXT);
    r.append(name.as_str());
    r.append(ATT_ROW_EXT);
    let ee = esc(ext);
    r.append(ee.as_str());
    r.append(ATT_ROW_CLOSE);
    r
}

fn build_attachment_rows(atts: &Option<Vec<PageAttachment>>) -> (r: String)
    ensures
        r@ == attachments_html(*atts),
{
    let mut r = String::new();
    match atts {
        Some(v) => {
            let mut i: usize = 0;
            while i < v.len()
                invariant
                    i <= v.len(),
                    r@ == attachment_rows(v@.take(i as int)),
                decreases v.len() - i,
            {
                assert(v@.take(i + 1).drop_last() =~= v@.take(i as int));
                let row = build_attachment_row((i + 1) as u64, &v[i]);
                r.append(row.as_str());
                i = i + 1;
            }
            assert(v@.take(v.len() as int) =~= v@);
        },
        None => {},
    }
    r
}

pub open spec fn figure(name: Option<String>) -> Seq<char> {
    let e = escaped(text_or(name, Seq::empty()));
    FIGURE_OPEN@ + e + FIGURE_ALT@ + e + FIGURE_CAPTION@ + e + FIGURE_CLOSE@
}

pub open spec fn figures(names: Seq<Option<String>>) -> Seq<char>
    decreases names.len(),
{
    if names.len() == 0 {
        Seq::empty()
    } else {
        figures(names.drop_last()) + figure(names.last())
    }
}

/// The previews after the first, which is the thumbnail.
pub open spec fn previews_html(previews: Option<Vec<Option<String>>>) -> Seq<char> {
    match previews {
        Some(v) => if v@.len() > 0 {
            figures(v@.skip(1))
        } else {
            Seq::empty()
        },
        None => Seq::empty(),
    }
}

fn build_figure(name: &Option<String>) -> (r: String)
    ensures
        r@ == figure(*name),
{
    let e = esc(text_of(name));
    let mut r = String::from_str(FIGURE_OPEN);
    r.append(e.as_str());
    r.append(FIGURE_ALT);
    r.append(e.as_str());
    r.append(FIGURE_CAPTION);
    r.append(e.as_str());
    r.append(FIGURE_CLOSE);
    r
}

fn build_previews(previews: &Option<Vec<Option<String>>>) -> (r: String)
    ensures
        r@ == previews_html(*previews),
{
    let mut r = String::new();
    match previews {
        Some(v) => {
            if v.len() > 0 {
                let ghost rest = v@.skip(1);
                let mut i: usize = 1;
                while i < v.len()
                    invariant
                        1 <= i <= v.len(),
                        rest == v@.skip(1),
                        r@ == figures(rest.take(i - 1)),
                    decreases v.len() - i,
                {
                    assert(rest.take(i as int).drop_last() =~= rest.take(i - 1));
                    assert(rest.take(i as int).last() == v@[i as int]);
                    let f = build_figure(&v[i]);
                    r.append(f.as_str());
                    i = i + 1;
                }
                assert(rest.take(v.len() - 1) =~= rest);
            }
        },
        None => {},
    }
    r
}

pub open spec fn video_item(name: Option<String>) -> Seq<char> {
    let e = escaped(text_or(name, Seq::empty()));
    VIDEO_OPEN@ + e + VIDEO_TEXT@ + e + VIDEO_CLOSE@
}

pub open spec fn video_items(names: Seq<Option<String>>) -> Seq<char>
    decreases names.len(),
{
    if names.len() == 0 {
        Seq::empty()
    } else {
        video_items(names.drop_last()) + video_item(names.last())
    }
}

pub open spec fn videos_html(videos: Option<Vec<Option<String>>>) -> Seq<char> {
    match videos {
        Some(v) => video_items(v@),
        None => Seq::empty(),
    }
}

fn build_video_item(name: &Option<String>) -> (r: String)
    ensures
        r@ == video_item(*name),
{
    let e = esc(text_of(name));
    let mut r = String::from_str(VIDEO_OPEN);
    r.append(e.as_str());
    r.append(VIDEO_TEXT);
    r.append(e.as_str());
    r.append(VIDEO_CLOSE);
    r
}

fn build_videos(videos: &Option<Vec<Option<String>>>) -> (r: String)
    ensures
        r@ == videos_html(*videos),
{
    let mut r = String::new();
    match videos {
        Some(v) => {
            let mut i: usize = 0;
            while i < v.len()
                invariant
                    i <= v.len(),
                    r@ == video_items(v@.take(i as int)),
                decreases v.len() - i,
            {
                assert(v@.take(i + 1).drop_last() =~= v@.take(i as int));
                let item = build_video_item(&v[i]);
                r.append(item.as_str());
                i = i + 1;
            }
            assert(v@.take(v.len() as int) =~= v@);
        },
        None => {},
    }
    r
}

pub open spec fn embed_rows(es: Seq<EmbedEntry>) -> Seq<char>
    decreases es.len(),
{
    if es.len() == 0 {
        Seq::empty()
    } else {
        embed_rows(es.drop_last()) + EMBED_KEY_OPEN@ + escaped(es.last().key@)
            + EMBED_VALUE_OPEN@ + escaped(es.last().value@) + EMBED_ROW_CLOSE@
    }
}

/// The embed section, shown only for a non-empty embed object.
pub open spec fn embed_html(embed: Option<Vec<EmbedEntry>>) -> Seq<char> {
    match embed {
        Some(v) => if v@.len() > 0 {
            EMBED_OPEN@ + embed_rows(v@) + EMBED_CLOSE@
        } else {
            Seq::empty()
        },
        None => Seq::empty(),
    }
}

fn build_embed(embed: &Option<Vec<EmbedEntry>>) -> (r: String)
    ensures
        r@ == embed_html(*embed),
{
    let mut r = String::new();
    match embed {
        Some(v) => {
            if v.len() > 0 {
                let mut rows = String::new();
                let mut i: usize = 0;
                while i < v.len()
                    invariant
                        i <= v.len(),
                        rows@ == embed_rows(v@.take(i as int)),
                    decreases v.len() - i,
                {
                    assert(v@.take(i + 1).drop_last() =~= v@.take(i as int));
                    let k = esc(v[i].key.as_str());
                    let val = esc(v[i].value.as_str());
                    rows.append(EMBED_KEY_OPEN);
                    rows.append(k.as_str());
                    rows.append(EMBED_VALUE_OPEN);
                    rows.append(val.as_str());
                    rows.append(EMBED_ROW_CLOSE);
                    i = i + 1;
                }
                assert(v@.take(v.len() as int) =~= v@);
                r = String::from_str(EMBED_OPEN);
                r.append(rows.as_str());
                r.append(EMBED_CLOSE);
            }
        },
        None => {},
    }
    r
}

pub open spec fn tag_items(tags: Seq<Option<String>>) -> Seq<char>
    decreases tags.len(),
{
    if tags.len() == 0 {
        Seq::empty()
    } else {
        tag_items(tags.drop_last()) + TAG_OPEN@ + escaped(text_or(tags.last(), Seq::empty()))
            + TAG_CLOSE@
    }
}

/// The tags section, shown only for a non-empty tag list.
pub open spec fn tags_html(tags: Option<Vec<Option<String>>>) -> Seq<char> {
    match tags {
        Some(v) => if v@.len() > 0 {
            TAGS_OPEN@ + tag_items(v@) + TAGS_CLOSE@
        } else {
            Seq::empty()
        },
        None => Seq::empty(),
    }
}

fn build_tags(tags: &Option<Vec<Option<String>>>) -> (r: String)
    ensures
        r@ == tags_html(*tags),
{
    let mut r = String::new();
    match tags {
        Some(v) => {
            if v.len() > 0 {
                let mut items = String::new();
                let mut i: usize = 0;
                while i < v.len()
                    invariant
                        i <= v.len(),
                        items@ == tag_items(v@.take(i as int)),
                    decreases v.len() - i,
                {
                    assert(v@.take(i + 1).drop_last() =~= v@.take(i as int));
                    let t = esc(text_of(&v[i]));
                    items.append(TAG_OPEN);
                    items.append(t.as_str());
                    items.append(TAG_CLOSE);
                    i = i + 1;
                }
                assert(v@.take(v.len() as int) =~= v@);
                r = String::from_str(TAGS_OPEN);
                r.append(items.as_str());
                r.append(TAGS_CLOSE);
            }
        },
        None => {},
    }
    r
}

pub open spec fn main_file_html(file: Option<Option<String>>) -> Seq<char> {
    match file {
        Some(name) => {
            let e = escaped(text_or(name, Seq::empty()));
            MAIN_FILE_OPEN@ + e + MAIN_FILE_TEXT@ + e + MAIN_FILE_CLOSE@
        },
        None => Seq::empty(),
    }
}

fn build_main_file(file: &Option<Option<String>>) -> (r: String)
    ensures
        r@ == main_file_html(*file),
{
    let mut r = String::new();
    match file {
        Some(name) => {
            let e = esc(text_of(name));
            r = String::from_str(MAIN_FILE_OPEN);
            r.append(e.as_str());
            r.append(MAIN_FILE_TEXT);
            r.append(e.as_str());
            r.append(MAIN_FILE_CLOSE);
        },
        None => {},
    }
    r
}

/// The address of a post on the site.
pub open spec fn post_url(service: Seq<char>, user: Seq<char>, id: Seq<char>) -> Seq<char> {
    POST_URL_BASE@ + service + POST_URL_USER@ + user + POST_URL_POST@ + id
}

fn build_post_url(service: &str, user: &str, id: &str) -> (r: String)
    ensures
        r@ == post_url(service@, user@, id@),
{
    let mut r = String::from_str(POST_URL_BASE);
    r.append(service);
    r.append(POST_URL_USER);
    r.append(user);
    r.append(POST_URL_POST);
    r.append(id);
    r
}

pub open spec fn nav_html(
    service: Seq<char>,
    user: Seq<char>,
    id: Seq<char>,
    prev: Option<String>,
    next: Option<String>,
) -> Seq<char> {
    let home = NAV_HOME_OPEN@ + post_url(service, user, id) + NAV_HOME_CLOSE@;
    let with_prev = match prev {
        Some(p) => home + NAV_PREV_OPEN@ + post_url(service, user, p@) + NAV_PREV_TEXT@ + p@
            + NAV_PREV_CLOSE@,
        None => home,
    };
    match next {
        Some(n) => with_prev + NAV_NEXT_OPEN@ + post_url(service, user, n@) + NAV_NEXT_TEXT@ + n@
            + NAV_NEXT_CLOSE@,
        None => with_prev,
    }
}

fn build_nav(
    service: &str,
    user: &str,
    id: &str,
    prev: &Option<String>,
    next: &Option<String>,
) -> (r: String)
    ensures
        r@ == nav_html(service@, user@, id@, *prev, *next),
{
    let home = build_post_url(service, user, id);
    let mut r = String::from_str(NAV_HOME_OPEN);
    r.append(home.as_str());
    r.append(NAV_HOME_CLOSE);
    match prev {
        Some(p) => {
            let u = build_post_url(service, user, p.as_str());
            r.append(NAV_PREV_OPEN);
            r.append(u.as_str());
            r.append(NAV_PREV_TEXT);
            r.append(p.as_str());
            r.append(NAV_PREV_CLOSE);
        },
        None => {},
    }
    match next {
        Some(n) => {
            let u = build_post_url(service, user, n.as_str());
            r.append(NAV_NEXT_OPEN);
            r.append(u.as_str());
            r.append(NAV_NEXT_TEXT);
            r.append(n.as_str());
            r.append(NAV_NEXT_CLOSE);
        },
        None => {},
    }
    r
}

pub open spec fn edited_html(edited: Option<String>) -> Seq<char> {
    match edited {
        Some(e) => EDITED_OPEN@ + escaped(e@) + EDITED_CLOSE@,
        None => Seq::empty(),
    }
}

fn build_edited(edited: &Option<String>) -> (r: String)
    ensures
        r@ == edited_html(*edited),
{
    let mut r = String::new();
    match edited {
        Some(e) => {
            let x = esc(e.as_str());
            r = String::from_str(EDITED_OPEN);
            r.append(x.as_str());
            r.append(EDITED_CLOSE);
        },
        None => {},
    }
    r
}

pub open spec fn shared_text(shared: Option<bool>) -> Seq<char> {
    match shared {
        Some(true) => SHARED_YES@,
        _ => SHARED_NO@,
    }
}

/// The page's title, or the placeholder for a post without one.
pub open spec fn page_title(p: PostPage) -> Seq<char> {
    text_or(p.title, UNTITLED@)
}

/// The whole post information page.
pub open spec fn post_html(p: PostPage) -> Seq<char> {
    let title = escaped(page_title(p));
    let id = text_or(p.id, Seq::empty());
    let service = text_or(p.service, Seq::empty());
    let user = text_or(p.user, Seq::empty());
    let home = post_url(service, user, id);
    DOC_START@ + title + TITLE_SEPARATOR@ + escaped(id) + HEAD_AND_STYLE@ + title + BADGE_OPEN@
        + escaped(service) + INFO_OPEN@ + escaped(id) + ROW_SERVICE@ + escaped(service)
        + ROW_CREATOR@ + escaped(user) + ROW_PUBLISHED@ + escaped(
        text_or(p.published, Seq::empty()),
    ) + ROW_ADDED@ + escaped(text_or(p.added, Seq::empty())) + DD_CLOSE@ + edited_html(p.edited)
        + ROW_SHARED@ + shared_text(p.shared_file) + INFO_CLOSE@ + thumb_html(p.previews)
        + CONTENT_OPEN@ + content_html(p.content) + CONTENT_CLOSE@ + main_file_html(p.file)
        + SECTION_BREAK@ + embed_html(p.embed) + SECTION_BREAK@ + tags_html(p.tags)
        + ATTACHMENTS_OPEN@ + decimal(list_count(p.attachments)) + ATTACHMENTS_TABLE@
        + attachments_html(p.attachments) + ATTACHMENTS_CLOSE@ + previews_html(p.previews)
        + PREVIEWS_CLOSE@ + decimal(list_count(p.videos)) + VIDEO_LIST_OPEN@ + videos_html(
        p.videos,
    ) + VIDEOS_CLOSE@ + nav_html(service, user, id, p.prev, p.next) + NAV_CLOSE@ + home
        + FOOTER_LINK@ + home + DOC_END@
}

/// Builds the post information page of a post detail. All file links are
/// relative: the files lie in the same folder as the page.
pub fn generate_post_html(page: &PostPage) -> (r: String)
    ensures
        r@ == post_html(*page),
{
    let title = esc(str_or(&page.title, UNTITLED));
    let id = text_of(&page.id);
    let service = text_of(&page.service);
    let user = text_of(&page.user);
    let id_e = esc(id);
    let service_e = esc(service);
    let user_e = esc(user);
    let published_e = esc(text_of(&page.published));
    let added_e = esc(text_of(&page.added));
    let edited = build_edited(&page.edited);
    let shared: &str = match page.shared_file {
        Some(true) => SHARED_YES,
        _ => SHARED_NO,
    };
    let thumb = build_thumb(&page.previews);
    let content = build_content(&page.content);
    let main_file = build_main_file(&page.file);
    let embed = build_embed(&page.embed);
    let tags = build_tags(&page.tags);
    let att_count: usize = match &page.attachments {
        Some(v) => v.len(),
        None => 0,
    };
    let rows = build_attachment_rows(&page.attachments);
    let previews = build_previews(&page.previews);
    let vid_count: usize = match &page.videos {
        Some(v) => v.len(),
        None => 0,
    };
    let videos = build_videos(&page.videos);
    let nav = build_nav(service, user, id, &page.prev, &page.next);
    let home = build_post_url(service, user, id);

    let mut r = String::from_str(DOC_START);
    r.append(title.as_str());
    r.append(TITLE_SEPARATOR);
    r.append(id_e.as_str());
    r.append(HEAD_AND_STYLE);
    r.append(title.as_str());
    r.append(BADGE_OPEN);
    r.append(service_e.as_str());
    r.append(INFO_OPEN);
    r.append(id_e.as_str());
    r.append(ROW_SERVICE);
    r.append(service_e.as_str());
    r.append(ROW_CREATOR);
    r.append(user_e.as_str());
    r.append(ROW_PUBLISHED);
    r.append(published_e.as_str());
    r.append(ROW_ADDED);
    r.append(added_e.as_str());
    r.append(DD_CLOSE);
    r.append(edited.as_str());
    r.append(ROW_SHARED);
    r.append(shared);
    r.append(INFO_CLOSE);
    r.append(thumb.as_str());
    r.append(CONTENT_OPEN);
    r.append(content.as_str());
    r.append(CONTENT_CLOSE);
    r.append(main_file.as_str());
    r.append(SECTION_BREAK);
    r.append(embed.as_str());
    r.append(SECTION_BREAK);
    r.append(tags.as_str());
    r.append(ATTACHMENTS_OPEN);
    push_decimal(&mut r, att_count as u64);
    r.append(ATTACHMENTS_TABLE);
    r.append(rows.as_str());
    r.append(ATTACHMENTS_CLOSE);
    r.append(previews.as_str());
    r.append(PREVIEWS_CLOSE);
    push_decimal(&mut r, vid_count as u64);
    r.append(VIDEO_LIST_OPEN);
    r.append(videos.as_str());
    r.append(VIDEOS_CLOSE);
    r.append(nav.as_str());
    r.append(NAV_CLOSE);
    r.append(home.as_str());
    r.append(FOOTER_LINK);
    r.append(home.as_str());
    r.append(DOC_END);
    r
}


// ---------------------------------------------------------------- laws

proof fn lemma_trim_trailing_is_prefix(s: Seq<char>)
    ensures
        trim_trailing(s).len() <= s.len(),
        trim_trailing(s) == s.take(trim_trailing(s).len() as int),
        trim_trailing(s).len() > 0 ==> !is_trailing_trim(trim_trailing(s).last()),
        forall|i: int| trim_trailing(s).len() <= i < s.len() ==> is_trailing_trim(#[trigger] s[i]),
    decreases s.len(),
{
    if s.len() > 0 && is_trailing_trim(s.last()) {
        lemma_trim_trailing_is_prefix(s.drop_last());
        let t = trim_trailing(s.drop_last());
        assert(s.drop_last().take(t.len() as int) =~= s.take(t.len() as int));
        assert forall|i: int| t.len() <= i < s.len() implies is_trailing_trim(#[trigger] s[i]) by {
            if i < s.len() - 1 {
                assert(s[i] == s.drop_last()[i]);
            }
        }
    } else {
        assert(s.take(s.len() as int) =~= s);
    }
}

/// A folder name holds none of `/ \ : * ? " < > |`, no control character, and
/// does not end with a dot or a space.
pub proof fn lemma_sanitized_is_clean(name: Seq<char>)
    ensures
        forall|i: int|
            0 <= i < sanitized(name).len() ==> !is_forbidden_in_name(#[trigger] sanitized(name)[i])
                && !is_control_char(sanitized(name)[i]),
        sanitized(name).len() > 0 ==> !is_trailing_trim(sanitized(name).last()),
{
    let m = name.map_values(|c: char| name_char(c));
    lemma_trim_trailing_is_prefix(m);
}

/// Sanitizing a folder name a second time changes nothing.
pub proof fn lemma_sanitize_idempotent(name: Seq<char>)
    ensures
        sanitized(sanitized(name)) == sanitized(name),
{
    let m = name.map_values(|c: char| name_char(c));
    let t = sanitized(name);
    lemma_trim_trailing_is_prefix(m);
    let t2 = t.map_values(|c: char| name_char(c));
    assert(t2 =~= t);
    assert(trim_trailing(t) == t);
}

/// Escaped text holds no `<`, `>` or `"`, so it cannot open or close a tag or an
/// attribute value.
pub proof fn lemma_escaped_has_no_markup(s: Seq<char>)
    ensures
        forall|i: int|
            0 <= i < escaped(s).len() ==> #[trigger] escaped(s)[i] != '<' && escaped(s)[i] != '>'
                && escaped(s)[i] != '"',
    decreases s.len(),
{
    reveal_strlit("&amp;");
    reveal_strlit("&lt;");
    reveal_strlit("&gt;");
    reveal_strlit("&quot;");
    if s.len() > 0 {
        lemma_escaped_has_no_markup(s.drop_last());
        let p = escaped(s.drop_last());
        let e = esc_char(s.last());
        assert forall|i: int| 0 <= i < escaped(s).len() implies #[trigger] escaped(s)[i] != '<'
            && escaped(s)[i] != '>' && escaped(s)[i] != '"' by {
            if i >= p.len() {
                assert(escaped(s)[i] == e[i - p.len()]);
            } else {
                assert(escaped(s)[i] == p[i]);
            }
        }
    }
}

/// Text without `&`, `<`, `>` and `"` is left as it is by escaping.
pub proof fn lemma_escaped_plain_text(s: Seq<char>)
    requires
        forall|i: int|
            0 <= i < s.len() ==> #[trigger] s[i] != '&' && s[i] != '<' && s[i] != '>' && s[i]
                != '"',
    ensures
        escaped(s) == s,
    decreases s.len(),
{
    if s.len() > 0 {
        lemma_escaped_plain_text(s.drop_last());
        assert(s.drop_last().push(s.last()) =~= s);
    }
}


/// No line feed in `s`.
pub open spec fn no_line_feed(s: Seq<char>) -> bool {
    forall|i: int| 0 <= i < s.len() ==> #[trigger] s[i] != '\n'
}

proof fn lemma_concat_no_line_feed(a: Seq<char>, b: Seq<char>)
    requires
        no_line_feed(a),
        no_line_feed(b),
    ensures
        no_line_feed(a + b),
{
    assert forall|i: int| 0 <= i < (a + b).len() implies #[trigger] (a + b)[i] != '\n' by {
        if i < a.len() {
            assert((a + b)[i] == a[i]);
        } else {
            assert((a + b)[i] == b[i - a.len()]);
        }
    }
}

proof fn lemma_word_state_no_line_feed(s: Seq<char>)
    ensures
        no_line_feed(word_state(s).1),
        forall|k: int| 0 <= k < word_state(s).0.len() ==> no_line_feed(#[trigger] word_state(s).0[k]),
    decreases s.len(),
{
    if s.len() > 0 {
        lemma_word_state_no_line_feed(s.drop_last());
        let (ws, cur) = word_state(s.drop_last());
        if !is_white_space(s.last()) {
            assert forall|i: int| 0 <= i < cur.push(s.last()).len() implies #[trigger] cur.push(
                s.last(),
            )[i] != '\n' by {
                if i < cur.len() {
                    assert(cur.push(s.last())[i] == cur[i]);
                }
            }
        } else if cur.len() > 0 {
            assert forall|k: int| 0 <= k < ws.push(cur).len() implies no_line_feed(
                #[trigger] ws.push(cur)[k],
            ) by {
                if k < ws.len() {
                    assert(ws.push(cur)[k] == ws[k]);
                }
            }
        }
    }
}

proof fn lemma_linked_words_no_line_feed(ws: Seq<Seq<char>>)
    requires
        forall|k: int| 0 <= k < ws.len() ==> no_line_feed(#[trigger] ws[k]),
    ensures
        no_line_feed(linked_words(ws)),
    decreases ws.len(),
{
    reveal_strlit("<a href=\"");
    reveal_strlit("\" target=\"_blank\" rel=\"noopener\">");
    reveal_strlit("</a>");
    if ws.len() > 0 {
        let w = ws.last();
        assert(no_line_feed(w));
        let a = "<a href=\""@;
        let b = "\" target=\"_blank\" rel=\"noopener\">"@;
        let c = "</a>"@;
        assert(no_line_feed(a));
        assert(no_line_feed(b));
        assert(no_line_feed(c));
        lemma_concat_no_line_feed(a, w);
        lemma_concat_no_line_feed(a + w, b);
        lemma_concat_no_line_feed(a + w + b, w);
        lemma_concat_no_line_feed(a + w + b + w, c);
        assert(no_line_feed(linked_word(w)));
        if ws.len() > 1 {
            let p = ws.drop_last();
            assert forall|k: int| 0 <= k < p.len() implies no_line_feed(#[trigger] p[k]) by {
                assert(p[k] == ws[k]);
            }
            lemma_linked_words_no_line_feed(p);
            let q = linked_words(p);
            assert(no_line_feed(seq![' ']));
            lemma_concat_no_line_feed(q, seq![' ']);
            assert(q.push(' ') =~= q + seq![' ']);
            lemma_concat_no_line_feed(q.push(' '), linked_word(w));
        } else {
            assert(ws[0] == w);
        }
    }
}

proof fn lemma_linked_lines_no_line_feed(ls: Seq<Seq<char>>)
    ensures
        no_line_feed(linked_lines(ls)),
    decreases ls.len(),
{
    reveal_strlit("<br>");
    if ls.len() > 0 {
        lemma_linked_lines_no_line_feed(ls.drop_last());
        let acc = linked_lines(ls.drop_last());
        let ws = words(ls.last());
        lemma_word_state_no_line_feed(ls.last());
        let (done, cur) = word_state(ls.last());
        if cur.len() > 0 {
            assert forall|k: int| 0 <= k < done.push(cur).len() implies no_line_feed(
                #[trigger] done.push(cur)[k],
            ) by {
                if k < done.len() {
                    assert(done.push(cur)[k] == done[k]);
                }
            }
        }
        lemma_linked_words_no_line_feed(ws);
        let line = linked_words(ws);
        assert(no_line_feed("<br>"@));
        lemma_concat_no_line_feed(acc, "<br>"@);
        lemma_concat_no_line_feed(acc + "<br>"@, line);
        lemma_concat_no_line_feed(acc, line);
    }
}

proof fn lemma_no_line_feed_unchanged(s: Seq<char>)
    requires
        no_line_feed(s),
    ensures
        br_before_newlines(s) == s,
    decreases s.len(),
{
    if s.len() > 0 {
        assert(s.last() == s[s.len() - 1]);
        let p = s.drop_last();
        assert forall|i: int| 0 <= i < p.len() implies #[trigger] p[i] != '\n' by {
            assert(p[i] == s[i]);
        }
        lemma_no_line_feed_unchanged(p);
        assert(p.push(s.last()) =~= s);
    }
}

/// Linking collapses every run of white space, line feeds included, to a single
/// space, so the linked text holds no line feed and the `<br>` insertion that
/// follows it in the page leaves it unchanged.
pub proof fn lemma_linked_text_has_no_line_feed(text: Seq<char>)
    ensures
        no_line_feed(auto_linked(text)),
        br_before_newlines(auto_linked(text)) == auto_linked(text),
{
    lemma_linked_lines_no_line_feed(br_lines(text));
    lemma_no_line_feed_unchanged(auto_linked(text));
}


/// `piece` occurs in `s` as a contiguous part.
pub open spec fn occurs_in(piece: Seq<char>, s: Seq<char>) -> bool {
    exists|i: int|
        0 <= i && i + piece.len() <= s.len() && #[trigger] s.subrange(i, i + piece.len()) == piece
}

proof fn lemma_occurs_in_itself(x: Seq<char>)
    ensures
        occurs_in(x, x),
{
    let i: int = 0;
    assert(x.subrange(i, i + x.len()) =~= x);
}

proof fn lemma_occurs_in_left(x: Seq<char>, a: Seq<char>, b: Seq<char>)
    requires
        occurs_in(x, a),
    ensures
        occurs_in(x, a + b),
{
    let i = choose|i: int| 0 <= i && i + x.len() <= a.len() && #[trigger] a.subrange(i, i + x.len()) == x;
    assert((a + b).subrange(i, i + x.len()) =~= a.subrange(i, i + x.len()));
}

proof fn lemma_occurs_in_right(x: Seq<char>, a: Seq<char>, b: Seq<char>)
    requires
        occurs_in(x, b),
    ensures
        occurs_in(x, a + b),
{
    let i = choose|i: int| 0 <= i && i + x.len() <= b.len() && #[trigger] b.subrange(i, i + x.len()) == x;
    let j = a.len() + i;
    assert((a + b).subrange(j, j + x.len()) =~= b.subrange(i, i + x.len()));
}

proof fn lemma_occurs_in_middle(x: Seq<char>, a: Seq<char>, b: Seq<char>)
    ensures
        occurs_in(x, a + x + b),
{
    lemma_occurs_in_itself(x);
    lemma_occurs_in_right(x, a, x);
    lemma_occurs_in_left(x, a + x, b);
}

proof fn lemma_occurs_in_concat(x: Seq<char>)
    ensures
        forall|a: Seq<char>, b: Seq<char>|
            #![trigger occurs_in(x, a + b)]
            occurs_in(x, a) ==> occurs_in(x, a + b),
        forall|a: Seq<char>, b: Seq<char>|
            #![trigger occurs_in(x, a + b)]
            occurs_in(x, b) ==> occurs_in(x, a + b),
{
    assert forall|a: Seq<char>, b: Seq<char>| occurs_in(x, a) implies #[trigger] occurs_in(
        x,
        a + b,
    ) by {
        lemma_occurs_in_left(x, a, b);
    }
    assert forall|a: Seq<char>, b: Seq<char>| occurs_in(x, b) implies #[trigger] occurs_in(
        x,
        a + b,
    ) by {
        lemma_occurs_in_right(x, a, b);
    }
}

/// The link of an attachment: the escaped name between `href="` and `"`.
pub open spec fn attachment_link(a: PageAttachment) -> Seq<char> {
    ATT_ROW_HREF@ + escaped(text_or(a.name, Seq::empty())) + ATT_ROW_TITLE@
}

/// The link of a video: the escaped name between `href="` and `"`.
pub open spec fn video_link(name: Option<String>) -> Seq<char> {
    VIDEO_OPEN@ + escaped(text_or(name, Seq::empty())) + VIDEO_TEXT@
}

/// The image of a preview: the escaped name between `src="` and `"`.
pub open spec fn preview_image(name: Option<String>) -> Seq<char> {
    FIGURE_OPEN@ + escaped(text_or(name, Seq::empty())) + FIGURE_ALT@
}

/// The thumbnail: the escaped name of the first preview between `src="` and `"`.
pub open spec fn thumbnail_image(name: Seq<char>) -> Seq<char> {
    THUMB_OPEN@ + escaped(name) + THUMB_CLOSE@
}

/// The link of the main file: the escaped name between `href="` and `"`.
pub open spec fn main_file_link(name: Option<String>) -> Seq<char> {
    MAIN_FILE_OPEN@ + escaped(text_or(name, Seq::empty())) + MAIN_FILE_TEXT@
}

proof fn lemma_attachment_rows_link(atts: Seq<PageAttachment>, k: int)
    requires
        0 <= k < atts.len(),
    ensures
        occurs_in(attachment_link(atts[k]), attachment_rows(atts)),
    decreases atts.len(),
{
    let x = attachment_link(atts[k]);
    let prev = attachment_rows(atts.drop_last());
    let row = attachment_row(atts.len(), atts.last());
    if k == atts.len() - 1 {
        let a = atts.last();
        let name = escaped(text_or(a.name, Seq::empty()));
        let ext = text_or(a.extension, Seq::empty());
        let pre = ATT_ROW_OPEN@ + decimal(atts.len()) + ATT_ROW_ICON@ + icon_for(ext);
        let post = name + ATT_ROW_TEXT@ + name + ATT_ROW_EXT@ + escaped(ext) + ATT_ROW_CLOSE@;
        assert(row =~= pre + x + post);
        lemma_occurs_in_middle(x, pre, post);
        lemma_occurs_in_right(x, prev, row);
    } else {
        lemma_attachment_rows_link(atts.drop_last(), k);
        assert(atts.drop_last()[k] == atts[k]);
        lemma_occurs_in_left(x, prev, row);
    }
}

proof fn lemma_video_items_link(names: Seq<Option<String>>, k: int)
    requires
        0 <= k < names.len(),
    ensures
        occurs_in(video_link(names[k]), video_items(names)),
    decreases names.len(),
{
    let x = video_link(names[k]);
    let prev = video_items(names.drop_last());
    let item = video_item(names.last());
    if k == names.len() - 1 {
        let e = escaped(text_or(names.last(), Seq::empty()));
        assert(item =~= Seq::<char>::empty() + x + (e + VIDEO_CLOSE@));
        lemma_occurs_in_middle(x, Seq::<char>::empty(), e + VIDEO_CLOSE@);
        lemma_occurs_in_right(x, prev, item);
    } else {
        lemma_video_items_link(names.drop_last(), k);
        assert(names.drop_last()[k] == names[k]);
        lemma_occurs_in_left(x, prev, item);
    }
}

proof fn lemma_figures_image(names: Seq<Option<String>>, k: int)
    requires
        0 <= k < names.len(),
    ensures
        occurs_in(preview_image(names[k]), figures(names)),
    decreases names.len(),
{
    let x = preview_image(names[k]);
    let prev = figures(names.drop_last());
    let fig = figure(names.last());
    if k == names.len() - 1 {
        let e = escaped(text_or(names.last(), Seq::empty()));
        let post = e + FIGURE_CAPTION@ + e + FIGURE_CLOSE@;
        assert(fig =~= Seq::<char>::empty() + x + post);
        lemma_occurs_in_middle(x, Seq::<char>::empty(), post);
        lemma_occurs_in_right(x, prev, fig);
    } else {
        lemma_figures_image(names.drop_last(), k);
        assert(names.drop_last()[k] == names[k]);
        lemma_occurs_in_left(x, prev, fig);
    }
}

/// All file links of the page are local: the main file, every attachment and
/// every video is linked by its own name, and every preview is shown from its own
/// name (the first one as the thumbnail), so the page finds the files in its own
/// folder. (The name is escaped, which an HTML reader undoes.)
pub proof fn lemma_file_links_are_local(p: PostPage)
    ensures
        p.file matches Some(name) ==> occurs_in(main_file_link(name), post_html(p)),
        p.attachments matches Some(v) ==> forall|k: int|
            0 <= k < v@.len() ==> occurs_in(attachment_link(#[trigger] v@[k]), post_html(p)),
        p.videos matches Some(v) ==> forall|k: int|
            0 <= k < v@.len() ==> occurs_in(video_link(#[trigger] v@[k]), post_html(p)),
        p.previews matches Some(v) ==> forall|k: int|
            1 <= k < v@.len() ==> occurs_in(preview_image(#[trigger] v@[k]), post_html(p)),
        master_thumb_name(p.previews).len() > 0 ==> occurs_in(
            thumbnail_image(master_thumb_name(p.previews)),
            post_html(p),
        ),
{
    if master_thumb_name(p.previews).len() > 0 {
        let x = thumbnail_image(master_thumb_name(p.previews));
        assert(thumb_html(p.previews) =~= x);
        lemma_occurs_in_itself(x);
        lemma_occurs_in_concat(x);
    }
    match p.file {
        Some(name) => {
            let x = main_file_link(name);
            let e = escaped(text_or(name, Seq::empty()));
            assert(main_file_html(p.file) =~= Seq::<char>::empty() + x + (e + MAIN_FILE_CLOSE@));
            lemma_occurs_in_middle(x, Seq::<char>::empty(), e + MAIN_FILE_CLOSE@);
            lemma_occurs_in_concat(x);
        },
        None => {},
    }
    match p.attachments {
        Some(v) => {
            assert forall|k: int| 0 <= k < v@.len() implies occurs_in(
                attachment_link(#[trigger] v@[k]),
                post_html(p),
            ) by {
                lemma_attachment_rows_link(v@, k);
                lemma_occurs_in_concat(attachment_link(v@[k]));
            }
        },
        None => {},
    }
    match p.videos {
        Some(v) => {
            assert forall|k: int| 0 <= k < v@.len() implies occurs_in(
                video_link(#[trigger] v@[k]),
                post_html(p),
            ) by {
                lemma_video_items_link(v@, k);
                lemma_occurs_in_concat(video_link(v@[k]));
            }
        },
        None => {},
    }
    match p.previews {
        Some(v) => {
            assert forall|k: int| 1 <= k < v@.len() implies occurs_in(
                preview_image(#[trigger] v@[k]),
                post_html(p),
            ) by {
                assert(v@.skip(1)[k - 1] == v@[k]);
                lemma_figures_image(v@.skip(1), k - 1);
                lemma_occurs_in_concat(preview_image(v@[k]));
            }
        },
        None => {},
    }
}


/// The address of a post on the site, spelled out: `https://kemono.cr/<service>/user/<user>/post/<id>`.
pub open spec fn site_post_address(service: Seq<char>, user: Seq<char>, id: Seq<char>) -> Seq<char> {
    "https://kemono.cr/"@ + service + "/user/"@ + user + "/post/"@ + id
}

proof fn lemma_post_url_spelled(service: Seq<char>, user: Seq<char>, id: Seq<char>)
    ensures
        post_url(service, user, id) == site_post_address(service, user, id),
{
    assert(POST_URL_BASE@ == "https://kemono.cr/"@);
    assert(POST_URL_USER@ == "/user/"@);
    assert(POST_URL_POST@ == "/post/"@);
}

proof fn lemma_nav_html_links(
    service: Seq<char>,
    user: Seq<char>,
    id: Seq<char>,
    prev: Option<String>,
    next: Option<String>,
)
    ensures
        occurs_in(
            NAV_HOME_OPEN@ + post_url(service, user, id) + NAV_HOME_CLOSE@,
            nav_html(service, user, id, prev, next),
        ),
        prev matches Some(q) ==> occurs_in(
            NAV_PREV_OPEN@ + post_url(service, user, q@) + NAV_PREV_TEXT@ + q@,
            nav_html(service, user, id, prev, next),
        ),
        next matches Some(n) ==> occurs_in(
            NAV_NEXT_OPEN@ + post_url(service, user, n@) + NAV_NEXT_TEXT@ + n@,
            nav_html(service, user, id, prev, next),
        ),
{
    let nav = nav_html(service, user, id, prev, next);
    let home = NAV_HOME_OPEN@ + post_url(service, user, id) + NAV_HOME_CLOSE@;
    let with_prev = match prev {
        Some(q) => home + NAV_PREV_OPEN@ + post_url(service, user, q@) + NAV_PREV_TEXT@ + q@
            + NAV_PREV_CLOSE@,
        None => home,
    };
    lemma_occurs_in_itself(home);
    match prev {
        Some(q) => {
            let y = NAV_PREV_OPEN@ + post_url(service, user, q@) + NAV_PREV_TEXT@ + q@;
            assert(with_prev =~= home + y + NAV_PREV_CLOSE@);
            lemma_occurs_in_middle(y, home, NAV_PREV_CLOSE@);
            lemma_occurs_in_left(home, home, y + NAV_PREV_CLOSE@);
            assert(home + (y + NAV_PREV_CLOSE@) =~= with_prev);
        },
        None => {},
    }
    match next {
        Some(n) => {
            let x = NAV_NEXT_OPEN@ + post_url(service, user, n@) + NAV_NEXT_TEXT@ + n@;
            assert(nav =~= with_prev + x + NAV_NEXT_CLOSE@);
            lemma_occurs_in_middle(x, with_prev, NAV_NEXT_CLOSE@);
            assert(with_prev + (x + NAV_NEXT_CLOSE@) =~= nav);
            lemma_occurs_in_left(home, with_prev, x + NAV_NEXT_CLOSE@);
            match prev {
                Some(q) => {
                    let y = NAV_PREV_OPEN@ + post_url(service, user, q@) + NAV_PREV_TEXT@ + q@;
                    lemma_occurs_in_left(y, with_prev, x + NAV_NEXT_CLOSE@);
                },
                None => {},
            }
        },
        None => {
            assert(nav == with_prev);
        },
    }
}

/// The navigation links follow the ids: the first button links to the post
/// itself; where the post names a previous or next post, that button links to the
/// address of exactly that post, whose id is also the button's text, whatever the
/// post's own id.
pub proof fn lemma_nav_links_follow_ids(p: PostPage)
    ensures
        ({
            let service = text_or(p.service, Seq::empty());
            let user = text_or(p.user, Seq::empty());
            let id = text_or(p.id, Seq::empty());
            &&& occurs_in(
                NAV_HOME_OPEN@ + site_post_address(service, user, id) + NAV_HOME_CLOSE@,
                post_html(p),
            )
            &&& p.prev matches Some(q) ==> occurs_in(
                NAV_PREV_OPEN@ + site_post_address(service, user, q@) + NAV_PREV_TEXT@ + q@,
                post_html(p),
            )
            &&& p.next matches Some(n) ==> occurs_in(
                NAV_NEXT_OPEN@ + site_post_address(service, user, n@) + NAV_NEXT_TEXT@ + n@,
                post_html(p),
            )
        }),
{
    let service = text_or(p.service, Seq::empty());
    let user = text_or(p.user, Seq::empty());
    let id = text_or(p.id, Seq::empty());
    lemma_nav_html_links(service, user, id, p.prev, p.next);
    lemma_post_url_spelled(service, user, id);
    assert(occurs_in(
        NAV_HOME_OPEN@ + site_post_address(service, user, id) + NAV_HOME_CLOSE@,
        post_html(p),
    )) by {
        lemma_occurs_in_concat(NAV_HOME_OPEN@ + post_url(service, user, id) + NAV_HOME_CLOSE@);
    }
    match p.prev {
        Some(q) => {
            lemma_post_url_spelled(service, user, q@);
            assert(occurs_in(
                NAV_PREV_OPEN@ + site_post_address(service, user, q@) + NAV_PREV_TEXT@ + q@,
                post_html(p),
            )) by {
                lemma_occurs_in_concat(
                    NAV_PREV_OPEN@ + post_url(service, user, q@) + NAV_PREV_TEXT@ + q@,
                );
            }
        },
        None => {},
    }
    match p.next {
        Some(n) => {
            lemma_post_url_spelled(service, user, n@);
            assert(occurs_in(
                NAV_NEXT_OPEN@ + site_post_address(service, user, n@) + NAV_NEXT_TEXT@ + n@,
                post_html(p),
            )) by {
                lemma_occurs_in_concat(
                    NAV_NEXT_OPEN@ + post_url(service, user, n@) + NAV_NEXT_TEXT@ + n@,
                );
            }
        },
        None => {},
    }
}

/// What sanitizing does to each character of a name: each of `/ \ : * ? " < > |`
/// and each control character becomes `_`, every other character stays as it is
/// and where it is, and what is cut from the end is only dots and spaces.
pub proof fn lemma_sanitize_maps_each_character(name: Seq<char>)
    ensures
        sanitized(name).len() <= name.len(),
        forall|i: int|
            0 <= i < sanitized(name).len() ==> #[trigger] sanitized(name)[i] == if name[i] == '/'
                || name[i] == '\\' || name[i] == ':' || name[i] == '*' || name[i] == '?'
                || name[i] == '"' || name[i] == '<' || name[i] == '>' || name[i] == '|'
                || name[i] <= '\u{1f}' || ('\u{7f}' <= name[i] && name[i] <= '\u{9f}') {
                '_'
            } else {
                name[i]
            },
        forall|i: int|
            sanitized(name).len() <= i < name.len() ==> #[trigger] name[i] == '.' || name[i] == ' ',
{
    let m = name.map_values(|c: char| name_char(c));
    lemma_trim_trailing_is_prefix(m);
    assert forall|i: int| sanitized(name).len() <= i < name.len() implies #[trigger] name[i]
        == '.' || name[i] == ' ' by {
        assert(is_trailing_trim(m[i]));
    }
}

} // verus!
