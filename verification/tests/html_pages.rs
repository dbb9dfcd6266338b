use kemono_tools::html_generator::{
    auto_link_urls, esc, ext_icon, generate_post_html, replace_newlines, sanitize_folder_name,
    EmbedEntry, PageAttachment, PostPage,
};
use kemono_tools::text::{decimal_string, hex_string, is_control, is_whitespace};

fn s(x: &str) -> String {
    x.to_string()
}

#[test]
fn whitespace_matches_std_for_every_char() {
    for c in (0u32..=0x10FFFF).filter_map(char::from_u32) {
        assert_eq!(is_whitespace(c), c.is_whitespace(), "char {:?}", c);
    }
}

#[test]
fn control_matches_std_for_every_char() {
    for c in (0u32..=0x10FFFF).filter_map(char::from_u32) {
        assert_eq!(is_control(c), c.is_control(), "char {:?}", c);
    }
}

#[test]
fn decimal_and_hex_notation() {
    assert_eq!(decimal_string(0), "0");
    assert_eq!(decimal_string(7), "7");
    assert_eq!(decimal_string(1024), "1024");
    assert_eq!(decimal_string(u64::MAX), u64::MAX.to_string());
    assert_eq!(hex_string(&vec![0x00, 0x0f, 0xab, 0xff]), "000fabff");
    assert_eq!(hex_string(&vec![]), "");
}

#[test]
fn escapes_markup_characters() {
    assert_eq!(esc("a & b < c > d \"e\""), "a &amp; b &lt; c &gt; d &quot;e&quot;");
    assert_eq!(esc("plain 텍스트 'q'"), "plain 텍스트 'q'");
    assert_eq!(esc("&amp;"), "&amp;amp;");
    assert_eq!(esc(""), "");
}

#[test]
fn icons_by_extension() {
    assert_eq!(ext_icon(".mp4"), "film");
    assert_eq!(ext_icon(".webm"), "film");
    assert_eq!(ext_icon(".mkv"), "film");
    assert_eq!(ext_icon(".png"), "image");
    assert_eq!(ext_icon(".jpg"), "image");
    assert_eq!(ext_icon(".jpeg"), "image");
    assert_eq!(ext_icon(".gif"), "image");
    assert_eq!(ext_icon(".webp"), "image");
    assert_eq!(ext_icon(".zip"), "archive");
    assert_eq!(ext_icon(".rar"), "archive");
    assert_eq!(ext_icon(".7z"), "archive");
    assert_eq!(ext_icon(".MP4"), "file");
    assert_eq!(ext_icon("mp4"), "file");
    assert_eq!(ext_icon(""), "file");
}

#[test]
fn folder_names_are_made_safe() {
    assert_eq!(sanitize_folder_name("123 - a/b\\c:d*e?f\"g<h>i|j"), "123 - a_b_c_d_e_f_g_h_i_j");
    assert_eq!(sanitize_folder_name("tab\there\nline"), "tab_here_line");
    assert_eq!(sanitize_folder_name("dots... . "), "dots");
    assert_eq!(sanitize_folder_name("..."), "");
    assert_eq!(sanitize_folder_name("ends with\u{7f}"), "ends with_");
    assert_eq!(sanitize_folder_name("제목 ."), "제목");
    assert_eq!(sanitize_folder_name(".hidden"), ".hidden");
}

#[test]
fn sanitizing_twice_changes_nothing() {
    for name in ["a/b. ", "  x  ", "??", "ok", "tail.\u{85}.", ""] {
        let once = sanitize_folder_name(name);
        assert_eq!(sanitize_folder_name(&once), once);
    }
}

#[test]
fn links_web_addresses() {
    assert_eq!(
        auto_link_urls("see https://x.y/z now"),
        "see <a href=\"https://x.y/z\" target=\"_blank\" rel=\"noopener\">https://x.y/z</a> now"
    );
    assert_eq!(
        auto_link_urls("http://a"),
        "<a href=\"http://a\" target=\"_blank\" rel=\"noopener\">http://a</a>"
    );
    assert_eq!(auto_link_urls("ftp://a httpx://b"), "ftp://a httpx://b");
}

#[test]
fn link_text_collapses_white_space_and_keeps_br_lines() {
    assert_eq!(auto_link_urls("  a \t b\n\nc  "), "a b c");
    assert_eq!(auto_link_urls("a<br>b"), "a<br>b");
    assert_eq!(auto_link_urls("<br><br>a<br>"), "a<br>");
    assert_eq!(auto_link_urls("a<br><br>b"), "a<br><br>b");
    assert_eq!(auto_link_urls(""), "");
    assert_eq!(auto_link_urls("x<brr>y"), "x<brr>y");
}

#[test]
fn newlines_become_breaks() {
    assert_eq!(replace_newlines("a\nb\n"), "a<br>\nb<br>\n");
    assert_eq!(replace_newlines("none"), "none");
}

fn sample_page() -> PostPage {
    PostPage {
        title: Some(s("My <Post>")),
        id: Some(s("42")),
        service: Some(s("fantia")),
        user: Some(s("7")),
        published: Some(s("2024-01-01")),
        added: Some(s("2024-01-02")),
        edited: Some(s("2024-01-03")),
        content: Some(s("hello https://e.x/p\nbye")),
        shared_file: Some(true),
        prev: Some(s("41")),
        next: None,
        embed: Some(vec![EmbedEntry { key: s("url"), value: s("https://v") }]),
        tags: Some(vec![Some(s("t1")), None]),
        file: Some(Some(s("main.png"))),
        attachments: Some(vec![
            PageAttachment { name: Some(s("a.zip")), extension: Some(s(".zip")) },
            PageAttachment { name: Some(s("b&c.mp4")), extension: Some(s(".mp4")) },
        ]),
        previews: Some(vec![Some(s("thumb.jpg")), Some(s("p2.jpg"))]),
        videos: Some(vec![Some(s("v.mp4"))]),
    }
}

#[test]
fn page_shows_the_post() {
    let html = generate_post_html(&sample_page());
    assert!(html.starts_with("<!DOCTYPE html>\n<html lang=\"ko\">"));
    assert!(html.contains("<title>My &lt;Post&gt; — 42</title>"));
    assert!(html.contains("<h1>My &lt;Post&gt; <span class=\"badge\">fantia</span></h1>"));
    assert!(html.contains("<dt><i data-lucide=\"hash\"></i> 게시글 ID</dt><dd>42</dd>"));
    assert!(html.contains("<dt><i data-lucide=\"pencil\"></i> 수정일</dt><dd>2024-01-03</dd>"));
    assert!(html.contains("공유 파일</dt><dd>예</dd>"));
    assert!(html.contains("<div class=\"hero-thumb\"><img src=\"thumb.jpg\" alt=\"썸네일\" loading=\"lazy\"></div>"));
    assert!(html.contains(
        "<div class=\"content-body\">hello <a href=\"https://e.x/p\" target=\"_blank\" rel=\"noopener\">https://e.x/p</a> bye</div>"
    ));
    assert!(html.contains("<a href=\"main.png\">main.png</a></div>"));
    assert!(html.contains("            <dt>url</dt><dd>https://v</dd>\n"));
    assert!(html.contains("            <span class=\"tag\">t1</span>\n            <span class=\"tag\"></span>\n"));
    assert!(html.contains("첨부파일 <span class=\"count\">2</span>"));
    assert!(html.contains(
        "              <td class=\"att-idx\">2</td>\n              <td><i data-lucide=\"film\"></i> <a href=\"b&amp;c.mp4\" title=\"b&amp;c.mp4\">b&amp;c.mp4</a></td>\n              <td><code>.mp4</code></td>"
    ));
    assert!(!html.contains("alt=\"thumb.jpg\""));
    assert!(html.contains("<figure><img src=\"p2.jpg\" alt=\"p2.jpg\" loading=\"lazy\"><figcaption>p2.jpg</figcaption></figure>"));
    assert!(html.contains("동영상 <span class=\"count\">1</span>"));
    assert!(html.contains("<li><i data-lucide=\"play-circle\"></i> <a href=\"v.mp4\">v.mp4</a></li>"));
    assert!(html.contains("href=\"https://kemono.cr/fantia/user/7/post/41\""));
    assert!(html.contains("이전 (41)"));
    assert!(!html.contains("다음 ("));
    assert!(html.contains("원본: <a href=\"https://kemono.cr/fantia/user/7/post/42\""));
    assert!(html.ends_with("</html>"));
    assert!(html.contains(":root {\n      --bg: #0f0f1a;"));
}

#[test]
fn page_of_an_empty_detail() {
    let page = PostPage {
        title: None,
        id: None,
        service: None,
        user: None,
        published: None,
        added: None,
        edited: None,
        content: None,
        shared_file: None,
        prev: None,
        next: None,
        embed: Some(vec![]),
        tags: None,
        file: None,
        attachments: None,
        previews: None,
        videos: None,
    };
    let html = generate_post_html(&page);
    assert!(html.contains("<title>제목 없음 — </title>"));
    assert!(html.contains("<span class=\"empty\">내용 없음</span>"));
    assert!(html.contains("hero-thumb--empty"));
    assert!(html.contains("공유 파일</dt><dd>아니오</dd>"));
    assert!(html.contains("첨부파일 <span class=\"count\">0</span>"));
    assert!(html.contains("동영상 <span class=\"count\">0</span>"));
    assert!(!html.contains("임베드"));
    assert!(!html.contains("태그</h2>"));
    assert!(!html.contains("main-file\">"));
    assert!(!html.contains("수정일"));
    assert!(html.contains("https://kemono.cr//user//post/"));
}

#[test]
fn escaped_text_has_no_markup_and_linked_text_no_line_feed() {
    for t in ["<script>\"x\"</script>", "a\"b", ">>", "plain"] {
        let e = esc(t);
        assert!(!e.contains('<') && !e.contains('>') && !e.contains('"'));
    }
    let linked = auto_link_urls("one\ntwo\r\n\nhttp://three");
    assert!(!linked.contains('\n'));
    assert_eq!(replace_newlines(&linked), linked);
}

#[test]
fn file_links_are_the_file_names() {
    let html = generate_post_html(&sample_page());
    for name in ["main.png", "a.zip", "b&amp;c.mp4", "v.mp4"] {
        assert!(html.contains(&format!("<a href=\"{}\"", name)), "{}", name);
    }
    for name in ["thumb.jpg", "p2.jpg"] {
        assert!(html.contains(&format!("<img src=\"{}\"", name)), "{}", name);
    }
    assert!(!html.contains("href=\"https://kemono.cr/data"));
}
