//! The fixed text of the post information page.
use vstd::prelude::*;

verus! {

pub const DOC_START: &'static str = r##"<!DOCTYPE html>
<html lang="ko">
<head>
  <meta charset="UTF-8">
  <meta name="viewport" content="width=device-width, initial-scale=1.0">
  <title>"##;

pub const TITLE_SEPARATOR: &'static str = r##" — "##;

pub const HEAD_AND_STYLE: &'static str = r##"</title>
  <link rel="preconnect" href="https://fonts.googleapis.com">
  <link rel="preconnect" href="https://fonts.gstatic.com" crossorigin>
  <link href="https://fonts.googleapis.com/css2?family=Inter:wght@400;500;600;700&family=Noto+Sans+KR:wght@400;500;700&display=swap" rel="stylesheet">
  <script src="https://unpkg.com/lucide@latest"></script>
  <style>
    :root {
      --bg: #0f0f1a;
      --surface: #1a1a2e;
      --surface2: #1f1f35;
      --text: #e2e2ef;
      --text-dim: #8888a8;
      --accent: #6c5ce7;
      --accent-soft: rgba(108,92,231,0.15);
      --link: #74b9ff;
      --link-hover: #a29bfe;
      --border: #2d2d4a;
      --success: #00cec9;
      --radius: 12px;
      --shadow: 0 2px 12px rgba(0,0,0,0.3);
    }
    * { margin: 0; padding: 0; box-sizing: border-box; }
    body {
      font-family: 'Inter', 'Noto Sans KR', -apple-system, BlinkMacSystemFont, sans-serif;
      background: var(--bg);
      color: var(--text);
      line-height: 1.7;
      min-height: 100vh;
    }
    .container { max-width: 1000px; margin: 0 auto; padding: 2rem 1.5rem; }
    .header {
      background: linear-gradient(135deg, var(--surface) 0%, var(--surface2) 100%);
      border: 1px solid var(--border);
      border-radius: var(--radius);
      padding: 1.75rem;
      margin-bottom: 1.5rem;
      box-shadow: var(--shadow);
    }
    .header h1 {
      font-size: 1.6rem;
      font-weight: 700;
      color: #fff;
      margin-bottom: 0.25rem;
      display: flex;
      align-items: center;
      gap: 0.5rem;
    }
    .header h1 .badge {
      font-size: 0.7rem;
      font-weight: 500;
      background: var(--accent);
      color: #fff;
      padding: 0.15rem 0.5rem;
      border-radius: 999px;
      text-transform: uppercase;
      letter-spacing: 0.05em;
    }
    .hero {
      display: grid;
      grid-template-columns: 1fr 280px;
      gap: 1.5rem;
      align-items: start;
    }
    @media (max-width: 700px) {
      .hero { grid-template-columns: 1fr; }
      .hero-thumb { order: -1; }
    }
    .hero-thumb {
      border-radius: var(--radius);
      overflow: hidden;
      border: 1px solid var(--border);
      box-shadow: var(--shadow);
      background: var(--surface2);
    }
    .hero-thumb img {
      width: 100%;
      display: block;
      object-fit: cover;
      max-height: 320px;
    }
    .hero-thumb--empty {
      display: flex;
      align-items: center;
      justify-content: center;
      min-height: 180px;
      color: var(--text-dim);
    }
    .info-grid {
      display: grid;
      grid-template-columns: auto 1fr;
      gap: 0.4rem 1rem;
    }
    .info-grid dt {
      font-weight: 500;
      color: var(--text-dim);
      font-size: 0.85rem;
      display: flex;
      align-items: center;
      gap: 0.35rem;
      white-space: nowrap;
    }
    .info-grid dd {
      font-size: 0.9rem;
      word-break: break-all;
    }
    .info-grid dd a { color: var(--link); }
    .card {
      background: var(--surface);
      border: 1px solid var(--border);
      border-radius: var(--radius);
      padding: 1.25rem 1.5rem;
      margin-bottom: 1.25rem;
      box-shadow: var(--shadow);
    }
    .card h2 {
      font-size: 1rem;
      font-weight: 600;
      color: var(--accent);
      margin-bottom: 1rem;
      display: flex;
      align-items: center;
      gap: 0.4rem;
      padding-bottom: 0.6rem;
      border-bottom: 1px solid var(--border);
    }
    .card h2 .count {
      font-size: 0.75rem;
      font-weight: 500;
      background: var(--accent-soft);
      color: var(--accent);
      padding: 0.1rem 0.45rem;
      border-radius: 999px;
      margin-left: 0.25rem;
    }
    .content-body {
      white-space: pre-wrap;
      word-wrap: break-word;
      font-size: 0.92rem;
      line-height: 1.8;
    }
    .content-body a { color: var(--link); }
    .content-body a:hover { color: var(--link-hover); text-decoration: underline; }
    .empty { color: var(--text-dim); font-style: italic; }
    .main-file {
      display: flex;
      align-items: center;
      gap: 0.5rem;
      background: var(--accent-soft);
      border: 1px solid var(--accent);
      border-radius: 8px;
      padding: 0.6rem 1rem;
      margin-bottom: 1.25rem;
      font-size: 0.9rem;
    }
    .main-file a { color: var(--link); }
    .att-table { width: 100%; border-collapse: collapse; font-size: 0.85rem; }
    .att-table th {
      text-align: left;
      padding: 0.6rem 0.75rem;
      background: var(--surface2);
      color: var(--text-dim);
      font-weight: 600;
      font-size: 0.8rem;
      text-transform: uppercase;
      letter-spacing: 0.04em;
      border-bottom: 2px solid var(--border);
    }
    .att-table td {
      padding: 0.55rem 0.75rem;
      border-bottom: 1px solid var(--border);
      vertical-align: middle;
    }
    .att-table tr:hover td { background: var(--accent-soft); }
    .att-table a { color: var(--link); }
    .att-table a:hover { color: var(--link-hover); text-decoration: underline; }
    .att-table code { font-size: 0.78rem; color: var(--text-dim); background: var(--surface2); padding: 0.1rem 0.35rem; border-radius: 4px; }
    .att-idx { color: var(--text-dim); font-size: 0.8rem; text-align: center; width: 2rem; }
    .preview-grid {
      display: grid;
      grid-template-columns: repeat(auto-fill, minmax(160px, 1fr));
      gap: 0.75rem;
    }
    .preview-grid figure { margin: 0; }
    .preview-grid img {
      width: 100%;
      border-radius: 8px;
      display: block;
      transition: transform 0.2s, box-shadow 0.2s;
      cursor: pointer;
      border: 1px solid var(--border);
    }
    .preview-grid img:hover {
      transform: scale(1.03);
      box-shadow: 0 4px 20px rgba(108,92,231,0.3);
    }
    .preview-grid figcaption {
      font-size: 0.7rem;
      color: var(--text-dim);
      margin-top: 0.3rem;
      overflow: hidden;
      text-overflow: ellipsis;
      white-space: nowrap;
    }
    .video-list { list-style: none; }
    .video-list li {
      padding: 0.45rem 0;
      display: flex;
      align-items: center;
      gap: 0.4rem;
      font-size: 0.9rem;
    }
    .video-list li + li { border-top: 1px solid var(--border); }
    .video-list a { color: var(--link); }
    .video-list a:hover { color: var(--link-hover); text-decoration: underline; }
    .tag-list { display: flex; gap: 0.4rem; flex-wrap: wrap; }
    .tag {
      background: var(--accent-soft);
      color: var(--accent);
      padding: 0.2rem 0.65rem;
      border-radius: 999px;
      font-size: 0.8rem;
      font-weight: 500;
      border: 1px solid rgba(108,92,231,0.3);
    }
    .nav-bar {
      display: flex;
      gap: 0.75rem;
      flex-wrap: wrap;
      margin-top: 1.5rem;
      padding-top: 1.25rem;
      border-top: 1px solid var(--border);
    }
    .nav-btn {
      display: inline-flex;
      align-items: center;
      gap: 0.35rem;
      padding: 0.5rem 1rem;
      border-radius: 8px;
      font-size: 0.85rem;
      font-weight: 500;
      color: var(--text);
      background: var(--surface);
      border: 1px solid var(--border);
      text-decoration: none;
      transition: all 0.15s;
    }
    .nav-btn:hover {
      background: var(--accent-soft);
      border-color: var(--accent);
      color: #fff;
    }
    .footer {
      margin-top: 2rem;
      padding: 1rem 0;
      border-top: 1px solid var(--border);
      font-size: 0.78rem;
      color: var(--text-dim);
      text-align: center;
    }
    .footer a { color: var(--text-dim); }
    .footer a:hover { color: var(--link); }
    [data-lucide] { width: 16px; height: 16px; stroke-width: 2; vertical-align: -2px; }
  </style>
</head>
<body>
  <div class="container">

    <div class="header">
      <h1>"##;

pub const BADGE_OPEN: &'static str = r##" <span class="badge">"##;

pub const INFO_OPEN: &'static str = r##"</span></h1>
    </div>

    <div class="hero">
      <div class="card" style="margin-bottom:0">
        <h2><i data-lucide="info"></i> 게시글 정보</h2>
        <dl class="info-grid">
          <dt><i data-lucide="hash"></i> 게시글 ID</dt><dd>"##;

pub const ROW_SERVICE: &'static str = r##"</dd>
          <dt><i data-lucide="server"></i> 서비스</dt><dd>"##;

pub const ROW_CREATOR: &'static str = r##"</dd>
          <dt><i data-lucide="user"></i> 크리에이터 ID</dt><dd>"##;

pub const ROW_PUBLISHED: &'static str = r##"</dd>
          <dt><i data-lucide="calendar"></i> 게시일</dt><dd>"##;

pub const ROW_ADDED: &'static str = r##"</dd>
          <dt><i data-lucide="download-cloud"></i> 수집일</dt><dd>"##;

pub const DD_CLOSE: &'static str = r##"</dd>"##;

pub const ROW_SHARED: &'static str = r##"
          <dt><i data-lucide="share-2"></i> 공유 파일</dt><dd>"##;

pub const INFO_CLOSE: &'static str = r##"</dd>
        </dl>
      </div>
      "##;

pub const CONTENT_OPEN: &'static str = r##"
    </div>

    <div style="height:1.25rem"></div>

    <section class="card">
      <h2><i data-lucide="file-text"></i> 본문</h2>
      <div class="content-body">"##;

pub const CONTENT_CLOSE: &'static str = r##"</div>
    </section>

"##;

pub const SECTION_BREAK: &'static str = r##"
"##;

pub const ATTACHMENTS_OPEN: &'static str = r##"
    <section class="card">
      <h2><i data-lucide="paperclip"></i> 첨부파일 <span class="count">"##;

pub const ATTACHMENTS_TABLE: &'static str = r##"</span></h2>
      <table class="att-table">
        <thead>
          <tr><th>#</th><th>파일명</th><th>형식</th></tr>
        </thead>
        <tbody>
"##;

pub const ATTACHMENTS_CLOSE: &'static str = r##"        </tbody>
      </table>
    </section>

    <section class="card">
      <h2><i data-lucide="images"></i> 미리보기</h2>
      <div class="preview-grid">
"##;

pub const PREVIEWS_CLOSE: &'static str = r##"      </div>
    </section>

    <section class="card">
      <h2><i data-lucide="film"></i> 동영상 <span class="count">"##;

pub const VIDEO_LIST_OPEN: &'static str = r##"</span></h2>
      <ul class="video-list">
"##;

pub const VIDEOS_CLOSE: &'static str = r##"      </ul>
    </section>

    <nav class="nav-bar">
"##;

pub const NAV_CLOSE: &'static str = r##"    </nav>

    <div class="footer">
      Kemono-Tools로 생성됨 &bull; 원본: <a href=""##;

pub const FOOTER_LINK: &'static str = r##"" target="_blank" rel="noopener">"##;

pub const DOC_END: &'static str = r##"</a>
    </div>

  </div>
  <script>lucide.createIcons();</script>
</body>
</html>"##;

pub const UNTITLED: &'static str = "제목 없음";

pub const SHARED_YES: &'static str = "예";

pub const SHARED_NO: &'static str = "아니오";

pub const THUMB_OPEN: &'static str = r#"<div class="hero-thumb"><img src=""#;

pub const THUMB_CLOSE: &'static str = r#"" alt="썸네일" loading="lazy"></div>"#;

pub const THUMB_EMPTY: &'static str = r#"<div class="hero-thumb hero-thumb--empty"><i data-lucide="image-off"></i></div>"#;

pub const CONTENT_EMPTY: &'static str = r#"<span class="empty">내용 없음</span>"#;

pub const ATT_ROW_OPEN: &'static str = "            <tr>\n              <td class=\"att-idx\">";

pub const ATT_ROW_ICON: &'static str = "</td>\n              <td><i data-lucide=\"";

pub const ATT_ROW_HREF: &'static str = "\"></i> <a href=\"";

pub const ATT_ROW_TITLE: &'static str = "\" title=\"";

pub const ATT_ROW_TEXT: &'static str = "\">";

pub const ATT_ROW_EXT: &'static str = "</a></td>\n              <td><code>";

pub const ATT_ROW_CLOSE: &'static str = "</code></td>\n            </tr>\n";

pub const FIGURE_OPEN: &'static str = "          <figure><img src=\"";

pub const FIGURE_ALT: &'static str = "\" alt=\"";

pub const FIGURE_CAPTION: &'static str = "\" loading=\"lazy\"><figcaption>";

pub const FIGURE_CLOSE: &'static str = "</figcaption></figure>\n";

pub const VIDEO_OPEN: &'static str = "            <li><i data-lucide=\"play-circle\"></i> <a href=\"";

pub const VIDEO_TEXT: &'static str = "\">";

pub const VIDEO_CLOSE: &'static str = "</a></li>\n";

pub const EMBED_OPEN: &'static str = "      <section class=\"card\">\n        <h2><i data-lucide=\"code-2\"></i> 임베드</h2>\n        <dl class=\"info-grid\">";

pub const EMBED_CLOSE: &'static str = "</dl>\n      </section>\n";

pub const EMBED_KEY_OPEN: &'static str = "            <dt>";

pub const EMBED_VALUE_OPEN: &'static str = "</dt><dd>";

pub const EMBED_ROW_CLOSE: &'static str = "</dd>\n";

pub const TAGS_OPEN: &'static str = "      <section class=\"card\">\n        <h2><i data-lucide=\"tags\"></i> 태그</h2>\n        <div class=\"tag-list\">";

pub const TAGS_CLOSE: &'static str = "</div>\n      </section>\n";

pub const TAG_OPEN: &'static str = "            <span class=\"tag\">";

pub const TAG_CLOSE: &'static str = "</span>\n";

pub const MAIN_FILE_OPEN: &'static str = "      <div class=\"main-file\"><i data-lucide=\"file-down\"></i> <strong>대표 파일:</strong> <a href=\"";

pub const MAIN_FILE_TEXT: &'static str = "\">";

pub const MAIN_FILE_CLOSE: &'static str = "</a></div>\n";

pub const POST_URL_BASE: &'static str = "https://kemono.cr/";

pub const POST_URL_USER: &'static str = "/user/";

pub const POST_URL_POST: &'static str = "/post/";

pub const NAV_HOME_OPEN: &'static str = "          <a href=\"";

pub const NAV_HOME_CLOSE: &'static str = "\" target=\"_blank\" rel=\"noopener\" class=\"nav-btn\"><i data-lucide=\"external-link\"></i> Kemono에서 보기</a>\n";

pub const NAV_PREV_OPEN: &'static str = "          <a href=\"";

pub const NAV_PREV_TEXT: &'static str = "\" target=\"_blank\" rel=\"noopener\" class=\"nav-btn\"><i data-lucide=\"arrow-left\"></i> 이전 (";

pub const NAV_PREV_CLOSE: &'static str = ")</a>\n";

pub const NAV_NEXT_OPEN: &'static str = "          <a href=\"";

pub const NAV_NEXT_TEXT: &'static str = "\" target=\"_blank\" rel=\"noopener\" class=\"nav-btn\">다음 (";

pub const NAV_NEXT_CLOSE: &'static str = ") <i data-lucide=\"arrow-right\"></i></a>\n";

pub const EDITED_OPEN: &'static str = "\n              <dt><i data-lucide=\"pencil\"></i> 수정일</dt><dd>";

pub const EDITED_CLOSE: &'static str = "</dd>";

} // verus!
