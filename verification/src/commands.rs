//! The decisions of the program's commands: which session to use, where the
//! downloads of a post go, and which files a post has to download.
use vstd::prelude::*;
use vstd::string::*;
use vstd::utf8::encode_utf8;
use crate::api::{Attachment, Post};
use crate::downloader::{DownloadTask, DEFAULT_FILE_SERVER};
use crate::html_generator::{sanitize_folder_name, sanitized};
use crate::paths::{is_absolute, join_path, path_join};
use crate::settings::{opt_view, Settings};

verus! {

pub const NO_CREDENTIALS_MESSAGE: &'static str = "No credentials configured. Please login first.";

// ---------------------------------------------------------------- sessions

/// How a command gets a session.
#[derive(Debug, Clone, PartialEq, Eq)]
pub enum SessionPlan {
    /// The stored session.
    Use(String),
    /// Log in with the stored credentials and store the new session.
    SignIn { username: String, password: String },
    /// There is no session and no credentials to get one with.
    MissingCredentials,
}

pub open spec fn session_plan_of(session: Seq<char>, username: Seq<char>, password: Seq<char>) -> (
    u8,
    Seq<char>,
    Seq<char>,
) {
    if session.len() > 0 {
        (0, session, Seq::empty())
    } else if username.len() == 0 || password.len() == 0 {
        (2, Seq::empty(), Seq::empty())
    } else {
        (1, username, password)
    }
}

pub open spec fn plan_view(p: SessionPlan) -> (u8, Seq<char>, Seq<char>) {
    match p {
        SessionPlan::Use(s) => (0, s@, Seq::empty()),
        SessionPlan::SignIn { username, password } => (1, username@, password@),
        SessionPlan::MissingCredentials => (2, Seq::empty(), Seq::empty()),
    }
}

/// The stored session where there is one; else a login with the stored
/// credentials, where both are set.
pub fn session_plan(settings: &Settings) -> (r: SessionPlan)
    ensures
        plan_view(r) == session_plan_of(settings@.session, settings@.username, settings@.password),
{
    if !settings.session.as_str().is_empty() {
        SessionPlan::Use(settings.session.clone())
    } else if settings.username.as_str().is_empty() || settings.password.as_str().is_empty() {
        SessionPlan::MissingCredentials
    } else {
        SessionPlan::SignIn {
            username: settings.username.clone(),
            password: settings.password.clone(),
        }
    }
}

// ---------------------------------------------------------------- folders

/// The download folder: the configured path where it is absolute, else that path
/// below the working directory, or below the settings' folder where the working
/// directory is unknown, or below `.`.
pub open spec fn download_root(
    download_path: Seq<char>,
    current_dir: Option<Seq<char>>,
    settings_dir: Option<Seq<char>>,
) -> Seq<char> {
    if is_absolute(download_path) {
        download_path
    } else {
        let base = match current_dir {
            Some(d) => d,
            None => match settings_dir {
                Some(d) => d,
                None => "."@,
            },
        };
        path_join(base, download_path)
    }
}

/// Resolves the configured download path.
pub fn resolve_download_root(
    download_path: &str,
    current_dir: &Option<String>,
    settings_dir: &Option<String>,
) -> (r: String)
    ensures
        r@ == download_root(download_path@, opt_view(*current_dir), opt_view(*settings_dir)),
{
    let cs = crate::text::chars_of(download_path);
    if cs.len() > 0 && cs[0] == '/' {
        return String::from_str(download_path);
    }
    let base: &str = match current_dir {
        Some(d) => d.as_str(),
        None => match settings_dir {
            Some(d) => d.as_str(),
            None => ".",
        },
    };
    join_path(base, download_path)
}

/// The folder name of a post: `<post id> - <title>`, made safe.
pub open spec fn post_folder(post_id: Seq<char>, title: Seq<char>) -> Seq<char> {
    sanitized(post_id + " - "@ + title)
}

pub fn post_folder_name(post_id: &str, title: &str) -> (r: String)
    ensures
        r@ == post_folder(post_id@, title@),
{
    let mut n = String::from_str(post_id);
    n.append(" - ");
    n.append(title);
    sanitize_folder_name(n.as_str())
}

/// The folder of a post's files: `<root>/<service>/<creator>/<folder>`.
pub open spec fn post_dir(
    root: Seq<char>,
    service: Seq<char>,
    creator_id: Seq<char>,
    folder: Seq<char>,
) -> Seq<char> {
    path_join(path_join(path_join(root, service), creator_id), folder)
}

pub fn post_directory(root: &str, service: &str, creator_id: &str, folder: &str) -> (r: String)
    ensures
        r@ == post_dir(root@, service@, creator_id@, folder@),
{
    let a = join_path(root, service);
    let b = join_path(a.as_str(), creator_id);
    join_path(b.as_str(), folder)
}

/// The name of a post's information page, in the post's folder.
pub const POST_PAGE_FILE: &'static str = "post_info.html";

/// Where a post's information page goes.
pub fn post_page_path(base_dir: &str) -> (r: String)
    ensures
        r@ == path_join(base_dir@, POST_PAGE_FILE@),
{
    join_path(base_dir, POST_PAGE_FILE)
}

/// The report on the download folder: the configured path, the resolved one, its
/// canonical form (or the error that prevented it), and whether it exists.
pub open spec fn path_report(
    download_path: Seq<char>,
    resolved: Seq<char>,
    canonical: Seq<char>,
    exists: bool,
) -> Seq<char> {
    "settings.download_path: '"@ + download_path + "'\nResolved: '"@ + resolved
        + "'\nCanonical: '"@ + canonical + "'\nExists: "@ + (if exists {
        "true"@
    } else {
        "false"@
    })
}

pub fn download_path_report(download_path: &str, resolved: &str, canonical: &str, exists: bool) -> (r:
    String)
    ensures
        r@ == path_report(download_path@, resolved@, canonical@, exists),
{
    let mut r = String::from_str("settings.download_path: '");
    r.append(download_path);
    r.append("'\nResolved: '");
    r.append(resolved);
    r.append("'\nCanonical: '");
    r.append(canonical);
    r.append("'\nExists: ");
    if exists {
        r.append("true");
    } else {
        r.append("false");
    }
    r
}

// ---------------------------------------------------------------- files

/// A byte that percent-encoding keeps: a letter, a digit, `-`, `.`, `_` or `~`.
pub open spec fn is_unreserved(b: u8) -> bool {
    (48 <= b <= 57) || (65 <= b <= 90) || (97 <= b <= 122) || b == 45 || b == 46 || b == 95 || b
        == 126
}

/// An uppercase hexadecimal digit.
pub open spec fn hex_upper(d: nat) -> char {
    if d < 10 {
        ((48 + d) as u8) as char
    } else {
        ((55 + d) as u8) as char
    }
}

/// Percent-encoding of a byte string: kept bytes as themselves, every other byte
/// as `%` and two uppercase hexadecimal digits.
pub open spec fn percent_encoded(bytes: Seq<u8>) -> Seq<char>
    decreases bytes.len(),
{
    if bytes.len() == 0 {
        Seq::empty()
    } else {
        let b = bytes.last();
        let prev = percent_encoded(bytes.drop_last());
        if is_unreserved(b) {
            prev.push(b as char)
        } else {
            prev.push('%').push(hex_upper((b / 16) as nat)).push(hex_upper((b % 16) as nat))
        }
    }
}

/// `urlencoding::encode`: the UTF-8 bytes of `s` percent-encoded, all but
/// letters, digits, `-`, `.`, `_` and `~`, with uppercase hexadecimal digits.
#[verifier::external_body]
fn url_encode(s: &str) -> (r: String)
    ensures
        r@ == percent_encoded(s.spec_bytes()),
{
    urlencoding::encode(s).into_owned()
}

/// The address of a stored file: `<server>/data<path>?f=<encoded name>`, where
/// `https://kemono.cr`, which redirects to the right node, stands in for a
/// missing server.
pub open spec fn file_address(server: Option<Seq<char>>, path: Seq<char>, name: Seq<char>) -> Seq<
    char,
> {
    let s = match server {
        Some(s) => s,
        None => DEFAULT_FILE_SERVER@,
    };
    s + "/data"@ + path + "?f="@ + percent_encoded(encode_utf8(name))
}

pub fn file_url(server: &Option<String>, path: &str, name: &str) -> (r: String)
    ensures
        r@ == file_address(opt_view(*server), path@, name@),
{
    let mut r = match server {
        Some(s) => s.clone(),
        None => String::from_str(DEFAULT_FILE_SERVER),
    };
    r.append("/data");
    r.append(path);
    r.append("?f=");
    let e = url_encode(name);
    r.append(e.as_str());
    r
}

/// One file of a post to download: its queue identifier, its address, where it
/// goes, and its name.
#[derive(Debug, Clone, PartialEq, Eq)]
pub struct FileJob {
    pub id: String,
    pub url: String,
    pub dest: String,
    pub file_name: String,
}

pub open spec fn job_view(j: FileJob) -> (Seq<char>, Seq<char>, Seq<char>, Seq<char>) {
    (j.id@, j.url@, j.dest@, j.file_name@)
}

/// The job of a file: identifier `<post id>_<name>_<address>`, destination the
/// name in the post's folder.
pub open spec fn planned_job(
    post_id: Seq<char>,
    base_dir: Seq<char>,
    server: Option<Seq<char>>,
    path: Seq<char>,
    name: Seq<char>,
) -> (Seq<char>, Seq<char>, Seq<char>, Seq<char>) {
    let url = file_address(server, path, name);
    (post_id + "_"@ + name + "_"@ + url, url, path_join(base_dir, name), name)
}

pub open spec fn attachment_jobs(post_id: Seq<char>, base_dir: Seq<char>, atts: Seq<Attachment>) -> Seq<
    (Seq<char>, Seq<char>, Seq<char>, Seq<char>),
> {
    atts.map_values(
        |a: Attachment| planned_job(post_id, base_dir, opt_view(a.server), a.path@, a.name@),
    )
}

/// The files of a post to download: its main file, then its attachments in order.
pub open spec fn planned_jobs(post_id: Seq<char>, post: Post, base_dir: Seq<char>) -> Seq<
    (Seq<char>, Seq<char>, Seq<char>, Seq<char>),
> {
    let main = match post.file {
        Some(f) => seq![planned_job(post_id, base_dir, opt_view(f.server), f.path@, f.name@)],
        None => Seq::empty(),
    };
    main + attachment_jobs(post_id, base_dir, post.attachments@)
}

fn make_job(post_id: &str, base_dir: &str, server: &Option<String>, path: &str, name: &str) -> (r:
    FileJob)
    ensures
        job_view(r) == planned_job(post_id@, base_dir@, opt_view(*server), path@, name@),
{
    let url = file_url(server, path, name);
    let dest = join_path(base_dir, name);
    let mut id = String::from_str(post_id);
    id.append("_");
    id.append(name);
    id.append("_");
    id.append(url.as_str());
    FileJob { id, url, dest, file_name: String::from_str(name) }
}

/// The downloads of a post whose files go to `base_dir`.
pub fn plan_post_files(post_id: &str, post: &Post, base_dir: &str) -> (r: Vec<FileJob>)
    ensures
        r@.map_values(|j: FileJob| job_view(j)) == planned_jobs(post_id@, *post, base_dir@),
{
    let mut jobs: Vec<FileJob> = Vec::new();
    match &post.file {
        Some(f) => {
            jobs.push(make_job(post_id, base_dir, &f.server, f.path.as_str(), f.name.as_str()));
        },
        None => {},
    }
    let ghost main = jobs@.map_values(|j: FileJob| job_view(j));
    let mut i: usize = 0;
    while i < post.attachments.len()
        invariant
            i <= post.attachments@.len(),
            jobs@.map_values(|j: FileJob| job_view(j)) =~= main + attachment_jobs(
                post_id@,
                base_dir@,
                post.attachments@.take(i as int),
            ),
        decreases post.attachments.len() - i,
    {
        let a = &post.attachments[i];
        let ghost before = jobs@;
        let job = make_job(post_id, base_dir, &a.server, a.path.as_str(), a.name.as_str());
        jobs.push(job);
        assert(jobs@.map_values(|j: FileJob| job_view(j)) =~= before.map_values(
            |j: FileJob| job_view(j),
        ).push(job_view(job)));
        assert(attachment_jobs(post_id@, base_dir@, post.attachments@.take(i + 1))
            =~= attachment_jobs(post_id@, base_dir@, post.attachments@.take(i as int)).push(
            planned_job(post_id@, base_dir@, opt_view(a.server), a.path@, a.name@),
        ));
        i = i + 1;
    }
    assert(post.attachments@.take(post.attachments@.len() as int) =~= post.attachments@);
    jobs
}

impl FileJob {
    /// The queue task of this file.
    pub fn into_task(self, post_id: &str, session: &str) -> (r: DownloadTask)
        ensures
            r.id == self.id,
            r.url == self.url,
            r.dest_path == self.dest,
            r.file_name == self.file_name,
            r.post_id@ == post_id@,
            r.session@ == session@,
    {
        DownloadTask {
            id: self.id,
            url: self.url,
            dest_path: self.dest,
            file_name: self.file_name,
            post_id: String::from_str(post_id),
            session: String::from_str(session),
        }
    }
}

} // verus!
