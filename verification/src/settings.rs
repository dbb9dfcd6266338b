//! The stored settings: connection, credentials, download folder and the record
//! of every download.
use vstd::prelude::*;
use vstd::string::*;
use crate::paths::{default_download_root, join_path, path_join};

verus! {

pub const STATUS_PENDING: &'static str = "pending";

pub const STATUS_DOWNLOADING: &'static str = "downloading";

pub const STATUS_COMPLETED: &'static str = "completed";

pub const STATUS_FAILED: &'static str = "failed";

pub const DEFAULT_SERVER: &'static str = "https://kemono.cr/api";

pub const DEFAULT_SERVICE: &'static str = "fantia";

pub const SETTINGS_FILE: &'static str = "settings.json";

/// The views of an optional string.
pub open spec fn opt_view(o: Option<String>) -> Option<Seq<char>> {
    match o {
        Some(s) => Some(s@),
        None => None,
    }
}

fn copy_opt(o: &Option<String>) -> (r: Option<String>)
    ensures
        opt_view(r) == opt_view(*o),
{
    match o {
        Some(s) => Some(s.clone()),
        None => None,
    }
}

/// The record of one download: where it comes from and goes to, how far it got,
/// its status (`pending`, `downloading`, `completed`, `failed`) and the entity tag
/// that the server gave.
#[derive(Debug, Clone, PartialEq, Eq)]
pub struct DownloadState {
    pub url: String,
    pub path: String,
    pub downloaded: u64,
    pub total: u64,
    pub status: String,
    pub post_id: String,
    pub file_name: String,
    pub etag: Option<String>,
}

pub struct DownloadStateView {
    pub url: Seq<char>,
    pub path: Seq<char>,
    pub downloaded: u64,
    pub total: u64,
    pub status: Seq<char>,
    pub post_id: Seq<char>,
    pub file_name: Seq<char>,
    pub etag: Option<Seq<char>>,
}

impl View for DownloadState {
    type V = DownloadStateView;

    open spec fn view(&self) -> DownloadStateView {
        DownloadStateView {
            url: self.url@,
            path: self.path@,
            downloaded: self.downloaded,
            total: self.total,
            status: self.status@,
            post_id: self.post_id@,
            file_name: self.file_name@,
            etag: opt_view(self.etag),
        }
    }
}

impl DownloadState {
    /// A field-by-field copy.
    pub fn copy(&self) -> (r: Self)
        ensures
            r@ == self@,
    {
        DownloadState {
            url: self.url.clone(),
            path: self.path.clone(),
            downloaded: self.downloaded,
            total: self.total,
            status: self.status.clone(),
            post_id: self.post_id.clone(),
            file_name: self.file_name.clone(),
            etag: copy_opt(&self.etag),
        }
    }
}

/// One download of the table, under its identifier.
#[derive(Debug, Clone, PartialEq, Eq)]
pub struct DownloadEntry {
    pub id: String,
    pub state: DownloadState,
}

/// The downloads by identifier; each identifier occurs once.
#[derive(Debug, PartialEq, Eq)]
pub struct DownloadTable {
    entries: Vec<DownloadEntry>,
}

/// The identifiers of the entries are pairwise distinct.
pub open spec fn distinct_ids(es: Seq<DownloadEntry>) -> bool {
    forall|i: int, j: int|
        0 <= i < es.len() && 0 <= j < es.len() && i != j ==> #[trigger] es[i].id@ != #[trigger] es[j].id@
}

/// Some entry has identifier `k`.
pub open spec fn has_id(es: Seq<DownloadEntry>, k: Seq<char>) -> bool {
    exists|i: int| 0 <= i < es.len() && #[trigger] es[i].id@ == k
}

/// The map that a list of entries with distinct identifiers stands for.
pub open spec fn entries_map(es: Seq<DownloadEntry>) -> Map<Seq<char>, DownloadStateView> {
    Map::new(
        |k: Seq<char>| has_id(es, k),
        |k: Seq<char>| es[choose|i: int| 0 <= i < es.len() && #[trigger] es[i].id@ == k].state@,
    )
}

proof fn lemma_entries_map_at(es: Seq<DownloadEntry>, j: int)
    requires
        distinct_ids(es),
        0 <= j < es.len(),
    ensures
        entries_map(es).contains_key(es[j].id@),
        entries_map(es)[es[j].id@] == es[j].state@,
{
    let k = es[j].id@;
    assert(has_id(es, k));
    let i = choose|i: int| 0 <= i < es.len() && #[trigger] es[i].id@ == k;
    assert(i == j);
}

proof fn lemma_entries_map_set(es: Seq<DownloadEntry>, j: int, e: DownloadEntry)
    requires
        distinct_ids(es),
        0 <= j < es.len(),
        e.id@ == es[j].id@,
    ensures
        distinct_ids(es.update(j, e)),
        entries_map(es.update(j, e)) == entries_map(es).insert(e.id@, e.state@),
{
    let es2 = es.update(j, e);
    assert(distinct_ids(es2)) by {
        assert forall|a: int, b: int|
            0 <= a < es2.len() && 0 <= b < es2.len() && a != b implies #[trigger] es2[a].id@
            != #[trigger] es2[b].id@ by {
            assert(es[a].id@ != es[b].id@);
        }
    }
    let m1 = entries_map(es2);
    let m2 = entries_map(es).insert(e.id@, e.state@);
    assert forall|k: Seq<char>| m1.contains_key(k) <==> m2.contains_key(k) by {
        if has_id(es2, k) {
            let i = choose|i: int| 0 <= i < es2.len() && #[trigger] es2[i].id@ == k;
            if i != j {
                assert(es[i].id@ == k);
            }
        }
        if has_id(es, k) {
            let i = choose|i: int| 0 <= i < es.len() && #[trigger] es[i].id@ == k;
            assert(es2[i].id@ == k);
        }
        if k == e.id@ {
            assert(es2[j].id@ == k);
        }
    }
    assert forall|k: Seq<char>| m1.contains_key(k) implies m1[k] == m2[k] by {
        if k == e.id@ {
            lemma_entries_map_at(es2, j);
        } else {
            let i = choose|i: int| 0 <= i < es2.len() && #[trigger] es2[i].id@ == k;
            lemma_entries_map_at(es2, i);
            assert(i != j);
            lemma_entries_map_at(es, i);
        }
    }
    assert(m1 =~= m2);
}

proof fn lemma_entries_map_push(es: Seq<DownloadEntry>, e: DownloadEntry)
    requires
        distinct_ids(es),
        !has_id(es, e.id@),
    ensures
        distinct_ids(es.push(e)),
        entries_map(es.push(e)) == entries_map(es).insert(e.id@, e.state@),
{
    let es2 = es.push(e);
    assert(distinct_ids(es2)) by {
        assert forall|a: int, b: int|
            0 <= a < es2.len() && 0 <= b < es2.len() && a != b implies #[trigger] es2[a].id@
            != #[trigger] es2[b].id@ by {
            if a == es.len() {
                assert(es2[b] == es[b]);
            } else if b == es.len() {
                assert(es2[a] == es[a]);
            } else {
                assert(es[a].id@ != es[b].id@);
            }
        }
    }
    let m1 = entries_map(es2);
    let m2 = entries_map(es).insert(e.id@, e.state@);
    assert forall|k: Seq<char>| m1.contains_key(k) <==> m2.contains_key(k) by {
        if has_id(es2, k) {
            let i = choose|i: int| 0 <= i < es2.len() && #[trigger] es2[i].id@ == k;
            if i != es.len() {
                assert(es[i].id@ == k);
            }
        }
        if has_id(es, k) {
            let i = choose|i: int| 0 <= i < es.len() && #[trigger] es[i].id@ == k;
            assert(es2[i].id@ == k);
        }
        if k == e.id@ {
            assert(es2[es.len() as int].id@ == k);
        }
    }
    assert forall|k: Seq<char>| m1.contains_key(k) implies m1[k] == m2[k] by {
        let i = choose|i: int| 0 <= i < es2.len() && #[trigger] es2[i].id@ == k;
        lemma_entries_map_at(es2, i);
        if i != es.len() {
            lemma_entries_map_at(es, i);
        }
    }
    assert(m1 =~= m2);
}

impl DownloadTable {
    #[verifier::type_invariant]
    spec fn inv(&self) -> bool {
        distinct_ids(self.entries@)
    }

    /// The downloads, by identifier.
    pub closed spec fn view(&self) -> Map<Seq<char>, DownloadStateView> {
        entries_map(self.entries@)
    }

    pub fn new() -> (r: Self)
        ensures
            r.view() == Map::<Seq<char>, DownloadStateView>::empty(),
    {
        let r = DownloadTable { entries: Vec::new() };
        assert(r.view() =~= Map::<Seq<char>, DownloadStateView>::empty());
        r
    }

    /// Number of downloads.
    pub fn len(&self) -> (n: usize)
        ensures
            n == self.view().len(),
    {
        proof {
            use_type_invariant(self);
            lemma_entries_len(self.entries@);
        }
        self.entries.len()
    }
}

/// The identifiers of a list of entries.
pub open spec fn entry_ids(es: Seq<DownloadEntry>) -> Seq<Seq<char>> {
    es.map_values(|e: DownloadEntry| e.id@)
}

proof fn lemma_entries_len(es: Seq<DownloadEntry>)
    requires
        distinct_ids(es),
    ensures
        entries_map(es).len() == es.len(),
        entries_map(es).dom() == entry_ids(es).to_set(),
{
    {
        let ids = entry_ids(es);
        assert(ids.no_duplicates()) by {
            assert forall|a: int, b: int| 0 <= a < ids.len() && 0 <= b < ids.len() && a != b
                implies ids[a] != ids[b] by {
                assert(es[a].id@ != es[b].id@);
            }
        }
        assert(entries_map(es).dom() =~= ids.to_set()) by {
            assert forall|k: Seq<char>| entries_map(es).dom().contains(k) <==> ids.to_set().contains(k) by {
                if entries_map(es).dom().contains(k) {
                    let i = choose|i: int| 0 <= i < es.len() && #[trigger] es[i].id@ == k;
                    assert(ids[i] == k);
                }
                if ids.to_set().contains(k) {
                    let i = choose|i: int| 0 <= i < ids.len() && ids[i] == k;
                    assert(es[i].id@ == k);
                }
            }
        }
        ids.unique_seq_to_set();
    }
}

impl DownloadTable {
    fn find(&self, id: &str) -> (r: Option<usize>)
        ensures
            match r {
                Some(j) => j < self.entries@.len() && self.entries@[j as int].id@ == id@,
                None => !has_id(self.entries@, id@),
            },
    {
        let mut j: usize = 0;
        while j < self.entries.len()
            invariant
                j <= self.entries@.len(),
                forall|i: int| 0 <= i < j ==> #[trigger] self.entries@[i].id@ != id@,
            decreases self.entries.len() - j,
        {
            if crate::html_generator::str_eq(self.entries[j].id.as_str(), id) {
                return Some(j);
            }
            j = j + 1;
        }
        None
    }

    /// The download recorded under `id`.
    pub fn get(&self, id: &str) -> (r: Option<&DownloadState>)
        ensures
            match r {
                Some(st) => self.view().contains_key(id@) && st@ == self.view()[id@],
                None => !self.view().contains_key(id@),
            },
    {
        proof {
            use_type_invariant(self);
        }
        match self.find(id) {
            Some(j) => {
                proof {
                    lemma_entries_map_at(self.entries@, j as int);
                }
                Some(&self.entries[j].state)
            },
            None => None,
        }
    }

    /// Records `state` under `id`, in place of what was there.
    pub fn insert(&mut self, id: String, state: DownloadState)
        ensures
            final(self).view() == old(self).view().insert(id@, state@),
    {
        proof {
            use_type_invariant(&*self);
        }
        let found = self.find(id.as_str());
        let mut es: Vec<DownloadEntry> = Vec::new();
        std::mem::swap(&mut es, &mut self.entries);
        let ghost before = es@;
        match found {
            Some(j) => {
                proof {
                    lemma_entries_map_set(before, j as int, DownloadEntry { id, state });
                }
                es.set(j, DownloadEntry { id, state });
            },
            None => {
                proof {
                    lemma_entries_map_push(before, DownloadEntry { id, state });
                }
                es.push(DownloadEntry { id, state });
            },
        }
        self.entries = es;
    }

    /// The entries, each download once.
    pub fn entries(&self) -> (r: &Vec<DownloadEntry>)
        ensures
            distinct_ids(r@),
            entries_map(r@) == self.view(),
    {
        proof {
            use_type_invariant(self);
        }
        &self.entries
    }

    /// A copy of the table.
    pub fn copy(&self) -> (r: Self)
        ensures
            r.view() == self.view(),
    {
        proof {
            use_type_invariant(self);
        }
        let mut es: Vec<DownloadEntry> = Vec::new();
        let mut j: usize = 0;
        while j < self.entries.len()
            invariant
                j <= self.entries@.len(),
                es@.len() == j,
                distinct_ids(self.entries@),
                forall|i: int|
                    0 <= i < j ==> (#[trigger] es@[i]).id@ == self.entries@[i].id@ && es@[i].state@
                        == self.entries@[i].state@,
            decreases self.entries.len() - j,
        {
            let e = &self.entries[j];
            es.push(DownloadEntry { id: e.id.clone(), state: e.state.copy() });
            j = j + 1;
        }
        assert(distinct_ids(es@)) by {
            assert forall|a: int, b: int|
                0 <= a < es@.len() && 0 <= b < es@.len() && a != b implies #[trigger] es@[a].id@
                != #[trigger] es@[b].id@ by {
                assert(self.entries@[a].id@ != self.entries@[b].id@);
            }
        }
        let ghost m = entries_map(es@);
        assert forall|k: Seq<char>| m.contains_key(k) <==> self.view().contains_key(k) by {
            if has_id(es@, k) {
                let i = choose|i: int| 0 <= i < es@.len() && #[trigger] es@[i].id@ == k;
                assert(self.entries@[i].id@ == k);
            }
            if has_id(self.entries@, k) {
                let i = choose|i: int|
                    0 <= i < self.entries@.len() && #[trigger] self.entries@[i].id@ == k;
                assert(es@[i].id@ == k);
            }
        }
        assert forall|k: Seq<char>| m.contains_key(k) implies m[k] == self.view()[k] by {
            let i = choose|i: int| 0 <= i < es@.len() && #[trigger] es@[i].id@ == k;
            lemma_entries_map_at(es@, i);
            lemma_entries_map_at(self.entries@, i);
        }
        assert(m =~= self.view());
        DownloadTable { entries: es }
    }
}

impl Clone for DownloadTable {
    fn clone(&self) -> (r: Self)
        ensures
            r.view() == self.view(),
    {
        self.copy()
    }
}

// ---------------------------------------------------------------- settings

/// The settings: the server's API address, the service shown by default, the
/// session cookie, the download folder, the credentials, and the downloads.
#[derive(Debug, Clone, PartialEq, Eq)]
pub struct Settings {
    pub server: String,
    pub service: String,
    pub session: String,
    pub download_path: String,
    pub username: String,
    pub password: String,
    pub downloads: DownloadTable,
}

pub struct SettingsView {
    pub server: Seq<char>,
    pub service: Seq<char>,
    pub session: Seq<char>,
    pub download_path: Seq<char>,
    pub username: Seq<char>,
    pub password: Seq<char>,
    pub downloads: Map<Seq<char>, DownloadStateView>,
}

impl View for Settings {
    type V = SettingsView;

    open spec fn view(&self) -> SettingsView {
        SettingsView {
            server: self.server@,
            service: self.service@,
            session: self.session@,
            download_path: self.download_path@,
            username: self.username@,
            password: self.password@,
            downloads: self.downloads.view(),
        }
    }
}

/// The user's download folder (`dirs::download_dir`), as text.
#[verifier::external_body]
fn user_download_dir() -> Option<String> {
    match dirs::download_dir() {
        Some(p) => Some(p.to_string_lossy().into_owned()),
        None => None,
    }
}

/// The user's home folder (`dirs::home_dir`), as text.
#[verifier::external_body]
fn user_home_dir() -> Option<String> {
    match dirs::home_dir() {
        Some(p) => Some(p.to_string_lossy().into_owned()),
        None => None,
    }
}

/// The default download folder, given the user's download and home folders.
pub fn default_download_path(download_dir: Option<String>, home_dir: Option<String>) -> (r:
    String)
    ensures
        r@ == default_download_root(opt_view(download_dir), opt_view(home_dir)),
{
    let base = match download_dir {
        Some(d) => d,
        None => match home_dir {
            Some(h) => join_path(h.as_str(), "Downloads"),
            None => String::from_str("./downloads"),
        },
    };
    join_path(base.as_str(), "Kemono")
}

impl Settings {
    /// A copy of the settings.
    pub fn copy(&self) -> (r: Self)
        ensures
            r@ == self@,
    {
        Settings {
            server: self.server.clone(),
            service: self.service.clone(),
            session: self.session.clone(),
            download_path: self.download_path.clone(),
            username: self.username.clone(),
            password: self.password.clone(),
            downloads: self.downloads.copy(),
        }
    }
}

/// The settings of a first start on a machine whose user download and home
/// folders are `download_dir` and `home_dir` (where known).
pub open spec fn first_start_settings(
    download_dir: Option<Seq<char>>,
    home_dir: Option<Seq<char>>,
) -> SettingsView {
    SettingsView {
        server: DEFAULT_SERVER@,
        service: DEFAULT_SERVICE@,
        session: Seq::empty(),
        download_path: default_download_root(download_dir, home_dir),
        username: Seq::empty(),
        password: Seq::empty(),
        downloads: Map::empty(),
    }
}

/// The settings of a first start on some machine: those of `first_start_settings`
/// for some download and home folders.
pub open spec fn is_default_settings(v: SettingsView) -> bool {
    exists|d: Option<Seq<char>>, h: Option<Seq<char>>| v == first_start_settings(d, h)
}

impl Settings {
    /// The settings of a first start, given the user's download and home folders:
    /// the public API server, the `fantia` service, no session, no credentials, no
    /// downloads, and `Kemono` in the download folder (else in `Downloads` of the
    /// home folder, else in `./downloads`).
    pub fn first_start(download_dir: Option<String>, home_dir: Option<String>) -> (r: Self)
        ensures
            r@ == first_start_settings(opt_view(download_dir), opt_view(home_dir)),
    {
        let ghost d = opt_view(download_dir);
        let ghost h = opt_view(home_dir);
        let download_path = default_download_path(download_dir, home_dir);
        let r = Settings {
            server: String::from_str(DEFAULT_SERVER),
            service: String::from_str(DEFAULT_SERVICE),
            session: String::new(),
            download_path,
            username: String::new(),
            password: String::new(),
            downloads: DownloadTable::new(),
        };
        assert(r@ == first_start_settings(d, h));
        r
    }
}

impl Default for Settings {
    /// The settings of a first start (`Settings::first_start`) with the user's
    /// download and home folders as `dirs` finds them on this machine.
    fn default() -> (r: Self)
        ensures
            is_default_settings(r@),
    {
        let download_dir = user_download_dir();
        let home_dir = user_home_dir();
        let ghost d = opt_view(download_dir);
        let ghost h = opt_view(home_dir);
        let r = Settings::first_start(download_dir, home_dir);
        assert(r@ == first_start_settings(d, h));
        r
    }
}

/// A change to the settings.
#[derive(Debug, Clone, PartialEq, Eq)]
pub enum SettingsChange {
    /// The settings form was saved: everything but the downloads is replaced.
    Configure {
        server: String,
        service: String,
        session: String,
        download_path: String,
        username: String,
        password: String,
    },
    /// A login succeeded with these credentials.
    SignedIn { session: String, username: String, password: String },
    /// A new session was obtained with the stored credentials.
    SessionRenewed { session: String },
    /// A download was put into the queue.
    DownloadQueued { id: String, state: DownloadState },
    /// A download attempt failed.
    DownloadFailed { id: String },
    /// The server reported that the file on disk is already whole.
    DownloadAlreadyComplete { id: String, size: u64, total: u64 },
    /// The server started sending the file.
    DownloadStarted { id: String, total: u64, offset: u64, etag: Option<String> },
    /// Bytes received so far.
    DownloadProgressed { id: String, downloaded: u64 },
    /// The whole file was received.
    DownloadCompleted { id: String, downloaded: u64 },
}

/// The record of `id` changed by `f`, where there is one; otherwise the downloads
/// stay as they are.
pub open spec fn change_entry(
    m: Map<Seq<char>, DownloadStateView>,
    id: Seq<char>,
    f: spec_fn(DownloadStateView) -> DownloadStateView,
) -> Map<Seq<char>, DownloadStateView> {
    if m.contains_key(id) {
        m.insert(id, f(m[id]))
    } else {
        m
    }
}

/// The settings after a change.
pub open spec fn changed(s: SettingsView, c: SettingsChange) -> SettingsView {
    match c {
        SettingsChange::Configure { server, service, session, download_path, username, password } =>
            SettingsView {
            server: server@,
            service: service@,
            session: session@,
            download_path: download_path@,
            username: username@,
            password: password@,
            ..s
        },
        SettingsChange::SignedIn { session, username, password } => SettingsView {
            session: session@,
            username: username@,
            password: password@,
            ..s
        },
        SettingsChange::SessionRenewed { session } => SettingsView { session: session@, ..s },
        SettingsChange::DownloadQueued { id, state } => SettingsView {
            downloads: s.downloads.insert(id@, state@),
            ..s
        },
        SettingsChange::DownloadFailed { id } => SettingsView {
            downloads: change_entry(
                s.downloads,
                id@,
                |d: DownloadStateView| DownloadStateView { status: STATUS_FAILED@, ..d },
            ),
            ..s
        },
        SettingsChange::DownloadAlreadyComplete { id, size, total } => SettingsView {
            downloads: change_entry(
                s.downloads,
                id@,
                |d: DownloadStateView|
                    DownloadStateView {
                        status: STATUS_COMPLETED@,
                        downloaded: size,
                        total: total,
                        ..d
                    },
            ),
            ..s
        },
        SettingsChange::DownloadStarted { id, total, offset, etag } => SettingsView {
            downloads: change_entry(
                s.downloads,
                id@,
                |d: DownloadStateView|
                    DownloadStateView {
                        status: STATUS_DOWNLOADING@,
                        total: total,
                        downloaded: offset,
                        etag: opt_view(etag),
                        ..d
                    },
            ),
            ..s
        },
        SettingsChange::DownloadProgressed { id, downloaded } => SettingsView {
            downloads: change_entry(
                s.downloads,
                id@,
                |d: DownloadStateView| DownloadStateView { downloaded: downloaded, ..d },
            ),
            ..s
        },
        SettingsChange::DownloadCompleted { id, downloaded } => SettingsView {
            downloads: change_entry(
                s.downloads,
                id@,
                |d: DownloadStateView|
                    DownloadStateView { status: STATUS_COMPLETED@, downloaded: downloaded, ..d },
            ),
            ..s
        },
    }
}

/// Applies a change of one download to its record, where there is one.
fn edit_download(table: &mut DownloadTable, id: &String, change: &SettingsChange)
    requires
        match change {
            SettingsChange::DownloadFailed { id: i } => i@ == id@,
            SettingsChange::DownloadAlreadyComplete { id: i, .. } => i@ == id@,
            SettingsChange::DownloadStarted { id: i, .. } => i@ == id@,
            SettingsChange::DownloadProgressed { id: i, .. } => i@ == id@,
            SettingsChange::DownloadCompleted { id: i, .. } => i@ == id@,
            _ => false,
        },
    ensures
        final(table).view() == changed(
            SettingsView {
                server: Seq::empty(),
                service: Seq::empty(),
                session: Seq::empty(),
                download_path: Seq::empty(),
                username: Seq::empty(),
                password: Seq::empty(),
                downloads: old(table).view(),
            },
            *change,
        ).downloads,
{
    let found = match table.get(id.as_str()) {
        Some(st) => Some(st.copy()),
        None => None,
    };
    match found {
        Some(mut st) => {
            match change {
                SettingsChange::DownloadFailed { .. } => {
                    st.status = String::from_str(STATUS_FAILED);
                },
                SettingsChange::DownloadAlreadyComplete { size, total, .. } => {
                    st.status = String::from_str(STATUS_COMPLETED);
                    st.downloaded = *size;
                    st.total = *total;
                },
                SettingsChange::DownloadStarted { total, offset, etag, .. } => {
                    st.status = String::from_str(STATUS_DOWNLOADING);
                    st.total = *total;
                    st.downloaded = *offset;
                    st.etag = copy_opt(etag);
                },
                SettingsChange::DownloadProgressed { downloaded, .. } => {
                    st.downloaded = *downloaded;
                },
                SettingsChange::DownloadCompleted { downloaded, .. } => {
                    st.status = String::from_str(STATUS_COMPLETED);
                    st.downloaded = *downloaded;
                },
                _ => {},
            }
            table.insert(id.clone(), st);
        },
        None => {},
    }
}

impl Settings {
    /// Applies a change.
    pub fn apply(&mut self, change: SettingsChange)
        ensures
            final(self)@ == changed(old(self)@, change),
    {
        let ghost c = change;
        match change {
            SettingsChange::Configure { server, service, session, download_path, username, password } => {
                self.server = server;
                self.service = service;
                self.session = session;
                self.download_path = download_path;
                self.username = username;
                self.password = password;
            },
            SettingsChange::SignedIn { session, username, password } => {
                self.session = session;
                self.username = username;
                self.password = password;
            },
            SettingsChange::SessionRenewed { session } => {
                self.session = session;
            },
            SettingsChange::DownloadQueued { id, state } => {
                self.downloads.insert(id, state);
            },
            SettingsChange::DownloadFailed { id } => {
                let c2 = SettingsChange::DownloadFailed { id: id.clone() };
                edit_download(&mut self.downloads, &id, &c2);
            },
            SettingsChange::DownloadAlreadyComplete { id, size, total } => {
                let c2 = SettingsChange::DownloadAlreadyComplete { id: id.clone(), size, total };
                edit_download(&mut self.downloads, &id, &c2);
            },
            SettingsChange::DownloadStarted { id, total, offset, etag } => {
                let c2 = SettingsChange::DownloadStarted { id: id.clone(), total, offset, etag };
                edit_download(&mut self.downloads, &id, &c2);
            },
            SettingsChange::DownloadProgressed { id, downloaded } => {
                let c2 = SettingsChange::DownloadProgressed { id: id.clone(), downloaded };
                edit_download(&mut self.downloads, &id, &c2);
            },
            SettingsChange::DownloadCompleted { id, downloaded } => {
                let c2 = SettingsChange::DownloadCompleted { id: id.clone(), downloaded };
                edit_download(&mut self.downloads, &id, &c2);
            },
        }
    }
}

/// The settings of the running program and the file that holds them.
pub struct SettingsManager {
    pub settings: Settings,
    pub path: String,
}

impl SettingsManager {
    /// The manager of the settings file `settings.json` in `app_dir`, holding the
    /// settings read from there, or the default settings where none could be read.
    pub fn new(app_dir: &str, loaded: Option<Settings>) -> (r: Self)
        ensures
            r.path@ == path_join(app_dir@, SETTINGS_FILE@),
            loaded matches Some(s) ==> r.settings@ == s@,
            loaded is None ==> is_default_settings(r.settings@),
    {
        let path = join_path(app_dir, SETTINGS_FILE);
        let settings = match loaded {
            Some(s) => s,
            None => Settings::default(),
        };
        SettingsManager { settings, path }
    }

    /// A copy of the current settings.
    pub fn get(&self) -> (r: Settings)
        ensures
            r@ == self.settings@,
    {
        self.settings.copy()
    }

    /// Applies a change and returns the settings as they are now; the caller
    /// writes them to `path`.
    pub fn update(&mut self, change: SettingsChange) -> (r: Settings)
        ensures
            final(self).settings@ == changed(old(self).settings@, change),
            final(self).path == old(self).path,
            r@ == final(self).settings@,
    {
        self.settings.apply(change);
        self.settings.copy()
    }
}


// ---------------------------------------------------------------- laws

/// The changes that touch one download.
pub open spec fn download_change_id(c: SettingsChange) -> Option<Seq<char>> {
    match c {
        SettingsChange::DownloadQueued { id, .. } => Some(id@),
        SettingsChange::DownloadFailed { id } => Some(id@),
        SettingsChange::DownloadAlreadyComplete { id, .. } => Some(id@),
        SettingsChange::DownloadStarted { id, .. } => Some(id@),
        SettingsChange::DownloadProgressed { id, .. } => Some(id@),
        SettingsChange::DownloadCompleted { id, .. } => Some(id@),
        _ => None,
    }
}

/// A queued download is recorded as given: reading it back gives what was written.
pub proof fn lemma_queued_download_reads_back(s: SettingsView, id: String, state: DownloadState)
    ensures
        changed(s, SettingsChange::DownloadQueued { id, state }).downloads.contains_key(id@),
        changed(s, SettingsChange::DownloadQueued { id, state }).downloads[id@] == state@,
{
}

/// A change of one download leaves the account, the server and the folder as they
/// are, and every other download too; a change of a download that was never
/// queued changes nothing.
pub proof fn lemma_download_change_is_local(s: SettingsView, c: SettingsChange, other: Seq<char>)
    requires
        download_change_id(c) matches Some(id) && other != id,
    ensures
        changed(s, c).server == s.server,
        changed(s, c).service == s.service,
        changed(s, c).session == s.session,
        changed(s, c).download_path == s.download_path,
        changed(s, c).username == s.username,
        changed(s, c).password == s.password,
        changed(s, c).downloads.contains_key(other) == s.downloads.contains_key(other),
        s.downloads.contains_key(other) ==> changed(s, c).downloads[other] == s.downloads[other],
        !(c is DownloadQueued) && !s.downloads.contains_key(download_change_id(c)->0) ==> changed(
            s,
            c,
        ) == s,
{
}

/// Saving the settings form, logging in and renewing the session leave the
/// downloads as they are.
pub proof fn lemma_account_changes_keep_downloads(s: SettingsView, c: SettingsChange)
    requires
        download_change_id(c) is None,
    ensures
        changed(s, c).downloads == s.downloads,
{
}

/// The status that a download change leaves, where the download is recorded.
pub proof fn lemma_download_status(s: SettingsView, c: SettingsChange)
    requires
        download_change_id(c) matches Some(id) && s.downloads.contains_key(id),
    ensures
        ({
            let d = changed(s, c).downloads[download_change_id(c)->0];
            match c {
                SettingsChange::DownloadQueued { state, .. } => d == state@,
                SettingsChange::DownloadFailed { .. } => d.status == STATUS_FAILED@,
                SettingsChange::DownloadAlreadyComplete { size, total, .. } => d.status
                    == STATUS_COMPLETED@ && d.downloaded == size && d.total == total,
                SettingsChange::DownloadStarted { total, offset, .. } => d.status
                    == STATUS_DOWNLOADING@ && d.total == total && d.downloaded == offset,
                SettingsChange::DownloadProgressed { downloaded, .. } => d.downloaded
                    == downloaded,
                SettingsChange::DownloadCompleted { downloaded, .. } => d.status
                    == STATUS_COMPLETED@ && d.downloaded == downloaded,
                _ => true,
            }
        }),
{
}

} // verus!
