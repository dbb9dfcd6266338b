use kemono_tools::paths::join_path;
use kemono_tools::settings::{
    default_download_path, DownloadState, DownloadTable, Settings, SettingsChange, SettingsManager,
};

fn state(url: &str, status: &str) -> DownloadState {
    DownloadState {
        url: url.to_string(),
        path: "/d/f".to_string(),
        downloaded: 0,
        total: 0,
        status: status.to_string(),
        post_id: "1".to_string(),
        file_name: "f".to_string(),
        etag: None,
    }
}

fn manager() -> SettingsManager {
    SettingsManager::new("/cfg", Some(Settings {
        server: "https://s/api".to_string(),
        service: "fantia".to_string(),
        session: String::new(),
        download_path: "dl".to_string(),
        username: "u".to_string(),
        password: "p".to_string(),
        downloads: DownloadTable::new(),
    }))
}

#[test]
fn table_reads_back_what_was_written() {
    let mut t = DownloadTable::new();
    assert_eq!(t.len(), 0);
    t.insert("a".to_string(), state("u1", "pending"));
    t.insert("b".to_string(), state("u2", "pending"));
    t.insert("a".to_string(), state("u3", "failed"));
    assert_eq!(t.len(), 2);
    assert_eq!(t.get("a").unwrap().url, "u3");
    assert_eq!(t.get("a").unwrap().status, "failed");
    assert_eq!(t.get("b").unwrap().url, "u2");
    assert!(t.get("c").is_none());
    let ids: Vec<&str> = t.entries().iter().map(|e| e.id.as_str()).collect();
    assert_eq!(ids, vec!["a", "b"]);
}

#[test]
fn manager_path_and_get() {
    let m = manager();
    assert_eq!(m.path, "/cfg/settings.json");
    let s = m.get();
    assert_eq!(s.server, "https://s/api");
    assert_eq!(s.username, "u");
}

#[test]
fn default_settings_when_none_were_read() {
    let m = SettingsManager::new("cfg/", None);
    assert_eq!(m.path, "cfg/settings.json");
    let s = m.get();
    assert_eq!(s.server, "https://kemono.cr/api");
    assert_eq!(s.service, "fantia");
    assert!(s.session.is_empty() && s.username.is_empty() && s.password.is_empty());
    assert_eq!(s.downloads.len(), 0);
    assert!(s.download_path.ends_with("/Kemono"));
}

#[test]
fn default_download_folder() {
    assert_eq!(default_download_path(Some("/home/a/Downloads".into()), Some("/home/a".into())), "/home/a/Downloads/Kemono");
    assert_eq!(default_download_path(None, Some("/home/a".into())), "/home/a/Downloads/Kemono");
    assert_eq!(default_download_path(None, Some("/home/a/".into())), "/home/a/Downloads/Kemono");
    assert_eq!(default_download_path(None, None), "./downloads/Kemono");
}

#[test]
fn joining_paths() {
    assert_eq!(join_path("a", "b"), "a/b");
    assert_eq!(join_path("a/", "b"), "a/b");
    assert_eq!(join_path("", "b"), "b");
    assert_eq!(join_path("a", "/b"), "/b");
    assert_eq!(join_path("a", ""), "a/");
    for (base, part) in [("x/y", "z"), ("/", "q"), ("r", "/abs"), ("", ""), ("k//", "m")] {
        let std_joined = std::path::Path::new(base).join(part).display().to_string();
        assert_eq!(join_path(base, part), std_joined);
    }
}

#[test]
fn configure_keeps_downloads() {
    let mut m = manager();
    m.update(SettingsChange::DownloadQueued { id: "x".into(), state: state("u", "pending") });
    let s = m.update(SettingsChange::Configure {
        server: "srv".into(),
        service: "svc".into(),
        session: "sess".into(),
        download_path: "/abs".into(),
        username: "nu".into(),
        password: "np".into(),
    });
    assert_eq!(s.server, "srv");
    assert_eq!(s.service, "svc");
    assert_eq!(s.session, "sess");
    assert_eq!(s.download_path, "/abs");
    assert_eq!(s.username, "nu");
    assert_eq!(s.password, "np");
    assert_eq!(s.downloads.get("x").unwrap().url, "u");
    assert_eq!(m.get(), s);
}

#[test]
fn sign_in_and_renew() {
    let mut m = manager();
    let s = m.update(SettingsChange::SignedIn { session: "S1".into(), username: "a".into(), password: "b".into() });
    assert_eq!((s.session.as_str(), s.username.as_str(), s.password.as_str()), ("S1", "a", "b"));
    let s = m.update(SettingsChange::SessionRenewed { session: "S2".into() });
    assert_eq!((s.session.as_str(), s.username.as_str(), s.password.as_str()), ("S2", "a", "b"));
}

#[test]
fn download_lifecycle_in_settings() {
    let mut m = manager();
    m.update(SettingsChange::DownloadQueued { id: "x".into(), state: state("u", "pending") });
    let s = m.update(SettingsChange::DownloadStarted { id: "x".into(), total: 100, offset: 10, etag: Some("\"e\"".into()) });
    let d = s.downloads.get("x").unwrap();
    assert_eq!((d.status.as_str(), d.total, d.downloaded), ("downloading", 100, 10));
    assert_eq!(d.etag.as_deref(), Some("\"e\""));
    let s = m.update(SettingsChange::DownloadProgressed { id: "x".into(), downloaded: 50 });
    assert_eq!(s.downloads.get("x").unwrap().downloaded, 50);
    assert_eq!(s.downloads.get("x").unwrap().status, "downloading");
    let s = m.update(SettingsChange::DownloadFailed { id: "x".into() });
    assert_eq!(s.downloads.get("x").unwrap().status, "failed");
    assert_eq!(s.downloads.get("x").unwrap().downloaded, 50);
    let s = m.update(SettingsChange::DownloadCompleted { id: "x".into(), downloaded: 100 });
    let d = s.downloads.get("x").unwrap();
    assert_eq!((d.status.as_str(), d.downloaded, d.total), ("completed", 100, 100));
    let s = m.update(SettingsChange::DownloadAlreadyComplete { id: "x".into(), size: 120, total: 110 });
    let d = s.downloads.get("x").unwrap();
    assert_eq!((d.status.as_str(), d.downloaded, d.total), ("completed", 120, 110));
}

#[test]
fn change_of_an_unknown_download_changes_nothing() {
    let mut m = manager();
    let before = m.get();
    let s = m.update(SettingsChange::DownloadFailed { id: "nope".into() });
    assert_eq!(s, before);
    assert_eq!(s.downloads.len(), 0);
}

#[test]
fn first_start_settings_from_the_user_folders() {
    let s = Settings::first_start(Some("/home/u/Downloads".into()), Some("/home/u".into()));
    assert_eq!(s.server, "https://kemono.cr/api");
    assert_eq!(s.service, "fantia");
    assert_eq!((s.session.as_str(), s.username.as_str(), s.password.as_str()), ("", "", ""));
    assert_eq!(s.download_path, "/home/u/Downloads/Kemono");
    assert_eq!(s.downloads.len(), 0);
    assert_eq!(Settings::first_start(None, Some("/home/u".into())).download_path, "/home/u/Downloads/Kemono");
    assert_eq!(Settings::first_start(None, None).download_path, "./downloads/Kemono");
}
