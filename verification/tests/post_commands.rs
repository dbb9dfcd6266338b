use kemono_tools::api::{Attachment, FileInfo, Post};
use kemono_tools::commands::{
    download_path_report, post_page_path,
    file_url, plan_post_files, post_directory, post_folder_name, resolve_download_root,
    session_plan, SessionPlan,
};
use kemono_tools::settings::{DownloadTable, Settings};

fn settings(session: &str, user: &str, pass: &str) -> Settings {
    Settings {
        server: "s".into(),
        service: "fantia".into(),
        session: session.into(),
        download_path: "d".into(),
        username: user.into(),
        password: pass.into(),
        downloads: DownloadTable::new(),
    }
}

#[test]
fn sessions_are_planned() {
    assert_eq!(session_plan(&settings("abc", "", "")), SessionPlan::Use("abc".into()));
    assert_eq!(session_plan(&settings("", "u", "")), SessionPlan::MissingCredentials);
    assert_eq!(session_plan(&settings("", "", "p")), SessionPlan::MissingCredentials);
    assert_eq!(
        session_plan(&settings("", "u", "p")),
        SessionPlan::SignIn { username: "u".into(), password: "p".into() }
    );
}

#[test]
fn download_root_is_resolved() {
    assert_eq!(resolve_download_root("/abs/dl", &Some("/cwd".into()), &None), "/abs/dl");
    assert_eq!(resolve_download_root("rel", &Some("/cwd".into()), &Some("/cfg".into())), "/cwd/rel");
    assert_eq!(resolve_download_root("rel", &None, &Some("/cfg".into())), "/cfg/rel");
    assert_eq!(resolve_download_root("rel", &None, &None), "./rel");
}

#[test]
fn folders_of_a_post() {
    assert_eq!(post_folder_name("983680", "Vol.1: A/B?"), "983680 - Vol.1_ A_B_");
    assert_eq!(post_folder_name("1", "title. . "), "1 - title");
    assert_eq!(post_directory("/root", "fantia", "73695", "1 - t"), "/root/fantia/73695/1 - t");
}

#[test]
fn file_addresses_are_encoded() {
    assert_eq!(file_url(&None, "/ab/cd/h.png", "my file.png"), "https://kemono.cr/data/ab/cd/h.png?f=my%20file.png");
    assert_eq!(file_url(&Some("https://n2.kemono.cr".into()), "/x", "a-b_c.~"), "https://n2.kemono.cr/data/x?f=a-b_c.~");
    assert_eq!(file_url(&None, "/x", "한.zip"), "https://kemono.cr/data/x?f=%ED%95%9C.zip");
    assert_eq!(file_url(&None, "/x", "a&b=c?"), "https://kemono.cr/data/x?f=a%26b%3Dc%3F");
}

#[test]
fn files_of_a_post_are_planned() {
    let post = Post {
        id: "7".into(),
        user: "u".into(),
        service: "fantia".into(),
        title: "t".into(),
        substring: None,
        published: None,
        file: Some(FileInfo { name: "main.png".into(), path: "/m/main.png".into(), server: Some("https://n1".into()) }),
        attachments: vec![
            Attachment { server: None, name: "a b.zip".into(), path: "/a/z".into(), extension: Some(".zip".into()) },
            Attachment { server: None, name: "c.mp4".into(), path: "/c/m".into(), extension: None },
        ],
    };
    let jobs = plan_post_files("7", &post, "/dl/fantia/u/7 - t");
    assert_eq!(jobs.len(), 3);
    assert_eq!(jobs[0].url, "https://n1/data/m/main.png?f=main.png");
    assert_eq!(jobs[0].dest, "/dl/fantia/u/7 - t/main.png");
    assert_eq!(jobs[0].file_name, "main.png");
    assert_eq!(jobs[0].id, "7_main.png_https://n1/data/m/main.png?f=main.png");
    assert_eq!(jobs[1].url, "https://kemono.cr/data/a/z?f=a%20b.zip");
    assert_eq!(jobs[1].dest, "/dl/fantia/u/7 - t/a b.zip");
    assert_eq!(jobs[2].id, "7_c.mp4_https://kemono.cr/data/c/m?f=c.mp4");
    let task = jobs[2].clone().into_task("7", "sess");
    assert_eq!(task.post_id, "7");
    assert_eq!(task.session, "sess");
    assert_eq!(task.dest_path, "/dl/fantia/u/7 - t/c.mp4");

    let bare = Post { file: None, attachments: vec![], ..post };
    assert!(plan_post_files("7", &bare, "/b").is_empty());
}

#[test]
fn page_path_and_folder_report() {
    assert_eq!(post_page_path("/d/fantia/7/42 - t"), "/d/fantia/7/42 - t/post_info.html");
    assert_eq!(
        download_path_report("dl", "/home/u/dl", "error: missing", false),
        "settings.download_path: 'dl'\nResolved: '/home/u/dl'\nCanonical: 'error: missing'\nExists: false"
    );
    assert!(download_path_report("/a", "/a", "/a", true).ends_with("Exists: true"));
}
