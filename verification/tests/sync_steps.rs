use letterman::errors::SyncError;
use letterman::github_record::{GithubArticleRecord, GithubRecord, WriteContentResp, WriteContentRespInner};
use letterman::metadata::Metadata;
use letterman::post::{Post, SyncRecord, Timestamp};
use letterman::sync::{
    authorization_value, contents_url, pulled_document, pulled_title, record_of_article,
    record_of_write, GithubSyncState,
};

fn record(repository: &str, path: &str, secs: i64, nanos: u32) -> GithubRecord {
    GithubRecord {
        id: "id".to_string(),
        post_id: 3,
        version: "v2".to_string(),
        path: path.to_string(),
        sha: "s1".to_string(),
        repository: repository.to_string(),
        url: "u".to_string(),
        create_time: Timestamp { secs, nanos },
        update_time: Timestamp { secs, nanos },
    }
}

fn post(secs: i64, nanos: u32) -> Post {
    let mut metadata = Metadata::new();
    metadata.insert("tags".to_string(), "a".to_string());
    Post {
        post_id: 3,
        title: "Title".to_string(),
        metadata,
        content: "Body".to_string(),
        version: "v9".to_string(),
        create_time: Timestamp { secs, nanos },
    }
}

#[test]
fn urls_and_headers() {
    assert_eq!(
        contents_url("ZephyrZenn/test-repo", "README.md"),
        "https://api.github.com/repos/ZephyrZenn/test-repo/contents/README.md"
    );
    assert_eq!(authorization_value("tok"), "Bearer tok");
}

#[test]
fn first_push_needs_path_and_repository() {
    let state = GithubSyncState::new(Some("README.md".to_string()), None);
    match state.plan_create(&post(1, 0)) {
        Err(SyncError::UserError(m)) => {
            assert_eq!(m, "path and repository is required for the first time sync")
        }
        _ => panic!("expected a user error"),
    }
}

#[test]
fn first_push_plan() {
    let state = GithubSyncState::new(Some("README.md".to_string()), Some("ZephyrZenn/test-repo".to_string()));
    let q = state.plan_create(&post(1, 0)).ok().unwrap();
    assert_eq!(q.url, "https://api.github.com/repos/ZephyrZenn/test-repo/contents/README.md");
    assert_eq!(q.param.message, "create README.md");
    assert_eq!(q.repository, "ZephyrZenn/test-repo");
    assert!(!q.param.content.is_empty());
}

#[test]
fn records_are_kept_once_and_only_when_found() {
    let mut state = GithubSyncState::new(None, None);
    assert!(state.needs_records());
    state.store_records(vec![]);
    assert!(state.needs_records());
    assert!(state.records().is_none());
    assert!(state.article_url().is_none());
    state.store_records(vec![record("u/r", "a.md", 5, 0)]);
    assert!(!state.needs_records());
    state.store_records(vec![record("other/r", "b.md", 6, 0)]);
    let kept = state.records().unwrap();
    assert_eq!(kept.len(), 1);
    assert_eq!(kept[0].repository, "u/r");
    assert_eq!(state.article_url(), Some("https://api.github.com/repos/u/r/contents/a.md".to_string()));
}

#[test]
fn update_plan_uses_the_first_record() {
    let mut state = GithubSyncState::new(None, None);
    state.store_records(vec![record("u/r", "a.md", 5, 0), record("x/y", "b.md", 1, 0)]);
    let q = state.plan_update(&post(1, 0)).ok().unwrap();
    assert_eq!(q.url, "https://api.github.com/repos/u/r/contents/a.md");
    assert_eq!(q.param.message, "update a.md");
    assert_eq!(q.param.sha, "s1");
    assert_eq!(q.repository, "u/r");
}

#[test]
fn change_check() {
    let mut state = GithubSyncState::new(None, None);
    assert_eq!(state.check_changed(&post(5, 0)), (false, false, true));
    state.store_records(vec![record("u/r", "a.md", 5, 10)]);
    assert_eq!(state.check_changed(&post(5, 10)), (true, false, false));
    assert_eq!(state.check_changed(&post(5, 11)), (false, true, false));
    assert_eq!(state.check_changed(&post(4, 999)), (false, false, false));
}

#[test]
fn pull_repository_choice() {
    let state = GithubSyncState::new(None, Some("given/repo".to_string()));
    let latest = vec![SyncRecord::Github(record("first/r", "a", 1, 0)), SyncRecord::Github(record("last/r", "a", 1, 0)), SyncRecord::Other];
    assert_eq!(state.pull_repository(&latest).ok().unwrap(), "last/r");
    assert_eq!(state.pull_repository(&vec![SyncRecord::Other]).ok().unwrap(), "given/repo");
    let bare = GithubSyncState::new(None, None);
    match bare.pull_repository(&vec![]) {
        Err(SyncError::UserError(m)) => assert_eq!(m, "Not specify repository"),
        _ => panic!("expected a user error"),
    }
}

#[test]
fn accepting_an_article_keeps_it_decoded() {
    let mut state = GithubSyncState::new(None, None);
    let a = GithubArticleRecord {
        name: "n".to_string(),
        path: "p".to_string(),
        content: "aGVs\nbG8=".to_string(),
        sha: "s".to_string(),
        url: "u".to_string(),
        encoding: "base64".to_string(),
        html_url: "h".to_string(),
    };
    let decoded = state.accept_article(a).ok().unwrap();
    assert_eq!(decoded.content, "hello");
    assert_eq!(state.article().unwrap().content, "hello");
    let bad = GithubArticleRecord {
        name: "n".to_string(),
        path: "p".to_string(),
        content: "x".to_string(),
        sha: "s".to_string(),
        url: "u".to_string(),
        encoding: "utf-8".to_string(),
        html_url: "h".to_string(),
    };
    assert!(matches!(state.accept_article(bad), Err(SyncError::Decode)));
    assert_eq!(state.article().unwrap().content, "hello");
}

#[test]
fn pulled_parts() {
    let a = GithubArticleRecord {
        name: "n".to_string(),
        path: "p".to_string(),
        content: "---\ntitle: Remote\nk: v\n---\ntext".to_string(),
        sha: "s".to_string(),
        url: "u".to_string(),
        encoding: "base64".to_string(),
        html_url: "h".to_string(),
    };
    let d = pulled_document(&a, &post(1, 0)).ok().unwrap();
    assert_eq!(d.title, "Remote");
    assert_eq!(d.content, "\ntext");
    assert_eq!(d.metadata.get(&"k".to_string()), Some("v".to_string()));
    assert_eq!(pulled_title(None, &post(1, 0)), "Title");
    let r = record_of_article(3, "v10".to_string(), &a, "u/r".to_string());
    assert_eq!(r.path, "p");
    assert_eq!(r.sha, "s");
    assert_eq!(r.url, "h");
    let w = WriteContentResp {
        content: WriteContentRespInner {
            sha: "s2".to_string(),
            path: "p2".to_string(),
            url: "u2".to_string(),
            html_url: "h2".to_string(),
        },
    };
    let r2 = record_of_write(&post(1, 0), w, "u/r".to_string());
    assert_eq!(r2.version, "v9");
    assert_eq!(r2.sha, "s2");
    assert_eq!(r2.url, "h2");
}
