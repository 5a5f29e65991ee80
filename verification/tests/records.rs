use letterman::errors::{
    json_error, markdown_error, remote_status, GithubSyncError, MongoActionError, SyncError,
};
use letterman::github_record::{
    CreateContentParam, DecodeError, GithubArticleRecord, GithubRecord, GithubRecordVO,
    InsertableGithubRecord, QueryGithubRecordError, QuerySyncRecordError, UpdateContentParam,
};
use letterman::metadata::Metadata;
use letterman::post::{Platform, Post, Timestamp};

fn article(content: &str, encoding: &str) -> GithubArticleRecord {
    GithubArticleRecord {
        name: "README.md".to_string(),
        path: "docs/README.md".to_string(),
        content: content.to_string(),
        sha: "abc".to_string(),
        url: "https://api.github.com/x".to_string(),
        encoding: encoding.to_string(),
        html_url: "https://github.com/x".to_string(),
    }
}

fn record(repository: &str, path: &str, secs: i64) -> GithubRecord {
    GithubRecord {
        id: "65f0".to_string(),
        post_id: 3,
        version: "v2".to_string(),
        path: path.to_string(),
        sha: "s1".to_string(),
        repository: repository.to_string(),
        url: "https://github.com/u".to_string(),
        create_time: Timestamp { secs, nanos: 0 },
        update_time: Timestamp { secs: secs + 1, nanos: 0 },
    }
}

#[test]
fn create_param_encodes_content_as_base64() {
    let p = CreateContentParam::new("create a.md", "hello");
    assert_eq!(p.message, "create a.md");
    assert_eq!(p.content, "aGVsbG8=");
}

#[test]
fn update_param_keeps_sha() {
    let p = UpdateContentParam::new("update a.md", "héllo", "sha1");
    assert_eq!(p.message, "update a.md");
    assert_eq!(p.content, "aMOpbGxv");
    assert_eq!(p.sha, "sha1");
}

#[test]
fn decode_content_drops_line_breaks() {
    let r = article("aGVs\nbG8=\n", "base64").decode_content().ok().unwrap();
    assert_eq!(r.content, "hello");
    assert_eq!(r.name, "README.md");
    assert_eq!(r.path, "docs/README.md");
    assert_eq!(r.sha, "abc");
    assert_eq!(r.encoding, "base64");
}

#[test]
fn pushed_content_is_pulled_back() {
    let text = "---\ntitle: 標題\n---\nbody\n";
    let p = CreateContentParam::new("m", text);
    let wrapped: String = p.content.chars().collect::<Vec<_>>().chunks(4).map(|c| c.iter().collect::<String>() + "\n").collect();
    let r = article(&wrapped, "base64").decode_content().ok().unwrap();
    assert_eq!(r.content, text);
}

#[test]
fn decode_content_refuses_other_encodings() {
    match article("aGVsbG8=", "utf-8").decode_content() {
        Err(DecodeError::UnsupportedEncoding(e)) => assert_eq!(e, "utf-8"),
        _ => panic!("expected an unsupported encoding"),
    }
}

#[test]
fn decode_content_reports_bad_base64() {
    match article("a!!!", "base64").decode_content() {
        Err(DecodeError::Decode(a, m)) => {
            assert_eq!(a, "base64");
            assert!(!m.is_empty());
        }
        _ => panic!("expected a decode error"),
    }
}

#[test]
fn decode_content_reports_bytes_that_are_not_text() {
    match article("/w==", "base64").decode_content() {
        Err(DecodeError::Convert) => {}
        _ => panic!("expected a conversion error"),
    }
}

#[test]
fn decode_error_messages() {
    assert_eq!(DecodeError::Convert.message(), "Invalid content");
    assert_eq!(DecodeError::UnsupportedEncoding("x".to_string()).message(), "Unsupported encoding: x");
    assert_eq!(
        DecodeError::Decode("base64".to_string(), "bad".to_string()).message(),
        "Decode Error: algorithm: base64, error: bad"
    );
}

#[test]
fn record_getters() {
    let r = record("u/repo", "a.md", 10);
    assert_eq!(r.post_id(), 3);
    assert_eq!(r.version(), "v2");
    assert_eq!(r.path(), "a.md");
    assert_eq!(r.sha(), "s1");
    assert_eq!(r.repository(), "u/repo");
    assert_eq!(r.url(), "https://github.com/u");
    assert_eq!(*r.create_time(), Timestamp { secs: 10, nanos: 0 });
    assert_eq!(*r.update_time(), Timestamp { secs: 11, nanos: 0 });
}

#[test]
fn record_vo_package() {
    let post = Post {
        post_id: 3,
        title: "T".to_string(),
        metadata: Metadata::new(),
        content: "c".to_string(),
        version: "v3".to_string(),
        create_time: Timestamp { secs: 1, nanos: 2 },
    };
    let vo = GithubRecordVO::package(record("u/repo", "a.md", 10), post, "v3".to_string());
    assert_eq!(vo.platform, Platform::Github);
    assert_eq!(vo.version, "v2");
    assert_eq!(vo.latest_version, "v3");
    assert_eq!(vo.repository, "u/repo");
    assert_eq!(vo.post.title, "T");
}

#[test]
fn insertable_record_keeps_fields() {
    let r = InsertableGithubRecord::new(
        4,
        "v".to_string(),
        "p".to_string(),
        "s".to_string(),
        "r".to_string(),
        "u".to_string(),
    );
    assert_eq!(r.post_id, 4);
    assert_eq!(r.path, "p");
    assert_eq!(r.url, "u");
    assert!(r.create_time.secs > 0);
}

#[test]
fn github_sync_errors_become_sync_errors() {
    match GithubSyncError::NoToken.into_sync_error() {
        SyncError::UserError(m) => {
            assert_eq!(m, "Please set GITHUB_TOKEN env if you want to use github synchronize")
        }
        _ => panic!("expected a user error"),
    }
    match GithubSyncError::NetworkError("timeout".to_string()).into_sync_error() {
        SyncError::NetworkError(m) => assert_eq!(m, "timeout"),
        _ => panic!("expected a network error"),
    }
    assert!(matches!(GithubSyncError::NotFound.into_sync_error(), SyncError::NotFound));
    assert_eq!(GithubSyncError::Other("x".to_string()).message(), "Unknown Error: x");
    assert_eq!(GithubSyncError::UserError("y".to_string()).message(), "User Error: y");
    assert_eq!(GithubSyncError::NetworkError("z".to_string()).message(), "Network Error");
    assert_eq!(GithubSyncError::NotFound.message(), "Post not found");
}

#[test]
fn query_errors_become_sync_errors() {
    match QueryGithubRecordError::NotFound.into_sync_error() {
        SyncError::UserError(m) => assert_eq!(m, "not found the query record"),
        _ => panic!("expected a user error"),
    }
    assert!(matches!(
        QueryGithubRecordError::Database("down".to_string()).into_sync_error(),
        SyncError::Database
    ));
    assert!(matches!(
        MongoActionError::<QueryGithubRecordError>::Pool("p".to_string()).query_into_sync_error(),
        SyncError::Database
    ));
}

#[test]
fn decoded_bytes_become_the_content() {
    let r = article("x", "base64").with_decoded_bytes(Ok(vec![0x68, 0xc3, 0xa9])).ok().unwrap();
    assert_eq!(r.content, "hé");
    assert_eq!(r.html_url, "https://github.com/x");
    match article("x", "base64").with_decoded_bytes(Err("Invalid padding".to_string())) {
        Err(DecodeError::Decode(a, m)) => {
            assert_eq!(a, "base64");
            assert_eq!(m, "Invalid padding");
        }
        _ => panic!("expected a decode error"),
    }
    assert!(matches!(
        article("x", "base64").with_decoded_bytes(Ok(vec![0xc3])),
        Err(DecodeError::Convert)
    ));
}

#[test]
fn encoded_length_is_four_per_started_three_bytes() {
    assert_eq!(CreateContentParam::new("m", "").content.len(), 0);
    assert_eq!(CreateContentParam::new("m", "a").content, "YQ==");
    assert_eq!(CreateContentParam::new("m", "abcd").content.len(), 8);
    assert_eq!(UpdateContentParam::new("m", "é", "s").content.len(), 4);
}

#[test]
fn latest_record_query_errors_become_sync_errors() {
    match QuerySyncRecordError::Deserialize("missing field".to_string()).into_sync_error() {
        SyncError::Other(m) => assert_eq!(m, "missing field"),
        _ => panic!("expected another error"),
    }
    assert!(matches!(
        MongoActionError::Error(QuerySyncRecordError::Database("down".to_string())).latest_into_sync_error(),
        SyncError::Database
    ));
    assert!(matches!(
        MongoActionError::<QuerySyncRecordError>::Pool("p".to_string()).latest_into_sync_error(),
        SyncError::Database
    ));
}

#[test]
fn parser_errors_and_status_become_sync_errors() {
    match markdown_error("bad".to_string()) {
        SyncError::Other(m) => assert_eq!(m, "failed to parse markdown: bad"),
        _ => panic!("expected another error"),
    }
    match json_error("eof".to_string()) {
        SyncError::Other(m) => assert_eq!(m, "failed to parse json: eof"),
        _ => panic!("expected another error"),
    }
    assert!(remote_status(true).is_ok());
    assert!(matches!(remote_status(false), Err(SyncError::RemoteServer)));
}
