use letterman::frontmatter::{
    body_of, extract, extract_from_blocks, frontmatter_document, metadata_from_yaml, package,
};
use letterman::metadata::Metadata;
use letterman::post::{Post, Timestamp};

fn metadata_of(pairs: &[(&str, &str)]) -> Metadata {
    let mut m = Metadata::new();
    for (k, v) in pairs {
        m.insert(k.to_string(), v.to_string());
    }
    m
}

fn get(m: &Metadata, key: &str) -> Option<String> {
    m.get(&key.to_string())
}

fn post_with(title: &str, metadata: Metadata, content: &str) -> Post {
    Post {
        post_id: 7,
        title: title.to_string(),
        metadata,
        content: content.to_string(),
        version: "v1".to_string(),
        create_time: Timestamp { secs: 0, nanos: 0 },
    }
}

#[test]
fn markdown_extract() {
    let content = "---\na:b\n---\ncontent";
    let res = extract(content).unwrap();
    assert_eq!(res.title, None);
    assert_eq!(get(&res.metadata, "a"), Some("b".to_string()));
    assert_eq!(res.metadata.entries().len(), 1);
    assert_eq!(res.content, "\ncontent");
}

#[test]
fn extract_test() {
    let content: &'static str = "---
title: Remake | CS50 AI入门笔记
top: false
toc: true
mathjax: true
date: 2022-07-02 17:02:19
password:
summary:
tags:
    - 人工智能
categories:
    - Remake
---

# Introduction  to  AI
";
    let res = extract(content).unwrap();
    assert_eq!(res.title, Some("Remake | CS50 AI入门笔记".to_string()));
    assert_eq!(get(&res.metadata, "title"), None);
    assert_eq!(get(&res.metadata, "top"), Some("false".to_string()));
    assert_eq!(get(&res.metadata, "toc"), Some("true".to_string()));
    assert_eq!(get(&res.metadata, "mathjax"), Some("true".to_string()));
    assert_eq!(get(&res.metadata, "date"), Some("2022-07-02 17:02:19".to_string()));
    assert_eq!(get(&res.metadata, "password"), Some("".to_string()));
    assert_eq!(get(&res.metadata, "tags"), Some("".to_string()));
    assert_eq!(get(&res.metadata, "categories"), Some("".to_string()));
    assert_eq!(res.metadata.entries().len(), 8);
    assert_eq!(res.content, "\n\n# Introduction  to  AI\n");
}

#[test]
fn serialize_metadata_test() {
    let post = post_with("111", Metadata::new(), "body");
    let text = package(&post).unwrap();
    assert!(text.starts_with("---\ntitle: "));
    assert!(text.contains("111"));
    assert!(text.ends_with("\n---\nbody"));
}

#[test]
fn extract_without_frontmatter_keeps_everything() {
    let res = extract("# Title\n\ntext").unwrap();
    assert_eq!(res.title, None);
    assert_eq!(res.metadata.entries().len(), 0);
    assert_eq!(res.content, "# Title\n\ntext");
}

#[test]
fn body_of_needs_two_fences() {
    assert_eq!(body_of("no fences"), "no fences");
    assert_eq!(body_of("--- one fence only"), "--- one fence only");
    assert_eq!(body_of("x---a---rest"), "rest");
    assert_eq!(body_of("------tail"), "tail");
    assert_eq!(body_of("-----"), "-----");
}

#[test]
fn metadata_lines_are_split_at_the_first_colon_and_trimmed() {
    let m = metadata_from_yaml(" key :  a: b \nno colon here\n\u{3000}wide\u{a0}: x\u{2003}\n:\nkey: later");
    assert_eq!(get(&m, "key"), Some("later".to_string()));
    assert_eq!(get(&m, "wide"), Some("x".to_string()));
    assert_eq!(get(&m, ""), Some("".to_string()));
    assert_eq!(get(&m, "no colon here"), None);
    assert_eq!(m.entries().len(), 3);
}

#[test]
fn first_yaml_block_gives_the_metadata() {
    let blocks = Some(vec![None, Some("title: T\nk: v".to_string()), Some("k: other".to_string())]);
    let res = extract_from_blocks("---\nx\n---\nbody", blocks);
    assert_eq!(res.title, Some("T".to_string()));
    assert_eq!(get(&res.metadata, "k"), Some("v".to_string()));
    assert_eq!(res.metadata.entries().len(), 1);
    assert_eq!(res.content, "\nbody");
}

#[test]
fn no_children_means_no_metadata() {
    let res = extract_from_blocks("---\nx\n---\nbody", None);
    assert_eq!(res.title, None);
    assert_eq!(res.metadata.entries().len(), 0);
}

#[test]
fn package_then_extract_gives_back_title_metadata_and_body() {
    let post = post_with("Hello", metadata_of(&[("tags", "rust"), ("top", "yes")]), "Body text");
    let text = package(&post).unwrap();
    let res = extract(&text).unwrap();
    assert_eq!(res.title, Some("Hello".to_string()));
    assert_eq!(get(&res.metadata, "tags"), Some("rust".to_string()));
    assert_eq!(get(&res.metadata, "top"), Some("yes".to_string()));
    assert_eq!(res.content, "\nBody text");
}

#[test]
fn package_lets_the_metadata_title_win() {
    let post = post_with("Local", metadata_of(&[("title", "Meta")]), "b");
    let text = package(&post).unwrap();
    let res = extract(&text).unwrap();
    assert_eq!(res.title, Some("Meta".to_string()));
}

#[test]
fn quoted_yaml_values_come_back_with_their_quotes() {
    let post = post_with("111", Metadata::new(), "body");
    let text = package(&post).unwrap();
    let res = extract(&text).unwrap();
    assert_eq!(res.title, Some("'111'".to_string()));
    assert_eq!(res.content, "\nbody");
}

#[test]
fn frontmatter_document_frames_the_yaml() {
    assert_eq!(
        frontmatter_document(Ok("a: b\n".to_string()), "text"),
        Ok("---\na: b\n\n---\ntext".to_string())
    );
    assert_eq!(frontmatter_document(Err("bad".to_string()), "text"), Err("bad".to_string()));
}
