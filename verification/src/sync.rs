//! The decisions of synchronising a post with a GitHub repository. The network
//! and database calls between them are made by the caller, which hands each
//! answer to the next decision.
use vstd::prelude::*;
use crate::errors::{markdown_error, SyncError};
use crate::external::{base64_standard_encode, markdown_root_blocks, yaml_of_mapping};
use crate::frontmatter::{
    body_after_frontmatter, document_text, extract, frontmatter_metadata, package, package_metadata,
    title_key,
};
use crate::github_record::{
    content_decoding, ContentDecoding, CreateContentParam, GithubArticleRecord, GithubRecord,
    InsertableGithubRecord, UpdateContentParam, WriteContentResp,
};
use crate::metadata::Metadata;
use crate::post::{earlier, Post, SyncRecord, TimeOrder, Timestamp};

verus! {

broadcast use vstd::string::group_string_axioms;

/// The address of a file in a repository, in GitHub's contents API.
pub open spec fn contents_url_text(repository: Seq<char>, path: Seq<char>) -> Seq<char> {
    "https://api.github.com/repos/"@ + repository + "/contents/"@ + path
}

/// The address of the file `path` of `repository` in GitHub's contents API.
pub fn contents_url(repository: &str, path: &str) -> (res: String)
    ensures
        res@ == contents_url_text(repository@, path@),
{
    let mut url = "https://api.github.com/repos/".to_string();
    url.append(repository);
    url.append("/contents/");
    url.append(path);
    url
}

/// The value of the `Authorization` header for `token`.
pub fn authorization_value(token: &str) -> (res: String)
    ensures
        res@ == "Bearer "@ + token@,
{
    let mut value = "Bearer ".to_string();
    value.append(token);
    value
}

/// The text of `prefix` followed by `tail`.
fn prefixed(prefix: &str, tail: &str) -> (res: String)
    ensures
        res@ == prefix@ + tail@,
{
    let mut res = prefix.to_string();
    res.append(tail);
    res
}

/// A copy of a list of records.
pub fn duplicate_records(records: &Vec<GithubRecord>) -> (res: Vec<GithubRecord>)
    ensures
        res@ == records@,
{
    let mut res: Vec<GithubRecord> = Vec::new();
    let mut i: usize = 0;
    while i < records.len()
        invariant
            0 <= i <= records.len(),
            res@ == records@.take(i as int),
        decreases records.len() - i,
    {
        res.push(records[i].duplicate());
        assert(records@.take(i + 1) == records@.take(i as int).push(records@[i as int]));
        i = i + 1;
    }
    assert(records@.take(records@.len() as int) == records@);
    res
}

/// A request that creates a file: where to send it, its body, and the repository.
pub struct CreateRequest {
    pub url: String,
    pub param: CreateContentParam,
    pub repository: String,
}

/// A request that replaces a file: where to send it, its body, and the repository.
pub struct UpdateRequest {
    pub url: String,
    pub param: UpdateContentParam,
    pub repository: String,
}

/// The three answers of a change check: the post is unchanged, the local post is
/// newer, or it was never synchronised.
pub open spec fn change_flags(post_time: crate::post::Timestamp, records: Option<Seq<GithubRecord>>) -> (bool, bool, bool) {
    match records {
        None => (false, false, true),
        Some(r) => if earlier(r[0].create_time, post_time) {
            (false, true, false)
        } else if post_time == r[0].create_time {
            (true, false, false)
        } else {
            (false, false, false)
        },
    }
}

/// A change check gives at most one of its three answers.
pub proof fn lemma_change_flags_exclusive(post_time: crate::post::Timestamp, records: Option<Seq<GithubRecord>>)
    ensures
        ({
            let (same, newer, unsynced) = change_flags(post_time, records);
            &&& !(same && newer)
            &&& !(same && unsynced)
            &&& !(newer && unsynced)
            &&& (unsynced <==> records is None)
        }),
{
}

/// The repository of the last GitHub record among `records`.
pub open spec fn last_github_repository(records: Seq<SyncRecord>) -> Option<Seq<char>>
    decreases records.len(),
{
    if records.len() == 0 {
        None
    } else {
        match records.last() {
            SyncRecord::Github(r) => Some(r.repository@),
            SyncRecord::Other => last_github_repository(records.drop_last()),
        }
    }
}

/// The contents URL is the API's repository address, then the repository, then
/// `/contents/`, then the whole path verbatim, directories included.
pub proof fn lemma_contents_url_ends_with_path(repository: Seq<char>, path: Seq<char>)
    ensures
        ({
            let u = contents_url_text(repository, path);
            let base = "https://api.github.com/repos/"@;
            let mid = "/contents/"@;
            &&& u.len() == base.len() + repository.len() + mid.len() + path.len()
            &&& u.subrange(0, base.len() as int) == base
            &&& u.subrange(base.len() as int, (base.len() + repository.len()) as int) == repository
            &&& u.subrange(
                (base.len() + repository.len()) as int,
                (base.len() + repository.len() + mid.len()) as int,
            ) == mid
            &&& u.subrange(u.len() - path.len(), u.len() as int) == path
        }),
{
    let u = contents_url_text(repository, path);
    let base = "https://api.github.com/repos/"@;
    let mid = "/contents/"@;
    let a = base.len() as int;
    let b = a + repository.len();
    let c = b + mid.len();
    assert(u.subrange(0, a) =~= base);
    assert(u.subrange(a, b) =~= repository);
    assert(u.subrange(b, c) =~= mid);
    assert(u.subrange(c, u.len() as int) =~= path);
}

/// A change check reads only the first record of the cached list, the latest:
/// the post is unchanged when created at the same time, locally newer when
/// created after it, and neither when created before it.
pub proof fn lemma_change_check_reads_latest_record(t: Timestamp, r: Seq<GithubRecord>)
    requires
        r.len() >= 1,
    ensures
        change_flags(t, Some(r)) == change_flags(t, Some(seq![r[0]])),
        change_flags(t, Some(r)) == (
            t.secs == r[0].create_time.secs && t.nanos == r[0].create_time.nanos,
            r[0].create_time.secs < t.secs || (r[0].create_time.secs == t.secs
                && r[0].create_time.nanos < t.nanos),
            false,
        ),
{
    assert(seq![r[0]][0] == r[0]);
}

/// The repository of the latest GitHub record: a list ending in a GitHub record
/// gives that record's repository, a record of another platform at the end is
/// passed over, and an empty list gives none.
pub proof fn lemma_last_github_repository(s: Seq<SyncRecord>, r: GithubRecord)
    ensures
        last_github_repository(s.push(SyncRecord::Github(r))) == Some(r.repository@),
        last_github_repository(s.push(SyncRecord::Other)) == last_github_repository(s),
        last_github_repository(seq![SyncRecord::Github(r)]) == Some(r.repository@),
        last_github_repository(Seq::<SyncRecord>::empty()) is None,
{
    assert(s.push(SyncRecord::Other).drop_last() == s);
    assert(seq![SyncRecord::Github(r)].last() == SyncRecord::Github(r));
}

/// What a synchronisation with GitHub remembers between its steps: the path and
/// repository given for a first push, and the records and the file it has read.
pub struct GithubSyncState {
    path: Option<String>,
    repository: Option<String>,
    records: Option<Vec<GithubRecord>>,
    article: Option<GithubArticleRecord>,
}

impl GithubSyncState {
    #[verifier::type_invariant]
    spec fn inv(&self) -> bool {
        self.records matches Some(r) ==> r@.len() > 0
    }

    /// The path given for a first push.
    pub closed spec fn spec_path(&self) -> Option<String> {
        self.path
    }

    /// The repository given for a first push.
    pub closed spec fn spec_repository(&self) -> Option<String> {
        self.repository
    }

    /// The records read so far; never an empty list.
    pub closed spec fn cached_records(&self) -> Option<Seq<GithubRecord>> {
        match self.records {
            Some(r) => Some(r@),
            None => None,
        }
    }

    /// The file read so far.
    pub closed spec fn cached_article(&self) -> Option<GithubArticleRecord> {
        self.article
    }

    /// A state that knows only the path and repository given for a first push.
    pub fn new(path: Option<String>, repository: Option<String>) -> (res: Self)
        ensures
            res.spec_path() == path,
            res.spec_repository() == repository,
            res.cached_records() is None,
            res.cached_article() is None,
    {
        GithubSyncState { path, repository, records: None, article: None }
    }

    /// Whether the records still have to be queried.
    pub fn needs_records(&self) -> (res: bool)
        ensures
            res == self.cached_records() is None,
    {
        self.records.is_none()
    }

    /// Takes the answer of a records query: the records are kept if none were
    /// kept before and the answer is not empty.
    pub fn store_records(&mut self, queried: Vec<GithubRecord>)
        ensures
            final(self).cached_records() == (if old(self).cached_records() is None && queried@.len() > 0 {
                Some(queried@)
            } else {
                old(self).cached_records()
            }),
            final(self).cached_article() == old(self).cached_article(),
            final(self).spec_path() == old(self).spec_path(),
            final(self).spec_repository() == old(self).spec_repository(),
            final(self).cached_records() matches Some(r) ==> r.len() > 0,
    {
        if self.records.is_none() && queried.len() > 0 {
            self.records = Some(queried);
        }
        proof {
            use_type_invariant(&*self);
        }
    }

    /// The records read so far; never an empty list.
    pub fn records(&self) -> (res: Option<Vec<GithubRecord>>)
        ensures
            match res {
                Some(r) => self.cached_records() == Some(r@),
                None => self.cached_records() is None,
            },
            res matches Some(r) ==> r@.len() > 0,
    {
        proof {
            use_type_invariant(self);
        }
        match &self.records {
            Some(r) => Some(duplicate_records(r)),
            None => None,
        }
    }

    /// The file read so far.
    pub fn article(&self) -> (res: Option<GithubArticleRecord>)
        ensures
            res == self.cached_article(),
    {
        match &self.article {
            Some(a) => Some(a.duplicate()),
            None => None,
        }
    }

    /// Where to read the file of the first record, if there are records.
    pub fn article_url(&self) -> (res: Option<String>)
        ensures
            match self.cached_records() {
                Some(r) => res matches Some(u) && u@ == contents_url_text(r[0].repository@, r[0].path@),
                None => res is None,
            },
    {
        proof {
            use_type_invariant(self);
        }
        match &self.records {
            Some(r) => Some(contents_url(r[0].repository.as_str(), r[0].path.as_str())),
            None => None,
        }
    }

    /// Takes the file that GitHub gave: it is decoded, kept, and handed back; a
    /// decoding error is a `Decode` error, and nothing is kept.
    pub fn accept_article(&mut self, article: GithubArticleRecord) -> (res: Result<GithubArticleRecord, SyncError>)
        ensures
            match content_decoding(article.encoding@, article.content@) {
                ContentDecoding::Text(t) => res matches Ok(r) && r.content@ == t && r.path == article.path
                    && r.sha == article.sha && r.html_url == article.html_url && r.name == article.name
                    && r.url == article.url && r.encoding == article.encoding
                    && final(self).cached_article() == Some(r),
                _ => res matches Err(SyncError::Decode) && final(self).cached_article() == old(self).cached_article(),
            },
            final(self).cached_records() == old(self).cached_records(),
            final(self).spec_path() == old(self).spec_path(),
            final(self).spec_repository() == old(self).spec_repository(),
    {
        proof {
            use_type_invariant(&*self);
        }
        match article.decode_content() {
            Ok(decoded) => {
                self.article = Some(decoded.duplicate());
                Ok(decoded)
            },
            Err(e) => Err(e.into_sync_error()),
        }
    }

    /// The request that creates the post's file at the path and in the repository
    /// given for a first push, with the commit message `create <path>`.
    pub fn plan_create(&self, post: &Post) -> (res: Result<CreateRequest, SyncError>)
        ensures
            match (self.spec_path(), self.spec_repository()) {
                (Some(path), Some(repository)) => match yaml_of_mapping(package_metadata(post.title@, post.metadata@)) {
                    Ok(y) => res matches Ok(q) && q.url@ == contents_url_text(repository@, path@)
                        && q.param.message@ == "create "@ + path@
                        && q.param.content@ == base64_standard_encode(document_text(y, post.content@))
                        && q.repository == repository,
                    Err(m) => res matches Err(SyncError::Other(e)) && e@ == m,
                },
                _ => res matches Err(SyncError::UserError(e)) && e@
                    == "path and repository is required for the first time sync"@,
            },
    {
        match (&self.path, &self.repository) {
            (Some(path), Some(repository)) => {
                let url = contents_url(repository.as_str(), path.as_str());
                let document = match package(post) {
                    Ok(d) => d,
                    Err(m) => {
                        return Err(SyncError::Other(m));
                    },
                };
                let message = prefixed("create ", path.as_str());
                let param = CreateContentParam::new(message.as_str(), document.as_str());
                Ok(CreateRequest { url, param, repository: repository.clone() })
            },
            _ => Err(SyncError::UserError("path and repository is required for the first time sync".to_string())),
        }
    }

    /// The request that replaces the file of the first record by the post, with
    /// the commit message `update <path>`.
    pub fn plan_update(&self, post: &Post) -> (res: Result<UpdateRequest, SyncError>)
        requires
            self.cached_records() is Some,
        ensures
            ({
                let r = self.cached_records()->0[0];
                match yaml_of_mapping(package_metadata(post.title@, post.metadata@)) {
                    Ok(y) => res matches Ok(q) && q.url@ == contents_url_text(r.repository@, r.path@)
                        && q.param.message@ == "update "@ + r.path@
                        && q.param.content@ == base64_standard_encode(document_text(y, post.content@))
                        && q.param.sha@ == r.sha@ && q.repository == r.repository,
                    Err(m) => res matches Err(SyncError::Other(e)) && e@ == m,
                }
            }),
    {
        proof {
            use_type_invariant(self);
        }
        match &self.records {
            Some(records) => {
                let record = &records[0];
                let url = contents_url(record.repository.as_str(), record.path.as_str());
                let document = match package(post) {
                    Ok(d) => d,
                    Err(m) => {
                        return Err(SyncError::Other(m));
                    },
                };
                let message = prefixed("update ", record.path.as_str());
                let param = UpdateContentParam::new(message.as_str(), document.as_str(), record.sha.as_str());
                Ok(UpdateRequest { url, param, repository: record.repository.clone() })
            },
            None => Err(SyncError::NotFound),
        }
    }

    /// The answer of a change check, from the post's creation time and that of
    /// the first record.
    pub fn check_changed(&self, post: &Post) -> (res: (bool, bool, bool))
        ensures
            res == change_flags(post.create_time, self.cached_records()),
    {
        proof {
            use_type_invariant(self);
        }
        match &self.records {
            None => (false, false, true),
            Some(records) => match post.create_time.compare(&records[0].create_time) {
                TimeOrder::Greater => (false, true, false),
                TimeOrder::Equal => (true, false, false),
                TimeOrder::Less => (false, false, false),
            },
        }
    }

    /// The repository of a pulled post: that of the last GitHub record among the
    /// post's latest records, else the one given for a first push.
    pub fn pull_repository(&self, latest: &Vec<SyncRecord>) -> (res: Result<String, SyncError>)
        ensures
            match last_github_repository(latest@) {
                Some(r) => res matches Ok(s) && s@ == r,
                None => match self.spec_repository() {
                    Some(r) => res matches Ok(s) && s == r,
                    None => res matches Err(SyncError::UserError(e)) && e@ == "Not specify repository"@,
                },
            },
    {
        let mut i = latest.len();
        assert(latest@.take(i as int) == latest@);
        while i > 0
            invariant
                i <= latest.len(),
                last_github_repository(latest@) == last_github_repository(latest@.take(i as int)),
            decreases i,
        {
            proof {
                assert(latest@.take(i as int).drop_last() == latest@.take(i - 1));
                assert(latest@.take(i as int).last() == latest@[i - 1]);
            }
            match &latest[i - 1] {
                SyncRecord::Github(r) => {
                    return Ok(r.repository.clone());
                },
                SyncRecord::Other => {},
            }
            i = i - 1;
        }
        match &self.repository {
            Some(r) => Ok(r.clone()),
            None => Err(SyncError::UserError("Not specify repository".to_string())),
        }
    }
}

/// The record of a file that a write request produced, for `post` in `repository`.
pub fn record_of_write(post: &Post, response: WriteContentResp, repository: String) -> (res: InsertableGithubRecord)
    ensures
        res.post_id == post.post_id,
        res.version == post.version,
        res.path == response.content.path,
        res.sha == response.content.sha,
        res.repository == repository,
        res.url == response.content.html_url,
{
    InsertableGithubRecord::new(
        post.post_id,
        post.version.clone(),
        response.content.path,
        response.content.sha,
        repository,
        response.content.html_url,
    )
}

/// The record of a pulled file, for the post `post_id` at `version` in `repository`.
pub fn record_of_article(post_id: i64, version: String, article: &GithubArticleRecord, repository: String) -> (res: InsertableGithubRecord)
    ensures
        res.post_id == post_id,
        res.version == version,
        res.path == article.path,
        res.sha == article.sha,
        res.repository == repository,
        res.url == article.html_url,
{
    InsertableGithubRecord::new(
        post_id,
        version,
        article.path.clone(),
        article.sha.clone(),
        repository,
        article.html_url.clone(),
    )
}

/// The title of a pulled post: the one in its front matter, else the local one.
pub fn pulled_title(extracted: Option<String>, post: &Post) -> (res: String)
    ensures
        match extracted {
            Some(t) => res == t,
            None => res == post.title,
        },
{
    match extracted {
        Some(t) => t,
        None => post.title.clone(),
    }
}

/// What a pulled file holds for the post: its title, metadata and body.
pub struct PulledDocument {
    pub title: String,
    pub metadata: Metadata,
    pub content: String,
}

/// The parts of a pulled file: the title of its front matter, else the local
/// post's title; the rest of its front matter; and the text after it.
pub fn pulled_document(article: &GithubArticleRecord, post: &Post) -> (res: Result<PulledDocument, SyncError>)
    ensures
        res matches Ok(res) && ({
            let m = frontmatter_metadata(markdown_root_blocks(article.content@));
            &&& res.content@ == body_after_frontmatter(article.content@)
            &&& res.metadata@ == m.remove(title_key())
            &&& m.contains_key(title_key()) ==> res.title@ == m[title_key()]
            &&& !m.contains_key(title_key()) ==> res.title == post.title
        }),
{
    match extract(article.content.as_str()) {
        Ok(parts) => {
            let title = pulled_title(parts.title, post);
            Ok(PulledDocument { title, metadata: parts.metadata, content: parts.content })
        },
        Err(message) => Err(markdown_error(message)),
    }
}

} // verus!
