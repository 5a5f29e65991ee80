//! Records of posts synchronised with GitHub, and the bodies of GitHub's contents API.
use vstd::prelude::*;
use vstd::utf8::{decode_utf8, encode_utf8, valid_utf8};
use crate::external::{
    all_base64_symbols, base64_decode, base64_encoded_len, base64_decodes_to, base64_encode, base64_standard_decode,
    base64_standard_encode, local_now, utf8_string,
};
use crate::post::{Platform, Post, Timestamp};
use crate::text::{chars_of, push_char, without_char};

verus! {

broadcast use vstd::string::group_string_axioms;

/// A stored record of one version of a post pushed to, or pulled from, GitHub.
pub struct GithubRecord {
    pub id: String,
    pub post_id: i64,
    pub version: String,
    pub path: String,
    pub sha: String,
    pub repository: String,
    pub url: String,
    pub create_time: Timestamp,
    pub update_time: Timestamp,
}

impl GithubRecord {
    pub fn post_id(&self) -> (res: i64)
        ensures
            res == self.post_id,
    {
        self.post_id
    }

    pub fn version(&self) -> (res: &str)
        ensures
            res@ == self.version@,
    {
        self.version.as_str()
    }

    pub fn path(&self) -> (res: &str)
        ensures
            res@ == self.path@,
    {
        self.path.as_str()
    }

    pub fn sha(&self) -> (res: &str)
        ensures
            res@ == self.sha@,
    {
        self.sha.as_str()
    }

    pub fn repository(&self) -> (res: &str)
        ensures
            res@ == self.repository@,
    {
        self.repository.as_str()
    }

    pub fn url(&self) -> (res: &str)
        ensures
            res@ == self.url@,
    {
        self.url.as_str()
    }

    pub fn create_time(&self) -> (res: &Timestamp)
        ensures
            *res == self.create_time,
    {
        &self.create_time
    }

    pub fn update_time(&self) -> (res: &Timestamp)
        ensures
            *res == self.update_time,
    {
        &self.update_time
    }

    /// A copy of the record.
    pub fn duplicate(&self) -> (res: GithubRecord)
        ensures
            res == *self,
    {
        GithubRecord {
            id: self.id.clone(),
            post_id: self.post_id,
            version: self.version.clone(),
            path: self.path.clone(),
            sha: self.sha.clone(),
            repository: self.repository.clone(),
            url: self.url.clone(),
            create_time: self.create_time,
            update_time: self.update_time,
        }
    }
}

/// A record as it is shown, with the post it belongs to.
pub struct GithubRecordVO {
    pub id: String,
    pub post: Post,
    pub path: String,
    pub repository: String,
    pub url: String,
    pub create_time: Timestamp,
    pub update_time: Timestamp,
    pub platform: Platform,
    pub version: String,
    pub latest_version: String,
}

impl GithubRecordVO {
    /// The shown form of `record`, with `post` and the post's latest version.
    pub fn package(record: GithubRecord, post: Post, latest_version: String) -> (res: Self)
        ensures
            res.id == record.id,
            res.post == post,
            res.path == record.path,
            res.repository == record.repository,
            res.url == record.url,
            res.create_time == record.create_time,
            res.update_time == record.update_time,
            res.platform == Platform::Github,
            res.version == record.version,
            res.latest_version == latest_version,
    {
        GithubRecordVO {
            id: record.id,
            post,
            path: record.path,
            repository: record.repository,
            url: record.url,
            create_time: record.create_time,
            update_time: record.update_time,
            platform: Platform::Github,
            version: record.version,
            latest_version,
        }
    }
}

/// A record to be stored, stamped with the time it is made.
pub struct InsertableGithubRecord {
    pub post_id: i64,
    pub version: String,
    pub path: String,
    pub sha: String,
    pub repository: String,
    pub url: String,
    pub create_time: Timestamp,
    pub update_time: Timestamp,
}

impl InsertableGithubRecord {
    /// A record of the given fields, created and updated now.
    pub fn new(
        post_id: i64,
        version: String,
        path: String,
        sha: String,
        repository: String,
        url: String,
    ) -> (res: Self)
        ensures
            res.post_id == post_id,
            res.version == version,
            res.path == path,
            res.sha == sha,
            res.repository == repository,
            res.url == url,
    {
        InsertableGithubRecord {
            post_id,
            version,
            path,
            sha,
            repository,
            url,
            create_time: local_now(),
            update_time: local_now(),
        }
    }
}

/// A file as GitHub's contents API gives it.
pub struct GithubArticleRecord {
    pub name: String,
    pub path: String,
    pub content: String,
    pub sha: String,
    pub url: String,
    pub encoding: String,
    pub html_url: String,
}

/// The errors of decoding a file's content.
pub enum DecodeError {
    Decode(String, String),
    Convert,
    UnsupportedEncoding(String),
}

/// The name of the one encoding that can be decoded.
pub open spec fn base64_name() -> Seq<char> {
    seq!['b', 'a', 's', 'e', '6', '4']
}

/// What decoding a file's content comes to.
pub enum ContentDecoding {
    /// The decoded text.
    Text(Seq<char>),
    /// The encoding is not base64.
    Unsupported,
    /// The base64 decoder refused the content, with this message.
    Malformed(Seq<char>),
    /// The decoded bytes are not UTF-8.
    NotText,
}

/// What decoding a content in `encoding` comes to: line breaks are dropped, the
/// rest is decoded as base64, and the bytes are read as UTF-8.
pub open spec fn content_decoding(encoding: Seq<char>, content: Seq<char>) -> ContentDecoding {
    if encoding != base64_name() {
        ContentDecoding::Unsupported
    } else {
        match base64_standard_decode(without_char(content, '\n')) {
            Err(message) => ContentDecoding::Malformed(message),
            Ok(bytes) => if valid_utf8(bytes) {
                ContentDecoding::Text(decode_utf8(bytes))
            } else {
                ContentDecoding::NotText
            },
        }
    }
}

/// `s` without its line breaks, as `str::replace('\n', "")` gives it.
pub fn remove_line_breaks(s: &str) -> (res: String)
    ensures
        res@ == without_char(s@, '\n'),
{
    let v = chars_of(s);
    let mut res = String::new();
    let mut i: usize = 0;
    proof {
        reveal_with_fuel(Seq::<_>::filter, 1);
        assert(v@.take(0) =~= Seq::<char>::empty());
    }
    while i < v.len()
        invariant
            0 <= i <= v.len(),
            res@ == without_char(v@.take(i as int), '\n'),
        decreases v.len() - i,
    {
        proof {
            reveal_with_fuel(Seq::<_>::filter, 1);
            assert(v@.take(i + 1).drop_last() == v@.take(i as int));
            assert(v@.take(i + 1).last() == v@[i as int]);
        }
        if v[i] != '\n' {
            push_char(&mut res, v[i]);
        }
        i = i + 1;
    }
    proof {
        assert(v@.take(v@.len() as int) == v@);
    }
    res
}

impl GithubArticleRecord {
    /// A copy of the record.
    pub fn duplicate(&self) -> (res: GithubArticleRecord)
        ensures
            res == *self,
    {
        GithubArticleRecord {
            name: self.name.clone(),
            path: self.path.clone(),
            content: self.content.clone(),
            sha: self.sha.clone(),
            url: self.url.clone(),
            encoding: self.encoding.clone(),
            html_url: self.html_url.clone(),
        }
    }

    /// The record with its content decoded: base64 without line breaks, read as
    /// UTF-8. Other encodings are refused.
    pub fn decode_content(self) -> (res: Result<GithubArticleRecord, DecodeError>)
        ensures
            match content_decoding(self.encoding@, self.content@) {
                ContentDecoding::Text(t) => res matches Ok(r) && r.content@ == t && r.name == self.name
                    && r.path == self.path && r.sha == self.sha && r.url == self.url && r.encoding
                    == self.encoding && r.html_url == self.html_url,
                ContentDecoding::Unsupported => res matches Err(DecodeError::UnsupportedEncoding(e))
                    && e@ == self.encoding@,
                ContentDecoding::Malformed(m) => res matches Err(DecodeError::Decode(a, e)) && a@
                    == base64_name() && e@ == m,
                ContentDecoding::NotText => res matches Err(DecodeError::Convert),
            },
    {
        let base64 = "base64".to_string();
        proof {
            reveal_strlit("base64");
            assert(base64@ == base64_name());
        }
        if self.encoding == base64 {
            let content = remove_line_breaks(self.content.as_str());
            let decoded = base64_decode(content.as_str());
            self.with_decoded_bytes(decoded)
        } else {
            Err(DecodeError::UnsupportedEncoding(self.encoding))
        }
    }

    /// The record with its content replaced by what the base64 decoder gave for
    /// it: the bytes read as UTF-8, or the decoder's message as a `Decode` error,
    /// or a `Convert` error for bytes that are not UTF-8.
    pub fn with_decoded_bytes(self, decoded: Result<Vec<u8>, String>) -> (res: Result<GithubArticleRecord, DecodeError>)
        ensures
            match decoded {
                Err(m) => res matches Err(DecodeError::Decode(a, e)) && a@ == base64_name() && e == m,
                Ok(bytes) => if valid_utf8(bytes@) {
                    res matches Ok(r) && r.content@ == decode_utf8(bytes@) && r.name == self.name
                        && r.path == self.path && r.sha == self.sha && r.url == self.url
                        && r.encoding == self.encoding && r.html_url == self.html_url
                } else {
                    res matches Err(DecodeError::Convert)
                },
            },
    {
        let bytes = match decoded {
            Ok(bytes) => bytes,
            Err(message) => {
                let algorithm = "base64".to_string();
                proof {
                    reveal_strlit("base64");
                    assert(algorithm@ == base64_name());
                }
                return Err(DecodeError::Decode(algorithm, message));
            },
        };
        let content = match utf8_string(bytes) {
            Some(text) => text,
            None => {
                return Err(DecodeError::Convert);
            },
        };
        Ok(GithubArticleRecord {
            name: self.name,
            path: self.path,
            content,
            sha: self.sha,
            url: self.url,
            encoding: self.encoding,
            html_url: self.html_url,
        })
    }
}

/// The body of a request that creates a file.
pub struct CreateContentParam {
    pub message: String,
    pub content: String,
}

/// The content of a file as the contents API takes it: the base64 of its UTF-8 bytes.
fn encode_content(content: &str) -> (res: String)
    ensures
        res@ == base64_standard_encode(content@),
        res@.len() == base64_encoded_len(encode_utf8(content@).len()),
        all_base64_symbols(res@),
        base64_decodes_to(res@, encode_utf8(content@)),
{
    base64_encode(content)
}

impl CreateContentParam {
    /// A request to create a file holding `content`, with the commit `message`.
    pub fn new(message: &str, content: &str) -> (res: CreateContentParam)
        ensures
            res.message@ == message@,
            res.content@ == base64_standard_encode(content@),
            res.content@.len() == base64_encoded_len(encode_utf8(content@).len()),
            all_base64_symbols(res.content@),
            base64_decodes_to(res.content@, encode_utf8(content@)),
    {
        CreateContentParam { message: message.to_string(), content: encode_content(content) }
    }
}

/// The body of a request that replaces a file.
pub struct UpdateContentParam {
    pub message: String,
    pub content: String,
    pub sha: String,
}

impl UpdateContentParam {
    /// A request to replace the file of blob `sha` by `content`, with the commit `message`.
    pub fn new(message: &str, content: &str, sha: &str) -> (res: UpdateContentParam)
        ensures
            res.message@ == message@,
            res.content@ == base64_standard_encode(content@),
            res.content@.len() == base64_encoded_len(encode_utf8(content@).len()),
            all_base64_symbols(res.content@),
            base64_decodes_to(res.content@, encode_utf8(content@)),
            res.sha@ == sha@,
    {
        UpdateContentParam {
            message: message.to_string(),
            content: encode_content(content),
            sha: sha.to_string(),
        }
    }
}

/// GitHub's answer to a request that writes a file.
pub struct WriteContentResp {
    pub content: WriteContentRespInner,
}

/// The file that a write request produced.
pub struct WriteContentRespInner {
    pub sha: String,
    pub path: String,
    pub url: String,
    pub html_url: String,
}

/// The errors of querying the latest records of a post on every platform.
pub enum QuerySyncRecordError {
    /// The database failed, with its message.
    Database(String),
    /// A stored record could not be read, with the reader's message.
    Deserialize(String),
}

/// The errors of querying the stored records.
pub enum QueryGithubRecordError {
    /// The database failed, with its message.
    Database(String),
    NotFound,
}

proof fn lemma_without_absent_char(s: Seq<char>, c: char)
    requires
        forall|i: int| 0 <= i < s.len() ==> s[i] != c,
    ensures
        without_char(s, c) == s,
    decreases s.len(),
{
    reveal_with_fuel(Seq::<_>::filter, 1);
    if s.len() > 0 {
        lemma_without_absent_char(s.drop_last(), c);
        assert(s.drop_last().push(s.last()) == s);
    }
}

/// What is pushed is what is pulled: a content that `encode_content` produced
/// for `text`, as GitHub gives it back with any line breaks inserted, decodes to
/// `text`.
pub proof fn lemma_encoded_content_decodes(text: Seq<char>, encoded: Seq<char>, received: Seq<char>)
    requires
        all_base64_symbols(encoded),
        base64_decodes_to(encoded, encode_utf8(text)),
        without_char(received, '\n') == without_char(encoded, '\n'),
    ensures
        content_decoding(base64_name(), received) == ContentDecoding::Text(text),
{
    broadcast use vstd::utf8::encode_utf8_valid_utf8, vstd::utf8::encode_utf8_decode_utf8;

    assert forall|i: int| 0 <= i < encoded.len() implies encoded[i] != '\n' by {
        assert(crate::external::is_base64_symbol(encoded[i]));
    }
    lemma_without_absent_char(encoded, '\n');
}

} // verus!
