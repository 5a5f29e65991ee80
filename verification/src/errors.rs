//! The errors of synchronisation and how they turn into one another.
use vstd::prelude::*;
use crate::github_record::{DecodeError, QueryGithubRecordError, QuerySyncRecordError};

verus! {

broadcast use vstd::string::group_string_axioms;

/// The errors that a synchronisation reports.
pub enum SyncError {
    Decode,
    Database,
    UserError(String),
    RemoteServer,
    NetworkError(String),
    Other(String),
    NotFound,
}

/// The errors of synchronising with GitHub.
pub enum GithubSyncError {
    NetworkError(String),
    Other(String),
    UserError(String),
    NoToken,
    NotFound,
}

/// The errors of storing a record.
pub enum CreateGithubRecordError {
    /// The database failed, with its message.
    Database(String),
}

/// The errors of an action on the document database.
pub enum MongoActionError<E> {
    Error(E),
    /// The connection failed, with its message.
    Pool(String),
}

/// The errors of an action on the relational database.
pub enum DbActionError<E> {
    Error(E),
    /// The connection pool failed, with its message.
    Pool(String),
    Canceled,
}

/// The text of a `GithubSyncError`.
pub open spec fn github_sync_error_text(e: GithubSyncError) -> Seq<char> {
    match e {
        GithubSyncError::NetworkError(_) => "Network Error"@,
        GithubSyncError::Other(m) => "Unknown Error: "@ + m@,
        GithubSyncError::UserError(m) => "User Error: "@ + m@,
        GithubSyncError::NoToken => "Please set GITHUB_TOKEN env if you want to use github synchronize"@,
        GithubSyncError::NotFound => "Post not found"@,
    }
}

/// The text of a `DecodeError`.
pub open spec fn decode_error_text(e: DecodeError) -> Seq<char> {
    match e {
        DecodeError::Decode(a, m) => "Decode Error: algorithm: "@ + a@ + ", error: "@ + m@,
        DecodeError::Convert => "Invalid content"@,
        DecodeError::UnsupportedEncoding(m) => "Unsupported encoding: "@ + m@,
    }
}

/// The text of `prefix` followed by `tail`.
fn joined(prefix: &str, tail: &String) -> (res: String)
    ensures
        res@ == prefix@ + tail@,
{
    let mut res = prefix.to_string();
    res.append(tail.as_str());
    res
}

impl GithubSyncError {
    /// The text of the error.
    pub fn message(&self) -> (res: String)
        ensures
            res@ == github_sync_error_text(*self),
    {
        match self {
            GithubSyncError::NetworkError(_) => "Network Error".to_string(),
            GithubSyncError::Other(m) => joined("Unknown Error: ", m),
            GithubSyncError::UserError(m) => joined("User Error: ", m),
            GithubSyncError::NoToken => "Please set GITHUB_TOKEN env if you want to use github synchronize".to_string(),
            GithubSyncError::NotFound => "Post not found".to_string(),
        }
    }

    /// The synchronisation error that this error stands for: each variant keeps its
    /// text, and a missing token is the user's error, told in this error's text.
    pub fn into_sync_error(self) -> (res: SyncError)
        ensures
            match self {
                GithubSyncError::NetworkError(m) => res matches SyncError::NetworkError(r) && r == m,
                GithubSyncError::Other(m) => res matches SyncError::Other(r) && r == m,
                GithubSyncError::UserError(m) => res matches SyncError::UserError(r) && r == m,
                GithubSyncError::NotFound => res matches SyncError::NotFound,
                GithubSyncError::NoToken => res matches SyncError::UserError(r) && r@
                    == github_sync_error_text(self),
            },
    {
        let text = self.message();
        match self {
            GithubSyncError::NetworkError(m) => SyncError::NetworkError(m),
            GithubSyncError::Other(m) => SyncError::Other(m),
            GithubSyncError::UserError(m) => SyncError::UserError(m),
            GithubSyncError::NotFound => SyncError::NotFound,
            GithubSyncError::NoToken => SyncError::UserError(text),
        }
    }
}

impl DecodeError {
    /// The text of the error.
    pub fn message(&self) -> (res: String)
        ensures
            res@ == decode_error_text(*self),
    {
        match self {
            DecodeError::Decode(a, m) => {
                let mut res = joined("Decode Error: algorithm: ", a);
                res.append(", error: ");
                res.append(m.as_str());
                res
            },
            DecodeError::Convert => "Invalid content".to_string(),
            DecodeError::UnsupportedEncoding(m) => joined("Unsupported encoding: ", m),
        }
    }

    /// The synchronisation error that a decoding error stands for.
    pub fn into_sync_error(self) -> (res: SyncError)
        ensures
            res is Decode,
    {
        SyncError::Decode
    }
}

impl QueryGithubRecordError {
    /// The synchronisation error that a query error stands for.
    pub fn into_sync_error(self) -> (res: SyncError)
        ensures
            self is Database ==> res is Database,
            self is NotFound ==> (res matches SyncError::UserError(m) && m@
                == "not found the query record"@),
    {
        match self {
            QueryGithubRecordError::Database(_) => SyncError::Database,
            QueryGithubRecordError::NotFound => SyncError::UserError("not found the query record".to_string()),
        }
    }
}

impl CreateGithubRecordError {
    /// The synchronisation error that a storing error stands for.
    pub fn into_sync_error(self) -> (res: SyncError)
        ensures
            res is Database,
    {
        SyncError::Database
    }
}

impl MongoActionError<QueryGithubRecordError> {
    /// The synchronisation error that a failed query stands for.
    pub fn query_into_sync_error(self) -> (res: SyncError)
        ensures
            self is Pool ==> res is Database,
            self matches MongoActionError::Error(QueryGithubRecordError::Database(_)) ==> res is Database,
            self matches MongoActionError::Error(QueryGithubRecordError::NotFound) ==> (
            res matches SyncError::UserError(m) && m@ == "not found the query record"@),
    {
        match self {
            MongoActionError::Pool(_) => SyncError::Database,
            MongoActionError::Error(e) => e.into_sync_error(),
        }
    }
}

impl MongoActionError<CreateGithubRecordError> {
    /// The synchronisation error that a failed insertion stands for.
    pub fn create_into_sync_error(self) -> (res: SyncError)
        ensures
            res is Database,
    {
        match self {
            MongoActionError::Pool(_) => SyncError::Database,
            MongoActionError::Error(e) => e.into_sync_error(),
        }
    }
}

impl QuerySyncRecordError {
    /// The synchronisation error that a failed query of a post's latest records
    /// stands for: a database failure, or a record that could not be read, with
    /// its message.
    pub fn into_sync_error(self) -> (res: SyncError)
        ensures
            self is Database ==> res is Database,
            self matches QuerySyncRecordError::Deserialize(m) ==> (res matches SyncError::Other(r)
                && r == m),
    {
        match self {
            QuerySyncRecordError::Database(_) => SyncError::Database,
            QuerySyncRecordError::Deserialize(m) => SyncError::Other(m),
        }
    }
}

impl MongoActionError<QuerySyncRecordError> {
    /// The synchronisation error that a failed query of a post's latest records
    /// stands for.
    pub fn latest_into_sync_error(self) -> (res: SyncError)
        ensures
            self is Pool ==> res is Database,
            self matches MongoActionError::Error(QuerySyncRecordError::Database(_)) ==> res is Database,
            self matches MongoActionError::Error(QuerySyncRecordError::Deserialize(m)) ==> (
            res matches SyncError::Other(r) && r == m),
    {
        match self {
            MongoActionError::Pool(_) => SyncError::Database,
            MongoActionError::Error(e) => e.into_sync_error(),
        }
    }
}

/// The synchronisation error for a markdown parser's error, given its message.
pub fn markdown_error(message: String) -> (res: SyncError)
    ensures
        res matches SyncError::Other(m) && m@ == "failed to parse markdown: "@ + message@,
{
    SyncError::Other(joined("failed to parse markdown: ", &message))
}

/// The synchronisation error for a JSON parser's error, given its message.
pub fn json_error(message: String) -> (res: SyncError)
    ensures
        res matches SyncError::Other(m) && m@ == "failed to parse json: "@ + message@,
{
    SyncError::Other(joined("failed to parse json: ", &message))
}

/// The outcome of a request by whether GitHub answered with a success status: a
/// failure is the remote server's error.
pub fn remote_status(success: bool) -> (res: Result<(), SyncError>)
    ensures
        success ==> res is Ok,
        !success ==> res matches Err(SyncError::RemoteServer),
{
    if success {
        Ok(())
    } else {
        Err(SyncError::RemoteServer)
    }
}

} // verus!
