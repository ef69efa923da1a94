//! What is downloaded, and how a download ended.
use crate::address::copy_url;
use crate::http::{first_text, header_fields, header_text, is_plain_name};
use crate::text::{decimal, law_number_round_trip, number_of, parse_number};
use reqwest::header::HeaderMap;
use reqwest::{StatusCode, Url};
use vstd::prelude::*;

verus! {

/// A resource: where it is, and the name of the file that it is saved in.
#[derive(Debug)]
pub struct Resource {
    pub url: Url,
    pub filename: String,
}

impl Clone for Resource {
    fn clone(&self) -> (r: Self)
        ensures
            r == *self,
    {
        Resource { url: copy_url(&self.url), filename: self.filename.clone() }
    }
}

/// The length that the headers of a reply give for the body, where they give one.
pub open spec fn length_of(headers: HeaderMap) -> Option<u64> {
    match first_text(headers, "content-length"@) {
        Some(text) => number_of(text),
        None => None,
    }
}

/// The length that the headers of a reply give for the body.
pub fn content_length_in(headers: &HeaderMap) -> (r: Option<u64>)
    ensures
        r == length_of(*headers),
{
    proof {
        reveal_strlit("content-length");
        assert(is_plain_name("content-length"@));
    }
    match header_text(headers, "content-length") {
        Some(text) => parse_number(text.as_str()),
        None => None,
    }
}

impl Resource {
    /// A resource at that URL, saved under that name.
    pub fn new(url: &Url, filename: &str) -> (r: Resource)
        ensures
            r.url == *url,
            r.filename@ == filename@,
    {
        Resource { url: copy_url(url), filename: filename.to_owned() }
    }

    /// The length of the resource, from the headers of the reply to a HEAD request.
    pub fn content_length(&self, headers: &HeaderMap) -> (r: Option<u64>)
        ensures
            r == length_of(*headers),
    {
        content_length_in(headers)
    }
}

/// How far a download has come.
#[derive(Debug, PartialEq, Eq)]
pub enum Status {
    Fail(String),
    NotStarted,
    Skipped(String),
    Success,
}

impl Clone for Status {
    fn clone(&self) -> (r: Self)
        ensures
            r == *self,
    {
        match self {
            Status::Fail(text) => Status::Fail(text.clone()),
            Status::NotStarted => Status::NotStarted,
            Status::Skipped(text) => Status::Skipped(text.clone()),
            Status::Success => Status::Success,
        }
    }
}

/// How the download of a resource ended.
#[derive(Debug)]
pub struct Summary {
    download: Resource,
    status_code: StatusCode,
    size: u64,
    status: Status,
}

impl Clone for Summary {
    fn clone(&self) -> (r: Self)
        ensures
            r == *self,
    {
        Summary {
            download: self.download.clone(),
            status_code: self.status_code,
            size: self.size,
            status: self.status.clone(),
        }
    }
}

impl Summary {
    /// The resource that the summary is about.
    pub closed spec fn resource(self) -> Resource {
        self.download
    }

    /// The status code of the summary.
    pub closed spec fn code(self) -> StatusCode {
        self.status_code
    }

    /// The size of the summary.
    pub closed spec fn bytes(self) -> u64 {
        self.size
    }

    /// How far the download has come.
    pub closed spec fn outcome(self) -> Status {
        self.status
    }

    /// The download failed, with that message.
    pub open spec fn failed_with(self, message: Seq<char>) -> bool {
        self.outcome() matches Status::Fail(text) && text@ == message
    }

    /// Two summaries that differ at most in how far the download has come.
    pub open spec fn same_but_outcome(self, other: Summary) -> bool {
        self.resource() == other.resource() && self.code() == other.code() && self.bytes()
            == other.bytes()
    }

    /// The summary of a download that has not started.
    pub fn new(download: Resource, status_code: StatusCode, size: u64) -> (r: Self)
        ensures
            r.resource() == download,
            r.code() == status_code,
            r.bytes() == size,
            r.outcome() == Status::NotStarted,
    {
        Summary { download, status_code, size, status: Status::NotStarted }
    }

    /// The same summary, with another status.
    pub fn with_status(self, status: Status) -> (r: Self)
        ensures
            r.same_but_outcome(self),
            r.outcome() == status,
    {
        Summary { download: self.download, status_code: self.status_code, size: self.size, status }
    }

    /// The status code.
    pub fn status_code(&self) -> (r: StatusCode)
        ensures
            r == self.code(),
    {
        self.status_code
    }

    /// The size in bytes.
    pub fn size(&self) -> (r: u64)
        ensures
            r == self.bytes(),
    {
        self.size
    }

    /// The resource.
    pub fn download(&self) -> (r: &Resource)
        ensures
            *r == self.resource(),
    {
        &self.download
    }

    /// How far the download has come.
    pub fn status(&self) -> (r: &Status)
        ensures
            *r == self.outcome(),
    {
        &self.status
    }

    /// The same summary, of a download that failed with that message.
    pub fn fail(self, message: &str) -> (r: Self)
        ensures
            r.same_but_outcome(self),
            r.failed_with(message@),
    {
        self.with_status(Status::Fail(message.to_owned()))
    }
}

/// The length of a body is read back from the header that gives it as a decimal text; it
/// is not known where that header is missing or holds no number.
pub proof fn law_length_is_read_back(headers: HeaderMap, length: u64)
    ensures
        first_text(headers, "content-length"@) == Some(decimal(length as nat)) ==> length_of(
            headers,
        ) == Some(length),
        !header_fields(headers).contains_key("content-length"@) ==> length_of(headers) is None,
        length_of(headers) matches Some(n) ==> (first_text(
            headers,
            "content-length"@,
        ) matches Some(text) && number_of(text) == Some(n)),
        first_text(headers, "content-length"@) matches Some(text) ==> length_of(headers)
            == number_of(text),
{
    law_number_round_trip(length);
}

/// A summary with another status, and one of a failure, keep all but the status; a
/// failure holds its message.
pub proof fn law_summary_keeps_the_rest(one: Summary, other: Summary, message: Seq<char>)
    ensures
        one.same_but_outcome(other) <==> one.resource() == other.resource() && one.code()
            == other.code() && one.bytes() == other.bytes(),
        one.failed_with(message) ==> one.outcome() is Fail && one.outcome()->Fail_0@ == message,
{
}

} // verus!
