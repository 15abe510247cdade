//! Announcements as the content provider lists them.

use vstd::prelude::*;
use crate::librus::client::{LibrusClient, LibrusError};

verus! {

/// Where the provider lists the current announcements.
pub const NOTICES_URL: &'static str = "https://api.librus.pl/3.0/SchoolNotices/";

/// The provider's answer to a request for the current announcements.
#[derive(Clone, Debug, PartialEq, Eq)]
pub struct SchoolNoticeResponse {
    pub notices: Vec<SchoolNotice>,
}

/// One announcement. Its identity is `id`.
#[derive(Clone, Debug, PartialEq, Eq)]
pub struct SchoolNotice {
    pub id: String,
    pub content: String,
    pub title: String,
    pub created_at: String,
}

/// An announcement as plain text.
pub struct NoticeText {
    pub id: Seq<char>,
    pub content: Seq<char>,
    pub title: Seq<char>,
    pub created_at: Seq<char>,
}

impl View for SchoolNotice {
    type V = NoticeText;

    open spec fn view(&self) -> NoticeText {
        NoticeText {
            id: self.id@,
            content: self.content@,
            title: self.title@,
            created_at: self.created_at@,
        }
    }
}

/// The views of a list of announcements.
pub open spec fn notice_texts(notices: Seq<SchoolNotice>) -> Seq<NoticeText> {
    notices.map_values(|n: SchoolNotice| n@)
}

impl<'a> LibrusClient<'a> {
    /// The announcements that the provider's answer holds, or the error
    /// that came in place of an answer.
    pub fn fetch_notices(&self, answer: Result<SchoolNoticeResponse, LibrusError>) -> (out: Result<
        Vec<SchoolNotice>,
        LibrusError,
    >)
        ensures
            match answer {
                Ok(response) => out == Ok::<Vec<SchoolNotice>, LibrusError>(response.notices),
                Err(e) => out == Err::<Vec<SchoolNotice>, LibrusError>(e),
            },
    {
        match answer {
            Ok(response) => Ok(response.into_notices()),
            Err(e) => Err(e),
        }
    }
}

impl SchoolNoticeResponse {
    /// The announcements of the answer, in the order in which the provider
    /// listed them.
    pub fn into_notices(self) -> (out: Vec<SchoolNotice>)
        ensures
            out == self.notices,
    {
        self.notices
    }
}

} // verus!
