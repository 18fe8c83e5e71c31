//! Publishing: the upload request for a place, and the check of what the
//! server answers.

use crate::decimal::{decimal, decimal_string, lemma_decimal_injective};
use crate::structures::{PlaceId, RoppError, RoppErrorView};
use vstd::prelude::*;
use vstd::string::*;

verus! {

/// The one request that publishes a place. It is sent by `POST`.
#[derive(Debug, PartialEq, Eq)]
pub struct UploadRequest {
    /// Where the request goes.
    pub url: String,
    /// The content of the place.
    pub body: String,
    /// The value of the `Accept` header.
    pub accept: String,
    /// The value of the `Content-Type` header.
    pub content_type: String,
    /// The value of the `Cookie` header, which carries the credential.
    pub cookie: String,
    /// The value of the `User-Agent` header.
    pub user_agent: String,
}

/// An `UploadRequest` with its texts as sequences of characters.
pub struct UploadRequestView {
    pub url: Seq<char>,
    pub body: Seq<char>,
    pub accept: Seq<char>,
    pub content_type: Seq<char>,
    pub cookie: Seq<char>,
    pub user_agent: Seq<char>,
}

impl View for UploadRequest {
    type V = UploadRequestView;

    open spec fn view(&self) -> UploadRequestView {
        UploadRequestView {
            url: self.url@,
            body: self.body@,
            accept: self.accept@,
            content_type: self.content_type@,
            cookie: self.cookie@,
            user_agent: self.user_agent@,
        }
    }
}

/// The address that takes the upload for a place.
pub open spec fn upload_url(place_id: PlaceId) -> Seq<char> {
    "https://data.roblox.com/Data/Upload.ashx?assetid="@ + decimal(place_id as nat)
        + "&type=Place&name=&description="@
}

/// The cookie that carries a credential.
pub open spec fn session_cookie(roblosecurity: Seq<char>) -> Seq<char> {
    ".ROBLOSECURITY="@ + roblosecurity
}

/// The request that publishes `place_content` to the place `place_id` with
/// the credential `roblosecurity`.
pub open spec fn upload_request_of(
    place_id: PlaceId,
    place_content: Seq<char>,
    roblosecurity: Seq<char>,
) -> UploadRequestView {
    UploadRequestView {
        url: upload_url(place_id),
        body: place_content,
        accept: "application/json"@,
        content_type: "application/xml"@,
        cookie: session_cookie(roblosecurity),
        user_agent: "Roblox/WinInet"@,
    }
}

/// What an answer means: the upload is confirmed where the body of the
/// answer is the number of the place in decimal notation, and nothing else;
/// any other answer is a failure that carries the status of the answer.
pub open spec fn upload_verdict(place_id: PlaceId, status: u16, body: Seq<char>) -> Result<
    (),
    RoppErrorView,
> {
    if body == decimal(place_id as nat) {
        Ok(())
    } else {
        Err(RoppErrorView::PublishError(status))
    }
}

/// An answer that confirms the upload to one place confirms it for no other
/// place.
pub proof fn lemma_confirms_one_place(place_id: PlaceId, other: PlaceId, status: u16, body: Seq<char>)
    requires
        upload_verdict(place_id, status, body) is Ok,
        upload_verdict(other, status, body) is Ok,
    ensures
        place_id == other,
{
    lemma_decimal_injective(place_id as nat, other as nat);
}

/// Makes the request that publishes a place.
pub fn upload_request(place_id: PlaceId, place_content: String, roblosecurity: &str) -> (request:
    UploadRequest)
    ensures
        request@ == upload_request_of(place_id, place_content@, roblosecurity@),
{
    let mut url = String::from_str("https://data.roblox.com/Data/Upload.ashx?assetid=");
    let number = decimal_string(place_id);
    url.append(number.as_str());
    url.append("&type=Place&name=&description=");
    let mut cookie = String::from_str(".ROBLOSECURITY=");
    cookie.append(roblosecurity);
    UploadRequest {
        url,
        body: place_content,
        accept: String::from_str("application/json"),
        content_type: String::from_str("application/xml"),
        cookie,
        user_agent: String::from_str("Roblox/WinInet"),
    }
}

/// Checks the answer to an upload.
pub fn confirm_upload(place_id: PlaceId, status: u16, body: &str) -> (result: Result<
    (),
    RoppError,
>)
    ensures
        crate::structures::outcome(result) == upload_verdict(place_id, status, body@),
{
    let expected = decimal_string(place_id);
    let received = String::from_str(body);
    if received == expected {
        Ok(())
    } else {
        Err(RoppError::PublishError(status))
    }
}

} // verus!
