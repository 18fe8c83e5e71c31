use ropp::credential::{check_credential, CredentialCheck, ROBLOSECURITY_HEADER};
use ropp::decimal::decimal_string;
use ropp::publish::{confirm_upload, upload_request};
use ropp::structures::RoppError;

#[test]
fn decimal_notation() {
    assert_eq!(decimal_string(0), "0");
    assert_eq!(decimal_string(7), "7");
    assert_eq!(decimal_string(10), "10");
    assert_eq!(decimal_string(1234567890), "1234567890");
    assert_eq!(decimal_string(u64::MAX), "18446744073709551615");
    for n in [0u64, 9, 10, 99, 100, 1818, 4_294_967_296, u64::MAX - 1] {
        assert_eq!(decimal_string(n), n.to_string());
    }
}

#[test]
fn marker_is_the_warning_header() {
    assert_eq!(ROBLOSECURITY_HEADER, "_|WARNING:-DO-NOT-SHARE-THIS.--");
}

#[test]
fn credential_with_one_marker_is_accepted() {
    let input = format!("{}Sharing-this-will-allow-someone-to-log-in|_ABCDEF", ROBLOSECURITY_HEADER);
    assert_eq!(check_credential(&input), CredentialCheck::Accepted);
    assert_eq!(check_credential(ROBLOSECURITY_HEADER), CredentialCheck::Accepted);
    let inside = format!("abc{}def", ROBLOSECURITY_HEADER);
    assert_eq!(check_credential(&inside), CredentialCheck::Accepted);
}

#[test]
fn credential_without_marker_is_rejected() {
    assert_eq!(check_credential(""), CredentialCheck::MissingHeader);
    assert_eq!(check_credential("ABCDEF"), CredentialCheck::MissingHeader);
    // All of the marker but its last character.
    assert_eq!(
        check_credential("_|WARNING:-DO-NOT-SHARE-THIS.-"),
        CredentialCheck::MissingHeader
    );
    assert_eq!(
        check_credential("_|warning:-do-not-share-this.--"),
        CredentialCheck::MissingHeader
    );
}

#[test]
fn credential_with_repeated_marker_is_rejected() {
    let twice = format!("{}{}ABC", ROBLOSECURITY_HEADER, ROBLOSECURITY_HEADER);
    assert_eq!(check_credential(&twice), CredentialCheck::HeaderRepeated);
    let apart = format!("{}ABC{}ABC", ROBLOSECURITY_HEADER, ROBLOSECURITY_HEADER);
    assert_eq!(check_credential(&apart), CredentialCheck::HeaderRepeated);
    let thrice = format!(
        "x{}y{}z{}",
        ROBLOSECURITY_HEADER, ROBLOSECURITY_HEADER, ROBLOSECURITY_HEADER
    );
    assert_eq!(check_credential(&thrice), CredentialCheck::HeaderRepeated);
}

#[test]
fn credential_check_agrees_with_counting_matches() {
    let samples = [
        String::new(),
        "_|".to_string(),
        format!("é{}ü", ROBLOSECURITY_HEADER),
        format!("_|WARNING{}", ROBLOSECURITY_HEADER),
        format!("{}--{}", ROBLOSECURITY_HEADER, ROBLOSECURITY_HEADER),
        format!("_|WARNING:-DO-NOT-{}", ROBLOSECURITY_HEADER),
    ];
    for sample in samples.iter() {
        let expected = match sample.matches(ROBLOSECURITY_HEADER).count() {
            0 => CredentialCheck::MissingHeader,
            1 => CredentialCheck::Accepted,
            _ => CredentialCheck::HeaderRepeated,
        };
        assert_eq!(check_credential(sample), expected);
    }
}

#[test]
fn upload_request_for_a_place() {
    let request = upload_request(1818, "<roblox></roblox>".to_string(), "_|WARNING:-DO-NOT-SHARE-THIS.--abc");
    assert_eq!(
        request.url,
        "https://data.roblox.com/Data/Upload.ashx?assetid=1818&type=Place&name=&description="
    );
    assert_eq!(request.body, "<roblox></roblox>");
    assert_eq!(request.accept, "application/json");
    assert_eq!(request.content_type, "application/xml");
    assert_eq!(
        request.cookie,
        ".ROBLOSECURITY=_|WARNING:-DO-NOT-SHARE-THIS.--abc"
    );
    assert_eq!(request.user_agent, "Roblox/WinInet");

    let other = upload_request(0, String::new(), "");
    assert_eq!(
        other.url,
        "https://data.roblox.com/Data/Upload.ashx?assetid=0&type=Place&name=&description="
    );
    assert_eq!(other.body, "");
    assert_eq!(other.cookie, ".ROBLOSECURITY=");
}

#[test]
fn upload_is_confirmed_by_the_number_of_the_place() {
    assert_eq!(confirm_upload(1818, 200, "1818"), Ok(()));
    assert_eq!(confirm_upload(0, 200, "0"), Ok(()));
    // Only the body decides, not the status.
    assert_eq!(confirm_upload(1818, 500, "1818"), Ok(()));
}

#[test]
fn upload_is_not_confirmed_by_anything_else() {
    assert_eq!(
        confirm_upload(1818, 403, "<html>Forbidden</html>"),
        Err(RoppError::PublishError(403))
    );
    assert_eq!(
        confirm_upload(1818, 200, "1819"),
        Err(RoppError::PublishError(200))
    );
    assert_eq!(
        confirm_upload(1818, 200, "1818\n"),
        Err(RoppError::PublishError(200))
    );
    assert_eq!(
        confirm_upload(1818, 200, "01818"),
        Err(RoppError::PublishError(200))
    );
    assert_eq!(confirm_upload(1818, 302, ""), Err(RoppError::PublishError(302)));
}
