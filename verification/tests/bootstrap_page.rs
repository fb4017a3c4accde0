use ucomment::bootstrap::resolve_token;
use ucomment::CrawlError;

fn page_with_payload(payload: &str) -> String {
    format!(
        "<html><head><script>var ytInitialData ={payload};</script></head><body></body></html>"
    )
}

fn submenu_panel(token: &str) -> String {
    format!(
        r#"{{"engagementPanelSectionListRenderer":{{"header":{{"engagementPanelTitleHeaderRenderer":{{"menu":{{"sortFilterSubMenuRenderer":{{"subMenuItems":[{{"serviceEndpoint":{{"continuationCommand":{{"token":"{token}"}}}}}}]}}}}}}}}}}}}"#
    )
}

fn content_panel(token: &str) -> String {
    format!(
        r#"{{"engagementPanelSectionListRenderer":{{"content":{{"sectionListRenderer":{{"contents":[{{"itemSectionRenderer":{{"contents":{{"continuationItemRenderer":{{"continuationEndpoint":{{"continuationCommand":{{"token":"{token}"}}}}}}}}}}}}]}}}}}}}}"#
    )
}

#[test]
fn token_from_submenu_location() {
    let html = page_with_payload(&format!(r#"{{"engagementPanels":[{}]}}"#, submenu_panel("T0")));
    assert_eq!(resolve_token(&html).unwrap(), "T0");
}

#[test]
fn token_from_content_location() {
    let html = page_with_payload(&format!(r#"{{"engagementPanels":[{}]}}"#, content_panel("C7")));
    assert_eq!(resolve_token(&html).unwrap(), "C7");
}

#[test]
fn submenu_location_tried_first() {
    let both = format!(
        r#"{{"engagementPanels":[{{"engagementPanelSectionListRenderer":{{"header":{{"engagementPanelTitleHeaderRenderer":{{"menu":{{"sortFilterSubMenuRenderer":{{"subMenuItems":[{{"serviceEndpoint":{{"continuationCommand":{{"token":"SUB"}}}}}}]}}}}}}}},"content":{{"sectionListRenderer":{{"contents":[{{"itemSectionRenderer":{{"contents":{{"continuationItemRenderer":{{"continuationEndpoint":{{"continuationCommand":{{"token":"CONT"}}}}}}}}}}}}]}}}}}}}}]}}"#
    );
    let html = page_with_payload(&both);
    assert_eq!(resolve_token(&html).unwrap(), "SUB");
}

#[test]
fn empty_submenu_token_falls_through() {
    let both = format!(
        r#"{{"engagementPanels":[{{"engagementPanelSectionListRenderer":{{"header":{{"engagementPanelTitleHeaderRenderer":{{"menu":{{"sortFilterSubMenuRenderer":{{"subMenuItems":[{{"serviceEndpoint":{{"continuationCommand":{{"token":""}}}}}}]}}}}}}}},"content":{{"sectionListRenderer":{{"contents":[{{"itemSectionRenderer":{{"contents":{{"continuationItemRenderer":{{"continuationEndpoint":{{"continuationCommand":{{"token":"CONT"}}}}}}}}}}}}]}}}}}}}}]}}"#
    );
    let html = page_with_payload(&both);
    assert_eq!(resolve_token(&html).unwrap(), "CONT");
}

#[test]
fn first_yielding_panel_wins() {
    let panels = format!(
        r#"{{"engagementPanels":[{{"engagementPanelSectionListRenderer":{{}}}},{},{}]}}"#,
        submenu_panel("FIRST"),
        submenu_panel("SECOND")
    );
    let html = page_with_payload(&panels);
    assert_eq!(resolve_token(&html).unwrap(), "FIRST");
}

#[test]
fn no_marked_script_is_token_not_found() {
    let html = "<html><head><script>var somethingElse = 1;</script></head><body></body></html>";
    assert_eq!(resolve_token(html).unwrap_err(), CrawlError::TokenNotFound);
}

#[test]
fn no_script_at_all_is_token_not_found() {
    let html = "<html><body><p>plain page</p></body></html>";
    assert_eq!(resolve_token(html).unwrap_err(), CrawlError::TokenNotFound);
}

#[test]
fn no_token_in_either_location_is_token_not_found() {
    let html = page_with_payload(r#"{"engagementPanels":[{"engagementPanelSectionListRenderer":{}}]}"#);
    assert_eq!(resolve_token(&html).unwrap_err(), CrawlError::TokenNotFound);
}

#[test]
fn missing_panels_is_token_not_found() {
    let html = page_with_payload(r#"{"somethingElse":true}"#);
    assert_eq!(resolve_token(&html).unwrap_err(), CrawlError::TokenNotFound);
}

#[test]
fn unparsable_payload_is_token_not_found() {
    let html = "<html><script>ytInitialData but no json here</script></html>";
    assert_eq!(resolve_token(html).unwrap_err(), CrawlError::TokenNotFound);
}

#[test]
fn error_description_is_nonempty() {
    assert!(!CrawlError::TokenNotFound.describe().is_empty());
    assert!(!CrawlError::FetchFailed.describe().is_empty());
}
