use mozlz4::group_tab::GroupTabInfo;

fn info(
    name: Option<&str>,
    temporary: Option<bool>,
    internal_id: Option<&str>,
    url_arguments: Option<&str>,
) -> GroupTabInfo {
    GroupTabInfo {
        name_url_encoded: name.map(str::to_string),
        temporary,
        internal_id: internal_id.map(str::to_string),
        url_arguments: url_arguments.map(str::to_string),
    }
}

#[test]
fn legacy_group_url() {
    let parsed =
        GroupTabInfo::from_url("about:treestyletab-group?title=My%20Group&temporary=TRUE").unwrap();
    assert_eq!(
        parsed,
        info(
            Some("My%20Group"),
            Some(true),
            None,
            Some("?title=My%20Group&temporary=TRUE")
        )
    );
}

#[test]
fn extension_group_url() {
    let parsed = GroupTabInfo::from_url(
        "moz-extension://abc-123/resources/group-tab.html?temporary=false&title=X&other=1",
    )
    .unwrap();
    assert_eq!(
        parsed,
        info(
            Some("X"),
            Some(false),
            Some("abc-123"),
            Some("?temporary=false&title=X&other=1")
        )
    );
}

#[test]
fn unreadable_flag_is_ignored() {
    let parsed = GroupTabInfo::from_url("about:treestyletab-group?temporary=maybe&title").unwrap();
    assert_eq!(parsed.temporary, None);
    assert_eq!(parsed.name_url_encoded, None);
}

#[test]
fn sidebery_group_url() {
    let parsed = GroupTabInfo::from_url("moz-extension://id/sidebery/group.html#xyz").unwrap();
    assert_eq!(parsed, info(Some("#xyz"), None, Some("id"), Some("#xyz")));
    let parsed = GroupTabInfo::from_url("moz-extension://id/sidebery/group.html?x").unwrap();
    assert_eq!(parsed, info(Some(""), None, Some("id"), Some("")));
}

#[test]
fn other_urls_are_not_group_tabs() {
    assert_eq!(GroupTabInfo::from_url("https://example.com"), None);
    assert_eq!(GroupTabInfo::from_url("moz-extension://no-slash"), None);
    assert_eq!(GroupTabInfo::from_url("moz-extension://id/other.html"), None);
    assert_eq!(GroupTabInfo::from_url(""), None);
}

#[test]
fn group_urls_are_written() {
    assert_eq!(
        info(Some("A"), Some(false), None, None).to_url(),
        "about:treestyletab-group?title=A&temporary=false"
    );
    assert_eq!(
        info(None, Some(true), Some("id"), None).to_url(),
        "moz-extension://id/resources/group-tab.html?temporary=true"
    );
    assert_eq!(
        info(Some("A"), Some(true), Some("id"), Some("?title=B")).to_url(),
        "moz-extension://id/resources/group-tab.html?title=B"
    );
    assert_eq!(GroupTabInfo::default().to_url(), "about:treestyletab-group");
}

#[test]
fn written_url_reads_back() {
    let written = info(Some("Tabs"), Some(true), Some("ext"), None);
    let parsed = GroupTabInfo::from_url(&written.to_url()).unwrap();
    assert_eq!(parsed.name_url_encoded, written.name_url_encoded);
    assert_eq!(parsed.temporary, written.temporary);
    assert_eq!(parsed.internal_id, written.internal_id);
}
