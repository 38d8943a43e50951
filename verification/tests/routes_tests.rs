use nwt_auth::{
    default_catcher, plan_upload, search, upload_name, Folder, Method, NwtContent, NwtEvent,
    Order, Query, TagLogic, UploadPlan,
};

fn event() -> NwtEvent {
    NwtEvent {
        id: "ab".to_string(),
        pubkey: "cd".to_string(),
        created_at: 5,
        kind: 1,
        tags: vec![vec!["p".to_string(), "q".to_string()]],
        content: NwtContent { method: Method::Get, uri: "u\"".to_string() },
        sig: "ef".to_string(),
        username: "alice".to_string(),
    }
}

#[test]
fn search_report_matches_the_format() {
    let q = Query {
        tag: vec!["cat".to_string(), "d\"og".to_string()],
        tag_logic: TagLogic::Or,
        folder: Folder::Images,
        since: 0,
        until: 1700000000,
        limit: 20,
        page: 1,
        order: Order::Desc,
    };
    let e = event();
    let expected = format!(
        "call search triggered for {} on since={} until={} limit={} page={} tag={:?} tagLogic={:?} order={:?} folder={:?} with token {:?}",
        "alice", q.since, q.until, q.limit, q.page, q.tag, q.tag_logic, q.order, q.folder, e
    );
    assert_eq!(search("alice", q, e), expected);
}

#[test]
fn search_report_literal() {
    let q = Query {
        tag: vec![],
        tag_logic: TagLogic::And,
        folder: Folder::All,
        since: 3,
        until: 4,
        limit: 99,
        page: 2,
        order: Order::Asc,
    };
    let mut e = event();
    e.tags = vec![];
    e.content.uri = "u".to_string();
    assert_eq!(
        search("bob", q, e),
        "call search triggered for bob on since=3 until=4 limit=99 page=2 tag=[] tagLogic=And order=Asc folder=All with token NwtEvent { id: \"ab\", pubkey: \"cd\", created_at: 5, kind: 1, tags: [], content: NwtContent { method: Get, uri: \"u\" }, sig: \"ef\", username: \"alice\" }"
    );
}

#[test]
fn default_catcher_page() {
    assert_eq!(
        default_catcher(404, "Not Found", "GET /nothing"),
        "error 404 Not Found for request GET /nothing"
    );
    assert_eq!(default_catcher(599, "", "POST /x"), "error 599  for request POST /x");
}

#[test]
fn upload_name_uses_the_last_extension() {
    assert_eq!(
        upload_name("abcd", "photo.JPG"),
        Some(("JPG".to_string(), "abcd.JPG".to_string()))
    );
    assert_eq!(
        upload_name("abcd", "dir/a.tar.gz"),
        Some(("gz".to_string(), "abcd.gz".to_string()))
    );
}

#[test]
fn upload_name_without_extension() {
    assert_eq!(upload_name("abcd", "noext"), None);
    assert_eq!(upload_name("abcd", ".hidden"), None);
    assert_eq!(upload_name("abcd", ""), None);
}

#[test]
fn plan_upload_saves_requested_and_typed_files() {
    let requested = vec!["x.png".to_string(), "abcd.png".to_string()];
    assert_eq!(
        plan_upload(&requested, "abcd.png", "png", "image", "png", "alice"),
        UploadPlan::Save("static/alice/image/abcd.png".to_string())
    );
}

#[test]
fn plan_upload_compares_types_without_case() {
    let requested = vec!["abcd.PNG".to_string()];
    assert_eq!(
        plan_upload(&requested, "abcd.PNG", "PNG", "IMAGE", "Png", "bob"),
        UploadPlan::Save("static/bob/image/abcd.PNG".to_string())
    );
}

#[test]
fn plan_upload_refusals() {
    let requested = vec!["abcd.png".to_string()];
    assert_eq!(plan_upload(&requested, "abcd.png", "png", "text", "plain", "alice"), UploadPlan::Refused);
    assert_eq!(plan_upload(&requested, "abcd.png", "png", "image", "jpeg", "alice"), UploadPlan::Refused);
    assert_eq!(plan_upload(&requested, "abce.png", "png", "image", "png", "alice"), UploadPlan::Refused);
    assert_eq!(plan_upload(&vec![], "abcd.png", "png", "image", "png", "alice"), UploadPlan::Refused);
}

#[test]
fn plan_upload_unknown_extension() {
    let requested = vec!["abcd.zzzq".to_string()];
    assert_eq!(
        plan_upload(&requested, "abcd.zzzq", "zzzq", "image", "png", "alice"),
        UploadPlan::UnknownType
    );
}
