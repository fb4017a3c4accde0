use ucomment::classify::{
    bare_comment, button_token, classify, endpoint_token, reply_token, thread_comment, NodeKind,
};
use ucomment::json::JsonVal;

fn obj(fields: Vec<(&str, JsonVal)>) -> JsonVal {
    JsonVal::Obj(fields.into_iter().map(|(k, v)| (k.to_string(), v)).collect())
}

fn jstr(x: &str) -> JsonVal {
    JsonVal::Str(x.to_string())
}

fn thread_node(token: Option<&str>) -> JsonVal {
    let mut inner = vec![(
        "comment",
        obj(vec![("commentRenderer", obj(vec![]))]),
    )];
    if let Some(t) = token {
        inner.push((
            "replies",
            obj(vec![(
                "commentRepliesRenderer",
                obj(vec![(
                    "contents",
                    JsonVal::Arr(vec![obj(vec![(
                        "continuationItemRenderer",
                        obj(vec![(
                            "continuationEndpoint",
                            obj(vec![("continuationCommand", obj(vec![("token", jstr(t))]))]),
                        )]),
                    )])]),
                )]),
            )]),
        ));
    }
    obj(vec![("commentThreadRenderer", obj(inner))])
}

fn button_node(token: &str) -> JsonVal {
    obj(vec![(
        "continuationItemRenderer",
        obj(vec![(
            "button",
            obj(vec![(
                "buttonRenderer",
                obj(vec![(
                    "command",
                    obj(vec![("continuationCommand", obj(vec![("token", jstr(token))]))]),
                )]),
            )]),
        )]),
    )])
}

fn endpoint_node(token: &str) -> JsonVal {
    obj(vec![(
        "continuationItemRenderer",
        obj(vec![(
            "continuationEndpoint",
            obj(vec![("continuationCommand", obj(vec![("token", jstr(token))]))]),
        )]),
    )])
}

#[test]
fn classification_is_idempotent() {
    let nodes = vec![
        thread_node(None),
        obj(vec![("commentRenderer", obj(vec![]))]),
        button_node("B"),
        endpoint_node("E"),
        obj(vec![("somethingElse", jstr("x"))]),
    ];
    for node in &nodes {
        let first = classify(node);
        let second = classify(node);
        assert_eq!(first, second);
    }
}

#[test]
fn classification_by_key_presence() {
    assert_eq!(classify(&thread_node(None)), NodeKind::ThreadComment);
    assert_eq!(
        classify(&obj(vec![("commentRenderer", obj(vec![]))])),
        NodeKind::BareComment
    );
    assert_eq!(classify(&button_node("B")), NodeKind::ButtonContinuation);
    assert_eq!(classify(&endpoint_node("E")), NodeKind::EndpointContinuation);
    assert_eq!(classify(&obj(vec![])), NodeKind::Unrecognized);
    assert_eq!(classify(&jstr("not an object")), NodeKind::Unrecognized);
}

#[test]
fn thread_wins_over_bare_comment() {
    let both = obj(vec![
        (
            "commentThreadRenderer",
            obj(vec![("comment", obj(vec![("commentRenderer", obj(vec![]))]))]),
        ),
        ("commentRenderer", obj(vec![])),
    ]);
    assert_eq!(classify(&both), NodeKind::ThreadComment);
    assert!(thread_comment(&both).is_some());
    assert!(bare_comment(&both).is_some());
}

#[test]
fn continuation_tokens_read_back() {
    assert_eq!(button_token(&button_node("B1")).unwrap(), "B1");
    assert_eq!(endpoint_token(&endpoint_node("E1")).unwrap(), "E1");
    assert!(button_token(&endpoint_node("E1")).is_none());
    assert!(endpoint_token(&button_node("B1")).is_none());
}

#[test]
fn reply_token_read_back() {
    assert_eq!(reply_token(&thread_node(Some("R1"))).unwrap(), "R1");
    assert!(reply_token(&thread_node(None)).is_none());
}

#[test]
fn incomplete_reply_structure_reads_as_absent() {
    // replies present, but with no token underneath: the branch is skipped,
    // the node still classifies as a thread comment.
    let node = obj(vec![(
        "commentThreadRenderer",
        obj(vec![
            ("comment", obj(vec![("commentRenderer", obj(vec![]))])),
            ("replies", obj(vec![("commentRepliesRenderer", obj(vec![]))])),
        ]),
    )]);
    assert!(reply_token(&node).is_none());
    assert_eq!(classify(&node), NodeKind::ThreadComment);
}
