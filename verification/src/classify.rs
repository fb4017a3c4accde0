//! Classification of one page node by the presence of its keys, in the
//! fixed priority order, plus the independent reply-continuation branch a
//! thread node may carry.

use vstd::prelude::*;
use crate::json::{JsonVal, get_key, get_opt, idx_opt, str_opt, deref_opt, getp, idxp, strp};
use crate::comment::{RecordModel, record_of};

verus! {

/// What a node contributes through the priority chain. A thread node may
/// additionally carry a reply continuation, which is not part of the kind.
#[derive(Clone, Copy, Debug, PartialEq, Eq, Structural)]
pub enum NodeKind {
    /// A thread wrapping a comment: contributes a record.
    ThreadComment,
    /// A bare comment at any depth: contributes a record.
    BareComment,
    /// A "load more" button: contributes a continuation token.
    ButtonContinuation,
    /// A pagination cursor: contributes a continuation token.
    EndpointContinuation,
    /// None of the known shapes: contributes nothing.
    Unrecognized,
}

/// The comment wrapped by a thread node, if the node is one.
pub open spec fn thread_comment_of(n: JsonVal) -> Option<JsonVal> {
    get_opt(get_opt(get_key(n, "commentThreadRenderer"@), "comment"@), "commentRenderer"@)
}

/// The node itself as a bare comment, if it is one.
pub open spec fn bare_comment_of(n: JsonVal) -> Option<JsonVal> {
    get_key(n, "commentRenderer"@)
}

/// The token behind a "load more" button, if the node carries one.
pub open spec fn button_token_of(n: JsonVal) -> Option<Seq<char>> {
    str_opt(
        get_opt(
            get_opt(
                get_opt(
                    get_opt(
                        get_opt(get_key(n, "continuationItemRenderer"@), "button"@),
                        "buttonRenderer"@,
                    ),
                    "command"@,
                ),
                "continuationCommand"@,
            ),
            "token"@,
        ),
    )
}

/// The token of a pagination cursor, if the node carries one.
pub open spec fn endpoint_token_of(n: JsonVal) -> Option<Seq<char>> {
    str_opt(
        get_opt(
            get_opt(
                get_opt(get_key(n, "continuationItemRenderer"@), "continuationEndpoint"@),
                "continuationCommand"@,
            ),
            "token"@,
        ),
    )
}

/// The reply continuation a thread node may carry, independently of its
/// kind. An incomplete reply structure reads as no reply branch.
pub open spec fn reply_token_of(n: JsonVal) -> Option<Seq<char>> {
    str_opt(
        get_opt(
            get_opt(
                get_opt(
                    get_opt(
                        idx_opt(
                            get_opt(
                                get_opt(
                                    get_opt(get_key(n, "commentThreadRenderer"@), "replies"@),
                                    "commentRepliesRenderer"@,
                                ),
                                "contents"@,
                            ),
                            0,
                        ),
                        "continuationItemRenderer"@,
                    ),
                    "continuationEndpoint"@,
                ),
                "continuationCommand"@,
            ),
            "token"@,
        ),
    )
}

/// The kind of a node: the first shape, in priority order, whose keys are
/// present. A pure function of key presence.
pub open spec fn kind_of(n: JsonVal) -> NodeKind {
    if thread_comment_of(n) is Some {
        NodeKind::ThreadComment
    } else if bare_comment_of(n) is Some {
        NodeKind::BareComment
    } else if button_token_of(n) is Some {
        NodeKind::ButtonContinuation
    } else if endpoint_token_of(n) is Some {
        NodeKind::EndpointContinuation
    } else {
        NodeKind::Unrecognized
    }
}

/// The comment node a record is extracted from, when the kind yields one.
pub open spec fn comment_source_of(n: JsonVal) -> Option<JsonVal> {
    match kind_of(n) {
        NodeKind::ThreadComment => thread_comment_of(n),
        NodeKind::BareComment => bare_comment_of(n),
        _ => None,
    }
}

/// The records one node contributes: one for a comment-bearing node,
/// none otherwise.
pub open spec fn node_records(n: JsonVal) -> Seq<RecordModel> {
    match comment_source_of(n) {
        Some(c) => seq![record_of(c)],
        None => Seq::empty(),
    }
}

/// The token the node's kind contributes, when it is a continuation.
pub open spec fn class_token_of(n: JsonVal) -> Option<Seq<char>> {
    match kind_of(n) {
        NodeKind::ButtonContinuation => button_token_of(n),
        NodeKind::EndpointContinuation => endpoint_token_of(n),
        _ => None,
    }
}

/// Every continuation token one node contributes, in the order the walk
/// follows them: the kind's token first, then the reply continuation.
pub open spec fn node_tokens(n: JsonVal) -> Seq<Seq<char>> {
    (match class_token_of(n) {
        Some(t) => seq![t],
        None => Seq::empty(),
    }) + (match reply_token_of(n) {
        Some(t) => seq![t],
        None => Seq::empty(),
    })
}

/// Law: classification is a function of which classifying key paths are
/// present on the node, and of nothing else about its contents: two
/// nodes agreeing on presence get the same kind and contribute the same
/// number of records and of tokens.
pub proof fn lemma_classification_by_presence(a: JsonVal, b: JsonVal)
    requires
        thread_comment_of(a) is Some <==> thread_comment_of(b) is Some,
        bare_comment_of(a) is Some <==> bare_comment_of(b) is Some,
        button_token_of(a) is Some <==> button_token_of(b) is Some,
        endpoint_token_of(a) is Some <==> endpoint_token_of(b) is Some,
        reply_token_of(a) is Some <==> reply_token_of(b) is Some,
    ensures
        kind_of(a) == kind_of(b),
        node_records(a).len() == node_records(b).len(),
        node_tokens(a).len() == node_tokens(b).len(),
{
}

/// The comment wrapped by a thread node.
pub fn thread_comment<'a>(n: &'a JsonVal) -> (r: Option<&'a JsonVal>)
    ensures
        deref_opt(r) == thread_comment_of(*n),
{
    getp(getp(getp(Some(n), "commentThreadRenderer"), "comment"), "commentRenderer")
}

/// The node itself as a bare comment.
pub fn bare_comment<'a>(n: &'a JsonVal) -> (r: Option<&'a JsonVal>)
    ensures
        deref_opt(r) == bare_comment_of(*n),
{
    n.get("commentRenderer")
}

/// The token behind a "load more" button.
pub fn button_token<'a>(n: &'a JsonVal) -> (r: Option<&'a String>)
    ensures
        match r {
            Some(t) => button_token_of(*n) == Some(t@),
            None => button_token_of(*n) is None,
        },
{
    let p = getp(Some(n), "continuationItemRenderer");
    let p = getp(p, "button");
    let p = getp(p, "buttonRenderer");
    let p = getp(p, "command");
    let p = getp(p, "continuationCommand");
    strp(getp(p, "token"))
}

/// The token of a pagination cursor.
pub fn endpoint_token<'a>(n: &'a JsonVal) -> (r: Option<&'a String>)
    ensures
        match r {
            Some(t) => endpoint_token_of(*n) == Some(t@),
            None => endpoint_token_of(*n) is None,
        },
{
    let p = getp(Some(n), "continuationItemRenderer");
    let p = getp(p, "continuationEndpoint");
    let p = getp(p, "continuationCommand");
    strp(getp(p, "token"))
}

/// The reply continuation a thread node may carry.
pub fn reply_token<'a>(n: &'a JsonVal) -> (r: Option<&'a String>)
    ensures
        match r {
            Some(t) => reply_token_of(*n) == Some(t@),
            None => reply_token_of(*n) is None,
        },
{
    let p = getp(Some(n), "commentThreadRenderer");
    let p = getp(p, "replies");
    let p = getp(p, "commentRepliesRenderer");
    let p = getp(p, "contents");
    let p = idxp(p, 0);
    let p = getp(p, "continuationItemRenderer");
    let p = getp(p, "continuationEndpoint");
    let p = getp(p, "continuationCommand");
    strp(getp(p, "token"))
}

/// Classifies a node by the presence of its keys, in priority order.
pub fn classify(n: &JsonVal) -> (k: NodeKind)
    ensures
        k == kind_of(*n),
{
    if thread_comment(n).is_some() {
        NodeKind::ThreadComment
    } else if bare_comment(n).is_some() {
        NodeKind::BareComment
    } else if button_token(n).is_some() {
        NodeKind::ButtonContinuation
    } else if endpoint_token(n).is_some() {
        NodeKind::EndpointContinuation
    } else {
        NodeKind::Unrecognized
    }
}

} // verus!
