//! The traversal core: a worklist of continuation tokens, processed one
//! page at a time. Following a token is the caller's job (it is a network
//! round trip); this module decides everything else — which items a page
//! response holds, what each node contributes, and in what order the
//! discovered tokens are followed — and accounts for every token so that
//! each discovery is followed exactly once.

use vstd::prelude::*;
use crate::json::{JsonVal, get_key, get_opt, idx_opt, arr_opt, getp, idxp, arrp, json_of,
    parse_document};
use crate::CrawlError;
use crate::classify::{node_records, node_tokens, thread_comment, bare_comment, button_token,
    endpoint_token, reply_token};
use crate::comment::{CommentRecord, RecordModel, extract_comment};

verus! {

broadcast use {
    vstd::seq_lib::group_to_multiset_ensures,
    vstd::multiset::group_multiset_axioms,
    vstd::multiset::group_multiset_properties,
};

/// The item list under the primary ("append items") response shape.
pub open spec fn primary_items_of(v: JsonVal) -> Option<JsonVal> {
    get_opt(
        get_opt(
            idx_opt(get_key(v, "onResponseReceivedEndpoints"@), 0),
            "appendContinuationItemsAction"@,
        ),
        "continuationItems"@,
    )
}

/// The item list under the fallback ("reload items") response shape.
pub open spec fn fallback_items_of(v: JsonVal) -> Option<JsonVal> {
    get_opt(
        get_opt(
            idx_opt(get_key(v, "onResponseReceivedEndpoints"@), 1),
            "reloadContinuationItemsCommand"@,
        ),
        "continuationItems"@,
    )
}

/// The item list a page response exposes: the primary shape when present,
/// the fallback shape otherwise.
pub open spec fn item_list_of(v: JsonVal) -> Option<JsonVal> {
    match primary_items_of(v) {
        Some(x) => Some(x),
        None => fallback_items_of(v),
    }
}

/// The nodes of a page response; a missing or non-array item list reads
/// as an empty page, never as an error.
pub open spec fn page_items(v: JsonVal) -> Seq<JsonVal> {
    match arr_opt(item_list_of(v)) {
        Some(items) => items,
        None => Seq::empty(),
    }
}

/// The records the nodes of one page contribute, in list order.
pub open spec fn records_of_items(items: Seq<JsonVal>) -> Seq<RecordModel>
    decreases items.len(),
{
    if items.len() == 0 {
        Seq::empty()
    } else {
        node_records(items[0]) + records_of_items(items.drop_first())
    }
}

/// The continuation tokens the nodes of one page contribute, in the order
/// the walk discovers them.
pub open spec fn tokens_of_items(items: Seq<JsonVal>) -> Seq<Seq<char>>
    decreases items.len(),
{
    if items.len() == 0 {
        Seq::empty()
    } else {
        node_tokens(items[0]) + tokens_of_items(items.drop_first())
    }
}

/// Law: a page exposing only the fallback item list is processed exactly
/// as one exposing the same list through the primary shape.
pub proof fn lemma_fallback_shape(a: JsonVal, b: JsonVal)
    requires
        primary_items_of(a) is Some,
        primary_items_of(b) is None,
        fallback_items_of(b) == primary_items_of(a),
    ensures
        page_items(a) == page_items(b),
{
}

/// Saturating addition of a count of new records onto a running total.
pub open spec fn sat_add_u64(a: u64, n: nat) -> u64 {
    if a + n <= u64::MAX {
        (a + n) as u64
    } else {
        u64::MAX
    }
}

proof fn lemma_records_snoc(items: Seq<JsonVal>, x: JsonVal)
    ensures
        records_of_items(items.push(x)) == records_of_items(items) + node_records(x),
    decreases items.len(),
{
    if items.len() == 0 {
        assert(items.push(x).drop_first() =~= Seq::<JsonVal>::empty());
        assert(records_of_items(items.push(x).drop_first()) =~= Seq::<RecordModel>::empty());
        assert(records_of_items(items.push(x)) =~= records_of_items(items) + node_records(x));
    } else {
        lemma_records_snoc(items.drop_first(), x);
        assert(items.push(x).drop_first() =~= items.drop_first().push(x));
        assert(items.push(x)[0] == items[0]);
        assert(node_records(items[0]) + (records_of_items(items.drop_first()) + node_records(x))
            =~= (node_records(items[0]) + records_of_items(items.drop_first())) + node_records(x));
        assert(records_of_items(items.push(x)) =~= records_of_items(items) + node_records(x));
    }
}

proof fn lemma_tokens_snoc(items: Seq<JsonVal>, x: JsonVal)
    ensures
        tokens_of_items(items.push(x)) == tokens_of_items(items) + node_tokens(x),
    decreases items.len(),
{
    if items.len() == 0 {
        assert(items.push(x).drop_first() =~= Seq::<JsonVal>::empty());
        assert(tokens_of_items(items.push(x).drop_first()) =~= Seq::<Seq<char>>::empty());
        assert(tokens_of_items(items.push(x)) =~= tokens_of_items(items) + node_tokens(x));
    } else {
        lemma_tokens_snoc(items.drop_first(), x);
        assert(items.push(x).drop_first() =~= items.drop_first().push(x));
        assert(items.push(x)[0] == items[0]);
        assert(node_tokens(items[0]) + (tokens_of_items(items.drop_first()) + node_tokens(x))
            =~= (node_tokens(items[0]) + tokens_of_items(items.drop_first())) + node_tokens(x));
        assert(tokens_of_items(items.push(x)) =~= tokens_of_items(items) + node_tokens(x));
    }
}

/// The state of one crawl: the tokens still to follow, the number of
/// records emitted, and — as ghost history — every token discovered and
/// every token already handed out for fetching.
pub struct Walker {
    pending: Vec<String>,
    count: u64,
    discovered: Ghost<Seq<Seq<char>>>,
    followed: Ghost<Seq<Seq<char>>>,
}

impl Walker {
    /// The tokens waiting to be followed, last one next.
    pub closed spec fn pending_tokens(self) -> Seq<Seq<char>> {
        self.pending.deep_view()
    }

    /// Every token ever discovered by this walk, in discovery order.
    pub closed spec fn discovered_tokens(self) -> Seq<Seq<char>> {
        self.discovered@
    }

    /// Every token already handed out for fetching, in fetch order.
    pub closed spec fn followed_tokens(self) -> Seq<Seq<char>> {
        self.followed@
    }

    /// The number of records emitted so far.
    pub closed spec fn emitted_count(self) -> u64 {
        self.count
    }

    /// Token accounting: what was followed and what is pending together
    /// make up exactly what was discovered.
    pub open spec fn wf(self) -> bool {
        self.followed_tokens().to_multiset().add(self.pending_tokens().to_multiset())
            == self.discovered_tokens().to_multiset()
    }

    /// Starts a walk from the bootstrap token.
    pub fn new(start: String) -> (w: Walker)
        ensures
            w.wf(),
            w.pending_tokens() == seq![start@],
            w.discovered_tokens() == seq![start@],
            w.followed_tokens() == Seq::<Seq<char>>::empty(),
            w.emitted_count() == 0,
    {
        let ghost s0 = start@;
        let ghost d0: Seq<Seq<char>> = seq![s0];
        let ghost f0: Seq<Seq<char>> = Seq::empty();
        let mut pending: Vec<String> = Vec::new();
        pending.push(start);
        let w = Walker { pending, count: 0, discovered: Ghost(d0), followed: Ghost(f0) };
        proof {
            assert(w.pending_tokens() =~= seq![s0]);
            assert(Seq::<Seq<char>>::empty().to_multiset().add(seq![s0].to_multiset()) =~= seq![
                s0,
            ].to_multiset());
        }
        w
    }

    /// The number of records emitted so far.
    pub fn count(&self) -> (c: u64)
        ensures
            c == self.emitted_count(),
    {
        self.count
    }

    /// Hands out the next token to follow and records it as followed:
    /// the tokens of the page processed last come first, in their
    /// discovery order, which makes the walk depth-first. Yields nothing
    /// when the walk is complete.
    pub fn next_token(&mut self) -> (r: Option<String>)
        requires
            old(self).wf(),
        ensures
            final(self).wf(),
            final(self).emitted_count() == old(self).emitted_count(),
            final(self).discovered_tokens() == old(self).discovered_tokens(),
            match r {
                Some(t) => old(self).pending_tokens().len() > 0 && t@ == old(
                    self,
                ).pending_tokens().last() && final(self).pending_tokens() == old(
                    self,
                ).pending_tokens().drop_last() && final(self).followed_tokens() == old(
                    self,
                ).followed_tokens().push(t@),
                None => old(self).pending_tokens().len() == 0 && final(self).pending_tokens()
                    == old(self).pending_tokens() && final(self).followed_tokens() == old(
                    self,
                ).followed_tokens(),
            },
    {
        let ghost prev = self.pending.deep_view();
        let popped = self.pending.pop();
        match popped {
            Some(t) => {
                self.followed = Ghost(self.followed@.push(t@));
                proof {
                    assert(self.pending.deep_view() =~= prev.drop_last());
                    assert(prev.drop_last().push(t@) =~= prev);
                    assert(prev.drop_last().to_multiset().insert(t@) == prev.to_multiset());
                    assert(old(self).followed@.to_multiset().insert(t@).add(
                        prev.drop_last().to_multiset(),
                    ) =~= old(self).followed@.to_multiset().add(prev.to_multiset()));
                }
                Some(t)
            },
            None => {
                proof {
                    assert(self.pending.deep_view() =~= prev);
                }
                None
            },
        }
    }

    /// Processes the response of one followed token: classifies every
    /// node in list order, extracts the records of comment-bearing
    /// nodes, and queues every discovered continuation token so that the
    /// earliest discovery is followed next (depth-first order).
    pub fn process_page(&mut self, page: &JsonVal) -> (out: Vec<CommentRecord>)
        requires
            old(self).wf(),
        ensures
            final(self).wf(),
            out.deep_view() == records_of_items(page_items(*page)),
            final(self).discovered_tokens() == old(self).discovered_tokens() + tokens_of_items(
                page_items(*page),
            ),
            final(self).pending_tokens() == old(self).pending_tokens() + tokens_of_items(
                page_items(*page),
            ).reverse(),
            final(self).followed_tokens() == old(self).followed_tokens(),
            final(self).emitted_count() == sat_add_u64(
                old(self).emitted_count(),
                records_of_items(page_items(*page)).len(),
            ),
    {
        let primary = getp(
            getp(
                idxp(getp(Some(page), "onResponseReceivedEndpoints"), 0),
                "appendContinuationItemsAction",
            ),
            "continuationItems",
        );
        let list = match primary {
            Some(x) => Some(x),
            None => getp(
                getp(
                    idxp(getp(Some(page), "onResponseReceivedEndpoints"), 1),
                    "reloadContinuationItemsCommand",
                ),
                "continuationItems",
            ),
        };
        let mut out: Vec<CommentRecord> = Vec::new();
        let mut toks: Vec<String> = Vec::new();
        match arrp(list) {
            Some(items) => {
                let n = items.len();
                for i in 0..n
                    invariant
                        n == items@.len(),
                        items@ == page_items(*page),
                        out.deep_view() == records_of_items(items@.take(i as int)),
                        toks.deep_view() == tokens_of_items(items@.take(i as int)),
                {
                    let node = &items[i];
                    let ghost out0 = out.deep_view();
                    let ghost toks0 = toks.deep_view();
                    match thread_comment(node) {
                        Some(c) => {
                            out.push(extract_comment(c));
                        },
                        None => match bare_comment(node) {
                            Some(c) => {
                                out.push(extract_comment(c));
                            },
                            None => match button_token(node) {
                                Some(t) => {
                                    toks.push(t.clone());
                                },
                                None => match endpoint_token(node) {
                                    Some(t) => {
                                        toks.push(t.clone());
                                    },
                                    None => {},
                                },
                            },
                        },
                    }
                    match reply_token(node) {
                        Some(t) => {
                            toks.push(t.clone());
                        },
                        None => {},
                    }
                    proof {
                        let nd = items@[i as int];
                        assert(out.deep_view() =~= out0 + node_records(nd));
                        assert(toks.deep_view() =~= toks0 + node_tokens(nd));
                        lemma_records_snoc(items@.take(i as int), nd);
                        lemma_tokens_snoc(items@.take(i as int), nd);
                        assert(items@.take(i as int).push(nd) =~= items@.take(i + 1));
                    }
                }
                proof {
                    assert(items@.take(n as int) =~= items@);
                }
            },
            None => {
                proof {
                    assert(page_items(*page) =~= Seq::<JsonVal>::empty());
                }
            },
        }
        let k: u64 = out.len() as u64;
        if self.count <= u64::MAX - k {
            self.count = self.count + k;
        } else {
            self.count = u64::MAX;
        }
        proof {
            assert(out.deep_view().len() == out@.len());
        }
        let ghost all_toks = toks.deep_view();
        self.discovered = Ghost(self.discovered@ + all_toks);
        let ghost base = self.pending.deep_view();
        let ghost count_now = self.count;
        let ghost followed_now = self.followed@;
        let ghost discovered_now = self.discovered@;
        let mut j = toks.len();
        proof {
            assert(all_toks.skip(j as int).reverse() =~= Seq::<Seq<char>>::empty());
            assert(self.pending.deep_view() =~= base + all_toks.skip(j as int).reverse());
        }
        while j > 0
            invariant
                j <= toks@.len(),
                toks.deep_view() == all_toks,
                self.pending.deep_view() == base + all_toks.skip(j as int).reverse(),
                self.count == count_now,
                self.followed@ == followed_now,
                self.discovered@ == discovered_now,
            decreases j,
        {
            j -= 1;
            let t = toks[j].clone();
            proof {
                assert(t@ == all_toks[j as int]);
            }
            let ghost before = self.pending.deep_view();
            self.pending.push(t);
            proof {
                assert(self.pending.deep_view() =~= before.push(all_toks[j as int]));
                assert(all_toks.skip(j as int).reverse() =~= all_toks.skip(j + 1).reverse().push(
                    all_toks[j as int],
                ));
                assert(self.pending.deep_view() =~= base + all_toks.skip(j as int).reverse());
            }
        }
        proof {
            assert(all_toks.skip(0).reverse() =~= all_toks.reverse());
            assert(self.pending.deep_view() =~= base + all_toks.reverse());
            all_toks.lemma_reverse_to_multiset();
            vstd::seq_lib::lemma_multiset_commutative(base, all_toks.reverse());
            vstd::seq_lib::lemma_multiset_commutative(old(self).discovered@, all_toks);
            assert(self.followed@.to_multiset().add(self.pending.deep_view().to_multiset())
                =~= self.discovered@.to_multiset());
        }
        out
    }

    /// Processes the raw text that following one token brought back:
    /// parses it as JSON and processes the page. A body that is not JSON
    /// fails the crawl with `FetchFailed` and changes nothing.
    pub fn process_response(&mut self, body: &str) -> (r: Result<Vec<CommentRecord>, CrawlError>)
        requires
            old(self).wf(),
        ensures
            final(self).wf(),
            match r {
                Ok(out) => json_of(body@) is Some && {
                    let items = page_items(json_of(body@).unwrap());
                    &&& out.deep_view() == records_of_items(items)
                    &&& final(self).discovered_tokens() == old(self).discovered_tokens()
                        + tokens_of_items(items)
                    &&& final(self).pending_tokens() == old(self).pending_tokens()
                        + tokens_of_items(items).reverse()
                    &&& final(self).followed_tokens() == old(self).followed_tokens()
                    &&& final(self).emitted_count() == sat_add_u64(
                        old(self).emitted_count(),
                        records_of_items(items).len(),
                    )
                },
                Err(e) => e == CrawlError::FetchFailed && json_of(body@) is None && *final(self)
                    == *old(self),
            },
    {
        match parse_document(body) {
            Some(doc) => Ok(self.process_page(&doc)),
            None => Err(CrawlError::FetchFailed),
        }
    }
}

/// Law: in a well-formed walk the occurrences of any token split exactly
/// between those already followed and those still pending; nothing is
/// followed that was not discovered, and nothing discovered is lost.
pub proof fn lemma_token_conservation(w: Walker, t: Seq<char>)
    requires
        w.wf(),
    ensures
        w.followed_tokens().to_multiset().count(t) + w.pending_tokens().to_multiset().count(t)
            == w.discovered_tokens().to_multiset().count(t),
{
}

/// Law: token coverage — when the walk is complete (nothing pending),
/// every discovered token has been followed, occurrence for occurrence,
/// and nothing else has.
pub proof fn lemma_complete_walk_covers_all(w: Walker)
    requires
        w.wf(),
        w.pending_tokens().len() == 0,
    ensures
        w.followed_tokens().to_multiset() == w.discovered_tokens().to_multiset(),
{
    assert(w.pending_tokens().to_multiset().len() == 0);
    assert(w.followed_tokens().to_multiset().add(w.pending_tokens().to_multiset())
        =~= w.followed_tokens().to_multiset());
}

/// Law: no double visit — when every discovered token is distinct, no
/// token is handed out for fetching twice, and a token already followed
/// is never pending again.
pub proof fn lemma_no_double_visit(w: Walker, t: Seq<char>)
    requires
        w.wf(),
        w.discovered_tokens().no_duplicates(),
    ensures
        w.followed_tokens().to_multiset().count(t) <= 1,
        w.followed_tokens().contains(t) ==> !w.pending_tokens().contains(t),
        w.followed_tokens().no_duplicates(),
{
    lemma_token_conservation(w, t);
    w.discovered_tokens().lemma_multiset_has_no_duplicates();
    assert forall|x: Seq<char>| w.followed_tokens().to_multiset().contains(x) implies w
        .followed_tokens()
        .to_multiset()
        .count(x) == 1 by {
        lemma_token_conservation(w, x);
    }
    w.followed_tokens().lemma_multiset_has_no_duplicates_conv();
    if w.followed_tokens().contains(t) && w.pending_tokens().contains(t) {
        lemma_token_conservation(w, t);
    }
}

} // verus!
