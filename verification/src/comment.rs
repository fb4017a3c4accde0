//! Extraction of one output record from a comment node, and the rendering
//! of records as rows for the record sink. Every field degrades to a
//! default when its source is absent; extraction never rejects a node.

use vstd::prelude::*;
use crate::json::{JsonVal, get_key, get_opt, str_opt, arr_opt, getp, strp, arrp};
use crate::text::{parsed_vote, without_at, tail_from, dec_str, parse_vote_count, remove_at_signs,
    chars_from, u64_to_dec};

verus! {

/// One extracted comment, immutable once produced.
#[derive(Debug)]
pub struct CommentRecord {
    pub author_id: String,
    pub author_name: String,
    pub text: String,
    pub vote_count: u64,
}

/// The mathematical content of a record.
pub struct RecordModel {
    pub author_id: Seq<char>,
    pub author_name: Seq<char>,
    pub text: Seq<char>,
    pub vote_count: u64,
}

impl View for CommentRecord {
    type V = RecordModel;

    open spec fn view(&self) -> RecordModel {
        RecordModel {
            author_id: self.author_id@,
            author_name: self.author_name@,
            text: self.text@,
            vote_count: self.vote_count,
        }
    }
}

impl DeepView for CommentRecord {
    type V = RecordModel;

    open spec fn deep_view(&self) -> RecordModel {
        self.view()
    }
}

/// The vote-count display text of a comment node.
pub open spec fn vote_text_of(c: JsonVal) -> Option<Seq<char>> {
    str_opt(get_opt(get_key(c, "voteCount"@), "simpleText"@))
}

/// The vote count: the display text parsed as a decimal, defaulting to 0
/// when the text is absent or not a numeral.
pub open spec fn vote_count_of(c: JsonVal) -> u64 {
    match vote_text_of(c) {
        Some(s) => parsed_vote(s),
        None => 0,
    }
}

/// The author display name with `@` characters removed; an absent name
/// reads as empty.
pub open spec fn author_name_of(c: JsonVal) -> Seq<char> {
    match str_opt(get_opt(get_key(c, "authorText"@), "simpleText"@)) {
        Some(s) => without_at(s),
        None => Seq::empty(),
    }
}

/// The text of one run; an absent text field reads as empty.
pub open spec fn run_text(run: JsonVal) -> Seq<char> {
    match str_opt(get_key(run, "text"@)) {
        Some(s) => s,
        None => Seq::empty(),
    }
}

/// All runs' texts joined in declared order with no separator.
pub open spec fn concat_runs(runs: Seq<JsonVal>) -> Seq<char>
    decreases runs.len(),
{
    if runs.len() == 0 {
        Seq::empty()
    } else {
        run_text(runs[0]) + concat_runs(runs.drop_first())
    }
}

/// The comment body: its runs joined, or empty when no run list exists.
pub open spec fn text_of(c: JsonVal) -> Seq<char> {
    match arr_opt(get_opt(get_key(c, "contentText"@), "runs"@)) {
        Some(runs) => concat_runs(runs),
        None => Seq::empty(),
    }
}

/// The author profile URL recorded on a comment node.
pub open spec fn author_url_of(c: JsonVal) -> Option<Seq<char>> {
    str_opt(
        get_opt(
            get_opt(get_opt(get_key(c, "authorEndpoint"@), "commandMetadata"@), "webCommandMetadata"@),
            "url"@,
        ),
    )
}

/// The author id: the profile URL with its fixed nine-character leading
/// path segment removed; empty when the URL is absent or too short.
pub open spec fn author_id_of(c: JsonVal) -> Seq<char> {
    match author_url_of(c) {
        Some(u) => tail_from(u, 9),
        None => Seq::empty(),
    }
}

/// The record extracted from a comment node.
pub open spec fn record_of(c: JsonVal) -> RecordModel {
    RecordModel {
        author_id: author_id_of(c),
        author_name: author_name_of(c),
        text: text_of(c),
        vote_count: vote_count_of(c),
    }
}

proof fn lemma_concat_runs_snoc(runs: Seq<JsonVal>, x: JsonVal)
    ensures
        concat_runs(runs.push(x)) == concat_runs(runs) + run_text(x),
    decreases runs.len(),
{
    if runs.len() == 0 {
        assert(runs.push(x).drop_first() =~= Seq::<JsonVal>::empty());
        assert(concat_runs(runs.push(x).drop_first()) =~= Seq::<char>::empty());
        assert(concat_runs(runs.push(x)) =~= concat_runs(runs) + run_text(x));
    } else {
        lemma_concat_runs_snoc(runs.drop_first(), x);
        assert(runs.push(x).drop_first() =~= runs.drop_first().push(x));
        assert(runs.push(x)[0] == runs[0]);
        assert(run_text(runs[0]) + (concat_runs(runs.drop_first()) + run_text(x)) =~= (run_text(
            runs[0],
        ) + concat_runs(runs.drop_first())) + run_text(x));
        assert(concat_runs(runs.push(x)) =~= concat_runs(runs) + run_text(x));
    }
}

/// Relies on str::push_str through String::append (vstd): appends the
/// argument's characters. Joins all run texts of a comment body.
fn join_runs(runs: &Vec<JsonVal>) -> (r: String)
    ensures
        r@ == concat_runs(runs@),
{
    let mut out = String::new();
    let n = runs.len();
    for i in 0..n
        invariant
            n == runs@.len(),
            out@ == concat_runs(runs@.take(i as int)),
    {
        match strp(getp(Some(&runs[i]), "text")) {
            Some(t) => {
                out.append(t.as_str());
            },
            None => {},
        }
        proof {
            lemma_concat_runs_snoc(runs@.take(i as int), runs@[i as int]);
            assert(runs@.take(i as int).push(runs@[i as int]) =~= runs@.take(i + 1));
        }
    }
    proof {
        assert(runs@.take(n as int) =~= runs@);
    }
    out
}

/// Extracts the output record of a comment node, field by field, each
/// absent source falling back to its default.
pub fn extract_comment(c: &JsonVal) -> (r: CommentRecord)
    ensures
        r@ == record_of(*c),
{
    let vote_count: u64 = match strp(getp(getp(Some(c), "voteCount"), "simpleText")) {
        Some(s) => parse_vote_count(s.as_str()),
        None => 0,
    };
    let author_name: String = match strp(getp(getp(Some(c), "authorText"), "simpleText")) {
        Some(s) => remove_at_signs(s.as_str()),
        None => String::new(),
    };
    let text: String = match arrp(getp(getp(Some(c), "contentText"), "runs")) {
        Some(runs) => join_runs(runs),
        None => String::new(),
    };
    let author_id: String = match strp(
        getp(
            getp(getp(getp(Some(c), "authorEndpoint"), "commandMetadata"), "webCommandMetadata"),
            "url",
        ),
    ) {
        Some(u) => chars_from(u.as_str(), 9),
        None => String::new(),
    };
    CommentRecord { author_id, author_name, text, vote_count }
}

/// The sink's fixed header row.
pub fn header_fields() -> (r: Vec<String>)
    ensures
        r.deep_view() == seq!["UserId"@, "Author"@, "Comment"@, "Likes"@],
{
    let mut out: Vec<String> = Vec::new();
    out.push(String::from_str("UserId"));
    out.push(String::from_str("Author"));
    out.push(String::from_str("Comment"));
    out.push(String::from_str("Likes"));
    proof {
        assert(out.deep_view() =~= seq!["UserId"@, "Author"@, "Comment"@, "Likes"@]);
    }
    out
}

/// One record as a row: user id, author, comment text, and the vote count
/// rendered as a plain decimal numeral.
pub fn row_fields(rec: &CommentRecord) -> (r: Vec<String>)
    ensures
        r.deep_view() == seq![
            rec@.author_id,
            rec@.author_name,
            rec@.text,
            dec_str(rec@.vote_count as nat),
        ],
{
    let mut out: Vec<String> = Vec::new();
    out.push(rec.author_id.clone());
    out.push(rec.author_name.clone());
    out.push(rec.text.clone());
    out.push(u64_to_dec(rec.vote_count));
    proof {
        assert(out.deep_view() =~= seq![
            rec@.author_id,
            rec@.author_name,
            rec@.text,
            dec_str(rec@.vote_count as nat),
        ]);
    }
    out
}

} // verus!
