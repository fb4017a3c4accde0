use ucomment::comment::{extract_comment, header_fields, row_fields, CommentRecord};
use ucomment::json::JsonVal;
use ucomment::text::{chars_from, parse_vote_count, remove_at_signs, u64_to_dec};

fn obj(fields: Vec<(&str, JsonVal)>) -> JsonVal {
    JsonVal::Obj(fields.into_iter().map(|(k, v)| (k.to_string(), v)).collect())
}

fn jstr(x: &str) -> JsonVal {
    JsonVal::Str(x.to_string())
}

fn full_comment() -> JsonVal {
    obj(vec![
        ("voteCount", obj(vec![("simpleText", jstr("5"))])),
        ("authorText", obj(vec![("simpleText", jstr("@alice"))])),
        (
            "contentText",
            obj(vec![(
                "runs",
                JsonVal::Arr(vec![
                    obj(vec![("text", jstr("hi"))]),
                    obj(vec![("text", jstr(" there"))]),
                ]),
            )]),
        ),
        (
            "authorEndpoint",
            obj(vec![(
                "commandMetadata",
                obj(vec![(
                    "webCommandMetadata",
                    obj(vec![("url", jstr("/channel/alice"))]),
                )]),
            )]),
        ),
    ])
}

#[test]
fn extracts_all_fields() {
    let rec: CommentRecord = extract_comment(&full_comment());
    assert_eq!(rec.author_id, "alice");
    assert_eq!(rec.author_name, "alice");
    assert_eq!(rec.text, "hi there");
    assert_eq!(rec.vote_count, 5);
}

#[test]
fn missing_vote_count_defaults_to_zero() {
    let c = obj(vec![("authorText", obj(vec![("simpleText", jstr("bob"))]))]);
    let rec = extract_comment(&c);
    assert_eq!(rec.vote_count, 0);
}

#[test]
fn unparsable_vote_count_defaults_to_zero() {
    let c = obj(vec![("voteCount", obj(vec![("simpleText", jstr("1.2K"))]))]);
    let rec = extract_comment(&c);
    assert_eq!(rec.vote_count, 0);
}

#[test]
fn missing_text_runs_default_to_empty() {
    let c = obj(vec![("voteCount", obj(vec![("simpleText", jstr("3"))]))]);
    let rec = extract_comment(&c);
    assert_eq!(rec.text, "");
    assert_eq!(rec.vote_count, 3);
}

#[test]
fn run_without_text_field_reads_empty() {
    let c = obj(vec![(
        "contentText",
        obj(vec![(
            "runs",
            JsonVal::Arr(vec![
                obj(vec![("text", jstr("a"))]),
                obj(vec![("other", jstr("x"))]),
                obj(vec![("text", jstr("b"))]),
            ]),
        )]),
    )]);
    let rec = extract_comment(&c);
    assert_eq!(rec.text, "ab");
}

#[test]
fn author_at_signs_removed() {
    let c = obj(vec![("authorText", obj(vec![("simpleText", jstr("@handle"))]))]);
    let rec = extract_comment(&c);
    assert_eq!(rec.author_name, "handle");
}

#[test]
fn missing_author_defaults_to_empty() {
    let c = obj(vec![]);
    let rec = extract_comment(&c);
    assert_eq!(rec.author_name, "");
    assert_eq!(rec.author_id, "");
    assert_eq!(rec.text, "");
    assert_eq!(rec.vote_count, 0);
}

#[test]
fn author_id_strips_nine_character_prefix() {
    let c = obj(vec![(
        "authorEndpoint",
        obj(vec![(
            "commandMetadata",
            obj(vec![(
                "webCommandMetadata",
                obj(vec![("url", jstr("/channel/UCxyz"))]),
            )]),
        )]),
    )]);
    let rec = extract_comment(&c);
    assert_eq!(rec.author_id, "UCxyz");
}

#[test]
fn short_author_url_reads_empty() {
    let c = obj(vec![(
        "authorEndpoint",
        obj(vec![(
            "commandMetadata",
            obj(vec![("webCommandMetadata", obj(vec![("url", jstr("/x"))]))]),
        )]),
    )]);
    let rec = extract_comment(&c);
    assert_eq!(rec.author_id, "");
}

#[test]
fn vote_parser_exact_values() {
    assert_eq!(parse_vote_count("0"), 0);
    assert_eq!(parse_vote_count("5"), 5);
    assert_eq!(parse_vote_count("12345"), 12345);
    assert_eq!(parse_vote_count("+7"), 7);
    assert_eq!(parse_vote_count(""), 0);
    assert_eq!(parse_vote_count("+"), 0);
    assert_eq!(parse_vote_count("-1"), 0);
    assert_eq!(parse_vote_count("12a"), 0);
    assert_eq!(parse_vote_count("18446744073709551615"), u64::MAX);
    assert_eq!(parse_vote_count("18446744073709551616"), 0);
}

#[test]
fn decimal_rendering_exact_values() {
    assert_eq!(u64_to_dec(0), "0");
    assert_eq!(u64_to_dec(7), "7");
    assert_eq!(u64_to_dec(10), "10");
    assert_eq!(u64_to_dec(12345), "12345");
    assert_eq!(u64_to_dec(u64::MAX), "18446744073709551615");
}

#[test]
fn at_sign_removal_keeps_everything_else() {
    assert_eq!(remove_at_signs("@a@b@"), "ab");
    assert_eq!(remove_at_signs("plain"), "plain");
    assert_eq!(remove_at_signs(""), "");
}

#[test]
fn prefix_stripping() {
    assert_eq!(chars_from("/channel/alice", 9), "alice");
    assert_eq!(chars_from("/channel/", 9), "");
    assert_eq!(chars_from("/short", 9), "");
}

#[test]
fn header_and_row_fields() {
    let header = header_fields();
    assert_eq!(header, vec!["UserId", "Author", "Comment", "Likes"]);
    let rec = extract_comment(&full_comment());
    let row = row_fields(&rec);
    assert_eq!(row, vec!["alice", "alice", "hi there", "5"]);
}
