use rustnao::response::{index_of_label, normalize, normalize_row, normalize_rows};
use rustnao::{
    ErrType, RateLimits, ResponseHeader, ResultData, ResultHeader, ResultRow, Sauce, SauceResult,
    Similarity,
};
use serde_json::Value;

fn row(similarity: &str, index_name: &str, urls: &[&str]) -> ResultRow {
    ResultRow {
        header: ResultHeader {
            similarity: similarity.to_string(),
            thumbnail: "https://img1.saucenao.com/res/pixiv/1.jpg".to_string(),
            index_id: 5,
            index_name: index_name.to_string(),
        },
        data: ResultData {
            ext_urls: urls.iter().map(|url| url.to_string()).collect(),
            title: Some("a title".to_string()),
            additional_fields: None,
            source: None,
            creator: None,
            eng_name: None,
            jp_name: None,
        },
    }
}

fn pixiv(similarity: &str) -> ResultRow {
    row(similarity, "Index #5: Pixiv Images - 1_p0.jpg", &["https://www.pixiv.net/1"])
}

fn header(status: i32, message: &str) -> ResponseHeader {
    ResponseHeader {
        status,
        message: message.to_string(),
        short_limit: "4".to_string(),
        long_limit: "100".to_string(),
        short_remaining: 3,
        long_remaining: 97,
    }
}

fn percent(p: i32) -> Similarity {
    Similarity::from_percent(p)
}

fn similarities(found: &[Sauce]) -> Vec<i64> {
    found.iter().map(|sauce| sauce.similarity.hundredths()).collect()
}

fn start() -> RateLimits {
    RateLimits { short_limit: 12, long_limit: 200, short_left: 12, long_left: 200 }
}

#[test]
fn the_label_of_an_index_names_its_index() {
    assert_eq!(index_of_label("Index #5: Pixiv Images - 1_p0.jpg"), Some(5));
    assert_eq!(index_of_label("Index #37: MangaDex - x"), Some(37));
    assert_eq!(index_of_label("Index #999: unknown"), Some(999));
    assert_eq!(index_of_label("#9"), Some(9));
    assert_eq!(index_of_label("a#12#b: c"), Some(12));
    assert_eq!(index_of_label("Index #+5: plus"), Some(5));
    assert_eq!(index_of_label("Index #4294967295:"), Some(u32::MAX));
}

#[test]
fn a_label_without_an_index_names_none() {
    assert_eq!(index_of_label(""), None);
    assert_eq!(index_of_label("Index 5: Pixiv"), None);
    assert_eq!(index_of_label("Index: #5"), None);
    assert_eq!(index_of_label("Index #: Pixiv"), None);
    assert_eq!(index_of_label("Index # 5: Pixiv"), None);
    assert_eq!(index_of_label("Index #5 : Pixiv"), None);
    assert_eq!(index_of_label("Index #five: Pixiv"), None);
    assert_eq!(index_of_label("Index ##5: Pixiv"), None);
    assert_eq!(index_of_label("Index #-5: Pixiv"), None);
    assert_eq!(index_of_label("Index #4294967296: Pixiv"), None);
}

#[test]
fn a_negative_status_is_a_failure_and_changes_no_limit() {
    let response = SauceResult {
        header: header(-1, "Invalid API key"),
        results: Some(vec![pixiv("90.0")]),
    };
    let mut limits = start();
    let error = normalize(response, &mut limits, percent(0), false).unwrap_err();
    assert_eq!(
        error.kind(),
        &ErrType::InvalidCode { code: -1, message: "Invalid API key".to_string() }
    );
    assert_eq!(limits, start());
}

#[test]
fn rows_below_the_threshold_are_left_out_and_the_rest_keep_their_order() {
    let response = SauceResult {
        header: header(0, ""),
        results: Some(vec![pixiv("10.0"), pixiv("60.0"), pixiv("90.0")]),
    };
    let mut limits = start();
    let found = normalize(response, &mut limits, Similarity::parse("50.0").unwrap(), false).unwrap();
    assert_eq!(similarities(&found), vec![6000, 9000]);
}

#[test]
fn a_row_at_the_threshold_is_kept() {
    let rows = vec![pixiv("49.99"), pixiv("50.00"), pixiv("50.01"), pixiv("50")];
    let found = normalize_rows(rows, percent(50), false).unwrap();
    assert_eq!(similarities(&found), vec![5000, 5001, 5000]);
}

#[test]
fn the_order_of_the_rows_is_kept_and_nothing_is_merged() {
    let rows = vec![pixiv("70.0"), pixiv("95.5"), pixiv("70.0"), pixiv("20.25"), pixiv("95.5")];
    let found = normalize_rows(rows, percent(0), false).unwrap();
    assert_eq!(similarities(&found), vec![7000, 9550, 7000, 2025, 9550]);
}

#[test]
fn a_row_without_an_address_is_left_out_where_empty_results_are() {
    let rows = vec![
        row("99.0", "Index #5: a", &[]),
        pixiv("80.0"),
        row("100.0", "Index #9: b", &[]),
    ];
    let found = normalize_rows(rows, percent(0), true).unwrap();
    assert_eq!(similarities(&found), vec![8000]);
    assert!(found.iter().all(|sauce| !sauce.has_empty_url()));
}

#[test]
fn a_row_without_an_address_is_kept_where_empty_results_are() {
    let rows = vec![row("99.0", "Index #5: a", &[]), pixiv("80.0")];
    let found = normalize_rows(rows, percent(0), false).unwrap();
    assert_eq!(similarities(&found), vec![9900, 8000]);
    assert!(found[0].has_empty_url());
    assert!(!found[1].has_empty_url());
}

#[test]
fn a_known_index_gives_the_name_of_the_site() {
    let sauce = normalize_row(pixiv("88.12"), percent(0), false).unwrap().unwrap();
    assert_eq!(sauce.site, "pixiv Images");
    assert_eq!(sauce.index, 5);
    assert_eq!(sauce.index_id, 5);
    assert_eq!(sauce.similarity, Similarity::from_hundredths(8812));
    assert_eq!(sauce.thumbnail, "https://img1.saucenao.com/res/pixiv/1.jpg");
    assert_eq!(sauce.ext_urls, vec!["https://www.pixiv.net/1".to_string()]);
    assert_eq!(sauce.title, Some("a title".to_string()));
    assert_eq!(sauce.source, None);
}

#[test]
fn an_unknown_index_gives_its_label() {
    let unknown = row("88.0", "Index #17: something new", &["u"]);
    let sauce = normalize_row(unknown, percent(0), false).unwrap().unwrap();
    assert_eq!(sauce.site, "Index #17: something new");
    assert_eq!(sauce.index, 17);
    assert_eq!(sauce.additional_fields, None);
}

#[test]
fn every_field_of_a_row_reaches_the_result() {
    let mut full = row("75.5", "Index #21: Anime - x", &["a", "b"]);
    full.header.index_id = 21;
    full.header.thumbnail = "thumb".to_string();
    full.data.title = None;
    full.data.source = Some("s".to_string());
    full.data.creator = Some("c".to_string());
    full.data.eng_name = Some("e".to_string());
    full.data.jp_name = Some("j".to_string());
    let sauce = normalize_row(full, percent(75), false).unwrap().unwrap();
    assert_eq!(sauce.ext_urls, vec!["a".to_string(), "b".to_string()]);
    assert_eq!(sauce.title, None);
    assert_eq!(sauce.site, "Anime");
    assert_eq!(sauce.index, 21);
    assert_eq!(sauce.index_id, 21);
    assert_eq!(sauce.similarity.hundredths(), 7550);
    assert_eq!(sauce.thumbnail, "thumb");
    assert_eq!(sauce.source, Some("s".to_string()));
    assert_eq!(sauce.creator, Some("c".to_string()));
    assert_eq!(sauce.eng_name, Some("e".to_string()));
    assert_eq!(sauce.jp_name, Some("j".to_string()));
}

#[test]
fn the_extra_fields_of_a_known_index_are_kept_as_a_value() {
    let fields: Value = serde_json::from_str("{\"pixiv_id\": 1, \"member_name\": \"m\"}").unwrap();
    let mut with_fields = pixiv("88.0");
    with_fields.data.additional_fields = Some(fields.clone());
    let sauce = normalize_row(with_fields, percent(0), false).unwrap().unwrap();
    assert_eq!(sauce.additional_fields, Some(fields));
}

#[test]
fn missing_extra_fields_of_a_known_index_become_null() {
    let sauce = normalize_row(pixiv("88.0"), percent(0), false).unwrap().unwrap();
    assert_eq!(sauce.additional_fields, Some(Value::Null));
}

#[test]
fn the_extra_fields_of_an_unknown_index_are_dropped() {
    let mut unknown = row("88.0", "Index #1: gone", &["u"]);
    unknown.data.additional_fields = Some(Value::String("x".to_string()));
    let sauce = normalize_row(unknown, percent(0), false).unwrap().unwrap();
    assert_eq!(sauce.additional_fields, None);
}

#[test]
fn a_row_that_is_left_out_gives_nothing() {
    assert_eq!(normalize_row(pixiv("10.0"), percent(50), false).unwrap(), None);
    assert_eq!(normalize_row(row("90.0", "Index #5: a", &[]), percent(50), true).unwrap(), None);
}

#[test]
fn an_unreadable_similarity_fails_the_whole_answer() {
    let rows = vec![pixiv("90.0"), pixiv("ninety"), pixiv("80.0")];
    let error = normalize_rows(rows, percent(0), false).unwrap_err();
    assert_eq!(
        error.kind(),
        &ErrType::InvalidParse("the similarity is not a decimal number: ninety".to_string())
    );
}

#[test]
fn an_unreadable_similarity_fails_even_a_row_that_would_be_left_out() {
    let rows = vec![row("", "Index #5: a", &[])];
    let error = normalize_rows(rows, percent(100), true).unwrap_err();
    assert_eq!(
        error.kind(),
        &ErrType::InvalidParse("the similarity is not a decimal number: ".to_string())
    );
}

#[test]
fn an_unreadable_label_fails_a_row_that_is_let_through() {
    let rows = vec![pixiv("90.0"), row("90.0", "Pixiv Images", &["u"])];
    let error = normalize_rows(rows, percent(0), false).unwrap_err();
    assert_eq!(
        error.kind(),
        &ErrType::InvalidParse("the index name holds no index: Pixiv Images".to_string())
    );
}

#[test]
fn an_unreadable_label_does_not_fail_a_row_that_is_left_out() {
    let rows = vec![row("10.0", "Pixiv Images", &["u"]), pixiv("90.0")];
    let found = normalize_rows(rows, percent(50), false).unwrap();
    assert_eq!(similarities(&found), vec![9000]);
}

#[test]
fn the_first_unreadable_row_gives_the_failure() {
    let rows = vec![row("90.0", "no index", &["u"]), pixiv("bad")];
    let error = normalize_rows(rows, percent(0), false).unwrap_err();
    assert_eq!(
        error.kind(),
        &ErrType::InvalidParse("the index name holds no index: no index".to_string())
    );
    let rows = vec![pixiv("bad"), row("90.0", "no index", &["u"])];
    let error = normalize_rows(rows, percent(0), false).unwrap_err();
    assert_eq!(
        error.kind(),
        &ErrType::InvalidParse("the similarity is not a decimal number: bad".to_string())
    );
}

#[test]
fn no_rows_give_no_results() {
    assert_eq!(normalize_rows(Vec::new(), percent(0), false).unwrap(), Vec::new());
}

#[test]
fn an_answer_without_rows_gives_no_results_and_sets_the_limits() {
    let response = SauceResult { header: header(0, ""), results: None };
    let mut limits = start();
    let found = normalize(response, &mut limits, percent(0), false).unwrap();
    assert!(found.is_empty());
    assert_eq!(
        limits,
        RateLimits { short_limit: 4, long_limit: 100, short_left: 3, long_left: 97 }
    );
}

#[test]
fn the_limits_are_set_however_many_rows_are_kept() {
    let response = SauceResult { header: header(2, ""), results: Some(vec![pixiv("10.0")]) };
    let mut limits = start();
    let found = normalize(response, &mut limits, percent(99), true).unwrap();
    assert!(found.is_empty());
    assert_eq!(
        limits,
        RateLimits { short_limit: 4, long_limit: 100, short_left: 3, long_left: 97 }
    );
}

#[test]
fn the_limits_are_set_even_if_a_row_cannot_be_read() {
    let response = SauceResult { header: header(0, ""), results: Some(vec![pixiv("?")]) };
    let mut limits = start();
    assert!(normalize(response, &mut limits, percent(0), false).is_err());
    assert_eq!(
        limits,
        RateLimits { short_limit: 4, long_limit: 100, short_left: 3, long_left: 97 }
    );
}

#[test]
fn an_unreadable_short_limit_fails_and_sets_only_what_is_left() {
    let mut bad = header(0, "");
    bad.short_limit = "four".to_string();
    let response = SauceResult { header: bad, results: Some(vec![pixiv("90.0")]) };
    let mut limits = start();
    let error = normalize(response, &mut limits, percent(0), false).unwrap_err();
    assert_eq!(error.kind(), &ErrType::InvalidParse("the limit is not a number: four".to_string()));
    assert_eq!(
        limits,
        RateLimits { short_limit: 12, long_limit: 200, short_left: 3, long_left: 97 }
    );
}

#[test]
fn an_unreadable_long_limit_fails_and_leaves_the_long_limit() {
    let mut bad = header(0, "");
    bad.long_limit = "-100".to_string();
    let response = SauceResult { header: bad, results: None };
    let mut limits = start();
    let error = normalize(response, &mut limits, percent(0), false).unwrap_err();
    assert_eq!(error.kind(), &ErrType::InvalidParse("the limit is not a number: -100".to_string()));
    assert_eq!(
        limits,
        RateLimits { short_limit: 4, long_limit: 200, short_left: 3, long_left: 97 }
    );
}

#[test]
fn a_status_of_zero_is_no_failure() {
    let response = SauceResult { header: header(0, "ignored"), results: Some(vec![pixiv("1")]) };
    let mut limits = start();
    assert_eq!(normalize(response, &mut limits, percent(0), false).unwrap().len(), 1);
}

#[test]
fn the_least_status_is_reported_as_it_came() {
    let response = SauceResult { header: header(i32::MIN, "m"), results: None };
    let mut limits = start();
    let error = normalize(response, &mut limits, percent(0), false).unwrap_err();
    assert_eq!(error.kind(), &ErrType::InvalidCode { code: i32::MIN, message: "m".to_string() });
    assert_eq!(limits, start());
}

#[test]
fn what_is_left_follows_the_service() {
    let mut limits = start();
    let mut first = header(0, "");
    first.short_remaining = 3;
    first.long_remaining = 97;
    normalize(SauceResult { header: first, results: None }, &mut limits, percent(0), false).unwrap();
    let after_first = limits;
    let mut second = header(0, "");
    second.short_remaining = 2;
    second.long_remaining = 96;
    normalize(SauceResult { header: second, results: None }, &mut limits, percent(0), false).unwrap();
    assert!(limits.short_left <= after_first.short_left);
    assert!(limits.long_left <= after_first.long_left);
    assert_eq!(limits.short_left, 2);
    assert_eq!(limits.long_left, 96);
}
