use rustnao::request::{is_remote_path, API_URL, JSON_OUTPUT, MAX_RESULTS};
use rustnao::{ErrType, QueryPair, SearchConfig, Source};

const FILE: &str = "https://i.imgur.com/W42kkKS.jpg";

fn config() -> SearchConfig {
    SearchConfig {
        api_key: "abc".to_string(),
        testmode: None,
        db_mask: None,
        db_mask_i: None,
        db: None,
        num_results: None,
    }
}

fn pairs_of(pairs: Vec<QueryPair>) -> Vec<(String, String)> {
    pairs.into_iter().map(|pair| (pair.name, pair.value)).collect()
}

fn expect(pairs: &[(&str, &str)]) -> Vec<(String, String)> {
    pairs.iter().map(|(name, value)| (name.to_string(), value.to_string())).collect()
}

#[test]
fn the_constants_of_a_request() {
    assert_eq!(API_URL, "https://saucenao.com/search.php");
    assert_eq!(MAX_RESULTS, 999);
    assert_eq!(JSON_OUTPUT, 2);
}

#[test]
fn a_remote_image_begins_with_a_web_scheme() {
    assert!(is_remote_path("https://i.imgur.com/W42kkKS.jpg"));
    assert!(is_remote_path("http://i.imgur.com/W42kkKS.jpg"));
    assert!(is_remote_path("https://"));
    assert!(!is_remote_path("./tests/test.jpg"));
    assert!(!is_remote_path("ftp://host/file.png"));
    assert!(!is_remote_path("Https://host/file.png"));
    assert!(!is_remote_path("http:/host"));
    assert!(!is_remote_path(""));
}

#[test]
fn the_least_query_has_key_output_testmode_and_numres() {
    assert_eq!(
        pairs_of(config().query_pairs("./local.png", None)),
        expect(&[("api_key", "abc"), ("output_type", "2"), ("testmode", "0"), ("numres", "999")])
    );
}

#[test]
fn a_remote_image_is_the_last_pair() {
    assert_eq!(
        pairs_of(config().query_pairs(FILE, None)),
        expect(&[
            ("api_key", "abc"),
            ("output_type", "2"),
            ("testmode", "0"),
            ("numres", "999"),
            ("url", FILE),
        ])
    );
}

#[test]
fn the_full_query_keeps_its_order() {
    let config = SearchConfig {
        api_key: String::new(),
        testmode: Some(true),
        db_mask: Some(vec![Source::Pixiv, Source::SankakuChannel]),
        db_mask_i: Some(vec![Source::HMisc]),
        db: Some(999),
        num_results: Some(15),
    };
    assert_eq!(
        pairs_of(config.query_pairs(FILE, None)),
        expect(&[
            ("api_key", ""),
            ("output_type", "2"),
            ("db", "999"),
            ("dbmask", "134217760"),
            ("dbmaski", "262144"),
            ("testmode", "1"),
            ("numres", "15"),
            ("url", FILE),
        ])
    );
}

#[test]
fn an_empty_selection_gives_no_mask() {
    let mut config = config();
    config.db_mask = Some(Vec::new());
    config.db_mask_i = Some(Vec::new());
    assert_eq!(
        pairs_of(config.query_pairs("x", None)),
        expect(&[("api_key", "abc"), ("output_type", "2"), ("testmode", "0"), ("numres", "999")])
    );
}

#[test]
fn the_number_of_results_of_the_search_comes_first() {
    let mut config = config();
    assert_eq!(pairs_of(config.query_pairs("x", Some(7)))[3], ("numres".to_string(), "7".to_string()));
    config.num_results = Some(50);
    assert_eq!(pairs_of(config.query_pairs("x", None))[3], ("numres".to_string(), "50".to_string()));
    assert_eq!(pairs_of(config.query_pairs("x", Some(7)))[3], ("numres".to_string(), "7".to_string()));
    assert_eq!(pairs_of(config.query_pairs("x", Some(0)))[3], ("numres".to_string(), "0".to_string()));
}

#[test]
fn testmode_is_written_as_it_is_set() {
    let mut config = config();
    config.testmode = Some(false);
    assert_eq!(pairs_of(config.query_pairs("x", None))[2], ("testmode".to_string(), "0".to_string()));
    config.testmode = Some(true);
    assert_eq!(pairs_of(config.query_pairs("x", None))[2], ("testmode".to_string(), "1".to_string()));
}

#[test]
fn the_address_of_a_remote_search() {
    let mut config = config();
    config.db = Some(999);
    assert_eq!(
        config.generate_url(FILE, None).unwrap(),
        "https://saucenao.com/search.php?api_key=abc&output_type=2&db=999&testmode=0&numres=999\
         &url=https%3A%2F%2Fi.imgur.com%2FW42kkKS.jpg"
    );
}

#[test]
fn the_address_of_a_local_search_names_no_image() {
    assert_eq!(
        config().generate_url("./tests/test.jpg", Some(3)).unwrap(),
        "https://saucenao.com/search.php?api_key=abc&output_type=2&testmode=0&numres=3"
    );
}

#[test]
fn the_address_carries_the_masks() {
    let config = SearchConfig {
        api_key: "key".to_string(),
        testmode: Some(true),
        db_mask: Some(vec![Source::Pixiv]),
        db_mask_i: Some(vec![Source::Skeb, Source::HMagazines]),
        db: None,
        num_results: Some(10),
    };
    assert_eq!(
        config.generate_url("file.png", None).unwrap(),
        "https://saucenao.com/search.php?api_key=key&output_type=2&dbmask=32\
         &dbmaski=17592186044417&testmode=1&numres=10"
    );
}

#[test]
fn the_address_encodes_what_is_no_plain_text() {
    let mut config = config();
    config.api_key = "a b&c=d/é".to_string();
    assert_eq!(
        config.generate_url("x", None).unwrap(),
        "https://saucenao.com/search.php?api_key=a+b%26c%3Dd%2F%C3%A9&output_type=2&testmode=0\
         &numres=999"
    );
}

#[test]
fn the_address_is_that_of_its_pairs() {
    let config = config();
    let mut url = url::Url::parse(API_URL).unwrap();
    for pair in config.query_pairs(FILE, Some(5)) {
        url.query_pairs_mut().append_pair(&pair.name, &pair.value);
    }
    assert_eq!(config.generate_url(FILE, Some(5)).unwrap(), url.as_str());
}

#[test]
fn the_number_of_results_that_holds_for_a_search() {
    let mut config = config();
    assert_eq!(config.results_cap(None), 999);
    assert_eq!(config.results_cap(Some(3)), 3);
    config.num_results = Some(40);
    assert_eq!(config.results_cap(None), 40);
    assert_eq!(config.results_cap(Some(3)), 3);
    assert_eq!(config.results_cap(Some(5000)), 5000);
}

#[test]
fn every_request_asks_for_json() {
    for path in ["x", FILE] {
        let pairs = pairs_of(config().query_pairs(path, None));
        assert_eq!(pairs[1], ("output_type".to_string(), "2".to_string()));
    }
}

#[test]
fn an_error_kind_can_be_told_apart() {
    let kind = ErrType::InvalidParse("x".to_string());
    assert!(matches!(kind, ErrType::InvalidParse(_)));
    assert!(!matches!(kind, ErrType::InvalidParameters(_)));
}
