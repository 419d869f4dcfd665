use rustnao::response::index_of_label;
use rustnao::source::generate_bitmask;
use rustnao::text::{decimal, parse_u32, signed_decimal};
use rustnao::{SearchConfig, Similarity, Source};

/// A fixed sequence of numbers that looks random.
struct Numbers(u64);

impl Numbers {
    fn next(&mut self) -> u64 {
        self.0 = self.0.wrapping_mul(6364136223846793005).wrapping_add(1442695040888963407);
        self.0 ^ (self.0 >> 29)
    }
}

#[test]
fn decimal_writes_what_std_writes() {
    let mut numbers = Numbers(1);
    for _ in 0..2000 {
        let n = numbers.next() >> (numbers.next() % 64);
        assert_eq!(decimal(n), n.to_string());
        let signed = n as i64;
        assert_eq!(signed_decimal(signed), signed.to_string());
    }
}

#[test]
fn parse_u32_reads_what_decimal_writes() {
    let mut numbers = Numbers(2);
    for _ in 0..2000 {
        let n = (numbers.next() >> (numbers.next() % 64)) as u32;
        assert_eq!(parse_u32(&decimal(u64::from(n))), Some(n));
    }
    for n in [0u32, 9, 10, 99, 100, u32::MAX - 1, u32::MAX] {
        assert_eq!(parse_u32(&decimal(u64::from(n))), Some(n));
    }
    assert_eq!(parse_u32(&decimal(u64::from(u32::MAX) + 1)), None);
}

#[test]
fn parse_u32_agrees_with_std_on_short_texts() {
    let alphabet = ['0', '1', '9', '+', '-', ' ', 'a', '.'];
    let mut numbers = Numbers(3);
    for _ in 0..4000 {
        let len = numbers.next() % 5;
        let text: String =
            (0..len).map(|_| alphabet[(numbers.next() % 8) as usize]).collect();
        assert_eq!(parse_u32(&text), text.parse::<u32>().ok(), "{:?}", text);
    }
}

#[test]
fn a_similarity_of_two_decimals_is_read_exactly() {
    let mut numbers = Numbers(4);
    for _ in 0..2000 {
        let hundredths = (numbers.next() % 1_000_000) as i64;
        let text = format!("{}.{:02}", hundredths / 100, hundredths % 100);
        assert_eq!(Similarity::parse(&text).map(|s| s.hundredths()), Some(hundredths), "{}", text);
        let negative = format!("-{}", text);
        assert_eq!(Similarity::parse(&negative).map(|s| s.hundredths()), Some(-hundredths));
    }
}

#[test]
fn a_similarity_without_exponent_is_the_float_rounded_down() {
    let alphabet = ['0', '5', '9', '+', '-', '.', 'x'];
    let mut numbers = Numbers(5);
    for _ in 0..4000 {
        let len = numbers.next() % 6;
        let text: String =
            (0..len).map(|_| alphabet[(numbers.next() % 7) as usize]).collect();
        let float = text.parse::<f64>().ok();
        let read = Similarity::parse(&text).map(|s| s.hundredths());
        assert_eq!(read.is_some(), float.is_some(), "{:?}", text);
        if let (Some(hundredths), Some(value)) = (read, float) {
            assert_eq!(hundredths, (value * 100.0 + 1e-9).floor() as i64, "{:?}", text);
        }
    }
}

#[test]
fn a_similarity_is_read_where_a_finite_float_is() {
    let alphabet = ['0', '1', '7', '+', '-', '.', 'e', 'E', 'e', '.', '0', 'x'];
    let mut numbers = Numbers(9);
    let mut read_some = 0;
    for _ in 0..20000 {
        let len = numbers.next() % 8;
        let text: String =
            (0..len).map(|_| alphabet[(numbers.next() % 12) as usize]).collect();
        let float = text.parse::<f64>().ok();
        let read = Similarity::parse(&text).map(|s| s.hundredths());
        assert_eq!(read.is_some(), float.is_some(), "{:?}", text);
        if let (Some(hundredths), Some(value)) = (read, float) {
            read_some += 1;
            let scaled = value * 100.0;
            let expected = scaled.floor().clamp(-1e8, 1e8) as i64;
            let near_a_step = (scaled - scaled.round()).abs() < 1e-6;
            if !near_a_step {
                assert_eq!(hundredths, expected, "{:?}", text);
            } else {
                assert!((hundredths as f64 - scaled.clamp(-1e8, 1e8)).abs() <= 1.0, "{:?}", text);
            }
        }
    }
    assert!(read_some > 500);
}

#[test]
fn a_label_names_the_index_that_was_written_into_it() {
    let mut numbers = Numbers(6);
    for _ in 0..1000 {
        let n = (numbers.next() >> 32) as u32;
        assert_eq!(index_of_label(&format!("Index #{}: Some Site - {}.jpg", n, n)), Some(n));
        assert_eq!(index_of_label(&format!("Index #{}", n)), Some(n));
        assert_eq!(index_of_label(&format!("Index {}: #{}", n, n)), None);
    }
}

#[test]
fn a_mask_has_the_bits_of_its_members() {
    let known: Vec<Source> = (0..64).filter_map(Source::from_u32).collect();
    assert_eq!(known.len(), 38);
    let mut numbers = Numbers(7);
    for _ in 0..500 {
        let len = numbers.next() % 12;
        let selection: Vec<Source> =
            (0..len).map(|_| known[(numbers.next() % 38) as usize]).collect();
        let expected = selection.iter().fold(0u64, |mask, source| mask | 1u64 << source.index());
        assert_eq!(generate_bitmask(&selection), expected);
    }
}

#[test]
fn the_address_is_read_back_as_it_was_built() {
    let mut numbers = Numbers(8);
    let letters = ['a', 'Z', '0', ' ', '&', '=', '%', '+', '/', '?', '#', 'é', '日'];
    for _ in 0..300 {
        let key: String =
            (0..numbers.next() % 8).map(|_| letters[(numbers.next() % 13) as usize]).collect();
        let path: String =
            (0..numbers.next() % 8).map(|_| letters[(numbers.next() % 13) as usize]).collect();
        let path = format!("https://{}", path);
        let config = SearchConfig {
            api_key: key.clone(),
            testmode: None,
            db_mask: None,
            db_mask_i: None,
            db: None,
            num_results: None,
        };
        let text = config.generate_url(&path, Some(7)).unwrap();
        let url = url::Url::parse(&text).unwrap();
        let pairs: Vec<(String, String)> =
            url.query_pairs().map(|(name, value)| (name.into_owned(), value.into_owned())).collect();
        assert_eq!(
            pairs,
            vec![
                ("api_key".to_string(), key),
                ("output_type".to_string(), "2".to_string()),
                ("testmode".to_string(), "0".to_string()),
                ("numres".to_string(), "7".to_string()),
                ("url".to_string(), path),
            ]
        );
    }
}
