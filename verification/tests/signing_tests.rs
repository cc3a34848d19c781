use scrobblist::lastfm::params::{compare_keys, KeyOrder, Params};
use scrobblist::lastfm::signing::sign;

fn params(pairs: &[(&str, &str)]) -> Params {
    let mut p = Params::new();
    for (k, v) in pairs {
        p.insert(k.to_string(), v.to_string());
    }
    p
}

fn entries(p: &Params) -> Vec<(String, String)> {
    (0..p.len()).map(|i| {
        let (k, v) = p.entry(i);
        (k.clone(), v.clone())
    }).collect()
}

#[test]
fn params_are_kept_in_key_order() {
    let p = params(&[("method", "m"), ("api_key", "k"), ("format", "json"), ("Z", "z")]);
    let keys: Vec<String> = entries(&p).into_iter().map(|(k, _)| k).collect();
    assert_eq!(keys, vec!["Z", "api_key", "format", "method"]);
}

#[test]
fn inserting_a_key_again_replaces_its_value() {
    let p = params(&[("a", "1"), ("b", "2"), ("a", "3")]);
    assert_eq!(entries(&p), vec![("a".to_string(), "3".to_string()), ("b".to_string(), "2".to_string())]);
}

#[test]
fn key_order_is_byte_order() {
    assert!(matches!(compare_keys("a", "b"), KeyOrder::Less));
    assert!(matches!(compare_keys("ab", "a"), KeyOrder::Greater));
    assert!(matches!(compare_keys("é", "z"), KeyOrder::Greater));
    assert!(matches!(compare_keys("", ""), KeyOrder::Equal));
    let mut words = vec!["é", "z", "Z", "a", "ab", ""];
    words.sort();
    for w in words.windows(2) {
        assert!(matches!(compare_keys(w[0], w[1]), KeyOrder::Less));
    }
}

#[test]
fn signature_of_a_token_request() {
    let p = params(&[("method", "auth.getToken"), ("api_key", "KEY"), ("format", "json")]);
    assert_eq!(sign(&p, "SECRET"), "66ee63a18da3c919f987b342697d913c");
}

#[test]
fn signature_ignores_format_and_insertion_order() {
    let a = params(&[("method", "auth.getToken"), ("api_key", "KEY")]);
    let b = params(&[("format", "xml"), ("api_key", "KEY"), ("method", "auth.getToken")]);
    assert_eq!(sign(&a, "SECRET"), sign(&b, "SECRET"));
    assert_eq!(sign(&b, "SECRET"), "66ee63a18da3c919f987b342697d913c");
}

#[test]
fn signature_of_no_parameters_is_that_of_the_secret() {
    assert_eq!(sign(&Params::new(), "SECRET"), "44c7be48226ebad5dca8216674cad62b");
}

#[test]
fn signature_hashes_utf8_bytes() {
    let p = params(&[("a", "é")]);
    assert_eq!(sign(&p, "zsecret"), "136de06556bf2774439624a9aacf21bd");
    assert_eq!(sign(&p, "zsecret").len(), 32);
}
