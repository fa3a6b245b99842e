use containerd::digest::{is_hex_digit, Digester, ImageDigest};
use containerd::error::ErrorKind;
use containerd::text::chars_of;

const EMPTY: &str = "E3B0C44298FC1C149AFBF4C8996FB92427AE41E4649B934CA495991B7852B855";
const ABC: &str = "BA7816BF8F01CFEA414140DE5DAE2223B00361A396177A9CB410FF61F20015AD";
const HELLO: &str = "B94D27B9934D3E08A52E52D7DA7DABFAC484EFE37A5380EE9088F7ACE2EFCDE9";

#[test]
fn sha256_of_nothing() {
    let d = ImageDigest::new_sha256(b"").unwrap();
    assert_eq!(d.algorithm, "sha256");
    assert_eq!(d.digest, EMPTY);
}

#[test]
fn sha256_of_known_inputs() {
    assert_eq!(ImageDigest::new_sha256(b"abc").unwrap().digest, ABC);
    assert_eq!(ImageDigest::new_sha256(b"hello world").unwrap().digest, HELLO);
}

#[test]
fn digest_text_is_algorithm_colon_hex() {
    let d = ImageDigest::new_sha256(b"abc").unwrap();
    assert_eq!(d.to_string(), format!("sha256:{}", ABC));
}

#[test]
fn digest_round_trip() {
    for data in [&b""[..], &b"abc"[..], &b"hello world"[..], &[0u8, 255, 7, 128][..]] {
        let d = ImageDigest::new_sha256(data).unwrap();
        let parsed = ImageDigest::parse(&d.to_string()).unwrap();
        assert_eq!(parsed, d);
        assert!(parsed.is_valid());
    }
}

#[test]
fn parse_keeps_the_case_of_the_digits() {
    let lower = format!("sha256:{}", ABC.to_lowercase());
    let d = ImageDigest::parse(&lower).unwrap();
    assert_eq!(d.digest, ABC.to_lowercase());
    assert_eq!(d.to_string(), lower);
    assert_ne!(d, ImageDigest::new_sha256(b"abc").unwrap());
}

#[test]
fn parse_rejects_what_is_no_digest() {
    let bad = [
        "".to_owned(),
        "sha256".to_owned(),
        "sha256:".to_owned(),
        format!("sha256{}", ABC),
        format!("sha512:{}", ABC),
        format!("SHA256:{}", ABC),
        format!("sha256:{}", &ABC[1..]),
        format!("sha256:{}0", ABC),
        format!("sha256:{}G", &ABC[1..]),
        format!("sha256:{} ", &ABC[1..]),
        format!(":{}", ABC),
    ];
    for text in bad {
        let e = ImageDigest::parse(&text).unwrap_err();
        assert_eq!(e.kind(), ErrorKind::InvalidArgument, "{}", text);
    }
}

#[test]
fn digests_are_equal_field_by_field() {
    let a = ImageDigest { algorithm: "sha256".to_owned(), digest: ABC.to_owned() };
    let b = ImageDigest { algorithm: "sha256".to_owned(), digest: ABC.to_owned() };
    let c = ImageDigest { algorithm: "sha512".to_owned(), digest: ABC.to_owned() };
    assert_eq!(a, b);
    assert_ne!(a, c);
    assert_eq!(a.clone(), a);
}

#[test]
fn validity_of_digests() {
    assert!(ImageDigest::new_sha256(b"x").unwrap().is_valid());
    assert!(!ImageDigest { algorithm: "sha256".to_owned(), digest: "AB".to_owned() }.is_valid());
    assert!(!ImageDigest { algorithm: "md5".to_owned(), digest: ABC.to_owned() }.is_valid());
    assert!(!ImageDigest { algorithm: "sha256".to_owned(), digest: "".to_owned() }.is_valid());
    assert!(!ImageDigest::unknown().is_valid());
    assert!(ImageDigest::unknown().is_unknown());
    assert!(!ImageDigest::new_sha256(b"x").unwrap().is_unknown());
}

#[test]
fn digester_takes_its_input_in_pieces() {
    let data: Vec<u8> = (0..5000u32).map(|i| (i % 251) as u8).collect();
    let whole = ImageDigest::new_sha256(&data).unwrap();
    let mut digester = Digester::new();
    for chunk in data.chunks(1024) {
        digester.update(chunk).unwrap();
    }
    assert_eq!(digester.len(), 5000);
    assert_eq!(digester.digest(), whole);
    digester.update(b"").unwrap();
    assert_eq!(digester.finish(), whole);
}

#[test]
fn digester_digest_goes_on() {
    let mut digester = Digester::new();
    assert_eq!(digester.digest().digest, EMPTY);
    digester.update(b"hello").unwrap();
    let _ = digester.digest();
    digester.update(b" world").unwrap();
    assert_eq!(digester.digest().digest, HELLO);
    assert_eq!(digester.finish().digest, HELLO);
}

#[test]
fn hex_digits_of_either_case() {
    for c in "0123456789abcdefABCDEF".chars() {
        assert!(is_hex_digit(c), "{}", c);
    }
    for c in "gG/:@`{ -é".chars() {
        assert!(!is_hex_digit(c), "{}", c);
    }
}

#[test]
fn characters_of_a_text() {
    assert_eq!(chars_of(""), Vec::<char>::new());
    assert_eq!(chars_of("aé世😀"), vec!['a', 'é', '世', '😀']);
}
