use icp_backend::codec::{record_fits, MAX_VALUE_SIZE};
use icp_backend::profile::UserProfile;

fn sample() -> UserProfile {
    UserProfile {
        principal_id: "ab".to_string(),
        full_name: Some("Z".to_string()),
        email: None,
        role: "user".to_string(),
        created_at: 1,
        last_login: 258,
        is_active: true,
    }
}

fn with_name_of(len: usize) -> UserProfile {
    UserProfile {
        principal_id: "a".to_string(),
        full_name: Some("n".repeat(len)),
        email: None,
        role: "user".to_string(),
        created_at: 0,
        last_login: 0,
        is_active: true,
    }
}

#[test]
fn encode_lays_fields_out_in_order() {
    let bytes = sample().encode().expect("a small profile fits");
    let expected: Vec<u8> = vec![
        2, 0, 97, 98, // "ab"
        1, 1, 0, 90, // Some("Z")
        0, // None
        4, 0, 117, 115, 101, 114, // "user"
        1, 0, 0, 0, 0, 0, 0, 0, // 1
        2, 1, 0, 0, 0, 0, 0, 0, // 258
        1, // active
    ];
    assert_eq!(bytes, expected);
}

#[test]
fn decode_undoes_encode() {
    let profile = sample();
    let bytes = profile.encode().unwrap();
    assert_eq!(UserProfile::decode(&bytes), Some(profile));
}

#[test]
fn decode_undoes_encode_for_every_shape_of_optional_fields() {
    for full_name in [None, Some("Ann".to_string()), Some(String::new())] {
        for email in [None, Some("a@x.com".to_string())] {
            for is_active in [false, true] {
                let profile = UserProfile {
                    principal_id: "rdmx6-jaaaa-aaaaa-aaadq-cai".to_string(),
                    full_name: full_name.clone(),
                    email: email.clone(),
                    role: "admin".to_string(),
                    created_at: u64::MAX,
                    last_login: 1_700_000_000_000_000_000,
                    is_active,
                };
                let bytes = profile.encode().unwrap();
                assert_eq!(UserProfile::decode(&bytes), Some(profile));
            }
        }
    }
}

#[test]
fn decode_undoes_encode_for_text_beyond_ascii() {
    let profile = UserProfile {
        principal_id: "jos\u{e9}".to_string(),
        full_name: Some("\u{5f20}\u{4f1f} \u{1f600}".to_string()),
        email: Some("\u{fc}ber@example.org".to_string()),
        role: "user".to_string(),
        created_at: 5,
        last_login: 6,
        is_active: true,
    };
    let bytes = profile.encode().unwrap();
    // "josé" is four characters and five bytes.
    assert_eq!(&bytes[..7], &[5, 0, 106, 111, 115, 0xc3, 0xa9]);
    assert_eq!(UserProfile::decode(&bytes), Some(profile));
}

#[test]
fn a_record_of_exactly_the_bound_fits() {
    let profile = with_name_of(994);
    assert!(profile.fits());
    let bytes = profile.encode().unwrap();
    assert_eq!(bytes.len(), MAX_VALUE_SIZE);
    assert_eq!(bytes.len(), 1024);
    assert_eq!(UserProfile::decode(&bytes), Some(profile));
}

#[test]
fn a_record_one_byte_over_the_bound_does_not_fit() {
    let profile = with_name_of(995);
    assert!(!profile.fits());
    assert_eq!(profile.encode(), None);
}

#[test]
fn a_huge_text_does_not_fit() {
    let profile = with_name_of(70_000);
    assert!(!profile.fits());
    assert_eq!(profile.encode(), None);
}

#[test]
fn record_fits_counts_the_four_texts() {
    let none: Option<String> = None;
    assert!(record_fits("a", &Some("n".repeat(994)), &none, "user"));
    assert!(!record_fits("a", &Some("n".repeat(995)), &none, "user"));
    // An email that is present costs its two length bytes as well.
    assert!(record_fits("a", &Some("n".repeat(992)), &Some(String::new()), "user"));
    assert!(!record_fits("a", &Some("n".repeat(993)), &Some(String::new()), "user"));
    assert!(record_fits("", &none, &none, ""));
}

#[test]
fn decode_rejects_a_record_cut_short() {
    let bytes = sample().encode().unwrap();
    for len in 0..bytes.len() {
        assert_eq!(UserProfile::decode(&bytes[..len]), None, "prefix of {} bytes", len);
    }
}

#[test]
fn decode_rejects_trailing_bytes() {
    let mut bytes = sample().encode().unwrap();
    bytes.push(0);
    assert_eq!(UserProfile::decode(&bytes), None);
}

#[test]
fn decode_rejects_a_tag_other_than_zero_or_one() {
    let good = sample().encode().unwrap();
    let mut bad_option = good.clone();
    bad_option[4] = 2;
    assert_eq!(UserProfile::decode(&bad_option), None);
    let mut bad_flag = good.clone();
    let last = bad_flag.len() - 1;
    bad_flag[last] = 2;
    assert_eq!(UserProfile::decode(&bad_flag), None);
}

#[test]
fn decode_rejects_text_that_is_not_utf8() {
    let mut bytes = sample().encode().unwrap();
    bytes[2] = 0xff;
    assert_eq!(UserProfile::decode(&bytes), None);
}

#[test]
fn decode_rejects_a_length_that_runs_past_the_end() {
    let mut bytes = sample().encode().unwrap();
    bytes[0] = 200;
    assert_eq!(UserProfile::decode(&bytes), None);
}

#[test]
fn decode_rejects_bytes_over_the_bound() {
    let bytes = vec![0u8; 1025];
    assert_eq!(UserProfile::decode(&bytes), None);
}

#[test]
fn decode_reads_the_flag() {
    let mut profile = sample();
    profile.is_active = false;
    let bytes = profile.encode().unwrap();
    assert_eq!(*bytes.last().unwrap(), 0);
    assert_eq!(UserProfile::decode(&bytes).unwrap().is_active, false);
}
