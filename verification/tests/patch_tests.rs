use lol_scrim_exporter::patch::{normalize, patch_matches};

#[test]
fn patch_matches_on_leading_segments() {
    assert!(patch_matches("14.3.1", "14.3"));
    assert!(!patch_matches("14.3.1", "14.4"));
}

#[test]
fn patch_matches_compares_two_segments_at_most() {
    assert!(patch_matches("14.3.1", "14.3.9"));
    assert!(patch_matches("14.3", "14.3.0.0"));
    assert!(!patch_matches("14.3.1", "15.3.1"));
}

#[test]
fn patch_matches_compares_the_common_prefix_of_short_patches() {
    assert!(patch_matches("14", "14.9"));
    assert!(patch_matches("14.9", "14"));
    assert!(!patch_matches("13", "14.9"));
}

#[test]
fn patch_segment_that_is_no_number_counts_as_zero() {
    assert!(patch_matches("None", "0.0"));
    assert!(patch_matches("latest", "0"));
    assert!(patch_matches("14.x", "14.0"));
    assert!(!patch_matches("None", "14.3"));
    assert!(patch_matches("", "0"));
}

#[test]
fn patch_segment_may_carry_a_plus_and_leading_zeros() {
    assert!(patch_matches("+14.03", "14.3"));
    assert!(patch_matches("14.+", "14.0"));
    assert!(patch_matches("-14.3", "0.3"));
}

#[test]
fn patch_segment_beyond_32_bits_counts_as_zero() {
    assert!(patch_matches("4294967295.1", "4294967295.1"));
    assert!(patch_matches("4294967296.1", "0.1"));
    assert!(patch_matches("99999999999999999999999.1", "0.1"));
}

#[test]
fn normalize_gives_one_number_for_each_segment() {
    assert_eq!(normalize("14.3.1"), vec![14, 3, 1]);
    assert_eq!(normalize(""), vec![0]);
    assert_eq!(normalize("."), vec![0, 0]);
    assert_eq!(normalize("1..2"), vec![1, 0, 2]);
    assert_eq!(normalize("7."), vec![7, 0]);
    assert_eq!(normalize("4294967295"), vec![4294967295]);
    assert_eq!(normalize("4294967296"), vec![0]);
    assert_eq!(normalize("1 .2"), vec![0, 2]);
}

#[test]
fn normalize_agrees_with_the_standard_parser() {
    let samples = ["14.3.1", "", "+5", "-5", "+", "007", "a.b", "1e3", "12.٣", "4294967296", "1.2.3.4.5"];
    for sample in samples {
        let expected: Vec<u32> = sample.split('.').map(|part| part.parse::<u32>().unwrap_or(0)).collect();
        assert_eq!(normalize(sample), expected);
    }
}
