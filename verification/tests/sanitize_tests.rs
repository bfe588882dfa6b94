use ros2_relay::sanitize::{checksum_of_bytes, sanitize_and_checksum};

/// Independent reimplementation of the rolling byte checksum, for expected
/// values.
fn rolling_checksum(bytes: &[u8]) -> u64 {
    let mut sum: u64 = 0;
    for &b in bytes {
        sum = (sum * 31 + b as u64) % 1_000_000_007;
    }
    sum
}

fn is_identifier_char(c: char) -> bool {
    c.is_ascii_alphanumeric() || c == '_'
}

#[test]
fn keeps_ascii_alphanumerics() {
    let expected = format!("ros2_hello{}", rolling_checksum(b"hello"));
    assert_eq!(sanitize_and_checksum("hello"), expected);
}

#[test]
fn exact_value_single_letter() {
    // 'a' is byte 97, so the checksum of "a" is 97.
    assert_eq!(sanitize_and_checksum("a"), "ros2_a97");
}

#[test]
fn exact_value_empty_input() {
    // The empty input sanitizes to an empty segment with checksum 0.
    assert_eq!(sanitize_and_checksum(""), "ros2_0");
}

#[test]
fn replaces_every_special_character() {
    let expected = format!("ros2_a_b_c{}", rolling_checksum(b"a.b/c"));
    assert_eq!(sanitize_and_checksum("a.b/c"), expected);
}

#[test]
fn keeps_underscores() {
    let expected = format!("ros2_a_b{}", rolling_checksum(b"a_b"));
    assert_eq!(sanitize_and_checksum("a_b"), expected);
}

#[test]
fn multibyte_characters_collapse_one_to_one() {
    // One non-ASCII character becomes exactly one underscore, not one
    // underscore per storage byte.
    let expected = format!("ros2__{}", rolling_checksum("é".as_bytes()));
    assert_eq!(sanitize_and_checksum("é"), expected);
}

#[test]
fn output_shape_holds_for_arbitrary_inputs() {
    let inputs = [
        "",
        "plain",
        "héllo wörld",
        "日本語のテキスト",
        "with spaces and /slashes/",
        "MiXeD123_case-name.suffix",
    ];
    for input in inputs {
        let out = sanitize_and_checksum(input);
        assert!(out.starts_with("ros2_"), "missing prefix: {out}");
        assert!(out.chars().all(is_identifier_char), "bad character in {out}");
        assert!(out.chars().count() <= 256, "too long: {out}");
    }
}

#[test]
fn deterministic_across_calls() {
    let inputs = ["", "a", "service.name", "日本語"];
    for input in inputs {
        assert_eq!(sanitize_and_checksum(input), sanitize_and_checksum(input));
    }
}

#[test]
fn short_distinguishable_inputs_never_collide() {
    let inputs = ["", "a", "b", "A", "1", "ab", "ba", "a_b", "a.b", "a-b"];
    let outputs: Vec<String> = inputs.iter().map(|s| sanitize_and_checksum(s)).collect();
    for i in 0..outputs.len() {
        for j in 0..outputs.len() {
            if i != j {
                assert_ne!(
                    outputs[i], outputs[j],
                    "collision between {:?} and {:?}",
                    inputs[i], inputs[j]
                );
            }
        }
    }
}

#[test]
fn same_sanitized_segment_distinguished_by_checksum() {
    // "a_b" and "a.b" sanitize to the same segment; only the byte checksum
    // keeps them apart.
    let left = sanitize_and_checksum("a_b");
    let right = sanitize_and_checksum("a.b");
    assert_eq!(&left[..8], "ros2_a_b");
    assert_eq!(&right[..8], "ros2_a_b");
    assert_ne!(left, right);
}

#[test]
fn checksum_runs_over_raw_bytes() {
    // A multi-byte character checksums over its full byte sequence: every
    // byte-truncated prefix gives a different checksum.
    let bytes = "é".as_bytes();
    assert_eq!(bytes.len(), 2);
    let full = checksum_of_bytes(bytes);
    let truncated = checksum_of_bytes(&bytes[..1]);
    assert_ne!(full, truncated);
    assert_eq!(full, rolling_checksum(bytes));
}

#[test]
fn checksum_empty_is_zero() {
    assert_eq!(checksum_of_bytes(b""), 0);
}

#[test]
fn truncation_of_long_non_ascii_input() {
    // 1000 non-ASCII characters sanitize to an all-underscore segment that
    // is truncated so prefix + segment + checksum is exactly 256 chars.
    let input = "€".repeat(1000);
    let checksum = rolling_checksum(input.as_bytes()).to_string();
    let budget = 256 - 5 - checksum.len();
    let expected = format!("ros2_{}{}", "_".repeat(budget), checksum);
    let out = sanitize_and_checksum(&input);
    assert_eq!(out, expected);
    assert_eq!(out.chars().count(), 256);
}

#[test]
fn truncation_of_long_ascii_input() {
    let input = "x".repeat(300);
    let checksum = rolling_checksum(input.as_bytes()).to_string();
    let budget = 256 - 5 - checksum.len();
    let expected = format!("ros2_{}{}", "x".repeat(budget), checksum);
    let out = sanitize_and_checksum(&input);
    assert_eq!(out, expected);
    assert_eq!(out.len(), 256);
}

#[test]
fn short_inputs_are_not_truncated() {
    let input = "q".repeat(240);
    let out = sanitize_and_checksum(&input);
    let checksum = rolling_checksum(input.as_bytes()).to_string();
    assert_eq!(out, format!("ros2_{input}{checksum}"));
}
