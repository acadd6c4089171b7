use rrdeep::compare::{classify, compare_rrdeep, score_fields, similarity_of, Similarity};
use rrdeep::distance::{common_prefix, edit_dist, edit_dist_bytes};
use rrdeep::signature_text::{parse, parse_number};

#[test]
fn test_cli_compare_signatures_identical() {
    let score = compare_rrdeep("ABCDEF:ABCDEF:4", "ABCDEF:ABCDEF:4");
    assert_eq!(score, 100);
    assert_eq!(classify(score), Similarity::VerySimilar);
}

#[test]
fn block_sizes_too_far_apart_score_zero() {
    assert_eq!(compare_rrdeep("AB:AB:2", "AB:AB:8"), 0);
    assert_eq!(compare_rrdeep("AB:AB:8", "AB:AB:2"), 0);
    assert_eq!(compare_rrdeep("AAAA:BBBB:4", "CCCC:DDDD:8"), 0);
}

#[test]
fn block_size_zero_scores_zero() {
    assert_eq!(compare_rrdeep("A:B:0", "A:B:0"), 0);
    assert_eq!(compare_rrdeep("A:B:1", "A:B:0"), 0);
    assert_eq!(compare_rrdeep("A:B:0", "A:B:1"), 0);
}

#[test]
fn malformed_signatures_score_zero() {
    assert_eq!(compare_rrdeep("not-a-signature", "AB:AB:2"), 0);
    assert_eq!(compare_rrdeep("A:B", "AB:AB:2"), 0);
    assert_eq!(compare_rrdeep("AB:AB:2", "A:B"), 0);
    assert_eq!(compare_rrdeep("AB:AB:2:2", "AB:AB:2"), 0);
    assert_eq!(compare_rrdeep("AB:AB:x", "AB:AB:2"), 0);
    assert_eq!(compare_rrdeep("AB:AB:", "AB:AB:2"), 0);
    assert_eq!(compare_rrdeep("", ""), 0);
}

#[test]
fn neighbouring_block_sizes_take_the_better_track_less_one() {
    assert_eq!(compare_rrdeep("AB:AB:2", "AB:AB:4"), 100);
    assert_eq!(compare_rrdeep("XY:AB:2", "PQ:AB:4"), 99);
    assert_eq!(compare_rrdeep("XY:AB:2", "PQ:CD:4"), 0);
}

#[test]
fn equal_block_sizes_take_the_mean_and_the_prefix_bonus() {
    assert_eq!(compare_rrdeep("ABCD:ABCD:4", "ABXD:ABCD:4"), 88);
    assert_eq!(compare_rrdeep("ABCDE:A:4", "ABCDX:B:4"), 42);
    assert_eq!(compare_rrdeep("::1", "::1"), 100);
}

#[test]
fn score_is_symmetric_on_examples() {
    let texts = [
        "ABCD:ABCD:4",
        "ABXD:ABCD:4",
        "AB:AB:2",
        "AB:AB:8",
        "Gpslxgkh0hA:Gpslxgkh0hA:1",
        "Dvtwsl0ls5gkpmmlylu0A:Dvtwsl0ls5gkpmmlylu0A:1",
        "broken",
        "::1",
    ];
    for a in texts {
        for b in texts {
            assert_eq!(compare_rrdeep(a, b), compare_rrdeep(b, a));
        }
    }
}

#[test]
fn a_signature_scores_one_hundred_against_itself() {
    for s in ["A:A:1", "ABCDEF:ABCDEF:4", "x:yz:1024", "::1", "A:B:+8"] {
        assert_eq!(compare_rrdeep(s, s), 100);
    }
    assert_eq!(compare_rrdeep("A:A:+4", "A:A:04"), 100);
}

#[test]
fn characters_beyond_ascii_count_by_their_bytes() {
    assert_eq!(compare_rrdeep("é:é:1", "e:e:1"), 0);
    assert_eq!(compare_rrdeep("ééééé:x:1", "éééé:x:1"), 92);
}

#[test]
fn score_from_fields() {
    assert_eq!(score_fields("ABCD", "ABCD", 4, "ABXD", "ABCD", 4), 88);
    assert_eq!(score_fields("AB", "AB", 2, "AB", "AB", 8), 0);
    assert_eq!(score_fields("AB", "AB", u64::MAX, "AB", "AB", u64::MAX), 100);
    assert_eq!(score_fields("AB", "AB", u64::MAX, "AB", "AB", 1 << 63), 100);
    assert_eq!(score_fields("AB", "AB", u64::MAX, "AB", "AB", (1 << 63) - 1), 0);
}

#[test]
fn similarity_is_a_rounded_down_percentage() {
    assert_eq!(similarity_of("", ""), 100);
    assert_eq!(similarity_of("abc", ""), 0);
    assert_eq!(similarity_of("kitten", "sitting"), 57);
    assert_eq!(similarity_of("abc", "abd"), 66);
}

#[test]
fn edit_distance_examples() {
    assert_eq!(edit_dist("kitten", "sitting"), 3);
    assert_eq!(edit_dist("flaw", "lawn"), 2);
    assert_eq!(edit_dist("", "abc"), 3);
    assert_eq!(edit_dist("abc", ""), 3);
    assert_eq!(edit_dist("", ""), 0);
    assert_eq!(edit_dist("same", "same"), 0);
    assert_eq!(edit_dist_bytes(&[1, 2, 3], &[3, 2, 1]), 2);
}

#[test]
fn common_prefix_examples() {
    assert_eq!(common_prefix("", ""), 0);
    assert_eq!(common_prefix("abc", ""), 0);
    assert_eq!(common_prefix("abc", "abd"), 2);
    assert_eq!(common_prefix("abc", "abcdef"), 3);
    assert_eq!(common_prefix("xbc", "abc"), 0);
    assert_eq!(common_prefix("éa", "éb"), 1);
}

#[test]
fn parse_splits_at_two_colons() {
    assert_eq!(parse("AB:CD:4"), Some(("AB".to_string(), "CD".to_string(), 4)));
    assert_eq!(parse("::0"), Some((String::new(), String::new(), 0)));
    assert_eq!(parse("a b:é:16"), Some(("a b".to_string(), "é".to_string(), 16)));
    assert_eq!(parse("AB:CD"), None);
    assert_eq!(parse("AB"), None);
    assert_eq!(parse(""), None);
    assert_eq!(parse("A:B:4:"), None);
    assert_eq!(parse("A:B:C:4"), None);
    assert_eq!(parse("A:B:"), None);
    assert_eq!(parse("A:B: 4"), None);
    assert_eq!(parse("A:B:-4"), None);
}

#[test]
fn parse_number_reads_decimal() {
    assert_eq!(parse_number("0"), Some(0));
    assert_eq!(parse_number("42"), Some(42));
    assert_eq!(parse_number("+42"), Some(42));
    assert_eq!(parse_number("0042"), Some(42));
    assert_eq!(parse_number("18446744073709551615"), Some(u64::MAX));
    assert_eq!(parse_number("18446744073709551616"), None);
    assert_eq!(parse_number("99999999999999999999999"), None);
    assert_eq!(parse_number("000000000000000000000000007"), Some(7));
    assert_eq!(parse_number(""), None);
    assert_eq!(parse_number("+"), None);
    assert_eq!(parse_number("-"), None);
    assert_eq!(parse_number("-1"), None);
    assert_eq!(parse_number("++1"), None);
    assert_eq!(parse_number("1+"), None);
    assert_eq!(parse_number("4a"), None);
    assert_eq!(parse_number("٤"), None);
}

#[test]
fn parse_number_agrees_with_the_standard_library() {
    for s in ["0", "7", "+7", "-7", "", "+", "1_000", "12 ", " 12", "0x10", "18446744073709551615",
        "18446744073709551616", "+0018446744073709551615"]
    {
        assert_eq!(parse_number(s), s.parse::<u64>().ok());
    }
}

#[test]
fn verdicts_follow_the_thresholds() {
    assert_eq!(classify(100), Similarity::VerySimilar);
    assert_eq!(classify(80), Similarity::VerySimilar);
    assert_eq!(classify(79), Similarity::Similar);
    assert_eq!(classify(50), Similarity::Similar);
    assert_eq!(classify(49), Similarity::Different);
    assert_eq!(classify(0), Similarity::Different);
}

#[test]
fn verdicts_in_words() {
    assert_eq!(classify(93).label(), "Very Similar");
    assert_eq!(classify(64).label(), "Similar");
    assert_eq!(classify(23).label(), "Different");
}

#[test]
fn characters_of_a_string() {
    assert_eq!(rrdeep::chars::chars_of(""), Vec::<char>::new());
    assert_eq!(rrdeep::chars::chars_of("a:é"), vec!['a', ':', 'é']);
}
