use rrdeep::block_size::{derive_bs, finer_bs};
use rrdeep::compare::{classify, compare_rrdeep, Similarity};
use rrdeep::piece::{b64, Simple};
use rrdeep::rolling::Rolling;
use rrdeep::signature::{compute_signature, SignatureBuilder};
use rrdeep::signature_text::format_signature;
use rrdeep::track::Track;

fn noise(n: usize, seed: u32) -> Vec<u8> {
    let mut x: u32 = seed;
    let mut out = Vec::new();
    for _ in 0..n {
        x = x.wrapping_mul(1103515245).wrapping_add(12345) & 0x7fff_ffff;
        out.push(((x >> 16) & 0xff) as u8);
    }
    out
}

#[test]
fn test_cli_compare_files_identical() {
    let sig1 = compute_signature(b"Hello rrdeep");
    let sig2 = compute_signature(b"Hello rrdeep");
    assert_eq!(sig1, "IlssvgyykllwA:IlssvgyykllwA:1");
    assert_eq!(sig1, sig2);
    let score = compare_rrdeep(&sig1, &sig2);
    assert_eq!(score, 100);
    assert_eq!(classify(score), Similarity::VerySimilar);
}

#[test]
fn test_cli_compare_files_different() {
    let sig1 = compute_signature(b"File1 data");
    let sig2 = compute_signature(b"Completely different");
    assert_eq!(sig1, "Gpslxgkh0hA:Gpslxgkh0hA:1");
    assert_eq!(sig2, "Dvtwsl0ls5gkpmmlylu0A:Dvtwsl0ls5gkpmmlylu0A:1");
    let score = compare_rrdeep(&sig1, &sig2);
    assert_eq!(score, 23);
    assert_eq!(classify(score), Similarity::Different);
}

#[test]
fn empty_input_has_the_fixed_signature() {
    assert_eq!(compute_signature(b""), "3:3:1");
    let mut builder = SignatureBuilder::new(0);
    builder.update(b"ignored");
    assert_eq!(builder.finish().to_text(), "3:3:1");
}

#[test]
fn block_size_is_the_smallest_power_of_two_that_covers() {
    assert_eq!(derive_bs(0), 1);
    assert_eq!(derive_bs(1), 1);
    assert_eq!(derive_bs(64), 1);
    assert_eq!(derive_bs(65), 2);
    assert_eq!(derive_bs(128), 2);
    assert_eq!(derive_bs(129), 4);
    assert_eq!(derive_bs(300), 8);
    assert_eq!(derive_bs(1 << 20), 16384);
    assert_eq!(derive_bs((1 << 20) + 1), 32768);
}

#[test]
fn block_size_grows_with_the_input() {
    let mut last: u64 = 1;
    for size in 0..5000usize {
        let b = derive_bs(size);
        assert!(b.is_power_of_two());
        assert!(b >= last);
        assert!((b as usize) * 64 >= size);
        assert!(b == 1 || ((b / 2) as usize) * 64 < size);
        last = b;
    }
}

#[test]
fn block_size_of_the_largest_input() {
    let b = derive_bs(usize::MAX);
    assert!(b.is_power_of_two());
    assert!((b as u128) * 64 >= usize::MAX as u128);
    assert!(((b / 2) as u128) * 64 < usize::MAX as u128);
}

#[test]
fn finer_block_size_is_half_and_at_least_one() {
    assert_eq!(finer_bs(1), 1);
    assert_eq!(finer_bs(2), 1);
    assert_eq!(finer_bs(8), 4);
    assert_eq!(finer_bs(16384), 8192);
}

#[test]
fn symbols_follow_the_alphabet() {
    let alphabet: Vec<char> =
        "ABCDEFGHIJKLMNOPQRSTUVWXYZabcdefghijklmnopqrstuvwxyz0123456789+/".chars().collect();
    for x in 0..=255u8 {
        assert_eq!(b64(x), alphabet[(x % 64) as usize]);
    }
}

#[test]
fn rolling_digest_while_the_window_fills_and_after() {
    let expected: [u64; 10] = [194, 682, 1468, 2556, 3950, 5654, 7672, 8352, 9038, 9730];
    let mut r = Rolling::new();
    assert_eq!(r.digest(), 0);
    for (k, b) in b"abcdefghij".iter().enumerate() {
        r.roll(*b);
        assert_eq!(r.digest(), expected[k]);
    }
}

#[test]
fn rolling_digest_of_twenty_high_bytes() {
    let mut r = Rolling::new();
    for _ in 0..20 {
        r.roll(255);
    }
    assert_eq!(r.digest(), 39525);
}

#[test]
fn piece_hash_wraps_and_picks_a_symbol() {
    let mut s = Simple::new();
    assert_eq!(s.c(), 'A');
    for b in b"abc" {
        s.update(*b);
    }
    assert_eq!(s.c(), 'y');
    let mut t = Simple::new();
    for _ in 0..10 {
        t.update(255);
    }
    assert_eq!(t.c(), 'c');
}

#[test]
fn track_emits_one_symbol_per_cut_and_one_at_the_end() {
    let mut t = Track::new(1);
    for b in b"Hello rrdeep" {
        t.feed(*b);
    }
    let symbols: String = t.into_symbols().into_iter().collect();
    assert_eq!(symbols, "IlssvgyykllwA");
}

#[test]
fn track_without_bytes_gives_one_symbol() {
    let t = Track::new(4);
    assert_eq!(t.into_symbols(), vec!['A']);
}

#[test]
fn tracks_are_cut_to_sixty_four_symbols() {
    let data: Vec<u8> = (0..200u32).map(|i| ((i * 7 + 3) % 256) as u8).collect();
    let mut builder = SignatureBuilder::new(1);
    builder.update(&data);
    let sig = builder.finish();
    assert_eq!(sig.first.len(), 64);
    assert_eq!(sig.second.len(), 64);
    assert_eq!(sig.block_size, 1);
    let half = "DKRYfmt07CJQXelsz6BIPWdkry5AHOVcjqx4/GNUbipw3+FMTahov29ELSZgnu18";
    assert_eq!(sig.to_text(), format!("{}:{}:1", half, half));
}

#[test]
fn signature_with_coarser_blocks() {
    assert_eq!(compute_signature(&noise(300, 1)), "us:us:8");
    assert_eq!(compute_signature(&noise(300, 99)), "NL:NUJk:8");
    assert_eq!(
        compute_signature(&noise(5000, 7)),
        "4/DOKmsuZarfO0n25XKHC0IHTQteC4A9zvD1aWrA/Sztue8tbBFAQ9O255/Prir6:\
44R3nBjCDOsemQcw+Zi0PW/PBXpqJa9uPLnzd5G97Lv7k99csPC0Inid0QtSoamC:128"
    );
}

#[test]
fn signature_at_the_block_size_boundary() {
    let head = "TD94O0N3IvtG9ZlwkM7gjY8406MxVcv1yST+TRjsFtMpJZN9/cBwRVsjgwHtukM2";
    assert_eq!(compute_signature(&noise(64, 3)), format!("{}:{}:1", head, head));
    assert_eq!(
        compute_signature(&noise(65, 3)),
        format!("s94O0N3IvtG9ZlwkM7gjY8406MxVcv1yST+TRjsFtMpJZN9/cBwRVsjgwHtukM2Q:{}:2", head)
    );
}

#[test]
fn chunking_does_not_change_the_signature() {
    let data = noise(5000, 7);
    let whole = compute_signature(&data);
    for step in [1usize, 2, 7, 64, 1000, 4999, 5000] {
        let mut builder = SignatureBuilder::new(data.len());
        for chunk in data.chunks(step) {
            builder.update(chunk);
        }
        builder.update(&[]);
        assert_eq!(builder.finish().to_text(), whole);
    }
}

#[test]
fn same_bytes_give_the_same_signature() {
    let a = noise(777, 5);
    let b = a.clone();
    assert_eq!(compute_signature(&a), compute_signature(&b));
}

#[test]
fn a_small_edit_changes_the_score() {
    let a = noise(300, 1);
    let mut b = a.clone();
    b[150] ^= 0x55;
    let sa = compute_signature(&a);
    let sb = compute_signature(&b);
    assert_eq!(sb, "uF:uF:8");
    assert_eq!(compare_rrdeep(&sa, &sb), 50);
    assert_eq!(classify(50), Similarity::Similar);
}

#[test]
fn signature_text_has_three_fields() {
    let first = vec!['A', 'b', '+'];
    let second = vec!['/'];
    assert_eq!(format_signature(&first, &second, 0), "Ab+:/:0");
    assert_eq!(format_signature(&first, &second, 7), "Ab+:/:7");
    assert_eq!(format_signature(&first, &second, 1024), "Ab+:/:1024");
    assert_eq!(format_signature(&second, &first, u64::MAX), "/:Ab+:18446744073709551615");
    assert_eq!(format_signature(&Vec::new(), &Vec::new(), 10), "::10");
}
