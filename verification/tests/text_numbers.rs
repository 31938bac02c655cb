use yroz::levenshtein::{edit_distance_chars, levenshtein};
use yroz::numfmt::{decimal_string, mb_string, parse_uint_slice, size_string};
use yroz::text::chars_of;
use yroz::update::{find_download_url, release_download};

fn expected_size(bytes: u64) -> String {
    if bytes > 1024 * 1024 {
        format!("{:.2} MB", bytes as f64 / (1024.0 * 1024.0))
    } else if bytes > 1024 {
        format!("{:.2} KB", bytes as f64 / 1024.0)
    } else {
        format!("{} B", bytes)
    }
}

#[test]
fn decimal_text() {
    assert_eq!(decimal_string(0), "0");
    assert_eq!(decimal_string(7), "7");
    assert_eq!(decimal_string(12345), "12345");
    assert_eq!(decimal_string(u128::MAX), u128::MAX.to_string());
}

#[test]
fn unsigned_parse() {
    let p = |s: &str, max: u128| parse_uint_slice(&chars_of(s), max);
    assert_eq!(p("42", 100), Some(42));
    assert_eq!(p("+42", 100), Some(42));
    assert_eq!(p("007", 100), Some(7));
    assert_eq!(p("101", 100), None);
    assert_eq!(p("", 100), None);
    assert_eq!(p("+", 100), None);
    assert_eq!(p("-1", 100), None);
    assert_eq!(p("1a", 100), None);
    assert_eq!(p("18446744073709551615", u64::MAX as u128), Some(u64::MAX as u128));
    assert_eq!(p("18446744073709551616", u64::MAX as u128), None);
}

#[test]
fn size_text_small_values() {
    assert_eq!(size_string(0), "0 B");
    assert_eq!(size_string(1024), "1024 B");
    assert_eq!(size_string(1025), "1.00 KB");
    assert_eq!(size_string(1536), "1.50 KB");
    assert_eq!(size_string(1048576), "1024.00 KB");
    assert_eq!(size_string(1048577), "1.00 MB");
    assert_eq!(size_string(1699980), "1.62 MB");
}

#[test]
fn size_text_matches_float_formatting() {
    let mut b: u64 = 0;
    while b < 200_000 {
        assert_eq!(size_string(b), expected_size(b), "bytes = {}", b);
        b += 1;
    }
    let mut b: u64 = 1_000_000;
    while b < 1_200_000 {
        assert_eq!(size_string(b), expected_size(b), "bytes = {}", b);
        b += 1;
    }
    let mut x: u64 = 12345;
    for _ in 0..200_000 {
        x = x.wrapping_mul(6364136223846793005).wrapping_add(1442695040888963407);
        let b = x >> (x % 64);
        assert_eq!(size_string(b), expected_size(b), "bytes = {}", b);
    }
    for k in 0..64u32 {
        let p = 1u64 << k;
        for b in [p.wrapping_sub(1), p, p.wrapping_add(1), p.wrapping_mul(3) / 2] {
            assert_eq!(size_string(b), expected_size(b), "bytes = {}", b);
        }
    }
    for b in [u64::MAX, u64::MAX - 1, (1u64 << 53) + 1, (1u64 << 54) + 3, 9_007_199_254_740_993] {
        assert_eq!(size_string(b), expected_size(b), "bytes = {}", b);
    }
}

#[test]
fn mb_text_matches_float_formatting() {
    let mut x: u64 = 987654321;
    for _ in 0..100_000 {
        x = x.wrapping_mul(6364136223846793005).wrapping_add(1442695040888963407);
        let b = x >> (x % 64);
        assert_eq!(mb_string(b), format!("{:.2} MB", b as f64 / (1024.0 * 1024.0)), "bytes = {}", b);
    }
    assert_eq!(mb_string(0), "0.00 MB");
    assert_eq!(mb_string(5242880), "5.00 MB");
    assert_eq!(mb_string(u64::MAX), format!("{:.2} MB", u64::MAX as f64 / (1024.0 * 1024.0)));
}

#[test]
fn edit_distances() {
    assert_eq!(levenshtein("kitten", "sitting"), 3);
    assert_eq!(levenshtein("", "abc"), 3);
    assert_eq!(levenshtein("abc", ""), 3);
    assert_eq!(levenshtein("abc", "abc"), 0);
    assert_eq!(levenshtein("obsidain", "obsidian"), 2);
    assert_eq!(levenshtein("日本", "abc"), 3);
    assert_eq!(levenshtein("abc", "日本"), 6);
    assert_eq!(edit_distance_chars(&chars_of("日本"), &chars_of("日文")), 1);
    assert_eq!(edit_distance_chars(&chars_of("flaw"), &chars_of("lawn")), 2);
}


#[test]
fn release_download_address() {
    let resp = "{\n  \"assets\": [\n    {\n      \"name\": \"yroz\",\n      \"browser_download_url\": \"https://github.com/yrozxm/Yroz-cli/releases/download/v0.2.0/yroz\",\n    }\n  ]\n}\n";
    assert_eq!(
        find_download_url(resp).as_deref(),
        Some("https://github.com/yrozxm/Yroz-cli/releases/download/v0.2.0/yroz")
    );
    let first_without_https = "\"browser_download_url\": \"ftp://x\"\n\"browser_download_url\": \"https://a/b\"\n";
    assert_eq!(find_download_url(first_without_https).as_deref(), Some("https://a/b"));
    assert_eq!(find_download_url("{\"message\": \"Not Found\"}"), None);
}

#[test]
fn decimal_text_reads_back() {
    let mut x: u64 = 1;
    for _ in 0..10_000 {
        x = x.wrapping_mul(2862933555777941757).wrapping_add(3037000493);
        let n = (x >> (x % 64)) as u128;
        assert_eq!(parse_uint_slice(&chars_of(&decimal_string(n)), u64::MAX as u128), Some(n));
    }
}

#[test]
fn edit_distance_laws_on_examples() {
    let words = ["", "a", "ab", "krita", "kdenlive", "obsidian", "obsidain", "gimp"];
    for a in words {
        assert_eq!(levenshtein(a, a), 0);
        for b in words {
            let d = levenshtein(a, b);
            assert_eq!(d, levenshtein(b, a));
            assert!(d <= a.len().max(b.len()));
            assert!(d >= (a.len() as i64 - b.len() as i64).unsigned_abs() as usize);
        }
    }
}

#[test]
fn self_update_download_or_error() {
    assert_eq!(release_download("\"browser_download_url\": \"https://a/b\",\n"), Ok("https://a/b".to_string()));
    assert_eq!(
        release_download("{\"message\": \"Not Found\"}"),
        Err("Nenhuma release pública ou binário disponível encontrado no GitHub para auto-atualização.".to_string())
    );
}

#[test]
fn zero_distance_only_for_equal_texts() {
    for (a, b) in [("abc", "abc"), ("abc", "abd"), ("", ""), ("a", "")] {
        assert_eq!(levenshtein(a, b) == 0, a == b);
    }
}
