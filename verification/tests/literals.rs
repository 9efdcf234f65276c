use pidpro::literal::{format_i64, is_real, parse_bool, parse_i32};
use pidpro::text::{chars_of, ends_with, eq_ignore_ascii_case, str_eq};

fn words(alphabet: &[char], longest: usize) -> Vec<String> {
    let mut all = vec![String::new()];
    let mut last = vec![String::new()];
    for _ in 0..longest {
        let mut next = Vec::new();
        for w in &last {
            for c in alphabet {
                let mut longer = w.clone();
                longer.push(*c);
                next.push(longer);
            }
        }
        all.extend(next.iter().cloned());
        last = next;
    }
    all
}

#[test]
fn integers_are_read_as_the_language_reads_them() {
    for w in words(&['+', '-', '0', '1', '9', ' ', 'a', '.'], 5) {
        assert_eq!(parse_i32(&w), w.parse::<i32>().ok(), "for {:?}", w);
    }
}

#[test]
fn integers_at_the_edge_of_32_bits() {
    assert_eq!(parse_i32("2147483647"), Some(2147483647));
    assert_eq!(parse_i32("+2147483647"), Some(2147483647));
    assert_eq!(parse_i32("2147483648"), None);
    assert_eq!(parse_i32("-2147483648"), Some(-2147483648));
    assert_eq!(parse_i32("-2147483649"), None);
    assert_eq!(parse_i32("00000000000000000000000000000012"), Some(12));
    assert_eq!(parse_i32("99999999999999999999999999999999"), None);
    assert_eq!(parse_i32("-0"), Some(0));
    assert_eq!(parse_i32(""), None);
    assert_eq!(parse_i32("+"), None);
    assert_eq!(parse_i32("-"), None);
    assert_eq!(parse_i32("--1"), None);
    assert_eq!(parse_i32("1 "), None);
    assert_eq!(parse_i32("١٢"), None);
    assert_eq!(parse_i32("42"), Some(42));
    assert_eq!(parse_i32("abc"), None);
}

#[test]
fn reals_are_recognised_as_the_language_reads_them() {
    for w in words(&['+', '-', '.', 'e', 'E', '0', '7', 'x'], 6) {
        assert_eq!(is_real(&w), w.parse::<f64>().is_ok(), "for {:?}", w);
    }
}

#[test]
fn special_reals_are_recognised_in_any_case() {
    for w in words(&['i', 'n', 'f', 'N', 'a', 'A', '-', 't', 'y'], 5) {
        assert_eq!(is_real(&w), w.parse::<f64>().is_ok(), "for {:?}", w);
    }
    for w in ["infinity", "INFINITY", "-Infinity", "+infinity", "infinit", "infinityy", "nan", "-NaN", "+nan", "nano"] {
        assert_eq!(is_real(w), w.parse::<f64>().is_ok(), "for {:?}", w);
    }
}

#[test]
fn some_reals_by_hand() {
    assert!(is_real("65.0"));
    assert!(is_real("70"));
    assert!(is_real(".5"));
    assert!(is_real("5."));
    assert!(is_real("-1.25e-3"));
    assert!(is_real("1E+10"));
    assert!(is_real("inf"));
    assert!(!is_real(""));
    assert!(!is_real("."));
    assert!(!is_real("e5"));
    assert!(!is_real("1e"));
    assert!(!is_real("1e+"));
    assert!(!is_real("1.2.3"));
    assert!(!is_real(" 1"));
    assert!(!is_real("1,5"));
    assert!(!is_real("fast"));
    assert!(!is_real("٣.٥"));
}

#[test]
fn boolean_tokens() {
    assert_eq!(parse_bool("1"), Some(true));
    assert_eq!(parse_bool("0"), Some(false));
    assert_eq!(parse_bool("true"), Some(true));
    assert_eq!(parse_bool("TRUE"), Some(true));
    assert_eq!(parse_bool("TrUe"), Some(true));
    assert_eq!(parse_bool("false"), Some(false));
    assert_eq!(parse_bool("False"), Some(false));
    assert_eq!(parse_bool(""), None);
    assert_eq!(parse_bool("2"), None);
    assert_eq!(parse_bool("01"), None);
    assert_eq!(parse_bool("yes"), None);
    assert_eq!(parse_bool("true "), None);
    assert_eq!(parse_bool("tru"), None);
    assert_eq!(parse_bool("truee"), None);
}

#[test]
fn integers_are_written_as_the_language_writes_them() {
    let mut samples = vec![0i64, 1, -1, 9, 10, 11, 99, 100, 101, -10, 4, 15, 225, 1883, i64::MAX, i64::MIN, i64::MAX - 1, i64::MIN + 1];
    let mut v: i64 = 1;
    for _ in 0..18 {
        v *= 10;
        samples.push(v);
        samples.push(v - 1);
        samples.push(-v);
        samples.push(-v + 1);
    }
    for n in samples {
        assert_eq!(format_i64(n), n.to_string());
    }
}

#[test]
fn what_is_written_is_read_back() {
    for n in [0i32, 7, -7, 2147483647, -2147483648, 1000, -1001] {
        assert_eq!(parse_i32(&format_i64(n as i64)), Some(n));
    }
}

#[test]
fn comparing_text() {
    assert!(str_eq("", ""));
    assert!(str_eq("cycle_time", "cycle_time"));
    assert!(!str_eq("cycle_time", "cycle_tim"));
    assert!(!str_eq("cycle_time", "Cycle_time"));
    assert!(str_eq("größe", "größe"));
    assert!(!str_eq("größe", "grösse"));
    assert_eq!(chars_of("aß€"), vec!['a', 'ß', '€']);
    assert_eq!(chars_of(""), Vec::<char>::new());
}

#[test]
fn suffixes() {
    assert!(ends_with("pid_settings", "_settings"));
    assert!(ends_with("_settings", "_settings"));
    assert!(!ends_with("settings", "_settings"));
    assert!(!ends_with("pid_settings_old", "_settings"));
    assert!(!ends_with("pid_Settings", "_settings"));
    assert!(ends_with("anything", ""));
    assert!(ends_with("", ""));
    assert!(!ends_with("", "x"));
    assert!(ends_with("größe_settings", "_settings"));
}

#[test]
fn comparing_without_case() {
    assert!(eq_ignore_ascii_case("integer", "INTEGER"));
    assert!(eq_ignore_ascii_case("Integer", "iNTEGER"));
    assert!(eq_ignore_ascii_case("", ""));
    assert!(!eq_ignore_ascii_case("integer", "integers"));
    assert!(!eq_ignore_ascii_case("int", "INTEGER"));
    assert!(!eq_ignore_ascii_case("ınteger", "INTEGER"));
    assert!(!eq_ignore_ascii_case("a[", "a{"));
    assert!(!eq_ignore_ascii_case("@", "`"));
    for a in ["REAL", "real", "Text", "[z", "{Z", "K", "k"] {
        for b in ["REAL", "rEaL", "text", "[Z", "{z", "K", "k"] {
            assert_eq!(eq_ignore_ascii_case(a, b), a.eq_ignore_ascii_case(b), "for {:?} and {:?}", a, b);
        }
    }
}
