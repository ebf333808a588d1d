use lcu_autopick::decimal::{i64_to_text, parse_u32, u64_to_text};
use lcu_autopick::lockfile::{parse_lockfile, split_on_colon};
use lcu_autopick::tray::{status_label, toggled};

#[test]
fn writes_unsigned_decimal() {
    assert_eq!(u64_to_text(0), "0");
    assert_eq!(u64_to_text(7), "7");
    assert_eq!(u64_to_text(1234567890), "1234567890");
    assert_eq!(u64_to_text(u64::MAX), "18446744073709551615");
}

#[test]
fn writes_signed_decimal() {
    assert_eq!(i64_to_text(0), "0");
    assert_eq!(i64_to_text(-42), "-42");
    assert_eq!(i64_to_text(4), "4");
    assert_eq!(i64_to_text(i64::MIN), "-9223372036854775808");
    assert_eq!(i64_to_text(i64::MAX), "9223372036854775807");
}

#[test]
fn reads_u32_as_std_does() {
    let cases = [
        "8080", "+12", "", "+", "-1", "4294967295", "4294967296", "12a", "007", "99999999999999999999", " 1",
    ];
    for c in cases {
        assert_eq!(parse_u32(c), c.parse::<u32>().ok(), "{}", c);
    }
    assert_eq!(parse_u32("53421"), Some(53421));
}

#[test]
fn decimal_round_trip() {
    for n in [0u32, 1, 9, 10, 65535, 4294967295] {
        assert_eq!(parse_u32(&u64_to_text(n as u64)), Some(n));
    }
}

#[test]
fn splits_on_every_colon() {
    assert_eq!(split_on_colon("a:b::c"), vec!["a", "b", "", "c"]);
    assert_eq!(split_on_colon(""), vec![""]);
    assert_eq!(split_on_colon(":"), vec!["", ""]);
    let text = "LeagueClient:1234:53421:pa ss:https";
    let ours: Vec<String> = split_on_colon(text);
    let std: Vec<String> = text.split(':').map(|s| s.to_string()).collect();
    assert_eq!(ours, std);
}

#[test]
fn reads_port_and_password_from_lockfile() {
    let l = parse_lockfile("LeagueClient:14520:51234:Xy9_abcDEF:https").unwrap();
    assert_eq!(l.port, 51234);
    assert_eq!(l.password, "Xy9_abcDEF");
}

#[test]
fn lockfile_with_four_fields_is_enough() {
    let l = parse_lockfile("a:b:1:pw").unwrap();
    assert_eq!(l.port, 1);
    assert_eq!(l.password, "pw");
}

#[test]
fn lockfile_without_password_is_refused() {
    assert!(parse_lockfile("LeagueClient:14520:51234").is_none());
    assert!(parse_lockfile("").is_none());
}

#[test]
fn lockfile_with_bad_port_is_refused() {
    assert!(parse_lockfile("LeagueClient:14520:port:pw:https").is_none());
    assert!(parse_lockfile("LeagueClient:14520:99999999999:pw:https").is_none());
}

#[test]
fn tray_label_says_what_the_entry_does() {
    assert_eq!(status_label(true), "Desativar");
    assert_eq!(status_label(false), "Ativar");
    assert!(!toggled(true));
    assert!(toggled(false));
}
