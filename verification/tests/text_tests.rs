use sway_monocle_layout::cli::parse_excludes;
use sway_monocle_layout::commands::{border_command, focus_command, monocle_command, splith_command};
use sway_monocle_layout::text::{
    chars_of, i64_to_decimal, parse_u32, push_decimal, replace_separators, split_at_commas, str_eq,
    str_starts_with,
};

#[test]
fn text_helpers() {
    let mut s = String::from("n=");
    push_decimal(&mut s, -42);
    assert_eq!(s, "n=-42");
    let mut s = String::new();
    push_decimal(&mut s, i64::MIN);
    assert_eq!(s, "-9223372036854775808");
    assert_eq!(replace_separators("a/b c-d"), "a-b-c-d");
    assert_eq!(split_at_commas("a,,b,"), vec!["a", "", "b", ""]);
    assert_eq!(split_at_commas(""), vec![""]);
    assert_eq!(chars_of("ab"), vec!['a', 'b']);
    assert_eq!(parse_excludes("\u{3000} ÀB\u{85}\n, x ,,"), vec!["àb", "x"]);
    assert_eq!(i64_to_decimal(0), "0");
    assert_eq!(i64_to_decimal(1234567890), "1234567890");
    assert_eq!(i64_to_decimal(i64::MAX), "9223372036854775807");
    assert!(str_eq("abc", "abc"));
    assert!(!str_eq("abc", "abd"));
    assert!(!str_eq("ab", "abc"));
    assert!(str_starts_with("__i3", "__"));
    assert!(str_starts_with("x", ""));
    assert!(!str_starts_with("_", "__"));
    assert!(!str_starts_with("a_", "_"));
    assert_eq!(parse_u32("+0"), Some(0));
    assert_eq!(parse_u32("+"), None);
    assert_eq!(parse_u32("007"), Some(7));
    assert_eq!(parse_u32(" 7"), None);
}

#[test]
fn command_texts() {
    assert_eq!(focus_command(12), "[con_id=12] focus");
    assert_eq!(focus_command(-1), "[con_id=-1] focus");
    assert_eq!(splith_command("3: web"), "[workspace=3: web] layout splith");
    assert_eq!(
        monocle_command(4, "1"),
        "[con_id=4] split none; [workspace=1] layout splith; [con_id=4] mark --add _auto_fs; [con_id=4] border none"
    );
    assert_eq!(border_command("pixel", 10), "border pixel 10");
    assert_eq!(border_command("normal", 2), "border normal 2");
    assert_eq!(border_command("none", 0), "border none");
    assert_eq!(border_command("csd", 3), "border csd");
}
