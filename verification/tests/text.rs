use barust::path_join;
use barust::utils::bytes_to_closest;
use barust::utils::strings::{contains, decimal, join, replace, str_eq};
use barust::widgets::text::{disk_text, memory_text, text_padding};
use barust::{xdg_cache, xdg_config, xdg_data};

#[test]
fn replace_replaces_every_occurrence_from_the_left() {
    assert_eq!(replace("%p and %p", "%p", "50"), "50 and 50");
    assert_eq!(replace("aaa", "aa", "b"), "ba");
    assert_eq!(replace("", "%p", "x"), "");
    assert_eq!(replace("no pattern", "%p", "x"), "no pattern");
    assert_eq!(replace("ééé", "é", "e"), "eee");
}

#[test]
fn replace_matches_std() {
    for (s, p, r) in [("%cur-u %cur", "%cur", "7"), ("abcabc", "bc", ""), ("xx%", "%", "%%")] {
        assert_eq!(replace(s, p, r), s.replace(p, r));
    }
}

#[test]
fn decimal_renders_numbers() {
    assert_eq!(decimal(0), "0");
    assert_eq!(decimal(7), "7");
    assert_eq!(decimal(1024), "1024");
    assert_eq!(decimal(u64::MAX), u64::MAX.to_string());
}

#[test]
fn str_eq_and_contains() {
    assert!(str_eq("Charging", "Charging"));
    assert!(!str_eq("Charging", "Charged"));
    assert!(contains("/sys/class/power_supply/BAT0", "BAT"));
    assert!(!contains("/sys/class/power_supply/AC", "BAT"));
    assert!(contains("abc", ""));
}

#[test]
fn join_puts_separator_between_pieces() {
    assert_eq!(join(&vec![], " - "), "");
    assert_eq!(join(&vec!["apt".to_string()], " - "), "apt");
    assert_eq!(join(&vec!["apt".to_string(), "flatpak".to_string()], " - "), "apt - flatpak");
}

#[test]
fn bytes_to_closest_picks_the_unit() {
    assert_eq!(bytes_to_closest(0), "0B");
    assert_eq!(bytes_to_closest(1024), "1024B");
    assert_eq!(bytes_to_closest(1025), "1KB");
    assert_eq!(bytes_to_closest(2048), "2KB");
    assert_eq!(bytes_to_closest(3 * 1024 * 1024 * 1024), "3GB");
    assert_eq!(bytes_to_closest(u64::MAX), "16777215TB");
}

#[test]
fn bytes_to_closest_scale_law_on_values() {
    // the number shown is the value divided by 1024 per unit step, rounded down
    let v: u64 = 5 * 1024 * 1024 + 512 * 1024;
    assert_eq!(bytes_to_closest(v), format!("{}MB", v / (1024 * 1024)));
}

#[test]
fn path_join_follows_pathbuf() {
    assert_eq!(path_join("/home/me", ".config"), "/home/me/.config");
    assert_eq!(path_join("/home/me/", ".config"), "/home/me/.config");
    assert_eq!(path_join("", "barust"), "barust");
    assert_eq!(path_join("/home/me", "/etc/secret.json"), "/etc/secret.json");
}

#[test]
fn xdg_directories() {
    assert_eq!(xdg_config(None, "/home/me"), "/home/me/.config/barust");
    assert_eq!(xdg_config(Some("/cfg"), "/home/me"), "/cfg/barust");
    assert_eq!(xdg_data(None, "/home/me"), "/home/me/.local/share/barust");
    assert_eq!(xdg_cache(None, "/home/me"), "/home/me/.cache/barust");
    assert_eq!(xdg_cache(Some("/tmp/c/"), "/home/me"), "/tmp/c/barust");
}

#[test]
fn text_padding_is_zero_for_empty_text() {
    assert_eq!(text_padding("", 10), 0);
    assert_eq!(text_padding("x", 10), 10);
}

#[test]
fn memory_and_disk_texts() {
    assert_eq!(
        memory_text("%p%% %u/%t (%a free, %f)", "42.00", 8 * 1024 * 1024 * 1024, 4096, 2048, 0),
        "42.00%% 2KB/8GB (4KB free, 0B)"
    );
    assert_eq!(disk_text("💾 %f of %t (%p)", "12.5", 1, 2 * 1024 * 1024, 3 * 1024 * 1024), "💾 2MB of 3MB (12.5)");
}
