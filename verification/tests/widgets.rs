use barust::widgets::battery::{find_battery, strip_last_char, BatteryIcons, Error as BatteryError};
use barust::widgets::brightness::{brightness_files, BrightnessIcons, Error as BrightnessError};
use barust::widgets::icon::{extension, icon_kind, Error as IconError, IconKind};
use barust::widgets::mail::{
    mail_step, mail_text, xoauth2_response, GmailLogin, MailFailure, MailStep, PasswordLogin,
};
use barust::widgets::network::{is_up, network_text, wlan_text, NetworkIcons};
use barust::widgets::update::{apt_lists_upgrades, update_text, Apt};
use barust::widgets::volume::VolumeIcons;
use barust::widgets::weather::openmeteo::{reply_kind, Meteo, ReplyKind};
use barust::widgets::weather::widget::{meteo_text, needs_refresh, MeteoIcons as CodeIcons};
use barust::widgets::weather::{weather_text, MeteoIcons, OpenMeteoProvider};
use barust::widgets::workspaces::{
    current_desktop, desktop_names, filter_workspaces, mark_active, Error as WorkspaceError,
};

#[test]
fn battery_icons_and_lookup() {
    let icons = BatteryIcons::default();
    assert_eq!(icons.percentages.len(), 10);
    assert_eq!(icons.icon(Some("Charging"), 3), &icons.charging);
    assert_eq!(icons.icon(Some("Discharging"), 3), &icons.percentages[3]);
    assert_eq!(icons.icon(None, 9), &icons.percentages[9]);
    let paths = vec!["/sys/class/power_supply/AC".to_string(), "/sys/class/power_supply/BAT1".to_string(), "/sys/class/power_supply/BAT0".to_string()];
    assert_eq!(find_battery(&paths).unwrap(), "/sys/class/power_supply/BAT1");
    assert!(matches!(find_battery(&vec!["AC".to_string()]), Err(BatteryError::NoBattery)));
    assert_eq!(strip_last_char("Charging\n"), "Charging");
    assert_eq!(strip_last_char(""), "");
}

#[test]
fn brightness_icons_and_files() {
    assert_eq!(BrightnessIcons::default().percentages.len(), 4);
    let names = vec!["power".to_string(), "max_brightness".to_string(), "brightness".to_string()];
    let (b, m) = brightness_files("/sys/class/backlight/intel", &names).unwrap();
    assert_eq!(b, "/sys/class/backlight/intel/brightness");
    assert_eq!(m, "/sys/class/backlight/intel/max_brightness");
    let missing = vec!["brightness".to_string()];
    assert!(matches!(brightness_files("/x", &missing), Err(BrightnessError::NoBrightnessFile)));
}

#[test]
fn volume_icons_default() {
    let icons = VolumeIcons::default();
    assert_eq!(icons.percentages.len(), 3);
    assert_eq!(icons.muted, String::from('\u{fc5d}'));
}

#[test]
fn icon_kinds_and_extensions() {
    assert_eq!(extension("logo.png").as_deref(), Some("png"));
    assert_eq!(extension("a.tar.gz").as_deref(), Some("gz"));
    assert_eq!(extension(".bashrc"), None);
    assert_eq!(extension("noext"), None);
    assert_eq!(extension("trailing."), Some(String::new()));
    assert_eq!(extension(".."), None);
    for name in ["logo.png", "a.tar.gz", ".bashrc", "noext", "x.y.svg", "..", "trailing.", "..x"] {
        assert_eq!(
            extension(name),
            std::path::Path::new(name).extension().map(|e| e.to_str().unwrap().to_string())
        );
    }
    assert!(matches!(icon_kind("a.png", true, Some("png")), Ok(IconKind::Png)));
    assert!(matches!(icon_kind("a", true, None), Ok(IconKind::Png)));
    assert!(matches!(icon_kind("a.svg", true, Some("svg")), Ok(IconKind::Svg)));
    match icon_kind("a.jpg", true, Some("jpg")) {
        Err(IconError::UnsupportedFileType(m)) => assert_eq!(m, "a.jpg"),
        _ => panic!("jpg is not supported"),
    }
    match icon_kind("/nope", false, Some("png")) {
        Err(IconError::UnsupportedFileType(m)) => assert_eq!(m, "/nope is not a file"),
        _ => panic!("not a file"),
    }
}

#[test]
fn mail_logins_and_texts() {
    let p = PasswordLogin::new("imap.example.org", "me", "secret");
    assert_eq!((p.domain.as_str(), p.user.as_str(), p.password.as_str()), ("imap.example.org", "me", "secret"));
    let g = GmailLogin::new("me@gmail.com", "client_secret.json", "/home/me/.config/barust");
    assert_eq!(g.client_secret_path, "/home/me/.config/barust/client_secret.json");
    let g = GmailLogin::new("me@gmail.com", "/etc/secret.json", "/home/me/.config/barust");
    assert_eq!(g.client_secret_path, "/etc/secret.json");
    assert_eq!(xoauth2_response("me", "tok"), "user=me\x01auth=Bearer tok\x01\x01");
    assert_eq!(mail_text("%c 📧", 0), "");
    assert_eq!(mail_text("%c 📧", 12), "12 📧");
    assert!(matches!(mail_step(None, "%c"), MailStep::Keep));
    assert!(matches!(mail_step(Some(Err(MailFailure::Other)), "%c"), MailStep::Keep));
    assert!(matches!(mail_step(Some(Err(MailFailure::ClientSecret)), "%c"), MailStep::Fail));
    match mail_step(Some(Ok(3)), "(%c)") {
        MailStep::Show(t) => assert_eq!(t, "(3)"),
        _ => panic!("a count is shown"),
    }
}

#[test]
fn network_and_wlan_texts() {
    let icons = NetworkIcons::default();
    assert!(is_up("up\n"));
    assert!(!is_up("down\n"));
    assert!(!is_up("up"));
    assert_eq!(network_text("%n %s %t", "wlp1s0", &icons, Some((true, true))), "wlp1s0 Connected W");
    assert_eq!(network_text("%n %s %t", "eth0", &icons, Some((false, false))), "eth0 Offline E");
    assert_eq!(network_text("%n", "eth0", &icons, None), "No interface");
    assert_eq!(wlan_text("%i: %e (%q)", "wlp1s0", Some(("home", 70))), "wlp1s0: home (70)");
    assert_eq!(wlan_text("%e", "wlp1s0", None), "No interface");
}

#[test]
fn update_sources() {
    let apt = Apt::new();
    assert_eq!(apt.message(), "apt");
    assert!(!apt_lists_upgrades(""));
    assert!(!apt_lists_upgrades("Listing... Done\n"));
    assert!(apt_lists_upgrades("Listing... Done\nvim/stable 9.0 amd64 [upgradable]\n"));
    assert!(apt_lists_upgrades("Listing...\n\n"));
    assert_eq!(update_text(&vec!["apt".to_string(), "flatpak".to_string()]), "apt - flatpak");
    assert_eq!(update_text(&vec![]), "");
}

#[test]
fn weather_icons_and_text() {
    let icons = MeteoIcons::default();
    assert_eq!(icons.translate_code(0), &icons.clear);
    assert_eq!(icons.translate_code(2), &icons.cloudy);
    assert_eq!(icons.translate_code(48), &icons.fog);
    assert_eq!(icons.translate_code(57), &icons.freezing_drizzle);
    assert_eq!(icons.translate_code(81), &icons.rain);
    assert_eq!(icons.translate_code(86), &icons.snow);
    assert_eq!(icons.translate_code(99), &icons.hail);
    assert_eq!(icons.translate_code(4), &icons.unknown);
    let _provider = OpenMeteoProvider::new();
    let mut icons = MeteoIcons::default();
    icons.clear = "sun".to_string();
    assert_eq!(
        weather_text("%city %icon %cur (%min/%max)", &icons, "Milan", 0, "20°C", "25°C", "12°C"),
        "Milan sun 20°C (12°C/25°C)"
    );
}

#[test]
fn weather_widget_with_codes() {
    let mut icons = CodeIcons::default();
    icons.lighting = "L".to_string();
    assert_eq!(icons.translate_code(13), &icons.lighting);
    assert_eq!(icons.translate_code(1), &icons.clear);
    assert_eq!(icons.translate_code(96), &icons.thunderstorm);
    assert_eq!(icons.translate_code(30), &icons.duststorm);
    assert_eq!(icons.translate_code(0), &icons.unknown);
    assert_eq!(icons.translate_code(100), &icons.unknown);
    let meteo = Meteo {
        code: 13,
        city: "Rome".to_string(),
        cur: "20".to_string(),
        max: "25".to_string(),
        min: "12".to_string(),
        cur_u: "°C".to_string(),
        max_u: "°F".to_string(),
        min_u: "K".to_string(),
    };
    assert_eq!(meteo_text("%cit %cod %cur%cur-u %min%min-u %max%max-u", &icons, &meteo), "Rome L 20°C 12K 25°F");
    assert!(needs_refresh(false, false));
    assert!(needs_refresh(true, true));
    assert!(!needs_refresh(true, false));
    assert_eq!(reply_kind(200), ReplyKind::Forecast);
    assert_eq!(reply_kind(400), ReplyKind::Rejected);
    assert_eq!(reply_kind(503), ReplyKind::Unexpected(503));
}

#[test]
fn workspaces_names_and_filters() {
    let bytes = b"1\0web\0\xff\0mail\0".to_vec();
    assert_eq!(desktop_names(&bytes), vec!["1", "web", "mail", ""]);
    assert_eq!(desktop_names(&vec![]), vec![""]);
    assert_eq!(desktop_names(&b"x".to_vec()), vec!["x"]);
    assert_eq!(current_desktop(&vec![2, 5]), Ok(2));
    assert_eq!(current_desktop(&vec![]), Err(WorkspaceError::Ewmh));
    let names = vec!["a".to_string(), "b".to_string(), "c".to_string()];
    let marked = mark_active(&names, 1);
    assert_eq!(marked, vec![("a".to_string(), false), ("b".to_string(), true), ("c".to_string(), false)]);
    assert!(mark_active(&names, 7).iter().all(|w| !w.1));
    let ignored = vec!["b".to_string()];
    assert_eq!(filter_workspaces(&marked, &ignored).unwrap(), vec![("a".to_string(), false), ("c".to_string(), false)]);
    assert_eq!(filter_workspaces(&marked, &vec![]), Err(WorkspaceError::EmptyFilter));
}

#[test]
fn desktop_names_read_back_what_was_written() {
    let names = ["1: term", "2: wéb", "3: 📧"];
    let mut bytes = Vec::new();
    for n in names {
        bytes.extend_from_slice(n.as_bytes());
        bytes.push(0);
    }
    let mut expected: Vec<String> = names.iter().map(|n| n.to_string()).collect();
    expected.push(String::new());
    assert_eq!(desktop_names(&bytes), expected);
}
