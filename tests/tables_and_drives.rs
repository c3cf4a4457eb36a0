use rpi_imager_tui::drivelist::{is_true, Drive, FlagValue};
use rpi_imager_tui::static_data::{get_keyboards, get_locales, get_timezones, non_empty_lines};

fn drive(mounts: &[&str]) -> Drive {
    Drive {
        name: "/dev/sda".to_string(),
        description: "disk".to_string(),
        size: 1,
        removable: false,
        readonly: false,
        mountpoints: mounts.iter().map(|s| s.to_string()).collect(),
    }
}

#[test]
fn root_mount_marks_system_drive() {
    assert!(drive(&["/boot", "/"]).is_system());
    assert!(!drive(&["/media/pi/boot", "/mnt"]).is_system());
    assert!(!drive(&[]).is_system());
}

#[test]
fn flag_columns() {
    assert!(is_true(&FlagValue::Bool(true)));
    assert!(!is_true(&FlagValue::Bool(false)));
    assert!(is_true(&FlagValue::Text("1".to_string())));
    assert!(is_true(&FlagValue::Text("TRUE".to_string())));
    assert!(is_true(&FlagValue::Text("True".to_string())));
    assert!(!is_true(&FlagValue::Text("0".to_string())));
    assert!(is_true(&FlagValue::Number(Some(1))));
    assert!(!is_true(&FlagValue::Number(Some(2))));
    assert!(!is_true(&FlagValue::Number(None)));
    assert!(!is_true(&FlagValue::Missing));
}

#[test]
fn tables_skip_empty_lines() {
    assert_eq!(get_timezones("Europe/London\n\nAmerica/New_York\r\nAsia/Tokyo"), vec!["Europe/London", "America/New_York", "Asia/Tokyo"]);
    assert_eq!(get_locales("en_GB.UTF-8\n\r\n"), vec!["en_GB.UTF-8"]);
    assert_eq!(non_empty_lines(""), Vec::<String>::new());
    assert_eq!(non_empty_lines("\n\n"), Vec::<String>::new());
}

#[test]
fn keyboards_split_at_first_comma() {
    let k = get_keyboards("gb,English (UK)\nus,English (US), intl\nbroken\n\n");
    assert_eq!(
        k,
        vec![
            ("gb".to_string(), "English (UK)".to_string()),
            ("us".to_string(), "English (US), intl".to_string()),
        ]
    );
}
