use launch::systemd::{
    exec_start, object_path, start_app, unit_name, LaunchCounter, Property, MAX_ID_LENGTH,
};

const NOW: u128 = 1_700_000_000_123_456_789;

/// systemd rejects the whole call if any property is not of the type it
/// expects, and `ExecStart` is the only one here that is not a plain string.
#[test]
fn exec_start_is_built_with_the_signature_systemd_expects() {
    let value = exec_start("/run/current-system/sw/bin/sh", &vec!["sh".to_string()]);
    assert_eq!(value.signature(), "a(sasb)");
}

#[test]
fn unit_names_keep_an_app_id_that_is_already_allowed() {
    let name = unit_name("org.gnome.Nautilus", NOW, 0);
    assert!(name.starts_with("app-launch-org.gnome.Nautilus-"), "{name}");
    assert!(name.ends_with(".service"), "{name}");
}

#[test]
fn unit_names_stand_in_for_characters_a_unit_name_cannot_hold() {
    let name = unit_name("my app/v2-final", NOW, 0);
    assert!(name.starts_with("app-launch-my_app_v2_final-"), "{name}");
}

#[test]
fn unit_names_of_one_app_differ_between_launches() {
    let app_id = "org.gnome.Nautilus";
    let mut launches = LaunchCounter::new();
    assert_ne!(launches.name_next(app_id, NOW), launches.name_next(app_id, NOW));
    assert_ne!(unit_name(app_id, NOW, 0), unit_name(app_id, NOW + 1, 0));
}

#[test]
fn unit_names_stay_within_what_systemd_accepts() {
    let name = unit_name(&"a".repeat(4096), NOW, 0);
    assert!(name.len() < 256, "{} bytes", name.len());
    let longest = unit_name(&"a".repeat(4096), u128::MAX, u64::MAX);
    assert!(longest.len() < 256, "{} bytes", longest.len());
}

#[test]
fn unit_names_are_written_in_hexadecimal() {
    assert_eq!(unit_name("x", 255, 16), "app-launch-x-ff-10.service");
    assert_eq!(unit_name("", 0, 0), "app-launch--0-0.service");
    let name = unit_name(&"é".repeat(200), 0, 0);
    assert_eq!(name, format!("app-launch-{}-0-0.service", "_".repeat(MAX_ID_LENGTH)));
}

fn text(property: &Property) -> (&str, &str) {
    match property {
        Property::Text { name, text } => (name, text),
        Property::Exec { name, command } => (name, &command.program),
    }
}

#[test]
fn an_app_is_started_as_a_transient_unit() {
    let arguments = vec!["gimp".to_string(), "a.png".to_string()];
    let unit = start_app("u.service".to_string(), "gimp", "/bin/gimp", &arguments, Some("/tmp"));
    assert_eq!(unit.name, "u.service");
    assert_eq!(unit.mode, "fail");
    let texts: Vec<(&str, &str)> = unit.properties.iter().map(text).collect();
    assert_eq!(
        texts,
        [
            ("Description", "launch: gimp"),
            ("Slice", "app.slice"),
            ("ExecStart", "/bin/gimp"),
            ("CollectMode", "inactive-or-failed"),
            ("ExitType", "cgroup"),
            ("WorkingDirectory", "/tmp"),
        ]
    );
    match &unit.properties[2] {
        Property::Exec { command, .. } => {
            assert_eq!(command.arguments, arguments);
            assert!(!command.ignore_failure);
        }
        other => panic!("{other:?}"),
    }
    let nowhere = start_app("u".to_string(), "gimp", "/bin/gimp", &arguments, Some(""));
    assert_eq!(nowhere.properties.len(), 5);
}

#[test]
fn an_app_answers_at_the_path_of_its_id() {
    assert_eq!(object_path("org.gnome.Nautilus"), "/org/gnome/Nautilus");
    assert_eq!(object_path("gimp"), "/gimp");
}

#[test]
fn unit_names_of_two_apps_differ_between_launches() {
    assert_ne!(unit_name("a", NOW, 0), unit_name("a-1", NOW, 0));
    assert_ne!(unit_name("b", NOW, 1), unit_name("c", NOW, 2));
}

#[test]
fn unit_names_hold_only_plain_characters() {
    for app_id in ["org.gnome.Nautilus", "my app/v2-final", "caf\u{e9}\\x2d@", ""] {
        let name = unit_name(app_id, NOW, 255);
        assert!(name.chars().all(|c| c.is_ascii_alphanumeric() || "_.-".contains(c)), "{name}");
    }
}
