use soundboard::config::{AppConfig, SoundEntry};
use soundboard::mic::UNIT_VOLUME_BITS;

fn is_v4_uuid(s: &str) -> bool {
    let b = s.as_bytes();
    b.len() == 36
        && b.iter().enumerate().all(|(i, c)| match i {
            8 | 13 | 18 | 23 => *c == b'-',
            _ => c.is_ascii_digit() || (b'a'..=b'f').contains(c),
        })
        && b[14] == b'4'
        && matches!(b[19], b'8' | b'9' | b'a' | b'b')
}

fn entry(id: &str) -> SoundEntry {
    SoundEntry { id: id.to_string(), label: format!("label {id}"), path: format!("/s/{id}.ogg") }
}

#[test]
fn new_entry_keeps_label_and_path_with_random_id() {
    let a = SoundEntry::new("Airhorn".to_string(), "/sounds/airhorn.mp3".to_string());
    let b = SoundEntry::new("Airhorn".to_string(), "/sounds/airhorn.mp3".to_string());
    assert_eq!(a.label, "Airhorn");
    assert_eq!(a.path, "/sounds/airhorn.mp3");
    assert!(is_v4_uuid(&a.id), "{}", a.id);
    assert!(is_v4_uuid(&b.id), "{}", b.id);
    assert_ne!(a.id, b.id);
    assert_ne!(a.id, a.label);
}

#[test]
fn default_config_is_empty_at_full_volume() {
    let c = AppConfig::default();
    assert!(c.sounds.is_empty());
    assert!(c.monitor_device.is_none());
    assert!(c.virtual_device.is_none());
    assert!(c.mic_device.is_none());
    assert!(c.mic_toggle_shortcut.is_none());
    assert_eq!(c.mic_volume_bits, UNIT_VOLUME_BITS);
    assert_eq!(f32::from_bits(c.master_volume_bits), 1.0);
}

#[test]
fn add_sound_appends_and_returns_the_entry() {
    let mut c = AppConfig::default();
    c.sounds.push(entry("x"));
    let e = c.add_sound("Bell".to_string(), "/b.wav".to_string());
    assert_eq!(c.sounds.len(), 2);
    assert_eq!(c.sounds[1].id, e.id);
    assert_eq!(c.sounds[1].label, "Bell");
    assert_eq!(c.sounds[1].path, "/b.wav");
    assert_eq!(c.sounds[0].id, "x");
}

#[test]
fn remove_sound_removes_only_that_id() {
    let mut c = AppConfig::default();
    c.sounds = vec![entry("a"), entry("b"), entry("c"), entry("b")];
    c.remove_sound(&"b".to_string());
    let ids: Vec<&str> = c.sounds.iter().map(|s| s.id.as_str()).collect();
    assert_eq!(ids, vec!["a", "c"]);
    assert_eq!(c.sounds[1].label, "label c");
}

#[test]
fn remove_unknown_id_changes_nothing() {
    let mut c = AppConfig::default();
    c.sounds = vec![entry("a"), entry("b")];
    c.remove_sound(&"z".to_string());
    let ids: Vec<&str> = c.sounds.iter().map(|s| s.id.as_str()).collect();
    assert_eq!(ids, vec!["a", "b"]);
    c.remove_sound(&"z".to_string());
    assert_eq!(c.sounds.len(), 2);
}

#[test]
fn removing_an_added_sound_restores_the_list() {
    let mut c = AppConfig::default();
    c.sounds = vec![entry("a"), entry("b")];
    let e = c.add_sound("New".to_string(), "/n.ogg".to_string());
    c.remove_sound(&e.id);
    let ids: Vec<&str> = c.sounds.iter().map(|s| s.id.as_str()).collect();
    assert_eq!(ids, vec!["a", "b"]);
}

#[test]
fn set_output_devices_records_both() {
    let mut c = AppConfig::default();
    c.mic_device = Some("mic".to_string());
    c.set_output_devices(Some("Speakers".to_string()), None);
    assert_eq!(c.monitor_device.as_deref(), Some("Speakers"));
    assert!(c.virtual_device.is_none());
    assert_eq!(c.mic_device.as_deref(), Some("mic"));
}

#[test]
fn init_data_copies_sounds_and_selection() {
    let mut c = AppConfig::default();
    c.sounds = vec![entry("a"), entry("b")];
    c.monitor_device = Some("M".to_string());
    c.virtual_device = Some("V".to_string());
    let d = c.init_data(vec!["M".to_string(), "V".to_string(), "W".to_string()]);
    assert_eq!(d.sounds.len(), 2);
    assert_eq!(d.sounds[1].id, "b");
    assert_eq!(d.devices, vec!["M".to_string(), "V".to_string(), "W".to_string()]);
    assert_eq!(d.monitor_device.as_deref(), Some("M"));
    assert_eq!(d.virtual_device.as_deref(), Some("V"));
}
