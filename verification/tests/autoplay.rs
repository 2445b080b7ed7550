use mde::autoplay::{ask_notification, autoplay_reaction, classify, decide, Action, Config, DeviceKind};

#[test]
fn classify_cards_vs_drives() {
    assert_eq!(classify("flash_sd", ""), DeviceKind::MemoryCard);
    assert_eq!(classify("flash_mmc", "sdio"), DeviceKind::MemoryCard);
    assert_eq!(classify("", "sdio"), DeviceKind::MemoryCard);
    assert_eq!(classify("thumb", "usb"), DeviceKind::RemovableDrive);
    assert_eq!(classify("", "usb"), DeviceKind::RemovableDrive);
}

#[test]
fn decide_respects_master_and_per_type() {
    let on = Config { enabled: true, removable: Action::Open, memory_card: Action::Ask };
    assert_eq!(decide(&on, DeviceKind::RemovableDrive), Action::Open);
    assert_eq!(decide(&on, DeviceKind::MemoryCard), Action::Ask);
    let off = Config { enabled: false, ..on };
    assert_eq!(decide(&off, DeviceKind::RemovableDrive), Action::Nothing);
    assert_eq!(decide(&off, DeviceKind::MemoryCard), Action::Nothing);
}

#[test]
fn action_keys_parse() {
    assert_eq!(Action::from_key("open"), Action::Open);
    assert_eq!(Action::from_key("ask"), Action::Ask);
    assert_eq!(Action::from_key("nothing"), Action::Nothing);
    assert_eq!(Action::from_key("garbage"), Action::Open);
}

#[test]
fn uppercase_media_still_counts_as_a_card() {
    assert_eq!(classify("FLASH_SD", "usb"), DeviceKind::MemoryCard);
}

#[test]
fn config_load_reads_the_saved_keys() {
    let c = Config::load(true, "ask", "nothing");
    assert_eq!(c, Config { enabled: true, removable: Action::Ask, memory_card: Action::Nothing });
}

#[test]
fn autoplay_reacts_only_to_removable_devices() {
    let cfg = Config { enabled: true, removable: Action::Open, memory_card: Action::Ask };
    let drive = "/org/freedesktop/UDisks2/drives/x";
    assert_eq!(
        autoplay_reaction(&cfg, false, false, drive, true, "thumb", "usb"),
        Some((DeviceKind::RemovableDrive, Action::Open))
    );
    assert_eq!(
        autoplay_reaction(&cfg, false, false, drive, true, "flash_sd", ""),
        Some((DeviceKind::MemoryCard, Action::Ask))
    );
    assert_eq!(autoplay_reaction(&cfg, true, false, drive, true, "thumb", "usb"), None);
    assert_eq!(autoplay_reaction(&cfg, false, true, drive, true, "thumb", "usb"), None);
    assert_eq!(autoplay_reaction(&cfg, false, false, "", true, "thumb", "usb"), None);
    assert_eq!(autoplay_reaction(&cfg, false, false, "/", true, "thumb", "usb"), None);
    assert_eq!(autoplay_reaction(&cfg, false, false, drive, false, "thumb", "usb"), None);
    let off = Config { enabled: false, ..cfg };
    assert_eq!(autoplay_reaction(&off, false, false, drive, true, "thumb", "usb"), None);
    let quiet = Config { removable: Action::Nothing, ..cfg };
    assert_eq!(autoplay_reaction(&quiet, false, false, drive, true, "thumb", "usb"), None);
}

#[test]
fn ask_notification_wording() {
    let (s, b) = ask_notification(DeviceKind::MemoryCard, "/run/media/u/SD");
    assert_eq!(s, "Memory card ready");
    assert_eq!(b, "Mounted at /run/media/u/SD \u{2014} open it in Files?");
    assert_eq!(ask_notification(DeviceKind::RemovableDrive, "/m").0, "Removable drive ready");
}
