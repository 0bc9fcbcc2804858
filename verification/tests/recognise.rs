use siwx917::error::FlashError;
use siwx917::event::{FlashEvent, FlashMilestone};
use siwx917::image::{ImageKind, RPS_HEADER_SIZE, RPS_MAGIC};
use siwx917::job::{resolve_single_image, FlashJob, FlashMode, FlashSegment};
use siwx917::recognise::{classify_report, looks_like_isp_menu, Accept};
use siwx917::report::{judge_report, verdict_outcome};
use siwx917::text::{contains_ignore_case, push_decimal, push_hexadecimal, trim};

fn job(mode: FlashMode) -> FlashJob {
    FlashJob {
        mode,
        chip_id: "SIWX917".to_string(),
        port: String::new(),
        baud_rate: 115200,
        segments: None,
        firmware_path: None,
    }
}

/// What a real board with bootloader version 1.1 prints.
const REAL_MENU: &str = "U\r\nWELCOME TO SILICON LABS\r\nBootLoader Version 1.1\r\n\r\n\
1 Load Default Wireless Firmware\r\nA Load Wireless Firmware (Image No : 0-f)\r\n\
B Burn Wireless Firmware (Image No : 0-f)\r\n5 Select Default Wireless Firmware (Image No : 0-f)\r\n\
K Check Wireless Firmware Integrity (Image No : 0-f)\r\n2 Load Default M4 Firmware\r\n\
3 Load M4 Firmware (Image No : 1-f)\r\n4 Burn M4 Firmware (Image No : 1-f)\r\n\
6 Select Default M4 Firmware (Image No : 1-f)\r\n9 Check M4 Firmware Integrity (Image No : 1-f)\r\n\
F Select M4 and Wireless Images Pair \r\n7 Enable GPIO Based Bypass Mode\r\n\
8 Disable GPIO Based Bypass Mode\r\nQ Update KEY\r\nZ JTAG Selection\r\n\
l Lock/Unlock Debug Interfaces\r\ns Continue Debug Interfaces change\r\no Send OPN\r\n\
b Change UART Baud Rate\r\n";

#[test]
fn looks_like_isp_menu_accepts_the_real_captured_menu() {
    assert!(looks_like_isp_menu(REAL_MENU.as_bytes()));
}

#[test]
fn looks_like_isp_menu_rejects_noise_and_app_log_output() {
    assert!(!looks_like_isp_menu(&[]));
    assert!(!looks_like_isp_menu(b"anything"));
    // Console/VCOM port carrying TuyaOpen application logs must not look like a bootloader.
    assert!(!looks_like_isp_menu(
        b"[01-01 00:00:00 ty D][tkl_gpio.c:120] gpio init\r\n"
    ));
}

#[test]
fn looks_like_isp_menu_wants_all_three_marks() {
    assert!(looks_like_isp_menu(
        b"BOOTLOADER burn m4 firmware BURN WIRELESS FIRMWARE"
    ));
    assert!(!looks_like_isp_menu(
        b"burn m4 firmware burn wireless firmware"
    ));
    assert!(!looks_like_isp_menu(b"bootloader burn wireless firmware"));
    assert!(!looks_like_isp_menu(b"bootloader burn m4 firmware"));
}

#[test]
fn a_recognised_menu_stays_recognised() {
    let mut text = b"noise ".to_vec();
    text.extend_from_slice(REAL_MENU.as_bytes());
    text.extend_from_slice(b"more");
    assert!(looks_like_isp_menu(&text));
}

#[test]
fn reports_are_classified_by_their_words() {
    assert_eq!(classify_report(b"Upgradation Successful"), Some(true));
    assert_eq!(classify_report(b"upgradation sUCCESSFUL"), Some(true));
    assert_eq!(classify_report(b"Upgradation Failed"), Some(false));
    assert_eq!(classify_report(b"ERROR 7"), Some(false));
    assert_eq!(classify_report(b"image corrupted"), Some(false));
    assert_eq!(classify_report(b"Invalid image"), Some(false));
    assert_eq!(classify_report(b"Safe Upgrade in Progress ..."), None);
    assert_eq!(classify_report(b""), None);
    // Success counts even beside a word of failure.
    assert_eq!(
        classify_report(b"0 errors, upgradation successful"),
        Some(true)
    );
}

#[test]
fn an_unsuccessful_upgrade_has_failed() {
    assert_eq!(
        classify_report(b"Upgradation Unsuccessful\r\n"),
        Some(false)
    );
    assert_eq!(classify_report(b"UNSUCCESSFUL"), Some(false));
    // Whatever else is said beside it.
    assert_eq!(
        classify_report(b"Upgradation Successful ... Unsuccessful"),
        Some(false)
    );
    assert_eq!(
        classify_report(b"unsuccessful at first, then Successful"),
        Some(false)
    );
    let Err(FlashError::Plugin(m)) = judge_report(b"\r\nUpgradation Unsuccessful\r\n") else {
        panic!("no error");
    };
    assert_eq!(
        m,
        "SIWX917: device reported a failed upgrade: Upgradation Unsuccessful"
    );
}

#[test]
fn a_verdict_is_turned_but_not_withdrawn() {
    assert_eq!(classify_report(b"fail"), Some(false));
    assert_eq!(classify_report(b"fail, then successful"), Some(true));
    assert_eq!(classify_report(b"successful, then fail"), Some(true));
    assert_eq!(
        classify_report(b"successful, then unsuccessful"),
        Some(false)
    );
}

#[test]
fn waits_accept_what_they_wait_for() {
    assert!(!Accept::Never.test(REAL_MENU.as_bytes()));
    assert!(Accept::Menu.test(REAL_MENU.as_bytes()));
    assert!(!Accept::Menu.test(b"fail"));
    assert!(Accept::Verdict.test(b"fail"));
    assert!(Accept::Verdict.test(b"Successful"));
    assert!(!Accept::Verdict.test(b"in progress"));
}

#[test]
fn text_is_found_whatever_its_case() {
    assert!(contains_ignore_case(b"xxBootLOADERyy", "bootLoader"));
    assert!(!contains_ignore_case(b"bootloade", "bootloader"));
    assert!(!contains_ignore_case(b"", "a"));
    assert!(contains_ignore_case(b"a", "A"));
    // Only letters have a case: '[' is not '{'.
    assert!(!contains_ignore_case(b"[", "{"));
    assert!(contains_ignore_case("ä fail".as_bytes(), "FAIL"));
}

#[test]
fn trim_agrees_with_the_standard_library_on_every_character() {
    for c in (0..=0x10ffffu32).filter_map(char::from_u32) {
        let mut s = String::from("a");
        s.insert(0, c);
        s.push(c);
        assert_eq!(trim(&s), s.trim());
    }
}

#[test]
fn trim_takes_white_space_off_both_ends() {
    assert_eq!(trim(" \t\r\nfw one.rps\u{3000} "), "fw one.rps");
    assert_eq!(trim("   "), "");
    assert_eq!(trim(""), "");
    assert_eq!(trim("plain"), "plain");
}

#[test]
fn numbers_are_written_as_the_standard_library_writes_them() {
    for n in [0u64, 7, 10, 64, 99, 100, 4096, u64::MAX] {
        let mut s = String::from("n=");
        push_decimal(&mut s, n);
        assert_eq!(s, format!("n={n}"));
    }
    for n in [0u32, 0x1f, 0x900d900d, 0xdeadbeef, u32::MAX] {
        let mut s = String::from("0x");
        push_hexadecimal(&mut s, n, 8);
        assert_eq!(s, format!("0x{n:08x}"));
    }
}

/// Build a synthetic RPS container with the given control flags and payload length.
fn rps(control_flags: u16, payload_len: usize) -> Vec<u8> {
    let mut v = vec![0u8; RPS_HEADER_SIZE + payload_len];
    v[0..2].copy_from_slice(&control_flags.to_le_bytes());
    v[4..8].copy_from_slice(&RPS_MAGIC.to_le_bytes());
    v[8..12].copy_from_slice(&(payload_len as u32).to_le_bytes());
    v
}

#[test]
fn detect_classifies_by_control_flags_bit0() {
    // Real observed values: wireless 0x0000; M4 0x0001 (SDK demos) and 0x0041 (local build).
    assert_eq!(ImageKind::detect(&rps(0x0000, 32)).unwrap(), ImageKind::Nwp);
    assert_eq!(ImageKind::detect(&rps(0x0001, 32)).unwrap(), ImageKind::M4);
    assert_eq!(ImageKind::detect(&rps(0x0041, 32)).unwrap(), ImageKind::M4);
    // Bit 6 alone must not read as M4.
    assert_eq!(ImageKind::detect(&rps(0x0040, 32)).unwrap(), ImageKind::Nwp);
}

#[test]
fn detect_looks_at_the_low_byte_of_the_control_flags() {
    assert_eq!(ImageKind::detect(&rps(0x0100, 0)).unwrap(), ImageKind::Nwp);
    assert_eq!(ImageKind::detect(&rps(0xffff, 0)).unwrap(), ImageKind::M4);
}

#[test]
fn detect_rejects_non_rps_files() {
    let mut not_rps = rps(0x0001, 32);
    not_rps[4..8].copy_from_slice(&0xdead_beefu32.to_le_bytes());
    assert!(
        matches!(ImageKind::detect(&not_rps), Err(FlashError::InvalidJob(m)) if m.contains("not an RPS image"))
    );
}

#[test]
fn detect_rejects_truncated_or_padded_images() {
    let mut short = rps(0x0001, 32);
    short.truncate(RPS_HEADER_SIZE + 16); // header still claims 32 payload bytes
    assert!(
        matches!(ImageKind::detect(&short), Err(FlashError::InvalidJob(m)) if m.contains("truncated or padded"))
    );

    let mut padded = rps(0x0001, 32);
    padded.extend_from_slice(&[0u8; 8]);
    assert!(matches!(
        ImageKind::detect(&padded),
        Err(FlashError::InvalidJob(_))
    ));
}

#[test]
fn detect_rejects_file_shorter_than_header() {
    assert!(
        matches!(ImageKind::detect(&[0u8; 16]), Err(FlashError::InvalidJob(m)) if m.contains("too short"))
    );
}

#[test]
fn detect_says_exactly_what_is_wrong() {
    let Err(FlashError::InvalidJob(m)) = ImageKind::detect(&[0u8; 63]) else {
        panic!("taken for an image");
    };
    assert_eq!(
        m,
        "SIWX917: file is 63 bytes — too short to be an RPS image (need at least 64)"
    );

    let mut not_rps = rps(1, 32);
    not_rps[4..8].copy_from_slice(&0x00ad_beefu32.to_le_bytes());
    let Err(FlashError::InvalidJob(m)) = ImageKind::detect(&not_rps) else {
        panic!("taken for an image");
    };
    assert_eq!(
        m,
        "SIWX917: not an RPS image (magic 0x00adbeef, expected 0x900d900d) — the ROM bootloader only accepts .rps files, not .bin/.hex/.s37"
    );

    let mut short = rps(1, 32);
    short.truncate(80);
    let Err(FlashError::InvalidJob(m)) = ImageKind::detect(&short) else {
        panic!("taken for an image");
    };
    assert_eq!(
        m,
        "SIWX917: RPS image is truncated or padded — header says 32 bytes (+64 header = 96), file is 80"
    );
}

#[test]
fn menu_key_and_slot_match_the_captured_menu_ranges() {
    // M4 slots are advertised as 1-f, wireless as 0-f; we take the lowest valid of each.
    assert_eq!(ImageKind::M4.menu_key(), b'4');
    assert_eq!(ImageKind::M4.image_slot(), b'1');
    assert_eq!(ImageKind::Nwp.menu_key(), b'B');
    assert_eq!(ImageKind::Nwp.image_slot(), b'0');
}

#[test]
fn cores_have_labels() {
    assert_eq!(ImageKind::M4.label(), "M4 application");
    assert_eq!(ImageKind::Nwp.label(), "NWP/TA wireless firmware");
}

fn seg(path: &str) -> FlashSegment {
    FlashSegment {
        firmware_path: path.into(),
        start_addr: "0x00000000".into(),
        end_addr: "0x00000000".into(),
    }
}

#[test]
fn resolve_prefers_segments_over_legacy_firmware_path() {
    let mut j = job(FlashMode::Flash);
    j.firmware_path = Some("legacy.rps".into());
    j.segments = Some(vec![seg("from_segments.rps")]);
    assert_eq!(resolve_single_image(&j).unwrap(), "from_segments.rps");
}

#[test]
fn resolve_falls_back_to_firmware_path_when_segments_absent_or_blank() {
    let mut j = job(FlashMode::Flash);
    j.firmware_path = Some("only.rps".into());
    assert_eq!(resolve_single_image(&j).unwrap(), "only.rps");

    // The GUI always sends a segments array; a fresh row has an empty path.
    j.segments = Some(vec![seg("   ")]);
    assert_eq!(resolve_single_image(&j).unwrap(), "only.rps");
}

#[test]
fn resolve_rejects_multiple_images_instead_of_dropping_them() {
    let mut j = job(FlashMode::Flash);
    j.segments = Some(vec![seg("m4.rps"), seg("wireless.rps")]);
    assert!(
        matches!(resolve_single_image(&j), Err(FlashError::InvalidJob(m)) if m.contains("one image per run"))
    );
}

#[test]
fn resolve_rejects_when_nothing_is_provided() {
    let j = job(FlashMode::Flash);
    assert!(matches!(
        resolve_single_image(&j),
        Err(FlashError::InvalidJob(_))
    ));
}

#[test]
fn resolve_trims_paths_and_skips_blank_segments() {
    let mut j = job(FlashMode::Flash);
    j.segments = Some(vec![seg(""), seg("  m4.rps\n"), seg("\t")]);
    assert_eq!(resolve_single_image(&j).unwrap(), "m4.rps");
    j.segments = None;
    j.firmware_path = Some("  only.rps ".into());
    assert_eq!(resolve_single_image(&j).unwrap(), "only.rps");
}

#[test]
fn resolve_ignores_addresses() {
    let mut j = job(FlashMode::Flash);
    let mut s = seg("m4.rps");
    s.start_addr = "0x00201000".into();
    s.end_addr = "garbage".into();
    j.segments = Some(vec![s]);
    assert_eq!(resolve_single_image(&j).unwrap(), "m4.rps");
}

#[test]
fn resolve_says_exactly_what_is_wrong() {
    let mut j = job(FlashMode::Flash);
    j.firmware_path = Some(" ".into());
    let Err(FlashError::InvalidJob(m)) = resolve_single_image(&j) else {
        panic!("resolved");
    };
    assert_eq!(m, "missing firmware_path");
    j.segments = Some((0..12).map(|_| seg("m4.rps")).collect());
    let Err(FlashError::InvalidJob(m)) = resolve_single_image(&j) else {
        panic!("resolved");
    };
    assert_eq!(
        m,
        "SIWX917: got 12 firmware images, but this bootloader burns one image per run — flash the M4 application and the NWP/TA wireless firmware in separate runs"
    );
}

#[test]
fn verdicts_come_to_a_milestone_an_error_or_a_warning() {
    assert!(matches!(
        verdict_outcome(Some(true), "text", "shown"),
        Ok(FlashEvent::Milestone {
            milestone: FlashMilestone::VerifyPassed
        })
    ));
    let Err(FlashError::Plugin(m)) = verdict_outcome(Some(false), "text", "shown") else {
        panic!("no error");
    };
    assert_eq!(m, "SIWX917: device reported a failed upgrade: text");
    let Ok(FlashEvent::Warning { message }) = verdict_outcome(None, "text", "shown") else {
        panic!("no warning");
    };
    assert_eq!(
        message,
        "Image sent and acknowledged, but the device's completion report was not recognised — verify the board boots. Report: shown"
    );
}

#[test]
fn a_failed_report_is_quoted_as_text() {
    // What is no UTF-8 is replaced, and the white space around the report goes.
    let Err(FlashError::Plugin(m)) = judge_report(b"\r\n Upgradation \xffFailed \r\n") else {
        panic!("no error");
    };
    assert_eq!(
        m,
        "SIWX917: device reported a failed upgrade: Upgradation \u{fffd}Failed"
    );
}

#[test]
fn an_unrecognised_report_is_shown_escaped() {
    let Ok(FlashEvent::Warning { message }) = judge_report(b"\r\nwhat\tis \"this\"\r\n") else {
        panic!("no warning");
    };
    assert_eq!(
        message,
        "Image sent and acknowledged, but the device's completion report was not recognised — verify the board boots. Report: \"what\\tis \\\"this\\\"\""
    );
}
