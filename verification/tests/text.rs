use remote_agent::install::{
    dialog_params, elevation_step, install_success_message, prompted_value, silent_install_config,
    validate_enroll_token, validate_server_url, Elevation, InstallError,
};
use remote_agent::scan::{find, find_non_digit, parse_digits};
use remote_agent::service::{SystemdServiceManager, WindowsServiceManager};
use remote_agent::sysinfo::{
    cpu_counts, cpu_times, disk_usage, filetime_to_u64, is_pseudo_filesystem, memory_info,
    windows_permissions, MemoryCounters,
};
use remote_agent::text::{
    char_is_whitespace, concat2, concat3, contains_char, matches_at, replace, starts_with, str_before, str_eq, trim,
    trim_end,
};
use remote_agent::update::{
    arch_label, check_status, checksum_matches, update_available, update_check_url, CheckStatus,
    LatestVersionInfo,
};
use remote_agent::wayland::{
    extract_pipewire_node, extract_session_handle, frame_size, parse_gst_resolution,
};

#[test]
fn text_helpers_agree_with_std() {
    for s in ["", "/", "a//", "é/", "//x//", "no slash", "   "] {
        assert_eq!(trim_end(s, '/'), s.trim_end_matches('/'));
        assert_eq!(trim(s), s.trim());
        assert_eq!(contains_char(s, '/'), s.contains('/'));
    }
    for s in ["  a b \n", "\u{a0}x\u{2003}", "\t\r\n", "ä "] {
        assert_eq!(trim(s), s.trim());
    }
    for (s, from, to) in [
        ("wss://a/wss://b", "wss://", "https://"),
        ("aaaa", "aa", "b"),
        ("aaa", "aa", "b"),
        ("abc", "", "x"),
        ("", "a", "b"),
        ("héé", "é", "ee"),
        ("xyz", "xyz", ""),
    ] {
        let expected = if from.is_empty() { s.to_string() } else { s.replace(from, to) };
        assert_eq!(replace(s, from, to), expected);
    }
    assert!(starts_with("https://x", "https://"));
    assert!(!starts_with("http", "https://"));
    assert!(starts_with("abc", ""));
    assert!(matches_at("héllo", 1, "éll"));
    assert!(!matches_at("héllo", 4, "oo"));
    assert!(matches_at("abc", 3, ""));
    assert!(str_eq("abc", "abc") && !str_eq("abc", "abd") && str_eq("", ""));
    assert_eq!(concat2("a", "b"), "ab");
    assert_eq!(concat3("a", "", "c"), "ac");
}

#[test]
fn text_order_is_by_code_point() {
    for (a, b) in [("", ""), ("", "a"), ("a", ""), ("ab", "abc"), ("abd", "abc"), ("Z", "a"), ("é", "z"), ("a", "a")] {
        assert_eq!(str_before(a, b), a < b, "{:?} before {:?}", a, b);
    }
}

#[test]
fn scanning_finds_patterns_and_numbers() {
    assert_eq!(find("hello world", "o", 0), Some(4));
    assert_eq!(find("hello world", "o", 5), Some(7));
    assert_eq!(find("hello world", "o", 8), None);
    assert_eq!(find("hello", "", 5), Some(5));
    assert_eq!(find("hello", "", 6), None);
    assert_eq!(find("héllo", "l", 0), Some(2));
    assert_eq!(find_non_digit("123abc", 0), Some(3));
    assert_eq!(find_non_digit("123", 0), None);
    assert_eq!(find_non_digit("a1b2", 1), Some(2));
    assert_eq!(parse_digits("x18446744073709551615y", 1, 21), Some(u64::MAX));
    assert_eq!(parse_digits("18446744073709551616", 0, 20), None);
    assert_eq!(parse_digits("007", 0, 3), Some(7));
    assert_eq!(parse_digits("12a", 0, 3), None);
    assert_eq!(parse_digits("12", 1, 1), None);
    assert_eq!(parse_digits("99999999999999999999999", 0, 23), None);
}

#[test]
fn portal_answers_are_read() {
    assert_eq!(
        extract_session_handle("(objectpath '/org/freedesktop/portal/desktop/session/1_42/t',)"),
        Some("/org/freedesktop/portal/desktop/session/1_42/t".to_string())
    );
    assert_eq!(extract_session_handle("('/a',)"), Some("/a".to_string()));
    assert_eq!(extract_session_handle("'/"), None);
    assert_eq!(extract_session_handle("'x' '/y"), None);
    assert_eq!(extract_session_handle("nothing"), None);
    assert_eq!(extract_session_handle("'x' '/y'"), Some("/y".to_string()));

    assert_eq!(
        extract_pipewire_node("(uint32 0, {'streams': <[(uint32 57, {'size': <(1920, 1080)>})]>})"),
        Some(57)
    );
    assert_eq!(extract_pipewire_node("uint32 12"), None);
    assert_eq!(extract_pipewire_node("uint32 12,"), Some(12));
    assert_eq!(extract_pipewire_node("uint32 0, uint32 x, uint32 4294967296, uint32 9)"), Some(9));
    assert_eq!(extract_pipewire_node("7, rest"), Some(7));
    assert_eq!(extract_pipewire_node("uint32 5uint32 6,"), Some(6));
    assert_eq!(extract_pipewire_node(""), None);

    assert_eq!(
        parse_gst_resolution("caps = video/x-raw, width=(int)2560, height=(int)1440, framerate"),
        Some((2560, 1440))
    );
    assert_eq!(parse_gst_resolution("height=(int)1, width=(int)2;"), Some((2, 1)));
    assert_eq!(parse_gst_resolution("width=(int)2560, height=(int)1440"), None);
    assert_eq!(parse_gst_resolution("width=(int), height=(int)1440,"), None);
    assert_eq!(parse_gst_resolution("width=(int)4294967296, height=(int)1,"), None);
    assert_eq!(parse_gst_resolution("width=(int)4294967295, height=(int)0,"), Some((u32::MAX, 0)));
    assert_eq!(frame_size(1920, 1080), Some(1920 * 1080 * 4));
    assert_eq!(frame_size(0, 5), Some(0));
}

#[test]
fn server_urls_are_checked() {
    for ok in ["https://server:7899", "  ws://a/b  ", "wss://x", "http://h?q=1#f"] {
        assert_eq!(validate_server_url(ok), Ok(()));
    }
    for empty in ["", "   ", "\n\t"] {
        assert_eq!(validate_server_url(empty), Err(InstallError::EmptyUrl));
    }
    for bad in ["ftp://x", "server:7899", "HTTPS://x", "ws:/x", "'https://x"] {
        assert_eq!(validate_server_url(bad), Err(InstallError::BadScheme));
    }
    for c in ['"', '\'', '\n', '\r', ';', '&', '|', '`', '$', '\\'] {
        let url = format!("https://a{}b", c);
        assert_eq!(validate_server_url(&url), Err(InstallError::BadUrlCharacters), "{:?}", c);
    }
    // white space at the end is cut before the check
    assert_eq!(validate_server_url("https://a\n"), Ok(()));
}

#[test]
fn enrollment_tokens_are_checked() {
    assert_eq!(validate_enroll_token("abcXYZ019"), Ok(()));
    assert_eq!(validate_enroll_token("  abc  "), Ok(()));
    assert_eq!(validate_enroll_token(""), Err(InstallError::EmptyToken));
    assert_eq!(validate_enroll_token(" \t"), Err(InstallError::EmptyToken));
    for bad in ["abc-def", "abc def", "é", "a_b", "a/", "{", "@", "["] {
        assert_eq!(validate_enroll_token(bad), Err(InstallError::TokenNotAlphanumeric));
    }
}

#[test]
fn install_decisions() {
    let c = silent_install_config(None, Some("https://s".to_string()), Some("tok".to_string()), "/opt/a")
        .unwrap();
    assert_eq!((c.server_url.as_str(), c.enroll_token.as_str(), c.install_dir.as_str()), ("https://s", "tok", "/opt/a"));
    assert!(c.install_service && c.start_service);
    let c = silent_install_config(Some("/x".to_string()), Some("u".to_string()), Some("t".to_string()), "/opt/a")
        .unwrap();
    assert_eq!(c.install_dir, "/x");
    assert_eq!(
        silent_install_config(None, None, Some("t".to_string()), "/d").unwrap_err(),
        InstallError::MissingServerUrl
    );
    assert_eq!(
        silent_install_config(None, Some("u".to_string()), None, "/d").unwrap_err(),
        InstallError::MissingEnrollToken
    );
    assert_eq!(prompted_value("  https://s \n", InstallError::MissingServerUrl), Ok("https://s".to_string()));
    assert_eq!(prompted_value(" \n", InstallError::MissingEnrollToken), Err(InstallError::MissingEnrollToken));
    assert_eq!(elevation_step(true, true, false), Elevation::Proceed);
    assert_eq!(elevation_step(false, true, true), Elevation::Refuse);
    assert_eq!(elevation_step(false, false, true), Elevation::Relaunch);
    assert_eq!(elevation_step(false, false, false), Elevation::Refuse);
    assert_eq!(
        install_success_message("/opt/a"),
        "Android Remote Agent installed successfully!\n\nInstall directory: /opt/a\nService registered and started."
    );
}

#[test]
fn checksum_is_sha256_in_lower_case_hex() {
    let abc = "ba7816bf8f01cfea414140de5dae2223b00361a396177a9cb410ff61f20015ad";
    assert!(checksum_matches(b"abc", abc));
    assert!(!checksum_matches(b"abd", abc));
    assert!(!checksum_matches(b"abc", &abc.to_uppercase()));
    assert!(!checksum_matches(b"abc", "abc"));
    assert!(checksum_matches(
        b"",
        "e3b0c44298fc1c149afbf4c8996fb92427ae41e4649b934ca495991b7852b855"
    ));
}

#[test]
fn update_requests() {
    assert_eq!(arch_label("x86_64"), "x64");
    assert_eq!(arch_label("aarch64"), "arm64");
    assert_eq!(arch_label("arm"), "armv7l");
    assert_eq!(arch_label("riscv64"), "riscv64");
    assert_eq!(
        update_check_url("wss://server:7899/", "linux", "x86_64"),
        "https://server:7899/api/agent/latest?os=linux&arch=x64"
    );
    assert_eq!(
        update_check_url("ws://s", "windows", "mips"),
        "http://s/api/agent/latest?os=windows&arch=mips"
    );
    assert_eq!(check_status(404), CheckStatus::NoUpdate);
    assert_eq!(check_status(200), CheckStatus::Answered);
    assert_eq!(check_status(299), CheckStatus::Answered);
    assert_eq!(check_status(300), CheckStatus::Failed);
    assert_eq!(check_status(199), CheckStatus::Failed);
    assert_eq!(check_status(500), CheckStatus::Failed);
    let latest = LatestVersionInfo {
        version: "0.2.0".to_string(),
        url: "https://s/agent".to_string(),
        sha256: String::new(),
    };
    assert!(update_available(&latest, "0.1.0"));
    assert!(!update_available(&latest, "0.2.0"));
}

#[test]
fn service_files_and_commands() {
    let with_config = SystemdServiceManager::new(
        "/opt/a/agent".to_string(),
        "https://s".to_string(),
        Some("/opt/a/config.json".to_string()),
    );
    let unit = with_config.generate_unit_file();
    assert!(unit.starts_with("[Unit]\nDescription=Android Remote Agent\nAfter=network-online.target\n"));
    assert!(unit.contains(
        "\nUser=android-remote-agent\nExecStart=/opt/a/agent --server-url https://s --config-path /opt/a/config.json\nRestart=always\n"
    ));
    assert!(unit.ends_with("PrivateTmp=true\n\n[Install]\nWantedBy=multi-user.target\n"));
    let bare = SystemdServiceManager::new("/b".to_string(), "ws://s".to_string(), None);
    assert!(bare.generate_unit_file().contains("\nExecStart=/b --server-url ws://s\nRestart=always\n"));
    assert_eq!(
        bare.generate_unit_file(),
        "[Unit]\nDescription=Android Remote Agent\nAfter=network-online.target\nWants=network-online.target\n\n\
[Service]\nType=simple\nUser=android-remote-agent\nExecStart=/b --server-url ws://s\nRestart=always\nRestartSec=10\n\
Environment=AGENT_LOG_LEVEL=info\n\n# Security hardening\nNoNewPrivileges=true\nProtectSystem=strict\n\
ProtectHome=true\nReadWritePaths=/opt/android-remote-agent\nPrivateTmp=true\n\n[Install]\nWantedBy=multi-user.target\n"
    );
    assert!(SystemdServiceManager::is_active_answer("active\n"));
    assert!(!SystemdServiceManager::is_active_answer("inactive\n"));
    assert!(!SystemdServiceManager::is_active_answer(""));

    let windows = WindowsServiceManager::new(
        r"C:\a\agent.exe".to_string(),
        "https://s".to_string(),
        Some(r"C:\a\config.json".to_string()),
    );
    assert_eq!(
        windows.service_command(),
        "\"C:\\a\\agent.exe\" --server-url \"https://s\" --config-path \"C:\\a\\config.json\""
    );
    let windows = WindowsServiceManager::new("a".to_string(), "b".to_string(), None);
    assert_eq!(windows.service_command(), "\"a\" --server-url \"b\"");
    assert!(WindowsServiceManager::already_stopped("The service has not been started."));
    assert!(WindowsServiceManager::already_stopped("[SC] ControlService FAILED 1062:"));
    assert!(!WindowsServiceManager::already_stopped("Access is denied."));
    assert!(WindowsServiceManager::is_running_answer("        STATE : 4  RUNNING \r\n"));
    assert!(!WindowsServiceManager::is_running_answer("        STATE : 1  STOPPED \r\n"));
}

#[test]
fn system_figures() {
    let m = memory_info(MemoryCounters {
        total_kb: 16_000_000,
        available_kb: 4_000_000,
        free_kb: 1,
        buffers_kb: 2,
        cached_kb: 3,
    });
    assert_eq!((m.total_bytes, m.available_bytes, m.used_bytes), (16_384_000_000, 4_096_000_000, 12_288_000_000));
    let old = memory_info(MemoryCounters {
        total_kb: 100,
        available_kb: 0,
        free_kb: 10,
        buffers_kb: 20,
        cached_kb: 30,
    });
    assert_eq!((old.total_bytes, old.available_bytes, old.used_bytes), (102_400, 61_440, 40_960));
    let odd = memory_info(MemoryCounters {
        total_kb: 1,
        available_kb: u64::MAX,
        free_kb: 0,
        buffers_kb: 0,
        cached_kb: 0,
    });
    assert_eq!((odd.total_bytes, odd.available_bytes, odd.used_bytes), (1024, u64::MAX, 0));

    let d = disk_usage("/", "ext4", 4096, 1000, 400, 500).unwrap();
    assert_eq!((d.total_bytes, d.available_bytes, d.used_bytes), (4_096_000, 1_638_400, 2_048_000));
    assert_eq!((d.mount_point.as_str(), d.filesystem.as_str()), ("/", "ext4"));
    assert!(disk_usage("/x", "ext4", 4096, 0, 0, 0).is_none());
    assert!(disk_usage("/x", "ext4", 0, 10, 0, 0).is_none());

    assert!(is_pseudo_filesystem("proc") && is_pseudo_filesystem("tmpfs") && is_pseudo_filesystem("nfsd"));
    assert!(!is_pseudo_filesystem("ext4") && !is_pseudo_filesystem("") && !is_pseudo_filesystem("Proc"));
    assert_eq!(cpu_counts(8, 4), (4, 8));
    assert_eq!(cpu_counts(8, 0), (8, 8));
    assert_eq!(cpu_counts(0, 0), (1, 1));
    assert_eq!(cpu_times(1, 2, 3, 4, 5), (6, 15));
    assert_eq!(cpu_times(u64::MAX, 1, 0, 0, 0), (u64::MAX, u64::MAX));
    assert_eq!(filetime_to_u64(1, 2), 0x1_0000_0002);
    assert_eq!(filetime_to_u64(u32::MAX, u32::MAX), u64::MAX);
    assert_eq!(windows_permissions(true, false), "drw");
    assert_eq!(windows_permissions(false, true), "-r-");
}

#[test]
fn white_space_is_that_of_the_standard_library() {
    for n in 0..=0x10FFFFu32 {
        if let Some(c) = char::from_u32(n) {
            assert_eq!(char_is_whitespace(c), c.is_whitespace(), "U+{:04X}", n);
        }
    }
    assert_eq!(trim("\u{2003}\u{a0} a\u{3000}b \u{85}\u{1680}"), "a\u{3000}b");
    assert_eq!(trim("\u{200b}x\u{feff}"), "\u{200b}x\u{feff}");
}

#[test]
fn install_dialog_checks_its_fields() {
    let p = dialog_params("  https://srv:7899 ", " tok-1\n", true, false).unwrap();
    assert_eq!(p.server_url, "https://srv:7899");
    assert_eq!(p.enroll_token, "tok-1");
    assert!(p.install_service);
    assert!(!p.start_service);
    for url in ["", "   ", "srv:7899", "ftp://srv", "HTTP://srv"] {
        assert_eq!(dialog_params(url, "tok", true, true).unwrap_err(), InstallError::BadScheme);
    }
    for url in ["http://a", "https://a", "ws://a", "wss://a"] {
        assert_eq!(dialog_params(url, " \t", true, true).unwrap_err(), InstallError::EmptyToken);
        assert!(dialog_params(url, "t", false, false).is_ok());
    }
    // the address is judged first
    assert_eq!(dialog_params("x", "", true, true).unwrap_err(), InstallError::BadScheme);
}
