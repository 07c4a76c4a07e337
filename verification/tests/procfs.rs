use remote_agent::procfs::{
    ipv6_address, mount_entries, parse_cpu_count, parse_cpu_model, parse_meminfo, pretty_name,
    read_cpu_times, read_meminfo,
};
use remote_agent::scan::{parse_u32, parse_u64, split_lines, split_tokens};

const MEMINFO: &str = "MemTotal:       16303428 kB\nMemFree:         1234567 kB\nMemAvailable:    8000000 kB\nBuffers:          100000 kB\nCached:          2000000 kB\nSwapCached:            0 kB\nBogus line\nMemFree: notanumber kB\n";

#[test]
fn lines_split_like_std() {
    for s in ["", "a", "a\n", "a\nb", "a\r\nb\r\n", "\n", "\n\n", "a\r", "\r\n", "x\n\ny\n", "a\rb\n", "é\nü"] {
        let expected: Vec<&str> = s.lines().collect();
        assert_eq!(split_lines(s), expected, "{:?}", s);
    }
}

#[test]
fn words_split_like_std() {
    for s in ["", " ", "a", "  a  b\tc\n", "a\u{a0}b\u{2003}c", "cpu  1 2 3", "\n x", "é ü "] {
        let expected: Vec<&str> = s.split_whitespace().collect();
        assert_eq!(split_tokens(s), expected, "{:?}", s);
    }
}

#[test]
fn numbers_parse_like_std() {
    for s in ["0", "+7", "007", "18446744073709551615", "18446744073709551616", "", "+", "-1", "1 ", " 1", "1_000", "12a", "++1", "٣"] {
        assert_eq!(parse_u64(s), s.parse::<u64>().ok(), "{:?}", s);
        assert_eq!(parse_u32(s), s.parse::<u32>().ok(), "{:?}", s);
    }
    assert_eq!(parse_u32("4294967295"), Some(u32::MAX));
    assert_eq!(parse_u32("4294967296"), None);
}

#[test]
fn meminfo_is_read() {
    let c = read_meminfo(MEMINFO);
    assert_eq!(
        (c.total_kb, c.free_kb, c.available_kb, c.buffers_kb, c.cached_kb),
        (16303428, 1234567, 8000000, 100000, 2000000)
    );
    let m = parse_meminfo(MEMINFO);
    assert_eq!(m.total_bytes, 16303428 * 1024);
    assert_eq!(m.available_bytes, 8000000 * 1024);
    assert_eq!(m.used_bytes, (16303428 - 8000000) * 1024);
    let old = parse_meminfo("MemTotal: 1000 kB\nMemFree: 100 kB\nBuffers: 20 kB\nCached: 30 kB\n");
    assert_eq!((old.total_bytes, old.available_bytes, old.used_bytes), (1_024_000, 153_600, 870_400));
    let empty = parse_meminfo("");
    assert_eq!((empty.total_bytes, empty.available_bytes, empty.used_bytes), (0, 0, 0));
    // a later line wins
    assert_eq!(read_meminfo("MemTotal: 1\nMemTotal: 2\n").total_kb, 2);
}

#[test]
fn cpuinfo_is_read() {
    let cpuinfo = "processor\t: 0\nmodel name\t: Intel(R) Core(TM) i7 : extra\ncore id\t\t: 0\n\nprocessor\t: 1\nmodel name\t: second\ncore id\t\t: 0\n\nprocessor\t: 2\ncore id\t\t: 1\nprocessor\t: 3\ncore id\t\t: 1\n";
    assert_eq!(parse_cpu_model(cpuinfo), Some("Intel(R) Core(TM) i7".to_string()));
    assert_eq!(parse_cpu_count(cpuinfo), (2, 4));
    assert_eq!(parse_cpu_model("model name without colon\nmodel name: x\n"), Some("x".to_string()));
    assert_eq!(parse_cpu_model("model name:\n"), Some(String::new()));
    assert_eq!(parse_cpu_model("Model name: x\n"), None);
    assert_eq!(parse_cpu_model(""), None);
    assert_eq!(parse_cpu_count(""), (1, 1));
    assert_eq!(parse_cpu_count("processor: 0\nprocessor: 1\n"), (2, 2));
    assert_eq!(parse_cpu_count("core id: 5\ncore id: x\ncore id: 5\ncore id: 6\n"), (2, 1));
}

#[test]
fn cpu_times_are_read() {
    assert_eq!(
        read_cpu_times("cpu  100 20 30 400 50 6 7 8\ncpu0 1 2 3 4\n"),
        Some((150, 600))
    );
    assert_eq!(read_cpu_times("cpu 1 2 3 4\n"), Some((6, 10)));
    assert_eq!(read_cpu_times("cpu 1 2 3\n"), None);
    // words that write no number are passed over
    assert_eq!(read_cpu_times("cpu 1 x 2 3 4 y 5\n"), Some((6, 15)));
    assert_eq!(read_cpu_times(""), None);
    assert_eq!(read_cpu_times("\ncpu 1 2 3 4\n"), None);
    assert_eq!(read_cpu_times("1 2 3 4 5\n"), Some((9, 14)));
}

#[test]
fn mounts_are_read() {
    let mounts = "/dev/sda1 / ext4 rw,relatime 0 0\nproc /proc proc rw 0 0\ntmpfs /run tmpfs rw 0 0\n/dev/sdb1 /data xfs rw 0 0\nshort line\n//nas/share /mnt/nas cifs rw 0 0\n";
    let out = mount_entries(mounts);
    let pairs: Vec<(&str, &str)> =
        out.iter().map(|m| (m.mount_point.as_str(), m.filesystem.as_str())).collect();
    assert_eq!(pairs, vec![("/", "ext4"), ("/data", "xfs"), ("/mnt/nas", "cifs")]);
    assert!(mount_entries("").is_empty());
}

#[test]
fn ipv6_addresses_are_read() {
    let table = "fe800000000000000a0027fffe4e66a1 02 40 20 80    eth0\n20010db8000000000000000000000001 02 40 00 00    eth0\n00000000000000000000000000000001 01 80 10 80       lo\n20010db8000000000000000000000002 03 40 00 00   wlan0\n";
    assert_eq!(
        ipv6_address(table, "eth0"),
        Some("2001:0db8:0000:0000:0000:0000:0000:0001".to_string())
    );
    assert_eq!(
        ipv6_address(table, "wlan0"),
        Some("2001:0db8:0000:0000:0000:0000:0000:0002".to_string())
    );
    assert_eq!(ipv6_address(table, "eth1"), None);
    assert_eq!(ipv6_address("fe800000000000000a0027fffe4e66a1 02 40 20 80 eth0\n", "eth0"), None);
    assert_eq!(ipv6_address("2001 02 40 20 80 eth0\n", "eth0"), None);
    assert_eq!(ipv6_address("", "eth0"), None);
}

#[test]
fn release_name_is_read() {
    let release = "NAME=\"Debian GNU/Linux\"\nPRETTY_NAME=\"Debian GNU/Linux 12 (bookworm)\"\nVERSION_ID=\"12\"\n";
    assert_eq!(pretty_name(release), Some("Debian GNU/Linux 12 (bookworm)".to_string()));
    assert_eq!(pretty_name("PRETTY_NAME=Arch Linux\n"), Some("Arch Linux".to_string()));
    assert_eq!(pretty_name("PRETTY_NAME=PRETTY_NAME=\"\"x\"\"\n"), Some("x".to_string()));
    assert_eq!(pretty_name("PRETTY_NAME=\n"), Some(String::new()));
    assert_eq!(pretty_name(" PRETTY_NAME=x\n"), None);
    assert_eq!(pretty_name(""), None);
}
