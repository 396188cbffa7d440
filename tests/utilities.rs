use reutils::err::{exit_code, Error};
use reutils::platform::fsent::{get_path_mountpoint, FilesystemEntry, FilesystemStats};
use reutils::platform::hostinfo::version;
use reutils::platform::hostinfo::version::{
    is_windows_10_or_greater, is_windows_11_or_greater, is_windows_7_or_greater,
    is_windows_7_sp1_or_greater, is_windows_8_or_greater, is_windows_8_point_1_or_greater,
    is_windows_threshold_or_greater, is_windows_vista_or_greater, is_windows_vista_sp1_or_greater,
    is_windows_vista_sp2_or_greater, is_windows_xp_or_greater, is_windows_xp_sp1_or_greater,
    is_windows_xp_sp2_or_greater, is_windows_xp_sp3_or_greater, OsVersion,
};
use reutils::utils::basename::basename;
use reutils::utils::df::{capacity_percent, scale_blocks};
use reutils::utils::dirname::dirname;
use reutils::utils::ln_link::{ln_options, util_link, LinkType};
use reutils::utils::uname::{
    uname, Machine, NodeName, Release, SysName, UnameFields, UnameFlags, Version,
};
use reutils::utils::wc::{
    count_stats_bytes, count_stats_str, finish_words, CountStatsState, Flags, FlagsUnitType,
    Stats,
};
use reutils::utils::{false_, get_util_name, paths, true_};

fn os(major: u32, minor: u32, service_pack: u16, build: u32) -> OsVersion {
    OsVersion { major, minor, service_pack, build }
}

#[test]
fn error_constructors() {
    let e = Error::new(3, "boom".to_string());
    assert_eq!(e.code, 3);
    assert_eq!(e.message.as_deref(), Some("boom"));
    let e = Error::new_nomsg(7);
    assert_eq!(e.code, 7);
    assert!(e.message.is_none());
    assert_eq!(exit_code(&Ok(())), 0);
    assert_eq!(exit_code(&Err(Error::new_nomsg(4))), 4);
}

#[test]
fn windows_version_checks() {
    let xp_sp2 = os(5, 1, 2, 2600);
    assert!(is_windows_xp_or_greater(&xp_sp2));
    assert!(is_windows_xp_sp1_or_greater(&xp_sp2));
    assert!(is_windows_xp_sp2_or_greater(&xp_sp2));
    assert!(!is_windows_xp_sp3_or_greater(&xp_sp2));
    assert!(!is_windows_vista_or_greater(&xp_sp2));
    let vista_sp1 = os(6, 0, 1, 6001);
    assert!(is_windows_vista_or_greater(&vista_sp1));
    assert!(is_windows_vista_sp1_or_greater(&vista_sp1));
    assert!(!is_windows_vista_sp2_or_greater(&vista_sp1));
    assert!(!is_windows_7_or_greater(&vista_sp1));
    let seven = os(6, 1, 1, 7601);
    assert!(is_windows_7_or_greater(&seven));
    assert!(is_windows_7_sp1_or_greater(&seven));
    assert!(!is_windows_8_or_greater(&seven));
    let eight_one = os(6, 3, 0, 9600);
    assert!(is_windows_8_or_greater(&eight_one));
    assert!(is_windows_8_point_1_or_greater(&eight_one));
    assert!(!is_windows_threshold_or_greater(&eight_one));
    let ten = os(10, 0, 0, 19045);
    assert!(is_windows_threshold_or_greater(&ten));
    assert!(is_windows_10_or_greater(&ten));
    assert!(!is_windows_11_or_greater(&ten));
    assert!(!is_windows_11_or_greater(&os(10, 0, 1, 0)));
    assert!(is_windows_10_or_greater(&os(10, 0, 1, 0)));
    assert!(!is_windows_11_or_greater(&os(6, 3, 0, 30000)));
    let eleven = os(10, 0, 0, 22631);
    assert!(is_windows_11_or_greater(&eleven));
}

#[test]
fn windows_version_string() {
    assert_eq!(version(&os(10, 0, 0, 22631), false), "Windows 11 Client");
    assert_eq!(version(&os(10, 0, 0, 19045), true), "Windows 10 Server");
    assert_eq!(version(&os(10, 0, 1, 0), false), "Windows 10 Client");
    assert_eq!(version(&os(6, 1, 1, 7601), false), "Windows 7 SP1 Client");
    assert_eq!(version(&os(5, 1, 3, 2600), false), "Windows XP SP3 Client");
    assert_eq!(version(&os(5, 0, 0, 2195), true), "Windows <unknown> Server");
}

#[test]
fn mountpoint_is_last_ancestor_on_same_device() {
    let chain = vec![
        ("/home/u/docs".to_string(), 7u64),
        ("/home/u".to_string(), 7u64),
        ("/home".to_string(), 7u64),
        ("/".to_string(), 1u64),
    ];
    assert_eq!(get_path_mountpoint(&chain), "/home");
    let root = vec![("/etc".to_string(), 1u64), ("/".to_string(), 1u64)];
    assert_eq!(get_path_mountpoint(&root), "/");
    let own = vec![("/mnt/x".to_string(), 9u64), ("/mnt".to_string(), 1u64)];
    assert_eq!(get_path_mountpoint(&own), "/mnt/x");
}

#[test]
fn filesystem_records_hold_their_fields() {
    let e = FilesystemEntry {
        filesystem_name: "ext4".to_string(),
        mount_point: "/".to_string(),
        mount_from: "/dev/sda1".to_string(),
        mount_options: "rw".to_string(),
    };
    assert_eq!(e.mount_from, "/dev/sda1");
    let s = FilesystemStats { block_size: 4096, blocks_total: 10, blocks_free: 4, blocks_available: 3 };
    assert_eq!(s.blocks_total - s.blocks_free, 6);
}

#[test]
fn install_table() {
    let p = paths();
    assert_eq!(p.len(), 22);
    assert_eq!(p[0], ("basename", "usr/bin/basename"));
    assert!(p.contains(&("tail", "usr/bin/tail")));
    assert!(p.contains(&("reutils", "usr/sbin/reutils")));
}

#[test]
fn utility_name_from_program_path() {
    assert_eq!(get_util_name("/usr/bin/tail"), Some("tail".to_string()));
    assert_eq!(get_util_name("wc"), Some("wc".to_string()));
    assert_eq!(get_util_name("/"), None);
}

#[test]
fn basename_and_dirname() {
    assert_eq!(basename("/usr/lib/libc.so").ok(), Some("libc.so".to_string()));
    assert_eq!(basename("/").ok(), Some("/".to_string()));
    assert_eq!(dirname("/usr/lib/libc.so").ok(), Some("/usr/lib".to_string()));
    assert_eq!(dirname("/").ok(), Some("/".to_string()));
    assert_eq!(dirname("file").ok(), Some("".to_string()));
}

#[test]
fn true_and_false() {
    let args = vec!["x".to_string()];
    assert!(true_::util(&args).is_ok());
    let e = false_::util(&args).err().unwrap();
    assert_eq!(e.code, 1);
    assert!(e.message.is_none());
}

#[test]
fn link_arguments() {
    let short = vec!["link".to_string(), "a".to_string()];
    let e = util_link(&short).err().unwrap();
    assert_eq!(e.code, 1);
    let full = vec!["link".to_string(), "a".to_string(), "b".to_string()];
    let q = util_link(&full).ok().unwrap();
    assert_eq!(q.old, "a");
    assert_eq!(q.new, "b");
    assert_eq!(q.link_type, LinkType::HardlinkNormal);
    assert!(!q.force);
}

#[test]
fn ln_option_rules() {
    let (t, f) = ln_options(&vec!['s', 'f']).ok().unwrap();
    assert_eq!(t, LinkType::Symlink);
    assert!(f);
    let (t, f) = ln_options(&vec!['L']).ok().unwrap();
    assert_eq!(t, LinkType::HardlinkToSymlink);
    assert!(!f);
    assert!(ln_options(&vec!['L', 'P']).is_err());
    assert!(ln_options(&vec!['P', 'L']).is_err());
    let (t, _) = ln_options(&vec!['P', 's', 'L']).ok().unwrap();
    assert_eq!(t, LinkType::HardlinkToSymlink);
    let (t, _) = ln_options(&vec![]).ok().unwrap();
    assert_eq!(t, LinkType::HardlinkNormal);
}

#[test]
fn uname_option_rules() {
    let f = UnameFlags::from_options(&vec![]);
    assert_eq!(f.sysname, SysName::ShowSysName);
    assert_eq!(f.nodename, NodeName::NoNodeName);
    let f = UnameFlags::from_options(&vec!['a']);
    assert_eq!(f.machine, Machine::ShowMachine);
    assert_eq!(f.version, Version::ShowVersion);
    let f = UnameFlags::from_options(&vec!['r', 'm']);
    assert_eq!(f.sysname, SysName::NoSysName);
    assert_eq!(f.release, Release::ShowRelease);
    assert_eq!(f.machine, Machine::ShowMachine);
    assert_eq!(UnameFlags::new().sysname, SysName::NoSysName);
}

#[test]
fn uname_output() {
    let fields = UnameFields {
        sysname: "Linux".to_string(),
        nodename: "host".to_string(),
        release: "6.1".to_string(),
        version: "#1 SMP".to_string(),
        machine: "x86_64".to_string(),
    };
    assert_eq!(uname(&UnameFlags::from_options(&vec![]), &fields), "Linux");
    assert_eq!(uname(&UnameFlags::from_options(&vec!['a']), &fields), "Linux host 6.1 #1 SMP x86_64");
    assert_eq!(uname(&UnameFlags::from_options(&vec!['m', 'n']), &fields), "host x86_64");
    let sparse = UnameFields {
        sysname: "a".to_string(),
        nodename: "".to_string(),
        release: "r ".to_string(),
        version: "".to_string(),
        machine: "".to_string(),
    };
    assert_eq!(uname(&UnameFlags::from_options(&vec!['s', 'n']), &sparse), "a");
    assert_eq!(uname(&UnameFlags::from_options(&vec!['r']), &sparse), "r");
    assert_eq!(uname(&UnameFlags::from_options(&vec!['s', 'n', 'r']), &sparse), "a  r");
}

#[test]
fn window_getters_report_invariants() {
    let w = reutils::window::Window::new(3);
    assert_eq!(w.capacity(), 3);
    assert_eq!(w.len(), 0);
}

#[test]
fn wc_counts_bytes() {
    let mut st = CountStatsState::new();
    let s = count_stats_bytes(b"hello world\nfoo", &mut st);
    assert_eq!((s.chars, s.words, s.lines), (15, 2, 1));
    assert!(st.in_word);
    let s2 = count_stats_bytes(b"bar baz\n", &mut st);
    assert_eq!((s2.chars, s2.words, s2.lines), (8, 2, 1));
    assert!(!st.in_word);
    let mut total = Stats::new();
    total.add(&s);
    total.add(&s2);
    finish_words(&mut total, &st);
    assert_eq!((total.chars, total.words, total.lines), (23, 4, 2));
}

#[test]
fn wc_counts_characters() {
    let mut st = CountStatsState::new();
    let s = count_stats_str("héllo\u{3000}wörld\n", &mut st);
    assert_eq!((s.chars, s.words, s.lines), (12, 2, 1));
    let mut st = CountStatsState::new();
    let s = count_stats_str("tail", &mut st);
    assert_eq!(s.words, 0);
    let mut s = s;
    finish_words(&mut s, &st);
    assert_eq!(s.words, 1);
}

#[test]
fn wc_option_rules() {
    let f = Flags::from_options(&vec![]);
    assert_eq!(f.chars_bytes, FlagsUnitType::Byte);
    assert!(f.lines && f.words);
    let f = Flags::from_options(&vec!['l']);
    assert_eq!(f.chars_bytes, FlagsUnitType::NoneType);
    assert!(f.lines && !f.words);
    let f = Flags::from_options(&vec!['c', 'm']);
    assert_eq!(f.chars_bytes, FlagsUnitType::Char);
    assert!(!f.lines);
    let f = Flags::new();
    assert_eq!(f.chars_bytes, FlagsUnitType::NoneType);
}

#[test]
fn df_block_arithmetic() {
    assert_eq!(scale_blocks(10, 4096, 1024), 40);
    assert_eq!(scale_blocks(3, 512, 1024), 1);
    assert_eq!(
        scale_blocks(u64::MAX, u64::MAX, 1),
        u128::from(u64::MAX) * u128::from(u64::MAX)
    );
    assert_eq!(capacity_percent(100, 25), 76);
    assert_eq!(capacity_percent(100, 100), 0);
    assert_eq!(capacity_percent(0, 5), 100);
    assert_eq!(capacity_percent(10, 0), 100);
    assert_eq!(capacity_percent(10, 15), -49);
}
