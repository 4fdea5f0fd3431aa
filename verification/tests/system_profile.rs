use cocore_provider::json::{parse_str, Json};
use cocore_provider::system_profile::{
    bandwidth_for_chip, bandwidth_for_lowercase, collect, command_text, gpu_cores_of_report,
    hostname, machine_label, parse_cpuinfo_model, parse_gpu_cores, parse_meminfo_total_kb,
    parse_os_release_pretty, sw_vers_product_version, sysctl, sysctl_u32, CommandOutput, Host,
    LinuxProbes, MacProbes, OtherProbes,
};

fn ran(stdout: &str) -> Option<CommandOutput> {
    Some(CommandOutput { success: true, stdout: stdout.as_bytes().to_vec() })
}

fn failed(stdout: &str) -> Option<CommandOutput> {
    Some(CommandOutput { success: false, stdout: stdout.as_bytes().to_vec() })
}

fn linux() -> LinuxProbes {
    LinuxProbes {
        label: None,
        hostname: Some("box-1\n".to_string()),
        cpuinfo: Some("processor\t: 0\nmodel name\t: AMD Ryzen AI Max+ 395\n".to_string()),
        meminfo: Some("MemTotal:       131981312 kB\nMemFree:        1000 kB\n".to_string()),
        os_release: Some("PRETTY_NAME=\"Ubuntu 24.04.1 LTS\"\n".to_string()),
        parallelism: Some(32),
    }
}

fn mac() -> MacProbes {
    MacProbes {
        label: None,
        hostname: ran("studio.local\n"),
        brand: ran("Apple M3 Max\n"),
        memsize: ran("137438953472\n"),
        ncpu: ran("16\n"),
        perflevel0: ran("12\n"),
        perflevel1: ran("4\n"),
        displays: ran("{\"SPDisplaysDataType\":[{\"sppci_cores\":\"40\"}]}"),
        model: ran("Mac15,9\n"),
        product_version: ran("14.5\n"),
    }
}

#[test]
fn bandwidth_table_picks_specific_before_base() {
    assert_eq!(bandwidth_for_chip("Apple M3 Max"), Some(400));
    assert_eq!(bandwidth_for_chip("Apple M3 Pro"), Some(150));
    assert_eq!(bandwidth_for_chip("Apple M3"), Some(100));
    assert_eq!(bandwidth_for_chip("Apple M1"), Some(68));
    assert_eq!(bandwidth_for_chip("Apple M4 Pro"), Some(273));
    assert_eq!(bandwidth_for_chip("Apple M2 Ultra"), Some(800));
}

#[test]
fn bandwidth_returns_none_for_unknown_chip() {
    assert_eq!(bandwidth_for_chip("Intel Core i9"), None);
    assert_eq!(bandwidth_for_chip(""), None);
}

#[test]
fn bandwidth_of_every_family() {
    let rows = [
        ("M4 Max", 546),
        ("M4 Pro", 273),
        ("M4", 120),
        ("M3 Ultra", 800),
        ("M3 Max", 400),
        ("M3 Pro", 150),
        ("M3", 100),
        ("M2 Ultra", 800),
        ("M2 Max", 400),
        ("M2 Pro", 200),
        ("M2", 100),
        ("M1 Ultra", 800),
        ("M1 Max", 400),
        ("M1 Pro", 200),
        ("M1", 68),
    ];
    for (name, gbs) in rows {
        assert_eq!(bandwidth_for_chip(&format!("Apple {name}")), Some(gbs));
        assert_eq!(bandwidth_for_chip(&name.to_uppercase()), Some(gbs));
        assert_eq!(bandwidth_for_lowercase(&name.to_lowercase()), Some(gbs));
    }
    // The name is not folded a second time.
    assert_eq!(bandwidth_for_lowercase("M1"), None);
    // No chip goes by the name of an M4 Ultra, so the base row of the family counts.
    assert_eq!(bandwidth_for_chip("Apple M4 Ultra"), Some(120));
}

#[test]
fn parses_memtotal_to_kb() {
    let meminfo = "MemTotal:       131981312 kB\nMemFree:        1000 kB\n";
    assert_eq!(parse_meminfo_total_kb(meminfo), Some(131_981_312));
    assert_eq!((131_981_312u64 / (1024 * 1024)) as u32, 125);
}

#[test]
fn memtotal_absent_is_none() {
    assert_eq!(parse_meminfo_total_kb("MemFree: 1000 kB\n"), None);
}

#[test]
fn memtotal_edge_cases() {
    assert_eq!(parse_meminfo_total_kb(""), None);
    assert_eq!(parse_meminfo_total_kb("MemTotal:"), None);
    assert_eq!(parse_meminfo_total_kb("MemTotal: \u{3000}7\u{a0}kB"), Some(7));
    assert_eq!(parse_meminfo_total_kb("MemTotal:+7\r\n"), Some(7));
    assert_eq!(parse_meminfo_total_kb("MemTotal: -7 kB"), None);
    assert_eq!(parse_meminfo_total_kb("MemTotal: 7kB"), None);
    assert_eq!(parse_meminfo_total_kb("MemTotal: 18446744073709551615"), Some(u64::MAX));
    assert_eq!(parse_meminfo_total_kb("MemTotal: 18446744073709551616"), None);
    // The first such line decides, even where it holds no number.
    assert_eq!(parse_meminfo_total_kb("MemTotal: x\nMemTotal: 7 kB\n"), None);
    assert_eq!(parse_meminfo_total_kb(" MemTotal: 1\nMemTotal: 7 kB"), Some(7));
}

#[test]
fn parses_cpuinfo_model_name() {
    let cpuinfo = "processor\t: 0\nvendor_id\t: AuthenticAMD\n\
                   model name\t: AMD Ryzen AI Max+ 395 w/ Radeon 8060S\n";
    assert_eq!(
        parse_cpuinfo_model(cpuinfo).as_deref(),
        Some("AMD Ryzen AI Max+ 395 w/ Radeon 8060S")
    );
}

#[test]
fn cpuinfo_falls_back_to_arm_fields() {
    let cpuinfo = "processor\t: 0\nBogoMIPS\t: 108.00\nModel\t: Raspberry Pi 5\n";
    assert_eq!(parse_cpuinfo_model(cpuinfo).as_deref(), Some("Raspberry Pi 5"));
}

#[test]
fn cpuinfo_edge_cases() {
    assert_eq!(parse_cpuinfo_model(""), None);
    assert_eq!(parse_cpuinfo_model("model name\n"), None);
    assert_eq!(parse_cpuinfo_model("model name :  \nHardware: BCM2835").as_deref(), Some("BCM2835"));
    assert_eq!(parse_cpuinfo_model("Model: b\nmodel name: a").as_deref(), Some("a"));
    assert_eq!(parse_cpuinfo_model("Hardware: c\nModel: b").as_deref(), Some("b"));
    assert_eq!(parse_cpuinfo_model("model name: \nmodel name: x: y").as_deref(), Some("x: y"));
    assert_eq!(parse_cpuinfo_model("Model Name: a"), None);
}

#[test]
fn parses_pretty_name_unquoted() {
    let osr = "NAME=\"Ubuntu\"\nPRETTY_NAME=\"Ubuntu 24.04.1 LTS\"\nID=ubuntu\n";
    assert_eq!(parse_os_release_pretty(osr).as_deref(), Some("Ubuntu 24.04.1 LTS"));
}

#[test]
fn pretty_name_edge_cases() {
    assert_eq!(parse_os_release_pretty("ID=x\n"), None);
    assert_eq!(parse_os_release_pretty("PRETTY_NAME=").as_deref(), Some(""));
    assert_eq!(parse_os_release_pretty("PRETTY_NAME=Arch Linux\r\n").as_deref(), Some("Arch Linux"));
    assert_eq!(parse_os_release_pretty("PRETTY_NAME= \"\" a \"\n").as_deref(), Some(" a "));
    assert_eq!(parse_os_release_pretty("PRETTY_NAME=\"\"\"").as_deref(), Some(""));
}

#[test]
fn collect_returns_plausible_data() {
    let p = collect(&Host::Linux(linux()));
    assert!(!p.chip.is_empty());
    assert!(p.ram_gb < 4096);
    let q = collect(&Host::MacOs(mac()));
    assert!(!q.chip.is_empty());
    assert!(q.ram_gb < 4096);
    let r = collect(&Host::Other(OtherProbes { label: None, parallelism: None }));
    assert!(!r.chip.is_empty());
    assert!(r.ram_gb < 4096);
}

#[test]
fn linux_profile_fields() {
    let p = collect(&Host::Linux(linux()));
    assert_eq!(p.machine_label, "box-1");
    assert_eq!(p.chip, "AMD Ryzen AI Max+ 395");
    assert_eq!(p.ram_gb, 125);
    assert_eq!(p.cpu_cores, Some(32));
    assert_eq!((p.p_cores, p.e_cores, p.gpu_cores), (None, None, None));
    assert_eq!(p.memory_bandwidth_gbs, None);
    assert_eq!(p.model_identifier, None);
    assert_eq!(p.os.as_deref(), Some("Ubuntu 24.04.1 LTS"));
}

#[test]
fn linux_probe_failures_stay_in_their_field() {
    let all = collect(&Host::Linux(linux()));
    let p = collect(&Host::Linux(LinuxProbes { cpuinfo: None, ..linux() }));
    assert_eq!(p.chip, "unknown");
    assert_eq!((p.ram_gb, &p.os, &p.machine_label), (all.ram_gb, &all.os, &all.machine_label));
    let p = collect(&Host::Linux(LinuxProbes { meminfo: None, ..linux() }));
    assert_eq!(p.ram_gb, 0);
    assert_eq!((&p.chip, p.cpu_cores), (&all.chip, all.cpu_cores));
    let none = collect(&Host::Linux(LinuxProbes {
        label: Some("  ".to_string()),
        hostname: Some(" \n".to_string()),
        cpuinfo: None,
        meminfo: None,
        os_release: None,
        parallelism: None,
    }));
    assert_eq!(none.machine_label, "linux host");
    assert_eq!(none.chip, "unknown");
    assert_eq!((none.ram_gb, none.cpu_cores, none.os), (0, None, None));
}

#[test]
fn ram_keeps_the_lowest_bits() {
    let p = collect(&Host::Linux(LinuxProbes {
        meminfo: Some("MemTotal: 18446744073709551615 kB".to_string()),
        ..linux()
    }));
    assert_eq!(p.ram_gb, (u64::MAX / (1024 * 1024)) as u32);
}

#[test]
fn mac_profile_fields() {
    let p = collect(&Host::MacOs(mac()));
    assert_eq!(p.machine_label, "studio.local");
    assert_eq!(p.chip, "Apple M3 Max");
    assert_eq!(p.ram_gb, 128);
    assert_eq!((p.cpu_cores, p.p_cores, p.e_cores), (Some(16), Some(12), Some(4)));
    assert_eq!(p.gpu_cores, Some(40));
    assert_eq!(p.memory_bandwidth_gbs, Some(400));
    assert_eq!(p.model_identifier.as_deref(), Some("Mac15,9"));
    assert_eq!(p.os.as_deref(), Some("macOS 14.5"));
}

#[test]
fn mac_probe_failures() {
    let p = collect(&Host::MacOs(MacProbes {
        label: None,
        hostname: None,
        brand: failed("Apple M3"),
        memsize: ran("many"),
        ncpu: ran("-1"),
        perflevel0: ran(""),
        perflevel1: None,
        displays: ran("not json"),
        model: ran("  \n"),
        product_version: failed("14.5"),
    }));
    assert_eq!(p.machine_label, "macOS host");
    assert_eq!(p.chip, "unknown");
    assert_eq!(p.ram_gb, 0);
    assert_eq!((p.cpu_cores, p.p_cores, p.e_cores, p.gpu_cores), (None, None, None, None));
    assert_eq!(p.memory_bandwidth_gbs, None);
    assert_eq!(p.model_identifier, None);
    assert_eq!(p.os, None);
}

#[test]
fn other_profile_fields() {
    let p = collect(&Host::Other(OtherProbes { label: Some(" mine ".to_string()), parallelism: Some(8) }));
    assert_eq!(p.machine_label, "mine");
    assert_eq!(p.chip, "unknown");
    assert_eq!((p.ram_gb, p.cpu_cores), (0, Some(8)));
    let q = collect(&Host::Other(OtherProbes { label: None, parallelism: None }));
    assert_eq!((q.machine_label.as_str(), q.cpu_cores), ("host", None));
}

#[test]
fn label_wins_over_hostname() {
    let chosen = Some("\tden \n".to_string());
    assert_eq!(machine_label(&chosen, Some("host.local".to_string()), "f"), "den");
    assert_eq!(machine_label(&Some(" ".to_string()), Some("host.local".to_string()), "f"), "host.local");
    assert_eq!(machine_label(&None, None, "f"), "f");
}

#[test]
fn hostnames() {
    assert_eq!(hostname(&Some("a b\n".to_string())).as_deref(), Some("a b"));
    assert_eq!(hostname(&Some("\n".to_string())), None);
    assert_eq!(hostname(&None), None);
    // A command that printed nothing still succeeded.
    assert_eq!(command_text(&ran(" \n")).as_deref(), Some(""));
    assert_eq!(sw_vers_product_version(&ran("14.5\n")).as_deref(), Some("14.5"));
}

#[test]
fn command_output_that_is_not_utf8() {
    let out = Some(CommandOutput { success: true, stdout: vec![b' ', b'a', 0xff, b'b', b'\n'] });
    assert_eq!(command_text(&out).as_deref(), Some("a\u{fffd}b"));
    assert_eq!(sysctl(&out).as_deref(), Some("a\u{fffd}b"));
    assert_eq!(sysctl_u32(&out), None);
}

#[test]
fn sysctl_values() {
    assert_eq!(sysctl(&ran("x\n")).as_deref(), Some("x"));
    assert_eq!(sysctl(&ran(" \n")), None);
    assert_eq!(sysctl(&failed("x")), None);
    assert_eq!(sysctl(&None), None);
    assert_eq!(sysctl_u32(&ran("4294967295\n")), Some(u32::MAX));
    assert_eq!(sysctl_u32(&ran("4294967296\n")), None);
}

#[test]
fn gpu_cores_come_from_the_first_entry_that_has_them() {
    let report = "{\"SPDisplaysDataType\":[{\"x\":1},{\"sppci_cores\":40},{\"sppci_cores\":\"many\"},\
                  {\"sppci_cores\":\"38\"},{\"sppci_cores\":\"40\"}]}";
    assert_eq!(parse_gpu_cores(&ran(report)), Some(38));
    assert_eq!(gpu_cores_of_report(&parse_str(report).unwrap()), Some(38));
    assert_eq!(parse_gpu_cores(&failed(report)), None);
    assert_eq!(parse_gpu_cores(&None), None);
    assert_eq!(parse_gpu_cores(&ran("{\"SPDisplaysDataType\":{}}")), None);
    assert_eq!(parse_gpu_cores(&ran("[]")), None);
    assert_eq!(gpu_cores_of_report(&Json::Null), None);
}

#[test]
fn bandwidth_ignores_case() {
    for name in ["APPLE M4 MAX", "apple m4 max", "Apple M4 Max", "aPPLE m4 mAX"] {
        assert_eq!(bandwidth_for_chip(name), Some(546));
    }
    // Names that are not ASCII, one with a sigma at a word's end.
    for (a, b) in [("\u{c9}M3 PRO", "\u{c9}m3 pro"), ("A\u{3a3} M1", "a\u{3a3} m1")] {
        assert_eq!(a.to_lowercase(), b.to_lowercase());
        assert_eq!(bandwidth_for_chip(a), bandwidth_for_chip(b));
        assert!(bandwidth_for_chip(a).is_some());
    }
}

#[test]
fn mac_profile_has_the_chips_bandwidth() {
    let probes = MacProbes { brand: ran("Apple M3 Pro\n"), ..mac() };
    assert_eq!(collect(&Host::MacOs(probes)).memory_bandwidth_gbs, Some(150));
}
