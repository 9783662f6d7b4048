use kiln_gateway::sysmem::meminfo_kib;
use kiln_gateway::sysmem::parse_sole_number;
use kiln_gateway::sysmem::parse_swapusage_used;
use kiln_gateway::sysmem::parse_vm_stat_available;
use kiln_gateway::sysmem::reading_of;
use kiln_gateway::sysmem::reading_of_meminfo;
use kiln_gateway::sysmem::total_of_meminfo;
use kiln_gateway::sysmem::SystemMemory;

#[test]
fn vm_stat_available_is_free_plus_speculative_plus_inactive() {
    let sample = "Mach Virtual Memory Statistics: (page size of 16384 bytes)\n\
                  Pages free:                                    26750.\n\
                  Pages active:                                 176330.\n\
                  Pages inactive:                               161591.\n\
                  Pages speculative:                             13625.\n\
                  Pages throttled:                                   0.\n\
                  Pages purgeable:                                1489.\n";
    assert_eq!(
        parse_vm_stat_available(sample),
        Some((26750 + 13625 + 161591) * 16384)
    );
    assert_eq!(parse_vm_stat_available("garbage"), None);
    // A missing counter is a parse failure, never a silent zero.
    assert_eq!(
        parse_vm_stat_available(
            "Mach Virtual Memory Statistics: (page size of 16384 bytes)\n\
             Pages free: 10.\n"
        ),
        None
    );
}

#[test]
fn swapusage_used_parses_units() {
    let sample = "total = 4096.00M  used = 2493.12M  free = 1602.88M  (encrypted)";
    assert_eq!(
        parse_swapusage_used(sample),
        Some((2493.12 * 1024.0 * 1024.0) as u64)
    );
    assert_eq!(
        parse_swapusage_used("total = 8.00G  used = 1.50G  free = 6.50G"),
        Some((1.5 * 1024.0 * 1024.0 * 1024.0) as u64)
    );
    assert_eq!(parse_swapusage_used("total = 0.00M  used = 0.00M"), Some(0));
    assert_eq!(parse_swapusage_used("no swap here"), None);
}

#[test]
fn pressure_elevation_threshold() {
    let mem = |level| SystemMemory {
        available_bytes: 0,
        swap_used_bytes: 0,
        pressure_level: level,
    };
    assert!(!mem(0).pressure_elevated()); // unavailable fails open
    assert!(!mem(1).pressure_elevated());
    assert!(mem(2).pressure_elevated());
    assert!(mem(4).pressure_elevated());
}

#[test]
fn readings_fail_open_field_by_field() {
    let vm_stat = "Mach Virtual Memory Statistics: (page size of 4096 bytes)\n\
                   Pages free: 1.\nPages inactive: 3.\nPages speculative: 2.\n";
    let full = reading_of(vm_stat, Some("total = 8.00G  used = 1.50K"), Some("2\n"));
    assert_eq!(
        full,
        Some(SystemMemory {
            available_bytes: 6 * 4096,
            swap_used_bytes: 1536,
            pressure_level: 2,
        })
    );
    assert_eq!(
        reading_of(vm_stat, None, Some("junk")),
        Some(SystemMemory {
            available_bytes: 6 * 4096,
            swap_used_bytes: 0,
            pressure_level: 0,
        })
    );
    assert_eq!(reading_of("junk", None, None), None);
}

#[test]
fn meminfo_fields_are_read_in_kib() {
    let text = "MemTotal:       16384 kB\nMemAvailable:    8192 kB\nSwapTotal: 100 kB\nSwapFree: 40 kB\n";
    assert_eq!(meminfo_kib(text, "MemAvailable:"), Some(8192));
    assert_eq!(meminfo_kib(text, "Nothing:"), None);
    assert_eq!(
        total_of_meminfo(meminfo_kib(text, "MemTotal:")),
        Some(16384 * 1024)
    );
    let reading = reading_of_meminfo(
        meminfo_kib(text, "MemAvailable:"),
        meminfo_kib(text, "SwapTotal:"),
        meminfo_kib(text, "SwapFree:"),
    );
    assert_eq!(
        reading,
        Some(SystemMemory {
            available_bytes: 8192 * 1024,
            swap_used_bytes: 60 * 1024,
            pressure_level: 0,
        })
    );
    assert_eq!(reading_of_meminfo(None, Some(1), Some(1)), None);
    assert_eq!(parse_sole_number(" 17179869184\n"), Some(17179869184));
    assert_eq!(parse_sole_number("x"), None);
}

#[test]
fn swapusage_used_reads_every_form_of_a_number() {
    let used = |word: &str| parse_swapusage_used(&format!("total = 1M  used = {word}  free = 0M"));
    assert_eq!(used("1e3M"), Some(1_048_576_000));
    assert_eq!(used("1.5E1K"), Some(15_360));
    assert_eq!(used("2e-1G"), Some(214_748_364));
    assert_eq!(used("25e-2K"), Some(256));
    assert_eq!(used("123456e-3"), Some(123));
    assert_eq!(used(".5e+1"), Some(5));
    assert_eq!(used("5.e0K"), Some(5_120));
    assert_eq!(used("0e999999999999999999999999999999999999999"), Some(0));
    assert_eq!(used("1e-999999999999999999999999999999999999999T"), Some(0));
    assert_eq!(used("1e400T"), Some(u64::MAX));
    assert_eq!(used("1e19"), Some(10_000_000_000_000_000_000));
    assert_eq!(used("1e20"), Some(u64::MAX));
    assert_eq!(used("9e-13T"), Some(0));
    assert_eq!(used("1e-12T"), Some(1));
    assert_eq!(used("-1e3M"), Some(0));
    for word in ["inf", "+INFINITY", "infM", "InfinityK"] {
        assert_eq!(used(word), Some(u64::MAX), "{word}");
    }
    for word in ["-inf", "nan", "-NaNG"] {
        assert_eq!(used(word), Some(0), "{word}");
    }
    for word in ["1e", "e3", "1e+", ".e1", "1e1.5", "1ee1", "infi", "+-1", "1_0", "M"] {
        assert_eq!(used(word), None, "{word}");
    }
}
