//! What the machine can hand out right now, as opposed to the configured
//! share of installed memory the budget is cut from.

use crate::scan;
use crate::text;
use vstd::prelude::*;

verus! {

/// One point-in-time reading. All zeros are legal (a partial probe fails
/// open field by field); a probe that cannot establish `available_bytes`
/// gives no reading at all.
#[derive(Debug, Clone, Copy, PartialEq, Eq, Structural)]
pub struct SystemMemory {
    /// Free, speculative and inactive pages, in bytes.
    pub available_bytes: u64,
    /// Swap currently allocated by the system. Reported for observability,
    /// deliberately not a gate: swap stays allocated long after the pressure
    /// that created it has passed.
    pub swap_used_bytes: u64,
    /// The kernel's live signal: 1 normal, 2 warning, 4 critical; 0 when it
    /// is unavailable, which counts as normal.
    pub pressure_level: u32,
}

impl SystemMemory {
    pub open spec fn spec_pressure_elevated(self) -> bool {
        self.pressure_level >= 2
    }

    /// The kernel says the machine is already under memory pressure: the
    /// compressor or swap is actively working, and admitting new model bytes
    /// would compound it.
    pub fn pressure_elevated(&self) -> (r: bool)
        ensures
            r == self.spec_pressure_elevated(),
    {
        self.pressure_level >= 2
    }
}

/// The page size in the first line of `vm_stat` output.
pub open spec fn page_size(lines: Seq<Seq<char>>) -> Option<int> {
    if lines.len() == 0 {
        None
    } else {
        match scan::second_part(lines[0], "page size of"@) {
            None => None,
            Some(rest) => match scan::first_word(rest) {
                None => None,
                Some(w) => scan::number(w, u64::MAX as int),
            },
        }
    }
}

/// The page count on the first line that starts with `prefix`.
pub open spec fn page_count(lines: Seq<Seq<char>>, prefix: Seq<char>) -> Option<int> {
    match scan::field_line(lines, prefix, 0) {
        None => None,
        Some(rest) => scan::number(scan::trim_end_char(scan::trim(rest), '.'), u64::MAX as int),
    }
}

/// Free, speculative and inactive pages times the page size. A missing
/// counter is a failure, never a silent zero, and so is a result beyond 64
/// bits.
pub open spec fn vm_stat_available(text: Seq<char>) -> Option<int> {
    let lines = scan::lines(text);
    match (
        page_size(lines),
        page_count(lines, "Pages free:"@),
        page_count(lines, "Pages speculative:"@),
        page_count(lines, "Pages inactive:"@),
    ) {
        (Some(size), Some(a), Some(b), Some(c)) => if a + b + c <= u64::MAX && (a + b + c) * size
            <= u64::MAX {
            Some((a + b + c) * size)
        } else {
            None
        },
        _ => None,
    }
}

/// An optional 64-bit number as an optional integer.
pub open spec fn as_int(n: Option<u64>) -> Option<int> {
    match n {
        Some(n) => Some(n as int),
        None => None,
    }
}

fn read_page_size(lines: &Vec<Vec<char>>) -> (r: Option<u64>)
    ensures
        as_int(r) == page_size(scan::texts(lines@)),
{
    if lines.len() == 0 {
        return None;
    }
    match scan::split_second(&lines[0], &text::chars_of("page size of")) {
        None => None,
        Some(rest) => match scan::word(&rest) {
            None => None,
            Some(w) => scan::parse_u64(&w),
        },
    }
}

fn read_page_count(lines: &Vec<Vec<char>>, prefix: &str) -> (r: Option<u64>)
    ensures
        as_int(r) == page_count(scan::texts(lines@), prefix@),
{
    match scan::line_after(lines, &text::chars_of(prefix)) {
        None => None,
        Some(rest) => scan::parse_u64(&scan::without_trailing(&scan::trimmed(&rest), '.')),
    }
}

/// Available bytes from `vm_stat` output: page size from the header line,
/// then free, speculative and inactive page counts.
pub fn parse_vm_stat_available(text: &str) -> (r: Option<u64>)
    ensures
        as_int(r) == vm_stat_available(text@),
{
    let lines: Vec<Vec<char>> = scan::split_lines(&text::chars_of(text));
    let size: u64 = match read_page_size(&lines) {
        Some(n) => n,
        None => return None,
    };
    let free: u64 = match read_page_count(&lines, "Pages free:") {
        Some(n) => n,
        None => return None,
    };
    let speculative: u64 = match read_page_count(&lines, "Pages speculative:") {
        Some(n) => n,
        None => return None,
    };
    let inactive: u64 = match read_page_count(&lines, "Pages inactive:") {
        Some(n) => n,
        None => return None,
    };
    let some: u64 = match free.checked_add(speculative) {
        Some(n) => n,
        None => return None,
    };
    match some.checked_add(inactive) {
        Some(pages) => pages.checked_mul(size),
        None => None,
    }
}

/// How many bytes a unit letter stands for; 1 without one.
pub open spec fn unit_scale(c: char) -> int {
    if c == 'K' {
        0x400
    } else if c == 'M' {
        0x10_0000
    } else if c == 'G' {
        0x4000_0000
    } else if c == 'T' {
        0x100_0000_0000
    } else {
        1
    }
}

/// The word behind `used =`.
pub open spec fn used_word(text: Seq<char>) -> Option<Seq<char>> {
    match scan::second_part(text, "used ="@) {
        None => None,
        Some(rest) => scan::first_word(rest),
    }
}

/// The bytes a size with an optional unit letter denotes, rounded down.
pub open spec fn size_bytes(w: Seq<char>) -> Option<int> {
    if unit_scale(w.last()) > 1 {
        scan::scaled_floor(w.drop_last(), unit_scale(w.last()))
    } else {
        scan::scaled_floor(w, 1)
    }
}

/// Used bytes from `sysctl -n vm.swapusage`:
/// `total = 4096.00M  used = 2493.12M  free = 1602.88M  (encrypted)`. The
/// number is read exactly and the product is rounded down.
pub fn parse_swapusage_used(text: &str) -> (r: Option<u64>)
    ensures
        as_int(r) == (match used_word(text@) {
            None => None,
            Some(w) => size_bytes(w),
        }),
{
    let v: Vec<char> = text::chars_of(text);
    let rest: Vec<char> = match scan::split_second(&v, &text::chars_of("used =")) {
        Some(rest) => rest,
        None => return None,
    };
    let w: Vec<char> = match scan::word(&rest) {
        Some(w) => w,
        None => return None,
    };
    let n: usize = w.len();
    let unit: char = w[n - 1];
    let scale: u64 = if unit == 'K' {
        0x400
    } else if unit == 'M' {
        0x10_0000
    } else if unit == 'G' {
        0x4000_0000
    } else if unit == 'T' {
        0x100_0000_0000
    } else {
        1
    };
    if scale > 1 {
        let number: Vec<char> = scan::part(&w, 0, n - 1);
        assert(number@ =~= w@.drop_last());
        scan::parse_scaled(&number, scale)
    } else {
        scan::parse_scaled(&w, 1)
    }
}

/// The whole text as a number, blanks around it aside.
pub open spec fn sole_number(text: Seq<char>, limit: int) -> Option<int> {
    scan::number(scan::trim(text), limit)
}

/// A number that a system query printed on its own.
pub fn parse_sole_number(text: &str) -> (r: Option<u64>)
    ensures
        as_int(r) == sole_number(text@, u64::MAX as int),
{
    scan::parse_u64(&scan::trimmed(&text::chars_of(text)))
}

/// The reading that the output of the three macOS queries makes: none without
/// availability; swap and pressure fail open to 0.
pub fn reading_of(vm_stat: &str, swapusage: Option<&str>, pressure: Option<&str>) -> (r: Option<
    SystemMemory,
>)
    ensures
        r is Some <==> vm_stat_available(vm_stat@) is Some,
        match r {
            None => true,
            Some(m) => {
                &&& Some(m.available_bytes as int) == vm_stat_available(vm_stat@)
                &&& m.swap_used_bytes == (match swapusage {
                    None => 0,
                    Some(t) => match used_word(t@) {
                        None => 0,
                        Some(w) => match size_bytes(w) {
                            None => 0,
                            Some(n) => n,
                        },
                    },
                })
                &&& m.pressure_level == (match pressure {
                    None => 0,
                    Some(t) => match sole_number(t@, u32::MAX as int) {
                        None => 0,
                        Some(n) => n,
                    },
                })
            },
        },
{
    let available_bytes: u64 = match parse_vm_stat_available(vm_stat) {
        Some(n) => n,
        None => return None,
    };
    let swap_used_bytes: u64 = match swapusage {
        None => 0,
        Some(t) => match parse_swapusage_used(t) {
            None => 0,
            Some(n) => n,
        },
    };
    let pressure_level: u32 = match pressure {
        None => 0,
        Some(t) => match parse_sole_number(t) {
            None => 0,
            Some(n) => if n <= u32::MAX as u64 {
                n as u32
            } else {
                0
            },
        },
    };
    Some(SystemMemory { available_bytes, swap_used_bytes, pressure_level })
}

/// The number of KiB on the first line of `/proc/meminfo` that starts with
/// `name`.
pub open spec fn meminfo_field(text: Seq<char>, name: Seq<char>) -> Option<int> {
    match scan::field_line(scan::lines(text), name, 0) {
        None => None,
        Some(rest) => scan::number(
            scan::trim(scan::trim_end_text(scan::trim(rest), "kB"@)),
            u64::MAX as int,
        ),
    }
}

/// The number of KiB on the first line of `/proc/meminfo` that starts with
/// `name`.
pub fn meminfo_kib(text: &str, name: &str) -> (r: Option<u64>)
    ensures
        as_int(r) == meminfo_field(text@, name@),
{
    let lines: Vec<Vec<char>> = scan::split_lines(&text::chars_of(text));
    match scan::line_after(&lines, &text::chars_of(name)) {
        None => None,
        Some(rest) => {
            let kb: Vec<char> = text::chars_of("kB");
            proof {
                reveal_strlit("kB");
            }
            let number: Vec<char> = scan::without_suffixes(&scan::trimmed(&rest), &kb);
            scan::parse_u64(&scan::trimmed(&number))
        },
    }
}

/// The most KiB whose bytes can be counted in 64 bits.
pub const MAX_KIB: u64 = 0x3f_ffff_ffff_ffff;

/// The installed memory in bytes, from the field of `/proc/meminfo`.
pub fn total_of_meminfo(total_kib: Option<u64>) -> (r: Option<u64>)
    requires
        total_kib is Some ==> total_kib->0 <= MAX_KIB,
    ensures
        match total_kib {
            Some(kib) => r is Some && r->0 == kib * 1024,
            None => r is None,
        },
{
    match total_kib {
        Some(kib) => Some(kib * 1024),
        None => None,
    }
}

/// The reading that the fields of `/proc/meminfo` make: none without
/// availability; no swap without both its fields; pressure is unknown.
pub fn reading_of_meminfo(
    available_kib: Option<u64>,
    swap_total_kib: Option<u64>,
    swap_free_kib: Option<u64>,
) -> (r: Option<SystemMemory>)
    requires
        available_kib is Some ==> available_kib->0 <= MAX_KIB,
        swap_total_kib is Some ==> swap_total_kib->0 <= MAX_KIB,
        swap_free_kib is Some ==> swap_free_kib->0 <= MAX_KIB,
    ensures
        match r {
            None => available_kib is None,
            Some(m) => {
                &&& available_kib is Some
                &&& m.available_bytes == available_kib->0 * 1024
                &&& m.swap_used_bytes == (if swap_total_kib is Some && swap_free_kib is Some
                    && swap_total_kib->0 > swap_free_kib->0 {
                    (swap_total_kib->0 - swap_free_kib->0) * 1024
                } else {
                    0
                })
                &&& m.pressure_level == 0
            },
        },
{
    match available_kib {
        None => None,
        Some(kib) => {
            let swap_used_bytes: u64 = match (swap_total_kib, swap_free_kib) {
                (Some(total), Some(free)) => (total * 1024).saturating_sub(free * 1024),
                _ => 0,
            };
            Some(SystemMemory { available_bytes: kib * 1024, swap_used_bytes, pressure_level: 0 })
        },
    }
}

/// Pressure counts from the warning level on.
pub proof fn law_pressure_counts_from_the_warning_on(m: SystemMemory)
    ensures
        m.pressure_level == 0 || m.pressure_level == 1 ==> !m.spec_pressure_elevated(),
        m.pressure_level == 2 || m.pressure_level == 4 ==> m.spec_pressure_elevated(),
        m.pressure_level >= 2 <==> m.spec_pressure_elevated(),
{
}

/// What is available is the free, the speculative and the inactive pages, each times the page
/// size; where one of the four numbers is missing there is no reading.
pub proof fn law_available_memory_counts_three_kinds_of_pages(
    text: Seq<char>,
    size: int,
    free: int,
    speculative: int,
    inactive: int,
)
    ensures
        ({
            let lines = scan::lines(text);
            let a = page_count(lines, "Pages free:"@);
            let b = page_count(lines, "Pages speculative:"@);
            let c = page_count(lines, "Pages inactive:"@);
            let s = page_size(lines);
            let bytes = free * size + speculative * size + inactive * size;
            &&& s is None || a is None || b is None || c is None ==> vm_stat_available(text) is None
            &&& s == Some(size) && a == Some(free) && b == Some(speculative) && c == Some(inactive)
                && 0 <= size && 0 <= free && 0 <= speculative && 0 <= inactive && free + speculative
                + inactive <= u64::MAX && bytes <= u64::MAX ==> vm_stat_available(text) == Some(
                bytes,
            )
            &&& s == Some(size) && a == Some(free) && b == Some(speculative) && c == Some(inactive)
                && bytes > u64::MAX ==> vm_stat_available(text) is None
        }),
{
    assert(free * size + speculative * size + inactive * size == (free + speculative + inactive)
        * size) by (nonlinear_arith);
}

/// A page count is the number behind its name, blanks in front and full stops behind it
/// aside.
pub proof fn law_page_counts_are_read(
    lines: Seq<Seq<char>>,
    prefix: Seq<char>,
    n: nat,
)
    requires
        n <= u64::MAX,
        lines.len() > 0,
        lines[0] == prefix + seq![' '] + text::decimal(n) + seq!['.'],
    ensures
        page_count(lines, prefix) == Some(n as int),
{
    let d = text::decimal(n);
    let l = lines[0];
    let rest = seq![' '] + d + seq!['.'];
    assert(l.subrange(0, prefix.len() as int) =~= prefix);
    assert(l.subrange(prefix.len() as int, l.len() as int) =~= rest);
    scan::law_decimals_read_back(n);
    scan::law_numbers_are_read_back(n, u64::MAX as int, d, 0);
    let tail = d + seq!['.'];
    assert(rest.subrange(1, rest.len() as int) =~= tail);
    assert(scan::digit(d[0]));
    assert(tail[0] == d[0]);
    assert(scan::trim_start(tail) == tail);
    assert(scan::trim_start(rest) == tail);
    assert(scan::trim(rest) == tail);
    assert(tail.drop_last() =~= d);
    assert(scan::digit(d[d.len() - 1]));
    assert(scan::trim_end_char(d, '.') == d);
    assert(scan::trim_end_char(tail, '.') == d);
}

/// The page size is the number behind `page size of` on the first line.
pub proof fn law_the_page_size_is_on_the_first_line(lines: Seq<Seq<char>>)
    ensures
        lines.len() == 0 ==> page_size(lines) is None,
        lines.len() > 0 ==> page_size(lines) == page_size(seq![lines[0]]),
        lines.len() > 0 && scan::second_part(lines[0], "page size of"@) is None ==> page_size(
            lines,
        ) is None,
        lines.len() > 0 && scan::second_part(lines[0], "page size of"@) is Some ==> {
            let w = scan::first_word(scan::second_part(lines[0], "page size of"@)->0);
            &&& w is None ==> page_size(lines) is None
            &&& w is Some ==> page_size(lines) == scan::number(w->0, u64::MAX as int)
        },
{
}

/// The unit letters count in steps of 1024.
pub proof fn law_units_count_in_steps_of_1024(c: char)
    ensures
        unit_scale('K') == 1024,
        unit_scale('M') == 1024 * unit_scale('K'),
        unit_scale('G') == 1024 * unit_scale('M'),
        unit_scale('T') == 1024 * unit_scale('G'),
        c != 'K' && c != 'M' && c != 'G' && c != 'T' ==> unit_scale(c) == 1,
{
}

/// A size is its number times its unit, rounded down to bytes.
pub proof fn law_sizes_are_scaled_by_their_unit(w: Seq<char>, f: Seq<char>)
    requires
        w.len() > 0,
        scan::all_digits(w),
        scan::all_digits(f),
    ensures
        ({
            let n = (scan::value_of(w + f) * (1024 * 1024)) / scan::pow10(f.len());
            n <= u64::MAX ==> size_bytes(w + seq!['.'] + f + seq!['M']) == Some(n)
        }),
        ({
            let n = (scan::value_of(w + f) * (1024 * 1024 * 1024)) / scan::pow10(f.len());
            n <= u64::MAX ==> size_bytes(w + seq!['.'] + f + seq!['G']) == Some(n)
        }),
        scan::value_of(w) * 1024 <= u64::MAX ==> size_bytes(w + seq!['K']) == Some(
            scan::value_of(w) * 1024,
        ),
        scan::value_of(w) <= u64::MAX ==> size_bytes(w) == Some(scan::value_of(w)),
{
    let s = w + seq!['.'] + f;
    assert((s + seq!['M']).drop_last() =~= s);
    assert((s + seq!['G']).drop_last() =~= s);
    assert((w + seq!['K']).drop_last() =~= w);
    scan::law_decimal_numbers_are_scaled(w, f, 0x10_0000);
    scan::law_decimal_numbers_are_scaled(w, f, 0x4000_0000);
    scan::law_decimal_numbers_are_scaled(w, f, 1024);
    scan::law_decimal_numbers_are_scaled(w, f, 1);
    assert(scan::digit(w[w.len() - 1]));
    assert(scan::value_of(w) * 1 == scan::value_of(w));
}

/// The used swap is the first word behind `used =`.
pub proof fn law_used_swap_stands_behind_its_name(text: Seq<char>)
    ensures
        scan::second_part(text, "used ="@) is None ==> used_word(text) is None,
        scan::second_part(text, "used ="@) is Some ==> used_word(text) == scan::first_word(
            scan::second_part(text, "used ="@)->0,
        ),
{
}

/// A number on its own is read whatever blanks stand around it.
pub proof fn law_sole_numbers_are_read(n: nat, limit: int)
    requires
        n <= limit,
    ensures
        sole_number(text::decimal(n), limit) == Some(n as int),
        sole_number(text::decimal(n) + seq!['\n'], limit) == Some(n as int),
{
    let d = text::decimal(n);
    let l = d + seq!['\n'];
    scan::law_decimals_read_back(n);
    scan::law_numbers_are_read_back(n, limit, d, 0);
    assert(scan::digit(d[0]));
    assert(scan::digit(d[d.len() - 1]));
    assert(l[0] == d[0]);
    assert(l.drop_last() =~= d);
    assert(scan::trim_end(d) == d);
    assert(scan::trim_start(d) == d);
    assert(scan::trim_start(l) == l);
    assert(scan::trim_end(l) == d);
}

/// A field of the memory table is the number behind its name, blanks and the unit aside; a
/// field that is not there has none.
pub proof fn law_memory_fields_are_read(text: Seq<char>, name: Seq<char>, n: nat)
    requires
        n <= u64::MAX,
    ensures
        scan::field_line(scan::lines(text), name, 0) is None ==> meminfo_field(text, name) is None,
        scan::field_line(scan::lines(text), name, 0) == Some(
            seq![' '] + text::decimal(n) + seq![' ', 'k', 'B'],
        ) ==> meminfo_field(text, name) == Some(n as int),
{
    let d = text::decimal(n);
    let kb = "kB"@;
    reveal_strlit("kB");
    assert(kb =~= seq!['k', 'B']);
    let rest = seq![' '] + d + seq![' ', 'k', 'B'];
    let tail = d + seq![' ', 'k', 'B'];
    let bare = d + seq![' '];
    scan::law_decimals_read_back(n);
    scan::law_numbers_are_read_back(n, u64::MAX as int, d, 0);
    assert(scan::digit(d[0]));
    assert(scan::digit(d[d.len() - 1]));
    assert(rest.subrange(1, rest.len() as int) =~= tail);
    assert(tail[0] == d[0]);
    assert(scan::trim_start(tail) == tail);
    assert(scan::trim_start(rest) == tail);
    assert(tail.last() == 'B');
    assert(scan::trim(rest) == tail);
    assert(tail.subrange(tail.len() - 2, tail.len() as int) =~= kb);
    assert(tail.take(tail.len() - 2) =~= bare);
    assert(!scan::stands_at(bare, kb, bare.len() - 2)) by {
        if scan::stands_at(bare, kb, bare.len() - 2) {
            assert(bare.subrange(bare.len() - 2, bare.len() as int)[1] == ' ');
            assert(kb[1] == 'B');
        }
    }
    assert(scan::trim_end_text(bare, kb) == bare);
    assert(scan::trim_end_text(tail, kb) == bare);
    assert(bare[0] == d[0]);
    assert(scan::trim_start(bare) == bare);
    assert(bare.drop_last() =~= d);
    assert(scan::trim_end(d) == d);
    assert(scan::trim(bare) == d);
}

} // verus!
