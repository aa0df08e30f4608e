//! System information, as the files of a Linux host tell it.

use crate::text::{
    chars_of, drop_back, drop_front, ends_with, just, lines, lines_of, number, parse_number,
    starts_with, string_of, texts, trim, trim_char, trimmed, words, words_of,
};
use crate::types::{HardwareInfo, NetworkInterface, OsInfo, Package, ProcessInfo};
use vstd::prelude::*;
use vstd::slice::slice_subrange;
use vstd::string::*;

verus! {

// ---------------------------------------------------------------------
// Operating system
// ---------------------------------------------------------------------

/// What stands behind `key` on a line, without double quotes around it.
pub open spec fn setting(line: Seq<char>, key: Seq<char>) -> Option<Seq<char>> {
    if key.is_prefix_of(line) {
        Some(drop_back(drop_front(line.skip(key.len() as int), just('"')), just('"')))
    } else {
        None
    }
}

/// The setting of the last of the first `n` lines that has one.
pub open spec fn last_setting(l: Seq<Seq<char>>, key: Seq<char>, n: int) -> Option<Seq<char>>
    decreases n,
{
    if n <= 0 {
        None
    } else {
        match setting(l[n - 1], key) {
            Some(v) => Some(v),
            None => last_setting(l, key, n - 1),
        }
    }
}

fn find_setting(text: &str, key: &str) -> (r: Option<String>)
    ensures
        match r {
            Some(v) => last_setting(lines_of(text@), key@, lines_of(text@).len() as int) == Some(v@),
            None => last_setting(lines_of(text@), key@, lines_of(text@).len() as int) is None,
        },
{
    let chars = chars_of(text);
    let all = lines(chars.as_slice());
    let ghost l = texts(all@);
    let key_chars = chars_of(key);
    let key_len: usize = key_chars.len();
    let mut n: usize = all.len();
    while n > 0
        invariant
            n <= all@.len(),
            l == texts(all@),
            l == lines_of(text@),
            key_len == key@.len(),
            last_setting(l, key@, l.len() as int) == last_setting(l, key@, n as int),
        decreases n,
    {
        let line = all[n - 1];
        assert(l[n - 1] == line@);
        if starts_with(line, key) {
            let rest = slice_subrange(line, key_len, line.len());
            assert(line@.skip(key_len as int) =~= rest@);
            return Some(string_of(trim_char(rest, '"')));
        }
        n -= 1;
    }
    None
}

/// The third word of a text.
pub open spec fn third_word(s: Seq<char>) -> Option<Seq<char>> {
    if words_of(s).len() > 2 {
        Some(words_of(s)[2])
    } else {
        None
    }
}

/// `found`, or `otherwise` where nothing was found.
pub open spec fn or_else(found: Option<Seq<char>>, otherwise: Seq<char>) -> Seq<char> {
    match found {
        Some(s) => s,
        None => otherwise,
    }
}

/// The setting that a text has under `key`, if there is a text.
pub open spec fn told_setting(text: Option<&str>, key: Seq<char>) -> Option<Seq<char>> {
    match text {
        Some(t) => last_setting(lines_of(t@), key, lines_of(t@).len() as int),
        None => None,
    }
}

/// What the `os-release` and `version` files of a Linux host tell of its
/// system, as far as they could be read.
pub fn linux_os_info(
    os_release: Option<&str>,
    proc_version: Option<&str>,
    architecture: String,
    hostname: String,
) -> (r: OsInfo)
    ensures
        r.name@ == or_else(told_setting(os_release, "NAME="@), "Linux"@),
        r.version@ == or_else(told_setting(os_release, "VERSION_ID="@), "unknown"@),
        r.kernel_version@ == or_else(
            match proc_version {
                Some(t) => third_word(t@),
                None => None,
            },
            "unknown"@,
        ),
        r.architecture == architecture,
        r.hostname == hostname,
{
    let (name, version) = match os_release {
        Some(t) => (find_setting(t, "NAME="), find_setting(t, "VERSION_ID=")),
        None => (None, None),
    };
    let name = match name {
        Some(s) => s,
        None => "Linux".to_owned(),
    };
    let version = match version {
        Some(s) => s,
        None => "unknown".to_owned(),
    };
    let kernel_version = match proc_version {
        Some(t) => {
            let chars = chars_of(t);
            let w = words(chars.as_slice());
            assert(texts(w@).len() == w@.len());
            if w.len() > 2 {
                assert(texts(w@)[2] == w@[2]@);
                string_of(w[2])
            } else {
                "unknown".to_owned()
            }
        },
        None => "unknown".to_owned(),
    };
    OsInfo { name, version, architecture, hostname, kernel_version }
}

// ---------------------------------------------------------------------
// Hardware
// ---------------------------------------------------------------------

/// The processor that a line of `cpuinfo` names.
pub open spec fn model_on(line: Seq<char>) -> Option<Seq<char>> {
    if "model name\t: "@.is_prefix_of(line) {
        Some(trimmed(line.skip("model name\t: "@.len() as int)))
    } else {
        None
    }
}

/// The processor that the last of the first `n` lines names which names one.
pub open spec fn last_model(l: Seq<Seq<char>>, n: int) -> Option<Seq<char>>
    decreases n,
{
    if n <= 0 {
        None
    } else {
        match model_on(l[n - 1]) {
            Some(v) => Some(v),
            None => last_model(l, n - 1),
        }
    }
}

/// Number of the first `n` lines that begin a processor.
pub open spec fn processor_lines(l: Seq<Seq<char>>, n: int) -> nat
    decreases n,
{
    if n <= 0 {
        0
    } else {
        processor_lines(l, n - 1) + if "processor"@.is_prefix_of(l[n - 1]) {
            1nat
        } else {
            0nat
        }
    }
}

/// `s` without any `" kB"` at its end.
pub open spec fn without_unit(s: Seq<char>) -> Seq<char>
    decreases s.len(),
{
    if s.len() >= 3 && " kB"@.is_suffix_of(s) {
        without_unit(s.take(s.len() - 3))
    } else {
        s
    }
}

/// The memory that a line of `meminfo` tells, in kilobytes.
pub open spec fn memory_on(line: Seq<char>) -> Option<nat> {
    if "MemTotal:"@.is_prefix_of(line) {
        number(
            trimmed(without_unit(trimmed(line.skip("MemTotal:"@.len() as int)))),
            10,
            u64::MAX as nat,
        )
    } else {
        None
    }
}

/// The memory that the last of the first `n` lines tells which tells one.
pub open spec fn last_memory(l: Seq<Seq<char>>, n: int) -> Option<nat>
    decreases n,
{
    if n <= 0 {
        None
    } else {
        match memory_on(l[n - 1]) {
            Some(v) => Some(v),
            None => last_memory(l, n - 1),
        }
    }
}

fn drop_unit(s: &[char]) -> (r: &[char])
    ensures
        r@ == without_unit(s@),
{
    let mut n: usize = s.len();
    proof {
        reveal_strlit(" kB");
    }
    assert(s@.take(n as int) =~= s@);
    while n >= 3 && ends_with(slice_subrange(s, 0, n), " kB")
        invariant
            n <= s@.len(),
            without_unit(s@) == without_unit(s@.take(n as int)),
        decreases n,
    {
        assert(s@.subrange(0, n as int) =~= s@.take(n as int));
        assert(s@.take(n as int).take(n - 3) =~= s@.take(n - 3));
        n -= 3;
    }
    let r = slice_subrange(s, 0, n);
    assert(r@ =~= s@.take(n as int));
    r
}

/// What a text tells of processors: the name of the last, and how many
/// there are.
fn read_cpuinfo(text: &str) -> (r: (Option<String>, u32))
    ensures
        match r.0 {
            Some(v) => last_model(lines_of(text@), lines_of(text@).len() as int) == Some(v@),
            None => last_model(lines_of(text@), lines_of(text@).len() as int) is None,
        },
        r.1 == processor_lines(lines_of(text@), lines_of(text@).len() as int) % 0x1_0000_0000,
{
    let chars = chars_of(text);
    let all = lines(chars.as_slice());
    let ghost l = texts(all@);
    let mut model: Option<String> = None;
    let mut cores: u32 = 0;
    let mut i: usize = 0;
    proof {
        reveal_strlit("model name\t: ");
    }
    while i < all.len()
        invariant
            i <= all@.len(),
            l == texts(all@),
            "model name\t: "@.len() == 13,
            match model {
                Some(v) => last_model(l, i as int) == Some(v@),
                None => last_model(l, i as int) is None,
            },
            cores == processor_lines(l, i as int) % 0x1_0000_0000,
        decreases all@.len() - i,
    {
        let line = all[i];
        assert(l[i as int] == line@);
        if starts_with(line, "model name\t: ") {
            let rest = slice_subrange(line, 13, line.len());
            assert(line@.skip(13) =~= rest@);
            model = Some(string_of(trim(rest)));
        }
        if starts_with(line, "processor") {
            cores = cores.wrapping_add(1);
        }
        i += 1;
    }
    (model, cores)
}

/// The memory that a text tells, in kilobytes.
fn read_meminfo(text: &str) -> (r: Option<u64>)
    ensures
        match r {
            Some(v) => last_memory(lines_of(text@), lines_of(text@).len() as int) == Some(v as nat),
            None => last_memory(lines_of(text@), lines_of(text@).len() as int) is None,
        },
{
    let chars = chars_of(text);
    let all = lines(chars.as_slice());
    let ghost l = texts(all@);
    let mut n: usize = all.len();
    proof {
        reveal_strlit("MemTotal:");
    }
    while n > 0
        invariant
            n <= all@.len(),
            l == texts(all@),
            l == lines_of(text@),
            "MemTotal:"@.len() == 9,
            last_memory(l, l.len() as int) == last_memory(l, n as int),
        decreases n,
    {
        let line = all[n - 1];
        assert(l[n - 1] == line@);
        if starts_with(line, "MemTotal:") {
            let rest = slice_subrange(line, 9, line.len());
            assert(line@.skip(9) =~= rest@);
            match parse_number(trim(drop_unit(trim(rest))), 10, u64::MAX) {
                Some(kb) => {
                    return Some(kb);
                },
                None => {},
            }
        }
        n -= 1;
    }
    None
}

/// What the `cpuinfo` and `meminfo` files of a Linux host tell of its
/// hardware, as far as they could be read. The number of processors begins
/// anew after 2^32.
pub fn linux_hardware_info(cpuinfo: Option<&str>, meminfo: Option<&str>) -> (r: HardwareInfo)
    ensures
        r.cpu_name@ == or_else(
            match cpuinfo {
                Some(t) => last_model(lines_of(t@), lines_of(t@).len() as int),
                None => None,
            },
            "unknown"@,
        ),
        r.cpu_cores == (match cpuinfo {
            Some(t) => processor_lines(lines_of(t@), lines_of(t@).len() as int) % 0x1_0000_0000,
            None => 0,
        }),
        r.total_ram_mb == (match meminfo {
            Some(t) => match last_memory(lines_of(t@), lines_of(t@).len() as int) {
                Some(kb) => kb / 1024,
                None => 0,
            },
            None => 0,
        }),
{
    let (model, cpu_cores) = match cpuinfo {
        Some(t) => read_cpuinfo(t),
        None => (None, 0),
    };
    let cpu_name = match model {
        Some(s) => s,
        None => "unknown".to_owned(),
    };
    let total_ram_mb: u64 = match meminfo {
        Some(t) => match read_meminfo(t) {
            Some(kb) => kb / 1024,
            None => 0,
        },
        None => 0,
    };
    HardwareInfo { cpu_name, cpu_cores, total_ram_mb }
}

// ---------------------------------------------------------------------
// Collector
// ---------------------------------------------------------------------

/// The system that the agent runs on, and its files.
#[derive(Debug)]
pub enum SystemReading<'a> {
    Linux {
        os_release: Option<&'a str>,
        proc_version: Option<&'a str>,
        cpuinfo: Option<&'a str>,
        meminfo: Option<&'a str>,
    },
    Macos,
    Windows,
    /// Another system, by its name.
    Other(&'a str),
}

/// Collects system information.
#[derive(Debug, Clone, Copy)]
pub struct SystemInfoCollector {}

impl SystemInfoCollector {
    pub fn new() -> (r: SystemInfoCollector)
        ensures
            r == (SystemInfoCollector {  }),
    {
        SystemInfoCollector {  }
    }

    /// What is known of the operating system.
    pub fn os_info(&self, reading: &SystemReading, architecture: String, hostname: String) -> (r:
        OsInfo)
        ensures
            r.architecture == architecture,
            r.hostname == hostname,
            match *reading {
                SystemReading::Linux { os_release, proc_version, .. } => {
                    &&& r.name@ == or_else(told_setting(os_release, "NAME="@), "Linux"@)
                    &&& r.version@ == or_else(told_setting(os_release, "VERSION_ID="@), "unknown"@)
                    &&& r.kernel_version@ == or_else(
                        match proc_version {
                            Some(t) => third_word(t@),
                            None => None,
                        },
                        "unknown"@,
                    )
                },
                SystemReading::Macos => r.name@ == "macOS"@ && r.version@ == "unknown"@
                    && r.kernel_version@ == "unknown"@,
                SystemReading::Windows => r.name@ == "Windows"@ && r.version@ == "unknown"@
                    && r.kernel_version@ == "unknown"@,
                SystemReading::Other(name) => r.name@ == name@ && r.version@ == "unknown"@
                    && r.kernel_version@ == "unknown"@,
            },
    {
        match reading {
            SystemReading::Linux { os_release, proc_version, .. } => linux_os_info(
                *os_release,
                *proc_version,
                architecture,
                hostname,
            ),
            SystemReading::Macos => unknown_system("macOS", architecture, hostname),
            SystemReading::Windows => unknown_system("Windows", architecture, hostname),
            SystemReading::Other(name) => unknown_system(name, architecture, hostname),
        }
    }

    /// What is known of the hardware.
    pub fn hardware_info(&self, reading: &SystemReading) -> (r: HardwareInfo)
        ensures
            match *reading {
                SystemReading::Linux { cpuinfo, meminfo, .. } => {
                    &&& r.cpu_name@ == or_else(
                        match cpuinfo {
                            Some(t) => last_model(lines_of(t@), lines_of(t@).len() as int),
                            None => None,
                        },
                        "unknown"@,
                    )
                    &&& r.cpu_cores == (match cpuinfo {
                        Some(t) => processor_lines(lines_of(t@), lines_of(t@).len() as int)
                            % 0x1_0000_0000,
                        None => 0,
                    })
                    &&& r.total_ram_mb == (match meminfo {
                        Some(t) => match last_memory(lines_of(t@), lines_of(t@).len() as int) {
                            Some(kb) => kb / 1024,
                            None => 0,
                        },
                        None => 0,
                    })
                },
                _ => r.cpu_name@ == "unknown"@ && r.cpu_cores == 0 && r.total_ram_mb == 0,
            },
    {
        match reading {
            SystemReading::Linux { cpuinfo, meminfo, .. } => linux_hardware_info(*cpuinfo, *meminfo),
            _ => HardwareInfo { cpu_name: "unknown".to_owned(), cpu_cores: 0, total_ram_mb: 0 },
        }
    }

    /// The network interfaces; none are collected.
    pub fn network_interfaces(&self) -> (r: Vec<NetworkInterface>)
        ensures
            r@ == Seq::<NetworkInterface>::empty(),
    {
        Vec::new()
    }

    /// The installed packages; none are collected.
    pub fn installed_packages(&self) -> (r: Vec<Package>)
        ensures
            r@ == Seq::<Package>::empty(),
    {
        Vec::new()
    }

    /// The running processes; none are collected.
    pub fn running_processes(&self) -> (r: Vec<ProcessInfo>)
        ensures
            r@ == Seq::<ProcessInfo>::empty(),
    {
        Vec::new()
    }
}

fn unknown_system(name: &str, architecture: String, hostname: String) -> (r: OsInfo)
    ensures
        r.name@ == name@,
        r.version@ == "unknown"@,
        r.kernel_version@ == "unknown"@,
        r.architecture == architecture,
        r.hostname == hostname,
{
    OsInfo {
        name: name.to_owned(),
        version: "unknown".to_owned(),
        architecture,
        hostname,
        kernel_version: "unknown".to_owned(),
    }
}

impl Default for SystemInfoCollector {
    fn default() -> (r: Self)
        ensures
            r == (SystemInfoCollector {  }),
    {
        SystemInfoCollector {  }
    }
}

} // verus!
