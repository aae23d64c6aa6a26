//! Reading resource figures out of the kernel's text files (`/proc/stat`,
//! `/proc/meminfo`, `/proc/<pid>/stat`, `/proc/<pid>/status` and cgroup v2 files).
//!
//! The callers read the files; these functions take their text and give plain
//! numbers. A "line" is a piece between newline characters and a "word" a maximal
//! run of non-white-space characters (see [`crate::text_fields`]); a number that
//! does not read as one counts as 0.
use vstd::prelude::*;

use crate::error::BlixardError;
use crate::text::{concat, text_eq};
use crate::text_fields::{parse_u64, parse_u64_text, segments, split_lines, split_words, words};

verus! {

/// The value of a word read as a number, or 0 when it does not read as one.
pub open spec fn value_or_zero(w: Seq<char>) -> nat {
    match parse_u64(w) {
        Some(v) => v as nat,
        None => 0,
    }
}

fn read_or_zero(w: &String) -> (v: u64)
    ensures
        v == value_or_zero(w@),
{
    match parse_u64_text(w.as_str()) {
        Some(v) => v,
        None => 0,
    }
}

/// Whether `s` begins with `p`.
pub open spec fn begins_with(s: Seq<char>, p: Seq<char>) -> bool {
    s.len() >= p.len() && s.take(p.len() as int) == p
}

fn starts_with(s: &str, p: &str) -> (r: bool)
    ensures
        r == begins_with(s@, p@),
{
    let n = s.unicode_len();
    let m = p.unicode_len();
    if m > n {
        return false;
    }
    let head = s.substring_char(0, m);
    text_eq(head, p)
}

/// Busy and total CPU time from the first line of `/proc/stat`: the line must
/// have at least 8 words, the first `cpu`; then busy time is user + nice +
/// system (words 1 to 3) and the total adds idle and iowait (words 4 and 5).
pub open spec fn stat_cpu_times(content: Seq<char>) -> Result<(u128, u128), BlixardError> {
    if content.len() == 0 {
        Err(BlixardError::Internal { message: "Empty /proc/stat file" })
    } else {
        let ws = words(segments(content)[0]);
        if ws.len() < 8 || ws[0] != "cpu"@ {
            Err(BlixardError::Internal { message: "Invalid /proc/stat format" })
        } else {
            let busy = value_or_zero(ws[1]) + value_or_zero(ws[2]) + value_or_zero(ws[3]);
            Ok((busy as u128, (busy + value_or_zero(ws[4]) + value_or_zero(ws[5])) as u128))
        }
    }
}

/// Busy and total CPU time from the text of `/proc/stat` (see [`stat_cpu_times`]).
pub fn cpu_times_from_stat(content: &str) -> (r: Result<(u128, u128), BlixardError>)
    ensures
        r == stat_cpu_times(content@),
{
    if content.unicode_len() == 0 {
        return Err(BlixardError::Internal { message: "Empty /proc/stat file" });
    }
    let lines = split_lines(content);
    assert(lines@.map_values(|l: String| l@)[0] == lines@[0]@);
    let ws = split_words(lines[0].as_str());
    assert(forall|i: int| 0 <= i < ws@.len() ==> ws@.map_values(|l: String| l@)[i] == (#[trigger] ws@[i])@);
    if ws.len() < 8 || !text_eq(ws[0].as_str(), "cpu") {
        return Err(BlixardError::Internal { message: "Invalid /proc/stat format" });
    }
    let user = read_or_zero(&ws[1]) as u128;
    let nice = read_or_zero(&ws[2]) as u128;
    let system = read_or_zero(&ws[3]) as u128;
    let idle = read_or_zero(&ws[4]) as u128;
    let iowait = read_or_zero(&ws[5]) as u128;
    let busy = user + nice + system;
    Ok((busy, busy + idle + iowait))
}

/// The last figure of `lines` given on a line whose first word is `key` (and that
/// has a second word), in megabytes (the file gives kilobytes); 0 when there is none.
pub open spec fn meminfo_mb(lines: Seq<Seq<char>>, key: Seq<char>) -> nat
    decreases lines.len(),
{
    if lines.len() == 0 {
        0
    } else {
        let ws = words(lines.last());
        if ws.len() >= 2 && ws[0] == key {
            value_or_zero(ws[1]) / 1024
        } else {
            meminfo_mb(lines.drop_last(), key)
        }
    }
}

/// Memory in use in megabytes from the text of `/proc/meminfo`: `MemTotal` less
/// `MemAvailable`, or 0 when that is not positive.
pub fn used_memory_mb(content: &str) -> (mb: u64)
    ensures
        ({
            let total = meminfo_mb(segments(content@), "MemTotal:"@);
            let available = meminfo_mb(segments(content@), "MemAvailable:"@);
            mb == if total > available {
                total - available
            } else {
                0
            }
        }),
{
    let lines = split_lines(content);
    let ghost ls = lines@.map_values(|l: String| l@);
    let mut total: u64 = 0;
    let mut available: u64 = 0;
    let mut k: usize = 0;
    assert(ls.take(0) =~= Seq::<Seq<char>>::empty());
    while k < lines.len()
        invariant
            ls == lines@.map_values(|l: String| l@),
            k <= lines@.len(),
            total == meminfo_mb(ls.take(k as int), "MemTotal:"@),
            available == meminfo_mb(ls.take(k as int), "MemAvailable:"@),
        decreases lines@.len() - k,
    {
        assert(ls.take(k + 1).drop_last() =~= ls.take(k as int));
        assert(ls.take(k + 1).last() == lines@[k as int]@);
        let ws = split_words(lines[k].as_str());
        assert(forall|i: int| 0 <= i < ws@.len() ==> ws@.map_values(|l: String| l@)[i] == (#[trigger] ws@[i])@);
        if ws.len() >= 2 {
            if text_eq(ws[0].as_str(), "MemTotal:") {
                total = read_or_zero(&ws[1]) / 1024;
                proof {
                    reveal_strlit("MemTotal:");
                    reveal_strlit("MemAvailable:");
                }
            } else if text_eq(ws[0].as_str(), "MemAvailable:") {
                available = read_or_zero(&ws[1]) / 1024;
                proof {
                    reveal_strlit("MemTotal:");
                    reveal_strlit("MemAvailable:");
                }
            }
        }
        k = k + 1;
    }
    assert(ls.take(k as int) =~= ls);
    if total > available {
        total - available
    } else {
        0
    }
}

/// CPU ticks of a process from the text of `/proc/<pid>/stat`: user plus system
/// time (words 13 and 14); `None` when there are fewer than 15 words.
pub open spec fn process_ticks(content: Seq<char>) -> Option<u128> {
    let ws = words(content);
    if ws.len() < 15 {
        None
    } else {
        Some((value_or_zero(ws[13]) + value_or_zero(ws[14])) as u128)
    }
}

/// CPU ticks of a process (see [`process_ticks`]).
pub fn process_cpu_ticks(content: &str) -> (r: Option<u128>)
    ensures
        r == process_ticks(content@),
{
    let ws = split_words(content);
    assert(forall|i: int| 0 <= i < ws@.len() ==> ws@.map_values(|l: String| l@)[i] == (#[trigger] ws@[i])@);
    if ws.len() < 15 {
        return None;
    }
    Some(read_or_zero(&ws[13]) as u128 + read_or_zero(&ws[14]) as u128)
}

/// The second word of the first line that begins with `prefix` and has a second
/// word.
pub open spec fn prefixed_field(lines: Seq<Seq<char>>, prefix: Seq<char>) -> Option<Seq<char>>
    decreases lines.len(),
{
    if lines.len() == 0 {
        None
    } else if begins_with(lines[0], prefix) && words(lines[0]).len() >= 2 {
        Some(words(lines[0])[1])
    } else {
        prefixed_field(lines.drop_first(), prefix)
    }
}

fn first_prefixed_field(lines: &Vec<String>, prefix: &str) -> (r: Option<String>)
    ensures
        match r {
            Some(w) => prefixed_field(lines@.map_values(|l: String| l@), prefix@) == Some(w@),
            None => prefixed_field(lines@.map_values(|l: String| l@), prefix@) is None,
        },
{
    let ghost ls = lines@.map_values(|l: String| l@);
    let mut k: usize = 0;
    assert(ls.skip(0) =~= ls);
    while k < lines.len()
        invariant
            ls == lines@.map_values(|l: String| l@),
            k <= lines@.len(),
            prefixed_field(ls, prefix@) == prefixed_field(ls.skip(k as int), prefix@),
        decreases lines@.len() - k,
    {
        assert(ls.skip(k as int)[0] == lines@[k as int]@);
        assert(ls.skip(k as int).drop_first() =~= ls.skip(k + 1));
        if starts_with(lines[k].as_str(), prefix) {
            let ws = split_words(lines[k].as_str());
            if ws.len() >= 2 {
                assert(ws@.map_values(|l: String| l@)[1] == ws@[1]@);
                let field = ws[1].clone();
                return Some(field);
            }
        }
        k = k + 1;
    }
    assert(ls.skip(k as int) =~= Seq::<Seq<char>>::empty());
    None
}

/// Resident memory of a process in megabytes from the text of
/// `/proc/<pid>/status`: the figure of the first `VmRSS:` line (in kilobytes),
/// or 0 when there is none.
pub fn resident_memory_mb(content: &str) -> (mb: u64)
    ensures
        mb == match prefixed_field(segments(content@), "VmRSS:"@) {
            Some(w) => value_or_zero(w) / 1024,
            None => 0,
        },
{
    let lines = split_lines(content);
    match first_prefixed_field(&lines, "VmRSS:") {
        Some(w) => read_or_zero(&w) / 1024,
        None => 0,
    }
}

/// CPU time used by a cgroup in microseconds from the text of its `cpu.stat`:
/// the figure of the first `usage_usec` line, or 0 when there is none.
pub fn cgroup_usage_usec(content: &str) -> (usec: u64)
    ensures
        usec == match prefixed_field(segments(content@), "usage_usec"@) {
            Some(w) => value_or_zero(w),
            None => 0,
        },
{
    let lines = split_lines(content);
    match first_prefixed_field(&lines, "usage_usec") {
        Some(w) => read_or_zero(&w),
        None => 0,
    }
}

/// Memory used by a cgroup in megabytes from the text of its `memory.current`
/// (bytes): the number the text holds once white space around it is trimmed,
/// that is its only word, or 0 when it holds no single number.
pub fn cgroup_memory_mb(content: &str) -> (mb: u64)
    ensures
        mb == if words(content@).len() == 1 {
            value_or_zero(words(content@)[0]) / (1024 * 1024)
        } else {
            0
        },
{
    let ws = split_words(content);
    if ws.len() == 1 {
        assert(ws@.map_values(|l: String| l@)[0] == ws@[0]@);
        read_or_zero(&ws[0]) / (1024 * 1024)
    } else {
        0
    }
}

/// The systemd unit of a VM: `blixard-vm-<name>.service`.
pub fn vm_service_name(vm_name: &str) -> (s: String)
    ensures
        s@ == "blixard-vm-"@ + vm_name@ + ".service"@,
{
    let a = concat("blixard-vm-", vm_name);
    concat(a.as_str(), ".service")
}

/// The cgroup directory of a VM's unit.
pub fn vm_cgroup_path(vm_name: &str) -> (s: String)
    ensures
        s@ == "/sys/fs/cgroup/system.slice/"@ + ("blixard-vm-"@ + vm_name@ + ".service"@),
{
    let unit = vm_service_name(vm_name);
    concat("/sys/fs/cgroup/system.slice/", unit.as_str())
}

/// The data directory of a VM.
pub fn vm_data_path(vm_name: &str) -> (s: String)
    ensures
        s@ == "/var/lib/blixard/vms/"@ + vm_name@,
{
    concat("/var/lib/blixard/vms/", vm_name)
}

/// Collection of whole-system resource figures.
pub struct SystemResourceCollector;

impl SystemResourceCollector {
    /// Disk used under a path, in gigabytes. No measurement is made: the figure
    /// is a fixed 50.
    pub fn get_disk_usage(path: &str) -> (r: Result<u64, BlixardError>)
        ensures
            r == Ok::<u64, BlixardError>(50),
    {
        Ok(50)
    }
}

} // verus!
