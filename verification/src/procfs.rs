//! Reading what Linux tells about the machine in the text files under
//! `/proc` and `/etc`.

use std::collections::HashSet;
use vstd::prelude::*;
use vstd::string::*;
use crate::scan::{
    find, lemma_position_of, lines_of, parse_u32, parse_u64, position_of, split_lines,
    split_tokens, tokens_of, unsigned32_of, unsigned_of, views,
};
use crate::sysinfo::{
    cpu_counts, cpu_times, cut_u64, is_pseudo_filesystem, memory_info, pseudo_filesystem,
    MemoryCounters, MemoryInfo,
};
use crate::text::{matches_at, starts_with, str_eq, trim, trimmed};

verus! {

broadcast use vstd::std_specs::hash::group_hash_axioms;

/// The counters after one line of `/proc/meminfo`: a line of a name and a
/// number sets the counter of that name.
pub open spec fn meminfo_line(c: MemoryCounters, line: Seq<char>) -> MemoryCounters {
    let parts = tokens_of(line);
    if parts.len() < 2 {
        c
    } else {
        match unsigned_of(parts[1]) {
            None => c,
            Some(v) => if parts[0] == "MemTotal:"@ {
                MemoryCounters { total_kb: v, ..c }
            } else if parts[0] == "MemAvailable:"@ {
                MemoryCounters { available_kb: v, ..c }
            } else if parts[0] == "MemFree:"@ {
                MemoryCounters { free_kb: v, ..c }
            } else if parts[0] == "Buffers:"@ {
                MemoryCounters { buffers_kb: v, ..c }
            } else if parts[0] == "Cached:"@ {
                MemoryCounters { cached_kb: v, ..c }
            } else {
                c
            },
        }
    }
}

/// The counters after the lines of `/proc/meminfo`, starting from nothing.
pub open spec fn meminfo_counters(lines: Seq<Seq<char>>) -> MemoryCounters
    decreases lines.len(),
{
    if lines.len() == 0 {
        MemoryCounters { total_kb: 0, available_kb: 0, free_kb: 0, buffers_kb: 0, cached_kb: 0 }
    } else {
        meminfo_line(meminfo_counters(lines.drop_last()), lines.last())
    }
}

/// Reads the memory counters from the text of `/proc/meminfo`.
pub fn read_meminfo(content: &str) -> (c: MemoryCounters)
    ensures
        c == meminfo_counters(lines_of(content@)),
{
    let lines = split_lines(content);
    let mut c = MemoryCounters {
        total_kb: 0,
        available_kb: 0,
        free_kb: 0,
        buffers_kb: 0,
        cached_kb: 0,
    };
    let mut i: usize = 0;
    proof {
        assert(views(lines@).take(0) =~= Seq::<Seq<char>>::empty());
    }
    while i < lines.len()
        invariant
            i <= lines@.len(),
            c == meminfo_counters(views(lines@).take(i as int)),
        decreases lines@.len() - i,
    {
        let parts = split_tokens(lines[i]);
        proof {
            let all = views(lines@);
            assert(all.take(i + 1).drop_last() =~= all.take(i as int));
            assert(all.take(i + 1).last() == lines@[i as int]@);
            assert(views(parts@).len() == parts@.len());
            if parts@.len() >= 2 {
                assert(views(parts@)[0] == parts@[0]@);
                assert(views(parts@)[1] == parts@[1]@);
            }
        }
        if parts.len() >= 2 {
            match parse_u64(parts[1]) {
                Some(v) => {
                    let name = parts[0];
                    if str_eq(name, "MemTotal:") {
                        c.total_kb = v;
                    } else if str_eq(name, "MemAvailable:") {
                        c.available_kb = v;
                    } else if str_eq(name, "MemFree:") {
                        c.free_kb = v;
                    } else if str_eq(name, "Buffers:") {
                        c.buffers_kb = v;
                    } else if str_eq(name, "Cached:") {
                        c.cached_kb = v;
                    }
                },
                None => {},
            }
        }
        i += 1;
    }
    proof {
        assert(views(lines@).take(lines@.len() as int) =~= views(lines@));
    }
    c
}

/// The memory figures that the text of `/proc/meminfo` gives: total and
/// available memory in bytes, and as used memory the difference.
pub fn parse_meminfo(content: &str) -> (m: MemoryInfo)
    ensures
        m.total_bytes == cut_u64(meminfo_counters(lines_of(content@)).total_kb * 1024),
        m.available_bytes == cut_u64(
            crate::sysinfo::available_kb_of(meminfo_counters(lines_of(content@))) * 1024,
        ),
        m.used_bytes == (if m.total_bytes >= m.available_bytes {
            m.total_bytes - m.available_bytes
        } else {
            0
        }) as u64,
{
    memory_info(read_meminfo(content))
}

/// The second of the fields that colons part a line into, without the white
/// space around it; nothing for a line without a colon.
pub open spec fn second_field(line: Seq<char>) -> Option<Seq<char>> {
    match position_of(line, ":"@, 0) {
        None => None,
        Some(i) => match position_of(line, ":"@, i + 1) {
            Some(j) => Some(trimmed(line.subrange(i + 1, j))),
            None => Some(trimmed(line.subrange(i + 1, line.len() as int))),
        },
    }
}

fn read_second_field<'a>(line: &'a str) -> (r: Option<&'a str>)
    ensures
        r is Some <==> second_field(line@) is Some,
        r matches Some(f) ==> f@ == second_field(line@)->0,
{
    proof {
        reveal_strlit(":");
        lemma_position_of(line@, ":"@, 0);
    }
    let n = line.unicode_len();
    let i = match find(line, ":", 0) {
        Some(i) => i,
        None => {
            return None;
        },
    };
    assert(i + 1 <= n);
    let start: usize = i + 1;
    proof {
        lemma_position_of(line@, ":"@, start as int);
    }
    let end: usize = match find(line, ":", start) {
        Some(j) => j,
        None => n,
    };
    Some(trim(line.substring_char(start, end)))
}

/// The model of the first processor: the second field of the first line
/// that starts with `model name` and has one.
pub open spec fn cpu_model_in(lines: Seq<Seq<char>>) -> Option<Seq<char>>
    decreases lines.len(),
{
    if lines.len() == 0 {
        None
    } else if "model name"@.is_prefix_of(lines[0]) && second_field(lines[0]) is Some {
        second_field(lines[0])
    } else {
        cpu_model_in(lines.skip(1))
    }
}

/// Reads the processor's model from the text of `/proc/cpuinfo`.
pub fn parse_cpu_model(content: &str) -> (r: Option<String>)
    ensures
        r is Some <==> cpu_model_in(lines_of(content@)) is Some,
        r matches Some(m) ==> m@ == cpu_model_in(lines_of(content@))->0,
{
    let lines = split_lines(content);
    let mut i: usize = 0;
    proof {
        assert(views(lines@).skip(0) =~= views(lines@));
    }
    while i < lines.len()
        invariant
            i <= lines@.len(),
            views(lines@) == lines_of(content@),
            cpu_model_in(views(lines@).skip(i as int)) == cpu_model_in(lines_of(content@)),
        decreases lines@.len() - i,
    {
        let line = lines[i];
        proof {
            let rest = views(lines@).skip(i as int);
            assert(rest[0] == line@);
            assert(rest.skip(1) =~= views(lines@).skip(i + 1));
        }
        if starts_with(line, "model name") {
            match read_second_field(line) {
                Some(value) => {
                    return Some(String::from_str(value));
                },
                None => {},
            }
        }
        i += 1;
    }
    None
}

/// The number of lines that start with `prefix`.
pub open spec fn lines_with(lines: Seq<Seq<char>>, prefix: Seq<char>) -> nat
    decreases lines.len(),
{
    if lines.len() == 0 {
        0
    } else {
        lines_with(lines.drop_last(), prefix) + (if prefix.is_prefix_of(lines.last()) {
            1nat
        } else {
            0nat
        })
    }
}

/// The core id that a line holds: the number in the second field of a line
/// that starts with `core id`.
pub open spec fn core_id_of(line: Seq<char>) -> Option<u32> {
    if "core id"@.is_prefix_of(line) {
        match second_field(line) {
            Some(field) => unsigned32_of(field),
            None => None,
        }
    } else {
        None
    }
}

/// The core ids that the lines hold.
pub open spec fn core_ids_in(lines: Seq<Seq<char>>) -> Set<u32>
    decreases lines.len(),
{
    if lines.len() == 0 {
        Set::empty()
    } else {
        match core_id_of(lines.last()) {
            Some(id) => core_ids_in(lines.drop_last()).insert(id),
            None => core_ids_in(lines.drop_last()),
        }
    }
}

/// A count cut to the largest `u32`.
pub open spec fn cut_u32(n: nat) -> u32 {
    if n > u32::MAX {
        u32::MAX
    } else {
        n as u32
    }
}

/// Reads the numbers of cores and of threads from the text of
/// `/proc/cpuinfo`: the threads are the lines that start with `processor`,
/// the cores the distinct core ids, or the threads where no core id is
/// given; at least one of each.
pub fn parse_cpu_count(content: &str) -> (r: (u32, u32))
    ensures
        ({
            let lines = lines_of(content@);
            let threads = cut_u32(lines_with(lines, "processor"@));
            let cores = cut_u32(core_ids_in(lines).len());
            &&& r.1 == (if threads == 0 {
                1
            } else {
                threads
            })
            &&& r.0 == (if cores == 0 {
                r.1
            } else {
                cores
            })
        }),
{
    let lines = split_lines(content);
    let mut processors: u32 = 0;
    let mut ids: HashSet<u32> = HashSet::new();
    let mut i: usize = 0;
    proof {
        assert(views(lines@).take(0) =~= Seq::<Seq<char>>::empty());
    }
    while i < lines.len()
        invariant
            i <= lines@.len(),
            processors == cut_u32(lines_with(views(lines@).take(i as int), "processor"@)),
            ids@ == core_ids_in(views(lines@).take(i as int)),
            ids@.finite(),
        decreases lines@.len() - i,
    {
        let line = lines[i];
        proof {
            let all = views(lines@);
            assert(all.take(i + 1).drop_last() =~= all.take(i as int));
            assert(all.take(i + 1).last() == line@);
        }
        if starts_with(line, "processor") {
            if processors < 0xFFFF_FFFF {
                processors += 1;
            }
        }
        if starts_with(line, "core id") {
            match read_second_field(line) {
                Some(field) => {
                    match parse_u32(field) {
                        Some(id) => {
                            ids.insert(id);
                        },
                        None => {},
                    }
                },
                None => {},
            }
        }
        i += 1;
    }
    proof {
        assert(views(lines@).take(lines@.len() as int) =~= views(lines@));
    }
    let distinct: usize = ids.len();
    let distinct: u32 = if distinct > 0xFFFF_FFFF {
        0xFFFF_FFFF
    } else {
        distinct as u32
    };
    cpu_counts(processors, distinct)
}

/// The numbers among words, in order; words that write no number are passed
/// over.
pub open spec fn numbers_in(words: Seq<Seq<char>>) -> Seq<u64>
    decreases words.len(),
{
    if words.len() == 0 {
        Seq::empty()
    } else {
        match unsigned_of(words.last()) {
            Some(v) => numbers_in(words.drop_last()).push(v),
            None => numbers_in(words.drop_last()),
        }
    }
}

/// The busy and the total time in the first line of `/proc/stat`: the
/// numbers behind the first word are the times spent as user, nice, system,
/// idle and waiting for I/O. Nothing where fewer than four numbers stand
/// there.
pub open spec fn cpu_times_in(lines: Seq<Seq<char>>) -> Option<(u64, u64)> {
    if lines.len() == 0 {
        None
    } else {
        let words = tokens_of(lines[0]);
        let parts = numbers_in(
            if words.len() == 0 {
                words
            } else {
                words.skip(1)
            },
        );
        if parts.len() < 4 {
            None
        } else {
            let iowait = if parts.len() > 4 {
                parts[4]
            } else {
                0
            };
            Some(
                (
                    cut_u64(parts[0] + parts[1] + parts[2]),
                    cut_u64(parts[0] + parts[1] + parts[2] + parts[3] + iowait),
                ),
            )
        }
    }
}

/// Reads the busy and the total processor time from the text of `/proc/stat`.
pub fn read_cpu_times(content: &str) -> (r: Option<(u64, u64)>)
    ensures
        r == cpu_times_in(lines_of(content@)),
{
    let lines = split_lines(content);
    if lines.len() == 0 {
        return None;
    }
    let words = split_tokens(lines[0]);
    proof {
        assert(views(lines@)[0] == lines@[0]@);
        assert(views(words@).len() == words@.len());
    }
    let mut parts: Vec<u64> = Vec::new();
    if words.len() > 0 {
        let ghost tail = views(words@).skip(1);
        let mut i: usize = 1;
        proof {
            assert(tail.take(0) =~= Seq::<Seq<char>>::empty());
        }
        while i < words.len()
            invariant
                1 <= i <= words@.len(),
                tail == views(words@).skip(1),
                parts@ == numbers_in(tail.take(i - 1)),
            decreases words@.len() - i,
        {
            proof {
                assert(tail.take(i as int).drop_last() =~= tail.take(i - 1));
                assert(tail.take(i as int).last() == words@[i as int]@);
            }
            match parse_u64(words[i]) {
                Some(v) => {
                    parts.push(v);
                },
                None => {},
            }
            i += 1;
        }
        proof {
            assert(tail.take(words@.len() - 1) =~= tail);
        }
    }
    if parts.len() < 4 {
        return None;
    }
    let iowait: u64 = if parts.len() > 4 {
        parts[4]
    } else {
        0
    };
    Some(cpu_times(parts[0], parts[1], parts[2], parts[3], iowait))
}

/// A mounted file system with storage behind it.
#[derive(Debug, Clone)]
pub struct Mount {
    pub mount_point: String,
    pub filesystem: String,
}

/// The mount that a line of `/proc/mounts` tells: its second and third word,
/// unless the file system has no storage behind it.
pub open spec fn mount_of(line: Seq<char>) -> Option<(Seq<char>, Seq<char>)> {
    let parts = tokens_of(line);
    if parts.len() >= 3 && !pseudo_filesystem(parts[2]) {
        Some((parts[1], parts[2]))
    } else {
        None
    }
}

/// The mounts that the lines tell, in order.
pub open spec fn mounts_in(lines: Seq<Seq<char>>) -> Seq<(Seq<char>, Seq<char>)>
    decreases lines.len(),
{
    if lines.len() == 0 {
        Seq::empty()
    } else {
        match mount_of(lines.last()) {
            Some(m) => mounts_in(lines.drop_last()).push(m),
            None => mounts_in(lines.drop_last()),
        }
    }
}

pub open spec fn mount_views(mounts: Seq<Mount>) -> Seq<(Seq<char>, Seq<char>)> {
    mounts.map_values(|m: Mount| (m.mount_point@, m.filesystem@))
}

/// Reads the mounted file systems with storage behind them from the text of
/// `/proc/mounts`.
pub fn mount_entries(content: &str) -> (out: Vec<Mount>)
    ensures
        mount_views(out@) == mounts_in(lines_of(content@)),
{
    let lines = split_lines(content);
    let mut out: Vec<Mount> = Vec::new();
    let mut i: usize = 0;
    proof {
        assert(views(lines@).take(0) =~= Seq::<Seq<char>>::empty());
        assert(mount_views(out@) =~= Seq::empty());
    }
    while i < lines.len()
        invariant
            i <= lines@.len(),
            mount_views(out@) == mounts_in(views(lines@).take(i as int)),
        decreases lines@.len() - i,
    {
        let parts = split_tokens(lines[i]);
        proof {
            let all = views(lines@);
            assert(all.take(i + 1).drop_last() =~= all.take(i as int));
            assert(all.take(i + 1).last() == lines@[i as int]@);
            assert(views(parts@).len() == parts@.len());
            if parts@.len() >= 3 {
                assert(views(parts@)[1] == parts@[1]@);
                assert(views(parts@)[2] == parts@[2]@);
            }
        }
        if parts.len() >= 3 && !is_pseudo_filesystem(parts[2]) {
            let mount = Mount {
                mount_point: String::from_str(parts[1]),
                filesystem: String::from_str(parts[2]),
            };
            let ghost before = mount_views(out@);
            out.push(mount);
            proof {
                assert(mount_views(out@) =~= before.push((parts@[1]@, parts@[2]@)));
            }
        }
        i += 1;
    }
    proof {
        assert(views(lines@).take(lines@.len() as int) =~= views(lines@));
    }
    out
}

/// `s` without every `prefix` that stands at its start, one after the other.
pub open spec fn without_prefixes(s: Seq<char>, prefix: Seq<char>) -> Seq<char>
    decreases s.len(),
{
    if prefix.len() > 0 && prefix.is_prefix_of(s) {
        without_prefixes(s.skip(prefix.len() as int), prefix)
    } else {
        s
    }
}

/// `s` without the characters `c` at its start.
pub open spec fn trim_start_of(s: Seq<char>, c: char) -> Seq<char>
    decreases s.len(),
{
    if s.len() > 0 && s[0] == c {
        trim_start_of(s.skip(1), c)
    } else {
        s
    }
}

/// The name in a line of the release file: what follows `PRETTY_NAME=`,
/// without the quotes around it.
pub open spec fn pretty_value(line: Seq<char>) -> Seq<char> {
    crate::text::trim_end_of(trim_start_of(without_prefixes(line, "PRETTY_NAME="@), '"'), '"')
}

/// The name of the operating system in the lines of the release file: the
/// value of the first line that starts with `PRETTY_NAME=`.
pub open spec fn pretty_name_in(lines: Seq<Seq<char>>) -> Option<Seq<char>>
    decreases lines.len(),
{
    if lines.len() == 0 {
        None
    } else if "PRETTY_NAME="@.is_prefix_of(lines[0]) {
        Some(pretty_value(lines[0]))
    } else {
        pretty_name_in(lines.skip(1))
    }
}

fn strip_prefixes<'a>(s: &'a str, prefix: &str) -> (r: &'a str)
    ensures
        r@ == without_prefixes(s@, prefix@),
{
    let n = s.unicode_len();
    let m = prefix.unicode_len();
    if m == 0 {
        return s;
    }
    let mut at: usize = 0;
    proof {
        assert(s@.skip(0) =~= s@);
    }
    while at <= n && n - at >= m && matches_at(s, at, prefix)
        invariant
            at <= n,
            n == s@.len(),
            m == prefix@.len(),
            m > 0,
            without_prefixes(s@.skip(at as int), prefix@) == without_prefixes(s@, prefix@),
        decreases n - at,
    {
        proof {
            assert(s@.skip(at as int).skip(m as int) =~= s@.skip(at + m));
        }
        at += m;
    }
    proof {
        assert(s@.subrange(at as int, n as int) =~= s@.skip(at as int));
    }
    s.substring_char(at, n)
}

fn trim_start<'a>(s: &'a str, c: char) -> (r: &'a str)
    ensures
        r@ == trim_start_of(s@, c),
{
    let n = s.unicode_len();
    let mut at: usize = 0;
    proof {
        assert(s@.skip(0) =~= s@);
    }
    while at < n && s.get_char(at) == c
        invariant
            at <= n,
            n == s@.len(),
            trim_start_of(s@.skip(at as int), c) == trim_start_of(s@, c),
        decreases n - at,
    {
        proof {
            assert(s@.skip(at as int).skip(1) =~= s@.skip(at + 1));
        }
        at += 1;
    }
    proof {
        assert(s@.subrange(at as int, n as int) =~= s@.skip(at as int));
    }
    s.substring_char(at, n)
}

/// Reads the name of the operating system from the text of the release file.
pub fn pretty_name(content: &str) -> (r: Option<String>)
    ensures
        r is Some <==> pretty_name_in(lines_of(content@)) is Some,
        r matches Some(name) ==> name@ == pretty_name_in(lines_of(content@))->0,
{
    let lines = split_lines(content);
    let mut i: usize = 0;
    proof {
        assert(views(lines@).skip(0) =~= views(lines@));
    }
    while i < lines.len()
        invariant
            i <= lines@.len(),
            views(lines@) == lines_of(content@),
            pretty_name_in(views(lines@).skip(i as int)) == pretty_name_in(lines_of(content@)),
        decreases lines@.len() - i,
    {
        let line = lines[i];
        proof {
            let rest = views(lines@).skip(i as int);
            assert(rest[0] == line@);
            assert(rest.skip(1) =~= views(lines@).skip(i + 1));
        }
        if starts_with(line, "PRETTY_NAME=") {
            let value = strip_prefixes(line, "PRETTY_NAME=");
            let value = trim_start(value, '"');
            let value = crate::text::trim_end(value, '"');
            return Some(String::from_str(value));
        }
        i += 1;
    }
    None
}

/// Whether a text holds ASCII characters only.
pub open spec fn ascii_only(s: Seq<char>) -> bool {
    forall|i: int| 0 <= i < s.len() ==> (#[trigger] s[i]) as u32 <= 127
}

/// Thirty-two digits in eight groups of four, with colons between them.
pub open spec fn grouped(hex: Seq<char>) -> Seq<char>
    recommends
        hex.len() == 32,
{
    hex.subrange(0, 4) + seq![':'] + hex.subrange(4, 8) + seq![':'] + hex.subrange(8, 12) + seq![
        ':',
    ] + hex.subrange(12, 16) + seq![':'] + hex.subrange(16, 20) + seq![':'] + hex.subrange(20, 24)
        + seq![':'] + hex.subrange(24, 28) + seq![':'] + hex.subrange(28, 32)
}

/// The address that a line of `/proc/net/if_inet6` tells for an interface:
/// the line's sixth word names the interface, its first holds the address
/// in 32 ASCII characters; link-local addresses, which start with `fe80`,
/// do not count.
pub open spec fn ipv6_of_line(line: Seq<char>, iface: Seq<char>) -> Option<Seq<char>> {
    let parts = tokens_of(line);
    if parts.len() >= 6 && parts[5] == iface && parts[0].len() == 32 && ascii_only(parts[0])
        && !"fe80"@.is_prefix_of(parts[0]) {
        Some(grouped(parts[0]))
    } else {
        None
    }
}

/// The first address that the lines tell for the interface.
pub open spec fn ipv6_in(lines: Seq<Seq<char>>, iface: Seq<char>) -> Option<Seq<char>>
    decreases lines.len(),
{
    if lines.len() == 0 {
        None
    } else if ipv6_of_line(lines[0], iface) is Some {
        ipv6_of_line(lines[0], iface)
    } else {
        ipv6_in(lines.skip(1), iface)
    }
}

fn is_ascii_text(s: &str) -> (r: bool)
    ensures
        r == ascii_only(s@),
{
    let n = s.unicode_len();
    let mut i: usize = 0;
    while i < n
        invariant
            i <= n,
            n == s@.len(),
            forall|j: int| 0 <= j < i ==> (#[trigger] s@[j]) as u32 <= 127,
        decreases n - i,
    {
        if s.get_char(i) as u32 > 127 {
            return false;
        }
        i += 1;
    }
    true
}

fn group_hex(hex: &str) -> (r: String)
    requires
        hex@.len() == 32,
    ensures
        r@ == grouped(hex@),
{
    let mut out = String::from_str(hex.substring_char(0, 4));
    out.append(":");
    out.append(hex.substring_char(4, 8));
    out.append(":");
    out.append(hex.substring_char(8, 12));
    out.append(":");
    out.append(hex.substring_char(12, 16));
    out.append(":");
    out.append(hex.substring_char(16, 20));
    out.append(":");
    out.append(hex.substring_char(20, 24));
    out.append(":");
    out.append(hex.substring_char(24, 28));
    out.append(":");
    out.append(hex.substring_char(28, 32));
    proof {
        reveal_strlit(":");
        assert(":"@ =~= seq![':']);
    }
    out
}

/// Reads the IPv6 address of an interface from the text of
/// `/proc/net/if_inet6`.
pub fn ipv6_address(content: &str, iface: &str) -> (r: Option<String>)
    ensures
        r is Some <==> ipv6_in(lines_of(content@), iface@) is Some,
        r matches Some(a) ==> a@ == ipv6_in(lines_of(content@), iface@)->0,
{
    let lines = split_lines(content);
    let mut i: usize = 0;
    proof {
        assert(views(lines@).skip(0) =~= views(lines@));
    }
    while i < lines.len()
        invariant
            i <= lines@.len(),
            views(lines@) == lines_of(content@),
            ipv6_in(views(lines@).skip(i as int), iface@) == ipv6_in(lines_of(content@), iface@),
        decreases lines@.len() - i,
    {
        let line = lines[i];
        let parts = split_tokens(line);
        proof {
            let rest = views(lines@).skip(i as int);
            assert(rest[0] == line@);
            assert(rest.skip(1) =~= views(lines@).skip(i + 1));
            assert(views(parts@).len() == parts@.len());
            if parts@.len() >= 6 {
                assert(views(parts@)[0] == parts@[0]@);
                assert(views(parts@)[5] == parts@[5]@);
            }
        }
        if parts.len() >= 6 && str_eq(parts[5], iface) {
            let hex = parts[0];
            if hex.unicode_len() == 32 && is_ascii_text(hex) && !starts_with(hex, "fe80") {
                return Some(group_hex(hex));
            }
        }
        i += 1;
    }
    None
}

} // verus!
