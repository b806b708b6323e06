//! The shape of what the probes of a node report.
//!
//! A probe reads the host and gives data points. Reading the host is the
//! caller's part; the points are shaped here. The name of an indexed
//! metric holds the index between a fixed prefix and a fixed suffix, and
//! the collector reads it back from there.

use crate::grouping::{index_of, segment_end};
use crate::number::{all_digits, digit_value, digits_value, is_digit, unsigned_digits};
use crate::point::{batch_view, PointView, ProbeDataPoint};
use crate::text::{
    decimal, digit_char, is_prefix, split_bounds, split_on, starts_with, to_chars, u64_to_string,
};
use vstd::prelude::*;
use vstd::string::*;

verus! {

/// What was read of one processor core.
#[derive(Debug, Clone)]
pub struct CoreReading {
    /// Frequency in MHz.
    pub frequency_mhz: u64,
    /// Usage in percent, written with one decimal.
    pub usage_percent: String,
}

/// A data point of the host's system information.
pub open spec fn sysinfo_point(
    node_id: Seq<char>,
    timestamp: Seq<char>,
    probe_name: Seq<char>,
    probe_value: Seq<char>,
) -> PointView {
    PointView { node_id, timestamp, probe_type: "sysinfo"@, probe_name, probe_value }
}

/// The name of a metric of the core with index `index`.
pub open spec fn core_metric(index: nat, what: Seq<char>) -> Seq<char> {
    "cpu_core_"@ + decimal(index) + what
}

/// The points that the CPU probe reports for `cores`, from the core with
/// index `from` on: for each core its frequency, then its usage.
pub open spec fn core_points(
    node_id: Seq<char>,
    timestamp: Seq<char>,
    cores: Seq<CoreReading>,
    from: int,
) -> Seq<PointView>
    decreases cores.len() - from,
{
    if 0 <= from < cores.len() {
        seq![
            sysinfo_point(
                node_id,
                timestamp,
                core_metric(from as nat, "_frequency_mhz"@),
                decimal(cores[from].frequency_mhz as nat),
            ),
            sysinfo_point(
                node_id,
                timestamp,
                core_metric(from as nat, "_usage_percent"@),
                cores[from].usage_percent@,
            ),
        ] + core_points(node_id, timestamp, cores, from + 1)
    } else {
        Seq::empty()
    }
}

/// The points that the CPU probe reports: the number of cores, then the
/// points of each core.
pub open spec fn cpu_points(node_id: Seq<char>, timestamp: Seq<char>, cores: Seq<CoreReading>) -> Seq<
    PointView,
> {
    seq![sysinfo_point(node_id, timestamp, "cpu_core_count"@, decimal(cores.len()))] + core_points(
        node_id,
        timestamp,
        cores,
        0,
    )
}

/// Makes a data point of the host's system information.
fn make_point(node_id: &str, timestamp: &str, probe_name: String, probe_value: String) -> (point:
    ProbeDataPoint)
    ensures
        point@ == sysinfo_point(node_id@, timestamp@, probe_name@, probe_value@),
{
    ProbeDataPoint {
        node_id: String::from_str(node_id),
        timestamp: String::from_str(timestamp),
        probe_type: String::from_str("sysinfo"),
        probe_name,
        probe_value,
    }
}

/// Writes the name of a metric of the core with index `index`.
fn core_metric_name(index: usize, what: &str) -> (name: String)
    ensures
        name@ == core_metric(index as nat, what@),
{
    let mut name = String::from_str("cpu_core_");
    let numeral = u64_to_string(index as u64);
    name.append(numeral.as_str());
    name.append(what);
    name
}

/// The CPU probe: shapes what was read of the cores into data points, all
/// of one collection cycle and so of one timestamp.
pub fn probe_cpu(cores: &Vec<CoreReading>, node_id: &str, timestamp: &str) -> (data_points: Vec<
    ProbeDataPoint,
>)
    ensures
        batch_view(data_points@) == cpu_points(node_id@, timestamp@, cores@),
{
    let mut data_points: Vec<ProbeDataPoint> = Vec::new();
    let count = make_point(
        node_id,
        timestamp,
        String::from_str("cpu_core_count"),
        u64_to_string(cores.len() as u64),
    );
    let ghost head = seq![count@];
    proof {
        assert(batch_view(data_points@.push(count)) =~= head);
    }
    data_points.push(count);
    let mut idx: usize = 0;
    while idx < cores.len()
        invariant
            0 <= idx <= cores@.len(),
            head == seq![
                sysinfo_point(node_id@, timestamp@, "cpu_core_count"@, decimal(cores@.len())),
            ],
            batch_view(data_points@) + core_points(node_id@, timestamp@, cores@, idx as int)
                == head + core_points(node_id@, timestamp@, cores@, 0),
        decreases cores@.len() - idx,
    {
        let frequency = make_point(
            node_id,
            timestamp,
            core_metric_name(idx, "_frequency_mhz"),
            u64_to_string(cores[idx].frequency_mhz),
        );
        let usage = make_point(
            node_id,
            timestamp,
            core_metric_name(idx, "_usage_percent"),
            cores[idx].usage_percent.clone(),
        );
        proof {
            let before = batch_view(data_points@);
            let rest = core_points(node_id@, timestamp@, cores@, idx + 1);
            assert(batch_view(data_points@.push(frequency).push(usage)) =~= before.push(
                frequency@,
            ).push(usage@));
            assert(before.push(frequency@).push(usage@) + rest =~= before + (seq![
                frequency@,
                usage@,
            ] + rest));
        }
        data_points.push(frequency);
        data_points.push(usage);
        idx += 1;
    }
    proof {
        assert(batch_view(data_points@) + Seq::<PointView>::empty() =~= batch_view(data_points@));
    }
    data_points
}

/// Every point that the CPU probe reports is complete, where the node
/// identifier, the timestamp and the usage of each core are not empty.
pub proof fn lemma_cpu_points_complete(
    node_id: Seq<char>,
    timestamp: Seq<char>,
    cores: Seq<CoreReading>,
    i: int,
)
    requires
        node_id.len() > 0,
        timestamp.len() > 0,
        forall|k: int| 0 <= k < cores.len() ==> (#[trigger] cores[k]).usage_percent@.len() > 0,
        0 <= i < cpu_points(node_id, timestamp, cores).len(),
    ensures
        cpu_points(node_id, timestamp, cores)[i].is_complete(),
{
    reveal_strlit("sysinfo");
    reveal_strlit("cpu_core_count");
    lemma_decimal_value(cores.len());
    if i > 0 {
        lemma_core_points_complete(node_id, timestamp, cores, 0, i - 1);
    }
}

proof fn lemma_core_points_complete(
    node_id: Seq<char>,
    timestamp: Seq<char>,
    cores: Seq<CoreReading>,
    from: int,
    i: int,
)
    requires
        node_id.len() > 0,
        timestamp.len() > 0,
        forall|k: int| 0 <= k < cores.len() ==> (#[trigger] cores[k]).usage_percent@.len() > 0,
        0 <= from,
        0 <= i < core_points(node_id, timestamp, cores, from).len(),
    ensures
        core_points(node_id, timestamp, cores, from)[i].is_complete(),
    decreases cores.len() - from,
{
    reveal_strlit("sysinfo");
    reveal_strlit("cpu_core_");
    if from < cores.len() {
        lemma_decimal_value(cores[from].frequency_mhz as nat);
        if i >= 2 {
            lemma_core_points_complete(node_id, timestamp, cores, from + 1, i - 2);
        }
    }
}

/// The points that the memory probe reports: the memory in all, then the
/// memory in use, both in bytes.
pub open spec fn memory_points(
    node_id: Seq<char>,
    timestamp: Seq<char>,
    total_bytes: u64,
    used_bytes: u64,
) -> Seq<PointView> {
    seq![
        sysinfo_point(node_id, timestamp, "memory_total_bytes"@, decimal(total_bytes as nat)),
        sysinfo_point(node_id, timestamp, "memory_used_bytes"@, decimal(used_bytes as nat)),
    ]
}

/// The memory probe: shapes what was read of the memory into data points.
pub fn probe_memory(total_bytes: u64, used_bytes: u64, node_id: &str, timestamp: &str) -> (data_points:
    Vec<ProbeDataPoint>)
    ensures
        batch_view(data_points@) == memory_points(node_id@, timestamp@, total_bytes, used_bytes),
{
    let total = make_point(
        node_id,
        timestamp,
        String::from_str("memory_total_bytes"),
        u64_to_string(total_bytes),
    );
    let used = make_point(
        node_id,
        timestamp,
        String::from_str("memory_used_bytes"),
        u64_to_string(used_bytes),
    );
    let mut data_points: Vec<ProbeDataPoint> = Vec::new();
    let ghost wanted = seq![total@, used@];
    data_points.push(total);
    data_points.push(used);
    assert(batch_view(data_points@) =~= wanted);
    data_points
}

/// The name of the temperature metric of the sensor with index `index`.
pub open spec fn sensor_metric(index: nat) -> Seq<char> {
    "temperature_sensor_"@ + decimal(index) + "_celsius"@
}

/// The points of the sensors from the one with index `from` on: for each
/// its temperature, as it was read and written.
pub open spec fn sensor_points(
    node_id: Seq<char>,
    timestamp: Seq<char>,
    celsius: Seq<String>,
    from: int,
) -> Seq<PointView>
    decreases celsius.len() - from,
{
    if 0 <= from < celsius.len() {
        seq![sysinfo_point(node_id, timestamp, sensor_metric(from as nat), celsius[from]@)]
            + sensor_points(node_id, timestamp, celsius, from + 1)
    } else {
        Seq::empty()
    }
}

/// The points that the temperature probe reports: the number of sensors,
/// then the temperature of each.
pub open spec fn temperature_points(
    node_id: Seq<char>,
    timestamp: Seq<char>,
    celsius: Seq<String>,
) -> Seq<PointView> {
    seq![
        sysinfo_point(node_id, timestamp, "temperature_sensor_count"@, decimal(celsius.len())),
    ] + sensor_points(node_id, timestamp, celsius, 0)
}

/// The temperature probe: shapes the temperatures that were read, one text
/// for each sensor, into data points.
pub fn probe_temperature(celsius: &Vec<String>, node_id: &str, timestamp: &str) -> (data_points:
    Vec<ProbeDataPoint>)
    ensures
        batch_view(data_points@) == temperature_points(node_id@, timestamp@, celsius@),
{
    let mut data_points: Vec<ProbeDataPoint> = Vec::new();
    let count = make_point(
        node_id,
        timestamp,
        String::from_str("temperature_sensor_count"),
        u64_to_string(celsius.len() as u64),
    );
    let ghost head = seq![count@];
    proof {
        assert(batch_view(data_points@.push(count)) =~= head);
    }
    data_points.push(count);
    let mut idx: usize = 0;
    while idx < celsius.len()
        invariant
            0 <= idx <= celsius@.len(),
            head == seq![
                sysinfo_point(
                    node_id@,
                    timestamp@,
                    "temperature_sensor_count"@,
                    decimal(celsius@.len()),
                ),
            ],
            batch_view(data_points@) + sensor_points(node_id@, timestamp@, celsius@, idx as int)
                == head + sensor_points(node_id@, timestamp@, celsius@, 0),
        decreases celsius@.len() - idx,
    {
        let mut name = String::from_str("temperature_sensor_");
        let numeral = u64_to_string(idx as u64);
        name.append(numeral.as_str());
        name.append("_celsius");
        let point = make_point(node_id, timestamp, name, celsius[idx].clone());
        proof {
            let before = batch_view(data_points@);
            let rest = sensor_points(node_id@, timestamp@, celsius@, idx + 1);
            assert(batch_view(data_points@.push(point)) =~= before.push(point@));
            assert(before.push(point@) + rest =~= before + (seq![point@] + rest));
        }
        data_points.push(point);
        idx += 1;
    }
    proof {
        assert(batch_view(data_points@) + Seq::<PointView>::empty() =~= batch_view(data_points@));
    }
    data_points
}

/// What was read of the host itself. What could not be read is left out.
#[derive(Debug, Clone)]
pub struct StaticInfo {
    pub hostname: Option<String>,
    pub os_name: Option<String>,
    pub kernel_version: Option<String>,
    pub cpu_arch: Option<String>,
}

/// The point of one fact about the host, where the fact is known.
pub open spec fn fact_points(
    node_id: Seq<char>,
    timestamp: Seq<char>,
    probe_name: Seq<char>,
    fact: Option<String>,
) -> Seq<PointView> {
    match fact {
        Some(value) => seq![sysinfo_point(node_id, timestamp, probe_name, value@)],
        None => Seq::empty(),
    }
}

/// The points that the static-info probe reports: the host name, the
/// operating system, the kernel version and the processor architecture,
/// each where it is known.
pub open spec fn static_info_points(node_id: Seq<char>, timestamp: Seq<char>, info: StaticInfo) -> Seq<
    PointView,
> {
    fact_points(node_id, timestamp, "system_hostname"@, info.hostname) + fact_points(
        node_id,
        timestamp,
        "system_os_name"@,
        info.os_name,
    ) + fact_points(node_id, timestamp, "system_kernel_version"@, info.kernel_version)
        + fact_points(node_id, timestamp, "system_cpu_arch"@, info.cpu_arch)
}

/// Adds the point of one fact about the host, where the fact is known.
fn push_fact(
    data_points: &mut Vec<ProbeDataPoint>,
    node_id: &str,
    timestamp: &str,
    probe_name: &str,
    fact: &Option<String>,
)
    ensures
        batch_view(final(data_points)@) == batch_view(old(data_points)@) + fact_points(
            node_id@,
            timestamp@,
            probe_name@,
            *fact,
        ),
{
    match fact {
        Some(value) => {
            let point = make_point(
                node_id,
                timestamp,
                String::from_str(probe_name),
                value.clone(),
            );
            proof {
                assert(batch_view(data_points@.push(point)) =~= batch_view(data_points@)
                    + seq![point@]);
            }
            data_points.push(point);
        },
        None => {
            assert(batch_view(data_points@) + Seq::<PointView>::empty() =~= batch_view(
                data_points@,
            ));
        },
    }
}

/// The static-info probe: shapes what was read of the host itself into
/// data points.
pub fn probe_static_info(info: &StaticInfo, node_id: &str, timestamp: &str) -> (data_points: Vec<
    ProbeDataPoint,
>)
    ensures
        batch_view(data_points@) == static_info_points(node_id@, timestamp@, *info),
{
    let mut data_points: Vec<ProbeDataPoint> = Vec::new();
    assert(batch_view(data_points@) =~= Seq::<PointView>::empty());
    push_fact(&mut data_points, node_id, timestamp, "system_hostname", &info.hostname);
    push_fact(&mut data_points, node_id, timestamp, "system_os_name", &info.os_name);
    push_fact(&mut data_points, node_id, timestamp, "system_kernel_version", &info.kernel_version);
    push_fact(&mut data_points, node_id, timestamp, "system_cpu_arch", &info.cpu_arch);
    proof {
        assert(batch_view(data_points@) =~= static_info_points(node_id@, timestamp@, *info));
    }
    data_points
}

/// The decimal numeral of a number is made of digits and stands for the
/// number.
pub proof fn lemma_decimal_value(n: nat)
    ensures
        decimal(n).len() > 0,
        all_digits(decimal(n)),
        digits_value(decimal(n)) == n,
    decreases n,
{
    if n < 10 {
        assert(decimal(n).drop_last() =~= Seq::<char>::empty());
        assert(digits_value(decimal(n).drop_last()) == 0);
        assert(digit_value(digit_char(n)) == n);
    } else {
        lemma_decimal_value(n / 10);
        assert(decimal(n).drop_last() =~= decimal(n / 10));
        assert(decimal(n).last() == digit_char(n % 10));
        assert(digit_value(digit_char(n % 10)) == n % 10);
        assert forall|i: int| 0 <= i < decimal(n).len() implies is_digit(
            #[trigger] decimal(n)[i],
        ) by {
            if i < decimal(n).len() - 1 {
                assert(decimal(n)[i] == decimal(n / 10)[i]);
            }
        }
    }
}

/// A run of characters that are no underscore is a part of its own.
proof fn lemma_segment_end(s: Seq<char>, from: int, to: int)
    requires
        0 <= from <= to <= s.len(),
        forall|k: int| from <= k < to ==> #[trigger] s[k] != '_',
        to == s.len() || s[to] == '_',
    ensures
        segment_end(s, from) == to,
    decreases to - from,
{
    if from < to {
        lemma_segment_end(s, from + 1, to);
    }
}

/// What a probe writes, the collector reads: the index that is written in
/// decimal behind the prefix of a metric name, with an underscore or
/// nothing behind it, is the index that is read from the name.
pub proof fn lemma_index_round_trip(prefix: Seq<char>, index: u32, rest: Seq<char>)
    requires
        rest.len() == 0 || rest[0] == '_',
    ensures
        index_of(prefix + decimal(index as nat) + rest, prefix) == Some(index),
{
    let numeral = decimal(index as nat);
    let name = prefix + numeral + rest;
    let from = prefix.len() as int;
    let to = from + numeral.len();
    lemma_decimal_value(index as nat);
    assert(name.subrange(0, from) =~= prefix);
    assert forall|k: int| from <= k < to implies #[trigger] name[k] != '_' by {
        assert(name[k] == numeral[k - from]);
        assert(is_digit(numeral[k - from]));
    }
    if rest.len() > 0 {
        assert(name[to] == rest[0]);
    }
    lemma_segment_end(name, from, to);
    assert(name.subrange(from, to) =~= numeral);
    assert(is_digit(numeral[0]));
    assert(unsigned_digits(numeral) == numeral);
}

/// Whether `c` is white space.
pub open spec fn is_space(c: char) -> bool {
    ||| c == ' '
    ||| ('\u{9}' <= c && c <= '\u{d}')
    ||| c == '\u{85}'
    ||| c == '\u{a0}'
    ||| c == '\u{1680}'
    ||| ('\u{2000}' <= c && c <= '\u{200a}')
    ||| c == '\u{2028}'
    ||| c == '\u{2029}'
    ||| c == '\u{202f}'
    ||| c == '\u{205f}'
    ||| c == '\u{3000}'
}

/// The end of the run of white space of `s` that starts at `from`.
pub open spec fn spaces_end(s: Seq<char>, from: int) -> int
    decreases s.len() - from,
{
    if 0 <= from < s.len() && is_space(s[from]) {
        spaces_end(s, from + 1)
    } else {
        from
    }
}

/// The end of the word of `s` that starts at `from`: of its run of
/// characters that are no white space.
pub open spec fn word_end(s: Seq<char>, from: int) -> int
    decreases s.len() - from,
{
    if 0 <= from < s.len() && !is_space(s[from]) {
        word_end(s, from + 1)
    } else {
        from
    }
}

/// The word that follows the first word of a line that begins with a
/// word, if there is one.
pub open spec fn second_word(line: Seq<char>) -> Option<Seq<char>> {
    let from = spaces_end(line, word_end(line, 0));
    if from < line.len() {
        Some(line.subrange(from, word_end(line, from)))
    } else {
        None
    }
}

/// The number of processes created since boot, as the first of `lines`
/// gives it that begins with `processes ` and holds a second word.
pub open spec fn fork_count_in(lines: Seq<Seq<char>>) -> Option<Seq<char>>
    decreases lines.len(),
{
    if lines.len() == 0 {
        None
    } else if is_prefix("processes "@, lines[0]) && second_word(lines[0]) is Some {
        second_word(lines[0])
    } else {
        fork_count_in(lines.drop_first())
    }
}

/// The points that the forks probe reports for the kernel's statistics:
/// the fork counter, where the statistics hold it.
pub open spec fn forks_points(node_id: Seq<char>, timestamp: Seq<char>, stat: Seq<char>) -> Seq<
    PointView,
> {
    match fork_count_in(split_on(stat, '\n')) {
        Some(count) => seq![
            PointView {
                node_id,
                timestamp,
                probe_type: "procfs"@,
                probe_name: "forks_total"@,
                probe_value: count,
            },
        ],
        None => Seq::empty(),
    }
}

/// Whether `c` is white space.
pub fn is_space_char(c: char) -> (yes: bool)
    ensures
        yes == is_space(c),
{
    c == ' ' || (c >= '\u{9}' && c <= '\u{d}') || c == '\u{85}' || c == '\u{a0}' || c == '\u{1680}'
        || (c >= '\u{2000}' && c <= '\u{200a}') || c == '\u{2028}' || c == '\u{2029}' || c
        == '\u{202f}' || c == '\u{205f}' || c == '\u{3000}'
}

/// A copy of `chars[from..to]`.
fn copy_range(chars: &Vec<char>, from: usize, to: usize) -> (part: Vec<char>)
    requires
        from <= to <= chars@.len(),
    ensures
        part@ == chars@.subrange(from as int, to as int),
{
    let mut part: Vec<char> = Vec::new();
    let mut k: usize = from;
    while k < to
        invariant
            from <= k <= to <= chars@.len(),
            part@ == chars@.subrange(from as int, k as int),
        decreases to - k,
    {
        proof {
            assert(chars@.subrange(from as int, k as int).push(chars@[k as int])
                =~= chars@.subrange(from as int, k + 1));
        }
        part.push(chars[k]);
        k += 1;
    }
    part
}

/// Where the second word of a line starts and ends, if the line has one.
fn second_word_bounds(line: &Vec<char>) -> (bounds: Option<(usize, usize)>)
    ensures
        match bounds {
            Some((from, to)) => from <= to <= line@.len() && second_word(line@) == Some(
                line@.subrange(from as int, to as int),
            ),
            None => second_word(line@) is None,
        },
{
    let len: usize = line.len();
    let mut k: usize = 0;
    while k < len && !is_space_char(line[k])
        invariant
            0 <= k <= len,
            len == line@.len(),
            word_end(line@, 0) == word_end(line@, k as int),
        decreases len - k,
    {
        k += 1;
    }
    let first_end: usize = k;
    while k < len && is_space_char(line[k])
        invariant
            first_end <= k <= len,
            len == line@.len(),
            spaces_end(line@, first_end as int) == spaces_end(line@, k as int),
        decreases len - k,
    {
        k += 1;
    }
    if k >= len {
        return None;
    }
    let from: usize = k;
    while k < len && !is_space_char(line[k])
        invariant
            from <= k <= len,
            len == line@.len(),
            word_end(line@, from as int) == word_end(line@, k as int),
        decreases len - k,
    {
        k += 1;
    }
    Some((from, k))
}

/// The forks probe: reports the number of processes created since boot, as
/// the kernel's statistics give it in the line that begins with
/// `processes`. Statistics without such a line give no point.
pub fn probe_forks(node_id: &str, timestamp: &str, stat_content: &str) -> (data_points: Vec<
    ProbeDataPoint,
>)
    ensures
        batch_view(data_points@) == forks_points(node_id@, timestamp@, stat_content@),
{
    let chars = to_chars(stat_content);
    let bounds = split_bounds(&chars, '\n');
    let prefix = to_chars("processes ");
    let ghost lines = split_on(stat_content@, '\n');
    let mut data_points: Vec<ProbeDataPoint> = Vec::new();
    let mut i: usize = 0;
    proof {
        assert(lines.skip(0) =~= lines);
    }
    while i < bounds.len()
        invariant
            0 <= i <= bounds@.len(),
            chars@ == stat_content@,
            prefix@ == "processes "@,
            lines == split_on(stat_content@, '\n'),
            bounds@.len() == lines.len(),
            forall|k: int|
                0 <= k < bounds@.len() ==> {
                    &&& (#[trigger] bounds@[k]).0 <= bounds@[k].1 <= chars@.len()
                    &&& chars@.subrange(bounds@[k].0 as int, bounds@[k].1 as int) == lines[k]
                },
            fork_count_in(lines) == fork_count_in(lines.skip(i as int)),
            data_points@.len() == 0,
        decreases bounds@.len() - i,
    {
        let (from, to) = bounds[i];
        let line = copy_range(&chars, from, to);
        proof {
            assert(lines.skip(i as int)[0] == lines[i as int]);
            assert(lines.skip(i as int).drop_first() =~= lines.skip(i + 1));
            assert(line@ == lines[i as int]);
        }
        if starts_with(&line, &prefix) {
            match second_word_bounds(&line) {
                Some((word_from, word_to)) => {
                    let count = String::from_str(
                        stat_content.substring_char(from + word_from, from + word_to),
                    );
                    proof {
                        assert(stat_content@.subrange(from + word_from, from + word_to)
                            =~= line@.subrange(word_from as int, word_to as int));
                    }
                    let point = ProbeDataPoint {
                        node_id: String::from_str(node_id),
                        timestamp: String::from_str(timestamp),
                        probe_type: String::from_str("procfs"),
                        probe_name: String::from_str("forks_total"),
                        probe_value: count,
                    };
                    proof {
                        assert(batch_view(data_points@.push(point)) =~= seq![point@]);
                    }
                    data_points.push(point);
                    return data_points;
                },
                None => {},
            }
        }
        i += 1;
    }
    proof {
        assert(lines.skip(i as int) =~= Seq::<Seq<char>>::empty());
        assert(batch_view(data_points@) =~= Seq::<PointView>::empty());
    }
    data_points
}

} // verus!
