//! Linux: `/proc/stat` for the load, `/proc/cpuinfo` for the frequency and
//! the hwmon sensor names for the temperature.

use vstd::prelude::*;

use super::{sat_sub, LoadSample};
use crate::text::{
    after_first, chars_of, eq_ignore_ascii_case, eq_ignoring_ascii_case, has_prefix, has_suffix,
    lines, parse_u64, parse_u64_spec, seqs_of, split_after, split_lines, split_words,
    starts_with, ends_with, string_from_chars, trim, trim_chars, words, chars_le, le_chars,
    lemma_chars_le_total, lemma_chars_le_transitive,
};

verus! {

/// The CPU counters on the first line of `/proc/stat`, in clock ticks.
/// Counters missing from the line are zero.
#[derive(Debug, Clone, Copy, PartialEq, Eq, Structural)]
pub struct CpuTimes {
    pub user: u64,
    pub nice: u64,
    pub system: u64,
    pub idle: u64,
    pub iowait: u64,
    pub irq: u64,
    pub softirq: u64,
    pub steal: u64,
}

/// The numbers among `ws`, in order; words that are not numbers are left out.
pub open spec fn parsed_numbers(ws: Seq<Seq<char>>) -> Seq<u64>
    decreases ws.len(),
{
    if ws.len() == 0 {
        Seq::empty()
    } else {
        let before = parsed_numbers(ws.drop_last());
        match parse_u64_spec(ws.last()) {
            Some(v) => before.push(v),
            None => before,
        }
    }
}

/// The numbers after the first word of the first line of `content`, when
/// that line starts with `"cpu "` and holds at least four of them.
pub open spec fn stat_numbers(content: Seq<char>) -> Option<Seq<u64>> {
    let ls = lines(content);
    if ls.len() == 0 || !has_prefix(ls[0], "cpu "@) {
        None
    } else {
        let ws = words(ls[0]);
        let rest = if ws.len() > 0 {
            ws.drop_first()
        } else {
            ws
        };
        let nums = parsed_numbers(rest);
        if nums.len() < 4 {
            None
        } else {
            Some(nums)
        }
    }
}

/// The `i`-th number, or zero when there are fewer.
pub open spec fn nth_or_zero(nums: Seq<u64>, i: int) -> u64 {
    if i < nums.len() {
        nums[i]
    } else {
        0
    }
}

/// The counters named by the numbers of a `/proc/stat` cpu line.
pub open spec fn cpu_times_of(nums: Seq<u64>) -> CpuTimes {
    CpuTimes {
        user: nums[0],
        nice: nums[1],
        system: nums[2],
        idle: nums[3],
        iowait: nth_or_zero(nums, 4),
        irq: nth_or_zero(nums, 5),
        softirq: nth_or_zero(nums, 6),
        steal: nth_or_zero(nums, 7),
    }
}

/// Reads the aggregate CPU counters from the text of `/proc/stat`.
pub fn parse_cpu_stat(content: &str) -> (times: Option<CpuTimes>)
    ensures
        times == (match stat_numbers(content@) {
            Some(nums) => Some(cpu_times_of(nums)),
            None => None,
        }),
{
    let chars = chars_of(content);
    let ls = split_lines(chars.as_slice());
    if ls.len() == 0 {
        return None;
    }
    assert(seqs_of(ls@)[0] == ls@[0]@);
    let first: &Vec<char> = &ls[0];
    let prefix = chars_of("cpu ");
    if !starts_with(first.as_slice(), prefix.as_slice()) {
        return None;
    }
    let ws = split_words(first.as_slice());
    let ghost wseq = seqs_of(ws@);
    let ghost rest = if wseq.len() > 0 { wseq.drop_first() } else { wseq };
    let mut nums: Vec<u64> = Vec::new();
    let mut i: usize = 1;
    if ws.len() == 0 {
        i = 0;
    }
    while i < ws.len()
        invariant
            wseq == seqs_of(ws@),
            rest == (if wseq.len() > 0 { wseq.drop_first() } else { wseq }),
            wseq.len() == ws@.len(),
            (ws@.len() > 0 ==> 1 <= i) && (ws@.len() == 0 ==> i == 0),
            i <= ws@.len(),
            nums@ == parsed_numbers(rest.take(if ws@.len() > 0 { i - 1 } else { 0 })),
        decreases ws.len() - i,
    {
        let ghost k = (i - 1) as int;
        assert(rest.take(k + 1).drop_last() =~= rest.take(k));
        assert(rest.take(k + 1).last() == ws@[i as int]@);
        match parse_u64(ws[i].as_slice()) {
            Some(v) => nums.push(v),
            None => {},
        }
        i = i + 1;
    }
    if ws.len() > 0 {
        assert(rest.take((ws@.len() - 1) as int) =~= rest);
    } else {
        assert(rest.take(0) =~= rest);
    }
    if nums.len() < 4 {
        return None;
    }
    let n = nums.len();
    Some(
        CpuTimes {
            user: nums[0],
            nice: nums[1],
            system: nums[2],
            idle: nums[3],
            iowait: if n > 4 { nums[4] } else { 0 },
            irq: if n > 5 { nums[5] } else { 0 },
            softirq: if n > 6 { nums[6] } else { 0 },
            steal: if n > 7 { nums[7] } else { 0 },
        },
    )
}

impl CpuTimes {
    /// Idle time: `idle + iowait`.
    pub open spec fn idle_all(&self) -> int {
        self.idle + self.iowait
    }

    /// Busy time: every other counter.
    pub open spec fn non_idle(&self) -> int {
        self.user + self.nice + self.system + self.irq + self.softirq + self.steal
    }

    /// Idle and total time, or `None` when the total does not fit in a `u64`
    /// (the sums would overflow).
    pub fn idle_and_total(&self) -> (r: Option<(u64, u64)>)
        ensures
            self.idle_all() + self.non_idle() <= u64::MAX ==> r == Some(
                (self.idle_all() as u64, (self.idle_all() + self.non_idle()) as u64),
            ),
            self.idle_all() + self.non_idle() > u64::MAX ==> r is None,
    {
        let idle_all = self.idle.checked_add(self.iowait);
        let a = self.user.checked_add(self.nice);
        let b = match a { Some(x) => x.checked_add(self.system), None => None };
        let c = match b { Some(x) => x.checked_add(self.irq), None => None };
        let d = match c { Some(x) => x.checked_add(self.softirq), None => None };
        let non_idle = match d { Some(x) => x.checked_add(self.steal), None => None };
        match (idle_all, non_idle) {
            (Some(i), Some(n)) => match i.checked_add(n) {
                Some(total) => Some((i, total)),
                None => None,
            },
            _ => None,
        }
    }
}

/// CPU load bookkeeping on Linux: the idle and total times of the previous
/// `/proc/stat` reading.
pub struct LinuxHardwareProvider {
    pub prev_idle: u64,
    pub prev_total: u64,
}

impl LinuxHardwareProvider {
    /// No previous reading: both counters at zero.
    pub fn new() -> (p: Self)
        ensures
            p.prev_idle == 0,
            p.prev_total == 0,
    {
        LinuxHardwareProvider { prev_idle: 0, prev_total: 0 }
    }

    /// Records a reading of the idle and total times and returns how much
    /// of the time since the previous reading was busy. Counters that went
    /// back count as zero.
    pub fn record_counters(&mut self, idle_all: u64, total: u64) -> (sample: LoadSample)
        ensures
            final(self).prev_idle == idle_all,
            final(self).prev_total == total,
            sample.total == sat_sub(total, old(self).prev_total),
            sample.busy == sat_sub(sample.total, sat_sub(idle_all, old(self).prev_idle)),
            sample.busy <= sample.total,
    {
        let total_diff = total.saturating_sub(self.prev_total);
        let idle_diff = idle_all.saturating_sub(self.prev_idle);
        self.prev_total = total;
        self.prev_idle = idle_all;
        LoadSample { busy: total_diff.saturating_sub(idle_diff), total: total_diff }
    }
}

impl Default for LinuxHardwareProvider {
    fn default() -> (p: Self) {
        Self::new()
    }
}

/// The fields after `':'` on the `"cpu MHz"` lines of `/proc/cpuinfo`,
/// trimmed, in order.
pub open spec fn mhz_fields(ls: Seq<Seq<char>>) -> Seq<Seq<char>>
    decreases ls.len(),
{
    if ls.len() == 0 {
        Seq::empty()
    } else {
        let before = mhz_fields(ls.drop_last());
        let line = ls.last();
        if has_prefix(line, "cpu MHz"@) && after_first(line, ':') is Some {
            before.push(trim(after_first(line, ':')->0))
        } else {
            before
        }
    }
}

/// The frequency fields of `/proc/cpuinfo`, as written, in order.
pub fn cpu_mhz_fields(content: &str) -> (fields: Vec<String>)
    ensures
        fields@.map_values(|s: String| s@) == mhz_fields(lines(content@)),
{
    let chars = chars_of(content);
    let ls = split_lines(chars.as_slice());
    let prefix = chars_of("cpu MHz");
    let ghost lseq = seqs_of(ls@);
    let mut fields: Vec<String> = Vec::new();
    let mut i: usize = 0;
    while i < ls.len()
        invariant
            lseq == seqs_of(ls@),
            lseq.len() == ls@.len(),
            prefix@ == "cpu MHz"@,
            i <= ls@.len(),
            fields@.map_values(|s: String| s@) == mhz_fields(lseq.take(i as int)),
        decreases ls.len() - i,
    {
        let line: &Vec<char> = &ls[i];
        assert(lseq.take(i + 1).drop_last() =~= lseq.take(i as int));
        assert(lseq.take(i + 1).last() == line@);
        if starts_with(line.as_slice(), prefix.as_slice()) {
            match split_after(line.as_slice(), ':') {
                Some(rest) => {
                    let field = trim_chars(rest.as_slice());
                    let s = string_from_chars(field.as_slice());
                    let ghost before = fields@;
                    fields.push(s);
                    assert(fields@.map_values(|s: String| s@) =~= before.map_values(
                        |s: String| s@,
                    ).push(s@));
                },
                None => {},
            }
        }
        i = i + 1;
    }
    assert(lseq.take(ls@.len() as int) =~= lseq);
    fields
}

/// Whether an hwmon `name` file (trimmed) names a CPU temperature driver:
/// k10temp, coretemp, zenpower, cpu_thermal or acpitz, in any ASCII case.
pub open spec fn is_cpu_temp_driver(name: Seq<char>) -> bool {
    let n = trim(name);
    ||| eq_ignoring_ascii_case(n, "k10temp"@)
    ||| eq_ignoring_ascii_case(n, "coretemp"@)
    ||| eq_ignoring_ascii_case(n, "zenpower"@)
    ||| eq_ignoring_ascii_case(n, "cpu_thermal"@)
    ||| eq_ignoring_ascii_case(n, "acpitz"@)
}

/// Whether the hwmon driver named by `name` reports CPU temperatures.
pub fn is_supported_temp_driver(name: &str) -> (b: bool)
    ensures
        b == is_cpu_temp_driver(name@),
{
    let chars = chars_of(name);
    let n = trim_chars(chars.as_slice());
    let k10 = chars_of("k10temp");
    let core = chars_of("coretemp");
    let zen = chars_of("zenpower");
    let thermal = chars_of("cpu_thermal");
    let acpi = chars_of("acpitz");
    eq_ignore_ascii_case(n.as_slice(), k10.as_slice()) || eq_ignore_ascii_case(
        n.as_slice(),
        core.as_slice(),
    ) || eq_ignore_ascii_case(n.as_slice(), zen.as_slice()) || eq_ignore_ascii_case(
        n.as_slice(),
        thermal.as_slice(),
    ) || eq_ignore_ascii_case(n.as_slice(), acpi.as_slice())
}

/// Whether an hwmon file name is a temperature input: `temp*_input`.
pub fn is_temp_input_name(name: &str) -> (b: bool)
    ensures
        b == (has_prefix(name@, "temp"@) && has_suffix(name@, "_input"@)),
{
    let chars = chars_of(name);
    let temp = chars_of("temp");
    let input = chars_of("_input");
    starts_with(chars.as_slice(), temp.as_slice()) && ends_with(chars.as_slice(), input.as_slice())
}

/// Whether a file name is a temperature input: `temp*_input`.
pub open spec fn is_temp_input(name: Seq<char>) -> bool {
    has_prefix(name, "temp"@) && has_suffix(name, "_input"@)
}

/// Whether a directory's file names hold a temperature input.
pub open spec fn has_temp_input(names: Seq<String>) -> bool {
    exists|j: int| 0 <= j < names.len() && is_temp_input(#[trigger] names[j]@)
}

/// Picks the temperature sensor among the file names of the candidate
/// hwmon directories, in the order the directories were found: the first
/// directory that holds a `temp*_input` file, and there the least such name
/// in code-point order. Returns the directory's and the name's positions.
pub fn choose_temp_sensor(dirs: &Vec<Vec<String>>) -> (r: Option<(usize, usize)>)
    ensures
        match r {
            Some((d, k)) => {
                &&& d < dirs@.len()
                &&& k < dirs@[d as int]@.len()
                &&& is_temp_input(dirs@[d as int]@[k as int]@)
                &&& forall|j: int|
                    0 <= j < dirs@[d as int]@.len() && is_temp_input(#[trigger] dirs@[d as int]@[j]@)
                        ==> chars_le(dirs@[d as int]@[k as int]@, dirs@[d as int]@[j]@)
                &&& forall|e: int| 0 <= e < d ==> !has_temp_input(#[trigger] dirs@[e]@)
            },
            None => forall|e: int| 0 <= e < dirs@.len() ==> !has_temp_input(#[trigger] dirs@[e]@),
        },
{
    let mut d: usize = 0;
    while d < dirs.len()
        invariant
            d <= dirs@.len(),
            forall|e: int| 0 <= e < d ==> !has_temp_input(#[trigger] dirs@[e]@),
        decreases dirs.len() - d,
    {
        let names: &Vec<String> = &dirs[d];
        let mut best: Option<usize> = None;
        let mut i: usize = 0;
        while i < names.len()
            invariant
                names == dirs@[d as int],
                i <= names@.len(),
                match best {
                    Some(k) => {
                        &&& k < i
                        &&& is_temp_input(names@[k as int]@)
                        &&& forall|j: int|
                            0 <= j < i && is_temp_input(#[trigger] names@[j]@) ==> chars_le(
                                names@[k as int]@,
                                names@[j]@,
                            )
                    },
                    None => forall|j: int| 0 <= j < i ==> !is_temp_input(#[trigger] names@[j]@),
                },
            decreases names.len() - i,
        {
            if is_temp_input_name(names[i].as_str()) {
                match best {
                    None => {
                        best = Some(i);
                        proof {
                            assert forall|j: int|
                                0 <= j < i + 1 && is_temp_input(#[trigger] names@[j]@) implies chars_le(
                                names@[i as int]@,
                                names@[j]@,
                            ) by {
                                assert(j == i);
                                lemma_chars_le_total(names@[i as int]@, names@[i as int]@);
                            }
                        }
                    },
                    Some(k) => {
                        let candidate = chars_of(names[i].as_str());
                        let current = chars_of(names[k].as_str());
                        if !le_chars(current.as_slice(), candidate.as_slice()) {
                            best = Some(i);
                            proof {
                                lemma_chars_le_total(names@[k as int]@, names@[i as int]@);
                                assert forall|j: int|
                                    0 <= j < i + 1 && is_temp_input(#[trigger] names@[j]@)
                                        implies chars_le(names@[i as int]@, names@[j]@) by {
                                    if j < i {
                                        lemma_chars_le_transitive(
                                            names@[i as int]@,
                                            names@[k as int]@,
                                            names@[j]@,
                                        );
                                    } else {
                                        lemma_chars_le_total(names@[i as int]@, names@[i as int]@);
                                    }
                                }
                            }
                        }
                    },
                }
            }
            i = i + 1;
        }
        match best {
            Some(k) => {
                return Some((d, k));
            },
            None => {
                assert(!has_temp_input(dirs@[d as int]@));
            },
        }
        d = d + 1;
    }
    None
}

/// Every number among the words is kept, zero included, in order: when all
/// words are numbers, the k-th counter is the k-th word's value.
pub proof fn lemma_parsed_numbers_keeps_every_number(ws: Seq<Seq<char>>)
    requires
        forall|i: int| 0 <= i < ws.len() ==> #[trigger] parse_u64_spec(ws[i]) is Some,
    ensures
        parsed_numbers(ws).len() == ws.len(),
        forall|i: int|
            0 <= i < ws.len() ==> Some(#[trigger] parsed_numbers(ws)[i]) == parse_u64_spec(ws[i]),
    decreases ws.len(),
{
    if ws.len() > 0 {
        let init = ws.drop_last();
        assert forall|i: int| 0 <= i < init.len() implies #[trigger] parse_u64_spec(init[i]) is Some by {
            assert(init[i] == ws[i]);
        }
        lemma_parsed_numbers_keeps_every_number(init);
        assert(parse_u64_spec(ws[ws.len() - 1]) is Some);
        assert forall|i: int| 0 <= i < ws.len() implies Some(
            #[trigger] parsed_numbers(ws)[i],
        ) == parse_u64_spec(ws[i]) by {
            if i < ws.len() - 1 {
                assert(init[i] == ws[i]);
                assert(parsed_numbers(ws)[i] == parsed_numbers(init)[i]);
            }
        }
    }
}

/// Words that are not numbers are left out and every number is kept: the
/// count of numbers found is the count of words that parse.
pub proof fn lemma_parsed_numbers_count(ws: Seq<Seq<char>>)
    ensures
        parsed_numbers(ws).len() == ws.filter(|w: Seq<char>| parse_u64_spec(w) is Some).len(),
    decreases ws.len(),
{
    reveal_with_fuel(Seq::filter, 1);
    if ws.len() > 0 {
        lemma_parsed_numbers_count(ws.drop_last());
    }
}

/// Every frequency field comes from a line that begins with `cpu MHz`: it
/// is that line's text after its first `':'`, trimmed.
pub proof fn lemma_mhz_fields_come_from_mhz_lines(ls: Seq<Seq<char>>)
    ensures
        forall|k: int|
            0 <= k < mhz_fields(ls).len() ==> exists|i: int|
                0 <= i < ls.len() && has_prefix(#[trigger] ls[i], "cpu MHz"@) && after_first(
                    ls[i],
                    ':',
                ) is Some && trim(after_first(ls[i], ':')->0) == #[trigger] mhz_fields(ls)[k],
    decreases ls.len(),
{
    if ls.len() > 0 {
        let init = ls.drop_last();
        lemma_mhz_fields_come_from_mhz_lines(init);
        assert forall|k: int| 0 <= k < mhz_fields(ls).len() implies exists|i: int|
            0 <= i < ls.len() && has_prefix(#[trigger] ls[i], "cpu MHz"@) && after_first(
                ls[i],
                ':',
            ) is Some && trim(after_first(ls[i], ':')->0) == #[trigger] mhz_fields(ls)[k] by {
            if k < mhz_fields(init).len() {
                let i = choose|i: int|
                    0 <= i < init.len() && has_prefix(#[trigger] init[i], "cpu MHz"@) && after_first(
                        init[i],
                        ':',
                    ) is Some && trim(after_first(init[i], ':')->0) == #[trigger] mhz_fields(init)[k];
                assert(init[i] == ls[i]);
                assert(mhz_fields(ls)[k] == mhz_fields(init)[k]);
            } else {
                let i = ls.len() - 1;
                assert(ls[i] == ls.last());
            }
        }
    }
}

/// A line that begins with `cpu MHz` and holds a `':'` always gives a field:
/// appending one to the lines appends its trimmed value to the fields, and a
/// line that does not begin with `cpu MHz` adds nothing.
pub proof fn lemma_mhz_fields_append(ls: Seq<Seq<char>>, line: Seq<char>)
    ensures
        has_prefix(line, "cpu MHz"@) && after_first(line, ':') is Some ==> mhz_fields(ls.push(line))
            == mhz_fields(ls).push(trim(after_first(line, ':')->0)),
        !has_prefix(line, "cpu MHz"@) ==> mhz_fields(ls.push(line)) == mhz_fields(ls),
{
    assert(ls.push(line).drop_last() =~= ls);
}

} // verus!
