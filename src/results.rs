//! Normalisation of raw telemetry into per-experiment tables, and the steps
//! that bring a finished job's results in.
use crate::text::{
    contains, decimal, decimal_string, ends_with, first_word, first_word_of, has_infix, has_prefix,
    has_suffix, digit_char, digit_value, parse_i32, parse_u32, parse_usize, signed_of, split_char, split_on, starts_with,
    strip_commas, unsigned_of, views, without,
};
use crate::state::{settled, Lifecycle, OARState};
use vstd::prelude::*;
use vstd::string::StringExecFns;

verus! {

pub enum ResultError {
    /// A file or directory name that does not follow the naming grammar.
    UnparsableName(String),
}

// ---------------------------------------------------------------- names

pub open spec fn u32_text(s: Seq<char>) -> Option<Seq<char>> {
    match unsigned_of(s, u32::MAX as nat) {
        Some(v) => Some(decimal(v)),
        None => None,
    }
}

/// `perf_<kind>_<cores>_<ops>` or `perf_<kind>_<extra>_<cores>_<ops>`: the
/// core count and operations per core, in canonical decimal form.
pub open spec fn perf_consumption_metadata(name: Seq<char>) -> Option<(Seq<char>, Seq<char>)> {
    let p = split_on(name, '_');
    let (a, b) = if p.len() == 4 {
        (p[2], p[3])
    } else {
        (p[3], p[4])
    };
    if p.len() == 4 || p.len() == 5 {
        match (u32_text(a), u32_text(b)) {
            (Some(x), Some(y)) => Some((x, y)),
            _ => None,
        }
    } else {
        None
    }
}

/// `frequency_<f>_perf_<x>_<y>`: the frequency, in canonical decimal form.
pub open spec fn perf_frequency_metadata(name: Seq<char>) -> Option<Seq<char>> {
    let p = split_on(name, '_');
    if p.len() == 5 {
        u32_text(p[1])
    } else {
        None
    }
}

pub open spec fn i32_of(s: Seq<char>) -> Option<int> {
    signed_of(s, 0x8000_0000nat, i32::MAX as nat)
}

pub open spec fn usize_of(s: Seq<char>) -> Option<nat> {
    unsigned_of(s, usize::MAX as nat)
}

/// `hwpc_<kind>_<cores>_<ops>_<iteration>`, with an optional extra segment
/// before the core count.
pub open spec fn hwpc_consumption_metadata(name: Seq<char>) -> Option<(i32, i32, usize)> {
    let p = split_on(name, '_');
    let o: int = if p.len() == 5 {
        2
    } else {
        3
    };
    if p.len() == 5 || p.len() == 6 {
        match (i32_of(p[o]), i32_of(p[o + 1]), usize_of(p[o + 2])) {
            (Some(c), Some(n), Some(i)) => Some((c as i32, n as i32, i as usize)),
            _ => None,
        }
    } else {
        None
    }
}

/// `frequency_<f>_hwpc_<x>_<y>_<iteration>`.
pub open spec fn hwpc_frequency_metadata(name: Seq<char>) -> Option<(i32, usize)> {
    let p = split_on(name, '_');
    if p.len() == 6 {
        match (i32_of(p[1]), usize_of(p[5])) {
            (Some(f), Some(i)) => Some((f as i32, i as usize)),
            _ => None,
        }
    } else {
        None
    }
}

proof fn lemma_split_len(s: Seq<char>, sep: char)
    ensures
        split_on(s, sep).len() >= 1,
    decreases s.len(),
{
    if s.len() > 0 {
        lemma_split_len(s.drop_last(), sep);
    }
}

fn u32_canonical(s: &str) -> (r: Option<(u32, String)>)
    ensures
        match u32_text(s@) {
            Some(t) => r matches Some((v, text)) && text@ == t && unsigned_of(s@, u32::MAX as nat)
                == Some(v as nat),
            None => r is None,
        },
{
    match parse_u32(s) {
        Some(v) => Some((v, decimal_string(v as u64))),
        None => None,
    }
}

/// Reads the core count and operations per core from the name of a
/// single-file perf report; they come back in canonical decimal form.
pub fn parse_perf_consumption_metadata(file_name: &str) -> (r: Option<(String, String)>)
    ensures
        match perf_consumption_metadata(file_name@) {
            Some((a, b)) => r matches Some((x, y)) && x@ == a && y@ == b,
            None => r is None,
        },
{
    match perf_consumption_values(file_name) {
        Some((_c, _n, a, b)) => Some((a, b)),
        None => None,
    }
}

fn perf_consumption_values(file_name: &str) -> (r: Option<(u32, u32, String, String)>)
    ensures
        match perf_consumption_metadata(file_name@) {
            Some((a, b)) => r matches Some((c, n, x, y)) && x@ == a && y@ == b && x@ == decimal(
                c as nat,
            ) && y@ == decimal(n as nat),
            None => r is None,
        },
{
    let parts = split_char(file_name, '_');
    proof {
        lemma_split_len(file_name@, '_');
        assert(views(parts@).len() == parts@.len());
    }
    let (ia, ib): (usize, usize) = if parts.len() == 4 {
        (2, 3)
    } else {
        (3, 4)
    };
    if parts.len() != 4 && parts.len() != 5 {
        return None;
    }
    proof {
        assert(views(parts@)[ia as int] == parts@[ia as int]@);
        assert(views(parts@)[ib as int] == parts@[ib as int]@);
    }
    match (u32_canonical(parts[ia].as_str()), u32_canonical(parts[ib].as_str())) {
        (Some((c, x)), Some((n, y))) => Some((c, n, x, y)),
        _ => None,
    }
}

/// Reads the frequency from the name of a single-file perf frequency report,
/// in canonical decimal form.
pub fn parse_perf_frequency_metadata(file_name: &str) -> (r: Option<String>)
    ensures
        match perf_frequency_metadata(file_name@) {
            Some(a) => r matches Some(x) && x@ == a,
            None => r is None,
        },
{
    match perf_frequency_values(file_name) {
        Some((_f, a)) => Some(a),
        None => None,
    }
}

fn perf_frequency_values(file_name: &str) -> (r: Option<(u32, String)>)
    ensures
        match perf_frequency_metadata(file_name@) {
            Some(a) => r matches Some((f, x)) && x@ == a && x@ == decimal(f as nat),
            None => r is None,
        },
{
    let parts = split_char(file_name, '_');
    proof {
        assert(views(parts@).len() == parts@.len());
    }
    if parts.len() != 5 {
        return None;
    }
    proof {
        assert(views(parts@)[1] == parts@[1]@);
    }
    u32_canonical(parts[1].as_str())
}

/// Reads core count, operations per core and iteration from the name of a
/// directory of HWPC reports.
pub fn parse_hwpc_consumption_metadata(dir_name: &str) -> (r: Option<(i32, i32, usize)>)
    ensures
        r == hwpc_consumption_metadata(dir_name@),
{
    let parts = split_char(dir_name, '_');
    proof {
        assert(views(parts@).len() == parts@.len());
    }
    if parts.len() != 5 && parts.len() != 6 {
        return None;
    }
    let o: usize = if parts.len() == 5 {
        2
    } else {
        3
    };
    proof {
        assert(views(parts@)[o as int] == parts@[o as int]@);
        assert(views(parts@)[o + 1] == parts@[o + 1]@);
        assert(views(parts@)[o + 2] == parts@[o + 2]@);
    }
    match (parse_i32(parts[o].as_str()), parse_i32(parts[o + 1].as_str()), parse_usize(parts[o + 2].as_str())) {
        (Some(c), Some(n), Some(i)) => Some((c, n, i)),
        _ => None,
    }
}

/// Reads frequency and iteration from the name of a directory of HWPC
/// frequency reports.
pub fn parse_hwpc_frequency_metadata(dir_name: &str) -> (r: Option<(i32, usize)>)
    ensures
        r == hwpc_frequency_metadata(dir_name@),
{
    let parts = split_char(dir_name, '_');
    proof {
        assert(views(parts@).len() == parts@.len());
    }
    if parts.len() != 6 {
        return None;
    }
    proof {
        assert(views(parts@)[1] == parts@[1]@);
        assert(views(parts@)[5] == parts@[5]@);
    }
    match (parse_i32(parts[1].as_str()), parse_usize(parts[5].as_str())) {
        (Some(f), Some(i)) => Some((f, i)),
        _ => None,
    }
}

// ---------------------------------------------------------------- selection

pub open spec fn frequency_prefix(name: Seq<char>, kind: Seq<char>) -> bool {
    has_prefix(name, "frequency_1_"@ + kind) || has_prefix(name, "frequency_10_"@ + kind)
        || has_prefix(name, "frequency_100_"@ + kind) || has_prefix(name, "frequency_1000_"@ + kind)
}

/// Which names select: `sel(n)` for each name `n` of `names`, in order.
pub open spec fn selected(names: Seq<String>, sel: spec_fn(Seq<char>) -> bool) -> Seq<Seq<char>> {
    views(names).filter(sel)
}

pub open spec fn is_perf_consumption_name(n: Seq<char>) -> bool {
    has_prefix(n, "perf_"@) && !has_suffix(n, ".csv"@)
}

pub open spec fn is_perf_frequency_name(n: Seq<char>) -> bool {
    !has_suffix(n, ".csv"@) && frequency_prefix(n, "perf"@)
}

pub open spec fn is_hwpc_consumption_name(n: Seq<char>) -> bool {
    has_prefix(n, "hwpc"@)
}

pub open spec fn is_hwpc_frequency_name(n: Seq<char>) -> bool {
    frequency_prefix(n, "hwpc"@)
}

fn frequency_named(name: &str, kind: &str) -> (r: bool)
    ensures
        r == frequency_prefix(name@, kind@),
{
    let mut a = "frequency_1_".to_owned();
    a.append(kind);
    let mut b = "frequency_10_".to_owned();
    b.append(kind);
    let mut c = "frequency_100_".to_owned();
    c.append(kind);
    let mut d = "frequency_1000_".to_owned();
    d.append(kind);
    starts_with(name, a.as_str()) || starts_with(name, b.as_str()) || starts_with(name, c.as_str())
        || starts_with(name, d.as_str())
}

/// Keeps, in order, the names that the filter numbered `which` accepts (see
/// `name_filter`).
fn keep_names(names: &Vec<String>, which: u8) -> (r: Vec<String>)
    requires
        which < 4,
    ensures
        views(r@) == views(names@).filter(name_filter(which)),
{
    let mut r: Vec<String> = Vec::new();
    let mut i: usize = 0;
    while i < names.len()
        invariant
            i <= names.len(),
            which < 4,
            views(r@) == views(names@.subrange(0, i as int)).filter(name_filter(which)),
        decreases names.len() - i,
    {
        let n = names[i].as_str();
        let keep = if which == 0 {
            starts_with(n, "perf_") && !ends_with(n, ".csv")
        } else if which == 1 {
            !ends_with(n, ".csv") && frequency_named(n, "perf")
        } else if which == 2 {
            starts_with(n, "hwpc")
        } else {
            frequency_named(n, "hwpc")
        };
        proof {
            reveal(Seq::filter);
            let p = names@.subrange(0, i + 1);
            assert(views(p).drop_last() =~= views(names@.subrange(0, i as int)));
            assert(views(p).last() == names@[i as int]@);
            assert(keep == name_filter(which)(names@[i as int]@));
        }
        let ghost before = r@;
        if keep {
            r.push(names[i].clone());
            proof {
                assert(views(r@) =~= views(before).push(names@[i as int]@));
            }
        }
        i = i + 1;
    }
    proof {
        assert(names@.subrange(0, names@.len() as int) =~= names@);
    }
    r
}

pub open spec fn name_filter(which: u8) -> spec_fn(Seq<char>) -> bool {
    if which == 0 {
        |n: Seq<char>| is_perf_consumption_name(n)
    } else if which == 1 {
        |n: Seq<char>| is_perf_frequency_name(n)
    } else if which == 2 {
        |n: Seq<char>| is_hwpc_consumption_name(n)
    } else {
        |n: Seq<char>| is_hwpc_frequency_name(n)
    }
}

/// Of the names of the regular files of a results directory, those of
/// single-file perf consumption reports.
pub fn filter_perf_consumption_files(file_names: &Vec<String>) -> (r: Vec<String>)
    ensures
        views(r@) == selected(file_names@, |n: Seq<char>| is_perf_consumption_name(n)),
{
    let r = keep_names(file_names, 0);
    proof {
        assert(name_filter(0) == |n: Seq<char>| is_perf_consumption_name(n));
    }
    r
}

/// Of the names of the regular files of a results directory, those of
/// single-file perf frequency reports.
pub fn filter_perf_frequency_files(file_names: &Vec<String>) -> (r: Vec<String>)
    ensures
        views(r@) == selected(file_names@, |n: Seq<char>| is_perf_frequency_name(n)),
{
    let r = keep_names(file_names, 1);
    proof {
        assert(name_filter(1) == |n: Seq<char>| is_perf_frequency_name(n));
    }
    r
}

/// Of the names of the subdirectories of a results directory, those of HWPC
/// consumption reports.
pub fn filter_hwpc_consumption_dirs(dir_names: &Vec<String>) -> (r: Vec<String>)
    ensures
        views(r@) == selected(dir_names@, |n: Seq<char>| is_hwpc_consumption_name(n)),
{
    let r = keep_names(dir_names, 2);
    proof {
        assert(name_filter(2) == |n: Seq<char>| is_hwpc_consumption_name(n));
    }
    r
}

/// Of the names of the subdirectories of a results directory, those of HWPC
/// frequency reports.
pub fn filter_hwpc_frequency_dirs(dir_names: &Vec<String>) -> (r: Vec<String>)
    ensures
        views(r@) == selected(dir_names@, |n: Seq<char>| is_hwpc_frequency_name(n)),
{
    let r = keep_names(dir_names, 3);
    proof {
        assert(name_filter(3) == |n: Seq<char>| is_hwpc_frequency_name(n));
    }
    r
}

// ---------------------------------------------------------------- perf logs

pub const CORES_MARKER: &'static str = "power/energy-cores/";

pub const PKG_MARKER: &'static str = "power/energy-pkg/";

pub const RAM_MARKER: &'static str = "power/energy-ram/";

pub const ELAPSED_MARKER: &'static str = "seconds time elapsed";

/// One record of a perf log: the energy counters read since the previous
/// record (numeric text, thousands separators removed) and the elapsed time
/// (numeric text as logged).
pub struct PerfReading {
    pub power_energy_pkg: Option<String>,
    pub power_energy_ram: Option<String>,
    pub power_energy_cores: Option<String>,
    pub time_elapsed: Option<String>,
}

/// The model of a reading: pkg, ram, cores, elapsed.
pub type ReadingModel = (Option<Seq<char>>, Option<Seq<char>>, Option<Seq<char>>, Option<Seq<char>>);

/// Counters read so far in the record in progress: cores, pkg, ram.
pub type PendingModel = (Option<Seq<char>>, Option<Seq<char>>, Option<Seq<char>>);

pub open spec fn opt_view(o: Option<String>) -> Option<Seq<char>> {
    match o {
        Some(s) => Some(s@),
        None => None,
    }
}

impl PerfReading {
    pub open spec fn model(self) -> ReadingModel {
        (
            opt_view(self.power_energy_pkg),
            opt_view(self.power_energy_ram),
            opt_view(self.power_energy_cores),
            opt_view(self.time_elapsed),
        )
    }
}

pub open spec fn models(v: Seq<PerfReading>) -> Seq<ReadingModel> {
    v.map_values(|r: PerfReading| r.model())
}

/// A counter line's value: its first word without commas; a line without a
/// word keeps the value read before.
pub open spec fn counter(line: Seq<char>, before: Option<Seq<char>>) -> Option<Seq<char>> {
    match first_word_of(line) {
        Some(w) => Some(without(w, ',')),
        None => before,
    }
}

/// Scans a perf log line by line: counter lines fill the record in progress,
/// and an elapsed-time line closes it into one reading and starts the next.
pub open spec fn scan(lines: Seq<Seq<char>>) -> (Seq<ReadingModel>, PendingModel)
    decreases lines.len(),
{
    if lines.len() == 0 {
        (Seq::empty(), (None, None, None))
    } else {
        let (rows, p) = scan(lines.drop_last());
        let l = lines.last();
        if has_infix(l, CORES_MARKER@) {
            (rows, (counter(l, p.0), p.1, p.2))
        } else if has_infix(l, PKG_MARKER@) {
            (rows, (p.0, counter(l, p.1), p.2))
        } else if has_infix(l, RAM_MARKER@) {
            (rows, (p.0, p.1, counter(l, p.2)))
        } else if has_infix(l, ELAPSED_MARKER@) {
            (rows.push((p.1, p.2, p.0, first_word_of(l))), (None, None, None))
        } else {
            (rows, p)
        }
    }
}

fn read_counter(line: &str, before: Option<String>) -> (r: Option<String>)
    ensures
        opt_view(r) == counter(line@, opt_view(before)),
{
    match first_word(line) {
        Some(w) => Some(strip_commas(w.as_str())),
        None => before,
    }
}

/// The readings of a perf log, one per elapsed-time line, in order.
pub fn scan_perf_log(lines: &Vec<String>) -> (r: Vec<PerfReading>)
    ensures
        models(r@) == scan(views(lines@)).0,
{
    let mut rows: Vec<PerfReading> = Vec::new();
    let mut cores: Option<String> = None;
    let mut pkg: Option<String> = None;
    let mut ram: Option<String> = None;
    let mut i: usize = 0;
    while i < lines.len()
        invariant
            i <= lines.len(),
            (models(rows@), (opt_view(cores), opt_view(pkg), opt_view(ram))) == scan(
                views(lines@.subrange(0, i as int)),
            ),
        decreases lines.len() - i,
    {
        let line = lines[i].as_str();
        proof {
            let p = views(lines@.subrange(0, i + 1));
            assert(p.drop_last() =~= views(lines@.subrange(0, i as int)));
            assert(p.last() == line@);
        }
        if contains(line, CORES_MARKER) {
            cores = read_counter(line, cores);
        } else if contains(line, PKG_MARKER) {
            pkg = read_counter(line, pkg);
        } else if contains(line, RAM_MARKER) {
            ram = read_counter(line, ram);
        } else if contains(line, ELAPSED_MARKER) {
            let elapsed = match first_word(line) {
                Some(w) => Some(w),
                None => None,
            };
            let ghost before = rows@;
            rows.push(PerfReading {
                power_energy_pkg: pkg,
                power_energy_ram: ram,
                power_energy_cores: cores,
                time_elapsed: elapsed,
            });
            proof {
                assert(models(rows@) =~= models(before).push(rows@.last().model()));
            }
            cores = None;
            pkg = None;
            ram = None;
        }
        i = i + 1;
    }
    proof {
        assert(lines@.subrange(0, lines@.len() as int) =~= lines@);
    }
    rows
}

/// One row of the perf consumption table.
pub struct PerfConsumptionRow {
    pub power_energy_pkg: Option<String>,
    pub power_energy_ram: Option<String>,
    pub power_energy_cores: Option<String>,
    pub time_elapsed: Option<String>,
    pub nb_core: i32,
    pub nb_ops_per_core: i32,
    pub iteration: usize,
}

/// One row of the perf frequency table.
pub struct PerfFrequencyRow {
    pub power_energy_pkg: Option<String>,
    pub power_energy_ram: Option<String>,
    pub power_energy_cores: Option<String>,
    pub time_elapsed: Option<String>,
    pub frequency: i32,
    pub iteration: usize,
}

/// The core count and operations per core that a perf log's name gives,
/// when it follows the grammar and both fit the table's range.
pub open spec fn perf_consumption_tags(name: Seq<char>) -> Option<(int, int)> {
    match perf_consumption_metadata(name) {
        Some((a, b)) => {
            let c = unsigned_of(a, u32::MAX as nat);
            let n = unsigned_of(b, u32::MAX as nat);
            if c is Some && n is Some && c->0 <= i32::MAX && n->0 <= i32::MAX {
                Some((c->0 as int, n->0 as int))
            } else {
                None
            }
        },
        None => None,
    }
}

/// The frequency that a perf frequency log's name gives, when it follows the
/// grammar and fits the table's range.
pub open spec fn perf_frequency_tag(name: Seq<char>) -> Option<int> {
    match perf_frequency_metadata(name) {
        Some(a) => {
            let f = unsigned_of(a, u32::MAX as nat);
            if f is Some && f->0 <= i32::MAX {
                Some(f->0 as int)
            } else {
                None
            }
        },
        None => None,
    }
}

/// `rows` are the readings of `lines`, in order, tagged with `tags` and
/// their rank from 1.
pub open spec fn perf_consumption_table(rows: Seq<PerfConsumptionRow>, lines: Seq<Seq<char>>, tags: (int, int)) -> bool {
    rows.len() == scan(lines).0.len() && forall|k: int|
        0 <= k < rows.len() ==> {
            let row = #[trigger] rows[k];
            &&& (opt_view(row.power_energy_pkg), opt_view(row.power_energy_ram), opt_view(
                row.power_energy_cores,
            ), opt_view(row.time_elapsed)) == scan(lines).0[k]
            &&& row.nb_core == tags.0
            &&& row.nb_ops_per_core == tags.1
            &&& row.iteration == k + 1
        }
}

/// `rows` are the readings of `lines`, in order, tagged with `frequency` and
/// their rank from 1.
pub open spec fn perf_frequency_table(rows: Seq<PerfFrequencyRow>, lines: Seq<Seq<char>>, frequency: int) -> bool {
    rows.len() == scan(lines).0.len() && forall|k: int|
        0 <= k < rows.len() ==> {
            let row = #[trigger] rows[k];
            &&& (opt_view(row.power_energy_pkg), opt_view(row.power_energy_ram), opt_view(
                row.power_energy_cores,
            ), opt_view(row.time_elapsed)) == scan(lines).0[k]
            &&& row.frequency == frequency
            &&& row.iteration == k + 1
        }
}

/// The perf consumption table of the log named `file_name`: one row per
/// record, tagged with the core count and operations per core that the name
/// gives and with the record's rank, from 1. A name that does not follow the
/// grammar, or whose numbers exceed the table's range, is an error.
pub fn aggregate_perf_consumption(file_name: &str, lines: &Vec<String>) -> (r: Result<
    Vec<PerfConsumptionRow>,
    ResultError,
>)
    ensures
        match perf_consumption_metadata(file_name@) {
            Some((a, b)) => {
                let c = unsigned_of(a, u32::MAX as nat);
                let n = unsigned_of(b, u32::MAX as nat);
                if c is Some && n is Some && c->0 <= i32::MAX && n->0 <= i32::MAX {
                    r matches Ok(rows) && rows@.len() == scan(views(lines@)).0.len() && forall|k: int|
                        0 <= k < rows@.len() ==> {
                            let row = #[trigger] rows@[k];
                            let m = scan(views(lines@)).0[k];
                            &&& (opt_view(row.power_energy_pkg), opt_view(row.power_energy_ram), opt_view(
                                row.power_energy_cores,
                            ), opt_view(row.time_elapsed)) == m
                            &&& row.nb_core == c->0
                            &&& row.nb_ops_per_core == n->0
                            &&& row.iteration == k + 1
                        }
                } else {
                    r is Err
                }
            },
            None => r is Err,
        },
        match perf_consumption_tags(file_name@) {
            Some(t) => r matches Ok(rows) && perf_consumption_table(rows@, views(lines@), t),
            None => r is Err,
        },
{
    let (c, n) = match perf_consumption_values(file_name) {
        Some((c, n, _a, _b)) => (c, n),
        None => {
            return Err(ResultError::UnparsableName(file_name.to_owned()));
        },
    };
    proof {
        lemma_decimal_canonical(c as nat);
        lemma_decimal_canonical(n as nat);
    }
    if c > i32::MAX as u32 || n > i32::MAX as u32 {
        return Err(ResultError::UnparsableName(file_name.to_owned()));
    }
    let readings = scan_perf_log(lines);
    let mut rows: Vec<PerfConsumptionRow> = Vec::new();
    let mut k: usize = 0;
    while k < readings.len()
        invariant
            k <= readings.len(),
            models(readings@) == scan(views(lines@)).0,
            rows@.len() == k,
            c <= i32::MAX,
            n <= i32::MAX,
            forall|j: int|
                0 <= j < k ==> {
                    let row = #[trigger] rows@[j];
                    &&& (opt_view(row.power_energy_pkg), opt_view(row.power_energy_ram), opt_view(
                        row.power_energy_cores,
                    ), opt_view(row.time_elapsed)) == readings@[j].model()
                    &&& row.nb_core == c
                    &&& row.nb_ops_per_core == n
                    &&& row.iteration == j + 1
                },
        decreases readings.len() - k,
    {
        let rd = &readings[k];
        rows.push(PerfConsumptionRow {
            power_energy_pkg: rd.power_energy_pkg.clone(),
            power_energy_ram: rd.power_energy_ram.clone(),
            power_energy_cores: rd.power_energy_cores.clone(),
            time_elapsed: rd.time_elapsed.clone(),
            nb_core: c as i32,
            nb_ops_per_core: n as i32,
            iteration: k + 1,
        });
        k = k + 1;
    }
    proof {
        assert forall|j: int| 0 <= j < rows@.len() implies models(readings@)[j] == readings@[j].model() by {}
    }
    Ok(rows)
}

/// The perf frequency table of the log named `file_name`: one row per record,
/// tagged with the frequency that the name gives and with the record's rank,
/// from 1.
pub fn aggregate_perf_frequency(file_name: &str, lines: &Vec<String>) -> (r: Result<
    Vec<PerfFrequencyRow>,
    ResultError,
>)
    ensures
        match perf_frequency_metadata(file_name@) {
            Some(a) => {
                let f = unsigned_of(a, u32::MAX as nat);
                if f is Some && f->0 <= i32::MAX {
                    r matches Ok(rows) && rows@.len() == scan(views(lines@)).0.len() && forall|k: int|
                        0 <= k < rows@.len() ==> {
                            let row = #[trigger] rows@[k];
                            let m = scan(views(lines@)).0[k];
                            &&& (opt_view(row.power_energy_pkg), opt_view(row.power_energy_ram), opt_view(
                                row.power_energy_cores,
                            ), opt_view(row.time_elapsed)) == m
                            &&& row.frequency == f->0
                            &&& row.iteration == k + 1
                        }
                } else {
                    r is Err
                }
            },
            None => r is Err,
        },
        match perf_frequency_tag(file_name@) {
            Some(f) => r matches Ok(rows) && perf_frequency_table(rows@, views(lines@), f),
            None => r is Err,
        },
{
    let f = match perf_frequency_values(file_name) {
        Some((f, _a)) => f,
        None => {
            return Err(ResultError::UnparsableName(file_name.to_owned()));
        },
    };
    proof {
        lemma_decimal_canonical(f as nat);
    }
    if f > i32::MAX as u32 {
        return Err(ResultError::UnparsableName(file_name.to_owned()));
    }
    let readings = scan_perf_log(lines);
    let mut rows: Vec<PerfFrequencyRow> = Vec::new();
    let mut k: usize = 0;
    while k < readings.len()
        invariant
            k <= readings.len(),
            models(readings@) == scan(views(lines@)).0,
            rows@.len() == k,
            f <= i32::MAX,
            forall|j: int|
                0 <= j < k ==> {
                    let row = #[trigger] rows@[j];
                    &&& (opt_view(row.power_energy_pkg), opt_view(row.power_energy_ram), opt_view(
                        row.power_energy_cores,
                    ), opt_view(row.time_elapsed)) == readings@[j].model()
                    &&& row.frequency == f
                    &&& row.iteration == j + 1
                },
        decreases readings.len() - k,
    {
        let rd = &readings[k];
        rows.push(PerfFrequencyRow {
            power_energy_pkg: rd.power_energy_pkg.clone(),
            power_energy_ram: rd.power_energy_ram.clone(),
            power_energy_cores: rd.power_energy_cores.clone(),
            time_elapsed: rd.time_elapsed.clone(),
            frequency: f as i32,
            iteration: k + 1,
        });
        k = k + 1;
    }
    proof {
        assert forall|j: int| 0 <= j < rows@.len() implies models(readings@)[j] == readings@[j].model() by {}
    }
    Ok(rows)
}

/// Canonical decimal text reads back as the number it writes.
proof fn lemma_decimal_canonical(n: nat)
    ensures
        unsigned_of(decimal(n), u32::MAX as nat) == (if n <= u32::MAX {
            Some(n)
        } else {
            None::<nat>
        }),
{
    lemma_decimal_digits(n);
    let d = decimal(n);
    assert(d.len() > 0);
    if d[0] == '+' {
        assert(crate::text::is_digit(d[0]));
    }
}

proof fn lemma_decimal_digits(n: nat)
    ensures
        crate::text::is_decimal(decimal(n)),
        crate::text::digits_value(decimal(n)) == n,
    decreases n,
{
    assert(digit_value(digit_char(n % 10)) == n % 10);
    if n >= 10 {
        lemma_decimal_digits(n / 10);
        let d = decimal(n);
        assert(d.drop_last() =~= decimal(n / 10));
        assert(d.last() == digit_char(n % 10));
        assert((n / 10) * 10 + n % 10 == n) by (nonlinear_arith);
        assert(crate::text::digits_value(d) == crate::text::digits_value(decimal(n / 10)) * 10 + n % 10);
        assert forall|i: int| 0 <= i < d.len() implies crate::text::is_digit(#[trigger] d[i]) by {
            if i < d.len() - 1 {
                assert(d[i] == decimal(n / 10)[i]);
            }
        }
    } else {
        assert(decimal(n).drop_last() =~= Seq::<char>::empty());
        assert(n % 10 == n);
        assert(crate::text::digits_value(decimal(n)) == crate::text::digits_value(Seq::<char>::empty()) * 10 + digit_value(digit_char(n)));
    }
}

// ---------------------------------------------------------------- HWPC tables

/// One row of a raw HWPC report.
pub struct HwpcRowRaw {
    pub timestamp: i64,
    pub sensor: String,
    pub target: String,
    pub socket: i32,
    pub cpu: i32,
    pub rapl_energy_pkg: Option<i64>,
    pub rapl_energy_dram: Option<i64>,
    pub rapl_energy_cores: Option<i64>,
    pub time_enabled: i64,
    pub time_running: i64,
}

/// One row of the cumulative HWPC consumption table.
pub struct HwpcConsumptionRow {
    pub timestamp: i64,
    pub sensor: String,
    pub target: String,
    pub socket: i32,
    pub cpu: i32,
    pub rapl_energy_pkg: Option<i64>,
    pub rapl_energy_dram: Option<i64>,
    pub rapl_energy_cores: Option<i64>,
    pub time_enabled: i64,
    pub time_running: i64,
    pub nb_core: i32,
    pub nb_ops_per_core: i32,
    pub iteration: usize,
}

/// One row of the cumulative HWPC frequency table.
pub struct HwpcFrequencyRow {
    pub timestamp: i64,
    pub sensor: String,
    pub target: String,
    pub socket: i32,
    pub cpu: i32,
    pub rapl_energy_pkg: Option<i64>,
    pub rapl_energy_dram: Option<i64>,
    pub rapl_energy_cores: Option<i64>,
    pub time_enabled: i64,
    pub time_running: i64,
    pub frequency: i32,
    pub iteration: usize,
}

/// `row` carries the measurements of `raw`.
pub open spec fn same_measures(
    raw: HwpcRowRaw,
    timestamp: i64,
    sensor: Seq<char>,
    target: Seq<char>,
    socket: i32,
    cpu: i32,
    pkg: Option<i64>,
    dram: Option<i64>,
    cores: Option<i64>,
    enabled: i64,
    running: i64,
) -> bool {
    &&& raw.timestamp == timestamp
    &&& raw.sensor@ == sensor
    &&& raw.target@ == target
    &&& raw.socket == socket
    &&& raw.cpu == cpu
    &&& raw.rapl_energy_pkg == pkg
    &&& raw.rapl_energy_dram == dram
    &&& raw.rapl_energy_cores == cores
    &&& raw.time_enabled == enabled
    &&& raw.time_running == running
}

impl HwpcConsumptionRow {
    pub open spec fn extends(self, raw: HwpcRowRaw) -> bool {
        same_measures(
            raw,
            self.timestamp,
            self.sensor@,
            self.target@,
            self.socket,
            self.cpu,
            self.rapl_energy_pkg,
            self.rapl_energy_dram,
            self.rapl_energy_cores,
            self.time_enabled,
            self.time_running,
        )
    }

    /// A raw row tagged with the experiment's parameters.
    pub fn from_raw_record(raw_record: HwpcRowRaw, nb_core: i32, nb_ops_per_core: i32, iteration: usize) -> (r: Self)
        ensures
            r.extends(raw_record),
            r.nb_core == nb_core,
            r.nb_ops_per_core == nb_ops_per_core,
            r.iteration == iteration,
    {
        HwpcConsumptionRow {
            timestamp: raw_record.timestamp,
            sensor: raw_record.sensor,
            target: raw_record.target,
            socket: raw_record.socket,
            cpu: raw_record.cpu,
            rapl_energy_pkg: raw_record.rapl_energy_pkg,
            rapl_energy_dram: raw_record.rapl_energy_dram,
            rapl_energy_cores: raw_record.rapl_energy_cores,
            time_enabled: raw_record.time_enabled,
            time_running: raw_record.time_running,
            nb_core,
            nb_ops_per_core,
            iteration,
        }
    }
}

impl HwpcFrequencyRow {
    pub open spec fn extends(self, raw: HwpcRowRaw) -> bool {
        same_measures(
            raw,
            self.timestamp,
            self.sensor@,
            self.target@,
            self.socket,
            self.cpu,
            self.rapl_energy_pkg,
            self.rapl_energy_dram,
            self.rapl_energy_cores,
            self.time_enabled,
            self.time_running,
        )
    }

    /// A raw row tagged with the experiment's frequency and iteration.
    pub fn from_raw_record(raw_record: HwpcRowRaw, frequency: i32, iteration: usize) -> (r: Self)
        ensures
            r.extends(raw_record),
            r.frequency == frequency,
            r.iteration == iteration,
    {
        HwpcFrequencyRow {
            timestamp: raw_record.timestamp,
            sensor: raw_record.sensor,
            target: raw_record.target,
            socket: raw_record.socket,
            cpu: raw_record.cpu,
            rapl_energy_pkg: raw_record.rapl_energy_pkg,
            rapl_energy_dram: raw_record.rapl_energy_dram,
            rapl_energy_cores: raw_record.rapl_energy_cores,
            time_enabled: raw_record.time_enabled,
            time_running: raw_record.time_running,
            frequency,
            iteration,
        }
    }
}

fn copy_raw(r: &HwpcRowRaw) -> (c: HwpcRowRaw)
    ensures
        same_measures(
            c,
            r.timestamp,
            r.sensor@,
            r.target@,
            r.socket,
            r.cpu,
            r.rapl_energy_pkg,
            r.rapl_energy_dram,
            r.rapl_energy_cores,
            r.time_enabled,
            r.time_running,
        ),
{
    HwpcRowRaw {
        timestamp: r.timestamp,
        sensor: r.sensor.clone(),
        target: r.target.clone(),
        socket: r.socket,
        cpu: r.cpu,
        rapl_energy_pkg: r.rapl_energy_pkg,
        rapl_energy_dram: r.rapl_energy_dram,
        rapl_energy_cores: r.rapl_energy_cores,
        time_enabled: r.time_enabled,
        time_running: r.time_running,
    }
}

pub open spec fn same_raw(a: HwpcRowRaw, b: HwpcRowRaw) -> bool {
    same_measures(
        a,
        b.timestamp,
        b.sensor@,
        b.target@,
        b.socket,
        b.cpu,
        b.rapl_energy_pkg,
        b.rapl_energy_dram,
        b.rapl_energy_cores,
        b.time_enabled,
        b.time_running,
    )
}

/// `rows` are the rows of `raw`, in order, each tagged with core count,
/// operations per core and iteration `meta`.
pub open spec fn tagged_consumption(
    rows: Seq<HwpcConsumptionRow>,
    raw: Seq<HwpcRowRaw>,
    meta: (i32, i32, usize),
) -> bool {
    rows.len() == raw.len() && forall|k: int|
        0 <= k < raw.len() ==> {
            let row = #[trigger] rows[k];
            &&& row.extends(raw[k])
            &&& row.nb_core == meta.0
            &&& row.nb_ops_per_core == meta.1
            &&& row.iteration == meta.2
        }
}

/// `rows` are the rows of `raw`, in order, each tagged with frequency and
/// iteration `meta`.
pub open spec fn tagged_frequency(rows: Seq<HwpcFrequencyRow>, raw: Seq<HwpcRowRaw>, meta: (i32, usize)) -> bool {
    rows.len() == raw.len() && forall|k: int|
        0 <= k < raw.len() ==> {
            let row = #[trigger] rows[k];
            &&& row.extends(raw[k])
            &&& row.frequency == meta.0
            &&& row.iteration == meta.1
        }
}

/// What one report directory adds to a cumulative table: its rows, and
/// whether the table's header goes first, which it does only when the table
/// did not exist yet.
pub struct TableAppend<R> {
    pub with_header: bool,
    pub rows: Vec<R>,
}

/// The rows that the HWPC consumption report directory named `dir_name` adds
/// to the cumulative table, each raw row tagged with the core count,
/// operations per core and iteration that the name gives; the header goes
/// first only when the table does not exist yet.
pub fn aggregate_hwpc_consumption_subdir(dir_name: &str, raw_rows: &Vec<HwpcRowRaw>, output_exists: bool) -> (r:
    Result<TableAppend<HwpcConsumptionRow>, ResultError>)
    ensures
        match hwpc_consumption_metadata(dir_name@) {
            Some((c, n, it)) => r matches Ok(t) && t.with_header == !output_exists && t.rows@.len()
                == raw_rows@.len() && forall|k: int|
                0 <= k < raw_rows@.len() ==> {
                    let row = #[trigger] t.rows@[k];
                    &&& row.extends(raw_rows@[k])
                    &&& row.nb_core == c
                    &&& row.nb_ops_per_core == n
                    &&& row.iteration == it
                },
            None => r is Err,
        },
{
    let (c, n, it) = match parse_hwpc_consumption_metadata(dir_name) {
        Some(m) => m,
        None => {
            return Err(ResultError::UnparsableName(dir_name.to_owned()));
        },
    };
    let mut rows: Vec<HwpcConsumptionRow> = Vec::new();
    let mut k: usize = 0;
    while k < raw_rows.len()
        invariant
            k <= raw_rows.len(),
            rows@.len() == k,
            forall|j: int|
                0 <= j < k ==> {
                    let row = #[trigger] rows@[j];
                    &&& row.extends(raw_rows@[j])
                    &&& row.nb_core == c
                    &&& row.nb_ops_per_core == n
                    &&& row.iteration == it
                },
        decreases raw_rows.len() - k,
    {
        rows.push(HwpcConsumptionRow::from_raw_record(copy_raw(&raw_rows[k]), c, n, it));
        k = k + 1;
    }
    Ok(TableAppend { with_header: !output_exists, rows })
}

/// The rows that the HWPC frequency report directory named `dir_name` adds to
/// the cumulative table, each raw row tagged with the frequency and iteration
/// that the name gives; the header goes first only when the table does not
/// exist yet.
pub fn aggregate_hwpc_frequency_subdir(dir_name: &str, raw_rows: &Vec<HwpcRowRaw>, output_exists: bool) -> (r:
    Result<TableAppend<HwpcFrequencyRow>, ResultError>)
    ensures
        match hwpc_frequency_metadata(dir_name@) {
            Some((f, it)) => r matches Ok(t) && t.with_header == !output_exists && t.rows@.len()
                == raw_rows@.len() && forall|k: int|
                0 <= k < raw_rows@.len() ==> {
                    let row = #[trigger] t.rows@[k];
                    &&& row.extends(raw_rows@[k])
                    &&& row.frequency == f
                    &&& row.iteration == it
                },
            None => r is Err,
        },
{
    let (f, it) = match parse_hwpc_frequency_metadata(dir_name) {
        Some(m) => m,
        None => {
            return Err(ResultError::UnparsableName(dir_name.to_owned()));
        },
    };
    let mut rows: Vec<HwpcFrequencyRow> = Vec::new();
    let mut k: usize = 0;
    while k < raw_rows.len()
        invariant
            k <= raw_rows.len(),
            rows@.len() == k,
            forall|j: int|
                0 <= j < k ==> {
                    let row = #[trigger] rows@[j];
                    &&& row.extends(raw_rows@[j])
                    &&& row.frequency == f
                    &&& row.iteration == it
                },
        decreases raw_rows.len() - k,
    {
        rows.push(HwpcFrequencyRow::from_raw_record(copy_raw(&raw_rows[k]), f, it));
        k = k + 1;
    }
    Ok(TableAppend { with_header: !output_exists, rows })
}

/// The cumulative consumption table of a directory of HWPC reports, one
/// append per report subdirectory (`(name, raw rows)`, in order): the header
/// goes with the first append only. A subdirectory name outside the grammar
/// is an error for the whole directory.
pub fn aggregate_hwpc_consumption(subdirs: &Vec<(String, Vec<HwpcRowRaw>)>) -> (r: Result<
    Vec<TableAppend<HwpcConsumptionRow>>,
    ResultError,
>)
    ensures
        (forall|k: int| 0 <= k < subdirs@.len() ==> (#[trigger] hwpc_consumption_metadata(subdirs@[k].0@)) is Some)
            ==> (r matches Ok(t) && t@.len() == subdirs@.len() && forall|k: int|
            0 <= k < subdirs@.len() ==> {
                let a = #[trigger] t@[k];
                &&& a.with_header == (k == 0)
                &&& tagged_consumption(a.rows@, subdirs@[k].1@, hwpc_consumption_metadata(subdirs@[k].0@)->0)
            }),
        !(forall|k: int| 0 <= k < subdirs@.len() ==> (#[trigger] hwpc_consumption_metadata(subdirs@[k].0@)) is Some)
            ==> r is Err,
{
    let mut t: Vec<TableAppend<HwpcConsumptionRow>> = Vec::new();
    let mut k: usize = 0;
    while k < subdirs.len()
        invariant
            k <= subdirs@.len(),
            t@.len() == k,
            forall|j: int| 0 <= j < k ==> (#[trigger] hwpc_consumption_metadata(subdirs@[j].0@)) is Some,
            forall|j: int|
                0 <= j < k ==> {
                    let a = #[trigger] t@[j];
                    &&& a.with_header == (j == 0)
                    &&& tagged_consumption(a.rows@, subdirs@[j].1@, hwpc_consumption_metadata(subdirs@[j].0@)->0)
                },
        decreases subdirs@.len() - k,
    {
        let (name, raw) = &subdirs[k];
        match aggregate_hwpc_consumption_subdir(name.as_str(), raw, k > 0) {
            Ok(a) => {
                t.push(a);
            },
            Err(e) => {
                return Err(e);
            },
        }
        k = k + 1;
    }
    Ok(t)
}

/// The cumulative frequency table of a directory of HWPC frequency reports,
/// one append per report subdirectory, the header with the first only.
pub fn aggregate_hwpc_frequency(subdirs: &Vec<(String, Vec<HwpcRowRaw>)>) -> (r: Result<
    Vec<TableAppend<HwpcFrequencyRow>>,
    ResultError,
>)
    ensures
        (forall|k: int| 0 <= k < subdirs@.len() ==> (#[trigger] hwpc_frequency_metadata(subdirs@[k].0@)) is Some)
            ==> (r matches Ok(t) && t@.len() == subdirs@.len() && forall|k: int|
            0 <= k < subdirs@.len() ==> {
                let a = #[trigger] t@[k];
                &&& a.with_header == (k == 0)
                &&& tagged_frequency(a.rows@, subdirs@[k].1@, hwpc_frequency_metadata(subdirs@[k].0@)->0)
            }),
        !(forall|k: int| 0 <= k < subdirs@.len() ==> (#[trigger] hwpc_frequency_metadata(subdirs@[k].0@)) is Some)
            ==> r is Err,
{
    let mut t: Vec<TableAppend<HwpcFrequencyRow>> = Vec::new();
    let mut k: usize = 0;
    while k < subdirs.len()
        invariant
            k <= subdirs@.len(),
            t@.len() == k,
            forall|j: int| 0 <= j < k ==> (#[trigger] hwpc_frequency_metadata(subdirs@[j].0@)) is Some,
            forall|j: int|
                0 <= j < k ==> {
                    let a = #[trigger] t@[j];
                    &&& a.with_header == (j == 0)
                    &&& tagged_frequency(a.rows@, subdirs@[j].1@, hwpc_frequency_metadata(subdirs@[j].0@)->0)
                },
        decreases subdirs@.len() - k,
    {
        let (name, raw) = &subdirs[k];
        match aggregate_hwpc_frequency_subdir(name.as_str(), raw, k > 0) {
            Ok(a) => {
                t.push(a);
            },
            Err(e) => {
                return Err(e);
            },
        }
        k = k + 1;
    }
    Ok(t)
}

/// The tables that one aggregation pass over a results directory produces:
/// one per perf log, one list of appends per HWPC report directory, each in
/// the order of its input.
pub struct ResultTables {
    pub perf_consumption: Vec<Vec<PerfConsumptionRow>>,
    pub perf_frequency: Vec<Vec<PerfFrequencyRow>>,
    pub hwpc_consumption: Vec<Vec<TableAppend<HwpcConsumptionRow>>>,
    pub hwpc_frequency: Vec<Vec<TableAppend<HwpcFrequencyRow>>>,
}

pub open spec fn hwpc_consumption_dir_ok(subdirs: Seq<(String, Vec<HwpcRowRaw>)>) -> bool {
    forall|k: int| 0 <= k < subdirs.len() ==> (#[trigger] hwpc_consumption_metadata(subdirs[k].0@)) is Some
}

pub open spec fn hwpc_frequency_dir_ok(subdirs: Seq<(String, Vec<HwpcRowRaw>)>) -> bool {
    forall|k: int| 0 <= k < subdirs.len() ==> (#[trigger] hwpc_frequency_metadata(subdirs[k].0@)) is Some
}

/// Every report of a pass can be aggregated: each perf log's name gives its
/// tags and each HWPC subdirectory's name its metadata.
pub open spec fn pass_ok(
    perf_consumption: Seq<(String, Vec<String>)>,
    perf_frequency: Seq<(String, Vec<String>)>,
    hwpc_consumption: Seq<Vec<(String, Vec<HwpcRowRaw>)>>,
    hwpc_frequency: Seq<Vec<(String, Vec<HwpcRowRaw>)>>,
) -> bool {
    &&& forall|k: int| 0 <= k < perf_consumption.len() ==> (#[trigger] perf_consumption_tags(perf_consumption[k].0@)) is Some
    &&& forall|k: int| 0 <= k < perf_frequency.len() ==> (#[trigger] perf_frequency_tag(perf_frequency[k].0@)) is Some
    &&& forall|k: int| 0 <= k < hwpc_consumption.len() ==> hwpc_consumption_dir_ok(#[trigger] hwpc_consumption[k]@)
    &&& forall|k: int| 0 <= k < hwpc_frequency.len() ==> hwpc_frequency_dir_ok(#[trigger] hwpc_frequency[k]@)
}

/// One aggregation pass: every perf log (name and lines) and every HWPC report
/// directory (its subdirectories' names and raw rows) turned into its table.
/// A single report that cannot be aggregated fails the whole pass; nothing is
/// reported for the others.
pub fn aggregate_reports(
    perf_consumption: &Vec<(String, Vec<String>)>,
    perf_frequency: &Vec<(String, Vec<String>)>,
    hwpc_consumption: &Vec<Vec<(String, Vec<HwpcRowRaw>)>>,
    hwpc_frequency: &Vec<Vec<(String, Vec<HwpcRowRaw>)>>,
) -> (r: Result<ResultTables, ResultError>)
    ensures
        r is Ok <==> pass_ok(perf_consumption@, perf_frequency@, hwpc_consumption@, hwpc_frequency@),
        r matches Ok(t) ==> {
            &&& t.perf_consumption@.len() == perf_consumption@.len()
            &&& t.perf_frequency@.len() == perf_frequency@.len()
            &&& t.hwpc_consumption@.len() == hwpc_consumption@.len()
            &&& t.hwpc_frequency@.len() == hwpc_frequency@.len()
            &&& forall|k: int|
                0 <= k < perf_consumption@.len() ==> perf_consumption_table(
                    (#[trigger] t.perf_consumption@[k])@,
                    views(perf_consumption@[k].1@),
                    perf_consumption_tags(perf_consumption@[k].0@)->0,
                )
            &&& forall|k: int|
                0 <= k < perf_frequency@.len() ==> perf_frequency_table(
                    (#[trigger] t.perf_frequency@[k])@,
                    views(perf_frequency@[k].1@),
                    perf_frequency_tag(perf_frequency@[k].0@)->0,
                )
            &&& forall|k: int|
                0 <= k < hwpc_consumption@.len() ==> {
                    let a = #[trigger] t.hwpc_consumption@[k];
                    let d = hwpc_consumption@[k]@;
                    a@.len() == d.len() && forall|j: int|
                        0 <= j < d.len() ==> a@[j].with_header == (j == 0) && tagged_consumption(
                            a@[j].rows@,
                            d[j].1@,
                            hwpc_consumption_metadata(d[j].0@)->0,
                        )
                }
            &&& forall|k: int|
                0 <= k < hwpc_frequency@.len() ==> {
                    let a = #[trigger] t.hwpc_frequency@[k];
                    let d = hwpc_frequency@[k]@;
                    a@.len() == d.len() && forall|j: int|
                        0 <= j < d.len() ==> a@[j].with_header == (j == 0) && tagged_frequency(
                            a@[j].rows@,
                            d[j].1@,
                            hwpc_frequency_metadata(d[j].0@)->0,
                        )
                }
        },
{
    let mut pc: Vec<Vec<PerfConsumptionRow>> = Vec::new();
    let mut k: usize = 0;
    while k < perf_consumption.len()
        invariant
            k <= perf_consumption@.len(),
            pc@.len() == k,
            forall|j: int| 0 <= j < k ==> (#[trigger] perf_consumption_tags(perf_consumption@[j].0@)) is Some,
            forall|j: int|
                0 <= j < k ==> perf_consumption_table(
                    (#[trigger] pc@[j])@,
                    views(perf_consumption@[j].1@),
                    perf_consumption_tags(perf_consumption@[j].0@)->0,
                ),
        decreases perf_consumption@.len() - k,
    {
        let (name, lines) = &perf_consumption[k];
        match aggregate_perf_consumption(name.as_str(), lines) {
            Ok(rows) => pc.push(rows),
            Err(e) => {
                return Err(e);
            },
        }
        k = k + 1;
    }
    let mut pf: Vec<Vec<PerfFrequencyRow>> = Vec::new();
    let mut k: usize = 0;
    while k < perf_frequency.len()
        invariant
            k <= perf_frequency@.len(),
            pf@.len() == k,
            forall|j: int| 0 <= j < perf_consumption@.len() ==> (#[trigger] perf_consumption_tags(perf_consumption@[j].0@)) is Some,
            forall|j: int| 0 <= j < k ==> (#[trigger] perf_frequency_tag(perf_frequency@[j].0@)) is Some,
            forall|j: int|
                0 <= j < k ==> perf_frequency_table(
                    (#[trigger] pf@[j])@,
                    views(perf_frequency@[j].1@),
                    perf_frequency_tag(perf_frequency@[j].0@)->0,
                ),
        decreases perf_frequency@.len() - k,
    {
        let (name, lines) = &perf_frequency[k];
        match aggregate_perf_frequency(name.as_str(), lines) {
            Ok(rows) => pf.push(rows),
            Err(e) => {
                return Err(e);
            },
        }
        k = k + 1;
    }
    let mut hc: Vec<Vec<TableAppend<HwpcConsumptionRow>>> = Vec::new();
    let mut k: usize = 0;
    while k < hwpc_consumption.len()
        invariant
            k <= hwpc_consumption@.len(),
            hc@.len() == k,
            forall|j: int| 0 <= j < perf_consumption@.len() ==> (#[trigger] perf_consumption_tags(perf_consumption@[j].0@)) is Some,
            forall|j: int| 0 <= j < perf_frequency@.len() ==> (#[trigger] perf_frequency_tag(perf_frequency@[j].0@)) is Some,
            forall|j: int| 0 <= j < k ==> hwpc_consumption_dir_ok(#[trigger] hwpc_consumption@[j]@),
            forall|j: int|
                0 <= j < k ==> {
                    let a = #[trigger] hc@[j];
                    let d = hwpc_consumption@[j]@;
                    a@.len() == d.len() && forall|i: int|
                        0 <= i < d.len() ==> a@[i].with_header == (i == 0) && tagged_consumption(
                            a@[i].rows@,
                            d[i].1@,
                            hwpc_consumption_metadata(d[i].0@)->0,
                        )
                },
        decreases hwpc_consumption@.len() - k,
    {
        match aggregate_hwpc_consumption(&hwpc_consumption[k]) {
            Ok(a) => hc.push(a),
            Err(e) => {
                return Err(e);
            },
        }
        k = k + 1;
    }
    let mut hf: Vec<Vec<TableAppend<HwpcFrequencyRow>>> = Vec::new();
    let mut k: usize = 0;
    while k < hwpc_frequency.len()
        invariant
            k <= hwpc_frequency@.len(),
            hf@.len() == k,
            forall|j: int| 0 <= j < perf_consumption@.len() ==> (#[trigger] perf_consumption_tags(perf_consumption@[j].0@)) is Some,
            forall|j: int| 0 <= j < perf_frequency@.len() ==> (#[trigger] perf_frequency_tag(perf_frequency@[j].0@)) is Some,
            forall|j: int| 0 <= j < hwpc_consumption@.len() ==> hwpc_consumption_dir_ok(#[trigger] hwpc_consumption@[j]@),
            forall|j: int| 0 <= j < k ==> hwpc_frequency_dir_ok(#[trigger] hwpc_frequency@[j]@),
            forall|j: int|
                0 <= j < k ==> {
                    let a = #[trigger] hf@[j];
                    let d = hwpc_frequency@[j]@;
                    a@.len() == d.len() && forall|i: int|
                        0 <= i < d.len() ==> a@[i].with_header == (i == 0) && tagged_frequency(
                            a@[i].rows@,
                            d[i].1@,
                            hwpc_frequency_metadata(d[i].0@)->0,
                        )
                },
        decreases hwpc_frequency@.len() - k,
    {
        match aggregate_hwpc_frequency(&hwpc_frequency[k]) {
            Ok(a) => hf.push(a),
            Err(e) => {
                return Err(e);
            },
        }
        k = k + 1;
    }
    Ok(ResultTables { perf_consumption: pc, perf_frequency: pf, hwpc_consumption: hc, hwpc_frequency: hf })
}

// ---------------------------------------------------------------- retrieval

/// The steps that bring a finished job's results in.
#[derive(Debug, Clone, Copy, PartialEq, Eq, Structural)]
pub enum ResultStep {
    /// Copy the site's results tree here.
    Transfer,
    /// Check the archive against its checksum file.
    VerifyChecksum,
    /// Unpack the archive, dropping this many leading path segments.
    Extract(u32),
    /// Normalise the unpacked telemetry.
    Aggregate,
    /// All done.
    Done,
    /// The transfer or the checksum failed: the results cannot be trusted.
    Corrupted,
    /// The archive could not be unpacked at either depth.
    Unextractable,
    /// Normalisation failed.
    AggregationFailed,
}

/// Leading path segments dropped on the first extraction attempt.
pub const FIRST_STRIP_DEPTH: u32 = 5;

/// Leading path segments dropped on the second extraction attempt.
pub const SECOND_STRIP_DEPTH: u32 = 3;

pub open spec fn step_after(step: ResultStep, ok: bool) -> ResultStep {
    match step {
        ResultStep::Transfer => if ok {
            ResultStep::VerifyChecksum
        } else {
            ResultStep::Corrupted
        },
        ResultStep::VerifyChecksum => if ok {
            ResultStep::Extract(FIRST_STRIP_DEPTH)
        } else {
            ResultStep::Corrupted
        },
        ResultStep::Extract(depth) => if ok {
            ResultStep::Aggregate
        } else if depth == FIRST_STRIP_DEPTH {
            ResultStep::Extract(SECOND_STRIP_DEPTH)
        } else {
            ResultStep::Unextractable
        },
        ResultStep::Aggregate => if ok {
            ResultStep::Done
        } else {
            ResultStep::AggregationFailed
        },
        _ => step,
    }
}

/// The step that follows `step` once it succeeded (`ok`) or failed.
pub fn next_result_step(step: ResultStep, ok: bool) -> (r: ResultStep)
    ensures
        r == step_after(step, ok),
{
    match step {
        ResultStep::Transfer => if ok {
            ResultStep::VerifyChecksum
        } else {
            ResultStep::Corrupted
        },
        ResultStep::VerifyChecksum => if ok {
            ResultStep::Extract(FIRST_STRIP_DEPTH)
        } else {
            ResultStep::Corrupted
        },
        ResultStep::Extract(depth) => if ok {
            ResultStep::Aggregate
        } else if depth == FIRST_STRIP_DEPTH {
            ResultStep::Extract(SECOND_STRIP_DEPTH)
        } else {
            ResultStep::Unextractable
        },
        ResultStep::Aggregate => if ok {
            ResultStep::Done
        } else {
            ResultStep::AggregationFailed
        },
        _ => step,
    }
}

/// Whether the job's results were fetched, verified and unpacked: what
/// `Jobs::settle_job` takes as the outcome of a retrieval. A failed transfer
/// or checksum, and an archive that is missing or unpacks at neither depth,
/// are integrity failures.
pub fn retrieved(step: ResultStep) -> (r: bool)
    ensures
        r == (step != ResultStep::Corrupted && step != ResultStep::Unextractable),
{
    step != ResultStep::Corrupted && step != ResultStep::Unextractable
}

/// Where the steps go from `step` on the outcomes `oks`, one per step.
pub open spec fn run_steps(step: ResultStep, oks: Seq<bool>) -> ResultStep
    decreases oks.len(),
{
    if oks.len() == 0 {
        step
    } else {
        run_steps(step_after(step, oks[0]), oks.subrange(1, oks.len() as int))
    }
}

/// Once the transfer or the checksum has failed, no outcome of later steps
/// leads to aggregation, and the job, which had ended (`Terminated` or
/// `Failed`), settles in `UnknownState`.
pub proof fn lemma_corrupted_never_aggregates(path: Lifecycle, ended: OARState, oks: Seq<bool>)
    requires
        ended == OARState::Terminated || ended == OARState::Failed,
    ensures
        run_steps(ResultStep::Corrupted, oks) == ResultStep::Corrupted,
        settled(path, ended, run_steps(ResultStep::Corrupted, oks) != ResultStep::Corrupted)
            == OARState::UnknownState,
    decreases oks.len(),
{
    if oks.len() > 0 {
        lemma_corrupted_never_aggregates(path, ended, oks.subrange(1, oks.len() as int));
    }
}

/// When both extraction depths fail, later outcomes change nothing, the
/// results are never aggregated, and the job, which had ended, settles in
/// `UnknownState`.
pub proof fn lemma_unextractable_never_aggregates(path: Lifecycle, ended: OARState, oks: Seq<bool>)
    requires
        ended == OARState::Terminated || ended == OARState::Failed,
    ensures
        run_steps(step_after(ResultStep::Extract(SECOND_STRIP_DEPTH), false), oks)
            == ResultStep::Unextractable,
        settled(
            path,
            ended,
            run_steps(ResultStep::Unextractable, oks) != ResultStep::Corrupted && run_steps(
                ResultStep::Unextractable,
                oks,
            ) != ResultStep::Unextractable,
        ) == OARState::UnknownState,
    decreases oks.len(),
{
    if oks.len() > 0 {
        lemma_unextractable_never_aggregates(path, ended, oks.subrange(1, oks.len() as int));
    }
}

/// The results archive of a results directory: `<dir>.tar.xz`, beside it.
pub fn archive_path(results_dir: &str) -> (r: String)
    ensures
        r@ == results_dir@ + ".tar.xz"@,
{
    let mut s = results_dir.to_owned();
    s.append(".tar.xz");
    s
}

/// The checksum file of a results archive: `<dir>.tar.xz.md5`.
pub fn checksum_path(results_dir: &str) -> (r: String)
    ensures
        r@ == results_dir@ + ".tar.xz.md5"@,
{
    let mut s = results_dir.to_owned();
    s.append(".tar.xz.md5");
    s
}

/// The reports of a results directory to aggregate, by kind.
pub struct ResultsPlan {
    pub perf_consumption_files: Vec<String>,
    pub perf_frequency_files: Vec<String>,
    pub hwpc_consumption_dirs: Vec<String>,
    pub hwpc_frequency_dirs: Vec<String>,
}

/// Sorts the entries of a results directory (the names of its regular files
/// and of its subdirectories) into the reports of each kind.
pub fn process_results(file_names: &Vec<String>, dir_names: &Vec<String>) -> (r: ResultsPlan)
    ensures
        views(r.perf_consumption_files@) == selected(file_names@, |n: Seq<char>| is_perf_consumption_name(n)),
        views(r.perf_frequency_files@) == selected(file_names@, |n: Seq<char>| is_perf_frequency_name(n)),
        views(r.hwpc_consumption_dirs@) == selected(dir_names@, |n: Seq<char>| is_hwpc_consumption_name(n)),
        views(r.hwpc_frequency_dirs@) == selected(dir_names@, |n: Seq<char>| is_hwpc_frequency_name(n)),
{
    ResultsPlan {
        perf_consumption_files: filter_perf_consumption_files(file_names),
        perf_frequency_files: filter_perf_frequency_files(file_names),
        hwpc_consumption_dirs: filter_hwpc_consumption_dirs(dir_names),
        hwpc_frequency_dirs: filter_hwpc_frequency_dirs(dir_names),
    }
}

} // verus!
