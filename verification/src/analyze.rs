//! Analysis and reporting over the recorded check history: per-category
//! and per-family statistics, outage reconstruction, and the plain-text
//! report.

use vstd::prelude::*;
use vstd::string::*;

use crate::records::{
    checks_deep, spec_category_name, spec_check_hash, spec_check_line, spec_check_type,
    spec_hash_bytes, spec_ip_type, spec_is_success, Check, CheckData, CheckType, IpFamily,
    HASH_SEED,
};
use crate::store::{spec_store_hash, Store, StoreError};
use crate::text::{
    barrier, dec_u64, hex16, key_value_write, percent_str, rfc3339_of, rfc3339_seconds,
    spec_barrier, spec_dec, spec_hex16, spec_key_value, spec_percent, spec_zero_pad, RFC3339_MAX,
};

verus! {

/// How an analysis step fails.
#[derive(Clone, Copy, Debug, PartialEq, Eq, Structural)]
pub enum AnalysisError {
    /// Rendering the report text failed: a timestamp lies past the
    /// rendering bound.
    Format,
    /// The underlying store failed; the store error is carried unchanged.
    Store(StoreError),
}

/// Which checks one report section speaks about.
#[derive(Clone, Copy, Debug, PartialEq, Eq, Structural)]
pub enum Selector {
    /// Every check.
    All,
    /// Checks of one probe category.
    OfType(CheckType),
    /// Checks that unambiguously report one IP family.
    OfFamily(IpFamily),
}

/// Whether `c` belongs to the section `sel` selects.
pub open spec fn spec_selected(sel: Selector, c: CheckData) -> bool {
    match sel {
        Selector::All => true,
        Selector::OfType(t) => spec_check_type(c.flags) == t,
        Selector::OfFamily(fam) => spec_ip_type(c.flags) == Ok::<IpFamily, crate::records::FlagAnomaly>(
            fam,
        ),
    }
}

/// The subsequence of `s` that `sel` selects, in original order.
pub open spec fn spec_filter(s: Seq<CheckData>, sel: Selector) -> Seq<CheckData>
    decreases s.len(),
{
    if s.len() == 0 {
        Seq::empty()
    } else {
        let pre = spec_filter(s.drop_last(), sel);
        if spec_selected(sel, s.last()) {
            pre.push(s.last())
        } else {
            pre
        }
    }
}

/// How many checks of `s` succeeded.
pub open spec fn spec_success_count(s: Seq<CheckData>) -> nat
    decreases s.len(),
{
    if s.len() == 0 {
        0
    } else {
        spec_success_count(s.drop_last()) + if spec_is_success(s.last().flags) {
            1nat
        } else {
            0nat
        }
    }
}

/// Every check `sel` selects out of `s` satisfies the selector.
pub proof fn lemma_filter_selected(s: Seq<CheckData>, sel: Selector)
    ensures
        forall|j: int|
            0 <= j < spec_filter(s, sel).len() ==> spec_selected(
                sel,
                #[trigger] spec_filter(s, sel)[j],
            ),
    decreases s.len(),
{
    if s.len() > 0 {
        lemma_filter_selected(s.drop_last(), sel);
        let pre = spec_filter(s.drop_last(), sel);
        if spec_selected(sel, s.last()) {
            assert forall|j: int| 0 <= j < spec_filter(s, sel).len() implies spec_selected(
                sel,
                spec_filter(s, sel)[j],
            ) by {
                if j < pre.len() {
                    assert(spec_filter(s, sel)[j] == pre[j]);
                } else {
                    assert(spec_filter(s, sel)[j] == s.last());
                }
            }
        }
    }
}

/// A check whose family flags are ambiguous or absent stands in neither
/// family section.
pub proof fn lemma_ambiguous_family_excluded(s: Seq<CheckData>, c: CheckData)
    requires
        spec_ip_type(c.flags) is Err,
    ensures
        forall|j: int|
            0 <= j < spec_filter(s, Selector::OfFamily(IpFamily::V4)).len() ==> #[trigger] spec_filter(
                s,
                Selector::OfFamily(IpFamily::V4),
            )[j] != c,
        forall|j: int|
            0 <= j < spec_filter(s, Selector::OfFamily(IpFamily::V6)).len() ==> #[trigger] spec_filter(
                s,
                Selector::OfFamily(IpFamily::V6),
            )[j] != c,
{
    lemma_filter_selected(s, Selector::OfFamily(IpFamily::V4));
    lemma_filter_selected(s, Selector::OfFamily(IpFamily::V6));
}

/// The aggregate numbers of one non-empty section: counts and the first
/// and last timestamps of the selected checks.
#[derive(Clone, Copy, Debug, PartialEq, Eq, Structural)]
pub struct StatSet {
    /// How many checks the section holds.
    pub total: usize,
    /// How many of them succeeded.
    pub ok: usize,
    /// Timestamp of the earliest selected check.
    pub first_ts: u64,
    /// Timestamp of the latest selected check.
    pub last_ts: u64,
}

/// The aggregate numbers of the section `sel` selects, or `None` when it
/// selects nothing.
pub open spec fn spec_stats(s: Seq<CheckData>, sel: Selector) -> Option<StatSet> {
    let f = spec_filter(s, sel);
    if f.len() == 0 {
        None
    } else {
        Some(
            StatSet {
                total: f.len() as usize,
                ok: spec_success_count(f) as usize,
                first_ts: f.first().timestamp,
                last_ts: f.last().timestamp,
            },
        )
    }
}

/// Every recorded timestamp lies below the rendering bound.
pub open spec fn spec_ts_in_range(s: Seq<CheckData>) -> bool {
    forall|i: int| 0 <= i < s.len() ==> (#[trigger] s[i]).timestamp < RFC3339_MAX
}

/// Whether every timestamp of these checks can be rendered.
fn checks_ts_in_range(checks: &Vec<Check>) -> (r: bool)
    ensures
        r == spec_ts_in_range(checks_deep(checks@)),
{
    let ghost g = checks_deep(checks@);
    let mut i: usize = 0;
    while i < checks.len()
        invariant
            g == checks_deep(checks@),
            g.len() == checks@.len(),
            0 <= i <= checks@.len(),
            forall|j: int| 0 <= j < i ==> (#[trigger] g[j]).timestamp < RFC3339_MAX,
        decreases checks@.len() - i,
    {
        if checks[i].timestamp() >= RFC3339_MAX {
            proof {
                assert(g[i as int].timestamp >= RFC3339_MAX);
            }
            return false;
        }
        i = i + 1;
    }
    true
}

/// The success ratio in hundredths of a percent, rounded to nearest.
pub open spec fn spec_ratio_hundredths(total: nat, ok: nat) -> nat {
    (20000 * ok + total) / (2 * total)
}

/// The success ratio never leaves the zero to one range: at most a hundred
/// percent, in hundredths of a percent.
pub proof fn lemma_ratio_bounds(total: nat, ok: nat)
    requires
        0 < total,
        ok <= total,
    ensures
        spec_ratio_hundredths(total, ok) <= 10000,
{
    assert((20000 * ok + total) / (2 * total) <= 10000) by (nonlinear_arith)
        requires
            0 < total,
            ok <= total,
    ;
}

/// Computes the success ratio of a section in hundredths of a percent.
pub fn success_ratio(total: usize, ok: usize) -> (r: u64)
    requires
        0 < total,
        ok <= total,
    ensures
        r == spec_ratio_hundredths(total as nat, ok as nat),
        r <= 10000,
{
    let num: u128 = 20000u128 * (ok as u128) + (total as u128);
    let den: u128 = 2u128 * (total as u128);
    let q: u128 = num / den;
    proof {
        lemma_ratio_bounds(total as nat, ok as nat);
    }
    q as u64
}

/// Whether `c` belongs to the section `sel` selects.
fn selected(c: &Check, sel: Selector) -> (r: bool)
    ensures
        r == spec_selected(sel, c@),
{
    match sel {
        Selector::All => true,
        Selector::OfType(t) => c.calc_type() == t,
        Selector::OfFamily(fam) => match c.ip_type() {
            Ok(f2) => f2 == fam,
            Err(_) => false,
        },
    }
}

/// One pass over the history, computing the aggregate numbers of the
/// section `sel` selects.
fn stat_pass(store: &Store, sel: Selector) -> (r: Option<StatSet>)
    ensures
        r == spec_stats(store@, sel),
        r matches Some(st) ==> 0 < st.total && st.ok <= st.total,
{
    let cs = store.checks();
    let mut total: usize = 0;
    let mut ok_n: usize = 0;
    let mut first_ts: u64 = 0;
    let mut last_ts: u64 = 0;
    let mut i: usize = 0;
    while i < cs.len()
        invariant
            cs@.len() == store@.len(),
            forall|j: int| 0 <= j < cs@.len() ==> cs@[j]@ == store@[j],
            0 <= i <= store@.len(),
            total == spec_filter(store@.take(i as int), sel).len(),
            ok_n == spec_success_count(spec_filter(store@.take(i as int), sel)),
            ok_n <= total <= i,
            total > 0 ==> first_ts == spec_filter(store@.take(i as int), sel).first().timestamp,
            total > 0 ==> last_ts == spec_filter(store@.take(i as int), sel).last().timestamp,
        decreases cs@.len() - i,
    {
        let c = &cs[i];
        proof {
            assert(store@.take(i + 1).drop_last() =~= store@.take(i as int));
            assert(store@.take(i + 1).last() == store@[i as int]);
            let pre = spec_filter(store@.take(i as int), sel);
            let c0 = store@[i as int];
            assert(pre.push(c0).drop_last() =~= pre);
            assert(pre.push(c0).last() == c0);
        }
        if selected(c, sel) {
            if total == 0 {
                first_ts = c.timestamp();
            }
            last_ts = c.timestamp();
            total = total + 1;
            if c.is_success() {
                ok_n = ok_n + 1;
            }
        }
        i = i + 1;
    }
    proof {
        assert(store@.take(store@.len() as int) =~= store@);
    }
    if total == 0 {
        None
    } else {
        Some(StatSet { total, ok: ok_n, first_ts, last_ts })
    }
}

/// The text of one stat block: `None` for an empty section, else the
/// counts, the success ratio, and the first and last timestamps.
pub open spec fn spec_stat_block(stats: Option<StatSet>) -> Seq<char> {
    match stats {
        None => "None\n\n"@,
        Some(st) => spec_key_value("checks"@, spec_zero_pad(st.total as nat, 8)) + spec_key_value(
            "checks ok"@,
            spec_zero_pad(st.ok as nat, 8),
        ) + spec_key_value("checks bad"@, spec_zero_pad((st.total - st.ok) as nat, 8))
            + spec_key_value(
            "success ratio"@,
            spec_percent(spec_ratio_hundredths(st.total as nat, st.ok as nat)),
        ) + spec_key_value("first check at"@, rfc3339_of(st.first_ts)) + spec_key_value(
            "last check at"@,
            rfc3339_of(st.last_ts),
        ) + "\n"@,
    }
}

/// The stat block of the section `sel` selects out of `s`.
pub open spec fn spec_stat_section(s: Seq<CheckData>, sel: Selector) -> Seq<char> {
    spec_stat_block(spec_stats(s, sel))
}

/// Renders `n` in decimal, zero-padded to eight columns as the stat lines
/// show counts.
fn zero_pad8(n: u64) -> (r: String)
    ensures
        r@ == spec_zero_pad(n as nat, 8),
{
    let d = dec_u64(n);
    let mut s = String::new();
    let len = d.as_str().unicode_len();
    proof {
        reveal_strlit("0");
    }
    if len < 8 {
        crate::text::append_times(&mut s, "0", 8 - len);
    }
    s.append(d.as_str());
    proof {
        assert(s@ =~= spec_zero_pad(n as nat, 8));
    }
    s
}

/// Whether the first and last timestamps of a stat block can be rendered.
pub open spec fn spec_stats_renderable(stats: Option<StatSet>) -> bool {
    match stats {
        None => true,
        Some(st) => st.first_ts < RFC3339_MAX && st.last_ts < RFC3339_MAX,
    }
}

/// Appends one stat block to the report, or fails with the formatting
/// error, leaving the report untouched, when a timestamp cannot be
/// rendered.
#[verifier::rlimit(100)]
pub fn analyze_check_type_set(f: &mut String, stats: Option<StatSet>) -> (r: Result<
    (),
    AnalysisError,
>)
    requires
        stats matches Some(st) ==> 0 < st.total && st.ok <= st.total,
    ensures
        spec_stats_renderable(stats) ==> (r == Ok::<(), AnalysisError>(()) && final(f)@ == old(f)@
            + spec_stat_block(stats)),
        !spec_stats_renderable(stats) ==> (r == Err::<(), AnalysisError>(AnalysisError::Format)
            && final(f)@ == old(f)@),
{
    let ghost start = f@;
    match stats {
        None => {
            f.append("None\n\n");
            Ok(())
        },
        Some(st) => {
            if st.first_ts >= RFC3339_MAX || st.last_ts >= RFC3339_MAX {
                return Err(AnalysisError::Format);
            }
            let t = zero_pad8(st.total as u64);
            key_value_write(f, "checks", t.as_str());
            let o = zero_pad8(st.ok as u64);
            key_value_write(f, "checks ok", o.as_str());
            let b = zero_pad8((st.total - st.ok) as u64);
            key_value_write(f, "checks bad", b.as_str());
            let ratio = success_ratio(st.total, st.ok);
            let p = percent_str(ratio);
            key_value_write(f, "success ratio", p.as_str());
            let first = rfc3339_seconds(st.first_ts);
            key_value_write(f, "first check at", first.as_str());
            let last = rfc3339_seconds(st.last_ts);
            key_value_write(f, "last check at", last.as_str());
            f.append("\n");
            proof {
                assert(f@ =~= start + spec_stat_block(stats));
            }
            Ok(())
        },
    }
}

/// Appends the general statistics section, the stat block over every
/// recorded check; an empty history gives the empty stat marker. Fails
/// with the formatting error, leaving the report untouched, exactly when
/// a timestamp the block shows cannot be rendered.
pub fn generalized(store: &Store, f: &mut String) -> (r: Result<(), AnalysisError>)
    ensures
        spec_stats_renderable(spec_stats(store@, Selector::All)) ==> (r == Ok::<
            (),
            AnalysisError,
        >(()) && final(f)@ == old(f)@ + spec_stat_section(store@, Selector::All)),
        !spec_stats_renderable(spec_stats(store@, Selector::All)) ==> (r == Err::<
            (),
            AnalysisError,
        >(AnalysisError::Format) && final(f)@ == old(f)@),
{
    let stats = stat_pass(store, Selector::All);
    analyze_check_type_set(f, stats)
}

/// Appends the statistics section of one probe category; fails with the
/// formatting error, leaving the report untouched, exactly when a
/// timestamp the block shows cannot be rendered.
pub fn generic_type_analyze(store: &Store, f: &mut String, check_type: CheckType) -> (r: Result<
    (),
    AnalysisError,
>)
    ensures
        spec_stats_renderable(spec_stats(store@, Selector::OfType(check_type))) ==> (r == Ok::<
            (),
            AnalysisError,
        >(()) && final(f)@ == old(f)@ + spec_stat_section(store@, Selector::OfType(check_type))),
        !spec_stats_renderable(spec_stats(store@, Selector::OfType(check_type))) ==> (r == Err::<
            (),
            AnalysisError,
        >(AnalysisError::Format) && final(f)@ == old(f)@),
{
    let stats = stat_pass(store, Selector::OfType(check_type));
    analyze_check_type_set(f, stats)
}

/// Appends the statistics section of one IP family. Checks whose family
/// flags are ambiguous or absent are selected for neither family. Fails
/// with the formatting error, leaving the report untouched, exactly when
/// a timestamp the block shows cannot be rendered.
pub fn gereric_ip_analyze(store: &Store, f: &mut String, fam: IpFamily) -> (r: Result<
    (),
    AnalysisError,
>)
    ensures
        spec_stats_renderable(spec_stats(store@, Selector::OfFamily(fam))) ==> (r == Ok::<
            (),
            AnalysisError,
        >(()) && final(f)@ == old(f)@ + spec_stat_section(store@, Selector::OfFamily(fam))),
        !spec_stats_renderable(spec_stats(store@, Selector::OfFamily(fam))) ==> (r == Err::<
            (),
            AnalysisError,
        >(AnalysisError::Format) && final(f)@ == old(f)@),
{
    let stats = stat_pass(store, Selector::OfFamily(fam));
    analyze_check_type_set(f, stats)
}

/// The checks of `s` whose family flags are ambiguous or absent, in order.
pub open spec fn spec_anomalous(s: Seq<CheckData>) -> Seq<CheckData>
    decreases s.len(),
{
    if s.len() == 0 {
        Seq::empty()
    } else {
        let pre = spec_anomalous(s.drop_last());
        if spec_ip_type(s.last().flags) is Err {
            pre.push(s.last())
        } else {
            pre
        }
    }
}

/// The warning one anomalous check produces: its content hash and the
/// offending flag state.
pub open spec fn spec_warning_text(c: CheckData) -> Seq<char> {
    "check '"@ + spec_hex16(spec_check_hash(c)) + "' has bad flags: "@ + (if spec_ip_type(c.flags)
        == Err::<IpFamily, crate::records::FlagAnomaly>(crate::records::FlagAnomaly::BothFamilies) {
        "both IPv4 and IPv6 flags are set"@
    } else {
        "neither IPv4 nor IPv6 flag is set"@
    })
}

/// Collects one warning for each check whose family flags are ambiguous
/// or absent: exactly one warning per offending record.
pub fn flag_warnings(store: &Store) -> (w: Vec<String>)
    ensures
        w@.len() == spec_anomalous(store@).len(),
        forall|j: int|
            0 <= j < w@.len() ==> (#[trigger] w@[j])@ == spec_warning_text(spec_anomalous(store@)[j]),
{
    let cs = store.checks();
    let mut w: Vec<String> = Vec::new();
    let mut i: usize = 0;
    while i < cs.len()
        invariant
            cs@.len() == store@.len(),
            forall|j: int| 0 <= j < cs@.len() ==> cs@[j]@ == store@[j],
            0 <= i <= store@.len(),
            w@.len() == spec_anomalous(store@.take(i as int)).len(),
            forall|j: int|
                0 <= j < w@.len() ==> (#[trigger] w@[j])@ == spec_warning_text(
                    spec_anomalous(store@.take(i as int))[j],
                ),
        decreases cs@.len() - i,
    {
        let c = &cs[i];
        proof {
            assert(store@.take(i + 1).drop_last() =~= store@.take(i as int));
            assert(store@.take(i + 1).last() == store@[i as int]);
        }
        match c.ip_type() {
            Ok(_) => {},
            Err(anomaly) => {
                let mut line = String::from_str("check '");
                let h = hex16(c.get_hash());
                line.append(h.as_str());
                line.append("' has bad flags: ");
                match anomaly {
                    crate::records::FlagAnomaly::BothFamilies => {
                        line.append("both IPv4 and IPv6 flags are set");
                    },
                    crate::records::FlagAnomaly::NeitherFamily => {
                        line.append("neither IPv4 nor IPv6 flag is set");
                    },
                }
                proof {
                    assert(line@ =~= spec_warning_text(store@[i as int]));
                }
                w.push(line);
            },
        }
        i = i + 1;
    }
    proof {
        assert(store@.take(store@.len() as int) =~= store@);
    }
    w
}

/// The positions within a check sequence whose check failed, ascending.
pub open spec fn spec_fail_positions(v: Seq<CheckData>) -> Seq<int>
    decreases v.len(),
{
    if v.len() == 0 {
        Seq::empty()
    } else {
        let pre = spec_fail_positions(v.drop_last());
        if !spec_is_success(v.last().flags) {
            pre.push(v.len() - 1)
        } else {
            pre
        }
    }
}

/// Merges an ascending position list into its maximal consecutive runs,
/// each run given as its inclusive first and last position.
pub open spec fn spec_runs(idxs: Seq<int>) -> Seq<(int, int)>
    decreases idxs.len(),
{
    if idxs.len() == 0 {
        Seq::empty()
    } else {
        let pre = spec_runs(idxs.drop_last());
        let x = idxs.last();
        if pre.len() > 0 && pre.last().1 == x - 1 {
            pre.update(pre.len() - 1, (pre.last().0, x))
        } else {
            pre.push((x, x))
        }
    }
}

/// The ghost values of a vector of positions.
pub open spec fn idx_ints(v: Seq<usize>) -> Seq<int> {
    v.map_values(|u: usize| u as int)
}

/// The ghost values of a vector of runs.
pub open spec fn runs_ints(v: Seq<(usize, usize)>) -> Seq<(int, int)> {
    v.map_values(|p: (usize, usize)| (p.0 as int, p.1 as int))
}

/// The display block of one outage: its time range, the number of failing
/// checks in the run, and the probe category of the start marker.
pub open spec fn spec_outage_text(start: CheckData, end: Option<CheckData>, n: nat) -> Seq<char> {
    (match end {
        Some(e) => "From "@ + rfc3339_of(start.timestamp) + " To "@ + rfc3339_of(e.timestamp)
            + "\n"@,
        None => "From "@ + rfc3339_of(start.timestamp) + " STILL ONGOING\n"@,
    }) + "Checks: "@ + spec_dec(n) + "\n"@ + "Type: "@ + spec_category_name(
        spec_check_type(start.flags),
    ) + "\n"@
}

/// A period of consecutive failed checks of one probe category.
///
/// The fields are positions into the history the outage was derived from:
/// a start marker, an optional end marker (`None` means the outage is
/// still open), and the positions of every failing check in the run.
#[derive(Debug)]
pub struct Outage {
    start: usize,
    end: Option<usize>,
    all: Vec<usize>,
}

/// The ghost value of an [`Outage`]: its positions as plain integers.
pub struct OutageData {
    /// Position of the start marker.
    pub start: int,
    /// Position of the end marker, absent while the outage is open.
    pub end: Option<int>,
    /// Positions of the failing checks of the run.
    pub all: Seq<int>,
}

impl View for Outage {
    type V = OutageData;

    closed spec fn view(&self) -> OutageData {
        OutageData {
            start: self.start as int,
            end: match self.end {
                Some(e) => Some(e as int),
                None => None,
            },
            all: idx_ints(self.all@),
        }
    }
}

impl Outage {
    /// Builds an outage from its start marker, its optional end marker,
    /// and the positions of its failing checks.
    pub fn new(start: usize, end: Option<usize>, all: Vec<usize>) -> (o: Outage)
        ensures
            o@.start == start,
            o@.end == (match end {
                Some(e) => Some(e as int),
                None => None::<int>,
            }),
            o@.all == idx_ints(all@),
    {
        Outage { start, end, all }
    }

    /// Whether both of this outage's displayed timestamps can be rendered.
    pub open spec fn spec_renderable(&self, checks: Seq<Check>) -> bool {
        checks[self@.start]@.timestamp < RFC3339_MAX && (self@.end matches Some(e)
            ==> checks[e]@.timestamp < RFC3339_MAX)
    }

    /// Renders this outage against the history its positions point into,
    /// or nothing when a displayed timestamp lies past the rendering
    /// bound.
    pub fn display(&self, checks: &Vec<Check>) -> (r: Option<String>)
        requires
            0 <= self@.start < checks@.len(),
            self@.end matches Some(e) ==> 0 <= e < checks@.len(),
        ensures
            self.spec_renderable(checks@) ==> (r matches Some(s) && s@ == spec_outage_text(
                checks@[self@.start]@,
                match self@.end {
                    Some(e) => Some(checks@[e]@),
                    None => None,
                },
                self@.all.len(),
            )),
            !self.spec_renderable(checks@) ==> r is None,
    {
        if checks[self.start].timestamp() >= RFC3339_MAX {
            return None;
        }
        match self.end {
            Some(e) => {
                if checks[e].timestamp() >= RFC3339_MAX {
                    return None;
                }
            },
            None => {},
        }
        let mut s = String::from_str("From ");
        let st = rfc3339_seconds(checks[self.start].timestamp());
        s.append(st.as_str());
        match self.end {
            Some(e) => {
                s.append(" To ");
                let et = rfc3339_seconds(checks[e].timestamp());
                s.append(et.as_str());
                s.append("\n");
            },
            None => {
                s.append(" STILL ONGOING\n");
            },
        }
        s.append("Checks: ");
        let n = dec_u64(self.all.len() as u64);
        s.append(n.as_str());
        s.append("\n");
        s.append("Type: ");
        s.append(crate::records::category_name(checks[self.start].calc_type()));
        s.append("\n");
        proof {
            assert(s@ =~= spec_outage_text(
                checks@[self@.start]@,
                match self@.end {
                    Some(e) => Some(checks@[e]@),
                    None => None,
                },
                self@.all.len(),
            ));
        }
        Some(s)
    }
}

/// Merges the ascending positions of failing checks into maximal
/// consecutive runs: each run is one outage group.
pub fn fail_groups(fail_idxs: &Vec<usize>) -> (runs: Vec<(usize, usize)>)
    requires
        forall|k: int|
            0 <= k < fail_idxs@.len() - 1 ==> #[trigger] fail_idxs@[k] < fail_idxs@[k + 1],
    ensures
        runs_ints(runs@) == spec_runs(idx_ints(fail_idxs@)),
        runs@.len() == 0 <==> fail_idxs@.len() == 0,
        forall|m: int|
            0 <= m < runs@.len() ==> (#[trigger] runs@[m]).0 <= runs@[m].1 && (fail_idxs@.len() > 0
                && runs@[m].1 <= fail_idxs@[fail_idxs@.len() - 1] && runs@[m].0 >= fail_idxs@[0]),
{
    let mut runs: Vec<(usize, usize)> = Vec::new();
    let mut k: usize = 0;
    while k < fail_idxs.len()
        invariant
            forall|k2: int|
                0 <= k2 < fail_idxs@.len() - 1 ==> #[trigger] fail_idxs@[k2] < fail_idxs@[k2 + 1],
            0 <= k <= fail_idxs@.len(),
            runs_ints(runs@) == spec_runs(idx_ints(fail_idxs@).take(k as int)),
            runs@.len() == 0 <==> k == 0,
            k > 0 ==> runs@[runs@.len() - 1].1 == fail_idxs@[k - 1],
            forall|m: int|
                0 <= m < runs@.len() ==> (#[trigger] runs@[m]).0 <= runs@[m].1 && (k > 0
                    && runs@[m].1 <= fail_idxs@[k - 1] && runs@[m].0 >= fail_idxs@[0]),
        decreases fail_idxs@.len() - k,
    {
        let x = fail_idxs[k];
        proof {
            assert(idx_ints(fail_idxs@).take(k + 1).drop_last() =~= idx_ints(fail_idxs@).take(
                k as int,
            ));
            assert(idx_ints(fail_idxs@).take(k + 1).last() == fail_idxs@[k as int] as int);
        }
        let merge = if runs.len() > 0 {
            let last_end = runs[runs.len() - 1].1;
            last_end + 1 == x
        } else {
            false
        };
        if merge {
            let ghost pre = runs@;
            let top = match runs.pop() {
                Some(t) => t,
                None => (0, 0),
            };
            runs.push((top.0, x));
            proof {
                assert(runs@ =~= pre.update(pre.len() - 1, (top.0, x)));
                assert(runs_ints(runs@) =~= spec_runs(idx_ints(fail_idxs@).take(k + 1)));
            }
        } else {
            runs.push((x, x));
            proof {
                assert(runs_ints(runs@) =~= spec_runs(idx_ints(fail_idxs@).take(k + 1)));
            }
        }
        k = k + 1;
    }
    proof {
        assert(idx_ints(fail_idxs@).take(fail_idxs@.len() as int) =~= idx_ints(fail_idxs@));
    }
    runs
}

/// The outage blocks of one probe category, in run order. Every block's
/// displayed range spans the whole category view, not the failing run
/// itself: the start marker is the category's first check and the end
/// marker its last, whatever the run's own bounds. That mirrors the
/// established report format and is kept on purpose, odd as it looks.
pub open spec fn spec_runs_text(v: Seq<CheckData>, runs: Seq<(int, int)>) -> Seq<char>
    decreases runs.len(),
{
    if runs.len() == 0 {
        Seq::empty()
    } else {
        spec_runs_text(v, runs.drop_last()) + spec_outage_text(
            v.first(),
            Some(v.last()),
            (runs.last().1 - runs.last().0 + 1) as nat,
        ) + "\n"@
    }
}

/// The outage blocks of one probe category of `s`.
pub open spec fn spec_type_outages(s: Seq<CheckData>, t: CheckType) -> Seq<char> {
    let v = spec_filter(s, Selector::OfType(t));
    spec_runs_text(v, spec_runs(spec_fail_positions(v)))
}

/// The whole outages section: `None` when the history is empty or holds
/// no failure at all, else every category's outage blocks in turn.
pub open spec fn spec_outages_section(s: Seq<CheckData>) -> Seq<char> {
    if s.len() == 0 || spec_fail_positions(s).len() == 0 {
        "None\n\n"@
    } else {
        spec_type_outages(s, CheckType::Http) + spec_type_outages(s, CheckType::IcmpV4)
            + spec_type_outages(s, CheckType::IcmpV6) + spec_type_outages(s, CheckType::Unknown)
    }
}

/// Whether one category's outage blocks can be rendered: the category
/// holds no failing check (so no block is emitted), or the two timestamps
/// every block shows — the category view's first and last — lie below the
/// rendering bound.
pub open spec fn spec_type_outages_renderable(s: Seq<CheckData>, t: CheckType) -> bool {
    let v = spec_filter(s, Selector::OfType(t));
    spec_fail_positions(v).len() == 0 || (v.first().timestamp < RFC3339_MAX && v.last().timestamp
        < RFC3339_MAX)
}

/// Whether the whole outages section can be rendered: it prints `None`
/// (no timestamp at all), or every category's blocks can be rendered.
pub open spec fn spec_outages_renderable(s: Seq<CheckData>) -> bool {
    s.len() == 0 || spec_fail_positions(s).len() == 0 || (spec_type_outages_renderable(
        s,
        CheckType::Http,
    ) && spec_type_outages_renderable(s, CheckType::IcmpV4) && spec_type_outages_renderable(
        s,
        CheckType::IcmpV6,
    ) && spec_type_outages_renderable(s, CheckType::Unknown))
}

/// One pass deciding whether a category's outage blocks can be rendered.
fn type_renderable(store: &Store, t: CheckType) -> (r: bool)
    ensures
        r == spec_type_outages_renderable(store@, t),
{
    let cs = store.checks();
    let mut count: usize = 0;
    let mut first_ts: u64 = 0;
    let mut last_ts: u64 = 0;
    let mut any_fail = false;
    let mut i: usize = 0;
    while i < cs.len()
        invariant
            cs@.len() == store@.len(),
            forall|j: int| 0 <= j < cs@.len() ==> cs@[j]@ == store@[j],
            0 <= i <= store@.len(),
            count == spec_filter(store@.take(i as int), Selector::OfType(t)).len(),
            count <= i,
            count > 0 ==> first_ts == spec_filter(
                store@.take(i as int),
                Selector::OfType(t),
            ).first().timestamp,
            count > 0 ==> last_ts == spec_filter(
                store@.take(i as int),
                Selector::OfType(t),
            ).last().timestamp,
            any_fail == (spec_fail_positions(
                spec_filter(store@.take(i as int), Selector::OfType(t)),
            ).len() > 0),
        decreases cs@.len() - i,
    {
        let c = &cs[i];
        proof {
            assert(store@.take(i + 1).drop_last() =~= store@.take(i as int));
            assert(store@.take(i + 1).last() == store@[i as int]);
            let pre = spec_filter(store@.take(i as int), Selector::OfType(t));
            let c0 = store@[i as int];
            assert(pre.push(c0).drop_last() =~= pre);
            assert(pre.push(c0).last() == c0);
        }
        if c.calc_type() == t {
            if count == 0 {
                first_ts = c.timestamp();
            }
            last_ts = c.timestamp();
            count = count + 1;
            if !c.is_success() {
                any_fail = true;
            }
        }
        i = i + 1;
    }
    proof {
        assert(store@.take(store@.len() as int) =~= store@);
    }
    !any_fail || (first_ts < RFC3339_MAX && last_ts < RFC3339_MAX)
}

/// Appends the outage blocks of one probe category: filters the history
/// to that category, finds the failing runs, and renders each as an
/// [`Outage`].
fn type_outages(store: &Store, f: &mut String, t: CheckType)
    requires
        spec_type_outages_renderable(store@, t),
    ensures
        final(f)@ == old(f)@ + spec_type_outages(store@, t),
{
    let ghost v = spec_filter(store@, Selector::OfType(t));
    let cs = store.checks();
    // The positions of this category's checks within the full history.
    let mut view_idx: Vec<usize> = Vec::new();
    let mut i: usize = 0;
    while i < cs.len()
        invariant
            cs@.len() == store@.len(),
            forall|j: int| 0 <= j < cs@.len() ==> cs@[j]@ == store@[j],
            0 <= i <= store@.len(),
            view_idx@.len() == spec_filter(store@.take(i as int), Selector::OfType(t)).len(),
            forall|j: int|
                0 <= j < view_idx@.len() ==> (#[trigger] view_idx@[j]) < i && store@[view_idx@[j] as int]
                    == spec_filter(store@.take(i as int), Selector::OfType(t))[j],
            forall|j: int|
                0 <= j < view_idx@.len() - 1 ==> #[trigger] view_idx@[j] < view_idx@[j + 1],
        decreases cs@.len() - i,
    {
        proof {
            assert(store@.take(i + 1).drop_last() =~= store@.take(i as int));
            assert(store@.take(i + 1).last() == store@[i as int]);
        }
        if cs[i].calc_type() == t {
            view_idx.push(i);
        }
        i = i + 1;
    }
    proof {
        assert(store@.take(store@.len() as int) =~= store@);
    }
    // The positions within the category view whose check failed.
    let mut fails: Vec<usize> = Vec::new();
    let mut j: usize = 0;
    while j < view_idx.len()
        invariant
            cs@.len() == store@.len(),
            forall|j2: int| 0 <= j2 < cs@.len() ==> cs@[j2]@ == store@[j2],
            view_idx@.len() == v.len(),
            forall|j2: int|
                0 <= j2 < view_idx@.len() ==> (#[trigger] view_idx@[j2]) < store@.len()
                    && store@[view_idx@[j2] as int] == v[j2],
            forall|j2: int|
                0 <= j2 < view_idx@.len() - 1 ==> #[trigger] view_idx@[j2] < view_idx@[j2 + 1],
            0 <= j <= v.len(),
            idx_ints(fails@) == spec_fail_positions(v.take(j as int)),
            forall|m: int| 0 <= m < fails@.len() ==> (#[trigger] fails@[m]) < j,
            forall|m: int| 0 <= m < fails@.len() - 1 ==> #[trigger] fails@[m] < fails@[m + 1],
        decreases view_idx@.len() - j,
    {
        proof {
            assert(v.take(j + 1).drop_last() =~= v.take(j as int));
            assert(v.take(j + 1).last() == v[j as int]);
        }
        let c = &cs[view_idx[j]];
        if !c.is_success() {
            fails.push(j);
            proof {
                assert(idx_ints(fails@) =~= spec_fail_positions(v.take(j + 1)));
            }
        }
        j = j + 1;
    }
    proof {
        assert(v.take(v.len() as int) =~= v);
    }
    let runs = fail_groups(&fails);
    // One outage block per failing run; the start and end markers span the
    // whole category view.
    let ghost rt = runs_ints(runs@);
    proof {
        assert(idx_ints(fails@).len() == fails@.len());
    }
    let mut m: usize = 0;
    while m < runs.len()
        invariant
            cs@.len() == store@.len(),
            forall|j2: int| 0 <= j2 < cs@.len() ==> cs@[j2]@ == store@[j2],
            view_idx@.len() == v.len(),
            forall|j2: int|
                0 <= j2 < view_idx@.len() ==> (#[trigger] view_idx@[j2]) < store@.len()
                    && store@[view_idx@[j2] as int] == v[j2],
            forall|m2: int| 0 <= m2 < fails@.len() ==> (#[trigger] fails@[m2]) < v.len(),
            rt == runs_ints(runs@),
            rt == spec_runs(spec_fail_positions(v)),
            runs@.len() == 0 <==> fails@.len() == 0,
            spec_fail_positions(v).len() == fails@.len(),
            spec_fail_positions(v).len() > 0 ==> v.first().timestamp < RFC3339_MAX
                && v.last().timestamp < RFC3339_MAX,
            forall|m2: int|
                0 <= m2 < runs@.len() ==> (#[trigger] runs@[m2]).0 <= runs@[m2].1 && (fails@.len()
                    > 0 && runs@[m2].1 <= fails@[fails@.len() - 1] && runs@[m2].0 >= fails@[0]),
            0 <= m <= runs@.len(),
            f@ == old(f)@ + spec_runs_text(v, rt.take(m as int)),
        decreases runs@.len() - m,
    {
        let (a, b) = runs[m];
        let vlen = view_idx.len();
        let mut group: Vec<usize> = Vec::new();
        let mut q: usize = a;
        while q <= b
            invariant
                vlen == view_idx@.len(),
                view_idx@.len() == v.len(),
                a <= q <= b + 1,
                b < vlen,
                group@.len() == q - a,
            decreases b + 1 - q,
        {
            group.push(view_idx[q]);
            q = q + 1;
        }
        let o = Outage::new(
            view_idx[0],
            Some(view_idx[view_idx.len() - 1]),
            group,
        );
        proof {
            assert(fails@.len() > 0);
            assert(v.first().timestamp < RFC3339_MAX);
            assert(v.last().timestamp < RFC3339_MAX);
            assert(store@[view_idx@[0] as int] == v[0]);
            assert(store@[view_idx@[view_idx@.len() - 1] as int] == v[v.len() - 1]);
            assert(cs@[view_idx@[0] as int]@ == v.first());
            assert(cs@[view_idx@[view_idx@.len() - 1] as int]@ == v.last());
        }
        let txt = match o.display(cs) {
            Some(t) => t,
            None => vstd::pervasive::unreached(),
        };
        f.append(txt.as_str());
        f.append("\n");
        proof {
            assert(rt.take(m + 1).drop_last() =~= rt.take(m as int));
            assert(rt.take(m + 1).last() == rt[m as int]);
            assert(cs@[view_idx@[0] as int]@ == v.first());
            assert(cs@[view_idx@[view_idx@.len() - 1] as int]@ == v.last());
            assert(f@ =~= old(f)@ + spec_runs_text(v, rt.take(m + 1)));
        }
        m = m + 1;
    }
    proof {
        assert(rt.take(rt.len() as int) =~= rt);
    }
}

/// Appends the outages section: `None` when the history is empty or holds
/// no failing check, whatever its timestamps, else the outage blocks of
/// every probe category. Fails with the formatting error, leaving the
/// report untouched, exactly when a timestamp some block shows cannot be
/// rendered.
pub fn outages(store: &Store, f: &mut String) -> (r: Result<(), AnalysisError>)
    ensures
        spec_outages_renderable(store@) ==> (r == Ok::<(), AnalysisError>(()) && final(f)@ == old(
            f,
        )@ + spec_outages_section(store@)),
        !spec_outages_renderable(store@) ==> (r == Err::<(), AnalysisError>(AnalysisError::Format)
            && final(f)@ == old(f)@),
{
    let cs = store.checks();
    let mut any_fail = false;
    let mut i: usize = 0;
    while i < cs.len()
        invariant
            cs@.len() == store@.len(),
            forall|j: int| 0 <= j < cs@.len() ==> cs@[j]@ == store@[j],
            0 <= i <= store@.len(),
            any_fail == (spec_fail_positions(store@.take(i as int)).len() > 0),
        decreases cs@.len() - i,
    {
        proof {
            assert(store@.take(i + 1).drop_last() =~= store@.take(i as int));
            assert(store@.take(i + 1).last() == store@[i as int]);
        }
        if !cs[i].is_success() {
            any_fail = true;
        }
        i = i + 1;
    }
    proof {
        assert(store@.take(store@.len() as int) =~= store@);
    }
    if cs.len() == 0 || !any_fail {
        f.append("None\n\n");
        return Ok(());
    }
    if !type_renderable(store, CheckType::Http) || !type_renderable(store, CheckType::IcmpV4)
        || !type_renderable(store, CheckType::IcmpV6) || !type_renderable(
        store,
        CheckType::Unknown,
    ) {
        return Err(AnalysisError::Format);
    }
    let ghost start = f@;
    type_outages(store, f, CheckType::Http);
    type_outages(store, f, CheckType::IcmpV4);
    type_outages(store, f, CheckType::IcmpV6);
    type_outages(store, f, CheckType::Unknown);
    proof {
        assert(f@ =~= start + spec_outages_section(store@));
    }
    Ok(())
}

/// The first `n` numbered lines of a displayed check group.
pub open spec fn spec_group_lines(g: Seq<CheckData>, n: nat) -> Seq<char>
    decreases n,
{
    if n == 0 {
        Seq::empty()
    } else {
        spec_group_lines(g, (n - 1) as nat) + spec_dec((n - 1) as nat) + ":\n"@ + "\t"@
            + spec_check_line(g[n - 1]) + "\n"@
    }
}

/// A displayed check group: an empty marker, or one indented numbered
/// line per check.
pub open spec fn spec_group_text(g: Seq<CheckData>) -> Seq<char> {
    if g.len() == 0 {
        "\t<Empty>\n"@
    } else {
        spec_group_lines(g, g.len())
    }
}

/// Appends a formatted list of checks: each with its index number and its
/// indented one-line rendering. Fails with the formatting error, leaving
/// the text untouched, when a timestamp cannot be rendered.
pub fn display_group(group: &Vec<Check>, f: &mut String) -> (r: Result<(), AnalysisError>)
    ensures
        spec_ts_in_range(checks_deep(group@)) ==> (r == Ok::<(), AnalysisError>(()) && final(f)@
            == old(f)@ + spec_group_text(checks_deep(group@))),
        !spec_ts_in_range(checks_deep(group@)) ==> (r == Err::<(), AnalysisError>(
            AnalysisError::Format,
        ) && final(f)@ == old(f)@),
{
    if !checks_ts_in_range(group) {
        return Err(AnalysisError::Format);
    }
    if group.len() == 0 {
        f.append("\t<Empty>\n");
        return Ok(());
    }
    let ghost start = f@;
    let ghost g = checks_deep(group@);
    let mut i: usize = 0;
    while i < group.len()
        invariant
            g == checks_deep(group@),
            g.len() == group@.len(),
            spec_ts_in_range(g),
            0 <= i <= group@.len(),
            f@ == start + spec_group_lines(g, i as nat),
        decreases group@.len() - i,
    {
        let num = dec_u64(i as u64);
        f.append(num.as_str());
        f.append(":\n");
        f.append("\t");
        proof {
            assert(g[i as int] == group@[i as int]@);
        }
        let line = match group[i].display() {
            Some(l) => l,
            None => vstd::pervasive::unreached(),
        };
        f.append(line.as_str());
        f.append("\n");
        proof {
            assert(f@ =~= start + spec_group_lines(g, (i + 1) as nat));
        }
        i = i + 1;
    }
    Ok(())
}

/// The store metadata section: the hash of the in-memory history and the
/// hash of the on-disk snapshot bytes.
pub open spec fn spec_meta(s: Seq<CheckData>, file_hash: u64) -> Seq<char> {
    spec_key_value("Hash Datastructure"@, spec_hex16(spec_store_hash(s))) + spec_key_value(
        "Hash Store File"@,
        spec_hex16(file_hash),
    )
}

/// Appends the store metadata section. The caller reads the store file
/// and hands its bytes in.
pub fn store_meta(store: &Store, f: &mut String, file_bytes: &Vec<u8>)
    ensures
        final(f)@ == old(f)@ + spec_meta(store@, spec_hash_bytes(HASH_SEED, file_bytes@)),
{
    let ghost start = f@;
    let h1 = store.display_hash();
    key_value_write(f, "Hash Datastructure", h1.as_str());
    let h2 = Store::display_hash_of_bytes(file_bytes);
    key_value_write(f, "Hash Store File", h2.as_str());
    proof {
        assert(f@ =~= start + spec_meta(store@, spec_hash_bytes(HASH_SEED, file_bytes@)));
    }
}

/// The whole report over a history and the hash input of the on-disk
/// snapshot: every section behind its titled divider.
pub open spec fn spec_report(s: Seq<CheckData>, file_hash: u64) -> Seq<char> {
    spec_barrier("General"@) + spec_stat_section(s, Selector::All) + spec_barrier("HTTP"@)
        + spec_stat_section(
        s,
        Selector::OfType(CheckType::Http),
    ) + spec_barrier("ICMPv4"@) + spec_stat_section(s, Selector::OfType(CheckType::IcmpV4))
        + spec_barrier("ICMPv6"@) + spec_stat_section(s, Selector::OfType(CheckType::IcmpV6))
        + spec_barrier("IPv4"@) + spec_stat_section(s, Selector::OfFamily(IpFamily::V4))
        + spec_barrier("IPv6"@) + spec_stat_section(s, Selector::OfFamily(IpFamily::V6))
        + spec_barrier("Outages"@) + spec_outages_section(s) + spec_barrier("Store Metadata"@)
        + spec_meta(s, file_hash)
}

/// What one analysis run produced: the report text and the non-fatal
/// warnings about checks with ambiguous family flags.
pub struct Analyzed {
    /// The full report.
    pub report: String,
    /// One warning per check whose family flags are ambiguous or absent.
    pub warnings: Vec<String>,
}

/// Whether the whole report can be rendered: every section's displayed
/// timestamps — each stat block's first and last, and the outage blocks'
/// view markers — lie below the rendering bound. Timestamps the report
/// never shows do not matter.
pub open spec fn spec_report_renderable(s: Seq<CheckData>) -> bool {
    &&& spec_stats_renderable(spec_stats(s, Selector::All))
    &&& spec_stats_renderable(spec_stats(s, Selector::OfType(CheckType::Http)))
    &&& spec_stats_renderable(spec_stats(s, Selector::OfType(CheckType::IcmpV4)))
    &&& spec_stats_renderable(spec_stats(s, Selector::OfType(CheckType::IcmpV6)))
    &&& spec_stats_renderable(spec_stats(s, Selector::OfFamily(IpFamily::V4)))
    &&& spec_stats_renderable(spec_stats(s, Selector::OfFamily(IpFamily::V6)))
    &&& spec_outages_renderable(s)
}

/// Generates the full analysis report over the store, together with the
/// flag warnings. A timestamp that some section would show but cannot
/// render aborts the report with the formatting error; the caller reads
/// the store file and hands its bytes in, and when it could not, the
/// report is aborted with the underlying store error. No partial report
/// is ever returned.
#[verifier::rlimit(50)]
pub fn analyze(store: &Store, file_bytes: Option<&Vec<u8>>) -> (r: Result<Analyzed, AnalysisError>)
    ensures
        !spec_report_renderable(store@) ==> r == Err::<Analyzed, AnalysisError>(
            AnalysisError::Format,
        ),
        spec_report_renderable(store@) && file_bytes is None ==> r == Err::<
            Analyzed,
            AnalysisError,
        >(AnalysisError::Store(StoreError::Io)),
        file_bytes matches Some(b) ==> (spec_report_renderable(store@) ==> (r matches Ok(a) && {
            &&& a.report@ == spec_report(store@, spec_hash_bytes(HASH_SEED, b@))
            &&& a.warnings@.len() == spec_anomalous(store@).len()
            &&& forall|j: int|
                0 <= j < a.warnings@.len() ==> (#[trigger] a.warnings@[j])@ == spec_warning_text(
                    spec_anomalous(store@)[j],
                )
        })),
{
    let mut f = String::new();
    barrier(&mut f, "General");
    match generalized(store, &mut f) {
        Ok(()) => {},
        Err(e) => {
            return Err(e);
        },
    }
    barrier(&mut f, "HTTP");
    match generic_type_analyze(store, &mut f, CheckType::Http) {
        Ok(()) => {},
        Err(e) => {
            return Err(e);
        },
    }
    barrier(&mut f, "ICMPv4");
    match generic_type_analyze(store, &mut f, CheckType::IcmpV4) {
        Ok(()) => {},
        Err(e) => {
            return Err(e);
        },
    }
    barrier(&mut f, "ICMPv6");
    match generic_type_analyze(store, &mut f, CheckType::IcmpV6) {
        Ok(()) => {},
        Err(e) => {
            return Err(e);
        },
    }
    barrier(&mut f, "IPv4");
    match gereric_ip_analyze(store, &mut f, IpFamily::V4) {
        Ok(()) => {},
        Err(e) => {
            return Err(e);
        },
    }
    barrier(&mut f, "IPv6");
    match gereric_ip_analyze(store, &mut f, IpFamily::V6) {
        Ok(()) => {},
        Err(e) => {
            return Err(e);
        },
    }
    barrier(&mut f, "Outages");
    match outages(store, &mut f) {
        Ok(()) => {},
        Err(e) => {
            return Err(e);
        },
    }
    let bytes = match file_bytes {
        None => {
            return Err(AnalysisError::Store(StoreError::Io));
        },
        Some(b) => b,
    };
    barrier(&mut f, "Store Metadata");
    store_meta(store, &mut f, bytes);
    let warnings = flag_warnings(store);
    proof {
        assert(f@ =~= spec_report(store@, spec_hash_bytes(HASH_SEED, bytes@)));
    }
    Ok(Analyzed { report: f, warnings })
}

} // verus!
