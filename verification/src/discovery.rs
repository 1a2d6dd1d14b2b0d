//! Finding monitors: which sysfs entries are connectors, how a read EDID is
//! parsed, and the order monitors are listed in. Reading sysfs and asking
//! Hyprland is the caller's.
use crate::edid::{parse_edid, spec_parse_edid, EdidError};
use crate::models::{ConnectorStatus, EdidData, EdidDataView};
use crate::text::{insert_sorted, strictly_sorted, lemma_lex_transitive, lex_lt, str_equal, chars_of, find_char, join_path, lemma_char_index_from, matches_at, path_join, push_str, slice_chars, starts_at, string_of, char_index_from};
use vstd::prelude::*;

verus! {

/// Why a connector's EDID could not be had: the file could not be read (its
/// path and the system's message), or its bytes are no EDID.
#[derive(Debug)]
pub enum EdidReadError {
    Io { path: String, source: String },
    Parse(EdidError),
}

/// The EDID of a connector from what reading `edid_path` gave.
pub fn read_edid(edid_path: &str, read: Result<Vec<u8>, String>) -> (r: Result<EdidData, EdidReadError>)
    ensures
        match read {
            Err(e) => r matches Err(EdidReadError::Io { path, source }) && path@ == edid_path@
                && source@ == e@,
            Ok(raw) => match r {
                Ok(data) => spec_parse_edid(raw@) == Ok::<EdidDataView, EdidError>(data.deep_view()),
                Err(EdidReadError::Parse(e)) => spec_parse_edid(raw@) == Err::<EdidDataView, EdidError>(e),
                Err(EdidReadError::Io { .. }) => false,
            },
        },
{
    match read {
        Err(source) => Err(EdidReadError::Io { path: String::from_str(edid_path), source }),
        Ok(raw) => match parse_edid(raw) {
            Ok(data) => Ok(data),
            Err(e) => Err(EdidReadError::Parse(e)),
        },
    }
}

/// The connector a sysfs entry named `name` stands for: a `cardN-NAME` entry
/// that has a status file gives `NAME`, the part after the first `-`.
pub open spec fn spec_connector_name(name: Seq<char>, status_exists: bool) -> Option<Seq<char>> {
    if !starts_at(name, 0, "card"@) || !status_exists {
        None
    } else {
        match char_index_from(name, '-', 0) {
            Some(i) => Some(name.skip(i + 1)),
            None => None,
        }
    }
}

pub fn connector_name_from_sysfs_path(name: &str, status_exists: bool) -> (r: Option<String>)
    ensures
        r.deep_view() == spec_connector_name(name@, status_exists),
{
    let chars = chars_of(name);
    if !matches_at(&chars, 0, &chars_of("card")) || !status_exists {
        return None;
    }
    match find_char(&chars, '-', 0) {
        Some(i) => {
            proof {
                lemma_char_index_from(chars@, '-', 0);
            }
            assert(i < chars.len());
            let rest = slice_chars(&chars, i + 1, chars.len());
            assert(rest@ =~= chars@.skip(i + 1));
            Some(string_of(&rest))
        },
        None => None,
    }
}

/// A value Hyprland reports, with an empty one taken as absent.
pub fn empty_to_none(value: Option<String>) -> (r: Option<String>)
    ensures
        r.deep_view() == match value {
            Some(v) => if v@.len() == 0 {
                None
            } else {
                Some(v@)
            },
            None => None,
        },
{
    match value {
        Some(v) => if chars_of(v.as_str()).len() == 0 {
            None
        } else {
            Some(v)
        },
        None => None,
    }
}

/// The sysfs directory of a card's connector: `ROOT/CARD-CONNECTOR`.
pub fn connector_sysfs_path(root: &str, card: &str, connector: &str) -> (r: String)
    ensures
        r@ == path_join(root@, card@ + seq!['-'] + connector@),
{
    let mut name = String::from_str(card);
    push_str(&mut name, "-");
    push_str(&mut name, connector);
    proof {
        reveal_strlit("-");
    }
    join_path(root, name.as_str())
}

/// Where a monitor sorts: the focused one first, then connected ones with an
/// EDID, connected ones without, others with an EDID, others Hyprland knows,
/// unknown ports, and disconnected ports last.
pub open spec fn spec_monitor_sort_rank(
    focused: bool,
    status: ConnectorStatus,
    has_edid: bool,
    has_hyprland: bool,
) -> u8 {
    if focused {
        0
    } else if status == ConnectorStatus::Connected {
        if has_edid {
            1
        } else {
            2
        }
    } else if has_edid {
        3
    } else if has_hyprland {
        4
    } else if status == ConnectorStatus::Unknown {
        5
    } else {
        6
    }
}

pub fn monitor_sort_rank(focused: bool, status: ConnectorStatus, has_edid: bool, has_hyprland: bool) -> (r:
    u8)
    ensures
        r == spec_monitor_sort_rank(focused, status, has_edid, has_hyprland),
        r <= 6,
{
    if focused {
        0
    } else {
        match (status, has_edid, has_hyprland) {
            (ConnectorStatus::Connected, true, _) => 1,
            (ConnectorStatus::Connected, false, _) => 2,
            (_, true, _) => 3,
            (_, _, true) => 4,
            (ConnectorStatus::Unknown, false, false) => 5,
            (ConnectorStatus::Disconnected, false, false) => 6,
        }
    }
}


/// A connector found under sysfs, with what its rank depends on.
#[derive(Debug, Clone, PartialEq, Eq)]
pub struct SysfsConnector {
    pub name: String,
    pub status: ConnectorStatus,
    pub has_edid: bool,
}

/// A monitor Hyprland reports: its connector name and whether it has focus.
#[derive(Debug, Clone, PartialEq, Eq)]
pub struct ReportedMonitor {
    pub name: String,
    pub focused: bool,
}

/// One monitor of the list: its connector name, the sysfs entry and the
/// Hyprland entry that stand for it (by index), and its rank.
#[derive(Debug, Clone, PartialEq, Eq)]
pub struct MonitorSlot {
    pub name: String,
    pub sysfs: Option<usize>,
    pub hyprland: Option<usize>,
    pub rank: u8,
}

pub open spec fn opt_int(o: Option<usize>) -> Option<int> {
    match o {
        Some(i) => Some(i as int),
        None => None,
    }
}

/// How a sysfs entry ranks before Hyprland is asked.
pub open spec fn candidate_rank(c: SysfsConnector) -> u8 {
    spec_monitor_sort_rank(false, c.status, c.has_edid, false)
}

/// The sysfs entry that stands for `name` when a connector shows up more than
/// once: the first of those with the best rank.
pub open spec fn chosen_sysfs(s: Seq<SysfsConnector>, name: Seq<char>) -> Option<int>
    decreases s.len(),
{
    if s.len() == 0 {
        None
    } else {
        let prev = chosen_sysfs(s.drop_last(), name);
        if s.last().name@ == name && match prev {
            None => true,
            Some(p) => candidate_rank(s.last()) < candidate_rank(s[p]),
        } {
            Some(s.len() - 1)
        } else {
            prev
        }
    }
}

/// The Hyprland entry that stands for `name`: the last one of that name.
pub open spec fn reported_index(h: Seq<ReportedMonitor>, name: Seq<char>) -> Option<int>
    decreases h.len(),
{
    if h.len() == 0 {
        None
    } else if h.last().name@ == name {
        Some(h.len() - 1)
    } else {
        reported_index(h.drop_last(), name)
    }
}

/// The rank of the monitor called `name` once sysfs and Hyprland are merged;
/// a name only Hyprland knows has an unknown status and no EDID.
pub open spec fn merged_rank(s: Seq<SysfsConnector>, h: Seq<ReportedMonitor>, name: Seq<char>) -> u8 {
    let reported = reported_index(h, name);
    let focused = match reported {
        Some(j) => h[j].focused,
        None => false,
    };
    match chosen_sysfs(s, name) {
        Some(i) => spec_monitor_sort_rank(focused, s[i].status, s[i].has_edid, reported is Some),
        None => spec_monitor_sort_rank(focused, ConnectorStatus::Unknown, false, reported is Some),
    }
}

/// Whether sysfs or Hyprland knows a connector called `name`.
pub open spec fn known_name(s: Seq<SysfsConnector>, h: Seq<ReportedMonitor>, name: Seq<char>) -> bool {
    (exists|i: int| 0 <= i < s.len() && #[trigger] s[i].name@ == name) || (exists|j: int|
        0 <= j < h.len() && #[trigger] h[j].name@ == name)
}

/// Whether `a` is listed before `b`: by rank, then by connector name.
pub open spec fn slot_before(a: MonitorSlot, b: MonitorSlot) -> bool {
    a.rank < b.rank || (a.rank == b.rank && lex_lt(a.name@, b.name@))
}

/// The slot the merge gives the monitor called `name`.
pub open spec fn slot_for(s: Seq<SysfsConnector>, h: Seq<ReportedMonitor>, slot: MonitorSlot) -> bool {
    &&& opt_int(slot.sysfs) == chosen_sysfs(s, slot.name@)
    &&& opt_int(slot.hyprland) == reported_index(h, slot.name@)
    &&& slot.rank == merged_rank(s, h, slot.name@)
}


fn choose_sysfs(s: &Vec<SysfsConnector>, name: &str) -> (r: Option<usize>)
    ensures
        opt_int(r) == chosen_sysfs(s@, name@),
        r matches Some(i) ==> i < s@.len(),
{
    let mut best: Option<usize> = None;
    let mut i: usize = 0;
    assert(s@.take(0) =~= Seq::<SysfsConnector>::empty());
    while i < s.len()
        invariant
            i <= s@.len(),
            opt_int(best) == chosen_sysfs(s@.take(i as int), name@),
            best matches Some(b) ==> b < i,
        decreases s@.len() - i,
    {
        let ghost t = s@.take(i + 1);
        assert(t.drop_last() =~= s@.take(i as int));
        assert(t.last() == s@[i as int]);
        if str_equal(s[i].name.as_str(), name) {
            let better = match best {
                None => true,
                Some(b) => {
                    assert(t[b as int] == s@[b as int]);
                    monitor_sort_rank(false, s[i].status, s[i].has_edid, false) < monitor_sort_rank(
                        false,
                        s[b].status,
                        s[b].has_edid,
                        false,
                    )
                },
            };
            if better {
                best = Some(i);
            }
        }
        i = i + 1;
    }
    assert(s@.take(s@.len() as int) =~= s@);
    best
}

fn find_reported(h: &Vec<ReportedMonitor>, name: &str) -> (r: Option<usize>)
    ensures
        opt_int(r) == reported_index(h@, name@),
        r matches Some(j) ==> j < h@.len(),
{
    let mut found: Option<usize> = None;
    let mut i: usize = 0;
    assert(h@.take(0) =~= Seq::<ReportedMonitor>::empty());
    while i < h.len()
        invariant
            i <= h@.len(),
            opt_int(found) == reported_index(h@.take(i as int), name@),
            found matches Some(b) ==> b < i,
        decreases h@.len() - i,
    {
        let ghost t = h@.take(i + 1);
        assert(t.drop_last() =~= h@.take(i as int));
        if str_equal(h[i].name.as_str(), name) {
            found = Some(i);
        }
        i = i + 1;
    }
    assert(h@.take(h@.len() as int) =~= h@);
    found
}

fn make_slot(s: &Vec<SysfsConnector>, h: &Vec<ReportedMonitor>, name: String) -> (r: MonitorSlot)
    ensures
        r.name@ == name@,
        slot_for(s@, h@, r),
{
    let sysfs = choose_sysfs(s, name.as_str());
    let hyprland = find_reported(h, name.as_str());
    let focused = match hyprland {
        Some(j) => h[j].focused,
        None => false,
    };
    let rank = match sysfs {
        Some(i) => monitor_sort_rank(focused, s[i].status, s[i].has_edid, hyprland.is_some()),
        None => monitor_sort_rank(focused, ConnectorStatus::Unknown, false, hyprland.is_some()),
    };
    MonitorSlot { name, sysfs, hyprland, rank }
}


/// The names sysfs lists before `a` and Hyprland before `b`.
pub open spec fn names_before(s: Seq<SysfsConnector>, a: int, h: Seq<ReportedMonitor>, b: int) -> Set<Seq<char>> {
    Set::new(
        |n: Seq<char>|
            (exists|i: int| 0 <= i < a && #[trigger] s[i].name@ == n) || (exists|j: int|
                0 <= j < b && #[trigger] h[j].name@ == n),
    )
}

/// Every connector name that sysfs or Hyprland knows, each once, in name order.
fn known_names(s: &Vec<SysfsConnector>, h: &Vec<ReportedMonitor>) -> (r: Vec<Vec<char>>)
    ensures
        strictly_sorted(r.deep_view()),
        r.deep_view().to_set() == names_before(s@, s@.len() as int, h@, h@.len() as int),
{
    let mut names: Vec<Vec<char>> = Vec::new();
    assert(names.deep_view().to_set() =~= names_before(s@, 0, h@, 0));
    let mut i: usize = 0;
    while i < s.len()
        invariant
            i <= s@.len(),
            strictly_sorted(names.deep_view()),
            names.deep_view().to_set() == names_before(s@, i as int, h@, 0),
        decreases s@.len() - i,
    {
        let ghost before = names.deep_view().to_set();
        let x = chars_of(s[i].name.as_str());
        insert_sorted(&mut names, x);
        assert(names.deep_view().to_set() =~= names_before(s@, i + 1, h@, 0)) by {
            assert forall|n: Seq<char>| names_before(s@, i + 1, h@, 0).contains(n) implies before.insert(
                s@[i as int].name@,
            ).contains(n) by {
                let k = choose|k: int| 0 <= k < i + 1 && #[trigger] s@[k].name@ == n;
                if k < i {
                    assert(names_before(s@, i as int, h@, 0).contains(n));
                }
            }
            assert forall|n: Seq<char>| before.insert(s@[i as int].name@).contains(n) implies names_before(
                s@,
                i + 1,
                h@,
                0,
            ).contains(n) by {
                if n != s@[i as int].name@ {
                    assert(names_before(s@, i as int, h@, 0).contains(n));
                    let k = choose|k: int| 0 <= k < i && #[trigger] s@[k].name@ == n;
                    assert(s@[k].name@ == n);
                } else {
                    assert(s@[i as int].name@ == n);
                }
            }
        }
        i = i + 1;
    }
    let mut j: usize = 0;
    while j < h.len()
        invariant
            j <= h@.len(),
            strictly_sorted(names.deep_view()),
            names.deep_view().to_set() == names_before(s@, s@.len() as int, h@, j as int),
        decreases h@.len() - j,
    {
        let ghost before = names.deep_view().to_set();
        let ghost a = s@.len() as int;
        let x = chars_of(h[j].name.as_str());
        insert_sorted(&mut names, x);
        assert(names.deep_view().to_set() =~= names_before(s@, a, h@, j + 1)) by {
            assert forall|n: Seq<char>| names_before(s@, a, h@, j + 1).contains(n) implies before.insert(
                h@[j as int].name@,
            ).contains(n) by {
                if exists|k: int| 0 <= k < a && #[trigger] s@[k].name@ == n {
                    assert(names_before(s@, a, h@, j as int).contains(n));
                } else {
                    let k = choose|k: int| 0 <= k < j + 1 && #[trigger] h@[k].name@ == n;
                    if k < j {
                        assert(names_before(s@, a, h@, j as int).contains(n));
                    }
                }
            }
            assert forall|n: Seq<char>| before.insert(h@[j as int].name@).contains(n) implies names_before(
                s@,
                a,
                h@,
                j + 1,
            ).contains(n) by {
                if n != h@[j as int].name@ {
                    assert(names_before(s@, a, h@, j as int).contains(n));
                    if exists|k: int| 0 <= k < a && #[trigger] s@[k].name@ == n {
                    } else {
                        let k = choose|k: int| 0 <= k < j && #[trigger] h@[k].name@ == n;
                        assert(h@[k].name@ == n);
                    }
                } else {
                    assert(h@[j as int].name@ == n);
                }
            }
        }
        j = j + 1;
    }
    names
}


fn copy_slot(x: &MonitorSlot) -> (r: MonitorSlot)
    ensures
        r == *x,
{
    MonitorSlot { name: x.name.clone(), sysfs: x.sysfs, hyprland: x.hyprland, rank: x.rank }
}

/// The monitors to list, one per connector name that sysfs or Hyprland
/// knows: each with the sysfs entry that stands for it (the first of the
/// best-ranked entries of that name), the Hyprland entry (the last of that
/// name) and its rank once both are merged; listed by rank, then by name.
pub fn monitor_slots(s: &Vec<SysfsConnector>, h: &Vec<ReportedMonitor>) -> (r: Vec<MonitorSlot>)
    ensures
        forall|k: int| 0 <= k < r@.len() ==> slot_for(s@, h@, #[trigger] r@[k]),
        forall|k: int| 0 <= k < r@.len() ==> known_name(s@, h@, #[trigger] r@[k].name@),
        forall|n: Seq<char>| known_name(s@, h@, n) ==> exists|k: int| 0 <= k < r@.len() && #[trigger] r@[k].name@ == n,
        forall|k1: int, k2: int| 0 <= k1 < k2 < r@.len() ==> slot_before(#[trigger] r@[k1], #[trigger] r@[k2]),
{
    let names = known_names(s, h);
    let ghost nv = names.deep_view();
    let ghost n = nv.len();
    let mut all: Vec<MonitorSlot> = Vec::new();
    let mut m: usize = 0;
    while m < names.len()
        invariant
            nv == names.deep_view(),
            n == nv.len(),
            m <= n,
            all@.len() == m,
            forall|t: int| 0 <= t < m ==> (#[trigger] all@[t]).name@ == nv[t] && slot_for(s@, h@, all@[t]),
        decreases n - m,
    {
        let slot = make_slot(s, h, string_of(&names[m]));
        proof {
            crate::text::lemma_chars_deep_view(names@[m as int]);
        }
        all.push(slot);
        m = m + 1;
    }
    let mut r: Vec<MonitorSlot> = Vec::new();
    let ghost mut org: Seq<int> = Seq::empty();
    let mut rho: u8 = 0;
    while rho <= 6
        invariant
            rho <= 7,
            n == nv.len(),
            strictly_sorted(nv),
            all@.len() == n,
            forall|t: int| 0 <= t < n ==> (#[trigger] all@[t]).name@ == nv[t] && slot_for(s@, h@, all@[t]),
            forall|t1: int, t2: int| 0 <= t1 < t2 < r@.len() ==> slot_before(#[trigger] r@[t1], #[trigger] r@[t2]),
            org.len() == r@.len(),
            forall|t: int| 0 <= t < r@.len() ==> 0 <= #[trigger] org[t] < n && r@[t] == all@[org[t]],
            forall|t: int| 0 <= t < r@.len() ==> (#[trigger] r@[t]).rank < rho,
            forall|q: int| 0 <= q < n && (#[trigger] all@[q]).rank < rho ==> exists|t: int| 0 <= t < org.len() && #[trigger] org[t] == q,
        decreases 7 - rho,
    {
        let mut k: usize = 0;
        while k < all.len()
            invariant
                rho <= 6,
                k <= n,
                n == nv.len(),
                strictly_sorted(nv),
                all@.len() == n,
                forall|t: int| 0 <= t < n ==> (#[trigger] all@[t]).name@ == nv[t] && slot_for(s@, h@, all@[t]),
                forall|t1: int, t2: int| 0 <= t1 < t2 < r@.len() ==> slot_before(#[trigger] r@[t1], #[trigger] r@[t2]),
                org.len() == r@.len(),
                forall|t: int| 0 <= t < r@.len() ==> 0 <= #[trigger] org[t] < n && r@[t] == all@[org[t]],
                forall|t: int| 0 <= t < r@.len() ==> (#[trigger] r@[t]).rank <= rho,
                forall|t: int| 0 <= t < r@.len() && (#[trigger] r@[t]).rank == rho ==> org[t] < k,
                forall|q: int| 0 <= q < n && ((#[trigger] all@[q]).rank < rho || (all@[q].rank == rho && q < k)) ==> exists|t: int| 0 <= t < org.len() && #[trigger] org[t] == q,
            decreases n - k,
        {
            if all[k].rank == rho {
                let ghost old_r = r@;
                let ghost old_org = org;
                let x = copy_slot(&all[k]);
                r.push(x);
                proof {
                    org = org.push(k as int);
                    let len = old_r.len();
                    assert(r@[len as int] == all@[k as int]);
                    assert forall|t: int| 0 <= t < r@.len() implies 0 <= #[trigger] org[t] < n && r@[t] == all@[org[t]] by {
                        if t < len {
                            assert(r@[t] == old_r[t] && org[t] == old_org[t]);
                        }
                    }
                    assert forall|t1: int, t2: int| 0 <= t1 < t2 < r@.len() implies slot_before(#[trigger] r@[t1], #[trigger] r@[t2]) by {
                        if t2 == len {
                            assert(r@[t1] == old_r[t1]);
                            if old_r[t1].rank == rho {
                                let o = old_org[t1];
                                assert(o < k);
                                assert(all@[o].name@ == nv[o]);
                                assert(all@[k as int].name@ == nv[k as int]);
                                assert(lex_lt(nv[o], nv[k as int]));
                            }
                        } else {
                            assert(r@[t1] == old_r[t1] && r@[t2] == old_r[t2]);
                        }
                    }
                    assert forall|t: int| 0 <= t < r@.len() && (#[trigger] r@[t]).rank == rho implies org[t] < k + 1 by {
                        if t < len {
                            assert(r@[t] == old_r[t] && org[t] == old_org[t]);
                        }
                    }
                    assert forall|q: int| #![trigger all@[q]] 0 <= q < n && (all@[q].rank < rho || (all@[q].rank == rho && q < k + 1)) implies exists|t: int| 0 <= t < org.len() && #[trigger] org[t] == q by {
                        if q == k {
                            assert(org[len as int] == q);
                        } else {
                            let t = choose|t: int| 0 <= t < old_org.len() && #[trigger] old_org[t] == q;
                            assert(org[t] == q);
                        }
                    }
                }
            }
            k = k + 1;
        }
        rho = rho + 1;
    }
    proof {
        assert forall|k: int| 0 <= k < r@.len() implies slot_for(s@, h@, #[trigger] r@[k]) && known_name(s@, h@, r@[k].name@) by {
            let q = org[k];
            assert(all@[q].name@ == nv[q]);
            assert(nv.to_set().contains(nv[q]));
            let nm = nv[q];
            assert(names_before(s@, s@.len() as int, h@, h@.len() as int).contains(nm));
        }
        assert forall|nm: Seq<char>| known_name(s@, h@, nm) implies exists|k: int| 0 <= k < r@.len() && #[trigger] r@[k].name@ == nm by {
            if exists|i: int| 0 <= i < s@.len() && #[trigger] s@[i].name@ == nm {
                let i = choose|i: int| 0 <= i < s@.len() && #[trigger] s@[i].name@ == nm;
                assert(names_before(s@, s@.len() as int, h@, h@.len() as int).contains(nm));
            } else {
                let j = choose|j: int| 0 <= j < h@.len() && #[trigger] h@[j].name@ == nm;
                assert(names_before(s@, s@.len() as int, h@, h@.len() as int).contains(nm));
            }
            assert(nv.to_set().contains(nm));
            let q = choose|q: int| 0 <= q < nv.len() && nv[q] == nm;
            assert(all@[q].name@ == nv[q]);
            let t = choose|t: int| 0 <= t < org.len() && #[trigger] org[t] == q;
            assert(r@[t].name@ == nm);
        }
    }
    r
}

} // verus!
