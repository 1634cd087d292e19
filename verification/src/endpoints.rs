//! What the status and health endpoints answer, from the programs' lifecycles.
use vstd::prelude::*;
use vstd::string::*;

use crate::supervisor::caretaker::{HealthState, Lifecycle};

verus! {

/// The label of a health state.
pub open spec fn health_label_of(h: HealthState) -> Seq<char> {
    match h {
        HealthState::Healthy => "Healthy"@,
        HealthState::Unhealthy => "Unhealthy"@,
        HealthState::Unknown => "Unknown"@,
    }
}

/// The label of a lifecycle, as its debug form reads.
pub open spec fn lifecycle_label_of(l: Lifecycle) -> Seq<char> {
    match l {
        Lifecycle::Starting => "Starting"@,
        Lifecycle::Running(h) => "Running("@ + health_label_of(h) + ")"@,
        Lifecycle::Terminating => "Terminating"@,
        Lifecycle::Terminated => "Terminated"@,
        Lifecycle::Failed => "Failed"@,
    }
}

/// The label of a lifecycle, as its debug form reads.
pub fn lifecycle_label(l: Lifecycle) -> (s: String)
    ensures
        s@ == lifecycle_label_of(l),
{
    match l {
        Lifecycle::Starting => String::from_str("Starting"),
        Lifecycle::Running(h) => {
            let mut s = String::from_str("Running(");
            match h {
                HealthState::Healthy => s.append("Healthy"),
                HealthState::Unhealthy => s.append("Unhealthy"),
                HealthState::Unknown => s.append("Unknown"),
            }
            s.append(")");
            s
        },
        Lifecycle::Terminating => String::from_str("Terminating"),
        Lifecycle::Terminated => String::from_str("Terminated"),
        Lifecycle::Failed => String::from_str("Failed"),
    }
}

/// The names and lifecycles of the programs, as plain values.
pub open spec fn statuses_view(statuses: Seq<(String, Lifecycle)>) -> Seq<(Seq<char>, Lifecycle)> {
    statuses.map_values(|p: (String, Lifecycle)| (p.0@, p.1))
}

/// The answer of the status endpoint: each program's name with the label of
/// its lifecycle, in the given order.
pub fn status_entries(statuses: &Vec<(String, Lifecycle)>) -> (r: Vec<(String, String)>)
    ensures
        r@.map_values(|p: (String, String)| (p.0@, p.1@))
            == statuses_view(statuses@).map_values(|p: (Seq<char>, Lifecycle)| (p.0, lifecycle_label_of(p.1))),
{
    let mut r: Vec<(String, String)> = Vec::new();
    let n = statuses.len();
    let mut i: usize = 0;
    while i < n
        invariant
            i <= n,
            n == statuses@.len(),
            r@.map_values(|p: (String, String)| (p.0@, p.1@))
                == statuses_view(statuses@).map_values(|p: (Seq<char>, Lifecycle)| (p.0, lifecycle_label_of(p.1))).take(i as int),
        decreases n - i,
    {
        let name = statuses[i].0.clone();
        let label = lifecycle_label(statuses[i].1);
        let ghost before = r@;
        assert(before.map_values(|p: (String, String)| (p.0@, p.1@)).len() == before.len());
        r.push((name, label));
        assert(r@.map_values(|p: (String, String)| (p.0@, p.1@))
            =~= statuses_view(statuses@).map_values(|p: (Seq<char>, Lifecycle)| (p.0, lifecycle_label_of(p.1))).take(i + 1));
        i = i + 1;
    }
    assert(statuses_view(statuses@).map_values(|p: (Seq<char>, Lifecycle)| (p.0, lifecycle_label_of(p.1))).take(n as int)
        =~= statuses_view(statuses@).map_values(|p: (Seq<char>, Lifecycle)| (p.0, lifecycle_label_of(p.1))));
    r
}

/// Whether a program counts as healthy: running, with healthy checks.
pub open spec fn is_healthy(l: Lifecycle) -> bool {
    l == Lifecycle::Running(HealthState::Healthy)
}

/// The names of the programs that do not count as healthy, in order.
pub open spec fn unhealthy_names(statuses: Seq<(Seq<char>, Lifecycle)>) -> Seq<Seq<char>>
    decreases statuses.len(),
{
    if statuses.len() == 0 {
        Seq::empty()
    } else {
        let rest = unhealthy_names(statuses.drop_last());
        if is_healthy(statuses.last().1) {
            rest
        } else {
            rest.push(statuses.last().0)
        }
    }
}

/// The answer of the health endpoint: the names of the programs that are not
/// running healthily, in order. All is well where there is none.
pub fn unhealthy_programs(statuses: &Vec<(String, Lifecycle)>) -> (bad: Vec<String>)
    ensures
        bad@.map_values(|s: String| s@) == unhealthy_names(statuses_view(statuses@)),
        bad@.map_values(|s: String| s@) == statuses_view(statuses@).filter(|p: (Seq<char>, Lifecycle)| reported(p))
            .map_values(|p: (Seq<char>, Lifecycle)| p.0),
{
    proof { lemma_unhealthy_names_are_the_unhealthy_programs(statuses_view(statuses@)); }
    let mut bad: Vec<String> = Vec::new();
    let n = statuses.len();
    let mut i: usize = 0;
    while i < n
        invariant
            i <= n,
            n == statuses@.len(),
            bad@.map_values(|s: String| s@) == unhealthy_names(statuses_view(statuses@).take(i as int)),
        decreases n - i,
    {
        let ghost before = bad@;
        assert(statuses_view(statuses@).take(i + 1).drop_last() =~= statuses_view(statuses@).take(i as int));
        assert(statuses_view(statuses@).take(i + 1).last() == (statuses@[i as int].0@, statuses@[i as int].1));
        let healthy = match statuses[i].1 {
            Lifecycle::Running(HealthState::Healthy) => true,
            _ => false,
        };
        if !healthy {
            bad.push(statuses[i].0.clone());
            assert(bad@.map_values(|s: String| s@) =~= before.map_values(|s: String| s@).push(statuses@[i as int].0@));
        }
        i = i + 1;
    }
    assert(statuses_view(statuses@).take(n as int) =~= statuses_view(statuses@));
    bad
}

/// Every program is reported unhealthy unless it runs with healthy checks,
/// and each program that is not is reported.
pub proof fn lemma_unhealthy_names_exact(statuses: Seq<(Seq<char>, Lifecycle)>)
    ensures
        unhealthy_names(statuses).len() == 0 <==> forall|i: int| 0 <= i < statuses.len() ==> is_healthy(#[trigger] statuses[i].1),
        forall|i: int| 0 <= i < statuses.len() && !is_healthy(#[trigger] statuses[i].1)
            ==> unhealthy_names(statuses).contains(statuses[i].0),
    decreases statuses.len(),
{
    if statuses.len() > 0 {
        let rest = statuses.drop_last();
        lemma_unhealthy_names_exact(rest);
        assert forall|i: int| 0 <= i < statuses.len() && !is_healthy(#[trigger] statuses[i].1)
            implies unhealthy_names(statuses).contains(statuses[i].0) by {
            if i < statuses.len() - 1 {
                assert(rest[i] == statuses[i]);
                let k = choose|k: int| 0 <= k < unhealthy_names(rest).len() && unhealthy_names(rest)[k] == statuses[i].0;
                if !is_healthy(statuses.last().1) {
                    assert(unhealthy_names(statuses)[k] == statuses[i].0);
                }
            } else {
                assert(unhealthy_names(statuses).last() == statuses[i].0);
            }
        }
        if unhealthy_names(statuses).len() == 0 {
            assert forall|i: int| 0 <= i < statuses.len() implies is_healthy(#[trigger] statuses[i].1) by {
                if i < statuses.len() - 1 {
                    assert(rest[i] == statuses[i]);
                }
            }
        }
    }
}

/// Whether a program is to be reported: it does not run with healthy checks.
pub open spec fn reported(p: (Seq<char>, Lifecycle)) -> bool {
    !is_healthy(p.1)
}

/// The health endpoint lists exactly the programs that are not running
/// healthily, by name and in their order: the programs are kept where they
/// are not healthy, dropped where they are, and nothing else changes. In
/// particular no program running with healthy checks is listed, wherever it
/// stands.
pub proof fn lemma_unhealthy_names_are_the_unhealthy_programs(statuses: Seq<(Seq<char>, Lifecycle)>)
    ensures
        unhealthy_names(statuses) == statuses.filter(|p: (Seq<char>, Lifecycle)| reported(p))
            .map_values(|p: (Seq<char>, Lifecycle)| p.0),
    decreases statuses.len(),
{
    let f = |p: (Seq<char>, Lifecycle)| reported(p);
    let g = |p: (Seq<char>, Lifecycle)| p.0;
    if statuses.len() == 0 {
        assert(statuses.filter(f) =~= Seq::<(Seq<char>, Lifecycle)>::empty()) by {
            reveal_with_fuel(Seq::filter, 1);
        }
        assert(statuses.filter(f).map_values(g) =~= Seq::<Seq<char>>::empty());
    } else {
        let rest = statuses.drop_last();
        lemma_unhealthy_names_are_the_unhealthy_programs(rest);
        assert(rest.push(statuses.last()) =~= statuses);
        rest.lemma_filter_push(statuses.last(), f);
        if f(statuses.last()) {
            assert(rest.filter(f).push(statuses.last()).map_values(g) =~= rest.filter(f).map_values(g).push(statuses.last().0));
        }
    }
}

} // verus!
