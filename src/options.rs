use vstd::prelude::*;
use crate::text::{strings_view, prefixed_padded, contains_name};
use crate::timestamp::padded_digits;
use crate::report::{Chart, ChartsName};

verus! {

/// What to analyse in capture files.
#[derive(Clone, Copy, Debug, PartialEq, Eq, Structural)]
pub struct RunNmonArgs {
    pub html: bool,
    pub cpu: bool,
    pub mem_free: bool,
    pub mem_active: bool,
    pub mem_swap: bool,
    pub jfsfile: bool,
    pub disk_busy: bool,
    pub disk_io: bool,
    pub disk_summary: bool,
    pub net: bool,
}

/// The capture files to read, where the report goes, and what to analyse.
#[derive(Clone, Debug)]
pub struct NmonArgs {
    path: Vec<String>,
    html_output: String,
    run_nmon_args: RunNmonArgs,
}

/// The per-processor metric `CPU` followed by `i` written with `width` digits.
pub open spec fn cpu_label(i: nat, width: nat) -> Seq<char> {
    "CPU"@ + padded_digits(i, width)
}

/// The per-processor metric names: one, two and three digit numbers.
pub open spec fn is_cpu_label(s: Seq<char>) -> bool {
    exists|i: nat, w: nat| #![trigger cpu_label(i, w)]
        ((w == 1 && i < 10) || (w == 2 && i < 100) || (w == 3 && i < 1000)) && s == cpu_label(i, w)
}

/// Whether the metric called `s` is read for the analyses `a` asks for.
pub open spec fn wanted_metric(a: RunNmonArgs, s: Seq<char>) -> bool {
    ||| (a.cpu || a.html) && (is_cpu_label(s) || s == "CPU_ALL"@ || s == "DISKXFER"@)
    ||| a.disk_io && s == "DISKXFER"@
    ||| a.disk_summary && (s == "DISKREAD"@ || s == "DISKWRITE"@ || s == "DISKBSIZE"@ || s == "DISKXFER"@)
    ||| a.disk_busy && s == "DISKBUSY"@
    ||| (a.mem_free || a.mem_active) && s == "MEM"@
    ||| a.jfsfile && s == "JFSFILE"@
    ||| a.net && s == "NET"@
}

/// Adds `name` unless it is already listed.
fn push_name(names: &mut Vec<String>, name: String, Ghost(a): Ghost<RunNmonArgs>)
    requires
        wanted_metric(a, name@),
        forall|k: int| 0 <= k < old(names)@.len() ==> wanted_metric(a, #[trigger] old(names)@[k]@),
        strings_view(old(names)@).no_duplicates(),
    ensures
        strings_view(final(names)@).no_duplicates(),
        forall|k: int| 0 <= k < final(names)@.len() ==> wanted_metric(a, #[trigger] final(names)@[k]@),
        forall|s: Seq<char>| strings_view(old(names)@).contains(s) ==> strings_view(final(names)@).contains(s),
        strings_view(final(names)@).contains(name@),
{
    let ghost start = names@;
    let ghost n = name@;
    if contains_name(names, &name) {
        return;
    }
    names.push(name);
    assert(strings_view(names@) =~= strings_view(start).push(n));
    assert(strings_view(names@)[start.len() as int] == n);
    assert forall|x: Seq<char>| strings_view(start).contains(x) implies strings_view(names@).contains(x) by {
        let k = choose|k: int| 0 <= k < strings_view(start).len() && strings_view(start)[k] == x;
        assert(strings_view(names@)[k] == x);
    }
}

fn push_cpu_labels(names: &mut Vec<String>, count: u64, width: u64, Ghost(a): Ghost<RunNmonArgs>)
    requires
        a.cpu || a.html,
        (width == 1 && count == 10) || (width == 2 && count == 100) || (width == 3 && count == 1000),
        forall|k: int| 0 <= k < old(names)@.len() ==> wanted_metric(a, #[trigger] old(names)@[k]@),
        strings_view(old(names)@).no_duplicates(),
    ensures
        forall|k: int| 0 <= k < final(names)@.len() ==> wanted_metric(a, #[trigger] final(names)@[k]@),
        forall|s: Seq<char>| strings_view(old(names)@).contains(s) ==> strings_view(final(names)@).contains(s),
        forall|i: nat| i < count ==> strings_view(final(names)@).contains(#[trigger] cpu_label(i, width as nat)),
        strings_view(final(names)@).no_duplicates(),
{
    let ghost start = names@;
    let mut i: u64 = 0;
    while i < count
        invariant
            a.cpu || a.html,
            (width == 1 && count == 10) || (width == 2 && count == 100) || (width == 3 && count == 1000),
            i <= count,
            forall|s: Seq<char>| strings_view(start).contains(s) ==> strings_view(names@).contains(s),
            forall|k: int| 0 <= k < names@.len() ==> wanted_metric(a, #[trigger] names@[k]@),
            forall|j: nat| j < i ==> strings_view(names@).contains(#[trigger] cpu_label(j, width as nat)),
            strings_view(names@).no_duplicates(),
        decreases count - i,
    {
        let s = prefixed_padded("CPU", i, width);
        let ghost sv = s@;
        assert(is_cpu_label(s@)) by {
            assert(s@ == cpu_label(i as nat, width as nat));
        }
        let ghost before = names@;
        push_name(names, s, Ghost(a));
        assert forall|j: nat| j < i + 1 implies strings_view(names@).contains(#[trigger] cpu_label(j, width as nat)) by {
            if j == i {
                assert(sv == cpu_label(j, width as nat));
            }
        }
        assert forall|x: Seq<char>| strings_view(start).contains(x) implies strings_view(names@).contains(x) by {
            assert(strings_view(before).contains(x));
        }
        i = i + 1;
    }
}

impl NmonArgs {
    pub fn new(nmon_path: Vec<String>, html_output: String, run_nmon_args: RunNmonArgs) -> (r: Self)
        ensures
            r.path_view() == nmon_path@,
            r.html_output_view() == html_output@,
            r.run_args() == run_nmon_args,
    {
        NmonArgs { path: nmon_path, html_output, run_nmon_args }
    }

    pub closed spec fn path_view(&self) -> Seq<String> {
        self.path@
    }

    pub closed spec fn html_output_view(&self) -> Seq<char> {
        self.html_output@
    }

    pub closed spec fn run_args(&self) -> RunNmonArgs {
        self.run_nmon_args
    }

    /// The capture files and directories to read.
    pub fn path(&self) -> (r: &Vec<String>)
        ensures
            r@ == self.path_view(),
    {
        &self.path
    }

    pub fn run_nmon_args(&self) -> (r: RunNmonArgs)
        ensures
            r == self.run_args(),
    {
        self.run_nmon_args
    }

    /// The directory the report is written to.
    pub fn html_output_folder(&self) -> (r: String)
        ensures
            r@ == self.html_output_view(),
    {
        self.html_output.clone()
    }

    /// The names of the metrics to read from each capture file: exactly the
    /// wanted ones, each listed once.
    pub fn metrics_name(&self) -> (r: Vec<String>)
        ensures
            forall|s: Seq<char>| strings_view(r@).contains(s) <==> wanted_metric(self.run_args(), s),
            strings_view(r@).no_duplicates(),
    {
        let a = self.run_nmon_args;
        let ghost ga = a;
        let mut cell: Vec<String> = Vec::new();
        assert(strings_view(cell@) =~= Seq::<Seq<char>>::empty());
        if a.cpu || a.html {
            push_cpu_labels(&mut cell, 10, 1, Ghost(ga));
            push_cpu_labels(&mut cell, 100, 2, Ghost(ga));
            push_cpu_labels(&mut cell, 1000, 3, Ghost(ga));
            push_name(&mut cell, "CPU_ALL".to_owned(), Ghost(ga));
            push_name(&mut cell, "DISKXFER".to_owned(), Ghost(ga));
        }
        if a.disk_io {
            push_name(&mut cell, "DISKXFER".to_owned(), Ghost(ga));
        }
        if a.disk_summary {
            push_name(&mut cell, "DISKREAD".to_owned(), Ghost(ga));
            push_name(&mut cell, "DISKWRITE".to_owned(), Ghost(ga));
            push_name(&mut cell, "DISKBSIZE".to_owned(), Ghost(ga));
            push_name(&mut cell, "DISKXFER".to_owned(), Ghost(ga));
        }
        if a.disk_busy {
            push_name(&mut cell, "DISKBUSY".to_owned(), Ghost(ga));
        }
        if a.mem_free || a.mem_active {
            push_name(&mut cell, "MEM".to_owned(), Ghost(ga));
        }
        if a.jfsfile {
            push_name(&mut cell, "JFSFILE".to_owned(), Ghost(ga));
        }
        if a.net {
            push_name(&mut cell, "NET".to_owned(), Ghost(ga));
        }
        proof {
            let v = strings_view(cell@);
            assert forall|s: Seq<char>| v.contains(s) implies wanted_metric(ga, s) by {
                let k = choose|k: int| 0 <= k < v.len() && v[k] == s;
                assert(wanted_metric(ga, cell@[k]@));
            }
            assert forall|s: Seq<char>| wanted_metric(ga, s) implies v.contains(s) by {
                if (ga.cpu || ga.html) && is_cpu_label(s) {
                    let (i, w) = choose|i: nat, w: nat| #![trigger cpu_label(i, w)]
                        ((w == 1 && i < 10) || (w == 2 && i < 100) || (w == 3 && i < 1000)) && s == cpu_label(i, w);
                }
            }
        }
        cell
    }
}


/// The charts of the report, in page order; none unless a report is asked for.
pub open spec fn chart_plan(a: RunNmonArgs) -> Seq<ChartsName> {
    if !a.html {
        Seq::empty()
    } else {
        (if a.cpu || a.html { seq![ChartsName::SYS_SUMM, ChartsName::CPU_SUMM, ChartsName::CPU_ALL] } else { Seq::empty() })
            + (if a.jfsfile { seq![ChartsName::JFSFILE] } else { Seq::empty() })
            + (if a.mem_free { seq![ChartsName::MEM_FREE] } else { Seq::empty() })
            + (if a.mem_active { seq![ChartsName::MEM_ACTIVE] } else { Seq::empty() })
            + (if a.mem_swap { seq![ChartsName::MEM_SWAP] } else { Seq::empty() })
            + (if a.disk_busy { seq![ChartsName::DISKBUSY_AWMN] } else { Seq::empty() })
    }
}

/// `charts` shows exactly the names of `plan`, the system summary selected.
pub open spec fn charts_follow(charts: Seq<Chart>, plan: Seq<ChartsName>) -> bool {
    &&& charts.len() == plan.len()
    &&& forall|i: int| 0 <= i < charts.len() ==> {
        &&& (#[trigger] charts[i]).name_view() == plan[i].text()
        &&& charts[i].selected_view() == (if plan[i] == ChartsName::SYS_SUMM { "selected"@ } else { ""@ })
    }
}

fn push_chart(charts: &mut Vec<Chart>, name: ChartsName, Ghost(plan): Ghost<Seq<ChartsName>>)
    requires
        charts_follow(old(charts)@, plan),
    ensures
        charts_follow(final(charts)@, plan.push(name)),
{
    let selected = name == ChartsName::SYS_SUMM;
    let c = Chart::new(&name, selected);
    let ghost before = charts@;
    charts.push(c);
    assert forall|i: int| 0 <= i < charts@.len() implies {
        &&& (#[trigger] charts@[i]).name_view() == plan.push(name)[i].text()
        &&& charts@[i].selected_view() == (if plan.push(name)[i] == ChartsName::SYS_SUMM { "selected"@ } else { ""@ })
    } by {
        if i < before.len() {
            assert(charts@[i] == before[i]);
        }
    }
}

/// The charts of the report that `a` asks for.
pub fn charts(a: &RunNmonArgs) -> (r: Vec<Chart>)
    ensures
        charts_follow(r@, chart_plan(*a)),
{
    let mut r: Vec<Chart> = Vec::new();
    let ghost mut plan: Seq<ChartsName> = Seq::empty();
    if a.html {
        if a.cpu || a.html {
            push_chart(&mut r, ChartsName::SYS_SUMM, Ghost(plan));
            proof { plan = plan.push(ChartsName::SYS_SUMM); }
            push_chart(&mut r, ChartsName::CPU_SUMM, Ghost(plan));
            proof { plan = plan.push(ChartsName::CPU_SUMM); }
            push_chart(&mut r, ChartsName::CPU_ALL, Ghost(plan));
            proof { plan = plan.push(ChartsName::CPU_ALL); }
        }
        if a.jfsfile {
            push_chart(&mut r, ChartsName::JFSFILE, Ghost(plan));
            proof { plan = plan.push(ChartsName::JFSFILE); }
        }
        if a.mem_free {
            push_chart(&mut r, ChartsName::MEM_FREE, Ghost(plan));
            proof { plan = plan.push(ChartsName::MEM_FREE); }
        }
        if a.mem_active {
            push_chart(&mut r, ChartsName::MEM_ACTIVE, Ghost(plan));
            proof { plan = plan.push(ChartsName::MEM_ACTIVE); }
        }
        if a.mem_swap {
            push_chart(&mut r, ChartsName::MEM_SWAP, Ghost(plan));
            proof { plan = plan.push(ChartsName::MEM_SWAP); }
        }
        if a.disk_busy {
            push_chart(&mut r, ChartsName::DISKBUSY_AWMN, Ghost(plan));
            proof { plan = plan.push(ChartsName::DISKBUSY_AWMN); }
        }
    }
    assert(plan =~= chart_plan(*a));
    r
}

} // verus!
