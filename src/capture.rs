use vstd::prelude::*;
use crate::text::{split_fields, split_spec, strings_view, contains_name, copy_range, lemma_split_nonempty};
use crate::timestamp::{Timestamp, capture_time, parse_capture_time, format_label};

verus! {

/// Name of the records that carry the timestamp axis.
pub open spec fn marker_name() -> Seq<char> {
    seq!['Z', 'Z', 'Z', 'Z']
}

/// Name of the one metric family whose header line may carry an extra label column.
pub open spec fn offset_family() -> Seq<char> {
    seq!['V', 'M']
}

/// A metric as read so far: its header line and the data rows kept.
pub struct MetricModel {
    pub name: Seq<char>,
    pub note: Seq<char>,
    pub header: Seq<Seq<char>>,
    pub rows: Seq<Seq<Seq<char>>>,
}

/// What a capture file has yielded after some of its lines.
pub struct ParseModel {
    pub zzzz: Seq<Timestamp>,
    pub metrics: Seq<MetricModel>,
}

/// Field `i` of a line, empty when the line is shorter.
pub open spec fn field_or_empty(f: Seq<Seq<char>>, i: int) -> Seq<char> {
    if 0 <= i < f.len() { f[i] } else { Seq::empty() }
}

/// The fields of a line from position `i` on.
pub open spec fn fields_from(f: Seq<Seq<char>>, i: int) -> Seq<Seq<char>> {
    if 0 <= i <= f.len() { f.subrange(i, f.len() as int) } else { Seq::empty() }
}

/// The header line of the offset family whose note column starts with `T`
/// has its labels one column further right.
pub open spec fn uses_offset_header(name: Seq<char>, f: Seq<Seq<char>>) -> bool {
    name == offset_family() && f.len() > 1 && f[1].len() > 0 && f[1][0] == 'T'
}

/// The labels of a metric's header line.
pub open spec fn header_of(name: Seq<char>, f: Seq<Seq<char>>) -> Seq<Seq<char>> {
    if uses_offset_header(name, f) { fields_from(f, 3) } else { fields_from(f, 2) }
}

/// The note of a metric's header line.
pub open spec fn note_of(name: Seq<char>, f: Seq<Seq<char>>) -> Seq<char> {
    if uses_offset_header(name, f) { field_or_empty(f, 2) } else { field_or_empty(f, 1) }
}

/// Position of the metric called `name`, or -1.
pub open spec fn index_of_metric(ms: Seq<MetricModel>, name: Seq<char>) -> int
    decreases ms.len(),
{
    if ms.len() == 0 {
        -1
    } else if ms.last().name == name {
        ms.len() - 1
    } else {
        index_of_metric(ms.drop_last(), name)
    }
}

/// A data row is kept when it has a value for every header label; values
/// past the header's width are left out.
pub open spec fn take_row(m: MetricModel, f: Seq<Seq<char>>) -> MetricModel {
    if f.len() >= 2 + m.header.len() {
        MetricModel { rows: m.rows.push(f.subrange(2, 2 + m.header.len() as int)), ..m }
    } else {
        m
    }
}

/// The first line of a metric is its header line; each later one a data row.
pub open spec fn record_metric(ms: Seq<MetricModel>, f: Seq<Seq<char>>) -> Seq<MetricModel> {
    let name = f[0];
    let i = index_of_metric(ms, name);
    if i < 0 {
        ms.push(MetricModel { name, note: note_of(name, f), header: header_of(name, f), rows: Seq::empty() })
    } else {
        ms.update(i, take_row(ms[i], f))
    }
}

/// The instant that a timestamp line carries, if it can be read.
pub open spec fn timestamp_of(f: Seq<Seq<char>>) -> Option<Timestamp> {
    if f.len() >= 4 { capture_time(f[3], f[2]) } else { None }
}

/// One line, split into fields; `None` when a timestamp line cannot be read.
pub open spec fn step(st: ParseModel, f: Seq<Seq<char>>, wanted: Seq<Seq<char>>) -> Option<ParseModel> {
    if f[0] == marker_name() && timestamp_of(f) is None {
        None
    } else {
        let zzzz = if f[0] == marker_name() { st.zzzz.push(timestamp_of(f)->Some_0) } else { st.zzzz };
        let metrics = if wanted.contains(f[0]) { record_metric(st.metrics, f) } else { st.metrics };
        Some(ParseModel { zzzz, metrics })
    }
}

/// The lines of a capture file read in order.
pub open spec fn parse_model(lines: Seq<Seq<char>>, wanted: Seq<Seq<char>>) -> Option<ParseModel>
    decreases lines.len(),
{
    if lines.len() == 0 {
        Some(ParseModel { zzzz: Seq::empty(), metrics: Seq::empty() })
    } else {
        match parse_model(lines.drop_last(), wanted) {
            None => None,
            Some(st) => step(st, split_spec(lines.last(), ','), wanted),
        }
    }
}

/// The least of `bound` and the row counts of `ms`.
pub open spec fn min_rows(ms: Seq<MetricModel>, bound: nat) -> nat
    decreases ms.len(),
{
    if ms.len() == 0 {
        bound
    } else {
        let b = min_rows(ms.drop_last(), bound);
        if ms.last().rows.len() < b { ms.last().rows.len() } else { b }
    }
}

/// The number of rows every table keeps: the fewest of the timestamp axis
/// and of any metric.
pub open spec fn aligned_rows(st: ParseModel) -> nat {
    min_rows(st.metrics, st.zzzz.len())
}

/// The aligned row count is at most the axis length and every metric's row count.
pub proof fn lemma_min_rows_bounds(ms: Seq<MetricModel>, bound: nat)
    ensures
        min_rows(ms, bound) <= bound,
        forall|i: int| 0 <= i < ms.len() ==> min_rows(ms, bound) <= #[trigger] ms[i].rows.len(),
    decreases ms.len(),
{
    if ms.len() > 0 {
        lemma_min_rows_bounds(ms.drop_last(), bound);
        assert forall|i: int| 0 <= i < ms.len() implies min_rows(ms, bound) <= #[trigger] ms[i].rows.len() by {
            if i < ms.len() - 1 {
                assert(ms.drop_last()[i] == ms[i]);
            }
        }
    }
}


/// The text of each row of cells.
pub open spec fn rows_view(rows: Seq<Vec<String>>) -> Seq<Seq<Seq<char>>> {
    rows.map_values(|r: Vec<String>| strings_view(r@))
}

/// A metric being collected while a capture file is read.
struct MetricBuf {
    name: String,
    note: String,
    header: Vec<String>,
    rows: Vec<Vec<String>>,
}

impl MetricBuf {
    spec fn model(&self) -> MetricModel {
        MetricModel {
            name: self.name@,
            note: self.note@,
            header: strings_view(self.header@),
            rows: rows_view(self.rows@),
        }
    }

    /// Every row has one cell per header label.
    spec fn wf(&self) -> bool {
        forall|r: int| 0 <= r < self.rows@.len() ==> #[trigger] self.rows@[r]@.len() == self.header@.len()
    }
}

spec fn models(bufs: Seq<MetricBuf>) -> Seq<MetricModel> {
    bufs.map_values(|b: MetricBuf| b.model())
}

spec fn bufs_wf(bufs: Seq<MetricBuf>) -> bool {
    forall|k: int| 0 <= k < bufs.len() ==> #[trigger] bufs[k].wf()
}

proof fn lemma_index_of_tail(ms: Seq<MetricModel>, name: Seq<char>, j: int)
    requires
        0 <= j <= ms.len(),
        forall|k: int| j <= k < ms.len() ==> #[trigger] ms[k].name != name,
    ensures
        index_of_metric(ms, name) == index_of_metric(ms.take(j), name),
    decreases ms.len() - j,
{
    if j < ms.len() {
        assert(ms.drop_last().take(j) =~= ms.take(j));
        lemma_index_of_tail(ms.drop_last(), name, j);
    } else {
        assert(ms.take(j) =~= ms);
    }
}

proof fn lemma_index_of_range(ms: Seq<MetricModel>, name: Seq<char>)
    ensures
        -1 <= index_of_metric(ms, name) < ms.len(),
        index_of_metric(ms, name) >= 0 ==> ms[index_of_metric(ms, name)].name == name,
    decreases ms.len(),
{
    if ms.len() > 0 {
        lemma_index_of_range(ms.drop_last(), name);
    }
}

/// Position of the metric called `name` among `bufs`.
fn find_metric(bufs: &Vec<MetricBuf>, name: &String) -> (r: Option<usize>)
    ensures
        match r {
            Some(k) => k == index_of_metric(models(bufs@), name@) && k < bufs.len(),
            None => index_of_metric(models(bufs@), name@) == -1,
        },
{
    let ghost ms = models(bufs@);
    let mut j: usize = bufs.len();
    while j > 0
        invariant
            j <= bufs.len(),
            ms == models(bufs@),
            forall|k: int| j <= k < ms.len() ==> #[trigger] ms[k].name != name@,
        decreases j,
    {
        j = j - 1;
        if bufs[j].name == *name {
            proof {
                lemma_index_of_tail(ms, name@, j + 1);
                assert(ms.take(j + 1).drop_last() =~= ms.take(j as int));
            }
            return Some(j);
        }
    }
    proof {
        lemma_index_of_tail(ms, name@, 0);
    }
    None
}

/// Header labels and note of a metric's first line.
fn header_line(f: &Vec<String>) -> (r: (Vec<String>, String))
    requires
        f.len() >= 1,
    ensures
        strings_view(r.0@) == header_of(f@[0]@, strings_view(f@)),
        r.1@ == note_of(f@[0]@, strings_view(f@)),
{
    let ghost fv = strings_view(f@);
    let family = "VM".to_owned();
    proof {
        reveal_strlit("VM");
    }
    let offset = f.len() > 1 && f[0] == family && !f[1].as_str().is_empty()
        && f[1].as_str().get_char(0) == 'T';
    assert(offset == uses_offset_header(f@[0]@, fv)) by {
        assert(family@ =~= offset_family());
        if f.len() > 1 {
            assert(fv[1] == f@[1]@);
        }
    }
    let first: usize = if offset { 3 } else { 2 };
    let header = if first <= f.len() { copy_range(f, first, f.len()) } else { Vec::new() };
    let note = if first - 1 < f.len() { f[first - 1].clone() } else { String::new() };
    assert(strings_view(header@) =~= header_of(f@[0]@, fv));
    (header, note)
}

/// Reads one line of a wanted metric into `bufs`.
fn record_line(bufs: &mut Vec<MetricBuf>, f: &Vec<String>)
    requires
        f.len() >= 1,
        bufs_wf(old(bufs)@),
    ensures
        models(final(bufs)@) == record_metric(models(old(bufs)@), strings_view(f@)),
        bufs_wf(final(bufs)@),
{
    let ghost fv = strings_view(f@);
    let ghost ms = models(bufs@);
    assert(fv[0] == f@[0]@);
    match find_metric(bufs, &f[0]) {
        None => {
            let (header, note) = header_line(f);
            let buf = MetricBuf { name: f[0].clone(), note, header, rows: Vec::new() };
            assert(rows_view(buf.rows@) =~= Seq::<Seq<Seq<char>>>::empty());
            assert(buf.model() == (MetricModel { name: fv[0], note: note_of(fv[0], fv), header: header_of(fv[0], fv), rows: Seq::empty() }));
            bufs.push(buf);
            assert(models(bufs@) =~= record_metric(ms, fv));
        },
        Some(k) => {
            proof {
                lemma_index_of_range(ms, fv[0]);
            }
            let n = bufs[k].header.len();
            if f.len() >= 2 && f.len() - 2 >= n {
                let row = copy_range(f, 2, 2 + n);
                let ghost old_rows = bufs@[k as int].rows@;
                assert(bufs@[k as int].wf());
                assert(strings_view(row@) =~= fv.subrange(2, 2 + n as int));
                bufs[k].rows.push(row);
                assert(rows_view(bufs@[k as int].rows@) =~= ms[k as int].rows.push(fv.subrange(2, 2 + n as int)));
                assert(bufs@[k as int].rows@ == old_rows.push(row));
                assert forall|r: int| 0 <= r < bufs@[k as int].rows@.len() implies #[trigger] bufs@[k as int].rows@[r]@.len() == bufs@[k as int].header@.len() by {
                    if r < old_rows.len() {
                        assert(old_rows[r] == bufs@[k as int].rows@[r]);
                    }
                }
            }
            assert(models(bufs@) =~= record_metric(ms, fv));
        },
    }
}


/// Why a capture file could not be read.
#[derive(Clone, Debug, PartialEq, Eq)]
pub enum CaptureError {
    /// A timestamp line whose date and time columns do not read as an instant.
    Timestamp { line: String },
}

/// One metric of a capture file: its labels and its rows of cell text,
/// aligned with the file's timestamp axis.
pub struct Measurement {
    filename: String,
    name: String,
    note: String,
    header: Vec<String>,
    zzzz: Vec<Timestamp>,
    rows: Vec<Vec<String>>,
}

/// A parsed capture file: its timestamp axis and its wanted metrics, in the
/// order they first appear in the file.
pub struct NmonData {
    filename: String,
    zzzz: Vec<Timestamp>,
    measurements: Vec<Measurement>,
}

impl Measurement {
    /// One row per timestamp, one cell per header label.
    pub open spec fn wf(&self) -> bool {
        &&& self.rows_view().len() == self.zzzz_view().len()
        &&& forall|k: int| 0 <= k < self.zzzz_view().len() ==> (#[trigger] self.zzzz_view()[k]).wf()
        &&& forall|r: int| 0 <= r < self.rows_view().len() ==> #[trigger] self.rows_view()[r].len() == self.header_view().len()
    }

    pub closed spec fn filename_view(&self) -> Seq<char> {
        self.filename@
    }

    pub closed spec fn name_view(&self) -> Seq<char> {
        self.name@
    }

    pub closed spec fn note_view(&self) -> Seq<char> {
        self.note@
    }

    pub closed spec fn header_view(&self) -> Seq<Seq<char>> {
        strings_view(self.header@)
    }

    pub closed spec fn zzzz_view(&self) -> Seq<Timestamp> {
        self.zzzz@
    }

    /// The cell text of each row.
    pub closed spec fn rows_view(&self) -> Seq<Seq<Seq<char>>> {
        rows_view(self.rows@)
    }
}

impl NmonData {
    pub closed spec fn filename_view(&self) -> Seq<char> {
        self.filename@
    }

    pub closed spec fn zzzz_view(&self) -> Seq<Timestamp> {
        self.zzzz@
    }

    pub closed spec fn measurements_view(&self) -> Seq<Measurement> {
        self.measurements@
    }

    /// Every table is well formed and has exactly the shared axis as its timestamps.
    pub open spec fn wf(&self) -> bool {
        &&& forall|k: int| 0 <= k < self.zzzz_view().len() ==> (#[trigger] self.zzzz_view()[k]).wf()
        &&& forall|i: int| 0 <= i < self.measurements_view().len() ==> {
            &&& (#[trigger] self.measurements_view()[i]).wf()
            &&& self.measurements_view()[i].zzzz_view() == self.zzzz_view()
        }
        &&& forall|i: int, j: int| 0 <= i < j < self.measurements_view().len()
            ==> (#[trigger] self.measurements_view()[i]).name_view() != (#[trigger] self.measurements_view()[j]).name_view()
    }

    /// This value is what reading `lines` yields: the metrics in `st`, each
    /// cut to the rows that every metric and the timestamp axis have.
    pub open spec fn is_parse_of(&self, filename: Seq<char>, st: ParseModel) -> bool {
        let n = aligned_rows(st) as int;
        &&& self.filename_view() == filename
        &&& self.zzzz_view() == st.zzzz.take(n)
        &&& self.measurements_view().len() == st.metrics.len()
        &&& forall|i: int| 0 <= i < st.metrics.len() ==> {
            let m = #[trigger] self.measurements_view()[i];
            &&& m.filename_view() == filename
            &&& m.name_view() == st.metrics[i].name
            &&& m.note_view() == st.metrics[i].note
            &&& m.header_view() == st.metrics[i].header
            &&& m.rows_view() == st.metrics[i].rows.take(n)
            &&& m.zzzz_view() == st.zzzz.take(n)
        }
    }
}

proof fn lemma_failed_prefix(lines: Seq<Seq<char>>, wanted: Seq<Seq<char>>, j: int)
    requires
        0 <= j <= lines.len(),
        parse_model(lines.take(j), wanted) is None,
    ensures
        parse_model(lines, wanted) is None,
    decreases lines.len() - j,
{
    if j < lines.len() {
        assert(lines.drop_last().take(j) =~= lines.take(j));
        lemma_failed_prefix(lines.drop_last(), wanted, j);
    } else {
        assert(lines.take(j) =~= lines);
    }
}

fn copy_timestamps(v: &Vec<Timestamp>) -> (r: Vec<Timestamp>)
    ensures
        r@ == v@,
{
    let mut r: Vec<Timestamp> = Vec::new();
    let mut i: usize = 0;
    while i < v.len()
        invariant
            i <= v.len(),
            r@ == v@.take(i as int),
        decreases v.len() - i,
    {
        r.push(v[i]);
        assert(r@ =~= v@.take(i + 1));
        i = i + 1;
    }
    assert(r@ =~= v@);
    r
}

/// No two metrics share a name.
pub open spec fn names_distinct(ms: Seq<MetricModel>) -> bool {
    forall|i: int, j: int| 0 <= i < j < ms.len() ==> (#[trigger] ms[i]).name != (#[trigger] ms[j]).name
}

proof fn lemma_absent_name(ms: Seq<MetricModel>, name: Seq<char>)
    requires
        index_of_metric(ms, name) == -1,
    ensures
        forall|i: int| 0 <= i < ms.len() ==> (#[trigger] ms[i]).name != name,
    decreases ms.len(),
{
    if ms.len() > 0 {
        lemma_absent_name(ms.drop_last(), name);
        assert forall|i: int| 0 <= i < ms.len() implies (#[trigger] ms[i]).name != name by {
            if i < ms.len() - 1 {
                assert(ms.drop_last()[i] == ms[i]);
            }
        }
    }
}

/// Reading a capture file never yields two metrics of one name.
pub proof fn lemma_names_distinct(lines: Seq<Seq<char>>, wanted: Seq<Seq<char>>)
    requires
        parse_model(lines, wanted) is Some,
    ensures
        names_distinct(parse_model(lines, wanted)->Some_0.metrics),
    decreases lines.len(),
{
    if lines.len() > 0 {
        lemma_names_distinct(lines.drop_last(), wanted);
        let st = parse_model(lines.drop_last(), wanted)->Some_0;
        let f = split_spec(lines.last(), ',');
        let ms = st.metrics;
        let nx = parse_model(lines, wanted)->Some_0.metrics;
        if wanted.contains(f[0]) {
            let k = index_of_metric(ms, f[0]);
            lemma_index_of_range(ms, f[0]);
            if k < 0 {
                lemma_absent_name(ms, f[0]);
                assert forall|i: int, j: int| 0 <= i < j < nx.len() implies (#[trigger] nx[i]).name != (#[trigger] nx[j]).name by {
                    if j == ms.len() {
                        assert(nx[i] == ms[i]);
                    } else {
                        assert(nx[i] == ms[i] && nx[j] == ms[j]);
                    }
                }
            } else {
                assert forall|i: int, j: int| 0 <= i < j < nx.len() implies (#[trigger] nx[i]).name != (#[trigger] nx[j]).name by {
                    assert(nx[i].name == ms[i].name && nx[j].name == ms[j].name);
                }
            }
        }
    }
}

/// Line `i` is the timestamp line that stops the reading: the lines before
/// it read, and it does not.
pub open spec fn is_first_failure(lines: Seq<Seq<char>>, wanted: Seq<Seq<char>>, i: int) -> bool {
    &&& 0 <= i < lines.len()
    &&& parse_model(lines.take(i), wanted) is Some
    &&& parse_model(lines.take(i + 1), wanted) is None
}

/// The text of each line.
pub open spec fn lines_view(lines: Seq<String>) -> Seq<Seq<char>> {
    strings_view(lines)
}

impl NmonData {
    /// Reads the lines of the capture file `filename`, keeping the metrics
    /// named in `cell`. Fails exactly when a timestamp line cannot be read.
    pub fn new(filename: &str, lines: &Vec<String>, cell: &Vec<String>) -> (r: Result<NmonData, CaptureError>)
        ensures
            match parse_model(lines_view(lines@), strings_view(cell@)) {
                None => r is Err,
                Some(st) => r is Ok && r->Ok_0.is_parse_of(filename@, st) && r->Ok_0.wf(),
            },
            r matches Err(CaptureError::Timestamp { line }) ==> exists|i: int| #![trigger lines@[i]]
                is_first_failure(lines_view(lines@), strings_view(cell@), i) && lines@[i]@ == line@,
    {
        let ghost lv = lines_view(lines@);
        let ghost wanted = strings_view(cell@);
        let marker = "ZZZZ".to_owned();
        proof {
            reveal_strlit("ZZZZ");
            assert(marker@ =~= marker_name());
        }
        let mut zzzz: Vec<Timestamp> = Vec::new();
        let mut bufs: Vec<MetricBuf> = Vec::new();
        let mut i: usize = 0;
        assert(lv.take(0) =~= Seq::<Seq<char>>::empty());
        assert(models(bufs@) =~= Seq::<MetricModel>::empty());
        while i < lines.len()
            invariant
                i <= lines.len(),
                lv == lines_view(lines@),
                wanted == strings_view(cell@),
                marker@ == marker_name(),
                forall|k: int| 0 <= k < zzzz@.len() ==> (#[trigger] zzzz@[k]).wf(),
                parse_model(lv.take(i as int), wanted) == Some(ParseModel { zzzz: zzzz@, metrics: models(bufs@) }),
                bufs_wf(bufs@),
            decreases lines.len() - i,
        {
            let ghost st = ParseModel { zzzz: zzzz@, metrics: models(bufs@) };
            let f = split_fields(lines[i].as_str());
            let ghost fv = strings_view(f@);
            proof {
                lemma_split_nonempty(lines@[i as int]@, ',');
                assert(fv =~= split_spec(lv[i as int], ','));
                assert(lv.take(i + 1).drop_last() =~= lv.take(i as int));
                assert(fv[0] == f@[0]@);
            }
            if f[0] == marker {
                if f.len() < 4 {
                    proof {
                        lemma_failed_prefix(lv, wanted, i + 1);
                        assert(is_first_failure(lv, wanted, i as int) && lines@[i as int]@ == lines@[i as int]@);
                    }
                    return Err(CaptureError::Timestamp { line: lines[i].clone() });
                }
                assert(fv[3] == f@[3]@ && fv[2] == f@[2]@);
                match parse_capture_time(f[3].as_str(), f[2].as_str()) {
                    None => {
                        proof {
                            lemma_failed_prefix(lv, wanted, i + 1);
                            assert(is_first_failure(lv, wanted, i as int) && lines@[i as int]@ == lines@[i as int]@);
                        }
                        return Err(CaptureError::Timestamp { line: lines[i].clone() });
                    },
                    Some(t) => {
                        let ghost prev = zzzz@;
                        zzzz.push(t);
                        assert forall|k: int| 0 <= k < zzzz@.len() implies (#[trigger] zzzz@[k]).wf() by {
                            if k < prev.len() {
                                assert(zzzz@[k] == prev[k]);
                            }
                        }
                    },
                }
            }
            if contains_name(cell, &f[0]) {
                record_line(&mut bufs, &f);
            }
            assert(parse_model(lv.take(i + 1), wanted) == step(st, fv, wanted));
            i = i + 1;
        }
        assert(lv.take(i as int) =~= lv);
        let ghost st = ParseModel { zzzz: zzzz@, metrics: models(bufs@) };
        // the fewest rows of the axis and of any metric
        let mut n: usize = zzzz.len();
        let mut k: usize = 0;
        while k < bufs.len()
            invariant
                k <= bufs.len(),
                st == (ParseModel { zzzz: zzzz@, metrics: models(bufs@) }),
                forall|k: int| 0 <= k < zzzz@.len() ==> (#[trigger] zzzz@[k]).wf(),
                n == min_rows(st.metrics.take(k as int), st.zzzz.len()),
            decreases bufs.len() - k,
        {
            assert(st.metrics.take(k + 1).drop_last() =~= st.metrics.take(k as int));
            if bufs[k].rows.len() < n {
                n = bufs[k].rows.len();
            }
            k = k + 1;
        }
        assert(st.metrics.take(k as int) =~= st.metrics);
        proof {
            lemma_min_rows_bounds(st.metrics, st.zzzz.len());
        }
        let ghost full = zzzz@;
        zzzz.truncate(n);
        assert forall|k: int| 0 <= k < zzzz@.len() implies (#[trigger] zzzz@[k]).wf() by {
            assert(zzzz@[k] == full[k]);
        }
        let mut measurements: Vec<Measurement> = Vec::new();
        let ghost total = bufs.len();
        while bufs.len() > 0
            invariant
                total == st.metrics.len(),
                n == aligned_rows(st),
                n <= st.zzzz.len(),
                zzzz@ == st.zzzz.take(n as int),
                forall|k: int| 0 <= k < zzzz@.len() ==> (#[trigger] zzzz@[k]).wf(),
                measurements@.len() + bufs@.len() == total,
                models(bufs@) == st.metrics.subrange(measurements@.len() as int, total as int),
                bufs_wf(bufs@),
                forall|j: int| 0 <= j < st.metrics.len() ==> n <= #[trigger] st.metrics[j].rows.len(),
                forall|j: int| 0 <= j < measurements@.len() ==> {
                    let m = #[trigger] measurements@[j];
                    &&& m.filename@ == filename@
                    &&& m.name@ == st.metrics[j].name
                    &&& m.note@ == st.metrics[j].note
                    &&& strings_view(m.header@) == st.metrics[j].header
                    &&& rows_view(m.rows@) == st.metrics[j].rows.take(n as int)
                    &&& m.zzzz@ == st.zzzz.take(n as int)
                    &&& m.wf()
                },
            decreases bufs.len(),
        {
            let ghost done = measurements@.len();
            assert(models(bufs@)[0] == st.metrics[done as int]);
            assert(bufs@[0].wf());
            let ghost before = bufs@;
            let b = bufs.remove(0);
            assert(bufs@ =~= before.subrange(1, before.len() as int));
            assert(models(bufs@) =~= models(before).subrange(1, before.len() as int));
            assert(models(bufs@) =~= st.metrics.subrange(done as int + 1, total as int));
            assert(rows_view(b.rows@).len() == b.rows@.len());
            let mut rows = b.rows;
            rows.truncate(n);
            assert(rows_view(rows@) =~= st.metrics[done as int].rows.take(n as int));
            let m = Measurement {
                filename: filename.to_owned(),
                name: b.name,
                note: b.note,
                header: b.header,
                zzzz: copy_timestamps(&zzzz),
                rows,
            };
            proof {
                assert(b.wf());
                assert(m.rows_view() == st.metrics[done as int].rows.take(n as int));
                assert(m.rows_view().len() == n);
                assert(n <= st.zzzz.len());
                assert(m.zzzz_view().len() == n);
                assert forall|r: int| 0 <= r < m.rows_view().len() implies #[trigger] m.rows_view()[r].len() == m.header_view().len() by {
                    assert(m.rows@[r] == b.rows@[r]);
                }
                assert(m.wf());
            }
            let ghost old_ms = measurements@;
            measurements.push(m);
            assert forall|j: int| 0 <= j < old_ms.len() implies measurements@[j] == old_ms[j] by {}
        }
        let r = NmonData { filename: filename.to_owned(), zzzz, measurements };
        proof {
            lemma_names_distinct(lv, wanted);
        }
        assert(r.wf()) by {
            assert forall|i: int, j: int| 0 <= i < j < r.measurements_view().len() implies
                (#[trigger] r.measurements_view()[i]).name_view() != (#[trigger] r.measurements_view()[j]).name_view() by {
                assert(r.measurements_view()[i].name_view() == st.metrics[i].name);
                assert(r.measurements_view()[j].name_view() == st.metrics[j].name);
            }
            assert forall|i: int| 0 <= i < r.measurements_view().len() implies
                (#[trigger] r.measurements_view()[i]).zzzz_view() == r.zzzz_view() by {}
        }
        Ok(r)
    }
}


/// Position of the first label equal to `name`, or -1.
pub open spec fn index_of_label(h: Seq<Seq<char>>, name: Seq<char>) -> int
    decreases h.len(),
{
    if h.len() == 0 {
        -1
    } else {
        let k = index_of_label(h.drop_last(), name);
        if k >= 0 {
            k
        } else if h.last() == name {
            h.len() - 1
        } else {
            -1
        }
    }
}

proof fn lemma_index_of_label(h: Seq<Seq<char>>, name: Seq<char>)
    ensures
        -1 <= index_of_label(h, name) < h.len(),
        index_of_label(h, name) >= 0 ==> h[index_of_label(h, name)] == name,
        forall|j: int| 0 <= j < h.len() && h[j] == name ==> index_of_label(h, name) >= 0 && index_of_label(h, name) <= j,
    decreases h.len(),
{
    if h.len() > 0 {
        lemma_index_of_label(h.drop_last(), name);
        assert forall|j: int| 0 <= j < h.len() && h[j] == name implies index_of_label(h, name) >= 0 && index_of_label(h, name) <= j by {
            if j < h.len() - 1 {
                assert(h.drop_last()[j] == h[j]);
            }
        }
    }
}

impl Measurement {
    pub fn name(&self) -> (r: &str)
        ensures
            r@ == self.name_view(),
    {
        self.name.as_str()
    }

    pub fn filename(&self) -> (r: &str)
        ensures
            r@ == self.filename_view(),
    {
        self.filename.as_str()
    }

    pub fn note(&self) -> (r: &str)
        ensures
            r@ == self.note_view(),
    {
        self.note.as_str()
    }

    pub fn header(&self) -> (r: &Vec<String>)
        ensures
            strings_view(r@) == self.header_view(),
    {
        &self.header
    }

    pub fn zzzz(&self) -> (r: Vec<Timestamp>)
        ensures
            r@ == self.zzzz_view(),
    {
        copy_timestamps(&self.zzzz)
    }

    /// The rows of cell text, one per timestamp.
    pub fn rows(&self) -> (r: &Vec<Vec<String>>)
        ensures
            rows_view(r@) == self.rows_view(),
    {
        &self.rows
    }

    /// Position of the first header label equal to `name`.
    fn idx_of_column(&self, name: &str) -> (r: Option<usize>)
        ensures
            match r {
                Some(k) => k == index_of_label(self.header_view(), name@),
                None => index_of_label(self.header_view(), name@) == -1,
            },
    {
        let target = name.to_owned();
        let mut k: usize = 0;
        proof {
            lemma_index_of_label(self.header_view(), name@);
        }
        while k < self.header.len()
            invariant
                k <= self.header.len(),
                target@ == name@,
                forall|j: int| 0 <= j < k ==> self.header@[j]@ != name@,
                -1 <= index_of_label(self.header_view(), name@) < self.header_view().len(),
                index_of_label(self.header_view(), name@) >= 0 ==> self.header_view()[index_of_label(self.header_view(), name@)] == name@,
                forall|j: int| 0 <= j < self.header_view().len() && self.header_view()[j] == name@
                    ==> index_of_label(self.header_view(), name@) >= 0 && index_of_label(self.header_view(), name@) <= j,
            decreases self.header.len() - k,
        {
            if self.header[k] == target {
                assert(self.header_view()[k as int] == name@);
                return Some(k);
            }
            k = k + 1;
        }
        proof {
            let i = index_of_label(self.header_view(), name@);
            if i >= 0 {
                assert(self.header@[i]@ == name@);
            }
        }
        None
    }

    /// The cells of the column labelled `name`, one per row; `None` when no
    /// label is `name`.
    pub fn column(&self, name: &str) -> (r: Option<Vec<String>>)
        requires
            self.wf(),
        ensures
            index_of_label(self.header_view(), name@) == -1 ==> r is None,
            index_of_label(self.header_view(), name@) >= 0 ==> (r matches Some(c) && strings_view(c@)
                == self.rows_view().map_values(|row: Seq<Seq<char>>| row[index_of_label(self.header_view(), name@)])),
    {
        match self.idx_of_column(name) {
            None => None,
            Some(k) => {
                let ghost want = self.rows_view().map_values(|row: Seq<Seq<char>>| row[k as int]);
                let mut c: Vec<String> = Vec::new();
                let mut r: usize = 0;
                proof {
                    lemma_index_of_label(self.header_view(), name@);
                }
                while r < self.rows.len()
                    invariant
                        self.wf(),
                        k < self.header@.len(),
                        r <= self.rows@.len(),
                        want == self.rows_view().map_values(|row: Seq<Seq<char>>| row[k as int]),
                        strings_view(c@) == want.take(r as int),
                    decreases self.rows.len() - r,
                {
                    assert(self.rows_view()[r as int].len() == self.header_view().len());
                    assert(self.rows_view()[r as int] == strings_view(self.rows@[r as int]@));
                    assert(want[r as int] == self.rows@[r as int]@[k as int]@);
                    let cell = self.rows[r][k].clone();
                    let ghost oldc = c@;
                    c.push(cell);
                    assert(want.len() == self.rows@.len());
                    assert(c@ == oldc.push(cell));
                    assert(strings_view(c@) =~= strings_view(oldc).push(cell@));
                    assert(strings_view(c@) =~= want.take(r + 1));
                    r = r + 1;
                }
                assert(want.take(r as int) =~= want);
                Some(c)
            },
        }
    }

    /// Each timestamp written as `YYYY-MM-DD HH:MM:SS`, in order.
    pub fn time_labels(&self) -> (r: Vec<String>)
        requires
            self.wf(),
        ensures
            r@.len() == self.zzzz_view().len(),
            forall|k: int| 0 <= k < r@.len() && 0 <= (#[trigger] self.zzzz_view()[k]).year <= 9999
                ==> r@[k]@ == self.zzzz_view()[k].label(),
    {
        let mut r: Vec<String> = Vec::new();
        let mut k: usize = 0;
        while k < self.zzzz.len()
            invariant
                self.wf(),
                k <= self.zzzz@.len(),
                r@.len() == k,
                forall|j: int| 0 <= j < k && 0 <= (#[trigger] self.zzzz_view()[j]).year <= 9999
                    ==> r@[j]@ == self.zzzz_view()[j].label(),
            decreases self.zzzz.len() - k,
        {
            assert(self.zzzz_view()[k as int].wf());
            let s = format_label(&self.zzzz[k]);
            r.push(s);
            k = k + 1;
        }
        r
    }
}

impl NmonData {
    pub fn filename(&self) -> (r: &str)
        ensures
            r@ == self.filename_view(),
    {
        self.filename.as_str()
    }

    /// The shared timestamp axis.
    pub fn zzzz(&self) -> (r: &Vec<Timestamp>)
        ensures
            r@ == self.zzzz_view(),
    {
        &self.zzzz
    }

    pub fn measurements(&self) -> (r: &Vec<Measurement>)
        ensures
            r@ == self.measurements_view(),
    {
        &self.measurements
    }

    /// The metric called `name`, if the file has it.
    pub fn measurement(&self, name: &str) -> (r: Option<&Measurement>)
        ensures
            match r {
                Some(m) => m.name_view() == name@ && self.measurements_view().contains(*m),
                None => forall|i: int| 0 <= i < self.measurements_view().len()
                    ==> (#[trigger] self.measurements_view()[i]).name_view() != name@,
            },
    {
        let target = name.to_owned();
        let mut i: usize = 0;
        while i < self.measurements.len()
            invariant
                i <= self.measurements@.len(),
                target@ == name@,
                forall|j: int| 0 <= j < i ==> (#[trigger] self.measurements_view()[j]).name_view() != name@,
            decreases self.measurements.len() - i,
        {
            if self.measurements[i].name == target {
                assert(self.measurements_view()[i as int] == self.measurements@[i as int]);
                return Some(&self.measurements[i]);
            }
            i = i + 1;
        }
        None
    }
}

/// Reading `s` after a state (or after a failure).
pub open spec fn run_lines(st: Option<ParseModel>, s: Seq<Seq<char>>, wanted: Seq<Seq<char>>) -> Option<ParseModel>
    decreases s.len(),
{
    if s.len() == 0 {
        st
    } else {
        match run_lines(st, s.drop_last(), wanted) {
            None => None,
            Some(x) => step(x, split_spec(s.last(), ','), wanted),
        }
    }
}

/// Reading `a` then `s` is reading `s` after what `a` yielded.
pub proof fn lemma_parse_concat(a: Seq<Seq<char>>, s: Seq<Seq<char>>, wanted: Seq<Seq<char>>)
    ensures
        parse_model(a + s, wanted) == run_lines(parse_model(a, wanted), s, wanted),
    decreases s.len(),
{
    if s.len() == 0 {
        assert(a + s =~= a);
    } else {
        assert((a + s).drop_last() =~= a + s.drop_last());
        lemma_parse_concat(a, s.drop_last(), wanted);
    }
}

/// A torn data line, one with fewer values than its metric's header has
/// labels, is dropped: the lines around it yield the same metrics, rows and
/// timestamps with it as without it.
pub proof fn lemma_torn_row_dropped(
    before: Seq<Seq<char>>,
    line: Seq<char>,
    after: Seq<Seq<char>>,
    wanted: Seq<Seq<char>>,
)
    requires
        parse_model(before, wanted) is Some,
        split_spec(line, ',')[0] != marker_name(),
        wanted.contains(split_spec(line, ',')[0]),
        index_of_metric(parse_model(before, wanted)->Some_0.metrics, split_spec(line, ',')[0]) >= 0,
        split_spec(line, ',').len() < 2 + parse_model(before, wanted)->Some_0.metrics[
            index_of_metric(parse_model(before, wanted)->Some_0.metrics, split_spec(line, ',')[0])].header.len(),
    ensures
        parse_model(before.push(line) + after, wanted) == parse_model(before + after, wanted),
{
    let st = parse_model(before, wanted)->Some_0;
    let f = split_spec(line, ',');
    let i = index_of_metric(st.metrics, f[0]);
    lemma_index_of_range(st.metrics, f[0]);
    assert(before.push(line).drop_last() =~= before);
    assert(st.metrics.update(i, take_row(st.metrics[i], f)) =~= st.metrics);
    assert(parse_model(before.push(line), wanted) == parse_model(before, wanted));
    lemma_parse_concat(before.push(line), after, wanted);
    lemma_parse_concat(before, after, wanted);
}


/// The first line of a wanted metric is its header line: the metric is added
/// with the labels and note of that line, by the offset rule when it applies.
pub proof fn lemma_first_line_is_header(before: Seq<Seq<char>>, line: Seq<char>, wanted: Seq<Seq<char>>)
    requires
        parse_model(before, wanted) is Some,
        split_spec(line, ',')[0] != marker_name(),
        wanted.contains(split_spec(line, ',')[0]),
        index_of_metric(parse_model(before, wanted)->Some_0.metrics, split_spec(line, ',')[0]) == -1,
    ensures
        ({
            let f = split_spec(line, ',');
            let st = parse_model(before, wanted)->Some_0;
            parse_model(before.push(line), wanted) == Some(ParseModel {
                zzzz: st.zzzz,
                metrics: st.metrics.push(MetricModel {
                    name: f[0],
                    note: note_of(f[0], f),
                    header: header_of(f[0], f),
                    rows: Seq::empty(),
                }),
            })
        }),
{
    assert(before.push(line).drop_last() =~= before);
}

proof fn lemma_step_keeps_labels(st: ParseModel, f: Seq<Seq<char>>, wanted: Seq<Seq<char>>, i: int)
    requires
        step(st, f, wanted) is Some,
        0 <= i < st.metrics.len(),
    ensures
        ({
            let nx = step(st, f, wanted)->Some_0;
            &&& nx.metrics.len() >= st.metrics.len()
            &&& nx.metrics[i].name == st.metrics[i].name
            &&& nx.metrics[i].note == st.metrics[i].note
            &&& nx.metrics[i].header == st.metrics[i].header
        }),
{
    lemma_index_of_range(st.metrics, f[0]);
}

proof fn lemma_run_keeps_labels(st: ParseModel, s: Seq<Seq<char>>, wanted: Seq<Seq<char>>, i: int)
    requires
        run_lines(Some(st), s, wanted) is Some,
        0 <= i < st.metrics.len(),
    ensures
        ({
            let nx = run_lines(Some(st), s, wanted)->Some_0;
            &&& nx.metrics.len() >= st.metrics.len()
            &&& nx.metrics[i].name == st.metrics[i].name
            &&& nx.metrics[i].note == st.metrics[i].note
            &&& nx.metrics[i].header == st.metrics[i].header
        }),
    decreases s.len(),
{
    if s.len() > 0 {
        lemma_run_keeps_labels(st, s.drop_last(), wanted, i);
        let mid = run_lines(Some(st), s.drop_last(), wanted)->Some_0;
        lemma_step_keeps_labels(mid, split_spec(s.last(), ','), wanted, i);
    }
}

/// A metric's labels and note are fixed by its first line: whatever lines
/// follow, the metric keeps its place, name, note and header.
pub proof fn lemma_header_fixed(a: Seq<Seq<char>>, s: Seq<Seq<char>>, wanted: Seq<Seq<char>>, i: int)
    requires
        parse_model(a + s, wanted) is Some,
        parse_model(a, wanted) is Some,
        0 <= i < parse_model(a, wanted)->Some_0.metrics.len(),
    ensures
        ({
            let early = parse_model(a, wanted)->Some_0.metrics[i];
            let late = parse_model(a + s, wanted)->Some_0.metrics[i];
            late.name == early.name && late.note == early.note && late.header == early.header
        }),
{
    lemma_parse_concat(a, s, wanted);
    lemma_run_keeps_labels(parse_model(a, wanted)->Some_0, s, wanted, i);
}


/// The header rule, over a whole file: the first line naming a wanted metric
/// fixes its labels and note for good. By the standard rule they are the
/// fields from the third on and the second field; only for the offset
/// family, when its second field starts with `T`, are they one column
/// further right.
pub proof fn lemma_header_rule(
    before: Seq<Seq<char>>,
    line: Seq<char>,
    after: Seq<Seq<char>>,
    wanted: Seq<Seq<char>>,
)
    requires
        parse_model(before, wanted) is Some,
        parse_model(before.push(line) + after, wanted) is Some,
        split_spec(line, ',')[0] != marker_name(),
        wanted.contains(split_spec(line, ',')[0]),
        index_of_metric(parse_model(before, wanted)->Some_0.metrics, split_spec(line, ',')[0]) == -1,
    ensures
        ({
            let f = split_spec(line, ',');
            let i = parse_model(before, wanted)->Some_0.metrics.len() as int;
            let m = parse_model(before.push(line) + after, wanted)->Some_0.metrics[i];
            &&& i < parse_model(before.push(line) + after, wanted)->Some_0.metrics.len()
            &&& m.name == f[0]
            &&& !uses_offset_header(f[0], f) ==> m.header == fields_from(f, 2) && m.note == field_or_empty(f, 1)
            &&& uses_offset_header(f[0], f) ==> m.header == fields_from(f, 3) && m.note == field_or_empty(f, 2)
        }),
{
    lemma_first_line_is_header(before, line, wanted);
    let i = parse_model(before, wanted)->Some_0.metrics.len() as int;
    lemma_header_fixed(before.push(line), after, wanted, i);
    lemma_parse_concat(before.push(line), after, wanted);
    lemma_run_keeps_labels(parse_model(before.push(line), wanted)->Some_0, after, wanted, i);
}

} // verus!
