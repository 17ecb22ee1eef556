use vstd::prelude::*;
use crate::text::{strings_view, split_at_char, split_spec, decimal, decimal_string, signed_decimal, signed_decimal_string};

verus! {

/// Which analyses to ask of the capture-file analyser after a run.
#[derive(Clone, Copy, Debug, PartialEq, Eq, Structural)]
pub struct NmonArgs {
    pub html: bool,
    pub cpu: bool,
    pub disk_busy: bool,
    pub mem_free: bool,
    pub mem_active: bool,
    pub mem_swap: bool,
    pub jfsfile: bool,
    pub disk_io: bool,
    pub disk_summary: bool,
    pub net: bool,
}

/// `flag` when `on`, nothing otherwise.
pub open spec fn flag_if(on: bool, flag: Seq<char>) -> Seq<Seq<char>> {
    if on { seq![flag] } else { Seq::empty() }
}

impl NmonArgs {
    /// The command-line flags that ask the analyser for the same analyses.
    pub open spec fn params_spec(&self) -> Seq<Seq<char>> {
        flag_if(self.html, "--html"@) + flag_if(self.cpu, "--cpu"@) + flag_if(self.disk_busy, "--disk-busy"@)
            + flag_if(self.mem_free, "--mem-free"@) + flag_if(self.mem_active, "--mem-active"@)
            + flag_if(self.mem_swap, "--mem-swap"@) + flag_if(self.jfsfile, "--jfsfile"@)
            + flag_if(self.disk_io, "--disk-io"@) + flag_if(self.disk_summary, "--disk-summary"@)
    }

    pub fn params(&self) -> (r: Vec<String>)
        ensures
            strings_view(r@) == self.params_spec(),
    {
        let mut params: Vec<String> = Vec::new();
        let ghost mut spec: Seq<Seq<char>> = Seq::empty();
        assert(strings_view(params@) =~= spec);
        push_flag(&mut params, self.html, "--html", Ghost(spec));
        proof { spec = spec + flag_if(self.html, "--html"@); }
        push_flag(&mut params, self.cpu, "--cpu", Ghost(spec));
        proof { spec = spec + flag_if(self.cpu, "--cpu"@); }
        push_flag(&mut params, self.disk_busy, "--disk-busy", Ghost(spec));
        proof { spec = spec + flag_if(self.disk_busy, "--disk-busy"@); }
        push_flag(&mut params, self.mem_free, "--mem-free", Ghost(spec));
        proof { spec = spec + flag_if(self.mem_free, "--mem-free"@); }
        push_flag(&mut params, self.mem_active, "--mem-active", Ghost(spec));
        proof { spec = spec + flag_if(self.mem_active, "--mem-active"@); }
        push_flag(&mut params, self.mem_swap, "--mem-swap", Ghost(spec));
        proof { spec = spec + flag_if(self.mem_swap, "--mem-swap"@); }
        push_flag(&mut params, self.jfsfile, "--jfsfile", Ghost(spec));
        proof { spec = spec + flag_if(self.jfsfile, "--jfsfile"@); }
        push_flag(&mut params, self.disk_io, "--disk-io", Ghost(spec));
        proof { spec = spec + flag_if(self.disk_io, "--disk-io"@); }
        push_flag(&mut params, self.disk_summary, "--disk-summary", Ghost(spec));
        proof { spec = spec + flag_if(self.disk_summary, "--disk-summary"@); }
        assert(spec =~= self.params_spec());
        params
    }
}

fn push_flag(params: &mut Vec<String>, on: bool, flag: &str, Ghost(before): Ghost<Seq<Seq<char>>>)
    requires
        strings_view(old(params)@) == before,
    ensures
        strings_view(final(params)@) == before + flag_if(on, flag@),
{
    if on {
        params.push(flag.to_owned());
        assert(strings_view(params@) =~= before + flag_if(on, flag@));
    } else {
        assert(before + flag_if(on, flag@) =~= before);
    }
}

/// The settings of one load-test run.
#[derive(Clone, Debug)]
pub struct JMeterArgs {
    pub jmxfile: String,
    pub thread_num: usize,
    pub rampup: u64,
    pub count: i32,
    pub duration: u64,
    pub propfile: Option<String>,
    pub jmeterproperty: Option<Vec<String>>,
    pub outputfolder: Option<String>,
    pub append: Option<String>,
    pub tmpdir: String,
}

/// Why the load test cannot start.
#[derive(Clone, Debug, PartialEq, Eq)]
pub enum MeterError {
    /// The test plan file does not exist.
    MissingJmx { jmxfile: String },
}

/// A load-test run and the parameters derived from its settings.
#[derive(Clone, Debug)]
pub struct JMeter {
    args: JMeterArgs,
}

/// How long hosts are monitored: the ramp-up and the run, plus three seconds
/// for the load tool to start.
pub open spec fn monitor_secs(rampup: int, duration: int) -> int {
    rampup + duration + 3
}

/// Whether the monitoring time of a run fits in a `u64` of seconds.
pub fn monitor_secs_fit(rampup: u64, duration: u64) -> (r: bool)
    ensures
        r == (monitor_secs(rampup as int, duration as int) <= u64::MAX),
{
    rampup <= u64::MAX - 3 && duration <= u64::MAX - 3 - rampup
}

/// The report's time granularity in seconds for a run of `secs` seconds.
pub open spec fn granularity_secs(secs: int) -> int {
    if secs < 241 {
        1
    } else if secs < 1861 {
        2
    } else if secs < 9001 {
        10
    } else if secs < 19801 {
        20
    } else if secs < 45001 {
        30
    } else {
        60
    }
}

/// `-J` followed by `property`, once for each property.
pub open spec fn property_params(props: Seq<Seq<char>>) -> Seq<Seq<char>>
    decreases props.len(),
{
    if props.len() == 0 {
        Seq::empty()
    } else {
        property_params(props.drop_last()) + seq!["-J"@, props.last()]
    }
}

/// A character with the Unicode `White_Space` property.
pub open spec fn is_white_space(c: char) -> bool {
    ||| ('\u{9}' <= c && c <= '\u{d}')
    ||| c == ' '
    ||| c == '\u{85}'
    ||| c == '\u{a0}'
    ||| c == '\u{1680}'
    ||| ('\u{2000}' <= c && c <= '\u{200a}')
    ||| c == '\u{2028}'
    ||| c == '\u{2029}'
    ||| c == '\u{202f}'
    ||| c == '\u{205f}'
    ||| c == '\u{3000}'
}

/// `s` without its leading white space.
pub open spec fn trim_start_spec(s: Seq<char>) -> Seq<char>
    decreases s.len(),
{
    if s.len() > 0 && is_white_space(s[0]) { trim_start_spec(s.subrange(1, s.len() as int)) } else { s }
}

/// `s` without its trailing white space.
pub open spec fn trim_end_spec(s: Seq<char>) -> Seq<char>
    decreases s.len(),
{
    if s.len() > 0 && is_white_space(s.last()) { trim_end_spec(s.drop_last()) } else { s }
}

/// `s` without its leading and trailing white space.
pub open spec fn trimmed(s: Seq<char>) -> Seq<char> {
    trim_end_spec(trim_start_spec(s))
}

/// Relies on `str::trim`: leading and trailing characters with the Unicode
/// `White_Space` property removed.
#[verifier::external_body]
fn trim(s: &str) -> (r: String)
    ensures
        r@ == trimmed(s@),
{
    s.trim().to_owned()
}

/// Whether a trimmed properties line holds a setting: not empty, no comment.
pub open spec fn is_setting(line: Seq<char>) -> bool {
    line.len() > 0 && line[0] != '#'
}

/// The settings among already trimmed lines, in order.
pub open spec fn kept_settings(lines: Seq<Seq<char>>) -> Seq<Seq<char>>
    decreases lines.len(),
{
    if lines.len() == 0 {
        Seq::empty()
    } else if is_setting(lines.last()) {
        kept_settings(lines.drop_last()).push(lines.last())
    } else {
        kept_settings(lines.drop_last())
    }
}

/// The settings among the lines of a properties file, trimmed, in order.
pub open spec fn settings(lines: Seq<Seq<char>>) -> Seq<Seq<char>> {
    kept_settings(lines.map_values(|l: Seq<char>| trimmed(l)))
}

/// `-J` and the setting, for each trimmed line that holds one.
pub fn setting_params(lines: &Vec<String>) -> (r: Vec<String>)
    ensures
        strings_view(r@) == property_params(kept_settings(strings_view(lines@))),
{
    let ghost lv = strings_view(lines@);
    let ghost mut kept: Seq<Seq<char>> = Seq::empty();
    let mut params: Vec<String> = Vec::new();
    let mut i: usize = 0;
    assert(strings_view(params@) =~= property_params(Seq::empty()));
    while i < lines.len()
        invariant
            i <= lines@.len(),
            lv == strings_view(lines@),
            kept == kept_settings(lv.take(i as int)),
            strings_view(params@) == property_params(kept),
        decreases lines.len() - i,
    {
        let line = &lines[i];
        assert(lv.take(i + 1).drop_last() =~= lv.take(i as int));
        assert(lv[i as int] == line@);
        if !line.as_str().is_empty() && line.as_str().get_char(0) != '#' {
            push_property(&mut params, line.clone(), Ghost(kept));
            proof {
                kept = kept.push(line@);
            }
        }
        i = i + 1;
    }
    assert(lv.take(i as int) =~= lv);
    params
}

/// The properties used when the properties file does not exist.
pub open spec fn default_properties() -> Seq<Seq<char>> {
    seq![
        "server.rmi.ssl.disable=false"@,
        "summariser.interval=10"@,
        "jmeter.save.saveservice.timestamp_format=yyyyMMdd-HHmmss.SSS"@,
        "server.rmi.ssl.disable=false"@,
    ]
}

fn push_property(params: &mut Vec<String>, p: String, Ghost(props): Ghost<Seq<Seq<char>>>)
    requires
        strings_view(old(params)@) == property_params(props),
    ensures
        strings_view(final(params)@) == property_params(props.push(p@)),
{
    params.push("-J".to_owned());
    let ghost pv = p@;
    params.push(p);
    assert(props.push(pv).drop_last() =~= props);
    assert(strings_view(params@) =~= property_params(props.push(pv)));
}

/// The report granularity parameters of a run.
pub open spec fn granularity_params_spec(a: JMeterArgs) -> Seq<Seq<char>> {
    seq!["-J"@, "jmeter.reportgenerator.overall_granularity="@
        + decimal((granularity_secs(monitor_secs(a.rampup as int, a.duration as int)) * 1000) as nat)]
}

/// The parameters from the properties file, given its text (`None`: no such file).
pub open spec fn propfile_params_spec(a: JMeterArgs, contents: Option<Seq<char>>) -> Seq<Seq<char>> {
    match a.propfile {
        None => Seq::empty(),
        Some(_) => match contents {
            None => property_params(default_properties()),
            Some(c) => property_params(settings(split_spec(c, '\n'))),
        },
    }
}

/// The properties given on the command line.
pub open spec fn jmeterproperty_params_spec(a: JMeterArgs) -> Seq<Seq<char>> {
    match a.jmeterproperty {
        Some(v) => property_params(strings_view(v@)),
        None => Seq::empty(),
    }
}

/// The thread-group parameters, given twice.
pub open spec fn thread_group_params_spec(a: JMeterArgs) -> Seq<Seq<char>> {
    let once = seq![
        "-J"@, "Threads="@ + decimal(a.thread_num as nat),
        "-J"@, "LoopOrRampupCount="@ + signed_decimal(a.count as int),
        "-J"@, "Duration="@ + decimal(a.duration as nat),
        "-J"@, "Rampup="@ + decimal(a.rampup as nat),
    ];
    once + once
}

/// The test plan, result, log and report parameters.
pub open spec fn jmxfile_params_spec(a: JMeterArgs) -> Seq<Seq<char>> {
    seq![
        "-n"@, "-t"@, a.jmxfile@,
        "-l"@, a.tmpdir@ + "/res.jtl"@,
        "-j"@, a.tmpdir@ + "/jmeter.log"@,
        "-e"@, "-o"@, a.tmpdir@ + "/res"@,
    ]
}

pub open spec fn opt_view(c: Option<&str>) -> Option<Seq<char>> {
    match c {
        Some(x) => Some(x@),
        None => None,
    }
}

impl JMeter {
    pub fn new(args: JMeterArgs) -> (r: Self)
        ensures
            r.args() == args,
    {
        JMeter { args }
    }

    pub closed spec fn args(&self) -> JMeterArgs {
        self.args
    }

    /// The working directory of the run.
    pub fn get_tmp_dir(&self) -> (r: String)
        ensures
            r@ == self.args().tmpdir@,
    {
        self.args.tmpdir.clone()
    }

    /// The monitoring interval and sample count for the hosts: the interval
    /// grows by a second for each full 1440 seconds of the run.
    pub fn calc_monitor_params(&self) -> (r: (u64, u64))
        requires
            monitor_secs(self.args().rampup as int, self.args().duration as int) <= u64::MAX,
        ensures
            r.0 == monitor_secs(self.args().rampup as int, self.args().duration as int) / 1440 + 1,
            r.1 == monitor_secs(self.args().rampup as int, self.args().duration as int) / (r.0 as int),
    {
        let duration = self.args.rampup + self.args.duration + 3;
        let interval = duration / 1440 + 1;
        let count = duration / interval;
        (interval, count)
    }

    /// The report granularity property, in milliseconds.
    pub fn overall_granularity_params(&self) -> (r: Vec<String>)
        requires
            monitor_secs(self.args().rampup as int, self.args().duration as int) <= u64::MAX,
        ensures
            strings_view(r@) == granularity_params_spec(self.args()),
    {
        let secs = self.args.rampup + self.args.duration + 3;
        let g: u64 = if secs < 241 {
            1
        } else if secs < 1861 {
            2
        } else if secs < 9001 {
            10
        } else if secs < 19801 {
            20
        } else if secs < 45001 {
            30
        } else {
            60
        };
        let ms = g * 1000;
        let mut p = "jmeter.reportgenerator.overall_granularity=".to_owned();
        let digits = decimal_string(ms);
        p.append(digits.as_str());
        let mut r: Vec<String> = Vec::new();
        r.push("-J".to_owned());
        r.push(p);
        assert(strings_view(r@) =~= seq!["-J"@, "jmeter.reportgenerator.overall_granularity="@ + decimal(ms as nat)]);
        r
    }

    /// The properties given on the command line, each after `-J`.
    pub fn jmeterproperty_params(&self) -> (r: Vec<String>)
        ensures
            strings_view(r@) == jmeterproperty_params_spec(self.args()),
    {
        let mut params: Vec<String> = Vec::new();
        match &self.args.jmeterproperty {
            Some(v) => {
                let ghost props = strings_view(v@);
                let mut i: usize = 0;
                assert(strings_view(params@) =~= property_params(props.take(0)));
                while i < v.len()
                    invariant
                        i <= v@.len(),
                        props == strings_view(v@),
                        strings_view(params@) == property_params(props.take(i as int)),
                    decreases v.len() - i,
                {
                    push_property(&mut params, v[i].clone(), Ghost(props.take(i as int)));
                    assert(props.take(i as int).push(props[i as int]) =~= props.take(i + 1));
                    i = i + 1;
                }
                assert(props.take(i as int) =~= props);
            },
            None => {
                assert(strings_view(params@) =~= Seq::<Seq<char>>::empty());
            },
        }
        params
    }

    /// The thread-group properties, given twice as the load tool expects.
    pub fn thread_group_params(&self) -> (r: Vec<String>)
        ensures
            strings_view(r@) == thread_group_params_spec(self.args()),
    {
        let mut threads = "Threads=".to_owned();
        threads.append(decimal_string(self.args.thread_num as u64).as_str());
        let mut count = "LoopOrRampupCount=".to_owned();
        count.append(signed_decimal_string(self.args.count as i64).as_str());
        let mut duration = "Duration=".to_owned();
        duration.append(decimal_string(self.args.duration).as_str());
        let mut rampup = "Rampup=".to_owned();
        rampup.append(decimal_string(self.args.rampup).as_str());
        let mut params: Vec<String> = Vec::new();
        params.push("-J".to_owned());
        params.push(threads.clone());
        params.push("-J".to_owned());
        params.push(count.clone());
        params.push("-J".to_owned());
        params.push(duration.clone());
        params.push("-J".to_owned());
        params.push(rampup.clone());
        params.push("-J".to_owned());
        params.push(threads);
        params.push("-J".to_owned());
        params.push(count);
        params.push("-J".to_owned());
        params.push(duration);
        params.push("-J".to_owned());
        params.push(rampup);
        let ghost a = self.args();
        let ghost once = seq![
            "-J"@, "Threads="@ + decimal(a.thread_num as nat),
            "-J"@, "LoopOrRampupCount="@ + signed_decimal(a.count as int),
            "-J"@, "Duration="@ + decimal(a.duration as nat),
            "-J"@, "Rampup="@ + decimal(a.rampup as nat),
        ];
        assert(strings_view(params@) =~= once + once);
        params
    }

    /// The test plan, result, log and report locations; fails when the
    /// test plan file does not exist.
    pub fn jmxfile_params(&self, jmx_exists: bool) -> (r: Result<Vec<String>, MeterError>)
        ensures
            !jmx_exists ==> r == Err::<Vec<String>, MeterError>(MeterError::MissingJmx { jmxfile: self.args().jmxfile }),
            jmx_exists ==> (r matches Ok(v) && strings_view(v@) == jmxfile_params_spec(self.args())),
    {
        if !jmx_exists {
            return Err(MeterError::MissingJmx { jmxfile: self.args.jmxfile.clone() });
        }
        let mut jtl = self.args.tmpdir.clone();
        jtl.append("/res.jtl");
        let mut log = self.args.tmpdir.clone();
        log.append("/jmeter.log");
        let mut res = self.args.tmpdir.clone();
        res.append("/res");
        let mut params: Vec<String> = Vec::new();
        params.push("-n".to_owned());
        params.push("-t".to_owned());
        params.push(self.args.jmxfile.clone());
        params.push("-l".to_owned());
        params.push(jtl);
        params.push("-j".to_owned());
        params.push(log);
        params.push("-e".to_owned());
        params.push("-o".to_owned());
        params.push(res);
        let ghost a = self.args();
        assert(strings_view(params@) =~= seq![
            "-n"@, "-t"@, a.jmxfile@,
            "-l"@, a.tmpdir@ + "/res.jtl"@,
            "-j"@, a.tmpdir@ + "/jmeter.log"@,
            "-e"@, "-o"@, a.tmpdir@ + "/res"@,
        ]);
        Ok(params)
    }

    /// The properties read from the properties file: `contents` is the
    /// file's text, `None` when the file does not exist. Nothing when the run
    /// names no properties file.
    pub fn propfile_params(&self, contents: Option<&str>) -> (r: Vec<String>)
        ensures
            strings_view(r@) == propfile_params_spec(self.args(), opt_view(contents)),
    {
        let mut params: Vec<String> = Vec::new();
        if self.args.propfile.is_none() {
            assert(strings_view(params@) =~= Seq::<Seq<char>>::empty());
            return params;
        }
        match contents {
            None => {
                assert(strings_view(params@) =~= property_params(Seq::empty()));
                push_property(&mut params, "server.rmi.ssl.disable=false".to_owned(), Ghost(Seq::empty()));
                let ghost props_a = seq!["server.rmi.ssl.disable=false"@];
                push_property(&mut params, "summariser.interval=10".to_owned(), Ghost(props_a));
                let ghost props_b = props_a.push("summariser.interval=10"@);
                push_property(&mut params, "jmeter.save.saveservice.timestamp_format=yyyyMMdd-HHmmss.SSS".to_owned(), Ghost(props_b));
                let ghost props_c = props_b.push("jmeter.save.saveservice.timestamp_format=yyyyMMdd-HHmmss.SSS"@);
                push_property(&mut params, "server.rmi.ssl.disable=false".to_owned(), Ghost(props_c));
                assert(props_c.push("server.rmi.ssl.disable=false"@) =~= default_properties());
                assert(seq!["server.rmi.ssl.disable=false"@] =~= Seq::<Seq<char>>::empty().push("server.rmi.ssl.disable=false"@));
            },
            Some(c) => {
                let lines = split_at_char(c, '\n');
                let ghost lv = strings_view(lines@);
                assert(lv =~= split_spec(c@, '\n'));
                let mut trimmed_lines: Vec<String> = Vec::new();
                let mut i: usize = 0;
                while i < lines.len()
                    invariant
                        i <= lines@.len(),
                        lv == strings_view(lines@),
                        strings_view(trimmed_lines@) == lv.take(i as int).map_values(|l: Seq<char>| trimmed(l)),
                    decreases lines.len() - i,
                {
                    let t = trim(lines[i].as_str());
                    assert(lv[i as int] == lines@[i as int]@);
                    let ghost before = trimmed_lines@;
                    trimmed_lines.push(t);
                    assert(strings_view(trimmed_lines@) =~= strings_view(before).push(trimmed(lv[i as int])));
                    assert(strings_view(trimmed_lines@) =~= lv.take(i + 1).map_values(|l: Seq<char>| trimmed(l)));
                    i = i + 1;
                }
                assert(lv.take(i as int) =~= lv);
                params = setting_params(&trimmed_lines);
            },
        }
        params
    }

    /// Every parameter of the load tool, in order: granularity, properties
    /// file, command-line properties, thread group, test plan.
    pub fn all_params(&self, propfile_contents: Option<&str>, jmx_exists: bool) -> (r: Result<Vec<String>, MeterError>)
        requires
            monitor_secs(self.args().rampup as int, self.args().duration as int) <= u64::MAX,
        ensures
            !jmx_exists ==> r == Err::<Vec<String>, MeterError>(MeterError::MissingJmx { jmxfile: self.args().jmxfile }),
            jmx_exists ==> (r matches Ok(v) && strings_view(v@) == granularity_params_spec(self.args())
                + propfile_params_spec(self.args(), opt_view(propfile_contents))
                + jmeterproperty_params_spec(self.args()) + thread_group_params_spec(self.args())
                + jmxfile_params_spec(self.args())),
    {
        let mut params = self.overall_granularity_params();
        let mut p = self.propfile_params(propfile_contents);
        let ghost s1 = params@;
        let ghost s2 = p@;
        params.append(&mut p);
        assert(strings_view(params@) =~= strings_view(s1) + strings_view(s2));
        let mut p = self.jmeterproperty_params();
        let ghost s1 = params@;
        let ghost s2 = p@;
        params.append(&mut p);
        assert(strings_view(params@) =~= strings_view(s1) + strings_view(s2));
        let mut p = self.thread_group_params();
        let ghost s1 = params@;
        let ghost s2 = p@;
        params.append(&mut p);
        assert(strings_view(params@) =~= strings_view(s1) + strings_view(s2));
        match self.jmxfile_params(jmx_exists) {
            Ok(mut p) => {
                let ghost s1 = params@;
                let ghost s2 = p@;
                params.append(&mut p);
                assert(strings_view(params@) =~= strings_view(s1) + strings_view(s2));
                Ok(params)
            },
            Err(e) => Err(e),
        }
    }

    /// The name the run's directory is renamed to: the chosen output folder,
    /// else `{tmpdir}_{threads}u_{summary}`, then `_{append}` when given.
    pub fn outputfolder(&self, summary: &str) -> (r: String)
        ensures
            ({
                let a = self.args();
                let base = match a.outputfolder {
                    Some(o) => o@,
                    None => a.tmpdir@ + seq!['_'] + decimal(a.thread_num as nat) + "u_"@ + summary@,
                };
                r@ == match a.append {
                    Some(x) => base + seq!['_'] + x@,
                    None => base,
                }
            }),
    {
        let mut res = match &self.args.outputfolder {
            Some(o) => o.clone(),
            None => {
                let mut s = self.args.tmpdir.clone();
                s.append("_");
                s.append(decimal_string(self.args.thread_num as u64).as_str());
                s.append("u_");
                s.append(summary);
                s
            },
        };
        proof {
            reveal_strlit("_");
        }
        match &self.args.append {
            Some(x) => {
                res.append("_");
                res.append(x.as_str());
            },
            None => {},
        }
        res
    }
}

} // verus!
