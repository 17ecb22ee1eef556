use rmeter::meter::{JMeter, JMeterArgs, MeterError, NmonArgs};

fn args(rampup: u64, duration: u64) -> JMeterArgs {
    JMeterArgs {
        jmxfile: "test.jmx".to_string(),
        thread_num: 5,
        rampup,
        count: -1,
        duration,
        propfile: Some("test.properties".to_string()),
        jmeterproperty: Some(vec!["a=1".to_string(), "b=2".to_string()]),
        outputfolder: None,
        append: None,
        tmpdir: "0313-2212".to_string(),
    }
}

fn strs(v: &[&str]) -> Vec<String> {
    v.iter().map(|s| s.to_string()).collect()
}

#[test]
fn monitor_params() {
    assert_eq!(JMeter::new(args(1, 1)).calc_monitor_params(), (1, 5));
    assert_eq!(JMeter::new(args(0, 1437)).calc_monitor_params(), (2, 720));
    assert_eq!(JMeter::new(args(100, 3000)).calc_monitor_params(), (3, 1034));
}

#[test]
fn granularity_thresholds() {
    let g = |r, d| JMeter::new(args(r, d)).overall_granularity_params()[1].clone();
    assert_eq!(g(0, 237), "jmeter.reportgenerator.overall_granularity=1000");
    assert_eq!(g(0, 238), "jmeter.reportgenerator.overall_granularity=2000");
    assert_eq!(g(0, 1858), "jmeter.reportgenerator.overall_granularity=10000");
    assert_eq!(g(0, 8998), "jmeter.reportgenerator.overall_granularity=20000");
    assert_eq!(g(0, 19798), "jmeter.reportgenerator.overall_granularity=30000");
    assert_eq!(g(0, 44998), "jmeter.reportgenerator.overall_granularity=60000");
    assert_eq!(JMeter::new(args(0, 1)).overall_granularity_params()[0], "-J");
}

#[test]
fn thread_group_twice() {
    let p = JMeter::new(args(10, 60)).thread_group_params();
    let once = strs(&["-J", "Threads=5", "-J", "LoopOrRampupCount=-1", "-J", "Duration=60", "-J", "Rampup=10"]);
    let mut both = once.clone();
    both.extend(once);
    assert_eq!(p, both);
}

#[test]
fn command_line_properties() {
    assert_eq!(JMeter::new(args(1, 1)).jmeterproperty_params(), strs(&["-J", "a=1", "-J", "b=2"]));
    let mut a = args(1, 1);
    a.jmeterproperty = None;
    assert!(JMeter::new(a).jmeterproperty_params().is_empty());
}

#[test]
fn jmx_params_and_missing_plan() {
    let j = JMeter::new(args(1, 1));
    assert_eq!(
        j.jmxfile_params(true).unwrap(),
        strs(&["-n", "-t", "test.jmx", "-l", "0313-2212/res.jtl", "-j", "0313-2212/jmeter.log", "-e", "-o", "0313-2212/res"])
    );
    assert_eq!(j.jmxfile_params(false), Err(MeterError::MissingJmx { jmxfile: "test.jmx".to_string() }));
    assert!(j.all_params(None, false).is_err());
    let all = j.all_params(Some("x=1"), true).unwrap();
    assert_eq!(all.len(), 2 + 2 + 4 + 16 + 10);
}

#[test]
fn properties_file_settings() {
    let j = JMeter::new(args(1, 1));
    let text = "# comment\n  summariser.interval=10  \n\nflag\r\n";
    assert_eq!(j.propfile_params(Some(text)), strs(&["-J", "summariser.interval=10", "-J", "flag"]));
    assert_eq!(j.propfile_params(None).len(), 8);
    assert_eq!(j.propfile_params(None)[1], "server.rmi.ssl.disable=false");
    let mut a = args(1, 1);
    a.propfile = None;
    assert!(JMeter::new(a).propfile_params(Some("a=b")).is_empty());
}

#[test]
fn output_folder_name() {
    let j = JMeter::new(args(1, 1));
    assert_eq!(j.outputfolder("1qps2ms0err"), "0313-2212_5u_1qps2ms0err");
    let mut a = args(1, 1);
    a.outputfolder = Some("out".into());
    a.append = Some("test1".into());
    assert_eq!(JMeter::new(a).outputfolder("ignored"), "out_test1");
    assert_eq!(j.get_tmp_dir(), "0313-2212");
}

#[test]
fn analyser_flags() {
    let n = NmonArgs {
        html: true,
        cpu: true,
        disk_busy: false,
        mem_free: true,
        mem_active: false,
        mem_swap: false,
        jfsfile: false,
        disk_io: true,
        disk_summary: false,
        net: true,
    };
    assert_eq!(n.params(), strs(&["--html", "--cpu", "--mem-free", "--disk-io"]));
}

#[test]
fn monitor_time_must_fit() {
    assert!(rmeter::meter::monitor_secs_fit(1, 1));
    assert!(rmeter::meter::monitor_secs_fit(0, u64::MAX - 3));
    assert!(!rmeter::meter::monitor_secs_fit(1, u64::MAX - 3));
}

#[test]
fn settings_from_trimmed_lines() {
    let lines = strs(&["#x=1", "", "a=1", "b"]);
    assert_eq!(rmeter::meter::setting_params(&lines), strs(&["-J", "a=1", "-J", "b"]));
}
