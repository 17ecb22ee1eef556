use rmeter::options::{charts, NmonArgs, RunNmonArgs};
use rmeter::script::{ScriptArgs, ScriptError};
use rmeter::report::{nmon_files, Chart, ChartsName, EchartsOption, JsCache, NmonFile, NmonHtmlTemplate};

fn run_args() -> RunNmonArgs {
    RunNmonArgs {
        html: false,
        cpu: false,
        mem_free: false,
        mem_active: false,
        mem_swap: false,
        jfsfile: false,
        disk_busy: false,
        disk_io: false,
        disk_summary: false,
        net: false,
    }
}

#[test]
fn cpu_metrics_named() {
    let mut a = run_args();
    a.cpu = true;
    let n = NmonArgs::new(vec!["x.nmon".into()], "./".into(), a).metrics_name();
    for want in ["CPU0", "CPU9", "CPU00", "CPU99", "CPU000", "CPU999", "CPU_ALL", "DISKXFER"] {
        assert!(n.iter().any(|s| s == want), "{}", want);
    }
    assert!(!n.iter().any(|s| s == "MEM"));
    assert!(!n.iter().any(|s| s == "CPU1000"));
}

#[test]
fn other_metrics_named() {
    let mut a = run_args();
    a.mem_active = true;
    a.disk_busy = true;
    a.jfsfile = true;
    a.net = true;
    a.disk_summary = true;
    let n = NmonArgs::new(vec![], "out".into(), a).metrics_name();
    let mut got = n.clone();
    got.sort();
    got.dedup();
    assert_eq!(got, vec!["DISKBSIZE", "DISKBUSY", "DISKREAD", "DISKWRITE", "DISKXFER", "JFSFILE", "MEM", "NET"]);
    a = run_args();
    a.mem_swap = true;
    assert!(NmonArgs::new(vec![], "out".into(), a).metrics_name().is_empty());
}

#[test]
fn args_accessors() {
    let n = NmonArgs::new(vec!["a".into()], "out/".into(), run_args());
    assert_eq!(n.html_output_folder(), "out/");
    assert_eq!(n.path(), &vec!["a".to_string()]);
    assert_eq!(n.run_nmon_args(), run_args());
}

#[test]
fn chart_selection() {
    let mut a = run_args();
    assert!(charts(&a).is_empty());
    a.html = true;
    a.mem_swap = true;
    a.disk_busy = true;
    let c = charts(&a);
    let names: Vec<&str> = c.iter().map(|c| c.name()).collect();
    assert_eq!(names, vec!["SYS_SUMM", "CPU_SUMM", "CPU_ALL", "MEM_SWAP", "DISKBUSY_AWMN"]);
    assert_eq!(c[0].selected(), "selected");
    assert_eq!(c[1].selected(), "");
}

#[test]
fn report_entries() {
    assert_eq!(ChartsName::DISKBUSY_AWMN.to_string(), "DISKBUSY_AWMN");
    let c = Chart::new(&ChartsName::MEM_FREE, true);
    assert_eq!(c.name(), "MEM_FREE");
    assert_eq!(c.selected(), "selected");
    let files = nmon_files(&vec![("000".to_string(), "a.nmon".to_string())]);
    assert_eq!(files[0].id, "000");
    assert_eq!(files[0].name, "a.nmon");
    assert_eq!(files[0].selected, "selected");
    let t = NmonHtmlTemplate::new(vec![NmonFile::new("1".into(), "b".into(), "".into())], vec![c]);
    assert_eq!(t.nmonfiles.len(), 1);
    let js = JsCache::new(vec![EchartsOption::new("1".into(), "{}".into())]);
    assert_eq!(js.datas[0].option, "{}");
}

#[test]
fn scaffold_layout() {
    let mut a = ScriptArgs { template_dir: Some("tpl".into()), force: None, properties: Some(true), name: "work".into() };
    let p = a.plan().unwrap();
    assert_eq!(p.dirs, vec!["work", "work/script", "work/script/data", "work/参考资料"]);
    assert_eq!(p.copies.len(), 4);
    assert_eq!(p.copies[0], ("tpl/jmeter/test.jmx".to_string(), "work/script/test.jmx".to_string()));
    assert_eq!(p.copies[1], ("tpl/jmeter/test.properties".to_string(), "work/script/test.properties".to_string()));
    assert_eq!(p.copies[3], ("tpl/jmeter/readme.txt".to_string(), "work/readme.txt".to_string()));
    a.properties = None;
    assert_eq!(a.plan().unwrap().copies.len(), 3);
    a.template_dir = None;
    assert_eq!(a.plan().err(), Some(ScriptError::NoTemplateDir));
}

#[test]
fn cpu_metric_names_form_a_set() {
    let mut a = run_args();
    a.cpu = true;
    a.disk_io = true;
    a.disk_summary = true;
    let n = NmonArgs::new(vec![], "out".into(), a).metrics_name();
    let mut unique = n.clone();
    unique.sort();
    unique.dedup();
    assert_eq!(unique.len(), n.len());
    let mut only_cpu = run_args();
    only_cpu.cpu = true;
    assert_eq!(NmonArgs::new(vec![], "out".into(), only_cpu).metrics_name().len(), 1112);
    assert_eq!(n.len(), 1112 + 3);
}
