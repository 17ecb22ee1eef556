use rmeter::capture::{CaptureError, NmonData};
use rmeter::text::split_fields;

fn lines(text: &[&str]) -> Vec<String> {
    text.iter().map(|l| l.to_string()).collect()
}

fn names(n: &[&str]) -> Vec<String> {
    n.iter().map(|l| l.to_string()).collect()
}

fn stamp(i: usize) -> String {
    format!("ZZZZ,T{:04},17:40:{:02},16-JUN-2020", i + 1, 10 + i)
}

#[test]
fn end_to_end_five_stamps_four_rows() {
    let mut text = Vec::new();
    text.push("CPU_ALL,CPU Total,User%,Sys%,Wait%,Idle%".to_string());
    for i in 0..5 {
        text.push(stamp(i));
        if i < 4 {
            text.push(format!("CPU_ALL,T{:04},{},2.0,0.5,{}", i + 1, i + 1, 96 - i));
        }
    }
    let d = NmonData::new("host.nmon", &text, &names(&["CPU_ALL"])).unwrap();
    assert_eq!(d.filename(), "host.nmon");
    assert_eq!(d.zzzz().len(), 4);
    let m = d.measurement("CPU_ALL").unwrap();
    assert_eq!(m.rows().len(), 4);
    assert_eq!(m.zzzz().len(), 4);
    assert_eq!(m.header(), &names(&["User%", "Sys%", "Wait%", "Idle%"]));
    assert_eq!(m.note(), "CPU Total");
    assert_eq!(m.rows()[3], names(&["4", "2.0", "0.5", "93"]));
}

#[test]
fn torn_last_row_is_dropped() {
    let text = lines(&[
        "CPU_ALL,CPU Total,User%,Sys%",
        "MEM,Memory MB,memtotal,memfree",
        "ZZZZ,T0001,17:40:19,16-JUN-2020",
        "CPU_ALL,T0001,1.0,2.0",
        "MEM,T0001,100,50",
        "ZZZZ,T0002,17:40:20,16-JUN-2020",
        "CPU_ALL,T0002,3.0,4.0",
        "MEM,T0002,100,40",
        "ZZZZ,T0003,17:40:21,16-JUN-2020",
        "CPU_ALL,T0003,5.0",
    ]);
    let d = NmonData::new("a.nmon", &text, &names(&["CPU_ALL", "MEM"])).unwrap();
    let cpu = d.measurement("CPU_ALL").unwrap();
    let mem = d.measurement("MEM").unwrap();
    assert_eq!(cpu.rows().len(), 2);
    assert_eq!(mem.rows().len(), 2);
    assert_eq!(d.zzzz().len(), 2);
    assert_eq!(cpu.rows()[1], names(&["3.0", "4.0"]));
    assert_eq!(mem.rows()[1], names(&["100", "40"]));
}

#[test]
fn offset_header_when_note_starts_with_t() {
    let text = lines(&[
        "VM,T0001,\"Paging and Virtual Memory\",nr_dirty,nr_writeback",
        "ZZZZ,T0001,17:40:19,16-JUN-2020",
        "VM,T0001,27,0",
    ]);
    let d = NmonData::new("vm.nmon", &text, &names(&["VM"])).unwrap();
    let vm = d.measurement("VM").unwrap();
    assert_eq!(vm.header(), &names(&["nr_dirty", "nr_writeback"]));
    assert_eq!(vm.note(), "\"Paging and Virtual Memory\"");
    assert_eq!(vm.rows()[0], names(&["27", "0"]));
}

#[test]
fn standard_header_without_marker_note() {
    let text = lines(&[
        "VM,Paging and Virtual Memory,nr_dirty,nr_writeback",
        "ZZZZ,T0001,17:40:19,16-JUN-2020",
        "VM,T0001,27,0,0",
    ]);
    let d = NmonData::new("vm.nmon", &text, &names(&["VM"])).unwrap();
    let vm = d.measurement("VM").unwrap();
    assert_eq!(vm.header(), &names(&["nr_dirty", "nr_writeback"]));
    assert_eq!(vm.note(), "Paging and Virtual Memory");
    assert_eq!(vm.rows()[0], names(&["27", "0"]));
}

#[test]
fn other_families_never_shift_header() {
    let text = lines(&[
        "NET,T0001,eth0-read,eth0-write",
        "ZZZZ,T0001,17:40:19,16-JUN-2020",
        "NET,T0001,1,2",
    ]);
    let d = NmonData::new("n.nmon", &text, &names(&["NET"])).unwrap();
    let net = d.measurement("NET").unwrap();
    assert_eq!(net.header(), &names(&["eth0-read", "eth0-write"]));
    assert_eq!(net.note(), "T0001");
}

#[test]
fn bad_timestamp_fails_the_file() {
    let text = lines(&["CPU_ALL,CPU Total,User%", "ZZZZ,T0001,bad,16-JUN-2020"]);
    let r = NmonData::new("x.nmon", &text, &names(&["CPU_ALL"]));
    assert!(matches!(r, Err(CaptureError::Timestamp { .. })));
}

#[test]
fn short_timestamp_line_fails_the_file() {
    let text = lines(&["ZZZZ,T0001"]);
    let r = NmonData::new("x.nmon", &text, &names(&[]));
    assert_eq!(r.err(), Some(CaptureError::Timestamp { line: "ZZZZ,T0001".to_string() }));
}

#[test]
fn extra_trailing_columns_are_ignored() {
    let text = lines(&[
        "NET,Network,a,b",
        "ZZZZ,T0001,17:40:19,16-JUN-2020",
        "NET,T0001,1,2,3,4",
    ]);
    let d = NmonData::new("n.nmon", &text, &names(&["NET"])).unwrap();
    assert_eq!(d.measurement("NET").unwrap().rows()[0], names(&["1", "2"]));
}

#[test]
fn unrequested_metrics_are_skipped() {
    let text = lines(&[
        "CPU_ALL,CPU Total,User%",
        "DISKBUSY,Disk,sda",
        "ZZZZ,T0001,17:40:19,16-JUN-2020",
        "CPU_ALL,T0001,5",
        "DISKBUSY,T0001,9",
    ]);
    let d = NmonData::new("n.nmon", &text, &names(&["CPU_ALL"])).unwrap();
    assert_eq!(d.measurements().len(), 1);
    assert!(d.measurement("DISKBUSY").is_none());
}

#[test]
fn timestamps_cut_to_fewest_rows() {
    let text = lines(&[
        "CPU_ALL,CPU Total,User%",
        "ZZZZ,T0001,17:40:19,16-JUN-2020",
        "CPU_ALL,T0001,5",
        "ZZZZ,T0002,17:40:20,16-JUN-2020",
        "CPU_ALL,T0002,6",
        "CPU_ALL,T0003,7",
    ]);
    let d = NmonData::new("n.nmon", &text, &names(&["CPU_ALL"])).unwrap();
    let m = d.measurement("CPU_ALL").unwrap();
    assert_eq!(m.rows().len(), 2);
    assert_eq!(d.zzzz().len(), 2);
    for t in d.measurements() {
        assert_eq!(t.rows().len(), d.zzzz().len());
    }
}

#[test]
fn no_metrics_keeps_every_timestamp() {
    let text = lines(&["ZZZZ,T0001,17:40:19,16-JUN-2020", "ZZZZ,T0002,17:40:29,16-JUN-2020"]);
    let d = NmonData::new("n.nmon", &text, &names(&["CPU_ALL"])).unwrap();
    assert_eq!(d.zzzz().len(), 2);
    assert_eq!(d.zzzz()[1].second, 29);
    assert_eq!(d.zzzz()[1].month, 6);
    assert_eq!(d.zzzz()[1].year, 2020);
}

#[test]
fn empty_file_yields_nothing() {
    let d = NmonData::new("n.nmon", &Vec::new(), &names(&["CPU_ALL"])).unwrap();
    assert_eq!(d.measurements().len(), 0);
    assert_eq!(d.zzzz().len(), 0);
}

#[test]
fn column_and_time_labels() {
    let text = lines(&[
        "CPU_ALL,CPU Total,User%,Sys%",
        "ZZZZ,T0001,17:40:19,16-JUN-2020",
        "CPU_ALL,T0001,1.5,",
        "ZZZZ,T0002,07:05:09,01-JAN-2021",
        "CPU_ALL,T0002,2.5,3",
    ]);
    let d = NmonData::new("n.nmon", &text, &names(&["CPU_ALL"])).unwrap();
    let m = d.measurement("CPU_ALL").unwrap();
    assert_eq!(m.column("Sys%"), Some(names(&["", "3"])));
    assert_eq!(m.column("User%"), Some(names(&["1.5", "2.5"])));
    assert_eq!(m.column("Idle%"), None);
    assert_eq!(m.time_labels(), names(&["2020-06-16 17:40:19", "2021-01-01 07:05:09"]));
    assert_eq!(m.filename(), "n.nmon");
    assert_eq!(m.name(), "CPU_ALL");
}

#[test]
fn metrics_kept_in_order_of_first_sight() {
    let text = lines(&["MEM,m,a", "CPU_ALL,c,b", "ZZZZ,T0001,17:40:19,16-JUN-2020", "MEM,T1,1", "CPU_ALL,T1,2"]);
    let d = NmonData::new("n.nmon", &text, &names(&["CPU_ALL", "MEM"])).unwrap();
    let order: Vec<&str> = d.measurements().iter().map(|m| m.name()).collect();
    assert_eq!(order, vec!["MEM", "CPU_ALL"]);
}

#[test]
fn split_keeps_empty_fields() {
    assert_eq!(split_fields("a,,b,"), names(&["a", "", "b", ""]));
    assert_eq!(split_fields(""), names(&[""]));
}

#[test]
fn timestamp_error_names_the_line() {
    let text = lines(&[
        "ZZZZ,T0001,17:40:19,16-JUN-2020",
        "ZZZZ,T0002,25:99:00,16-JUN-2020",
        "ZZZZ,T0003,bad,bad",
    ]);
    let r = NmonData::new("x.nmon", &text, &names(&[]));
    assert_eq!(r.err(), Some(CaptureError::Timestamp { line: "ZZZZ,T0002,25:99:00,16-JUN-2020".to_string() }));
}
