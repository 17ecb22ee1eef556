use vstd::prelude::*;

verus! {

/// The charts a report can hold.
#[derive(Clone, Copy, Debug, PartialEq, Eq, Structural)]
#[allow(non_camel_case_types)]
pub enum ChartsName {
    SYS_SUMM,
    CPU_SUMM,
    CPU_ALL,
    JFSFILE,
    MEM_FREE,
    MEM_ACTIVE,
    MEM_SWAP,
    DISKBUSY_AWMN,
}

impl ChartsName {
    /// The chart's name as written in the report.
    pub open spec fn text(&self) -> Seq<char> {
        match self {
            ChartsName::SYS_SUMM => "SYS_SUMM"@,
            ChartsName::CPU_SUMM => "CPU_SUMM"@,
            ChartsName::CPU_ALL => "CPU_ALL"@,
            ChartsName::JFSFILE => "JFSFILE"@,
            ChartsName::MEM_FREE => "MEM_FREE"@,
            ChartsName::MEM_ACTIVE => "MEM_ACTIVE"@,
            ChartsName::MEM_SWAP => "MEM_SWAP"@,
            ChartsName::DISKBUSY_AWMN => "DISKBUSY_AWMN"@,
        }
    }

    pub fn to_string(&self) -> (r: String)
        ensures
            r@ == self.text(),
    {
        match self {
            ChartsName::SYS_SUMM => "SYS_SUMM".to_owned(),
            ChartsName::CPU_SUMM => "CPU_SUMM".to_owned(),
            ChartsName::CPU_ALL => "CPU_ALL".to_owned(),
            ChartsName::JFSFILE => "JFSFILE".to_owned(),
            ChartsName::MEM_FREE => "MEM_FREE".to_owned(),
            ChartsName::MEM_ACTIVE => "MEM_ACTIVE".to_owned(),
            ChartsName::MEM_SWAP => "MEM_SWAP".to_owned(),
            ChartsName::DISKBUSY_AWMN => "DISKBUSY_AWMN".to_owned(),
        }
    }
}

/// A chart of the report and whether it is shown first.
#[derive(Clone, Debug)]
pub struct Chart {
    name: String,
    selected: String,
}

impl Chart {
    pub closed spec fn name_view(&self) -> Seq<char> {
        self.name@
    }

    pub closed spec fn selected_view(&self) -> Seq<char> {
        self.selected@
    }

    pub fn new(name: &ChartsName, selected: bool) -> (r: Self)
        ensures
            r.name_view() == name.text(),
            r.selected_view() == (if selected { "selected"@ } else { ""@ }),
    {
        if selected {
            Chart { name: name.to_string(), selected: "selected".to_owned() }
        } else {
            Chart { name: name.to_string(), selected: "".to_owned() }
        }
    }

    pub fn name(&self) -> (r: &str)
        ensures
            r@ == self.name_view(),
    {
        self.name.as_str()
    }

    pub fn selected(&self) -> (r: &str)
        ensures
            r@ == self.selected_view(),
    {
        self.selected.as_str()
    }
}

/// A capture file listed in the report.
#[derive(Clone, Debug)]
pub struct NmonFile {
    pub id: String,
    pub name: String,
    pub selected: String,
}

impl NmonFile {
    pub fn new(id: String, name: String, selected: String) -> (r: Self)
        ensures
            r.id == id,
            r.name == name,
            r.selected == selected,
    {
        NmonFile { id, name, selected }
    }
}

/// The report page: its capture files and its charts.
#[derive(Clone, Debug)]
pub struct NmonHtmlTemplate {
    pub nmonfiles: Vec<NmonFile>,
    pub charts: Vec<Chart>,
}

impl NmonHtmlTemplate {
    pub fn new(nmonfiles: Vec<NmonFile>, charts: Vec<Chart>) -> (r: Self)
        ensures
            r.nmonfiles == nmonfiles,
            r.charts == charts,
    {
        NmonHtmlTemplate { nmonfiles, charts }
    }
}

/// The chart options of one capture file.
#[derive(Clone, Debug)]
pub struct EchartsOption {
    pub id: String,
    pub option: String,
}

impl EchartsOption {
    pub fn new(id: String, option: String) -> (r: Self)
        ensures
            r.id == id,
            r.option == option,
    {
        EchartsOption { id, option }
    }
}

/// The chart options of all capture files.
#[derive(Clone, Debug)]
pub struct JsCache {
    pub datas: Vec<EchartsOption>,
}

impl JsCache {
    pub fn new(datas: Vec<EchartsOption>) -> (r: Self)
        ensures
            r.datas == datas,
    {
        JsCache { datas }
    }
}

/// The charting script shipped with the report.
#[derive(Clone, Copy, Debug)]
pub struct Echarts {}

impl Echarts {
    pub fn new() -> (r: Self) {
        Echarts {}
    }
}

/// The template entries for the capture files: one per `(id, name)`, each
/// marked selected.
pub fn nmon_files(template_data: &Vec<(String, String)>) -> (r: Vec<NmonFile>)
    ensures
        r@.len() == template_data@.len(),
        forall|i: int| 0 <= i < r@.len() ==> {
            &&& (#[trigger] r@[i]).id@ == template_data@[i].0@
            &&& r@[i].name@ == template_data@[i].1@
            &&& r@[i].selected@ == "selected"@
        },
{
    let mut r: Vec<NmonFile> = Vec::new();
    let mut i: usize = 0;
    while i < template_data.len()
        invariant
            i <= template_data@.len(),
            r@.len() == i,
            forall|k: int| 0 <= k < i ==> {
                &&& (#[trigger] r@[k]).id@ == template_data@[k].0@
                &&& r@[k].name@ == template_data@[k].1@
                &&& r@[k].selected@ == "selected"@
            },
        decreases template_data.len() - i,
    {
        let (id, name) = &template_data[i];
        r.push(NmonFile::new(id.clone(), name.clone(), "selected".to_owned()));
        i = i + 1;
    }
    r
}

} // verus!
