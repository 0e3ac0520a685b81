use coding::{Code, CodingSystem, JobDescription, RowFault};

#[test]
fn create_job_description() {
    let code: Code = Code::new("11-1011", "", "soc 2018");
    println!("The code is: {code:?}");
    assert_eq!(code.code, "11-1011");
    assert_eq!(code.coding_system, "soc 2018");

    let job: JobDescription = JobDescription {
        job_title: String::from("Dentist"),
        job_task: String::from(""),
        occupation_code: Code::new("29-1021", "", "soc 2018"),
    };
    assert_eq!(job.job_title, "Dentist");
    assert_eq!(job.occupation_code.code, "29-1021");
    assert_eq!(job.occupation_code.coding_system, "soc 2018");

    let job = JobDescription::new(
        "Dentist",
        "clean teeth",
        Code::new("29-1021", "Dentists, General", "soc 2018"),
    );
    assert_eq!(job.job_title, "Dentist");
    assert_eq!(job.job_task, "clean teeth");
    assert_eq!(job.occupation_code.code, "29-1021");
    assert_eq!(job.occupation_code.title, "Dentists, General");
    assert_eq!(job.occupation_code.coding_system, "soc 2018");
}

#[test]
fn clear_resets_every_field() {
    let mut job = JobDescription::new("Dentist", "clean teeth", Code::new("29-1021", "Dentists, General", "soc 2018"));
    job.clear();
    assert_eq!(job.job_title, "");
    assert_eq!(job.job_task, "");
    assert_eq!(job.occupation_code, Code::new("", "", ""));
}

#[test]
fn add_code_appends_with_current_name() {
    let mut system = CodingSystem {
        name: String::from("soc 2018"),
        codes: vec![Code::new("11-0000", "Management Occupations", "soc 2018")],
    };
    system.add_code("99-9997", "No Clue");
    assert_eq!(system.codes.len(), 2);
    let code = system.codes.get(system.codes.len() - 1).unwrap();
    println!("===> {:?}", code);
    assert_eq!(code.code, "99-9997");
    assert_eq!(code.title, "No Clue");
    assert_eq!(code.coding_system, "soc 2018");
    assert_eq!(system.codes[0], Code::new("11-0000", "Management Occupations", "soc 2018"));
}

#[test]
fn default_values_are_blank() {
    let code = Code::default();
    assert_eq!(code, Code::new("", "", ""));
    let job = JobDescription::default();
    assert_eq!(job.job_title, "");
    assert_eq!(job.job_task, "");
    assert_eq!(job.occupation_code, Code::new("", "", ""));
}

#[test]
fn from_record_maps_columns() {
    let rec = vec![String::from("11-0000"), String::from("Management Occupations")];
    let code = Code::from_record(&rec, 0, 1, "soc 2018").unwrap();
    assert_eq!(code, Code::new("11-0000", "Management Occupations", "soc 2018"));

    let empty: Vec<String> = vec![];
    assert_eq!(Code::from_record(&empty, 0, 1, "soc 2018"), Err(RowFault::MissingCode));
    let only_code = vec![String::from("11-0000")];
    assert_eq!(Code::from_record(&only_code, 0, 1, "soc 2018"), Err(RowFault::MissingTitle));
}

#[test]
fn display_string_renders_row() {
    let code = Code::new("11-1011", "Chief Executives", "soc 2018");
    assert_eq!(code.display_string(), "| soc 2018 | 11-1011 | Chief Executives");
}
