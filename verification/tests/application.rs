use esprit::application::{measure, App};
use esprit::pipeline::StageError;

#[test]
fn measured_work_keeps_its_name() {
    let b = measure("index", || Ok(())).ok().unwrap();
    assert_eq!(b.name, "index");
    let _app = App::default();
}

#[test]
fn measured_failures_pass_through() {
    let r = measure("boom", || Err(StageError { message: "bad".to_string() }));
    match r {
        Err(e) => assert_eq!(e.message, "bad"),
        Ok(_) => panic!("failure lost"),
    }
}
