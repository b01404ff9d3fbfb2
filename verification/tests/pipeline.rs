use esprit::pipeline::{execute, Job, Pipeline, Stage, StageError};

struct AddOne;
impl Stage<i32> for AddOne {
    fn outcome(&self, input: i32) -> Result<i32, StageError> {
        self.run(input)
    }
    fn run(&self, input: i32) -> Result<i32, StageError> {
        Ok(input + 1)
    }
}

struct Double;
impl Stage<i32> for Double {
    fn outcome(&self, input: i32) -> Result<i32, StageError> {
        self.run(input)
    }
    fn run(&self, input: i32) -> Result<i32, StageError> {
        Ok(input * 2)
    }
}

struct Fail;
impl Stage<i32> for Fail {
    fn outcome(&self, input: i32) -> Result<i32, StageError> {
        self.run(input)
    }
    fn run(&self, _input: i32) -> Result<i32, StageError> {
        Err(StageError { message: "stage failed".to_string() })
    }
}

#[test]
fn stages_run_in_order() {
    let mut p: Pipeline<i32> = Pipeline::new();
    p.add(Box::new(AddOne));
    p.add(Box::new(Double));
    assert_eq!(p.execute(3).ok(), Some(8));
    let empty: Pipeline<i32> = Pipeline::new();
    assert_eq!(empty.execute(5).ok(), Some(5));
}

#[test]
fn the_first_failure_stops_the_pipeline() {
    let mut p: Pipeline<i32> = Pipeline::new();
    p.add(Box::new(AddOne));
    p.add(Box::new(Fail));
    p.add(Box::new(Double));
    match p.execute(1) {
        Err(e) => assert_eq!(e.message, "stage failed"),
        Ok(v) => panic!("unexpected value {v}"),
    }
}

#[test]
fn an_appended_stage_runs_last() {
    let mut p: Pipeline<i32> = Pipeline::new();
    p.add(Box::new(Double));
    let before = p.execute(5).ok().unwrap();
    p.add(Box::new(AddOne));
    assert_eq!(p.execute(5).ok(), Some(before + 1));
}

struct Ping(bool);
impl Job for Ping {
    fn outcome(&self) -> Result<(), StageError> {
        self.run()
    }
    fn run(&self) -> Result<(), StageError> {
        if self.0 { Ok(()) } else { Err(StageError { message: "ping".to_string() }) }
    }
}

#[test]
fn jobs_report_their_result() {
    assert!(execute(Ping(true)).is_ok());
    assert_eq!(execute(Ping(false)).err().map(|e| e.message), Some("ping".to_string()));
}
