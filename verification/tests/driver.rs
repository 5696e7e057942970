use checkerlib::{run_check, Checker, CheckerResult, Context, Error};
use checkerlib::ipc::{IpcControlInterface, ScriptedTransport};
use checkerlib::local::LocalControlInterface;
use checkerlib::log::{ControlLogger, LogLevel};

struct TrivialChecker {}

impl TrivialChecker {
    fn new() -> Self {
        TrivialChecker {}
    }
}

impl<B: checkerlib::ipc::ControlInterface> Checker<B> for TrivialChecker {
    fn place_flag(&mut self, _context: &mut Context<B>) -> Result<(), Error> {
        Err(Error::CheckerError(CheckerResult::FlagNotFound))
    }

    fn check_flag(&mut self, _context: &mut Context<B>, _tick: u32) -> Result<(), Error> {
        Ok(())
    }

    fn check_service(&mut self, _context: &mut Context<B>) -> Result<(), Error> {
        Ok(())
    }
}

fn local_context(team: u32, tick: u32) -> Context<LocalControlInterface> {
    Context::new(
        String::from("127.0.0.1"),
        team,
        tick,
        true,
        LocalControlInterface::new(),
    )
}

#[test]
fn trivial() {
    let mut checker = TrivialChecker::new();
    let mut context = local_context(1, 0);
    let _ = run_check(&mut context, &mut checker);
    assert_eq!(true, true);
}

struct RecordingChecker {
    ticks: Vec<u32>,
    place_calls: u32,
    service_calls: u32,
    place_result: Result<(), Error>,
}

impl<B: checkerlib::ipc::ControlInterface> Checker<B> for RecordingChecker {
    fn place_flag(&mut self, _context: &mut Context<B>) -> Result<(), Error> {
        self.place_calls += 1;
        self.place_result
    }

    fn check_flag(&mut self, _context: &mut Context<B>, tick: u32) -> Result<(), Error> {
        self.ticks.push(tick);
        Ok(())
    }

    fn check_service(&mut self, _context: &mut Context<B>) -> Result<(), Error> {
        self.service_calls += 1;
        Ok(())
    }
}

#[test]
fn ticks_are_exactly_zero_through_four() {
    let mut checker = RecordingChecker {
        ticks: Vec::new(),
        place_calls: 0,
        service_calls: 0,
        place_result: Ok(()),
    };
    let mut context = local_context(1, 0);
    let r = run_check(&mut context, &mut checker);
    assert_eq!(r, Ok(CheckerResult::Okay));
    assert_eq!(checker.ticks, vec![0, 1, 2, 3, 4]);
    for w in checker.ticks.windows(2) {
        assert!(w[0] < w[1]);
    }
    assert_eq!(checker.place_calls, 1);
    assert_eq!(checker.service_calls, 1);
}

fn ipc_context(team: u32) -> Context<IpcControlInterface<ScriptedTransport>> {
    let script = vec![String::from("{\"response\":\"TESTFLAG\"}"); 8];
    let transport = ScriptedTransport::new(script);
    Context::new(
        String::from("10.0.0.2"),
        team,
        0,
        false,
        IpcControlInterface::new(transport),
    )
}

#[test]
fn faulty_place_flag_stores_exactly_one_faulty_result() {
    let mut checker = RecordingChecker {
        ticks: Vec::new(),
        place_calls: 0,
        service_calls: 0,
        place_result: Err(Error::CheckerError(CheckerResult::Faulty)),
    };
    let mut context = ipc_context(3);
    let r = run_check(&mut context, &mut checker);
    assert_eq!(r, Ok(CheckerResult::Faulty));
    // zero lifecycle calls after the failure
    assert_eq!(checker.ticks.len(), 0);
    assert_eq!(checker.service_calls, 0);
    // exactly one RESULT report went out, carrying Faulty
    let written = &context.ctrl.transport.written;
    assert_eq!(written.len(), 1);
    assert_eq!(written[0], "{\"action\":\"RESULT\",\"param\":\"Faulty\"}");
}

struct HappyChecker {}

impl<B: checkerlib::ipc::ControlInterface> Checker<B> for HappyChecker {
    fn place_flag(&mut self, _context: &mut Context<B>) -> Result<(), Error> {
        Ok(())
    }

    fn check_flag(&mut self, _context: &mut Context<B>, _tick: u32) -> Result<(), Error> {
        Ok(())
    }

    fn check_service(&mut self, _context: &mut Context<B>) -> Result<(), Error> {
        Ok(())
    }
}

#[test]
fn full_success_stores_exactly_one_ok_result() {
    let mut checker = HappyChecker {};
    let mut context = ipc_context(4);
    let r = run_check(&mut context, &mut checker);
    assert_eq!(r, Ok(CheckerResult::Okay));
    let written = &context.ctrl.transport.written;
    let results: Vec<&String> = written
        .iter()
        .filter(|l| l.contains("\"action\":\"RESULT\""))
        .collect();
    assert_eq!(results.len(), 1);
    assert_eq!(results[0], "{\"action\":\"RESULT\",\"param\":\"Ok\"}");
}

struct SecretChecker {
    observed: Vec<String>,
}

impl Checker<LocalControlInterface> for SecretChecker {
    fn place_flag(&mut self, context: &mut Context<LocalControlInterface>) -> Result<(), Error> {
        let encoded = serde_json::to_string("abc123").unwrap();
        context.store_data("secret", &encoded)
    }

    fn check_flag(
        &mut self,
        context: &mut Context<LocalControlInterface>,
        _tick: u32,
    ) -> Result<(), Error> {
        let raw = context.load_data("secret")?;
        let decoded: String = serde_json::from_str(&raw).unwrap();
        self.observed.push(decoded);
        Ok(())
    }

    fn check_service(&mut self, _context: &mut Context<LocalControlInterface>) -> Result<(), Error> {
        Ok(())
    }
}

#[test]
fn local_run_double_serializes_the_stored_secret() {
    let mut checker = SecretChecker { observed: Vec::new() };
    let mut context = local_context(7, 0);
    let r = run_check(&mut context, &mut checker);
    assert_eq!(r, Ok(CheckerResult::Okay));
    // check_flag(0) observed the planted value
    assert_eq!(checker.observed[0], "abc123");
    // the persisted document for team 7 shows the double serialization
    assert_eq!(
        checkerlib::context::state_file_name(7),
        "_7_state.json"
    );
    assert_eq!(
        context.ctrl.to_document(),
        "{\"data\":{\"secret\":\"\\\"abc123\\\"\"}}"
    );
}

#[test]
fn fatal_transport_failure_is_returned_not_stored() {
    let mut checker = HappyChecker {};
    // a dead channel: every write and every read fails
    let transport = ScriptedTransport::failing();
    let mut context = Context::new(
        String::from("10.0.0.2"),
        9,
        0,
        false,
        IpcControlInterface::new(transport),
    );
    // the checker itself succeeds, but storing the outcome fails fatally
    let r = run_check(&mut context, &mut checker);
    assert_eq!(r, Err(Error::IoError));
}

#[test]
fn logger_forwards_only_severe_records() {
    let context = local_context(2, 0);
    let mut logger = ControlLogger::new(context);
    assert!(logger.enabled(&LogLevel::Error));
    assert!(logger.enabled(&LogLevel::Warn));
    assert!(logger.enabled(&LogLevel::Info));
    assert!(!logger.enabled(&LogLevel::Debug));
    assert!(!logger.enabled(&LogLevel::Trace));
    logger.log(&LogLevel::Info, "service reachable");
    logger.flush();
}
