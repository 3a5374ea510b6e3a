use mpc_session::{get_param, Error, Parameters, Session, TOTAL_USERS};

#[test]
fn hello() {
    assert_eq!(mpc_session::world(), "Hello, world!");
}

#[test]
fn identifiers_are_sequential() {
    let params = Parameters::new([5u8; 32]);
    let mut session = Session::new(params, TOTAL_USERS);
    let a = session.register("Barry").unwrap();
    let b = session.register("Justin").unwrap();
    let c = session.register("Brian").unwrap();
    assert_eq!(a.user_id, 0);
    assert_eq!(b.user_id, 1);
    assert_eq!(c.user_id, 2);
    assert_eq!(a.name, "Barry");
    assert_eq!(b.name, "Justin");
    assert_eq!(c.name, "Brian");
}

#[test]
fn capacity_is_enforced() {
    let params = Parameters::new([5u8; 32]);
    let mut session = Session::new(params, 2);
    session.register("a").unwrap();
    session.register("b").unwrap();
    let r = session.register("c");
    assert_eq!(r.unwrap_err(), Error::CapacityExceeded);
    let (submitted, required, complete) = session.completeness();
    assert_eq!((submitted, required, complete), (0, 2, false));
}

#[test]
fn unknown_participant_is_rejected() {
    let params = Parameters::new([0u8; 32]);
    let mut session = Session::new(params, 3);
    session.register("Barry").unwrap();
    let r = session.submit(7, vec![1, 2], vec![3, 4]);
    assert_eq!(r.unwrap_err(), Error::UnknownParticipant);
    // The registry is unchanged: the next identifier is still 1 and nothing
    // counts as submitted.
    let (submitted, _, _) = session.completeness();
    assert_eq!(submitted, 0);
    assert_eq!(session.register("Justin").unwrap().user_id, 1);
}

#[test]
fn resubmission_is_rejected_and_first_data_kept() {
    let params = Parameters::new([0u8; 32]);
    let mut session = Session::new(params, 1);
    session.register("Barry").unwrap();
    assert_eq!(session.submit(0, vec![10, 11], vec![12, 13]), Ok(0));
    let second = session.submit(0, vec![99], vec![98]);
    assert_eq!(second.unwrap_err(), Error::AlreadyKeySubmitted);
    // The first submission's bytes are what a later run hands out.
    let snapshot = session.run().unwrap();
    assert_eq!(snapshot, vec![(vec![10, 11], vec![12, 13])]);
}

#[test]
fn incomplete_run_is_rejected_without_side_effects() {
    let params = Parameters::new([0u8; 32]);
    let mut session = Session::new(params, 3);
    session.register("Barry").unwrap();
    session.register("Justin").unwrap();
    session.submit(0, vec![1], vec![2]).unwrap();
    let r = session.run();
    assert_eq!(r.unwrap_err(), Error::Incomplete { submitted: 1, required: 3 });
    // No state changed: the same submission still counts, nothing more.
    assert_eq!(session.completeness(), (1, 3, false));
    // And the session is still open: the third registration succeeds.
    assert_eq!(session.register("Brian").unwrap().user_id, 2);
}

#[test]
fn run_is_one_shot() {
    let params = Parameters::new([0u8; 32]);
    let mut session = Session::new(params, 2);
    session.register("a").unwrap();
    session.register("b").unwrap();
    session.submit(0, vec![1], vec![2]).unwrap();
    session.submit(1, vec![3], vec![4]).unwrap();
    let snapshot = session.run().unwrap();
    assert_eq!(snapshot, vec![(vec![1], vec![2]), (vec![3], vec![4])]);
    assert_eq!(session.run().unwrap_err(), Error::AlreadyRun);
    assert_eq!(session.run().unwrap_err(), Error::AlreadyRun);
}

#[test]
fn backend_failure_rolls_back_and_run_is_retryable() {
    let params = Parameters::new([0u8; 32]);
    let mut session = Session::new(params, 1);
    session.register("a").unwrap();
    session.submit(0, vec![1], vec![2]).unwrap();
    session.run().unwrap();
    let r = session.finish_run(false);
    assert_eq!(r.unwrap_err(), Error::BackendFailure);
    // Rolled back: the run step passes again, and a successful backend outcome
    // then closes the session for good.
    let snapshot = session.run().unwrap();
    assert_eq!(snapshot, vec![(vec![1], vec![2])]);
    assert_eq!(session.finish_run(true), Ok(()));
    assert_eq!(session.run().unwrap_err(), Error::AlreadyRun);
}

#[test]
fn parameters_are_immutable_across_registrations() {
    let params = Parameters::new([42u8; 32]);
    let mut session = Session::new(params, 3);
    let before = session.parameters();
    session.register("Barry").unwrap();
    session.register("Justin").unwrap();
    session.submit(0, vec![1], vec![2]).unwrap();
    let after = session.parameters();
    assert_eq!(before, after);
    assert_eq!(after, [42u8; 32]);
    assert_eq!(get_param(&params), [42u8; 32]);
    assert_eq!(params.publish(), [42u8; 32]);
}

#[test]
fn scenario_three_participants() {
    let params = Parameters::new([7u8; 32]);
    let mut session = Session::new(params, 3);
    assert_eq!(session.register("Barry").unwrap().user_id, 0);
    assert_eq!(session.register("Justin").unwrap().user_id, 1);
    assert_eq!(session.register("Brian").unwrap().user_id, 2);
    assert_eq!(
        session.run().unwrap_err(),
        Error::Incomplete { submitted: 0, required: 3 }
    );
    session.submit(0, vec![0, 0], vec![100]).unwrap();
    session.submit(1, vec![1, 1], vec![101]).unwrap();
    session.submit(2, vec![2, 2], vec![102]).unwrap();
    let snapshot = session.run().unwrap();
    assert_eq!(
        snapshot,
        vec![
            (vec![0, 0], vec![100]),
            (vec![1, 1], vec![101]),
            (vec![2, 2], vec![102]),
        ]
    );
    assert_eq!(session.run().unwrap_err(), Error::AlreadyRun);
}

#[test]
fn error_reasons_are_readable() {
    assert_eq!(Error::UnknownParticipant.reason(), "this participant hasn't registered yet");
    assert_eq!(
        Error::Incomplete { submitted: 1, required: 3 }.reason(),
        "some participants haven't submitted yet"
    );
    assert_eq!(Error::AlreadyRun.reason(), "the computation already ran");
}
