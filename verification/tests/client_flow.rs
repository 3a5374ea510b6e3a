use mpc_session::{Parameters, Session, User, TOTAL_USERS};

#[test]
fn client_state_steps() {
    let mut user = User::new("Barry");
    assert_eq!(user.name(), "Barry");
    assert_eq!(user.user_id(), None);
    user.assign_seed([9u8; 32]);
    user.set_id(2);
    user.assign_scores(&[1, 2, 3, 4]);
    assert_eq!(user.user_id(), Some(2));
    assert_eq!(user.name(), "Barry");
}

#[test]
fn full_flow() {
    phantom_zone::set_parameter_set(phantom_zone::ParameterSelector::NonInteractiveLTE4Party);

    let params = Parameters::generate();
    let mut session = Session::new(params, TOTAL_USERS);

    let mut users = vec![User::new("Barry"), User::new("Justin"), User::new("Brian")];

    // Acquire seeds; the backend derives each client key, the session state
    // records that the step happened.
    for user in users.iter_mut() {
        let seed: [u8; 32] = session.parameters();
        user.assign_seed(seed);
        let _ck = phantom_zone::gen_client_key();
        user.mark_client_key_derived();
    }

    // Register
    for user in users.iter_mut() {
        let out = session.register("").expect("exists");
        user.set_id(out.user_id);
    }
}
