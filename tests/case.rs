use ckb_bench::case::{
    advance_past_switch, all_cases, before_run, case_name, expected_extension_result,
    is_rfc0221_switched, is_rfc0224_switched, rfc0224_options, run_case, since_matured,
    rfc0221_options, AdvanceStep, Case, CaseKind, CaseOptions, ExtensionError, NodeOptions,
    RFC0221AfterSwitch, RFC0224AfterSwitch, RunScript, SetupStep,
};

fn node(name: &str) -> NodeOptions {
    NodeOptions {
        node_name: name.to_string(),
        newer_binary: true,
        initial_database: String::new(),
        chain_spec: String::new(),
        app_config: String::new(),
    }
}

#[test]
fn case_name_is_last_path_segment() {
    assert_eq!(case_name("ckb_integration_test::case::rfc0224::RFC0224AfterSwitch"), "RFC0224AfterSwitch");
    assert_eq!(case_name("Plain"), "Plain");
    assert_eq!(case_name(""), "");
    assert_eq!(RFC0224AfterSwitch.case_name(), "RFC0224AfterSwitch");
}

#[test]
fn cases_listed() {
    assert_eq!(all_cases(), vec![CaseKind::RFC0234AfterSwitchRelayTransaction]);
    assert!(run_case(CaseKind::RFC0234AfterSwitchRelayTransaction).is_none());
}

#[test]
fn case_options_name_their_node() {
    let o = rfc0224_options();
    assert!(!o.make_all_nodes_connected && !o.make_all_nodes_synced && !o.make_all_nodes_connected_and_synced);
    let n = &o.node_options[0];
    assert_eq!(
        (n.node_name.as_str(), n.newer_binary, n.initial_database.as_str(), n.chain_spec.as_str(), n.app_config.as_str()),
        ("node2021", true, "db/Epoch2V2TestData", "spec/ckb2021", "config/ckb2021")
    );
    let o = rfc0221_options();
    assert!(o.make_all_nodes_connected && o.make_all_nodes_synced && o.make_all_nodes_connected_and_synced);
    let n = &o.node_options[0];
    assert_eq!(
        (n.node_name.as_str(), n.initial_database.as_str(), n.chain_spec.as_str(), n.app_config.as_str()),
        ("ckb-fork2021", "db/Epoch2V2TestData", "spec/ckb-fork2021", "config/ckb-fork2021")
    );
    assert_eq!(RFC0221AfterSwitch.case_name(), "RFC0221AfterSwitch");
    assert_eq!(RFC0224AfterSwitch.case_options().node_options.len(), 1);
}

#[test]
fn run_scripts_of_the_cases() {
    match run_case(CaseKind::RFC0221AfterSwitch).unwrap().script {
        RunScript::TimeLock { blocks_past_switch, relative_secs } => {
            assert_eq!((blocks_past_switch, relative_secs), (37, 2));
        }
        other => panic!("unexpected script {:?}", other),
    }
    match run_case(CaseKind::RFC0224AfterSwitch).unwrap().script {
        RunScript::Extensions(checks) => {
            let sizes: Vec<Option<usize>> = checks.iter().map(|c| c.size).collect();
            assert_eq!(sizes, vec![None, Some(0), Some(1), Some(16), Some(32), Some(64), Some(96), Some(97)]);
            assert_eq!(checks[1].expected, Err(ExtensionError::EmptyExtension));
            assert_eq!(checks[6].expected, Ok(()));
            assert_eq!(checks[7].expected, Err(ExtensionError::ExceedsMaxLimit));
        }
        other => panic!("unexpected script {:?}", other),
    }
}

#[test]
fn run_case_sets_up_nodes() {
    let r = run_case(CaseKind::RFC0224AfterSwitch).unwrap();
    assert_eq!(r.name, "RFC0224AfterSwitch");
    assert_eq!(r.setup, vec![SetupStep::Start(0)]);
    let r = run_case(CaseKind::RFC0221AfterSwitch).unwrap();
    assert_eq!(r.name, "RFC0221AfterSwitch");
    assert_eq!(
        r.setup,
        vec![
            SetupStep::Start(0),
            SetupStep::Mine(0),
            SetupStep::ConnectAll,
            SetupStep::Mine(0),
            SetupStep::WaitForSync
        ]
    );
    assert_eq!(rfc0224_options().node_options[0].node_name, "node2021");
}

#[test]
fn setup_connects_and_syncs_separately() {
    let options = CaseOptions {
        make_all_nodes_connected: true,
        make_all_nodes_synced: true,
        make_all_nodes_connected_and_synced: false,
        node_options: vec![node("a"), node("b"), node("c")],
    };
    assert_eq!(
        before_run(&options),
        vec![
            SetupStep::Start(0),
            SetupStep::Start(1),
            SetupStep::Start(2),
            SetupStep::ConnectAll,
            SetupStep::Mine(0),
            SetupStep::SubmitTipTo(1),
            SetupStep::SubmitTipTo(2),
            SetupStep::WaitForSync
        ]
    );
}

#[test]
fn switch_epochs() {
    assert!(!is_rfc0224_switched(2));
    assert!(is_rfc0224_switched(3));
    assert!(!is_rfc0221_switched(0));
    assert!(is_rfc0221_switched(4));
}

#[test]
fn extension_sizes() {
    let cases = vec![
        (None, Ok(())),
        (Some(0), Err(ExtensionError::EmptyExtension)),
        (Some(1), Ok(())),
        (Some(16), Ok(())),
        (Some(32), Ok(())),
        (Some(64), Ok(())),
        (Some(96), Ok(())),
        (Some(97), Err(ExtensionError::ExceedsMaxLimit)),
    ];
    for (size, expected) in cases {
        assert_eq!(expected_extension_result(size), expected);
    }
}

#[test]
fn advancing_past_switch() {
    assert_eq!(advance_past_switch(2, 37), (AdvanceStep::Mine, 37));
    assert_eq!(advance_past_switch(3, 37), (AdvanceStep::MineAndWait, 36));
    assert_eq!(advance_past_switch(5, 0), (AdvanceStep::Done, 0));
}

#[test]
fn time_lock_maturity() {
    assert!(since_matured(1_000, 2_000, 3_000));
    assert!(!since_matured(1_000, 2_000, 2_999));
    assert!(!since_matured(u64::MAX, 1, u64::MAX));
}

#[test]
fn setup_of_no_nodes_without_sync() {
    let options = CaseOptions {
        make_all_nodes_connected: true,
        make_all_nodes_synced: false,
        make_all_nodes_connected_and_synced: false,
        node_options: vec![],
    };
    assert_eq!(before_run(&options), vec![SetupStep::ConnectAll]);
}
