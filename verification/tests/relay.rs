use codex_enhanced::relay::{
    client_name, control_method, failed_action, not_a_request, plan_action, remote_control_policy,
    rpc_error, ControlAction, ControlMethod, ControlParams, Relay, RelayAction, RelayEvent,
    RemoteControlPolicy, RequestId,
};

#[test]
fn methods_are_known_by_their_names() {
    for (name, method) in [
        ("remoteControl/enable", ControlMethod::Enable),
        ("remoteControl/disable", ControlMethod::Disable),
        ("remoteControl/status/read", ControlMethod::StatusRead),
        ("remoteControl/pairing/start", ControlMethod::PairingStart),
        ("remoteControl/pairing/status", ControlMethod::PairingStatus),
        ("remoteControl/client/list", ControlMethod::ClientList),
        ("remoteControl/client/revoke", ControlMethod::ClientRevoke),
    ] {
        assert_eq!(control_method(name), Ok(method));
    }
    let error = control_method("thread/start").unwrap_err();
    assert_eq!(error.code, -32601);
    assert_eq!(error.message, "unsupported relay control method: thread/start");
}

#[test]
fn requests_become_actions() {
    let toggle = |ephemeral| Ok(ControlParams::Toggle { ephemeral });
    let unread = || Ok(ControlParams::Unread);
    assert_eq!(plan_action(ControlMethod::Enable, toggle(true)), Ok(ControlAction::EnableEphemeral));
    assert_eq!(plan_action(ControlMethod::Enable, toggle(false)), Ok(ControlAction::Enable));
    assert_eq!(
        plan_action(ControlMethod::Disable, toggle(true)),
        Ok(ControlAction::DisableEphemeral)
    );
    assert_eq!(plan_action(ControlMethod::Disable, toggle(false)), Ok(ControlAction::Disable));
    assert_eq!(
        plan_action(ControlMethod::StatusRead, Err("ignored".into())),
        Ok(ControlAction::ReadStatus)
    );
    assert_eq!(plan_action(ControlMethod::PairingStart, unread()), Ok(ControlAction::StartPairing));
    assert_eq!(plan_action(ControlMethod::ClientList, unread()), Ok(ControlAction::ListClients));
    assert_eq!(plan_action(ControlMethod::ClientRevoke, unread()), Ok(ControlAction::RevokeClient));
    let error = plan_action(ControlMethod::ClientList, Err("missing field".into())).unwrap_err();
    assert_eq!(error, rpc_error(-32602, "missing field"));
}

#[test]
fn a_pairing_is_asked_for_by_exactly_one_code() {
    let ask = |code: Option<&str>, manual: Option<&str>| {
        plan_action(
            ControlMethod::PairingStatus,
            Ok(ControlParams::Pairing {
                pairing_code: code.map(str::to_string),
                manual_pairing_code: manual.map(str::to_string),
            }),
        )
    };
    assert_eq!(ask(Some("a"), None), Ok(ControlAction::ReadPairingStatus));
    assert_eq!(ask(None, Some("b")), Ok(ControlAction::ReadPairingStatus));
    for refused in [ask(None, None), ask(Some("a"), Some("b"))] {
        let error = refused.unwrap_err();
        assert_eq!(error.code, -32602);
        assert_eq!(error.message, "pairing status requires exactly one pairing code");
    }
}

#[test]
fn what_is_no_request_or_fails_is_answered_with_an_error() {
    let (id, error) = not_a_request();
    assert_eq!(id, RequestId::Integer(0));
    assert_eq!(error.code, -32600);
    assert_eq!(error.message, "relay control expects a JSON-RPC request");
    assert_eq!(failed_action("broken pipe"), rpc_error(-32603, "broken pipe"));
}

#[test]
fn names_and_policies() {
    assert_eq!(client_name(Some(" desktop ".into())), Some(" desktop ".into()));
    assert_eq!(client_name(Some(" \t".into())), None);
    assert_eq!(client_name(None), None);
    assert_eq!(remote_control_policy(None), RemoteControlPolicy::Allowed);
    assert_eq!(remote_control_policy(Some(true)), RemoteControlPolicy::Allowed);
    assert_eq!(
        remote_control_policy(Some(false)),
        RemoteControlPolicy::DisabledByRequirements
    );
}

#[test]
fn messages_go_to_open_connections_only() {
    let mut relay = Relay::new();
    let message = RelayEvent::HostMessage { connection: 7 };
    assert_eq!(relay.step(message), RelayAction::Nothing);
    assert_eq!(
        relay.step(RelayEvent::ConnectionOpened { connection: 7 }),
        RelayAction::TellOpen { connection: 7 }
    );
    assert_eq!(relay.step(message), RelayAction::Forward { connection: 7 });
    assert_eq!(
        relay.step(RelayEvent::HostMessage { connection: 8 }),
        RelayAction::Nothing
    );
    assert_eq!(
        relay.step(RelayEvent::ConnectionMessage { connection: 7 }),
        RelayAction::TellMessage { connection: 7 }
    );
    assert_eq!(
        relay.step(RelayEvent::ConnectionClosed { connection: 7 }),
        RelayAction::TellClosed { connection: 7 }
    );
    assert_eq!(relay.step(message), RelayAction::Nothing);
    assert_eq!(relay.step(RelayEvent::HostControl), RelayAction::AnswerControl);
    assert_eq!(relay.step(RelayEvent::HostNoise), RelayAction::Nothing);
    assert_eq!(relay.step(RelayEvent::HostClosed), RelayAction::Stop);
    assert_eq!(relay.step(RelayEvent::RemoteClosed), RelayAction::Stop);
}
