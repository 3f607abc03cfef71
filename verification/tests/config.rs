use zeron::config::{
    DEFAULT_EDGE_URL, DEFAULT_WORKOS_CLIENT_ID, Environment, HarnessId, edge_url_from_env,
    engine_config_from_env, harness_from_env, ipc_port_from_env, ui_config_from_env,
    workos_client_id_from_env,
};

fn some(s: &str) -> Option<String> {
    Some(String::from(s))
}

fn bare() -> Environment {
    Environment {
        edge_url: None,
        edge_token: None,
        workos_client_id: None,
        ipc_port: None,
        org_id: None,
        harness: None,
    }
}

fn full() -> Environment {
    Environment {
        edge_url: some("http://localhost:8787"),
        edge_token: some("dev-token"),
        workos_client_id: some("client_x"),
        ipc_port: some("4000"),
        org_id: some("dev-org"),
        harness: some("mock"),
    }
}

#[test]
fn blank_edge_urls_give_the_default() {
    assert_eq!(edge_url_from_env(None), "https://edge.zeron.sh");
    assert_eq!(edge_url_from_env(some("")), DEFAULT_EDGE_URL);
    assert_eq!(edge_url_from_env(some(" \t")), DEFAULT_EDGE_URL);
    assert_eq!(edge_url_from_env(some(" http://x ")), " http://x ");
}

#[test]
fn client_ids_are_resolved() {
    let token = some("t");
    assert_eq!(workos_client_id_from_env(some("id"), &None), some("id"));
    assert_eq!(workos_client_id_from_env(some("id"), &token), some("id"));
    assert_eq!(workos_client_id_from_env(some(""), &None), None);
    assert_eq!(workos_client_id_from_env(some("  "), &token), None);
    assert_eq!(workos_client_id_from_env(None, &token), None);
    assert_eq!(workos_client_id_from_env(None, &some("")), None);
    assert_eq!(
        workos_client_id_from_env(None, &None),
        some("client_01KWD0EAKZKD50YCQJNYSRE4BY")
    );
}

#[test]
fn ports_fall_back_to_the_default() {
    assert_eq!(ipc_port_from_env(&None), 27654);
    assert_eq!(ipc_port_from_env(&some("1")), 1);
    assert_eq!(ipc_port_from_env(&some("+65535")), 65535);
    assert_eq!(ipc_port_from_env(&some("65536")), 27654);
    assert_eq!(ipc_port_from_env(&some(" 1")), 27654);
    assert_eq!(ipc_port_from_env(&some("")), 27654);
}

#[test]
fn harnesses_go_by_their_names() {
    let names = [
        ("mock", HarnessId::Mock),
        ("codex", HarnessId::Codex),
        ("cursor", HarnessId::Cursor),
        ("devin", HarnessId::Devin),
        ("grok", HarnessId::Grok),
        ("hermes", HarnessId::Hermes),
        ("pi", HarnessId::Pi),
        ("antigravity", HarnessId::Antigravity),
        ("other", HarnessId::ClaudeCode),
        ("Mock", HarnessId::ClaudeCode),
        ("", HarnessId::ClaudeCode),
    ];
    for (name, harness) in names {
        assert_eq!(harness_from_env(&some(name)), harness);
        assert_eq!(harness_from_env(&Some(format!(" {name}\n"))), harness);
    }
    assert_eq!(harness_from_env(&None), HarnessId::ClaudeCode);
}

#[test]
fn engines_follow_the_environment() {
    let engine = engine_config_from_env(full());
    assert_eq!(engine.edge_url, "http://localhost:8787");
    assert_eq!(engine.ipc_port, 4000);
    assert_eq!(engine.default_harness, HarnessId::Mock);
    assert_eq!(engine.org_id, some("dev-org"));
    assert_eq!(engine.workos_client_id, some("client_x"));
    assert_eq!(engine.edge_token, some("dev-token"));

    let engine = engine_config_from_env(bare());
    assert_eq!(engine.edge_url, DEFAULT_EDGE_URL);
    assert_eq!(engine.ipc_port, 27654);
    assert_eq!(engine.default_harness, HarnessId::ClaudeCode);
    assert_eq!(engine.org_id, None);
    assert_eq!(engine.workos_client_id, some(DEFAULT_WORKOS_CLIENT_ID));
    assert_eq!(engine.edge_token, None);
}

#[test]
fn the_ui_shares_the_session_of_the_engine() {
    for environment in [bare as fn() -> Environment, full] {
        let engine = engine_config_from_env(environment());
        let ui = ui_config_from_env(environment(), some("zeron://chat/1"));
        assert_eq!(ui.edge_url, engine.edge_url);
        assert_eq!(ui.ipc_port, engine.ipc_port);
        assert_eq!(ui.org_id, engine.org_id);
        assert_eq!(ui.workos_client_id, engine.workos_client_id);
        assert_eq!(ui.edge_token, engine.edge_token);
        assert_eq!(ui.default_harness, HarnessId::ClaudeCode);
        assert_eq!(ui.initial_url, some("zeron://chat/1"));
    }
}
