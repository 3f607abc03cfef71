//! What the environment configures.

use crate::text::{
    blank, decimal, is_blank, only_spelled_numbers_are_read, parse_u16, same,
    spelled_numbers_are_read, trim, trimmed, trimming_gives_back_the_core,
    trimming_takes_white_space_only, u16_of, zeros,
};
use vstd::prelude::*;

verus! {

/// The edge that an engine syncs with where `ZERON_EDGE_URL` names no other.
pub const DEFAULT_EDGE_URL: &'static str = "https://edge.zeron.sh";

/// The client that users sign in to where `ZERON_WORKOS_CLIENT_ID` names no other.
/// It is public: it appears in every address that a sign-in visits.
pub const DEFAULT_WORKOS_CLIENT_ID: &'static str = "client_01KWD0EAKZKD50YCQJNYSRE4BY";

/// The port that an engine listens on where `ZERON_IPC_PORT` names no other.
pub const DEFAULT_IPC_PORT: u16 = 27654;

/// What runs the agent of a chat.
#[derive(Copy, Clone, Debug, PartialEq, Eq, Structural)]
pub enum HarnessId {
    Mock,
    Codex,
    Cursor,
    Devin,
    Grok,
    Hermes,
    Pi,
    Antigravity,
    ClaudeCode,
}

/// The variables of the environment that configure `zeron`. One that is not set,
/// or not Unicode, is absent.
#[derive(Debug)]
pub struct Environment {
    /// `ZERON_EDGE_URL`
    pub edge_url: Option<String>,
    /// `ZERON_EDGE_TOKEN`
    pub edge_token: Option<String>,
    /// `ZERON_WORKOS_CLIENT_ID`
    pub workos_client_id: Option<String>,
    /// `ZERON_IPC_PORT`
    pub ipc_port: Option<String>,
    /// `ZERON_ORG_ID`
    pub org_id: Option<String>,
    /// `ZERON_HARNESS`
    pub harness: Option<String>,
}

/// How an engine is configured, apart from where it keeps its data.
#[derive(Debug)]
pub struct EngineConfig {
    pub edge_url: String,
    pub ipc_port: u16,
    pub default_harness: HarnessId,
    pub org_id: Option<String>,
    pub workos_client_id: Option<String>,
    pub edge_token: Option<String>,
}

/// How the UI is configured, apart from where it keeps its data.
#[derive(Debug)]
pub struct UiConfig {
    pub edge_url: String,
    pub ipc_port: u16,
    pub default_harness: HarnessId,
    pub org_id: Option<String>,
    pub workos_client_id: Option<String>,
    pub edge_token: Option<String>,
    pub initial_url: Option<String>,
}

/// The characters of a variable, if it is set.
pub open spec fn value_of(variable: Option<String>) -> Option<Seq<char>> {
    match variable {
        Some(value) => Some(value@),
        None => None,
    }
}

/// The edge that `variable` names. A blank name is none.
pub open spec fn edge_url_of(variable: Option<Seq<char>>) -> Seq<char> {
    match variable {
        Some(url) => if is_blank(url) {
            DEFAULT_EDGE_URL@
        } else {
            url
        },
        None => DEFAULT_EDGE_URL@,
    }
}

/// The client that `variable` names. A blank name asks for none, and so does the
/// token of a development edge where no client is named.
pub open spec fn client_id_of(variable: Option<Seq<char>>, token: bool) -> Option<Seq<char>> {
    match variable {
        Some(id) => if is_blank(id) {
            None
        } else {
            Some(id)
        },
        None => if token {
            None
        } else {
            Some(DEFAULT_WORKOS_CLIENT_ID@)
        },
    }
}

/// The port that `variable` names. What is no port names none.
pub open spec fn ipc_port_of(variable: Option<Seq<char>>) -> u16 {
    match variable {
        Some(port) => match u16_of(port) {
            Some(port) => port,
            None => DEFAULT_IPC_PORT,
        },
        None => DEFAULT_IPC_PORT,
    }
}

/// The harness that `variable` names, white space around the name aside.
pub open spec fn harness_of(variable: Option<Seq<char>>) -> HarnessId {
    match variable {
        Some(name) => {
            let name = trimmed(name);
            if name == "mock"@ {
                HarnessId::Mock
            } else if name == "codex"@ {
                HarnessId::Codex
            } else if name == "cursor"@ {
                HarnessId::Cursor
            } else if name == "devin"@ {
                HarnessId::Devin
            } else if name == "grok"@ {
                HarnessId::Grok
            } else if name == "hermes"@ {
                HarnessId::Hermes
            } else if name == "pi"@ {
                HarnessId::Pi
            } else if name == "antigravity"@ {
                HarnessId::Antigravity
            } else {
                HarnessId::ClaudeCode
            }
        },
        None => HarnessId::ClaudeCode,
    }
}

/// The edge that `variable`, the value of `ZERON_EDGE_URL`, names.
pub fn edge_url_from_env(variable: Option<String>) -> (r: String)
    ensures
        r@ == edge_url_of(value_of(variable)),
{
    match variable {
        Some(url) => if blank(url.as_str()) {
            DEFAULT_EDGE_URL.to_owned()
        } else {
            url
        },
        None => DEFAULT_EDGE_URL.to_owned(),
    }
}

/// The client that `variable`, the value of `ZERON_WORKOS_CLIENT_ID`, names: a name
/// wins, a blank one forces development mode; otherwise a token keeps development
/// mode, and without one sign-in is on offer.
pub fn workos_client_id_from_env(variable: Option<String>, edge_token: &Option<String>) -> (r:
    Option<String>)
    ensures
        value_of(r) == client_id_of(value_of(variable), edge_token is Some),
{
    match variable {
        Some(id) => if blank(id.as_str()) {
            None
        } else {
            Some(id)
        },
        None => match edge_token {
            Some(_) => None,
            None => Some(DEFAULT_WORKOS_CLIENT_ID.to_owned()),
        },
    }
}

/// The port that `variable`, the value of `ZERON_IPC_PORT`, names.
pub fn ipc_port_from_env(variable: &Option<String>) -> (r: u16)
    ensures
        r == ipc_port_of(value_of(*variable)),
{
    match variable {
        Some(port) => match parse_u16(port.as_str()) {
            Some(port) => port,
            None => DEFAULT_IPC_PORT,
        },
        None => DEFAULT_IPC_PORT,
    }
}

/// The harness that `variable`, the value of `ZERON_HARNESS`, names: it runs the
/// chats that name none of their own.
pub fn harness_from_env(variable: &Option<String>) -> (r: HarnessId)
    ensures
        r == harness_of(value_of(*variable)),
{
    match variable {
        Some(name) => {
            let name = trim(name.as_str());
            if same(name, "mock") {
                HarnessId::Mock
            } else if same(name, "codex") {
                HarnessId::Codex
            } else if same(name, "cursor") {
                HarnessId::Cursor
            } else if same(name, "devin") {
                HarnessId::Devin
            } else if same(name, "grok") {
                HarnessId::Grok
            } else if same(name, "hermes") {
                HarnessId::Hermes
            } else if same(name, "pi") {
                HarnessId::Pi
            } else if same(name, "antigravity") {
                HarnessId::Antigravity
            } else {
                HarnessId::ClaudeCode
            }
        },
        None => HarnessId::ClaudeCode,
    }
}

impl EngineConfig {
    /// This is how `environment` configures an engine.
    pub open spec fn follows(self, environment: Environment) -> bool {
        &&& self.edge_url@ == edge_url_of(value_of(environment.edge_url))
        &&& self.ipc_port == ipc_port_of(value_of(environment.ipc_port))
        &&& self.default_harness == harness_of(value_of(environment.harness))
        &&& self.org_id == environment.org_id
        &&& value_of(self.workos_client_id) == client_id_of(
            value_of(environment.workos_client_id),
            environment.edge_token is Some,
        )
        &&& self.edge_token == environment.edge_token
    }
}

impl UiConfig {
    /// This is how `environment` configures a UI that opens `initial_url`.
    pub open spec fn follows(self, environment: Environment, initial_url: Option<String>) -> bool {
        &&& self.edge_url@ == edge_url_of(value_of(environment.edge_url))
        &&& self.ipc_port == ipc_port_of(value_of(environment.ipc_port))
        &&& self.default_harness == HarnessId::ClaudeCode
        &&& self.org_id == environment.org_id
        &&& value_of(self.workos_client_id) == client_id_of(
            value_of(environment.workos_client_id),
            environment.edge_token is Some,
        )
        &&& self.edge_token == environment.edge_token
        &&& self.initial_url == initial_url
    }
}

/// How `environment` configures an engine. Everything that runs an engine or signs
/// in to one goes by this, so that all of them mean the same session.
pub fn engine_config_from_env(environment: Environment) -> (r: EngineConfig)
    ensures
        r.follows(environment),
{
    let workos_client_id = workos_client_id_from_env(
        environment.workos_client_id,
        &environment.edge_token,
    );
    EngineConfig {
        edge_url: edge_url_from_env(environment.edge_url),
        ipc_port: ipc_port_from_env(&environment.ipc_port),
        default_harness: harness_from_env(&environment.harness),
        org_id: environment.org_id,
        workos_client_id,
        edge_token: environment.edge_token,
    }
}

/// How `environment` configures the UI that opens `initial_url`.
pub fn ui_config_from_env(environment: Environment, initial_url: Option<String>) -> (r: UiConfig)
    ensures
        r.follows(environment, initial_url),
{
    let workos_client_id = workos_client_id_from_env(
        environment.workos_client_id,
        &environment.edge_token,
    );
    UiConfig {
        edge_url: edge_url_from_env(environment.edge_url),
        ipc_port: ipc_port_from_env(&environment.ipc_port),
        default_harness: HarnessId::ClaudeCode,
        org_id: environment.org_id,
        workos_client_id,
        edge_token: environment.edge_token,
        initial_url,
    }
}

/// A UI and an engine that start in the same environment mean the same session:
/// the same edge, port, organisation, client and token.
pub proof fn ui_and_engine_share_a_session(
    environment: Environment,
    engine: EngineConfig,
    ui: UiConfig,
    initial_url: Option<String>,
)
    requires
        engine.follows(environment),
        ui.follows(environment, initial_url),
    ensures
        ui.edge_url@ == engine.edge_url@,
        ui.ipc_port == engine.ipc_port,
        ui.org_id == engine.org_id,
        value_of(ui.workos_client_id) == value_of(engine.workos_client_id),
        ui.edge_token == engine.edge_token,
{
}

/// All engines and sign-ins that start in the same environment mean the same
/// session, and the same harness.
pub proof fn engines_share_a_session(
    environment: Environment,
    one: EngineConfig,
    other: EngineConfig,
)
    requires
        one.follows(environment),
        other.follows(environment),
    ensures
        one.edge_url@ == other.edge_url@,
        one.ipc_port == other.ipc_port,
        one.default_harness == other.default_harness,
        one.org_id == other.org_id,
        value_of(one.workos_client_id) == value_of(other.workos_client_id),
        one.edge_token == other.edge_token,
{
}

/// A client that is named wins over a token; a blank name forces development mode
/// with or without one; where none is named, a token alone decides.
pub proof fn a_named_client_wins(id: Seq<char>, token: bool)
    ensures
        !is_blank(id) ==> client_id_of(Some(id), token) == Some(id),
        is_blank(id) ==> client_id_of(Some(id), token) is None,
        client_id_of(None, token) is None <==> token,
{
}

/// An edge that is named wins, whatever it is called, and is taken to the letter; the default
/// is for a name that is missing or blank, and for no other.
pub proof fn a_named_edge_wins(url: Seq<char>)
    ensures
        !is_blank(url) ==> edge_url_of(Some(url)) == url,
        is_blank(url) ==> edge_url_of(Some(url)) == "https://edge.zeron.sh"@,
        edge_url_of(None) == "https://edge.zeron.sh"@,
{
}

/// Where no client is named and there is no token, sign-in is on offer with the default one,
/// and the token's own text never matters.
pub proof fn sign_in_is_on_offer_by_default()
    ensures
        client_id_of(None, false) == Some("client_01KWD0EAKZKD50YCQJNYSRE4BY"@),
        client_id_of(None, true) is None,
{
}

/// A port is taken from every way to spell it, with a plus sign or without, with zeros in front
/// or without.
pub proof fn a_spelled_port_is_taken(port: u16, count: nat)
    ensures
        ipc_port_of(Some(zeros(count) + decimal(port as nat))) == port,
        ipc_port_of(Some(seq!['+'] + (zeros(count) + decimal(port as nat)))) == port,
{
    spelled_numbers_are_read(port as nat, count);
}

/// What spells no port gives the default one: a port other than that was spelled.
pub proof fn other_ports_are_spelled(variable: Option<Seq<char>>)
    ensures
        variable is None ==> ipc_port_of(variable) == 27654,
        ipc_port_of(variable) != 27654 ==> variable is Some && exists|count: nat|
            ({
                let spelled = #[trigger] zeros(count) + decimal(ipc_port_of(variable) as nat);
                variable->0 == spelled || variable->0 == seq!['+'] + spelled
            }),
{
    if let Some(port) = variable {
        if u16_of(port) is Some {
            only_spelled_numbers_are_read(port);
        }
    }
}

/// The name that a harness goes by, for those that have to be named.
pub open spec fn harness_name(harness: HarnessId) -> Option<Seq<char>> {
    match harness {
        HarnessId::Mock => Some("mock"@),
        HarnessId::Codex => Some("codex"@),
        HarnessId::Cursor => Some("cursor"@),
        HarnessId::Devin => Some("devin"@),
        HarnessId::Grok => Some("grok"@),
        HarnessId::Hermes => Some("hermes"@),
        HarnessId::Pi => Some("pi"@),
        HarnessId::Antigravity => Some("antigravity"@),
        HarnessId::ClaudeCode => None,
    }
}

/// Every harness that has a name is chosen by it, with any white space around it.
pub proof fn harnesses_are_chosen_by_name(harness: HarnessId, before: Seq<char>, behind: Seq<char>)
    requires
        harness != HarnessId::ClaudeCode,
        is_blank(before),
        is_blank(behind),
    ensures
        harness_of(Some(before + harness_name(harness)->0 + behind)) == harness,
{
    reveal_strlit("mock");
    reveal_strlit("codex");
    reveal_strlit("cursor");
    reveal_strlit("devin");
    reveal_strlit("grok");
    reveal_strlit("hermes");
    reveal_strlit("pi");
    reveal_strlit("antigravity");
    let name = harness_name(harness)->0;
    trimming_gives_back_the_core(before, name, behind);
    assert("mock"@.len() == 4 && "codex"@.len() == 5 && "cursor"@.len() == 6 && "devin"@.len() == 5
        && "grok"@.len() == 4 && "hermes"@.len() == 6 && "pi"@.len() == 2 && "antigravity"@.len()
        == 11);
    assert("mock"@[0] == 'm' && "grok"@[0] == 'g' && "codex"@[0] == 'c' && "devin"@[0] == 'd'
        && "cursor"@[0] == 'c' && "hermes"@[0] == 'h');
}

/// A harness is chosen by its own name and by no other text; every text that is the name of none
/// leaves the default one, and so does none at all.
pub proof fn harnesses_are_chosen_by_nothing_else(variable: Option<Seq<char>>)
    ensures
        harness_of(variable) != HarnessId::ClaudeCode ==> variable is Some && exists|
            before: Seq<char>,
            behind: Seq<char>,
        |
            is_blank(before) && is_blank(behind) && variable->0 == #[trigger] (before
                + harness_name(harness_of(variable))->0 + behind),
        harness_of(None) == HarnessId::ClaudeCode,
{
    if let Some(text) = variable {
        trimming_takes_white_space_only(text);
        if harness_of(variable) != HarnessId::ClaudeCode {
            assert(trimmed(text) == harness_name(harness_of(variable))->0);
        }
    }
}

/// An engine takes from the environment what is set there: the organisation and the token as they
/// are, a named edge and a named client to the letter, a spelled port; and each is its own matter,
/// whatever the others are.
pub proof fn engines_take_what_is_set(engine: EngineConfig, environment: Environment)
    requires
        engine.follows(environment),
    ensures
        engine.org_id == environment.org_id,
        engine.edge_token == environment.edge_token,
        environment.edge_url matches Some(url) ==> !is_blank(url@) ==> engine.edge_url@ == url@,
        environment.edge_url matches Some(url) ==> is_blank(url@) ==> engine.edge_url@
            == "https://edge.zeron.sh"@,
        environment.edge_url is None ==> engine.edge_url@ == "https://edge.zeron.sh"@,
        environment.workos_client_id matches Some(id) ==> !is_blank(id@) ==> (
        engine.workos_client_id matches Some(client) && client@ == id@),
        environment.workos_client_id matches Some(id) ==> is_blank(id@)
            ==> engine.workos_client_id is None,
        environment.workos_client_id is None ==> (engine.workos_client_id is None
            <==> environment.edge_token is Some),
        environment.workos_client_id is None ==> (engine.workos_client_id matches Some(client)
            ==> client@ == "client_01KWD0EAKZKD50YCQJNYSRE4BY"@),
        engine.ipc_port == ipc_port_of(value_of(environment.ipc_port)),
        engine.default_harness == harness_of(value_of(environment.harness)),
{
}

/// A UI takes the same from the environment, opens the address that it was given, and has the
/// default harness whatever the environment says.
pub proof fn uis_take_what_is_set(
    ui: UiConfig,
    environment: Environment,
    initial_url: Option<String>,
)
    requires
        ui.follows(environment, initial_url),
    ensures
        ui.org_id == environment.org_id,
        ui.edge_token == environment.edge_token,
        environment.edge_url matches Some(url) ==> !is_blank(url@) ==> ui.edge_url@ == url@,
        environment.edge_url matches Some(url) ==> is_blank(url@) ==> ui.edge_url@
            == "https://edge.zeron.sh"@,
        environment.edge_url is None ==> ui.edge_url@ == "https://edge.zeron.sh"@,
        environment.workos_client_id matches Some(id) ==> !is_blank(id@) ==> (
        ui.workos_client_id matches Some(client) && client@ == id@),
        environment.workos_client_id matches Some(id) ==> is_blank(id@)
            ==> ui.workos_client_id is None,
        environment.workos_client_id is None ==> (ui.workos_client_id is None
            <==> environment.edge_token is Some),
        environment.workos_client_id is None ==> (ui.workos_client_id matches Some(client)
            ==> client@ == "client_01KWD0EAKZKD50YCQJNYSRE4BY"@),
        ui.ipc_port == ipc_port_of(value_of(environment.ipc_port)),
        ui.default_harness == HarnessId::ClaudeCode,
        ui.initial_url == initial_url,
{
}

}
