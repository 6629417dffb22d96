//! The client: loading and saving, cache reads, and the stateful operations
//! driven with hand-built response bodies.

use space_traders::conditional_types::NonEmptyString;
use space_traders::json::parse_json;
use space_traders::ship::ShipStatus;
use space_traders::space_traders_client::{AcceptStep, HttpMethod, NavStep, SpaceTradersClient};
use space_traders::SpaceTradersError;

fn agent_json(credits: i64) -> String {
    format!(
        r#"{{"accountId":"acct-1","symbol":"TST-RS-02","headquarters":"X1-ZA40-15970B","credits":{credits}}}"#
    )
}

fn contract_json(id: &str, on_accepted: i64, on_fulfilled: i64, units_required: i64, deadline: &str, expiration: &str, accepted: bool) -> String {
    format!(
        r#"{{"id":"{id}","factionSymbol":"COSMIC","type":"PROCUREMENT","terms":{{"deadline":"{deadline}","payment":{{"onAccepted":{oa},"onFulfilled":{of}}},"deliver":[{{"tradeSymbol":"IRON_ORE","destinationSymbol":"X1-ZA40-15970B","unitsRequired":{ur},"unitsFulfilled":0}}]}},"accepted":{acc},"fulfilled":false,"expiration":"{exp}"}}"#,
        id = id, deadline = deadline, oa = on_accepted, of = on_fulfilled, ur = units_required,
        acc = accepted, exp = expiration
    )
}

fn faction_json() -> String {
    r#"{"symbol":"COSMIC","name":"Cosmic Engineers","description":"Pioneers of deep space.","headquarters":"X1-ZA40-15970B","traits":[]}"#.to_string()
}

fn ship_json(symbol: &str, status: &str, cargo_units: i64) -> String {
    format!(
        r#"{{"symbol":"{sym}","registration":{{"name":"{sym}","factionSymbol":"COSMIC","role":"COMMAND"}},"nav":{{"systemSymbol":"X1-ZA40","waypointSymbol":"X1-ZA40-15970B","route":{{"destination":{{"symbol":"X1-ZA40-15970B","type":"PLANET","systemSymbol":"X1-ZA40","x":10,"y":0}},"departure":{{"symbol":"X1-ZA40-15970B","type":"PLANET","systemSymbol":"X1-ZA40","x":10,"y":0}},"departureTime":"2023-05-13T17:48:46.579Z","arrival":"2023-05-13T17:48:46.579Z"}},"status":"{status}","flightMode":"CRUISE"}},"crew":{{"current":0,"required":59,"capacity":80,"rotation":"STRICT","morale":100,"wages":0}},"frame":{{"symbol":"FRAME_FRIGATE","name":"Frame Frigate","description":"A medium-sized craft.","condition":100,"moduleSlots":8,"mountingPoints":5,"fuelCapacity":1200,"requirements":{{"power":8,"crew":25,"slots":null}}}},"reactor":{{"symbol":"REACTOR_FISSION_I","name":"Fission Reactor I","description":"A basic fission reactor.","condition":100,"powerOutput":31,"requirements":{{"power":null,"crew":8,"slots":null}}}},"engine":{{"symbol":"ENGINE_ION_DRIVE_II","name":"Ion Drive II","description":"An advanced drive.","condition":100,"speed":30,"requirements":{{"power":6,"crew":8,"slots":null}}}},"modules":[],"mounts":[],"cargo":{{"capacity":60,"units":{cu},"inventory":[]}},"fuel":{{"current":1200,"capacity":1200,"consumed":{{"amount":0,"timestamp":"2023-05-13T17:48:46.579Z"}}}}}}"#,
        sym = symbol, status = status, cu = cargo_units
    )
}

fn cache_json(agent: &str, contracts: &[String], ships: &[String]) -> String {
    format!(
        r#"{{"agent":{agent},"contracts":[{contracts}],"faction":{faction},"ships":[{ships}]}}"#,
        agent = agent,
        contracts = contracts.join(","),
        faction = faction_json(),
        ships = ships.join(",")
    )
}

fn save_text(token: &str, cache: &str) -> String {
    format!("{token}\n{cache}")
}

fn sym(s: &str) -> NonEmptyString {
    NonEmptyString::new(s).unwrap()
}

#[test]
fn contract_can_list_contracts() {
    let cache = cache_json(
        &agent_json(100_000),
        &[contract_json("clhr6zx0r07s2s60daxqce7b1", 100_280, 401_120, 10_900,
            "2023-05-24T04:18:05.930Z", "2023-05-20T04:18:05.930Z", false)],
        &[],
    );
    let client = SpaceTradersClient::load_saved(&save_text("tok-1", &cache)).unwrap();

    let contracts = client.contracts().unwrap();

    assert_eq!(contracts.len() as i32, 1);

    let contract = &contracts[0];
    assert_eq!(contract.id.as_str(), "clhr6zx0r07s2s60daxqce7b1");
    assert_eq!(contract.faction_symbol, space_traders::faction::FactionSymbol::Cosmic);
    assert_eq!(contract.contract_type, space_traders::contract::ContractType::Procurement);

    let terms = &contract.terms;
    assert_eq!(terms.deadline.as_str(), "2023-05-24T04:18:05.930Z");
    assert_eq!(terms.payment.on_accepted, 100_280);
    assert_eq!(terms.payment.on_fulfilled, 401_120);

    let deliver = &terms.deliver[0];
    assert_eq!(terms.deliver.len(), 1);
    assert_eq!(deliver.trade_symbol.as_str(), "IRON_ORE");
    assert_eq!(deliver.destination_symbol.as_str(), "X1-ZA40-15970B");
    assert_eq!(deliver.units_required, 10_900);
    assert_eq!(deliver.units_fulfilled, 0);

    assert!(!contract.accepted);
    assert!(!contract.fulfilled);
    assert_eq!(contract.expiration.as_str(), "2023-05-20T04:18:05.930Z");
}

#[test]
fn space_traders_client_can_list_contracts() {
    let cache = cache_json(
        &agent_json(100_000),
        &[contract_json("clhqpuitz9hq8s60dbv97zf8p", 109_980, 439_920, 11_700,
            "2023-05-23T20:18:00.791Z", "2023-05-19T20:18:00.791Z", false)],
        &[],
    );
    let client = SpaceTradersClient::load_saved(&save_text("tok-1", &cache)).unwrap();

    let contracts = client.contracts().unwrap();

    assert_eq!(contracts.len() as i32, 1);

    let contract = &contracts[0];
    assert_eq!(contract.id.as_str(), "clhqpuitz9hq8s60dbv97zf8p");
    assert_eq!(contract.faction_symbol, space_traders::faction::FactionSymbol::Cosmic);
    assert_eq!(contract.contract_type, space_traders::contract::ContractType::Procurement);

    let terms = &contract.terms;
    assert_eq!(terms.deadline.as_str(), "2023-05-23T20:18:00.791Z");
    assert_eq!(terms.payment.on_accepted, 109_980);
    assert_eq!(terms.payment.on_fulfilled, 439_920);

    let deliver = &terms.deliver[0];
    assert_eq!(terms.deliver.len(), 1);
    assert_eq!(deliver.trade_symbol.as_str(), "IRON_ORE");
    assert_eq!(deliver.destination_symbol.as_str(), "X1-ZA40-15970B");
    assert_eq!(deliver.units_required, 11_700);
    assert_eq!(deliver.units_fulfilled, 0);

    assert!(!contract.accepted);
    assert!(!contract.fulfilled);
    assert_eq!(contract.expiration.as_str(), "2023-05-19T20:18:00.791Z");
}

#[test]
fn save_and_load_round_trip() {
    let cache = cache_json(
        &agent_json(100_000),
        &[contract_json("c-1", 100_280, 401_120, 10_900,
            "2023-05-24T04:18:05.930Z", "2023-05-20T04:18:05.930Z", false)],
        &[ship_json("TST-RS-02-1", "DOCKED", 15)],
    );
    let client = SpaceTradersClient::load_saved(&save_text("tok-1", &cache)).unwrap();

    let saved = client.save_client().unwrap();
    let reloaded = SpaceTradersClient::load_saved(&saved).unwrap();

    // equal in all fields: the canonical save of the reload is byte-identical
    let saved_again = reloaded.save_client().unwrap();
    assert_eq!(saved, saved_again);

    let a = reloaded.agent().unwrap();
    assert_eq!(a.symbol.as_str(), "TST-RS-02");
    assert_eq!(a.credits, 100_000);
    let contracts = reloaded.contracts().unwrap();
    assert_eq!(contracts[0].id.as_str(), "c-1");
    let ships = reloaded.ships().unwrap();
    assert_eq!(ships.len(), 1);
    assert_eq!(ships[0].symbol.as_str(), "TST-RS-02-1");
    assert_eq!(ships[0].cargo.units.get(), 15);
    assert_eq!(ships[0].nav.status, ShipStatus::Docked);
}

#[test]
fn load_rejects_missing_lines_and_bad_json() {
    assert!(matches!(
        SpaceTradersClient::load_saved("only a token, no newline"),
        Err(SpaceTradersError::InvalidSave(_))
    ));
    assert!(matches!(
        SpaceTradersClient::load_saved("tok-1\nnot json at all"),
        Err(SpaceTradersError::JsonError(_))
    ));
    assert!(matches!(
        SpaceTradersClient::load_saved("tok-1\n{\"agent\":null}"),
        Err(SpaceTradersError::JsonError(_))
    ));
}

#[test]
fn accept_contract_is_idempotent_and_pays_once() {
    let cache = cache_json(
        &agent_json(100_000),
        &[contract_json("c-1", 100_280, 401_120, 10_900,
            "2023-05-24T04:18:05.930Z", "2023-05-20T04:18:05.930Z", false)],
        &[],
    );
    let mut client = SpaceTradersClient::load_saved(&save_text("tok-1", &cache)).unwrap();
    let id = sym("c-1");

    // first acceptance goes to the server
    let step = client.accept_contract_begin(&id).unwrap();
    let req = match step {
        AcceptStep::Call(req) => req,
        AcceptStep::AlreadyAccepted => panic!("expected a call"),
    };
    assert_eq!(req.method, HttpMethod::Post);
    assert_eq!(req.url, "https://api.spacetraders.io/v2/my/contracts/c-1/accept");

    let response = parse_json(&format!(
        r#"{{"data":{{"agent":{},"contract":{}}}}}"#,
        agent_json(200_280),
        contract_json("c-1", 100_280, 401_120, 10_900,
            "2023-05-24T04:18:05.930Z", "2023-05-20T04:18:05.930Z", true)
    )).unwrap();
    client.accept_contract_complete(&id, &response).unwrap();

    assert!(client.contracts().unwrap()[0].accepted);
    assert_eq!(client.agent().unwrap().credits, 100_000 + 100_280);

    // second acceptance short-circuits: no call, success, credits unchanged
    let step = client.accept_contract_begin(&id).unwrap();
    assert!(matches!(step, AcceptStep::AlreadyAccepted));
    client.accept_contract_complete(&id, &response).unwrap();
    assert!(client.contracts().unwrap()[0].accepted);
    assert_eq!(client.agent().unwrap().credits, 100_000 + 100_280);
}

#[test]
fn accept_contract_unknown_id_fails_before_any_call() {
    let cache = cache_json(
        &agent_json(100_000),
        &[contract_json("c-1", 100_280, 401_120, 10_900,
            "2023-05-24T04:18:05.930Z", "2023-05-20T04:18:05.930Z", false)],
        &[],
    );
    let client = SpaceTradersClient::load_saved(&save_text("tok-1", &cache)).unwrap();
    let before = client.save_client().unwrap();

    let missing = sym("c-unknown");
    match client.accept_contract_begin(&missing) {
        Err(SpaceTradersError::InvalidContractId(s)) => assert_eq!(s, "c-unknown"),
        other => panic!("expected the unknown-contract error, got {other:?}"),
    }

    // the cache is byte-for-byte unchanged
    assert_eq!(client.save_client().unwrap(), before);
}

#[test]
fn dock_ship_when_docked_makes_no_call() {
    let cache = cache_json(
        &agent_json(100_000),
        &[],
        &[ship_json("X1-SHIP-1", "DOCKED", 0)],
    );
    let client = SpaceTradersClient::load_saved(&save_text("tok-1", &cache)).unwrap();

    match client.dock_ship_begin(&sym("X1-SHIP-1")).unwrap() {
        NavStep::Current(nav) => {
            assert_eq!(nav.status, ShipStatus::Docked);
            assert_eq!(nav.system_symbol.as_str(), "X1-ZA40");
            assert_eq!(nav.waypoint_symbol.as_str(), "X1-ZA40-15970B");
        }
        NavStep::Call(_) => panic!("an already-docked ship must not produce a call"),
    }

    // same for orbit: an in-orbit ship short-circuits
    let cache = cache_json(&agent_json(100_000), &[], &[ship_json("X1-SHIP-1", "IN_ORBIT", 0)]);
    let client = SpaceTradersClient::load_saved(&save_text("tok-1", &cache)).unwrap();
    match client.orbit_ship_begin(&sym("X1-SHIP-1")).unwrap() {
        NavStep::Current(nav) => assert_eq!(nav.status, ShipStatus::InOrbit),
        NavStep::Call(_) => panic!("an in-orbit ship must not produce a call"),
    }
}

#[test]
fn dock_ship_applies_server_nav() {
    let cache = cache_json(
        &agent_json(100_000),
        &[],
        &[ship_json("X1-SHIP-1", "IN_ORBIT", 0)],
    );
    let mut client = SpaceTradersClient::load_saved(&save_text("tok-1", &cache)).unwrap();

    let req = match client.dock_ship_begin(&sym("X1-SHIP-1")).unwrap() {
        NavStep::Call(req) => req,
        NavStep::Current(_) => panic!("expected a call"),
    };
    assert_eq!(req.url, "https://api.spacetraders.io/v2/my/ships/X1-SHIP-1/dock");

    let response = parse_json(r#"{"data":{"nav":{"systemSymbol":"X1-ZA40","waypointSymbol":"X1-ZA40-15970B","route":{"destination":{"symbol":"X1-ZA40-15970B","type":"PLANET","systemSymbol":"X1-ZA40","x":10,"y":0},"departure":{"symbol":"X1-ZA40-15970B","type":"PLANET","systemSymbol":"X1-ZA40","x":10,"y":0},"departureTime":"2023-05-13T17:48:46.579Z","arrival":"2023-05-13T17:48:46.579Z"},"status":"DOCKED","flightMode":"CRUISE"}}}"#).unwrap();
    let nav = client.dock_ship_complete(&sym("X1-SHIP-1"), &response).unwrap();
    assert_eq!(nav.status, ShipStatus::Docked);
    assert_eq!(client.ships().unwrap()[0].nav.status, ShipStatus::Docked);
}

#[test]
fn register_callsign_length_is_checked_before_any_call() {
    let client = SpaceTradersClient::new();

    // 14 characters: accepted, a request is produced
    let req = client
        .register_callsign_begin("ABCDEFGHIJKLMN", None)
        .unwrap();
    assert_eq!(req.method, HttpMethod::Post);
    assert_eq!(req.url, "https://api.spacetraders.io/v2/register");

    // 2 characters and 15 characters: rejected before any call
    assert!(matches!(
        client.register_callsign_begin("AB", None),
        Err(SpaceTradersError::InvalidCallsignLength)
    ));
    assert!(matches!(
        client.register_callsign_begin("ABCDEFGHIJKLMNO", None),
        Err(SpaceTradersError::InvalidCallsignLength)
    ));
}

#[test]
fn register_error_envelope_keeps_token_unset() {
    let mut client = SpaceTradersClient::new();
    let response = parse_json(
        r#"{"error":{"code":4009,"message":"Agent symbol already exists","data":null}}"#,
    ).unwrap();

    match client.register_callsign_complete(&response) {
        Err(SpaceTradersError::ResponseError(e)) => {
            assert_eq!(e.code(), 4009);
            assert_eq!(e.message(), "Agent symbol already exists");
        }
        other => panic!("expected the server error, got {other:?}"),
    }
    assert!(!client.has_token());
}

#[test]
fn register_success_populates_cache_and_token() {
    let mut client = SpaceTradersClient::new();
    let response = parse_json(&format!(
        r#"{{"data":{{"token":"tok-reg","agent":{},"contract":{},"faction":{},"ship":{}}}}}"#,
        agent_json(100_000),
        contract_json("c-1", 100_280, 401_120, 10_900,
            "2023-05-24T04:18:05.930Z", "2023-05-20T04:18:05.930Z", false),
        faction_json(),
        ship_json("TST-RS-02-1", "DOCKED", 15)
    )).unwrap();

    client.register_callsign_complete(&response).unwrap();
    assert!(client.has_token());
    assert_eq!(client.agent().unwrap().credits, 100_000);
    assert_eq!(client.contracts().unwrap().len(), 1);
    assert_eq!(client.ships().unwrap().len(), 1);
}

#[test]
fn extract_resources_replaces_exactly_that_ships_cargo() {
    let cache = cache_json(
        &agent_json(100_000),
        &[],
        &[ship_json("X1-SHIP-1", "IN_ORBIT", 0), ship_json("X1-SHIP-2", "DOCKED", 3)],
    );
    let mut client = SpaceTradersClient::load_saved(&save_text("tok-1", &cache)).unwrap();

    let req = client
        .extract_resources_begin(&sym("X1-SHIP-1"), &None)
        .unwrap();
    assert_eq!(req.url, "https://api.spacetraders.io/v2/my/ships/X1-SHIP-1/extract");
    assert!(req.body.is_none());

    let response = parse_json(r#"{"data":{"cooldown":{"shipSymbol":"X1-SHIP-1","totalSeconds":70,"remainingSeconds":70,"expiration":"2023-05-20T04:18:05.930Z"},"extraction":{"shipSymbol":"X1-SHIP-1","yield":{"symbol":"IRON_ORE","units":15}},"cargo":{"capacity":60,"units":15,"inventory":[{"symbol":"IRON_ORE","name":"Iron Ore","description":"Raw ore.","units":15}]}}}"#).unwrap();
    let (cooldown, extraction) = client
        .extract_resources_complete(&sym("X1-SHIP-1"), &response)
        .unwrap();
    assert_eq!(cooldown.ship_symbol.as_str(), "X1-SHIP-1");
    assert_eq!(extraction.yield_.units, 15);

    let ships = client.ships().unwrap();
    // exactly that ship's cargo was replaced
    assert_eq!(ships[0].symbol.as_str(), "X1-SHIP-1");
    assert_eq!(ships[0].cargo.capacity.get(), 60);
    assert_eq!(ships[0].cargo.units.get(), 15);
    assert_eq!(ships[0].cargo.inventory.len(), 1);
    assert_eq!(ships[0].cargo.inventory[0].symbol.as_str(), "IRON_ORE");
    // the other ship and the agent are untouched
    assert_eq!(ships[1].cargo.units.get(), 3);
    assert_eq!(ships[1].cargo.inventory.len(), 0);
    assert_eq!(client.agent().unwrap().credits, 100_000);
}

#[test]
fn buy_ship_appends_ship_and_replaces_agent() {
    let cache = cache_json(&agent_json(200_000), &[], &[ship_json("TST-RS-02-1", "DOCKED", 0)]);
    let mut client = SpaceTradersClient::load_saved(&save_text("tok-1", &cache)).unwrap();

    let req = client
        .buy_ship_begin(space_traders::ship::ShipType::ShipMiningDrone, &sym("X1-ZA40-68707C"))
        .unwrap();
    assert_eq!(req.url, "https://api.spacetraders.io/v2/my/ships");

    let response = parse_json(&format!(
        r#"{{"data":{{"agent":{},"ship":{},"transactions":{{"waypointSymbol":"X1-ZA40-68707C","shipSymbol":"TST-RS-02-2","price":80000,"agentSymbol":"TST-RS-02","timestamp":"2023-05-20T04:18:05.930Z"}}}}}}"#,
        agent_json(120_000),
        ship_json("TST-RS-02-2", "DOCKED", 0)
    )).unwrap();
    let tx = client.buy_ship_complete(&response).unwrap();
    assert_eq!(tx.price.get(), 80_000);
    assert_eq!(client.agent().unwrap().credits, 120_000);
    assert_eq!(client.ships().unwrap().len(), 2);
    assert_eq!(client.ships().unwrap()[1].symbol.as_str(), "TST-RS-02-2");
}

#[test]
fn find_shipyards_filters_by_trait() {
    let cache = cache_json(&agent_json(100_000), &[], &[]);
    let client = SpaceTradersClient::load_saved(&save_text("tok-1", &cache)).unwrap();

    let req = client.find_shipyards_begin(&sym("X1-ZA40")).unwrap();
    assert_eq!(req.url, "https://api.spacetraders.io/v2/systems/X1-ZA40/waypoints");

    // one waypoint with the shipyard trait, one without
    let listing = r#"{"data":[{"symbol":"X1-ZA40-68707C","type":"ORBITAL_STATION","systemSymbol":"X1-ZA40","x":-44,"y":-22,"orbitals":[],"faction":null,"traits":[{"symbol":"SHIPYARD","name":"Shipyard","description":"Builds ships."}],"chart":null},{"symbol":"X1-ZA40-15970B","type":"PLANET","systemSymbol":"X1-ZA40","x":10,"y":0,"orbitals":[],"faction":null,"traits":[{"symbol":"MARKETPLACE","name":"Marketplace","description":"Trade hub."}],"chart":null}],"meta":{"total":2,"limit":20,"page":1}}"#;
    let response = parse_json(listing).unwrap();
    let yards = client.find_shipyards_complete(&response).unwrap();
    assert_eq!(yards.len(), 1);
    assert_eq!(yards[0].symbol.as_str(), "X1-ZA40-68707C");
    assert_eq!(yards[0].x, -44);
    assert_eq!(yards[0].y, -22);
}
