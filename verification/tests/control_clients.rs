use herdr::api::schema::common::{
    ControlClientAccessMode, ControlClientKind, ControlClientRegisterParams, ControlClientStatus,
    ControlClientTarget,
};
use herdr::app::control_clients::{
    ControlClientRegistry, ControlClientRegistryError, CONTROL_CLIENT_LEASE_MS,
    MAX_CONTROL_CLIENTS,
};
use herdr::app::{App, Effect};

const START: u64 = 1_000_000;

#[test]
fn leases_expire_independently_from_their_registration_time() {
    let mut registry = ControlClientRegistry::default();
    registry.register("first".into(), ControlClientAccessMode::Restricted, START).unwrap();
    registry
        .register("second".into(), ControlClientAccessMode::FullControl, START + 5_000)
        .unwrap();

    registry.expire(START + CONTROL_CLIENT_LEASE_MS);
    assert_eq!(
        registry.status(),
        ControlClientStatus { total_count: 1, restricted_count: 0, full_control_count: 1 }
    );
    registry.expire(START + CONTROL_CLIENT_LEASE_MS + 5_000);
    assert_eq!(registry.status(), ControlClientStatus::default());
}

#[test]
fn heartbeat_renews_only_an_existing_unexpired_lease() {
    let mut registry = ControlClientRegistry::default();
    registry.register("bridge".into(), ControlClientAccessMode::Restricted, START).unwrap();
    registry.heartbeat("bridge", START + 10_000).unwrap();
    registry.expire(START + 16_000);
    assert_eq!(registry.status().total_count, 1);
    assert_eq!(
        registry.heartbeat("missing", START),
        Err(ControlClientRegistryError::NotFound)
    );
    assert_eq!(
        registry.heartbeat("bridge", START + 25_000),
        Err(ControlClientRegistryError::NotFound)
    );
}

#[test]
fn registration_is_idempotent_and_can_change_access_mode() {
    let mut registry = ControlClientRegistry::default();
    registry.register("bridge".into(), ControlClientAccessMode::Restricted, START).unwrap();
    registry
        .register("bridge".into(), ControlClientAccessMode::FullControl, START + 1_000)
        .unwrap();
    assert_eq!(
        registry.status(),
        ControlClientStatus { total_count: 1, restricted_count: 0, full_control_count: 1 }
    );
    registry.unregister("bridge").unwrap();
    registry.unregister("bridge").unwrap();
    assert_eq!(registry.status(), ControlClientStatus::default());
}

#[test]
fn registry_rejects_invalid_ids_and_more_than_sixty_four_clients() {
    let mut registry = ControlClientRegistry::default();
    assert_eq!(
        registry.register("".into(), ControlClientAccessMode::Restricted, START),
        Err(ControlClientRegistryError::InvalidClientId)
    );
    for index in 0..MAX_CONTROL_CLIENTS {
        registry
            .register(format!("bridge-{index}"), ControlClientAccessMode::Restricted, START)
            .unwrap();
    }
    assert_eq!(
        registry.register("overflow".into(), ControlClientAccessMode::Restricted, START),
        Err(ControlClientRegistryError::AtCapacity)
    );
    assert_eq!(registry.status().total_count, 64);
}

#[test]
fn client_ids_are_bounded() {
    let mut registry = ControlClientRegistry::default();
    let long = "x".repeat(128);
    registry.register(long.clone(), ControlClientAccessMode::Restricted, START).unwrap();
    assert_eq!(
        registry.register(long + "x", ControlClientAccessMode::Restricted, START),
        Err(ControlClientRegistryError::InvalidClientId)
    );
    assert_eq!(ControlClientRegistryError::AtCapacity.code(), "too_many_control_clients");
    assert_eq!(
        ControlClientRegistryError::InvalidClientId.message(),
        "client_id must contain between 1 and 128 bytes"
    );
}

fn announcements(app: &App) -> usize {
    app.effects
        .rows
        .iter()
        .filter(|effect| matches!(effect, Effect::AnnounceControlClients(_)))
        .count()
}

fn registration(client_id: &str) -> ControlClientRegisterParams {
    ControlClientRegisterParams {
        client_id: client_id.into(),
        kind: ControlClientKind::Mcp,
        access_mode: ControlClientAccessMode::Restricted,
    }
}

#[test]
fn registration_updates_status_and_emits_only_aggregate_changes() {
    let mut app = App::new("local".into(), true);
    let status = app.handle_control_client_register(registration("mcp"), START).unwrap();
    assert_eq!(status.total_count, 1);
    assert_eq!(status.restricted_count, 1);
    assert_eq!(announcements(&app), 1);
    assert!(matches!(
        &app.effects.rows[0],
        Effect::AnnounceControlClients(status) if status.total_count == 1
    ));

    app.handle_control_client_register(registration("mcp"), START).unwrap();
    assert_eq!(announcements(&app), 1);
}

#[test]
fn unregister_is_idempotent_and_returns_current_status() {
    let mut app = App::new("local".into(), true);
    let status = app
        .handle_control_client_unregister(&ControlClientTarget { client_id: "missing".into() })
        .unwrap();
    assert_eq!(status.total_count, 0);
}

#[test]
fn expired_clients_are_announced_once() {
    let mut app = App::new("local".into(), true);
    app.handle_control_client_register(registration("mcp"), START).unwrap();
    assert!(!app.expire_control_client_leases(START + 1));
    assert!(app.expire_control_client_leases(START + CONTROL_CLIENT_LEASE_MS));
    assert_eq!(app.handle_control_client_status(), ControlClientStatus::default());
    assert_eq!(announcements(&app), 2);
    let err = app
        .handle_control_client_heartbeat(&ControlClientTarget { client_id: "mcp".into() }, START)
        .unwrap_err();
    assert_eq!(err.code, ControlClientRegistryError::NotFound.code());
}
