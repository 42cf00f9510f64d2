use bambu_overlay::bambu::models::{CloudDevice, PrinterStatus, UserPreference};
use bambu_overlay::cloud::{
    cloud_mqtt_startup, explicit_cloud_devices, Bound, Startup, Step,
};
use bambu_overlay::devices::{
    catalog_device_ids, catalog_devices, cloud_mqtt_device_ids, ensure_unique_local_device_ids,
    ensure_video_device_exists, finalize_local_device, local_device_ids, local_video_endpoint, probe_succeeded,
    resolve_catalog_video_access, resolve_devices, resolve_local_device_access,
    resolve_video_endpoints, should_enumerate_cloud_catalog, DeviceSource, KnownDevice,
    ResolvedDevices,
};
use bambu_overlay::local::{LocalDevice, LocalDeviceConfig, MqttEndpoint};
use bambu_overlay::table::NameSet;
use bambu_overlay::video::VideoEndpoint;

fn pending_local(id: &str, value: &str) -> (String, LocalDeviceConfig) {
    let endpoint: LocalDeviceConfig = value.parse().expect("local device should parse");
    (id.to_owned(), endpoint)
}

fn local(id: &str, value: &str) -> LocalDevice {
    finalize_local_device(pending_local(id, value)).expect("local device should be complete")
}

fn endpoint(value: &str) -> VideoEndpoint {
    value.parse().expect("video endpoint should parse")
}

fn explicit_video_endpoint(device_id: &str, value: &str) -> (String, VideoEndpoint) {
    (device_id.to_owned(), endpoint(value))
}

fn names(values: &[&str]) -> NameSet {
    let mut set = NameSet::new();
    for value in values {
        set.insert((*value).to_owned());
    }
    set
}

fn done<T>(step: Step<T>) -> T {
    match step {
        Step::Done(value) => value,
        Step::ReadBound => panic!("bound devices should not be needed"),
    }
}

fn mqtt_endpoint(value: &str) -> MqttEndpoint {
    value.parse().expect("MQTT endpoint should parse")
}

#[test]
fn catalog_uses_local_device_when_ids_overlap() {
    let local_devices = vec![local("printer-a", "192.168.1.50,12345678,Office")];
    let catalog = catalog_devices(
        vec![
            CloudDevice {
                id: Some("printer-a".to_owned()),
                name: Some("Cloud Office".to_owned()),
                access_code: Some("87654321".to_owned()),
                ..CloudDevice::default()
            },
            CloudDevice {
                id: Some("printer-b".to_owned()),
                name: Some("Garage".to_owned()),
                ..CloudDevice::default()
            },
        ],
        &local_devices,
        &local_device_ids(&local_devices),
    );

    assert_eq!(catalog.len(), 2);
    assert_eq!(catalog[0].id.as_deref(), Some("printer-b"));
    assert_eq!(catalog[1].id.as_deref(), Some("printer-a"));
    assert_eq!(catalog[1].access_code.as_deref(), Some("12345678"));
}

#[test]
fn catalog_device_ids_ignores_devices_without_ids() {
    let ids = catalog_device_ids(&vec![
        KnownDevice::from_cloud(CloudDevice {
            id: Some("printer-a".to_owned()),
            ..CloudDevice::default()
        }),
        KnownDevice::from_cloud(CloudDevice::default()),
    ]);

    assert_eq!(ids.len(), 1);
    assert!(ids.contains("printer-a"));
}

#[test]
fn local_video_endpoint_uses_host_and_default_port() {
    let device = local("printer-a", "192.168.1.50,12345678,Office");

    assert_eq!(local_video_endpoint(&device), endpoint("192.168.1.50:6000"));
}

#[test]
fn local_device_name_defaults_to_device_id_when_missing() {
    let device = done(
        resolve_local_device_access(
            &pending_local("printer-a", "192.168.1.50,12345678"),
            &vec![],
            &Bound::new(false),
        )
        .unwrap(),
    );

    assert_eq!(device.name.as_deref(), Some("printer-a"));
}

#[test]
fn local_device_name_keeps_explicit_name() {
    let device = done(
        resolve_local_device_access(
            &pending_local("printer-a", "192.168.1.50,12345678,Office"),
            &vec![],
            &Bound::new(false),
        )
        .unwrap(),
    );

    assert_eq!(device.name.as_deref(), Some("Office"));
}

#[test]
fn missing_local_access_code_errors_when_no_metadata_source_exists() {
    let local_device = pending_local("printer-a", "192.168.1.50");

    let error =
        resolve_local_device_access(&local_device, &vec![], &Bound::new(false)).unwrap_err();

    assert!(error.contains("Bambu Cloud token"));
}

#[test]
fn explicit_video_requires_matching_known_device() {
    let endpoint = endpoint("192.168.1.50");
    let error =
        ensure_video_device_exists(&endpoint, "printer-a", &names(&["printer-b"])).unwrap_err();

    assert!(error.contains("--video-device"));
    assert!(error.contains("printer-a"));
    assert!(error.contains("no matching cloud or local device"));
}

#[test]
fn cloud_catalog_enumeration_only_happens_when_no_devices_are_configured() {
    assert!(should_enumerate_cloud_catalog(true, &vec![], &vec![]));
    assert!(!should_enumerate_cloud_catalog(false, &vec![], &vec![]));
    assert!(!should_enumerate_cloud_catalog(
        true,
        &vec!["printer-a".to_owned()],
        &vec![]
    ));
    assert!(!should_enumerate_cloud_catalog(
        true,
        &vec![],
        &vec![pending_local("printer-a", "192.168.1.50,12345678")]
    ));
}

#[test]
fn video_access_code_can_resolve_matching_local_and_catalog_devices() {
    let video = vec![explicit_video_endpoint("printer-a", "192.168.1.50,12345678")];
    let bound = Bound::new(false);
    let local_device = done(
        resolve_local_device_access(&pending_local("printer-a", "192.168.1.50"), &video, &bound)
            .unwrap(),
    );
    assert_eq!(local_device.access_code.as_deref(), Some("12345678"));

    let mut catalog = vec![KnownDevice::from_cloud(CloudDevice {
        id: Some("printer-a".to_owned()),
        ..CloudDevice::default()
    })];
    done(resolve_catalog_video_access(&mut catalog, &video, &bound).unwrap());
    assert_eq!(catalog[0].access_code.as_deref(), Some("12345678"));
}

#[test]
fn catalog_video_access_loads_bind_only_when_code_is_missing() {
    let video = vec![explicit_video_endpoint("printer-a", "192.168.1.50")];
    let mut catalog = vec![KnownDevice::from_cloud(CloudDevice {
        id: Some("printer-a".to_owned()),
        ..CloudDevice::default()
    })];

    let error =
        resolve_catalog_video_access(&mut catalog, &video, &Bound::new(false)).unwrap_err();

    assert!(error.contains("Bambu Cloud token"));

    let mut catalog = vec![KnownDevice::from_cloud(CloudDevice {
        id: Some("printer-a".to_owned()),
        access_code: Some("12345678".to_owned()),
        ..CloudDevice::default()
    })];
    done(resolve_catalog_video_access(&mut catalog, &video, &Bound::new(true)).unwrap());
    assert_eq!(catalog[0].access_code.as_deref(), Some("12345678"));
}

#[test]
fn cloud_mqtt_startup_skips_when_no_cloud_devices_exist() {
    let startup =
        cloud_mqtt_startup(None, &mqtt_endpoint("mqtt.example.test"), &vec![], None).unwrap();

    assert!(matches!(startup, Startup::NotNeeded));
}

#[test]
fn cloud_mqtt_startup_requires_cloud_session_for_cloud_devices() {
    let error = match cloud_mqtt_startup(
        None,
        &mqtt_endpoint("mqtt.example.test"),
        &vec!["printer-a".to_owned()],
        None,
    ) {
        Ok(_) => panic!("cloud MQTT startup should require a cloud session"),
        Err(error) => error,
    };

    assert!(error.contains("Bambu Cloud token"));
}

#[test]
fn explicit_cloud_devices_do_not_require_cloud_session_for_catalog() {
    let devices = explicit_cloud_devices(&vec!["printer-a".to_owned()]);

    assert_eq!(devices.len(), 1);
    assert_eq!(devices[0].id.as_deref(), Some("printer-a"));
    assert_eq!(devices[0].access_code, None);
}

#[test]
fn explicit_cloud_devices_returns_empty_catalog_for_empty_config() {
    let devices = explicit_cloud_devices(&vec![]);

    assert!(devices.is_empty());
}

#[test]
fn cloud_metadata_requires_cloud_session() {
    let error = Bound::new(false).devices().unwrap_err();

    assert!(error.contains("/bind metadata"));
    assert!(error.contains("Bambu Cloud token"));
}

#[test]
fn cloud_mqtt_startup_asks_for_preferences_and_uses_them() {
    let token = "token".to_owned();
    let ids = vec!["printer-a".to_owned(), "printer-b".to_owned()];
    let endpoint = mqtt_endpoint("mqtt.example.test:1");
    assert!(matches!(
        cloud_mqtt_startup(Some(&token), &endpoint, &ids, None),
        Ok(Startup::ReadPreference)
    ));
    let preference = UserPreference { uid: Some(" u_42 ".to_owned()) };
    match cloud_mqtt_startup(Some(&token), &endpoint, &ids, Some(&preference)).unwrap() {
        Startup::Ready(startup) => {
            assert_eq!(startup.user_id, "42");
            assert_eq!(startup.access_token, "token");
            assert_eq!(startup.device_ids, ids);
            assert_eq!(startup.endpoint, endpoint);
        }
        _ => panic!("startup should be ready"),
    }
    let nobody = UserPreference { uid: Some("u_".to_owned()) };
    assert_eq!(
        cloud_mqtt_startup(Some(&token), &endpoint, &ids, Some(&nobody)).unwrap_err(),
        "could not derive MQTT user id from user preference"
    );
}

#[test]
fn bound_devices_are_kept_without_their_prints() {
    let mut device = CloudDevice {
        id: Some("printer-a".to_owned()),
        model_name: Some("X1".to_owned()),
        ..CloudDevice::default()
    };
    device.status.task_id = Some("1".to_owned());
    match Bound::read(&vec![device]).devices().unwrap() {
        Step::Done(devices) => {
            assert_eq!(devices[0].id.as_deref(), Some("printer-a"));
            assert_eq!(devices[0].model_name.as_deref(), Some("X1"));
            assert_eq!(devices[0].status, PrinterStatus::default());
        }
        Step::ReadBound => panic!("devices were read"),
    };
}

#[test]
fn local_access_falls_back_to_bound_devices() {
    let pending = pending_local("printer-a", "192.168.1.50");
    assert!(matches!(
        resolve_local_device_access(&pending, &vec![], &Bound::new(true)),
        Ok(Step::ReadBound)
    ));
    let bound = Bound::read(&vec![
        CloudDevice { id: Some("printer-b".to_owned()), ..CloudDevice::default() },
        CloudDevice {
            id: Some("printer-a".to_owned()),
            name: Some("Office".to_owned()),
            access_code: Some("12345678".to_owned()),
            ..CloudDevice::default()
        },
    ]);
    let device = done(resolve_local_device_access(&pending, &vec![], &bound).unwrap());
    assert_eq!(device.access_code.as_deref(), Some("12345678"));
    assert_eq!(device.name.as_deref(), Some("Office"));

    let unknown = pending_local("printer-c", "192.168.1.50");
    assert_eq!(
        resolve_local_device_access(&unknown, &vec![], &bound).unwrap_err(),
        "--local-device `printer-c` is missing an access code; provide ACCESS_CODE or cloud metadata that exposes dev_access_code"
    );
}

#[test]
fn repeated_local_ids_are_refused() {
    let devices = vec![
        pending_local("printer-a", "10.0.0.1,1"),
        pending_local("printer-b", "10.0.0.2,1"),
        pending_local("printer-a", "10.0.0.3,1"),
    ];
    assert_eq!(
        ensure_unique_local_device_ids(&devices).unwrap_err(),
        "--local-device resolves duplicate device id `printer-a`"
    );
    assert!(ensure_unique_local_device_ids(&devices[..2].to_vec()).is_ok());
}

#[test]
fn devices_of_the_account_are_served_when_none_is_configured() {
    assert!(matches!(
        resolve_devices(&Bound::new(true), &vec![], &vec![], &vec![]),
        Ok(Step::ReadBound)
    ));
    let bound = Bound::read(&vec![CloudDevice {
        id: Some("printer-a".to_owned()),
        ..CloudDevice::default()
    }]);
    let devices = done(resolve_devices(&bound, &vec![], &vec![], &vec![]).unwrap());
    assert_eq!(devices.catalog.len(), 1);
    assert_eq!(devices.catalog[0].source, DeviceSource::Cloud);
    assert_eq!(devices.cloud_mqtt_ids, ["printer-a"]);

    assert_eq!(
        resolve_devices(&Bound::new(false), &vec![], &vec![], &vec![]).unwrap_err(),
        "no devices configured; run `bambu-overlay login`, set --cloud-device, or set --local-device"
    );
}

#[test]
fn configured_devices_are_served_without_the_cloud() {
    let locals = vec![pending_local("printer-b", "10.0.0.2,12345678")];
    let configs = vec!["printer-a".to_owned(), "printer-b".to_owned()];
    let devices = done(resolve_devices(&Bound::new(true), &configs, &locals, &vec![]).unwrap());
    assert_eq!(devices.catalog.len(), 2);
    assert_eq!(devices.catalog[0].id.as_deref(), Some("printer-a"));
    assert_eq!(devices.catalog[1].source, DeviceSource::Local);
    assert_eq!(devices.cloud_mqtt_ids, ["printer-a"]);
    assert_eq!(cloud_mqtt_device_ids(&devices.catalog), ["printer-a"]);
    assert_eq!(devices.local.len(), 1);
    let entry = devices.catalog.into_iter().next().unwrap().into_cloud_device();
    assert_eq!(entry.id.as_deref(), Some("printer-a"));
    assert_eq!(entry.online, Some(true));
}

fn resolved(locals: Vec<LocalDevice>, videos: Vec<(String, VideoEndpoint)>) -> ResolvedDevices {
    let catalog = locals.iter().map(KnownDevice::from_local).collect();
    ResolvedDevices {
        catalog,
        local: locals,
        cloud_mqtt_ids: vec![],
        explicit_video: videos,
    }
}

#[test]
fn cameras_are_placed_or_probed_once() {
    let devices = resolved(
        vec![
            local("printer-a", "10.0.0.1,1"),
            local("printer-b", "10.0.0.2,1"),
            local("printer-c", "10.0.0.2,1"),
        ],
        vec![explicit_video_endpoint("printer-a", "10.0.0.1:6000")],
    );
    let mut plan = resolve_video_endpoints(&devices).unwrap();
    assert_eq!(plan.resolved.endpoints, [endpoint("10.0.0.1")]);
    assert!(plan.resolved.probed_device_ids.contains("printer-a"));
    assert_eq!(plan.probes.len(), 1);
    assert_eq!(plan.probes[0].0, "printer-b");
    assert_eq!(plan.probes[0].1, endpoint("10.0.0.2:6000"));

    let probe = plan.probes.remove(0);
    plan.resolved.take_probe(probe.clone(), false);
    assert!(!plan.resolved.probed_device_ids.contains("printer-b"));
    plan.resolved.take_probe(probe, true);
    assert!(plan.resolved.probed_device_ids.contains("printer-b"));
    assert_eq!(plan.resolved.endpoint_map.get("printer-b"), Some(&endpoint("10.0.0.2")));
    assert_eq!(plan.resolved.endpoints.len(), 2);
}

#[test]
fn stray_cameras_are_refused() {
    let devices = resolved(
        vec![local("printer-a", "10.0.0.1,1")],
        vec![explicit_video_endpoint("printer-z", "[fe80::1]:7000,12345678")],
    );
    assert_eq!(
        resolve_video_endpoints(&devices).unwrap_err(),
        "--video-device `[fe80::1]:7000` is for device `printer-z`, but no matching cloud or local device is configured"
    );
}

#[test]
fn bound_devices_complete_devices_with_cameras() {
    let video = vec![
        explicit_video_endpoint("printer-x", "10.0.0.9"),
        explicit_video_endpoint("printer-a", "10.0.0.1"),
    ];
    let bound = Bound::read(&vec![CloudDevice {
        id: Some("printer-a".to_owned()),
        name: Some("Office".to_owned()),
        online: Some(false),
        access_code: Some("12345678".to_owned()),
        ..CloudDevice::default()
    }]);
    let mut catalog = vec![KnownDevice::from_cloud(CloudDevice {
        id: Some("printer-a".to_owned()),
        ..CloudDevice::default()
    })];
    assert!(matches!(
        resolve_catalog_video_access(&mut catalog, &video, &Bound::new(true)),
        Ok(Step::ReadBound)
    ));
    done(resolve_catalog_video_access(&mut catalog, &video, &bound).unwrap());
    assert_eq!(catalog[0].access_code.as_deref(), Some("12345678"));
    assert_eq!(catalog[0].name.as_deref(), Some("Office"));
    assert_eq!(catalog[0].online, Some(false));
    assert!(catalog[0].has_access_code());
}

#[test]
fn configured_code_wins_over_camera_and_cloud() {
    let video = vec![explicit_video_endpoint("printer-a", "10.0.0.1,22222222")];
    let bound = Bound::read(&vec![CloudDevice {
        id: Some("printer-a".to_owned()),
        name: Some("Cloud".to_owned()),
        access_code: Some("33333333".to_owned()),
        ..CloudDevice::default()
    }]);
    let device = done(
        resolve_local_device_access(&pending_local("printer-a", "10.0.0.1,11111111"), &video, &bound)
            .unwrap(),
    );
    assert_eq!(device.access_code.as_deref(), Some("11111111"));
    assert_eq!(device.name.as_deref(), Some("printer-a"));
    let device = done(
        resolve_local_device_access(&pending_local("printer-a", "10.0.0.1"), &video, &bound)
            .unwrap(),
    );
    assert_eq!(device.access_code.as_deref(), Some("22222222"));
}

#[test]
fn completing_keeps_ids_and_sources() {
    let locals = vec![pending_local("printer-b", "10.0.0.2,12345678")];
    let video = vec![
        explicit_video_endpoint("printer-a", "10.0.0.1,22222222"),
        explicit_video_endpoint("printer-b", "10.0.0.2"),
    ];
    let configs = vec!["printer-a".to_owned()];
    let devices = done(resolve_devices(&Bound::new(false), &configs, &locals, &video).unwrap());
    assert_eq!(devices.catalog[0].id.as_deref(), Some("printer-a"));
    assert_eq!(devices.catalog[0].source, DeviceSource::Cloud);
    assert_eq!(devices.catalog[0].access_code.as_deref(), Some("22222222"));
    assert_eq!(devices.catalog[1].access_code.as_deref(), Some("12345678"));
    assert_eq!(devices.cloud_mqtt_ids, ["printer-a"]);
    assert_eq!(devices.explicit_video, video);
}

#[test]
fn explicit_cameras_outlive_probes() {
    for explicit in ["10.0.0.9:7000", "10.0.0.1:6000,12345678"] {
        let devices = resolved(
            vec![local("printer-a", "10.0.0.1,1")],
            vec![explicit_video_endpoint("printer-a", explicit)],
        );
        let mut plan = resolve_video_endpoints(&devices).unwrap();
        assert_eq!(plan.probes.len(), 1);
        let probe = plan.probes.remove(0);
        assert_eq!(probe.1, endpoint("10.0.0.1:6000"));
        for succeeded in [true, false, true] {
            plan.resolved.take_probe(probe.clone(), succeeded);
            assert_eq!(plan.resolved.endpoint_map.get("printer-a"), Some(&endpoint(explicit)));
        }
        assert!(plan.resolved.probed_device_ids.contains("printer-a"));
        assert_eq!(plan.resolved.endpoints.len(), 3);
    }
}

#[test]
fn probes_succeed_at_their_own_device() {
    let probe = explicit_video_endpoint("printer-a", "10.0.0.1");
    assert!(probe_succeeded(&probe, Some("printer-a")));
    assert!(!probe_succeeded(&probe, Some("printer-b")));
    assert!(!probe_succeeded(&probe, None));
}
