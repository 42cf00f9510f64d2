use bambu_overlay::bambu::models::{
    AmsState, AmsUnit, CloudDevice, CurrentPrintResponse, PrinterStatus, Real, Task, TasksResponse,
    Tray,
};
use bambu_overlay::overlay::format::{
    format_percent, format_seconds, format_temperature, format_weight, parse_bambu_datetime,
};
use bambu_overlay::overlay::service::{error_payload, overlay_payload, SnapshotService};
use bambu_overlay::overlay::spools::{color_cuts_cleanly, is_color_readable, spool_color};
use bambu_overlay::overlay::summary::{
    are_trays_readable, estimated_progress, overlay_device, overlay_devices, print_mode, summarize_devices,
    DeviceSummary, Figures, OverlayDevice, TaskSource, Weight,
};
use bambu_overlay::table::Table;
use bambu_overlay::time::Instant;

fn quantity(value: f64) -> Option<Real> {
    Some(Real { bits: value.to_bits() })
}

fn number(value: Real) -> f64 {
    f64::from_bits(value.bits)
}

const NOW: Instant = Instant { secs: 1_778_459_400, nanos: 0 };

fn figures(device: &DeviceSummary) -> Figures {
    let reported = device
        .progress
        .map(number)
        .filter(|value| value.is_finite())
        .map(|value| value.clamp(0.0, 100.0));
    let progress = reported.or_else(|| {
        let estimate = estimated_progress(device, NOW)?;
        let prediction = number(estimate.prediction);
        if prediction <= 0.0 {
            return None;
        }
        Some((estimate.elapsed_seconds as f64 / prediction * 100.0).clamp(0.0, 100.0))
    });
    Figures {
        progress: progress.and_then(|value| quantity((value * 10.0).round() / 10.0)),
        total_seconds: device.prediction.map(|value| number(value) as i64),
        remaining_seconds: device.remaining_minutes.map(|value| (number(value) * 60.0) as i64),
        toolhead_degrees: device.toolhead_temperature.map(|value| number(value).round() as i64),
        bed_degrees: device.bed_temperature.map(|value| number(value).round() as i64),
        fan_percent: device.fan_speed.map(|value| number(value).clamp(0.0, 100.0).to_string()),
        weight: device
            .weight
            .as_deref()
            .and_then(|weight| weight.trim().parse::<f64>().ok())
            .map(|grams| {
                let kilograms = grams >= 1000.0;
                let amount = if kilograms { grams / 1000.0 } else { grams };
                Weight { kilograms, amount: format!("{amount:.1}") }
            }),
    }
}

fn shown(device: DeviceSummary) -> OverlayDevice {
    let figures = figures(&device);
    assert!(figures.fits(&device));
    overlay_device(device, &figures)
}

fn reports(entries: Vec<(&str, PrinterStatus)>) -> Table<PrinterStatus> {
    let mut table = Table::new();
    for (id, status) in entries {
        table.insert(id.to_owned(), status);
    }
    table
}

fn tray(id: i64, material: Option<&str>, color: Option<&str>) -> Tray {
    Tray {
        id: Some(id),
        material: material.map(str::to_owned),
        color: color.map(str::to_owned),
        ..Tray::default()
    }
}

fn unit(id: i64, trays: Vec<Tray>) -> AmsUnit {
    AmsUnit { id: Some(id), tray: trays }
}

#[test]
fn summarize_devices_uses_matching_mqtt_report_fields_only() {
    let print = CurrentPrintResponse {
        devices: vec![
            CloudDevice {
                id: Some("printer-a".to_owned()),
                status: PrinterStatus {
                    progress: quantity(12.0),
                    toolhead_temperature: quantity(210.0),
                    ..PrinterStatus::default()
                },
                ..CloudDevice::default()
            },
            CloudDevice {
                id: Some("printer-b".to_owned()),
                status: PrinterStatus { progress: quantity(1.0), ..PrinterStatus::default() },
                ..CloudDevice::default()
            },
        ],
    };
    let tasks = TasksResponse::default();
    let reports = reports(vec![(
        "printer-a",
        PrinterStatus {
            progress: quantity(42.0),
            bed_temperature: quantity(60.0),
            ..PrinterStatus::default()
        },
    )]);

    let summaries = summarize_devices(&print, &tasks, &reports);
    let devices = summaries.into_iter().map(shown).collect::<Vec<_>>();

    assert_eq!(devices[0].progress, quantity(42.0));
    assert_eq!(devices[0].toolhead_temp.as_deref(), Some("210C"));
    assert_eq!(devices[0].bed_temp.as_deref(), Some("60C"));
    assert_eq!(devices[1].progress, quantity(1.0));
}

#[test]
fn summarize_devices_keeps_cloud_spools_when_mqtt_report_is_empty() {
    let print = CurrentPrintResponse {
        devices: vec![CloudDevice {
            id: Some("printer-a".to_owned()),
            status: PrinterStatus {
                progress: quantity(12.0),
                ams: Some(AmsState {
                    ams: vec![unit(0, vec![tray(0, Some("PLA"), Some("ff0000ff"))])],
                }),
                external_tray: Some(tray(255, Some("PETG"), Some("336699ff"))),
                ..PrinterStatus::default()
            },
            ..CloudDevice::default()
        }],
    };
    let tasks = TasksResponse::default();
    let reports = reports(vec![(
        "printer-a",
        PrinterStatus {
            progress: quantity(42.0),
            ams: Some(AmsState { ams: vec![unit(0, vec![tray(0, None, Some("00000000"))])] }),
            external_tray: Some(tray(255, None, Some("00000000"))),
            ..PrinterStatus::default()
        },
    )]);

    let summaries = summarize_devices(&print, &tasks, &reports);
    let device = shown(summaries.into_iter().next().unwrap());

    assert_eq!(device.progress, quantity(42.0));
    assert_eq!(device.ams_spools.len(), 1);
    assert_eq!(device.ams_spools[0].material, "PLA");
    assert_eq!(device.ams_spools[0].color, "#FF0000");
    assert_eq!(device.external_spool.as_ref().unwrap().material, "PETG");
    assert_eq!(device.external_spool.as_ref().unwrap().color, "#336699");
}

#[test]
fn summarize_devices_merges_printer_status_task_history_and_spools() {
    let print = CurrentPrintResponse {
        devices: vec![CloudDevice {
            id: Some("printer-a".to_owned()),
            name: Some("Office X1".to_owned()),
            product_name: Some("X1 Carbon".to_owned()),
            online: Some(true),
            status: PrinterStatus {
                task_name: Some("Calibration cube".to_owned()),
                progress: quantity(25.0),
                prediction_seconds: quantity(3600.0),
                start_time: Some("2026-05-11T00:00:00Z".to_owned()),
                layer_current: Some(4),
                layer_total: Some(20),
                toolhead_temperature: quantity(220.0),
                bed_temperature: quantity(60.0),
                ams: Some(AmsState {
                    ams: vec![unit(0, vec![tray(0, Some("PLA"), Some("ff0000ff"))])],
                }),
                ..PrinterStatus::default()
            },
            ..CloudDevice::default()
        }],
    };
    let tasks = TasksResponse {
        hits: vec![Task {
            device_id: Some("printer-a".to_owned()),
            title: Some("Task title".to_owned()),
            cover: Some("https://example.invalid/thumb.png".to_owned()),
            plate_index: Some("2".to_owned()),
            plate_name: Some("Plate 2".to_owned()),
            weight: Some("12.5".to_owned()),
            start_time: Some("2026-05-11T00:00:00Z".to_owned()),
            end_time: Some("2026-05-11T01:00:00Z".to_owned()),
            status: Some("finished".to_owned()),
            ..Task::default()
        }],
    };

    let summaries = summarize_devices(&print, &tasks, &Table::new());
    let device = shown(summaries.into_iter().next().unwrap());

    assert_eq!(device.name, "Office X1");
    assert_eq!(device.model, "X1 Carbon");
    assert_eq!(device.title.as_deref(), Some("Calibration cube"));
    assert_eq!(device.task_source, TaskSource::PrinterStatusWithTaskHistory);
    assert_eq!(device.progress, quantity(25.0));
    assert_eq!(device.total_print_time.as_deref(), Some("1h"));
    assert_eq!(device.weight.as_deref(), Some("12.5g"));
    assert_eq!(device.plate.as_deref(), Some("2"));
    assert_eq!(device.thumbnail.as_deref(), Some("https://example.invalid/thumb.png"));
    assert_eq!(device.ams_spools.len(), 1);
    assert_eq!(device.ams_spools[0].material, "PLA");
    assert_eq!(device.ams_spools[0].color, "#FF0000");
}

fn task(id: &str, start: &str, end: Option<&str>, status: Option<&str>) -> Task {
    Task {
        device_id: Some("printer-a".to_owned()),
        title: Some(id.to_owned()),
        id: Some(id.to_owned()),
        start_time: Some(start.to_owned()),
        end_time: end.map(str::to_owned),
        status: status.map(str::to_owned),
        ..Task::default()
    }
}

fn printer_a(status: PrinterStatus) -> CurrentPrintResponse {
    CurrentPrintResponse {
        devices: vec![CloudDevice {
            id: Some("printer-a".to_owned()),
            name: Some("Office X1".to_owned()),
            online: Some(true),
            status,
            ..CloudDevice::default()
        }],
    }
}

#[test]
fn summarize_devices_uses_active_task_history_when_printer_status_is_empty() {
    let print = printer_a(PrinterStatus::default());
    let tasks = TasksResponse {
        hits: vec![Task {
            device_id: Some("printer-a".to_owned()),
            title: Some("Active print".to_owned()),
            id: Some("task-1".to_owned()),
            start_time: Some("2026-05-11T00:00:00Z".to_owned()),
            status: Some("running".to_owned()),
            ..Task::default()
        }],
    };

    let summaries = summarize_devices(&print, &tasks, &Table::new());
    let device = shown(summaries.into_iter().next().unwrap());

    assert!(device.is_printing);
    assert_eq!(device.task_name.as_deref(), Some("Active print"));
    assert_eq!(device.task_source, TaskSource::TaskHistoryFallback);
}

#[test]
fn spool_color_normalizes_color_sources() {
    assert_eq!(
        spool_color(&Tray { color: Some("00ff00ff".to_owned()), ..Tray::default() }).as_deref(),
        Some("#00FF00")
    );
    assert_eq!(
        spool_color(&Tray { cols: vec!["336699ff".to_owned()], ..Tray::default() }).as_deref(),
        Some("#336699")
    );
    assert_eq!(
        spool_color(&Tray { color: Some("00000000".to_owned()), ..Tray::default() }),
        None
    );
    assert_eq!(spool_color(&Tray { color: Some("xyz".to_owned()), ..Tray::default() }), None);
}

#[test]
fn colors_that_cannot_be_cut_are_told() {
    assert!(color_cuts_cleanly("#336699ff"));
    assert!(color_cuts_cleanly("ab"));
    assert!(!color_cuts_cleanly("12345\u{e9}"));
    assert!(!is_color_readable(&Tray {
        color: Some("12345\u{e9}".to_owned()),
        ..Tray::default()
    }));
    let print = printer_a(PrinterStatus {
        external_tray: Some(tray(0, None, Some("12345\u{e9}"))),
        ..PrinterStatus::default()
    });
    assert!(!are_trays_readable(&print.devices[0], &Table::new()));
}

#[test]
fn latest_active_task_is_matched() {
    let tasks = TasksResponse {
        hits: vec![
            task("old", "2026-05-10T00:00:00Z", None, Some("running")),
            task("done", "2026-05-12T00:00:00Z", Some("2026-05-12T01:00:00Z"), Some("finished")),
            task("new", "2026-05-11T00:00:00Z", None, Some("running")),
        ],
    };
    let print = printer_a(PrinterStatus::default());
    let summaries = summarize_devices(&print, &tasks, &Table::new());
    assert_eq!(summaries[0].task_name.as_deref(), Some("new"));
}

#[test]
fn progress_is_estimated_from_the_start() {
    let print = printer_a(PrinterStatus {
        task_name: Some("cube".to_owned()),
        prediction_seconds: quantity(3600.0),
        start_time: Some("2026-05-11T00:00:00Z".to_owned()),
        ..PrinterStatus::default()
    });
    let summaries = summarize_devices(&print, &TasksResponse::default(), &Table::new());
    let estimate = estimated_progress(&summaries[0], NOW).unwrap();
    assert_eq!(estimate.elapsed_seconds, 1800);
    let device = shown(summaries.into_iter().next().unwrap());
    assert_eq!(device.progress, quantity(50.0));
    assert_eq!(device.progress_source.as_deref(), Some("estimated"));
    assert_eq!(device.model, "unknown model");
    assert_eq!(device.started.as_deref(), Some("2026-05-11T00:00:00Z"));
}

#[test]
fn figures_are_shown_with_their_units() {
    let print = printer_a(PrinterStatus {
        progress: quantity(12.34),
        remaining_minutes: quantity(61.5),
        fan_speed: quantity(35.0),
        toolhead_temperature: quantity(-0.6),
        weight: Some("1234".to_owned()),
        speed_level: Some(2),
        ..PrinterStatus::default()
    });
    let summaries = summarize_devices(&print, &TasksResponse::default(), &Table::new());
    let device = shown(summaries.into_iter().next().unwrap());
    assert_eq!(device.progress, quantity(12.3));
    assert_eq!(device.progress_source.as_deref(), Some("reported"));
    assert_eq!(device.time_remaining.as_deref(), Some("1h 1m 30s"));
    assert_eq!(device.fan_speed.as_deref(), Some("35%"));
    assert_eq!(device.toolhead_temp.as_deref(), Some("-1C"));
    assert_eq!(device.weight.as_deref(), Some("1.2kg"));
}

#[test]
fn texts_are_formatted() {
    assert_eq!(format_temperature(-5), "-5C");
    assert_eq!(format_percent("35.5"), "35.5%");
    assert_eq!(format_seconds(0), "0s");
    assert_eq!(format_seconds(59), "59s");
    assert_eq!(format_seconds(60), "1m");
    assert_eq!(format_seconds(3605), "1h 5s");
    assert_eq!(format_seconds(90_061), "25h 1m 1s");
    assert_eq!(format_seconds(-65), "-5s");
    assert_eq!(format_seconds(i64::MIN), "-8s");
    assert_eq!(format_weight(false, "12.0"), "12g");
    assert_eq!(format_weight(false, "12.5"), "12.5g");
    assert_eq!(format_weight(true, "1.0"), "1.0kg");
}

#[test]
fn instants_are_read_in_utc() {
    assert_eq!(
        parse_bambu_datetime("2026-05-11T00:30:00Z"),
        Some(Instant { secs: 1_778_459_400, nanos: 0 })
    );
    assert_eq!(
        parse_bambu_datetime("2026-05-11T02:30:00.25+02:00"),
        Some(Instant { secs: 1_778_459_400, nanos: 250_000_000 })
    );
    assert_eq!(parse_bambu_datetime("yesterday"), None);
    assert_eq!(parse_bambu_datetime(""), None);
}

#[test]
fn speed_levels_have_names() {
    let mode = |level: i64| {
        print_mode(&PrinterStatus { speed_level: Some(level), ..PrinterStatus::default() })
    };
    assert_eq!(mode(1).as_deref(), Some("Silent"));
    assert_eq!(mode(2).as_deref(), Some("Standard"));
    assert_eq!(mode(3).as_deref(), Some("Sport"));
    assert_eq!(mode(4).as_deref(), Some("Ludicrous"));
    assert_eq!(print_mode(&PrinterStatus::default()), None);
}

#[test]
fn task_sources_have_labels() {
    assert_eq!(TaskSource::PrinterStatus.label(), "printer status");
    assert_eq!(
        TaskSource::PrinterStatusWithTaskHistory.label(),
        "printer status + task history"
    );
    assert_eq!(TaskSource::TaskHistory.label(), "task history");
    assert_eq!(TaskSource::TaskHistoryFallback.label(), "task history fallback");
}

#[test]
fn payloads_are_dated() {
    let service = SnapshotService::new(printer_a(PrinterStatus::default()).devices);
    let reports = reports(vec![(
        "printer-a",
        PrinterStatus { progress: quantity(7.0), ..PrinterStatus::default() },
    )]);
    assert!(service.is_readable(&reports));
    let devices: Vec<_> = service.summaries(&reports).into_iter().map(shown).collect();
    assert_eq!(devices[0].progress, quantity(7.0));
    let payload = overlay_payload(devices, "connected", NOW);
    assert!(payload.ok);
    assert_eq!(payload.updated_at, "2026-05-11T00:30:00+00:00");
    assert_eq!(payload.mqtt, "connected");
    assert_eq!(payload.devices.len(), 1);

    let payload = error_payload("broken".to_owned(), "lost", NOW);
    assert!(!payload.ok);
    assert_eq!(payload.error, "broken");
    assert_eq!(payload.updated_at, "2026-05-11T00:30:00+00:00");
    assert!(payload.devices.is_empty());
}

#[test]
fn spools_are_shown_where_something_is_known() {
    assert!(!Tray::default().has_spool_data());
    assert!(!tray(0, None, Some("00000000")).has_spool_data());
    assert!(tray(0, Some("PLA"), None).has_spool_data());
    assert!(tray(0, None, Some("#ff0000")).has_spool_data());
    let print = printer_a(PrinterStatus {
        ams: Some(AmsState {
            ams: vec![
                unit(0, vec![tray(0, Some("PLA"), None), Tray::default()]),
                AmsUnit { id: None, tray: vec![tray(2, None, Some("00ff00"))] },
            ],
        }),
        ..PrinterStatus::default()
    });
    let summaries = summarize_devices(&print, &TasksResponse::default(), &Table::new());
    let spools = &summaries[0].ams_spools;
    assert_eq!(spools.len(), 2);
    assert_eq!(spools[0].label, "1-1");
    assert_eq!(spools[0].color, "#9CA3AF");
    assert_eq!(spools[1].label, "2-3");
    assert_eq!(spools[1].material, "Filament");
}

#[test]
fn history_fills_what_is_missing_only() {
    let print = printer_a(PrinterStatus {
        task_name: Some("own".to_owned()),
        ..PrinterStatus::default()
    });
    let mut hit = task("history", "2026-05-11T00:00:00Z", None, Some("running"));
    hit.weight = Some("12".to_owned());
    let summaries =
        summarize_devices(&print, &TasksResponse { hits: vec![hit] }, &Table::new());
    assert_eq!(summaries[0].task_name.as_deref(), Some("own"));
    assert_eq!(summaries[0].weight.as_deref(), Some("12"));
    assert_eq!(summaries[0].task_source, TaskSource::PrinterStatusWithTaskHistory);
}

#[test]
fn snapshots_show_the_catalog_in_order() {
    let named = |id: &str| CloudDevice {
        id: Some(id.to_owned()),
        name: Some(format!("Printer {id}")),
        ..CloudDevice::default()
    };
    let service = SnapshotService::new(vec![named("b"), named("a"), CloudDevice::default()]);
    let reports = reports(vec![(
        "a",
        PrinterStatus { progress: quantity(42.0), ..PrinterStatus::default() },
    )]);
    for force_cloud_refresh in [false, true] {
        let figures = service.summaries(&reports).iter().map(figures).collect();
        let payload = service.payload(force_cloud_refresh, &reports, figures, "connected", NOW);
        assert!(payload.ok);
        assert_eq!(payload.updated_at, "2026-05-11T00:30:00+00:00");
        assert_eq!(payload.mqtt, "connected");
        let names: Vec<_> = payload.devices.iter().map(|device| device.name.as_str()).collect();
        assert_eq!(names, ["Printer b", "Printer a", "Bambu printer"]);
        assert_eq!(payload.devices[0].progress, None);
        assert_eq!(payload.devices[1].progress, quantity(42.0));
    }
}

#[test]
fn devices_are_shown_one_by_one() {
    let print = printer_a(PrinterStatus { progress: quantity(3.0), ..PrinterStatus::default() });
    let summaries = summarize_devices(&print, &TasksResponse::default(), &Table::new());
    let figures: Vec<Figures> = summaries.iter().map(figures).collect();
    let devices = overlay_devices(summaries, figures);
    assert_eq!(devices.len(), 1);
    assert_eq!(devices[0].progress, quantity(3.0));
    assert!(overlay_devices(vec![], vec![]).is_empty());
}

#[test]
fn figures_without_their_quantity_do_not_fit() {
    let print = printer_a(PrinterStatus { progress: quantity(3.0), ..PrinterStatus::default() });
    let reported = summarize_devices(&print, &TasksResponse::default(), &Table::new());
    let print = printer_a(PrinterStatus::default());
    let silent = summarize_devices(&print, &TasksResponse::default(), &Table::new());
    assert!(figures(&reported[0]).fits(&reported[0]));
    assert!(!figures(&reported[0]).fits(&silent[0]));
    let mut wrong = figures(&reported[0]);
    wrong.bed_degrees = Some(60);
    assert!(!wrong.fits(&reported[0]));
}
