use inventory_agent::clock::{current_date, time_now, LocalTime};
use inventory_agent::report::{inventory_write, is_skipped_user, page_record, Infos, InventoryWrite};

#[test]
fn time_stamp_format() {
    let t = LocalTime::new(2025, 3, 7, 9).unwrap();
    assert_eq!(time_now(&t), "07-03-2025 às 09 horas.");
    assert_eq!(current_date(&t), "07-03-2025");
    assert_eq!(current_date(&LocalTime::new(12345, 1, 2, 0).unwrap()), "02-01-+12345");
    assert_eq!(current_date(&LocalTime::new(-7, 1, 2, 0).unwrap()), "02-01--0007");
}

#[test]
fn time_stamp_matches_chrono() {
    for (y, m, d, h) in [
        (2024, 2, 29, 23),
        (1, 1, 1, 0),
        (9999, 12, 31, 12),
        (0, 6, 15, 7),
        (-1, 1, 1, 0),
        (-4, 2, 29, 5),
        (-10000, 3, 1, 1),
        (-262143, 1, 1, 0),
        (10000, 1, 1, 0),
        (262142, 12, 31, 23),
    ] {
        let t = LocalTime::new(y, m, d, h).unwrap();
        let dt = chrono::NaiveDate::from_ymd_opt(y, m, d).unwrap().and_hms_opt(h, 0, 0).unwrap();
        assert_eq!(time_now(&t), dt.format("%d-%m-%Y às %H horas.").to_string());
        assert_eq!(current_date(&t), dt.format("%d-%m-%Y").to_string());
    }
}

#[test]
fn local_time_validation() {
    assert!(LocalTime::new(2024, 2, 29, 0).is_some());
    assert!(LocalTime::new(2023, 2, 29, 0).is_none());
    assert!(LocalTime::new(1900, 2, 29, 0).is_none());
    assert!(LocalTime::new(2000, 2, 29, 0).is_some());
    assert!(LocalTime::new(2025, 4, 31, 0).is_none());
    assert!(LocalTime::new(2025, 13, 1, 0).is_none());
    assert!(LocalTime::new(2025, 1, 0, 0).is_none());
    assert!(LocalTime::new(2025, 1, 1, 24).is_none());
    assert!(LocalTime::new(10000, 1, 1, 0).is_some());
    assert!(LocalTime::new(-1, 1, 1, 0).is_some());
    assert!(LocalTime::new(-100, 2, 29, 0).is_none());
    assert!(LocalTime::new(262143, 1, 1, 0).is_none());
    assert!(LocalTime::new(-262144, 12, 31, 0).is_none());
    assert!(LocalTime::new(-262143, 1, 1, 0).is_some());
}

#[test]
fn page_record_trims_title() {
    let t = LocalTime::new(2025, 11, 2, 14).unwrap();
    let r = page_record("  Relatório - Word \n", &t, 42_000);
    assert_eq!(r.page, "Relatório - Word");
    assert_eq!(r.date, "02-11-2025");
    assert_eq!(r.elapsed_ns, 42_000);
}

#[test]
fn skipped_user_ignores_case() {
    assert!(is_skipped_user("candeias"));
    assert!(is_skipped_user("Candeias"));
    assert!(is_skipped_user("CANDEIAS"));
    assert!(!is_skipped_user("candeia"));
    assert!(!is_skipped_user(" candeias"));
    assert!(!is_skipped_user("maria"));
}

#[test]
fn inventory_record_holds_fields() {
    let i = Infos {
        nome: "PC-01".to_string(),
        usuario: "maria".to_string(),
        servicetag: "7XK2N93".to_string(),
        modelo: "OptiPlex 7090".to_string(),
        versao: "Windows 11".to_string(),
        windows: "Windows Ativo".to_string(),
        ip: "192.168.0.10".to_string(),
        disco: "SSD 476GB".to_string(),
        processador: "i5".to_string(),
        ram: "16.00 GB 3200MHz".to_string(),
        monitor: "DELL".to_string(),
        snmonitor: "CN0123".to_string(),
        time: "07-03-2025 às 09 horas.".to_string(),
        programs: vec!["7-Zip (23.01)".to_string()],
    };
    assert_eq!(i.programs.len(), 1);
    assert_eq!(i.nome, "PC-01");
}

#[test]
fn inventory_write_decision() {
    assert_eq!(inventory_write("Candeias", true), InventoryWrite::Skip);
    assert_eq!(inventory_write("CANDEIAS", false), InventoryWrite::Skip);
    assert_eq!(inventory_write("maria", true), InventoryWrite::Update);
    assert_eq!(inventory_write("maria", false), InventoryWrite::Insert);
}
