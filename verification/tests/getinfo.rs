use inventory_agent::getinfo::{
    extract_size_from_line, get_disks, get_ip_local, get_model, get_monitor, get_namepc,
    get_onlinetime, get_processador, get_programs, get_serialnumber, get_serialnumbermonitor,
    get_username, get_windows, get_windows_version, graphic_card, CommandOutput, UptimeAction,
};
use inventory_agent::memory::{get_ram_speed, get_total_ram};

fn out(text: &str) -> Option<CommandOutput> {
    Some(CommandOutput { success: true, stdout: text.as_bytes().to_vec() })
}

fn out_bytes(bytes: &[u8]) -> Option<CommandOutput> {
    Some(CommandOutput { success: true, stdout: bytes.to_vec() })
}

#[test]
fn serial_number_drops_label_and_blanks() {
    let s = get_serialnumber(out("\r\n\r\nSerialnumber : 7XK2N93\r\n\r\n\r\n"));
    assert_eq!(s, "7XK2N93");
}

#[test]
fn serial_number_error_when_query_fails() {
    assert_eq!(get_serialnumber(None), "Error ao coletar a service tag");
}

#[test]
fn serial_number_label_removed_everywhere() {
    let s = get_serialnumber(out("Serialnumber : ASerialnumber : B"));
    assert_eq!(s, "A B");
}

#[test]
fn monitor_serial_is_trimmed_output() {
    assert_eq!(get_serialnumbermonitor(out("  CN0123  \r\n")), Some("CN0123".to_string()));
    assert_eq!(
        get_serialnumbermonitor(None),
        Some("Error ao coletar o serial number do monitor".to_string())
    );
}

#[test]
fn monitor_model_drops_control_characters() {
    let raw = "DELL P2419H\u{0}\u{0}\u{0}\r\n";
    assert_eq!(get_monitor(out(raw)), Some("DELL P2419H".to_string()));
    let inner = "A\u{1}B\u{7f}C\u{85}D";
    assert_eq!(get_monitor(out(inner)), Some("ABCD".to_string()));
    assert_eq!(get_monitor(None), Some("Error ao coletar o monitor".to_string()));
}

#[test]
fn simple_fields_are_trimmed_or_report_their_error() {
    assert_eq!(get_processador(out(" Intel(R) Core(TM) i5 \r\n")), "Intel(R) Core(TM) i5");
    assert_eq!(get_processador(None), "Error ao coletar o processador");
    assert_eq!(get_model(out("OptiPlex 7090\n")), "OptiPlex 7090");
    assert_eq!(get_model(None), "Error ao coletar o modelo do dispositivo");
    assert_eq!(get_username(out("maria\r\n")), "maria");
    assert_eq!(get_username(None), "Error to catch the username");
    assert_eq!(get_ip_local(out("192.168.0.10\r\n")), "192.168.0.10");
    assert_eq!(get_ip_local(None), "Error ao coletar o ip local");
    assert_eq!(graphic_card(out("NVIDIA T400\r\n")), "NVIDIA T400");
    assert_eq!(graphic_card(None), "Error ao coletar a placa de video");
}

#[test]
fn trimming_follows_str_trim() {
    for raw in ["\u{3000} a b \u{a0}", "\t\n", "", "x", " \u{2028}y\u{205f}", "\u{200b}z"] {
        assert_eq!(get_model(out(raw)), raw.trim());
    }
}

#[test]
fn invalid_utf8_is_replaced() {
    let s = get_model(out_bytes(b"ab\xffcd"));
    assert_eq!(s, String::from_utf8_lossy(b"ab\xffcd"));
}

#[test]
fn host_name_or_error() {
    assert_eq!(get_namepc(Some("PC-01".to_string())), "PC-01");
    assert_eq!(get_namepc(None), "Falha ao pegar o nome do usuario");
}

#[test]
fn windows_version_or_notice() {
    assert_eq!(
        get_windows_version(out("Microsoft Windows 11 Pro 10.0.22631\r\n")),
        "Microsoft Windows 11 Pro 10.0.22631"
    );
    assert_eq!(get_windows_version(out("  \r\n")), "Versão do Windows não encontrada");
    assert_eq!(get_windows_version(None), "Erro ao executar o comando");
}

#[test]
fn windows_activation_status() {
    let active = "\r\nLicenseStatus\r\n-------------\r\n            1\r\n\r\n";
    assert_eq!(get_windows(out(active)), "Windows Ativo");
    let inactive = "\r\nLicenseStatus\r\n-------------\r\n            0\r\n";
    assert_eq!(get_windows(out(inactive)), "Precisa ativar o windows");
    assert_eq!(get_windows(None), "Error ao coletar o status do windows do dispositivo");
}

#[test]
fn programs_one_per_line() {
    let text = "7-Zip (23.01)\r\nGit (2.44.0)\r\n\r\nVLC (3.0.20)\n";
    let programs = get_programs(text);
    let expected: Vec<String> = text.lines().map(|l| l.to_string()).collect();
    assert_eq!(programs, expected);
    assert_eq!(programs.len(), 4);
    assert_eq!(programs[2], "");
}

#[test]
fn lines_follow_str_lines() {
    for text in ["", "\n", "a", "a\n", "a\r\nb", "a\rb\r", "\r\n\r\n", "x\n\ny\r"] {
        let expected: Vec<String> = text.lines().map(|l| l.to_string()).collect();
        assert_eq!(get_programs(text), expected);
    }
}

#[test]
fn disks_report_kind_and_size() {
    let text = "\r\nMediaType          Size\r\n---------          ----\r\nSSD        512110190592\r\nHDD       1000204886016\r\nUnspecified 31104958464\r\n\r\n";
    assert_eq!(get_disks(out(text)), "SSD 476GB\nHDD 931GB\nPendrive 28GB");
}

#[test]
fn disks_none_found() {
    assert_eq!(get_disks(out("\r\nMediaType Size\r\n")), "Nenhum disco encontrado");
    assert_eq!(get_disks(out("")), "Nenhum disco encontrado");
    assert_eq!(get_disks(None), "Erro ao executar o comando");
}

#[test]
fn disks_ssd_wins_over_hdd() {
    assert_eq!(get_disks(out("SSD HDD 2147483648")), "SSD 2GB");
}

#[test]
fn size_from_line() {
    assert_eq!(extract_size_from_line("SSD 512110190592"), "476");
    assert_eq!(extract_size_from_line("no size here"), "Desconhecido");
    assert_eq!(extract_size_from_line("12 then 99999999999"), "0");
    assert_eq!(extract_size_from_line("huge 99999999999999999999999"), "0");
    assert_eq!(extract_size_from_line("a1073741824b 5"), "1");
}

fn float_text(bytes: u64) -> String {
    format!("{:.2}", bytes as f64 / (1024.0 * 1024.0 * 1024.0))
}

#[test]
fn total_ram_with_speed() {
    assert_eq!(get_total_ram(out("17179869184\r\n"), Some(3200)), "16.00 GB 3200MHz");
    assert_eq!(get_total_ram(out("17179869184"), None), "16.00 GB");
}

#[test]
fn total_ram_errors() {
    assert_eq!(get_total_ram(out("sixteen"), Some(3200)), "Erro ao processar a memória total");
    let failed = Some(CommandOutput { success: false, stdout: b"17179869184".to_vec() });
    assert_eq!(get_total_ram(failed, None), "Erro ao executar o comando PowerShell");
    assert_eq!(get_total_ram(None, None), "Erro ao executar o comando");
}

#[test]
fn total_ram_matches_float_formatting() {
    let mut values: Vec<u64> = vec![
        0,
        1,
        134217728,
        134217728 + 268435456,
        134217728 + 3 * 268435456,
        5368709,
        5368710,
        8589934592,
        (1u64 << 53) - 1,
        1u64 << 53,
        (1u64 << 53) + 1,
        (1u64 << 53) + 3,
        (1u64 << 60) + (1u64 << 7),
        (1u64 << 60) + (3u64 << 7),
        u64::MAX,
        u64::MAX - 1024,
    ];
    let mut x: u64 = 0x9E3779B97F4A7C15;
    for _ in 0..2000 {
        x = x.wrapping_mul(6364136223846793005).wrapping_add(1442695040888963407);
        values.push(x >> (x % 64));
    }
    for b in values {
        let report = get_total_ram(out(&b.to_string()), None);
        assert_eq!(report, format!("{} GB", float_text(b)), "bytes {}", b);
    }
}

#[test]
fn ram_speed_first_number() {
    assert_eq!(get_ram_speed(out("\r\nSpeed\r\n-----\r\n 3200\r\n\r\n")), Some(3200));
    assert_eq!(get_ram_speed(out("no speed")), None);
    assert_eq!(get_ram_speed(out("Speed 99999999999")), None);
    assert_eq!(get_ram_speed(out_bytes(b"\xff 3200")), None);
    assert_eq!(get_ram_speed(None), None);
}

#[test]
fn restart_after_more_than_three_days() {
    assert_eq!(
        get_onlinetime(out("4\r\n")),
        UptimeAction::Restart { delay_secs: 1800, warn_after_secs: 1500 }
    );
    assert_eq!(
        get_onlinetime(out("3\r\n")),
        UptimeAction::Restart { delay_secs: 1800, warn_after_secs: 1500 }
    );
    assert_eq!(get_onlinetime(out("2\r\n")), UptimeAction::KeepRunning);
    assert_eq!(get_onlinetime(out("0")), UptimeAction::KeepRunning);
    assert_eq!(get_onlinetime(out("três")), UptimeAction::UnreadableDays);
    assert_eq!(get_onlinetime(out("")), UptimeAction::UnreadableDays);
    assert_eq!(get_onlinetime(None), UptimeAction::CommandFailed);
}

#[test]
fn uptime_reads_plus_sign_like_parse() {
    assert_eq!("+7".parse::<u32>().ok(), Some(7));
    assert_eq!(
        get_onlinetime(out("+7")),
        UptimeAction::Restart { delay_secs: 1800, warn_after_secs: 1500 }
    );
    assert_eq!(get_onlinetime(out("-7")), UptimeAction::UnreadableDays);
}
