//! What the agent reports of the machine, made from the output of the system
//! commands that query it: each function takes what its command handed back
//! (`None` when the command could not be run) and gives the text reported.
use vstd::prelude::*;

use crate::digits::{digit_run_match, find_digit_run, first_ascii_digit_run, has_ascii_digit};
use crate::strings::{all_ascii, lossy_chars, string_from_chars, utf8_lossy};
use crate::text::{
    append_chars, chars_of, contains, decimal, is_control, lines, parse_u32, parse_u64, replace,
    spec_contains, spec_is_ascii_digit, spec_is_control, spec_lines, spec_parse_u32, spec_parse_u64, spec_replace, spec_trim, to_decimal,
    trim, views,
};

verus! {

/// What a finished command handed back: whether it exited successfully, and
/// its standard output.
pub struct CommandOutput {
    pub success: bool,
    pub stdout: Vec<u8>,
}

/// The standard output of a command decoded as `String::from_utf8_lossy` does
/// and trimmed.
pub open spec fn trimmed_output(o: CommandOutput) -> Seq<char> {
    spec_trim(utf8_lossy(o.stdout@))
}

/// Decodes and trims the standard output of a command.
fn trimmed_text(o: &CommandOutput) -> (t: Vec<char>)
    ensures
        t@ == trimmed_output(*o),
{
    let text = lossy_chars(o.stdout.as_slice());
    trim(text.as_slice())
}

/// The trimmed output of a command, or `error` if the command could not run.
fn trimmed_or(output: Option<CommandOutput>, error: &str) -> (s: String)
    ensures
        s@ == match output {
            Some(o) => trimmed_output(o),
            None => error@,
        },
{
    match output {
        Some(o) => {
            let t = trimmed_text(&o);
            string_from_chars(t.as_slice())
        },
        None => error.to_owned(),
    }
}

// ---------------------------------------------------------------------------
// Simple fields
// ---------------------------------------------------------------------------

/// The label that the BIOS serial number query prints before the value.
pub open spec fn serial_label() -> Seq<char> {
    "Serialnumber :"@
}

/// The service tag: the BIOS query's output without its label, trimmed.
pub fn get_serialnumber(output: Option<CommandOutput>) -> (s: String)
    ensures
        s@ == match output {
            Some(o) => spec_trim(spec_replace(utf8_lossy(o.stdout@), serial_label(), Seq::empty())),
            None => "Error ao coletar a service tag"@,
        },
{
    match output {
        Some(o) => {
            let text = lossy_chars(o.stdout.as_slice());
            let label = chars_of("Serialnumber :");
            proof {
                reveal_strlit("Serialnumber :");
            }
            let empty: Vec<char> = Vec::new();
            let cleaned = replace(text.as_slice(), label.as_slice(), empty.as_slice());
            assert(empty@ =~= Seq::<char>::empty());
            let t = trim(cleaned.as_slice());
            string_from_chars(t.as_slice())
        },
        None => "Error ao coletar a service tag".to_owned(),
    }
}

/// The serial number of the monitor: the query's trimmed output. There is always
/// a value; when the query cannot run it is an error text.
pub fn get_serialnumbermonitor(output: Option<CommandOutput>) -> (s: Option<String>)
    ensures
        s matches Some(t) && t@ == match output {
            Some(o) => trimmed_output(o),
            None => "Error ao coletar o serial number do monitor"@,
        },
{
    Some(trimmed_or(output, "Error ao coletar o serial number do monitor"))
}

/// The model of the monitor: the query's output without control characters,
/// trimmed. There is always a value; when the query cannot run it is an error text.
pub fn get_monitor(output: Option<CommandOutput>) -> (s: Option<String>)
    ensures
        s matches Some(t) && t@ == match output {
            Some(o) => spec_trim(utf8_lossy(o.stdout@).filter(|c: char| !spec_is_control(c))),
            None => "Error ao coletar o monitor"@,
        },
{
    match output {
        Some(o) => {
            let text = lossy_chars(o.stdout.as_slice());
            let ghost pred = |c: char| !spec_is_control(c);
            let mut kept: Vec<char> = Vec::new();
            let mut i: usize = 0;
            assert(text@.take(0).filter(pred) =~= Seq::<char>::empty());
            while i < text.len()
                invariant
                    i <= text@.len(),
                    pred == (|c: char| !spec_is_control(c)),
                    kept@ == text@.take(i as int).filter(pred),
                decreases text@.len() - i,
            {
                let c = text[i];
                proof {
                    text@.take(i as int).lemma_filter_push(c, pred);
                }
                assert(text@.take(i + 1) =~= text@.take(i as int).push(c));
                if !is_control(c) {
                    kept.push(c);
                }
                i += 1;
            }
            assert(text@.take(text@.len() as int) =~= text@);
            let t = trim(kept.as_slice());
            Some(string_from_chars(t.as_slice()))
        },
        None => Some("Error ao coletar o monitor".to_owned()),
    }
}

/// The name of the processor: the query's trimmed output.
pub fn get_processador(output: Option<CommandOutput>) -> (s: String)
    ensures
        s@ == match output {
            Some(o) => trimmed_output(o),
            None => "Error ao coletar o processador"@,
        },
{
    trimmed_or(output, "Error ao coletar o processador")
}

/// The name of the computer: the host name, when it could be read.
pub fn get_namepc(hostname: Option<String>) -> (s: String)
    ensures
        s@ == match hostname {
            Some(h) => h@,
            None => "Falha ao pegar o nome do usuario"@,
        },
{
    match hostname {
        Some(h) => h,
        None => "Falha ao pegar o nome do usuario".to_owned(),
    }
}

/// The model of the computer: the query's trimmed output.
pub fn get_model(output: Option<CommandOutput>) -> (s: String)
    ensures
        s@ == match output {
            Some(o) => trimmed_output(o),
            None => "Error ao coletar o modelo do dispositivo"@,
        },
{
    trimmed_or(output, "Error ao coletar o modelo do dispositivo")
}

/// The name of the logged-in user: the query's trimmed output.
pub fn get_username(output: Option<CommandOutput>) -> (s: String)
    ensures
        s@ == match output {
            Some(o) => trimmed_output(o),
            None => "Error to catch the username"@,
        },
{
    trimmed_or(output, "Error to catch the username")
}

/// The local IP address: the query's trimmed output.
pub fn get_ip_local(output: Option<CommandOutput>) -> (s: String)
    ensures
        s@ == match output {
            Some(o) => trimmed_output(o),
            None => "Error ao coletar o ip local"@,
        },
{
    trimmed_or(output, "Error ao coletar o ip local")
}

/// The graphics card: the query's trimmed output.
pub fn graphic_card(output: Option<CommandOutput>) -> (s: String)
    ensures
        s@ == match output {
            Some(o) => trimmed_output(o),
            None => "Error ao coletar a placa de video"@,
        },
{
    trimmed_or(output, "Error ao coletar a placa de video")
}

/// The Windows version: the query's trimmed output, or a notice when it is empty.
pub fn get_windows_version(output: Option<CommandOutput>) -> (s: String)
    ensures
        s@ == match output {
            Some(o) => if trimmed_output(o).len() > 0 {
                trimmed_output(o)
            } else {
                "Versão do Windows não encontrada"@
            },
            None => "Erro ao executar o comando"@,
        },
{
    match output {
        Some(o) => {
            let t = trimmed_text(&o);
            if t.len() > 0 {
                string_from_chars(t.as_slice())
            } else {
                "Versão do Windows não encontrada".to_owned()
            }
        },
        None => "Erro ao executar o comando".to_owned(),
    }
}

/// The activation status of Windows: active when the license query's output
/// holds a `1`.
pub fn get_windows(output: Option<CommandOutput>) -> (s: String)
    ensures
        s@ == match output {
            Some(o) => if spec_contains(trimmed_output(o), seq!['1']) {
                "Windows Ativo"@
            } else {
                "Precisa ativar o windows"@
            },
            None => "Error ao coletar o status do windows do dispositivo"@,
        },
{
    match output {
        Some(o) => {
            let t = trimmed_text(&o);
            let one = vec!['1'];
            assert(one@ =~= seq!['1']);
            if contains(t.as_slice(), one.as_slice()) {
                "Windows Ativo".to_owned()
            } else {
                "Precisa ativar o windows".to_owned()
            }
        },
        None => "Error ao coletar o status do windows do dispositivo".to_owned(),
    }
}

/// The installed programs: one per line of the query's output.
pub fn get_programs(output: &str) -> (programs: Vec<String>)
    ensures
        programs@.map_values(|p: String| p@) == spec_lines(output@),
{
    let text = chars_of(output);
    let ls = lines(text.as_slice());
    let mut out: Vec<String> = Vec::new();
    let mut i: usize = 0;
    while i < ls.len()
        invariant
            i <= ls@.len(),
            out@.map_values(|p: String| p@) == views(ls@).take(i as int),
        decreases ls@.len() - i,
    {
        let s = string_from_chars(ls[i].as_slice());
        let ghost before = out@;
        out.push(s);
        assert(out@.map_values(|p: String| p@) =~= before.map_values(|p: String| p@).push(s@));
        assert(views(ls@).take(i + 1) =~= views(ls@).take(i as int).push(ls@[i as int]@));
        i += 1;
    }
    assert(views(ls@).take(ls@.len() as int) =~= views(ls@));
    out
}

// ---------------------------------------------------------------------------
// Disks
// ---------------------------------------------------------------------------

/// Bytes in a gibibyte.
pub open spec fn gib() -> nat {
    1073741824
}

/// The number that `s` reads as with `str::parse::<u64>`, or 0.
pub open spec fn u64_or_zero(s: Seq<char>) -> nat {
    match spec_parse_u64(s) {
        Some(v) => v as nat,
        None => 0,
    }
}

/// The size that a disk line reports, in whole gibibytes: the first run of
/// digits in it, read as a 64-bit number (0 when it does not read as one),
/// divided by 2^30; or a notice when the line holds no digits.
pub open spec fn size_field(line: Seq<char>) -> Seq<char> {
    match digit_run_match(line) {
        Some((a, b)) => decimal(u64_or_zero(line.subrange(a, b)) / gib()),
        None => "Desconhecido"@,
    }
}

/// The size, in whole gibibytes, that a line of the disk query reports.
pub fn extract_size_from_line(line: &str) -> (s: String)
    ensures
        s@ == size_field(line@),
        all_ascii(line@) && has_ascii_digit(line@) ==> exists|a: int, b: int|
            #[trigger] first_ascii_digit_run(line@, a, b) && s@ == decimal(
                u64_or_zero(line@.subrange(a, b)) / gib(),
            ),
        all_ascii(line@) && !has_ascii_digit(line@) ==> s@ == "Desconhecido"@,
{
    match find_digit_run(line) {
        Some(m) => {
            proof {
                let (a, b) = digit_run_match(line@).unwrap();
                if all_ascii(line@) {
                    assert forall|i: int| a <= i < b implies spec_is_ascii_digit(
                        #[trigger] line@[i],
                    ) by {
                        assert((line@[i] as u32) < 0x80);
                    }
                    assert(first_ascii_digit_run(line@, a, b));
                }
            }
            let digits = chars_of(m.as_str());
            let v: u64 = match parse_u64(digits.as_slice()) {
                Some(v) => v,
                None => 0,
            };
            let size = to_decimal(v / 1073741824);
            string_from_chars(size.as_slice())
        },
        None => "Desconhecido".to_owned(),
    }
}

/// The kind of disk a line of the disk query names, if any.
pub open spec fn disk_media(line: Seq<char>) -> Option<Seq<char>> {
    if spec_contains(line, "SSD"@) {
        Some("SSD"@)
    } else if spec_contains(line, "HDD"@) {
        Some("HDD"@)
    } else if spec_contains(line, "Unspecified"@) {
        Some("Pendrive"@)
    } else {
        None
    }
}

/// The entry that a line of the disk query adds to the report: `<kind> <size>GB`
/// and a line break, or nothing for a line that names no kind of disk.
pub open spec fn disk_entry(line: Seq<char>) -> Seq<char> {
    match disk_media(line) {
        Some(kind) => kind + " "@ + size_field(line) + "GB\n"@,
        None => Seq::empty(),
    }
}

/// The entries of all the lines, in order.
pub open spec fn disk_listing(lines: Seq<Seq<char>>) -> Seq<char>
    decreases lines.len(),
{
    if lines.len() == 0 {
        Seq::empty()
    } else {
        disk_listing(lines.drop_last()) + disk_entry(lines.last())
    }
}

/// The report of the disks that the query's output lists.
pub open spec fn disks_report(output: Seq<char>) -> Seq<char> {
    let listing = disk_listing(spec_lines(output));
    if listing.len() == 0 {
        "Nenhum disco encontrado"@
    } else {
        spec_trim(listing)
    }
}

/// The entry of one line of the disk query.
fn disk_line_entry(line: &[char]) -> (e: Vec<char>)
    ensures
        e@ == disk_entry(line@),
{
    let ssd = chars_of("SSD");
    let hdd = chars_of("HDD");
    let unspecified = chars_of("Unspecified");
    let kind: Vec<char> = if contains(line, ssd.as_slice()) {
        ssd
    } else if contains(line, hdd.as_slice()) {
        hdd
    } else if contains(line, unspecified.as_slice()) {
        chars_of("Pendrive")
    } else {
        return Vec::new();
    };
    let line_text = string_from_chars(line);
    let size = extract_size_from_line(line_text.as_str());
    let mut e = kind;
    let space = chars_of(" ");
    append_chars(&mut e, space.as_slice());
    let size_chars = chars_of(size.as_str());
    append_chars(&mut e, size_chars.as_slice());
    let unit = chars_of("GB\n");
    append_chars(&mut e, unit.as_slice());
    e
}

/// The type and size of each disk that the disk query lists, one per line.
pub fn get_disks(output: Option<CommandOutput>) -> (s: String)
    ensures
        s@ == match output {
            Some(o) => disks_report(utf8_lossy(o.stdout@)),
            None => "Erro ao executar o comando"@,
        },
{
    match output {
        Some(o) => {
            let text = lossy_chars(o.stdout.as_slice());
            let ls = lines(text.as_slice());
            let ghost lv = views(ls@);
            let mut result: Vec<char> = Vec::new();
            let mut i: usize = 0;
            assert(lv.take(0) =~= Seq::<Seq<char>>::empty());
            while i < ls.len()
                invariant
                    i <= ls@.len(),
                    lv == views(ls@),
                    result@ == disk_listing(lv.take(i as int)),
                decreases ls@.len() - i,
            {
                let entry = disk_line_entry(ls[i].as_slice());
                assert(lv.take(i + 1).drop_last() =~= lv.take(i as int));
                append_chars(&mut result, entry.as_slice());
                i += 1;
            }
            assert(lv.take(ls@.len() as int) =~= lv);
            if result.len() == 0 {
                "Nenhum disco encontrado".to_owned()
            } else {
                let t = trim(result.as_slice());
                string_from_chars(t.as_slice())
            }
        },
        None => "Erro ao executar o comando".to_owned(),
    }
}

// ---------------------------------------------------------------------------
// Uptime
// ---------------------------------------------------------------------------

/// The whole days on from which the computer is asked to restart: being on for
/// more than three days shows as a whole-day count of three or more.
pub open spec fn restart_days() -> u32 {
    3
}

/// What the agent does about the computer's uptime.
#[derive(Debug, PartialEq, Eq, Structural)]
pub enum UptimeAction {
    /// On for too long: warn the user, schedule a restart `delay_secs` from
    /// now, and warn again `warn_after_secs` from now.
    Restart { delay_secs: u64, warn_after_secs: u64 },
    /// Nothing to do.
    KeepRunning,
    /// The uptime query printed something that is not a number of days.
    UnreadableDays,
    /// The uptime query could not run.
    CommandFailed,
}

/// What the agent does, given the output of the query for the whole days since
/// the last boot: restart once the computer has been on for more than three
/// days, that is from a count of three whole days on.
pub open spec fn uptime_action(output: Option<CommandOutput>) -> UptimeAction {
    match output {
        Some(o) => match spec_parse_u32(trimmed_output(o)) {
            Some(days) => if days >= restart_days() {
                UptimeAction::Restart { delay_secs: 1800, warn_after_secs: 1500 }
            } else {
                UptimeAction::KeepRunning
            },
            None => UptimeAction::UnreadableDays,
        },
        None => UptimeAction::CommandFailed,
    }
}

/// Every uptime of three whole days or more, however many, asks for a restart
/// in half an hour with a warning at twenty-five minutes; fewer days ask for
/// nothing.
pub proof fn law_restart_from_three_days(o: CommandOutput, days: u32)
    requires
        spec_parse_u32(trimmed_output(o)) == Some(days),
    ensures
        days >= 3 ==> uptime_action(Some(o)) == (UptimeAction::Restart {
            delay_secs: 1800,
            warn_after_secs: 1500,
        }),
        days < 3 ==> uptime_action(Some(o)) == UptimeAction::KeepRunning,
{
}

/// The restart decision is monotone in the day count: when a count of days
/// asks for a restart, every larger count does too.
pub proof fn law_restart_monotone(o1: CommandOutput, o2: CommandOutput, d1: u32, d2: u32)
    requires
        spec_parse_u32(trimmed_output(o1)) == Some(d1),
        spec_parse_u32(trimmed_output(o2)) == Some(d2),
        d1 <= d2,
        uptime_action(Some(o1)) is Restart,
    ensures
        uptime_action(Some(o2)) == uptime_action(Some(o1)),
{
}

/// Decides, from the output of the uptime query, whether the computer must restart.
pub fn get_onlinetime(output: Option<CommandOutput>) -> (action: UptimeAction)
    ensures
        action == uptime_action(output),
{
    match output {
        Some(o) => {
            let t = trimmed_text(&o);
            match parse_u32(t.as_slice()) {
                Some(days) => if days >= 3 {
                    UptimeAction::Restart { delay_secs: 1800, warn_after_secs: 1500 }
                } else {
                    UptimeAction::KeepRunning
                },
                None => UptimeAction::UnreadableDays,
            }
        },
        None => UptimeAction::CommandFailed,
    }
}

} // verus!
