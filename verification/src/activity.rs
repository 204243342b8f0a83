//! What the user is doing: which window is in the foreground and for how long,
//! and when the user has been away. Times are nanoseconds on a monotonic
//! clock, and input idle times milliseconds as the system counts them; the
//! functions here decide, and the caller reads the clock, the idle
//! time and the window title, and sends the reports.
use vstd::prelude::*;

use crate::strings::string_from_chars;
use crate::text::{chars_of, contains, replace, spec_contains, spec_replace, spec_trim, trim};

verus! {

// ---------------------------------------------------------------------------
// Clock arithmetic
// ---------------------------------------------------------------------------

/// The time from `since` to `now`, or zero if `since` is later (as
/// `Instant::duration_since` saturates).
pub open spec fn elapsed(now: u64, since: u64) -> u64 {
    if now >= since {
        (now - since) as u64
    } else {
        0
    }
}

/// The time from `since` to `now`, or zero if `since` is later.
pub fn elapsed_time(now: u64, since: u64) -> (d: u64)
    ensures
        d == elapsed(now, since),
{
    if now >= since {
        now - since
    } else {
        0
    }
}

/// More than `threshold` has passed since the user was last active at
/// `last_active_time`.
pub fn is_inactive(last_active_time: u64, now: u64, threshold: u64) -> (inactive: bool)
    ensures
        inactive == (elapsed(now, last_active_time) > threshold),
{
    elapsed_time(now, last_active_time) > threshold
}

/// At least `interval` has passed from `last` to `now`.
pub fn interval_elapsed(last: u64, now: u64, interval: u64) -> (due: bool)
    ensures
        due == (elapsed(now, last) >= interval),
{
    elapsed_time(now, last) >= interval
}

/// How long ago the last input was, from the tick count of the system now and
/// at the last input (both wrap around at 2^32 ms); zero when the last input
/// could not be read.
pub open spec fn idle_time(read_ok: bool, tick_now: u32, tick_last_input: u32) -> u64 {
    if read_ok {
        ((tick_now - tick_last_input) % 0x1_0000_0000) as u64
    } else {
        0
    }
}

/// How long ago the last input was, in milliseconds.
pub fn idle_time_ms(read_ok: bool, tick_now: u32, tick_last_input: u32) -> (idle: u64)
    ensures
        idle == idle_time(read_ok, tick_now, tick_last_input),
{
    if !read_ok {
        0
    } else if tick_now >= tick_last_input {
        (tick_now - tick_last_input) as u64
    } else {
        (tick_now as u64 + 0x1_0000_0000) - tick_last_input as u64
    }
}

// ---------------------------------------------------------------------------
// Window titles
// ---------------------------------------------------------------------------

/// The title belongs to one of the browsers whose name is taken out of it.
pub open spec fn is_browser_title(t: Seq<char>) -> bool {
    ||| spec_contains(t, "Firefox"@)
    ||| spec_contains(t, "Google Chrome"@)
    ||| spec_contains(t, "Microsoft Edge"@)
    ||| spec_contains(t, "Brave"@)
}

/// `t` without `name`, trimmed.
pub open spec fn strip_name(t: Seq<char>, name: Seq<char>) -> Seq<char> {
    spec_trim(spec_replace(t, name, Seq::empty()))
}

/// `t` without the browser names, each taken out in turn and the rest trimmed.
pub open spec fn strip_browser_names(t: Seq<char>) -> Seq<char> {
    strip_name(
        strip_name(strip_name(strip_name(t, "Mozilla "@), "Chrome "@), "Microsoft "@),
        "Brave"@,
    )
}

/// The page a window title names: the trimmed title, and for a browser the
/// title without the browser's name.
pub open spec fn cleaned_title(raw: Seq<char>) -> Seq<char> {
    if is_browser_title(spec_trim(raw)) {
        strip_browser_names(spec_trim(raw))
    } else {
        spec_trim(raw)
    }
}

/// A window title that names none of the browsers "Firefox", "Google
/// Chrome", "Microsoft Edge" and "Brave" is only trimmed: nothing else is taken
/// out of it.
pub proof fn law_non_browser_title_only_trimmed(raw: Seq<char>)
    requires
        !spec_contains(spec_trim(raw), "Firefox"@),
        !spec_contains(spec_trim(raw), "Google Chrome"@),
        !spec_contains(spec_trim(raw), "Microsoft Edge"@),
        !spec_contains(spec_trim(raw), "Brave"@),
    ensures
        cleaned_title(raw) == spec_trim(raw),
{
}

/// A window title that names one of the browsers "Firefox", "Google Chrome",
/// "Microsoft Edge" or "Brave" has "Mozilla ", "Chrome ", "Microsoft " and
/// "Brave" taken out of it, in that order, trimming after each.
pub proof fn law_browser_title_stripped(raw: Seq<char>)
    requires
        spec_contains(spec_trim(raw), "Firefox"@) || spec_contains(spec_trim(raw), "Google Chrome"@)
            || spec_contains(spec_trim(raw), "Microsoft Edge"@) || spec_contains(
            spec_trim(raw),
            "Brave"@,
        ),
    ensures
        cleaned_title(raw) == spec_trim(
            spec_replace(
                spec_trim(
                    spec_replace(
                        spec_trim(
                            spec_replace(
                                spec_trim(spec_replace(spec_trim(raw), "Mozilla "@, Seq::empty())),
                                "Chrome "@,
                                Seq::empty(),
                            ),
                        ),
                        "Microsoft "@,
                        Seq::empty(),
                    ),
                ),
                "Brave"@,
                Seq::empty(),
            ),
        ),
{
}

/// `t` without `name`, trimmed.
fn strip_name_exec(t: &[char], name: &str) -> (u: Vec<char>)
    requires
        name@.len() > 0,
    ensures
        u@ == strip_name(t@, name@),
{
    let n = chars_of(name);
    let empty: Vec<char> = Vec::new();
    let r = replace(t, n.as_slice(), empty.as_slice());
    assert(empty@ =~= Seq::<char>::empty());
    trim(r.as_slice())
}

/// The page that the foreground window's title names.
pub fn clean_window_title(raw: &str) -> (title: String)
    ensures
        title@ == cleaned_title(raw@),
        spec_trim(title@) == title@,
{
    let rc = chars_of(raw);
    let t = trim(rc.as_slice());
    proof {
        crate::text::lemma_trim_idempotent(raw@);
    }
    let firefox = chars_of("Firefox");
    let chrome = chars_of("Google Chrome");
    let edge = chars_of("Microsoft Edge");
    let brave = chars_of("Brave");
    if contains(t.as_slice(), firefox.as_slice()) || contains(t.as_slice(), chrome.as_slice())
        || contains(t.as_slice(), edge.as_slice()) || contains(t.as_slice(), brave.as_slice()) {
        proof {
            reveal_strlit("Mozilla ");
            reveal_strlit("Chrome ");
            reveal_strlit("Microsoft ");
            reveal_strlit("Brave");
        }
        let a = strip_name_exec(t.as_slice(), "Mozilla ");
        let b = strip_name_exec(a.as_slice(), "Chrome ");
        let c = strip_name_exec(b.as_slice(), "Microsoft ");
        let d = strip_name_exec(c.as_slice(), "Brave");
        proof {
            crate::text::lemma_trim_idempotent(spec_replace(c@, "Brave"@, Seq::empty()));
        }
        string_from_chars(d.as_slice())
    } else {
        string_from_chars(t.as_slice())
    }
}

// ---------------------------------------------------------------------------
// Time on each page
// ---------------------------------------------------------------------------

/// Input idle for longer than this many milliseconds (ten minutes) means
/// the user is away.
pub open spec fn idle_limit_ms() -> u64 {
    600_000
}

/// A user not active for longer than this (ten minutes, in nanoseconds)
/// counts as away.
pub open spec fn inactive_threshold() -> u64 {
    600_000_000_000
}

/// The page named in reports of time spent away.
pub open spec fn away_page() -> Seq<char> {
    "Inativo"@
}

/// Time spent on a page.
pub struct PageTime {
    pub page: String,
    pub elapsed_ns: u64,
}

/// The page and time of a report.
pub open spec fn page_view(p: PageTime) -> (Seq<char>, u64) {
    (p.page@, p.elapsed_ns)
}

/// Tracks the foreground window and the user's activity.
pub struct ActivityTracker {
    /// The page last in the foreground.
    pub last_window: Option<String>,
    /// When that page came to the foreground (or the user came back).
    pub start_time: u64,
    /// When the user was last seen active.
    pub last_active_time: u64,
}

/// The state of an [`ActivityTracker`].
pub struct TrackerState {
    pub last_window: Option<Seq<char>>,
    pub start_time: u64,
    pub last_active_time: u64,
}

impl View for ActivityTracker {
    type V = TrackerState;

    open spec fn view(&self) -> TrackerState {
        TrackerState {
            last_window: match self.last_window {
                Some(w) => Some(w@),
                None => None,
            },
            start_time: self.start_time,
            last_active_time: self.last_active_time,
        }
    }
}

/// What observing the foreground window does: when its page differs from the
/// last one, the page becomes the last one from `now`, and the last one, if
/// any, is reported with the time since it came to the foreground.
pub open spec fn observe(s: TrackerState, now: u64, page: Option<Seq<char>>) -> (
    TrackerState,
    Option<(Seq<char>, u64)>,
) {
    match page {
        Some(p) => if s.last_window == Some(p) {
            (s, None)
        } else {
            (
                TrackerState { last_window: Some(p), start_time: now, ..s },
                match s.last_window {
                    Some(l) => Some((l, elapsed(now, s.start_time))),
                    None => None,
                },
            )
        },
        None => (s, None),
    }
}

/// What a one-second tick does: with input idle for more than ten minutes,
/// and the user seen active within the last ten minutes while a page is
/// known, the time since the user was last active is reported as time away;
/// with recent input, the user is active now, and a return from being away
/// restarts the page's time. Then the foreground window is observed.
pub open spec fn tick(s: TrackerState, now: u64, idle: u64, page: Option<Seq<char>>) -> (
    TrackerState,
    Seq<(Seq<char>, u64)>,
) {
    let away = elapsed(now, s.last_active_time) > inactive_threshold();
    let (s1, away_report) = if idle > idle_limit_ms() {
        (
            s,
            if !away && s.last_window is Some {
                seq![(away_page(), elapsed(now, s.last_active_time))]
            } else {
                seq![]
            },
        )
    } else {
        (
            TrackerState {
                start_time: if away {
                    now
                } else {
                    s.start_time
                },
                last_active_time: now,
                ..s
            },
            seq![],
        )
    };
    let (s2, change) = observe(s1, now, page);
    (
        s2,
        match change {
            Some(r) => away_report.push(r),
            None => away_report,
        },
    )
}

/// The page that a raw title names, if there is a title.
pub open spec fn page_of(raw_title: Option<String>) -> Option<Seq<char>> {
    match raw_title {
        Some(r) => Some(cleaned_title(r@)),
        None => None,
    }
}

impl ActivityTracker {
    /// A tracker that has seen no window yet, started at `now`.
    pub fn new(now: u64) -> (t: Self)
        ensures
            t@ == (TrackerState { last_window: None, start_time: now, last_active_time: now }),
    {
        ActivityTracker { last_window: None, start_time: now, last_active_time: now }
    }

    /// Observes the foreground window's raw title (`None` when the window has
    /// no title) at `now`; gives the report of the page it replaces, if any.
    pub fn observe_window(&mut self, now: u64, raw_title: Option<String>) -> (report: Option<
        PageTime,
    >)
        ensures
            (final(self)@, match report {
                Some(r) => Some(page_view(r)),
                None => None,
            }) == observe(old(self)@, now, page_of(raw_title)),
    {
        match raw_title {
            Some(raw) => {
                let title = clean_window_title(raw.as_str());
                let same = match &self.last_window {
                    Some(w) => *w == title,
                    None => false,
                };
                if same {
                    None
                } else {
                    let report = match self.last_window.take() {
                        Some(last) => Some(
                            PageTime { page: last, elapsed_ns: elapsed_time(now, self.start_time) },
                        ),
                        None => None,
                    };
                    self.start_time = now;
                    self.last_window = Some(title);
                    report
                }
            },
            None => None,
        }
    }

    /// One tick of the activity loop at `now`, with the input idle for
    /// `idle_ms` and the foreground window's raw title; gives the reports to
    /// send, in order.
    pub fn tick(&mut self, now: u64, idle_ms: u64, raw_title: Option<String>) -> (reports: Vec<
        PageTime,
    >)
        ensures
            (final(self)@, reports@.map_values(|r: PageTime| page_view(r))) == tick(
                old(self)@,
                now,
                idle_ms,
                page_of(raw_title),
            ),
    {
        let mut reports: Vec<PageTime> = Vec::new();
        let away = is_inactive(self.last_active_time, now, 600_000_000_000);
        if idle_ms > 600_000 {
            if !away && self.last_window.is_some() {
                reports.push(
                    PageTime {
                        page: "Inativo".to_owned(),
                        elapsed_ns: elapsed_time(now, self.last_active_time),
                    },
                );
            }
        } else {
            if away {
                self.start_time = now;
            }
            self.last_active_time = now;
        }
        let ghost before = reports@;
        let change = self.observe_window(now, raw_title);
        match change {
            Some(r) => {
                reports.push(r);
            },
            None => {},
        }
        assert(reports@.map_values(|r: PageTime| page_view(r)) =~= match change {
            Some(r) => before.map_values(|r: PageTime| page_view(r)).push(page_view(r)),
            None => before.map_values(|r: PageTime| page_view(r)),
        });
        reports
    }
}

/// Observing the same page twice in a row: the second observation reports
/// nothing and changes nothing.
pub proof fn law_same_page_no_report(s: TrackerState, n1: u64, n2: u64, page: Seq<char>)
    ensures
        ({
            let s1 = observe(s, n1, Some(page)).0;
            observe(s1, n2, Some(page)) == (s1, None::<(Seq<char>, u64)>)
        }),
{
}

/// The time reported for a page is the time from when it came to the
/// foreground to when another page replaced it.
pub proof fn law_page_time(s: TrackerState, n1: u64, n2: u64, p: Seq<char>, q: Seq<char>)
    requires
        s.last_window != Some(p),
        q != p,
    ensures
        ({
            let s1 = observe(s, n1, Some(p)).0;
            let (s2, report) = observe(s1, n2, Some(q));
            &&& report == Some((p, elapsed(n2, n1)))
            &&& s2.last_window == Some(q)
            &&& s2.start_time == n2
        }),
{
}

/// A foreground window without a title changes nothing: the page in front,
/// the time it came to the foreground and the user's last activity stay as
/// they were, and nothing is reported.
pub proof fn law_untitled_window_changes_nothing(s: TrackerState, now: u64)
    ensures
        observe(s, now, None) == (s, None::<(Seq<char>, u64)>),
{
}

/// Untitled windows in between do not cut a page's time: a page `p` seen at
/// `n1`, then a window without a title at `n_mid`, then another page `q` at
/// `n2`, reports `p` with the whole time from `n1` to `n2`.
pub proof fn law_page_time_across_untitled(
    s: TrackerState,
    n1: u64,
    n_mid: u64,
    n2: u64,
    p: Seq<char>,
    q: Seq<char>,
)
    requires
        s.last_window != Some(p),
        q != p,
    ensures
        ({
            let s1 = observe(s, n1, Some(p)).0;
            let (s2, none) = observe(s1, n_mid, None);
            let (s3, report) = observe(s2, n2, Some(q));
            &&& none is None
            &&& report == Some((p, elapsed(n2, n1)))
            &&& s3.last_window == Some(q)
            &&& s3.start_time == n2
        }),
{
}

/// While the user stays at the computer (input at both ticks, no more than
/// ten minutes apart), a switch from page `p` to page `q` reports exactly the
/// time spent on `p`, and nothing else.
pub proof fn law_active_page_time(
    s: TrackerState,
    n1: u64,
    n2: u64,
    idle1: u64,
    idle2: u64,
    p: Seq<char>,
    q: Seq<char>,
)
    requires
        idle1 <= idle_limit_ms(),
        idle2 <= idle_limit_ms(),
        n1 <= n2 <= n1 + inactive_threshold(),
        s.last_window != Some(p),
        q != p,
    ensures
        ({
            let s1 = tick(s, n1, idle1, Some(p)).0;
            let (s2, reports) = tick(s1, n2, idle2, Some(q));
            &&& reports == seq![(p, (n2 - n1) as u64)]
            &&& s2.last_window == Some(q)
        }),
{
    let s1 = tick(s, n1, idle1, Some(p)).0;
    assert(s1.last_active_time == n1);
    assert(s1.start_time == n1);
    assert(s1.last_window == Some(p));
    let (s2, reports) = tick(s1, n2, idle2, Some(q));
    assert(reports =~= seq![(p, (n2 - n1) as u64)]);
}

/// A tick with the input idle never moves the time the user was last active.
pub proof fn law_idle_keeps_last_active(s: TrackerState, now: u64, idle: u64, page: Option<Seq<char>>)
    requires
        idle > idle_limit_ms(),
    ensures
        tick(s, now, idle, page).0.last_active_time == s.last_active_time,
{
}

/// One poll of the activity loop: the time (nanoseconds), how long the input
/// has been idle (milliseconds), and the page in front.
pub struct Poll {
    pub now: u64,
    pub idle: u64,
    pub page: Option<Seq<char>>,
}

/// The state after the polls `polls`, one tick each, starting from `s`; and
/// what each poll reported.
pub open spec fn run_polls(s: TrackerState, polls: Seq<Poll>) -> (
    TrackerState,
    Seq<Seq<(Seq<char>, u64)>>,
)
    decreases polls.len(),
{
    if polls.len() == 0 {
        (s, seq![])
    } else {
        let (s1, reports) = run_polls(s, polls.drop_last());
        let p = polls.last();
        let (s2, r) = tick(s1, p.now, p.idle, p.page);
        (s2, reports.push(r))
    }
}

/// The user is at the computer through the polls: the input is never idle
/// for longer than ten minutes, and polls follow each other in time at
/// most ten minutes apart.
pub open spec fn active_polls(polls: Seq<Poll>) -> bool {
    &&& forall|i: int| 0 <= i < polls.len() ==> #[trigger] polls[i].idle <= idle_limit_ms()
    &&& forall|i: int|
        0 <= i < polls.len() - 1 ==> #[trigger] polls[i].now <= polls[i + 1].now <= polls[i].now
            + inactive_threshold()
}

/// The first `j` polls, all on page `a`, leave `a` in front since the first
/// poll, the user active at the last one, and report nothing after the first.
proof fn lemma_polls_on_page(s: TrackerState, polls: Seq<Poll>, a: Seq<char>, j: int)
    requires
        1 <= j < polls.len(),
        active_polls(polls),
        s.last_window != Some(a),
        forall|i: int| 0 <= i < polls.len() - 1 ==> #[trigger] polls[i].page == Some(a),
    ensures
        ({
            let (sj, reports) = run_polls(s, polls.take(j));
            &&& sj.last_window == Some(a)
            &&& sj.start_time == polls[0].now
            &&& sj.last_active_time == polls[j - 1].now
            &&& polls[0].now <= polls[j - 1].now
            &&& reports.len() == j
            &&& forall|i: int| 1 <= i < j ==> #[trigger] reports[i] == Seq::<(Seq<char>, u64)>::empty()
        }),
    decreases j,
{
    let prefix = polls.take(j);
    assert(prefix.drop_last() =~= polls.take(j - 1));
    assert(prefix.last() == polls[j - 1]);
    assert(polls[j - 1].page == Some(a));
    assert(polls[j - 1].idle <= idle_limit_ms());
    if j == 1 {
        assert(polls.take(0) =~= Seq::<Poll>::empty());
    } else {
        lemma_polls_on_page(s, polls, a, j - 1);
        assert(polls[j - 2].now <= polls[j - 1].now <= polls[j - 2].now + inactive_threshold());
        let (sp, rp) = run_polls(s, polls.take(j - 1));
        let (sj, r) = tick(sp, polls[j - 1].now, polls[j - 1].idle, Some(a));
        assert(r =~= Seq::<(Seq<char>, u64)>::empty());
        let reports = rp.push(r);
        assert forall|i: int| 1 <= i < j implies #[trigger] reports[i] == Seq::<
            (Seq<char>, u64),
        >::empty() by {
            if i < j - 1 {
                assert(reports[i] == rp[i]);
            }
        }
    }
}

/// The time reported for a page over any number of polls: while the user is
/// at the computer and page `a` stays in front from the first poll to the one
/// before last, the polls in between report nothing, and the last poll, which
/// finds page `b` in front, reports `a` with the time from the first poll to
/// the last.
pub proof fn law_page_time_over_polls(s: TrackerState, polls: Seq<Poll>, a: Seq<char>, b: Seq<char>)
    requires
        polls.len() >= 2,
        active_polls(polls),
        s.last_window != Some(a),
        forall|i: int| 0 <= i < polls.len() - 1 ==> #[trigger] polls[i].page == Some(a),
        polls.last().page == Some(b),
        b != a,
    ensures
        ({
            let k = polls.len() - 1;
            let (sk, reports) = run_polls(s, polls);
            &&& reports.len() == polls.len()
            &&& forall|i: int| 1 <= i < k ==> #[trigger] reports[i] == Seq::<(Seq<char>, u64)>::empty()
            &&& reports[k] == seq![(a, (polls[k].now - polls[0].now) as u64)]
            &&& sk.last_window == Some(b)
        }),
{
    let k = polls.len() - 1;
    lemma_polls_on_page(s, polls, a, k);
    assert(polls.drop_last() =~= polls.take(k));
    assert(polls[k - 1].now <= polls[k].now <= polls[k - 1].now + inactive_threshold());
    assert(polls[k].idle <= idle_limit_ms());
    let (sp, rp) = run_polls(s, polls.take(k));
    let (sk, r) = tick(sp, polls[k].now, polls[k].idle, Some(b));
    assert(r =~= seq![(a, (polls[k].now - polls[0].now) as u64)]);
    let reports = rp.push(r);
    assert forall|i: int| 1 <= i < k implies #[trigger] reports[i] == Seq::<(Seq<char>, u64)>::empty() by {
        assert(reports[i] == rp[i]);
    }
}

// ---------------------------------------------------------------------------
// Periods away from the computer
// ---------------------------------------------------------------------------

/// How long the prompt for the reason of an absence stays up (five minutes,
/// in nanoseconds).
pub open spec fn prompt_timeout() -> u64 {
    300_000_000_000
}

/// Tracks periods in which the user is away, and the prompt that asks why.
#[derive(Clone, Copy, Debug, PartialEq, Eq, Structural)]
pub struct InactivityMonitor {
    /// Whether the input has been idle for longer than the threshold.
    pub was_inactive: bool,
    /// When the current period away started.
    pub inactive_start: u64,
    /// The length of the last period away, until a reason is given for it.
    pub pending: Option<u128>,
    /// When the prompt was shown, while it is up.
    pub prompt_shown_at: Option<u64>,
}

/// A period away and what the user said of it.
pub struct AwayReport {
    pub reason: String,
    pub length_ns: u128,
}

/// The reason recorded for a period away when the prompt expires unanswered.
pub open spec fn refusal_reason() -> Seq<char> {
    "O usuario se recusou a fornecer o motivo."@
}

/// The reason and length of a report.
pub open spec fn away_view(r: AwayReport) -> (Seq<char>, u128) {
    (r.reason@, r.length_ns)
}

/// The length reported for a period away: the threshold of idle time before
/// it was noticed, plus the time it was noticed for.
pub open spec fn away_length(threshold: u128, noticed_for: u64) -> u128 {
    (threshold + noticed_for) as u128
}

/// What one tick at `now` does, with the input idle for `idle` and `threshold`
/// the idle time after which the user counts as away: idle input starts a
/// period away (if none is under way); recent input ends it, and when it
/// lasted a second or more its length becomes pending and is given back, for
/// the prompt to be shown.
pub open spec fn monitor_tick(m: InactivityMonitor, now: u64, idle: u64, threshold: u128) -> (
    InactivityMonitor,
    Option<u128>,
) {
    if idle * 1_000_000 > threshold {
        if m.was_inactive {
            (m, None)
        } else {
            (InactivityMonitor { was_inactive: true, inactive_start: now, ..m }, None)
        }
    } else if m.was_inactive {
        if elapsed(now, m.inactive_start) >= 1_000_000_000 {
            let length = away_length(threshold, elapsed(now, m.inactive_start));
            (InactivityMonitor { was_inactive: false, pending: Some(length), ..m }, Some(length))
        } else {
            (InactivityMonitor { was_inactive: false, ..m }, None)
        }
    } else {
        (m, None)
    }
}

/// Whether the prompt shown in `m` has been up for five minutes at `now`; if
/// so it is taken as closed.
pub open spec fn monitor_prompt_expired(m: InactivityMonitor, now: u64) -> (InactivityMonitor, bool) {
    if m.prompt_shown_at matches Some(t) && elapsed(now, t) >= prompt_timeout() {
        (InactivityMonitor { prompt_shown_at: None, ..m }, true)
    } else {
        (m, false)
    }
}

/// A reason was given: the pending length is given back and is no longer
/// pending; when there was one and the prompt's window exists, the prompt is
/// taken as closed.
pub open spec fn monitor_take_reason(m: InactivityMonitor, window_exists: bool) -> (
    InactivityMonitor,
    Option<u128>,
) {
    (
        InactivityMonitor {
            pending: None,
            prompt_shown_at: if m.pending is Some && window_exists {
                None
            } else {
                m.prompt_shown_at
            },
            ..m
        },
        m.pending,
    )
}

impl InactivityMonitor {
    /// A monitor that has seen no period away.
    pub fn new(now: u64) -> (m: Self)
        ensures
            m == (InactivityMonitor {
                was_inactive: false,
                inactive_start: now,
                pending: None,
                prompt_shown_at: None,
            }),
    {
        InactivityMonitor { was_inactive: false, inactive_start: now, pending: None, prompt_shown_at: None }
    }

    /// One tick at `now`, with the input idle for `idle_ms` milliseconds and
    /// `threshold_ns` the idle time after which the user counts as away; gives
    /// the length of a period away that just ended, for the prompt to be shown.
    /// The threshold is a 64-bit count of whole seconds, in nanoseconds.
    pub fn tick(&mut self, now: u64, idle_ms: u64, threshold_ns: u128) -> (prompt: Option<u128>)
        requires
            threshold_ns <= 1_000_000_000 * u64::MAX,
        ensures
            (*final(self), prompt) == monitor_tick(*old(self), now, idle_ms, threshold_ns),
    {
        if idle_ms as u128 * 1_000_000 > threshold_ns {
            if !self.was_inactive {
                self.was_inactive = true;
                self.inactive_start = now;
            }
            None
        } else if self.was_inactive {
            self.was_inactive = false;
            let duration = elapsed_time(now, self.inactive_start);
            if duration / 1_000_000_000 > 0 {
                let total = threshold_ns + duration as u128;
                self.pending = Some(total);
                Some(total)
            } else {
                None
            }
        } else {
            None
        }
    }

    /// Records that the prompt came up at `now`.
    pub fn prompt_shown(&mut self, now: u64)
        ensures
            *final(self) == (InactivityMonitor { prompt_shown_at: Some(now), ..*old(self) }),
    {
        self.prompt_shown_at = Some(now);
    }

    /// Whether the prompt has been up for five minutes at `now`; if so it is
    /// taken as closed, and the report to send is given back: the user refused
    /// to give a reason, for the five minutes the prompt was up.
    pub fn prompt_expired(&mut self, now: u64) -> (report: Option<AwayReport>)
        ensures
            (*final(self), report is Some) == monitor_prompt_expired(*old(self), now),
            report matches Some(r) ==> away_view(r) == (refusal_reason(), prompt_timeout() as u128),
    {
        let expired = match self.prompt_shown_at {
            Some(t) => elapsed_time(now, t) >= 300_000_000_000,
            None => false,
        };
        if expired {
            self.prompt_shown_at = None;
            Some(
                AwayReport {
                    reason: "O usuario se recusou a fornecer o motivo.".to_owned(),
                    length_ns: 300_000_000_000,
                },
            )
        } else {
            None
        }
    }

    /// The user gave `reason`: gives the report of the pending period away,
    /// if any, with that reason.
    pub fn take_reason(&mut self, reason: String, window_exists: bool) -> (report: Option<
        AwayReport,
    >)
        ensures
            (*final(self), match report {
                Some(r) => Some(r.length_ns),
                None => None,
            }) == monitor_take_reason(*old(self), window_exists),
            report matches Some(r) ==> r.reason@ == reason@,
    {
        let length = self.pending.take();
        match length {
            Some(length_ns) => {
                if window_exists {
                    self.prompt_shown_at = None;
                }
                Some(AwayReport { reason, length_ns })
            },
            None => None,
        }
    }

    /// The prompt was closed without a reason; it is taken as closed when its
    /// window exists.
    pub fn prompt_closed(&mut self, window_exists: bool)
        ensures
            *final(self) == (if window_exists {
                InactivityMonitor { prompt_shown_at: None, ..*old(self) }
            } else {
                *old(self)
            }),
    {
        if window_exists {
            self.prompt_shown_at = None;
        }
    }
}

/// A period away that lasted a second or more ends with recent input: its
/// length, the threshold plus the time it lasted, becomes pending and is
/// given back.
pub proof fn law_absence_length(m: InactivityMonitor, now: u64, idle: u64, threshold: u128)
    requires
        m.was_inactive,
        idle * 1_000_000 <= threshold,
        elapsed(now, m.inactive_start) >= 1_000_000_000,
    ensures
        ({
            let length = threshold + elapsed(now, m.inactive_start);
            let (m1, prompt) = monitor_tick(m, now, idle, threshold);
            &&& prompt == Some(length as u128)
            &&& m1.pending == Some(length as u128)
            &&& !m1.was_inactive
        }),
{
}

/// A tick never drops a period away that waits for its reason: the pending
/// length after a tick is the one the tick reports, if it reports one, and
/// otherwise the one pending before it.
pub proof fn law_tick_keeps_pending(m: InactivityMonitor, now: u64, idle: u64, threshold: u128)
    ensures
        ({
            let (m1, prompt) = monitor_tick(m, now, idle, threshold);
            &&& prompt is Some ==> m1.pending == prompt
            &&& prompt is None ==> m1.pending == m.pending
        }),
{
}

/// An expired prompt does not drop the period away that waits for its
/// reason: only a reason takes it.
pub proof fn law_expiry_keeps_pending(m: InactivityMonitor, now: u64)
    ensures
        monitor_prompt_expired(m, now).0.pending == m.pending,
{
}

/// The reason given after a period away is reported gets that period's
/// length, however many ticks came in between that reported nothing new.
pub proof fn law_reason_after_ticks(
    m: InactivityMonitor,
    n1: u64,
    idle1: u64,
    threshold1: u128,
    ticks: Seq<(u64, u64, u128)>,
    window_exists: bool,
)
    requires
        monitor_tick(m, n1, idle1, threshold1).1 is Some,
        forall|i: int|
            0 <= i < ticks.len() ==> #[trigger] monitor_tick(
                run_ticks(monitor_tick(m, n1, idle1, threshold1).0, ticks.take(i)),
                ticks[i].0,
                ticks[i].1,
                ticks[i].2,
            ).1 is None,
    ensures
        monitor_take_reason(
            run_ticks(monitor_tick(m, n1, idle1, threshold1).0, ticks),
            window_exists,
        ).1 == monitor_tick(m, n1, idle1, threshold1).1,
{
    let m1 = monitor_tick(m, n1, idle1, threshold1).0;
    lemma_ticks_keep_pending(m1, ticks);
}

/// The monitor after the ticks `ticks`, each a time, an idle time and a
/// threshold, in turn.
pub open spec fn run_ticks(m: InactivityMonitor, ticks: Seq<(u64, u64, u128)>) -> InactivityMonitor
    decreases ticks.len(),
{
    if ticks.len() == 0 {
        m
    } else {
        let last = ticks.last();
        monitor_tick(run_ticks(m, ticks.drop_last()), last.0, last.1, last.2).0
    }
}

/// Ticks that report nothing leave the pending length as it was.
proof fn lemma_ticks_keep_pending(m: InactivityMonitor, ticks: Seq<(u64, u64, u128)>)
    requires
        forall|i: int|
            0 <= i < ticks.len() ==> #[trigger] monitor_tick(
                run_ticks(m, ticks.take(i)),
                ticks[i].0,
                ticks[i].1,
                ticks[i].2,
            ).1 is None,
    ensures
        run_ticks(m, ticks).pending == m.pending,
    decreases ticks.len(),
{
    if ticks.len() > 0 {
        let k = ticks.len() - 1;
        let front = ticks.drop_last();
        assert forall|i: int| 0 <= i < front.len() implies #[trigger] monitor_tick(
            run_ticks(m, front.take(i)),
            front[i].0,
            front[i].1,
            front[i].2,
        ).1 is None by {
            assert(front.take(i) =~= ticks.take(i));
            assert(front[i] == ticks[i]);
            assert(monitor_tick(run_ticks(m, ticks.take(i)), ticks[i].0, ticks[i].1, ticks[i].2).1 is None);
        }
        lemma_ticks_keep_pending(m, front);
        assert(ticks.take(k) =~= front);
        assert(monitor_tick(run_ticks(m, ticks.take(k)), ticks[k].0, ticks[k].1, ticks[k].2).1 is None);
        law_tick_keeps_pending(run_ticks(m, front), ticks[k].0, ticks[k].1, ticks[k].2);
    }
}

/// A period away is reported once: after the tick that reports its end, a
/// tick with recent input reports nothing.
pub proof fn law_period_reported_once(
    m: InactivityMonitor,
    n1: u64,
    idle1: u64,
    threshold1: u128,
    n2: u64,
    idle2: u64,
    threshold2: u128,
)
    requires
        monitor_tick(m, n1, idle1, threshold1).1 is Some,
        idle2 * 1_000_000 <= threshold2,
    ensures
        monitor_tick(monitor_tick(m, n1, idle1, threshold1).0, n2, idle2, threshold2).1 is None,
{
}

/// The length of a period away stays pending until a reason is given, which
/// gets it back; a second reason gets nothing.
pub proof fn law_reason_taken_once(
    m: InactivityMonitor,
    now: u64,
    idle: u64,
    threshold: u128,
    window1: bool,
    window2: bool,
)
    requires
        monitor_tick(m, now, idle, threshold).1 is Some,
    ensures
        ({
            let (m1, length) = monitor_tick(m, now, idle, threshold);
            let (m2, reason1) = monitor_take_reason(m1, window1);
            &&& reason1 == length
            &&& monitor_take_reason(m2, window2).1 is None
        }),
{
}

/// A prompt left unanswered expires once.
pub proof fn law_prompt_expires_once(m: InactivityMonitor, n1: u64, n2: u64)
    requires
        monitor_prompt_expired(m, n1).1,
    ensures
        !monitor_prompt_expired(monitor_prompt_expired(m, n1).0, n2).1,
{
}

// ---------------------------------------------------------------------------
// The idle threshold
// ---------------------------------------------------------------------------

/// How often the idle threshold is asked for again (thirty minutes, in
/// nanoseconds).
pub open spec fn threshold_refresh_interval() -> u64 {
    1_800_000_000_000
}

/// The idle threshold, in seconds, and when it was last asked for.
#[derive(Clone, Copy, Debug, PartialEq, Eq, Structural)]
pub struct ThresholdCache {
    pub last_call: u64,
    pub value_secs: u64,
}

/// The threshold must be asked for again at `now`: thirty minutes have passed
/// since it last was.
pub open spec fn cache_due(c: ThresholdCache, now: u64) -> bool {
    elapsed(now, c.last_call) >= threshold_refresh_interval()
}

/// The cached threshold in nanoseconds.
pub open spec fn cache_threshold_ns(c: ThresholdCache) -> u128 {
    (c.value_secs * 1_000_000_000) as u128
}

impl ThresholdCache {
    /// A threshold of twenty minutes, as of `now`.
    pub fn new(now: u64) -> (c: Self)
        ensures
            c == (ThresholdCache { last_call: now, value_secs: 1200 }),
    {
        ThresholdCache { last_call: now, value_secs: 1200 }
    }

    /// Whether the threshold must be asked for again at `now`.
    pub fn needs_refresh(&self, now: u64) -> (due: bool)
        ensures
            due == cache_due(*self, now),
    {
        interval_elapsed(self.last_call, now, 1_800_000_000_000)
    }

    /// Stores the threshold `secs` that was asked for at `now`.
    pub fn update(&mut self, now: u64, secs: u64)
        ensures
            *final(self) == (ThresholdCache { last_call: now, value_secs: secs }),
    {
        self.last_call = now;
        self.value_secs = secs;
    }

    /// The threshold in nanoseconds.
    pub fn threshold_ns(&self) -> (ns: u128)
        ensures
            ns == cache_threshold_ns(*self),
    {
        self.value_secs as u128 * 1_000_000_000
    }
}

/// Within thirty minutes of asking for the threshold `secs` at `now`, the
/// threshold is not asked for again, and it is `secs` seconds.
pub proof fn law_threshold_cached(now: u64, secs: u64, later: u64)
    requires
        now <= later < now + threshold_refresh_interval(),
    ensures
        ({
            let c = ThresholdCache { last_call: now, value_secs: secs };
            &&& !cache_due(c, later)
            &&& cache_threshold_ns(c) == secs * 1_000_000_000
        }),
{
}

} // verus!
