use vstd::prelude::*;
use vstd::string::StringExecFns;

verus! {

/// Most recent log entries the dashboard keeps.
pub const LOG_CAPACITY: usize = 100;

/// Number of categories, and of rows on the dashboard.
pub const CATEGORY_COUNT: usize = 4;

/// The categories of library data.
#[derive(Debug, Clone, Copy, PartialEq, Eq, Structural)]
pub enum DataType {
    Watchlist,
    History,
    Crunchylists,
    Ratings,
}

pub open spec fn data_type_name(d: DataType) -> Seq<char> {
    match d {
        DataType::Watchlist => "Watchlist"@,
        DataType::History => "History"@,
        DataType::Crunchylists => "Crunchylists"@,
        DataType::Ratings => "Ratings"@,
    }
}

/// Dashboard row of a category: categories are shown in processing order.
pub open spec fn spec_slot(d: DataType) -> nat {
    match d {
        DataType::Watchlist => 0,
        DataType::Crunchylists => 1,
        DataType::Ratings => 2,
        DataType::History => 3,
    }
}

impl DataType {
    /// The category's display name.
    pub fn to_string(&self) -> (r: String)
        ensures
            r@ == data_type_name(*self),
    {
        match self {
            DataType::Watchlist => String::from_str("Watchlist"),
            DataType::History => String::from_str("History"),
            DataType::Crunchylists => String::from_str("Crunchylists"),
            DataType::Ratings => String::from_str("Ratings"),
        }
    }

    pub fn slot(&self) -> (r: usize)
        ensures
            r == spec_slot(*self),
            r < CATEGORY_COUNT,
    {
        match self {
            DataType::Watchlist => 0,
            DataType::Crunchylists => 1,
            DataType::Ratings => 2,
            DataType::History => 3,
        }
    }
}

/// A numeric progress report for one category.
#[derive(Debug, Clone, Copy, PartialEq, Eq, Structural)]
pub struct ProgressUpdate {
    pub data_type: DataType,
    pub total: usize,
    pub processed: usize,
    pub added: usize,
    pub skipped: usize,
    pub already_present: usize,
    pub failed: usize,
}

impl ProgressUpdate {
    /// Every processed item was added, found present, or failed.
    pub open spec fn balanced(self) -> bool {
        self.processed == self.added + self.already_present + self.failed
    }
}

/// Progress of an export phase in which every fetched item counts as added.
pub fn export_progress(data_type: DataType, count: usize) -> (r: ProgressUpdate)
    ensures
        r == (ProgressUpdate {
            data_type,
            total: count,
            processed: count,
            added: count,
            skipped: 0,
            already_present: 0,
            failed: 0,
        }),
        r.balanced(),
{
    ProgressUpdate {
        data_type,
        total: count,
        processed: count,
        added: count,
        skipped: 0,
        already_present: 0,
        failed: 0,
    }
}

/// A discrete log line: an icon and a short human-readable label.
#[derive(Debug, Clone)]
pub struct LogEntry {
    pub icon: char,
    pub message: String,
}

pub const SUCCESS_ICON: char = '\u{2713}';

pub const SKIP_ICON: char = '-';

pub const ERROR_ICON: char = 'x';

impl LogEntry {
    pub fn success(message: &str) -> (r: LogEntry)
        ensures
            r.icon == SUCCESS_ICON && r.message@ == message@,
    {
        LogEntry { icon: SUCCESS_ICON, message: String::from_str(message) }
    }

    pub fn skip(message: &str) -> (r: LogEntry)
        ensures
            r.icon == SKIP_ICON && r.message@ == message@,
    {
        LogEntry { icon: SKIP_ICON, message: String::from_str(message) }
    }

    pub fn error(message: &str) -> (r: LogEntry)
        ensures
            r.icon == ERROR_ICON && r.message@ == message@,
    {
        LogEntry { icon: ERROR_ICON, message: String::from_str(message) }
    }
}

/// What a running operation tells its listener.
#[derive(Debug, Clone)]
pub enum UiEvent {
    Progress(ProgressUpdate),
    Log(LogEntry),
    /// The whole multi-category run is over.
    Done,
}

/// The decimal digits of `n`.
pub open spec fn decimal(n: nat) -> Seq<char>
    decreases n,
{
    if n < 10 {
        seq!["0123456789"@[n as int]]
    } else {
        decimal(n / 10).push("0123456789"@[(n % 10) as int])
    }
}

/// Relies on the `Display` impl of `u64` (through `to_string`): its decimal
/// digits, without sign or padding.
#[verifier::external_body]
fn decimal_string(n: u64) -> (r: String)
    ensures
        r@ == decimal(n as nat),
{
    n.to_string()
}

/// The suffix shown after a progress gauge for an estimated time left.
pub open spec fn eta_text(eta: Option<u64>) -> Seq<char> {
    match eta {
        None => Seq::empty(),
        Some(s) => if s >= 60 {
            " | ~"@ + decimal((s / 60) as nat) + "m"@ + decimal((s % 60) as nat) + "s left"@
        } else {
            " | ~"@ + decimal(s as nat) + "s left"@
        },
    }
}

/// Formats an estimate given in whole seconds.
pub fn format_eta(eta: Option<u64>) -> (r: String)
    ensures
        r@ == eta_text(eta),
{
    match eta {
        None => String::new(),
        Some(s) => {
            let mut out = String::from_str(" | ~");
            if s >= 60 {
                let m = decimal_string(s / 60);
                let sec = decimal_string(s % 60);
                out.append(m.as_str());
                out.append("m");
                out.append(sec.as_str());
            } else {
                let sec = decimal_string(s);
                out.append(sec.as_str());
            }
            out.append("s left");
            out
        },
    }
}


/// `s` cut down to its last `n` elements.
pub open spec fn keep_last<A>(s: Seq<A>, n: nat) -> Seq<A> {
    if s.len() > n {
        s.subrange(s.len() - n, s.len() as int)
    } else {
        s
    }
}

/// Remaining time, in whole seconds, from the rate observed so far: the
/// items left take as long per item as the processed ones did.
pub open spec fn eta_spec(p: Option<ProgressUpdate>, started: Option<u64>, now_ms: u64) -> Option<u64> {
    match (p, started) {
        (Some(p), Some(start)) => if p.total == 0 || p.processed == 0 || p.processed >= p.total {
            None
        } else {
            let elapsed: nat = if now_ms >= start { (now_ms - start) as nat } else { 0 };
            let remaining_ms: nat = ((p.total - p.processed) as nat * elapsed) / p.processed as nat;
            let secs: nat = remaining_ms / 1000;
            Some(if secs <= u64::MAX { secs as u64 } else { u64::MAX })
        },
        _ => None,
    }
}

/// What the interactive dashboard shows; times are milliseconds on a clock
/// chosen by the caller.
#[derive(Debug, Clone)]
pub struct DashboardState {
    pub operation: String,
    pub account: String,
    pub profile: String,
    /// When the operation started, in milliseconds.
    pub started: u64,
    /// Latest update of each category, by dashboard row.
    pub progress: [Option<ProgressUpdate>; 4],
    /// When each category's first update arrived (milliseconds), by dashboard row.
    pub phase_started: [Option<u64>; 4],
    pub log: Vec<LogEntry>,
    pub done: bool,
}

/// Appends `entry`, then drops the oldest entries beyond `LOG_CAPACITY`.
fn push_bounded(log: &mut Vec<LogEntry>, entry: LogEntry)
    ensures
        final(log)@ == keep_last(old(log)@.push(entry), LOG_CAPACITY as nat),
{
    let ghost full = log@.push(entry);
    log.push(entry);
    while log.len() > LOG_CAPACITY
        invariant
            full.len() > LOG_CAPACITY ==> log@.len() >= LOG_CAPACITY,
            full.len() <= LOG_CAPACITY ==> log@ == full,
            full.len() >= log@.len(),
            log@ == full.subrange(full.len() - log@.len(), full.len() as int),
        decreases log@.len(),
    {
        log.remove(0);
    }
}

impl DashboardState {
    pub fn new(operation: &str, account: &str, profile: &str, now_ms: u64) -> (r: DashboardState)
        ensures
            r.operation@ == operation@,
            r.account@ == account@,
            r.profile@ == profile@,
            r.started == now_ms,
            forall|i: int| 0 <= i < 4 ==> r.progress@[i] is None && r.phase_started@[i] is None,
            r.log@.len() == 0,
            !r.done,
    {
        DashboardState {
            operation: String::from_str(operation),
            account: String::from_str(account),
            profile: String::from_str(profile),
            started: now_ms,
            progress: [None, None, None, None],
            phase_started: [None, None, None, None],
            log: Vec::new(),
            done: false,
        }
    }

    /// Folds one event into the state. A progress update replaces its
    /// category's row and starts that row's clock the first time; a log
    /// entry is appended, keeping the last `LOG_CAPACITY`; `Done` marks the
    /// run finished.
    pub fn apply(&mut self, event: UiEvent, now_ms: u64)
        ensures
            final(self).operation == old(self).operation,
            final(self).account == old(self).account,
            final(self).profile == old(self).profile,
            final(self).started == old(self).started,
            match event {
                UiEvent::Progress(p) => {
                    let i = spec_slot(p.data_type) as int;
                    &&& final(self).progress@ == old(self).progress@.update(i, Some(p))
                    &&& final(self).phase_started@ == if old(self).phase_started@[i] is None {
                        old(self).phase_started@.update(i, Some(now_ms))
                    } else {
                        old(self).phase_started@
                    }
                    &&& final(self).log == old(self).log
                    &&& final(self).done == old(self).done
                },
                UiEvent::Log(e) => {
                    &&& final(self).log@ == keep_last(old(self).log@.push(e), LOG_CAPACITY as nat)
                    &&& final(self).progress == old(self).progress
                    &&& final(self).phase_started == old(self).phase_started
                    &&& final(self).done == old(self).done
                },
                UiEvent::Done => {
                    &&& final(self).done
                    &&& final(self).log == old(self).log
                    &&& final(self).progress == old(self).progress
                    &&& final(self).phase_started == old(self).phase_started
                },
            },
    {
        match event {
            UiEvent::Progress(p) => {
                let i = p.data_type.slot();
                if self.phase_started[i].is_none() {
                    self.phase_started[i] = Some(now_ms);
                }
                self.progress[i] = Some(p);
            },
            UiEvent::Log(entry) => {
                push_bounded(&mut self.log, entry);
            },
            UiEvent::Done => {
                self.done = true;
            },
        }
    }

    /// Estimated seconds left in the category of row `idx`; `None` until
    /// there is a rate to go by, and once the category is complete.
    pub fn eta(&self, idx: usize, now_ms: u64) -> (r: Option<u64>)
        requires
            idx < CATEGORY_COUNT,
        ensures
            r == eta_spec(self.progress@[idx as int], self.phase_started@[idx as int], now_ms),
    {
        let p = match self.progress[idx] {
            Some(p) => p,
            None => return None,
        };
        let start = match self.phase_started[idx] {
            Some(s) => s,
            None => return None,
        };
        if p.total == 0 || p.processed == 0 || p.processed >= p.total {
            return None;
        }
        let elapsed: u64 = if now_ms >= start { now_ms - start } else { 0 };
        let left: u128 = (p.total - p.processed) as u128;
        proof {
            assert(left * (elapsed as u128) <= u128::MAX) by (nonlinear_arith)
                requires
                    left <= u64::MAX,
                    elapsed <= u64::MAX,
            ;
        }
        let remaining_ms: u128 = left * (elapsed as u128) / (p.processed as u128);
        let secs: u128 = remaining_ms / 1000;
        Some(if secs <= u64::MAX as u128 { secs as u64 } else { u64::MAX })
    }
}


/// Which part of the log is on screen: the first entry shown and the scroll
/// offset (entries up from the bottom) after clamping.
#[derive(Debug, Clone, Copy, PartialEq, Eq, Structural)]
pub struct LogWindow {
    pub start: usize,
    pub offset: usize,
}

/// With `len` entries and room for `visible`, a scroll `offset` above the
/// newest entries is clamped to the top, and the window starts that many
/// entries above the last screenful.
pub open spec fn log_window_spec(len: usize, visible: usize, offset: usize) -> LogWindow {
    let max_scroll: int = if len >= visible { len - visible } else { 0 };
    let clamped: int = if offset <= max_scroll { offset as int } else { max_scroll };
    LogWindow { start: (max_scroll - clamped) as usize, offset: clamped as usize }
}

pub fn log_window(len: usize, visible: usize, offset: usize) -> (r: LogWindow)
    ensures
        r == log_window_spec(len, visible, offset),
        r.start <= len,
{
    let max_scroll = if len >= visible { len - visible } else { 0 };
    let clamped = if offset <= max_scroll { offset } else { max_scroll };
    LogWindow { start: max_scroll - clamped, offset: clamped }
}

/// A key the dashboard reacts to.
#[derive(Debug, Clone, Copy, PartialEq, Eq, Structural)]
pub enum DashboardKey {
    Quit,
    LineUp,
    LineDown,
    PageUp,
    PageDown,
    Newest,
    Oldest,
}

/// Lines a page key scrolls.
pub const PAGE_LINES: usize = 10;

pub open spec fn sat_add(a: usize, b: usize) -> usize {
    if a + b <= usize::MAX { (a + b) as usize } else { usize::MAX }
}

pub open spec fn sat_sub(a: usize, b: usize) -> usize {
    if a >= b { (a - b) as usize } else { 0 }
}

/// The scroll offset after `key`; `None` when the key quits.
pub open spec fn scroll_spec(key: DashboardKey, offset: usize, log_len: usize) -> Option<usize> {
    match key {
        DashboardKey::Quit => None,
        DashboardKey::LineUp => Some(sat_add(offset, 1)),
        DashboardKey::LineDown => Some(sat_sub(offset, 1)),
        DashboardKey::PageUp => Some(sat_add(offset, PAGE_LINES)),
        DashboardKey::PageDown => Some(sat_sub(offset, PAGE_LINES)),
        DashboardKey::Newest => Some(0),
        DashboardKey::Oldest => Some(log_len),
    }
}

pub fn scroll_after(key: DashboardKey, offset: usize, log_len: usize) -> (r: Option<usize>)
    ensures
        r == scroll_spec(key, offset, log_len),
{
    match key {
        DashboardKey::Quit => None,
        DashboardKey::LineUp => Some(if offset < usize::MAX { offset + 1 } else { usize::MAX }),
        DashboardKey::LineDown => Some(if offset >= 1 { offset - 1 } else { 0 }),
        DashboardKey::PageUp => Some(if offset <= usize::MAX - PAGE_LINES { offset + PAGE_LINES } else { usize::MAX }),
        DashboardKey::PageDown => Some(if offset >= PAGE_LINES { offset - PAGE_LINES } else { 0 }),
        DashboardKey::Newest => Some(0),
        DashboardKey::Oldest => Some(log_len),
    }
}

/// The text on a category's gauge.
pub open spec fn gauge_text(p: Option<ProgressUpdate>, eta: Option<u64>) -> Seq<char> {
    match p {
        None => "waiting..."@,
        Some(p) => if p.total > 0 {
            decimal(p.processed as nat) + "/"@ + decimal(p.total as nat) + " ("@ + decimal(p.added as nat)
                + " added, "@ + decimal((p.skipped + p.already_present) as nat) + " skip, "@ + decimal(
                p.failed as nat,
            ) + " fail)"@ + eta_text(eta)
        } else if p.processed > 0 {
            decimal(p.processed as nat) + " so far"@
        } else {
            "0 items"@
        },
    }
}

fn usize_decimal(n: usize) -> (r: String)
    ensures
        r@ == decimal(n as nat),
{
    decimal_string(n as u64)
}

pub fn gauge_label(p: Option<ProgressUpdate>, eta: Option<u64>) -> (r: String)
    requires
        p matches Some(u) ==> u.skipped + u.already_present <= usize::MAX,
    ensures
        r@ == gauge_text(p, eta),
{
    match p {
        None => String::from_str("waiting..."),
        Some(p) => {
            if p.total > 0 {
                let mut out = usize_decimal(p.processed);
                out.append("/");
                out.append(usize_decimal(p.total).as_str());
                out.append(" (");
                out.append(usize_decimal(p.added).as_str());
                out.append(" added, ");
                out.append(usize_decimal(p.skipped + p.already_present).as_str());
                out.append(" skip, ");
                out.append(usize_decimal(p.failed).as_str());
                out.append(" fail)");
                out.append(format_eta(eta).as_str());
                out
            } else if p.processed > 0 {
                let mut out = usize_decimal(p.processed);
                out.append(" so far");
                out
            } else {
                String::from_str("0 items")
            }
        },
    }
}

/// Added, already there (present or skipped) and failed, over the rows
/// that have reported.
#[derive(Debug, Clone, Copy, PartialEq, Eq, Structural)]
pub struct RowTotals {
    pub added: u128,
    pub already_there: u128,
    pub failed: u128,
}

pub open spec fn row_added(p: Option<ProgressUpdate>) -> nat {
    match p { Some(u) => u.added as nat, None => 0 }
}

pub open spec fn row_already(p: Option<ProgressUpdate>) -> nat {
    match p { Some(u) => (u.already_present + u.skipped) as nat, None => 0 }
}

pub open spec fn row_failed(p: Option<ProgressUpdate>) -> nat {
    match p { Some(u) => u.failed as nat, None => 0 }
}

impl DashboardState {
    /// Totals over the four rows, for the stats bar and the closing summary.
    pub fn totals(&self) -> (r: RowTotals)
        ensures
            r.added == row_added(self.progress@[0]) + row_added(self.progress@[1]) + row_added(self.progress@[2])
                + row_added(self.progress@[3]),
            r.already_there == row_already(self.progress@[0]) + row_already(self.progress@[1]) + row_already(
                self.progress@[2],
            ) + row_already(self.progress@[3]),
            r.failed == row_failed(self.progress@[0]) + row_failed(self.progress@[1]) + row_failed(self.progress@[2])
                + row_failed(self.progress@[3]),
    {
        let mut t = RowTotals { added: 0, already_there: 0, failed: 0 };
        let mut i: usize = 0;
        while i < CATEGORY_COUNT
            invariant
                i <= CATEGORY_COUNT,
                self.progress@.len() == CATEGORY_COUNT,
                t.added == partial_added(self.progress@, i as nat),
                t.already_there == partial_already(self.progress@, i as nat),
                t.failed == partial_failed(self.progress@, i as nat),
                t.added <= i * 0x1_0000_0000_0000_0000,
                t.already_there <= i * 0x2_0000_0000_0000_0000,
                t.failed <= i * 0x1_0000_0000_0000_0000,
            decreases CATEGORY_COUNT - i,
        {
            match self.progress[i] {
                Some(u) => {
                    t.added = t.added + u.added as u128;
                    t.already_there = t.already_there + u.already_present as u128 + u.skipped as u128;
                    t.failed = t.failed + u.failed as u128;
                },
                None => {},
            }
            i = i + 1;
        }
        proof {
            reveal_with_fuel(partial_added, 5);
            reveal_with_fuel(partial_already, 5);
            reveal_with_fuel(partial_failed, 5);
        }
        t
    }
}

pub open spec fn partial_added(rows: Seq<Option<ProgressUpdate>>, n: nat) -> nat
    decreases n,
{
    if n == 0 { 0 } else { partial_added(rows, (n - 1) as nat) + row_added(rows[n - 1]) }
}

pub open spec fn partial_already(rows: Seq<Option<ProgressUpdate>>, n: nat) -> nat
    decreases n,
{
    if n == 0 { 0 } else { partial_already(rows, (n - 1) as nat) + row_already(rows[n - 1]) }
}

pub open spec fn partial_failed(rows: Seq<Option<ProgressUpdate>>, n: nat) -> nat
    decreases n,
{
    if n == 0 { 0 } else { partial_failed(rows, (n - 1) as nat) + row_failed(rows[n - 1]) }
}

} // verus!
