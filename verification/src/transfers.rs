//! Files on their way, and how their sizes and their progress are written.

use vstd::prelude::*;
use vstd::string::*;

use crate::style::Tone;
use crate::text::{decimal, decimal_of, digit, digit_char, owned};

verus! {

// Sizes.

/// The nearest whole number to `n / unit`, and of two equally near the even one.
pub open spec fn nearest(n: nat, unit: nat) -> nat {
    if 2 * (n % unit) < unit || (2 * (n % unit) == unit && n / unit % 2 == 0) {
        n / unit
    } else {
        n / unit + 1
    }
}

/// How far apart the numbers with fifty-three binary digits lie near this one.
pub open spec fn spacing(n: u64) -> nat {
    if n < 0x20_0000_0000_0000 {
        1
    } else if n < 0x40_0000_0000_0000 {
        2
    } else if n < 0x80_0000_0000_0000 {
        4
    } else if n < 0x100_0000_0000_0000 {
        8
    } else if n < 0x200_0000_0000_0000 {
        16
    } else if n < 0x400_0000_0000_0000 {
        32
    } else if n < 0x800_0000_0000_0000 {
        64
    } else if n < 0x1000_0000_0000_0000 {
        128
    } else if n < 0x2000_0000_0000_0000 {
        256
    } else if n < 0x4000_0000_0000_0000 {
        512
    } else if n < 0x8000_0000_0000_0000 {
        1024
    } else {
        2048
    }
}

/// A size held to fifty-three binary digits.
pub open spec fn held(bytes: u64) -> nat {
    nearest(bytes as nat, spacing(bytes)) * spacing(bytes)
}

/// The unit that a size is written in: bytes, or the largest that does not leave
/// it below one.
pub open spec fn unit_of(size: nat) -> int {
    if size < 0x400 {
        0
    } else if size < 0x10_0000 {
        1
    } else if size < 0x4000_0000 {
        2
    } else if size < 0x100_0000_0000 {
        3
    } else {
        4
    }
}

/// How many bytes a unit has.
pub open spec fn unit_size(unit: int) -> nat {
    if unit <= 0 {
        1
    } else if unit == 1 {
        0x400
    } else if unit == 2 {
        0x10_0000
    } else if unit == 3 {
        0x4000_0000
    } else {
        0x100_0000_0000
    }
}

/// What a unit is called.
pub open spec fn unit_name(unit: int) -> Seq<char> {
    if unit == 0 {
        "B"@
    } else if unit == 1 {
        "KB"@
    } else if unit == 2 {
        "MB"@
    } else if unit == 3 {
        "GB"@
    } else {
        "TB"@
    }
}

/// A number of tenths with one digit after the point.
pub open spec fn tenths_text(tenths: nat) -> Seq<char> {
    decimal(tenths / 10) + "."@ + seq![digit((tenths % 10) as int)]
}

/// A size as people read it: whole bytes, or tenths of the unit that fits it.
pub open spec fn size_text(bytes: u64) -> Seq<char> {
    let unit = unit_of(held(bytes));
    if unit == 0 {
        decimal(bytes as nat) + " B"@
    } else {
        tenths_text(nearest(held(bytes) * 10, unit_size(unit))) + " "@ + unit_name(unit)
    }
}

fn nearest_whole(n: u128, unit: u128) -> (r: u128)
    requires
        0 < unit <= 0x100_0000_0000,
        n <= 0x100_0000_0000_0000_0000,
    ensures
        r == nearest(n as nat, unit as nat),
        r <= n + 1,
{
    let rest: u128 = n % unit;
    let whole: u128 = n / unit;
    assert(whole <= n) by (nonlinear_arith)
        requires
            whole == n / unit,
            unit > 0,
    ;
    if 2 * rest < unit || (2 * rest == unit && whole % 2 == 0) {
        whole
    } else {
        whole + 1
    }
}

fn spacing_near(n: u64) -> (r: u128)
    ensures
        r == spacing(n),
        1 <= r <= 2048,
{
    if n < 0x20_0000_0000_0000 {
        1
    } else if n < 0x40_0000_0000_0000 {
        2
    } else if n < 0x80_0000_0000_0000 {
        4
    } else if n < 0x100_0000_0000_0000 {
        8
    } else if n < 0x200_0000_0000_0000 {
        16
    } else if n < 0x400_0000_0000_0000 {
        32
    } else if n < 0x800_0000_0000_0000 {
        64
    } else if n < 0x1000_0000_0000_0000 {
        128
    } else if n < 0x2000_0000_0000_0000 {
        256
    } else if n < 0x4000_0000_0000_0000 {
        512
    } else if n < 0x8000_0000_0000_0000 {
        1024
    } else {
        2048
    }
}

fn held_size(bytes: u64) -> (r: u128)
    ensures
        r == held(bytes),
        r <= bytes + 2048,
        bytes < 0x400 ==> r == bytes,
{
    let step: u128 = spacing_near(bytes);
    let count: u128 = nearest_whole(bytes as u128, step);
    proof {
        let n = bytes as nat;
        let s = step as nat;
        assert(count * s <= n + s) by (nonlinear_arith)
            requires
                count == n / s || count == n / s + 1,
                s > 0,
        ;
        assert(count * s <= 0x1_0000_0000_0000_0800);
        assert(s == 1 ==> n % s == 0 && n / s == n);
    }
    count * step
}

fn unit_index(size: u128) -> (r: u8)
    ensures
        r == unit_of(size as nat),
        r <= 4,
{
    if size < 0x400 {
        0
    } else if size < 0x10_0000 {
        1
    } else if size < 0x4000_0000 {
        2
    } else if size < 0x100_0000_0000 {
        3
    } else {
        4
    }
}

fn unit_bytes(unit: u8) -> (r: u128)
    ensures
        r == unit_size(unit as int),
        1 <= r <= 0x100_0000_0000,
        unit >= 1 ==> r >= 0x400,
{
    if unit == 0 {
        1
    } else if unit == 1 {
        0x400
    } else if unit == 2 {
        0x10_0000
    } else if unit == 3 {
        0x4000_0000
    } else {
        0x100_0000_0000
    }
}

fn unit_label(unit: u8) -> (r: &'static str)
    ensures
        r@ == unit_name(unit as int),
{
    if unit == 0 {
        "B"
    } else if unit == 1 {
        "KB"
    } else if unit == 2 {
        "MB"
    } else if unit == 3 {
        "GB"
    } else {
        "TB"
    }
}

/// A size as people read it.
pub fn human_size(bytes: u64) -> (r: String)
    ensures
        r@ == size_text(bytes),
{
    let size: u128 = held_size(bytes);
    let unit: u8 = unit_index(size);
    if unit == 0 {
        let mut out: String = decimal_of(bytes);
        out.append(" B");
        out
    } else {
        let of_unit: u128 = unit_bytes(unit);
        let tenths: u128 = nearest_whole(size * 10, of_unit);
        proof {
            let n = (size * 10) as nat;
            let u = of_unit as nat;
            assert(n / u <= n / 0x400) by (nonlinear_arith)
                requires
                    u >= 0x400,
            ;
            assert(n <= 0xA_0000_0000_0000_5000);
            assert(tenths <= u64::MAX);
        }
        let tenths: u64 = tenths as u64;
        let mut out: String = decimal_of(tenths / 10);
        out.append(".");
        out.push(digit_char((tenths % 10) as u8));
        out.append(" ");
        out.append(unit_label(unit));
        assert(out@ =~= tenths_text(tenths as nat) + " "@ + unit_name(unit as int));
        out
    }
}

// Transfers.

/// Which way a file goes.
#[derive(Debug, Clone, Copy, PartialEq, Eq, Structural)]
pub enum TransferDirection {
    Upload,
    Download,
}

/// How far a file has come.
#[derive(Debug, Clone, Copy, PartialEq, Eq, Structural)]
pub enum TransferStatus {
    Pending,
    Active,
    Done,
    Failed,
    Cancelled,
}

impl TransferStatus {
    /// Whether it waits or runs.
    pub open spec fn running(self) -> bool {
        self == TransferStatus::Pending || self == TransferStatus::Active
    }
}

/// A file on its way.
#[derive(Debug, Clone)]
pub struct TransferItem {
    pub id: u64,
    pub name: String,
    pub dest: String,
    pub direction: TransferDirection,
    pub status: TransferStatus,
    pub done: u64,
    pub total: u64,
    /// Bytes per second.
    pub bps: u64,
    pub error: Option<String>,
}

/// How much of a transfer is done, in percent: all of it once it is done, even of
/// an empty file.
pub open spec fn percent(item: &TransferItem) -> int {
    if item.status == TransferStatus::Done {
        100
    } else if item.total > 0 {
        let hundredfold = item.done * 100;
        (if hundredfold > u64::MAX {
            u64::MAX as int
        } else {
            hundredfold
        }) / item.total as int
    } else {
        0
    }
}

/// What the row of a transfer shows.
pub struct TransferRow {
    /// What the button that stops it sends.
    pub id: u64,
    pub name: String,
    pub arrow: &'static str,
    pub label: &'static str,
    pub label_tone: TransferTone,
    pub percent: u64,
    pub size: String,
    pub speed: String,
    /// The reason of a failure where there is one, or else where the file goes.
    pub detail: String,
    pub detail_tone: Tone,
    /// Whether it can still be stopped.
    pub stoppable: bool,
}

/// The colour of a transfer's state.
#[derive(Debug, Clone, Copy, PartialEq, Eq, Structural)]
pub enum TransferTone {
    Token(Tone),
    Green,
}

/// What a state is called.
pub open spec fn status_label(status: TransferStatus) -> Seq<char> {
    match status {
        TransferStatus::Pending => "排队"@,
        TransferStatus::Active => "传输中"@,
        TransferStatus::Done => "完成"@,
        TransferStatus::Failed => "失败"@,
        TransferStatus::Cancelled => "已停止"@,
    }
}

/// The colour of a state.
pub open spec fn status_tone(status: TransferStatus) -> TransferTone {
    match status {
        TransferStatus::Pending => TransferTone::Token(Tone::Muted),
        TransferStatus::Active => TransferTone::Token(Tone::Accent),
        TransferStatus::Done => TransferTone::Green,
        TransferStatus::Failed => TransferTone::Token(Tone::Danger),
        TransferStatus::Cancelled => TransferTone::Token(Tone::Muted),
    }
}

/// The row of a transfer.
pub fn sftp_transfer_row(item: &TransferItem) -> (r: TransferRow)
    ensures
        r.id == item.id,
        r.name@ == item.name@,
        r.arrow@ == match item.direction {
            TransferDirection::Upload => "↑"@,
            TransferDirection::Download => "↓"@,
        },
        r.label@ == status_label(item.status),
        r.label_tone == status_tone(item.status),
        r.percent == percent(item),
        r.size@ == size_text(item.total),
        r.speed@ == if item.bps > 0 {
            size_text(item.bps) + "/s"@
        } else {
            "—"@
        },
        item.status == TransferStatus::Failed && item.error is Some ==> r.detail@ == item.error->0@
            && r.detail_tone == Tone::Danger,
        !(item.status == TransferStatus::Failed && item.error is Some) ==> r.detail@ == item.dest@
            && r.detail_tone == Tone::Muted,
        r.stoppable == item.status.running(),
{
    let arrow: &'static str = match item.direction {
        TransferDirection::Upload => "↑",
        TransferDirection::Download => "↓",
    };
    let (label, label_tone): (&'static str, TransferTone) = match item.status {
        TransferStatus::Pending => ("排队", TransferTone::Token(Tone::Muted)),
        TransferStatus::Active => ("传输中", TransferTone::Token(Tone::Accent)),
        TransferStatus::Done => ("完成", TransferTone::Green),
        TransferStatus::Failed => ("失败", TransferTone::Token(Tone::Danger)),
        TransferStatus::Cancelled => ("已停止", TransferTone::Token(Tone::Muted)),
    };
    let percent: u64 = if item.status == TransferStatus::Done {
        100
    } else if item.total > 0 {
        let hundredfold: u64 = if item.done > u64::MAX / 100 {
            u64::MAX
        } else {
            item.done * 100
        };
        hundredfold / item.total
    } else {
        0
    };
    let speed: String = if item.bps > 0 {
        let mut text: String = human_size(item.bps);
        text.append("/s");
        text
    } else {
        owned("—")
    };
    let (detail, detail_tone): (String, Tone) = match &item.error {
        Some(reason) => if item.status == TransferStatus::Failed {
            (owned(reason.as_str()), Tone::Danger)
        } else {
            (owned(item.dest.as_str()), Tone::Muted)
        },
        None => (owned(item.dest.as_str()), Tone::Muted),
    };
    TransferRow {
        id: item.id,
        name: owned(item.name.as_str()),
        arrow,
        label,
        label_tone,
        percent,
        size: human_size(item.total),
        speed,
        detail,
        detail_tone,
        stoppable: item.status == TransferStatus::Pending || item.status == TransferStatus::Active,
    }
}

/// How many transfers are in a state.
pub open spec fn count_in(items: Seq<TransferItem>, status: TransferStatus) -> nat {
    items.filter(|item: TransferItem| item.status == status).len()
}

/// What stands above the list of transfers.
pub struct TransferQueue {
    pub summary: String,
    /// Whether there is anything to clear away.
    pub can_clear: bool,
    /// Whether there is anything to stop.
    pub can_stop_all: bool,
    /// What stands in place of the list where it is empty.
    pub empty: bool,
    /// The positions of the transfers, the newest first.
    pub order: Vec<usize>,
}

/// How many transfers wait or run.
pub open spec fn count_running(items: Seq<TransferItem>) -> nat {
    items.filter(|item: TransferItem| item.status.running()).len()
}

/// What the heading of the list says.
pub open spec fn queue_summary(items: Seq<TransferItem>) -> Seq<char> {
    "完成 "@ + decimal(count_in(items, TransferStatus::Done)) + " · 失败 "@ + decimal(
        count_in(items, TransferStatus::Failed),
    ) + " · 停止 "@ + decimal(count_in(items, TransferStatus::Cancelled)) + " · 进行 "@ + decimal(
        count_running(items),
    )
}

proof fn lemma_filter_push<T>(s: Seq<T>, x: T, p: spec_fn(T) -> bool)
    ensures
        s.push(x).filter(p).len() == s.filter(p).len() + if p(x) {
            1nat
        } else {
            0
        },
        s.filter(p).len() <= s.len(),
    decreases s.len(),
{
    reveal(Seq::filter);
    assert(s.push(x).drop_last() =~= s);
    if s.len() > 0 {
        lemma_filter_push(s.drop_last(), s.last(), p);
        assert(s.drop_last().push(s.last()) =~= s);
    }
}

/// The list of transfers.
pub fn sftp_transfer_queue(items: &Vec<TransferItem>) -> (r: TransferQueue)
    ensures
        r.summary@ == queue_summary(items@),
        r.can_clear == (count_in(items@, TransferStatus::Done) + count_in(
            items@,
            TransferStatus::Failed,
        ) + count_in(items@, TransferStatus::Cancelled) > 0),
        r.can_stop_all == (count_running(items@) > 0),
        r.empty == (items@.len() == 0),
        r.order@ == Seq::new(items@.len(), |i: int| (items@.len() - 1 - i) as usize),
{
    let mut done: usize = 0;
    let mut failed: usize = 0;
    let mut cancelled: usize = 0;
    let mut running: usize = 0;
    let mut order: Vec<usize> = Vec::new();
    let mut i: usize = 0;
    proof {
        reveal(Seq::filter);
    }
    let count: usize = items.len();
    assert(items@.take(0).filter(|item: TransferItem| item.status.running()).len() == 0);
    while i < count
        invariant
            i <= count,
            count == items.len(),
            done <= i,
            failed <= i,
            cancelled <= i,
            running <= i,
            done == count_in(items@.take(i as int), TransferStatus::Done),
            failed == count_in(items@.take(i as int), TransferStatus::Failed),
            cancelled == count_in(items@.take(i as int), TransferStatus::Cancelled),
            running == count_running(items@.take(i as int)),
            order@ == Seq::new(i as nat, |k: int| (count - 1 - k) as usize),
        decreases count - i,
    {
        proof {
            let before = items@.take(i as int);
            let x = items@[i as int];
            assert(items@.take(i + 1) =~= before.push(x));
            lemma_filter_push(before, x, |t: TransferItem| t.status == TransferStatus::Done);
            lemma_filter_push(before, x, |t: TransferItem| t.status == TransferStatus::Failed);
            lemma_filter_push(before, x, |t: TransferItem| t.status == TransferStatus::Cancelled);
            lemma_filter_push(before, x, |t: TransferItem| t.status.running());
        }
        match items[i].status {
            TransferStatus::Done => {
                done += 1;
            },
            TransferStatus::Failed => {
                failed += 1;
            },
            TransferStatus::Cancelled => {
                cancelled += 1;
            },
            TransferStatus::Pending => {
                running += 1;
            },
            TransferStatus::Active => {
                running += 1;
            },
        }
        order.push(count - 1 - i);
        assert(order@ =~= Seq::new((i + 1) as nat, |k: int| (count - 1 - k) as usize));
        i += 1;
    }
    assert(items@.take(count as int) =~= items@);
    let mut summary: String = owned("完成 ");
    summary.append(decimal_of(done as u64).as_str());
    summary.append(" · 失败 ");
    summary.append(decimal_of(failed as u64).as_str());
    summary.append(" · 停止 ");
    summary.append(decimal_of(cancelled as u64).as_str());
    summary.append(" · 进行 ");
    summary.append(decimal_of(running as u64).as_str());
    TransferQueue {
        summary,
        can_clear: done > 0 || failed > 0 || cancelled > 0,
        can_stop_all: running > 0,
        empty: count == 0,
        order,
    }
}

/// A transfer that is done is shown as complete, whatever its size.
pub proof fn law_a_finished_transfer_is_complete(item: &TransferItem)
    requires
        item.status == TransferStatus::Done,
    ensures
        percent(item) == 100,
{
}

/// Rounding gives a whole number that is at most half a unit away, and of two that are the
/// even one.
pub proof fn law_rounding_goes_to_the_nearest(n: nat, unit: nat)
    requires
        unit > 0,
    ensures
        2 * (nearest(n, unit) * unit - n) <= unit,
        2 * (n - nearest(n, unit) * unit) <= unit,
        2 * (nearest(n, unit) * unit - n) == unit || 2 * (n - nearest(n, unit) * unit) == unit
            ==> nearest(n, unit) % 2 == 0,
{
    let (q, r) = (n / unit, n % unit);
    vstd::arithmetic::div_mod::lemma_fundamental_div_mod(n as int, unit as int);
    assert((q + 1) * unit == q * unit + unit) by (nonlinear_arith);
    assert(unit * q == q * unit) by (nonlinear_arith);
}

/// The units go up by 1024 from the byte on, and a size is written in the one that leaves
/// it below 1024, or in the last of them.
pub proof fn law_a_size_is_written_in_the_unit_that_fits(size: nat)
    ensures
        ({
            let unit = unit_of(size);
            &&& 0 <= unit <= 4
            &&& unit > 0 ==> unit_size(unit) <= size
            &&& unit < 4 ==> size < 1024 * unit_size(unit)
            &&& unit_size(0) == 1
            &&& unit_size(1) == 1024
            &&& unit_size(2) == 1024 * unit_size(1)
            &&& unit_size(3) == 1024 * unit_size(2)
            &&& unit_size(4) == 1024 * unit_size(3)
            &&& unit_name(0) == "B"@
            &&& unit_name(1) == "KB"@
            &&& unit_name(2) == "MB"@
            &&& unit_name(3) == "GB"@
            &&& unit_name(4) == "TB"@
        }),
{
}

/// A size below 9007199254740992 bytes is taken as it is, and a greater one to fifty-three
/// binary digits, the nearest there are.
pub proof fn law_sizes_are_held_exactly_as_long_as_they_can_be(bytes: u64)
    ensures
        bytes <= 9007199254740992 ==> held(bytes) == bytes,
        bytes >= 9007199254740992 ==> spacing(bytes) * 4503599627370496 <= bytes <= spacing(bytes)
            * 9007199254740992,
        2 * (held(bytes) - bytes) <= spacing(bytes),
        2 * (bytes - held(bytes)) <= spacing(bytes),
{
    law_rounding_goes_to_the_nearest(bytes as nat, spacing(bytes));
    if bytes < 9007199254740992 {
        assert(bytes as nat % 1nat == 0 && bytes as nat / 1nat == bytes);
    }
}

/// Below 1024 bytes a size is written out in bytes, and from there on as a number with one
/// digit after the point, at most a twentieth of the unit away from the size.
pub proof fn law_a_size_is_written_to_a_tenth(bytes: u64)
    ensures
        bytes < 1024 ==> size_text(bytes) == decimal(bytes as nat) + " B"@,
        1024 <= bytes < 9007199254740992 ==> {
            let unit = unit_of(bytes as nat);
            let tenths = nearest((bytes * 10) as nat, unit_size(unit));
            &&& size_text(bytes) == decimal(tenths / 10) + "."@ + decimal(tenths % 10) + " "@
                + unit_name(unit)
            &&& 2 * (tenths * unit_size(unit) - 10 * bytes) <= unit_size(unit)
            &&& 2 * (10 * bytes - tenths * unit_size(unit)) <= unit_size(unit)
        },
{
    law_sizes_are_held_exactly_as_long_as_they_can_be(bytes);
    if 1024 <= bytes < 9007199254740992 {
        let unit = unit_of(bytes as nat);
        let tenths = nearest((bytes * 10) as nat, unit_size(unit));
        law_rounding_goes_to_the_nearest((bytes * 10) as nat, unit_size(unit));
        assert(seq![digit((tenths % 10) as int)] =~= decimal(tenths % 10));
    }
}

/// The percentage is how many of a hundred parts are done, rounded down: nothing where the
/// size is not known yet, and a hundred once it is done.
pub proof fn law_the_percentage_is_rounded_down(item: &TransferItem)
    requires
        item.done * 100 <= u64::MAX,
    ensures
        item.status == TransferStatus::Done ==> percent(item) == 100,
        item.status != TransferStatus::Done && item.total == 0 ==> percent(item) == 0,
        item.status != TransferStatus::Done && item.total > 0 ==> percent(item) * item.total
            <= item.done * 100 < (percent(item) + 1) * item.total,
{
    if item.status != TransferStatus::Done && item.total > 0 {
        let (n, d) = (item.done * 100, item.total as int);
        vstd::arithmetic::div_mod::lemma_fundamental_div_mod(n, d);
        assert((n / d + 1) * d == n / d * d + d) by (nonlinear_arith);
        assert(d * (n / d) == n / d * d) by (nonlinear_arith);
    }
}

/// Every transfer is counted once, as waiting or running or in one of the three ways in
/// which it can have ended.
pub proof fn law_every_transfer_is_counted_once(items: Seq<TransferItem>)
    ensures
        count_running(items) + count_in(items, TransferStatus::Done) + count_in(
            items,
            TransferStatus::Failed,
        ) + count_in(items, TransferStatus::Cancelled) == items.len(),
        count_running(items) == count_in(items, TransferStatus::Pending) + count_in(
            items,
            TransferStatus::Active,
        ),
    decreases items.len(),
{
    reveal(Seq::filter);
    if items.len() > 0 {
        let (head, x) = (items.drop_last(), items.last());
        law_every_transfer_is_counted_once(head);
        assert(head.push(x) =~= items);
        lemma_filter_push(head, x, |t: TransferItem| t.status.running());
        lemma_filter_push(head, x, |t: TransferItem| t.status == TransferStatus::Done);
        lemma_filter_push(head, x, |t: TransferItem| t.status == TransferStatus::Failed);
        lemma_filter_push(head, x, |t: TransferItem| t.status == TransferStatus::Cancelled);
        lemma_filter_push(head, x, |t: TransferItem| t.status == TransferStatus::Pending);
        lemma_filter_push(head, x, |t: TransferItem| t.status == TransferStatus::Active);
    }
}

} // verus!
