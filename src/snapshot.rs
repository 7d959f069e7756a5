//! Snapshots: timestamped copies of the table, kept in a bounded queue
//! that evicts the oldest file once it is full.

use vstd::prelude::*;
use vstd::string::StringExecFns;
use chrono::{Datelike, Timelike};

verus! {

/// Retention used when no bound is configured.
pub const DEF_SNAPSHOT_COUNT: usize = 12;

/// The queue after `add`: the head leaves when a rotating queue is full.
pub open spec fn add_step(q: Seq<Seq<char>>, maxlen: nat, dontpop: bool, item: Seq<char>) -> Seq<
    Seq<char>,
> {
    match add_evicts(q, maxlen, dontpop) {
        Some(_) => q.drop_first().push(item),
        None => q.push(item),
    }
}

/// The name that `add` hands back: the head of a full rotating queue.
pub open spec fn add_evicts(q: Seq<Seq<char>>, maxlen: nat, dontpop: bool) -> Option<Seq<char>> {
    if !dontpop && q.len() == maxlen && q.len() > 0 {
        Some(q[0])
    } else {
        None
    }
}

/// What a rotating queue of bound `m` holds after adding `names` in order
/// to an empty one.
pub open spec fn kept(m: nat, names: Seq<Seq<char>>) -> Seq<Seq<char>>
    decreases names.len(),
{
    if names.len() == 0 {
        Seq::empty()
    } else {
        add_step(kept(m, names.drop_last()), m, false, names.last())
    }
}

/// The names a rotating queue of bound `m` hands back, in order, while
/// `names` are added to an empty one.
pub open spec fn evicted(m: nat, names: Seq<Seq<char>>) -> Seq<Seq<char>>
    decreases names.len(),
{
    if names.len() == 0 {
        Seq::empty()
    } else {
        let prev = evicted(m, names.drop_last());
        match add_evicts(kept(m, names.drop_last()), m, false) {
            Some(x) => prev.push(x),
            None => prev,
        }
    }
}

/// The number of the oldest names that a queue of bound `m` has evicted
/// after `n` additions.
pub open spec fn n_evicted(m: nat, n: nat) -> nat {
    if n > m {
        (n - m) as nat
    } else {
        0
    }
}

/// With bound `m > 0`, after `n` additions the queue holds the last
/// `min(n, m)` names in the order they came, and the oldest `n - m` names
/// were handed back, oldest first, each exactly once.
pub proof fn lemma_rotation(m: nat, names: Seq<Seq<char>>)
    requires
        m > 0,
    ensures
        kept(m, names) == names.subrange(n_evicted(m, names.len()) as int, names.len() as int),
        evicted(m, names) == names.take(n_evicted(m, names.len()) as int),
    decreases names.len(),
{
    let n = names.len();
    if n > 0 {
        let t = names.drop_last();
        lemma_rotation(m, t);
        let e = n_evicted(m, (n - 1) as nat);
        assert(kept(m, t) == t.subrange(e as int, n - 1));
        if n - 1 < m {
            assert(kept(m, names) =~= names.subrange(0, n as int));
            assert(evicted(m, names) =~= names.take(0));
        } else {
            assert(kept(m, t)[0] == names[e as int]);
            assert(kept(m, names) =~= names.subrange(e as int + 1, n as int));
            assert(evicted(m, names) =~= names.take(e as int + 1));
        }
    }
}

/// A FIFO of file names, bounded in rotating mode.
pub struct Queue {
    queue: Vec<String>,
    maxlen: usize,
    dontpop: bool,
}

impl View for Queue {
    type V = Seq<Seq<char>>;

    closed spec fn view(&self) -> Seq<Seq<char>> {
        self.queue@.map_values(|s: String| s@)
    }
}

impl Queue {
    /// The bound of a rotating queue (a capacity hint in unbounded mode).
    pub closed spec fn max(&self) -> nat {
        self.maxlen as nat
    }

    /// Whether the queue never evicts.
    pub closed spec fn unbounded(&self) -> bool {
        self.dontpop
    }

    /// A rotating queue with a positive bound never holds more than the bound.
    #[verifier::type_invariant]
    spec fn inv(&self) -> bool {
        !self.dontpop && self.maxlen > 0 ==> self.queue@.len() <= self.maxlen
    }

    /// An empty queue of bound `cfg.0`, which never evicts if `cfg.1`.
    pub fn new(cfg: (usize, bool)) -> (r: Queue)
        ensures
            r@ == Seq::<Seq<char>>::empty(),
            r.max() == cfg.0,
            r.unbounded() == cfg.1,
    {
        let r = Queue { queue: Vec::new(), maxlen: cfg.0, dontpop: cfg.1 };
        assert(r@ =~= Seq::<Seq<char>>::empty());
        r
    }

    /// Appends `item`; a full rotating queue first removes its oldest name
    /// and returns it.
    pub fn add(&mut self, item: String) -> (r: Option<String>)
        ensures
            !final(self).unbounded() && final(self).max() > 0 ==> final(self)@.len()
                <= final(self).max(),
            final(self).max() == old(self).max(),
            final(self).unbounded() == old(self).unbounded(),
            final(self)@ == add_step(old(self)@, old(self).max(), old(self).unbounded(), item@),
            match add_evicts(old(self)@, old(self).max(), old(self).unbounded()) {
                Some(x) => r is Some && r->Some_0@ == x,
                None => r is None,
            },
    {
        proof {
            use_type_invariant(&*self);
        }
        let ghost q0 = self@;
        let ghost iv = item@;
        let full = !self.dontpop && self.is_overflow();
        let mut v: Vec<String> = Vec::new();
        std::mem::swap(&mut v, &mut self.queue);
        let x = if full && v.len() != 0 {
            Some(v.remove(0))
        } else {
            None
        };
        v.push(item);
        assert(v@.map_values(|s: String| s@) =~= add_step(q0, self.max(), self.unbounded(), iv));
        self.queue = v;
        x
    }

    /// The names, oldest first.
    pub fn iter(&self) -> (r: &[String])
        ensures
            r@.map_values(|s: String| s@) == self@,
    {
        self.queue.as_slice()
    }

    fn is_overflow(&self) -> (r: bool)
        ensures
            r == (self@.len() == self.max()),
    {
        self.queue.len() == self.maxlen
    }
}

/// A UTC date and time, as the clock gives it.
#[derive(PartialEq, Eq, Structural, Clone, Copy, Debug)]
pub struct Stamp {
    pub year: i32,
    pub month: u32,
    pub day: u32,
    pub hour: u32,
    pub minute: u32,
    pub second: u32,
}

impl Stamp {
    /// Each field lies in its calendar range.
    pub open spec fn wf(&self) -> bool {
        1 <= self.month <= 12 && 1 <= self.day <= 31 && self.hour < 24 && self.minute < 60
            && self.second < 60
    }
}

/// Relies on `SystemTime::elapsed` of `UNIX_EPOCH`: the whole seconds since
/// 1970, or `None` when the clock reads earlier. The reading depends on the
/// clock, so nothing more is stated.
#[verifier::external_body]
fn unix_seconds() -> (r: Option<u64>) {
    std::time::UNIX_EPOCH.elapsed().ok().map(|d| d.as_secs())
}

/// Relies on chrono's `DateTime::from_timestamp`, read through `Datelike`
/// and `Timelike`: the UTC date and time `secs` seconds after 1970, each
/// field in its documented range, or `None` outside chrono's range.
#[verifier::external_body]
fn stamp_of(secs: i64) -> (r: Option<Stamp>)
    ensures
        r is Some ==> r->Some_0.wf(),
{
    chrono::DateTime::from_timestamp(secs, 0).map(|t| Stamp {
        year: t.year(),
        month: t.month(),
        day: t.day(),
        hour: t.hour(),
        minute: t.minute(),
        second: t.second(),
    })
}

/// The current UTC date and time, or `None` when the clock cannot be read
/// as one.
pub fn utc_now() -> (r: Option<Stamp>)
    ensures
        r is Some ==> r->Some_0.wf(),
{
    match unix_seconds() {
        Some(secs) => if secs <= i64::MAX as u64 {
            stamp_of(secs as i64)
        } else {
            None
        },
        None => None,
    }
}

/// How taking a snapshot starts.
pub enum SnapStart {
    /// The table is shutting down: take no snapshot, and stop.
    ShuttingDown,
    /// The clock gives no date: take no snapshot this time.
    ClockUnreadable,
    /// Write the snapshot to this path.
    Path(String),
}

/// The decimal digit `d`.
pub open spec fn digit_char(d: nat) -> char {
    if d == 0 {
        '0'
    } else if d == 1 {
        '1'
    } else if d == 2 {
        '2'
    } else if d == 3 {
        '3'
    } else if d == 4 {
        '4'
    } else if d == 5 {
        '5'
    } else if d == 6 {
        '6'
    } else if d == 7 {
        '7'
    } else if d == 8 {
        '8'
    } else {
        '9'
    }
}

/// `n` in decimal, padded with leading zeros to at least `w` digits.
pub open spec fn decimal(n: nat, w: nat) -> Seq<char>
    decreases n + w,
{
    if n < 10 && w <= 1 {
        seq![digit_char(n)]
    } else {
        decimal(n / 10, if w > 0 { (w - 1) as nat } else { 0 }) + seq![digit_char(n % 10)]
    }
}

/// A year as `%Y` writes it: four digits or more, with a sign outside
/// 0 to 9999.
pub open spec fn year_text(y: int) -> Seq<char> {
    if 0 <= y <= 9999 {
        decimal(y as nat, 4)
    } else if y < 0 {
        seq!['-'] + decimal((-y) as nat, 4)
    } else {
        seq!['+'] + decimal(y as nat, 4)
    }
}

/// The path of the snapshot taken at `t`:
/// `./snapshots/YYYYMMDD-HHMMSS.snapshot`.
pub open spec fn snapshot_path(t: Stamp) -> Seq<char> {
    "./snapshots/"@ + year_text(t.year as int) + decimal(t.month as nat, 2) + decimal(
        t.day as nat,
        2,
    ) + "-"@ + decimal(t.hour as nat, 2) + decimal(t.minute as nat, 2) + decimal(
        t.second as nat,
        2,
    ) + ".snapshot"@
}

/// Every snapshot path starts with `./snapshots/` and ends with `.snapshot`.
pub proof fn lemma_snapshot_path_shape(t: Stamp)
    ensures
        snapshot_path(t).len() >= 21,
        snapshot_path(t).take(12) == "./snapshots/"@,
        snapshot_path(t).skip(snapshot_path(t).len() - 9) == ".snapshot"@,
{
    reveal_strlit("./snapshots/");
    reveal_strlit(".snapshot");
    let p = snapshot_path(t);
    let mid = p.subrange(12, p.len() - 9);
    assert(p =~= "./snapshots/"@ + mid + ".snapshot"@);
    assert(p.take(12) =~= "./snapshots/"@);
    assert(p.skip(p.len() - 9) =~= ".snapshot"@);
}

fn digit_str(d: u64) -> (r: &'static str)
    requires
        d < 10,
    ensures
        r@ == seq![digit_char(d as nat)],
{
    proof {
        reveal_strlit("0");
        reveal_strlit("1");
        reveal_strlit("2");
        reveal_strlit("3");
        reveal_strlit("4");
        reveal_strlit("5");
        reveal_strlit("6");
        reveal_strlit("7");
        reveal_strlit("8");
        reveal_strlit("9");
    }
    if d == 0 {
        "0"
    } else if d == 1 {
        "1"
    } else if d == 2 {
        "2"
    } else if d == 3 {
        "3"
    } else if d == 4 {
        "4"
    } else if d == 5 {
        "5"
    } else if d == 6 {
        "6"
    } else if d == 7 {
        "7"
    } else if d == 8 {
        "8"
    } else {
        "9"
    }
}

fn push_decimal(s: &mut String, n: u64, w: u64)
    ensures
        final(s)@ == old(s)@ + decimal(n as nat, w as nat),
    decreases n + w,
{
    if n < 10 && w <= 1 {
        s.append(digit_str(n));
    } else {
        let w2: u64 = if w > 0 {
            w - 1
        } else {
            0
        };
        push_decimal(s, n / 10, w2);
        s.append(digit_str(n % 10));
        assert(final(s)@ =~= old(s)@ + decimal(n as nat, w as nat));
    }
}

/// The path of the snapshot taken at `t`.
pub fn snapshot_name(t: &Stamp) -> (r: String)
    ensures
        r@ == snapshot_path(*t),
{
    let mut s = String::from_str("./snapshots/");
    let y = t.year as i64;
    if 0 <= y && y <= 9999 {
        push_decimal(&mut s, y as u64, 4);
    } else if y < 0 {
        s.append("-");
        push_decimal(&mut s, (-y) as u64, 4);
        proof { reveal_strlit("-"); }
    } else {
        s.append("+");
        push_decimal(&mut s, y as u64, 4);
        proof { reveal_strlit("+"); }
    }
    push_decimal(&mut s, t.month as u64, 2);
    push_decimal(&mut s, t.day as u64, 2);
    s.append("-");
    push_decimal(&mut s, t.hour as u64, 2);
    push_decimal(&mut s, t.minute as u64, 2);
    push_decimal(&mut s, t.second as u64, 2);
    s.append(".snapshot");
    assert(s@ =~= snapshot_path(*t));
    s
}

/// Keeps the names of the snapshots taken, and decides which to delete.
pub struct SnapshotEngine {
    snaps: Queue,
}

impl SnapshotEngine {
    /// The queue of snapshot names.
    pub closed spec fn queue(&self) -> Queue {
        self.snaps
    }

    /// An engine that keeps at most `maxtop` snapshots, or all of them if
    /// `maxtop` is 0.
    pub fn new(maxtop: usize) -> (r: SnapshotEngine)
        ensures
            r.queue()@ == Seq::<Seq<char>>::empty(),
            maxtop == 0 ==> r.queue().unbounded() && r.queue().max() == DEF_SNAPSHOT_COUNT,
            maxtop != 0 ==> !r.queue().unbounded() && r.queue().max() == maxtop,
    {
        let cfg = if maxtop == 0 {
            (DEF_SNAPSHOT_COUNT, true)
        } else {
            (maxtop, false)
        };
        SnapshotEngine { snaps: Queue::new(cfg) }
    }

    /// The first half of taking a snapshot, under the read lock: nothing is
    /// to be done when the table is shutting down or the clock cannot be
    /// read; otherwise the path of the file to write, named after the
    /// current UTC time.
    pub fn begin(&self, terminating: bool) -> (r: SnapStart)
        ensures
            r is ShuttingDown <==> terminating,
            r is Path ==> exists|t: Stamp| t.wf() && r->Path_0@ == snapshot_path(t),
    {
        if terminating {
            SnapStart::ShuttingDown
        } else {
            match utc_now() {
                Some(t) => SnapStart::Path(snapshot_name(&t)),
                None => SnapStart::ClockUnreadable,
            }
        }
    }

    /// The second half, once the write of `name` has been tried: a written
    /// snapshot joins the queue, and the name it evicts, if any, is the file
    /// to delete. A failed write changes nothing.
    pub fn finish(&mut self, name: String, written: bool) -> (r: Option<String>)
        ensures
            final(self).queue().max() == old(self).queue().max(),
            final(self).queue().unbounded() == old(self).queue().unbounded(),
            !written ==> r is None && final(self).queue()@ == old(self).queue()@,
            written ==> final(self).queue()@ == add_step(
                old(self).queue()@,
                old(self).queue().max(),
                old(self).queue().unbounded(),
                name@,
            ),
            written ==> match add_evicts(
                old(self).queue()@,
                old(self).queue().max(),
                old(self).queue().unbounded(),
            ) {
                Some(x) => r is Some && r->Some_0@ == x,
                None => r is None,
            },
    {
        if written {
            self.snaps.add(name)
        } else {
            None
        }
    }

    /// The names of the snapshots kept, oldest first.
    pub fn get_snapshots(&self) -> (r: &[String])
        ensures
            r@.map_values(|s: String| s@) == self.queue()@,
    {
        self.snaps.iter()
    }
}

} // verus!
