use vstd::prelude::*;
use crate::error::Error;
use crate::registers::MAX_LINES;
use crate::types::{Level, Trigger};

verus! {

/// How the edges of an armed line are delivered.
#[derive(Debug, PartialEq, Eq, Structural, Copy, Clone)]
pub enum Delivery {
    /// Cached and handed out by polling.
    Sync,
    /// Handed to a background worker's callback.
    Async,
}

/// The interrupt configuration of one armed line.
#[derive(Debug, PartialEq, Eq, Structural, Copy, Clone)]
pub struct Armed {
    pub trigger: Trigger,
    pub delivery: Delivery,
}

/// A cached edge: the line it came from and the level after it.
pub type Edge = (u8, Level);

/// The result of one step of a poll.
#[derive(Debug, PartialEq, Eq, Structural, Copy, Clone)]
pub enum PollStep {
    /// An edge for one of the requested lines.
    Event(u8, Level),
    /// Nothing is cached: wait on the multiplexer for the requested lines.
    Wait,
    /// None of the requested lines is armed for polling: nothing can arrive.
    Idle,
}

/// What the event loop records.
pub struct EventLoopView {
    pub armed: Seq<Option<Armed>>,
    pub pending: Seq<Edge>,
    pub worker_failed: bool,
}

/// Whether `line` is armed for delivery by polling.
pub open spec fn is_sync(armed: Seq<Option<Armed>>, line: u8) -> bool {
    line < armed.len() && (armed[line as int] matches Some(a) && a.delivery == Delivery::Sync)
}

/// Whether `line` is armed for delivery to a background worker.
pub open spec fn is_async(armed: Seq<Option<Armed>>, line: u8) -> bool {
    line < armed.len() && (armed[line as int] matches Some(a) && a.delivery == Delivery::Async)
}

/// Every cached edge belongs to a line armed for polling.
pub open spec fn pending_ok(armed: Seq<Option<Armed>>, p: Seq<Edge>) -> bool {
    forall|i: int| 0 <= i < p.len() ==> is_sync(armed, #[trigger] p[i].0)
}

/// Whether some line of `lines` is armed for polling.
pub open spec fn any_sync(armed: Seq<Option<Armed>>, lines: Seq<u8>) -> bool {
    exists|i: int| 0 <= i < lines.len() && is_sync(armed, #[trigger] lines[i])
}

/// Whether a cached edge is for `line`.
pub open spec fn has_edge(p: Seq<Edge>, line: u8) -> bool {
    exists|i: int| 0 <= i < p.len() && (#[trigger] p[i]).0 == line
}

/// The cached edges, in order, without those of the given lines.
pub open spec fn drop_lines(p: Seq<Edge>, lines: Seq<u8>) -> Seq<Edge>
    decreases p.len(),
{
    if p.len() == 0 {
        p
    } else {
        let r = drop_lines(p.drop_last(), lines);
        if lines.contains(p.last().0) {
            r
        } else {
            r.push(p.last())
        }
    }
}

/// The index of the earliest cached edge for one of `lines`; `p.len()` if none.
pub open spec fn first_match(p: Seq<Edge>, lines: Seq<u8>) -> int
    decreases p.len(),
{
    if p.len() == 0 {
        0
    } else if lines.contains(p[0].0) {
        0
    } else {
        1 + first_match(p.drop_first(), lines)
    }
}

/// The level of the last edge for `line` in a batch, if any.
pub open spec fn last_level(batch: Seq<Edge>, line: u8) -> Option<Level>
    decreases batch.len(),
{
    if batch.len() == 0 {
        None
    } else if batch.last().0 == line {
        Some(batch.last().1)
    } else {
        last_level(batch.drop_last(), line)
    }
}

/// The cache after a new edge for `line`: its older edge, if any, gives way
/// to the new one at the back of the queue.
pub open spec fn push_edge(p: Seq<Edge>, line: u8, level: Level) -> Seq<Edge> {
    drop_lines(p, seq![line]).push((line, level))
}

/// The cache after recording a batch of edges, lines `0..n` taken in
/// ascending order, each with the last level the batch gives it; edges for
/// lines not armed for polling are not cached.
pub open spec fn recorded(p: Seq<Edge>, armed: Seq<Option<Armed>>, batch: Seq<Edge>, n: nat) -> Seq<
    Edge,
>
    decreases n,
{
    if n == 0 {
        p
    } else {
        let q = recorded(p, armed, batch, (n - 1) as nat);
        let l = (n - 1) as u8;
        match last_level(batch, l) {
            Some(lv) => if is_sync(armed, l) {
                push_edge(q, l, lv)
            } else {
                q
            },
            None => q,
        }
    }
}

/// The edge taken from the cache for `lines`, and the cache left behind.
pub open spec fn take_spec(p: Seq<Edge>, lines: Seq<u8>) -> (Option<Edge>, Seq<Edge>) {
    let i = first_match(p, lines);
    if i < p.len() {
        (Some(p[i]), p.remove(i))
    } else {
        (None, p)
    }
}

pub proof fn lemma_drop_lines(armed: Seq<Option<Armed>>, p: Seq<Edge>, lines: Seq<u8>)
    ensures
        drop_lines(p, lines).len() <= p.len(),
        forall|i: int|
            0 <= i < drop_lines(p, lines).len() ==> !lines.contains(
                (#[trigger] drop_lines(p, lines)[i]).0,
            ),
        pending_ok(armed, p) ==> pending_ok(armed, drop_lines(p, lines)),
        (forall|i: int| 0 <= i < p.len() ==> !lines.contains((#[trigger] p[i]).0)) ==> drop_lines(
            p,
            lines,
        ) == p,
    decreases p.len(),
{
    if p.len() > 0 {
        let q = p.drop_last();
        lemma_drop_lines(armed, q, lines);
        if (forall|i: int| 0 <= i < p.len() ==> !lines.contains((#[trigger] p[i]).0)) {
            assert forall|i: int| 0 <= i < q.len() implies !lines.contains((#[trigger] q[i]).0) by {
                assert(q[i] == p[i]);
            }
            assert(p == q.push(p.last()));
        }
        if pending_ok(armed, p) {
            assert forall|i: int| 0 <= i < q.len() implies is_sync(armed, #[trigger] q[i].0) by {
                assert(q[i] == p[i]);
            }
        }
    }
}

/// `first_match` is the least index whose line is requested.
pub proof fn lemma_first_match(p: Seq<Edge>, lines: Seq<u8>, i: int)
    requires
        0 <= i <= p.len(),
        forall|j: int| 0 <= j < i ==> !lines.contains((#[trigger] p[j]).0),
        i == p.len() || lines.contains(p[i].0),
    ensures
        first_match(p, lines) == i,
    decreases p.len(),
{
    if p.len() > 0 && i > 0 {
        let q = p.drop_first();
        assert(!lines.contains(p[0].0));
        assert forall|j: int| 0 <= j < i - 1 implies !lines.contains((#[trigger] q[j]).0) by {
            assert(q[j] == p[j + 1]);
        }
        if i < p.len() {
            assert(q[i - 1] == p[i]);
        }
        lemma_first_match(q, lines, i - 1);
    }
}

pub proof fn lemma_last_level_single(e: Edge, l: u8)
    ensures
        last_level(seq![e], l) == if e.0 == l {
            Some(e.1)
        } else {
            None::<Level>
        },
{
    let s = seq![e];
    assert(s.len() == 1);
    assert(s.last() == e);
    assert(s.drop_last() =~= Seq::<Edge>::empty());
    assert(last_level(s.drop_last(), l) == None::<Level>);
}

/// Recording a batch of one edge for a line armed for polling pushes it.
pub proof fn lemma_recorded_single(
    p: Seq<Edge>,
    armed: Seq<Option<Armed>>,
    e: Edge,
    n: nat,
)
    requires
        is_sync(armed, e.0),
        n <= 256,
    ensures
        recorded(p, armed, seq![e], n) == if e.0 < n {
            push_edge(p, e.0, e.1)
        } else {
            p
        },
    decreases n,
{
    if n > 0 {
        lemma_recorded_single(p, armed, e, (n - 1) as nat);
        lemma_last_level_single(e, (n - 1) as u8);
    }
}

/// Recording an empty batch leaves the cache as it was.
pub proof fn lemma_recorded_empty(p: Seq<Edge>, armed: Seq<Option<Armed>>, n: nat)
    ensures
        recorded(p, armed, Seq::<Edge>::empty(), n) == p,
    decreases n,
{
    if n > 0 {
        lemma_recorded_empty(p, armed, (n - 1) as nat);
    }
}

proof fn lemma_push_absent(armed: Seq<Option<Armed>>, p: Seq<Edge>, e: Edge)
    requires
        !has_edge(p, e.0),
    ensures
        push_edge(p, e.0, e.1) == p.push(e),
{
    assert forall|i: int| 0 <= i < p.len() implies !seq![e.0].contains((#[trigger] p[i]).0) by {
        if seq![e.0].contains(p[i].0) {
            let j = choose|j: int| 0 <= j < 1 && seq![e.0][j] == p[i].0;
            assert(seq![e.0][0] == e.0);
        }
    }
    lemma_drop_lines(armed, p, seq![e.0]);
}

/// A poll that resets the requested lines never hands out an edge cached
/// before it, and a wake that brings no edge (a timeout) hands out nothing
/// and leaves the cache as the reset left it.
pub proof fn lemma_reset_poll_times_out(p: Seq<Edge>, armed: Seq<Option<Armed>>, lines: Seq<u8>)
    ensures
        take_spec(drop_lines(p, lines), lines) == (None::<Edge>, drop_lines(p, lines)),
        take_spec(
            recorded(drop_lines(p, lines), armed, Seq::<Edge>::empty(), MAX_LINES as nat),
            lines,
        ) == (None::<Edge>, drop_lines(p, lines)),
{
    let q = drop_lines(p, lines);
    lemma_drop_lines(armed, p, lines);
    lemma_first_match(q, lines, q.len() as int);
    lemma_recorded_empty(q, armed, MAX_LINES as nat);
}

/// Two queued edges, for lines `a` then `b`, with no other edge cached for a
/// requested line, come out of two polls over `a` and `b` (in either order)
/// as `a`'s edge, then `b`'s, each exactly once; the rest of the cache stays.
pub proof fn lemma_take_pair(p: Seq<Edge>, lines: Seq<u8>, a: u8, la: Level, b: u8, lb: Level)
    requires
        a != b,
        lines.contains(a),
        lines.contains(b),
        forall|x: u8| #[trigger] lines.contains(x) ==> x == a || x == b,
        !has_edge(p, a),
        !has_edge(p, b),
    ensures
        ({
            let (e1, c1) = take_spec(p.push((a, la)).push((b, lb)), lines);
            let (e2, c2) = take_spec(c1, lines);
            &&& e1 == Some((a, la))
            &&& e2 == Some((b, lb))
            &&& c2 == p
        }),
{
    let c0 = p.push((a, la)).push((b, lb));
    let n = p.len() as int;
    assert forall|j: int| 0 <= j < n implies !lines.contains((#[trigger] c0[j]).0) by {
        assert(c0[j] == p[j]);
        if lines.contains(p[j].0) {
            assert(!has_edge(p, p[j].0));
        }
    }
    assert(c0[n] == (a, la));
    lemma_first_match(c0, lines, n);
    let c1 = c0.remove(n);
    assert(c1 =~= p.push((b, lb)));
    assert forall|j: int| 0 <= j < n implies !lines.contains((#[trigger] c1[j]).0) by {
        assert(c1[j] == c0[j]);
    }
    assert(c1[n] == (b, lb));
    lemma_first_match(c1, lines, n);
    assert(c1.remove(n) =~= p);
}

/// Two edges that arrive in two successive wakes, for two different lines
/// armed for polling with no edge cached, come out of two polls across both
/// lines (requested in either order) in the order they arrived, each exactly
/// once; the rest of the cache is left as it was.
pub proof fn lemma_edges_in_arrival_order(
    p: Seq<Edge>,
    armed: Seq<Option<Armed>>,
    lines: Seq<u8>,
    a: u8,
    la: Level,
    b: u8,
    lb: Level,
)
    requires
        a != b,
        a < MAX_LINES,
        b < MAX_LINES,
        is_sync(armed, a),
        is_sync(armed, b),
        !has_edge(p, a),
        !has_edge(p, b),
        lines.contains(a),
        lines.contains(b),
        forall|x: u8| #[trigger] lines.contains(x) ==> x == a || x == b,
    ensures
        ({
            let c1 = recorded(p, armed, seq![(a, la)], MAX_LINES as nat);
            let c2 = recorded(c1, armed, seq![(b, lb)], MAX_LINES as nat);
            let (e1, c3) = take_spec(c2, lines);
            let (e2, c4) = take_spec(c3, lines);
            &&& e1 == Some((a, la))
            &&& e2 == Some((b, lb))
            &&& c4 == p
        }),
{
    lemma_recorded_single(p, armed, (a, la), MAX_LINES as nat);
    lemma_push_absent(armed, p, (a, la));
    let c1 = p.push((a, la));
    assert(!has_edge(c1, b)) by {
        if has_edge(c1, b) {
            let i = choose|i: int| 0 <= i < c1.len() && (#[trigger] c1[i]).0 == b;
            if i < p.len() {
                assert(p[i] == c1[i]);
            }
        }
    }
    lemma_recorded_single(c1, armed, (b, lb), MAX_LINES as nat);
    lemma_push_absent(armed, c1, (b, lb));
    lemma_take_pair(p, lines, a, la, b, lb);
}

proof fn lemma_last_level_pair(a: u8, la: Level, b: u8, lb: Level, l: u8)
    ensures
        last_level(seq![(a, la), (b, lb)], l) == if l == b {
            Some(lb)
        } else if l == a {
            Some(la)
        } else {
            None::<Level>
        },
{
    let s = seq![(a, la), (b, lb)];
    assert(s.last() == (b, lb));
    assert(s.drop_last() =~= seq![(a, la)]);
    lemma_last_level_single((a, la), l);
}

proof fn lemma_recorded_pair(
    p: Seq<Edge>,
    armed: Seq<Option<Armed>>,
    a: u8,
    la: Level,
    b: u8,
    lb: Level,
    n: nat,
)
    requires
        a < b,
        is_sync(armed, a),
        is_sync(armed, b),
        !has_edge(p, a),
        !has_edge(p, b),
        n <= 256,
    ensures
        recorded(p, armed, seq![(a, la), (b, lb)], n) == if n <= a {
            p
        } else if n <= b {
            p.push((a, la))
        } else {
            p.push((a, la)).push((b, lb))
        },
    decreases n,
{
    if n > 0 {
        let l = (n - 1) as u8;
        lemma_recorded_pair(p, armed, a, la, b, lb, (n - 1) as nat);
        lemma_last_level_pair(a, la, b, lb, l);
        if l == a {
            lemma_push_absent(armed, p, (a, la));
        } else if l == b {
            let c1 = p.push((a, la));
            assert(!has_edge(c1, b)) by {
                if has_edge(c1, b) {
                    let i = choose|i: int| 0 <= i < c1.len() && (#[trigger] c1[i]).0 == b;
                    if i < p.len() {
                        assert(p[i] == c1[i]);
                    }
                }
            }
            lemma_push_absent(armed, c1, (b, lb));
        }
    }
}

/// Two edges drained in one wake, for two different lines armed for polling
/// with no edge cached, count as simultaneous: two polls across both lines
/// (requested in either order) hand them out by ascending line, each exactly
/// once, and the rest of the cache is left as it was.
pub proof fn lemma_simultaneous_edges_by_line(
    p: Seq<Edge>,
    armed: Seq<Option<Armed>>,
    lines: Seq<u8>,
    a: u8,
    la: Level,
    b: u8,
    lb: Level,
)
    requires
        a < b,
        b < MAX_LINES,
        is_sync(armed, a),
        is_sync(armed, b),
        !has_edge(p, a),
        !has_edge(p, b),
        lines.contains(a),
        lines.contains(b),
        forall|x: u8| #[trigger] lines.contains(x) ==> x == a || x == b,
    ensures
        ({
            let c1 = recorded(p, armed, seq![(b, lb), (a, la)], MAX_LINES as nat);
            let c2 = recorded(p, armed, seq![(a, la), (b, lb)], MAX_LINES as nat);
            let (e1, c3) = take_spec(c1, lines);
            let (e2, c4) = take_spec(c3, lines);
            &&& c1 == c2
            &&& e1 == Some((a, la))
            &&& e2 == Some((b, lb))
            &&& c4 == p
        }),
{
    lemma_recorded_pair(p, armed, a, la, b, lb, MAX_LINES as nat);
    lemma_recorded_pair_swapped(p, armed, a, la, b, lb, MAX_LINES as nat);
    lemma_take_pair(p, lines, a, la, b, lb);
}

proof fn lemma_recorded_pair_swapped(
    p: Seq<Edge>,
    armed: Seq<Option<Armed>>,
    a: u8,
    la: Level,
    b: u8,
    lb: Level,
    n: nat,
)
    requires
        a < b,
        is_sync(armed, a),
        is_sync(armed, b),
        !has_edge(p, a),
        !has_edge(p, b),
        n <= 256,
    ensures
        recorded(p, armed, seq![(b, lb), (a, la)], n) == recorded(
            p,
            armed,
            seq![(a, la), (b, lb)],
            n,
        ),
    decreases n,
{
    if n > 0 {
        let l = (n - 1) as u8;
        lemma_recorded_pair_swapped(p, armed, a, la, b, lb, (n - 1) as nat);
        lemma_last_level_pair(a, la, b, lb, l);
        lemma_last_level_pair(b, lb, a, la, l);
    }
}

/// An event loop's record of armed lines and cached edges. The kernel
/// descriptors and the multiplexer belong to the caller, who reports the
/// edges it drained and waits when a poll step asks it to.
#[derive(Debug)]
pub struct EventLoop {
    armed: Vec<Option<Armed>>,
    pending: Vec<Edge>,
    worker_failed: bool,
}

impl View for EventLoop {
    type V = EventLoopView;

    closed spec fn view(&self) -> EventLoopView {
        EventLoopView {
            armed: self.armed@,
            pending: self.pending@,
            worker_failed: self.worker_failed,
        }
    }
}

/// Whether `line` is in `lines`.
pub fn lines_contain(lines: &[u8], line: u8) -> (r: bool)
    ensures
        r == lines@.contains(line),
{
    let mut i: usize = 0;
    while i < lines.len()
        invariant
            i <= lines@.len(),
            forall|j: int| 0 <= j < i ==> lines@[j] != line,
        decreases lines@.len() - i,
    {
        if lines[i] == line {
            return true;
        }
        i = i + 1;
    }
    false
}

impl EventLoop {
    pub open spec fn wf(&self) -> bool {
        &&& self@.armed.len() == MAX_LINES
        &&& pending_ok(self@.armed, self@.pending)
    }

    /// Whether the event loop is well formed: one record per line, and every
    /// cached edge for a line armed for polling.
    pub fn is_well_formed(&self) -> (r: bool)
        ensures
            r == self.wf(),
    {
        if self.armed.len() != MAX_LINES {
            return false;
        }
        let mut i: usize = 0;
        while i < self.pending.len()
            invariant
                i <= self@.pending.len(),
                self@.armed.len() == MAX_LINES,
                forall|j: int| 0 <= j < i ==> is_sync(self@.armed, #[trigger] self@.pending[j].0),
            decreases self@.pending.len() - i,
        {
            let l: u8 = self.pending[i].0;
            if (l as usize) >= MAX_LINES {
                return false;
            }
            match self.armed[l as usize] {
                Some(a) => {
                    if a.delivery != Delivery::Sync {
                        return false;
                    }
                },
                None => {
                    return false;
                },
            }
            i = i + 1;
        }
        true
    }

    /// An event loop with no line armed and nothing cached.
    pub fn new() -> (r: EventLoop)
        ensures
            r.wf(),
            r@.pending.len() == 0,
            !r@.worker_failed,
            forall|i: int| 0 <= i < MAX_LINES ==> r@.armed[i].is_none(),
    {
        let mut armed: Vec<Option<Armed>> = Vec::new();
        let mut i: usize = 0;
        while i < MAX_LINES
            invariant
                i <= MAX_LINES,
                armed@.len() == i,
                forall|k: int| 0 <= k < i ==> armed@[k].is_none(),
            decreases MAX_LINES - i,
        {
            armed.push(None);
            i = i + 1;
        }
        EventLoop { armed, pending: Vec::new(), worker_failed: false }
    }

    /// The configuration of `line`, if armed.
    pub fn armed(&self, line: u8) -> (r: Option<Armed>)
        requires
            self.wf(),
            line < MAX_LINES,
        ensures
            r == self@.armed[line as int],
    {
        self.armed[line as usize]
    }

    /// Whether an edge for `line` is cached.
    pub fn has_pending(&self, line: u8) -> (r: bool)
        ensures
            r == has_edge(self@.pending, line),
    {
        let mut i: usize = 0;
        while i < self.pending.len()
            invariant
                i <= self@.pending.len(),
                forall|j: int| 0 <= j < i ==> self@.pending[j].0 != line,
            decreases self@.pending.len() - i,
        {
            if self.pending[i].0 == line {
                return true;
            }
            i = i + 1;
        }
        false
    }

    /// Discards the cached edges of `lines`, keeping the order of the rest.
    pub fn discard_pending(&mut self, lines: &[u8])
        requires
            old(self).wf(),
        ensures
            final(self).wf(),
            final(self)@.pending == drop_lines(old(self)@.pending, lines@),
            final(self)@.armed == old(self)@.armed,
            final(self)@.worker_failed == old(self)@.worker_failed,
    {
        let mut kept: Vec<Edge> = Vec::new();
        let mut i: usize = 0;
        while i < self.pending.len()
            invariant
                i <= self@.pending.len(),
                self@ == old(self)@,
                kept@ == drop_lines(self@.pending.subrange(0, i as int), lines@),
            decreases self@.pending.len() - i,
        {
            let e: Edge = self.pending[i];
            proof {
                let s = self@.pending.subrange(0, i as int + 1);
                assert(s.drop_last() =~= self@.pending.subrange(0, i as int));
                assert(s.last() == e);
            }
            if !lines_contain(lines, e.0) {
                kept.push(e);
            }
            i = i + 1;
        }
        proof {
            assert(self@.pending.subrange(0, i as int) =~= self@.pending);
            lemma_drop_lines(self@.armed, self@.pending, lines@);
        }
        self.pending = kept;
    }

    /// Arms `line` for `trigger` with the given delivery, replacing any
    /// earlier configuration and its cached edge; `Trigger::Disabled` disarms.
    pub fn arm(&mut self, line: u8, trigger: Trigger, delivery: Delivery)
        requires
            old(self).wf(),
            line < MAX_LINES,
        ensures
            final(self).wf(),
            final(self)@.armed == old(self)@.armed.update(
                line as int,
                if trigger == Trigger::Disabled {
                    None
                } else {
                    Some(Armed { trigger, delivery })
                },
            ),
            final(self)@.pending == drop_lines(old(self)@.pending, seq![line]),
            final(self)@.worker_failed == old(self)@.worker_failed,
    {
        let one: Vec<u8> = vec![line];
        self.discard_pending(one.as_slice());
        proof {
            assert(one@ =~= seq![line]);
            lemma_drop_lines(self@.armed, old(self)@.pending, seq![line]);
        }
        let cfg: Option<Armed> = match trigger {
            Trigger::Disabled => None,
            _ => Some(Armed { trigger, delivery }),
        };
        self.armed.set(line as usize, cfg);
        proof {
            let p = self@.pending;
            assert forall|i: int| 0 <= i < p.len() implies is_sync(self@.armed, #[trigger] p[i].0) by {
                assert(!seq![line].contains(p[i].0));
                assert(seq![line][0] == line);
                assert(is_sync(old(self)@.armed, p[i].0));
            }
        }
    }

    /// Removes `line` from interrupt delivery and discards its cached edge;
    /// disarming a line that is not armed changes nothing else.
    pub fn disarm(&mut self, line: u8)
        requires
            old(self).wf(),
            line < MAX_LINES,
        ensures
            final(self).wf(),
            final(self)@.armed == old(self)@.armed.update(line as int, None),
            final(self)@.pending == drop_lines(old(self)@.pending, seq![line]),
            final(self)@.worker_failed == old(self)@.worker_failed,
            !is_sync(final(self)@.armed, line),
            !is_async(final(self)@.armed, line),
    {
        self.arm(line, Trigger::Disabled, Delivery::Sync);
    }

    /// Whether a background worker for `line` is still to invoke its callback
    /// for an edge: only while the line stays armed for asynchronous delivery.
    pub fn worker_delivers(&self, line: u8) -> (r: bool)
        requires
            self.wf(),
            line < MAX_LINES,
        ensures
            r == is_async(self@.armed, line),
    {
        match self.armed[line as usize] {
            Some(a) => a.delivery == Delivery::Async,
            None => false,
        }
    }

    /// Records that a background worker terminated abnormally.
    pub fn report_worker_failure(&mut self)
        ensures
            final(self)@.worker_failed,
            final(self)@.armed == old(self)@.armed,
            final(self)@.pending == old(self)@.pending,
    {
        self.worker_failed = true;
    }

    /// Whether some line of `lines` is armed for polling.
    pub fn any_polled(&self, lines: &[u8]) -> (r: bool)
        requires
            self.wf(),
        ensures
            r == any_sync(self@.armed, lines@),
    {
        let mut i: usize = 0;
        while i < lines.len()
            invariant
                i <= lines@.len(),
                self.wf(),
                forall|j: int| 0 <= j < i ==> !is_sync(self@.armed, #[trigger] lines@[j]),
            decreases lines@.len() - i,
        {
            let l: u8 = lines[i];
            if (l as usize) < MAX_LINES {
                if let Some(a) = self.armed[l as usize] {
                    if a.delivery == Delivery::Sync {
                        return true;
                    }
                }
            }
            i = i + 1;
        }
        false
    }

    /// Takes the earliest cached edge for one of `lines` out of the cache.
    pub fn take_pending(&mut self, lines: &[u8]) -> (r: Option<Edge>)
        requires
            old(self).wf(),
        ensures
            final(self).wf(),
            (r, final(self)@.pending) == take_spec(old(self)@.pending, lines@),
            final(self)@.armed == old(self)@.armed,
            final(self)@.worker_failed == old(self)@.worker_failed,
    {
        let mut i: usize = 0;
        while i < self.pending.len()
            invariant
                i <= self@.pending.len(),
                self@ == old(self)@,
                self.wf(),
                forall|j: int| 0 <= j < i ==> !lines@.contains((#[trigger] self@.pending[j]).0),
            decreases self@.pending.len() - i,
        {
            if lines_contain(lines, self.pending[i].0) {
                proof {
                    lemma_first_match(self@.pending, lines@, i as int);
                }
                let e: Edge = self.pending.remove(i);
                proof {
                    let p = old(self)@.pending;
                    p.remove_ensures(i as int);
                    assert forall|k: int| 0 <= k < self@.pending.len() implies is_sync(
                        self@.armed,
                        #[trigger] self@.pending[k].0,
                    ) by {
                        if k < i {
                            assert(self@.pending[k] == p[k]);
                            assert(is_sync(old(self)@.armed, p[k].0));
                        } else {
                            assert(self@.pending[k] == p[k + 1]);
                            assert(is_sync(old(self)@.armed, p[k + 1].0));
                        }
                    }
                }
                return Some(e);
            }
            i = i + 1;
        }
        proof {
            lemma_first_match(self@.pending, lines@, i as int);
        }
        None
    }

    /// Records a batch of edges drained from the multiplexer: lines in
    /// ascending order, each with the last level the batch reports for it.
    /// Edges of lines not armed for polling are not cached.
    pub fn record_edges(&mut self, batch: &[Edge])
        requires
            old(self).wf(),
        ensures
            final(self).wf(),
            final(self)@.pending == recorded(
                old(self)@.pending,
                old(self)@.armed,
                batch@,
                MAX_LINES as nat,
            ),
            final(self)@.armed == old(self)@.armed,
            final(self)@.worker_failed == old(self)@.worker_failed,
    {
        let mut n: usize = 0;
        while n < MAX_LINES
            invariant
                n <= MAX_LINES,
                self.wf(),
                self@.armed == old(self)@.armed,
                self@.worker_failed == old(self)@.worker_failed,
                self@.pending == recorded(old(self)@.pending, old(self)@.armed, batch@, n as nat),
            decreases MAX_LINES - n,
        {
            let l: u8 = n as u8;
            let mut found: Option<Level> = None;
            let mut k: usize = 0;
            while k < batch.len()
                invariant
                    k <= batch@.len(),
                    found == last_level(batch@.subrange(0, k as int), l),
                decreases batch@.len() - k,
            {
                proof {
                    let s = batch@.subrange(0, k as int + 1);
                    assert(s.drop_last() =~= batch@.subrange(0, k as int));
                    assert(s.last() == batch@[k as int]);
                }
                if batch[k].0 == l {
                    found = Some(batch[k].1);
                }
                k = k + 1;
            }
            proof {
                assert(batch@.subrange(0, k as int) =~= batch@);
            }
            if let Some(lv) = found {
                if let Some(a) = self.armed[n] {
                    if a.delivery == Delivery::Sync {
                        let one: Vec<u8> = vec![l];
                        self.discard_pending(one.as_slice());
                        proof {
                            assert(one@ =~= seq![l]);
                        }
                        self.pending.push((l, lv));
                        proof {
                            let p = self@.pending;
                            assert forall|i: int| 0 <= i < p.len() implies is_sync(
                                self@.armed,
                                #[trigger] p[i].0,
                            ) by {
                                if i < p.len() - 1 {
                                    assert(p[i] == p.drop_last()[i]);
                                }
                            }
                        }
                    }
                }
            }
            n = n + 1;
        }
    }

    /// The first step of a poll over `lines`. A failed background worker is
    /// reported first, once. With `reset`, the cached edges of `lines` are
    /// discarded; then the earliest cached edge for one of them is handed
    /// out, or the caller is told to wait, or that nothing can arrive.
    pub fn begin_poll(&mut self, lines: &[u8], reset: bool) -> (r: Result<PollStep, Error>)
        requires
            old(self).wf(),
        ensures
            final(self).wf(),
            final(self)@.armed == old(self)@.armed,
            !final(self)@.worker_failed,
            old(self)@.worker_failed ==> r == Err::<PollStep, Error>(Error::ThreadPanic)
                && final(self)@.pending == old(self)@.pending,
            !old(self)@.worker_failed ==> ({
                let p = if reset {
                    drop_lines(old(self)@.pending, lines@)
                } else {
                    old(self)@.pending
                };
                let (e, q) = take_spec(p, lines@);
                &&& final(self)@.pending == q
                &&& r == Ok::<PollStep, Error>(
                    match e {
                        Some(e) => PollStep::Event(e.0, e.1),
                        None => if any_sync(old(self)@.armed, lines@) {
                            PollStep::Wait
                        } else {
                            PollStep::Idle
                        },
                    },
                )
            }),
    {
        if self.worker_failed {
            self.worker_failed = false;
            return Err(Error::ThreadPanic);
        }
        if reset {
            self.discard_pending(lines);
        }
        Ok(self.next_step(lines))
    }

    /// A later step of a poll over `lines`, after the multiplexer woke with
    /// `batch` (empty on timeout): the batch is recorded, then the earliest
    /// cached edge for one of `lines` is handed out, if any.
    pub fn wake(&mut self, lines: &[u8], batch: &[Edge]) -> (r: PollStep)
        requires
            old(self).wf(),
        ensures
            final(self).wf(),
            final(self)@.armed == old(self)@.armed,
            final(self)@.worker_failed == old(self)@.worker_failed,
            ({
                let p = recorded(old(self)@.pending, old(self)@.armed, batch@, MAX_LINES as nat);
                let (e, q) = take_spec(p, lines@);
                &&& final(self)@.pending == q
                &&& r == match e {
                    Some(e) => PollStep::Event(e.0, e.1),
                    None => if any_sync(old(self)@.armed, lines@) {
                        PollStep::Wait
                    } else {
                        PollStep::Idle
                    },
                }
            }),
    {
        self.record_edges(batch);
        self.next_step(lines)
    }

    fn next_step(&mut self, lines: &[u8]) -> (r: PollStep)
        requires
            old(self).wf(),
        ensures
            final(self).wf(),
            final(self)@.armed == old(self)@.armed,
            final(self)@.worker_failed == old(self)@.worker_failed,
            ({
                let (e, q) = take_spec(old(self)@.pending, lines@);
                &&& final(self)@.pending == q
                &&& r == match e {
                    Some(e) => PollStep::Event(e.0, e.1),
                    None => if any_sync(old(self)@.armed, lines@) {
                        PollStep::Wait
                    } else {
                        PollStep::Idle
                    },
                }
            }),
    {
        match self.take_pending(lines) {
            Some(e) => PollStep::Event(e.0, e.1),
            None => if self.any_polled(lines) {
                PollStep::Wait
            } else {
                PollStep::Idle
            },
        }
    }
}

} // verus!
