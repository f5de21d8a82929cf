use vstd::prelude::*;

use crate::event::Event;
use crate::input::routed;
use crate::path::{field_value, segment, tail_from};
use crate::scheme::{has_id, ids_exhausted, index_of, path_text, OrbitalScheme, SchemeError};

verus! {

/// A virtual-file operation on a window.
pub enum Op {
    /// Opens a window from a path `/<x>/<y>/<width>/<height>/<title...>`.
    Open(String),
    /// Takes up to this many queued input events.
    Read(usize),
    /// Hands the window new content.
    Write(Vec<u8>),
    /// Asks for the path text that names the window.
    Fpath,
    Close,
}

/// A client request: the caller's tag, the target window and the operation.
pub struct Request {
    pub tag: u64,
    pub id: u64,
    pub op: Op,
}

/// What a request that succeeded answers.
pub enum Reply {
    Opened(u64),
    Events(Vec<Event>),
    Written(usize),
    Path(Vec<char>),
    Closed(usize),
}

/// The answer to the request with the same tag.
pub struct Response {
    pub tag: u64,
    pub result: Result<Reply, SchemeError>,
}

/// A read that finds its window's queue empty waits for input instead of
/// being answered.
pub open spec fn waits(s: OrbitalScheme, req: Request) -> bool {
    &&& req.op is Read
    &&& has_id(s.windows@, req.id)
    &&& s.windows@[index_of(s.windows@, req.id)].events@.len() == 0
}

/// `resp` answers `req`, carried out from state `o` to state `n`.
pub open spec fn handled(o: OrbitalScheme, n: OrbitalScheme, req: Request, resp: Response) -> bool {
    &&& resp.tag == req.tag
    &&& match req.op {
        Op::Open(p) => match resp.result {
            Err(e) => e == SchemeError::NoFreeId && n == o && ids_exhausted(o.windows@),
            Ok(Reply::Opened(id)) => OrbitalScheme::opened(
                o,
                n,
                field_value(segment(p@, 1)),
                field_value(segment(p@, 2)),
                field_value(segment(p@, 3)),
                field_value(segment(p@, 4)),
                tail_from(p@, 5),
                id,
            ),
            _ => false,
        },
        Op::Read(max) => match resp.result {
            Ok(Reply::Events(v)) => OrbitalScheme::read_done(o, n, req.id, max, Ok(v)),
            Err(e) => OrbitalScheme::read_done(o, n, req.id, max, Err(e)),
            _ => false,
        },
        Op::Write(buf) => match resp.result {
            Ok(Reply::Written(k)) => OrbitalScheme::write_done(o, n, req.id, buf@, Ok(k)),
            Err(e) => OrbitalScheme::write_done(o, n, req.id, buf@, Err(e)),
            _ => false,
        },
        Op::Fpath => n == o && match resp.result {
            Ok(Reply::Path(v)) => has_id(o.windows@, req.id) && v@ == path_text(o.windows@[index_of(o.windows@, req.id)]),
            Err(e) => !has_id(o.windows@, req.id) && e == SchemeError::NotFound,
            _ => false,
        },
        Op::Close => match resp.result {
            Ok(Reply::Closed(k)) => OrbitalScheme::close_done(o, n, req.id, Ok(k)),
            Err(e) => OrbitalScheme::close_done(o, n, req.id, Err(e)),
            _ => false,
        },
    }
}

/// One request of a batch: a waiting read joins the deferred list
/// unanswered; any other request is carried out and answered.
#[verifier::opaque]
pub open spec fn stepped(o: OrbitalScheme, n: OrbitalScheme, req: Request, out: Option<Response>) -> bool {
    if waits(o, req) {
        &&& out is None
        &&& n.todo@ == o.todo@.push(req)
        &&& n.windows@ == o.windows@
        &&& n.redraws@ == o.redraws@
        &&& n.same_but_todo(&o)
    } else {
        out matches Some(resp) && handled(o, n, req, resp)
    }
}

/// The answers among `outs`, in order.
pub open spec fn answers(outs: Seq<Option<Response>>) -> Seq<Response>
    decreases outs.len(),
{
    if outs.len() == 0 {
        Seq::empty()
    } else {
        let rest = answers(outs.drop_last());
        match outs.last() {
            Some(r) => rest.push(r),
            None => rest,
        }
    }
}

/// `st` and `outs` trace carrying out `reqs` in order from `s0` to `s1`,
/// answering `resps`.
pub open spec fn batch_trace(
    s0: OrbitalScheme,
    s1: OrbitalScheme,
    reqs: Seq<Request>,
    resps: Seq<Response>,
    st: Seq<OrbitalScheme>,
    outs: Seq<Option<Response>>,
) -> bool {
    &&& st.len() == reqs.len() + 1
    &&& outs.len() == reqs.len()
    &&& st[0] == s0
    &&& st.last() == s1
    &&& forall|k: int| 0 <= k < reqs.len() ==> stepped(#[trigger] st[k], st[k + 1], reqs[k], outs[k])
    &&& resps == answers(outs)
}

/// Carrying out `reqs` in order leads from `s0` to `s1` and answers `resps`.
pub open spec fn batch_done(s0: OrbitalScheme, s1: OrbitalScheme, reqs: Seq<Request>, resps: Seq<Response>) -> bool {
    exists|st: Seq<OrbitalScheme>, outs: Seq<Option<Response>>| #[trigger] batch_trace(s0, s1, reqs, resps, st, outs)
}

/// How many of `hot` hold.
pub open spec fn count_true(hot: Seq<bool>) -> int
    decreases hot.len(),
{
    if hot.len() == 0 {
        0
    } else {
        count_true(hot.drop_last()) + if hot.last() {
            1int
        } else {
            0int
        }
    }
}

/// `st` and `hot` trace routing `evs` in order from `s0` to `s1`.
pub open spec fn events_trace(
    s0: OrbitalScheme,
    s1: OrbitalScheme,
    evs: Seq<Event>,
    reports: int,
    st: Seq<OrbitalScheme>,
    hot: Seq<bool>,
) -> bool {
    &&& st.len() == evs.len() + 1
    &&& hot.len() == evs.len()
    &&& st[0] == s0
    &&& st.last() == s1
    &&& forall|k: int| 0 <= k < evs.len() ==> routed(#[trigger] st[k], st[k + 1], evs[k], hot[k])
    &&& reports == count_true(hot)
}

/// Routing `evs` in order leads from `s0` to `s1`; `reports` counts the
/// process-list hotkeys among them.
pub open spec fn events_done(s0: OrbitalScheme, s1: OrbitalScheme, evs: Seq<Event>, reports: int) -> bool {
    exists|st: Seq<OrbitalScheme>, hot: Seq<bool>| #[trigger] events_trace(s0, s1, evs, reports, st, hot)
}

/// Retrying the deferred requests of `o`: the deferred list is emptied, then
/// its requests are carried out in order, leading to `n` and answering
/// `resps`.
pub open spec fn retried(o: OrbitalScheme, n: OrbitalScheme, resps: Seq<Response>) -> bool {
    exists|s0: OrbitalScheme|
        {
            &&& s0.todo@.len() == 0
            &&& s0.windows@ == o.windows@
            &&& s0.redraws@ == o.redraws@
            &&& s0.same_but_todo(&o)
            &&& #[trigger] batch_done(s0, n, o.todo@, resps)
        }
}

impl OrbitalScheme {
    /// Every field but the deferred requests is equal.
    pub open spec fn same_but_todo(&self, o: &Self) -> bool {
        &&& self.width == o.width
        &&& self.height == o.height
        &&& self.cursor_x == o.cursor_x
        &&& self.cursor_y == o.cursor_y
        &&& self.cursor_w == o.cursor_w
        &&& self.cursor_h == o.cursor_h
        &&& self.dragging == o.dragging
        &&& self.drag_x == o.drag_x
        &&& self.drag_y == o.drag_y
        &&& self.next_id == o.next_id
        &&& self.next_x == o.next_x
        &&& self.next_y == o.next_y
    }

    /// Whether `req` is a read that must wait for input.
    pub fn must_wait(&self, req: &Request) -> (r: bool)
        requires
            self.wf(),
        ensures
            r == waits(*self, *req),
    {
        match req.op {
            Op::Read(_) => match self.find(req.id) {
                Some(i) => self.windows[i].events.len() == 0,
                None => false,
            },
            _ => false,
        }
    }

    /// Carries out one request and answers it.
    pub fn handle(&mut self, req: Request) -> (r: Response)
        requires
            old(self).wf(),
        ensures
            final(self).wf(),
            handled(*old(self), *final(self), req, r),
    {
        let tag = req.tag;
        let id = req.id;
        let result = match req.op {
            Op::Open(p) => match self.open(p.as_str()) {
                Ok(id) => Ok(Reply::Opened(id)),
                Err(e) => Err(e),
            },
            Op::Read(max) => match self.read(id, max) {
                Ok(v) => Ok(Reply::Events(v)),
                Err(e) => Err(e),
            },
            Op::Write(buf) => match self.write(id, buf) {
                Ok(k) => Ok(Reply::Written(k)),
                Err(e) => Err(e),
            },
            Op::Fpath => match self.fpath(id) {
                Ok(v) => Ok(Reply::Path(v)),
                Err(e) => Err(e),
            },
            Op::Close => match self.close(id) {
                Ok(k) => Ok(Reply::Closed(k)),
                Err(e) => Err(e),
            },
        };
        Response { tag, result }
    }

    /// Carries out one request of a batch, or defers it.
    fn step(&mut self, req: Request) -> (r: Option<Response>)
        requires
            old(self).wf(),
        ensures
            final(self).wf(),
            stepped(*old(self), *final(self), req, r),
    {
        proof { reveal(stepped); }
        if self.must_wait(&req) {
            self.todo.push(req);
            None
        } else {
            Some(self.handle(req))
        }
    }

    /// Carries out a batch of requests in order. A read that must wait joins
    /// the deferred list; every other request is answered, in order.
    pub fn process(&mut self, reqs: Vec<Request>) -> (r: Vec<Response>)
        requires
            old(self).wf(),
        ensures
            final(self).wf(),
            batch_done(*old(self), *final(self), reqs@, r@),
    {
        let ghost all = reqs@;
        let ghost mut st: Seq<OrbitalScheme> = seq![*self];
        let ghost mut outs: Seq<Option<Response>> = Seq::empty();
        let mut rest = reqs;
        let mut resps: Vec<Response> = Vec::new();
        while rest.len() > 0
            invariant
                self.wf(),
                outs.len() <= all.len(),
                rest@ == all.skip(outs.len() as int),
                st.len() == outs.len() + 1,
                st[0] == *old(self),
                st.last() == *self,
                forall|k: int| 0 <= k < outs.len() ==> stepped(#[trigger] st[k], st[k + 1], all[k], outs[k]),
                resps@ == answers(outs),
            decreases rest@.len(),
        {
            let req = rest.remove(0);
            let ghost k = outs.len() as int;
            assert(all[k] == req) by {
                assert(all.skip(k)[0] == all[k]);
            }
            let out = self.step(req);
            proof {
                let o2 = outs.push(out);
                assert(o2.drop_last() =~= outs);
                outs = o2;
                st = st.push(*self);
            }
            match out {
                Some(resp) => resps.push(resp),
                None => {},
            }
            assert(rest@ =~= all.skip(outs.len() as int));
        }
        assert(outs.len() == all.len()) by {
            if outs.len() < all.len() {
                assert(all.skip(outs.len() as int).len() > 0);
            }
        }
        assert(batch_trace(*old(self), *self, all, resps@, st, outs));
        resps
    }

    /// Retries every deferred request, answering those that can now be.
    pub fn retry(&mut self) -> (r: Vec<Response>)
        requires
            old(self).wf(),
        ensures
            final(self).wf(),
            retried(*old(self), *final(self), r@),
    {
        let mut pending: Vec<Request> = Vec::new();
        std::mem::swap(&mut self.todo, &mut pending);
        let ghost s0 = *self;
        let r = self.process(pending);
        assert(batch_done(s0, *self, old(self).todo@, r@));
        r
    }

    /// Routes a batch of input events in order, then retries the deferred
    /// requests. Answers the number of process-list hotkeys among the
    /// events and the responses of the retried requests.
    pub fn input_batch(&mut self, evs: &Vec<Event>) -> (r: (usize, Vec<Response>))
        requires
            old(self).wf(),
        ensures
            final(self).wf(),
            exists|mid: OrbitalScheme| #[trigger] events_done(*old(self), mid, evs@, r.0 as int) && retried(mid, *final(self), r.1@),
    {
        let ghost mut st: Seq<OrbitalScheme> = seq![*self];
        let ghost mut hot: Seq<bool> = Seq::empty();
        let mut reports: usize = 0;
        let mut i: usize = 0;
        while i < evs.len()
            invariant
                self.wf(),
                i <= evs@.len(),
                hot.len() == i,
                st.len() == i + 1,
                st[0] == *old(self),
                st.last() == *self,
                forall|k: int| 0 <= k < i ==> routed(#[trigger] st[k], st[k + 1], evs@[k], hot[k]),
                reports == count_true(hot),
                reports <= i,
            decreases evs@.len() - i,
        {
            let h = self.event(evs[i]);
            proof {
                let h2 = hot.push(h);
                assert(h2.drop_last() =~= hot);
                hot = h2;
                st = st.push(*self);
            }
            if h {
                reports = reports + 1;
            }
            i = i + 1;
        }
        assert(events_trace(*old(self), *self, evs@, reports as int, st, hot));
        let ghost mid = *self;
        assert(events_done(*old(self), mid, evs@, reports as int));
        let resps = self.retry();
        assert(retried(mid, *self, resps@));
        let r = (reports, resps);
        assert(events_done(*old(self), mid, evs@, r.0 as int) && retried(mid, *self, r.1@));
        r
    }
}

/// Along a routing trace, each state keeps the deferred requests of the
/// first.
proof fn lemma_trace_keeps_todo(st: Seq<OrbitalScheme>, evs: Seq<Event>, hot: Seq<bool>, k: int)
    requires
        0 <= k < st.len(),
        st.len() == evs.len() + 1,
        hot.len() == evs.len(),
        forall|j: int| 0 <= j < evs.len() ==> routed(#[trigger] st[j], st[j + 1], evs[j], hot[j]),
    ensures
        st[k].todo@ == st[0].todo@,
    decreases k,
{
    if k > 0 {
        lemma_trace_keeps_todo(st, evs, hot, k - 1);
        assert(routed(st[k - 1], st[k], evs[k - 1], hot[k - 1]));
    }
}

/// Routing input events leaves the deferred requests as they are.
proof fn lemma_routing_keeps_todo(s0: OrbitalScheme, s1: OrbitalScheme, evs: Seq<Event>, reports: int)
    requires
        events_done(s0, s1, evs, reports),
    ensures
        s1.todo@ == s0.todo@,
{
    let (st, hot) = choose|st: Seq<OrbitalScheme>, hot: Seq<bool>| #[trigger] events_trace(s0, s1, evs, reports, st, hot);
    lemma_trace_keeps_todo(st, evs, hot, evs.len() as int);
}

/// A read waiting alone for window `req.id` is answered by the next input
/// batch once routing that batch left input queued for the window: the
/// retry answers it, under its tag, with the oldest queued events, and no
/// request waits any more.
pub proof fn lemma_deferred_read_answered(
    o: OrbitalScheme,
    mid: OrbitalScheme,
    n: OrbitalScheme,
    evs: Seq<Event>,
    reports: int,
    resps: Seq<Response>,
    req: Request,
)
    requires
        o.todo@ == seq![req],
        req.op matches Op::Read(max) && max > 0,
        events_done(o, mid, evs, reports),
        retried(mid, n, resps),
        has_id(mid.windows@, req.id),
        mid.windows@[index_of(mid.windows@, req.id)].events@.len() > 0,
    ensures
        resps.len() == 1,
        resps[0].tag == req.tag,
        resps[0].result matches Ok(Reply::Events(v)) && v@.len() > 0
            && v@ == mid.windows@[index_of(mid.windows@, req.id)].events@.take(v@.len() as int),
        n.todo@.len() == 0,
{
    lemma_routing_keeps_todo(o, mid, evs, reports);
    let s0 = choose|s0: OrbitalScheme|
        {
            &&& s0.todo@.len() == 0
            &&& s0.windows@ == mid.windows@
            &&& s0.redraws@ == mid.redraws@
            &&& s0.same_but_todo(&mid)
            &&& #[trigger] batch_done(s0, n, mid.todo@, resps)
        };
    let reqs = mid.todo@;
    let (st, outs) = choose|st: Seq<OrbitalScheme>, outs: Seq<Option<Response>>| #[trigger] batch_trace(s0, n, reqs, resps, st, outs);
    assert(reqs[0] == req);
    assert(stepped(st[0], st[1], reqs[0], outs[0]));
    reveal(stepped);
    assert(!waits(s0, req));
    let resp = outs[0]->Some_0;
    assert(outs[0] is Some);
    assert(outs.drop_last() =~= Seq::<Option<Response>>::empty());
    assert(answers(outs.drop_last()) == Seq::<Response>::empty());
    assert(answers(outs) =~= seq![resp]);
}

} // verus!
