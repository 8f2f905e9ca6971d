//! How the host drives one request through a guest: instantiate the guest, check
//! the request size, reserve guest memory, copy the request in, run the guest's
//! handler, read the reply back and release the memory.
//!
//! The host performs each step (it runs guest code and reads the clock) and reports
//! what came of it; this state machine decides the next step and the outcome.

use vstd::prelude::*;

verus! {

/// Why a request could not be served by the guest.
pub enum InvokeError {
    /// The guest could not be instantiated; the host's message.
    Instantiate(String),
    /// The request is longer than a guest length (`i32`) can describe.
    RequestTooLarge,
    /// The guest's allocator failed; the host's message.
    Alloc(String),
    /// The request could not be copied into guest memory; the host's message.
    Write(String),
    /// The guest's handler trapped; the host's message.
    Handle(String),
    /// The guest's handler returned this non-zero code.
    GuestCode(i32),
    /// The reply could not be read from guest memory; the host's message.
    Read(String),
    /// The guest could not release its memory; the host's message.
    Dealloc(String),
}

/// The next thing the host does.
pub enum Action {
    /// Instantiate the guest module.
    Instantiate,
    /// Ask the guest to reserve `len` bytes.
    Alloc { len: i32 },
    /// Copy the request into guest memory at `ptr`.
    Write { ptr: i32 },
    /// Run the guest's handler on the `len` bytes at `ptr`.
    Handle { ptr: i32, len: i32 },
    /// Read `count` bytes of reply from guest memory at `ptr`.
    Read { ptr: i32, count: usize },
    /// Ask the guest to release the `len` bytes at `ptr`.
    Dealloc { ptr: i32, len: i32 },
    /// The request is done: the reply, or why there is none.
    Finish(Result<Vec<u8>, InvokeError>),
}

/// What came of the host's last action.
pub enum Event {
    /// The guest was instantiated.
    Instantiated,
    /// The guest reserved memory at this address.
    Allocated(i32),
    /// The request was copied into guest memory.
    Written,
    /// The guest's handler returned this code.
    Handled(i32),
    /// These bytes were read back from guest memory; accepted only when they are as
    /// many as were asked for.
    ReadBack(Vec<u8>),
    /// The guest released its memory.
    Released,
    /// The action failed; the host's message.
    Failed(String),
}

/// Where a request stands.
pub enum Phase {
    /// Waiting for the guest to be instantiated, for a request of `input_len` bytes.
    Instantiating { input_len: usize },
    /// Waiting for the guest to reserve `len` bytes.
    Allocating { len: i32 },
    /// Waiting for the request to be copied to `ptr`.
    Writing { ptr: i32, len: i32 },
    /// Waiting for the guest's handler.
    Handling { ptr: i32, len: i32 },
    /// Releasing guest memory after the handler returned the non-zero `code`.
    Rejecting { code: i32 },
    /// Waiting for the reply to be read.
    Reading { ptr: i32, len: i32 },
    /// Releasing guest memory, with the reply in hand.
    Releasing { reply: Vec<u8> },
    /// The request is done.
    Finished,
}

impl Phase {
    /// The next phase and action after `e`, or `None` where `e` cannot follow the
    /// action that led to this phase.
    pub open spec fn next(self, e: Event) -> Option<(Phase, Action)> {
        match (self, e) {
            (Phase::Instantiating { input_len }, Event::Instantiated) => if input_len
                <= i32::MAX {
                Some(
                    (
                        Phase::Allocating { len: input_len as i32 },
                        Action::Alloc { len: input_len as i32 },
                    ),
                )
            } else {
                Some((Phase::Finished, Action::Finish(Err(InvokeError::RequestTooLarge))))
            },
            (Phase::Instantiating { .. }, Event::Failed(m)) => Some(
                (Phase::Finished, Action::Finish(Err(InvokeError::Instantiate(m)))),
            ),
            (Phase::Allocating { len }, Event::Allocated(ptr)) => Some(
                (Phase::Writing { ptr, len }, Action::Write { ptr }),
            ),
            (Phase::Allocating { .. }, Event::Failed(m)) => Some(
                (Phase::Finished, Action::Finish(Err(InvokeError::Alloc(m)))),
            ),
            (Phase::Writing { ptr, len }, Event::Written) => Some(
                (Phase::Handling { ptr, len }, Action::Handle { ptr, len }),
            ),
            (Phase::Writing { .. }, Event::Failed(m)) => Some(
                (Phase::Finished, Action::Finish(Err(InvokeError::Write(m)))),
            ),
            (Phase::Handling { ptr, len }, Event::Handled(code)) => if code != 0 {
                Some((Phase::Rejecting { code }, Action::Dealloc { ptr, len }))
            } else {
                Some((Phase::Reading { ptr, len }, Action::Read { ptr, count: len as usize }))
            },
            (Phase::Handling { .. }, Event::Failed(m)) => Some(
                (Phase::Finished, Action::Finish(Err(InvokeError::Handle(m)))),
            ),
            (Phase::Rejecting { code }, Event::Released) => Some(
                (Phase::Finished, Action::Finish(Err(InvokeError::GuestCode(code)))),
            ),
            (Phase::Rejecting { code }, Event::Failed(_)) => Some(
                (Phase::Finished, Action::Finish(Err(InvokeError::GuestCode(code)))),
            ),
            (Phase::Reading { ptr, len }, Event::ReadBack(reply)) => if 0 <= len && reply@.len() == len as int {
                Some((Phase::Releasing { reply }, Action::Dealloc { ptr, len }))
            } else {
                None
            },
            (Phase::Reading { .. }, Event::Failed(m)) => Some(
                (Phase::Finished, Action::Finish(Err(InvokeError::Read(m)))),
            ),
            (Phase::Releasing { reply }, Event::Released) => Some(
                (Phase::Finished, Action::Finish(Ok(reply))),
            ),
            (Phase::Releasing { .. }, Event::Failed(m)) => Some(
                (Phase::Finished, Action::Finish(Err(InvokeError::Dealloc(m)))),
            ),
            _ => None,
        }
    }

    /// Whether `e` can follow the action that led to this phase.
    pub open spec fn accepts(self, e: Event) -> bool {
        self.next(e) is Some
    }

    /// How many more actions can follow from this phase, at most.
    pub open spec fn steps_left(self) -> nat {
        match self {
            Phase::Instantiating { .. } => 6,
            Phase::Allocating { .. } => 5,
            Phase::Writing { .. } => 4,
            Phase::Handling { .. } => 3,
            Phase::Reading { .. } => 2,
            Phase::Rejecting { .. } => 1,
            Phase::Releasing { .. } => 1,
            Phase::Finished => 0,
        }
    }

    /// Whether `e` can follow the action that led to this phase.
    pub fn can_accept(&self, e: &Event) -> (r: bool)
        ensures
            r == self.accepts(*e),
    {
        match (self, e) {
            (Phase::Instantiating { .. }, Event::Instantiated) => true,
            (Phase::Allocating { .. }, Event::Allocated(_)) => true,
            (Phase::Writing { .. }, Event::Written) => true,
            (Phase::Handling { .. }, Event::Handled(_)) => true,
            (Phase::Rejecting { .. }, Event::Released) => true,
            (Phase::Reading { len, .. }, Event::ReadBack(reply)) => *len >= 0 && reply.len() == *len as usize,
            (Phase::Releasing { .. }, Event::Released) => true,
            (Phase::Finished, _) => false,
            (_, Event::Failed(_)) => true,
            _ => false,
        }
    }

    /// Takes the host's report `e` of the last action, and decides the next phase
    /// and action.
    pub fn step(self, e: Event) -> (r: (Phase, Action))
        requires
            self.accepts(e),
        ensures
            self.next(e) == Some(r),
    {
        match self {
            Phase::Instantiating { input_len } => match e {
                Event::Instantiated => {
                    if input_len <= i32::MAX as usize {
                        let len = input_len as i32;
                        (Phase::Allocating { len }, Action::Alloc { len })
                    } else {
                        (Phase::Finished, Action::Finish(Err(InvokeError::RequestTooLarge)))
                    }
                },
                Event::Failed(m) => (
                    Phase::Finished,
                    Action::Finish(Err(InvokeError::Instantiate(m))),
                ),
                _ => vstd::pervasive::unreached(),
            },
            Phase::Allocating { len } => match e {
                Event::Allocated(ptr) => (Phase::Writing { ptr, len }, Action::Write { ptr }),
                Event::Failed(m) => (Phase::Finished, Action::Finish(Err(InvokeError::Alloc(m)))),
                _ => vstd::pervasive::unreached(),
            },
            Phase::Writing { ptr, len } => match e {
                Event::Written => (Phase::Handling { ptr, len }, Action::Handle { ptr, len }),
                Event::Failed(m) => (Phase::Finished, Action::Finish(Err(InvokeError::Write(m)))),
                _ => vstd::pervasive::unreached(),
            },
            Phase::Handling { ptr, len } => match e {
                Event::Handled(code) => {
                    if code != 0 {
                        (Phase::Rejecting { code }, Action::Dealloc { ptr, len })
                    } else {
                        (Phase::Reading { ptr, len }, Action::Read { ptr, count: len as usize })
                    }
                },
                Event::Failed(m) => (
                    Phase::Finished,
                    Action::Finish(Err(InvokeError::Handle(m))),
                ),
                _ => vstd::pervasive::unreached(),
            },
            Phase::Rejecting { code } => match e {
                Event::Released => (
                    Phase::Finished,
                    Action::Finish(Err(InvokeError::GuestCode(code))),
                ),
                Event::Failed(_) => (
                    Phase::Finished,
                    Action::Finish(Err(InvokeError::GuestCode(code))),
                ),
                _ => vstd::pervasive::unreached(),
            },
            Phase::Reading { ptr, len } => match e {
                Event::ReadBack(reply) => (Phase::Releasing { reply }, Action::Dealloc { ptr, len }),
                Event::Failed(m) => (Phase::Finished, Action::Finish(Err(InvokeError::Read(m)))),
                _ => vstd::pervasive::unreached(),
            },
            Phase::Releasing { reply } => match e {
                Event::Released => (Phase::Finished, Action::Finish(Ok(reply))),
                Event::Failed(m) => (
                    Phase::Finished,
                    Action::Finish(Err(InvokeError::Dealloc(m))),
                ),
                _ => vstd::pervasive::unreached(),
            },
            Phase::Finished => vstd::pervasive::unreached(),
        }
    }
}

/// The first phase and action for a request of `input_len` bytes.
pub open spec fn start_of(input_len: usize) -> (Phase, Action) {
    (Phase::Instantiating { input_len }, Action::Instantiate)
}

/// Begins a request of `input_len` bytes: the guest is instantiated first.
pub fn start(input_len: usize) -> (r: (Phase, Action))
    ensures
        r == start_of(input_len),
{
    (Phase::Instantiating { input_len }, Action::Instantiate)
}

/// The phase reached from `p` and the actions decided, when the host reports the
/// events `es` one after another; `None` if one of them cannot follow.
pub open spec fn run(p: Phase, es: Seq<Event>) -> Option<(Phase, Seq<Action>)>
    decreases es.len(),
{
    if es.len() == 0 {
        Some((p, Seq::empty()))
    } else {
        match p.next(es[0]) {
            Some((q, a)) => match run(q, es.drop_first()) {
                Some((r, acts)) => Some((r, seq![a] + acts)),
                None => None,
            },
            None => None,
        }
    }
}

/// Every accepted event moves the request strictly closer to its end, and a
/// finished request accepts nothing: a request is done after at most six events.
pub proof fn lemma_progress(p: Phase, e: Event)
    requires
        p.accepts(e),
    ensures
        p.next(e).unwrap().0.steps_left() < p.steps_left(),
        p.steps_left() <= 6,
        p !is Finished,
{
}

/// When every step succeeds and the handler returns 0, the host instantiates the
/// guest, reserves `len` bytes, copies the request to the address it got, runs the
/// handler there, reads `len` bytes back, releases the memory, and answers with
/// exactly the bytes it read.
pub proof fn lemma_successful_request(input_len: usize, ptr: i32, reply: Vec<u8>)
    requires
        input_len <= i32::MAX,
        reply@.len() == input_len,
    ensures
        ({
            let len = input_len as i32;
            run(
                Phase::Instantiating { input_len },
                seq![
                    Event::Instantiated,
                    Event::Allocated(ptr),
                    Event::Written,
                    Event::Handled(0),
                    Event::ReadBack(reply),
                    Event::Released,
                ],
            ) == Some(
                (
                    Phase::Finished,
                    seq![
                        Action::Alloc { len },
                        Action::Write { ptr },
                        Action::Handle { ptr, len },
                        Action::Read { ptr, count: input_len },
                        Action::Dealloc { ptr, len },
                        Action::Finish(Ok(reply)),
                    ],
                ),
            )
        }),
{
    let len = input_len as i32;
    let es = seq![
        Event::Instantiated,
        Event::Allocated(ptr),
        Event::Written,
        Event::Handled(0),
        Event::ReadBack(reply),
        Event::Released,
    ];
    let p0 = Phase::Instantiating { input_len };
    let p1 = Phase::Allocating { len };
    let p2 = Phase::Writing { ptr, len };
    let p3 = Phase::Handling { ptr, len };
    let p4 = Phase::Reading { ptr, len };
    let p5 = Phase::Releasing { reply };
    let e5 = es.drop_first().drop_first().drop_first().drop_first().drop_first();
    assert(e5 =~= seq![Event::Released]);
    assert(e5.drop_first() =~= Seq::<Event>::empty());
    assert(run(Phase::Finished, e5.drop_first()) == Some((Phase::Finished, Seq::<Action>::empty())));
    assert(run(p5, e5) == Some((Phase::Finished, seq![Action::Finish(Ok(reply))]))) by {
        assert(seq![Action::Finish(Ok(reply))] =~= seq![Action::Finish(Ok(reply))] + Seq::<
            Action,
        >::empty());
    }
    let e4 = es.drop_first().drop_first().drop_first().drop_first();
    assert(e4 =~= seq![Event::ReadBack(reply), Event::Released]);
    assert(e4.drop_first() =~= e5);
    let a4 = seq![Action::Dealloc { ptr, len }, Action::Finish(Ok(reply))];
    assert(run(p4, e4) == Some((Phase::Finished, a4))) by {
        assert(a4 =~= seq![Action::Dealloc { ptr, len }] + seq![Action::Finish(Ok(reply))]);
    }
    let e3 = es.drop_first().drop_first().drop_first();
    assert(e3.drop_first() =~= e4);
    assert(e3[0] == Event::Handled(0));
    let a3 = seq![Action::Read { ptr, count: input_len }] + a4;
    assert((len as usize) == input_len);
    assert(run(p3, e3) == Some((Phase::Finished, a3)));
    let e2 = es.drop_first().drop_first();
    assert(e2.drop_first() =~= e3);
    assert(e2[0] == Event::Written);
    let a2 = seq![Action::Handle { ptr, len }] + a3;
    assert(run(p2, e2) == Some((Phase::Finished, a2)));
    let e1 = es.drop_first();
    assert(e1.drop_first() =~= e2);
    assert(e1[0] == Event::Allocated(ptr));
    let a1 = seq![Action::Write { ptr }] + a2;
    assert(run(p1, e1) == Some((Phase::Finished, a1)));
    assert(es[0] == Event::Instantiated);
    let a0 = seq![Action::Alloc { len }] + a1;
    assert(run(p0, es) == Some((Phase::Finished, a0)));
    assert(a0 =~= seq![
        Action::Alloc { len },
        Action::Write { ptr },
        Action::Handle { ptr, len },
        Action::Read { ptr, count: input_len },
        Action::Dealloc { ptr, len },
        Action::Finish(Ok(reply)),
    ]);
}

/// When the handler returns a non-zero code, the host still releases the guest
/// memory, and then answers with that code as the error, whether or not the
/// release succeeded; the reply is never read.
pub proof fn lemma_rejected_request(input_len: usize, ptr: i32, code: i32, last: Event)
    requires
        input_len <= i32::MAX,
        code != 0,
        last is Released || last is Failed,
    ensures
        ({
            let len = input_len as i32;
            run(
                Phase::Instantiating { input_len },
                seq![
                    Event::Instantiated,
                    Event::Allocated(ptr),
                    Event::Written,
                    Event::Handled(code),
                    last,
                ],
            ) == Some(
                (
                    Phase::Finished,
                    seq![
                        Action::Alloc { len },
                        Action::Write { ptr },
                        Action::Handle { ptr, len },
                        Action::Dealloc { ptr, len },
                        Action::Finish(Err(InvokeError::GuestCode(code))),
                    ],
                ),
            )
        }),
{
    let len = input_len as i32;
    let es = seq![
        Event::Instantiated,
        Event::Allocated(ptr),
        Event::Written,
        Event::Handled(code),
        last,
    ];
    let fin = Action::Finish(Err(InvokeError::GuestCode(code)));
    let e4 = es.drop_first().drop_first().drop_first().drop_first();
    assert(e4 =~= seq![last]);
    assert(run(Phase::Finished, e4.drop_first()) == Some((Phase::Finished, Seq::<Action>::empty())));
    let a4 = seq![fin];
    assert(run(Phase::Rejecting { code }, e4) == Some((Phase::Finished, a4))) by {
        assert(a4 =~= seq![fin] + Seq::<Action>::empty());
    }
    let e3 = es.drop_first().drop_first().drop_first();
    assert(e3.drop_first() =~= e4);
    assert(e3[0] == Event::Handled(code));
    let a3 = seq![Action::Dealloc { ptr, len }] + a4;
    assert(run(Phase::Handling { ptr, len }, e3) == Some((Phase::Finished, a3)));
    let e2 = es.drop_first().drop_first();
    assert(e2.drop_first() =~= e3);
    assert(e2[0] == Event::Written);
    let a2 = seq![Action::Handle { ptr, len }] + a3;
    assert(run(Phase::Writing { ptr, len }, e2) == Some((Phase::Finished, a2)));
    let e1 = es.drop_first();
    assert(e1.drop_first() =~= e2);
    assert(e1[0] == Event::Allocated(ptr));
    let a1 = seq![Action::Write { ptr }] + a2;
    assert(run(Phase::Allocating { len }, e1) == Some((Phase::Finished, a1)));
    assert(es[0] == Event::Instantiated);
    let a0 = seq![Action::Alloc { len }] + a1;
    assert(run(Phase::Instantiating { input_len }, es) == Some((Phase::Finished, a0)));
    assert(a0 =~= seq![
        Action::Alloc { len },
        Action::Write { ptr },
        Action::Handle { ptr, len },
        Action::Dealloc { ptr, len },
        fin,
    ]);
}

/// A request longer than `i32::MAX` bytes is refused as too large right after the
/// guest is instantiated, before any guest memory is reserved.
pub proof fn lemma_oversized_request(input_len: usize)
    requires
        input_len > i32::MAX,
    ensures
        run(Phase::Instantiating { input_len }, seq![Event::Instantiated]) == Some(
            (Phase::Finished, seq![Action::Finish(Err(InvokeError::RequestTooLarge))]),
        ),
{
    let es = seq![Event::Instantiated];
    assert(es.drop_first() =~= Seq::<Event>::empty());
    assert(run(Phase::Finished, es.drop_first()) == Some((Phase::Finished, Seq::<Action>::empty())));
    let fin = Action::Finish(Err(InvokeError::RequestTooLarge));
    assert(seq![fin] =~= seq![fin] + Seq::<Action>::empty());
}

/// A failure of any step but the release after a rejection ends the request at
/// once, with the error that names that step and carries the host's message.
pub proof fn lemma_failure_ends_request(p: Phase, m: String)
    requires
        p !is Finished,
    ensures
        p.next(Event::Failed(m)) == Some(
            (
                Phase::Finished,
                Action::Finish(
                    Err(
                        match p {
                            Phase::Instantiating { .. } => InvokeError::Instantiate(m),
                            Phase::Allocating { .. } => InvokeError::Alloc(m),
                            Phase::Writing { .. } => InvokeError::Write(m),
                            Phase::Handling { .. } => InvokeError::Handle(m),
                            Phase::Rejecting { code } => InvokeError::GuestCode(code),
                            Phase::Reading { .. } => InvokeError::Read(m),
                            _ => InvokeError::Dealloc(m),
                        },
                    ),
                ),
            ),
        ),
{
}

/// Whether the last of `acts` answers the request with `reply`.
pub open spec fn ends_with_reply(acts: Seq<Action>, reply: Vec<u8>) -> bool {
    acts.len() > 0 && acts.last() == Action::Finish(Ok(reply))
}

/// One step of a run: the first event is accepted, and the rest of the run goes on
/// from the phase it leads to.
proof fn lemma_run_first(p: Phase, es: Seq<Event>, r: Phase, acts: Seq<Action>)
    requires
        es.len() > 0,
        run(p, es) == Some((r, acts)),
    ensures
        p.accepts(es[0]),
        run(p.next(es[0]).unwrap().0, es.drop_first()) == Some((r, acts.drop_first())),
        acts.len() > 0,
        acts[0] == p.next(es[0]).unwrap().1,
        acts.len() > 1 ==> acts.last() == acts.drop_first().last(),
{
    let (q, a) = p.next(es[0]).unwrap();
    let (r2, rest) = run(q, es.drop_first()).unwrap();
    assert(acts == seq![a] + rest);
    assert(acts.drop_first() =~= rest);
}

/// Nothing follows the end of a request.
proof fn lemma_run_finished(es: Seq<Event>, r: Phase, acts: Seq<Action>)
    requires
        run(Phase::Finished, es) == Some((r, acts)),
    ensures
        es.len() == 0,
        acts.len() == 0,
{
    if es.len() > 0 {
        lemma_run_first(Phase::Finished, es, r, acts);
    }
}

/// From phase `p`, a run that answers with `reply` takes exactly the events of the
/// successful path from there.
proof fn lemma_reply_path_from(p: Phase, es: Seq<Event>, r: Phase, acts: Seq<Action>, reply: Vec<u8>)
    requires
        run(p, es) == Some((r, acts)),
        ends_with_reply(acts, reply),
    ensures
        match p {
            Phase::Instantiating { .. } => exists|ptr: i32|
                es == seq![
                    Event::Instantiated,
                    Event::Allocated(ptr),
                    Event::Written,
                    Event::Handled(0),
                    Event::ReadBack(reply),
                    Event::Released,
                ],
            Phase::Allocating { .. } => exists|ptr: i32|
                es == seq![
                    Event::Allocated(ptr),
                    Event::Written,
                    Event::Handled(0),
                    Event::ReadBack(reply),
                    Event::Released,
                ],
            Phase::Writing { .. } => es == seq![
                Event::Written,
                Event::Handled(0),
                Event::ReadBack(reply),
                Event::Released,
            ],
            Phase::Handling { .. } => es == seq![
                Event::Handled(0),
                Event::ReadBack(reply),
                Event::Released,
            ],
            Phase::Reading { .. } => es == seq![Event::ReadBack(reply), Event::Released],
            Phase::Releasing { reply: held } => es == seq![Event::Released] && held == reply,
            _ => false,
        },
        match p {
            Phase::Instantiating { input_len } => reply@.len() == input_len,
            Phase::Allocating { len } => reply@.len() == len,
            Phase::Writing { len, .. } => reply@.len() == len,
            Phase::Handling { len, .. } => reply@.len() == len,
            Phase::Reading { len, .. } => reply@.len() == len,
            _ => true,
        },
    decreases es.len(),
{
    if es.len() == 0 {
        assert(acts.len() == 0);
        return;
    }
    lemma_run_first(p, es, r, acts);
    let (q, a) = p.next(es[0]).unwrap();
    let tail = es.drop_first();
    if q is Finished {
        lemma_run_finished(tail, r, acts.drop_first());
        assert(acts.len() == 1);
        assert(a == Action::Finish(Ok(reply)));
        assert(es =~= seq![es[0]]);
    } else {
        assert(acts.len() > 1) by {
            if acts.len() == 1 {
                assert(a is Finish);
            }
        }
        lemma_reply_path_from(q, tail, r, acts.drop_first(), reply);
        match p {
            Phase::Instantiating { input_len } => {
                assert(es[0] == Event::Instantiated);
                assert(input_len <= i32::MAX);
                assert(q == Phase::Allocating { len: input_len as i32 });
                let ptr = choose|ptr: i32|
                    tail == seq![
                        Event::Allocated(ptr),
                        Event::Written,
                        Event::Handled(0),
                        Event::ReadBack(reply),
                        Event::Released,
                    ];
                let full = seq![
                    Event::Instantiated,
                    Event::Allocated(ptr),
                    Event::Written,
                    Event::Handled(0),
                    Event::ReadBack(reply),
                    Event::Released,
                ];
                assert(full.drop_first() =~= tail);
                assert(es =~= full);
            },
            Phase::Allocating { .. } => {
                let ptr = es[0]->Allocated_0;
                let full = seq![
                    Event::Allocated(ptr),
                    Event::Written,
                    Event::Handled(0),
                    Event::ReadBack(reply),
                    Event::Released,
                ];
                assert(full.drop_first() =~= tail);
                assert(es =~= full);
            },
            _ => {
                assert(es =~= seq![es[0]] + tail);
            },
        }
    }
}

/// The host answers a request with a reply only after the guest was instantiated,
/// reserved memory, took the request, returned 0 from its handler, gave the reply
/// back and released its memory, in that order and with no other event; and the
/// reply is exactly as long as the request.
pub proof fn lemma_reply_only_after_clean_run(
    input_len: usize,
    es: Seq<Event>,
    r: Phase,
    acts: Seq<Action>,
    reply: Vec<u8>,
)
    requires
        run(Phase::Instantiating { input_len }, es) == Some((r, acts)),
        ends_with_reply(acts, reply),
    ensures
        exists|ptr: i32|
            es == seq![
                Event::Instantiated,
                Event::Allocated(ptr),
                Event::Written,
                Event::Handled(0),
                Event::ReadBack(reply),
                Event::Released,
            ],
        reply@.len() == input_len,
{
    lemma_reply_path_from(Phase::Instantiating { input_len }, es, r, acts, reply);
}

/// No step leads back to the start of a request.
proof fn lemma_next_never_instantiating(p: Phase, e: Event)
    requires
        p.accepts(e),
    ensures
        !(p.next(e).unwrap().0 is Instantiating),
{
}

/// Where a run from phase `p` refuses the request as too large, `p` is the start
/// of a request longer than `i32::MAX` bytes.
proof fn lemma_too_large_source(p: Phase, es: Seq<Event>, r: Phase, acts: Seq<Action>, k: int)
    requires
        run(p, es) == Some((r, acts)),
        0 <= k < acts.len(),
        acts[k] == Action::Finish(Err(InvokeError::RequestTooLarge)),
    ensures
        p matches Phase::Instantiating { input_len } && input_len > i32::MAX,
        k == 0,
    decreases es.len(),
{
    if es.len() == 0 {
        return;
    }
    lemma_run_first(p, es, r, acts);
    let (q, a) = p.next(es[0]).unwrap();
    if k == 0 {
    } else {
        assert(acts.drop_first()[k - 1] == acts[k]);
        lemma_too_large_source(q, es.drop_first(), r, acts.drop_first(), k - 1);
        lemma_next_never_instantiating(p, es[0]);
    }
}

/// Every request begins by instantiating the guest, whatever its length (an empty
/// request too), and it is refused as too large only when it is longer than
/// `i32::MAX` bytes, and then right after instantiation.
pub proof fn lemma_requests_start_by_instantiating(
    input_len: usize,
    es: Seq<Event>,
    r: Phase,
    acts: Seq<Action>,
)
    requires
        run(start_of(input_len).0, es) == Some((r, acts)),
    ensures
        start_of(input_len).1 == Action::Instantiate,
        start_of(input_len).0 == (Phase::Instantiating { input_len }),
        forall|k: int|
            0 <= k < acts.len() && acts[k] == Action::Finish(Err(InvokeError::RequestTooLarge))
                ==> input_len > i32::MAX && k == 0 && es[0] == Event::Instantiated,
{
    assert forall|k: int|
        0 <= k < acts.len() && acts[k] == Action::Finish(
            Err(InvokeError::RequestTooLarge),
        ) implies input_len > i32::MAX && k == 0 && es[0] == Event::Instantiated by {
        lemma_too_large_source(start_of(input_len).0, es, r, acts, k);
        if es.len() > 0 {
            lemma_run_first(start_of(input_len).0, es, r, acts);
        }
    }
}

/// An empty request is served like any other: the guest is instantiated, reserves
/// 0 bytes, runs its handler on them, and the host answers with an empty reply.
pub proof fn lemma_empty_request_is_served(ptr: i32, reply: Vec<u8>)
    requires
        reply@.len() == 0,
    ensures
        start_of(0) == (Phase::Instantiating { input_len: 0 }, Action::Instantiate),
        run(
            start_of(0).0,
            seq![
                Event::Instantiated,
                Event::Allocated(ptr),
                Event::Written,
                Event::Handled(0),
                Event::ReadBack(reply),
                Event::Released,
            ],
        ) == Some(
            (
                Phase::Finished,
                seq![
                    Action::Alloc { len: 0 },
                    Action::Write { ptr },
                    Action::Handle { ptr, len: 0 },
                    Action::Read { ptr, count: 0 },
                    Action::Dealloc { ptr, len: 0 },
                    Action::Finish(Ok(reply)),
                ],
            ),
        ),
{
    lemma_successful_request(0, ptr, reply);
}

} // verus!
