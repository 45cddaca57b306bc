//! The hedged fetch engine's decisions. The race has two phases: a
//! head-start window in which only the preferred (local) gateway runs, and
//! an open phase that races the still-live local task against one task per
//! public gateway. The caller performs the downloads and the waiting and
//! feeds completions in; every record and every transition is decided
//! here.
use vstd::prelude::*;

use crate::bytes::clone_bytes;
use crate::config::SmartIpfsConfig;
use crate::fetch::spec_speed_kbps;
use crate::fetch::speed_kbps;
use crate::records::FetchError;
use crate::records::FetchStats;
use crate::records::LogRecord;
use crate::records::RecordModel;
use crate::records::Strategy;
use crate::records::records_view;

verus! {

// ---------------------------------------------------------------------------
// Events and state
// ---------------------------------------------------------------------------
/// One completion observed in the open phase: a task finished with its
/// download outcome, or was torn down by the host before finishing.
pub enum RaceEvent {
    Finished { local: bool, gateway: Vec<u8>, cid: Vec<u8>, outcome: Result<FetchStats, FetchError> },
    Aborted { error: Vec<u8> },
}

pub open spec fn ev_is_success(ev: RaceEvent) -> bool {
    ev matches RaceEvent::Finished { outcome: Ok(_), .. }
}

pub enum RacePhase {
    HeadStart,
    Open,
    Done,
}

/// The race's state: the message context the records carry, the local
/// gateway and threshold for the head-start records, the public pool size,
/// and the open-phase counters. `failed_count` counts open-phase gateway
/// failures only; a local failure inside the head-start window is recorded
/// but not counted.
pub struct HedgedRace {
    pub subject: Vec<u8>,
    pub mint: Vec<u8>,
    pub cid: Vec<u8>,
    pub local_gateway: Vec<u8>,
    pub fallback_threshold_ms: u64,
    pub public_count: usize,
    pub phase: RacePhase,
    pub pending: usize,
    pub failed_count: u64,
}

pub open spec fn sat_inc(c: u64) -> u64 {
    if c < u64::MAX {
        (c + 1) as u64
    } else {
        c
    }
}

// ---------------------------------------------------------------------------
// The records each step emits
// ---------------------------------------------------------------------------
/// The message context the records carry.
pub ghost struct RaceCtx {
    pub subject: Seq<u8>,
    pub mint: Seq<u8>,
    pub cid: Seq<u8>,
}

impl HedgedRace {
    pub open spec fn ctx(&self) -> RaceCtx {
        RaceCtx { subject: self.subject@, mint: self.mint@, cid: self.cid@ }
    }
}

/// The two records of an open-phase win: the winning gateway's own success
/// record, then the terminal success record with the strategy named after
/// the winner.
pub open spec fn success_records(
    ctx: RaceCtx,
    local: bool,
    gateway: Seq<u8>,
    evcid: Seq<u8>,
    stats: FetchStats,
    failed: u64,
    total_elapsed_ms: u64,
    fallback_elapsed_ms: u64,
) -> Seq<RecordModel> {
    seq![
        RecordModel::GatewaySuccess {
            local,
            gateway,
            cid: evcid,
            bytes: stats.bytes,
            elapsed_ms: stats.elapsed_ms,
        },
        RecordModel::FetchSuccess {
            strategy: if local {
                Strategy::LocalAfterThreshold
            } else {
                Strategy::FallbackToPublic
            },
            subject: ctx.subject,
            mint: ctx.mint,
            cid: ctx.cid,
            gateway,
            bytes: stats.bytes,
            fetch_elapsed_ms: stats.elapsed_ms,
            fallback_elapsed_ms: Some(fallback_elapsed_ms),
            total_elapsed_ms,
            speed_kbps: spec_speed_kbps(stats.bytes, stats.elapsed_ms),
            failed_count: Some(failed),
        },
    ]
}

/// The terminal record when every task has failed.
pub open spec fn terminal_failed_record(
    ctx: RaceCtx,
    total_elapsed_ms: u64,
    failed: u64,
) -> RecordModel {
    RecordModel::FetchFailed {
        subject: ctx.subject,
        mint: ctx.mint,
        cid: ctx.cid,
        total_elapsed_ms,
        failed_count: failed,
    }
}

/// The records one open-phase completion emits, given how many tasks were
/// still pending and how many failures were already recorded: a win's two
/// records; a failure's or abort's own record, with the terminal failure
/// record appended when it was the last task.
pub open spec fn open_step_records(
    ctx: RaceCtx,
    pending: nat,
    failed: u64,
    ev: RaceEvent,
    total_elapsed_ms: u64,
    fallback_elapsed_ms: u64,
) -> Seq<RecordModel> {
    match ev {
        RaceEvent::Finished { local, gateway, cid: evcid, outcome } => match outcome {
            Ok(stats) => success_records(
                ctx,
                local,
                gateway@,
                evcid@,
                stats,
                failed,
                total_elapsed_ms,
                fallback_elapsed_ms,
            ),
            Err(e) => {
                let base = seq![
                    RecordModel::GatewayFailed { local, gateway: gateway@, cid: evcid@, error: e@ },
                ];
                if pending <= 1 {
                    base + seq![terminal_failed_record(ctx, total_elapsed_ms, sat_inc(failed))]
                } else {
                    base
                }
            },
        },
        RaceEvent::Aborted { error } => {
            let base = seq![RecordModel::TaskAbort { cid: ctx.cid, error: error@ }];
            if pending <= 1 {
                base + seq![terminal_failed_record(ctx, total_elapsed_ms, failed)]
            } else {
                base
            }
        },
    }
}

// ---------------------------------------------------------------------------
// The machine
// ---------------------------------------------------------------------------
/// What an open-phase completion led to: the race was won (drop the other
/// tasks), goes on, or is exhausted with every task failed.
pub enum RaceStep {
    Won(Vec<LogRecord>),
    Racing(Vec<LogRecord>),
    Exhausted(Vec<LogRecord>),
}

/// What the head-start window observed of the local task.
pub enum HeadStartStep {
    Finished(Vec<LogRecord>),
    LocalDown(Vec<LogRecord>),
}

/// How the open phase opened: with tasks racing, or exhausted at once
/// because no task was left to run.
pub enum OpenStart {
    Racing(Vec<LogRecord>),
    Exhausted(Vec<LogRecord>),
}

impl HedgedRace {
    /// Starts the race for one image-update message: emits the start
    /// record; the caller then launches the local gateway's download and
    /// the threshold timer.
    pub fn start(cfg: &SmartIpfsConfig, subject: Vec<u8>, mint: Vec<u8>, cid: Vec<u8>) -> (r: (
        Self,
        Vec<LogRecord>,
    ))
        ensures
            r.0.subject@ == subject@,
            r.0.mint@ == mint@,
            r.0.cid@ == cid@,
            r.0.local_gateway@ == cfg.local_gateway@,
            r.0.fallback_threshold_ms == cfg.fallback_threshold_ms,
            r.0.public_count == cfg.public_gateways@.len(),
            r.0.phase is HeadStart,
            r.0.pending == 0,
            r.0.failed_count == 0,
            records_view(r.1) == seq![
                RecordModel::FetchStart {
                    subject: subject@,
                    mint: mint@,
                    cid: cid@,
                    local_gateway: cfg.local_gateway@,
                    fallback_threshold_ms: cfg.fallback_threshold_ms,
                },
            ],
    {
        let mut records: Vec<LogRecord> = Vec::new();
        records.push(
            LogRecord::FetchStart {
                subject: clone_bytes(&subject),
                mint: clone_bytes(&mint),
                cid: clone_bytes(&cid),
                local_gateway: clone_bytes(&cfg.local_gateway),
                fallback_threshold_ms: cfg.fallback_threshold_ms,
            },
        );
        let machine = HedgedRace {
            subject,
            mint,
            cid,
            local_gateway: clone_bytes(&cfg.local_gateway),
            fallback_threshold_ms: cfg.fallback_threshold_ms,
            public_count: cfg.public_gateways.len(),
            phase: RacePhase::HeadStart,
            pending: 0,
            failed_count: 0,
        };
        proof {
            assert(records_view(records) =~= seq![
                RecordModel::FetchStart {
                    subject: machine.subject@,
                    mint: machine.mint@,
                    cid: machine.cid@,
                    local_gateway: cfg.local_gateway@,
                    fallback_threshold_ms: cfg.fallback_threshold_ms,
                },
            ]);
        }
        (machine, records)
    }

    /// The local task completed within the head-start window. A success
    /// ends the race with strategy `local_only` — no public task was ever
    /// launched; a failure records it and leaves the open phase to run
    /// without the local task.
    pub fn on_local_within_window(
        &mut self,
        outcome: Result<FetchStats, FetchError>,
        total_elapsed_ms: u64,
    ) -> (r: HeadStartStep)
        requires
            old(self).phase is HeadStart,
        ensures
            final(self).ctx() == old(self).ctx(),
            final(self).local_gateway@ == old(self).local_gateway@,
            final(self).fallback_threshold_ms == old(self).fallback_threshold_ms,
            final(self).public_count == old(self).public_count,
            outcome matches Ok(stats) ==> final(self).phase is Done && (
            r matches HeadStartStep::Finished(recs) && records_view(recs) == seq![
                RecordModel::FetchSuccess {
                    strategy: Strategy::LocalOnly,
                    subject: old(self).subject@,
                    mint: old(self).mint@,
                    cid: old(self).cid@,
                    gateway: old(self).local_gateway@,
                    bytes: stats.bytes,
                    fetch_elapsed_ms: stats.elapsed_ms,
                    fallback_elapsed_ms: None,
                    total_elapsed_ms,
                    speed_kbps: spec_speed_kbps(stats.bytes, stats.elapsed_ms),
                    failed_count: None,
                },
            ]),
            outcome matches Err(e) ==> final(self).phase is HeadStart && final(self).failed_count
                == old(self).failed_count && (r matches HeadStartStep::LocalDown(recs)
                && records_view(recs) == seq![
                RecordModel::LocalFailedEarly {
                    subject: old(self).subject@,
                    mint: old(self).mint@,
                    cid: old(self).cid@,
                    gateway: old(self).local_gateway@,
                    error: e@,
                    elapsed_ms: total_elapsed_ms,
                },
            ]),
    {
        match outcome {
            Ok(stats) => {
                let speed = speed_kbps(stats.bytes, stats.elapsed_ms);
                let mut recs: Vec<LogRecord> = Vec::new();
                recs.push(
                    LogRecord::FetchSuccess {
                        strategy: Strategy::LocalOnly,
                        subject: clone_bytes(&self.subject),
                        mint: clone_bytes(&self.mint),
                        cid: clone_bytes(&self.cid),
                        gateway: clone_bytes(&self.local_gateway),
                        bytes: stats.bytes,
                        fetch_elapsed_ms: stats.elapsed_ms,
                        fallback_elapsed_ms: None,
                        total_elapsed_ms,
                        speed_kbps: speed,
                        failed_count: None,
                    },
                );
                self.phase = RacePhase::Done;
                proof {
                    assert(records_view(recs) =~= seq![
                        RecordModel::FetchSuccess {
                            strategy: Strategy::LocalOnly,
                            subject: self.subject@,
                            mint: self.mint@,
                            cid: self.cid@,
                            gateway: self.local_gateway@,
                            bytes: stats.bytes,
                            fetch_elapsed_ms: stats.elapsed_ms,
                            fallback_elapsed_ms: None,
                            total_elapsed_ms,
                            speed_kbps: spec_speed_kbps(stats.bytes, stats.elapsed_ms),
                            failed_count: None,
                        },
                    ]);
                }
                HeadStartStep::Finished(recs)
            },
            Err(e) => {
                let mut recs: Vec<LogRecord> = Vec::new();
                recs.push(
                    LogRecord::LocalFailedEarly {
                        subject: clone_bytes(&self.subject),
                        mint: clone_bytes(&self.mint),
                        cid: clone_bytes(&self.cid),
                        gateway: clone_bytes(&self.local_gateway),
                        error: e,
                        elapsed_ms: total_elapsed_ms,
                    },
                );
                proof {
                    assert(records_view(recs) =~= seq![
                        RecordModel::LocalFailedEarly {
                            subject: self.subject@,
                            mint: self.mint@,
                            cid: self.cid@,
                            gateway: self.local_gateway@,
                            error: recs@[0]->LocalFailedEarly_error@,
                            elapsed_ms: total_elapsed_ms,
                        },
                    ]);
                }
                HeadStartStep::LocalDown(recs)
            },
        }
    }

    /// The head-start timer fired with the local task still running:
    /// records that the threshold was exceeded.
    pub fn on_threshold(&mut self) -> (recs: Vec<LogRecord>)
        requires
            old(self).phase is HeadStart,
        ensures
            *final(self) == *old(self),
            records_view(recs) == seq![
                RecordModel::ThresholdExceeded {
                    subject: old(self).subject@,
                    mint: old(self).mint@,
                    cid: old(self).cid@,
                    gateway: old(self).local_gateway@,
                    threshold_ms: old(self).fallback_threshold_ms,
                },
            ],
    {
        let mut recs: Vec<LogRecord> = Vec::new();
        recs.push(
            LogRecord::ThresholdExceeded {
                subject: clone_bytes(&self.subject),
                mint: clone_bytes(&self.mint),
                cid: clone_bytes(&self.cid),
                gateway: clone_bytes(&self.local_gateway),
                threshold_ms: self.fallback_threshold_ms,
            },
        );
        proof {
            assert(records_view(recs) =~= seq![
                RecordModel::ThresholdExceeded {
                    subject: self.subject@,
                    mint: self.mint@,
                    cid: self.cid@,
                    gateway: self.local_gateway@,
                    threshold_ms: self.fallback_threshold_ms,
                },
            ]);
        }
        recs
    }

    /// Opens the race: one task per public gateway, plus the local task
    /// when it is still running. With no task at all — no public gateways
    /// and the local task already failed — the race is exhausted at once.
    pub fn begin_open(&mut self, local_still_running: bool, total_elapsed_ms: u64) -> (r:
        OpenStart)
        requires
            old(self).phase is HeadStart,
            old(self).public_count + 1 <= usize::MAX,
        ensures
            final(self).ctx() == old(self).ctx(),
            final(self).failed_count == old(self).failed_count,
            ({
                let tasks = old(self).public_count + if local_still_running {
                    1int
                } else {
                    0int
                };
                let start = seq![
                    RecordModel::FallbackStart {
                        subject: old(self).subject@,
                        mint: old(self).mint@,
                        cid: old(self).cid@,
                        public_gateways_count: old(self).public_count as u64,
                    },
                ];
                if tasks == 0 {
                    final(self).phase is Done && (r matches OpenStart::Exhausted(recs)
                        && records_view(recs) == start + seq![
                        terminal_failed_record(
                            old(self).ctx(),
                            total_elapsed_ms,
                            old(self).failed_count,
                        ),
                    ])
                } else {
                    final(self).phase is Open && final(self).pending == tasks && (
                    r matches OpenStart::Racing(recs) && records_view(recs) == start)
                }
            }),
    {
        let mut recs: Vec<LogRecord> = Vec::new();
        recs.push(
            LogRecord::FallbackStart {
                subject: clone_bytes(&self.subject),
                mint: clone_bytes(&self.mint),
                cid: clone_bytes(&self.cid),
                public_gateways_count: self.public_count as u64,
            },
        );
        let tasks = if local_still_running {
            self.public_count + 1
        } else {
            self.public_count
        };
        if tasks == 0 {
            self.phase = RacePhase::Done;
            recs.push(
                LogRecord::FetchFailed {
                    subject: clone_bytes(&self.subject),
                    mint: clone_bytes(&self.mint),
                    cid: clone_bytes(&self.cid),
                    total_elapsed_ms,
                    failed_count: self.failed_count,
                },
            );
            proof {
                assert(records_view(recs) =~= seq![
                    RecordModel::FallbackStart {
                        subject: self.subject@,
                        mint: self.mint@,
                        cid: self.cid@,
                        public_gateways_count: self.public_count as u64,
                    },
                ] + seq![terminal_failed_record(self.ctx(), total_elapsed_ms, self.failed_count)]);
            }
            OpenStart::Exhausted(recs)
        } else {
            self.phase = RacePhase::Open;
            self.pending = tasks;
            proof {
                assert(records_view(recs) =~= seq![
                    RecordModel::FallbackStart {
                        subject: self.subject@,
                        mint: self.mint@,
                        cid: self.cid@,
                        public_gateways_count: self.public_count as u64,
                    },
                ]);
            }
            OpenStart::Racing(recs)
        }
    }

    /// Consumes one open-phase completion, emitting exactly the records of
    /// `open_step_records`: a success wins the race and the caller drops
    /// the remaining task handles; a failure or abort takes one pending
    /// task away, and the last one leaving emits the terminal failure.
    pub fn on_completion(
        &mut self,
        ev: RaceEvent,
        total_elapsed_ms: u64,
        fallback_elapsed_ms: u64,
    ) -> (r: RaceStep)
        requires
            old(self).phase is Open,
            old(self).pending >= 1,
        ensures
            final(self).ctx() == old(self).ctx(),
            ({
                let recs_spec = open_step_records(
                    old(self).ctx(),
                    old(self).pending as nat,
                    old(self).failed_count,
                    ev,
                    total_elapsed_ms,
                    fallback_elapsed_ms,
                );
                if ev_is_success(ev) {
                    final(self).phase is Done && (r matches RaceStep::Won(recs) && records_view(
                        recs,
                    ) == recs_spec)
                } else if old(self).pending == 1 {
                    final(self).phase is Done && (r matches RaceStep::Exhausted(recs)
                        && records_view(recs) == recs_spec)
                } else {
                    final(self).phase is Open && final(self).pending == old(self).pending - 1
                        && final(self).failed_count == (match ev {
                        RaceEvent::Finished { .. } => sat_inc(old(self).failed_count),
                        RaceEvent::Aborted { .. } => old(self).failed_count,
                    }) && (r matches RaceStep::Racing(recs) && records_view(recs) == recs_spec)
                }
            }),
    {
        let ghost ev0 = ev;
        match ev {
            RaceEvent::Finished { local, gateway, cid: evcid, outcome } => {
                match outcome {
                    Ok(stats) => {
                        let speed = speed_kbps(stats.bytes, stats.elapsed_ms);
                        let mut recs: Vec<LogRecord> = Vec::new();
                        recs.push(
                            LogRecord::GatewaySuccess {
                                local,
                                gateway: clone_bytes(&gateway),
                                cid: evcid,
                                bytes: stats.bytes,
                                elapsed_ms: stats.elapsed_ms,
                            },
                        );
                        recs.push(
                            LogRecord::FetchSuccess {
                                strategy: if local {
                                    Strategy::LocalAfterThreshold
                                } else {
                                    Strategy::FallbackToPublic
                                },
                                subject: clone_bytes(&self.subject),
                                mint: clone_bytes(&self.mint),
                                cid: clone_bytes(&self.cid),
                                gateway,
                                bytes: stats.bytes,
                                fetch_elapsed_ms: stats.elapsed_ms,
                                fallback_elapsed_ms: Some(fallback_elapsed_ms),
                                total_elapsed_ms,
                                speed_kbps: speed,
                                failed_count: Some(self.failed_count),
                            },
                        );
                        self.phase = RacePhase::Done;
                        proof {
                            assert(records_view(recs) =~= open_step_records(
                                old(self).ctx(),
                                old(self).pending as nat,
                                old(self).failed_count,
                                ev0,
                                total_elapsed_ms,
                                fallback_elapsed_ms,
                            ));
                        }
                        RaceStep::Won(recs)
                    },
                    Err(e) => {
                        let mut recs: Vec<LogRecord> = Vec::new();
                        recs.push(
                            LogRecord::GatewayFailed { local, gateway, cid: evcid, error: e },
                        );
                        self.failed_count = if self.failed_count < u64::MAX {
                            self.failed_count + 1
                        } else {
                            self.failed_count
                        };
                        if self.pending == 1 {
                            self.phase = RacePhase::Done;
                            recs.push(
                                LogRecord::FetchFailed {
                                    subject: clone_bytes(&self.subject),
                                    mint: clone_bytes(&self.mint),
                                    cid: clone_bytes(&self.cid),
                                    total_elapsed_ms,
                                    failed_count: self.failed_count,
                                },
                            );
                            proof {
                                assert(records_view(recs) =~= open_step_records(
                                    old(self).ctx(),
                                    old(self).pending as nat,
                                    old(self).failed_count,
                                    ev0,
                                    total_elapsed_ms,
                                    fallback_elapsed_ms,
                                ));
                            }
                            RaceStep::Exhausted(recs)
                        } else {
                            self.pending = self.pending - 1;
                            proof {
                                assert(records_view(recs) =~= open_step_records(
                                    old(self).ctx(),
                                    old(self).pending as nat,
                                    old(self).failed_count,
                                    ev0,
                                    total_elapsed_ms,
                                    fallback_elapsed_ms,
                                ));
                            }
                            RaceStep::Racing(recs)
                        }
                    },
                }
            },
            RaceEvent::Aborted { error } => {
                let mut recs: Vec<LogRecord> = Vec::new();
                recs.push(LogRecord::TaskAbort { cid: clone_bytes(&self.cid), error });
                if self.pending == 1 {
                    self.phase = RacePhase::Done;
                    recs.push(
                        LogRecord::FetchFailed {
                            subject: clone_bytes(&self.subject),
                            mint: clone_bytes(&self.mint),
                            cid: clone_bytes(&self.cid),
                            total_elapsed_ms,
                            failed_count: self.failed_count,
                        },
                    );
                    proof {
                        assert(records_view(recs) =~= open_step_records(
                            old(self).ctx(),
                            old(self).pending as nat,
                            old(self).failed_count,
                            ev0,
                            total_elapsed_ms,
                            fallback_elapsed_ms,
                        ));
                    }
                    RaceStep::Exhausted(recs)
                } else {
                    self.pending = self.pending - 1;
                    proof {
                        assert(records_view(recs) =~= open_step_records(
                            old(self).ctx(),
                            old(self).pending as nat,
                            old(self).failed_count,
                            ev0,
                            total_elapsed_ms,
                            fallback_elapsed_ms,
                        ));
                    }
                    RaceStep::Racing(recs)
                }
            },
        }
    }
}

} // verus!

verus! {

// ---------------------------------------------------------------------------
// Exactly one terminal record per race
// ---------------------------------------------------------------------------
/// One open-phase completion with the clock readings it was observed at.
pub ghost struct TimedEvent {
    pub ev: RaceEvent,
    pub total_elapsed_ms: u64,
    pub fallback_elapsed_ms: u64,
}

pub open spec fn te_success(te: TimedEvent) -> bool {
    ev_is_success(te.ev)
}

/// The records of a whole open-phase run that consumes the completions in
/// order until a success wins or the last pending task fails: each step
/// emits `open_step_records` under the counters the machine carries.
pub open spec fn open_run_records(
    ctx: RaceCtx,
    pending: nat,
    failed: u64,
    evs: Seq<TimedEvent>,
) -> Seq<RecordModel>
    decreases evs.len(),
{
    if pending == 0 || evs.len() == 0 {
        Seq::empty()
    } else {
        let te = evs[0];
        let head = open_step_records(
            ctx,
            pending,
            failed,
            te.ev,
            te.total_elapsed_ms,
            te.fallback_elapsed_ms,
        );
        if te_success(te) || pending == 1 {
            head
        } else {
            let failed2 = match te.ev {
                RaceEvent::Finished { .. } => sat_inc(failed),
                RaceEvent::Aborted { .. } => failed,
            };
            head + open_run_records(ctx, (pending - 1) as nat, failed2, evs.skip(1))
        }
    }
}

/// How many records of `s` satisfy `p`.
pub open spec fn count_matching(s: Seq<RecordModel>, p: spec_fn(RecordModel) -> bool) -> int
    decreases s.len(),
{
    if s.len() == 0 {
        0
    } else {
        (if p(s[0]) {
            1int
        } else {
            0int
        }) + count_matching(s.skip(1), p)
    }
}

pub open spec fn success_pred() -> spec_fn(RecordModel) -> bool {
    |r: RecordModel| crate::records::is_success_model(r)
}

pub open spec fn failed_pred() -> spec_fn(RecordModel) -> bool {
    |r: RecordModel| crate::records::is_failed_model(r)
}

pub proof fn lemma_count_add(
    a: Seq<RecordModel>,
    b: Seq<RecordModel>,
    p: spec_fn(RecordModel) -> bool,
)
    ensures
        count_matching(a + b, p) == count_matching(a, p) + count_matching(b, p),
    decreases a.len(),
{
    if a.len() == 0 {
        assert(a + b =~= b);
    } else {
        assert((a + b)[0] == a[0]);
        assert((a + b).skip(1) =~= a.skip(1) + b);
        lemma_count_add(a.skip(1), b, p);
    }
}

pub proof fn lemma_count_single(r: RecordModel, p: spec_fn(RecordModel) -> bool)
    ensures
        count_matching(seq![r], p) == if p(r) {
            1int
        } else {
            0int
        },
{
    assert(seq![r].skip(1) =~= Seq::<RecordModel>::empty());
    assert(count_matching(seq![r].skip(1), p) == 0);
}

/// One open-phase completion carries exactly one terminal-success record
/// when it succeeded, and exactly one terminal-failure record when it
/// failed as the last pending task; never both, never more.
pub proof fn lemma_step_terminal_counts(ctx: RaceCtx, pending: nat, failed: u64, te: TimedEvent)
    requires
        pending >= 1,
    ensures
        ({
            let recs = open_step_records(
                ctx,
                pending,
                failed,
                te.ev,
                te.total_elapsed_ms,
                te.fallback_elapsed_ms,
            );
            &&& count_matching(recs, success_pred()) == if te_success(te) {
                1int
            } else {
                0int
            }
            &&& count_matching(recs, failed_pred()) == if !te_success(te) && pending == 1 {
                1int
            } else {
                0int
            }
        }),
{
    let recs = open_step_records(
        ctx,
        pending,
        failed,
        te.ev,
        te.total_elapsed_ms,
        te.fallback_elapsed_ms,
    );
    match te.ev {
        RaceEvent::Finished { local, gateway, cid: evcid, outcome } => {
            match outcome {
                Ok(stats) => {
                    let a = seq![
                        RecordModel::GatewaySuccess {
                            local,
                            gateway: gateway@,
                            cid: evcid@,
                            bytes: stats.bytes,
                            elapsed_ms: stats.elapsed_ms,
                        },
                    ];
                    let b = seq![
                        RecordModel::FetchSuccess {
                            strategy: if local {
                                Strategy::LocalAfterThreshold
                            } else {
                                Strategy::FallbackToPublic
                            },
                            subject: ctx.subject,
                            mint: ctx.mint,
                            cid: ctx.cid,
                            gateway: gateway@,
                            bytes: stats.bytes,
                            fetch_elapsed_ms: stats.elapsed_ms,
                            fallback_elapsed_ms: Some(te.fallback_elapsed_ms),
                            total_elapsed_ms: te.total_elapsed_ms,
                            speed_kbps: spec_speed_kbps(stats.bytes, stats.elapsed_ms),
                            failed_count: Some(failed),
                        },
                    ];
                    assert(recs =~= a + b);
                    lemma_count_add(a, b, success_pred());
                    lemma_count_add(a, b, failed_pred());
                    lemma_count_single(a[0], success_pred());
                    lemma_count_single(a[0], failed_pred());
                    lemma_count_single(b[0], success_pred());
                    lemma_count_single(b[0], failed_pred());
                },
                Err(e) => {
                    let a = seq![
                        RecordModel::GatewayFailed {
                            local,
                            gateway: gateway@,
                            cid: evcid@,
                            error: e@,
                        },
                    ];
                    lemma_count_single(a[0], success_pred());
                    lemma_count_single(a[0], failed_pred());
                    if pending <= 1 {
                        let b = seq![
                            terminal_failed_record(ctx, te.total_elapsed_ms, sat_inc(failed)),
                        ];
                        lemma_count_add(a, b, success_pred());
                        lemma_count_add(a, b, failed_pred());
                        lemma_count_single(b[0], success_pred());
                        lemma_count_single(b[0], failed_pred());
                    }
                },
            }
        },
        RaceEvent::Aborted { error } => {
            let a = seq![RecordModel::TaskAbort { cid: ctx.cid, error: error@ }];
            lemma_count_single(a[0], success_pred());
            lemma_count_single(a[0], failed_pred());
            if pending <= 1 {
                let b = seq![terminal_failed_record(ctx, te.total_elapsed_ms, failed)];
                lemma_count_add(a, b, success_pred());
                lemma_count_add(a, b, failed_pred());
                lemma_count_single(b[0], success_pred());
                lemma_count_single(b[0], failed_pred());
            }
        },
    }
}

/// In any complete open-phase run — at least as many completions observed
/// as tasks were pending — the engine emits exactly one terminal record:
/// one fetch-success record and no fetch-failed record when some
/// completion within reach succeeded, else no fetch-success record and
/// exactly one fetch-failed record.
pub proof fn lemma_open_run_terminal(
    ctx: RaceCtx,
    pending: nat,
    failed: u64,
    evs: Seq<TimedEvent>,
)
    requires
        1 <= pending,
        pending <= evs.len(),
    ensures
        ({
            let recs = open_run_records(ctx, pending, failed, evs);
            if exists|i: int| 0 <= i < pending && #[trigger] te_success(evs[i]) {
                count_matching(recs, success_pred()) == 1 && count_matching(recs, failed_pred())
                    == 0
            } else {
                count_matching(recs, success_pred()) == 0 && count_matching(recs, failed_pred())
                    == 1
            }
        }),
    decreases pending,
{
    let te = evs[0];
    let recs = open_run_records(ctx, pending, failed, evs);
    let head = open_step_records(
        ctx,
        pending,
        failed,
        te.ev,
        te.total_elapsed_ms,
        te.fallback_elapsed_ms,
    );
    lemma_step_terminal_counts(ctx, pending, failed, te);
    if te_success(te) {
        assert(te_success(evs[0]));
    } else if pending == 1 {
        assert(forall|i: int| 0 <= i < pending ==> !te_success(evs[i]));
    } else {
        let failed2 = match te.ev {
            RaceEvent::Finished { .. } => sat_inc(failed),
            RaceEvent::Aborted { .. } => failed,
        };
        let tail = open_run_records(ctx, (pending - 1) as nat, failed2, evs.skip(1));
        assert(recs == head + tail);
        lemma_count_add(head, tail, success_pred());
        lemma_count_add(head, tail, failed_pred());
        lemma_open_run_terminal(ctx, (pending - 1) as nat, failed2, evs.skip(1));
        if exists|i: int| 0 <= i < pending && #[trigger] te_success(evs[i]) {
            let i = choose|i: int| 0 <= i < pending && #[trigger] te_success(evs[i]);
            assert(i >= 1);
            assert(evs.skip(1)[i - 1] == evs[i]);
            assert(te_success(evs.skip(1)[i - 1]));
        } else {
            assert forall|j: int| 0 <= j < pending - 1 implies !te_success(
                #[trigger] evs.skip(1)[j],
            ) by {
                assert(evs.skip(1)[j] == evs[j + 1]);
            }
        }
    }
}

} // verus!
