//! The dispatch engine.
//!
//! A session owns an ordered list of live handlers. Every decoded event is
//! offered to each handler in registration order; handlers may emit
//! effects, plug new handlers (appended after the pass), and retire
//! themselves. The engine owns the shared pieces handlers draw on: slot
//! numbers, the separator line, and the shared log windows.

use vstd::prelude::*;
use vstd::string::StringExecFns;

use crate::action::Action;
use crate::effect::{BarStyle, Effect, StyleTemplate, SummaryLine, spec_no_printlns, spec_no_printlns_from};
use crate::handlers::Handler;

verus! {

/// Whether a handler stays subscribed after an event.
#[derive(Clone, Copy, Debug, PartialEq, Eq, Structural)]
pub enum HandlerResult {
    Continue,
    Close,
}

/// The configuration the engine cares about.
#[derive(Clone, Copy, Debug, PartialEq, Eq, Structural)]
pub struct SessionConfig {
    /// Show the gauge of live handlers and parsed lines.
    pub debug: bool,
    /// Print a summary line when a download finishes.
    pub summary_download: bool,
    /// How many display lines a shared log window holds.
    pub log_window_size: u16,
}

/// A shared rolling window of recent log lines: display slots paired with
/// the text each one currently shows.
#[derive(Debug)]
pub struct LogWindow(pub Vec<(u64, String)>);

/// What the window shows after one more line arrives: every line whose
/// successor shows something takes that successor's text over, and the
/// last line takes the new text.
pub open spec fn spec_window_shift(lines: Seq<(u64, String)>, msg: String) -> Seq<(u64, String)> {
    Seq::new(
        lines.len(),
        |i: int|
            if i == lines.len() - 1 {
                (lines[i].0, msg)
            } else if lines[i + 1].1@.len() != 0 {
                (lines[i].0, lines[i + 1].1)
            } else {
                lines[i]
            },
    )
}

/// The redraw ticks of one shared window's display lines, in order; an
/// unknown window number yields none.
pub open spec fn spec_window_ticks(windows: Seq<LogWindow>, w: int) -> Seq<Effect> {
    if 0 <= w < windows.len() {
        Seq::new(windows[w].0@.len(), |i: int| Effect::Tick { slot: windows[w].0@[i].0 })
    } else {
        Seq::empty()
    }
}

/// What the handlers currently running share and mutate while one event is
/// dispatched: slot numbering, the separator, the log windows, and the
/// effects and newly plugged handlers collected during the pass.
pub struct Ctx {
    pub term_size: u16,
    pub summary_download: bool,
    pub log_window_size: u16,
    /// Handler-list length after the previous pass, for the debug gauge.
    pub handlers_gauge: u64,
    pub next_slot: u64,
    pub separator: bool,
    pub windows: Vec<LogWindow>,
    pub effects: Vec<Effect>,
    pub plugged: Vec<Handler>,
}

impl Ctx {
    /// Nothing this context carries across passes was touched: only
    /// effects and plugged handlers may have grown.
    pub open spec fn only_grew(pre: Ctx, post: Ctx) -> bool {
        post.term_size == pre.term_size && post.summary_download == pre.summary_download
            && post.log_window_size == pre.log_window_size && post.handlers_gauge
            == pre.handlers_gauge && pre.effects@.is_prefix_of(post.effects@)
            && pre.plugged@.is_prefix_of(post.plugged@)
    }

    /// Prints one finished line above the live display.
    pub fn println(&mut self, line: SummaryLine)
        ensures
            *final(self) == (Ctx { effects: final(self).effects, ..*old(self) }),
            final(self).effects@ == old(self).effects@.push(Effect::Println { line }),
    {
        self.effects.push(Effect::Println { line });
    }

    /// Allocates a display line. The first allocation of a session also
    /// puts the separator up, above everything else.
    pub fn alloc_bar(&mut self, style: BarStyle) -> (slot: u64)
        ensures
            slot == old(self).next_slot,
            final(self).next_slot == old(self).next_slot.saturating_add(1),
            final(self).separator,
            final(self).effects@ == if old(self).separator {
                old(self).effects@.push(Effect::CreateBar { slot, style })
            } else {
                old(self).effects@.push(Effect::CreateSeparator).push(
                    Effect::CreateBar { slot, style },
                )
            },
            *final(self) == (Ctx {
                next_slot: final(self).next_slot,
                separator: true,
                effects: final(self).effects,
                ..*old(self)
            }),
    {
        if !self.separator {
            self.separator = true;
            self.effects.push(Effect::CreateSeparator);
        }
        let slot = self.next_slot;
        self.next_slot = self.next_slot.saturating_add(1);
        self.effects.push(Effect::CreateBar { slot, style });
        slot
    }

    /// Registers a handler for the passes after this one.
    pub fn plug(&mut self, handler: Handler)
        ensures
            *final(self) == (Ctx { plugged: final(self).plugged, ..*old(self) }),
            final(self).plugged@ == old(self).plugged@.push(handler),
    {
        self.plugged.push(handler);
    }

    /// Takes the separator line down.
    pub fn remove_separator(&mut self)
        ensures
            *final(self) == (Ctx {
                separator: false,
                effects: final(self).effects,
                ..*old(self)
            }),
            final(self).effects@ == old(self).effects@.push(Effect::RemoveSeparator),
    {
        self.separator = false;
        self.effects.push(Effect::RemoveSeparator);
    }

    /// Opens a shared log window of the configured height: its display
    /// lines sit under the bar that was allocated just before it, each
    /// showing nothing yet. Gives the window's number.
    pub fn window_new(&mut self) -> (w: usize)
        ensures
            w == old(self).windows@.len(),
            final(self).windows@.len() == old(self).windows@.len() + 1,
            final(self).windows@.take(w as int) == old(self).windows@,
            final(self).windows@[w as int].0@.len() == old(self).log_window_size as int,
            forall|i: int|
                0 <= i < final(self).windows@[w as int].0@.len()
                    ==> (#[trigger] final(self).windows@[w as int].0@[i]).1@.len() == 0,
            final(self).separator,
            final(self).next_slot >= old(self).next_slot,
            old(self).effects@.is_prefix_of(final(self).effects@),
            final(self).plugged@ == old(self).plugged@,
            spec_no_printlns_from(final(self).effects@, old(self).effects@.len() as int),
            *final(self) == (Ctx {
                next_slot: final(self).next_slot,
                separator: true,
                windows: final(self).windows,
                effects: final(self).effects,
                ..*old(self)
            }),
    {
        let n = self.log_window_size;
        let mut lines: Vec<(u64, String)> = Vec::new();
        let ghost fx0 = self.effects@;
        let mut k: u16 = 0;
        while k < n
            invariant
                k <= n,
                lines@.len() == k as nat,
                forall|i: int| 0 <= i < k ==> (#[trigger] lines@[i]).1@.len() == 0,
                old(self).separator ==> self.separator,
                self.next_slot >= old(self).next_slot,
                spec_no_printlns_from(self.effects@, fx0.len() as int),
                fx0.is_prefix_of(self.effects@),
                *self == (Ctx {
                    next_slot: self.next_slot,
                    separator: self.separator,
                    effects: self.effects,
                    ..*old(self)
                }),
                fx0 == old(self).effects@,
            decreases n - k,
        {
            let last = k + 1 == n;
            let slot = self.alloc_bar(
                BarStyle {
                    template: StyleTemplate::LogLine { last },
                    width: self.term_size,
                },
            );
            lines.push((slot, String::new()));
            k = k + 1;
        }
        if !self.separator {
            self.separator = true;
            self.effects.push(Effect::CreateSeparator);
        }
        let w = self.windows.len();
        self.windows.push(LogWindow(lines));
        proof {
            assert(final(self).windows@.take(w as int) =~= old(self).windows@);
            crate::effect::lemma_prefix(old(self).effects@, final(self).effects@);
        }
        w
    }

    /// Adds one line to a shared log window: older lines shift up, the new
    /// one takes the bottom display line. An unknown window number does
    /// nothing.
    pub fn window_log(&mut self, w: usize, msg: String)
        ensures
            final(self).windows@.len() == old(self).windows@.len(),
            w < old(self).windows@.len() ==> final(self).windows@ == old(self).windows@.update(
                w as int,
                LogWindow(final(self).windows@[w as int].0),
            ) && final(self).windows@[w as int].0@ == spec_window_shift(
                old(self).windows@[w as int].0@,
                msg,
            ),
            w >= old(self).windows@.len() ==> final(self).windows@ == old(self).windows@,
            old(self).effects@.is_prefix_of(final(self).effects@),
            final(self).plugged@ == old(self).plugged@,
            spec_no_printlns_from(final(self).effects@, old(self).effects@.len() as int),
            *final(self) == (Ctx {
                windows: final(self).windows,
                effects: final(self).effects,
                ..*old(self)
            }),
    {
        if w >= self.windows.len() {
            proof {
                crate::effect::lemma_prefix(old(self).effects@, final(self).effects@);
            }
            return ;
        }
        let ghost pre = self.windows@[w as int].0@;
        let ghost fx0 = self.effects@;
        let len = self.windows[w].0.len();
        let mut fresh: Vec<(u64, String)> = Vec::new();
        let mut i: usize = 0;
        while i < len
            invariant
                w < self.windows@.len(),
                i <= len,
                len == pre.len(),
                pre == self.windows@[w as int].0@,
                fresh@.len() == i as nat,
                forall|j: int|
                    0 <= j < i ==> #[trigger] fresh@[j] == spec_window_shift(pre, msg)[j],
                spec_no_printlns_from(self.effects@, fx0.len() as int),
                fx0.is_prefix_of(self.effects@),
                fx0 == old(self).effects@,
                *self == (Ctx { effects: self.effects, ..*old(self) }),
            decreases len - i,
        {
            let slot = self.windows[w].0[i].0;
            if i + 1 == len {
                fresh.push((slot, msg.clone()));
                self.effects.push(Effect::SetMessage { slot, text: msg.clone() });
            } else if self.windows[w].0[i + 1].1.as_str().unicode_len() != 0 {
                let text = self.windows[w].0[i + 1].1.clone();
                fresh.push((slot, text.clone()));
                self.effects.push(Effect::SetMessage { slot, text });
            } else {
                let kept = self.windows[w].0[i].1.clone();
                fresh.push((slot, kept));
            }
            i = i + 1;
        }
        proof {
            assert(fresh@ =~= spec_window_shift(pre, msg));
        }
        self.windows.set(w, LogWindow(fresh));
    }

    /// Redraws a window's lines, typically after a resize: one tick per
    /// display line, in order. An unknown window number does nothing.
    pub fn window_tick(&mut self, w: usize)
        ensures
            final(self).effects@ == old(self).effects@ + spec_window_ticks(
                old(self).windows@,
                w as int,
            ),
            *final(self) == (Ctx { effects: final(self).effects, ..*old(self) }),
            old(self).effects@.is_prefix_of(final(self).effects@),
    {
        if w >= self.windows.len() {
            proof {
                assert(final(self).effects@ =~= old(self).effects@ + spec_window_ticks(
                    old(self).windows@,
                    w as int,
                ));
                crate::effect::lemma_prefix(old(self).effects@, final(self).effects@);
            }
            return ;
        }
        let ghost fx0 = self.effects@;
        let len = self.windows[w].0.len();
        let mut i: usize = 0;
        while i < len
            invariant
                w < self.windows@.len(),
                i <= len,
                len == self.windows@[w as int].0@.len(),
                self.effects@.len() == fx0.len() + i,
                forall|j: int|
                    0 <= j < i ==> #[trigger] self.effects@[fx0.len() + j] == (Effect::Tick {
                        slot: self.windows@[w as int].0@[j].0,
                    }),
                fx0.is_prefix_of(self.effects@),
                fx0 == old(self).effects@,
                *self == (Ctx { effects: self.effects, ..*old(self) }),
            decreases len - i,
        {
            let slot = self.windows[w].0[i].0;
            self.effects.push(Effect::Tick { slot });
            i = i + 1;
            proof {
                crate::effect::lemma_prefix(fx0, self.effects@);
            }
        }
        proof {
            assert forall|j: int|
                0 <= j < len implies self.effects@[fx0.len() + j] == spec_window_ticks(
                old(self).windows@,
                w as int,
            )[j] by {
                assert(self.effects@[fx0.len() + j] == (Effect::Tick {
                    slot: self.windows@[w as int].0@[j].0,
                }));
            }
            assert forall|k: int| 0 <= k < fx0.len() implies self.effects@[k] == fx0[k] by {
                assert(fx0 =~= self.effects@.subrange(0, fx0.len() as int));
                assert(fx0[k] == self.effects@.subrange(0, fx0.len() as int)[k]);
            }
            assert(self.effects@ =~= old(self).effects@ + spec_window_ticks(
                old(self).windows@,
                w as int,
            ));
        }
    }
}

/// The identities that survive one event, in their original order.
pub open spec fn spec_kept_ids(s: Seq<Handler>, a: Action) -> Seq<crate::handlers::HandlerId>
    decreases s.len(),
{
    if s.len() == 0 {
        Seq::empty()
    } else {
        (if crate::handlers::spec_keeps(crate::handlers::spec_hid(s[0]), a) {
            seq![crate::handlers::spec_hid(s[0])]
        } else {
            Seq::empty()
        }) + spec_kept_ids(s.skip(1), a)
    }
}

/// The identities the whole list plugs on one event, in plugging order.
pub open spec fn spec_plugged_ids(s: Seq<Handler>, a: Action) -> Seq<crate::handlers::HandlerId>
    decreases s.len(),
{
    if s.len() == 0 {
        Seq::empty()
    } else {
        crate::handlers::spec_plug_ids(crate::handlers::spec_hid(s[0]), a) + spec_plugged_ids(
            s.skip(1),
            a,
        )
    }
}

/// On a stop that no handler of the list owns, everything survives.
pub proof fn lemma_kept_all(s: Seq<Handler>, a: Action)
    requires
        forall|j: int|
            0 <= j < s.len() ==> crate::handlers::spec_keeps(
                crate::handlers::spec_hid(#[trigger] s[j]),
                a,
            ),
    ensures
        spec_kept_ids(s, a) == crate::handlers::spec_hids(s),
    decreases s.len(),
{
    if s.len() > 0 {
        assert forall|j: int| 0 <= j < s.skip(1).len() implies crate::handlers::spec_keeps(
            crate::handlers::spec_hid(#[trigger] s.skip(1)[j]),
            a,
        ) by {
            assert(s.skip(1)[j] == s[j + 1]);
        }
        lemma_kept_all(s.skip(1), a);
        assert(spec_kept_ids(s, a) =~= crate::handlers::spec_hids(s));
    } else {
        assert(spec_kept_ids(s, a) =~= crate::handlers::spec_hids(s));
    }
}

/// A stop plugs nothing, wherever it lands.
pub proof fn lemma_plugged_stop_empty(s: Seq<Handler>, a: Action)
    requires
        a is Stop,
    ensures
        spec_plugged_ids(s, a) == Seq::<crate::handlers::HandlerId>::empty(),
    decreases s.len(),
{
    if s.len() > 0 {
        lemma_plugged_stop_empty(s.skip(1), a);
        assert(spec_plugged_ids(s, a) =~= Seq::<crate::handlers::HandlerId>::empty());
    } else {
        assert(spec_plugged_ids(s, a) =~= Seq::<crate::handlers::HandlerId>::empty());
    }
}

/// One resize pass over a handler list: each handler in turn appends
/// exactly the redraw effects its kind owes, and nothing else.
pub open spec fn spec_resize_pass(
    hs: Seq<Handler>,
    width: u16,
    windows: Seq<LogWindow>,
    fx0: Seq<Effect>,
    fx1: Seq<Effect>,
) -> bool
    decreases hs.len(),
{
    if hs.len() == 0 {
        fx1 == fx0
    } else {
        exists|mid: Seq<Effect>|
            #![auto]
            crate::handlers::spec_resize_fx(hs[0], width, windows, fx0, mid) && spec_resize_pass(
                hs.skip(1),
                width,
                windows,
                mid,
                fx1,
            )
    }
}

/// A pass followed by one more handler's redraws is a pass over the list
/// with that handler appended.
pub proof fn lemma_resize_pass_snoc(
    hs: Seq<Handler>,
    x: Handler,
    width: u16,
    windows: Seq<LogWindow>,
    f0: Seq<Effect>,
    f1: Seq<Effect>,
    f2: Seq<Effect>,
)
    requires
        spec_resize_pass(hs, width, windows, f0, f1),
        crate::handlers::spec_resize_fx(x, width, windows, f1, f2),
    ensures
        spec_resize_pass(hs.push(x), width, windows, f0, f2),
    decreases hs.len(),
{
    if hs.len() == 0 {
        assert(hs.push(x)[0] == x);
        assert(hs.push(x).skip(1) =~= Seq::<Handler>::empty());
        assert(spec_resize_pass(hs.push(x).skip(1), width, windows, f2, f2));
    } else {
        let mid = choose|mid: Seq<Effect>|
            #![auto]
            crate::handlers::spec_resize_fx(hs[0], width, windows, f0, mid) && spec_resize_pass(
                hs.skip(1),
                width,
                windows,
                mid,
                f1,
            );
        lemma_resize_pass_snoc(hs.skip(1), x, width, windows, mid, f1, f2);
        assert(hs.push(x).skip(1) =~= hs.skip(1).push(x));
        assert(hs.push(x)[0] == hs[0]);
    }
}

/// One dispatch pass over a handler list: each handler in turn takes one
/// step under its contract — identity kept, context only grown, plugs and
/// survival decided by its identity, stops it does not own left silent.
pub open spec fn spec_event_pass(hs: Seq<Handler>, a: Action, c0: Ctx, c1: Ctx) -> bool
    decreases hs.len(),
{
    if hs.len() == 0 {
        c1 == c0
    } else {
        exists|mid: Ctx, hid2: crate::handlers::HandlerId, res: HandlerResult|
            #![auto]
            crate::handlers::spec_step_ok(
                crate::handlers::spec_hid(hs[0]),
                hid2,
                a,
                c0,
                mid,
                res,
            ) && spec_event_pass(hs.skip(1), a, mid, c1)
    }
}

/// A pass followed by one more handler's step is a pass over the list with
/// that handler appended.
pub proof fn lemma_event_pass_snoc(
    hs: Seq<Handler>,
    x: Handler,
    a: Action,
    c0: Ctx,
    c1: Ctx,
    c2: Ctx,
    hid2: crate::handlers::HandlerId,
    res: HandlerResult,
)
    requires
        spec_event_pass(hs, a, c0, c1),
        crate::handlers::spec_step_ok(crate::handlers::spec_hid(x), hid2, a, c1, c2, res),
    ensures
        spec_event_pass(hs.push(x), a, c0, c2),
    decreases hs.len(),
{
    if hs.len() == 0 {
        assert(hs.push(x)[0] == x);
        assert(hs.push(x).skip(1) =~= Seq::<Handler>::empty());
        assert(spec_event_pass(hs.push(x).skip(1), a, c2, c2));
    } else {
        let (mid, h2, r2) = choose|mid: Ctx, h2: crate::handlers::HandlerId, r2: HandlerResult|
            #![auto]
            crate::handlers::spec_step_ok(
                crate::handlers::spec_hid(hs[0]),
                h2,
                a,
                c0,
                mid,
                r2,
            ) && spec_event_pass(hs.skip(1), a, mid, c1);
        lemma_event_pass_snoc(hs.skip(1), x, a, mid, c1, c2, hid2, res);
        assert(hs.push(x).skip(1) =~= hs.skip(1).push(x));
        assert(hs.push(x)[0] == hs[0]);
    }
}

/// No surviving identity owns the stop that was just delivered.
pub proof fn lemma_kept_not_owning(s: Seq<Handler>, a: Action, id: crate::action::BuildStepId)
    requires
        a == (Action::Stop { id }),
    ensures
        forall|k: int|
            0 <= k < spec_kept_ids(s, a).len() ==> !crate::handlers::spec_owns(
                #[trigger] spec_kept_ids(s, a)[k],
                id,
            ),
    decreases s.len(),
{
    if s.len() > 0 {
        lemma_kept_not_owning(s.skip(1), a, id);
        let head: Seq<crate::handlers::HandlerId> = if crate::handlers::spec_keeps(
            crate::handlers::spec_hid(s[0]),
            a,
        ) {
            seq![crate::handlers::spec_hid(s[0])]
        } else {
            Seq::empty()
        };
        assert forall|k: int|
            0 <= k < spec_kept_ids(s, a).len() implies !crate::handlers::spec_owns(
            #[trigger] spec_kept_ids(s, a)[k],
            id,
        ) by {
            if k >= head.len() {
                assert(spec_kept_ids(s, a)[k] == spec_kept_ids(s.skip(1), a)[k - head.len()]);
            }
        }
    }
}

/// One session of the dispatch engine: the ordered list of live handlers
/// and the shared pieces they draw on.
pub struct State {
    pub config: SessionConfig,
    pub handlers: Vec<Handler>,
    pub term_size: u16,
    pub next_slot: u64,
    pub separator: bool,
    pub windows: Vec<LogWindow>,
    /// Length of the handler list after the previous pass.
    pub handlers_len: u64,
}

impl State {
    /// Seeds a session: the always-on factory handlers, preceded by the
    /// debug gauge when asked for (whose display line is the session's
    /// first effect).
    pub fn new(config: SessionConfig, term_size: u16) -> (r: (State, Vec<Effect>))
        ensures
            crate::handlers::spec_hids(r.0.handlers@) == (
            if config.debug {
                seq![crate::handlers::HandlerId::Debug]
            } else {
                Seq::empty()
            }) + seq![
                crate::handlers::HandlerId::NewBuild,
                crate::handlers::HandlerId::NewBuildsGroup,
                crate::handlers::HandlerId::NewDownload,
                crate::handlers::HandlerId::NewDownloadsGroup,
                crate::handlers::HandlerId::NewMessage,
                crate::handlers::HandlerId::NewUnknown,
            ],
            r.0.config == config,
            r.0.term_size == term_size,
            r.0.handlers_len == r.0.handlers@.len(),
            r.0.windows@.len() == 0,
            spec_no_printlns(r.1@),
    {
        let mut handlers: Vec<Handler> = Vec::new();
        let mut effects: Vec<Effect> = Vec::new();
        let mut next_slot: u64 = 0;
        let mut separator = false;
        if config.debug {
            effects.push(Effect::CreateSeparator);
            separator = true;
            let style = BarStyle { template: StyleTemplate::DebugGauge, width: term_size };
            effects.push(Effect::CreateBar { slot: 0, style });
            handlers.push(
                Handler::Debug(crate::handlers::DebugHandler { slot: 0, nb_lines: 0, max_len: 0 }),
            );
            next_slot = 1;
        }
        handlers.push(Handler::NewBuild);
        handlers.push(Handler::NewBuildsGroup);
        handlers.push(Handler::NewDownload);
        handlers.push(Handler::NewDownloadsGroup);
        handlers.push(Handler::NewMessage);
        handlers.push(Handler::NewUnknown);
        let n = handlers.len() as u64;
        proof {
            assert(crate::handlers::spec_hids(handlers@) =~= (
            if config.debug {
                seq![crate::handlers::HandlerId::Debug]
            } else {
                Seq::<crate::handlers::HandlerId>::empty()
            }) + seq![
                crate::handlers::HandlerId::NewBuild,
                crate::handlers::HandlerId::NewBuildsGroup,
                crate::handlers::HandlerId::NewDownload,
                crate::handlers::HandlerId::NewDownloadsGroup,
                crate::handlers::HandlerId::NewMessage,
                crate::handlers::HandlerId::NewUnknown,
            ]);
        }
        (
            State {
                config,
                handlers,
                term_size,
                next_slot,
                separator,
                windows: Vec::new(),
                handlers_len: n,
            },
            effects,
        )
    }

    /// Dispatches one event to every live handler, in registration order,
    /// after redraw hooks when the terminal width changed.
    ///
    /// The contract carries the engine's standing guarantees. The
    /// surviving handlers keep their registration order and the newly
    /// plugged ones follow them, in plugging order. After a stop, no live
    /// handler owns the stopped id any more. A stop that no live handler
    /// owned — a second stop of the same id in particular — prints nothing
    /// and leaves the handler list as it was. When the width changed, the
    /// output opens with a printless redraw pass over every handler, in
    /// list order, before any event effect; when it did not, the output
    /// opens with the separator tick alone. And the whole output, with the
    /// session state left behind, is one dispatch pass: each old handler
    /// stepped once under its contract, in order.
    pub fn handle(&mut self, action: &Action, term_size: u16) -> (out: Vec<Effect>)
        ensures
            crate::handlers::spec_hids(final(self).handlers@) == spec_kept_ids(
                old(self).handlers@,
                *action,
            ) + spec_plugged_ids(old(self).handlers@, *action),
            (match *action {
                Action::Stop { id } => forall|k: int|
                    0 <= k < final(self).handlers@.len() ==> !crate::handlers::spec_owns(
                        crate::handlers::spec_hid(#[trigger] final(self).handlers@[k]),
                        id,
                    ),
                _ => true,
            }),
            (match *action {
                Action::Stop { id } => (forall|k: int|
                    0 <= k < old(self).handlers@.len() ==> !crate::handlers::spec_owns(
                        crate::handlers::spec_hid(#[trigger] old(self).handlers@[k]),
                        id,
                    )) ==> (spec_no_printlns(out@) && crate::handlers::spec_hids(
                    final(self).handlers@,
                ) == crate::handlers::spec_hids(old(self).handlers@)),
                _ => true,
            }),
            final(self).handlers_len == final(self).handlers@.len(),
            final(self).config == old(self).config,
            final(self).term_size == term_size,
            term_size != old(self).term_size ==> (exists|k: int|
                #![auto]
                0 <= k <= out@.len() && spec_no_printlns(out@.take(k)) && spec_resize_pass(
                    old(self).handlers@,
                    term_size,
                    old(self).windows@,
                    Seq::empty(),
                    out@.take(k),
                )),
            (term_size == old(self).term_size && old(self).separator) ==> out@.len() >= 1
                && out@[0] == Effect::TickSeparator,
            (exists|cs: Ctx, ce: Ctx|
                #![auto]
                cs.effects@.is_prefix_of(out@) && spec_no_printlns(cs.effects@) && cs.windows@
                    == old(self).windows@ && cs.next_slot == old(self).next_slot
                    && cs.plugged@.len() == 0 && cs.term_size == term_size && ce.effects@ == out@
                    && final(self).windows@ == ce.windows@ && final(self).next_slot == ce.next_slot
                    && final(self).separator == ce.separator && spec_event_pass(
                    old(self).handlers@,
                    *action,
                    cs,
                    ce,
                )),
    {
        let resized = term_size != self.term_size;
        self.term_size = term_size;
        let mut windows: Vec<LogWindow> = Vec::new();
        core::mem::swap(&mut windows, &mut self.windows);
        let mut ctx = Ctx {
            term_size,
            summary_download: self.config.summary_download,
            log_window_size: self.config.log_window_size,
            handlers_gauge: self.handlers_len,
            next_slot: self.next_slot,
            separator: self.separator,
            windows,
            effects: Vec::new(),
            plugged: Vec::new(),
        };
        let mut old_handlers: Vec<Handler> = Vec::new();
        core::mem::swap(&mut old_handlers, &mut self.handlers);
        let ghost orig = old_handlers@;

        let ghost windows0 = ctx.windows@;
        if resized {
            let n = old_handlers.len();
            proof {
                assert(orig.take(0) =~= Seq::<Handler>::empty());
            }
            for i in 0..n
                invariant
                    n == old_handlers@.len(),
                    old_handlers@ == orig,
                    spec_no_printlns(ctx.effects@),
                    spec_resize_pass(
                        orig.take(i as int),
                        term_size,
                        windows0,
                        Seq::empty(),
                        ctx.effects@,
                    ),
                    ctx.plugged@.len() == 0,
                    ctx.windows@ == windows0,
                    ctx.separator == old(self).separator,
                    ctx.next_slot == old(self).next_slot,
                    ctx.term_size == term_size,
                    ctx.summary_download == self.config.summary_download,
                    ctx.log_window_size == self.config.log_window_size,
                    ctx.handlers_gauge == self.handlers_len,
            {
                let ghost pre = ctx;
                old_handlers[i].on_resize(&mut ctx);
                proof {
                    crate::effect::lemma_no_printlns_join(pre.effects@, ctx.effects@);
                    lemma_resize_pass_snoc(
                        orig.take(i as int),
                        orig[i as int],
                        term_size,
                        windows0,
                        Seq::empty(),
                        pre.effects@,
                        ctx.effects@,
                    );
                    assert(orig.take(i as int + 1) =~= orig.take(i as int).push(orig[i as int]));
                }
            }
            proof {
                assert(orig.take(n as int) =~= orig);
            }
        }
        let ghost resize_mark = ctx.effects@;
        if ctx.separator {
            ctx.effects.push(Effect::TickSeparator);
        }
        let ghost ctx0 = ctx;

        let mut kept: Vec<Handler> = Vec::new();
        let mut i: usize = 0;
        let n = old_handlers.len();
        proof {
            assert(orig.skip(0) =~= orig);
            assert(orig.take(0) =~= Seq::<Handler>::empty());
            assert(spec_event_pass(orig.take(0), *action, ctx0, ctx));
            assert(crate::handlers::spec_hids(kept@) =~= Seq::<
                crate::handlers::HandlerId,
            >::empty());
            assert(crate::handlers::spec_hids(ctx.plugged@) =~= Seq::<
                crate::handlers::HandlerId,
            >::empty());
            assert(spec_kept_ids(orig, *action) =~= crate::handlers::spec_hids(kept@)
                + spec_kept_ids(orig.skip(0), *action));
            assert(spec_plugged_ids(orig, *action) =~= crate::handlers::spec_hids(ctx.plugged@)
                + spec_plugged_ids(orig.skip(0), *action));
        }
        while i < n
            invariant
                n == orig.len(),
                i <= n,
                old_handlers@ == orig.skip(i as int),
                spec_event_pass(orig.take(i as int), *action, ctx0, ctx),
                spec_kept_ids(orig, *action) == crate::handlers::spec_hids(kept@)
                    + spec_kept_ids(orig.skip(i as int), *action),
                spec_plugged_ids(orig, *action) == crate::handlers::spec_hids(ctx.plugged@)
                    + spec_plugged_ids(orig.skip(i as int), *action),
                ctx.term_size == ctx0.term_size,
                ctx.summary_download == ctx0.summary_download,
                ctx.log_window_size == ctx0.log_window_size,
                ctx.handlers_gauge == ctx0.handlers_gauge,
                spec_no_printlns(ctx0.effects@),
                ctx0.effects@.is_prefix_of(ctx.effects@),
                ctx0.plugged@.len() == 0,
                (match *action {
                    Action::Stop { id } => (forall|k: int|
                        0 <= k < orig.len() ==> !crate::handlers::spec_owns(
                            crate::handlers::spec_hid(#[trigger] orig[k]),
                            id,
                        )) ==> spec_no_printlns(ctx.effects@),
                    _ => true,
                }),
            decreases n - i,
        {
            let h = old_handlers.remove(0);
            proof {
                assert(orig.skip(i as int)[0] == orig[i as int]);
                assert(orig.skip(i as int).remove(0) =~= orig.skip(i as int + 1));
            }
            let ghost pre = ctx;
            let (h2, res) = h.on_action(&mut ctx, action);
            match res {
                HandlerResult::Continue => {
                    kept.push(h2);
                },
                HandlerResult::Close => {},
            }
            proof {
                let ghost suffix = orig.skip(i as int);
                assert(suffix[0] == orig[i as int]);
                assert(suffix.skip(1) =~= orig.skip(i as int + 1));
                lemma_event_pass_snoc(
                    orig.take(i as int),
                    orig[i as int],
                    *action,
                    ctx0,
                    pre,
                    ctx,
                    crate::handlers::spec_hid(h2),
                    res,
                );
                assert(orig.take(i as int + 1) =~= orig.take(i as int).push(orig[i as int]));
                if res == HandlerResult::Continue {
                    assert(crate::handlers::spec_hids(kept@) =~= crate::handlers::spec_hids(
                        kept@.drop_last(),
                    ) + seq![crate::handlers::spec_hid(kept@.last())]);
                }
                assert(ctx.plugged@ =~= pre.plugged@ + ctx.plugged@.skip(
                    pre.plugged@.len() as int,
                ));
                assert(crate::handlers::spec_hids(ctx.plugged@) =~= crate::handlers::spec_hids(
                    pre.plugged@,
                ) + crate::handlers::spec_hids(ctx.plugged@.skip(pre.plugged@.len() as int)));
                assert(ctx0.effects@.is_prefix_of(ctx.effects@)) by {
                    assert forall|j: int|
                        0 <= j < ctx0.effects@.len() implies ctx0.effects@[j] == ctx.effects@[j] by {
                        assert(ctx0.effects@ =~= pre.effects@.subrange(
                            0,
                            ctx0.effects@.len() as int,
                        ));
                        assert(pre.effects@ =~= ctx.effects@.subrange(
                            0,
                            pre.effects@.len() as int,
                        ));
                    }
                    crate::effect::lemma_prefix(ctx0.effects@, ctx.effects@);
                }
                match *action {
                    Action::Stop { id } => {
                        if (forall|k: int|
                            0 <= k < orig.len() ==> !crate::handlers::spec_owns(
                                crate::handlers::spec_hid(#[trigger] orig[k]),
                                id,
                            )) {
                            assert(!crate::handlers::spec_owns(
                                crate::handlers::spec_hid(orig[i as int]),
                                id,
                            ));
                            crate::effect::lemma_no_printlns_join(pre.effects@, ctx.effects@);
                        }
                    },
                    _ => {},
                }
            }
            i = i + 1;
        }
        let ghost ce = ctx;
        proof {
            assert(orig.skip(n as int) =~= Seq::<Handler>::empty());
            assert(spec_kept_ids(orig.skip(n as int), *action) =~= Seq::<
                crate::handlers::HandlerId,
            >::empty());
            assert(spec_plugged_ids(orig.skip(n as int), *action) =~= Seq::<
                crate::handlers::HandlerId,
            >::empty());
            assert(spec_kept_ids(orig, *action) =~= crate::handlers::spec_hids(kept@));
            assert(spec_plugged_ids(orig, *action) =~= crate::handlers::spec_hids(ctx.plugged@));
        }

        let mut plugged: Vec<Handler> = Vec::new();
        core::mem::swap(&mut plugged, &mut ctx.plugged);
        let ghost kept_v = kept@;
        let ghost plugged_v = plugged@;
        kept.append(&mut plugged);
        proof {
            assert(kept@ =~= kept_v + plugged_v);
            assert(crate::handlers::spec_hids(kept@) =~= crate::handlers::spec_hids(kept_v)
                + crate::handlers::spec_hids(plugged_v));
        }
        self.handlers = kept;
        self.next_slot = ctx.next_slot;
        self.separator = ctx.separator;
        let mut windows_back: Vec<LogWindow> = Vec::new();
        core::mem::swap(&mut windows_back, &mut ctx.windows);
        self.windows = windows_back;
        let len = self.handlers.len() as u64;
        self.handlers_len = len;
        proof {
            assert forall|k: int| 0 <= k < ctx0.effects@.len() implies ctx.effects@[k]
                == ctx0.effects@[k] by {
                assert(ctx0.effects@ =~= ctx.effects@.subrange(0, ctx0.effects@.len() as int));
                assert(ctx0.effects@[k] == ctx.effects@.subrange(
                    0,
                    ctx0.effects@.len() as int,
                )[k]);
            }
            assert(orig.take(n as int) =~= orig);
            assert(spec_event_pass(orig, *action, ctx0, ce));
            assert(ce.effects@ == ctx.effects@);
            assert(ctx0.windows@ == old(self).windows@);
            if resized {
                assert(ctx.effects@.take(resize_mark.len() as int) =~= resize_mark);
                assert(spec_no_printlns(ctx.effects@.take(resize_mark.len() as int)));
                assert(spec_resize_pass(
                    orig,
                    term_size,
                    windows0,
                    Seq::empty(),
                    ctx.effects@.take(resize_mark.len() as int),
                ));
            }
            match *action {
                Action::Stop { id } => {
                    lemma_kept_not_owning(orig, *action, id);
                    lemma_plugged_stop_empty(orig, *action);
                    assert(spec_kept_ids(orig, *action) + spec_plugged_ids(orig, *action)
                        =~= spec_kept_ids(orig, *action));
                    assert forall|k: int|
                        0 <= k < self.handlers@.len() implies !crate::handlers::spec_owns(
                        crate::handlers::spec_hid(#[trigger] self.handlers@[k]),
                        id,
                    ) by {
                        assert(crate::handlers::spec_hids(self.handlers@)[k]
                            == crate::handlers::spec_hid(self.handlers@[k]));
                        assert(crate::handlers::spec_hids(self.handlers@)[k] == spec_kept_ids(
                            orig,
                            *action,
                        )[k]);
                    }
                    if (forall|k: int|
                        0 <= k < orig.len() ==> !crate::handlers::spec_owns(
                            crate::handlers::spec_hid(#[trigger] orig[k]),
                            id,
                        )) {
                        assert forall|j: int| 0 <= j < orig.len() implies crate::handlers::spec_keeps(
                            crate::handlers::spec_hid(#[trigger] orig[j]),
                            *action,
                        ) by {}
                        lemma_kept_all(orig, *action);
                    }
                },
                _ => {},
            }
        }
        ctx.effects
    }
}

impl State {
    /// Routes one attributed line of process output. Plain output passes
    /// through as one printed line; an error-channel line with the
    /// protocol prefix is decoded and dispatched, and a line that fails to
    /// decode is handed back as the exact error, the session untouched,
    /// for the caller to decide between aborting and printing the line
    /// raw.
    pub fn process_line(&mut self, stream: crate::program::OutputStream, line: &str, term_size: u16) -> (r:
        Result<Vec<Effect>, crate::decode::DecodeError>)
        ensures
            stream == crate::program::OutputStream::StdOut ==> *final(self) == *old(self) && (
            r matches Ok(out) && out@.len() == 1 && (out@[0] matches Effect::Println {
                line: SummaryLine::Raw { text },
            } && text@ == line@)),
            (stream == crate::program::OutputStream::StdErr && !crate::strutil::spec_has_prefix(
                line@,
                "@nix "@,
            )) ==> *final(self) == *old(self) && (r matches Ok(out) && out@.len() == 1 && (
            out@[0] matches Effect::Println { line: SummaryLine::Raw { text } } && text@
                == line@)),
            (stream == crate::program::OutputStream::StdErr && crate::strutil::spec_has_prefix(
                line@,
                "@nix "@,
            )) ==> (match crate::decode::spec_parse_action(line@.skip(5)) {
                Err(e) => r == Err::<Vec<Effect>, crate::decode::DecodeError>(e) && *final(self)
                    == *old(self),
                Ok(a) => r is Ok && crate::handlers::spec_hids(final(self).handlers@)
                    == spec_kept_ids(old(self).handlers@, a) + spec_plugged_ids(
                    old(self).handlers@,
                    a,
                ) && final(self).handlers_len == final(self).handlers@.len() && (match r {
                    Ok(out) => (term_size != old(self).term_size ==> (exists|k: int|
                        #![auto]
                        0 <= k <= out@.len() && spec_no_printlns(out@.take(k))
                            && spec_resize_pass(
                            old(self).handlers@,
                            term_size,
                            old(self).windows@,
                            Seq::empty(),
                            out@.take(k),
                        ))) && ((term_size == old(self).term_size && old(self).separator)
                        ==> out@.len() >= 1 && out@[0] == Effect::TickSeparator) && (exists|
                        cs: Ctx,
                        ce: Ctx,
                    |
                        #![auto]
                        cs.effects@.is_prefix_of(out@) && spec_no_printlns(cs.effects@)
                            && cs.windows@ == old(self).windows@ && cs.next_slot == old(self).next_slot && cs.plugged@.len() == 0 && cs.term_size == term_size
                            && ce.effects@ == out@ && final(self).windows@ == ce.windows@ && final(self).next_slot == ce.next_slot && final(self).separator == ce.separator
                            && spec_event_pass(old(self).handlers@, a, cs, ce)),
                    Err(_) => false,
                }) && (match a {
                    Action::Stop { id } => (forall|k: int|
                        0 <= k < final(self).handlers@.len() ==> !crate::handlers::spec_owns(
                            crate::handlers::spec_hid(#[trigger] final(self).handlers@[k]),
                            id,
                        )) && ((forall|k: int|
                        0 <= k < old(self).handlers@.len() ==> !crate::handlers::spec_owns(
                            crate::handlers::spec_hid(#[trigger] old(self).handlers@[k]),
                            id,
                        )) ==> (match r {
                        Ok(out) => spec_no_printlns(out@),
                        Err(_) => false,
                    }) && crate::handlers::spec_hids(final(self).handlers@)
                        == crate::handlers::spec_hids(old(self).handlers@)),
                    _ => true,
                }),
            }),
    {
        match stream {
            crate::program::OutputStream::StdOut => {
                let mut out: Vec<Effect> = Vec::new();
                out.push(
                    Effect::Println {
                        line: SummaryLine::Raw { text: String::from_str(line) },
                    },
                );
                Ok(out)
            },
            crate::program::OutputStream::StdErr => {
                match crate::strutil::strip_protocol(line) {
                    Some(rest) => {
                        match Action::parse(rest) {
                            Err(e) => Err(e),
                            Ok(a) => Ok(self.handle(&a, term_size)),
                        }
                    },
                    None => {
                        let mut out: Vec<Effect> = Vec::new();
                        out.push(
                            Effect::Println {
                                line: SummaryLine::Raw {
                                    text: String::from_str(line),
                                },
                            },
                        );
                        Ok(out)
                    },
                }
            },
        }
    }
}

} // verus!
