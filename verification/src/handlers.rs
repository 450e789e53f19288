//! The handler set.
//!
//! Each handler correlates a slice of the event stream by step id, owns its
//! display slots, and reacts to events by emitting effects, plugging new
//! handlers, or retiring itself. The factory handlers (the `New*` variants)
//! are always on: they watch for announcements and plug the stateful
//! handlers.

use vstd::prelude::*;

use crate::action::{Action, ActionType, BuildStepId, ResultFields, StartFields};
use crate::effect::{lemma_prefix, BarStyle, Effect, StyleTemplate, SummaryLine};
use crate::state::{Ctx, HandlerResult};

verus! {

/// Below this expected size a transfer gets no visible bar, so that many
/// small transfers do not flood the display.
pub const MIN_PROGRESS_PAYLOAD: u64 = 10 * 1024 * 1024;

/// Watches one build until it stops, then prints its summary.
#[derive(Debug)]
pub struct BuildHandler {
    pub id: BuildStepId,
    pub target: String,
}

/// Watches a group of builds: keeps the labels of the builds in flight,
/// redraws the group bar on progress, and prints the group summary.
#[derive(Debug)]
pub struct BuildGroupHandler {
    pub id: BuildStepId,
    pub slot: u64,
    pub window: usize,
    pub labels: Vec<(BuildStepId, String)>,
    pub done: u64,
    pub expected: u64,
    pub running: u64,
}

/// A download was announced; waits for the transfer that carries it.
#[derive(Debug)]
pub struct WaitForTransferHandler {
    pub copy_id: BuildStepId,
    pub path: String,
}

/// How a transfer shows itself.
#[derive(Clone, Copy, Debug, PartialEq, Eq, Structural)]
pub enum TransferDisplay {
    /// No progress seen yet.
    NoneYet,
    /// A visible bar in the given slot.
    Visible(u64),
    /// Progress is tracked but the expected size is too small for a bar.
    Hidden,
}

/// Watches one file transfer: allocates a bar lazily once the expected
/// size is known and large enough, and prints the download summary.
#[derive(Debug)]
pub struct TransferHandler {
    pub transfer_id: BuildStepId,
    pub path: String,
    pub display: TransferDisplay,
    pub done: u64,
    pub expected: u64,
}

/// Watches a group of downloads: tracks each copy and transfer by id, and
/// draws one aggregate bar.
#[derive(Debug)]
pub struct DownloadsGroupHandler {
    pub id: BuildStepId,
    pub slot: Option<u64>,
    pub copies: Vec<(BuildStepId, String)>,
    pub state_copy: Vec<(BuildStepId, (u64, u64))>,
    pub state_transfer: Vec<(BuildStepId, (u64, u64))>,
    pub self_done: u64,
    pub self_expected: u64,
    pub max_copy: u64,
    pub max_transfer: u64,
}

/// Collects one unit's log lines and flushes them when it stops.
#[derive(Debug)]
pub struct LogHandler {
    pub id: BuildStepId,
    pub logs: Vec<String>,
    pub window: Option<usize>,
}

/// Shows a spinner for work of an unknown kind until it stops.
#[derive(Debug)]
pub struct UnknownHandler {
    pub id: BuildStepId,
    pub slot: u64,
}

/// Shows how many handlers are live and how many events were dispatched.
#[derive(Debug)]
pub struct DebugHandler {
    pub slot: u64,
    pub nb_lines: u64,
    pub max_len: u64,
}

/// One live entry of the dispatch engine's handler list.
#[derive(Debug)]
pub enum Handler {
    NewBuild,
    NewBuildsGroup,
    NewDownload,
    NewDownloadsGroup,
    NewMessage,
    NewUnknown,
    Debug(DebugHandler),
    Build(BuildHandler),
    BuildGroup(BuildGroupHandler),
    WaitForTransfer(WaitForTransferHandler),
    Transfer(TransferHandler),
    DownloadsGroup(DownloadsGroupHandler),
    Log(LogHandler),
    Unknown(UnknownHandler),
}

/// A handler's stable identity: its kind and the step id it correlates on.
/// Events never change it; it decides which events a handler consumes.
#[derive(Clone, Copy, Debug, PartialEq, Eq, Structural)]
pub enum HandlerId {
    NewBuild,
    NewBuildsGroup,
    NewDownload,
    NewDownloadsGroup,
    NewMessage,
    NewUnknown,
    Debug,
    Build(BuildStepId),
    BuildGroup(BuildStepId),
    WaitForTransfer(BuildStepId),
    Transfer(BuildStepId),
    DownloadsGroup(BuildStepId),
    Log(BuildStepId),
    Unknown(BuildStepId),
}

/// The identity of a handler.
pub open spec fn spec_hid(h: Handler) -> HandlerId {
    match h {
        Handler::NewBuild => HandlerId::NewBuild,
        Handler::NewBuildsGroup => HandlerId::NewBuildsGroup,
        Handler::NewDownload => HandlerId::NewDownload,
        Handler::NewDownloadsGroup => HandlerId::NewDownloadsGroup,
        Handler::NewMessage => HandlerId::NewMessage,
        Handler::NewUnknown => HandlerId::NewUnknown,
        Handler::Debug(_) => HandlerId::Debug,
        Handler::Build(b) => HandlerId::Build(b.id),
        Handler::BuildGroup(g) => HandlerId::BuildGroup(g.id),
        Handler::WaitForTransfer(w) => HandlerId::WaitForTransfer(w.copy_id),
        Handler::Transfer(t) => HandlerId::Transfer(t.transfer_id),
        Handler::DownloadsGroup(d) => HandlerId::DownloadsGroup(d.id),
        Handler::Log(l) => HandlerId::Log(l.id),
        Handler::Unknown(u) => HandlerId::Unknown(u.id),
    }
}

/// The identities of a handler list, in order.
pub open spec fn spec_hids(s: Seq<Handler>) -> Seq<HandlerId> {
    s.map_values(|h: Handler| spec_hid(h))
}

/// Whether a handler with this identity retires (and prints its summary,
/// if it has one) on a stop of the given id.
pub open spec fn spec_owns(hid: HandlerId, id: BuildStepId) -> bool {
    match hid {
        HandlerId::Build(i) => i == id,
        HandlerId::BuildGroup(i) => i == id,
        HandlerId::Transfer(i) => i == id,
        HandlerId::DownloadsGroup(i) => i == id,
        HandlerId::Log(i) => i == id,
        HandlerId::Unknown(i) => i == id,
        _ => false,
    }
}

/// Whether a handler with this identity stays subscribed after the event:
/// it leaves only on the stop it owns, or, for a waiting download, on the
/// transfer announcement it was waiting for.
pub open spec fn spec_keeps(hid: HandlerId, a: Action) -> bool {
    match a {
        Action::Stop { id } => !spec_owns(hid, id),
        Action::Start { start_type: StartFields::FileTransfer { .. }, parent, .. } => !(
        hid matches HandlerId::WaitForTransfer(c) && c == parent),
        _ => true,
    }
}

/// The identities a handler with this identity plugs on the event, in the
/// order it plugs them.
pub open spec fn spec_plug_ids(hid: HandlerId, a: Action) -> Seq<HandlerId> {
    match hid {
        HandlerId::NewBuild => match a {
            Action::Start { start_type: StartFields::Build { .. }, id, .. } => seq![
                HandlerId::Build(id),
            ],
            _ => seq![],
        },
        HandlerId::NewBuildsGroup => match a {
            Action::Start { start_type: StartFields::Builds, id, .. } => seq![
                HandlerId::BuildGroup(id),
            ],
            _ => seq![],
        },
        HandlerId::NewDownload => match a {
            Action::Start { start_type: StartFields::CopyPath { .. }, id, .. } => seq![
                HandlerId::Log(id),
                HandlerId::WaitForTransfer(id),
            ],
            _ => seq![],
        },
        HandlerId::NewDownloadsGroup => match a {
            Action::Start { start_type: StartFields::CopyPaths, id, .. } => seq![
                HandlerId::DownloadsGroup(id),
            ],
            _ => seq![],
        },
        HandlerId::NewUnknown => match a {
            Action::Start { start_type: StartFields::Unknown, id, .. } => seq![
                HandlerId::Unknown(id),
                HandlerId::Log(id),
            ],
            _ => seq![],
        },
        HandlerId::BuildGroup(_) => match a {
            Action::Start { start_type: StartFields::Build { .. }, id, .. } => seq![
                HandlerId::Log(id),
            ],
            _ => seq![],
        },
        HandlerId::WaitForTransfer(c) => match a {
            Action::Start { start_type: StartFields::FileTransfer { .. }, id, parent, .. } => if
                parent == c {
                seq![HandlerId::Transfer(id), HandlerId::Log(id)]
            } else {
                seq![]
            },
            _ => seq![],
        },
        _ => seq![],
    }
}

/// What every handler step guarantees the engine: the identity is stable,
/// the subscription outcome and the plugged identities follow the identity
/// alone, the shared context only grows, and a stop that the handler does
/// not own prints nothing.
pub open spec fn spec_step_ok(
    hid: HandlerId,
    hid_post: HandlerId,
    a: Action,
    c0: Ctx,
    c1: Ctx,
    r: HandlerResult,
) -> bool {
    &&& hid_post == hid
    &&& (r == HandlerResult::Continue) == spec_keeps(hid, a)
    &&& Ctx::only_grew(c0, c1)
    &&& spec_hids(c1.plugged@.skip(c0.plugged@.len() as int)) == spec_plug_ids(hid, a)
    &&& match a {
        Action::Stop { id } => !spec_owns(hid, id) ==> crate::effect::spec_no_printlns_from(
            c1.effects@,
            c0.effects@.len() as int,
        ),
        _ => true,
    }
}

/// Exactly which redraw effects a handler emits for a new terminal width:
/// gauges and spinners restyle their slot; a transfer restyles its bar when
/// it has one; a download group restyles and redraws its bar; a build group
/// ticks its log window, restyles, and redraws its prefix; every other
/// handler emits nothing.
pub open spec fn spec_resize_fx(
    h: Handler,
    width: u16,
    windows: Seq<crate::state::LogWindow>,
    pre: Seq<Effect>,
    post: Seq<Effect>,
) -> bool {
    match h {
        Handler::Debug(d) => post == pre.push(
            Effect::SetStyle {
                slot: d.slot,
                style: BarStyle { template: StyleTemplate::DebugGauge, width },
            },
        ),
        Handler::Unknown(u) => post == pre.push(
            Effect::SetStyle {
                slot: u.slot,
                style: BarStyle { template: StyleTemplate::UnknownSpinner, width },
            },
        ),
        Handler::Transfer(t) => match t.display {
            TransferDisplay::Visible(slot) => post == pre.push(
                Effect::SetStyle {
                    slot,
                    style: BarStyle { template: StyleTemplate::Download, width },
                },
            ),
            _ => post == pre,
        },
        Handler::DownloadsGroup(d) => match d.slot {
            Some(sl) => post.len() == pre.len() + 2 && pre.is_prefix_of(post) && post[pre.len() as int]
                == (Effect::SetStyle {
                slot: sl,
                style: BarStyle { template: StyleTemplate::DownloadsGroup, width },
            }) && (post.last() matches Effect::SetPrefix { slot: s2, text } && s2 == sl && text@
                == crate::style::spec_render_bar(
                crate::style::spec_group_advancement_segments(
                    width as u64 / 3,
                    spec_sum_fst(d.state_transfer@) as u64,
                    spec_sum_snd(d.state_transfer@) as u64,
                    d.max_transfer,
                ),
            )),
            None => post == pre,
        },
        Handler::BuildGroup(g) => {
            let ticks = crate::state::spec_window_ticks(windows, g.window as int);
            &&& post.len() == pre.len() + ticks.len() + 2
            &&& pre.is_prefix_of(post)
            &&& post.subrange(pre.len() as int, pre.len() as int + ticks.len() as int) == ticks
            &&& post[pre.len() as int + ticks.len() as int] == (Effect::SetStyle {
                slot: g.slot,
                style: BarStyle { template: StyleTemplate::BuildsGroup, width },
            })
            &&& (post.last() matches Effect::SetPrefix { slot, text } && slot == g.slot && text@
                == crate::style::spec_render_bar(
                crate::style::spec_scaled(
                    seq![('#', g.done), ('-', g.running), (' ', g.expected)],
                    width as u64 / 3,
                ),
            ))
        },
        _ => post == pre,
    }
}

/// What every resize hook guarantees: nothing is plugged, nothing closes,
/// nothing is printed; only redraw effects are emitted.
pub open spec fn spec_resize_ok(c0: Ctx, c1: Ctx) -> bool {
    &&& c1 == Ctx { effects: c1.effects, ..c0 }
    &&& c0.effects@.is_prefix_of(c1.effects@)
    &&& crate::effect::spec_no_printlns_from(c1.effects@, c0.effects@.len() as int)
}

/// Plugging nothing leaves the plugged identities empty.
pub proof fn lemma_plug_none(p0: Seq<Handler>, p1: Seq<Handler>)
    requires
        p1 == p0,
    ensures
        spec_hids(p1.skip(p0.len() as int)) =~= Seq::<HandlerId>::empty(),
{
    assert(p1.skip(p0.len() as int) =~= Seq::<Handler>::empty());
}

/// Plugging one handler appends exactly its identity.
pub proof fn lemma_plug_one(p0: Seq<Handler>, p1: Seq<Handler>, h: Handler)
    requires
        p1 == p0.push(h),
    ensures
        spec_hids(p1.skip(p0.len() as int)) =~= seq![spec_hid(h)],
{
    assert(p1.skip(p0.len() as int) =~= seq![h]);
}

/// Plugging two handlers appends exactly their identities, in order.
pub proof fn lemma_plug_two(p0: Seq<Handler>, p1: Seq<Handler>, h1: Handler, h2: Handler)
    requires
        p1 == p0.push(h1).push(h2),
    ensures
        spec_hids(p1.skip(p0.len() as int)) =~= seq![spec_hid(h1), spec_hid(h2)],
{
    assert(p1.skip(p0.len() as int) =~= seq![h1, h2]);
}

/// The saturating sum of the first counters of the tracked pairs.
pub open spec fn spec_sum_fst(s: Seq<(BuildStepId, (u64, u64))>) -> int
    decreases s.len(),
{
    if s.len() == 0 {
        0
    } else {
        let rest = spec_sum_fst(s.drop_last());
        let sum = rest + s.last().1.0;
        if sum > u64::MAX {
            u64::MAX as int
        } else {
            sum
        }
    }
}

/// The saturating sum of the second counters of the tracked pairs.
pub open spec fn spec_sum_snd(s: Seq<(BuildStepId, (u64, u64))>) -> int
    decreases s.len(),
{
    if s.len() == 0 {
        0
    } else {
        let rest = spec_sum_snd(s.drop_last());
        let sum = rest + s.last().1.1;
        if sum > u64::MAX {
            u64::MAX as int
        } else {
            sum
        }
    }
}

/// Both saturating sums stay representable.
pub proof fn lemma_sums_bounds(s: Seq<(BuildStepId, (u64, u64))>)
    ensures
        0 <= spec_sum_fst(s) <= u64::MAX,
        0 <= spec_sum_snd(s) <= u64::MAX,
    decreases s.len(),
{
    if s.len() > 0 {
        lemma_sums_bounds(s.drop_last());
    }
}

/// Adds the first counters up, saturating.
pub fn sum_fst(entries: &Vec<(BuildStepId, (u64, u64))>) -> (r: u64)
    ensures
        r == spec_sum_fst(entries@),
{
    let mut acc: u64 = 0;
    let n = entries.len();
    proof {
        assert(entries@.take(0) =~= Seq::<(BuildStepId, (u64, u64))>::empty());
    }
    for i in 0..n
        invariant
            n == entries@.len(),
            acc == spec_sum_fst(entries@.take(i as int)),
    {
        proof {
            lemma_sums_bounds(entries@.take(i as int));
            assert(entries@.take(i as int + 1).drop_last() =~= entries@.take(i as int));
        }
        acc = acc.saturating_add(entries[i].1.0);
    }
    proof {
        assert(entries@.take(n as int) =~= entries@);
    }
    acc
}

/// Adds the second counters up, saturating.
pub fn sum_snd(entries: &Vec<(BuildStepId, (u64, u64))>) -> (r: u64)
    ensures
        r == spec_sum_snd(entries@),
{
    let mut acc: u64 = 0;
    let n = entries.len();
    proof {
        assert(entries@.take(0) =~= Seq::<(BuildStepId, (u64, u64))>::empty());
    }
    for i in 0..n
        invariant
            n == entries@.len(),
            acc == spec_sum_snd(entries@.take(i as int)),
    {
        proof {
            lemma_sums_bounds(entries@.take(i as int));
            assert(entries@.take(i as int + 1).drop_last() =~= entries@.take(i as int));
        }
        acc = acc.saturating_add(entries[i].1.1);
    }
    proof {
        assert(entries@.take(n as int) =~= entries@);
    }
    acc
}

/// The joined display text of the tracked labels, oldest first.
pub open spec fn spec_labels_text(ls: Seq<(BuildStepId, String)>) -> Seq<char> {
    crate::strutil::spec_join(ls.map_values(|e: (BuildStepId, String)| e.1@), ", "@)
}

/// Joins the tracked labels for the group bar's message.
pub fn labels_text(labels: &Vec<(BuildStepId, String)>) -> (s: String)
    ensures
        s@ == spec_labels_text(labels@),
{
    let mut parts: Vec<String> = Vec::new();
    let n = labels.len();
    for i in 0..n
        invariant
            n == labels@.len(),
            parts@.len() == i,
            forall|j: int| 0 <= j < i ==> #[trigger] parts@[j]@ == labels@[j].1@,
    {
        parts.push(labels[i].1.clone());
    }
    let s = crate::strutil::join(&parts, ", ");
    proof {
        assert(parts@.map_values(|p: String| p@) =~= labels@.map_values(
            |e: (BuildStepId, String)| e.1@,
        ));
    }
    s
}

/// The event is the stop of exactly this step.
pub open spec fn spec_is_stop(a: Action, id: BuildStepId) -> bool {
    match a {
        Action::Stop { id: i } => i == id,
        _ => false,
    }
}

/// The event announces the transfer that carries this download.
pub open spec fn spec_is_transfer_start_for(a: Action, copy_id: BuildStepId) -> bool {
    match a {
        Action::Start { start_type: StartFields::FileTransfer { .. }, parent, .. } => parent
            == copy_id,
        _ => false,
    }
}

/// The event is a log line of exactly this step.
pub open spec fn spec_is_log_line_for(a: Action, id: BuildStepId) -> bool {
    match a {
        Action::Result { id: i, fields: ResultFields::BuildLogLine(_) } => i == id,
        _ => false,
    }
}

/// The step id a start event announces.
pub open spec fn spec_start_id(a: Action) -> BuildStepId {
    match a {
        Action::Start { id, .. } => id,
        _ => BuildStepId(0),
    }
}

/// The text a log-line event carries.
pub open spec fn spec_log_line(a: Action) -> String
    recommends
        a matches Action::Result { fields: ResultFields::BuildLogLine(_), .. },
{
    match a {
        Action::Result { fields: ResultFields::BuildLogLine(line), .. } => line,
        _ => arbitrary(),
    }
}

/// A context a handler did not touch only grew, trivially.
pub proof fn lemma_untouched(c: Ctx)
    ensures
        Ctx::only_grew(c, c),
        spec_hids(c.plugged@.skip(c.plugged@.len() as int)) =~= Seq::<HandlerId>::empty(),
{
    lemma_plug_none(c.plugged@, c.plugged@);
    lemma_prefix(c.plugged@, c.plugged@);
    lemma_prefix(c.effects@, c.effects@);
}

impl BuildHandler {
    /// Waits for this build's stop, then prints the one-line summary with
    /// the full target label and retires.
    pub fn on_action(self, ctx: &mut Ctx, action: &Action) -> (r: (BuildHandler, HandlerResult))
        ensures
            spec_step_ok(
                HandlerId::Build(self.id),
                HandlerId::Build(r.0.id),
                *action,
                *old(ctx),
                *final(ctx),
                r.1,
            ),
            r.0 == self,
            spec_is_stop(*action, self.id) ==> final(ctx).effects@.len() == old(ctx).effects@.len() + 1 && (final(ctx).effects@.last() matches Effect::Println {
                line: SummaryLine::Built { target },
            } && target@ == crate::style::spec_format_full(self.target@)),
            !spec_is_stop(*action, self.id) ==> *final(ctx) == *old(ctx),
    {
        match action {
            Action::Stop { id } => {
                if *id == self.id {
                    let label = crate::style::format_build_target(self.target.as_str());
                    ctx.println(SummaryLine::Built { target: label });
                    proof {
                        lemma_plug_none(old(ctx).plugged@, ctx.plugged@);
                        lemma_prefix(old(ctx).plugged@, ctx.plugged@);
                        lemma_prefix(old(ctx).effects@, ctx.effects@);
                    }
                    (self, HandlerResult::Close)
                } else {
                    proof {
                        lemma_untouched(*ctx);
                    }
                    (self, HandlerResult::Continue)
                }
            },
            _ => {
                proof {
                    lemma_untouched(*ctx);
                }
                (self, HandlerResult::Continue)
            },
        }
    }
}

impl UnknownHandler {
    /// Keeps the spinner for an unknown unit of work up until its stop,
    /// then clears the slot and retires.
    pub fn on_action(self, ctx: &mut Ctx, action: &Action) -> (r: (UnknownHandler, HandlerResult))
        ensures
            spec_step_ok(
                HandlerId::Unknown(self.id),
                HandlerId::Unknown(r.0.id),
                *action,
                *old(ctx),
                *final(ctx),
                r.1,
            ),
            r.0 == self,
            spec_is_stop(*action, self.id) ==> final(ctx).effects@ == old(ctx).effects@.push(
                Effect::FinishAndClear { slot: self.slot },
            ),
            !spec_is_stop(*action, self.id) ==> *final(ctx) == *old(ctx),
    {
        match action {
            Action::Stop { id } => {
                if *id == self.id {
                    self.push_clear(ctx);
                    proof {
                        lemma_plug_none(old(ctx).plugged@, ctx.plugged@);
                        lemma_prefix(old(ctx).plugged@, ctx.plugged@);
                        lemma_prefix(old(ctx).effects@, ctx.effects@);
                    }
                    (self, HandlerResult::Close)
                } else {
                    proof {
                        lemma_untouched(*ctx);
                    }
                    (self, HandlerResult::Continue)
                }
            },
            _ => {
                proof {
                    lemma_untouched(*ctx);
                }
                (self, HandlerResult::Continue)
            },
        }
    }

    fn push_clear(&self, ctx: &mut Ctx)
        ensures
            *final(ctx) == (Ctx { effects: final(ctx).effects, ..*old(ctx) }),
            final(ctx).effects@ == old(ctx).effects@.push(
                Effect::FinishAndClear { slot: self.slot },
            ),
    {
        ctx.effects.push(Effect::FinishAndClear { slot: self.slot });
    }

    /// Restyles the spinner for the new terminal width.
    pub fn on_resize(&self, ctx: &mut Ctx)
        ensures
            spec_resize_ok(*old(ctx), *final(ctx)),
            spec_resize_fx(
                Handler::Unknown(*self),
                old(ctx).term_size,
                old(ctx).windows@,
                old(ctx).effects@,
                final(ctx).effects@,
            ),
    {
        let style = BarStyle { template: StyleTemplate::UnknownSpinner, width: ctx.term_size };
        ctx.effects.push(Effect::SetStyle { slot: self.slot, style });
        proof {
            lemma_prefix(old(ctx).effects@, ctx.effects@);
        }
    }
}

impl DebugHandler {
    /// Updates the gauge on every event: how many events were dispatched
    /// and how long the handler list was after the previous pass.
    pub fn on_action(self, ctx: &mut Ctx, action: &Action) -> (r: (DebugHandler, HandlerResult))
        ensures
            spec_step_ok(
                HandlerId::Debug,
                HandlerId::Debug,
                *action,
                *old(ctx),
                *final(ctx),
                r.1,
            ),
            r.0.slot == self.slot,
            r.0.nb_lines == self.nb_lines.saturating_add(1),
            r.0.max_len == if old(ctx).handlers_gauge > self.max_len {
                old(ctx).handlers_gauge
            } else {
                self.max_len
            },
            final(ctx).effects@ == old(ctx).effects@.push(
                Effect::SetLength { slot: self.slot, value: r.0.max_len },
            ).push(
                Effect::SetGauge {
                    slot: self.slot,
                    lines_parsed: r.0.nb_lines,
                    handlers: old(ctx).handlers_gauge,
                },
            ).push(Effect::SetPosition { slot: self.slot, value: old(ctx).handlers_gauge }),
    {
        let gauge = ctx.handlers_gauge;
        let nb_lines = self.nb_lines.saturating_add(1);
        let max_len = if gauge > self.max_len {
            gauge
        } else {
            self.max_len
        };
        ctx.effects.push(Effect::SetLength { slot: self.slot, value: max_len });
        ctx.effects.push(
            Effect::SetGauge { slot: self.slot, lines_parsed: nb_lines, handlers: gauge },
        );
        ctx.effects.push(Effect::SetPosition { slot: self.slot, value: gauge });
        proof {
            lemma_plug_none(old(ctx).plugged@, ctx.plugged@);
            lemma_prefix(old(ctx).effects@, ctx.effects@);
        }
        (DebugHandler { slot: self.slot, nb_lines, max_len }, HandlerResult::Continue)
    }

    /// Restyles the gauge for the new terminal width.
    pub fn on_resize(&self, ctx: &mut Ctx)
        ensures
            spec_resize_ok(*old(ctx), *final(ctx)),
            spec_resize_fx(
                Handler::Debug(*self),
                old(ctx).term_size,
                old(ctx).windows@,
                old(ctx).effects@,
                final(ctx).effects@,
            ),
    {
        let style = BarStyle { template: StyleTemplate::DebugGauge, width: ctx.term_size };
        ctx.effects.push(Effect::SetStyle { slot: self.slot, style });
        proof {
            lemma_prefix(old(ctx).effects@, ctx.effects@);
        }
    }
}

impl WaitForTransferHandler {
    /// Waits for the transfer announced under this download: hands the
    /// path over to a transfer handler (plus its log collector) and
    /// retires.
    pub fn on_action(self, ctx: &mut Ctx, action: &Action) -> (r: (
        WaitForTransferHandler,
        HandlerResult,
    ))
        ensures
            spec_step_ok(
                HandlerId::WaitForTransfer(self.copy_id),
                HandlerId::WaitForTransfer(r.0.copy_id),
                *action,
                *old(ctx),
                *final(ctx),
                r.1,
            ),
            r.0 == self,
            spec_is_transfer_start_for(*action, self.copy_id) ==> final(ctx).plugged@.len() == old(ctx).plugged@.len() + 2 && (final(ctx).plugged@[final(ctx).plugged@.len() - 2]
                matches Handler::Transfer(t) && t.transfer_id == spec_start_id(*action) && t.path
                == self.path && t.display == TransferDisplay::NoneYet && t.done == 0 && t.expected
                == 0) && (final(ctx).plugged@.last() matches Handler::Log(l) && l.id
                == spec_start_id(*action) && l.logs@ == Seq::<String>::empty() && l.window
                is None),
            !spec_is_transfer_start_for(*action, self.copy_id) ==> *final(ctx) == *old(ctx),
    {
        match action {
            Action::Start { start_type: StartFields::FileTransfer { .. }, id, parent, .. } => {
                if *parent == self.copy_id {
                    ctx.plug(
                        Handler::Transfer(
                            TransferHandler {
                                transfer_id: *id,
                                path: self.path.clone(),
                                display: TransferDisplay::NoneYet,
                                done: 0,
                                expected: 0,
                            },
                        ),
                    );
                    ctx.plug(
                        Handler::Log(LogHandler { id: *id, logs: Vec::new(), window: None }),
                    );
                    proof {
                        lemma_plug_two(
                            old(ctx).plugged@,
                            ctx.plugged@,
                            ctx.plugged@[ctx.plugged@.len() - 2],
                            ctx.plugged@[ctx.plugged@.len() - 1],
                        );
                        lemma_prefix(old(ctx).plugged@, ctx.plugged@);
                        lemma_prefix(old(ctx).effects@, ctx.effects@);
                    }
                    (self, HandlerResult::Close)
                } else {
                    proof {
                        lemma_untouched(*ctx);
                    }
                    (self, HandlerResult::Continue)
                }
            },
            _ => {
                proof {
                    lemma_untouched(*ctx);
                }
                (self, HandlerResult::Continue)
            },
        }
    }
}

impl LogHandler {
    /// Collects this unit's log lines (mirroring each into the shared
    /// window, when there is one); on the unit's stop, flushes them as
    /// tree-prefixed lines and retires.
    pub fn on_action(self, ctx: &mut Ctx, action: &Action) -> (r: (LogHandler, HandlerResult))
        ensures
            spec_step_ok(
                HandlerId::Log(self.id),
                HandlerId::Log(r.0.id),
                *action,
                *old(ctx),
                *final(ctx),
                r.1,
            ),
            r.0.id == self.id && r.0.window == self.window,
            spec_is_log_line_for(*action, self.id) ==> r.0.logs@ == self.logs@.push(
                spec_log_line(*action),
            ),
            (match self.window {
                Some(w) => spec_is_log_line_for(*action, self.id) ==> final(ctx).windows@.len()
                    == old(ctx).windows@.len() && (w < old(ctx).windows@.len()
                    ==> final(ctx).windows@ == old(ctx).windows@.update(
                    w as int,
                    crate::state::LogWindow(final(ctx).windows@[w as int].0),
                ) && final(ctx).windows@[w as int].0@ == crate::state::spec_window_shift(
                    old(ctx).windows@[w as int].0@,
                    spec_log_line(*action),
                )),
                None => spec_is_log_line_for(*action, self.id) ==> *final(ctx) == *old(ctx),
            }),
            !(spec_is_log_line_for(*action, self.id) || spec_is_stop(*action, self.id))
                ==> *final(ctx) == *old(ctx) && r.0.logs == self.logs,
            spec_is_stop(*action, self.id) ==> r.0.logs == self.logs && final(ctx).effects@.len()
                == old(ctx).effects@.len() + self.logs@.len() && (forall|j: int|
                0 <= j < self.logs@.len() ==> (#[trigger] final(ctx).effects@[old(ctx).effects@.len() + j] matches Effect::Println {
                    line: SummaryLine::Log { last, text },
                } && text == self.logs@[j] && last == (j == self.logs@.len() - 1))),
            !spec_is_log_line_for(*action, self.id) ==> r.0.logs == self.logs,
    {
        match action {
            Action::Result { id, fields: ResultFields::BuildLogLine(line) } => {
                if *id == self.id {
                    let mut logs = self.logs;
                    logs.push(line.clone());
                    match self.window {
                        Some(w) => {
                            ctx.window_log(w, line.clone());
                        },
                        None => {},
                    }
                    proof {
                        lemma_plug_none(old(ctx).plugged@, ctx.plugged@);
                        lemma_prefix(old(ctx).plugged@, ctx.plugged@);
                        lemma_prefix(old(ctx).effects@, ctx.effects@);
                    }
                    (
                        LogHandler { id: self.id, logs, window: self.window },
                        HandlerResult::Continue,
                    )
                } else {
                    proof {
                        lemma_untouched(*ctx);
                    }
                    (self, HandlerResult::Continue)
                }
            },
            Action::Stop { id } => {
                if *id == self.id {
                    let n = self.logs.len();
                    let ghost fx0 = ctx.effects@;
                    let mut j: usize = 0;
                    while j < n
                        invariant
                            n == self.logs@.len(),
                            j <= n,
                            ctx.effects@.len() == fx0.len() + j,
                            forall|k: int|
                                0 <= k < j ==> (#[trigger] ctx.effects@[fx0.len() + k]
                                    matches Effect::Println {
                                    line: SummaryLine::Log { last, text },
                                } && text == self.logs@[k] && last == (k == n - 1)),
                            fx0.is_prefix_of(ctx.effects@),
                            *ctx == (Ctx { effects: ctx.effects, ..*old(ctx) }),
                            fx0 == old(ctx).effects@,
                        decreases n - j,
                    {
                        let text = self.logs[j].clone();
                        ctx.effects.push(
                            Effect::Println {
                                line: SummaryLine::Log { last: j + 1 == n, text },
                            },
                        );
                        j = j + 1;
                        proof {
                            lemma_prefix(fx0, ctx.effects@);
                        }
                    }
                    proof {
                        lemma_plug_none(old(ctx).plugged@, ctx.plugged@);
                        lemma_prefix(old(ctx).plugged@, ctx.plugged@);
                    }
                    (self, HandlerResult::Close)
                } else {
                    proof {
                        lemma_untouched(*ctx);
                    }
                    (self, HandlerResult::Continue)
                }
            },
            _ => {
                proof {
                    lemma_untouched(*ctx);
                }
                (self, HandlerResult::Continue)
            },
        }
    }
}

/// The event announces a build.
pub open spec fn spec_is_build_start(a: Action) -> bool {
    a matches Action::Start { start_type: StartFields::Build { .. }, .. }
}

/// The target a build announcement names.
pub open spec fn spec_build_target(a: Action) -> String
    recommends
        spec_is_build_start(a),
{
    match a {
        Action::Start { start_type: StartFields::Build { target, .. }, .. } => target,
        _ => arbitrary(),
    }
}

/// The store path a copy announcement names.
pub open spec fn spec_copy_path(a: Action) -> String
    recommends
        a matches Action::Start { start_type: StartFields::CopyPath { .. }, .. },
{
    match a {
        Action::Start { start_type: StartFields::CopyPath { path, .. }, .. } => path,
        _ => arbitrary(),
    }
}

/// The event is a progress update of exactly this step.
pub open spec fn spec_is_progress_for(a: Action, id: BuildStepId) -> bool {
    match a {
        Action::Result { id: i, fields: ResultFields::Progress { .. } } => i == id,
        _ => false,
    }
}

/// The event is a progress update of some step.
pub open spec fn spec_is_progress(a: Action) -> bool {
    a matches Action::Result { fields: ResultFields::Progress { .. }, .. }
}

/// The counters a progress update carries: done, expected, running.
pub open spec fn spec_progress(a: Action) -> (u64, u64, u64)
    recommends
        spec_is_progress(a),
{
    match a {
        Action::Result { fields: ResultFields::Progress { done, expected, running, .. }, .. } => (
            done,
            expected,
            running,
        ),
        _ => arbitrary(),
    }
}

/// The event raises the expected total for the given kind of work.
pub open spec fn spec_is_set_expected(a: Action, kind: ActionType) -> bool {
    match a {
        Action::Result { fields: ResultFields::SetExpected { action, .. }, .. } => action == kind,
        _ => false,
    }
}

/// The total an expectation update carries.
pub open spec fn spec_set_expected_value(a: Action) -> u64 {
    match a {
        Action::Result { fields: ResultFields::SetExpected { expected, .. }, .. } => expected,
        _ => arbitrary(),
    }
}

impl BuildGroupHandler {
    /// Correlates a build group's events: tracks the labels of builds in
    /// flight (plugging a log collector for each), redraws the bar on the
    /// group's own progress, and on the group's stop prints one summary,
    /// when at least one derivation was expected, and retires.
    pub fn on_action(self, ctx: &mut Ctx, action: &Action) -> (r: (
        BuildGroupHandler,
        HandlerResult,
    ))
        ensures
            spec_step_ok(
                HandlerId::BuildGroup(self.id),
                HandlerId::BuildGroup(r.0.id),
                *action,
                *old(ctx),
                *final(ctx),
                r.1,
            ),
            r.0.id == self.id && r.0.slot == self.slot && r.0.window == self.window,
            spec_is_build_start(*action) ==> (exists|l: String|
                #![auto]
                l@ == crate::style::spec_format_short(spec_build_target(*action)@) && r.0.labels@
                    == crate::omap::spec_upsert(self.labels@, spec_start_id(*action), l)),
            spec_is_progress_for(*action, self.id) ==> r.0.done == spec_progress(*action).0
                && r.0.expected == spec_progress(*action).1 && r.0.running == spec_progress(*action).2 && r.0.labels == self.labels && final(ctx).effects@ == old(ctx).effects@.push(
                final(ctx).effects@[final(ctx).effects@.len() - 3],
            ).push(
                Effect::SetLength { slot: self.slot, value: spec_progress(*action).1 },
            ).push(Effect::SetPosition { slot: self.slot, value: spec_progress(*action).0 })
                && (final(ctx).effects@[final(ctx).effects@.len() - 3]
                matches Effect::SetPrefix { slot, text } && slot == self.slot && text@
                == crate::style::spec_render_bar(
                crate::style::spec_scaled(
                    seq![
                        ('#', spec_progress(*action).0),
                        ('-', spec_progress(*action).2),
                        (' ', spec_progress(*action).1),
                    ],
                    old(ctx).term_size as u64 / 3,
                ),
            )),
            spec_is_stop(*action, self.id) ==> !final(ctx).separator && final(ctx).effects@
                == (if self.expected > 0 {
                old(ctx).effects@.push(
                    Effect::Println { line: SummaryLine::BuiltGroup { count: self.expected } },
                ).push(Effect::RemoveSeparator).push(Effect::FinishAndClear { slot: self.slot })
            } else {
                old(ctx).effects@.push(Effect::RemoveSeparator).push(
                    Effect::FinishAndClear { slot: self.slot },
                )
            }),
            (match *action {
                Action::Stop { id } => id != self.id ==> r.0.labels@
                    == crate::omap::spec_shift_remove(self.labels@, id) && (
                if crate::omap::spec_find(self.labels@, id) is Some {
                    final(ctx).effects@.len() == old(ctx).effects@.len() + 1 && (final(ctx).effects@.last()
                        matches Effect::SetMessage { slot, text } && slot == self.slot && text@
                        == spec_labels_text(r.0.labels@))
                } else {
                    *final(ctx) == *old(ctx)
                }),
                _ => true,
            }),
            !spec_is_progress_for(*action, self.id) ==> r.0.done == self.done && r.0.expected
                == self.expected && r.0.running == self.running,
            !(spec_is_build_start(*action) || spec_is_progress_for(*action, self.id) || *action
                matches Action::Stop { .. }) ==> *final(ctx) == *old(ctx) && r.0.labels
                == self.labels,
    {
        match action {
            Action::Start { start_type: StartFields::Build { target, .. }, id, .. } => {
                let label = crate::style::format_short_build_target(target.as_str());
                let ghost lv = label;
                let mut labels = self.labels;
                crate::omap::upsert(&mut labels, *id, label);
                proof {
                    assert(lv@ == crate::style::spec_format_short(spec_build_target(*action)@));
                    assert(labels@ == crate::omap::spec_upsert(
                        self.labels@,
                        spec_start_id(*action),
                        lv,
                    ));
                }
                let text = labels_text(&labels);
                ctx.effects.push(Effect::SetMessage { slot: self.slot, text });
                ctx.plug(
                    Handler::Log(
                        LogHandler { id: *id, logs: Vec::new(), window: Some(self.window) },
                    ),
                );
                proof {
                    lemma_plug_one(
                        old(ctx).plugged@,
                        ctx.plugged@,
                        ctx.plugged@[ctx.plugged@.len() - 1],
                    );
                    lemma_prefix(old(ctx).plugged@, ctx.plugged@);
                    lemma_prefix(old(ctx).effects@, ctx.effects@);
                }
                (
                    BuildGroupHandler {
                        id: self.id,
                        slot: self.slot,
                        window: self.window,
                        labels,
                        done: self.done,
                        expected: self.expected,
                        running: self.running,
                    },
                    HandlerResult::Continue,
                )
            },
            Action::Result {
                id,
                fields: ResultFields::Progress { done, expected, running, .. },
            } => {
                if *id == self.id {
                    let size = (ctx.term_size as u64) / 3;
                    let text = crate::style::group_bar_text(size, *done, *running, *expected);
                    ctx.effects.push(Effect::SetPrefix { slot: self.slot, text });
                    ctx.effects.push(Effect::SetLength { slot: self.slot, value: *expected });
                    ctx.effects.push(Effect::SetPosition { slot: self.slot, value: *done });
                    proof {
                        lemma_plug_none(old(ctx).plugged@, ctx.plugged@);
                        lemma_prefix(old(ctx).plugged@, ctx.plugged@);
                        lemma_prefix(old(ctx).effects@, ctx.effects@);
                    }
                    (
                        BuildGroupHandler {
                            id: self.id,
                            slot: self.slot,
                            window: self.window,
                            labels: self.labels,
                            done: *done,
                            expected: *expected,
                            running: *running,
                        },
                        HandlerResult::Continue,
                    )
                } else {
                    proof {
                        lemma_untouched(*ctx);
                    }
                    (self, HandlerResult::Continue)
                }
            },
            Action::Stop { id } => {
                if *id == self.id {
                    if self.expected > 0 {
                        ctx.println(SummaryLine::BuiltGroup { count: self.expected });
                    }
                    ctx.remove_separator();
                    ctx.effects.push(Effect::FinishAndClear { slot: self.slot });
                    proof {
                        lemma_plug_none(old(ctx).plugged@, ctx.plugged@);
                        lemma_prefix(old(ctx).plugged@, ctx.plugged@);
                        lemma_prefix(old(ctx).effects@, ctx.effects@);
                    }
                    (self, HandlerResult::Close)
                } else {
                    let mut labels = self.labels;
                    let removed = crate::omap::shift_remove(&mut labels, *id);
                    if removed {
                        let text = labels_text(&labels);
                        ctx.effects.push(Effect::SetMessage { slot: self.slot, text });
                    }
                    proof {
                        lemma_plug_none(old(ctx).plugged@, ctx.plugged@);
                        lemma_prefix(old(ctx).plugged@, ctx.plugged@);
                        lemma_prefix(old(ctx).effects@, ctx.effects@);
                    }
                    (
                        BuildGroupHandler {
                            id: self.id,
                            slot: self.slot,
                            window: self.window,
                            labels,
                            done: self.done,
                            expected: self.expected,
                            running: self.running,
                        },
                        HandlerResult::Continue,
                    )
                }
            },
            _ => {
                proof {
                    lemma_untouched(*ctx);
                }
                (self, HandlerResult::Continue)
            },
        }
    }

    /// Redraws the group's bar and its log window for a new width.
    pub fn on_resize(&self, ctx: &mut Ctx)
        ensures
            spec_resize_ok(*old(ctx), *final(ctx)),
            spec_resize_fx(
                Handler::BuildGroup(BuildGroupHandler { labels: self.labels, ..*self }),
                old(ctx).term_size,
                old(ctx).windows@,
                old(ctx).effects@,
                final(ctx).effects@,
            ),
    {
        ctx.window_tick(self.window);
        let style = BarStyle { template: StyleTemplate::BuildsGroup, width: ctx.term_size };
        ctx.effects.push(Effect::SetStyle { slot: self.slot, style });
        let size = (ctx.term_size as u64) / 3;
        let text = crate::style::group_bar_text(size, self.done, self.running, self.expected);
        ctx.effects.push(Effect::SetPrefix { slot: self.slot, text });
        proof {
            let ghost ticks = crate::state::spec_window_ticks(
                old(ctx).windows@,
                self.window as int,
            );
            assert(ctx.effects@.subrange(
                old(ctx).effects@.len() as int,
                old(ctx).effects@.len() as int + ticks.len() as int,
            ) =~= ticks);
            lemma_prefix(old(ctx).effects@, ctx.effects@);
        }
    }
}

/// The display state a transfer moves to when a progress update reports
/// the given expected size.
pub open spec fn spec_transfer_display(pre: TransferDisplay, expected: u64, slot: u64) -> TransferDisplay {
    match pre {
        TransferDisplay::NoneYet => if expected >= MIN_PROGRESS_PAYLOAD {
            TransferDisplay::Visible(slot)
        } else if expected > 0 {
            TransferDisplay::Hidden
        } else {
            TransferDisplay::NoneYet
        },
        d => d,
    }
}

/// The four redraw effects a visible transfer bar gets from one progress
/// update: new length and position, the current style, and the re-rendered
/// two-segment prefix.
pub open spec fn spec_visible_bar_update(
    slot: u64,
    pd: u64,
    pe: u64,
    width: u16,
    pre: Seq<Effect>,
    post: Seq<Effect>,
) -> bool {
    &&& post.len() == pre.len() + 4
    &&& pre.is_prefix_of(post)
    &&& post[pre.len() as int] == (Effect::SetLength { slot, value: pe })
    &&& post[pre.len() as int + 1] == (Effect::SetPosition { slot, value: pd })
    &&& post[pre.len() as int + 2] == (Effect::SetStyle {
        slot,
        style: BarStyle { template: StyleTemplate::Download, width },
    })
    &&& (post.last() matches Effect::SetPrefix { slot: s2, text } && s2 == slot && text@
        == crate::style::spec_render_bar(
        crate::style::spec_scaled(
            seq![('#', pd), ('-', pe.saturating_sub(pd) as u64)],
            width as u64 / 3,
        ),
    ))
}

impl TransferHandler {
    /// Correlates one transfer's events: tracks its byte counters, gives
    /// it a visible bar once the expected size is known and large enough,
    /// and on its stop prints the download summary (when asked for) and
    /// retires.
    pub fn on_action(self, ctx: &mut Ctx, action: &Action) -> (r: (TransferHandler, HandlerResult))
        ensures
            spec_step_ok(
                HandlerId::Transfer(self.transfer_id),
                HandlerId::Transfer(r.0.transfer_id),
                *action,
                *old(ctx),
                *final(ctx),
                r.1,
            ),
            r.0.transfer_id == self.transfer_id && r.0.path == self.path,
            spec_is_progress_for(*action, self.transfer_id) ==> r.0.done == spec_progress(*action).0 && r.0.expected == spec_progress(*action).1 && r.0.display
                == spec_transfer_display(
                self.display,
                spec_progress(*action).1,
                old(ctx).next_slot,
            ),
            !spec_is_progress_for(*action, self.transfer_id) ==> r.0.display == self.display
                && r.0.done == self.done && r.0.expected == self.expected,
            spec_is_progress_for(*action, self.transfer_id) ==> (match self.display {
                TransferDisplay::Visible(slot) => spec_visible_bar_update(
                    slot,
                    spec_progress(*action).0,
                    spec_progress(*action).1,
                    old(ctx).term_size,
                    old(ctx).effects@,
                    final(ctx).effects@,
                ),
                TransferDisplay::Hidden => *final(ctx) == *old(ctx),
                TransferDisplay::NoneYet => if spec_progress(*action).1
                    >= MIN_PROGRESS_PAYLOAD {
                    final(ctx).effects@.len() == old(ctx).effects@.len() + (
                    if old(ctx).separator {
                        6int
                    } else {
                        7
                    }) && final(ctx).effects@[final(ctx).effects@.len() - 6] == (
                    Effect::CreateBar {
                        slot: old(ctx).next_slot,
                        style: BarStyle {
                            template: StyleTemplate::Download,
                            width: old(ctx).term_size,
                        },
                    }) && (final(ctx).effects@[final(ctx).effects@.len() - 5]
                        matches Effect::SetMessage { slot, text } && slot == old(ctx).next_slot
                        && text@ == crate::style::spec_format_short(self.path@))
                        && spec_visible_bar_update(
                        old(ctx).next_slot,
                        spec_progress(*action).0,
                        spec_progress(*action).1,
                        old(ctx).term_size,
                        final(ctx).effects@.take(final(ctx).effects@.len() - 4),
                        final(ctx).effects@,
                    )
                } else {
                    *final(ctx) == *old(ctx)
                },
            }),
            spec_is_stop(*action, self.transfer_id) ==> (match self.display {
                TransferDisplay::NoneYet => *final(ctx) == *old(ctx),
                TransferDisplay::Hidden => if old(ctx).summary_download {
                    final(ctx).effects@.len() == old(ctx).effects@.len() + 1 && (final(ctx).effects@.last()
                        matches Effect::Println { line: SummaryLine::Downloaded { target, bytes } }
                        && target@ == crate::style::spec_format_full(self.path@) && bytes
                        == self.done)
                } else {
                    *final(ctx) == *old(ctx)
                },
                TransferDisplay::Visible(slot) => if old(ctx).summary_download {
                    final(ctx).effects@.len() == old(ctx).effects@.len() + 2 && ((final(ctx).effects@[old(ctx).effects@.len() as int])
                        matches Effect::Println { line: SummaryLine::Downloaded { target, bytes } }
                        && target@ == crate::style::spec_format_full(self.path@) && bytes
                        == self.done) && final(ctx).effects@.last() == (Effect::FinishAndClear {
                        slot,
                    })
                } else {
                    *final(ctx) == *old(ctx)
                },
            }),
            !(spec_is_progress_for(*action, self.transfer_id) || spec_is_stop(
                *action,
                self.transfer_id,
            )) ==> *final(ctx) == *old(ctx),
    {
        match action {
            Action::Result { id, fields: ResultFields::Progress { done, expected, .. } } => {
                if *id == self.transfer_id {
                    let display = match self.display {
                        TransferDisplay::NoneYet => {
                            if *expected >= MIN_PROGRESS_PAYLOAD {
                                let style = BarStyle {
                                    template: StyleTemplate::Download,
                                    width: ctx.term_size,
                                };
                                let slot = ctx.alloc_bar(style);
                                let label = crate::style::format_short_build_target(
                                    self.path.as_str(),
                                );
                                ctx.effects.push(Effect::SetMessage { slot, text: label });
                                TransferDisplay::Visible(slot)
                            } else if *expected > 0 {
                                TransferDisplay::Hidden
                            } else {
                                TransferDisplay::NoneYet
                            }
                        },
                        d => d,
                    };
                    match display {
                        TransferDisplay::Visible(slot) => {
                            ctx.effects.push(Effect::SetLength { slot, value: *expected });
                            ctx.effects.push(Effect::SetPosition { slot, value: *done });
                            let style = BarStyle {
                                template: StyleTemplate::Download,
                                width: ctx.term_size,
                            };
                            ctx.effects.push(Effect::SetStyle { slot, style });
                            let size = (ctx.term_size as u64) / 3;
                            let text = crate::style::transfer_bar_text(size, *done, *expected);
                            ctx.effects.push(Effect::SetPrefix { slot, text });
                        },
                        _ => {},
                    }
                    proof {
                        lemma_plug_none(old(ctx).plugged@, ctx.plugged@);
                        lemma_prefix(old(ctx).plugged@, ctx.plugged@);
                        lemma_prefix(old(ctx).effects@, ctx.effects@);
                    }
                    (
                        TransferHandler {
                            transfer_id: self.transfer_id,
                            path: self.path,
                            display,
                            done: *done,
                            expected: *expected,
                        },
                        HandlerResult::Continue,
                    )
                } else {
                    proof {
                        lemma_untouched(*ctx);
                    }
                    (self, HandlerResult::Continue)
                }
            },
            Action::Stop { id } => {
                if *id == self.transfer_id {
                    let wants_summary = ctx.summary_download;
                    let has_bar = match self.display {
                        TransferDisplay::NoneYet => false,
                        _ => true,
                    };
                    if wants_summary && has_bar {
                        let label = crate::style::format_build_target(self.path.as_str());
                        ctx.println(
                            SummaryLine::Downloaded { target: label, bytes: self.done },
                        );
                        match self.display {
                            TransferDisplay::Visible(slot) => {
                                ctx.effects.push(Effect::FinishAndClear { slot });
                            },
                            _ => {},
                        }
                    }
                    proof {
                        lemma_plug_none(old(ctx).plugged@, ctx.plugged@);
                        lemma_prefix(old(ctx).plugged@, ctx.plugged@);
                        lemma_prefix(old(ctx).effects@, ctx.effects@);
                    }
                    (self, HandlerResult::Close)
                } else {
                    proof {
                        lemma_untouched(*ctx);
                    }
                    (self, HandlerResult::Continue)
                }
            },
            _ => {
                proof {
                    lemma_untouched(*ctx);
                }
                (self, HandlerResult::Continue)
            },
        }
    }

    /// Restyles the transfer's bar, when it has one, for a new width.
    pub fn on_resize(&self, ctx: &mut Ctx)
        ensures
            spec_resize_ok(*old(ctx), *final(ctx)),
            spec_resize_fx(
                Handler::Transfer(TransferHandler { path: self.path, ..*self }),
                old(ctx).term_size,
                old(ctx).windows@,
                old(ctx).effects@,
                final(ctx).effects@,
            ),
    {
        match self.display {
            TransferDisplay::Visible(slot) => {
                let style = BarStyle { template: StyleTemplate::Download, width: ctx.term_size };
                ctx.effects.push(Effect::SetStyle { slot, style });
                proof {
                    lemma_prefix(old(ctx).effects@, ctx.effects@);
                }
            },
            _ => {
                proof {
                    lemma_prefix(old(ctx).effects@, ctx.effects@);
                }
            },
        }
    }
}

impl DownloadsGroupHandler {
    /// Correlates a download group's events: tracks every copy and
    /// transfer by id, keeps the aggregate bar and message current, and on
    /// the group's stop prints one summary, when the bar existed, and
    /// retires.
    pub fn on_action(self, ctx: &mut Ctx, action: &Action) -> (r: (
        DownloadsGroupHandler,
        HandlerResult,
    ))
        ensures
            spec_step_ok(
                HandlerId::DownloadsGroup(self.id),
                HandlerId::DownloadsGroup(r.0.id),
                *action,
                *old(ctx),
                *final(ctx),
                r.1,
            ),
            r.0.id == self.id,
            (*action matches Action::Start { start_type: StartFields::CopyPath { .. }, .. })
                ==> r.0.state_copy@ == crate::omap::spec_upsert(
                self.state_copy@,
                spec_start_id(*action),
                (0u64, 0u64),
            ) && (exists|l: String|
                #![auto]
                l@ == crate::style::spec_format_short(spec_copy_path(*action)@) && r.0.copies@
                    == crate::omap::spec_upsert(self.copies@, spec_start_id(*action), l))
                && r.0.slot is Some && (match self.slot {
                Some(slot) => r.0.slot == Some(slot) && *final(ctx) == *old(ctx),
                None => r.0.slot == Some(old(ctx).next_slot) && final(ctx).effects@ == (
                if old(ctx).separator {
                    old(ctx).effects@
                } else {
                    old(ctx).effects@.push(Effect::CreateSeparator)
                }).push(
                    Effect::CreateBar {
                        slot: old(ctx).next_slot,
                        style: BarStyle {
                            template: StyleTemplate::DownloadsGroup,
                            width: old(ctx).term_size,
                        },
                    },
                ).push(Effect::SetLength { slot: old(ctx).next_slot, value: self.max_transfer }),
            }),
            spec_is_transfer_start_any(*action) ==> *final(ctx) == *old(ctx),
            spec_is_transfer_start_any(*action) ==> r.0.state_transfer@
                == crate::omap::spec_upsert(
                self.state_transfer@,
                spec_start_id(*action),
                (0u64, 0u64),
            ),
            spec_is_progress(*action) ==> r.0.copies == self.copies && r.0.max_copy
                == self.max_copy && r.0.max_transfer == self.max_transfer && r.0.slot
                == self.slot,
            (match self.slot {
                Some(sl) => spec_is_progress(*action) ==> {
                    let pid = spec_result_id(*action);
                    let base = old(ctx).effects@.len() as int;
                    let k: int = if pid == self.id {
                        1
                    } else {
                        0
                    };
                    &&& final(ctx).effects@.len() == base + k + (
                    if crate::omap::spec_find(self.state_transfer@, pid) is Some {
                        2int
                    } else {
                        0
                    })
                    &&& old(ctx).effects@.is_prefix_of(final(ctx).effects@)
                    &&& (pid == self.id ==> (final(ctx).effects@[base]
                        matches Effect::SetMessage { slot, text } && slot == sl && text@
                        == spec_dg_message(
                        spec_progress(*action).0,
                        spec_progress(*action).1,
                        self.copies@,
                    )))
                    &&& (crate::omap::spec_find(self.state_transfer@, pid) is Some ==> final(ctx).effects@[base + k] == (Effect::SetPosition {
                        slot: sl,
                        value: spec_sum_fst(r.0.state_transfer@) as u64,
                    }) && (final(ctx).effects@.last() matches Effect::SetPrefix {
                        slot: s2,
                        text,
                    } && s2 == sl && text@ == crate::style::spec_render_bar(
                        crate::style::spec_group_advancement_segments(
                            old(ctx).term_size as u64 / 3,
                            spec_sum_fst(r.0.state_transfer@) as u64,
                            spec_sum_snd(r.0.state_transfer@) as u64,
                            self.max_transfer,
                        ),
                    )))
                },
                None => spec_is_progress(*action) ==> *final(ctx) == *old(ctx),
            }),
            spec_is_progress(*action) ==> {
                let (pd, pe, pr) = spec_progress(*action);
                let pid = spec_result_id(*action);
                &&& r.0.self_done == (if pid == self.id {
                    pd
                } else {
                    self.self_done
                })
                &&& r.0.self_expected == (if pid == self.id {
                    pe
                } else {
                    self.self_expected
                })
                &&& r.0.state_copy@ == (if crate::omap::spec_find(self.state_copy@, pid)
                    is Some {
                    crate::omap::spec_upsert(self.state_copy@, pid, (pd, pe))
                } else {
                    self.state_copy@
                })
                &&& r.0.state_transfer@ == (if crate::omap::spec_find(self.state_transfer@, pid)
                    is Some {
                    crate::omap::spec_upsert(self.state_transfer@, pid, (pd, pe))
                } else {
                    self.state_transfer@
                })
            },
            spec_is_set_expected(*action, ActionType::CopyPaths) ==> r.0.max_copy
                == spec_set_expected_value(*action) && r.0.max_transfer == self.max_transfer
                && *final(ctx) == *old(ctx),
            spec_is_set_expected(*action, ActionType::FileTransfer) ==> r.0.max_transfer
                == spec_set_expected_value(*action) && r.0.max_copy == self.max_copy && (
            match self.slot {
                Some(sl) => final(ctx).effects@.len() == old(ctx).effects@.len() + 2 && final(ctx).effects@[old(ctx).effects@.len() as int] == (Effect::SetLength {
                    slot: sl,
                    value: spec_set_expected_value(*action),
                }) && (final(ctx).effects@.last() matches Effect::SetPrefix { slot: s2, text }
                    && s2 == sl && text@ == crate::style::spec_render_bar(
                    crate::style::spec_group_advancement_segments(
                        old(ctx).term_size as u64 / 3,
                        spec_sum_fst(self.state_transfer@) as u64,
                        spec_sum_snd(self.state_transfer@) as u64,
                        spec_set_expected_value(*action),
                    ),
                )),
                None => *final(ctx) == *old(ctx),
            }),
            spec_is_stop(*action, self.id) ==> (match self.slot {
                Some(slot) => final(ctx).effects@ == old(ctx).effects@.push(
                    Effect::Println {
                        line: SummaryLine::DownloadedGroup {
                            count: self.self_done,
                            bytes_down: (spec_sum_fst(self.state_transfer@) as u64),
                            bytes_unpacked: (spec_sum_fst(self.state_copy@) as u64),
                        },
                    },
                ).push(Effect::FinishAndClear { slot }),
                None => *final(ctx) == *old(ctx),
            }),
            (match *action {
                Action::Stop { id } => id != self.id ==> r.0.copies@
                    == crate::omap::spec_shift_remove(self.copies@, id) && (
                if crate::omap::spec_find(self.copies@, id) is Some {
                    match self.slot {
                        Some(sl) => final(ctx).effects@.len() == old(ctx).effects@.len() + 1 && (
                        final(ctx).effects@.last() matches Effect::SetMessage { slot, text }
                            && slot == sl && text@ == spec_dg_message(
                            self.self_done,
                            self.self_expected,
                            r.0.copies@,
                        )),
                        None => *final(ctx) == *old(ctx),
                    }
                } else {
                    *final(ctx) == *old(ctx)
                }),
                _ => true,
            }),
            !(*action matches Action::Start { .. } || *action matches Action::Result { .. }
                || *action matches Action::Stop { .. }) ==> *final(ctx) == *old(ctx),
    {
        match action {
            Action::Start { start_type: StartFields::CopyPath { path, .. }, id, .. } => {
                let mut state_copy = self.state_copy;
                crate::omap::upsert(&mut state_copy, *id, (0u64, 0u64));
                let label = crate::style::format_short_build_target(path.as_str());
                let ghost lv = label;
                let mut copies = self.copies;
                crate::omap::upsert(&mut copies, *id, label);
                proof {
                    assert(lv@ == crate::style::spec_format_short(spec_copy_path(*action)@));
                    assert(copies@ == crate::omap::spec_upsert(
                        self.copies@,
                        spec_start_id(*action),
                        lv,
                    ));
                }
                let slot = match self.slot {
                    Some(slot) => slot,
                    None => {
                        let style = BarStyle {
                            template: StyleTemplate::DownloadsGroup,
                            width: ctx.term_size,
                        };
                        let fresh = ctx.alloc_bar(style);
                        ctx.effects.push(
                            Effect::SetLength { slot: fresh, value: self.max_transfer },
                        );
                        fresh
                    },
                };
                proof {
                    lemma_plug_none(old(ctx).plugged@, ctx.plugged@);
                    lemma_prefix(old(ctx).plugged@, ctx.plugged@);
                    lemma_prefix(old(ctx).effects@, ctx.effects@);
                }
                (
                    DownloadsGroupHandler {
                        id: self.id,
                        slot: Some(slot),
                        copies,
                        state_copy,
                        state_transfer: self.state_transfer,
                        self_done: self.self_done,
                        self_expected: self.self_expected,
                        max_copy: self.max_copy,
                        max_transfer: self.max_transfer,
                    },
                    HandlerResult::Continue,
                )
            },
            Action::Start { start_type: StartFields::FileTransfer { .. }, id, .. } => {
                let mut state_transfer = self.state_transfer;
                crate::omap::upsert(&mut state_transfer, *id, (0u64, 0u64));
                proof {
                    lemma_untouched(*ctx);
                }
                (
                    DownloadsGroupHandler {
                        id: self.id,
                        slot: self.slot,
                        copies: self.copies,
                        state_copy: self.state_copy,
                        state_transfer,
                        self_done: self.self_done,
                        self_expected: self.self_expected,
                        max_copy: self.max_copy,
                        max_transfer: self.max_transfer,
                    },
                    HandlerResult::Continue,
                )
            },
            Action::Result { id, fields: ResultFields::Progress { done, expected, .. } } => {
                let mut out = self;
                if *id == out.id {
                    out.self_done = *done;
                    out.self_expected = *expected;
                    if let Some(slot) = out.slot {
                        let text = dg_message(out.self_done, out.self_expected, &out.copies);
                        ctx.effects.push(Effect::SetMessage { slot, text });
                    }
                }
                let in_copy = crate::omap::upsert_if_present(
                    &mut out.state_copy,
                    *id,
                    (*done, *expected),
                );
                let in_transfer = crate::omap::upsert_if_present(
                    &mut out.state_transfer,
                    *id,
                    (*done, *expected),
                );
                if in_transfer {
                    if let Some(slot) = out.slot {
                        let current = sum_fst(&out.state_transfer);
                        ctx.effects.push(Effect::SetPosition { slot, value: current });
                        let running = sum_snd(&out.state_transfer);
                        let size = (ctx.term_size as u64) / 3;
                        let text = crate::style::group_advancement_bar_text(
                            size,
                            current,
                            running,
                            out.max_transfer,
                        );
                        ctx.effects.push(Effect::SetPrefix { slot, text });
                    }
                }
                proof {
                    lemma_plug_none(old(ctx).plugged@, ctx.plugged@);
                    lemma_prefix(old(ctx).plugged@, ctx.plugged@);
                    lemma_prefix(old(ctx).effects@, ctx.effects@);
                }
                (out, HandlerResult::Continue)
            },
            Action::Result {
                fields: ResultFields::SetExpected { action: ActionType::CopyPaths, expected },
                ..
            } => {
                let mut out = self;
                out.max_copy = *expected;
                proof {
                    lemma_untouched(*ctx);
                }
                (out, HandlerResult::Continue)
            },
            Action::Result {
                fields: ResultFields::SetExpected { action: ActionType::FileTransfer, expected },
                ..
            } => {
                let mut out = self;
                out.max_transfer = *expected;
                if let Some(slot) = out.slot {
                    ctx.effects.push(Effect::SetLength { slot, value: out.max_transfer });
                    let current = sum_fst(&out.state_transfer);
                    let running = sum_snd(&out.state_transfer);
                    let size = (ctx.term_size as u64) / 3;
                    let text = crate::style::group_advancement_bar_text(
                        size,
                        current,
                        running,
                        out.max_transfer,
                    );
                    ctx.effects.push(Effect::SetPrefix { slot, text });
                }
                proof {
                    lemma_plug_none(old(ctx).plugged@, ctx.plugged@);
                    lemma_prefix(old(ctx).plugged@, ctx.plugged@);
                    lemma_prefix(old(ctx).effects@, ctx.effects@);
                }
                (out, HandlerResult::Continue)
            },
            Action::Stop { id } => {
                if *id == self.id {
                    match self.slot {
                        Some(slot) => {
                            let bytes_down = sum_fst(&self.state_transfer);
                            let bytes_unpacked = sum_fst(&self.state_copy);
                            ctx.println(
                                SummaryLine::DownloadedGroup {
                                    count: self.self_done,
                                    bytes_down,
                                    bytes_unpacked,
                                },
                            );
                            ctx.effects.push(Effect::FinishAndClear { slot });
                        },
                        None => {},
                    }
                    proof {
                        lemma_plug_none(old(ctx).plugged@, ctx.plugged@);
                        lemma_prefix(old(ctx).plugged@, ctx.plugged@);
                        lemma_prefix(old(ctx).effects@, ctx.effects@);
                    }
                    (self, HandlerResult::Close)
                } else {
                    let mut copies = self.copies;
                    let removed = crate::omap::shift_remove(&mut copies, *id);
                    let out = DownloadsGroupHandler {
                        id: self.id,
                        slot: self.slot,
                        copies,
                        state_copy: self.state_copy,
                        state_transfer: self.state_transfer,
                        self_done: self.self_done,
                        self_expected: self.self_expected,
                        max_copy: self.max_copy,
                        max_transfer: self.max_transfer,
                    };
                    if removed {
                        if let Some(slot) = out.slot {
                            let text = dg_message(out.self_done, out.self_expected, &out.copies);
                            ctx.effects.push(Effect::SetMessage { slot, text });
                        }
                    }
                    proof {
                        lemma_plug_none(old(ctx).plugged@, ctx.plugged@);
                        lemma_prefix(old(ctx).plugged@, ctx.plugged@);
                        lemma_prefix(old(ctx).effects@, ctx.effects@);
                    }
                    (out, HandlerResult::Continue)
                }
            },
            _ => {
                proof {
                    lemma_untouched(*ctx);
                }
                (self, HandlerResult::Continue)
            },
        }
    }

    /// Redraws the group's bar, when it has one, for a new width.
    pub fn on_resize(&self, ctx: &mut Ctx)
        ensures
            spec_resize_ok(*old(ctx), *final(ctx)),
            spec_resize_fx(
                Handler::DownloadsGroup(DownloadsGroupHandler { copies: self.copies, ..*self }),
                old(ctx).term_size,
                old(ctx).windows@,
                old(ctx).effects@,
                final(ctx).effects@,
            ),
    {
        match self.slot {
            Some(slot) => {
                let style = BarStyle {
                    template: StyleTemplate::DownloadsGroup,
                    width: ctx.term_size,
                };
                ctx.effects.push(Effect::SetStyle { slot, style });
                let current = sum_fst(&self.state_transfer);
                let running = sum_snd(&self.state_transfer);
                let size = (ctx.term_size as u64) / 3;
                let text = crate::style::group_advancement_bar_text(
                    size,
                    current,
                    running,
                    self.max_transfer,
                );
                ctx.effects.push(Effect::SetPrefix { slot, text });
                proof {
                    lemma_prefix(old(ctx).effects@, ctx.effects@);
                }
            },
            None => {
                proof {
                    lemma_prefix(old(ctx).effects@, ctx.effects@);
                }
            },
        }
    }
}

/// The event announces a transfer, whatever its parent.
pub open spec fn spec_is_transfer_start_any(a: Action) -> bool {
    a matches Action::Start { start_type: StartFields::FileTransfer { .. }, .. }
}

/// The step id a result event updates.
pub open spec fn spec_result_id(a: Action) -> BuildStepId {
    match a {
        Action::Result { id, .. } => id,
        _ => BuildStepId(0),
    }
}

/// The message of a download group's bar: how many items finished out of
/// how many, then the labels still in flight.
pub open spec fn spec_dg_message(done: u64, expected: u64, ls: Seq<(BuildStepId, String)>) -> Seq<
    char,
> {
    "Downloaded "@ + crate::strutil::spec_dec(done as int) + "/"@ + crate::strutil::spec_dec(
        expected as int,
    ) + (if ls.len() == 0 {
        Seq::<char>::empty()
    } else {
        ": "@ + spec_labels_text(ls)
    })
}

/// Writes a download group's message.
pub fn dg_message(done: u64, expected: u64, copies: &Vec<(BuildStepId, String)>) -> (s: String)
    ensures
        s@ == spec_dg_message(done, expected, copies@),
{
    let mut s = String::from_str("Downloaded ");
    let d = crate::strutil::u64_to_string(done);
    s.append(d.as_str());
    s.append("/");
    let e = crate::strutil::u64_to_string(expected);
    s.append(e.as_str());
    if copies.len() > 0 {
        s.append(": ");
        let rest = labels_text(copies);
        s.append(rest.as_str());
    }
    proof {
        assert(s@ =~= spec_dg_message(done, expected, copies@));
    }
    s
}

impl Handler {
    /// Offers one event to this handler: it may emit effects, plug new
    /// handlers, and say whether it stays subscribed. Which events it
    /// consumes, whether it stays, and what it plugs follow its identity
    /// alone; a stop it does not own prints nothing.
    pub fn on_action(self, ctx: &mut Ctx, action: &Action) -> (r: (Handler, HandlerResult))
        ensures
            spec_step_ok(
                spec_hid(self),
                spec_hid(r.0),
                *action,
                *old(ctx),
                *final(ctx),
                r.1,
            ),
            self == Handler::NewMessage ==> (match *action {
                Action::Msg { level, msg } => final(ctx).effects@ == old(ctx).effects@.push(
                    Effect::Println { line: SummaryLine::Message { level, text: msg } },
                ),
                _ => *final(ctx) == *old(ctx),
            }),
            self == Handler::NewBuild ==> (match *action {
                Action::Start { start_type: StartFields::Build { .. }, .. } => (final(ctx).plugged@.last()
                    matches Handler::Build(b) && b.id == spec_start_id(*action) && b.target
                    == spec_build_target(*action)),
                _ => *final(ctx) == *old(ctx),
            }),
            self == Handler::NewBuildsGroup ==> (match *action {
                Action::Start { start_type: StartFields::Builds, id, .. } => (final(ctx).plugged@.last()
                    matches Handler::BuildGroup(g) && g.id == id && g.slot == old(ctx).next_slot
                    && g.window == old(ctx).windows@.len() && g.labels@ == Seq::<
                    (BuildStepId, String),
                >::empty() && g.done == 0 && g.expected == 0 && g.running == 0),
                _ => *final(ctx) == *old(ctx),
            }),
            self == Handler::NewDownload ==> (match *action {
                Action::Start { start_type: StartFields::CopyPath { path, .. }, id, .. } => (
                final(ctx).plugged@.last() matches Handler::WaitForTransfer(w) && w.copy_id == id
                    && w.path == path) && (final(ctx).plugged@[final(ctx).plugged@.len() - 2]
                    matches Handler::Log(l) && l.id == id),
                _ => *final(ctx) == *old(ctx),
            }),
            self == Handler::NewUnknown ==> (match *action {
                Action::Start { start_type: StartFields::Unknown, text, .. } => (exists|k: int|
                    old(ctx).effects@.len() <= k < final(ctx).effects@.len()
                        && (#[trigger] final(ctx).effects@[k] matches Effect::SetMessage {
                        text: t,
                        ..
                    } && t@ == crate::strutil::spec_capitalize(text@))),
                _ => true,
            }),
    {
        match self {
            Handler::NewBuild => {
                match action {
                    Action::Start { start_type: StartFields::Build { target, .. }, id, .. } => {
                        ctx.plug(
                            Handler::Build(BuildHandler { id: *id, target: target.clone() }),
                        );
                        proof {
                            lemma_plug_one(
                                old(ctx).plugged@,
                                ctx.plugged@,
                                ctx.plugged@[ctx.plugged@.len() - 1],
                            );
                            lemma_prefix(old(ctx).plugged@, ctx.plugged@);
                            lemma_prefix(old(ctx).effects@, ctx.effects@);
                        }
                    },
                    _ => {
                        proof {
                            lemma_untouched(*ctx);
                        }
                    },
                }
                (Handler::NewBuild, HandlerResult::Continue)
            },
            Handler::NewBuildsGroup => {
                match action {
                    Action::Start { start_type: StartFields::Builds, id, .. } => {
                        let style = BarStyle {
                            template: StyleTemplate::BuildsGroup,
                            width: ctx.term_size,
                        };
                        let slot = ctx.alloc_bar(style);
                        let ghost mid = *ctx;
                        let window = ctx.window_new();
                        ctx.plug(
                            Handler::BuildGroup(
                                BuildGroupHandler {
                                    id: *id,
                                    slot,
                                    window,
                                    labels: Vec::new(),
                                    done: 0,
                                    expected: 0,
                                    running: 0,
                                },
                            ),
                        );
                        proof {
                            lemma_plug_one(
                                old(ctx).plugged@,
                                ctx.plugged@,
                                ctx.plugged@[ctx.plugged@.len() - 1],
                            );
                            lemma_prefix(old(ctx).plugged@, ctx.plugged@);
                            assert forall|i: int|
                                0 <= i < old(ctx).effects@.len() implies old(ctx).effects@[i]
                                == ctx.effects@[i] by {
                                assert(mid.effects@ =~= ctx.effects@.subrange(
                                    0,
                                    mid.effects@.len() as int,
                                ));
                                assert(mid.effects@[i] == ctx.effects@[i]);
                            }
                            lemma_prefix(old(ctx).effects@, ctx.effects@);
                        }
                    },
                    _ => {
                        proof {
                            lemma_untouched(*ctx);
                        }
                    },
                }
                (Handler::NewBuildsGroup, HandlerResult::Continue)
            },
            Handler::NewDownload => {
                match action {
                    Action::Start { start_type: StartFields::CopyPath { path, .. }, id, .. } => {
                        ctx.plug(
                            Handler::Log(LogHandler { id: *id, logs: Vec::new(), window: None }),
                        );
                        ctx.plug(
                            Handler::WaitForTransfer(
                                WaitForTransferHandler { copy_id: *id, path: path.clone() },
                            ),
                        );
                        proof {
                            lemma_plug_two(
                                old(ctx).plugged@,
                                ctx.plugged@,
                                ctx.plugged@[ctx.plugged@.len() - 2],
                                ctx.plugged@[ctx.plugged@.len() - 1],
                            );
                            lemma_prefix(old(ctx).plugged@, ctx.plugged@);
                            lemma_prefix(old(ctx).effects@, ctx.effects@);
                        }
                    },
                    _ => {
                        proof {
                            lemma_untouched(*ctx);
                        }
                    },
                }
                (Handler::NewDownload, HandlerResult::Continue)
            },
            Handler::NewDownloadsGroup => {
                match action {
                    Action::Start { start_type: StartFields::CopyPaths, id, .. } => {
                        ctx.plug(
                            Handler::DownloadsGroup(
                                DownloadsGroupHandler {
                                    id: *id,
                                    slot: None,
                                    copies: Vec::new(),
                                    state_copy: Vec::new(),
                                    state_transfer: Vec::new(),
                                    self_done: 0,
                                    self_expected: 0,
                                    max_copy: 0,
                                    max_transfer: 0,
                                },
                            ),
                        );
                        proof {
                            lemma_plug_one(
                                old(ctx).plugged@,
                                ctx.plugged@,
                                ctx.plugged@[ctx.plugged@.len() - 1],
                            );
                            lemma_prefix(old(ctx).plugged@, ctx.plugged@);
                            lemma_prefix(old(ctx).effects@, ctx.effects@);
                        }
                    },
                    _ => {
                        proof {
                            lemma_untouched(*ctx);
                        }
                    },
                }
                (Handler::NewDownloadsGroup, HandlerResult::Continue)
            },
            Handler::NewMessage => {
                match action {
                    Action::Msg { level, msg } => {
                        ctx.println(SummaryLine::Message { level: *level, text: msg.clone() });
                        proof {
                            lemma_plug_none(old(ctx).plugged@, ctx.plugged@);
                            lemma_prefix(old(ctx).plugged@, ctx.plugged@);
                            lemma_prefix(old(ctx).effects@, ctx.effects@);
                        }
                    },
                    _ => {
                        proof {
                            lemma_untouched(*ctx);
                        }
                    },
                }
                (Handler::NewMessage, HandlerResult::Continue)
            },
            Handler::NewUnknown => {
                match action {
                    Action::Start { start_type: StartFields::Unknown, id, text, .. } => {
                        let style = BarStyle {
                            template: StyleTemplate::UnknownSpinner,
                            width: ctx.term_size,
                        };
                        let slot = ctx.alloc_bar(style);
                        let message = crate::strutil::capitalize_first(text.as_str());
                        ctx.effects.push(Effect::SetMessage { slot, text: message });
                        let ghost witness = ctx.effects@.len() - 1;
                        ctx.plug(Handler::Unknown(UnknownHandler { id: *id, slot }));
                        ctx.plug(
                            Handler::Log(LogHandler { id: *id, logs: Vec::new(), window: None }),
                        );
                        proof {
                            lemma_plug_two(
                                old(ctx).plugged@,
                                ctx.plugged@,
                                ctx.plugged@[ctx.plugged@.len() - 2],
                                ctx.plugged@[ctx.plugged@.len() - 1],
                            );
                            lemma_prefix(old(ctx).plugged@, ctx.plugged@);
                            lemma_prefix(old(ctx).effects@, ctx.effects@);
                            assert(ctx.effects@[witness] matches Effect::SetMessage {
                                text: t,
                                ..
                            } && t@ == crate::strutil::spec_capitalize(text@));
                        }
                    },
                    _ => {
                        proof {
                            lemma_untouched(*ctx);
                        }
                    },
                }
                (Handler::NewUnknown, HandlerResult::Continue)
            },
            Handler::Debug(d) => {
                let (d2, res) = d.on_action(ctx, action);
                (Handler::Debug(d2), res)
            },
            Handler::Build(b) => {
                let (b2, res) = b.on_action(ctx, action);
                (Handler::Build(b2), res)
            },
            Handler::BuildGroup(g) => {
                let (g2, res) = g.on_action(ctx, action);
                (Handler::BuildGroup(g2), res)
            },
            Handler::WaitForTransfer(w) => {
                let (w2, res) = w.on_action(ctx, action);
                (Handler::WaitForTransfer(w2), res)
            },
            Handler::Transfer(t) => {
                let (t2, res) = t.on_action(ctx, action);
                (Handler::Transfer(t2), res)
            },
            Handler::DownloadsGroup(d) => {
                let (d2, res) = d.on_action(ctx, action);
                (Handler::DownloadsGroup(d2), res)
            },
            Handler::Log(l) => {
                let (l2, res) = l.on_action(ctx, action);
                (Handler::Log(l2), res)
            },
            Handler::Unknown(u) => {
                let (u2, res) = u.on_action(ctx, action);
                (Handler::Unknown(u2), res)
            },
        }
    }

    /// Lets the handler redraw for a new terminal width: exactly the
    /// redraws its kind owes, nothing plugged, nothing printed, nothing
    /// closed.
    pub fn on_resize(&self, ctx: &mut Ctx)
        ensures
            spec_resize_ok(*old(ctx), *final(ctx)),
            spec_resize_fx(
                *self,
                old(ctx).term_size,
                old(ctx).windows@,
                old(ctx).effects@,
                final(ctx).effects@,
            ),
    {
        match self {
            Handler::Debug(d) => d.on_resize(ctx),
            Handler::BuildGroup(g) => g.on_resize(ctx),
            Handler::Transfer(t) => t.on_resize(ctx),
            Handler::DownloadsGroup(d) => d.on_resize(ctx),
            Handler::Unknown(u) => u.on_resize(ctx),
            _ => {
                proof {
                    lemma_prefix(old(ctx).effects@, ctx.effects@);
                }
            },
        }
    }
}

} // verus!
