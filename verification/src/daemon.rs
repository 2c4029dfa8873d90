//! What the daemon decides: which outputs it knows, which ramps they get, and how it answers.

use vstd::prelude::*;

use crate::config::{failure, levels_fault, settings_fault, Levels, Settings, SettingsView};
use crate::conflict::{conflict_message, conflict_text};
use crate::error::{fault, fault_about, full_text, Error, ErrorKind, ErrorView};
use crate::gamma::{
    channel_at, gamma_ramps, is_called_for, ramp_value, ramps_hold_what_levels_call_for,
};
use crate::ipc::outcome;
use crate::protocol::{
    Request, RequestView, Response, ResponseView, RuntimeState, RuntimeView, IPC_VERSION,
};
use crate::schedule::{current_levels, levels_now, valid_settings_give_valid_levels, LocalTime, Sky};
use crate::text::{copied_option, decimal, decimal_text, optional, texts};

verus! {

// ── outputs ──────────────────────────────────────────────────────────────────

/// A display output that the compositor announced.
#[derive(Debug)]
pub struct Output {
    pub global_name: u32,
    pub name: String,
    pub gamma_size: Option<u32>,
    pub failed: bool,
}

/// An output with its name as a sequence of characters.
pub struct OutputView {
    pub global_name: u32,
    pub name: Seq<char>,
    pub gamma_size: Option<u32>,
    pub failed: bool,
}

impl View for Output {
    type V = OutputView;

    open spec fn view(&self) -> OutputView {
        OutputView {
            global_name: self.global_name,
            name: self.name@,
            gamma_size: self.gamma_size,
            failed: self.failed,
        }
    }
}

/// How an output is listed.
pub open spec fn shown_name(output: OutputView) -> Seq<char> {
    if output.failed {
        output.name + " (gamma control unavailable)"@
    } else {
        output.name
    }
}

impl Output {
    /// How the output is listed.
    pub fn display_name(&self) -> (name: String)
        ensures
            name@ == shown_name(self@),
    {
        let mut name: String = self.name.clone();
        if self.failed {
            name.append(" (gamma control unavailable)");
        }
        name
    }
}

/// Outputs with their names as sequences of characters.
pub open spec fn output_views(outputs: Seq<Output>) -> Seq<OutputView> {
    Seq::new(outputs.len(), |i: int| outputs[i]@)
}

/// How outputs are listed.
pub open spec fn shown_names(outputs: Seq<OutputView>) -> Seq<Seq<char>> {
    Seq::new(outputs.len(), |i: int| shown_name(outputs[i]))
}

/// No two outputs have the same global name.
pub open spec fn distinct(outputs: Seq<OutputView>) -> bool {
    forall|i: int, j: int|
        0 <= i < j < outputs.len() ==> (#[trigger] outputs[i]).global_name != (
        #[trigger] outputs[j]).global_name
}

/// Where the output with a global name stands.
pub open spec fn place_of(outputs: Seq<OutputView>, global_name: u32) -> Option<int>
    decreases outputs.len(),
{
    if outputs.len() == 0 {
        None
    } else if outputs.last().global_name == global_name {
        Some(outputs.len() - 1)
    } else {
        place_of(outputs.drop_last(), global_name)
    }
}

proof fn lemma_place_of(outputs: Seq<OutputView>, global_name: u32)
    ensures
        match place_of(outputs, global_name) {
            Some(i) => 0 <= i < outputs.len() && outputs[i].global_name == global_name,
            None => forall|i: int|
                0 <= i < outputs.len() ==> (#[trigger] outputs[i]).global_name != global_name,
        },
    decreases outputs.len(),
{
    if outputs.len() > 0 && outputs.last().global_name != global_name {
        lemma_place_of(outputs.drop_last(), global_name);
        let rest = outputs.drop_last();
        assert forall|i: int| 0 <= i < rest.len() implies rest[i] == outputs[i] by {}
        if place_of(outputs, global_name) is None {
            assert forall|i: int| 0 <= i < outputs.len() implies (
            #[trigger] outputs[i]).global_name != global_name by {
                if i < rest.len() {
                    assert(rest[i].global_name != global_name);
                }
            }
        }
    }
}

/// Outputs with one of them changed, if it is there.
pub open spec fn changed(
    outputs: Seq<OutputView>,
    global_name: u32,
    change: spec_fn(OutputView) -> OutputView,
) -> Seq<OutputView> {
    match place_of(outputs, global_name) {
        Some(i) => outputs.update(i, change(outputs[i])),
        None => outputs,
    }
}

/// The names of the outputs that gave up their gamma control.
pub open spec fn failed_names(outputs: Seq<OutputView>) -> Seq<Seq<char>>
    decreases outputs.len(),
{
    if outputs.len() == 0 {
        Seq::empty()
    } else if outputs.last().failed {
        failed_names(outputs.drop_last()).push(outputs.last().name)
    } else {
        failed_names(outputs.drop_last())
    }
}

// ── ramps ────────────────────────────────────────────────────────────────────

/// Whether a list of entries is the ramps of the three channels.
pub open spec fn is_ramps(ramps: Seq<u16>, size: u32, levels: Levels) -> bool {
    &&& ramps.len() == 3 * size
    &&& forall|place: int, index: int|
        0 <= place < 3 && 0 <= index < size ==> #[trigger] ramps[place * size + index]
            == ramp_value(channel_at(place), index, size as int, levels)
}

/// Whether an output can be given ramps: it told the size of them, and did not fail.
pub open spec fn takes_ramps(output: OutputView) -> bool {
    output.gamma_size is Some && !output.failed
}

/// Ramps for one output.
#[derive(Debug)]
pub struct RampUpdate {
    pub global_name: u32,
    pub ramps: Vec<u16>,
}

/// Whether an update gives an output the ramps of some levels.
pub open spec fn updates_output(update: RampUpdate, output: OutputView, active: Levels) -> bool {
    &&& takes_ramps(output)
    &&& update.global_name == output.global_name
    &&& is_ramps(update.ramps@, output.gamma_size->0, active)
}

/// Whether updates are one for each output that takes ramps, in the order of the outputs.
pub open spec fn updates_all(
    updates: Seq<RampUpdate>,
    outputs: Seq<OutputView>,
    active: Levels,
) -> bool
    decreases outputs.len(),
{
    if outputs.len() == 0 {
        updates.len() == 0
    } else if takes_ramps(outputs.last()) {
        updates.len() > 0 && updates_output(updates.last(), outputs.last(), active) && updates_all(
            updates.drop_last(),
            outputs.drop_last(),
            active,
        )
    } else {
        updates_all(updates, outputs.drop_last(), active)
    }
}

// ── the daemon ───────────────────────────────────────────────────────────────

/// What the daemon knows.
#[derive(Debug)]
pub struct DaemonState {
    outputs: Vec<Output>,
    settings: Settings,
    active: Levels,
    conflict: Option<String>,
}

/// What the daemon knows, with texts as sequences of characters.
pub struct DaemonView {
    pub outputs: Seq<OutputView>,
    pub settings: SettingsView,
    pub active: Levels,
    pub conflict: Option<Seq<char>>,
}

impl View for DaemonState {
    type V = DaemonView;

    closed spec fn view(&self) -> DaemonView {
        DaemonView {
            outputs: output_views(self.outputs@),
            settings: self.settings@,
            active: self.active,
            conflict: optional(self.conflict),
        }
    }
}

/// What the daemon tells its clients.
pub open spec fn runtime_view(state: DaemonView) -> RuntimeView {
    RuntimeView {
        settings: state.settings,
        outputs: shown_names(state.outputs),
        backend: "wlr-gamma-control-v1"@,
        active_warmth: state.active.warmth,
        active_brightness: state.active.brightness,
        conflict: state.conflict,
    }
}

/// What the daemon has to do about a request: answer it, or store settings first.
#[derive(Debug)]
pub enum Action {
    Reply(Response),
    Store(Settings),
}

/// What the daemon has to do, with texts as sequences of characters.
pub enum ActionView {
    Reply(ResponseView),
    Store(SettingsView),
}

impl View for Action {
    type V = ActionView;

    open spec fn view(&self) -> ActionView {
        match *self {
            Action::Reply(response) => ActionView::Reply(response@),
            Action::Store(settings) => ActionView::Store(settings@),
        }
    }
}

/// A refusal.
pub open spec fn refusal(message: Seq<char>) -> ResponseView {
    ResponseView::Error { version: IPC_VERSION, message }
}

/// The wording for a client of another version.
pub open spec fn version_text(version: u32) -> Seq<char> {
    "unsupported IPC protocol version "@ + decimal_text(version as int)
        + " (daemon expects "@ + decimal_text(IPC_VERSION as int)
        + "); reinstall and restart the Waywarm service"@
}

/// What the daemon has to do about a request. A client of another version is refused; settings
/// that are not valid are refused with what is wrong with them.
pub open spec fn action_for(state: DaemonView, request: RequestView) -> ActionView {
    match request {
        RequestView::GetState { version } => if version == IPC_VERSION {
            ActionView::Reply(
                ResponseView::State { version: IPC_VERSION, state: runtime_view(state) },
            )
        } else {
            ActionView::Reply(refusal(version_text(version)))
        },
        RequestView::ReplaceSettings { version, settings } => if version != IPC_VERSION {
            ActionView::Reply(refusal(version_text(version)))
        } else {
            match settings_fault(settings) {
                Some(error) => ActionView::Reply(refusal(full_text(error))),
                None => ActionView::Store(settings),
            }
        },
    }
}

/// A refusal.
pub fn error_response(message: String) -> (response: Response)
    ensures
        response@ == refusal(message@),
{
    Response::Error { version: IPC_VERSION, message }
}

/// The refusal of a request that cannot be read.
pub fn invalid_request(error: &str) -> (response: Response)
    ensures
        response@ == refusal("invalid request: "@ + error@),
{
    let mut message: String = "invalid request: ".to_owned();
    message.append(error);
    error_response(message)
}

fn version_response(version: u32) -> (response: Response)
    ensures
        response@ == refusal(version_text(version)),
{
    let mut message: String = "unsupported IPC protocol version ".to_owned();
    message.append(decimal(version).as_str());
    message.append(" (daemon expects ");
    message.append(decimal(IPC_VERSION).as_str());
    message.append("); reinstall and restart the Waywarm service");
    error_response(message)
}

impl DaemonState {
    #[verifier::type_invariant]
    spec fn inv(self) -> bool {
        distinct(output_views(self.outputs@))
    }

    /// A daemon that knows no output yet.
    pub fn new(settings: Settings, active: Levels) -> (state: Self)
        ensures
            state@ == (DaemonView {
                outputs: Seq::empty(),
                settings: settings@,
                active,
                conflict: None,
            }),
    {
        let outputs: Vec<Output> = Vec::new();
        assert(output_views(outputs@) =~= Seq::<OutputView>::empty());
        DaemonState { outputs, settings, active, conflict: None }
    }

    /// The outputs of a daemon are told apart by their global names.
    pub fn outputs(&self) -> (outputs: &Vec<Output>)
        ensures
            output_views(outputs@) == self@.outputs,
            distinct(self@.outputs),
    {
        proof {
            use_type_invariant(self);
        }
        &self.outputs
    }

    pub fn settings(&self) -> (settings: &Settings)
        ensures
            settings@ == self@.settings,
    {
        &self.settings
    }

    pub fn active(&self) -> (levels: Levels)
        ensures
            levels == self@.active,
    {
        self.active
    }

    /// Where the output with a global name stands.
    fn position(&self, global_name: u32) -> (place: Option<usize>)
        ensures
            match place {
                Some(i) => place_of(self@.outputs, global_name) == Some(i as int) && i
                    < self.outputs.len(),
                None => place_of(self@.outputs, global_name) is None,
            },
    {
        let ghost all = self@.outputs;
        let mut end: usize = self.outputs.len();
        proof {
            assert(all.take(end as int) =~= all);
        }
        while end > 0
            invariant
                end <= self.outputs.len(),
                all == output_views(self.outputs@),
                place_of(all, global_name) == place_of(all.take(end as int), global_name),
            decreases end,
        {
            proof {
                assert(all.take(end as int).drop_last() =~= all.take(end - 1));
                assert(all[end - 1].global_name == self.outputs@[end - 1].global_name);
            }
            if self.outputs[end - 1].global_name == global_name {
                return Some(end - 1);
            }
            end = end - 1;
        }
        None
    }

    /// Takes note of an output, unless it is known; the result is the version of the output's
    /// interface to use with it.
    pub fn add_output(&mut self, global_name: u32, version: u32) -> (bind: Option<u32>)
        ensures
            match place_of(old(self)@.outputs, global_name) {
                Some(_) => bind is None && final(self)@ == old(self)@,
                None => bind == Some(
                    if version < 4 {
                        version
                    } else {
                        4
                    },
                ) && final(self)@ == (DaemonView {
                    outputs: old(self)@.outputs.push(
                        OutputView {
                            global_name,
                            name: "output-"@ + decimal_text(global_name as int),
                            gamma_size: None,
                            failed: false,
                        },
                    ),
                    ..old(self)@
                }),
            },
    {
        if self.position(global_name).is_some() {
            return None;
        }
        let ghost before = self@;
        let mut name: String = "output-".to_owned();
        name.append(decimal(global_name).as_str());
        let output: Output = Output { global_name, name, gamma_size: None, failed: false };
        let ghost added = output@;
        proof {
            use_type_invariant(&*self);
            lemma_place_of(before.outputs, global_name);
        }
        let mut outputs: Vec<Output> = Vec::new();
        std::mem::swap(&mut outputs, &mut self.outputs);
        outputs.push(output);
        proof {
            assert(output_views(outputs@) =~= before.outputs.push(added));
        }
        self.outputs = outputs;
        Some(
            if version < 4 {
                version
            } else {
                4
            },
        )
    }

    /// Forgets an output; the result says whether the output's proxy, of the given version, is to
    /// be released besides its gamma control, which goes in any case.
    pub fn remove_output(&mut self, global_name: u32, proxy_version: u32) -> (release: Option<bool>)
        ensures
            match place_of(old(self)@.outputs, global_name) {
                Some(i) => release == Some(proxy_version >= 3) && final(self)@ == (DaemonView {
                    outputs: old(self)@.outputs.remove(i),
                    ..old(self)@
                }),
                None => release is None && final(self)@ == old(self)@,
            },
    {
        let ghost before = self@;
        match self.position(global_name) {
            Some(i) => {
                proof {
                    use_type_invariant(&*self);
                }
                let mut outputs: Vec<Output> = Vec::new();
                std::mem::swap(&mut outputs, &mut self.outputs);
                let _ = outputs.remove(i);
                proof {
                    let after = before.outputs.remove(i as int);
                    assert(output_views(outputs@) =~= after);
                    assert forall|a: int, b: int| 0 <= a < b < after.len() implies (
                    #[trigger] after[a]).global_name != (#[trigger] after[b]).global_name by {
                        let p = if a < i {
                            a
                        } else {
                            a + 1
                        };
                        let q = if b < i {
                            b
                        } else {
                            b + 1
                        };
                        assert(after[a] == before.outputs[p] && after[b] == before.outputs[q]);
                    }
                }
                self.outputs = outputs;
                Some(proxy_version >= 3)
            },
            None => None,
        }
    }

    /// Puts another output in the place of one with the same global name.
    fn replace_output(&mut self, i: usize, output: Output)
        requires
            i < old(self)@.outputs.len(),
            output@.global_name == old(self)@.outputs[i as int].global_name,
        ensures
            final(self)@ == (DaemonView {
                outputs: old(self)@.outputs.update(i as int, output@),
                ..old(self)@
            }),
    {
        let ghost before = self@;
        let ghost replaced = output@;
        proof {
            use_type_invariant(&*self);
        }
        let mut outputs: Vec<Output> = Vec::new();
        std::mem::swap(&mut outputs, &mut self.outputs);
        outputs.set(i, output);
        proof {
            assert(output_views(outputs@) =~= before.outputs.update(i as int, replaced));
        }
        self.outputs = outputs;
    }

    /// Takes note of the name that an output tells.
    pub fn name_output(&mut self, global_name: u32, name: String)
        ensures
            final(self)@ == (DaemonView {
                outputs: changed(
                    old(self)@.outputs,
                    global_name,
                    |output: OutputView| OutputView { name: name@, ..output },
                ),
                ..old(self)@
            }),
    {
        if let Some(i) = self.position(global_name) {
            let known: &Output = &self.outputs[i];
            assert(known@ == self@.outputs[i as int]);
            let output: Output = Output {
                global_name: known.global_name,
                name,
                gamma_size: known.gamma_size,
                failed: known.failed,
            };
            self.replace_output(i, output);
        }
    }

    /// Takes note of the size that the ramps of an output have.
    pub fn size_output(&mut self, global_name: u32, size: u32)
        ensures
            final(self)@ == (DaemonView {
                outputs: changed(
                    old(self)@.outputs,
                    global_name,
                    |output: OutputView| OutputView { gamma_size: Some(size), ..output },
                ),
                ..old(self)@
            }),
    {
        if let Some(i) = self.position(global_name) {
            let known: &Output = &self.outputs[i];
            assert(known@ == self@.outputs[i as int]);
            let output: Output = Output {
                global_name: known.global_name,
                name: known.name.clone(),
                gamma_size: Some(size),
                failed: known.failed,
            };
            self.replace_output(i, output);
        }
    }

    /// Takes note that an output gave up its gamma control, with the competing processes of that
    /// moment.
    pub fn fail_output(&mut self, global_name: u32, competitors: &[String])
        ensures
            ({
                let outputs = changed(
                    old(self)@.outputs,
                    global_name,
                    |output: OutputView| OutputView { failed: true, ..output },
                );
                final(self)@ == (DaemonView {
                    outputs,
                    conflict: conflict_text(failed_names(outputs), texts(competitors@)),
                    ..old(self)@
                })
            }),
    {
        if let Some(i) = self.position(global_name) {
            let known: &Output = &self.outputs[i];
            assert(known@ == self@.outputs[i as int]);
            let output: Output = Output {
                global_name: known.global_name,
                name: known.name.clone(),
                gamma_size: known.gamma_size,
                failed: true,
            };
            self.replace_output(i, output);
        }
        self.refresh_conflict(competitors);
    }

    /// Sums up what may keep displays from following the filter.
    pub fn refresh_conflict(&mut self, competitors: &[String])
        ensures
            final(self)@ == (DaemonView {
                conflict: conflict_text(failed_names(old(self)@.outputs), texts(competitors@)),
                ..old(self)@
            }),
    {
        let ghost all = self@.outputs;
        let mut failed: Vec<String> = Vec::new();
        proof {
            assert(texts(failed@) =~= failed_names(all.take(0)));
        }
        for i in 0..self.outputs.len()
            invariant
                all == output_views(self.outputs@),
                texts(failed@) == failed_names(all.take(i as int)),
        {
            let ghost before = texts(failed@);
            proof {
                assert(all.take(i + 1).drop_last() =~= all.take(i as int));
                assert(all.take(i + 1).last() == self.outputs@[i as int]@);
            }
            if self.outputs[i].failed {
                failed.push(self.outputs[i].name.clone());
                proof {
                    assert(texts(failed@) =~= before.push(self.outputs@[i as int].name@));
                }
            }
        }
        proof {
            use_type_invariant(&*self);
            assert(all.take(all.len() as int) =~= all);
        }
        self.conflict = conflict_message(failed.as_slice(), competitors);
    }

    /// The ramps for one output, if it takes any.
    pub fn apply_output(&self, global_name: u32) -> (update: Option<RampUpdate>)
        ensures
            match place_of(self@.outputs, global_name) {
                Some(i) => match update {
                    Some(u) => updates_output(u, self@.outputs[i], self@.active),
                    None => !takes_ramps(self@.outputs[i]),
                },
                None => update is None,
            },
    {
        match self.position(global_name) {
            Some(i) => {
                assert(self@.outputs[i as int] == self.outputs@[i as int]@);
                proof {
                    lemma_place_of(self@.outputs, global_name);
                }
                self.ramps_for(&self.outputs[i])
            },
            None => None,
        }
    }

    fn ramps_for(&self, output: &Output) -> (update: Option<RampUpdate>)
        ensures
            match update {
                Some(u) => updates_output(u, output@, self@.active),
                None => !takes_ramps(output@),
            },
    {
        match output.gamma_size {
            Some(size) => if output.failed {
                None
            } else {
                Some(
                    RampUpdate {
                        global_name: output.global_name,
                        ramps: gamma_ramps(size, self.active),
                    },
                )
            },
            None => None,
        }
    }

    /// The ramps for every output that takes any.
    pub fn apply_all(&self) -> (updates: Vec<RampUpdate>)
        ensures
            updates_all(updates@, self@.outputs, self@.active),
    {
        let ghost all = self@.outputs;
        let mut updates: Vec<RampUpdate> = Vec::new();
        for i in 0..self.outputs.len()
            invariant
                all == self@.outputs,
                all == output_views(self.outputs@),
                updates_all(updates@, all.take(i as int), self@.active),
        {
            let ghost before = updates@;
            proof {
                assert(all.take(i + 1).drop_last() =~= all.take(i as int));
                assert(all.take(i + 1).last() == self.outputs@[i as int]@);
            }
            if let Some(update) = self.ramps_for(&self.outputs[i]) {
                updates.push(update);
                proof {
                    assert(updates@.drop_last() =~= before);
                }
            }
        }
        proof {
            assert(all.take(all.len() as int) =~= all);
        }
        updates
    }

    /// Follows the schedule to a time of day; the result says whether the ramps have to be applied
    /// anew.
    pub fn refresh_active(
        &mut self,
        competitors: &[String],
        now: LocalTime,
        sky: Sky,
    ) -> (changed: Result<bool, Error>)
        requires
            now.valid(),
            sky.valid(),
        ensures
            ({
                let conflict = conflict_text(failed_names(old(self)@.outputs), texts(competitors@));
                match levels_now(old(self)@.settings, now, sky) {
                    Ok(levels) => changed is Ok && changed->Ok_0 == (levels != old(self)@.active)
                        && final(self)@ == (DaemonView { conflict, active: levels, ..old(self)@ }),
                    Err(error) => failure(changed) == Some(error) && final(self)@ == (DaemonView {
                        conflict,
                        ..old(self)@
                    }),
                }
            }),
    {
        self.refresh_conflict(competitors);
        match current_levels(&self.settings, now, sky) {
            Ok(next) => {
                let changed: bool = next != self.active;
                proof {
                    use_type_invariant(&*self);
                }
                self.active = next;
                Ok(changed)
            },
            Err(error) => Err(error),
        }
    }

    /// What the daemon tells its clients.
    pub fn runtime_state(&self) -> (state: RuntimeState)
        ensures
            state@ == runtime_view(self@),
    {
        let mut outputs: Vec<String> = Vec::new();
        for i in 0..self.outputs.len()
            invariant
                outputs.len() == i,
                forall|j: int|
                    0 <= j < i ==> (#[trigger] outputs@[j])@ == shown_name(self.outputs@[j]@),
        {
            outputs.push(self.outputs[i].display_name());
        }
        proof {
            assert(texts(outputs@) =~= shown_names(self@.outputs));
        }
        RuntimeState {
            settings: self.settings.clone(),
            outputs,
            backend: "wlr-gamma-control-v1".to_owned(),
            active_warmth: self.active.warmth,
            active_brightness: self.active.brightness,
            conflict: copied_option(&self.conflict),
        }
    }

    /// The answer to a request that was met.
    pub fn state_response(&self) -> (response: Response)
        ensures
            response@ == (ResponseView::State { version: IPC_VERSION, state: runtime_view(self@) }),
    {
        Response::State { version: IPC_VERSION, state: self.runtime_state() }
    }

    /// Decides what to do about a request.
    pub fn handle_request(&self, request: Request) -> (action: Action)
        ensures
            action@ == action_for(self@, request@),
    {
        match request {
            Request::GetState { version } => if version == IPC_VERSION {
                Action::Reply(self.state_response())
            } else {
                Action::Reply(version_response(version))
            },
            Request::ReplaceSettings { version, settings } => if version != IPC_VERSION {
                Action::Reply(version_response(version))
            } else {
                match settings.validate() {
                    Ok(()) => Action::Store(settings),
                    Err(error) => Action::Reply(error_response(error.message())),
                }
            },
        }
    }

    /// Puts settings that were stored into force. The levels change at once, and the ramps have to
    /// be applied anew.
    pub fn adopt_settings(&mut self, settings: Settings, now: LocalTime, sky: Sky) -> (r: Result<
        (),
        Error,
    >)
        requires
            now.valid(),
            sky.valid(),
        ensures
            match levels_now(settings@, now, sky) {
                Ok(levels) => r is Ok && final(self)@ == (DaemonView {
                    settings: settings@,
                    active: levels,
                    ..old(self)@
                }),
                Err(error) => failure(r) == Some(error) && final(self)@ == (DaemonView {
                    settings: settings@,
                    ..old(self)@
                }),
            },
    {
        proof {
            use_type_invariant(&*self);
        }
        self.settings = settings;
        match current_levels(&self.settings, now, sky) {
            Ok(levels) => {
                self.active = levels;
                Ok(())
            },
            Err(error) => Err(error),
        }
    }
}

// ── the daemon's life ────────────────────────────────────────────────────────

/// What a look at the daemon's socket found.
#[derive(Clone, Copy, Debug, PartialEq, Eq, Structural)]
pub enum SocketProbe {
    /// There is no such file.
    Missing,
    /// Somebody answered.
    Answered,
    /// Nobody listens any more.
    Refused,
    /// The look itself failed.
    Failed,
}

/// Decides about a socket that an earlier daemon may have left: whether it is to be removed, or
/// why this daemon cannot start.
pub fn remove_stale_socket(probe: SocketProbe) -> (remove: Result<bool, Error>)
    ensures
        failure(remove) == (match probe {
            SocketProbe::Answered => Some(fault(ErrorKind::AlreadyRunning)),
            SocketProbe::Failed => Some(fault(ErrorKind::SocketProbe)),
            _ => None,
        }),
        remove is Ok ==> remove->Ok_0 == (probe == SocketProbe::Refused),
{
    match probe {
        SocketProbe::Missing => Ok(false),
        SocketProbe::Refused => Ok(true),
        SocketProbe::Answered => Err(Error::new(ErrorKind::AlreadyRunning)),
        SocketProbe::Failed => Err(Error::new(ErrorKind::SocketProbe)),
    }
}

/// What became of a backend that runs beside a frontend.
#[derive(Debug)]
pub enum BackendEnd {
    /// It runs.
    Running,
    /// It ended, or its end was reported before.
    Finished,
    /// It ended with an error.
    Failed(String),
    /// It panicked.
    Panicked,
}

/// Checks that a backend still runs.
pub fn check_running(end: &BackendEnd) -> (r: Result<(), Error>)
    ensures
        failure(r) == (match *end {
            BackendEnd::Running => None,
            BackendEnd::Finished => Some(fault(ErrorKind::BackendStopped)),
            BackendEnd::Failed(error) => Some(fault_about(ErrorKind::BackendFailed, error@)),
            BackendEnd::Panicked => Some(fault(ErrorKind::BackendPanicked)),
        }),
{
    match end {
        BackendEnd::Running => Ok(()),
        BackendEnd::Finished => Err(Error::new(ErrorKind::BackendStopped)),
        BackendEnd::Failed(error) => Err(
            Error::about(ErrorKind::BackendFailed, error.as_str()),
        ),
        BackendEnd::Panicked => Err(Error::new(ErrorKind::BackendPanicked)),
    }
}

// ── what holds between requests ──────────────────────────────────────────────

/// The daemon after it put stored settings into force.
pub open spec fn adopted(state: DaemonView, settings: SettingsView, now: LocalTime, sky: Sky) -> DaemonView {
    DaemonView {
        settings,
        active: match levels_now(settings, now, sky) {
            Ok(levels) => levels,
            Err(_) => state.active,
        },
        ..state
    }
}

/// Settings that a client sends, and that the daemon is asked to store, are what every client
/// reads afterwards, together with the levels that they call for; those levels are valid.
pub proof fn stored_settings_are_read_back(
    state: DaemonView,
    settings: SettingsView,
    now: LocalTime,
    sky: Sky,
)
    requires
        now.valid(),
        sky.valid(),
        action_for(
            state,
            RequestView::ReplaceSettings { version: IPC_VERSION, settings },
        ) is Store,
    ensures
        action_for(state, RequestView::ReplaceSettings { version: IPC_VERSION, settings })
            == ActionView::Store(settings),
        ({
            let after = adopted(state, settings, now, sky);
            let answer = action_for(after, RequestView::GetState { version: IPC_VERSION });
            &&& levels_now(settings, now, sky) == Ok::<Levels, ErrorView>(after.active)
            &&& crate::config::levels_fault(after.active) is None
            &&& answer matches ActionView::Reply(response) && outcome(response) matches Ok(
                shown,
            ) && shown.settings == settings && shown.active_warmth == after.active.warmth
                && shown.active_brightness == after.active.brightness
        }),
{
    valid_settings_give_valid_levels(settings, now, sky);
}

/// A client of another version is refused, whatever it asks.
pub proof fn other_versions_are_refused(state: DaemonView, version: u32, settings: SettingsView)
    requires
        version != IPC_VERSION,
    ensures
        action_for(state, RequestView::GetState { version }) == ActionView::Reply(
            refusal(version_text(version)),
        ),
        action_for(state, RequestView::ReplaceSettings { version, settings }) == ActionView::Reply(
            refusal(version_text(version)),
        ),
{
}

/// Settings are stored exactly if they are valid; otherwise the client is told what is wrong.
pub proof fn only_valid_settings_are_stored(state: DaemonView, settings: SettingsView)
    ensures
        ({
            let action = action_for(
                state,
                RequestView::ReplaceSettings { version: IPC_VERSION, settings },
            );
            &&& action is Store <==> settings_fault(settings) is None
            &&& settings_fault(settings) matches Some(error) ==> action == ActionView::Reply(
                refusal(full_text(error)),
            )
        }),
{
}

/// An output is found where it stands, and only a known one is found.
pub proof fn outputs_are_found_by_their_global_name(outputs: Seq<OutputView>, global_name: u32)
    requires
        distinct(outputs),
    ensures
        forall|i: int|
            0 <= i < outputs.len() && (#[trigger] outputs[i]).global_name == global_name
                ==> place_of(outputs, global_name) == Some(i),
        (forall|i: int| 0 <= i < outputs.len() ==> (#[trigger] outputs[i]).global_name != global_name)
            ==> place_of(outputs, global_name) is None,
{
    lemma_place_of(outputs, global_name);
    assert forall|i: int| 0 <= i < outputs.len() && (#[trigger] outputs[i]).global_name
        == global_name implies place_of(outputs, global_name) == Some(i) by {
        let k = place_of(outputs, global_name)->0;
        if i < k {
            assert(outputs[i].global_name != outputs[k].global_name);
        } else if k < i {
            assert(outputs[k].global_name != outputs[i].global_name);
        }
    }
}

/// A change of an output changes the one with that global name, and no other.
pub proof fn changes_concern_one_output(
    outputs: Seq<OutputView>,
    global_name: u32,
    change: spec_fn(OutputView) -> OutputView,
)
    requires
        distinct(outputs),
    ensures
        changed(outputs, global_name, change).len() == outputs.len(),
        forall|i: int|
            0 <= i < outputs.len() ==> #[trigger] changed(outputs, global_name, change)[i] == (
            if outputs[i].global_name == global_name {
                change(outputs[i])
            } else {
                outputs[i]
            }),
{
    outputs_are_found_by_their_global_name(outputs, global_name);
    lemma_place_of(outputs, global_name);
}

/// Clients are told of the settings, the levels in force, the conflict, and every output by its
/// name; a name has a remark behind it exactly if the output gave up its gamma control.
pub proof fn clients_are_told_of_everything(state: DaemonView)
    ensures
        ({
            let told = runtime_view(state);
            &&& told.settings == state.settings
            &&& told.active_warmth == state.active.warmth
            &&& told.active_brightness == state.active.brightness
            &&& told.conflict == state.conflict
            &&& told.outputs.len() == state.outputs.len()
            &&& forall|i: int|
                0 <= i < state.outputs.len() ==> #[trigger] told.outputs[i] == (
                if state.outputs[i].failed {
                    state.outputs[i].name + " (gamma control unavailable)"@
                } else {
                    state.outputs[i].name
                })
            &&& action_for(state, RequestView::GetState { version: IPC_VERSION })
                == ActionView::Reply(ResponseView::State { version: IPC_VERSION, state: told })
        }),
{
}

/// The outputs that count as failed are those that gave up their gamma control, each by its name and
/// in their order.
pub proof fn failed_outputs_are_named(outputs: Seq<OutputView>, output: OutputView)
    ensures
        failed_names(Seq::empty()) == Seq::<Seq<char>>::empty(),
        failed_names(outputs.push(output)) == (if output.failed {
            failed_names(outputs).push(output.name)
        } else {
            failed_names(outputs)
        }),
{
    assert(outputs.push(output).drop_last() =~= outputs);
    assert(outputs.push(output).last() == output);
}

/// Applying levels gives every output that told the size of its ramps and did not fail one update,
/// under its global name, with the three ramps of that size that the levels call for; no other
/// output gets any.
pub proof fn every_working_output_gets_its_ramps(
    updates: Seq<RampUpdate>,
    outputs: Seq<OutputView>,
    active: Levels,
)
    requires
        updates_all(updates, outputs, active),
        levels_fault(active) is None,
    ensures
        forall|i: int|
            #![trigger outputs[i]]
            0 <= i < outputs.len() && outputs[i].gamma_size is Some && !outputs[i].failed
                ==> exists|k: int|
                0 <= k < updates.len() && gives(#[trigger] updates[k], outputs[i], active),
        forall|k: int|
            #![trigger updates[k]]
            0 <= k < updates.len() ==> exists|i: int|
                0 <= i < outputs.len() && (#[trigger] outputs[i]).gamma_size is Some
                    && !outputs[i].failed && gives(updates[k], outputs[i], active),
        updates.len() <= outputs.len(),
    decreases outputs.len(),
{
    if outputs.len() > 0 {
        let rest = outputs.drop_last();
        let at = outputs.len() - 1;
        if takes_ramps(outputs.last()) {
            let fewer = updates.drop_last();
            every_working_output_gets_its_ramps(fewer, rest, active);
            lemma_gives(updates.last(), outputs.last(), active);
            let last = updates.len() - 1;
            assert forall|i: int|
                #![trigger outputs[i]]
                0 <= i < outputs.len() && outputs[i].gamma_size is Some
                    && !outputs[i].failed implies exists|k: int|
                0 <= k < updates.len() && gives(#[trigger] updates[k], outputs[i], active) by {
                if i < at {
                    assert(rest[i] == outputs[i]);
                    let k = choose|k: int|
                        0 <= k < fewer.len() && gives(#[trigger] fewer[k], rest[i], active);
                    assert(gives(updates[k], outputs[i], active));
                } else {
                    assert(gives(updates[last], outputs[i], active));
                }
            }
            assert forall|k: int|
                #![trigger updates[k]]
                0 <= k < updates.len() implies exists|i: int|
                0 <= i < outputs.len() && (#[trigger] outputs[i]).gamma_size is Some
                    && !outputs[i].failed && gives(updates[k], outputs[i], active) by {
                if k < last {
                    assert(fewer[k] == updates[k]);
                    let i = choose|i: int|
                        0 <= i < rest.len() && (#[trigger] rest[i]).gamma_size is Some
                            && !rest[i].failed && gives(fewer[k], rest[i], active);
                    assert(outputs[i].gamma_size is Some);
                } else {
                    assert(outputs[at].gamma_size is Some);
                }
            }
        } else {
            every_working_output_gets_its_ramps(updates, rest, active);
            assert forall|i: int|
                #![trigger outputs[i]]
                0 <= i < outputs.len() && outputs[i].gamma_size is Some
                    && !outputs[i].failed implies exists|k: int|
                0 <= k < updates.len() && gives(#[trigger] updates[k], outputs[i], active) by {
                assert(rest[i] == outputs[i]);
            }
            assert forall|k: int|
                #![trigger updates[k]]
                0 <= k < updates.len() implies exists|i: int|
                0 <= i < outputs.len() && (#[trigger] outputs[i]).gamma_size is Some
                    && !outputs[i].failed && gives(updates[k], outputs[i], active) by {
                let i = choose|i: int|
                    0 <= i < rest.len() && (#[trigger] rest[i]).gamma_size is Some
                        && !rest[i].failed && gives(updates[k], rest[i], active);
                assert(outputs[i].gamma_size is Some);
            }
        }
    }
}

/// Whether an update is for an output, with ramps of its size that levels call for.
pub open spec fn gives(update: RampUpdate, output: OutputView, active: Levels) -> bool {
    let size = output.gamma_size->0;
    &&& update.global_name == output.global_name
    &&& update.ramps@.len() == 3 * size
    &&& forall|place: int, index: int|
        0 <= place < 3 && 0 <= index < size ==> is_called_for(
            #[trigger] update.ramps@[place * size + index] as int,
            place,
            index,
            size as int,
            active,
        )
}

proof fn lemma_gives(update: RampUpdate, output: OutputView, active: Levels)
    requires
        updates_output(update, output, active),
        levels_fault(active) is None,
    ensures
        gives(update, output, active),
{
    let size = output.gamma_size->0;
    assert forall|place: int, index: int| 0 <= place < 3 && 0 <= index < size implies is_called_for(
        #[trigger] update.ramps@[place * size + index] as int,
        place,
        index,
        size as int,
        active,
    ) by {
        ramps_hold_what_levels_call_for(place, index, size as int, active);
    }
}

/// A refusal tells its message under the version of this daemon, and one for another version names
/// both versions.
pub proof fn refusals_tell_their_reason(message: Seq<char>, version: u32)
    ensures
        refusal(message) == (ResponseView::Error { version: IPC_VERSION, message }),
        version_text(version) == "unsupported IPC protocol version "@ + decimal_text(version as int)
            + " (daemon expects "@ + decimal_text(IPC_VERSION as int)
            + "); reinstall and restart the Waywarm service"@,
{
}

/// The outputs of the daemon are known with all that they told.
pub proof fn outputs_are_known_as_they_are(outputs: Seq<Output>, i: int)
    requires
        0 <= i < outputs.len(),
    ensures
        output_views(outputs).len() == outputs.len(),
        output_views(outputs)[i].global_name == outputs[i].global_name,
        output_views(outputs)[i].name == outputs[i].name@,
        output_views(outputs)[i].gamma_size == outputs[i].gamma_size,
        output_views(outputs)[i].failed == outputs[i].failed,
{
}

}
