//! What the window does: scenes, devices, messages by hand and the texts of its
//! panels. Drawing is left to the caller.

use vstd::prelude::*;

use crate::app::history;
use crate::app::history::StrengthHistory;
use crate::app::i18n::{tr, UiLanguage};
use crate::app::log_view::{LogSelection, SelectionView};
use crate::app::logs::GuiLogLevel;
use crate::app::scenes;
use crate::app::scenes::{
    factory_scene_preset, FactorySceneId, SavedScene, SavedView, SceneView, USER_SCENE_SLOT_COUNT,
};
use crate::app::state::AppState;
use crate::audio::capture;
use crate::dglab::protocol;
use crate::dglab::protocol::{build_pulse_message, build_strength_message, StrengthControlMode};
use crate::pipeline::engine::{EngineSnapshot, PipelineSettings};
use crate::seconds::Seconds;
use crate::text;
use crate::text::{copy_optional, push_decimal, same_optional, same_text, trim_text};
use crate::types;
use crate::types::{lesser, DglabChannel, StrengthRange};

verus! {

/// How often the window is drawn while something moves, in milliseconds.
pub const REPAINT_ACTIVE_MS: u64 = 120;

/// How often it is drawn while the server runs.
pub const REPAINT_RUNNING_MS: u64 = 250;

/// How often it is drawn at rest.
pub const REPAINT_IDLE_MS: u64 = 600;

/// The key that stands for the speaker in use in the list of speakers.
pub const AUTO_SPEAKER_KEY: &'static str = "__AUTO__";

/// The window's state and what goes with it.
#[derive(Debug)]
pub struct GuiModel {
    pub state: AppState,
    pub log_level: GuiLogLevel,
    pub selected_factory_scene: FactorySceneId,
    pub scene_name_drafts: Vec<String>,
    pub selection: LogSelection,
    pub history: StrengthHistory,
    pub prev_app_bound: bool,
}

/// The name of the slot with the given number, if it has no other.
pub open spec fn default_slot_name(language: UiLanguage, number: nat) -> Seq<char> {
    language.choice("Scene"@, "场景"@) + " "@ + text::decimal(number)
}

/// The name under which a scene is kept.
pub open spec fn draft_name(language: UiLanguage, draft: Seq<char>, slot: int) -> Seq<char> {
    if text::trimmed(draft).len() > 0 {
        text::trimmed(draft)
    } else {
        default_slot_name(language, (slot + 1) as nat)
    }
}

/// The name in a slot, empty if there is none.
pub open spec fn slot_name(slot: Option<SavedView>) -> Seq<char> {
    match slot {
        Some(scene) => scene.name,
        None => seq![],
    }
}

impl GuiModel {
    /// Every slot has a draft of its name.
    pub open spec fn well_formed(self) -> bool {
        &&& self.scene_name_drafts@.len() == USER_SCENE_SLOT_COUNT
        &&& self.state.saved_scenes@.len() == USER_SCENE_SLOT_COUNT
    }

    pub open spec fn slots(self) -> Seq<Option<SavedView>> {
        scenes::slot_views(self.state.saved_scenes@)
    }

    pub open spec fn drafts(self) -> Seq<Seq<char>> {
        text::views(self.scene_name_drafts@)
    }

    /// A window on a state; the drafts are the names of the kept scenes.
    pub fn new(state: AppState, log_level: GuiLogLevel) -> (r: GuiModel)
        requires
            state.saved_scenes@.len() == USER_SCENE_SLOT_COUNT,
        ensures
            r.well_formed(),
            r.state == state,
            r.log_level == log_level,
            r.selected_factory_scene == FactorySceneId::BalancedMotion,
            r.drafts() == Seq::new(
                USER_SCENE_SLOT_COUNT as nat,
                |i: int| slot_name(r.slots()[i]),
            ),
            r.selection@ == (SelectionView { ids: Set::empty(), anchor: None }),
            r.history.points@.len() == 0,
            !r.prev_app_bound,
    {
        let mut drafts: Vec<String> = Vec::new();
        let ghost slots = scenes::slot_views(state.saved_scenes@);
        let mut i: usize = 0;
        while i < USER_SCENE_SLOT_COUNT
            invariant
                state.saved_scenes@.len() == USER_SCENE_SLOT_COUNT,
                slots == scenes::slot_views(state.saved_scenes@),
                i <= USER_SCENE_SLOT_COUNT,
                drafts@.len() == i,
                forall|j: int| 0 <= j < i ==> (#[trigger] drafts@[j])@ == slot_name(slots[j]),
            decreases USER_SCENE_SLOT_COUNT - i,
        {
            assert(slots[i as int] == scenes::slot_view(state.saved_scenes@[i as int]));
            let name = match &state.saved_scenes[i] {
                Some(scene) => scene.name.clone(),
                None => String::new(),
            };
            assert(name@ =~= slot_name(slots[i as int]));
            drafts.push(name);
            i += 1;
        }
        let r = GuiModel {
            state,
            log_level,
            selected_factory_scene: FactorySceneId::BalancedMotion,
            scene_name_drafts: drafts,
            selection: LogSelection::new(),
            history: StrengthHistory::new(),
            prev_app_bound: false,
        };
        assert(r.drafts() =~= Seq::new(
            USER_SCENE_SLOT_COUNT as nat,
            |i: int| slot_name(r.slots()[i]),
        ));
        r
    }

    /// The one of two texts that is in the window's language.
    pub fn tr<'a>(&self, en: &'a str, zh_cn: &'a str) -> (r: &'a str)
        ensures
            r@ == self.state.language.choice(en@, zh_cn@),
    {
        tr(self.state.language, en, zh_cn)
    }

    /// The name of a slot without one.
    pub fn default_scene_slot_name(&self, slot_index: usize) -> (r: String)
        ensures
            r@ == default_slot_name(
                self.state.language,
                if slot_index < usize::MAX {
                    (slot_index + 1) as nat
                } else {
                    usize::MAX as nat
                },
            ),
    {
        let mut r = self.tr("Scene", "场景").to_owned();
        r.append(" ");
        push_decimal(&mut r, slot_index.saturating_add(1) as u64);
        r
    }

    /// Keeps the present scene in a slot, under the draft of its name.
    #[verifier::rlimit(40)]
    pub fn save_scene_to_slot(&mut self, slot_index: usize)
        requires
            old(self).well_formed(),
        ensures
            final(self).well_formed(),
            if slot_index < USER_SCENE_SLOT_COUNT {
                let slot = slot_index as int;
                let name = draft_name(old(self).state.language, old(self).drafts()[slot], slot);
                &&& final(self).drafts() == old(self).drafts().update(slot, name)
                &&& final(self).slots() == old(self).slots().update(
                    slot,
                    Some(SavedView { name, config: old(self).state.scene().tidied() }),
                )
                &&& *final(self) == (GuiModel {
                    scene_name_drafts: final(self).scene_name_drafts,
                    state: AppState {
                        saved_scenes: final(self).state.saved_scenes,
                        last_error: None,
                        ..old(self).state
                    },
                    ..*old(self)
                })
            } else {
                *final(self) == *old(self)
            },
    {
        if slot_index >= USER_SCENE_SLOT_COUNT {
            return;
        }
        let ghost slot = slot_index as int;
        let ghost drafts = self.drafts();
        let ghost slots = self.slots();
        assert(drafts[slot] == self.scene_name_drafts@[slot]@);
        let trimmed = trim_text(self.scene_name_drafts[slot_index].as_str());
        let name = if trimmed.unicode_len() == 0 {
            self.default_scene_slot_name(slot_index)
        } else {
            trimmed.to_owned()
        };
        let config = self.state.capture_scene_config();
        self.scene_name_drafts.set(slot_index, name.clone());
        self.state.saved_scenes.set(slot_index, Some(SavedScene { name, config }));
        self.state.clear_error();
        assert(self.drafts() =~= drafts.update(slot, name@));
        assert(self.slots() =~= slots.update(slot, Some(SavedView { name: name@, config: config@ })));
    }

    /// Brings back the scene in a slot, if there is one.
    #[verifier::rlimit(40)]
    pub fn load_scene_from_slot(&mut self, slot_index: usize)
        requires
            old(self).well_formed(),
        ensures
            final(self).well_formed(),
            if slot_index < USER_SCENE_SLOT_COUNT && old(self).slots()[slot_index as int] is Some {
                let saved = old(self).slots()[slot_index as int]->0;
                &&& final(self).state.scene() == saved.config.tidied()
                &&& final(self).drafts() == old(self).drafts().update(
                    slot_index as int,
                    saved.name,
                )
                &&& *final(self) == (GuiModel {
                    scene_name_drafts: final(self).scene_name_drafts,
                    state: AppState {
                        last_error: None,
                        ..old(self).state.with_scene_of(final(self).state)
                    },
                    ..*old(self)
                })
            } else {
                *final(self) == *old(self)
            },
    {
        if slot_index >= USER_SCENE_SLOT_COUNT {
            return;
        }
        let ghost drafts = self.drafts();
        assert(self.slots()[slot_index as int] == scenes::slot_view(
            self.state.saved_scenes@[slot_index as int],
        ));
        let saved = match &self.state.saved_scenes[slot_index] {
            Some(saved) => saved.clone(),
            None => return,
        };
        self.state.apply_scene_config(&saved.config);
        let name = saved.name;
        self.scene_name_drafts.set(slot_index, name);
        self.state.clear_error();
        assert(self.drafts() =~= drafts.update(slot_index as int, name@));
    }

    /// Empties a slot.
    #[verifier::rlimit(40)]
    pub fn clear_scene_slot(&mut self, slot_index: usize)
        requires
            old(self).well_formed(),
        ensures
            final(self).well_formed(),
            if slot_index < USER_SCENE_SLOT_COUNT {
                let slot = slot_index as int;
                &&& final(self).drafts() == old(self).drafts().update(slot, Seq::empty())
                &&& final(self).slots() == old(self).slots().update(slot, None)
                &&& *final(self) == (GuiModel {
                    scene_name_drafts: final(self).scene_name_drafts,
                    state: AppState {
                        saved_scenes: final(self).state.saved_scenes,
                        last_error: None,
                        ..old(self).state
                    },
                    ..*old(self)
                })
            } else {
                *final(self) == *old(self)
            },
    {
        if slot_index >= USER_SCENE_SLOT_COUNT {
            return;
        }
        let ghost slot = slot_index as int;
        let ghost drafts = self.drafts();
        let ghost slots = self.slots();
        let empty = String::new();
        assert(empty@ =~= Seq::<char>::empty());
        self.state.saved_scenes.set(slot_index, None);
        self.scene_name_drafts.set(slot_index, empty);
        self.state.clear_error();
        assert(self.drafts() =~= drafts.update(slot, Seq::empty()));
        assert(self.slots() =~= slots.update(slot, None));
    }

    /// Brings in a built-in scene; the strength ranges stay.
    pub fn apply_factory_scene(&mut self, id: FactorySceneId)
        ensures
            final(self).state.scene() == (SceneView {
                strength_range_a: old(self).state.strength_range_a,
                strength_range_b: old(self).state.strength_range_b,
                ..scenes::factory_scene(id).tidied()
            }),
            *final(self) == (GuiModel {
                state: AppState {
                    last_error: None,
                    ..old(self).state.with_scene_of(final(self).state)
                },
                ..*old(self)
            }),
    {
        let preset = factory_scene_preset(id);
        self.state.apply_factory_scene_config(&preset.config);
        self.state.clear_error();
    }
}

/// A message to send by hand.
#[derive(Debug)]
pub enum DebugSend {
    /// Nothing is sent; the error and the note to show.
    Skip { error: String, action: String },
    /// The message to send and a note on it.
    Send { message: String, note: Option<String> },
}

pub enum DebugSendView {
    Skip { error: Seq<char>, action: Seq<char> },
    Send { message: Seq<char>, note: Option<Seq<char>> },
}

impl View for DebugSend {
    type V = DebugSendView;

    open spec fn view(&self) -> DebugSendView {
        match self {
            DebugSend::Skip { error, action } => DebugSendView::Skip {
                error: error@,
                action: action@,
            },
            DebugSend::Send { message, note } => DebugSendView::Send {
                message: message@,
                note: text::optional_text(*note),
            },
        }
    }
}

/// A strength message with a note.
pub open spec fn strength_send(
    channel: DglabChannel,
    mode: StrengthControlMode,
    value: u16,
    note: Option<Seq<char>>,
) -> DebugSendView {
    DebugSendView::Send { message: protocol::strength_text(channel, mode, value), note }
}

/// The strength message that the debug panel sends. Where the app's limits
/// count, a strength is kept within them, an increase within what is left, and a
/// decrease within the present strength.
pub open spec fn debug_strength(state: AppState) -> DebugSendView {
    let channel = state.debug_strength_channel;
    let mode = state.debug_strength_mode;
    let value = state.debug_strength_value;
    let lang = state.language;
    let as_it_is = strength_send(channel, mode, value, None);
    if !state.auto_limit_with_app_soft_limit {
        as_it_is
    } else {
        match mode {
            StrengthControlMode::SetValue => match state.soft_limit(channel) {
                Some(limit) => if value > limit {
                    strength_send(channel, mode, limit, Some(set_note(lang, channel, limit)))
                } else {
                    as_it_is
                },
                None => strength_send(
                    channel,
                    mode,
                    value,
                    Some(
                        lang.choice(
                            "app soft limit unknown; no clamp applied"@,
                            "App 软上限未知；未做限幅"@,
                        ),
                    ),
                ),
            },
            StrengthControlMode::Increase => match (
                state.current_strength(channel),
                state.soft_limit(channel),
            ) {
                (Some(current), Some(limit)) => if limit <= current {
                    DebugSendView::Skip {
                        error: at_limit_error(lang, channel, limit),
                        action: lang.choice(
                            "send skipped by local guard"@,
                            "被本地保护逻辑拦截发送"@,
                        ),
                    }
                } else if value > limit - current {
                    strength_send(
                        channel,
                        mode,
                        (limit - current) as u16,
                        Some(increase_note(lang, current, limit)),
                    )
                } else {
                    as_it_is
                },
                _ => as_it_is,
            },
            StrengthControlMode::Decrease => match state.current_strength(channel) {
                Some(current) => if value > current {
                    strength_send(
                        channel,
                        mode,
                        current,
                        Some(
                            lang.choice(
                                "decrease clamped to current strength"@,
                                "减少量已限幅到当前强度"@,
                            ) + " "@ + text::decimal(current as nat),
                        ),
                    )
                } else {
                    as_it_is
                },
                None => as_it_is,
            },
        }
    }
}

pub open spec fn set_note(lang: UiLanguage, channel: DglabChannel, limit: u16) -> Seq<char> {
    lang.choice("clamped to app soft limit"@, "已按 App 软上限限幅"@) + " ("@ + text::decimal(
        limit as nat,
    ) + ") "@ + lang.choice("for channel"@, "通道"@) + " "@ + channel.name()
}

pub open spec fn at_limit_error(lang: UiLanguage, channel: DglabChannel, limit: u16) -> Seq<char> {
    lang.choice("channel"@, "通道"@) + " "@ + channel.name() + " "@ + lang.choice(
        "already at soft limit"@,
        "已到软上限"@,
    ) + " "@ + text::decimal(limit as nat) + "，"@ + lang.choice("increase skipped"@, "已跳过增加"@)
}

pub open spec fn increase_note(lang: UiLanguage, current: u16, limit: u16) -> Seq<char> {
    lang.choice("increase clamped to"@, "增加量已限幅到"@) + " "@ + text::decimal(
        (limit - current) as nat,
    ) + " ("@ + lang.choice("current"@, "当前"@) + ", "@ + text::decimal(current as nat) + ", "@
        + lang.choice("soft"@, "软上限"@) + ", "@ + text::decimal(limit as nat) + ")"@
}

/// The pulse message that the debug panel sends, or why it cannot.
pub open spec fn debug_pulse(state: AppState) -> Result<(Seq<char>, Option<Seq<char>>), Seq<char>> {
    match protocol::pulse_outcome(
        state.debug_pulse_channel,
        protocol::named_items(state.debug_pulse_values@),
    ) {
        Ok(message) => Ok(
            (
                message,
                if state.current_strength(state.debug_pulse_channel) == Some(0u16) {
                    Some(
                        state.language.choice(
                            "channel strength is currently 0; pulse can be queued but output may be silent"@,
                            "当前通道强度为 0；波形可入队，但实际输出可能无感"@,
                        ),
                    )
                } else {
                    None
                },
            ),
        ),
        Err(error) => Err(error),
    }
}

/// The note on a message that was sent.
pub open spec fn sent_action(lang: UiLanguage, message: Seq<char>, note: Option<Seq<char>>) -> Seq<
    char,
> {
    let sent = lang.choice("sent"@, "已发送"@) + " "@ + message;
    match note {
        Some(n) => sent + " ("@ + n + ")"@,
        None => sent,
    }
}

/// A text with a label before it.
pub open spec fn labelled(label: Seq<char>, rest: Seq<char>) -> Seq<char> {
    label + ": "@ + rest
}

fn with_label(label: &str, rest: &str) -> (r: String)
    ensures
        r@ == labelled(label@, rest@),
{
    let mut r = label.to_owned();
    r.append(": ");
    r.append(rest);
    r
}

impl GuiModel {
    /// The strength message that the debug panel sends.
    pub fn debug_strength_message(&self) -> (r: DebugSend)
        ensures
            r@ == debug_strength(self.state),
    {
        let channel = self.state.debug_strength_channel;
        let mode = self.state.debug_strength_mode;
        let requested: u16 = self.state.debug_strength_value;
        let mut effective: u16 = requested;
        let mut note: Option<String> = None;
        if self.state.auto_limit_with_app_soft_limit {
            match mode {
                StrengthControlMode::SetValue => {
                    match self.state.app_soft_limit_for_channel(channel) {
                        Some(limit) => {
                            if effective > limit {
                                effective = limit;
                                let mut t = self.tr(
                                    "clamped to app soft limit",
                                    "已按 App 软上限限幅",
                                ).to_owned();
                                t.append(" (");
                                push_decimal(&mut t, limit as u64);
                                t.append(") ");
                                t.append(self.tr("for channel", "通道"));
                                t.append(" ");
                                t.append(channel.label());
                                note = Some(t);
                            }
                        },
                        None => {
                            note = Some(
                                self.tr(
                                    "app soft limit unknown; no clamp applied",
                                    "App 软上限未知；未做限幅",
                                ).to_owned(),
                            );
                        },
                    }
                },
                StrengthControlMode::Increase => {
                    match (
                        self.state.app_current_strength_for_channel(channel),
                        self.state.app_soft_limit_for_channel(channel),
                    ) {
                        (Some(current), Some(limit)) => {
                            if limit <= current {
                                let mut error = self.tr("channel", "通道").to_owned();
                                error.append(" ");
                                error.append(channel.label());
                                error.append(" ");
                                error.append(self.tr("already at soft limit", "已到软上限"));
                                error.append(" ");
                                push_decimal(&mut error, limit as u64);
                                error.append("，");
                                error.append(self.tr("increase skipped", "已跳过增加"));
                                let action = self.tr(
                                    "send skipped by local guard",
                                    "被本地保护逻辑拦截发送",
                                ).to_owned();
                                return DebugSend::Skip { error, action };
                            }
                            let max_delta: u16 = limit - current;
                            if effective > max_delta {
                                effective = max_delta;
                                let mut t = self.tr("increase clamped to", "增加量已限幅到").to_owned();
                                t.append(" ");
                                push_decimal(&mut t, max_delta as u64);
                                t.append(" (");
                                t.append(self.tr("current", "当前"));
                                t.append(", ");
                                push_decimal(&mut t, current as u64);
                                t.append(", ");
                                t.append(self.tr("soft", "软上限"));
                                t.append(", ");
                                push_decimal(&mut t, limit as u64);
                                t.append(")");
                                note = Some(t);
                            }
                        },
                        _ => {},
                    }
                },
                StrengthControlMode::Decrease => {
                    match self.state.app_current_strength_for_channel(channel) {
                        Some(current) => {
                            if effective > current {
                                effective = current;
                                let mut t = self.tr(
                                    "decrease clamped to current strength",
                                    "减少量已限幅到当前强度",
                                ).to_owned();
                                t.append(" ");
                                push_decimal(&mut t, current as u64);
                                note = Some(t);
                            }
                        },
                        None => {},
                    }
                },
            }
        }
        DebugSend::Send { message: build_strength_message(channel, mode, effective), note }
    }

    /// Shows that a message by hand was held back.
    pub fn message_skipped(&mut self, error: String, action: String)
        ensures
            *final(self) == (GuiModel {
                state: AppState {
                    last_error: Some(error),
                    last_protocol_action: Some(action),
                    ..old(self).state
                },
                ..*old(self)
            }),
    {
        self.state.set_error(error);
        self.state.set_protocol_action(action);
    }

    /// Shows what became of a message by hand.
    #[verifier::rlimit(40)]
    pub fn message_sent(&mut self, message: &str, note: Option<&str>, outcome: Result<(), &str>)
        ensures
            *final(self) == (GuiModel {
                state: AppState {
                    last_error: final(self).state.last_error,
                    last_protocol_action: final(self).state.last_protocol_action,
                    ..old(self).state
                },
                ..*old(self)
            }),
            ({
                let lang = old(self).state.language;
                let failed = lang.choice("send failed"@, "发送失败"@);
                match outcome {
                    Ok(()) => {
                        &&& final(self).state.last_error is None
                        &&& text::optional_text(final(self).state.last_protocol_action) == Some(
                            sent_action(lang, message@, text::some_text(note)),
                        )
                    },
                    Err(error) => {
                        &&& text::optional_text(final(self).state.last_error) == Some(
                            labelled(failed, error@),
                        )
                        &&& text::optional_text(final(self).state.last_protocol_action) == Some(
                            labelled(failed, message@),
                        )
                    },
                }
            }),
    {
        self.state.clear_error();
        match outcome {
            Ok(()) => {
                let mut action = self.tr("sent", "已发送").to_owned();
                action.append(" ");
                action.append(message);
                match note {
                    Some(n) => {
                        action.append(" (");
                        action.append(n);
                        action.append(")");
                    },
                    None => {},
                }
                self.state.set_protocol_action(action);
            },
            Err(error) => {
                let failed = self.tr("send failed", "发送失败");
                let shown = with_label(failed, error);
                let action = with_label(failed, message);
                self.state.set_error(shown);
                self.state.set_protocol_action(action);
            },
        }
    }

    /// The pulse message that the debug panel sends and a note on it, or why it
    /// cannot.
    pub fn debug_pulse_message(&self) -> (r: Result<(String, Option<String>), String>)
        ensures
            match r {
                Ok((message, note)) => debug_pulse(self.state) == Ok::<
                    (Seq<char>, Option<Seq<char>>),
                    Seq<char>,
                >((message@, text::optional_text(note))),
                Err(error) => debug_pulse(self.state) == Err::<
                    (Seq<char>, Option<Seq<char>>),
                    Seq<char>,
                >(error@),
            },
    {
        match build_pulse_message(
            self.state.debug_pulse_channel,
            self.state.debug_pulse_values.as_str(),
        ) {
            Ok(message) => {
                let note = match self.state.app_current_strength_for_channel(
                    self.state.debug_pulse_channel,
                ) {
                    Some(current) => if current == 0 {
                        Some(
                            self.tr(
                                "channel strength is currently 0; pulse can be queued but output may be silent",
                                "当前通道强度为 0；波形可入队，但实际输出可能无感",
                            ).to_owned(),
                        )
                    } else {
                        None
                    },
                    None => None,
                };
                Ok((message, note))
            },
            Err(error) => Err(error),
        }
    }
}

/// A strength range within a slider: its end first, then its start.
pub open spec fn within_slider(range: StrengthRange, slider_max: u16) -> StrengthRange {
    let max = types::min_u16(range.max, slider_max);
    StrengthRange { min: types::min_u16(range.min, max), max }
}

fn keep_in_slider(range: StrengthRange, slider_max: u16) -> (r: StrengthRange)
    ensures
        r == within_slider(range, slider_max),
{
    let max: u16 = lesser(range.max, slider_max);
    StrengthRange { min: lesser(range.min, max), max }
}

/// The state with both ranges within their sliders.
pub open spec fn with_limited_ranges(state: AppState) -> AppState {
    AppState {
        strength_range_a: within_slider(
            state.strength_range_a,
            state.slider_max(DglabChannel::A),
        ),
        strength_range_b: within_slider(
            state.strength_range_b,
            state.slider_max(DglabChannel::B),
        ),
        ..state
    }
}

/// The state with the debug strength within its slider.
pub open spec fn with_limited_debug_value(state: AppState) -> AppState {
    AppState {
        debug_strength_value: types::min_u16(
            state.debug_strength_value,
            state.slider_max(state.debug_strength_channel),
        ),
        ..state
    }
}

/// Whether a list of names holds a name.
fn has_name(names: &Vec<String>, name: &str) -> (r: bool)
    ensures
        r == text::views(names@).contains(name@),
{
    let ghost given = text::views(names@);
    let mut i: usize = 0;
    while i < names.len()
        invariant
            given == text::views(names@),
            i <= names@.len(),
            forall|j: int| 0 <= j < i ==> given[j] != name@,
        decreases names@.len() - i,
    {
        assert(given[i as int] == names@[i as int]@);
        if same_text(names[i].as_str(), name) {
            return true;
        }
        i += 1;
    }
    false
}

/// The speaker after the list has been read anew: one that is gone is dropped,
/// and the speaker in use takes its place if it is listed.
pub open spec fn listed_speaker(
    selected: Option<Seq<char>>,
    devices: Seq<Seq<char>>,
    default: Option<Seq<char>>,
) -> Option<Seq<char>> {
    if selected is Some && devices.contains(selected->0) {
        selected
    } else if default is Some && devices.contains(default->0) {
        default
    } else {
        None
    }
}

fn speaker_in_list(
    selected: &Option<String>,
    names: &Vec<String>,
    default_name: Option<&str>,
) -> (r: Option<String>)
    ensures
        text::optional_text(r) == listed_speaker(
            text::optional_text(*selected),
            text::views(names@),
            text::some_text(default_name),
        ),
{
    match selected {
        Some(name) => {
            if has_name(names, name.as_str()) {
                return Some(name.clone());
            }
        },
        None => {},
    }
    match default_name {
        Some(default) => if has_name(names, default) {
            Some(default.to_owned())
        } else {
            None
        },
        None => None,
    }
}

impl GuiModel {
    /// Keeps both ranges within their sliders.
    pub fn limit_strength_ranges(&mut self)
        ensures
            *final(self) == (GuiModel {
                state: with_limited_ranges(old(self).state),
                ..*old(self)
            }),
    {
        let max_a: u16 = self.state.effective_strength_slider_max_for_channel(DglabChannel::A);
        let max_b: u16 = self.state.effective_strength_slider_max_for_channel(DglabChannel::B);
        self.state.strength_range_a = keep_in_slider(self.state.strength_range_a, max_a);
        self.state.strength_range_b = keep_in_slider(self.state.strength_range_b, max_b);
    }

    /// Keeps the debug strength within its slider.
    pub fn limit_debug_strength(&mut self)
        ensures
            *final(self) == (GuiModel {
                state: with_limited_debug_value(old(self).state),
                ..*old(self)
            }),
    {
        let max: u16 = self.state.effective_debug_strength_slider_max(
            self.state.debug_strength_channel,
        );
        self.state.debug_strength_value = lesser(self.state.debug_strength_value, max);
    }

    /// Takes over what the pipeline shows, `now` seconds after the start.
    /// `elapsed` holds, for every point of the history, `now` less its time,
    /// rounded to double precision.
    #[verifier::rlimit(40)]
    pub fn sync_engine_snapshot(
        &mut self,
        snapshot: EngineSnapshot,
        now: Seconds,
        elapsed: &Vec<Seconds>,
    )
        requires
            now.is_finite(),
            elapsed@.len() == old(self).history.points@.len(),
        ensures
            ({
                let shown = AppState {
                    app_connected: snapshot.app_connected,
                    app_bound: snapshot.app_bound,
                    app_id: snapshot.app_id,
                    output_strengths: snapshot.output_strengths,
                    band_values: snapshot.latest_band_values,
                    last_app_message: snapshot.last_app_message,
                    last_server_info: snapshot.last_server_info,
                    audio_capture_running: snapshot.audio_capture_running,
                    audio_input_device: snapshot.audio_input_device,
                    app_strength_report: if snapshot.latest_strength is Some {
                        snapshot.latest_strength
                    } else {
                        old(self).state.app_strength_report
                    },
                    ..old(self).state
                };
                let limits = snapshot.latest_strength is Some
                    && old(self).state.auto_limit_with_app_soft_limit;
                &&& final(self).history.points@ == history::with_point(
                    old(self).history.points@,
                    now,
                    elapsed@,
                    snapshot.output_strengths@[0],
                    snapshot.output_strengths@[1],
                )
                &&& *final(self) == (GuiModel {
                    state: if limits {
                        with_limited_debug_value(with_limited_ranges(shown))
                    } else {
                        shown
                    },
                    history: final(self).history,
                    ..*old(self)
                })
            }),
    {
        self.state.app_connected = snapshot.app_connected;
        self.state.app_bound = snapshot.app_bound;
        self.state.app_id = snapshot.app_id;
        self.state.output_strengths = snapshot.output_strengths;
        self.state.band_values = snapshot.latest_band_values;
        self.state.last_app_message = snapshot.last_app_message;
        self.state.last_server_info = snapshot.last_server_info;
        self.state.audio_capture_running = snapshot.audio_capture_running;
        self.state.audio_input_device = snapshot.audio_input_device;
        self.history.push_strength_history(now, elapsed, snapshot.output_strengths);
        if snapshot.latest_strength.is_some() {
            self.state.app_strength_report = snapshot.latest_strength;
            if self.state.auto_limit_with_app_soft_limit {
                self.limit_strength_ranges();
                self.limit_debug_strength();
            }
        }
    }

    /// The settings for the pipeline.
    pub fn pipeline_settings(&self) -> (r: PipelineSettings)
        ensures
            r.band_routing == self.state.band_routing,
            r.strength_ranges@ == seq![self.state.strength_range_a, self.state.strength_range_b],
            r.analysis_frame_size == if capture::is_analysis_frame_size(
                self.state.analysis_frame_size,
            ) {
                self.state.analysis_frame_size
            } else {
                capture::DEFAULT_ANALYSIS_FRAME_SIZE
            },
            r.pulse_items_per_message == 1,
            r.auto_pulse_mode == self.state.auto_pulse_mode,
            r.band_drive_mode == self.state.band_drive_mode,
            r.waveform_pattern_mode == self.state.waveform_pattern_mode,
            r.waveform_pattern == self.state.waveform_pattern,
            r.waveform_contrast == scenes::tidy_contrast(self.state.waveform_contrast),
            r.respect_app_soft_limit == self.state.auto_limit_with_app_soft_limit,
            r.smooth_strength_enabled == self.state.smooth_strength_enabled,
            r.smooth_strength_factor == self.state.smooth_strength_factor.unit(),
            r.speaker() == text::optional_text(self.state.selected_output_device),
    {
        let strength_ranges = [self.state.strength_range_a, self.state.strength_range_b];
        assert(strength_ranges@ =~= seq![
            self.state.strength_range_a,
            self.state.strength_range_b,
        ]);
        PipelineSettings {
            band_routing: self.state.band_routing,
            strength_ranges,
            analysis_frame_size: self.state.normalized_analysis_frame_size(),
            pulse_items_per_message: 1,
            auto_pulse_mode: self.state.auto_pulse_mode,
            band_drive_mode: self.state.band_drive_mode,
            waveform_pattern_mode: self.state.waveform_pattern_mode,
            waveform_pattern: self.state.waveform_pattern,
            waveform_contrast: self.state.normalized_waveform_contrast(),
            respect_app_soft_limit: self.state.auto_limit_with_app_soft_limit,
            smooth_strength_enabled: self.state.smooth_strength_enabled,
            smooth_strength_factor: self.state.normalized_smooth_strength_factor(),
            preferred_output_device_name: copy_optional(&self.state.selected_output_device),
        }
    }

    /// Takes over a new list of speakers, or the error of reading it.
    #[verifier::rlimit(40)]
    pub fn refresh_output_device_list(
        &mut self,
        devices: Result<Vec<String>, String>,
        default_name: Option<&str>,
    )
        ensures
            match devices {
                Ok(names) => {
                    &&& text::optional_text(final(self).state.selected_output_device)
                        == listed_speaker(
                        text::optional_text(old(self).state.selected_output_device),
                        text::views(names@),
                        text::some_text(default_name),
                    )
                    &&& *final(self) == (GuiModel {
                        state: AppState {
                            available_output_devices: names,
                            selected_output_device: final(self).state.selected_output_device,
                            ..old(self).state
                        },
                        ..*old(self)
                    })
                },
                Err(error) => {
                    &&& final(self).state.available_output_devices@.len() == 0
                    &&& text::optional_text(final(self).state.last_error) == Some(
                        labelled(
                            old(self).state.language.choice(
                                "failed to enumerate speakers"@,
                                "枚举扬声器失败"@,
                            ),
                            error@,
                        ),
                    )
                    &&& *final(self) == (GuiModel {
                        state: AppState {
                            available_output_devices: final(self).state.available_output_devices,
                            last_error: final(self).state.last_error,
                            ..old(self).state
                        },
                        ..*old(self)
                    })
                },
            },
    {
        match devices {
            Ok(names) => {
                self.state.selected_output_device = speaker_in_list(
                    &self.state.selected_output_device,
                    &names,
                    default_name,
                );
                self.state.available_output_devices = names;
            },
            Err(error) => {
                let shown = with_label(
                    self.tr("failed to enumerate speakers", "枚举扬声器失败"),
                    error.as_str(),
                );
                self.state.available_output_devices = Vec::new();
                self.state.set_error(shown);
            },
        }
    }

    /// The speaker that a key of the list stands for.
    pub fn speaker_for_key(key: &str) -> (r: Option<String>)
        ensures
            text::optional_text(r) == if key@ == "__AUTO__"@ {
                None
            } else {
                Some(key@)
            },
    {
        if same_text(key, AUTO_SPEAKER_KEY) {
            None
        } else {
            Some(key.to_owned())
        }
    }

    /// Takes over the choice of a speaker; a change is noted.
    #[verifier::rlimit(40)]
    pub fn select_speaker(&mut self, next: Option<String>)
        ensures
            if text::optional_text(next) == text::optional_text(
                old(self).state.selected_output_device,
            ) {
                *final(self) == *old(self)
            } else {
                let lang = old(self).state.language;
                &&& text::optional_text(final(self).state.last_protocol_action) == Some(
                    lang.choice("speaker source switched to"@, "扬声器源已切换到"@) + " "@
                        + text::optional_text(next).unwrap_or(lang.choice("default"@, "默认"@)),
                )
                &&& *final(self) == (GuiModel {
                    state: AppState {
                        selected_output_device: next,
                        last_protocol_action: final(self).state.last_protocol_action,
                        ..old(self).state
                    },
                    ..*old(self)
                })
            },
    {
        if same_optional(&next, &self.state.selected_output_device) {
            return;
        }
        let mut action = self.tr("speaker source switched to", "扬声器源已切换到").to_owned();
        action.append(" ");
        match &next {
            Some(name) => {
                action.append(name.as_str());
            },
            None => {
                action.append(self.tr("default", "默认"));
            },
        }
        self.state.selected_output_device = next;
        self.state.set_protocol_action(action);
    }

    /// The pipeline was started, or failed to; `restarted` tells which failure to
    /// show.
    #[verifier::rlimit(40)]
    pub fn engine_started(&mut self, outcome: Result<(), &str>, restarted: bool)
        ensures
            final(self).state.running == (outcome is Ok),
            match outcome {
                Ok(()) => final(self).state.last_error is None,
                Err(error) => text::optional_text(final(self).state.last_error) == Some(
                    labelled(
                        if restarted {
                            old(self).state.language.choice(
                                "failed to restart ws server"@,
                                "重启 WS 服务失败"@,
                            )
                        } else {
                            old(self).state.language.choice("start failed"@, "启动失败"@)
                        },
                        error@,
                    ),
                ),
            },
            *final(self) == (GuiModel {
                state: AppState {
                    running: final(self).state.running,
                    last_error: final(self).state.last_error,
                    ..old(self).state
                },
                ..*old(self)
            }),
    {
        self.state.clear_error();
        match outcome {
            Ok(()) => {
                self.state.running = true;
            },
            Err(error) => {
                let label = if restarted {
                    self.tr("failed to restart ws server", "重启 WS 服务失败")
                } else {
                    self.tr("start failed", "启动失败")
                };
                let shown = with_label(label, error);
                self.state.running = false;
                self.state.set_error(shown);
            },
        }
    }

    /// Whether a level is another than the present one.
    pub fn changes_log_level(&self, level: GuiLogLevel) -> (r: bool)
        ensures
            r == (self.log_level != level),
    {
        self.log_level != level
    }

    /// The log level was changed, or could not be.
    #[verifier::rlimit(40)]
    pub fn log_level_changed(&mut self, level: GuiLogLevel, outcome: Result<(), &str>)
        ensures
            match outcome {
                Ok(()) => final(self).log_level == level && final(self).state.last_error is None,
                Err(error) => {
                    &&& final(self).log_level == old(self).log_level
                    &&& text::optional_text(final(self).state.last_error) == Some(
                        labelled("failed to change log level"@, error@),
                    )
                },
            },
            *final(self) == (GuiModel {
                log_level: final(self).log_level,
                state: AppState { last_error: final(self).state.last_error, ..old(self).state },
                ..*old(self)
            }),
    {
        match outcome {
            Ok(()) => {
                self.log_level = level;
                self.state.clear_error();
            },
            Err(error) => {
                let shown = with_label("failed to change log level", error);
                self.state.set_error(shown);
            },
        }
    }

    /// The log was written out, or could not be.
    #[verifier::rlimit(40)]
    pub fn log_exported(&mut self, path: &str, outcome: Result<(), &str>)
        ensures
            match outcome {
                Ok(()) => {
                    &&& final(self).state.last_error is None
                    &&& text::optional_text(final(self).state.last_protocol_action) == Some(
                        "log exported to "@ + path@,
                    )
                },
                Err(error) => {
                    &&& text::optional_text(final(self).state.last_error) == Some(
                        "failed to write log file `"@ + path@ + "`: "@ + error@,
                    )
                    &&& final(self).state.last_protocol_action == old(
                        self,
                    ).state.last_protocol_action
                },
            },
            *final(self) == (GuiModel {
                state: AppState {
                    last_error: final(self).state.last_error,
                    last_protocol_action: final(self).state.last_protocol_action,
                    ..old(self).state
                },
                ..*old(self)
            }),
    {
        match outcome {
            Ok(()) => {
                let mut action = "log exported to ".to_owned();
                action.append(path);
                self.state.clear_error();
                self.state.set_protocol_action(action);
            },
            Err(error) => {
                let mut shown = "failed to write log file `".to_owned();
                shown.append(path);
                shown.append("`: ");
                shown.append(error);
                self.state.set_error(shown);
            },
        }
    }

    /// How long until the window is drawn again.
    pub fn repaint_interval_ms(&self, engine_running: bool) -> (r: u64)
        ensures
            r == if self.state.app_bound || self.state.audio_capture_running {
                REPAINT_ACTIVE_MS
            } else if engine_running || self.state.running {
                REPAINT_RUNNING_MS
            } else {
                REPAINT_IDLE_MS
            },
    {
        if self.state.app_bound || self.state.audio_capture_running {
            REPAINT_ACTIVE_MS
        } else if engine_running || self.state.running {
            REPAINT_RUNNING_MS
        } else {
            REPAINT_IDLE_MS
        }
    }

    /// Whether the pairing panel closes now: an app has just been bound.
    pub fn collapse_pairing_now(&self) -> (r: bool)
        ensures
            r == (self.state.app_bound && !self.prev_app_bound),
    {
        self.state.app_bound && !self.prev_app_bound
    }

    /// Ends the drawing of a frame.
    pub fn end_frame(&mut self, engine_running: bool)
        ensures
            *final(self) == (GuiModel {
                state: AppState { running: engine_running, ..old(self).state },
                prev_app_bound: old(self).state.app_bound,
                ..*old(self)
            }),
    {
        self.state.running = engine_running;
        self.prev_app_bound = self.state.app_bound;
    }
}

/// A set strength or an increase by hand never goes beyond the app's limit, where
/// the limits count and are known.
pub proof fn law_hand_sent_strength_keeps_the_limit(state: AppState)
    requires
        state.auto_limit_with_app_soft_limit,
        state.app_strength_report is Some,
    ensures
        ({
            let channel = state.debug_strength_channel;
            let mode = state.debug_strength_mode;
            let limit = state.soft_limit(channel)->0;
            let current = state.current_strength(channel)->0;
            match debug_strength(state) {
                DebugSendView::Send { message, note } => exists|value: u16|
                    {
                        &&& message == #[trigger] protocol::strength_text(channel, mode, value)
                        &&& value <= state.debug_strength_value
                        &&& mode == StrengthControlMode::SetValue ==> value <= limit
                        &&& mode == StrengthControlMode::Increase ==> current + value <= limit
                        &&& mode == StrengthControlMode::Decrease ==> value <= current
                    },
                DebugSendView::Skip { error, action } => mode == StrengthControlMode::Increase
                    && limit <= current,
            }
        }),
{
    let channel = state.debug_strength_channel;
    let mode = state.debug_strength_mode;
    let value = state.debug_strength_value;
    let limit = state.soft_limit(channel)->0;
    let current = state.current_strength(channel)->0;
    let sent = match mode {
        StrengthControlMode::SetValue => types::min_u16(value, limit),
        StrengthControlMode::Increase => if limit > current {
            types::min_u16(value, (limit - current) as u16)
        } else {
            value
        },
        StrengthControlMode::Decrease => types::min_u16(value, current),
    };
    match debug_strength(state) {
        DebugSendView::Send { message, note } => {
            assert(message == protocol::strength_text(channel, mode, sent));
        },
        DebugSendView::Skip { error, action } => {},
    }
}

/// A range within a slider is in order, and keeping it there changes nothing
/// more.
pub proof fn law_range_within_slider_is_stable(range: StrengthRange, slider_max: u16)
    ensures
        within_slider(range, slider_max).min <= within_slider(range, slider_max).max <= slider_max,
        within_slider(within_slider(range, slider_max), slider_max) == within_slider(
            range,
            slider_max,
        ),
{
}

/// A scene that was kept comes back as it was, whatever was set meanwhile: the
/// state that it is brought back into has the scene of the state that it was
/// kept of, tidied, and keeping it once more gives the same.
pub proof fn law_kept_scene_comes_back(before: AppState, after: AppState, kept: SavedView)
    requires
        kept.config == before.scene().tidied(),
        after.scene() == kept.config.tidied(),
    ensures
        after.scene() == before.scene().tidied(),
        after.scene().tidied() == kept.config,
{
    scenes::law_tidied_scene_is_stable(before.scene());
}

/// A selected speaker is one of those listed.
pub proof fn law_selected_speaker_is_listed(
    selected: Option<Seq<char>>,
    devices: Seq<Seq<char>>,
    default: Option<Seq<char>>,
)
    ensures
        listed_speaker(selected, devices, default) matches Some(name) ==> devices.contains(name),
{
}

/// Where the limits count and the app has reported, a strength by hand is sent as
/// far as it is allowed: a set strength up to the limit of its channel, an
/// increase up to what is left to that limit, a decrease down to nothing. An
/// increase is held back only where nothing is left. What is sent in place of the
/// strength that was asked for has a note, and nothing else has.
pub proof fn law_hand_sent_strength_is_what_is_allowed(state: AppState)
    requires
        state.auto_limit_with_app_soft_limit,
        state.app_strength_report is Some,
    ensures
        ({
            let channel = state.debug_strength_channel;
            let value = state.debug_strength_value;
            let report = state.app_strength_report->0;
            let (current, limit) = match channel {
                DglabChannel::A => (report.a_strength, report.a_soft_limit),
                DglabChannel::B => (report.b_strength, report.b_soft_limit),
            };
            let asked = protocol::strength_text(channel, state.debug_strength_mode, value);
            match state.debug_strength_mode {
                StrengthControlMode::SetValue => if value <= limit {
                    debug_strength(state) == (DebugSendView::Send { message: asked, note: None })
                } else {
                    &&& debug_strength(state) is Send
                    &&& debug_strength(state)->message == protocol::strength_text(
                        channel,
                        StrengthControlMode::SetValue,
                        limit,
                    )
                    &&& debug_strength(state)->note is Some
                },
                StrengthControlMode::Increase => if current >= limit {
                    debug_strength(state) is Skip
                } else if current + value <= limit {
                    debug_strength(state) == (DebugSendView::Send { message: asked, note: None })
                } else {
                    &&& debug_strength(state) is Send
                    &&& debug_strength(state)->message == protocol::strength_text(
                        channel,
                        StrengthControlMode::Increase,
                        (limit - current) as u16,
                    )
                    &&& debug_strength(state)->note is Some
                },
                StrengthControlMode::Decrease => if value <= current {
                    debug_strength(state) == (DebugSendView::Send { message: asked, note: None })
                } else {
                    &&& debug_strength(state) is Send
                    &&& debug_strength(state)->message == protocol::strength_text(
                        channel,
                        StrengthControlMode::Decrease,
                        current,
                    )
                    &&& debug_strength(state)->note is Some
                },
            }
        }),
{
}

/// Where the limits do not count or the app has not reported, a strength by hand
/// is sent as it was asked for. A note says so where a set strength would have
/// been kept within a limit.
pub proof fn law_hand_sent_strength_without_limits(state: AppState)
    requires
        !state.auto_limit_with_app_soft_limit || state.app_strength_report is None,
    ensures
        debug_strength(state) is Send,
        debug_strength(state)->message == protocol::strength_text(
            state.debug_strength_channel,
            state.debug_strength_mode,
            state.debug_strength_value,
        ),
        debug_strength(state)->note is Some <==> state.auto_limit_with_app_soft_limit
            && state.debug_strength_mode == StrengthControlMode::SetValue,
{
}

/// The notes on strengths by hand name the numbers that they speak of, the limit
/// of a channel with the channel.
pub proof fn law_notes_name_their_numbers(channel: DglabChannel, current: u16, limit: u16)
    requires
        current < limit,
    ensures
        set_note(UiLanguage::En, channel, limit) == "clamped to app soft limit ("@ + text::decimal(
            limit as nat,
        ) + ") for channel "@ + channel.name(),
        at_limit_error(UiLanguage::En, channel, limit) == "channel "@ + channel.name()
            + " already at soft limit "@ + text::decimal(limit as nat) + "，increase skipped"@,
        increase_note(UiLanguage::En, current, limit) == "increase clamped to "@ + text::decimal(
            (limit - current) as nat,
        ) + " (current, "@ + text::decimal(current as nat) + ", soft, "@ + text::decimal(
            limit as nat,
        ) + ")"@,
{
    reveal_strlit("clamped to app soft limit");
    reveal_strlit("clamped to app soft limit (");
    reveal_strlit(" (");
    reveal_strlit(") ");
    reveal_strlit("for channel");
    reveal_strlit(" ");
    reveal_strlit(") for channel ");
    reveal_strlit("channel");
    reveal_strlit("channel ");
    reveal_strlit("already at soft limit");
    reveal_strlit(" already at soft limit ");
    reveal_strlit("，");
    reveal_strlit("increase skipped");
    reveal_strlit("，increase skipped");
    reveal_strlit("increase clamped to");
    reveal_strlit("increase clamped to ");
    reveal_strlit("current");
    reveal_strlit(" (current, ");
    reveal_strlit(", ");
    reveal_strlit("soft");
    reveal_strlit(", soft, ");
    assert(set_note(UiLanguage::En, channel, limit) =~= "clamped to app soft limit ("@
        + text::decimal(limit as nat) + ") for channel "@ + channel.name());
    assert(at_limit_error(UiLanguage::En, channel, limit) =~= "channel "@ + channel.name()
        + " already at soft limit "@ + text::decimal(limit as nat) + "，increase skipped"@);
    assert(increase_note(UiLanguage::En, current, limit) =~= "increase clamped to "@
        + text::decimal((limit - current) as nat) + " (current, "@ + text::decimal(current as nat)
        + ", soft, "@ + text::decimal(limit as nat) + ")"@);
}

/// A pulse by hand is made for its own channel of the words of its own text, and
/// refused where the message cannot be made. A note comes with it exactly where
/// the app has reported that this channel is at zero.
pub proof fn law_hand_sent_pulse_is_for_its_channel(state: AppState)
    ensures
        ({
            let made = protocol::pulse_outcome(
                state.debug_pulse_channel,
                protocol::named_items(state.debug_pulse_values@),
            );
            let silent = state.app_strength_report matches Some(report) && match state.debug_pulse_channel {
                DglabChannel::A => report.a_strength == 0,
                DglabChannel::B => report.b_strength == 0,
            };
            match debug_pulse(state) {
                Ok(r) => made == Ok::<Seq<char>, Seq<char>>(r.0) && (r.1 is Some <==> silent),
                Err(error) => made == Err::<Seq<char>, Seq<char>>(error),
            }
        }),
{
}

/// The note on a sent message has the message in it, and the note that came with
/// it in brackets behind.
pub proof fn law_sent_messages_are_shown(message: Seq<char>, note: Seq<char>)
    ensures
        sent_action(UiLanguage::En, message, None) == "sent "@ + message,
        sent_action(UiLanguage::En, message, Some(note)) == "sent "@ + message + " ("@ + note
            + ")"@,
        sent_action(UiLanguage::ZhCn, message, None) == "已发送 "@ + message,
{
    reveal_strlit("sent");
    reveal_strlit("sent ");
    reveal_strlit(" ");
    reveal_strlit("已发送");
    reveal_strlit("已发送 ");
    assert("sent"@ + " "@ =~= "sent "@);
    assert("已发送"@ + " "@ =~= "已发送 "@);
}

/// A label stands before a text with a colon and a blank between them.
pub proof fn law_labels_stand_before_the_text(label: Seq<char>, rest: Seq<char>)
    ensures
        labelled(label, rest).len() == label.len() + 2 + rest.len(),
        labelled(label, rest).take(label.len() as int) == label,
        labelled(label, rest)[label.len() as int] == ':',
        labelled(label, rest)[label.len() as int + 1] == ' ',
        labelled(label, rest).skip(label.len() as int + 2) == rest,
{
    reveal_strlit(": ");
    assert(labelled(label, rest).take(label.len() as int) =~= label);
    assert(labelled(label, rest).skip(label.len() as int + 2) =~= rest);
}

/// A scene is kept under the draft of its name, trimmed; where the draft is
/// blank, under the number of its slot, counted from one.
pub proof fn law_scenes_are_named(draft: Seq<char>, slot: int)
    requires
        slot >= 0,
    ensures
        draft_name(UiLanguage::En, seq![], slot) == "Scene "@ + text::decimal((slot + 1) as nat),
        draft_name(UiLanguage::ZhCn, seq![], slot) == "场景 "@ + text::decimal((slot + 1) as nat),
        draft.len() > 0 && !text::is_space(draft[0]) && !text::is_space(draft.last()) ==> draft_name(
            UiLanguage::En,
            draft,
            slot,
        ) == draft,
        forall|language: UiLanguage|
            (forall|i: int| 0 <= i < draft.len() ==> text::is_space(#[trigger] draft[i]))
                ==> #[trigger] draft_name(language, draft, slot) == draft_name(
                language,
                seq![],
                slot,
            ),
{
    reveal_strlit("Scene");
    reveal_strlit("Scene ");
    reveal_strlit("场景");
    reveal_strlit("场景 ");
    reveal_strlit(" ");
    assert("Scene"@ + " "@ =~= "Scene "@);
    assert("场景"@ + " "@ =~= "场景 "@);
    text::law_blank_texts_have_white_space_only(draft);
    text::law_blank_texts_have_white_space_only(Seq::empty());
    if draft.len() > 0 && !text::is_space(draft[0]) && !text::is_space(draft.last()) {
        assert(text::trimmed(draft) == draft);
    }
}

/// A range that fits its slider stays as it is; of one that does not, as much as
/// fits is kept.
pub proof fn law_ranges_keep_what_fits(range: StrengthRange, slider_max: u16)
    requires
        range.min <= range.max,
    ensures
        range.max <= slider_max ==> within_slider(range, slider_max) == range,
        range.min <= slider_max < range.max ==> within_slider(range, slider_max)
            == (StrengthRange { min: range.min, max: slider_max }),
        slider_max < range.min ==> within_slider(range, slider_max) == (StrengthRange {
            min: slider_max,
            max: slider_max,
        }),
{
}

/// Each range is kept within the slider of its own channel, and the debug
/// strength within that of the debug channel.
pub proof fn law_limits_are_those_of_the_channel(state: AppState)
    requires
        state.auto_limit_with_app_soft_limit,
        state.app_strength_report is Some,
    ensures
        ({
            let report = state.app_strength_report->0;
            let limit = match state.debug_strength_channel {
                DglabChannel::A => report.a_soft_limit,
                DglabChannel::B => report.b_soft_limit,
            };
            let ranges = with_limited_ranges(state);
            let debug = with_limited_debug_value(state);
            &&& ranges.strength_range_a.max <= report.a_soft_limit
            &&& ranges.strength_range_b.max <= report.b_soft_limit
            &&& state.strength_range_a.min <= state.strength_range_a.max <= report.a_soft_limit
                ==> ranges.strength_range_a == state.strength_range_a
            &&& state.strength_range_b.min <= state.strength_range_b.max <= report.b_soft_limit
                ==> ranges.strength_range_b == state.strength_range_b
            &&& ranges == (AppState {
                strength_range_a: ranges.strength_range_a,
                strength_range_b: ranges.strength_range_b,
                ..state
            })
            &&& debug.debug_strength_value == if state.debug_strength_value <= limit {
                state.debug_strength_value
            } else {
                limit
            }
            &&& debug == (AppState { debug_strength_value: debug.debug_strength_value, ..state })
        }),
{
}

/// A selected speaker that is listed stays selected. One that is not gives way
/// to the speaker in use where that is listed, and to none where it is not.
pub proof fn law_listed_speakers_stay_selected(
    selected: Seq<char>,
    devices: Seq<Seq<char>>,
    default: Seq<char>,
)
    ensures
        devices.contains(selected) ==> listed_speaker(Some(selected), devices, Some(default))
            == Some(selected) && listed_speaker(Some(selected), devices, None) == Some(selected),
        !devices.contains(selected) ==> listed_speaker(Some(selected), devices, Some(default))
            == listed_speaker(None, devices, Some(default)) && listed_speaker(
            Some(selected),
            devices,
            None,
        ) is None,
        devices.contains(default) ==> listed_speaker(None, devices, Some(default)) == Some(default),
        !devices.contains(default) ==> listed_speaker(None, devices, Some(default)) is None,
        listed_speaker(None, devices, None) is None,
{
}

/// The more there is to see the more often the window is drawn: eight times a
/// second while something moves, four times while the server runs, and at least
/// once a second at rest.
pub proof fn law_busy_windows_are_drawn_more_often()
    ensures
        8 * REPAINT_ACTIVE_MS <= 1000 < 9 * REPAINT_ACTIVE_MS,
        4 * REPAINT_RUNNING_MS == 1000,
        REPAINT_RUNNING_MS < REPAINT_IDLE_MS <= 1000,
{
}

} // verus!
