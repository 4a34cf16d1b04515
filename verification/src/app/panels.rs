//! The texts of the window's panels.

use vstd::prelude::*;

use crate::app::i18n::{tr, UiLanguage};
use crate::app::scenes::{SceneConfig, SceneView};
use crate::app::state::AppState;
use crate::dglab::protocol::StrengthReport;
use crate::text;
use crate::text::push_decimal;
use crate::types;
use crate::types::{
    band_profile, AutoPulseMode, BandDriveMode, DglabChannel, StrengthRange, BAND_COUNT, MAX_STRENGTH,
};

verus! {

/// Whether the app is there.
pub open spec fn app_status(state: AppState) -> Seq<char> {
    let lang = state.language;
    if state.app_bound {
        lang.choice("App status: bound"@, "App 状态：已绑定"@) + " (app_id="@
            + text::optional_text(state.app_id).unwrap_or("?"@) + ")"@
    } else if state.app_connected {
        lang.choice("App status: connected, waiting bind"@, "App 状态：已连接，等待绑定"@)
    } else {
        lang.choice("App status: not connected"@, "App 状态：未连接"@)
    }
}

pub fn app_status_text(state: &AppState) -> (r: String)
    ensures
        r@ == app_status(*state),
{
    let lang = state.language;
    if state.app_bound {
        let mut r = tr(lang, "App status: bound", "App 状态：已绑定").to_owned();
        r.append(" (app_id=");
        r.append(
            match &state.app_id {
                Some(id) => id.as_str(),
                None => "?",
            },
        );
        r.append(")");
        r
    } else if state.app_connected {
        tr(lang, "App status: connected, waiting bind", "App 状态：已连接，等待绑定").to_owned()
    } else {
        tr(lang, "App status: not connected", "App 状态：未连接").to_owned()
    }
}

/// Whether audio is captured, and from where.
pub open spec fn audio_status(state: AppState) -> Seq<char> {
    let lang = state.language;
    if state.audio_capture_running {
        lang.choice("Audio capture: running"@, "音频采集：运行中"@) + " ("@ + text::optional_text(
            state.audio_input_device,
        ).unwrap_or(lang.choice("<unknown input device>"@, "<未知输入设备>"@)) + ")"@
    } else {
        lang.choice("Audio capture: stopped/unavailable"@, "音频采集：已停止/不可用"@)
    }
}

pub fn audio_status_text(state: &AppState) -> (r: String)
    ensures
        r@ == audio_status(*state),
{
    let lang = state.language;
    if state.audio_capture_running {
        let mut r = tr(lang, "Audio capture: running", "音频采集：运行中").to_owned();
        r.append(" (");
        r.append(
            match &state.audio_input_device {
                Some(name) => name.as_str(),
                None => tr(lang, "<unknown input device>", "<未知输入设备>"),
            },
        );
        r.append(")");
        r
    } else {
        tr(lang, "Audio capture: stopped/unavailable", "音频采集：已停止/不可用").to_owned()
    }
}

/// What the app has reported of its strengths.
pub open spec fn strength_report(lang: UiLanguage, report: Option<StrengthReport>) -> Seq<char> {
    match report {
        Some(r) => lang.choice("App strength"@, "App 强度"@) + " A:"@ + text::decimal(
            r.a_strength as nat,
        ) + " B:"@ + text::decimal(r.b_strength as nat) + " | soft A:"@ + text::decimal(
            r.a_soft_limit as nat,
        ) + " B:"@ + text::decimal(r.b_soft_limit as nat),
        None => lang.choice(
            "No app strength report yet. Send/receive once after bind."@,
            "暂未收到 App 强度上报。绑定后收发一次即可同步。"@,
        ),
    }
}

pub fn strength_report_text(state: &AppState) -> (r: String)
    ensures
        r@ == strength_report(state.language, state.app_strength_report),
{
    let lang = state.language;
    match state.app_strength_report {
        Some(report) => {
            let mut r = tr(lang, "App strength", "App 强度").to_owned();
            r.append(" A:");
            push_decimal(&mut r, report.a_strength as u64);
            r.append(" B:");
            push_decimal(&mut r, report.b_strength as u64);
            r.append(" | soft A:");
            push_decimal(&mut r, report.a_soft_limit as u64);
            r.append(" B:");
            push_decimal(&mut r, report.b_soft_limit as u64);
            r
        },
        None => tr(
            lang,
            "No app strength report yet. Send/receive once after bind.",
            "暂未收到 App 强度上报。绑定后收发一次即可同步。",
        ).to_owned(),
    }
}

/// The note on sliders that the app's limits cut short; none where they do not.
pub open spec fn slider_note(state: AppState) -> Option<Seq<char>> {
    let a = state.slider_max(DglabChannel::A);
    let b = state.slider_max(DglabChannel::B);
    if a < MAX_STRENGTH || b < MAX_STRENGTH {
        Some(
            state.language.choice(
                "Current max limited by App soft limit"@,
                "当前最大值受 App 软上限限制"@,
            ) + ": A="@ + text::decimal(a as nat) + ", B="@ + text::decimal(b as nat),
        )
    } else {
        None
    }
}

pub fn slider_note_text(state: &AppState) -> (r: Option<String>)
    ensures
        text::optional_text(r) == slider_note(*state),
{
    let a: u16 = state.effective_strength_slider_max_for_channel(DglabChannel::A);
    let b: u16 = state.effective_strength_slider_max_for_channel(DglabChannel::B);
    if a < MAX_STRENGTH || b < MAX_STRENGTH {
        let mut r = tr(
            state.language,
            "Current max limited by App soft limit",
            "当前最大值受 App 软上限限制",
        ).to_owned();
        r.append(": A=");
        push_decimal(&mut r, a as u64);
        r.append(", B=");
        push_decimal(&mut r, b as u64);
        Some(r)
    } else {
        None
    }
}

/// The top of the strength plot: the greater of the app's limits, and at least
/// 1.
pub open spec fn plot_max(report: Option<StrengthReport>) -> u16 {
    match report {
        Some(r) => if r.a_soft_limit >= r.b_soft_limit && r.a_soft_limit >= 1 {
            r.a_soft_limit
        } else if r.b_soft_limit >= 1 {
            r.b_soft_limit
        } else {
            1
        },
        None => MAX_STRENGTH,
    }
}

pub fn strength_plot_max(state: &AppState) -> (r: u16)
    ensures
        r == plot_max(state.app_strength_report),
        r >= 1,
{
    match state.app_strength_report {
        Some(report) => if report.a_soft_limit >= report.b_soft_limit && report.a_soft_limit >= 1 {
            report.a_soft_limit
        } else if report.b_soft_limit >= 1 {
            report.b_soft_limit
        } else {
            1
        },
        None => MAX_STRENGTH,
    }
}

/// How many lines the log has and how many are selected.
pub open spec fn log_counts(lang: UiLanguage, lines: nat, selected: nat) -> Seq<char> {
    lang.choice("Lines"@, "行数"@) + ": "@ + text::decimal(lines) + " | "@ + lang.choice(
        "Selected"@,
        "已选"@,
    ) + ": "@ + text::decimal(selected)
}

pub fn log_counts_text(lang: UiLanguage, lines: usize, selected: usize) -> (r: String)
    ensures
        r@ == log_counts(lang, lines as nat, selected as nat),
{
    let mut r = tr(lang, "Lines", "行数").to_owned();
    r.append(": ");
    push_decimal(&mut r, lines as u64);
    r.append(" | ");
    r.append(tr(lang, "Selected", "已选"));
    r.append(": ");
    push_decimal(&mut r, selected as u64);
    r
}

/// The title of a band: its number and its short name.
pub open spec fn band_title(lang: UiLanguage, index: int) -> Seq<char> {
    lang.choice("Band"@, "频段"@) + " "@ + text::decimal((index + 1) as nat) + " · "@ + lang.choice(
        types::band_names(index).0,
        types::band_names(index).1,
    )
}

pub fn band_title_text(lang: UiLanguage, index: usize) -> (r: String)
    requires
        index < BAND_COUNT,
    ensures
        r@ == band_title(lang, index as int),
{
    let profile = band_profile(index);
    let mut r = tr(lang, "Band", "频段").to_owned();
    r.append(" ");
    push_decimal(&mut r, (index + 1) as u64);
    r.append(" · ");
    r.append(tr(lang, profile.short_name_en, profile.short_name_zh));
    r
}

/// What a band picks up, with its range.
pub open spec fn band_help(lang: UiLanguage, index: int) -> Seq<char> {
    let (lo, focus, hi) = types::band_range(index);
    band_title(lang, index) + " ("@ + text::decimal(lo as nat) + "-"@ + text::decimal(hi as nat)
        + " Hz): "@ + lang.choice(types::band_details(index).0, types::band_details(index).1)
}

pub fn band_help_text(lang: UiLanguage, index: usize) -> (r: String)
    requires
        index < BAND_COUNT,
    ensures
        r@ == band_help(lang, index as int),
{
    let profile = band_profile(index);
    let (lo, hi) = profile.range_hz();
    let mut r = band_title_text(lang, index);
    r.append(" (");
    push_decimal(&mut r, lo as u64);
    r.append("-");
    push_decimal(&mut r, hi as u64);
    r.append(" Hz): ");
    r.append(tr(lang, profile.detail_en, profile.detail_zh));
    r
}

/// A strength range as its ends with a dash between them.
pub open spec fn range_ends(range: StrengthRange) -> Seq<char> {
    text::decimal(range.min as nat) + "-"@ + text::decimal(range.max as nat)
}

fn push_range_ends(r: &mut String, range: StrengthRange)
    ensures
        final(r)@ == old(r)@ + range_ends(range),
{
    push_decimal(r, range.min as u64);
    r.append("-");
    push_decimal(r, range.max as u64);
    assert(r@ =~= old(r)@ + range_ends(range));
}

/// What a kept scene does, in a line. `smoothness` is its smoothness in digits;
/// it is shown where the strength is smoothed.
pub open spec fn scene_summary(lang: UiLanguage, scene: SceneView, smoothness: Seq<char>) -> Seq<char> {
    let drive = match scene.band_drive_mode {
        BandDriveMode::Energy => lang.choice("Energy"@, "能量"@),
        BandDriveMode::Onset => lang.choice("Onset"@, "瞬态"@),
    };
    let pulse = match scene.auto_pulse_mode {
        AutoPulseMode::ByStrength => lang.choice("By strength"@, "按强度映射"@),
        AutoPulseMode::AlwaysMax => lang.choice("Always max"@, "始终最高"@),
    };
    let smooth = if scene.smooth_strength_enabled {
        smoothness
    } else {
        lang.choice("off"@, "关闭"@)
    };
    lang.choice("Drive"@, "驱动"@) + ": "@ + drive + " | "@ + lang.choice("Pulse"@, "波形"@) + ": "@
        + pulse + " | A "@ + range_ends(scene.strength_range_a) + " / B "@ + range_ends(
        scene.strength_range_b,
    ) + " | "@ + lang.choice("Smooth"@, "平滑"@) + ": "@ + smooth
}

pub fn scene_summary_text(lang: UiLanguage, config: &SceneConfig, smoothness: &str) -> (r: String)
    ensures
        r@ == scene_summary(lang, config@, smoothness@),
{
    let drive = match config.band_drive_mode {
        BandDriveMode::Energy => tr(lang, "Energy", "能量"),
        BandDriveMode::Onset => tr(lang, "Onset", "瞬态"),
    };
    let pulse = match config.auto_pulse_mode {
        AutoPulseMode::ByStrength => tr(lang, "By strength", "按强度映射"),
        AutoPulseMode::AlwaysMax => tr(lang, "Always max", "始终最高"),
    };
    let smooth = if config.smooth_strength_enabled {
        smoothness
    } else {
        tr(lang, "off", "关闭")
    };
    let mut r = tr(lang, "Drive", "驱动").to_owned();
    r.append(": ");
    r.append(drive);
    r.append(" | ");
    r.append(tr(lang, "Pulse", "波形"));
    r.append(": ");
    r.append(pulse);
    r.append(" | A ");
    push_range_ends(&mut r, config.strength_range_a);
    r.append(" / B ");
    push_range_ends(&mut r, config.strength_range_b);
    r.append(" | ");
    r.append(tr(lang, "Smooth", "平滑"));
    r.append(": ");
    r.append(smooth);
    r
}

/// An app that is bound is shown with its id, whatever else is known; one that is
/// only connected is waited for; without either there is none.
pub proof fn law_app_is_shown(state: AppState)
    requires
        state.language == UiLanguage::En,
    ensures
        state.app_bound && state.app_id is Some ==> app_status(state)
            == "App status: bound (app_id="@ + state.app_id->0@ + ")"@,
        state.app_bound && state.app_id is None ==> app_status(state)
            == "App status: bound (app_id=?)"@,
        !state.app_bound && state.app_connected ==> app_status(state)
            == "App status: connected, waiting bind"@,
        !state.app_bound && !state.app_connected ==> app_status(state)
            == "App status: not connected"@,
{
    reveal_strlit("App status: bound");
    reveal_strlit(" (app_id=");
    reveal_strlit("App status: bound (app_id=");
    reveal_strlit("App status: bound (app_id=?)");
    reveal_strlit("?");
    reveal_strlit(")");
    assert("App status: bound"@ + " (app_id="@ =~= "App status: bound (app_id="@);
    assert("App status: bound (app_id="@ + "?"@ + ")"@ =~= "App status: bound (app_id=?)"@);
}

/// A running capture is shown with its device.
pub proof fn law_capture_is_shown(state: AppState)
    requires
        state.language == UiLanguage::En,
    ensures
        state.audio_capture_running && state.audio_input_device is Some ==> audio_status(state)
            == "Audio capture: running ("@ + state.audio_input_device->0@ + ")"@,
        state.audio_capture_running && state.audio_input_device is None ==> audio_status(state)
            == "Audio capture: running (<unknown input device>)"@,
        !state.audio_capture_running ==> audio_status(state)
            == "Audio capture: stopped/unavailable"@,
{
    reveal_strlit("Audio capture: running");
    reveal_strlit(" (");
    reveal_strlit("Audio capture: running (");
    reveal_strlit("<unknown input device>");
    reveal_strlit(")");
    reveal_strlit("Audio capture: running (<unknown input device>)");
    assert("Audio capture: running"@ + " ("@ =~= "Audio capture: running ("@);
    assert("Audio capture: running ("@ + "<unknown input device>"@ + ")"@
        =~= "Audio capture: running (<unknown input device>)"@);
}

/// A report is shown with both strengths and then both limits, A before B.
pub proof fn law_reports_are_shown(report: StrengthReport)
    ensures
        strength_report(UiLanguage::En, Some(report)) == "App strength A:"@ + text::decimal(
            report.a_strength as nat,
        ) + " B:"@ + text::decimal(report.b_strength as nat) + " | soft A:"@ + text::decimal(
            report.a_soft_limit as nat,
        ) + " B:"@ + text::decimal(report.b_soft_limit as nat),
        strength_report(UiLanguage::En, None)
            == "No app strength report yet. Send/receive once after bind."@,
{
    reveal_strlit("App strength");
    reveal_strlit(" A:");
    reveal_strlit("App strength A:");
    assert("App strength"@ + " A:"@ =~= "App strength A:"@);
}

/// A note on the sliders comes exactly where the app's limits count, are known
/// and cut one of them short of 200; it tells the ends of both.
pub proof fn law_short_sliders_are_noted(state: AppState)
    ensures
        slider_note(state) is Some <==> state.auto_limit_with_app_soft_limit && (
        state.app_strength_report matches Some(report) && (report.a_soft_limit < 200
            || report.b_soft_limit < 200)),
        slider_note(state) is Some && state.language == UiLanguage::En ==> slider_note(state)->0
            == "Current max limited by App soft limit: A="@ + text::decimal(
            state.app_strength_report->0.a_soft_limit as nat,
        ) + ", B="@ + text::decimal(state.app_strength_report->0.b_soft_limit as nat),
{
    reveal_strlit("Current max limited by App soft limit");
    reveal_strlit(": A=");
    reveal_strlit("Current max limited by App soft limit: A=");
    assert("Current max limited by App soft limit"@ + ": A="@
        =~= "Current max limited by App soft limit: A="@);
}

/// Every strength up to the app's limits fits into the plot, and the plot is no
/// higher than it must be; without a report it goes to 200.
pub proof fn law_plot_holds_both_limits(report: StrengthReport)
    ensures
        plot_max(Some(report)) >= report.a_soft_limit,
        plot_max(Some(report)) >= report.b_soft_limit,
        plot_max(Some(report)) >= 1,
        plot_max(Some(report)) == report.a_soft_limit || plot_max(Some(report))
            == report.b_soft_limit || plot_max(Some(report)) == 1,
        plot_max(None) == 200,
{
}

/// The log's counts are shown, all lines before the selected ones.
pub proof fn law_log_lines_are_counted(lines: nat, selected: nat)
    ensures
        log_counts(UiLanguage::En, lines, selected) == "Lines: "@ + text::decimal(lines)
            + " | Selected: "@ + text::decimal(selected),
{
    reveal_strlit("Lines");
    reveal_strlit(": ");
    reveal_strlit("Lines: ");
    reveal_strlit(" | ");
    reveal_strlit("Selected");
    reveal_strlit(" | Selected: ");
    assert(log_counts(UiLanguage::En, lines, selected) =~= "Lines: "@ + text::decimal(lines)
        + " | Selected: "@ + text::decimal(selected));
}

/// A band is shown by its number, counted from one, and its name; the help adds
/// its lowest and its highest frequency and what it picks up.
pub proof fn law_bands_are_shown(index: int)
    requires
        0 <= index < 4,
    ensures
        band_title(UiLanguage::En, index) == "Band "@ + text::decimal((index + 1) as nat) + " · "@
            + types::band_names(index).0,
        band_title(UiLanguage::ZhCn, index) == "频段 "@ + text::decimal((index + 1) as nat) + " · "@
            + types::band_names(index).1,
        band_help(UiLanguage::En, index) == band_title(UiLanguage::En, index) + " ("@
            + text::decimal(types::band_range(index).0 as nat) + "-"@ + text::decimal(
            types::band_range(index).2 as nat,
        ) + " Hz): "@ + types::band_details(index).0,
{
    reveal_strlit("Band");
    reveal_strlit(" ");
    reveal_strlit("Band ");
    reveal_strlit("频段");
    reveal_strlit("频段 ");
    assert("Band"@ + " "@ =~= "Band "@);
    assert("频段"@ + " "@ =~= "频段 "@);
}

/// A kept scene is summed up by what drives it, its pulse, the ends of its ranges,
/// A before B, and its smoothness where the strength is smoothed.
pub proof fn law_scenes_are_summed_up(scene: SceneView, smoothness: Seq<char>)
    ensures
        ({
            let drive = match scene.band_drive_mode {
                BandDriveMode::Energy => "Drive: Energy | Pulse: "@,
                BandDriveMode::Onset => "Drive: Onset | Pulse: "@,
            };
            let pulse = match scene.auto_pulse_mode {
                AutoPulseMode::ByStrength => "By strength | A "@,
                AutoPulseMode::AlwaysMax => "Always max | A "@,
            };
            let smooth = if scene.smooth_strength_enabled {
                smoothness
            } else {
                "off"@
            };
            scene_summary(UiLanguage::En, scene, smoothness) == drive + pulse + text::decimal(
                scene.strength_range_a.min as nat,
            ) + "-"@ + text::decimal(scene.strength_range_a.max as nat) + " / B "@ + text::decimal(
                scene.strength_range_b.min as nat,
            ) + "-"@ + text::decimal(scene.strength_range_b.max as nat) + " | Smooth: "@ + smooth
        }),
{
    reveal_strlit("Drive");
    reveal_strlit(": ");
    reveal_strlit("Energy");
    reveal_strlit("Onset");
    reveal_strlit(" | ");
    reveal_strlit("Pulse");
    reveal_strlit("Drive: Energy | Pulse: ");
    reveal_strlit("Drive: Onset | Pulse: ");
    reveal_strlit("By strength");
    reveal_strlit("Always max");
    reveal_strlit(" | A ");
    reveal_strlit("By strength | A ");
    reveal_strlit("Always max | A ");
    reveal_strlit("Smooth");
    reveal_strlit(" | Smooth: ");
    let drive = match scene.band_drive_mode {
        BandDriveMode::Energy => "Drive: Energy | Pulse: "@,
        BandDriveMode::Onset => "Drive: Onset | Pulse: "@,
    };
    let drive_name = match scene.band_drive_mode {
        BandDriveMode::Energy => "Energy"@,
        BandDriveMode::Onset => "Onset"@,
    };
    let pulse = match scene.auto_pulse_mode {
        AutoPulseMode::ByStrength => "By strength | A "@,
        AutoPulseMode::AlwaysMax => "Always max | A "@,
    };
    let pulse_name = match scene.auto_pulse_mode {
        AutoPulseMode::ByStrength => "By strength"@,
        AutoPulseMode::AlwaysMax => "Always max"@,
    };
    let smooth = if scene.smooth_strength_enabled {
        smoothness
    } else {
        "off"@
    };
    let a = range_ends(scene.strength_range_a);
    let b = range_ends(scene.strength_range_b);
    assert("Drive"@ + ": "@ + drive_name + " | "@ + "Pulse"@ + ": "@ =~= drive);
    assert(pulse_name + " | A "@ =~= pulse);
    assert(" | "@ + "Smooth"@ + ": "@ =~= " | Smooth: "@);
    assert(drive + pulse_name + " | A "@ =~= drive + pulse);
    let front = drive + pulse;
    assert(front + a + " / B "@ + b + " | "@ + "Smooth"@ + ": "@ + smooth =~= front + a + " / B "@
        + b + " | Smooth: "@ + smooth);
    assert(front + a + " / B "@ + b =~= front + text::decimal(scene.strength_range_a.min as nat)
        + "-"@ + text::decimal(scene.strength_range_a.max as nat) + " / B "@ + text::decimal(
        scene.strength_range_b.min as nat,
    ) + "-"@ + text::decimal(scene.strength_range_b.max as nat));
}

} // verus!
