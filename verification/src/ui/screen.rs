//! Titles, footers and overlays.

use crate::app::state::ActiveScreen;
use crate::app::worker::DataState;
use crate::locale::{localized, style_label_text, tenths_text, DisplayFormatter};
use crate::text::{middle_cut, opt_view, same, truncate_middle, views};
use crate::ui::wrap::{wrapped_line_count, wrapped_lines};
use crate::usage::snapshot::LocalUsageModel;
use vstd::prelude::*;

verus! {

/// The title of a screen.
pub open spec fn title_text(screen: ActiveScreen) -> Seq<char> {
    match screen {
        ActiveScreen::Usage => " comon :: usage "@,
        ActiveScreen::Activity => " comon :: activity "@,
        ActiveScreen::ApiStat => " comon :: api stats "@,
        ActiveScreen::LimitResets => " comon :: limit resets "@,
        ActiveScreen::Read => " comon :: session history "@,
    }
}

/// The title of a screen.
pub fn screen_title(screen: ActiveScreen) -> (r: &'static str)
    ensures
        r@ == title_text(screen),
{
    match screen {
        ActiveScreen::Usage => " comon :: usage ",
        ActiveScreen::Activity => " comon :: activity ",
        ActiveScreen::ApiStat => " comon :: api stats ",
        ActiveScreen::LimitResets => " comon :: limit resets ",
        ActiveScreen::Read => " comon :: session history ",
    }
}

/// The keys of a screen in one line.
pub open spec fn hint_text(screen: ActiveScreen) -> Seq<char> {
    match screen {
        ActiveScreen::Usage => "Usage: Statistic [tab] (tokens/time/runs), Timeframe [w] (week/month), Layout [f] (horizontal/vertical), Refresh [r/F5], Switch [s/F2], Help [?], Quit [q]"@,
        ActiveScreen::Activity => "Activity: Statistic [tab] (tokens/time/runs), Projects [+/-], Refresh [r/F5], Switch [s/F2], Help [?], Quit [q]"@,
        ActiveScreen::ApiStat => "API stats: Grouping [g] (day/week/month), Graph [b] (bars/heat), Layout [f] (horizontal/vertical), Refresh [r/F5], Switch [s/F2], Help [?], Quit [q]"@,
        ActiveScreen::LimitResets => "Limit resets: Refresh [r/F5], Switch [s/F2], Help [?], Quit [q]"@,
        ActiveScreen::Read => ""@,
    }
}

/// The keys of a screen in one line.
pub fn footer_hint(screen: ActiveScreen) -> (r: &'static str)
    ensures
        r@ == hint_text(screen),
{
    match screen {
        ActiveScreen::Usage => "Usage: Statistic [tab] (tokens/time/runs), Timeframe [w] (week/month), Layout [f] (horizontal/vertical), Refresh [r/F5], Switch [s/F2], Help [?], Quit [q]",
        ActiveScreen::Activity => "Activity: Statistic [tab] (tokens/time/runs), Projects [+/-], Refresh [r/F5], Switch [s/F2], Help [?], Quit [q]",
        ActiveScreen::ApiStat => "API stats: Grouping [g] (day/week/month), Graph [b] (bars/heat), Layout [f] (horizontal/vertical), Refresh [r/F5], Switch [s/F2], Help [?], Quit [q]",
        ActiveScreen::LimitResets => "Limit resets: Refresh [r/F5], Switch [s/F2], Help [?], Quit [q]",
        ActiveScreen::Read => "",
    }
}

/// The error of the footer: that of the usage, else that of the limits, cut to eighty characters.
pub open spec fn error_text(d: DataState) -> Seq<char> {
    match d.usage_error {
        Some(e) => middle_cut(e@, 80),
        None => match d.limits_error {
            Some(e) => middle_cut(e@, 80),
            None => Seq::empty(),
        },
    }
}

/// The error of the footer.
pub fn footer_error(data: &DataState) -> (r: String)
    ensures
        r@ == error_text(*data),
{
    match &data.usage_error {
        Some(e) => truncate_middle(e.as_str(), 80),
        None => match &data.limits_error {
            Some(e) => truncate_middle(e.as_str(), 80),
            None => {
                proof {
                    reveal_strlit("");
                    assert(""@ =~= Seq::<char>::empty());
                }
                "".to_owned()
            },
        },
    }
}

/// The display style of the footer.
pub open spec fn style_part(f: DisplayFormatter) -> Seq<char> {
    "Style [n]: "@ + style_label_text(f)
}

/// The display style of the footer.
pub fn footer_style(formatter: DisplayFormatter) -> (r: String)
    ensures
        r@ == style_part(formatter),
{
    let mut text = "Style [n]: ".to_owned();
    text.append(formatter.style_label().as_str());
    text
}

/// The footer in one line.
pub open spec fn footer_line(screen: ActiveScreen, d: DataState, f: DisplayFormatter) -> Seq<char> {
    let base = hint_text(screen) + "  "@ + style_part(f);
    if error_text(d).len() == 0 {
        base
    } else {
        base + "  "@ + error_text(d)
    }
}

/// The footer in one line.
pub fn footer_text(screen: ActiveScreen, data: &DataState, formatter: DisplayFormatter) -> (r:
    String)
    ensures
        r@ == footer_line(screen, *data, formatter),
{
    let mut text = footer_hint(screen).to_owned();
    text.append("  ");
    text.append(footer_style(formatter).as_str());
    let err = footer_error(data);
    proof {
        reveal_strlit("");
    }
    if !same(err.as_str(), "") {
        assert(err@.len() > 0) by {
            if err@.len() == 0 {
                assert(err@ =~= ""@);
            }
        }
        text.append("  ");
        text.append(err.as_str());
    }
    text
}

/// How many lines the footer takes.
pub fn footer_height(width: u16, screen: ActiveScreen, data: &DataState, formatter: DisplayFormatter)
    -> (r: u16)
    ensures
        r == wrapped_lines(footer_line(screen, *data, formatter), width as nat),
        r >= 1,
{
    wrapped_line_count(footer_text(screen, data, formatter).as_str(), width)
}

/// The name of a model and its share.
pub open spec fn model_text(f: DisplayFormatter, m: LocalUsageModel) -> Seq<char> {
    middle_cut(m.model@, 18) + " "@ + localized(f, tenths_text(m.share_tenths as int)) + "%"@
}

/// The names of models and their shares.
pub open spec fn model_texts(f: DisplayFormatter, models: Seq<LocalUsageModel>) -> Seq<Seq<char>> {
    models.map_values(|m: LocalUsageModel| model_text(f, m))
}

/// The names of the top models and their shares; dashes where there are none.
pub fn top_model_labels(models: &Vec<LocalUsageModel>, formatter: DisplayFormatter) -> (r: Vec<
    String,
>)
    ensures
        views(r@) == (if models@.len() == 0 {
            seq!["--"@]
        } else {
            model_texts(formatter, models@)
        }),
{
    let mut out: Vec<String> = Vec::new();
    if models.len() == 0 {
        out.push("--".to_owned());
        assert(views(out@) =~= seq!["--"@]);
        return out;
    }
    let mut i: usize = 0;
    while i < models.len()
        invariant
            i <= models@.len(),
            out@.len() == i,
            forall|k: int| 0 <= k < i ==> (#[trigger] out@[k])@ == model_text(formatter, models@[k]),
        decreases models@.len() - i,
    {
        let mut text = truncate_middle(models[i].model.as_str(), 18);
        text.append(" ");
        text.append(formatter.format_one_decimal(models[i].share_tenths).as_str());
        text.append("%");
        out.push(text);
        i += 1;
    }
    assert(views(out@) =~= model_texts(formatter, models@));
    out
}

/// The workspace that usage is shown for.
pub open spec fn workspace_text(path: Option<Seq<char>>) -> Seq<char> {
    middle_cut(
        match path {
            Some(p) => p,
            None => "All workspaces"@,
        },
        48,
    )
}

/// The workspace that usage is shown for.
pub fn workspace_label(path: &Option<String>) -> (r: String)
    ensures
        r@ == workspace_text(opt_view(*path)),
{
    match path {
        Some(p) => truncate_middle(p.as_str(), 48),
        None => truncate_middle("All workspaces", 48),
    }
}

/// The lines of the help of a screen.
pub open spec fn help_text(screen: ActiveScreen) -> Seq<Seq<char>> {
    match screen {
        ActiveScreen::Usage => seq![
            "Keys:"@,
            "  Tab  - toggle statistic (Tokens/Time/Runs)"@,
            "  w    - toggle timeframe (Week/Month)"@,
            "  f    - toggle layout (Horz/Vert)"@,
            "  n    - cycle display style (Classic/System Compact/Full)"@,
            "  r/F5 - refresh usage + limits"@,
            "  s/F2 - switch screen"@,
            "  ?    - toggle help"@,
            "  q/Esc - quit"@,
        ],
        ActiveScreen::Activity => seq![
            "Keys:"@,
            "  Tab  - toggle statistic (Tokens/Time/Runs)"@,
            "  +/=  - show more projects"@,
            "  -    - show fewer projects"@,
            "  n    - cycle display style (Classic/System Compact/Full)"@,
            "  r/F5 - refresh usage + limits"@,
            "  s/F2 - switch screen"@,
            "  ?    - toggle help"@,
            "  q/Esc - quit"@,
        ],
        ActiveScreen::ApiStat => seq![
            "Keys:"@,
            "  g    - toggle grouping (Day/Week/Month)"@,
            "  b    - toggle graph (Bars/Heat)"@,
            "  f    - toggle layout (Horz/Vert)"@,
            "  n    - cycle display style (Classic/System Compact/Full)"@,
            "  r/F5 - refresh account usage"@,
            "  s/F2 - switch screen"@,
            "  ?    - toggle help"@,
            "  q/Esc - quit"@,
        ],
        ActiveScreen::LimitResets => seq![
            "Keys:"@,
            "  r/F5 - refresh reset credits"@,
            "  n    - cycle display style (Classic/System Compact/Full)"@,
            "  s/F2 - switch screen"@,
            "  ?    - toggle help"@,
            "  q/Esc - quit"@,
        ],
        ActiveScreen::Read => seq![
            "Keys:"@,
            "  n    - cycle display style (Classic/System Compact/Full)"@,
            "  q/Esc - quit"@,
        ],
    }
}

/// The texts behind references.
pub open spec fn str_views(v: Seq<&'static str>) -> Seq<Seq<char>> {
    v.map_values(|s: &'static str| s@)
}

/// The lines of the help of a screen.
pub fn help_lines(screen: ActiveScreen) -> (r: Vec<&'static str>)
    ensures
        str_views(r@) == help_text(screen),
{
    let mut out: Vec<&'static str> = Vec::new();
    out.push("Keys:");
    match screen {
        ActiveScreen::Usage => {
            out.push("  Tab  - toggle statistic (Tokens/Time/Runs)");
            out.push("  w    - toggle timeframe (Week/Month)");
            out.push("  f    - toggle layout (Horz/Vert)");
            out.push("  n    - cycle display style (Classic/System Compact/Full)");
            out.push("  r/F5 - refresh usage + limits");
            out.push("  s/F2 - switch screen");
            out.push("  ?    - toggle help");
        },
        ActiveScreen::Activity => {
            out.push("  Tab  - toggle statistic (Tokens/Time/Runs)");
            out.push("  +/=  - show more projects");
            out.push("  -    - show fewer projects");
            out.push("  n    - cycle display style (Classic/System Compact/Full)");
            out.push("  r/F5 - refresh usage + limits");
            out.push("  s/F2 - switch screen");
            out.push("  ?    - toggle help");
        },
        ActiveScreen::ApiStat => {
            out.push("  g    - toggle grouping (Day/Week/Month)");
            out.push("  b    - toggle graph (Bars/Heat)");
            out.push("  f    - toggle layout (Horz/Vert)");
            out.push("  n    - cycle display style (Classic/System Compact/Full)");
            out.push("  r/F5 - refresh account usage");
            out.push("  s/F2 - switch screen");
            out.push("  ?    - toggle help");
        },
        ActiveScreen::LimitResets => {
            out.push("  r/F5 - refresh reset credits");
            out.push("  n    - cycle display style (Classic/System Compact/Full)");
            out.push("  s/F2 - switch screen");
            out.push("  ?    - toggle help");
        },
        ActiveScreen::Read => {
            out.push("  n    - cycle display style (Classic/System Compact/Full)");
        },
    }
    out.push("  q/Esc - quit");
    assert(str_views(out@) =~= help_text(screen));
    out
}

/// The lines of the warning that a project has no sessions.
pub fn no_sessions_lines(project: &Option<String>) -> (r: Vec<String>)
    ensures
        views(r@) == seq![
            "No Codex session files were found for this project."@,
            middle_cut(
                match opt_view(*project) {
                    Some(p) => p,
                    None => "--"@,
                },
                64,
            ),
            ""@,
            "Usage will stay empty until you run Codex in this repo."@,
            "Continue anyway?"@,
            ""@,
            "Press Enter/Y to continue. ESC/Q to quit"@,
        ],
{
    let mut out: Vec<String> = Vec::new();
    out.push("No Codex session files were found for this project.".to_owned());
    out.push(
        match project {
            Some(p) => truncate_middle(p.as_str(), 64),
            None => truncate_middle("--", 64),
        },
    );
    out.push("".to_owned());
    out.push("Usage will stay empty until you run Codex in this repo.".to_owned());
    out.push("Continue anyway?".to_owned());
    out.push("".to_owned());
    out.push("Press Enter/Y to continue. ESC/Q to quit".to_owned());
    assert(views(out@) =~= seq![
        "No Codex session files were found for this project."@,
        middle_cut(
            match opt_view(*project) {
                Some(p) => p,
                None => "--"@,
            },
            64,
        ),
        ""@,
        "Usage will stay empty until you run Codex in this repo."@,
        "Continue anyway?"@,
        ""@,
        "Press Enter/Y to continue. ESC/Q to quit"@,
    ]);
    out
}

/// What the view of reset credits shows instead of credits; none where there are credits to list.
pub fn reset_details_message(data: &DataState) -> (r: Option<Vec<String>>)
    ensures
        match r {
            Some(lines) => views(lines@) == (if !data.limits_enabled {
                seq![
                    match data.limits_error {
                        Some(e) => e@,
                        None => match data.limits_notice {
                            Some(n) => n@,
                            None => "Limits unavailable."@,
                        },
                    },
                ]
            } else if data.limits is None {
                seq!["Loading reset credits..."@]
            } else if data.limits->0.reset_credits is None {
                seq![
                    "Codex returned the reset-credit count but no individual details."@,
                    "Refresh later to check whether expiration dates become available."@,
                ]
            } else {
                seq!["No reset credits are currently available."@]
            }),
            None => true,
        },
        r is None <==> data.limits_enabled && data.limits is Some
            && data.limits->0.reset_credits is Some && data.limits->0.reset_credits->0@.len() > 0,
{
    let mut out: Vec<String> = Vec::new();
    if !data.limits_enabled {
        out.push(
            match &data.limits_error {
                Some(e) => e.as_str().to_owned(),
                None => match &data.limits_notice {
                    Some(n) => n.as_str().to_owned(),
                    None => "Limits unavailable.".to_owned(),
                },
            },
        );
        assert(views(out@) =~= seq![out@[0]@]);
        return Some(out);
    }
    match &data.limits {
        None => {
            out.push("Loading reset credits...".to_owned());
            assert(views(out@) =~= seq!["Loading reset credits..."@]);
            Some(out)
        },
        Some(limits) => match &limits.reset_credits {
            None => {
                out.push(
                    "Codex returned the reset-credit count but no individual details.".to_owned(),
                );
                out.push(
                    "Refresh later to check whether expiration dates become available.".to_owned(),
                );
                assert(views(out@) =~= seq![
                    "Codex returned the reset-credit count but no individual details."@,
                    "Refresh later to check whether expiration dates become available."@,
                ]);
                Some(out)
            },
            Some(credits) => if credits.len() == 0 {
                out.push("No reset credits are currently available.".to_owned());
                assert(views(out@) =~= seq!["No reset credits are currently available."@]);
                Some(out)
            } else {
                None
            },
        },
    }
}

} // verus!
