//! The state of the main window: the tab on show, the automatic saving,
//! and the export of the team list.

use vstd::prelude::*;
use vstd::string::*;
use crate::data::team::{Team, push_i64};
use crate::text::decimal;

verus! {

/// The tab that the main window shows.
#[derive(Debug, Clone, Copy, PartialEq, Eq)]
pub enum ActiveTab {
    TeamDetails,
    Visualization,
    SponsorEditor,
}

impl ActiveTab {
    /// The title of the tab.
    pub fn as_str(&self) -> (title: &'static str)
        ensures
            title@ == match *self {
                ActiveTab::TeamDetails => "球队详情"@,
                ActiveTab::Visualization => "数据可视化"@,
                ActiveTab::SponsorEditor => "杂项编辑器"@,
            },
    {
        match self {
            ActiveTab::TeamDetails => "球队详情",
            ActiveTab::Visualization => "数据可视化",
            ActiveTab::SponsorEditor => "杂项编辑器",
        }
    }
}

/// The seconds between a change and its automatic saving.
pub const AUTO_SAVE_INTERVAL: u64 = 30;

/// Whether changes are saved by themselves, and when.
#[derive(Debug, Clone, Copy, PartialEq, Eq)]
pub struct AutoSave {
    pub enabled: bool,
    pub has_unsaved_changes: bool,
    /// The seconds left until the changes are saved.
    pub countdown: u64,
}

/// The seconds left when `elapsed` seconds have passed since the last
/// change.
pub open spec fn spec_countdown(elapsed: u64) -> u64 {
    if elapsed >= AUTO_SAVE_INTERVAL {
        0
    } else {
        (AUTO_SAVE_INTERVAL - elapsed) as u64
    }
}

impl AutoSave {
    /// Automatic saving switched on, with nothing to save.
    pub fn new() -> (state: Self)
        ensures
            state == (AutoSave {
                enabled: true,
                has_unsaved_changes: false,
                countdown: AUTO_SAVE_INTERVAL,
            }),
    {
        AutoSave { enabled: true, has_unsaved_changes: false, countdown: AUTO_SAVE_INTERVAL }
    }

    /// Switches automatic saving on or off, and tells which.
    pub fn toggle(&mut self) -> (enabled: bool)
        ensures
            enabled == !old(self).enabled,
            *final(self) == (AutoSave { enabled, ..*old(self) }),
    {
        self.enabled = !self.enabled;
        self.enabled
    }

    /// Notes a change that is not saved yet.
    pub fn note_change(&mut self)
        ensures
            *final(self) == (AutoSave { has_unsaved_changes: true, ..*old(self) }),
    {
        self.has_unsaved_changes = true;
    }

    /// Notes that there is nothing left to save, as after a team was
    /// selected or saved by hand.
    pub fn note_clean(&mut self)
        ensures
            *final(self) == (AutoSave { has_unsaved_changes: false, ..*old(self) }),
    {
        self.has_unsaved_changes = false;
    }

    /// Takes note of the seconds that have passed since the last change.
    /// The countdown only runs while saving is switched on and there is
    /// something to save.
    pub fn tick(&mut self, elapsed: u64)
        ensures
            *final(self) == (AutoSave {
                countdown: if old(self).enabled && old(self).has_unsaved_changes {
                    spec_countdown(elapsed)
                } else {
                    old(self).countdown
                },
                ..*old(self)
            }),
    {
        if !self.enabled || !self.has_unsaved_changes {
            return ;
        }
        if elapsed >= AUTO_SAVE_INTERVAL {
            self.countdown = 0;
        } else {
            self.countdown = AUTO_SAVE_INTERVAL - elapsed;
        }
    }

    /// Whether the changes are to be saved now: the countdown has run out,
    /// saving is switched on, there is something to save and a database to
    /// save it to.
    pub fn is_due(&self, connected: bool) -> (due: bool)
        ensures
            due == (self.countdown == 0 && self.enabled && self.has_unsaved_changes && connected),
    {
        self.countdown == 0 && self.enabled && self.has_unsaved_changes && connected
    }

    /// Notes that the changes were saved: nothing is left to save and the
    /// countdown starts anew.
    pub fn note_saved(&mut self)
        ensures
            *final(self) == (AutoSave {
                has_unsaved_changes: false,
                countdown: AUTO_SAVE_INTERVAL,
                ..*old(self)
            }),
    {
        self.has_unsaved_changes = false;
        self.countdown = AUTO_SAVE_INTERVAL;
    }
}

/// The first line of an exported team list.
pub open spec fn csv_header() -> Seq<char> {
    "ID,球队名称,球队财富,成立年份,所在地区,支持者数量,主场名称,球队昵称,联赛ID\n"@
}

/// The line of a team in an exported list: its fields separated by commas,
/// as they are, and a line break.
pub open spec fn csv_row(team: Team) -> Seq<char> {
    decimal(team.id as int) + ","@ + team.name@ + ","@ + decimal(team.wealth as int) + ","@
        + decimal(team.found_year as int) + ","@ + team.location@ + ","@ + decimal(
        team.supporter_count as int,
    ) + ","@ + team.stadium_name@ + ","@ + team.nickname@ + ","@ + decimal(team.league_id as int)
        + "\n"@
}

/// The lines of `teams`, one after the other.
pub open spec fn csv_rows(teams: Seq<Team>) -> Seq<char>
    decreases teams.len(),
{
    if teams.len() == 0 {
        Seq::empty()
    } else {
        csv_rows(teams.drop_last()) + csv_row(teams.last())
    }
}

/// Appends the line of `team` to `out`.
fn push_csv_row(out: &mut String, team: &Team)
    ensures
        final(out)@ == old(out)@ + csv_row(*team),
{
    let ghost start = out@;
    push_i64(out, team.id);
    out.append(",");
    out.append(team.name.as_str());
    out.append(",");
    push_i64(out, team.wealth);
    out.append(",");
    push_i64(out, team.found_year);
    out.append(",");
    out.append(team.location.as_str());
    out.append(",");
    push_i64(out, team.supporter_count);
    out.append(",");
    out.append(team.stadium_name.as_str());
    out.append(",");
    out.append(team.nickname.as_str());
    out.append(",");
    push_i64(out, team.league_id);
    out.append("\n");
    assert(out@ =~= start + csv_row(*team));
}

/// The text of the exported team list: the header and the line of each
/// team, in order.
pub fn export_csv(teams: &Vec<Team>) -> (content: String)
    ensures
        content@ == csv_header() + csv_rows(teams@),
{
    let mut content = "ID,球队名称,球队财富,成立年份,所在地区,支持者数量,主场名称,球队昵称,联赛ID\n".to_owned();
    let mut i: usize = 0;
    assert(teams@.take(0) =~= Seq::<Team>::empty());
    assert(content@ =~= csv_header() + csv_rows(teams@.take(0)));
    while i < teams.len()
        invariant
            i <= teams@.len(),
            content@ == csv_header() + csv_rows(teams@.take(i as int)),
        decreases teams.len() - i,
    {
        proof {
            assert(teams@.take(i as int + 1).drop_last() =~= teams@.take(i as int));
            assert(teams@.take(i as int + 1).last() == teams@[i as int]);
        }
        push_csv_row(&mut content, &teams[i]);
        assert(content@ =~= csv_header() + csv_rows(teams@.take(i as int + 1)));
        i = i + 1;
    }
    assert(teams@.take(i as int) =~= teams@);
    content
}

} // verus!
