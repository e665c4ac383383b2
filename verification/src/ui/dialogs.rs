//! The state of the dialogs: what they hold, what they accept, and what
//! they hand back.

use vstd::prelude::*;
use vstd::string::*;
use crate::data::staff::{Staff, json_parse, spec_ability, spec_ability_json};
use crate::data::team::Team;
use crate::error::AppError;
use crate::text::{decimal, format_i64, parse_i64, spec_parse_i64, trim, trimmed};

verus! {

/// The dialog that edits one staff member.
#[derive(Debug)]
pub struct StaffEditDialog {
    pub open: bool,
    pub staff: Option<Staff>,
    pub name: String,
    pub ability: String,
    pub fame: String,
    pub confirmed: bool,
    pub error_message: Option<String>,
}

/// What is wrong with the text of a number that must not be negative, if
/// anything: the second message when it is no number, the first when the
/// number is negative.
pub open spec fn spec_check_amount(text: Seq<char>, negative: Seq<char>, invalid: Seq<char>) -> Option<
    Seq<char>,
> {
    match spec_parse_i64(trimmed(text)) {
        Some(n) => if n >= 0 {
            None
        } else {
            Some(negative)
        },
        None => Some(invalid),
    }
}

/// Checks the text of a number that must not be negative.
fn check_amount(text: &str, negative: &str, invalid: &str) -> (r: Result<(), AppError>)
    ensures
        match spec_check_amount(text@, negative@, invalid@) {
            None => r is Ok,
            Some(message) => r matches Err(AppError::InvalidInput(m)) && m@ == message,
        },
{
    match parse_i64(trim(text)) {
        Some(n) => if n >= 0 {
            Ok(())
        } else {
            Err(AppError::InvalidInput(negative.to_owned()))
        },
        None => Err(AppError::InvalidInput(invalid.to_owned())),
    }
}

impl StaffEditDialog {
    /// A closed dialog without a staff member.
    pub fn new() -> (dialog: Self)
        ensures
            !dialog.open,
            dialog.staff is None,
            dialog.name@.len() == 0,
            dialog.ability@.len() == 0,
            dialog.fame@.len() == 0,
            !dialog.confirmed,
            dialog.error_message is None,
    {
        StaffEditDialog {
            open: false,
            staff: None,
            name: String::new(),
            ability: String::new(),
            fame: String::new(),
            confirmed: false,
            error_message: None,
        }
    }

    /// Opens the dialog on `staff`: the fields take the staff member's
    /// name, ability and fame. An ability text that cannot be read shows as
    /// zero.
    pub fn open(&mut self, staff: Staff) -> (r: Result<(), AppError>)
        ensures
            r is Ok,
            final(self).open,
            final(self).staff == Some(staff),
            final(self).name@ == staff.name@,
            final(self).ability@ == match json_parse(staff.ability_json@) {
                Some(members) => decimal(spec_ability(members) as int),
                None => "0"@,
            },
            final(self).fame@ == decimal(staff.fame as int),
            !final(self).confirmed,
            final(self).error_message is None,
    {
        self.name = staff.name.clone();
        match staff.get_ability() {
            Ok(ability) => {
                self.ability = format_i64(ability);
            },
            Err(_) => {
                self.ability = "0".to_owned();
            },
        }
        self.fame = format_i64(staff.fame);
        self.staff = Some(staff);
        self.confirmed = false;
        self.error_message = None;
        self.open = true;
        Ok(())
    }

    /// What is wrong with the ability and fame fields, if anything: the
    /// ability is looked at first.
    pub open spec fn spec_numeric_fault(&self) -> Option<Seq<char>> {
        match spec_check_amount(self.ability@, "能力值必须为正数"@, "能力值必须为有效的整数"@) {
            Some(message) => Some(message),
            None => spec_check_amount(self.fame@, "知名度必须为正数"@, "知名度必须为有效的整数"@),
        }
    }

    /// Checks that ability and fame are numbers that are not negative.
    pub fn validate_numeric_inputs(&self) -> (r: Result<(), AppError>)
        ensures
            match self.spec_numeric_fault() {
                None => r is Ok,
                Some(message) => r matches Err(AppError::InvalidInput(m)) && m@ == message,
            },
    {
        match check_amount(self.ability.as_str(), "能力值必须为正数", "能力值必须为有效的整数") {
            Ok(()) => check_amount(self.fame.as_str(), "知名度必须为正数", "知名度必须为有效的整数"),
            Err(e) => Err(e),
        }
    }

    /// The staff member with the name, ability and fame of the fields.
    pub fn get_updated_staff(&self) -> (r: Result<Staff, AppError>)
        ensures
            match (
                self.staff,
                spec_parse_i64(trimmed(self.ability@)),
                spec_parse_i64(trimmed(self.fame@)),
            ) {
                (None, _, _) => r matches Err(AppError::Unknown(m)) && m@ == "没有员工数据"@,
                (Some(_), None, _) => r matches Err(AppError::InvalidInput(m)) && m@
                    == "无效的能力值"@,
                (Some(_), Some(_), None) => r matches Err(AppError::InvalidInput(m)) && m@
                    == "无效的知名度"@,
                (Some(staff), Some(ability), Some(fame)) => r matches Ok(updated) && updated.id
                    == staff.id && updated.team_id == staff.team_id && updated.name@
                    == self.name@ && updated.fame == fame && updated.ability_json@
                    == spec_ability_json(ability as int),
            },
    {
        let staff = match &self.staff {
            Some(staff) => staff,
            None => {
                return Err(AppError::Unknown("没有员工数据".to_owned()));
            },
        };
        let ability = match parse_i64(trim(self.ability.as_str())) {
            Some(n) => n,
            None => {
                return Err(AppError::InvalidInput("无效的能力值".to_owned()));
            },
        };
        let fame = match parse_i64(trim(self.fame.as_str())) {
            Some(n) => n,
            None => {
                return Err(AppError::InvalidInput("无效的知名度".to_owned()));
            },
        };
        let mut updated = staff.clone();
        updated.name = self.name.clone();
        let _ = updated.update_ability(ability);
        updated.fame = fame;
        Ok(updated)
    }

    /// What pressing the save button does: the fields are checked, the name
    /// first; a fault becomes the dialog's error message, and without one
    /// the edit is confirmed.
    pub fn submit(&mut self) -> (accepted: bool)
        ensures
            accepted <==> trimmed(old(self).name@).len() > 0 && old(self).spec_numeric_fault()
                is None,
            accepted ==> final(self).error_message == old(self).error_message,
            !accepted ==> (final(self).error_message matches Some(m) && m@ == (if trimmed(
                old(self).name@,
            ).len() == 0 {
                "姓名不能为空"@
            } else {
                "无效输入: "@ + old(self).spec_numeric_fault()->0
            })),
            final(self).open == old(self).open,
            final(self).staff == old(self).staff,
            final(self).name == old(self).name,
            final(self).ability == old(self).ability,
            final(self).fame == old(self).fame,
            final(self).confirmed == old(self).confirmed,
    {
        if trim(self.name.as_str()).unicode_len() == 0 {
            self.error_message = Some("姓名不能为空".to_owned());
            return false;
        }
        match self.validate_numeric_inputs() {
            Ok(()) => true,
            Err(e) => {
                self.error_message = Some(e.message());
                false
            },
        }
    }

    /// Ends a frame of the dialog: it closes when it was closed without
    /// being confirmed, and it keeps whether it was confirmed.
    pub fn finish(&mut self, closed: bool, confirmed: bool) -> (r: bool)
        ensures
            r == confirmed,
            final(self).confirmed == confirmed,
            final(self).open == (old(self).open && !(closed && !confirmed)),
            final(self).staff == old(self).staff,
            final(self).name == old(self).name,
            final(self).ability == old(self).ability,
            final(self).fame == old(self).fame,
            final(self).error_message == old(self).error_message,
    {
        if closed && !confirmed {
            self.open = false;
        }
        self.confirmed = confirmed;
        confirmed
    }
}

/// The dialog that shows a message.
#[derive(Debug)]
pub struct MessageDialog {
    pub title: String,
    pub message: String,
    pub open: bool,
}

impl MessageDialog {
    /// A closed dialog without a message.
    pub fn new() -> (dialog: Self)
        ensures
            dialog.title@.len() == 0,
            dialog.message@.len() == 0,
            !dialog.open,
    {
        MessageDialog { title: String::new(), message: String::new(), open: false }
    }

    /// Opens the dialog with a title and a message.
    pub fn show_message(&mut self, title: &str, message: &str)
        ensures
            final(self).title@ == title@,
            final(self).message@ == message@,
            final(self).open,
    {
        self.title = title.to_owned();
        self.message = message.to_owned();
        self.open = true;
    }

    /// Closes the dialog.
    pub fn dismiss(&mut self)
        ensures
            !final(self).open,
            final(self).title == old(self).title,
            final(self).message == old(self).message,
    {
        self.open = false;
    }
}

/// The dialog that asks for a confirmation.
#[derive(Debug)]
pub struct ConfirmDialog {
    pub title: String,
    pub message: String,
    pub open: bool,
    pub confirmed: bool,
}

impl ConfirmDialog {
    /// A closed dialog without a question.
    pub fn new() -> (dialog: Self)
        ensures
            dialog.title@.len() == 0,
            dialog.message@.len() == 0,
            !dialog.open,
            !dialog.confirmed,
    {
        ConfirmDialog {
            title: String::new(),
            message: String::new(),
            open: false,
            confirmed: false,
        }
    }

    /// Opens the dialog with a title and a question, not yet confirmed.
    pub fn show_confirm(&mut self, title: &str, message: &str)
        ensures
            final(self).title@ == title@,
            final(self).message@ == message@,
            final(self).open,
            !final(self).confirmed,
    {
        self.title = title.to_owned();
        self.message = message.to_owned();
        self.open = true;
        self.confirmed = false;
    }

    /// Ends a frame of the dialog: when it was closed, it closes and keeps
    /// whether it was confirmed.
    pub fn finish(&mut self, closed: bool, confirmed: bool) -> (r: bool)
        ensures
            r == confirmed,
            final(self).open == (old(self).open && !closed),
            final(self).confirmed == (if closed {
                confirmed
            } else {
                old(self).confirmed
            }),
            final(self).title == old(self).title,
            final(self).message == old(self).message,
    {
        if closed {
            self.open = false;
            self.confirmed = confirmed;
        }
        confirmed
    }
}

/// How a number given in the bulk edit dialog changes a value.
#[derive(Debug, Clone, Copy, PartialEq, Eq)]
pub enum WealthModifierType {
    /// The number replaces the value.
    Absolute,
    /// The number is the percentage by which the value grows or shrinks.
    Percentage,
}

impl WealthModifierType {
    /// The name of the kind.
    pub fn as_str(&self) -> (name: &'static str)
        ensures
            name@ == match *self {
                WealthModifierType::Absolute => "绝对值"@,
                WealthModifierType::Percentage => "百分比"@,
            },
    {
        match self {
            WealthModifierType::Absolute => "绝对值",
            WealthModifierType::Percentage => "百分比",
        }
    }
}

/// The dialog that edits several teams at once.
#[derive(Debug)]
pub struct BulkEditDialog {
    pub open: bool,
    pub teams: Vec<Team>,
    /// For each team, whether it is selected.
    pub selected_teams: Vec<bool>,
    pub selected_count: usize,
    pub confirmed: bool,
    pub error_message: Option<String>,
    pub edit_location: bool,
    pub location: String,
    pub edit_league: bool,
    pub league_id: String,
    pub edit_wealth_modifier: bool,
    pub wealth_modifier: String,
    pub wealth_modifier_type: WealthModifierType,
    pub edit_supporter_modifier: bool,
    pub supporter_modifier: String,
    pub supporter_modifier_type: WealthModifierType,
}

/// `value` grown by `percent` percent: their product with a hundred more
/// than the percentage, divided by a hundred towards zero, and kept within
/// the range of `i64`.
pub open spec fn spec_scale_by_percent(value: int, percent: int) -> int {
    let product = value * (100 + percent);
    let quotient = if product >= 0 {
        product / 100
    } else {
        -((-product) / 100)
    };
    if quotient > i64::MAX {
        i64::MAX as int
    } else if quotient < i64::MIN {
        i64::MIN as int
    } else {
        quotient
    }
}

/// Grows `value` by `percent` percent.
pub fn scale_by_percent(value: i64, percent: i64) -> (r: i64)
    ensures
        r as int == spec_scale_by_percent(value as int, percent as int),
{
    let factor: i128 = 100 + percent as i128;
    assert(-0x8000_0000_0000_0000 * 0x8000_0000_0000_0064 <= value as int * factor as int
        <= 0x8000_0000_0000_0000 * 0x8000_0000_0000_0064) by (nonlinear_arith)
        requires
            -0x8000_0000_0000_0000 <= value as int <= 0x8000_0000_0000_0000,
            -0x8000_0000_0000_0064 <= factor as int <= 0x8000_0000_0000_0064,
    ;
    let product: i128 = value as i128 * factor;
    let quotient: i128 = if product >= 0 {
        product / 100
    } else {
        -((-product) / 100)
    };
    if quotient > i64::MAX as i128 {
        i64::MAX
    } else if quotient < i64::MIN as i128 {
        i64::MIN
    } else {
        quotient as i64
    }
}

/// What a modifier field makes of `value`: the value itself when the field
/// holds no number.
pub open spec fn spec_apply_modifier(value: i64, text: Seq<char>, kind: WealthModifierType) -> i64 {
    match spec_parse_i64(trimmed(text)) {
        Some(modifier) => match kind {
            WealthModifierType::Absolute => modifier,
            WealthModifierType::Percentage => spec_scale_by_percent(
                value as int,
                modifier as int,
            ) as i64,
        },
        None => value,
    }
}

/// Applies a modifier field to `value`.
pub fn apply_modifier(value: i64, text: &str, kind: WealthModifierType) -> (r: i64)
    ensures
        r == spec_apply_modifier(value, text@, kind),
{
    match parse_i64(trim(text)) {
        Some(modifier) => match kind {
            WealthModifierType::Absolute => modifier,
            WealthModifierType::Percentage => scale_by_percent(value, modifier),
        },
        None => value,
    }
}

/// What is wrong with a field that must hold a number, if anything.
pub open spec fn spec_check_number(text: Seq<char>, empty: Seq<char>, invalid: Seq<char>) -> Option<
    Seq<char>,
> {
    if trimmed(text).len() == 0 {
        Some(empty)
    } else if spec_parse_i64(trimmed(text)) is None {
        Some(invalid)
    } else {
        None
    }
}

/// Checks a field that must hold a number.
fn check_number(text: &str, empty: &str, invalid: &str) -> (fault: Option<String>)
    ensures
        match spec_check_number(text@, empty@, invalid@) {
            Some(message) => fault matches Some(m) && m@ == message,
            None => fault is None,
        },
{
    let inner = trim(text);
    if inner.unicode_len() == 0 {
        Some(empty.to_owned())
    } else {
        match parse_i64(inner) {
            Some(_) => None,
            None => Some(invalid.to_owned()),
        }
    }
}

impl BulkEditDialog {
    /// A closed dialog without teams, with nothing to edit.
    pub fn new() -> (dialog: Self)
        ensures
            !dialog.open,
            dialog.teams@.len() == 0,
            dialog.selected_teams@.len() == 0,
            dialog.selected_count == 0,
            !dialog.confirmed,
            dialog.error_message is None,
            dialog.fields_reset(),
    {
        BulkEditDialog {
            open: false,
            teams: Vec::new(),
            selected_teams: Vec::new(),
            selected_count: 0,
            confirmed: false,
            error_message: None,
            edit_location: false,
            location: String::new(),
            edit_league: false,
            league_id: String::new(),
            edit_wealth_modifier: false,
            wealth_modifier: String::new(),
            wealth_modifier_type: WealthModifierType::Absolute,
            edit_supporter_modifier: false,
            supporter_modifier: String::new(),
            supporter_modifier_type: WealthModifierType::Absolute,
        }
    }

    /// No edit is switched on and the edit fields are empty.
    pub open spec fn fields_reset(&self) -> bool {
        &&& !self.edit_location
        &&& self.location@.len() == 0
        &&& !self.edit_league
        &&& self.league_id@.len() == 0
        &&& !self.edit_wealth_modifier
        &&& self.wealth_modifier@.len() == 0
        &&& self.wealth_modifier_type == WealthModifierType::Absolute
        &&& !self.edit_supporter_modifier
        &&& self.supporter_modifier@.len() == 0
        &&& self.supporter_modifier_type == WealthModifierType::Absolute
    }

    /// The teams, the selection and the edit fields of `self` are those of
    /// `other`.
    pub open spec fn same_inputs(&self, other: &Self) -> bool {
        &&& self.teams == other.teams
        &&& self.selected_teams == other.selected_teams
        &&& self.selected_count == other.selected_count
        &&& self.edit_location == other.edit_location
        &&& self.location == other.location
        &&& self.edit_league == other.edit_league
        &&& self.league_id == other.league_id
        &&& self.edit_wealth_modifier == other.edit_wealth_modifier
        &&& self.wealth_modifier == other.wealth_modifier
        &&& self.wealth_modifier_type == other.wealth_modifier_type
        &&& self.edit_supporter_modifier == other.edit_supporter_modifier
        &&& self.supporter_modifier == other.supporter_modifier
        &&& self.supporter_modifier_type == other.supporter_modifier_type
    }

    /// Opens the dialog on `teams`, none of them selected, with nothing to
    /// edit.
    pub fn open(&mut self, teams: Vec<Team>)
        ensures
            final(self).open,
            final(self).teams == teams,
            final(self).selected_teams@ == Seq::new(teams@.len(), |i: int| false),
            final(self).selected_count == 0,
            !final(self).confirmed,
            final(self).error_message is None,
            final(self).fields_reset(),
    {
        let mut selected: Vec<bool> = Vec::new();
        let mut i: usize = 0;
        while i < teams.len()
            invariant
                i <= teams@.len(),
                selected@ == Seq::new(i as nat, |i: int| false),
            decreases teams.len() - i,
        {
            selected.push(false);
            assert(selected@ =~= Seq::new((i + 1) as nat, |i: int| false));
            i = i + 1;
        }
        self.teams = teams;
        self.selected_teams = selected;
        self.selected_count = 0;
        self.confirmed = false;
        self.error_message = None;
        self.edit_location = false;
        self.location = String::new();
        self.edit_league = false;
        self.league_id = String::new();
        self.edit_wealth_modifier = false;
        self.wealth_modifier = String::new();
        self.wealth_modifier_type = WealthModifierType::Absolute;
        self.edit_supporter_modifier = false;
        self.supporter_modifier = String::new();
        self.supporter_modifier_type = WealthModifierType::Absolute;
        self.open = true;
    }

    /// Selects every team, or none.
    pub fn select_all(&mut self, selected: bool)
        ensures
            final(self).selected_teams@ == Seq::new(
                old(self).selected_teams@.len(),
                |i: int| selected,
            ),
            final(self).selected_count == (if selected {
                old(self).teams@.len()
            } else {
                0
            }),
            *final(self) == (BulkEditDialog {
                selected_teams: final(self).selected_teams,
                selected_count: final(self).selected_count,
                ..*old(self)
            }),
    {
        let n = self.selected_teams.len();
        let mut marks: Vec<bool> = Vec::new();
        let mut i: usize = 0;
        while i < n
            invariant
                i <= n,
                marks@ == Seq::new(i as nat, |i: int| selected),
            decreases n - i,
        {
            marks.push(selected);
            assert(marks@ =~= Seq::new((i + 1) as nat, |i: int| selected));
            i = i + 1;
        }
        self.selected_teams = marks;
        self.selected_count = if selected {
            self.teams.len()
        } else {
            0
        };
    }

    /// Counts the selected teams anew, as after a change of one mark.
    pub fn recount(&mut self)
        ensures
            final(self).selected_count == old(self).selected_teams@.filter(|b: bool| b).len(),
            final(self).same_marks(old(self)),
    {
        let mut count: usize = 0;
        let mut i: usize = 0;
        proof {
            reveal(Seq::filter);
            assert(self.selected_teams@.take(0) =~= Seq::<bool>::empty());
        }
        while i < self.selected_teams.len()
            invariant
                i <= self.selected_teams@.len(),
                count == self.selected_teams@.take(i as int).filter(|b: bool| b).len(),
                count <= i,
            decreases self.selected_teams.len() - i,
        {
            proof {
                assert(self.selected_teams@.take(i as int + 1) =~= self.selected_teams@.take(
                    i as int,
                ).push(self.selected_teams@[i as int]));
                self.selected_teams@.take(i as int).lemma_filter_push(
                    self.selected_teams@[i as int],
                    |b: bool| b,
                );
            }
            if self.selected_teams[i] {
                count = count + 1;
            }
            i = i + 1;
        }
        proof {
            assert(self.selected_teams@.take(i as int) =~= self.selected_teams@);
        }
        self.selected_count = count;
    }

    /// Everything but the count of selected teams is as in `other`.
    pub open spec fn same_marks(&self, other: &Self) -> bool {
        &&& self.open == other.open
        &&& self.confirmed == other.confirmed
        &&& self.error_message == other.error_message
        &&& self.teams == other.teams
        &&& self.selected_teams == other.selected_teams
        &&& self.edit_location == other.edit_location
        &&& self.location == other.location
        &&& self.edit_league == other.edit_league
        &&& self.league_id == other.league_id
        &&& self.edit_wealth_modifier == other.edit_wealth_modifier
        &&& self.wealth_modifier == other.wealth_modifier
        &&& self.wealth_modifier_type == other.wealth_modifier_type
        &&& self.edit_supporter_modifier == other.edit_supporter_modifier
        &&& self.supporter_modifier == other.supporter_modifier
        &&& self.supporter_modifier_type == other.supporter_modifier_type
    }

    /// What is wrong with the edit fields that are switched on, if
    /// anything: the league is looked at first, then the wealth, then the
    /// supporters.
    pub open spec fn spec_fault(&self) -> Option<Seq<char>> {
        let league = if self.edit_league {
            spec_check_number(self.league_id@, "联赛ID不能为空"@, "联赛ID必须是有效的整数"@)
        } else {
            None
        };
        let wealth = if self.edit_wealth_modifier {
            spec_check_number(self.wealth_modifier@, "财富修改值不能为空"@, "财富修改值必须是有效的整数"@)
        } else {
            None
        };
        let supporters = if self.edit_supporter_modifier {
            spec_check_number(
                self.supporter_modifier@,
                "球迷数量修改值不能为空"@,
                "球迷数量修改值必须是有效的整数"@,
            )
        } else {
            None
        };
        if league is Some {
            league
        } else if wealth is Some {
            wealth
        } else {
            supporters
        }
    }

    /// Checks the edit fields that are switched on. A fault becomes the
    /// dialog's error message.
    pub fn validate_inputs(&mut self) -> (valid: bool)
        ensures
            valid <==> old(self).spec_fault() is None,
            valid ==> final(self).error_message == old(self).error_message,
            !valid ==> (final(self).error_message matches Some(m) && m@ == old(
                self,
            ).spec_fault()->0),
            final(self).same_inputs(old(self)),
            final(self).open == old(self).open,
            final(self).confirmed == old(self).confirmed,
    {
        if self.edit_league {
            let fault = check_number(self.league_id.as_str(), "联赛ID不能为空", "联赛ID必须是有效的整数");
            if fault.is_some() {
                self.error_message = fault;
                return false;
            }
        }
        if self.edit_wealth_modifier {
            let fault = check_number(
                self.wealth_modifier.as_str(),
                "财富修改值不能为空",
                "财富修改值必须是有效的整数",
            );
            if fault.is_some() {
                self.error_message = fault;
                return false;
            }
        }
        if self.edit_supporter_modifier {
            let fault = check_number(
                self.supporter_modifier.as_str(),
                "球迷数量修改值不能为空",
                "球迷数量修改值必须是有效的整数",
            );
            if fault.is_some() {
                self.error_message = fault;
                return false;
            }
        }
        true
    }

    /// What pressing the apply button does: without a selected team, or
    /// without an edit switched on, or with a fault in a field, the dialog
    /// takes the matching error message; else the edit is confirmed.
    pub fn submit(&mut self) -> (accepted: bool)
        ensures
            accepted <==> old(self).selected_count != 0 && old(self).any_edit() && old(
                self,
            ).spec_fault() is None,
            accepted ==> final(self).error_message == old(self).error_message,
            !accepted ==> (final(self).error_message matches Some(m) && m@ == (if old(
                self,
            ).selected_count == 0 {
                "请至少选择一个球队"@
            } else if !old(self).any_edit() {
                "请至少选择一项要修改的属性"@
            } else {
                old(self).spec_fault()->0
            })),
            final(self).same_inputs(old(self)),
            final(self).open == old(self).open,
            final(self).confirmed == old(self).confirmed,
    {
        if self.selected_count == 0 {
            self.error_message = Some("请至少选择一个球队".to_owned());
            false
        } else if !self.edit_location && !self.edit_league && !self.edit_wealth_modifier
            && !self.edit_supporter_modifier {
            self.error_message = Some("请至少选择一项要修改的属性".to_owned());
            false
        } else {
            self.validate_inputs()
        }
    }

    /// Some edit is switched on.
    pub open spec fn any_edit(&self) -> bool {
        self.edit_location || self.edit_league || self.edit_wealth_modifier
            || self.edit_supporter_modifier
    }

    /// Ends a frame of the dialog: it closes when it was closed without
    /// being confirmed, and it keeps whether it was confirmed.
    pub fn finish(&mut self, closed: bool, confirmed: bool) -> (r: bool)
        ensures
            r == confirmed,
            final(self).confirmed == confirmed,
            final(self).open == (old(self).open && !(closed && !confirmed)),
            final(self).same_inputs(old(self)),
            final(self).error_message == old(self).error_message,
    {
        if closed && !confirmed {
            self.open = false;
        }
        self.confirmed = confirmed;
        confirmed
    }

    /// `team` with the edits that are switched on: the location replaced,
    /// the league replaced when the field holds a number, wealth and
    /// supporters changed by their modifiers.
    pub open spec fn spec_modify(&self, team: Team) -> Team {
        Team {
            id: team.id,
            name: team.name,
            wealth: if self.edit_wealth_modifier {
                spec_apply_modifier(team.wealth, self.wealth_modifier@, self.wealth_modifier_type)
            } else {
                team.wealth
            },
            found_year: team.found_year,
            location: if self.edit_location {
                self.location
            } else {
                team.location
            },
            supporter_count: if self.edit_supporter_modifier {
                spec_apply_modifier(
                    team.supporter_count,
                    self.supporter_modifier@,
                    self.supporter_modifier_type,
                )
            } else {
                team.supporter_count
            },
            stadium_name: team.stadium_name,
            nickname: team.nickname,
            league_id: if self.edit_league {
                match spec_parse_i64(trimmed(self.league_id@)) {
                    Some(id) => id,
                    None => team.league_id,
                }
            } else {
                team.league_id
            },
        }
    }

    /// The edited teams among the first `n` marks: for each mark that is
    /// set and has a team, that team with the edits, in order.
    pub open spec fn spec_modified_teams(&self, n: int) -> Seq<Team>
        decreases n,
    {
        if n <= 0 {
            Seq::empty()
        } else {
            let before = self.spec_modified_teams(n - 1);
            if n - 1 < self.selected_teams@.len() && self.selected_teams@[n - 1] && n - 1
                < self.teams@.len() {
                before.push(self.spec_modify(self.teams@[n - 1]))
            } else {
                before
            }
        }
    }

    /// The selected teams with the edits that are switched on, in order.
    pub fn get_modified_teams(&self) -> (modified: Vec<Team>)
        ensures
            modified@ == self.spec_modified_teams(self.selected_teams@.len() as int),
    {
        let mut modified: Vec<Team> = Vec::new();
        let mut i: usize = 0;
        while i < self.selected_teams.len()
            invariant
                i <= self.selected_teams@.len(),
                modified@ == self.spec_modified_teams(i as int),
            decreases self.selected_teams.len() - i,
        {
            if self.selected_teams[i] && i < self.teams.len() {
                let team = &self.teams[i];
                let mut edited = team.clone();
                if self.edit_location {
                    edited.location = self.location.clone();
                }
                if self.edit_league {
                    match parse_i64(trim(self.league_id.as_str())) {
                        Some(id) => {
                            edited.league_id = id;
                        },
                        None => {},
                    }
                }
                if self.edit_wealth_modifier {
                    edited.wealth = apply_modifier(
                        team.wealth,
                        self.wealth_modifier.as_str(),
                        self.wealth_modifier_type,
                    );
                }
                if self.edit_supporter_modifier {
                    edited.supporter_count = apply_modifier(
                        team.supporter_count,
                        self.supporter_modifier.as_str(),
                        self.supporter_modifier_type,
                    );
                }
                assert(edited == self.spec_modify(*team));
                modified.push(edited);
            }
            i = i + 1;
        }
        modified
    }
}

} // verus!
