//! The state of the staff list of the selected team.

use vstd::prelude::*;
use crate::data::staff::Staff;

verus! {

/// All staff, the staff of the team on show, and the selected row.
#[derive(Debug)]
pub struct StaffListView {
    pub all_staff: Vec<Staff>,
    pub team_staff: Vec<Staff>,
    pub selected_index: Option<usize>,
}

/// The staff of `all_staff` that belongs to the team `team_id`, in order.
pub open spec fn staff_of_team(all_staff: Seq<Staff>, team_id: i64) -> Seq<Staff> {
    all_staff.filter(|s: Staff| s.team_id == team_id)
}

impl StaffListView {
    /// A list without staff and without a selection.
    pub fn new() -> (view: Self)
        ensures
            view.all_staff@.len() == 0,
            view.team_staff@.len() == 0,
            view.selected_index is None,
    {
        StaffListView { all_staff: Vec::new(), team_staff: Vec::new(), selected_index: None }
    }

    /// Takes `staff` as the staff of all teams.
    pub fn set_all_staff(&mut self, staff: Vec<Staff>)
        ensures
            *final(self) == (StaffListView { all_staff: staff, ..*old(self) }),
    {
        self.all_staff = staff;
    }

    /// Shows the staff of the team `team_id` and drops the selection.
    pub fn update_team_staff(&mut self, team_id: i64)
        ensures
            final(self).team_staff@ == staff_of_team(old(self).all_staff@, team_id),
            final(self).all_staff == old(self).all_staff,
            final(self).selected_index is None,
    {
        let mut team_staff: Vec<Staff> = Vec::new();
        let mut i: usize = 0;
        proof {
            reveal(Seq::filter);
            assert(self.all_staff@.take(0) =~= Seq::<Staff>::empty());
        }
        while i < self.all_staff.len()
            invariant
                i <= self.all_staff@.len(),
                team_staff@ == staff_of_team(self.all_staff@.take(i as int), team_id),
            decreases self.all_staff.len() - i,
        {
            proof {
                assert(self.all_staff@.take(i as int + 1) =~= self.all_staff@.take(i as int).push(
                    self.all_staff@[i as int],
                ));
                self.all_staff@.take(i as int).lemma_filter_push(
                    self.all_staff@[i as int],
                    |s: Staff| s.team_id == team_id,
                );
            }
            if self.all_staff[i].team_id == team_id {
                team_staff.push(self.all_staff[i].clone());
            }
            i = i + 1;
        }
        proof {
            assert(self.all_staff@.take(i as int) =~= self.all_staff@);
        }
        self.team_staff = team_staff;
        self.selected_index = None;
    }

    /// The selected staff member, if a row of the list is selected.
    pub fn get_selected_staff(&self) -> (staff: Option<&Staff>)
        ensures
            match self.selected_index {
                Some(i) => if i < self.team_staff@.len() {
                    staff == Some(&self.team_staff@[i as int])
                } else {
                    staff is None
                },
                None => staff is None,
            },
    {
        match self.selected_index {
            Some(i) => if i < self.team_staff.len() {
                Some(&self.team_staff[i])
            } else {
                None
            },
            None => None,
        }
    }

    /// Selects row `index`.
    pub fn select(&mut self, index: usize)
        ensures
            *final(self) == (StaffListView { selected_index: Some(index), ..*old(self) }),
    {
        self.selected_index = Some(index);
    }
}

} // verus!
