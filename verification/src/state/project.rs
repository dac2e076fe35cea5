//! Crowdfunding projects.

use vstd::prelude::*;

verus! {

/// A crowdfunding project as the ledger records it.
#[derive(Debug, Clone)]
pub struct Project {
    pub project_id: String,
    pub name: String,
    pub description: String,
    pub goal_amount: u64,
    pub deadline_timestamp: u64,
    pub creator_wallet: String,
    pub raised_amount: u64,
    /// Addresses of the backers.
    pub backers: Vec<String>,
}

impl Project {
    /// A new project that has raised nothing and has no backers.
    pub fn new(
        project_id: String,
        name: String,
        description: String,
        goal_amount: u64,
        deadline_timestamp: u64,
        creator_wallet: String,
    ) -> (p: Project)
        ensures
            p.project_id == project_id,
            p.name == name,
            p.description == description,
            p.goal_amount == goal_amount,
            p.deadline_timestamp == deadline_timestamp,
            p.creator_wallet == creator_wallet,
            p.raised_amount == 0,
            p.backers@.len() == 0,
    {
        Project {
            project_id,
            name,
            description,
            goal_amount,
            deadline_timestamp,
            creator_wallet,
            raised_amount: 0,
            backers: Vec::new(),
        }
    }

    /// Whether the project still takes donations at `current_time`: only
    /// strictly before its deadline.
    pub fn can_accept_donations(&self, current_time: u64) -> (open: bool)
        ensures
            open == (current_time < self.deadline_timestamp),
    {
        current_time < self.deadline_timestamp
    }
}

} // verus!
