//! The issue-graph model published to the cockpit.

use vstd::prelude::*;

use crate::history::HistorySummary;

verus! {

/// How a star is drawn on the map.
#[derive(Debug, Clone, Copy, PartialEq, Eq, Structural)]
pub enum Status {
    Blocked,
    Frontier,
    Claimed,
    Resolved,
    OutOfScope,
}

/// One issue as it appears on the star map.
#[derive(Debug, Clone, PartialEq)]
pub struct Star {
    pub number: u64,
    pub parent_issue: Option<u64>,
    pub title: String,
    pub status: Status,
    pub blocked_by: Vec<u64>,
    pub milestone: Option<String>,
    pub labels: Vec<String>,
    pub assignees: Vec<String>,
    pub url: String,
    pub body: String,
}

/// The lifecycle state of an issue as the provider reports it.
#[derive(Debug, Clone, Copy, PartialEq, Eq, Structural)]
pub enum IssueState {
    Open,
    Closed,
    ClosedNotPlanned,
}

/// An issue as fetched from the provider, before derivation.
#[derive(Debug, Clone, PartialEq)]
pub struct RawIssue {
    pub number: u64,
    pub parent_issue: Option<u64>,
    pub title: String,
    pub body: String,
    pub state: IssueState,
    pub assignees: Vec<String>,
    pub milestone: Option<String>,
    pub labels: Vec<String>,
    pub blocked_by: Vec<u64>,
    pub url: String,
}

/// One repository space as published.
#[derive(Debug, Clone, PartialEq)]
pub struct SpaceModel {
    pub id: String,
    pub repo: String,
    pub name: String,
    pub viewer_login: Option<String>,
    pub stars: Vec<Star>,
    pub synced_at: Option<i64>,
    pub stale: bool,
    pub error: Option<String>,
    pub history: HistorySummary,
}

/// Everything the cockpit shows.
#[derive(Debug, Clone, PartialEq)]
pub struct Model {
    pub spaces: Vec<SpaceModel>,
}

} // verus!
