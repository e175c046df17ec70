//! Core data records: goal levels, goals and reflections.
use vstd::prelude::*;
use crate::text::str_eq;

verus! {

/// Granularity of a goal or reflection period.
#[derive(Debug, Clone, Copy, PartialEq, Eq, Structural)]
pub enum GoalLevel {
    Daily,
    Weekly,
    Monthly,
}

/// The canonical text of a level tag.
pub open spec fn level_text(l: GoalLevel) -> Seq<char> {
    match l {
        GoalLevel::Daily => "daily"@,
        GoalLevel::Weekly => "weekly"@,
        GoalLevel::Monthly => "monthly"@,
    }
}

/// The level a text names, if any.
pub open spec fn level_of_text(s: Seq<char>) -> Option<GoalLevel> {
    if s == "daily"@ {
        Some(GoalLevel::Daily)
    } else if s == "weekly"@ {
        Some(GoalLevel::Weekly)
    } else if s == "monthly"@ {
        Some(GoalLevel::Monthly)
    } else {
        None
    }
}

impl GoalLevel {
    /// The canonical text of this level.
    pub fn as_str(&self) -> (r: &str)
        ensures
            r@ == level_text(*self),
    {
        match self {
            GoalLevel::Daily => "daily",
            GoalLevel::Weekly => "weekly",
            GoalLevel::Monthly => "monthly",
        }
    }

    /// Parses a level tag; `None` for any unrecognized text.
    pub fn from_str(s: &str) -> (r: Option<Self>)
        ensures
            r == level_of_text(s@),
    {
        if str_eq(s, "daily") {
            Some(GoalLevel::Daily)
        } else if str_eq(s, "weekly") {
            Some(GoalLevel::Weekly)
        } else if str_eq(s, "monthly") {
            Some(GoalLevel::Monthly)
        } else {
            None
        }
    }
}

/// Most goals a user may hold per level per period.
pub const MAX_GOALS_PER_LEVEL: usize = 3;

/// Whether one more goal may be added beside `existing` goals of the
/// same level and period: at most three are allowed.
pub fn goal_quota_allows(existing: usize) -> (r: bool)
    ensures
        r == (existing < MAX_GOALS_PER_LEVEL),
{
    existing < MAX_GOALS_PER_LEVEL
}

/// A goal set for one period of one level.
#[derive(Debug, Clone)]
pub struct Goal {
    pub id: String,
    pub title: String,
    pub level: GoalLevel,
    pub is_completed: bool,
    pub completed_at: Option<i64>,
    pub created_at: i64,
    pub period_start: i64,
    pub parent_goal_id: Option<String>,
    pub note: Option<String>,
}

/// Relies on uuid's `Uuid::new_v4` and its hyphenated `Display` form:
/// a fresh random identifier, rendered as 36 characters.
#[verifier::external_body]
fn fresh_uuid_string() -> (r: String)
    ensures
        r@.len() == 36,
{
    uuid::Uuid::new_v4().to_string()
}

impl Goal {
    /// A new, not yet completed goal with a fresh identifier, stamped
    /// with the current wall clock.
    pub fn new(title: String, level: GoalLevel, period_start: i64) -> (r: Goal)
        ensures
            r.title == title,
            r.level == level,
            r.period_start == period_start,
            !r.is_completed,
            r.completed_at is None,
            r.parent_goal_id is None,
            r.note is None,
            r.id@.len() == 36,
    {
        Goal {
            id: fresh_uuid_string(),
            title,
            level,
            is_completed: false,
            completed_at: None,
            created_at: crate::localtime::current_millis(),
            period_start,
            parent_goal_id: None,
            note: None,
        }
    }
}

/// A reflection written for one period of one level.
#[derive(Debug, Clone)]
pub struct Reflection {
    pub id: Option<i64>,
    pub level: GoalLevel,
    pub period_key: String,
    pub insight_1: Option<String>,
    pub insight_2: Option<String>,
    pub insight_3: Option<String>,
    pub created_at: i64,
}

impl Reflection {
    /// A new, unsaved reflection stamped with the current wall clock.
    pub fn new(
        level: GoalLevel,
        period_key: String,
        insight_1: Option<String>,
        insight_2: Option<String>,
        insight_3: Option<String>,
    ) -> (r: Reflection)
        ensures
            r.id is None,
            r.level == level,
            r.period_key == period_key,
            r.insight_1 == insight_1,
            r.insight_2 == insight_2,
            r.insight_3 == insight_3,
    {
        Reflection {
            id: None,
            level,
            period_key,
            insight_1,
            insight_2,
            insight_3,
            created_at: crate::localtime::current_millis(),
        }
    }
}

} // verus!
