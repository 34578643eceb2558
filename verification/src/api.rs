//! The decisions of the HTTP API: how errors are answered, which debug chat
//! requests are accepted, and what status the agent list shows.
use vstd::prelude::*;

use crate::agents::{normalized_role_text, role_for_name, role_name, AgentRole};
use crate::storage::AgentStatusView;
use crate::text::{concat2, owned, str_eq, trim};

verus! {

broadcast use vstd::string::group_string_axioms;

/// An error answered by the API: a status with a message, or an internal
/// failure answered with status 500.
#[derive(Debug, Clone)]
pub enum AppError {
    Status { status: u16, message: String },
    Internal { message: String },
}

impl AppError {
    /// A refused request (400).
    pub fn bad_request(message: String) -> (e: AppError)
        ensures
            e matches AppError::Status { status, message: m } && status == 400 && m == message,
    {
        AppError::Status { status: 400, message }
    }

    /// A missing resource (404).
    pub fn not_found(message: String) -> (e: AppError)
        ensures
            e matches AppError::Status { status, message: m } && status == 404 && m == message,
    {
        AppError::Status { status: 404, message }
    }

    /// The HTTP status the error is answered with.
    pub fn status_code(&self) -> (s: u16)
        ensures
            match *self {
                AppError::Status { status, .. } => s == status,
                AppError::Internal { .. } => s == 500,
            },
    {
        match self {
            AppError::Status { status, .. } => *status,
            AppError::Internal { .. } => 500,
        }
    }

    /// The message put in the answer's `error` field.
    pub fn message(&self) -> (m: &str)
        ensures
            match *self {
                AppError::Status { message, .. } => m@ == message@,
                AppError::Internal { message } => m@ == message@,
            },
    {
        match self {
            AppError::Status { message, .. } => message.as_str(),
            AppError::Internal { message } => message.as_str(),
        }
    }
}

/// The message for a schedule that does not exist.
pub fn schedule_not_found(schedule_id: &str) -> (e: AppError)
    ensures
        e matches AppError::Status { status, message } && status == 404 && message@ == "schedule "@
            + schedule_id@ + " not found"@,
{
    let mut m = concat2("schedule ", schedule_id);
    crate::text::append_str(&mut m, " not found");
    AppError::not_found(m)
}

/// The message for an instrument that does not exist.
pub fn instrument_not_found(symbol: &str) -> (e: AppError)
    ensures
        e matches AppError::Status { status, message } && status == 404 && message@ == "instrument "@
            + symbol@ + " not found"@,
{
    let mut m = concat2("instrument ", symbol);
    crate::text::append_str(&mut m, " not found");
    AppError::not_found(m)
}

/// Which debug chat requests are accepted: a message must be given, the role
/// must parse, and only roles shown to users (Kuromi) can be chatted with.
pub open spec fn debug_chat_outcome(role: Seq<char>, message: Seq<char>) -> Result<AgentRole, Seq<char>> {
    if trim(message).len() == 0 {
        Err("message là bắt buộc"@)
    } else {
        match role_for_name(normalized_role_text(role)) {
            None => Err("vai trò agent không hợp lệ: "@ + normalized_role_text(role)),
            Some(AgentRole::Kuromi) => Ok(AgentRole::Kuromi),
            Some(AgentRole::User) => Err("agent này không hỗ trợ debug chat"@),
        }
    }
}

/// Checks a debug chat request for the agent named `role`.
pub fn check_debug_chat(role: &str, message: &str) -> (r: Result<AgentRole, AppError>)
    ensures
        match debug_chat_outcome(role@, message@) {
            Ok(a) => r == Ok::<AgentRole, AppError>(a),
            Err(m) => r matches Err(AppError::Status { status, message }) && status == 400 && message@ == m,
        },
{
    let t = crate::text::trim_str(message);
    if crate::text::char_count(t.as_str()) == 0 {
        return Err(AppError::bad_request(owned("message là bắt buộc")));
    }
    let agent = match AgentRole::parse(role) {
        Ok(a) => a,
        Err(e) => {
            return Err(AppError::bad_request(e));
        },
    };
    let visible = AgentRole::visible_agents();
    let mut i: usize = 0;
    let mut shown = false;
    while i < visible.len()
        invariant
            visible@ == seq![AgentRole::Kuromi],
            i <= visible@.len(),
            shown == (exists|j: int| 0 <= j < i && visible@[j] == agent),
        decreases visible@.len() - i,
    {
        if visible[i] == agent {
            shown = true;
        }
        i = i + 1;
    }
    if !shown {
        return Err(AppError::bad_request(owned("agent này không hỗ trợ debug chat")));
    }
    proof {
        assert(visible@[0] == AgentRole::Kuromi);
    }
    Ok(agent)
}

/// The status the agent list shows for a role: that of the first status
/// entry naming the role, or `idle`.
pub open spec fn listed_status(statuses: Seq<AgentStatusView>, role: AgentRole) -> Seq<char>
    decreases statuses.len(),
{
    if statuses.len() == 0 {
        "idle"@
    } else if statuses[0].role@ == role_name(role) {
        statuses[0].status@
    } else {
        listed_status(statuses.drop_first(), role)
    }
}

/// The status the agent list shows for a role.
pub fn status_for_role(statuses: &[AgentStatusView], role: AgentRole) -> (r: String)
    ensures
        r@ == listed_status(statuses@, role),
{
    let mut i: usize = 0;
    proof {
        assert(statuses@.skip(0) =~= statuses@);
    }
    while i < statuses.len()
        invariant
            i <= statuses@.len(),
            listed_status(statuses@, role) == listed_status(statuses@.skip(i as int), role),
        decreases statuses@.len() - i,
    {
        proof {
            assert(statuses@.skip(i as int)[0] == statuses@[i as int]);
            assert(statuses@.skip(i as int).drop_first() =~= statuses@.skip(i + 1));
        }
        if str_eq(statuses[i].role.as_str(), role.as_str()) {
            return owned(statuses[i].status.as_str());
        }
        i = i + 1;
    }
    proof {
        assert(statuses@.skip(i as int) =~= Seq::<AgentStatusView>::empty());
    }
    owned("idle")
}

} // verus!
