use vstd::prelude::*;

use crate::decode::{decode, decode_result, views, DecodeError, SubTask, SubTaskView};
use crate::json::{get, Json};
use crate::schema::{validate, validation_result, ValidationError};

verus! {

/// Why a model reply gives no subtasks.
#[derive(Debug, Clone, Copy, PartialEq, Eq, Structural)]
pub enum ReplyError {
    /// The reply has no `subtasks` member.
    MissingSubtasks,
    Invalid(ValidationError),
    Decode(DecodeError),
}

/// The text of the first choice of a chat completion:
/// `choices[0].message.content`, where that is a string.
pub open spec fn completion_text(v: Json) -> Option<Seq<char>> {
    match get(v, "choices"@) {
        Some(Json::Array(cs)) => if cs@.len() > 0 {
            match get(cs@[0], "message"@) {
                Some(m) => match get(m, "content"@) {
                    Some(Json::Str(s)) => Some(s@),
                    _ => None,
                },
                None => None,
            }
        } else {
            None
        },
        _ => None,
    }
}

/// What a reply gives: its `subtasks` member, validated, then decoded.
pub open spec fn reply_result(v: Json) -> Result<Seq<SubTaskView>, ReplyError> {
    match get(v, "subtasks"@) {
        None => Err(ReplyError::MissingSubtasks),
        Some(s) => match validation_result(s) {
            Err(e) => Err(ReplyError::Invalid(e)),
            Ok(_) => match decode_result(s) {
                Err(e) => Err(ReplyError::Decode(e)),
                Ok(ts) => Ok(ts),
            },
        },
    }
}

/// Takes the text of the first choice out of a chat completion.
pub fn completion_content(envelope: &Json) -> (r: Option<&String>)
    ensures
        match r {
            Some(t) => completion_text(*envelope) == Some(t@),
            None => completion_text(*envelope) is None,
        },
{
    match envelope.get_member("choices") {
        Some(Json::Array(cs)) => if cs.len() > 0 {
            match cs[0].get_member("message") {
                Some(m) => match m.get_member("content") {
                    Some(Json::Str(s)) => Some(s),
                    _ => None,
                },
                None => None,
            }
        } else {
            None
        },
        _ => None,
    }
}

/// Turns a model reply into subtask records.
pub fn subtasks_from_reply(reply: &Json) -> (r: Result<Vec<SubTask>, ReplyError>)
    ensures
        match r {
            Ok(ts) => reply_result(*reply) == Ok::<Seq<SubTaskView>, ReplyError>(views(ts@)),
            Err(e) => reply_result(*reply) == Err::<Seq<SubTaskView>, ReplyError>(e),
        },
{
    match reply.get_member("subtasks") {
        None => Err(ReplyError::MissingSubtasks),
        Some(s) => match validate(s) {
            Err(e) => Err(ReplyError::Invalid(e)),
            Ok(_) => match decode(s) {
                Err(e) => Err(ReplyError::Decode(e)),
                Ok(ts) => Ok(ts),
            },
        },
    }
}

} // verus!
