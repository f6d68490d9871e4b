use crate::de::{
    array_at, required, spec_member, spec_object, take_text, take_timestamp_int, text_at,
    timestamp_int_at,
};
use crate::error::{DecodeError, Failure, Shape, agrees};
use crate::json::{Json, raw_of, raw_text, str_eq};
use crate::record::{Decode, decode_all, decodes_all, first_failure, lemma_first_failure};
use crate::scalar::Timestamp;
use vstd::prelude::*;

verus! {

/// Which stream a push belongs to.
#[derive(Clone, Debug, PartialEq, Eq)]
pub struct SubscriptionArgs {
    pub inst_type: String,
    pub channel: String,
    pub inst_id: String,
}

/// Whether a push carries a full snapshot or an update to one.
#[derive(Clone, Copy, Debug, PartialEq, Eq, Structural)]
pub enum PushAction {
    Snapshot,
    Update,
}

/// One push message: its action, its stream, its records and its time.
#[derive(Clone, Debug, PartialEq, Eq)]
pub struct DataPush<T> {
    pub action: PushAction,
    pub arg: SubscriptionArgs,
    pub data: Vec<T>,
    pub ts: Timestamp,
}

/// `"snapshot"` or `"update"`, in lower case only.
pub open spec fn spec_action(j: Json) -> Result<PushAction, Failure> {
    match j {
        Json::Str(s) => if s@ == "snapshot"@ {
            Ok(PushAction::Snapshot)
        } else if s@ == "update"@ {
            Ok(PushAction::Update)
        } else {
            Err(Failure::UnknownEnumValue("action"@, s@))
        },
        _ => Err(Failure::UnknownEnumValue("action"@, raw_of(j))),
    }
}

/// The arguments an object with string members `instType`, `channel` and
/// `instId` decodes to, or the first failure among them.
pub open spec fn spec_args(j: Json) -> Result<SubscriptionArgs, Failure> {
    match spec_object(j) {
        Err(f) => Err(f),
        Ok(fs) => {
            let t = text_at(fs, "instType"@);
            let c = text_at(fs, "channel"@);
            let i = text_at(fs, "instId"@);
            if t is Err {
                Err(t->Err_0)
            } else if c is Err {
                Err(c->Err_0)
            } else if i is Err {
                Err(i->Err_0)
            } else {
                Ok(SubscriptionArgs { inst_type: t->Ok_0, channel: c->Ok_0, inst_id: i->Ok_0 })
            }
        },
    }
}

pub open spec fn action_at(fields: Seq<(String, Json)>) -> Result<PushAction, Failure> {
    match spec_member(fields, "action"@) {
        Ok(j) => spec_action(j),
        Err(f) => Err(f),
    }
}

pub open spec fn args_at(fields: Seq<(String, Json)>) -> Result<SubscriptionArgs, Failure> {
    match spec_member(fields, "arg"@) {
        Ok(j) => spec_args(j),
        Err(f) => Err(f),
    }
}

/// The first failure among `action`, `arg`, `data` (any of its elements) and
/// `ts`, in that order.
pub open spec fn push_failure<T: Decode>(j: Json) -> Option<Failure> {
    match spec_object(j) {
        Err(f) => Some(f),
        Ok(fs) => if action_at(fs) is Err {
            Some(action_at(fs)->Err_0)
        } else if args_at(fs) is Err {
            Some(args_at(fs)->Err_0)
        } else if array_at(fs, "data"@) is Err {
            Some(array_at(fs, "data"@)->Err_0)
        } else if first_failure::<T>(array_at(fs, "data"@)->Ok_0) is Some {
            first_failure::<T>(array_at(fs, "data"@)->Ok_0)
        } else if timestamp_int_at(fs, "ts"@) is Err {
            Some(timestamp_int_at(fs, "ts"@)->Err_0)
        } else {
            None
        },
    }
}

/// The push holds the decoded action, arguments and time, and each element
/// of `data` decoded, in order.
pub open spec fn push_of<T: Decode>(j: Json, v: DataPush<T>) -> bool {
    match spec_object(j) {
        Err(_) => false,
        Ok(fs) => {
            &&& action_at(fs) == Ok::<PushAction, Failure>(v.action)
            &&& args_at(fs) == Ok::<SubscriptionArgs, Failure>(v.arg)
            &&& decodes_all(array_at(fs, "data"@)->Ok_0, v.data@)
            &&& timestamp_int_at(fs, "ts"@) == Ok::<Timestamp, Failure>(v.ts)
        },
    }
}

impl PushAction {
    /// Decodes `"snapshot"` or `"update"`; any other string is refused.
    pub fn decode(j: &Json) -> (r: Result<PushAction, DecodeError>)
        ensures
            agrees(r, spec_action(*j)),
    {
        match j {
            Json::Str(s) => if str_eq(s.as_str(), "snapshot") {
                Ok(PushAction::Snapshot)
            } else if str_eq(s.as_str(), "update") {
                Ok(PushAction::Update)
            } else {
                Err(DecodeError::UnknownEnumValue { field: "action".to_owned(), raw: s.clone() })
            },
            _ => Err(
                DecodeError::UnknownEnumValue { field: "action".to_owned(), raw: raw_text(j) },
            ),
        }
    }
}

impl SubscriptionArgs {
    /// Decodes the `arg` object of a push.
    pub fn decode(j: &Json) -> (r: Result<SubscriptionArgs, DecodeError>)
        ensures
            agrees(r, spec_args(*j)),
    {
        let fs = match j {
            Json::Object(fs) => fs,
            _ => return Err(DecodeError::WrongType { expected: Shape::Object }),
        };
        let inst_type = take_text(fs, "instType")?;
        let channel = take_text(fs, "channel")?;
        let inst_id = take_text(fs, "instId")?;
        Ok(SubscriptionArgs { inst_type, channel, inst_id })
    }
}

impl<T: Decode> DataPush<T> {
    /// Decodes a push message whose records are of type `T`. The records are
    /// all or nothing: one that fails makes the whole push fail.
    pub fn decode(j: &Json) -> (r: Result<DataPush<T>, DecodeError>)
        ensures
            match r {
                Ok(v) => push_failure::<T>(*j) is None && push_of(*j, v),
                Err(e) => push_failure::<T>(*j) == Some(e@),
            },
    {
        let fs = match j {
            Json::Object(fs) => fs,
            _ => return Err(DecodeError::WrongType { expected: Shape::Object }),
        };
        let action = PushAction::decode(required(fs, "action")?)?;
        let arg = SubscriptionArgs::decode(required(fs, "arg")?)?;
        let data = match required(fs, "data")? {
            Json::Array(items) => decode_all(items)?,
            _ => return Err(DecodeError::WrongType { expected: Shape::Array }),
        };
        let ts = take_timestamp_int(fs, "ts")?;
        Ok(DataPush { action, arg, data, ts })
    }
}

/// A push whose `data` holds an element that fails to decode fails as a
/// whole: no push with part of its records is ever produced.
pub proof fn lemma_push_all_or_nothing<T: Decode>(j: Json, k: int)
    requires
        spec_object(j) is Ok,
        array_at(spec_object(j)->Ok_0, "data"@) is Ok,
        0 <= k < array_at(spec_object(j)->Ok_0, "data"@)->Ok_0.len(),
        T::failure(array_at(spec_object(j)->Ok_0, "data"@)->Ok_0[k]) is Some,
    ensures
        push_failure::<T>(j) is Some,
{
    lemma_first_failure::<T>(array_at(spec_object(j)->Ok_0, "data"@)->Ok_0);
}

} // verus!
