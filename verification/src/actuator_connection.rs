//! The binding of a logical source topic to a channel of an actuator, as
//! the cache holds it.

use crate::json::{Json, JsonView};
use vstd::prelude::*;

verus! {

/// A binding topic: its value, and its identifier, which is that of the
/// source topic.
#[derive(Debug, PartialEq, Eq)]
pub struct Topic<'a> {
    pub value: ConnectionValue<'a>,
    pub topic_uuid: &'a str,
}

/// The value of a binding topic.
#[derive(Debug, PartialEq, Eq)]
pub struct ConnectionValue<'a> {
    pub target_topic_name: &'a str,
    pub target_topic_uuid: &'a str,
    pub target_channel_number: u64,
    pub source_topic_name: &'a str,
}

/// The model of a binding.
pub struct TopicView {
    pub target_topic_name: Seq<char>,
    pub target_topic_uuid: Seq<char>,
    pub target_channel_number: u64,
    pub source_topic_name: Seq<char>,
    pub topic_uuid: Seq<char>,
}

impl<'a> View for Topic<'a> {
    type V = TopicView;

    open spec fn view(&self) -> TopicView {
        TopicView {
            target_topic_name: self.value.target_topic_name@,
            target_topic_uuid: self.value.target_topic_uuid@,
            target_channel_number: self.value.target_channel_number,
            source_topic_name: self.value.source_topic_name@,
            topic_uuid: self.topic_uuid@,
        }
    }
}

/// A topic that is no binding: a field is missing or of another type.
#[derive(Clone, Copy, Debug, PartialEq, Eq, Structural)]
pub struct NoBinding;

/// The binding that a topic holds: three texts and a whole number in its
/// value, and a text as its identifier.
pub open spec fn binding_of(topic: JsonView) -> Option<TopicView> {
    let v = topic.at("value"@);
    match (
        v.at("target_topic_name"@).as_text(),
        v.at("target_topic_uuid"@).as_text(),
        v.at("target_channel_number"@).as_u64(),
        v.at("source_topic_name"@).as_text(),
        topic.at("topic_uuid"@).as_text(),
    ) {
        (Some(name), Some(uuid), Some(channel), Some(source), Some(id)) => Some(
            (TopicView {
                target_topic_name: name,
                target_topic_uuid: uuid,
                target_channel_number: channel,
                source_topic_name: source,
                topic_uuid: id,
            }),
        ),
        _ => None,
    }
}

fn text_at<'a>(j: &'a Json, key: &str) -> (r: Option<&'a str>)
    ensures
        match r {
            Some(s) => j@.at(key@).as_text() == Some(s@),
            None => j@.at(key@).as_text() is None,
        },
{
    match j.get(key) {
        Some(v) => v.as_str(),
        None => None,
    }
}

impl<'a> Topic<'a> {
    /// Reads a binding from its topic.
    pub fn deserialize(topic: &'a Json) -> (r: Result<Topic<'a>, NoBinding>)
        ensures
            match r {
                Ok(t) => binding_of(topic@) == Some(t@),
                Err(_) => binding_of(topic@) is None,
            },
    {
        let v = match topic.get("value") {
            Some(v) => v,
            None => {
                return Err(NoBinding);
            },
        };
        let channel = match v.get("target_channel_number") {
            Some(c) => c.as_u64(),
            None => None,
        };
        match (
            text_at(v, "target_topic_name"),
            text_at(v, "target_topic_uuid"),
            channel,
            text_at(v, "source_topic_name"),
            text_at(topic, "topic_uuid"),
        ) {
            (
                Some(target_topic_name),
                Some(target_topic_uuid),
                Some(target_channel_number),
                Some(source_topic_name),
                Some(topic_uuid),
            ) => Ok(
                Topic {
                    value: ConnectionValue {
                        target_topic_name,
                        target_topic_uuid,
                        target_channel_number,
                        source_topic_name,
                    },
                    topic_uuid,
                },
            ),
            _ => Err(NoBinding),
        }
    }
}

} // verus!
