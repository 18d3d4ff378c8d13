//! The tool that tells the time.
use crate::clock::{self, local_rfc3339, utc_moment};
use crate::json::{self, int_value, Fields, Json};
use crate::kernel::model::{FunctionSpec, FunctionSpecView};
use crate::runtime::functions::{
    self, FunctionCallExecution, FunctionCallExecutionView, FunctionRegistry, RuntimeEffectView,
};
use serde_json::Value;
use vstd::prelude::*;

verus! {

/// The tool that tells the time.
#[derive(Debug, Clone, Copy, Default)]
pub struct GetCurrentTime;

/// How the tool is offered to a model.
pub open spec fn time_spec() -> FunctionSpecView {
    FunctionSpecView {
        name: "get_current_time"@,
        description: "Return the current UTC time and local time with its numeric offset. Use this for time-sensitive questions."@,
        parameters: functions::no_parameters(),
    }
}

/// What the tool answers at a moment.
pub open spec fn time_content(utc: Seq<char>, local: Seq<char>, unix_seconds: int) -> Json {
    Json::Fields(
        Map::<Seq<char>, Json>::empty().insert("utc"@, Json::Text(utc)).insert(
            "local"@,
            Json::Text(local),
        ).insert("unix_seconds"@, Json::Int(unix_seconds)),
    )
}

/// What the tool answers at a moment that is known.
pub fn time_output(utc: &str, local: &str, unix_seconds: i64) -> (r: Value)
    ensures
        json::of(r) == time_content(utc@, local@, unix_seconds as int),
{
    Fields::new().with_text("utc", utc).with_text("local", local).with(
        "unix_seconds",
        int_value(unix_seconds),
    ).value()
}

impl GetCurrentTime {
    /// How the tool is offered to a model.
    pub fn spec(&self) -> (r: FunctionSpec)
        ensures
            r@ == time_spec(),
    {
        FunctionSpec {
            name: "get_current_time".to_string(),
            description: "Return the current UTC time and local time with its numeric offset. Use this for time-sensitive questions.".to_string(),
            parameters: Fields::new().with_text("type", "object").with(
                "properties",
                Fields::new().value(),
            ).with_bool("additionalProperties", false).value(),
        }
    }

    /// Tells the time: one moment in UTC, its seconds since the epoch, and the local
    /// time. The answer is complete and asks for nothing else.
    pub fn call(&self) -> (r: FunctionCallExecution)
        ensures
            r@ matches FunctionCallExecutionView::Completed { output, effects } && effects
                == Seq::<RuntimeEffectView>::empty() && exists|
                local: Seq<char>,
                seconds: i64,
                nanos: u32,
            | output == #[trigger] time_content(
                clock::utc_rfc3339(seconds, nanos),
                local,
                seconds as int,
            ),
    {
        broadcast use crate::views::group_views;

        let (utc, seconds, nanos) = utc_moment();
        let local = local_rfc3339();
        let output = time_output(utc.as_str(), local.as_str(), seconds);
        assert(json::of(output) == time_content(
            clock::utc_rfc3339(seconds, nanos),
            local@,
            seconds as int,
        ));
        FunctionCallExecution::Completed { output, effects: Vec::new() }
    }
}

/// Offers the tool to a model.
pub fn register_time_tools<H>(registry: &mut FunctionRegistry<H>, handler: H)
    ensures
        forall|name: Seq<char>| #[trigger]
            functions::lookup(final(registry)@, name) == if name == "get_current_time"@ {
                Some((time_spec(), handler))
            } else {
                functions::lookup(old(registry)@, name)
            },
{
    registry.register(GetCurrentTime.spec(), handler);
}

} // verus!
