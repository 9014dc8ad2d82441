//! The labels under which a finished request is counted.
use vstd::prelude::*;
use crate::filter::{Context, ContextView};
use crate::tenant::{dot, Consumer};
use crate::text::{decimal, to_decimal};

verus! {

/// The label values of the request counter, in the order of its labels:
/// consumer, namespace, instance, status code, tier.
#[derive(Debug)]
pub struct Labels {
    pub consumer: String,
    pub namespace: String,
    pub instance: String,
    pub status_code: String,
    pub tier: String,
}

/// Label values as plain values.
pub struct LabelsView {
    pub consumer: Seq<char>,
    pub namespace: Seq<char>,
    pub instance: Seq<char>,
    pub status_code: Seq<char>,
    pub tier: Seq<char>,
}

impl View for Labels {
    type V = LabelsView;

    open spec fn view(&self) -> LabelsView {
        LabelsView {
            consumer: self.consumer@,
            namespace: self.namespace@,
            instance: self.instance@,
            status_code: self.status_code@,
            tier: self.tier@,
        }
    }
}

/// The status that a request is counted under: the one that was written,
/// and 0 where none was.
pub open spec fn counted_status(written: Option<u16>) -> u16 {
    match written {
        Some(status) => status,
        None => 0,
    }
}

/// The labels of a request, and none for a health check: a health check is
/// not counted.
pub open spec fn labels_of(ctx: ContextView, namespace: Seq<char>, written: Option<u16>) -> Option<
    LabelsView,
> {
    if ctx.is_health_request {
        None
    } else {
        Some(
            LabelsView {
                consumer: ctx.consumer.namespace + dot() + ctx.consumer.port_name,
                namespace,
                instance: ctx.instance,
                status_code: decimal(counted_status(written) as nat),
                tier: ctx.consumer.tier,
            },
        )
    }
}

/// The label values under which one request of `consumer` is counted.
pub fn inc_http_total_request(
    consumer: &Consumer,
    namespace: &str,
    instance: &str,
    status: u16,
) -> (labels: Labels)
    ensures
        labels@ == (LabelsView {
            consumer: consumer@.namespace + dot() + consumer@.port_name,
            namespace: namespace@,
            instance: instance@,
            status_code: decimal(status as nat),
            tier: consumer@.tier,
        }),
{
    Labels {
        consumer: consumer.to_string(),
        namespace: String::from_str(namespace),
        instance: String::from_str(instance),
        status_code: to_decimal(status as u64),
        tier: consumer.tier().clone(),
    }
}

/// What is counted for a request once it is answered: its labels, unless it
/// was a health check.
pub fn logging(ctx: &Context, namespace: &str, written: Option<u16>) -> (labels: Option<Labels>)
    ensures
        match labels {
            Some(values) => labels_of(ctx@, namespace@, written) == Some(values@),
            None => labels_of(ctx@, namespace@, written) is None,
        },
{
    if ctx.is_health_request {
        return None;
    }
    let status = match written {
        Some(status) => status,
        None => 0,
    };
    Some(inc_http_total_request(&ctx.consumer, namespace, ctx.instance.as_str(), status))
}

} // verus!
