//! The admission filter: what becomes of one inbound request.
use vstd::prelude::*;
use crate::config::Config;
use crate::host::{host_parts, parse_host, HostView};
use crate::limiter::{check_spec, Decision, Limiter, LimiterView};
use crate::tenant::{directory_key, Consumer, ConsumerView, Directory};
use crate::text::{decimal, same_text, to_decimal};
use crate::tiers::{TierRegistry, TierView};

verus! {

/// What the filter decided for a request.
#[derive(Clone, Copy, Debug, PartialEq, Eq, Structural)]
pub enum Outcome {
    /// The request asked for the health-check path: answer it here.
    Health,
    /// The host does not follow the grammar.
    BadRequest,
    /// No tenant is known for the request's key.
    Unauthorized,
    /// The tenant has used up a window of its tier.
    TooManyRequests,
    /// Forward the request to the instance.
    Forward,
}

/// The header that carries a tenant's key where the host does not.
pub fn key_header_name() -> (name: &'static str)
    ensures
        name@ == "dmtr-api-key"@,
{
    "dmtr-api-key"
}

/// The body of the answer to a health check.
pub fn health_body() -> (body: &'static str)
    ensures
        body@ == "OK"@,
{
    "OK"
}

/// The status that the proxy itself answers with, where it answers.
pub open spec fn status_of(outcome: Outcome) -> Option<u16> {
    match outcome {
        Outcome::Health => Some(200u16),
        Outcome::BadRequest => Some(400u16),
        Outcome::Unauthorized => Some(401u16),
        Outcome::TooManyRequests => Some(429u16),
        Outcome::Forward => None,
    }
}

impl Outcome {
    /// The status that the proxy itself answers with; `None` where the
    /// request goes upstream.
    pub fn status(&self) -> (status: Option<u16>)
        ensures
            status == status_of(*self),
    {
        match self {
            Outcome::Health => Some(200),
            Outcome::BadRequest => Some(400),
            Outcome::Unauthorized => Some(401),
            Outcome::TooManyRequests => Some(429),
            Outcome::Forward => None,
        }
    }

    /// Whether the connection may be kept alive after the answer. It is
    /// closed after a health answer and after a throttled request.
    pub fn keeps_alive(&self) -> (keep: bool)
        ensures
            keep == (*self != Outcome::Health && *self != Outcome::TooManyRequests),
    {
        match self {
            Outcome::Health => false,
            Outcome::TooManyRequests => false,
            _ => true,
        }
    }
}

/// What the later stages know of a request.
#[derive(Debug)]
pub struct Context {
    pub is_health_request: bool,
    pub instance: String,
    pub consumer: Consumer,
    /// The tenant's tier is not defined, so the request was not held
    /// against any limit: worth a warning.
    pub tier_missing: bool,
}

/// A request's context as plain values.
pub struct ContextView {
    pub is_health_request: bool,
    pub instance: Seq<char>,
    pub consumer: ConsumerView,
    pub tier_missing: bool,
}

impl View for Context {
    type V = ContextView;

    open spec fn view(&self) -> ContextView {
        ContextView {
            is_health_request: self.is_health_request,
            instance: self.instance@,
            consumer: self.consumer@,
            tier_missing: self.tier_missing,
        }
    }
}

/// The record that stands in a context before a tenant is known.
pub open spec fn no_consumer() -> ConsumerView {
    ConsumerView {
        namespace: Seq::<char>::empty(),
        port_name: Seq::<char>::empty(),
        tier: Seq::<char>::empty(),
        key: Seq::<char>::empty(),
        network: Seq::<char>::empty(),
        pruned: true,
    }
}

/// The context of a request of which nothing is known yet.
pub open spec fn blank_context() -> ContextView {
    ContextView {
        is_health_request: false,
        instance: Seq::<char>::empty(),
        consumer: no_consumer(),
        tier_missing: false,
    }
}

/// The context of a request of which nothing is known yet.
pub fn new_ctx() -> (ctx: Context)
    ensures
        ctx@ == blank_context(),
{
    Context {
        is_health_request: false,
        instance: String::new(),
        consumer: Consumer::default(),
        tier_missing: false,
    }
}

/// The address of the backend for a network: `kupo-<network>`, `-pruned`
/// for the pruned variant, a dot, the DNS name, a colon, the port. The filter
/// takes the network from the host and the variant from the tenant's record.
pub open spec fn instance_name(network: Seq<char>, pruned: bool, dns: Seq<char>, port: u16) -> Seq<
    char,
> {
    seq!['k', 'u', 'p', 'o', '-'] + network + (if pruned {
        seq!['-', 'p', 'r', 'u', 'n', 'e', 'd']
    } else {
        Seq::<char>::empty()
    }) + seq!['.'] + dns + seq![':'] + decimal(port as nat)
}

/// The address of the backend for a network.
pub fn instance(network: &str, pruned: bool, dns: &str, port: u16) -> (name: String)
    ensures
        name@ == instance_name(network@, pruned, dns@, port),
{
    proof {
        reveal_strlit("kupo-");
        reveal_strlit("-pruned");
        reveal_strlit(".");
        reveal_strlit(":");
        assert("kupo-"@ =~= seq!['k', 'u', 'p', 'o', '-']);
        assert("-pruned"@ =~= seq!['-', 'p', 'r', 'u', 'n', 'e', 'd']);
        assert("."@ =~= seq!['.']);
        assert(":"@ =~= seq![':']);
    }
    let mut name = String::from_str("kupo-");
    name.append(network);
    if pruned {
        name.append("-pruned");
    }
    name.append(".");
    name.append(dns);
    name.append(":");
    let port_text = to_decimal(port as u64);
    name.append(port_text.as_str());
    assert(name@ =~= instance_name(network@, pruned, dns@, port));
    name
}

/// The key that a request is looked up with: the one embedded in the host,
/// else the one carried by the key header.
pub open spec fn resolved_key(parts: HostView, header: Option<Seq<char>>) -> Option<Seq<char>> {
    match parts.key {
        Some(key) => Some(key),
        None => header,
    }
}

/// The result of the filter on one request: the outcome, the context that
/// the later stages get, and the limiter's state afterwards.
///
/// The health-check path is answered before anything else. A host that is
/// missing or malformed is a bad request. A request without a key, or with a
/// key that the directory does not hold under the host's network and
/// version, is unauthorized, and the limiter is left alone. Otherwise the
/// limiter decides, on the tenant's own key and tier, and the context says
/// whether that tier was missing.
pub open spec fn filter_spec(
    health_endpoint: Seq<char>,
    dns: Seq<char>,
    port: u16,
    directory: Map<Seq<char>, ConsumerView>,
    tiers: Map<Seq<char>, TierView>,
    limiter: LimiterView,
    path: Seq<char>,
    host: Option<Seq<char>>,
    key_header: Option<Seq<char>>,
    now: u64,
) -> (Outcome, ContextView, LimiterView) {
    if path == health_endpoint {
        (Outcome::Health, ContextView { is_health_request: true, ..blank_context() }, limiter)
    } else if host is None || host_parts(host.unwrap()) is None {
        (Outcome::BadRequest, blank_context(), limiter)
    } else {
        let parts = host_parts(host.unwrap()).unwrap();
        let key = resolved_key(parts, key_header);
        if key is None || !directory.contains_key(
            directory_key(parts.network, parts.version, key.unwrap()),
        ) {
            (Outcome::Unauthorized, blank_context(), limiter)
        } else {
            let consumer = directory[directory_key(parts.network, parts.version, key.unwrap())];
            let context = ContextView {
                is_health_request: false,
                instance: instance_name(parts.network, consumer.pruned, dns, port),
                consumer,
                tier_missing: !tiers.contains_key(consumer.tier),
            };
            let checked = check_spec(limiter, tiers, consumer.key, consumer.tier, now);
            (
                if checked.0 == Decision::Allow {
                    Outcome::Forward
                } else {
                    Outcome::TooManyRequests
                },
                context,
                checked.1,
            )
        }
    }
}

/// What can be said of a request without the limiter: the outcome where
/// the request is answered at once, or none where a tenant is known and its
/// limits decide, and the context so far.
pub open spec fn identify_spec(
    health_endpoint: Seq<char>,
    dns: Seq<char>,
    port: u16,
    directory: Map<Seq<char>, ConsumerView>,
    path: Seq<char>,
    host: Option<Seq<char>>,
    key_header: Option<Seq<char>>,
) -> (Option<Outcome>, ContextView) {
    if path == health_endpoint {
        (Some(Outcome::Health), ContextView { is_health_request: true, ..blank_context() })
    } else if host is None || host_parts(host.unwrap()) is None {
        (Some(Outcome::BadRequest), blank_context())
    } else {
        let parts = host_parts(host.unwrap()).unwrap();
        let key = resolved_key(parts, key_header);
        if key is None || !directory.contains_key(
            directory_key(parts.network, parts.version, key.unwrap()),
        ) {
            (Some(Outcome::Unauthorized), blank_context())
        } else {
            let consumer = directory[directory_key(parts.network, parts.version, key.unwrap())];
            (
                None,
                ContextView {
                    is_health_request: false,
                    instance: instance_name(parts.network, consumer.pruned, dns, port),
                    consumer,
                    tier_missing: false,
                },
            )
        }
    }
}

/// What the limiter makes of a request whose tenant is known: the outcome,
/// the context with the mark of a missing tier, and the limiter's state
/// afterwards.
pub open spec fn throttle_spec(
    tiers: Map<Seq<char>, TierView>,
    limiter: LimiterView,
    context: ContextView,
    now: u64,
) -> (Outcome, ContextView, LimiterView) {
    let checked = check_spec(limiter, tiers, context.consumer.key, context.consumer.tier, now);
    (
        if checked.0 == Decision::Allow {
            Outcome::Forward
        } else {
            Outcome::TooManyRequests
        },
        ContextView { tier_missing: !tiers.contains_key(context.consumer.tier), ..context },
        checked.1,
    )
}

/// The first half of the filter, which needs no limiter: it answers the
/// health check, turns down what has no well-formed host or no tenant, and
/// otherwise finds the tenant and its backend.
pub fn identify(
    config: &Config,
    directory: &Directory,
    path: &str,
    host: Option<&str>,
    key_header: Option<&str>,
) -> (result: (Option<Outcome>, Context))
    ensures
        (result.0, result.1@) == identify_spec(
            config.health_endpoint@,
            config.kupo_dns@,
            config.kupo_port,
            directory@,
            path@,
            match host {
                Some(h) => Some(h@),
                None => None,
            },
            match key_header {
                Some(k) => Some(k@),
                None => None,
            },
        ),
{
    let mut ctx = new_ctx();
    if same_text(path, config.health_endpoint.as_str()) {
        ctx.is_health_request = true;
        return (Some(Outcome::Health), ctx);
    }
    let parts = match host {
        Some(h) => match parse_host(h) {
            Ok(parts) => parts,
            Err(_) => {
                return (Some(Outcome::BadRequest), ctx);
            },
        },
        None => {
            return (Some(Outcome::BadRequest), ctx);
        },
    };
    let key: &str = match &parts.key {
        Some(embedded) => embedded.as_str(),
        None => match key_header {
            Some(carried) => carried,
            None => {
                return (Some(Outcome::Unauthorized), ctx);
            },
        },
    };
    let consumer = match directory.get_consumer(parts.network.as_str(), parts.version.as_str(), key) {
        Some(consumer) => consumer,
        None => {
            return (Some(Outcome::Unauthorized), ctx);
        },
    };
    ctx.instance = instance(
        parts.network.as_str(),
        consumer.pruned(),
        config.kupo_dns.as_str(),
        config.kupo_port,
    );
    ctx.consumer = consumer;
    (None, ctx)
}

/// The second half of the filter: holds the request of a known tenant
/// against the tenant's tier and counts it if it is forwarded. It touches
/// the counters of the tenant's key and no others, so callers may keep the
/// keys apart in several limiters.
pub fn throttle(tiers: &TierRegistry, limiter: &mut Limiter, ctx: Context, now: u64) -> (result: (
    Outcome,
    Context,
))
    ensures
        (result.0, result.1@, final(limiter)@) == throttle_spec(tiers@, old(limiter)@, ctx@, now),
{
    let checked = limiter.check(tiers, ctx.consumer.key().as_str(), ctx.consumer.tier().as_str(), now);
    let marked = Context { tier_missing: checked.tier_missing, ..ctx };
    match checked.decision {
        Decision::Allow => (Outcome::Forward, marked),
        Decision::Reject => (Outcome::TooManyRequests, marked),
    }
}

/// Decides one request and counts it against its tenant's tier if it is
/// forwarded.
pub fn request_filter(
    config: &Config,
    directory: &Directory,
    tiers: &TierRegistry,
    limiter: &mut Limiter,
    path: &str,
    host: Option<&str>,
    key_header: Option<&str>,
    now: u64,
) -> (result: (Outcome, Context))
    ensures
        (result.0, result.1@, final(limiter)@) == filter_spec(
            config.health_endpoint@,
            config.kupo_dns@,
            config.kupo_port,
            directory@,
            tiers@,
            old(limiter)@,
            path@,
            match host {
                Some(h) => Some(h@),
                None => None,
            },
            match key_header {
                Some(k) => Some(k@),
                None => None,
            },
            now,
        ),
{
    let (answered, ctx) = identify(config, directory, path, host, key_header);
    match answered {
        Some(outcome) => (outcome, ctx),
        None => throttle(tiers, limiter, ctx, now),
    }
}

/// A request that is not a health check, whose host follows the grammar and
/// whose key no tenant record answers to, is unauthorized: the proxy
/// answers 401, and the limiter is as it was, with no counter made or moved.
pub proof fn law_unknown_tenant_is_unauthorized(
    health_endpoint: Seq<char>,
    dns: Seq<char>,
    port: u16,
    directory: Map<Seq<char>, ConsumerView>,
    tiers: Map<Seq<char>, TierView>,
    limiter: LimiterView,
    path: Seq<char>,
    host: Seq<char>,
    key_header: Option<Seq<char>>,
    now: u64,
)
    requires
        path != health_endpoint,
        host_parts(host) is Some,
        resolved_key(host_parts(host).unwrap(), key_header) matches Some(key) ==> !directory.contains_key(
            directory_key(
                host_parts(host).unwrap().network,
                host_parts(host).unwrap().version,
                key,
            ),
        ),
    ensures
        filter_spec(
            health_endpoint,
            dns,
            port,
            directory,
            tiers,
            limiter,
            path,
            Some(host),
            key_header,
            now,
        ) == (Outcome::Unauthorized, blank_context(), limiter),
        status_of(Outcome::Unauthorized) == Some(401u16),
{
}

/// Every request gets exactly one outcome, and the proxy answers it with
/// 200, 400, 401 or 429 unless it forwards it.
pub proof fn law_outcome_status(outcome: Outcome)
    ensures
        outcome == Outcome::Forward <==> status_of(outcome) is None,
        status_of(outcome) matches Some(status) ==> status == 200 || status == 400 || status
            == 401 || status == 429,
{
}

/// The filter is its two halves one after the other: what `identify`
/// answers stands, with the limiter untouched, and the rest is what
/// `throttle` makes of the tenant that `identify` found.
pub proof fn law_filter_is_identify_then_throttle(
    health_endpoint: Seq<char>,
    dns: Seq<char>,
    port: u16,
    directory: Map<Seq<char>, ConsumerView>,
    tiers: Map<Seq<char>, TierView>,
    limiter: LimiterView,
    path: Seq<char>,
    host: Option<Seq<char>>,
    key_header: Option<Seq<char>>,
    now: u64,
)
    ensures
        filter_spec(
            health_endpoint,
            dns,
            port,
            directory,
            tiers,
            limiter,
            path,
            host,
            key_header,
            now,
        ) == ({
            let found = identify_spec(health_endpoint, dns, port, directory, path, host, key_header);
            match found.0 {
                Some(outcome) => (outcome, found.1, limiter),
                None => throttle_spec(tiers, limiter, found.1, now),
            }
        }),
{
}

/// A request of one key leaves the counters of every other key as they
/// were.
pub proof fn law_throttle_touches_one_key(
    tiers: Map<Seq<char>, TierView>,
    limiter: LimiterView,
    context: ContextView,
    now: u64,
    other: Seq<char>,
)
    requires
        other != context.consumer.key,
    ensures
        throttle_spec(tiers, limiter, context, now).2.contains_key(other) == limiter.contains_key(
            other,
        ),
        limiter.contains_key(other) ==> throttle_spec(tiers, limiter, context, now).2[other]
            == limiter[other],
{
}

} // verus!
