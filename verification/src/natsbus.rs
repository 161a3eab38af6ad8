//! The NATS JetStream bus: connection rules, routing of subjects, consumer
//! settings and acknowledgement.
//!
//! Tasks and results go through a work-queue stream with explicit
//! acknowledgement. Stream chunks and plugin reloads use transient core NATS
//! pub/sub, so that each subscriber receives its own copy.

use crate::error::OrbflowError;
use crate::subjects;
use crate::subjects::SUBJECT_PREFIX;
use crate::text;
use vstd::prelude::*;
use vstd::utf8::*;

verus! {

/// The name of the work-queue stream.
pub const STREAM_NAME: &'static str = "ORBFLOW";

/// The start of the subjects that carry stream chunks.
pub const STREAM_SUBJECT_PREFIX: &'static str = "orbflow.stream.";

/// The subject that tells workers to reload plugins.
pub const PLUGIN_RELOAD_SUBJECT: &'static str = "orbflow.worker.reload-plugins";

/// How long a consumer may take to acknowledge a message, by default.
pub const DEFAULT_CONSUMER_ACK_WAIT_SECS: u64 = 330;

/// How many messages a consumer may leave unacknowledged, by default.
pub const DEFAULT_MAX_ACK_PENDING: i64 = 1024;

/// How long the stream keeps a message.
pub const STREAM_MAX_AGE_SECS: u64 = 86_400;

/// How many messages a consumer fetches at a time.
pub const MAX_FETCHED_MESSAGES: usize = 64;

/// How long a message waits for its redelivery after its handler failed.
pub const NAK_DELAY_SECS: u64 = 5;

/// A length of time.
#[derive(Debug, Clone, Copy, PartialEq, Eq, Structural)]
pub struct WaitTime {
    pub secs: u64,
    pub nanos: u32,
}

/// A NATS URL's scheme, in lower case, and host.
#[derive(Debug)]
pub struct ParsedNatsUrl {
    pub scheme: String,
    pub host: String,
}

/// The host in the authority of a URL: what stands behind the last `@`, between
/// brackets where it starts with one, else up to the colon.
pub open spec fn authority_host(authority: Seq<char>) -> Option<Seq<char>> {
    let host_port = text::after_last_of(authority, '@');
    if host_port.len() > 0 && host_port[0] == '[' {
        text::before_first_of(host_port.drop_first(), "]"@)
    } else {
        match text::before_first_of(host_port, ":"@) {
            Some(host) => Some(host),
            None => Some(host_port),
        }
    }
}

/// The scheme and the host of a URL; none where there is no `://`, or one of the
/// two is empty or not there. The scheme is in lower case; the authority ends at
/// the first `/`, `?` or `#`.
pub open spec fn nats_url_parts(url: Seq<char>) -> Option<(Seq<char>, Seq<char>)> {
    match text::split_at_first(url, "://"@) {
        None => None,
        Some((scheme, rest)) => {
            let authority = match text::before_first_of(rest, "/?#"@) {
                Some(a) => a,
                None => rest,
            };
            match authority_host(authority) {
                None => None,
                Some(host) => if scheme.len() > 0 && host.len() > 0 {
                    Some((text::ascii_lowercase(scheme), host))
                } else {
                    None
                },
            }
        },
    }
}

fn host_of_authority(authority: &str) -> (r: Option<String>)
    ensures
        text::opt_text(r) == authority_host(authority@),
{
    let host_port = text::after_last(authority, '@');
    proof {
        reveal_strlit("[");
        let hp = host_port@;
        if hp.len() > 0 {
            assert(hp.take(1)[0] == hp[0]);
            assert(hp[0] == '[' ==> hp.take(1) =~= "["@);
        }
        assert(hp.len() > 0 ==> hp.skip(1) =~= hp.drop_first());
    }
    match text::strip_prefix(host_port.as_str(), "[") {
        Some(bracketed) => text::before_any(bracketed.as_str(), "]"),
        None => match text::before_any(host_port.as_str(), ":") {
            Some(host) => Some(host),
            None => Some(host_port),
        },
    }
}

/// The scheme and the host of a NATS URL.
pub fn parse_nats_url(url: &str) -> (r: Option<ParsedNatsUrl>)
    ensures
        match r {
            Some(p) => nats_url_parts(url@) == Some((p.scheme@, p.host@)),
            None => nats_url_parts(url@) is None,
        },
{
    let (scheme, rest) = match text::split_once(url, "://") {
        Some(parts) => parts,
        None => return None,
    };
    let authority = match text::before_any(rest.as_str(), "/?#") {
        Some(a) => a,
        None => rest,
    };
    let host = match host_of_authority(authority.as_str()) {
        Some(host) => host,
        None => return None,
    };
    if scheme.as_str().is_empty() || host.as_str().is_empty() {
        return None;
    }
    Some(ParsedNatsUrl { scheme: text::to_ascii_lowercase(scheme.as_str()), host })
}

/// The host is `localhost`, in upper or lower case, or an IP address of the
/// loopback interface.
pub open spec fn is_loopback_host(host: Seq<char>, is_loopback_ip: bool) -> bool {
    text::ascii_lowercase(host) == text::ascii_lowercase("localhost"@) || is_loopback_ip
}

impl ParsedNatsUrl {
    /// Whether the host is this machine, given whether it is the text of a
    /// loopback IP address.
    pub fn is_loopback(&self, is_loopback_ip: bool) -> (r: bool)
        ensures
            r == is_loopback_host(self.host@, is_loopback_ip),
    {
        text::same_text_ignoring_ascii_case(self.host.as_str(), "localhost") || is_loopback_ip
    }
}

/// The bus, as far as its rules read it.
#[derive(Debug)]
pub struct NatsBus {
    pub consumer_ack_wait: WaitTime,
    pub consumer_max_ack_pending: i64,
    pub stream_available: bool,
}

/// How long a stream keeps a message that was taken.
#[derive(Debug, Clone, Copy, PartialEq, Eq, Structural)]
pub enum Retention {
    /// Until one of the stream's limits is reached.
    Limits,
    /// Until every consumer has acknowledged it.
    Interest,
    /// Until one consumer has acknowledged it.
    WorkQueue,
}

/// What becomes of a stream of the name that is there already.
#[derive(Debug, Clone, Copy, PartialEq, Eq, Structural)]
pub enum IfPresent {
    /// It stays as it is.
    Keep,
    /// It gets these settings.
    Update,
}

/// The settings of a stream. It is created where there is none of the name.
#[derive(Debug)]
pub struct StreamSettings {
    pub name: String,
    pub subjects: Vec<String>,
    pub retention: Retention,
    /// How long it keeps a message that nobody takes.
    pub max_age_secs: u64,
    pub if_present: IfPresent,
}

/// What to connect with.
#[derive(Debug)]
pub struct ConnectPlan {
    /// The bus, once the stream is there.
    pub bus: NatsBus,
    /// The connection is neither encrypted nor to this machine.
    pub insecure: bool,
    /// The work-queue stream, which is set up on connecting.
    pub stream: StreamSettings,
}

/// The URL asks for TLS.
pub open spec fn is_tls_url(url: Seq<char>) -> bool {
    nats_url_parts(url) matches Some(parts) && parts.0 == "tls"@
}

/// The URL names this machine.
pub open spec fn is_loopback_url(url: Seq<char>, is_loopback_ip: bool) -> bool {
    nats_url_parts(url) matches Some(parts) && is_loopback_host(parts.1, is_loopback_ip)
}

/// The acknowledgement time that a consumer gets: the default where none is asked
/// for.
pub open spec fn effective_ack_wait(asked: WaitTime) -> WaitTime {
    if asked.secs == 0 && asked.nanos == 0 {
        WaitTime { secs: DEFAULT_CONSUMER_ACK_WAIT_SECS, nanos: 0 }
    } else {
        asked
    }
}

/// The subjects that the work-queue stream takes.
pub open spec fn work_queue_subjects() -> Seq<Seq<char>> {
    seq![SUBJECT_PREFIX@ + ".tasks.*"@, SUBJECT_PREFIX@ + ".results.*"@]
}

/// The settings are those of the work-queue stream: a message goes once it is
/// acknowledged, or after a day, and a stream that is there already gets them.
pub open spec fn is_work_queue(stream: StreamSettings) -> bool {
    &&& stream.name@ == STREAM_NAME@
    &&& text::texts(stream.subjects@) == work_queue_subjects()
    &&& stream.retention == Retention::WorkQueue
    &&& stream.max_age_secs == STREAM_MAX_AGE_SECS
    &&& stream.if_present == IfPresent::Update
}

/// `plan` connects to the URL with these settings.
pub open spec fn connects(
    plan: ConnectPlan,
    url: Seq<char>,
    ack_wait: WaitTime,
    max_ack_pending: i64,
    is_loopback_ip: bool,
) -> bool {
    &&& plan.bus.consumer_ack_wait == effective_ack_wait(ack_wait)
    &&& plan.bus.consumer_max_ack_pending == if max_ack_pending < 1 {
        1
    } else {
        max_ack_pending
    }
    &&& plan.bus.stream_available
    &&& plan.insecure == (!is_tls_url(url) && !is_loopback_url(url, is_loopback_ip))
    &&& is_work_queue(plan.stream)
}

/// `r` refuses the URL where TLS is required and it does not ask for it, else
/// connects to it with these settings.
pub open spec fn connects_or_refuses(
    r: Result<ConnectPlan, OrbflowError>,
    url: Seq<char>,
    require_tls: bool,
    ack_wait: WaitTime,
    max_ack_pending: i64,
    is_loopback_ip: bool,
) -> bool {
    if require_tls && !is_tls_url(url) {
        r matches Err(OrbflowError::Bus(e)) && e@
            == "NATS require_tls is enabled but URL does not use TLS"@
    } else {
        r matches Ok(plan) && connects(plan, url, ack_wait, max_ack_pending, is_loopback_ip)
    }
}

/// What a publish does with a message.
#[derive(Debug, Clone, Copy, PartialEq, Eq, Structural)]
pub enum PublishRoute {
    /// Core pub/sub, with a copy for each subscriber.
    Fanout,
    /// The work-queue stream, with an acknowledgement to wait for.
    WorkQueue,
}

/// What became of a message that was published.
#[derive(Debug)]
pub enum PublishOutcome {
    /// It was sent, and acknowledged where its route asks for it.
    Done,
    /// It could not be sent.
    NotSent(String),
    /// No stream takes its subject.
    StreamNotFound,
    /// It was not acknowledged.
    NotAcked(String),
}

/// Which messages of a consumer are to be acknowledged.
#[derive(Debug, Clone, Copy, PartialEq, Eq, Structural)]
pub enum AckPolicy {
    /// Each by itself.
    Explicit,
    /// The last of several, for all before it.
    All,
    /// Not one.
    NoAck,
}

/// Which messages of the stream a consumer starts with.
#[derive(Debug, Clone, Copy, PartialEq, Eq, Structural)]
pub enum DeliverPolicy {
    /// With the oldest that is still there.
    All,
    /// With the last that is there.
    Last,
    /// With the first that comes after it was created.
    New,
}

/// The settings of a durable consumer.
#[derive(Debug)]
pub struct ConsumerConfig {
    pub durable_name: String,
    pub filter_subject: String,
    pub ack_policy: AckPolicy,
    pub deliver_policy: DeliverPolicy,
    pub ack_wait: WaitTime,
    pub max_ack_pending: i64,
    /// How many messages it fetches at a time.
    pub max_fetched: usize,
}

/// How a subject is subscribed to.
#[derive(Debug)]
pub enum SubscribePlan {
    /// Through core pub/sub.
    Fanout,
    /// Through the durable consumer with these settings.
    Consumer(ConsumerConfig),
}

/// The subject carries stream chunks.
pub open spec fn is_stream(subject: Seq<char>) -> bool {
    text::has_prefix(subject, STREAM_SUBJECT_PREFIX@)
}

/// Every subscriber of the subject receives its own copy of a message.
pub open spec fn is_fanout(subject: Seq<char>) -> bool {
    is_stream(subject) || subject == PLUGIN_RELOAD_SUBJECT@
}

/// Whether the subject carries stream chunks.
pub fn is_stream_subject(subject: &str) -> (r: bool)
    ensures
        r == is_stream(subject@),
{
    text::starts_with(subject, STREAM_SUBJECT_PREFIX)
}

/// Whether every subscriber of the subject receives its own copy of a message.
pub fn is_fanout_subject(subject: &str) -> (r: bool)
    ensures
        r == is_fanout(subject@),
{
    is_stream_subject(subject) || text::same_text(subject, PLUGIN_RELOAD_SUBJECT)
}

/// What a byte of a subject becomes in a durable name: `_` for a dot, a letter,
/// digit, `-` or `_` itself, and `_x` with two hexadecimal digits for any other.
pub open spec fn durable_part(b: u8) -> Seq<char> {
    if b == 0x2e {
        seq!['_']
    } else if 0x61 <= b <= 0x7a || 0x41 <= b <= 0x5a || 0x30 <= b <= 0x39 || b == 0x2d || b
        == 0x5f {
        seq![b as char]
    } else {
        "_x"@ + text::hex(b as nat, 2, true)
    }
}

/// The durable name for a subject with these bytes.
pub open spec fn durable_name(bytes: Seq<u8>) -> Seq<char>
    decreases bytes.len(),
{
    if bytes.len() == 0 {
        Seq::empty()
    } else {
        durable_name(bytes.drop_last()) + durable_part(bytes.last())
    }
}

/// The name of the durable consumer for a subject, so that multiple workers share
/// the same consumer.
pub fn durable_name_for_subject(subject: &str) -> (r: String)
    ensures
        r@ == durable_name(encode_utf8(subject@)),
{
    let bytes = subject.as_bytes();
    let mut durable = String::new();
    let mut i: usize = 0;
    assert(durable@ =~= durable_name(bytes@.take(0)));
    while i < bytes.len()
        invariant
            i <= bytes.len(),
            durable@ == durable_name(bytes@.take(i as int)),
        decreases bytes.len() - i,
    {
        let b: u8 = bytes[i];
        assert(bytes@.take(i + 1).drop_last() =~= bytes@.take(i as int));
        let ghost before = durable@;
        if b == 0x2e {
            durable.push('_');
        } else if (0x61 <= b && b <= 0x7a) || (0x41 <= b && b <= 0x5a) || (0x30 <= b && b <= 0x39)
            || b == 0x2d || b == 0x5f {
            durable.push(b as char);
        } else {
            durable.append("_x");
            text::push_hex(&mut durable, b as u64, 2, true);
        }
        assert(durable@ =~= before + durable_part(b));
        i += 1;
    }
    assert(bytes@.take(bytes@.len() as int) =~= bytes@);
    durable
}

/// The settings of the work-queue stream.
pub fn work_queue_stream() -> (r: StreamSettings)
    ensures
        is_work_queue(r),
{
    let mut tasks = SUBJECT_PREFIX.to_owned();
    tasks.append(".tasks.*");
    let mut results = SUBJECT_PREFIX.to_owned();
    results.append(".results.*");
    let mut subjects: Vec<String> = Vec::new();
    subjects.push(tasks);
    subjects.push(results);
    assert(text::texts(subjects@) =~= work_queue_subjects());
    StreamSettings {
        name: STREAM_NAME.to_owned(),
        subjects,
        retention: Retention::WorkQueue,
        max_age_secs: STREAM_MAX_AGE_SECS,
        if_present: IfPresent::Update,
    }
}

impl NatsBus {
    /// Plans a connection without TLS enforcement, with the default consumer
    /// settings.
    pub fn connect(url: &str, is_loopback_ip: bool) -> (r: Result<ConnectPlan, OrbflowError>)
        ensures
            connects_or_refuses(
                r,
                url@,
                false,
                (WaitTime { secs: DEFAULT_CONSUMER_ACK_WAIT_SECS, nanos: 0 }),
                DEFAULT_MAX_ACK_PENDING,
                is_loopback_ip,
            ),
    {
        NatsBus::connect_with_options(url, false, is_loopback_ip)
    }

    /// Plans a connection with the default consumer settings.
    ///
    /// When `require_tls` is `true`, the connection is rejected unless the URL
    /// uses `tls://`.
    pub fn connect_with_options(url: &str, require_tls: bool, is_loopback_ip: bool) -> (r: Result<
        ConnectPlan,
        OrbflowError,
    >)
        ensures
            connects_or_refuses(
                r,
                url@,
                require_tls,
                (WaitTime { secs: DEFAULT_CONSUMER_ACK_WAIT_SECS, nanos: 0 }),
                DEFAULT_MAX_ACK_PENDING,
                is_loopback_ip,
            ),
    {
        NatsBus::connect_with_consumer_options(
            url,
            require_tls,
            WaitTime { secs: DEFAULT_CONSUMER_ACK_WAIT_SECS, nanos: 0 },
            DEFAULT_MAX_ACK_PENDING,
            is_loopback_ip,
        )
    }

    /// Plans a connection with explicit consumer delivery safety settings.
    /// `is_loopback_ip` tells whether the URL's host is the text of a loopback IP
    /// address.
    pub fn connect_with_consumer_options(
        url: &str,
        require_tls: bool,
        consumer_ack_wait: WaitTime,
        consumer_max_ack_pending: i64,
        is_loopback_ip: bool,
    ) -> (r: Result<ConnectPlan, OrbflowError>)
        ensures
            connects_or_refuses(
                r,
                url@,
                require_tls,
                consumer_ack_wait,
                consumer_max_ack_pending,
                is_loopback_ip,
            ),
    {
        let ack_wait = if consumer_ack_wait.secs == 0 && consumer_ack_wait.nanos == 0 {
            WaitTime { secs: DEFAULT_CONSUMER_ACK_WAIT_SECS, nanos: 0 }
        } else {
            consumer_ack_wait
        };
        let max_ack_pending: i64 = if consumer_max_ack_pending < 1 {
            1
        } else {
            consumer_max_ack_pending
        };
        let (is_tls, is_loopback) = match parse_nats_url(url) {
            Some(p) => (text::same_text(p.scheme.as_str(), "tls"), p.is_loopback(is_loopback_ip)),
            None => (false, false),
        };
        if require_tls && !is_tls {
            return Err(
                OrbflowError::Bus(
                    "NATS require_tls is enabled but URL does not use TLS".to_owned(),
                ),
            );
        }
        Ok(
            ConnectPlan {
                bus: NatsBus {
                    consumer_ack_wait: ack_wait,
                    consumer_max_ack_pending: max_ack_pending,
                    stream_available: true,
                },
                insecure: !is_tls && !is_loopback,
                stream: work_queue_stream(),
            },
        )
    }

    /// Which way a message on the subject goes.
    pub fn publish(&self, subject: &str) -> (r: PublishRoute)
        ensures
            r == if is_fanout(subject@) {
                PublishRoute::Fanout
            } else {
                PublishRoute::WorkQueue
            },
    {
        if is_fanout_subject(subject) {
            PublishRoute::Fanout
        } else {
            PublishRoute::WorkQueue
        }
    }

    /// How to subscribe to the subject. One that goes through the stream can be
    /// subscribed to only while the stream is there.
    pub fn subscribe(&self, subject: &str) -> (r: Result<SubscribePlan, OrbflowError>)
        ensures
            if is_fanout(subject@) {
                r matches Ok(SubscribePlan::Fanout)
            } else if !self.stream_available {
                r matches Err(OrbflowError::Bus(e)) && e@ == "natsbus: stream not available"@
            } else {
                r matches Ok(SubscribePlan::Consumer(c)) && {
                    &&& c.durable_name@ == durable_name(encode_utf8(subject@))
                    &&& c.filter_subject@ == subject@
                    &&& c.ack_policy == AckPolicy::Explicit
                    &&& c.deliver_policy == DeliverPolicy::All
                    &&& c.ack_wait == self.consumer_ack_wait
                    &&& c.max_ack_pending == self.consumer_max_ack_pending
                    &&& c.max_fetched == MAX_FETCHED_MESSAGES
                }
            },
    {
        if is_fanout_subject(subject) {
            return Ok(SubscribePlan::Fanout);
        }
        if !self.stream_available {
            return Err(OrbflowError::Bus("natsbus: stream not available".to_owned()));
        }
        Ok(
            SubscribePlan::Consumer(
                ConsumerConfig {
                    durable_name: durable_name_for_subject(subject),
                    filter_subject: subject.to_owned(),
                    ack_policy: AckPolicy::Explicit,
                    deliver_policy: DeliverPolicy::All,
                    ack_wait: self.consumer_ack_wait,
                    max_ack_pending: self.consumer_max_ack_pending,
                    max_fetched: MAX_FETCHED_MESSAGES,
                },
            ),
        )
    }

    /// Gives up the stream; the settings stay.
    pub fn close(&mut self)
        ensures
            !final(self).stream_available,
            final(self).consumer_ack_wait == old(self).consumer_ack_wait,
            final(self).consumer_max_ack_pending == old(self).consumer_max_ack_pending,
    {
        self.stream_available = false;
    }
}

/// The text of a failure: what was done, to what, and the cause.
pub open spec fn failure_text(what: Seq<char>, name: Seq<char>, cause: Seq<char>) -> Seq<char> {
    "natsbus: "@ + what + name + ": "@ + cause
}

fn bus_error(what: &str, name: &str, cause: &str) -> (r: OrbflowError)
    ensures
        r matches OrbflowError::Bus(e) && e@ == failure_text(what@, name@, cause@),
{
    let mut e = "natsbus: ".to_owned();
    e.append(what);
    e.append(name);
    e.append(": ");
    e.append(cause);
    OrbflowError::Bus(e)
}

/// Work for the bus that can fail.
#[derive(Debug)]
pub enum BusWork {
    /// Connecting to the URL.
    Connect { url: String },
    /// Creating the work-queue stream.
    CreateStream,
    /// Subscribing to the subject.
    Subscribe { subject: String },
    /// Creating the durable consumer.
    CreateConsumer { durable_name: String },
    /// Closing the connection.
    Drain,
}

/// The error of work that failed for this cause.
pub fn work_error(work: &BusWork, cause: &str) -> (r: OrbflowError)
    ensures
        r matches OrbflowError::Bus(e) && e@ == match *work {
            BusWork::Connect { url } => failure_text("connect to "@, url@, cause@),
            BusWork::CreateStream => failure_text("create "@, "stream"@, cause@),
            BusWork::Subscribe { subject } => failure_text("subscribe "@, subject@, cause@),
            BusWork::CreateConsumer { durable_name } => failure_text(
                "create consumer "@,
                durable_name@,
                cause@,
            ),
            BusWork::Drain => failure_text("drain"@, ""@, cause@),
        },
{
    match work {
        BusWork::Connect { url } => bus_error("connect to ", url.as_str(), cause),
        BusWork::CreateStream => bus_error("create ", "stream", cause),
        BusWork::Subscribe { subject } => bus_error("subscribe ", subject.as_str(), cause),
        BusWork::CreateConsumer { durable_name } => bus_error(
            "create consumer ",
            durable_name.as_str(),
            cause,
        ),
        BusWork::Drain => bus_error("drain", "", cause),
    }
}

/// What a publish returns, given what became of the message.
pub fn publish_result(subject: &str, outcome: PublishOutcome) -> (r: Result<(), OrbflowError>)
    ensures
        match outcome {
            PublishOutcome::Done => r is Ok,
            PublishOutcome::NotSent(c) => r matches Err(OrbflowError::Bus(e)) && e@ == failure_text(
                "publish to "@,
                subject@,
                c@,
            ),
            PublishOutcome::StreamNotFound => r matches Err(OrbflowError::Bus(e)) && e@
                == "natsbus: stream not found for "@ + subject@,
            PublishOutcome::NotAcked(c) => r matches Err(OrbflowError::Bus(e)) && e@
                == failure_text("ack for "@, subject@, c@),
        },
{
    match outcome {
        PublishOutcome::Done => Ok(()),
        PublishOutcome::NotSent(c) => Err(bus_error("publish to ", subject, c.as_str())),
        PublishOutcome::StreamNotFound => {
            let mut e = "natsbus: stream not found for ".to_owned();
            e.append(subject);
            Err(OrbflowError::Bus(e))
        },
        PublishOutcome::NotAcked(c) => Err(bus_error("ack for ", subject, c.as_str())),
    }
}

/// The error says that the subscriber went away.
pub open spec fn is_stream_closed(error: Seq<char>) -> bool {
    text::has_part(error, "stream closed"@)
}

/// Whether a fan-out subscription goes on after a message was handled, given the
/// handler's error, if it failed: it ends where the subscriber went away.
pub fn fanout_goes_on(error: Option<&str>) -> (r: bool)
    ensures
        r == !(error matches Some(e) && is_stream_closed(e@)),
{
    match error {
        Some(e) => !text::contains_text(e, "stream closed"),
        None => true,
    }
}

/// How a work-queue message is acknowledged.
#[derive(Debug, Clone, Copy, PartialEq, Eq, Structural)]
pub enum AckStep {
    /// It is done.
    Ack,
    /// It is to be delivered again after a while.
    NakWithDelay { delay_secs: u64 },
}

/// How a work-queue message is acknowledged, given the handler's error, if it
/// failed: one that failed for another reason than that the subscriber went away
/// is delivered again.
pub fn ack_step(error: Option<&str>) -> (r: AckStep)
    ensures
        r == match error {
            Some(e) => if is_stream_closed(e@) {
                AckStep::Ack
            } else {
                AckStep::NakWithDelay { delay_secs: NAK_DELAY_SECS }
            },
            None => AckStep::Ack,
        },
{
    match error {
        Some(e) => if text::contains_text(e, "stream closed") {
            AckStep::Ack
        } else {
            AckStep::NakWithDelay { delay_secs: NAK_DELAY_SECS }
        },
        None => AckStep::Ack,
    }
}

/// How many milliseconds a consumer waits before it fetches again, given how many
/// messages it fetched, if the fetch succeeded: a second after a failed fetch, a
/// moment when idle, else not at all.
pub fn fetch_pause_millis(fetched: Option<u32>) -> (r: u64)
    ensures
        r == match fetched {
            None => 1000u64,
            Some(count) => if count == 0 {
                10u64
            } else {
                0u64
            },
        },
{
    match fetched {
        None => 1000,
        Some(count) => if count == 0 {
            10
        } else {
            0
        },
    }
}

/// A character that a durable name may hold.
pub open spec fn is_durable_char(c: char) -> bool {
    text::is_ascii_alphanumeric(c) || c == '-' || c == '_'
}

/// The durable name for any subject holds only characters that NATS accepts in
/// one.
pub proof fn law_durable_name_is_accepted(bytes: Seq<u8>)
    ensures
        forall|i: int|
            0 <= i < durable_name(bytes).len() ==> is_durable_char(
                #[trigger] durable_name(bytes)[i],
            ),
    decreases bytes.len(),
{
    if bytes.len() > 0 {
        law_durable_name_is_accepted(bytes.drop_last());
        let before = durable_name(bytes.drop_last());
        let b = bytes.last();
        let part = durable_part(b);
        assert forall|i: int| 0 <= i < part.len() implies is_durable_char(#[trigger] part[i]) by {
            reveal_strlit("_x");
            reveal_with_fuel(text::hex, 3);
            let n = b as nat;
            assert(text::hex(n, 2, true) =~= seq![
                text::hex_char((n / 16) % 16, true),
                text::hex_char(n % 16, true),
            ]);
        }
        assert forall|i: int| 0 <= i < durable_name(bytes).len() implies is_durable_char(
            #[trigger] durable_name(bytes)[i],
        ) by {
            if i < before.len() {
                assert(durable_name(bytes)[i] == before[i]);
            } else {
                assert(durable_name(bytes)[i] == part[i - before.len()]);
            }
        }
    }
}

/// The durable name of a subject made of characters of a durable name and dots
/// is the subject with `_` for each dot.
proof fn lemma_durable_of_plain(bytes: Seq<u8>)
    requires
        forall|i: int|
            0 <= i < bytes.len() ==> #[trigger] bytes[i] == 0x2e || (bytes[i] < 128
                && is_durable_char(bytes[i] as char)),
    ensures
        durable_name(bytes).len() == bytes.len(),
        forall|i: int|
            0 <= i < bytes.len() ==> #[trigger] durable_name(bytes)[i] == if bytes[i] == 0x2e {
                '_'
            } else {
                bytes[i] as char
            },
    decreases bytes.len(),
{
    if bytes.len() > 0 {
        let rest = bytes.drop_last();
        assert forall|i: int| 0 <= i < rest.len() implies #[trigger] rest[i] == 0x2e || (rest[i]
            < 128 && is_durable_char(rest[i] as char)) by {
            assert(rest[i] == bytes[i]);
        }
        lemma_durable_of_plain(rest);
        assert(bytes[bytes.len() - 1] == bytes.last());
        assert forall|i: int| 0 <= i < bytes.len() implies #[trigger] durable_name(bytes)[i] == if bytes[i]
            == 0x2e {
            '_'
        } else {
            bytes[i] as char
        } by {
            if i < rest.len() {
                assert(durable_name(bytes)[i] == durable_name(rest)[i]);
            }
        }
    }
}

proof fn lemma_pool_subject_durable(head: Seq<char>, pool: Seq<char>)
    requires
        subjects::is_pool_token(pool),
        forall|i: int|
            0 <= i < head.len() ==> #[trigger] head[i] == '.' || is_durable_char(head[i]),
    ensures
        durable_name(encode_utf8(head + pool)).len() == head.len() + pool.len(),
        forall|i: int|
            0 <= i < head.len() + pool.len() ==> #[trigger] durable_name(
                encode_utf8(head + pool),
            )[i] == if (head + pool)[i] == '.' {
                '_'
            } else {
                (head + pool)[i]
            },
{
    let s = head + pool;
    assert forall|i: int| 0 <= i < s.len() implies #[trigger] s[i] == '.' || is_durable_char(
        s[i],
    ) by {
        if i < head.len() {
            assert(s[i] == head[i]);
        } else {
            assert(s[i] == pool[i - head.len()]);
            assert(subjects::is_pool_char(pool[i - head.len()]));
        }
    }
    assert(is_ascii_chars(s)) by {
        assert forall|i: int| 0 <= i < s.len() implies (#[trigger] s[i] as u32) < 128 by {}
    }
    is_ascii_chars_encode_utf8(s);
    let bytes = encode_utf8(s);
    assert forall|i: int| 0 <= i < bytes.len() implies #[trigger] bytes[i] == 0x2e || (bytes[i]
        < 128 && is_durable_char(bytes[i] as char)) by {
        assert(bytes[i] == s[i] as u8);
        assert(s[i] == '.' || is_durable_char(s[i]));
    }
    lemma_durable_of_plain(bytes);
    assert forall|i: int| 0 <= i < s.len() implies #[trigger] durable_name(bytes)[i] == if s[i]
        == '.' {
        '_'
    } else {
        s[i]
    } by {
        assert(bytes[i] == s[i] as u8);
    }
}

/// Worker pools whose names are valid tokens share no consumer: the task subjects
/// of two pools have the same durable name only where the pools are the same, and
/// so have the result subjects.
pub proof fn law_pool_consumers_are_distinct(a: Seq<char>, b: Seq<char>)
    requires
        subjects::is_pool_token(a),
        subjects::is_pool_token(b),
    ensures
        durable_name(encode_utf8(subjects::task_subject_text(a))) == durable_name(
            encode_utf8(subjects::task_subject_text(b)),
        ) ==> a == b,
        durable_name(encode_utf8(subjects::result_subject_text(a))) == durable_name(
            encode_utf8(subjects::result_subject_text(b)),
        ) ==> a == b,
{
    reveal_strlit("orbflow");
    reveal_strlit(".tasks.");
    reveal_strlit(".results.");
    lemma_same_durable_same_pool(SUBJECT_PREFIX@ + ".tasks."@, a, b);
    lemma_same_durable_same_pool(SUBJECT_PREFIX@ + ".results."@, a, b);
}

proof fn lemma_same_durable_same_pool(head: Seq<char>, a: Seq<char>, b: Seq<char>)
    requires
        subjects::is_pool_token(a),
        subjects::is_pool_token(b),
        forall|i: int|
            0 <= i < head.len() ==> #[trigger] head[i] == '.' || is_durable_char(head[i]),
    ensures
        durable_name(encode_utf8(head + a)) == durable_name(encode_utf8(head + b)) ==> a == b,
{
    let da = durable_name(encode_utf8(head + a));
    let db = durable_name(encode_utf8(head + b));
    if da == db {
        lemma_pool_subject_durable(head, a);
        lemma_pool_subject_durable(head, b);
        assert forall|i: int| 0 <= i < a.len() implies a[i] == b[i] by {
            let k = head.len() + i;
            assert(da[k] == db[k]);
            assert((head + a)[k] == a[i]);
            assert((head + b)[k] == b[i]);
            assert(subjects::is_pool_char(a[i]));
            assert(subjects::is_pool_char(b[i]));
        }
        assert(a =~= b);
    }
}

/// Stream chunks and plugin reloads are fanned out; tasks and results of every
/// pool go through the work queue.
pub proof fn law_subjects_are_routed(
    instance_id: Seq<char>,
    node_id: Seq<char>,
    pool: Seq<char>,
)
    ensures
        is_fanout(SUBJECT_PREFIX@ + ".stream."@ + instance_id + "."@ + node_id),
        is_fanout(SUBJECT_PREFIX@ + ".worker.reload-plugins"@),
        !is_fanout(subjects::task_subject_text(pool)),
        !is_fanout(subjects::result_subject_text(pool)),
{
    reveal_strlit("orbflow");
    reveal_strlit(".stream.");
    reveal_strlit(".tasks.");
    reveal_strlit(".results.");
    reveal_strlit("orbflow.stream.");
    reveal_strlit(".worker.reload-plugins");
    reveal_strlit("orbflow.worker.reload-plugins");
    let chunk = SUBJECT_PREFIX@ + ".stream."@ + instance_id + "."@ + node_id;
    assert(chunk.take(15) =~= STREAM_SUBJECT_PREFIX@);
    assert(SUBJECT_PREFIX@ + ".worker.reload-plugins"@ =~= PLUGIN_RELOAD_SUBJECT@);
    let task = subjects::task_subject_text(pool);
    assert(task[8] == 't');
    assert(STREAM_SUBJECT_PREFIX@[8] == 's');
    assert(PLUGIN_RELOAD_SUBJECT@[8] == 'w');
    if is_stream(task) {
        assert(task.take(15)[8] == task[8]);
    }
    let result = subjects::result_subject_text(pool);
    assert(result[8] == 'r');
    if is_stream(result) {
        assert(result.take(15)[8] == result[8]);
    }
}

/// The pattern, which ends in a `*` that stands for one token, takes the subject.
pub open spec fn takes_subject(pattern: Seq<char>, subject: Seq<char>) -> bool {
    let head = pattern.drop_last();
    let token = subject.skip(head.len() as int);
    text::has_prefix(subject, head) && token.len() > 0 && !token.contains('.')
}

/// The work-queue stream takes the task and the result subject of every pool whose
/// name is a valid token.
pub proof fn law_stream_takes_pool_subjects(pool: Seq<char>)
    requires
        subjects::is_pool_token(pool),
    ensures
        takes_subject(work_queue_subjects()[0], subjects::task_subject_text(pool)),
        takes_subject(work_queue_subjects()[1], subjects::result_subject_text(pool)),
{
    reveal_strlit(".tasks.");
    reveal_strlit(".tasks.*");
    reveal_strlit(".results.");
    reveal_strlit(".results.*");
    assert forall|i: int| 0 <= i < pool.len() implies pool[i] != '.' by {
        assert(subjects::is_pool_char(pool[i]));
    }
    let tasks = SUBJECT_PREFIX@ + ".tasks."@;
    assert(work_queue_subjects()[0].drop_last() =~= tasks);
    assert(subjects::task_subject_text(pool).take(tasks.len() as int) =~= tasks);
    assert(subjects::task_subject_text(pool).skip(tasks.len() as int) =~= pool);
    let results = SUBJECT_PREFIX@ + ".results."@;
    assert(work_queue_subjects()[1].drop_last() =~= results);
    assert(subjects::result_subject_text(pool).take(results.len() as int) =~= results);
    assert(subjects::result_subject_text(pool).skip(results.len() as int) =~= pool);
}

/// What a stream on the server is set to.
pub struct StreamModel {
    pub subjects: Seq<Seq<char>>,
    pub retention: Retention,
    pub max_age_secs: u64,
}

/// What the stream is set to once it was set up with the settings, where
/// `present` was there before.
pub open spec fn set_up(present: Option<StreamModel>, settings: StreamSettings) -> StreamModel {
    match (present, settings.if_present) {
        (Some(there), IfPresent::Keep) => there,
        _ => StreamModel {
            subjects: text::texts(settings.subjects@),
            retention: settings.retention,
            max_age_secs: settings.max_age_secs,
        },
    }
}

/// Whatever stream of the name was there, a connection leaves a work queue for the
/// tasks and results that keeps a message for a day.
pub proof fn law_connecting_sets_the_stream_up(
    r: Result<ConnectPlan, OrbflowError>,
    url: Seq<char>,
    require_tls: bool,
    ack_wait: WaitTime,
    max_ack_pending: i64,
    is_loopback_ip: bool,
    present: Option<StreamModel>,
)
    requires
        connects_or_refuses(r, url, require_tls, ack_wait, max_ack_pending, is_loopback_ip),
    ensures
        r matches Ok(plan) ==> plan.stream.name@ == STREAM_NAME@ && set_up(present, plan.stream) == (
        StreamModel {
            subjects: work_queue_subjects(),
            retention: Retention::WorkQueue,
            max_age_secs: STREAM_MAX_AGE_SECS,
        }),
{
}

/// With TLS required, only a URL that asks for TLS is connected to, and such a
/// connection is never insecure.
pub proof fn law_required_tls_is_enforced(
    r: Result<ConnectPlan, OrbflowError>,
    url: Seq<char>,
    ack_wait: WaitTime,
    max_ack_pending: i64,
    is_loopback_ip: bool,
)
    requires
        connects_or_refuses(r, url, true, ack_wait, max_ack_pending, is_loopback_ip),
    ensures
        r is Ok <==> is_tls_url(url),
        r matches Ok(plan) ==> !plan.insecure,
{
}

/// A NATS URL is read as its scheme in small letters and its host: what stands
/// before `://`, and what stands behind that and behind the credentials, up to a
/// port, a path, a query or a fragment.
pub proof fn law_nats_urls_are_read(
    scheme: Seq<char>,
    credentials: Seq<char>,
    host: Seq<char>,
    tail: Seq<char>,
)
    requires
        scheme.len() > 0,
        !scheme.contains(':'),
        credentials.len() > 0 ==> credentials.last() == '@',
        forall|i: int| 0 <= i < credentials.len() ==> !"/?#"@.contains(#[trigger] credentials[i]),
        host.len() > 0,
        forall|i: int|
            0 <= i < host.len() ==> !"/?#"@.contains(#[trigger] host[i]) && host[i] != '@'
                && host[i] != ':' && host[i] != '[',
        tail.len() > 0 ==> tail[0] == ':' || "/?#"@.contains(tail[0]),
        !tail.contains('@'),
    ensures
        nats_url_parts(scheme + "://"@ + credentials + host + tail) == Some(
            (text::ascii_lowercase(scheme), host),
        ),
{
    reveal_strlit("://");
    reveal_strlit("/?#");
    reveal_strlit(":");
    let url = scheme + "://"@ + credentials + host + tail;
    let rest = credentials + host + tail;
    let at = scheme.len() as int;
    assert forall|j: int| 0 <= j < at implies !text::has_prefix(
        #[trigger] url.skip(j),
        "://"@,
    ) by {
        assert(url.skip(j)[0] == scheme[j]);
        assert(scheme[j] != ':');
        if text::has_prefix(url.skip(j), "://"@) {
            assert(url.skip(j).take(3)[0] == url.skip(j)[0]);
        }
    }
    assert(url.skip(at).take(3) =~= "://"@);
    text::law_text_is_split_where_the_separator_first_stands(url, "://"@, at);
    assert(url.take(at) =~= scheme);
    assert(url.skip(at + 3) =~= rest);
    lemma_authority_ends(credentials, host, tail);
    let authority = match text::before_first_of(rest, "/?#"@) {
        Some(a) => a,
        None => rest,
    };
    let port = authority.skip((credentials.len() + host.len()) as int);
    lemma_host_is_found(credentials, host, port);
    assert(authority =~= credentials + host + port);
}

proof fn lemma_authority_ends(credentials: Seq<char>, host: Seq<char>, tail: Seq<char>)
    requires
        forall|i: int| 0 <= i < credentials.len() ==> !"/?#"@.contains(#[trigger] credentials[i]),
        forall|i: int| 0 <= i < host.len() ==> !"/?#"@.contains(#[trigger] host[i]),
        tail.len() > 0 ==> tail[0] == ':' || "/?#"@.contains(tail[0]),
        !tail.contains('@'),
    ensures
        ({
            let rest = credentials + host + tail;
            let authority = match text::before_first_of(rest, "/?#"@) {
                Some(a) => a,
                None => rest,
            };
            let plain = (credentials.len() + host.len()) as int;
            &&& authority.len() >= plain
            &&& authority.take(plain) == credentials + host
            &&& authority.len() > plain ==> authority[plain] == ':'
            &&& !authority.skip(plain).contains('@')
        }),
{
    let rest = credentials + host + tail;
    let plain = (credentials.len() + host.len()) as int;
    let end = lemma_first_wanted(tail, "/?#"@);
    assert forall|j: int| 0 <= j < plain + end implies !"/?#"@.contains(#[trigger] rest[j]) by {
        if j < credentials.len() {
            assert(rest[j] == credentials[j]);
        } else if j < plain {
            assert(rest[j] == host[j - credentials.len()]);
        } else {
            assert(rest[j] == tail[j - plain]);
        }
    }
    text::law_text_is_cut_before_what_is_wanted(rest, "/?#"@, plain + end);
    if end < tail.len() {
        assert(rest[plain + end] == tail[end]);
    }
    let authority = rest.take(plain + end);
    assert(rest.take(rest.len() as int) =~= rest);
    assert(authority.take(plain) =~= credentials + host);
    assert(authority.skip(plain) =~= tail.take(end));
    if tail.take(end).contains('@') {
        let i = choose|i: int| 0 <= i < tail.take(end).len() && tail.take(end)[i] == '@';
        assert(tail[i] == '@');
    }
    if end > 0 {
        assert(authority[plain] == tail[0]);
        assert(!"/?#"@.contains(tail[0]));
    }
}

proof fn lemma_first_wanted(s: Seq<char>, wanted: Seq<char>) -> (at: int)
    ensures
        0 <= at <= s.len(),
        at < s.len() ==> wanted.contains(s[at]),
        forall|j: int| 0 <= j < at ==> !wanted.contains(#[trigger] s[j]),
    decreases s.len(),
{
    if s.len() == 0 || wanted.contains(s[0]) {
        0
    } else {
        let rest = s.drop_first();
        let k = lemma_first_wanted(rest, wanted);
        assert forall|j: int| 0 <= j < k + 1 implies !wanted.contains(#[trigger] s[j]) by {
            if j > 0 {
                assert(rest[j - 1] == s[j]);
            }
        }
        if k < rest.len() {
            assert(rest[k] == s[k + 1]);
        }
        k + 1
    }
}

proof fn lemma_host_is_found(credentials: Seq<char>, host: Seq<char>, port: Seq<char>)
    requires
        credentials.len() > 0 ==> credentials.last() == '@',
        host.len() > 0,
        forall|i: int|
            0 <= i < host.len() ==> (#[trigger] host[i]) != '@' && host[i] != ':' && host[i] != '[',
        port.len() > 0 ==> port[0] == ':',
        !port.contains('@'),
    ensures
        authority_host(credentials + host + port) == Some(host),
{
    reveal_strlit(":");
    let behind = host + port;
    assert(!behind.contains('@')) by {
        if behind.contains('@') {
            let i = choose|i: int| 0 <= i < behind.len() && behind[i] == '@';
            if i < host.len() {
                assert(host[i] == '@');
            } else {
                assert(port[i - host.len()] == '@');
            }
        }
    }
    if credentials.len() > 0 {
        let before = credentials.drop_last();
        text::law_text_behind_the_last(before, behind, '@');
        assert(before.push('@') =~= credentials);
        assert(credentials + behind =~= credentials + host + port);
    } else {
        text::law_text_behind_the_last(Seq::empty(), behind, '@');
        assert(credentials + host + port =~= behind);
    }
    assert(behind[0] == host[0]);
    assert(":"@.contains(':')) by {
        assert(":"@[0] == ':');
    }
    assert forall|j: int| 0 <= j < host.len() implies !":"@.contains(#[trigger] behind[j]) by {
        assert(behind[j] == host[j]);
    }
    text::law_text_is_cut_before_what_is_wanted(behind, ":"@, host.len() as int);
    if port.len() > 0 {
        assert(behind[host.len() as int] == port[0]);
        assert(behind.take(host.len() as int) =~= host);
    } else {
        assert(behind =~= host);
    }
}

/// A URL asks for TLS exactly where its scheme is `tls`, and is of this machine
/// exactly where its host is `localhost` in any case or a loopback address.
pub proof fn law_urls_tell_security(url: Seq<char>, is_loopback_ip: bool)
    ensures
        ({
            let parts = nats_url_parts(url)->0;
            &&& is_tls_url(url) <==> nats_url_parts(url) is Some && parts.0 == "tls"@
            &&& is_loopback_url(url, is_loopback_ip) <==> nats_url_parts(url) is Some && (
            is_loopback_ip || text::ascii_lowercase(parts.1) == "localhost"@)
        }),
{
    reveal_strlit("localhost");
    assert(text::ascii_lowercase("localhost"@) =~= "localhost"@);
}

/// A connection has the settings that it was asked for: at least one message
/// unacknowledged, and a wait of 330 seconds where none was asked for. It is
/// insecure exactly where it is neither encrypted nor to this machine.
pub proof fn law_connections_have_their_settings(
    r: Result<ConnectPlan, OrbflowError>,
    url: Seq<char>,
    require_tls: bool,
    ack_wait: WaitTime,
    max_ack_pending: i64,
    is_loopback_ip: bool,
)
    requires
        connects_or_refuses(r, url, require_tls, ack_wait, max_ack_pending, is_loopback_ip),
    ensures
        r is Ok <==> !require_tls || is_tls_url(url),
        r is Err ==> r->Err_0 is Bus && r->Err_0->Bus_0@
            == "NATS require_tls is enabled but URL does not use TLS"@,
        r matches Ok(plan) ==> {
            &&& ack_wait.secs == 0 && ack_wait.nanos == 0 ==> plan.bus.consumer_ack_wait.secs == 330
                && plan.bus.consumer_ack_wait.nanos == 0
            &&& ack_wait.secs != 0 || ack_wait.nanos != 0 ==> plan.bus.consumer_ack_wait == ack_wait
            &&& max_ack_pending >= 1 ==> plan.bus.consumer_max_ack_pending == max_ack_pending
            &&& max_ack_pending < 1 ==> plan.bus.consumer_max_ack_pending == 1
            &&& plan.bus.stream_available
            &&& plan.insecure <==> !is_tls_url(url) && !is_loopback_url(url, is_loopback_ip)
            &&& plan.stream.name@ == "ORBFLOW"@
            &&& plan.stream.subjects@.len() == 2
            &&& plan.stream.subjects@[0]@ == "orbflow"@ + ".tasks.*"@
            &&& plan.stream.subjects@[1]@ == "orbflow"@ + ".results.*"@
            &&& plan.stream.retention == Retention::WorkQueue
            &&& plan.stream.max_age_secs == 86_400
            &&& plan.stream.if_present == IfPresent::Update
        },
{
    if let Ok(plan) = r {
        text::law_texts_are_modelled_one_by_one(plan.stream.subjects@, plan.stream.name);
        assert(text::texts(plan.stream.subjects@)[0] == work_queue_subjects()[0]);
        assert(text::texts(plan.stream.subjects@)[1] == work_queue_subjects()[1]);
    }
}

/// Only stream chunks and the reload of plugins are fanned out.
pub proof fn law_only_chunks_and_reloads_are_fanned_out(subject: Seq<char>, rest: Seq<char>)
    ensures
        is_fanout("orbflow.stream."@ + rest),
        is_fanout("orbflow.worker.reload-plugins"@),
        is_fanout(subject) ==> subject == "orbflow.worker.reload-plugins"@ || subject
            == "orbflow.stream."@ + subject.skip(15),
{
    reveal_strlit("orbflow.stream.");
    text::lemma_prefix_cut_off("orbflow.stream."@, rest);
    text::law_prefix_is_what_comes_first(subject, "orbflow.stream."@, rest);
}

/// A durable name takes in one byte after the other: a dot as an underscore, a
/// letter, digit, hyphen or underscore as itself, and any other byte as `_x` and its
/// two hexadecimal digits.
pub proof fn law_durable_names_take_in_each_byte(bytes: Seq<u8>, b: u8)
    ensures
        durable_name(Seq::<u8>::empty()).len() == 0,
        b == 0x2e ==> durable_name(bytes.push(b)) == durable_name(bytes).push('_'),
        is_durable_char(b as char) && b < 128 ==> durable_name(bytes.push(b)) == durable_name(
            bytes,
        ).push(b as char),
        b != 0x2e && (b >= 128 || !is_durable_char(b as char)) ==> durable_name(bytes.push(b))
            == durable_name(bytes) + "_x"@ + seq![
            text::hex_char(b as nat / 16, true),
            text::hex_char(b as nat % 16, true),
        ],
{
    assert(bytes.push(b).drop_last() =~= bytes);
    text::law_two_hex_digits(b, true);
    let before = durable_name(bytes);
    if b == 0x2e {
        assert(before + seq!['_'] =~= before.push('_'));
    } else if b < 128 && is_durable_char(b as char) {
        assert(before + seq![b as char] =~= before.push(b as char));
    } else {
        let digits = text::hex(b as nat, 2, true);
        assert(before + ("_x"@ + digits) =~= before + "_x"@ + digits);
    }
}

/// An error says that the subscriber went away exactly where it holds those words.
pub proof fn law_closed_streams_are_told(before: Seq<char>, behind: Seq<char>, error: Seq<char>)
    ensures
        is_stream_closed(before + "stream closed"@ + behind),
        is_stream_closed(error) ==> exists|i: int|
            0 <= i && i + 13 <= error.len() && "stream closed"@ == #[trigger] error.subrange(
                i,
                i + 13,
            ),
{
    reveal_strlit("stream closed");
    text::law_part_stands_inside(before, "stream closed"@, behind);
    if is_stream_closed(error) {
        text::law_contained_text_stands_somewhere(error, "stream closed"@);
    }
}

/// A failure names what was done, to what, and the cause.
pub proof fn law_failures_name_the_cause(what: Seq<char>, name: Seq<char>, cause: Seq<char>)
    ensures
        failure_text(what, name, cause) == "natsbus: "@ + what + name + ": "@ + cause,
{
}

/// A host that stands in brackets is what stands between them.
pub proof fn law_bracketed_hosts_are_read(
    credentials: Seq<char>,
    host: Seq<char>,
    port: Seq<char>,
)
    requires
        credentials.len() > 0 ==> credentials.last() == '@',
        !host.contains('@'),
        !host.contains(']'),
        !port.contains('@'),
    ensures
        authority_host(credentials + seq!['['] + host + seq![']'] + port) == Some(host),
{
    reveal_strlit("]");
    let behind = seq!['['] + host + seq![']'] + port;
    assert(!behind.contains('@')) by {
        if behind.contains('@') {
            let i = choose|i: int| 0 <= i < behind.len() && behind[i] == '@';
            if 1 <= i < 1 + host.len() {
                assert(host[i - 1] == '@');
            } else if i >= 2 + host.len() {
                assert(port[i - 2 - host.len()] == '@');
            }
        }
    }
    let authority = credentials + seq!['['] + host + seq![']'] + port;
    if credentials.len() > 0 {
        let before = credentials.drop_last();
        text::law_text_behind_the_last(before, behind, '@');
        assert(before.push('@') =~= credentials);
        assert(credentials + behind =~= authority);
    } else {
        text::law_text_behind_the_last(Seq::empty(), behind, '@');
        assert(authority =~= behind);
    }
    let inner = behind.drop_first();
    assert(inner =~= host + seq![']'] + port);
    assert forall|j: int| 0 <= j < host.len() implies !"]"@.contains(#[trigger] inner[j]) by {
        assert(inner[j] == host[j]);
        if "]"@.contains(inner[j]) {
            assert(inner[j] == ']');
            assert(host.contains(']'));
        }
    }
    assert("]"@[0] == ']');
    assert(inner[host.len() as int] == ']');
    text::law_text_is_cut_before_what_is_wanted(inner, "]"@, host.len() as int);
    assert(inner.take(host.len() as int) =~= host);
}

/// A URL without `://` is none, and so is one without a scheme.
pub proof fn law_urls_need_a_scheme(url: Seq<char>, rest: Seq<char>)
    ensures
        (forall|j: int| 0 <= j <= url.len() ==> !text::has_prefix(#[trigger] url.skip(j), "://"@))
            ==> nats_url_parts(url) is None,
        nats_url_parts("://"@ + rest) is None,
{
    if forall|j: int| 0 <= j <= url.len() ==> !text::has_prefix(#[trigger] url.skip(j), "://"@) {
        assert(!text::has_prefix(url.skip(url.len() as int), "://"@));
        text::law_text_is_split_where_the_separator_first_stands(url, "://"@, url.len() as int);
    }
    text::lemma_prefix_cut_off("://"@, rest);
}

} // verus!
