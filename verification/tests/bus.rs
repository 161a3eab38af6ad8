use orbflow::error::OrbflowError;
use orbflow::natsbus::{
    ack_step, durable_name_for_subject, fanout_goes_on, fetch_pause_millis, is_fanout_subject,
    is_stream_subject, parse_nats_url, publish_result, work_error, AckPolicy, AckStep, BusWork,
    DeliverPolicy, IfPresent, NatsBus, PublishOutcome, PublishRoute, Retention, SubscribePlan,
    WaitTime,
};
use orbflow::subjects::{plugin_reload_subject, stream_subject, task_subject};

fn bus_error<T: std::fmt::Debug>(r: Result<T, OrbflowError>) -> String {
    match r {
        Err(OrbflowError::Bus(e)) => e,
        other => panic!("expected a bus error, got {other:?}"),
    }
}

#[test]
fn nats_urls_are_taken_apart() {
    let parts = |url: &str| parse_nats_url(url).map(|p| (p.scheme, p.host));
    let some = |scheme: &str, host: &str| Some((scheme.to_owned(), host.to_owned()));
    assert_eq!(parts("NATS://u:p@ss@host:4222/x?y#z"), some("nats", "host"));
    assert_eq!(parts("tls://[::1]:4222"), some("tls", "::1"));
    assert_eq!(parts("nats://h?q@x"), some("nats", "h"));
    assert_eq!(parts("nats://h"), some("nats", "h"));
    assert_eq!(parts("host:4222"), None);
    assert_eq!(parts("://h"), None);
    assert_eq!(parts("nats://:4222"), None);
    assert_eq!(parts("nats://[::1"), None);
}

#[test]
fn required_tls_is_enforced() {
    let wait = WaitTime { secs: 0, nanos: 0 };
    let connect = |url: &str, tls: bool, ip: bool| {
        NatsBus::connect_with_consumer_options(url, tls, wait, 0, ip)
    };
    assert_eq!(
        bus_error(connect("nats://h", true, false)),
        "NATS require_tls is enabled but URL does not use TLS"
    );
    let plan = connect("TLS://h", true, false).unwrap();
    assert!(!plan.insecure);
    assert_eq!(plan.bus.consumer_ack_wait, WaitTime { secs: 330, nanos: 0 });
    assert_eq!(plan.bus.consumer_max_ack_pending, 1);
    let stream = plan.stream;
    assert_eq!(stream.subjects, ["orbflow.tasks.*", "orbflow.results.*"]);
    assert_eq!((stream.name.as_str(), stream.max_age_secs), ("ORBFLOW", 86_400));
    assert_eq!(stream.retention, Retention::WorkQueue);
    assert_eq!(stream.if_present, IfPresent::Update);
    assert!(connect("nats://h", false, false).unwrap().insecure);
    assert!(!connect("nats://LocalHost", false, false).unwrap().insecure);
    assert!(!connect("nats://127.0.0.1", false, true).unwrap().insecure);
    let plan = NatsBus::connect("nats://h", false).unwrap();
    assert_eq!(plan.bus.consumer_max_ack_pending, 1024);
    assert!(NatsBus::connect_with_options("nats://h", true, false).is_err());
}

#[test]
fn durable_names_are_plain() {
    assert_eq!(durable_name_for_subject("orbflow.tasks.gpu-1"), "orbflow_tasks_gpu-1");
    assert_eq!(durable_name_for_subject("a*b>é"), "a_x2Ab_x3E_xC3_xA9");
    assert_ne!(
        durable_name_for_subject(&task_subject("a")),
        durable_name_for_subject(&task_subject("b"))
    );
}

#[test]
fn subjects_are_routed() {
    let mut bus = NatsBus::connect("nats://localhost", false).unwrap().bus;
    assert!(is_stream_subject(&stream_subject("i", "n")));
    assert!(!is_stream_subject("orbflow.stream"));
    assert!(is_fanout_subject(&plugin_reload_subject()));
    assert_eq!(bus.publish(&stream_subject("i", "n")), PublishRoute::Fanout);
    assert_eq!(bus.publish(&task_subject("p")), PublishRoute::WorkQueue);
    assert!(matches!(bus.subscribe(&plugin_reload_subject()), Ok(SubscribePlan::Fanout)));
    match bus.subscribe("orbflow.tasks.p").unwrap() {
        SubscribePlan::Consumer(c) => {
            assert_eq!(c.durable_name, "orbflow_tasks_p");
            assert_eq!(c.filter_subject, "orbflow.tasks.p");
            assert_eq!(c.ack_policy, AckPolicy::Explicit);
            assert_eq!(c.deliver_policy, DeliverPolicy::All);
            assert_eq!(c.max_ack_pending, 1024);
            assert_eq!(c.ack_wait, WaitTime { secs: 330, nanos: 0 });
        }
        other => panic!("expected a consumer, got {other:?}"),
    }
    bus.close();
    assert_eq!(bus_error(bus.subscribe("orbflow.tasks.p")), "natsbus: stream not available");
    assert!(bus.subscribe(&plugin_reload_subject()).is_ok());
}

#[test]
fn publishing_tells_what_failed() {
    assert!(publish_result("s", PublishOutcome::Done).is_ok());
    assert_eq!(
        bus_error(publish_result("s", PublishOutcome::NotSent("e".into()))),
        "natsbus: publish to s: e"
    );
    assert_eq!(
        bus_error(publish_result("s", PublishOutcome::StreamNotFound)),
        "natsbus: stream not found for s"
    );
    assert_eq!(
        bus_error(publish_result("s", PublishOutcome::NotAcked("e".into()))),
        "natsbus: ack for s: e"
    );
}

#[test]
fn failed_work_is_named() {
    let told = |work: BusWork| bus_error::<()>(Err(work_error(&work, "e")));
    let connect = BusWork::Connect {
        url: "nats://h".into(),
    };
    assert_eq!(told(connect), "natsbus: connect to nats://h: e");
    assert_eq!(told(BusWork::CreateStream), "natsbus: create stream: e");
    let subscribe = BusWork::Subscribe { subject: "s".into() };
    assert_eq!(told(subscribe), "natsbus: subscribe s: e");
    let consumer = BusWork::CreateConsumer {
        durable_name: "d".into(),
    };
    assert_eq!(told(consumer), "natsbus: create consumer d: e");
    assert_eq!(told(BusWork::Drain), "natsbus: drain: e");
}

#[test]
fn failed_messages_come_back() {
    assert_eq!(ack_step(None), AckStep::Ack);
    assert_eq!(ack_step(Some("boom")), AckStep::NakWithDelay { delay_secs: 5 });
    assert_eq!(ack_step(Some("sse: stream closed by peer")), AckStep::Ack);
    assert!(fanout_goes_on(None) && fanout_goes_on(Some("boom")));
    assert!(!fanout_goes_on(Some("stream closed")));
    assert_eq!(fetch_pause_millis(None), 1000);
    assert_eq!(fetch_pause_millis(Some(0)), 10);
    assert_eq!(fetch_pause_millis(Some(3)), 0);
}
