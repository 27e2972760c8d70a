//! Decisions of the MQTT service: how the connection is set up, what is
//! subscribed, and what each event of the connection's event loop leads to.

use vstd::prelude::*;

verus! {

/// Seconds between keep-alive pings to the broker.
pub const MQTT_KEEP_ALIVE_SECS: u64 = 5;

/// Capacity of the request queue to the broker and of the queue of incoming
/// messages.
pub const MQTT_CHANNEL_CAPACITY: usize = 10;

/// Delivery guarantees of MQTT.
#[derive(Debug, Clone, Copy, PartialEq, Eq, Structural)]
pub enum QualityOfService {
    AtMostOnce,
    AtLeastOnce,
    ExactlyOnce,
}

/// A subscription to one topic.
#[derive(Debug, Clone, PartialEq)]
pub struct TopicSubscription {
    pub topic: String,
    pub qos: QualityOfService,
}

/// The subscriptions made for `topics`: one per topic, in order, each at
/// most once.
pub fn subscription_filters(topics: &Vec<String>) -> (r: Vec<TopicSubscription>)
    ensures
        r@.len() == topics@.len(),
        forall|i: int|
            0 <= i < topics@.len() ==> (#[trigger] r@[i]).topic@ == topics@[i]@ && r@[i].qos
                == QualityOfService::AtMostOnce,
{
    let mut r: Vec<TopicSubscription> = Vec::new();
    for i in 0..topics.len()
        invariant
            r@.len() == i,
            forall|j: int|
                0 <= j < i ==> (#[trigger] r@[j]).topic@ == topics@[j]@ && r@[j].qos
                    == QualityOfService::AtMostOnce,
    {
        r.push(TopicSubscription { topic: topics[i].clone(), qos: QualityOfService::AtMostOnce });
    }
    r
}

/// A subscription as a mathematical value: the topic and its quality of
/// service.
pub struct SubscriptionModel {
    pub topic: Seq<char>,
    pub qos: QualityOfService,
}

impl View for TopicSubscription {
    type V = SubscriptionModel;

    open spec fn view(&self) -> SubscriptionModel {
        SubscriptionModel { topic: self.topic@, qos: self.qos }
    }
}

/// The views of a list of subscriptions.
pub open spec fn subscriptions_view(v: Seq<TopicSubscription>) -> Seq<SubscriptionModel> {
    v.map_values(|s: TopicSubscription| s@)
}

/// The subscriptions made for the topics `topics`: one per topic, in order,
/// each at most once.
pub open spec fn filters_spec(topics: Seq<String>) -> Seq<SubscriptionModel> {
    topics.map_values(|t: String| SubscriptionModel { topic: t@, qos: QualityOfService::AtMostOnce })
}

/// A subscriber made from `topics` subscribes once per topic, in the order
/// given, each at most once: nothing is left out, added or reordered.
pub proof fn lemma_filters_cover_topics(topics: Seq<String>)
    ensures
        filters_spec(topics).len() == topics.len(),
        forall|i: int|
            0 <= i < topics.len() ==> (#[trigger] filters_spec(topics)[i]).topic == topics[i]@
                && filters_spec(topics)[i].qos == QualityOfService::AtMostOnce,
{
}

/// What the connection's event loop reported; an incoming message carries
/// its packet `P`.
#[derive(Debug, Clone, PartialEq)]
pub enum EventLoopEvent<P> {
    /// A message arrived on a subscribed topic.
    IncomingPublish(P),
    /// The broker acknowledged a (re)connection.
    IncomingConnAck,
    /// Any other packet arrived.
    OtherIncoming,
    /// A packet was sent.
    Outgoing,
    /// Polling the connection failed.
    PollError,
}

/// What the service does next.
#[derive(Debug, Clone, PartialEq)]
pub enum EventLoopAction<P> {
    /// Pass the message on to the receiver of incoming messages.
    ForwardMessage(P),
    /// Subscribe to these topics.
    Subscribe(Vec<TopicSubscription>),
    /// Report the polling error and keep polling.
    ReportError,
    /// Keep polling.
    KeepPolling,
}

/// An action as a mathematical value.
pub enum ActionModel<P> {
    ForwardMessage(P),
    Subscribe(Seq<SubscriptionModel>),
    ReportError,
    KeepPolling,
}

impl<P> View for EventLoopAction<P> {
    type V = ActionModel<P>;

    open spec fn view(&self) -> ActionModel<P> {
        match self {
            EventLoopAction::ForwardMessage(p) => ActionModel::ForwardMessage(*p),
            EventLoopAction::Subscribe(v) => ActionModel::Subscribe(subscriptions_view(v@)),
            EventLoopAction::ReportError => ActionModel::ReportError,
            EventLoopAction::KeepPolling => ActionModel::KeepPolling,
        }
    }
}

/// What a service that has subscribed with `filters` does about `event`: it
/// forwards each incoming message, subscribes again after every
/// (re)connection, reports polling errors, and otherwise keeps polling.
pub open spec fn subscriber_step<P>(
    filters: Seq<SubscriptionModel>,
    event: EventLoopEvent<P>,
) -> ActionModel<P> {
    match event {
        EventLoopEvent::IncomingPublish(p) => ActionModel::ForwardMessage(p),
        EventLoopEvent::IncomingConnAck => ActionModel::Subscribe(filters),
        EventLoopEvent::PollError => ActionModel::ReportError,
        _ => ActionModel::KeepPolling,
    }
}

/// Everything a service subscribed with `filters` does when its event loop
/// reports `events`: it subscribes first, then acts on each event in turn.
pub open spec fn subscriber_run<P>(
    filters: Seq<SubscriptionModel>,
    events: Seq<EventLoopEvent<P>>,
) -> Seq<ActionModel<P>>
    decreases events.len(),
{
    if events.len() == 0 {
        seq![ActionModel::Subscribe(filters)]
    } else {
        subscriber_run(filters, events.drop_last()).push(subscriber_step(filters, events.last()))
    }
}

/// The packets of the incoming messages among `events`, in order.
pub open spec fn published<P>(events: Seq<EventLoopEvent<P>>) -> Seq<P>
    decreases events.len(),
{
    if events.len() == 0 {
        Seq::empty()
    } else {
        match events.last() {
            EventLoopEvent::IncomingPublish(p) => published(events.drop_last()).push(p),
            _ => published(events.drop_last()),
        }
    }
}

/// How many (re)connections `events` report.
pub open spec fn connections<P>(events: Seq<EventLoopEvent<P>>) -> nat
    decreases events.len(),
{
    if events.len() == 0 {
        0
    } else {
        match events.last() {
            EventLoopEvent::IncomingConnAck => connections(events.drop_last()) + 1,
            _ => connections(events.drop_last()),
        }
    }
}

/// The packets that `actions` forward, in order.
pub open spec fn forwarded<P>(actions: Seq<ActionModel<P>>) -> Seq<P>
    decreases actions.len(),
{
    if actions.len() == 0 {
        Seq::empty()
    } else {
        match actions.last() {
            ActionModel::ForwardMessage(p) => forwarded(actions.drop_last()).push(p),
            _ => forwarded(actions.drop_last()),
        }
    }
}

/// How many subscriptions `actions` make.
pub open spec fn subscriptions_made<P>(actions: Seq<ActionModel<P>>) -> nat
    decreases actions.len(),
{
    if actions.len() == 0 {
        0
    } else {
        match actions.last() {
            ActionModel::Subscribe(_) => subscriptions_made(actions.drop_last()) + 1,
            _ => subscriptions_made(actions.drop_last()),
        }
    }
}

/// A subscribed service forwards exactly the incoming messages, each once,
/// in the order they arrive; it subscribes once at the start and once more
/// after every (re)connection, always to the same topics.
pub proof fn lemma_subscriber_forwards_and_resubscribes<P>(
    filters: Seq<SubscriptionModel>,
    events: Seq<EventLoopEvent<P>>,
)
    ensures
        subscriber_run(filters, events).len() == events.len() + 1,
        forwarded(subscriber_run(filters, events)) == published(events),
        subscriptions_made(subscriber_run(filters, events)) == 1 + connections(events),
        forall|i: int|
            0 <= i < subscriber_run(filters, events).len() ==> (#[trigger] subscriber_run(
                filters,
                events,
            )[i] matches ActionModel::Subscribe(f) ==> f == filters),
    decreases events.len(),
{
    let run = subscriber_run(filters, events);
    if events.len() == 0 {
        assert(run.drop_last() =~= Seq::<ActionModel<P>>::empty());
        assert(forwarded(run.drop_last()) == Seq::<P>::empty());
        assert(subscriptions_made(run.drop_last()) == 0);
    } else {
        let prev = events.drop_last();
        lemma_subscriber_forwards_and_resubscribes(filters, prev);
        assert(run.drop_last() =~= subscriber_run(filters, prev));
        assert(run.last() == subscriber_step(filters, events.last()));
        match events.last() {
            EventLoopEvent::IncomingPublish(p) => {
                assert(forwarded(run) == forwarded(run.drop_last()).push(p));
            },
            EventLoopEvent::IncomingConnAck => {
                assert(subscriptions_made(run) == subscriptions_made(run.drop_last()) + 1);
            },
            _ => {},
        }
        assert forall|i: int| 0 <= i < run.len() implies (#[trigger] run[i] matches ActionModel::Subscribe(
            f,
        ) ==> f == filters) by {
            if i < run.len() - 1 {
                assert(run[i] == subscriber_run(filters, prev)[i]);
            }
        }
    }
}

/// The subscriptions of a service, and its decisions.
pub struct Subscriber {
    filters: Vec<TopicSubscription>,
}

impl View for Subscriber {
    type V = Seq<SubscriptionModel>;

    closed spec fn view(&self) -> Seq<SubscriptionModel> {
        subscriptions_view(self.filters@)
    }
}

fn copy_subscriptions(v: &Vec<TopicSubscription>) -> (r: Vec<TopicSubscription>)
    ensures
        subscriptions_view(r@) == subscriptions_view(v@),
{
    let mut r: Vec<TopicSubscription> = Vec::new();
    for i in 0..v.len()
        invariant
            r@.len() == i,
            forall|j: int| 0 <= j < i ==> #[trigger] r@[j]@ == v@[j]@,
    {
        r.push(TopicSubscription { topic: v[i].topic.clone(), qos: v[i].qos });
    }
    assert(subscriptions_view(r@) =~= subscriptions_view(v@));
    r
}

impl Subscriber {
    /// A service that subscribes to `topics`.
    pub fn new(topics: &Vec<String>) -> (s: Subscriber)
        ensures
            s@ == filters_spec(topics@),
            s@.len() == topics@.len(),
            forall|i: int|
                0 <= i < topics@.len() ==> (#[trigger] s@[i]).topic == topics@[i]@ && s@[i].qos
                    == QualityOfService::AtMostOnce,
    {
        let filters = subscription_filters(topics);
        let s = Subscriber { filters };
        assert(s@ =~= filters_spec(topics@));
        s
    }

    /// What the service does first: subscribe to its topics.
    pub fn on_start<P>(&self) -> (r: EventLoopAction<P>)
        ensures
            r@ == ActionModel::<P>::Subscribe(self@),
            r@ == subscriber_run::<P>(self@, Seq::empty())[0],
    {
        EventLoopAction::Subscribe(copy_subscriptions(&self.filters))
    }

    /// What the service does about `event`.
    pub fn on_event<P>(&self, event: EventLoopEvent<P>) -> (r: EventLoopAction<P>)
        ensures
            r@ == subscriber_step(self@, event),
    {
        match event {
            EventLoopEvent::IncomingPublish(p) => EventLoopAction::ForwardMessage(p),
            EventLoopEvent::IncomingConnAck => EventLoopAction::Subscribe(
                copy_subscriptions(&self.filters),
            ),
            EventLoopEvent::PollError => EventLoopAction::ReportError,
            _ => EventLoopAction::KeepPolling,
        }
    }
}

/// Whether a service without subscriptions reports `event`: it reports
/// polling errors and otherwise keeps polling.
pub fn reports_polling_error<P>(event: &EventLoopEvent<P>) -> (r: bool)
    ensures
        r == (*event is PollError),
{
    match event {
        EventLoopEvent::PollError => true,
        _ => false,
    }
}

} // verus!
