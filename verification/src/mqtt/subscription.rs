//! The subscription to a printer's report topic and the policy that keeps
//! it alive.
//!
//! The manager decides; its caller acts. The caller performs the directive
//! that the manager gives, tells the manager what came of it, delivers the
//! event that the manager emits, and goes on with the next directive. The
//! manager never gives up on its own: it stops only when told that nobody
//! takes its events any more.

use vstd::prelude::*;
use crate::config::report_topic_text;
use crate::config::PrinterConfig;
use crate::messages::is_payload_of;
use crate::messages::DeviceMessage;
use crate::messages::MessageError;
use crate::text::concat2;
use crate::text::str_eq;

verus! {

/// Seconds to wait before the first attempt to connect again.
pub const RECONNECT_DELAY_SECS: u64 = 5;

/// The longest wait, in seconds, between two attempts to connect.
pub const MAX_RECONNECT_DELAY_SECS: u64 = 60;

/// The number of events that may wait for the consumer.
pub const EVENT_CHANNEL_CAPACITY: usize = 100;

/// What the subscription tells its consumer.
#[derive(Debug)]
pub enum SubscriptionEvent {
    Message(Box<DeviceMessage>),
    Connected,
    Disconnected(String),
}

/// Where the manager stands.
#[derive(Debug, Clone, Copy, PartialEq, Eq)]
pub enum Phase {
    /// A connection is being opened and the report topic subscribed.
    Connecting,
    /// The subscription stands and notifications are polled.
    Subscribed,
    /// The manager waits before it connects again.
    Backoff,
    /// Nobody takes events any more.
    Stopped,
}

/// What happened outside the manager.
#[derive(Debug)]
pub enum TransportEvent {
    /// The connection is open and the report topic subscribed.
    Opened,
    /// Connecting or subscribing failed, for the reason given.
    OpenFailed(String),
    /// A publish came in.
    Publish { topic: String, payload: Vec<u8> },
    /// Any other notification came in.
    Other,
    /// The connection failed, with the transport's error as text.
    Lost(String),
    /// The wait is over.
    Slept,
    /// The consumer is gone.
    ChannelClosed,
}

/// What the caller is to do next.
#[derive(Debug, Clone, Copy, PartialEq, Eq)]
pub enum Directive {
    /// Open a connection and subscribe to the report topic.
    Open,
    /// Wait for the next notification.
    Poll,
    /// Wait for so many seconds.
    Sleep(u64),
    /// End the loop.
    Stop,
}

/// What the manager decided on an event.
#[derive(Debug)]
pub struct Step {
    /// The event to deliver to the consumer, before anything else is done.
    pub emit: Option<SubscriptionEvent>,
    /// Why a payload was dropped, for the log.
    pub rejected: Option<MessageError>,
    /// What to do after that.
    pub next: Directive,
}

/// The wait that follows the wait `delay`: twice as long, and at most
/// `MAX_RECONNECT_DELAY_SECS`.
pub open spec fn grown(delay: u64) -> u64 {
    if delay * 2 <= MAX_RECONNECT_DELAY_SECS {
        (delay * 2) as u64
    } else {
        MAX_RECONNECT_DELAY_SECS
    }
}

/// The wait after so many failures in a row, the first failure waiting
/// `RECONNECT_DELAY_SECS`.
pub open spec fn delay_after(failures: nat) -> u64
    decreases failures,
{
    if failures == 0 {
        RECONNECT_DELAY_SECS
    } else {
        grown(delay_after((failures - 1) as nat))
    }
}

/// Two to the power `n`.
pub open spec fn pow2(n: nat) -> nat
    decreases n,
{
    if n == 0 {
        1
    } else {
        2 * pow2((n - 1) as nat)
    }
}

/// The phase that follows `phase` on `event`.
pub open spec fn phase_after(phase: Phase, event: TransportEvent) -> Phase {
    match (phase, event) {
        (Phase::Stopped, _) => Phase::Stopped,
        (_, TransportEvent::ChannelClosed) => Phase::Stopped,
        (Phase::Connecting, TransportEvent::Opened) => Phase::Subscribed,
        (Phase::Connecting, TransportEvent::OpenFailed(_)) => Phase::Backoff,
        (Phase::Subscribed, TransportEvent::Lost(_)) => Phase::Backoff,
        (Phase::Backoff, TransportEvent::Slept) => Phase::Connecting,
        _ => phase,
    }
}

/// The wait that is current after `event` came in `phase` with the wait
/// `delay`: the first wait again once the subscription stands, the next
/// longer one once a wait is over, else the same.
pub open spec fn delay_after_event(phase: Phase, delay: u64, event: TransportEvent) -> u64 {
    match (phase, event) {
        (Phase::Connecting, TransportEvent::Opened) => RECONNECT_DELAY_SECS,
        (Phase::Backoff, TransportEvent::Slept) => grown(delay),
        _ => delay,
    }
}

/// What the caller is to do in `phase` with the wait `delay`.
pub open spec fn directive_in(phase: Phase, delay: u64) -> Directive {
    match phase {
        Phase::Connecting => Directive::Open,
        Phase::Subscribed => Directive::Poll,
        Phase::Backoff => Directive::Sleep(delay),
        Phase::Stopped => Directive::Stop,
    }
}

/// The reason that is given to the consumer for a connection that failed
/// with the transport error `error`.
pub open spec fn disconnect_reason(error: Seq<char>) -> Seq<char> {
    "Connection error: MQTT event loop error: "@ + error
}

/// Whether a payload's outcome is what its decoding gives: the message as
/// an event, or the reason for which it was dropped.
pub open spec fn is_outcome_of(
    payload: Seq<u8>,
    emit: Option<SubscriptionEvent>,
    rejected: Option<MessageError>,
) -> bool {
    match (emit, rejected) {
        (Some(SubscriptionEvent::Message(message)), None) => is_payload_of(
            payload,
            Ok::<DeviceMessage, MessageError>(*message),
        ),
        (None, Some(error)) => is_payload_of(payload, Err::<DeviceMessage, MessageError>(error)),
        _ => false,
    }
}

/// Whether `emit` and `rejected` are what `event` gives in `phase`, for a
/// printer that reports on `report_topic`: the subscription standing and
/// the connection failing are told; a payload on the report topic, while
/// the subscription stands, is decoded and told or dropped; nothing else is
/// told.
pub open spec fn is_emission_of(
    phase: Phase,
    report_topic: Seq<char>,
    event: TransportEvent,
    emit: Option<SubscriptionEvent>,
    rejected: Option<MessageError>,
) -> bool {
    match (phase, event) {
        (Phase::Connecting, TransportEvent::Opened) => emit == Some(SubscriptionEvent::Connected)
            && rejected is None,
        (Phase::Subscribed, TransportEvent::Lost(error)) => rejected is None && (
        emit matches Some(SubscriptionEvent::Disconnected(reason)) && reason@ == disconnect_reason(
            error@,
        )),
        (Phase::Subscribed, TransportEvent::Publish { topic, payload }) => if topic@
            == report_topic {
            is_outcome_of(payload@, emit, rejected)
        } else {
            emit is None && rejected is None
        },
        _ => emit is None && rejected is None,
    }
}

/// The keeper of one printer's subscription.
#[derive(Debug)]
pub struct SubscriptionManager {
    config: PrinterConfig,
    phase: Phase,
    current_delay: u64,
}

impl SubscriptionManager {
    #[verifier::type_invariant]
    spec fn delay_in_range(self) -> bool {
        RECONNECT_DELAY_SECS <= self.current_delay <= MAX_RECONNECT_DELAY_SECS
    }

    /// The printer whose subscription is kept.
    pub closed spec fn config_view(&self) -> PrinterConfig {
        self.config
    }

    /// Where the manager stands.
    pub closed spec fn phase_view(&self) -> Phase {
        self.phase
    }

    /// The wait, in seconds, that the next failure brings.
    pub closed spec fn delay_view(&self) -> u64 {
        self.current_delay
    }

    /// A manager for the printer of `config`, about to connect.
    pub fn new(config: PrinterConfig) -> (manager: Self)
        ensures
            manager.config_view() == config,
            manager.phase_view() == Phase::Connecting,
            manager.delay_view() == RECONNECT_DELAY_SECS,
    {
        SubscriptionManager {
            config,
            phase: Phase::Connecting,
            current_delay: RECONNECT_DELAY_SECS,
        }
    }

    /// The printer whose subscription is kept.
    pub fn config(&self) -> (config: &PrinterConfig)
        ensures
            *config == self.config_view(),
    {
        &self.config
    }

    /// Where the manager stands.
    pub fn phase(&self) -> (phase: Phase)
        ensures
            phase == self.phase_view(),
    {
        self.phase
    }

    /// The wait, in seconds, that the next failure brings. It is never
    /// shorter than the first wait nor longer than the longest.
    pub fn current_delay(&self) -> (delay: u64)
        ensures
            delay == self.delay_view(),
            RECONNECT_DELAY_SECS <= delay <= MAX_RECONNECT_DELAY_SECS,
    {
        proof {
            use_type_invariant(self);
        }
        self.current_delay
    }

    /// What the caller is to do now.
    pub fn directive(&self) -> (next: Directive)
        ensures
            next == directive_in(self.phase_view(), self.delay_view()),
    {
        match self.phase {
            Phase::Connecting => Directive::Open,
            Phase::Subscribed => Directive::Poll,
            Phase::Backoff => Directive::Sleep(self.current_delay),
            Phase::Stopped => Directive::Stop,
        }
    }

    /// The topic to subscribe to.
    pub fn start_subscription(&self) -> (topic: String)
        ensures
            topic@ == report_topic_text(self.config_view().device_id@),
    {
        self.config.report_topic()
    }

    /// Decodes a payload that came in on the report topic: the message as
    /// an event, or the reason for which the payload is dropped.
    pub fn handle_mqtt_message(payload: &[u8]) -> (outcome: Result<SubscriptionEvent, MessageError>)
        ensures
            match outcome {
                Ok(event) => is_outcome_of(payload@, Some(event), None),
                Err(error) => is_outcome_of(payload@, None, Some(error)),
            },
    {
        match DeviceMessage::decode(payload) {
            Ok(message) => Ok(SubscriptionEvent::Message(Box::new(message))),
            Err(error) => Err(error),
        }
    }

    /// Takes a publish that came in while the subscription stands: one on
    /// the report topic is decoded, any other is passed over.
    pub fn process_events(&self, topic: &str, payload: &[u8]) -> (outcome: Option<
        Result<SubscriptionEvent, MessageError>,
    >)
        ensures
            match outcome {
                Some(Ok(event)) => topic@ == report_topic_text(self.config_view().device_id@)
                    && is_outcome_of(payload@, Some(event), None),
                Some(Err(error)) => topic@ == report_topic_text(self.config_view().device_id@)
                    && is_outcome_of(payload@, None, Some(error)),
                None => topic@ != report_topic_text(self.config_view().device_id@),
            },
    {
        let report_topic = self.config.report_topic();
        if str_eq(topic, report_topic.as_str()) {
            Some(SubscriptionManager::handle_mqtt_message(payload))
        } else {
            None
        }
    }

    /// Takes in what happened, moves on, and says what to tell the consumer
    /// and what to do next.
    pub fn run(&mut self, event: TransportEvent) -> (step: Step)
        ensures
            final(self).config_view() == old(self).config_view(),
            final(self).phase_view() == phase_after(old(self).phase_view(), event),
            final(self).delay_view() == delay_after_event(
                old(self).phase_view(),
                old(self).delay_view(),
                event,
            ),
            step.next == directive_in(final(self).phase_view(), final(self).delay_view()),
            is_emission_of(
                old(self).phase_view(),
                report_topic_text(old(self).config_view().device_id@),
                event,
                step.emit,
                step.rejected,
            ),
    {
        proof {
            use_type_invariant(&*self);
        }
        let mut emit: Option<SubscriptionEvent> = None;
        let mut rejected: Option<MessageError> = None;
        match (self.phase, event) {
            (Phase::Stopped, _) => {},
            (_, TransportEvent::ChannelClosed) => {
                self.phase = Phase::Stopped;
            },
            (Phase::Connecting, TransportEvent::Opened) => {
                self.phase = Phase::Subscribed;
                self.current_delay = RECONNECT_DELAY_SECS;
                emit = Some(SubscriptionEvent::Connected);
            },
            (Phase::Connecting, TransportEvent::OpenFailed(_)) => {
                self.phase = Phase::Backoff;
            },
            (Phase::Subscribed, TransportEvent::Lost(error)) => {
                self.phase = Phase::Backoff;
                emit = Some(
                    SubscriptionEvent::Disconnected(
                        concat2("Connection error: MQTT event loop error: ", error.as_str()),
                    ),
                );
            },
            (Phase::Subscribed, TransportEvent::Publish { topic, payload }) => {
                match self.process_events(topic.as_str(), payload.as_slice()) {
                    Some(Ok(event)) => {
                        emit = Some(event);
                    },
                    Some(Err(error)) => {
                        rejected = Some(error);
                    },
                    None => {},
                }
            },
            (Phase::Backoff, TransportEvent::Slept) => {
                self.phase = Phase::Connecting;
                self.current_delay = if self.current_delay > MAX_RECONNECT_DELAY_SECS / 2 {
                    MAX_RECONNECT_DELAY_SECS
                } else {
                    self.current_delay * 2
                };
            },
            _ => {},
        }
        let next = self.directive();
        Step { emit, rejected, next }
    }
}

/// The waits never shrink from one failure to the next, and stay between
/// the first wait and the longest.
pub proof fn lemma_delay_grows_to_cap(failures: nat)
    ensures
        RECONNECT_DELAY_SECS <= delay_after(failures) <= MAX_RECONNECT_DELAY_SECS,
        delay_after(failures) <= delay_after(failures + 1),
    decreases failures,
{
    if failures > 0 {
        lemma_delay_grows_to_cap((failures - 1) as nat);
    }
}

/// The wait after so many failures in a row is the first wait doubled so
/// many times, or the longest wait where that would be longer.
pub proof fn lemma_delay_closed_form(failures: nat)
    ensures
        delay_after(failures) == if RECONNECT_DELAY_SECS * pow2(failures)
            <= MAX_RECONNECT_DELAY_SECS {
            RECONNECT_DELAY_SECS * pow2(failures)
        } else {
            MAX_RECONNECT_DELAY_SECS as int
        },
        pow2(failures) >= 1,
    decreases failures,
{
    if failures > 0 {
        lemma_delay_closed_form((failures - 1) as nat);
    }
}

/// The wait that is current after so many waits in a row have passed,
/// the first of them being `delay`.
pub open spec fn delay_after_waits(delay: u64, waits: nat) -> u64
    decreases waits,
{
    if waits == 0 {
        delay
    } else {
        delay_after_event(
            Phase::Backoff,
            delay_after_waits(delay, (waits - 1) as nat),
            TransportEvent::Slept,
        )
    }
}

/// A manager whose next wait is the first wait, and which then fails and
/// waits so many times in a row, waits `delay_after` of that number next.
pub proof fn lemma_waits_follow_failures(waits: nat)
    ensures
        delay_after_waits(RECONNECT_DELAY_SECS, waits) == delay_after(waits),
    decreases waits,
{
    if waits > 0 {
        lemma_waits_follow_failures((waits - 1) as nat);
    }
}

/// Once the subscription stands, the next failure waits the first wait
/// again, however long the waits had grown.
pub proof fn lemma_success_starts_over(delay: u64)
    ensures
        phase_after(Phase::Connecting, TransportEvent::Opened) == Phase::Subscribed,
        delay_after_event(Phase::Connecting, delay, TransportEvent::Opened)
            == RECONNECT_DELAY_SECS,
{
}

/// Whatever happens, the wait stays between the first wait and the
/// longest.
pub proof fn lemma_delay_stays_in_range(phase: Phase, delay: u64, event: TransportEvent)
    requires
        RECONNECT_DELAY_SECS <= delay <= MAX_RECONNECT_DELAY_SECS,
    ensures
        RECONNECT_DELAY_SECS <= delay_after_event(phase, delay, event) <= MAX_RECONNECT_DELAY_SECS,
        delay_after_event(phase, delay, event) >= delay || (phase == Phase::Connecting
            && event is Opened),
{
}

/// A payload, whether it decodes or not, moves the manager nowhere and
/// leaves the wait as it is.
pub proof fn lemma_payload_keeps_connection(phase: Phase, delay: u64, event: TransportEvent)
    requires
        event is Publish,
    ensures
        phase_after(phase, event) == phase,
        delay_after_event(phase, delay, event) == delay,
{
}

/// The manager stops only when it is told that the consumer is gone, and
/// once stopped it stays so.
pub proof fn lemma_stops_only_on_closed_channel(phase: Phase, event: TransportEvent)
    ensures
        phase_after(phase, event) == Phase::Stopped <==> (phase == Phase::Stopped
            || event is ChannelClosed),
{
}

} // verus!
