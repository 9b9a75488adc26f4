//! What the chat connection does next: heartbeats, frames, acknowledgements and reconnects.
use vstd::prelude::*;
use crate::digits;
use crate::text;
use crate::wire;
use crate::wire::DanmuStreamError;

verus! {

/// The browser that the connection presents itself as.
pub const USER_AGENT: &'static str = "Mozilla/5.0 (Windows NT 10.0; Win64; x64) AppleWebKit/537.36 (KHTML, like Gecko) Chrome/120.0.0.0 Safari/537.36";

/// The bytes of a heartbeat.
pub open spec fn heartbeat_bytes() -> Seq<u8> {
    seq![0x3Au8, 0x02u8, 0x68u8, 0x62u8]
}

/// The bytes of a heartbeat.
pub fn heartbeat_message() -> (res: Vec<u8>)
    ensures
        res@ == heartbeat_bytes(),
{
    let mut bytes: Vec<u8> = Vec::new();
    bytes.push(0x3A);
    bytes.push(0x02);
    bytes.push(0x68);
    bytes.push(0x62);
    assert(bytes@ =~= heartbeat_bytes());
    bytes
}

/// The script call that signs the address of a room's connection.
pub fn wss_sign_call(room_id: &str) -> (res: String)
    ensures
        res@ == "get_wss_url(\""@ + room_id@ + "\")"@,
{
    let mut call = text::copy("get_wss_url(\"");
    call.append(room_id);
    call.append("\")");
    call
}

/// The headers that a connection request carries besides those of the handshake. The host is not
/// among them: it is the one of the signed address.
pub open spec fn header_list(cookie: Seq<char>) -> Seq<(Seq<char>, Seq<char>)> {
    seq![
        ("cookie"@, cookie),
        ("referer"@, "https://live.douyin.com/"@),
        ("user-agent"@, USER_AGENT@),
    ]
}

/// The headers that a connection request carries besides those of the handshake.
pub fn request_headers(cookie: &str) -> (res: Vec<(String, String)>)
    ensures
        res.deep_view() == header_list(cookie@),
{
    let mut headers: Vec<(String, String)> = Vec::new();
    headers.push((text::copy("cookie"), text::copy(cookie)));
    headers.push((text::copy("referer"), text::copy("https://live.douyin.com/")));
    headers.push((text::copy("user-agent"), text::copy(USER_AGENT)));
    assert(headers.deep_view() =~= header_list(cookie@));
    headers
}

/// What happened on the connection.
pub enum SocketInput {
    /// Nothing yet: the connection is about to wait.
    Idle,
    HeartbeatDue,
    ReadFailed,
    Ended,
    Binary,
    Close,
    Ping,
    Other,
}

/// What the connection does about it.
pub enum SocketAction {
    Stop,
    Fail,
    SendHeartbeat,
    SendPong,
    DeliverFrame,
    Continue,
}

/// What the connection does next. A stop that is asked for is honoured between messages; a frame
/// that was already received is still delivered.
pub fn socket_action(stopping: bool, input: SocketInput) -> (res: SocketAction)
    ensures
        res == (match input {
            SocketInput::Idle => if stopping {
                SocketAction::Stop
            } else {
                SocketAction::Continue
            },
            SocketInput::HeartbeatDue => if stopping {
                SocketAction::Stop
            } else {
                SocketAction::SendHeartbeat
            },
            SocketInput::ReadFailed => SocketAction::Fail,
            SocketInput::Ended => SocketAction::Stop,
            SocketInput::Binary => SocketAction::DeliverFrame,
            SocketInput::Close => SocketAction::Stop,
            SocketInput::Ping => SocketAction::SendPong,
            SocketInput::Other => SocketAction::Continue,
        }),
{
    match input {
        SocketInput::Idle => if stopping {
            SocketAction::Stop
        } else {
            SocketAction::Continue
        },
        SocketInput::HeartbeatDue => if stopping {
            SocketAction::Stop
        } else {
            SocketAction::SendHeartbeat
        },
        SocketInput::ReadFailed => SocketAction::Fail,
        SocketInput::Ended => SocketAction::Stop,
        SocketInput::Binary => SocketAction::DeliverFrame,
        SocketInput::Close => SocketAction::Stop,
        SocketInput::Ping => SocketAction::SendPong,
        SocketInput::Other => SocketAction::Continue,
    }
}

/// One step in the delivery of a frame.
pub enum DeliveryStep {
    Forward(usize),
    AwaitPersistence,
    Acknowledge,
}

/// The steps in the delivery of a frame with `events` events: each event goes to the recorder;
/// where an acknowledgement is due, the recorder must have stored the events before it is sent.
pub open spec fn delivery_steps(events: nat, ack: bool) -> Seq<DeliveryStep> {
    Seq::new(events, |i: int| DeliveryStep::Forward(i as usize)) + (if ack && events > 0 {
        seq![DeliveryStep::AwaitPersistence]
    } else {
        Seq::empty()
    }) + (if ack {
        seq![DeliveryStep::Acknowledge]
    } else {
        Seq::empty()
    })
}

/// The steps in the delivery of a frame, to be taken in order until one fails.
pub fn delivery_plan(events: usize, ack: bool) -> (res: Vec<DeliveryStep>)
    ensures
        res@ == delivery_steps(events as nat, ack),
{
    let mut steps: Vec<DeliveryStep> = Vec::new();
    let mut i: usize = 0;
    while i < events
        invariant
            i <= events,
            steps@.len() == i,
            forall|j: int| 0 <= j < i ==> #[trigger] steps@[j] == DeliveryStep::Forward(j as usize),
        decreases events - i,
    {
        steps.push(DeliveryStep::Forward(i));
        i += 1;
    }
    if ack && events > 0 {
        steps.push(DeliveryStep::AwaitPersistence);
    }
    if ack {
        steps.push(DeliveryStep::Acknowledge);
    }
    assert(steps@ =~= delivery_steps(events as nat, ack));
    steps
}

/// A frame is acknowledged last: after each of its events went to the recorder and, where it had
/// any, after the recorder had stored them. A crash before that leaves it unacknowledged.
pub proof fn law_a_frame_is_acknowledged_last(events: usize, ack: bool, i: int)
    requires
        0 <= i < delivery_steps(events as nat, ack).len(),
        delivery_steps(events as nat, ack)[i] is Acknowledge,
    ensures
        ack,
        i == delivery_steps(events as nat, ack).len() - 1,
        events <= i,
        forall|k: int|
            0 <= k < events ==> #[trigger] delivery_steps(events as nat, ack)[k]
                == DeliveryStep::Forward(k as usize),
        events > 0 ==> delivery_steps(events as nat, ack)[i - 1] is AwaitPersistence,
{
}

/// Whether the acknowledgement of a delivered frame is sent: not on a connection that is closing.
pub fn sends_ack(stopping: bool) -> (res: bool)
    ensures
        res == !stopping,
{
    !stopping
}

/// Whether a heartbeat that falls due while an event waits for the recorder is sent: not on a
/// connection that is closing.
pub fn sends_heartbeat_while_waiting(stopping: bool) -> (res: bool)
    ensures
        res == !stopping,
{
    !stopping
}

/// How the wait for the recorder ended.
pub enum PersistOutcome {
    Stored,
    Failed(String),
    Dropped(String),
}

/// The result of waiting for the recorder.
pub fn persistence_result(outcome: PersistOutcome) -> (res: Result<(), DanmuStreamError>)
    ensures
        match outcome {
            PersistOutcome::Stored => res is Ok,
            PersistOutcome::Failed(reason) => res matches Err(e) && e.text()
                == "Douyin event persistence failed before ACK: "@ + reason@,
            PersistOutcome::Dropped(reason) => res matches Err(e) && e.text()
                == "Douyin persistence barrier was dropped before ACK: "@ + reason@,
        },
{
    match outcome {
        PersistOutcome::Stored => Ok(()),
        PersistOutcome::Failed(reason) => Err(
            wire::websocket_error(
                "Douyin event persistence failed before ACK: ",
                reason.as_str(),
            ),
        ),
        PersistOutcome::Dropped(reason) => Err(
            wire::websocket_error(
                "Douyin persistence barrier was dropped before ACK: ",
                reason.as_str(),
            ),
        ),
    }
}

/// How a write to the connection ended.
pub enum SendOutcome {
    Sent,
    NoWriter,
    Failed(String),
    TimedOut,
}

/// The result of a write to the connection.
pub fn send_result(message_type: &str, outcome: SendOutcome) -> (res: Result<(), DanmuStreamError>)
    ensures
        match outcome {
            SendOutcome::Sent => res is Ok,
            SendOutcome::NoWriter => res matches Err(e) && e.text() == "Cannot send douyin "@
                + message_type@ + ": websocket writer is unavailable"@,
            SendOutcome::Failed(reason) => res matches Err(e) && e.text()
                == "Failed to send douyin "@ + message_type@ + ": "@ + reason@,
            SendOutcome::TimedOut => res matches Err(e) && e.text() == "Timed out sending douyin "@
                + message_type@ + " after "@ + digits::signed_decimal(
                wire::WEBSOCKET_WRITE_TIMEOUT_SECS as int,
            ) + " seconds"@,
        },
{
    match outcome {
        SendOutcome::Sent => Ok(()),
        SendOutcome::NoWriter => {
            let mut err = text::copy("Cannot send douyin ");
            err.append(message_type);
            err.append(": websocket writer is unavailable");
            Err(DanmuStreamError::WebsocketError { err })
        },
        SendOutcome::Failed(reason) => {
            let mut err = text::copy("Failed to send douyin ");
            err.append(message_type);
            err.append(": ");
            err.append(reason.as_str());
            Err(DanmuStreamError::WebsocketError { err })
        },
        SendOutcome::TimedOut => {
            let mut err = text::copy("Timed out sending douyin ");
            err.append(message_type);
            err.append(" after ");
            let secs = digits::u64_text(wire::WEBSOCKET_WRITE_TIMEOUT_SECS);
            err.append(secs.as_str());
            err.append(" seconds");
            Err(DanmuStreamError::WebsocketError { err })
        },
    }
}

/// What the provider does after a connection ended.
pub enum Reconnect {
    Stop,
    RetryAfter { seconds: u64, attempt: u32 },
}

/// What the provider does after a connection ended: it stops where that was asked for, else it
/// connects again after a fixed delay and counts failures in a row.
pub fn after_connection(stopping: bool, connected: bool, retry_count: u32) -> (res: Reconnect)
    requires
        retry_count < u32::MAX,
    ensures
        res == (if stopping {
            Reconnect::Stop
        } else if connected {
            (Reconnect::RetryAfter { seconds: wire::RETRY_DELAY_SECS, attempt: 0 })
        } else {
            (Reconnect::RetryAfter {
                seconds: wire::RETRY_DELAY_SECS,
                attempt: (retry_count + 1) as u32,
            })
        }),
{
    if stopping {
        return Reconnect::Stop;
    }
    let attempt = if connected {
        0
    } else {
        retry_count + 1
    };
    Reconnect::RetryAfter { seconds: wire::RETRY_DELAY_SECS, attempt }
}

/// The events of a frame are forwarded one by one, in order and each once; then, where the frame asks
/// for it, it is acknowledged, and where it had events, only after they are persisted. A frame that
/// does not ask is not acknowledged, and nothing is waited for.
pub proof fn law_frames_are_delivered(events: usize, ack: bool)
    ensures
        ({
            let steps = delivery_steps(events as nat, ack);
            &&& steps.len() == events + (if ack {
                if events > 0 {
                    2int
                } else {
                    1
                }
            } else {
                0
            })
            &&& forall|k: int|
                0 <= k < events ==> #[trigger] steps[k] == DeliveryStep::Forward(k as usize)
            &&& forall|k: int|
                events <= k < steps.len() ==> !((#[trigger] steps[k]) is Forward)
            &&& ack ==> steps.last() is Acknowledge
            &&& ack && events > 0 ==> steps[events as int] is AwaitPersistence
            &&& !ack ==> forall|k: int|
                0 <= k < steps.len() ==> !((#[trigger] steps[k]) is Acknowledge) && !(
                steps[k] is AwaitPersistence)
        }),
{
}

/// A connection shows the account's own cookie, unchanged, and comes from the service's own page.
pub proof fn law_connections_show_the_cookie(cookie: Seq<char>)
    ensures
        header_list(cookie).contains(("cookie"@, cookie)),
        header_list(cookie).contains(("referer"@, "https://live.douyin.com/"@)),
        forall|i: int|
            0 <= i < header_list(cookie).len() && (#[trigger] header_list(cookie)[i]).0 == "cookie"@
                ==> header_list(cookie)[i].1 == cookie,
{
    reveal_strlit("cookie");
    reveal_strlit("referer");
    reveal_strlit("user-agent");
    let list = header_list(cookie);
    assert(list[0] == ("cookie"@, cookie));
    assert(list[1] == ("referer"@, "https://live.douyin.com/"@));
    assert(list[1].0.len() != list[0].0.len());
    assert(list[2].0.len() != list[0].0.len());
}

/// What a connection does with what comes: frames are delivered and pings answered even while it is
/// stopping; an end or a close stops it, a failed read fails it, and a heartbeat is sent when it is due,
/// unless it is stopping.
pub proof fn law_what_a_connection_does(stopping: bool, input: SocketInput, res: SocketAction)
    requires
        call_ensures(socket_action, (stopping, input), res),
    ensures
        res is DeliverFrame <==> input is Binary,
        res is SendPong <==> input is Ping,
        res is Fail <==> input is ReadFailed,
        res is SendHeartbeat <==> input is HeartbeatDue && !stopping,
        res is Stop <==> input is Ended || input is Close || (stopping && (input is Idle || input
            is HeartbeatDue)),
        res is Continue <==> input is Other || (input is Idle && !stopping),
{
}

/// A connection that was lost is made again, unless it is to stop; attempts are counted anew after one
/// that succeeded.
pub proof fn law_lost_connections_are_made_again(
    stopping: bool,
    connected: bool,
    retry_count: u32,
    res: Reconnect,
)
    requires
        retry_count < u32::MAX,
        call_ensures(after_connection, (stopping, connected, retry_count), res),
    ensures
        res is Stop <==> stopping,
        !stopping && connected ==> res is RetryAfter && res->attempt == 0,
        !stopping && !connected ==> res is RetryAfter && res->attempt == retry_count + 1,
        !stopping ==> res->seconds == wire::RETRY_DELAY_SECS,
{
}

/// A frame counts as persisted, and a message as sent, only where it was; every failure tells its
/// reason.
pub proof fn law_only_what_is_stored_counts(
    outcome: PersistOutcome,
    stored: Result<(), DanmuStreamError>,
    message_type: &str,
    sending: SendOutcome,
    sent: Result<(), DanmuStreamError>,
)
    requires
        call_ensures(persistence_result, (outcome,), stored),
        call_ensures(send_result, (message_type, sending), sent),
    ensures
        stored is Ok <==> outcome is Stored,
        sent is Ok <==> sending is Sent,
{
}

} // verus!
