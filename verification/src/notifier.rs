//! The notification dispatcher: the channel-name table, the exact wire form
//! of each delivery, and the delivery plan for one event.
//!
//! Delivery itself is an outbound network call and happens outside the
//! library: the dispatcher hands back one planned request per resolvable
//! channel name (and a marker for each unknown name), and is told afterwards
//! which deliveries succeeded, so failures stay isolated per channel and the
//! sent counter grows by exactly the number of successes.

use vstd::prelude::*;

use crate::errors::DaemonError;
use crate::json::{json_opt_string, json_string, push_json_opt_string, push_json_string};
use crate::models::{
    ChannelView, NotificationChannel, NotificationEvent, NotificationEventView, TriggerType,
    channel_name, clone_header_pairs, status_label, trigger_label,
};
use crate::text::str_eq;
use crate::timefmt::{format_rfc3339, format_utc_label, rfc3339_of, utc_label_of};

verus! {

// ---------------------------------------------------------------------------
// Wire requests
// ---------------------------------------------------------------------------
/// Ghost mirror of a planned request.
pub struct WireRequestView {
    pub url: Seq<char>,
    pub headers: Seq<(Seq<char>, Seq<char>)>,
    pub body: Seq<char>,
}

/// One fully built outbound POST: everything the transport needs, and nothing
/// it may reinterpret.
#[derive(Debug, PartialEq)]
pub struct WireRequest {
    pub url: String,
    pub headers: Vec<(String, String)>,
    pub body: String,
}

impl View for WireRequest {
    type V = WireRequestView;

    open spec fn view(&self) -> WireRequestView {
        WireRequestView {
            url: self.url@,
            headers: self.headers.deep_view(),
            body: self.body@,
        }
    }
}

impl DeepView for WireRequest {
    type V = WireRequestView;

    open spec fn deep_view(&self) -> WireRequestView {
        self.view()
    }
}

/// An optional text, or the word a missing one is shown as.
pub open spec fn or_unknown(s: Option<Seq<char>>) -> Seq<char> {
    match s {
        Some(v) => v,
        None => "Unknown"@,
    }
}

fn or_unknown_str(s: &Option<String>) -> (r: &str)
    ensures
        r@ == or_unknown(s.deep_view()),
{
    match s {
        Some(v) => v.as_str(),
        None => "Unknown",
    }
}

// ---------------------------------------------------------------------------
// Telegram
// ---------------------------------------------------------------------------
/// The event heading used in Telegram messages.
pub open spec fn telegram_title(t: TriggerType) -> Seq<char> {
    match t {
        TriggerType::DeviceConnected => "Device Connected"@,
        TriggerType::DeviceDisconnected => "Device Disconnected"@,
        TriggerType::NewDevice => "New Device Discovered"@,
        TriggerType::DeviceStatusChange => "Device Status Changed"@,
    }
}

/// The fixed multi-field Telegram message text.
pub open spec fn telegram_text(e: NotificationEventView) -> Seq<char> {
    "\u{1f98a} <b>Fox Daemon Alert</b>\n\n<b>Event:</b> "@ + telegram_title(e.event_type)
        + "\n<b>Device:</b> "@ + or_unknown(e.device.hostname) + "\n<b>IP:</b> "@ + or_unknown(
        e.device.ip,
    ) + "\n<b>MAC:</b> "@ + e.device.mac + "\n<b>Status:</b> "@ + status_label(e.device.status)
        + "\n<b>Time:</b> "@ + utc_label_of(e.timestamp) + "\n\n"@ + e.message
}

/// The Bot API endpoint for one bot token.
pub open spec fn telegram_url(bot_token: Seq<char>) -> Seq<char> {
    "https://api.telegram.org/bot"@ + bot_token + "/sendMessage"@
}

/// The JSON payload of a Telegram send, keys in canonical (sorted) order.
pub open spec fn telegram_body(chat_id: Seq<char>, text: Seq<char>) -> Seq<char> {
    "{\"chat_id\":"@ + json_string(chat_id) + ",\"parse_mode\":\"HTML\",\"text\":"@ + json_string(
        text,
    ) + "}"@
}

fn telegram_title_str(t: TriggerType) -> (r: &'static str)
    ensures
        r@ == telegram_title(t),
{
    match t {
        TriggerType::DeviceConnected => "Device Connected",
        TriggerType::DeviceDisconnected => "Device Disconnected",
        TriggerType::NewDevice => "New Device Discovered",
        TriggerType::DeviceStatusChange => "Device Status Changed",
    }
}

fn build_telegram_text(e: &NotificationEvent) -> (r: String)
    ensures
        r@ == telegram_text(e@),
{
    let mut s = String::new();
    s.append("\u{1f98a} <b>Fox Daemon Alert</b>\n\n<b>Event:</b> ");
    s.append(telegram_title_str(e.event_type));
    s.append("\n<b>Device:</b> ");
    s.append(or_unknown_str(&e.device.hostname));
    s.append("\n<b>IP:</b> ");
    s.append(or_unknown_str(&e.device.ip_address));
    s.append("\n<b>MAC:</b> ");
    s.append(e.device.mac_address.as_str());
    s.append("\n<b>Status:</b> ");
    s.append(e.device.status.label());
    s.append("\n<b>Time:</b> ");
    let time_label = format_utc_label(e.timestamp);
    s.append(time_label.as_str());
    s.append("\n\n");
    s.append(e.message.as_str());
    assert(s@ =~= telegram_text(e@));
    s
}

fn build_telegram_request(bot_token: &String, chat_id: &String, e: &NotificationEvent) -> (r:
    WireRequest)
    ensures
        r@.url == telegram_url(bot_token@),
        r@.headers == seq![("Content-Type"@, "application/json"@)],
        r@.body == telegram_body(chat_id@, telegram_text(e@)),
{
    let mut url = String::new();
    url.append("https://api.telegram.org/bot");
    url.append(bot_token.as_str());
    url.append("/sendMessage");
    assert(url@ =~= telegram_url(bot_token@));

    let text = build_telegram_text(e);
    let mut body = String::new();
    body.append("{\"chat_id\":");
    push_json_string(&mut body, chat_id.as_str());
    body.append(",\"parse_mode\":\"HTML\",\"text\":");
    push_json_string(&mut body, text.as_str());
    body.append("}");
    assert(body@ =~= telegram_body(chat_id@, telegram_text(e@)));

    let mut headers: Vec<(String, String)> = Vec::new();
    headers.push((String::from_str("Content-Type"), String::from_str("application/json")));
    let r = WireRequest { url, headers, body };
    proof {
        assert(r@.headers =~= seq![("Content-Type"@, "application/json"@)]);
    }
    r
}

// ---------------------------------------------------------------------------
// Ntfy
// ---------------------------------------------------------------------------
/// The event heading used as the ntfy title.
pub open spec fn ntfy_title(t: TriggerType) -> Seq<char> {
    match t {
        TriggerType::DeviceConnected => "Device Connected"@,
        TriggerType::DeviceDisconnected => "Device Disconnected"@,
        TriggerType::NewDevice => "New Device"@,
        TriggerType::DeviceStatusChange => "Status Changed"@,
    }
}

/// A string without its trailing slashes.
pub open spec fn without_trailing_slashes(s: Seq<char>) -> Seq<char>
    decreases s.len(),
{
    if s.len() > 0 && s.last() == '/' {
        without_trailing_slashes(s.drop_last())
    } else {
        s
    }
}

/// The topic endpoint under an ntfy server.
pub open spec fn ntfy_url(server_url: Seq<char>, topic: Seq<char>) -> Seq<char> {
    without_trailing_slashes(server_url) + "/"@ + topic
}

/// The short plain-text ntfy summary.
pub open spec fn ntfy_body(e: NotificationEventView) -> Seq<char> {
    or_unknown(e.device.hostname) + "\nMAC: "@ + e.device.mac + "\nIP: "@ + or_unknown(e.device.ip)
        + "\nStatus: "@ + status_label(e.device.status)
}

/// The ntfy request headers: title, default priority, fixed tags, and a
/// bearer token when one is configured.
pub open spec fn ntfy_headers(t: TriggerType, token: Option<Seq<char>>) -> Seq<
    (Seq<char>, Seq<char>),
> {
    seq![
        ("Title"@, ntfy_title(t)),
        ("Priority"@, "default"@),
        ("Tags"@, "fox,network"@),
    ] + (match token {
        Some(tk) => seq![("Authorization"@, "Bearer "@ + tk)],
        None => Seq::empty(),
    })
}

fn ntfy_title_str(t: TriggerType) -> (r: &'static str)
    ensures
        r@ == ntfy_title(t),
{
    match t {
        TriggerType::DeviceConnected => "Device Connected",
        TriggerType::DeviceDisconnected => "Device Disconnected",
        TriggerType::NewDevice => "New Device",
        TriggerType::DeviceStatusChange => "Status Changed",
    }
}

fn trim_trailing_slashes(s: &str) -> (r: String)
    ensures
        r@ == without_trailing_slashes(s@),
{
    let n = s.unicode_len();
    let mut end = n;
    proof {
        assert(s@.take(n as int) =~= s@);
    }
    while end > 0 && s.get_char(end - 1) == '/'
        invariant
            end <= n,
            n == s@.len(),
            without_trailing_slashes(s@) == without_trailing_slashes(s@.take(end as int)),
        decreases end,
    {
        proof {
            assert(s@.take(end as int).drop_last() =~= s@.take(end as int - 1));
            assert(s@.take(end as int).last() == s@[end as int - 1]);
        }
        end = end - 1;
    }
    let r = String::from_str(s.substring_char(0, end));
    proof {
        assert(r@ =~= s@.take(end as int));
        if end > 0 {
            assert(s@.take(end as int).last() == s@[end as int - 1]);
        }
        assert(without_trailing_slashes(s@.take(end as int)) == s@.take(end as int));
    }
    r
}

fn build_ntfy_request(
    server_url: &String,
    topic: &String,
    token: &Option<String>,
    e: &NotificationEvent,
) -> (r: WireRequest)
    ensures
        r@.url == ntfy_url(server_url@, topic@),
        r@.headers == ntfy_headers(e.event_type, token.deep_view()),
        r@.body == ntfy_body(e@),
{
    let mut url = trim_trailing_slashes(server_url.as_str());
    url.append("/");
    url.append(topic.as_str());
    assert(url@ =~= ntfy_url(server_url@, topic@));

    let mut body = String::new();
    body.append(or_unknown_str(&e.device.hostname));
    body.append("\nMAC: ");
    body.append(e.device.mac_address.as_str());
    body.append("\nIP: ");
    body.append(or_unknown_str(&e.device.ip_address));
    body.append("\nStatus: ");
    body.append(e.device.status.label());
    assert(body@ =~= ntfy_body(e@));

    let mut headers: Vec<(String, String)> = Vec::new();
    headers.push((String::from_str("Title"), String::from_str(ntfy_title_str(e.event_type))));
    headers.push((String::from_str("Priority"), String::from_str("default")));
    headers.push((String::from_str("Tags"), String::from_str("fox,network")));
    match token {
        Some(tk) => {
            let mut bearer = String::new();
            bearer.append("Bearer ");
            bearer.append(tk.as_str());
            headers.push((String::from_str("Authorization"), bearer));
        },
        None => {},
    }
    let r = WireRequest { url, headers, body };
    proof {
        assert(r@.headers =~= ntfy_headers(e.event_type, token.deep_view()));
    }
    r
}

// ---------------------------------------------------------------------------
// Webhook
// ---------------------------------------------------------------------------
/// The webhook JSON payload, keys in canonical (sorted) order; timestamps are
/// rendered as RFC 3339 strings.
pub open spec fn webhook_body(e: NotificationEventView) -> Seq<char> {
    "{\"device\":{\"hostname\":"@ + json_opt_string(e.device.hostname) + ",\"ip_address\":"@
        + json_opt_string(e.device.ip) + ",\"last_seen\":"@ + json_string(
        rfc3339_of(e.device.last_seen),
    ) + ",\"mac_address\":"@ + json_string(e.device.mac) + ",\"status\":"@ + json_string(
        status_label(e.device.status),
    ) + "},\"event_type\":"@ + json_string(trigger_label(e.event_type)) + ",\"message\":"@
        + json_string(e.message) + ",\"timestamp\":"@ + json_string(rfc3339_of(e.timestamp)) + "}"@
}

/// The webhook request headers: the JSON content type, then the configured
/// string-valued header entries in their stored order.
pub open spec fn webhook_headers(configured: Option<Seq<(Seq<char>, Seq<char>)>>) -> Seq<
    (Seq<char>, Seq<char>),
> {
    seq![("Content-Type"@, "application/json"@)] + (match configured {
        Some(h) => h,
        None => Seq::empty(),
    })
}

fn build_webhook_request(
    url: &String,
    configured: &Option<Vec<(String, String)>>,
    e: &NotificationEvent,
) -> (r: WireRequest)
    ensures
        r@.url == url@,
        r@.headers == webhook_headers(configured.deep_view()),
        r@.body == webhook_body(e@),
{
    let mut body = String::new();
    body.append("{\"device\":{\"hostname\":");
    push_json_opt_string(&mut body, &e.device.hostname);
    body.append(",\"ip_address\":");
    push_json_opt_string(&mut body, &e.device.ip_address);
    body.append(",\"last_seen\":");
    let last_seen = format_rfc3339(e.device.last_seen);
    push_json_string(&mut body, last_seen.as_str());
    body.append(",\"mac_address\":");
    push_json_string(&mut body, e.device.mac_address.as_str());
    body.append(",\"status\":");
    push_json_string(&mut body, e.device.status.label());
    body.append("},\"event_type\":");
    push_json_string(&mut body, e.event_type.label());
    body.append(",\"message\":");
    push_json_string(&mut body, e.message.as_str());
    body.append(",\"timestamp\":");
    let ts = format_rfc3339(e.timestamp);
    push_json_string(&mut body, ts.as_str());
    body.append("}");
    assert(body@ =~= webhook_body(e@));

    let mut headers: Vec<(String, String)> = Vec::new();
    headers.push((String::from_str("Content-Type"), String::from_str("application/json")));
    match configured {
        Some(h) => {
            let mut extra = clone_header_pairs(h);
            headers.append(&mut extra);
        },
        None => {},
    }
    let r = WireRequest { url: url.clone(), headers, body };
    proof {
        assert(r@.headers =~= webhook_headers(configured.deep_view()));
    }
    r
}

// ---------------------------------------------------------------------------
// One request per channel kind
// ---------------------------------------------------------------------------
/// The wire form of one delivery: which POST a channel kind sends for an
/// event.
pub open spec fn wire_for(c: ChannelView, e: NotificationEventView) -> WireRequestView {
    match c {
        ChannelView::Telegram { bot_token, chat_id } => WireRequestView {
            url: telegram_url(bot_token),
            headers: seq![("Content-Type"@, "application/json"@)],
            body: telegram_body(chat_id, telegram_text(e)),
        },
        ChannelView::Ntfy { server_url, topic, token } => WireRequestView {
            url: ntfy_url(server_url, topic),
            headers: ntfy_headers(e.event_type, token),
            body: ntfy_body(e),
        },
        ChannelView::Webhook { url, headers } => WireRequestView {
            url: url,
            headers: webhook_headers(headers),
            body: webhook_body(e),
        },
    }
}

/// Builds the one POST a channel sends for an event, matched exhaustively
/// over the closed variant set.
pub fn build_request(channel: &NotificationChannel, event: &NotificationEvent) -> (r: WireRequest)
    ensures
        r@ == wire_for(channel@, event@),
{
    match channel {
        NotificationChannel::Telegram { bot_token, chat_id } => build_telegram_request(
            bot_token,
            chat_id,
            event,
        ),
        NotificationChannel::Ntfy { server_url, topic, token } => build_ntfy_request(
            server_url,
            topic,
            token,
            event,
        ),
        NotificationChannel::Webhook { url, headers } => build_webhook_request(
            url,
            headers,
            event,
        ),
    }
}

/// The error text a failed delivery carries: the channel kind's prefix and
/// whatever the remote endpoint answered.
pub open spec fn delivery_error_text(c: ChannelView, body: Seq<char>) -> Seq<char> {
    match c {
        ChannelView::Telegram { .. } => "Telegram API error: "@ + body,
        ChannelView::Ntfy { .. } => "Ntfy error: "@ + body,
        ChannelView::Webhook { .. } => "Webhook error: "@ + body,
    }
}

/// Decides one delivery attempt from the transport's answer: a successful
/// response is success; any other answer is a notification error carrying the
/// channel kind's prefix and the response text. Never anything else, so a
/// failure stays a per-channel matter.
pub fn delivery_result(
    channel: &NotificationChannel,
    status_success: bool,
    error_body: String,
) -> (r: Result<(), DaemonError>)
    ensures
        status_success <==> r is Ok,
        !status_success ==> (r matches Err(e) && e matches DaemonError::Notification(s) && s@
            == delivery_error_text(channel@, error_body@)),
{
    if status_success {
        Ok(())
    } else {
        let prefix = match channel {
            NotificationChannel::Telegram { .. } => "Telegram API error: ",
            NotificationChannel::Ntfy { .. } => "Ntfy error: ",
            NotificationChannel::Webhook { .. } => "Webhook error: ",
        };
        Err(DaemonError::Notification(crate::text::concat2(prefix, error_body.as_str())))
    }
}

// ---------------------------------------------------------------------------
// The channel-name table
// ---------------------------------------------------------------------------
/// Whether some table entry is filed under this name.
pub open spec fn has_name(table: Seq<(Seq<char>, ChannelView)>, name: Seq<char>) -> bool {
    exists|i: int| 0 <= i < table.len() && (#[trigger] table[i]).0 == name
}

/// The position of the entry filed under this name (meaningful under
/// `has_name` and unique names).
pub open spec fn name_index(table: Seq<(Seq<char>, ChannelView)>, name: Seq<char>) -> int {
    choose|i: int| 0 <= i < table.len() && (#[trigger] table[i]).0 == name
}

/// The channel filed under this name, if any.
pub open spec fn lookup_channel(table: Seq<(Seq<char>, ChannelView)>, name: Seq<char>) -> Option<
    ChannelView,
> {
    if has_name(table, name) {
        Some(table[name_index(table, name)].1)
    } else {
        None
    }
}

/// No two entries share a name.
pub open spec fn unique_names(table: Seq<(Seq<char>, ChannelView)>) -> bool {
    forall|i: int, j: int|
        #![trigger table[i], table[j]]
        0 <= i < j < table.len() ==> table[i].0 != table[j].0
}

/// Every entry is filed under its channel's derived name.
pub open spec fn named_entries(table: Seq<(Seq<char>, ChannelView)>) -> bool {
    forall|i: int| 0 <= i < table.len() ==> (#[trigger] table[i]).0 == channel_name(table[i].1)
}

/// Filing one channel: it replaces the entry already filed under its name,
/// or is appended.
pub open spec fn filed_channel(table: Seq<(Seq<char>, ChannelView)>, c: ChannelView) -> Seq<
    (Seq<char>, ChannelView),
> {
    if has_name(table, channel_name(c)) {
        table.update(name_index(table, channel_name(c)), (channel_name(c), c))
    } else {
        table.push((channel_name(c), c))
    }
}

/// The table a channel list builds, filed in list order (so on a duplicate
/// name the later channel wins).
pub open spec fn table_from(cs: Seq<ChannelView>) -> Seq<(Seq<char>, ChannelView)>
    decreases cs.len(),
{
    if cs.len() == 0 {
        Seq::empty()
    } else {
        filed_channel(table_from(cs.drop_last()), cs.last())
    }
}

/// Under unique names, the entry found at `i` is the entry `name_index`
/// names.
pub proof fn lemma_name_index(table: Seq<(Seq<char>, ChannelView)>, name: Seq<char>, i: int)
    requires
        unique_names(table),
        0 <= i < table.len(),
        table[i].0 == name,
    ensures
        has_name(table, name),
        name_index(table, name) == i,
{
    assert(has_name(table, name));
    let j = name_index(table, name);
    assert(0 <= j < table.len() && table[j].0 == name);
    if i < j {
        assert(table[i].0 != table[j].0);
    } else if j < i {
        assert(table[j].0 != table[i].0);
    }
}

/// Locates the entry filed under `name`.
fn find_name_index(table: &Vec<(String, NotificationChannel)>, name: &str) -> (r: Option<usize>)
    ensures
        match r {
            Some(i) => i < table.len() && table.deep_view()[i as int].0 == name@,
            None => !has_name(table.deep_view(), name@),
        },
{
    let n = table.len();
    for i in 0..n
        invariant
            n == table.len(),
            forall|j: int| 0 <= j < i ==> (#[trigger] table.deep_view()[j]).0 != name@,
    {
        if str_eq(table[i].0.as_str(), name) {
            return Some(i);
        }
    }
    None
}

// ---------------------------------------------------------------------------
// The delivery plan
// ---------------------------------------------------------------------------
/// Ghost mirror of one planned delivery.
pub enum DeliveryView {
    Prepared { name: Seq<char>, request: WireRequestView },
    Missing { name: Seq<char> },
}

/// One entry of a delivery plan: a built request for a known channel name, or
/// a marker for an unknown one (logged by the caller, never fatal).
#[derive(Debug, PartialEq)]
pub enum Delivery {
    Prepared { name: String, request: WireRequest },
    Missing { name: String },
}

impl View for Delivery {
    type V = DeliveryView;

    open spec fn view(&self) -> DeliveryView {
        match self {
            Delivery::Prepared { name, request } => DeliveryView::Prepared {
                name: name@,
                request: request@,
            },
            Delivery::Missing { name } => DeliveryView::Missing { name: name@ },
        }
    }
}

impl DeepView for Delivery {
    type V = DeliveryView;

    open spec fn deep_view(&self) -> DeliveryView {
        self.view()
    }
}

/// What one requested name plans to: its channel's request, independent of
/// every other name.
pub open spec fn planned_one(
    table: Seq<(Seq<char>, ChannelView)>,
    e: NotificationEventView,
    name: Seq<char>,
) -> DeliveryView {
    match lookup_channel(table, name) {
        Some(c) => DeliveryView::Prepared { name: name, request: wire_for(c, e) },
        None => DeliveryView::Missing { name: name },
    }
}

/// The whole plan for a name list, in list order.
pub open spec fn planned(
    table: Seq<(Seq<char>, ChannelView)>,
    e: NotificationEventView,
    names: Seq<Seq<char>>,
) -> Seq<DeliveryView>
    decreases names.len(),
{
    if names.len() == 0 {
        Seq::empty()
    } else {
        planned(table, e, names.drop_last()).push(planned_one(table, e, names.last()))
    }
}

/// How many deliveries of a batch succeeded.
pub open spec fn successes(outcomes: Seq<bool>) -> int
    decreases outcomes.len(),
{
    if outcomes.len() == 0 {
        0
    } else {
        successes(outcomes.drop_last()) + (if outcomes.last() {
            1int
        } else {
            0int
        })
    }
}

// ---------------------------------------------------------------------------
// The dispatcher
// ---------------------------------------------------------------------------
/// Ghost mirror of the dispatcher: the name table and the sent counter.
pub struct NotifierView {
    pub channels: Seq<(Seq<char>, ChannelView)>,
    pub sent: u64,
}

/// The notification dispatcher: the channel-name table and the monotonic
/// count of successful deliveries.
pub struct Notifier {
    channels: Vec<(String, NotificationChannel)>,
    notifications_sent: u64,
}

impl View for Notifier {
    type V = NotifierView;

    closed spec fn view(&self) -> NotifierView {
        NotifierView { channels: self.channels.deep_view(), sent: self.notifications_sent }
    }
}

fn build_table(channels: &Vec<NotificationChannel>) -> (t: Vec<(String, NotificationChannel)>)
    ensures
        t.deep_view() == table_from(channels.deep_view()),
        unique_names(t.deep_view()),
        named_entries(t.deep_view()),
{
    let mut t: Vec<(String, NotificationChannel)> = Vec::new();
    let n = channels.len();
    proof {
        assert(channels.deep_view().take(0) =~= Seq::<ChannelView>::empty());
        assert(t.deep_view() =~= table_from(channels.deep_view().take(0)));
    }
    for i in 0..n
        invariant
            n == channels.len(),
            t.deep_view() == table_from(channels.deep_view().take(i as int)),
            unique_names(t.deep_view()),
            named_entries(t.deep_view()),
    {
        let ghost cv = channels.deep_view();
        proof {
            assert(cv.take(i as int + 1).drop_last() =~= cv.take(i as int));
            assert(cv.take(i as int + 1).last() == cv[i as int]);
        }
        let ghost t0 = t.deep_view();
        let name = channels[i].name();
        let c = channels[i].clone();
        match find_name_index(&t, name.as_str()) {
            Some(j) => {
                proof {
                    lemma_name_index(t0, name@, j as int);
                }
                t[j] = (name, c);
                proof {
                    assert(t.deep_view() =~= filed_channel(t0, cv[i as int]));
                }
            },
            None => {
                t.push((name, c));
                proof {
                    assert(t.deep_view() =~= filed_channel(t0, cv[i as int]));
                }
            },
        }
    }
    proof {
        assert(channels.deep_view().take(n as int) =~= channels.deep_view());
    }
    t
}

impl Notifier {
    /// Internal consistency: entries filed under unique, derived names.
    pub open spec fn wf(self) -> bool {
        unique_names(self@.channels) && named_entries(self@.channels)
    }

    /// A dispatcher over the given channels, counter at zero. On a duplicate
    /// derived name the later channel wins.
    pub fn new(channels: Vec<NotificationChannel>) -> (r: Self)
        ensures
            r.wf(),
            r@.channels == table_from(channels.deep_view()),
            r@.sent == 0,
    {
        Notifier { channels: build_table(&channels), notifications_sent: 0 }
    }

    /// Replaces the whole channel table atomically; the sent counter stays.
    pub fn update_channels(&mut self, channels: Vec<NotificationChannel>)
        ensures
            final(self).wf(),
            final(self)@.channels == table_from(channels.deep_view()),
            final(self)@.sent == old(self)@.sent,
    {
        self.channels = build_table(&channels);
    }

    /// The channel filed under a name, if any.
    pub fn get_channel(&self, name: &str) -> (r: Option<&NotificationChannel>)
        requires
            self.wf(),
        ensures
            match r {
                Some(c) => lookup_channel(self@.channels, name@) == Some(c@),
                None => lookup_channel(self@.channels, name@) is None,
            },
    {
        match find_name_index(&self.channels, name) {
            Some(i) => {
                proof {
                    lemma_name_index(self@.channels, name@, i as int);
                }
                Some(&self.channels[i].1)
            },
            None => None,
        }
    }

    /// Plans one delivery per requested name, in list order: a built request
    /// where the name is known, a marker where it is not. Each name's entry
    /// depends only on that name's channel, never on the other names or on
    /// any delivery outcome.
    pub fn plan_deliveries(&self, event: &NotificationEvent, channel_names: &Vec<String>) -> (plan:
        Vec<Delivery>)
        requires
            self.wf(),
        ensures
            plan.deep_view() == planned(self@.channels, event@, channel_names.deep_view()),
    {
        let mut plan: Vec<Delivery> = Vec::new();
        let n = channel_names.len();
        proof {
            assert(channel_names.deep_view().take(0) =~= Seq::<Seq<char>>::empty());
            assert(plan.deep_view() =~= planned(
                self@.channels,
                event@,
                channel_names.deep_view().take(0),
            ));
        }
        for i in 0..n
            invariant
                n == channel_names.len(),
                self.wf(),
                plan.deep_view() == planned(
                    self@.channels,
                    event@,
                    channel_names.deep_view().take(i as int),
                ),
        {
            let ghost nv = channel_names.deep_view();
            proof {
                assert(nv.take(i as int + 1).drop_last() =~= nv.take(i as int));
                assert(nv.take(i as int + 1).last() == nv[i as int]);
            }
            let name = channel_names[i].clone();
            let entry = match self.get_channel(name.as_str()) {
                Some(c) => {
                    let request = build_request(c, event);
                    Delivery::Prepared { name, request }
                },
                None => Delivery::Missing { name },
            };
            plan.push(entry);
            proof {
                assert(plan.deep_view() =~= planned(
                    self@.channels,
                    event@,
                    nv.take(i as int + 1),
                ));
            }
        }
        proof {
            assert(channel_names.deep_view().take(n as int) =~= channel_names.deep_view());
        }
        plan
    }

    /// Records one delivery outcome: the sent counter grows by one on
    /// success and not at all on failure.
    pub fn record_outcome(&mut self, delivered: bool)
        requires
            old(self)@.sent < u64::MAX,
        ensures
            final(self)@.channels == old(self)@.channels,
            final(self)@.sent == old(self)@.sent + (if delivered {
                1int
            } else {
                0int
            }),
            old(self).wf() ==> final(self).wf(),
    {
        if delivered {
            self.notifications_sent = self.notifications_sent + 1;
        }
    }

    /// Records a whole batch of outcomes: the counter grows by exactly the
    /// number of successes, however the failures are interleaved.
    pub fn record_outcomes(&mut self, outcomes: &Vec<bool>)
        requires
            old(self)@.sent + successes(outcomes@) <= u64::MAX,
        ensures
            final(self)@.channels == old(self)@.channels,
            final(self)@.sent == old(self)@.sent + successes(outcomes@),
            old(self).wf() ==> final(self).wf(),
    {
        let n = outcomes.len();
        proof {
            assert(outcomes@.take(0) =~= Seq::<bool>::empty());
            lemma_successes_bounds(outcomes@);
        }
        for i in 0..n
            invariant
                n == outcomes.len(),
                self@.channels == old(self)@.channels,
                self@.sent == old(self)@.sent + successes(outcomes@.take(i as int)),
                old(self)@.sent + successes(outcomes@) <= u64::MAX,
                old(self).wf() ==> self.wf(),
        {
            proof {
                assert(outcomes@.take(i as int + 1).drop_last() =~= outcomes@.take(i as int));
                assert(outcomes@.take(i as int + 1).last() == outcomes@[i as int]);
                lemma_successes_take_le(outcomes@, i as int + 1);
            }
            if outcomes[i] {
                self.notifications_sent = self.notifications_sent + 1;
            }
        }
        proof {
            assert(outcomes@.take(n as int) =~= outcomes@);
        }
    }

    /// The number of successful deliveries so far.
    pub fn get_notifications_sent(&self) -> (r: u64)
        ensures
            r == self@.sent,
    {
        self.notifications_sent
    }
}

/// A batch has between zero and all-of-them successes.
pub proof fn lemma_successes_bounds(outcomes: Seq<bool>)
    ensures
        0 <= successes(outcomes) <= outcomes.len(),
    decreases outcomes.len(),
{
    if outcomes.len() > 0 {
        lemma_successes_bounds(outcomes.drop_last());
    }
}

/// A prefix of a batch has no more successes than the batch.
pub proof fn lemma_successes_take_le(outcomes: Seq<bool>, n: int)
    requires
        0 <= n <= outcomes.len(),
    ensures
        successes(outcomes.take(n)) <= successes(outcomes),
    decreases outcomes.len() - n,
{
    if n < outcomes.len() {
        assert(outcomes.take(n + 1).drop_last() =~= outcomes.take(n));
        lemma_successes_bounds(outcomes.take(n));
        lemma_successes_take_le(outcomes, n + 1);
    } else {
        assert(outcomes.take(n) =~= outcomes);
    }
}

/// Per-channel isolation: a plan has one entry per requested name, and each
/// entry is decided by that name's table lookup alone — in particular, a name
/// whose channel is known is planned whatever happens to any other name's
/// delivery.
pub proof fn lemma_plan_isolated(
    table: Seq<(Seq<char>, ChannelView)>,
    e: NotificationEventView,
    names: Seq<Seq<char>>,
    i: int,
)
    requires
        0 <= i < names.len(),
    ensures
        planned(table, e, names).len() == names.len(),
        planned(table, e, names)[i] == planned_one(table, e, names[i]),
    decreases names.len(),
{
    if names.len() > 0 {
        if i == names.len() - 1 {
            lemma_plan_len(table, e, names.drop_last());
        } else {
            lemma_plan_isolated(table, e, names.drop_last(), i);
        }
        lemma_plan_len(table, e, names);
    }
}

/// A rule naming two channels, where the first delivery will fail and the
/// second succeed: both deliveries are planned — each request depends only on
/// its own name's table entry, never on the other's outcome — and recording
/// the two outcomes grows the success counter by exactly one, not zero and
/// not two.
pub proof fn lemma_failure_isolation(
    table: Seq<(Seq<char>, ChannelView)>,
    e: NotificationEventView,
    a: Seq<char>,
    b: Seq<char>,
)
    requires
        has_name(table, a),
        has_name(table, b),
    ensures
        planned(table, e, seq![a, b]) == seq![
            DeliveryView::Prepared { name: a, request: wire_for(table[name_index(table, a)].1, e) },
            DeliveryView::Prepared { name: b, request: wire_for(table[name_index(table, b)].1, e) },
        ],
        successes(seq![false, true]) == 1,
{
    let names = seq![a, b];
    assert(names.drop_last() =~= seq![a]);
    assert(seq![a].drop_last() =~= Seq::<Seq<char>>::empty());
    assert(names.last() == b && seq![a].last() == a);
    assert(planned(table, e, Seq::<Seq<char>>::empty()) =~= Seq::<DeliveryView>::empty());
    assert(planned(table, e, seq![a]) =~= seq![planned_one(table, e, a)]);
    assert(planned(table, e, names) =~= planned(table, e, seq![a]).push(
        planned_one(table, e, b),
    ));
    assert(planned(table, e, names) =~= seq![
        planned_one(table, e, a),
        planned_one(table, e, b),
    ]);
    assert(seq![false, true].drop_last() =~= seq![false]);
    assert(seq![false].drop_last() =~= Seq::<bool>::empty());
    assert(seq![false, true].last() == true && seq![false].last() == false);
    assert(successes(Seq::<bool>::empty()) == 0);
    assert(successes(seq![false]) == 0);
    assert(successes(seq![false, true]) == 1);
}

/// A plan is exactly as long as its name list.
pub proof fn lemma_plan_len(
    table: Seq<(Seq<char>, ChannelView)>,
    e: NotificationEventView,
    names: Seq<Seq<char>>,
)
    ensures
        planned(table, e, names).len() == names.len(),
    decreases names.len(),
{
    if names.len() > 0 {
        lemma_plan_len(table, e, names.drop_last());
    }
}

} // verus!
