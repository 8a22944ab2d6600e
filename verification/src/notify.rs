//! Which notification channels are used, and the cooldown that keeps the
//! service from alerting again too soon.
use vstd::prelude::*;
use crate::config::{EmailConfig, NotificationsConfig};
use crate::time::{UtcInstant, minutes_between, utc_now, whole_minutes_between, lemma_whole_minutes_bracket};

verus! {

/// A channel through which alerts are delivered.
#[derive(Clone, Copy, Debug, PartialEq, Eq, Structural)]
pub enum NotifierKind {
    Webhook,
    Desktop,
    Email,
}

/// The name of a channel, as it is recorded on the alerts it delivered.
pub open spec fn notifier_name(kind: NotifierKind) -> Seq<char> {
    match kind {
        NotifierKind::Webhook => "webhook"@,
        NotifierKind::Desktop => "desktop"@,
        NotifierKind::Email => "email"@,
    }
}

impl NotifierKind {
    /// The channel's name: `webhook`, `desktop` or `email`.
    pub fn name(&self) -> (s: String)
        ensures
            s@ == notifier_name(*self),
    {
        match self {
            NotifierKind::Webhook => String::from_str("webhook"),
            NotifierKind::Desktop => String::from_str("desktop"),
            NotifierKind::Email => String::from_str("email"),
        }
    }
}

/// Delivers alerts as desktop notifications.
#[derive(Clone, Copy, Debug)]
pub struct DesktopNotifier;

/// Delivers alerts by email through the configured SMTP account.
#[derive(Clone, Debug)]
pub struct EmailNotifier {
    pub config: EmailConfig,
}

impl EmailNotifier {
    pub fn new(config: EmailConfig) -> (n: Self)
        ensures
            n.config == config,
    {
        EmailNotifier { config }
    }
}

/// The channels in use, in the order in which they are tried: the webhook
/// when a URL is set, the desktop when enabled, email when enabled and an
/// SMTP host is set.
pub open spec fn enabled_kinds(
    webhook_url: Seq<char>,
    desktop_enabled: bool,
    email_enabled: bool,
    smtp_host: Seq<char>,
) -> Seq<NotifierKind> {
    let a: Seq<NotifierKind> = if webhook_url.len() > 0 {
        seq![NotifierKind::Webhook]
    } else {
        Seq::empty()
    };
    let b: Seq<NotifierKind> = if desktop_enabled {
        a.push(NotifierKind::Desktop)
    } else {
        a
    };
    if email_enabled && smtp_host.len() > 0 {
        b.push(NotifierKind::Email)
    } else {
        b
    }
}

/// Chooses the channels from the settings.
pub fn enabled_notifiers(config: &NotificationsConfig, email_config: &EmailConfig) -> (kinds: Vec<
    NotifierKind,
>)
    ensures
        kinds@ == enabled_kinds(
            config.webhook_url@,
            config.desktop_enabled,
            config.email_enabled,
            email_config.smtp_host@,
        ),
{
    let mut kinds: Vec<NotifierKind> = Vec::new();
    if !config.webhook_url.as_str().is_empty() {
        kinds.push(NotifierKind::Webhook);
    }
    if config.desktop_enabled {
        kinds.push(NotifierKind::Desktop);
    }
    if config.email_enabled && !email_config.smtp_host.as_str().is_empty() {
        kinds.push(NotifierKind::Email);
    }
    proof {
        let w = config.webhook_url@;
        if w.len() > 0 {
            assert(Seq::<NotifierKind>::empty().push(NotifierKind::Webhook) =~= seq![
                NotifierKind::Webhook,
            ]);
        }
    }
    kinds
}

/// Law: no channel is used twice.
pub proof fn lemma_enabled_kinds_distinct(
    webhook_url: Seq<char>,
    desktop_enabled: bool,
    email_enabled: bool,
    smtp_host: Seq<char>,
)
    ensures
        ({
            let k = enabled_kinds(webhook_url, desktop_enabled, email_enabled, smtp_host);
            &&& k.len() <= 3
            &&& forall|i: int, j: int| 0 <= i < j < k.len() ==> k[i] != k[j]
        }),
{
}

/// Law: each channel is chosen exactly when its own settings turn it on: the
/// webhook when a URL is set, the desktop when enabled, email when enabled
/// and an SMTP host is set; and they come in that order.
pub proof fn lemma_enabled_kinds_follow_settings(
    webhook_url: Seq<char>,
    desktop_enabled: bool,
    email_enabled: bool,
    smtp_host: Seq<char>,
)
    ensures
        ({
            let k = enabled_kinds(webhook_url, desktop_enabled, email_enabled, smtp_host);
            &&& k.contains(NotifierKind::Webhook) <==> webhook_url.len() > 0
            &&& k.contains(NotifierKind::Desktop) <==> desktop_enabled
            &&& k.contains(NotifierKind::Email) <==> (email_enabled && smtp_host.len() > 0)
            &&& forall|i: int, j: int|
                0 <= i < j < k.len() ==> (k[i] == NotifierKind::Webhook || k[j]
                    == NotifierKind::Email)
        }),
{
    let k = enabled_kinds(webhook_url, desktop_enabled, email_enabled, smtp_host);
    if k.contains(NotifierKind::Webhook) {
        let i = choose|i: int| 0 <= i < k.len() && k[i] == NotifierKind::Webhook;
    }
    if k.contains(NotifierKind::Desktop) {
        let i = choose|i: int| 0 <= i < k.len() && k[i] == NotifierKind::Desktop;
    }
    if k.contains(NotifierKind::Email) {
        let i = choose|i: int| 0 <= i < k.len() && k[i] == NotifierKind::Email;
    }
    if webhook_url.len() > 0 {
        assert(k[0] == NotifierKind::Webhook);
    }
    if desktop_enabled {
        let a: Seq<NotifierKind> = if webhook_url.len() > 0 {
            seq![NotifierKind::Webhook]
        } else {
            Seq::empty()
        };
        assert(k[a.len() as int] == NotifierKind::Desktop);
    }
    if email_enabled && smtp_host.len() > 0 {
        assert(k[k.len() - 1] == NotifierKind::Email);
    }
}

/// Keeps alerts from being sent again within the cooldown after a delivered one.
#[derive(Clone, Copy, Debug)]
pub struct AlertCooldown {
    cooldown_minutes: u64,
    /// When an alert was last delivered through at least one channel.
    last_notification: Option<UtcInstant>,
}

impl AlertCooldown {
    /// The recorded delivery time, if any, lies outside leap seconds and in range.
    #[verifier::type_invariant]
    spec fn inv(self) -> bool {
        self.last_notification matches Some(t) ==> t.is_regular()
    }

    /// The length of the cooldown, in minutes.
    pub closed spec fn minutes(self) -> u64 {
        self.cooldown_minutes
    }

    /// When an alert was last delivered through at least one channel.
    pub closed spec fn last_delivery(self) -> Option<UtcInstant> {
        self.last_notification
    }

    /// An alert at `now` is held back: an earlier delivery is fewer whole
    /// minutes ago than the cooldown (read as a signed number, as
    /// `cooldown_minutes as i64` does).
    pub open spec fn suppressed_at(self, now: UtcInstant) -> bool {
        match self.last_delivery() {
            Some(last) => whole_minutes_between(now, last) < (self.minutes() as i64),
            None => false,
        }
    }

    /// A cooldown that has not seen any alert.
    pub fn new(cooldown_minutes: u64) -> (c: Self)
        ensures
            c.minutes() == cooldown_minutes,
            c.last_delivery() is None,
    {
        AlertCooldown { cooldown_minutes, last_notification: None }
    }

    /// The length of the cooldown, in minutes.
    pub fn cooldown_minutes(&self) -> (m: u64)
        ensures
            m == self.minutes(),
    {
        self.cooldown_minutes
    }

    /// When an alert was last delivered through at least one channel.
    pub fn last_notification(&self) -> (t: Option<UtcInstant>)
        ensures
            t == self.last_delivery(),
            t matches Some(x) ==> x.is_regular(),
    {
        proof {
            use_type_invariant(self);
        }
        self.last_notification
    }

    /// Whether an alert at `now` is held back by the cooldown.
    pub fn is_suppressed(&self, now: UtcInstant) -> (b: bool)
        requires
            now.is_regular(),
        ensures
            b == self.suppressed_at(now),
    {
        proof {
            use_type_invariant(self);
        }
        match self.last_notification {
            Some(last) => {
                let elapsed = minutes_between(now, last);
                elapsed < self.cooldown_minutes as i64
            },
            None => false,
        }
    }

    /// Reads the clock and returns the reading together with whether an
    /// alert may be sent at that instant.
    pub fn open_now(&self) -> (r: (UtcInstant, bool))
        ensures
            r.0.is_regular(),
            r.0.secs >= 0,
            r.1 == !self.suppressed_at(r.0),
    {
        let now = utc_now();
        let open = !self.is_suppressed(now);
        (now, open)
    }

    /// Records the outcome of an alert round at `now`: the names of the
    /// channels that got the alert through. A round in which no channel
    /// succeeded leaves the cooldown unchanged.
    pub fn record_round(&mut self, now: UtcInstant, delivered: &Vec<String>)
        requires
            now.is_regular(),
        ensures
            final(self).minutes() == old(self).minutes(),
            final(self).last_delivery() == (if delivered@.len() > 0 {
                Some(now)
            } else {
                old(self).last_delivery()
            }),
            delivered@.len() == 0 ==> *final(self) == *old(self),
    {
        if delivered.len() > 0 {
            self.last_notification = Some(now);
        }
    }
}

/// Law: a cooldown that has not seen any alert lets every alert through.
pub proof fn lemma_fresh_cooldown_open(state: AlertCooldown, now: UtcInstant)
    requires
        state.last_delivery() is None,
    ensures
        !state.suppressed_at(now),
{
}

/// Law: after an alert was delivered at `sent`, an alert fewer whole minutes
/// later than the cooldown is held back.
pub proof fn lemma_recent_delivery_suppresses(
    state: AlertCooldown,
    sent: UtcInstant,
    later: UtcInstant,
)
    requires
        state.last_delivery() == Some(sent),
        0 <= whole_minutes_between(later, sent) < state.minutes(),
        state.minutes() <= i64::MAX,
    ensures
        state.suppressed_at(later),
{
}

/// Law: an alert at or after the last delivery is held back exactly when less
/// than the cooldown's length of time has passed since that delivery, however
/// long ago it was.
pub proof fn lemma_suppressed_iff_within_cooldown(state: AlertCooldown, now: UtcInstant)
    requires
        state.last_delivery() matches Some(last) && now.total_nanos() >= last.total_nanos(),
        state.minutes() <= i64::MAX,
    ensures
        state.suppressed_at(now) <==> now.total_nanos() - state.last_delivery()->0.total_nanos()
            < state.minutes() * 60_000_000_000,
{
    let last = state.last_delivery()->0;
    lemma_whole_minutes_bracket(now, last);
    let d = now.total_nanos() - last.total_nanos();
    let m = whole_minutes_between(now, last);
    let c = state.minutes() as int;
    assert(state.minutes() as i64 == c);
    assert((m < c) <==> (d < c * 60_000_000_000)) by (nonlinear_arith)
        requires
            d >= 0,
            m * 60_000_000_000 <= d < (m + 1) * 60_000_000_000,
    ;
}

/// Law: once the cooldown has run out since the last delivery, alerts go through.
pub proof fn lemma_cooldown_expires(state: AlertCooldown, now: UtcInstant)
    requires
        state.last_delivery() matches Some(last) && whole_minutes_between(now, last)
            >= state.minutes(),
        state.minutes() <= i64::MAX,
    ensures
        !state.suppressed_at(now),
{
}

} // verus!
