//! Notifications through Pushover.

use crate::http::is_success;
use crate::http::outcome_view;
use crate::http::pairs;
use crate::http::push_pair;
use crate::http::Body;
use crate::http::BodyView;
use crate::http::HttpReplyView;
use crate::http::HttpRequest;
use crate::http::HttpRequestView;
use crate::http::Method;
use crate::http::Outcome;
use crate::http::Pair;
use crate::number::decimal_signed;
use crate::number::decimal_signed_text;
use crate::text::cat2;
use crate::text::copy_text;
use vstd::prelude::*;

verus! {

/// The credentials that notifications are sent with.
#[derive(Debug)]
pub struct PushoverClient {
    pub app_token: String,
    pub user_key: String,
}

/// A notification.
#[derive(Debug)]
pub struct Notification {
    pub title: String,
    pub message: String,
    pub priority: i8,
    pub sound: String,
}

pub struct NotificationView {
    pub title: Seq<char>,
    pub message: Seq<char>,
    pub priority: i8,
    pub sound: Seq<char>,
}

impl View for Notification {
    type V = NotificationView;

    open spec fn view(&self) -> NotificationView {
        NotificationView {
            title: self.title@,
            message: self.message@,
            priority: self.priority,
            sound: self.sound@,
        }
    }
}

/// The request that sends a notification.
pub open spec fn notification_request(
    app_token: Seq<char>,
    user_key: Seq<char>,
    n: NotificationView,
) -> HttpRequestView {
    HttpRequestView {
        method: Method::Post,
        url: "https://api.pushover.net/1/messages.json"@,
        headers: Seq::empty(),
        body: BodyView::Form(
            seq![
                ("token"@, app_token),
                ("user"@, user_key),
                ("title"@, n.title),
                ("message"@, n.message),
                ("priority"@, decimal_signed(n.priority as int)),
                ("sound"@, n.sound),
            ],
        ),
        timeout_secs: None,
    }
}

/// Whether a notification was sent, given the reply to its request and the text of its
/// status.
pub open spec fn sent_result(outcome: Result<HttpReplyView, Seq<char>>, status: Seq<char>) -> Result<
    (),
    Seq<char>,
> {
    match outcome {
        Ok(reply) => if is_success(reply.status) {
            Ok(())
        } else {
            Err("Pushover API error: "@ + status)
        },
        Err(cause) => Err(cause),
    }
}

impl PushoverClient {
    /// A client with credentials.
    pub fn new(app_token: String, user_key: String) -> (r: Self)
        ensures
            r.app_token@ == app_token@,
            r.user_key@ == user_key@,
    {
        PushoverClient { app_token, user_key }
    }

    /// The request that sends a notification.
    pub fn request(&self, n: &Notification) -> (r: HttpRequest)
        ensures
            r@ == notification_request(self.app_token@, self.user_key@, n@),
    {
        let mut fields: Vec<Pair> = Vec::new();
        assert(pairs(fields@) =~= Seq::<(Seq<char>, Seq<char>)>::empty());
        let priority = decimal_signed_text(n.priority as i64);
        push_pair(&mut fields, "token", self.app_token.as_str());
        push_pair(&mut fields, "user", self.user_key.as_str());
        push_pair(&mut fields, "title", n.title.as_str());
        push_pair(&mut fields, "message", n.message.as_str());
        push_pair(&mut fields, "priority", priority.as_str());
        push_pair(&mut fields, "sound", n.sound.as_str());
        let r = HttpRequest {
            method: Method::Post,
            url: copy_text("https://api.pushover.net/1/messages.json"),
            headers: Vec::new(),
            body: Body::Form(fields),
            timeout_secs: None,
        };
        proof {
            let wanted = notification_request(self.app_token@, self.user_key@, n@);
            assert(r@.headers =~= wanted.headers);
            assert(r@.body->Form_0 =~= wanted.body->Form_0);
        }
        r
    }

    /// Whether a notification was sent: where the reply is a success. Else the
    /// error tells the status, of which `status` is the text.
    pub fn send(outcome: &Outcome, status: &str) -> (r: Result<(), String>)
        ensures
            match r {
                Ok(_) => sent_result(outcome_view(*outcome), status@) is Ok,
                Err(e) => sent_result(outcome_view(*outcome), status@) == Err::<(), Seq<char>>(e@),
            },
            match (outcome_view(*outcome), r) {
                (Ok(reply), Ok(_)) => is_success(reply.status),
                (Ok(reply), Err(e)) => !is_success(reply.status) && e@ == "Pushover API error: "@
                    + status@,
                (Err(cause), Err(e)) => e@ == cause,
                (Err(_), Ok(_)) => false,
            },
    {
        match outcome {
            Ok(reply) => {
                if reply.is_success() {
                    Ok(())
                } else {
                    Err(cat2("Pushover API error: ", status))
                }
            },
            Err(cause) => Err(cause.clone()),
        }
    }
}

// ---------------------------------------------------------------------------
// Laws
// ---------------------------------------------------------------------------

/// A notification is posted as a form with these fields: the credentials, its title, its
/// message, its priority as a number and its sound.
pub proof fn law_notifications_are_posted(
    app_token: Seq<char>,
    user_key: Seq<char>,
    n: NotificationView,
)
    ensures
        ({
            let r = notification_request(app_token, user_key, n);
            &&& r.method == Method::Post
            &&& r.url == "https://api.pushover.net/1/messages.json"@
            &&& r.headers.len() == 0
            &&& r.timeout_secs is None
            &&& r.body matches BodyView::Form(fields) && fields.len() == 6 && fields.contains(
                ("token"@, app_token),
            ) && fields.contains(("user"@, user_key)) && fields.contains(("title"@, n.title))
                && fields.contains(("message"@, n.message)) && fields.contains(
                ("priority"@, decimal_signed(n.priority as int)),
            ) && fields.contains(("sound"@, n.sound))
        }),
{
    let fields = notification_request(app_token, user_key, n).body->Form_0;
    assert(fields[0] == ("token"@, app_token));
    assert(fields[1] == ("user"@, user_key));
    assert(fields[2] == ("title"@, n.title));
    assert(fields[3] == ("message"@, n.message));
    assert(fields[4] == ("priority"@, decimal_signed(n.priority as int)));
    assert(fields[5] == ("sound"@, n.sound));
}

/// A notification was sent if and only if the reply has a status between 200 and 299. A reply
/// with another one is told by its status; where none came, what went wrong is told.
pub proof fn law_sent_notifications_are_confirmed(
    reply: HttpReplyView,
    status: Seq<char>,
    e: Seq<char>,
)
    ensures
        sent_result(Ok(reply), status) is Ok <==> 200 <= reply.status <= 299,
        !(200 <= reply.status <= 299) ==> sent_result(Ok(reply), status) == Err::<(), Seq<char>>(
            "Pushover API error: "@ + status,
        ),
        sent_result(Err(e), status) == Err::<(), Seq<char>>(e),
{
}

} // verus!
