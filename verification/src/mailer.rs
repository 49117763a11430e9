//! Outbound notifications.
//!
//! A hook never talks to a transport: it appends to the engine's outbox
//! (external mail) and to the store's mailbox (internal notification), and
//! an independent worker outside the engine drains the outbox one message
//! at a time. The texts a hook writes are pinned here, down to the decimal
//! rendering of the action link.

use vstd::prelude::*;

use crate::events::Context;
use crate::types::{EmptyResult, Id, User};

verus! {

/// Sender name shown on internal notifications.
pub const PHOTOMETER: &'static str = "Photometer";

/// One message queued for external delivery.
pub struct Mail {
    pub to_addr: String,
    pub to_name: String,
    pub subject: String,
    pub body: String,
}

/// What an external transport needs to know: server, sender account and a
/// scratch file for the message body.
pub struct MailContext {
    pub smtp_addr: String,
    pub from_addr: String,
    pub tmp_mail_file: String,
    pub auth_info: String,
}

impl MailContext {
    /// Collects the transport settings; the credential pair is kept as the
    /// `user:password` form the transport wants.
    pub fn new(smtp_addr: &str, from_addr: &str, pass: &str, tmp_file_path: &str) -> (r:
        MailContext)
        ensures
            r.smtp_addr@ == smtp_addr@,
            r.from_addr@ == from_addr@,
            r.tmp_mail_file@ == tmp_file_path@,
            r.auth_info@ == from_addr@ + ":"@ + pass@,
    {
        MailContext {
            smtp_addr: smtp_addr.to_owned(),
            from_addr: from_addr.to_owned(),
            tmp_mail_file: tmp_file_path.to_owned(),
            auth_info: from_addr.to_owned().concat(":").concat(pass),
        }
    }
}

/// The character of one decimal digit.
pub open spec fn digit_char(d: nat) -> char {
    if d == 0 {
        '0'
    } else if d == 1 {
        '1'
    } else if d == 2 {
        '2'
    } else if d == 3 {
        '3'
    } else if d == 4 {
        '4'
    } else if d == 5 {
        '5'
    } else if d == 6 {
        '6'
    } else if d == 7 {
        '7'
    } else if d == 8 {
        '8'
    } else {
        '9'
    }
}

/// The decimal digits of a number, most significant first.
pub open spec fn dec_digits(n: nat) -> Seq<char>
    decreases n,
{
    if n < 10 {
        seq![digit_char(n)]
    } else {
        dec_digits(n / 10) + seq![digit_char(n % 10)]
    }
}

/// One decimal digit as text.
fn digit_str(d: u64) -> (r: &'static str)
    requires
        d < 10,
    ensures
        r@ == seq![digit_char(d as nat)],
{
    proof {
        reveal_strlit("0");
        reveal_strlit("1");
        reveal_strlit("2");
        reveal_strlit("3");
        reveal_strlit("4");
        reveal_strlit("5");
        reveal_strlit("6");
        reveal_strlit("7");
        reveal_strlit("8");
        reveal_strlit("9");
    }
    let r: &'static str = if d == 0 {
        "0"
    } else if d == 1 {
        "1"
    } else if d == 2 {
        "2"
    } else if d == 3 {
        "3"
    } else if d == 4 {
        "4"
    } else if d == 5 {
        "5"
    } else if d == 6 {
        "6"
    } else if d == 7 {
        "7"
    } else if d == 8 {
        "8"
    } else {
        "9"
    };
    proof {
        assert(r@ =~= seq![digit_char(d as nat)]);
    }
    r
}

/// Renders a number in decimal.
pub fn u64_to_dec_string(n: u64) -> (s: String)
    ensures
        s@ == dec_digits(n as nat),
    decreases n,
{
    if n < 10 {
        digit_str(n).to_owned()
    } else {
        let rest = u64_to_dec_string(n / 10);
        rest.concat(digit_str(n % 10))
    }
}

/// The deep link back to one scheduled instance's action endpoint.
pub open spec fn spec_event_action_link(scheduled_id: Id) -> Seq<char> {
    "/event/action?id="@ + dec_digits(scheduled_id as nat)
}

/// Builds the deep link back to a scheduled instance's action endpoint.
pub fn make_event_action_link(scheduled_id: Id) -> (s: String)
    ensures
        s@ == spec_event_action_link(scheduled_id),
{
    String::from_str("/event/action?id=").concat(u64_to_dec_string(scheduled_id).as_str())
}

/// Subject of the mail a publication window opens with.
pub open spec fn publication_mail_subject(name: Seq<char>) -> Seq<char> {
    "Publication '"@ + name + "'"@
}

/// Body of the mail a publication window opens with.
pub open spec fn publication_mail_body(user_name: Seq<char>, scheduled_id: Id) -> Seq<char> {
    "Hello "@ + user_name + ", it is time to publish a photo. Choose one from your gallery at "@
        + spec_event_action_link(scheduled_id) + "."@
}

/// Writes the subject and body advertising a publication window to one
/// group member.
pub fn write_time_for_publication_mail(name: &str, user_name: &str, scheduled_id: Id) -> (r: (
    String,
    String,
))
    ensures
        r.0@ == publication_mail_subject(name@),
        r.1@ == publication_mail_body(user_name@, scheduled_id),
{
    let subject = String::from_str("Publication '").concat(name).concat("'");
    let link = make_event_action_link(scheduled_id);
    let body = String::from_str("Hello ").concat(user_name).concat(
        ", it is time to publish a photo. Choose one from your gallery at ",
    ).concat(link.as_str()).concat(".");
    (subject, body)
}

/// Holds when `m` is the external message of `subject` and `body` to
/// `user`.
pub open spec fn mail_entry(user: User, subject: Seq<char>, body: Seq<char>, m: Mail) -> bool {
    &&& m.to_addr@ == user.mail@
    &&& m.to_name@ == user.name@
    &&& m.subject@ == subject
    &&& m.body@ == body
}

/// Holds when `m` is the internal notification of `subject` and `body` to
/// `user`, under `sender`'s name.
pub open spec fn mailbox_entry(
    user: User,
    sender: Seq<char>,
    subject: Seq<char>,
    body: Seq<char>,
    m: crate::store::MailRow,
) -> bool {
    &&& m.user_id == user.id
    &&& m.sender@ == sender
    &&& m.subject@ == subject
    &&& m.body@ == body
}

/// The notification operations a hook may call; the request context
/// implements them over the outbox and the store's mailbox.
pub trait Mailer: Sized {
    /// The external messages queued so far.
    spec fn external_log(&self) -> Seq<Mail>;

    /// The internal notifications delivered so far.
    spec fn internal_log(&self) -> Seq<crate::store::MailRow>;

    /// Nothing outside the two message logs differs between the two
    /// states, and well-formedness carries over.
    spec fn mail_frame(&self, other: &Self) -> bool;

    /// Queues a message for external delivery. Enqueueing cannot fail;
    /// the worker that drains the queue tolerates delivery failures on
    /// its own.
    fn send_external_mail(&mut self, user: &User, subject: &str, body: &str) -> (r: EmptyResult)
        ensures
            r == EmptyResult::Ok(()),
            final(self).external_log().len() == old(self).external_log().len() + 1,
            final(self).external_log().subrange(0, old(self).external_log().len() as int) == old(
                self,
            ).external_log(),
            mail_entry(*user, subject@, body@, final(self).external_log().last()),
            final(self).internal_log() == old(self).internal_log(),
            old(self).mail_frame(final(self)),
    ;

    /// Delivers an internal notification under the application's own
    /// sender name.
    fn send_internal_mail(&mut self, user: &User, subject: &str, body: &str) -> (r: EmptyResult)
        ensures
            r == EmptyResult::Ok(()),
            final(self).internal_log().len() == old(self).internal_log().len() + 1,
            final(self).internal_log().subrange(0, old(self).internal_log().len() as int) == old(
                self,
            ).internal_log(),
            mailbox_entry(*user, PHOTOMETER@, subject@, body@, final(self).internal_log().last()),
            final(self).external_log() == old(self).external_log(),
            old(self).mail_frame(final(self)),
    ;

    /// Sends one message to a user: the internal notification and the
    /// external copy.
    fn send_mail(&mut self, user: &User, subject: &str, body: &str) -> (r: EmptyResult)
        ensures
            r == EmptyResult::Ok(()),
            final(self).internal_log().len() == old(self).internal_log().len() + 1,
            final(self).internal_log().subrange(0, old(self).internal_log().len() as int) == old(
                self,
            ).internal_log(),
            mailbox_entry(*user, PHOTOMETER@, subject@, body@, final(self).internal_log().last()),
            final(self).external_log().len() == old(self).external_log().len() + 1,
            final(self).external_log().subrange(0, old(self).external_log().len() as int) == old(
                self,
            ).external_log(),
            mail_entry(*user, subject@, body@, final(self).external_log().last()),
            old(self).mail_frame(final(self)),
    ;
}

impl Mailer for Context {
    open spec fn external_log(&self) -> Seq<Mail> {
        self.outbox@
    }

    open spec fn internal_log(&self) -> Seq<crate::store::MailRow> {
        self.store.mailbox@
    }

    open spec fn mail_frame(&self, other: &Self) -> bool {
        &&& other.now == self.now
        &&& other.store.members@ == self.store.members@
        &&& other.store.users@ == self.store.users@
        &&& other.store.photos@ == self.store.photos@
        &&& other.store.publications@ == self.store.publications@
        &&& other.store.tallies@ == self.store.tallies@
        &&& other.store.created_events@ == self.store.created_events@
        &&& self.store.wf() ==> other.store.wf()
    }

    fn send_external_mail(&mut self, user: &User, subject: &str, body: &str) -> (r: EmptyResult) {
        self.outbox.push(
            Mail {
                to_addr: user.mail.clone(),
                to_name: user.name.clone(),
                subject: subject.to_owned(),
                body: body.to_owned(),
            },
        );
        proof {
            assert(final(self).outbox@.subrange(0, old(self).outbox@.len() as int) =~= old(
                self,
            ).outbox@);
        }
        Ok(())
    }

    fn send_internal_mail(&mut self, user: &User, subject: &str, body: &str) -> (r: EmptyResult) {
        self.store.send_mail_to(user.id, PHOTOMETER, subject, body)
    }

    fn send_mail(&mut self, user: &User, subject: &str, body: &str) -> (r: EmptyResult) {
        let internal = self.send_internal_mail(user, subject, body);
        match internal {
            Ok(unit) => {
                let _ = unit;
            },
            Err(e) => {
                return Err(e);
            },
        }
        self.send_external_mail(user, subject, body)
    }
}

} // verus!
