//! Outgoing email. Fully configured by the environment so any SMTP relay can be
//! used.
//!
//! Credentials are only ever sent over an encrypted connection: with neither TLS
//! nor STARTTLS set, a configured user and password would cross the network in
//! the clear, so the send is refused instead.
use vstd::prelude::*;

use crate::server::requests::is_set;
#[allow(unused_imports)]
use crate::text::{number_in, text_in};
use crate::text::{contains_char, copy_text, join3, parse_u64, text_ref};

verus! {

/// What the environment says of outgoing mail.
pub struct MailEnv {
    /// `HUSH_SMTP_HOST`: relay host (unset = no email; codes are logged).
    pub host: Option<String>,
    /// `HUSH_SMTP_PORT`.
    pub port: Option<String>,
    /// `HUSH_SMTP_FROM`: sender address.
    pub from: Option<String>,
    /// `HUSH_SMTP_USER`.
    pub user: Option<String>,
    /// `HUSH_SMTP_PASS`.
    pub pass: Option<String>,
    /// `HUSH_SMTP_STARTTLS`.
    pub starttls: Option<String>,
    /// `HUSH_SMTP_TLS`.
    pub tls: Option<String>,
}

/// How outgoing mail is sent.
pub struct MailConfig {
    pub host: String,
    pub port: u16,
    pub from: String,
    pub user: Option<String>,
    pub pass: Option<String>,
    pub starttls: bool,
    /// TLS from the first byte, as port 465 expects.
    pub tls: bool,
}

/// How the connection to the relay is protected.
#[derive(Clone, Copy, Debug, PartialEq, Eq, Structural)]
pub enum Protection {
    Tls,
    StartTls,
    Nothing,
}

/// Why a mail is not sent.
#[derive(Clone, Copy, Debug, PartialEq, Eq, Structural)]
pub enum MailFault {
    /// The sender's address is not one.
    BadSender,
    /// The recipient's address is not one.
    BadRecipient,
    /// Credentials would cross the network in the clear.
    CredentialsInTheClear,
}

impl MailFault {
    /// What is said of the fault.
    pub fn message(&self) -> (text: &'static str)
        ensures
            text@ == match *self {
                MailFault::BadSender => "invalid sender address"@,
                MailFault::BadRecipient => "invalid recipient address"@,
                MailFault::CredentialsInTheClear =>
                    "refusing to send SMTP credentials over an unencrypted connection: set HUSH_SMTP_TLS=1 (port 465) or HUSH_SMTP_STARTTLS=1"@,
            },
    {
        match self {
            MailFault::BadSender => "invalid sender address",
            MailFault::BadRecipient => "invalid recipient address",
            MailFault::CredentialsInTheClear =>
                "refusing to send SMTP credentials over an unencrypted connection: set HUSH_SMTP_TLS=1 (port 465) or HUSH_SMTP_STARTTLS=1",
        }
    }
}

/// A mail that is ready to be sent.
pub struct Mail {
    pub from: String,
    pub to: String,
    pub subject: String,
    pub body: String,
    pub host: String,
    pub port: u16,
    pub protection: Protection,
    pub credentials: Option<(String, String)>,
}

/// Whether `lettre` reads a text as a mailbox.
pub uninterp spec fn mailbox_reads(text: Seq<char>) -> bool;

/// `str::parse` into `lettre::message::Mailbox`: whether a text is an address
/// that mail can be sent from or to.
#[verifier::external_body]
fn is_mailbox(text: &str) -> (yes: bool)
    ensures
        yes == mailbox_reads(text@),
{
    text.parse::<lettre::message::Mailbox>().is_ok()
}

/// The port that a text names, 25 where it names none.
pub open spec fn port_in(text: Option<Seq<char>>) -> u16 {
    match text {
        Some(text) => match number_in(text) {
            Some(n) if n <= u16::MAX => n as u16,
            _ => 25,
        },
        None => 25,
    }
}

/// The sender that is configured. Bare addresses get the app's display name.
pub open spec fn sender_in(text: Option<Seq<char>>) -> Seq<char> {
    let from = match text {
        Some(text) => text,
        None => "hush@localhost"@,
    };
    if from.contains('<') {
        from
    } else {
        "Hush <"@ + from + ">"@
    }
}

/// Whether the text of a setting switches it on.
pub open spec fn switched_on(text: Option<String>) -> bool {
    text_in(text) == Some("1"@)
}

/// Whether credentials are configured but the connection carrying them would not
/// be encrypted.
pub open spec fn in_the_clear(c: MailConfig) -> bool {
    c.user is Some && c.pass is Some && !c.starttls && !c.tls
}

/// Why a mail is not sent, if so.
pub open spec fn mail_refusal(c: MailConfig, to: Seq<char>) -> Option<MailFault> {
    if !mailbox_reads(c.from@) {
        Some(MailFault::BadSender)
    } else if !mailbox_reads(to) {
        Some(MailFault::BadRecipient)
    } else if in_the_clear(c) {
        Some(MailFault::CredentialsInTheClear)
    } else {
        None
    }
}

/// Whether a mail goes where it is configured to go.
pub open spec fn goes_by(m: Mail, c: MailConfig) -> bool {
    &&& m.from@ == c.from@
    &&& m.host@ == c.host@
    &&& m.port == c.port
    &&& m.protection == (if c.tls {
        Protection::Tls
    } else if c.starttls {
        Protection::StartTls
    } else {
        Protection::Nothing
    })
    &&& match (c.user, c.pass) {
        (Some(user), Some(pass)) => m.credentials is Some && (m.credentials->0).0@ == user@
            && (m.credentials->0).1@ == pass@,
        _ => m.credentials is None,
    }
}

/// The mail that carries a verification code.
pub open spec fn verification_body(username: Seq<char>, code: Seq<char>) -> Seq<char> {
    "Hi "@ + username + (",\n\nYour code to confirm the account is: "@ + code
        + "\n\nIt expires in 24 hours. If you did not create this account, ignore this message.\n"@)
}

/// The mail that carries a reset code.
pub open spec fn reset_body(username: Seq<char>, code: Seq<char>) -> Seq<char> {
    "Hi "@ + username + (",\n\nYour password reset code is: "@ + code
        + "\n\nIt expires in 1 hour. If you did not ask for this, ignore this message —\nyour password stays unchanged.\n\nNote: this does not affect your recovery key, which is what restores your\nmessage history on a new device.\n"@)
}

/// Whether email delivery is unconfigured (verification codes cannot be sent).
pub fn config_missing(env: &MailEnv) -> (yes: bool)
    ensures
        yes == (env.host is None),
{
    MailConfig::from_env(env).is_none()
}

impl MailConfig {
    /// What the environment says of outgoing mail.
    pub fn from_env(env: &MailEnv) -> (config: Option<MailConfig>)
        ensures
            config is Some == (env.host is Some),
            config matches Some(c) ==> {
                &&& c.host@ == env.host->0@
                &&& c.port == port_in(text_in(env.port))
                &&& c.from@ == sender_in(text_in(env.from))
                &&& text_in(c.user) == text_in(env.user)
                &&& text_in(c.pass) == text_in(env.pass)
                &&& c.starttls == switched_on(env.starttls)
                &&& c.tls == switched_on(env.tls)
            },
    {
        let host = match &env.host {
            Some(host) => host.clone(),
            None => {
                return None;
            },
        };
        let port: u16 = match &env.port {
            Some(text) => match parse_u64(text) {
                Some(n) => if n <= 0xffff {
                    n as u16
                } else {
                    25
                },
                None => 25,
            },
            None => 25,
        };
        let from = match &env.from {
            Some(from) => from.clone(),
            None => "hush@localhost".to_string(),
        };
        let from = if contains_char(&from, '<') {
            from
        } else {
            join3("Hush <", &from, ">")
        };
        Some(
            MailConfig {
                host,
                port,
                from,
                user: copy_text(&env.user),
                pass: copy_text(&env.pass),
                starttls: is_set(text_ref(&env.starttls)),
                tls: is_set(text_ref(&env.tls)),
            },
        )
    }

    /// Whether credentials are configured but the connection carrying them would
    /// not be encrypted.
    pub fn credentials_in_the_clear(&self) -> (yes: bool)
        ensures
            yes == in_the_clear(*self),
    {
        self.user.is_some() && self.pass.is_some() && !self.starttls && !self.tls
    }

    /// Prepares a mail. Refused rather than sent where credentials would cross the
    /// network in the clear: handing the relay's password to whatever is between
    /// us and it, once, is enough to lose it.
    fn prepare(&self, to: &str, subject: &str, body: String) -> (mail: Result<Mail, MailFault>)
        ensures
            match mail_refusal(*self, to@) {
                Some(fault) => mail == Err::<Mail, MailFault>(fault),
                None => mail is Ok && goes_by(mail->Ok_0, *self) && mail->Ok_0.to@ == to@
                    && mail->Ok_0.subject@ == subject@ && mail->Ok_0.body@ == body@,
            },
    {
        if !is_mailbox(&self.from) {
            return Err(MailFault::BadSender);
        }
        if !is_mailbox(to) {
            return Err(MailFault::BadRecipient);
        }
        if self.credentials_in_the_clear() {
            return Err(MailFault::CredentialsInTheClear);
        }
        let protection = if self.tls {
            Protection::Tls
        } else if self.starttls {
            Protection::StartTls
        } else {
            Protection::Nothing
        };
        let credentials = match (&self.user, &self.pass) {
            (Some(user), Some(pass)) => Some((user.clone(), pass.clone())),
            _ => None,
        };
        Ok(
            Mail {
                from: self.from.clone(),
                to: to.to_string(),
                subject: subject.to_string(),
                body,
                host: self.host.clone(),
                port: self.port,
                protection,
                credentials,
            },
        )
    }

    /// The mail that carries a verification code.
    pub fn send_verification(&self, to: &str, username: &str, code: &str) -> (mail: Result<
        Mail,
        MailFault,
    >)
        ensures
            match mail_refusal(*self, to@) {
                Some(fault) => mail == Err::<Mail, MailFault>(fault),
                None => mail is Ok && goes_by(mail->Ok_0, *self) && mail->Ok_0.to@ == to@
                    && mail->Ok_0.subject@ == "Your Hush verification code"@ && mail->Ok_0.body@
                    == verification_body(username@, code@),
            },
    {
        let tail = join3(
            ",\n\nYour code to confirm the account is: ",
            code,
            "\n\nIt expires in 24 hours. If you did not create this account, ignore this message.\n",
        );
        let body = join3("Hi ", username, &tail);
        self.prepare(to, "Your Hush verification code", body)
    }

    /// The mail that carries a reset code.
    pub fn send_password_reset(&self, to: &str, username: &str, code: &str) -> (mail: Result<
        Mail,
        MailFault,
    >)
        ensures
            match mail_refusal(*self, to@) {
                Some(fault) => mail == Err::<Mail, MailFault>(fault),
                None => mail is Ok && goes_by(mail->Ok_0, *self) && mail->Ok_0.to@ == to@
                    && mail->Ok_0.subject@ == "Reset your Hush password"@ && mail->Ok_0.body@
                    == reset_body(username@, code@),
            },
    {
        let tail = join3(
            ",\n\nYour password reset code is: ",
            code,
            "\n\nIt expires in 1 hour. If you did not ask for this, ignore this message —\nyour password stays unchanged.\n\nNote: this does not affect your recovery key, which is what restores your\nmessage history on a new device.\n",
        );
        let body = join3("Hi ", username, &tail);
        self.prepare(to, "Reset your Hush password", body)
    }
}

/// Credentials only ever travel over an encrypted connection.
pub proof fn credentials_are_never_sent_in_the_clear(m: Mail, c: MailConfig, to: Seq<char>)
    requires
        mail_refusal(c, to) is None,
        goes_by(m, c),
        m.credentials is Some,
    ensures
        m.protection != Protection::Nothing,
{
}

/// The port is the one that was set, where it is one, and 25 otherwise.
pub proof fn the_port_is_the_one_that_was_set(n: nat, text: Seq<char>)
    ensures
        n <= 65_535 ==> port_in(Some(crate::text::decimal(n))) == n,
        n > 65_535 ==> port_in(Some(crate::text::decimal(n))) == 25,
        port_in(None) == 25,
        number_in(text) is None ==> port_in(Some(text)) == 25,
{
    crate::text::written_numbers_read_back(n as int);
}

/// A sender that is named stays as it is, and a bare address gets a name.
pub proof fn a_sender_has_a_name(from: Seq<char>)
    ensures
        from.contains('<') ==> sender_in(Some(from)) == from,
        !from.contains('<') ==> sender_in(Some(from)) == "Hush <"@ + from + ">"@,
        sender_in(None) == "Hush <hush@localhost>"@,
{
    reveal_strlit("Hush <");
    reveal_strlit("hush@localhost");
    reveal_strlit(">");
    reveal_strlit("Hush <hush@localhost>");
    assert("Hush <"@ + "hush@localhost"@ + ">"@ =~= "Hush <hush@localhost>"@);
}

/// A mail goes out as it was configured: by the host and the port, from the sender,
/// as protected as was asked, and with the credentials that were given, both or
/// none.
pub proof fn a_mail_goes_out_as_configured(m: Mail, c: MailConfig)
    requires
        goes_by(m, c),
    ensures
        m.host@ == c.host@,
        m.port == c.port,
        m.from@ == c.from@,
        c.tls ==> m.protection == Protection::Tls,
        !c.tls && c.starttls ==> m.protection == Protection::StartTls,
        !c.tls && !c.starttls ==> m.protection == Protection::Nothing,
        m.credentials is Some == (c.user is Some && c.pass is Some),
        m.credentials is Some ==> (m.credentials->0).0@ == c.user->0@ && (m.credentials->0).1@
            == c.pass->0@,
{
}

/// A mail is refused for an address that is none, or where it would give the
/// credentials away, and for nothing else.
pub proof fn a_mail_is_refused_for_a_reason(c: MailConfig, to: Seq<char>)
    ensures
        mail_refusal(c, to) is None <==> mailbox_reads(c.from@) && mailbox_reads(to) && (
        c.user is None || c.pass is None || c.starttls || c.tls),
        !mailbox_reads(c.from@) ==> mail_refusal(c, to) == Some(MailFault::BadSender),
        mailbox_reads(c.from@) && !mailbox_reads(to) ==> mail_refusal(c, to) == Some(
            MailFault::BadRecipient,
        ),
{
}

/// Both mails address whoever they are for, and hold the code.
pub proof fn a_mail_holds_its_code(username: Seq<char>, code: Seq<char>)
    ensures
        crate::logs::stands_in("Hi "@ + username + ",\n"@, verification_body(username, code)),
        crate::logs::stands_in("code to confirm the account is: "@ + code + "\n"@,
            verification_body(username, code)),
        crate::logs::stands_in("Hi "@ + username + ",\n"@, reset_body(username, code)),
        crate::logs::stands_in("password reset code is: "@ + code + "\n"@,
            reset_body(username, code)),
{
    let hi = "Hi "@ + username + ",\n"@;
    let v = verification_body(username, code);
    let r = reset_body(username, code);
    let vm = ",\n\nYour code to confirm the account is: "@;
    let vt = "\n\nIt expires in 24 hours. If you did not create this account, ignore this message.\n"@;
    let rm = ",\n\nYour password reset code is: "@;
    let rt = "\n\nIt expires in 1 hour. If you did not ask for this, ignore this message —\nyour password stays unchanged.\n\nNote: this does not affect your recovery key, which is what restores your\nmessage history on a new device.\n"@;
    let n = 3 + username.len() as int;
    reveal_strlit("Hi ");
    reveal_strlit(",\n");
    reveal_strlit("\n");
    reveal_strlit(",\n\nYour code to confirm the account is: ");
    reveal_strlit(",\n\nYour password reset code is: ");
    reveal_strlit("code to confirm the account is: ");
    reveal_strlit("password reset code is: ");
    reveal_strlit("\n\nIt expires in 24 hours. If you did not create this account, ignore this message.\n");
    reveal_strlit("\n\nIt expires in 1 hour. If you did not ask for this, ignore this message —\nyour password stays unchanged.\n\nNote: this does not affect your recovery key, which is what restores your\nmessage history on a new device.\n");
    assert(vt[0] == '\n' && rt[0] == '\n');
    assert(v.skip(0).take(hi.len() as int) =~= hi);
    assert(r.skip(0).take(hi.len() as int) =~= hi);
    assert(crate::text::has_prefix(v.skip(0), hi));
    assert(crate::text::has_prefix(r.skip(0), hi));
    let a = "code to confirm the account is: "@ + code + "\n"@;
    let b = "password reset code is: "@ + code + "\n"@;
    let i = n + vm.len() - 32;
    let j = n + rm.len() - 24;
    assert(vm.skip(vm.len() - 32) =~= "code to confirm the account is: "@);
    assert(rm.skip(rm.len() - 24) =~= "password reset code is: "@);
    assert(v =~= ("Hi "@ + username + vm) + code + vt);
    assert(r =~= ("Hi "@ + username + rm) + code + rt);
    assert(v.skip(i).take(a.len() as int) =~= a);
    assert(r.skip(j).take(b.len() as int) =~= b);
    assert(crate::text::has_prefix(v.skip(i), a));
    assert(crate::text::has_prefix(r.skip(j), b));
}

/// A protection is on where it is set to "1", and only there.
pub proof fn a_protection_is_on_where_it_is_set(text: Option<String>)
    ensures
        switched_on(text) <==> text is Some && text->0@ == "1"@,
{
}

} // verus!
