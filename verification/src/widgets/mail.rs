//! The mail widget: its logins, the text it shows, and what it does with
//! each count the mail thread sends.
use crate::{path_join, spec_path_join};
use crate::utils::strings::{
    decimal, lemma_replace_whole, replace, spec_decimal, spec_replace,
};
use vstd::prelude::*;

verus! {

/// mail and password login
#[derive(Debug)]
pub struct PasswordLogin {
    pub domain: String,
    pub user: String,
    pub password: String,
}

impl PasswordLogin {
    pub fn new(domain: &str, user: &str, password: &str) -> (r: Self)
        ensures
            r.domain@ == domain@,
            r.user@ == user@,
            r.password@ == password@,
    {
        Self {
            domain: String::from_str(domain),
            user: String::from_str(user),
            password: String::from_str(password),
        }
    }
}

/// google oauth2 login
#[derive(Debug)]
pub struct GmailLogin {
    pub user: String,
    pub client_secret_path: String,
}

impl GmailLogin {
    /// `client_secret_path` is the path to the client_secret.json file,
    /// either absolute or relative to the configuration directory
    /// `config_dir`.
    pub fn new(user: &str, client_secret_path: &str, config_dir: &str) -> (r: Self)
        ensures
            r.user@ == user@,
            r.client_secret_path@ == spec_path_join(config_dir@, client_secret_path@),
    {
        Self { user: String::from_str(user), client_secret_path: path_join(config_dir, client_secret_path) }
    }
}

/// The XOAUTH2 answer: the user and the bearer token, separated and ended
/// by `\x01` characters.
pub open spec fn spec_xoauth2(user: Seq<char>, access_token: Seq<char>) -> Seq<char> {
    "user="@ + user + "\x01auth=Bearer "@ + access_token + "\x01\x01"@
}

/// Builds the XOAUTH2 answer sent to the IMAP server.
pub fn xoauth2_response(user: &str, access_token: &str) -> (r: String)
    ensures
        r@ == spec_xoauth2(user@, access_token@),
{
    let mut r = String::from_str("user=");
    r.append(user);
    r.append("\x01auth=Bearer ");
    r.append(access_token);
    r.append("\x01\x01");
    r
}

/// The mail text: nothing when there is no unread mail, else the format
/// with `%c` replaced by the count.
pub open spec fn spec_mail_text(format: Seq<char>, count: nat) -> Seq<char> {
    if count == 0 {
        Seq::empty()
    } else {
        spec_replace(format, "%c"@, spec_decimal(count))
    }
}

pub fn mail_text(format: &str, count: u64) -> (r: String)
    ensures
        r@ == spec_mail_text(format@, count as nat),
{
    if count == 0 {
        return String::new();
    }
    proof {
        reveal_strlit("%c");
    }
    let c = decimal(count);
    replace(format, "%c", c.as_str())
}

/// Why counting the mail failed.
#[derive(Debug, Clone, Copy, PartialEq, Eq, Structural)]
pub enum MailFailure {
    /// The client secret could not be read: retrying cannot help.
    ClientSecret,
    /// Anything else (connection, login, search): the next try may work.
    Other,
}

/// What the widget does on an update.
#[derive(Debug)]
pub enum MailStep {
    /// Keep the text shown.
    Keep,
    /// Fail: the widget cannot recover.
    Fail,
    /// Show this text.
    Show(String),
}

/// On an update the widget looks at what the mail thread sent, if
/// anything: nothing or a failure it can recover from keeps the text; a
/// failure to read the client secret fails the widget; a count is shown.
pub fn mail_step(received: Option<Result<u64, MailFailure>>, format: &str) -> (r: MailStep)
    ensures
        match received {
            None => r is Keep,
            Some(Err(MailFailure::ClientSecret)) => r is Fail,
            Some(Err(MailFailure::Other)) => r is Keep,
            Some(Ok(count)) => r matches MailStep::Show(t) && t@ == spec_mail_text(
                format@,
                count as nat,
            ),
        },
{
    match received {
        None => MailStep::Keep,
        Some(Err(MailFailure::ClientSecret)) => MailStep::Fail,
        Some(Err(MailFailure::Other)) => MailStep::Keep,
        Some(Ok(count)) => MailStep::Show(mail_text(format, count)),
    }
}

/// The mail text of the format `%c` is the number of unread mails in
/// decimal, and nothing when there is none.
pub proof fn lemma_mail_text_count(count: nat)
    ensures
        spec_mail_text("%c"@, count) == if count == 0 {
            Seq::<char>::empty()
        } else {
            spec_decimal(count)
        },
{
    reveal_strlit("%c");
    lemma_replace_whole("%c"@, spec_decimal(count));
}

} // verus!
