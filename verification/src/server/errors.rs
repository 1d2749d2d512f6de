//! What the relay answers when it refuses. The server speaks English; the code
//! is the stable identifier clients use to show the message in the user's own
//! language.
use vstd::prelude::*;

verus! {

/// An API error.
#[derive(Clone, Copy, Debug, PartialEq, Eq, Structural)]
pub enum ApiError {
    /// The name is empty, too long or has other characters.
    InvalidUsername,
    /// The display name of a new account is too long.
    AliasTooLong,
    /// The display name is empty or too long.
    AliasLength,
    /// The address has no `@` or is too long.
    InvalidEmail,
    /// The password is too short.
    WeakPassword,
    /// The password is too long.
    PasswordTooLong,
    /// The identity key is too long.
    InvalidRegistration,
    /// A verified account has that name.
    UsernameTaken,
    /// Nobody of that name, or nobody the caller may see.
    NotFound,
    /// There is nothing left to verify.
    AlreadyVerified,
    /// The code is wrong, expired or burned.
    InvalidCode,
    /// The name or the password is wrong.
    InvalidCredentials,
    /// The account still waits for its code.
    NotVerified,
    /// That presence cannot be chosen.
    InvalidStatus,
    /// An account asked to be its own contact.
    SelfContact,
    /// An account asked to block itself.
    SelfBlock,
    /// The two are contacts already.
    AlreadyContacts,
    /// A request is already on its way.
    RequestPending,
    /// There is no request to accept.
    NoRequest,
    /// Presence was asked of too many names.
    TooManyUsernames,
    /// One upload carried too many prekeys.
    TooManyPrekeys,
    /// Some key material is too long.
    InvalidKeys,
    /// A prekey is of no known kind.
    PrekeyKind,
    /// The account has not published its keys.
    NoKeys,
    /// The recipient has not accepted the sender.
    NotAContact,
    /// Too much is waiting for the recipient.
    MailboxFull,
    /// The identifier is too long.
    InvalidId,
    /// The archive holds as many entries as it may.
    ArchiveFull,
    /// No verified account has that token.
    InvalidSession,
    /// The budget for such requests is spent.
    RateLimited,
    /// The client's version is not a version.
    InvalidVersion,
    /// The request body is over its cap.
    PayloadTooLarge,
    /// Something went wrong that is not the caller's business.
    Internal,
}

impl ApiError {
    /// The HTTP status of each error.
    pub open spec fn spec_status(self) -> u16 {
        match self {
            ApiError::InvalidUsername => 400,
            ApiError::AliasTooLong => 400,
            ApiError::AliasLength => 400,
            ApiError::InvalidEmail => 400,
            ApiError::WeakPassword => 400,
            ApiError::PasswordTooLong => 400,
            ApiError::InvalidRegistration => 400,
            ApiError::UsernameTaken => 409,
            ApiError::NotFound => 404,
            ApiError::AlreadyVerified => 409,
            ApiError::InvalidCode => 400,
            ApiError::InvalidCredentials => 401,
            ApiError::NotVerified => 403,
            ApiError::InvalidStatus => 400,
            ApiError::SelfContact => 400,
            ApiError::SelfBlock => 400,
            ApiError::AlreadyContacts => 409,
            ApiError::RequestPending => 409,
            ApiError::NoRequest => 400,
            ApiError::TooManyUsernames => 400,
            ApiError::TooManyPrekeys => 400,
            ApiError::InvalidKeys => 400,
            ApiError::PrekeyKind => 400,
            ApiError::NoKeys => 404,
            ApiError::NotAContact => 403,
            ApiError::MailboxFull => 507,
            ApiError::InvalidId => 400,
            ApiError::ArchiveFull => 507,
            ApiError::InvalidSession => 401,
            ApiError::RateLimited => 429,
            ApiError::InvalidVersion => 400,
            ApiError::PayloadTooLarge => 413,
            ApiError::Internal => 500,
        }
    }

    /// The stable identifier of each error.
    pub open spec fn spec_code(self) -> Seq<char> {
        match self {
            ApiError::InvalidUsername => "invalid_username"@,
            ApiError::AliasTooLong => "alias_too_long"@,
            ApiError::AliasLength => "alias_too_long"@,
            ApiError::InvalidEmail => "invalid_email"@,
            ApiError::WeakPassword => "weak_password"@,
            ApiError::PasswordTooLong => "password_too_long"@,
            ApiError::InvalidRegistration => "invalid_request"@,
            ApiError::UsernameTaken => "username_taken"@,
            ApiError::NotFound => "user_not_found"@,
            ApiError::AlreadyVerified => "already_verified"@,
            ApiError::InvalidCode => "invalid_code"@,
            ApiError::InvalidCredentials => "invalid_credentials"@,
            ApiError::NotVerified => "not_verified"@,
            ApiError::InvalidStatus => "invalid_status"@,
            ApiError::SelfContact => "self_contact"@,
            ApiError::SelfBlock => "self_contact"@,
            ApiError::AlreadyContacts => "already_contacts"@,
            ApiError::RequestPending => "request_pending"@,
            ApiError::NoRequest => "no_request"@,
            ApiError::TooManyUsernames => "invalid_request"@,
            ApiError::TooManyPrekeys => "too_many_prekeys"@,
            ApiError::InvalidKeys => "invalid_keys"@,
            ApiError::PrekeyKind => "invalid_keys"@,
            ApiError::NoKeys => "no_keys"@,
            ApiError::NotAContact => "not_a_contact"@,
            ApiError::MailboxFull => "mailbox_full"@,
            ApiError::InvalidId => "invalid_id"@,
            ApiError::ArchiveFull => "archive_full"@,
            ApiError::InvalidSession => "invalid_session"@,
            ApiError::RateLimited => "rate_limited"@,
            ApiError::InvalidVersion => "invalid_request"@,
            ApiError::PayloadTooLarge => "payload_too_large"@,
            ApiError::Internal => "internal_error"@,
        }
    }

    /// The English message of each error.
    pub open spec fn spec_message(self) -> Seq<char> {
        match self {
            ApiError::InvalidUsername => "Username must be 1-32 characters of letters, digits or _"@,
            ApiError::AliasTooLong => "Display name is too long"@,
            ApiError::AliasLength => "Display name must be 1-64 characters"@,
            ApiError::InvalidEmail => "Invalid email address"@,
            ApiError::WeakPassword => "Password must be at least 8 characters"@,
            ApiError::PasswordTooLong => "Password is too long"@,
            ApiError::InvalidRegistration => "Invalid registration data"@,
            ApiError::UsernameTaken => "That username is already taken"@,
            ApiError::NotFound => "No such user"@,
            ApiError::AlreadyVerified => "This account is already verified"@,
            ApiError::InvalidCode => "Incorrect or expired code"@,
            ApiError::InvalidCredentials => "Incorrect username or password"@,
            ApiError::NotVerified => "Account not verified; check your email"@,
            ApiError::InvalidStatus => "Unknown status"@,
            ApiError::SelfContact => "You cannot add yourself"@,
            ApiError::SelfBlock => "You cannot block yourself"@,
            ApiError::AlreadyContacts => "You are already contacts"@,
            ApiError::RequestPending => "A request is already pending"@,
            ApiError::NoRequest => "There is no request to accept"@,
            ApiError::TooManyUsernames => "Too many usernames"@,
            ApiError::TooManyPrekeys => "Too many prekeys"@,
            ApiError::InvalidKeys => "Invalid key material"@,
            ApiError::PrekeyKind => "Prekey kind must be ec or kyber"@,
            ApiError::NoKeys => "That user cannot receive messages yet"@,
            ApiError::NotAContact => "You can only message accepted contacts"@,
            ApiError::MailboxFull => "The recipient's mailbox is full"@,
            ApiError::InvalidId => "Invalid identifier"@,
            ApiError::ArchiveFull => "Your history archive is full"@,
            ApiError::InvalidSession => "Invalid session"@,
            ApiError::RateLimited => "Too many attempts, try again later"@,
            ApiError::InvalidVersion => "Invalid version"@,
            ApiError::PayloadTooLarge => "Request body too large"@,
            ApiError::Internal => "Internal server error"@,
        }
    }

    /// The HTTP status.
    pub fn status(&self) -> (r: u16)
        ensures
            r == self.spec_status(),
    {
        match self {
            ApiError::InvalidUsername => 400,
            ApiError::AliasTooLong => 400,
            ApiError::AliasLength => 400,
            ApiError::InvalidEmail => 400,
            ApiError::WeakPassword => 400,
            ApiError::PasswordTooLong => 400,
            ApiError::InvalidRegistration => 400,
            ApiError::UsernameTaken => 409,
            ApiError::NotFound => 404,
            ApiError::AlreadyVerified => 409,
            ApiError::InvalidCode => 400,
            ApiError::InvalidCredentials => 401,
            ApiError::NotVerified => 403,
            ApiError::InvalidStatus => 400,
            ApiError::SelfContact => 400,
            ApiError::SelfBlock => 400,
            ApiError::AlreadyContacts => 409,
            ApiError::RequestPending => 409,
            ApiError::NoRequest => 400,
            ApiError::TooManyUsernames => 400,
            ApiError::TooManyPrekeys => 400,
            ApiError::InvalidKeys => 400,
            ApiError::PrekeyKind => 400,
            ApiError::NoKeys => 404,
            ApiError::NotAContact => 403,
            ApiError::MailboxFull => 507,
            ApiError::InvalidId => 400,
            ApiError::ArchiveFull => 507,
            ApiError::InvalidSession => 401,
            ApiError::RateLimited => 429,
            ApiError::InvalidVersion => 400,
            ApiError::PayloadTooLarge => 413,
            ApiError::Internal => 500,
        }
    }

    /// The stable identifier.
    pub fn code(&self) -> (r: &'static str)
        ensures
            r@ == self.spec_code(),
    {
        match self {
            ApiError::InvalidUsername => "invalid_username",
            ApiError::AliasTooLong => "alias_too_long",
            ApiError::AliasLength => "alias_too_long",
            ApiError::InvalidEmail => "invalid_email",
            ApiError::WeakPassword => "weak_password",
            ApiError::PasswordTooLong => "password_too_long",
            ApiError::InvalidRegistration => "invalid_request",
            ApiError::UsernameTaken => "username_taken",
            ApiError::NotFound => "user_not_found",
            ApiError::AlreadyVerified => "already_verified",
            ApiError::InvalidCode => "invalid_code",
            ApiError::InvalidCredentials => "invalid_credentials",
            ApiError::NotVerified => "not_verified",
            ApiError::InvalidStatus => "invalid_status",
            ApiError::SelfContact => "self_contact",
            ApiError::SelfBlock => "self_contact",
            ApiError::AlreadyContacts => "already_contacts",
            ApiError::RequestPending => "request_pending",
            ApiError::NoRequest => "no_request",
            ApiError::TooManyUsernames => "invalid_request",
            ApiError::TooManyPrekeys => "too_many_prekeys",
            ApiError::InvalidKeys => "invalid_keys",
            ApiError::PrekeyKind => "invalid_keys",
            ApiError::NoKeys => "no_keys",
            ApiError::NotAContact => "not_a_contact",
            ApiError::MailboxFull => "mailbox_full",
            ApiError::InvalidId => "invalid_id",
            ApiError::ArchiveFull => "archive_full",
            ApiError::InvalidSession => "invalid_session",
            ApiError::RateLimited => "rate_limited",
            ApiError::InvalidVersion => "invalid_request",
            ApiError::PayloadTooLarge => "payload_too_large",
            ApiError::Internal => "internal_error",
        }
    }

    /// The English message.
    pub fn message(&self) -> (r: &'static str)
        ensures
            r@ == self.spec_message(),
    {
        match self {
            ApiError::InvalidUsername => "Username must be 1-32 characters of letters, digits or _",
            ApiError::AliasTooLong => "Display name is too long",
            ApiError::AliasLength => "Display name must be 1-64 characters",
            ApiError::InvalidEmail => "Invalid email address",
            ApiError::WeakPassword => "Password must be at least 8 characters",
            ApiError::PasswordTooLong => "Password is too long",
            ApiError::InvalidRegistration => "Invalid registration data",
            ApiError::UsernameTaken => "That username is already taken",
            ApiError::NotFound => "No such user",
            ApiError::AlreadyVerified => "This account is already verified",
            ApiError::InvalidCode => "Incorrect or expired code",
            ApiError::InvalidCredentials => "Incorrect username or password",
            ApiError::NotVerified => "Account not verified; check your email",
            ApiError::InvalidStatus => "Unknown status",
            ApiError::SelfContact => "You cannot add yourself",
            ApiError::SelfBlock => "You cannot block yourself",
            ApiError::AlreadyContacts => "You are already contacts",
            ApiError::RequestPending => "A request is already pending",
            ApiError::NoRequest => "There is no request to accept",
            ApiError::TooManyUsernames => "Too many usernames",
            ApiError::TooManyPrekeys => "Too many prekeys",
            ApiError::InvalidKeys => "Invalid key material",
            ApiError::PrekeyKind => "Prekey kind must be ec or kyber",
            ApiError::NoKeys => "That user cannot receive messages yet",
            ApiError::NotAContact => "You can only message accepted contacts",
            ApiError::MailboxFull => "The recipient's mailbox is full",
            ApiError::InvalidId => "Invalid identifier",
            ApiError::ArchiveFull => "Your history archive is full",
            ApiError::InvalidSession => "Invalid session",
            ApiError::RateLimited => "Too many attempts, try again later",
            ApiError::InvalidVersion => "Invalid version",
            ApiError::PayloadTooLarge => "Request body too large",
            ApiError::Internal => "Internal server error",
        }
    }
}

/// A refusal is never taken for a success: its status is of the client's or of the
/// relay's faults, and only the relay's own faults are of the latter.
pub proof fn a_refusal_is_never_a_success(e: ApiError)
    ensures
        400 <= e.spec_status() <= 599,
        e.spec_status() >= 500 <==> e == ApiError::Internal || e == ApiError::MailboxFull || e
            == ApiError::ArchiveFull,
        e.spec_status() == 401 <==> e == ApiError::InvalidSession || e
            == ApiError::InvalidCredentials,
        e.spec_status() == 403 <==> e == ApiError::NotVerified || e == ApiError::NotAContact,
        e.spec_status() == 404 <==> e == ApiError::NotFound || e == ApiError::NoKeys,
        e.spec_status() == 409 <==> e == ApiError::UsernameTaken || e == ApiError::AlreadyVerified
            || e == ApiError::AlreadyContacts || e == ApiError::RequestPending,
        e.spec_status() == 429 <==> e == ApiError::RateLimited,
        e.spec_status() == 413 <==> e == ApiError::PayloadTooLarge,
        e.spec_status() == 507 <==> e == ApiError::MailboxFull || e == ApiError::ArchiveFull,
{
}

} // verus!
