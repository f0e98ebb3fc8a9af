//! One client session: startup, attaching upstream connections, and the
//! message pump.
//!
//! Pooling modes:
//!
//! - **Session**: an upstream connection is leased for the whole session.
//! - **Transaction**: leased on the first message of a query cycle and
//!   released when the session returns to `ReadyForQuery` with no transaction
//!   open. Named prepared statements are recorded per session and prepared
//!   again on the next attach, parameter values (as the server reports them)
//!   are set again, and a bare `Sync` while detached is answered locally.

use vstd::prelude::*;

use crate::pool::Hygiene;
use crate::session::pump::End;
use crate::text;
use crate::textmap::TextMap;
use crate::wire;
use crate::wire::ErrorInfo;

pub mod attach;
pub mod cycle;
pub mod guarantees;
pub mod laws;
pub mod model;
pub mod pump;
pub mod registry;

verus! {

/// Startup parameters relevant to the proxy.
#[derive(Debug)]
pub struct SessionParams {
    pub user: String,
    pub database: Option<String>,
    /// The client asked for streaming replication, which is not supported.
    pub replication: bool,
}

/// Whether a value of the `replication` parameter asks for replication.
pub open spec fn asks_replication(value: Seq<char>) -> bool {
    value == "1"@ || value == "true"@ || value == "database"@ || value == "on"@
}

impl SessionParams {
    /// Read the parameters of a startup packet.
    pub fn from_startup(parameters: &TextMap<String>) -> (p: SessionParams)
        ensures
            p.user@ == (if parameters@.contains_key("user"@) {
                parameters@["user"@]@
            } else {
                Seq::empty()
            }),
            text::opt_text(p.database) == (if parameters@.contains_key("database"@) {
                Some(parameters@["database"@]@)
            } else {
                None
            }),
            p.replication == (parameters@.contains_key("replication"@) && asks_replication(
                parameters@["replication"@]@,
            )),
    {
        let user = match parameters.get("user") {
            Some(user) => user.clone(),
            None => String::new(),
        };
        let database = match parameters.get("database") {
            Some(database) => Some(database.clone()),
            None => None,
        };
        let replication = match parameters.get("replication") {
            Some(v) => text::same_text(v.as_str(), "1") || text::same_text(v.as_str(), "true")
                || text::same_text(v.as_str(), "database") || text::same_text(v.as_str(), "on"),
            None => false,
        };
        SessionParams { user, database, replication }
    }
}

// ---------------------------------------------------------------------------
// the first message
// ---------------------------------------------------------------------------

/// The first thing a new connection brings.
pub enum FirstMessage {
    /// A startup packet for this protocol version.
    Startup { major: u16, minor: u16 },
    /// A cancel request, on a connection of its own.
    Cancel { pid: i32, secret: Vec<u8> },
    /// Any other message, as it is shown in logs.
    Other { shown: String },
    /// Nothing: the connection was closed or could not be decoded.
    Nothing,
}

/// What to do about it.
pub enum FirstStep {
    /// Go on with the session.
    Start,
    /// Tell the client that only protocol 3.0 is spoken, then go on.
    NegotiateDown,
    /// Cancel the session that owns these keys, then close.
    Cancel { pid: i32, secret: Vec<u8> },
    /// Send this error, then close.
    Refuse(ErrorInfo),
    /// Close.
    Close,
}

/// The error about an unexpected first message.
pub open spec fn unexpected_first(shown: Seq<char>) -> Seq<(u8, Seq<char>)> {
    wire::error_view("FATAL"@, "08P01"@, "pgferry: expected Startup, got "@ + shown)
}

/// The error about a protocol version that is not spoken.
pub open spec fn unsupported_version(major: nat, minor: nat) -> Seq<(u8, Seq<char>)> {
    wire::error_view(
        "FATAL"@,
        "08P01"@,
        "pgferry: unsupported protocol version "@ + text::decimal(major) + "."@ + text::decimal(
            minor,
        ),
    )
}

/// Whether this is what to do about a client's first message.
pub open spec fn answers_first(message: FirstMessage, step: FirstStep) -> bool {
    match message {
        FirstMessage::Startup { major, minor } => if major == 3 && minor == 0 {
            step is Start
        } else if major == 3 {
            step is NegotiateDown
        } else {
            step matches FirstStep::Refuse(e) && e@ == unsupported_version(
                major as nat,
                minor as nat,
            )
        },
        FirstMessage::Cancel { pid, secret } => step == (FirstStep::Cancel { pid, secret }),
        FirstMessage::Other { shown } => step matches FirstStep::Refuse(e) && e@
            == unexpected_first(shown@),
        FirstMessage::Nothing => step is Close,
    }
}

/// What the first message of a connection leads to. Protocol 3.0 is spoken;
/// clients asking for a newer minor version are negotiated down, other major
/// versions are refused.
pub fn on_first_message(message: FirstMessage) -> (step: FirstStep)
    ensures
        answers_first(message, step),
{
    match message {
        FirstMessage::Startup { major, minor } => {
            if major == 3 && minor == 0 {
                FirstStep::Start
            } else if major == 3 {
                FirstStep::NegotiateDown
            } else {
                let mut text = "pgferry: unsupported protocol version ".to_owned();
                text::push_decimal(&mut text, major as u128);
                text.append(".");
                text::push_decimal(&mut text, minor as u128);
                FirstStep::Refuse(ErrorInfo::new("FATAL", "08P01", text.as_str()))
            }
        },
        FirstMessage::Cancel { pid, secret } => FirstStep::Cancel { pid, secret },
        FirstMessage::Other { shown } => {
            let mut text = "pgferry: expected Startup, got ".to_owned();
            text.append(shown.as_str());
            FirstStep::Refuse(ErrorInfo::new("FATAL", "08P01", text.as_str()))
        },
        FirstMessage::Nothing => FirstStep::Close,
    }
}

// ---------------------------------------------------------------------------
// admission
// ---------------------------------------------------------------------------

/// What a session with valid startup is.
pub enum Admission {
    /// Send this error, then close.
    Refuse(ErrorInfo),
    /// The admin console.
    Admin,
    /// A session that leases upstream connections.
    Serve,
}

/// The error about a replication connection.
pub open spec fn replication_refused() -> Seq<(u8, Seq<char>)> {
    wire::error_view("FATAL"@, "0A000"@, "pgferry: replication connections are not supported"@)
}

/// The error about a startup packet without a user.
pub open spec fn no_user() -> Seq<(u8, Seq<char>)> {
    wire::error_view("FATAL"@, "28000"@, "pgferry: no user specified in startup packet"@)
}

/// Whether the session is for the admin console: its database is the
/// configured one.
pub fn is_admin(params: &SessionParams, admin_database: Option<&str>) -> (r: bool)
    ensures
        r == (admin_database is Some && text::opt_text(params.database) == text::opt_str(
            admin_database,
        )),
{
    match (admin_database, &params.database) {
        (Some(admin), Some(database)) => text::same_text(database.as_str(), admin),
        _ => false,
    }
}

/// Whether this is how a client is let in.
pub open spec fn admitted(
    params: SessionParams,
    admin_database: Option<&str>,
    r: Admission,
) -> bool {
    if params.replication {
        r matches Admission::Refuse(e) && e@ == replication_refused()
    } else if params.user@.len() == 0 {
        r matches Admission::Refuse(e) && e@ == no_user()
    } else if admin_database is Some && text::opt_text(params.database) == text::opt_str(
        admin_database,
    ) {
        r is Admin
    } else {
        r is Serve
    }
}

/// Decide about a session: replication is refused, a user is required, and
/// the admin database is served locally.
pub fn admission(params: &SessionParams, admin_database: Option<&str>) -> (r: Admission)
    ensures
        admitted(*params, admin_database, r),
{
    if params.replication {
        return Admission::Refuse(
            ErrorInfo::new("FATAL", "0A000", "pgferry: replication connections are not supported"),
        );
    }
    if text::is_blank(params.user.as_str()) {
        return Admission::Refuse(
            ErrorInfo::new("FATAL", "28000", "pgferry: no user specified in startup packet"),
        );
    }
    if is_admin(params, admin_database) {
        Admission::Admin
    } else {
        Admission::Serve
    }
}

/// The error about an upstream that could not be reached at startup.
pub fn startup_failure(error: &str) -> (e: ErrorInfo)
    ensures
        e@ == wire::error_view(
            "FATAL"@,
            "08006"@,
            "pgferry: failed to connect to upstream: "@ + error@,
        ),
{
    let mut text = "pgferry: failed to connect to upstream: ".to_owned();
    text.append(error);
    ErrorInfo::new("FATAL", "08006", text.as_str())
}

/// The error that ends a session to which no connection could be attached.
pub fn attach_failure(message: &str) -> (e: ErrorInfo)
    ensures
        e@ == model::attach_error(message@),
{
    ErrorInfo::new("FATAL", "08006", message)
}

// ---------------------------------------------------------------------------
// the end
// ---------------------------------------------------------------------------

/// What becomes of the connection that a session still holds when it ends.
pub enum LeaseFate {
    /// There is none.
    Nothing,
    /// Bring it back to its neutral state and return it to its pool.
    Checkin(Hygiene),
    /// Close it.
    Destroy(String),
}

/// Whether this is what becomes of the connection when the session ends.
pub open spec fn ends_with(end: End, held: bool, hygiene: Hygiene, r: LeaseFate) -> bool {
    &&& !held ==> r is Nothing
    &&& held ==> match end@ {
        model::EndView::ClientGone => r == LeaseFate::Checkin(hygiene),
        model::EndView::UpstreamBroken(reason) => r matches LeaseFate::Destroy(why) && why@
            == reason,
    }
}

/// What becomes of the connection that a session still holds when it ends:
/// it goes back through the full cleanup, unless it is broken.
pub fn lease_fate(end: End, held: bool, hygiene: Hygiene) -> (r: LeaseFate)
    ensures
        ends_with(end, held, hygiene, r),
{
    if !held {
        return LeaseFate::Nothing;
    }
    match end {
        End::ClientGone => LeaseFate::Checkin(hygiene),
        End::UpstreamBroken(reason) => LeaseFate::Destroy(reason),
    }
}

/// The errors that a connection is refused with.
pub proof fn law_refusals(shown: Seq<char>, major: nat, minor: nat)
    ensures
        wire::field_value(unexpected_first(shown), 0x53) == "FATAL"@,
        wire::field_value(unexpected_first(shown), 0x43) == "08P01"@,
        wire::field_value(unexpected_first(shown), 0x4d) == "pgferry: expected Startup, got "@
            + shown,
        wire::field_value(unsupported_version(major, minor), 0x53) == "FATAL"@,
        wire::field_value(unsupported_version(major, minor), 0x43) == "08P01"@,
        wire::field_value(unsupported_version(major, minor), 0x4d)
            == "pgferry: unsupported protocol version "@ + text::decimal(major) + "."@
            + text::decimal(minor),
        wire::field_value(replication_refused(), 0x53) == "FATAL"@,
        wire::field_value(replication_refused(), 0x43) == "0A000"@,
        wire::field_value(replication_refused(), 0x4d)
            == "pgferry: replication connections are not supported"@,
        wire::field_value(no_user(), 0x53) == "FATAL"@,
        wire::field_value(no_user(), 0x43) == "28000"@,
        wire::field_value(no_user(), 0x4d) == "pgferry: no user specified in startup packet"@,
{
    wire::law_error_fields("FATAL"@, "08P01"@, "pgferry: expected Startup, got "@ + shown);
    wire::law_error_fields(
        "FATAL"@,
        "08P01"@,
        "pgferry: unsupported protocol version "@ + text::decimal(major) + "."@ + text::decimal(
            minor,
        ),
    );
    wire::law_error_fields(
        "FATAL"@,
        "0A000"@,
        "pgferry: replication connections are not supported"@,
    );
    wire::law_error_fields("FATAL"@, "28000"@, "pgferry: no user specified in startup packet"@);
}

/// Protocol version three is spoken in its first edition; a client that asks for
/// a later one is told so and served, any other version is refused. A request to
/// cancel is taken as it came, and whoever says nothing gets no answer.
pub proof fn law_first_message(message: FirstMessage, step: FirstStep)
    requires
        answers_first(message, step),
    ensures
        message matches FirstMessage::Startup { major, minor } ==> {
            &&& step is Start <==> major == 3 && minor == 0
            &&& step is NegotiateDown <==> major == 3 && minor > 0
            &&& step is Refuse <==> major != 3
            &&& step matches FirstStep::Refuse(e) ==> e@ == unsupported_version(
                major as nat,
                minor as nat,
            )
        },
        message matches FirstMessage::Cancel { pid, secret } ==> {
            &&& step matches FirstStep::Cancel { pid: p, secret: k }
            &&& p == pid && k@ == secret@
        },
        message matches FirstMessage::Other { shown } ==> {
            &&& step matches FirstStep::Refuse(e)
            &&& e@ == unexpected_first(shown@)
        },
        message is Nothing <==> step is Close,
        step is Cancel <==> message is Cancel,
{
}

/// Nobody is served, not even by the console, who asks for replication or names
/// no user. The console is there for its own database alone, and only when one
/// is set; everybody else is served.
pub proof fn law_admission(params: SessionParams, admin_database: Option<&str>, r: Admission)
    requires
        admitted(params, admin_database, r),
    ensures
        r is Refuse <==> params.replication || params.user@.len() == 0,
        r matches Admission::Refuse(e) ==> (if params.replication {
            e@ == replication_refused()
        } else {
            e@ == no_user()
        }),
        r is Admin ==> params.database is Some && admin_database is Some && params.database->0@
            == admin_database->0@,
        admin_database is None ==> !(r is Admin),
        params.database is None ==> !(r is Admin),
        r is Serve && admin_database is Some && params.database is Some ==> params.database->0@
            != admin_database->0@,
{
}

/// When a session ends, a connection that it holds goes back to the pool with
/// what is to be cleaned up, unless the connection itself broke: then it is
/// closed. Without one there is nothing to do.
pub proof fn law_lease_fate(end: End, held: bool, hygiene: Hygiene, r: LeaseFate)
    requires
        ends_with(end, held, hygiene, r),
    ensures
        r is Nothing <==> !held,
        r is Destroy <==> held && end@ is UpstreamBroken,
        held && end@ is ClientGone ==> r == LeaseFate::Checkin(hygiene),
        r matches LeaseFate::Destroy(why) ==> end@ == model::EndView::UpstreamBroken(why@),
{
}

/// A startup packet asks for replication with one of four values.
pub proof fn law_asks_replication(value: Seq<char>)
    ensures
        asks_replication("true"@) && asks_replication("on"@) && asks_replication("1"@)
            && asks_replication("database"@),
        !asks_replication("false"@) && !asks_replication("off"@) && !asks_replication("0"@)
            && !asks_replication(Seq::empty()),
        asks_replication(value) ==> value.len() <= 8,
{
    reveal_strlit("1");
    reveal_strlit("true");
    reveal_strlit("database");
    reveal_strlit("on");
    reveal_strlit("false");
    reveal_strlit("off");
    reveal_strlit("0");
    assert("0"@[0] != "1"@[0]);
    assert("false"@.len() == 5 && "off"@.len() == 3 && "0"@.len() == 1);
    assert("true"@.len() == 4 && "on"@.len() == 2 && "1"@.len() == 1 && "database"@.len() == 8);
}

} // verus!
