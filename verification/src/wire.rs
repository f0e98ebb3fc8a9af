//! Wire-protocol messages as plain values.
//!
//! The session logic reads a few fields of a few messages; these types hold
//! those fields. Every other message travels through the session as its kind
//! and its encoded bytes.

use vstd::prelude::*;
use crate::text;

verus! {

/// The transaction state a server reports with `ReadyForQuery`.
#[derive(Debug, Clone, Copy, PartialEq, Eq, Structural)]
pub enum TransactionStatus {
    /// Not in a transaction block.
    Idle,
    /// In a transaction block.
    Transaction,
    /// In a failed transaction block.
    Error,
}

/// The kinds of message a client sends.
#[derive(Debug, Clone, Copy, PartialEq, Eq, Structural)]
pub enum FrontendKind {
    Startup,
    CancelRequest,
    Password,
    SslRequest,
    GssRequest,
    SslNegotiation,
    Query,
    Parse,
    Bind,
    Describe,
    Execute,
    Close,
    Flush,
    Sync,
    PortalSuspended,
    Terminate,
    CopyData,
    CopyDone,
    CopyFail,
}

impl FrontendKind {
    /// The name of the kind.
    pub open spec fn spec_name(self) -> Seq<char> {
        match self {
            FrontendKind::Startup => "Startup"@,
            FrontendKind::CancelRequest => "CancelRequest"@,
            FrontendKind::Password => "Password"@,
            FrontendKind::SslRequest => "SslRequest"@,
            FrontendKind::GssRequest => "GssRequest"@,
            FrontendKind::SslNegotiation => "SslNegotiation"@,
            FrontendKind::Query => "Query"@,
            FrontendKind::Parse => "Parse"@,
            FrontendKind::Bind => "Bind"@,
            FrontendKind::Describe => "Describe"@,
            FrontendKind::Execute => "Execute"@,
            FrontendKind::Close => "Close"@,
            FrontendKind::Flush => "Flush"@,
            FrontendKind::Sync => "Sync"@,
            FrontendKind::PortalSuspended => "PortalSuspended"@,
            FrontendKind::Terminate => "Terminate"@,
            FrontendKind::CopyData => "CopyData"@,
            FrontendKind::CopyDone => "CopyDone"@,
            FrontendKind::CopyFail => "CopyFail"@,
        }
    }

    /// The name of the kind, for logs.
    pub fn name(self) -> (r: &'static str)
        ensures
            r@ == self.spec_name(),
    {
        match self {
            FrontendKind::Startup => "Startup",
            FrontendKind::CancelRequest => "CancelRequest",
            FrontendKind::Password => "Password",
            FrontendKind::SslRequest => "SslRequest",
            FrontendKind::GssRequest => "GssRequest",
            FrontendKind::SslNegotiation => "SslNegotiation",
            FrontendKind::Query => "Query",
            FrontendKind::Parse => "Parse",
            FrontendKind::Bind => "Bind",
            FrontendKind::Describe => "Describe",
            FrontendKind::Execute => "Execute",
            FrontendKind::Close => "Close",
            FrontendKind::Flush => "Flush",
            FrontendKind::Sync => "Sync",
            FrontendKind::PortalSuspended => "PortalSuspended",
            FrontendKind::Terminate => "Terminate",
            FrontendKind::CopyData => "CopyData",
            FrontendKind::CopyDone => "CopyDone",
            FrontendKind::CopyFail => "CopyFail",
        }
    }
}

/// The kinds of message a server sends.
#[derive(Debug, Clone, Copy, PartialEq, Eq, Structural)]
pub enum BackendKind {
    SslResponse,
    GssEncResponse,
    Authentication,
    ParameterStatus,
    BackendKeyData,
    NegotiateProtocolVersion,
    ParseComplete,
    BindComplete,
    CloseComplete,
    PortalSuspended,
    CommandComplete,
    EmptyQueryResponse,
    ReadyForQuery,
    ErrorResponse,
    NoticeResponse,
    NotificationResponse,
    ParameterDescription,
    RowDescription,
    DataRow,
    NoData,
    CopyData,
    CopyFail,
    CopyDone,
    CopyInResponse,
    CopyOutResponse,
    CopyBothResponse,
}

impl BackendKind {
    /// The name of the kind.
    pub open spec fn spec_name(self) -> Seq<char> {
        match self {
            BackendKind::SslResponse => "SslResponse"@,
            BackendKind::GssEncResponse => "GssEncResponse"@,
            BackendKind::Authentication => "Authentication"@,
            BackendKind::ParameterStatus => "ParameterStatus"@,
            BackendKind::BackendKeyData => "BackendKeyData"@,
            BackendKind::NegotiateProtocolVersion => "NegotiateProtocolVersion"@,
            BackendKind::ParseComplete => "ParseComplete"@,
            BackendKind::BindComplete => "BindComplete"@,
            BackendKind::CloseComplete => "CloseComplete"@,
            BackendKind::PortalSuspended => "PortalSuspended"@,
            BackendKind::CommandComplete => "CommandComplete"@,
            BackendKind::EmptyQueryResponse => "EmptyQueryResponse"@,
            BackendKind::ReadyForQuery => "ReadyForQuery"@,
            BackendKind::ErrorResponse => "ErrorResponse"@,
            BackendKind::NoticeResponse => "NoticeResponse"@,
            BackendKind::NotificationResponse => "NotificationResponse"@,
            BackendKind::ParameterDescription => "ParameterDescription"@,
            BackendKind::RowDescription => "RowDescription"@,
            BackendKind::DataRow => "DataRow"@,
            BackendKind::NoData => "NoData"@,
            BackendKind::CopyData => "CopyData"@,
            BackendKind::CopyFail => "CopyFail"@,
            BackendKind::CopyDone => "CopyDone"@,
            BackendKind::CopyInResponse => "CopyInResponse"@,
            BackendKind::CopyOutResponse => "CopyOutResponse"@,
            BackendKind::CopyBothResponse => "CopyBothResponse"@,
        }
    }

    /// The name of the kind, for logs.
    pub fn name(self) -> (r: &'static str)
        ensures
            r@ == self.spec_name(),
    {
        match self {
            BackendKind::SslResponse => "SslResponse",
            BackendKind::GssEncResponse => "GssEncResponse",
            BackendKind::Authentication => "Authentication",
            BackendKind::ParameterStatus => "ParameterStatus",
            BackendKind::BackendKeyData => "BackendKeyData",
            BackendKind::NegotiateProtocolVersion => "NegotiateProtocolVersion",
            BackendKind::ParseComplete => "ParseComplete",
            BackendKind::BindComplete => "BindComplete",
            BackendKind::CloseComplete => "CloseComplete",
            BackendKind::PortalSuspended => "PortalSuspended",
            BackendKind::CommandComplete => "CommandComplete",
            BackendKind::EmptyQueryResponse => "EmptyQueryResponse",
            BackendKind::ReadyForQuery => "ReadyForQuery",
            BackendKind::ErrorResponse => "ErrorResponse",
            BackendKind::NoticeResponse => "NoticeResponse",
            BackendKind::NotificationResponse => "NotificationResponse",
            BackendKind::ParameterDescription => "ParameterDescription",
            BackendKind::RowDescription => "RowDescription",
            BackendKind::DataRow => "DataRow",
            BackendKind::NoData => "NoData",
            BackendKind::CopyData => "CopyData",
            BackendKind::CopyFail => "CopyFail",
            BackendKind::CopyDone => "CopyDone",
            BackendKind::CopyInResponse => "CopyInResponse",
            BackendKind::CopyOutResponse => "CopyOutResponse",
            BackendKind::CopyBothResponse => "CopyBothResponse",
        }
    }
}


// ---------------------------------------------------------------------------
// big-endian integers
// ---------------------------------------------------------------------------

/// The four bytes of a 32-bit integer, most significant first.
pub open spec fn be_i32(n: int) -> Seq<u8> {
    let u = if n < 0 {
        n + 0x1_0000_0000
    } else {
        n
    };
    seq![
        ((u / 0x100_0000) % 256) as u8,
        ((u / 0x1_0000) % 256) as u8,
        ((u / 0x100) % 256) as u8,
        (u % 256) as u8,
    ]
}

/// The 32-bit integer at the start of `b`.
pub open spec fn i32_at(b: Seq<u8>) -> int {
    let u = b[0] * 0x100_0000 + b[1] * 0x1_0000 + b[2] * 0x100 + b[3];
    if u >= 0x8000_0000 {
        u - 0x1_0000_0000
    } else {
        u
    }
}

/// Reading back a 32-bit integer gives the integer that was written.
pub proof fn law_i32_round_trip(n: int, rest: Seq<u8>)
    requires
        i32::MIN <= n <= i32::MAX,
    ensures
        i32_at(be_i32(n) + rest) == n,
{
    let u = if n < 0 {
        n + 0x1_0000_0000
    } else {
        n
    };
    let b = be_i32(n) + rest;
    let b0 = (u / 0x100_0000) % 256;
    let b1 = (u / 0x1_0000) % 256;
    let b2 = (u / 0x100) % 256;
    let b3 = u % 256;
    assert(b[0] == b0 && b[1] == b1 && b[2] == b2 && b[3] == b3);
    assert(u == b0 * 0x100_0000 + b1 * 0x1_0000 + b2 * 0x100 + b3);
}

/// Append a 32-bit integer, most significant byte first.
pub fn put_i32(data: &mut Vec<u8>, n: i32)
    ensures
        final(data)@ == old(data)@ + be_i32(n as int),
{
    let ghost before = data@;
    let u: u32 = if n < 0 {
        (n as i64 + 0x1_0000_0000) as u32
    } else {
        n as u32
    };
    data.push(((u / 0x100_0000) % 256) as u8);
    data.push(((u / 0x1_0000) % 256) as u8);
    data.push(((u / 0x100) % 256) as u8);
    data.push((u % 256) as u8);
    assert(data@ =~= before + be_i32(n as int));
}

/// The 32-bit integer at `data[at..at + 4]`.
pub fn get_i32(data: &Vec<u8>, at: usize) -> (n: i32)
    requires
        at + 4 <= data.len(),
    ensures
        n == i32_at(data@.skip(at as int)),
{
    let u: u32 = data[at] as u32 * 0x100_0000 + data[at + 1] as u32 * 0x1_0000 + data[at + 2] as u32
        * 0x100 + data[at + 3] as u32;
    if u >= 0x8000_0000 {
        (u as i64 - 0x1_0000_0000) as i32
    } else {
        u as i32
    }
}

/// Append `bytes[from..from + len]`.
pub fn put_bytes(data: &mut Vec<u8>, bytes: &[u8], from: usize, len: usize)
    requires
        from + len <= bytes.len(),
    ensures
        final(data)@ == old(data)@ + bytes@.subrange(from as int, from + len),
{
    let ghost before = data@;
    let mut i: usize = 0;
    while i < len
        invariant
            i <= len,
            from + len <= bytes.len(),
            data@ == before + bytes@.subrange(from as int, from + i),
        decreases len - i,
    {
        data.push(bytes[from + i]);
        assert(data@ =~= before + bytes@.subrange(from as int, from + i + 1));
        i += 1;
    }
}

// ---------------------------------------------------------------------------
// errors
// ---------------------------------------------------------------------------

/// The view of a list of error fields.
pub open spec fn field_views(fields: Seq<(u8, String)>) -> Seq<(u8, Seq<char>)> {
    fields.map_values(|f: (u8, String)| (f.0, f.1@))
}

/// The value of the last field with this key; empty when there is none.
pub open spec fn field_value(fields: Seq<(u8, Seq<char>)>, key: u8) -> Seq<char>
    decreases fields.len(),
{
    if fields.len() == 0 {
        seq![]
    } else if fields.last().0 == key {
        fields.last().1
    } else {
        field_value(fields.drop_last(), key)
    }
}

/// The fields of an error with just a severity, a code and a message.
pub open spec fn error_view(
    severity: Seq<char>,
    code: Seq<char>,
    message: Seq<char>,
) -> Seq<(u8, Seq<char>)> {
    seq![(0x53u8, severity), (0x43u8, code), (0x4du8, message)]
}

/// An error as the server protocol carries it: a list of keyed fields, of
/// which `S` is the severity, `C` the SQLSTATE code and `M` the message.
#[derive(Debug, Clone, PartialEq, Eq)]
pub struct ErrorInfo {
    pub fields: Vec<(u8, String)>,
}

impl View for ErrorInfo {
    type V = Seq<(u8, Seq<char>)>;

    open spec fn view(&self) -> Seq<(u8, Seq<char>)> {
        field_views(self.fields@)
    }
}

/// `pgwire::error::ErrorInfo::new` followed by its conversion into an
/// `ErrorResponse`: an error made of these three values has exactly the
/// fields `S`, `C` and `M`, in that order.
#[verifier::external_body]
fn wire_error_fields(severity: String, code: String, message: String) -> (fields: Vec<(u8, String)>)
    ensures
        field_views(fields@) == error_view(severity@, code@, message@),
{
    let info = pgwire::error::ErrorInfo::new(severity, code, message);
    pgwire::messages::response::ErrorResponse::from(info).fields
}

/// Whether there is a field with this key.
pub open spec fn has_field(fields: Seq<(u8, Seq<char>)>, key: u8) -> bool {
    exists|i: int| 0 <= i < fields.len() && (#[trigger] fields[i]).0 == key
}

/// The keys of the error fields that are known, in the order in which they
/// are written: `SVCMDHPpqWFLRstcdn`.
pub open spec fn known_keys() -> Seq<u8> {
    seq![
        0x53u8, 0x56u8, 0x43u8, 0x4du8, 0x44u8, 0x48u8, 0x50u8, 0x70u8, 0x71u8,
        0x57u8, 0x46u8, 0x4cu8, 0x52u8, 0x73u8, 0x74u8, 0x63u8, 0x64u8, 0x6eu8,
    ]
}

/// The line number that a text stands for: decimal digits, perhaps behind a
/// `+`, that fit a machine word; any other text counts as zero.
pub open spec fn line_number(s: Seq<char>) -> nat {
    let digits = if s.len() > 0 && s[0] == '+' {
        s.skip(1)
    } else {
        s
    };
    if digits.len() > 0 && text::all_digits(digits) && text::digits_value(digits) <= usize::MAX {
        text::digits_value(digits)
    } else {
        0
    }
}

/// What is left of the fields with this key: the last one, with the line
/// number `L` in plain decimal. Severity, code and message are always there.
pub open spec fn normal_field(fields: Seq<(u8, Seq<char>)>, key: u8) -> Seq<(u8, Seq<char>)> {
    let value = field_value(fields, key);
    if has_field(fields, key) {
        seq![
            (
                key,
                if key == 0x4c {
                    text::decimal(line_number(value))
                } else {
                    value
                },
            ),
        ]
    } else if key == 0x53 || key == 0x43 || key == 0x4d {
        seq![(key, value)]
    } else {
        seq![]
    }
}

/// What is left of the fields with these keys, in the order of the keys.
pub open spec fn normal_fields(fields: Seq<(u8, Seq<char>)>, keys: Seq<u8>) -> Seq<(u8, Seq<char>)>
    decreases keys.len(),
{
    if keys.len() == 0 {
        seq![]
    } else {
        normal_fields(fields, keys.drop_last()) + normal_field(fields, keys.last())
    }
}

/// The fields of an error in their normal form.
pub open spec fn normalized_fields(fields: Seq<(u8, Seq<char>)>) -> Seq<(u8, Seq<char>)> {
    normal_fields(fields, known_keys())
}

/// pgwire's `From<ErrorResponse> for ErrorInfo` and back: fields with unknown
/// keys are dropped, of repeated keys the last one stays, a line number that
/// is none becomes zero, severity, code and message are added where they are
/// missing, and all is put in a fixed order.
#[verifier::external_body]
fn wire_normalized(fields: Vec<(u8, String)>) -> (r: Vec<(u8, String)>)
    ensures
        field_views(r@) == normalized_fields(field_views(fields@)),
{
    let response = pgwire::messages::response::ErrorResponse::new(fields);
    let info = pgwire::error::ErrorInfo::from(response);
    pgwire::messages::response::ErrorResponse::from(info).fields
}

proof fn lemma_no_field(fields: Seq<(u8, Seq<char>)>, key: u8)
    requires
        !has_field(fields, key),
    ensures
        field_value(fields, key) == Seq::<char>::empty(),
    decreases fields.len(),
{
    if fields.len() > 0 {
        assert(fields[fields.len() - 1].0 != key);
        assert forall|i: int| 0 <= i < fields.drop_last().len() implies (
        #[trigger] fields.drop_last()[i]).0 != key by {
            assert(fields[i].0 != key);
        }
        lemma_no_field(fields.drop_last(), key);
    }
}

proof fn lemma_normal_fields(fields: Seq<(u8, Seq<char>)>, keys: Seq<u8>, key: u8)
    requires
        keys.no_duplicates(),
        key != 0x4c,
    ensures
        field_value(normal_fields(fields, keys), key) == (if keys.contains(key) {
            field_value(fields, key)
        } else {
            Seq::empty()
        }),
    decreases keys.len(),
{
    if keys.len() > 0 {
        let init = keys.drop_last();
        let last = keys.last();
        let all = normal_fields(fields, keys);
        let before = normal_fields(fields, init);
        lemma_normal_fields(fields, init, key);
        assert(keys.contains(last)) by {
            assert(keys[keys.len() - 1] == last);
        }
        assert(keys.contains(key) <==> init.contains(key) || key == last) by {
            if keys.contains(key) && key != last {
                let k = choose|k: int| 0 <= k < keys.len() && keys[k] == key;
                assert(init[k] == key);
            }
            if init.contains(key) {
                let k = choose|k: int| 0 <= k < init.len() && init[k] == key;
                assert(keys[k] == key);
            }
        }
        assert(!init.contains(last)) by {
            if init.contains(last) {
                let k = choose|k: int| 0 <= k < init.len() && init[k] == last;
                assert(keys[k] == keys[keys.len() - 1]);
            }
        }
        if normal_field(fields, last).len() == 0 {
            assert(all =~= before);
            lemma_no_field(fields, last);
        } else {
            assert(all.last() == normal_field(fields, last)[0]);
            assert(all.drop_last() =~= before);
        }
    }
}

/// The normal form of an error keeps the value of every known field but the
/// line number; so its severity, its code and its message.
pub proof fn law_normalized_fields(fields: Seq<(u8, Seq<char>)>, key: u8)
    requires
        known_keys().contains(key),
        key != 0x4c,
    ensures
        field_value(normalized_fields(fields), key) == field_value(fields, key),
{
    lemma_normal_fields(fields, known_keys(), key);
}

impl ErrorInfo {
    /// An error with this severity, SQLSTATE code and message.
    pub fn new(severity: &str, code: &str, message: &str) -> (e: ErrorInfo)
        ensures
            e@ == error_view(severity@, code@, message@),
    {
        ErrorInfo {
            fields: wire_error_fields(severity.to_owned(), code.to_owned(), message.to_owned()),
        }
    }

    /// The error that a server's error fields stand for.
    pub fn from_fields(fields: Vec<(u8, String)>) -> (e: ErrorInfo)
        ensures
            e@ == normalized_fields(field_views(fields@)),
            e.spec_code() == field_value(field_views(fields@), 0x43),
            e.spec_message() == field_value(field_views(fields@), 0x4d),
    {
        proof {
            assert(known_keys()[2] == 0x43 && known_keys()[3] == 0x4d);
            law_normalized_fields(field_views(fields@), 0x43);
            law_normalized_fields(field_views(fields@), 0x4d);
        }
        ErrorInfo { fields: wire_normalized(fields) }
    }

    /// The SQLSTATE code.
    pub open spec fn spec_code(&self) -> Seq<char> {
        field_value(self@, 0x43)
    }

    /// The message.
    pub open spec fn spec_message(&self) -> Seq<char> {
        field_value(self@, 0x4d)
    }

    /// The value of the last field with this key; empty when there is none.
    pub fn field(&self, key: u8) -> (r: String)
        ensures
            r@ == field_value(self@, key),
    {
        let mut r = String::new();
        let mut i: usize = 0;
        while i < self.fields.len()
            invariant
                i <= self.fields.len(),
                r@ == field_value(self@.take(i as int), key),
            decreases self.fields.len() - i,
        {
            assert(self@.take(i + 1).drop_last() == self@.take(i as int));
            assert(self@.take(i + 1).last() == (
                self.fields@[i as int].0,
                self.fields@[i as int].1@,
            ));
            if self.fields[i].0 == key {
                r = self.fields[i].1.clone();
            }
            i += 1;
        }
        assert(self@.take(self.fields.len() as int) == self@);
        r
    }

    /// The SQLSTATE code.
    pub fn code(&self) -> (r: String)
        ensures
            r@ == self.spec_code(),
    {
        self.field(0x43)
    }

    /// The message.
    pub fn message(&self) -> (r: String)
        ensures
            r@ == self.spec_message(),
    {
        self.field(0x4d)
    }

    /// A copy.
    pub fn copy(&self) -> (r: ErrorInfo)
        ensures
            r@ == self@,
    {
        let mut fields: Vec<(u8, String)> = Vec::new();
        let mut i: usize = 0;
        while i < self.fields.len()
            invariant
                i <= self.fields.len(),
                fields@ == self.fields@.take(i as int),
            decreases self.fields.len() - i,
        {
            let key: u8 = self.fields[i].0;
            let value = self.fields[i].1.clone();
            fields.push((key, value));
            assert(fields@ =~= self.fields@.take(i + 1));
            i += 1;
        }
        assert(fields@ == self.fields@);
        ErrorInfo { fields }
    }
}

/// The code and message of an error built from three values are those values.
pub proof fn law_error_fields(severity: Seq<char>, code: Seq<char>, message: Seq<char>)
    ensures
        field_value(error_view(severity, code, message), 0x53) == severity,
        field_value(error_view(severity, code, message), 0x43) == code,
        field_value(error_view(severity, code, message), 0x4d) == message,
{
    let f = error_view(severity, code, message);
    assert(f.drop_last() == seq![(0x53u8, severity), (0x43u8, code)]);
    assert(f.drop_last().drop_last() == seq![(0x53u8, severity)]);
    reveal_with_fuel(field_value, 4);
}

// ---------------------------------------------------------------------------
// rows
// ---------------------------------------------------------------------------

/// A result row: the number of fields and their encoding.
#[derive(Debug, Clone, PartialEq, Eq)]
pub struct DataRow {
    pub data: Vec<u8>,
    pub field_count: i16,
}

/// The view of a row: its field count and its bytes.
#[verifier::ext_equal]
pub struct RowView {
    pub field_count: int,
    pub data: Seq<u8>,
}

impl View for DataRow {
    type V = RowView;

    open spec fn view(&self) -> RowView {
        RowView { field_count: self.field_count as int, data: self.data@ }
    }
}

/// One column of a `RowDescription`.
#[derive(Debug, Clone, PartialEq, Eq)]
pub struct FieldDescription {
    pub name: String,
    pub table_id: i32,
    pub column_id: i16,
    pub type_id: u32,
    pub type_size: i16,
    pub type_modifier: i32,
    pub format_code: i16,
}

/// The view of a column description.
#[verifier::ext_equal]
pub struct FieldView {
    pub name: Seq<char>,
    pub table_id: i32,
    pub column_id: i16,
    pub type_id: u32,
    pub type_size: i16,
    pub type_modifier: i32,
    pub format_code: i16,
}

impl View for FieldDescription {
    type V = FieldView;

    open spec fn view(&self) -> FieldView {
        FieldView {
            name: self.name@,
            table_id: self.table_id,
            column_id: self.column_id,
            type_id: self.type_id,
            type_size: self.type_size,
            type_modifier: self.type_modifier,
            format_code: self.format_code,
        }
    }
}

// ---------------------------------------------------------------------------
// messages
// ---------------------------------------------------------------------------

/// `Close` of a prepared statement (as opposed to a portal).
pub const CLOSE_STATEMENT: u8 = 0x53;

/// A message from a client.
#[derive(Debug)]
pub enum FrontendMessage {
    /// Simple protocol query.
    Query { sql: String },
    /// Extended protocol: prepare a statement.
    Parse { name: Option<String>, sql: String, type_oids: Vec<u32> },
    /// Extended protocol: bind a portal to a statement.
    Bind { statement: Option<String>, encoded: Vec<u8> },
    /// Extended protocol: close a statement or a portal.
    Close { target: u8, name: Option<String> },
    Flush,
    Sync,
    Terminate,
    /// Any other message.
    Other { kind: FrontendKind, encoded: Vec<u8> },
}

/// The view of a client message.
#[verifier::ext_equal]
pub enum FrontendView {
    Query { sql: Seq<char> },
    Parse { name: Option<Seq<char>>, sql: Seq<char>, type_oids: Seq<u32> },
    Bind { statement: Option<Seq<char>>, encoded: Seq<u8> },
    Close { target: u8, name: Option<Seq<char>> },
    Flush,
    Sync,
    Terminate,
    Other { kind: FrontendKind, encoded: Seq<u8> },
}

impl View for FrontendMessage {
    type V = FrontendView;

    open spec fn view(&self) -> FrontendView {
        match self {
            FrontendMessage::Query { sql } => FrontendView::Query { sql: sql@ },
            FrontendMessage::Parse { name, sql, type_oids } => FrontendView::Parse {
                name: text::opt_text(*name),
                sql: sql@,
                type_oids: type_oids@,
            },
            FrontendMessage::Bind { statement, encoded } => FrontendView::Bind {
                statement: text::opt_text(*statement),
                encoded: encoded@,
            },
            FrontendMessage::Close { target, name } => FrontendView::Close {
                target: *target,
                name: text::opt_text(*name),
            },
            FrontendMessage::Flush => FrontendView::Flush,
            FrontendMessage::Sync => FrontendView::Sync,
            FrontendMessage::Terminate => FrontendView::Terminate,
            FrontendMessage::Other { kind, encoded } => FrontendView::Other {
                kind: *kind,
                encoded: encoded@,
            },
        }
    }
}

impl FrontendView {
    /// The kind of the message.
    pub open spec fn kind(self) -> FrontendKind {
        match self {
            FrontendView::Query { .. } => FrontendKind::Query,
            FrontendView::Parse { .. } => FrontendKind::Parse,
            FrontendView::Bind { .. } => FrontendKind::Bind,
            FrontendView::Close { .. } => FrontendKind::Close,
            FrontendView::Flush => FrontendKind::Flush,
            FrontendView::Sync => FrontendKind::Sync,
            FrontendView::Terminate => FrontendKind::Terminate,
            FrontendView::Other { kind, .. } => kind,
        }
    }
}

impl FrontendMessage {
    /// The kind of the message.
    pub fn kind(&self) -> (k: FrontendKind)
        ensures
            k == self@.kind(),
    {
        match self {
            FrontendMessage::Query { .. } => FrontendKind::Query,
            FrontendMessage::Parse { .. } => FrontendKind::Parse,
            FrontendMessage::Bind { .. } => FrontendKind::Bind,
            FrontendMessage::Close { .. } => FrontendKind::Close,
            FrontendMessage::Flush => FrontendKind::Flush,
            FrontendMessage::Sync => FrontendKind::Sync,
            FrontendMessage::Terminate => FrontendKind::Terminate,
            FrontendMessage::Other { kind, .. } => *kind,
        }
    }
}

/// The views of a list of client messages.
pub open spec fn frontend_views(s: Seq<FrontendMessage>) -> Seq<FrontendView> {
    s.map_values(|m: FrontendMessage| m@)
}

/// A message from a server.
#[derive(Debug)]
pub enum BackendMessage {
    ReadyForQuery { status: TransactionStatus },
    ParameterStatus { name: String, value: String },
    RowDescription { fields: Vec<FieldDescription> },
    DataRow { row: DataRow },
    CommandComplete { tag: String },
    ErrorResponse { error: ErrorInfo },
    ParseComplete,
    CloseComplete,
    /// Any other message.
    Other { kind: BackendKind, encoded: Vec<u8> },
}

/// The view of a server message.
#[verifier::ext_equal]
pub enum BackendView {
    ReadyForQuery { status: TransactionStatus },
    ParameterStatus { name: Seq<char>, value: Seq<char> },
    RowDescription { fields: Seq<FieldView> },
    DataRow { row: RowView },
    CommandComplete { tag: Seq<char> },
    ErrorResponse { error: Seq<(u8, Seq<char>)> },
    ParseComplete,
    CloseComplete,
    Other { kind: BackendKind, encoded: Seq<u8> },
}

/// The view of a list of column descriptions.
pub open spec fn column_views(s: Seq<FieldDescription>) -> Seq<FieldView> {
    s.map_values(|f: FieldDescription| f@)
}

impl View for BackendMessage {
    type V = BackendView;

    open spec fn view(&self) -> BackendView {
        match self {
            BackendMessage::ReadyForQuery { status } => BackendView::ReadyForQuery {
                status: *status,
            },
            BackendMessage::ParameterStatus { name, value } => BackendView::ParameterStatus {
                name: name@,
                value: value@,
            },
            BackendMessage::RowDescription { fields } => BackendView::RowDescription {
                fields: column_views(fields@),
            },
            BackendMessage::DataRow { row } => BackendView::DataRow { row: row@ },
            BackendMessage::CommandComplete { tag } => BackendView::CommandComplete { tag: tag@ },
            BackendMessage::ErrorResponse { error } => BackendView::ErrorResponse { error: error@ },
            BackendMessage::ParseComplete => BackendView::ParseComplete,
            BackendMessage::CloseComplete => BackendView::CloseComplete,
            BackendMessage::Other { kind, encoded } => BackendView::Other {
                kind: *kind,
                encoded: encoded@,
            },
        }
    }
}

impl BackendView {
    /// The kind of the message.
    pub open spec fn kind(self) -> BackendKind {
        match self {
            BackendView::ReadyForQuery { .. } => BackendKind::ReadyForQuery,
            BackendView::ParameterStatus { .. } => BackendKind::ParameterStatus,
            BackendView::RowDescription { .. } => BackendKind::RowDescription,
            BackendView::DataRow { .. } => BackendKind::DataRow,
            BackendView::CommandComplete { .. } => BackendKind::CommandComplete,
            BackendView::ErrorResponse { .. } => BackendKind::ErrorResponse,
            BackendView::ParseComplete => BackendKind::ParseComplete,
            BackendView::CloseComplete => BackendKind::CloseComplete,
            BackendView::Other { kind, .. } => kind,
        }
    }
}

impl BackendMessage {
    /// The kind of the message.
    pub fn kind(&self) -> (k: BackendKind)
        ensures
            k == self@.kind(),
    {
        match self {
            BackendMessage::ReadyForQuery { .. } => BackendKind::ReadyForQuery,
            BackendMessage::ParameterStatus { .. } => BackendKind::ParameterStatus,
            BackendMessage::RowDescription { .. } => BackendKind::RowDescription,
            BackendMessage::DataRow { .. } => BackendKind::DataRow,
            BackendMessage::CommandComplete { .. } => BackendKind::CommandComplete,
            BackendMessage::ErrorResponse { .. } => BackendKind::ErrorResponse,
            BackendMessage::ParseComplete => BackendKind::ParseComplete,
            BackendMessage::CloseComplete => BackendKind::CloseComplete,
            BackendMessage::Other { kind, .. } => *kind,
        }
    }
}

/// The views of a list of server messages.
pub open spec fn backend_views(s: Seq<BackendMessage>) -> Seq<BackendView> {
    s.map_values(|m: BackendMessage| m@)
}

/// What arrives from an upstream connection.
#[derive(Debug)]
pub enum UpstreamEvent {
    /// The next message.
    Message(BackendMessage),
    /// The connection was closed.
    Closed,
    /// The connection failed, or its bytes could not be decoded.
    Broken(String),
}

/// The view of an upstream event.
#[verifier::ext_equal]
pub enum UpstreamEventView {
    Message(BackendView),
    Closed,
    Broken(Seq<char>),
}

impl View for UpstreamEvent {
    type V = UpstreamEventView;

    open spec fn view(&self) -> UpstreamEventView {
        match self {
            UpstreamEvent::Message(m) => UpstreamEventView::Message(m@),
            UpstreamEvent::Closed => UpstreamEventView::Closed,
            UpstreamEvent::Broken(reason) => UpstreamEventView::Broken(reason@),
        }
    }
}

/// The kinds of client message after which the server may send a response
/// without further input.
pub open spec fn elicits_response(kind: FrontendKind) -> bool {
    ||| kind == FrontendKind::Query
    ||| kind == FrontendKind::Sync
    ||| kind == FrontendKind::Flush
    ||| kind == FrontendKind::Terminate
    ||| kind == FrontendKind::CopyData
    ||| kind == FrontendKind::CopyDone
    ||| kind == FrontendKind::CopyFail
}

/// Whether the server may answer a message of this kind without further
/// input. Everything else (`Parse`, `Bind`, `Describe`, `Execute`, `Close`)
/// is safely pipelined without flushing.
pub fn triggers_response(kind: FrontendKind) -> (r: bool)
    ensures
        r == elicits_response(kind),
{
    match kind {
        FrontendKind::Query => true,
        FrontendKind::Sync => true,
        FrontendKind::Flush => true,
        FrontendKind::Terminate => true,
        FrontendKind::CopyData => true,
        FrontendKind::CopyDone => true,
        FrontendKind::CopyFail => true,
        _ => false,
    }
}

/// Integers go over the wire with the most significant byte first, in two's
/// complement.
pub proof fn law_network_order(n: int, high: int, low: int)
    requires
        i32::MIN <= n <= i32::MAX,
        0 <= high <= 0x7fff,
        0 <= low <= 0xff,
    ensures
        be_i32(n).len() == 4,
        be_i32(n)[3] as int == n % 256,
        be_i32(n)[0] >= 0x80 <==> n < 0,
        be_i32(high * 0x1_0000) == seq![(high / 0x100) as u8, (high % 0x100) as u8, 0u8, 0u8],
        be_i32(low * 0x100) == seq![0u8, 0u8, low as u8, 0u8],
        be_i32(-1) == seq![0xffu8, 0xffu8, 0xffu8, 0xffu8],
{
    assert(be_i32(high * 0x1_0000) =~= seq![(high / 0x100) as u8, (high % 0x100) as u8, 0u8, 0u8]);
    assert(be_i32(low * 0x100) =~= seq![0u8, 0u8, low as u8, 0u8]);
    assert(be_i32(-1) =~= seq![0xffu8, 0xffu8, 0xffu8, 0xffu8]);
}

/// The value of an error's field is the one that was given last under its key;
/// other fields do not matter, and a field that is not there is empty.
pub proof fn law_field_value(
    fields: Seq<(u8, Seq<char>)>,
    key: u8,
    other: u8,
    value: Seq<char>,
)
    requires
        other != key,
    ensures
        field_value(fields.push((key, value)), key) == value,
        field_value(fields.push((other, value)), key) == field_value(fields, key),
        field_value(Seq::empty(), key) == Seq::<char>::empty(),
{
    assert(fields.push((key, value)).drop_last() =~= fields);
    assert(fields.push((other, value)).drop_last() =~= fields);
}

/// The server is waited for after the messages that it answers by itself; what
/// belongs to an extended query in the making is sent along with what follows.
pub proof fn law_flushed(m: FrontendView)
    ensures
        m is Query || m is Sync || m is Flush || m is Terminate ==> elicits_response(m.kind()),
        m is Parse || m is Bind || m is Close ==> !elicits_response(m.kind()),
        m matches FrontendView::Other { kind, .. } ==> m.kind() == kind,
        elicits_response(FrontendKind::CopyData),
        elicits_response(FrontendKind::CopyDone),
        elicits_response(FrontendKind::CopyFail),
        !elicits_response(FrontendKind::Describe),
        !elicits_response(FrontendKind::Execute),
        !elicits_response(FrontendKind::Password),
{
}

/// Every message has a kind of its own, called by the message's name.
pub proof fn law_kinds(m: FrontendView, b: BackendView)
    ensures
        m is Query ==> m.kind().spec_name() == "Query"@,
        m is Parse ==> m.kind().spec_name() == "Parse"@,
        m is Bind ==> m.kind().spec_name() == "Bind"@,
        m is Close ==> m.kind().spec_name() == "Close"@,
        m is Flush ==> m.kind().spec_name() == "Flush"@,
        m is Sync ==> m.kind().spec_name() == "Sync"@,
        m is Terminate ==> m.kind().spec_name() == "Terminate"@,
        b is ReadyForQuery ==> b.kind().spec_name() == "ReadyForQuery"@,
        b is ParameterStatus ==> b.kind().spec_name() == "ParameterStatus"@,
        b is RowDescription ==> b.kind().spec_name() == "RowDescription"@,
        b is DataRow ==> b.kind().spec_name() == "DataRow"@,
        b is CommandComplete ==> b.kind().spec_name() == "CommandComplete"@,
        b is ErrorResponse ==> b.kind().spec_name() == "ErrorResponse"@,
        b is ParseComplete ==> b.kind().spec_name() == "ParseComplete"@,
        b is CloseComplete ==> b.kind().spec_name() == "CloseComplete"@,
        b matches BackendView::Other { kind, .. } ==> b.kind() == kind,
{
}

} // verus!
