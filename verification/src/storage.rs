use vstd::prelude::*;
use crate::cursor::ListItem;
use crate::error::Error;

verus! {

/// The result of parsing an HTTP-date string: seconds since the Unix epoch
/// in UTC, or nothing for a malformed date.  The value is a function of the
/// characters alone.
pub uninterp spec fn http_date_epoch(s: Seq<char>) -> Option<i64>;

/// Relies on chrono's `NaiveDateTime::parse_from_str` with the fixed
/// HTTP-date layout, and on `NaiveDateTime::timestamp` via `and_utc`:
/// parsing depends on the characters alone, and a parsed date converts to
/// seconds since the Unix epoch in UTC.  The leading day-of-week field is
/// redundant in an HTTP-date and is not cross-checked against the date.
#[verifier::external_body]
pub fn parse_http_date(s: &str) -> (r: Option<i64>)
    ensures
        r == http_date_epoch(s@),
{
    let rest = match s.split_once(", ") {
        Some((_weekday, rest)) => rest,
        None => s,
    };
    match chrono::NaiveDateTime::parse_from_str(rest, "%d %b %Y %H:%M:%S GMT") {
        Ok(dt) => Some(dt.and_utc().timestamp()),
        Err(_) => None,
    }
}

/// A storage container, as a listing reports it.  `last_modified` holds
/// seconds since the Unix epoch, UTC.  Containers have no identifier apart
/// from their name, which therefore doubles as the pagination marker.
pub struct Container {
    pub bytes: u64,
    pub count: u64,
    pub last_modified: i64,
    pub name: String,
}

/// The model of a container: plain values, the name as characters.
pub struct ContainerModel {
    pub bytes: u64,
    pub count: u64,
    pub last_modified: i64,
    pub name: Seq<char>,
}

impl View for Container {
    type V = ContainerModel;

    open spec fn view(&self) -> ContainerModel {
        ContainerModel {
            bytes: self.bytes,
            count: self.count,
            last_modified: self.last_modified,
            name: self.name@,
        }
    }
}

impl ListItem for Container {
    open spec fn marker_model(m: ContainerModel) -> Seq<char> {
        m.name
    }

    fn marker_field(&self) -> (s: String) {
        self.name.clone()
    }

    fn duplicate(&self) -> (r: Container) {
        Container {
            bytes: self.bytes,
            count: self.count,
            last_modified: self.last_modified,
            name: self.name.clone(),
        }
    }
}

/// A stored object, as a listing of its container reports it.  As with
/// containers, the name is the pagination marker.
pub struct Object {
    pub bytes: u64,
    pub content_type: String,
    pub last_modified: i64,
    pub name: String,
}

/// The model of an object: plain values, strings as characters.
pub struct ObjectModel {
    pub bytes: u64,
    pub content_type: Seq<char>,
    pub last_modified: i64,
    pub name: Seq<char>,
}

impl View for Object {
    type V = ObjectModel;

    open spec fn view(&self) -> ObjectModel {
        ObjectModel {
            bytes: self.bytes,
            content_type: self.content_type@,
            last_modified: self.last_modified,
            name: self.name@,
        }
    }
}

impl ListItem for Object {
    open spec fn marker_model(m: ObjectModel) -> Seq<char> {
        m.name
    }

    fn marker_field(&self) -> (s: String) {
        self.name.clone()
    }

    fn duplicate(&self) -> (r: Object) {
        Object {
            bytes: self.bytes,
            content_type: self.content_type.clone(),
            last_modified: self.last_modified,
            name: self.name.clone(),
        }
    }
}

/// Decode one container record from its plain wire fields.  A malformed
/// `last_modified` date is a deserialization failure, never a silently
/// defaulted timestamp.
pub fn decode_container(bytes: u64, count: u64, last_modified: &str, name: String) -> (r: Result<
    Container,
    Error,
>)
    ensures
        match http_date_epoch(last_modified@) {
            Some(t) => r matches Ok(c) && c@ == (ContainerModel {
                bytes,
                count,
                last_modified: t,
                name: name@,
            }),
            None => r matches Err(Error::Deserialization),
        },
{
    match parse_http_date(last_modified) {
        Some(t) => Ok(Container { bytes, count, last_modified: t, name }),
        None => Err(Error::Deserialization),
    }
}

/// Decode one object record from its plain wire fields; malformed dates
/// fail exactly as in [`decode_container`].
pub fn decode_object(bytes: u64, content_type: String, last_modified: &str, name: String) -> (r:
    Result<Object, Error>)
    ensures
        match http_date_epoch(last_modified@) {
            Some(t) => r matches Ok(o) && o@ == (ObjectModel {
                bytes,
                content_type: content_type@,
                last_modified: t,
                name: name@,
            }),
            None => r matches Err(Error::Deserialization),
        },
{
    match parse_http_date(last_modified) {
        Some(t) => Ok(Object { bytes, content_type, last_modified: t, name }),
        None => Err(Error::Deserialization),
    }
}

} // verus!
