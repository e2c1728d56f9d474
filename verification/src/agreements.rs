//! Agreement endpoints of the market, common to requestors and providers.
//!
//! Agreements are read and changed outside. The functions here say which
//! queries are made and what is answered.

use chrono::{TimeZone, Utc};
use vstd::prelude::*;

verus! {

/// Side of an agreement.
#[derive(Clone, Copy, Debug, PartialEq, Eq)]
pub enum OwnerType {
    Requestor,
    Provider,
}

/// Method of a request.
#[derive(Clone, Copy, Debug, PartialEq, Eq)]
pub enum Method {
    Get,
    Post,
}

/// What answers a request.
#[derive(Clone, Copy, Debug, PartialEq, Eq)]
pub enum Handler {
    CollectAgreementEvents,
    GetAgreement,
    TerminateAgreement,
}

/// An endpoint.
#[derive(Debug, PartialEq, Eq)]
pub struct Endpoint {
    pub method: Method,
    pub path: String,
    pub handler: Handler,
}

impl Endpoint {
    /// The endpoint of `handler` at `path`.
    pub open spec fn serves(&self, method: Method, path: Seq<char>, handler: Handler) -> bool {
        self.method == method && self.path@ == path && self.handler == handler
    }
}

/// The endpoints, in the order in which they are registered.
pub fn register_endpoints() -> (r: Vec<Endpoint>)
    ensures
        r@.len() == 3,
        r@[0].serves(Method::Get, "/agreementEvents"@, Handler::CollectAgreementEvents),
        r@[1].serves(Method::Get, "/agreements/{agreement_id}"@, Handler::GetAgreement),
        r@[2].serves(
            Method::Post,
            "/agreements/{agreement_id}/terminate"@,
            Handler::TerminateAgreement,
        ),
{
    let mut r: Vec<Endpoint> = Vec::new();
    r.push(
        Endpoint {
            method: Method::Get,
            path: "/agreementEvents".to_owned(),
            handler: Handler::CollectAgreementEvents,
        },
    );
    r.push(
        Endpoint {
            method: Method::Get,
            path: "/agreements/{agreement_id}".to_owned(),
            handler: Handler::GetAgreement,
        },
    );
    r.push(
        Endpoint {
            method: Method::Post,
            path: "/agreements/{agreement_id}/terminate".to_owned(),
            handler: Handler::TerminateAgreement,
        },
    );
    r
}

/// The sides for which a handler reads the agreement of its path, in order. An
/// agreement is read for both sides, since its reader may be on either; one is
/// terminated as the requestor's, whoever asks.
pub fn owners(handler: Handler) -> (r: Vec<OwnerType>)
    ensures
        r@ == (match handler {
            Handler::CollectAgreementEvents => Seq::<OwnerType>::empty(),
            Handler::GetAgreement => seq![OwnerType::Requestor, OwnerType::Provider],
            Handler::TerminateAgreement => seq![OwnerType::Requestor],
        }),
{
    let mut r: Vec<OwnerType> = Vec::new();
    match handler {
        Handler::CollectAgreementEvents => {},
        Handler::GetAgreement => {
            r.push(OwnerType::Requestor);
            r.push(OwnerType::Provider);
        },
        Handler::TerminateAgreement => {
            r.push(OwnerType::Requestor);
        },
    }
    assert(r@ =~= (match handler {
        Handler::CollectAgreementEvents => Seq::<OwnerType>::empty(),
        Handler::GetAgreement => seq![OwnerType::Requestor, OwnerType::Provider],
        Handler::TerminateAgreement => seq![OwnerType::Requestor],
    }));
    r
}

/// The names of an agreement on both sides: the first that cannot be made out
/// is the failure.
pub fn agreement_ids<I, E>(requestor: Result<I, E>, provider: Result<I, E>) -> (r: Result<
    (I, I),
    E,
>)
    ensures
        r == (match requestor {
            Err(e) => Err(e),
            Ok(req) => match provider {
                Err(e) => Err(e),
                Ok(prov) => Ok((req, prov)),
            },
        }),
{
    match requestor {
        Err(e) => Err(e),
        Ok(req) => match provider {
            Err(e) => Err(e),
            Ok(prov) => Ok((req, prov)),
        },
    }
}

/// Answer of an endpoint.
#[derive(Debug, PartialEq, Eq)]
pub enum HttpReply<T> {
    /// Success, with the value as JSON.
    Json(T),
    /// Success, with nothing.
    Empty,
}

/// Why there is no agreement to hand out.
#[derive(Debug, PartialEq, Eq)]
pub enum AgreementError<I> {
    /// Neither side has it; the requestor's name of it.
    NotFound(I),
    /// Both sides have it, which cannot be.
    Internal(String),
}

/// `r` is the answer where the two sides gave `requestor` and `provider`.
pub open spec fn is_answer<I, A, E>(
    requestor_id: I,
    requestor: Result<A, E>,
    provider: Result<A, E>,
    r: Result<HttpReply<A>, AgreementError<I>>,
) -> bool {
    match (requestor, provider) {
        (Err(_), Err(_)) => r == Err::<HttpReply<A>, AgreementError<I>>(
            AgreementError::NotFound(requestor_id),
        ),
        (Err(_), Ok(a)) => r == Ok::<HttpReply<A>, AgreementError<I>>(HttpReply::Json(a)),
        (Ok(a), Err(_)) => r == Ok::<HttpReply<A>, AgreementError<I>>(HttpReply::Json(a)),
        (Ok(_), Ok(_)) => r matches Err(AgreementError::Internal(m)) && m@ == "We found "@,
    }
}

/// The agreement of the one side that has it.
pub fn get_agreement<I, A, E>(
    requestor_id: I,
    requestor: Result<A, E>,
    provider: Result<A, E>,
) -> (r: Result<HttpReply<A>, AgreementError<I>>)
    ensures
        is_answer(requestor_id, requestor, provider, r),
{
    match (requestor, provider) {
        (Err(_), Err(_)) => Err(AgreementError::NotFound(requestor_id)),
        (Err(_), Ok(a)) => Ok(HttpReply::Json(a)),
        (Ok(a), Err(_)) => Ok(HttpReply::Json(a)),
        (Ok(_), Ok(_)) => Err(AgreementError::Internal("We found ".to_owned())),
    }
}

/// A point in time: seconds since 1970-01-01T00:00:00Z, and nanoseconds.
#[derive(Clone, Copy, Debug, PartialEq, Eq)]
pub struct Timestamp {
    pub secs: i64,
    pub nanos: u32,
}

/// `year` is a leap year of the Gregorian calendar.
pub open spec fn is_leap(year: int) -> bool {
    year % 4 == 0 && (year % 100 != 0 || year % 400 == 0)
}

/// Days of a month.
pub open spec fn month_days(year: int, month: int) -> int {
    if month == 2 {
        if is_leap(year) {
            29
        } else {
            28
        }
    } else if month == 4 || month == 6 || month == 9 || month == 11 {
        30
    } else {
        31
    }
}

/// Days of a year before a month.
pub open spec fn days_before_month(year: int, month: int) -> int
    decreases month,
{
    if month <= 1 {
        0
    } else {
        days_before_month(year, month - 1) + month_days(year, month - 1)
    }
}

/// Days from 1970-01-01 to the first day of a year: 365 for each year, and one
/// for each leap year, of which there were 477 before 1970.
pub open spec fn days_before_year(year: int) -> int {
    365 * (year - 1970) + ((year - 1) / 4 - (year - 1) / 100 + (year - 1) / 400 - 477)
}

/// Seconds from 1970-01-01T00:00:00Z to a point in time.
pub open spec fn epoch_seconds(
    year: int,
    month: int,
    day: int,
    hour: int,
    min: int,
    sec: int,
) -> int {
    let days = days_before_year(year) + days_before_month(year, month) + day - 1;
    days * 86400 + hour * 3600 + min * 60 + sec
}

/// Seconds from 1970-01-01T00:00:00Z to a point in time in UTC.
///
/// Calls `chrono::TimeZone::ymd` on `chrono::Utc`, then `chrono::Date::and_hms`
/// and `chrono::DateTime::timestamp`. They count days by the proleptic
/// Gregorian calendar and leave leap seconds out.
#[verifier::external_body]
#[allow(deprecated)]
fn utc_seconds(year: i32, month: u32, day: u32, hour: u32, min: u32, sec: u32) -> (r: i64)
    requires
        1 <= year <= 9999,
        1 <= month <= 12,
        1 <= day <= month_days(year as int, month as int),
        hour < 24,
        min < 60,
        sec < 60,
    ensures
        r == epoch_seconds(
            year as int,
            month as int,
            day as int,
            hour as int,
            min as int,
            sec as int,
        ),
{
    Utc.ymd(year, month, day).and_hms(hour, min, sec).timestamp()
}

/// The point in time after which agreement events are collected: the one asked
/// for, or 2016-11-11T15:12:00Z.
pub fn after_timestamp(asked: Option<Timestamp>) -> (r: Timestamp)
    ensures
        match asked {
            Some(t) => r == t,
            None => r.secs == 1478877120 && r.nanos == 0,
        },
{
    match asked {
        Some(t) => t,
        None => {
            let secs: i64 = utc_seconds(2016, 11, 11, 15, 12, 0);
            assert(secs == 1478877120) by {
                reveal_with_fuel(days_before_month, 11);
            }
            Timestamp { secs, nanos: 0 }
        },
    }
}

/// The answer to a query of agreement events.
pub fn collect_agreement_events<T, E>(events: Result<T, E>) -> (r: Result<HttpReply<T>, E>)
    ensures
        r == (match events {
            Ok(v) => Ok(HttpReply::Json(v)),
            Err(e) => Err(e),
        }),
{
    match events {
        Ok(v) => Ok(HttpReply::Json(v)),
        Err(e) => Err(e),
    }
}

/// The answer to the termination of an agreement.
pub fn terminate_agreement<T, E>(done: Result<T, E>) -> (r: Result<HttpReply<T>, E>)
    ensures
        r == (match done {
            Ok(_) => Ok(HttpReply::<T>::Empty),
            Err(e) => Err(e),
        }),
{
    match done {
        Ok(_) => Ok(HttpReply::Empty),
        Err(e) => Err(e),
    }
}

/// An agreement is handed out if and only if exactly one side has it, and it
/// is the one of that side.
pub proof fn law_agreement_of_one_side<I, A, E>(
    requestor_id: I,
    requestor: Result<A, E>,
    provider: Result<A, E>,
    r: Result<HttpReply<A>, AgreementError<I>>,
)
    requires
        is_answer(requestor_id, requestor, provider, r),
    ensures
        r is Ok <==> (requestor is Ok) != (provider is Ok),
        r is Ok ==> r->Ok_0 == HttpReply::Json(
            if requestor is Ok {
                requestor->Ok_0
            } else {
                provider->Ok_0
            },
        ),
{
}

} // verus!
