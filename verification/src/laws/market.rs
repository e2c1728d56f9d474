//! Laws on the agreement endpoints.

use vstd::prelude::*;

use crate::agreements::{
    AgreementError, Endpoint, Handler, HttpReply, Method, OwnerType, Timestamp,
};

verus! {

/// The endpoints: events and agreements are read by `GET`, and an agreement is
/// terminated by `POST` under its own address.
pub proof fn law_endpoints(r: Vec<Endpoint>, i: int)
    requires
        call_ensures(crate::agreements::register_endpoints, (), r),
        0 <= i < r@.len(),
    ensures
        r@.len() == 3,
        r@[i].method == Method::Post <==> r@[i].handler == Handler::TerminateAgreement,
        r@[i].handler == Handler::CollectAgreementEvents <==> i == 0,
        r@[i].handler == Handler::GetAgreement <==> i == 1,
        match r@[i].handler {
            Handler::CollectAgreementEvents => r@[i].path@ == "/agreementEvents"@,
            Handler::GetAgreement => r@[i].path@ == "/agreements/{agreement_id}"@,
            Handler::TerminateAgreement => r@[i].path@ == "/agreements/{agreement_id}/terminate"@,
        },
{
}

/// An agreement is read for both sides, the requestor's first, and terminated
/// for the requestor's alone.
pub proof fn law_sides_of_agreement(handler: Handler, r: Vec<OwnerType>)
    requires
        call_ensures(crate::agreements::owners, (handler,), r),
    ensures
        handler == Handler::GetAgreement ==> r@.len() == 2 && r@[0] == OwnerType::Requestor && r@[1]
            == OwnerType::Provider,
        handler == Handler::TerminateAgreement ==> r@.len() == 1 && r@[0] == OwnerType::Requestor,
        handler == Handler::CollectAgreementEvents ==> r@.len() == 0,
{
}

/// Both names of an agreement are needed, and the requestor's is read first.
pub proof fn law_names_of_agreement<I, E>(
    requestor: Result<I, E>,
    provider: Result<I, E>,
    r: Result<(I, I), E>,
)
    requires
        call_ensures(crate::agreements::agreement_ids::<I, E>, (requestor, provider), r),
    ensures
        r is Ok <==> requestor is Ok && provider is Ok,
        r is Ok ==> r->Ok_0.0 == requestor->Ok_0 && r->Ok_0.1 == provider->Ok_0,
        requestor is Err ==> r is Err && r->Err_0 == requestor->Err_0,
        requestor is Ok && provider is Err ==> r->Err_0 == provider->Err_0,
{
}

/// An agreement is handed out if and only if exactly one side has it, and it is
/// the one of that side. Where neither has it, it is not found, under the
/// requestor's name; where both have it, something is wrong inside.
pub proof fn law_agreement_is_of_one_side<I, A, E>(
    id: I,
    requestor: Result<A, E>,
    provider: Result<A, E>,
    r: Result<HttpReply<A>, AgreementError<I>>,
)
    requires
        call_ensures(
            crate::agreements::get_agreement::<I, A, E>,
            (id, requestor, provider),
            r,
        ),
    ensures
        r is Ok <==> requestor is Ok != provider is Ok,
        requestor is Ok && provider is Err ==> r->Ok_0 == HttpReply::Json(requestor->Ok_0),
        requestor is Err && provider is Ok ==> r->Ok_0 == HttpReply::Json(provider->Ok_0),
        requestor is Err && provider is Err ==> r == Err::<HttpReply<A>, AgreementError<I>>(
            AgreementError::NotFound(id),
        ),
        requestor is Ok && provider is Ok ==> (r matches Err(AgreementError::Internal(m)) && m@
            == "We found "@),
{
}

/// Events are collected from the time that was asked for, whatever it is, and
/// from 2016-11-11T15:12:00Z where none was.
pub proof fn law_time_of_events(asked: Option<Timestamp>, r: Timestamp)
    requires
        call_ensures(crate::agreements::after_timestamp, (asked,), r),
    ensures
        asked matches Some(t) ==> r == t,
        asked is None ==> r.secs == 1478877120 && r.nanos == 0,
{
}

/// Collected events are answered as they are, a termination with nothing, and a
/// failure of either is that failure.
pub proof fn law_answers<T, E>(
    events: Result<T, E>,
    r: Result<HttpReply<T>, E>,
    q: Result<HttpReply<T>, E>,
)
    requires
        call_ensures(crate::agreements::collect_agreement_events::<T, E>, (events,), r),
        call_ensures(crate::agreements::terminate_agreement::<T, E>, (events,), q),
    ensures
        events is Ok ==> r == Ok::<HttpReply<T>, E>(HttpReply::Json(events->Ok_0)) && q == Ok::<
            HttpReply<T>,
            E,
        >(HttpReply::Empty),
        events is Err ==> r == Err::<HttpReply<T>, E>(events->Err_0) && q == Err::<
            HttpReply<T>,
            E,
        >(events->Err_0),
{
}

/// The calendar: a common year has 365 days and a leap year 366, the years
/// follow each other without a gap, and so do the months and the days.
pub proof fn law_calendar(year: int, month: int, day: int)
    requires
        1 <= year,
        1 <= month <= 12,
    ensures
        crate::agreements::days_before_year(year + 1) - crate::agreements::days_before_year(year)
            == (if year % 4 == 0 && (year % 100 != 0 || year % 400 == 0) {
            366int
        } else {
            365int
        }),
        crate::agreements::days_before_year(1970) == 0,
        crate::agreements::days_before_month(year, 1) == 0,
        crate::agreements::days_before_month(year, month + 1)
            - crate::agreements::days_before_month(year, month) == crate::agreements::month_days(
            year,
            month,
        ),
        crate::agreements::epoch_seconds(year, month, day + 1, 0, 0, 0)
            - crate::agreements::epoch_seconds(year, month, day, 0, 0, 0) == 86400,
        crate::agreements::epoch_seconds(1970, 1, 1, 0, 0, 0) == 0,
{
    lemma_leap_days(year);
}

proof fn lemma_leap_days(year: int)
    requires
        1 <= year,
    ensures
        year / 4 - (year - 1) / 4 == (if year % 4 == 0 { 1int } else { 0int }),
        year / 100 - (year - 1) / 100 == (if year % 100 == 0 { 1int } else { 0int }),
        year / 400 - (year - 1) / 400 == (if year % 400 == 0 { 1int } else { 0int }),
{
}

} // verus!
