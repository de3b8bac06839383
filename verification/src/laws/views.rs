//! What contracts speak of is what values hold.

use crate::cli::Error;
use crate::color::run_view;
use crate::inquiry::{outcome_view, Step, StepView};
use crate::monitor::Notice;
use crate::packet::{result_view, GetServerInfoResponse, ProtocolError};
use crate::report::Label;
use crate::server::{ServerInfo, ServerResult, ServerResultKind};
use vstd::prelude::*;

verus! {

/// The view of a reply has what the reply has, under the same names.
pub proof fn law_replies_are_what_they_hold<T: View>(r: GetServerInfoResponse<T>)
    ensures
        r@.gamedir == r.gamedir@,
        r@.map == r.map@,
        r@.host == r.host@,
        r@.protocol == r.protocol,
        r@.numcl == r.numcl,
        r@.maxcl == r.maxcl,
        r@.dm == r.dm,
        r@.team == r.team,
        r@.coop == r.coop,
        r@.password == r.password,
        r@.dedicated == r.dedicated,
{
}

/// The view of information has what the information has, under the same names.
pub proof fn law_information_is_what_it_holds<T: View>(i: ServerInfo<T>)
    ensures
        i@.gamedir == i.gamedir@,
        i@.map == i.map@,
        i@.host == i.host@,
        i@.protocol == i.protocol,
        i@.numcl == i.numcl,
        i@.maxcl == i.maxcl,
        i@.dm == i.dm,
        i@.team == i.team,
        i@.coop == i.coop,
        i@.password == i.password,
        i@.dedicated == i.dedicated,
{
}

/// The view of a result is of the same kind as the result and has what it has.
pub proof fn law_results_are_what_they_hold<T: View>(r: ServerResult<T>)
    ensures
        r@.time == r.time,
        r@.address == r.address,
        r@.ping == r.ping,
        r.kind matches ServerResultKind::Info { info } ==> r@.kind == (ServerResultKind::Info {
            info: info@,
        }),
        r.kind matches ServerResultKind::Error { message } ==> r@.kind == (
        ServerResultKind::Error { message: message@ }),
        r.kind matches ServerResultKind::Invalid { message, response } ==> r@.kind == (
        ServerResultKind::Invalid { message: message@, response: response@ }),
        r.kind is Timeout <==> r@.kind is Timeout,
        r.kind is Protocol <==> r@.kind is Protocol,
        r.kind is Remove <==> r@.kind is Remove,
{
}

/// The views of errors, labels, steps and notices have what these have.
pub proof fn law_other_views(
    e: ProtocolError,
    l: Label,
    step: Step,
    notice: Notice,
    run: (String, String),
)
    ensures
        e is InvalidProtocolVersion <==> e@ is InvalidProtocolVersion,
        e matches ProtocolError::Other(m) ==> e@ == ProtocolError::Other(m@),
        l@.address == l.address@,
        l@.ping == l.ping@,
        step is Wait <==> step@ is Wait,
        step matches Step::QueryServers { packet } ==> step@ == (StepView::QueryServers {
            packet: packet@,
        }),
        step matches Step::Ask { servers, packet } ==> step@ == (StepView::Ask {
            servers: servers@,
            packet: packet@,
        }),
        step matches Step::Complain { message } ==> step@ == (StepView::Complain {
            message: message@,
        }),
        notice is Nothing <==> notice@ is Nothing,
        notice matches Notice::Json(result) ==> notice@ == Notice::Json(result@),
        notice matches Notice::Text(text) ==> notice@ == Notice::Text(text@),
        run_view(run).0 == run.0@,
        run_view(run).1 == run.1@,
{
}

/// The view of an outcome succeeds just where the outcome does, and has what it
/// has.
pub proof fn law_outcomes_are_what_they_hold<A: View, B: View>(
    r: Result<A, B>,
    sent: Result<(), String>,
)
    ensures
        r matches Ok(a) ==> result_view(r) == Ok::<A::V, B::V>(a@),
        r matches Err(b) ==> result_view(r) == Err::<A::V, B::V>(b@),
        sent is Ok <==> outcome_view(sent) is Ok,
        sent matches Err(m) ==> outcome_view(sent) == Err::<(), Seq<char>>(m@),
{
}

/// An error is told in the words of its cause.
pub proof fn law_errors_are_told(e: ProtocolError)
    ensures
        Error::Protocol(e).message() == e@.message(),
        e matches ProtocolError::Other(m) ==> Error::Protocol(e).message() == m@,
        Error::UndefinedCommand.message() == "Undefined command"@,
{
}

} // verus!
