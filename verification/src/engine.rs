use vstd::prelude::*;

verus! {

use crate::body::copy_body;
use crate::encoding::{
    spec_check_encoding, check_encoding, spec_plain_of, spec_coded_of, decode_failed_msg,
    accept_encoding_name, spec_first_bad_token, unsupported_encoding_msg,
};
use crate::headers::spec_find_header;
use crate::errors::{HttpUtilError, HttpUtilErrorV};
use crate::headers::clone_headers;
use crate::message::{
    Request, ResponseForFront, WireRequest, WireResponse, WireResponseV, spec_request_to_front,
    spec_response_to_front, spec_request_from_front, spec_response_parts_from_front,
    spec_response_encoding_of, spec_empty_request, spec_empty_response, spec_error_reply,
    request_to_front, response_to_front, request_from_front, response_from_front,
    response_encoding, error_response,
};
use crate::pair::new_pair_id;
use vstd::string::StrSliceExecFns;

/// The intercept-mode toggle a control payload denotes.  Only the literal
/// texts `true` and `false` switch the mode; any other payload denotes
/// nothing and leaves the state unchanged.
pub fn pilot_toggle(payload: &str) -> (r: Option<bool>)
    ensures
        payload@ == "true"@ ==> r == Some(true),
        payload@ == "false"@ ==> r == Some(false),
        r is None <==> (payload@ != "true"@ && payload@ != "false"@),
{
    proof {
        reveal_strlit("true");
        reveal_strlit("false");
        assert("true"@.len() == 4);
        assert("false"@.len() == 5);
    }
    if crate::text::str_eq(payload, "true") {
        Some(true)
    } else if crate::text::str_eq(payload, "false") {
        Some(false)
    } else {
        None
    }
}

/// Whether a request target names a TLS destination: an `https:` URL.  A
/// deployment without TLS support rejects such a destination explicitly
/// rather than silently ignoring it.
pub fn is_tls_destination(url: &str) -> (r: bool)
    ensures
        r <==> (url@.len() >= 6 && url@.subrange(0, 6) == "https:"@),
{
    proof {
        reveal_strlit("https:");
    }
    if url.unicode_len() < 6 {
        return false;
    }
    let r = url.get_char(0) == 'h' && url.get_char(1) == 't' && url.get_char(2) == 't'
        && url.get_char(3) == 'p' && url.get_char(4) == 's' && url.get_char(5) == ':';
    proof {
        assert forall|i: int| 0 <= i < 6 implies url@.subrange(0, 6)[i] == url@[i] by {}
        if r {
            assert(url@.subrange(0, 6) =~= "https:"@);
        } else {
            assert(url@.subrange(0, 6) != "https:"@);
        }
    }
    r
}

/// Where one exchange stands in its life.
#[derive(Clone, Copy, PartialEq, Eq, Structural, Debug)]
pub enum Phase {
    /// Created; the inbound request has not been presented yet.
    AwaitingRequest,
    /// The request notice went out as an edit request; the task is
    /// suspended until an edited request (or abandonment) comes back.
    AwaitingRequestEdit,
    /// The outbound request was handed over for forwarding; the upstream
    /// outcome has not been presented yet.
    AwaitingUpstream,
    /// The response notice went out as an edit request; the task is
    /// suspended until an edited response (or abandonment) comes back.
    AwaitingResponseEdit,
    /// A reply went back to the original caller; the exchange is over.
    Complete,
}

/// What came back from an edit wait.
pub enum EditOutcome<M> {
    /// The control surface delivered an edited message.
    Received(M),
    /// A payload arrived but could not be deserialized; the text says why.
    Malformed(String),
    /// The wait was abandoned (the channel closed): the engine falls back
    /// to the empty default message rather than blocking forever.
    Abandoned,
}

/// What came back from forwarding the outbound request.
pub enum UpstreamOutcome {
    /// The destination answered.
    Answered(WireResponse),
    /// The transport failed; the error says how.
    Failed(HttpUtilError),
}

/// What the surrounding task must do next, as decided by one engine step.
pub enum Step {
    /// Send the notice to the control surface as an edit request, then
    /// suspend until an edited request arrives: the engine forwards
    /// nothing yet.
    AwaitRequestEdit { notice: Request },
    /// Emit the read-only notice and, without blocking, forward the
    /// outbound request upstream.
    NotifyAndForward { notice: Request, outbound: WireRequest },
    /// Forward the outbound request upstream.
    Forward { outbound: WireRequest },
    /// Send the notice as an edit request, then suspend until an edited
    /// response arrives: nothing is replied yet.
    AwaitResponseEdit { notice: ResponseForFront },
    /// Emit the read-only notice and, without blocking, return the reply
    /// to the original caller.
    NotifyAndReply { notice: ResponseForFront, reply: WireResponse },
    /// Return the reply to the original caller.
    Reply { reply: WireResponse },
}

/// One proxied exchange: a request and its eventual response, correlated
/// by a pair identifier drawn once at creation and never changed.  The
/// intercept flag is snapshotted independently for each half, so a single
/// exchange may have its request paused but its response passed through.
pub struct Exchange {
    /// The exchange's correlation identifier.
    pub pair_id: u128,
    /// The intercept snapshot taken when the request half started.
    pub intercepted: bool,
    /// Where the exchange stands.
    pub phase: Phase,
}

impl Exchange {
    /// Opens a new exchange with a freshly drawn pair identifier.
    pub fn new() -> (r: Exchange)
        ensures
            r.phase == Phase::AwaitingRequest,
            r.intercepted == false,
    {
        Exchange { pair_id: new_pair_id(), intercepted: false, phase: Phase::AwaitingRequest }
    }

    /// Handles the inbound request under the given intercept snapshot.
    ///
    /// The request's advertised acceptable encodings are validated first:
    /// on an unsupported token the exchange ends at once with a synthetic
    /// 500 and nothing is forwarded.  Otherwise the canonical notice is
    /// built (its failure also ends the exchange with a 500); with the
    /// intercept on, the engine suspends for an edit; with it off, the
    /// very request that came in is forwarded unchanged.
    pub fn on_request(&mut self, rq: WireRequest, pilot: bool) -> (s: Step)
        requires
            old(self).phase == Phase::AwaitingRequest,
        ensures
            final(self).pair_id == old(self).pair_id,
            final(self).intercepted == pilot,
            ({
                if !spec_check_encoding(rq@.headers) {
                    final(self).phase == Phase::Complete && (spec_find_header(
                        rq@.headers,
                        accept_encoding_name(),
                    ) matches Some(v) && (s matches Step::Reply { reply } && reply@
                        == spec_error_reply(
                        HttpUtilErrorV::UnsupportedEncoding(
                            unsupported_encoding_msg(spec_first_bad_token(v)),
                        ),
                    )))
                } else {
                    match spec_request_to_front(rq@, old(self).pair_id, pilot) {
                        Err(e) => final(self).phase == Phase::Complete && (s matches
                            Step::Reply { reply } && reply@ == spec_error_reply(e)),
                        Ok(f) => if pilot {
                            final(self).phase == Phase::AwaitingRequestEdit && (s matches
                                Step::AwaitRequestEdit { notice } && notice@ == f)
                        } else {
                            final(self).phase == Phase::AwaitingUpstream && (s matches
                                Step::NotifyAndForward { notice, outbound } && notice@ == f
                                && outbound@ == rq@)
                        },
                    }
                }
            }),
    {
        self.intercepted = pilot;
        if let Err(e) = check_encoding(&rq.headers) {
            self.phase = Phase::Complete;
            return Step::Reply { reply: error_response(&e) };
        }
        match request_to_front(&rq, self.pair_id, pilot) {
            Err(e) => {
                self.phase = Phase::Complete;
                Step::Reply { reply: error_response(&e) }
            },
            Ok(notice) => {
                if pilot {
                    self.phase = Phase::AwaitingRequestEdit;
                    Step::AwaitRequestEdit { notice }
                } else {
                    self.phase = Phase::AwaitingUpstream;
                    Step::NotifyAndForward { notice, outbound: rq }
                }
            },
        }
    }

    /// Resumes the request half after an edit wait.  A received edit is
    /// converted back to wire form and forwarded; an abandoned wait falls
    /// back to the empty default request; a malformed payload, or an edit
    /// that cannot be converted, ends the exchange with a synthetic 500.
    pub fn on_request_edit(&mut self, edited: EditOutcome<Request>) -> (s: Step)
        requires
            old(self).phase == Phase::AwaitingRequestEdit,
        ensures
            final(self).pair_id == old(self).pair_id,
            final(self).intercepted == old(self).intercepted,
            ({
                match edited {
                    EditOutcome::Malformed(m) => final(self).phase == Phase::Complete && (s
                        matches Step::Reply { reply } && reply@ == spec_error_reply(
                        HttpUtilErrorV::ModifiedMessageReceiveError(m@),
                    )),
                    EditOutcome::Received(f) => match spec_request_from_front(f@) {
                        Err(e) => final(self).phase == Phase::Complete && (s matches
                            Step::Reply { reply } && reply@ == spec_error_reply(e)),
                        Ok(w) => final(self).phase == Phase::AwaitingUpstream && (s matches
                            Step::Forward { outbound } && outbound@ == w),
                    },
                    EditOutcome::Abandoned => match spec_request_from_front(
                        spec_empty_request(),
                    ) {
                        Err(e) => final(self).phase == Phase::Complete && (s matches
                            Step::Reply { reply } && reply@ == spec_error_reply(e)),
                        Ok(w) => final(self).phase == Phase::AwaitingUpstream && (s matches
                            Step::Forward { outbound } && outbound@ == w),
                    },
                }
            }),
    {
        let front = match edited {
            EditOutcome::Malformed(m) => {
                self.phase = Phase::Complete;
                return Step::Reply {
                    reply: error_response(&HttpUtilError::ModifiedMessageReceiveError(m)),
                };
            },
            EditOutcome::Received(f) => f,
            EditOutcome::Abandoned => Request::new(),
        };
        match request_from_front(&front) {
            Err(e) => {
                self.phase = Phase::Complete;
                Step::Reply { reply: error_response(&e) }
            },
            Ok(outbound) => {
                self.phase = Phase::AwaitingUpstream;
                Step::Forward { outbound }
            },
        }
    }

    /// Handles the upstream outcome under the response half's own
    /// intercept snapshot.
    ///
    /// A transport failure ends the exchange with a synthetic 500.  An
    /// answer has its body decoded per its declared `Content-Encoding`
    /// (unsupported token or corrupt stream: synthetic 500) and the
    /// plaintext notice is built; with the intercept on, the engine
    /// suspends for an edit; with it off, the caller gets the answer
    /// exactly as the origin sent it, encoded body and all.
    pub fn on_upstream(&mut self, outcome: UpstreamOutcome, pilot: bool) -> (s: Step)
        requires
            old(self).phase == Phase::AwaitingUpstream,
        ensures
            final(self).pair_id == old(self).pair_id,
            final(self).intercepted == old(self).intercepted,
            ({
                match outcome {
                    UpstreamOutcome::Failed(e) => final(self).phase == Phase::Complete && (s
                        matches Step::Reply { reply } && reply@ == spec_error_reply(e@)),
                    UpstreamOutcome::Answered(rs) => match spec_response_encoding_of(
                        rs@.headers,
                    ) {
                        Err(e) => final(self).phase == Phase::Complete && (s matches
                            Step::Reply { reply } && reply@ == spec_error_reply(e)),
                        Ok(enc) => match spec_plain_of(enc, rs@.body) {
                            None => final(self).phase == Phase::Complete && (s matches
                                Step::Reply { reply } && reply@ == spec_error_reply(
                                HttpUtilErrorV::DecodeError(decode_failed_msg()),
                            )),
                            Some(plain) => {
                                let decoded = WireResponseV {
                                    headers: rs@.headers,
                                    status: rs@.status,
                                    version: rs@.version,
                                    body: plain,
                                };
                                match spec_response_to_front(decoded, old(self).pair_id, pilot) {
                                    Err(e) => final(self).phase == Phase::Complete && (s
                                        matches Step::Reply { reply } && reply@
                                        == spec_error_reply(e)),
                                    Ok(f) => if pilot {
                                        final(self).phase == Phase::AwaitingResponseEdit && (s
                                            matches Step::AwaitResponseEdit { notice }
                                            && notice@ == f)
                                    } else {
                                        final(self).phase == Phase::Complete && (s matches
                                            Step::NotifyAndReply { notice, reply } && notice@
                                            == f && reply@ == rs@)
                                    },
                                }
                            },
                        },
                    },
                }
            }),
    {
        let rs = match outcome {
            UpstreamOutcome::Failed(e) => {
                self.phase = Phase::Complete;
                return Step::Reply { reply: error_response(&e) };
            },
            UpstreamOutcome::Answered(rs) => rs,
        };
        let enc = match response_encoding(&rs.headers) {
            Err(e) => {
                self.phase = Phase::Complete;
                return Step::Reply { reply: error_response(&e) };
            },
            Ok(e) => e,
        };
        let (body, body_copy) = copy_body(rs.body);
        let rs = WireResponse { headers: rs.headers, status: rs.status, version: rs.version, body };
        let plain = match enc.decode(body_copy) {
            Err(e) => {
                self.phase = Phase::Complete;
                return Step::Reply { reply: error_response(&e) };
            },
            Ok(p) => p,
        };
        let decoded = WireResponse {
            headers: clone_headers(&rs.headers),
            status: rs.status,
            version: rs.version,
            body: plain,
        };
        match response_to_front(&decoded, self.pair_id, pilot) {
            Err(e) => {
                self.phase = Phase::Complete;
                Step::Reply { reply: error_response(&e) }
            },
            Ok(notice) => {
                if pilot {
                    self.phase = Phase::AwaitingResponseEdit;
                    Step::AwaitResponseEdit { notice }
                } else {
                    self.phase = Phase::Complete;
                    Step::NotifyAndReply { notice, reply: rs }
                }
            },
        }
    }

    /// Resumes the response half after an edit wait.  A received edit is
    /// converted back to wire form — its plaintext body re-encoded with
    /// its own declared coding — and returned to the caller; an abandoned
    /// wait falls back to the empty default response; a malformed payload,
    /// or an edit that cannot be converted, ends the exchange with a
    /// synthetic 500.
    pub fn on_response_edit(&mut self, edited: EditOutcome<ResponseForFront>) -> (s: Step)
        requires
            old(self).phase == Phase::AwaitingResponseEdit,
        ensures
            final(self).pair_id == old(self).pair_id,
            final(self).intercepted == old(self).intercepted,
            final(self).phase == Phase::Complete,
            ({
                match edited {
                    EditOutcome::Malformed(m) => s matches Step::Reply { reply } && reply@
                        == spec_error_reply(HttpUtilErrorV::ModifiedMessageReceiveError(m@)),
                    EditOutcome::Received(f) => match spec_response_parts_from_front(f@) {
                        Err(e) => s matches Step::Reply { reply } && reply@ == spec_error_reply(
                            e,
                        ),
                        Ok(parts) => s matches Step::Reply { reply } && reply@.headers
                            == parts.headers && reply@.status == parts.status && reply@.version
                            == parts.version && reply@.body == spec_coded_of(
                            parts.encoding,
                            vstd::utf8::encode_utf8(f@.body),
                        ) && spec_plain_of(parts.encoding, reply@.body) == Some(
                            vstd::utf8::encode_utf8(f@.body),
                        ),
                    },
                    EditOutcome::Abandoned => match spec_response_parts_from_front(
                        spec_empty_response(),
                    ) {
                        Err(e) => s matches Step::Reply { reply } && reply@ == spec_error_reply(
                            e,
                        ),
                        Ok(parts) => s matches Step::Reply { reply } && reply@.headers
                            == parts.headers && reply@.status == parts.status && reply@.version
                            == parts.version && reply@.body == spec_coded_of(
                            parts.encoding,
                            vstd::utf8::encode_utf8(spec_empty_response().body),
                        ) && spec_plain_of(parts.encoding, reply@.body) == Some(
                            vstd::utf8::encode_utf8(spec_empty_response().body),
                        ),
                    },
                }
            }),
    {
        let front = match edited {
            EditOutcome::Malformed(m) => {
                self.phase = Phase::Complete;
                return Step::Reply {
                    reply: error_response(&HttpUtilError::ModifiedMessageReceiveError(m)),
                };
            },
            EditOutcome::Received(f) => f,
            EditOutcome::Abandoned => ResponseForFront::new(),
        };
        self.phase = Phase::Complete;
        match response_from_front(&front) {
            Err(e) => Step::Reply { reply: error_response(&e) },
            Ok(reply) => Step::Reply { reply },
        }
    }
}

} // verus!
