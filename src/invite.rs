use vstd::prelude::*;

verus! {

/// What one invite request came back with.
#[derive(Debug)]
pub enum InviteReply {
    /// A well-formed invite response: the platform's `ok` flag, the channel
    /// it names, and the body as received.
    Parsed { ok: bool, channel_id: String, channel_name: String, body: String },
    /// The body was not an invite response.
    Malformed { error: String },
    /// The request itself failed.
    TransportFailed { error: String },
}

/// How the invite of one staged row turned out.
#[derive(Clone, Debug, PartialEq, Eq)]
pub enum InviteOutcome {
    /// The user was invited; the channel is the one the response names.
    Invited { channel_id: String, channel_name: String },
    /// The platform answered with `ok` unset; its response as received.
    Rejected { raw_response: String },
    /// No usable response came back.
    RequestFailed { error: String },
}

/// The mathematical value of an [`InviteOutcome`].
pub enum OutcomeView {
    Invited { channel_id: Seq<char>, channel_name: Seq<char> },
    Rejected { raw_response: Seq<char> },
    RequestFailed { error: Seq<char> },
}

impl View for InviteOutcome {
    type V = OutcomeView;

    open spec fn view(&self) -> OutcomeView {
        match self {
            InviteOutcome::Invited { channel_id, channel_name } =>
                OutcomeView::Invited { channel_id: channel_id@, channel_name: channel_name@ },
            InviteOutcome::Rejected { raw_response } => OutcomeView::Rejected { raw_response: raw_response@ },
            InviteOutcome::RequestFailed { error } => OutcomeView::RequestFailed { error: error@ },
        }
    }
}

/// The outcome that a reply stands for.
pub open spec fn outcome_of(reply: InviteReply) -> OutcomeView {
    match reply {
        InviteReply::Parsed { ok, channel_id, channel_name, body } =>
            if ok {
                OutcomeView::Invited { channel_id: channel_id@, channel_name: channel_name@ }
            } else {
                OutcomeView::Rejected { raw_response: body@ }
            },
        InviteReply::Malformed { error } => OutcomeView::RequestFailed { error: error@ },
        InviteReply::TransportFailed { error } => OutcomeView::RequestFailed { error: error@ },
    }
}

/// Classifies one invite reply: `ok` set gives the channel named by the
/// response, `ok` unset gives the raw body, and a malformed body or a failed
/// request gives its error.
pub fn classify(reply: InviteReply) -> (r: InviteOutcome)
    ensures
        r@ == outcome_of(reply),
{
    match reply {
        InviteReply::Parsed { ok, channel_id, channel_name, body } => {
            if ok {
                InviteOutcome::Invited { channel_id, channel_name }
            } else {
                InviteOutcome::Rejected { raw_response: body }
            }
        },
        InviteReply::Malformed { error } => InviteOutcome::RequestFailed { error },
        InviteReply::TransportFailed { error } => InviteOutcome::RequestFailed { error },
    }
}

/// The text reported for one row. A success names the channel of the
/// response; a failure names the channel id of the staged row.
pub open spec fn report_text(user_id: Seq<char>, row_channel_id: Seq<char>, outcome: OutcomeView) -> Seq<char> {
    let failed = "Failed to invite "@ + user_id + " to "@ + row_channel_id;
    match outcome {
        OutcomeView::Invited { channel_id, channel_name } =>
            "Invited "@ + user_id + " to "@ + channel_name + ": "@ + channel_id,
        OutcomeView::Rejected { raw_response } => "result: "@ + raw_response + "\n"@ + failed,
        OutcomeView::RequestFailed { error } => failed + "\n"@ + error,
    }
}

/// The report printed for one row once its invite has an outcome.
pub fn report_line(user_id: &str, row_channel_id: &str, outcome: &InviteOutcome) -> (r: String)
    ensures
        r@ == report_text(user_id@, row_channel_id@, outcome@),
{
    let mut failed = String::from_str("Failed to invite ");
    failed.append(user_id);
    failed.append(" to ");
    failed.append(row_channel_id);
    match outcome {
        InviteOutcome::Invited { channel_id, channel_name } => {
            let mut r = String::from_str("Invited ");
            r.append(user_id);
            r.append(" to ");
            r.append(channel_name.as_str());
            r.append(": ");
            r.append(channel_id.as_str());
            r
        },
        InviteOutcome::Rejected { raw_response } => {
            let mut r = String::from_str("result: ");
            r.append(raw_response.as_str());
            r.append("\n");
            r.append(failed.as_str());
            r
        },
        InviteOutcome::RequestFailed { error } => {
            let mut r = failed;
            r.append("\n");
            r.append(error.as_str());
            r
        },
    }
}

} // verus!
