//! The typed wire shapes of the gateway's records: how each record renders
//! to a token stream, and verified parsers from token streams back to records.
//!
//! Every parser's contract is functional: it returns exactly what the
//! corresponding spec parser says, so success and failure are pinned down.

use vstd::prelude::*;
use vstd::string::StringExecFns;
use crate::json::{
    JsonToken, JsonTokenView, JsonError, toks_view, get_i32, get_i64, get_opt_str, get_str,
    is_colon, is_comma, is_key, is_lbrace, is_lbracket, is_null, is_rbrace, is_rbracket,
    lemma_tokenize_render, render_tokens, spec_render_tokens, spec_tokenize, tok_ok, tokenize,
    toks_ok,
};
use crate::strutil::{chars_to_string, string_to_chars};
use crate::models::{
    BalanceApiResponse, BalanceApiResponseView, BalanceMetaInfo, BalanceMetaInfoView, DateTime,
    DateTimeView, Items, ItemsView, MessageBagView, MessageHistoryApiResponse,
    MessageHistoryApiResponseView, MessageHistoryMetaInfo, MessageHistoryMetaInfoView, MessageSent,
    MessageSentView, MessageRequest, MessagingApiResponse, MessagingApiResponseView,
    MessagingMetaInfo, MessagingMetaInfoView, StatusInfo, StatusInfoView,
};

verus! {

/// The token rendering of a status block.
pub open spec fn spec_status_tokens(s: StatusInfoView) -> Seq<JsonTokenView> {
    seq![
        JsonTokenView::LBrace,
        JsonTokenView::Str("code"@),
        JsonTokenView::Colon,
        JsonTokenView::Str(s.code),
        JsonTokenView::Comma,
        JsonTokenView::Str("type"@),
        JsonTokenView::Colon,
        JsonTokenView::Str(s.type_),
        JsonTokenView::Comma,
        JsonTokenView::Str("description"@),
        JsonTokenView::Colon,
        JsonTokenView::Str(s.description),
        JsonTokenView::RBrace,
    ]
}

/// Parses a status block at token position `p`.
pub open spec fn spec_parse_status(ts: Seq<JsonTokenView>, p: int) -> Option<(StatusInfoView, int)> {
    if 0 <= p && p + 13 <= ts.len() && ts[p] == JsonTokenView::LBrace && ts[p + 1]
        == JsonTokenView::Str("code"@) && ts[p + 2] == JsonTokenView::Colon && ts[p + 3] is Str
        && ts[p + 4] == JsonTokenView::Comma && ts[p + 5] == JsonTokenView::Str("type"@) && ts[p
        + 6] == JsonTokenView::Colon && ts[p + 7] is Str && ts[p + 8] == JsonTokenView::Comma
        && ts[p + 9] == JsonTokenView::Str("description"@) && ts[p + 10] == JsonTokenView::Colon
        && ts[p + 11] is Str && ts[p + 12] == JsonTokenView::RBrace {
        Option::Some(
            (
                StatusInfoView {
                    code: ts[p + 3]->Str_0,
                    type_: ts[p + 7]->Str_0,
                    description: ts[p + 11]->Str_0,
                },
                p + 13,
            ),
        )
    } else {
        Option::None
    }
}

/// Parses a status block; `Err` exactly when [`spec_parse_status`] rejects.
pub fn parse_status(ts: &Vec<JsonToken>, p: usize) -> (r: Result<(StatusInfo, usize), JsonError>)
    requires
        p <= ts@.len(),
    ensures
        match r {
            Ok(q) => p < q.1 <= ts@.len() && spec_parse_status(toks_view(ts@), p as int)
                == Option::Some((q.0@, q.1 as int)),
            Err(e) => spec_parse_status(toks_view(ts@), p as int) is None && e == JsonError::Shape,
        },
{
    let ghost tv = toks_view(ts@);
    proof {
        assert(forall|j: int| 0 <= j < ts@.len() ==> tv[j] == ts@[j]@);
    }
    if ts.len() - p < 13 {
        return Err(JsonError::Shape);
    }
    if !is_lbrace(&ts[p]) {
        return Err(JsonError::Shape);
    }
    if !is_key(&ts[p + 1], "code") {
        return Err(JsonError::Shape);
    }
    if !is_colon(&ts[p + 2]) {
        return Err(JsonError::Shape);
    }
    let code = match get_str(&ts[p + 3]) {
        Option::Some(s) => s,
        Option::None => {
            return Err(JsonError::Shape);
        },
    };
    if !is_comma(&ts[p + 4]) {
        return Err(JsonError::Shape);
    }
    if !is_key(&ts[p + 5], "type") {
        return Err(JsonError::Shape);
    }
    if !is_colon(&ts[p + 6]) {
        return Err(JsonError::Shape);
    }
    let type_ = match get_str(&ts[p + 7]) {
        Option::Some(s) => s,
        Option::None => {
            return Err(JsonError::Shape);
        },
    };
    if !is_comma(&ts[p + 8]) {
        return Err(JsonError::Shape);
    }
    if !is_key(&ts[p + 9], "description") {
        return Err(JsonError::Shape);
    }
    if !is_colon(&ts[p + 10]) {
        return Err(JsonError::Shape);
    }
    let description = match get_str(&ts[p + 11]) {
        Option::Some(s) => s,
        Option::None => {
            return Err(JsonError::Shape);
        },
    };
    if !is_rbrace(&ts[p + 12]) {
        return Err(JsonError::Shape);
    }
    Ok((StatusInfo { code, type_, description }, p + 13))
}

/// The token rendering of a date-time block.
pub open spec fn spec_date_time_tokens(d: DateTimeView) -> Seq<JsonTokenView> {
    seq![
        JsonTokenView::LBrace,
        JsonTokenView::Str("date"@),
        JsonTokenView::Colon,
        JsonTokenView::Str(d.date),
        JsonTokenView::Comma,
        JsonTokenView::Str("timezone_type"@),
        JsonTokenView::Colon,
        JsonTokenView::Int(d.timezone_type),
        JsonTokenView::Comma,
        JsonTokenView::Str("timezone"@),
        JsonTokenView::Colon,
        JsonTokenView::Str(d.timezone),
        JsonTokenView::RBrace,
    ]
}

/// Parses a date-time block at token position `p`.
pub open spec fn spec_parse_date_time(ts: Seq<JsonTokenView>, p: int) -> Option<(DateTimeView, int)> {
    if 0 <= p && p + 13 <= ts.len() && ts[p] == JsonTokenView::LBrace && ts[p + 1]
        == JsonTokenView::Str("date"@) && ts[p + 2] == JsonTokenView::Colon && ts[p + 3] is Str
        && ts[p + 4] == JsonTokenView::Comma && ts[p + 5] == JsonTokenView::Str("timezone_type"@)
        && ts[p + 6] == JsonTokenView::Colon && ts[p + 7] is Int && i32::MIN <= ts[p + 7]->Int_0
        <= i32::MAX && ts[p + 8] == JsonTokenView::Comma && ts[p + 9] == JsonTokenView::Str(
        "timezone"@,
    ) && ts[p + 10] == JsonTokenView::Colon && ts[p + 11] is Str && ts[p + 12]
        == JsonTokenView::RBrace {
        Option::Some(
            (
                DateTimeView {
                    date: ts[p + 3]->Str_0,
                    timezone_type: ts[p + 7]->Int_0,
                    timezone: ts[p + 11]->Str_0,
                },
                p + 13,
            ),
        )
    } else {
        Option::None
    }
}

/// Parses a date-time block; `Err` exactly when [`spec_parse_date_time`]
/// rejects.
pub fn parse_date_time(ts: &Vec<JsonToken>, p: usize) -> (r: Result<(DateTime, usize), JsonError>)
    requires
        p <= ts@.len(),
    ensures
        match r {
            Ok(q) => p < q.1 <= ts@.len() && spec_parse_date_time(toks_view(ts@), p as int)
                == Option::Some((q.0@, q.1 as int)),
            Err(e) => spec_parse_date_time(toks_view(ts@), p as int) is None && e
                == JsonError::Shape,
        },
{
    let ghost tv = toks_view(ts@);
    proof {
        assert(forall|j: int| 0 <= j < ts@.len() ==> tv[j] == ts@[j]@);
    }
    if ts.len() - p < 13 {
        return Err(JsonError::Shape);
    }
    if !is_lbrace(&ts[p]) {
        return Err(JsonError::Shape);
    }
    if !is_key(&ts[p + 1], "date") {
        return Err(JsonError::Shape);
    }
    if !is_colon(&ts[p + 2]) {
        return Err(JsonError::Shape);
    }
    let date = match get_str(&ts[p + 3]) {
        Option::Some(s) => s,
        Option::None => {
            return Err(JsonError::Shape);
        },
    };
    if !is_comma(&ts[p + 4]) {
        return Err(JsonError::Shape);
    }
    if !is_key(&ts[p + 5], "timezone_type") {
        return Err(JsonError::Shape);
    }
    if !is_colon(&ts[p + 6]) {
        return Err(JsonError::Shape);
    }
    let timezone_type = match get_i32(&ts[p + 7]) {
        Option::Some(v) => v,
        Option::None => {
            return Err(JsonError::Shape);
        },
    };
    if !is_comma(&ts[p + 8]) {
        return Err(JsonError::Shape);
    }
    if !is_key(&ts[p + 9], "timezone") {
        return Err(JsonError::Shape);
    }
    if !is_colon(&ts[p + 10]) {
        return Err(JsonError::Shape);
    }
    let timezone = match get_str(&ts[p + 11]) {
        Option::Some(s) => s,
        Option::None => {
            return Err(JsonError::Shape);
        },
    };
    if !is_rbrace(&ts[p + 12]) {
        return Err(JsonError::Shape);
    }
    Ok((DateTime { date, timezone_type, timezone }, p + 13))
}

/// Parses messaging metadata at token position `p`.
pub open spec fn spec_parse_messaging_meta(ts: Seq<JsonTokenView>, p: int) -> Option<
    (MessagingMetaInfoView, int),
> {
    if 0 <= p && p + 19 <= ts.len() && ts[p] == JsonTokenView::LBrace && ts[p + 1]
        == JsonTokenView::Str("recipients"@) && ts[p + 2] == JsonTokenView::Colon && ts[p + 3] is Int
        && i32::MIN <= ts[p + 3]->Int_0 <= i32::MAX && ts[p + 4] == JsonTokenView::Comma && ts[p
        + 5] == JsonTokenView::Str("credits_deducted"@) && ts[p + 6] == JsonTokenView::Colon && ts[p
        + 7] is Int && i32::MIN <= ts[p + 7]->Int_0 <= i32::MAX && ts[p + 8]
        == JsonTokenView::Comma && ts[p + 9] == JsonTokenView::Str("available_credits"@) && ts[p
        + 10] == JsonTokenView::Colon && ts[p + 11] is Str && ts[p + 12] == JsonTokenView::Comma
        && ts[p + 13] == JsonTokenView::Str("user_email"@) && ts[p + 14] == JsonTokenView::Colon
        && ts[p + 15] is Str && ts[p + 16] == JsonTokenView::Comma && ts[p + 17]
        == JsonTokenView::Str("date_time"@) && ts[p + 18] == JsonTokenView::Colon {
        match spec_parse_date_time(ts, p + 19) {
            Option::Some(dq) => if dq.1 < ts.len() && ts[dq.1] == JsonTokenView::RBrace {
                Option::Some(
                    (
                        MessagingMetaInfoView {
                            recipients: ts[p + 3]->Int_0,
                            credits_deducted: ts[p + 7]->Int_0,
                            available_credits: ts[p + 11]->Str_0,
                            user_email: ts[p + 15]->Str_0,
                            date_time: dq.0,
                        },
                        dq.1 + 1,
                    ),
                )
            } else {
                Option::None
            },
            Option::None => Option::None,
        }
    } else {
        Option::None
    }
}

/// Parses messaging metadata; `Err` exactly when
/// [`spec_parse_messaging_meta`] rejects.
pub fn parse_messaging_meta(ts: &Vec<JsonToken>, p: usize) -> (r: Result<
    (MessagingMetaInfo, usize),
    JsonError,
>)
    requires
        p <= ts@.len(),
    ensures
        match r {
            Ok(q) => p < q.1 <= ts@.len() && spec_parse_messaging_meta(toks_view(ts@), p as int)
                == Option::Some((q.0@, q.1 as int)),
            Err(e) => spec_parse_messaging_meta(toks_view(ts@), p as int) is None && e
                == JsonError::Shape,
        },
{
    let ghost tv = toks_view(ts@);
    proof {
        assert(forall|j: int| 0 <= j < ts@.len() ==> tv[j] == ts@[j]@);
    }
    if ts.len() - p < 19 {
        return Err(JsonError::Shape);
    }
    if !is_lbrace(&ts[p]) {
        return Err(JsonError::Shape);
    }
    if !is_key(&ts[p + 1], "recipients") {
        return Err(JsonError::Shape);
    }
    if !is_colon(&ts[p + 2]) {
        return Err(JsonError::Shape);
    }
    let recipients = match get_i32(&ts[p + 3]) {
        Option::Some(v) => v,
        Option::None => {
            return Err(JsonError::Shape);
        },
    };
    if !is_comma(&ts[p + 4]) {
        return Err(JsonError::Shape);
    }
    if !is_key(&ts[p + 5], "credits_deducted") {
        return Err(JsonError::Shape);
    }
    if !is_colon(&ts[p + 6]) {
        return Err(JsonError::Shape);
    }
    let credits_deducted = match get_i32(&ts[p + 7]) {
        Option::Some(v) => v,
        Option::None => {
            return Err(JsonError::Shape);
        },
    };
    if !is_comma(&ts[p + 8]) {
        return Err(JsonError::Shape);
    }
    if !is_key(&ts[p + 9], "available_credits") {
        return Err(JsonError::Shape);
    }
    if !is_colon(&ts[p + 10]) {
        return Err(JsonError::Shape);
    }
    let available_credits = match get_str(&ts[p + 11]) {
        Option::Some(s) => s,
        Option::None => {
            return Err(JsonError::Shape);
        },
    };
    if !is_comma(&ts[p + 12]) {
        return Err(JsonError::Shape);
    }
    if !is_key(&ts[p + 13], "user_email") {
        return Err(JsonError::Shape);
    }
    if !is_colon(&ts[p + 14]) {
        return Err(JsonError::Shape);
    }
    let user_email = match get_str(&ts[p + 15]) {
        Option::Some(s) => s,
        Option::None => {
            return Err(JsonError::Shape);
        },
    };
    if !is_comma(&ts[p + 16]) {
        return Err(JsonError::Shape);
    }
    if !is_key(&ts[p + 17], "date_time") {
        return Err(JsonError::Shape);
    }
    if !is_colon(&ts[p + 18]) {
        return Err(JsonError::Shape);
    }
    let (date_time, q) = match parse_date_time(ts, p + 19) {
        Ok(dq) => dq,
        Err(e) => {
            return Err(e);
        },
    };
    if q >= ts.len() || !is_rbrace(&ts[q]) {
        return Err(JsonError::Shape);
    }
    Ok(
        (
            MessagingMetaInfo { recipients, credits_deducted, available_credits, user_email, date_time },
            q + 1,
        ),
    )
}

/// Parses balance metadata at token position `p`. The gateway also sends an
/// extra `user_email` field before `date_time`; the record has no place for
/// it, so it may be present and is discarded.
pub open spec fn spec_parse_balance_meta(ts: Seq<JsonTokenView>, p: int) -> Option<
    (BalanceMetaInfoView, int),
> {
    if 0 <= p && p + 13 <= ts.len() && ts[p] == JsonTokenView::LBrace && ts[p + 1]
        == JsonTokenView::Str("user"@) && ts[p + 2] == JsonTokenView::Colon && ts[p + 3] is Str
        && ts[p + 4] == JsonTokenView::Comma && ts[p + 5] == JsonTokenView::Str("credits"@) && ts[p
        + 6] == JsonTokenView::Colon && ts[p + 7] is Int && i32::MIN <= ts[p + 7]->Int_0
        <= i32::MAX && ts[p + 8] == JsonTokenView::Comma && ts[p + 9] == JsonTokenView::Str("rate"@)
        && ts[p + 10] == JsonTokenView::Colon && ts[p + 11] is Int && i32::MIN <= ts[p + 11]->Int_0
        <= i32::MAX && ts[p + 12] == JsonTokenView::Comma {
        let q0: int = if p + 17 <= ts.len() && ts[p + 13] == JsonTokenView::Str("user_email"@)
            && ts[p + 14] == JsonTokenView::Colon && ts[p + 15] is Str && ts[p + 16]
            == JsonTokenView::Comma {
            p + 17
        } else {
            p + 13
        };
        if q0 + 2 <= ts.len() && ts[q0] == JsonTokenView::Str("date_time"@) && ts[q0 + 1]
            == JsonTokenView::Colon {
            match spec_parse_date_time(ts, q0 + 2) {
                Option::Some(dq) => if dq.1 < ts.len() && ts[dq.1] == JsonTokenView::RBrace {
                    Option::Some(
                        (
                            BalanceMetaInfoView {
                                user: ts[p + 3]->Str_0,
                                credits: ts[p + 7]->Int_0,
                                rate: ts[p + 11]->Int_0,
                                date_time: dq.0,
                            },
                            dq.1 + 1,
                        ),
                    )
                } else {
                    Option::None
                },
                Option::None => Option::None,
            }
        } else {
            Option::None
        }
    } else {
        Option::None
    }
}

/// Parses balance metadata; `Err` exactly when [`spec_parse_balance_meta`]
/// rejects.
pub fn parse_balance_meta(ts: &Vec<JsonToken>, p: usize) -> (r: Result<
    (BalanceMetaInfo, usize),
    JsonError,
>)
    requires
        p <= ts@.len(),
    ensures
        match r {
            Ok(q) => p < q.1 <= ts@.len() && spec_parse_balance_meta(toks_view(ts@), p as int)
                == Option::Some((q.0@, q.1 as int)),
            Err(e) => spec_parse_balance_meta(toks_view(ts@), p as int) is None && e
                == JsonError::Shape,
        },
{
    let ghost tv = toks_view(ts@);
    proof {
        assert(forall|j: int| 0 <= j < ts@.len() ==> tv[j] == ts@[j]@);
    }
    if ts.len() - p < 13 {
        return Err(JsonError::Shape);
    }
    if !is_lbrace(&ts[p]) {
        return Err(JsonError::Shape);
    }
    if !is_key(&ts[p + 1], "user") {
        return Err(JsonError::Shape);
    }
    if !is_colon(&ts[p + 2]) {
        return Err(JsonError::Shape);
    }
    let user = match get_str(&ts[p + 3]) {
        Option::Some(s) => s,
        Option::None => {
            return Err(JsonError::Shape);
        },
    };
    if !is_comma(&ts[p + 4]) {
        return Err(JsonError::Shape);
    }
    if !is_key(&ts[p + 5], "credits") {
        return Err(JsonError::Shape);
    }
    if !is_colon(&ts[p + 6]) {
        return Err(JsonError::Shape);
    }
    let credits = match get_i32(&ts[p + 7]) {
        Option::Some(v) => v,
        Option::None => {
            return Err(JsonError::Shape);
        },
    };
    if !is_comma(&ts[p + 8]) {
        return Err(JsonError::Shape);
    }
    if !is_key(&ts[p + 9], "rate") {
        return Err(JsonError::Shape);
    }
    if !is_colon(&ts[p + 10]) {
        return Err(JsonError::Shape);
    }
    let rate = match get_i32(&ts[p + 11]) {
        Option::Some(v) => v,
        Option::None => {
            return Err(JsonError::Shape);
        },
    };
    if !is_comma(&ts[p + 12]) {
        return Err(JsonError::Shape);
    }
    let q0: usize = if ts.len() - p >= 17 && is_key(&ts[p + 13], "user_email") && is_colon(
        &ts[p + 14],
    ) && matches!(&ts[p + 15], JsonToken::Str(_)) && is_comma(&ts[p + 16]) {
        p + 17
    } else {
        p + 13
    };
    if ts.len() - q0 < 2 {
        return Err(JsonError::Shape);
    }
    if !is_key(&ts[q0], "date_time") {
        return Err(JsonError::Shape);
    }
    if !is_colon(&ts[q0 + 1]) {
        return Err(JsonError::Shape);
    }
    let (date_time, q) = match parse_date_time(ts, q0 + 2) {
        Ok(dq) => dq,
        Err(e) => {
            return Err(e);
        },
    };
    if q >= ts.len() || !is_rbrace(&ts[q]) {
        return Err(JsonError::Shape);
    }
    Ok((BalanceMetaInfo { user, credits, rate, date_time }, q + 1))
}

/// The token rendering of history metadata.
pub open spec fn spec_history_meta_tokens(m: MessageHistoryMetaInfoView) -> Seq<JsonTokenView> {
    seq![
        JsonTokenView::LBrace,
        JsonTokenView::Str("user"@),
        JsonTokenView::Colon,
        JsonTokenView::Str(m.user),
        JsonTokenView::Comma,
        JsonTokenView::Str("date_time"@),
        JsonTokenView::Colon,
    ] + spec_date_time_tokens(m.date_time) + seq![JsonTokenView::RBrace]
}

/// Parses history metadata at token position `p`.
pub open spec fn spec_parse_history_meta(ts: Seq<JsonTokenView>, p: int) -> Option<
    (MessageHistoryMetaInfoView, int),
> {
    if 0 <= p && p + 7 <= ts.len() && ts[p] == JsonTokenView::LBrace && ts[p + 1]
        == JsonTokenView::Str("user"@) && ts[p + 2] == JsonTokenView::Colon && ts[p + 3] is Str
        && ts[p + 4] == JsonTokenView::Comma && ts[p + 5] == JsonTokenView::Str("date_time"@)
        && ts[p + 6] == JsonTokenView::Colon {
        match spec_parse_date_time(ts, p + 7) {
            Option::Some(dq) => if dq.1 < ts.len() && ts[dq.1] == JsonTokenView::RBrace {
                Option::Some(
                    (
                        MessageHistoryMetaInfoView { user: ts[p + 3]->Str_0, date_time: dq.0 },
                        dq.1 + 1,
                    ),
                )
            } else {
                Option::None
            },
            Option::None => Option::None,
        }
    } else {
        Option::None
    }
}

/// Parses history metadata; `Err` exactly when [`spec_parse_history_meta`]
/// rejects.
pub fn parse_history_meta(ts: &Vec<JsonToken>, p: usize) -> (r: Result<
    (MessageHistoryMetaInfo, usize),
    JsonError,
>)
    requires
        p <= ts@.len(),
    ensures
        match r {
            Ok(q) => p < q.1 <= ts@.len() && spec_parse_history_meta(toks_view(ts@), p as int)
                == Option::Some((q.0@, q.1 as int)),
            Err(e) => spec_parse_history_meta(toks_view(ts@), p as int) is None && e
                == JsonError::Shape,
        },
{
    let ghost tv = toks_view(ts@);
    proof {
        assert(forall|j: int| 0 <= j < ts@.len() ==> tv[j] == ts@[j]@);
    }
    if ts.len() - p < 7 {
        return Err(JsonError::Shape);
    }
    if !is_lbrace(&ts[p]) {
        return Err(JsonError::Shape);
    }
    if !is_key(&ts[p + 1], "user") {
        return Err(JsonError::Shape);
    }
    if !is_colon(&ts[p + 2]) {
        return Err(JsonError::Shape);
    }
    let user = match get_str(&ts[p + 3]) {
        Option::Some(s) => s,
        Option::None => {
            return Err(JsonError::Shape);
        },
    };
    if !is_comma(&ts[p + 4]) {
        return Err(JsonError::Shape);
    }
    if !is_key(&ts[p + 5], "date_time") {
        return Err(JsonError::Shape);
    }
    if !is_colon(&ts[p + 6]) {
        return Err(JsonError::Shape);
    }
    let (date_time, q) = match parse_date_time(ts, p + 7) {
        Ok(dq) => dq,
        Err(e) => {
            return Err(e);
        },
    };
    if q >= ts.len() || !is_rbrace(&ts[q]) {
        return Err(JsonError::Shape);
    }
    Ok((MessageHistoryMetaInfo { user, date_time }, q + 1))
}

/// The token rendering of one history record.
pub open spec fn spec_msg_tokens(m: MessageSentView) -> Seq<JsonTokenView> {
    seq![
        JsonTokenView::LBrace,
        JsonTokenView::Str("id"@),
        JsonTokenView::Colon,
        JsonTokenView::Int(m.id),
        JsonTokenView::Comma,
        JsonTokenView::Str("request_id"@),
        JsonTokenView::Colon,
        JsonTokenView::Int(m.request_id),
        JsonTokenView::Comma,
        JsonTokenView::Str("number"@),
        JsonTokenView::Colon,
        JsonTokenView::Str(m.number),
        JsonTokenView::Comma,
        JsonTokenView::Str("message"@),
        JsonTokenView::Colon,
        JsonTokenView::Str(m.message),
        JsonTokenView::Comma,
        JsonTokenView::Str("user_id"@),
        JsonTokenView::Colon,
        JsonTokenView::Int(m.user_id),
        JsonTokenView::Comma,
        JsonTokenView::Str("sender_id"@),
        JsonTokenView::Colon,
        JsonTokenView::Str(m.sender_id),
        JsonTokenView::Comma,
        JsonTokenView::Str("transaction_id"@),
        JsonTokenView::Colon,
        JsonTokenView::Str(m.transaction_id),
        JsonTokenView::Comma,
        JsonTokenView::Str("message_count"@),
        JsonTokenView::Colon,
        JsonTokenView::Int(m.message_count),
        JsonTokenView::Comma,
        JsonTokenView::Str("status"@),
        JsonTokenView::Colon,
        JsonTokenView::Str(m.status),
        JsonTokenView::Comma,
        JsonTokenView::Str("flag"@),
        JsonTokenView::Colon,
        JsonTokenView::Str(m.flag),
        JsonTokenView::Comma,
        JsonTokenView::Str("created_at"@),
        JsonTokenView::Colon,
        JsonTokenView::Str(m.created_at),
        JsonTokenView::Comma,
        JsonTokenView::Str("updated_at"@),
        JsonTokenView::Colon,
        JsonTokenView::Str(m.updated_at),
        JsonTokenView::Comma,
        JsonTokenView::Str("scheduled_date"@),
        JsonTokenView::Colon,
        JsonTokenView::Str(m.scheduled_date),
        JsonTokenView::RBrace,
    ]
}

/// Parses one history record at token position `p`.
pub open spec fn spec_parse_msg(ts: Seq<JsonTokenView>, p: int) -> Option<(MessageSentView, int)> {
    if 0 <= p && p + 53 <= ts.len() && ts[p] == JsonTokenView::LBrace && ts[p + 1]
        == JsonTokenView::Str("id"@) && ts[p + 2] == JsonTokenView::Colon && ts[p + 3] is Int
        && i64::MIN <= ts[p + 3]->Int_0 <= i64::MAX && ts[p + 4] == JsonTokenView::Comma && ts[p
        + 5] == JsonTokenView::Str("request_id"@) && ts[p + 6] == JsonTokenView::Colon && ts[p
        + 7] is Int && i64::MIN <= ts[p + 7]->Int_0 <= i64::MAX && ts[p + 8]
        == JsonTokenView::Comma && ts[p + 9] == JsonTokenView::Str("number"@) && ts[p + 10]
        == JsonTokenView::Colon && ts[p + 11] is Str && ts[p + 12] == JsonTokenView::Comma && ts[p
        + 13] == JsonTokenView::Str("message"@) && ts[p + 14] == JsonTokenView::Colon && ts[p
        + 15] is Str && ts[p + 16] == JsonTokenView::Comma && ts[p + 17] == JsonTokenView::Str(
        "user_id"@,
    ) && ts[p + 18] == JsonTokenView::Colon && ts[p + 19] is Int && i32::MIN <= ts[p + 19]->Int_0
        <= i32::MAX && ts[p + 20] == JsonTokenView::Comma && ts[p + 21] == JsonTokenView::Str(
        "sender_id"@,
    ) && ts[p + 22] == JsonTokenView::Colon && ts[p + 23] is Str && ts[p + 24]
        == JsonTokenView::Comma && ts[p + 25] == JsonTokenView::Str("transaction_id"@) && ts[p + 26]
        == JsonTokenView::Colon && ts[p + 27] is Str && ts[p + 28] == JsonTokenView::Comma && ts[p
        + 29] == JsonTokenView::Str("message_count"@) && ts[p + 30] == JsonTokenView::Colon && ts[p
        + 31] is Int && i32::MIN <= ts[p + 31]->Int_0 <= i32::MAX && ts[p + 32]
        == JsonTokenView::Comma && ts[p + 33] == JsonTokenView::Str("status"@) && ts[p + 34]
        == JsonTokenView::Colon && ts[p + 35] is Str && ts[p + 36] == JsonTokenView::Comma && ts[p
        + 37] == JsonTokenView::Str("flag"@) && ts[p + 38] == JsonTokenView::Colon && ts[p
        + 39] is Str && ts[p + 40] == JsonTokenView::Comma && ts[p + 41] == JsonTokenView::Str(
        "created_at"@,
    ) && ts[p + 42] == JsonTokenView::Colon && ts[p + 43] is Str && ts[p + 44]
        == JsonTokenView::Comma && ts[p + 45] == JsonTokenView::Str("updated_at"@) && ts[p + 46]
        == JsonTokenView::Colon && ts[p + 47] is Str && ts[p + 48] == JsonTokenView::Comma && ts[p
        + 49] == JsonTokenView::Str("scheduled_date"@) && ts[p + 50] == JsonTokenView::Colon
        && ts[p + 51] is Str && ts[p + 52] == JsonTokenView::RBrace {
        Option::Some(
            (
                MessageSentView {
                    id: ts[p + 3]->Int_0,
                    request_id: ts[p + 7]->Int_0,
                    number: ts[p + 11]->Str_0,
                    message: ts[p + 15]->Str_0,
                    user_id: ts[p + 19]->Int_0,
                    sender_id: ts[p + 23]->Str_0,
                    transaction_id: ts[p + 27]->Str_0,
                    message_count: ts[p + 31]->Int_0,
                    status: ts[p + 35]->Str_0,
                    flag: ts[p + 39]->Str_0,
                    created_at: ts[p + 43]->Str_0,
                    updated_at: ts[p + 47]->Str_0,
                    scheduled_date: ts[p + 51]->Str_0,
                },
                p + 53,
            ),
        )
    } else {
        Option::None
    }
}

/// Parses one history record; `Err` exactly when [`spec_parse_msg`] rejects.
pub fn parse_msg(ts: &Vec<JsonToken>, p: usize) -> (r: Result<(MessageSent, usize), JsonError>)
    requires
        p <= ts@.len(),
    ensures
        match r {
            Ok(q) => p < q.1 <= ts@.len() && q.1 == p + 53 && spec_parse_msg(
                toks_view(ts@),
                p as int,
            ) == Option::Some((q.0@, q.1 as int)),
            Err(e) => spec_parse_msg(toks_view(ts@), p as int) is None && e == JsonError::Shape,
        },
{
    let ghost tv = toks_view(ts@);
    proof {
        assert(forall|j: int| 0 <= j < ts@.len() ==> tv[j] == ts@[j]@);
    }
    if ts.len() - p < 53 {
        return Err(JsonError::Shape);
    }
    if !is_lbrace(&ts[p]) {
        return Err(JsonError::Shape);
    }
    if !is_key(&ts[p + 1], "id") || !is_colon(&ts[p + 2]) {
        return Err(JsonError::Shape);
    }
    let id = match get_i64(&ts[p + 3]) {
        Option::Some(v) => v,
        Option::None => {
            return Err(JsonError::Shape);
        },
    };
    if !is_comma(&ts[p + 4]) || !is_key(&ts[p + 5], "request_id") || !is_colon(&ts[p + 6]) {
        return Err(JsonError::Shape);
    }
    let request_id = match get_i64(&ts[p + 7]) {
        Option::Some(v) => v,
        Option::None => {
            return Err(JsonError::Shape);
        },
    };
    if !is_comma(&ts[p + 8]) || !is_key(&ts[p + 9], "number") || !is_colon(&ts[p + 10]) {
        return Err(JsonError::Shape);
    }
    let number = match get_str(&ts[p + 11]) {
        Option::Some(s) => s,
        Option::None => {
            return Err(JsonError::Shape);
        },
    };
    if !is_comma(&ts[p + 12]) || !is_key(&ts[p + 13], "message") || !is_colon(&ts[p + 14]) {
        return Err(JsonError::Shape);
    }
    let message = match get_str(&ts[p + 15]) {
        Option::Some(s) => s,
        Option::None => {
            return Err(JsonError::Shape);
        },
    };
    if !is_comma(&ts[p + 16]) || !is_key(&ts[p + 17], "user_id") || !is_colon(&ts[p + 18]) {
        return Err(JsonError::Shape);
    }
    let user_id = match get_i32(&ts[p + 19]) {
        Option::Some(v) => v,
        Option::None => {
            return Err(JsonError::Shape);
        },
    };
    if !is_comma(&ts[p + 20]) || !is_key(&ts[p + 21], "sender_id") || !is_colon(&ts[p + 22]) {
        return Err(JsonError::Shape);
    }
    let sender_id = match get_str(&ts[p + 23]) {
        Option::Some(s) => s,
        Option::None => {
            return Err(JsonError::Shape);
        },
    };
    if !is_comma(&ts[p + 24]) || !is_key(&ts[p + 25], "transaction_id") || !is_colon(&ts[p + 26]) {
        return Err(JsonError::Shape);
    }
    let transaction_id = match get_str(&ts[p + 27]) {
        Option::Some(s) => s,
        Option::None => {
            return Err(JsonError::Shape);
        },
    };
    if !is_comma(&ts[p + 28]) || !is_key(&ts[p + 29], "message_count") || !is_colon(&ts[p + 30]) {
        return Err(JsonError::Shape);
    }
    let message_count = match get_i32(&ts[p + 31]) {
        Option::Some(v) => v,
        Option::None => {
            return Err(JsonError::Shape);
        },
    };
    if !is_comma(&ts[p + 32]) || !is_key(&ts[p + 33], "status") || !is_colon(&ts[p + 34]) {
        return Err(JsonError::Shape);
    }
    let status = match get_str(&ts[p + 35]) {
        Option::Some(s) => s,
        Option::None => {
            return Err(JsonError::Shape);
        },
    };
    if !is_comma(&ts[p + 36]) || !is_key(&ts[p + 37], "flag") || !is_colon(&ts[p + 38]) {
        return Err(JsonError::Shape);
    }
    let flag = match get_str(&ts[p + 39]) {
        Option::Some(s) => s,
        Option::None => {
            return Err(JsonError::Shape);
        },
    };
    if !is_comma(&ts[p + 40]) || !is_key(&ts[p + 41], "created_at") || !is_colon(&ts[p + 42]) {
        return Err(JsonError::Shape);
    }
    let created_at = match get_str(&ts[p + 43]) {
        Option::Some(s) => s,
        Option::None => {
            return Err(JsonError::Shape);
        },
    };
    if !is_comma(&ts[p + 44]) || !is_key(&ts[p + 45], "updated_at") || !is_colon(&ts[p + 46]) {
        return Err(JsonError::Shape);
    }
    let updated_at = match get_str(&ts[p + 47]) {
        Option::Some(s) => s,
        Option::None => {
            return Err(JsonError::Shape);
        },
    };
    if !is_comma(&ts[p + 48]) || !is_key(&ts[p + 49], "scheduled_date") || !is_colon(&ts[p + 50]) {
        return Err(JsonError::Shape);
    }
    let scheduled_date = match get_str(&ts[p + 51]) {
        Option::Some(s) => s,
        Option::None => {
            return Err(JsonError::Shape);
        },
    };
    if !is_rbrace(&ts[p + 52]) {
        return Err(JsonError::Shape);
    }
    Ok(
        (
            MessageSent {
                id,
                request_id,
                number,
                message,
                user_id,
                sender_id,
                transaction_id,
                message_count,
                status,
                flag,
                created_at,
                updated_at,
                scheduled_date,
            },
            p + 53,
        ),
    )
}

/// The token rendering of a non-empty record list: records separated by
/// commas, no surrounding brackets.
pub open spec fn spec_msg_list_tokens(l: Seq<MessageSentView>) -> Seq<JsonTokenView>
    decreases l.len(),
{
    if l.len() == 0 {
        Seq::empty()
    } else if l.len() == 1 {
        spec_msg_tokens(l[0])
    } else {
        spec_msg_tokens(l[0]) + seq![JsonTokenView::Comma] + spec_msg_list_tokens(l.skip(1))
    }
}

/// Parses one or more comma-separated records starting at `p`, stopping
/// before the closing bracket (which is not consumed).
pub open spec fn spec_parse_msg_list(ts: Seq<JsonTokenView>, p: int) -> Option<
    (Seq<MessageSentView>, int),
>
    decreases ts.len() - p,
    via spec_parse_msg_list_decreases
{
    match spec_parse_msg(ts, p) {
        Option::Some(mq) => if mq.1 < ts.len() && ts[mq.1] == JsonTokenView::Comma {
            match spec_parse_msg_list(ts, mq.1 + 1) {
                Option::Some(lq) => Option::Some((seq![mq.0] + lq.0, lq.1)),
                Option::None => Option::None,
            }
        } else {
            Option::Some((seq![mq.0], mq.1))
        },
        Option::None => Option::None,
    }
}

#[via_fn]
proof fn spec_parse_msg_list_decreases(ts: Seq<JsonTokenView>, p: int) {
    if spec_parse_msg(ts, p) is Some {
        assert(spec_parse_msg(ts, p)->Some_0.1 == p + 53);
    }
}

/// A successful list parse advances and stays inside the token stream.
proof fn lemma_parse_msg_list_bounds(ts: Seq<JsonTokenView>, p: int)
    ensures
        spec_parse_msg_list(ts, p) is Some ==> p < spec_parse_msg_list(ts, p)->Some_0.1
            <= ts.len(),
    decreases ts.len() - p,
{
    if spec_parse_msg_list(ts, p) is Some {
        let mq = spec_parse_msg(ts, p)->Some_0;
        if mq.1 < ts.len() && ts[mq.1] == JsonTokenView::Comma {
            lemma_parse_msg_list_bounds(ts, mq.1 + 1);
        }
    }
}

/// Parses a record list; `Err` exactly when [`spec_parse_msg_list`] rejects.
pub fn parse_msg_list(ts: &Vec<JsonToken>, p: usize) -> (r: Result<
    (Vec<MessageSent>, usize),
    JsonError,
>)
    requires
        p <= ts@.len(),
    ensures
        match r {
            Ok(q) => p < q.1 <= ts@.len() && spec_parse_msg_list(toks_view(ts@), p as int)
                == Option::Some((q.0.deep_view(), q.1 as int)),
            Err(e) => spec_parse_msg_list(toks_view(ts@), p as int) is None && e
                == JsonError::Shape,
        },
{
    let ghost tv = toks_view(ts@);
    let mut acc: Vec<MessageSent> = Vec::new();
    let mut cur: usize = p;
    proof {
        assert(acc.deep_view() =~= Seq::<MessageSentView>::empty());
        lemma_parse_msg_list_bounds(tv, p as int);
        if spec_parse_msg_list(tv, p as int) is Some {
            let lq = spec_parse_msg_list(tv, p as int)->Some_0;
            assert(acc.deep_view() + lq.0 =~= lq.0);
        }
    }
    loop
        invariant
            p <= cur <= ts@.len(),
            tv == toks_view(ts@),
            forall|l2: Seq<MessageSentView>, q2: int|
                spec_parse_msg_list(tv, cur as int) == Option::Some((l2, q2)) ==> (
                spec_parse_msg_list(tv, p as int) == Option::Some((acc.deep_view() + l2, q2)) && p
                    < q2 <= ts@.len()),
            spec_parse_msg_list(tv, cur as int) is None ==> spec_parse_msg_list(
                tv,
                p as int,
            ) is None,
        decreases ts@.len() - cur,
    {
        match parse_msg(ts, cur) {
            Ok((m, q)) => {
                let ghost prev = acc.deep_view();
                acc.push(m);
                proof {
                    assert(acc.deep_view() =~= prev.push(m@));
                }
                if q < ts.len() && is_comma(&ts[q]) {
                    proof {
                        assert forall|l2: Seq<MessageSentView>, q2: int|
                            spec_parse_msg_list(tv, q + 1) == Option::Some((l2, q2))
                                implies (spec_parse_msg_list(tv, p as int) == Option::Some(
                                (acc.deep_view() + l2, q2),
                            ) && p < q2 <= ts@.len()) by {
                            assert(spec_parse_msg_list(tv, cur as int) == Option::Some(
                                (seq![m@] + l2, q2),
                            ));
                            assert(prev + (seq![m@] + l2) =~= acc.deep_view() + l2);
                        }
                        if spec_parse_msg_list(tv, q + 1) is None {
                            assert(spec_parse_msg_list(tv, cur as int) is None);
                        }
                    }
                    cur = q + 1;
                } else {
                    proof {
                        assert(spec_parse_msg_list(tv, cur as int) == Option::Some(
                            (seq![m@], q as int),
                        ));
                        assert(prev + seq![m@] =~= acc.deep_view());
                    }
                    return Ok((acc, q));
                }
            },
            Err(e) => {
                proof {
                    assert(spec_parse_msg_list(tv, cur as int) is None);
                }
                return Err(e);
            },
        }
    }
}

/// The token rendering of the record array, brackets included.
pub open spec fn spec_msg_array_tokens(l: Seq<MessageSentView>) -> Seq<JsonTokenView> {
    seq![JsonTokenView::LBracket] + spec_msg_list_tokens(l) + seq![JsonTokenView::RBracket]
}

/// Parses the record array (brackets included) at token position `p`.
pub open spec fn spec_parse_msg_array(ts: Seq<JsonTokenView>, p: int) -> Option<
    (Seq<MessageSentView>, int),
> {
    if 0 <= p && p + 2 <= ts.len() && ts[p] == JsonTokenView::LBracket {
        if ts[p + 1] == JsonTokenView::RBracket {
            Option::Some((Seq::empty(), p + 2))
        } else {
            match spec_parse_msg_list(ts, p + 1) {
                Option::Some(lq) => if lq.1 < ts.len() && ts[lq.1] == JsonTokenView::RBracket {
                    Option::Some((lq.0, lq.1 + 1))
                } else {
                    Option::None
                },
                Option::None => Option::None,
            }
        }
    } else {
        Option::None
    }
}

/// Parses the record array; `Err` exactly when [`spec_parse_msg_array`]
/// rejects.
pub fn parse_msg_array(ts: &Vec<JsonToken>, p: usize) -> (r: Result<
    (Vec<MessageSent>, usize),
    JsonError,
>)
    requires
        p <= ts@.len(),
    ensures
        match r {
            Ok(q) => p < q.1 <= ts@.len() && spec_parse_msg_array(toks_view(ts@), p as int)
                == Option::Some((q.0.deep_view(), q.1 as int)),
            Err(e) => spec_parse_msg_array(toks_view(ts@), p as int) is None && e
                == JsonError::Shape,
        },
{
    let ghost tv = toks_view(ts@);
    proof {
        assert(forall|j: int| 0 <= j < ts@.len() ==> tv[j] == ts@[j]@);
    }
    if ts.len() - p < 2 {
        return Err(JsonError::Shape);
    }
    if !is_lbracket(&ts[p]) {
        return Err(JsonError::Shape);
    }
    if is_rbracket(&ts[p + 1]) {
        let empty_items: Vec<MessageSent> = Vec::new();
        proof {
            assert(empty_items.deep_view() =~= Seq::<MessageSentView>::empty());
        }
        return Ok((empty_items, p + 2));
    }
    let (l, q) = match parse_msg_list(ts, p + 1) {
        Ok(lq) => lq,
        Err(e) => {
            return Err(e);
        },
    };
    if q >= ts.len() || !is_rbracket(&ts[q]) {
        return Err(JsonError::Shape);
    }
    Ok((l, q + 1))
}

/// The token rendering of an optional string: `null` when absent.
pub open spec fn spec_opt_str_token(o: Option<Seq<char>>) -> JsonTokenView {
    match o {
        Option::Some(s) => JsonTokenView::Str(s),
        Option::None => JsonTokenView::Null,
    }
}

/// The token rendering of the pagination envelope.
pub open spec fn spec_items_tokens(it: ItemsView) -> Seq<JsonTokenView> {
    seq![
        JsonTokenView::LBrace,
        JsonTokenView::Str("total"@),
        JsonTokenView::Colon,
        JsonTokenView::Int(it.total),
        JsonTokenView::Comma,
        JsonTokenView::Str("per_page"@),
        JsonTokenView::Colon,
        JsonTokenView::Int(it.per_page),
        JsonTokenView::Comma,
        JsonTokenView::Str("current_page"@),
        JsonTokenView::Colon,
        JsonTokenView::Int(it.current_page),
        JsonTokenView::Comma,
        JsonTokenView::Str("last_page"@),
        JsonTokenView::Colon,
        JsonTokenView::Int(it.last_page),
        JsonTokenView::Comma,
        JsonTokenView::Str("next_page_url"@),
        JsonTokenView::Colon,
        spec_opt_str_token(it.next_page_url),
        JsonTokenView::Comma,
        JsonTokenView::Str("prev_page_url"@),
        JsonTokenView::Colon,
        spec_opt_str_token(it.prev_page_url),
        JsonTokenView::Comma,
        JsonTokenView::Str("from"@),
        JsonTokenView::Colon,
        JsonTokenView::Int(it.from),
        JsonTokenView::Comma,
        JsonTokenView::Str("to"@),
        JsonTokenView::Colon,
        JsonTokenView::Int(it.to),
        JsonTokenView::Comma,
        JsonTokenView::Str("data"@),
        JsonTokenView::Colon,
    ] + spec_msg_array_tokens(it.data) + seq![JsonTokenView::RBrace]
}

/// An optional string value at one token: `null` or a string.
pub open spec fn spec_opt_str_of(t: JsonTokenView) -> Option<Option<Seq<char>>> {
    if t == JsonTokenView::Null {
        Option::Some(Option::None)
    } else if t is Str {
        Option::Some(Option::Some(t->Str_0))
    } else {
        Option::None
    }
}

/// Parses the pagination envelope at token position `p`.
pub open spec fn spec_parse_items(ts: Seq<JsonTokenView>, p: int) -> Option<(ItemsView, int)> {
    if 0 <= p && p + 35 <= ts.len() && ts[p] == JsonTokenView::LBrace && ts[p + 1]
        == JsonTokenView::Str("total"@) && ts[p + 2] == JsonTokenView::Colon && ts[p + 3] is Int
        && i32::MIN <= ts[p + 3]->Int_0 <= i32::MAX && ts[p + 4] == JsonTokenView::Comma && ts[p
        + 5] == JsonTokenView::Str("per_page"@) && ts[p + 6] == JsonTokenView::Colon && ts[p
        + 7] is Int && i32::MIN <= ts[p + 7]->Int_0 <= i32::MAX && ts[p + 8]
        == JsonTokenView::Comma && ts[p + 9] == JsonTokenView::Str("current_page"@) && ts[p + 10]
        == JsonTokenView::Colon && ts[p + 11] is Int && i32::MIN <= ts[p + 11]->Int_0 <= i32::MAX
        && ts[p + 12] == JsonTokenView::Comma && ts[p + 13] == JsonTokenView::Str("last_page"@)
        && ts[p + 14] == JsonTokenView::Colon && ts[p + 15] is Int && i32::MIN <= ts[p + 15]->Int_0
        <= i32::MAX && ts[p + 16] == JsonTokenView::Comma && ts[p + 17] == JsonTokenView::Str(
        "next_page_url"@,
    ) && ts[p + 18] == JsonTokenView::Colon && spec_opt_str_of(ts[p + 19]) is Some && ts[p + 20]
        == JsonTokenView::Comma && ts[p + 21] == JsonTokenView::Str("prev_page_url"@) && ts[p + 22]
        == JsonTokenView::Colon && spec_opt_str_of(ts[p + 23]) is Some && ts[p + 24]
        == JsonTokenView::Comma && ts[p + 25] == JsonTokenView::Str("from"@) && ts[p + 26]
        == JsonTokenView::Colon && ts[p + 27] is Int && i32::MIN <= ts[p + 27]->Int_0 <= i32::MAX
        && ts[p + 28] == JsonTokenView::Comma && ts[p + 29] == JsonTokenView::Str("to"@) && ts[p
        + 30] == JsonTokenView::Colon && ts[p + 31] is Int && i32::MIN <= ts[p + 31]->Int_0
        <= i32::MAX && ts[p + 32] == JsonTokenView::Comma && ts[p + 33] == JsonTokenView::Str(
        "data"@,
    ) && ts[p + 34] == JsonTokenView::Colon {
        match spec_parse_msg_array(ts, p + 35) {
            Option::Some(aq) => if aq.1 < ts.len() && ts[aq.1] == JsonTokenView::RBrace {
                Option::Some(
                    (
                        ItemsView {
                            total: ts[p + 3]->Int_0,
                            per_page: ts[p + 7]->Int_0,
                            current_page: ts[p + 11]->Int_0,
                            last_page: ts[p + 15]->Int_0,
                            next_page_url: spec_opt_str_of(ts[p + 19])->Some_0,
                            prev_page_url: spec_opt_str_of(ts[p + 23])->Some_0,
                            from: ts[p + 27]->Int_0,
                            to: ts[p + 31]->Int_0,
                            data: aq.0,
                        },
                        aq.1 + 1,
                    ),
                )
            } else {
                Option::None
            },
            Option::None => Option::None,
        }
    } else {
        Option::None
    }
}

/// Parses the pagination envelope; `Err` exactly when [`spec_parse_items`]
/// rejects.
pub fn parse_items(ts: &Vec<JsonToken>, p: usize) -> (r: Result<(Items, usize), JsonError>)
    requires
        p <= ts@.len(),
    ensures
        match r {
            Ok(q) => p < q.1 <= ts@.len() && spec_parse_items(toks_view(ts@), p as int)
                == Option::Some((q.0@, q.1 as int)),
            Err(e) => spec_parse_items(toks_view(ts@), p as int) is None && e == JsonError::Shape,
        },
{
    let ghost tv = toks_view(ts@);
    proof {
        assert(forall|j: int| 0 <= j < ts@.len() ==> tv[j] == ts@[j]@);
    }
    if ts.len() - p < 35 {
        return Err(JsonError::Shape);
    }
    if !is_lbrace(&ts[p]) {
        return Err(JsonError::Shape);
    }
    if !is_key(&ts[p + 1], "total") || !is_colon(&ts[p + 2]) {
        return Err(JsonError::Shape);
    }
    let total = match get_i32(&ts[p + 3]) {
        Option::Some(v) => v,
        Option::None => {
            return Err(JsonError::Shape);
        },
    };
    if !is_comma(&ts[p + 4]) || !is_key(&ts[p + 5], "per_page") || !is_colon(&ts[p + 6]) {
        return Err(JsonError::Shape);
    }
    let per_page = match get_i32(&ts[p + 7]) {
        Option::Some(v) => v,
        Option::None => {
            return Err(JsonError::Shape);
        },
    };
    if !is_comma(&ts[p + 8]) || !is_key(&ts[p + 9], "current_page") || !is_colon(&ts[p + 10]) {
        return Err(JsonError::Shape);
    }
    let current_page = match get_i32(&ts[p + 11]) {
        Option::Some(v) => v,
        Option::None => {
            return Err(JsonError::Shape);
        },
    };
    if !is_comma(&ts[p + 12]) || !is_key(&ts[p + 13], "last_page") || !is_colon(&ts[p + 14]) {
        return Err(JsonError::Shape);
    }
    let last_page = match get_i32(&ts[p + 15]) {
        Option::Some(v) => v,
        Option::None => {
            return Err(JsonError::Shape);
        },
    };
    if !is_comma(&ts[p + 16]) || !is_key(&ts[p + 17], "next_page_url") || !is_colon(&ts[p + 18]) {
        return Err(JsonError::Shape);
    }
    let next_page_url = match get_opt_str(&ts[p + 19]) {
        Ok(o) => o,
        Err(e) => {
            return Err(e);
        },
    };
    if !is_comma(&ts[p + 20]) || !is_key(&ts[p + 21], "prev_page_url") || !is_colon(&ts[p + 22]) {
        return Err(JsonError::Shape);
    }
    let prev_page_url = match get_opt_str(&ts[p + 23]) {
        Ok(o) => o,
        Err(e) => {
            return Err(e);
        },
    };
    if !is_comma(&ts[p + 24]) || !is_key(&ts[p + 25], "from") || !is_colon(&ts[p + 26]) {
        return Err(JsonError::Shape);
    }
    let from = match get_i32(&ts[p + 27]) {
        Option::Some(v) => v,
        Option::None => {
            return Err(JsonError::Shape);
        },
    };
    if !is_comma(&ts[p + 28]) || !is_key(&ts[p + 29], "to") || !is_colon(&ts[p + 30]) {
        return Err(JsonError::Shape);
    }
    let to = match get_i32(&ts[p + 31]) {
        Option::Some(v) => v,
        Option::None => {
            return Err(JsonError::Shape);
        },
    };
    if !is_comma(&ts[p + 32]) || !is_key(&ts[p + 33], "data") || !is_colon(&ts[p + 34]) {
        return Err(JsonError::Shape);
    }
    let (data, q) = match parse_msg_array(ts, p + 35) {
        Ok(aq) => aq,
        Err(e) => {
            return Err(e);
        },
    };
    if q >= ts.len() || !is_rbrace(&ts[q]) {
        return Err(JsonError::Shape);
    }
    Ok(
        (
            Items {
                total,
                per_page,
                current_page,
                last_page,
                next_page_url,
                prev_page_url,
                from,
                to,
                data,
            },
            q + 1,
        ),
    )
}

/// Parses the optional messaging metadata value at token position `p`.
pub open spec fn spec_parse_opt_messaging_meta(ts: Seq<JsonTokenView>, p: int) -> Option<
    (Option<MessagingMetaInfoView>, int),
> {
    if 0 <= p < ts.len() && ts[p] == JsonTokenView::Null {
        Option::Some((Option::None, p + 1))
    } else {
        match spec_parse_messaging_meta(ts, p) {
            Option::Some(mq) => Option::Some((Option::Some(mq.0), mq.1)),
            Option::None => Option::None,
        }
    }
}

/// Parses the messaging response at token position `p`.
pub open spec fn spec_parse_messaging_response(ts: Seq<JsonTokenView>, p: int) -> Option<
    (MessagingApiResponseView, int),
> {
    if 0 <= p && p + 3 <= ts.len() && ts[p] == JsonTokenView::LBrace && ts[p + 1]
        == JsonTokenView::Str("status"@) && ts[p + 2] == JsonTokenView::Colon {
        match spec_parse_status(ts, p + 3) {
            Option::Some(sq) => if sq.1 + 3 <= ts.len() && ts[sq.1] == JsonTokenView::Comma
                && ts[sq.1 + 1] == JsonTokenView::Str("meta"@) && ts[sq.1 + 2]
                == JsonTokenView::Colon {
                match spec_parse_opt_messaging_meta(ts, sq.1 + 3) {
                    Option::Some(mq) => if mq.1 < ts.len() && ts[mq.1] == JsonTokenView::RBrace {
                        Option::Some(
                            (MessagingApiResponseView { status: sq.0, meta: mq.0 }, mq.1 + 1),
                        )
                    } else {
                        Option::None
                    },
                    Option::None => Option::None,
                }
            } else {
                Option::None
            },
            Option::None => Option::None,
        }
    } else {
        Option::None
    }
}

/// Parses the messaging response; `Err` exactly when
/// [`spec_parse_messaging_response`] rejects.
pub fn parse_messaging_response(ts: &Vec<JsonToken>, p: usize) -> (r: Result<
    (MessagingApiResponse, usize),
    JsonError,
>)
    requires
        p <= ts@.len(),
    ensures
        match r {
            Ok(q) => p < q.1 <= ts@.len() && spec_parse_messaging_response(toks_view(ts@), p as int)
                == Option::Some((q.0@, q.1 as int)),
            Err(e) => spec_parse_messaging_response(toks_view(ts@), p as int) is None && e
                == JsonError::Shape,
        },
{
    let ghost tv = toks_view(ts@);
    proof {
        assert(forall|j: int| 0 <= j < ts@.len() ==> tv[j] == ts@[j]@);
    }
    if ts.len() - p < 3 {
        return Err(JsonError::Shape);
    }
    if !is_lbrace(&ts[p]) || !is_key(&ts[p + 1], "status") || !is_colon(&ts[p + 2]) {
        return Err(JsonError::Shape);
    }
    let (status, q) = match parse_status(ts, p + 3) {
        Ok(sq) => sq,
        Err(e) => {
            return Err(e);
        },
    };
    if ts.len() - q < 3 {
        return Err(JsonError::Shape);
    }
    if !is_comma(&ts[q]) || !is_key(&ts[q + 1], "meta") || !is_colon(&ts[q + 2]) {
        return Err(JsonError::Shape);
    }
    let (meta, q2) = if q + 3 < ts.len() && is_null(&ts[q + 3]) {
        (Option::None, q + 4)
    } else {
        match parse_messaging_meta(ts, q + 3) {
            Ok(mq) => (Option::Some(mq.0), mq.1),
            Err(e) => {
                return Err(e);
            },
        }
    };
    if q2 >= ts.len() || !is_rbrace(&ts[q2]) {
        return Err(JsonError::Shape);
    }
    Ok((MessagingApiResponse { status, meta }, q2 + 1))
}

/// Parses the optional balance metadata value at token position `p`.
pub open spec fn spec_parse_opt_balance_meta(ts: Seq<JsonTokenView>, p: int) -> Option<
    (Option<BalanceMetaInfoView>, int),
> {
    if 0 <= p < ts.len() && ts[p] == JsonTokenView::Null {
        Option::Some((Option::None, p + 1))
    } else {
        match spec_parse_balance_meta(ts, p) {
            Option::Some(mq) => Option::Some((Option::Some(mq.0), mq.1)),
            Option::None => Option::None,
        }
    }
}

/// Parses the balance response at token position `p`.
pub open spec fn spec_parse_balance_response(ts: Seq<JsonTokenView>, p: int) -> Option<
    (BalanceApiResponseView, int),
> {
    if 0 <= p && p + 3 <= ts.len() && ts[p] == JsonTokenView::LBrace && ts[p + 1]
        == JsonTokenView::Str("status"@) && ts[p + 2] == JsonTokenView::Colon {
        match spec_parse_status(ts, p + 3) {
            Option::Some(sq) => if sq.1 + 3 <= ts.len() && ts[sq.1] == JsonTokenView::Comma
                && ts[sq.1 + 1] == JsonTokenView::Str("meta"@) && ts[sq.1 + 2]
                == JsonTokenView::Colon {
                match spec_parse_opt_balance_meta(ts, sq.1 + 3) {
                    Option::Some(mq) => if mq.1 < ts.len() && ts[mq.1] == JsonTokenView::RBrace {
                        Option::Some(
                            (BalanceApiResponseView { status: sq.0, meta: mq.0 }, mq.1 + 1),
                        )
                    } else {
                        Option::None
                    },
                    Option::None => Option::None,
                }
            } else {
                Option::None
            },
            Option::None => Option::None,
        }
    } else {
        Option::None
    }
}

/// Parses the balance response; `Err` exactly when
/// [`spec_parse_balance_response`] rejects.
pub fn parse_balance_response(ts: &Vec<JsonToken>, p: usize) -> (r: Result<
    (BalanceApiResponse, usize),
    JsonError,
>)
    requires
        p <= ts@.len(),
    ensures
        match r {
            Ok(q) => p < q.1 <= ts@.len() && spec_parse_balance_response(toks_view(ts@), p as int)
                == Option::Some((q.0@, q.1 as int)),
            Err(e) => spec_parse_balance_response(toks_view(ts@), p as int) is None && e
                == JsonError::Shape,
        },
{
    let ghost tv = toks_view(ts@);
    proof {
        assert(forall|j: int| 0 <= j < ts@.len() ==> tv[j] == ts@[j]@);
    }
    if ts.len() - p < 3 {
        return Err(JsonError::Shape);
    }
    if !is_lbrace(&ts[p]) || !is_key(&ts[p + 1], "status") || !is_colon(&ts[p + 2]) {
        return Err(JsonError::Shape);
    }
    let (status, q) = match parse_status(ts, p + 3) {
        Ok(sq) => sq,
        Err(e) => {
            return Err(e);
        },
    };
    if ts.len() - q < 3 {
        return Err(JsonError::Shape);
    }
    if !is_comma(&ts[q]) || !is_key(&ts[q + 1], "meta") || !is_colon(&ts[q + 2]) {
        return Err(JsonError::Shape);
    }
    let (meta, q2) = if q + 3 < ts.len() && is_null(&ts[q + 3]) {
        (Option::None, q + 4)
    } else {
        match parse_balance_meta(ts, q + 3) {
            Ok(mq) => (Option::Some(mq.0), mq.1),
            Err(e) => {
                return Err(e);
            },
        }
    };
    if q2 >= ts.len() || !is_rbrace(&ts[q2]) {
        return Err(JsonError::Shape);
    }
    Ok((BalanceApiResponse { status, meta }, q2 + 1))
}

/// The token rendering of the optional history metadata value.
pub open spec fn spec_opt_history_meta_tokens(m: Option<MessageHistoryMetaInfoView>) -> Seq<
    JsonTokenView,
> {
    match m {
        Option::Some(mm) => spec_history_meta_tokens(mm),
        Option::None => seq![JsonTokenView::Null],
    }
}

/// Parses the optional history metadata value at token position `p`.
pub open spec fn spec_parse_opt_history_meta(ts: Seq<JsonTokenView>, p: int) -> Option<
    (Option<MessageHistoryMetaInfoView>, int),
> {
    if 0 <= p < ts.len() && ts[p] == JsonTokenView::Null {
        Option::Some((Option::None, p + 1))
    } else {
        match spec_parse_history_meta(ts, p) {
            Option::Some(mq) => Option::Some((Option::Some(mq.0), mq.1)),
            Option::None => Option::None,
        }
    }
}

/// The token rendering of the history response.
pub open spec fn spec_history_response_tokens(r: MessageHistoryApiResponseView) -> Seq<
    JsonTokenView,
> {
    seq![
        JsonTokenView::LBrace,
        JsonTokenView::Str("status"@),
        JsonTokenView::Colon,
    ] + spec_status_tokens(r.status) + seq![
        JsonTokenView::Comma,
        JsonTokenView::Str("meta"@),
        JsonTokenView::Colon,
    ] + spec_opt_history_meta_tokens(r.meta) + seq![
        JsonTokenView::Comma,
        JsonTokenView::Str("items"@),
        JsonTokenView::Colon,
    ] + spec_items_tokens(r.items) + seq![JsonTokenView::RBrace]
}

/// Parses the history response at token position `p`.
pub open spec fn spec_parse_history_response(ts: Seq<JsonTokenView>, p: int) -> Option<
    (MessageHistoryApiResponseView, int),
> {
    if 0 <= p && p + 3 <= ts.len() && ts[p] == JsonTokenView::LBrace && ts[p + 1]
        == JsonTokenView::Str("status"@) && ts[p + 2] == JsonTokenView::Colon {
        match spec_parse_status(ts, p + 3) {
            Option::Some(sq) => if sq.1 + 3 <= ts.len() && ts[sq.1] == JsonTokenView::Comma
                && ts[sq.1 + 1] == JsonTokenView::Str("meta"@) && ts[sq.1 + 2]
                == JsonTokenView::Colon {
                match spec_parse_opt_history_meta(ts, sq.1 + 3) {
                    Option::Some(mq) => if mq.1 + 3 <= ts.len() && ts[mq.1]
                        == JsonTokenView::Comma && ts[mq.1 + 1] == JsonTokenView::Str("items"@)
                        && ts[mq.1 + 2] == JsonTokenView::Colon {
                        match spec_parse_items(ts, mq.1 + 3) {
                            Option::Some(iq) => if iq.1 < ts.len() && ts[iq.1]
                                == JsonTokenView::RBrace {
                                Option::Some(
                                    (
                                        MessageHistoryApiResponseView {
                                            status: sq.0,
                                            meta: mq.0,
                                            items: iq.0,
                                        },
                                        iq.1 + 1,
                                    ),
                                )
                            } else {
                                Option::None
                            },
                            Option::None => Option::None,
                        }
                    } else {
                        Option::None
                    },
                    Option::None => Option::None,
                }
            } else {
                Option::None
            },
            Option::None => Option::None,
        }
    } else {
        Option::None
    }
}

/// Parses the history response; `Err` exactly when
/// [`spec_parse_history_response`] rejects.
pub fn parse_history_response(ts: &Vec<JsonToken>, p: usize) -> (r: Result<
    (MessageHistoryApiResponse, usize),
    JsonError,
>)
    requires
        p <= ts@.len(),
    ensures
        match r {
            Ok(q) => p < q.1 <= ts@.len() && spec_parse_history_response(toks_view(ts@), p as int)
                == Option::Some((q.0@, q.1 as int)),
            Err(e) => spec_parse_history_response(toks_view(ts@), p as int) is None && e
                == JsonError::Shape,
        },
{
    let ghost tv = toks_view(ts@);
    proof {
        assert(forall|j: int| 0 <= j < ts@.len() ==> tv[j] == ts@[j]@);
    }
    if ts.len() - p < 3 {
        return Err(JsonError::Shape);
    }
    if !is_lbrace(&ts[p]) || !is_key(&ts[p + 1], "status") || !is_colon(&ts[p + 2]) {
        return Err(JsonError::Shape);
    }
    let (status, q) = match parse_status(ts, p + 3) {
        Ok(sq) => sq,
        Err(e) => {
            return Err(e);
        },
    };
    if ts.len() - q < 3 {
        return Err(JsonError::Shape);
    }
    if !is_comma(&ts[q]) || !is_key(&ts[q + 1], "meta") || !is_colon(&ts[q + 2]) {
        return Err(JsonError::Shape);
    }
    let (meta, q2) = if q + 3 < ts.len() && is_null(&ts[q + 3]) {
        (Option::None, q + 4)
    } else {
        match parse_history_meta(ts, q + 3) {
            Ok(mq) => (Option::Some(mq.0), mq.1),
            Err(e) => {
                return Err(e);
            },
        }
    };
    if ts.len() - q2 < 3 {
        return Err(JsonError::Shape);
    }
    if !is_comma(&ts[q2]) || !is_key(&ts[q2 + 1], "items") || !is_colon(&ts[q2 + 2]) {
        return Err(JsonError::Shape);
    }
    let (items, q3) = match parse_items(ts, q2 + 3) {
        Ok(iq) => iq,
        Err(e) => {
            return Err(e);
        },
    };
    if q3 >= ts.len() || !is_rbrace(&ts[q3]) {
        return Err(JsonError::Shape);
    }
    Ok((MessageHistoryApiResponse { status, meta, items }, q3 + 1))
}

/// Emits the token rendering of a status block.
fn emit_status(out: &mut Vec<JsonToken>, s: &StatusInfo)
    ensures
        toks_view(final(out)@) == toks_view(old(out)@) + spec_status_tokens(s@),
{
    out.push(JsonToken::LBrace);
    out.push(JsonToken::Str(String::from_str("code")));
    out.push(JsonToken::Colon);
    out.push(JsonToken::Str(s.code.clone()));
    out.push(JsonToken::Comma);
    out.push(JsonToken::Str(String::from_str("type")));
    out.push(JsonToken::Colon);
    out.push(JsonToken::Str(s.type_.clone()));
    out.push(JsonToken::Comma);
    out.push(JsonToken::Str(String::from_str("description")));
    out.push(JsonToken::Colon);
    out.push(JsonToken::Str(s.description.clone()));
    out.push(JsonToken::RBrace);
    proof {
        assert(toks_view(final(out)@) =~= toks_view(old(out)@) + spec_status_tokens(s@));
    }
}

/// Emits the token rendering of a date-time block.
fn emit_date_time(out: &mut Vec<JsonToken>, d: &DateTime)
    ensures
        toks_view(final(out)@) == toks_view(old(out)@) + spec_date_time_tokens(d@),
{
    out.push(JsonToken::LBrace);
    out.push(JsonToken::Str(String::from_str("date")));
    out.push(JsonToken::Colon);
    out.push(JsonToken::Str(d.date.clone()));
    out.push(JsonToken::Comma);
    out.push(JsonToken::Str(String::from_str("timezone_type")));
    out.push(JsonToken::Colon);
    out.push(JsonToken::Int(d.timezone_type as i64));
    out.push(JsonToken::Comma);
    out.push(JsonToken::Str(String::from_str("timezone")));
    out.push(JsonToken::Colon);
    out.push(JsonToken::Str(d.timezone.clone()));
    out.push(JsonToken::RBrace);
    proof {
        assert(toks_view(final(out)@) =~= toks_view(old(out)@) + spec_date_time_tokens(d@));
    }
}

/// Emits the token rendering of history metadata.
fn emit_history_meta(out: &mut Vec<JsonToken>, m: &MessageHistoryMetaInfo)
    ensures
        toks_view(final(out)@) == toks_view(old(out)@) + spec_history_meta_tokens(m@),
{
    let ghost base = toks_view(out@);
    out.push(JsonToken::LBrace);
    out.push(JsonToken::Str(String::from_str("user")));
    out.push(JsonToken::Colon);
    out.push(JsonToken::Str(m.user.clone()));
    out.push(JsonToken::Comma);
    out.push(JsonToken::Str(String::from_str("date_time")));
    out.push(JsonToken::Colon);
    let ghost mid = toks_view(out@);
    proof {
        assert(mid =~= base + seq![
            JsonTokenView::LBrace,
            JsonTokenView::Str("user"@),
            JsonTokenView::Colon,
            JsonTokenView::Str(m.user@),
            JsonTokenView::Comma,
            JsonTokenView::Str("date_time"@),
            JsonTokenView::Colon,
        ]);
    }
    emit_date_time(out, &m.date_time);
    let ghost mid2 = toks_view(out@);
    proof {
        assert(mid2 =~= mid + spec_date_time_tokens(m.date_time@));
    }
    out.push(JsonToken::RBrace);
    proof {
        assert(toks_view(out@) =~= mid2.push(JsonTokenView::RBrace));
        assert(toks_view(out@) =~= base + spec_history_meta_tokens(m@));
    }
}

/// Emits the token rendering of one history record.
fn emit_msg(out: &mut Vec<JsonToken>, m: &MessageSent)
    ensures
        toks_view(final(out)@) == toks_view(old(out)@) + spec_msg_tokens(m@),
{
    out.push(JsonToken::LBrace);
    out.push(JsonToken::Str(String::from_str("id")));
    out.push(JsonToken::Colon);
    out.push(JsonToken::Int(m.id));
    out.push(JsonToken::Comma);
    out.push(JsonToken::Str(String::from_str("request_id")));
    out.push(JsonToken::Colon);
    out.push(JsonToken::Int(m.request_id));
    out.push(JsonToken::Comma);
    out.push(JsonToken::Str(String::from_str("number")));
    out.push(JsonToken::Colon);
    out.push(JsonToken::Str(m.number.clone()));
    out.push(JsonToken::Comma);
    out.push(JsonToken::Str(String::from_str("message")));
    out.push(JsonToken::Colon);
    out.push(JsonToken::Str(m.message.clone()));
    out.push(JsonToken::Comma);
    out.push(JsonToken::Str(String::from_str("user_id")));
    out.push(JsonToken::Colon);
    out.push(JsonToken::Int(m.user_id as i64));
    out.push(JsonToken::Comma);
    out.push(JsonToken::Str(String::from_str("sender_id")));
    out.push(JsonToken::Colon);
    out.push(JsonToken::Str(m.sender_id.clone()));
    out.push(JsonToken::Comma);
    out.push(JsonToken::Str(String::from_str("transaction_id")));
    out.push(JsonToken::Colon);
    out.push(JsonToken::Str(m.transaction_id.clone()));
    out.push(JsonToken::Comma);
    out.push(JsonToken::Str(String::from_str("message_count")));
    out.push(JsonToken::Colon);
    out.push(JsonToken::Int(m.message_count as i64));
    out.push(JsonToken::Comma);
    out.push(JsonToken::Str(String::from_str("status")));
    out.push(JsonToken::Colon);
    out.push(JsonToken::Str(m.status.clone()));
    out.push(JsonToken::Comma);
    out.push(JsonToken::Str(String::from_str("flag")));
    out.push(JsonToken::Colon);
    out.push(JsonToken::Str(m.flag.clone()));
    out.push(JsonToken::Comma);
    out.push(JsonToken::Str(String::from_str("created_at")));
    out.push(JsonToken::Colon);
    out.push(JsonToken::Str(m.created_at.clone()));
    out.push(JsonToken::Comma);
    out.push(JsonToken::Str(String::from_str("updated_at")));
    out.push(JsonToken::Colon);
    out.push(JsonToken::Str(m.updated_at.clone()));
    out.push(JsonToken::Comma);
    out.push(JsonToken::Str(String::from_str("scheduled_date")));
    out.push(JsonToken::Colon);
    out.push(JsonToken::Str(m.scheduled_date.clone()));
    out.push(JsonToken::RBrace);
    proof {
        assert(toks_view(final(out)@) =~= toks_view(old(out)@) + spec_msg_tokens(m@));
    }
}

/// Appending a record extends the list rendering with a comma and the
/// record's tokens (no comma when the list was empty).
proof fn lemma_msg_list_snoc(l: Seq<MessageSentView>, x: MessageSentView)
    ensures
        spec_msg_list_tokens(l.push(x)) == if l.len() == 0 {
            spec_msg_tokens(x)
        } else {
            spec_msg_list_tokens(l) + seq![JsonTokenView::Comma] + spec_msg_tokens(x)
        },
    decreases l.len(),
{
    if l.len() == 0 {
        assert(l.push(x)[0] == x);
    } else if l.len() == 1 {
        assert(l.push(x)[0] == l[0]);
        assert(l.push(x).skip(1) =~= seq![x]);
        assert(spec_msg_list_tokens(seq![x]) == spec_msg_tokens(x));
        assert(spec_msg_tokens(l[0]) + seq![JsonTokenView::Comma] + spec_msg_tokens(x)
            =~= spec_msg_tokens(l[0]) + seq![JsonTokenView::Comma] + spec_msg_list_tokens(
            l.push(x).skip(1),
        ));
    } else {
        assert(l.push(x)[0] == l[0]);
        assert(l.push(x).skip(1) =~= l.skip(1).push(x));
        lemma_msg_list_snoc(l.skip(1), x);
        assert((spec_msg_tokens(l[0]) + seq![JsonTokenView::Comma] + (spec_msg_list_tokens(l.skip(1))
            + seq![JsonTokenView::Comma] + spec_msg_tokens(x))) =~= ((spec_msg_tokens(l[0])
            + seq![JsonTokenView::Comma] + spec_msg_list_tokens(l.skip(1)))
            + seq![JsonTokenView::Comma] + spec_msg_tokens(x)));
    }
}

/// Emits the token rendering of a non-empty record list.
fn emit_msg_list(out: &mut Vec<JsonToken>, data: &Vec<MessageSent>)
    requires
        data@.len() > 0,
    ensures
        toks_view(final(out)@) == toks_view(old(out)@) + spec_msg_list_tokens(data.deep_view()),
{
    let ghost base = toks_view(old(out)@);
    let ghost lv = data.deep_view();
    let n = data.len();
    let mut k: usize = 0;
    while k < n
        invariant
            k <= n,
            n == data@.len(),
            lv == data.deep_view(),
            base == toks_view(old(out)@),
            toks_view(out@) == base + spec_msg_list_tokens(lv.subrange(0, k as int)),
        decreases n - k,
    {
        let ghost donepart = lv.subrange(0, k as int);
        proof {
            assert(lv.subrange(0, k + 1) =~= donepart.push(lv[k as int]));
            lemma_msg_list_snoc(donepart, lv[k as int]);
            assert(data@[k as int].deep_view() == lv[k as int]);
        }
        let ghost mid = toks_view(out@);
        if k > 0 {
            out.push(JsonToken::Comma);
            proof {
                assert(toks_view(out@) =~= mid + seq![JsonTokenView::Comma]);
            }
        } else {
            proof {
                assert(donepart.len() == 0);
                assert(spec_msg_list_tokens(donepart) =~= Seq::<JsonTokenView>::empty());
                assert(mid =~= base);
            }
        }
        let ghost mid2 = toks_view(out@);
        emit_msg(out, &data[k]);
        proof {
            assert(toks_view(out@) =~= mid2 + spec_msg_tokens(lv[k as int]));
            assert(toks_view(out@) =~= base + spec_msg_list_tokens(lv.subrange(0, k + 1)));
        }
        k = k + 1;
    }
    proof {
        assert(lv.subrange(0, n as int) =~= lv);
    }
}

/// Emits the token rendering of the record array, brackets included.
fn emit_msg_array(out: &mut Vec<JsonToken>, data: &Vec<MessageSent>)
    ensures
        toks_view(final(out)@) == toks_view(old(out)@) + spec_msg_array_tokens(data.deep_view()),
{
    let ghost base = toks_view(old(out)@);
    out.push(JsonToken::LBracket);
    if data.len() > 0 {
        proof {
            assert(toks_view(out@) =~= base + seq![JsonTokenView::LBracket]);
        }
        emit_msg_list(out, data);
        let ghost mid = toks_view(out@);
        proof {
            assert(mid =~= (base + seq![JsonTokenView::LBracket]) + spec_msg_list_tokens(
                data.deep_view(),
            ));
        }
        out.push(JsonToken::RBracket);
        proof {
            assert(toks_view(out@) =~= mid.push(JsonTokenView::RBracket));
            assert(toks_view(out@) =~= base + spec_msg_array_tokens(data.deep_view()));
        }
    } else {
        out.push(JsonToken::RBracket);
        proof {
            assert(data.deep_view() =~= Seq::<MessageSentView>::empty());
            assert(spec_msg_list_tokens(data.deep_view()) =~= Seq::<JsonTokenView>::empty());
            assert(toks_view(out@) =~= base + spec_msg_array_tokens(data.deep_view()));
        }
    }
}

/// Emits the token rendering of the pagination envelope.
fn emit_items(out: &mut Vec<JsonToken>, it: &Items)
    ensures
        toks_view(final(out)@) == toks_view(old(out)@) + spec_items_tokens(it@),
{
    let ghost base = toks_view(old(out)@);
    out.push(JsonToken::LBrace);
    out.push(JsonToken::Str(String::from_str("total")));
    out.push(JsonToken::Colon);
    out.push(JsonToken::Int(it.total as i64));
    out.push(JsonToken::Comma);
    out.push(JsonToken::Str(String::from_str("per_page")));
    out.push(JsonToken::Colon);
    out.push(JsonToken::Int(it.per_page as i64));
    out.push(JsonToken::Comma);
    out.push(JsonToken::Str(String::from_str("current_page")));
    out.push(JsonToken::Colon);
    out.push(JsonToken::Int(it.current_page as i64));
    out.push(JsonToken::Comma);
    out.push(JsonToken::Str(String::from_str("last_page")));
    out.push(JsonToken::Colon);
    out.push(JsonToken::Int(it.last_page as i64));
    out.push(JsonToken::Comma);
    out.push(JsonToken::Str(String::from_str("next_page_url")));
    out.push(JsonToken::Colon);
    match &it.next_page_url {
        Option::Some(u) => out.push(JsonToken::Str(u.clone())),
        Option::None => out.push(JsonToken::Null),
    }
    out.push(JsonToken::Comma);
    out.push(JsonToken::Str(String::from_str("prev_page_url")));
    out.push(JsonToken::Colon);
    match &it.prev_page_url {
        Option::Some(u) => out.push(JsonToken::Str(u.clone())),
        Option::None => out.push(JsonToken::Null),
    }
    out.push(JsonToken::Comma);
    out.push(JsonToken::Str(String::from_str("from")));
    out.push(JsonToken::Colon);
    out.push(JsonToken::Int(it.from as i64));
    out.push(JsonToken::Comma);
    out.push(JsonToken::Str(String::from_str("to")));
    out.push(JsonToken::Colon);
    out.push(JsonToken::Int(it.to as i64));
    out.push(JsonToken::Comma);
    out.push(JsonToken::Str(String::from_str("data")));
    out.push(JsonToken::Colon);
    let ghost mid = toks_view(out@);
    proof {
        assert(mid =~= base + seq![
            JsonTokenView::LBrace,
            JsonTokenView::Str("total"@),
            JsonTokenView::Colon,
            JsonTokenView::Int(it@.total),
            JsonTokenView::Comma,
            JsonTokenView::Str("per_page"@),
            JsonTokenView::Colon,
            JsonTokenView::Int(it@.per_page),
            JsonTokenView::Comma,
            JsonTokenView::Str("current_page"@),
            JsonTokenView::Colon,
            JsonTokenView::Int(it@.current_page),
            JsonTokenView::Comma,
            JsonTokenView::Str("last_page"@),
            JsonTokenView::Colon,
            JsonTokenView::Int(it@.last_page),
            JsonTokenView::Comma,
            JsonTokenView::Str("next_page_url"@),
            JsonTokenView::Colon,
            spec_opt_str_token(it@.next_page_url),
            JsonTokenView::Comma,
            JsonTokenView::Str("prev_page_url"@),
            JsonTokenView::Colon,
            spec_opt_str_token(it@.prev_page_url),
            JsonTokenView::Comma,
            JsonTokenView::Str("from"@),
            JsonTokenView::Colon,
            JsonTokenView::Int(it@.from),
            JsonTokenView::Comma,
            JsonTokenView::Str("to"@),
            JsonTokenView::Colon,
            JsonTokenView::Int(it@.to),
            JsonTokenView::Comma,
            JsonTokenView::Str("data"@),
            JsonTokenView::Colon,
        ]);
    }
    emit_msg_array(out, &it.data);
    let ghost mid2 = toks_view(out@);
    proof {
        assert(mid2 =~= mid + spec_msg_array_tokens(it.data.deep_view()));
    }
    out.push(JsonToken::RBrace);
    proof {
        assert(toks_view(out@) =~= mid2.push(JsonTokenView::RBrace));
        assert(toks_view(out@) =~= base + spec_items_tokens(it@));
    }
}

/// Emits the token rendering of the history response.
fn emit_history_response(out: &mut Vec<JsonToken>, r: &MessageHistoryApiResponse)
    ensures
        toks_view(final(out)@) == toks_view(old(out)@) + spec_history_response_tokens(r@),
{
    let ghost base = toks_view(old(out)@);
    out.push(JsonToken::LBrace);
    out.push(JsonToken::Str(String::from_str("status")));
    out.push(JsonToken::Colon);
    proof {
        assert(toks_view(out@) =~= base + seq![
            JsonTokenView::LBrace,
            JsonTokenView::Str("status"@),
            JsonTokenView::Colon,
        ]);
    }
    emit_status(out, &r.status);
    out.push(JsonToken::Comma);
    out.push(JsonToken::Str(String::from_str("meta")));
    out.push(JsonToken::Colon);
    let ghost mid = toks_view(out@);
    proof {
        assert(mid =~= base + seq![
            JsonTokenView::LBrace,
            JsonTokenView::Str("status"@),
            JsonTokenView::Colon,
        ] + spec_status_tokens(r.status@) + seq![
            JsonTokenView::Comma,
            JsonTokenView::Str("meta"@),
            JsonTokenView::Colon,
        ]);
    }
    match &r.meta {
        Option::Some(m) => {
            emit_history_meta(out, m);
        },
        Option::None => {
            out.push(JsonToken::Null);
            proof {
                assert(toks_view(out@) =~= mid + seq![JsonTokenView::Null]);
            }
        },
    }
    let ghost mid2 = toks_view(out@);
    proof {
        assert(mid2 =~= mid + spec_opt_history_meta_tokens(r@.meta));
    }
    out.push(JsonToken::Comma);
    out.push(JsonToken::Str(String::from_str("items")));
    out.push(JsonToken::Colon);
    let ghost mid3 = toks_view(out@);
    proof {
        assert(mid3 =~= mid2 + seq![
            JsonTokenView::Comma,
            JsonTokenView::Str("items"@),
            JsonTokenView::Colon,
        ]);
    }
    emit_items(out, &r.items);
    let ghost mid4 = toks_view(out@);
    proof {
        assert(mid4 =~= mid3 + spec_items_tokens(r.items@));
    }
    out.push(JsonToken::RBrace);
    proof {
        assert(toks_view(out@) =~= mid4.push(JsonTokenView::RBrace));
        assert(toks_view(out@) =~= base + spec_history_response_tokens(r@));
    }
}

/// The JSON text of a history response, in the canonical compact rendering.
pub open spec fn spec_history_json(r: MessageHistoryApiResponseView) -> Seq<char> {
    spec_render_tokens(spec_history_response_tokens(r))
}

/// What parsing a history response from text yields: the text must lex, the
/// tokens must form exactly one history response.
pub open spec fn spec_history_from_json(s: Seq<char>) -> Option<MessageHistoryApiResponseView> {
    match spec_tokenize(s) {
        Option::Some(ts) => match spec_parse_history_response(ts, 0) {
            Option::Some(hq) => if hq.1 == ts.len() {
                Option::Some(hq.0)
            } else {
                Option::None
            },
            Option::None => Option::None,
        },
        Option::None => Option::None,
    }
}

/// What parsing a messaging response from text yields.
pub open spec fn spec_messaging_from_json(s: Seq<char>) -> Option<MessagingApiResponseView> {
    match spec_tokenize(s) {
        Option::Some(ts) => match spec_parse_messaging_response(ts, 0) {
            Option::Some(hq) => if hq.1 == ts.len() {
                Option::Some(hq.0)
            } else {
                Option::None
            },
            Option::None => Option::None,
        },
        Option::None => Option::None,
    }
}

/// What parsing a balance response from text yields.
pub open spec fn spec_balance_from_json(s: Seq<char>) -> Option<BalanceApiResponseView> {
    match spec_tokenize(s) {
        Option::Some(ts) => match spec_parse_balance_response(ts, 0) {
            Option::Some(hq) => if hq.1 == ts.len() {
                Option::Some(hq.0)
            } else {
                Option::None
            },
            Option::None => Option::None,
        },
        Option::None => Option::None,
    }
}

/// Parses a messaging response from JSON text; succeeds exactly when
/// [`spec_messaging_from_json`] accepts the text.
pub fn messaging_response_from_json(json_str: &str) -> (r: Result<MessagingApiResponse, JsonError>)
    ensures
        match r {
            Ok(resp) => spec_messaging_from_json(json_str@) == Option::Some(resp@),
            Err(e) => spec_messaging_from_json(json_str@) is None && (e == JsonError::Syntax
                <==> spec_tokenize(json_str@) is None),
        },
{
    let cs = string_to_chars(json_str);
    let ts = match tokenize(&cs) {
        Ok(ts) => ts,
        Err(e) => {
            return Err(e);
        },
    };
    let (resp, q) = match parse_messaging_response(&ts, 0) {
        Ok(x) => x,
        Err(e) => {
            return Err(e);
        },
    };
    if q != ts.len() {
        return Err(JsonError::Shape);
    }
    Ok(resp)
}

/// Parses a balance response from JSON text; succeeds exactly when
/// [`spec_balance_from_json`] accepts the text.
pub fn balance_response_from_json(json_str: &str) -> (r: Result<BalanceApiResponse, JsonError>)
    ensures
        match r {
            Ok(resp) => spec_balance_from_json(json_str@) == Option::Some(resp@),
            Err(e) => spec_balance_from_json(json_str@) is None && (e == JsonError::Syntax
                <==> spec_tokenize(json_str@) is None),
        },
{
    let cs = string_to_chars(json_str);
    let ts = match tokenize(&cs) {
        Ok(ts) => ts,
        Err(e) => {
            return Err(e);
        },
    };
    let (resp, q) = match parse_balance_response(&ts, 0) {
        Ok(x) => x,
        Err(e) => {
            return Err(e);
        },
    };
    if q != ts.len() {
        return Err(JsonError::Shape);
    }
    Ok(resp)
}

impl MessageHistoryApiResponse {
    /// Parses a history response from JSON text; succeeds exactly when
    /// [`spec_history_from_json`] accepts the text.
    pub fn from_json(json_str: &str) -> (r: Result<MessageHistoryApiResponse, JsonError>)
        ensures
            match r {
                Ok(resp) => spec_history_from_json(json_str@) == Option::Some(resp@),
                Err(e) => spec_history_from_json(json_str@) is None && (e == JsonError::Syntax
                    <==> spec_tokenize(json_str@) is None),
            },
    {
        let cs = string_to_chars(json_str);
        let ts = match tokenize(&cs) {
            Ok(ts) => ts,
            Err(e) => {
                return Err(e);
            },
        };
        let (resp, q) = match parse_history_response(&ts, 0) {
            Ok(x) => x,
            Err(e) => {
                return Err(e);
            },
        };
        if q != ts.len() {
            return Err(JsonError::Shape);
        }
        Ok(resp)
    }

    /// Renders this response as canonical compact JSON text.
    pub fn to_json(&self) -> (r: String)
        ensures
            r@ == spec_history_json(self@),
    {
        let mut toks: Vec<JsonToken> = Vec::new();
        proof {
            assert(toks_view(toks@) =~= Seq::<JsonTokenView>::empty());
        }
        emit_history_response(&mut toks, self);
        proof {
            assert(toks_view(toks@) =~= spec_history_response_tokens(self@));
        }
        let cs = render_tokens(&toks);
        chars_to_string(&cs)
    }
}

/// The token rendering of one message bag.
pub open spec fn spec_bag_tokens(b: MessageBagView) -> Seq<JsonTokenView> {
    seq![
        JsonTokenView::LBrace,
        JsonTokenView::Str("numbers"@),
        JsonTokenView::Colon,
        JsonTokenView::Str(b.numbers),
        JsonTokenView::Comma,
        JsonTokenView::Str("message"@),
        JsonTokenView::Colon,
        JsonTokenView::Str(b.message),
        JsonTokenView::Comma,
        JsonTokenView::Str("sender"@),
        JsonTokenView::Colon,
        JsonTokenView::Str(b.sender),
        JsonTokenView::RBrace,
    ]
}

/// The token rendering of one bag container, wire shape
/// `{"message_bag": {...}}`.
pub open spec fn spec_container_tokens(b: MessageBagView) -> Seq<JsonTokenView> {
    seq![
        JsonTokenView::LBrace,
        JsonTokenView::Str("message_bag"@),
        JsonTokenView::Colon,
    ] + spec_bag_tokens(b) + seq![JsonTokenView::RBrace]
}

/// The token rendering of a non-empty container list.
pub open spec fn spec_bag_list_tokens(l: Seq<MessageBagView>) -> Seq<JsonTokenView>
    decreases l.len(),
{
    if l.len() == 0 {
        Seq::empty()
    } else if l.len() == 1 {
        spec_container_tokens(l[0])
    } else {
        spec_container_tokens(l[0]) + seq![JsonTokenView::Comma] + spec_bag_list_tokens(l.skip(1))
    }
}

/// The token rendering of a whole message request, wire shape
/// `{"data": [...]}`.
pub open spec fn spec_request_tokens(l: Seq<MessageBagView>) -> Seq<JsonTokenView> {
    seq![
        JsonTokenView::LBrace,
        JsonTokenView::Str("data"@),
        JsonTokenView::Colon,
        JsonTokenView::LBracket,
    ] + spec_bag_list_tokens(l) + seq![JsonTokenView::RBracket, JsonTokenView::RBrace]
}

/// The JSON text of a message request, in the canonical compact rendering.
pub open spec fn spec_request_json(l: Seq<MessageBagView>) -> Seq<char> {
    spec_render_tokens(spec_request_tokens(l))
}

/// Emits the token rendering of one bag container.
fn emit_container(out: &mut Vec<JsonToken>, b: &crate::models::MessageBagContainer)
    ensures
        toks_view(final(out)@) == toks_view(old(out)@) + spec_container_tokens(b@),
{
    out.push(JsonToken::LBrace);
    out.push(JsonToken::Str(String::from_str("message_bag")));
    out.push(JsonToken::Colon);
    out.push(JsonToken::LBrace);
    out.push(JsonToken::Str(String::from_str("numbers")));
    out.push(JsonToken::Colon);
    out.push(JsonToken::Str(b.message_bag.numbers.clone()));
    out.push(JsonToken::Comma);
    out.push(JsonToken::Str(String::from_str("message")));
    out.push(JsonToken::Colon);
    out.push(JsonToken::Str(b.message_bag.message.clone()));
    out.push(JsonToken::Comma);
    out.push(JsonToken::Str(String::from_str("sender")));
    out.push(JsonToken::Colon);
    out.push(JsonToken::Str(b.message_bag.sender.clone()));
    out.push(JsonToken::RBrace);
    out.push(JsonToken::RBrace);
    proof {
        assert(toks_view(final(out)@) =~= toks_view(old(out)@) + spec_container_tokens(b@));
    }
}

/// Appending a bag extends the container-list rendering with a comma and the
/// container's tokens (no comma when the list was empty).
proof fn lemma_bag_list_snoc(l: Seq<MessageBagView>, x: MessageBagView)
    ensures
        spec_bag_list_tokens(l.push(x)) == if l.len() == 0 {
            spec_container_tokens(x)
        } else {
            spec_bag_list_tokens(l) + seq![JsonTokenView::Comma] + spec_container_tokens(x)
        },
    decreases l.len(),
{
    if l.len() == 0 {
        assert(l.push(x)[0] == x);
    } else if l.len() == 1 {
        assert(l.push(x)[0] == l[0]);
        assert(l.push(x).skip(1) =~= seq![x]);
        assert(spec_bag_list_tokens(seq![x]) == spec_container_tokens(x));
        assert(spec_container_tokens(l[0]) + seq![JsonTokenView::Comma] + spec_container_tokens(x)
            =~= spec_container_tokens(l[0]) + seq![JsonTokenView::Comma] + spec_bag_list_tokens(
            l.push(x).skip(1),
        ));
    } else {
        assert(l.push(x)[0] == l[0]);
        assert(l.push(x).skip(1) =~= l.skip(1).push(x));
        lemma_bag_list_snoc(l.skip(1), x);
        assert((spec_container_tokens(l[0]) + seq![JsonTokenView::Comma] + (spec_bag_list_tokens(
            l.skip(1),
        ) + seq![JsonTokenView::Comma] + spec_container_tokens(x))) =~= ((spec_container_tokens(
            l[0],
        ) + seq![JsonTokenView::Comma] + spec_bag_list_tokens(l.skip(1)))
            + seq![JsonTokenView::Comma] + spec_container_tokens(x)));
    }
}

/// Renders a message request as canonical compact JSON text: the body that
/// the messaging endpoint is sent.
pub fn message_request_json(req: &MessageRequest) -> (r: String)
    ensures
        r@ == spec_request_json(req@),
{
    let ghost lv = req@;
    let mut toks: Vec<JsonToken> = Vec::new();
    toks.push(JsonToken::LBrace);
    toks.push(JsonToken::Str(String::from_str("data")));
    toks.push(JsonToken::Colon);
    toks.push(JsonToken::LBracket);
    let ghost head = toks_view(toks@);
    proof {
        assert(head =~= seq![
            JsonTokenView::LBrace,
            JsonTokenView::Str("data"@),
            JsonTokenView::Colon,
            JsonTokenView::LBracket,
        ]);
    }
    let n = req.data.len();
    let mut k: usize = 0;
    proof {
        assert(req.data@.subrange(0, 0).map_values(|c: crate::models::MessageBagContainer| c@)
            =~= Seq::<MessageBagView>::empty());
        assert(spec_bag_list_tokens(lv.subrange(0, 0)) =~= Seq::<JsonTokenView>::empty());
        assert(toks_view(toks@) =~= head + spec_bag_list_tokens(lv.subrange(0, 0)));
    }
    while k < n
        invariant
            k <= n,
            n == req.data@.len(),
            lv == req@,
            lv.len() == n,
            head == seq![
                JsonTokenView::LBrace,
                JsonTokenView::Str("data"@),
                JsonTokenView::Colon,
                JsonTokenView::LBracket,
            ],
            toks_view(toks@) == head + spec_bag_list_tokens(lv.subrange(0, k as int)),
        decreases n - k,
    {
        let ghost donepart = lv.subrange(0, k as int);
        proof {
            assert(lv.subrange(0, k + 1) =~= donepart.push(lv[k as int]));
            lemma_bag_list_snoc(donepart, lv[k as int]);
            assert(req.data@[k as int]@ == lv[k as int]);
        }
        let ghost mid = toks_view(toks@);
        if k > 0 {
            toks.push(JsonToken::Comma);
            proof {
                assert(toks_view(toks@) =~= mid + seq![JsonTokenView::Comma]);
            }
        } else {
            proof {
                assert(donepart.len() == 0);
                assert(spec_bag_list_tokens(donepart) =~= Seq::<JsonTokenView>::empty());
                assert(mid =~= head);
            }
        }
        let ghost mid2 = toks_view(toks@);
        emit_container(&mut toks, &req.data[k]);
        proof {
            assert(toks_view(toks@) =~= mid2 + spec_container_tokens(lv[k as int]));
            assert(toks_view(toks@) =~= head + spec_bag_list_tokens(lv.subrange(0, k + 1)));
        }
        k = k + 1;
    }
    proof {
        assert(lv.subrange(0, n as int) =~= lv);
    }
    toks.push(JsonToken::RBracket);
    toks.push(JsonToken::RBrace);
    proof {
        assert(toks_view(toks@) =~= spec_request_tokens(lv));
    }
    let cs = render_tokens(&toks);
    chars_to_string(&cs)
}

/// A date-time view whose integer field fits its wire type.
pub open spec fn wf_date_time(d: DateTimeView) -> bool {
    i32::MIN <= d.timezone_type <= i32::MAX
}

/// A history-metadata view whose integer fields fit their wire types.
pub open spec fn wf_history_meta(m: MessageHistoryMetaInfoView) -> bool {
    wf_date_time(m.date_time)
}

/// A record view whose integer fields fit their wire types.
pub open spec fn wf_msg(m: MessageSentView) -> bool {
    i64::MIN <= m.id <= i64::MAX && i64::MIN <= m.request_id <= i64::MAX && i32::MIN <= m.user_id
        <= i32::MAX && i32::MIN <= m.message_count <= i32::MAX
}

/// An envelope view whose integer fields fit their wire types.
pub open spec fn wf_items(it: ItemsView) -> bool {
    i32::MIN <= it.total <= i32::MAX && i32::MIN <= it.per_page <= i32::MAX && i32::MIN
        <= it.current_page <= i32::MAX && i32::MIN <= it.last_page <= i32::MAX && i32::MIN
        <= it.from <= i32::MAX && i32::MIN <= it.to <= i32::MAX && (forall|i: int|
        0 <= i < it.data.len() ==> wf_msg(#[trigger] it.data[i]))
}

/// A history-response view whose integer fields fit their wire types. Every
/// value a [`MessageHistoryApiResponse`] views to is well formed.
pub open spec fn wf_history_response(r: MessageHistoryApiResponseView) -> bool {
    (match r.meta {
        Option::Some(m) => wf_history_meta(m),
        Option::None => true,
    }) && wf_items(r.items)
}

/// Concatenation keeps a token stream well separated when the seam puts no
/// two integer tokens side by side.
proof fn lemma_toks_ok_concat(a: Seq<JsonTokenView>, b: Seq<JsonTokenView>)
    requires
        toks_ok(a),
        toks_ok(b),
        a.len() == 0 || b.len() == 0 || !(a.last() is Int && b[0] is Int),
    ensures
        toks_ok(a + b),
{
    let c = a + b;
    assert forall|i: int| 0 <= i < c.len() implies tok_ok(#[trigger] c[i]) by {
        if i < a.len() {
            assert(c[i] == a[i]);
        } else {
            assert(c[i] == b[i - a.len()]);
        }
    }
    assert forall|i: int| 0 <= i < c.len() - 1 implies !((#[trigger] c[i]) is Int && c[i
        + 1] is Int) by {
        if i + 1 < a.len() {
            assert(c[i] == a[i]);
            assert(c[i + 1] == a[i + 1]);
        } else if i < a.len() {
            assert(c[i] == a[i]);
            assert(a[i] == a.last());
            assert(c[i + 1] == b[0]);
        } else {
            assert(c[i] == b[i - a.len()]);
            assert(c[i + 1] == b[i + 1 - a.len()]);
        }
    }
}

proof fn lemma_status_toks_ok(s: StatusInfoView)
    ensures
        toks_ok(spec_status_tokens(s)),
        spec_status_tokens(s).last() == JsonTokenView::RBrace,
{
}

proof fn lemma_date_time_toks_ok(d: DateTimeView)
    requires
        wf_date_time(d),
    ensures
        toks_ok(spec_date_time_tokens(d)),
        spec_date_time_tokens(d).last() == JsonTokenView::RBrace,
{
}

proof fn lemma_history_meta_toks_ok(m: MessageHistoryMetaInfoView)
    requires
        wf_history_meta(m),
    ensures
        toks_ok(spec_history_meta_tokens(m)),
        spec_history_meta_tokens(m).last() == JsonTokenView::RBrace,
{
    let head = seq![
        JsonTokenView::LBrace,
        JsonTokenView::Str("user"@),
        JsonTokenView::Colon,
        JsonTokenView::Str(m.user),
        JsonTokenView::Comma,
        JsonTokenView::Str("date_time"@),
        JsonTokenView::Colon,
    ];
    assert(toks_ok(head));
    lemma_date_time_toks_ok(m.date_time);
    lemma_toks_ok_concat(head, spec_date_time_tokens(m.date_time));
    lemma_toks_ok_concat(
        head + spec_date_time_tokens(m.date_time),
        seq![JsonTokenView::RBrace],
    );
    assert(spec_history_meta_tokens(m) =~= (head + spec_date_time_tokens(m.date_time))
        + seq![JsonTokenView::RBrace]);
}

proof fn lemma_msg_toks_ok(m: MessageSentView)
    requires
        wf_msg(m),
    ensures
        toks_ok(spec_msg_tokens(m)),
        spec_msg_tokens(m).last() == JsonTokenView::RBrace,
        spec_msg_tokens(m)[0] == JsonTokenView::LBrace,
{
}

proof fn lemma_msg_list_toks_ok(l: Seq<MessageSentView>)
    requires
        l.len() > 0,
        forall|i: int| 0 <= i < l.len() ==> wf_msg(#[trigger] l[i]),
    ensures
        toks_ok(spec_msg_list_tokens(l)),
        spec_msg_list_tokens(l).last() == JsonTokenView::RBrace,
        spec_msg_list_tokens(l)[0] == JsonTokenView::LBrace,
        spec_msg_list_tokens(l).len() > 0,
    decreases l.len(),
{
    lemma_msg_toks_ok(l[0]);
    if l.len() == 1 {
    } else {
        assert forall|i: int| 0 <= i < l.skip(1).len() implies wf_msg(#[trigger] l.skip(1)[i]) by {
            assert(l.skip(1)[i] == l[i + 1]);
        }
        lemma_msg_list_toks_ok(l.skip(1));
        let a = spec_msg_tokens(l[0]) + seq![JsonTokenView::Comma];
        lemma_toks_ok_concat(spec_msg_tokens(l[0]), seq![JsonTokenView::Comma]);
        lemma_toks_ok_concat(a, spec_msg_list_tokens(l.skip(1)));
        assert(spec_msg_list_tokens(l) =~= a + spec_msg_list_tokens(l.skip(1)));
        assert(spec_msg_list_tokens(l).last() == spec_msg_list_tokens(l.skip(1)).last());
        assert(spec_msg_list_tokens(l)[0] == spec_msg_tokens(l[0])[0]);
    }
}

proof fn lemma_msg_array_toks_ok(l: Seq<MessageSentView>)
    requires
        forall|i: int| 0 <= i < l.len() ==> wf_msg(#[trigger] l[i]),
    ensures
        toks_ok(spec_msg_array_tokens(l)),
        spec_msg_array_tokens(l).last() == JsonTokenView::RBracket,
        spec_msg_array_tokens(l)[0] == JsonTokenView::LBracket,
{
    if l.len() == 0 {
        assert(spec_msg_array_tokens(l) =~= seq![
            JsonTokenView::LBracket,
            JsonTokenView::RBracket,
        ]);
    } else {
        lemma_msg_list_toks_ok(l);
        lemma_toks_ok_concat(seq![JsonTokenView::LBracket], spec_msg_list_tokens(l));
        lemma_toks_ok_concat(
            seq![JsonTokenView::LBracket] + spec_msg_list_tokens(l),
            seq![JsonTokenView::RBracket],
        );
        assert(spec_msg_array_tokens(l) =~= (seq![JsonTokenView::LBracket] + spec_msg_list_tokens(
            l,
        )) + seq![JsonTokenView::RBracket]);
    }
}

proof fn lemma_items_toks_ok(it: ItemsView)
    requires
        wf_items(it),
    ensures
        toks_ok(spec_items_tokens(it)),
        spec_items_tokens(it).last() == JsonTokenView::RBrace,
{
    let head = seq![
        JsonTokenView::LBrace,
        JsonTokenView::Str("total"@),
        JsonTokenView::Colon,
        JsonTokenView::Int(it.total),
        JsonTokenView::Comma,
        JsonTokenView::Str("per_page"@),
        JsonTokenView::Colon,
        JsonTokenView::Int(it.per_page),
        JsonTokenView::Comma,
        JsonTokenView::Str("current_page"@),
        JsonTokenView::Colon,
        JsonTokenView::Int(it.current_page),
        JsonTokenView::Comma,
        JsonTokenView::Str("last_page"@),
        JsonTokenView::Colon,
        JsonTokenView::Int(it.last_page),
        JsonTokenView::Comma,
        JsonTokenView::Str("next_page_url"@),
        JsonTokenView::Colon,
        spec_opt_str_token(it.next_page_url),
        JsonTokenView::Comma,
        JsonTokenView::Str("prev_page_url"@),
        JsonTokenView::Colon,
        spec_opt_str_token(it.prev_page_url),
        JsonTokenView::Comma,
        JsonTokenView::Str("from"@),
        JsonTokenView::Colon,
        JsonTokenView::Int(it.from),
        JsonTokenView::Comma,
        JsonTokenView::Str("to"@),
        JsonTokenView::Colon,
        JsonTokenView::Int(it.to),
        JsonTokenView::Comma,
        JsonTokenView::Str("data"@),
        JsonTokenView::Colon,
    ];
    assert(toks_ok(head)) by {
        assert(!(spec_opt_str_token(it.next_page_url) is Int));
        assert(!(spec_opt_str_token(it.prev_page_url) is Int));
    }
    lemma_msg_array_toks_ok(it.data);
    lemma_toks_ok_concat(head, spec_msg_array_tokens(it.data));
    lemma_toks_ok_concat(
        head + spec_msg_array_tokens(it.data),
        seq![JsonTokenView::RBrace],
    );
    assert(spec_items_tokens(it) =~= (head + spec_msg_array_tokens(it.data))
        + seq![JsonTokenView::RBrace]);
}

/// The rendering of a well-formed history response is a well-separated token
/// stream with every integer in `i64` range.
proof fn lemma_history_response_toks_ok(r: MessageHistoryApiResponseView)
    requires
        wf_history_response(r),
    ensures
        toks_ok(spec_history_response_tokens(r)),
{
    let h1 = seq![JsonTokenView::LBrace, JsonTokenView::Str("status"@), JsonTokenView::Colon];
    let h2 = seq![JsonTokenView::Comma, JsonTokenView::Str("meta"@), JsonTokenView::Colon];
    let h3 = seq![JsonTokenView::Comma, JsonTokenView::Str("items"@), JsonTokenView::Colon];
    lemma_status_toks_ok(r.status);
    let metaval = spec_opt_history_meta_tokens(r.meta);
    assert(toks_ok(metaval) && !(metaval[0] is Int) && !(metaval.last() is Int)) by {
        match r.meta {
            Option::Some(m) => {
                lemma_history_meta_toks_ok(m);
            },
            Option::None => {
                assert(metaval =~= seq![JsonTokenView::Null]);
            },
        }
    }
    lemma_items_toks_ok(r.items);
    let a1 = h1 + spec_status_tokens(r.status);
    lemma_toks_ok_concat(h1, spec_status_tokens(r.status));
    let a2 = a1 + h2;
    lemma_toks_ok_concat(a1, h2);
    let a3 = a2 + metaval;
    lemma_toks_ok_concat(a2, metaval);
    let a4 = a3 + h3;
    lemma_toks_ok_concat(a3, h3);
    let a5 = a4 + spec_items_tokens(r.items);
    lemma_toks_ok_concat(a4, spec_items_tokens(r.items));
    lemma_toks_ok_concat(a5, seq![JsonTokenView::RBrace]);
    assert(spec_history_response_tokens(r) =~= a5 + seq![JsonTokenView::RBrace]);
}

proof fn lemma_parse_status_at(ts: Seq<JsonTokenView>, p: int, s: StatusInfoView)
    requires
        0 <= p,
        p + 13 <= ts.len(),
        ts.subrange(p, p + 13) == spec_status_tokens(s),
    ensures
        spec_parse_status(ts, p) == Option::Some((s, p + 13)),
{
    let toks = spec_status_tokens(s);
    assert forall|j: int| 0 <= j < 13 implies ts[p + j] == toks[j] by {
        assert(ts.subrange(p, p + 13)[j] == ts[p + j]);
    }
}

proof fn lemma_parse_date_time_at(ts: Seq<JsonTokenView>, p: int, d: DateTimeView)
    requires
        wf_date_time(d),
        0 <= p,
        p + 13 <= ts.len(),
        ts.subrange(p, p + 13) == spec_date_time_tokens(d),
    ensures
        spec_parse_date_time(ts, p) == Option::Some((d, p + 13)),
{
    let toks = spec_date_time_tokens(d);
    assert forall|j: int| 0 <= j < 13 implies ts[p + j] == toks[j] by {
        assert(ts.subrange(p, p + 13)[j] == ts[p + j]);
    }
}

proof fn lemma_subrange_at(ts: Seq<JsonTokenView>, p: int, toks: Seq<JsonTokenView>, i: int)
    requires
        0 <= p,
        p + toks.len() <= ts.len(),
        ts.subrange(p, p + toks.len() as int) == toks,
        0 <= i < toks.len(),
    ensures
        ts[p + i] == toks[i],
{
    assert(ts.subrange(p, p + toks.len() as int)[i] == ts[p + i]);
}

proof fn lemma_subrange_slice(ts: Seq<JsonTokenView>, p: int, toks: Seq<JsonTokenView>, a: int, b: int)
    requires
        0 <= p,
        p + toks.len() <= ts.len(),
        ts.subrange(p, p + toks.len() as int) == toks,
        0 <= a <= b <= toks.len(),
    ensures
        ts.subrange(p + a, p + b) == toks.subrange(a, b),
{
    assert forall|j: int| 0 <= j < b - a implies ts.subrange(p + a, p + b)[j] == toks.subrange(
        a,
        b,
    )[j] by {
        assert(ts.subrange(p, p + toks.len() as int)[a + j] == ts[p + (a + j)]);
        assert(ts.subrange(p + a, p + b)[j] == ts[p + a + j]);
        assert(toks.subrange(a, b)[j] == toks[a + j]);
    }
    assert(ts.subrange(p + a, p + b) =~= toks.subrange(a, b));
}

proof fn lemma_parse_history_meta_at(ts: Seq<JsonTokenView>, p: int, m: MessageHistoryMetaInfoView)
    requires
        wf_history_meta(m),
        0 <= p,
        p + 21 <= ts.len(),
        ts.subrange(p, p + 21) == spec_history_meta_tokens(m),
    ensures
        spec_parse_history_meta(ts, p) == Option::Some((m, p + 21)),
{
    let toks = spec_history_meta_tokens(m);
    let dt = spec_date_time_tokens(m.date_time);
    assert(toks.len() == 21);
    lemma_subrange_at(ts, p, toks, 0);
    lemma_subrange_at(ts, p, toks, 1);
    lemma_subrange_at(ts, p, toks, 2);
    lemma_subrange_at(ts, p, toks, 3);
    lemma_subrange_at(ts, p, toks, 4);
    lemma_subrange_at(ts, p, toks, 5);
    lemma_subrange_at(ts, p, toks, 6);
    lemma_subrange_at(ts, p, toks, 20);
    lemma_subrange_slice(ts, p, toks, 7, 20);
    assert(toks.subrange(7, 20) =~= dt);
    lemma_parse_date_time_at(ts, p + 7, m.date_time);
    assert(ts[p + 20] == JsonTokenView::RBrace);
}

proof fn lemma_parse_msg_at(ts: Seq<JsonTokenView>, p: int, m: MessageSentView)
    requires
        wf_msg(m),
        0 <= p,
        p + 53 <= ts.len(),
        ts.subrange(p, p + 53) == spec_msg_tokens(m),
    ensures
        spec_parse_msg(ts, p) == Option::Some((m, p + 53)),
{
    let toks = spec_msg_tokens(m);
    assert forall|j: int| 0 <= j < 53 implies ts[p + j] == toks[j] by {
        assert(ts.subrange(p, p + 53)[j] == ts[p + j]);
    }
}

proof fn lemma_parse_msg_list_at(ts: Seq<JsonTokenView>, p: int, l: Seq<MessageSentView>)
    requires
        l.len() > 0,
        forall|i: int| 0 <= i < l.len() ==> wf_msg(#[trigger] l[i]),
        0 <= p,
        p + spec_msg_list_tokens(l).len() < ts.len(),
        ts.subrange(p, p + spec_msg_list_tokens(l).len()) == spec_msg_list_tokens(l),
        ts[p + spec_msg_list_tokens(l).len()] == JsonTokenView::RBracket,
    ensures
        spec_parse_msg_list(ts, p) == Option::Some((l, p + spec_msg_list_tokens(l).len())),
    decreases l.len(),
{
    let toks = spec_msg_list_tokens(l);
    let klen = toks.len();
    assert forall|j: int| 0 <= j < klen implies ts[p + j] == toks[j] by {
        assert(ts.subrange(p, p + klen)[j] == ts[p + j]);
    }
    if l.len() == 1 {
        assert(toks == spec_msg_tokens(l[0]));
        assert(ts.subrange(p, p + 53) =~= spec_msg_tokens(l[0]));
        lemma_parse_msg_at(ts, p, l[0]);
        assert(ts[p + 53] == JsonTokenView::RBracket);
        assert(seq![l[0]] =~= l);
    } else {
        let m0 = spec_msg_tokens(l[0]);
        let rest = spec_msg_list_tokens(l.skip(1));
        assert(toks == m0 + seq![JsonTokenView::Comma] + rest);
        assert(klen == 54 + rest.len());
        assert forall|j: int| 0 <= j < 53 implies toks[j] == m0[j] by {}
        assert(ts.subrange(p, p + 53) =~= m0);
        lemma_parse_msg_at(ts, p, l[0]);
        assert(toks[53] == JsonTokenView::Comma);
        assert(ts[p + 53] == JsonTokenView::Comma);
        assert forall|i: int| 0 <= i < l.skip(1).len() implies wf_msg(#[trigger] l.skip(1)[i]) by {
            assert(l.skip(1)[i] == l[i + 1]);
        }
        assert forall|j: int| 0 <= j < rest.len() implies toks[54 + j] == rest[j] by {}
        assert(ts.subrange(p + 54, p + 54 + rest.len()) =~= rest);
        assert(ts[p + 54 + rest.len()] == JsonTokenView::RBracket);
        lemma_parse_msg_list_at(ts, p + 54, l.skip(1));
        assert(seq![l[0]] + l.skip(1) =~= l);
    }
}

proof fn lemma_parse_msg_array_at(ts: Seq<JsonTokenView>, p: int, l: Seq<MessageSentView>)
    requires
        forall|i: int| 0 <= i < l.len() ==> wf_msg(#[trigger] l[i]),
        0 <= p,
        p + spec_msg_array_tokens(l).len() <= ts.len(),
        ts.subrange(p, p + spec_msg_array_tokens(l).len()) == spec_msg_array_tokens(l),
    ensures
        spec_parse_msg_array(ts, p) == Option::Some((l, p + spec_msg_array_tokens(l).len())),
{
    let toks = spec_msg_array_tokens(l);
    let alen = toks.len() as int;
    if l.len() == 0 {
        assert(toks =~= seq![JsonTokenView::LBracket, JsonTokenView::RBracket]);
        lemma_subrange_at(ts, p, toks, 0);
        lemma_subrange_at(ts, p, toks, 1);
        assert(Seq::<MessageSentView>::empty() =~= l);
    } else {
        let list = spec_msg_list_tokens(l);
        let llen = list.len() as int;
        lemma_msg_list_toks_ok(l);
        assert(toks[0] == JsonTokenView::LBracket);
        assert(toks[1] == list[0]);
        assert(toks[1 + llen] == JsonTokenView::RBracket);
        lemma_subrange_at(ts, p, toks, 0);
        lemma_subrange_at(ts, p, toks, 1);
        lemma_subrange_at(ts, p, toks, 1 + llen);
        lemma_subrange_slice(ts, p, toks, 1, 1 + llen);
        assert(toks.subrange(1, 1 + llen) =~= list);
        lemma_parse_msg_list_at(ts, p + 1, l);
    }
}

#[verifier::rlimit(100)]
proof fn lemma_parse_items_at(ts: Seq<JsonTokenView>, p: int, it: ItemsView)
    requires
        wf_items(it),
        0 <= p,
        p + spec_items_tokens(it).len() <= ts.len(),
        ts.subrange(p, p + spec_items_tokens(it).len()) == spec_items_tokens(it),
    ensures
        spec_parse_items(ts, p) == Option::Some((it, p + spec_items_tokens(it).len())),
{
    let toks = spec_items_tokens(it);
    let arr = spec_msg_array_tokens(it.data);
    let alen = arr.len() as int;
    let head = seq![
        JsonTokenView::LBrace,
        JsonTokenView::Str("total"@),
        JsonTokenView::Colon,
        JsonTokenView::Int(it.total),
        JsonTokenView::Comma,
        JsonTokenView::Str("per_page"@),
        JsonTokenView::Colon,
        JsonTokenView::Int(it.per_page),
        JsonTokenView::Comma,
        JsonTokenView::Str("current_page"@),
        JsonTokenView::Colon,
        JsonTokenView::Int(it.current_page),
        JsonTokenView::Comma,
        JsonTokenView::Str("last_page"@),
        JsonTokenView::Colon,
        JsonTokenView::Int(it.last_page),
        JsonTokenView::Comma,
        JsonTokenView::Str("next_page_url"@),
        JsonTokenView::Colon,
        spec_opt_str_token(it.next_page_url),
        JsonTokenView::Comma,
        JsonTokenView::Str("prev_page_url"@),
        JsonTokenView::Colon,
        spec_opt_str_token(it.prev_page_url),
        JsonTokenView::Comma,
        JsonTokenView::Str("from"@),
        JsonTokenView::Colon,
        JsonTokenView::Int(it.from),
        JsonTokenView::Comma,
        JsonTokenView::Str("to"@),
        JsonTokenView::Colon,
        JsonTokenView::Int(it.to),
        JsonTokenView::Comma,
        JsonTokenView::Str("data"@),
        JsonTokenView::Colon,
    ];
    assert(toks == head + arr + seq![JsonTokenView::RBrace]);
    assert(toks.len() == 36 + alen);
    assert forall|k: int| 0 <= k < 35 implies ts[p + k] == toks[k] && toks[k] == head[k] by {
        lemma_subrange_at(ts, p, toks, k);
    }
    assert(spec_opt_str_of(toks[19]) == Option::Some(it.next_page_url)) by {
        match it.next_page_url {
            Option::Some(_) => {},
            Option::None => {},
        }
    }
    assert(spec_opt_str_of(toks[23]) == Option::Some(it.prev_page_url)) by {
        match it.prev_page_url {
            Option::Some(_) => {},
            Option::None => {},
        }
    }
    lemma_subrange_at(ts, p, toks, 35 + alen);
    assert(toks[35 + alen] == JsonTokenView::RBrace);
    lemma_subrange_slice(ts, p, toks, 35, 35 + alen);
    assert(toks.subrange(35, 35 + alen) =~= arr);
    lemma_parse_msg_array_at(ts, p + 35, it.data);
}

proof fn lemma_parse_history_response_at(
    ts: Seq<JsonTokenView>,
    p: int,
    r: MessageHistoryApiResponseView,
)
    requires
        wf_history_response(r),
        0 <= p,
        p + spec_history_response_tokens(r).len() <= ts.len(),
        ts.subrange(p, p + spec_history_response_tokens(r).len()) == spec_history_response_tokens(
            r,
        ),
    ensures
        spec_parse_history_response(ts, p) == Option::Some(
            (r, p + spec_history_response_tokens(r).len()),
        ),
{
    let toks = spec_history_response_tokens(r);
    let st = spec_status_tokens(r.status);
    let metaval = spec_opt_history_meta_tokens(r.meta);
    let mlen = metaval.len() as int;
    let items = spec_items_tokens(r.items);
    let ilen = items.len() as int;
    assert(toks.len() == 23 + mlen + ilen);
    lemma_subrange_at(ts, p, toks, 0);
    lemma_subrange_at(ts, p, toks, 1);
    lemma_subrange_at(ts, p, toks, 2);
    assert(toks[0] == JsonTokenView::LBrace);
    assert(toks[1] == JsonTokenView::Str("status"@));
    assert(toks[2] == JsonTokenView::Colon);
    lemma_subrange_slice(ts, p, toks, 3, 16);
    assert(toks.subrange(3, 16) =~= st);
    lemma_parse_status_at(ts, p + 3, r.status);
    lemma_subrange_at(ts, p, toks, 16);
    lemma_subrange_at(ts, p, toks, 17);
    lemma_subrange_at(ts, p, toks, 18);
    assert(toks[16] == JsonTokenView::Comma);
    assert(toks[17] == JsonTokenView::Str("meta"@));
    assert(toks[18] == JsonTokenView::Colon);
    match r.meta {
        Option::Some(m) => {
            assert(metaval == spec_history_meta_tokens(m));
            assert(mlen == 21);
            lemma_subrange_at(ts, p, toks, 19);
            assert(toks[19] == metaval[0]);
            assert(metaval[0] == JsonTokenView::LBrace);
            lemma_subrange_slice(ts, p, toks, 19, 40);
            assert(toks.subrange(19, 40) =~= metaval);
            lemma_parse_history_meta_at(ts, p + 19, m);
            assert(spec_parse_opt_history_meta(ts, p + 19) == Option::Some(
                (Option::Some(m), p + 40),
            ));
        },
        Option::None => {
            assert(metaval =~= seq![JsonTokenView::Null]);
            lemma_subrange_at(ts, p, toks, 19);
            assert(toks[19] == metaval[0]);
            assert(ts[p + 19] == JsonTokenView::Null);
            assert(spec_parse_opt_history_meta(ts, p + 19) == Option::Some(
                (Option::None::<MessageHistoryMetaInfoView>, p + 20),
            ));
        },
    }
    lemma_subrange_at(ts, p, toks, 19 + mlen);
    lemma_subrange_at(ts, p, toks, 20 + mlen);
    lemma_subrange_at(ts, p, toks, 21 + mlen);
    assert(toks[19 + mlen] == JsonTokenView::Comma);
    assert(toks[20 + mlen] == JsonTokenView::Str("items"@));
    assert(toks[21 + mlen] == JsonTokenView::Colon);
    lemma_subrange_slice(ts, p, toks, 22 + mlen, 22 + mlen + ilen);
    assert(toks.subrange(22 + mlen, 22 + mlen + ilen) =~= items);
    lemma_parse_items_at(ts, p + 22 + mlen, r.items);
    lemma_subrange_at(ts, p, toks, 22 + mlen + ilen);
    assert(toks[22 + mlen + ilen] == JsonTokenView::RBrace);
    assert(spec_parse_items(ts, p + 19 + mlen + 3) == Option::Some(
        (r.items, p + 22 + mlen + ilen),
    ));
}

/// Every value a [`MessageHistoryApiResponse`] views to is well formed: its
/// integers came from the record's own fixed-width fields.
pub proof fn lemma_history_view_wf(resp: &MessageHistoryApiResponse)
    ensures
        wf_history_response(resp@),
{
    assert forall|i: int| 0 <= i < resp@.items.data.len() implies wf_msg(
        #[trigger] resp@.items.data[i],
    ) by {
        assert(resp@.items.data[i] == resp.items.data@[i]@);
    }
}

/// Round trip: rendering a history response with [`spec_history_json`] and
/// parsing the text back with [`spec_history_from_json`] — exactly what
/// `to_json` and `from_json` promise — recovers the same value.
pub proof fn lemma_history_json_round_trip(r: MessageHistoryApiResponseView)
    requires
        wf_history_response(r),
    ensures
        spec_history_from_json(spec_history_json(r)) == Option::Some(r),
{
    let toks = spec_history_response_tokens(r);
    lemma_history_response_toks_ok(r);
    lemma_tokenize_render(toks);
    assert(toks.subrange(0, toks.len() as int) =~= toks);
    lemma_parse_history_response_at(toks, 0, r);
}

} // verus!
