//! Request and response records of the gateway's wire protocol, their
//! mathematical views, and the pure query helpers over fetched history.

use vstd::prelude::*;
use crate::strutil::{spec_contains, str_eq, contains_substr, lemma_absent_first_char};

verus! {

/// One unit of recipients, message text and sender ID, dispatched together.
/// `numbers` is a comma-joined recipient list; no format validation is done
/// here, the remote service is the sole authority.
#[derive(Debug, Clone, PartialEq)]
pub struct MessageBag {
    pub numbers: String,
    pub message: String,
    pub sender: String,
}

/// Mathematical view of a [`MessageBag`].
pub struct MessageBagView {
    pub numbers: Seq<char>,
    pub message: Seq<char>,
    pub sender: Seq<char>,
}

impl View for MessageBag {
    type V = MessageBagView;

    open spec fn view(&self) -> MessageBagView {
        MessageBagView { numbers: self.numbers@, message: self.message@, sender: self.sender@ }
    }
}

/// Wraps one message bag, mirroring the wire shape `{"message_bag": {...}}`.
#[derive(Debug, Clone, PartialEq)]
pub struct MessageBagContainer {
    pub message_bag: MessageBag,
}

impl View for MessageBagContainer {
    type V = MessageBagView;

    open spec fn view(&self) -> MessageBagView {
        self.message_bag@
    }
}

/// An ordered sequence of message bags to be sent in one request; insertion
/// order is preserved and significant.
#[derive(Debug, Clone, PartialEq)]
pub struct MessageRequest {
    pub data: Vec<MessageBagContainer>,
}

impl View for MessageRequest {
    type V = Seq<MessageBagView>;

    open spec fn view(&self) -> Seq<MessageBagView> {
        self.data@.map_values(|c: MessageBagContainer| c@)
    }
}

impl MessageRequest {
    /// An empty request: no bags.
    pub fn new() -> (r: MessageRequest)
        ensures
            r@ =~= Seq::<MessageBagView>::empty(),
    {
        MessageRequest { data: Vec::new() }
    }

    /// Appends one bag; every earlier bag keeps its position, so the bag list
    /// always holds the appended bags in call order, one per call.
    pub fn add_message_bag(&mut self, numbers: String, message: String, sender: String)
        ensures
            final(self)@ =~= old(self)@.push(
                MessageBagView { numbers: numbers@, message: message@, sender: sender@ },
            ),
            final(self)@.len() == old(self)@.len() + 1,
    {
        let bag = MessageBag { numbers, message, sender };
        let container = MessageBagContainer { message_bag: bag };
        self.data.push(container);
    }
}

impl Default for MessageRequest {
    /// The default request is empty, as [`MessageRequest::new`] builds it.
    fn default() -> (r: MessageRequest)
        ensures
            r@ =~= Seq::<MessageBagView>::empty(),
    {
        MessageRequest::new()
    }
}

/// Date and time information returned by the gateway, kept verbatim.
#[derive(Debug, Clone, PartialEq)]
pub struct DateTime {
    pub date: String,
    pub timezone_type: i32,
    pub timezone: String,
}

/// Mathematical view of a [`DateTime`].
pub struct DateTimeView {
    pub date: Seq<char>,
    pub timezone_type: int,
    pub timezone: Seq<char>,
}

impl View for DateTime {
    type V = DateTimeView;

    open spec fn view(&self) -> DateTimeView {
        DateTimeView {
            date: self.date@,
            timezone_type: self.timezone_type as int,
            timezone: self.timezone@,
        }
    }
}

/// Metadata accompanying a successful messaging call.
#[derive(Debug, Clone, PartialEq)]
pub struct MessagingMetaInfo {
    pub recipients: i32,
    pub credits_deducted: i32,
    pub available_credits: String,
    pub user_email: String,
    pub date_time: DateTime,
}

/// Mathematical view of a [`MessagingMetaInfo`].
pub struct MessagingMetaInfoView {
    pub recipients: int,
    pub credits_deducted: int,
    pub available_credits: Seq<char>,
    pub user_email: Seq<char>,
    pub date_time: DateTimeView,
}

impl View for MessagingMetaInfo {
    type V = MessagingMetaInfoView;

    open spec fn view(&self) -> MessagingMetaInfoView {
        MessagingMetaInfoView {
            recipients: self.recipients as int,
            credits_deducted: self.credits_deducted as int,
            available_credits: self.available_credits@,
            user_email: self.user_email@,
            date_time: self.date_time@,
        }
    }
}

/// Metadata accompanying a successful balance call.
#[derive(Debug, Clone, PartialEq)]
pub struct BalanceMetaInfo {
    pub user: String,
    pub credits: i32,
    pub rate: i32,
    pub date_time: DateTime,
}

/// Mathematical view of a [`BalanceMetaInfo`].
pub struct BalanceMetaInfoView {
    pub user: Seq<char>,
    pub credits: int,
    pub rate: int,
    pub date_time: DateTimeView,
}

impl View for BalanceMetaInfo {
    type V = BalanceMetaInfoView;

    open spec fn view(&self) -> BalanceMetaInfoView {
        BalanceMetaInfoView {
            user: self.user@,
            credits: self.credits as int,
            rate: self.rate as int,
            date_time: self.date_time@,
        }
    }
}

/// Metadata accompanying a successful message-history call.
#[derive(Debug, Clone, PartialEq)]
pub struct MessageHistoryMetaInfo {
    pub user: String,
    pub date_time: DateTime,
}

/// Mathematical view of a [`MessageHistoryMetaInfo`].
pub struct MessageHistoryMetaInfoView {
    pub user: Seq<char>,
    pub date_time: DateTimeView,
}

impl View for MessageHistoryMetaInfo {
    type V = MessageHistoryMetaInfoView;

    open spec fn view(&self) -> MessageHistoryMetaInfoView {
        MessageHistoryMetaInfoView { user: self.user@, date_time: self.date_time@ }
    }
}

/// Status block present in every response: code, type and description.
/// The wire key of `type_` is the literal `type`.
#[derive(Debug, Clone, PartialEq)]
pub struct StatusInfo {
    pub code: String,
    pub type_: String,
    pub description: String,
}

/// Mathematical view of a [`StatusInfo`].
pub struct StatusInfoView {
    pub code: Seq<char>,
    pub type_: Seq<char>,
    pub description: Seq<char>,
}

impl View for StatusInfo {
    type V = StatusInfoView;

    open spec fn view(&self) -> StatusInfoView {
        StatusInfoView { code: self.code@, type_: self.type_@, description: self.description@ }
    }
}

/// Response of the messaging endpoint; `meta` is `None` exactly when the
/// remote call failed at the HTTP level.
#[derive(Debug, Clone, PartialEq)]
pub struct MessagingApiResponse {
    pub status: StatusInfo,
    pub meta: Option<MessagingMetaInfo>,
}

/// Mathematical view of a [`MessagingApiResponse`].
pub struct MessagingApiResponseView {
    pub status: StatusInfoView,
    pub meta: Option<MessagingMetaInfoView>,
}

impl View for MessagingApiResponse {
    type V = MessagingApiResponseView;

    open spec fn view(&self) -> MessagingApiResponseView {
        MessagingApiResponseView {
            status: self.status@,
            meta: match self.meta {
                Option::Some(m) => Option::Some(m@),
                Option::None => Option::None,
            },
        }
    }
}

/// Response of the balance endpoint.
#[derive(Debug, Clone, PartialEq)]
pub struct BalanceApiResponse {
    pub status: StatusInfo,
    pub meta: Option<BalanceMetaInfo>,
}

/// Mathematical view of a [`BalanceApiResponse`].
pub struct BalanceApiResponseView {
    pub status: StatusInfoView,
    pub meta: Option<BalanceMetaInfoView>,
}

impl View for BalanceApiResponse {
    type V = BalanceApiResponseView;

    open spec fn view(&self) -> BalanceApiResponseView {
        BalanceApiResponseView {
            status: self.status@,
            meta: match self.meta {
                Option::Some(m) => Option::Some(m@),
                Option::None => Option::None,
            },
        }
    }
}

/// One historical delivery record.
#[derive(Debug, Clone, PartialEq)]
pub struct MessageSent {
    pub id: i64,
    pub request_id: i64,
    pub number: String,
    pub message: String,
    pub user_id: i32,
    pub sender_id: String,
    pub transaction_id: String,
    pub message_count: i32,
    pub status: String,
    pub flag: String,
    pub created_at: String,
    pub updated_at: String,
    pub scheduled_date: String,
}

/// Mathematical view of a [`MessageSent`].
pub struct MessageSentView {
    pub id: int,
    pub request_id: int,
    pub number: Seq<char>,
    pub message: Seq<char>,
    pub user_id: int,
    pub sender_id: Seq<char>,
    pub transaction_id: Seq<char>,
    pub message_count: int,
    pub status: Seq<char>,
    pub flag: Seq<char>,
    pub created_at: Seq<char>,
    pub updated_at: Seq<char>,
    pub scheduled_date: Seq<char>,
}

impl View for MessageSent {
    type V = MessageSentView;

    open spec fn view(&self) -> MessageSentView {
        MessageSentView {
            id: self.id as int,
            request_id: self.request_id as int,
            number: self.number@,
            message: self.message@,
            user_id: self.user_id as int,
            sender_id: self.sender_id@,
            transaction_id: self.transaction_id@,
            message_count: self.message_count as int,
            status: self.status@,
            flag: self.flag@,
            created_at: self.created_at@,
            updated_at: self.updated_at@,
            scheduled_date: self.scheduled_date@,
        }
    }
}

impl DeepView for MessageSent {
    type V = MessageSentView;

    open spec fn deep_view(&self) -> MessageSentView {
        self.view()
    }
}

/// Paginated envelope around the history records.
#[derive(Debug, Clone, PartialEq)]
pub struct Items {
    pub total: i32,
    pub per_page: i32,
    pub current_page: i32,
    pub last_page: i32,
    pub next_page_url: Option<String>,
    pub prev_page_url: Option<String>,
    pub from: i32,
    pub to: i32,
    pub data: Vec<MessageSent>,
}

/// Mathematical view of an [`Items`] envelope.
pub struct ItemsView {
    pub total: int,
    pub per_page: int,
    pub current_page: int,
    pub last_page: int,
    pub next_page_url: Option<Seq<char>>,
    pub prev_page_url: Option<Seq<char>>,
    pub from: int,
    pub to: int,
    pub data: Seq<MessageSentView>,
}

impl View for Items {
    type V = ItemsView;

    open spec fn view(&self) -> ItemsView {
        ItemsView {
            total: self.total as int,
            per_page: self.per_page as int,
            current_page: self.current_page as int,
            last_page: self.last_page as int,
            next_page_url: match self.next_page_url {
                Option::Some(s) => Option::Some(s@),
                Option::None => Option::None,
            },
            prev_page_url: match self.prev_page_url {
                Option::Some(s) => Option::Some(s@),
                Option::None => Option::None,
            },
            from: self.from as int,
            to: self.to as int,
            data: self.data.deep_view(),
        }
    }
}

/// Response of the message-history endpoint.
#[derive(Debug, Clone, PartialEq)]
pub struct MessageHistoryApiResponse {
    pub status: StatusInfo,
    pub meta: Option<MessageHistoryMetaInfo>,
    pub items: Items,
}

/// Mathematical view of a [`MessageHistoryApiResponse`].
pub struct MessageHistoryApiResponseView {
    pub status: StatusInfoView,
    pub meta: Option<MessageHistoryMetaInfoView>,
    pub items: ItemsView,
}

impl View for MessageHistoryApiResponse {
    type V = MessageHistoryApiResponseView;

    open spec fn view(&self) -> MessageHistoryApiResponseView {
        MessageHistoryApiResponseView {
            status: self.status@,
            meta: match self.meta {
                Option::Some(m) => Option::Some(m@),
                Option::None => Option::None,
            },
            items: self.items@,
        }
    }
}

/// A record counts as delivered when its status is exactly
/// `DeliveredToTerminal`.
pub open spec fn is_delivered(m: MessageSentView) -> bool {
    m.status == "DeliveredToTerminal"@
}

/// A record counts as failed when its status contains `Blacklisted` or
/// `Invalid` as a substring (the service emits compound status strings).
pub open spec fn is_failed(m: MessageSentView) -> bool {
    spec_contains(m.status, "Blacklisted"@) || spec_contains(m.status, "Invalid"@)
}

/// The delivered records of `s`, in original order.
pub open spec fn delivered_of(s: Seq<MessageSentView>) -> Seq<MessageSentView> {
    s.filter(|m: MessageSentView| is_delivered(m))
}

/// The failed records of `s`, in original order.
pub open spec fn failed_of(s: Seq<MessageSentView>) -> Seq<MessageSentView> {
    s.filter(|m: MessageSentView| is_failed(m))
}

/// The records of `s` whose number equals `number` exactly, in original order.
pub open spec fn by_number_of(s: Seq<MessageSentView>, number: Seq<char>) -> Seq<MessageSentView> {
    s.filter(|m: MessageSentView| m.number == number)
}

proof fn lemma_filter_push(s: Seq<MessageSentView>, x: MessageSentView, pred: spec_fn(MessageSentView) -> bool)
    ensures
        s.push(x).filter(pred) == s.filter(pred) + (if pred(x) {
            seq![x]
        } else {
            Seq::<MessageSentView>::empty()
        }),
{
    reveal_with_fuel(Seq::filter, 2);
    assert(s.push(x).drop_last() =~= s);
    assert(s.push(x).last() == x);
    if pred(x) {
        assert(s.push(x).filter(pred) =~= s.filter(pred) + seq![x]);
    } else {
        assert(s.push(x).filter(pred) =~= s.filter(pred) + Seq::<MessageSentView>::empty());
    }
}

impl MessageHistoryApiResponse {
    /// Returns the records whose status is exactly `DeliveredToTerminal`,
    /// borrowed from the response, in original order.
    pub fn get_delivered_messages(&self) -> (r: Vec<&MessageSent>)
        ensures
            r.deep_view() == delivered_of(self.items.data.deep_view()),
    {
        let ghost all = self.items.data.deep_view();
        let ghost pred = |m: MessageSentView| is_delivered(m);
        let mut r: Vec<&MessageSent> = Vec::new();
        let mut i: usize = 0;
        while i < self.items.data.len()
            invariant
                i <= self.items.data@.len(),
                all == self.items.data.deep_view(),
                pred == (|m: MessageSentView| is_delivered(m)),
                r.deep_view() == all.subrange(0, i as int).filter(pred),
            decreases self.items.data@.len() - i,
        {
            let m = &self.items.data[i];
            proof {
                assert(all.subrange(0, i + 1) =~= all.subrange(0, i as int).push(all[i as int]));
                lemma_filter_push(all.subrange(0, i as int), all[i as int], pred);
                assert(all[i as int] == m.deep_view());
            }
            if str_eq(m.status.as_str(), "DeliveredToTerminal") {
                let ghost old_r = r.deep_view();
                r.push(m);
                proof {
                    assert(r.deep_view() =~= old_r.push(m.deep_view()));
                    assert(r.deep_view() =~= all.subrange(0, i + 1).filter(pred));
                }
            } else {
                proof {
                    assert(r.deep_view() =~= all.subrange(0, i + 1).filter(pred));
                }
            }
            i = i + 1;
        }
        proof {
            assert(all.subrange(0, i as int) =~= all);
        }
        r
    }

    /// Returns the records whose status contains `Blacklisted` or `Invalid`,
    /// borrowed from the response, in original order.
    pub fn get_failed_messages(&self) -> (r: Vec<&MessageSent>)
        ensures
            r.deep_view() == failed_of(self.items.data.deep_view()),
    {
        let ghost all = self.items.data.deep_view();
        let ghost pred = |m: MessageSentView| is_failed(m);
        let mut r: Vec<&MessageSent> = Vec::new();
        let mut i: usize = 0;
        while i < self.items.data.len()
            invariant
                i <= self.items.data@.len(),
                all == self.items.data.deep_view(),
                pred == (|m: MessageSentView| is_failed(m)),
                r.deep_view() == all.subrange(0, i as int).filter(pred),
            decreases self.items.data@.len() - i,
        {
            let m = &self.items.data[i];
            proof {
                assert(all.subrange(0, i + 1) =~= all.subrange(0, i as int).push(all[i as int]));
                lemma_filter_push(all.subrange(0, i as int), all[i as int], pred);
                assert(all[i as int] == m.deep_view());
            }
            if contains_substr(m.status.as_str(), "Blacklisted")
                || contains_substr(m.status.as_str(), "Invalid") {
                let ghost old_r = r.deep_view();
                r.push(m);
                proof {
                    assert(r.deep_view() =~= old_r.push(m.deep_view()));
                    assert(r.deep_view() =~= all.subrange(0, i + 1).filter(pred));
                }
            } else {
                proof {
                    assert(r.deep_view() =~= all.subrange(0, i + 1).filter(pred));
                }
            }
            i = i + 1;
        }
        proof {
            assert(all.subrange(0, i as int) =~= all);
        }
        r
    }

    /// Returns the records whose number equals `number` exactly (no
    /// normalization), borrowed from the response, in original order.
    pub fn get_messages_by_number(&self, number: &str) -> (r: Vec<&MessageSent>)
        ensures
            r.deep_view() == by_number_of(self.items.data.deep_view(), number@),
    {
        let ghost all = self.items.data.deep_view();
        let ghost pred = |m: MessageSentView| m.number == number@;
        let mut r: Vec<&MessageSent> = Vec::new();
        let mut i: usize = 0;
        while i < self.items.data.len()
            invariant
                i <= self.items.data@.len(),
                all == self.items.data.deep_view(),
                pred == (|m: MessageSentView| m.number == number@),
                r.deep_view() == all.subrange(0, i as int).filter(pred),
            decreases self.items.data@.len() - i,
        {
            let m = &self.items.data[i];
            proof {
                assert(all.subrange(0, i + 1) =~= all.subrange(0, i as int).push(all[i as int]));
                lemma_filter_push(all.subrange(0, i as int), all[i as int], pred);
                assert(all[i as int] == m.deep_view());
            }
            if str_eq(m.number.as_str(), number) {
                let ghost old_r = r.deep_view();
                r.push(m);
                proof {
                    assert(r.deep_view() =~= old_r.push(m.deep_view()));
                    assert(r.deep_view() =~= all.subrange(0, i + 1).filter(pred));
                }
            } else {
                proof {
                    assert(r.deep_view() =~= all.subrange(0, i + 1).filter(pred));
                }
            }
            i = i + 1;
        }
        proof {
            assert(all.subrange(0, i as int) =~= all);
        }
        r
    }
}

/// A delivered record is never a failed one: the literal delivered status
/// contains neither `Blacklisted` nor `Invalid`.
pub proof fn lemma_delivered_not_failed(m: MessageSentView)
    ensures
        is_delivered(m) ==> !is_failed(m),
{
    if is_delivered(m) {
        reveal_strlit("DeliveredToTerminal");
        reveal_strlit("Blacklisted");
        reveal_strlit("Invalid");
        let d = "DeliveredToTerminal"@;
        assert forall|i: int| 0 <= i < d.len() implies d[i] != "Blacklisted"@[0] by {
            assert(d.len() == 19);
        }
        assert forall|i: int| 0 <= i < d.len() implies d[i] != "Invalid"@[0] by {
            assert(d.len() == 19);
        }
        lemma_absent_first_char(d, "Blacklisted"@);
        lemma_absent_first_char(d, "Invalid"@);
    }
}

/// The delivered and the failed projections of one record list are disjoint:
/// no record of `delivered_of(s)` occurs in `failed_of(s)`. They need not
/// cover `s`: a record may be in neither.
pub proof fn lemma_delivered_failed_disjoint(s: Seq<MessageSentView>)
    ensures
        forall|i: int|
            0 <= i < delivered_of(s).len() ==> !failed_of(s).contains(
                #[trigger] delivered_of(s)[i],
            ),
{
    broadcast use vstd::seq_lib::group_filter_ensures;

    assert forall|i: int| 0 <= i < delivered_of(s).len() implies !failed_of(s).contains(
        delivered_of(s)[i],
    ) by {
        let m = delivered_of(s)[i];
        assert(is_delivered(m));
        lemma_delivered_not_failed(m);
        if failed_of(s).contains(m) {
            let j = choose|j: int| 0 <= j < failed_of(s).len() && failed_of(s)[j] == m;
            assert(is_failed(failed_of(s)[j]));
        }
    }
}

} // verus!
