//! The operations that a client sends and the messages that answer them.
//!
//! Requests and messages are plain values.  Each request makes its own
//! answers, and the contract of each maker states the whole message.

use ldap3_proto::proto::{LdapFilter, LdapSearchScope};
use vstd::prelude::*;
use vstd::utf8::encode_utf8;

verus! {

/// `ldap3_proto::proto::LdapSearchScope`, the scope of a search.  The library
/// carries such a value in a request and never looks into it.
#[verifier::external_type_specification]
#[verifier::external_body]
pub struct ExLdapSearchScope(LdapSearchScope);

/// `ldap3_proto::proto::LdapFilter`, the filter of a search.  The library
/// carries such a value in a request and never looks into it.
#[verifier::external_type_specification]
#[verifier::external_body]
pub struct ExLdapFilter(LdapFilter);

/// A bind with a name and a password.
pub struct SimpleBindRequest {
    pub msgid: i32,
    pub dn: String,
    pub pw: String,
}

/// A search below `base` for the attributes `attrs`.  Scope and filter are
/// carried, not evaluated.
#[derive(Debug, PartialEq)]
pub struct SearchRequest {
    pub msgid: i32,
    pub base: String,
    pub scope: LdapSearchScope,
    pub filter: LdapFilter,
    pub attrs: Vec<String>,
}

/// The end of the session.
#[derive(Clone, Copy, Debug, PartialEq, Eq)]
pub struct UnbindRequest;

/// The question who the connection is bound as.
#[derive(Clone, Copy, Debug, PartialEq, Eq)]
pub struct WhoamiRequest {
    pub msgid: i32,
}

/// One decoded operation.
pub enum ServerOps {
    Search(SearchRequest),
    SimpleBind(SimpleBindRequest),
    Unbind(UnbindRequest),
    Whoami(WhoamiRequest),
}

/// The result codes that the handler answers with.
#[derive(Clone, Copy, Debug, PartialEq, Eq, Structural)]
pub enum LdapResultCode {
    Success,
    OperationsError,
    NoSuchAttribute,
    InvalidCredentials,
    Other,
}

/// The result of an operation: its code and a text for the reader.
#[derive(Clone, Debug, PartialEq, Eq)]
pub struct LdapResult {
    pub code: LdapResultCode,
    pub matcheddn: String,
    pub message: String,
    pub referral: Vec<String>,
}

/// The answer to a bind.
#[derive(Clone, Debug, PartialEq, Eq)]
pub struct LdapBindResponse {
    pub res: LdapResult,
    pub saslcreds: Option<String>,
}

/// The answer to an extended operation.
#[derive(Clone, Debug, PartialEq, Eq)]
pub struct LdapExtendedResponse {
    pub res: LdapResult,
    pub name: Option<String>,
    pub value: Option<Vec<u8>>,
}

/// One attribute of a result entry: its name and its values.
#[derive(Clone, Debug, PartialEq, Eq)]
pub struct LdapPartialAttribute {
    pub atype: String,
    pub vals: Vec<String>,
}

/// One entry of a search result: its name and its attributes, in the order
/// in which they were asked for.
#[derive(Clone, Debug, PartialEq, Eq)]
pub struct LdapSearchResultEntry {
    pub dn: String,
    pub attributes: Vec<LdapPartialAttribute>,
}

/// What a message says.
#[derive(Clone, Debug, PartialEq, Eq)]
pub enum LdapOp {
    BindResponse(LdapBindResponse),
    SearchResultEntry(LdapSearchResultEntry),
    SearchResultDone(LdapResult),
    ExtendedResponse(LdapExtendedResponse),
}

/// One message to the client, in answer to the request `msgid`.
#[derive(Clone, Debug, PartialEq, Eq)]
pub struct LdapMsg {
    pub msgid: i32,
    pub op: LdapOp,
}

/// The model of the attributes of an entry: name and values of each.
pub type AttributesView = Seq<(Seq<char>, Seq<Seq<char>>)>;

/// The model of a result entry: its name and its attributes.
pub type EntryView = (Seq<char>, AttributesView);

/// The model of a result.
pub struct LdapResultView {
    pub code: LdapResultCode,
    pub matcheddn: Seq<char>,
    pub message: Seq<char>,
    pub referral: Seq<Seq<char>>,
}

/// The model of what a message says.
pub enum LdapOpView {
    BindResponse { res: LdapResultView, saslcreds: Option<Seq<char>> },
    SearchResultEntry { entry: EntryView },
    SearchResultDone { res: LdapResultView },
    ExtendedResponse { res: LdapResultView, name: Option<Seq<char>>, value: Option<Seq<u8>> },
}

/// The model of a message.
pub struct LdapMsgView {
    pub msgid: i32,
    pub op: LdapOpView,
}

impl DeepView for LdapResult {
    type V = LdapResultView;

    open spec fn deep_view(&self) -> LdapResultView {
        LdapResultView {
            code: self.code,
            matcheddn: self.matcheddn@,
            message: self.message@,
            referral: self.referral.deep_view(),
        }
    }
}

impl DeepView for LdapPartialAttribute {
    type V = (Seq<char>, Seq<Seq<char>>);

    open spec fn deep_view(&self) -> Self::V {
        (self.atype@, self.vals.deep_view())
    }
}

impl DeepView for LdapSearchResultEntry {
    type V = EntryView;

    open spec fn deep_view(&self) -> EntryView {
        (self.dn@, self.attributes.deep_view())
    }
}

impl DeepView for LdapOp {
    type V = LdapOpView;

    open spec fn deep_view(&self) -> LdapOpView {
        match self {
            LdapOp::BindResponse(response) => LdapOpView::BindResponse {
                res: response.res.deep_view(),
                saslcreds: response.saslcreds.deep_view(),
            },
            LdapOp::SearchResultEntry(entry) => LdapOpView::SearchResultEntry {
                entry: entry.deep_view(),
            },
            LdapOp::SearchResultDone(res) => LdapOpView::SearchResultDone { res: res.deep_view() },
            LdapOp::ExtendedResponse(response) => LdapOpView::ExtendedResponse {
                res: response.res.deep_view(),
                name: response.name.deep_view(),
                value: response.value.deep_view(),
            },
        }
    }
}

impl DeepView for LdapMsg {
    type V = LdapMsgView;

    open spec fn deep_view(&self) -> LdapMsgView {
        LdapMsgView { msgid: self.msgid, op: self.op.deep_view() }
    }
}

/// The result with this code and this text, which matches no name and
/// refers nowhere.
pub open spec fn plain_result(code: LdapResultCode, message: Seq<char>) -> LdapResultView {
    LdapResultView { code, matcheddn: Seq::empty(), message, referral: Seq::empty() }
}

/// The answer to the bind `msgid` with this code: no text, no credentials.
pub open spec fn bind_response(msgid: i32, code: LdapResultCode) -> LdapMsgView {
    LdapMsgView {
        msgid,
        op: LdapOpView::BindResponse { res: plain_result(code, Seq::empty()), saslcreds: None },
    }
}

/// The message that carries one entry in answer to the search `msgid`.
pub open spec fn search_result_entry(msgid: i32, entry: EntryView) -> LdapMsgView {
    LdapMsgView { msgid, op: LdapOpView::SearchResultEntry { entry } }
}

/// The message that ends the answer to the search `msgid`, with this code
/// and this text.
pub open spec fn search_result_done(
    msgid: i32,
    code: LdapResultCode,
    message: Seq<char>,
) -> LdapMsgView {
    LdapMsgView { msgid, op: LdapOpView::SearchResultDone { res: plain_result(code, message) } }
}

/// The answer to the question `msgid` of a connection that is bound: code
/// `Success`, and as value the bytes of the authorization identity.
pub open spec fn whoami_success(msgid: i32, authzid: Seq<char>) -> LdapMsgView {
    LdapMsgView {
        msgid,
        op: LdapOpView::ExtendedResponse {
            res: plain_result(LdapResultCode::Success, Seq::empty()),
            name: None,
            value: Some(encode_utf8(authzid)),
        },
    }
}

/// The answer to the question `msgid` that could not be answered: code
/// `OperationsError`, this text and no value.
pub open spec fn whoami_error(msgid: i32, message: Seq<char>) -> LdapMsgView {
    LdapMsgView {
        msgid,
        op: LdapOpView::ExtendedResponse {
            res: plain_result(LdapResultCode::OperationsError, message),
            name: None,
            value: None,
        },
    }
}

impl LdapResult {
    /// The result with this code and this text, which matches no name and
    /// refers nowhere.
    pub fn plain(code: LdapResultCode, message: String) -> (res: LdapResult)
        ensures
            res.deep_view() == plain_result(code, message@),
    {
        let res = LdapResult { code, matcheddn: String::new(), message, referral: Vec::new() };
        assert(res.referral.deep_view() == Seq::<Seq<char>>::empty());
        res
    }
}

impl SimpleBindRequest {
    /// The answer to this bind where it succeeded.
    pub fn gen_success(&self) -> (msg: LdapMsg)
        ensures
            msg.deep_view() == bind_response(self.msgid, LdapResultCode::Success),
    {
        LdapMsg {
            msgid: self.msgid,
            op: LdapOp::BindResponse(
                LdapBindResponse {
                    res: LdapResult::plain(LdapResultCode::Success, String::new()),
                    saslcreds: None,
                },
            ),
        }
    }

    /// The answer to this bind where the credentials were not accepted.
    pub fn gen_invalid_cred(&self) -> (msg: LdapMsg)
        ensures
            msg.deep_view() == bind_response(self.msgid, LdapResultCode::InvalidCredentials),
    {
        LdapMsg {
            msgid: self.msgid,
            op: LdapOp::BindResponse(
                LdapBindResponse {
                    res: LdapResult::plain(LdapResultCode::InvalidCredentials, String::new()),
                    saslcreds: None,
                },
            ),
        }
    }
}

impl SearchRequest {
    /// The message that carries `entry` in answer to this search.
    pub fn gen_result_entry(&self, entry: LdapSearchResultEntry) -> (msg: LdapMsg)
        ensures
            msg.deep_view() == search_result_entry(self.msgid, entry.deep_view()),
    {
        LdapMsg { msgid: self.msgid, op: LdapOp::SearchResultEntry(entry) }
    }

    /// The message that ends the answer to this search where it succeeded.
    pub fn gen_success(&self) -> (msg: LdapMsg)
        ensures
            msg.deep_view() == search_result_done(
                self.msgid,
                LdapResultCode::Success,
                Seq::empty(),
            ),
    {
        LdapMsg {
            msgid: self.msgid,
            op: LdapOp::SearchResultDone(
                LdapResult::plain(LdapResultCode::Success, String::new()),
            ),
        }
    }

    /// The message that ends the answer to this search where it failed with
    /// the code `rc` and the text `msg`.
    pub fn gen_error(&self, rc: LdapResultCode, msg: String) -> (answer: LdapMsg)
        ensures
            answer.deep_view() == search_result_done(self.msgid, rc, msg@),
    {
        LdapMsg { msgid: self.msgid, op: LdapOp::SearchResultDone(LdapResult::plain(rc, msg)) }
    }
}

impl WhoamiRequest {
    /// The answer to this question for a connection with the authorization
    /// identity `authzid`.
    pub fn gen_success(&self, authzid: &str) -> (msg: LdapMsg)
        ensures
            msg.deep_view() == whoami_success(self.msgid, authzid@),
    {
        let bytes = authzid.as_bytes_vec();
        assert(bytes.deep_view() == encode_utf8(authzid@));
        LdapMsg {
            msgid: self.msgid,
            op: LdapOp::ExtendedResponse(
                LdapExtendedResponse {
                    res: LdapResult::plain(LdapResultCode::Success, String::new()),
                    name: None,
                    value: Some(bytes),
                },
            ),
        }
    }

    /// The answer to this question where it cannot be answered, with the
    /// text `msg`.
    pub fn gen_operror(&self, msg: &str) -> (answer: LdapMsg)
        ensures
            answer.deep_view() == whoami_error(self.msgid, msg@),
    {
        LdapMsg {
            msgid: self.msgid,
            op: LdapOp::ExtendedResponse(
                LdapExtendedResponse {
                    res: LdapResult::plain(LdapResultCode::OperationsError, msg.to_owned()),
                    name: None,
                    value: None,
                },
            ),
        }
    }
}

} // verus!
