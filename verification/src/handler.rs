//! The handler of one connection: its authentication state and the answer
//! to each operation.

use crate::attributes::{
    attribute_values, entry_dn, law_projection_fails_on_leftmost,
    law_support_is_the_same_for_all_users, make_ldap_search_result_entry, projected_attributes,
    unsupported_attribute_text,
};
use crate::backend::{AuthError, BackendError, BackendHandler, BindRequest, ListUsersRequest, User};
use crate::dn::{is_subtree, parse_distinguished_name, parsed_dn, subtree_of, DnView, ParseError};
use crate::protocol::{
    bind_response, search_result_done, search_result_entry, whoami_error, whoami_success,
    EntryView, LdapMsg, LdapMsgView, LdapResultCode, SearchRequest, ServerOps, SimpleBindRequest,
    WhoamiRequest,
};
use vstd::prelude::*;

verus! {

/// Who a connection is bound as.
#[derive(Clone, Debug, PartialEq, Eq)]
pub enum AuthenticationState {
    /// No bind has succeeded yet.
    Unauthenticated,
    /// The last successful bind was made under this name.
    Bound(String),
}

/// The text that reports a search base that is no distinguished name.
pub open spec fn unparsable_base_text(base: Seq<char>) -> Seq<char> {
    "Could not parse base DN: \""@ + base + "\""@
}

/// The text that reports a backend that could not list its users.
pub open spec fn backend_failure_text(base: Seq<char>, error: Seq<char>) -> Seq<char> {
    "Error during search for \""@ + base + "\": "@ + error
}

/// The authorization identity of a connection bound as `name`.
pub open spec fn authorization_identity(name: Seq<char>) -> Seq<char> {
    "dn: "@ + name
}

/// The result entries of `users`, one for each user and in their order, each
/// named below `base` and holding the attributes `names`; or the name of the
/// attribute on which the leftmost user fails.
pub open spec fn result_entries(users: Seq<User>, base: Seq<char>, names: Seq<Seq<char>>) -> Result<
    Seq<EntryView>,
    Seq<char>,
>
    decreases users.len(),
{
    if users.len() == 0 {
        Ok(Seq::empty())
    } else {
        match result_entries(users.drop_last(), base, names) {
            Err(name) => Err(name),
            Ok(front) => match projected_attributes(&users.last(), names) {
                Ok(attributes) => Ok(
                    front.push((entry_dn(users.last().user_id@, base), attributes)),
                ),
                Err(name) => Err(name),
            },
        }
    }
}

/// The messages that carry `entries` in answer to the request `msgid`.
pub open spec fn entry_messages(msgid: i32, entries: Seq<EntryView>) -> Seq<LdapMsgView> {
    entries.map_values(|e: EntryView| search_result_entry(msgid, e))
}

/// The answer to a search in scope, given what the backend returned for its
/// users.
///
/// A backend failure is answered by one message with code `Other`.  Else
/// each user makes one entry; if all do, their messages are followed by one
/// success message, and if one does not, the answer is one message with code
/// `NoSuchAttribute` and no entry at all.
pub open spec fn search_reply(
    lsr: &SearchRequest,
    base: Seq<char>,
    outcome: Result<Vec<User>, BackendError>,
) -> Seq<LdapMsgView> {
    match outcome {
        Err(e) => seq![
            search_result_done(
                lsr.msgid,
                LdapResultCode::Other,
                backend_failure_text(lsr.base@, e.message@),
            ),
        ],
        Ok(users) => match result_entries(users@, base, lsr.attrs.deep_view()) {
            Ok(entries) => entry_messages(lsr.msgid, entries).push(
                search_result_done(lsr.msgid, LdapResultCode::Success, Seq::empty()),
            ),
            Err(name) => seq![
                search_result_done(
                    lsr.msgid,
                    LdapResultCode::NoSuchAttribute,
                    unsupported_attribute_text(name),
                ),
            ],
        },
    }
}

/// The name that a connection is bound as after a bind under `name`: that
/// name where the backend accepted the bind, else the name as before.
pub open spec fn principal_after_bind(
    before: Option<Seq<char>>,
    name: Seq<char>,
    accepted: bool,
) -> Option<Seq<char>> {
    if accepted {
        Some(name)
    } else {
        before
    }
}

/// The answer to the question `msgid` of a connection bound as `principal`:
/// the error message with the text `Unauthenticated` where it is not bound,
/// else the success message with its authorization identity.
pub open spec fn whoami_reply(principal: Option<Seq<char>>, msgid: i32) -> LdapMsgView {
    match principal {
        None => whoami_error(msgid, "Unauthenticated"@),
        Some(name) => whoami_success(msgid, authorization_identity(name)),
    }
}

/// The answer to the bind `msgid`: the success message where the backend
/// accepted it, else the message that the credentials are invalid.
pub open spec fn bind_reply(msgid: i32, accepted: bool) -> LdapMsgView {
    if accepted {
        bind_response(msgid, LdapResultCode::Success)
    } else {
        bind_response(msgid, LdapResultCode::InvalidCredentials)
    }
}

impl AuthenticationState {
    /// The name that the connection is bound as, if it is bound.
    pub open spec fn principal(&self) -> Option<Seq<char>> {
        match self {
            AuthenticationState::Unauthenticated => None,
            AuthenticationState::Bound(name) => Some(name@),
        }
    }

    /// The state after a bind that the backend answered with `outcome`, and
    /// the message that answers the client.
    ///
    /// An accepted bind binds the connection as the request's name.  A
    /// rejected one changes nothing, and the answer says no more than that
    /// the credentials are invalid.
    pub fn bind_outcome(&mut self, sbr: &SimpleBindRequest, outcome: Result<(), AuthError>) -> (msg:
        LdapMsg)
        ensures
            final(self).principal() == principal_after_bind(
                old(self).principal(),
                sbr.dn@,
                outcome is Ok,
            ),
            outcome is Err ==> *final(self) == *old(self),
            msg.deep_view() == bind_reply(sbr.msgid, outcome is Ok),
    {
        match outcome {
            Ok(()) => {
                *self = AuthenticationState::Bound(sbr.dn.clone());
                sbr.gen_success()
            },
            Err(_) => sbr.gen_invalid_cred(),
        }
    }

    /// The answer to the question who the connection is bound as.
    pub fn whoami(&self, wr: &WhoamiRequest) -> (msg: LdapMsg)
        ensures
            msg.deep_view() == whoami_reply(self.principal(), wr.msgid),
    {
        match self {
            AuthenticationState::Unauthenticated => wr.gen_operror("Unauthenticated"),
            AuthenticationState::Bound(name) => {
                let mut authzid = "dn: ".to_owned();
                authzid.append(name.as_str());
                wr.gen_success(authzid.as_str())
            },
        }
    }
}

/// The credentials that a bind hands to the backend: the name and the
/// password of the request, as they stand.
pub fn bind_credentials(sbr: &SimpleBindRequest) -> (request: BindRequest)
    ensures
        request.name@ == sbr.dn@,
        request.password@ == sbr.pw@,
{
    BindRequest { name: sbr.dn.clone(), password: sbr.pw.clone() }
}

/// Once a prefix of the users fails, the whole fails, with that name.
proof fn lemma_failed_entry_persists(
    users: Seq<User>,
    base: Seq<char>,
    names: Seq<Seq<char>>,
    k: int,
)
    requires
        0 <= k <= users.len(),
        result_entries(users.take(k), base, names) is Err,
    ensures
        result_entries(users, base, names) == result_entries(users.take(k), base, names),
    decreases users.len() - k,
{
    if k == users.len() {
        assert(users.take(k) == users);
    } else {
        assert(users.take(k + 1).drop_last() == users.take(k));
        lemma_failed_entry_persists(users, base, names, k + 1);
    }
}

/// Answers a search in scope from what the backend returned for its users.
pub fn search_response(
    lsr: &SearchRequest,
    base_dn_str: &str,
    outcome: Result<Vec<User>, BackendError>,
) -> (msgs: Vec<LdapMsg>)
    ensures
        msgs.deep_view() == search_reply(lsr, base_dn_str@, outcome),
{
    match outcome {
        Err(e) => {
            let mut text = "Error during search for \"".to_owned();
            text.append(lsr.base.as_str());
            text.append("\": ");
            text.append(e.message.as_str());
            let msg = lsr.gen_error(LdapResultCode::Other, text);
            let msgs = vec![msg];
            assert(msgs.deep_view() == seq![msg.deep_view()]);
            msgs
        },
        Ok(users) => {
            let ghost names = lsr.attrs.deep_view();
            let ghost mut entries: Seq<EntryView> = Seq::empty();
            let mut msgs: Vec<LdapMsg> = Vec::new();
            let mut i: usize = 0;
            proof {
                assert(users@.take(0) == Seq::<User>::empty());
                assert(msgs.deep_view() == entry_messages(lsr.msgid, entries));
            }
            while i < users.len()
                invariant
                    i <= users.len(),
                    outcome == Ok::<Vec<User>, BackendError>(users),
                    names == lsr.attrs.deep_view(),
                    result_entries(users@.take(i as int), base_dn_str@, names) == Ok::<
                        Seq<EntryView>,
                        Seq<char>,
                    >(entries),
                    msgs.deep_view() == entry_messages(lsr.msgid, entries),
                decreases users.len() - i,
            {
                proof {
                    assert(users@.take(i + 1).drop_last() == users@.take(i as int));
                    assert(users@.take(i + 1).last() == users@[i as int]);
                }
                match make_ldap_search_result_entry(&users[i], base_dn_str, lsr.attrs.as_slice()) {
                    Ok(entry) => {
                        let ghost added = entry.deep_view();
                        let ghost before = msgs.deep_view();
                        let msg = lsr.gen_result_entry(entry);
                        msgs.push(msg);
                        proof {
                            assert(msgs.deep_view() == before.push(msg.deep_view()));
                            assert(entry_messages(lsr.msgid, entries.push(added))
                                == entry_messages(lsr.msgid, entries).push(
                                search_result_entry(lsr.msgid, added),
                            ));
                            entries = entries.push(added);
                        }
                    },
                    Err(e) => {
                        proof {
                            assert(result_entries(users@.take(i + 1), base_dn_str@, names) == Err::<
                                Seq<EntryView>,
                                Seq<char>,
                            >(e.name@));
                            lemma_failed_entry_persists(users@, base_dn_str@, names, i + 1);
                        }
                        let msg = lsr.gen_error(LdapResultCode::NoSuchAttribute, e.message());
                        let msgs = vec![msg];
                        assert(msgs.deep_view() == seq![msg.deep_view()]);
                        return msgs;
                    },
                }
                i += 1;
            }
            assert(users@.take(i as int) == users@);
            let ghost before = msgs.deep_view();
            let done = lsr.gen_success();
            msgs.push(done);
            assert(msgs.deep_view() == before.push(done.deep_view()));
            msgs
        },
    }
}

/// The handler of one connection.  It answers each operation from its
/// authentication state, the configured base and the backend.
pub struct LdapHandler<Backend: BackendHandler> {
    state: AuthenticationState,
    backend_handler: Backend,
    pub base_dn: Vec<(String, String)>,
    base_dn_str: String,
}

impl<Backend: BackendHandler> LdapHandler<Backend> {
    /// The name that the connection is bound as, if it is bound.
    pub closed spec fn principal(&self) -> Option<Seq<char>> {
        self.state.principal()
    }

    /// The backend that the handler asks.
    pub closed spec fn backend(&self) -> Backend {
        self.backend_handler
    }

    /// The configured base.
    pub closed spec fn base(&self) -> DnView {
        self.base_dn.deep_view()
    }

    /// The text of the configured base, as it was given.
    pub closed spec fn base_text(&self) -> Seq<char> {
        self.base_dn_str@
    }

    /// The configured base is what its text parses to.  `new` makes it so,
    /// and no operation changes either of the two.
    pub open spec fn well_formed(&self) -> bool {
        parsed_dn(self.base_text()) == Ok::<DnView, ParseError>(self.base())
    }

    /// An operation left the connection as it was: bound as before, with the
    /// same base.  Of the backend this says nothing.
    pub open spec fn same_connection(before: Self, after: Self) -> bool {
        &&& after.principal() == before.principal()
        &&& after.base() == before.base()
        &&& after.base_text() == before.base_text()
    }

    /// Whether the base of a search is a distinguished name in the configured
    /// tree.  Only such a search reaches the backend.
    pub open spec fn in_scope(self, lsr: &SearchRequest) -> bool {
        parsed_dn(lsr.base@) matches Ok(dn) && subtree_of(dn, self.base())
    }

    /// What a bind does, whatever the backend says: where it accepts, the
    /// connection is bound as the request's name and the answer is the
    /// success message; where it does not, nothing changes and the answer is
    /// the invalid-credentials message.  The base stays.
    pub open spec fn bind_effect(
        before: Self,
        after: Self,
        sbr: &SimpleBindRequest,
        msg: LdapMsgView,
    ) -> bool {
        &&& after.base() == before.base()
        &&& after.base_text() == before.base_text()
        &&& exists|accepted: bool|
            {
                &&& after.principal() == #[trigger] principal_after_bind(
                    before.principal(),
                    sbr.dn@,
                    accepted,
                )
                &&& msg == bind_reply(sbr.msgid, accepted)
            }
    }

    /// What a search answers.  A base that is no distinguished name gets one
    /// message with code `OperationsError`; a base outside the configured
    /// tree gets one success message and no entry; a base inside gets the
    /// answer to what the backend returned, whatever that was.  Scope and
    /// filter of the request decide nothing.
    pub open spec fn search_answer(self, lsr: &SearchRequest, msgs: Seq<LdapMsgView>) -> bool {
        match parsed_dn(lsr.base@) {
            Err(_) => msgs == seq![
                search_result_done(
                    lsr.msgid,
                    LdapResultCode::OperationsError,
                    unparsable_base_text(lsr.base@),
                ),
            ],
            Ok(dn) => if !subtree_of(dn, self.base()) {
                msgs == seq![search_result_done(lsr.msgid, LdapResultCode::Success, Seq::empty())]
            } else {
                exists|outcome: Result<Vec<User>, BackendError>|
                    msgs == #[trigger] search_reply(lsr, self.base_text(), outcome)
            },
        }
    }

    /// What the question for the bound name answers: the error message with
    /// the text `Unauthenticated` before any bind has succeeded, else the
    /// success message with the authorization identity.
    pub open spec fn whoami_answer(self, wr: &WhoamiRequest) -> LdapMsgView {
        whoami_reply(self.principal(), wr.msgid)
    }

    /// Makes the handler of a new connection over `backend_handler`, with
    /// the base whose text is `ldap_base_dn`.
    pub fn new(backend_handler: Backend, ldap_base_dn: String) -> (handler: Self)
        requires
            parsed_dn(ldap_base_dn@) is Ok,
        ensures
            handler.principal() is None,
            handler.backend() == backend_handler,
            handler.base_text() == ldap_base_dn@,
            handler.well_formed(),
    {
        let base_dn = parse_distinguished_name(ldap_base_dn.as_str()).unwrap();
        Self {
            state: AuthenticationState::Unauthenticated,
            backend_handler,
            base_dn,
            base_dn_str: ldap_base_dn,
        }
    }

    /// Answers a bind: asks the backend, and binds the connection where it
    /// accepts.
    pub fn do_bind(&mut self, sbr: &SimpleBindRequest) -> (msg: LdapMsg)
        ensures
            Self::bind_effect(*old(self), *final(self), sbr, msg.deep_view()),
    {
        let outcome = self.backend_handler.bind(bind_credentials(sbr));
        self.state.bind_outcome(sbr, outcome)
    }

    /// Answers a search.
    pub fn do_search(&mut self, lsr: &SearchRequest) -> (msgs: Vec<LdapMsg>)
        ensures
            old(self).search_answer(lsr, msgs.deep_view()),
            Self::same_connection(*old(self), *final(self)),
            !old(self).in_scope(lsr) ==> *final(self) == *old(self),
    {
        let dn_parts = match parse_distinguished_name(lsr.base.as_str()) {
            Ok(dn) => dn,
            Err(_) => {
                let mut text = "Could not parse base DN: \"".to_owned();
                text.append(lsr.base.as_str());
                text.append("\"");
                let msg = lsr.gen_error(LdapResultCode::OperationsError, text);
                let msgs = vec![msg];
                assert(msgs.deep_view() == seq![msg.deep_view()]);
                return msgs;
            },
        };
        if !is_subtree(dn_parts.as_slice(), self.base_dn.as_slice()) {
            let msg = lsr.gen_success();
            let msgs = vec![msg];
            assert(msgs.deep_view() == seq![msg.deep_view()]);
            return msgs;
        }
        let outcome = self.backend_handler.list_users(ListUsersRequest {  });
        let msgs = search_response(lsr, self.base_dn_str.as_str(), outcome);
        assert(msgs.deep_view() == search_reply(lsr, old(self).base_text(), outcome));
        msgs
    }

    /// Answers the question who the connection is bound as.
    pub fn do_whoami(&mut self, wr: &WhoamiRequest) -> (msg: LdapMsg)
        ensures
            msg.deep_view() == old(self).whoami_answer(wr),
            *final(self) == *old(self),
    {
        self.state.whoami(wr)
    }

    /// Answers one operation.  An unbind gets no answer at all; every other
    /// operation gets the messages of its own answer.
    pub fn handle_ldap_message(&mut self, server_op: ServerOps) -> (answer: Option<Vec<LdapMsg>>)
        ensures
            match server_op {
                ServerOps::SimpleBind(sbr) => {
                    &&& answer is Some
                    &&& answer->Some_0@.len() == 1
                    &&& Self::bind_effect(
                        *old(self),
                        *final(self),
                        &sbr,
                        answer->Some_0@[0].deep_view(),
                    )
                },
                ServerOps::Search(lsr) => {
                    &&& answer is Some
                    &&& old(self).search_answer(&lsr, answer->Some_0.deep_view())
                    &&& Self::same_connection(*old(self), *final(self))
                    &&& !old(self).in_scope(&lsr) ==> *final(self) == *old(self)
                },
                ServerOps::Unbind(_) => {
                    &&& answer is None
                    &&& *final(self) == *old(self)
                },
                ServerOps::Whoami(wr) => {
                    &&& answer is Some
                    &&& answer->Some_0.deep_view() == seq![old(self).whoami_answer(&wr)]
                    &&& *final(self) == *old(self)
                },
            },
    {
        let result = match server_op {
            ServerOps::SimpleBind(sbr) => {
                let msg = self.do_bind(&sbr);
                vec![msg]
            },
            ServerOps::Search(sr) => self.do_search(&sr),
            ServerOps::Unbind(_) => {
                return None;
            },
            ServerOps::Whoami(wr) => {
                let msg = self.do_whoami(&wr);
                let msgs = vec![msg];
                assert(msgs.deep_view() == seq![msg.deep_view()]);
                msgs
            },
        };
        Some(result)
    }
}

/// Where every user makes an entry, there is one entry for each user, in the
/// order of the users: named after the user below the base, with the
/// projection of the names.
pub proof fn law_entries_in_order(users: Seq<User>, base: Seq<char>, names: Seq<Seq<char>>)
    requires
        result_entries(users, base, names) is Ok,
    ensures
        result_entries(users, base, names)->Ok_0.len() == users.len(),
        forall|i: int|
            #![trigger users[i]]
            0 <= i < users.len() ==> {
                &&& projected_attributes(&users[i], names) is Ok
                &&& result_entries(users, base, names)->Ok_0[i] == (
                    entry_dn(users[i].user_id@, base),
                    projected_attributes(&users[i], names)->Ok_0,
                )
            },
    decreases users.len(),
{
    if users.len() > 0 {
        let front = users.drop_last();
        law_entries_in_order(front, base, names);
        assert forall|i: int| #![trigger users[i]] 0 <= i < users.len() implies {
            &&& projected_attributes(&users[i], names) is Ok
            &&& result_entries(users, base, names)->Ok_0[i] == (
                entry_dn(users[i].user_id@, base),
                projected_attributes(&users[i], names)->Ok_0,
            )
        } by {
            if i < users.len() - 1 {
                assert(users[i] == front[i]);
            }
        }
    }
}

/// The entries fail exactly when there is a user and the projection fails
/// for the first user, and then with the name on which that projection
/// fails: what is asked for decides, not who is found.
pub proof fn law_entries_fail_on_leftmost(users: Seq<User>, base: Seq<char>, names: Seq<Seq<char>>)
    ensures
        result_entries(users, base, names) is Err <==> users.len() > 0 && projected_attributes(
            &users[0],
            names,
        ) is Err,
        result_entries(users, base, names) is Err ==> result_entries(users, base, names)->Err_0
            == projected_attributes(&users[0], names)->Err_0,
    decreases users.len(),
{
    if users.len() > 0 {
        let front = users.drop_last();
        law_entries_fail_on_leftmost(front, base, names);
        if front.len() > 0 {
            assert(front[0] == users[0]);
            lemma_projection_fails_alike(&users[0], &users.last(), names);
        } else {
            assert(users.last() == users[0]);
        }
    }
}

/// Two users fail the projection of the same names alike.
proof fn lemma_projection_fails_alike(one: &User, other: &User, names: Seq<Seq<char>>)
    ensures
        projected_attributes(one, names) is Err <==> projected_attributes(other, names) is Err,
        projected_attributes(one, names) is Err ==> projected_attributes(one, names)->Err_0
            == projected_attributes(other, names)->Err_0,
    decreases names.len(),
{
    if names.len() > 0 {
        lemma_projection_fails_alike(one, other, names.drop_last());
        law_support_is_the_same_for_all_users(one, other, names.last());
    }
}

/// A search in scope is answered either by one message for each user, in
/// the backend's order, and one success message after them, or by one error
/// message alone.
pub proof fn law_search_is_all_or_nothing(
    lsr: &SearchRequest,
    base: Seq<char>,
    outcome: Result<Vec<User>, BackendError>,
)
    ensures
        ({
            let reply = search_reply(lsr, base, outcome);
            let names = lsr.attrs.deep_view();
            if outcome is Ok && result_entries(outcome->Ok_0@, base, names) is Ok {
                let users = outcome->Ok_0@;
                &&& reply.len() == users.len() + 1
                &&& reply.last() == search_result_done(
                    lsr.msgid,
                    LdapResultCode::Success,
                    Seq::empty(),
                )
                &&& forall|i: int|
                    0 <= i < users.len() ==> #[trigger] reply[i] == search_result_entry(
                        lsr.msgid,
                        (
                            entry_dn(users[i].user_id@, base),
                            projected_attributes(&users[i], names)->Ok_0,
                        ),
                    )
            } else {
                &&& reply.len() == 1
                &&& reply[0].op is SearchResultDone
                &&& reply[0].op->SearchResultDone_res.code != LdapResultCode::Success
            }
        }),
{
    let names = lsr.attrs.deep_view();
    if outcome is Ok && result_entries(outcome->Ok_0@, base, names) is Ok {
        law_entries_in_order(outcome->Ok_0@, base, names);
    }
}

/// A search in scope that finds a user and asks for a name under which users
/// have no attribute is answered by one message alone, with code
/// `NoSuchAttribute` and the text that reports the leftmost such name.
pub proof fn law_unsupported_attribute_fails_search(
    lsr: &SearchRequest,
    base: Seq<char>,
    users: Vec<User>,
    j: int,
)
    requires
        users@.len() > 0,
        0 <= j < lsr.attrs.deep_view().len(),
        attribute_values(&users@[0], lsr.attrs.deep_view()[j]) is None,
    ensures
        projected_attributes(&users@[0], lsr.attrs.deep_view()) is Err,
        search_reply(lsr, base, Ok(users)) == seq![
            search_result_done(
                lsr.msgid,
                LdapResultCode::NoSuchAttribute,
                unsupported_attribute_text(
                    projected_attributes(&users@[0], lsr.attrs.deep_view())->Err_0,
                ),
            ),
        ],
{
    let names = lsr.attrs.deep_view();
    law_projection_fails_on_leftmost(&users@[0], names);
    law_entries_fail_on_leftmost(users@, base, names);
}

/// Scope and filter of a search decide nothing: two searches with the same
/// message id, base and attribute names are answered alike.
pub proof fn law_search_ignores_scope_and_filter(
    one: &SearchRequest,
    other: &SearchRequest,
    base: Seq<char>,
    outcome: Result<Vec<User>, BackendError>,
)
    requires
        one.msgid == other.msgid,
        one.base@ == other.base@,
        one.attrs.deep_view() == other.attrs.deep_view(),
    ensures
        search_reply(one, base, outcome) == search_reply(other, base, outcome),
{
}

/// The answer to a bind tells what became of it: after the success message
/// the connection is bound as the request's name, and after the message of
/// invalid credentials it is bound as before.  There is no third answer.
pub proof fn law_bind_answer_tells_the_state(
    before: Option<Seq<char>>,
    name: Seq<char>,
    msgid: i32,
    accepted: bool,
)
    ensures
        bind_reply(msgid, accepted) == bind_response(msgid, LdapResultCode::Success)
            ==> principal_after_bind(before, name, accepted) == Some(name),
        bind_reply(msgid, accepted) == bind_response(msgid, LdapResultCode::InvalidCredentials)
            ==> principal_after_bind(before, name, accepted) == before,
        bind_reply(msgid, accepted) == bind_response(msgid, LdapResultCode::Success)
            || bind_reply(msgid, accepted) == bind_response(
            msgid,
            LdapResultCode::InvalidCredentials,
        ),
{
}

/// Before any bind a connection is told that it is unauthenticated; after an
/// accepted bind it is told the name that it bound as; and a rejected bind
/// leaves it as it was.
pub proof fn law_bind_gates_whoami(name: Seq<char>, msgid: i32)
    ensures
        whoami_reply(None, msgid) == whoami_error(msgid, "Unauthenticated"@),
        whoami_reply(principal_after_bind(None, name, true), msgid) == whoami_success(
            msgid,
            authorization_identity(name),
        ),
        whoami_reply(principal_after_bind(None, name, false), msgid) == whoami_reply(None, msgid),
{
}

} // verus!
