use chrono::NaiveDateTime;
use ldap_handler::backend::{
    AuthError, BackendError, BackendHandler, BindRequest, ListUsersRequest, User,
};
use ldap_handler::handler::{bind_credentials, search_response, AuthenticationState, LdapHandler};
use ldap_handler::protocol::{
    LdapBindResponse, LdapExtendedResponse, LdapMsg, LdapOp, LdapPartialAttribute, LdapResult,
    LdapResultCode, LdapSearchResultEntry, SearchRequest, ServerOps, SimpleBindRequest,
    UnbindRequest, WhoamiRequest,
};
use ldap3_proto::proto::{LdapFilter, LdapSearchScope};
use std::cell::RefCell;
use std::rc::Rc;

/// What the backend was asked.
#[derive(Default)]
struct Calls {
    binds: Vec<(String, String)>,
    lists: Vec<ListUsersRequest>,
}

/// A backend that accepts one pair of credentials and answers one listing.
struct TestBackend {
    calls: Rc<RefCell<Calls>>,
    accepted: Option<(String, String)>,
    listing: Option<Result<Vec<User>, BackendError>>,
}

impl TestBackend {
    fn new() -> (TestBackend, Rc<RefCell<Calls>>) {
        let calls = Rc::new(RefCell::new(Calls::default()));
        let backend = TestBackend {
            calls: calls.clone(),
            accepted: None,
            listing: None,
        };
        (backend, calls)
    }

    fn accepting(mut self, name: &str, password: &str) -> TestBackend {
        self.accepted = Some((name.to_string(), password.to_string()));
        self
    }

    fn listing(mut self, listing: Result<Vec<User>, BackendError>) -> TestBackend {
        self.listing = Some(listing);
        self
    }
}

impl BackendHandler for TestBackend {
    fn bind(&mut self, request: BindRequest) -> Result<(), AuthError> {
        let given = (request.name, request.password);
        self.calls.borrow_mut().binds.push(given.clone());
        if self.accepted.as_ref() == Some(&given) {
            Ok(())
        } else {
            Err(AuthError {
                message: format!("no user {} with this password", given.0),
            })
        }
    }

    fn list_users(&mut self, request: ListUsersRequest) -> Result<Vec<User>, BackendError> {
        self.calls.borrow_mut().lists.push(request);
        self.listing.take().expect("one listing only")
    }
}

#[allow(deprecated)]
fn bob() -> User {
    User {
        user_id: "bob_1".to_string(),
        email: "bob@bobmail.bob".to_string(),
        display_name: "Bôb Böbberson".to_string(),
        first_name: "Bôb".to_string(),
        last_name: "Böbberson".to_string(),
        creation_date: NaiveDateTime::from_timestamp(1_000_000_000, 0),
    }
}

#[allow(deprecated)]
fn jim() -> User {
    User {
        user_id: "jim".to_string(),
        email: "jim@cricket.jim".to_string(),
        display_name: "Jimminy Cricket".to_string(),
        first_name: "Jim".to_string(),
        last_name: "Cricket".to_string(),
        creation_date: NaiveDateTime::from_timestamp(1_003_000_000, 0),
    }
}

fn search(msgid: i32, base: &str, attrs: &[&str]) -> SearchRequest {
    SearchRequest {
        msgid,
        base: base.to_string(),
        scope: LdapSearchScope::Base,
        filter: LdapFilter::And(vec![]),
        attrs: attrs.iter().map(|a| a.to_string()).collect(),
    }
}

fn result(code: LdapResultCode, message: &str) -> LdapResult {
    LdapResult {
        code,
        matcheddn: "".to_string(),
        message: message.to_string(),
        referral: vec![],
    }
}

fn search_done(msgid: i32, code: LdapResultCode, message: &str) -> LdapMsg {
    LdapMsg {
        msgid,
        op: LdapOp::SearchResultDone(result(code, message)),
    }
}

fn attribute(atype: &str, vals: &[&str]) -> LdapPartialAttribute {
    LdapPartialAttribute {
        atype: atype.to_string(),
        vals: vals.iter().map(|v| v.to_string()).collect(),
    }
}

const ALL_ATTRIBUTES: [&str; 6] = ["objectClass", "uid", "mail", "givenName", "sn", "cn"];

#[test]
fn test_bind() {
    let (mock, calls) = TestBackend::new();
    let mock = mock.accepting("test", "pass");
    let mut ldap_handler = LdapHandler::new(mock, "dc=example,dc=com".to_string());

    let request = WhoamiRequest { msgid: 1 };
    assert_eq!(
        ldap_handler.do_whoami(&request),
        request.gen_operror("Unauthenticated")
    );

    let request = SimpleBindRequest {
        msgid: 2,
        dn: "test".to_string(),
        pw: "pass".to_string(),
    };
    assert_eq!(ldap_handler.do_bind(&request), request.gen_success());

    let request = WhoamiRequest { msgid: 3 };
    assert_eq!(
        ldap_handler.do_whoami(&request),
        request.gen_success("dn: test")
    );

    assert_eq!(
        calls.borrow().binds,
        vec![("test".to_string(), "pass".to_string())]
    );
}

#[test]
fn test_search() {
    let (mock, calls) = TestBackend::new();
    let mock = mock
        .accepting("test", "pass")
        .listing(Ok(vec![bob(), jim()]));
    let mut ldap_handler = LdapHandler::new(mock, "dc=example,dc=com".to_string());
    let request = SimpleBindRequest {
        msgid: 1,
        dn: "test".to_string(),
        pw: "pass".to_string(),
    };
    assert_eq!(ldap_handler.do_bind(&request), request.gen_success());
    let request = SearchRequest {
        msgid: 2,
        base: "ou=people,dc=example,dc=com".to_string(),
        scope: LdapSearchScope::Base,
        filter: LdapFilter::And(vec![]),
        attrs: vec![
            "objectClass".to_string(),
            "uid".to_string(),
            "mail".to_string(),
            "givenName".to_string(),
            "sn".to_string(),
            "cn".to_string(),
        ],
    };
    assert_eq!(
        ldap_handler.do_search(&request),
        vec![
            request.gen_result_entry(LdapSearchResultEntry {
                dn: "cn=bob_1,dc=example,dc=com".to_string(),
                attributes: vec![
                    LdapPartialAttribute {
                        atype: "objectClass".to_string(),
                        vals: vec![
                            "inetOrgPerson".to_string(),
                            "posixAccount".to_string(),
                            "mailAccount".to_string()
                        ]
                    },
                    LdapPartialAttribute {
                        atype: "uid".to_string(),
                        vals: vec!["bob_1".to_string()]
                    },
                    LdapPartialAttribute {
                        atype: "mail".to_string(),
                        vals: vec!["bob@bobmail.bob".to_string()]
                    },
                    LdapPartialAttribute {
                        atype: "givenName".to_string(),
                        vals: vec!["Bôb".to_string()]
                    },
                    LdapPartialAttribute {
                        atype: "sn".to_string(),
                        vals: vec!["Böbberson".to_string()]
                    },
                    LdapPartialAttribute {
                        atype: "cn".to_string(),
                        vals: vec!["Bôb Böbberson".to_string()]
                    }
                ],
            }),
            request.gen_result_entry(LdapSearchResultEntry {
                dn: "cn=jim,dc=example,dc=com".to_string(),
                attributes: vec![
                    LdapPartialAttribute {
                        atype: "objectClass".to_string(),
                        vals: vec![
                            "inetOrgPerson".to_string(),
                            "posixAccount".to_string(),
                            "mailAccount".to_string()
                        ]
                    },
                    LdapPartialAttribute {
                        atype: "uid".to_string(),
                        vals: vec!["jim".to_string()]
                    },
                    LdapPartialAttribute {
                        atype: "mail".to_string(),
                        vals: vec!["jim@cricket.jim".to_string()]
                    },
                    LdapPartialAttribute {
                        atype: "givenName".to_string(),
                        vals: vec!["Jim".to_string()]
                    },
                    LdapPartialAttribute {
                        atype: "sn".to_string(),
                        vals: vec!["Cricket".to_string()]
                    },
                    LdapPartialAttribute {
                        atype: "cn".to_string(),
                        vals: vec!["Jimminy Cricket".to_string()]
                    }
                ],
            }),
            request.gen_success()
        ]
    );
    assert_eq!(calls.borrow().lists, vec![ListUsersRequest {}]);
}

#[test]
fn bind_success_is_a_bind_response_with_code_success() {
    let (backend, _) = TestBackend::new();
    let mut handler = LdapHandler::new(backend.accepting("test", "pass"), "dc=com".to_string());
    let request = SimpleBindRequest {
        msgid: 7,
        dn: "test".to_string(),
        pw: "pass".to_string(),
    };
    assert_eq!(
        handler.do_bind(&request),
        LdapMsg {
            msgid: 7,
            op: LdapOp::BindResponse(LdapBindResponse {
                res: result(LdapResultCode::Success, ""),
                saslcreds: None,
            }),
        }
    );
}

#[test]
fn failed_bind_says_invalid_credentials_and_no_more() {
    let (backend, calls) = TestBackend::new();
    let mut handler = LdapHandler::new(backend.accepting("test", "pass"), "dc=com".to_string());
    let request = SimpleBindRequest {
        msgid: 8,
        dn: "test".to_string(),
        pw: "wrong".to_string(),
    };
    assert_eq!(
        handler.do_bind(&request),
        LdapMsg {
            msgid: 8,
            op: LdapOp::BindResponse(LdapBindResponse {
                res: result(LdapResultCode::InvalidCredentials, ""),
                saslcreds: None,
            }),
        }
    );
    assert_eq!(
        calls.borrow().binds,
        vec![("test".to_string(), "wrong".to_string())]
    );
}

#[test]
fn failed_bind_leaves_the_connection_unauthenticated() {
    let (backend, _) = TestBackend::new();
    let mut handler = LdapHandler::new(backend.accepting("test", "pass"), "dc=com".to_string());
    let request = SimpleBindRequest {
        msgid: 1,
        dn: "nobody".to_string(),
        pw: "pass".to_string(),
    };
    assert_eq!(handler.do_bind(&request), request.gen_invalid_cred());
    let request = WhoamiRequest { msgid: 2 };
    assert_eq!(
        handler.do_whoami(&request),
        request.gen_operror("Unauthenticated")
    );
}

#[test]
fn failed_bind_keeps_an_earlier_bind() {
    let (backend, _) = TestBackend::new();
    let mut handler = LdapHandler::new(backend.accepting("test", "pass"), "dc=com".to_string());
    let good = SimpleBindRequest {
        msgid: 1,
        dn: "test".to_string(),
        pw: "pass".to_string(),
    };
    let bad = SimpleBindRequest {
        msgid: 2,
        dn: "other".to_string(),
        pw: "pass".to_string(),
    };
    handler.do_bind(&good);
    handler.do_bind(&bad);
    let request = WhoamiRequest { msgid: 3 };
    assert_eq!(handler.do_whoami(&request), request.gen_success("dn: test"));
}

#[test]
fn whoami_answers_are_extended_responses() {
    let (backend, _) = TestBackend::new();
    let mut handler = LdapHandler::new(backend.accepting("test", "pass"), "dc=com".to_string());
    assert_eq!(
        handler.do_whoami(&WhoamiRequest { msgid: 4 }),
        LdapMsg {
            msgid: 4,
            op: LdapOp::ExtendedResponse(LdapExtendedResponse {
                res: result(LdapResultCode::OperationsError, "Unauthenticated"),
                name: None,
                value: None,
            }),
        }
    );
    handler.do_bind(&SimpleBindRequest {
        msgid: 5,
        dn: "test".to_string(),
        pw: "pass".to_string(),
    });
    assert_eq!(
        handler.do_whoami(&WhoamiRequest { msgid: 6 }),
        LdapMsg {
            msgid: 6,
            op: LdapOp::ExtendedResponse(LdapExtendedResponse {
                res: result(LdapResultCode::Success, ""),
                name: None,
                value: Some(b"dn: test".to_vec()),
            }),
        }
    );
}

#[test]
fn whoami_value_holds_the_bytes_of_the_identity() {
    let (backend, _) = TestBackend::new();
    let mut handler = LdapHandler::new(backend.accepting("Bôb", "pass"), "dc=com".to_string());
    handler.do_bind(&SimpleBindRequest {
        msgid: 1,
        dn: "Bôb".to_string(),
        pw: "pass".to_string(),
    });
    let answer = handler.do_whoami(&WhoamiRequest { msgid: 2 });
    match answer.op {
        LdapOp::ExtendedResponse(response) => {
            assert_eq!(response.value, Some("dn: Bôb".as_bytes().to_vec()));
            assert_eq!(response.value.map(|v| v.len()), Some(8));
        }
        other => panic!("no extended response: {:?}", other),
    }
}

#[test]
fn a_principal_may_bear_any_name() {
    let (backend, _) = TestBackend::new();
    let backend = backend.accepting("Unauthenticated", "pass");
    let mut handler = LdapHandler::new(backend, "dc=com".to_string());
    handler.do_bind(&SimpleBindRequest {
        msgid: 1,
        dn: "Unauthenticated".to_string(),
        pw: "pass".to_string(),
    });
    let request = WhoamiRequest { msgid: 2 };
    assert_eq!(
        handler.do_whoami(&request),
        request.gen_success("dn: Unauthenticated")
    );
}

#[test]
fn bind_hands_name_and_password_to_the_backend() {
    let request = SimpleBindRequest {
        msgid: 1,
        dn: "uid=bob,dc=com".to_string(),
        pw: "sécret".to_string(),
    };
    let credentials = bind_credentials(&request);
    assert_eq!(credentials.name, "uid=bob,dc=com");
    assert_eq!(credentials.password, "sécret");
}

#[test]
fn bind_outcome_follows_the_backend() {
    let request = SimpleBindRequest {
        msgid: 9,
        dn: "test".to_string(),
        pw: "pass".to_string(),
    };
    let mut state = AuthenticationState::Unauthenticated;
    let rejected = Err(AuthError {
        message: "no".to_string(),
    });
    assert_eq!(
        state.bind_outcome(&request, rejected),
        request.gen_invalid_cred()
    );
    assert_eq!(state, AuthenticationState::Unauthenticated);
    assert_eq!(state.bind_outcome(&request, Ok(())), request.gen_success());
    assert_eq!(state, AuthenticationState::Bound("test".to_string()));
    let question = WhoamiRequest { msgid: 10 };
    assert_eq!(state.whoami(&question), question.gen_success("dn: test"));
}

#[test]
fn search_outside_the_base_is_an_empty_success() {
    let (backend, calls) = TestBackend::new();
    let mut handler = LdapHandler::new(
        backend.listing(Ok(vec![bob(), jim()])),
        "dc=example,dc=com".to_string(),
    );
    let request = search(3, "dc=other,dc=org", &ALL_ATTRIBUTES);
    assert_eq!(
        handler.do_search(&request),
        vec![search_done(3, LdapResultCode::Success, "")]
    );
    assert_eq!(handler.do_search(&request), vec![request.gen_success()]);
    assert!(calls.borrow().lists.is_empty());
}

#[test]
fn search_above_the_base_is_an_empty_success() {
    let (backend, calls) = TestBackend::new();
    let mut handler = LdapHandler::new(
        backend.listing(Ok(vec![bob()])),
        "dc=example,dc=com".to_string(),
    );
    for base in ["dc=com", "", "dc=example,dc=com,dc=x"] {
        let request = search(4, base, &["uid"]);
        assert_eq!(
            handler.do_search(&request),
            vec![search_done(4, LdapResultCode::Success, "")]
        );
    }
    assert!(calls.borrow().lists.is_empty());
}

#[test]
fn search_with_an_unsupported_attribute_yields_one_error_and_no_entry() {
    let (backend, _) = TestBackend::new();
    let mut handler = LdapHandler::new(
        backend.listing(Ok(vec![bob(), jim()])),
        "dc=example,dc=com".to_string(),
    );
    let request = search(5, "ou=people,dc=example,dc=com", &["telephoneNumber"]);
    assert_eq!(
        handler.do_search(&request),
        vec![search_done(
            5,
            LdapResultCode::NoSuchAttribute,
            "Unsupported attribute: telephoneNumber"
        )]
    );
}

#[test]
fn search_drops_the_entries_made_before_an_unsupported_attribute() {
    let request = search(5, "dc=example,dc=com", &["uid", "fax", "telephoneNumber"]);
    assert_eq!(
        search_response(&request, "dc=example,dc=com", Ok(vec![bob(), jim()])),
        vec![request.gen_error(
            LdapResultCode::NoSuchAttribute,
            "Unsupported attribute: fax".to_string()
        )]
    );
}

#[test]
fn search_without_users_needs_no_attribute() {
    let request = search(5, "dc=example,dc=com", &["telephoneNumber"]);
    assert_eq!(
        search_response(&request, "dc=example,dc=com", Ok(vec![])),
        vec![search_done(5, LdapResultCode::Success, "")]
    );
}

#[test]
fn search_with_an_unparsable_base_is_an_operations_error() {
    let (backend, calls) = TestBackend::new();
    let mut handler = LdapHandler::new(
        backend.listing(Ok(vec![bob()])),
        "dc=example,dc=com".to_string(),
    );
    let request = search(6, "ou=people,example", &["uid"]);
    assert_eq!(
        handler.do_search(&request),
        vec![search_done(
            6,
            LdapResultCode::OperationsError,
            "Could not parse base DN: \"ou=people,example\""
        )]
    );
    let request = search(7, "cn=a=b", &["uid"]);
    assert_eq!(
        handler.do_search(&request),
        vec![request.gen_error(
            LdapResultCode::OperationsError,
            "Could not parse base DN: \"cn=a=b\"".to_string()
        )]
    );
    assert!(calls.borrow().lists.is_empty());
}

#[test]
fn search_reports_a_failing_backend() {
    let (backend, calls) = TestBackend::new();
    let failure = BackendError {
        message: "store is down".to_string(),
    };
    let backend = backend.listing(Err(failure));
    let mut handler = LdapHandler::new(backend, "dc=example,dc=com".to_string());
    let request = search(8, "dc=example,dc=com", &["uid"]);
    assert_eq!(
        handler.do_search(&request),
        vec![search_done(
            8,
            LdapResultCode::Other,
            "Error during search for \"dc=example,dc=com\": store is down"
        )]
    );
    assert_eq!(calls.borrow().lists.len(), 1);
}

#[test]
fn search_entries_keep_the_order_of_backend_and_request() {
    let request = search(9, "ou=people,dc=example,dc=com", &["cn", "uid", "cn"]);
    assert_eq!(
        search_response(&request, "dc=example,dc=com", Ok(vec![jim(), bob()])),
        vec![
            LdapMsg {
                msgid: 9,
                op: LdapOp::SearchResultEntry(LdapSearchResultEntry {
                    dn: "cn=jim,dc=example,dc=com".to_string(),
                    attributes: vec![
                        attribute("cn", &["Jimminy Cricket"]),
                        attribute("uid", &["jim"]),
                        attribute("cn", &["Jimminy Cricket"]),
                    ],
                }),
            },
            LdapMsg {
                msgid: 9,
                op: LdapOp::SearchResultEntry(LdapSearchResultEntry {
                    dn: "cn=bob_1,dc=example,dc=com".to_string(),
                    attributes: vec![
                        attribute("cn", &["Bôb Böbberson"]),
                        attribute("uid", &["bob_1"]),
                        attribute("cn", &["Bôb Böbberson"]),
                    ],
                }),
            },
            search_done(9, LdapResultCode::Success, ""),
        ]
    );
}

#[test]
fn search_is_answered_alike_whatever_scope_and_filter() {
    let one = search(9, "dc=example,dc=com", &["uid"]);
    let other = SearchRequest {
        msgid: 9,
        base: "dc=example,dc=com".to_string(),
        scope: LdapSearchScope::Subtree,
        filter: LdapFilter::Equality("uid".to_string(), "nobody".to_string()),
        attrs: vec!["uid".to_string()],
    };
    assert_eq!(
        search_response(&one, "dc=example,dc=com", Ok(vec![jim(), bob()])),
        search_response(&other, "dc=example,dc=com", Ok(vec![jim(), bob()]))
    );
}

#[test]
fn search_is_answered_whether_bound_or_not() {
    let (backend, _) = TestBackend::new();
    let mut handler = LdapHandler::new(
        backend.listing(Ok(vec![jim()])),
        "dc=example,dc=com".to_string(),
    );
    let request = search(1, "dc=example,dc=com", &["uid"]);
    let answer = handler.do_search(&request);
    assert_eq!(answer.len(), 2);
    assert_eq!(answer[1], request.gen_success());
    let question = WhoamiRequest { msgid: 2 };
    assert_eq!(
        handler.do_whoami(&question),
        question.gen_operror("Unauthenticated")
    );
}

#[test]
fn new_handler_holds_the_parsed_base() {
    let (backend, _) = TestBackend::new();
    let handler = LdapHandler::new(backend, "dc=example,dc=com".to_string());
    assert_eq!(
        handler.base_dn,
        vec![
            ("dc".to_string(), "example".to_string()),
            ("dc".to_string(), "com".to_string())
        ]
    );
    let (backend, _) = TestBackend::new();
    assert!(LdapHandler::new(backend, "".to_string()).base_dn.is_empty());
}

#[test]
fn unbind_gets_no_answer() {
    let (backend, calls) = TestBackend::new();
    let mut handler = LdapHandler::new(backend.accepting("test", "pass"), "dc=com".to_string());
    handler.do_bind(&SimpleBindRequest {
        msgid: 1,
        dn: "test".to_string(),
        pw: "pass".to_string(),
    });
    assert_eq!(handler.handle_ldap_message(ServerOps::Unbind(UnbindRequest)), None);
    let question = WhoamiRequest { msgid: 2 };
    assert_eq!(handler.do_whoami(&question), question.gen_success("dn: test"));
    assert_eq!(calls.borrow().binds.len(), 1);
}

#[test]
fn each_operation_is_handed_to_its_own_answer() {
    let (backend, _) = TestBackend::new();
    let backend = backend
        .accepting("test", "pass")
        .listing(Ok(vec![jim()]));
    let mut handler = LdapHandler::new(backend, "dc=example,dc=com".to_string());
    assert_eq!(
        handler.handle_ldap_message(ServerOps::Whoami(WhoamiRequest { msgid: 1 })),
        Some(vec![WhoamiRequest { msgid: 1 }.gen_operror("Unauthenticated")])
    );
    let bind = SimpleBindRequest {
        msgid: 2,
        dn: "test".to_string(),
        pw: "pass".to_string(),
    };
    let expected = bind.gen_success();
    assert_eq!(
        handler.handle_ldap_message(ServerOps::SimpleBind(bind)),
        Some(vec![expected])
    );
    assert_eq!(
        handler.handle_ldap_message(ServerOps::Whoami(WhoamiRequest { msgid: 3 })),
        Some(vec![WhoamiRequest { msgid: 3 }.gen_success("dn: test")])
    );
    let request = search(4, "dc=example,dc=com", &["mail"]);
    let expected = vec![
        request.gen_result_entry(LdapSearchResultEntry {
            dn: "cn=jim,dc=example,dc=com".to_string(),
            attributes: vec![attribute("mail", &["jim@cricket.jim"])],
        }),
        request.gen_success(),
    ];
    assert_eq!(
        handler.handle_ldap_message(ServerOps::Search(request)),
        Some(expected)
    );
    let bad = SimpleBindRequest {
        msgid: 5,
        dn: "test".to_string(),
        pw: "".to_string(),
    };
    assert_eq!(
        handler.handle_ldap_message(ServerOps::SimpleBind(bad)),
        Some(vec![LdapMsg {
            msgid: 5,
            op: LdapOp::BindResponse(LdapBindResponse {
                res: result(LdapResultCode::InvalidCredentials, ""),
                saslcreds: None,
            }),
        }])
    );
}
