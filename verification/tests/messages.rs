use ldap3_proto::proto;
use ldap3_proto::simple;
use ldap_handler::protocol::{
    LdapMsg, LdapOp, LdapPartialAttribute, LdapResult, LdapResultCode, LdapSearchResultEntry,
    SearchRequest, SimpleBindRequest, WhoamiRequest,
};

/// The code as the codec crate holds it.
fn codec_code(code: LdapResultCode) -> proto::LdapResultCode {
    match code {
        LdapResultCode::Success => proto::LdapResultCode::Success,
        LdapResultCode::OperationsError => proto::LdapResultCode::OperationsError,
        LdapResultCode::NoSuchAttribute => proto::LdapResultCode::NoSuchAttribute,
        LdapResultCode::InvalidCredentials => proto::LdapResultCode::InvalidCredentials,
        LdapResultCode::Other => proto::LdapResultCode::Other,
    }
}

/// The result as the codec crate holds it.
fn codec_result(res: LdapResult) -> proto::LdapResult {
    proto::LdapResult {
        code: codec_code(res.code),
        matcheddn: res.matcheddn,
        message: res.message,
        referral: res.referral,
    }
}

/// The entry as the codec crate holds it.
fn codec_entry(entry: LdapSearchResultEntry) -> proto::LdapSearchResultEntry {
    proto::LdapSearchResultEntry {
        dn: entry.dn,
        attributes: entry
            .attributes
            .into_iter()
            .map(|a| proto::LdapPartialAttribute {
                atype: a.atype,
                vals: a.vals,
            })
            .collect(),
    }
}

/// The message as the codec crate holds it.
fn codec_message(msg: LdapMsg) -> proto::LdapMsg {
    let op = match msg.op {
        LdapOp::BindResponse(response) => proto::LdapOp::BindResponse(proto::LdapBindResponse {
            res: codec_result(response.res),
            saslcreds: response.saslcreds,
        }),
        LdapOp::SearchResultEntry(entry) => proto::LdapOp::SearchResultEntry(codec_entry(entry)),
        LdapOp::SearchResultDone(res) => proto::LdapOp::SearchResultDone(codec_result(res)),
        LdapOp::ExtendedResponse(response) => {
            proto::LdapOp::ExtendedResponse(proto::LdapExtendedResponse {
                res: codec_result(response.res),
                name: response.name,
                value: response.value,
            })
        }
    };
    proto::LdapMsg {
        msgid: msg.msgid,
        op,
        ctrl: vec![],
    }
}

fn bind(msgid: i32) -> (SimpleBindRequest, simple::SimpleBindRequest) {
    let ours = SimpleBindRequest {
        msgid,
        dn: "test".to_string(),
        pw: "pass".to_string(),
    };
    let theirs = simple::SimpleBindRequest {
        msgid,
        dn: "test".to_string(),
        pw: "pass".to_string(),
    };
    (ours, theirs)
}

fn search(msgid: i32) -> (SearchRequest, simple::SearchRequest) {
    let ours = SearchRequest {
        msgid,
        base: "ou=people,dc=example,dc=com".to_string(),
        scope: proto::LdapSearchScope::Subtree,
        filter: proto::LdapFilter::Present("uid".to_string()),
        attrs: vec!["uid".to_string()],
    };
    let theirs = simple::SearchRequest {
        msgid,
        base: "ou=people,dc=example,dc=com".to_string(),
        scope: proto::LdapSearchScope::Subtree,
        filter: proto::LdapFilter::Present("uid".to_string()),
        attrs: vec!["uid".to_string()],
    };
    (ours, theirs)
}

#[test]
fn bind_success_is_the_message_of_the_codec() {
    for msgid in [0, 1, 42, i32::MAX, -7] {
        let (ours, theirs) = bind(msgid);
        assert_eq!(codec_message(ours.gen_success()), theirs.gen_success());
    }
}

#[test]
fn bind_invalid_credentials_is_the_message_of_the_codec() {
    for msgid in [0, 1, 42, i32::MAX, -7] {
        let (ours, theirs) = bind(msgid);
        assert_eq!(
            codec_message(ours.gen_invalid_cred()),
            theirs.gen_invalid_cred()
        );
    }
}

#[test]
fn search_success_is_the_message_of_the_codec() {
    for msgid in [0, 3, i32::MIN] {
        let (ours, theirs) = search(msgid);
        assert_eq!(codec_message(ours.gen_success()), theirs.gen_success());
    }
}

#[test]
fn search_error_is_the_message_of_the_codec() {
    let (ours, theirs) = search(11);
    let codes = [
        LdapResultCode::Success,
        LdapResultCode::OperationsError,
        LdapResultCode::NoSuchAttribute,
        LdapResultCode::InvalidCredentials,
        LdapResultCode::Other,
    ];
    for code in codes {
        for text in ["", "Unsupported attribute: fax", "Bôb \"quoted\""] {
            assert_eq!(
                codec_message(ours.gen_error(code, text.to_string())),
                theirs.gen_error(codec_code(code), text.to_string())
            );
        }
    }
}

#[test]
fn search_entry_is_the_message_of_the_codec() {
    let (ours, theirs) = search(12);
    let entry = LdapSearchResultEntry {
        dn: "cn=bob_1,dc=example,dc=com".to_string(),
        attributes: vec![
            LdapPartialAttribute {
                atype: "objectClass".to_string(),
                vals: vec!["inetOrgPerson".to_string(), "posixAccount".to_string()],
            },
            LdapPartialAttribute {
                atype: "cn".to_string(),
                vals: vec!["Bôb Böbberson".to_string()],
            },
            LdapPartialAttribute {
                atype: "empty".to_string(),
                vals: vec![],
            },
        ],
    };
    assert_eq!(
        codec_message(ours.gen_result_entry(entry.clone())),
        theirs.gen_result_entry(codec_entry(entry))
    );
}

#[test]
fn whoami_success_is_the_message_of_the_codec() {
    for authzid in ["dn: test", "", "dn: Bôb Böbberson", "dn: 日本"] {
        let ours = WhoamiRequest { msgid: 5 };
        let theirs = simple::WhoamiRequest { msgid: 5 };
        assert_eq!(
            codec_message(ours.gen_success(authzid)),
            theirs.gen_success(authzid)
        );
    }
}

#[test]
fn whoami_error_is_the_message_of_the_codec() {
    for text in ["Unauthenticated", "", "ünauthenticated"] {
        let ours = WhoamiRequest { msgid: 6 };
        let theirs = simple::WhoamiRequest { msgid: 6 };
        assert_eq!(
            codec_message(ours.gen_operror(text)),
            theirs.gen_operror(text)
        );
    }
}

#[test]
fn plain_result_matches_nothing_and_refers_nowhere() {
    assert_eq!(
        LdapResult::plain(LdapResultCode::Other, "text".to_string()),
        LdapResult {
            code: LdapResultCode::Other,
            matcheddn: "".to_string(),
            message: "text".to_string(),
            referral: vec![],
        }
    );
}
