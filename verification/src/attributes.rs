//! From a user record to the attributes of a search result entry.

use crate::backend::User;
use crate::protocol::{AttributesView, LdapPartialAttribute, LdapSearchResultEntry};
use crate::text::same_text;
use vstd::prelude::*;

verus! {

/// A search asked for an attribute that no user record has.
#[derive(Clone, Debug, PartialEq, Eq)]
pub struct UnsupportedAttribute {
    /// The name that was asked for.
    pub name: String,
}

/// The text with which an unsupported attribute of this name is reported.
pub open spec fn unsupported_attribute_text(name: Seq<char>) -> Seq<char> {
    "Unsupported attribute: "@ + name
}

impl UnsupportedAttribute {
    /// The text with which the error is reported.
    pub fn message(&self) -> (text: String)
        ensures
            text@ == unsupported_attribute_text(self.name@),
    {
        let mut text = "Unsupported attribute: ".to_owned();
        text.append(self.name.as_str());
        text
    }
}

/// The values of the attribute `name` of `user`, or `None` where a user has
/// no attribute of that name.  Names are matched exactly, case included.
pub open spec fn attribute_values(user: &User, name: Seq<char>) -> Option<Seq<Seq<char>>> {
    if name == "objectClass"@ {
        Some(seq!["inetOrgPerson"@, "posixAccount"@, "mailAccount"@])
    } else if name == "uid"@ {
        Some(seq![user.user_id@])
    } else if name == "mail"@ {
        Some(seq![user.email@])
    } else if name == "givenName"@ {
        Some(seq![user.first_name@])
    } else if name == "sn"@ {
        Some(seq![user.last_name@])
    } else if name == "cn"@ {
        Some(seq![user.display_name@])
    } else {
        None
    }
}

/// The attributes of `user` under the names `names`, one for each name and
/// in their order, or the leftmost name that `user` has no attribute of.
pub open spec fn projected_attributes(user: &User, names: Seq<Seq<char>>) -> Result<
    AttributesView,
    Seq<char>,
>
    decreases names.len(),
{
    if names.len() == 0 {
        Ok(Seq::empty())
    } else {
        match projected_attributes(user, names.drop_last()) {
            Err(name) => Err(name),
            Ok(front) => match attribute_values(user, names.last()) {
                Some(values) => Ok(front.push((names.last(), values))),
                None => Err(names.last()),
            },
        }
    }
}

/// The name of the entry of the user `user_id` below the base whose text is
/// `base`.
pub open spec fn entry_dn(user_id: Seq<char>, base: Seq<char>) -> Seq<char> {
    "cn="@ + user_id + ","@ + base
}

/// The values of one attribute of a user.
pub fn get_attribute(user: &User, attribute: &str) -> (res: Result<
    Vec<String>,
    UnsupportedAttribute,
>)
    ensures
        match res {
            Ok(values) => attribute_values(user, attribute@) == Some(values.deep_view()),
            Err(e) => attribute_values(user, attribute@) is None && e.name@ == attribute@,
        },
{
    let mut values: Vec<String> = Vec::new();
    if same_text(attribute, "objectClass") {
        values.push("inetOrgPerson".to_owned());
        values.push("posixAccount".to_owned());
        values.push("mailAccount".to_owned());
    } else if same_text(attribute, "uid") {
        values.push(user.user_id.clone());
    } else if same_text(attribute, "mail") {
        values.push(user.email.clone());
    } else if same_text(attribute, "givenName") {
        values.push(user.first_name.clone());
    } else if same_text(attribute, "sn") {
        values.push(user.last_name.clone());
    } else if same_text(attribute, "cn") {
        values.push(user.display_name.clone());
    } else {
        return Err(UnsupportedAttribute { name: attribute.to_owned() });
    }
    assert(values.deep_view() == attribute_values(user, attribute@)->Some_0);
    Ok(values)
}

/// Once a prefix of the names fails, the whole fails, with that name.
proof fn lemma_unsupported_persists(user: &User, names: Seq<Seq<char>>, k: int)
    requires
        0 <= k <= names.len(),
        projected_attributes(user, names.take(k)) is Err,
    ensures
        projected_attributes(user, names) == projected_attributes(user, names.take(k)),
    decreases names.len() - k,
{
    if k == names.len() {
        assert(names.take(k) == names);
    } else {
        assert(names.take(k + 1).drop_last() == names.take(k));
        lemma_unsupported_persists(user, names, k + 1);
    }
}

/// Builds the result entry of one user: its name below the configured base
/// and the attributes that were asked for, each through `get_attribute`.
pub fn make_ldap_search_result_entry(user: &User, base_dn_str: &str, attributes: &[String]) -> (res:
    Result<LdapSearchResultEntry, UnsupportedAttribute>)
    ensures
        match res {
            Ok(entry) => {
                &&& entry.dn@ == entry_dn(user.user_id@, base_dn_str@)
                &&& projected_attributes(user, attributes.deep_view()) == Ok::<
                    AttributesView,
                    Seq<char>,
                >(entry.attributes.deep_view())
            },
            Err(e) => projected_attributes(user, attributes.deep_view()) == Err::<
                AttributesView,
                Seq<char>,
            >(e.name@),
        },
{
    let mut dn = "cn=".to_owned();
    dn.append(user.user_id.as_str());
    dn.append(",");
    dn.append(base_dn_str);
    let ghost names = attributes.deep_view();
    let mut projected: Vec<LdapPartialAttribute> = Vec::new();
    let mut i: usize = 0;
    proof {
        assert(names.take(0) == Seq::<Seq<char>>::empty());
        assert(projected.deep_view() == Seq::<(Seq<char>, Seq<Seq<char>>)>::empty());
    }
    while i < attributes.len()
        invariant
            i <= attributes.len(),
            names == attributes.deep_view(),
            projected_attributes(user, names.take(i as int)) == Ok::<AttributesView, Seq<char>>(
                projected.deep_view(),
            ),
        decreases attributes.len() - i,
    {
        let name = &attributes[i];
        proof {
            assert(names.take(i + 1).drop_last() == names.take(i as int));
            assert(names.take(i + 1).last() == name@);
        }
        match get_attribute(user, name.as_str()) {
            Ok(vals) => {
                let ghost before = projected.deep_view();
                let attribute = LdapPartialAttribute { atype: name.clone(), vals };
                projected.push(attribute);
                assert(projected.deep_view() == before.push((name@, vals.deep_view())));
            },
            Err(e) => {
                proof {
                    assert(projected_attributes(user, names.take(i + 1)) == Err::<
                        AttributesView,
                        Seq<char>,
                    >(e.name@));
                    lemma_unsupported_persists(user, names, i + 1);
                }
                return Err(e);
            },
        }
        i += 1;
    }
    assert(names.take(i as int) == names);
    Ok(LdapSearchResultEntry { dn, attributes: projected })
}

/// Whether a name is the name of an attribute does not depend on the user.
pub proof fn law_support_is_the_same_for_all_users(one: &User, other: &User, name: Seq<char>)
    ensures
        attribute_values(one, name) is Some <==> attribute_values(other, name) is Some,
{
}

/// Where the projection succeeds, it holds one attribute for each name, in
/// the order of the names, duplicates included: the name itself with the
/// values that the user has under it.
pub proof fn law_projection_in_order(user: &User, names: Seq<Seq<char>>)
    requires
        projected_attributes(user, names) is Ok,
    ensures
        projected_attributes(user, names)->Ok_0.len() == names.len(),
        forall|j: int|
            0 <= j < names.len() ==> {
                &&& attribute_values(user, #[trigger] names[j]) is Some
                &&& projected_attributes(user, names)->Ok_0[j] == (
                    names[j],
                    attribute_values(user, names[j])->Some_0,
                )
            },
    decreases names.len(),
{
    if names.len() > 0 {
        let front = names.drop_last();
        law_projection_in_order(user, front);
        assert forall|j: int| 0 <= j < names.len() implies {
            &&& attribute_values(user, #[trigger] names[j]) is Some
            &&& projected_attributes(user, names)->Ok_0[j] == (
                names[j],
                attribute_values(user, names[j])->Some_0,
            )
        } by {
            if j < names.len() - 1 {
                assert(names[j] == front[j]);
            }
        }
    }
}

/// The projection fails exactly when the user has no attribute under one of
/// the names, and then with the leftmost such name.
pub proof fn law_projection_fails_on_leftmost(user: &User, names: Seq<Seq<char>>)
    ensures
        projected_attributes(user, names) is Err <==> exists|j: int|
            0 <= j < names.len() && attribute_values(user, #[trigger] names[j]) is None,
        projected_attributes(user, names) is Err ==> exists|j: int|
            {
                &&& 0 <= j < names.len()
                &&& attribute_values(user, #[trigger] names[j]) is None
                &&& projected_attributes(user, names)->Err_0 == names[j]
                &&& forall|k: int|
                    0 <= k < j ==> attribute_values(user, #[trigger] names[k]) is Some
            },
    decreases names.len(),
{
    if names.len() > 0 {
        let front = names.drop_last();
        let last = names.len() - 1;
        law_projection_fails_on_leftmost(user, front);
        if projected_attributes(user, front) is Err {
            let j = choose|j: int|
                {
                    &&& 0 <= j < front.len()
                    &&& attribute_values(user, #[trigger] front[j]) is None
                    &&& projected_attributes(user, front)->Err_0 == front[j]
                    &&& forall|k: int|
                        0 <= k < j ==> attribute_values(user, #[trigger] front[k]) is Some
                };
            assert(names[j] == front[j]);
            assert forall|k: int| 0 <= k < j implies attribute_values(
                user,
                #[trigger] names[k],
            ) is Some by {
                assert(names[k] == front[k]);
            }
        } else if attribute_values(user, names[last]) is None {
            assert forall|k: int| 0 <= k < last implies attribute_values(
                user,
                #[trigger] names[k],
            ) is Some by {
                assert(names[k] == front[k]);
            }
        } else {
            assert forall|j: int| 0 <= j < names.len() implies attribute_values(
                user,
                #[trigger] names[j],
            ) is Some by {
                if j < last {
                    assert(names[j] == front[j]);
                }
            }
        }
    }
}

} // verus!
