//! Groups of users: the stored record of a group and what it becomes when
//! it is handed out.

use chrono::NaiveDateTime;
use vstd::prelude::*;
use vstd::std_specs::convert::FromSpecImpl;

verus! {

/// The number of a group.
#[derive(Clone, Copy, Debug, PartialEq, Eq, PartialOrd, Ord, Hash)]
pub struct GroupId(pub i32);

/// The name of a user.
#[derive(Clone, Debug, PartialEq, Eq, Hash)]
pub struct UserId(pub String);

/// The universally unique identifier of a record, in its textual form.
#[derive(Clone, Debug, PartialEq, Eq, Hash)]
pub struct Uuid(pub String);

/// A group as the store holds it.  The date of its creation is in UTC.
#[derive(Debug, PartialEq, Eq)]
pub struct Model {
    pub group_id: GroupId,
    pub display_name: String,
    pub creation_date: NaiveDateTime,
    pub uuid: Uuid,
}

/// A group with its members.
#[derive(Debug, PartialEq, Eq)]
pub struct Group {
    pub id: GroupId,
    pub display_name: String,
    pub creation_date: NaiveDateTime,
    pub uuid: Uuid,
    pub users: Vec<UserId>,
}

/// A group without its members.
#[derive(Debug, PartialEq, Eq)]
pub struct GroupDetails {
    pub group_id: GroupId,
    pub display_name: String,
    pub creation_date: NaiveDateTime,
    pub uuid: Uuid,
}

impl From<Model> for Group {
    /// The group of a stored record: the record's own fields, and no member.
    fn from(group: Model) -> (res: Self)
        ensures
            res.id == group.group_id,
            res.display_name == group.display_name,
            res.creation_date == group.creation_date,
            res.uuid == group.uuid,
            res.users@ == Seq::<UserId>::empty(),
    {
        Self {
            id: group.group_id,
            display_name: group.display_name,
            creation_date: group.creation_date,
            uuid: group.uuid,
            users: Vec::new(),
        }
    }
}

impl FromSpecImpl<Model> for Group {
    /// The contract of `from` stands on `from` itself: ghost code can make
    /// no list, not even the empty list of members.
    open spec fn obeys_from_spec() -> bool {
        false
    }

    open spec fn from_spec(group: Model) -> Self {
        Group {
            id: group.group_id,
            display_name: group.display_name,
            creation_date: group.creation_date,
            uuid: group.uuid,
            users: arbitrary(),
        }
    }
}

impl From<Model> for GroupDetails {
    /// The details of a stored record: the record's own fields.
    fn from(group: Model) -> (res: Self) {
        Self {
            group_id: group.group_id,
            display_name: group.display_name,
            creation_date: group.creation_date,
            uuid: group.uuid,
        }
    }
}

impl FromSpecImpl<Model> for GroupDetails {
    open spec fn obeys_from_spec() -> bool {
        true
    }

    open spec fn from_spec(group: Model) -> Self {
        GroupDetails {
            group_id: group.group_id,
            display_name: group.display_name,
            creation_date: group.creation_date,
            uuid: group.uuid,
        }
    }
}

} // verus!
