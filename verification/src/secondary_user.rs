//! The secondary users of an API key, as the user store holds them.

use vstd::prelude::*;

verus! {

/// What a secondary user may do with the key.
#[derive(Clone, Copy, Debug, PartialEq, Eq, Structural)]
pub enum Role {
    Owner,
    Admin,
    Collaborator,
}

/// One row of the table `secondary_user`.
#[derive(Clone, Debug, PartialEq, Eq)]
pub struct Model {
    pub id: u64,
    pub user_id: u64,
    pub description: Option<String>,
    pub role: Role,
    pub rpc_secret_key_id: u64,
}

/// The columns of the table `secondary_user`.
#[derive(Clone, Copy, Debug, PartialEq, Eq, Structural)]
pub enum Column {
    Id,
    UserId,
    Description,
    Role,
    RpcSecretKeyId,
}

/// The tables that a secondary user belongs to.
#[derive(Clone, Copy, Debug, PartialEq, Eq, Structural)]
pub enum Relation {
    /// The API key that the user shares.
    RpcKey,
    /// The user itself.
    User,
}

/// How a row refers to the row of another table that it belongs to.
#[derive(Clone, Copy, Debug, PartialEq, Eq, Structural)]
pub struct RelationDef {
    /// The column that holds the reference.
    pub from: Column,
    /// The table that is referred to.
    pub to: Relation,
}

impl Relation {
    /// The column by which a row refers to this table; it holds the `id`
    /// of the row that it belongs to.
    pub open spec fn spec_def(self) -> RelationDef {
        match self {
            Relation::RpcKey => RelationDef { from: Column::RpcSecretKeyId, to: Relation::RpcKey },
            Relation::User => RelationDef { from: Column::UserId, to: Relation::User },
        }
    }

    /// The column by which a row refers to this table.
    pub fn def(&self) -> (r: RelationDef)
        ensures
            r == self.spec_def(),
    {
        match self {
            Relation::RpcKey => RelationDef { from: Column::RpcSecretKeyId, to: Relation::RpcKey },
            Relation::User => RelationDef { from: Column::UserId, to: Relation::User },
        }
    }
}

impl Model {
    /// The id of the row of table `relation` that this row belongs to.
    pub fn related_id(&self, relation: Relation) -> (r: u64)
        ensures
            r == (match relation.spec_def().from {
                Column::RpcSecretKeyId => self.rpc_secret_key_id,
                Column::UserId => self.user_id,
                _ => self.id,
            }),
    {
        match relation.def().from {
            Column::RpcSecretKeyId => self.rpc_secret_key_id,
            Column::UserId => self.user_id,
            _ => self.id,
        }
    }
}

} // verus!
