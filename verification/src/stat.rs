//! The statistics dump: one record per frontend, backend, server and
//! listener.
//!
//! A row says what it describes in its `type` attribute. The table that maps
//! that discriminant to a role is [`role_of`]; the CSV decoder and the JSON
//! decoder both go by it.

pub mod csv;
pub mod json;
pub mod records;
pub mod status;

pub use csv::{RowError, StatisticsFromCsvBytesError};
pub use json::{
    JsonOutput, JsonOutputItem, ObjectError, ObjectErrorKind, StatisticsFromJsonBytesError,
};
pub use records::{BackendStatistic, FrontendStatistic, ListenerStatistic, ServerStatistic};
pub use status::{CheckStatus, Status};

use crate::bind::{
    attribute_views, bound, Attribute, BindError, BindFailure, FieldDef, FieldKind, SlotView,
    schema_view,
};
use crate::text::str_eq;
use vstd::prelude::*;

verus! {

/// What `svname` holds in the row of a frontend.
pub const SVNAME_FRONTEND: &'static str = "FRONTEND";

/// What `svname` holds in the row of a backend.
pub const SVNAME_BACKEND: &'static str = "BACKEND";

/// What a record describes.
#[derive(Debug, Clone, Copy, PartialEq, Eq, Structural)]
pub enum Role {
    Frontend,
    Backend,
    Server,
    Listener,
}

/// The role that a `type` discriminant stands for: `0` a frontend, `1` a
/// backend, `2` a server, `3` a listener, as the protocol numbers them. No
/// other text is a discriminant.
pub open spec fn role_of(tag: Seq<char>) -> Option<Role> {
    if tag == "0"@ {
        Some(Role::Frontend)
    } else if tag == "1"@ {
        Some(Role::Backend)
    } else if tag == "2"@ {
        Some(Role::Server)
    } else if tag == "3"@ {
        Some(Role::Listener)
    } else {
        None
    }
}

impl Role {
    /// The role that the discriminant `tag` stands for.
    pub fn from_tag(tag: &str) -> (r: Option<Role>)
        ensures
            r == role_of(tag@),
    {
        if str_eq(tag, "0") {
            Some(Role::Frontend)
        } else if str_eq(tag, "1") {
            Some(Role::Backend)
        } else if str_eq(tag, "2") {
            Some(Role::Server)
        } else if str_eq(tag, "3") {
            Some(Role::Listener)
        } else {
            None
        }
    }

    /// The discriminant of the role.
    pub fn tag(self) -> (r: &'static str)
        ensures
            role_of(r@) == Some(self),
    {
        proof {
            reveal_strlit("0");
            reveal_strlit("1");
            reveal_strlit("2");
            reveal_strlit("3");
            assert("1"@[0] != "0"@[0]);
            assert("2"@[0] != "0"@[0] && "2"@[0] != "1"@[0]);
            assert("3"@[0] != "0"@[0] && "3"@[0] != "1"@[0] && "3"@[0] != "2"@[0]);
        }
        match self {
            Role::Frontend => "0",
            Role::Backend => "1",
            Role::Server => "2",
            Role::Listener => "3",
        }
    }

    /// The schema of the records of this role.
    pub open spec fn fields(self) -> Seq<(Seq<char>, FieldKind)> {
        match self {
            Role::Frontend => FrontendStatistic::fields(),
            Role::Backend => BackendStatistic::fields(),
            Role::Server => ServerStatistic::fields(),
            Role::Listener => ListenerStatistic::fields(),
        }
    }

    /// What `svname` must hold in a CSV row of this role, if the role fixes
    /// it.
    pub open spec fn fixed_svname(self) -> Option<Seq<char>> {
        match self {
            Role::Frontend => Some(SVNAME_FRONTEND@),
            Role::Backend => Some(SVNAME_BACKEND@),
            _ => None,
        }
    }
}

/// One record of the dump.
#[derive(Debug, Clone, PartialEq, Eq)]
pub enum Statistic {
    Frontend(FrontendStatistic),
    Backend(BackendStatistic),
    Server(ServerStatistic),
    Listener(ListenerStatistic),
}

/// A record as mathematics sees it: its role and its field values in the
/// order of the role's schema.
pub struct StatisticView {
    pub role: Role,
    pub slots: Seq<SlotView>,
}

impl View for Statistic {
    type V = StatisticView;

    open spec fn view(&self) -> StatisticView {
        match self {
            Statistic::Frontend(s) => StatisticView { role: Role::Frontend, slots: s@ },
            Statistic::Backend(s) => StatisticView { role: Role::Backend, slots: s@ },
            Statistic::Server(s) => StatisticView { role: Role::Server, slots: s@ },
            Statistic::Listener(s) => StatisticView { role: Role::Listener, slots: s@ },
        }
    }
}

/// The schemas of the four roles, built once for a whole decode.
pub struct Schemas {
    frontend: Vec<FieldDef>,
    backend: Vec<FieldDef>,
    server: Vec<FieldDef>,
    listener: Vec<FieldDef>,
}

impl Schemas {
    /// Each schema is that of its role.
    #[verifier::type_invariant]
    spec fn complete(&self) -> bool {
        &&& schema_view(self.frontend@) == FrontendStatistic::fields()
        &&& schema_view(self.backend@) == BackendStatistic::fields()
        &&& schema_view(self.server@) == ServerStatistic::fields()
        &&& schema_view(self.listener@) == ListenerStatistic::fields()
    }

    /// The schema that is held for the records of `role`: its fields in
    /// order, each with its name and kind.
    pub closed spec fn of(&self, role: Role) -> Seq<(Seq<char>, FieldKind)> {
        match role {
            Role::Frontend => schema_view(self.frontend@),
            Role::Backend => schema_view(self.backend@),
            Role::Server => schema_view(self.server@),
            Role::Listener => schema_view(self.listener@),
        }
    }

    /// The four schemas: for every role, the schema of its records.
    pub fn new() -> (r: Schemas)
        ensures
            forall|role: Role| #[trigger] r.of(role) == role.fields(),
    {
        Schemas {
            frontend: FrontendStatistic::schema(),
            backend: BackendStatistic::schema(),
            server: ServerStatistic::schema(),
            listener: ListenerStatistic::schema(),
        }
    }
}

impl Statistic {
    /// The role of the record.
    pub fn role(&self) -> (r: Role)
        ensures
            r == self@.role,
    {
        match self {
            Statistic::Frontend(_) => Role::Frontend,
            Statistic::Backend(_) => Role::Backend,
            Statistic::Server(_) => Role::Server,
            Statistic::Listener(_) => Role::Listener,
        }
    }

    /// Whether the states of the record are held in their canonical form.
    pub open spec fn wf(&self) -> bool {
        match self {
            Statistic::Frontend(s) => s.wf(),
            Statistic::Backend(s) => s.wf(),
            Statistic::Server(s) => s.wf(),
            Statistic::Listener(s) => s.wf(),
        }
    }

    /// The record, if it describes a frontend.
    pub fn as_frontend(&self) -> (r: Option<&FrontendStatistic>)
        ensures
            r == (match self {
                Statistic::Frontend(s) => Some(s),
                _ => None,
            }),
    {
        match self {
            Statistic::Frontend(s) => Some(s),
            _ => None,
        }
    }

    /// The record, if it describes a backend.
    pub fn as_backend(&self) -> (r: Option<&BackendStatistic>)
        ensures
            r == (match self {
                Statistic::Backend(s) => Some(s),
                _ => None,
            }),
    {
        match self {
            Statistic::Backend(s) => Some(s),
            _ => None,
        }
    }

    /// The record, if it describes a server.
    pub fn as_server(&self) -> (r: Option<&ServerStatistic>)
        ensures
            r == (match self {
                Statistic::Server(s) => Some(s),
                _ => None,
            }),
    {
        match self {
            Statistic::Server(s) => Some(s),
            _ => None,
        }
    }

    /// The record, if it describes a listener.
    pub fn as_listener(&self) -> (r: Option<&ListenerStatistic>)
        ensures
            r == (match self {
                Statistic::Listener(s) => Some(s),
                _ => None,
            }),
    {
        match self {
            Statistic::Listener(s) => Some(s),
            _ => None,
        }
    }

    /// Binds `attrs` to the schema of `role`: the record of that role, or the
    /// first field of the schema that cannot be bound.
    pub fn bind(role: Role, schemas: &Schemas, attrs: &Vec<Attribute>) -> (r: Result<
        Statistic,
        BindError,
    >)
        ensures
            match r {
                Ok(record) => {
                    &&& bound(role.fields(), attribute_views(attrs@)) == Ok::<
                        Seq<SlotView>,
                        BindFailure,
                    >(record@.slots)
                    &&& record@.role == role
                    &&& record.wf()
                },
                Err(e) => {
                    &&& bound(role.fields(), attribute_views(attrs@)) == Err::<
                        Seq<SlotView>,
                        BindFailure,
                    >(e@)
                },
            },
    {
        match role {
            Role::Frontend => match FrontendStatistic::bind(schemas, attrs) {
                Ok(s) => Ok(Statistic::Frontend(s)),
                Err(e) => Err(e),
            },
            Role::Backend => match BackendStatistic::bind(schemas, attrs) {
                Ok(s) => Ok(Statistic::Backend(s)),
                Err(e) => Err(e),
            },
            Role::Server => match ServerStatistic::bind(schemas, attrs) {
                Ok(s) => Ok(Statistic::Server(s)),
                Err(e) => Err(e),
            },
            Role::Listener => match ListenerStatistic::bind(schemas, attrs) {
                Ok(s) => Ok(Statistic::Listener(s)),
                Err(e) => Err(e),
            },
        }
    }
}

/// The records of a dump, in the order of its rows.
#[derive(Debug, Clone, PartialEq, Eq)]
pub struct Statistics(pub Vec<Statistic>);

/// The records `records` as mathematics sees them.
pub open spec fn statistic_views(records: Seq<Statistic>) -> Seq<StatisticView> {
    Seq::new(records.len(), |i: int| records[i]@)
}

impl View for Statistics {
    type V = Seq<StatisticView>;

    open spec fn view(&self) -> Seq<StatisticView> {
        statistic_views(self.0@)
    }
}

impl core::ops::Deref for Statistics {
    type Target = Vec<Statistic>;

    fn deref(&self) -> (r: &Vec<Statistic>)
        ensures
            r == &self.0,
    {
        &self.0
    }
}

} // verus!
