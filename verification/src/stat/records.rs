//! The four kinds of record of the statistics dump. Each kind has its own
//! schema: the attributes it takes from a row, in order, and what each holds.
//! The view of a record is the sequence of its field values in schema order.

use crate::bind::{
    attribute_views, bind, bound, conforms, schema_view, slot_views, Attribute, BindError,
    BindFailure, FieldDef, FieldKind, Slot, SlotView,
};
use crate::stat::status::{check_text, CheckStatus, Status};
use crate::stat::Schemas;
use vstd::prelude::*;

verus! {

/// The counters of one listening socket.
#[derive(Debug, Clone, PartialEq, Eq)]
pub struct ListenerStatistic {
    pub pxname: String,
    pub svname: String,
    pub scur: usize,
    pub smax: usize,
    pub slim: usize,
    pub stot: usize,
    pub bin: usize,
    pub bout: usize,
    pub dreq: usize,
    pub dresp: usize,
    pub ereq: usize,
    pub status: Status,
    pub pid: usize,
    pub iid: usize,
    pub sid: usize,
}

impl View for ListenerStatistic {
    type V = Seq<SlotView>;

    open spec fn view(&self) -> Seq<SlotView> {
        seq![
            SlotView::Text(self.pxname@),
            SlotView::Text(self.svname@),
            SlotView::Count(self.scur),
            SlotView::Count(self.smax),
            SlotView::Count(self.slim),
            SlotView::Count(self.stot),
            SlotView::Count(self.bin),
            SlotView::Count(self.bout),
            SlotView::Count(self.dreq),
            SlotView::Count(self.dresp),
            SlotView::Count(self.ereq),
            SlotView::Text(self.status.text()),
            SlotView::Count(self.pid),
            SlotView::Count(self.iid),
            SlotView::Count(self.sid),
        ]
    }
}

impl ListenerStatistic {
    /// The schema of the record: the attributes it is bound from.
    pub open spec fn fields() -> Seq<(Seq<char>, FieldKind)> {
        seq![
            ("pxname"@, FieldKind::Text),
            ("svname"@, FieldKind::Text),
            ("scur"@, FieldKind::Count),
            ("smax"@, FieldKind::Count),
            ("slim"@, FieldKind::Count),
            ("stot"@, FieldKind::Count),
            ("bin"@, FieldKind::Count),
            ("bout"@, FieldKind::Count),
            ("dreq"@, FieldKind::Count),
            ("dresp"@, FieldKind::Count),
            ("ereq"@, FieldKind::Count),
            ("status"@, FieldKind::Text),
            ("pid"@, FieldKind::Count),
            ("iid"@, FieldKind::Count),
            ("sid"@, FieldKind::Count),
        ]
    }

    /// Whether the states of the record are held in their canonical form.
    pub open spec fn wf(&self) -> bool {
        self.status.canonical()
    }

    /// The schema of the record, for the binder.
    pub fn schema() -> (r: Vec<FieldDef>)
        ensures
            schema_view(r@) == Self::fields(),
    {
        let mut defs: Vec<FieldDef> = Vec::new();
        defs.push(FieldDef::new("pxname", FieldKind::Text));
        defs.push(FieldDef::new("svname", FieldKind::Text));
        defs.push(FieldDef::new("scur", FieldKind::Count));
        defs.push(FieldDef::new("smax", FieldKind::Count));
        defs.push(FieldDef::new("slim", FieldKind::Count));
        defs.push(FieldDef::new("stot", FieldKind::Count));
        defs.push(FieldDef::new("bin", FieldKind::Count));
        defs.push(FieldDef::new("bout", FieldKind::Count));
        defs.push(FieldDef::new("dreq", FieldKind::Count));
        defs.push(FieldDef::new("dresp", FieldKind::Count));
        defs.push(FieldDef::new("ereq", FieldKind::Count));
        defs.push(FieldDef::new("status", FieldKind::Text));
        defs.push(FieldDef::new("pid", FieldKind::Count));
        defs.push(FieldDef::new("iid", FieldKind::Count));
        defs.push(FieldDef::new("sid", FieldKind::Count));
        proof {
            assert(schema_view(defs@) =~= Self::fields());
        }
        defs
    }

    /// The record whose fields are `slots`, in schema order.
    fn from_slots(slots: &Vec<Slot>) -> (r: Self)
        requires
            conforms(Self::fields(), slot_views(slots@)),
        ensures
            r@ == slot_views(slots@),
            r.wf(),
    {
        proof {
            let given = slot_views(slots@);
            let fields = Self::fields();
            assert(given[0] == slots@[0]@ && fields[0].1 == FieldKind::Text);
            assert(given[1] == slots@[1]@ && fields[1].1 == FieldKind::Text);
            assert(given[2] == slots@[2]@ && fields[2].1 == FieldKind::Count);
            assert(given[3] == slots@[3]@ && fields[3].1 == FieldKind::Count);
            assert(given[4] == slots@[4]@ && fields[4].1 == FieldKind::Count);
            assert(given[5] == slots@[5]@ && fields[5].1 == FieldKind::Count);
            assert(given[6] == slots@[6]@ && fields[6].1 == FieldKind::Count);
            assert(given[7] == slots@[7]@ && fields[7].1 == FieldKind::Count);
            assert(given[8] == slots@[8]@ && fields[8].1 == FieldKind::Count);
            assert(given[9] == slots@[9]@ && fields[9].1 == FieldKind::Count);
            assert(given[10] == slots@[10]@ && fields[10].1 == FieldKind::Count);
            assert(given[11] == slots@[11]@ && fields[11].1 == FieldKind::Text);
            assert(given[12] == slots@[12]@ && fields[12].1 == FieldKind::Count);
            assert(given[13] == slots@[13]@ && fields[13].1 == FieldKind::Count);
            assert(given[14] == slots@[14]@ && fields[14].1 == FieldKind::Count);
        }
        let r = ListenerStatistic {
            pxname: slots[0].text(),
            svname: slots[1].text(),
            scur: slots[2].count(),
            smax: slots[3].count(),
            slim: slots[4].count(),
            stot: slots[5].count(),
            bin: slots[6].count(),
            bout: slots[7].count(),
            dreq: slots[8].count(),
            dresp: slots[9].count(),
            ereq: slots[10].count(),
            status: Status::from_text(slots[11].text()),
            pid: slots[12].count(),
            iid: slots[13].count(),
            sid: slots[14].count(),
        };
        proof {
            assert(r@ =~= slot_views(slots@));
        }
        r
    }

    /// Binds `attrs` to the record's schema: the record, or the first field
    /// that cannot be bound.
    pub fn bind(schemas: &Schemas, attrs: &Vec<Attribute>) -> (r: Result<Self, BindError>)
        ensures
            match r {
                Ok(record) => {
                    &&& bound(Self::fields(), attribute_views(attrs@)) == Ok::<
                        Seq<SlotView>,
                        BindFailure,
                    >(record@)
                    &&& record.wf()
                },
                Err(e) => bound(Self::fields(), attribute_views(attrs@)) == Err::<
                    Seq<SlotView>,
                    BindFailure,
                >(e@),
            },
    {
        proof {
            use_type_invariant(schemas);
        }
        match bind(schemas.listener.as_slice(), attrs.as_slice()) {
            Ok(slots) => Ok(Self::from_slots(&slots)),
            Err(e) => Err(e),
        }
    }
}

/// The accept-side counters of one proxy.
#[derive(Debug, Clone, PartialEq, Eq)]
pub struct FrontendStatistic {
    pub pxname: String,
    pub scur: usize,
    pub smax: usize,
    pub slim: usize,
    pub stot: usize,
    pub bin: usize,
    pub bout: usize,
    pub dreq: usize,
    pub dresp: usize,
    pub ereq: usize,
    pub status: Status,
    pub pid: usize,
    pub iid: usize,
    pub rate: usize,
    pub rate_lim: usize,
    pub rate_max: usize,
    pub hrsp_1xx: Option<usize>,
    pub hrsp_2xx: Option<usize>,
    pub hrsp_3xx: Option<usize>,
    pub hrsp_4xx: Option<usize>,
    pub hrsp_5xx: Option<usize>,
    pub hrsp_other: Option<usize>,
    pub req_rate: Option<usize>,
    pub req_rate_max: Option<usize>,
    pub req_tot: Option<usize>,
}

impl View for FrontendStatistic {
    type V = Seq<SlotView>;

    open spec fn view(&self) -> Seq<SlotView> {
        seq![
            SlotView::Text(self.pxname@),
            SlotView::Count(self.scur),
            SlotView::Count(self.smax),
            SlotView::Count(self.slim),
            SlotView::Count(self.stot),
            SlotView::Count(self.bin),
            SlotView::Count(self.bout),
            SlotView::Count(self.dreq),
            SlotView::Count(self.dresp),
            SlotView::Count(self.ereq),
            SlotView::Text(self.status.text()),
            SlotView::Count(self.pid),
            SlotView::Count(self.iid),
            SlotView::Count(self.rate),
            SlotView::Count(self.rate_lim),
            SlotView::Count(self.rate_max),
            SlotView::OptCount(self.hrsp_1xx),
            SlotView::OptCount(self.hrsp_2xx),
            SlotView::OptCount(self.hrsp_3xx),
            SlotView::OptCount(self.hrsp_4xx),
            SlotView::OptCount(self.hrsp_5xx),
            SlotView::OptCount(self.hrsp_other),
            SlotView::OptCount(self.req_rate),
            SlotView::OptCount(self.req_rate_max),
            SlotView::OptCount(self.req_tot),
        ]
    }
}

impl FrontendStatistic {
    /// The schema of the record: the attributes it is bound from.
    pub open spec fn fields() -> Seq<(Seq<char>, FieldKind)> {
        seq![
            ("pxname"@, FieldKind::Text),
            ("scur"@, FieldKind::Count),
            ("smax"@, FieldKind::Count),
            ("slim"@, FieldKind::Count),
            ("stot"@, FieldKind::Count),
            ("bin"@, FieldKind::Count),
            ("bout"@, FieldKind::Count),
            ("dreq"@, FieldKind::Count),
            ("dresp"@, FieldKind::Count),
            ("ereq"@, FieldKind::Count),
            ("status"@, FieldKind::Text),
            ("pid"@, FieldKind::Count),
            ("iid"@, FieldKind::Count),
            ("rate"@, FieldKind::Count),
            ("rate_lim"@, FieldKind::Count),
            ("rate_max"@, FieldKind::Count),
            ("hrsp_1xx"@, FieldKind::OptCount),
            ("hrsp_2xx"@, FieldKind::OptCount),
            ("hrsp_3xx"@, FieldKind::OptCount),
            ("hrsp_4xx"@, FieldKind::OptCount),
            ("hrsp_5xx"@, FieldKind::OptCount),
            ("hrsp_other"@, FieldKind::OptCount),
            ("req_rate"@, FieldKind::OptCount),
            ("req_rate_max"@, FieldKind::OptCount),
            ("req_tot"@, FieldKind::OptCount),
        ]
    }

    /// Whether the states of the record are held in their canonical form.
    pub open spec fn wf(&self) -> bool {
        self.status.canonical()
    }

    /// The schema of the record, for the binder.
    pub fn schema() -> (r: Vec<FieldDef>)
        ensures
            schema_view(r@) == Self::fields(),
    {
        let mut defs: Vec<FieldDef> = Vec::new();
        defs.push(FieldDef::new("pxname", FieldKind::Text));
        defs.push(FieldDef::new("scur", FieldKind::Count));
        defs.push(FieldDef::new("smax", FieldKind::Count));
        defs.push(FieldDef::new("slim", FieldKind::Count));
        defs.push(FieldDef::new("stot", FieldKind::Count));
        defs.push(FieldDef::new("bin", FieldKind::Count));
        defs.push(FieldDef::new("bout", FieldKind::Count));
        defs.push(FieldDef::new("dreq", FieldKind::Count));
        defs.push(FieldDef::new("dresp", FieldKind::Count));
        defs.push(FieldDef::new("ereq", FieldKind::Count));
        defs.push(FieldDef::new("status", FieldKind::Text));
        defs.push(FieldDef::new("pid", FieldKind::Count));
        defs.push(FieldDef::new("iid", FieldKind::Count));
        defs.push(FieldDef::new("rate", FieldKind::Count));
        defs.push(FieldDef::new("rate_lim", FieldKind::Count));
        defs.push(FieldDef::new("rate_max", FieldKind::Count));
        defs.push(FieldDef::new("hrsp_1xx", FieldKind::OptCount));
        defs.push(FieldDef::new("hrsp_2xx", FieldKind::OptCount));
        defs.push(FieldDef::new("hrsp_3xx", FieldKind::OptCount));
        defs.push(FieldDef::new("hrsp_4xx", FieldKind::OptCount));
        defs.push(FieldDef::new("hrsp_5xx", FieldKind::OptCount));
        defs.push(FieldDef::new("hrsp_other", FieldKind::OptCount));
        defs.push(FieldDef::new("req_rate", FieldKind::OptCount));
        defs.push(FieldDef::new("req_rate_max", FieldKind::OptCount));
        defs.push(FieldDef::new("req_tot", FieldKind::OptCount));
        proof {
            assert(schema_view(defs@) =~= Self::fields());
        }
        defs
    }

    /// The record whose fields are `slots`, in schema order.
    fn from_slots(slots: &Vec<Slot>) -> (r: Self)
        requires
            conforms(Self::fields(), slot_views(slots@)),
        ensures
            r@ == slot_views(slots@),
            r.wf(),
    {
        proof {
            let given = slot_views(slots@);
            let fields = Self::fields();
            assert(given[0] == slots@[0]@ && fields[0].1 == FieldKind::Text);
            assert(given[1] == slots@[1]@ && fields[1].1 == FieldKind::Count);
            assert(given[2] == slots@[2]@ && fields[2].1 == FieldKind::Count);
            assert(given[3] == slots@[3]@ && fields[3].1 == FieldKind::Count);
            assert(given[4] == slots@[4]@ && fields[4].1 == FieldKind::Count);
            assert(given[5] == slots@[5]@ && fields[5].1 == FieldKind::Count);
            assert(given[6] == slots@[6]@ && fields[6].1 == FieldKind::Count);
            assert(given[7] == slots@[7]@ && fields[7].1 == FieldKind::Count);
            assert(given[8] == slots@[8]@ && fields[8].1 == FieldKind::Count);
            assert(given[9] == slots@[9]@ && fields[9].1 == FieldKind::Count);
            assert(given[10] == slots@[10]@ && fields[10].1 == FieldKind::Text);
            assert(given[11] == slots@[11]@ && fields[11].1 == FieldKind::Count);
            assert(given[12] == slots@[12]@ && fields[12].1 == FieldKind::Count);
            assert(given[13] == slots@[13]@ && fields[13].1 == FieldKind::Count);
            assert(given[14] == slots@[14]@ && fields[14].1 == FieldKind::Count);
            assert(given[15] == slots@[15]@ && fields[15].1 == FieldKind::Count);
            assert(given[16] == slots@[16]@ && fields[16].1 == FieldKind::OptCount);
            assert(given[17] == slots@[17]@ && fields[17].1 == FieldKind::OptCount);
            assert(given[18] == slots@[18]@ && fields[18].1 == FieldKind::OptCount);
            assert(given[19] == slots@[19]@ && fields[19].1 == FieldKind::OptCount);
            assert(given[20] == slots@[20]@ && fields[20].1 == FieldKind::OptCount);
            assert(given[21] == slots@[21]@ && fields[21].1 == FieldKind::OptCount);
            assert(given[22] == slots@[22]@ && fields[22].1 == FieldKind::OptCount);
            assert(given[23] == slots@[23]@ && fields[23].1 == FieldKind::OptCount);
            assert(given[24] == slots@[24]@ && fields[24].1 == FieldKind::OptCount);
        }
        let r = FrontendStatistic {
            pxname: slots[0].text(),
            scur: slots[1].count(),
            smax: slots[2].count(),
            slim: slots[3].count(),
            stot: slots[4].count(),
            bin: slots[5].count(),
            bout: slots[6].count(),
            dreq: slots[7].count(),
            dresp: slots[8].count(),
            ereq: slots[9].count(),
            status: Status::from_text(slots[10].text()),
            pid: slots[11].count(),
            iid: slots[12].count(),
            rate: slots[13].count(),
            rate_lim: slots[14].count(),
            rate_max: slots[15].count(),
            hrsp_1xx: slots[16].opt_count(),
            hrsp_2xx: slots[17].opt_count(),
            hrsp_3xx: slots[18].opt_count(),
            hrsp_4xx: slots[19].opt_count(),
            hrsp_5xx: slots[20].opt_count(),
            hrsp_other: slots[21].opt_count(),
            req_rate: slots[22].opt_count(),
            req_rate_max: slots[23].opt_count(),
            req_tot: slots[24].opt_count(),
        };
        proof {
            assert(r@ =~= slot_views(slots@));
        }
        r
    }

    /// Binds `attrs` to the record's schema: the record, or the first field
    /// that cannot be bound.
    pub fn bind(schemas: &Schemas, attrs: &Vec<Attribute>) -> (r: Result<Self, BindError>)
        ensures
            match r {
                Ok(record) => {
                    &&& bound(Self::fields(), attribute_views(attrs@)) == Ok::<
                        Seq<SlotView>,
                        BindFailure,
                    >(record@)
                    &&& record.wf()
                },
                Err(e) => bound(Self::fields(), attribute_views(attrs@)) == Err::<
                    Seq<SlotView>,
                    BindFailure,
                >(e@),
            },
    {
        proof {
            use_type_invariant(schemas);
        }
        match bind(schemas.frontend.as_slice(), attrs.as_slice()) {
            Ok(slots) => Ok(Self::from_slots(&slots)),
            Err(e) => Err(e),
        }
    }
}

/// The dispatch-side counters of one proxy.
#[derive(Debug, Clone, PartialEq, Eq)]
pub struct BackendStatistic {
    pub pxname: String,
    pub qcur: usize,
    pub qmax: usize,
    pub scur: usize,
    pub smax: usize,
    pub slim: usize,
    pub stot: usize,
    pub bin: usize,
    pub bout: usize,
    pub dreq: usize,
    pub dresp: usize,
    pub econ: usize,
    pub eresp: usize,
    pub wretr: usize,
    pub wredis: usize,
    pub status: Status,
    pub weight: usize,
    pub act: usize,
    pub bck: usize,
    pub chkdown: usize,
    pub lastchg: usize,
    /// Absent in the output of older servers.
    pub downtime: Option<usize>,
    pub pid: usize,
    pub iid: usize,
    pub lbtot: usize,
    pub rate: usize,
    pub rate_max: usize,
    pub hrsp_1xx: Option<usize>,
    pub hrsp_2xx: Option<usize>,
    pub hrsp_3xx: Option<usize>,
    pub hrsp_4xx: Option<usize>,
    pub hrsp_5xx: Option<usize>,
    pub hrsp_other: Option<usize>,
    pub req_tot: Option<usize>,
    pub cli_abrt: usize,
    pub srv_abrt: usize,
}

impl View for BackendStatistic {
    type V = Seq<SlotView>;

    open spec fn view(&self) -> Seq<SlotView> {
        seq![
            SlotView::Text(self.pxname@),
            SlotView::Count(self.qcur),
            SlotView::Count(self.qmax),
            SlotView::Count(self.scur),
            SlotView::Count(self.smax),
            SlotView::Count(self.slim),
            SlotView::Count(self.stot),
            SlotView::Count(self.bin),
            SlotView::Count(self.bout),
            SlotView::Count(self.dreq),
            SlotView::Count(self.dresp),
            SlotView::Count(self.econ),
            SlotView::Count(self.eresp),
            SlotView::Count(self.wretr),
            SlotView::Count(self.wredis),
            SlotView::Text(self.status.text()),
            SlotView::Count(self.weight),
            SlotView::Count(self.act),
            SlotView::Count(self.bck),
            SlotView::Count(self.chkdown),
            SlotView::Count(self.lastchg),
            SlotView::OptCount(self.downtime),
            SlotView::Count(self.pid),
            SlotView::Count(self.iid),
            SlotView::Count(self.lbtot),
            SlotView::Count(self.rate),
            SlotView::Count(self.rate_max),
            SlotView::OptCount(self.hrsp_1xx),
            SlotView::OptCount(self.hrsp_2xx),
            SlotView::OptCount(self.hrsp_3xx),
            SlotView::OptCount(self.hrsp_4xx),
            SlotView::OptCount(self.hrsp_5xx),
            SlotView::OptCount(self.hrsp_other),
            SlotView::OptCount(self.req_tot),
            SlotView::Count(self.cli_abrt),
            SlotView::Count(self.srv_abrt),
        ]
    }
}

impl BackendStatistic {
    /// The schema of the record: the attributes it is bound from.
    pub open spec fn fields() -> Seq<(Seq<char>, FieldKind)> {
        seq![
            ("pxname"@, FieldKind::Text),
            ("qcur"@, FieldKind::Count),
            ("qmax"@, FieldKind::Count),
            ("scur"@, FieldKind::Count),
            ("smax"@, FieldKind::Count),
            ("slim"@, FieldKind::Count),
            ("stot"@, FieldKind::Count),
            ("bin"@, FieldKind::Count),
            ("bout"@, FieldKind::Count),
            ("dreq"@, FieldKind::Count),
            ("dresp"@, FieldKind::Count),
            ("econ"@, FieldKind::Count),
            ("eresp"@, FieldKind::Count),
            ("wretr"@, FieldKind::Count),
            ("wredis"@, FieldKind::Count),
            ("status"@, FieldKind::Text),
            ("weight"@, FieldKind::Count),
            ("act"@, FieldKind::Count),
            ("bck"@, FieldKind::Count),
            ("chkdown"@, FieldKind::Count),
            ("lastchg"@, FieldKind::Count),
            ("downtime"@, FieldKind::OptCount),
            ("pid"@, FieldKind::Count),
            ("iid"@, FieldKind::Count),
            ("lbtot"@, FieldKind::Count),
            ("rate"@, FieldKind::Count),
            ("rate_max"@, FieldKind::Count),
            ("hrsp_1xx"@, FieldKind::OptCount),
            ("hrsp_2xx"@, FieldKind::OptCount),
            ("hrsp_3xx"@, FieldKind::OptCount),
            ("hrsp_4xx"@, FieldKind::OptCount),
            ("hrsp_5xx"@, FieldKind::OptCount),
            ("hrsp_other"@, FieldKind::OptCount),
            ("req_tot"@, FieldKind::OptCount),
            ("cli_abrt"@, FieldKind::Count),
            ("srv_abrt"@, FieldKind::Count),
        ]
    }

    /// Whether the states of the record are held in their canonical form.
    pub open spec fn wf(&self) -> bool {
        self.status.canonical()
    }

    /// The schema of the record, for the binder.
    pub fn schema() -> (r: Vec<FieldDef>)
        ensures
            schema_view(r@) == Self::fields(),
    {
        let mut defs: Vec<FieldDef> = Vec::new();
        defs.push(FieldDef::new("pxname", FieldKind::Text));
        defs.push(FieldDef::new("qcur", FieldKind::Count));
        defs.push(FieldDef::new("qmax", FieldKind::Count));
        defs.push(FieldDef::new("scur", FieldKind::Count));
        defs.push(FieldDef::new("smax", FieldKind::Count));
        defs.push(FieldDef::new("slim", FieldKind::Count));
        defs.push(FieldDef::new("stot", FieldKind::Count));
        defs.push(FieldDef::new("bin", FieldKind::Count));
        defs.push(FieldDef::new("bout", FieldKind::Count));
        defs.push(FieldDef::new("dreq", FieldKind::Count));
        defs.push(FieldDef::new("dresp", FieldKind::Count));
        defs.push(FieldDef::new("econ", FieldKind::Count));
        defs.push(FieldDef::new("eresp", FieldKind::Count));
        defs.push(FieldDef::new("wretr", FieldKind::Count));
        defs.push(FieldDef::new("wredis", FieldKind::Count));
        defs.push(FieldDef::new("status", FieldKind::Text));
        defs.push(FieldDef::new("weight", FieldKind::Count));
        defs.push(FieldDef::new("act", FieldKind::Count));
        defs.push(FieldDef::new("bck", FieldKind::Count));
        defs.push(FieldDef::new("chkdown", FieldKind::Count));
        defs.push(FieldDef::new("lastchg", FieldKind::Count));
        defs.push(FieldDef::new("downtime", FieldKind::OptCount));
        defs.push(FieldDef::new("pid", FieldKind::Count));
        defs.push(FieldDef::new("iid", FieldKind::Count));
        defs.push(FieldDef::new("lbtot", FieldKind::Count));
        defs.push(FieldDef::new("rate", FieldKind::Count));
        defs.push(FieldDef::new("rate_max", FieldKind::Count));
        defs.push(FieldDef::new("hrsp_1xx", FieldKind::OptCount));
        defs.push(FieldDef::new("hrsp_2xx", FieldKind::OptCount));
        defs.push(FieldDef::new("hrsp_3xx", FieldKind::OptCount));
        defs.push(FieldDef::new("hrsp_4xx", FieldKind::OptCount));
        defs.push(FieldDef::new("hrsp_5xx", FieldKind::OptCount));
        defs.push(FieldDef::new("hrsp_other", FieldKind::OptCount));
        defs.push(FieldDef::new("req_tot", FieldKind::OptCount));
        defs.push(FieldDef::new("cli_abrt", FieldKind::Count));
        defs.push(FieldDef::new("srv_abrt", FieldKind::Count));
        proof {
            assert(schema_view(defs@) =~= Self::fields());
        }
        defs
    }

    /// The record whose fields are `slots`, in schema order.
    fn from_slots(slots: &Vec<Slot>) -> (r: Self)
        requires
            conforms(Self::fields(), slot_views(slots@)),
        ensures
            r@ == slot_views(slots@),
            r.wf(),
    {
        proof {
            let given = slot_views(slots@);
            let fields = Self::fields();
            assert(given[0] == slots@[0]@ && fields[0].1 == FieldKind::Text);
            assert(given[1] == slots@[1]@ && fields[1].1 == FieldKind::Count);
            assert(given[2] == slots@[2]@ && fields[2].1 == FieldKind::Count);
            assert(given[3] == slots@[3]@ && fields[3].1 == FieldKind::Count);
            assert(given[4] == slots@[4]@ && fields[4].1 == FieldKind::Count);
            assert(given[5] == slots@[5]@ && fields[5].1 == FieldKind::Count);
            assert(given[6] == slots@[6]@ && fields[6].1 == FieldKind::Count);
            assert(given[7] == slots@[7]@ && fields[7].1 == FieldKind::Count);
            assert(given[8] == slots@[8]@ && fields[8].1 == FieldKind::Count);
            assert(given[9] == slots@[9]@ && fields[9].1 == FieldKind::Count);
            assert(given[10] == slots@[10]@ && fields[10].1 == FieldKind::Count);
            assert(given[11] == slots@[11]@ && fields[11].1 == FieldKind::Count);
            assert(given[12] == slots@[12]@ && fields[12].1 == FieldKind::Count);
            assert(given[13] == slots@[13]@ && fields[13].1 == FieldKind::Count);
            assert(given[14] == slots@[14]@ && fields[14].1 == FieldKind::Count);
            assert(given[15] == slots@[15]@ && fields[15].1 == FieldKind::Text);
            assert(given[16] == slots@[16]@ && fields[16].1 == FieldKind::Count);
            assert(given[17] == slots@[17]@ && fields[17].1 == FieldKind::Count);
            assert(given[18] == slots@[18]@ && fields[18].1 == FieldKind::Count);
            assert(given[19] == slots@[19]@ && fields[19].1 == FieldKind::Count);
            assert(given[20] == slots@[20]@ && fields[20].1 == FieldKind::Count);
            assert(given[21] == slots@[21]@ && fields[21].1 == FieldKind::OptCount);
            assert(given[22] == slots@[22]@ && fields[22].1 == FieldKind::Count);
            assert(given[23] == slots@[23]@ && fields[23].1 == FieldKind::Count);
            assert(given[24] == slots@[24]@ && fields[24].1 == FieldKind::Count);
            assert(given[25] == slots@[25]@ && fields[25].1 == FieldKind::Count);
            assert(given[26] == slots@[26]@ && fields[26].1 == FieldKind::Count);
            assert(given[27] == slots@[27]@ && fields[27].1 == FieldKind::OptCount);
            assert(given[28] == slots@[28]@ && fields[28].1 == FieldKind::OptCount);
            assert(given[29] == slots@[29]@ && fields[29].1 == FieldKind::OptCount);
            assert(given[30] == slots@[30]@ && fields[30].1 == FieldKind::OptCount);
            assert(given[31] == slots@[31]@ && fields[31].1 == FieldKind::OptCount);
            assert(given[32] == slots@[32]@ && fields[32].1 == FieldKind::OptCount);
            assert(given[33] == slots@[33]@ && fields[33].1 == FieldKind::OptCount);
            assert(given[34] == slots@[34]@ && fields[34].1 == FieldKind::Count);
            assert(given[35] == slots@[35]@ && fields[35].1 == FieldKind::Count);
        }
        let r = BackendStatistic {
            pxname: slots[0].text(),
            qcur: slots[1].count(),
            qmax: slots[2].count(),
            scur: slots[3].count(),
            smax: slots[4].count(),
            slim: slots[5].count(),
            stot: slots[6].count(),
            bin: slots[7].count(),
            bout: slots[8].count(),
            dreq: slots[9].count(),
            dresp: slots[10].count(),
            econ: slots[11].count(),
            eresp: slots[12].count(),
            wretr: slots[13].count(),
            wredis: slots[14].count(),
            status: Status::from_text(slots[15].text()),
            weight: slots[16].count(),
            act: slots[17].count(),
            bck: slots[18].count(),
            chkdown: slots[19].count(),
            lastchg: slots[20].count(),
            downtime: slots[21].opt_count(),
            pid: slots[22].count(),
            iid: slots[23].count(),
            lbtot: slots[24].count(),
            rate: slots[25].count(),
            rate_max: slots[26].count(),
            hrsp_1xx: slots[27].opt_count(),
            hrsp_2xx: slots[28].opt_count(),
            hrsp_3xx: slots[29].opt_count(),
            hrsp_4xx: slots[30].opt_count(),
            hrsp_5xx: slots[31].opt_count(),
            hrsp_other: slots[32].opt_count(),
            req_tot: slots[33].opt_count(),
            cli_abrt: slots[34].count(),
            srv_abrt: slots[35].count(),
        };
        proof {
            assert(r@ =~= slot_views(slots@));
        }
        r
    }

    /// Binds `attrs` to the record's schema: the record, or the first field
    /// that cannot be bound.
    pub fn bind(schemas: &Schemas, attrs: &Vec<Attribute>) -> (r: Result<Self, BindError>)
        ensures
            match r {
                Ok(record) => {
                    &&& bound(Self::fields(), attribute_views(attrs@)) == Ok::<
                        Seq<SlotView>,
                        BindFailure,
                    >(record@)
                    &&& record.wf()
                },
                Err(e) => bound(Self::fields(), attribute_views(attrs@)) == Err::<
                    Seq<SlotView>,
                    BindFailure,
                >(e@),
            },
    {
        proof {
            use_type_invariant(schemas);
        }
        match bind(schemas.backend.as_slice(), attrs.as_slice()) {
            Ok(slots) => Ok(Self::from_slots(&slots)),
            Err(e) => Err(e),
        }
    }
}

/// The counters of one server of a backend.
#[derive(Debug, Clone, PartialEq, Eq)]
pub struct ServerStatistic {
    pub pxname: String,
    pub svname: String,
    pub qcur: usize,
    pub qmax: usize,
    pub scur: usize,
    pub smax: usize,
    pub slim: Option<usize>,
    pub stot: usize,
    pub bin: usize,
    pub bout: usize,
    pub dresp: usize,
    pub econ: usize,
    pub eresp: usize,
    pub wretr: usize,
    pub wredis: usize,
    pub status: Status,
    pub weight: usize,
    pub act: usize,
    pub bck: usize,
    pub chkfail: Option<usize>,
    pub chkdown: Option<usize>,
    pub lastchg: Option<usize>,
    pub downtime: Option<usize>,
    pub qlimit: Option<usize>,
    pub pid: usize,
    pub iid: usize,
    pub sid: usize,
    pub throttle: Option<usize>,
    pub lbtot: usize,
    /// Identifier of the server that this one tracks, from the column `tracked`.
    pub tracks: Option<usize>,
    pub rate: usize,
    pub rate_max: usize,
    pub check_status: Option<CheckStatus>,
    pub check_code: Option<usize>,
    pub check_duration: Option<usize>,
    pub hrsp_1xx: Option<usize>,
    pub hrsp_2xx: Option<usize>,
    pub hrsp_3xx: Option<usize>,
    pub hrsp_4xx: Option<usize>,
    pub hrsp_5xx: Option<usize>,
    pub hrsp_other: Option<usize>,
    /// Empty where the sender leaves it out.
    pub hanafail: String,
    pub cli_abrt: usize,
    pub srv_abrt: usize,
}

impl View for ServerStatistic {
    type V = Seq<SlotView>;

    open spec fn view(&self) -> Seq<SlotView> {
        seq![
            SlotView::Text(self.pxname@),
            SlotView::Text(self.svname@),
            SlotView::Count(self.qcur),
            SlotView::Count(self.qmax),
            SlotView::Count(self.scur),
            SlotView::Count(self.smax),
            SlotView::OptCount(self.slim),
            SlotView::Count(self.stot),
            SlotView::Count(self.bin),
            SlotView::Count(self.bout),
            SlotView::Count(self.dresp),
            SlotView::Count(self.econ),
            SlotView::Count(self.eresp),
            SlotView::Count(self.wretr),
            SlotView::Count(self.wredis),
            SlotView::Text(self.status.text()),
            SlotView::Count(self.weight),
            SlotView::Count(self.act),
            SlotView::Count(self.bck),
            SlotView::OptCount(self.chkfail),
            SlotView::OptCount(self.chkdown),
            SlotView::OptCount(self.lastchg),
            SlotView::OptCount(self.downtime),
            SlotView::OptCount(self.qlimit),
            SlotView::Count(self.pid),
            SlotView::Count(self.iid),
            SlotView::Count(self.sid),
            SlotView::OptCount(self.throttle),
            SlotView::Count(self.lbtot),
            SlotView::OptCount(self.tracks),
            SlotView::Count(self.rate),
            SlotView::Count(self.rate_max),
            SlotView::OptText(check_text(self.check_status)),
            SlotView::OptCount(self.check_code),
            SlotView::OptCount(self.check_duration),
            SlotView::OptCount(self.hrsp_1xx),
            SlotView::OptCount(self.hrsp_2xx),
            SlotView::OptCount(self.hrsp_3xx),
            SlotView::OptCount(self.hrsp_4xx),
            SlotView::OptCount(self.hrsp_5xx),
            SlotView::OptCount(self.hrsp_other),
            SlotView::Text(self.hanafail@),
            SlotView::Count(self.cli_abrt),
            SlotView::Count(self.srv_abrt),
        ]
    }
}

impl ServerStatistic {
    /// The schema of the record: the attributes it is bound from.
    pub open spec fn fields() -> Seq<(Seq<char>, FieldKind)> {
        seq![
            ("pxname"@, FieldKind::Text),
            ("svname"@, FieldKind::Text),
            ("qcur"@, FieldKind::Count),
            ("qmax"@, FieldKind::Count),
            ("scur"@, FieldKind::Count),
            ("smax"@, FieldKind::Count),
            ("slim"@, FieldKind::OptCount),
            ("stot"@, FieldKind::Count),
            ("bin"@, FieldKind::Count),
            ("bout"@, FieldKind::Count),
            ("dresp"@, FieldKind::Count),
            ("econ"@, FieldKind::Count),
            ("eresp"@, FieldKind::Count),
            ("wretr"@, FieldKind::Count),
            ("wredis"@, FieldKind::Count),
            ("status"@, FieldKind::Text),
            ("weight"@, FieldKind::Count),
            ("act"@, FieldKind::Count),
            ("bck"@, FieldKind::Count),
            ("chkfail"@, FieldKind::OptCount),
            ("chkdown"@, FieldKind::OptCount),
            ("lastchg"@, FieldKind::OptCount),
            ("downtime"@, FieldKind::OptCount),
            ("qlimit"@, FieldKind::OptCount),
            ("pid"@, FieldKind::Count),
            ("iid"@, FieldKind::Count),
            ("sid"@, FieldKind::Count),
            ("throttle"@, FieldKind::OptCount),
            ("lbtot"@, FieldKind::Count),
            ("tracked"@, FieldKind::OptCount),
            ("rate"@, FieldKind::Count),
            ("rate_max"@, FieldKind::Count),
            ("check_status"@, FieldKind::OptText),
            ("check_code"@, FieldKind::OptCount),
            ("check_duration"@, FieldKind::OptCount),
            ("hrsp_1xx"@, FieldKind::OptCount),
            ("hrsp_2xx"@, FieldKind::OptCount),
            ("hrsp_3xx"@, FieldKind::OptCount),
            ("hrsp_4xx"@, FieldKind::OptCount),
            ("hrsp_5xx"@, FieldKind::OptCount),
            ("hrsp_other"@, FieldKind::OptCount),
            ("hanafail"@, FieldKind::TextOrEmpty),
            ("cli_abrt"@, FieldKind::Count),
            ("srv_abrt"@, FieldKind::Count),
        ]
    }

    /// Whether the states of the record are held in their canonical form.
    pub open spec fn wf(&self) -> bool {
        {
        &&& self.status.canonical()
        &&& self.check_status matches Some(c) ==> c.canonical()
        }
    }

    /// The schema of the record, for the binder.
    pub fn schema() -> (r: Vec<FieldDef>)
        ensures
            schema_view(r@) == Self::fields(),
    {
        let mut defs: Vec<FieldDef> = Vec::new();
        defs.push(FieldDef::new("pxname", FieldKind::Text));
        defs.push(FieldDef::new("svname", FieldKind::Text));
        defs.push(FieldDef::new("qcur", FieldKind::Count));
        defs.push(FieldDef::new("qmax", FieldKind::Count));
        defs.push(FieldDef::new("scur", FieldKind::Count));
        defs.push(FieldDef::new("smax", FieldKind::Count));
        defs.push(FieldDef::new("slim", FieldKind::OptCount));
        defs.push(FieldDef::new("stot", FieldKind::Count));
        defs.push(FieldDef::new("bin", FieldKind::Count));
        defs.push(FieldDef::new("bout", FieldKind::Count));
        defs.push(FieldDef::new("dresp", FieldKind::Count));
        defs.push(FieldDef::new("econ", FieldKind::Count));
        defs.push(FieldDef::new("eresp", FieldKind::Count));
        defs.push(FieldDef::new("wretr", FieldKind::Count));
        defs.push(FieldDef::new("wredis", FieldKind::Count));
        defs.push(FieldDef::new("status", FieldKind::Text));
        defs.push(FieldDef::new("weight", FieldKind::Count));
        defs.push(FieldDef::new("act", FieldKind::Count));
        defs.push(FieldDef::new("bck", FieldKind::Count));
        defs.push(FieldDef::new("chkfail", FieldKind::OptCount));
        defs.push(FieldDef::new("chkdown", FieldKind::OptCount));
        defs.push(FieldDef::new("lastchg", FieldKind::OptCount));
        defs.push(FieldDef::new("downtime", FieldKind::OptCount));
        defs.push(FieldDef::new("qlimit", FieldKind::OptCount));
        defs.push(FieldDef::new("pid", FieldKind::Count));
        defs.push(FieldDef::new("iid", FieldKind::Count));
        defs.push(FieldDef::new("sid", FieldKind::Count));
        defs.push(FieldDef::new("throttle", FieldKind::OptCount));
        defs.push(FieldDef::new("lbtot", FieldKind::Count));
        defs.push(FieldDef::new("tracked", FieldKind::OptCount));
        defs.push(FieldDef::new("rate", FieldKind::Count));
        defs.push(FieldDef::new("rate_max", FieldKind::Count));
        defs.push(FieldDef::new("check_status", FieldKind::OptText));
        defs.push(FieldDef::new("check_code", FieldKind::OptCount));
        defs.push(FieldDef::new("check_duration", FieldKind::OptCount));
        defs.push(FieldDef::new("hrsp_1xx", FieldKind::OptCount));
        defs.push(FieldDef::new("hrsp_2xx", FieldKind::OptCount));
        defs.push(FieldDef::new("hrsp_3xx", FieldKind::OptCount));
        defs.push(FieldDef::new("hrsp_4xx", FieldKind::OptCount));
        defs.push(FieldDef::new("hrsp_5xx", FieldKind::OptCount));
        defs.push(FieldDef::new("hrsp_other", FieldKind::OptCount));
        defs.push(FieldDef::new("hanafail", FieldKind::TextOrEmpty));
        defs.push(FieldDef::new("cli_abrt", FieldKind::Count));
        defs.push(FieldDef::new("srv_abrt", FieldKind::Count));
        proof {
            assert(schema_view(defs@) =~= Self::fields());
        }
        defs
    }

    /// The record whose fields are `slots`, in schema order.
    fn from_slots(slots: &Vec<Slot>) -> (r: Self)
        requires
            conforms(Self::fields(), slot_views(slots@)),
        ensures
            r@ == slot_views(slots@),
            r.wf(),
    {
        proof {
            let given = slot_views(slots@);
            let fields = Self::fields();
            assert(given[0] == slots@[0]@ && fields[0].1 == FieldKind::Text);
            assert(given[1] == slots@[1]@ && fields[1].1 == FieldKind::Text);
            assert(given[2] == slots@[2]@ && fields[2].1 == FieldKind::Count);
            assert(given[3] == slots@[3]@ && fields[3].1 == FieldKind::Count);
            assert(given[4] == slots@[4]@ && fields[4].1 == FieldKind::Count);
            assert(given[5] == slots@[5]@ && fields[5].1 == FieldKind::Count);
            assert(given[6] == slots@[6]@ && fields[6].1 == FieldKind::OptCount);
            assert(given[7] == slots@[7]@ && fields[7].1 == FieldKind::Count);
            assert(given[8] == slots@[8]@ && fields[8].1 == FieldKind::Count);
            assert(given[9] == slots@[9]@ && fields[9].1 == FieldKind::Count);
            assert(given[10] == slots@[10]@ && fields[10].1 == FieldKind::Count);
            assert(given[11] == slots@[11]@ && fields[11].1 == FieldKind::Count);
            assert(given[12] == slots@[12]@ && fields[12].1 == FieldKind::Count);
            assert(given[13] == slots@[13]@ && fields[13].1 == FieldKind::Count);
            assert(given[14] == slots@[14]@ && fields[14].1 == FieldKind::Count);
            assert(given[15] == slots@[15]@ && fields[15].1 == FieldKind::Text);
            assert(given[16] == slots@[16]@ && fields[16].1 == FieldKind::Count);
            assert(given[17] == slots@[17]@ && fields[17].1 == FieldKind::Count);
            assert(given[18] == slots@[18]@ && fields[18].1 == FieldKind::Count);
            assert(given[19] == slots@[19]@ && fields[19].1 == FieldKind::OptCount);
            assert(given[20] == slots@[20]@ && fields[20].1 == FieldKind::OptCount);
            assert(given[21] == slots@[21]@ && fields[21].1 == FieldKind::OptCount);
            assert(given[22] == slots@[22]@ && fields[22].1 == FieldKind::OptCount);
            assert(given[23] == slots@[23]@ && fields[23].1 == FieldKind::OptCount);
            assert(given[24] == slots@[24]@ && fields[24].1 == FieldKind::Count);
            assert(given[25] == slots@[25]@ && fields[25].1 == FieldKind::Count);
            assert(given[26] == slots@[26]@ && fields[26].1 == FieldKind::Count);
            assert(given[27] == slots@[27]@ && fields[27].1 == FieldKind::OptCount);
            assert(given[28] == slots@[28]@ && fields[28].1 == FieldKind::Count);
            assert(given[29] == slots@[29]@ && fields[29].1 == FieldKind::OptCount);
            assert(given[30] == slots@[30]@ && fields[30].1 == FieldKind::Count);
            assert(given[31] == slots@[31]@ && fields[31].1 == FieldKind::Count);
            assert(given[32] == slots@[32]@ && fields[32].1 == FieldKind::OptText);
            assert(given[33] == slots@[33]@ && fields[33].1 == FieldKind::OptCount);
            assert(given[34] == slots@[34]@ && fields[34].1 == FieldKind::OptCount);
            assert(given[35] == slots@[35]@ && fields[35].1 == FieldKind::OptCount);
            assert(given[36] == slots@[36]@ && fields[36].1 == FieldKind::OptCount);
            assert(given[37] == slots@[37]@ && fields[37].1 == FieldKind::OptCount);
            assert(given[38] == slots@[38]@ && fields[38].1 == FieldKind::OptCount);
            assert(given[39] == slots@[39]@ && fields[39].1 == FieldKind::OptCount);
            assert(given[40] == slots@[40]@ && fields[40].1 == FieldKind::OptCount);
            assert(given[41] == slots@[41]@ && fields[41].1 == FieldKind::TextOrEmpty);
            assert(given[42] == slots@[42]@ && fields[42].1 == FieldKind::Count);
            assert(given[43] == slots@[43]@ && fields[43].1 == FieldKind::Count);
        }
        let r = ServerStatistic {
            pxname: slots[0].text(),
            svname: slots[1].text(),
            qcur: slots[2].count(),
            qmax: slots[3].count(),
            scur: slots[4].count(),
            smax: slots[5].count(),
            slim: slots[6].opt_count(),
            stot: slots[7].count(),
            bin: slots[8].count(),
            bout: slots[9].count(),
            dresp: slots[10].count(),
            econ: slots[11].count(),
            eresp: slots[12].count(),
            wretr: slots[13].count(),
            wredis: slots[14].count(),
            status: Status::from_text(slots[15].text()),
            weight: slots[16].count(),
            act: slots[17].count(),
            bck: slots[18].count(),
            chkfail: slots[19].opt_count(),
            chkdown: slots[20].opt_count(),
            lastchg: slots[21].opt_count(),
            downtime: slots[22].opt_count(),
            qlimit: slots[23].opt_count(),
            pid: slots[24].count(),
            iid: slots[25].count(),
            sid: slots[26].count(),
            throttle: slots[27].opt_count(),
            lbtot: slots[28].count(),
            tracks: slots[29].opt_count(),
            rate: slots[30].count(),
            rate_max: slots[31].count(),
            check_status: match slots[32].opt_text() {
                Some(text) => Some(CheckStatus::from_text(text)),
                None => None,
            },
            check_code: slots[33].opt_count(),
            check_duration: slots[34].opt_count(),
            hrsp_1xx: slots[35].opt_count(),
            hrsp_2xx: slots[36].opt_count(),
            hrsp_3xx: slots[37].opt_count(),
            hrsp_4xx: slots[38].opt_count(),
            hrsp_5xx: slots[39].opt_count(),
            hrsp_other: slots[40].opt_count(),
            hanafail: slots[41].text(),
            cli_abrt: slots[42].count(),
            srv_abrt: slots[43].count(),
        };
        proof {
            assert(r@ =~= slot_views(slots@));
        }
        r
    }

    /// Binds `attrs` to the record's schema: the record, or the first field
    /// that cannot be bound.
    pub fn bind(schemas: &Schemas, attrs: &Vec<Attribute>) -> (r: Result<Self, BindError>)
        ensures
            match r {
                Ok(record) => {
                    &&& bound(Self::fields(), attribute_views(attrs@)) == Ok::<
                        Seq<SlotView>,
                        BindFailure,
                    >(record@)
                    &&& record.wf()
                },
                Err(e) => bound(Self::fields(), attribute_views(attrs@)) == Err::<
                    Seq<SlotView>,
                    BindFailure,
                >(e@),
            },
    {
        proof {
            use_type_invariant(schemas);
        }
        match bind(schemas.server.as_slice(), attrs.as_slice()) {
            Ok(slots) => Ok(Self::from_slots(&slots)),
            Err(e) => Err(e),
        }
    }
}

} // verus!
