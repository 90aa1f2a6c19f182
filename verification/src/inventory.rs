//! Trace discovery and identity.
//!
//! Recordings live in a three-level directory tree: a tenant directory per
//! origin tenant, a timeline directory nested under it, and one
//! connection-named file per recorded connection.  Discovery walks the tree
//! in enumeration order and derives each file's identity from its path
//! segments; a single segment that is not a valid identifier encoding
//! aborts the whole listing with an error naming the offending path.
//!
//! The filesystem itself is read by the caller, which hands the directory
//! names over as plain values; everything from there on is pure.

use vstd::prelude::*;
use crate::ids::TraceId;
use crate::ids::hex_value;
use crate::ids::parse_trace_id;
use crate::ids::valid_id_chars;

verus! {

/// One timeline directory: its name and the connection-named files in it.
pub struct TimelineDir {
    pub name: String,
    pub files: Vec<String>,
}

/// One tenant directory: its name and the timeline directories in it.
pub struct TenantDir {
    pub name: String,
    pub timelines: Vec<TimelineDir>,
}

/// Identity and location of one discovered trace file.  The three `_name`
/// fields are the path segments the identity was parsed from, so the
/// caller can reassemble the file's path under the discovery root.
pub struct TraceDescriptor {
    pub tenant_id: TraceId,
    pub timeline_id: TraceId,
    pub connection_id: TraceId,
    pub tenant_name: String,
    pub timeline_name: String,
    pub file_name: String,
}

/// Discovery failure: the offending path segment together with the
/// segments above it.
#[derive(Debug)]
pub enum DiscoveryError {
    BadTenant { name: String },
    BadTimeline { tenant: String, name: String },
    BadConnection { tenant: String, timeline: String, name: String },
}

/// The path segments of one discovered leaf, innermost last.
#[verifier::ext_equal]
pub ghost struct LeafModel {
    pub tenant: Seq<char>,
    pub timeline: Seq<char>,
    pub file: Seq<char>,
}

pub open spec fn leaf_model(d: TraceDescriptor) -> LeafModel {
    LeafModel { tenant: d.tenant_name@, timeline: d.timeline_name@, file: d.file_name@ }
}

pub open spec fn desc_models(descs: Seq<TraceDescriptor>) -> Seq<LeafModel> {
    descs.map_values(|d: TraceDescriptor| leaf_model(d))
}

/// A descriptor is well formed when each identity field is the parsed
/// value of the corresponding path segment.
pub open spec fn desc_ok(d: TraceDescriptor) -> bool {
    &&& valid_id_chars(d.tenant_name@) && d.tenant_id@ == hex_value(d.tenant_name@)
    &&& valid_id_chars(d.timeline_name@) && d.timeline_id@ == hex_value(d.timeline_name@)
    &&& valid_id_chars(d.file_name@) && d.connection_id@ == hex_value(d.file_name@)
}

/// The leaves of one timeline directory, in enumeration order.
pub open spec fn files_leaves(tenant: Seq<char>, timeline: Seq<char>, files: Seq<String>) -> Seq<
    LeafModel,
>
    decreases files.len(),
{
    if files.len() == 0 {
        Seq::empty()
    } else {
        files_leaves(tenant, timeline, files.drop_last()).push(
            LeafModel { tenant, timeline, file: files.last()@ },
        )
    }
}

pub open spec fn timeline_leaves(tenant: Seq<char>, t: TimelineDir) -> Seq<LeafModel> {
    files_leaves(tenant, t.name@, t.files@)
}

/// The leaves of a sequence of timeline directories, in enumeration order.
pub open spec fn timelines_leaves(tenant: Seq<char>, ts: Seq<TimelineDir>) -> Seq<LeafModel>
    decreases ts.len(),
{
    if ts.len() == 0 {
        Seq::empty()
    } else {
        timelines_leaves(tenant, ts.drop_last()) + timeline_leaves(tenant, ts.last())
    }
}

/// Every leaf of a three-level tree, in enumeration order.
pub open spec fn tree_leaves(tenants: Seq<TenantDir>) -> Seq<LeafModel>
    decreases tenants.len(),
{
    if tenants.len() == 0 {
        Seq::empty()
    } else {
        tree_leaves(tenants.drop_last()) + timelines_leaves(
            tenants.last().name@,
            tenants.last().timelines@,
        )
    }
}

/// Every name in the timeline directory is a valid identifier encoding.
pub open spec fn timeline_ok(t: TimelineDir) -> bool {
    &&& valid_id_chars(t.name@)
    &&& forall|i: int| 0 <= i < t.files@.len() ==> valid_id_chars((#[trigger] t.files@[i])@)
}

/// Every name under the tenant directory is a valid identifier encoding.
pub open spec fn tenant_ok(t: TenantDir) -> bool {
    &&& valid_id_chars(t.name@)
    &&& forall|i: int| 0 <= i < t.timelines@.len() ==> timeline_ok(#[trigger] t.timelines@[i])
}

/// Every name in the whole tree is a valid identifier encoding.
pub open spec fn tree_ok(ts: Seq<TenantDir>) -> bool {
    forall|i: int| 0 <= i < ts.len() ==> tenant_ok(#[trigger] ts[i])
}

/// The error names the first invalid segment met in this timeline
/// directory: either the directory's own name, or — when that name is
/// valid — the first file name that is not a valid identifier encoding.
pub open spec fn error_in_timeline(e: DiscoveryError, tenant: Seq<char>, t: TimelineDir) -> bool {
    match e {
        DiscoveryError::BadTimeline { tenant: tn, name } => {
            &&& tn@ == tenant
            &&& name@ == t.name@
            &&& !valid_id_chars(name@)
        },
        DiscoveryError::BadConnection { tenant: tn, timeline, name } => {
            &&& tn@ == tenant
            &&& timeline@ == t.name@
            &&& valid_id_chars(t.name@)
            &&& !valid_id_chars(name@)
            &&& exists|k: int|
                {
                    &&& 0 <= k < t.files@.len()
                    &&& (#[trigger] t.files@[k])@ == name@
                    &&& forall|k2: int| 0 <= k2 < k ==> valid_id_chars((#[trigger] t.files@[k2])@)
                }
        },
        _ => false,
    }
}

/// The error names the first invalid segment met under this tenant
/// directory: either the directory's own name, or — when that name is
/// valid — the first invalid segment of the first not fully valid
/// timeline directory.
pub open spec fn error_in_tenant(e: DiscoveryError, t: TenantDir) -> bool {
    match e {
        DiscoveryError::BadTenant { name } => name@ == t.name@ && !valid_id_chars(name@),
        _ => {
            &&& valid_id_chars(t.name@)
            &&& exists|j: int|
                {
                    &&& 0 <= j < t.timelines@.len()
                    &&& error_in_timeline(e, t.name@, #[trigger] t.timelines@[j])
                    &&& forall|j2: int|
                        0 <= j2 < j ==> timeline_ok(#[trigger] t.timelines@[j2])
                }
        },
    }
}

/// The error names the first invalid segment of the tree, in enumeration
/// order: each name above and before it is valid.
pub open spec fn error_in_tree(e: DiscoveryError, ts: Seq<TenantDir>) -> bool {
    exists|i: int|
        {
            &&& 0 <= i < ts.len()
            &&& error_in_tenant(e, #[trigger] ts[i])
            &&& forall|i2: int| 0 <= i2 < i ==> tenant_ok(#[trigger] ts[i2])
        }
}

/// Discover the trace files of one timeline directory.
fn discover_timeline(tenant_name: &String, tenant_id: TraceId, tl: &TimelineDir) -> (r: Result<
    Vec<TraceDescriptor>,
    DiscoveryError,
>)
    requires
        valid_id_chars(tenant_name@),
        tenant_id@ == hex_value(tenant_name@),
    ensures
        match r {
            Ok(descs) => {
                &&& timeline_ok(*tl)
                &&& desc_models(descs@) == timeline_leaves(tenant_name@, *tl)
                &&& forall|i: int| 0 <= i < descs@.len() ==> desc_ok(#[trigger] descs@[i])
            },
            Err(e) => !timeline_ok(*tl) && error_in_timeline(e, tenant_name@, *tl),
        },
{
    let timeline_id = match parse_trace_id(tl.name.as_str()) {
        Some(id) => id,
        None => {
            return Err(
                DiscoveryError::BadTimeline { tenant: tenant_name.clone(), name: tl.name.clone() },
            );
        },
    };
    let mut out: Vec<TraceDescriptor> = Vec::new();
    let n = tl.files.len();
    let mut k: usize = 0;
    proof {
        assert(tl.files@.subrange(0, 0) =~= Seq::<String>::empty());
        assert(desc_models(out@) =~= Seq::<LeafModel>::empty());
    }
    while k < n
        invariant
            valid_id_chars(tenant_name@),
            tenant_id@ == hex_value(tenant_name@),
            valid_id_chars(tl.name@),
            timeline_id@ == hex_value(tl.name@),
            n == tl.files@.len(),
            0 <= k <= n,
            forall|j: int| 0 <= j < k ==> valid_id_chars((#[trigger] tl.files@[j])@),
            desc_models(out@) == files_leaves(tenant_name@, tl.name@, tl.files@.subrange(0, k as int)),
            forall|i: int| 0 <= i < out@.len() ==> desc_ok(#[trigger] out@[i]),
        decreases n - k,
    {
        let f = &tl.files[k];
        match parse_trace_id(f.as_str()) {
            Some(connection_id) => {
                let d = TraceDescriptor {
                    tenant_id,
                    timeline_id,
                    connection_id,
                    tenant_name: tenant_name.clone(),
                    timeline_name: tl.name.clone(),
                    file_name: f.clone(),
                };
                let ghost out0 = out@;
                out.push(d);
                proof {
                    let pre = tl.files@.subrange(0, k as int);
                    let pre2 = tl.files@.subrange(0, k + 1);
                    assert(pre2.drop_last() =~= pre);
                    assert(pre2.last() == tl.files@[k as int]);
                    assert(desc_models(out@) =~= desc_models(out0).push(leaf_model(d)));
                    assert(leaf_model(d) =~= (LeafModel {
                        tenant: tenant_name@,
                        timeline: tl.name@,
                        file: tl.files@[k as int]@,
                    }));
                    assert(desc_models(out@) == files_leaves(tenant_name@, tl.name@, pre2));
                }
            },
            None => {
                proof {
                    assert(tl.files@[k as int]@ == f@);
                }
                return Err(
                    DiscoveryError::BadConnection {
                        tenant: tenant_name.clone(),
                        timeline: tl.name.clone(),
                        name: f.clone(),
                    },
                );
            },
        }
        k = k + 1;
    }
    proof {
        assert(tl.files@.subrange(0, n as int) =~= tl.files@);
    }
    Ok(out)
}

/// Discover the trace files of one tenant directory.
fn discover_tenant(t: &TenantDir) -> (r: Result<Vec<TraceDescriptor>, DiscoveryError>)
    ensures
        match r {
            Ok(descs) => {
                &&& tenant_ok(*t)
                &&& desc_models(descs@) == timelines_leaves(t.name@, t.timelines@)
                &&& forall|i: int| 0 <= i < descs@.len() ==> desc_ok(#[trigger] descs@[i])
            },
            Err(e) => !tenant_ok(*t) && error_in_tenant(e, *t),
        },
{
    let tenant_id = match parse_trace_id(t.name.as_str()) {
        Some(id) => id,
        None => {
            return Err(DiscoveryError::BadTenant { name: t.name.clone() });
        },
    };
    let mut out: Vec<TraceDescriptor> = Vec::new();
    let n = t.timelines.len();
    let mut j: usize = 0;
    proof {
        assert(t.timelines@.subrange(0, 0) =~= Seq::<TimelineDir>::empty());
        assert(desc_models(out@) =~= Seq::<LeafModel>::empty());
    }
    while j < n
        invariant
            valid_id_chars(t.name@),
            tenant_id@ == hex_value(t.name@),
            n == t.timelines@.len(),
            0 <= j <= n,
            forall|i: int| 0 <= i < j ==> timeline_ok(#[trigger] t.timelines@[i]),
            desc_models(out@) == timelines_leaves(t.name@, t.timelines@.subrange(0, j as int)),
            forall|i: int| 0 <= i < out@.len() ==> desc_ok(#[trigger] out@[i]),
        decreases n - j,
    {
        let tl = &t.timelines[j];
        match discover_timeline(&t.name, tenant_id, tl) {
            Ok(mut sub) => {
                let ghost out0 = out@;
                let ghost sub0 = sub@;
                out.append(&mut sub);
                proof {
                    let pre = t.timelines@.subrange(0, j as int);
                    let pre2 = t.timelines@.subrange(0, j + 1);
                    assert(pre2.drop_last() =~= pre);
                    assert(pre2.last() == t.timelines@[j as int]);
                    assert(desc_models(out@) =~= desc_models(out0) + desc_models(sub0));
                    assert(desc_models(out@) == timelines_leaves(t.name@, pre2));
                }
            },
            Err(e) => {
                proof {
                    assert(error_in_timeline(e, t.name@, t.timelines@[j as int]));
                }
                return Err(e);
            },
        }
        j = j + 1;
    }
    proof {
        assert(t.timelines@.subrange(0, n as int) =~= t.timelines@);
    }
    Ok(out)
}

/// Discover every trace file of a three-level directory tree.
///
/// Succeeds exactly when every directory and file name in the tree is a
/// valid identifier encoding; then the result holds one descriptor per
/// leaf file, in enumeration order, with identity fields parsed from the
/// path segments.  Otherwise it fails, with an error naming an offending
/// segment, and produces no descriptors.
pub fn discover(tenants: &Vec<TenantDir>) -> (r: Result<Vec<TraceDescriptor>, DiscoveryError>)
    ensures
        match r {
            Ok(descs) => {
                &&& tree_ok(tenants@)
                &&& desc_models(descs@) == tree_leaves(tenants@)
                &&& forall|i: int| 0 <= i < descs@.len() ==> desc_ok(#[trigger] descs@[i])
            },
            Err(e) => !tree_ok(tenants@) && error_in_tree(e, tenants@),
        },
{
    let mut out: Vec<TraceDescriptor> = Vec::new();
    let n = tenants.len();
    let mut i: usize = 0;
    proof {
        assert(tenants@.subrange(0, 0) =~= Seq::<TenantDir>::empty());
        assert(desc_models(out@) =~= Seq::<LeafModel>::empty());
    }
    while i < n
        invariant
            n == tenants@.len(),
            0 <= i <= n,
            forall|j: int| 0 <= j < i ==> tenant_ok(#[trigger] tenants@[j]),
            desc_models(out@) == tree_leaves(tenants@.subrange(0, i as int)),
            forall|j: int| 0 <= j < out@.len() ==> desc_ok(#[trigger] out@[j]),
        decreases n - i,
    {
        let t = &tenants[i];
        match discover_tenant(t) {
            Ok(mut sub) => {
                let ghost out0 = out@;
                let ghost sub0 = sub@;
                out.append(&mut sub);
                proof {
                    let pre = tenants@.subrange(0, i as int);
                    let pre2 = tenants@.subrange(0, i + 1);
                    assert(pre2.drop_last() =~= pre);
                    assert(pre2.last() == tenants@[i as int]);
                    assert(desc_models(out@) =~= desc_models(out0) + desc_models(sub0));
                    assert(desc_models(out@) == tree_leaves(pre2));
                }
            },
            Err(e) => {
                proof {
                    assert(!tenant_ok(tenants@[i as int]));
                    assert(error_in_tenant(e, tenants@[i as int]));
                }
                return Err(e);
            },
        }
        i = i + 1;
    }
    proof {
        assert(tenants@.subrange(0, n as int) =~= tenants@);
    }
    Ok(out)
}

} // verus!
