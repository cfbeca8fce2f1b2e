//! Poolers: which pools one has, whether a running one still fits its
//! manifest, and holding its clients while a cluster changes underneath.

use crate::container::{AGENT_BIN, PG_PORT, POOLER_SPEC_ENV};
use crate::control::apply::{first_reserved, validate_parameters, Poll, Probed};
use crate::control::error::{Error, ErrorView};
use crate::control::spec::{debug_pairs, debug_pairs_of, error_view};
use crate::text::{
    append_decimal, clone_list, debug_form, debug_quoted,
    decimal, in_list, is_text_le, join, joined, opt_str, opt_text, pair_texts, push_text, same, same_pairs,
    text_le, texts, trim, trimmed, a_part_occurs, every_part_is_there, occurs,
};
use vstd::prelude::*;
use vstd::string::*;

verus! {

// ---- which pools -----------------------------------------------------

/// A pool, as a manifest declares it.
#[derive(Debug, Clone)]
pub struct PoolRef {
    pub database: String,
    /// What clients call it, where that is not the database's name.
    pub as_name: Option<String>,
}

/// A cluster a pooler fronts.
#[derive(Debug, Clone)]
pub struct ClusterPools {
    pub cluster: String,
    /// The application's database, which is what is fronted where nothing is
    /// declared.
    pub default_database: Option<String>,
    pub declared: Vec<PoolRef>,
}

/// A pool, with everything decided.
#[derive(Debug, Clone, PartialEq, Eq)]
pub struct ResolvedPool {
    pub cluster: String,
    /// Which of the pooler's clusters it is.
    pub cluster_index: usize,
    pub database: String,
    pub name: String,
}

/// A pool and whether it was declared or stands by default.
pub struct Claim {
    pub cluster: Seq<char>,
    pub index: nat,
    pub database: Seq<char>,
    pub name: Seq<char>,
    pub defaulted: bool,
}

/// The claims without how they came about.
pub open spec fn resolved_as(v: Seq<ResolvedPool>, c: Seq<Claim>) -> bool {
    &&& v.len() == c.len()
    &&& forall|i: int|
        0 <= i < v.len() ==> {
            &&& (#[trigger] v[i]).cluster@ == c[i].cluster
            &&& v[i].cluster_index == c[i].index
            &&& v[i].database@ == c[i].database
            &&& v[i].name@ == c[i].name
        }
}

pub open spec fn no_default(cluster: Seq<char>) -> Seq<char> {
    "cluster "@ + debug_form(cluster)
        + " has no bootstrap.initdb.database, so there is no default pool to create — name the databases explicitly under spec.clusters[].pools"@
}

pub open spec fn collision_head(name: Seq<char>, first: Seq<char>, second: Seq<char>) -> Seq<char> {
    "two pools would both be named "@ + debug_form(name) + " — one on cluster "@ + debug_form(first)
        + " and one on "@ + debug_form(second)
        + ". A client picks a pool by putting that name in `dbname`, so it has to be unique."@
}

/// What is wrong with two pools of one name, and how to write them.
pub open spec fn collision_text(
    name: Seq<char>,
    first: Seq<char>,
    second: Seq<char>,
    both_defaulted: bool,
) -> Seq<char> {
    if both_defaulted {
        collision_head(name, first, second)
            + "\n\nNeither was written down: a cluster with no `pools:` exports its application database under the database's own name, and both of these are called "@
            + debug_form(name) + ". Name them explicitly:\n\n  clusters:\n    - cluster: "@ + first
            + "\n      pools: [{ database: "@ + name + ", as: "@ + first + "-"@ + name
            + " }]\n    - cluster: "@ + second + "\n      pools: [{ database: "@ + name + ", as: "@
            + second + "-"@ + name + " }]"@
    } else {
        collision_head(name, first, second) + " Set `as:` on one of them."@
    }
}

/// What is wrong with two pools of one name, and how to write them.
pub fn collision(name: &str, first: &str, second: &str, both_defaulted: bool) -> (r: String)
    ensures
        r@ == collision_text(name@, first@, second@, both_defaulted),
{
    let mut s = "two pools would both be named ".to_owned();
    s.append(debug_quoted(name).as_str());
    s.append(" — one on cluster ");
    s.append(debug_quoted(first).as_str());
    s.append(" and one on ");
    s.append(debug_quoted(second).as_str());
    s.append(". A client picks a pool by putting that name in `dbname`, so it has to be unique.");
    if !both_defaulted {
        s.append(" Set `as:` on one of them.");
        return s;
    }
    s.append(
        "\n\nNeither was written down: a cluster with no `pools:` exports its application database under the database's own name, and both of these are called ",
    );
    s.append(debug_quoted(name).as_str());
    s.append(". Name them explicitly:\n\n  clusters:\n    - cluster: ");
    s.append(first);
    s.append("\n      pools: [{ database: ");
    s.append(name);
    s.append(", as: ");
    s.append(first);
    s.append("-");
    s.append(name);
    s.append(" }]\n    - cluster: ");
    s.append(second);
    s.append("\n      pools: [{ database: ");
    s.append(name);
    s.append(", as: ");
    s.append(second);
    s.append("-");
    s.append(name);
    s.append(" }]");
    s
}

/// What clients call a pool.
pub open spec fn pool_name_of(p: PoolRef) -> Seq<char> {
    match p.as_name {
        Some(n) => n@,
        None => p.database@,
    }
}

impl PoolRef {
    /// What clients call a pool.
    pub fn pool_name(&self) -> (r: &str)
        ensures
            r@ == pool_name_of(*self),
    {
        match &self.as_name {
            Some(n) => n.as_str(),
            None => self.database.as_str(),
        }
    }
}

/// The pools of a cluster: the declared ones, or its application's database
/// under its own name.
pub open spec fn pools_of(input: ClusterPools) -> Result<Seq<(Seq<char>, Seq<char>)>, Seq<char>> {
    if input.declared@.len() == 0 {
        match input.default_database {
            None => Err(no_default(input.cluster@)),
            Some(d) => Ok(seq![(d@, d@)]),
        }
    } else {
        Ok(input.declared@.map_values(|p: PoolRef| (p.database@, pool_name_of(p))))
    }
}

/// The earlier claim to a name.
pub open spec fn claimed(out: Seq<Claim>, name: Seq<char>) -> Option<Claim>
    decreases out.len(),
{
    if out.len() == 0 {
        None
    } else if out.last().name == name {
        Some(out.last())
    } else {
        claimed(out.drop_last(), name)
    }
}

/// One more pool; refused where its name is taken.
pub open spec fn with_pool(out: Seq<Claim>, c: Claim) -> Result<Seq<Claim>, Seq<char>> {
    match claimed(out, c.name) {
        Some(other) => Err(
            collision_text(c.name, other.cluster, c.cluster, c.defaulted && other.defaulted),
        ),
        None => Ok(out.push(c)),
    }
}

/// The first pools of a cluster added to those before.
pub open spec fn with_pools(
    out: Seq<Claim>,
    input: ClusterPools,
    index: nat,
    pools: Seq<(Seq<char>, Seq<char>)>,
) -> Result<Seq<Claim>, Seq<char>>
    decreases pools.len(),
{
    if pools.len() == 0 {
        Ok(out)
    } else {
        match with_pools(out, input, index, pools.drop_last()) {
            Err(e) => Err(e),
            Ok(o) => with_pool(
                o,
                Claim {
                    cluster: input.cluster@,
                    index,
                    database: pools.last().0,
                    name: pools.last().1,
                    defaulted: input.declared@.len() == 0,
                },
            ),
        }
    }
}

/// The pools of the first clusters, or what is wrong with them.
pub open spec fn resolution(inputs: Seq<ClusterPools>) -> Result<Seq<Claim>, Seq<char>>
    decreases inputs.len(),
{
    if inputs.len() == 0 {
        Ok(Seq::empty())
    } else {
        match resolution(inputs.drop_last()) {
            Err(e) => Err(e),
            Ok(o) => match pools_of(inputs.last()) {
                Err(e) => Err(e),
                Ok(p) => with_pools(o, inputs.last(), (inputs.len() - 1) as nat, p),
            },
        }
    }
}

proof fn with_pools_prefix(
    out: Seq<Claim>,
    input: ClusterPools,
    index: nat,
    pools: Seq<(Seq<char>, Seq<char>)>,
    i: int,
)
    requires
        0 <= i <= pools.len(),
        with_pools(out, input, index, pools.take(i)) is Err,
    ensures
        with_pools(out, input, index, pools) == with_pools(out, input, index, pools.take(i)),
    decreases pools.len() - i,
{
    if i == pools.len() {
        assert(pools.take(i) =~= pools);
    } else {
        assert(pools.take(i + 1).drop_last() =~= pools.take(i));
        with_pools_prefix(out, input, index, pools, i + 1);
    }
}

proof fn resolution_prefix(inputs: Seq<ClusterPools>, i: int)
    requires
        0 <= i <= inputs.len(),
        resolution(inputs.take(i)) is Err,
    ensures
        resolution(inputs) == resolution(inputs.take(i)),
    decreases inputs.len() - i,
{
    if i == inputs.len() {
        assert(inputs.take(i) =~= inputs);
    } else {
        assert(inputs.take(i + 1).drop_last() =~= inputs.take(i));
        resolution_prefix(inputs, i + 1);
    }
}

/// The pools being collected, and which of them stand by default.
struct Collected {
    pools: Vec<ResolvedPool>,
    defaulted: Vec<bool>,
}

impl Collected {
    spec fn holds(&self, c: Seq<Claim>) -> bool {
        &&& resolved_as(self.pools@, c)
        &&& self.defaulted.len() == self.pools.len()
        &&& forall|i: int| 0 <= i < c.len() ==> self.defaulted@[i] == (#[trigger] c[i]).defaulted
    }

    /// Where a name was claimed before.
    fn find(&self, name: &str, Ghost(c): Ghost<Seq<Claim>>) -> (r: Option<usize>)
        requires
            self.holds(c),
        ensures
            match r {
                Some(i) => i < c.len() && claimed(c, name@) == Some(c[i as int]),
                None => claimed(c, name@) is None,
            },
    {
        let mut n: usize = self.pools.len();
        assert(c.take(n as int) =~= c);
        while n > 0
            invariant
                n <= self.pools.len(),
                self.holds(c),
                claimed(c, name@) == claimed(c.take(n as int), name@),
            decreases n,
        {
            assert(c.take(n as int).drop_last() =~= c.take(n - 1));
            assert(self.pools@[n - 1].name@ == c[n - 1].name);
            if same(self.pools[n - 1].name.as_str(), name) {
                return Some(n - 1);
            }
            n = n - 1;
        }
        None
    }
}

/// Decides which pools a pooler has. A client picks a pool by name, so no two
/// may have the same.
pub fn resolve_pools(inputs: &Vec<ClusterPools>) -> (r: Result<Vec<ResolvedPool>, String>)
    ensures
        match (r, resolution(inputs@)) {
            (Ok(v), Ok(c)) => resolved_as(v@, c),
            (Err(m), Err(e)) => m@ == e,
            _ => false,
        },
{
    let mut out = Collected { pools: Vec::new(), defaulted: Vec::new() };
    let ghost mut claims: Seq<Claim> = Seq::empty();
    let mut i: usize = 0;
    while i < inputs.len()
        invariant
            i <= inputs.len(),
            resolution(inputs@.take(i as int)) == Ok::<Seq<Claim>, Seq<char>>(claims),
            out.holds(claims),
        decreases inputs.len() - i,
    {
        let input = &inputs[i];
        let ghost upto = inputs@.take(i + 1);
        assert(upto.drop_last() =~= inputs@.take(i as int));
        assert(upto.last() == *input);
        let defaulted = input.declared.len() == 0;
        let ghost want = pools_of(*input);
        let mut pools: Vec<(String, String)> = Vec::new();
        if defaulted {
            match &input.default_database {
                None => {
                    let mut m = "cluster ".to_owned();
                    m.append(debug_quoted(input.cluster.as_str()).as_str());
                    m.append(
                        " has no bootstrap.initdb.database, so there is no default pool to create — name the databases explicitly under spec.clusters[].pools",
                    );
                    proof {
                        resolution_prefix(inputs@, i + 1);
                    }
                    return Err(m);
                },
                Some(d) => {
                    pools.push((d.clone(), d.clone()));
                    assert(pair_texts(pools@) =~= want->Ok_0);
                },
            }
        } else {
            let mut k: usize = 0;
            while k < input.declared.len()
                invariant
                    k <= input.declared.len(),
                    input.declared.len() > 0,
                    want == pools_of(*input),
                    pair_texts(pools@) == want->Ok_0.take(k as int),
                decreases input.declared.len() - k,
            {
                let p = &input.declared[k];
                let ghost before = pair_texts(pools@);
                pools.push((p.database.clone(), p.pool_name().to_owned()));
                assert(pair_texts(pools@) =~= before.push((p.database@, pool_name_of(*p))));
                assert(pair_texts(pools@) =~= want->Ok_0.take(k + 1));
                k = k + 1;
            }
            assert(want->Ok_0.take(k as int) =~= want->Ok_0);
        }
        let ghost all = want->Ok_0;
        let ghost start = claims;
        let mut k: usize = 0;
        assert(all.take(0) =~= Seq::empty());
        while k < pools.len()
            invariant
                k <= pools.len(),
                i < inputs.len(),
                *input == inputs@[i as int],
                upto == inputs@.take(i + 1),
                upto.drop_last() == inputs@.take(i as int),
                upto.last() == *input,
                resolution(inputs@.take(i as int)) == Ok::<Seq<Claim>, Seq<char>>(start),
                want == pools_of(*input),
                want is Ok,
                all == want->Ok_0,
                pair_texts(pools@) == all,
                defaulted == (input.declared@.len() == 0),
                with_pools(start, *input, i as nat, all.take(k as int)) == Ok::<
                    Seq<Claim>,
                    Seq<char>,
                >(claims),
                out.holds(claims),
            decreases pools.len() - k,
        {
            assert(all.take(k + 1).drop_last() =~= all.take(k as int));
            assert(all.take(k + 1).last() == (pools@[k as int].0@, pools@[k as int].1@));
            let name = pools[k].1.as_str();
            match out.find(name, Ghost(claims)) {
                Some(j) => {
                    proof {
                        with_pools_prefix(start, *input, i as nat, all, k + 1);
                        resolution_prefix(inputs@, i + 1);
                    }
                    assert(out.defaulted@[j as int] == claims[j as int].defaulted);
                    assert(out.pools@[j as int].cluster@ == claims[j as int].cluster);
                    return Err(
                        collision(
                            name,
                            out.pools[j].cluster.as_str(),
                            input.cluster.as_str(),
                            defaulted && out.defaulted[j],
                        ),
                    );
                },
                None => {
                    let pool = ResolvedPool {
                        cluster: input.cluster.clone(),
                        cluster_index: i,
                        database: pools[k].0.clone(),
                        name: name.to_owned(),
                    };
                    let ghost before = out.pools@;
                    let ghost old_claims = claims;
                    out.pools.push(pool);
                    out.defaulted.push(defaulted);
                    proof {
                        claims = claims.push(
                            Claim {
                                cluster: input.cluster@,
                                index: i as nat,
                                database: pools@[k as int].0@,
                                name: pools@[k as int].1@,
                                defaulted,
                            },
                        );
                        assert forall|q: int| 0 <= q < out.pools@.len() implies {
                            &&& (#[trigger] out.pools@[q]).cluster@ == claims[q].cluster
                            &&& out.pools@[q].cluster_index == claims[q].index
                            &&& out.pools@[q].database@ == claims[q].database
                            &&& out.pools@[q].name@ == claims[q].name
                        } by {
                            if q < before.len() {
                                assert(out.pools@[q] == before[q]);
                                assert(claims[q] == old_claims[q]);
                            }
                        }
                    }
                },
            }
            k = k + 1;
        }
        assert(all.take(k as int) =~= all);
        i = i + 1;
    }
    assert(inputs@.take(i as int) =~= inputs@);
    Ok(out.pools)
}

/// No two pools have one name, and each knows which cluster it is on.
pub open spec fn sound(out: Seq<Claim>, inputs: Seq<ClusterPools>) -> bool {
    &&& forall|i: int, j: int|
        0 <= i < j < out.len() ==> (#[trigger] out[i]).name != (#[trigger] out[j]).name
    &&& forall|i: int|
        0 <= i < out.len() ==> (#[trigger] out[i]).index < inputs.len() && out[i].cluster
            == inputs[out[i].index as int].cluster@
}

proof fn unclaimed(out: Seq<Claim>, name: Seq<char>)
    requires
        claimed(out, name) is None,
    ensures
        forall|i: int| 0 <= i < out.len() ==> (#[trigger] out[i]).name != name,
    decreases out.len(),
{
    if out.len() > 0 {
        unclaimed(out.drop_last(), name);
        assert forall|i: int| 0 <= i < out.len() implies (#[trigger] out[i]).name != name by {
            if i < out.len() - 1 {
                assert(out.drop_last()[i] == out[i]);
            }
        }
    }
}

proof fn adding_pools_is_sound(
    out: Seq<Claim>,
    inputs: Seq<ClusterPools>,
    index: nat,
    pools: Seq<(Seq<char>, Seq<char>)>,
)
    requires
        sound(out, inputs),
        index < inputs.len(),
        with_pools(out, inputs[index as int], index, pools) is Ok,
    ensures
        sound(with_pools(out, inputs[index as int], index, pools)->Ok_0, inputs),
    decreases pools.len(),
{
    if pools.len() > 0 {
        adding_pools_is_sound(out, inputs, index, pools.drop_last());
        let before = with_pools(out, inputs[index as int], index, pools.drop_last())->Ok_0;
        unclaimed(before, pools.last().1);
    }
}

/// The pools a pooler ends up with: no two of one name, and each with the
/// number and the name of its own cluster.
pub proof fn pools_are_unique_and_placed(inputs: Seq<ClusterPools>)
    requires
        resolution(inputs) is Ok,
    ensures
        sound(resolution(inputs)->Ok_0, inputs),
    decreases inputs.len(),
{
    if inputs.len() > 0 {
        let rest = inputs.drop_last();
        pools_are_unique_and_placed(rest);
        let o = resolution(rest)->Ok_0;
        assert forall|i: int| 0 <= i < o.len() implies (#[trigger] o[i]).index < inputs.len()
            && o[i].cluster == inputs[o[i].index as int].cluster@ by {
            assert(rest[o[i].index as int] == inputs[o[i].index as int]);
        }
        assert(inputs[inputs.len() - 1] == inputs.last());
        adding_pools_is_sound(
            o,
            inputs,
            (inputs.len() - 1) as nat,
            pools_of(inputs.last())->Ok_0,
        );
    }
}

/// A cluster with nothing declared and no application's database cannot be
/// fronted, whatever else is.
pub proof fn nothing_to_front(inputs: Seq<ClusterPools>, i: int)
    requires
        0 <= i < inputs.len(),
        inputs[i].declared@.len() == 0,
        inputs[i].default_database is None,
    ensures
        resolution(inputs) is Err,
{
    let upto = inputs.take(i + 1);
    assert(upto.last() == inputs[i]);
    assert(resolution(upto) is Err);
    resolution_prefix(inputs, i + 1);
}

/// A cluster named in a manifest, and what the registry knows of it.
#[derive(Debug, Clone)]
pub struct Fronted {
    pub cluster: String,
    pub known: bool,
    pub default_database: Option<String>,
    pub declared: Vec<PoolRef>,
}

/// The first cluster the registry does not know.
pub open spec fn first_unknown(v: Seq<Fronted>) -> Option<Seq<char>>
    decreases v.len(),
{
    if v.len() == 0 {
        None
    } else if !v[0].known {
        Some(v[0].cluster@)
    } else {
        first_unknown(v.subrange(1, v.len() as int))
    }
}

/// Refuses a pooler in front of a cluster pgpod does not know.
pub fn refuse_unknown(pooler: &str, v: &Vec<Fronted>) -> (r: Option<String>)
    ensures
        opt_text(r) == match first_unknown(v@) {
            None => None,
            Some(c) => Some(
                "pooler "@ + pooler@ + " fronts cluster "@ + c
                    + ", which pgpod does not know about — apply the cluster first"@,
            ),
        },
{
    let mut i: usize = 0;
    assert(v@.subrange(0, v@.len() as int) =~= v@);
    while i < v.len()
        invariant
            i <= v.len(),
            first_unknown(v@) == first_unknown(v@.subrange(i as int, v@.len() as int)),
        decreases v.len() - i,
    {
        let ghost rest = v@.subrange(i as int, v@.len() as int);
        assert(rest.subrange(1, rest.len() as int) =~= v@.subrange(i + 1, v@.len() as int));
        if !v[i].known {
            let mut m = "pooler ".to_owned();
            m.append(pooler);
            m.append(" fronts cluster ");
            m.append(v[i].cluster.as_str());
            m.append(", which pgpod does not know about — apply the cluster first");
            return Some(m);
        }
        i = i + 1;
    }
    None
}

// ---- what a pooler is told -------------------------------------------

/// A pool as a pooler is told of it.
#[derive(Debug, Clone, PartialEq, Eq)]
pub struct PoolTarget {
    pub name: String,
    pub cluster: String,
    pub server_host: String,
    pub server_port: u16,
    pub database: String,
    pub lookup_role: String,
    pub lookup_database: String,
    pub lookup_secret_index: usize,
}

/// How long clients are held, and how that is written.
#[derive(Debug, Clone)]
pub struct HoldBudget {
    pub millis: u64,
    pub text: String,
}

/// Everything a pooler is told when its container is created.
#[derive(Debug, Clone)]
pub struct PoolerSpec {
    pub pooler: String,
    pub port: u16,
    pub pools: Vec<PoolTarget>,
    pub pool_mode: String,
    pub pool_size: u32,
    pub max_hold: HoldBudget,
    pub parameters: Vec<(String, String)>,
}

/// A pool as a pooler is told of it: reached through the first instance of
/// its cluster.
pub open spec fn targets(r: ResolvedPool, host: Seq<char>, role: Seq<char>, t: PoolTarget) -> bool {
    &&& t.name@ == r.name@
    &&& t.cluster@ == r.cluster@
    &&& t.server_host@ == host
    &&& t.server_port == PG_PORT
    &&& t.database@ == r.database@
    &&& t.lookup_role@ == role
    &&& t.lookup_database@ == "postgres"@
    &&& t.lookup_secret_index == r.cluster_index
}

/// The pools as a pooler is told of them. `hosts` names each cluster's first
/// instance.
pub fn pool_targets(resolved: &Vec<ResolvedPool>, hosts: &Vec<String>, role: &str) -> (r: Vec<
    PoolTarget,
>)
    requires
        forall|i: int|
            0 <= i < resolved.len() ==> (#[trigger] resolved@[i]).cluster_index < hosts.len(),
    ensures
        r.len() == resolved.len(),
        forall|i: int|
            0 <= i < resolved.len() ==> targets(
                resolved@[i],
                texts(hosts@)[resolved@[i].cluster_index as int],
                role@,
                #[trigger] r@[i],
            ),
{
    let mut out: Vec<PoolTarget> = Vec::new();
    let mut i: usize = 0;
    while i < resolved.len()
        invariant
            i <= resolved.len(),
            forall|k: int|
                0 <= k < resolved.len() ==> (#[trigger] resolved@[k]).cluster_index < hosts.len(),
            out.len() == i,
            forall|k: int|
                0 <= k < i ==> targets(
                    resolved@[k],
                    texts(hosts@)[resolved@[k].cluster_index as int],
                    role@,
                    #[trigger] out@[k],
                ),
        decreases resolved.len() - i,
    {
        let p = &resolved[i];
        assert(resolved@[i as int].cluster_index < hosts.len());
        out.push(
            PoolTarget {
                name: p.name.clone(),
                cluster: p.cluster.clone(),
                server_host: hosts[p.cluster_index].clone(),
                server_port: PG_PORT,
                database: p.database.clone(),
                lookup_role: role.to_owned(),
                lookup_database: "postgres".to_owned(),
                lookup_secret_index: p.cluster_index,
            },
        );
        i = i + 1;
    }
    out
}

/// The port a pooler is published on: the manifest's, or the one it has, or a
/// new one.
pub fn pooler_port(manifest: Option<u16>, existing: Option<u16>, allocated: u16) -> (r: u16)
    ensures
        r == (match (manifest, existing) {
            (Some(p), _) => p,
            (None, Some(p)) => p,
            (None, None) => allocated,
        }),
{
    match (manifest, existing) {
        (Some(p), _) => p,
        (None, Some(p)) => p,
        (None, None) => allocated,
    }
}

/// Refuses a parameter that pgpod manages itself.
pub fn validate_pooler_parameters(keys: &Vec<String>, reserved: &Vec<String>) -> (r: Option<String>)
    ensures
        opt_text(r) == match first_reserved(texts(keys@), texts(reserved@)) {
            None => None,
            Some(k) => Some(
                "spec.pgDoorman.parameters: "@ + debug_form(k)
                    + " is managed by pgpod and cannot be set here"@,
            ),
        },
{
    match validate_parameters(keys, reserved) {
        None => None,
        Some(k) => {
            let mut m = "spec.pgDoorman.parameters: ".to_owned();
            m.append(debug_quoted(k.as_str()).as_str());
            m.append(" is managed by pgpod and cannot be set here");
            Some(m)
        },
    }
}

/// The clusters behind the pools, each once, in order.
pub open spec fn clusters_in(v: Seq<PoolTarget>) -> Seq<Seq<char>>
    decreases v.len(),
{
    if v.len() == 0 {
        Seq::empty()
    } else {
        let before = clusters_in(v.drop_last());
        if before.contains(v.last().cluster@) {
            before
        } else {
            before.push(v.last().cluster@)
        }
    }
}

/// The clusters behind the pools, each once, in order.
pub fn clusters_of(v: &Vec<PoolTarget>) -> (r: Vec<String>)
    ensures
        texts(r@) == clusters_in(v@),
{
    let mut out: Vec<String> = Vec::new();
    let mut i: usize = 0;
    assert(texts(out@) =~= clusters_in(v@.take(0)));
    while i < v.len()
        invariant
            i <= v.len(),
            texts(out@) == clusters_in(v@.take(i as int)),
        decreases v.len() - i,
    {
        assert(v@.take(i + 1).drop_last() =~= v@.take(i as int));
        if !in_list(&out, v[i].cluster.as_str()) {
            push_text(&mut out, v[i].cluster.clone());
        }
        i = i + 1;
    }
    assert(v@.take(i as int) =~= v@);
    out
}

// ---- the difference --------------------------------------------------

/// `x` behind everything that comes no later.
pub open spec fn insert_text(sorted: Seq<Seq<char>>, x: Seq<char>) -> Seq<Seq<char>>
    decreases sorted.len(),
{
    if sorted.len() == 0 || text_le(sorted.last(), x) {
        sorted.push(x)
    } else {
        insert_text(sorted.drop_last(), x).push(sorted.last())
    }
}

proof fn insert_text_at(sorted: Seq<Seq<char>>, x: Seq<char>, p: int)
    requires
        0 <= p <= sorted.len(),
        p > 0 ==> text_le(sorted[p - 1], x),
        forall|k: int| p <= k < sorted.len() ==> !text_le(#[trigger] sorted[k], x),
    ensures
        insert_text(sorted, x) == sorted.insert(p, x),
    decreases sorted.len(),
{
    if p == sorted.len() {
        assert(sorted.insert(p, x) =~= sorted.push(x));
    } else {
        let rest = sorted.drop_last();
        assert forall|k: int| p <= k < rest.len() implies !text_le(#[trigger] rest[k], x) by {
            assert(rest[k] == sorted[k]);
        }
        assert(!text_le(sorted[sorted.len() - 1], x));
        insert_text_at(rest, x, p);
        assert(rest.insert(p, x).push(sorted.last()) =~= sorted.insert(p, x));
    }
}

/// A pool and where it leads.
pub open spec fn route(t: PoolTarget) -> Seq<char> {
    t.name@ + " -> "@ + t.cluster@ + "/"@ + t.database@
}

/// The pools and where they lead, in order.
pub open spec fn routes(v: Seq<PoolTarget>) -> Seq<Seq<char>>
    decreases v.len(),
{
    if v.len() == 0 {
        Seq::empty()
    } else {
        insert_text(routes(v.drop_last()), route(v.last()))
    }
}

fn routes_of(v: &Vec<PoolTarget>) -> (r: Vec<String>)
    ensures
        texts(r@) == routes(v@),
{
    let mut out: Vec<String> = Vec::new();
    let mut i: usize = 0;
    assert(texts(out@) =~= routes(v@.take(0)));
    while i < v.len()
        invariant
            i <= v.len(),
            texts(out@) == routes(v@.take(i as int)),
        decreases v.len() - i,
    {
        assert(v@.take(i + 1).drop_last() =~= v@.take(i as int));
        let mut s = v[i].name.clone();
        s.append(" -> ");
        s.append(v[i].cluster.as_str());
        s.append("/");
        s.append(v[i].database.as_str());
        let ghost x = s@;
        let ghost before = texts(out@);
        let mut p: usize = out.len();
        while p > 0 && !is_text_le(out[p - 1].as_str(), s.as_str())
            invariant
                p <= out.len(),
                s@ == x,
                before == texts(out@),
                forall|k: int| p <= k < out.len() ==> !text_le(#[trigger] before[k], x),
            decreases p,
        {
            assert(before[p - 1] == out@[p - 1]@);
            p = p - 1;
        }
        proof {
            if p > 0 {
                assert(before[p - 1] == out@[p - 1]@);
            }
            insert_text_at(before, x, p as int);
        }
        out.insert(p, s);
        assert(texts(out@) =~= before.insert(p as int, x));
        i = i + 1;
    }
    assert(v@.take(i as int) =~= v@);
    out
}

/// A line for each of some pools that is not among others.
pub open spec fn lines_for(
    out: Seq<Seq<char>>,
    head: Seq<char>,
    v: Seq<Seq<char>>,
    others: Seq<Seq<char>>,
) -> Seq<Seq<char>>
    decreases v.len(),
{
    if v.len() == 0 {
        out
    } else {
        let before = lines_for(out, head, v.drop_last(), others);
        if others.contains(v.last()) {
            before
        } else {
            before.push(head + v.last())
        }
    }
}

fn add_lines_for(out: &mut Vec<String>, head: &str, v: &Vec<String>, others: &Vec<String>)
    ensures
        texts(final(out)@) == lines_for(texts(old(out)@), head@, texts(v@), texts(others@)),
{
    let ghost start = texts(out@);
    let ghost all = texts(v@);
    let mut i: usize = 0;
    assert(all.take(0) =~= Seq::empty());
    while i < v.len()
        invariant
            i <= v.len(),
            all == texts(v@),
            texts(out@) == lines_for(start, head@, all.take(i as int), texts(others@)),
        decreases v.len() - i,
    {
        assert(all.take(i + 1).drop_last() =~= all.take(i as int));
        assert(all.take(i + 1).last() == v@[i as int]@);
        if !in_list(others, v[i].as_str()) {
            let mut s = head.to_owned();
            s.append(v[i].as_str());
            push_text(out, s);
        }
        i = i + 1;
    }
    assert(all.take(i as int) =~= all);
}

/// What changed between two specifications of a pooler, a line each. A
/// difference in none of the fields is still said to be one.
pub open spec fn pooler_lines(a: PoolerSpec, b: PoolerSpec) -> Seq<Seq<char>> {
    let o = Seq::<Seq<char>>::empty();
    let o = if a.pool_mode@ == b.pool_mode@ {
        o
    } else {
        o.push("  poolMode: "@ + a.pool_mode@ + " -> "@ + b.pool_mode@)
    };
    let o = if a.pool_size == b.pool_size {
        o
    } else {
        o.push("  poolSize: "@ + decimal(a.pool_size as nat) + " -> "@ + decimal(b.pool_size as nat))
    };
    let o = if a.max_hold.millis == b.max_hold.millis {
        o
    } else {
        o.push("  maxHold: "@ + a.max_hold.text@ + " -> "@ + b.max_hold.text@)
    };
    let o = if pair_texts(a.parameters@) == pair_texts(b.parameters@) {
        o
    } else {
        o.push(
            "  parameters: "@ + debug_pairs(pair_texts(a.parameters@)) + " -> "@ + debug_pairs(
                pair_texts(b.parameters@),
            ),
        )
    };
    let o = lines_for(o, "  pool removed: "@, routes(a.pools@), routes(b.pools@));
    let o = lines_for(o, "  pool added:   "@, routes(b.pools@), routes(a.pools@));
    if o.len() == 0 {
        seq!["  the specs differ in a field this message does not break out"@]
    } else {
        o
    }
}

/// What changed between two specifications of a pooler, a line each.
pub fn pooler_differences(running: &PoolerSpec, desired: &PoolerSpec) -> (r: Vec<String>)
    ensures
        texts(r@) == pooler_lines(*running, *desired),
{
    let mut out: Vec<String> = Vec::new();
    assert(texts(out@) =~= Seq::empty());
    if !same(running.pool_mode.as_str(), desired.pool_mode.as_str()) {
        let mut s = "  poolMode: ".to_owned();
        s.append(running.pool_mode.as_str());
        s.append(" -> ");
        s.append(desired.pool_mode.as_str());
        push_text(&mut out, s);
    }
    if running.pool_size != desired.pool_size {
        let mut s = "  poolSize: ".to_owned();
        append_decimal(&mut s, running.pool_size as u64);
        s.append(" -> ");
        append_decimal(&mut s, desired.pool_size as u64);
        push_text(&mut out, s);
    }
    if running.max_hold.millis != desired.max_hold.millis {
        let mut s = "  maxHold: ".to_owned();
        s.append(running.max_hold.text.as_str());
        s.append(" -> ");
        s.append(desired.max_hold.text.as_str());
        push_text(&mut out, s);
    }
    if !same_pairs(&running.parameters, &desired.parameters) {
        let mut s = "  parameters: ".to_owned();
        s.append(debug_pairs_of(&running.parameters).as_str());
        s.append(" -> ");
        s.append(debug_pairs_of(&desired.parameters).as_str());
        push_text(&mut out, s);
    }
    let before = routes_of(&running.pools);
    let after = routes_of(&desired.pools);
    add_lines_for(&mut out, "  pool removed: ", &before, &after);
    add_lines_for(&mut out, "  pool added:   ", &after, &before);
    assert(texts(out@).len() == out.len());
    if out.len() == 0 {
        push_text(
            &mut out,
            "  the specs differ in a field this message does not break out".to_owned(),
        );
        assert(texts(out@) =~= seq![
            "  the specs differ in a field this message does not break out"@,
        ]);
    }
    out
}

/// Two pools a pooler is told of are the same.
pub open spec fn same_target_texts(a: PoolTarget, b: PoolTarget) -> bool {
    &&& a.name@ == b.name@
    &&& a.cluster@ == b.cluster@
    &&& a.server_host@ == b.server_host@
    &&& a.server_port == b.server_port
    &&& a.database@ == b.database@
    &&& a.lookup_role@ == b.lookup_role@
    &&& a.lookup_database@ == b.lookup_database@
    &&& a.lookup_secret_index == b.lookup_secret_index
}

/// Two poolers were told the same.
pub open spec fn told_the_same(a: PoolerSpec, b: PoolerSpec) -> bool {
    &&& a.pooler@ == b.pooler@
    &&& a.port == b.port
    &&& a.pools.len() == b.pools.len()
    &&& forall|i: int|
        0 <= i < a.pools.len() ==> same_target_texts(#[trigger] a.pools@[i], b.pools@[i])
    &&& a.pool_mode@ == b.pool_mode@
    &&& a.pool_size == b.pool_size
    &&& a.max_hold.millis == b.max_hold.millis
    &&& pair_texts(a.parameters@) == pair_texts(b.parameters@)
}

fn same_target(a: &PoolTarget, b: &PoolTarget) -> (r: bool)
    ensures
        r == same_target_texts(*a, *b),
{
    same(a.name.as_str(), b.name.as_str()) && same(a.cluster.as_str(), b.cluster.as_str())
        && same(a.server_host.as_str(), b.server_host.as_str()) && a.server_port == b.server_port
        && same(a.database.as_str(), b.database.as_str()) && same(
        a.lookup_role.as_str(),
        b.lookup_role.as_str(),
    ) && same(a.lookup_database.as_str(), b.lookup_database.as_str()) && a.lookup_secret_index
        == b.lookup_secret_index
}

/// Whether two poolers were told the same.
pub fn same_pooler_spec(a: &PoolerSpec, b: &PoolerSpec) -> (r: bool)
    ensures
        r == told_the_same(*a, *b),
{
    if !same(a.pooler.as_str(), b.pooler.as_str()) || a.port != b.port || a.pools.len()
        != b.pools.len() {
        return false;
    }
    let mut i: usize = 0;
    while i < a.pools.len()
        invariant
            a.pools.len() == b.pools.len(),
            i <= a.pools.len(),
            forall|k: int|
                0 <= k < i ==> same_target_texts(#[trigger] a.pools@[k], b.pools@[k]),
        decreases a.pools.len() - i,
    {
        if !same_target(&a.pools[i], &b.pools[i]) {
            assert(!same_target_texts(a.pools@[i as int], b.pools@[i as int]));
            return false;
        }
        i = i + 1;
    }
    same(a.pool_mode.as_str(), b.pool_mode.as_str()) && a.pool_size == b.pool_size
        && a.max_hold.millis == b.max_hold.millis && same_pairs(&a.parameters, &b.parameters)
}

/// What a running pooler was told.
#[derive(Debug, Clone)]
pub enum PoolerTold {
    Nothing,
    Unreadable(String),
    Spec(PoolerSpec),
}

/// Why a pooler's container cannot be kept.
pub open spec fn pooler_divergence(pooler: Seq<char>, desired: PoolerSpec, told: PoolerTold) -> Option<
    ErrorView,
> {
    match told {
        PoolerTold::Nothing => Some(
            ErrorView::PoolerDiverged {
                pooler,
                detail: "the running container has no "@ + POOLER_SPEC_ENV@,
            },
        ),
        PoolerTold::Unreadable(e) => Some(ErrorView::Spec(e@)),
        PoolerTold::Spec(running) => if told_the_same(running, desired) {
            None
        } else {
            Some(
                ErrorView::PoolerDiverged {
                    pooler,
                    detail: joined(pooler_lines(running, desired), "\n"@),
                },
            )
        },
    }
}

/// Refuses a pooler that was told something else than its manifest says.
pub fn refuse_if_pooler_diverged(pooler: &str, desired: &PoolerSpec, told: &PoolerTold) -> (r:
    Option<Error>)
    ensures
        error_view(r) == pooler_divergence(pooler@, *desired, *told),
{
    match told {
        PoolerTold::Nothing => {
            let mut detail = "the running container has no ".to_owned();
            detail.append(POOLER_SPEC_ENV);
            Some(Error::PoolerDiverged { pooler: pooler.to_owned(), detail })
        },
        PoolerTold::Unreadable(e) => Some(Error::Spec(e.clone())),
        PoolerTold::Spec(running) => {
            if same_pooler_spec(running, desired) {
                None
            } else {
                let lines = pooler_differences(running, desired);
                Some(
                    Error::PoolerDiverged { pooler: pooler.to_owned(), detail: join(&lines, "\n") },
                )
            }
        },
    }
}

/// Waiting for a pooler to answer through its agent: `refused` is what came
/// back instead of an answer. A container that is gone ends the wait.
pub fn wait_pooler_ready(refused: Option<&str>, container_running: bool) -> (r: Poll)
    ensures
        match opt_str(refused) {
            None => r is Ready,
            Some(e) => if container_running {
                r matches Poll::Again(s) && s@ == e
            } else {
                r matches Poll::GiveUp(s) && s@ == e
            },
        },
{
    match refused {
        None => Poll::Ready,
        Some(e) => if container_running {
            Poll::Again(e.to_owned())
        } else {
            Poll::GiveUp(e.to_owned())
        },
    }
}

// ---- bringing one about ----------------------------------------------

/// Where the application of a pooler stands.
#[derive(Debug, Clone, Copy, PartialEq, Eq, Structural)]
pub enum Stage {
    Start,
    /// Making sure of the lookup role on this cluster.
    Role(usize),
    Secret,
    Probing,
    Recording,
    Running,
    Confirming,
    Waiting,
    Logging,
    Ended,
}

/// What came of the last action.
#[derive(Debug)]
pub enum Event {
    Begin,
    Done,
    /// The container, where there is one, and why it cannot be kept.
    Probed { probe: Option<Probed>, diverged: Option<Error> },
    Failed(String),
}

/// What to do next.
#[derive(Debug, Clone)]
pub enum Act {
    /// The event does not belong to this stage.
    Ignore,
    /// See that the lookup role exists on this cluster.
    EnsureRole(usize),
    EnsureAdminSecret,
    Probe,
    /// Record the manifest and its pools, in phase `applying`.
    Record,
    /// It runs.
    Adopt(String),
    /// Start it.
    Launch(String),
    Create,
    /// Record phase `running`.
    Confirm,
    WaitReady,
    /// Log it on every cluster.
    Log,
    Report { created: bool },
    Fail(String),
}

/// The application of a pooler under way.
#[derive(Debug, Clone)]
pub struct ApplyPooler {
    /// How many clusters it fronts.
    pub clusters: usize,
    pub wait: bool,
    /// The pooler was known before.
    pub existed: bool,
    pub probe: Option<Probed>,
    pub stage: Stage,
}

pub open spec fn same_but_stage(a: ApplyPooler, b: ApplyPooler, stage: Stage) -> bool {
    &&& b.clusters == a.clusters
    &&& b.wait == a.wait
    &&& b.existed == a.existed
    &&& b.probe == a.probe
    &&& b.stage == stage
}

/// What follows a success: the stage, and whether an act is the right one.
pub open spec fn after_done(a: ApplyPooler, stage: Stage, act: Act) -> bool {
    match a.stage {
        Stage::Role(k) => if k + 1 < a.clusters {
            act == Act::EnsureRole((k + 1) as usize) && stage == Stage::Role((k + 1) as usize)
        } else {
            act is EnsureAdminSecret && stage == Stage::Secret
        },
        Stage::Secret => act is Probe && stage == Stage::Probing,
        Stage::Recording => {
            &&& stage == Stage::Running
            &&& match a.probe {
                None => act is Create,
                Some(p) => if p.running {
                    act matches Act::Adopt(id) && id@ == p.id@
                } else {
                    act matches Act::Launch(id) && id@ == p.id@
                },
            }
        },
        Stage::Running => act is Confirm && stage == Stage::Confirming,
        Stage::Confirming => if a.wait {
            act is WaitReady && stage == Stage::Waiting
        } else {
            act is Log && stage == Stage::Logging
        },
        Stage::Waiting => act is Log && stage == Stage::Logging,
        Stage::Logging => act == (Act::Report { created: !a.existed }) && stage == Stage::Ended,
        _ => act is Ignore && stage == a.stage,
    }
}

/// What follows an event. Divergence is looked at before anything is
/// recorded, so a refused application leaves the registry as it was.
pub open spec fn follows(a: ApplyPooler, ev: Event, b: ApplyPooler, act: Act) -> bool {
    match ev {
        Event::Begin => if a.stage == Stage::Start {
            if a.clusters > 0 {
                act == Act::EnsureRole(0) && same_but_stage(a, b, Stage::Role(0))
            } else {
                act is EnsureAdminSecret && same_but_stage(a, b, Stage::Secret)
            }
        } else {
            act is Ignore && same_but_stage(a, b, a.stage)
        },
        Event::Probed { probe, diverged } => if a.stage == Stage::Probing {
            match (probe, diverged) {
                (Some(_), Some(e)) => act matches Act::Fail(m) && m@
                    == crate::control::error::error_text(e@) && same_but_stage(a, b, Stage::Ended),
                _ => act is Record && b.probe == probe && same_but_stage(
                    ApplyPooler { probe, ..a },
                    b,
                    Stage::Recording,
                ),
            }
        } else {
            act is Ignore && same_but_stage(a, b, a.stage)
        },
        Event::Done => after_done(a, b.stage, act) && same_but_stage(a, b, b.stage),
        Event::Failed(e) => if a.stage == Stage::Start || a.stage == Stage::Ended {
            act is Ignore && same_but_stage(a, b, a.stage)
        } else {
            act matches Act::Fail(m) && m@ == e@ && same_but_stage(a, b, Stage::Ended)
        },
    }
}

impl ApplyPooler {
    /// The cluster at hand is one of the pooler's.
    pub open spec fn wf(&self) -> bool {
        self.stage matches Stage::Role(k) ==> k < self.clusters
    }

    /// An application that has not begun.
    pub fn new(clusters: usize, wait: bool, existed: bool) -> (r: Self)
        ensures
            r.wf(),
            r == (ApplyPooler { clusters, wait, existed, probe: None, stage: Stage::Start }),
    {
        ApplyPooler { clusters, wait, existed, probe: None, stage: Stage::Start }
    }

    fn done(&mut self) -> (act: Act)
        requires
            old(self).wf(),
        ensures
            final(self).wf(),
            after_done(*old(self), final(self).stage, act),
            same_but_stage(*old(self), *final(self), final(self).stage),
    {
        match self.stage {
            Stage::Role(k) => {
                if k + 1 < self.clusters {
                    self.stage = Stage::Role(k + 1);
                    Act::EnsureRole(k + 1)
                } else {
                    self.stage = Stage::Secret;
                    Act::EnsureAdminSecret
                }
            },
            Stage::Secret => {
                self.stage = Stage::Probing;
                Act::Probe
            },
            Stage::Recording => {
                self.stage = Stage::Running;
                match &self.probe {
                    None => Act::Create,
                    Some(p) => if p.running {
                        Act::Adopt(p.id.clone())
                    } else {
                        Act::Launch(p.id.clone())
                    },
                }
            },
            Stage::Running => {
                self.stage = Stage::Confirming;
                Act::Confirm
            },
            Stage::Confirming => {
                if self.wait {
                    self.stage = Stage::Waiting;
                    Act::WaitReady
                } else {
                    self.stage = Stage::Logging;
                    Act::Log
                }
            },
            Stage::Waiting => {
                self.stage = Stage::Logging;
                Act::Log
            },
            Stage::Logging => {
                self.stage = Stage::Ended;
                Act::Report { created: !self.existed }
            },
            _ => Act::Ignore,
        }
    }

    /// Takes in what came of the last action, and says what to do next.
    pub fn step(&mut self, ev: Event) -> (act: Act)
        requires
            old(self).wf(),
        ensures
            final(self).wf(),
            follows(*old(self), ev, *final(self), act),
    {
        match ev {
            Event::Begin => {
                if self.stage == Stage::Start {
                    if self.clusters > 0 {
                        self.stage = Stage::Role(0);
                        Act::EnsureRole(0)
                    } else {
                        self.stage = Stage::Secret;
                        Act::EnsureAdminSecret
                    }
                } else {
                    Act::Ignore
                }
            },
            Event::Probed { probe, diverged } => {
                if self.stage == Stage::Probing {
                    if probe.is_some() {
                        if let Some(e) = &diverged {
                            self.stage = Stage::Ended;
                            return Act::Fail(e.to_text());
                        }
                    }
                    self.probe = probe;
                    self.stage = Stage::Recording;
                    Act::Record
                } else {
                    Act::Ignore
                }
            },
            Event::Done => self.done(),
            Event::Failed(e) => {
                if self.stage == Stage::Start || self.stage == Stage::Ended {
                    Act::Ignore
                } else {
                    self.stage = Stage::Ended;
                    Act::Fail(e)
                }
            },
        }
    }
}

/// A pooler that diverged is never recorded anew: its rows stay those of the
/// pooler that runs.
pub proof fn a_refused_pooler_is_not_recorded(a: ApplyPooler, ev: Event, b: ApplyPooler, act: Act)
    requires
        follows(a, ev, b, act),
        ev matches Event::Probed { probe, diverged } && probe is Some && diverged is Some,
    ensures
        !(act is Record),
        a.stage == Stage::Probing ==> b.stage == Stage::Ended && act is Fail,
{
}

/// The registry is written only after the container was looked at and found
/// to fit.
pub proof fn recording_follows_a_look(a: ApplyPooler, ev: Event, b: ApplyPooler, act: Act)
    requires
        follows(a, ev, b, act),
        act is Record,
    ensures
        a.stage == Stage::Probing,
        ev matches Event::Probed { probe, diverged } && (probe is None || diverged is None),
{
}

/// A run from the start: each step follows from the one before.
pub open spec fn is_run(states: Seq<ApplyPooler>, evs: Seq<Event>, acts: Seq<Act>) -> bool {
    &&& states.len() == evs.len() + 1
    &&& acts.len() == evs.len()
    &&& states[0].stage == Stage::Start
    &&& forall|i: int|
        0 <= i < evs.len() ==> follows(#[trigger] states[i], evs[i], states[i + 1], acts[i])
}

/// In the first `n` steps, what was begun at this stage succeeded.
pub open spec fn finished(states: Seq<ApplyPooler>, evs: Seq<Event>, n: int, stage: Stage) -> bool {
    exists|i: int| 0 <= i < n && (#[trigger] states[i]).stage == stage && evs[i] is Done
}

/// The clusters below this one have their lookup role.
pub open spec fn with_roles(a: ApplyPooler) -> int {
    match a.stage {
        Stage::Role(k) => k as int,
        Stage::Start => 0,
        Stage::Ended => 0,
        _ => a.clusters as int,
    }
}

/// What every run has done by its step `n`.
proof fn along_the_way(states: Seq<ApplyPooler>, evs: Seq<Event>, acts: Seq<Act>, n: int)
    requires
        is_run(states, evs, acts),
        0 <= n <= evs.len(),
    ensures
        states[n].wf(),
        states[n].clusters == states[0].clusters,
        forall|k: usize|
            k < with_roles(states[n]) ==> #[trigger] finished(states, evs, n, Stage::Role(k)),
    decreases n,
{
    if n > 0 {
        let m = n - 1;
        along_the_way(states, evs, acts, m);
        let a = states[m];
        let b = states[n];
        assert(follows(states[m], evs[m], states[m + 1], acts[m]));
        assert forall|k: usize| k < with_roles(b) implies #[trigger] finished(
            states,
            evs,
            n,
            Stage::Role(k),
        ) by {
            if k < with_roles(a) {
                assert(finished(states, evs, m, Stage::Role(k)));
                let i = choose|i: int|
                    0 <= i < m && (#[trigger] states[i]).stage == Stage::Role(k) && evs[i] is Done;
                assert(states[i].stage == Stage::Role(k));
            } else {
                assert(states[m].stage == Stage::Role(k) && evs[m] is Done);
            }
        }
    }
}

/// A pooler is recorded, and so ever started, only once every cluster it
/// fronts has a role to look passwords up with.
pub proof fn no_pooler_without_its_roles(
    states: Seq<ApplyPooler>,
    evs: Seq<Event>,
    acts: Seq<Act>,
    n: int,
    k: usize,
)
    requires
        is_run(states, evs, acts),
        0 <= n < evs.len(),
        acts[n] is Record || acts[n] is Create || acts[n] is Launch || acts[n] is Report,
        k < states[0].clusters,
    ensures
        finished(states, evs, n, Stage::Role(k)),
{
    along_the_way(states, evs, acts, n);
    assert(follows(states[n], evs[n], states[n + 1], acts[n]));
    assert(k < with_roles(states[n]));
}

/// What the application of a pooler did.
#[derive(Debug, Clone)]
pub struct PoolerReport {
    pub pooler: String,
    pub generation: i64,
    pub created: bool,
    pub container: String,
    pub host_port: u16,
    pub pools: Vec<PoolSummary>,
}

/// A pool, for showing.
#[derive(Debug, Clone, PartialEq, Eq)]
pub struct PoolSummary {
    pub name: String,
    pub cluster: String,
    pub database: String,
    pub connection_uri: String,
}

/// How a pool is reached: by its name, on the pooler's one port.
pub open spec fn pool_uri(host_port: u16, name: Seq<char>) -> Seq<char> {
    "postgresql://127.0.0.1:"@ + decimal(host_port as nat) + "/"@ + name
}

pub(crate) fn pool_uri_of(host_port: u16, name: &str) -> (r: String)
    ensures
        r@ == pool_uri(host_port, name@),
{
    let mut u = "postgresql://127.0.0.1:".to_owned();
    append_decimal(&mut u, host_port as u64);
    u.append("/");
    u.append(name);
    u
}

pub open spec fn summarises(t: PoolTarget, host_port: u16, s: PoolSummary) -> bool {
    &&& s.name@ == t.name@
    &&& s.cluster@ == t.cluster@
    &&& s.database@ == t.database@
    &&& s.connection_uri@ == pool_uri(host_port, t.name@)
}

/// Reports what the application of a pooler did.
pub fn pooler_report(
    pooler: &str,
    generation: i64,
    created: bool,
    container: &str,
    host_port: u16,
    pools: &Vec<PoolTarget>,
) -> (r: PoolerReport)
    ensures
        r.pooler@ == pooler@,
        r.generation == generation,
        r.created == created,
        r.container@ == container@,
        r.host_port == host_port,
        r.pools.len() == pools.len(),
        forall|i: int|
            0 <= i < pools.len() ==> summarises(pools@[i], host_port, #[trigger] r.pools@[i]),
{
    let mut out: Vec<PoolSummary> = Vec::new();
    let mut i: usize = 0;
    while i < pools.len()
        invariant
            i <= pools.len(),
            out.len() == i,
            forall|k: int|
                0 <= k < i ==> summarises(pools@[k], host_port, #[trigger] out@[k]),
        decreases pools.len() - i,
    {
        out.push(
            PoolSummary {
                name: pools[i].name.clone(),
                cluster: pools[i].cluster.clone(),
                database: pools[i].database.clone(),
                connection_uri: pool_uri_of(host_port, pools[i].name.as_str()),
            },
        );
        i = i + 1;
    }
    PoolerReport {
        pooler: pooler.to_owned(),
        generation,
        created,
        container: container.to_owned(),
        host_port,
        pools: out,
    }
}

// ---- the lookup role -------------------------------------------------

/// Where making sure of a lookup role stands.
#[derive(Debug, Clone, Copy, PartialEq, Eq, Structural)]
pub enum RoleStage {
    Asking,
    /// Running this statement.
    Statement(usize),
    Storing,
    Ended,
}

/// What to do next about a lookup role.
#[derive(Debug, Clone)]
pub enum RoleAct {
    Ignore,
    /// Run this statement.
    Run(usize),
    /// Store the password. It is stored last, so that a secret means a role.
    Store,
    Done,
    Fail(String),
}

/// What came of the last action.
#[derive(Debug, Clone)]
pub enum RoleEvent {
    /// The secret is there already.
    Exists,
    /// It is not, and the instance runs.
    Absent,
    /// It is not, and the instance cannot be used.
    Down(String),
    Ran { success: bool, stderr: String },
    Stored,
}

pub open spec fn role_needs_instance(cluster: Seq<char>, e: Seq<char>) -> Seq<char> {
    "cluster "@ + cluster
        + " must be running to apply a pooler to it — the lookup role is created inside the instance: "@
        + e
}

/// What follows for a lookup role.
pub open spec fn role_follows(
    cluster: Seq<char>,
    statements: usize,
    s: RoleStage,
    ev: RoleEvent,
    t: RoleStage,
    act: RoleAct,
) -> bool {
    match (s, ev) {
        (RoleStage::Asking, RoleEvent::Exists) => act is Done && t == RoleStage::Ended,
        (RoleStage::Asking, RoleEvent::Down(e)) => act matches RoleAct::Fail(m) && m@
            == role_needs_instance(cluster, e@) && t == RoleStage::Ended,
        (RoleStage::Asking, RoleEvent::Absent) => if statements > 0 {
            act == RoleAct::Run(0) && t == RoleStage::Statement(0)
        } else {
            act is Store && t == RoleStage::Storing
        },
        (RoleStage::Statement(k), RoleEvent::Ran { success, stderr }) => if !success {
            act matches RoleAct::Fail(m) && m@ == "could not create the pooler lookup role on "@
                + cluster + ": "@ + trimmed(stderr@) && t == RoleStage::Ended
        } else if k + 1 < statements {
            act == RoleAct::Run((k + 1) as usize) && t == RoleStage::Statement((k + 1) as usize)
        } else {
            act is Store && t == RoleStage::Storing
        },
        (RoleStage::Storing, RoleEvent::Stored) => act is Done && t == RoleStage::Ended,
        _ => act is Ignore && t == s,
    }
}

/// Makes sure of the role a pooler looks passwords up with.
pub fn ensure_pooler_role(cluster: &str, statements: usize, s: RoleStage, ev: &RoleEvent) -> (r: (
    RoleStage,
    RoleAct,
))
    ensures
        role_follows(cluster@, statements, s, *ev, r.0, r.1),
{
    match (s, ev) {
        (RoleStage::Asking, RoleEvent::Exists) => (RoleStage::Ended, RoleAct::Done),
        (RoleStage::Asking, RoleEvent::Down(e)) => {
            let mut m = "cluster ".to_owned();
            m.append(cluster);
            m.append(
                " must be running to apply a pooler to it — the lookup role is created inside the instance: ",
            );
            m.append(e.as_str());
            (RoleStage::Ended, RoleAct::Fail(m))
        },
        (RoleStage::Asking, RoleEvent::Absent) => if statements > 0 {
            (RoleStage::Statement(0), RoleAct::Run(0))
        } else {
            (RoleStage::Storing, RoleAct::Store)
        },
        (RoleStage::Statement(k), RoleEvent::Ran { success, stderr }) => if !*success {
            let mut m = "could not create the pooler lookup role on ".to_owned();
            m.append(cluster);
            m.append(": ");
            m.append(trim(stderr.as_str()));
            (RoleStage::Ended, RoleAct::Fail(m))
        } else if k < statements && k + 1 < statements {
            (RoleStage::Statement(k + 1), RoleAct::Run(k + 1))
        } else {
            (RoleStage::Storing, RoleAct::Store)
        },
        (RoleStage::Storing, RoleEvent::Stored) => (RoleStage::Ended, RoleAct::Done),
        _ => (s, RoleAct::Ignore),
    }
}

/// A lookup role's password is stored only once the role was made: every
/// statement before it succeeded.
pub proof fn a_stored_password_has_its_role(
    cluster: Seq<char>,
    statements: usize,
    s: RoleStage,
    ev: RoleEvent,
    t: RoleStage,
    act: RoleAct,
)
    requires
        role_follows(cluster, statements, s, ev, t, act),
        act is Store,
        statements > 0,
    ensures
        s matches RoleStage::Statement(k) && k + 1 >= statements,
        ev matches RoleEvent::Ran { success, .. } && success,
{
}

// ---- the agent in a pooler -------------------------------------------

/// The call that tells a pooler's agent something.
pub fn pooler_control(verb: &str, args: &Vec<String>) -> (r: Vec<String>)
    ensures
        texts(r@) == seq![AGENT_BIN@, "pooler"@, verb@] + texts(args@),
{
    let mut out: Vec<String> = Vec::new();
    push_text(&mut out, AGENT_BIN.to_owned());
    push_text(&mut out, "pooler".to_owned());
    push_text(&mut out, verb.to_owned());
    let ghost head = texts(out@);
    assert(head =~= seq![AGENT_BIN@, "pooler"@, verb@]);
    let mut rest = clone_list(args);
    out.append(&mut rest);
    assert(texts(out@) =~= head + texts(args@));
    out
}

/// What to say when a pooler's agent refused.
pub fn pooler_refused(pooler: &str, stdout: &str, stderr: &str) -> (r: String)
    ensures
        r@ == "pooler "@ + pooler@ + ": "@ + trimmed(stdout@) + " "@ + trimmed(stderr@),
{
    let mut s = "pooler ".to_owned();
    s.append(pooler);
    s.append(": ");
    s.append(trim(stdout));
    s.append(" ");
    s.append(trim(stderr));
    s
}

// ---- holding ---------------------------------------------------------

/// Poolers being held, one after the other.
#[derive(Debug, Clone)]
pub struct PoolerHold {
    pub cluster: String,
    pub poolers: Vec<String>,
    /// How many of them are held, from the first.
    pub held: usize,
}

/// What to do next about a hold.
#[derive(Debug, Clone)]
pub enum HoldAct {
    /// Tell this pooler to hold the cluster's clients.
    Pause(String),
    /// All are held; this is logged.
    Held(String),
    /// Let these go again, and fail.
    Abandon { release: Vec<String>, error: String },
}

pub open spec fn hold_failed(pooler: Seq<char>, cluster: Seq<char>, e: Seq<char>) -> Seq<char> {
    "could not hold pooler "@ + pooler + " for "@ + cluster
        + ", so the switchover would drop connections it promised to keep: "@ + e
}

impl PoolerHold {
    pub open spec fn wf(&self) -> bool {
        self.held <= self.poolers.len()
    }

    /// A hold of which nothing is held.
    pub fn new(cluster: &str, poolers: Vec<String>) -> (r: Self)
        ensures
            r.wf(),
            r.cluster@ == cluster@,
            r.poolers == poolers,
            r.held == 0,
    {
        PoolerHold { cluster: cluster.to_owned(), poolers, held: 0 }
    }

    /// How many poolers are held.
    pub fn len(&self) -> (r: usize)
        ensures
            r == self.held,
    {
        self.held
    }

    /// Whether no pooler is held.
    pub fn is_empty(&self) -> (r: bool)
        ensures
            r == (self.held == 0),
    {
        self.held == 0
    }

    /// The poolers that are held.
    pub open spec fn names_held(&self) -> Seq<Seq<char>> {
        texts(self.poolers@).take(self.held as int)
    }

    /// The poolers that are held.
    pub fn held_names(&self) -> (r: Vec<String>)
        requires
            self.wf(),
        ensures
            texts(r@) == self.names_held(),
    {
        let mut out: Vec<String> = Vec::new();
        let mut i: usize = 0;
        assert(texts(out@) =~= texts(self.poolers@).take(0));
        while i < self.held
            invariant
                i <= self.held <= self.poolers.len(),
                texts(out@) == texts(self.poolers@).take(i as int),
            decreases self.held - i,
        {
            push_text(&mut out, self.poolers[i].clone());
            assert(texts(out@) =~= texts(self.poolers@).take(i + 1));
            i = i + 1;
        }
        out
    }

    /// The next pooler to hold, or that all are.
    pub fn acquire(&self) -> (r: HoldAct)
        requires
            self.wf(),
        ensures
            if self.held < self.poolers.len() {
                r matches HoldAct::Pause(n) && n@ == texts(self.poolers@)[self.held as int]
            } else {
                r matches HoldAct::Held(m) && m@ == "held "@ + decimal(self.held as nat)
                    + " pooler(s)"@
            },
    {
        if self.held < self.poolers.len() {
            HoldAct::Pause(self.poolers[self.held].clone())
        } else {
            let mut m = "held ".to_owned();
            append_decimal(&mut m, self.held as u64);
            m.append(" pooler(s)");
            HoldAct::Held(m)
        }
    }

    /// Takes in that the next pooler holds.
    pub fn paused(&mut self)
        requires
            old(self).wf(),
            old(self).held < old(self).poolers.len(),
        ensures
            final(self).wf(),
            final(self).cluster == old(self).cluster,
            final(self).poolers == old(self).poolers,
            final(self).held == old(self).held + 1,
    {
        self.held = self.held + 1;
    }

    /// Takes in that the next pooler would not hold: those that do are let go
    /// again, since a hold of some would drop the others' clients.
    pub fn refused(&mut self, error: &str) -> (r: HoldAct)
        requires
            old(self).wf(),
            old(self).held < old(self).poolers.len(),
        ensures
            final(self).wf(),
            final(self).held == 0,
            final(self).cluster == old(self).cluster,
            final(self).poolers == old(self).poolers,
            r matches HoldAct::Abandon { release, error: m } && texts(release@) == old(
                self).names_held() && m@ == hold_failed(
                texts(old(self).poolers@)[old(self).held as int],
                old(self).cluster@,
                error@,
            ),
    {
        let release = self.held_names();
        let mut m = "could not hold pooler ".to_owned();
        m.append(self.poolers[self.held].as_str());
        m.append(" for ");
        m.append(self.cluster.as_str());
        m.append(", so the switchover would drop connections it promised to keep: ");
        m.append(error);
        assert(self.poolers@[self.held as int]@ == texts(self.poolers@)[self.held as int]);
        self.held = 0;
        HoldAct::Abandon { release, error: m }
    }

    /// Lets go of everything: what to tell each held pooler, in order. After
    /// a container was replaced each pooler first reconnects, so that no
    /// client is handed a connection to the old server.
    pub fn release(&mut self, recreated: bool) -> (r: Vec<(String, String)>)
        requires
            old(self).wf(),
        ensures
            final(self).wf(),
            final(self).held == 0,
            final(self).cluster == old(self).cluster,
            final(self).poolers == old(self).poolers,
            pair_texts(r@) == release_calls(old(self).names_held(), recreated),
    {
        let names = self.held_names();
        let ghost all = texts(names@);
        let mut out: Vec<(String, String)> = Vec::new();
        let mut i: usize = 0;
        assert(pair_texts(out@) =~= release_calls(all.take(0), recreated));
        while i < names.len()
            invariant
                i <= names.len(),
                all == texts(names@),
                pair_texts(out@) == release_calls(all.take(i as int), recreated),
            decreases names.len() - i,
        {
            assert(all.take(i + 1).drop_last() =~= all.take(i as int));
            assert(all.take(i + 1).last() == names@[i as int]@);
            if recreated {
                crate::text::push_pair(&mut out, names[i].as_str(), "reconnect");
            }
            crate::text::push_pair(&mut out, names[i].as_str(), "resume");
            i = i + 1;
        }
        assert(all.take(i as int) =~= all);
        self.held = 0;
        out
    }
}

/// What to tell each held pooler, in order.
pub open spec fn release_calls(names: Seq<Seq<char>>, recreated: bool) -> Seq<
    (Seq<char>, Seq<char>),
>
    decreases names.len(),
{
    if names.len() == 0 {
        Seq::empty()
    } else {
        let before = release_calls(names.drop_last(), recreated);
        let before = if recreated {
            before.push((names.last(), "reconnect"@))
        } else {
            before
        };
        before.push((names.last(), "resume"@))
    }
}

/// Every pooler that was held is told to let go.
pub proof fn every_hold_is_released(names: Seq<Seq<char>>, recreated: bool, i: int)
    requires
        0 <= i < names.len(),
    ensures
        release_calls(names, recreated).contains((names[i], "resume"@)),
    decreases names.len(),
{
    let all = release_calls(names, recreated);
    if i == names.len() - 1 {
        assert(all.last() == (names[i], "resume"@));
    } else {
        every_hold_is_released(names.drop_last(), recreated, i);
        let before = release_calls(names.drop_last(), recreated);
        let k = choose|k: int| 0 <= k < before.len() && before[k] == (names[i], "resume"@);
        assert(all[k] == (names[i], "resume"@));
    }
}

/// What is logged of a replaced container.
pub fn recreated_note(millis: u64, held: usize) -> (r: String)
    ensures
        r@ == "recreated in "@ + decimal(millis as nat) + "ms; "@ + decimal(held as nat)
            + " pooler(s) held clients throughout"@,
{
    let mut s = "recreated in ".to_owned();
    append_decimal(&mut s, millis);
    s.append("ms; ");
    append_decimal(&mut s, held as u64);
    s.append(" pooler(s) held clients throughout");
    s
}

/// What is logged before a container is replaced that no pooler is in front
/// of.
pub fn unheld_note(held: usize) -> (r: Option<&'static str>)
    ensures
        crate::text::opt_str(r) == (if held == 0 {
            Some("recreating with no pooler in front — open connections will drop"@)
        } else {
            None
        }),
{
    if held == 0 {
        Some("recreating with no pooler in front — open connections will drop")
    } else {
        None
    }
}

// ---- what holds of every pooler --------------------------------------

/// Two pools agree in everything.
pub open spec fn pool_agrees(a: PoolTarget, b: PoolTarget) -> bool {
    &&& a.name@ == b.name@
    &&& a.cluster@ == b.cluster@
    &&& a.server_host@ == b.server_host@
    &&& a.server_port == b.server_port
    &&& a.database@ == b.database@
    &&& a.lookup_role@ == b.lookup_role@
    &&& a.lookup_database@ == b.lookup_database@
    &&& a.lookup_secret_index == b.lookup_secret_index
}

/// A running pooler agrees with what is wanted, field by field.
pub open spec fn pooler_agrees(a: PoolerSpec, b: PoolerSpec) -> bool {
    &&& a.pooler@ == b.pooler@
    &&& a.port == b.port
    &&& a.pool_size == b.pool_size
    &&& a.pool_mode@ == b.pool_mode@
    &&& a.max_hold.millis == b.max_hold.millis
    &&& a.parameters.len() == b.parameters.len()
    &&& forall|i: int|
        0 <= i < a.parameters.len() ==> (#[trigger] a.parameters@[i]).0@ == b.parameters@[i].0@
            && a.parameters@[i].1@ == b.parameters@[i].1@
    &&& a.pools.len() == b.pools.len()
    &&& forall|i: int| 0 <= i < a.pools.len() ==> pool_agrees(#[trigger] a.pools@[i], b.pools@[i])
}

/// A running pooler is kept exactly where it was told what its manifest says,
/// in every field of it and of every pool. Whatever differs, it is refused.
pub proof fn only_a_pooler_that_fits_is_kept(
    pooler: Seq<char>,
    desired: PoolerSpec,
    running: PoolerSpec,
)
    ensures
        pooler_divergence(pooler, desired, PoolerTold::Spec(running)) is None <==> pooler_agrees(
            running,
            desired,
        ),
        pooler_divergence(pooler, desired, PoolerTold::Spec(running)) matches Some(e) ==> (
        e matches ErrorView::PoolerDiverged { pooler: n, .. } && n == pooler),
{
    let x = pair_texts(running.parameters@);
    let y = pair_texts(desired.parameters@);
    assert(x.len() == running.parameters.len() && y.len() == desired.parameters.len());
    assert forall|i: int| 0 <= i < x.len() implies #[trigger] x[i] == (
        running.parameters@[i].0@,
        running.parameters@[i].1@,
    ) by {}
    assert forall|i: int| 0 <= i < y.len() implies #[trigger] y[i] == (
        desired.parameters@[i].0@,
        desired.parameters@[i].1@,
    ) by {}
    if told_the_same(running, desired) {
        assert forall|i: int| 0 <= i < running.pools.len() implies pool_agrees(
            #[trigger] running.pools@[i],
            desired.pools@[i],
        ) by {
            assert(same_target_texts(running.pools@[i], desired.pools@[i]));
        }
        assert forall|i: int| 0 <= i < running.parameters.len() implies (
        #[trigger] running.parameters@[i]).0@ == desired.parameters@[i].0@
            && running.parameters@[i].1@ == desired.parameters@[i].1@ by {
            assert(x[i] == y[i]);
        }
    }
    if pooler_agrees(running, desired) {
        assert forall|i: int| 0 <= i < x.len() implies x[i] == y[i] by {
            assert(running.parameters@[i].0@ == desired.parameters@[i].0@);
        }
        assert(x =~= y);
        assert forall|i: int| 0 <= i < running.pools.len() implies same_target_texts(
            #[trigger] running.pools@[i],
            desired.pools@[i],
        ) by {
            assert(pool_agrees(running.pools@[i], desired.pools@[i]));
        }
    }
}

/// A pooler that does not say what it was told, or says it unreadably, is
/// never kept.
pub proof fn a_pooler_must_say_what_it_was_told(
    pooler: Seq<char>,
    desired: PoolerSpec,
    why: String,
)
    ensures
        pooler_divergence(pooler, desired, PoolerTold::Nothing) matches Some(
            ErrorView::PoolerDiverged { pooler: n, .. },
        ) && n == pooler,
        pooler_divergence(pooler, desired, PoolerTold::Unreadable(why)) == Some(
            ErrorView::Spec(why@),
        ),
{
}

proof fn lines_for_adds(
    out: Seq<Seq<char>>,
    head: Seq<char>,
    v: Seq<Seq<char>>,
    others: Seq<Seq<char>>,
)
    ensures
        forall|l: Seq<char>| #[trigger]
            out.contains(l) ==> lines_for(out, head, v, others).contains(l),
        forall|i: int|
            0 <= i < v.len() && !others.contains(#[trigger] v[i]) ==> lines_for(
                out,
                head,
                v,
                others,
            ).contains(head + v[i]),
        lines_for(out, head, v, others).len() >= out.len(),
    decreases v.len(),
{
    let r = lines_for(out, head, v, others);
    if v.len() > 0 {
        let w = v.drop_last();
        lines_for_adds(out, head, w, others);
        let before = lines_for(out, head, w, others);
        assert forall|l: Seq<char>| #[trigger] before.contains(l) implies r.contains(l) by {
            let k = choose|k: int| 0 <= k < before.len() && before[k] == l;
            assert(r[k] == l);
        }
        assert forall|i: int| 0 <= i < v.len() && !others.contains(
            #[trigger] v[i],
        ) implies r.contains(head + v[i]) by {
            if i < v.len() - 1 {
                assert(w[i] == v[i]);
                assert(before.contains(head + w[i]));
            } else {
                assert(r[r.len() - 1] == head + v[i]);
            }
        }
        assert forall|l: Seq<char>| #[trigger] out.contains(l) implies r.contains(l) by {
            assert(before.contains(l));
        }
    }
}

proof fn pushing_keeps(o: Seq<Seq<char>>, x: Seq<char>)
    ensures
        forall|l: Seq<char>| #[trigger] o.contains(l) ==> o.push(x).contains(l),
        o.push(x).contains(x),
{
    assert forall|l: Seq<char>| #[trigger] o.contains(l) implies o.push(x).contains(l) by {
        let k = choose|k: int| 0 <= k < o.len() && o[k] == l;
        assert(o.push(x)[k] == l);
    }
    assert(o.push(x)[o.len() as int] == x);
}

proof fn inserting_adds(sorted: Seq<Seq<char>>, x: Seq<char>)
    ensures
        forall|l: Seq<char>| #[trigger]
            insert_text(sorted, x).contains(l) <==> sorted.contains(l) || l == x,
        insert_text(sorted, x).len() == sorted.len() + 1,
    decreases sorted.len(),
{
    let r = insert_text(sorted, x);
    if sorted.len() == 0 || text_le(sorted.last(), x) {
        pushing_keeps(sorted, x);
        assert forall|l: Seq<char>| #[trigger] r.contains(l) implies sorted.contains(l) || l
            == x by {
            let k = choose|k: int| 0 <= k < r.len() && r[k] == l;
            if k < sorted.len() {
                assert(sorted[k] == l);
            }
        }
    } else {
        let rest = sorted.drop_last();
        let q = insert_text(rest, x);
        inserting_adds(rest, x);
        pushing_keeps(q, sorted.last());
        assert forall|l: Seq<char>| #[trigger] r.contains(l) implies sorted.contains(l) || l
            == x by {
            let k = choose|k: int| 0 <= k < r.len() && r[k] == l;
            if k < q.len() {
                assert(q[k] == l);
                assert(q.contains(l));
                if l != x {
                    let j = choose|j: int| 0 <= j < rest.len() && rest[j] == l;
                    assert(sorted[j] == l);
                }
            } else {
                assert(sorted[sorted.len() - 1] == l);
            }
        }
        assert forall|l: Seq<char>| sorted.contains(l) || l == x implies #[trigger] r.contains(
            l,
        ) by {
            if l != x {
                let k = choose|k: int| 0 <= k < sorted.len() && sorted[k] == l;
                if k < rest.len() {
                    assert(rest[k] == l);
                    assert(q.contains(l));
                }
            } else {
                assert(q.contains(x));
            }
        }
    }
}

/// The pools are told as `name -> cluster/database`: each of them, and no
/// others.
pub proof fn every_pool_has_its_route(v: Seq<PoolTarget>)
    ensures
        forall|i: int|
            0 <= i < v.len() ==> routes(v).contains(
                (#[trigger] v[i]).name@ + " -> "@ + v[i].cluster@ + "/"@ + v[i].database@,
            ),
        forall|l: Seq<char>| #[trigger]
            routes(v).contains(l) ==> exists|i: int|
                0 <= i < v.len() && l == (#[trigger] v[i]).name@ + " -> "@ + v[i].cluster@ + "/"@
                    + v[i].database@,
        routes(v).len() == v.len(),
    decreases v.len(),
{
    if v.len() > 0 {
        let w = v.drop_last();
        every_pool_has_its_route(w);
        inserting_adds(routes(w), route(v.last()));
        assert forall|i: int| 0 <= i < v.len() implies routes(v).contains(
            (#[trigger] v[i]).name@ + " -> "@ + v[i].cluster@ + "/"@ + v[i].database@,
        ) by {
            if i < v.len() - 1 {
                assert(w[i] == v[i]);
            } else {
                assert(route(v.last()) == v[i].name@ + " -> "@ + v[i].cluster@ + "/"@
                    + v[i].database@);
            }
        }
        assert forall|l: Seq<char>| #[trigger] routes(v).contains(l) implies exists|i: int|
            0 <= i < v.len() && l == (#[trigger] v[i]).name@ + " -> "@ + v[i].cluster@ + "/"@
                + v[i].database@ by {
            if routes(w).contains(l) {
                let i = choose|i: int|
                    0 <= i < w.len() && l == (#[trigger] w[i]).name@ + " -> "@ + w[i].cluster@
                        + "/"@ + w[i].database@;
                assert(v[i] == w[i]);
            } else {
                assert(l == v[v.len() - 1].name@ + " -> "@ + v[v.len() - 1].cluster@ + "/"@
                    + v[v.len() - 1].database@);
            }
        }
    }
}

/// A refusal names what changed: the mode, the size, the hold and the
/// parameters with what they were and what is wanted, and every pool that was
/// removed or added.
pub proof fn a_pooler_refusal_names_what_changed(a: PoolerSpec, b: PoolerSpec)
    ensures
        ({
            let o = pooler_lines(a, b);
            &&& o.len() > 0
            &&& a.pool_mode@ != b.pool_mode@ ==> o.contains(
                "  poolMode: "@ + a.pool_mode@ + " -> "@ + b.pool_mode@,
            )
            &&& a.pool_size != b.pool_size ==> o.contains(
                "  poolSize: "@ + decimal(a.pool_size as nat) + " -> "@ + decimal(
                    b.pool_size as nat,
                ),
            )
            &&& a.max_hold.millis != b.max_hold.millis ==> o.contains(
                "  maxHold: "@ + a.max_hold.text@ + " -> "@ + b.max_hold.text@,
            )
            &&& pair_texts(a.parameters@) != pair_texts(b.parameters@) ==> o.contains(
                "  parameters: "@ + debug_pairs(pair_texts(a.parameters@)) + " -> "@ + debug_pairs(
                    pair_texts(b.parameters@),
                ),
            )
            &&& forall|i: int|
                0 <= i < routes(a.pools@).len() && !routes(b.pools@).contains(
                    #[trigger] routes(a.pools@)[i],
                ) ==> o.contains("  pool removed: "@ + routes(a.pools@)[i])
            &&& forall|i: int|
                0 <= i < routes(b.pools@).len() && !routes(a.pools@).contains(
                    #[trigger] routes(b.pools@)[i],
                ) ==> o.contains("  pool added:   "@ + routes(b.pools@)[i])
        }),
{
    let ra = routes(a.pools@);
    let rb = routes(b.pools@);
    let e = Seq::<Seq<char>>::empty();
    let l1 = "  poolMode: "@ + a.pool_mode@ + " -> "@ + b.pool_mode@;
    let o1 = if a.pool_mode@ == b.pool_mode@ {
        e
    } else {
        e.push(l1)
    };
    pushing_keeps(e, l1);
    let l2 = "  poolSize: "@ + decimal(a.pool_size as nat) + " -> "@ + decimal(b.pool_size as nat);
    let o2 = if a.pool_size == b.pool_size {
        o1
    } else {
        o1.push(l2)
    };
    pushing_keeps(o1, l2);
    let l3 = "  maxHold: "@ + a.max_hold.text@ + " -> "@ + b.max_hold.text@;
    let o3 = if a.max_hold.millis == b.max_hold.millis {
        o2
    } else {
        o2.push(l3)
    };
    pushing_keeps(o2, l3);
    let l4 = "  parameters: "@ + debug_pairs(pair_texts(a.parameters@)) + " -> "@ + debug_pairs(
        pair_texts(b.parameters@),
    );
    let o4 = if pair_texts(a.parameters@) == pair_texts(b.parameters@) {
        o3
    } else {
        o3.push(l4)
    };
    pushing_keeps(o3, l4);
    let o5 = lines_for(o4, "  pool removed: "@, ra, rb);
    lines_for_adds(o4, "  pool removed: "@, ra, rb);
    let o6 = lines_for(o5, "  pool added:   "@, rb, ra);
    lines_for_adds(o5, "  pool added:   "@, rb, ra);
    let o = pooler_lines(a, b);
    if o6.len() > 0 {
        assert(o == o6);
    } else {
        assert(forall|l: Seq<char>| !o6.contains(l));
    }
    assert forall|i: int| 0 <= i < ra.len() && !rb.contains(#[trigger] ra[i]) implies o.contains(
        "  pool removed: "@ + ra[i],
    ) by {
        assert(o5.contains("  pool removed: "@ + ra[i]));
        assert(o6.contains("  pool removed: "@ + ra[i]));
    }
}

/// Every line of the difference stands in the refusal.
pub proof fn a_pooler_refusal_says_how_it_differs(
    pooler: Seq<char>,
    desired: PoolerSpec,
    running: PoolerSpec,
    line: Seq<char>,
)
    requires
        pooler_divergence(pooler, desired, PoolerTold::Spec(running)) is Some,
        pooler_lines(running, desired).contains(line),
    ensures
        pooler_divergence(pooler, desired, PoolerTold::Spec(running)) matches Some(
            ErrorView::PoolerDiverged { detail, .. },
        ) && occurs(detail, line),
{
    let o = pooler_lines(running, desired);
    let k = choose|k: int| 0 <= k < o.len() && o[k] == line;
    every_part_is_there(o, "\n"@, k);
}

/// A pool leads to the database it stands for, through the first instance of
/// its own cluster, and looks passwords up there, with that cluster's secret.
pub proof fn a_pool_leads_to_its_cluster(
    r: ResolvedPool,
    host: Seq<char>,
    role: Seq<char>,
    t: PoolTarget,
)
    requires
        targets(r, host, role, t),
    ensures
        t.name@ == r.name@,
        t.cluster@ == r.cluster@,
        t.database@ == r.database@,
        t.server_host@ == host,
        t.server_port == 5432,
        t.lookup_role@ == role,
        t.lookup_database@ == "postgres"@,
        t.lookup_secret_index == r.cluster_index,
{
}

/// How many pools a cluster asks for.
pub open spec fn asked(input: ClusterPools) -> int {
    if input.declared.len() == 0 {
        1
    } else {
        input.declared.len() as int
    }
}

/// The database and the name of a cluster's pool number `k`: of a declared
/// one what is written, with the database's name where no other is; of a
/// cluster with none its application's database, under its own name.
pub open spec fn asks(input: ClusterPools, k: int, database: Seq<char>, name: Seq<char>) -> bool {
    if input.declared.len() == 0 {
        k == 0 && input.default_database is Some && database == input.default_database->0@ && name
            == database
    } else {
        &&& 0 <= k < input.declared.len()
        &&& database == input.declared@[k].database@
        &&& match input.declared@[k].as_name {
            Some(n) => name == n@,
            None => name == database,
        }
    }
}

proof fn pools_are_as_asked(input: ClusterPools)
    ensures
        pools_of(input) matches Ok(p) ==> p.len() == asked(input) && forall|k: int|
            0 <= k < p.len() ==> asks(input, k, (#[trigger] p[k]).0, p[k].1),
        pools_of(input) is Err <==> input.declared.len() == 0 && input.default_database is None,
{
}

/// A claim stands for pool number `k` of a cluster.
pub open spec fn stands_for(c: Claim, inputs: Seq<ClusterPools>, k: int) -> bool {
    &&& c.index < inputs.len()
    &&& c.cluster == inputs[c.index as int].cluster@
    &&& asks(inputs[c.index as int], k, c.database, c.name)
    &&& c.defaulted == (inputs[c.index as int].declared.len() == 0)
}

/// A claim stands for one of the pools that were asked for.
pub open spec fn stands_for_some(c: Claim, inputs: Seq<ClusterPools>) -> bool {
    exists|k: int| stands_for(c, inputs, k)
}

/// Somebody claims pool number `k` of cluster number `i`.
pub open spec fn is_claimed(out: Seq<Claim>, inputs: Seq<ClusterPools>, i: int, k: int) -> bool {
    exists|q: int| 0 <= q < out.len() && (#[trigger] out[q]).index == i && stands_for(out[q], inputs, k)
}

/// Pool `k` of cluster `i` and pool `l` of cluster `j` have one name.
pub open spec fn names_meet(inputs: Seq<ClusterPools>, i: int, k: int, j: int, l: int) -> bool {
    &&& 0 <= i < inputs.len()
    &&& 0 <= j < inputs.len()
    &&& i < j || (i == j && k < l)
    &&& exists|a: Seq<char>, b: Seq<char>, name: Seq<char>|
        #![trigger asks(inputs[i], k, a, name), asks(inputs[j], l, b, name)]
        asks(inputs[i], k, a, name) && asks(inputs[j], l, b, name)
}

/// Two of the pools asked for have one name.
pub open spec fn some_names_meet(inputs: Seq<ClusterPools>) -> bool {
    exists|i: int, k: int, j: int, l: int| #[trigger] names_meet(inputs, i, k, j, l)
}

/// A claim comes from an earlier cluster, or from an earlier pool of this one.
pub open spec fn comes_before(
    c: Claim,
    inputs: Seq<ClusterPools>,
    index: int,
    upto: int,
) -> bool {
    ||| c.index < index && exists|k: int| #[trigger] stands_for(c, inputs, k)
    ||| c.index == index && exists|k: int| k < upto && #[trigger] stands_for(c, inputs, k)
}

proof fn claimed_is_there(out: Seq<Claim>, name: Seq<char>) -> (q: int)
    requires
        claimed(out, name) is Some,
    ensures
        0 <= q < out.len(),
        out[q] == claimed(out, name)->0,
        out[q].name == name,
    decreases out.len(),
{
    if out.last().name == name {
        out.len() - 1
    } else {
        claimed_is_there(out.drop_last(), name)
    }
}

proof fn adding_pools(
    out: Seq<Claim>,
    inputs: Seq<ClusterPools>,
    index: nat,
    pools: Seq<(Seq<char>, Seq<char>)>,
)
    requires
        index < inputs.len(),
        forall|q: int|
            0 <= q < out.len() ==> comes_before(#[trigger] out[q], inputs, index as int, 0),
        forall|k: int|
            0 <= k < pools.len() ==> asks(
                inputs[index as int],
                k,
                (#[trigger] pools[k]).0,
                pools[k].1,
            ),
    ensures
        with_pools(out, inputs[index as int], index, pools) matches Ok(r) ==> {
            &&& r.len() == out.len() + pools.len()
            &&& forall|q: int| 0 <= q < out.len() ==> r[q] == out[q]
            &&& forall|k: int|
                0 <= k < pools.len() ==> (#[trigger] r[out.len() + k]).index == index
                    && stands_for(r[out.len() + k], inputs, k)
            &&& forall|q: int|
                0 <= q < r.len() ==> comes_before(
                    #[trigger] r[q],
                    inputs,
                    index as int,
                    pools.len() as int,
                )
        },
        with_pools(out, inputs[index as int], index, pools) is Err ==> some_names_meet(inputs),
    decreases pools.len(),
{
    let input = inputs[index as int];
    if pools.len() > 0 {
        let ps = pools.drop_last();
        assert forall|k: int| 0 <= k < ps.len() implies asks(
            input,
            k,
            (#[trigger] ps[k]).0,
            ps[k].1,
        ) by {
            assert(ps[k] == pools[k]);
        }
        adding_pools(out, inputs, index, ps);
        let n = ps.len() as int;
        assert(pools[n] == pools.last());
        assert(asks(input, n, pools[n].0, pools[n].1));
        if let Ok(before) = with_pools(out, input, index, ps) {
            let c = Claim {
                cluster: input.cluster@,
                index,
                database: pools.last().0,
                name: pools.last().1,
                defaulted: input.declared@.len() == 0,
            };
            assert(stands_for(c, inputs, n));
            if claimed(before, c.name) is Some {
                let q = claimed_is_there(before, c.name);
                assert(comes_before(before[q], inputs, index as int, n));
                let i = before[q].index as int;
                let k = if before[q].index < index {
                    choose|k: int| #[trigger] stands_for(before[q], inputs, k)
                } else {
                    choose|k: int| k < n && #[trigger] stands_for(before[q], inputs, k)
                };
                assert(stands_for(before[q], inputs, k));
                assert(asks(inputs[i], k, before[q].database, c.name));
                assert(asks(inputs[index as int], n, c.database, c.name));
                assert(names_meet(inputs, i, k, index as int, n));
            } else {
                let r = before.push(c);
                assert forall|k: int| 0 <= k < pools.len() implies (#[trigger] r[out.len() + k]).index
                    == index && stands_for(r[out.len() + k], inputs, k) by {
                    if k < n {
                        assert(r[out.len() + k] == before[out.len() + k]);
                    }
                }
                assert forall|q: int| 0 <= q < r.len() implies comes_before(
                    #[trigger] r[q],
                    inputs,
                    index as int,
                    pools.len() as int,
                ) by {
                    if q < before.len() {
                        assert(r[q] == before[q]);
                        assert(comes_before(before[q], inputs, index as int, n));
                        if before[q].index == index {
                            let k = choose|k: int| k < n && #[trigger] stands_for(before[q], inputs, k);
                            assert(k < pools.len() && stands_for(r[q], inputs, k));
                        }
                    } else {
                        assert(n < pools.len() && stands_for(r[q], inputs, n));
                    }
                }
            }
        }
    } else {
        assert forall|q: int| 0 <= q < out.len() implies comes_before(
            #[trigger] out[q],
            inputs,
            index as int,
            pools.len() as int,
        ) by {}
    }
}

proof fn resolving(inputs: Seq<ClusterPools>, n: int)
    requires
        0 <= n <= inputs.len(),
    ensures
        resolution(inputs.take(n)) matches Ok(r) ==> {
            &&& forall|i: int, k: int|
                0 <= i < n && 0 <= k < asked(inputs[i]) ==> #[trigger] is_claimed(r, inputs, i, k)
            &&& forall|q: int| 0 <= q < r.len() ==> comes_before(#[trigger] r[q], inputs, n, 0)
        },
        resolution(inputs.take(n)) is Err ==> some_names_meet(inputs) || exists|i: int|
            0 <= i < inputs.len() && (#[trigger] inputs[i]).declared.len() == 0
                && inputs[i].default_database is None,
    decreases n,
{
    let upto = inputs.take(n);
    if n > 0 {
        let m = n - 1;
        resolving(inputs, m);
        assert(upto.drop_last() =~= inputs.take(m));
        assert(upto.last() == inputs[m]);
        pools_are_as_asked(inputs[m]);
        if let Ok(o) = resolution(inputs.take(m)) {
            if let Ok(p) = pools_of(inputs[m]) {
                assert forall|q: int| 0 <= q < o.len() implies comes_before(
                    #[trigger] o[q],
                    inputs,
                    m,
                    0,
                ) by {}
                adding_pools(o, inputs, m as nat, p);
                if let Ok(r) = resolution(upto) {
                    assert forall|i: int, k: int| 0 <= i < n && 0 <= k < asked(
                        inputs[i],
                    ) implies #[trigger] is_claimed(r, inputs, i, k) by {
                        if i < m {
                            assert(is_claimed(o, inputs, i, k));
                            let q = choose|q: int|
                                0 <= q < o.len() && (#[trigger] o[q]).index == i && stands_for(
                                    o[q],
                                    inputs,
                                    k,
                                );
                            assert(r[q] == o[q]);
                        } else {
                            let q = o.len() + k;
                            assert(r[q].index == i && stands_for(r[q], inputs, k));
                        }
                    }
                    assert forall|q: int| 0 <= q < r.len() implies comes_before(
                        #[trigger] r[q],
                        inputs,
                        n,
                        0,
                    ) by {
                        assert(comes_before(r[q], inputs, m, p.len() as int));
                        let k = choose|k: int| #[trigger] stands_for(r[q], inputs, k);
                        assert(stands_for(r[q], inputs, k));
                    }
                }
            } else {
                assert(inputs[m].declared.len() == 0 && inputs[m].default_database is None);
            }
        }
    }
}

/// Every pool that a manifest asks for is there, under the name and for the
/// database it asks for, and there are no others; and a manifest is refused
/// only where two of its pools have one name, or a cluster has none to offer.
pub proof fn a_pooler_has_the_pools_it_was_asked_for(inputs: Seq<ClusterPools>)
    ensures
        resolution(inputs) matches Ok(r) ==> {
            &&& forall|i: int, k: int|
                0 <= i < inputs.len() && 0 <= k < asked(inputs[i]) ==> #[trigger] is_claimed(
                    r,
                    inputs,
                    i,
                    k,
                )
            &&& forall|q: int|
                0 <= q < r.len() ==> stands_for_some(#[trigger] r[q], inputs)
        },
        resolution(inputs) is Err ==> some_names_meet(inputs) || exists|i: int|
            0 <= i < inputs.len() && (#[trigger] inputs[i]).declared.len() == 0
                && inputs[i].default_database is None,
{
    assert(inputs.take(inputs.len() as int) =~= inputs);
    resolving(inputs, inputs.len() as int);
    if let Ok(r) = resolution(inputs) {
        assert forall|q: int| 0 <= q < r.len() implies stands_for_some(
            #[trigger] r[q],
            inputs,
        ) by {
            assert(comes_before(r[q], inputs, inputs.len() as int, 0));
        }
    }
}

/// Where no cluster is unknown none is refused, and the first that is not
/// known is the one that is named.
pub proof fn the_first_unknown_cluster_is_named(v: Seq<Fronted>, i: int)
    requires
        0 <= i <= v.len(),
        forall|k: int| 0 <= k < i ==> (#[trigger] v[k]).known,
        i < v.len() ==> !v[i].known,
    ensures
        first_unknown(v) == (if i < v.len() {
            Some(v[i].cluster@)
        } else {
            None
        }),
    decreases v.len(),
{
    if v.len() > 0 && i > 0 {
        let rest = v.subrange(1, v.len() as int);
        assert(v[0].known);
        assert forall|k: int| 0 <= k < i - 1 implies (#[trigger] rest[k]).known by {
            assert(rest[k] == v[k + 1]);
        }
        if i < v.len() {
            assert(rest[i - 1] == v[i]);
        }
        the_first_unknown_cluster_is_named(rest, i - 1);
    }
}

/// The clusters behind some pools are those of the pools, each once.
pub proof fn every_cluster_is_listed_once(v: Seq<PoolTarget>)
    ensures
        forall|i: int|
            0 <= i < v.len() ==> clusters_in(v).contains((#[trigger] v[i]).cluster@),
        forall|i: int, j: int|
            0 <= i < j < clusters_in(v).len() ==> clusters_in(v)[i] != clusters_in(v)[j],
        forall|c: Seq<char>| #[trigger]
            clusters_in(v).contains(c) ==> exists|i: int|
                0 <= i < v.len() && (#[trigger] v[i]).cluster@ == c,
    decreases v.len(),
{
    if v.len() > 0 {
        let w = v.drop_last();
        every_cluster_is_listed_once(w);
        let b = clusters_in(w);
        let c = v.last().cluster@;
        if !b.contains(c) {
            pushing_keeps(b, c);
        }
        assert forall|i: int| 0 <= i < v.len() implies clusters_in(v).contains(
            (#[trigger] v[i]).cluster@,
        ) by {
            if i < v.len() - 1 {
                assert(w[i] == v[i]);
            }
        }
        assert forall|d: Seq<char>| #[trigger] clusters_in(v).contains(d) implies exists|i: int|
            0 <= i < v.len() && (#[trigger] v[i]).cluster@ == d by {
            let k = choose|k: int| 0 <= k < clusters_in(v).len() && clusters_in(v)[k] == d;
            if k < b.len() {
                assert(b[k] == d);
                assert(b.contains(d));
                let i = choose|i: int| 0 <= i < w.len() && (#[trigger] w[i]).cluster@ == d;
                assert(v[i] == w[i]);
            } else {
                assert(v[v.len() - 1].cluster@ == d);
            }
        }
    }
}

/// Each held pooler is told to let go once and in order, and where the server
/// was replaced to reconnect just before; nothing else is told.
pub proof fn releases_come_in_order(names: Seq<Seq<char>>, recreated: bool)
    ensures
        ({
            let r = release_calls(names, recreated);
            &&& !recreated ==> r.len() == names.len() && forall|i: int|
                0 <= i < names.len() ==> #[trigger] r[i] == (names[i], "resume"@)
            &&& recreated ==> r.len() == 2 * names.len() && forall|i: int|
                0 <= i < names.len() ==> r[2 * i] == (#[trigger] names[i], "reconnect"@) && r[2 * i
                    + 1] == (names[i], "resume"@)
        }),
    decreases names.len(),
{
    if names.len() > 0 {
        let before = names.drop_last();
        releases_come_in_order(before, recreated);
        let r = release_calls(names, recreated);
        let b = release_calls(before, recreated);
        if recreated {
            assert forall|i: int| 0 <= i < names.len() implies r[2 * i] == (
                #[trigger] names[i],
                "reconnect"@,
            ) && r[2 * i + 1] == (names[i], "resume"@) by {
                if i < names.len() - 1 {
                    assert(before[i] == names[i]);
                    assert(r[2 * i] == b[2 * i] && r[2 * i + 1] == b[2 * i + 1]);
                }
            }
        } else {
            assert forall|i: int| 0 <= i < names.len() implies #[trigger] r[i] == (
                names[i],
                "resume"@,
            ) by {
                if i < names.len() - 1 {
                    assert(before[i] == names[i]);
                    assert(r[i] == b[i]);
                }
            }
        }
    }
}

/// What each report leads to. A container that is there and does not fit ends
/// it; one that runs is kept, one that is down is started, and where there is
/// none it is created; it is waited for only where that was asked.
pub proof fn each_answer_decides(a: ApplyPooler, ev: Event, b: ApplyPooler, act: Act)
    requires
        follows(a, ev, b, act),
        a.wf(),
    ensures
        a.stage == Stage::Start && ev is Begin && a.clusters > 0 ==> act == Act::EnsureRole(0)
            && b.stage == Stage::Role(0),
        a.stage == Stage::Start && ev is Begin && a.clusters == 0 ==> act is EnsureAdminSecret
            && b.stage == Stage::Secret,
        a.stage matches Stage::Role(k) ==> ev is Done ==> if k + 1 < a.clusters {
            act matches Act::EnsureRole(l) && l == k + 1 && b.stage == Stage::Role(l)
        } else {
            act is EnsureAdminSecret && b.stage == Stage::Secret
        },
        a.stage == Stage::Secret && ev is Done ==> act is Probe && b.stage == Stage::Probing,
        a.stage == Stage::Probing ==> (ev matches Event::Probed { probe, diverged } ==> {
            &&& (act is Fail && b.stage == Stage::Ended) == (probe is Some && diverged is Some)
            &&& (act is Record && b.stage == Stage::Recording) == (probe is None || diverged is None)
            &&& act is Record ==> b.probe == probe
        }),
        a.stage == Stage::Recording && ev is Done ==> b.stage == Stage::Running && {
            &&& a.probe is None ==> act is Create
            &&& a.probe matches Some(p) ==> p.running ==> (act matches Act::Adopt(id) && id@ == p.id@)
            &&& a.probe matches Some(p) ==> !p.running ==> (act matches Act::Launch(id) && id@
                == p.id@)
        },
        a.stage == Stage::Running && ev is Done ==> act is Confirm && b.stage == Stage::Confirming,
        a.stage == Stage::Confirming && ev is Done && a.wait ==> act is WaitReady && b.stage
            == Stage::Waiting,
        a.stage == Stage::Confirming && ev is Done && !a.wait ==> act is Log && b.stage
            == Stage::Logging,
        a.stage == Stage::Waiting && ev is Done ==> act is Log && b.stage == Stage::Logging,
        a.stage == Stage::Logging && ev is Done ==> act == (Act::Report { created: !a.existed })
            && b.stage == Stage::Ended,
        a.stage != Stage::Start && a.stage != Stage::Ended ==> (ev matches Event::Failed(e) ==> (
        act matches Act::Fail(m) && m@ == e@) && b.stage == Stage::Ended),
        b.clusters == a.clusters && b.wait == a.wait && b.existed == a.existed,
{
}

/// What a lookup role takes: a secret that exists is proof enough; without a
/// running instance none can be made; every statement is run in turn, the
/// first that fails ends it, and the password is stored when all have
/// succeeded.
pub proof fn each_role_step_decides(
    cluster: Seq<char>,
    statements: usize,
    s: RoleStage,
    ev: RoleEvent,
    t: RoleStage,
    act: RoleAct,
)
    requires
        role_follows(cluster, statements, s, ev, t, act),
    ensures
        s == RoleStage::Asking && ev is Exists ==> act is Done && t == RoleStage::Ended,
        s == RoleStage::Asking ==> (ev matches RoleEvent::Down(e) ==> t == RoleStage::Ended && (
        act matches RoleAct::Fail(m) && occurs(m@, e@) && occurs(m@, cluster))),
        s == RoleStage::Asking && ev is Absent && statements > 0 ==> act == RoleAct::Run(0) && t
            == RoleStage::Statement(0),
        s matches RoleStage::Statement(k) ==> (ev matches RoleEvent::Ran { success, stderr } ==> {
            &&& !success ==> t == RoleStage::Ended && (act matches RoleAct::Fail(m) && occurs(
                m@,
                trimmed(stderr@),
            ))
            &&& success && k + 1 < statements ==> (act matches RoleAct::Run(l) && l == k + 1 && t
                == RoleStage::Statement(l))
            &&& success && k + 1 >= statements ==> act is Store && t == RoleStage::Storing
        }),
        s == RoleStage::Storing && ev is Stored ==> act is Done && t == RoleStage::Ended,
{
    if let RoleEvent::Down(e) = ev {
        let mid = " must be running to apply a pooler to it — the lookup role is created inside the instance: "@;
        let m = role_needs_instance(cluster, e@);
        a_part_occurs("cluster "@ + cluster + mid, e@, Seq::empty());
        assert(m =~= "cluster "@ + cluster + mid + e@ + Seq::<char>::empty());
        a_part_occurs("cluster "@, cluster, mid + e@);
        assert(m =~= "cluster "@ + cluster + (mid + e@));
    }
    if let RoleEvent::Ran { success, stderr } = ev {
        let head = "could not create the pooler lookup role on "@ + cluster + ": "@;
        let m = head + trimmed(stderr@);
        a_part_occurs(head, trimmed(stderr@), Seq::empty());
        assert(m =~= head + trimmed(stderr@) + Seq::<char>::empty());
    }
}

/// A pool is reached on this host, at the pooler's port, by its own name, and
/// two pools of different names are reached differently.
pub proof fn a_pool_is_reached_by_its_name(port: u16, a: Seq<char>, b: Seq<char>)
    ensures
        pool_uri(port, a) == pool_uri(port, b) ==> a == b,
        pool_uri(port, a) == "postgresql://127.0.0.1:"@ + decimal(port as nat) + "/"@ + a,
{
    let head = "postgresql://127.0.0.1:"@ + decimal(port as nat) + "/"@;
    let x = pool_uri(port, a);
    let y = pool_uri(port, b);
    assert(x.subrange(head.len() as int, x.len() as int) =~= a);
    assert(y.subrange(head.len() as int, y.len() as int) =~= b);
}

/// A pool is told with its own name, cluster and database, and reached by its
/// name.
pub proof fn a_summary_is_its_pools(t: PoolTarget, host_port: u16, s: PoolSummary)
    requires
        summarises(t, host_port, s),
    ensures
        s.name@ == t.name@,
        s.cluster@ == t.cluster@,
        s.database@ == t.database@,
        s.connection_uri@ == pool_uri(host_port, t.name@),
{
}

/// A pool goes by the name it was given, or else by its database's.
pub proof fn what_a_pool_goes_by(p: PoolRef)
    ensures
        p.as_name matches Some(n) ==> pool_name_of(p) == n@,
        p.as_name is None ==> pool_name_of(p) == p.database@,
{
}

/// What is said where pools cannot be told apart or a pooler cannot be held:
/// the name, and each cluster in its turn; where both pools took their names
/// from their databases, how to name them.
pub proof fn what_is_said_of_pools(
    name: Seq<char>,
    first: Seq<char>,
    second: Seq<char>,
    pooler: Seq<char>,
    e: Seq<char>,
)
    ensures
        no_default(first) == "cluster "@ + debug_form(first)
            + " has no bootstrap.initdb.database, so there is no default pool to create — name the databases explicitly under spec.clusters[].pools"@,
        collision_head(name, first, second) == "two pools would both be named "@ + debug_form(name)
            + " — one on cluster "@ + debug_form(first) + " and one on "@ + debug_form(second)
            + ". A client picks a pool by putting that name in `dbname`, so it has to be unique."@,
        collision_text(name, first, second, false) == collision_head(name, first, second)
            + " Set `as:` on one of them."@,
        crate::text::begins_with(collision_text(name, first, second, true), collision_head(name, first, second)),
        occurs(
            collision_text(name, first, second, true),
            "\n      pools: [{ database: "@ + name + ", as: "@ + first + "-"@ + name
                + " }]\n    - cluster: "@ + second + "\n      pools: [{ database: "@ + name
                + ", as: "@ + second + "-"@ + name,
        ),
        hold_failed(pooler, first, e) == "could not hold pooler "@ + pooler + " for "@ + first
            + ", so the switchover would drop connections it promised to keep: "@ + e,
{
    let head = collision_head(name, first, second);
    let t = collision_text(name, first, second, true);
    let why = "\n\nNeither was written down: a cluster with no `pools:` exports its application database under the database's own name, and both of these are called "@;
    let pre = head + why + debug_form(name)
        + ". Name them explicitly:\n\n  clusters:\n    - cluster: "@ + first;
    let mid = "\n      pools: [{ database: "@ + name + ", as: "@ + first + "-"@ + name
        + " }]\n    - cluster: "@ + second + "\n      pools: [{ database: "@ + name + ", as: "@
        + second + "-"@ + name;
    a_part_occurs(pre, mid, " }]"@);
    assert(t =~= pre + mid + " }]"@);
    assert(t.subrange(0, head.len() as int) =~= head);
}

/// A pooler's port is the manifest's; or else the one it has; or else the one
/// that was set aside for it.
pub proof fn whose_port_a_pooler_takes(
    manifest: Option<u16>,
    existing: Option<u16>,
    allocated: u16,
    r: u16,
)
    requires
        call_ensures(pooler_port, (manifest, existing, allocated), r),
    ensures
        manifest is Some ==> manifest == Some(r),
        manifest is None && existing is Some ==> existing == Some(r),
        manifest is None && existing is None ==> r == allocated,
{
}

/// A pooler is ready once it answers; while its container runs it is asked
/// again, and never once it does not.
pub proof fn how_long_a_pooler_is_asked(
    refused: Option<&str>,
    container_running: bool,
    r: Poll,
)
    requires
        call_ensures(wait_pooler_ready, (refused, container_running), r),
    ensures
        r is Ready <==> refused is None,
        r is Again <==> refused is Some && container_running,
        r is GiveUp <==> refused is Some && !container_running,
{
}

/// What `same_pooler_spec` gives back: whether the two agree in every setting,
/// every pool and every parameter.
pub proof fn which_poolers_are_the_same(a: PoolerSpec, b: PoolerSpec, r: bool)
    requires
        call_ensures(same_pooler_spec, (&a, &b), r),
    ensures
        r <==> pooler_agrees(a, b),
{
    only_a_pooler_that_fits_is_kept(Seq::empty(), b, a);
}

/// A manifest is refused exactly where it fronts a cluster that is not known
/// or sets a parameter that is not its to set.
pub proof fn which_poolers_are_refused(
    pooler: &str,
    v: Vec<Fronted>,
    r: Option<String>,
    keys: Vec<String>,
    reserved: Vec<String>,
    p: Option<String>,
)
    requires
        call_ensures(refuse_unknown, (pooler, &v), r),
        call_ensures(validate_pooler_parameters, (&keys, &reserved), p),
    ensures
        r is None <==> first_unknown(v@) is None,
        first_unknown(v@) matches Some(c) ==> (r matches Some(m) && m@ == "pooler "@ + pooler@
            + " fronts cluster "@ + c
            + ", which pgpod does not know about — apply the cluster first"@),
        p is None <==> first_reserved(texts(keys@), texts(reserved@)) is None,
        first_reserved(texts(keys@), texts(reserved@)) matches Some(k) ==> (p matches Some(m) && m@
            == "spec.pgDoorman.parameters: "@ + debug_form(k)
            + " is managed by pgpod and cannot be set here"@),
{
}

/// What pools resolve to: each claim in its place, under its name, on its
/// cluster and for its database; and to nothing exactly where the claims are
/// refused.
pub proof fn what_pools_resolve_to(
    inputs: Vec<ClusterPools>,
    r: Result<Vec<ResolvedPool>, String>,
    i: int,
)
    requires
        call_ensures(resolve_pools, (&inputs,), r),
    ensures
        r is Ok <==> resolution(inputs@) is Ok,
        r matches Err(m) ==> (resolution(inputs@) matches Err(e) && m@ == e),
        r matches Ok(v) ==> (resolution(inputs@) matches Ok(c) && {
            &&& v@.len() == c.len()
            &&& 0 <= i < c.len() ==> v@[i].name@ == c[i].name && v@[i].database@ == c[i].database
                && v@[i].cluster@ == c[i].cluster && v@[i].cluster_index == c[i].index
        }),
{
}

} // verus!
