//! What pgpod calls the things it makes.

use crate::control::model::{instance_name, Instance};
use crate::text::{begins_with, join, joined, pair_texts, strip_prefix, texts};
use vstd::prelude::*;
use vstd::string::*;

verus! {

pub const LABEL_CLUSTER: &'static str = "pgpod.cluster";

pub const LABEL_INSTANCE: &'static str = "pgpod.instance";

pub const LABEL_POOLER: &'static str = "pgpod.pooler";

/// The labels of what belongs to a cluster.
pub fn cluster_labels(cluster: &str) -> (r: Vec<(String, String)>)
    ensures
        pair_texts(r@) == seq![(LABEL_CLUSTER@, cluster@)],
{
    let mut v: Vec<(String, String)> = Vec::new();
    v.push((LABEL_CLUSTER.to_owned(), cluster.to_owned()));
    assert(pair_texts(v@) =~= seq![(LABEL_CLUSTER@, cluster@)]);
    v
}

/// Both scopes: the cluster is filtered by, the instance is matched by.
pub open spec fn labels_of(cluster: Seq<char>, ordinal: u32) -> Seq<(Seq<char>, Seq<char>)> {
    seq![(LABEL_CLUSTER@, cluster), (LABEL_INSTANCE@, instance_name(cluster, ordinal))]
}

/// The labels of what belongs to an instance.
pub fn instance_labels(instance: &Instance) -> (r: Vec<(String, String)>)
    ensures
        pair_texts(r@) == labels_of(instance.cluster@, instance.ordinal),
{
    let mut v: Vec<(String, String)> = Vec::new();
    v.push((LABEL_CLUSTER.to_owned(), instance.cluster.clone()));
    v.push((LABEL_INSTANCE.to_owned(), instance.to_text()));
    assert(pair_texts(v@) =~= labels_of(instance.cluster@, instance.ordinal));
    v
}

/// The secrets of a cluster. They are the cluster's and not an instance's: a
/// standby authenticates against its primary.
#[derive(Debug, Clone)]
pub struct SecretNames {
    pub superuser: String,
    pub replication: String,
    pub monitor: String,
    pub app_owner: String,
}

/// The name of one of a cluster's secrets.
pub open spec fn secret_name(cluster: Seq<char>, which: Seq<char>) -> Seq<char> {
    "pgpod-"@ + cluster + "-"@ + which
}

fn secret_name_of(cluster: &str, which: &str) -> (r: String)
    ensures
        r@ == secret_name(cluster@, which@),
{
    let mut s = "pgpod-".to_owned();
    s.append(cluster);
    s.append("-");
    s.append(which);
    s
}

impl SecretNames {
    /// These are the secrets of this cluster.
    pub open spec fn belong_to(&self, cluster: Seq<char>) -> bool {
        &&& self.superuser@ == secret_name(cluster, "superuser"@)
        &&& self.replication@ == secret_name(cluster, "replication"@)
        &&& self.monitor@ == secret_name(cluster, "monitor"@)
        &&& self.app_owner@ == secret_name(cluster, "app-owner"@)
    }

    /// The secrets of a cluster.
    pub fn for_cluster(cluster: &str) -> (r: Self)
        ensures
            r.belong_to(cluster@),
    {
        SecretNames {
            superuser: secret_name_of(cluster, "superuser"),
            replication: secret_name_of(cluster, "replication"),
            monitor: secret_name_of(cluster, "monitor"),
            app_owner: secret_name_of(cluster, "app-owner"),
        }
    }

    /// The four names, in order.
    pub open spec fn listed(&self) -> Seq<Seq<char>> {
        seq![self.superuser@, self.replication@, self.monitor@, self.app_owner@]
    }

    /// The four names.
    pub fn all(&self) -> (r: [&str; 4])
        ensures
            forall|i: int| 0 <= i < 4 ==> (#[trigger] r@[i])@ == self.listed()[i],
    {
        let r: [&str; 4] = [
            self.superuser.as_str(),
            self.replication.as_str(),
            self.monitor.as_str(),
            self.app_owner.as_str(),
        ];
        r
    }

    /// Each name with the same role's name of another cluster.
    pub fn paired<'a>(&'a self, source: &'a SecretNames) -> (r: [(&'a str, &'a str); 4])
        ensures
            forall|i: int|
                0 <= i < 4 ==> (#[trigger] r@[i]).0@ == self.listed()[i] && r@[i].1@
                    == source.listed()[i],
    {
        let r: [(&'a str, &'a str); 4] = [
            (self.superuser.as_str(), source.superuser.as_str()),
            (self.replication.as_str(), source.replication.as_str()),
            (self.monitor.as_str(), source.monitor.as_str()),
            (self.app_owner.as_str(), source.app_owner.as_str()),
        ];
        r
    }
}

/// Pairing goes role by role: a name of one cluster stands beside the name of
/// the same role in the other, and every role has its pair.
pub proof fn pairing_goes_role_by_role(
    target: SecretNames,
    source: SecretNames,
    to: Seq<char>,
    from: Seq<char>,
    i: int,
)
    requires
        target.belong_to(to),
        source.belong_to(from),
        0 <= i < 4,
    ensures
        exists|which: Seq<char>|
            #![trigger secret_name(to, which)]
            target.listed()[i] == secret_name(to, which) && source.listed()[i] == secret_name(
                from,
                which,
            ),
{
    let which = if i == 0 {
        "superuser"@
    } else if i == 1 {
        "replication"@
    } else if i == 2 {
        "monitor"@
    } else {
        "app-owner"@
    };
    assert(target.listed()[i] == secret_name(to, which));
}

/// The role a secret is for: what stands behind the cluster's prefix.
pub open spec fn role_in(secret: Seq<char>, cluster: Seq<char>) -> Seq<char> {
    let prefix = "pgpod-"@ + cluster + "-"@;
    if begins_with(secret, prefix) {
        secret.subrange(prefix.len() as int, secret.len() as int)
    } else {
        secret
    }
}

/// The role a secret is for.
pub fn role_of<'a>(secret: &'a str, cluster: &str) -> (r: &'a str)
    ensures
        r@ == role_in(secret@, cluster@),
{
    let mut prefix = "pgpod-".to_owned();
    prefix.append(cluster);
    prefix.append("-");
    match strip_prefix(secret, prefix.as_str()) {
        Some(t) => t,
        None => secret,
    }
}

/// A cluster's secret reduces to the role it was named for, whatever hyphens
/// the cluster's name has.
pub proof fn a_secret_reduces_to_its_role(cluster: Seq<char>, which: Seq<char>)
    ensures
        role_in(secret_name(cluster, which), cluster) == which,
{
    let prefix = "pgpod-"@ + cluster + "-"@;
    let s = secret_name(cluster, which);
    assert(s.subrange(0, prefix.len() as int) =~= prefix);
    assert(s.subrange(prefix.len() as int, s.len() as int) =~= which);
}

/// A pooler is labelled with every cluster it fronts.
pub open spec fn pooler_label_texts(pooler: Seq<char>, clusters: Seq<Seq<char>>) -> Seq<
    (Seq<char>, Seq<char>),
> {
    seq![(LABEL_POOLER@, pooler), (LABEL_CLUSTER@, joined(clusters, ","@))]
}

/// The labels of a pooler.
pub fn pooler_labels(pooler: &str, clusters: &Vec<String>) -> (r: Vec<(String, String)>)
    ensures
        pair_texts(r@) == pooler_label_texts(pooler@, texts(clusters@)),
{
    let mut v: Vec<(String, String)> = Vec::new();
    v.push((LABEL_POOLER.to_owned(), pooler.to_owned()));
    v.push((LABEL_CLUSTER.to_owned(), join(clusters, ",")));
    assert(pair_texts(v@) =~= pooler_label_texts(pooler@, texts(clusters@)));
    v
}

/// The secret of a pooler's console: the pooler's own.
pub fn pooler_admin_secret(pooler: &str) -> (r: String)
    ensures
        r@ == "pgpod-pooler-"@ + pooler@ + "-admin"@,
{
    let mut s = "pgpod-pooler-".to_owned();
    s.append(pooler);
    s.append("-admin");
    s
}

/// The secret of the role a pooler looks passwords up with: the cluster's,
/// since the role lives in the cluster's database.
pub fn pooler_lookup_secret(cluster: &str) -> (r: String)
    ensures
        r@ == "pgpod-"@ + cluster@ + "-pooler"@,
{
    let mut s = "pgpod-".to_owned();
    s.append(cluster);
    s.append("-pooler");
    s
}

/// A secret's name says whose it is and what it is for: no two clusters share
/// one for the same use, and no two uses share one in a cluster.
pub proof fn secrets_are_told_apart(c: Seq<char>, d: Seq<char>, u: Seq<char>, v: Seq<char>)
    ensures
        secret_name(c, u) == secret_name(c, v) ==> u == v,
        secret_name(c, u) == secret_name(d, u) ==> c == d,
        secret_name(c, u) == "pgpod-"@ + c + "-"@ + u,
{
    a_secret_reduces_to_its_role(c, u);
    a_secret_reduces_to_its_role(c, v);
    let head = "pgpod-"@;
    let a = secret_name(c, u);
    let b = secret_name(d, u);
    if a == b {
        assert(a.len() == head.len() + c.len() + "-"@.len() + u.len());
        assert(b.len() == head.len() + d.len() + "-"@.len() + u.len());
        assert(a.subrange(head.len() as int, head.len() as int + c.len()) =~= c);
        assert(b.subrange(head.len() as int, head.len() as int + d.len()) =~= d);
    }
}

/// The secrets of a cluster, by use.
pub proof fn secrets_by_use(n: SecretNames, cluster: Seq<char>)
    requires
        n.belong_to(cluster),
    ensures
        n.superuser@ == "pgpod-"@ + cluster + "-"@ + "superuser"@,
        n.replication@ == "pgpod-"@ + cluster + "-"@ + "replication"@,
        n.monitor@ == "pgpod-"@ + cluster + "-"@ + "monitor"@,
        n.app_owner@ == "pgpod-"@ + cluster + "-"@ + "app-owner"@,
        n.listed().len() == 4,
        n.listed()[0] == n.superuser@,
        n.listed()[1] == n.replication@,
        n.listed()[2] == n.monitor@,
        n.listed()[3] == n.app_owner@,
{
}

/// An instance is labelled with its cluster and with its own name, and a
/// pooler with its own name and every cluster it fronts.
pub proof fn labels_say_whose_it_is(
    cluster: Seq<char>,
    ordinal: u32,
    pooler: Seq<char>,
    clusters: Seq<Seq<char>>,
)
    ensures
        labels_of(cluster, ordinal) == seq![
            ("pgpod.cluster"@, cluster),
            ("pgpod.instance"@, instance_name(cluster, ordinal)),
        ],
        pooler_label_texts(pooler, clusters) == seq![
            ("pgpod.pooler"@, pooler),
            ("pgpod.cluster"@, joined(clusters, ","@)),
        ],
{
}

} // verus!
