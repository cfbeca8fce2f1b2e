//! The secrets of a cluster: kept, adopted from where it was restored from,
//! or generated.

use crate::control::names::{
    a_secret_reduces_to_its_role, role_of, secret_name, SecretNames,
};
use crate::text::{
    every_part_is_there, join, joined, occurs, opt_text, pair_texts, push_pair, push_text, same, texts,
    a_part_occurs, a_part_of_a_part_occurs,
};
use vstd::prelude::*;
use vstd::string::*;

verus! {

/// The database's superuser.
pub const SUPERUSER_ROLE: &'static str = "postgres";

/// What podman knows of a secret.
#[derive(Debug, Clone, Copy, PartialEq, Eq, Structural)]
pub struct SecretFact {
    pub exists: bool,
    /// The source's secret for the same role has a value on this host.
    pub adoptable: bool,
}

/// What is done about a secret.
#[derive(Debug, Clone, Copy, PartialEq, Eq, Structural)]
pub enum SecretStep {
    /// It is not wanted.
    Skip,
    /// It is there.
    Keep,
    /// It takes the source's value.
    Adopt,
    Generate,
}

/// What is done about all of them.
#[derive(Debug, Clone)]
pub struct SecretPlan {
    pub names: SecretNames,
    /// One for each of the four names, in order.
    pub steps: Vec<SecretStep>,
    /// The database role and the secret of each password to rotate.
    pub rotate: Vec<(String, String)>,
    /// What is logged where passwords have to be rotated.
    pub event: Option<String>,
}

/// What each of the four secrets is for.
pub open spec fn which_of(i: int) -> Seq<char> {
    if i == 0 {
        "superuser"@
    } else if i == 1 {
        "replication"@
    } else if i == 2 {
        "monitor"@
    } else {
        "app-owner"@
    }
}

/// What is done about a secret. What exists is never replaced, and only a
/// restore adopts.
pub open spec fn step_for(i: int, restored: bool, wants_app: bool, f: SecretFact) -> SecretStep {
    if i == 3 && !wants_app {
        SecretStep::Skip
    } else if f.exists {
        SecretStep::Keep
    } else if restored && f.adoptable {
        SecretStep::Adopt
    } else {
        SecretStep::Generate
    }
}

/// The secrets among the first `n` that a restore could not adopt.
pub open spec fn unavailable_upto(
    n: nat,
    restored: bool,
    wants_app: bool,
    facts: Seq<SecretFact>,
) -> Seq<Seq<char>>
    decreases n,
{
    if n == 0 {
        Seq::empty()
    } else {
        let before = unavailable_upto((n - 1) as nat, restored, wants_app, facts);
        if restored && step_for(n - 1, restored, wants_app, facts[n - 1]) == SecretStep::Generate {
            before.push(which_of(n - 1))
        } else {
            before
        }
    }
}

/// The database roles behind the secrets.
#[derive(Debug, Clone)]
pub struct Roles {
    pub replication: String,
    pub monitor: String,
    pub owner: Option<String>,
}

/// The database role a secret is the password of.
pub open spec fn role_behind(which: Seq<char>, roles: Roles) -> Option<Seq<char>> {
    if which == "superuser"@ {
        Some(SUPERUSER_ROLE@)
    } else if which == "replication"@ {
        Some(roles.replication@)
    } else if which == "monitor"@ {
        Some(roles.monitor@)
    } else if which == "app-owner"@ {
        opt_text(roles.owner)
    } else {
        None
    }
}

/// The passwords to rotate: those of the roles that exist.
pub open spec fn rotations(whiches: Seq<Seq<char>>, roles: Roles) -> Seq<(Seq<char>, Seq<char>)>
    decreases whiches.len(),
{
    if whiches.len() == 0 {
        Seq::empty()
    } else {
        let before = rotations(whiches.drop_last(), roles);
        match role_behind(whiches.last(), roles) {
            Some(r) => before.push((r, whiches.last())),
            None => before,
        }
    }
}

pub open spec fn rotation_event(from: Seq<char>, whiches: Seq<Seq<char>>) -> Seq<char> {
    "restored from "@ + from + ", whose secrets are not on this host — rotating "@ + joined(
        whiches,
        ", "@,
    ) + " to freshly generated passwords so the cluster is reachable"@
}

fn role_of_secret(which: &str, roles: &Roles) -> (r: Option<String>)
    ensures
        opt_text(r) == role_behind(which@, *roles),
{
    if same(which, "superuser") {
        Some(SUPERUSER_ROLE.to_owned())
    } else if same(which, "replication") {
        Some(roles.replication.clone())
    } else if same(which, "monitor") {
        Some(roles.monitor.clone())
    } else if same(which, "app-owner") {
        match &roles.owner {
            Some(o) => Some(o.clone()),
            None => None,
        }
    } else {
        None
    }
}

fn rotations_of(whiches: &Vec<String>, roles: &Roles) -> (r: Vec<(String, String)>)
    ensures
        pair_texts(r@) == rotations(texts(whiches@), *roles),
{
    let mut out: Vec<(String, String)> = Vec::new();
    let ghost all = texts(whiches@);
    let mut i: usize = 0;
    assert(pair_texts(out@) =~= rotations(all.take(0), *roles));
    while i < whiches.len()
        invariant
            i <= whiches.len(),
            all == texts(whiches@),
            pair_texts(out@) == rotations(all.take(i as int), *roles),
        decreases whiches.len() - i,
    {
        assert(all.take(i + 1).drop_last() =~= all.take(i as int));
        assert(all.take(i + 1).last() == whiches@[i as int]@);
        if let Some(role) = role_of_secret(whiches[i].as_str(), roles) {
            push_pair(&mut out, role.as_str(), whiches[i].as_str());
        }
        i = i + 1;
    }
    assert(all.take(i as int) =~= all);
    out
}

/// Decides what to do about the secrets of a cluster. A cluster restored from
/// `source` has its roles from there, so it takes the source's passwords
/// where they are to be had; where they are not, fresh ones are generated and
/// the roles are made to match.
pub fn ensure_secrets(
    cluster: &str,
    source: Option<&str>,
    wants_app: bool,
    facts: &Vec<SecretFact>,
    roles: &Roles,
) -> (r: SecretPlan)
    requires
        facts.len() == 4,
    ensures
        r.names.belong_to(cluster@),
        r.steps@ == Seq::new(
            4,
            |i: int| step_for(i, source is Some, wants_app, facts@[i]),
        ),
        ({
            let missing = unavailable_upto(4, source is Some, wants_app, facts@);
            &&& pair_texts(r.rotate@) == rotations(missing, *roles)
            &&& opt_text(r.event) == (if missing.len() == 0 {
                None
            } else {
                Some(rotation_event(source->0@, missing))
            })
        }),
{
    let names = SecretNames::for_cluster(cluster);
    let restored = source.is_some();
    let mut steps: Vec<SecretStep> = Vec::new();
    let mut missing: Vec<String> = Vec::new();
    let mut i: usize = 0;
    assert(texts(missing@) =~= unavailable_upto(0, restored, wants_app, facts@));
    while i < 4
        invariant
            i <= 4,
            facts.len() == 4,
            names.belong_to(cluster@),
            restored == (source is Some),
            steps.len() == i,
            forall|k: int|
                0 <= k < i ==> steps@[k] == step_for(k, restored, wants_app, facts@[k]),
            texts(missing@) == unavailable_upto(i as nat, restored, wants_app, facts@),
        decreases 4 - i,
    {
        let all = names.all();
        let f = facts[i];
        let step = if i == 3 && !wants_app {
            SecretStep::Skip
        } else if f.exists {
            SecretStep::Keep
        } else if restored && f.adoptable {
            SecretStep::Adopt
        } else {
            SecretStep::Generate
        };
        if restored && step == SecretStep::Generate {
            let role = role_of(all[i], cluster);
            proof {
                assert(all@[i as int]@ == names.listed()[i as int]);
                a_secret_reduces_to_its_role(cluster@, which_of(i as int));
                assert(names.listed()[i as int] == secret_name(cluster@, which_of(i as int)));
            }
            push_text(&mut missing, role.to_owned());
        }
        steps.push(step);
        i = i + 1;
    }
    assert(steps@ =~= Seq::new(4, |i: int| step_for(i, source is Some, wants_app, facts@[i])));
    let rotate = rotations_of(&missing, roles);
    assert(texts(missing@).len() == missing.len());
    proof {
        nothing_missing_without_a_source(4, wants_app, facts@);
    }
    let event = if missing.len() == 0 {
        None
    } else {
        match source {
            Some(from) => {
                let mut s = "restored from ".to_owned();
                s.append(from);
                s.append(", whose secrets are not on this host — rotating ");
                s.append(join(&missing, ", ").as_str());
                s.append(" to freshly generated passwords so the cluster is reachable");
                Some(s)
            },
            None => None,
        }
    };
    SecretPlan { names, steps, rotate, event }
}

/// A cluster that was not restored has no password to rotate.
pub proof fn nothing_missing_without_a_source(n: nat, wants_app: bool, facts: Seq<SecretFact>)
    ensures
        unavailable_upto(n, false, wants_app, facts) == Seq::<Seq<char>>::empty(),
    decreases n,
{
    if n > 0 {
        nothing_missing_without_a_source((n - 1) as nat, wants_app, facts);
    }
}

/// A restore leaves no role unreachable: each wanted secret exists already,
/// takes the source's value, or is generated and stands among those to
/// rotate.
pub proof fn no_restored_role_is_left_behind(wants_app: bool, facts: Seq<SecretFact>, i: int)
    requires
        facts.len() == 4,
        0 <= i < 4,
        i < 3 || wants_app,
        !facts[i].exists,
        !facts[i].adoptable,
    ensures
        unavailable_upto(4, true, wants_app, facts).contains(which_of(i)),
{
    reveal_with_fuel(unavailable_upto, 5);
    let u1 = unavailable_upto(1, true, wants_app, facts);
    let u2 = unavailable_upto(2, true, wants_app, facts);
    let u3 = unavailable_upto(3, true, wants_app, facts);
    let u4 = unavailable_upto(4, true, wants_app, facts);
    if i == 0 {
        assert(u1[0] == which_of(0));
        assert(u2[0] == which_of(0));
        assert(u3[0] == which_of(0));
        assert(u4[0] == which_of(0));
    } else if i == 1 {
        assert(u2.last() == which_of(1));
        let k = u2.len() - 1;
        assert(u3[k] == which_of(1));
        assert(u4[k] == which_of(1));
    } else if i == 2 {
        assert(u3.last() == which_of(2));
        assert(u4[u3.len() - 1] == which_of(2));
    } else {
        assert(u4.last() == which_of(3));
    }
}

// ---- rotating --------------------------------------------------------

/// The secret behind a rotation.
pub open spec fn secret_behind(which: Seq<char>, names: SecretNames) -> Seq<char> {
    if which == "superuser"@ {
        names.superuser@
    } else if which == "replication"@ {
        names.replication@
    } else if which == "monitor"@ {
        names.monitor@
    } else {
        names.app_owner@
    }
}

/// The secret behind a rotation.
pub fn secret_for<'a>(which: &str, names: &'a SecretNames) -> (r: &'a str)
    ensures
        r@ == secret_behind(which@, *names),
{
    if same(which, "superuser") {
        names.superuser.as_str()
    } else if same(which, "replication") {
        names.replication.as_str()
    } else if same(which, "monitor") {
        names.monitor.as_str()
    } else {
        names.app_owner.as_str()
    }
}

/// What is said when a rotation fails.
pub open spec fn rotation_failed(
    quoted_role: Seq<char>,
    cluster: Seq<char>,
    stderr: Seq<char>,
) -> Seq<char> {
    "could not rotate the "@ + quoted_role + " password on restored cluster "@ + cluster
        + ", so it would not be reachable with the credentials pgpod stores: "@ + stderr
}

/// What came of a rotation.
pub fn rotate_restored_role(role: &str, cluster: &str, success: bool, stderr: &str) -> (r: Result<
    String,
    String,
>)
    ensures
        match r {
            Ok(event) => success && event@ == "rotated the "@ + role@
                + " password after restore"@,
            Err(m) => !success && m@ == rotation_failed(
                crate::text::debug_form(role@),
                cluster@,
                crate::text::trimmed(stderr@),
            ),
        },
{
    if success {
        let mut s = "rotated the ".to_owned();
        s.append(role);
        s.append(" password after restore");
        Ok(s)
    } else {
        let mut s = "could not rotate the ".to_owned();
        s.append(crate::text::debug_quoted(role).as_str());
        s.append(" password on restored cluster ");
        s.append(cluster);
        s.append(", so it would not be reachable with the credentials pgpod stores: ");
        s.append(crate::text::trim(stderr));
        Err(s)
    }
}

/// Rotating uses the very secret that was generated: a role's password is
/// read back from the secret of the same role.
pub proof fn a_rotation_reads_its_own_secret(cluster: Seq<char>, names: SecretNames, i: int)
    requires
        names.belong_to(cluster),
        0 <= i < 4,
    ensures
        secret_behind(which_of(i), names) == names.listed()[i],
{
    reveal_strlit("superuser");
    reveal_strlit("replication");
    reveal_strlit("monitor");
    reveal_strlit("app-owner");
    assert("superuser"@[0] == 's' && "replication"@[0] == 'r' && "monitor"@[0] == 'm'
        && "app-owner"@[0] == 'a');
}

/// What is done about a secret: what exists is never replaced; a restored
/// cluster takes its source's where that is to be had, and no other cluster
/// does; what is left is generated; and an application's owner has one only
/// where there is an application.
pub proof fn what_is_done_about_a_secret(i: int, restored: bool, wants_app: bool, f: SecretFact)
    requires
        0 <= i < 4,
    ensures
        i == 3 && !wants_app <==> step_for(i, restored, wants_app, f) == SecretStep::Skip,
        (i < 3 || wants_app) && f.exists <==> step_for(i, restored, wants_app, f)
            == SecretStep::Keep,
        (i < 3 || wants_app) && !f.exists && restored && f.adoptable <==> step_for(
            i,
            restored,
            wants_app,
            f,
        ) == SecretStep::Adopt,
        (i < 3 || wants_app) && !f.exists && !(restored && f.adoptable) <==> step_for(
            i,
            restored,
            wants_app,
            f,
        ) == SecretStep::Generate,
{
}

/// The four secrets, by what they are for.
pub proof fn the_four_secrets()
    ensures
        which_of(0) == "superuser"@,
        which_of(1) == "replication"@,
        which_of(2) == "monitor"@,
        which_of(3) == "app-owner"@,
{
}

proof fn the_four_differ()
    ensures
        "superuser"@ != "replication"@,
        "superuser"@ != "monitor"@,
        "superuser"@ != "app-owner"@,
        "replication"@ != "monitor"@,
        "replication"@ != "app-owner"@,
        "monitor"@ != "app-owner"@,
{
    reveal_strlit("superuser");
    reveal_strlit("replication");
    reveal_strlit("monitor");
    reveal_strlit("app-owner");
    assert("superuser"@[0] == 's' && "replication"@[0] == 'r' && "monitor"@[0] == 'm'
        && "app-owner"@[0] == 'a');
}

/// Each secret is the password of its own database role.
pub proof fn a_secret_is_its_roles_password(roles: Roles)
    ensures
        role_behind("superuser"@, roles) == Some("postgres"@),
        role_behind("replication"@, roles) == Some(roles.replication@),
        role_behind("monitor"@, roles) == Some(roles.monitor@),
        role_behind("app-owner"@, roles) == opt_text(roles.owner),
{
    the_four_differ();
}

/// What a restore could not adopt is exactly what it has to generate.
pub proof fn only_what_is_generated_is_rotated(wants_app: bool, facts: Seq<SecretFact>, i: int)
    requires
        facts.len() == 4,
        0 <= i < 4,
    ensures
        unavailable_upto(4, true, wants_app, facts).contains(which_of(i)) <==> (i < 3 || wants_app)
            && !facts[i].exists && !facts[i].adoptable,
        unavailable_upto(4, true, wants_app, facts).len() <= 4,
{
    the_four_differ();
    let u1 = unavailable_upto(1, true, wants_app, facts);
    let u2 = unavailable_upto(2, true, wants_app, facts);
    let u3 = unavailable_upto(3, true, wants_app, facts);
    let u4 = unavailable_upto(4, true, wants_app, facts);
    reveal_with_fuel(unavailable_upto, 5);
    if (i < 3 || wants_app) && !facts[i].exists && !facts[i].adoptable {
        no_restored_role_is_left_behind(wants_app, facts, i);
    } else if u4.contains(which_of(i)) {
        let k = choose|k: int| 0 <= k < u4.len() && u4[k] == which_of(i);
        if k < u3.len() {
            assert(u4[k] == u3[k]);
            if k < u2.len() {
                assert(u3[k] == u2[k]);
                if k < u1.len() {
                    assert(u2[k] == u1[k]);
                }
            }
        }
    }
}

/// A role whose password has to be rotated is rotated to the secret of the
/// same use, in order; a use without a role is passed over.
pub proof fn one_rotation_more(whiches: Seq<Seq<char>>, w: Seq<char>, roles: Roles)
    ensures
        rotations(Seq::empty(), roles).len() == 0,
        role_behind(w, roles) matches Some(r) ==> rotations(whiches.push(w), roles) == rotations(
            whiches,
            roles,
        ).push((r, w)),
        role_behind(w, roles) is None ==> rotations(whiches.push(w), roles) == rotations(
            whiches,
            roles,
        ),
{
    assert(whiches.push(w).drop_last() =~= whiches);
}

/// The note of a rotation says where the cluster is from and names each
/// password.
pub proof fn a_rotation_note_names_each(from: Seq<char>, whiches: Seq<Seq<char>>, i: int)
    requires
        0 <= i < whiches.len(),
    ensures
        occurs(rotation_event(from, whiches), from),
        occurs(rotation_event(from, whiches), whiches[i]),
{
    let mid = ", whose secrets are not on this host — rotating "@;
    let end = " to freshly generated passwords so the cluster is reachable"@;
    let all = joined(whiches, ", "@);
    every_part_is_there(whiches, ", "@, i);
    a_part_of_a_part_occurs("restored from "@ + from + mid, all, end, whiches[i]);
    a_part_occurs("restored from "@, from, mid + all + end);
    assert(rotation_event(from, whiches) =~= "restored from "@ + from + (mid + all + end));
}

/// A rotation reads the secret of its own use.
pub proof fn each_use_has_its_secret(names: SecretNames)
    ensures
        secret_behind("superuser"@, names) == names.superuser@,
        secret_behind("replication"@, names) == names.replication@,
        secret_behind("monitor"@, names) == names.monitor@,
        secret_behind("app-owner"@, names) == names.app_owner@,
{
    the_four_differ();
}

/// What is said of a password that could not be changed: whose, where and why.
pub proof fn what_is_said_of_a_failed_rotation(
    quoted_role: Seq<char>,
    cluster: Seq<char>,
    stderr: Seq<char>,
)
    ensures
        rotation_failed(quoted_role, cluster, stderr) == "could not rotate the "@ + quoted_role
            + " password on restored cluster "@ + cluster
            + ", so it would not be reachable with the credentials pgpod stores: "@ + stderr,
{
}

/// A password counts as changed exactly where the change went through.
pub proof fn when_a_password_was_changed(
    role: &str,
    cluster: &str,
    success: bool,
    stderr: &str,
    r: Result<String, String>,
)
    requires
        call_ensures(rotate_restored_role, (role, cluster, success, stderr), r),
    ensures
        r is Ok <==> success,
        r matches Ok(m) ==> m@ == "rotated the "@ + role@ + " password after restore"@,
{
}

} // verus!
